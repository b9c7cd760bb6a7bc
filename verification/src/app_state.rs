//! The state that an application shows of its enrollment and services, and
//! the notifications that it sends.

use vstd::prelude::*;

verus! {

/// How grave a notification is.
#[derive(Clone, Copy, Debug, PartialEq, Eq, Structural)]
pub enum Kind {
    Information,
    Warning,
    Error,
}

impl Kind {
    pub open spec fn spec_code(self) -> u8 {
        match self {
            Kind::Information => 0,
            Kind::Warning => 1,
            Kind::Error => 2,
        }
    }

    /// The number that stands for the kind across a boundary.
    #[verifier::when_used_as_spec(spec_code)]
    pub fn code(self) -> (code: u8)
        ensures
            code == self.spec_code(),
    {
        match self {
            Kind::Information => 0,
            Kind::Warning => 1,
            Kind::Error => 2,
        }
    }
}

/// A message for the user.
#[derive(Clone, Debug)]
pub struct Notification {
    pub kind: Kind,
    pub title: String,
    pub message: String,
}

impl Notification {
    pub fn new(kind: Kind, title: String, message: String) -> (notification: Self)
        ensures
            notification.kind == kind,
            notification.title == title,
            notification.message == message,
    {
        Notification { kind, title, message }
    }
}

/// Where the connection to the orchestrator stands.
#[derive(Clone, Copy, Debug, PartialEq, Eq, Structural)]
pub enum OrchestratorStatus {
    Disconnected,
    Connecting,
    Connected,
    WaitingForToken,
    RetrievingSpace,
    RetrievingProject,
}

impl Default for OrchestratorStatus {
    fn default() -> (status: Self)
        ensures
            status == OrchestratorStatus::Disconnected,
    {
        OrchestratorStatus::Disconnected
    }
}

impl OrchestratorStatus {
    pub open spec fn spec_code(self) -> u8 {
        match self {
            OrchestratorStatus::Disconnected => 0,
            OrchestratorStatus::Connecting => 1,
            OrchestratorStatus::Connected => 2,
            OrchestratorStatus::WaitingForToken => 3,
            OrchestratorStatus::RetrievingSpace => 4,
            OrchestratorStatus::RetrievingProject => 5,
        }
    }

    /// The number that stands for the status across a boundary.
    #[verifier::when_used_as_spec(spec_code)]
    pub fn code(self) -> (code: u8)
        ensures
            code == self.spec_code(),
    {
        match self {
            OrchestratorStatus::Disconnected => 0,
            OrchestratorStatus::Connecting => 1,
            OrchestratorStatus::Connected => 2,
            OrchestratorStatus::WaitingForToken => 3,
            OrchestratorStatus::RetrievingSpace => 4,
            OrchestratorStatus::RetrievingProject => 5,
        }
    }
}

/// Someone a service is shared with.
#[derive(Default, Clone, Debug)]
pub struct Invitee {
    pub name: Option<String>,
    pub email: String,
}

/// An invitation that was received.
#[derive(Default, Clone, Debug)]
pub struct Invite {
    pub id: String,
    pub service_name: String,
    pub service_scheme: Option<String>,
}

/// A service of this node.
#[derive(Default, Clone, Debug)]
pub struct LocalService {
    pub name: String,
    pub address: String,
    pub port: u16,
    pub scheme: Option<String>,
    pub shared_with: Vec<Invitee>,
    pub available: bool,
}

/// A service that someone else shares.
#[derive(Default, Clone, Debug)]
pub struct Service {
    pub source_name: String,
    pub address: String,
    pub port: u16,
    pub scheme: Option<String>,
    pub available: bool,
}

/// The invitations and services of one owner.
#[derive(Default, Clone, Debug)]
pub struct ServiceGroup {
    pub email: String,
    pub name: Option<String>,
    pub image_url: Option<String>,
    pub invites: Vec<Invite>,
    pub incoming_services: Vec<Service>,
}

/// What the application shows.
#[derive(Default, Clone, Debug)]
pub struct ApplicationState {
    pub enrolled: bool,
    pub orchestrator_status: OrchestratorStatus,
    pub enrollment_name: Option<String>,
    pub enrollment_email: Option<String>,
    pub enrollment_image: Option<String>,
    pub enrollment_github_user: Option<String>,
    pub local_services: Vec<LocalService>,
    pub groups: Vec<ServiceGroup>,
}

/// Whether a state is that of an application that is not enrolled: it is
/// disconnected and shows no user, service or group.
pub open spec fn is_empty_state(state: ApplicationState) -> bool {
    &&& !state.enrolled
    &&& state.orchestrator_status == OrchestratorStatus::Disconnected
    &&& state.enrollment_name is None
    &&& state.enrollment_email is None
    &&& state.enrollment_image is None
    &&& state.enrollment_github_user is None
    &&& state.local_services@.len() == 0
    &&& state.groups@.len() == 0
}

/// The state that is shown where the real one cannot be had.
pub fn empty_state() -> (state: ApplicationState)
    ensures
        is_empty_state(state),
{
    ApplicationState {
        enrolled: false,
        orchestrator_status: OrchestratorStatus::Disconnected,
        enrollment_name: None,
        enrollment_email: None,
        enrollment_image: None,
        enrollment_github_user: None,
        local_services: Vec::new(),
        groups: Vec::new(),
    }
}

} // verus!
