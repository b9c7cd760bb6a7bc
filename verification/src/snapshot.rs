//! The application state as it is put together from what a node knows: its
//! outlets, the invitations it sent, received and accepted, and the user.

use vstd::prelude::*;
use crate::app_state::{
    ApplicationState, Invite, Invitee, LocalService, OrchestratorStatus, Service, ServiceGroup,
};

verus! {

/// A service of this node that others can be invited to.
#[derive(Default, Clone, Debug)]
pub struct Outlet {
    pub worker_address: String,
    pub ip: String,
    pub port: u16,
}

/// An invitation that this node's user sent.
#[derive(Default, Clone, Debug)]
pub struct SentInvitation {
    pub target_id: String,
    pub recipient_email: String,
}

/// An invitation that waits for this node's user.
#[derive(Default, Clone, Debug)]
pub struct ReceivedInvitation {
    pub id: String,
    pub owner_email: String,
    pub target_id: String,
}

/// What an accepted invitation says of how to reach the service.
#[derive(Default, Clone, Debug)]
pub struct AccessDetails {
    /// The name of the service, where it can be read.
    pub service_name: Option<String>,
}

/// An invitation that this node's user accepted.
#[derive(Default, Clone, Debug)]
pub struct AcceptedInvitation {
    pub id: String,
    pub owner_email: String,
    pub service_access_details: Option<AccessDetails>,
}

/// The local end of a service that an accepted invitation gave access to.
#[derive(Default, Clone, Debug)]
pub struct Inlet {
    pub invitation_id: String,
    pub ip: String,
    pub port: u16,
    pub enabled: bool,
}

/// All the invitations that a node knows of.
#[derive(Default, Clone, Debug)]
pub struct InvitationState {
    pub sent: Vec<SentInvitation>,
    pub received: Vec<ReceivedInvitation>,
    pub accepted: Vec<AcceptedInvitation>,
    pub inlets: Vec<Inlet>,
}

/// Who is enrolled.
#[derive(Default, Clone, Debug)]
pub struct UserInfo {
    pub name: String,
    pub email: String,
    pub picture: String,
    pub nickname: String,
}

/// Model of a shared service, with its texts as characters.
pub struct ServiceView {
    pub source_name: Seq<char>,
    pub address: Seq<char>,
    pub port: u16,
    pub scheme: Option<Seq<char>>,
    pub available: bool,
}

pub open spec fn service_view(service: Service) -> ServiceView {
    ServiceView {
        source_name: service.source_name@,
        address: service.address@,
        port: service.port,
        scheme: match service.scheme {
            Some(s) => Some(s@),
            None => None,
        },
        available: service.available,
    }
}

pub open spec fn services_view(services: Seq<Service>) -> Seq<ServiceView> {
    Seq::new(services.len(), |i: int| service_view(services[i]))
}

/// The service is shown under this name where its own cannot be read.
pub open spec fn unknown_service_name() -> Seq<char> {
    "unknown"@
}

/// Those among the first `n` sent invitations that are for `target`, each as
/// the invitee it went to.
pub open spec fn invitees(sent: Seq<SentInvitation>, target: Seq<char>, n: nat) -> Seq<Invitee>
    decreases n,
{
    if n == 0 {
        Seq::empty()
    } else {
        let earlier = invitees(sent, target, (n - 1) as nat);
        let last = sent[n - 1];
        if last.target_id@ == target {
            earlier.push(Invitee { name: Some(last.recipient_email), email: last.recipient_email })
        } else {
            earlier
        }
    }
}

/// Those among the first `n` received invitations that `owner` sent.
pub open spec fn invites_of(received: Seq<ReceivedInvitation>, owner: Seq<char>, n: nat) -> Seq<Invite>
    decreases n,
{
    if n == 0 {
        Seq::empty()
    } else {
        let earlier = invites_of(received, owner, (n - 1) as nat);
        let last = received[n - 1];
        if last.owner_email@ == owner {
            earlier.push(Invite { id: last.id, service_name: last.target_id, service_scheme: None })
        } else {
            earlier
        }
    }
}

/// Whether `i` is the first position of an inlet for the invitation `id`.
pub open spec fn is_first_inlet(inlets: Seq<Inlet>, id: Seq<char>, i: int) -> bool {
    &&& 0 <= i < inlets.len()
    &&& inlets[i].invitation_id@ == id
    &&& forall|j: int| 0 <= j < i ==> (#[trigger] inlets[j]).invitation_id@ != id
}

/// Whether there is an inlet for the invitation `id`.
pub open spec fn has_inlet(inlets: Seq<Inlet>, id: Seq<char>) -> bool {
    exists|i: int| is_first_inlet(inlets, id, i)
}

/// The inlet for the invitation `id`.
pub open spec fn inlet_for(inlets: Seq<Inlet>, id: Seq<char>) -> Inlet {
    inlets[choose|i: int| is_first_inlet(inlets, id, i)]
}

/// The service that an accepted invitation with access details shows through
/// `inlet`.
pub open spec fn incoming_service(details: AccessDetails, inlet: Inlet) -> ServiceView {
    ServiceView {
        source_name: match details.service_name {
            Some(name) => name@,
            None => unknown_service_name(),
        },
        address: inlet.ip@,
        port: inlet.port,
        scheme: None,
        available: inlet.enabled,
    }
}

/// The services of `owner` among the first `n` accepted invitations: those
/// with access details and an inlet.
pub open spec fn services_of(
    accepted: Seq<AcceptedInvitation>,
    inlets: Seq<Inlet>,
    owner: Seq<char>,
    n: nat,
) -> Seq<ServiceView>
    decreases n,
{
    if n == 0 {
        Seq::empty()
    } else {
        let earlier = services_of(accepted, inlets, owner, (n - 1) as nat);
        let last = accepted[n - 1];
        if last.owner_email@ == owner && last.service_access_details is Some && has_inlet(
            inlets,
            last.id@,
        ) {
            earlier.push(incoming_service(last.service_access_details->0, inlet_for(inlets, last.id@)))
        } else {
            earlier
        }
    }
}

/// Whether `email` is among `owners`.
pub open spec fn has_owner(owners: Seq<String>, email: Seq<char>) -> bool {
    exists|i: int| 0 <= i < owners.len() && (#[trigger] owners[i])@ == email
}

/// `owners` with `email` at its end, unless it is in it.
pub open spec fn with_owner(owners: Seq<String>, email: String) -> Seq<String> {
    if has_owner(owners, email@) {
        owners
    } else {
        owners.push(email)
    }
}

/// The owners of the first `n` accepted invitations, each once, in the order
/// in which they first occur.
pub open spec fn accepted_owners(accepted: Seq<AcceptedInvitation>, n: nat) -> Seq<String>
    decreases n,
{
    if n == 0 {
        Seq::empty()
    } else {
        with_owner(accepted_owners(accepted, (n - 1) as nat), accepted[n - 1].owner_email)
    }
}

/// The owners of all accepted and of the first `n` received invitations, each
/// once, in the order in which they first occur.
pub open spec fn group_owners(
    accepted: Seq<AcceptedInvitation>,
    received: Seq<ReceivedInvitation>,
    n: nat,
) -> Seq<String>
    decreases n,
{
    if n == 0 {
        accepted_owners(accepted, accepted.len())
    } else {
        with_owner(group_owners(accepted, received, (n - 1) as nat), received[n - 1].owner_email)
    }
}

/// Whether `shown` is how `outlet` is shown, given the invitations sent.
pub open spec fn shows_outlet(shown: LocalService, outlet: Outlet, sent: Seq<SentInvitation>) -> bool {
    &&& shown.name == outlet.worker_address
    &&& shown.address == outlet.ip
    &&& shown.port == outlet.port
    &&& shown.scheme is None
    &&& shown.available
    &&& shown.shared_with@ == invitees(sent, outlet.worker_address@, sent.len())
}

/// Whether `group` is the group of `owner`, given the invitations.
pub open spec fn shows_group(group: ServiceGroup, owner: String, invitations: InvitationState) -> bool {
    &&& group.email == owner
    &&& group.name is None
    &&& group.image_url is None
    &&& group.invites@ == invites_of(invitations.received@, owner@, invitations.received@.len())
    &&& services_view(group.incoming_services@) == services_of(
        invitations.accepted@,
        invitations.inlets@,
        owner@,
        invitations.accepted@.len(),
    )
}

/// Whether `state` is what an enrolled node shows: the user, one local
/// service for each outlet in their order, and one group for each owner of
/// an invitation.
pub open spec fn shows_enrolled(
    state: ApplicationState,
    outlets: Seq<Outlet>,
    invitations: InvitationState,
    user: UserInfo,
) -> bool {
    &&& state.enrollment_name == Some(user.name)
    &&& state.enrollment_email == Some(user.email)
    &&& state.enrollment_image == Some(user.picture)
    &&& state.enrollment_github_user == Some(user.nickname)
    &&& state.local_services@.len() == outlets.len()
    &&& forall|i: int|
        0 <= i < outlets.len() ==> shows_outlet(
            #[trigger] state.local_services@[i],
            outlets[i],
            invitations.sent@,
        )
    &&& state.groups@.len() == group_owners(
        invitations.accepted@,
        invitations.received@,
        invitations.received@.len(),
    ).len()
    &&& forall|i: int|
        0 <= i < state.groups@.len() ==> shows_group(
            #[trigger] state.groups@[i],
            group_owners(invitations.accepted@, invitations.received@, invitations.received@.len())[i],
            invitations,
        )
}

/// Whether `state` is what a node shows that is not enrolled.
pub open spec fn shows_not_enrolled(state: ApplicationState) -> bool {
    &&& state.enrollment_name is None
    &&& state.enrollment_email is None
    &&& state.enrollment_image is None
    &&& state.enrollment_github_user is None
    &&& state.local_services@.len() == 0
    &&& state.groups@.len() == 0
}

/// Whether no two of `owners` are the same email.
pub open spec fn distinct_owners(owners: Seq<String>) -> bool {
    forall|i: int, j: int| 0 <= i < j < owners.len() ==> (#[trigger] owners[i])@ != (#[trigger] owners[j])@
}

/// Whether `email` owns one of the first `n` accepted invitations.
pub open spec fn owns_accepted(accepted: Seq<AcceptedInvitation>, email: Seq<char>, n: nat) -> bool {
    exists|k: int| 0 <= k < n && (#[trigger] accepted[k]).owner_email@ == email
}

/// Whether `email` owns one of the first `n` received invitations.
pub open spec fn owns_received(received: Seq<ReceivedInvitation>, email: Seq<char>, n: nat) -> bool {
    exists|k: int| 0 <= k < n && (#[trigger] received[k]).owner_email@ == email
}

proof fn lemma_with_owner(owners: Seq<String>, email: String)
    requires
        distinct_owners(owners),
    ensures
        distinct_owners(with_owner(owners, email)),
        forall|e: Seq<char>|
            #![trigger has_owner(with_owner(owners, email), e)]
            has_owner(with_owner(owners, email), e) <==> has_owner(owners, e) || e == email@,
{
    let more = with_owner(owners, email);
    if has_owner(owners, email@) {
        assert forall|e: Seq<char>| #![trigger has_owner(more, e)] has_owner(more, e) <==> has_owner(owners, e) || e == email@ by {}
    } else {
        assert forall|i: int, j: int| 0 <= i < j < more.len() implies (#[trigger] more[i])@ != (#[trigger] more[j])@ by {
            if j == owners.len() {
                assert(more[i] == owners[i]);
                assert(owners[i]@ != email@);
            } else {
                assert(more[i] == owners[i]);
                assert(more[j] == owners[j]);
            }
        }
        assert forall|e: Seq<char>| #![trigger has_owner(more, e)] has_owner(more, e) <==> has_owner(owners, e) || e == email@ by {
            if has_owner(more, e) {
                let i = choose|i: int| 0 <= i < more.len() && (#[trigger] more[i])@ == e;
                if i < owners.len() {
                    assert(owners[i]@ == e);
                }
            }
            if has_owner(owners, e) {
                let i = choose|i: int| 0 <= i < owners.len() && (#[trigger] owners[i])@ == e;
                assert(more[i]@ == e);
            }
            if e == email@ {
                assert(more[owners.len() as int]@ == e);
            }
        }
    }
}

proof fn lemma_accepted_owners(accepted: Seq<AcceptedInvitation>, n: nat)
    requires
        n <= accepted.len(),
    ensures
        distinct_owners(accepted_owners(accepted, n)),
        forall|e: Seq<char>|
            #![trigger has_owner(accepted_owners(accepted, n), e)]
            has_owner(accepted_owners(accepted, n), e) <==> owns_accepted(accepted, e, n),
    decreases n,
{
    if n > 0 {
        let earlier = accepted_owners(accepted, (n - 1) as nat);
        let email = accepted[n - 1].owner_email;
        lemma_accepted_owners(accepted, (n - 1) as nat);
        lemma_with_owner(earlier, email);
        assert forall|e: Seq<char>| #![trigger has_owner(accepted_owners(accepted, n), e)] has_owner(accepted_owners(accepted, n), e) <==> owns_accepted(accepted, e, n) by {
            if owns_accepted(accepted, e, n) {
                let k = choose|k: int| 0 <= k < n && (#[trigger] accepted[k]).owner_email@ == e;
                if k < n - 1 {
                    assert(owns_accepted(accepted, e, (n - 1) as nat));
                }
            }
            if owns_accepted(accepted, e, (n - 1) as nat) {
                let k = choose|k: int| 0 <= k < n - 1 && (#[trigger] accepted[k]).owner_email@ == e;
                assert(0 <= k < n && accepted[k].owner_email@ == e);
            }
            if e == email@ {
                assert(accepted[n - 1].owner_email@ == e);
            }
        }
    }
}

/// There is one group for each owner: no email stands twice among the
/// owners of the groups, and an email stands among them exactly when it owns
/// an accepted invitation or one of the first `n` received ones.
pub proof fn law_one_group_per_owner(
    accepted: Seq<AcceptedInvitation>,
    received: Seq<ReceivedInvitation>,
    n: nat,
)
    requires
        n <= received.len(),
    ensures
        distinct_owners(group_owners(accepted, received, n)),
        forall|e: Seq<char>|
            #![trigger has_owner(group_owners(accepted, received, n), e)]
            has_owner(group_owners(accepted, received, n), e) <==> owns_accepted(
                accepted,
                e,
                accepted.len(),
            ) || owns_received(received, e, n),
    decreases n,
{
    if n == 0 {
        lemma_accepted_owners(accepted, accepted.len());
        assert forall|e: Seq<char>|
            #![trigger has_owner(group_owners(accepted, received, n), e)]
            has_owner(group_owners(accepted, received, n), e) <==> owns_accepted(
                accepted,
                e,
                accepted.len(),
            ) || owns_received(received, e, n) by {
            assert(!owns_received(received, e, 0));
            assert(has_owner(accepted_owners(accepted, accepted.len()), e) <==> owns_accepted(
                accepted,
                e,
                accepted.len(),
            ));
        }
    } else {
        let earlier = group_owners(accepted, received, (n - 1) as nat);
        let email = received[n - 1].owner_email;
        law_one_group_per_owner(accepted, received, (n - 1) as nat);
        lemma_with_owner(earlier, email);
        assert forall|e: Seq<char>|
            #![trigger has_owner(group_owners(accepted, received, n), e)]
            has_owner(group_owners(accepted, received, n), e) <==> owns_accepted(
                accepted,
                e,
                accepted.len(),
            ) || owns_received(received, e, n) by {
            if owns_received(received, e, n) {
                let k = choose|k: int| 0 <= k < n && (#[trigger] received[k]).owner_email@ == e;
                if k < n - 1 {
                    assert(owns_received(received, e, (n - 1) as nat));
                }
            }
            if owns_received(received, e, (n - 1) as nat) {
                let k = choose|k: int| 0 <= k < n - 1 && (#[trigger] received[k]).owner_email@ == e;
                assert(0 <= k < n && received[k].owner_email@ == e);
            }
            if e == email@ {
                assert(received[n - 1].owner_email@ == e);
            }
        }
    }
}

fn invitees_for(sent: &Vec<SentInvitation>, target: &String) -> (shared_with: Vec<Invitee>)
    ensures
        shared_with@ == invitees(sent@, target@, sent@.len()),
{
    let mut shared_with: Vec<Invitee> = Vec::new();
    let mut i: usize = 0;
    while i < sent.len()
        invariant
            i <= sent.len(),
            shared_with@ == invitees(sent@, target@, i as nat),
        decreases sent.len() - i,
    {
        if sent[i].target_id == *target {
            shared_with.push(
                Invitee {
                    name: Some(sent[i].recipient_email.clone()),
                    email: sent[i].recipient_email.clone(),
                },
            );
        }
        i += 1;
    }
    shared_with
}

fn invites_from(received: &Vec<ReceivedInvitation>, owner: &String) -> (invites: Vec<Invite>)
    ensures
        invites@ == invites_of(received@, owner@, received@.len()),
{
    let mut invites: Vec<Invite> = Vec::new();
    let mut i: usize = 0;
    while i < received.len()
        invariant
            i <= received.len(),
            invites@ == invites_of(received@, owner@, i as nat),
        decreases received.len() - i,
    {
        if received[i].owner_email == *owner {
            invites.push(
                Invite {
                    id: received[i].id.clone(),
                    service_name: received[i].target_id.clone(),
                    service_scheme: None,
                },
            );
        }
        i += 1;
    }
    invites
}

fn find_inlet(inlets: &Vec<Inlet>, id: &String) -> (at: Option<usize>)
    ensures
        match at {
            Some(i) => is_first_inlet(inlets@, id@, i as int) && inlet_for(inlets@, id@) == inlets@[i as int],
            None => !has_inlet(inlets@, id@),
        },
{
    let mut i: usize = 0;
    while i < inlets.len()
        invariant
            i <= inlets.len(),
            forall|j: int| 0 <= j < i ==> (#[trigger] inlets@[j]).invitation_id@ != id@,
        decreases inlets.len() - i,
    {
        if inlets[i].invitation_id == *id {
            proof {
                assert(is_first_inlet(inlets@, id@, i as int));
                let chosen = choose|k: int| is_first_inlet(inlets@, id@, k);
                assert(is_first_inlet(inlets@, id@, chosen));
                if chosen < i {
                    assert(inlets@[chosen].invitation_id@ != id@);
                }
                if i < chosen {
                    assert(inlets@[i as int].invitation_id@ != id@);
                }
            }
            return Some(i);
        }
        i += 1;
    }
    proof {
        assert forall|k: int| !is_first_inlet(inlets@, id@, k) by {
            if 0 <= k < inlets@.len() {
                assert(inlets@[k].invitation_id@ != id@);
            }
        }
    }
    None
}

fn services_from(accepted: &Vec<AcceptedInvitation>, inlets: &Vec<Inlet>, owner: &String) -> (services: Vec<Service>)
    ensures
        services_view(services@) == services_of(accepted@, inlets@, owner@, accepted@.len()),
{
    let mut services: Vec<Service> = Vec::new();
    let mut i: usize = 0;
    proof {
        assert(services_view(services@) =~= services_of(accepted@, inlets@, owner@, 0));
    }
    while i < accepted.len()
        invariant
            i <= accepted.len(),
            services_view(services@) == services_of(accepted@, inlets@, owner@, i as nat),
        decreases accepted.len() - i,
    {
        let invitation = &accepted[i];
        if invitation.owner_email == *owner {
            match &invitation.service_access_details {
                Some(details) => {
                    match find_inlet(inlets, &invitation.id) {
                        Some(at) => {
                            let inlet = &inlets[at];
                            let source_name = match &details.service_name {
                                Some(name) => name.clone(),
                                None => "unknown".to_owned(),
                            };
                            let ghost before = services@;
                            let service = Service {
                                source_name,
                                address: inlet.ip.clone(),
                                port: inlet.port,
                                scheme: None,
                                available: inlet.enabled,
                            };
                            services.push(service);
                            proof {
                                assert(services_view(services@) =~= services_view(before).push(
                                    service_view(service),
                                ));
                            }
                        },
                        None => {},
                    }
                },
                None => {},
            }
        }
        i += 1;
    }
    services
}

fn is_owner(owners: &Vec<String>, email: &String) -> (found: bool)
    ensures
        found == has_owner(owners@, email@),
{
    let mut i: usize = 0;
    while i < owners.len()
        invariant
            i <= owners.len(),
            forall|j: int| 0 <= j < i ==> (#[trigger] owners@[j])@ != email@,
        decreases owners.len() - i,
    {
        if owners[i] == *email {
            return true;
        }
        i += 1;
    }
    false
}

fn owners_of(invitations: &InvitationState) -> (owners: Vec<String>)
    ensures
        owners@ == group_owners(
            invitations.accepted@,
            invitations.received@,
            invitations.received@.len(),
        ),
{
    let mut owners: Vec<String> = Vec::new();
    let mut i: usize = 0;
    while i < invitations.accepted.len()
        invariant
            i <= invitations.accepted.len(),
            owners@ == accepted_owners(invitations.accepted@, i as nat),
        decreases invitations.accepted.len() - i,
    {
        if !is_owner(&owners, &invitations.accepted[i].owner_email) {
            owners.push(invitations.accepted[i].owner_email.clone());
        }
        i += 1;
    }
    let mut k: usize = 0;
    while k < invitations.received.len()
        invariant
            k <= invitations.received.len(),
            owners@ == group_owners(invitations.accepted@, invitations.received@, k as nat),
        decreases invitations.received.len() - k,
    {
        if !is_owner(&owners, &invitations.received[k].owner_email) {
            owners.push(invitations.received[k].owner_email.clone());
        }
        k += 1;
    }
    owners
}

/// The local services that an enrolled node shows: one for each outlet, with
/// those it was shared with.
pub fn local_services(outlets: &Vec<Outlet>, sent: &Vec<SentInvitation>) -> (shown: Vec<LocalService>)
    ensures
        shown@.len() == outlets@.len(),
        forall|i: int| 0 <= i < outlets@.len() ==> shows_outlet(#[trigger] shown@[i], outlets@[i], sent@),
{
    let mut shown: Vec<LocalService> = Vec::new();
    let mut i: usize = 0;
    while i < outlets.len()
        invariant
            i <= outlets.len(),
            shown@.len() == i,
            forall|j: int| 0 <= j < i ==> shows_outlet(#[trigger] shown@[j], outlets@[j], sent@),
        decreases outlets.len() - i,
    {
        let outlet = &outlets[i];
        shown.push(
            LocalService {
                name: outlet.worker_address.clone(),
                address: outlet.ip.clone(),
                port: outlet.port,
                scheme: None,
                shared_with: invitees_for(sent, &outlet.worker_address),
                available: true,
            },
        );
        i += 1;
    }
    shown
}

/// The groups that an enrolled node shows: one for each owner of an accepted
/// or received invitation.
pub fn service_groups(invitations: &InvitationState) -> (groups: Vec<ServiceGroup>)
    ensures
        groups@.len() == group_owners(
            invitations.accepted@,
            invitations.received@,
            invitations.received@.len(),
        ).len(),
        forall|i: int|
            0 <= i < groups@.len() ==> shows_group(
                #[trigger] groups@[i],
                group_owners(invitations.accepted@, invitations.received@, invitations.received@.len())[i],
                *invitations,
            ),
{
    let owners = owners_of(invitations);
    let mut groups: Vec<ServiceGroup> = Vec::new();
    let mut i: usize = 0;
    while i < owners.len()
        invariant
            i <= owners.len(),
            groups@.len() == i,
            forall|j: int| 0 <= j < i ==> shows_group(#[trigger] groups@[j], owners@[j], *invitations),
        decreases owners.len() - i,
    {
        let owner = &owners[i];
        groups.push(
            ServiceGroup {
                email: owner.clone(),
                name: None,
                image_url: None,
                invites: invites_from(&invitations.received, owner),
                incoming_services: services_from(&invitations.accepted, &invitations.inlets, owner),
            },
        );
        i += 1;
    }
    groups
}

/// The state that a node shows. `user` is who is enrolled, where that could
/// be found out; an enrolled node whose user could not be found out has no
/// state to show. A node that is not enrolled shows its status and nothing
/// else.
pub fn snapshot(
    enrolled: bool,
    orchestrator_status: OrchestratorStatus,
    outlets: &Vec<Outlet>,
    invitations: &InvitationState,
    user: Option<UserInfo>,
) -> (shown: Option<ApplicationState>)
    ensures
        shown is None <==> enrolled && user is None,
        match shown {
            Some(state) => {
                &&& state.enrolled == enrolled
                &&& state.orchestrator_status == orchestrator_status
                &&& if enrolled {
                    shows_enrolled(state, outlets@, *invitations, user->0)
                } else {
                    shows_not_enrolled(state)
                }
            },
            None => true,
        },
{
    if enrolled {
        match user {
            Some(user_info) => Some(
                ApplicationState {
                    enrolled,
                    orchestrator_status,
                    enrollment_name: Some(user_info.name),
                    enrollment_email: Some(user_info.email),
                    enrollment_image: Some(user_info.picture),
                    enrollment_github_user: Some(user_info.nickname),
                    local_services: local_services(outlets, &invitations.sent),
                    groups: service_groups(invitations),
                },
            ),
            None => None,
        }
    } else {
        Some(
            ApplicationState {
                enrolled,
                orchestrator_status,
                enrollment_name: None,
                enrollment_email: None,
                enrollment_image: None,
                enrollment_github_user: None,
                local_services: Vec::new(),
                groups: Vec::new(),
            },
        )
    }
}

} // verus!
