//! Enrollment: the requests by which an authority grants attributes to a
//! member, at once or through a one-time token, and the registry that
//! serves them.

use std::time::Duration;
use vstd::prelude::*;
use crate::attributes::AttributeSet;
use crate::byte_map::{copy_bytes, ByteMap};
use crate::credential::{data_to_sign, CredentialData};
use crate::identifier::{Identifier, IDENTIFIER_LEN};

verus! {

/// The number of whole seconds in a time span, as `Duration::as_secs` gives it.
pub uninterp spec fn whole_seconds(span: Duration) -> u64;

/// `Duration::as_secs`: the whole seconds that the span contains.
#[verifier::external_body]
fn duration_as_secs(span: &Duration) -> (secs: u64)
    ensures
        secs == whole_seconds(*span),
{
    span.as_secs()
}

/// `Duration::from_secs`: the span of exactly `secs` whole seconds, which is
/// what `Duration::as_secs` then reads from it.
#[verifier::external_body]
fn duration_from_secs(secs: u64) -> (span: Duration)
    ensures
        whole_seconds(span) == secs,
{
    Duration::from_secs(secs)
}

/// The request to grant attributes to an identity that is already known.
#[derive(Debug)]
pub struct AddMember {
    member: Identifier,
    attributes: AttributeSet,
}

impl AddMember {
    pub closed spec fn spec_member(&self) -> Seq<u8> {
        self.member@
    }

    /// The attributes, in the order in which the request holds them.
    pub closed spec fn spec_pairs(&self) -> Seq<(Seq<u8>, Seq<u8>)> {
        self.attributes.spec_pairs()
    }

    pub closed spec fn spec_attributes(&self) -> Map<Seq<u8>, Seq<u8>> {
        self.attributes@
    }

    /// The request to grant `member` no attributes yet.
    pub fn new(member: Identifier) -> (request: Self)
        ensures
            request.spec_member() == member@,
            request.spec_attributes() == Map::<Seq<u8>, Seq<u8>>::empty(),
            request.spec_pairs() == Seq::<(Seq<u8>, Seq<u8>)>::empty(),
    {
        AddMember { member, attributes: AttributeSet::new() }
    }

    /// The request with `attributes` in place of those it had.
    pub fn with_attributes(self, attributes: AttributeSet) -> (request: Self)
        ensures
            request.spec_member() == self.spec_member(),
            request.spec_attributes() == attributes@,
            request.spec_pairs() == attributes.spec_pairs(),
    {
        AddMember { member: self.member, attributes }
    }

    pub fn member(&self) -> (member: &Identifier)
        ensures
            member@ == self.spec_member(),
    {
        &self.member
    }

    pub fn attributes(&self) -> (attributes: &AttributeSet)
        ensures
            attributes@ == self.spec_attributes(),
            attributes.spec_pairs() == self.spec_pairs(),
    {
        &self.attributes
    }
}

/// The request to mint a one-time token that carries attributes. Without a
/// duration the authority's default validity applies.
#[derive(Debug)]
pub struct CreateToken {
    attributes: AttributeSet,
    token_duration_secs: Option<u64>,
}

impl CreateToken {
    pub closed spec fn spec_attributes(&self) -> Map<Seq<u8>, Seq<u8>> {
        self.attributes@
    }

    /// The attributes, in the order in which the request holds them.
    pub closed spec fn spec_pairs(&self) -> Seq<(Seq<u8>, Seq<u8>)> {
        self.attributes.spec_pairs()
    }

    /// The attributes, without taking them out of the request.
    pub fn attributes_ref(&self) -> (attributes: &AttributeSet)
        ensures
            attributes@ == self.spec_attributes(),
            attributes.spec_pairs() == self.spec_pairs(),
    {
        &self.attributes
    }

    /// The duration asked for, in whole seconds.
    pub closed spec fn spec_duration_secs(&self) -> Option<u64> {
        self.token_duration_secs
    }

    /// The request for a token without attributes and of default duration.
    pub fn new() -> (request: Self)
        ensures
            request.spec_attributes() == Map::<Seq<u8>, Seq<u8>>::empty(),
            request.spec_pairs() == Seq::<(Seq<u8>, Seq<u8>)>::empty(),
            request.spec_duration_secs() is None,
    {
        CreateToken { attributes: AttributeSet::new(), token_duration_secs: None }
    }

    /// The request with `attributes` in place of those it had.
    pub fn with_attributes(self, attributes: AttributeSet) -> (request: Self)
        ensures
            request.spec_attributes() == attributes@,
            request.spec_pairs() == attributes.spec_pairs(),
            request.spec_duration_secs() == self.spec_duration_secs(),
    {
        CreateToken { attributes, token_duration_secs: self.token_duration_secs }
    }

    /// The request with the whole seconds of `token_duration` as its duration.
    pub fn with_duration(self, token_duration: Option<Duration>) -> (request: Self)
        ensures
            request.spec_attributes() == self.spec_attributes(),
            request.spec_pairs() == self.spec_pairs(),
            request.spec_duration_secs() == match token_duration {
                Some(span) => Some(whole_seconds(span)),
                None => None,
            },
    {
        let secs = match token_duration {
            Some(span) => Some(duration_as_secs(&span)),
            None => None,
        };
        CreateToken { attributes: self.attributes, token_duration_secs: secs }
    }

    /// The request with a duration of `secs` whole seconds.
    pub fn with_duration_secs(self, secs: Option<u64>) -> (request: Self)
        ensures
            request.spec_attributes() == self.spec_attributes(),
            request.spec_pairs() == self.spec_pairs(),
            request.spec_duration_secs() == secs,
    {
        CreateToken { attributes: self.attributes, token_duration_secs: secs }
    }

    pub fn attributes(self) -> (attributes: AttributeSet)
        ensures
            attributes@ == self.spec_attributes(),
            attributes.spec_pairs() == self.spec_pairs(),
    {
        self.attributes
    }

    /// The duration asked for, as a time span.
    pub fn token_duration(&self) -> (span: Option<Duration>)
        ensures
            match span {
                Some(d) => self.spec_duration_secs() == Some(whole_seconds(d)),
                None => self.spec_duration_secs() is None,
            },
    {
        match self.token_duration_secs {
            Some(secs) => Some(duration_from_secs(secs)),
            None => None,
        }
    }

    /// The duration asked for, in whole seconds.
    pub fn token_duration_secs(&self) -> (secs: Option<u64>)
        ensures
            secs == self.spec_duration_secs(),
    {
        self.token_duration_secs
    }
}

/// A request as it arrives at the authority.
#[derive(Debug)]
pub enum EnrollmentRequest {
    AddMember(AddMember),
    CreateToken(CreateToken),
}

/// Why an enrollment operation failed.
#[derive(Clone, Copy, Debug, PartialEq, Eq, Structural)]
pub enum EnrollmentError {
    /// A malformed identifier, or a negative duration.
    InvalidArgument,
    /// The caller has no enrollment authority.
    Unauthorized,
    /// The token is unknown, was redeemed, or has expired. Which of them, the
    /// caller is not told.
    TokenNotFound,
}

/// An opaque redemption code.
#[derive(Debug)]
pub struct OneTimeToken {
    code: Vec<u8>,
}

impl View for OneTimeToken {
    type V = Seq<u8>;

    closed spec fn view(&self) -> Seq<u8> {
        self.code@
    }
}

impl OneTimeToken {
    /// The token that a presenter shows by its code.
    pub fn from_code(code: Vec<u8>) -> (token: Self)
        ensures
            token@ == code@,
    {
        OneTimeToken { code }
    }

    pub fn code(&self) -> (code: &[u8])
        ensures
            code@ == self@,
    {
        self.code.as_slice()
    }
}

/// Model of a token that waits to be redeemed.
pub struct PendingTokenView {
    pub attributes: Map<Seq<u8>, Seq<u8>>,
    pub expiry: u64,
}

/// Model of the registry.
pub struct EnrollmentView {
    /// The identity that may enroll.
    pub authority: Seq<u8>,
    /// The validity of a token that was asked for without a duration.
    pub default_duration: u64,
    /// The attributes granted to each member.
    pub members: Map<Seq<u8>, Map<Seq<u8>, Seq<u8>>>,
    /// The tokens that wait to be redeemed, by code.
    pub tokens: Map<Seq<u8>, PendingTokenView>,
}

/// Why `add_member` fails, if it does.
pub open spec fn add_member_failure(state: EnrollmentView, caller: Seq<u8>, member: Seq<u8>) -> Option<
    EnrollmentError,
> {
    if caller != state.authority {
        Some(EnrollmentError::Unauthorized)
    } else if member.len() != IDENTIFIER_LEN {
        Some(EnrollmentError::InvalidArgument)
    } else {
        None
    }
}

/// The registry after `add_member`.
pub open spec fn after_add_member(
    state: EnrollmentView,
    caller: Seq<u8>,
    member: Seq<u8>,
    attributes: Map<Seq<u8>, Seq<u8>>,
) -> EnrollmentView {
    if add_member_failure(state, caller, member) is None {
        EnrollmentView { members: state.members.insert(member, attributes), ..state }
    } else {
        state
    }
}

/// Why `create_token` fails, if it does.
pub open spec fn create_token_failure(state: EnrollmentView, caller: Seq<u8>, duration: Option<int>) -> Option<
    EnrollmentError,
> {
    if caller != state.authority {
        Some(EnrollmentError::Unauthorized)
    } else if duration is Some && duration->0 < 0 {
        Some(EnrollmentError::InvalidArgument)
    } else {
        None
    }
}

/// For how many seconds a token lives that is asked for with `duration`.
pub open spec fn token_lifetime(state: EnrollmentView, duration: Option<int>) -> int {
    match duration {
        Some(secs) => secs,
        None => state.default_duration as int,
    }
}

/// The registry after `create_token` at `now`, with `code` as the new token's
/// code.
pub open spec fn after_create_token(
    state: EnrollmentView,
    caller: Seq<u8>,
    attributes: Map<Seq<u8>, Seq<u8>>,
    duration: Option<int>,
    code: Seq<u8>,
    now: u64,
) -> EnrollmentView {
    if create_token_failure(state, caller, duration) is None {
        EnrollmentView {
            tokens: state.tokens.insert(
                code,
                PendingTokenView { attributes, expiry: (now + token_lifetime(state, duration)) as u64 },
            ),
            ..state
        }
    } else {
        state
    }
}

/// Whether `code` names a token that can be redeemed at `now`.
pub open spec fn token_live(state: EnrollmentView, code: Seq<u8>, now: u64) -> bool {
    state.tokens.contains_key(code) && now < state.tokens[code].expiry
}

/// Why `redeem_token` fails, if it does.
pub open spec fn redeem_failure(state: EnrollmentView, code: Seq<u8>, presenting: Seq<u8>, now: u64) -> Option<
    EnrollmentError,
> {
    if !token_live(state, code, now) {
        Some(EnrollmentError::TokenNotFound)
    } else if presenting.len() != IDENTIFIER_LEN {
        Some(EnrollmentError::InvalidArgument)
    } else {
        None
    }
}

/// The registry after `redeem_token`: on success the token is gone and its
/// attributes are granted to the presenter; on failure nothing has changed.
pub open spec fn after_redeem(state: EnrollmentView, code: Seq<u8>, presenting: Seq<u8>, now: u64) -> EnrollmentView {
    if redeem_failure(state, code, presenting, now) is None {
        EnrollmentView {
            members: state.members.insert(presenting, state.tokens[code].attributes),
            tokens: state.tokens.remove(code),
            ..state
        }
    } else {
        state
    }
}

/// A duration in signed seconds, as a mathematical integer.
pub open spec fn signed_span(duration: Option<i64>) -> Option<int> {
    match duration {
        Some(secs) => Some(secs as int),
        None => None,
    }
}

/// A duration in unsigned seconds, as a mathematical integer.
pub open spec fn unsigned_span(duration: Option<u64>) -> Option<int> {
    match duration {
        Some(secs) => Some(secs as int),
        None => None,
    }
}

#[derive(Debug)]
struct PendingToken {
    attributes: AttributeSet,
    expiry: u64,
}

spec fn pending_view(token: PendingToken) -> PendingTokenView {
    PendingTokenView { attributes: token.attributes@, expiry: token.expiry }
}

spec fn granted_view(attributes: AttributeSet) -> Map<Seq<u8>, Seq<u8>> {
    attributes@
}

/// The authority's registry of members and of tokens that wait to be
/// redeemed.
#[derive(Debug)]
pub struct EnrollmentService {
    authority: Identifier,
    default_duration: u64,
    members: ByteMap<AttributeSet>,
    tokens: ByteMap<PendingToken>,
}

impl View for EnrollmentService {
    type V = EnrollmentView;

    closed spec fn view(&self) -> EnrollmentView {
        EnrollmentView {
            authority: self.authority@,
            default_duration: self.default_duration,
            members: self.members@.map_values(|attributes: AttributeSet| granted_view(attributes)),
            tokens: self.tokens@.map_values(|token: PendingToken| pending_view(token)),
        }
    }
}

impl EnrollmentService {
    /// The registry of `authority`, without members or tokens, in which a
    /// token lives for `default_duration` seconds unless it is asked for
    /// otherwise.
    pub fn new(authority: Identifier, default_duration: u64) -> (service: Self)
        ensures
            service@ == (EnrollmentView {
                authority: authority@,
                default_duration,
                members: Map::<Seq<u8>, Map<Seq<u8>, Seq<u8>>>::empty(),
                tokens: Map::<Seq<u8>, PendingTokenView>::empty(),
            }),
    {
        let service = EnrollmentService {
            authority,
            default_duration,
            members: ByteMap::new(),
            tokens: ByteMap::new(),
        };
        proof {
            assert(service@.members =~= Map::<Seq<u8>, Map<Seq<u8>, Seq<u8>>>::empty());
            assert(service@.tokens =~= Map::<Seq<u8>, PendingTokenView>::empty());
        }
        service
    }

    /// The attributes granted to `member`, if it is one.
    pub fn member_attributes(&self, member: &Identifier) -> (granted: Option<&AttributeSet>)
        ensures
            match granted {
                Some(attributes) => self@.members.contains_key(member@) && attributes@
                    == self@.members[member@],
                None => !self@.members.contains_key(member@),
            },
    {
        self.members.get(member.as_bytes())
    }

    /// What the authority signs at `now` to attest, for `ttl` seconds, the
    /// attributes that `subject` was granted; nothing where `subject` is no
    /// member.
    pub fn member_credential_data(&self, subject: &Identifier, schema_id: u64, now: u64, ttl: u64) -> (data: Option<CredentialData>)
        requires
            now + ttl <= u64::MAX,
        ensures
            match data {
                Some(d) => self@.members.contains_key(subject@) && d@ == data_to_sign(
                    schema_id,
                    subject@,
                    self@.members[subject@],
                    now,
                    ttl,
                ),
                None => !self@.members.contains_key(subject@),
            },
    {
        match self.members.get(subject.as_bytes()) {
            Some(attributes) => Some(
                CredentialData::new(schema_id, subject.clone(), attributes.clone(), now, ttl),
            ),
            None => None,
        }
    }

    /// Whether `token` can be redeemed at `now`.
    pub fn is_redeemable(&self, token: &OneTimeToken, now: u64) -> (live: bool)
        ensures
            live == token_live(self@, token@, now),
    {
        match self.tokens.get(token.code()) {
            Some(pending) => now < pending.expiry,
            None => false,
        }
    }

    /// Grants `attributes` to `member`, in place of any it had, on behalf of
    /// `caller`.
    pub fn add_member(&mut self, caller: &Identifier, member: &Identifier, attributes: AttributeSet) -> (outcome: Result<(), EnrollmentError>)
        ensures
            final(self)@ == after_add_member(old(self)@, caller@, member@, attributes@),
            match outcome {
                Ok(_) => add_member_failure(old(self)@, caller@, member@) is None,
                Err(e) => add_member_failure(old(self)@, caller@, member@) == Some(e),
            },
    {
        if !caller.equals(&self.authority) {
            return Err(EnrollmentError::Unauthorized);
        }
        if !member.well_formed() {
            return Err(EnrollmentError::InvalidArgument);
        }
        self.members.insert(copy_bytes(member.as_bytes()), attributes);
        proof {
            assert(self@.members =~= old(self)@.members.insert(member@, attributes@));
        }
        Ok(())
    }

    /// Serves an `AddMember` request on behalf of `caller`.
    pub fn serve_add_member(&mut self, caller: &Identifier, request: AddMember) -> (outcome: Result<(), EnrollmentError>)
        ensures
            final(self)@ == after_add_member(
                old(self)@,
                caller@,
                request.spec_member(),
                request.spec_attributes(),
            ),
            match outcome {
                Ok(_) => add_member_failure(old(self)@, caller@, request.spec_member()) is None,
                Err(e) => add_member_failure(old(self)@, caller@, request.spec_member()) == Some(e),
            },
    {
        let AddMember { member, attributes } = request;
        self.add_member(caller, &member, attributes)
    }

    /// Binds `code` to `attributes` until `now + lifetime`.
    fn mint(&mut self, attributes: AttributeSet, lifetime: u64, code: Vec<u8>, now: u64) -> (token: OneTimeToken)
        requires
            now + lifetime <= u64::MAX,
        ensures
            token@ == code@,
            final(self)@ == (EnrollmentView {
                tokens: old(self)@.tokens.insert(
                    code@,
                    PendingTokenView { attributes: attributes@, expiry: (now + lifetime) as u64 },
                ),
                ..old(self)@
            }),
    {
        let token = OneTimeToken { code: copy_bytes(code.as_slice()) };
        self.tokens.insert(code, PendingToken { attributes, expiry: now + lifetime });
        proof {
            assert(self@.tokens =~= old(self)@.tokens.insert(
                code@,
                PendingTokenView { attributes: attributes@, expiry: (now + lifetime) as u64 },
            ));
        }
        token
    }

    /// Mints, on behalf of `caller`, a token that carries `attributes` and
    /// lives for `duration` seconds from `now`, or for the default duration
    /// where none is given. `code` is the fresh redemption code that the
    /// token gets; a token that waited under the same code is replaced.
    pub fn create_token(&mut self, caller: &Identifier, attributes: AttributeSet, duration: Option<i64>, code: Vec<u8>, now: u64) -> (outcome: Result<OneTimeToken, EnrollmentError>)
        requires
            create_token_failure(old(self)@, caller@, signed_span(duration)) is None ==> now
                + token_lifetime(old(self)@, signed_span(duration)) <= u64::MAX,
        ensures
            final(self)@ == after_create_token(
                old(self)@,
                caller@,
                attributes@,
                signed_span(duration),
                code@,
                now,
            ),
            match outcome {
                Ok(token) => create_token_failure(old(self)@, caller@, signed_span(duration)) is None
                    && token@ == code@,
                Err(e) => create_token_failure(old(self)@, caller@, signed_span(duration)) == Some(e),
            },
    {
        if !caller.equals(&self.authority) {
            return Err(EnrollmentError::Unauthorized);
        }
        let lifetime: u64 = match duration {
            Some(secs) => {
                if secs < 0 {
                    return Err(EnrollmentError::InvalidArgument);
                }
                secs as u64
            },
            None => self.default_duration,
        };
        Ok(self.mint(attributes, lifetime, code, now))
    }

    /// Serves a `CreateToken` request on behalf of `caller` at `now`, with
    /// `code` as the fresh redemption code.
    pub fn serve_create_token(&mut self, caller: &Identifier, request: CreateToken, code: Vec<u8>, now: u64) -> (outcome: Result<OneTimeToken, EnrollmentError>)
        requires
            caller@ == old(self)@.authority ==> now + token_lifetime(
                old(self)@,
                unsigned_span(request.spec_duration_secs()),
            ) <= u64::MAX,
        ensures
            final(self)@ == after_create_token(
                old(self)@,
                caller@,
                request.spec_attributes(),
                unsigned_span(request.spec_duration_secs()),
                code@,
                now,
            ),
            match outcome {
                Ok(token) => caller@ == old(self)@.authority && token@ == code@,
                Err(e) => caller@ != old(self)@.authority && e == EnrollmentError::Unauthorized,
            },
    {
        if !caller.equals(&self.authority) {
            return Err(EnrollmentError::Unauthorized);
        }
        let lifetime: u64 = match request.token_duration_secs {
            Some(secs) => secs,
            None => self.default_duration,
        };
        Ok(self.mint(request.attributes, lifetime, code, now))
    }

    /// Redeems `token` for `presenting` at `now`: the token is consumed and
    /// its attributes are granted to the presenter, in place of any it had.
    /// A token that cannot be redeemed is reported before anything is said of
    /// the presenter; a malformed presenter leaves the token in place.
    pub fn redeem_token(&mut self, token: &OneTimeToken, presenting: &Identifier, now: u64) -> (outcome: Result<(), EnrollmentError>)
        ensures
            final(self)@ == after_redeem(old(self)@, token@, presenting@, now),
            match outcome {
                Ok(_) => redeem_failure(old(self)@, token@, presenting@, now) is None,
                Err(e) => redeem_failure(old(self)@, token@, presenting@, now) == Some(e),
            },
    {
        if !self.is_redeemable(token, now) {
            return Err(EnrollmentError::TokenNotFound);
        }
        if !presenting.well_formed() {
            return Err(EnrollmentError::InvalidArgument);
        }
        match self.tokens.remove(token.code()) {
            Some(pending) => {
                self.members.insert(copy_bytes(presenting.as_bytes()), pending.attributes);
                proof {
                    assert(self@.tokens =~= old(self)@.tokens.remove(token@));
                    assert(self@.members =~= old(self)@.members.insert(
                        presenting@,
                        old(self)@.tokens[token@].attributes,
                    ));
                }
                Ok(())
            },
            None => Err(EnrollmentError::TokenNotFound),
        }
    }
}

} // verus!
