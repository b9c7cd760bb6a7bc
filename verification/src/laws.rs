//! What holds of the library as a whole, stated over the models that the
//! functions' contracts use.

use vstd::prelude::*;
use crate::access_control::{access_allowed, policy_satisfied};
use crate::credential::{
    data_to_sign, signed_credential, verification_failure, CredentialSchema, CredentialView,
    VerificationError,
};
use crate::enrollment::{
    add_member_failure, after_add_member, after_create_token, after_redeem, create_token_failure,
    redeem_failure, token_lifetime, token_live, EnrollmentError, EnrollmentView,
};
use crate::identifier::IDENTIFIER_LEN;
use crate::store::{after_presenting, visible_attributes, VerifiedAttributesView};

verus! {

/// A credential of a recognized schema that the trusted authority issued at
/// `issued_at` for `ttl` seconds, and whose signature is found valid, is
/// accepted at every instant before `issued_at + ttl`, and what it then
/// yields is the attribute set that was issued.
pub proof fn law_issued_credential_is_accepted(
    authority: Seq<u8>,
    schema_id: u64,
    subject: Seq<u8>,
    attributes: Map<Seq<u8>, Seq<u8>>,
    signature: Seq<u8>,
    issued_at: u64,
    ttl: u64,
    now: u64,
)
    requires
        CredentialSchema::spec_from_id(schema_id).spec_is_known(),
        issued_at + ttl <= u64::MAX,
        now < issued_at + ttl,
    ensures
        ({
            let credential = signed_credential(
                authority,
                data_to_sign(schema_id, subject, attributes, issued_at, ttl),
                signature,
            );
            verification_failure(credential, authority, now, true) is None
                && credential.data.attributes == attributes
        }),
{
}

/// The same credential is expired at `issued_at + ttl` and at every instant
/// after it.
pub proof fn law_credential_expires(
    authority: Seq<u8>,
    schema_id: u64,
    subject: Seq<u8>,
    attributes: Map<Seq<u8>, Seq<u8>>,
    signature: Seq<u8>,
    issued_at: u64,
    ttl: u64,
    now: u64,
)
    requires
        issued_at + ttl <= u64::MAX,
        now >= issued_at + ttl,
    ensures
        verification_failure(
            signed_credential(
                authority,
                data_to_sign(schema_id, subject, attributes, issued_at, ttl),
                signature,
            ),
            authority,
            now,
            true,
        ) == Some(VerificationError::Expired),
{
}

/// A credential whose signer is not the trusted authority is refused as
/// untrusted, whether or not its signature is valid, and at any instant.
pub proof fn law_untrusted_signer_is_refused(
    credential: CredentialView,
    authority: Seq<u8>,
    now: u64,
    signature_valid: bool,
)
    requires
        credential.signer != authority,
    ensures
        verification_failure(credential, authority, now, signature_valid) == Some(
            VerificationError::UntrustedSigner,
        ),
{
}

/// A credential of the trusted authority whose signature is not valid over
/// its fields is refused for its signature, whatever its expiry and schema.
pub proof fn law_invalid_signature_is_refused(credential: CredentialView, authority: Seq<u8>, now: u64)
    requires
        credential.signer == authority,
    ensures
        verification_failure(credential, authority, now, false) == Some(
            VerificationError::InvalidSignature,
        ),
{
}

/// What `add_member` grants is what the member has from then on, and the
/// grants of the other members and the waiting tokens are as they were.
pub proof fn law_grant_is_visible_at_once(
    state: EnrollmentView,
    caller: Seq<u8>,
    member: Seq<u8>,
    attributes: Map<Seq<u8>, Seq<u8>>,
    other: Seq<u8>,
)
    requires
        add_member_failure(state, caller, member) is None,
        other != member,
    ensures
        ({
            let granted = after_add_member(state, caller, member, attributes);
            &&& granted.members.contains_key(member)
            &&& granted.members[member] == attributes
            &&& granted.members.contains_key(other) == state.members.contains_key(other)
            &&& granted.members.contains_key(other) ==> granted.members[other] == state.members[other]
            &&& granted.tokens == state.tokens
        }),
{
}

/// A token that was created can be redeemed from the instant of its creation
/// until its lifetime is over, and carries the attributes it was created
/// with.
pub proof fn law_created_token_is_live_for_its_lifetime(
    state: EnrollmentView,
    caller: Seq<u8>,
    attributes: Map<Seq<u8>, Seq<u8>>,
    duration: Option<int>,
    code: Seq<u8>,
    now: u64,
    later: u64,
)
    requires
        create_token_failure(state, caller, duration) is None,
        now + token_lifetime(state, duration) <= u64::MAX,
    ensures
        ({
            let created = after_create_token(state, caller, attributes, duration, code, now);
            &&& token_live(created, code, later) == (later < now + token_lifetime(state, duration))
            &&& created.tokens[code].attributes == attributes
            &&& created.members == state.members
        }),
{
}

/// Redeeming a token does to the members what the authority's own grant of
/// the token's attributes to the presenter would have done.
pub proof fn law_redeeming_is_a_grant(state: EnrollmentView, code: Seq<u8>, presenting: Seq<u8>, now: u64)
    requires
        redeem_failure(state, code, presenting, now) is None,
    ensures
        add_member_failure(state, state.authority, presenting) is None,
        after_redeem(state, code, presenting, now).members == after_add_member(
            state,
            state.authority,
            presenting,
            state.tokens[code].attributes,
        ).members,
{
}

/// An attempt to redeem that fails changes nothing.
pub proof fn law_failed_redemption_changes_nothing(
    state: EnrollmentView,
    code: Seq<u8>,
    presenting: Seq<u8>,
    now: u64,
)
    requires
        redeem_failure(state, code, presenting, now) is Some,
    ensures
        after_redeem(state, code, presenting, now) == state,
{
}

/// Redeeming a token grants its attributes to the presenter, and after that
/// the same token is not found again, by whom and whenever it is presented.
pub proof fn law_token_is_redeemed_once(
    state: EnrollmentView,
    code: Seq<u8>,
    first: Seq<u8>,
    now: u64,
    second: Seq<u8>,
    later: u64,
)
    requires
        redeem_failure(state, code, first, now) is None,
    ensures
        ({
            let redeemed = after_redeem(state, code, first, now);
            &&& redeemed.members.contains_key(first)
            &&& redeemed.members[first] == state.tokens[code].attributes
            &&& redeem_failure(redeemed, code, second, later) == Some(EnrollmentError::TokenNotFound)
        }),
{
}

/// The registry after the presenters redeem `code` one after the other at
/// `now`, and how many of them succeeded.
pub open spec fn redeem_in_turn(state: EnrollmentView, code: Seq<u8>, presenters: Seq<Seq<u8>>, now: u64) -> (
    EnrollmentView,
    nat,
)
    decreases presenters.len(),
{
    if presenters.len() == 0 {
        (state, 0)
    } else {
        let won: nat = if redeem_failure(state, code, presenters[0], now) is None {
            1
        } else {
            0
        };
        let rest = redeem_in_turn(
            after_redeem(state, code, presenters[0], now),
            code,
            presenters.drop_first(),
            now,
        );
        (rest.0, won + rest.1)
    }
}

/// Of any number of attempts to redeem one token, in whatever order they are
/// served, at most one succeeds; none does where the token cannot be
/// redeemed; and exactly one does where it can be and some presenter is
/// well-formed.
pub proof fn law_one_redeemer_wins(state: EnrollmentView, code: Seq<u8>, presenters: Seq<Seq<u8>>, now: u64)
    ensures
        redeem_in_turn(state, code, presenters, now).1 <= 1,
        !token_live(state, code, now) ==> redeem_in_turn(state, code, presenters, now).1 == 0,
        token_live(state, code, now) && (exists|i: int|
            0 <= i < presenters.len() && (#[trigger] presenters[i]).len() == IDENTIFIER_LEN)
            ==> redeem_in_turn(state, code, presenters, now).1 == 1,
    decreases presenters.len(),
{
    if presenters.len() > 0 {
        let next = after_redeem(state, code, presenters[0], now);
        let rest = presenters.drop_first();
        law_one_redeemer_wins(next, code, rest, now);
        if token_live(state, code, now) && presenters[0].len() != IDENTIFIER_LEN {
            if exists|i: int| 0 <= i < presenters.len() && (#[trigger] presenters[i]).len() == IDENTIFIER_LEN {
                let i = choose|i: int| 0 <= i < presenters.len() && (#[trigger] presenters[i]).len() == IDENTIFIER_LEN;
                assert(rest[i - 1] == presenters[i]);
            }
        }
    }
}

/// A token that was created with a duration of zero is never found: not at
/// the instant of its creation, and not later.
pub proof fn law_zero_duration_token_is_unusable(
    state: EnrollmentView,
    caller: Seq<u8>,
    attributes: Map<Seq<u8>, Seq<u8>>,
    code: Seq<u8>,
    now: u64,
    presenting: Seq<u8>,
    later: u64,
)
    requires
        create_token_failure(state, caller, Some(0int)) is None,
        later >= now,
    ensures
        redeem_failure(
            after_create_token(state, caller, attributes, Some(0int), code, now),
            code,
            presenting,
            later,
        ) == Some(EnrollmentError::TokenNotFound),
{
}

/// A guard whose policy requires nothing lets a sender through exactly when
/// the sender has an entry that counts, even one without attributes.
pub proof fn law_empty_policy_needs_an_entry(
    store: Map<Seq<u8>, VerifiedAttributesView>,
    sender: Seq<u8>,
    now: u64,
)
    ensures
        access_allowed(Seq::<(Seq<u8>, Seq<u8>)>::empty(), store, sender, now) == (visible_attributes(
            store,
            sender,
            now,
        ) is Some),
        !store.contains_key(sender) ==> !access_allowed(
            Seq::<(Seq<u8>, Seq<u8>)>::empty(),
            store,
            sender,
            now,
        ),
{
}

/// A sender without an entry that counts at `now` is denied, whatever the
/// policy.
pub proof fn law_no_entry_is_denied(
    policy: Seq<(Seq<u8>, Seq<u8>)>,
    store: Map<Seq<u8>, VerifiedAttributesView>,
    sender: Seq<u8>,
    now: u64,
)
    requires
        !store.contains_key(sender) || now >= store[sender].expiry,
    ensures
        !access_allowed(policy, store, sender, now),
{
}

/// Attributes beyond those that the policy names play no part: a set that
/// meets the policy still meets it with another attribute added under a name
/// that the policy does not require.
pub proof fn law_extra_attributes_do_not_matter(
    policy: Seq<(Seq<u8>, Seq<u8>)>,
    attributes: Map<Seq<u8>, Seq<u8>>,
    name: Seq<u8>,
    value: Seq<u8>,
)
    requires
        policy_satisfied(policy, attributes),
        forall|i: int| 0 <= i < policy.len() ==> (#[trigger] policy[i]).0 != name,
    ensures
        policy_satisfied(policy, attributes.insert(name, value)),
{
}

/// A credential that is refused leaves no trace: the store, and with it every
/// decision of every guard, is as it was.
pub proof fn law_refused_credential_changes_nothing(
    store: Map<Seq<u8>, VerifiedAttributesView>,
    credential: CredentialView,
    authority: Seq<u8>,
    now: u64,
    signature_valid: bool,
)
    requires
        verification_failure(credential, authority, now, signature_valid) is Some,
    ensures
        after_presenting(store, credential, authority, now, signature_valid) == store,
{
}

/// After a peer presented a credential that was accepted at `now`, a read of
/// its subject sees exactly the credential's attributes until the
/// credential's expiry, whatever the store held for the subject before.
pub proof fn law_accepted_credential_is_visible(
    store: Map<Seq<u8>, VerifiedAttributesView>,
    credential: CredentialView,
    authority: Seq<u8>,
    now: u64,
    later: u64,
)
    requires
        verification_failure(credential, authority, now, true) is None,
    ensures
        visible_attributes(
            after_presenting(store, credential, authority, now, true),
            credential.data.subject,
            later,
        ) == if later < credential.data.expiry {
            Some(credential.data.attributes)
        } else {
            None
        },
        visible_attributes(
            after_presenting(store, credential, authority, now, true),
            credential.data.subject,
            now,
        ) == Some(credential.data.attributes),
{
}

/// Once the attributes of an accepted credential are stored for its subject
/// with the credential's expiry, the guard decides on the subject's messages
/// by those attributes alone until the expiry, and denies from then on.
pub proof fn law_stored_attributes_decide(
    policy: Seq<(Seq<u8>, Seq<u8>)>,
    store: Map<Seq<u8>, VerifiedAttributesView>,
    subject: Seq<u8>,
    attributes: Map<Seq<u8>, Seq<u8>>,
    expiry: u64,
    now: u64,
)
    ensures
        ({
            let stored = store.insert(subject, VerifiedAttributesView { attributes, expiry });
            access_allowed(policy, stored, subject, now) == (now < expiry && policy_satisfied(
                policy,
                attributes,
            ))
        }),
{
}

} // verus!
