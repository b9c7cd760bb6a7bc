//! The access-control guard: whether a sender's verified attributes meet the
//! attributes that a guarded destination requires.

use vstd::prelude::*;
use crate::attributes::AttributeSet;
use crate::byte_map::copy_bytes;
use crate::identifier::Identifier;
use crate::store::{visible_attributes, VerifiedAttributesStore, VerifiedAttributesView};

verus! {

/// Why attributes could not be read.
#[derive(Clone, Copy, Debug, PartialEq, Eq, Structural)]
pub enum StoreError {
    /// The storage behind the attributes could not be reached.
    StoreUnavailable,
}

/// Whether `attributes` has every pair of `policy`: the name is present, with
/// exactly the expected value.
pub open spec fn policy_satisfied(policy: Seq<(Seq<u8>, Seq<u8>)>, attributes: Map<Seq<u8>, Seq<u8>>) -> bool {
    forall|i: int|
        #![trigger policy[i]]
        0 <= i < policy.len() ==> attributes.contains_key(policy[i].0) && attributes[policy[i].0]
            == policy[i].1
}

/// The decision of the guard on a message from `sender` at `now`: allowed when
/// the sender has attributes that count at `now` and they meet the policy.
pub open spec fn access_allowed(
    policy: Seq<(Seq<u8>, Seq<u8>)>,
    store: Map<Seq<u8>, VerifiedAttributesView>,
    sender: Seq<u8>,
    now: u64,
) -> bool {
    match visible_attributes(store, sender, now) {
        Some(attributes) => policy_satisfied(policy, attributes),
        None => false,
    }
}

/// The `(name, expected value)` pairs that a guarded destination requires, in
/// the order in which they are tested.
#[derive(Debug)]
pub struct AccessControlPolicy {
    required: Vec<(Vec<u8>, Vec<u8>)>,
}

impl View for AccessControlPolicy {
    type V = Seq<(Seq<u8>, Seq<u8>)>;

    closed spec fn view(&self) -> Seq<(Seq<u8>, Seq<u8>)> {
        Seq::new(self.required@.len(), |i: int| (self.required@[i].0@, self.required@[i].1@))
    }
}

impl AccessControlPolicy {
    /// The policy that requires nothing.
    pub fn new() -> (policy: Self)
        ensures
            policy@ == Seq::<(Seq<u8>, Seq<u8>)>::empty(),
    {
        let policy = AccessControlPolicy { required: Vec::new() };
        proof {
            assert(policy@ =~= Seq::<(Seq<u8>, Seq<u8>)>::empty());
        }
        policy
    }

    /// The policy that requires the given pairs.
    pub fn from_pairs(required: Vec<(Vec<u8>, Vec<u8>)>) -> (policy: Self)
        ensures
            policy@.len() == required@.len(),
            forall|i: int|
                0 <= i < required@.len() ==> #[trigger] policy@[i] == (required@[i].0@, required@[i].1@),
    {
        AccessControlPolicy { required }
    }

    /// The policy with one more required pair, tested after the others.
    pub fn require(self, name: &[u8], expected: &[u8]) -> (policy: Self)
        ensures
            policy@ == self@.push((name@, expected@)),
    {
        let mut required = self.required;
        required.push((copy_bytes(name), copy_bytes(expected)));
        let policy = AccessControlPolicy { required };
        proof {
            assert(policy@ =~= self@.push((name@, expected@)));
        }
        policy
    }

    /// The number of required pairs.
    pub fn len(&self) -> (n: usize)
        ensures
            n == self@.len(),
    {
        self.required.len()
    }

    /// Whether `attributes` meets the policy. All pairs must match.
    pub fn is_satisfied_by(&self, attributes: &AttributeSet) -> (met: bool)
        ensures
            met == policy_satisfied(self@, attributes@),
    {
        let mut i: usize = 0;
        while i < self.required.len()
            invariant
                i <= self.required.len(),
                self.required.len() == self@.len(),
                forall|j: int|
                    #![trigger self@[j]]
                    0 <= j < i ==> attributes@.contains_key(self@[j].0) && attributes@[self@[j].0]
                        == self@[j].1,
            decreases self.required.len() - i,
        {
            let pair = &self.required[i];
            if !attributes.has(pair.0.as_slice(), pair.1.as_slice()) {
                proof {
                    assert(self@[i as int] == (pair.0@, pair.1@));
                }
                return false;
            }
            proof {
                assert(self@[i as int] == (pair.0@, pair.1@));
            }
            i += 1;
        }
        true
    }
}

/// The guard in front of one guarded destination.
#[derive(Debug)]
pub struct CredentialAccessControl {
    policy: AccessControlPolicy,
}

impl CredentialAccessControl {
    /// The policy that the guard enforces.
    pub closed spec fn spec_policy(&self) -> Seq<(Seq<u8>, Seq<u8>)> {
        self.policy@
    }

    pub fn new(policy: AccessControlPolicy) -> (guard: Self)
        ensures
            guard.spec_policy() == policy@,
    {
        CredentialAccessControl { policy }
    }

    pub fn policy(&self) -> (policy: &AccessControlPolicy)
        ensures
            policy@ == self.spec_policy(),
    {
        &self.policy
    }

    /// Whether a message from `sender` that arrives at `now` is delivered. A
    /// message that is not delivered is dropped, and nobody is told.
    pub fn is_authorized(&self, store: &VerifiedAttributesStore, sender: &Identifier, now: u64) -> (allowed: bool)
        ensures
            allowed == access_allowed(self.spec_policy(), store@, sender@, now),
    {
        match store.get(sender, now) {
            Some(attributes) => self.policy.is_satisfied_by(attributes),
            None => false,
        }
    }

    /// The decision on what a read of the sender's attributes came to, for
    /// attributes that are kept where reading can fail. A failed read denies.
    pub fn decide(&self, read: Result<Option<&AttributeSet>, StoreError>) -> (allowed: bool)
        ensures
            allowed == match read {
                Ok(Some(attributes)) => policy_satisfied(self.spec_policy(), attributes@),
                Ok(None) => false,
                Err(_) => false,
            },
    {
        match read {
            Ok(Some(attributes)) => self.policy.is_satisfied_by(attributes),
            Ok(None) => false,
            Err(_) => false,
        }
    }
}

} // verus!
