//! The store of verified attributes: what was accepted for each identifier,
//! and until when it counts.

use vstd::prelude::*;
use crate::attributes::AttributeSet;
use crate::byte_map::{copy_bytes, ByteMap};
use crate::credential::{verification_failure, verify, Credential, CredentialView, VerificationError};
use crate::identifier::Identifier;
use crate::trust_context::TrustContext;

verus! {

/// Model of one entry: the attributes, and the expiry of the credential that
/// they came from.
pub struct VerifiedAttributesView {
    pub attributes: Map<Seq<u8>, Seq<u8>>,
    pub expiry: u64,
}

/// The attributes accepted for one identifier, with their expiry.
#[derive(Debug)]
pub struct VerifiedAttributes {
    attributes: AttributeSet,
    expiry: u64,
}

impl View for VerifiedAttributes {
    type V = VerifiedAttributesView;

    closed spec fn view(&self) -> VerifiedAttributesView {
        VerifiedAttributesView { attributes: self.attributes@, expiry: self.expiry }
    }
}

/// The view of an entry, as a function that can be mapped over a `Map`.
pub open spec fn entry_view(entry: VerifiedAttributes) -> VerifiedAttributesView {
    entry@
}

impl VerifiedAttributes {
    pub fn new(attributes: AttributeSet, expiry: u64) -> (entry: Self)
        ensures
            entry@ == (VerifiedAttributesView { attributes: attributes@, expiry }),
    {
        VerifiedAttributes { attributes, expiry }
    }

    pub fn attributes(&self) -> (attributes: &AttributeSet)
        ensures
            attributes@ == self@.attributes,
    {
        &self.attributes
    }

    pub fn expiry(&self) -> (expiry: u64)
        ensures
            expiry == self@.expiry,
    {
        self.expiry
    }
}

/// What a read of `identifier` at `now` sees in a store: the attributes of its
/// entry, or nothing where there is no entry or the entry has expired.
pub open spec fn visible_attributes(
    store: Map<Seq<u8>, VerifiedAttributesView>,
    identifier: Seq<u8>,
    now: u64,
) -> Option<Map<Seq<u8>, Seq<u8>>> {
    if store.contains_key(identifier) && now < store[identifier].expiry {
        Some(store[identifier].attributes)
    } else {
        None
    }
}

/// A store after a peer presented `credential` at `now`: where the credential
/// is accepted, its attributes and expiry are the entry of its subject, in
/// place of any earlier entry; where it is refused, nothing has changed.
pub open spec fn after_presenting(
    store: Map<Seq<u8>, VerifiedAttributesView>,
    credential: CredentialView,
    authority: Seq<u8>,
    now: u64,
    signature_valid: bool,
) -> Map<Seq<u8>, VerifiedAttributesView> {
    if verification_failure(credential, authority, now, signature_valid) is None {
        store.insert(
            credential.data.subject,
            VerifiedAttributesView {
                attributes: credential.data.attributes,
                expiry: credential.data.expiry,
            },
        )
    } else {
        store
    }
}

/// Verified attributes by identifier. Entries are replaced whole and never
/// merged. An expired entry is not purged: every read tests the expiry.
#[derive(Debug)]
pub struct VerifiedAttributesStore {
    entries: ByteMap<VerifiedAttributes>,
}

impl View for VerifiedAttributesStore {
    type V = Map<Seq<u8>, VerifiedAttributesView>;

    closed spec fn view(&self) -> Map<Seq<u8>, VerifiedAttributesView> {
        self.entries@.map_values(|entry: VerifiedAttributes| entry_view(entry))
    }
}

impl VerifiedAttributesStore {
    /// The store without entries.
    pub fn new() -> (store: Self)
        ensures
            store@ == Map::<Seq<u8>, VerifiedAttributesView>::empty(),
    {
        let store = VerifiedAttributesStore { entries: ByteMap::new() };
        proof {
            assert(store@ =~= Map::<Seq<u8>, VerifiedAttributesView>::empty());
        }
        store
    }

    /// Makes `attributes`, valid until `expiry`, the entry of `identifier`, in
    /// place of any earlier entry.
    pub fn put(&mut self, identifier: &Identifier, attributes: AttributeSet, expiry: u64)
        ensures
            final(self)@ == old(self)@.insert(
                identifier@,
                VerifiedAttributesView { attributes: attributes@, expiry },
            ),
    {
        self.entries.insert(copy_bytes(identifier.as_bytes()), VerifiedAttributes::new(attributes, expiry));
        proof {
            assert(self@ =~= old(self)@.insert(
                identifier@,
                VerifiedAttributesView { attributes: attributes@, expiry },
            ));
        }
    }

    /// The attributes of `identifier` that count at `now`.
    pub fn get(&self, identifier: &Identifier, now: u64) -> (found: Option<&AttributeSet>)
        ensures
            match found {
                Some(attributes) => visible_attributes(self@, identifier@, now) == Some(attributes@),
                None => visible_attributes(self@, identifier@, now) is None,
            },
    {
        match self.entries.get(identifier.as_bytes()) {
            Some(entry) => {
                if now < entry.expiry {
                    Some(&entry.attributes)
                } else {
                    None
                }
            },
            None => None,
        }
    }

    /// Takes in the credential that a peer presented at `now`: verifies it
    /// against `trust_context` and, where it is accepted, makes its attributes
    /// the entry of its subject. `signature_valid` is as for `verify`.
    pub fn accept_credential(
        &mut self,
        credential: &Credential,
        trust_context: &TrustContext,
        now: u64,
        signature_valid: bool,
    ) -> (outcome: Result<(), VerificationError>)
        ensures
            final(self)@ == after_presenting(
                old(self)@,
                credential@,
                trust_context.spec_authority(),
                now,
                signature_valid,
            ),
            match outcome {
                Ok(_) => verification_failure(
                    credential@,
                    trust_context.spec_authority(),
                    now,
                    signature_valid,
                ) is None,
                Err(e) => verification_failure(
                    credential@,
                    trust_context.spec_authority(),
                    now,
                    signature_valid,
                ) == Some(e),
            },
    {
        match verify(credential, trust_context, now, signature_valid) {
            Ok(attributes) => {
                self.put(credential.subject(), attributes, credential.expiry());
                Ok(())
            },
            Err(e) => Err(e),
        }
    }

    /// Drops the entry of `identifier`, if there is one.
    pub fn remove(&mut self, identifier: &Identifier)
        ensures
            final(self)@ == old(self)@.remove(identifier@),
    {
        let _ = self.entries.remove(identifier.as_bytes());
        proof {
            assert(self@ =~= old(self)@.remove(identifier@));
        }
    }

    /// The number of entries held, expired ones included.
    pub fn len(&self) -> (n: usize)
        ensures
            n == self@.dom().len(),
    {
        proof {
            assert(self@.dom() =~= self.entries@.dom());
        }
        self.entries.len()
    }
}

} // verus!
