//! Trust contexts: which authority is believed, within which context.

use vstd::prelude::*;
use crate::identifier::Identifier;

verus! {

/// Names the one authority whose credentials are trusted within a context.
/// It does not change once made.
pub struct TrustContext {
    id: String,
    authority: Identifier,
}

impl TrustContext {
    /// The context's id, as the characters it was made with.
    pub closed spec fn spec_id(&self) -> Seq<char> {
        self.id@
    }

    /// The trusted authority's identifier, as bytes.
    pub closed spec fn spec_authority(&self) -> Seq<u8> {
        self.authority@
    }

    pub fn new(id: String, authority: Identifier) -> (context: Self)
        ensures
            context.spec_id() == id@,
            context.spec_authority() == authority@,
    {
        TrustContext { id, authority }
    }

    pub fn id(&self) -> (id: &str)
        ensures
            id@ == self.spec_id(),
    {
        self.id.as_str()
    }

    pub fn authority(&self) -> (authority: &Identifier)
        ensures
            authority@ == self.spec_authority(),
    {
        &self.authority
    }
}

impl Clone for TrustContext {
    fn clone(&self) -> (copy: Self)
        ensures
            copy.spec_id() == self.spec_id(),
            copy.spec_authority() == self.spec_authority(),
    {
        TrustContext { id: self.id.clone(), authority: self.authority.clone() }
    }
}

} // verus!
