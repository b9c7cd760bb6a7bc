//! Identifiers of cryptographic identities, in their canonical byte form.

use vstd::prelude::*;
use crate::byte_map::{bytes_eq, copy_bytes};

verus! {

/// The length of a well-formed identifier's canonical byte form.
pub const IDENTIFIER_LEN: usize = 20;

/// A handle that names a cryptographic identity. It is a value: two
/// identifiers are the same when their bytes are.
#[derive(Debug, Hash)]
pub struct Identifier {
    bytes: Vec<u8>,
}

impl View for Identifier {
    type V = Seq<u8>;

    closed spec fn view(&self) -> Seq<u8> {
        self.bytes@
    }
}

impl Identifier {
    /// Whether the byte form has the canonical length.
    pub open spec fn spec_well_formed(&self) -> bool {
        self@.len() == IDENTIFIER_LEN
    }

    /// Takes bytes as an identifier, well-formed or not.
    pub fn from_bytes(bytes: Vec<u8>) -> (id: Self)
        ensures
            id@ == bytes@,
    {
        Identifier { bytes }
    }

    /// The canonical byte form.
    pub fn as_bytes(&self) -> (bytes: &[u8])
        ensures
            bytes@ == self@,
    {
        self.bytes.as_slice()
    }

    #[verifier::when_used_as_spec(spec_well_formed)]
    pub fn well_formed(&self) -> (ok: bool)
        ensures
            ok == self.spec_well_formed(),
    {
        self.bytes.len() == IDENTIFIER_LEN
    }

    /// Whether `self` and `other` name the same identity.
    pub fn equals(&self, other: &Identifier) -> (same: bool)
        ensures
            same == (self@ == other@),
    {
        bytes_eq(self.bytes.as_slice(), other.bytes.as_slice())
    }
}

impl PartialEq for Identifier {
    fn eq(&self, other: &Identifier) -> (same: bool) {
        bytes_eq(self.bytes.as_slice(), other.bytes.as_slice())
    }
}

impl Eq for Identifier {

}

impl vstd::std_specs::cmp::PartialEqSpecImpl for Identifier {
    open spec fn obeys_eq_spec() -> bool {
        true
    }

    open spec fn eq_spec(&self, other: &Identifier) -> bool {
        self@ == other@
    }
}

impl Clone for Identifier {
    fn clone(&self) -> (copy: Self)
        ensures
            copy@ == self@,
    {
        Identifier { bytes: copy_bytes(self.bytes.as_slice()) }
    }
}

} // verus!
