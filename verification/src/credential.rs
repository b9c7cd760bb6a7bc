//! Credentials: signed, time-bounded assertions that bind an attribute set to
//! a subject, and their verification against a trust context.
//!
//! Instants and time spans are whole seconds. Producing and checking a
//! signature is the work of whoever holds the key material: the functions
//! here take the outcome of that work as a value.

use vstd::prelude::*;
use crate::attributes::AttributeSet;
use crate::identifier::Identifier;
use crate::trust_context::TrustContext;

verus! {

/// The id of the one recognized schema: a plain attribute set.
pub const ATTRIBUTES_SCHEMA_ID: u64 = 0;

/// The shape of a credential's attribute set, told by a small integer.
#[derive(Clone, Copy, Debug, PartialEq, Eq, Structural)]
pub enum CredentialSchema {
    /// A plain attribute set (id 0).
    Attributes,
    /// Any id that is not recognized.
    Unknown(u64),
}

impl CredentialSchema {
    pub open spec fn spec_from_id(id: u64) -> CredentialSchema {
        if id == ATTRIBUTES_SCHEMA_ID {
            CredentialSchema::Attributes
        } else {
            CredentialSchema::Unknown(id)
        }
    }

    pub open spec fn spec_id(self) -> u64 {
        match self {
            CredentialSchema::Attributes => ATTRIBUTES_SCHEMA_ID,
            CredentialSchema::Unknown(id) => id,
        }
    }

    pub open spec fn spec_is_known(self) -> bool {
        self is Attributes
    }

    /// The schema that an id stands for.
    #[verifier::when_used_as_spec(spec_from_id)]
    pub fn from_id(id: u64) -> (schema: CredentialSchema)
        ensures
            schema == Self::spec_from_id(id),
            schema.spec_id() == id,
    {
        if id == ATTRIBUTES_SCHEMA_ID {
            CredentialSchema::Attributes
        } else {
            CredentialSchema::Unknown(id)
        }
    }

    /// The id that the schema is written as.
    #[verifier::when_used_as_spec(spec_id)]
    pub fn id(self) -> (id: u64)
        ensures
            id == self.spec_id(),
    {
        match self {
            CredentialSchema::Attributes => ATTRIBUTES_SCHEMA_ID,
            CredentialSchema::Unknown(id) => id,
        }
    }

    /// Whether a verifier recognizes the schema.
    #[verifier::when_used_as_spec(spec_is_known)]
    pub fn is_known(self) -> (known: bool)
        ensures
            known == self.spec_is_known(),
    {
        match self {
            CredentialSchema::Attributes => true,
            CredentialSchema::Unknown(_) => false,
        }
    }
}

/// Why a credential was not issued.
#[derive(Clone, Copy, Debug, PartialEq, Eq, Structural)]
pub enum IssueError {
    /// The authority's key material was not available.
    SigningError,
}

/// Why a credential was not accepted. A caller that decides on access treats
/// all of them alike: not trusted.
#[derive(Clone, Copy, Debug, PartialEq, Eq, Structural)]
pub enum VerificationError {
    UntrustedSigner,
    InvalidSignature,
    Expired,
    UnknownSchema,
}

/// Model of the fields that a signature covers.
pub struct CredentialDataView {
    pub schema: CredentialSchema,
    pub subject: Seq<u8>,
    pub attributes: Map<Seq<u8>, Seq<u8>>,
    pub expiry: u64,
}

/// Model of a credential.
pub struct CredentialView {
    pub data: CredentialDataView,
    pub signature: Seq<u8>,
    pub signer: Seq<u8>,
}

/// The fields that an authority signs at `now` for a credential that is valid
/// for `ttl` seconds.
pub open spec fn data_to_sign(
    schema_id: u64,
    subject: Seq<u8>,
    attributes: Map<Seq<u8>, Seq<u8>>,
    now: u64,
    ttl: u64,
) -> CredentialDataView {
    CredentialDataView {
        schema: CredentialSchema::spec_from_id(schema_id),
        subject,
        attributes,
        expiry: (now + ttl) as u64,
    }
}

/// The credential that `authority` issues over `data` with `signature`.
pub open spec fn signed_credential(authority: Seq<u8>, data: CredentialDataView, signature: Seq<u8>) -> CredentialView {
    CredentialView { data, signature, signer: authority }
}

/// The fields of a credential that its signature covers.
#[derive(Debug)]
pub struct CredentialData {
    schema: CredentialSchema,
    subject: Identifier,
    attributes: AttributeSet,
    expiry: u64,
}

impl View for CredentialData {
    type V = CredentialDataView;

    closed spec fn view(&self) -> CredentialDataView {
        CredentialDataView {
            schema: self.schema,
            subject: self.subject@,
            attributes: self.attributes@,
            expiry: self.expiry,
        }
    }
}

impl CredentialData {
    /// What an authority is about to sign at `now`: `attributes` for `subject`,
    /// valid for `ttl` seconds. The attributes are taken as they are.
    pub fn new(schema_id: u64, subject: Identifier, attributes: AttributeSet, now: u64, ttl: u64) -> (data: Self)
        requires
            now + ttl <= u64::MAX,
        ensures
            data@ == data_to_sign(schema_id, subject@, attributes@, now, ttl),
    {
        CredentialData { schema: CredentialSchema::from_id(schema_id), subject, attributes, expiry: now + ttl }
    }

    /// The fields as they were received, with the expiry that the issuer stamped.
    pub fn received(schema_id: u64, subject: Identifier, attributes: AttributeSet, expiry: u64) -> (data: Self)
        ensures
            data@ == (CredentialDataView {
                schema: CredentialSchema::spec_from_id(schema_id),
                subject: subject@,
                attributes: attributes@,
                expiry,
            }),
    {
        CredentialData { schema: CredentialSchema::from_id(schema_id), subject, attributes, expiry }
    }

    pub fn schema(&self) -> (schema: CredentialSchema)
        ensures
            schema == self@.schema,
    {
        self.schema
    }

    pub fn subject(&self) -> (subject: &Identifier)
        ensures
            subject@ == self@.subject,
    {
        &self.subject
    }

    pub fn attributes(&self) -> (attributes: &AttributeSet)
        ensures
            attributes@ == self@.attributes,
    {
        &self.attributes
    }

    pub fn expiry(&self) -> (expiry: u64)
        ensures
            expiry == self@.expiry,
    {
        self.expiry
    }
}

/// A signed assertion. It does not change after it was issued.
#[derive(Debug)]
pub struct Credential {
    data: CredentialData,
    signature: Vec<u8>,
    signer: Identifier,
}

impl View for Credential {
    type V = CredentialView;

    closed spec fn view(&self) -> CredentialView {
        CredentialView { data: self.data@, signature: self.signature@, signer: self.signer@ }
    }
}

impl Credential {
    /// Puts together a credential from its parts, as a peer presented them.
    pub fn from_parts(data: CredentialData, signature: Vec<u8>, signer: Identifier) -> (credential: Self)
        ensures
            credential@ == (CredentialView { data: data@, signature: signature@, signer: signer@ }),
    {
        Credential { data, signature, signer }
    }

    pub fn data(&self) -> (data: &CredentialData)
        ensures
            data@ == self@.data,
    {
        &self.data
    }

    pub fn subject(&self) -> (subject: &Identifier)
        ensures
            subject@ == self@.data.subject,
    {
        self.data.subject()
    }

    pub fn expiry(&self) -> (expiry: u64)
        ensures
            expiry == self@.data.expiry,
    {
        self.data.expiry()
    }

    pub fn signature(&self) -> (signature: &[u8])
        ensures
            signature@ == self@.signature,
    {
        self.signature.as_slice()
    }

    pub fn signer(&self) -> (signer: &Identifier)
        ensures
            signer@ == self@.signer,
    {
        &self.signer
    }
}

/// The credential that `authority` issues over `data`, given what signing
/// `data` with the authority's key came to: the signature, or `None` where the
/// key material was not available.
pub fn issue_credential(authority: &Identifier, data: CredentialData, signed: Option<Vec<u8>>) -> (issued: Result<Credential, IssueError>)
    ensures
        is_issue_outcome(issued, authority@, data@, signed),
{
    match signed {
        Some(signature) => Ok(Credential { data, signature, signer: authority.clone() }),
        None => Err(IssueError::SigningError),
    }
}

/// Whether `issued` is what issuing over `data` comes to, given what signing
/// came to: the credential with the signature, or a signing error where
/// there is none.
pub open spec fn is_issue_outcome(
    issued: Result<Credential, IssueError>,
    authority: Seq<u8>,
    data: CredentialDataView,
    signed: Option<Vec<u8>>,
) -> bool {
    match issued {
        Ok(credential) => signed is Some && credential@ == signed_credential(authority, data, signed->0@),
        Err(e) => signed is None && e == IssueError::SigningError,
    }
}

/// Issues, as `authority` at `now`, a credential that attests `attributes`
/// for `subject` for `ttl` seconds. `sign` is the authority's signing
/// capability: it is called once, on the fields to sign, and gives the
/// signature, or `None` where the key material is not available.
pub fn issue_credential_with<F: FnOnce(&CredentialData) -> Option<Vec<u8>>>(
    authority: &Identifier,
    subject: Identifier,
    attributes: AttributeSet,
    schema_id: u64,
    now: u64,
    ttl: u64,
    sign: F,
) -> (issued: Result<Credential, IssueError>)
    requires
        now + ttl <= u64::MAX,
        forall|data: &CredentialData|
            data@ == data_to_sign(schema_id, subject@, attributes@, now, ttl) ==> call_requires(
                sign,
                (data,),
            ),
    ensures
        exists|data: CredentialData, signed: Option<Vec<u8>>|
            {
                &&& data@ == data_to_sign(schema_id, subject@, attributes@, now, ttl)
                &&& #[trigger] call_ensures(sign, (&data,), signed)
                &&& is_issue_outcome(issued, authority@, data@, signed)
            },
{
    let data = CredentialData::new(schema_id, subject, attributes, now, ttl);
    let signed = sign(&data);
    issue_credential(authority, data, signed)
}

/// Whether `outcome` is what verifying `credential` comes to: its attribute
/// set where no check fails, and else the first failure.
pub open spec fn is_verification_outcome(
    outcome: Result<AttributeSet, VerificationError>,
    credential: CredentialView,
    authority: Seq<u8>,
    now: u64,
    signature_valid: bool,
) -> bool {
    match outcome {
        Ok(attributes) => verification_failure(credential, authority, now, signature_valid) is None
            && attributes@ == credential.data.attributes,
        Err(e) => verification_failure(credential, authority, now, signature_valid) == Some(e),
    }
}

/// The first check that a credential fails at `now` against the trusted
/// `authority`, if any. The checks run in this order: the signer is the
/// trusted authority; the signature is valid; the credential has not expired;
/// its schema is recognized.
pub open spec fn verification_failure(
    credential: CredentialView,
    authority: Seq<u8>,
    now: u64,
    signature_valid: bool,
) -> Option<VerificationError> {
    if credential.signer != authority {
        Some(VerificationError::UntrustedSigner)
    } else if !signature_valid {
        Some(VerificationError::InvalidSignature)
    } else if now >= credential.data.expiry {
        Some(VerificationError::Expired)
    } else if !credential.data.schema.spec_is_known() {
        Some(VerificationError::UnknownSchema)
    } else {
        None
    }
}

/// Checks `credential` against `trust_context` at `now` and hands back its
/// attribute set. `signature_valid` says whether the credential's signature
/// was found valid, under its signer's key, over the fields that it covers.
/// Nothing is stored: the caller writes the attributes where it keeps them.
pub fn verify(credential: &Credential, trust_context: &TrustContext, now: u64, signature_valid: bool) -> (outcome: Result<AttributeSet, VerificationError>)
    ensures
        is_verification_outcome(outcome, credential@, trust_context.spec_authority(), now, signature_valid),
{
    if !credential.signer.equals(trust_context.authority()) {
        Err(VerificationError::UntrustedSigner)
    } else if !signature_valid {
        Err(VerificationError::InvalidSignature)
    } else if now >= credential.data.expiry {
        Err(VerificationError::Expired)
    } else if !credential.data.schema.is_known() {
        Err(VerificationError::UnknownSchema)
    } else {
        Ok(credential.data.attributes.clone())
    }
}

/// Verifies as `verify` does, with the signature check as a capability:
/// `check_signature` is called on the credential, once, and only where the
/// signer is the trusted authority.
pub fn verify_with<F: FnOnce(&Credential) -> bool>(
    credential: &Credential,
    trust_context: &TrustContext,
    now: u64,
    check_signature: F,
) -> (outcome: Result<AttributeSet, VerificationError>)
    requires
        call_requires(check_signature, (credential,)),
    ensures
        credential@.signer != trust_context.spec_authority() ==> is_verification_outcome(
            outcome,
            credential@,
            trust_context.spec_authority(),
            now,
            false,
        ),
        credential@.signer == trust_context.spec_authority() ==> exists|signature_valid: bool|
            {
                &&& #[trigger] call_ensures(check_signature, (credential,), signature_valid)
                &&& is_verification_outcome(
                    outcome,
                    credential@,
                    trust_context.spec_authority(),
                    now,
                    signature_valid,
                )
            },
{
    if !credential.signer.equals(trust_context.authority()) {
        Err(VerificationError::UntrustedSigner)
    } else {
        let signature_valid = check_signature(credential);
        verify(credential, trust_context, now, signature_valid)
    }
}

} // verus!
