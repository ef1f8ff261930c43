//! Error kinds surfaced by the library.

use vstd::prelude::*;

verus! {

/// Everything that can go wrong while admitting, signing, verifying or
/// storing an attestation.
#[derive(Debug, Clone, PartialEq, Eq)]
pub enum WitnessError {
    /// A signature failed to verify, or the signature form does not match
    /// the network's scheme.
    InvalidSignature,
    /// Fewer verifying signatures than the network's threshold.
    InsufficientSignatures { got: usize, required: usize },
    /// A public key could not be decoded; carries the offending key text.
    InvalidPublicKey(String),
    /// A content hash was not 64 hex digits; carries the offending text.
    InvalidHash(String),
    /// A signer id is not among the network's witnesses; carries the id.
    WitnessNotFound(String),
    /// A value could not be encoded or decoded at a storage seam.
    SerializationError(String),
    /// A peer could not be reached; carries a description.
    NetworkError(String),
    /// A sign request's timestamp lies outside the allowed clock skew.
    InvalidTimestamp,
    /// The hash is already stored.
    DuplicateAttestation,
}

impl WitnessError {
    /// The HTTP status an error kind surfaces as: bad input and failed
    /// verification answer with a client error, a quorum that fell short
    /// answers as temporarily unavailable, and everything the interface
    /// table does not name stays an internal error. A stored duplicate is
    /// answered idempotently by the pipeline and so also never reaches a
    /// client as an error.
    pub fn status_code(&self) -> (r: u16)
        ensures
            *self matches WitnessError::InvalidHash(_) ==> r == 400,
            *self == WitnessError::InvalidSignature ==> r == 400,
            *self matches WitnessError::WitnessNotFound(_) ==> r == 400,
            *self matches WitnessError::InvalidPublicKey(_) ==> r == 400,
            *self == WitnessError::InvalidTimestamp ==> r == 400,
            (*self matches WitnessError::InsufficientSignatures { got, required }) ==> r == 503,
            *self matches WitnessError::SerializationError(_) ==> r == 500,
            *self matches WitnessError::NetworkError(_) ==> r == 500,
            *self == WitnessError::DuplicateAttestation ==> r == 500,
    {
        match self {
            WitnessError::InvalidHash(_) => 400,
            WitnessError::InvalidSignature => 400,
            WitnessError::WitnessNotFound(_) => 400,
            WitnessError::InvalidPublicKey(_) => 400,
            WitnessError::InvalidTimestamp => 400,
            WitnessError::InsufficientSignatures { .. } => 503,
            WitnessError::SerializationError(_) => 500,
            WitnessError::NetworkError(_) => 500,
            WitnessError::DuplicateAttestation => 500,
        }
    }
}

} // verus!
