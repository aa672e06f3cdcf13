use vstd::prelude::*;

verus! {

/// Errors raised by signing, verification, proof-spec validation and the
/// composition layer. Each is returned at the earliest point it can be
/// detected.
#[derive(Clone, Debug, PartialEq, Eq, Structural)]
pub enum BBSPlusError {
    /// A message index is out of range for the signature parameters in use.
    InvalidMessageIdx(usize),
    /// A signature-parameter element is the group identity.
    InvalidParameters,
    /// The public key is the group identity.
    InvalidPublicKey,
    /// The pairing equation rejected the signature.
    SignatureVerificationFailed,
    /// A proof spec failed validation: an unresolved setup-params reference,
    /// an out-of-range or wrong-kind witness-equality reference, or an
    /// equality class with fewer than two members.
    ProofSpecInvalid,
    /// A witness payload's kind differs from its statement's kind.
    WitnessKindMismatch,
    /// Responses inside one witness-equality class disagree at verify time.
    WitnessEqualityViolation,
    /// At least one sub-proof rejected.
    ProofVerificationFailed,
    /// A canonical decode failed.
    SerializationError,
}

} // verus!
