//! The two quorum signature forms: one Ed25519 signature per witness, or a
//! single aggregated BLS signature with the list of participating signers.

use vstd::prelude::*;

use crate::types::WitnessSignature;

verus! {

/// Signature scheme a network is configured with.
#[derive(Debug, Clone, Copy, PartialEq, Eq, Structural)]
pub enum SignatureScheme {
    /// One Ed25519 signature per witness, stored side by side.
    Ed25519,
    /// One aggregated BLS signature over all participating witnesses.
    BLS,
}

impl Default for SignatureScheme {
    /// Networks default to Ed25519.
    fn default() -> (r: Self)
        ensures
            r == SignatureScheme::Ed25519,
    {
        SignatureScheme::Ed25519
    }
}

impl SignatureScheme {
    /// The scheme's configuration name.
    pub fn name(&self) -> (r: &'static str)
        ensures
            *self == SignatureScheme::Ed25519 ==> r@ == "ed25519"@,
            *self == SignatureScheme::BLS ==> r@ == "bls"@,
    {
        match self {
            SignatureScheme::Ed25519 => "ed25519",
            SignatureScheme::BLS => "bls",
        }
    }
}

/// Row-by-row equality of per-witness signature entries, by their views.
pub open spec fn rows_equiv(a: Seq<WitnessSignature>, b: Seq<WitnessSignature>) -> bool {
    a.len() == b.len() && (forall|i: int|
        0 <= i < a.len() ==> (#[trigger] a[i]).witness_id@ == b[i].witness_id@
            && a[i].signature@ == b[i].signature@)
}

/// Signatures attached to an attestation.
#[derive(Debug, Clone)]
pub enum AttestationSignatures {
    /// Ed25519 multi-signature: one entry per witness.
    MultiSig { signatures: Vec<WitnessSignature> },
    /// Aggregated BLS signature plus the ordered ids of the witnesses whose
    /// keys verify it.
    Aggregated { signature: Vec<u8>, signers: Vec<String> },
}

/// Equality of two signature values by their views: the same form, and the
/// same entries, signers and bytes.
pub open spec fn sigs_equiv(a: AttestationSignatures, b: AttestationSignatures) -> bool {
    ||| (a is MultiSig && b is MultiSig && rows_equiv(a.spec_multisig_rows(), b.spec_multisig_rows()))
    ||| (a is Aggregated && b is Aggregated && a.spec_agg_signature() == b.spec_agg_signature()
        && crate::encoding::string_views(a.spec_signers()) == crate::encoding::string_views(
        b.spec_signers(),
    ))
}

impl AttestationSignatures {
    /// The per-witness entries; empty for the aggregated form.
    pub open spec fn spec_multisig_rows(self) -> Seq<WitnessSignature> {
        match self {
            AttestationSignatures::MultiSig { signatures } => signatures@,
            AttestationSignatures::Aggregated { .. } => Seq::empty(),
        }
    }

    /// The ordered signer ids of the aggregated form; empty for multi-sig.
    pub open spec fn spec_signers(self) -> Seq<String> {
        match self {
            AttestationSignatures::MultiSig { .. } => Seq::empty(),
            AttestationSignatures::Aggregated { signers, .. } => signers@,
        }
    }

    /// The aggregated signature bytes; empty for multi-sig.
    pub open spec fn spec_agg_signature(self) -> Seq<u8> {
        match self {
            AttestationSignatures::MultiSig { .. } => Seq::empty(),
            AttestationSignatures::Aggregated { signature, .. } => signature@,
        }
    }

    /// How many witnesses stand behind these signatures.
    pub open spec fn spec_signer_count(self) -> nat {
        match self {
            AttestationSignatures::MultiSig { signatures } => signatures@.len(),
            AttestationSignatures::Aggregated { signers, .. } => signers@.len(),
        }
    }

    /// An empty multi-signature, ready to collect entries.
    pub fn new_multisig() -> (r: Self)
        ensures
            r is MultiSig,
            r.spec_multisig_rows() == Seq::<WitnessSignature>::empty(),
    {
        AttestationSignatures::MultiSig { signatures: Vec::new() }
    }

    /// An aggregated signature over the given signers.
    pub fn new_aggregated(signature: Vec<u8>, signers: Vec<String>) -> (r: Self)
        ensures
            r is Aggregated,
            r.spec_agg_signature() == signature@,
            r.spec_signers() == signers@,
    {
        AttestationSignatures::Aggregated { signature, signers }
    }

    /// Appends one witness entry to a multi-signature; leaves an aggregated
    /// signature unchanged.
    pub fn add_signature_multisig(&mut self, witness_id: String, signature: Vec<u8>)
        ensures
            (*old(self)) is MultiSig ==> {
                &&& (*final(self)) is MultiSig
                &&& final(self).spec_multisig_rows() == old(self).spec_multisig_rows().push(
                    WitnessSignature { witness_id, signature },
                )
            },
            (*old(self)) is Aggregated ==> *final(self) == *old(self),
    {
        if let AttestationSignatures::MultiSig { signatures } = self {
            signatures.push(WitnessSignature { witness_id, signature });
        }
    }

    /// How many witnesses stand behind these signatures.
    pub fn signer_count(&self) -> (r: usize)
        ensures
            r == self.spec_signer_count(),
    {
        match self {
            AttestationSignatures::MultiSig { signatures } => signatures.len(),
            AttestationSignatures::Aggregated { signers, .. } => signers.len(),
        }
    }

    /// True for the aggregated form.
    pub fn is_aggregated(&self) -> (r: bool)
        ensures
            r == (*self is Aggregated),
    {
        match self {
            AttestationSignatures::MultiSig { .. } => false,
            AttestationSignatures::Aggregated { .. } => true,
        }
    }
}

} // verus!
