//! Core data model: attestations, witness signatures, network configuration,
//! and the request/response bodies of the gateway and witness interfaces.

use vstd::prelude::*;

use crate::encoding::u64_le_bytes;
use crate::encoding::push_bytes;
use crate::encoding::push_u64_le;
use crate::encoding::str_eq;
use crate::error::WitnessError;
use crate::signature_scheme::AttestationSignatures;
use crate::signature_scheme::SignatureScheme;
use vstd::utf8::encode_utf8;

verus! {

/// The atom that gets signed: a content hash bound to a time, a network and
/// a sequence number.
#[derive(Debug, Clone, PartialEq, Eq)]
pub struct Attestation {
    /// The content digest supplied by the client.
    pub hash: [u8; 32],
    /// Unix timestamp in seconds, set by the gateway at admission.
    pub timestamp: u64,
    /// The witness network this attestation belongs to.
    pub network_id: String,
    /// Monotonic sequence number, unique within the network.
    pub sequence: u64,
}

/// Relies on std::time::SystemTime::now, read as seconds since the Unix
/// epoch; zero if the clock reads before the epoch. Nothing is assumed of
/// the value.
#[verifier::external_body]
pub(crate) fn now_unix_secs() -> u64 {
    std::time::SystemTime::now()
        .duration_since(std::time::UNIX_EPOCH)
        .map(|d| d.as_secs())
        .unwrap_or(0)
}

impl Attestation {
    /// The canonical bytes that every signature commits to:
    /// `hash (32) || timestamp (8, LE) || network_id (UTF-8) || sequence (8, LE)`.
    pub open spec fn spec_bytes(self) -> Seq<u8> {
        self.hash@ + u64_le_bytes(self.timestamp) + encode_utf8(self.network_id@)
            + u64_le_bytes(self.sequence)
    }

    /// Builds an attestation with the given timestamp; every field is bound
    /// to its argument.
    pub fn new_at(hash: [u8; 32], network_id: String, sequence: u64, timestamp: u64) -> (r: Self)
        ensures
            r.hash == hash,
            r.timestamp == timestamp,
            r.network_id == network_id,
            r.sequence == sequence,
    {
        Attestation { hash, timestamp, network_id, sequence }
    }

    /// Builds an attestation stamped with the process clock, as admission
    /// does. The clock is an outside value with no specification handle, so
    /// the timestamp field is bound only by `new_at`, which this calls;
    /// callers that must pin the timestamp use `new_at` directly.
    pub fn new(hash: [u8; 32], network_id: String, sequence: u64) -> (r: Self)
        ensures
            r.hash == hash,
            r.network_id == network_id,
            r.sequence == sequence,
    {
        let timestamp = now_unix_secs();
        Attestation::new_at(hash, network_id, sequence, timestamp)
    }

    /// The canonical serialization for signing; exactly `spec_bytes`.
    pub fn to_bytes(&self) -> (r: Vec<u8>)
        ensures
            r@ == self.spec_bytes(),
    {
        let mut bytes: Vec<u8> = Vec::new();
        push_bytes(&mut bytes, self.hash.as_slice());
        push_u64_le(&mut bytes, self.timestamp);
        push_bytes(&mut bytes, self.network_id.as_str().as_bytes());
        push_u64_le(&mut bytes, self.sequence);
        assert(bytes@ =~= self.spec_bytes());
        bytes
    }

    /// An explicit copy; every field of the result equals the original's.
    pub fn duplicate(&self) -> (r: Self)
        ensures
            r.hash == self.hash,
            r.timestamp == self.timestamp,
            r.network_id@ == self.network_id@,
            r.sequence == self.sequence,
    {
        Attestation {
            hash: self.hash,
            timestamp: self.timestamp,
            network_id: self.network_id.clone(),
            sequence: self.sequence,
        }
    }
}

/// Equality of two attestations by their views: the same hash, timestamp,
/// network and sequence.
pub open spec fn attestation_equiv(a: Attestation, b: Attestation) -> bool {
    a.hash@ == b.hash@ && a.timestamp == b.timestamp && a.network_id@ == b.network_id@
        && a.sequence == b.sequence
}

/// Canonical serialization is a function of the four fields alone: two
/// attestations whose fields agree serialize to the same bytes.
pub proof fn lemma_serialization_deterministic(a: Attestation, b: Attestation)
    requires
        a.hash@ == b.hash@,
        a.timestamp == b.timestamp,
        a.network_id@ == b.network_id@,
        a.sequence == b.sequence,
    ensures
        a.spec_bytes() == b.spec_bytes(),
{
}

/// One witness's signature on an attestation, as stored.
#[derive(Debug, Clone, PartialEq, Eq)]
pub struct WitnessSignature {
    /// Id of the witness that signed.
    pub witness_id: String,
    /// Signature bytes: 64 for Ed25519, 48 for an aggregated BLS signature.
    pub signature: Vec<u8>,
}

/// An attestation together with the quorum's signatures.
#[derive(Debug, Clone)]
pub struct SignedAttestation {
    pub attestation: Attestation,
    /// Signatures in one of the two forms.
    pub signatures: AttestationSignatures,
}

impl SignedAttestation {
    /// Starts an Ed25519 multi-sig attestation with no signatures yet.
    pub fn new(attestation: Attestation) -> (r: Self)
        ensures
            r.attestation == attestation,
            r.signatures is MultiSig,
            r.signatures.spec_signer_count() == 0,
    {
        SignedAttestation { attestation, signatures: AttestationSignatures::new_multisig() }
    }

    /// Wraps an attestation with an aggregated BLS signature.
    pub fn new_with_aggregated(
        attestation: Attestation,
        signature: Vec<u8>,
        signers: Vec<String>,
    ) -> (r: Self)
        ensures
            r.attestation == attestation,
            r.signatures is Aggregated,
            r.signatures.spec_agg_signature() == signature@,
            r.signatures.spec_signers() == signers@,
    {
        SignedAttestation {
            attestation,
            signatures: AttestationSignatures::new_aggregated(signature, signers),
        }
    }

    /// Appends one witness signature; a no-op on the aggregated form.
    pub fn add_signature(&mut self, witness_id: String, signature: Vec<u8>)
        ensures
            final(self).attestation == old(self).attestation,
            (*old(self)).signatures is MultiSig ==> {
                &&& (*final(self)).signatures is MultiSig
                &&& final(self).signatures.spec_multisig_rows()
                    == old(self).signatures.spec_multisig_rows().push(
                    WitnessSignature { witness_id, signature },
                )
            },
            (*old(self)).signatures is Aggregated ==> *final(self) == *old(self),
    {
        self.signatures.add_signature_multisig(witness_id, signature);
    }

    /// How many witnesses stand behind this attestation.
    pub fn signature_count(&self) -> (r: usize)
        ensures
            r == self.signatures.spec_signer_count(),
    {
        self.signatures.signer_count()
    }

    /// True when the signatures are one aggregated BLS signature.
    pub fn is_aggregated(&self) -> (r: bool)
        ensures
            r == (self.signatures is Aggregated),
    {
        self.signatures.is_aggregated()
    }
}

/// Equality of two signed attestations by their views.
pub open spec fn signed_equiv(a: SignedAttestation, b: SignedAttestation) -> bool {
    attestation_equiv(a.attestation, b.attestation)
        && crate::signature_scheme::sigs_equiv(a.signatures, b.signatures)
}

/// A witness node as configured in the network: id, hex public key, endpoint.
#[derive(Debug, Clone, PartialEq, Eq)]
pub struct WitnessInfo {
    /// Unique id within the network.
    pub id: String,
    /// Hex-encoded public key: Ed25519 (32 bytes) or BLS (96 bytes).
    pub pubkey: String,
    /// HTTP endpoint of the witness.
    pub endpoint: String,
}

/// True when some witness in the list carries the given id.
pub open spec fn spec_has_witness(ws: Seq<WitnessInfo>, id: Seq<char>) -> bool {
    exists|i: int| 0 <= i < ws.len() && #[trigger] ws[i].id@ == id
}

/// The first witness in the list carrying the given id, if any.
pub open spec fn spec_find_witness(ws: Seq<WitnessInfo>, id: Seq<char>) -> Option<WitnessInfo>
    decreases ws.len(),
{
    if ws.len() == 0 {
        None
    } else if ws[0].id@ == id {
        Some(ws[0])
    } else {
        spec_find_witness(ws.drop_first(), id)
    }
}

/// A lookup finds a witness exactly when some witness carries the id.
pub proof fn lemma_find_witness_some(ws: Seq<WitnessInfo>, id: Seq<char>)
    ensures
        (spec_find_witness(ws, id) is Some) <==> spec_has_witness(ws, id),
    decreases ws.len(),
{
    if ws.len() == 0 {
    } else if ws[0].id@ == id {
        assert(spec_has_witness(ws, id));
    } else {
        lemma_find_witness_some(ws.drop_first(), id);
        if spec_has_witness(ws, id) {
            let i = choose|i: int| 0 <= i < ws.len() && #[trigger] ws[i].id@ == id;
            assert(i >= 1);
            assert(ws.drop_first()[i - 1].id@ == id);
            assert(spec_has_witness(ws.drop_first(), id));
        }
        if spec_has_witness(ws.drop_first(), id) {
            let i = choose|i: int|
                0 <= i < ws.drop_first().len() && #[trigger] ws.drop_first()[i].id@ == id;
            assert(ws[i + 1].id@ == id);
            assert(spec_has_witness(ws, id));
        }
    }
}

/// A witness network: its witnesses, quorum threshold and scheme.
#[derive(Debug, Clone)]
pub struct NetworkConfig {
    /// Network identifier.
    pub id: String,
    /// The witnesses of this network.
    pub witnesses: Vec<WitnessInfo>,
    /// Minimum number of verifying signatures.
    pub threshold: usize,
    /// Signature scheme the witnesses use.
    pub signature_scheme: SignatureScheme,
    /// Batch-closing configuration.
    pub federation: crate::federation::FederationConfig,
    /// External anchoring configuration.
    pub external_anchors: crate::external_anchors::ExternalAnchorsConfig,
    /// Kept only for configurations that predate `federation.peer_networks`;
    /// read, never written.
    pub federation_peers: Vec<String>,
}

impl NetworkConfig {
    /// A valid network has at least one witness and a threshold between one
    /// and the number of witnesses.
    pub open spec fn spec_valid(self) -> bool {
        self.witnesses@.len() > 0 && 1 <= self.threshold <= self.witnesses@.len()
    }

    /// Checks the configuration invariant; `Ok` exactly on valid configs.
    pub fn validate(&self) -> (r: Result<(), WitnessError>)
        ensures
            r.is_ok() <==> self.spec_valid(),
            self.witnesses@.len() == 0 ==> (r matches Err(e)
                && e matches WitnessError::InvalidPublicKey(_)),
            self.witnesses@.len() > 0 && !self.spec_valid() ==> (r matches Err(e)
                && e matches WitnessError::InsufficientSignatures { got, required }
                && got == 0 && required == self.threshold),
    {
        if self.witnesses.len() == 0 {
            return Err(WitnessError::InvalidPublicKey(String::from_str(
                "No witnesses configured",
            )));
        }
        if self.threshold == 0 || self.threshold > self.witnesses.len() {
            return Err(WitnessError::InsufficientSignatures { got: 0, required: self.threshold });
        }
        Ok(())
    }

    /// Finds the first witness carrying the id; `Some` exactly when one does.
    pub fn find_witness(&self, id: &str) -> (r: Option<&WitnessInfo>)
        ensures
            r is Some <==> spec_has_witness(self.witnesses@, id@),
            r is None ==> spec_find_witness(self.witnesses@, id@) is None,
            r matches Some(w) ==> spec_find_witness(self.witnesses@, id@) == Some(*w)
                && w.id@ == id@,
    {
        let ghost ws = self.witnesses@;
        let n = self.witnesses.len();
        let mut i: usize = 0;
        assert(ws.skip(0) =~= ws);
        while i < n
            invariant
                n == ws.len(),
                ws == self.witnesses@,
                i <= n,
                spec_find_witness(ws, id@) == spec_find_witness(ws.skip(i as int), id@),
            decreases n - i,
        {
            let ghost tail = ws.skip(i as int);
            assert(tail[0] == ws[i as int]);
            if str_eq(self.witnesses[i].id.as_str(), id) {
                proof {
                    lemma_find_witness_some(ws, id@);
                }
                return Some(&self.witnesses[i]);
            }
            assert(tail.drop_first() =~= ws.skip(i + 1));
            i = i + 1;
        }
        proof {
            assert(ws.skip(n as int) =~= Seq::<WitnessInfo>::empty());
            lemma_find_witness_some(ws, id@);
        }
        None
    }
}

/// A client's request to timestamp a hash.
#[derive(Debug, Clone)]
pub struct TimestampRequest {
    /// The hash to timestamp, as 64 hex digits.
    pub hash: String,
    /// Optional anonymous authorization token.
    pub freebird_token: Option<FreebirdToken>,
}

/// An anonymous authorization token presented with a timestamp request.
#[derive(Debug, Clone, PartialEq, Eq)]
pub struct FreebirdToken {
    /// The token itself, base64-encoded.
    pub token_b64: String,
    /// Id of the issuer that created the token.
    pub issuer_id: String,
    /// Expiry as a Unix timestamp.
    pub exp: u64,
    /// Epoch used for the token's key derivation.
    pub epoch: u32,
}

/// Gateway-side token verification settings.
#[derive(Debug, Clone)]
pub struct FreebirdConfig {
    /// Where the external token service listens, if one is configured.
    pub verifier_url: Option<String>,
    /// Issuer ids the gateway trusts; empty trusts any issuer.
    pub issuer_ids: Vec<String>,
    /// When true, requests without a token are rejected.
    pub required: bool,
    /// When true, verification consumes the token (records its nullifier).
    pub consume_tokens: bool,
}

/// Response to a successful timestamp request.
#[derive(Debug, Clone)]
pub struct TimestampResponse {
    pub attestation: SignedAttestation,
}

/// A request to verify a presented attestation.
#[derive(Debug, Clone)]
pub struct VerifyRequest {
    pub attestation: SignedAttestation,
}

/// The outcome of verifying an attestation.
#[derive(Debug, Clone)]
pub struct VerifyResponse {
    pub valid: bool,
    pub verified_signatures: usize,
    pub required_signatures: usize,
    pub message: String,
}

/// The gateway's sign request to one witness.
#[derive(Debug, Clone)]
pub struct SignRequest {
    pub attestation: Attestation,
}

/// A witness's reply: its id and its signature over the canonical bytes.
#[derive(Debug, Clone)]
pub struct SignResponse {
    pub witness_id: String,
    pub signature: Vec<u8>,
}

/// The event announced to live subscribers after an attestation is stored.
#[derive(Debug, Clone)]
pub struct AttestationEvent {
    /// Always the word `attestation`.
    pub event_type: &'static str,
    /// The stored hash, as hex.
    pub hash: String,
    /// The attestation's timestamp.
    pub timestamp: u64,
}

} // verus!
