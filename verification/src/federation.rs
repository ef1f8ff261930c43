//! Batches of attestations and the cross-network anchoring data model.

use vstd::prelude::*;

use crate::merkle::MerkleProof;
use crate::types::SignedAttestation;
use crate::types::WitnessSignature;

verus! {

/// A merkle-committed set of attestations closed at a period boundary.
#[derive(Debug, Clone, PartialEq, Eq)]
pub struct AttestationBatch {
    /// Batch id, assigned by the store.
    pub id: u64,
    /// Network that closed this batch.
    pub network_id: String,
    /// Merkle root over the batch's attestation hashes, in leaf order.
    pub merkle_root: [u8; 32],
    /// Start of the batch period (Unix seconds).
    pub period_start: u64,
    /// End of the batch period (Unix seconds).
    pub period_end: u64,
    /// How many attestations the batch holds; always at least one.
    pub attestation_count: u64,
}

impl AttestationBatch {
    /// An explicit copy; every field of the result equals the original's.
    pub fn duplicate(&self) -> (r: Self)
        ensures
            r.id == self.id,
            r.network_id@ == self.network_id@,
            r.merkle_root == self.merkle_root,
            r.period_start == self.period_start,
            r.period_end == self.period_end,
            r.attestation_count == self.attestation_count,
    {
        AttestationBatch {
            id: self.id,
            network_id: self.network_id.clone(),
            merkle_root: self.merkle_root,
            period_start: self.period_start,
            period_end: self.period_end,
            attestation_count: self.attestation_count,
        }
    }
}

/// A peer network's attestation of one of our batches.
#[derive(Debug, Clone)]
pub struct CrossAnchor {
    /// The batch being witnessed.
    pub batch: AttestationBatch,
    /// Id of the network that witnessed the batch.
    pub witnessing_network: String,
    /// Signatures from the witnessing network's witnesses.
    pub signatures: Vec<WitnessSignature>,
    /// When the cross-anchor was created.
    pub timestamp: u64,
}

/// Federation settings: whether and how often batches close, and which peer
/// networks cross-anchor them.
#[derive(Debug, Clone)]
pub struct FederationConfig {
    /// Whether batching and federation run at all.
    pub enabled: bool,
    /// Seconds between batch closings.
    pub batch_period: u64,
    /// Peer networks asked to cross-anchor.
    pub peer_networks: Vec<PeerNetworkInfo>,
    /// How many peers must cross-anchor a batch.
    pub cross_anchor_threshold: usize,
}

/// Batches close once an hour unless configured otherwise.
pub const DEFAULT_BATCH_PERIOD: u64 = 3600;

impl Default for FederationConfig {
    /// Federation starts disabled, with the default period and no peers.
    fn default() -> (r: Self)
        ensures
            !r.enabled,
            r.batch_period == DEFAULT_BATCH_PERIOD,
            r.peer_networks@.len() == 0,
            r.cross_anchor_threshold == 0,
    {
        FederationConfig {
            enabled: false,
            batch_period: DEFAULT_BATCH_PERIOD,
            peer_networks: Vec::new(),
            cross_anchor_threshold: 0,
        }
    }
}

/// A peer network the gateway federates with.
#[derive(Debug, Clone)]
pub struct PeerNetworkInfo {
    /// Peer network id.
    pub id: String,
    /// The peer gateway's URL.
    pub gateway: String,
    /// Minimum number of witnesses required from this peer.
    pub min_witnesses: usize,
}

/// Request sent to a peer network to cross-anchor a batch.
#[derive(Debug, Clone)]
pub struct CrossAnchorRequest {
    pub batch: AttestationBatch,
}

/// A peer network's reply to a cross-anchor request.
#[derive(Debug, Clone)]
pub struct CrossAnchorResponse {
    pub cross_anchor: CrossAnchor,
}

/// An attestation enriched with its batch proof and any cross-anchors.
#[derive(Debug, Clone)]
pub struct FederatedAttestation {
    /// The base signed attestation.
    pub attestation: SignedAttestation,
    /// Proof of inclusion in a batch, once batched.
    pub merkle_proof: Option<MerkleProof>,
    /// Cross-anchors from peer networks.
    pub cross_anchors: Vec<CrossAnchor>,
}

/// A request for federated verification of a hash.
#[derive(Debug, Clone)]
pub struct FederatedVerifyRequest {
    /// Hash to verify.
    pub hash: [u8; 32],
}

/// The reply to a federated verification request.
#[derive(Debug, Clone)]
pub struct FederatedVerifyResponse {
    pub federated_attestation: Option<FederatedAttestation>,
    pub verified: bool,
    pub verification_level: VerificationLevel,
    pub message: String,
}

/// How strongly a hash's history is anchored.
#[derive(Debug, Clone, PartialEq, Eq)]
pub enum VerificationLevel {
    /// No attestation found.
    Absent,
    /// Threshold signatures from witnesses.
    Basic,
    /// Included in a merkle batch.
    Batched,
    /// Cross-anchored by peer networks.
    Federated { peer_count: usize },
}

} // verus!
