//! External anchoring data model: provider kinds, their configuration, and
//! the proofs brought back from public third-party systems.

use vstd::prelude::*;

use crate::federation::AttestationBatch;

verus! {

/// The external systems a batch root can be anchored into.
#[derive(Debug, Clone, Copy, PartialEq, Eq, Structural)]
pub enum AnchorProviderType {
    /// A public web archive.
    InternetArchive,
    /// A transparency log.
    Trillian,
    /// A DNS TXT record.
    DnsTxt,
    /// A public blockchain transaction.
    Blockchain,
}

impl AnchorProviderType {
    /// The provider's storage and configuration name.
    pub fn name(&self) -> (r: &'static str)
        ensures
            *self == AnchorProviderType::InternetArchive ==> r@ == "internet_archive"@,
            *self == AnchorProviderType::Trillian ==> r@ == "trillian"@,
            *self == AnchorProviderType::DnsTxt ==> r@ == "dns_txt"@,
            *self == AnchorProviderType::Blockchain ==> r@ == "blockchain"@,
    {
        match self {
            AnchorProviderType::InternetArchive => "internet_archive",
            AnchorProviderType::Trillian => "trillian",
            AnchorProviderType::DnsTxt => "dns_txt",
            AnchorProviderType::Blockchain => "blockchain",
        }
    }
}

/// Configuration of one anchor provider.
#[derive(Debug, Clone)]
pub struct AnchorProviderConfig {
    /// Which provider this is.
    pub provider_type: AnchorProviderType,
    /// Whether this provider takes part in anchoring.
    pub enabled: bool,
    /// Lower values are tried first.
    pub priority: u32,
    /// Provider-specific settings, kept as raw JSON text.
    pub config: String,
}

/// How anchoring behaves for a network.
#[derive(Debug, Clone)]
pub struct ExternalAnchorsConfig {
    /// Whether external anchoring runs at all.
    pub enabled: bool,
    /// Seconds between anchor rounds.
    pub anchor_period: u64,
    /// Below this many successful proofs, none are persisted.
    pub minimum_required: usize,
    /// The configured providers.
    pub providers: Vec<AnchorProviderConfig>,
}

/// Anchoring runs once an hour unless configured otherwise.
pub const DEFAULT_ANCHOR_PERIOD: u64 = 3600;

/// One successful proof suffices unless configured otherwise.
pub const DEFAULT_MINIMUM_REQUIRED: usize = 1;

impl Default for ExternalAnchorsConfig {
    /// Anchoring starts disabled, with the default period, a minimum of one
    /// proof, and no providers.
    fn default() -> (r: Self)
        ensures
            !r.enabled,
            r.anchor_period == DEFAULT_ANCHOR_PERIOD,
            r.minimum_required == DEFAULT_MINIMUM_REQUIRED,
            r.providers@.len() == 0,
    {
        ExternalAnchorsConfig {
            enabled: false,
            anchor_period: DEFAULT_ANCHOR_PERIOD,
            minimum_required: DEFAULT_MINIMUM_REQUIRED,
            providers: Vec::new(),
        }
    }
}

/// Evidence that a batch root reached one external system.
#[derive(Debug, Clone)]
pub struct ExternalAnchorProof {
    /// Which provider produced the proof.
    pub provider: AnchorProviderType,
    /// When the anchor was created.
    pub timestamp: u64,
    /// Provider-specific proof data, kept as raw JSON text.
    pub proof: String,
    /// The anchored payload itself, where the provider returns it.
    pub anchored_data: Option<Vec<u8>>,
}

/// A batch together with its external anchor proofs.
#[derive(Debug, Clone)]
pub struct AnchoredBatch {
    /// The batch itself.
    pub batch: AttestationBatch,
    /// The proofs collected for it.
    pub external_anchors: Vec<ExternalAnchorProof>,
}

/// A request to anchor one batch externally.
#[derive(Debug, Clone)]
pub struct AnchorRequest {
    /// The batch to anchor.
    pub batch: AttestationBatch,
    /// Additional metadata, kept as raw JSON text.
    pub metadata: Option<String>,
}

/// One provider's reply to an anchor request.
#[derive(Debug, Clone)]
pub struct AnchorResponse {
    /// Whether the provider anchored the batch.
    pub success: bool,
    /// The proof, present on success.
    pub proof: Option<ExternalAnchorProof>,
    /// What went wrong, on failure.
    pub error: Option<String>,
}

} // verus!
