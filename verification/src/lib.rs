//! Federated quorum timestamping: attestation model, canonical codecs,
//! Ed25519 / BLS quorum signatures, merkle batching, storage rules and the
//! gateway pipeline's decision logic.

pub mod anchor;
pub mod batch;
pub mod bls;
pub mod crypto;
pub mod encoding;
pub mod external_anchors;
pub mod federation;
pub mod gateway;
pub mod freebird;
pub mod merkle;
pub mod error;
pub mod sig_codec;
pub mod signature_scheme;
pub mod store;
pub mod types;
pub mod wallet;
pub mod witness_node;
