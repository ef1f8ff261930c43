//! Data model behaviour: canonical serialization, signature collections and
//! configuration validation.

use witness::error::WitnessError;
use witness::signature_scheme::SignatureScheme;
use witness::types::Attestation;
use witness::types::NetworkConfig;
use witness::types::SignedAttestation;
use witness::types::WitnessInfo;
use witness::federation::FederationConfig;
use witness::external_anchors::ExternalAnchorsConfig;

fn config_with(witnesses: Vec<WitnessInfo>, threshold: usize) -> NetworkConfig {
    NetworkConfig {
        id: "test".to_string(),
        witnesses,
        threshold,
        signature_scheme: Default::default(),
        federation: Default::default(),
        external_anchors: Default::default(),
        federation_peers: vec![],
    }
}

#[test]
fn test_attestation_to_bytes_deterministic() {
    let attestation = Attestation {
        hash: [1u8; 32],
        timestamp: 1700000000,
        network_id: "test".to_string(),
        sequence: 1,
    };

    let bytes1 = attestation.to_bytes();
    let bytes2 = attestation.to_bytes();

    assert_eq!(bytes1, bytes2);
    assert!(!bytes1.is_empty());
}

#[test]
fn test_to_bytes_layout() {
    let attestation = Attestation {
        hash: [0xabu8; 32],
        timestamp: 0x0102030405060708,
        network_id: "net".to_string(),
        sequence: 0x1122334455667788,
    };
    let bytes = attestation.to_bytes();
    assert_eq!(bytes.len(), 32 + 8 + 3 + 8);
    assert_eq!(&bytes[0..32], &[0xabu8; 32]);
    assert_eq!(&bytes[32..40], &[0x08, 0x07, 0x06, 0x05, 0x04, 0x03, 0x02, 0x01]);
    assert_eq!(&bytes[40..43], b"net");
    assert_eq!(&bytes[43..51], &[0x88, 0x77, 0x66, 0x55, 0x44, 0x33, 0x22, 0x11]);
}

#[test]
fn test_signed_attestation_with_multisig() {
    let attestation = Attestation {
        hash: [2u8; 32],
        timestamp: 1700000000,
        network_id: "test".to_string(),
        sequence: 1,
    };

    let mut signed = SignedAttestation::new(attestation);
    signed.add_signature("witness-1".to_string(), vec![1, 2, 3, 4]);
    signed.add_signature("witness-2".to_string(), vec![5, 6, 7, 8]);

    assert_eq!(signed.signature_count(), 2);
    assert!(!signed.is_aggregated());
}

#[test]
fn test_signed_attestation_with_aggregated() {
    let attestation = Attestation {
        hash: [3u8; 32],
        timestamp: 1700000000,
        network_id: "test".to_string(),
        sequence: 1,
    };

    let signed = SignedAttestation::new_with_aggregated(
        attestation,
        vec![10, 20, 30, 40],
        vec!["witness-1".to_string(), "witness-2".to_string()],
    );

    assert_eq!(signed.signature_count(), 2);
    assert!(signed.is_aggregated());
}

#[test]
fn test_network_config_validation() {
    let config = config_with(
        vec![WitnessInfo {
            id: "w1".to_string(),
            pubkey: "abc123".to_string(),
            endpoint: "http://localhost:3001".to_string(),
        }],
        1,
    );
    assert!(config.validate().is_ok());

    let bad_config = config_with(vec![], 1);
    assert!(bad_config.validate().is_err());

    let bad_threshold = config_with(
        vec![WitnessInfo {
            id: "w1".to_string(),
            pubkey: "abc123".to_string(),
            endpoint: "http://localhost:3001".to_string(),
        }],
        5,
    );
    assert!(bad_threshold.validate().is_err());
}

#[test]
fn test_find_witness() {
    let config = config_with(
        vec![
            WitnessInfo {
                id: "w1".to_string(),
                pubkey: "key1".to_string(),
                endpoint: "http://localhost:3001".to_string(),
            },
            WitnessInfo {
                id: "w2".to_string(),
                pubkey: "key2".to_string(),
                endpoint: "http://localhost:3002".to_string(),
            },
        ],
        1,
    );

    assert!(config.find_witness("w1").is_some());
    assert!(config.find_witness("w2").is_some());
    assert!(config.find_witness("w3").is_none());
}

#[test]
fn test_scheme_names_and_default() {
    assert_eq!(SignatureScheme::default(), SignatureScheme::Ed25519);
    assert_eq!(SignatureScheme::Ed25519.name(), "ed25519");
    assert_eq!(SignatureScheme::BLS.name(), "bls");
}

#[test]
fn test_config_defaults() {
    let fed = FederationConfig::default();
    assert!(!fed.enabled);
    assert_eq!(fed.batch_period, 3600);
    assert_eq!(fed.peer_networks.len(), 0);

    let anchors = ExternalAnchorsConfig::default();
    assert!(!anchors.enabled);
    assert_eq!(anchors.anchor_period, 3600);
    assert_eq!(anchors.minimum_required, 1);
    assert_eq!(anchors.providers.len(), 0);
}

#[test]
fn test_error_status_codes() {
    assert_eq!(WitnessError::InvalidHash("xx".to_string()).status_code(), 400);
    assert_eq!(WitnessError::InvalidSignature.status_code(), 400);
    assert_eq!(WitnessError::WitnessNotFound("w9".to_string()).status_code(), 400);
    assert_eq!(WitnessError::InvalidPublicKey("zz".to_string()).status_code(), 400);
    assert_eq!(WitnessError::InvalidTimestamp.status_code(), 400);
    assert_eq!(WitnessError::InsufficientSignatures { got: 1, required: 2 }.status_code(), 503);
    assert_eq!(WitnessError::SerializationError("s".to_string()).status_code(), 500);
    assert_eq!(WitnessError::NetworkError("n".to_string()).status_code(), 500);
    assert_eq!(WitnessError::DuplicateAttestation.status_code(), 500);
}
