//! End-to-end pipeline scenarios: admission, witness signing, quorum
//! aggregation, verification, persistence, batching, proofs and anchoring,
//! with simulated witnesses holding real keys.

use witness::anchor::process_anchor_results;
use witness::batch::close_batch;
use witness::bls::encode_bls_public_key;
use witness::bls::encode_bls_secret_key;
use witness::bls::generate_bls_keypair;
use witness::crypto::encode_public_key;
use witness::crypto::generate_keypair;
use witness::crypto::verify_signed_attestation;
use witness::error::WitnessError;
use witness::external_anchors::AnchorProviderType;
use witness::external_anchors::AnchorResponse;
use witness::external_anchors::ExternalAnchorProof;
use witness::external_anchors::ExternalAnchorsConfig;
use witness::federation::FederationConfig;
use witness::gateway::admit_hash;
use witness::gateway::aggregate_responses;
use witness::gateway::finalize_timestamp;
use witness::gateway::make_event;
use witness::gateway::parse_hash;
use witness::gateway::Admission;
use witness::merkle::MerkleTree;
use witness::signature_scheme::AttestationSignatures;
use witness::signature_scheme::SignatureScheme;
use witness::store::Storage;
use witness::types::Attestation;
use witness::types::NetworkConfig;
use witness::types::SignRequest;
use witness::types::SignResponse;
use witness::types::SignedAttestation;
use witness::types::WitnessInfo;
use witness::witness_node::WitnessNodeConfig;
use witness::witness_node::WitnessSignError;

/// A simulated witness: a node configuration holding a real private key.
fn make_witness(id: &str, scheme: SignatureScheme, network: &str) -> (WitnessNodeConfig, String) {
    let (sk, pk) = match scheme {
        SignatureScheme::Ed25519 => {
            let (sk, pk) = generate_keypair();
            (encode_public_key(&sk), encode_public_key(&pk))
        }
        SignatureScheme::BLS => {
            let (sk, pk) = generate_bls_keypair();
            (encode_bls_secret_key(&sk), encode_bls_public_key(&pk))
        }
    };
    let node = WitnessNodeConfig {
        id: id.to_string(),
        signature_scheme: scheme,
        private_key: sk,
        port: 0,
        network_id: network.to_string(),
        max_clock_skew: 300,
    };
    (node, pk)
}

fn network_config(
    scheme: SignatureScheme,
    threshold: usize,
    witnesses: &[(WitnessNodeConfig, String)],
) -> NetworkConfig {
    NetworkConfig {
        id: "test-network".to_string(),
        witnesses: witnesses
            .iter()
            .map(|(node, pk)| WitnessInfo {
                id: node.id.clone(),
                pubkey: pk.clone(),
                endpoint: "http://localhost:0".to_string(),
            })
            .collect(),
        threshold,
        signature_scheme: scheme,
        federation: FederationConfig::default(),
        external_anchors: ExternalAnchorsConfig::default(),
        federation_peers: vec![],
    }
}

/// Runs the timestamp pipeline for one hex hash against simulated
/// witnesses, skipping the ones listed as offline.
fn run_timestamp(
    storage: &mut Storage,
    config: &NetworkConfig,
    witnesses: &[(WitnessNodeConfig, String)],
    hash_hex: &str,
    offline: &[usize],
) -> Result<SignedAttestation, WitnessError> {
    let admission = admit_hash(storage, config.id.as_str(), hash_hex)?;
    let (hash, sequence) = match admission {
        Admission::Existing(existing) => return Ok(existing),
        Admission::Fresh { hash, sequence } => (hash, sequence),
    };
    let attestation = Attestation::new(hash, config.id.clone(), sequence);
    let now = attestation.timestamp;
    let mut responses: Vec<SignResponse> = Vec::new();
    for (i, (node, _)) in witnesses.iter().enumerate() {
        if offline.contains(&i) {
            continue;
        }
        let request = SignRequest { attestation: attestation.clone() };
        if let Ok(resp) = node.handle_sign(&request, now) {
            responses.push(resp);
        }
    }
    let signatures = aggregate_responses(config.signature_scheme, config.threshold, &responses)?;
    let signed = SignedAttestation { attestation, signatures };
    finalize_timestamp(storage, &signed, config)?;
    Ok(signed)
}

#[test]
fn test_happy_path_ed25519() {
    let witnesses: Vec<_> = (1..=3)
        .map(|i| make_witness(&format!("w{}", i), SignatureScheme::Ed25519, "test-network"))
        .collect();
    let config = network_config(SignatureScheme::Ed25519, 2, &witnesses);
    let mut storage = Storage::new();

    let hash_hex = "00".repeat(32);
    let signed = run_timestamp(&mut storage, &config, &witnesses, &hash_hex, &[]).unwrap();

    assert_eq!(signed.attestation.sequence, 1);
    match &signed.signatures {
        AttestationSignatures::MultiSig { signatures } => assert_eq!(signatures.len(), 3),
        _ => panic!("expected a multi-signature"),
    }
    assert_eq!(verify_signed_attestation(&signed, &config).unwrap(), 3);

    // Re-submitting the same hash returns the stored attestation unchanged.
    let again = run_timestamp(&mut storage, &config, &witnesses, &hash_hex, &[]).unwrap();
    assert_eq!(again.attestation.sequence, signed.attestation.sequence);
    assert_eq!(again.attestation.timestamp, signed.attestation.timestamp);
    assert_eq!(again.signature_count(), signed.signature_count());
    assert_eq!(storage.count_attestations(), 1);

    let event = make_event(&hash_hex, &signed);
    assert_eq!(event.event_type, "attestation");
    assert_eq!(event.hash, hash_hex);
}

#[test]
fn test_happy_path_bls() {
    let witnesses: Vec<_> = (1..=3)
        .map(|i| make_witness(&format!("w{}", i), SignatureScheme::BLS, "test-network"))
        .collect();
    let config = network_config(SignatureScheme::BLS, 2, &witnesses);
    let mut storage = Storage::new();

    let hash_hex = "11".repeat(32);
    let signed = run_timestamp(&mut storage, &config, &witnesses, &hash_hex, &[]).unwrap();

    match &signed.signatures {
        AttestationSignatures::Aggregated { signers, .. } => assert_eq!(signers.len(), 3),
        _ => panic!("expected an aggregated signature"),
    }
    assert_eq!(verify_signed_attestation(&signed, &config).unwrap(), 3);

    // The stored attestation decodes back to the same signer list and
    // signature bytes.
    let stored = storage.get_attestation(&parse_hash(&hash_hex).unwrap()).unwrap();
    match (&signed.signatures, &stored.signatures) {
        (
            AttestationSignatures::Aggregated { signature: s1, signers: ids1 },
            AttestationSignatures::Aggregated { signature: s2, signers: ids2 },
        ) => {
            assert_eq!(s1, s2);
            assert_eq!(ids1, ids2);
        }
        _ => panic!("expected aggregated signatures on both sides"),
    }
}

#[test]
fn test_degraded_quorum() {
    let witnesses: Vec<_> = (1..=3)
        .map(|i| make_witness(&format!("w{}", i), SignatureScheme::Ed25519, "test-network"))
        .collect();
    let config = network_config(SignatureScheme::Ed25519, 2, &witnesses);
    let mut storage = Storage::new();

    // One witness offline: still succeeds with two signatures.
    let hash_hex = "22".repeat(32);
    let signed = run_timestamp(&mut storage, &config, &witnesses, &hash_hex, &[2]).unwrap();
    assert_eq!(signed.signature_count(), 2);

    // A second witness offline: the quorum fails with got 1, required 2.
    let other_hex = "33".repeat(32);
    let outcome = run_timestamp(&mut storage, &config, &witnesses, &other_hex, &[1, 2]);
    match outcome {
        Err(WitnessError::InsufficientSignatures { got, required }) => {
            assert_eq!(got, 1);
            assert_eq!(required, 2);
        }
        _ => panic!("expected an insufficient-signatures failure"),
    }
    assert!(!storage.check_duplicate(&parse_hash(&other_hex).unwrap()));
}

#[test]
fn test_replay_at_witness() {
    let (node, _) = make_witness("w1", SignatureScheme::Ed25519, "test-network");
    let now = 1700000000u64;
    let request = SignRequest {
        attestation: Attestation {
            hash: [0u8; 32],
            timestamp: now - 3600,
            network_id: "test-network".to_string(),
            sequence: 1,
        },
    };
    assert!(matches!(node.handle_sign(&request, now), Err(WitnessSignError::InvalidTimestamp)));
}

#[test]
fn test_wrong_network_at_witness() {
    let (node, _) = make_witness("w1", SignatureScheme::Ed25519, "test-network");
    let now = 1700000000u64;
    let request = SignRequest {
        attestation: Attestation {
            hash: [0u8; 32],
            timestamp: now,
            network_id: "other-network".to_string(),
            sequence: 1,
        },
    };
    assert!(matches!(node.handle_sign(&request, now), Err(WitnessSignError::InvalidNetwork)));
}

#[test]
fn test_merkle_proof_of_batched_hash() {
    let witnesses: Vec<_> = (1..=3)
        .map(|i| make_witness(&format!("w{}", i), SignatureScheme::Ed25519, "test-network"))
        .collect();
    let config = network_config(SignatureScheme::Ed25519, 2, &witnesses);
    let mut storage = Storage::new();

    let hex_hashes: Vec<String> =
        ["44", "55", "66", "77"].iter().map(|b| b.repeat(32)).collect();
    for h in &hex_hashes {
        run_timestamp(&mut storage, &config, &witnesses, h, &[]).unwrap();
    }

    let network_id = "test-network".to_string();
    let closed = close_batch(&mut storage, &network_id, 0, 1900000000).unwrap();
    assert_eq!(closed.attestation_count, 4);

    // Fetch the proof for the third hash and verify it offline.
    let third = parse_hash(&hex_hashes[2]).unwrap();
    let (batch_id, index, root) = storage.get_attestation_batch_info(&third).unwrap();
    assert_eq!(batch_id, closed.id);
    assert_eq!(root, closed.merkle_root);

    let leaves = storage.get_batch_attestation_hashes(batch_id);
    assert_eq!(leaves.len(), 4);
    let tree = MerkleTree::new(leaves.clone());
    assert_eq!(tree.root(), root);

    let path = tree.proof_path(index).unwrap();
    assert!(MerkleTree::verify_proof(leaves[index], &path, root));
    assert_eq!(leaves[index], third);
}

#[test]
fn test_close_batch_empty_period() {
    let mut storage = Storage::new();
    let network_id = "test-network".to_string();
    assert!(close_batch(&mut storage, &network_id, 0, 1900000000).is_none());
    assert_eq!(storage.count_batches(), 0);
}

fn anchor_response(ok: bool, provider: AnchorProviderType) -> AnchorResponse {
    if ok {
        AnchorResponse {
            success: true,
            proof: Some(ExternalAnchorProof {
                provider,
                timestamp: 1234567890,
                proof: "{\"url\":\"https://example.invalid/anchor\"}".to_string(),
                anchored_data: None,
            }),
            error: None,
        }
    } else {
        AnchorResponse { success: false, proof: None, error: Some("unreachable".to_string()) }
    }
}

#[test]
fn test_anchor_threshold() {
    let mut storage = Storage::new();

    // Two providers, one forced to fail: with a minimum of two, nothing is
    // persisted.
    let responses = vec![
        anchor_response(true, AnchorProviderType::InternetArchive),
        anchor_response(false, AnchorProviderType::Trillian),
    ];
    let outcome = process_anchor_results(&mut storage, 1, &responses, 2);
    assert!(outcome.is_err());
    assert!(storage.get_anchor_proofs(1).is_empty());

    // With a minimum of one, the single successful proof is persisted.
    let outcome = process_anchor_results(&mut storage, 1, &responses, 1);
    assert_eq!(outcome.unwrap(), 1);
    let proofs = storage.get_anchor_proofs(1);
    assert_eq!(proofs.len(), 1);
    assert_eq!(proofs[0].provider, AnchorProviderType::InternetArchive);
}

#[test]
fn test_parse_hash_errors() {
    assert!(matches!(parse_hash("xyz"), Err(WitnessError::InvalidHash(_))));
    assert!(matches!(parse_hash("0011"), Err(WitnessError::InvalidHash(_))));
    let ok = parse_hash(&"ab".repeat(32)).unwrap();
    assert_eq!(ok, [0xabu8; 32]);
}

#[test]
fn test_verify_unknown_signer() {
    let witnesses: Vec<_> =
        vec![make_witness("w1", SignatureScheme::Ed25519, "test-network")];
    let config = network_config(SignatureScheme::Ed25519, 1, &witnesses);

    let attestation = Attestation {
        hash: [8u8; 32],
        timestamp: 1700000000,
        network_id: "test-network".to_string(),
        sequence: 1,
    };
    let mut signed = SignedAttestation::new(attestation);
    signed.add_signature("stranger".to_string(), vec![0u8; 64]);

    match verify_signed_attestation(&signed, &config) {
        Err(WitnessError::WitnessNotFound(id)) => assert_eq!(id, "stranger"),
        _ => panic!("expected an unknown-signer failure"),
    }
}

#[test]
fn test_verify_scheme_mismatch() {
    let witnesses: Vec<_> =
        vec![make_witness("w1", SignatureScheme::Ed25519, "test-network")];
    let config = network_config(SignatureScheme::Ed25519, 1, &witnesses);

    let attestation = Attestation {
        hash: [8u8; 32],
        timestamp: 1700000000,
        network_id: "test-network".to_string(),
        sequence: 1,
    };
    let signed = SignedAttestation::new_with_aggregated(
        attestation,
        vec![0u8; 48],
        vec!["w1".to_string()],
    );
    assert_eq!(verify_signed_attestation(&signed, &config), Err(WitnessError::InvalidSignature));
}

#[test]
fn test_quorum_exactly_at_threshold() {
    let witnesses: Vec<_> = (1..=3)
        .map(|i| make_witness(&format!("w{}", i), SignatureScheme::Ed25519, "test-network"))
        .collect();
    let config = network_config(SignatureScheme::Ed25519, 2, &witnesses);

    let attestation = Attestation {
        hash: [13u8; 32],
        timestamp: 1700000000,
        network_id: "test-network".to_string(),
        sequence: 1,
    };
    let mut responses: Vec<SignResponse> = Vec::new();
    for (node, _) in &witnesses[..2] {
        let request = SignRequest { attestation: attestation.clone() };
        responses.push(node.handle_sign(&request, attestation.timestamp).unwrap());
    }

    // Exactly the threshold verifies; one fewer is rejected.
    let signatures =
        aggregate_responses(SignatureScheme::Ed25519, 2, &responses).unwrap();
    let signed = SignedAttestation { attestation: attestation.clone(), signatures };
    assert_eq!(verify_signed_attestation(&signed, &config).unwrap(), 2);

    let one = vec![SignResponse {
        witness_id: responses[0].witness_id.clone(),
        signature: responses[0].signature.clone(),
    }];
    assert!(matches!(
        aggregate_responses(SignatureScheme::Ed25519, 2, &one),
        Err(WitnessError::InsufficientSignatures { got: 1, required: 2 })
    ));
}
