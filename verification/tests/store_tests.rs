//! Storage behaviour: writing and reading attestations, sequences,
//! duplicates, batches and counts.

use witness::federation::AttestationBatch;
use witness::signature_scheme::AttestationSignatures;
use witness::store::Storage;
use witness::types::Attestation;
use witness::types::SignedAttestation;
use witness::types::WitnessSignature;

fn create_test_attestation(hash: [u8; 32], sequence: u64) -> SignedAttestation {
    let attestation = Attestation {
        hash,
        timestamp: 1700000000 + sequence,
        network_id: "test-network".to_string(),
        sequence,
    };

    let signatures = AttestationSignatures::MultiSig {
        signatures: vec![
            WitnessSignature {
                witness_id: "witness-1".to_string(),
                signature: vec![1, 2, 3, 4],
            },
            WitnessSignature {
                witness_id: "witness-2".to_string(),
                signature: vec![5, 6, 7, 8],
            },
        ],
    };

    SignedAttestation { attestation, signatures }
}

#[test]
fn test_store_and_get_attestation() {
    let mut storage = Storage::new();

    let hash = [0u8; 32];
    let signed = create_test_attestation(hash, 1);

    storage.store_attestation(&signed);

    let retrieved = storage.get_attestation(&hash);
    assert!(retrieved.is_some());

    let retrieved = retrieved.unwrap();
    assert_eq!(retrieved.attestation.hash, hash);
    assert_eq!(retrieved.attestation.sequence, 1);
    assert_eq!(retrieved.attestation.network_id, "test-network");

    match &retrieved.signatures {
        AttestationSignatures::MultiSig { signatures } => {
            assert_eq!(signatures.len(), 2);
            assert_eq!(signatures[0].witness_id, "witness-1");
            assert_eq!(signatures[1].witness_id, "witness-2");
        }
        _ => panic!("Expected MultiSig"),
    }
}

#[test]
fn test_store_and_get_attestation_bls() {
    let mut storage = Storage::new();

    let hash = [1u8; 32];
    let attestation = Attestation {
        hash,
        timestamp: 1700000000,
        network_id: "test-network".to_string(),
        sequence: 1,
    };

    let signed = SignedAttestation {
        attestation,
        signatures: AttestationSignatures::Aggregated {
            signature: vec![10, 20, 30, 40],
            signers: vec!["witness-1".to_string(), "witness-2".to_string()],
        },
    };

    storage.store_attestation(&signed);

    let retrieved = storage.get_attestation(&hash).unwrap();

    match &retrieved.signatures {
        AttestationSignatures::Aggregated { signature, signers } => {
            assert_eq!(signature, &vec![10, 20, 30, 40]);
            assert_eq!(signers.len(), 2);
            assert_eq!(signers[0], "witness-1");
            assert_eq!(signers[1], "witness-2");
        }
        _ => panic!("Expected Aggregated"),
    }
}

#[test]
fn test_check_duplicate() {
    let mut storage = Storage::new();

    let hash = [2u8; 32];

    assert!(!storage.check_duplicate(&hash));

    let signed = create_test_attestation(hash, 1);
    storage.store_attestation(&signed);

    assert!(storage.check_duplicate(&hash));
}

#[test]
fn test_get_next_sequence() {
    let mut storage = Storage::new();

    let seq = storage.get_next_sequence("test-network");
    assert_eq!(seq, 1);

    for i in 1..=5 {
        let mut hash = [0u8; 32];
        hash[0] = i;
        let signed = create_test_attestation(hash, i as u64);
        storage.store_attestation(&signed);
    }

    let seq = storage.get_next_sequence("test-network");
    assert_eq!(seq, 6);
}

#[test]
fn test_count_attestations_since() {
    let mut storage = Storage::new();

    for i in 0..5 {
        let mut hash = [0u8; 32];
        hash[0] = i;
        let mut signed = create_test_attestation(hash, i as u64);
        signed.attestation.timestamp = 1700000000 + (i as u64 * 100);
        storage.store_attestation(&signed);
    }

    let count = storage.count_attestations_since(0);
    assert_eq!(count, 5);

    let count = storage.count_attestations_since(1700000200);
    assert_eq!(count, 3);
}

#[test]
fn test_store_batch_with_attestations() {
    let mut storage = Storage::new();

    let mut hashes = Vec::new();
    for i in 0..3 {
        let mut hash = [0u8; 32];
        hash[0] = i;
        hashes.push(hash);
        let signed = create_test_attestation(hash, i as u64);
        storage.store_attestation(&signed);
    }

    let batch = AttestationBatch {
        id: 0,
        network_id: "test-network".to_string(),
        merkle_root: [42u8; 32],
        period_start: 1700000000,
        period_end: 1700003600,
        attestation_count: 3,
    };

    let batch_id = storage.store_batch(&batch, &hashes);
    assert!(batch_id > 0);

    let retrieved = storage.get_batch(batch_id).unwrap();
    assert_eq!(retrieved.merkle_root, [42u8; 32]);
    assert_eq!(retrieved.attestation_count, 3);

    let batch_hashes = storage.get_batch_attestation_hashes(batch_id);
    assert_eq!(batch_hashes.len(), 3);
    assert_eq!(batch_hashes[0], hashes[0]);
}

#[test]
fn test_get_attestation_batch_info() {
    let mut storage = Storage::new();

    let hash = [99u8; 32];
    let signed = create_test_attestation(hash, 1);
    storage.store_attestation(&signed);

    let info = storage.get_attestation_batch_info(&hash);
    assert!(info.is_none());

    let batch = AttestationBatch {
        id: 0,
        network_id: "test-network".to_string(),
        merkle_root: [55u8; 32],
        period_start: 1700000000,
        period_end: 1700003600,
        attestation_count: 1,
    };

    let batch_id = storage.store_batch(&batch, &vec![hash]);

    let info = storage.get_attestation_batch_info(&hash).unwrap();

    assert_eq!(info.0, batch_id);
    assert_eq!(info.1, 0);
    assert_eq!(info.2, [55u8; 32]);
}

#[test]
fn test_get_attestation_not_found() {
    let storage = Storage::new();

    let hash = [123u8; 32];
    let retrieved = storage.get_attestation(&hash);
    assert!(retrieved.is_none());
}

#[test]
fn test_count_attestations() {
    let mut storage = Storage::new();

    assert_eq!(storage.count_attestations(), 0);

    for i in 0..3 {
        let mut hash = [0u8; 32];
        hash[0] = i;
        let signed = create_test_attestation(hash, i as u64);
        storage.store_attestation(&signed);
    }

    assert_eq!(storage.count_attestations(), 3);
}

#[test]
fn test_count_batches() {
    let mut storage = Storage::new();

    assert_eq!(storage.count_batches(), 0);

    let hash = [1u8; 32];
    let signed = create_test_attestation(hash, 1);
    storage.store_attestation(&signed);

    let batch = AttestationBatch {
        id: 0,
        network_id: "test-network".to_string(),
        merkle_root: [0u8; 32],
        period_start: 1700000000,
        period_end: 1700003600,
        attestation_count: 1,
    };
    storage.store_batch(&batch, &vec![hash]);

    assert_eq!(storage.count_batches(), 1);
}

#[test]
fn test_idempotent_store() {
    let mut storage = Storage::new();
    let hash = [9u8; 32];
    let signed = create_test_attestation(hash, 1);

    storage.store_attestation(&signed);
    let first = storage.get_attestation(&hash).unwrap();

    storage.store_attestation(&signed);
    assert_eq!(storage.count_attestations(), 1);
    let second = storage.get_attestation(&hash).unwrap();

    assert_eq!(first.attestation.sequence, second.attestation.sequence);
    assert_eq!(first.attestation.timestamp, second.attestation.timestamp);
    assert_eq!(first.signature_count(), second.signature_count());
}
