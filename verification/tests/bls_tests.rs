//! BLS behaviour through the library's signing, aggregation and
//! verification functions, exercised against the real backend.

use witness::bls::aggregate_signatures_bls;
use witness::bls::decode_bls_public_key;
use witness::bls::decode_bls_secret_key;
use witness::bls::encode_bls_public_key;
use witness::bls::encode_bls_secret_key;
use witness::bls::generate_bls_keypair;
use witness::bls::sign_attestation_bls;
use witness::bls::verify_aggregated_signature_bls;
use witness::bls::verify_signature_bls;
use witness::types::Attestation;

#[test]
fn test_bls_sign_and_verify() {
    let (secret_key, public_key) = generate_bls_keypair();
    let attestation = Attestation::new([1; 32], "test-net".to_string(), 1);

    let signature = sign_attestation_bls(&attestation, &secret_key).unwrap();
    assert!(verify_signature_bls(&attestation, &signature, &public_key).is_ok());
}

#[test]
fn test_bls_invalid_signature() {
    let (_, public_key) = generate_bls_keypair();
    let attestation = Attestation::new([1; 32], "test-net".to_string(), 1);
    let bad_signature = vec![0u8; 96];

    assert!(verify_signature_bls(&attestation, &bad_signature, &public_key).is_err());
}

#[test]
fn test_bls_signature_aggregation() {
    let attestation = Attestation::new([1; 32], "test-net".to_string(), 1);

    let keys: Vec<_> = (0..3).map(|_| generate_bls_keypair()).collect();

    let signatures: Vec<Vec<u8>> = keys
        .iter()
        .map(|(sk, _)| sign_attestation_bls(&attestation, sk).unwrap())
        .collect();

    let aggregated = aggregate_signatures_bls(&signatures).unwrap();

    let public_keys: Vec<Vec<u8>> = keys.iter().map(|(_, pk)| pk.clone()).collect();
    assert!(verify_aggregated_signature_bls(&attestation, &aggregated, &public_keys).is_ok());
}

#[test]
fn test_bls_aggregation_wrong_keys() {
    let attestation = Attestation::new([1; 32], "test-net".to_string(), 1);

    let keys: Vec<_> = (0..3).map(|_| generate_bls_keypair()).collect();

    let signatures: Vec<Vec<u8>> = keys
        .iter()
        .map(|(sk, _)| sign_attestation_bls(&attestation, sk).unwrap())
        .collect();

    let aggregated = aggregate_signatures_bls(&signatures).unwrap();

    let wrong_keys: Vec<Vec<u8>> = (0..3).map(|_| generate_bls_keypair().1).collect();

    assert!(verify_aggregated_signature_bls(&attestation, &aggregated, &wrong_keys).is_err());
}

#[test]
fn test_bls_key_encoding() {
    let (secret_key, public_key) = generate_bls_keypair();

    let encoded_sk = encode_bls_secret_key(&secret_key);
    let decoded_sk = decode_bls_secret_key(&encoded_sk).unwrap();
    assert_eq!(secret_key, decoded_sk);

    let encoded_pk = encode_bls_public_key(&public_key);
    let decoded_pk = decode_bls_public_key(&encoded_pk).unwrap();
    assert_eq!(public_key, decoded_pk);
}

#[test]
fn test_bls_aggregate_empty_fails() {
    let none: Vec<Vec<u8>> = vec![];
    assert!(aggregate_signatures_bls(&none).is_err());
}

#[test]
fn test_bls_subset_aggregation() {
    let attestation = Attestation::new([4; 32], "test-net".to_string(), 9);
    let keys: Vec<_> = (0..3).map(|_| generate_bls_keypair()).collect();

    let subset_sigs: Vec<Vec<u8>> = keys[..2]
        .iter()
        .map(|(sk, _)| sign_attestation_bls(&attestation, sk).unwrap())
        .collect();
    let aggregated = aggregate_signatures_bls(&subset_sigs).unwrap();

    let subset_keys: Vec<Vec<u8>> = keys[..2].iter().map(|(_, pk)| pk.clone()).collect();
    assert!(verify_aggregated_signature_bls(&attestation, &aggregated, &subset_keys).is_ok());

    let all_keys: Vec<Vec<u8>> = keys.iter().map(|(_, pk)| pk.clone()).collect();
    assert!(verify_aggregated_signature_bls(&attestation, &aggregated, &all_keys).is_err());
}
