//! Ed25519 and hashing behaviour through the library's key, signing and
//! verification functions, exercised against the real crypto backends.

use witness::crypto::decode_public_key;
use witness::crypto::encode_public_key;
use witness::crypto::generate_keypair;
use witness::crypto::hash_content;
use witness::crypto::sign_attestation;
use witness::crypto::verify_signature;
use witness::types::Attestation;

#[test]
fn test_sign_and_verify() {
    let (signing_key, verifying_key) = generate_keypair();
    let attestation = Attestation::new([1; 32], "test-net".to_string(), 1);

    let signature = sign_attestation(&attestation, &signing_key);
    assert!(verify_signature(&attestation, &signature, &verifying_key).is_ok());
}

#[test]
fn test_invalid_signature() {
    let (_, verifying_key) = generate_keypair();
    let attestation = Attestation::new([1; 32], "test-net".to_string(), 1);
    let bad_signature = vec![0u8; 64];

    assert!(verify_signature(&attestation, &bad_signature, &verifying_key).is_err());
}

#[test]
fn test_tampered_message_fails() {
    let (signing_key, verifying_key) = generate_keypair();
    let attestation = Attestation {
        hash: [7u8; 32],
        timestamp: 1700000000,
        network_id: "test-net".to_string(),
        sequence: 4,
    };
    let signature = sign_attestation(&attestation, &signing_key);
    assert!(verify_signature(&attestation, &signature, &verifying_key).is_ok());

    let tampered = Attestation { sequence: 5, ..attestation.clone() };
    assert!(verify_signature(&tampered, &signature, &verifying_key).is_err());

    let mut bad_signature = signature.clone();
    bad_signature[0] ^= 1;
    assert!(verify_signature(&attestation, &bad_signature, &verifying_key).is_err());
}

#[test]
fn test_hash_content() {
    let data = b"hello world";
    let hash = hash_content(data);
    assert_eq!(hash.len(), 32);

    let hash2 = hash_content(data);
    assert_eq!(hash, hash2);
}

#[test]
fn test_hash_content_known_digest() {
    let digest = hash_content(b"abc");
    let expected = [
        0xbau8, 0x78, 0x16, 0xbf, 0x8f, 0x01, 0xcf, 0xea, 0x41, 0x41, 0x40, 0xde, 0x5d, 0xae,
        0x22, 0x23, 0xb0, 0x03, 0x61, 0xa3, 0x96, 0x17, 0x7a, 0x9c, 0xb4, 0x10, 0xff, 0x61,
        0xf2, 0x00, 0x15, 0xad,
    ];
    assert_eq!(digest, expected);
}

#[test]
fn test_public_key_encoding() {
    let (_, verifying_key) = generate_keypair();
    let encoded = encode_public_key(&verifying_key);
    let decoded = decode_public_key(&encoded).unwrap();
    assert_eq!(verifying_key, decoded);
}

#[test]
fn test_hex_encoding_exact() {
    let encoded = encode_public_key(&[0x00, 0x01, 0x0a, 0xff]);
    assert_eq!(encoded, "00010aff");
}

#[test]
fn test_decode_public_key_rejects_bad_hex() {
    assert!(decode_public_key("zz").is_err());
    assert!(decode_public_key("abc").is_err());
    assert!(decode_public_key("0011").is_err());
}
