//! The storage-row seam: encoding quorum signatures as rows and decoding
//! them back.

use witness::sig_codec::join_ids;
use witness::sig_codec::rows_from_signatures;
use witness::sig_codec::signatures_from_rows;
use witness::sig_codec::split_ids;
use witness::signature_scheme::AttestationSignatures;
use witness::types::WitnessSignature;

#[test]
fn test_join_and_split_ids() {
    let ids = vec!["w1".to_string(), "w2".to_string(), "w3".to_string()];
    let joined = join_ids(&ids);
    assert_eq!(joined, "w1,w2,w3");
    assert_eq!(split_ids(&joined), ids);

    let single = vec!["only".to_string()];
    assert_eq!(join_ids(&single), "only");
    assert_eq!(split_ids("only"), single);
}

#[test]
fn test_aggregated_rows_roundtrip() {
    let sigs = AttestationSignatures::Aggregated {
        signature: vec![10, 20, 30, 40],
        signers: vec!["witness-1".to_string(), "witness-2".to_string()],
    };
    let rows = rows_from_signatures(&sigs);
    assert_eq!(rows.len(), 1);
    assert_eq!(rows[0].witness_id, "BLS_AGGREGATED:witness-1,witness-2");
    assert_eq!(rows[0].signature, vec![10, 20, 30, 40]);

    match signatures_from_rows(&rows) {
        AttestationSignatures::Aggregated { signature, signers } => {
            assert_eq!(signature, vec![10, 20, 30, 40]);
            assert_eq!(signers, vec!["witness-1".to_string(), "witness-2".to_string()]);
        }
        _ => panic!("expected the aggregated form back"),
    }
}

#[test]
fn test_multisig_rows_roundtrip() {
    let sigs = AttestationSignatures::MultiSig {
        signatures: vec![
            WitnessSignature { witness_id: "w1".to_string(), signature: vec![1, 2] },
            WitnessSignature { witness_id: "w2".to_string(), signature: vec![3, 4] },
        ],
    };
    let rows = rows_from_signatures(&sigs);
    assert_eq!(rows.len(), 2);

    match signatures_from_rows(&rows) {
        AttestationSignatures::MultiSig { signatures } => {
            assert_eq!(signatures.len(), 2);
            assert_eq!(signatures[0].witness_id, "w1");
            assert_eq!(signatures[1].signature, vec![3, 4]);
        }
        _ => panic!("expected the multi-signature form back"),
    }
}

#[test]
fn test_empty_rows_decode_to_empty_multisig() {
    let rows: Vec<WitnessSignature> = vec![];
    match signatures_from_rows(&rows) {
        AttestationSignatures::MultiSig { signatures } => assert!(signatures.is_empty()),
        _ => panic!("expected an empty multi-signature"),
    }
}
