//! Merkle tree behaviour: roots, proofs and their verification.

use witness::merkle::MerkleTree;

#[test]
fn test_empty_tree() {
    let tree = MerkleTree::new(vec![]);
    assert_eq!(tree.root(), [0u8; 32]);
}

#[test]
fn test_single_leaf() {
    let leaf = [1u8; 32];
    let tree = MerkleTree::new(vec![leaf]);
    assert_eq!(tree.root(), leaf);
}

#[test]
fn test_multiple_leaves() {
    let leaves = vec![[1u8; 32], [2u8; 32], [3u8; 32], [4u8; 32]];
    let tree = MerkleTree::new(leaves);

    let root = tree.root();
    assert_ne!(root, [0u8; 32]);

    let tree2 = MerkleTree::new(vec![[1u8; 32], [2u8; 32], [3u8; 32], [4u8; 32]]);
    assert_eq!(tree.root(), tree2.root());
}

#[test]
fn test_proof_verification() {
    let leaves = vec![[1u8; 32], [2u8; 32], [3u8; 32], [4u8; 32]];
    let tree = MerkleTree::new(leaves.clone());

    let proof = tree.proof_path(0).unwrap();
    assert!(MerkleTree::verify_proof(leaves[0], &proof, tree.root()));

    let proof = tree.proof_path(2).unwrap();
    assert!(MerkleTree::verify_proof(leaves[2], &proof, tree.root()));

    assert!(!MerkleTree::verify_proof([99u8; 32], &proof, tree.root()));
}

#[test]
fn test_odd_number_of_leaves() {
    let leaves = vec![[1u8; 32], [2u8; 32], [3u8; 32]];
    let tree = MerkleTree::new(leaves.clone());

    for i in 0..leaves.len() {
        let proof = tree.proof_path(i).unwrap();
        assert!(MerkleTree::verify_proof(leaves[i], &proof, tree.root()));
    }
}

#[test]
fn test_proof_out_of_range() {
    let leaves = vec![[1u8; 32], [2u8; 32]];
    let tree = MerkleTree::new(leaves);
    assert!(tree.proof_path(2).is_none());
}

#[test]
fn test_pair_order_independent() {
    let a = [1u8; 32];
    let b = [2u8; 32];
    let t1 = MerkleTree::new(vec![a, b]);
    let t2 = MerkleTree::new(vec![b, a]);
    assert_eq!(t1.root(), t2.root());
}

#[test]
fn test_tampered_leaf_fails() {
    let leaves = vec![[5u8; 32], [6u8; 32], [7u8; 32], [8u8; 32], [9u8; 32]];
    let tree = MerkleTree::new(leaves.clone());
    for i in 0..leaves.len() {
        let proof = tree.proof_path(i).unwrap();
        assert!(MerkleTree::verify_proof(leaves[i], &proof, tree.root()));
        let mut tampered = leaves[i];
        tampered[0] ^= 0xff;
        assert!(!MerkleTree::verify_proof(tampered, &proof, tree.root()));
    }
}
