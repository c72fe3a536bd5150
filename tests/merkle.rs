use nyx_privacy_core::field::Fe;
use nyx_privacy_core::merkle::{
    get_zero_hash, verify_merkle_proof, IncrementalMerkleTree, MerkleError, PoseidonMerkleTree, TREE_DEPTH,
};
use nyx_privacy_core::poseidon::poseidon_hash2;

fn f(v: u64) -> Fe {
    Fe::from_u64(v)
}

#[test]
fn test_empty_tree() {
    let tree = PoseidonMerkleTree::new();
    assert_eq!(tree.len(), 0);
    assert!(tree.is_empty());
    let expected_root = get_zero_hash(TREE_DEPTH);
    assert_eq!(tree.root(), expected_root);
}

#[test]
fn merkle_test_insert_single_leaf() {
    let mut tree = PoseidonMerkleTree::new();
    let leaf = f(12345);
    let index = tree.insert(leaf).unwrap();
    assert_eq!(index, 0);
    assert_eq!(tree.len(), 1);
    assert_ne!(tree.root(), get_zero_hash(TREE_DEPTH));

    let mut tree = PoseidonMerkleTree::new();
    let leaf = Fe::from_le_bytes_mod_order(&[1u8; 32]);
    let index = tree.insert(leaf).unwrap();
    assert_eq!(index, 0);
    assert_eq!(tree.len(), 1);
    assert_ne!(tree.root(), get_zero_hash(TREE_DEPTH));
}

#[test]
fn merkle_test_deterministic_root() {
    let leaf = f(42);
    let mut tree1 = PoseidonMerkleTree::new();
    let mut tree2 = PoseidonMerkleTree::new();
    tree1.insert(leaf).unwrap();
    tree2.insert(leaf).unwrap();
    assert_eq!(tree1.root(), tree2.root());

    let leaf = Fe::from_le_bytes_mod_order(&[42u8; 32]);
    let mut tree1 = PoseidonMerkleTree::new();
    let mut tree2 = PoseidonMerkleTree::new();
    tree1.insert(leaf).unwrap();
    tree2.insert(leaf).unwrap();
    assert_eq!(tree1.root(), tree2.root());
}

#[test]
fn test_different_leaves_different_roots() {
    let mut tree1 = PoseidonMerkleTree::new();
    let mut tree2 = PoseidonMerkleTree::new();
    tree1.insert(f(1)).unwrap();
    tree2.insert(f(2)).unwrap();
    assert_ne!(tree1.root(), tree2.root());
}

#[test]
fn test_proof_generation_and_verification() {
    let mut tree = PoseidonMerkleTree::new();
    for i in 0..4u64 {
        tree.insert(f(i)).unwrap();
    }
    for i in 0..4u64 {
        let proof = tree.generate_proof(i).unwrap();
        let leaf = tree.get_leaf(i).unwrap();
        assert!(proof.verify(&leaf, &tree.root()));
    }
}

#[test]
fn test_proof_fails_with_wrong_leaf() {
    let mut tree = PoseidonMerkleTree::new();
    tree.insert(f(100)).unwrap();
    let proof = tree.generate_proof(0).unwrap();
    let wrong_leaf = f(999);
    assert!(!proof.verify(&wrong_leaf, &tree.root()));
}

#[test]
fn test_proof_fails_with_wrong_root() {
    let mut tree = PoseidonMerkleTree::new();
    tree.insert(f(100)).unwrap();
    let proof = tree.generate_proof(0).unwrap();
    let leaf = tree.get_leaf(0).unwrap();
    let wrong_root = f(999);
    assert!(!proof.verify(&leaf, &wrong_root));
}

#[test]
fn test_many_insertions() {
    let mut tree = PoseidonMerkleTree::new();
    for i in 0..100u64 {
        tree.insert(f(i)).unwrap();
    }
    assert_eq!(tree.len(), 100);
    for i in [0u64, 50, 99] {
        let proof = tree.generate_proof(i).unwrap();
        let leaf = tree.get_leaf(i).unwrap();
        assert!(proof.verify(&leaf, &tree.root()));
    }
}

#[test]
fn test_random_leaves() {
    let mut tree = PoseidonMerkleTree::new();
    let leaves: Vec<Fe> = (0..10u64)
        .map(|i| Fe::from_le_bytes_mod_order(&[(i as u8).wrapping_mul(37).wrapping_add(11); 32]))
        .collect();
    for leaf in &leaves {
        tree.insert(*leaf).unwrap();
    }
    for i in 0..10u64 {
        let proof = tree.generate_proof(i).unwrap();
        let leaf = tree.get_leaf(i).unwrap();
        assert!(proof.verify(&leaf, &tree.root()));
    }
}

#[test]
fn test_verify_merkle_proof_function() {
    let mut tree = PoseidonMerkleTree::new();
    for i in 0..5u64 {
        tree.insert(f(i)).unwrap();
    }
    let proof = tree.generate_proof(2).unwrap();
    let leaf = tree.get_leaf(2).unwrap();
    assert!(verify_merkle_proof(&leaf, 2, &proof.siblings, &tree.root()));
}

#[test]
fn test_empty_tree_root() {
    let tree = PoseidonMerkleTree::new();
    let expected_root = get_zero_hash(TREE_DEPTH);
    assert_eq!(tree.root(), expected_root);
}

#[test]
fn test_insert_two_leaves() {
    let mut tree = PoseidonMerkleTree::new();
    tree.insert(Fe::from_le_bytes_mod_order(&[1u8; 32])).unwrap();
    let root_after_one = tree.root();
    tree.insert(Fe::from_le_bytes_mod_order(&[2u8; 32])).unwrap();
    let root_after_two = tree.root();
    assert_ne!(root_after_one, root_after_two);
}

#[test]
fn test_verify_proof() {
    let leaves: Vec<Fe> = (0..4u8)
        .map(|i| {
            let mut leaf = [0u8; 32];
            leaf[0] = i;
            Fe::from_le_bytes_mod_order(&leaf)
        })
        .collect();
    let mut tree = PoseidonMerkleTree::new();
    for leaf in &leaves {
        tree.insert(*leaf).unwrap();
    }
    let proof = tree.generate_proof(0).unwrap();
    assert!(verify_merkle_proof(&leaves[0], 0, &proof.siblings, &tree.root()));
}

#[test]
fn empty_root_is_folded_zero_hash() {
    let mut z = f(0);
    for _ in 0..TREE_DEPTH {
        z = poseidon_hash2(&z, &z);
    }
    let tree = PoseidonMerkleTree::new();
    assert_eq!(tree.root(), z);
    assert_eq!(get_zero_hash(TREE_DEPTH), z);
}

#[test]
fn single_insert_is_deterministic_and_moves_root() {
    let mut t1 = PoseidonMerkleTree::new();
    let mut t2 = PoseidonMerkleTree::new();
    t1.insert(f(42)).unwrap();
    t2.insert(f(42)).unwrap();
    assert_eq!(t1.root(), t2.root());
    assert_ne!(t1.root(), get_zero_hash(TREE_DEPTH));
}

#[test]
fn proof_index_out_of_range_is_rejected() {
    let mut tree = PoseidonMerkleTree::new();
    tree.insert(f(7)).unwrap();
    assert!(matches!(tree.generate_proof(1), Err(MerkleError::InvalidLeafIndex(1))));
    assert!(tree.get_leaf(1).is_none());
}

#[test]
fn proof_rejects_changed_sibling_and_short_path() {
    let mut tree = PoseidonMerkleTree::new();
    for i in 0..3u64 {
        tree.insert(f(i + 1)).unwrap();
    }
    let leaf = tree.get_leaf(1).unwrap();
    let mut proof = tree.generate_proof(1).unwrap();
    assert!(proof.indices[0]);
    assert!(!proof.indices[1]);
    assert_eq!(proof.siblings[0], f(1));
    proof.siblings[0] = f(12345);
    assert!(!proof.verify(&leaf, &tree.root()));
    let mut short = tree.generate_proof(1).unwrap();
    short.siblings.pop();
    assert!(!short.verify(&leaf, &tree.root()));
}

#[test]
fn root_bytes_match_root() {
    let mut tree = PoseidonMerkleTree::new();
    tree.insert(f(5)).unwrap();
    let bytes = tree.root_bytes();
    assert_eq!(Fe::from_le_bytes_mod_order(&bytes), tree.root());
    assert!(tree.is_known_root(&tree.root()));
    assert!(!tree.is_known_root(&f(5)));
}

#[test]
fn frontier_tree_tracks_full_tree() {
    let mut frontier = IncrementalMerkleTree::new();
    let mut full = PoseidonMerkleTree::new();
    assert_eq!(frontier.root(), full.root());
    for i in 0..9u64 {
        assert_eq!(frontier.insert(f(i * 3 + 1)).unwrap(), i);
        full.insert(f(i * 3 + 1)).unwrap();
        assert_eq!(frontier.root(), full.root());
    }
    assert_eq!(frontier.len(), 9);
    assert!(!frontier.is_empty());
    assert!(frontier.is_known_root(&full.root()));
    assert_eq!(frontier.root_bytes(), full.root_bytes());
}
