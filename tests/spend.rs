use nyx_privacy_core::field::Fe;
use nyx_privacy_core::merkle::PoseidonMerkleTree;
use nyx_privacy_core::note::compute_commitment;
use nyx_privacy_core::poseidon::poseidon_hash2;
use nyx_privacy_core::spend::{spend_relation_holds, SpendPublicInputs, SpendWitness};
use nyx_privacy_core::spend::TransferCircuitWitness;

fn f(v: u64) -> Fe {
    Fe::from_u64(v)
}

fn scenario() -> (SpendWitness, SpendPublicInputs) {
    let secret = Fe::from_le_bytes_mod_order(&[1u8; 32]);
    let amount = f(1000);
    let r_in = f(12345);
    let r_out = f(67890);
    let asset = f(0);
    let sk = poseidon_hash2(&secret, &Fe::from_le_bytes_mod_order(blake3::hash(b"NYX_SPENDING_KEY").as_bytes()));
    let c_in = compute_commitment(&sk, &amount, &r_in, &asset);
    let mut tree = PoseidonMerkleTree::new();
    let leaf_index = tree.insert(c_in).unwrap();
    let path = tree.generate_proof(leaf_index).unwrap();
    let index_tag = poseidon_hash2(&f(leaf_index), &Fe::from_le_bytes_mod_order(blake3::hash(b"NYX_NULLIFIER").as_bytes()));
    let nf = poseidon_hash2(&sk, &index_tag);
    let c_new = compute_commitment(&sk, &amount, &r_out, &asset);
    let w = SpendWitness {
        secret,
        amount,
        input_blinding: r_in,
        asset_id: asset,
        leaf_index,
        path: path.siblings,
        indices: path.indices,
        output_blinding: r_out,
    };
    let p = SpendPublicInputs { merkle_root: tree.root(), nullifier: nf, new_commitment: c_new };
    (w, p)
}

#[test]
fn test_transfer_circuit_valid() {
    let (w, p) = scenario();
    assert!(spend_relation_holds(&w, &p));
}

#[test]
fn test_transfer_circuit_invalid_nullifier() {
    let (w, mut p) = scenario();
    p.nullifier = Fe::from_le_bytes_mod_order(&[0x5au8; 32]);
    assert!(!spend_relation_holds(&w, &p));
}

#[test]
fn test_transfer_circuit_invalid_merkle_proof() {
    let (mut w, p) = scenario();
    w.path[0] = Fe::from_le_bytes_mod_order(&[0x33u8; 32]);
    assert!(!spend_relation_holds(&w, &p));
}

#[test]
fn spend_rejects_changed_output_commitment_and_amount() {
    let (w, mut p) = scenario();
    p.new_commitment = f(1);
    assert!(!spend_relation_holds(&w, &p));
    let (mut w2, p2) = scenario();
    w2.amount = f(1001);
    assert!(!spend_relation_holds(&w2, &p2));
}

#[test]
fn test_witness_creation() {
    let witness = TransferCircuitWitness::from_bytes(&[1u8; 32], 1000, &[2u8; 32], &[3u8; 32]);
    assert_eq!(witness.amount, Fe::from_u64(1000));
}
