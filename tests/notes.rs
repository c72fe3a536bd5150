use nyx_privacy_core::field::Fe;
use nyx_privacy_core::note::{
    compute_commitment, nullifier_domain_fe, spending_key_domain_fe, Note, Nullifier, SpendingKey,
};
use nyx_privacy_core::poseidon::poseidon_hash2;

fn f(v: u64) -> Fe {
    Fe::from_u64(v)
}

#[test]
fn test_spending_key_derivation() {
    let secret = [1u8; 32];
    let sk1 = SpendingKey::from_secret(&secret);
    let sk2 = SpendingKey::from_secret(&secret);
    assert_eq!(sk1.to_bytes(), sk2.to_bytes());
    let sk3 = SpendingKey::from_secret(&[2u8; 32]);
    assert_ne!(sk1.to_bytes(), sk3.to_bytes());
}

#[test]
fn test_spending_key_serialization() {
    let sk = SpendingKey::from_secret(&[42u8; 32]);
    let bytes = sk.to_bytes();
    let sk2 = SpendingKey::from_bytes(&bytes);
    assert_eq!(sk.to_bytes(), sk2.to_bytes());
}

#[test]
fn test_nullifier_derivation() {
    let secret = [1u8; 32];
    let n1 = Nullifier::from_secret(&secret, 42);
    let n2 = Nullifier::from_secret(&secret, 42);
    assert_eq!(n1.to_bytes(), n2.to_bytes());
}

#[test]
fn test_nullifier_unique_per_leaf() {
    let secret = [1u8; 32];
    let n1 = Nullifier::from_secret(&secret, 0);
    let n2 = Nullifier::from_secret(&secret, 1);
    assert_ne!(n1.to_bytes(), n2.to_bytes());
}

#[test]
fn test_nullifier_unique_per_secret() {
    let n1 = Nullifier::from_secret(&[1u8; 32], 42);
    let n2 = Nullifier::from_secret(&[2u8; 32], 42);
    assert_ne!(n1.to_bytes(), n2.to_bytes());
}

#[test]
fn test_nullifier_serialization() {
    let nullifier = Nullifier::from_secret(&[99u8; 32], 100);
    let bytes = nullifier.to_bytes();
    let nullifier2 = Nullifier::from_bytes(&bytes);
    assert_eq!(nullifier.to_bytes(), nullifier2.to_bytes());
}

#[test]
fn test_note_creation() {
    let blinding = f(987654321);
    let asset_id = f(0);
    let amount = 1000u64;
    let note = Note::new([7u8; 32], amount, asset_id, blinding);
    assert_eq!(note.amount, amount);
    assert!(note.leaf_index.is_none());
}

#[test]
fn test_note_commitment_deterministic() {
    let secret = [1u8; 32];
    let blinding = f(12345);
    let asset_id = f(0);
    let amount = 1000u64;
    let note1 = Note::new(secret, amount, asset_id, blinding);
    let note2 = Note::new(secret, amount, asset_id, blinding);
    assert_eq!(note1.commitment(), note2.commitment());
}

#[test]
fn test_note_nullifier_with_leaf_index() {
    let mut note = Note::new([3u8; 32], 1000, f(0), f(555));
    note.set_leaf_index(42);
    let nullifier = note.nullifier();
    assert_eq!(nullifier.to_bytes().len(), 32);
    assert_eq!(nullifier.to_bytes(), Nullifier::from_secret(&[3u8; 32], 42).to_bytes());
}

#[test]
fn test_spending_key_hidden() {
    let secret = [1u8; 32];
    let sk = SpendingKey::from_secret(&secret);
    assert_ne!(sk.to_bytes(), secret);
}

#[test]
fn spending_key_formula() {
    let secret = [1u8; 32];
    let s = Fe::from_le_bytes_mod_order(&secret);
    let d = Fe::from_le_bytes_mod_order(blake3::hash(b"NYX_SPENDING_KEY").as_bytes());
    assert_eq!(*SpendingKey::from_secret(&secret).as_field(), poseidon_hash2(&s, &d));
}

#[test]
fn nullifier_formula() {
    let sk = SpendingKey::from_secret(&[5u8; 32]);
    let d = Fe::from_le_bytes_mod_order(blake3::hash(b"NYX_NULLIFIER").as_bytes());
    let expected = poseidon_hash2(sk.as_field(), &poseidon_hash2(&f(9), &d));
    assert_eq!(*Nullifier::derive(&sk, 9).as_field(), expected);
}

#[test]
fn commitment_formula() {
    let note = Note::new([1u8; 32], 1000, f(0), f(12345));
    let sk = note.spending_key();
    let expected = poseidon_hash2(&poseidon_hash2(sk.as_field(), &f(1000)), &poseidon_hash2(&f(12345), &f(0)));
    assert_eq!(note.commitment(), expected);
    assert_eq!(compute_commitment(sk.as_field(), &f(1000), &f(12345), &f(0)), expected);
}

#[test]
fn domain_tags_map_through_blake3() {
    assert_eq!(spending_key_domain_fe(), Fe::from_le_bytes_mod_order(blake3::hash(b"NYX_SPENDING_KEY").as_bytes()));
    assert_eq!(nullifier_domain_fe(), Fe::from_le_bytes_mod_order(blake3::hash(b"NYX_NULLIFIER").as_bytes()));
    assert_ne!(spending_key_domain_fe(), Fe::from_le_bytes_mod_order(b"NYX_SPENDING_KEY"));
}
