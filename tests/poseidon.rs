use nyx_privacy_core::field::Fe;
use nyx_privacy_core::poseidon::{
    poseidon_hash2, poseidon_hash_bytes, poseidon_hash_fields, poseidon_hash_to_bytes32, Poseidon, PoseidonError,
};
use nyx_privacy_core::poseidon_constants::{get_mds_matrix, get_round_constants, NUM_CONSTANTS, WIDTH};

fn f(v: u64) -> Fe {
    Fe::from_u64(v)
}

#[test]
fn test_poseidon_hash_deterministic() {
    let a = f(1);
    let b = f(2);
    let hash1 = poseidon_hash2(&a, &b);
    let hash2 = poseidon_hash2(&a, &b);
    assert_eq!(hash1, hash2);
}

#[test]
fn test_poseidon_different_inputs() {
    let hash1 = poseidon_hash2(&f(1), &f(2));
    let hash2 = poseidon_hash2(&f(2), &f(1));
    assert_ne!(hash1, hash2);
}

#[test]
fn test_poseidon_hash_bytes() {
    let inputs = vec![vec![1u8; 32], vec![2u8; 32]];
    let hash = poseidon_hash_bytes(&inputs).unwrap();
    assert_eq!(hash.len(), 32);
}

#[test]
fn test_poseidon_hash_to_bytes32() {
    let a = [1u8; 32];
    let b = [2u8; 32];
    let hash1 = poseidon_hash_to_bytes32(&a, &b);
    let hash2 = poseidon_hash_to_bytes32(&a, &b);
    assert_eq!(hash1, hash2);
    assert_ne!(hash1, [0u8; 32]);
}

#[test]
fn test_poseidon_permutation() {
    let p = Poseidon::new();
    let out = p.hash2(&f(0), &f(0));
    assert_ne!(out, f(0));
}

#[test]
fn test_sbox() {
    // x^5 computed through the field equals repeated multiplication.
    let x = f(3);
    let x5 = x.mul(&x).mul(&x).mul(&x).mul(&x);
    assert_eq!(x5, f(243));
}

#[test]
fn test_poseidon_single_input() {
    let hash = poseidon_hash_fields(&[f(42)]).unwrap();
    assert_ne!(hash, f(0));
}

#[test]
fn test_constants_count() {
    let constants = get_round_constants();
    assert_eq!(constants.len(), NUM_CONSTANTS);
}

#[test]
fn test_round_constants_nonzero() {
    for c in &get_round_constants() {
        assert_ne!(*c, f(0));
    }
}

#[test]
fn test_round_constants_deterministic() {
    let c1 = get_round_constants();
    let c2 = get_round_constants();
    for (a, b) in c1.iter().zip(c2.iter()) {
        assert_eq!(a, b);
    }
}

#[test]
fn test_mds_matrix_dimensions() {
    let matrix = get_mds_matrix();
    assert_eq!(matrix.len(), WIDTH);
    for row in &matrix {
        assert_eq!(row.len(), WIDTH);
    }
}

#[test]
fn test_mds_matrix_nonzero() {
    for row in &get_mds_matrix() {
        for elem in row {
            assert_ne!(*elem, f(0));
        }
    }
}

#[test]
fn test_mds_matrix_deterministic() {
    let m1 = get_mds_matrix();
    let m2 = get_mds_matrix();
    for i in 0..WIDTH {
        for j in 0..WIDTH {
            assert_eq!(m1[i][j], m2[i][j]);
        }
    }
}

#[test]
fn mds_entries_are_cauchy_inverses() {
    let m = get_mds_matrix();
    for i in 0..WIDTH {
        for j in 0..WIDTH {
            assert_eq!(m[i][j].mul(&f((i + j + 3) as u64)), f(1));
        }
    }
}

#[test]
fn round_constant_zero_is_blake3_of_tag() {
    let mut data = b"Poseidon_BN254_t3_RF8_RP57".to_vec();
    data.extend_from_slice(&0u64.to_le_bytes());
    data.extend_from_slice(b"round_constant");
    let digest = blake3::hash(&data);
    assert_eq!(get_round_constants()[0], Fe::from_le_bytes_mod_order(digest.as_bytes()));
}

#[test]
fn hash_of_two_fields_equals_hash2() {
    let h = poseidon_hash_fields(&[f(1), f(2)]).unwrap();
    assert_eq!(h, poseidon_hash2(&f(1), &f(2)));
}

#[test]
fn sponge_hash_of_three_inputs() {
    let h3 = poseidon_hash_fields(&[f(1), f(2), f(3)]).unwrap();
    let h2 = poseidon_hash_fields(&[f(1), f(2)]).unwrap();
    assert_ne!(h3, h2);
    assert_eq!(h3, poseidon_hash_fields(&[f(1), f(2), f(3)]).unwrap());
}

#[test]
fn empty_input_is_rejected() {
    assert!(matches!(poseidon_hash_fields(&[]), Err(PoseidonError::EmptyInput)));
    let none: Vec<Vec<u8>> = Vec::new();
    assert!(matches!(poseidon_hash_bytes(&none), Err(PoseidonError::EmptyInput)));
}

#[test]
fn oversized_byte_input_is_rejected() {
    let inputs = vec![vec![1u8; 32], vec![2u8; 33]];
    assert!(matches!(
        poseidon_hash_bytes(&inputs),
        Err(PoseidonError::InvalidLength { expected: 32, got: 33 })
    ));
}

#[test]
fn hash_bytes_agrees_with_field_hash() {
    let inputs = vec![vec![7u8], vec![9u8]];
    let bytes = poseidon_hash_bytes(&inputs).unwrap();
    let h = poseidon_hash2(&f(7), &f(9));
    assert_eq!(bytes, h.to_bytes_le().to_vec());
}

#[test]
fn field_arithmetic_reduces_modulo_order() {
    let mut p_minus_one = [0u8; 32];
    // p - 1 for the BN254 scalar field, little-endian
    let be = hex_to_bytes("30644e72e131a029b85045b68181585d2833e84879b9709143e1f593f0000000");
    for i in 0..32 {
        p_minus_one[i] = be[31 - i];
    }
    let x = Fe::from_le_bytes_mod_order(&p_minus_one);
    assert_eq!(x.add(&f(1)), f(0));
    assert_eq!(f(6).inverse().unwrap().mul(&f(6)), f(1));
    assert!(f(0).inverse().is_none());
    assert!(f(5).equals(&f(5)));
    assert!(!f(5).equals(&f(6)));
}

fn hex_to_bytes(s: &str) -> Vec<u8> {
    (0..s.len()).step_by(2).map(|i| u8::from_str_radix(&s[i..i + 2], 16).unwrap()).collect()
}
