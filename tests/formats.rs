use nyx_privacy_core::encryption::{EncryptedNote, EncryptionError, NoteData, ENCRYPTED_NOTE_SIZE};
use nyx_privacy_core::proof_format::{
    g1_le_to_be, g2_le_to_be, le_to_be_32, le_to_be_g1, le_to_be_g2, Groth16Proof, MvpProof, ProofType,
    SerializedProof, SolanaProof, TransferPublicInputs,
};
use nyx_privacy_core::proof_format::SolanaVerifyingKey;
use nyx_privacy_core::field::Fe;
use nyx_privacy_core::merkle::PoseidonMerkleTree;

#[test]
fn test_note_data_serialization() {
    let note = NoteData::new(1000, [42u8; 32], 0);
    let bytes = note.to_bytes();
    let decoded = NoteData::from_bytes(&bytes).unwrap();
    assert_eq!(note.amount, decoded.amount);
    assert_eq!(note.blinding, decoded.blinding);
    assert_eq!(note.asset_id, decoded.asset_id);
}

#[test]
fn note_data_layout() {
    let note = NoteData::new(0x0102030405060708, [9u8; 32], 7);
    let bytes = note.to_bytes();
    assert_eq!(bytes.len(), 48);
    assert_eq!(&bytes[0..8], &[8, 7, 6, 5, 4, 3, 2, 1]);
    assert_eq!(&bytes[8..40], &[9u8; 32]);
    assert_eq!(&bytes[40..48], &[7, 0, 0, 0, 0, 0, 0, 0]);
    assert!(matches!(NoteData::from_bytes(&bytes[..47]), Err(EncryptionError::InvalidCiphertextLength)));
}

#[test]
fn encrypted_note_layout() {
    let note = EncryptedNote { ephemeral_key: [1u8; 32], ciphertext: [2u8; 64] };
    let bytes = note.to_bytes();
    assert_eq!(bytes.len(), ENCRYPTED_NOTE_SIZE);
    assert_eq!(bytes.len(), 32 + 48 + 16);
    let back = EncryptedNote::from_bytes(&bytes).unwrap();
    assert_eq!(back.ephemeral_key, [1u8; 32]);
    assert_eq!(back.ciphertext, [2u8; 64]);
    assert!(EncryptedNote::from_bytes(&bytes[..95]).is_err());
}

#[test]
fn test_proof_parsing() {
    let mut proof_bytes = [0u8; 256];
    proof_bytes[0] = 1;
    proof_bytes[64] = 2;
    proof_bytes[192] = 3;
    let proof = Groth16Proof::from_bytes(&proof_bytes).unwrap();
    assert_eq!(proof.a[0], 1);
    assert_eq!(proof.b[0], 2);
    assert_eq!(proof.c[0], 3);
    assert_eq!(proof.to_bytes(), proof_bytes);
}

#[test]
fn test_proof_too_short() {
    let proof_bytes = [0u8; 128];
    assert!(Groth16Proof::from_bytes(&proof_bytes).is_none());
}

#[test]
fn test_le_to_be_conversion() {
    let le = [1u8, 2, 3, 4, 0, 0, 0, 0, 0, 0, 0, 0, 0, 0, 0, 0, 0, 0, 0, 0, 0, 0, 0, 0, 0, 0, 0, 0, 0, 0, 0, 0];
    let be = le_to_be_32(&le);
    assert_eq!(be[31], 1);
    assert_eq!(be[30], 2);
    assert_eq!(be[29], 3);
    assert_eq!(be[28], 4);
}

#[test]
fn test_mvp_proof_parsing() {
    let mut proof_bytes = vec![0u8; 96];
    proof_bytes[0] = 1;
    proof_bytes[64] = 2;
    let proof = MvpProof::from_bytes(&proof_bytes).unwrap();
    assert_eq!(proof.signature[0], 1);
    assert_eq!(proof.pubkey[0], 2);
}

#[test]
fn test_mvp_proof_parsing_too_short() {
    let proof_bytes = vec![0u8; 64];
    assert!(MvpProof::from_bytes(&proof_bytes).is_none());
}

#[test]
fn g1_and_g2_reverse_each_word() {
    let le: Vec<u8> = (0..128u32).map(|i| i as u8).collect();
    let g2 = g2_le_to_be(&le).unwrap();
    for w in 0..4 {
        for t in 0..32 {
            assert_eq!(g2[32 * w + t], le[32 * w + 31 - t]);
        }
    }
    let g1 = g1_le_to_be(&le[..64]).unwrap();
    assert_eq!(g1[0], 31);
    assert_eq!(g1[32], 63);
    assert!(g1_le_to_be(&le[..63]).is_err());
    assert!(g2_le_to_be(&le[..64]).is_err());
    let mut a64 = [0u8; 64];
    a64.copy_from_slice(&le[..64]);
    assert_eq!(le_to_be_g1(&a64), g1);
    let mut a128 = [0u8; 128];
    a128.copy_from_slice(&le);
    assert_eq!(le_to_be_g2(&a128), g2);
}

#[test]
fn serialized_proof_is_exactly_256_bytes() {
    assert!(SerializedProof::from_bytes(vec![0u8; 256]).is_ok());
    assert!(SerializedProof::from_bytes(vec![0u8; 255]).is_err());
    assert_eq!(SerializedProof::from_bytes(vec![7u8; 256]).unwrap().as_bytes().len(), 256);
    let p = SolanaProof { a: [1u8; 64], b: [2u8; 128], c: [3u8; 64] };
    let bytes = p.to_bytes();
    assert_eq!(bytes.len(), 256);
    assert_eq!((bytes[0], bytes[64], bytes[192], bytes[255]), (1, 2, 3, 3));
}

#[test]
fn proof_type_detected_by_length() {
    assert_eq!(ProofType::detect(&[0u8; 96]), Some(ProofType::Signature));
    assert_eq!(ProofType::detect(&[0u8; 256]), Some(ProofType::Groth16));
    assert_eq!(ProofType::detect(&[0u8; 128]), None);
}

#[test]
fn public_inputs_in_circuit_order() {
    let p = TransferPublicInputs { merkle_root: [1u8; 32], nullifier: [2u8; 32], new_commitment: [3u8; 32] };
    assert_eq!(p.to_verifier_inputs(), [[1u8; 32], [2u8; 32], [3u8; 32]]);
}

#[test]
fn verifying_key_source_text() {
    let mut alpha = [0u8; 64];
    alpha[0] = 255;
    alpha[1] = 10;
    let vk = SolanaVerifyingKey {
        alpha_g1: alpha,
        beta_g2: [1u8; 128],
        gamma_g2: [2u8; 128],
        delta_g2: [3u8; 128],
        ic: vec![[4u8; 64], [5u8; 64]],
    };
    let mut expected = String::from("// Groth16 verifying key of the transfer circuit\n\n");
    expected.push_str(&format!("pub const ALPHA_G1: [u8; 64] = {:?};\n\n", alpha));
    expected.push_str(&format!("pub const BETA_G2: [u8; 128] = {:?};\n\n", [1u8; 128]));
    expected.push_str(&format!("pub const GAMMA_G2: [u8; 128] = {:?};\n\n", [2u8; 128]));
    expected.push_str(&format!("pub const DELTA_G2: [u8; 128] = {:?};\n\n", [3u8; 128]));
    expected.push_str("pub const IC: [[u8; 64]; 2] = [\n");
    expected.push_str(&format!("    {:?},\n", [4u8; 64]));
    expected.push_str(&format!("    {:?},\n", [5u8; 64]));
    expected.push_str("];\n");
    assert_eq!(vk.to_rust_code(), expected);
}

#[test]
fn merkle_path_wire_layout() {
    let mut tree = PoseidonMerkleTree::new();
    for i in 0..6u64 {
        tree.insert(Fe::from_u64(i + 1)).unwrap();
    }
    let path = tree.generate_proof(5).unwrap();
    let bytes = path.to_bytes();
    assert_eq!(bytes.len(), 8 + 20 * 32 + 4);
    assert_eq!(&bytes[0..8], &5u64.to_le_bytes());
    assert_eq!(&bytes[8..40], &path.siblings[0].to_bytes_le());
    assert_eq!(&bytes[648..652], &0b101u32.to_le_bytes());
}
