use nyx_privacy_core::encryption::{
    decrypt_note, encrypt_note, open_payload, seal_payload, EncryptedNote, EncryptionError, EncryptionKeypair, NoteData,
};

#[test]
fn test_encryption_roundtrip() {
    let recipient = EncryptionKeypair::from_secret(&[17u8; 32]);
    let note = NoteData::new(1_000_000_000, [123u8; 32], 0);
    let encrypted = encrypt_note(&note, &recipient.public_key_bytes(), &[29u8; 32]).unwrap();
    let decrypted = decrypt_note(&encrypted, &recipient.private_key_bytes()).unwrap();
    assert_eq!(note.amount, decrypted.amount);
    assert_eq!(note.blinding, decrypted.blinding);
    assert_eq!(note.asset_id, decrypted.asset_id);
}

#[test]
fn test_wrong_key_fails() {
    let recipient = EncryptionKeypair::from_secret(&[3u8; 32]);
    let wrong_key = EncryptionKeypair::from_secret(&[4u8; 32]);
    let note = NoteData::new(1000, [1u8; 32], 0);
    let encrypted = encrypt_note(&note, &recipient.public_key_bytes(), &[5u8; 32]).unwrap();
    let result = decrypt_note(&encrypted, &wrong_key.private_key_bytes());
    assert!(result.is_err());
}

#[test]
fn test_encrypted_note_serialization() {
    let recipient = EncryptionKeypair::from_secret(&[8u8; 32]);
    let note = NoteData::new(500, [5u8; 32], 1);
    let encrypted = encrypt_note(&note, &recipient.public_key_bytes(), &[6u8; 32]).unwrap();
    let bytes = encrypted.to_bytes();
    let restored = EncryptedNote::from_bytes(&bytes).unwrap();
    assert_eq!(encrypted.ephemeral_key, restored.ephemeral_key);
    assert_eq!(encrypted.ciphertext, restored.ciphertext);
}

#[test]
fn invalid_public_key_is_rejected() {
    let note = NoteData::new(1, [0u8; 32], 0);
    assert!(matches!(encrypt_note(&note, &[0xffu8; 32], &[1u8; 32]), Err(EncryptionError::InvalidPublicKey)));
}

#[test]
fn sealed_payload_round_trip_and_tamper() {
    let key = [9u8; 32];
    let pt = [77u8; 48];
    let ct = seal_payload(&key, &pt);
    assert_ne!(&ct[..48], &pt[..]);
    assert_eq!(open_payload(&key, &ct).unwrap(), pt);
    let mut bad = ct;
    bad[50] ^= 1;
    assert!(matches!(open_payload(&key, &bad), Err(EncryptionError::DecryptionFailed)));
    assert!(open_payload(&[8u8; 32], &ct).is_err());
}
