//! Error hierarchy of the library and input validation helpers.

use vstd::prelude::*;
use vstd::string::StringExecFns;

verus! {

/// Errors from cryptographic operations.
#[derive(Debug)]
pub enum CryptoError {
    InvalidSecretKey,
    InvalidPublicKey,
    InvalidCommitment,
    InvalidNullifier,
    InvalidMerkleProof,
    MerkleTreeFull,
    PoseidonError(String),
    EncryptionError(String),
    DecryptionFailed,
}

/// Errors from proof operations.
#[derive(Debug)]
pub enum ProofError {
    InvalidWitness,
    ConstraintNotSatisfied(String),
    GenerationFailed(String),
    VerificationFailed,
    InvalidProvingKey,
    InvalidVerifyingKey,
    SetupFailed(String),
    SerializationError(String),
}

/// Errors from relayer operations.
#[derive(Debug)]
pub enum RelayerError {
    NoRelayersAvailable,
    FeeTooHigh(u16),
    NetworkError(String),
    TransactionRejected(String),
    Timeout,
    InvalidResponse(String),
}

/// Top-level error type.
#[derive(Debug)]
pub enum VeilError {
    Crypto(CryptoError),
    Proof(ProofError),
    Relayer(RelayerError),
    Serialization(String),
    InvalidInput(String),
    Configuration(String),
}

/// Largest amount accepted by [`validate_amount`].
pub const MAX_AMOUNT: u64 = 100_000_000_000_000;

/// Size of a signature-mode proof.
pub const MVP_PROOF_SIZE: usize = 96;

/// Size of a Groth16 proof.
pub const GROTH16_PROOF_SIZE: usize = 256;

pub open spec fn is_invalid_input<T>(r: Result<T, VeilError>) -> bool {
    r matches Err(VeilError::InvalidInput(_))
}

/// A secret is usable when it has at least 32 bytes, not all of them zero.
pub open spec fn secret_ok(s: Seq<u8>) -> bool {
    s.len() >= 32 && exists|i: int| 0 <= i < s.len() && s[i] != 0
}

/// Accepts a secret of at least 32 bytes that is not all zeros.
pub fn validate_secret(secret: &[u8]) -> (r: Result<(), VeilError>)
    ensures
        r.is_ok() <==> secret_ok(secret@),
        !r.is_ok() ==> is_invalid_input(r),
{
    if secret.len() < 32 {
        return Err(VeilError::InvalidInput("Secret must be at least 32 bytes".to_string()));
    }
    let mut i: usize = 0;
    while i < secret.len()
        invariant
            0 <= i <= secret@.len(),
            secret@.len() >= 32,
            forall|j: int| 0 <= j < i ==> secret@[j] == 0,
        decreases secret@.len() - i,
    {
        if secret[i] != 0 {
            assert(secret@[i as int] != 0);
            return Ok(());
        }
        i = i + 1;
    }
    Err(VeilError::InvalidInput("Secret cannot be all zeros".to_string()))
}

/// Accepts an amount in `1..=MAX_AMOUNT`.
pub fn validate_amount(amount: u64) -> (r: Result<(), VeilError>)
    ensures
        r.is_ok() <==> (0 < amount && amount <= MAX_AMOUNT),
        !r.is_ok() ==> is_invalid_input(r),
{
    if amount == 0 {
        return Err(VeilError::InvalidInput("Amount must be greater than zero".to_string()));
    }
    if amount > MAX_AMOUNT {
        return Err(VeilError::InvalidInput("Amount exceeds maximum".to_string()));
    }
    Ok(())
}

/// Accepts a hash, commitment or nullifier of exactly 32 bytes; `name` labels the value.
pub fn validate_hash32(hash: &[u8], name: &str) -> (r: Result<(), VeilError>)
    ensures
        r.is_ok() <==> hash@.len() == 32,
        !r.is_ok() ==> is_invalid_input(r),
{
    if hash.len() != 32 {
        let mut msg = name.to_owned();
        msg.append(" must be exactly 32 bytes");
        return Err(VeilError::InvalidInput(msg));
    }
    Ok(())
}

/// Accepts a Merkle proof whose siblings and indices both have `expected_depth` entries.
pub fn validate_merkle_proof(
    siblings: &[[u8; 32]],
    indices: &[bool],
    expected_depth: usize,
) -> (r: Result<(), VeilError>)
    ensures
        r.is_ok() <==> (siblings@.len() == expected_depth && indices@.len() == expected_depth),
        !r.is_ok() ==> is_invalid_input(r),
{
    if siblings.len() != expected_depth {
        return Err(VeilError::InvalidInput("Merkle proof has wrong depth".to_string()));
    }
    if indices.len() != expected_depth {
        return Err(VeilError::InvalidInput("Merkle indices has wrong length".to_string()));
    }
    Ok(())
}

/// Accepts a proof of 96 bytes (signature mode) or 256 bytes (Groth16).
pub fn validate_proof_size(proof: &[u8]) -> (r: Result<(), VeilError>)
    ensures
        r.is_ok() <==> (proof@.len() == MVP_PROOF_SIZE || proof@.len() == GROTH16_PROOF_SIZE),
        !r.is_ok() ==> is_invalid_input(r),
{
    if proof.len() != MVP_PROOF_SIZE && proof.len() != GROTH16_PROOF_SIZE {
        return Err(VeilError::InvalidInput("Invalid proof size".to_string()));
    }
    Ok(())
}

} // verus!
