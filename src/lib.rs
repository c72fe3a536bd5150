//! Cryptographic core of a shielded-pool privacy protocol: Poseidon hashing
//! over the BN254 scalar field, an incremental Merkle tree, note primitives,
//! proof wire formats, relayer policy and the pool's state machine.

pub mod error;
pub mod wire;
pub mod field;
pub mod poseidon_constants;
pub mod poseidon;
pub mod merkle;
pub mod note;
pub mod encryption;
pub mod relayer;
pub mod proof_format;
pub mod pool;
pub mod spend;
