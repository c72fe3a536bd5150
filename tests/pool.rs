use nyx_privacy_core::field::Fe;
use nyx_privacy_core::merkle::{get_zero_hash, TREE_DEPTH};
use nyx_privacy_core::pool::{PoolError, PrivacyPool, ShieldedPool};

fn f(v: u64) -> Fe {
    Fe::from_u64(v)
}

#[test]
fn initialized_pool_is_empty() {
    let pool = ShieldedPool::initialize([9u8; 32], [1u8; 32], 255);
    assert_eq!(pool.pool().commitment_count(), 0);
    assert_eq!(pool.pool().nullifier_count(), 0);
    assert_eq!(pool.vault_balance(), 0);
    assert_eq!(pool.pool().current_root(), get_zero_hash(TREE_DEPTH));
    assert_eq!(pool.pool().authority(), [1u8; 32]);
    assert_eq!(pool.pool().bump(), 255);
}

#[test]
fn double_spend_is_rejected() {
    let mut pool = ShieldedPool::initialize([9u8; 32], [1u8; 32], 254);
    assert_eq!(pool.shield(f(1234), 1_000_000_000), Ok(0));
    let root = pool.pool().current_root();
    let nf = f(777);
    let proof = vec![1u8; 256];
    assert_eq!(pool.transfer(nf, f(5678), &root, &proof, true, 10), Ok(1));
    let count = pool.pool().commitment_count();
    let spent = pool.pool().nullifier_count();
    let again = pool.transfer(nf, f(5678), &root, &proof, true, 11);
    assert_eq!(again, Err(PoolError::NullifierSpent));
    assert_eq!(again.unwrap_err().code(), 6002);
    assert_eq!(pool.pool().commitment_count(), count);
    assert_eq!(pool.pool().nullifier_count(), spent);
    assert!(pool.is_nullifier_spent(&nf));
    let markers = pool.nullifier_markers();
    assert_eq!(markers.len(), 1);
    assert_eq!(markers[0].pool, [9u8; 32]);
    assert_eq!(markers[0].nullifier, nf);
    assert_eq!(markers[0].spent_at, 10);
}

#[test]
fn shield_rejects_zero_amount() {
    let mut pool = ShieldedPool::initialize([9u8; 32], [0u8; 32], 1);
    assert_eq!(pool.shield(f(1), 0), Err(PoolError::InvalidAmount));
    assert_eq!(pool.pool().commitment_count(), 0);
}

#[test]
fn transfer_checks_proof_size_root_and_verdict() {
    let mut pool = ShieldedPool::initialize([9u8; 32], [0u8; 32], 1);
    pool.shield(f(1), 10).unwrap();
    let root = pool.pool().current_root();
    assert_eq!(pool.transfer(f(2), f(3), &root, &[0u8; 100], true, 1), Err(PoolError::InvalidProof));
    assert_eq!(pool.transfer(f(2), f(3), &f(999), &[0u8; 96], true, 1), Err(PoolError::InvalidRoot));
    assert_eq!(pool.transfer(f(2), f(3), &root, &[0u8; 96], false, 1), Err(PoolError::ProofVerificationFailed));
    assert_eq!(pool.pool().nullifier_count(), 0);
}

#[test]
fn earlier_root_stays_valid_after_appends() {
    let mut pool = ShieldedPool::initialize([9u8; 32], [0u8; 32], 1);
    pool.shield(f(1), 10).unwrap();
    let old_root = pool.pool().current_root();
    pool.shield(f(2), 10).unwrap();
    assert!(pool.pool().is_valid_root(&old_root));
    assert!(!pool.pool().is_valid_root(&f(0)));
    assert_eq!(pool.transfer(f(9), f(10), &old_root, &[0u8; 256], true, 3), Ok(2));
}

#[test]
fn unshield_moves_value_out_of_the_vault() {
    let mut pool = ShieldedPool::initialize([9u8; 32], [0u8; 32], 1);
    pool.shield(f(1), 1_000).unwrap();
    let root = pool.pool().current_root();
    assert_eq!(pool.unshield(f(4), 0, &root, &[0u8; 96], true, 1), Err(PoolError::InvalidAmount));
    assert_eq!(pool.unshield(f(4), 2_000, &root, &[0u8; 96], true, 1), Err(PoolError::InsufficientFunds));
    assert_eq!(PoolError::InsufficientFunds.code(), 6007);
    assert_eq!(pool.unshield(f(4), 400, &root, &[0u8; 96], true, 1), Ok(()));
    assert_eq!(pool.vault_balance(), 600);
    assert_eq!(pool.unshield(f(4), 100, &root, &[0u8; 96], true, 2), Err(PoolError::NullifierSpent));
    assert_eq!(pool.pool().nullifier_count(), 1);
}

#[test]
fn relayer_fee_at_default_rate() {
    let pool = ShieldedPool::initialize([9u8; 32], [0u8; 32], 1);
    assert_eq!(pool.pool().calculate_relayer_fee(1_000_000_000), 3_000_000);
}

#[test]
fn fee_total_saturates() {
    let mut pool = PrivacyPool::initialize([0u8; 32], 1);
    pool.record_fee_collected(5);
    assert_eq!(pool.total_fees_collected(), 5);
    pool.record_fee_collected(u64::MAX);
    assert_eq!(pool.total_fees_collected(), u64::MAX);
}

#[test]
fn add_commitment_records_previous_root() {
    let mut pool = PrivacyPool::initialize([0u8; 32], 1);
    let empty_root = pool.current_root();
    assert_eq!(pool.add_commitment(f(8)), Ok(0));
    assert!(pool.is_valid_root(&empty_root));
    assert!(pool.is_valid_root(&pool.current_root()));
    assert_eq!(pool.commitment_count(), 1);
}
