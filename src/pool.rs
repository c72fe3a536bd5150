//! The shielded pool's state machine: deposits append commitments, spends
//! create write-once nullifier markers, and the vault moves value.
//!
//! Checking a spend proof (a pairing check, or a signature in the legacy mode)
//! is done by the host; its outcome enters each transition as an argument.

use vstd::prelude::*;

use crate::field::Fe;
use crate::merkle::{tree_root, zero_hash, IncrementalMerkleTree, MAX_LEAVES, TREE_DEPTH};
use crate::proof_format::{MVP_PROOF_SIZE, PROOF_SIZE};

verus! {

/// Number of recent roots kept.
pub const ROOT_HISTORY_SIZE: usize = 30;

/// Default relayer fee in basis points.
pub const DEFAULT_RELAYER_FEE_BPS: u16 = 30;

/// Largest relayer fee in basis points.
pub const MAX_RELAYER_FEE_BPS: u16 = 500;

/// Smallest withdrawal, in lamports.
pub const MIN_WITHDRAWAL_AMOUNT: u64 = 10_000;

/// Errors of the pool's instructions, each with its own numeric code.
#[derive(Debug, Clone, Copy, PartialEq, Eq)]
pub enum PoolError {
    InvalidAmount,
    InvalidProof,
    NullifierSpent,
    InvalidCommitment,
    PoolFull,
    ProofVerificationFailed,
    InvalidRoot,
    InsufficientFunds,
}

impl PoolError {
    /// The numeric code reported to the host runtime.
    pub fn code(&self) -> (r: u32)
        ensures
            r == error_code(*self),
    {
        match self {
            PoolError::InvalidAmount => 6000,
            PoolError::InvalidProof => 6001,
            PoolError::NullifierSpent => 6002,
            PoolError::InvalidCommitment => 6003,
            PoolError::PoolFull => 6004,
            PoolError::ProofVerificationFailed => 6005,
            PoolError::InvalidRoot => 6006,
            PoolError::InsufficientFunds => 6007,
        }
    }
}

pub open spec fn error_code(e: PoolError) -> u32 {
    match e {
        PoolError::InvalidAmount => 6000,
        PoolError::InvalidProof => 6001,
        PoolError::NullifierSpent => 6002,
        PoolError::InvalidCommitment => 6003,
        PoolError::PoolFull => 6004,
        PoolError::ProofVerificationFailed => 6005,
        PoolError::InvalidRoot => 6006,
        PoolError::InsufficientFunds => 6007,
    }
}

/// Distinct errors have distinct codes.
pub proof fn lemma_error_codes_distinct(a: PoolError, b: PoolError)
    requires
        a != b,
    ensures
        error_code(a) != error_code(b),
{
}

/// Pool account: tree, recent roots and counters.
pub struct PrivacyPool {
    authority: [u8; 32],
    merkle_tree: IncrementalMerkleTree,
    root_history: Vec<Fe>,
    root_history_index: u8,
    nullifier_count: u64,
    relayer_fee_bps: u16,
    total_fees_collected: u64,
    bump: u8,
}

/// Whether `root` is accepted for spending: the current root, or a nonzero
/// root of the history.
pub open spec fn root_accepted(current: nat, history: Seq<nat>, root: nat) -> bool {
    root == current || exists|k: int| 0 <= k < history.len() && #[trigger] history[k] == root && history[k]
        != 0
}

impl PrivacyPool {
    pub closed spec fn wf(&self) -> bool {
        &&& self.merkle_tree.wf()
        &&& self.root_history@.len() == ROOT_HISTORY_SIZE
        &&& self.root_history_index < ROOT_HISTORY_SIZE
        &&& self.relayer_fee_bps <= 10000
    }

    /// The commitments appended so far.
    pub closed spec fn commitments(&self) -> Seq<nat> {
        self.merkle_tree@
    }

    /// The values held in the root history buffer.
    pub closed spec fn history(&self) -> Seq<nat> {
        self.root_history@.map_values(|x: Fe| x.val())
    }

    pub closed spec fn history_index(&self) -> nat {
        self.root_history_index as nat
    }

    pub closed spec fn spent_count(&self) -> u64 {
        self.nullifier_count
    }

    pub closed spec fn fee_bps(&self) -> u16 {
        self.relayer_fee_bps
    }

    pub closed spec fn fees_collected(&self) -> u64 {
        self.total_fees_collected
    }

    pub closed spec fn owner(&self) -> [u8; 32] {
        self.authority
    }

    pub closed spec fn pda_bump(&self) -> u8 {
        self.bump
    }

    /// The pool's authority.
    pub fn authority(&self) -> (r: [u8; 32])
        ensures
            r == self.owner(),
    {
        self.authority
    }

    /// The bump of the pool's program-derived address.
    pub fn bump(&self) -> (r: u8)
        ensures
            r == self.pda_bump(),
    {
        self.bump
    }

    /// A fresh pool: empty tree, zeroed history and counters, default fee.
    pub fn initialize(authority: [u8; 32], bump: u8) -> (r: PrivacyPool)
        ensures
            r.wf(),
            r.commitments() == Seq::<nat>::empty(),
            r.history() == Seq::new(ROOT_HISTORY_SIZE as nat, |k: int| 0nat),
            r.history_index() == 0,
            r.spent_count() == 0,
            r.fee_bps() == DEFAULT_RELAYER_FEE_BPS,
            r.fees_collected() == 0,
            r.owner() == authority,
            r.pda_bump() == bump,
    {
        let mut history: Vec<Fe> = Vec::new();
        let mut k: usize = 0;
        while k < ROOT_HISTORY_SIZE
            invariant
                k <= ROOT_HISTORY_SIZE,
                history@.len() == k,
                forall|a: int| 0 <= a < k ==> #[trigger] history@[a].val() == 0,
            decreases ROOT_HISTORY_SIZE - k,
        {
            history.push(Fe::zero());
            k = k + 1;
        }
        let r = PrivacyPool {
            authority,
            merkle_tree: IncrementalMerkleTree::new(),
            root_history: history,
            root_history_index: 0,
            nullifier_count: 0,
            relayer_fee_bps: DEFAULT_RELAYER_FEE_BPS,
            total_fees_collected: 0,
            bump,
        };
        assert(r.history() =~= Seq::new(ROOT_HISTORY_SIZE as nat, |k: int| 0nat));
        r
    }

    /// The relayer's share of `amount` at the pool's fee rate.
    pub fn calculate_relayer_fee(&self, amount: u64) -> (r: u64)
        requires
            self.wf(),
        ensures
            r == (amount as int * self.fee_bps() as int) / 10000,
    {
        assert((amount as u128) * (self.relayer_fee_bps as u128) <= (amount as u128) * 10000) by (nonlinear_arith)
            requires self.relayer_fee_bps <= 10000;
        assert((amount as u128) * 10000 < 0x1_0000_0000_0000_0000_0000_0000u128) by (nonlinear_arith)
            requires amount < 0x1_0000_0000_0000_0000u128;
        let f = (amount as u128) * (self.relayer_fee_bps as u128) / 10000;
        assert(f <= amount as u128) by (nonlinear_arith)
            requires f == (amount as u128) * (self.relayer_fee_bps as u128) / 10000, self.relayer_fee_bps <= 10000;
        f as u64
    }

    /// Adds a collected fee to the running total, saturating at `u64::MAX`.
    pub fn record_fee_collected(&mut self, fee: u64)
        requires
            old(self).wf(),
        ensures
            final(self).wf(),
            final(self).fees_collected() == if old(self).fees_collected() as int + fee > u64::MAX {
                u64::MAX
            } else {
                (old(self).fees_collected() + fee) as u64
            },
            final(self).commitments() == old(self).commitments(),
            final(self).history() == old(self).history(),
            final(self).history_index() == old(self).history_index(),
            final(self).spent_count() == old(self).spent_count(),
            final(self).fee_bps() == old(self).fee_bps(),
            final(self).owner() == old(self).owner(),
            final(self).pda_bump() == old(self).pda_bump(),
    {
        self.total_fees_collected = self.total_fees_collected.saturating_add(fee);
    }

    /// Appends a commitment; the root it replaces enters the history.
    pub fn add_commitment(&mut self, commitment: Fe) -> (r: Result<u64, PoolError>)
        requires
            old(self).wf(),
        ensures
            final(self).wf(),
            old(self).commitments().len() >= MAX_LEAVES ==> (r == Err::<u64, PoolError>(PoolError::PoolFull)
                && *final(self) == *old(self)),
            old(self).commitments().len() < MAX_LEAVES ==> (r == Ok::<u64, PoolError>(old(self).commitments().len() as u64)
                && final(self).commitments() == old(self).commitments().push(commitment.val())
                && final(self).history() == old(self).history().update(
                    old(self).history_index() as int,
                    tree_root(old(self).commitments()),
                )
                && final(self).history_index() == (old(self).history_index() + 1) % (ROOT_HISTORY_SIZE as nat)),
            final(self).spent_count() == old(self).spent_count(),
            final(self).fee_bps() == old(self).fee_bps(),
            final(self).owner() == old(self).owner(),
            final(self).pda_bump() == old(self).pda_bump(),
            final(self).fees_collected() == old(self).fees_collected(),
    {
        let old_root = self.merkle_tree.root();
        match self.merkle_tree.insert(commitment) {
            Ok(leaf_index) => {
                let i = self.root_history_index as usize;
                self.root_history.set(i, old_root);
                self.root_history_index = ((i + 1) % ROOT_HISTORY_SIZE) as u8;
                assert(self.history() =~= old(self).history().update(i as int, tree_root(old(self).commitments())));
                Ok(leaf_index)
            },
            Err(_) => Err(PoolError::PoolFull),
        }
    }

    /// The current root.
    pub fn current_root(&self) -> (r: Fe)
        requires
            self.wf(),
        ensures
            r.val() == tree_root(self.commitments()),
    {
        self.merkle_tree.root()
    }

    /// Number of commitments appended.
    pub fn commitment_count(&self) -> (r: u64)
        requires
            self.wf(),
        ensures
            r == self.commitments().len(),
    {
        self.merkle_tree.len()
    }

    /// Number of spent nullifiers.
    pub fn nullifier_count(&self) -> (r: u64)
        ensures
            r == self.spent_count(),
    {
        self.nullifier_count
    }

    /// Whether `root` is the current root or a nonzero root of the history.
    pub fn is_valid_root(&self, root: &Fe) -> (r: bool)
        requires
            self.wf(),
        ensures
            r == root_accepted(tree_root(self.commitments()), self.history(), root.val()),
    {
        if root.equals(&self.merkle_tree.root()) {
            return true;
        }
        let zero = Fe::zero();
        let mut k: usize = 0;
        while k < ROOT_HISTORY_SIZE
            invariant
                self.wf(),
                k <= ROOT_HISTORY_SIZE,
                root.val() != tree_root(self.commitments()),
                zero.val() == 0,
                forall|a: int| 0 <= a < k ==> !(#[trigger] self.history()[a] == root.val() && self.history()[a] != 0),
            decreases ROOT_HISTORY_SIZE - k,
        {
            let h = &self.root_history[k];
            if h.equals(root) && !h.equals(&zero) {
                assert(self.history()[k as int] == root.val());
                return true;
            }
            k = k + 1;
        }
        false
    }

    /// Total relayer fees collected.
    pub fn total_fees_collected(&self) -> (r: u64)
        ensures
            r == self.fees_collected(),
    {
        self.total_fees_collected
    }

    /// Counts one more spent nullifier.
    pub fn record_nullifier_spent(&mut self)
        requires
            old(self).wf(),
            old(self).spent_count() < u64::MAX,
        ensures
            final(self).wf(),
            final(self).spent_count() == old(self).spent_count() + 1,
            final(self).commitments() == old(self).commitments(),
            final(self).history() == old(self).history(),
            final(self).history_index() == old(self).history_index(),
            final(self).fee_bps() == old(self).fee_bps(),
            final(self).owner() == old(self).owner(),
            final(self).pda_bump() == old(self).pda_bump(),
            final(self).fees_collected() == old(self).fees_collected(),
    {
        self.nullifier_count = self.nullifier_count + 1;
    }
}

/// A spent nullifier: its existence is the fact that the note is spent.
#[derive(Clone, Copy, Debug)]
pub struct NullifierMarker {
    pub pool: [u8; 32],
    pub nullifier: Fe,
    pub spent_at: u64,
}

/// The pool, its nullifier markers and its vault, as one state machine.
pub struct ShieldedPool {
    pool_id: [u8; 32],
    pool: PrivacyPool,
    markers: Vec<NullifierMarker>,
    vault_balance: u64,
    shielded_total: Ghost<nat>,
    unshielded_total: Ghost<nat>,
}

/// Whether a nullifier value has a marker.
pub open spec fn is_spent(spent: Seq<nat>, nf: nat) -> bool {
    exists|k: int| 0 <= k < spent.len() && spent[k] == nf
}

impl ShieldedPool {
    pub closed spec fn wf(&self) -> bool {
        &&& self.pool.wf()
        &&& self.pool.nullifier_count == self.markers@.len()
        &&& self.vault_balance == self.shielded_total@ - self.unshielded_total@
        &&& forall|a: int, b: int|
            0 <= a < b < self.markers@.len() ==> #[trigger] self.markers@[a].nullifier.val()
                != #[trigger] self.markers@[b].nullifier.val()
    }

    /// The commitments in the tree.
    pub closed spec fn commitments(&self) -> Seq<nat> {
        self.pool.commitments()
    }

    /// The nullifier markers, in order of creation.
    pub closed spec fn markers(&self) -> Seq<NullifierMarker> {
        self.markers@
    }

    /// The address of the pool account, recorded in each marker.
    pub closed spec fn id(&self) -> [u8; 32] {
        self.pool_id
    }

    /// The spent nullifiers, in order of spending.
    pub open spec fn spent(&self) -> Seq<nat> {
        self.markers().map_values(|m: NullifierMarker| m.nullifier.val())
    }

    /// The root history.
    pub closed spec fn history(&self) -> Seq<nat> {
        self.pool.history()
    }

    pub closed spec fn vault(&self) -> u64 {
        self.vault_balance
    }

    /// Sum of all amounts shielded so far.
    pub closed spec fn shielded(&self) -> nat {
        self.shielded_total@
    }

    /// Sum of all amounts unshielded so far.
    pub closed spec fn unshielded(&self) -> nat {
        self.unshielded_total@
    }

    /// The vault holds what was shielded minus what was unshielded.
    pub proof fn lemma_vault_balance(&self)
        requires
            self.wf(),
        ensures
            self.vault() == self.shielded() - self.unshielded(),
    {
    }

    pub closed spec fn spent_count(&self) -> u64 {
        self.pool.spent_count()
    }

    /// The pool account's state.
    pub closed spec fn pool_state(&self) -> PrivacyPool {
        self.pool
    }

    /// Whether `root` is accepted for a spend in this state.
    pub open spec fn accepts_root(&self, root: nat) -> bool {
        root_accepted(tree_root(self.commitments()), self.history(), root)
    }

    /// A fresh pool at address `pool_id` with an empty vault.
    pub fn initialize(pool_id: [u8; 32], authority: [u8; 32], bump: u8) -> (r: ShieldedPool)
        ensures
            r.wf(),
            r.id() == pool_id,
            r.markers() == Seq::<NullifierMarker>::empty(),
            r.pool_state().owner() == authority,
            r.pool_state().pda_bump() == bump,
            r.commitments() == Seq::<nat>::empty(),
            r.spent() == Seq::<nat>::empty(),
            r.vault() == 0,
            r.shielded() == 0,
            r.unshielded() == 0,
            r.spent_count() == 0,
            tree_root(r.commitments()) == zero_hash(TREE_DEPTH as nat),
    {
        let r = ShieldedPool {
            pool_id,
            pool: PrivacyPool::initialize(authority, bump),
            markers: Vec::new(),
            vault_balance: 0,
            shielded_total: Ghost(0),
            unshielded_total: Ghost(0),
        };
        proof {
            assert(r.spent() =~= Seq::<nat>::empty());
            crate::merkle::lemma_empty_root();
        }
        r
    }

    /// The pool account.
    pub fn pool(&self) -> (r: &PrivacyPool)
        requires
            self.wf(),
        ensures
            r.wf(),
            *r == self.pool_state(),
            r.commitments() == self.commitments(),
            r.spent_count() == self.spent_count(),
            r.history() == self.history(),
    {
        &self.pool
    }

    /// The nullifier markers, in order of creation.
    pub fn nullifier_markers(&self) -> (r: &[NullifierMarker])
        ensures
            r@ == self.markers(),
    {
        self.markers.as_slice()
    }

    /// Value held by the vault.
    pub fn vault_balance(&self) -> (r: u64)
        ensures
            r == self.vault(),
    {
        self.vault_balance
    }

    /// Whether `nullifier` has a marker.
    pub fn is_nullifier_spent(&self, nullifier: &Fe) -> (r: bool)
        requires
            self.wf(),
        ensures
            r == is_spent(self.spent(), nullifier.val()),
    {
        let mut k: usize = 0;
        while k < self.markers.len()
            invariant
                k <= self.markers@.len(),
                forall|a: int| 0 <= a < k ==> #[trigger] self.markers@[a].nullifier.val() != nullifier.val(),
            decreases self.markers@.len() - k,
        {
            if self.markers[k].nullifier.equals(nullifier) {
                assert(self.spent()[k as int] == nullifier.val());
                return true;
            }
            k = k + 1;
        }
        proof {
            assert forall|a: int| 0 <= a < self.spent().len() implies self.spent()[a] != nullifier.val() by {
                assert(self.markers@[a].nullifier.val() != nullifier.val());
            }
        }
        false
    }

    /// Deposits `amount` under `commitment`: fails with `InvalidAmount` on a zero
    /// amount or a vault that would overflow, and with `PoolFull` on a full tree.
    pub fn shield(&mut self, commitment: Fe, amount: u64) -> (r: Result<u64, PoolError>)
        requires
            old(self).wf(),
        ensures
            final(self).wf(),
            final(self).id() == old(self).id(),
            amount == 0 ==> r == Err::<u64, PoolError>(PoolError::InvalidAmount),
            amount > 0 && old(self).commitments().len() >= MAX_LEAVES ==> r == Err::<u64, PoolError>(PoolError::PoolFull),
            amount > 0 && old(self).commitments().len() < MAX_LEAVES && old(self).vault() + amount > u64::MAX ==> r
                == Err::<u64, PoolError>(PoolError::InvalidAmount),
            r is Err ==> *final(self) == *old(self),
            r is Ok <==> (amount > 0 && old(self).commitments().len() < MAX_LEAVES && old(self).vault() + amount <= u64::MAX),
            r is Ok ==> r == Ok::<u64, PoolError>(old(self).commitments().len() as u64)
                && final(self).commitments() == old(self).commitments().push(commitment.val())
                && final(self).history() == old(self).history().update(
                    old(self).pool_state().history_index() as int,
                    tree_root(old(self).commitments()),
                )
                && final(self).pool_state().history_index() == (old(self).pool_state().history_index() + 1) % (
                ROOT_HISTORY_SIZE as nat)
                && final(self).vault() == old(self).vault() + amount
                && final(self).markers() == old(self).markers()
                && final(self).shielded() == old(self).shielded() + amount
                && final(self).unshielded() == old(self).unshielded()
                && final(self).spent() == old(self).spent()
                && final(self).spent_count() == old(self).spent_count()
                && (tree_root(old(self).commitments()) != 0 ==> final(self).accepts_root(tree_root(old(self).commitments()))),
    {
        if amount == 0 {
            return Err(PoolError::InvalidAmount);
        }
        if self.pool.commitment_count() >= MAX_LEAVES {
            return Err(PoolError::PoolFull);
        }
        if self.vault_balance > u64::MAX - amount {
            return Err(PoolError::InvalidAmount);
        }
        let ghost old_hist_index = self.pool.history_index();
        let r = self.pool.add_commitment(commitment);
        self.vault_balance = self.vault_balance + amount;
        self.shielded_total = Ghost((self.shielded_total@ + amount) as nat);
        proof {
            let k = old_hist_index as int;
            let old_root = tree_root(old(self).commitments());
            if old_root != 0 {
                assert(self.history()[k] == old_root);
                assert(root_accepted(tree_root(self.commitments()), self.history(), old_root));
            }
        }
        r
    }

    /// A private transfer: spends `nullifier` against `root` and appends
    /// `new_commitment`. `proof` must be 96 or 256 bytes long; `proof_accepted` is
    /// the host's verdict on it for `(root, nullifier, new_commitment)`.
    pub fn transfer(
        &mut self,
        nullifier: Fe,
        new_commitment: Fe,
        root: &Fe,
        proof: &[u8],
        proof_accepted: bool,
        slot: u64,
    ) -> (r: Result<u64, PoolError>)
        requires
            old(self).wf(),
        ensures
            final(self).wf(),
            final(self).id() == old(self).id(),
            r is Ok <==> (
                (proof@.len() == MVP_PROOF_SIZE || proof@.len() == PROOF_SIZE)
                && !is_spent(old(self).spent(), nullifier.val())
                && old(self).accepts_root(root.val())
                && proof_accepted
                && old(self).commitments().len() < MAX_LEAVES
                && old(self).spent_count() < u64::MAX),
            !(proof@.len() == MVP_PROOF_SIZE || proof@.len() == PROOF_SIZE) ==> r == Err::<u64, PoolError>(PoolError::InvalidProof),
            (proof@.len() == MVP_PROOF_SIZE || proof@.len() == PROOF_SIZE) && is_spent(old(self).spent(), nullifier.val())
                ==> r == Err::<u64, PoolError>(PoolError::NullifierSpent),
            (proof@.len() == MVP_PROOF_SIZE || proof@.len() == PROOF_SIZE) && !is_spent(old(self).spent(), nullifier.val())
                && !old(self).accepts_root(root.val()) ==> r == Err::<u64, PoolError>(PoolError::InvalidRoot),
            (proof@.len() == MVP_PROOF_SIZE || proof@.len() == PROOF_SIZE) && !is_spent(old(self).spent(), nullifier.val())
                && old(self).accepts_root(root.val()) && !proof_accepted ==> r == Err::<u64, PoolError>(PoolError::ProofVerificationFailed),
            r is Err ==> *final(self) == *old(self),
            r is Ok ==> r == Ok::<u64, PoolError>(old(self).commitments().len() as u64)
                && final(self).markers() == old(self).markers().push(
                    (NullifierMarker { pool: old(self).id(), nullifier, spent_at: slot }),
                )
                && final(self).spent() == old(self).spent().push(nullifier.val())
                && final(self).spent_count() == old(self).spent_count() + 1
                && final(self).commitments() == old(self).commitments().push(new_commitment.val())
                && final(self).history() == old(self).history().update(
                    old(self).pool_state().history_index() as int,
                    tree_root(old(self).commitments()),
                )
                && final(self).pool_state().history_index() == (old(self).pool_state().history_index() + 1) % (
                ROOT_HISTORY_SIZE as nat)
                && final(self).vault() == old(self).vault()
                && final(self).shielded() == old(self).shielded() && final(self).unshielded() == old(self).unshielded(),
    {
        let ok_size = proof_size_ok(proof);
        if !ok_size {
            return Err(PoolError::InvalidProof);
        }
        if self.is_nullifier_spent(&nullifier) {
            return Err(PoolError::NullifierSpent);
        }
        if !self.pool.is_valid_root(root) {
            return Err(PoolError::InvalidRoot);
        }
        if !proof_accepted {
            return Err(PoolError::ProofVerificationFailed);
        }
        if self.pool.commitment_count() >= MAX_LEAVES || self.pool.nullifier_count >= u64::MAX {
            return Err(PoolError::PoolFull);
        }
        let marker = NullifierMarker { pool: self.pool_id, nullifier, spent_at: slot };
        self.markers.push(marker);
        self.pool.record_nullifier_spent();
        let r = self.pool.add_commitment(new_commitment);
        proof {
            assert(self.spent() =~= old(self).spent().push(nullifier.val()));
            assert forall|a: int, b: int| 0 <= a < b < self.markers@.len() implies #[trigger] self.markers@[a].nullifier.val()
                != #[trigger] self.markers@[b].nullifier.val() by {
                if b == self.markers@.len() - 1 {
                    assert(old(self).spent()[a] == self.markers@[a].nullifier.val());
                }
            }
        }
        r
    }

    /// Withdraws `amount` from the vault by spending `nullifier` against `root`.
    /// `proof` must be 96 or 256 bytes long; `proof_accepted` is the host's verdict.
    pub fn unshield(
        &mut self,
        nullifier: Fe,
        amount: u64,
        root: &Fe,
        proof: &[u8],
        proof_accepted: bool,
        slot: u64,
    ) -> (r: Result<(), PoolError>)
        requires
            old(self).wf(),
        ensures
            final(self).wf(),
            final(self).id() == old(self).id(),
            r is Ok <==> (amount > 0
                && (proof@.len() == MVP_PROOF_SIZE || proof@.len() == PROOF_SIZE)
                && !is_spent(old(self).spent(), nullifier.val())
                && old(self).accepts_root(root.val())
                && proof_accepted
                && old(self).spent_count() < u64::MAX
                && old(self).vault() >= amount),
            amount == 0 ==> r == Err::<(), PoolError>(PoolError::InvalidAmount),
            amount > 0 && !(proof@.len() == MVP_PROOF_SIZE || proof@.len() == PROOF_SIZE) ==> r == Err::<(), PoolError>(PoolError::InvalidProof),
            amount > 0 && (proof@.len() == MVP_PROOF_SIZE || proof@.len() == PROOF_SIZE) && is_spent(old(self).spent(), nullifier.val())
                ==> r == Err::<(), PoolError>(PoolError::NullifierSpent),
            amount > 0 && (proof@.len() == MVP_PROOF_SIZE || proof@.len() == PROOF_SIZE) && !is_spent(old(self).spent(), nullifier.val())
                && !old(self).accepts_root(root.val()) ==> r == Err::<(), PoolError>(PoolError::InvalidRoot),
            amount > 0 && (proof@.len() == MVP_PROOF_SIZE || proof@.len() == PROOF_SIZE) && !is_spent(old(self).spent(), nullifier.val())
                && old(self).accepts_root(root.val()) && !proof_accepted ==> r == Err::<(), PoolError>(PoolError::ProofVerificationFailed),
            amount > 0 && (proof@.len() == MVP_PROOF_SIZE || proof@.len() == PROOF_SIZE) && !is_spent(old(self).spent(), nullifier.val())
                && old(self).accepts_root(root.val()) && proof_accepted && old(self).spent_count() < u64::MAX
                && old(self).vault() < amount ==> r == Err::<(), PoolError>(PoolError::InsufficientFunds),
            r is Err ==> *final(self) == *old(self),
            r is Ok ==> final(self).markers() == old(self).markers().push(
                    (NullifierMarker { pool: old(self).id(), nullifier, spent_at: slot }),
                )
                && final(self).spent() == old(self).spent().push(nullifier.val())
                && final(self).spent_count() == old(self).spent_count() + 1
                && final(self).commitments() == old(self).commitments()
                && final(self).history() == old(self).history()
                && final(self).pool_state().history_index() == old(self).pool_state().history_index()
                && final(self).vault() == old(self).vault() - amount
                && final(self).unshielded() == old(self).unshielded() + amount
                && final(self).shielded() == old(self).shielded(),
    {
        if amount == 0 {
            return Err(PoolError::InvalidAmount);
        }
        if !proof_size_ok(proof) {
            return Err(PoolError::InvalidProof);
        }
        if self.is_nullifier_spent(&nullifier) {
            return Err(PoolError::NullifierSpent);
        }
        if !self.pool.is_valid_root(root) {
            return Err(PoolError::InvalidRoot);
        }
        if !proof_accepted {
            return Err(PoolError::ProofVerificationFailed);
        }
        if self.pool.nullifier_count >= u64::MAX {
            return Err(PoolError::PoolFull);
        }
        if self.vault_balance < amount {
            return Err(PoolError::InsufficientFunds);
        }
        let marker = NullifierMarker { pool: self.pool_id, nullifier, spent_at: slot };
        self.markers.push(marker);
        self.pool.record_nullifier_spent();
        self.vault_balance = self.vault_balance - amount;
        self.unshielded_total = Ghost((self.unshielded_total@ + amount) as nat);
        proof {
            assert(self.spent() =~= old(self).spent().push(nullifier.val()));
            assert forall|a: int, b: int| 0 <= a < b < self.markers@.len() implies #[trigger] self.markers@[a].nullifier.val()
                != #[trigger] self.markers@[b].nullifier.val() by {
                if b == self.markers@.len() - 1 {
                    assert(old(self).spent()[a] == self.markers@[a].nullifier.val());
                }
            }
        }
        Ok(())
    }
}

/// Whether a spend proof has one of the two accepted lengths (signature mode
/// or Groth16); the kind of proof is told by its length alone.
pub fn proof_size_ok(proof: &[u8]) -> (r: bool)
    ensures
        r == (proof@.len() == MVP_PROOF_SIZE || proof@.len() == PROOF_SIZE),
{
    proof.len() == MVP_PROOF_SIZE || proof.len() == PROOF_SIZE
}

} // verus!
