//! Incremental Poseidon Merkle tree of depth 20 with proof generation.

use vstd::arithmetic::div_mod::{lemma_div_denominator, lemma_fundamental_div_mod};
use vstd::bytes::{spec_u32_to_le_bytes, spec_u64_to_le_bytes, u32_to_le_bytes, u64_to_le_bytes};
use vstd::prelude::*;

use crate::field::{le_nat, Fe};
use crate::poseidon::{poseidon2, vals, Poseidon};

verus! {

/// Depth of the tree.
pub const TREE_DEPTH: usize = 20;

/// Capacity of the tree, `2^20` leaves.
pub const MAX_LEAVES: u64 = 1048576;

/// Errors of the Merkle tree.
#[derive(Debug)]
pub enum MerkleError {
    TreeFull,
    InvalidLeafIndex(u64),
    InvalidProofLength,
}

/// `2^k`.
pub open spec fn pow2(k: nat) -> nat
    decreases k,
{
    if k == 0 {
        1
    } else {
        2 * pow2((k - 1) as nat)
    }
}

/// Leaf `j` of the tree over `leaves`: the leaf itself, or zero past the end.
pub open spec fn leaf_at(leaves: Seq<nat>, j: nat) -> nat {
    if j < leaves.len() {
        leaves[j as int]
    } else {
        0
    }
}

/// Node `j` of level `k` (level 0 holds the leaves) of the tree over `leaves`.
pub open spec fn node(leaves: Seq<nat>, k: nat, j: nat) -> nat
    decreases k,
{
    if k == 0 {
        leaf_at(leaves, j)
    } else {
        poseidon2(node(leaves, (k - 1) as nat, 2 * j), node(leaves, (k - 1) as nat, 2 * j + 1))
    }
}

/// The root of the depth-20 tree over `leaves`.
pub open spec fn tree_root(leaves: Seq<nat>) -> nat {
    node(leaves, TREE_DEPTH as nat, 0)
}

/// The zero hashes: `Z[0] = 0`, `Z[k] = Poseidon(Z[k-1], Z[k-1])`.
pub open spec fn zero_hash(k: nat) -> nat
    decreases k,
{
    if k == 0 {
        0
    } else {
        poseidon2(zero_hash((k - 1) as nat), zero_hash((k - 1) as nat))
    }
}

/// The index of the other child under the same parent.
pub open spec fn sibling_index(j: nat) -> nat {
    if j % 2 == 0 {
        j + 1
    } else {
        (j - 1) as nat
    }
}

/// The hash reached from `leaf` after folding the first `k` levels of a path.
pub open spec fn path_root(leaf: nat, siblings: Seq<nat>, indices: Seq<bool>, k: nat) -> nat
    decreases k,
{
    if k == 0 {
        leaf
    } else {
        let cur = path_root(leaf, siblings, indices, (k - 1) as nat);
        let sib = siblings[k - 1];
        if indices[k - 1] {
            poseidon2(sib, cur)
        } else {
            poseidon2(cur, sib)
        }
    }
}

/// Whether `siblings` and `indices` are the authentication path of leaf `i` in
/// the tree over `leaves`.
pub open spec fn is_path_of(leaves: Seq<nat>, i: nat, siblings: Seq<nat>, indices: Seq<bool>) -> bool {
    &&& siblings.len() == TREE_DEPTH
    &&& indices.len() == TREE_DEPTH
    &&& forall|k: int|
        0 <= k < TREE_DEPTH ==> #[trigger] siblings[k] == node(
            leaves,
            k as nat,
            sibling_index(i / pow2(k as nat)),
        )
    &&& forall|k: int| 0 <= k < TREE_DEPTH ==> #[trigger] indices[k] == (
    (i / pow2(k as nat)) % 2 == 1)
}

proof fn lemma_pow2_step(k: nat)
    ensures
        pow2(k + 1) == 2 * pow2(k),
        pow2(k) > 0,
    decreases k,
{
    if k > 0 {
        lemma_pow2_step((k - 1) as nat);
    }
}

proof fn lemma_pow2_depth()
    ensures
        pow2(TREE_DEPTH as nat) == MAX_LEAVES,
{
    reveal_with_fuel(pow2, 21);
}

/// Nodes whose range starts at or past the last leaf are zero hashes.
proof fn lemma_node_zero(l: Seq<nat>, k: nat, j: nat)
    requires
        j * pow2(k) >= l.len(),
    ensures
        node(l, k, j) == zero_hash(k),
    decreases k,
{
    if k > 0 {
        let k1 = (k - 1) as nat;
        lemma_pow2_step(k1);
        let p = pow2(k1);
        assert((2 * j) * p == j * pow2(k) && (2 * j + 1) * p >= j * pow2(k)) by (nonlinear_arith)
            requires
                pow2(k) == 2 * p,
                p > 0,
        ;
        lemma_node_zero(l, k1, 2 * j);
        lemma_node_zero(l, k1, 2 * j + 1);
    } else {
        assert(pow2(0) == 1);
        assert(j * pow2(0) == j) by (nonlinear_arith)
            requires
                pow2(0) == 1,
        ;
    }
}

/// Appending a leaf leaves untouched every node whose range ends before it.
proof fn lemma_node_push(l: Seq<nat>, x: nat, k: nat, j: nat)
    requires
        (j + 1) * pow2(k) <= l.len(),
    ensures
        node(l.push(x), k, j) == node(l, k, j),
    decreases k,
{
    if k > 0 {
        let k1 = (k - 1) as nat;
        lemma_pow2_step(k1);
        let p = pow2(k1);
        assert((2 * j + 1 + 1) * p == (j + 1) * pow2(k) && (2 * j + 1) * p <= (j + 1) * pow2(k))
            by (nonlinear_arith)
            requires
                pow2(k) == 2 * p,
                p > 0,
        ;
        lemma_node_push(l, x, k1, 2 * j);
        lemma_node_push(l, x, k1, 2 * j + 1);
    } else {
        assert(pow2(0) == 1);
        assert((j + 1) * pow2(0) == j + 1) by (nonlinear_arith)
            requires
                pow2(0) == 1,
        ;
    }
}

/// One level of an insertion computes the parent of the running node.
proof fn lemma_insert_level(old_l: Seq<nat>, x: nat, lv: nat, idx: nat, cur: nat)
    requires
        old_l.len() < MAX_LEAVES,
        idx == old_l.len() / pow2(lv),
        cur == node(old_l.push(x), lv, idx),
    ensures
        idx / 2 == old_l.len() / pow2(lv + 1),
        idx % 2 == 0 ==> poseidon2(cur, zero_hash(lv)) == node(old_l.push(x), lv + 1, idx / 2),
        idx % 2 == 1 ==> poseidon2(node(old_l, lv, (idx - 1) as nat), cur) == node(
            old_l.push(x),
            lv + 1,
            idx / 2,
        ),
{
    let n = old_l.len();
    let new_l = old_l.push(x);
    lemma_pow2_step(lv);
    lemma_div_facts(n, pow2(lv));
    lemma_div_denominator(n as int, pow2(lv) as int, 2);
    assert(pow2(lv) * 2 == pow2(lv + 1));
    if idx % 2 == 0 {
        lemma_node_zero(new_l, lv, idx + 1);
        assert(2 * (idx / 2) == idx);
    } else {
        lemma_node_push(old_l, x, lv, (idx - 1) as nat);
        assert(2 * (idx / 2) + 1 == idx);
    }
}

/// One level of an insertion keeps the frontier entry of that level right.
proof fn lemma_filled_step(
    old_l: Seq<nat>,
    x: nat,
    lv: nat,
    idx: nat,
    filled_old: Seq<Fe>,
    filled_new: Seq<Fe>,
)
    requires
        idx == old_l.len() / pow2(lv),
        filled_ok(old_l, filled_old[lv as int], lv),
        idx % 2 == 0 ==> filled_new[lv as int].val() == node(old_l.push(x), lv, idx),
        idx % 2 == 1 ==> filled_new[lv as int] == filled_old[lv as int],
    ensures
        filled_ok(old_l.push(x), filled_new[lv as int], lv),
{
    reveal(filled_ok);
    let n = old_l.len();
    lemma_pow2_step(lv);
    lemma_div_facts(n, pow2(lv));
    assert(old_l.push(x).len() == n + 1);
    if idx % 2 == 1 {
        lemma_node_push(old_l, x, lv, (idx - 1) as nat);
    }
}

proof fn lemma_div_facts(n: nat, d: nat)
    requires
        d > 0,
    ensures
        (n / d) * d <= n,
        n < (n / d + 1) * d,
        (n + 1) / d == n / d || (n + 1) / d == n / d + 1,
{
    lemma_fundamental_div_mod(n as int, d as int);
    lemma_fundamental_div_mod((n + 1) as int, d as int);
    let q = n / d;
    let q1 = (n + 1) / d;
    assert(q * d <= n && n < (q + 1) * d) by (nonlinear_arith)
        requires
            n == d * q + n % d,
            0 <= n % d < d,
    ;
    assert(q1 == q || q1 == q + 1) by (nonlinear_arith)
        requires
            n + 1 == d * q1 + (n + 1) % d,
            0 <= (n + 1) % d < d,
            q * d <= n,
            n < (q + 1) * d,
            d > 0,
    ;
}

/// The path folded up to level `k` reaches node `i / 2^k` of level `k`.
proof fn lemma_path_prefix(leaves: Seq<nat>, i: nat, siblings: Seq<nat>, indices: Seq<bool>, k: nat)
    requires
        i < leaves.len(),
        k <= TREE_DEPTH,
        is_path_of(leaves, i, siblings, indices),
    ensures
        path_root(leaves[i as int], siblings, indices, k) == node(leaves, k, i / pow2(k)),
    decreases k,
{
    if k == 0 {
        assert(pow2(0) == 1);
        assert(i / 1 == i);
    } else {
        let k1 = (k - 1) as nat;
        lemma_path_prefix(leaves, i, siblings, indices, k1);
        lemma_pow2_step(k1);
        let j = i / pow2(k1);
        lemma_div_denominator(i as int, pow2(k1) as int, 2);
        assert(pow2(k1) * 2 == pow2(k));
        assert(siblings[k1 as int] == node(leaves, k1, sibling_index(j)));
        assert(indices[k1 as int] == (j % 2 == 1));
        if j % 2 == 0 {
            assert(2 * (j / 2) == j);
        } else {
            assert(2 * (j / 2) + 1 == j);
        }
    }
}

/// Every leaf's authentication path leads from the leaf to the root of the tree.
pub proof fn lemma_proof_verifies(leaves: Seq<nat>, i: nat, siblings: Seq<nat>, indices: Seq<bool>)
    requires
        leaves.len() <= MAX_LEAVES,
        i < leaves.len(),
        is_path_of(leaves, i, siblings, indices),
    ensures
        path_root(leaves[i as int], siblings, indices, TREE_DEPTH as nat) == tree_root(leaves),
{
    lemma_path_prefix(leaves, i, siblings, indices, TREE_DEPTH as nat);
    lemma_pow2_depth();
    vstd::arithmetic::div_mod::lemma_basic_div(i as int, MAX_LEAVES as int);
}

/// The root of the empty tree is the top zero hash.
pub proof fn lemma_empty_root()
    ensures
        tree_root(Seq::<nat>::empty()) == zero_hash(TREE_DEPTH as nat),
{
    lemma_node_zero(Seq::<nat>::empty(), TREE_DEPTH as nat, 0);
}

/// A path that leads from a leaf to one root does not lead to any other root.
pub proof fn lemma_path_rejects_other_root(
    leaf: nat,
    siblings: Seq<nat>,
    indices: Seq<bool>,
    root: nat,
    other_root: nat,
)
    requires
        path_root(leaf, siblings, indices, TREE_DEPTH as nat) == root,
        other_root != root,
    ensures
        path_root(leaf, siblings, indices, TREE_DEPTH as nat) != other_root,
{
}

/// The side bits of leaf index `i` at each level.
pub open spec fn index_bits(i: nat) -> Seq<bool> {
    Seq::new(TREE_DEPTH as nat, |k: int| (i / pow2(k as nat)) % 2 == 1)
}

/// Folds a path from `leaf` and compares the result with `root`.
fn fold_path(hasher: &Poseidon, leaf: &Fe, siblings: &[Fe], indices: &[bool], root: &Fe) -> (r: bool)
    requires
        hasher.wf(),
        siblings@.len() == TREE_DEPTH,
        indices@.len() == TREE_DEPTH,
    ensures
        r == (path_root(leaf.val(), vals(siblings@), indices@, TREE_DEPTH as nat) == root.val()),
{
    let mut current = *leaf;
    let mut k: usize = 0;
    while k < TREE_DEPTH
        invariant
            hasher.wf(),
            siblings@.len() == TREE_DEPTH,
            indices@.len() == TREE_DEPTH,
            k <= TREE_DEPTH,
            current.val() == path_root(leaf.val(), vals(siblings@), indices@, k as nat),
        decreases TREE_DEPTH - k,
    {
        if indices[k] {
            current = hasher.hash2(&siblings[k], &current);
        } else {
            current = hasher.hash2(&current, &siblings[k]);
        }
        k = k + 1;
    }
    current.equals(root)
}

impl MerklePath {
    /// Whether the path has 20 levels and leads from `leaf` to `expected_root`.
    pub fn verify(&self, leaf: &Fe, expected_root: &Fe) -> (r: bool)
        ensures
            r == (self.siblings@.len() == TREE_DEPTH && self.indices@.len() == TREE_DEPTH
                && path_root(leaf.val(), vals(self.siblings@), self.indices@, TREE_DEPTH as nat)
                == expected_root.val()),
    {
        if self.siblings.len() != TREE_DEPTH || self.indices.len() != TREE_DEPTH {
            return false;
        }
        let hasher = Poseidon::new();
        fold_path(&hasher, leaf, self.siblings.as_slice(), self.indices.as_slice(), expected_root)
    }
}

/// Whether `siblings` has 20 entries and, with the sides taken from the bits of
/// `leaf_index`, leads from `leaf` to `root`.
pub fn verify_merkle_proof(leaf: &Fe, leaf_index: u64, siblings: &[Fe], root: &Fe) -> (r: bool)
    ensures
        r == (siblings@.len() == TREE_DEPTH && path_root(
            leaf.val(),
            vals(siblings@),
            index_bits(leaf_index as nat),
            TREE_DEPTH as nat,
        ) == root.val()),
{
    if siblings.len() != TREE_DEPTH {
        return false;
    }
    let mut indices: Vec<bool> = Vec::new();
    let mut index = leaf_index;
    let mut k: usize = 0;
    proof {
        assert(pow2(0) == 1);
        assert(leaf_index as nat / 1 == leaf_index);
    }
    while k < TREE_DEPTH
        invariant
            k <= TREE_DEPTH,
            indices@.len() == k,
            index == leaf_index as nat / pow2(k as nat),
            forall|a: int| 0 <= a < k ==> #[trigger] indices@[a] == index_bits(leaf_index as nat)[a],
        decreases TREE_DEPTH - k,
    {
        proof {
            if k == 0 {
                assert(pow2(0) == 1);
                assert(leaf_index as nat / 1 == leaf_index);
            }
            lemma_pow2_step(k as nat);
            lemma_div_denominator(leaf_index as int, pow2(k as nat) as int, 2);
            assert(pow2(k as nat) * 2 == pow2(k as nat + 1));
        }
        indices.push(index % 2 == 1);
        index = index / 2;
        k = k + 1;
    }
    assert(indices@ =~= index_bits(leaf_index as nat));
    let hasher = Poseidon::new();
    fold_path(&hasher, leaf, siblings, indices.as_slice(), root)
}

/// Whether bit `j` of `x` is set.
pub open spec fn bit_set(x: u32, j: u32) -> bool {
    (x >> j) & 1u32 == 1u32
}

/// Packs side flags into a bitfield: bit `j` is set exactly when `indices[j]` is.
fn pack_indices(indices: &[bool]) -> (r: u32)
    requires
        indices@.len() <= 32,
    ensures
        forall|j: u32| j < 32 ==> #[trigger] bit_set(r, j) == (j < indices@.len() && indices@[j as int]),
{
    let mut acc: u32 = 0;
    let mut k: usize = 0;
    assert forall|j: u32| j < 32 implies #[trigger] bit_set(0u32, j) == false by {
        assert((0u32 >> j) & 1u32 == 0u32) by (bit_vector);
    }
    while k < indices.len()
        invariant
            indices@.len() <= 32,
            k <= indices@.len(),
            forall|j: u32| j < 32 ==> #[trigger] bit_set(acc, j) == (j < k && indices@[j as int]),
        decreases indices@.len() - k,
    {
        if indices[k] {
            let kk = k as u32;
            let old_acc = acc;
            acc = acc | (1u32 << kk);
            assert forall|j: u32| j < 32 implies #[trigger] bit_set(acc, j) == (j == kk || bit_set(old_acc, j)) by {
                assert(((old_acc | (1u32 << kk)) >> j) & 1u32 == 1u32 <==> (j == kk || (old_acc >> j) & 1u32 == 1u32)) by (bit_vector)
                    requires j < 32, kk < 32;
            }
        }
        k = k + 1;
    }
    acc
}

impl MerklePath {
    /// Serializes as `leaf_index (u64 LE) || siblings (32 bytes LE each) || side
    /// bitfield (u32 LE)`.
    pub fn to_bytes(&self) -> (r: Vec<u8>)
        requires
            self.indices@.len() <= 32,
        ensures
            r@.len() == 8 + 32 * self.siblings@.len() + 4,
            r@.subrange(0, 8) == spec_u64_to_le_bytes(self.leaf_index),
            forall|k: int| 0 <= k < self.siblings@.len() ==> le_nat(#[trigger] r@.subrange(8 + 32 * k, 8 + 32 * k + 32))
                == self.siblings@[k].val(),
            exists|bits: u32| r@.subrange(r@.len() - 4, r@.len() as int) == spec_u32_to_le_bytes(bits) && forall|j: u32|
                j < 32 ==> #[trigger] bit_set(bits, j) == (j < self.indices@.len() && self.indices@[j as int]),
    {
        let mut bytes: Vec<u8> = u64_to_le_bytes(self.leaf_index);
        let mut k: usize = 0;
        while k < self.siblings.len()
            invariant
                k <= self.siblings@.len(),
                bytes@.len() == 8 + 32 * k,
                bytes@.subrange(0, 8) == spec_u64_to_le_bytes(self.leaf_index),
                forall|a: int| 0 <= a < k ==> le_nat(#[trigger] bytes@.subrange(8 + 32 * a, 8 + 32 * a + 32))
                    == self.siblings@[a].val(),
            decreases self.siblings@.len() - k,
        {
            let word = self.siblings[k].to_bytes_le();
            let ghost before = bytes@;
            let mut t: usize = 0;
            while t < 32
                invariant
                    t <= 32,
                    bytes@ == before + word@.subrange(0, t as int),
                decreases 32 - t,
            {
                bytes.push(word[t]);
                t = t + 1;
            }
            proof {
                assert(word@.subrange(0, 32) =~= word@);
                assert(bytes@.subrange(8 + 32 * k, 8 + 32 * k + 32) =~= word@);
                assert(bytes@.subrange(0, 8) =~= before.subrange(0, 8));
                assert forall|a: int| 0 <= a < k implies le_nat(#[trigger] bytes@.subrange(8 + 32 * a, 8 + 32 * a + 32))
                    == self.siblings@[a].val() by {
                    assert(bytes@.subrange(8 + 32 * a, 8 + 32 * a + 32) =~= before.subrange(8 + 32 * a, 8 + 32 * a + 32));
                }
            }
            k = k + 1;
        }
        let bits = pack_indices(self.indices.as_slice());
        let ghost before = bytes@;
        let mut tail = u32_to_le_bytes(bits);
        bytes.append(&mut tail);
        proof {
            assert(bytes@.subrange(bytes@.len() - 4, bytes@.len() as int) =~= spec_u32_to_le_bytes(bits));
            assert(bytes@.subrange(0, 8) =~= before.subrange(0, 8));
            assert forall|a: int| 0 <= a < self.siblings@.len() implies le_nat(#[trigger] bytes@.subrange(8 + 32 * a, 8 + 32 * a + 32))
                == self.siblings@[a].val() by {
                assert(bytes@.subrange(8 + 32 * a, 8 + 32 * a + 32) =~= before.subrange(8 + 32 * a, 8 + 32 * a + 32));
            }
        }
        bytes
    }
}

/// The frontier entry of level `k` holds the last complete left node of that level.
#[verifier::opaque]
pub open spec fn filled_ok(leaves: Seq<nat>, entry: Fe, k: nat) -> bool {
    let m = leaves.len() / pow2(k);
    m % 2 == 1 ==> entry.val() == node(leaves, k, (m - 1) as nat)
}

/// An authentication path for one leaf.
#[derive(Clone, Debug)]
pub struct MerklePath {
    /// Sibling hashes from the leaf up to the root.
    pub siblings: Vec<Fe>,
    /// Side of the running node at each level (`true`: it is the right child).
    pub indices: Vec<bool>,
    /// Index of the leaf.
    pub leaf_index: u64,
}

/// Incremental Merkle tree over Poseidon that keeps only its right frontier:
/// the state held on chain. The leaves exist in the proofs only.
pub struct IncrementalMerkleTree {
    next_index: u64,
    filled_subtrees: Vec<Fe>,
    current_root: Fe,
    zeros: Vec<Fe>,
    hasher: Poseidon,
    leaves: Ghost<Seq<nat>>,
}

impl View for IncrementalMerkleTree {
    type V = Seq<nat>;

    /// The values of the inserted leaves, in order of insertion.
    closed spec fn view(&self) -> Seq<nat> {
        self.leaves@
    }
}

/// Incremental Merkle tree over Poseidon that also keeps its leaves, so that
/// it can produce authentication paths.
pub struct PoseidonMerkleTree {
    tree: IncrementalMerkleTree,
    leaves: Vec<Fe>,
}

impl View for PoseidonMerkleTree {
    type V = Seq<nat>;

    /// The values of the inserted leaves, in order of insertion.
    closed spec fn view(&self) -> Seq<nat> {
        vals(self.leaves@)
    }
}

/// Computes the zero hashes `Z[0..=20]`.
fn compute_zero_hashes(hasher: &Poseidon) -> (r: Vec<Fe>)
    requires
        hasher.wf(),
    ensures
        r@.len() == TREE_DEPTH + 1,
        forall|k: int| 0 <= k <= TREE_DEPTH ==> #[trigger] r@[k].val() == zero_hash(k as nat),
{
    let mut zeros: Vec<Fe> = Vec::new();
    zeros.push(Fe::zero());
    let mut i: usize = 1;
    while i <= TREE_DEPTH
        invariant
            hasher.wf(),
            1 <= i <= TREE_DEPTH + 1,
            zeros@.len() == i,
            forall|k: int| 0 <= k < i ==> #[trigger] zeros@[k].val() == zero_hash(k as nat),
        decreases TREE_DEPTH + 1 - i,
    {
        let z = hasher.hash2(&zeros[i - 1], &zeros[i - 1]);
        zeros.push(z);
        i = i + 1;
    }
    zeros
}

/// The zero hash of `level`.
pub fn get_zero_hash(level: usize) -> (r: Fe)
    requires
        level <= TREE_DEPTH,
    ensures
        r.val() == zero_hash(level as nat),
{
    let hasher = Poseidon::new();
    let zeros = compute_zero_hashes(&hasher);
    zeros[level]
}

impl IncrementalMerkleTree {
    /// A well-formed tree holds at most `2^20` leaves.
    pub proof fn lemma_bounded(&self)
        requires
            self.wf(),
        ensures
            self@.len() <= MAX_LEAVES,
    {
    }

    pub closed spec fn wf(&self) -> bool {
        &&& self.next_index == self.leaves@.len()
        &&& self.leaves@.len() <= MAX_LEAVES
        &&& self.hasher.wf()
        &&& self.zeros@.len() == TREE_DEPTH + 1
        &&& forall|k: int| 0 <= k <= TREE_DEPTH ==> #[trigger] self.zeros@[k].val() == zero_hash(k as nat)
        &&& self.filled_subtrees@.len() == TREE_DEPTH
        &&& forall|k: int| 0 <= k < TREE_DEPTH ==> #[trigger] filled_ok(self@, self.filled_subtrees@[k], k as nat)
        &&& self.current_root.val() == tree_root(self@)
    }

    /// Creates an empty tree.
    pub fn new() -> (r: IncrementalMerkleTree)
        ensures
            r.wf(),
            r@ == Seq::<nat>::empty(),
    {
        let hasher = Poseidon::new();
        let zeros = compute_zero_hashes(&hasher);
        let mut filled: Vec<Fe> = Vec::new();
        let mut i: usize = 0;
        while i < TREE_DEPTH
            invariant
                i <= TREE_DEPTH,
                filled@.len() == i,
                zeros@.len() == TREE_DEPTH + 1,
            decreases TREE_DEPTH - i,
        {
            filled.push(zeros[i]);
            i = i + 1;
        }
        let root = zeros[TREE_DEPTH];
        let t = IncrementalMerkleTree {
            next_index: 0,
            filled_subtrees: filled,
            current_root: root,
            zeros,
            hasher,
            leaves: Ghost(Seq::empty()),
        };
        proof {
            assert(t@ =~= Seq::<nat>::empty());
            lemma_node_zero(t@, TREE_DEPTH as nat, 0);
            assert forall|k: int| 0 <= k < TREE_DEPTH implies #[trigger] filled_ok(t@, t.filled_subtrees@[k], k as nat) by {
                reveal(filled_ok);
                lemma_pow2_step(k as nat);
            }
        }
        t
    }

    /// Appends a leaf and returns its index; fails with `TreeFull` at capacity.
    #[verifier::rlimit(50)]
    pub fn insert(&mut self, leaf: Fe) -> (r: Result<u64, MerkleError>)
        requires
            old(self).wf(),
        ensures
            final(self).wf(),
            old(self)@.len() >= MAX_LEAVES ==> (r matches Err(MerkleError::TreeFull) && *final(self) == *old(self)),
            old(self)@.len() < MAX_LEAVES ==> (r == Ok::<u64, MerkleError>(old(self)@.len() as u64)
                && final(self)@ == old(self)@.push(leaf.val())),
    {
        if self.next_index >= MAX_LEAVES {
            return Err(MerkleError::TreeFull);
        }
        let leaf_index = self.next_index;
        let ghost old_l = self@;
        let ghost n = leaf_index as nat;
        self.leaves = Ghost(old_l.push(leaf.val()));
        let ghost new_l = self@;
        assert(new_l =~= old_l.push(leaf.val()));
        proof {
            assert(pow2(0) == 1);
            assert(n / 1 == n);
        }
        let mut current = leaf;
        let mut index = leaf_index;
        let mut level: usize = 0;
        while level < TREE_DEPTH
            invariant
                n == old_l.len(),
                n < MAX_LEAVES,
                new_l == old_l.push(leaf.val()),
                self@ == new_l,
                self.leaves@.len() == n + 1,
                self.next_index == n,
                self.hasher.wf(),
                self.zeros@.len() == TREE_DEPTH + 1,
                forall|k: int| 0 <= k <= TREE_DEPTH ==> #[trigger] self.zeros@[k].val() == zero_hash(k as nat),
                self.filled_subtrees@.len() == TREE_DEPTH,
                level <= TREE_DEPTH,
                index == n / pow2(level as nat),
                current.val() == node(new_l, level as nat, index as nat),
                forall|k: int| 0 <= k < level ==> #[trigger] filled_ok(new_l, self.filled_subtrees@[k], k as nat),
                forall|k: int| level <= k < TREE_DEPTH ==> #[trigger] filled_ok(old_l, self.filled_subtrees@[k], k as nat),
            decreases TREE_DEPTH - level,
        {
            let ghost lv = level as nat;
            let ghost filled_old = self.filled_subtrees@;
            let ghost idx = index as nat;
            proof {
                lemma_insert_level(old_l, leaf.val(), lv, idx, current.val());
            }
            if index % 2 == 0 {
                self.filled_subtrees.set(level, current);
                current = self.hasher.hash2(&current, &self.zeros[level]);
            } else {
                proof {
                    assert(filled_ok(old_l, self.filled_subtrees@[level as int], lv));
                    reveal(filled_ok);
                }
                current = self.hasher.hash2(&self.filled_subtrees[level], &current);
            }
            proof {
                lemma_filled_step(old_l, leaf.val(), lv, idx, filled_old, self.filled_subtrees@);
            }
            index = index / 2;
            level = level + 1;
            proof {
                assert forall|k: int| 0 <= k < level implies #[trigger] filled_ok(new_l, self.filled_subtrees@[k], k as nat) by {
                    if k < lv {
                        assert(self.filled_subtrees@[k] == filled_old[k]);
                    }
                }
                assert forall|k: int| level <= k < TREE_DEPTH implies #[trigger] filled_ok(old_l, self.filled_subtrees@[k], k as nat) by {
                    assert(self.filled_subtrees@[k] == filled_old[k]);
                }
            }
        }
        proof {
            lemma_pow2_depth();
            vstd::arithmetic::div_mod::lemma_basic_div(n as int, MAX_LEAVES as int);
        }
        self.current_root = current;
        self.next_index = self.next_index + 1;
        Ok(leaf_index)
    }

    /// The current root.
    pub fn root(&self) -> (r: Fe)
        requires
            self.wf(),
        ensures
            r.val() == tree_root(self@),
    {
        self.current_root
    }

    /// The current root as 32 little-endian bytes.
    pub fn root_bytes(&self) -> (r: [u8; 32])
        requires
            self.wf(),
        ensures
            crate::field::le_nat(r@) == tree_root(self@),
    {
        self.current_root.to_bytes_le()
    }

    /// Whether `root` is the current root.
    pub fn is_known_root(&self, root: &Fe) -> (r: bool)
        requires
            self.wf(),
        ensures
            r == (root.val() == tree_root(self@)),
    {
        root.equals(&self.current_root)
    }

    /// Number of leaves.
    pub fn len(&self) -> (r: u64)
        requires
            self.wf(),
        ensures
            r == self@.len(),
    {
        self.next_index
    }

    /// Whether the tree has no leaves.
    pub fn is_empty(&self) -> (r: bool)
        requires
            self.wf(),
        ensures
            r == (self@.len() == 0),
    {
        self.next_index == 0
    }
}

impl PoseidonMerkleTree {
    /// A well-formed tree holds at most `2^20` leaves.
    pub proof fn lemma_bounded(&self)
        requires
            self.wf(),
        ensures
            self@.len() <= MAX_LEAVES,
    {
        self.tree.lemma_bounded();
    }

    pub closed spec fn wf(&self) -> bool {
        &&& self.tree.wf()
        &&& self.tree@ == vals(self.leaves@)
    }

    /// Creates an empty tree.
    pub fn new() -> (r: PoseidonMerkleTree)
        ensures
            r.wf(),
            r@ == Seq::<nat>::empty(),
    {
        let t = PoseidonMerkleTree { tree: IncrementalMerkleTree::new(), leaves: Vec::new() };
        assert(vals(t.leaves@) =~= Seq::<nat>::empty());
        t
    }

    /// Appends a leaf and returns its index; fails with `TreeFull` at capacity.
    pub fn insert(&mut self, leaf: Fe) -> (r: Result<u64, MerkleError>)
        requires
            old(self).wf(),
        ensures
            final(self).wf(),
            old(self)@.len() >= MAX_LEAVES ==> (r matches Err(MerkleError::TreeFull) && *final(self) == *old(self)),
            old(self)@.len() < MAX_LEAVES ==> (r == Ok::<u64, MerkleError>(old(self)@.len() as u64)
                && final(self)@ == old(self)@.push(leaf.val())),
    {
        let r = self.tree.insert(leaf);
        if r.is_ok() {
            self.leaves.push(leaf);
            assert(vals(self.leaves@) =~= vals(old(self).leaves@).push(leaf.val()));
        }
        r
    }

    /// The authentication path of leaf `leaf_index`; fails with `InvalidLeafIndex`
    /// when no such leaf has been inserted.
    pub fn generate_proof(&self, leaf_index: u64) -> (r: Result<MerklePath, MerkleError>)
        requires
            self.wf(),
        ensures
            leaf_index >= self@.len() <==> (r matches Err(MerkleError::InvalidLeafIndex(i)) && i == leaf_index),
            leaf_index < self@.len() <==> r is Ok,
            r matches Ok(p) ==> p.leaf_index == leaf_index && is_path_of(
                self@,
                leaf_index as nat,
                vals(p.siblings@),
                p.indices@,
            ),
    {
        if leaf_index >= self.tree.next_index {
            return Err(MerkleError::InvalidLeafIndex(leaf_index));
        }
        let ghost l = self@;
        let ghost n = l.len();
        let ghost i = leaf_index as nat;
        let mut level_nodes: Vec<Fe> = Vec::new();
        let mut a: usize = 0;
        while a < self.leaves.len()
            invariant
                self.wf(),
                l == self@,
                a <= self.leaves@.len(),
                level_nodes@.len() == a,
                forall|j: int| 0 <= j < a ==> #[trigger] level_nodes@[j].val() == node(l, 0, j as nat),
            decreases self.leaves@.len() - a,
        {
            level_nodes.push(self.leaves[a]);
            a = a + 1;
        }
        proof {
            assert(pow2(0) == 1);
            assert(i / 1 == i);
        }
        let mut siblings: Vec<Fe> = Vec::new();
        let mut indices: Vec<bool> = Vec::new();
        let mut cur: usize = leaf_index as usize;
        let mut level: usize = 0;
        while level < TREE_DEPTH
            invariant
                self.wf(),
                l == self@,
                n == l.len(),
                i < n,
                level <= TREE_DEPTH,
                level_nodes@.len() <= MAX_LEAVES,
                level_nodes@.len() * pow2(level as nat) >= n,
                forall|j: int| 0 <= j < level_nodes@.len() ==> #[trigger] level_nodes@[j].val() == node(l, level as nat, j as nat),
                cur == i / pow2(level as nat),
                siblings@.len() == level,
                indices@.len() == level,
                forall|k: int| 0 <= k < level ==> #[trigger] siblings@[k].val() == node(l, k as nat, sibling_index(i / pow2(k as nat))),
                forall|k: int| 0 <= k < level ==> #[trigger] indices@[k] == ((i / pow2(k as nat)) % 2 == 1),
            decreases TREE_DEPTH - level,
        {
            let ghost lv = level as nat;
            proof {
                lemma_pow2_step(lv);
                lemma_div_denominator(i as int, pow2(lv) as int, 2);
                assert(pow2(lv) * 2 == pow2(lv + 1));
            }
            let is_right = cur % 2 == 1;
            let sib = if is_right { cur - 1 } else { cur + 1 };
            let m = level_nodes.len();
            let s = if sib < m {
                level_nodes[sib]
            } else {
                proof {
                    assert(sib * pow2(lv) >= m * pow2(lv)) by (nonlinear_arith)
                        requires sib >= m, pow2(lv) > 0;
                    lemma_node_zero(l, lv, sib as nat);
                }
                self.tree.zeros[level]
            };
            siblings.push(s);
            indices.push(is_right);
            proof {
                assert(siblings@[level as int].val() == node(l, lv, sibling_index(i / pow2(lv))));
            }
            let half = m / 2 + m % 2;
            let mut next: Vec<Fe> = Vec::new();
            let mut j: usize = 0;
            while j < half
                invariant
                    self.wf(),
                    l == self@,
                    n == l.len(),
                    level < TREE_DEPTH,
                    lv == level,
                    m == level_nodes@.len(),
                    m <= MAX_LEAVES,
                    m * pow2(lv) >= n,
                    pow2(lv) > 0,
                    half == m / 2 + m % 2,
                    j <= half,
                    next@.len() == j,
                    forall|b: int| 0 <= b < m ==> #[trigger] level_nodes@[b].val() == node(l, lv, b as nat),
                    forall|b: int| 0 <= b < j ==> #[trigger] next@[b].val() == node(l, lv + 1, b as nat),
                decreases half - j,
            {
                let left = level_nodes[2 * j];
                let right = if 2 * j + 1 < m {
                    level_nodes[2 * j + 1]
                } else {
                    proof {
                        assert((2 * j + 1) * pow2(lv) >= m * pow2(lv)) by (nonlinear_arith)
                            requires 2 * j + 1 >= m, pow2(lv) > 0;
                        lemma_node_zero(l, lv, (2 * j + 1) as nat);
                    }
                    self.tree.zeros[level]
                };
                let h = self.tree.hasher.hash2(&left, &right);
                next.push(h);
                j = j + 1;
            }
            proof {
                assert(half * pow2(lv + 1) >= n) by (nonlinear_arith)
                    requires half == m / 2 + m % 2, m * pow2(lv) >= n, pow2(lv + 1) == 2 * pow2(lv), pow2(lv) > 0;
            }
            level_nodes = next;
            cur = cur / 2;
            level = level + 1;
        }
        proof {
            assert forall|k: int| 0 <= k < TREE_DEPTH implies #[trigger] vals(siblings@)[k] == node(l, k as nat, sibling_index(i / pow2(k as nat))) by {
                assert(siblings@[k].val() == node(l, k as nat, sibling_index(i / pow2(k as nat))));
            }
        }
        Ok(MerklePath { siblings, indices, leaf_index })
    }

    /// The current root.
    pub fn root(&self) -> (r: Fe)
        requires
            self.wf(),
        ensures
            r.val() == tree_root(self@),
    {
        self.tree.root()
    }

    /// The current root as 32 little-endian bytes.
    pub fn root_bytes(&self) -> (r: [u8; 32])
        requires
            self.wf(),
        ensures
            crate::field::le_nat(r@) == tree_root(self@),
    {
        self.tree.root_bytes()
    }

    /// Whether `root` is the current root.
    pub fn is_known_root(&self, root: &Fe) -> (r: bool)
        requires
            self.wf(),
        ensures
            r == (root.val() == tree_root(self@)),
    {
        self.tree.is_known_root(root)
    }

    /// The leaf at `index`, if there is one.
    pub fn get_leaf(&self, index: u64) -> (r: Option<Fe>)
        requires
            self.wf(),
        ensures
            index < self@.len() <==> r.is_some(),
            r matches Some(x) ==> x.val() == self@[index as int],
    {
        if index < self.tree.next_index {
            Some(self.leaves[index as usize])
        } else {
            None
        }
    }

    /// Number of leaves.
    pub fn len(&self) -> (r: u64)
        requires
            self.wf(),
        ensures
            r == self@.len(),
    {
        self.tree.len()
    }

    /// Whether the tree has no leaves.
    pub fn is_empty(&self) -> (r: bool)
        requires
            self.wf(),
        ensures
            r == (self@.len() == 0),
    {
        self.tree.is_empty()
    }
}

} // verus!
