//! Note primitives: spending keys, nullifiers and note commitments.

use vstd::bytes::{spec_u64_to_le_bytes, u64_to_le_bytes};
use vstd::prelude::*;

use crate::field::{le_nat, modulus, Fe};
use crate::poseidon::{poseidon2, Poseidon};
use crate::poseidon_constants::{blake3_digest, blake3_of};

verus! {

/// ASCII bytes of `NYX_SPENDING_KEY`.
pub open spec fn spending_key_domain() -> Seq<u8> {
    seq![78u8, 89, 88, 95, 83, 80, 69, 78, 68, 73, 78, 71, 95, 75, 69, 89]
}

/// ASCII bytes of `NYX_NULLIFIER`.
pub open spec fn nullifier_domain() -> Seq<u8> {
    seq![78u8, 89, 88, 95, 78, 85, 76, 76, 73, 70, 73, 69, 82]
}

/// A byte string as a field value, little-endian modulo the field order.
pub open spec fn bytes_to_field(b: Seq<u8>) -> nat {
    le_nat(b) % modulus()
}

/// A domain tag as a field value: its BLAKE3 digest read little-endian modulo
/// the field order.
pub open spec fn domain_field(tag: Seq<u8>) -> nat {
    bytes_to_field(blake3_of(tag))
}

/// `sk = Poseidon(F(s), F(D_sk))`.
pub open spec fn spending_key_of(secret: Seq<u8>) -> nat {
    poseidon2(bytes_to_field(secret), domain_field(spending_key_domain()))
}

/// `nf = Poseidon(sk, Poseidon(F(i), F(D_nf)))`.
pub open spec fn nullifier_of(sk: nat, leaf_index: nat) -> nat {
    poseidon2(sk, poseidon2(leaf_index, domain_field(nullifier_domain())))
}

/// `C = Poseidon(Poseidon(sk, v), Poseidon(r, a))`.
pub open spec fn commitment_of(sk: nat, amount: nat, blinding: nat, asset_id: nat) -> nat {
    poseidon2(poseidon2(sk, amount), poseidon2(blinding, asset_id))
}

/// `F(D_sk)`.
pub fn spending_key_domain_fe() -> (r: Fe)
    ensures
        r.val() == domain_field(spending_key_domain()),
{
    let d: Vec<u8> = vec![78u8, 89, 88, 95, 83, 80, 69, 78, 68, 73, 78, 71, 95, 75, 69, 89];
    assert(d@ =~= spending_key_domain());
    Fe::from_le_bytes_mod_order(&blake3_digest(d.as_slice()))
}

/// `F(D_nf)`.
pub fn nullifier_domain_fe() -> (r: Fe)
    ensures
        r.val() == domain_field(nullifier_domain()),
{
    let d: Vec<u8> = vec![78u8, 89, 88, 95, 78, 85, 76, 76, 73, 70, 73, 69, 82];
    assert(d@ =~= nullifier_domain());
    Fe::from_le_bytes_mod_order(&blake3_digest(d.as_slice()))
}

/// A spending key, derived from a 32-byte secret.
#[derive(Clone, Debug)]
pub struct SpendingKey {
    key: Fe,
}

impl SpendingKey {
    pub closed spec fn val(&self) -> nat {
        self.key.val()
    }

    /// Derives the spending key of `secret`.
    pub fn from_secret(secret: &[u8; 32]) -> (r: SpendingKey)
        ensures
            r.val() == spending_key_of(secret@),
    {
        let s = Fe::from_le_bytes_mod_order(secret);
        let d = spending_key_domain_fe();
        SpendingKey { key: Poseidon::new().hash2(&s, &d) }
    }

    /// Wraps a field element as a spending key.
    pub fn from_field(key: Fe) -> (r: SpendingKey)
        ensures
            r.val() == key.val(),
    {
        SpendingKey { key }
    }

    /// The key as a field element.
    pub fn as_field(&self) -> (r: &Fe)
        ensures
            r.val() == self.val(),
    {
        &self.key
    }

    /// The key as 32 little-endian bytes.
    pub fn to_bytes(&self) -> (r: [u8; 32])
        ensures
            le_nat(r@) == self.val(),
    {
        self.key.to_bytes_le()
    }

    /// Reads a key from 32 little-endian bytes, modulo the field order.
    pub fn from_bytes(bytes: &[u8; 32]) -> (r: SpendingKey)
        ensures
            r.val() == bytes_to_field(bytes@),
    {
        SpendingKey { key: Fe::from_le_bytes_mod_order(bytes) }
    }
}

/// A nullifier, revealed when a note is spent.
#[derive(Clone, Debug)]
pub struct Nullifier {
    value: Fe,
}

impl Nullifier {
    pub closed spec fn val(&self) -> nat {
        self.value.val()
    }

    /// Derives the nullifier of the note at `leaf_index` owned by `spending_key`.
    pub fn derive(spending_key: &SpendingKey, leaf_index: u64) -> (r: Nullifier)
        ensures
            r.val() == nullifier_of(spending_key.val(), leaf_index as nat),
    {
        let hasher = Poseidon::new();
        let index = Fe::from_u64(leaf_index);
        let index_with_domain = hasher.hash2(&index, &nullifier_domain_fe());
        Nullifier { value: hasher.hash2(&spending_key.key, &index_with_domain) }
    }

    /// Derives the nullifier from the owner's secret and the leaf index.
    pub fn from_secret(secret: &[u8; 32], leaf_index: u64) -> (r: Nullifier)
        ensures
            r.val() == nullifier_of(spending_key_of(secret@), leaf_index as nat),
    {
        let spending_key = SpendingKey::from_secret(secret);
        Self::derive(&spending_key, leaf_index)
    }

    /// The nullifier as a field element.
    pub fn as_field(&self) -> (r: &Fe)
        ensures
            r.val() == self.val(),
    {
        &self.value
    }

    /// The nullifier as 32 little-endian bytes.
    pub fn to_bytes(&self) -> (r: [u8; 32])
        ensures
            le_nat(r@) == self.val(),
    {
        self.value.to_bytes_le()
    }

    /// Reads a nullifier from 32 little-endian bytes, modulo the field order.
    pub fn from_bytes(bytes: &[u8; 32]) -> (r: Nullifier)
        ensures
            r.val() == bytes_to_field(bytes@),
    {
        Nullifier { value: Fe::from_le_bytes_mod_order(bytes) }
    }

    /// Wraps a field element as a nullifier.
    pub fn from_field(value: Fe) -> (r: Nullifier)
        ensures
            r.val() == value.val(),
    {
        Nullifier { value }
    }

    /// Whether two nullifiers are equal.
    pub fn equals(&self, other: &Nullifier) -> (r: bool)
        ensures
            r == (self.val() == other.val()),
    {
        self.value.equals(&other.value)
    }
}

/// The commitment of a note with the given spending key, amount, blinding and asset.
pub fn compute_commitment(spending_key: &Fe, amount: &Fe, blinding: &Fe, asset_id: &Fe) -> (r: Fe)
    ensures
        r.val() == commitment_of(spending_key.val(), amount.val(), blinding.val(), asset_id.val()),
{
    let hasher = Poseidon::new();
    let h1 = hasher.hash2(spending_key, amount);
    let h2 = hasher.hash2(blinding, asset_id);
    hasher.hash2(&h1, &h2)
}

/// A note owned through a 32-byte secret.
#[derive(Clone, Debug)]
pub struct Note {
    pub secret: [u8; 32],
    pub blinding: Fe,
    pub amount: u64,
    pub asset_id: Fe,
    pub leaf_index: Option<u64>,
}

impl Note {
    /// A note that has not been inserted yet.
    pub fn new(secret: [u8; 32], amount: u64, asset_id: Fe, blinding: Fe) -> (r: Note)
        ensures
            r.secret == secret,
            r.amount == amount,
            r.asset_id == asset_id,
            r.blinding == blinding,
            r.leaf_index.is_none(),
    {
        Note { secret, blinding, amount, asset_id, leaf_index: None }
    }

    /// Records the index at which the note was inserted.
    pub fn set_leaf_index(&mut self, index: u64)
        ensures
            final(self).leaf_index == Some(index),
            final(self).secret == old(self).secret,
            final(self).blinding == old(self).blinding,
            final(self).amount == old(self).amount,
            final(self).asset_id == old(self).asset_id,
    {
        self.leaf_index = Some(index);
    }

    /// The spending key of the note's owner.
    pub fn spending_key(&self) -> (r: SpendingKey)
        ensures
            r.val() == spending_key_of(self.secret@),
    {
        SpendingKey::from_secret(&self.secret)
    }

    /// The note's nullifier; the note must have been inserted.
    pub fn nullifier(&self) -> (r: Nullifier)
        requires
            self.leaf_index.is_some(),
        ensures
            r.val() == nullifier_of(spending_key_of(self.secret@), self.leaf_index.unwrap() as nat),
    {
        match self.leaf_index {
            Some(i) => Nullifier::from_secret(&self.secret, i),
            None => Nullifier::from_secret(&self.secret, 0),
        }
    }

    /// The note's commitment.
    pub fn commitment(&self) -> (r: Fe)
        ensures
            r.val() == commitment_of(
                spending_key_of(self.secret@),
                self.amount as nat,
                self.blinding.val(),
                self.asset_id.val(),
            ),
    {
        let spending_key = self.spending_key();
        let amount = Fe::from_u64(self.amount);
        compute_commitment(&spending_key.key, &amount, &self.blinding, &self.asset_id)
    }
}

fn push_all(out: &mut Vec<u8>, b: &[u8])
    ensures
        final(out)@ == old(out)@ + b@,
{
    let mut k: usize = 0;
    while k < b.len()
        invariant
            k <= b@.len(),
            out@ == old(out)@ + b@.subrange(0, k as int),
        decreases b@.len() - k,
    {
        out.push(b[k]);
        k = k + 1;
    }
    assert(b@.subrange(0, b@.len() as int) =~= b@);
}

impl Note {
    /// Serializes as `secret (32) || blinding (32, LE) || amount (8, LE) ||
    /// asset_id (32, LE)`, then the leaf index (8, LE) when it is known.
    pub fn to_bytes(&self) -> (r: Vec<u8>)
        ensures
            r@.len() == if self.leaf_index is Some { 112int } else { 104int },
            r@.subrange(0, 32) == self.secret@,
            le_nat(r@.subrange(32, 64)) == self.blinding.val(),
            r@.subrange(64, 72) == spec_u64_to_le_bytes(self.amount),
            le_nat(r@.subrange(72, 104)) == self.asset_id.val(),
            self.leaf_index matches Some(i) ==> r@.subrange(104, 112) == spec_u64_to_le_bytes(i),
    {
        let mut bytes: Vec<u8> = Vec::new();
        push_all(&mut bytes, self.secret.as_slice());
        let blinding = self.blinding.to_bytes_le();
        push_all(&mut bytes, blinding.as_slice());
        let amount = u64_to_le_bytes(self.amount);
        push_all(&mut bytes, amount.as_slice());
        let asset = self.asset_id.to_bytes_le();
        push_all(&mut bytes, asset.as_slice());
        let ghost body = bytes@;
        assert(body.subrange(0, 32) =~= self.secret@);
        assert(body.subrange(32, 64) =~= blinding@);
        assert(body.subrange(64, 72) =~= amount@);
        assert(body.subrange(72, 104) =~= asset@);
        match self.leaf_index {
            Some(i) => {
                let idx = u64_to_le_bytes(i);
                push_all(&mut bytes, idx.as_slice());
                assert(bytes@.subrange(0, 104) =~= body);
                assert(bytes@.subrange(104, 112) =~= idx@);
                assert(bytes@.subrange(0, 32) =~= body.subrange(0, 32));
                assert(bytes@.subrange(32, 64) =~= body.subrange(32, 64));
                assert(bytes@.subrange(64, 72) =~= body.subrange(64, 72));
                assert(bytes@.subrange(72, 104) =~= body.subrange(72, 104));
            },
            None => {},
        }
        bytes
    }
}

} // verus!
