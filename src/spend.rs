//! The spend relation that the transfer circuit enforces, checked natively.

use vstd::prelude::*;

use crate::field::Fe;
use crate::merkle::{path_root, TREE_DEPTH};
use crate::note::{
    bytes_to_field, commitment_of, domain_field, nullifier_domain, nullifier_domain_fe, spending_key_domain,
    spending_key_domain_fe,
};
use crate::poseidon::{poseidon2, vals, Poseidon};

verus! {

/// Private inputs of a spend.
#[derive(Clone, Debug)]
pub struct SpendWitness {
    /// The owner's secret as a field element.
    pub secret: Fe,
    pub amount: Fe,
    pub input_blinding: Fe,
    pub asset_id: Fe,
    pub leaf_index: u64,
    pub path: Vec<Fe>,
    pub indices: Vec<bool>,
    pub output_blinding: Fe,
}

/// Public inputs of a spend, in circuit order.
#[derive(Clone, Copy, Debug)]
pub struct SpendPublicInputs {
    pub merkle_root: Fe,
    pub nullifier: Fe,
    pub new_commitment: Fe,
}

/// The five constraint blocks: spending key, input commitment, membership,
/// nullifier and output commitment (same key, amount and asset, new blinding).
pub open spec fn spend_relation(w: SpendWitness, p: SpendPublicInputs) -> bool {
    let sk = poseidon2(w.secret.val(), domain_field(spending_key_domain()));
    let c_in = commitment_of(sk, w.amount.val(), w.input_blinding.val(), w.asset_id.val());
    let nf = poseidon2(sk, poseidon2(w.leaf_index as nat, domain_field(nullifier_domain())));
    let c_new = commitment_of(sk, w.amount.val(), w.output_blinding.val(), w.asset_id.val());
    &&& w.path@.len() == TREE_DEPTH
    &&& w.indices@.len() == TREE_DEPTH
    &&& path_root(c_in, vals(w.path@), w.indices@, TREE_DEPTH as nat) == p.merkle_root.val()
    &&& nf == p.nullifier.val()
    &&& c_new == p.new_commitment.val()
}

/// Whether the witness satisfies the spend relation for the public inputs.
pub fn spend_relation_holds(w: &SpendWitness, p: &SpendPublicInputs) -> (r: bool)
    ensures
        r == spend_relation(*w, *p),
{
    if w.path.len() != TREE_DEPTH || w.indices.len() != TREE_DEPTH {
        return false;
    }
    let hasher = Poseidon::new();
    let sk = hasher.hash2(&w.secret, &spending_key_domain_fe());
    let h1 = hasher.hash2(&sk, &w.amount);
    let c_in = hasher.hash2(&h1, &hasher.hash2(&w.input_blinding, &w.asset_id));
    let mut current = c_in;
    let mut k: usize = 0;
    while k < TREE_DEPTH
        invariant
            hasher.wf(),
            w.path@.len() == TREE_DEPTH,
            w.indices@.len() == TREE_DEPTH,
            k <= TREE_DEPTH,
            current.val() == path_root(c_in.val(), vals(w.path@), w.indices@, k as nat),
        decreases TREE_DEPTH - k,
    {
        if w.indices[k] {
            current = hasher.hash2(&w.path[k], &current);
        } else {
            current = hasher.hash2(&current, &w.path[k]);
        }
        k = k + 1;
    }
    let index_tag = hasher.hash2(&Fe::from_u64(w.leaf_index), &nullifier_domain_fe());
    let nf = hasher.hash2(&sk, &index_tag);
    let c_new = hasher.hash2(&h1, &hasher.hash2(&w.output_blinding, &w.asset_id));
    current.equals(&p.merkle_root) && nf.equals(&p.nullifier) && c_new.equals(&p.new_commitment)
}

/// Private inputs of the earlier witness interface, before the path is known.
#[derive(Clone, Debug)]
pub struct TransferCircuitWitness {
    pub sender_secret: Fe,
    pub amount: Fe,
    pub sender_blinding: Fe,
    pub recipient_blinding: Fe,
    pub merkle_path: Vec<Fe>,
    pub merkle_indices: Vec<bool>,
}

impl TransferCircuitWitness {
    /// Reads the byte strings as field elements (little-endian, modulo the
    /// order), with an empty path.
    pub fn from_bytes(
        sender_secret: &[u8],
        amount: u64,
        sender_blinding: &[u8],
        recipient_blinding: &[u8],
    ) -> (r: TransferCircuitWitness)
        ensures
            r.sender_secret.val() == bytes_to_field(sender_secret@),
            r.amount.val() == amount as nat,
            r.sender_blinding.val() == bytes_to_field(sender_blinding@),
            r.recipient_blinding.val() == bytes_to_field(recipient_blinding@),
            r.merkle_path@.len() == 0,
            r.merkle_indices@.len() == 0,
    {
        TransferCircuitWitness {
            sender_secret: Fe::from_le_bytes_mod_order(sender_secret),
            amount: Fe::from_u64(amount),
            sender_blinding: Fe::from_le_bytes_mod_order(sender_blinding),
            recipient_blinding: Fe::from_le_bytes_mod_order(recipient_blinding),
            merkle_path: Vec::new(),
            merkle_indices: Vec::new(),
        }
    }
}

} // verus!
