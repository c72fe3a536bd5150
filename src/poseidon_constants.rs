//! Round constants and MDS matrix of the width-3 Poseidon permutation.

use vstd::bytes::{spec_u64_to_le_bytes, u64_to_le_bytes};
use vstd::prelude::*;

use crate::field::{finv, le_nat, modulus, Fe};

verus! {

/// Number of full rounds.
pub const FULL_ROUNDS: usize = 8;

/// Number of partial rounds.
pub const PARTIAL_ROUNDS: usize = 57;

/// State width (two inputs plus one capacity element).
pub const WIDTH: usize = 3;

/// Total number of round constants.
pub const NUM_CONSTANTS: usize = 195;

/// The BLAKE3 digest of a byte string.
pub uninterp spec fn blake3_of(data: Seq<u8>) -> Seq<u8>;

/// Relies on `blake3::hash`: the 32-byte BLAKE3 digest of `data`.
#[verifier::external_body]
pub(crate) fn blake3_digest(data: &[u8]) -> (r: [u8; 32])
    ensures
        r@ == blake3_of(data@),
{
    *blake3::hash(data).as_bytes()
}

/// ASCII bytes of `Poseidon_BN254_t3_RF8_RP57`.
pub open spec fn constants_domain() -> Seq<u8> {
    seq![80u8, 111, 115, 101, 105, 100, 111, 110, 95, 66, 78, 50, 53, 52, 95, 116, 51, 95, 82, 70, 56, 95, 82, 80, 53, 55]
}

/// ASCII bytes of `round_constant`.
pub open spec fn constants_suffix() -> Seq<u8> {
    seq![114u8, 111, 117, 110, 100, 95, 99, 111, 110, 115, 116, 97, 110, 116]
}

/// The value of round constant `i`: the BLAKE3 digest of the domain tag, `i` as
/// eight little-endian bytes and the suffix, read little-endian modulo the field order.
pub open spec fn round_constant(i: nat) -> nat {
    le_nat(blake3_of(constants_domain() + spec_u64_to_le_bytes(i as u64) + constants_suffix()))
        % modulus()
}

/// The MDS matrix entry at `(i, j)`: the Cauchy entry `1 / (i + j + 3)`.
pub open spec fn mds_entry(i: nat, j: nat) -> nat {
    finv(i + j + 3)
}

/// Computes the round constants in order.
pub fn get_round_constants() -> (r: Vec<Fe>)
    ensures
        r@.len() == NUM_CONSTANTS,
        forall|i: int| 0 <= i < NUM_CONSTANTS ==> #[trigger] r@[i].val() == round_constant(i as nat),
{
    let mut constants: Vec<Fe> = Vec::new();
    let mut i: usize = 0;
    while i < NUM_CONSTANTS
        invariant
            i <= NUM_CONSTANTS,
            constants@.len() == i,
            forall|k: int| 0 <= k < i ==> #[trigger] constants@[k].val() == round_constant(k as nat),
        decreases NUM_CONSTANTS - i,
    {
        let mut input: Vec<u8> = vec![80u8, 111, 115, 101, 105, 100, 111, 110, 95, 66, 78, 50, 53, 52, 95, 116, 51, 95, 82, 70, 56, 95, 82, 80, 53, 55];
        let mut index_bytes = u64_to_le_bytes(i as u64);
        let mut suffix: Vec<u8> = vec![114u8, 111, 117, 110, 100, 95, 99, 111, 110, 115, 116, 97, 110, 116];
        input.append(&mut index_bytes);
        input.append(&mut suffix);
        assert(input@ =~= constants_domain() + spec_u64_to_le_bytes(i as u64) + constants_suffix());
        let digest = blake3_digest(input.as_slice());
        let c = Fe::from_le_bytes_mod_order(&digest);
        constants.push(c);
        i = i + 1;
    }
    constants
}

/// Computes the 3x3 Cauchy MDS matrix.
pub fn get_mds_matrix() -> (r: Vec<Vec<Fe>>)
    ensures
        r@.len() == WIDTH,
        forall|i: int| 0 <= i < WIDTH ==> #[trigger] r@[i]@.len() == WIDTH,
        forall|i: int, j: int|
            0 <= i < WIDTH && 0 <= j < WIDTH ==> #[trigger] r@[i]@[j].val() == mds_entry(
                i as nat,
                j as nat,
            ),
{
    let mut matrix: Vec<Vec<Fe>> = Vec::new();
    let mut i: usize = 0;
    while i < WIDTH
        invariant
            i <= WIDTH,
            matrix@.len() == i,
            forall|a: int| 0 <= a < i ==> #[trigger] matrix@[a]@.len() == WIDTH,
            forall|a: int, b: int|
                0 <= a < i && 0 <= b < WIDTH ==> #[trigger] matrix@[a]@[b].val() == mds_entry(
                    a as nat,
                    b as nat,
                ),
        decreases WIDTH - i,
    {
        let mut row: Vec<Fe> = Vec::new();
        let mut j: usize = 0;
        while j < WIDTH
            invariant
                i < WIDTH,
                j <= WIDTH,
                row@.len() == j,
                forall|b: int| 0 <= b < j ==> #[trigger] row@[b].val() == mds_entry(i as nat, b as nat),
            decreases WIDTH - j,
        {
            let sum = Fe::from_u64((i + j + WIDTH) as u64);
            let entry = match sum.inverse() {
                Some(inv) => inv,
                None => Fe::from_u64(1),
            };
            row.push(entry);
            j = j + 1;
        }
        matrix.push(row);
        i = i + 1;
    }
    matrix
}

} // verus!
