//! The Poseidon hash over the BN254 scalar field, width 3, x^5 S-box.

use vstd::prelude::*;

use crate::field::{fadd, fmul, le_nat, modulus, Fe};
use crate::poseidon_constants::{
    get_mds_matrix, get_round_constants, mds_entry, round_constant, FULL_ROUNDS, NUM_CONSTANTS,
    PARTIAL_ROUNDS, WIDTH,
};

verus! {

/// Errors of the Poseidon front ends.
#[derive(Debug)]
pub enum PoseidonError {
    InvalidLength { expected: usize, got: usize },
    ConversionError,
    EmptyInput,
}

/// A permutation state `(s0, s1, s2)` of field values.
pub type PState = (nat, nat, nat);

/// Total number of rounds.
pub open spec fn num_rounds() -> nat {
    (FULL_ROUNDS + PARTIAL_ROUNDS) as nat
}

/// Whether round `r` is a full round (the first four and the last four).
pub open spec fn is_full_round(r: nat) -> bool {
    r < 4 || r >= 61
}

/// The S-box `x^5`, computed as `(x^2)^2 * x`.
pub open spec fn sbox(x: nat) -> nat {
    fmul(fmul(fmul(x, x), fmul(x, x)), x)
}

/// Adds the three round constants of round `r`.
pub open spec fn add_round_constants(s: PState, r: nat) -> PState {
    (
        fadd(s.0, round_constant(3 * r)),
        fadd(s.1, round_constant(3 * r + 1)),
        fadd(s.2, round_constant(3 * r + 2)),
    )
}

/// Row `i` of the MDS product.
pub open spec fn mds_row(i: nat, s: PState) -> nat {
    fadd(fadd(fmul(mds_entry(i, 0), s.0), fmul(mds_entry(i, 1), s.1)), fmul(mds_entry(i, 2), s.2))
}

/// The MDS matrix applied to a state.
pub open spec fn mds_apply(s: PState) -> PState {
    (mds_row(0, s), mds_row(1, s), mds_row(2, s))
}

/// One round: constants, S-box (all three or the first only), MDS.
pub open spec fn round(s: PState, r: nat) -> PState {
    let a = add_round_constants(s, r);
    if is_full_round(r) {
        mds_apply((sbox(a.0), sbox(a.1), sbox(a.2)))
    } else {
        mds_apply((sbox(a.0), a.1, a.2))
    }
}

/// The state after the first `n` rounds.
pub open spec fn rounds(s: PState, n: nat) -> PState
    decreases n,
{
    if n == 0 {
        s
    } else {
        round(rounds(s, (n - 1) as nat), (n - 1) as nat)
    }
}

/// The Poseidon permutation.
pub open spec fn permutation(s: PState) -> PState {
    rounds(s, num_rounds())
}

/// The two-input Poseidon hash: first element of the permuted `[0, a, b]`.
pub closed spec fn poseidon2(a: nat, b: nat) -> nat {
    permutation((0, a, b)).0
}

/// `poseidon2` is the first element of the permuted `[0, a, b]`.
pub proof fn lemma_poseidon2_unfold(a: nat, b: nat)
    ensures
        poseidon2(a, b) == permutation((0, a, b)).0,
{
}

/// The sponge state after absorbing the first `c` chunks of two inputs each.
pub open spec fn absorb(inputs: Seq<nat>, c: nat) -> PState
    decreases c,
{
    if c == 0 {
        (0, 0, 0)
    } else {
        let s = absorb(inputs, (c - 1) as nat);
        let k = 2 * (c - 1);
        let s1 = fadd(s.1, inputs[k]);
        let s2 = if k + 1 < inputs.len() {
            fadd(s.2, inputs[k + 1])
        } else {
            s.2
        };
        permutation((s.0, s1, s2))
    }
}

/// Number of two-input chunks of `n` inputs.
pub open spec fn num_chunks(n: nat) -> nat {
    (n + 1) / 2
}

/// The variable-input Poseidon hash of a nonempty sequence.
pub open spec fn poseidon_hash_spec(inputs: Seq<nat>) -> nat {
    absorb(inputs, num_chunks(inputs.len())).0
}

/// The values of a sequence of field elements.
pub open spec fn vals(s: Seq<Fe>) -> Seq<nat> {
    s.map_values(|x: Fe| x.val())
}

/// Poseidon parameters: round counts, width, round constants and MDS matrix.
pub struct PoseidonParams {
    pub full_rounds: usize,
    pub partial_rounds: usize,
    pub width: usize,
    pub round_constants: Vec<Fe>,
    pub mds_matrix: Vec<Vec<Fe>>,
}

impl PoseidonParams {
    /// The parameters hold the standard constants.
    pub open spec fn wf(&self) -> bool {
        &&& self.full_rounds == FULL_ROUNDS
        &&& self.partial_rounds == PARTIAL_ROUNDS
        &&& self.width == WIDTH
        &&& self.round_constants@.len() == NUM_CONSTANTS
        &&& forall|i: int|
            0 <= i < NUM_CONSTANTS ==> #[trigger] self.round_constants@[i].val() == round_constant(
                i as nat,
            )
        &&& self.mds_matrix@.len() == WIDTH
        &&& forall|i: int| 0 <= i < WIDTH ==> #[trigger] self.mds_matrix@[i]@.len() == WIDTH
        &&& forall|i: int, j: int|
            0 <= i < WIDTH && 0 <= j < WIDTH ==> #[trigger] self.mds_matrix@[i]@[j].val()
                == mds_entry(i as nat, j as nat)
    }

    /// Builds the standard parameters.
    pub fn new() -> (r: PoseidonParams)
        ensures
            r.wf(),
    {
        PoseidonParams {
            full_rounds: FULL_ROUNDS,
            partial_rounds: PARTIAL_ROUNDS,
            width: WIDTH,
            round_constants: get_round_constants(),
            mds_matrix: get_mds_matrix(),
        }
    }
}

/// A Poseidon hasher.
pub struct Poseidon {
    params: PoseidonParams,
}

impl Poseidon {
    pub closed spec fn wf(&self) -> bool {
        self.params.wf()
    }

    /// Creates a hasher with the standard parameters.
    pub fn new() -> (r: Poseidon)
        ensures
            r.wf(),
    {
        Poseidon { params: PoseidonParams::new() }
    }

    fn sbox(x: &Fe) -> (r: Fe)
        ensures
            r.val() == sbox(x.val()),
    {
        let x2 = x.mul(x);
        let x4 = x2.mul(&x2);
        x4.mul(x)
    }

    fn mds_multiply(&self, s0: &Fe, s1: &Fe, s2: &Fe) -> (r: (Fe, Fe, Fe))
        requires
            self.wf(),
        ensures
            (r.0.val(), r.1.val(), r.2.val()) == mds_apply((s0.val(), s1.val(), s2.val())),
    {
        let m = &self.params.mds_matrix;
        let r0 = m[0][0].mul(s0).add(&m[0][1].mul(s1)).add(&m[0][2].mul(s2));
        let r1 = m[1][0].mul(s0).add(&m[1][1].mul(s1)).add(&m[1][2].mul(s2));
        let r2 = m[2][0].mul(s0).add(&m[2][1].mul(s1)).add(&m[2][2].mul(s2));
        (r0, r1, r2)
    }

    fn apply_round(&self, s: (Fe, Fe, Fe), r: usize) -> (out: (Fe, Fe, Fe))
        requires
            self.wf(),
            r < num_rounds(),
        ensures
            (out.0.val(), out.1.val(), out.2.val()) == round((s.0.val(), s.1.val(), s.2.val()), r as nat),
    {
        let rc = &self.params.round_constants;
        let a0 = s.0.add(&rc[3 * r]);
        let a1 = s.1.add(&rc[3 * r + 1]);
        let a2 = s.2.add(&rc[3 * r + 2]);
        if r < 4 || r >= 61 {
            self.mds_multiply(&Self::sbox(&a0), &Self::sbox(&a1), &Self::sbox(&a2))
        } else {
            self.mds_multiply(&Self::sbox(&a0), &a1, &a2)
        }
    }

    fn permute(&self, s: (Fe, Fe, Fe)) -> (out: (Fe, Fe, Fe))
        requires
            self.wf(),
        ensures
            (out.0.val(), out.1.val(), out.2.val()) == permutation((s.0.val(), s.1.val(), s.2.val())),
    {
        let ghost init = (s.0.val(), s.1.val(), s.2.val());
        let mut st = s;
        let mut r: usize = 0;
        while r < FULL_ROUNDS + PARTIAL_ROUNDS
            invariant
                self.wf(),
                r <= num_rounds(),
                (st.0.val(), st.1.val(), st.2.val()) == rounds(init, r as nat),
            decreases num_rounds() - r,
        {
            st = self.apply_round(st, r);
            r = r + 1;
        }
        st
    }

    /// Hashes two field elements.
    pub fn hash2(&self, a: &Fe, b: &Fe) -> (r: Fe)
        requires
            self.wf(),
        ensures
            r.val() == poseidon2(a.val(), b.val()),
    {
        let out = self.permute((Fe::zero(), *a, *b));
        out.0
    }

    /// Hashes a nonempty sequence of field elements; two at a time are absorbed
    /// into the rate part of the state, with a permutation after each chunk.
    pub fn hash(&self, inputs: &[Fe]) -> (r: Result<Fe, PoseidonError>)
        requires
            self.wf(),
        ensures
            inputs@.len() == 0 <==> r matches Err(PoseidonError::EmptyInput),
            inputs@.len() > 0 ==> (r matches Ok(h) && h.val() == poseidon_hash_spec(vals(inputs@))),
    {
        if inputs.len() == 0 {
            return Err(PoseidonError::EmptyInput);
        }
        let ghost v = vals(inputs@);
        let mut st = (Fe::zero(), Fe::zero(), Fe::zero());
        let mut c: usize = 0;
        let n = inputs.len();
        let chunks = n / 2 + n % 2;
        assert(chunks == num_chunks(n as nat));
        while c < chunks
            invariant
                self.wf(),
                n == inputs@.len(),
                v == vals(inputs@),
                chunks == num_chunks(n as nat),
                c <= chunks,
                (st.0.val(), st.1.val(), st.2.val()) == absorb(v, c as nat),
            decreases chunks - c,
        {
            let k = 2 * c;
            let s1 = st.1.add(&inputs[k]);
            let s2 = if k + 1 < n {
                st.2.add(&inputs[k + 1])
            } else {
                st.2
            };
            st = self.permute((st.0, s1, s2));
            c = c + 1;
        }
        assert(c == num_chunks(n as nat));
        Ok(st.0)
    }
}

/// Hashes two field elements with a fresh hasher.
pub fn poseidon_hash2(a: &Fe, b: &Fe) -> (r: Fe)
    ensures
        r.val() == poseidon2(a.val(), b.val()),
{
    Poseidon::new().hash2(a, b)
}

/// Hashes a nonempty sequence of field elements with a fresh hasher.
pub fn poseidon_hash_fields(inputs: &[Fe]) -> (r: Result<Fe, PoseidonError>)
    ensures
        inputs@.len() == 0 <==> r matches Err(PoseidonError::EmptyInput),
        inputs@.len() > 0 ==> (r matches Ok(h) && h.val() == poseidon_hash_spec(vals(inputs@))),
{
    Poseidon::new().hash(inputs)
}

/// Byte strings read as field elements, little-endian modulo the field order.
pub open spec fn bytes_vals(inputs: Seq<Vec<u8>>) -> Seq<nat> {
    inputs.map_values(|b: Vec<u8>| le_nat(b@) % modulus())
}

/// Hashes byte strings of at most 32 bytes each; the digest is 32 bytes little-endian.
pub fn poseidon_hash_bytes(inputs: &[Vec<u8>]) -> (r: Result<Vec<u8>, PoseidonError>)
    ensures
        inputs@.len() == 0 <==> r matches Err(PoseidonError::EmptyInput),
        inputs@.len() > 0 && (exists|i: int| 0 <= i < inputs@.len() && #[trigger] inputs@[i]@.len() > 32)
            <==> r matches Err(PoseidonError::InvalidLength { .. }),
        r matches Err(PoseidonError::InvalidLength { expected, got }) ==> expected == 32 && exists|i: int|
            0 <= i < inputs@.len() && #[trigger] inputs@[i]@.len() == got && got > 32,
        r matches Ok(h) ==> h@.len() == 32 && le_nat(h@) == poseidon_hash_spec(bytes_vals(inputs@)),
        !(r matches Err(PoseidonError::ConversionError)),
{
    if inputs.len() == 0 {
        return Err(PoseidonError::EmptyInput);
    }
    let mut fields: Vec<Fe> = Vec::new();
    let mut i: usize = 0;
    while i < inputs.len()
        invariant
            i <= inputs@.len(),
            fields@.len() == i,
            forall|k: int| 0 <= k < i ==> #[trigger] inputs@[k]@.len() <= 32,
            forall|k: int| 0 <= k < i ==> #[trigger] fields@[k].val() == le_nat(inputs@[k]@) % modulus(),
        decreases inputs@.len() - i,
    {
        let b = &inputs[i];
        if b.len() > 32 {
            return Err(PoseidonError::InvalidLength { expected: 32, got: b.len() });
        }
        fields.push(Fe::from_le_bytes_mod_order(b.as_slice()));
        i = i + 1;
    }
    assert(vals(fields@) =~= bytes_vals(inputs@));
    let h = poseidon_hash_fields(fields.as_slice());
    match h {
        Ok(h) => {
            let bytes = h.to_bytes_le();
            let mut out: Vec<u8> = Vec::new();
            let mut j: usize = 0;
            while j < 32
                invariant
                    j <= 32,
                    out@ =~= bytes@.subrange(0, j as int),
                decreases 32 - j,
            {
                out.push(bytes[j]);
                j = j + 1;
            }
            assert(out@ =~= bytes@);
            Ok(out)
        },
        Err(e) => Err(e),
    }
}

/// Hashes two 32-byte strings read as field elements; the digest is 32 bytes little-endian.
pub fn poseidon_hash_to_bytes32(a: &[u8; 32], b: &[u8; 32]) -> (r: [u8; 32])
    ensures
        le_nat(r@) == poseidon2(le_nat(a@) % modulus(), le_nat(b@) % modulus()),
{
    let x = Fe::from_le_bytes_mod_order(a);
    let y = Fe::from_le_bytes_mod_order(b);
    poseidon_hash2(&x, &y).to_bytes_le()
}

} // verus!
