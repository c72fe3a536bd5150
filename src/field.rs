//! Elements of the BN254 scalar field, held as four canonical 64-bit limbs.
//!
//! Arithmetic is carried out by `ark-bn254`/`ark-ff`; the wrappers below state
//! what each operation returns over the integer value of an element.

use ark_ff::{BigInteger, Field, PrimeField};
use vstd::arithmetic::power::pow;
use vstd::prelude::*;

verus! {

/// The order of the BN254 scalar field.
pub open spec fn modulus() -> nat {
    21888242871839275222246405745257275088548364400416034343698204186575808495617nat
}

/// Field addition on canonical values.
pub open spec fn fadd(a: nat, b: nat) -> nat {
    (a + b) % modulus()
}

/// Field multiplication on canonical values.
pub open spec fn fmul(a: nat, b: nat) -> nat {
    (a * b) % modulus()
}

/// The multiplicative inverse of a nonzero value (Fermat: `a^(p-2) mod p`).
pub open spec fn finv(a: nat) -> nat {
    (pow(a as int, (modulus() - 2) as nat) % (modulus() as int)) as nat
}

/// The integer that a byte string denotes in little-endian order.
pub open spec fn le_nat(s: Seq<u8>) -> nat
    decreases s.len(),
{
    if s.len() == 0 {
        0
    } else {
        s[0] as nat + 256 * le_nat(s.drop_first())
    }
}

pub open spec fn limb_base() -> nat {
    0x1_0000_0000_0000_0000nat
}

/// The integer that four little-endian 64-bit limbs denote.
pub open spec fn limbs_nat(l: Seq<u64>) -> nat {
    l[0] as nat + limb_base() * (l[1] as nat + limb_base() * (l[2] as nat + limb_base()
        * l[3] as nat))
}

/// An element of the BN254 scalar field in canonical form.
#[derive(Clone, Copy, Debug, PartialEq, Eq)]
pub struct Fe {
    limbs: [u64; 4],
}

impl Fe {
    /// The integer value of the element, in `0..modulus()`.
    pub closed spec fn val(&self) -> nat {
        limbs_nat(self.limbs@)
    }

    #[verifier::type_invariant]
    closed spec fn canonical(&self) -> bool {
        self.val() < modulus()
    }

    /// The additive identity.
    pub fn zero() -> (r: Fe)
        ensures
            r.val() == 0,
    {
        Fe { limbs: [0u64; 4] }
    }

    /// The element whose value is `v`.
    pub fn from_u64(v: u64) -> (r: Fe)
        ensures
            r.val() == v as nat,
    {
        Fe { limbs: [v, 0, 0, 0] }
    }

    /// The little-endian integer of `bytes`, reduced modulo the field order.
    pub fn from_le_bytes_mod_order(bytes: &[u8]) -> (r: Fe)
        ensures
            r.val() == le_nat(bytes@) % modulus(),
    {
        fr_from_le_bytes_mod_order(bytes)
    }

    /// The 32 little-endian bytes of the value.
    pub fn to_bytes_le(&self) -> (r: [u8; 32])
        ensures
            le_nat(r@) == self.val(),
    {
        fr_to_bytes_le(self)
    }

    /// The sum modulo the field order.
    pub fn add(&self, other: &Fe) -> (r: Fe)
        ensures
            r.val() == fadd(self.val(), other.val()),
    {
        fr_add(self, other)
    }

    /// The product modulo the field order.
    pub fn mul(&self, other: &Fe) -> (r: Fe)
        ensures
            r.val() == fmul(self.val(), other.val()),
    {
        fr_mul(self, other)
    }

    /// `None` for zero, else the multiplicative inverse.
    pub fn inverse(&self) -> (r: Option<Fe>)
        ensures
            r.is_none() <==> self.val() == 0,
            r matches Some(y) ==> y.val() == finv(self.val()),
    {
        fr_inverse(self)
    }

    /// Whether two elements are equal.
    pub fn equals(&self, other: &Fe) -> (r: bool)
        ensures
            r == (self.val() == other.val()),
    {
        proof {
            lemma_limbs_injective(self.limbs@, other.limbs@);
        }
        self.limbs[0] == other.limbs[0] && self.limbs[1] == other.limbs[1] && self.limbs[2]
            == other.limbs[2] && self.limbs[3] == other.limbs[3]
    }
}

/// Relies on `PrimeField::from_le_bytes_mod_order` for `ark_bn254::Fr`: the
/// little-endian integer of `bytes`, reduced modulo the field order.
#[verifier::external_body]
fn fr_from_le_bytes_mod_order(bytes: &[u8]) -> (r: Fe)
    ensures
        r.val() == le_nat(bytes@) % modulus(),
{
    Fe { limbs: ark_bn254::Fr::from_le_bytes_mod_order(bytes).into_bigint().0 }
}

/// Relies on `BigInteger::to_bytes_le` for `BigInt<4>`: the 32 little-endian
/// bytes of the limbs.
#[verifier::external_body]
fn fr_to_bytes_le(x: &Fe) -> (r: [u8; 32])
    ensures
        le_nat(r@) == x.val(),
{
    let mut out = [0u8; 32];
    out.copy_from_slice(&ark_ff::BigInt::<4>(x.limbs).to_bytes_le());
    out
}

/// Relies on `Add` for `ark_bn254::Fr`: the sum modulo the field order.
#[verifier::external_body]
fn fr_add(a: &Fe, b: &Fe) -> (r: Fe)
    ensures
        r.val() == fadd(a.val(), b.val()),
{
    let x = ark_bn254::Fr::new(ark_ff::BigInt(a.limbs));
    let y = ark_bn254::Fr::new(ark_ff::BigInt(b.limbs));
    Fe { limbs: (x + y).into_bigint().0 }
}

/// Relies on `Mul` for `ark_bn254::Fr`: the product modulo the field order.
#[verifier::external_body]
fn fr_mul(a: &Fe, b: &Fe) -> (r: Fe)
    ensures
        r.val() == fmul(a.val(), b.val()),
{
    let x = ark_bn254::Fr::new(ark_ff::BigInt(a.limbs));
    let y = ark_bn254::Fr::new(ark_ff::BigInt(b.limbs));
    Fe { limbs: (x * y).into_bigint().0 }
}

/// Relies on `Field::inverse` for `ark_bn254::Fr`: `None` for zero, else the
/// inverse, which in a prime field is `a^(p-2)`.
#[verifier::external_body]
fn fr_inverse(a: &Fe) -> (r: Option<Fe>)
    ensures
        r.is_none() <==> a.val() == 0,
        r matches Some(y) ==> y.val() == finv(a.val()),
{
    ark_bn254::Fr::new(ark_ff::BigInt(a.limbs)).inverse().map(|y| Fe { limbs: y.into_bigint().0 })
}

proof fn lemma_digit_split(a: nat, r: nat, b: nat, s: nat)
    requires
        a < limb_base(),
        b < limb_base(),
        a + limb_base() * r == b + limb_base() * s,
    ensures
        a == b,
        r == s,
{
    let m = limb_base();
    assert(r == s) by (nonlinear_arith)
        requires
            a < m,
            b < m,
            a + m * r == b + m * s,
    ;
}

proof fn lemma_limbs_injective(x: Seq<u64>, y: Seq<u64>)
    requires
        x.len() == 4,
        y.len() == 4,
    ensures
        limbs_nat(x) == limbs_nat(y) <==> (x[0] == y[0] && x[1] == y[1] && x[2] == y[2] && x[3]
            == y[3]),
{
    if limbs_nat(x) == limbs_nat(y) {
        let m = limb_base();
        let rx2 = x[2] as nat + m * x[3] as nat;
        let ry2 = y[2] as nat + m * y[3] as nat;
        let rx1 = x[1] as nat + m * rx2;
        let ry1 = y[1] as nat + m * ry2;
        lemma_digit_split(x[0] as nat, rx1, y[0] as nat, ry1);
        lemma_digit_split(x[1] as nat, rx2, y[1] as nat, ry2);
        lemma_digit_split(x[2] as nat, x[3] as nat, y[2] as nat, y[3] as nat);
    }
}

} // verus!
