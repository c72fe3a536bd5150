//! Groth16 proof and verifying-key wire formats, and the byte-order bridge
//! between the off-chain library (little-endian) and the on-chain verifier
//! (big-endian).

use vstd::prelude::*;
use vstd::string::StringExecFns;

use crate::wire::{copy_into, words_reversed, write_words_reversed};

verus! {

/// Size of a Groth16 proof: `A (64) || B (128) || C (64)`.
pub const PROOF_SIZE: usize = 256;

/// Size of a signature-mode proof: `signature (64) || public key (32)`.
pub const MVP_PROOF_SIZE: usize = 96;

/// Number of public inputs of the transfer circuit.
pub const NUM_PUBLIC_INPUTS: usize = 3;

/// Errors of proof handling.
#[derive(Debug)]
pub enum ProofError {
    InvalidWitness,
    GenerationFailed(String),
    VerificationFailed(String),
    SerializationError(String),
    SetupError(String),
    InvalidProvingKey,
    InvalidVerifyingKey,
}

/// A serialized Groth16 proof of exactly 256 bytes.
#[derive(Clone, Debug)]
pub struct SerializedProof {
    pub bytes: Vec<u8>,
}

impl SerializedProof {
    /// Accepts exactly 256 bytes.
    pub fn from_bytes(bytes: Vec<u8>) -> (r: Result<SerializedProof, ProofError>)
        ensures
            bytes@.len() == PROOF_SIZE <==> r is Ok,
            r matches Ok(p) ==> p.bytes@ == bytes@,
            r is Err ==> r matches Err(ProofError::SerializationError(_)),
    {
        if bytes.len() != PROOF_SIZE {
            return Err(ProofError::SerializationError("Expected 256 bytes".to_string()));
        }
        Ok(SerializedProof { bytes })
    }

    /// The raw bytes.
    pub fn as_bytes(&self) -> (r: &[u8])
        ensures
            r@ == self.bytes@,
    {
        self.bytes.as_slice()
    }
}

/// A proof in the on-chain verifier's big-endian form.
#[derive(Clone, Copy, Debug)]
pub struct SolanaProof {
    /// Point A (negated), 64 bytes.
    pub a: [u8; 64],
    /// Point B, 128 bytes.
    pub b: [u8; 128],
    /// Point C, 64 bytes.
    pub c: [u8; 64],
}

impl SolanaProof {
    /// `a || b || c`, 256 bytes.
    pub fn to_bytes(&self) -> (r: [u8; 256])
        ensures
            r@ == self.a@ + self.b@ + self.c@,
    {
        let mut bytes = [0u8; 256];
        copy_into(&mut bytes, 0, self.a.as_slice());
        copy_into(&mut bytes, 64, self.b.as_slice());
        copy_into(&mut bytes, 192, self.c.as_slice());
        assert(bytes@ =~= self.a@ + self.b@ + self.c@);
        bytes
    }
}

/// A verifying key in the on-chain verifier's big-endian form.
#[derive(Clone, Debug)]
pub struct SolanaVerifyingKey {
    pub alpha_g1: [u8; 64],
    pub beta_g2: [u8; 128],
    pub gamma_g2: [u8; 128],
    pub delta_g2: [u8; 128],
    /// One element per public input, plus one.
    pub ic: Vec<[u8; 64]>,
}

/// The decimal digit character of `d < 10`.
pub open spec fn digit_char(d: nat) -> char {
    if d == 0 { '0' } else if d == 1 { '1' } else if d == 2 { '2' } else if d == 3 { '3' }
    else if d == 4 { '4' } else if d == 5 { '5' } else if d == 6 { '6' } else if d == 7 { '7' }
    else if d == 8 { '8' } else { '9' }
}

/// Decimal text of a natural number, without leading zeros.
pub open spec fn decimal(n: nat) -> Seq<char>
    decreases n,
{
    if n < 10 {
        seq![digit_char(n)]
    } else {
        decimal(n / 10) + seq![digit_char(n % 10)]
    }
}

/// The items of a byte list in decimal, separated by `", "`.
pub open spec fn list_items(s: Seq<u8>) -> Seq<char>
    decreases s.len(),
{
    if s.len() == 0 {
        Seq::empty()
    } else if s.len() == 1 {
        decimal(s[0] as nat)
    } else {
        list_items(s.drop_last()) + seq![',', ' '] + decimal(s.last() as nat)
    }
}

/// A byte list as `[a, b, c]`.
pub open spec fn list_text(s: Seq<u8>) -> Seq<char> {
    seq!['['] + list_items(s) + seq![']']
}

fn digit_str(d: u64) -> (r: &'static str)
    requires
        d < 10,
    ensures
        r@ == seq![digit_char(d as nat)],
{
    if d == 0 { proof { reveal_strlit("0"); } "0" }
    else if d == 1 { proof { reveal_strlit("1"); } "1" }
    else if d == 2 { proof { reveal_strlit("2"); } "2" }
    else if d == 3 { proof { reveal_strlit("3"); } "3" }
    else if d == 4 { proof { reveal_strlit("4"); } "4" }
    else if d == 5 { proof { reveal_strlit("5"); } "5" }
    else if d == 6 { proof { reveal_strlit("6"); } "6" }
    else if d == 7 { proof { reveal_strlit("7"); } "7" }
    else if d == 8 { proof { reveal_strlit("8"); } "8" }
    else { proof { reveal_strlit("9"); } "9" }
}

fn push_decimal(out: &mut String, n: u64)
    ensures
        final(out)@ == old(out)@ + decimal(n as nat),
    decreases n,
{
    if n >= 10 {
        push_decimal(out, n / 10);
    }
    out.append(digit_str(n % 10));
    proof {
        if n < 10 {
            assert(n % 10 == n);
        }
    }
}

fn push_list(out: &mut String, s: &[u8])
    ensures
        final(out)@ == old(out)@ + list_text(s@),
{
    proof { reveal_strlit("["); reveal_strlit("]"); reveal_strlit(", "); }
    out.append("[");
    let ghost start = out@;
    let mut k: usize = 0;
    while k < s.len()
        invariant
            k <= s@.len(),
            start == old(out)@ + seq!['['],
            out@ == start + list_items(s@.subrange(0, k as int)),
        decreases s@.len() - k,
    {
        let ghost before = out@;
        if k > 0 {
            out.append(", ");
            proof { reveal_strlit(", "); }
            assert(out@ == before + seq![',', ' ']);
        }
        push_decimal(out, s[k] as u64);
        proof {
            reveal_strlit(", ");
            let t = s@.subrange(0, k + 1);
            assert(t.drop_last() =~= s@.subrange(0, k as int));
            assert(t.last() == s@[k as int]);
            if k == 0 {
                assert(list_items(s@.subrange(0, 0)) =~= Seq::<char>::empty());
            }
            assert(out@ =~= start + list_items(t));
        }
        k = k + 1;
    }
    assert(s@.subrange(0, s@.len() as int) =~= s@);
    out.append("]");
    assert(out@ =~= old(out)@ + list_text(s@));
}

/// The line `pub const NAME: [u8; N] = [..];` followed by a blank line.
pub open spec fn const_line(name: Seq<char>, len: nat, bytes: Seq<u8>) -> Seq<char> {
    "pub const "@ + name + ": [u8; "@ + decimal(len) + "] = "@ + list_text(bytes) + ";\n\n"@
}

/// The IC entries, one indented line each.
pub open spec fn ic_lines(ic: Seq<[u8; 64]>) -> Seq<char>
    decreases ic.len(),
{
    if ic.len() == 0 {
        Seq::empty()
    } else {
        ic_lines(ic.drop_last()) + "    "@ + list_text(ic.last()@) + ",\n"@
    }
}

/// The Rust source that embeds a verifying key.
pub open spec fn vk_source(vk: SolanaVerifyingKey) -> Seq<char> {
    "// Groth16 verifying key of the transfer circuit\n\n"@
        + const_line("ALPHA_G1"@, 64, vk.alpha_g1@)
        + const_line("BETA_G2"@, 128, vk.beta_g2@)
        + const_line("GAMMA_G2"@, 128, vk.gamma_g2@)
        + const_line("DELTA_G2"@, 128, vk.delta_g2@)
        + "pub const IC: [[u8; 64]; "@ + decimal(vk.ic@.len() as nat) + "] = [\n"@
        + ic_lines(vk.ic@)
        + "];\n"@
}

fn push_const(out: &mut String, name: &str, bytes: &[u8])
    ensures
        final(out)@ == old(out)@ + const_line(name@, bytes@.len(), bytes@),
{
    out.append("pub const ");
    out.append(name);
    out.append(": [u8; ");
    push_decimal(out, bytes.len() as u64);
    out.append("] = ");
    push_list(out, bytes);
    out.append(";\n\n");
    assert(out@ =~= old(out)@ + const_line(name@, bytes@.len(), bytes@));
}

impl SolanaVerifyingKey {
    /// Rust source declaring the key's points as byte-array constants, for
    /// embedding in the on-chain verifier.
    pub fn to_rust_code(&self) -> (r: String)
        ensures
            r@ == vk_source(*self),
    {
        let mut code = String::new();
        code.append("// Groth16 verifying key of the transfer circuit\n\n");
        push_const(&mut code, "ALPHA_G1", self.alpha_g1.as_slice());
        push_const(&mut code, "BETA_G2", self.beta_g2.as_slice());
        push_const(&mut code, "GAMMA_G2", self.gamma_g2.as_slice());
        push_const(&mut code, "DELTA_G2", self.delta_g2.as_slice());
        code.append("pub const IC: [[u8; 64]; ");
        push_decimal(&mut code, self.ic.len() as u64);
        code.append("] = [\n");
        let ghost head = code@;
        let mut k: usize = 0;
        while k < self.ic.len()
            invariant
                k <= self.ic@.len(),
                code@ == head + ic_lines(self.ic@.subrange(0, k as int)),
            decreases self.ic@.len() - k,
        {
            code.append("    ");
            push_list(&mut code, self.ic[k].as_slice());
            code.append(",\n");
            proof {
                let t = self.ic@.subrange(0, k + 1);
                assert(t.drop_last() =~= self.ic@.subrange(0, k as int));
                assert(code@ =~= head + ic_lines(t));
            }
            k = k + 1;
        }
        assert(self.ic@.subrange(0, self.ic@.len() as int) =~= self.ic@);
        code.append("];\n");
        assert(code@ =~= vk_source(*self));
        code
    }
}

/// Converts a 64-byte G1 point from little-endian to big-endian coordinates.
pub fn g1_le_to_be(le_bytes: &[u8]) -> (r: Result<[u8; 64], ProofError>)
    ensures
        le_bytes@.len() == 64 <==> r is Ok,
        r matches Ok(be) ==> be@ == words_reversed(le_bytes@),
        r is Err ==> r matches Err(ProofError::SerializationError(_)),
{
    if le_bytes.len() != 64 {
        return Err(ProofError::SerializationError("G1 point should be 64 bytes".to_string()));
    }
    let mut be = [0u8; 64];
    write_words_reversed(&mut be, le_bytes);
    Ok(be)
}

/// Converts a 128-byte G2 point from little-endian to big-endian coordinates,
/// one 32-byte word at a time (`x.c0, x.c1, y.c0, y.c1`).
pub fn g2_le_to_be(le_bytes: &[u8]) -> (r: Result<[u8; 128], ProofError>)
    ensures
        le_bytes@.len() == 128 <==> r is Ok,
        r matches Ok(be) ==> be@ == words_reversed(le_bytes@),
        r is Err ==> r matches Err(ProofError::SerializationError(_)),
{
    if le_bytes.len() != 128 {
        return Err(ProofError::SerializationError("G2 point should be 128 bytes".to_string()));
    }
    let mut be = [0u8; 128];
    write_words_reversed(&mut be, le_bytes);
    Ok(be)
}

/// Reverses a 32-byte word.
pub fn le_to_be_32(le_bytes: &[u8; 32]) -> (r: [u8; 32])
    ensures
        r@ == words_reversed(le_bytes@),
        forall|i: int| 0 <= i < 32 ==> #[trigger] r@[i] == le_bytes@[31 - i],
{
    let mut be = [0u8; 32];
    write_words_reversed(&mut be, le_bytes);
    be
}

/// Reverses each 32-byte word of a G1 point.
pub fn le_to_be_g1(le_bytes: &[u8; 64]) -> (r: [u8; 64])
    ensures
        r@ == words_reversed(le_bytes@),
{
    let mut be = [0u8; 64];
    write_words_reversed(&mut be, le_bytes);
    be
}

/// Reverses each 32-byte word of a G2 point.
pub fn le_to_be_g2(le_bytes: &[u8; 128]) -> (r: [u8; 128])
    ensures
        r@ == words_reversed(le_bytes@),
{
    let mut be = [0u8; 128];
    write_words_reversed(&mut be, le_bytes);
    be
}

/// Reversing each word twice gives back the input.
pub proof fn lemma_words_reversed_involution(s: Seq<u8>)
    requires
        s.len() % 32 == 0,
    ensures
        words_reversed(words_reversed(s)) == s,
{
    let w = words_reversed(s);
    assert forall|i: int| 0 <= i < s.len() implies #[trigger] words_reversed(w)[i] == s[i] by {
        let j = 32 * (i / 32) + 31 - i % 32;
        assert(j / 32 == i / 32 && j % 32 == 31 - i % 32);
        assert(32 * (i / 32) + 31 - i % 32 < s.len()) by {
            assert(i / 32 < s.len() / 32);
        }
    }
    assert(words_reversed(w) =~= s);
}

/// A Groth16 proof as three points.
#[derive(Clone, Copy, Debug)]
pub struct Groth16Proof {
    pub a: [u8; 64],
    pub b: [u8; 128],
    pub c: [u8; 64],
}

impl Groth16Proof {
    /// Reads a proof from the first 256 bytes; `None` on a shorter input.
    pub fn from_bytes(bytes: &[u8]) -> (r: Option<Groth16Proof>)
        ensures
            bytes@.len() >= PROOF_SIZE <==> r is Some,
            r matches Some(p) ==> p.a@ + p.b@ + p.c@ == bytes@.subrange(0, 256),
    {
        if bytes.len() < PROOF_SIZE {
            return None;
        }
        let mut a = [0u8; 64];
        let mut b = [0u8; 128];
        let mut c = [0u8; 64];
        copy_into(&mut a, 0, &bytes[0..64]);
        copy_into(&mut b, 0, &bytes[64..192]);
        copy_into(&mut c, 0, &bytes[192..256]);
        assert(a@ + b@ + c@ =~= bytes@.subrange(0, 256));
        Some(Groth16Proof { a, b, c })
    }

    /// `a || b || c`, 256 bytes.
    pub fn to_bytes(&self) -> (r: [u8; 256])
        ensures
            r@ == self.a@ + self.b@ + self.c@,
    {
        let mut bytes = [0u8; 256];
        copy_into(&mut bytes, 0, self.a.as_slice());
        copy_into(&mut bytes, 64, self.b.as_slice());
        copy_into(&mut bytes, 192, self.c.as_slice());
        assert(bytes@ =~= self.a@ + self.b@ + self.c@);
        bytes
    }
}

/// Public inputs of the transfer circuit, in circuit order.
#[derive(Clone, Copy, Debug)]
pub struct TransferPublicInputs {
    pub merkle_root: [u8; 32],
    pub nullifier: [u8; 32],
    pub new_commitment: [u8; 32],
}

impl TransferPublicInputs {
    /// `[merkle_root, nullifier, new_commitment]`.
    pub fn to_verifier_inputs(&self) -> (r: [[u8; 32]; 3])
        ensures
            r@ == seq![self.merkle_root, self.nullifier, self.new_commitment],
    {
        let r = [self.merkle_root, self.nullifier, self.new_commitment];
        assert(r@ =~= seq![self.merkle_root, self.nullifier, self.new_commitment]);
        r
    }
}

/// How a proof is checked, told apart by its length alone.
#[derive(Clone, Copy, Debug, PartialEq, Eq)]
pub enum ProofType {
    Signature,
    Groth16,
}

impl ProofType {
    /// 96 bytes: signature mode; 256 bytes: Groth16; any other length: none.
    pub fn detect(proof: &[u8]) -> (r: Option<ProofType>)
        ensures
            proof@.len() == MVP_PROOF_SIZE <==> r == Some(ProofType::Signature),
            proof@.len() == PROOF_SIZE <==> r == Some(ProofType::Groth16),
            (proof@.len() != MVP_PROOF_SIZE && proof@.len() != PROOF_SIZE) <==> r is None,
    {
        if proof.len() == MVP_PROOF_SIZE {
            Some(ProofType::Signature)
        } else if proof.len() == PROOF_SIZE {
            Some(ProofType::Groth16)
        } else {
            None
        }
    }
}

/// A signature-mode proof.
#[derive(Clone, Copy, Debug)]
pub struct MvpProof {
    pub signature: [u8; 64],
    pub pubkey: [u8; 32],
}

impl MvpProof {
    /// Reads a signature-mode proof from the first 96 bytes; `None` on a shorter input.
    pub fn from_bytes(proof: &[u8]) -> (r: Option<MvpProof>)
        ensures
            proof@.len() >= MVP_PROOF_SIZE <==> r is Some,
            r matches Some(p) ==> p.signature@ == proof@.subrange(0, 64) && p.pubkey@
                == proof@.subrange(64, 96),
    {
        if proof.len() < MVP_PROOF_SIZE {
            return None;
        }
        let mut signature = [0u8; 64];
        let mut pubkey = [0u8; 32];
        copy_into(&mut signature, 0, &proof[0..64]);
        copy_into(&mut pubkey, 0, &proof[64..96]);
        assert(signature@ =~= proof@.subrange(0, 64));
        assert(pubkey@ =~= proof@.subrange(64, 96));
        Some(MvpProof { signature, pubkey })
    }
}

/// Witness of the earlier hex-string transfer interface.
#[derive(Debug, Clone)]
pub struct TransferWitness {
    pub sender_secret: String,
    pub sender_commitment: String,
    pub recipient: String,
    pub amount: u64,
    pub nullifier: String,
}

/// Public inputs of the earlier hex-string transfer interface.
#[derive(Debug, Clone)]
pub struct PublicInputs {
    pub nullifier: String,
    pub new_commitment: String,
    pub root: String,
}

} // verus!
