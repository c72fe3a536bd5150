//! Wire layout of note payloads and encrypted notes.

use vstd::bytes::{spec_u64_from_le_bytes, spec_u64_to_le_bytes, u64_from_le_bytes, u64_to_le_bytes, lemma_auto_spec_u64_to_from_le_bytes};
use ark_ec::{CurveGroup, Group};
use ark_ff::PrimeField;
use ark_serialize::{CanonicalDeserialize, CanonicalSerialize};
use sha2::Digest;
use vstd::prelude::*;

use crate::field::Fe;
use crate::wire::copy_into;

verus! {

/// Size of a serialized note payload: amount (8), blinding (32), asset id (8).
pub const NOTE_DATA_SIZE: usize = 48;

/// Size of the ciphertext: the payload and a 16-byte tag.
pub const CIPHERTEXT_SIZE: usize = 64;

/// Size of the ephemeral public key.
pub const EPHEMERAL_KEY_SIZE: usize = 32;

/// Size of a serialized encrypted note.
pub const ENCRYPTED_NOTE_SIZE: usize = 96;

/// Errors of note encryption and decoding.
#[derive(Debug)]
pub enum EncryptionError {
    InvalidPublicKey,
    InvalidPrivateKey,
    DecryptionFailed,
    InvalidCiphertextLength,
    SerializationError(String),
}

/// The payload of a note that travels encrypted to its recipient.
#[derive(Clone, Copy, Debug)]
pub struct NoteData {
    pub amount: u64,
    pub blinding: [u8; 32],
    pub asset_id: u64,
}

/// The serialized form of a note payload.
pub open spec fn note_data_bytes(d: NoteData) -> Seq<u8> {
    spec_u64_to_le_bytes(d.amount) + d.blinding@ + spec_u64_to_le_bytes(d.asset_id)
}

impl NoteData {
    /// A payload with the given fields.
    pub fn new(amount: u64, blinding: [u8; 32], asset_id: u64) -> (r: NoteData)
        ensures
            r.amount == amount,
            r.blinding == blinding,
            r.asset_id == asset_id,
    {
        NoteData { amount, blinding, asset_id }
    }

    /// Serializes as `amount (8, LE) || blinding (32) || asset_id (8, LE)`.
    pub fn to_bytes(&self) -> (r: [u8; 48])
        ensures
            r@ == note_data_bytes(*self),
    {
        let mut bytes = [0u8; 48];
        let amount = u64_to_le_bytes(self.amount);
        let asset = u64_to_le_bytes(self.asset_id);
        copy_into(&mut bytes, 0, amount.as_slice());
        copy_into(&mut bytes, 8, self.blinding.as_slice());
        copy_into(&mut bytes, 40, asset.as_slice());
        assert(bytes@ =~= note_data_bytes(*self));
        bytes
    }

    /// Reads a payload from the first 48 bytes; fails on a shorter input.
    pub fn from_bytes(bytes: &[u8]) -> (r: Result<NoteData, EncryptionError>)
        ensures
            bytes@.len() < NOTE_DATA_SIZE <==> r matches Err(EncryptionError::InvalidCiphertextLength),
            r matches Ok(d) ==> note_data_bytes(d) == bytes@.subrange(0, 48),
            r is Err ==> r matches Err(EncryptionError::InvalidCiphertextLength),
    {
        if bytes.len() < NOTE_DATA_SIZE {
            return Err(EncryptionError::InvalidCiphertextLength);
        }
        let amount = u64_from_le_bytes(&bytes[0..8]);
        let mut blinding = [0u8; 32];
        copy_into(&mut blinding, 0, &bytes[8..40]);
        let asset_id = u64_from_le_bytes(&bytes[40..48]);
        let d = NoteData { amount, blinding, asset_id };
        proof {
            lemma_auto_spec_u64_to_from_le_bytes();
            assert(spec_u64_to_le_bytes(amount) == bytes@.subrange(0, 8));
            assert(spec_u64_to_le_bytes(asset_id) == bytes@.subrange(40, 48));
            assert(note_data_bytes(d) =~= bytes@.subrange(0, 48));
        }
        Ok(d)
    }
}

/// Decoding a serialized payload gives back the payload.
pub proof fn lemma_note_data_round_trip(d: NoteData)
    ensures
        spec_u64_from_le_bytes(note_data_bytes(d).subrange(0, 8)) == d.amount,
        note_data_bytes(d).subrange(8, 40) == d.blinding@,
        spec_u64_from_le_bytes(note_data_bytes(d).subrange(40, 48)) == d.asset_id,
        note_data_bytes(d).len() == NOTE_DATA_SIZE,
{
    lemma_auto_spec_u64_to_from_le_bytes();
    let b = note_data_bytes(d);
    assert(b.subrange(0, 8) =~= spec_u64_to_le_bytes(d.amount));
    assert(b.subrange(8, 40) =~= d.blinding@);
    assert(b.subrange(40, 48) =~= spec_u64_to_le_bytes(d.asset_id));
}

/// An encrypted note: the ephemeral public key and the ciphertext with its tag.
#[derive(Clone, Copy, Debug)]
pub struct EncryptedNote {
    pub ephemeral_key: [u8; 32],
    pub ciphertext: [u8; 64],
}

impl EncryptedNote {
    /// Serializes as `ephemeral_key (32) || ciphertext (64)`.
    pub fn to_bytes(&self) -> (r: [u8; 96])
        ensures
            r@ == self.ephemeral_key@ + self.ciphertext@,
    {
        let mut bytes = [0u8; 96];
        copy_into(&mut bytes, 0, self.ephemeral_key.as_slice());
        copy_into(&mut bytes, 32, self.ciphertext.as_slice());
        assert(bytes@ =~= self.ephemeral_key@ + self.ciphertext@);
        bytes
    }

    /// Reads an encrypted note from the first 96 bytes; fails on a shorter input.
    pub fn from_bytes(bytes: &[u8]) -> (r: Result<EncryptedNote, EncryptionError>)
        ensures
            bytes@.len() < ENCRYPTED_NOTE_SIZE <==> r is Err,
            r is Err ==> r matches Err(EncryptionError::InvalidCiphertextLength),
            r matches Ok(n) ==> n.ephemeral_key@ == bytes@.subrange(0, 32) && n.ciphertext@
                == bytes@.subrange(32, 96),
    {
        if bytes.len() < ENCRYPTED_NOTE_SIZE {
            return Err(EncryptionError::InvalidCiphertextLength);
        }
        let mut ephemeral_key = [0u8; 32];
        copy_into(&mut ephemeral_key, 0, &bytes[0..32]);
        let mut ciphertext = [0u8; 64];
        copy_into(&mut ciphertext, 0, &bytes[32..96]);
        assert(ephemeral_key@ =~= bytes@.subrange(0, 32));
        assert(ciphertext@ =~= bytes@.subrange(32, 96));
        Ok(EncryptedNote { ephemeral_key, ciphertext })
    }
}

/// The SHA-256 digest of a byte string.
pub uninterp spec fn sha256_of(data: Seq<u8>) -> Seq<u8>;

/// Relies on `sha2::Sha256`: the 32-byte SHA-256 digest of `data`.
#[verifier::external_body]
fn sha256_digest(data: &[u8]) -> (r: [u8; 32])
    ensures
        r@ == sha256_of(data@),
{
    let mut out = [0u8; 32];
    out.copy_from_slice(&sha2::Sha256::digest(data));
    out
}

/// The compressed encoding of `scalar * point` on BN254's G1, where `point` is a
/// compressed encoding and `scalar` is read little-endian modulo the group order;
/// `None` when `point` does not decode.
pub uninterp spec fn ecdh_of(point: Seq<u8>, scalar: Seq<u8>) -> Option<Seq<u8>>;

/// Relies on `ark-ec`/`ark-serialize` for BN254's G1: decode a compressed point,
/// multiply it by a scalar, encode the product compressed.
#[verifier::external_body]
fn ecdh(point: &[u8; 32], scalar: &[u8; 32]) -> (r: Option<[u8; 32]>)
    ensures
        r is Some <==> ecdh_of(point@, scalar@) is Some,
        r matches Some(x) ==> ecdh_of(point@, scalar@) == Some(x@),
{
    let p = ark_bn254::G1Affine::deserialize_compressed(point.as_slice()).ok()?;
    let s = ark_bn254::Fr::from_le_bytes_mod_order(scalar);
    let shared = (ark_bn254::G1Projective::from(p) * s).into_affine();
    let mut out = [0u8; 32];
    shared.serialize_compressed(&mut out[..]).ok()?;
    Some(out)
}

/// The compressed encoding of `scalar * G` for BN254's G1 generator `G`.
pub uninterp spec fn public_key_of(scalar: Seq<u8>) -> Seq<u8>;

/// Relies on `Group::generator` and scalar multiplication for BN254's G1, and
/// on compressed serialization (32 bytes for a G1 point).
#[verifier::external_body]
fn public_key(scalar: &[u8; 32]) -> (r: [u8; 32])
    ensures
        r@ == public_key_of(scalar@),
{
    let s = ark_bn254::Fr::from_le_bytes_mod_order(scalar);
    let point = (ark_bn254::G1Projective::generator() * s).into_affine();
    let mut out = [0u8; 32];
    point.serialize_compressed(&mut out[..]).expect("a G1 point encodes in 32 bytes");
    out
}

/// ASCII bytes of `NYX_NOTE_ENCRYPTION_V1`.
pub open spec fn encryption_domain() -> Seq<u8> {
    seq![78u8, 89, 88, 95, 78, 79, 84, 69, 95, 69, 78, 67, 82, 89, 80, 84, 73, 79, 78, 95, 86, 49]
}

/// ASCII bytes of `symmetric_key`.
pub open spec fn key_suffix() -> Seq<u8> {
    seq![115u8, 121, 109, 109, 101, 116, 114, 105, 99, 95, 107, 101, 121]
}

/// ASCII bytes of `stream`.
pub open spec fn stream_suffix() -> Seq<u8> {
    seq![115u8, 116, 114, 101, 97, 109]
}

/// The symmetric key derived from a shared point.
pub open spec fn symmetric_key_of(shared: Seq<u8>) -> Seq<u8> {
    sha256_of(encryption_domain() + shared + key_suffix())
}

/// The key stream: `SHA-256(key || "stream")`.
pub open spec fn key_stream(key: Seq<u8>) -> Seq<u8> {
    sha256_of(key + stream_suffix())
}

/// Each payload byte XOR-ed with the key stream.
pub open spec fn xor_stream(key: Seq<u8>, data: Seq<u8>) -> Seq<u8> {
    Seq::new(NOTE_DATA_SIZE as nat, |i: int| data[i] ^ key_stream(key)[i % 32])
}

/// The tag: the first 16 bytes of `SHA-256(key || body)`.
pub open spec fn tag_of(key: Seq<u8>, body: Seq<u8>) -> Seq<u8> {
    Seq::new(16, |i: int| sha256_of(key + body)[i])
}

/// The ciphertext of a 48-byte payload: the XOR-ed body and its tag.
pub open spec fn seal(key: Seq<u8>, plaintext: Seq<u8>) -> Seq<u8> {
    xor_stream(key, plaintext) + tag_of(key, xor_stream(key, plaintext))
}

/// The payload of a 64-byte ciphertext whose tag matches, else `None`.
pub open spec fn open_sealed(key: Seq<u8>, ciphertext: Seq<u8>) -> Option<Seq<u8>> {
    let body = ciphertext.subrange(0, 48);
    if ciphertext.subrange(48, 64) == tag_of(key, body) {
        Some(xor_stream(key, body))
    } else {
        None
    }
}

fn concat3(a: &[u8], b: &[u8], c: &[u8]) -> (r: Vec<u8>)
    ensures
        r@ == a@ + b@ + c@,
{
    let mut v: Vec<u8> = Vec::new();
    let mut k: usize = 0;
    while k < a.len()
        invariant
            k <= a@.len(),
            v@ == a@.subrange(0, k as int),
        decreases a@.len() - k,
    {
        v.push(a[k]);
        k = k + 1;
    }
    k = 0;
    while k < b.len()
        invariant
            k <= b@.len(),
            v@ == a@ + b@.subrange(0, k as int),
        decreases b@.len() - k,
    {
        v.push(b[k]);
        k = k + 1;
    }
    k = 0;
    while k < c.len()
        invariant
            k <= c@.len(),
            v@ == a@ + b@ + c@.subrange(0, k as int),
        decreases c@.len() - k,
    {
        v.push(c[k]);
        k = k + 1;
    }
    assert(a@.subrange(0, a@.len() as int) =~= a@);
    assert(b@.subrange(0, b@.len() as int) =~= b@);
    assert(c@.subrange(0, c@.len() as int) =~= c@);
    v
}

/// Derives the symmetric key from a shared point.
fn derive_symmetric_key(shared: &[u8; 32]) -> (r: [u8; 32])
    ensures
        r@ == symmetric_key_of(shared@),
{
    let domain: Vec<u8> = vec![78u8, 89, 88, 95, 78, 79, 84, 69, 95, 69, 78, 67, 82, 89, 80, 84, 73, 79, 78, 95, 86, 49];
    let suffix: Vec<u8> = vec![115u8, 121, 109, 109, 101, 116, 114, 105, 99, 95, 107, 101, 121];
    let data = concat3(domain.as_slice(), shared.as_slice(), suffix.as_slice());
    assert(domain@ =~= encryption_domain());
    assert(suffix@ =~= key_suffix());
    sha256_digest(data.as_slice())
}

fn stream_of(key: &[u8; 32]) -> (r: [u8; 32])
    ensures
        r@ == key_stream(key@),
{
    let suffix: Vec<u8> = vec![115u8, 116, 114, 101, 97, 109];
    let empty: Vec<u8> = Vec::new();
    let data = concat3(key.as_slice(), suffix.as_slice(), empty.as_slice());
    assert(suffix@ =~= stream_suffix());
    assert(data@ =~= key@ + stream_suffix());
    sha256_digest(data.as_slice())
}

fn tag(key: &[u8; 32], body: &[u8]) -> (r: [u8; 32])
    ensures
        r@ == sha256_of(key@ + body@),
{
    let empty: Vec<u8> = Vec::new();
    let data = concat3(key.as_slice(), body, empty.as_slice());
    assert(data@ =~= key@ + body@);
    sha256_digest(data.as_slice())
}

/// Encrypts a 48-byte payload under `key`: XOR with the key stream, then the tag.
pub fn seal_payload(key: &[u8; 32], plaintext: &[u8; 48]) -> (r: [u8; 64])
    ensures
        r@ == seal(key@, plaintext@),
{
    let stream = stream_of(key);
    let mut body = [0u8; 48];
    let mut i: usize = 0;
    while i < NOTE_DATA_SIZE
        invariant
            i <= NOTE_DATA_SIZE,
            stream@ == key_stream(key@),
            forall|k: int| 0 <= k < i ==> #[trigger] body@[k] == plaintext@[k] ^ stream@[k % 32],
        decreases NOTE_DATA_SIZE - i,
    {
        body[i] = plaintext[i] ^ stream[i % 32];
        i = i + 1;
    }
    assert(body@ =~= xor_stream(key@, plaintext@));
    let mac = tag(key, body.as_slice());
    let mut out = [0u8; 64];
    copy_into(&mut out, 0, body.as_slice());
    copy_into(&mut out, 48, &mac[0..16]);
    assert(out@ =~= seal(key@, plaintext@));
    out
}

/// Decrypts a 64-byte ciphertext under `key`; fails when the tag does not match.
pub fn open_payload(key: &[u8; 32], ciphertext: &[u8; 64]) -> (r: Result<[u8; 48], EncryptionError>)
    ensures
        open_sealed(key@, ciphertext@) is Some <==> r is Ok,
        r matches Ok(p) ==> open_sealed(key@, ciphertext@) == Some(p@),
        r is Err ==> r matches Err(EncryptionError::DecryptionFailed),
{
    let body = &ciphertext[0..48];
    let mac = tag(key, body);
    let mut k: usize = 0;
    while k < 16
        invariant
            k <= 16,
            body@ == ciphertext@.subrange(0, 48),
            mac@ == sha256_of(key@ + body@),
            forall|a: int| 0 <= a < k ==> #[trigger] mac@[a] == ciphertext@[48 + a],
        decreases 16 - k,
    {
        if mac[k] != ciphertext[48 + k] {
            assert(tag_of(key@, body@)[k as int] == mac@[k as int]);
            assert(ciphertext@.subrange(48, 64)[k as int] != tag_of(key@, body@)[k as int]);
            return Err(EncryptionError::DecryptionFailed);
        }
        k = k + 1;
    }
    assert(ciphertext@.subrange(48, 64) =~= tag_of(key@, ciphertext@.subrange(0, 48)));
    let stream = stream_of(key);
    let mut plain = [0u8; 48];
    let mut i: usize = 0;
    while i < NOTE_DATA_SIZE
        invariant
            i <= NOTE_DATA_SIZE,
            stream@ == key_stream(key@),
            forall|a: int| 0 <= a < i ==> #[trigger] plain@[a] == ciphertext@[a] ^ stream@[a % 32],
        decreases NOTE_DATA_SIZE - i,
    {
        plain[i] = ciphertext[i] ^ stream[i % 32];
        i = i + 1;
    }
    assert(plain@ =~= xor_stream(key@, ciphertext@.subrange(0, 48)));
    Ok(plain)
}

/// Opening a sealed payload under the same key gives back the payload.
pub proof fn lemma_seal_round_trip(key: Seq<u8>, plaintext: Seq<u8>)
    requires
        plaintext.len() == NOTE_DATA_SIZE,
    ensures
        open_sealed(key, seal(key, plaintext)) == Some(plaintext),
{
    let c = seal(key, plaintext);
    let body = xor_stream(key, plaintext);
    assert(c.subrange(0, 48) =~= body);
    assert(c.subrange(48, 64) =~= tag_of(key, body));
    let s = key_stream(key);
    assert forall|i: int| 0 <= i < 48 implies #[trigger] xor_stream(key, body)[i] == plaintext[i] by {
        let p = plaintext[i];
        let k = s[i % 32];
        assert((p ^ k) ^ k == p) by (bit_vector);
    }
    assert(xor_stream(key, body) =~= plaintext);
}

/// A note payload sealed under the key derived from a shared point opens, under
/// the same shared point, to the payload's bytes, which decode to the payload.
pub proof fn lemma_note_encryption_round_trip(d: NoteData, shared: Seq<u8>)
    ensures
        open_sealed(symmetric_key_of(shared), seal(symmetric_key_of(shared), note_data_bytes(d)))
            == Some(note_data_bytes(d)),
        note_data_bytes(d).len() == NOTE_DATA_SIZE,
        spec_u64_from_le_bytes(note_data_bytes(d).subrange(0, 8)) == d.amount,
        note_data_bytes(d).subrange(8, 40) == d.blinding@,
        spec_u64_from_le_bytes(note_data_bytes(d).subrange(40, 48)) == d.asset_id,
{
    lemma_note_data_round_trip(d);
    lemma_seal_round_trip(symmetric_key_of(shared), note_data_bytes(d));
}

/// A keypair for note encryption over BN254's G1.
#[derive(Clone, Copy, Debug)]
pub struct EncryptionKeypair {
    private_key: [u8; 32],
    public_key: [u8; 32],
}

impl EncryptionKeypair {
    pub closed spec fn secret(&self) -> Seq<u8> {
        self.private_key@
    }

    pub closed spec fn public(&self) -> Seq<u8> {
        self.public_key@
    }

    /// The keypair whose private scalar is `secret` read little-endian modulo the order.
    pub fn from_secret(secret: &[u8; 32]) -> (r: EncryptionKeypair)
        ensures
            crate::field::le_nat(r.secret()) == crate::field::le_nat(secret@) % crate::field::modulus(),
            r.public() == public_key_of(r.secret()),
    {
        let private_key = Fe::from_le_bytes_mod_order(secret).to_bytes_le();
        let public_key = public_key(&private_key);
        EncryptionKeypair { private_key, public_key }
    }

    /// The compressed public key.
    pub fn public_key_bytes(&self) -> (r: [u8; 32])
        ensures
            r@ == self.public(),
    {
        self.public_key
    }

    /// The private scalar, 32 bytes little-endian.
    pub fn private_key_bytes(&self) -> (r: [u8; 32])
        ensures
            r@ == self.secret(),
    {
        self.private_key
    }
}

/// Encrypts a payload for `recipient_pubkey` with the ephemeral scalar
/// `ephemeral_secret`; fails with `InvalidPublicKey` when the key does not decode.
pub fn encrypt_note(note_data: &NoteData, recipient_pubkey: &[u8; 32], ephemeral_secret: &[u8; 32]) -> (r: Result<EncryptedNote, EncryptionError>)
    ensures
        ecdh_of(recipient_pubkey@, ephemeral_secret@) is None <==> r is Err,
        r is Err ==> r matches Err(EncryptionError::InvalidPublicKey),
        r matches Ok(e) ==> e.ephemeral_key@ == public_key_of(ephemeral_secret@) && e.ciphertext@ == seal(
            symmetric_key_of(ecdh_of(recipient_pubkey@, ephemeral_secret@).unwrap()),
            note_data_bytes(*note_data),
        ),
{
    let shared = match ecdh(recipient_pubkey, ephemeral_secret) {
        Some(s) => s,
        None => {
            return Err(EncryptionError::InvalidPublicKey);
        },
    };
    let key = derive_symmetric_key(&shared);
    let plaintext = note_data.to_bytes();
    let ciphertext = seal_payload(&key, &plaintext);
    let ephemeral_key = public_key(ephemeral_secret);
    Ok(EncryptedNote { ephemeral_key, ciphertext })
}

/// Decrypts a note with the recipient's private scalar; fails with
/// `InvalidPublicKey` when the ephemeral key does not decode and with
/// `DecryptionFailed` when the tag does not match.
pub fn decrypt_note(encrypted_note: &EncryptedNote, private_key: &[u8; 32]) -> (r: Result<NoteData, EncryptionError>)
    ensures
        ecdh_of(encrypted_note.ephemeral_key@, private_key@) is None ==> r matches Err(EncryptionError::InvalidPublicKey),
        ecdh_of(encrypted_note.ephemeral_key@, private_key@) matches Some(shared) ==> (
            open_sealed(symmetric_key_of(shared), encrypted_note.ciphertext@) matches Some(p)
                ==> (r matches Ok(d) && note_data_bytes(d) == p)),
        ecdh_of(encrypted_note.ephemeral_key@, private_key@) matches Some(shared) ==> (
            open_sealed(symmetric_key_of(shared), encrypted_note.ciphertext@) is None
                ==> r matches Err(EncryptionError::DecryptionFailed)),
{
    let shared = match ecdh(&encrypted_note.ephemeral_key, private_key) {
        Some(s) => s,
        None => {
            return Err(EncryptionError::InvalidPublicKey);
        },
    };
    let key = derive_symmetric_key(&shared);
    let plaintext = match open_payload(&key, &encrypted_note.ciphertext) {
        Ok(p) => p,
        Err(e) => {
            return Err(e);
        },
    };
    let r = NoteData::from_bytes(&plaintext);
    proof {
        assert(plaintext@.subrange(0, 48) =~= plaintext@);
    }
    r
}

} // verus!
