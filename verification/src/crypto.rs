//! The AEAD chunk codec.
//!
//! Every chunk travels encrypted under XChaCha20-Poly1305 with a 256-bit
//! session key.  The 24-byte nonce is derived deterministically from
//! `(session_id, file_id, chunk_index)` with BLAKE3's derive-key mode, so
//! that retransmitted chunks encrypt to byte-identical ciphertexts and no
//! nonce counter needs synchronising.

use vstd::prelude::*;
use vstd::string::*;

use chacha20poly1305::aead::{Aead, Generate};
use chacha20poly1305::{KeyInit, XChaCha20Poly1305, XNonce};

use crate::errors::{AppError, AppResult};

verus! {

/// What `blake3::derive_key` returns for a context string and key material.
pub uninterp spec fn blake3_derive_of(context: Seq<char>, material: Seq<u8>) -> Seq<u8>;

/// What XChaCha20-Poly1305 sealing returns for a key, a nonce and a
/// plaintext: the ciphertext followed by the 16-byte Poly1305 tag.
pub uninterp spec fn seal_of(key: Seq<u8>, nonce: Seq<u8>, plaintext: Seq<u8>) -> Seq<u8>;

/// What XChaCha20-Poly1305 opening returns for a key, a nonce and a
/// ciphertext: the sealed plaintext, or `None` when the tag does not verify.
pub uninterp spec fn unseal_of(key: Seq<u8>, nonce: Seq<u8>, ciphertext: Seq<u8>) -> Option<
    Seq<u8>,
>;

/// The error type of the `aead` crate, opaque to the engine.
#[verifier::external_type_specification]
#[verifier::external_body]
pub struct ExAeadError(chacha20poly1305::Error);

/// Relies on `blake3::derive_key`: the result is a 32-byte key that depends
/// on the context string and the key material alone.
#[verifier::external_body]
fn blake3_derive(context: &str, material: &[u8]) -> (r: [u8; 32])
    ensures
        r@ == blake3_derive_of(context@, material@),
{
    blake3::derive_key(context, material)
}

/// Relies on `chacha20poly1305::XChaCha20Poly1305` (`Aead::encrypt`): the
/// ciphertext is a function of key, nonce and plaintext alone, 16 bytes (the
/// Poly1305 tag) longer than the plaintext; sealing only fails for
/// plaintexts beyond the ChaCha20 block-counter limit, far above the bound
/// required here.
#[verifier::external_body]
fn aead_seal(key: &[u8; 32], nonce: &[u8; 24], plaintext: &[u8]) -> (r: Vec<u8>)
    requires
        plaintext@.len() <= 0xFFFF_FFFF,
    ensures
        r@ == seal_of(key@, nonce@, plaintext@),
        r@.len() == plaintext@.len() + 16,
        unseal_of(key@, nonce@, r@) == Some(plaintext@),
{
    let cipher = XChaCha20Poly1305::new(&chacha20poly1305::Key::from(*key));
    cipher
        .encrypt(&XNonce::from(*nonce), plaintext)
        .expect("plaintext within AEAD length limit")
}

/// Relies on `chacha20poly1305::XChaCha20Poly1305` (`Aead::decrypt`): opening
/// succeeds exactly on ciphertexts sealed under the same key and nonce — the
/// Poly1305 tag is recomputed from the ciphertext and compared, and the
/// keystream XOR inverts the sealing — and then returns the plaintext that
/// was sealed.
#[verifier::external_body]
fn aead_open(key: &[u8; 32], nonce: &[u8; 24], ciphertext: &[u8]) -> (r: Result<
    Vec<u8>,
    chacha20poly1305::Error,
>)
    requires
        ciphertext@.len() <= 0xFFFF_FFFF,
    ensures
        r matches Ok(p) ==> ciphertext@ == seal_of(key@, nonce@, p@) && p@.len() + 16
            == ciphertext@.len(),
        r matches Ok(p) ==> unseal_of(key@, nonce@, ciphertext@) == Some(p@),
        r is Err ==> unseal_of(key@, nonce@, ciphertext@) is None,
{
    let cipher = XChaCha20Poly1305::new(&chacha20poly1305::Key::from(*key));
    cipher.decrypt(&XNonce::from(*nonce), ciphertext)
}

/// Relies on `chacha20poly1305::Key::generate` (the `aead` crate's
/// `Generate`): a fresh 256-bit key from the system's cryptographic RNG.
#[verifier::external_body]
pub fn generate_key() -> (r: [u8; 32]) {
    let key: chacha20poly1305::Key = chacha20poly1305::Key::generate();
    key.into()
}

/// Big-endian bytes of a `u32`.
pub open spec fn spec_u32_be(x: u32) -> Seq<u8> {
    seq![
        (x / 0x1000000) as u8,
        ((x / 0x10000) % 0x100) as u8,
        ((x / 0x100) % 0x100) as u8,
        (x % 0x100) as u8,
    ]
}

/// Big-endian bytes of a `u128`.
pub open spec fn spec_u128_be(x: u128) -> Seq<u8> {
    Seq::new(
        16,
        |i: int| (((x as int) / vstd::arithmetic::power::pow(0x100, (15 - i) as nat)) % 0x100) as u8,
    )
}

/// The nonce key material: `session_id (16 bytes) ‖ file_id (4 bytes BE) ‖
/// chunk_index (4 bytes BE)`.
pub open spec fn spec_nonce_material(session_id: u128, file_id: u32, chunk_index: u32) -> Seq<u8> {
    spec_u128_be(session_id) + spec_u32_be(file_id) + spec_u32_be(chunk_index)
}

/// The 24-byte nonce of a chunk: the first 24 bytes of BLAKE3-derive-key over
/// the nonce material.  A function of `(session_id, file_id, chunk_index)`
/// alone: equal inputs give equal nonces.
pub open spec fn spec_nonce(session_id: u128, file_id: u32, chunk_index: u32) -> Seq<u8> {
    blake3_derive_of(
        "swarmdrop-transfer-nonce-v1"@,
        spec_nonce_material(session_id, file_id, chunk_index),
    ).take(24)
}

/// Append the big-endian bytes of `x` to `out`.
fn push_u32_be(out: &mut Vec<u8>, x: u32)
    ensures
        final(out)@ == old(out)@ + spec_u32_be(x),
{
    out.push((x >> 24) as u8);
    out.push(((x >> 16) & 0xFF) as u8);
    out.push(((x >> 8) & 0xFF) as u8);
    out.push((x & 0xFF) as u8);
    proof {
        assert(((x >> 24) as u8) == ((x / 0x1000000) as u8) && (((x >> 16) & 0xFF) as u8) == (((x
            / 0x10000) % 0x100) as u8) && (((x >> 8) & 0xFF) as u8) == (((x / 0x100)
            % 0x100) as u8) && ((x & 0xFF) as u8) == ((x % 0x100) as u8)) by (bit_vector);
        assert(out@ =~= old(out)@ + spec_u32_be(x));
    }
}

/// Append the big-endian bytes of `x` to `out`.
fn push_u128_be(out: &mut Vec<u8>, x: u128)
    ensures
        final(out)@ == old(out)@ + spec_u128_be(x),
{
    let mut i: usize = 0;
    while i < 16
        invariant
            i <= 16,
            out@ == old(out)@ + spec_u128_be(x).take(i as int),
        decreases 16 - i,
    {
        let shift: u32 = (8 * (15 - i)) as u32;
        let byte: u8 = ((x >> shift) & 0xFF) as u8;
        proof {
            lemma_u128_shift_byte(x, i as int);
        }
        out.push(byte);
        proof {
            assert(out@ =~= old(out)@ + spec_u128_be(x).take(i + 1));
        }
        i = i + 1;
    }
    proof {
        assert(spec_u128_be(x).take(16) =~= spec_u128_be(x));
    }
}

/// The shift-and-mask read of byte `i` of a `u128` equals its
/// division-and-remainder definition.
proof fn lemma_u128_shift_byte(x: u128, i: int)
    requires
        0 <= i < 16,
    ensures
        ((x >> (8 * (15 - i)) as u128) & 0xFF) as u8 == (((x as int)
            / vstd::arithmetic::power::pow(0x100, (15 - i) as nat)) % 0x100) as u8,
{
    let s = (15 - i) as nat;
    let sh = (8 * (15 - i)) as u128;
    vstd::arithmetic::power2::lemma2_to64();
    vstd::arithmetic::power2::lemma_pow2(8);
    vstd::arithmetic::power2::lemma_pow2(8 * s);
    vstd::arithmetic::power::lemma_pow_multiplies(2, 8, s);
    assert(vstd::arithmetic::power::pow(0x100, s) == vstd::arithmetic::power2::pow2(8 * s));
    vstd::bits::lemma_u128_shr_is_div(x, sh);
    assert(sh as nat == 8 * s);
    assert((x >> sh) == x as nat / vstd::arithmetic::power2::pow2(8 * s));
    assert(((x >> sh) & 0xFF) == (x >> sh) % 0x100) by (bit_vector);
}

/// The transfer cipher: XChaCha20-Poly1305 keyed with the session key.
///
/// The key lives only inside this value and dies with the session.
pub struct TransferCrypto {
    key: [u8; 32],
}

impl TransferCrypto {
    /// The session key, visible to contracts only.
    pub closed spec fn spec_key(&self) -> Seq<u8> {
        self.key@
    }

    /// Build the cipher from a 256-bit session key.
    pub fn new(key: &[u8; 32]) -> (r: Self)
        ensures
            r.spec_key() == key@,
    {
        TransferCrypto { key: *key }
    }

    /// Encrypt one chunk.  The result is a pure function of the key, the
    /// nonce inputs and the plaintext — identical inputs give byte-identical
    /// ciphertexts — is 16 bytes (the Poly1305 tag) longer than the
    /// plaintext, and opens back to the plaintext under the same key and
    /// nonce inputs.
    pub fn encrypt_chunk(
        &self,
        session_id: u128,
        file_id: u32,
        chunk_index: u32,
        plaintext: &[u8],
    ) -> (r: AppResult<Vec<u8>>)
        requires
            plaintext@.len() <= 0xFFFF_FFFF,
        ensures
            r matches Ok(c) && c@ == seal_of(
                self.spec_key(),
                spec_nonce(session_id, file_id, chunk_index),
                plaintext@,
            ) && c@.len() == plaintext@.len() + 16 && unseal_of(
                self.spec_key(),
                spec_nonce(session_id, file_id, chunk_index),
                c@,
            ) == Some(plaintext@),
    {
        let nonce = derive_nonce(session_id, file_id, chunk_index);
        Ok(aead_seal(&self.key, &nonce, plaintext))
    }

    /// Decrypt one chunk.  Succeeds exactly when the ciphertext was sealed
    /// under this key and the nonce of `(session_id, file_id, chunk_index)`,
    /// and then returns the sealed plaintext; any tampered or mismatched
    /// ciphertext is rejected with a `Crypto` error.
    pub fn decrypt_chunk(
        &self,
        session_id: u128,
        file_id: u32,
        chunk_index: u32,
        ciphertext: &[u8],
    ) -> (r: AppResult<Vec<u8>>)
        requires
            ciphertext@.len() <= 0xFFFF_FFFF,
        ensures
            r matches Ok(p) ==> ciphertext@ == seal_of(
                self.spec_key(),
                spec_nonce(session_id, file_id, chunk_index),
                p@,
            ) && p@.len() + 16 == ciphertext@.len(),
            r matches Ok(p) ==> unseal_of(
                self.spec_key(),
                spec_nonce(session_id, file_id, chunk_index),
                ciphertext@,
            ) == Some(p@),
            r matches Err(e) ==> e is Crypto && unseal_of(
                self.spec_key(),
                spec_nonce(session_id, file_id, chunk_index),
                ciphertext@,
            ) is None,
    {
        let nonce = derive_nonce(session_id, file_id, chunk_index);
        match aead_open(&self.key, &nonce, ciphertext) {
            Ok(p) => Ok(p),
            Err(_) => Err(AppError::Crypto(String::from_str("chunk authentication failed"))),
        }
    }
}

/// Derive the 24-byte nonce of a chunk from `(session_id, file_id,
/// chunk_index)`.
pub fn derive_nonce(session_id: u128, file_id: u32, chunk_index: u32) -> (r: [u8; 24])
    ensures
        r@ == spec_nonce(session_id, file_id, chunk_index),
{
    let mut material: Vec<u8> = Vec::new();
    push_u128_be(&mut material, session_id);
    push_u32_be(&mut material, file_id);
    push_u32_be(&mut material, chunk_index);
    let hash = blake3_derive("swarmdrop-transfer-nonce-v1", &material);
    let mut nonce = [0u8; 24];
    let mut i: usize = 0;
    while i < 24
        invariant
            i <= 24,
            hash@ == blake3_derive_of(
                "swarmdrop-transfer-nonce-v1"@,
                spec_nonce_material(session_id, file_id, chunk_index),
            ),
            nonce@.len() == 24,
            forall|j: int| 0 <= j < i ==> nonce@[j] == hash@[j],
        decreases 24 - i,
    {
        nonce[i] = hash[i];
        i = i + 1;
    }
    proof {
        assert(nonce@ =~= spec_nonce(session_id, file_id, chunk_index));
    }
    nonce
}

} // verus!
