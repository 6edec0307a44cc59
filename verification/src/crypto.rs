//! The cryptographic primitives the server relies on, each behind a small
//! trusted item: SHAKE256 (tiny-keccak), X25519 (x25519-dalek), Kyber1024
//! (pqcrypto-kyber), XChaCha20-Poly1305 (chacha20poly1305), the operating
//! system's random source and random UUIDs (uuid).
use vstd::prelude::*;
use chacha20poly1305::aead::rand_core::RngCore;
use chacha20poly1305::aead::{Aead, KeyInit, OsRng};
use pqcrypto_traits::kem::{Ciphertext, PublicKey, SharedSecret};
use tiny_keccak::{Hasher, Xof};

verus! {

/// The first `len` bytes that SHAKE256 squeezes out after absorbing `input`.
pub uninterp spec fn shake256_output(input: Seq<u8>, len: nat) -> Seq<u8>;

/// SHAKE256 of `input`, `out_len` bytes of output (tiny-keccak's
/// `Shake::v256`, one `update`, then `squeeze`).
///
/// Trusted: the output is named `shake256_output(input, out_len)` and has
/// `out_len` bytes. What that name is on given bytes is left to tiny-keccak;
/// absorbing in several `update` calls and squeezing in several calls give
/// the same stream (the crate's `Hasher` and `Xof` documentation), which is
/// why one call here stands for the handshake's updates and two squeezes.
#[verifier::external_body]
pub(crate) fn shake256(input: &[u8], out_len: usize) -> (out: Vec<u8>)
    ensures
        out@ == shake256_output(input@, out_len as nat),
        out@.len() == out_len,
{
    let mut hasher = tiny_keccak::Shake::v256();
    hasher.update(input);
    let mut out = vec![0u8; out_len];
    hasher.squeeze(&mut out);
    out
}

/// X25519 of the scalar `k` and the point `u`, as RFC 7748 defines it
/// (the scalar is clamped).
pub uninterp spec fn x25519_result(k: Seq<u8>, u: Seq<u8>) -> Seq<u8>;

/// The X25519 base point, `9` followed by 31 zero bytes.
pub open spec fn x25519_basepoint() -> Seq<u8> {
    seq![9u8] + Seq::new(31, |i: int| 0u8)
}

/// X25519 of `k` and `u` (x25519-dalek's `x25519`).
///
/// Trusted: the result is named `x25519_result(k, u)`. When `u` is the base
/// point, the result is a public key, and the crate's documentation shows the
/// Diffie-Hellman agreement: any other secret `c` agreed with this public key
/// gives what `k` agreed with `c`'s public key gives.
#[verifier::external_body]
pub(crate) fn x25519(k: &[u8; 32], u: &[u8; 32]) -> (r: [u8; 32])
    ensures
        r@ == x25519_result(k@, u@),
        u@ == x25519_basepoint() ==> forall|c: Seq<u8>|
            c.len() == 32 ==> #[trigger] x25519_result(c, r@) == x25519_result(
                k@,
                x25519_result(c, u@),
            ),
{
    x25519_dalek::x25519(*k, *u)
}

/// Size in bytes of a Kyber1024 public key and of a Kyber1024 ciphertext.
pub open spec fn kyber_key_len() -> nat {
    1568
}

#[verifier::external_type_specification]
#[verifier::external_body]
pub struct ExPqError(pqcrypto_traits::Error);

/// Kyber1024 encapsulation to the public key `pk` with the 32 random bytes
/// `coins` that it draws: the shared secret and the ciphertext. Given the
/// coins, encapsulation is deterministic.
pub uninterp spec fn kyber1024_encaps(pk: Seq<u8>, coins: Seq<u8>) -> (Seq<u8>, Seq<u8>);

/// Kyber1024 encapsulation to the public key with bytes `pk`
/// (`kyber1024::PublicKey::from_bytes`, then `kyber1024_encapsulate`): the
/// shared secret and the ciphertext, as bytes.
///
/// Trusted: reading the key fails only on a length other than 1568 bytes,
/// so it never fails here. Encapsulation draws 32 random bytes and is
/// otherwise a function of the key and those bytes, named
/// `kyber1024_encaps`; the source fixes the sizes of the shared secret and
/// ciphertext (32 and 1568 bytes). The process aborts if the operating
/// system's random source fails.
#[verifier::external_body]
pub(crate) fn kyber_encapsulate(pk: &[u8; 1568]) -> (r: Result<(Vec<u8>, Vec<u8>), pqcrypto_traits::Error>)
    ensures
        r is Ok,
        r matches Ok(p) ==> p.0@.len() == 32 && p.1@.len() == kyber_key_len(),
        r matches Ok(p) ==> exists|m: Seq<u8>|
            m.len() == 32 && #[trigger] kyber1024_encaps(pk@, m) == (p.0@, p.1@),
{
    let pk = match pqcrypto_kyber::kyber1024::PublicKey::from_bytes(pk) {
        Ok(pk) => pk,
        Err(e) => return Err(e),
    };
    let (ss, ct) = pqcrypto_kyber::kyber1024_encapsulate(&pk);
    Ok((ss.as_bytes().to_vec(), ct.as_bytes().to_vec()))
}

/// XChaCha20-Poly1305 ciphertext (with its 16-byte tag appended) of
/// `plaintext` under `key` and `nonce`, with no associated data.
pub uninterp spec fn xchacha20poly1305_seal(key: Seq<u8>, nonce: Seq<u8>, plaintext: Seq<u8>) -> Seq<u8>;

/// XChaCha20-Poly1305 opening of `ciphertext` under `key` and `nonce`, with no
/// associated data: the plaintext, or `None` when it does not authenticate.
pub uninterp spec fn xchacha20poly1305_open(key: Seq<u8>, nonce: Seq<u8>, ciphertext: Seq<u8>) -> Option<Seq<u8>>;

/// Largest plaintext, counted in 64-byte blocks, that the cipher accepts.
pub open spec fn aead_max_blocks() -> nat {
    0xFFFF_FFFF
}

#[verifier::external_type_specification]
#[verifier::external_body]
pub struct ExAeadError(chacha20poly1305::aead::Error);

/// Encrypts `plaintext` (`Aead::encrypt` of `XChaCha20Poly1305`).
///
/// Trusted: the result is named `xchacha20poly1305_seal`; it is refused
/// exactly when the plaintext reaches `u32::MAX` blocks of 64 bytes (the
/// source's only error); it is 16 bytes longer than the plaintext; and, as
/// for any AEAD, opening it with the same key and nonce gives the plaintext.
#[verifier::external_body]
pub(crate) fn aead_seal(key: &[u8; 32], nonce: &[u8; 24], plaintext: &[u8]) -> (r: Result<
    Vec<u8>,
    chacha20poly1305::aead::Error,
>)
    ensures
        r is Ok <==> plaintext@.len() / 64 < aead_max_blocks(),
        r matches Ok(c) ==> {
            &&& c@ == xchacha20poly1305_seal(key@, nonce@, plaintext@)
            &&& c@.len() == plaintext@.len() + 16
            &&& xchacha20poly1305_open(key@, nonce@, c@) == Some(plaintext@)
        },
{
    let cipher = chacha20poly1305::XChaCha20Poly1305::new(chacha20poly1305::Key::from_slice(key));
    cipher.encrypt(chacha20poly1305::XNonce::from_slice(nonce), plaintext)
}

/// Decrypts `ciphertext` (`Aead::decrypt` of `XChaCha20Poly1305`).
///
/// Trusted: the result is the one named `xchacha20poly1305_open`, and a
/// ciphertext that opens is the plaintext plus a 16-byte tag (the source
/// refuses anything shorter than the tag).
#[verifier::external_body]
pub(crate) fn aead_open(key: &[u8; 32], nonce: &[u8; 24], ciphertext: &[u8]) -> (r: Result<
    Vec<u8>,
    chacha20poly1305::aead::Error,
>)
    ensures
        match xchacha20poly1305_open(key@, nonce@, ciphertext@) {
            Some(p) => r matches Ok(q) && q@ == p,
            None => r is Err,
        },
        r matches Ok(q) ==> ciphertext@.len() == q@.len() + 16,
{
    let cipher = chacha20poly1305::XChaCha20Poly1305::new(chacha20poly1305::Key::from_slice(key));
    cipher.decrypt(chacha20poly1305::XNonce::from_slice(nonce), ciphertext)
}

/// `len` bytes from the operating system's random source
/// (`OsRng::fill_bytes`).
///
/// Trusted: the bytes are always given, and only their length is stated;
/// `fill_bytes` panics if the operating system's random source fails, as
/// the Kyber encapsulation aborts in that case.
#[verifier::external_body]
pub(crate) fn random_bytes(len: usize) -> (r: Option<Vec<u8>>)
    ensures
        r is Some,
        r matches Some(b) ==> b@.len() == len,
{
    let mut b = vec![0u8; len];
    OsRng.fill_bytes(&mut b);
    Some(b)
}

/// The version-4 UUID built from 16 random bytes: the version nibble set to
/// 4 and the variant bits to `10`, every other bit kept.
pub open spec fn uuid_v4_layout(raw: Seq<u8>) -> Seq<u8> {
    raw.update(6, (raw[6] % 16 + 64) as u8).update(8, (raw[8] % 64 + 128) as u8)
}

/// The version-4 UUID with random bytes `raw` (`Builder::from_random_bytes`).
///
/// Trusted: the source sets byte 6 to `(b & 0x0f) | 0x40` and byte 8 to
/// `(b & 0x3f) | 0x80` and keeps the other bytes; the contract states that.
#[verifier::external_body]
pub(crate) fn uuid_v4_from_random(raw: [u8; 16]) -> (b: [u8; 16])
    ensures
        b@ == uuid_v4_layout(raw@),
{
    *uuid::Builder::from_random_bytes(raw).into_uuid().as_bytes()
}

} // verus!
