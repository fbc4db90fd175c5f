//! The cryptographic primitives the protocol is built from, each a thin call
//! into its RustCrypto / dalek crate.
//!
//! Every primitive here is deterministic in its arguments except
//! [`random_secret`], so each result is given a name and the contracts of
//! the protocol speak of those names. Beside each name stand only the facts
//! that the crates document and that the protocol's laws need: a signature
//! made with a key verifies under its public key, Diffie-Hellman agrees on
//! both sides, AES-GCM decryption gives back what encryption sealed, and a
//! Base64 encoding decodes back to its input.

use vstd::prelude::*;

use crate::buffers::{cipher_buf_bytes, CIPHER_BUF_CAP};

use aes_gcm::aead::{AeadInPlace, KeyInit};
use ed25519_dalek::{Signer, Verifier};
use sha2::Digest;
use base64ct::Encoding;
use rand_core::RngCore;

verus! {

// ---------------------------------------------------------------------------
// AES-256-GCM (aes-gcm)

/// Largest associated data AES-GCM accepts (`aes_gcm::A_MAX`).
pub const AES_GCM_A_MAX: u64 = 0x10_0000_0000;

/// Largest plaintext AES-GCM accepts (`aes_gcm::P_MAX`).
pub const AES_GCM_P_MAX: u64 = 0x10_0000_0000;

/// Length of the AES-GCM authentication tag.
pub const AES_GCM_TAG_LEN: usize = 16;

/// Ciphertext followed by tag that AES-256-GCM produces for `plaintext`
/// under `key`, `nonce` and associated data `aad`.
pub uninterp spec fn aes256gcm_seal(key: Seq<u8>, nonce: Seq<u8>, aad: Seq<u8>, plaintext: Seq<u8>) -> Seq<u8>;

/// What AES-256-GCM decryption of `ciphertext_with_tag` yields: the
/// plaintext, or `None` when the tag does not authenticate.
pub uninterp spec fn aes256gcm_open(key: Seq<u8>, nonce: Seq<u8>, aad: Seq<u8>, ciphertext_with_tag: Seq<u8>) -> Option<Seq<u8>>;

/// `AeadInPlace::encrypt_in_place` of `Aes256Gcm`: replaces the plaintext in
/// `buf` by its ciphertext and appends the 16-byte tag. It fails when the
/// tag does not fit in the buffer or the associated data is longer than
/// `A_MAX` (the buffer can never exceed `P_MAX`).
#[verifier::external_body]
pub(crate) fn aes256gcm_encrypt_in_place(
    key: &[u8; 32],
    nonce: &[u8; 12],
    aad: &[u8],
    buf: &mut heapless::Vec<u8, CIPHER_BUF_CAP>,
) -> (r: Result<(), ()>)
    ensures
        r is Ok <==> (aad@.len() <= AES_GCM_A_MAX && cipher_buf_bytes(*old(buf)).len()
            + AES_GCM_TAG_LEN <= CIPHER_BUF_CAP),
        r is Ok ==> cipher_buf_bytes(*final(buf)) == aes256gcm_seal(
            key@,
            nonce@,
            aad@,
            cipher_buf_bytes(*old(buf)),
        ),
        r is Ok ==> cipher_buf_bytes(*final(buf)).len() == cipher_buf_bytes(*old(buf)).len()
            + AES_GCM_TAG_LEN,
{
    let cipher = aes_gcm::Aes256Gcm::new(aes_gcm::Key::<aes_gcm::Aes256Gcm>::from_slice(key));
    cipher.encrypt_in_place(aes_gcm::Nonce::from_slice(nonce), aad, buf).map_err(|_| ())
}

/// `AeadInPlace::decrypt_in_place` of `Aes256Gcm`: on success the buffer
/// holds the plaintext, 16 bytes shorter than the ciphertext with tag.
/// Decryption of what encryption sealed (with the same key, nonce and
/// associated data) always succeeds and gives back the plaintext.
#[verifier::external_body]
pub(crate) fn aes256gcm_decrypt_in_place(
    key: &[u8; 32],
    nonce: &[u8; 12],
    aad: &[u8],
    buf: &mut heapless::Vec<u8, CIPHER_BUF_CAP>,
) -> (r: Result<(), ()>)
    ensures
        r is Ok <==> aes256gcm_open(key@, nonce@, aad@, cipher_buf_bytes(*old(buf))) is Some,
        r is Ok ==> Some(cipher_buf_bytes(*final(buf))) == aes256gcm_open(
            key@,
            nonce@,
            aad@,
            cipher_buf_bytes(*old(buf)),
        ),
        r is Ok ==> cipher_buf_bytes(*final(buf)).len() + AES_GCM_TAG_LEN == cipher_buf_bytes(
            *old(buf),
        ).len(),
        forall|p: Seq<u8>|
            p.len() <= AES_GCM_P_MAX && aad@.len() <= AES_GCM_A_MAX && cipher_buf_bytes(*old(buf))
                == aes256gcm_seal(key@, nonce@, aad@, p) ==> r is Ok && cipher_buf_bytes(
                *final(buf),
            ) == p,
{
    let cipher = aes_gcm::Aes256Gcm::new(aes_gcm::Key::<aes_gcm::Aes256Gcm>::from_slice(key));
    cipher.decrypt_in_place(aes_gcm::Nonce::from_slice(nonce), aad, buf).map_err(|_| ())
}

// ---------------------------------------------------------------------------
// Ed25519 (ed25519-dalek)

/// The Ed25519 public key of the 32-byte secret key `secret`.
pub uninterp spec fn ed25519_public(secret: Seq<u8>) -> Seq<u8>;

/// The (deterministic) Ed25519 signature of `msg` by the secret key `secret`.
pub uninterp spec fn ed25519_signature(secret: Seq<u8>, msg: Seq<u8>) -> Seq<u8>;

/// Whether `sig` is a valid Ed25519 signature of `msg` under the encoded
/// public key `public`.
pub uninterp spec fn ed25519_verifies(public: Seq<u8>, msg: Seq<u8>, sig: Seq<u8>) -> bool;

/// Whether `public` decodes to an Ed25519 public key.
pub uninterp spec fn ed25519_public_decodes(public: Seq<u8>) -> bool;

/// `SigningKey::from_bytes(secret).verifying_key().to_bytes()`: the
/// encoding of a curve point, which `VerifyingKey::from_bytes` decodes.
#[verifier::external_body]
pub(crate) fn ed25519_public_key(secret: &[u8; 32]) -> (r: [u8; 32])
    ensures
        r@ == ed25519_public(secret@),
        ed25519_public_decodes(r@),
{
    ed25519_dalek::SigningKey::from_bytes(secret).verifying_key().to_bytes()
}

/// `SigningKey::from_bytes(secret).sign(msg).to_bytes()`.
#[verifier::external_body]
pub(crate) fn ed25519_sign(secret: &[u8; 32], msg: &[u8]) -> (r: [u8; 64])
    ensures
        r@ == ed25519_signature(secret@, msg@),
{
    ed25519_dalek::SigningKey::from_bytes(secret).sign(msg).to_bytes()
}

/// `VerifyingKey::from_bytes(public)` followed by `Verifier::verify` of
/// `msg` against `Signature::from_bytes(sig)`; a public key that does not
/// decode verifies nothing. A signature made by a secret key verifies under
/// that key's public key.
#[verifier::external_body]
pub(crate) fn ed25519_verify(public: &[u8; 32], msg: &[u8], sig: &[u8; 64]) -> (r: bool)
    ensures
        r == ed25519_verifies(public@, msg@, sig@),
        forall|s: Seq<u8>|
            s.len() == 32 && public@ == ed25519_public(s) && sig@ == ed25519_signature(s, msg@)
                ==> r,
{
    match ed25519_dalek::VerifyingKey::from_bytes(public) {
        Ok(pk) => pk.verify(msg, &ed25519_dalek::Signature::from_bytes(sig)).is_ok(),
        Err(_) => false,
    }
}

/// `VerifyingKey::from_bytes(public).is_ok()`.
#[verifier::external_body]
pub(crate) fn ed25519_public_key_decodes(public: &[u8; 32]) -> (r: bool)
    ensures
        r == ed25519_public_decodes(public@),
{
    ed25519_dalek::VerifyingKey::from_bytes(public).is_ok()
}

// ---------------------------------------------------------------------------
// X25519 (x25519-dalek)

/// The X25519 base point `9`.
pub open spec fn x25519_basepoint() -> Seq<u8> {
    seq![9u8].add(Seq::new(31, |i: int| 0u8))
}

/// `x25519(k, u)`: the clamped scalar `k` times the curve point `u`.
pub uninterp spec fn x25519_spec(k: Seq<u8>, u: Seq<u8>) -> Seq<u8>;

/// `x25519_dalek::x25519(k, u)`. When `u` is the public value of some
/// secret `b` (that is, `x25519(b, 9)`), the result is what `b` computes
/// with the public value of `k`: both sides of a Diffie-Hellman exchange
/// agree.
#[verifier::external_body]
pub(crate) fn x25519(k: &[u8; 32], u: &[u8; 32]) -> (r: [u8; 32])
    ensures
        r@ == x25519_spec(k@, u@),
        forall|b: Seq<u8>|
            b.len() == 32 && u@ == x25519_spec(b, x25519_basepoint()) ==> r@ == x25519_spec(
                b,
                x25519_spec(k@, x25519_basepoint()),
            ),
{
    x25519_dalek::x25519(*k, *u)
}

/// `x25519_dalek::X25519_BASEPOINT_BYTES`.
#[verifier::external_body]
pub(crate) fn x25519_basepoint_bytes() -> (r: [u8; 32])
    ensures
        r@ == x25519_basepoint(),
{
    x25519_dalek::X25519_BASEPOINT_BYTES
}

/// 32 bytes from the operating system's random source
/// (`rand_core::OsRng::fill_bytes`), as `EphemeralSecret::random_from_rng`
/// draws them. Nothing is promised of the bytes.
#[verifier::external_body]
pub(crate) fn random_secret() -> (r: [u8; 32]) {
    let mut bytes = [0u8; 32];
    rand_core::OsRng.fill_bytes(&mut bytes);
    bytes
}

// ---------------------------------------------------------------------------
// HKDF-SHA256 (hkdf, sha2) and SHA-256 (sha2)

/// HKDF-SHA256 with no salt: 32 bytes of output keying material expanded
/// from input keying material `ikm` with context `info`.
pub uninterp spec fn hkdf_sha256_32(ikm: Seq<u8>, info: Seq<u8>) -> Seq<u8>;

/// `Hkdf::<Sha256>::new(None, ikm)` then `expand(info, &mut [0u8; 32])`.
/// Expanding to 32 bytes is within the 255 * 32 limit and cannot fail.
#[verifier::external_body]
pub(crate) fn hkdf_sha256_expand_32(ikm: &[u8; 32], info: &[u8]) -> (r: [u8; 32])
    ensures
        r@ == hkdf_sha256_32(ikm@, info@),
{
    let hk = hkdf::Hkdf::<sha2::Sha256>::new(None, ikm);
    let mut out = [0u8; 32];
    hk.expand(info, &mut out).expect("hkdf expand");
    out
}

/// The SHA-256 digest of `data`.
pub uninterp spec fn sha256(data: Seq<u8>) -> Seq<u8>;

/// `Sha256::digest(data)`: always 32 bytes.
#[verifier::external_body]
pub(crate) fn sha256_digest(data: &[u8]) -> (r: [u8; 32])
    ensures
        r@ == sha256(data@),
{
    sha2::Sha256::digest(data).into()
}

// ---------------------------------------------------------------------------
// Base64 (base64ct, standard alphabet with padding)

/// The bytes that the Base64 text `text` decodes to, or `None` when it is
/// not canonical padded Base64.
pub uninterp spec fn base64_decoded(text: Seq<char>) -> Option<Seq<u8>>;

/// The padded Base64 text of `bytes`.
pub uninterp spec fn base64_encoded(bytes: Seq<u8>) -> Seq<char>;

/// The characters padded Base64 is written with.
pub open spec fn is_base64_char(c: char) -> bool {
    ('A' <= c && c <= 'Z') || ('a' <= c && c <= 'z') || ('0' <= c && c <= '9') || c == '+' || c
        == '/' || c == '='
}

/// `Base64::decode_vec` of the text made of `text`.
#[verifier::external_body]
pub(crate) fn base64_decode(text: &[char]) -> (r: Option<Vec<u8>>)
    ensures
        match r {
            Some(v) => base64_decoded(text@) == Some(v@),
            None => base64_decoded(text@) is None,
        },
{
    let s: String = text.iter().collect();
    base64ct::Base64::decode_vec(&s).ok()
}

/// `Base64::encode_string`: written only with the Base64 alphabet and
/// padding, and decoding back to `bytes`.
#[verifier::external_body]
pub(crate) fn base64_encode(bytes: &[u8]) -> (r: String)
    ensures
        r@ == base64_encoded(bytes@),
        forall|i: int| 0 <= i < r@.len() ==> is_base64_char(#[trigger] r@[i]),
        base64_decoded(r@) == Some(bytes@),
{
    base64ct::Base64::encode_string(bytes)
}

} // verus!
