//! Identity key management.
//!
//! Ed25519 is used for device identity: each side has a secret key and a
//! public key. Keys are stored as Base64 text (one key per file) to keep
//! provisioning simple; this module turns that text into key bytes and back.
//! Reading and writing the files is left to the caller.

use vstd::prelude::*;

use crate::crypto::{
    base64_decode, base64_decoded, base64_encode, base64_encoded, ed25519_public,
    ed25519_public_decodes, ed25519_public_key, ed25519_public_key_decodes, is_base64_char, sha256,
    sha256_digest,
};
use crate::text::{is_whitespace, lemma_trim_without_whitespace, str_chars, trim, trimmed};

verus! {

/// Why key text was refused.
#[derive(Debug, Clone, Copy, PartialEq, Eq)]
pub enum KeyError {
    /// The text (after trimming whitespace) is not Base64.
    Base64Decode,
    /// The decoded key is not 32 bytes long.
    WrongLength,
    /// The 32 bytes are not an Ed25519 public key.
    BadPublicKey,
}

/// The 32 key bytes that key text stands for: Base64 after trimming.
pub open spec fn decoded_key_bytes(text: Seq<char>) -> Result<Seq<u8>, KeyError> {
    match base64_decoded(trimmed(text)) {
        None => Err(KeyError::Base64Decode),
        Some(b) => if b.len() == 32 {
            Ok(b)
        } else {
            Err(KeyError::WrongLength)
        },
    }
}

/// The Ed25519 public key that public-key text stands for.
pub open spec fn decoded_public_key(text: Seq<char>) -> Result<Seq<u8>, KeyError> {
    match decoded_key_bytes(text) {
        Ok(b) => if ed25519_public_decodes(b) {
            Ok(b)
        } else {
            Err(KeyError::BadPublicKey)
        },
        Err(e) => Err(e),
    }
}

/// Decode an Ed25519 secret key (the 32 bytes of `SigningKey::to_bytes`)
/// from its Base64 key-file text.
pub fn decode_signing_key(text: &str) -> (r: Result<[u8; 32], KeyError>)
    ensures
        match r {
            Ok(k) => decoded_key_bytes(text@) == Ok::<Seq<u8>, KeyError>(k@),
            Err(e) => decoded_key_bytes(text@) == Err::<Seq<u8>, KeyError>(e),
        },
{
    let chars = str_chars(text);
    let t = trim(chars.as_slice());
    let bytes = match base64_decode(t.as_slice()) {
        Some(b) => b,
        None => {
            return Err(KeyError::Base64Decode);
        },
    };
    if bytes.len() != 32 {
        return Err(KeyError::WrongLength);
    }
    let mut key = [0u8; 32];
    for i in 0..32usize
        invariant
            bytes@.len() == 32,
            key@.len() == 32,
            forall|j: int| 0 <= j < i ==> key@[j] == bytes@[j],
    {
        key[i] = bytes[i];
    }
    assert(key@ =~= bytes@);
    Ok(key)
}

/// Decode an Ed25519 public key (the 32 bytes of `VerifyingKey::to_bytes`)
/// from its Base64 key-file text; the bytes must decode to a curve point.
pub fn decode_public_key(text: &str) -> (r: Result<[u8; 32], KeyError>)
    ensures
        match r {
            Ok(k) => decoded_public_key(text@) == Ok::<Seq<u8>, KeyError>(k@),
            Err(e) => decoded_public_key(text@) == Err::<Seq<u8>, KeyError>(e),
        },
{
    let key = match decode_signing_key(text) {
        Ok(k) => k,
        Err(e) => {
            return Err(e);
        },
    };
    if !ed25519_public_key_decodes(&key) {
        return Err(KeyError::BadPublicKey);
    }
    Ok(key)
}

/// The two key files written for a freshly generated identity: the Base64
/// text of the secret key and of its public key.
///
/// What is written is read back unchanged: decoding the first text gives
/// the secret key, decoding the second gives its public key.
pub fn key_file_texts(secret: &[u8; 32]) -> (r: (String, String))
    ensures
        r.0@ == base64_encoded(secret@),
        r.1@ == base64_encoded(ed25519_public(secret@)),
        decoded_key_bytes(r.0@) == Ok::<Seq<u8>, KeyError>(secret@),
        decoded_public_key(r.1@) == Ok::<Seq<u8>, KeyError>(ed25519_public(secret@)),
{
    let secret_text = base64_encode(secret);
    let public = ed25519_public_key(secret);
    let public_text = base64_encode(&public);
    proof {
        lemma_base64_text_is_trimmed(secret_text@);
        lemma_base64_text_is_trimmed(public_text@);
    }
    (secret_text, public_text)
}

proof fn lemma_base64_text_is_trimmed(s: Seq<char>)
    requires
        forall|i: int| 0 <= i < s.len() ==> is_base64_char(#[trigger] s[i]),
    ensures
        trimmed(s) == s,
{
    assert forall|i: int| 0 <= i < s.len() implies !is_whitespace(#[trigger] s[i]) by {
        assert(is_base64_char(s[i]));
    }
    lemma_trim_without_whitespace(s);
}

/// A small "sender id" used in headers/logging.
/// This is NOT security-critical; it's just an identifier:
/// the first four bytes of the SHA-256 digest of the public key.
pub fn sender_id_from_pubkey(pk: &[u8; 32]) -> (r: [u8; 4])
    ensures
        r@ == sha256(pk@).take(4),
{
    let h = sha256_digest(pk);
    let r = [h[0], h[1], h[2], h[3]];
    assert(r@ =~= sha256(pk@).take(4));
    r
}

} // verus!
