use base64ct::{Base64, Encoding};
use ed25519_dalek::{SigningKey, VerifyingKey};
use sha2::{Digest, Sha256};

use xbee_rust_modem_library::keys::{
    decode_public_key, decode_signing_key, key_file_texts, sender_id_from_pubkey, KeyError,
};

#[test]
fn written_key_files_read_back() {
    let secret = [0x24u8; 32];
    let (secret_text, public_text) = key_file_texts(&secret);
    assert_eq!(secret_text, Base64::encode_string(&secret));
    let public = SigningKey::from_bytes(&secret).verifying_key().to_bytes();
    assert_eq!(public_text, Base64::encode_string(&public));
    assert_eq!(decode_signing_key(&secret_text), Ok(secret));
    assert_eq!(decode_public_key(&public_text), Ok(public));
}

#[test]
fn key_text_is_trimmed_before_decoding() {
    let secret = [9u8; 32];
    let text = format!("  {}\n", Base64::encode_string(&secret));
    assert_eq!(decode_signing_key(&text), Ok(secret));
}

#[test]
fn text_that_is_not_base64_is_refused() {
    assert_eq!(decode_signing_key("not base64"), Err(KeyError::Base64Decode));
    assert_eq!(decode_public_key("***"), Err(KeyError::Base64Decode));
}

#[test]
fn public_key_loader_rejects_wrong_length() {
    let text = Base64::encode_string(&[1, 2, 3]);
    assert_eq!(decode_public_key(&text), Err(KeyError::WrongLength));
    assert_eq!(decode_signing_key(&Base64::encode_string(&[0u8; 33])), Err(KeyError::WrongLength));
}

#[test]
fn bytes_off_the_curve_are_not_a_public_key() {
    let mut bad = None;
    for b in 0..=255u8 {
        let mut bytes = [0u8; 32];
        bytes[0] = b;
        bytes[31] = 0x7F;
        if VerifyingKey::from_bytes(&bytes).is_err() {
            bad = Some(bytes);
            break;
        }
    }
    let bad = bad.expect("some encoding is not a curve point");
    assert_eq!(
        decode_public_key(&Base64::encode_string(&bad)),
        Err(KeyError::BadPublicKey)
    );
    // As a secret key the same 32 bytes are fine.
    assert_eq!(decode_signing_key(&Base64::encode_string(&bad)), Ok(bad));
}

#[test]
fn sender_id_is_a_sha256_prefix() {
    let pk = SigningKey::from_bytes(&[5u8; 32]).verifying_key().to_bytes();
    let digest = Sha256::digest(pk);
    assert_eq!(sender_id_from_pubkey(&pk), [digest[0], digest[1], digest[2], digest[3]]);
}
