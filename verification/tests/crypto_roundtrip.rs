use xbee_rust_modem_library::secure_packet::{derive_nonce, open, seal, MAX_PLAINTEXT};

#[test]
fn crypto_roundtrip_encrypt_decrypt_roundtrip() {
    let key = [0x42u8; 32];

    let sender_id = [1, 2, 3, 4];
    let seq = 0u64;
    let plaintext = b"hello secure world";

    let frame = seal(&key, sender_id, seq, plaintext).expect("seal failed");

    let recovered = open(&key, &frame).expect("open failed");

    assert_eq!(recovered.as_slice(), plaintext);
}

#[test]
fn crypto_roundtrip_tamper_detection() {
    let key = [0x11u8; 32];

    let sender_id = [9, 9, 9, 9];
    let seq = 5;
    let plaintext = b"attack at dawn";

    let mut frame = seal(&key, sender_id, seq, plaintext).expect("seal failed");

    frame.ciphertext_with_tag[0] ^= 0x01;

    assert!(open(&key, &frame).is_err());
}

#[test]
fn crypto_roundtrip_wrong_key_fails() {
    let key1 = [0xAAu8; 32];
    let key2 = [0xBBu8; 32];

    let sender_id = [7, 7, 7, 7];
    let seq = 42;
    let plaintext = b"super secret";

    let frame = seal(&key1, sender_id, seq, plaintext).expect("seal failed");

    assert!(open(&key2, &frame).is_err());
}

#[test]
fn nonce_tampering_fails_before_decrypt() {
    let key = [0xCCu8; 32];
    let mut frame = seal(&key, [1, 1, 1, 1], 10, b"nonce matters").expect("seal failed");

    frame.nonce[0] ^= 0x01;

    assert_eq!(open(&key, &frame), Err("bad nonce"));
}

#[test]
fn sender_id_tampering_fails_nonce_check() {
    let key = [0xDDu8; 32];
    let mut frame = seal(&key, [2, 2, 2, 2], 11, b"sender matters").expect("seal failed");

    frame.sender_id[0] ^= 0x01;

    assert_eq!(open(&key, &frame), Err("bad nonce"));
}

#[test]
fn plaintext_size_limit_is_enforced() {
    let key = [0xEEu8; 32];
    let at_limit = vec![0xAB; MAX_PLAINTEXT];
    let over_limit = vec![0xAB; MAX_PLAINTEXT + 1];

    assert!(seal(&key, [3, 3, 3, 3], 0, &at_limit).is_ok());
    assert_eq!(
        seal(&key, [3, 3, 3, 3], 1, &over_limit).expect_err("over-limit plaintext should fail"),
        "plaintext too large"
    );
}

#[test]
fn nonce_is_sender_id_then_big_endian_seq() {
    assert_eq!(
        derive_nonce([0xA1, 0xB2, 0xC3, 0xD4], 0x0102_0304_0506_0708),
        [0xA1, 0xB2, 0xC3, 0xD4, 1, 2, 3, 4, 5, 6, 7, 8]
    );
}

#[test]
fn sealed_frame_carries_header_and_tag() {
    let key = [0x33u8; 32];
    let frame = seal(&key, [5, 6, 7, 8], 77, b"abc").expect("seal failed");
    assert_eq!(frame.sender_id, [5, 6, 7, 8]);
    assert_eq!(frame.seq, 77);
    assert_eq!(frame.nonce, derive_nonce([5, 6, 7, 8], 77));
    assert_eq!(frame.ciphertext_with_tag.len(), 3 + 16);
    // The ciphertext is not the plaintext.
    assert_ne!(&frame.ciphertext_with_tag[..3], b"abc");
}

#[test]
fn tampered_seq_fails_nonce_check() {
    let key = [0x44u8; 32];
    let mut frame = seal(&key, [1, 2, 3, 4], 1, b"seq").expect("seal failed");
    frame.seq = 2;
    assert_eq!(open(&key, &frame), Err("bad nonce"));
}

#[test]
fn forged_tag_is_an_authentication_failure() {
    let key = [0x55u8; 32];
    let mut frame = seal(&key, [1, 2, 3, 4], 1, b"tag").expect("seal failed");
    let last = frame.ciphertext_with_tag.len() - 1;
    frame.ciphertext_with_tag[last] ^= 0x80;
    assert_eq!(open(&key, &frame), Err("auth/decrypt failed"));
}

#[test]
fn empty_plaintext_roundtrips() {
    let key = [0x66u8; 32];
    let frame = seal(&key, [0, 0, 0, 0], u64::MAX, b"").expect("seal failed");
    assert_eq!(open(&key, &frame).expect("open failed").len(), 0);
}
