use xbee_rust_modem_library::secure_packet::open;
use xbee_rust_modem_library::session::{ReceiverSession, RxStats, SenderSession, MAX_PAYLOAD};

#[test]
fn sender_numbers_frames_from_zero() {
    let mut sender = SenderSession::new([1u8; 32], [1, 2, 3, 4]);
    assert_eq!(sender.sender_id(), [1, 2, 3, 4]);
    let f0 = sender.seal_payload(b"a").unwrap();
    assert_eq!(f0.seq, 0);
    assert_eq!(sender.commit_sent(), 0);
    let f1 = sender.seal_payload(b"b").unwrap();
    assert_eq!(f1.seq, 1);
    assert_eq!(open(&[1u8; 32], &f1).unwrap().as_slice(), b"b");
}

#[test]
fn sender_refuses_oversized_payload() {
    let sender = SenderSession::new([1u8; 32], [0; 4]);
    assert_eq!(
        sender.seal_payload(&vec![0u8; MAX_PAYLOAD + 1]).err(),
        Some("plaintext too large")
    );
}

#[test]
fn receiver_delivers_fresh_frames_and_drops_replays() {
    let key = [7u8; 32];
    let mut sender = SenderSession::new(key, [9, 9, 9, 9]);
    let mut receiver = ReceiverSession::new(key);

    let f0 = sender.seal_payload(b"first").unwrap();
    sender.commit_sent();
    let f1 = sender.seal_payload(b"second").unwrap();
    sender.commit_sent();
    let f2 = sender.seal_payload(b"third").unwrap();

    assert_eq!(receiver.accept_frame(&f0).unwrap().as_slice(), b"first");
    assert_eq!(receiver.accept_frame(&f0), None);
    // f1 lost: f2 arrives with a gap of one.
    assert_eq!(receiver.accept_frame(&f2).unwrap().as_slice(), b"third");
    assert_eq!(receiver.accept_frame(&f1), None);

    assert_eq!(receiver.stats.ok, 2);
    assert_eq!(receiver.stats.dup_or_old_drop, 2);
    assert_eq!(receiver.stats.skipped_packets, 1);
    assert_eq!(receiver.stats.auth_fail, 0);
}

#[test]
fn failed_authentication_keeps_the_replay_window() {
    let key = [3u8; 32];
    let sender = SenderSession::new(key, [4, 4, 4, 4]);
    let mut receiver = ReceiverSession::new(key);

    let mut forged = sender.seal_payload(b"fake").unwrap();
    forged.ciphertext_with_tag[0] ^= 0x01;
    assert_eq!(receiver.accept_frame(&forged), None);
    assert_eq!(receiver.stats.auth_fail, 1);

    let valid = sender.seal_payload(b"real").unwrap();
    assert_eq!(receiver.accept_frame(&valid).unwrap().as_slice(), b"real");
    assert_eq!(receiver.stats.ok, 1);
}

#[test]
fn rekey_restarts_numbering() {
    let mut receiver = ReceiverSession::new([1u8; 32]);
    let mut old = SenderSession::new([1u8; 32], [1, 1, 1, 1]);
    let f = old.seal_payload(b"x").unwrap();
    old.commit_sent();
    assert!(receiver.accept_frame(&f).is_some());

    receiver.rekey([2u8; 32]);
    assert_eq!(receiver.stats.rehandshakes, 1);
    let fresh = SenderSession::new([2u8; 32], [1, 1, 1, 1]);
    let f0 = fresh.seal_payload(b"again").unwrap();
    assert_eq!(f0.seq, 0);
    assert_eq!(receiver.accept_frame(&f0).unwrap().as_slice(), b"again");
}

#[test]
fn decode_failures_are_counted() {
    let mut receiver = ReceiverSession::new([0u8; 32]);
    receiver.note_decode_failure();
    receiver.note_decode_failure();
    assert_eq!(receiver.stats.decode_fail, 2);
    let fresh = RxStats::default();
    assert_eq!(fresh.ok, 0);
    assert_eq!(fresh.decode_fail, 0);
}

use ed25519_dalek::SigningKey;
use xbee_rust_modem_library::handshake::{
    finish_client, finish_server, make_client_hello, respond_server_hello, HandshakeMsg,
};
use xbee_rust_modem_library::keys::sender_id_from_pubkey;

/// Client side of a handshake against `server`, answered by `server`.
fn handshake(client: &SigningKey, server: &SigningKey) -> Option<([u8; 32], [u8; 32])> {
    let (hello, secret, id_pub) = make_client_hello(&client.to_bytes());
    let eph = match &hello {
        HandshakeMsg::ClientHello { client_eph_pub, .. } => *client_eph_pub,
        _ => unreachable!(),
    };
    let (server_hello, server_secret, c_id, c_eph) = respond_server_hello(
        &server.to_bytes(),
        &client.verifying_key().to_bytes(),
        hello,
    )?;
    let (s_id, s_eph) = match &server_hello {
        HandshakeMsg::ServerHello { server_identity_pub, server_eph_pub, .. } => {
            (*server_identity_pub, *server_eph_pub)
        }
        _ => unreachable!(),
    };
    let (client_key, _) = finish_client(&server.verifying_key().to_bytes(), secret, id_pub, eph, server_hello)?;
    let server_key = finish_server(server_secret, s_id, s_eph, c_id, c_eph);
    Some((client_key, server_key))
}

#[test]
fn handshake_then_payload_roundtrip() {
    let client = SigningKey::from_bytes(&[11u8; 32]);
    let server = SigningKey::from_bytes(&[12u8; 32]);
    let (client_key, server_key) = handshake(&client, &server).expect("handshake");
    assert_eq!(client_key, server_key);

    let sender_id = sender_id_from_pubkey(&client.verifying_key().to_bytes());
    let mut sender = SenderSession::new(client_key, sender_id);
    let mut receiver = ReceiverSession::new(server_key);
    for i in 0..5u8 {
        let msg = [b'm', b'0' + i];
        let frame = sender.seal_payload(&msg).unwrap();
        assert_eq!(sender.commit_sent(), i as u64);
        assert_eq!(receiver.accept_frame(&frame).unwrap().as_slice(), &msg);
    }
    assert_eq!(receiver.stats.ok, 5);
}

#[test]
fn restarted_sender_is_accepted_after_a_new_handshake() {
    let client = SigningKey::from_bytes(&[21u8; 32]);
    let server = SigningKey::from_bytes(&[22u8; 32]);
    let (k1, s1) = handshake(&client, &server).expect("first handshake");
    let mut receiver = ReceiverSession::new(s1);
    let mut first = SenderSession::new(k1, [1, 2, 3, 4]);
    for _ in 0..2 {
        let f = first.seal_payload(b"first session").unwrap();
        first.commit_sent();
        assert!(receiver.accept_frame(&f).is_some());
    }

    // The sender restarts: new handshake, numbering from 0 again.
    let (k2, s2) = handshake(&client, &server).expect("second handshake");
    assert_ne!(k1, k2);
    let second = SenderSession::new(k2, [1, 2, 3, 4]);
    let f0 = second.seal_payload(b"second session 0").unwrap();
    // Without the rekey the old key and window refuse it.
    assert_eq!(receiver.accept_frame(&f0), None);
    receiver.rekey(s2);
    assert_eq!(receiver.accept_frame(&f0).unwrap().as_slice(), b"second session 0");
    assert_eq!(receiver.stats.rehandshakes, 1);
}

#[test]
fn unauthorized_sender_gets_no_session() {
    let client = SigningKey::from_bytes(&[31u8; 32]);
    let impostor = SigningKey::from_bytes(&[32u8; 32]);
    let server = SigningKey::from_bytes(&[33u8; 32]);
    let (hello, _, _) = make_client_hello(&impostor.to_bytes());
    assert!(respond_server_hello(&server.to_bytes(), &client.verifying_key().to_bytes(), hello).is_none());
}
