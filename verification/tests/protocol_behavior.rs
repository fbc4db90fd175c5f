use ed25519_dalek::SigningKey;
use rand_core::OsRng;

use xbee_rust_modem_library::handshake::{
    finish_client, finish_server, make_client_hello, respond_server_hello, HandshakeMsg,
};

#[test]
fn signed_handshake_derives_matching_session_keys() {
    let mut rng = OsRng;
    let client_sk = SigningKey::generate(&mut rng);
    let server_sk = SigningKey::generate(&mut rng);

    let (client_hello, client_eph_secret, client_id_pub) = make_client_hello(&client_sk.to_bytes());
    let client_eph_pub = match &client_hello {
        HandshakeMsg::ClientHello { client_eph_pub, .. } => *client_eph_pub,
        _ => unreachable!(),
    };

    let (server_hello, server_eph_secret, client_id_pub_server, client_eph_pub_server) =
        respond_server_hello(
            &server_sk.to_bytes(),
            &client_sk.verifying_key().to_bytes(),
            client_hello,
        )
        .expect("server should accept authorized client");

    assert_eq!(client_id_pub_server, client_id_pub);
    assert_eq!(client_eph_pub_server, client_eph_pub);

    let (server_id_pub, server_eph_pub) = match &server_hello {
        HandshakeMsg::ServerHello {
            server_identity_pub,
            server_eph_pub,
            ..
        } => (*server_identity_pub, *server_eph_pub),
        _ => unreachable!(),
    };

    let (client_key, verified_server_id) = finish_client(
        &server_sk.verifying_key().to_bytes(),
        client_eph_secret,
        client_id_pub,
        client_eph_pub,
        server_hello,
    )
    .expect("client should accept authorized server");

    let server_key = finish_server(
        server_eph_secret,
        server_id_pub,
        server_eph_pub,
        client_id_pub_server,
        client_eph_pub_server,
    );

    assert_eq!(verified_server_id, server_id_pub);
    assert_eq!(client_key.as_slice(), server_key.as_slice());
}

#[test]
fn handshake_rejects_unauthorized_identities() {
    let mut rng = OsRng;
    let client_sk = SigningKey::generate(&mut rng);
    let server_sk = SigningKey::generate(&mut rng);
    let other_client_sk = SigningKey::generate(&mut rng);
    let other_server_sk = SigningKey::generate(&mut rng);

    let (client_hello, _, _) = make_client_hello(&client_sk.to_bytes());
    assert!(respond_server_hello(
        &server_sk.to_bytes(),
        &other_client_sk.verifying_key().to_bytes(),
        client_hello
    )
    .is_none());

    let (client_hello, client_eph_secret, client_id_pub) = make_client_hello(&client_sk.to_bytes());
    let client_eph_pub = match &client_hello {
        HandshakeMsg::ClientHello { client_eph_pub, .. } => *client_eph_pub,
        _ => unreachable!(),
    };
    let (server_hello, _, _, _) = respond_server_hello(
        &server_sk.to_bytes(),
        &client_sk.verifying_key().to_bytes(),
        client_hello,
    )
    .expect("server should accept authorized client");

    assert!(finish_client(
        &other_server_sk.verifying_key().to_bytes(),
        client_eph_secret,
        client_id_pub,
        client_eph_pub,
        server_hello,
    )
    .is_none());
}

#[test]
fn client_hello_names_the_client_identity() {
    let sk = SigningKey::from_bytes(&[7u8; 32]);
    let (hello, _, id_pub) = make_client_hello(&sk.to_bytes());
    assert_eq!(id_pub, sk.verifying_key().to_bytes());
    match hello {
        HandshakeMsg::ClientHello { client_identity_pub, sig, .. } => {
            assert_eq!(client_identity_pub, id_pub);
            assert_eq!(sig.len(), 64);
        }
        HandshakeMsg::ServerHello { .. } => panic!("expected a client hello"),
    }
}

#[test]
fn server_refuses_a_server_hello() {
    let client_sk = SigningKey::from_bytes(&[1u8; 32]);
    let server_sk = SigningKey::from_bytes(&[2u8; 32]);
    let (hello, _, _) = make_client_hello(&client_sk.to_bytes());
    let (server_hello, _, _, _) = respond_server_hello(
        &server_sk.to_bytes(),
        &client_sk.verifying_key().to_bytes(),
        hello,
    )
    .expect("server should accept authorized client");
    assert!(respond_server_hello(
        &server_sk.to_bytes(),
        &server_sk.verifying_key().to_bytes(),
        server_hello
    )
    .is_none());
}

#[test]
fn tampered_client_signature_is_refused() {
    let client_sk = SigningKey::from_bytes(&[3u8; 32]);
    let server_sk = SigningKey::from_bytes(&[4u8; 32]);
    let (hello, _, _) = make_client_hello(&client_sk.to_bytes());
    let hello = match hello {
        HandshakeMsg::ClientHello { client_identity_pub, client_eph_pub, mut sig } => {
            sig[0] ^= 1;
            HandshakeMsg::ClientHello { client_identity_pub, client_eph_pub, sig }
        }
        other => other,
    };
    assert!(respond_server_hello(
        &server_sk.to_bytes(),
        &client_sk.verifying_key().to_bytes(),
        hello
    )
    .is_none());
}

#[test]
fn server_hello_for_another_client_ephemeral_is_refused() {
    let client_sk = SigningKey::from_bytes(&[5u8; 32]);
    let server_sk = SigningKey::from_bytes(&[6u8; 32]);
    let (hello_a, secret_a, id_a) = make_client_hello(&client_sk.to_bytes());
    let eph_a = match &hello_a {
        HandshakeMsg::ClientHello { client_eph_pub, .. } => *client_eph_pub,
        _ => unreachable!(),
    };
    let (hello_b, _, _) = make_client_hello(&client_sk.to_bytes());
    // The server answers the second hello; the client is still on the first.
    let (server_hello, _, _, _) = respond_server_hello(
        &server_sk.to_bytes(),
        &client_sk.verifying_key().to_bytes(),
        hello_b,
    )
    .expect("server should accept authorized client");
    assert!(finish_client(
        &server_sk.verifying_key().to_bytes(),
        secret_a,
        id_a,
        eph_a,
        server_hello
    )
    .is_none());
}
