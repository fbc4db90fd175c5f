//! Signed handshake to establish a shared AES-256-GCM session key.
//!
//! 1) X25519 ephemeral key exchange -> shared secret
//! 2) Ed25519 signatures authenticate ephemeral pubkeys (prevents spoofing / wrong sender)
//! 3) HKDF-SHA256 derives a 32-byte AES key from the shared secret + transcript
//!
//! The result is a per-run session key. Identity keys are handled as their
//! 32-byte encodings: the Ed25519 secret key (`SigningKey::to_bytes`) and
//! the Ed25519 public key (`VerifyingKey::to_bytes`).

use vstd::prelude::*;
use vstd::slice::slice_to_vec;

use crate::bytes::{append_bytes, bytes_equal};
use crate::crypto::{
    ed25519_public, ed25519_public_key, ed25519_sign, ed25519_signature, ed25519_verifies,
    ed25519_verify, hkdf_sha256_32, hkdf_sha256_expand_32, random_secret, x25519, x25519_basepoint,
    x25519_basepoint_bytes, x25519_spec,
};

verus! {

/// Handshake messages.
#[derive(Debug)]
pub enum HandshakeMsg {
    /// Sent by the initiator (sender)
    ClientHello {
        client_identity_pub: [u8; 32],  // Ed25519 public key
        client_eph_pub: [u8; 32],  // X25519 public key
        sig: Vec<u8>,  // 64 bytes: Ed25519 signature
    },
    /// Sent by the responder (receiver)
    ServerHello { server_identity_pub: [u8; 32], server_eph_pub: [u8; 32], sig: Vec<u8> },
}

/// A handshake message as plain values: identity key, ephemeral public key
/// and signature of the sender.
pub enum HelloView {
    Client { id: Seq<u8>, eph: Seq<u8>, sig: Seq<u8> },
    Server { id: Seq<u8>, eph: Seq<u8>, sig: Seq<u8> },
}

impl HelloView {
    /// The sender's identity public key.
    pub open spec fn id(self) -> Seq<u8> {
        match self {
            HelloView::Client { id, .. } => id,
            HelloView::Server { id, .. } => id,
        }
    }

    /// The sender's ephemeral public value.
    pub open spec fn eph(self) -> Seq<u8> {
        match self {
            HelloView::Client { eph, .. } => eph,
            HelloView::Server { eph, .. } => eph,
        }
    }

    /// The signature carried.
    pub open spec fn sig(self) -> Seq<u8> {
        match self {
            HelloView::Client { sig, .. } => sig,
            HelloView::Server { sig, .. } => sig,
        }
    }
}

impl View for HandshakeMsg {
    type V = HelloView;

    open spec fn view(&self) -> HelloView {
        match self {
            HandshakeMsg::ClientHello { client_identity_pub, client_eph_pub, sig } => HelloView::Client {
                id: client_identity_pub@,
                eph: client_eph_pub@,
                sig: sig@,
            },
            HandshakeMsg::ServerHello { server_identity_pub, server_eph_pub, sig } => HelloView::Server {
                id: server_identity_pub@,
                eph: server_eph_pub@,
                sig: sig@,
            },
        }
    }
}

/// An X25519 ephemeral secret: 32 random bytes, consumed by the key
/// derivation that uses it.
pub struct EphemeralSecret {
    secret: [u8; 32],
}

impl View for EphemeralSecret {
    type V = Seq<u8>;

    closed spec fn view(&self) -> Seq<u8> {
        self.secret@
    }
}

/// Domain separation label of the client signature: `XBeeSecure/ClientHello/v1`.
pub open spec fn client_label() -> Seq<u8> {
    seq![
        0x58, 0x42, 0x65, 0x65, 0x53, 0x65, 0x63, 0x75, 0x72, 0x65, 0x2F, 0x43, 0x6C, 0x69, 0x65,
        0x6E, 0x74, 0x48, 0x65, 0x6C, 0x6C, 0x6F, 0x2F, 0x76, 0x31,
    ]
}

/// Domain separation label of the server signature: `XBeeSecure/ServerHello/v1`.
pub open spec fn server_label() -> Seq<u8> {
    seq![
        0x58, 0x42, 0x65, 0x65, 0x53, 0x65, 0x63, 0x75, 0x72, 0x65, 0x2F, 0x53, 0x65, 0x72, 0x76,
        0x65, 0x72, 0x48, 0x65, 0x6C, 0x6C, 0x6F, 0x2F, 0x76, 0x31,
    ]
}

/// What the client signs: `label || client_id_pub || client_eph_pub`.
pub open spec fn client_signed_bytes(client_id_pub: Seq<u8>, client_eph_pub: Seq<u8>) -> Seq<u8> {
    client_label() + client_id_pub + client_eph_pub
}

/// What the server signs: `label || server_id_pub || server_eph_pub ||
/// client_id_pub || client_eph_pub`, binding its reply to this session.
pub open spec fn server_signed_bytes(
    server_id_pub: Seq<u8>,
    server_eph_pub: Seq<u8>,
    client_id_pub: Seq<u8>,
    client_eph_pub: Seq<u8>,
) -> Seq<u8> {
    server_label() + server_id_pub + server_eph_pub + client_id_pub + client_eph_pub
}

/// The X25519 public value of an ephemeral secret.
pub open spec fn x25519_public(secret: Seq<u8>) -> Seq<u8> {
    x25519_spec(secret, x25519_basepoint())
}

/// The session key: HKDF-SHA256 of the shared secret with the transcript
/// `client_id || server_id || client_eph || server_eph` as info.
pub open spec fn session_key(
    shared_secret: Seq<u8>,
    client_id_pub: Seq<u8>,
    server_id_pub: Seq<u8>,
    client_eph_pub: Seq<u8>,
    server_eph_pub: Seq<u8>,
) -> Seq<u8> {
    hkdf_sha256_32(shared_secret, client_id_pub + server_id_pub + client_eph_pub + server_eph_pub)
}

/// The ClientHello that the holder of `identity_secret` sends with the
/// ephemeral public value `eph_pub`.
pub open spec fn client_hello_by(identity_secret: Seq<u8>, eph_pub: Seq<u8>) -> HelloView {
    let id = ed25519_public(identity_secret);
    HelloView::Client {
        id,
        eph: eph_pub,
        sig: ed25519_signature(identity_secret, client_signed_bytes(id, eph_pub)),
    }
}

/// The ServerHello that the holder of `identity_secret` sends with the
/// ephemeral public value `eph_pub` in answer to the given client values.
pub open spec fn server_hello_by(
    identity_secret: Seq<u8>,
    eph_pub: Seq<u8>,
    client_id_pub: Seq<u8>,
    client_eph_pub: Seq<u8>,
) -> HelloView {
    let id = ed25519_public(identity_secret);
    HelloView::Server {
        id,
        eph: eph_pub,
        sig: ed25519_signature(
            identity_secret,
            server_signed_bytes(id, eph_pub, client_id_pub, client_eph_pub),
        ),
    }
}

/// Whether a responder trusting `authorized_client` accepts `msg`: a
/// ClientHello from that very identity, carrying a 64-byte signature that
/// verifies under it.
pub open spec fn client_hello_accepted(authorized_client: Seq<u8>, msg: HelloView) -> bool {
    match msg {
        HelloView::Client { id, eph, sig } => {
            &&& id == authorized_client
            &&& sig.len() == 64
            &&& ed25519_verifies(authorized_client, client_signed_bytes(id, eph), sig)
        },
        HelloView::Server { .. } => false,
    }
}

/// Whether an initiator trusting `authorized_server` accepts `msg` as the
/// answer to its own hello (`client_id_pub`, `client_eph_pub`).
pub open spec fn server_hello_accepted(
    authorized_server: Seq<u8>,
    client_id_pub: Seq<u8>,
    client_eph_pub: Seq<u8>,
    msg: HelloView,
) -> bool {
    match msg {
        HelloView::Server { id, eph, sig } => {
            &&& id == authorized_server
            &&& sig.len() == 64
            &&& ed25519_verifies(
                authorized_server,
                server_signed_bytes(id, eph, client_id_pub, client_eph_pub),
                sig,
            )
        },
        HelloView::Client { .. } => false,
    }
}

fn client_label_bytes() -> (r: [u8; 25])
    ensures
        r@ == client_label(),
{
    let r = [
        0x58, 0x42, 0x65, 0x65, 0x53, 0x65, 0x63, 0x75, 0x72, 0x65, 0x2F, 0x43, 0x6C, 0x69, 0x65,
        0x6E, 0x74, 0x48, 0x65, 0x6C, 0x6C, 0x6F, 0x2F, 0x76, 0x31,
    ];
    assert(r@ =~= client_label());
    r
}

fn server_label_bytes() -> (r: [u8; 25])
    ensures
        r@ == server_label(),
{
    let r = [
        0x58, 0x42, 0x65, 0x65, 0x53, 0x65, 0x63, 0x75, 0x72, 0x65, 0x2F, 0x53, 0x65, 0x72, 0x76,
        0x65, 0x72, 0x48, 0x65, 0x6C, 0x6C, 0x6F, 0x2F, 0x76, 0x31,
    ];
    assert(r@ =~= server_label());
    r
}

fn client_message(client_id_pub: [u8; 32], client_eph_pub: [u8; 32]) -> (r: Vec<u8>)
    ensures
        r@ == client_signed_bytes(client_id_pub@, client_eph_pub@),
{
    let mut msg: Vec<u8> = Vec::with_capacity(25 + 32 + 32);
    append_bytes(&mut msg, &client_label_bytes());
    append_bytes(&mut msg, &client_id_pub);
    append_bytes(&mut msg, &client_eph_pub);
    msg
}

fn server_message(
    server_id_pub: [u8; 32],
    server_eph_pub: [u8; 32],
    client_id_pub: [u8; 32],
    client_eph_pub: [u8; 32],
) -> (r: Vec<u8>)
    ensures
        r@ == server_signed_bytes(server_id_pub@, server_eph_pub@, client_id_pub@, client_eph_pub@),
{
    let mut msg: Vec<u8> = Vec::with_capacity(25 + 32 + 32 + 32 + 32);
    append_bytes(&mut msg, &server_label_bytes());
    append_bytes(&mut msg, &server_id_pub);
    append_bytes(&mut msg, &server_eph_pub);
    append_bytes(&mut msg, &client_id_pub);
    append_bytes(&mut msg, &client_eph_pub);
    msg
}

fn sign_client(sk: &[u8; 32], client_id_pub: [u8; 32], client_eph_pub: [u8; 32]) -> (r: Vec<u8>)
    ensures
        r@ == ed25519_signature(sk@, client_signed_bytes(client_id_pub@, client_eph_pub@)),
        r@.len() == 64,
{
    // Sign(label || client_id_pub || client_eph_pub)
    let msg = client_message(client_id_pub, client_eph_pub);
    let sig = ed25519_sign(sk, msg.as_slice());
    slice_to_vec(&sig)
}

/// The 64 bytes of `sig` as an array.
fn signature_array(sig: &[u8]) -> (r: [u8; 64])
    requires
        sig@.len() == 64,
    ensures
        r@ == sig@,
{
    let mut arr = [0u8; 64];
    for i in 0..64usize
        invariant
            sig@.len() == 64,
            arr@.len() == 64,
            forall|j: int| 0 <= j < i ==> arr@[j] == sig@[j],
    {
        arr[i] = sig[i];
    }
    assert(arr@ =~= sig@);
    arr
}

fn verify_client(pk: &[u8; 32], client_id_pub: [u8; 32], client_eph_pub: [u8; 32], sig: &[u8]) -> (r: bool)
    ensures
        r == (sig@.len() == 64 && ed25519_verifies(
            pk@,
            client_signed_bytes(client_id_pub@, client_eph_pub@),
            sig@,
        )),
        forall|s: Seq<u8>|
            s.len() == 32 && pk@ == ed25519_public(s) && sig@.len() == 64 && sig@
                == ed25519_signature(s, client_signed_bytes(client_id_pub@, client_eph_pub@)) ==> r,
{
    if sig.len() != 64 {
        return false;
    }
    let sig_arr = signature_array(sig);
    let msg = client_message(client_id_pub, client_eph_pub);
    ed25519_verify(pk, msg.as_slice(), &sig_arr)
}

fn sign_server(
    sk: &[u8; 32],
    server_id_pub: [u8; 32],
    server_eph_pub: [u8; 32],
    // Bind to client's values too, so server signature is tied to this exact session
    client_id_pub: [u8; 32],
    client_eph_pub: [u8; 32],
) -> (r: Vec<u8>)
    ensures
        r@ == ed25519_signature(
            sk@,
            server_signed_bytes(server_id_pub@, server_eph_pub@, client_id_pub@, client_eph_pub@),
        ),
        r@.len() == 64,
{
    let msg = server_message(server_id_pub, server_eph_pub, client_id_pub, client_eph_pub);
    let sig = ed25519_sign(sk, msg.as_slice());
    slice_to_vec(&sig)
}

fn verify_server(
    pk: &[u8; 32],
    server_id_pub: [u8; 32],
    server_eph_pub: [u8; 32],
    client_id_pub: [u8; 32],
    client_eph_pub: [u8; 32],
    sig: &[u8],
) -> (r: bool)
    ensures
        r == (sig@.len() == 64 && ed25519_verifies(
            pk@,
            server_signed_bytes(server_id_pub@, server_eph_pub@, client_id_pub@, client_eph_pub@),
            sig@,
        )),
        forall|s: Seq<u8>|
            s.len() == 32 && pk@ == ed25519_public(s) && sig@.len() == 64 && sig@
                == ed25519_signature(
                s,
                server_signed_bytes(
                    server_id_pub@,
                    server_eph_pub@,
                    client_id_pub@,
                    client_eph_pub@,
                ),
            ) ==> r,
{
    if sig.len() != 64 {
        return false;
    }
    let sig_arr = signature_array(sig);
    let msg = server_message(server_id_pub, server_eph_pub, client_id_pub, client_eph_pub);
    ed25519_verify(pk, msg.as_slice(), &sig_arr)
}

/// Derive a 32-byte AES key using HKDF from:
/// - shared_secret (X25519)
/// - transcript data (both identity pubkeys + both eph pubkeys)
fn derive_aes_key(
    shared_secret: [u8; 32],
    client_id_pub: [u8; 32],
    server_id_pub: [u8; 32],
    client_eph_pub: [u8; 32],
    server_eph_pub: [u8; 32],
) -> (r: [u8; 32])
    ensures
        r@ == session_key(
            shared_secret@,
            client_id_pub@,
            server_id_pub@,
            client_eph_pub@,
            server_eph_pub@,
        ),
{
    let mut info: Vec<u8> = Vec::with_capacity(32 * 4);
    append_bytes(&mut info, &client_id_pub);
    append_bytes(&mut info, &server_id_pub);
    append_bytes(&mut info, &client_eph_pub);
    append_bytes(&mut info, &server_eph_pub);
    hkdf_sha256_expand_32(&shared_secret, info.as_slice())
}

/// A fresh ephemeral secret and its X25519 public value.
fn new_ephemeral() -> (r: (EphemeralSecret, [u8; 32]))
    ensures
        r.0@.len() == 32,
        r.1@ == x25519_public(r.0@),
{
    let secret = random_secret();
    let base = x25519_basepoint_bytes();
    let public = x25519(&secret, &base);
    (EphemeralSecret { secret }, public)
}

/// Initiator side (the sender) creates a ClientHello.
///
/// Returns the hello, the ephemeral secret it announces, and the sender's
/// own identity public key.
pub fn make_client_hello(identity_sk: &[u8; 32]) -> (r: (HandshakeMsg, EphemeralSecret, [u8; 32]))
    ensures
        r.1@.len() == 32,
        r.2@ == ed25519_public(identity_sk@),
        r.0@ == client_hello_by(identity_sk@, x25519_public(r.1@)),
        r.0@.sig().len() == 64,
{
    let (client_eph_secret, client_eph_pub) = new_ephemeral();
    let client_id_pub = ed25519_public_key(identity_sk);
    let sig = sign_client(identity_sk, client_id_pub, client_eph_pub);
    (
        HandshakeMsg::ClientHello { client_identity_pub: client_id_pub, client_eph_pub, sig },
        client_eph_secret,
        client_id_pub,
    )
}

/// Responder side (the receiver) verifies ClientHello and creates ServerHello.
/// `authorized_client` is the public key trusted for the sender.
///
/// Returns the ServerHello, the responder's ephemeral secret, and the
/// client's identity and ephemeral public keys. A ClientHello made by the
/// holder of the authorized key is always answered.
pub fn respond_server_hello(
    identity_sk: &[u8; 32],
    authorized_client: &[u8; 32],
    client_msg: HandshakeMsg,
) -> (r: Option<(HandshakeMsg, EphemeralSecret, [u8; 32], [u8; 32])>)
    ensures
        r is Some <==> client_hello_accepted(authorized_client@, client_msg@),
        r matches Some((server_msg, server_eph_secret, client_id_pub, client_eph_pub)) ==> {
            &&& client_id_pub@ == client_msg@.id()
            &&& client_eph_pub@ == client_msg@.eph()
            &&& server_eph_secret@.len() == 32
            &&& server_msg@ == server_hello_by(
                identity_sk@,
                x25519_public(server_eph_secret@),
                client_id_pub@,
                client_eph_pub@,
            )
            &&& server_msg@.sig().len() == 64
        },
        forall|c: Seq<u8>, e: Seq<u8>|
            #![trigger client_hello_by(c, e)]
            c.len() == 32 && authorized_client@ == ed25519_public(c) && client_msg@
                == client_hello_by(c, e) && client_msg@.sig().len() == 64 ==> r is Some,
{
    let (client_identity_pub, client_eph_pub, sig) = match client_msg {
        HandshakeMsg::ClientHello { client_identity_pub, client_eph_pub, sig } => (
            client_identity_pub,
            client_eph_pub,
            sig,
        ),
        HandshakeMsg::ServerHello { .. } => {
            return None;
        },
    };

    // Enforce "which sender is allowed":
    // client_identity_pub must match the authorized_client.
    if !bytes_equal(authorized_client, &client_identity_pub) {
        return None;
    }
    if !verify_client(authorized_client, client_identity_pub, client_eph_pub, sig.as_slice()) {
        return None;
    }

    // Generate server ephemeral key
    let (server_eph_secret, server_eph_pub) = new_ephemeral();
    let server_id_pub = ed25519_public_key(identity_sk);
    let server_sig = sign_server(
        identity_sk,
        server_id_pub,
        server_eph_pub,
        client_identity_pub,
        client_eph_pub,
    );

    Some(
        (
            HandshakeMsg::ServerHello {
                server_identity_pub: server_id_pub,
                server_eph_pub,
                sig: server_sig,
            },
            server_eph_secret,
            client_identity_pub,
            client_eph_pub,
        ),
    )
}

/// Client verifies ServerHello and derives the session AES key.
/// `authorized_server` is the public key trusted for the receiver.
///
/// Returns the session key and the server's identity public key. A
/// ServerHello made by the holder of the authorized key in answer to this
/// client's hello is always accepted, and then both sides hold the same
/// key: the one [`finish_server`] derives from the server's ephemeral secret.
pub fn finish_client(
    authorized_server: &[u8; 32],
    client_eph_secret: EphemeralSecret,
    client_id_pub: [u8; 32],
    client_eph_pub: [u8; 32],
    server_msg: HandshakeMsg,
) -> (r: Option<([u8; 32], [u8; 32])>)
    ensures
        r is Some <==> server_hello_accepted(
            authorized_server@,
            client_id_pub@,
            client_eph_pub@,
            server_msg@,
        ),
        r matches Some((key, server_identity_pub)) ==> {
            &&& server_identity_pub@ == server_msg@.id()
            &&& key@ == session_key(
                x25519_spec(client_eph_secret@, server_msg@.eph()),
                client_id_pub@,
                server_msg@.id(),
                client_eph_pub@,
                server_msg@.eph(),
            )
        },
        // Both sides agree on the key.
        forall|se: Seq<u8>|
            #![trigger x25519_public(se)]
            se.len() == 32 && client_eph_pub@ == x25519_public(client_eph_secret@)
                && server_msg@.eph() == x25519_public(se) && r is Some ==> (r->0).0@
                == session_key(
                x25519_spec(se, client_eph_pub@),
                client_id_pub@,
                server_msg@.id(),
                client_eph_pub@,
                server_msg@.eph(),
            ),
        // The authorized server's answer is accepted.
        forall|s: Seq<u8>, e: Seq<u8>|
            #![trigger server_hello_by(s, e, client_id_pub@, client_eph_pub@)]
            s.len() == 32 && authorized_server@ == ed25519_public(s) && server_msg@
                == server_hello_by(s, e, client_id_pub@, client_eph_pub@) && server_msg@.sig().len()
                == 64 ==> r is Some,
{
    let (server_identity_pub, server_eph_pub, sig) = match server_msg {
        HandshakeMsg::ServerHello { server_identity_pub, server_eph_pub, sig } => (
            server_identity_pub,
            server_eph_pub,
            sig,
        ),
        HandshakeMsg::ClientHello { .. } => {
            return None;
        },
    };

    if !bytes_equal(authorized_server, &server_identity_pub) {
        return None;
    }
    if !verify_server(
        authorized_server,
        server_identity_pub,
        server_eph_pub,
        client_id_pub,
        client_eph_pub,
        sig.as_slice(),
    ) {
        return None;
    }

    let shared = x25519(&client_eph_secret.secret, &server_eph_pub);
    let key = derive_aes_key(
        shared,
        client_id_pub,
        server_identity_pub,
        client_eph_pub,
        server_eph_pub,
    );
    Some((key, server_identity_pub))
}

/// Server derives the session AES key after sending ServerHello.
pub fn finish_server(
    server_eph_secret: EphemeralSecret,
    server_id_pub: [u8; 32],
    server_eph_pub: [u8; 32],
    client_id_pub: [u8; 32],
    client_eph_pub: [u8; 32],
) -> (r: [u8; 32])
    ensures
        r@ == session_key(
            x25519_spec(server_eph_secret@, client_eph_pub@),
            client_id_pub@,
            server_id_pub@,
            client_eph_pub@,
            server_eph_pub@,
        ),
{
    let shared = x25519(&server_eph_secret.secret, &client_eph_pub);
    derive_aes_key(shared, client_id_pub, server_id_pub, client_eph_pub, server_eph_pub)
}

} // verus!
