//! Secure data packets:
//! - seq: sequence number used for replay protection
//! - nonce: derived from (sender_id || seq) -> 12 bytes
//! - AES-256-GCM encrypts payload (confidentiality) and authenticates (integrity)
//! - AAD authenticates header fields (sender_id, seq) without encrypting them
//!
//! The ciphertext and its tag travel in a fixed-capacity buffer; the
//! in-place AES-GCM API appends the tag to it.

use vstd::prelude::*;

use crate::api_mode::be64;
use crate::bytes::bytes_equal;
use crate::buffers::{
    cipher_buf_bytes, cipher_buf_extend, cipher_buf_new, cipher_buf_slice, plain_buf_bytes,
    plain_buf_extend, plain_buf_new,
};
use crate::crypto::{
    aes256gcm_decrypt_in_place, aes256gcm_encrypt_in_place, aes256gcm_open, aes256gcm_seal,
};

verus! {

/// Keep secured frames small enough to fit typical XBee 802.15.4 RF payloads.
/// The encrypted frame adds sender_id, seq, nonce, tag, and framing overhead.
pub const MAX_PLAINTEXT: usize = 64;

/// AES-GCM adds a 16-byte authentication tag.
pub const TAG_SIZE: usize = 16;

/// Buffer capacity for ciphertext+tag.
pub const MAX_CIPHERTEXT: usize = MAX_PLAINTEXT + TAG_SIZE;

/// This is the on-the-wire secured frame.
/// It is *already encrypted*. Receiver decrypts to recover the plaintext.
#[derive(Debug)]
pub struct SecureFrame {
    pub sender_id: [u8; 4],
    pub seq: u64,
    pub nonce: [u8; 12],
    pub ciphertext_with_tag: heapless::Vec<u8, MAX_CIPHERTEXT>,
}

/// `sender_id || big-endian seq`: both the nonce and the associated data.
pub open spec fn header_bytes(sender_id: Seq<u8>, seq: u64) -> Seq<u8> {
    sender_id + be64(seq)
}

/// The ciphertext bytes a frame carries.
pub open spec fn frame_ciphertext(frame: SecureFrame) -> Seq<u8> {
    cipher_buf_bytes(frame.ciphertext_with_tag)
}

/// Whether a frame's nonce is the one derived from its header.
pub open spec fn nonce_matches(frame: SecureFrame) -> bool {
    frame.nonce@ == header_bytes(frame.sender_id@, frame.seq)
}

/// What AES-256-GCM decryption of a frame's ciphertext yields under `key`.
pub open spec fn frame_opened(key: Seq<u8>, frame: SecureFrame) -> Option<Seq<u8>> {
    let h = header_bytes(frame.sender_id@, frame.seq);
    aes256gcm_open(key, h, h, frame_ciphertext(frame))
}

fn header(sender_id: [u8; 4], seq: u64) -> (r: [u8; 12])
    ensures
        r@ == header_bytes(sender_id@, seq),
{
    let mut n = [0u8; 12];
    let mut i = 0usize;
    while i < 4
        invariant
            0 <= i <= 4,
            n@.len() == 12,
            forall|j: int| 0 <= j < i ==> n@[j] == sender_id@[j],
        decreases 4 - i,
    {
        n[i] = sender_id[i];
        i += 1;
    }
    n[4] = (seq >> 56u64) as u8;
    n[5] = (seq >> 48u64) as u8;
    n[6] = (seq >> 40u64) as u8;
    n[7] = (seq >> 32u64) as u8;
    n[8] = (seq >> 24u64) as u8;
    n[9] = (seq >> 16u64) as u8;
    n[10] = (seq >> 8u64) as u8;
    n[11] = seq as u8;
    assert(n@ =~= header_bytes(sender_id@, seq));
    n
}

/// Derive a deterministic nonce from sender_id + seq.
/// Because a new AES session key is used per run, seq can start at 0 each run safely.
/// Nonce uniqueness requirement is per (key, nonce), so per-run key rotation makes this easy.
pub fn derive_nonce(sender_id: [u8; 4], seq: u64) -> (r: [u8; 12])
    ensures
        r@ == header_bytes(sender_id@, seq),
{
    header(sender_id, seq)
}

/// Build AAD: authenticate header fields without encrypting them.
/// This means attacker/corruption cannot modify sender_id/seq without failing auth.
fn build_aad(sender_id: [u8; 4], seq: u64) -> (r: [u8; 12])
    ensures
        r@ == header_bytes(sender_id@, seq),
{
    header(sender_id, seq)
}

/// Encrypt plaintext into a SecureFrame.
pub fn seal(aes_key: &[u8; 32], sender_id: [u8; 4], seq: u64, plaintext: &[u8]) -> (r: Result<
    SecureFrame,
    &'static str,
>)
    ensures
        plaintext@.len() <= MAX_PLAINTEXT <==> r is Ok,
        plaintext@.len() > MAX_PLAINTEXT ==> r == Err::<SecureFrame, &'static str>(
            "plaintext too large",
        ),
        r matches Ok(f) ==> {
            &&& f.sender_id == sender_id
            &&& f.seq == seq
            &&& f.nonce@ == header_bytes(sender_id@, seq)
            &&& frame_ciphertext(f) == aes256gcm_seal(
                aes_key@,
                header_bytes(sender_id@, seq),
                header_bytes(sender_id@, seq),
                plaintext@,
            )
            &&& frame_ciphertext(f).len() == plaintext@.len() + TAG_SIZE
        },
{
    if plaintext.len() > MAX_PLAINTEXT {
        return Err("plaintext too large");
    }
    let nonce_bytes = derive_nonce(sender_id, seq);
    let aad = build_aad(sender_id, seq);

    let mut buf: heapless::Vec<u8, MAX_CIPHERTEXT> = cipher_buf_new();
    if cipher_buf_extend(&mut buf, plaintext).is_err() {
        return Err("buffer overflow");
    }
    if aes256gcm_encrypt_in_place(aes_key, &nonce_bytes, &aad, &mut buf).is_err() {
        return Err("encrypt failed");
    }
    Ok(SecureFrame { sender_id, seq, nonce: nonce_bytes, ciphertext_with_tag: buf })
}

/// Decrypt a SecureFrame to plaintext.
///
/// A frame whose nonce is not the one derived from its header is refused
/// before any decryption; otherwise the frame opens exactly when AES-GCM
/// authenticates it, and a frame made by [`seal`] under the same key always
/// opens to the plaintext that was sealed.
pub fn open(aes_key: &[u8; 32], frame: &SecureFrame) -> (r: Result<
    heapless::Vec<u8, MAX_PLAINTEXT>,
    &'static str,
>)
    ensures
        !nonce_matches(*frame) <==> r == Err::<heapless::Vec<u8, MAX_PLAINTEXT>, &'static str>(
            "bad nonce",
        ),
        nonce_matches(*frame) ==> (r is Ok <==> frame_opened(aes_key@, *frame) is Some),
        nonce_matches(*frame) && frame_opened(aes_key@, *frame) is None ==> r == Err::<
            heapless::Vec<u8, MAX_PLAINTEXT>,
            &'static str,
        >("auth/decrypt failed"),
        r matches Ok(p) ==> Some(plain_buf_bytes(p)) == frame_opened(aes_key@, *frame),
        // What `seal` sealed, `open` gives back.
        forall|p: Seq<u8>|
            #![trigger aes256gcm_seal(aes_key@, frame.nonce@, frame.nonce@, p)]
            p.len() <= MAX_PLAINTEXT && nonce_matches(*frame) && frame_ciphertext(*frame)
                == aes256gcm_seal(aes_key@, frame.nonce@, frame.nonce@, p) ==> (r matches Ok(q)
                && plain_buf_bytes(q) == p),
{
    let expected = derive_nonce(frame.sender_id, frame.seq);
    if !bytes_equal(&frame.nonce, &expected) {
        return Err("bad nonce");
    }
    assert(frame.nonce@ =~= expected@);
    let nonce = frame.nonce;
    let aad = build_aad(frame.sender_id, frame.seq);

    let mut buf: heapless::Vec<u8, MAX_CIPHERTEXT> = cipher_buf_new();
    let ct = cipher_buf_slice(&frame.ciphertext_with_tag);
    if cipher_buf_extend(&mut buf, ct).is_err() {
        return Err("buffer overflow");
    }
    if aes256gcm_decrypt_in_place(aes_key, &nonce, &aad, &mut buf).is_err() {
        return Err("auth/decrypt failed");
    }
    let mut out: heapless::Vec<u8, MAX_PLAINTEXT> = plain_buf_new();
    let pt = cipher_buf_slice(&buf);
    if plain_buf_extend(&mut out, pt).is_err() {
        return Err("overflow");
    }
    Ok(out)
}

/// The nonce (and associated data) of a frame is its 4-byte sender id
/// followed by its sequence number, most significant byte first: 12 bytes
/// from which both are read back.
pub proof fn lemma_header_layout(sender_id: Seq<u8>, seq: u64)
    requires
        sender_id.len() == 4,
    ensures
        ({
            let h = header_bytes(sender_id, seq);
            &&& h.len() == 12
            &&& h.take(4) == sender_id
            &&& h[4] as int * 0x100_0000_0000_0000 + h[5] as int * 0x1_0000_0000_0000 + h[6] as int
                * 0x100_0000_0000 + h[7] as int * 0x1_0000_0000 + h[8] as int * 0x100_0000
                + h[9] as int * 0x1_0000 + h[10] as int * 0x100 + h[11] as int == seq as int
        }),
{
    let h = header_bytes(sender_id, seq);
    assert(h.take(4) =~= sender_id);
    let x = seq;
    let (b0, b1, b2, b3, b4, b5, b6, b7) = (
        (x >> 56u64) as u8,
        (x >> 48u64) as u8,
        (x >> 40u64) as u8,
        (x >> 32u64) as u8,
        (x >> 24u64) as u8,
        (x >> 16u64) as u8,
        (x >> 8u64) as u8,
        x as u8,
    );
    assert(b0 as int * 0x100_0000_0000_0000 + b1 as int * 0x1_0000_0000_0000 + b2 as int
        * 0x100_0000_0000 + b3 as int * 0x1_0000_0000 + b4 as int * 0x100_0000 + b5 as int
        * 0x1_0000 + b6 as int * 0x100 + b7 as int == x as int) by (bit_vector)
        requires
            b0 == (x >> 56u64) as u8,
            b1 == (x >> 48u64) as u8,
            b2 == (x >> 40u64) as u8,
            b3 == (x >> 32u64) as u8,
            b4 == (x >> 24u64) as u8,
            b5 == (x >> 16u64) as u8,
            b6 == (x >> 8u64) as u8,
            b7 == x as u8,
    ;
}

} // verus!
