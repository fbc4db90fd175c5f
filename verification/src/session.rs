//! Secure session state: sequence numbers, the replay window, AES-256-GCM and
//! receive statistics, for payload-agnostic byte pipes.
//!
//! [`SenderSession`] is the state of the handshake client once a session key
//! is established; [`ReceiverSession`] that of the handshake server. Each
//! method is one decision of the session: what to seal next, and what a
//! received frame means. Moving the frames over a transport, waiting and
//! re-running handshakes are the caller's part.

use vstd::prelude::*;

use crate::buffers::plain_buf_bytes;
use crate::replay::{is_accepted, spec_after_accept, spec_decide, InOrder, InOrderDecision};
use crate::secure_packet::{
    frame_ciphertext, frame_opened, header_bytes, nonce_matches, open, seal, SecureFrame,
    MAX_PLAINTEXT,
};
use crate::crypto::aes256gcm_seal;

verus! {

/// Largest payload one frame carries.
pub const MAX_PAYLOAD: usize = MAX_PLAINTEXT;

/// Decrypted payload bytes (capacity bounded by [`MAX_PAYLOAD`]).
pub type Payload = heapless::Vec<u8, MAX_PLAINTEXT>;

/// Handshake initiator + encrypting sender, once the session key is agreed.
pub struct SenderSession {
    aes_key: [u8; 32],
    sender_id: [u8; 4],
    seq: u64,
}

/// A sender session as plain values.
pub struct SenderView {
    pub aes_key: Seq<u8>,
    pub sender_id: Seq<u8>,
    pub seq: u64,
}

impl View for SenderSession {
    type V = SenderView;

    closed spec fn view(&self) -> SenderView {
        SenderView { aes_key: self.aes_key@, sender_id: self.sender_id@, seq: self.seq }
    }
}

impl SenderSession {
    /// A session that starts numbering frames at 0.
    pub fn new(aes_key: [u8; 32], sender_id: [u8; 4]) -> (r: Self)
        ensures
            r@ == (SenderView { aes_key: aes_key@, sender_id: sender_id@, seq: 0 }),
    {
        SenderSession { aes_key, sender_id, seq: 0 }
    }

    /// Encrypt `plaintext` (≤ [`MAX_PAYLOAD`] bytes) as the next frame.
    pub fn seal_payload(&self, plaintext: &[u8]) -> (r: Result<SecureFrame, &'static str>)
        ensures
            plaintext@.len() <= MAX_PAYLOAD <==> r is Ok,
            plaintext@.len() > MAX_PAYLOAD ==> r == Err::<SecureFrame, &'static str>(
                "plaintext too large",
            ),
            r matches Ok(f) ==> {
                &&& f.sender_id@ == self@.sender_id
                &&& f.seq == self@.seq
                &&& nonce_matches(f)
                &&& frame_ciphertext(f) == aes256gcm_seal(
                    self@.aes_key,
                    header_bytes(self@.sender_id, self@.seq),
                    header_bytes(self@.sender_id, self@.seq),
                    plaintext@,
                )
            },
    {
        seal(&self.aes_key, self.sender_id, self.seq, plaintext)
    }

    /// Record that the frame made by [`Self::seal_payload`] was sent.
    /// Returns the sequence number it used; the next frame uses the next one.
    pub fn commit_sent(&mut self) -> (r: u64)
        ensures
            r == old(self)@.seq,
            final(self)@ == (SenderView {
                seq: if old(self)@.seq == u64::MAX {
                    0
                } else {
                    (old(self)@.seq + 1) as u64
                },
                ..old(self)@
            }),
    {
        let used = self.seq;
        self.seq = self.seq.wrapping_add(1);
        used
    }

    pub fn sender_id(&self) -> (r: [u8; 4])
        ensures
            r@ == self@.sender_id,
    {
        self.sender_id
    }
}

/// Two different sequence numbers give two different nonces, so frames of
/// one session never reuse a nonce until the sequence number wraps.
pub proof fn lemma_distinct_seq_distinct_nonce(sender_id: Seq<u8>, s1: u64, s2: u64)
    requires
        s1 != s2,
    ensures
        header_bytes(sender_id, s1) != header_bytes(sender_id, s2),
{
    let h1 = header_bytes(sender_id, s1);
    let h2 = header_bytes(sender_id, s2);
    if h1 == h2 {
        let n = sender_id.len() as int;
        let b1 = crate::api_mode::be64(s1);
        let b2 = crate::api_mode::be64(s2);
        assert(forall|k: int| 0 <= k < 8 ==> #[trigger] b1[k] == h1[n + k] && b2[k] == h2[n + k]);
        assert(b1[0] == b2[0] && b1[1] == b2[1] && b1[2] == b2[2] && b1[3] == b2[3]);
        assert(b1[4] == b2[4] && b1[5] == b2[5] && b1[6] == b2[6] && b1[7] == b2[7]);
        let (a0, a1, a2, a3, a4, a5, a6, a7) = (b1[0], b1[1], b1[2], b1[3], b1[4], b1[5], b1[6], b1[7]);
        assert(s1 == s2) by (bit_vector)
            requires
                a0 == (s1 >> 56u64) as u8 && a0 == (s2 >> 56u64) as u8,
                a1 == (s1 >> 48u64) as u8 && a1 == (s2 >> 48u64) as u8,
                a2 == (s1 >> 40u64) as u8 && a2 == (s2 >> 40u64) as u8,
                a3 == (s1 >> 32u64) as u8 && a3 == (s2 >> 32u64) as u8,
                a4 == (s1 >> 24u64) as u8 && a4 == (s2 >> 24u64) as u8,
                a5 == (s1 >> 16u64) as u8 && a5 == (s2 >> 16u64) as u8,
                a6 == (s1 >> 8u64) as u8 && a6 == (s2 >> 8u64) as u8,
                a7 == s1 as u8 && a7 == s2 as u8,
        ;
    }
}

/// Receive-side counters, exposed for status displays / health telemetry.
/// Each counter wraps around at `u64::MAX`.
#[derive(Debug, Clone)]
pub struct RxStats {
    pub ok: u64,
    pub auth_fail: u64,
    pub dup_or_old_drop: u64,
    pub skipped_packets: u64,
    pub decode_fail: u64,
    pub rehandshakes: u64,
}

impl Default for RxStats {
    fn default() -> (r: Self)
        ensures
            r.ok == 0 && r.auth_fail == 0 && r.dup_or_old_drop == 0 && r.skipped_packets == 0
                && r.decode_fail == 0 && r.rehandshakes == 0,
    {
        RxStats {
            ok: 0,
            auth_fail: 0,
            dup_or_old_drop: 0,
            skipped_packets: 0,
            decode_fail: 0,
            rehandshakes: 0,
        }
    }
}

/// `x + by`, wrapping around at `u64::MAX`.
pub open spec fn bump(x: u64, by: u64) -> u64 {
    ((x as int + by as int) % 0x1_0000_0000_0000_0000) as u64
}

fn count(x: u64, by: u64) -> (r: u64)
    ensures
        r == bump(x, by),
{
    x.wrapping_add(by)
}

/// Handshake responder + decrypting receiver, once a session key is agreed.
pub struct ReceiverSession {
    aes_key: [u8; 32],
    inorder: InOrder,
    pub stats: RxStats,
}

impl ReceiverSession {
    /// The session key.
    pub closed spec fn key(&self) -> Seq<u8> {
        self.aes_key@
    }

    /// The receive counters.
    pub closed spec fn rx_stats(&self) -> RxStats {
        self.stats
    }

    /// The next sequence number the replay window expects.
    pub closed spec fn expected_seq(&self) -> u64 {
        self.inorder@
    }

    /// A fresh session: the replay window expects 0 and all counters are 0.
    pub fn new(aes_key: [u8; 32]) -> (r: Self)
        ensures
            r.key() == aes_key@,
            r.expected_seq() == 0,
            r.rx_stats().ok == 0 && r.rx_stats().auth_fail == 0 && r.rx_stats().dup_or_old_drop == 0
                && r.rx_stats().skipped_packets == 0 && r.rx_stats().decode_fail == 0
                && r.rx_stats().rehandshakes == 0,
    {
        ReceiverSession { aes_key, inorder: InOrder::default(), stats: RxStats::default() }
    }

    /// The sender restarted and a new handshake succeeded: switch to the new
    /// key and reset the replay window, so the new session's sequence numbers
    /// (starting again at 0) are not taken for replays.
    pub fn rekey(&mut self, aes_key: [u8; 32])
        ensures
            final(self).key() == aes_key@,
            final(self).expected_seq() == 0,
            final(self).rx_stats() == (RxStats {
                rehandshakes: bump(old(self).rx_stats().rehandshakes, 1),
                ..old(self).rx_stats()
            }),
    {
        self.aes_key = aes_key;
        self.inorder = InOrder::default();
        self.stats.rehandshakes = count(self.stats.rehandshakes, 1);
    }

    /// A frame arrived that did not decode, or a handshake message that was
    /// not a valid hello from the authorized sender.
    pub fn note_decode_failure(&mut self)
        ensures
            final(self).key() == old(self).key(),
            final(self).expected_seq() == old(self).expected_seq(),
            final(self).rx_stats() == (RxStats {
                decode_fail: bump(old(self).rx_stats().decode_fail, 1),
                ..old(self).rx_stats()
            }),
    {
        self.stats.decode_fail = count(self.stats.decode_fail, 1);
    }

    /// A data frame arrived: reject old frames before decrypting; commit a
    /// newer sequence number only after authentication succeeds (the
    /// sequence number is authenticated as GCM associated data). Returns the
    /// payload of an authentic, fresh frame.
    pub fn accept_frame(&mut self, frame: &SecureFrame) -> (r: Option<heapless::Vec<u8, MAX_PLAINTEXT>>)
        ensures
            final(self).key() == old(self).key(),
            // Replays and duplicates are dropped without decrypting.
            spec_decide(old(self).expected_seq(), frame.seq) == InOrderDecision::DropOldOrDuplicate
                ==> r is None && final(self).expected_seq() == old(self).expected_seq()
                && final(self).rx_stats() == (RxStats {
                dup_or_old_drop: bump(old(self).rx_stats().dup_or_old_drop, 1),
                ..old(self).rx_stats()
            }),
            // A fresh frame is delivered exactly when it opens.
            is_accepted(spec_decide(old(self).expected_seq(), frame.seq)) ==> (r is Some <==> (
            nonce_matches(*frame) && frame_opened(old(self).key(), *frame) is Some)),
            // Failed authentication leaves the replay window where it was.
            is_accepted(spec_decide(old(self).expected_seq(), frame.seq)) && r is None
                ==> final(self).expected_seq() == old(self).expected_seq() && final(self).rx_stats()
                == (RxStats {
                auth_fail: bump(old(self).rx_stats().auth_fail, 1),
                ..old(self).rx_stats()
            }),
            // A fresh frame sealed under the session key is delivered with
            // the plaintext that was sealed.
            forall|p: Seq<u8>|
                #![trigger aes256gcm_seal(old(self).key(), frame.nonce@, frame.nonce@, p)]
                is_accepted(spec_decide(old(self).expected_seq(), frame.seq)) && p.len()
                    <= MAX_PLAINTEXT && nonce_matches(*frame) && frame_ciphertext(*frame)
                    == aes256gcm_seal(old(self).key(), frame.nonce@, frame.nonce@, p) ==> (r matches Some(
                    q,
                ) && plain_buf_bytes(q) == p),
            r matches Some(p) ==> {
                &&& Some(plain_buf_bytes(p)) == frame_opened(old(self).key(), *frame)
                &&& final(self).expected_seq() == spec_after_accept(
                    old(self).expected_seq(),
                    frame.seq,
                )
                &&& final(self).rx_stats() == (RxStats {
                    ok: bump(old(self).rx_stats().ok, 1),
                    skipped_packets: bump(
                        old(self).rx_stats().skipped_packets,
                        match spec_decide(old(self).expected_seq(), frame.seq) {
                            InOrderDecision::AcceptWithGap { missed } => missed,
                            _ => 0,
                        },
                    ),
                    ..old(self).rx_stats()
                })
            },
    {
        let skipped = match self.inorder.decide(frame.seq) {
            InOrderDecision::Accept => 0,
            InOrderDecision::AcceptWithGap { missed } => missed,
            InOrderDecision::DropOldOrDuplicate => {
                self.stats.dup_or_old_drop = count(self.stats.dup_or_old_drop, 1);
                return None;
            },
        };
        match open(&self.aes_key, frame) {
            Ok(plaintext) => {
                self.inorder.mark_accepted(frame.seq);
                self.stats.skipped_packets = count(self.stats.skipped_packets, skipped);
                self.stats.ok = count(self.stats.ok, 1);
                Some(plaintext)
            },
            Err(_) => {
                self.stats.auth_fail = count(self.stats.auth_fail, 1);
                None
            },
        }
    }
}

} // verus!
