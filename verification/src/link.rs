//! Splitting a byte stream into 0x00-delimited frames (COBS on the wire,
//! one frame per message).
//!
//! Keep one reader per transport for the life of the connection: bytes that
//! arrive after a frame's 0x00 delimiter are retained for the next call,
//! which a stateless helper would silently drop. Receiving the bytes and
//! decoding the frames is the caller's part.

use vstd::prelude::*;

verus! {

/// The frame delimiter.
pub const FRAME_DELIMITER: u8 = 0x00;

/// Accumulates transport bytes and splits them into frames.
pub struct FrameReader {
    rx: Vec<u8>,
}

impl View for FrameReader {
    type V = Seq<u8>;

    /// The bytes received and not yet handed out, in order.
    closed spec fn view(&self) -> Seq<u8> {
        self.rx@
    }
}

/// Whether `s` holds no delimiter.
pub open spec fn has_no_delimiter(s: Seq<u8>) -> bool {
    forall|i: int| 0 <= i < s.len() ==> s[i] != FRAME_DELIMITER
}

impl FrameReader {
    pub fn new() -> (r: Self)
        ensures
            r@ == Seq::<u8>::empty(),
    {
        FrameReader { rx: Vec::new() }
    }

    /// Append bytes received from the transport.
    pub fn extend(&mut self, data: &[u8])
        ensures
            final(self)@ == old(self)@ + data@,
    {
        crate::bytes::append_bytes(&mut self.rx, data);
    }

    /// Take one complete frame (up to and including the first 0x00
    /// delimiter) if one has arrived; the bytes after it stay buffered.
    ///
    /// Nothing is lost or reordered: the frame followed by what stays
    /// buffered is exactly what was buffered before.
    pub fn next_frame(&mut self) -> (r: Option<Vec<u8>>)
        ensures
            match r {
                Some(frame) => {
                    &&& frame@ + final(self)@ == old(self)@
                    &&& frame@.len() > 0
                    &&& frame@.last() == FRAME_DELIMITER
                    &&& has_no_delimiter(frame@.drop_last())
                },
                None => final(self)@ == old(self)@ && has_no_delimiter(old(self)@),
            },
    {
        let n = self.rx.len();
        let mut pos: usize = 0;
        while pos < n
            invariant
                n == self.rx@.len(),
                self.rx@ == old(self)@,
                0 <= pos <= n,
                has_no_delimiter(self.rx@.take(pos as int)),
            ensures
                0 <= pos <= n,
                self.rx@ == old(self)@,
                has_no_delimiter(self.rx@.take(pos as int)),
                pos < n ==> self.rx@[pos as int] == FRAME_DELIMITER,
            decreases n - pos,
        {
            if self.rx[pos] == FRAME_DELIMITER {
                break;
            }
            assert(self.rx@.take(pos + 1) =~= self.rx@.take(pos as int).push(self.rx@[pos as int]));
            pos += 1;
        }
        if pos == n {
            assert(self.rx@.take(n as int) =~= self.rx@);
            return None;
        }
        let mut frame: Vec<u8> = Vec::new();
        let mut rest: Vec<u8> = Vec::new();
        for i in 0..n
            invariant
                n == self.rx@.len(),
                pos < n,
                i <= pos + 1 ==> frame@ == self.rx@.take(i as int) && rest@ == Seq::<u8>::empty(),
                i > pos + 1 ==> frame@ == self.rx@.take(pos + 1) && rest@ == self.rx@.subrange(
                    pos + 1,
                    i as int,
                ),
        {
            if i <= pos {
                frame.push(self.rx[i]);
                assert(frame@ =~= self.rx@.take(i + 1));
            } else {
                rest.push(self.rx[i]);
                assert(rest@ =~= self.rx@.subrange(pos + 1, i + 1));
            }
        }
        assert(frame@.drop_last() =~= self.rx@.take(pos as int));
        assert(frame@ + rest@ =~= self.rx@);
        self.rx = rest;
        Some(frame)
    }
}

} // verus!
