//! XBee API mode **AP=2 (escaped)** framing for XBee / XBee-PRO SX.
//!
//! Wire format (after escaping):
//!
//! `0x7E` | escaped LEN_MSB | escaped LEN_LSB | escaped *frame data* | escaped *checksum*
//!
//! **LEN** = number of bytes in *frame data* (frame type through last RF /
//! payload byte). **Checksum** = `0xFF - (sum(frame data) mod 256)`.
//!
//! Bytes `0x7E`, `0x7D`, `0x11`, `0x13` in LEN, frame data, and checksum are
//! sent as `0x7D` followed by `(byte XOR 0x20)`.

use vstd::prelude::*;

use crate::buffers::{api_buf_new, api_buf_push, api_buf_extend, api_buf_slice, api_buf_clear, api_buf_bytes};

verus! {

pub const START_DELIMITER: u8 = 0x7E;

pub const ESCAPE: u8 = 0x7D;

pub const XON: u8 = 0x11;

pub const XOFF: u8 = 0x13;

pub const ESCAPE_XOR: u8 = 0x20;

pub const FRAME_TX_REQUEST: u8 = 0x10;

pub const FRAME_TX_STATUS_EXT: u8 = 0x8B;

pub const FRAME_TX_STATUS: u8 = 0x89;

pub const FRAME_RX_PACKET: u8 = 0x90;

pub const FRAME_MODEM_STATUS: u8 = 0x8A;

/// Broadcast 64-bit destination (Digi SX / DigiMesh style).
pub const BROADCAST_ADDR_64: u64 = 0x0000_0000_0000_FFFF;

/// Typical "reserved / unknown" 16-bit field in 0x10 / 0x90.
pub const UNKNOWN_ADDR_16: u16 = 0xFFFE;

/// Max *unescaped* API frame data (frame type … last payload byte) we buffer.
pub const MAX_API_BODY: usize = 1024;

/// 0x10: type + id + dest64 + reserved16 + radius + options = 14 bytes before RF payload.
pub const TX_REQUEST_HEADER_LEN: usize = 14;

/// 0x90: type + src64 + reserved16 + options = 12 bytes before RF payload.
pub const RX_PACKET_HEADER_LEN: usize = 12;

/// Max RF payload bytes accepted in one `encode_tx_request_ap2` call.
pub const MAX_RF_PAYLOAD: usize = MAX_API_BODY - TX_REQUEST_HEADER_LEN;

#[derive(Debug, Clone, Copy, PartialEq, Eq)]
pub enum ApiError {
    BadEscape,
    PayloadTooLarge,
    OutputBufferTooSmall,
}

// ---------------------------------------------------------------------------
// Byte-level model of the wire format

/// The four bytes that are escaped on the wire.
pub open spec fn spec_needs_escape(b: u8) -> bool {
    b == START_DELIMITER || b == ESCAPE || b == XON || b == XOFF
}

/// What the second byte of an escape pair stands for.
pub open spec fn spec_unescape_second(second: u8) -> Result<u8, ApiError> {
    if spec_needs_escape(second ^ ESCAPE_XOR) {
        Ok(second ^ ESCAPE_XOR)
    } else {
        Err(ApiError::BadEscape)
    }
}

/// Sum of all bytes, as a natural number.
pub open spec fn byte_sum(s: Seq<u8>) -> nat
    decreases s.len(),
{
    if s.len() == 0 {
        0
    } else {
        byte_sum(s.drop_last()) + (s.last() as nat)
    }
}

/// `0xFF - (sum(frame data) mod 256)`.
pub open spec fn spec_checksum(frame_data: Seq<u8>) -> u8 {
    (255 - byte_sum(frame_data) % 256) as u8
}

/// One byte as it appears on the wire.
pub open spec fn escape_byte(b: u8) -> Seq<u8> {
    if spec_needs_escape(b) {
        seq![ESCAPE, b ^ ESCAPE_XOR]
    } else {
        seq![b]
    }
}

/// A byte string as it appears on the wire.
pub open spec fn escape_all(s: Seq<u8>) -> Seq<u8>
    decreases s.len(),
{
    if s.len() == 0 {
        Seq::empty()
    } else {
        escape_all(s.drop_last()) + escape_byte(s.last())
    }
}

/// Big-endian bytes of a `u16`.
pub open spec fn be16(n: u16) -> Seq<u8> {
    seq![(n >> 8u16) as u8, n as u8]
}

/// Big-endian bytes of a `u64`.
pub open spec fn be64(x: u64) -> Seq<u8> {
    seq![
        (x >> 56u64) as u8,
        (x >> 48u64) as u8,
        (x >> 40u64) as u8,
        (x >> 32u64) as u8,
        (x >> 24u64) as u8,
        (x >> 16u64) as u8,
        (x >> 8u64) as u8,
        x as u8,
    ]
}

/// Frame data of a Transmit Request (0x10).
pub open spec fn tx_request_frame_data(
    frame_id: u8,
    dest_addr_64: u64,
    dest_addr_16: u16,
    broadcast_radius: u8,
    transmit_options: u8,
    rf_data: Seq<u8>,
) -> Seq<u8> {
    seq![FRAME_TX_REQUEST, frame_id] + be64(dest_addr_64) + be16(dest_addr_16) + seq![
        broadcast_radius,
        transmit_options,
    ] + rf_data
}

/// A complete escaped API frame carrying `frame_data`.
pub open spec fn api_wire_frame(frame_data: Seq<u8>) -> Seq<u8> {
    seq![START_DELIMITER] + escape_all(be16(frame_data.len() as u16)) + escape_all(frame_data)
        + escape_byte(spec_checksum(frame_data))
}

/// `s` with `w` written over it starting at index `at`.
pub open spec fn overwrite(s: Seq<u8>, at: int, w: Seq<u8>) -> Seq<u8> {
    s.take(at) + w + s.skip(at + w.len())
}

// ---------------------------------------------------------------------------
// Executable codec

pub fn needs_escape(b: u8) -> (r: bool)
    ensures
        r == spec_needs_escape(b),
{
    b == START_DELIMITER || b == ESCAPE || b == XON || b == XOFF
}

fn unescape_second(second: u8) -> (r: Result<u8, ApiError>)
    ensures
        r == spec_unescape_second(second),
{
    let v = second ^ ESCAPE_XOR;
    if needs_escape(v) {
        Ok(v)
    } else {
        Err(ApiError::BadEscape)
    }
}

/// API checksum over *frame data* only (not length, not checksum byte).
pub fn api_checksum(frame_data: &[u8]) -> (r: u8)
    ensures
        r == spec_checksum(frame_data@),
{
    let mut sum: u8 = 0;
    let n = frame_data.len();
    for i in 0..n
        invariant
            n == frame_data@.len(),
            sum == byte_sum(frame_data@.take(i as int)) % 256,
    {
        assert(frame_data@.take(i + 1).drop_last() =~= frame_data@.take(i as int));
        let b = frame_data[i];
        sum = sum.wrapping_add(b);
    }
    assert(frame_data@.take(n as int) =~= frame_data@);
    0xFF - sum
}

fn push_escaped(out: &mut [u8], pos: &mut usize, b: u8) -> (r: Result<(), ApiError>)
    ensures
        final(out)@.len() == old(out)@.len(),
        (*old(pos) + escape_byte(b).len() <= old(out)@.len()) <==> r is Ok,
        r is Ok ==> *final(pos) == *old(pos) + escape_byte(b).len() && final(out)@ == overwrite(
            old(out)@,
            *old(pos) as int,
            escape_byte(b),
        ),
        r is Err ==> r == Err::<(), ApiError>(ApiError::OutputBufferTooSmall) && final(out)@
            == old(out)@ && *final(pos) == *old(pos),
{
    if needs_escape(b) {
        let p = *pos;
        if out.len() < 2 || p > out.len() - 2 {
            return Err(ApiError::OutputBufferTooSmall);
        }
        out[p] = ESCAPE;
        out[p + 1] = b ^ ESCAPE_XOR;
        *pos = p + 2;
        assert(out@ =~= overwrite(old(out)@, p as int, escape_byte(b)));
    } else {
        let p = *pos;
        if p >= out.len() {
            return Err(ApiError::OutputBufferTooSmall);
        }
        out[p] = b;
        *pos = p + 1;
        assert(out@ =~= overwrite(old(out)@, p as int, escape_byte(b)));
    }
    Ok(())
}

proof fn lemma_escape_all_push(s: Seq<u8>, b: u8)
    ensures
        escape_all(s.push(b)) == escape_all(s) + escape_byte(b),
{
    assert(s.push(b).drop_last() =~= s);
}

/// Escaping distributes over concatenation.
pub proof fn lemma_escape_all_concat(a: Seq<u8>, b: Seq<u8>)
    ensures
        escape_all(a + b) == escape_all(a) + escape_all(b),
    decreases b.len(),
{
    if b.len() == 0 {
        assert(a + b =~= a);
        assert(escape_all(a) + escape_all(b) =~= escape_all(a));
    } else {
        let b0 = b.drop_last();
        lemma_escape_all_concat(a, b0);
        assert((a + b).drop_last() =~= a + b0);
        assert((a + b).last() == b.last());
        assert(escape_all(a) + escape_all(b) =~= escape_all(a) + escape_all(b0) + escape_byte(
            b.last(),
        ));
    }
}

fn push_escaped_all(out: &mut [u8], pos: &mut usize, bytes: &[u8]) -> (r: Result<(), ApiError>)
    ensures
        final(out)@.len() == old(out)@.len(),
        (*old(pos) + escape_all(bytes@).len() <= old(out)@.len()) <==> r is Ok,
        r is Ok ==> *final(pos) == *old(pos) + escape_all(bytes@).len() && final(out)@ == overwrite(
            old(out)@,
            *old(pos) as int,
            escape_all(bytes@),
        ),
        r is Err ==> r == Err::<(), ApiError>(ApiError::OutputBufferTooSmall),
{
    if *pos > out.len() {
        return Err(ApiError::OutputBufferTooSmall);
    }
    let n = bytes.len();
    let ghost start = *pos;
    let ghost orig = out@;
    for i in 0..n
        invariant
            n == bytes@.len(),
            orig == old(out)@,
            start == *old(pos),
            out@.len() == orig.len(),
            start <= orig.len(),
            *pos == start + escape_all(bytes@.take(i as int)).len(),
            *pos <= out@.len(),
            out@ == overwrite(orig, start as int, escape_all(bytes@.take(i as int))),
    {
        let ghost before = out@;
        let ghost p0 = *pos;
        proof {
            assert(bytes@.take(i + 1) =~= bytes@.take(i as int).push(bytes@[i as int]));
            lemma_escape_all_push(bytes@.take(i as int), bytes@[i as int]);
            lemma_escape_all_concat(bytes@.take(i + 1), bytes@.skip(i + 1));
            assert(bytes@.take(i + 1) + bytes@.skip(i + 1) =~= bytes@);
        }
        match push_escaped(out, pos, bytes[i]) {
            Ok(()) => {},
            Err(e) => {
                return Err(e);
            },
        }
        proof {
            let e0 = escape_all(bytes@.take(i as int));
            let eb = escape_byte(bytes@[i as int]);
            assert(out@ =~= overwrite(orig, start as int, e0 + eb));
        }
    }
    assert(bytes@.take(n as int) =~= bytes@);
    Ok(())
}

fn be_bytes_u16(n: u16) -> (r: [u8; 2])
    ensures
        r@ == be16(n),
{
    let r = [(n >> 8u16) as u8, n as u8];
    assert(r@ =~= be16(n));
    r
}

pub(crate) fn be_bytes_u64(x: u64) -> (r: [u8; 8])
    ensures
        r@ == be64(x),
{
    let r = [
        (x >> 56u64) as u8,
        (x >> 48u64) as u8,
        (x >> 40u64) as u8,
        (x >> 32u64) as u8,
        (x >> 24u64) as u8,
        (x >> 16u64) as u8,
        (x >> 8u64) as u8,
        x as u8,
    ];
    assert(r@ =~= be64(x));
    r
}

/// Encode a **Transmit Request 0x10** frame (AP=2 escaped) into `out`.
///
/// `broadcast_radius`: `0` = use module **NH** (recommended for broadcast).
/// `transmit_options`: `0` = use module **TO** for option bits.
///
/// Returns the slice of `out` written (starts with `0x7E`).
pub fn encode_tx_request_ap2<'a>(
    out: &'a mut [u8],
    frame_id: u8,
    dest_addr_64: u64,
    dest_addr_16: u16,
    broadcast_radius: u8,
    transmit_options: u8,
    rf_data: &[u8],
) -> (r: Result<&'a [u8], ApiError>)
    ensures
        final(out)@.len() == old(out)@.len(),
        rf_data@.len() > MAX_RF_PAYLOAD <==> r == Err::<&'a [u8], ApiError>(
            ApiError::PayloadTooLarge,
        ),
        ({
            let wire = api_wire_frame(
                tx_request_frame_data(
                    frame_id,
                    dest_addr_64,
                    dest_addr_16,
                    broadcast_radius,
                    transmit_options,
                    rf_data@,
                ),
            );
            &&& (rf_data@.len() <= MAX_RF_PAYLOAD && wire.len() <= old(out)@.len()) <==> r is Ok
            &&& (rf_data@.len() <= MAX_RF_PAYLOAD && wire.len() > old(out)@.len()) <==> r
                == Err::<&'a [u8], ApiError>(ApiError::OutputBufferTooSmall)
            &&& r matches Ok(w) ==> w@ == wire && final(out)@ == overwrite(old(out)@, 0, wire)
        }),
{
    if rf_data.len() > MAX_RF_PAYLOAD {
        return Err(ApiError::PayloadTooLarge);
    }
    let ghost data = tx_request_frame_data(
        frame_id,
        dest_addr_64,
        dest_addr_16,
        broadcast_radius,
        transmit_options,
        rf_data@,
    );
    let mut inner: heapless::Vec<u8, MAX_API_BODY> = api_buf_new();
    if api_buf_push(&mut inner, FRAME_TX_REQUEST).is_err() {
        return Err(ApiError::PayloadTooLarge);
    }
    if api_buf_push(&mut inner, frame_id).is_err() {
        return Err(ApiError::PayloadTooLarge);
    }
    let d64 = be_bytes_u64(dest_addr_64);
    if api_buf_extend(&mut inner, &d64).is_err() {
        return Err(ApiError::PayloadTooLarge);
    }
    let d16 = be_bytes_u16(dest_addr_16);
    if api_buf_extend(&mut inner, &d16).is_err() {
        return Err(ApiError::PayloadTooLarge);
    }
    if api_buf_push(&mut inner, broadcast_radius).is_err() {
        return Err(ApiError::PayloadTooLarge);
    }
    if api_buf_push(&mut inner, transmit_options).is_err() {
        return Err(ApiError::PayloadTooLarge);
    }
    if api_buf_extend(&mut inner, rf_data).is_err() {
        return Err(ApiError::PayloadTooLarge);
    }
    let inner = api_buf_slice(&inner);
    assert(inner@ =~= data);
    let len: u16 = inner.len() as u16;
    let chk = api_checksum(inner);
    let ghost wire = api_wire_frame(data);
    let ghost orig = out@;
    proof {
        assert(escape_all(seq![chk]) =~= escape_byte(chk)) by {
            assert(seq![chk] =~= Seq::<u8>::empty().push(chk));
            lemma_escape_all_push(Seq::<u8>::empty(), chk);
        }
    }

    if out.len() == 0 {
        return Err(ApiError::OutputBufferTooSmall);
    }
    out[0] = START_DELIMITER;
    let mut pos = 1usize;
    let len_bytes = be_bytes_u16(len);
    match push_escaped_all(out, &mut pos, &len_bytes) {
        Ok(()) => {},
        Err(e) => {
            return Err(e);
        },
    }
    match push_escaped_all(out, &mut pos, inner) {
        Ok(()) => {},
        Err(e) => {
            return Err(e);
        },
    }
    let chk_bytes = [chk];
    assert(chk_bytes@ =~= seq![chk]);
    match push_escaped_all(out, &mut pos, &chk_bytes) {
        Ok(()) => {},
        Err(e) => {
            return Err(e);
        },
    }
    assert(out@ =~= overwrite(orig, 0, wire));
    let res: &'a [u8] = &out[0..pos];
    assert(res@ =~= wire);
    Ok(res)
}


// ---------------------------------------------------------------------------
// Streaming parser

/// One received **0x90 Receive Packet**: the sender's addresses and the RF
/// payload that followed the 12-byte header.
#[derive(Debug, PartialEq, Eq)]
pub struct RxPacket {
    pub source_addr_64: u64,
    pub source_addr_16: u16,
    pub payload: heapless::Vec<u8, MAX_API_BODY>,
}

impl RxPacket {
    /// The RF payload bytes.
    pub fn as_slice(&self) -> (r: &[u8])
        ensures
            r@ == api_buf_bytes(self.payload),
    {
        api_buf_slice(&self.payload)
    }
}

/// Result of [`ApiParser::push`]: RF payload from a **0x90 Receive Packet**, or
/// `IgnoredFrame` if the byte completed a non-RF frame (or checksum failure → reset).
#[derive(Debug, PartialEq, Eq)]
pub enum PushOutcome {
    /// Still assembling a frame, or consumed an escape byte.
    Continue,
    /// A full API frame was processed; it was not user RF data (modem status,
    /// TX status, unknown type, etc.).
    IgnoredFrame,
    /// Decoded **0x90** RF payload (copy is owned; safe to use across parser resets).
    RfPayload(RxPacket),
}

/// What [`ApiParser::scan`] stopped at.
#[derive(Debug, PartialEq, Eq)]
pub enum ScanOutcome {
    /// All bytes were used and none completed an RF frame.
    NoPayload,
    /// A byte completed a **0x90** frame.
    Payload(RxPacket),
    /// A byte made the parser fail (a length field over the limit).
    Failed(ApiError),
}

/// Whether a step ends a scan: an RF payload or a failure.
pub open spec fn stops_scan(s: Step) -> bool {
    s is Rf || s is Fail
}

/// Whether `steps`, the steps of the bytes a scan used, fit what the scan
/// reported: no payload only when every byte was used and none stopped the
/// scan; a payload or a failure when the last byte used produced it and no
/// earlier one stopped the scan.
pub open spec fn scan_stopped_at(steps: Seq<Step>, outcome: ScanOutcome, used_all: bool) -> bool {
    match outcome {
        ScanOutcome::NoPayload => used_all && forall|i: int|
            0 <= i < steps.len() ==> !stops_scan(#[trigger] steps[i]),
        ScanOutcome::Payload(p) => {
            &&& steps.len() > 0
            &&& steps.last() == (Step::Rf {
                src64: p.source_addr_64,
                src16: p.source_addr_16,
                payload: api_buf_bytes(p.payload),
            })
            &&& forall|i: int| 0 <= i < steps.len() - 1 ==> !stops_scan(#[trigger] steps[i])
        },
        ScanOutcome::Failed(e) => {
            &&& steps.len() > 0
            &&& steps.last() == Step::Fail(e)
            &&& forall|i: int| 0 <= i < steps.len() - 1 ==> !stops_scan(#[trigger] steps[i])
        },
    }
}

/// The frame id to use after `id` for Transmit Requests: 1 to 255 in
/// turn, never 0 (which would ask the radio for no status frame).
pub open spec fn spec_next_frame_id(id: u8) -> u8 {
    if id == 255 {
        1
    } else {
        (id + 1) as u8
    }
}

pub fn next_frame_id(id: u8) -> (r: u8)
    ensures
        r == spec_next_frame_id(id),
{
    if id == 255 {
        1
    } else {
        id + 1
    }
}

#[derive(Debug, Clone, Copy, PartialEq, Eq)]
pub enum ParserState {
    WaitStart,
    LenHi,
    LenLo,
    Body,
    Checksum,
}

/// Streaming AP=2 parser: feed raw UART bytes from the XBee.
struct ParserFields {
    state: ParserState,
    len_msb: u8,
    declared_len: u16,
    body_read: u16,
    body: heapless::Vec<u8, MAX_API_BODY>,
    escape_next: bool,
}

/// The parser's state as plain values.
pub struct ParserView {
    pub state: ParserState,
    pub len_msb: u8,
    pub declared_len: u16,
    pub body_read: u16,
    pub body: Seq<u8>,
    pub escape_next: bool,
}

impl View for ParserFields {
    type V = ParserView;

    closed spec fn view(&self) -> ParserView {
        ParserView {
            state: self.state,
            len_msb: self.len_msb,
            declared_len: self.declared_len,
            body_read: self.body_read,
            body: api_buf_bytes(self.body),
            escape_next: self.escape_next,
        }
    }
}

/// Streaming decoder of AP=2 API frames, fed one UART byte at a time.
pub struct ApiParser {
    fields: ParserFields,
}

impl View for ApiParser {
    type V = ParserView;

    closed spec fn view(&self) -> ParserView {
        self.fields@
    }
}

/// What one pushed byte produced, as plain values.
pub enum Step {
    Continue,
    Ignored,
    Rf { src64: u64, src16: u16, payload: Seq<u8> },
    Fail(ApiError),
}

/// The result of [`ApiParser::push`] as a [`Step`].
pub open spec fn step_of(r: Result<PushOutcome, ApiError>) -> Step {
    match r {
        Ok(PushOutcome::Continue) => Step::Continue,
        Ok(PushOutcome::IgnoredFrame) => Step::Ignored,
        Ok(PushOutcome::RfPayload(p)) => Step::Rf {
            src64: p.source_addr_64,
            src16: p.source_addr_16,
            payload: api_buf_bytes(p.payload),
        },
        Err(e) => Step::Fail(e),
    }
}

/// A parser waiting for the next start delimiter, holding nothing.
pub open spec fn idle_view() -> ParserView {
    ParserView {
        state: ParserState::WaitStart,
        len_msb: 0,
        declared_len: 0,
        body_read: 0,
        body: Seq::empty(),
        escape_next: false,
    }
}

/// Length field from its two bytes.
pub open spec fn frame_len(hi: u8, lo: u8) -> u16 {
    (hi as int * 256 + lo as int) as u16
}

/// Big-endian `u64` from eight bytes.
pub open spec fn u64_from_be(s: Seq<u8>) -> u64 {
    ((s[0] as u64) << 56u64) | ((s[1] as u64) << 48u64) | ((s[2] as u64) << 40u64) | ((
    s[3] as u64) << 32u64) | ((s[4] as u64) << 24u64) | ((s[5] as u64) << 16u64) | ((s[6] as u64)
        << 8u64) | (s[7] as u64)
}

/// What a complete frame with valid checksum yields: the RF payload of a
/// 0x90 frame, nothing for anything else.
pub open spec fn frame_result(frame_data: Seq<u8>) -> Step {
    if frame_data.len() >= RX_PACKET_HEADER_LEN && frame_data[0] == FRAME_RX_PACKET {
        Step::Rf {
            src64: u64_from_be(frame_data.subrange(1, 9)),
            src16: frame_len(frame_data[9], frame_data[10]),
            payload: frame_data.skip(RX_PACKET_HEADER_LEN as int),
        }
    } else {
        Step::Ignored
    }
}

/// Effect of one unescaped byte `u` on a parser past the start delimiter.
pub open spec fn accept_byte(v: ParserView, u: u8) -> (ParserView, Step) {
    match v.state {
        ParserState::LenHi => (ParserView { len_msb: u, state: ParserState::LenLo, ..v }, Step::Continue),
        ParserState::LenLo => {
            let dl = frame_len(v.len_msb, u);
            if dl > MAX_API_BODY {
                (idle_view(), Step::Fail(ApiError::PayloadTooLarge))
            } else {
                (
                    ParserView {
                        declared_len: dl,
                        body: Seq::empty(),
                        body_read: 0,
                        state: if dl == 0 {
                            ParserState::Checksum
                        } else {
                            ParserState::Body
                        },
                        ..v
                    },
                    Step::Continue,
                )
            }
        },
        ParserState::Body => {
            if v.body.len() >= MAX_API_BODY {
                (v, Step::Fail(ApiError::PayloadTooLarge))
            } else {
                let br: u16 = if v.body_read == u16::MAX {
                    u16::MAX
                } else {
                    (v.body_read + 1) as u16
                };
                (
                    ParserView {
                        body: v.body.push(u),
                        body_read: br,
                        state: if br >= v.declared_len {
                            ParserState::Checksum
                        } else {
                            ParserState::Body
                        },
                        ..v
                    },
                    Step::Continue,
                )
            }
        },
        ParserState::Checksum => {
            if u != spec_checksum(v.body) {
                (idle_view(), Step::Ignored)
            } else {
                (idle_view(), frame_result(v.body))
            }
        },
        ParserState::WaitStart => (v, Step::Continue),
    }
}

/// Effect of one raw byte from the UART.
pub open spec fn spec_push(v: ParserView, byte: u8) -> (ParserView, Step) {
    if byte == START_DELIMITER {
        (
            ParserView {
                escape_next: false,
                body: Seq::empty(),
                body_read: 0,
                state: ParserState::LenHi,
                ..v
            },
            Step::Continue,
        )
    } else if v.state == ParserState::WaitStart {
        (v, Step::Continue)
    } else if v.escape_next {
        match spec_unescape_second(byte) {
            Ok(u) => accept_byte(ParserView { escape_next: false, ..v }, u),
            Err(_) => (idle_view(), Step::Ignored),
        }
    } else if byte == ESCAPE {
        (ParserView { escape_next: true, ..v }, Step::Continue)
    } else {
        accept_byte(v, byte)
    }
}

/// Effect of a run of raw bytes: the final state and one [`Step`] per byte.
pub open spec fn feed(v: ParserView, bytes: Seq<u8>) -> (ParserView, Seq<Step>)
    decreases bytes.len(),
{
    if bytes.len() == 0 {
        (v, Seq::empty())
    } else {
        let (v1, outs) = feed(v, bytes.drop_last());
        let (v2, o) = spec_push(v1, bytes.last());
        (v2, outs.push(o))
    }
}

/// The states a run of bytes can bring a parser to: the body counter
/// matches the body, a body being read is shorter than its declared length
/// (at most 1024), and a body awaiting its checksum has exactly that length.
pub open spec fn parser_ok(v: ParserView) -> bool {
    &&& v.body.len() <= MAX_API_BODY
    &&& v.body_read == v.body.len()
    &&& v.state == ParserState::Body ==> v.body.len() < v.declared_len && v.declared_len <= MAX_API_BODY
    &&& v.state == ParserState::Checksum ==> v.body.len() == v.declared_len && v.declared_len
        <= MAX_API_BODY
}

/// A byte fails only when it completes a length field that declares more
/// than 1024 bytes; a bad escape or a wrong checksum only ignores the frame.
/// After a failure, an ignored frame or an RF payload the parser is idle,
/// waiting for the next start delimiter; and every reachable state stays
/// reachable.
pub proof fn lemma_push_fails_only_on_oversized_length(v: ParserView, b: u8)
    requires
        parser_ok(v),
    ensures
        parser_ok(spec_push(v, b).0),
        spec_push(v, b).1 is Fail ==> {
            &&& spec_push(v, b).1 == Step::Fail(ApiError::PayloadTooLarge)
            &&& b != START_DELIMITER
            &&& v.state == ParserState::LenLo
            &&& frame_len(
                v.len_msb,
                if v.escape_next {
                    b ^ ESCAPE_XOR
                } else {
                    b
                },
            ) > MAX_API_BODY
        },
        (spec_push(v, b).1 is Fail || spec_push(v, b).1 is Ignored || spec_push(v, b).1 is Rf)
            ==> spec_push(v, b).0 == idle_view(),
{
    if b != START_DELIMITER && v.state != ParserState::WaitStart && v.escape_next {
        match spec_unescape_second(b) {
            Ok(u) => {
                assert(u == b ^ ESCAPE_XOR);
            },
            Err(_) => {},
        }
    }
}

/// Two parser views that may differ only in a length field not read yet.
pub open spec fn same_but_stale_length(a: ParserView, b: ParserView) -> bool {
    &&& a.state == b.state
    &&& a.body_read == b.body_read
    &&& a.body == b.body
    &&& a.escape_next == b.escape_next
    &&& a.state == ParserState::LenLo ==> a.len_msb == b.len_msb
    &&& (a.state != ParserState::LenHi && a.state != ParserState::LenLo) ==> a.len_msb == b.len_msb
        && a.declared_len == b.declared_len
}

proof fn lemma_push_same_but_stale_length(a: ParserView, b: ParserView, x: u8)
    requires
        same_but_stale_length(a, b),
    ensures
        spec_push(a, x).1 == spec_push(b, x).1,
        same_but_stale_length(spec_push(a, x).0, spec_push(b, x).0),
{
    if a.state != ParserState::LenHi && a.state != ParserState::LenLo {
        assert(a == b);
    }
}

proof fn lemma_feed_same_but_stale_length(a: ParserView, b: ParserView, bs: Seq<u8>)
    requires
        same_but_stale_length(a, b),
    ensures
        feed(a, bs).1 == feed(b, bs).1,
        same_but_stale_length(feed(a, bs).0, feed(b, bs).0),
    decreases bs.len(),
{
    if bs.len() > 0 {
        lemma_feed_same_but_stale_length(a, b, bs.drop_last());
        lemma_push_same_but_stale_length(feed(a, bs.drop_last()).0, feed(b, bs.drop_last()).0, bs.last());
    }
}

/// A start delimiter resynchronizes the parser: whatever two parsers held
/// (a partial frame, a body, a pending escape), after a 0x7E both report
/// `Continue` and then answer every following run of bytes alike.
pub proof fn lemma_start_delimiter_resyncs(v1: ParserView, v2: ParserView, bs: Seq<u8>)
    ensures
        spec_push(v1, START_DELIMITER).1 == Step::Continue,
        spec_push(v2, START_DELIMITER).1 == Step::Continue,
        feed(spec_push(v1, START_DELIMITER).0, bs).1 == feed(spec_push(v2, START_DELIMITER).0, bs).1,
{
    lemma_feed_same_but_stale_length(spec_push(v1, START_DELIMITER).0, spec_push(v2, START_DELIMITER).0, bs);
}

impl Default for ApiParser {
    fn default() -> (r: Self)
        ensures
            r@ == idle_view(),
    {
        Self::new()
    }
}

impl ParserFields {
    fn idle() -> (r: Self)
        ensures
            r@ == idle_view(),
    {
        Self {
            state: ParserState::WaitStart,
            len_msb: 0,
            declared_len: 0,
            body_read: 0,
            body: api_buf_new(),
            escape_next: false,
        }
    }

    fn reset(&mut self)
        ensures
            final(self)@ == idle_view(),
    {
        self.state = ParserState::WaitStart;
        self.len_msb = 0;
        self.declared_len = 0;
        self.body_read = 0;
        api_buf_clear(&mut self.body);
        self.escape_next = false;
    }

    fn feed_escape(&mut self, byte: u8) -> (r: Result<Option<u8>, ApiError>)
        ensures
            final(self)@ == (ParserView { escape_next: final(self)@.escape_next, ..old(self)@ }),
            old(self)@.escape_next ==> !final(self)@.escape_next && r == match spec_unescape_second(byte) {
                Ok(u) => Ok(Some(u)),
                Err(e) => Err(e),
            },
            !old(self)@.escape_next && byte == ESCAPE ==> final(self)@.escape_next && r == Ok::<Option<u8>, ApiError>(None),
            !old(self)@.escape_next && byte != ESCAPE ==> !final(self)@.escape_next && r == Ok::<Option<u8>, ApiError>(Some(byte)),
    {
        if self.escape_next {
            self.escape_next = false;
            return match unescape_second(byte) {
                Ok(u) => Ok(Some(u)),
                Err(e) => Err(e),
            };
        }
        if byte == ESCAPE {
            self.escape_next = true;
            return Ok(None);
        }
        Ok(Some(byte))
    }

    fn resync_on_start_delimiter(&mut self)
        ensures
            final(self)@ == (ParserView {
                escape_next: false,
                body: Seq::empty(),
                body_read: 0,
                state: ParserState::LenHi,
                ..old(self)@
            }),
    {
        self.escape_next = false;
        api_buf_clear(&mut self.body);
        self.body_read = 0;
        self.state = ParserState::LenHi;
    }

    fn push_byte(&mut self, byte: u8) -> (r: Result<PushOutcome, ApiError>)
        ensures
            (final(self)@, step_of(r)) == spec_push(old(self)@, byte),
    {
        if byte == START_DELIMITER {
            self.resync_on_start_delimiter();
            return Ok(PushOutcome::Continue);
        }
        match self.state {
            ParserState::WaitStart => Ok(PushOutcome::Continue),
            ParserState::LenHi => {
                let u = match self.feed_escape(byte) {
                    Ok(Some(u)) => u,
                    Ok(None) => return Ok(PushOutcome::Continue),
                    Err(_) => {
                        self.reset();
                        return Ok(PushOutcome::IgnoredFrame);
                    },
                };
                self.len_msb = u;
                self.state = ParserState::LenLo;
                Ok(PushOutcome::Continue)
            },
            ParserState::LenLo => {
                let u = match self.feed_escape(byte) {
                    Ok(Some(u)) => u,
                    Ok(None) => return Ok(PushOutcome::Continue),
                    Err(_) => {
                        self.reset();
                        return Ok(PushOutcome::IgnoredFrame);
                    },
                };
                let hi = self.len_msb;
                let dl: u16 = ((hi as u16) << 8u16) | u as u16;
                assert(dl == frame_len(hi, u)) by (bit_vector)
                    requires
                        dl == ((hi as u16) << 8u16) | u as u16,
                ;
                self.declared_len = dl;
                if self.declared_len as usize > MAX_API_BODY {
                    self.reset();
                    return Err(ApiError::PayloadTooLarge);
                }
                api_buf_clear(&mut self.body);
                self.body_read = 0;
                if self.declared_len == 0 {
                    self.state = ParserState::Checksum;
                } else {
                    self.state = ParserState::Body;
                }
                Ok(PushOutcome::Continue)
            },
            ParserState::Body => {
                let u = match self.feed_escape(byte) {
                    Ok(Some(u)) => u,
                    Ok(None) => return Ok(PushOutcome::Continue),
                    Err(_) => {
                        self.reset();
                        return Ok(PushOutcome::IgnoredFrame);
                    },
                };
                if api_buf_push(&mut self.body, u).is_err() {
                    return Err(ApiError::PayloadTooLarge);
                }
                self.body_read = self.body_read.saturating_add(1);
                if self.body_read >= self.declared_len {
                    self.state = ParserState::Checksum;
                }
                Ok(PushOutcome::Continue)
            },
            ParserState::Checksum => {
                let u = match self.feed_escape(byte) {
                    Ok(Some(u)) => u,
                    Ok(None) => return Ok(PushOutcome::Continue),
                    Err(_) => {
                        self.reset();
                        return Ok(PushOutcome::IgnoredFrame);
                    },
                };
                let frame_data = api_buf_slice(&self.body);
                let expected = api_checksum(frame_data);
                if u != expected {
                    self.reset();
                    return Ok(PushOutcome::IgnoredFrame);
                }
                let outcome = Self::extract_rf_payload(frame_data);
                self.reset();
                match outcome {
                    Some(pl) => Ok(PushOutcome::RfPayload(pl)),
                    None => Ok(PushOutcome::IgnoredFrame),
                }
            },
        }
    }

    fn extract_rf_payload(frame_data: &[u8]) -> (r: Option<RxPacket>)
        requires
            frame_data@.len() <= MAX_API_BODY,
        ensures
            frame_result(frame_data@) == match r {
                Some(p) => Step::Rf {
                    src64: p.source_addr_64,
                    src16: p.source_addr_16,
                    payload: api_buf_bytes(p.payload),
                },
                None => Step::Ignored,
            },
    {
        if frame_data.len() == 0 {
            return None;
        }
        if frame_data[0] == FRAME_RX_PACKET && frame_data.len() >= RX_PACKET_HEADER_LEN {
            let src64: u64 = ((frame_data[1] as u64) << 56u64) | ((frame_data[2] as u64) << 48u64)
                | ((frame_data[3] as u64) << 40u64) | ((frame_data[4] as u64) << 32u64) | ((
            frame_data[5] as u64) << 24u64) | ((frame_data[6] as u64) << 16u64) | ((
            frame_data[7] as u64) << 8u64) | (frame_data[8] as u64);
            assert(src64 == u64_from_be(frame_data@.subrange(1, 9)));
            let src16: u16 = frame_data[9] as u16 * 256 + frame_data[10] as u16;
            let mut out = api_buf_new();
            if api_buf_extend(&mut out, &frame_data[RX_PACKET_HEADER_LEN..frame_data.len()]).is_err() {
                return None;
            }
            Some(RxPacket { source_addr_64: src64, source_addr_16: src16, payload: out })
        } else {
            None
        }
    }
}

impl ApiParser {
    #[verifier::type_invariant]
    spec fn inv(self) -> bool {
        parser_ok(self.fields@)
    }

    pub fn new() -> (r: Self)
        ensures
            r@ == idle_view(),
    {
        ApiParser { fields: ParserFields::idle() }
    }

    /// Drop any partial frame and wait for the next start delimiter.
    pub fn reset(&mut self)
        ensures
            final(self)@ == idle_view(),
    {
        self.fields = ParserFields::idle();
    }

    /// Feed one raw UART byte. On **0x90** completion returns [`PushOutcome::RfPayload`].
    ///
    /// The parser is always in a state that a run of bytes can reach (see
    /// [`parser_ok`] and [`lemma_push_fails_only_on_oversized_length`]).
    pub fn push(&mut self, byte: u8) -> (r: Result<PushOutcome, ApiError>)
        ensures
            (final(self)@, step_of(r)) == spec_push(old(self)@, byte),
            parser_ok(old(self)@),
            parser_ok(final(self)@),
    {
        proof {
            use_type_invariant(&*self);
            lemma_push_fails_only_on_oversized_length(self@, byte);
        }
        let mut fields = ParserFields::idle();
        std::mem::swap(&mut fields, &mut self.fields);
        let r = fields.push_byte(byte);
        self.fields = fields;
        r
    }

    /// Feed raw UART bytes until one completes a **0x90** frame or fails,
    /// and say how many bytes were used: the parser stops right after such a
    /// byte, leaving the rest of `bytes` unread. Every byte before it
    /// reported `Continue` or an ignored frame.
    pub fn scan(&mut self, bytes: &[u8]) -> (r: (ScanOutcome, usize))
        ensures
            r.1 <= bytes@.len(),
            final(self)@ == feed(old(self)@, bytes@.take(r.1 as int)).0,
            scan_stopped_at(feed(old(self)@, bytes@.take(r.1 as int)).1, r.0, r.1 == bytes@.len()),
    {
        let ghost start = self@;
        let ghost mut steps: Seq<Step> = Seq::empty();
        assert(bytes@.take(0) =~= Seq::<u8>::empty());
        let mut i: usize = 0;
        while i < bytes.len()
            invariant
                start == old(self)@,
                i <= bytes@.len(),
                feed(start, bytes@.take(i as int)) == (self@, steps),
                steps.len() == i,
                forall|j: int| 0 <= j < steps.len() ==> !stops_scan(#[trigger] steps[j]),
            decreases bytes@.len() - i,
        {
            let out = self.push(bytes[i]);
            let ghost old_steps = steps;
            proof {
                assert(bytes@.take(i + 1).drop_last() =~= bytes@.take(i as int));
                assert(bytes@.take(i + 1).last() == bytes@[i as int]);
                steps = steps.push(step_of(out));
                assert(feed(start, bytes@.take(i + 1)) == (self@, steps));
                assert(forall|j: int| 0 <= j < steps.len() - 1 ==> steps[j] == old_steps[j]);
            }
            i += 1;
            let stop = match out {
                Ok(PushOutcome::RfPayload(p)) => Some(ScanOutcome::Payload(p)),
                Err(e) => Some(ScanOutcome::Failed(e)),
                Ok(_) => None,
            };
            if let Some(o) = stop {
                return (o, i);
            }
        }
        assert(bytes@.take(i as int) =~= bytes@);
        (ScanOutcome::NoPayload, i)
    }

}

// ---------------------------------------------------------------------------
// Laws of the codec

/// `n` steps that each report `Continue`.
pub open spec fn continues(n: nat) -> Seq<Step> {
    Seq::new(n, |i: int| Step::Continue)
}

/// Feeding two runs of bytes is feeding the first, then the second from
/// where the first left the parser.
pub proof fn lemma_feed_append(v: ParserView, a: Seq<u8>, b: Seq<u8>)
    ensures
        feed(v, a + b) == ({
            let (va, oa) = feed(v, a);
            let (vb, ob) = feed(va, b);
            (vb, oa + ob)
        }),
    decreases b.len(),
{
    if b.len() == 0 {
        assert(a + b =~= a);
        let (va, oa) = feed(v, a);
        assert(oa + Seq::<Step>::empty() =~= oa);
    } else {
        let b0 = b.drop_last();
        lemma_feed_append(v, a, b0);
        assert((a + b).drop_last() =~= a + b0);
        assert((a + b).last() == b.last());
        let (va, oa) = feed(v, a);
        let (vb0, ob0) = feed(va, b0);
        let (vb, ob) = feed(va, b);
        assert(ob =~= ob0.push(spec_push(vb0, b.last()).1));
        assert((oa + ob0).push(spec_push(vb0, b.last()).1) =~= oa + ob);
    }
}

proof fn lemma_feed_one(v: ParserView, x: u8)
    ensures
        feed(v, seq![x]) == ({
            let (v1, o) = spec_push(v, x);
            (v1, seq![o])
        }),
{
    assert(seq![x].drop_last() =~= Seq::<u8>::empty());
    assert(seq![x].last() == x);
    assert(feed(v, Seq::<u8>::empty()) == (v, Seq::<Step>::empty()));
    assert(Seq::<Step>::empty().push(spec_push(v, x).1) =~= seq![spec_push(v, x).1]);
}

proof fn lemma_escape_bits(u: u8)
    ensures
        spec_needs_escape(u) ==> (u ^ ESCAPE_XOR) != START_DELIMITER && (u ^ ESCAPE_XOR)
            ^ ESCAPE_XOR == u,
        !spec_needs_escape(u) ==> u != START_DELIMITER && u != ESCAPE,
{
    assert(spec_needs_escape(u) ==> (u ^ 0x20u8) != 0x7Eu8 && (u ^ 0x20u8) ^ 0x20u8 == u)
        by (bit_vector);
}

/// An escaped byte, fed to a parser that is inside a frame, has the effect
/// of the byte itself; only the last raw byte of the pair reports anything.
pub proof fn lemma_feed_escaped_byte(v: ParserView, u: u8)
    requires
        !v.escape_next,
        v.state != ParserState::WaitStart,
    ensures
        feed(v, escape_byte(u)) == ({
            let (v1, o) = accept_byte(v, u);
            (v1, continues((escape_byte(u).len() - 1) as nat).push(o))
        }),
{
    lemma_escape_bits(u);
    if spec_needs_escape(u) {
        let w = u ^ ESCAPE_XOR;
        assert(escape_byte(u) =~= seq![ESCAPE] + seq![w]);
        lemma_feed_append(v, seq![ESCAPE], seq![w]);
        lemma_feed_one(v, ESCAPE);
        let v1 = ParserView { escape_next: true, ..v };
        assert(spec_push(v, ESCAPE) == (v1, Step::Continue));
        lemma_feed_one(v1, w);
        assert(spec_unescape_second(w) == Ok::<u8, ApiError>(u));
        assert(ParserView { escape_next: false, ..v1 } == v);
        assert(seq![Step::Continue] + seq![accept_byte(v, u).1] =~= continues(1).push(
            accept_byte(v, u).1,
        ));
    } else {
        lemma_feed_one(v, u);
        assert(seq![accept_byte(v, u).1] =~= continues(0).push(accept_byte(v, u).1));
    }
}

/// The parser while it collects the body of a frame carrying `data`.
pub open spec fn body_view(v: ParserView, data: Seq<u8>, i: int) -> ParserView {
    ParserView {
        body: data.take(i),
        body_read: i as u16,
        state: if i == data.len() {
            ParserState::Checksum
        } else {
            ParserState::Body
        },
        ..v
    }
}

proof fn lemma_feed_body(v: ParserView, data: Seq<u8>, i: int)
    requires
        v.state == ParserState::Body,
        !v.escape_next,
        v.body == Seq::<u8>::empty(),
        v.body_read == 0,
        v.declared_len == data.len(),
        0 < data.len() <= MAX_API_BODY,
        0 <= i <= data.len(),
    ensures
        feed(v, escape_all(data.take(i))) == (
            body_view(v, data, i),
            continues(escape_all(data.take(i)).len()),
        ),
    decreases i,
{
    if i == 0 {
        assert(data.take(0) =~= Seq::<u8>::empty());
        assert(body_view(v, data, 0) == v);
        assert(continues(0) =~= Seq::<Step>::empty());
    } else {
        lemma_feed_body(v, data, i - 1);
        let pre = data.take(i - 1);
        let u = data[i - 1];
        assert(data.take(i) =~= pre.push(u));
        lemma_escape_all_push(pre, u);
        lemma_feed_append(v, escape_all(pre), escape_byte(u));
        let bv = body_view(v, data, i - 1);
        lemma_feed_escaped_byte(bv, u);
        let (v2, o) = accept_byte(bv, u);
        assert(o == Step::Continue);
        assert(v2 == body_view(v, data, i)) by {
            assert(pre.push(u) =~= data.take(i));
        }
        let k = escape_all(pre).len();
        let m = escape_byte(u).len();
        assert(continues(k) + continues((m - 1) as nat).push(Step::Continue) =~= continues(
            k + m,
        ));
    }
}

proof fn lemma_len_bytes(n: u16)
    requires
        n <= MAX_API_BODY,
    ensures
        frame_len(be16(n)[0], be16(n)[1]) == n,
{
    let hi = (n >> 8u16) as u8;
    let lo = n as u8;
    assert((hi as int) * 256 + (lo as int) == n as int) by (bit_vector)
        requires
            hi == (n >> 8u16) as u8,
            lo == n as u8,
    ;
}

/// Decoding what was encoded: feeding the escaped API frame that carries
/// `frame_data` to a parser, whatever state it was left in, reports
/// `Continue` for every byte but the last, reports for the last byte the
/// frame's result (the RF payload of a 0x90 frame, `IgnoredFrame` for any
/// other frame type), and leaves the parser idle.
pub proof fn lemma_wire_frame_decodes(v: ParserView, frame_data: Seq<u8>)
    requires
        frame_data.len() <= MAX_API_BODY,
    ensures
        ({
            let wire = api_wire_frame(frame_data);
            let (v2, outs) = feed(v, wire);
            &&& v2 == idle_view()
            &&& outs == continues((wire.len() - 1) as nat).push(frame_result(frame_data))
        }),
{
    let n = frame_data.len() as u16;
    let lb = be16(n);
    let chk = spec_checksum(frame_data);
    let start = seq![START_DELIMITER];
    let e_len = escape_all(lb);
    let e_data = escape_all(frame_data);
    let e_chk = escape_byte(chk);
    let wire = api_wire_frame(frame_data);
    assert(wire == start + e_len + e_data + e_chk);

    // Start delimiter.
    lemma_feed_one(v, START_DELIMITER);
    let v0 = ParserView {
        escape_next: false,
        body: Seq::empty(),
        body_read: 0,
        state: ParserState::LenHi,
        ..v
    };
    assert(feed(v, start) == (v0, seq![Step::Continue]));

    // Length bytes.
    assert(lb =~= seq![lb[0]].push(lb[1]));
    assert(seq![lb[0]] =~= Seq::<u8>::empty().push(lb[0]));
    lemma_escape_all_push(Seq::<u8>::empty(), lb[0]);
    lemma_escape_all_push(seq![lb[0]], lb[1]);
    assert(e_len =~= escape_byte(lb[0]) + escape_byte(lb[1]));
    lemma_feed_escaped_byte(v0, lb[0]);
    let (v1, o1) = accept_byte(v0, lb[0]);
    lemma_feed_escaped_byte(v1, lb[1]);
    let (v2, o2) = accept_byte(v1, lb[1]);
    lemma_feed_append(v0, escape_byte(lb[0]), escape_byte(lb[1]));
    lemma_len_bytes(n);
    assert(frame_len(v1.len_msb, lb[1]) == n);
    let k1 = escape_byte(lb[0]).len();
    let k2 = escape_byte(lb[1]).len();
    assert(continues((k1 - 1) as nat).push(o1) + continues((k2 - 1) as nat).push(o2) =~= continues(
        e_len.len(),
    ));
    assert(feed(v0, e_len) == (v2, continues(e_len.len())));

    // Body.
    let v3 = if frame_data.len() == 0 {
        v2
    } else {
        body_view(v2, frame_data, frame_data.len() as int)
    };
    if frame_data.len() == 0 {
        assert(e_data =~= Seq::<u8>::empty());
        assert(feed(v2, e_data) == (v2, continues(0)));
    } else {
        lemma_feed_body(v2, frame_data, frame_data.len() as int);
        assert(frame_data.take(frame_data.len() as int) =~= frame_data);
    }
    assert(feed(v2, e_data) == (v3, continues(e_data.len())));
    assert(v3.state == ParserState::Checksum && !v3.escape_next && v3.body == frame_data);

    // Checksum byte.
    lemma_feed_escaped_byte(v3, chk);
    let (v4, o4) = accept_byte(v3, chk);
    assert(v4 == idle_view());
    assert(o4 == frame_result(frame_data));

    lemma_feed_append(v, start, e_len);
    lemma_feed_append(v, start + e_len, e_data);
    lemma_feed_append(v, start + e_len + e_data, e_chk);
    let kc = e_chk.len();
    assert(seq![Step::Continue] + continues(e_len.len()) + continues(e_data.len()) + continues(
        (kc - 1) as nat,
    ).push(o4) =~= continues((wire.len() - 1) as nat).push(frame_result(frame_data)));
}

/// A transmit request fed back into a parser is consumed without error and
/// reported as `IgnoredFrame`: only 0x90 frames carry RF data to the host.
pub proof fn lemma_tx_request_ignored_by_parser(
    v: ParserView,
    frame_id: u8,
    dest_addr_64: u64,
    dest_addr_16: u16,
    broadcast_radius: u8,
    transmit_options: u8,
    rf_data: Seq<u8>,
)
    requires
        rf_data.len() <= MAX_RF_PAYLOAD,
    ensures
        ({
            let data = tx_request_frame_data(
                frame_id,
                dest_addr_64,
                dest_addr_16,
                broadcast_radius,
                transmit_options,
                rf_data,
            );
            let wire = api_wire_frame(data);
            feed(v, wire) == (idle_view(), continues((wire.len() - 1) as nat).push(Step::Ignored))
        }),
{
    let data = tx_request_frame_data(
        frame_id,
        dest_addr_64,
        dest_addr_16,
        broadcast_radius,
        transmit_options,
        rf_data,
    );
    assert(data.len() == TX_REQUEST_HEADER_LEN + rf_data.len());
    assert(data[0] == FRAME_TX_REQUEST);
    lemma_wire_frame_decodes(v, data);
}

/// The checksum completes the byte sum of the frame data to `0xFF` (mod 256).
pub proof fn lemma_checksum_completes_sum(frame_data: Seq<u8>)
    ensures
        (byte_sum(frame_data) + spec_checksum(frame_data)) % 256 == 0xFF,
{
}

/// Escaping never produces a raw start delimiter.
pub proof fn lemma_escape_all_has_no_start_delimiter(s: Seq<u8>)
    ensures
        forall|i: int| 0 <= i < escape_all(s).len() ==> escape_all(s)[i] != START_DELIMITER,
    decreases s.len(),
{
    if s.len() > 0 {
        lemma_escape_all_has_no_start_delimiter(s.drop_last());
        lemma_escape_bits(s.last());
        let a = escape_all(s.drop_last());
        let e = escape_byte(s.last());
        assert forall|i: int| 0 <= i < (a + e).len() implies (a + e)[i] != START_DELIMITER by {
            if i >= a.len() {
                assert((a + e)[i] == e[i - a.len()]);
            }
        }
    }
}

/// An encoded frame holds `0x7E` only at its first byte, so a receiver can
/// always resynchronise on the start delimiter.
pub proof fn lemma_wire_frame_start_only_first(frame_data: Seq<u8>)
    ensures
        api_wire_frame(frame_data)[0] == START_DELIMITER,
        forall|i: int|
            1 <= i < api_wire_frame(frame_data).len() ==> api_wire_frame(frame_data)[i]
                != START_DELIMITER,
{
    let lb = be16(frame_data.len() as u16);
    let chk = spec_checksum(frame_data);
    let rest = lb + frame_data + seq![chk];
    lemma_escape_all_concat(lb, frame_data);
    lemma_escape_all_concat(lb + frame_data, seq![chk]);
    assert(seq![chk] =~= Seq::<u8>::empty().push(chk));
    lemma_escape_all_push(Seq::<u8>::empty(), chk);
    assert(escape_all(seq![chk]) =~= escape_byte(chk));
    lemma_escape_all_has_no_start_delimiter(rest);
    let w = api_wire_frame(frame_data);
    assert(w =~= seq![START_DELIMITER] + escape_all(rest));
    assert forall|i: int| 1 <= i < w.len() implies w[i] != START_DELIMITER by {
        assert(w[i] == escape_all(rest)[i - 1]);
    }
}

/// Unescaping undoes escaping.
pub proof fn lemma_unescape_inverts_escape(b: u8)
    requires
        spec_needs_escape(b),
    ensures
        escape_byte(b)[0] == ESCAPE,
        spec_unescape_second(escape_byte(b)[1]) == Ok::<u8, ApiError>(b),
{
    lemma_escape_bits(b);
}

/// The frame data of a Transmit Request is laid out as the Digi 0x10 frame
/// is: type 0x10, frame id, the 64-bit destination most significant byte
/// first, the 16-bit destination most significant byte first, broadcast
/// radius, transmit options, then the RF data.
pub proof fn lemma_tx_request_layout(
    frame_id: u8,
    dest_addr_64: u64,
    dest_addr_16: u16,
    broadcast_radius: u8,
    transmit_options: u8,
    rf_data: Seq<u8>,
)
    ensures
        ({
            let d = tx_request_frame_data(
                frame_id,
                dest_addr_64,
                dest_addr_16,
                broadcast_radius,
                transmit_options,
                rf_data,
            );
            &&& d.len() == 14 + rf_data.len()
            &&& d[0] == 0x10u8
            &&& d[1] == frame_id
            &&& d[2] as int * 0x100_0000_0000_0000 + d[3] as int * 0x1_0000_0000_0000 + d[4] as int
                * 0x100_0000_0000 + d[5] as int * 0x1_0000_0000 + d[6] as int * 0x100_0000
                + d[7] as int * 0x1_0000 + d[8] as int * 0x100 + d[9] as int == dest_addr_64 as int
            &&& d[10] as int * 0x100 + d[11] as int == dest_addr_16 as int
            &&& d[12] == broadcast_radius
            &&& d[13] == transmit_options
            &&& d.skip(14) == rf_data
        }),
{
    let d = tx_request_frame_data(
        frame_id,
        dest_addr_64,
        dest_addr_16,
        broadcast_radius,
        transmit_options,
        rf_data,
    );
    assert(d.skip(14) =~= rf_data);
    let x = dest_addr_64;
    let (b0, b1, b2, b3, b4, b5, b6, b7) = (
        (x >> 56u64) as u8,
        (x >> 48u64) as u8,
        (x >> 40u64) as u8,
        (x >> 32u64) as u8,
        (x >> 24u64) as u8,
        (x >> 16u64) as u8,
        (x >> 8u64) as u8,
        x as u8,
    );
    assert(b0 as int * 0x100_0000_0000_0000 + b1 as int * 0x1_0000_0000_0000 + b2 as int
        * 0x100_0000_0000 + b3 as int * 0x1_0000_0000 + b4 as int * 0x100_0000 + b5 as int
        * 0x1_0000 + b6 as int * 0x100 + b7 as int == x as int) by (bit_vector)
        requires
            b0 == (x >> 56u64) as u8,
            b1 == (x >> 48u64) as u8,
            b2 == (x >> 40u64) as u8,
            b3 == (x >> 32u64) as u8,
            b4 == (x >> 24u64) as u8,
            b5 == (x >> 16u64) as u8,
            b6 == (x >> 8u64) as u8,
            b7 == x as u8,
    ;
    let y = dest_addr_16;
    let (h, l) = ((y >> 8u16) as u8, y as u8);
    assert(h as int * 0x100 + l as int == y as int) by (bit_vector)
        requires
            h == (y >> 8u16) as u8,
            l == y as u8,
    ;
}

/// Only a Receive Packet (frame type 0x90) carries RF data to the host:
/// a complete frame yields a payload exactly when its type byte is 0x90 and
/// it holds the 12-byte header; the payload is everything after that
/// header, and the source addresses are the header's bytes 1-8 and 9-10,
/// most significant first. Every other frame is ignored.
pub proof fn lemma_only_receive_packets_carry_data(frame_data: Seq<u8>)
    ensures
        frame_result(frame_data) is Rf <==> (frame_data.len() >= 12 && frame_data[0] == 0x90u8),
        !(frame_result(frame_data) is Rf) ==> frame_result(frame_data) == Step::Ignored,
        frame_result(frame_data) matches Step::Rf { src64, src16, payload } ==> {
            &&& payload == frame_data.skip(12)
            &&& src16 as int == frame_data[9] as int * 0x100 + frame_data[10] as int
            &&& src64 as int == frame_data[1] as int * 0x100_0000_0000_0000 + frame_data[2] as int
                * 0x1_0000_0000_0000 + frame_data[3] as int * 0x100_0000_0000 + frame_data[4] as int
                * 0x1_0000_0000 + frame_data[5] as int * 0x100_0000 + frame_data[6] as int
                * 0x1_0000 + frame_data[7] as int * 0x100 + frame_data[8] as int
        },
{
    if frame_data.len() >= 12 && frame_data[0] == 0x90u8 {
        let s = frame_data.subrange(1, 9);
        let (b0, b1, b2, b3, b4, b5, b6, b7) = (s[0], s[1], s[2], s[3], s[4], s[5], s[6], s[7]);
        let v = u64_from_be(s);
        assert(v == ((b0 as u64) << 56u64) | ((b1 as u64) << 48u64) | ((b2 as u64) << 40u64) | ((
        b3 as u64) << 32u64) | ((b4 as u64) << 24u64) | ((b5 as u64) << 16u64) | ((b6 as u64)
            << 8u64) | (b7 as u64));
        assert(v as int == b0 as int * 0x100_0000_0000_0000 + b1 as int * 0x1_0000_0000_0000
            + b2 as int * 0x100_0000_0000 + b3 as int * 0x1_0000_0000 + b4 as int * 0x100_0000
            + b5 as int * 0x1_0000 + b6 as int * 0x100 + b7 as int) by (bit_vector)
            requires
                v == ((b0 as u64) << 56u64) | ((b1 as u64) << 48u64) | ((b2 as u64) << 40u64) | ((
                b3 as u64) << 32u64) | ((b4 as u64) << 24u64) | ((b5 as u64) << 16u64) | ((
                b6 as u64) << 8u64) | (b7 as u64),
        ;
        let (h, l) = (frame_data[9], frame_data[10]);
        assert(frame_len(h, l) as int == h as int * 0x100 + l as int) by (bit_vector)
            requires
                true,
        ;
    }
}

/// A complete, correctly checksummed frame of any type other than 0x90,
/// fed to a parser in any state, ends in `IgnoredFrame` and hands out no
/// RF data.
pub proof fn lemma_other_frame_types_are_ignored(v: ParserView, frame_data: Seq<u8>)
    requires
        frame_data.len() <= MAX_API_BODY,
        frame_data.len() == 0 || frame_data[0] != 0x90u8,
    ensures
        feed(v, api_wire_frame(frame_data)).1.last() == Step::Ignored,
        forall|i: int|
            0 <= i < feed(v, api_wire_frame(frame_data)).1.len() ==> !(#[trigger] feed(
                v,
                api_wire_frame(frame_data),
            ).1[i] is Rf),
{
    lemma_wire_frame_decodes(v, frame_data);
    lemma_only_receive_packets_carry_data(frame_data);
    let outs = feed(v, api_wire_frame(frame_data)).1;
    let n = (api_wire_frame(frame_data).len() - 1) as nat;
    assert forall|i: int| 0 <= i < outs.len() implies !(#[trigger] outs[i] is Rf) by {
        if i < n {
            assert(outs[i] == continues(n)[i]);
        }
    }
}

/// Exactly four byte values are escaped on the wire: 0x7E, 0x7D, 0x11 and
/// 0x13. An escaped byte goes out as 0x7D followed by the byte with bit 5
/// flipped; every other byte goes out as itself.
pub proof fn lemma_escaped_bytes(b: u8)
    ensures
        spec_needs_escape(b) <==> (b == 0x7Eu8 || b == 0x7Du8 || b == 0x11u8 || b == 0x13u8),
        spec_needs_escape(b) ==> escape_byte(b) == seq![0x7Du8, b ^ 0x20u8],
        !spec_needs_escape(b) ==> escape_byte(b) == seq![b],
{
}

/// A wire frame begins with 0x7E and the length of its frame data, most
/// significant byte first (each length byte escaped as needed); its frame
/// data's bytes and the checksum byte add up to 0xFF modulo 256.
pub proof fn lemma_wire_frame_header(frame_data: Seq<u8>)
    requires
        frame_data.len() <= MAX_API_BODY,
    ensures
        ({
            let n = frame_data.len();
            api_wire_frame(frame_data) == seq![0x7Eu8] + escape_byte((n / 256) as u8)
                + escape_byte((n % 256) as u8) + escape_all(frame_data) + escape_byte(
                spec_checksum(frame_data),
            )
        }),
        (byte_sum(frame_data) + spec_checksum(frame_data)) % 256 == 0xFF,
{
    let n = frame_data.len() as u16;
    assert((n >> 8u16) as u8 == (n / 256) as u8 && n as u8 == (n % 256) as u8) by (bit_vector);
    let lb = be16(n);
    assert(lb == seq![(n / 256) as u8, (n % 256) as u8]);
    assert(lb.drop_last() =~= seq![(n / 256) as u8]);
    assert(seq![(n / 256) as u8].drop_last() =~= Seq::<u8>::empty());
    assert(escape_all(Seq::<u8>::empty()) + escape_byte((n / 256) as u8) =~= escape_byte(
        (n / 256) as u8,
    ));
    let hi = seq![(n / 256) as u8];
    assert(escape_all(hi) == escape_all(hi.drop_last()) + escape_byte(hi.last()));
    assert(escape_all(hi) =~= escape_byte((n / 256) as u8));
    assert(lb.last() == (n % 256) as u8);
    assert(escape_all(lb) == escape_all(lb.drop_last()) + escape_byte(lb.last()));
    assert(escape_all(lb) == escape_byte((n / 256) as u8) + escape_byte((n % 256) as u8));
    assert(api_wire_frame(frame_data) =~= seq![0x7Eu8] + escape_byte((n / 256) as u8)
        + escape_byte((n % 256) as u8) + escape_all(frame_data) + escape_byte(
        spec_checksum(frame_data),
    ));
}

} // verus!
