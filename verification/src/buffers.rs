//! Fixed-capacity byte buffers (`heapless::Vec`) used by the frame codec and
//! the secure packet layer.
//!
//! `heapless::Vec<u8, N>` never allocates and refuses to grow past `N`
//! bytes. Its contents are described by one name per capacity that the
//! library uses; every method the library calls is wrapped below with what
//! `heapless` 0.7's source shows it doing to those contents.

use vstd::prelude::*;

verus! {

#[verifier::external_type_specification]
#[verifier::external_body]
#[verifier::reject_recursive_types(T)]
pub struct ExHeaplessVec<T, const N: usize>(heapless::Vec<T, N>);

/// Capacity of an API-frame buffer (frame data of one XBee API frame).
pub const API_BUF_CAP: usize = 1024;

/// Capacity of a ciphertext-plus-tag buffer.
pub const CIPHER_BUF_CAP: usize = 80;

/// Capacity of a decrypted payload buffer.
pub const PLAIN_BUF_CAP: usize = 64;

/// The bytes held by an API-frame buffer, in order.
pub uninterp spec fn api_buf_bytes(v: heapless::Vec<u8, API_BUF_CAP>) -> Seq<u8>;

/// The bytes held by a ciphertext buffer, in order.
pub uninterp spec fn cipher_buf_bytes(v: heapless::Vec<u8, CIPHER_BUF_CAP>) -> Seq<u8>;

/// The bytes held by a plaintext buffer, in order.
pub uninterp spec fn plain_buf_bytes(v: heapless::Vec<u8, PLAIN_BUF_CAP>) -> Seq<u8>;

// ---------------------------------------------------------------------------
// API-frame buffers (capacity 1024)

/// `heapless::Vec::new`: an empty buffer.
#[verifier::external_body]
pub(crate) fn api_buf_new() -> (r: heapless::Vec<u8, API_BUF_CAP>)
    ensures
        api_buf_bytes(r) == Seq::<u8>::empty(),
{
    heapless::Vec::new()
}

/// `heapless::Vec::push`: appends `b` when fewer than 1024 bytes are held;
/// otherwise hands `b` back and leaves the buffer as it was.
#[verifier::external_body]
pub(crate) fn api_buf_push(v: &mut heapless::Vec<u8, API_BUF_CAP>, b: u8) -> (r: Result<(), u8>)
    ensures
        r is Ok <==> api_buf_bytes(*old(v)).len() < API_BUF_CAP,
        r is Ok ==> api_buf_bytes(*final(v)) == api_buf_bytes(*old(v)).push(b),
        r is Err ==> api_buf_bytes(*final(v)) == api_buf_bytes(*old(v)),
        r matches Err(x) ==> x == b,
    no_unwind
{
    v.push(b)
}

/// `heapless::Vec::extend_from_slice`: appends all of `s` when it fits in
/// the remaining capacity; otherwise changes nothing and fails.
#[verifier::external_body]
pub(crate) fn api_buf_extend(v: &mut heapless::Vec<u8, API_BUF_CAP>, s: &[u8]) -> (r: Result<(), ()>)
    ensures
        api_buf_bytes(*old(v)).len() + s@.len() <= API_BUF_CAP <==> r is Ok,
        r is Ok ==> api_buf_bytes(*final(v)) == api_buf_bytes(*old(v)) + s@,
        r is Err ==> api_buf_bytes(*final(v)) == api_buf_bytes(*old(v)),
{
    v.extend_from_slice(s)
}

/// `heapless::Vec::clear`: removes every byte.
#[verifier::external_body]
pub(crate) fn api_buf_clear(v: &mut heapless::Vec<u8, API_BUF_CAP>)
    ensures
        api_buf_bytes(*final(v)) == Seq::<u8>::empty(),
    no_unwind
{
    v.clear()
}

/// `heapless::Vec::as_slice`: the held bytes; never more than the capacity.
#[verifier::external_body]
pub(crate) fn api_buf_slice(v: &heapless::Vec<u8, API_BUF_CAP>) -> (r: &[u8])
    ensures
        r@ == api_buf_bytes(*v),
        r@.len() <= API_BUF_CAP,
{
    v.as_slice()
}

// ---------------------------------------------------------------------------
// Ciphertext buffers (capacity 80)

/// `heapless::Vec::new`: an empty buffer.
#[verifier::external_body]
pub(crate) fn cipher_buf_new() -> (r: heapless::Vec<u8, CIPHER_BUF_CAP>)
    ensures
        cipher_buf_bytes(r) == Seq::<u8>::empty(),
{
    heapless::Vec::new()
}

/// `heapless::Vec::extend_from_slice`: appends all of `s` when it fits in
/// the remaining capacity; otherwise changes nothing and fails.
#[verifier::external_body]
pub(crate) fn cipher_buf_extend(v: &mut heapless::Vec<u8, CIPHER_BUF_CAP>, s: &[u8]) -> (r: Result<(), ()>)
    ensures
        cipher_buf_bytes(*old(v)).len() + s@.len() <= CIPHER_BUF_CAP <==> r is Ok,
        r is Ok ==> cipher_buf_bytes(*final(v)) == cipher_buf_bytes(*old(v)) + s@,
        r is Err ==> cipher_buf_bytes(*final(v)) == cipher_buf_bytes(*old(v)),
{
    v.extend_from_slice(s)
}

/// `heapless::Vec::as_slice`: the held bytes; never more than the capacity.
#[verifier::external_body]
pub(crate) fn cipher_buf_slice(v: &heapless::Vec<u8, CIPHER_BUF_CAP>) -> (r: &[u8])
    ensures
        r@ == cipher_buf_bytes(*v),
        r@.len() <= CIPHER_BUF_CAP,
{
    v.as_slice()
}

// ---------------------------------------------------------------------------
// Plaintext buffers (capacity 64)

/// `heapless::Vec::new`: an empty buffer.
#[verifier::external_body]
pub(crate) fn plain_buf_new() -> (r: heapless::Vec<u8, PLAIN_BUF_CAP>)
    ensures
        plain_buf_bytes(r) == Seq::<u8>::empty(),
{
    heapless::Vec::new()
}

/// `heapless::Vec::extend_from_slice`: appends all of `s` when it fits in
/// the remaining capacity; otherwise changes nothing and fails.
#[verifier::external_body]
pub(crate) fn plain_buf_extend(v: &mut heapless::Vec<u8, PLAIN_BUF_CAP>, s: &[u8]) -> (r: Result<(), ()>)
    ensures
        plain_buf_bytes(*old(v)).len() + s@.len() <= PLAIN_BUF_CAP <==> r is Ok,
        r is Ok ==> plain_buf_bytes(*final(v)) == plain_buf_bytes(*old(v)) + s@,
        r is Err ==> plain_buf_bytes(*final(v)) == plain_buf_bytes(*old(v)),
{
    v.extend_from_slice(s)
}

/// `heapless::Vec::as_slice`: the held bytes; never more than the capacity.
#[verifier::external_body]
pub(crate) fn plain_buf_slice(v: &heapless::Vec<u8, PLAIN_BUF_CAP>) -> (r: &[u8])
    ensures
        r@ == plain_buf_bytes(*v),
        r@.len() <= PLAIN_BUF_CAP,
{
    v.as_slice()
}

} // verus!
