//! The output buffer: `bytes::BytesMut`, with its contents named for contracts.
use vstd::prelude::*;
use bytes::BufMut;

verus! {

#[verifier::external_type_specification]
#[verifier::external_body]
pub struct ExBytesMut(bytes::BytesMut);

/// The bytes that a `BytesMut` holds, in order.
pub uninterp spec fn buf_bytes(b: bytes::BytesMut) -> Seq<u8>;

/// Largest buffer length for which appending cannot overflow its capacity.
pub open spec fn fits_buffer(len: nat) -> bool {
    len <= isize::MAX
}

/// The four big-endian bytes of `v`.
pub open spec fn be_u32(v: u32) -> Seq<u8> {
    seq![(v >> 24u32) as u8, (v >> 16u32) as u8, (v >> 8u32) as u8, v as u8]
}

/// The eight big-endian bytes of `v`.
pub open spec fn be_u64(v: u64) -> Seq<u8> {
    seq![
        (v >> 56u64) as u8, (v >> 48u64) as u8, (v >> 40u64) as u8, (v >> 32u64) as u8,
        (v >> 24u64) as u8, (v >> 16u64) as u8, (v >> 8u64) as u8, v as u8,
    ]
}

/// Relies on `BytesMut::new`: the new buffer is empty.
#[verifier::external_body]
pub fn new_buffer() -> (r: bytes::BytesMut)
    ensures
        buf_bytes(r) == Seq::<u8>::empty(),
{
    bytes::BytesMut::new()
}

/// Relies on `BufMut::put_u8` for `BytesMut`: appends the byte.
#[verifier::external_body]
pub(crate) fn put_u8(b: &mut bytes::BytesMut, n: u8)
    requires
        fits_buffer(buf_bytes(*old(b)).len() + 1),
    ensures
        buf_bytes(*final(b)) == buf_bytes(*old(b)).push(n),
{
    b.put_u8(n)
}

/// Relies on `BufMut::put_u32` for `BytesMut`: appends `n` in big-endian byte order.
#[verifier::external_body]
pub(crate) fn put_u32(b: &mut bytes::BytesMut, n: u32)
    requires
        fits_buffer(buf_bytes(*old(b)).len() + 4),
    ensures
        buf_bytes(*final(b)) == buf_bytes(*old(b)) + be_u32(n),
{
    b.put_u32(n)
}

/// Relies on `BufMut::put_i32` for `BytesMut`: appends the two's-complement
/// bits of `n` in big-endian byte order.
#[verifier::external_body]
pub(crate) fn put_i32(b: &mut bytes::BytesMut, n: i32)
    requires
        fits_buffer(buf_bytes(*old(b)).len() + 4),
    ensures
        buf_bytes(*final(b)) == buf_bytes(*old(b)) + be_u32(n as u32),
{
    b.put_i32(n)
}

/// Relies on `BufMut::put_i64` for `BytesMut`: appends the two's-complement
/// bits of `n` in big-endian byte order.
#[verifier::external_body]
pub(crate) fn put_i64(b: &mut bytes::BytesMut, n: i64)
    requires
        fits_buffer(buf_bytes(*old(b)).len() + 8),
    ensures
        buf_bytes(*final(b)) == buf_bytes(*old(b)) + be_u64(n as u64),
{
    b.put_i64(n)
}

/// Relies on `BufMut::put_slice` for `BytesMut`: appends the bytes of `src` in order.
#[verifier::external_body]
pub(crate) fn put_slice(b: &mut bytes::BytesMut, src: &[u8])
    requires
        fits_buffer(buf_bytes(*old(b)).len() + src@.len()),
    ensures
        buf_bytes(*final(b)) == buf_bytes(*old(b)) + src@,
{
    b.put_slice(src)
}

} // verus!
