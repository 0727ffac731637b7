//! The protocol's primitive encodings: big-endian integers, one-byte booleans,
//! length-prefixed byte strings and UTF-8 strings, with `-1` as the length of
//! an absent byte string.
use vstd::prelude::*;
use vstd::utf8::{decode_utf8, encode_utf8, encode_utf8_decode_utf8};
use crate::buffer::{be_u32, be_u64, buf_bytes, fits_buffer, put_i32, put_i64, put_slice, put_u32, put_u8};

verus! {

/// Length field of an absent byte string.
pub const NULL_LENGTH: i32 = -1;

/// A length that the protocol's signed 32-bit length field can carry.
pub open spec fn fits_i32(len: nat) -> bool {
    len <= i32::MAX
}

pub open spec fn i32_wire(v: i32) -> Seq<u8> {
    be_u32(v as u32)
}

pub open spec fn u32_wire(v: u32) -> Seq<u8> {
    be_u32(v)
}

pub open spec fn i64_wire(v: i64) -> Seq<u8> {
    be_u64(v as u64)
}

pub open spec fn bool_wire(v: bool) -> Seq<u8> {
    seq![if v { 1u8 } else { 0u8 }]
}

/// A byte string that is always present: its length, then its bytes.
pub open spec fn bytes_wire(d: Seq<u8>) -> Seq<u8> {
    i32_wire(d.len() as i32) + d
}

/// A byte string that may be absent: absent is the length `-1` alone.
pub open spec fn opt_bytes_wire(d: Option<Seq<u8>>) -> Seq<u8> {
    match d {
        Some(d) => bytes_wire(d),
        None => i32_wire(NULL_LENGTH),
    }
}

/// A string: the length of its UTF-8 form, then that form.
pub open spec fn str_wire(s: Seq<char>) -> Seq<u8> {
    bytes_wire(encode_utf8(s))
}

/// A string whose UTF-8 form fits the length field.
pub open spec fn str_fits(s: Seq<char>) -> bool {
    fits_i32(encode_utf8(s).len())
}

pub open spec fn opt_bytes_fit(d: Option<Seq<u8>>) -> bool {
    match d {
        Some(d) => fits_i32(d.len()),
        None => true,
    }
}

/// The bytes of an optional slice.
pub open spec fn opt_view(d: Option<&[u8]>) -> Option<Seq<u8>> {
    match d {
        Some(s) => Some(s@),
        None => None,
    }
}

/// Appends `v` in four big-endian bytes.
pub fn write_i32(v: i32, b: &mut bytes::BytesMut)
    requires
        fits_buffer(buf_bytes(*old(b)).len() + 4),
    ensures
        buf_bytes(*final(b)) == buf_bytes(*old(b)) + i32_wire(v),
{
    put_i32(b, v);
}

/// Appends `v` in four big-endian bytes.
pub fn write_u32(v: u32, b: &mut bytes::BytesMut)
    requires
        fits_buffer(buf_bytes(*old(b)).len() + 4),
    ensures
        buf_bytes(*final(b)) == buf_bytes(*old(b)) + u32_wire(v),
{
    put_u32(b, v);
}

/// Appends `v` in eight big-endian bytes.
pub fn write_i64(v: i64, b: &mut bytes::BytesMut)
    requires
        fits_buffer(buf_bytes(*old(b)).len() + 8),
    ensures
        buf_bytes(*final(b)) == buf_bytes(*old(b)) + i64_wire(v),
{
    put_i64(b, v);
}

/// Appends one byte: 1 for true, 0 for false.
pub fn write_bool(v: bool, b: &mut bytes::BytesMut)
    requires
        fits_buffer(buf_bytes(*old(b)).len() + 1),
    ensures
        buf_bytes(*final(b)) == buf_bytes(*old(b)) + bool_wire(v),
{
    let byte: u8 = if v { 1 } else { 0 };
    put_u8(b, byte);
    assert(buf_bytes(*old(b)).push(byte) =~= buf_bytes(*old(b)) + bool_wire(v));
}

/// Appends a byte string that is always present.
pub fn write_slice(d: &[u8], b: &mut bytes::BytesMut)
    requires
        fits_i32(d@.len()),
        fits_buffer(buf_bytes(*old(b)).len() + bytes_wire(d@).len()),
    ensures
        buf_bytes(*final(b)) == buf_bytes(*old(b)) + bytes_wire(d@),
{
    write_i32(d.len() as i32, b);
    put_slice(b, d);
    assert(buf_bytes(*final(b)) =~= buf_bytes(*old(b)) + bytes_wire(d@));
}

/// Appends a byte string that may be absent.
pub fn write_slice_option(d: Option<&[u8]>, b: &mut bytes::BytesMut)
    requires
        opt_bytes_fit(opt_view(d)),
        fits_buffer(buf_bytes(*old(b)).len() + opt_bytes_wire(opt_view(d)).len()),
    ensures
        buf_bytes(*final(b)) == buf_bytes(*old(b)) + opt_bytes_wire(opt_view(d)),
        d is None ==> buf_bytes(*final(b)) == buf_bytes(*old(b)) + seq![0xffu8, 0xffu8, 0xffu8, 0xffu8],
        d is Some ==> buf_bytes(*final(b)) == buf_bytes(*old(b)) + i32_wire(d->0@.len() as i32) + d->0@,
{
    proof {
        lemma_null_wire();
    }
    match d {
        Some(s) => write_slice(s, b),
        None => write_i32(NULL_LENGTH, b),
    }
}

/// Appends a string as its UTF-8 length, then its UTF-8 bytes.
pub fn write_string(s: &str, b: &mut bytes::BytesMut)
    requires
        str_fits(s@),
        fits_buffer(buf_bytes(*old(b)).len() + str_wire(s@).len()),
    ensures
        buf_bytes(*final(b)) == buf_bytes(*old(b)) + str_wire(s@),
{
    write_slice(s.as_bytes(), b);
}

/// Reads four big-endian bytes from the front of `s`.
pub open spec fn read_u32(s: Seq<u8>) -> u32 {
    ((s[0] as u32) << 24u32) | ((s[1] as u32) << 16u32) | ((s[2] as u32) << 8u32) | (s[3] as u32)
}

pub open spec fn read_i32(s: Seq<u8>) -> i32 {
    read_u32(s) as i32
}

/// Reads a byte string that is always present from the front of `s`;
/// gives it and what follows it.
pub open spec fn read_bytes(s: Seq<u8>) -> (Seq<u8>, Seq<u8>) {
    let n = read_i32(s) as int;
    (s.subrange(4, 4 + n), s.skip(4 + n))
}

/// Reads a byte string that may be absent from the front of `s`;
/// gives it and what follows it.
pub open spec fn read_opt_bytes(s: Seq<u8>) -> (Option<Seq<u8>>, Seq<u8>) {
    if read_i32(s) == NULL_LENGTH {
        (None, s.skip(4))
    } else {
        let (d, rest) = read_bytes(s);
        (Some(d), rest)
    }
}

/// Reads a string from the front of `s`; gives it and what follows it.
pub open spec fn read_str(s: Seq<u8>) -> (Seq<char>, Seq<u8>) {
    let (d, rest) = read_bytes(s);
    (decode_utf8(d), rest)
}

pub proof fn lemma_read_u32(v: u32, rest: Seq<u8>)
    ensures
        read_u32(be_u32(v) + rest) == v,
{
    let s = be_u32(v) + rest;
    let b0 = (v >> 24u32) as u8;
    let b1 = (v >> 16u32) as u8;
    let b2 = (v >> 8u32) as u8;
    let b3 = v as u8;
    assert(s[0] == b0 && s[1] == b1 && s[2] == b2 && s[3] == b3);
    assert((((b0 as u32) << 24u32) | ((b1 as u32) << 16u32) | ((b2 as u32) << 8u32) | (b3 as u32))
        == v) by (bit_vector)
        requires
            b0 == (v >> 24u32) as u8,
            b1 == (v >> 16u32) as u8,
            b2 == (v >> 8u32) as u8,
            b3 == v as u8,
    ;
}

pub proof fn lemma_read_i32(v: i32, rest: Seq<u8>)
    ensures
        read_i32(i32_wire(v) + rest) == v,
{
    lemma_read_u32(v as u32, rest);
    assert((v as u32) as i32 == v) by (bit_vector);
}

pub proof fn lemma_read_bytes(d: Seq<u8>, rest: Seq<u8>)
    requires
        fits_i32(d.len()),
    ensures
        read_bytes(bytes_wire(d) + rest) == (d, rest),
{
    let s = bytes_wire(d) + rest;
    assert(s =~= i32_wire(d.len() as i32) + (d + rest));
    lemma_read_i32(d.len() as i32, d + rest);
    assert(s.subrange(4, 4 + d.len() as int) =~= d);
    assert(s.skip(4 + d.len() as int) =~= rest);
}

pub proof fn lemma_read_opt_bytes(d: Option<Seq<u8>>, rest: Seq<u8>)
    requires
        opt_bytes_fit(d),
    ensures
        read_opt_bytes(opt_bytes_wire(d) + rest) == (d, rest),
{
    match d {
        Some(x) => {
            let s = bytes_wire(x) + rest;
            assert(s =~= i32_wire(x.len() as i32) + (x + rest));
            lemma_read_i32(x.len() as i32, x + rest);
            lemma_read_bytes(x, rest);
        },
        None => {
            lemma_read_i32(NULL_LENGTH, rest);
            assert((i32_wire(NULL_LENGTH) + rest).skip(4) =~= rest);
        },
    }
}

pub proof fn lemma_read_str(c: Seq<char>, rest: Seq<u8>)
    requires
        str_fits(c),
    ensures
        read_str(str_wire(c) + rest) == (c, rest),
{
    lemma_read_bytes(encode_utf8(c), rest);
    encode_utf8_decode_utf8(c);
}

/// The length field of an absent byte string is four bytes of all ones.
pub proof fn lemma_null_wire()
    ensures
        i32_wire(NULL_LENGTH) == seq![0xffu8, 0xffu8, 0xffu8, 0xffu8],
{
    let m = NULL_LENGTH;
    assert(((m as u32) >> 24u32) as u8 == 0xffu8 && ((m as u32) >> 16u32) as u8 == 0xffu8
        && ((m as u32) >> 8u32) as u8 == 0xffu8 && (m as u32) as u8 == 0xffu8) by (bit_vector)
        requires m == -1i32;
    assert(i32_wire(NULL_LENGTH) =~= seq![0xffu8, 0xffu8, 0xffu8, 0xffu8]);
}

/// An optional byte string `d` that is present is written as its length and
/// then its bytes; an absent one as exactly the four bytes of `-1`; and the two
/// never coincide, not even for an empty `d`.
pub proof fn lemma_opt_bytes_null_distinct(d: Seq<u8>)
    requires
        fits_i32(d.len()),
    ensures
        opt_bytes_wire(Some(d)) == i32_wire(d.len() as i32) + d,
        opt_bytes_wire(None) == seq![0xffu8, 0xffu8, 0xffu8, 0xffu8],
        opt_bytes_wire(Some(d)) != opt_bytes_wire(None),
{
    let n = d.len() as i32;
    lemma_null_wire();
    assert(((n as u32) >> 24u32) as u8 != 0xffu8) by (bit_vector)
        requires n >= 0i32;
    assert(opt_bytes_wire(Some(d))[0] != opt_bytes_wire(None)[0]);
}

} // verus!
