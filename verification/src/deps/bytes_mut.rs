//! Byte buffers, from `bytes`.
use bytes::Buf;
use bytes::BufMut;
use bytes::BytesMut;
use vstd::prelude::*;

use crate::be::be_bytes;
use crate::be::be_value;

verus! {

/// A buffer of `bytes`. Only the bytes in it are spoken of.
#[verifier::external_type_specification]
#[verifier::external_body]
pub struct ExBytesMut(bytes::BytesMut);

/// The bytes in a buffer, from its reading position on.
pub uninterp spec fn buf_bytes(b: BytesMut) -> Seq<u8>;

/// The first `n` bytes in a buffer.
pub open spec fn front(b: BytesMut, n: int) -> Seq<u8> {
    buf_bytes(b).subrange(0, n)
}

/// The bytes in a buffer behind the first `n`.
pub open spec fn behind(b: BytesMut, n: int) -> Seq<u8> {
    buf_bytes(b).subrange(n, buf_bytes(b).len() as int)
}

/// Calls `BytesMut::len`: how many bytes there are.
#[verifier::external_body]
pub(crate) fn buf_len(b: &BytesMut) -> (r: usize)
    ensures
        r == buf_bytes(*b).len(),
{
    b.len()
}

/// Reads the first byte through `BytesMut`'s `Deref` to a slice.
#[verifier::external_body]
pub(crate) fn buf_first(b: &BytesMut) -> (r: u8)
    requires
        buf_bytes(*b).len() > 0,
    ensures
        r == buf_bytes(*b)[0],
{
    b[0]
}

/// Calls `Buf::get_u8`: takes the first byte.
#[verifier::external_body]
pub(crate) fn buf_get_u8(b: &mut BytesMut) -> (r: u8)
    requires
        buf_bytes(*old(b)).len() >= 1,
    ensures
        r == buf_bytes(*old(b))[0],
        buf_bytes(*final(b)) == behind(*old(b), 1),
{
    b.get_u8()
}

/// Calls `Buf::get_u16`: takes the first two bytes, as a big-endian number.
#[verifier::external_body]
pub(crate) fn buf_get_u16(b: &mut BytesMut) -> (r: u16)
    requires
        buf_bytes(*old(b)).len() >= 2,
    ensures
        r == be_value(front(*old(b), 2)),
        buf_bytes(*final(b)) == behind(*old(b), 2),
{
    b.get_u16()
}

/// Calls `Buf::get_u32`: takes the first four bytes, as a big-endian number.
#[verifier::external_body]
pub(crate) fn buf_get_u32(b: &mut BytesMut) -> (r: u32)
    requires
        buf_bytes(*old(b)).len() >= 4,
    ensures
        r == be_value(front(*old(b), 4)),
        buf_bytes(*final(b)) == behind(*old(b), 4),
{
    b.get_u32()
}

/// Calls `Buf::get_u64`: takes the first eight bytes, as a big-endian number.
#[verifier::external_body]
pub(crate) fn buf_get_u64(b: &mut BytesMut) -> (r: u64)
    requires
        buf_bytes(*old(b)).len() >= 8,
    ensures
        r == be_value(front(*old(b), 8)),
        buf_bytes(*final(b)) == behind(*old(b), 8),
{
    b.get_u64()
}

/// Calls `BytesMut::split_to` and turns the part into a `Vec`: takes the first `n` bytes.
#[verifier::external_body]
pub(crate) fn buf_split_to(b: &mut BytesMut, n: usize) -> (r: Vec<u8>)
    requires
        n <= buf_bytes(*old(b)).len(),
    ensures
        r@ == front(*old(b), n as int),
        buf_bytes(*final(b)) == behind(*old(b), n as int),
{
    b.split_to(n).into()
}

/// Calls `Buf::advance`: drops the first `n` bytes.
#[verifier::external_body]
pub(crate) fn buf_advance(b: &mut BytesMut, n: usize)
    requires
        n <= buf_bytes(*old(b)).len(),
    ensures
        buf_bytes(*final(b)) == behind(*old(b), n as int),
{
    b.advance(n)
}

/// Calls `BufMut::put_u8`: appends a byte.
#[verifier::external_body]
pub(crate) fn buf_put_u8(b: &mut BytesMut, v: u8)
    ensures
        buf_bytes(*final(b)) == buf_bytes(*old(b)).push(v),
{
    b.put_u8(v)
}

/// Calls `BufMut::put_u16`: appends a big-endian number of two bytes.
#[verifier::external_body]
pub(crate) fn buf_put_u16(b: &mut BytesMut, v: u16)
    ensures
        buf_bytes(*final(b)) == buf_bytes(*old(b)) + be_bytes(v as nat, 2),
{
    b.put_u16(v)
}

/// Calls `BufMut::put_u32`: appends a big-endian number of four bytes.
#[verifier::external_body]
pub(crate) fn buf_put_u32(b: &mut BytesMut, v: u32)
    ensures
        buf_bytes(*final(b)) == buf_bytes(*old(b)) + be_bytes(v as nat, 4),
{
    b.put_u32(v)
}

/// Calls `BufMut::put_u64`: appends a big-endian number of eight bytes.
#[verifier::external_body]
pub(crate) fn buf_put_u64(b: &mut BytesMut, v: u64)
    ensures
        buf_bytes(*final(b)) == buf_bytes(*old(b)) + be_bytes(v as nat, 8),
{
    b.put_u64(v)
}

/// Calls `BufMut::put_slice`: appends bytes.
#[verifier::external_body]
pub(crate) fn buf_put_slice(b: &mut BytesMut, s: &[u8])
    ensures
        buf_bytes(*final(b)) == buf_bytes(*old(b)) + s@,
{
    b.put_slice(s)
}

} // verus!
