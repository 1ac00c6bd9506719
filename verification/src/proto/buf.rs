//! Byte buffers of the `bytes` crate, as the frame codec uses them.
//!
//! `BytesMut` and `Bytes` are opaque to the verifier: what a buffer holds is
//! named by `bytes_mut_contents` and `bytes_contents`, and each operation that
//! the codec calls is a small trusted wrapper whose contract speaks of those
//! names.
use bytes::Buf;
use bytes::{Bytes, BytesMut};
use vstd::prelude::*;

verus! {

/// The outside growable byte buffer.
#[verifier::external_type_specification]
#[verifier::external_body]
pub struct ExBytesMut(BytesMut);

/// The outside immutable shared byte buffer.
#[verifier::external_type_specification]
#[verifier::external_body]
pub struct ExBytes(Bytes);

/// The bytes that a `BytesMut` holds, in order.
pub uninterp spec fn bytes_mut_contents(b: BytesMut) -> Seq<u8>;

/// The bytes that a `Bytes` holds, in order.
pub uninterp spec fn bytes_contents(b: Bytes) -> Seq<u8>;

/// Big-endian value of two bytes.
pub open spec fn be_u16_value(s: Seq<u8>) -> int {
    s[0] * 256 + s[1]
}

/// Big-endian value of four bytes.
pub open spec fn be_u32_value(s: Seq<u8>) -> int {
    s[0] * 16777216 + s[1] * 65536 + s[2] * 256 + s[3]
}

/// `BytesMut::with_capacity`: an empty buffer (the capacity is not modelled).
/// It panics when the capacity exceeds `isize::MAX`, which `requires` rules
/// out.
#[verifier::external_body]
pub(crate) fn buf_with_capacity(capacity: usize) -> (b: BytesMut)
    requires
        capacity <= isize::MAX,
    ensures
        bytes_mut_contents(b) == Seq::<u8>::empty(),
{
    BytesMut::with_capacity(capacity)
}

/// `BytesMut::len`: the number of bytes held.
#[verifier::external_body]
pub(crate) fn buf_len(b: &BytesMut) -> (n: usize)
    ensures
        n == bytes_mut_contents(*b).len(),
{
    b.len()
}

/// `BytesMut::reserve`: makes room for more bytes and leaves the contents as
/// they are. It panics when the new capacity overflows, which `requires` rules
/// out.
#[verifier::external_body]
pub(crate) fn buf_reserve(b: &mut BytesMut, additional: usize)
    requires
        bytes_mut_contents(*old(b)).len() + additional <= isize::MAX,
    ensures
        bytes_mut_contents(*final(b)) == bytes_mut_contents(*old(b)),
{
    b.reserve(additional)
}

/// `BytesMut::extend_from_slice`: appends a copy of `s`.
#[verifier::external_body]
pub(crate) fn buf_extend(b: &mut BytesMut, s: &[u8])
    requires
        bytes_mut_contents(*old(b)).len() + s@.len() <= isize::MAX,
    ensures
        bytes_mut_contents(*final(b)) == bytes_mut_contents(*old(b)) + s@,
{
    b.extend_from_slice(s)
}

/// `BytesMut::clone`: a new buffer with the same bytes.
#[verifier::external_body]
pub(crate) fn buf_clone(b: &BytesMut) -> (c: BytesMut)
    ensures
        bytes_mut_contents(c) == bytes_mut_contents(*b),
{
    b.clone()
}

/// `Buf::get_u8` on a `BytesMut`: takes the first byte off the front. It
/// panics on an empty buffer, which `requires` rules out.
#[verifier::external_body]
pub(crate) fn buf_get_u8(b: &mut BytesMut) -> (v: u8)
    requires
        bytes_mut_contents(*old(b)).len() >= 1,
    ensures
        v == bytes_mut_contents(*old(b))[0],
        bytes_mut_contents(*final(b)) == bytes_mut_contents(*old(b)).skip(1),
{
    b.get_u8()
}

/// `Buf::get_u16` on a `BytesMut`: reads two bytes off the front as a
/// big-endian integer. It panics when fewer than two bytes remain.
#[verifier::external_body]
pub(crate) fn buf_get_u16(b: &mut BytesMut) -> (v: u16)
    requires
        bytes_mut_contents(*old(b)).len() >= 2,
    ensures
        v == be_u16_value(bytes_mut_contents(*old(b))),
        bytes_mut_contents(*final(b)) == bytes_mut_contents(*old(b)).skip(2),
{
    b.get_u16()
}

/// `Buf::get_u32` on a `BytesMut`: reads four bytes off the front as a
/// big-endian integer. It panics when fewer than four bytes remain.
#[verifier::external_body]
pub(crate) fn buf_get_u32(b: &mut BytesMut) -> (v: u32)
    requires
        bytes_mut_contents(*old(b)).len() >= 4,
    ensures
        v == be_u32_value(bytes_mut_contents(*old(b))),
        bytes_mut_contents(*final(b)) == bytes_mut_contents(*old(b)).skip(4),
{
    b.get_u32()
}

/// `Buf::advance` on a `BytesMut`: drops `n` bytes off the front. It panics
/// when `n` exceeds the length.
#[verifier::external_body]
pub(crate) fn buf_advance(b: &mut BytesMut, n: usize)
    requires
        n <= bytes_mut_contents(*old(b)).len(),
    ensures
        bytes_mut_contents(*final(b)) == bytes_mut_contents(*old(b)).skip(n as int),
{
    b.advance(n)
}

/// `BytesMut::split_to`: hands out the first `n` bytes and keeps the rest. It
/// panics when `n` exceeds the length.
#[verifier::external_body]
pub(crate) fn buf_split_to(b: &mut BytesMut, n: usize) -> (front: BytesMut)
    requires
        n <= bytes_mut_contents(*old(b)).len(),
    ensures
        bytes_mut_contents(front) == bytes_mut_contents(*old(b)).take(n as int),
        bytes_mut_contents(*final(b)) == bytes_mut_contents(*old(b)).skip(n as int),
{
    b.split_to(n)
}

/// `BytesMut::deref`: the held bytes as a slice.
#[verifier::external_body]
pub(crate) fn buf_as_slice(b: &BytesMut) -> (s: &[u8])
    ensures
        s@ == bytes_mut_contents(*b),
{
    &b[..]
}

/// `BytesMut::freeze`: the same bytes as an immutable `Bytes`.
#[verifier::external_body]
pub(crate) fn buf_freeze(b: BytesMut) -> (f: Bytes)
    ensures
        bytes_contents(f) == bytes_mut_contents(b),
{
    b.freeze()
}

/// `Bytes::copy_from_slice`: a buffer holding a copy of `s`.
#[verifier::external_body]
pub(crate) fn bytes_copy_from_slice(s: &[u8]) -> (b: Bytes)
    ensures
        bytes_contents(b) == s@,
{
    Bytes::copy_from_slice(s)
}

/// `Bytes::deref`: the held bytes as a slice.
#[verifier::external_body]
pub(crate) fn bytes_as_slice(b: &Bytes) -> (s: &[u8])
    ensures
        s@ == bytes_contents(*b),
{
    &b[..]
}

} // verus!
