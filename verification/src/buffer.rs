//! Byte buffers of the `bytes` crate and what they hold.

use vstd::prelude::*;

verus! {

/// The growable byte buffer `bytes::BytesMut`.
#[verifier::external_type_specification]
#[verifier::external_body]
pub struct ExBytesMut(bytes::BytesMut);

/// The frozen byte buffer `bytes::Bytes`.
#[verifier::external_type_specification]
#[verifier::external_body]
pub struct ExBytes(bytes::Bytes);

/// The bytes that a growable buffer holds.
pub uninterp spec fn held(b: bytes::BytesMut) -> Seq<u8>;

/// The bytes that a frozen buffer holds.
pub uninterp spec fn frozen(b: bytes::Bytes) -> Seq<u8>;

/// The two bytes of `v`, most significant first.
pub open spec fn be16(v: u16) -> Seq<u8> {
    seq![(v / 256) as u8, (v % 256) as u8]
}

/// The number whose two bytes are `hi` and `lo`, most significant first.
pub open spec fn from_be16(hi: u8, lo: u8) -> nat {
    (hi * 256 + lo) as nat
}

/// `BytesMut::with_capacity`: an empty buffer; the capacity may not pass `isize::MAX`.
#[verifier::external_body]
pub(crate) fn buffer_with_capacity(capacity: usize) -> (r: bytes::BytesMut)
    requires
        capacity <= isize::MAX,
    ensures
        held(r) == Seq::<u8>::empty(),
{
    bytes::BytesMut::with_capacity(capacity)
}

/// `BufMut::put_u16` on a `BytesMut`: appends the number's two bytes, most significant first.
#[verifier::external_body]
pub(crate) fn put_u16(b: &mut bytes::BytesMut, v: u16)
    requires
        held(*old(b)).len() + 2 <= isize::MAX,
    ensures
        held(*final(b)) == held(*old(b)) + be16(v),
{
    bytes::BufMut::put_u16(b, v)
}

/// `BufMut::put_u8` on a `BytesMut`: appends one byte.
#[verifier::external_body]
pub(crate) fn put_u8(b: &mut bytes::BytesMut, v: u8)
    requires
        held(*old(b)).len() + 1 <= isize::MAX,
    ensures
        held(*final(b)) == held(*old(b)).push(v),
{
    bytes::BufMut::put_u8(b, v)
}

/// `BufMut::put_slice` on a `BytesMut`: appends the bytes of the slice.
#[verifier::external_body]
pub(crate) fn put_slice(b: &mut bytes::BytesMut, src: &[u8])
    requires
        held(*old(b)).len() + src@.len() <= isize::MAX,
    ensures
        held(*final(b)) == held(*old(b)) + src@,
{
    bytes::BufMut::put_slice(b, src)
}

/// `BytesMut::freeze`: a frozen buffer that holds the same bytes.
#[verifier::external_body]
pub(crate) fn freeze(b: bytes::BytesMut) -> (r: bytes::Bytes)
    ensures
        frozen(r) == held(b),
{
    b.freeze()
}

/// `Bytes::as_ref`: the bytes of a frozen buffer as a slice.
#[verifier::external_body]
pub(crate) fn frozen_slice(b: &bytes::Bytes) -> (r: &[u8])
    ensures
        r@ == frozen(*b),
{
    b.as_ref()
}

/// `Bytes::new`: a frozen buffer that holds nothing.
#[verifier::external_body]
pub(crate) fn no_bytes() -> (r: bytes::Bytes)
    ensures
        frozen(r) == Seq::<u8>::empty(),
{
    bytes::Bytes::new()
}

/// `Bytes::copy_from_slice`: a frozen buffer that holds the bytes of the slice.
#[verifier::external_body]
pub(crate) fn copy_bytes(src: &[u8]) -> (r: bytes::Bytes)
    ensures
        frozen(r) == src@,
{
    bytes::Bytes::copy_from_slice(src)
}

/// `Bytes::slice` from an index to the end: a frozen buffer that holds the bytes from there on.
#[verifier::external_body]
pub(crate) fn bytes_from(b: &bytes::Bytes, from: usize) -> (r: bytes::Bytes)
    requires
        from <= frozen(*b).len(),
    ensures
        frozen(r) == frozen(*b).skip(from as int),
{
    b.slice(from..)
}

/// Two bytes make up their number, the first counting 256 times the second, and each number has
/// its two bytes.
pub proof fn law_two_bytes_are_a_number(v: u16, hi: u8, lo: u8)
    ensures
        be16(v).len() == 2,
        be16(v)[0] * 256 + be16(v)[1] == v,
        from_be16(hi, lo) == hi * 256 + lo,
{
}

} // verus!
