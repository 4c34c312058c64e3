//! A verified view of `bytes::BytesMut`, the byte buffer the frame codec
//! reads from and writes into. The buffer itself is outside code; each
//! operation the codec relies on is declared here with its contract.

use vstd::prelude::*;

use bytes::BytesMut;

use crate::wire::be32;

verus! {

#[verifier::external_type_specification]
#[verifier::external_body]
pub struct ExBytesMut(BytesMut);

/// The bytes a `bytes::BytesMut` buffer holds, front to back.
pub uninterp spec fn buf_data(b: BytesMut) -> Seq<u8>;

/// Relies on `BytesMut::len`: the number of bytes the buffer holds.
#[verifier::external_body]
pub(crate) fn buf_len(b: &BytesMut) -> (n: usize)
    ensures
        n == buf_data(*b).len(),
{
    b.len()
}

/// Relies on `Buf::get_u32` for `BytesMut`: reads the first four bytes as a
/// big-endian integer and advances past them; it panics on a shorter buffer.
#[verifier::external_body]
pub(crate) fn buf_get_u32(b: &mut BytesMut) -> (x: u32)
    requires
        buf_data(*old(b)).len() >= 4,
    ensures
        be32(x) == buf_data(*old(b)).take(4),
        buf_data(*final(b)) == buf_data(*old(b)).skip(4),
{
    bytes::Buf::get_u32(b)
}

/// Relies on `BytesMut::split_to`: removes and returns the first `at` bytes,
/// leaving the rest; it panics when `at` exceeds the length.
#[verifier::external_body]
pub(crate) fn buf_split_to(b: &mut BytesMut, at: usize) -> (front: BytesMut)
    requires
        at <= buf_data(*old(b)).len(),
    ensures
        buf_data(front) == buf_data(*old(b)).take(at as int),
        buf_data(*final(b)) == buf_data(*old(b)).skip(at as int),
{
    b.split_to(at)
}

/// Relies on `BufMut::put_u32` for `BytesMut`: appends four big-endian
/// bytes, growing the buffer; the buffer caps its size at `isize::MAX`.
#[verifier::external_body]
pub(crate) fn buf_put_u32(b: &mut BytesMut, x: u32)
    requires
        buf_data(*old(b)).len() + 4 <= usize::MAX / 2,
    ensures
        buf_data(*final(b)) == buf_data(*old(b)) + be32(x),
{
    bytes::BufMut::put_u32(b, x)
}

/// Relies on `BufMut::put_slice` for `BytesMut`: appends the slice, growing
/// the buffer; the buffer caps its size at `isize::MAX`.
#[verifier::external_body]
pub(crate) fn buf_put_slice(b: &mut BytesMut, s: &[u8])
    requires
        buf_data(*old(b)).len() + s@.len() <= usize::MAX / 2,
    ensures
        buf_data(*final(b)) == buf_data(*old(b)) + s@,
{
    bytes::BufMut::put_slice(b, s)
}

/// Relies on the `Deref` of `BytesMut` to a slice over its bytes.
#[verifier::external_body]
pub(crate) fn buf_as_slice(b: &BytesMut) -> (s: &[u8])
    ensures
        s@ == buf_data(*b),
{
    b
}

/// Relies on `From<&[u8]>` for `BytesMut`: copies the slice into a fresh
/// buffer.
#[verifier::external_body]
pub(crate) fn buf_from_slice(s: &[u8]) -> (b: BytesMut)
    ensures
        buf_data(b) == s@,
{
    BytesMut::from(s)
}

} // verus!
