//! The byte containers of the `bytes` crate, as the library uses them.
use bytes::{BufMut, Bytes, BytesMut};

use vstd::prelude::*;

verus! {

/// `bytes::BytesMut`, a growable byte buffer.
#[verifier::external_type_specification]
#[verifier::external_body]
pub struct ExBytesMut(BytesMut);

/// `bytes::Bytes`, an immutable, cheaply cloneable byte buffer.
#[verifier::external_type_specification]
#[verifier::external_body]
pub struct ExBytes(Bytes);

/// The bytes that a `BytesMut` holds.
pub uninterp spec fn bytes_mut_contents(b: BytesMut) -> Seq<u8>;

/// The bytes that a `Bytes` holds.
pub uninterp spec fn bytes_contents(b: Bytes) -> Seq<u8>;

/// The largest size that a buffer may grow to: beyond it `bytes` panics
/// with "capacity overflow".
pub open spec fn max_buffer_len() -> int {
    isize::MAX as int
}

/// `BytesMut::with_capacity`: a new, empty buffer.
#[verifier::external_body]
pub(crate) fn bytes_mut_with_capacity(capacity: usize) -> (b: BytesMut)
    requires
        capacity <= max_buffer_len(),
    ensures
        bytes_mut_contents(b) == Seq::<u8>::empty(),
{
    BytesMut::with_capacity(capacity)
}

/// `BytesMut::reserve`: room for `additional` more bytes; the contents stay.
#[verifier::external_body]
pub(crate) fn bytes_mut_reserve(b: &mut BytesMut, additional: usize)
    requires
        bytes_mut_contents(*old(b)).len() + additional <= max_buffer_len(),
    ensures
        bytes_mut_contents(*final(b)) == bytes_mut_contents(*old(b)),
{
    b.reserve(additional)
}

/// `BytesMut::len`: the number of bytes held.
#[verifier::external_body]
pub(crate) fn bytes_mut_len(b: &BytesMut) -> (n: usize)
    ensures
        n == bytes_mut_contents(*b).len(),
{
    b.len()
}

/// `BytesMut::extend_from_slice`: appends `other`.
#[verifier::external_body]
pub(crate) fn bytes_mut_extend_from_slice(b: &mut BytesMut, other: &[u8])
    requires
        bytes_mut_contents(*old(b)).len() + other@.len() <= max_buffer_len(),
    ensures
        bytes_mut_contents(*final(b)) == bytes_mut_contents(*old(b)) + other@,
{
    b.extend_from_slice(other)
}

/// `BufMut::put_u8` on a `BytesMut`: appends one byte.
#[verifier::external_body]
pub(crate) fn bytes_mut_put_u8(b: &mut BytesMut, byte: u8)
    requires
        bytes_mut_contents(*old(b)).len() + 1 <= max_buffer_len(),
    ensures
        bytes_mut_contents(*final(b)) == bytes_mut_contents(*old(b)).push(byte),
{
    b.put_u8(byte)
}

/// `BytesMut::truncate`: keeps the first `len` bytes; no effect when `len`
/// is not less than the current length.
#[verifier::external_body]
pub(crate) fn bytes_mut_truncate(b: &mut BytesMut, len: usize)
    ensures
        bytes_mut_contents(*final(b)) == if len < bytes_mut_contents(*old(b)).len() {
            bytes_mut_contents(*old(b)).take(len as int)
        } else {
            bytes_mut_contents(*old(b))
        },
{
    b.truncate(len)
}

/// `BytesMut::split`: takes out everything the buffer holds, leaving it empty.
#[verifier::external_body]
pub(crate) fn bytes_mut_split(b: &mut BytesMut) -> (r: BytesMut)
    ensures
        bytes_mut_contents(r) == bytes_mut_contents(*old(b)),
        bytes_mut_contents(*final(b)) == Seq::<u8>::empty(),
{
    b.split()
}

/// `BytesMut::freeze`: the same bytes as an immutable `Bytes`.
#[verifier::external_body]
pub(crate) fn bytes_mut_freeze(b: BytesMut) -> (r: Bytes)
    ensures
        bytes_contents(r) == bytes_mut_contents(b),
{
    b.freeze()
}

/// The first four bytes of a `BytesMut`, through its `DerefMut` to `[u8]`
/// and `TryFrom<&mut [u8]>` for `&mut [u8; 4]`: what is written through the
/// reference becomes the first four bytes, the rest stays.
#[verifier::external_body]
pub(crate) fn bytes_mut_first_4(b: &mut BytesMut) -> (r: &mut [u8; 4])
    requires
        bytes_mut_contents(*old(b)).len() >= 4,
    ensures
        r@ == bytes_mut_contents(*old(b)).take(4),
        bytes_mut_contents(*final(b)) == final(r)@ + bytes_mut_contents(*old(b)).skip(4),
{
    (&mut b[..4]).try_into().unwrap()
}

/// `Bytes::len`: the number of bytes held.
#[verifier::external_body]
pub(crate) fn bytes_len(b: &Bytes) -> (n: usize)
    ensures
        n == bytes_contents(*b).len(),
{
    b.len()
}

/// `Bytes::clone`: another handle on the same bytes.
#[verifier::external_body]
pub(crate) fn bytes_clone(b: &Bytes) -> (r: Bytes)
    ensures
        bytes_contents(r) == bytes_contents(*b),
{
    b.clone()
}

} // verus!
