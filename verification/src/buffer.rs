//! The byte buffers of the `bytes` crate.

use bytes::{Buf, BufMut, Bytes, BytesMut};

use vstd::prelude::*;

verus! {

/// A growable byte buffer of the `bytes` crate.
#[verifier::external_type_specification]
#[verifier::external_body]
pub struct ExBytesMut(BytesMut);

/// A shared, immutable byte buffer of the `bytes` crate.
#[verifier::external_type_specification]
#[verifier::external_body]
pub struct ExBytes(Bytes);

/// The bytes that a [`BytesMut`] holds, from front to back.
pub uninterp spec fn buffer_bytes(b: BytesMut) -> Seq<u8>;

/// The bytes that a [`Bytes`] holds, from front to back.
pub uninterp spec fn shared_bytes(b: Bytes) -> Seq<u8>;

/// The four big-endian bytes of `n`.
pub open spec fn be_bytes(n: u32) -> Seq<u8> {
    seq![
        (n / 0x100_0000) as u8,
        (n / 0x1_0000 % 0x100) as u8,
        (n / 0x100 % 0x100) as u8,
        (n % 0x100) as u8,
    ]
}

/// `BytesMut::with_capacity` gives an empty buffer. It panics where no vector
/// can have that capacity.
pub assume_specification[ BytesMut::with_capacity ](capacity: usize) -> (b: BytesMut)
    requires
        capacity <= isize::MAX,
    ensures
        buffer_bytes(b) == Seq::<u8>::empty(),
;

/// `BytesMut::len` is the number of bytes held.
pub assume_specification[ BytesMut::len ](b: &BytesMut) -> (n: usize)
    ensures
        n == buffer_bytes(*b).len(),
;

/// `BytesMut::reserve` makes room and leaves the contents alone.
///
/// Depending on what was allocated and cut off before, it may ask for up to
/// four times the room that is needed. It panics where that is more than one
/// vector can have, so the bound is a quarter of that.
pub assume_specification[ BytesMut::reserve ](b: &mut BytesMut, additional: usize)
    requires
        buffer_bytes(*old(b)).len() + additional <= isize::MAX / 4,
    ensures
        buffer_bytes(*final(b)) == buffer_bytes(*old(b)),
;

/// `BytesMut::split_to` cuts the first `at` bytes off and hands them out. It
/// panics where there are fewer.
pub assume_specification[ BytesMut::split_to ](b: &mut BytesMut, at: usize) -> (front: BytesMut)
    requires
        at <= buffer_bytes(*old(b)).len(),
    ensures
        buffer_bytes(front) == buffer_bytes(*old(b)).take(at as int),
        buffer_bytes(*final(b)) == buffer_bytes(*old(b)).skip(at as int),
;

/// `BytesMut::extend_from_slice` appends. It makes room as `BytesMut::reserve`
/// does, and panics where that does.
pub assume_specification[ BytesMut::extend_from_slice ](b: &mut BytesMut, extend: &[u8])
    requires
        buffer_bytes(*old(b)).len() + extend@.len() <= isize::MAX / 4,
    ensures
        buffer_bytes(*final(b)) == buffer_bytes(*old(b)) + extend@,
;

/// `BytesMut::freeze` keeps the contents.
pub assume_specification[ BytesMut::freeze ](b: BytesMut) -> (r: Bytes)
    ensures
        shared_bytes(r) == buffer_bytes(b),
;

/// A clone of a `Bytes` shares its contents.
pub assume_specification[ <Bytes as Clone>::clone ](b: &Bytes) -> (r: Bytes)
    ensures
        shared_bytes(r) == shared_bytes(*b),
;

/// The contents of a `BytesMut` as a slice (its `Deref`).
#[verifier::external_body]
pub(crate) fn buffer_slice(b: &BytesMut) -> (r: &[u8])
    ensures
        r@ == buffer_bytes(*b),
{
    b
}

/// `Buf::advance` of a `BytesMut` drops the first `n` bytes. It panics where
/// there are fewer.
#[verifier::external_body]
pub(crate) fn advance(b: &mut BytesMut, n: usize)
    requires
        n <= buffer_bytes(*old(b)).len(),
    ensures
        buffer_bytes(*final(b)) == buffer_bytes(*old(b)).skip(n as int),
{
    b.advance(n)
}

/// `BufMut::put_u32` of a `BytesMut` appends the big-endian bytes of `n`. It
/// makes room as `BytesMut::reserve` does, and panics where that does.
#[verifier::external_body]
pub(crate) fn put_u32(b: &mut BytesMut, n: u32)
    requires
        buffer_bytes(*old(b)).len() + 4 <= isize::MAX / 4,
    ensures
        buffer_bytes(*final(b)) == buffer_bytes(*old(b)) + be_bytes(n),
{
    b.put_u32(n)
}

} // verus!
