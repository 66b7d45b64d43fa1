//! The byte buffers of the `bytes` crate, as far as this crate uses them.
//!
//! Nothing here is proved. Each contract restates what the documentation and
//! the source of `bytes` say about one function.

use vstd::prelude::*;
use bytes::{Buf, BufMut, Bytes, BytesMut};

verus! {

#[verifier::external_type_specification]
#[verifier::external_body]
pub struct ExBytes(bytes::Bytes);

#[verifier::external_type_specification]
#[verifier::external_body]
pub struct ExBytesMut(bytes::BytesMut);

/// The bytes that a `Bytes` holds, first to last.
pub uninterp spec fn bytes_view(b: Bytes) -> Seq<u8>;

/// The bytes that a `BytesMut` holds, first to last.
pub uninterp spec fn bytes_mut_view(b: BytesMut) -> Seq<u8>;

/// `Bytes::len` returns the number of bytes held.
pub assume_specification[ Bytes::len ](b: &Bytes) -> (n: usize)
    ensures
        n == bytes_view(*b).len(),
;

/// `Bytes::split_to` hands out the first `at` bytes and keeps the rest. It
/// panics when `at` is past the end.
pub assume_specification[ Bytes::split_to ](b: &mut Bytes, at: usize) -> (head: Bytes)
    requires
        at <= bytes_view(*old(b)).len(),
    ensures
        bytes_view(head) == bytes_view(*old(b)).take(at as int),
        bytes_view(*final(b)) == bytes_view(*old(b)).skip(at as int),
;

/// `Bytes::from` on a vector keeps the vector's bytes.
pub assume_specification[ <Bytes as From<Vec<u8>>>::from ](v: Vec<u8>) -> (b: Bytes)
    ensures
        bytes_view(b) == v@,
;

/// `Bytes::clone` makes a second handle on the same bytes.
pub assume_specification[ <Bytes as Clone>::clone ](b: &Bytes) -> (other: Bytes)
    ensures
        bytes_view(other) == bytes_view(*b),
;

/// `Bytes::as_ref` borrows the bytes held as a slice.
pub assume_specification<'a>[ <Bytes as AsRef<[u8]>>::as_ref ](b: &'a Bytes) -> (s: &'a [u8])
    ensures
        s@ == bytes_view(*b),
;

/// `Buf::get_u8` on a `Bytes` takes the first byte off the front. It panics
/// when no byte is left.
#[verifier::external_body]
pub(crate) fn bytes_get_u8(b: &mut Bytes) -> (x: u8)
    requires
        bytes_view(*old(b)).len() > 0,
    ensures
        x == bytes_view(*old(b))[0],
        bytes_view(*final(b)) == bytes_view(*old(b)).skip(1),
{
    b.get_u8()
}

/// `BytesMut::new` makes an empty buffer.
pub assume_specification[ BytesMut::new ]() -> (b: BytesMut)
    ensures
        bytes_mut_view(b) == Seq::<u8>::empty(),
;

/// `BytesMut::len` returns the number of bytes held.
pub assume_specification[ BytesMut::len ](b: &BytesMut) -> (n: usize)
    ensures
        n == bytes_mut_view(*b).len(),
;

/// `BytesMut::extend_from_slice` appends the slice, growing the buffer as
/// needed. Growing panics when the capacity asked for overflows; lengths
/// past `isize::MAX`, which no allocation can have, are left out.
pub assume_specification[ BytesMut::extend_from_slice ](b: &mut BytesMut, extend: &[u8])
    requires
        bytes_mut_view(*old(b)).len() + extend@.len() <= isize::MAX,
    ensures
        bytes_mut_view(*final(b)) == bytes_mut_view(*old(b)) + extend@,
;

/// `BufMut::put_u8` on a `BytesMut` appends one byte, growing the buffer as
/// `BytesMut::extend_from_slice` does.
#[verifier::external_body]
pub(crate) fn bytes_mut_put_u8(b: &mut BytesMut, x: u8)
    requires
        bytes_mut_view(*old(b)).len() < isize::MAX,
    ensures
        bytes_mut_view(*final(b)) == bytes_mut_view(*old(b)).push(x),
{
    b.put_u8(x)
}

/// `BytesMut::as_ref` borrows the bytes held as a slice.
pub assume_specification<'a>[ <BytesMut as AsRef<[u8]>>::as_ref ](b: &'a BytesMut) -> (s: &'a [u8])
    ensures
        s@ == bytes_mut_view(*b),
;

/// `BytesMut::split_to` hands out the first `at` bytes and keeps the rest.
/// It panics when `at` is past the end.
pub assume_specification[ BytesMut::split_to ](b: &mut BytesMut, at: usize) -> (head: BytesMut)
    requires
        at <= bytes_mut_view(*old(b)).len(),
    ensures
        bytes_mut_view(head) == bytes_mut_view(*old(b)).take(at as int),
        bytes_mut_view(*final(b)) == bytes_mut_view(*old(b)).skip(at as int),
;

/// `BytesMut::truncate` keeps the first `len` bytes, or everything when
/// fewer are held.
pub assume_specification[ BytesMut::truncate ](b: &mut BytesMut, len: usize)
    ensures
        bytes_mut_view(*final(b)) == if len <= bytes_mut_view(*old(b)).len() {
            bytes_mut_view(*old(b)).take(len as int)
        } else {
            bytes_mut_view(*old(b))
        },
;

/// `BytesMut::freeze` turns the buffer into a `Bytes` with the same bytes.
pub assume_specification[ BytesMut::freeze ](b: BytesMut) -> (frozen: Bytes)
    ensures
        bytes_view(frozen) == bytes_mut_view(b),
;

} // verus!
