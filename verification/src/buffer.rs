//! The byte buffers of the `bytes` crate, as sequences of bytes.
use bytes::Buf;
use bytes::Bytes;
use bytes::BytesMut;
use vstd::prelude::*;

verus! {

#[verifier::external_type_specification]
#[verifier::external_body]
pub struct ExBytes(bytes::Bytes);

#[verifier::external_type_specification]
#[verifier::external_body]
pub struct ExBytesMut(bytes::BytesMut);

/// The bytes that a `bytes::Bytes` holds, first to last.
pub uninterp spec fn bytes_content(b: bytes::Bytes) -> Seq<u8>;

/// The bytes that a `bytes::BytesMut` holds, first to last.
pub uninterp spec fn bytes_mut_content(b: bytes::BytesMut) -> Seq<u8>;

/// A buffer seen as the bytes that it holds.
pub trait BufferView {
    /// The bytes of the buffer, first to last.
    spec fn view(&self) -> Seq<u8>;
}

impl BufferView for bytes::Bytes {
    open spec fn view(&self) -> Seq<u8> {
        bytes_content(*self)
    }
}

impl BufferView for bytes::BytesMut {
    open spec fn view(&self) -> Seq<u8> {
        bytes_mut_content(*self)
    }
}

/// `Bytes::new` makes a buffer without bytes.
pub assume_specification[ bytes::Bytes::new ]() -> (b: bytes::Bytes)
    ensures
        bytes_content(b) == Seq::<u8>::empty(),
;

/// `Bytes::len` counts the bytes held.
pub assume_specification[ bytes::Bytes::len ](b: &bytes::Bytes) -> (n: usize)
    ensures
        n == bytes_content(*b).len(),
;

/// `Bytes::is_empty` tells whether no byte is held.
pub assume_specification[ bytes::Bytes::is_empty ](b: &bytes::Bytes) -> (empty: bool)
    ensures
        empty == (bytes_content(*b).len() == 0),
;

/// `Bytes::copy_from_slice` makes a buffer that holds a copy of `data`.
pub assume_specification[ bytes::Bytes::copy_from_slice ](data: &[u8]) -> (b: bytes::Bytes)
    ensures
        bytes_content(b) == data@,
;

/// `Bytes::clone` makes another handle on the same bytes.
pub assume_specification[ <bytes::Bytes as Clone>::clone ](b: &bytes::Bytes) -> (copy: bytes::Bytes)
    ensures
        bytes_content(copy) == bytes_content(*b),
;

/// Dereferencing a `Bytes` gives the slice of all its bytes.
pub assume_specification[ <bytes::Bytes as core::ops::Deref>::deref ](b: &bytes::Bytes) -> (s: &[u8])
    ensures
        s@ == bytes_content(*b),
;

/// `Bytes::from(Vec<u8>)` takes over the bytes of the vector.
#[verifier::external_body]
pub(crate) fn bytes_from_vec(v: Vec<u8>) -> (b: Bytes)
    ensures
        bytes_content(b) == v@,
{
    Bytes::from(v)
}

/// `Buf::advance` on a `Bytes` drops the first `n` bytes. It panics where
/// there are fewer.
#[verifier::external_body]
pub(crate) fn bytes_advance(b: &mut Bytes, n: usize)
    requires
        n <= bytes_content(*old(b)).len(),
    ensures
        bytes_content(*final(b)) == bytes_content(*old(b)).skip(n as int),
{
    b.advance(n)
}

/// `Bytes::split_to` hands out the first `n` bytes and keeps the rest. It
/// panics where there are fewer.
pub assume_specification[ bytes::Bytes::split_to ](b: &mut bytes::Bytes, n: usize) -> (front: bytes::Bytes)
    requires
        n <= bytes_content(*old(b)).len(),
    ensures
        bytes_content(front) == bytes_content(*old(b)).take(n as int),
        bytes_content(*final(b)) == bytes_content(*old(b)).skip(n as int),
;

/// `BytesMut::new` makes a buffer without bytes.
pub assume_specification[ bytes::BytesMut::new ]() -> (b: bytes::BytesMut)
    ensures
        bytes_mut_content(b) == Seq::<u8>::empty(),
;

/// `BytesMut::with_capacity` makes a buffer without bytes. It panics where the
/// capacity exceeds what an allocation can hold.
pub assume_specification[ bytes::BytesMut::with_capacity ](capacity: usize) -> (b: bytes::BytesMut)
    requires
        capacity <= isize::MAX,
    ensures
        bytes_mut_content(b) == Seq::<u8>::empty(),
;

/// `BytesMut::len` counts the bytes held.
pub assume_specification[ bytes::BytesMut::len ](b: &bytes::BytesMut) -> (n: usize)
    ensures
        n == bytes_mut_content(*b).len(),
;

/// `BytesMut::is_empty` tells whether no byte is held.
pub assume_specification[ bytes::BytesMut::is_empty ](b: &bytes::BytesMut) -> (empty: bool)
    ensures
        empty == (bytes_mut_content(*b).len() == 0),
;

/// Dereferencing a `BytesMut` gives the slice of all its bytes.
pub assume_specification[ <bytes::BytesMut as core::ops::Deref>::deref ](b: &bytes::BytesMut) -> (s: &[u8])
    ensures
        s@ == bytes_mut_content(*b),
;

/// `BytesMut::extend_from_slice` appends the bytes of `extend`.
pub assume_specification[ bytes::BytesMut::extend_from_slice ](b: &mut bytes::BytesMut, extend: &[u8])
    ensures
        bytes_mut_content(*final(b)) == bytes_mut_content(*old(b)) + extend@,
;

/// `BytesMut::truncate` keeps the first `len` bytes, or all where there are no
/// more.
pub assume_specification[ bytes::BytesMut::truncate ](b: &mut bytes::BytesMut, len: usize)
    ensures
        len <= bytes_mut_content(*old(b)).len() ==> bytes_mut_content(*final(b))
            == bytes_mut_content(*old(b)).take(len as int),
        len > bytes_mut_content(*old(b)).len() ==> bytes_mut_content(*final(b))
            == bytes_mut_content(*old(b)),
;

/// `BytesMut::split_to` hands out the first `n` bytes and keeps the rest. It
/// panics where there are fewer.
pub assume_specification[ bytes::BytesMut::split_to ](b: &mut bytes::BytesMut, n: usize) -> (front: bytes::BytesMut)
    requires
        n <= bytes_mut_content(*old(b)).len(),
    ensures
        bytes_mut_content(front) == bytes_mut_content(*old(b)).take(n as int),
        bytes_mut_content(*final(b)) == bytes_mut_content(*old(b)).skip(n as int),
;

/// `BytesMut::freeze` turns the buffer into an immutable one with the same
/// bytes.
pub assume_specification[ bytes::BytesMut::freeze ](b: bytes::BytesMut) -> (frozen: bytes::Bytes)
    ensures
        bytes_content(frozen) == bytes_mut_content(b),
;

/// `BytesMut::reserve` makes room and leaves the bytes as they are.
pub assume_specification[ bytes::BytesMut::reserve ](b: &mut bytes::BytesMut, additional: usize)
    requires
        bytes_mut_content(*old(b)).len() + additional <= isize::MAX,
    ensures
        bytes_mut_content(*final(b)) == bytes_mut_content(*old(b)),
;

} // verus!
