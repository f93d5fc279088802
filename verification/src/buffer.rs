//! The byte buffers of the `bytes` crate, as the codec sees them.
//!
//! `Bytes` is the read side: decoders take bytes from its front.
//! `BytesMut` is the write side: encoders append to its end.
//! What each buffer holds is named by an uninterpreted function; every
//! operation that the codec performs on a buffer is a trusted wrapper whose
//! contract is stated over those names.
use bytes::{Buf, BufMut, Bytes, BytesMut};
use vstd::prelude::*;

verus! {

#[verifier::external_type_specification]
#[verifier::external_body]
pub struct ExBytes(Bytes);

#[verifier::external_type_specification]
#[verifier::external_body]
pub struct ExBytesMut(BytesMut);

/// The bytes that a `Bytes` value holds, from its read position to its end.
pub uninterp spec fn bytes_seq(b: Bytes) -> Seq<u8>;

/// The bytes that a `BytesMut` value holds.
pub uninterp spec fn bytes_mut_seq(b: BytesMut) -> Seq<u8>;

/// `Bytes::new`: an empty buffer.
#[verifier::external_body]
pub fn bytes_empty() -> (r: Bytes)
    ensures
        bytes_seq(r) == Seq::<u8>::empty(),
{
    Bytes::new()
}

/// `Bytes::from(Vec<u8>)`: a buffer that holds the vector's bytes.
#[verifier::external_body]
pub fn bytes_from_vec(v: Vec<u8>) -> (r: Bytes)
    ensures
        bytes_seq(r) == v@,
{
    Bytes::from(v)
}

/// `Bytes::len`: the number of bytes left to read.
#[verifier::external_body]
pub fn bytes_remaining(b: &Bytes) -> (r: usize)
    ensures
        r == bytes_seq(*b).len(),
{
    b.len()
}

/// `Bytes::clone`: another handle on the same bytes.
pub assume_specification[ <Bytes as Clone>::clone ](b: &Bytes) -> (r: Bytes)
    ensures
        bytes_seq(r) == bytes_seq(*b),
;

/// `Buf::get_u8` on `Bytes`: takes the first byte. It panics on an empty
/// buffer, which `requires` rules out.
#[verifier::external_body]
pub fn bytes_get_u8(b: &mut Bytes) -> (r: u8)
    requires
        bytes_seq(*old(b)).len() >= 1,
    ensures
        r == bytes_seq(*old(b))[0],
        bytes_seq(*final(b)) == bytes_seq(*old(b)).drop_first(),
{
    b.get_u8()
}

/// `Bytes::split_to`: takes the first `at` bytes as a buffer of their own.
/// It panics when `at` exceeds the length, which `requires` rules out.
#[verifier::external_body]
pub fn bytes_split_to(b: &mut Bytes, at: usize) -> (r: Bytes)
    requires
        at <= bytes_seq(*old(b)).len(),
    ensures
        bytes_seq(r) == bytes_seq(*old(b)).take(at as int),
        bytes_seq(*final(b)) == bytes_seq(*old(b)).skip(at as int),
{
    b.split_to(at)
}

/// `BytesMut::new`: an empty buffer.
#[verifier::external_body]
pub fn bytes_mut_new() -> (r: BytesMut)
    ensures
        bytes_mut_seq(r) == Seq::<u8>::empty(),
{
    BytesMut::new()
}

/// `BufMut::put_u8` on `BytesMut`: appends one byte. Growing the buffer
/// beyond `isize::MAX` bytes panics, which `requires` rules out.
#[verifier::external_body]
pub fn bytes_mut_put_u8(b: &mut BytesMut, v: u8)
    requires
        bytes_mut_seq(*old(b)).len() + 1 <= isize::MAX,
    ensures
        bytes_mut_seq(*final(b)) == bytes_mut_seq(*old(b)).push(v),
{
    b.put_u8(v)
}

/// `BytesMut::extend_from_slice`, given the bytes of a `Bytes`: appends
/// them. Growing the buffer beyond `isize::MAX` bytes panics, which
/// `requires` rules out.
#[verifier::external_body]
pub fn bytes_mut_put_bytes(b: &mut BytesMut, src: &Bytes)
    requires
        bytes_mut_seq(*old(b)).len() + bytes_seq(*src).len() <= isize::MAX,
    ensures
        bytes_mut_seq(*final(b)) == bytes_mut_seq(*old(b)) + bytes_seq(*src),
{
    b.extend_from_slice(src)
}

/// `BytesMut::freeze`: the written bytes as a `Bytes`.
#[verifier::external_body]
pub fn bytes_mut_freeze(b: BytesMut) -> (r: Bytes)
    ensures
        bytes_seq(r) == bytes_mut_seq(b),
{
    b.freeze()
}

} // verus!
