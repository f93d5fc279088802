//! Fixed-width big-endian integers and booleans.
use crate::buffer::{bytes_get_u8, bytes_remaining, bytes_mut_put_u8, bytes_mut_seq, bytes_seq};
use crate::error::Error;
use crate::wire::{emit, has_room, read_as, ReadOutcome, WriteOutcome};
use bytes::{Bytes, BytesMut};
use crate::wire::{lemma_took_front_skip, took_front};
use vstd::prelude::*;

verus! {

broadcast use {crate::wire::lemma_took_front_nothing, crate::wire::lemma_took_front_twice};

pub open spec fn be16(b0: u8, b1: u8) -> u16 {
    ((b0 as u16) << 8u16) | (b1 as u16)
}

pub open spec fn be32(b0: u8, b1: u8, b2: u8, b3: u8) -> u32 {
    ((b0 as u32) << 24u32) | ((b1 as u32) << 16u32) | ((b2 as u32) << 8u32) | (b3 as u32)
}

pub open spec fn be64(b: Seq<u8>) -> u64 {
    ((b[0] as u64) << 56u64) | ((b[1] as u64) << 48u64) | ((b[2] as u64) << 40u64) | ((b[3] as u64)
        << 32u64) | ((b[4] as u64) << 24u64) | ((b[5] as u64) << 16u64) | ((b[6] as u64) << 8u64)
        | (b[7] as u64)
}

pub open spec fn u16_bytes(u: u16) -> Seq<u8> {
    seq![(u >> 8u16) as u8, u as u8]
}

pub open spec fn u32_bytes(u: u32) -> Seq<u8> {
    seq![(u >> 24u32) as u8, (u >> 16u32) as u8, (u >> 8u32) as u8, u as u8]
}

pub open spec fn u64_bytes(u: u64) -> Seq<u8> {
    seq![
        (u >> 56u64) as u8,
        (u >> 48u64) as u8,
        (u >> 40u64) as u8,
        (u >> 32u64) as u8,
        (u >> 24u64) as u8,
        (u >> 16u64) as u8,
        (u >> 8u64) as u8,
        u as u8,
    ]
}

pub open spec fn spec_read_u8(s: Seq<u8>) -> ReadOutcome<u8> {
    if s.len() < 1 {
        Err(Error::UnexpectedEof)
    } else {
        Ok((s[0], s.drop_first()))
    }
}

pub open spec fn spec_read_i8(s: Seq<u8>) -> ReadOutcome<i8> {
    match spec_read_u8(s) {
        Ok((b, rest)) => Ok((b as i8, rest)),
        Err(e) => Err(e),
    }
}

/// A boolean is one byte; any byte other than zero reads as `true`.
pub open spec fn spec_read_bool(s: Seq<u8>) -> ReadOutcome<bool> {
    match spec_read_u8(s) {
        Ok((b, rest)) => Ok((b != 0, rest)),
        Err(e) => Err(e),
    }
}

pub open spec fn spec_read_u16(s: Seq<u8>) -> ReadOutcome<u16> {
    if s.len() < 2 {
        Err(Error::UnexpectedEof)
    } else {
        Ok((be16(s[0], s[1]), s.skip(2)))
    }
}

pub open spec fn spec_read_i16(s: Seq<u8>) -> ReadOutcome<i16> {
    match spec_read_u16(s) {
        Ok((u, rest)) => Ok((u as i16, rest)),
        Err(e) => Err(e),
    }
}

pub open spec fn spec_read_u32(s: Seq<u8>) -> ReadOutcome<u32> {
    if s.len() < 4 {
        Err(Error::UnexpectedEof)
    } else {
        Ok((be32(s[0], s[1], s[2], s[3]), s.skip(4)))
    }
}

pub open spec fn spec_read_i32(s: Seq<u8>) -> ReadOutcome<i32> {
    match spec_read_u32(s) {
        Ok((u, rest)) => Ok((u as i32, rest)),
        Err(e) => Err(e),
    }
}

pub open spec fn spec_read_u64(s: Seq<u8>) -> ReadOutcome<u64> {
    if s.len() < 8 {
        Err(Error::UnexpectedEof)
    } else {
        Ok((be64(s.take(8)), s.skip(8)))
    }
}

pub open spec fn spec_read_i64(s: Seq<u8>) -> ReadOutcome<i64> {
    match spec_read_u64(s) {
        Ok((u, rest)) => Ok((u as i64, rest)),
        Err(e) => Err(e),
    }
}

pub open spec fn spec_write_i8(v: i8) -> WriteOutcome {
    emit(seq![v as u8])
}

pub open spec fn spec_write_bool(v: bool) -> WriteOutcome {
    emit(seq![if v { 1u8 } else { 0u8 }])
}

pub open spec fn spec_write_u16(v: u16) -> WriteOutcome {
    emit(u16_bytes(v))
}

pub open spec fn spec_write_i16(v: i16) -> WriteOutcome {
    emit(u16_bytes(v as u16))
}

pub open spec fn spec_write_u32(v: u32) -> WriteOutcome {
    emit(u32_bytes(v))
}

pub open spec fn spec_write_i32(v: i32) -> WriteOutcome {
    emit(u32_bytes(v as u32))
}

pub open spec fn spec_write_u64(v: u64) -> WriteOutcome {
    emit(u64_bytes(v))
}

pub open spec fn spec_write_i64(v: i64) -> WriteOutcome {
    emit(u64_bytes(v as u64))
}

pub fn read_u8(buf: &mut Bytes) -> (r: Result<u8, Error>)
    ensures
        read_as(spec_read_u8(bytes_seq(*old(buf))), *final(buf), r),
        took_front(*old(buf), *final(buf)),
{
    if bytes_remaining(buf) < 1 {
        return Err(Error::UnexpectedEof);
    }
    let b = bytes_get_u8(buf);
    proof {
        lemma_took_front_skip(*old(buf), *buf, 1);
    }
    Ok(b)
}

pub fn read_i8(buf: &mut Bytes) -> (r: Result<i8, Error>)
    ensures
        read_as(spec_read_i8(bytes_seq(*old(buf))), *final(buf), r),
        took_front(*old(buf), *final(buf)),
{
    let b = read_u8(buf)?;
    Ok(b as i8)
}

pub fn read_bool(buf: &mut Bytes) -> (r: Result<bool, Error>)
    ensures
        read_as(spec_read_bool(bytes_seq(*old(buf))), *final(buf), r),
        took_front(*old(buf), *final(buf)),
{
    let b = read_u8(buf)?;
    Ok(b != 0)
}

pub fn read_u16(buf: &mut Bytes) -> (r: Result<u16, Error>)
    ensures
        read_as(spec_read_u16(bytes_seq(*old(buf))), *final(buf), r),
        took_front(*old(buf), *final(buf)),
{
    if bytes_remaining(buf) < 2 {
        return Err(Error::UnexpectedEof);
    }
    let ghost s = bytes_seq(*buf);
    let b0 = bytes_get_u8(buf);
    let b1 = bytes_get_u8(buf);
    assert(bytes_seq(*buf) =~= s.skip(2));
    Ok(((b0 as u16) << 8u16) | (b1 as u16))
}

pub fn read_i16(buf: &mut Bytes) -> (r: Result<i16, Error>)
    ensures
        read_as(spec_read_i16(bytes_seq(*old(buf))), *final(buf), r),
        took_front(*old(buf), *final(buf)),
{
    let u = read_u16(buf)?;
    Ok(u as i16)
}

pub fn read_u32(buf: &mut Bytes) -> (r: Result<u32, Error>)
    ensures
        read_as(spec_read_u32(bytes_seq(*old(buf))), *final(buf), r),
        took_front(*old(buf), *final(buf)),
{
    if bytes_remaining(buf) < 4 {
        return Err(Error::UnexpectedEof);
    }
    let ghost s = bytes_seq(*buf);
    let b0 = bytes_get_u8(buf);
    let b1 = bytes_get_u8(buf);
    let b2 = bytes_get_u8(buf);
    let b3 = bytes_get_u8(buf);
    assert(bytes_seq(*buf) =~= s.skip(4));
    Ok(((b0 as u32) << 24u32) | ((b1 as u32) << 16u32) | ((b2 as u32) << 8u32) | (b3 as u32))
}

pub fn read_i32(buf: &mut Bytes) -> (r: Result<i32, Error>)
    ensures
        read_as(spec_read_i32(bytes_seq(*old(buf))), *final(buf), r),
        took_front(*old(buf), *final(buf)),
{
    let u = read_u32(buf)?;
    Ok(u as i32)
}

pub fn read_u64(buf: &mut Bytes) -> (r: Result<u64, Error>)
    ensures
        read_as(spec_read_u64(bytes_seq(*old(buf))), *final(buf), r),
        took_front(*old(buf), *final(buf)),
{
    if bytes_remaining(buf) < 8 {
        return Err(Error::UnexpectedEof);
    }
    let ghost s = bytes_seq(*buf);
    let b0 = bytes_get_u8(buf);
    let b1 = bytes_get_u8(buf);
    let b2 = bytes_get_u8(buf);
    let b3 = bytes_get_u8(buf);
    let b4 = bytes_get_u8(buf);
    let b5 = bytes_get_u8(buf);
    let b6 = bytes_get_u8(buf);
    let b7 = bytes_get_u8(buf);
    assert(bytes_seq(*buf) =~= s.skip(8));
    assert(s.take(8) =~= seq![b0, b1, b2, b3, b4, b5, b6, b7]);
    Ok(((b0 as u64) << 56u64) | ((b1 as u64) << 48u64) | ((b2 as u64) << 40u64) | ((b3 as u64)
        << 32u64) | ((b4 as u64) << 24u64) | ((b5 as u64) << 16u64) | ((b6 as u64) << 8u64)
        | (b7 as u64))
}

pub fn read_i64(buf: &mut Bytes) -> (r: Result<i64, Error>)
    ensures
        read_as(spec_read_i64(bytes_seq(*old(buf))), *final(buf), r),
        took_front(*old(buf), *final(buf)),
{
    let u = read_u64(buf)?;
    Ok(u as i64)
}

pub fn write_i8(buf: &mut BytesMut, v: i8)
    requires
        has_room(spec_write_i8(v), *old(buf)),
    ensures
        bytes_mut_seq(*final(buf)) == bytes_mut_seq(*old(buf)) + seq![v as u8],
{
    bytes_mut_put_u8(buf, v as u8);
    assert(bytes_mut_seq(*buf) =~= bytes_mut_seq(*old(buf)) + seq![v as u8]);
}

pub fn write_bool(buf: &mut BytesMut, v: bool)
    requires
        has_room(spec_write_bool(v), *old(buf)),
    ensures
        bytes_mut_seq(*final(buf)) == bytes_mut_seq(*old(buf)) + seq![if v { 1u8 } else { 0u8 }],
{
    let b: u8 = if v { 1 } else { 0 };
    bytes_mut_put_u8(buf, b);
    assert(bytes_mut_seq(*buf) =~= bytes_mut_seq(*old(buf)) + seq![b]);
}

pub fn write_u16(buf: &mut BytesMut, v: u16)
    requires
        has_room(spec_write_u16(v), *old(buf)),
    ensures
        bytes_mut_seq(*final(buf)) == bytes_mut_seq(*old(buf)) + u16_bytes(v),
{
    bytes_mut_put_u8(buf, (v >> 8u16) as u8);
    bytes_mut_put_u8(buf, v as u8);
    assert(bytes_mut_seq(*buf) =~= bytes_mut_seq(*old(buf)) + u16_bytes(v));
}

pub fn write_i16(buf: &mut BytesMut, v: i16)
    requires
        has_room(spec_write_i16(v), *old(buf)),
    ensures
        bytes_mut_seq(*final(buf)) == bytes_mut_seq(*old(buf)) + u16_bytes(v as u16),
{
    write_u16(buf, v as u16);
}

pub fn write_u32(buf: &mut BytesMut, v: u32)
    requires
        has_room(spec_write_u32(v), *old(buf)),
    ensures
        bytes_mut_seq(*final(buf)) == bytes_mut_seq(*old(buf)) + u32_bytes(v),
{
    bytes_mut_put_u8(buf, (v >> 24u32) as u8);
    bytes_mut_put_u8(buf, (v >> 16u32) as u8);
    bytes_mut_put_u8(buf, (v >> 8u32) as u8);
    bytes_mut_put_u8(buf, v as u8);
    assert(bytes_mut_seq(*buf) =~= bytes_mut_seq(*old(buf)) + u32_bytes(v));
}

pub fn write_i32(buf: &mut BytesMut, v: i32)
    requires
        has_room(spec_write_i32(v), *old(buf)),
    ensures
        bytes_mut_seq(*final(buf)) == bytes_mut_seq(*old(buf)) + u32_bytes(v as u32),
{
    write_u32(buf, v as u32);
}

pub fn write_u64(buf: &mut BytesMut, v: u64)
    requires
        has_room(spec_write_u64(v), *old(buf)),
    ensures
        bytes_mut_seq(*final(buf)) == bytes_mut_seq(*old(buf)) + u64_bytes(v),
{
    bytes_mut_put_u8(buf, (v >> 56u64) as u8);
    bytes_mut_put_u8(buf, (v >> 48u64) as u8);
    bytes_mut_put_u8(buf, (v >> 40u64) as u8);
    bytes_mut_put_u8(buf, (v >> 32u64) as u8);
    bytes_mut_put_u8(buf, (v >> 24u64) as u8);
    bytes_mut_put_u8(buf, (v >> 16u64) as u8);
    bytes_mut_put_u8(buf, (v >> 8u64) as u8);
    bytes_mut_put_u8(buf, v as u8);
    assert(bytes_mut_seq(*buf) =~= bytes_mut_seq(*old(buf)) + u64_bytes(v));
}

pub fn write_i64(buf: &mut BytesMut, v: i64)
    requires
        has_room(spec_write_i64(v), *old(buf)),
    ensures
        bytes_mut_seq(*final(buf)) == bytes_mut_seq(*old(buf)) + u64_bytes(v as u64),
{
    write_u64(buf, v as u64);
}

/// Reading back what `write_i8` wrote gives the value, and leaves what follows.
pub proof fn lemma_i8_roundtrip(v: i8, rest: Seq<u8>)
    ensures
        spec_read_i8(seq![v as u8] + rest) == Ok::<(i8, Seq<u8>), Error>((v, rest)),
{
    assert((seq![v as u8] + rest).drop_first() =~= rest);
    assert(((v as u8) as i8) == v) by (bit_vector);
}

pub proof fn lemma_bool_roundtrip(v: bool, rest: Seq<u8>)
    ensures
        spec_read_bool(seq![if v { 1u8 } else { 0u8 }] + rest) == Ok::<(bool, Seq<u8>), Error>((v, rest)),
{
    assert((seq![if v { 1u8 } else { 0u8 }] + rest).drop_first() =~= rest);
}

pub proof fn lemma_u16_roundtrip(v: u16, rest: Seq<u8>)
    ensures
        spec_read_u16(u16_bytes(v) + rest) == Ok::<(u16, Seq<u8>), Error>((v, rest)),
{
    assert((u16_bytes(v) + rest).skip(2) =~= rest);
    assert(be16((v >> 8u16) as u8, v as u8) == v) by (bit_vector);
}

pub proof fn lemma_i16_roundtrip(v: i16, rest: Seq<u8>)
    ensures
        spec_read_i16(u16_bytes(v as u16) + rest) == Ok::<(i16, Seq<u8>), Error>((v, rest)),
{
    lemma_u16_roundtrip(v as u16, rest);
    assert(((v as u16) as i16) == v) by (bit_vector);
}

pub proof fn lemma_u32_roundtrip(v: u32, rest: Seq<u8>)
    ensures
        spec_read_u32(u32_bytes(v) + rest) == Ok::<(u32, Seq<u8>), Error>((v, rest)),
{
    assert((u32_bytes(v) + rest).skip(4) =~= rest);
    assert(be32((v >> 24u32) as u8, (v >> 16u32) as u8, (v >> 8u32) as u8, v as u8) == v)
        by (bit_vector);
}

pub proof fn lemma_i32_roundtrip(v: i32, rest: Seq<u8>)
    ensures
        spec_read_i32(u32_bytes(v as u32) + rest) == Ok::<(i32, Seq<u8>), Error>((v, rest)),
{
    lemma_u32_roundtrip(v as u32, rest);
    assert(((v as u32) as i32) == v) by (bit_vector);
}

pub proof fn lemma_u64_roundtrip(v: u64, rest: Seq<u8>)
    ensures
        spec_read_u64(u64_bytes(v) + rest) == Ok::<(u64, Seq<u8>), Error>((v, rest)),
{
    let s = u64_bytes(v) + rest;
    assert(s.skip(8) =~= rest);
    assert(s.take(8) =~= u64_bytes(v));
    assert(((((v >> 56u64) as u8) as u64) << 56u64) | ((((v >> 48u64) as u8) as u64) << 48u64) | ((
    ((v >> 40u64) as u8) as u64) << 40u64) | ((((v >> 32u64) as u8) as u64) << 32u64) | ((((v
        >> 24u64) as u8) as u64) << 24u64) | ((((v >> 16u64) as u8) as u64) << 16u64) | ((((v
        >> 8u64) as u8) as u64) << 8u64) | ((v as u8) as u64) == v) by (bit_vector);
}

pub proof fn lemma_i64_roundtrip(v: i64, rest: Seq<u8>)
    ensures
        spec_read_i64(u64_bytes(v as u64) + rest) == Ok::<(i64, Seq<u8>), Error>((v, rest)),
{
    lemma_u64_roundtrip(v as u64, rest);
    assert(((v as u64) as i64) == v) by (bit_vector);
}

} // verus!
