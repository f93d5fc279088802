//! Length-prefixed values: strings, byte buffers, and the length prefixes of
//! arrays; and identifiers.
//!
//! The classic forms prefix a value with its length as a signed integer
//! (`i16` for strings, `i32` for bytes and arrays), `-1` standing for null.
//! The compact forms prefix it with the unsigned varint of its length plus
//! one, `0` standing for null. A string is at most `0x7fff` bytes long.
use crate::buffer::{bytes_mut_put_bytes, bytes_mut_seq, bytes_remaining, bytes_seq, bytes_split_to};
use crate::error::Error;
use crate::ints::{
    lemma_i16_roundtrip, lemma_i32_roundtrip, lemma_u64_roundtrip, read_i16, read_i32, read_u64,
    spec_read_i16, spec_read_i32, spec_read_u64, u16_bytes, u32_bytes, u64_bytes, write_u16,
    write_u32, write_u64,
};
use crate::types::{KafkaString, KafkaUuid};
use crate::varint::{
    lemma_uvarint_len, lemma_uvarint_roundtrip, read_unsigned_varint, spec_read_uvarint,
    unsigned_varint_len, uvarint_bytes, write_unsigned_varint,
};
use crate::wire::{
    emit, fail, has_room, len_result, opt_bytes_view, opt_view, read_as, read_bytes_as,
    read_opt_as, read_opt_bytes_as, written, wrote, ReadOutcome, WriteOutcome,
};
use bytes::{Bytes, BytesMut};
use crate::wire::{lemma_took_front_skip, took_front};
use vstd::prelude::*;

verus! {

broadcast use {crate::wire::lemma_took_front_nothing, crate::wire::lemma_took_front_twice};

pub open spec fn max_string_len() -> int {
    0x7fff
}

/// `n` bytes of `s`, if it has them.
pub open spec fn take_bytes(s: Seq<u8>, n: int) -> ReadOutcome<Seq<u8>> {
    if s.len() < n {
        Err(Error::UnexpectedEof)
    } else {
        Ok((s.take(n), s.skip(n)))
    }
}

/// A classic length: negative stands for null.
pub open spec fn spec_read_nullable_sized(s: Seq<u8>, n: int) -> ReadOutcome<Option<Seq<u8>>> {
    if n < 0 {
        Ok((None, s))
    } else {
        match take_bytes(s, n) {
            Ok((b, rest)) => Ok((Some(b), rest)),
            Err(e) => Err(e),
        }
    }
}

pub open spec fn not_null(o: ReadOutcome<Option<Seq<u8>>>) -> ReadOutcome<Seq<u8>> {
    match o {
        Ok((Some(b), rest)) => Ok((b, rest)),
        Ok((None, _)) => Err(Error::NullNotAllowed),
        Err(e) => Err(e),
    }
}

pub open spec fn spec_read_nullable_string(s: Seq<u8>) -> ReadOutcome<Option<Seq<u8>>> {
    match spec_read_i16(s) {
        Ok((n, rest)) => spec_read_nullable_sized(rest, n as int),
        Err(e) => Err(e),
    }
}

pub open spec fn spec_read_string(s: Seq<u8>) -> ReadOutcome<Seq<u8>> {
    not_null(spec_read_nullable_string(s))
}

/// A compact length: the varint holds the length plus one; a string longer
/// than `0x7fff` bytes is refused.
pub open spec fn spec_read_compact_nullable_sized(s: Seq<u8>, limit: int) -> ReadOutcome<Option<Seq<u8>>> {
    match spec_read_uvarint(s) {
        Ok((n, rest)) => if n == 0 {
            Ok((None, rest))
        } else if n - 1 > limit {
            Err(Error::InvalidLength)
        } else {
            spec_read_nullable_sized(rest, n - 1)
        },
        Err(e) => Err(e),
    }
}

pub open spec fn spec_read_compact_nullable_string(s: Seq<u8>) -> ReadOutcome<Option<Seq<u8>>> {
    spec_read_compact_nullable_sized(s, max_string_len())
}

pub open spec fn spec_read_compact_string(s: Seq<u8>) -> ReadOutcome<Seq<u8>> {
    not_null(spec_read_compact_nullable_string(s))
}

pub open spec fn spec_read_nullable_bytes(s: Seq<u8>) -> ReadOutcome<Option<Seq<u8>>> {
    match spec_read_i32(s) {
        Ok((n, rest)) => spec_read_nullable_sized(rest, n as int),
        Err(e) => Err(e),
    }
}

pub open spec fn spec_read_bytes(s: Seq<u8>) -> ReadOutcome<Seq<u8>> {
    not_null(spec_read_nullable_bytes(s))
}

pub open spec fn spec_read_compact_nullable_bytes(s: Seq<u8>) -> ReadOutcome<Option<Seq<u8>>> {
    spec_read_compact_nullable_sized(s, u32::MAX as int)
}

pub open spec fn spec_read_compact_bytes(s: Seq<u8>) -> ReadOutcome<Seq<u8>> {
    not_null(spec_read_compact_nullable_bytes(s))
}

pub open spec fn spec_write_string(b: Seq<u8>) -> WriteOutcome {
    if b.len() > max_string_len() {
        fail(Error::ValueTooLong)
    } else {
        emit(u16_bytes(b.len() as u16) + b)
    }
}

pub open spec fn spec_write_nullable_string(o: Option<Seq<u8>>) -> WriteOutcome {
    match o {
        Some(b) => spec_write_string(b),
        None => emit(u16_bytes(0xffff)),
    }
}

pub open spec fn spec_write_compact_string(b: Seq<u8>) -> WriteOutcome {
    if b.len() > max_string_len() {
        fail(Error::ValueTooLong)
    } else {
        emit(uvarint_bytes((b.len() + 1) as u32) + b)
    }
}

pub open spec fn spec_write_compact_nullable_string(o: Option<Seq<u8>>) -> WriteOutcome {
    match o {
        Some(b) => spec_write_compact_string(b),
        None => emit(uvarint_bytes(0)),
    }
}

pub open spec fn spec_write_bytes(b: Seq<u8>) -> WriteOutcome {
    if b.len() > i32::MAX {
        fail(Error::ValueTooLong)
    } else {
        emit(u32_bytes(b.len() as u32) + b)
    }
}

pub open spec fn spec_write_nullable_bytes(o: Option<Seq<u8>>) -> WriteOutcome {
    match o {
        Some(b) => spec_write_bytes(b),
        None => emit(u32_bytes(0xffff_ffff)),
    }
}

pub open spec fn spec_write_compact_bytes(b: Seq<u8>) -> WriteOutcome {
    if b.len() >= u32::MAX {
        fail(Error::ValueTooLong)
    } else {
        emit(uvarint_bytes((b.len() + 1) as u32) + b)
    }
}

pub open spec fn spec_write_compact_nullable_bytes(o: Option<Seq<u8>>) -> WriteOutcome {
    match o {
        Some(b) => spec_write_compact_bytes(b),
        None => emit(uvarint_bytes(0)),
    }
}

/// Takes `n` bytes (a length already read) from `buf`.
fn read_sized(buf: &mut Bytes, n: usize) -> (r: Result<Bytes, Error>)
    ensures
        read_bytes_as(take_bytes(bytes_seq(*old(buf)), n as int), *final(buf), r),
        took_front(*old(buf), *final(buf)),
{
    if bytes_remaining(buf) < n {
        return Err(Error::UnexpectedEof);
    }
    let b = bytes_split_to(buf, n);
    proof {
        lemma_took_front_skip(*old(buf), *buf, n as int);
    }
    Ok(b)
}

/// Reads what follows a classic length `n`.
fn read_nullable_sized(buf: &mut Bytes, n: i32) -> (r: Result<Option<Bytes>, Error>)
    ensures
        read_opt_bytes_as(spec_read_nullable_sized(bytes_seq(*old(buf)), n as int), *final(buf), r),
        took_front(*old(buf), *final(buf)),
{
    if n < 0 {
        return Ok(None);
    }
    let b = read_sized(buf, n as usize)?;
    Ok(Some(b))
}

/// Reads a compact length and what follows it, refusing lengths above `limit`.
fn read_compact_nullable_sized(buf: &mut Bytes, limit: u32) -> (r: Result<Option<Bytes>, Error>)
    ensures
        read_opt_bytes_as(
            spec_read_compact_nullable_sized(bytes_seq(*old(buf)), limit as int),
            *final(buf),
            r,
        ),
        took_front(*old(buf), *final(buf)),
{
    let n = read_unsigned_varint(buf)?;
    if n == 0 {
        return Ok(None);
    }
    if n - 1 > limit {
        return Err(Error::InvalidLength);
    }
    let b = read_sized(buf, (n - 1) as usize)?;
    Ok(Some(b))
}

pub fn read_nullable_string(buf: &mut Bytes) -> (r: Result<Option<KafkaString>, Error>)
    ensures
        read_opt_as(spec_read_nullable_string(bytes_seq(*old(buf))), *final(buf), r),
        took_front(*old(buf), *final(buf)),
{
    let n = read_i16(buf)?;
    match read_nullable_sized(buf, n as i32)? {
        Some(b) => Ok(Some(KafkaString::from_bytes(b))),
        None => Ok(None),
    }
}

pub fn read_string(buf: &mut Bytes) -> (r: Result<KafkaString, Error>)
    ensures
        read_as(spec_read_string(bytes_seq(*old(buf))), *final(buf), r),
        took_front(*old(buf), *final(buf)),
{
    match read_nullable_string(buf)? {
        Some(s) => Ok(s),
        None => Err(Error::NullNotAllowed),
    }
}

pub fn read_compact_nullable_string(buf: &mut Bytes) -> (r: Result<Option<KafkaString>, Error>)
    ensures
        read_opt_as(spec_read_compact_nullable_string(bytes_seq(*old(buf))), *final(buf), r),
        took_front(*old(buf), *final(buf)),
{
    match read_compact_nullable_sized(buf, 0x7fff)? {
        Some(b) => Ok(Some(KafkaString::from_bytes(b))),
        None => Ok(None),
    }
}

pub fn read_compact_string(buf: &mut Bytes) -> (r: Result<KafkaString, Error>)
    ensures
        read_as(spec_read_compact_string(bytes_seq(*old(buf))), *final(buf), r),
        took_front(*old(buf), *final(buf)),
{
    match read_compact_nullable_string(buf)? {
        Some(s) => Ok(s),
        None => Err(Error::NullNotAllowed),
    }
}

pub fn read_nullable_bytes(buf: &mut Bytes) -> (r: Result<Option<Bytes>, Error>)
    ensures
        read_opt_bytes_as(spec_read_nullable_bytes(bytes_seq(*old(buf))), *final(buf), r),
        took_front(*old(buf), *final(buf)),
{
    let n = read_i32(buf)?;
    read_nullable_sized(buf, n)
}

pub fn read_bytes(buf: &mut Bytes) -> (r: Result<Bytes, Error>)
    ensures
        read_bytes_as(spec_read_bytes(bytes_seq(*old(buf))), *final(buf), r),
        took_front(*old(buf), *final(buf)),
{
    match read_nullable_bytes(buf)? {
        Some(b) => Ok(b),
        None => Err(Error::NullNotAllowed),
    }
}

pub fn read_compact_nullable_bytes(buf: &mut Bytes) -> (r: Result<Option<Bytes>, Error>)
    ensures
        read_opt_bytes_as(spec_read_compact_nullable_bytes(bytes_seq(*old(buf))), *final(buf), r),
        took_front(*old(buf), *final(buf)),
{
    read_compact_nullable_sized(buf, u32::MAX)
}

pub fn read_compact_bytes(buf: &mut Bytes) -> (r: Result<Bytes, Error>)
    ensures
        read_bytes_as(spec_read_compact_bytes(bytes_seq(*old(buf))), *final(buf), r),
        took_front(*old(buf), *final(buf)),
{
    match read_compact_nullable_bytes(buf)? {
        Some(b) => Ok(b),
        None => Err(Error::NullNotAllowed),
    }
}

pub fn write_string(buf: &mut BytesMut, s: &KafkaString) -> (r: Result<(), Error>)
    requires
        has_room(spec_write_string(s@), *old(buf)),
    ensures
        wrote(spec_write_string(s@), *old(buf), *final(buf), r),
{
    let n = s.len();
    if n > 0x7fff {
        return Err(Error::ValueTooLong);
    }
    write_u16(buf, n as u16);
    bytes_mut_put_bytes(buf, s.as_bytes());
    assert(bytes_mut_seq(*buf) =~= bytes_mut_seq(*old(buf)) + (u16_bytes(n as u16) + s@));
    Ok(())
}

pub fn write_nullable_string(buf: &mut BytesMut, s: &Option<KafkaString>) -> (r: Result<(), Error>)
    requires
        has_room(spec_write_nullable_string(opt_view(*s)), *old(buf)),
    ensures
        wrote(spec_write_nullable_string(opt_view(*s)), *old(buf), *final(buf), r),
{
    match s {
        Some(s) => write_string(buf, s),
        None => {
            write_u16(buf, 0xffff);
            Ok(())
        },
    }
}

pub fn write_compact_string(buf: &mut BytesMut, s: &KafkaString) -> (r: Result<(), Error>)
    requires
        has_room(spec_write_compact_string(s@), *old(buf)),
    ensures
        wrote(spec_write_compact_string(s@), *old(buf), *final(buf), r),
{
    let n = s.len();
    if n > 0x7fff {
        return Err(Error::ValueTooLong);
    }
    write_unsigned_varint(buf, (n + 1) as u32);
    bytes_mut_put_bytes(buf, s.as_bytes());
    assert(bytes_mut_seq(*buf) =~= bytes_mut_seq(*old(buf)) + (uvarint_bytes((n + 1) as u32)
        + s@));
    Ok(())
}

pub fn write_compact_nullable_string(buf: &mut BytesMut, s: &Option<KafkaString>) -> (r: Result<(), Error>)
    requires
        has_room(spec_write_compact_nullable_string(opt_view(*s)), *old(buf)),
    ensures
        wrote(spec_write_compact_nullable_string(opt_view(*s)), *old(buf), *final(buf), r),
{
    match s {
        Some(s) => write_compact_string(buf, s),
        None => {
            write_unsigned_varint(buf, 0);
            Ok(())
        },
    }
}

pub fn write_bytes(buf: &mut BytesMut, b: &Bytes) -> (r: Result<(), Error>)
    requires
        has_room(spec_write_bytes(bytes_seq(*b)), *old(buf)),
    ensures
        wrote(spec_write_bytes(bytes_seq(*b)), *old(buf), *final(buf), r),
{
    let n = bytes_remaining(b);
    if n > 0x7fff_ffff {
        return Err(Error::ValueTooLong);
    }
    write_u32(buf, n as u32);
    bytes_mut_put_bytes(buf, b);
    assert(bytes_mut_seq(*buf) =~= bytes_mut_seq(*old(buf)) + (u32_bytes(n as u32) + bytes_seq(
        *b,
    )));
    Ok(())
}

pub fn write_nullable_bytes(buf: &mut BytesMut, b: &Option<Bytes>) -> (r: Result<(), Error>)
    requires
        has_room(spec_write_nullable_bytes(opt_bytes_view(*b)), *old(buf)),
    ensures
        wrote(spec_write_nullable_bytes(opt_bytes_view(*b)), *old(buf), *final(buf), r),
{
    match b {
        Some(b) => write_bytes(buf, b),
        None => {
            write_u32(buf, 0xffff_ffff);
            Ok(())
        },
    }
}

pub fn write_compact_bytes(buf: &mut BytesMut, b: &Bytes) -> (r: Result<(), Error>)
    requires
        has_room(spec_write_compact_bytes(bytes_seq(*b)), *old(buf)),
    ensures
        wrote(spec_write_compact_bytes(bytes_seq(*b)), *old(buf), *final(buf), r),
{
    let n = bytes_remaining(b);
    if n >= 0xffff_ffff {
        return Err(Error::ValueTooLong);
    }
    write_unsigned_varint(buf, (n + 1) as u32);
    bytes_mut_put_bytes(buf, b);
    assert(bytes_mut_seq(*buf) =~= bytes_mut_seq(*old(buf)) + (uvarint_bytes((n + 1) as u32)
        + bytes_seq(*b)));
    Ok(())
}

pub fn write_compact_nullable_bytes(buf: &mut BytesMut, b: &Option<Bytes>) -> (r: Result<(), Error>)
    requires
        has_room(spec_write_compact_nullable_bytes(opt_bytes_view(*b)), *old(buf)),
    ensures
        wrote(
            spec_write_compact_nullable_bytes(opt_bytes_view(*b)),
            *old(buf),
            *final(buf),
            r,
        ),
{
    match b {
        Some(b) => write_compact_bytes(buf, b),
        None => {
            write_unsigned_varint(buf, 0);
            Ok(())
        },
    }
}

pub fn string_len(s: &KafkaString) -> (r: Result<usize, Error>)
    ensures
        r == len_result(spec_write_string(s@)),
{
    let n = s.len();
    if n > 0x7fff {
        return Err(Error::ValueTooLong);
    }
    Ok(2 + n)
}

pub fn nullable_string_len(s: &Option<KafkaString>) -> (r: Result<usize, Error>)
    ensures
        r == len_result(spec_write_nullable_string(opt_view(*s))),
{
    match s {
        Some(s) => string_len(s),
        None => Ok(2),
    }
}

pub fn compact_string_len(s: &KafkaString) -> (r: Result<usize, Error>)
    ensures
        r == len_result(spec_write_compact_string(s@)),
{
    let n = s.len();
    if n > 0x7fff {
        return Err(Error::ValueTooLong);
    }
    Ok(unsigned_varint_len((n + 1) as u32) + n)
}

pub fn compact_nullable_string_len(s: &Option<KafkaString>) -> (r: Result<usize, Error>)
    ensures
        r == len_result(spec_write_compact_nullable_string(opt_view(*s))),
{
    match s {
        Some(s) => compact_string_len(s),
        None => {
            proof {
                lemma_uvarint_len(0);
            }
            Ok(1)
        },
    }
}

pub fn compact_nullable_bytes_len(b: &Option<Bytes>) -> (r: Result<usize, Error>)
    ensures
        r == len_result(spec_write_compact_nullable_bytes(opt_bytes_view(*b))),
{
    match b {
        Some(b) => {
            let n = bytes_remaining(b);
            if n >= 0xffff_ffff {
                return Err(Error::ValueTooLong);
            }
            let k = unsigned_varint_len((n + 1) as u32);
            if n > usize::MAX - k {
                Ok(usize::MAX)
            } else {
                Ok(k + n)
            }
        },
        None => {
            proof {
                lemma_uvarint_len(0);
            }
            Ok(1)
        },
    }
}

pub open spec fn spec_read_uuid(s: Seq<u8>) -> ReadOutcome<KafkaUuid> {
    match spec_read_u64(s) {
        Err(e) => Err(e),
        Ok((hi, rest)) => match spec_read_u64(rest) {
            Err(e) => Err(e),
            Ok((lo, rest2)) => Ok(
                (KafkaUuid { most_significant_bits: hi, least_significant_bits: lo }, rest2),
            ),
        },
    }
}

pub open spec fn uuid_bytes(u: KafkaUuid) -> Seq<u8> {
    u64_bytes(u.most_significant_bits) + u64_bytes(u.least_significant_bits)
}

pub open spec fn spec_write_uuid(u: KafkaUuid) -> WriteOutcome {
    emit(uuid_bytes(u))
}

pub fn read_uuid(buf: &mut Bytes) -> (r: Result<KafkaUuid, Error>)
    ensures
        read_as(spec_read_uuid(bytes_seq(*old(buf))), *final(buf), r),
        took_front(*old(buf), *final(buf)),
{
    let hi = read_u64(buf)?;
    let lo = read_u64(buf)?;
    Ok(KafkaUuid { most_significant_bits: hi, least_significant_bits: lo })
}

pub fn write_uuid(buf: &mut BytesMut, u: KafkaUuid)
    requires
        has_room(spec_write_uuid(u), *old(buf)),
    ensures
        bytes_mut_seq(*final(buf)) == bytes_mut_seq(*old(buf)) + uuid_bytes(u),
{
    write_u64(buf, u.most_significant_bits);
    write_u64(buf, u.least_significant_bits);
    assert(bytes_mut_seq(*buf) =~= bytes_mut_seq(*old(buf)) + uuid_bytes(u));
}

/// The length of a classic array, `-1` for null. Any negative length
/// reads as no items.
pub open spec fn spec_read_array_length(s: Seq<u8>) -> ReadOutcome<i32> {
    spec_read_i32(s)
}

/// The length of a compact array: the varint less one, so `-1` for null.
pub open spec fn spec_read_compact_array_length(s: Seq<u8>) -> ReadOutcome<i32> {
    match spec_read_uvarint(s) {
        Err(e) => Err(e),
        Ok((n, rest)) => if n - 1 > i32::MAX {
            Err(Error::InvalidLength)
        } else {
            Ok(((n - 1) as i32, rest))
        },
    }
}

pub open spec fn array_length_bytes(n: i32) -> Seq<u8> {
    u32_bytes(n as u32)
}

pub open spec fn compact_array_length_bytes(n: i32) -> Seq<u8> {
    uvarint_bytes((n + 1) as u32)
}

pub fn read_array_length(buf: &mut Bytes) -> (r: Result<i32, Error>)
    ensures
        read_as(spec_read_array_length(bytes_seq(*old(buf))), *final(buf), r),
        took_front(*old(buf), *final(buf)),
{
    read_i32(buf)
}

pub fn read_compact_array_length(buf: &mut Bytes) -> (r: Result<i32, Error>)
    ensures
        read_as(spec_read_compact_array_length(bytes_seq(*old(buf))), *final(buf), r),
        took_front(*old(buf), *final(buf)),
{
    let n = read_unsigned_varint(buf)?;
    if n == 0 {
        return Ok(-1);
    }
    if n - 1 > 0x7fff_ffff {
        return Err(Error::InvalidLength);
    }
    Ok((n - 1) as i32)
}

pub fn write_array_length(buf: &mut BytesMut, n: i32)
    requires
        bytes_mut_seq(*old(buf)).len() + 4 <= isize::MAX,
    ensures
        bytes_mut_seq(*final(buf)) == bytes_mut_seq(*old(buf)) + array_length_bytes(n),
{
    write_u32(buf, n as u32);
}

pub fn write_compact_array_length(buf: &mut BytesMut, n: i32)
    requires
        n >= -1,
        bytes_mut_seq(*old(buf)).len() + compact_array_length_bytes(n).len() <= isize::MAX,
    ensures
        bytes_mut_seq(*final(buf)) == bytes_mut_seq(*old(buf)) + compact_array_length_bytes(n),
{
    write_unsigned_varint(buf, (n as i64 + 1) as u32);
}

pub fn array_length_len() -> (r: usize)
    ensures
        r == 4,
{
    4
}

pub fn compact_array_length_len(n: i32) -> (r: usize)
    requires
        n >= -1,
    ensures
        r == compact_array_length_bytes(n).len(),
        1 <= r <= 5,
{
    unsigned_varint_len((n as i64 + 1) as u32)
}

/// Taking `b.len()` bytes of `b + rest` gives `b` and leaves `rest`.
pub proof fn lemma_take_prefix(b: Seq<u8>, rest: Seq<u8>)
    ensures
        spec_read_nullable_sized(b + rest, b.len() as int) == Ok::<(Option<Seq<u8>>, Seq<u8>), Error>(
            (Some(b), rest),
        ),
{
    assert((b + rest).take(b.len() as int) =~= b);
    assert((b + rest).skip(b.len() as int) =~= rest);
}

/// Reading back what a classic nullable string or byte string with a length
/// of `k` bytes wrote gives it, and leaves what follows.
proof fn lemma_classic_round_trip(o: Option<Seq<u8>>, rest: Seq<u8>, k: int, prefix: Seq<u8>)
    requires
        k == 2 || k == 4,
        o matches Some(b) ==> b.len() <= if k == 2 { 0x7fff } else { i32::MAX as int },
        prefix == (match o {
            Some(b) => (if k == 2 { u16_bytes(b.len() as u16) } else { u32_bytes(b.len() as u32) }) + b,
            None => if k == 2 { u16_bytes(0xffff) } else { u32_bytes(0xffff_ffff) },
        }),
    ensures
        (if k == 2 { spec_read_nullable_string(prefix + rest) } else { spec_read_nullable_bytes(prefix + rest) })
            == Ok::<(Option<Seq<u8>>, Seq<u8>), Error>((o, rest)),
{
    match o {
        Some(b) => {
            lemma_take_prefix(b, rest);
            assert(prefix + rest =~= (if k == 2 { u16_bytes(b.len() as u16) } else { u32_bytes(b.len() as u32) }) + (b + rest));
            if k == 2 {
                lemma_i16_roundtrip(b.len() as i16, b + rest);
                assert(((b.len() as i16) as u16) == b.len() as u16);
            } else {
                lemma_i32_roundtrip(b.len() as i32, b + rest);
                assert(((b.len() as i32) as u32) == b.len() as u32);
            }
        },
        None => {
            if k == 2 {
                lemma_i16_roundtrip(-1i16, rest);
                assert(((-1i16) as u16) == 0xffffu16) by (bit_vector);
            } else {
                lemma_i32_roundtrip(-1i32, rest);
                assert(((-1i32) as u32) == 0xffff_ffffu32) by (bit_vector);
            }
        },
    }
}

/// Reading back what a compact nullable string or byte string wrote gives
/// it, and leaves what follows.
proof fn lemma_compact_round_trip(o: Option<Seq<u8>>, rest: Seq<u8>, limit: int, prefix: Seq<u8>)
    requires
        0 <= limit <= u32::MAX,
        o matches Some(b) ==> b.len() <= limit && b.len() < u32::MAX,
        prefix == (match o {
            Some(b) => uvarint_bytes((b.len() + 1) as u32) + b,
            None => uvarint_bytes(0),
        }),
    ensures
        spec_read_compact_nullable_sized(prefix + rest, limit) == Ok::<(Option<Seq<u8>>, Seq<u8>), Error>(
            (o, rest),
        ),
{
    match o {
        Some(b) => {
            lemma_take_prefix(b, rest);
            lemma_uvarint_roundtrip((b.len() + 1) as u32, b + rest);
            assert(prefix + rest =~= uvarint_bytes((b.len() + 1) as u32) + (b + rest));
        },
        None => {
            lemma_uvarint_roundtrip(0, rest);
        },
    }
}

/// Reading back what `write_string` wrote gives the string, and leaves what
/// follows.
pub proof fn lemma_string_round_trip(b: Seq<u8>, rest: Seq<u8>)
    requires
        spec_write_string(b) is Ok,
    ensures
        spec_read_string(written(spec_write_string(b)) + rest) == Ok::<(Seq<u8>, Seq<u8>), Error>((b, rest)),
{
    lemma_classic_round_trip(Some(b), rest, 2, written(spec_write_string(b)));
}

pub proof fn lemma_nullable_string_round_trip(o: Option<Seq<u8>>, rest: Seq<u8>)
    requires
        spec_write_nullable_string(o) is Ok,
    ensures
        spec_read_nullable_string(written(spec_write_nullable_string(o)) + rest) == Ok::<
            (Option<Seq<u8>>, Seq<u8>),
            Error,
        >((o, rest)),
{
    lemma_classic_round_trip(o, rest, 2, written(spec_write_nullable_string(o)));
}

pub proof fn lemma_bytes_round_trip(b: Seq<u8>, rest: Seq<u8>)
    requires
        spec_write_bytes(b) is Ok,
    ensures
        spec_read_bytes(written(spec_write_bytes(b)) + rest) == Ok::<(Seq<u8>, Seq<u8>), Error>((b, rest)),
{
    lemma_classic_round_trip(Some(b), rest, 4, written(spec_write_bytes(b)));
}

pub proof fn lemma_nullable_bytes_round_trip(o: Option<Seq<u8>>, rest: Seq<u8>)
    requires
        spec_write_nullable_bytes(o) is Ok,
    ensures
        spec_read_nullable_bytes(written(spec_write_nullable_bytes(o)) + rest) == Ok::<
            (Option<Seq<u8>>, Seq<u8>),
            Error,
        >((o, rest)),
{
    lemma_classic_round_trip(o, rest, 4, written(spec_write_nullable_bytes(o)));
}

pub proof fn lemma_compact_string_round_trip(b: Seq<u8>, rest: Seq<u8>)
    requires
        spec_write_compact_string(b) is Ok,
    ensures
        spec_read_compact_string(written(spec_write_compact_string(b)) + rest) == Ok::<
            (Seq<u8>, Seq<u8>),
            Error,
        >((b, rest)),
{
    lemma_compact_round_trip(Some(b), rest, max_string_len(), written(spec_write_compact_string(b)));
}

pub proof fn lemma_compact_nullable_string_round_trip(o: Option<Seq<u8>>, rest: Seq<u8>)
    requires
        spec_write_compact_nullable_string(o) is Ok,
    ensures
        spec_read_compact_nullable_string(written(spec_write_compact_nullable_string(o)) + rest)
            == Ok::<(Option<Seq<u8>>, Seq<u8>), Error>((o, rest)),
{
    lemma_compact_round_trip(o, rest, max_string_len(), written(spec_write_compact_nullable_string(o)));
}

pub proof fn lemma_compact_bytes_round_trip(b: Seq<u8>, rest: Seq<u8>)
    requires
        spec_write_compact_bytes(b) is Ok,
    ensures
        spec_read_compact_bytes(written(spec_write_compact_bytes(b)) + rest) == Ok::<
            (Seq<u8>, Seq<u8>),
            Error,
        >((b, rest)),
{
    lemma_compact_round_trip(Some(b), rest, u32::MAX as int, written(spec_write_compact_bytes(b)));
}

pub proof fn lemma_compact_nullable_bytes_round_trip(o: Option<Seq<u8>>, rest: Seq<u8>)
    requires
        spec_write_compact_nullable_bytes(o) is Ok,
    ensures
        spec_read_compact_nullable_bytes(written(spec_write_compact_nullable_bytes(o)) + rest)
            == Ok::<(Option<Seq<u8>>, Seq<u8>), Error>((o, rest)),
{
    lemma_compact_round_trip(o, rest, u32::MAX as int, written(spec_write_compact_nullable_bytes(o)));
}

/// Reading back what `write_uuid` wrote gives the identifier, and leaves what
/// follows.
pub proof fn lemma_uuid_round_trip(u: KafkaUuid, rest: Seq<u8>)
    ensures
        spec_read_uuid(written(spec_write_uuid(u)) + rest) == Ok::<(KafkaUuid, Seq<u8>), Error>((u, rest)),
{
    lemma_u64_roundtrip(u.least_significant_bits, rest);
    lemma_u64_roundtrip(u.most_significant_bits, u64_bytes(u.least_significant_bits) + rest);
    assert(written(spec_write_uuid(u)) + rest =~= u64_bytes(u.most_significant_bits) + (u64_bytes(
        u.least_significant_bits,
    ) + rest));
}

/// Reading back an array length that was written gives it, and leaves what
/// follows.
pub proof fn lemma_array_length_round_trip(n: i32, rest: Seq<u8>)
    ensures
        spec_read_array_length(array_length_bytes(n) + rest) == Ok::<(i32, Seq<u8>), Error>((n, rest)),
{
    lemma_i32_roundtrip(n, rest);
}

pub proof fn lemma_compact_array_length_round_trip(n: i32, rest: Seq<u8>)
    requires
        n >= -1,
    ensures
        spec_read_compact_array_length(compact_array_length_bytes(n) + rest) == Ok::<
            (i32, Seq<u8>),
            Error,
        >((n, rest)),
{
    lemma_uvarint_roundtrip((n + 1) as u32, rest);
}

} // verus!
