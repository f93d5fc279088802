//! Items that arrays are made of, and arrays of them.
use crate::buffer::{bytes_mut_seq, bytes_seq};
use crate::error::Error;
use crate::ints::{
    lemma_i32_roundtrip, lemma_i64_roundtrip, lemma_i8_roundtrip, read_i32, read_i64, read_i8,
    spec_read_i32, spec_read_i64, spec_read_i8, spec_write_i32, spec_write_i64, spec_write_i8,
    write_i32, write_i64, write_i8,
};
use crate::strings::{
    array_length_bytes, compact_array_length_bytes, compact_array_length_len, compact_string_len,
    lemma_array_length_round_trip, lemma_compact_array_length_round_trip,
    lemma_compact_string_round_trip, lemma_string_round_trip,
    read_array_length, read_compact_array_length, read_compact_string, read_string,
    spec_read_array_length, spec_read_compact_array_length, spec_read_compact_string,
    spec_read_string, spec_write_compact_string, spec_write_string, string_len,
    write_array_length, write_compact_array_length, write_compact_string, write_string,
};
use crate::types::KafkaString;
use crate::varint::lemma_uvarint_len;
use crate::wire::{lemma_saturate_add, saturate, 
    chain, emit, fail, has_room, len_result, opt_view, read_as, read_opt_as, read_opt_vec_as, read_vec_as, views,
    written, wrote, ReadOutcome, WriteOutcome,
};
use bytes::{Bytes, BytesMut};
use crate::wire::{lemma_took_front_skip, took_front};
use vstd::prelude::*;

verus! {

broadcast use {crate::wire::lemma_took_front_nothing, crate::wire::lemma_took_front_twice};

/// How an item of an array is read and written. For a message, `version`
/// is the version of the message; the primitive items ignore it.
pub trait Codec {
    type Item: View;

    spec fn spec_read_item(s: Seq<u8>, version: i16) -> ReadOutcome<<Self::Item as View>::V>;

    spec fn spec_write_item(v: <Self::Item as View>::V, version: i16) -> WriteOutcome;

    /// Whether `v` is an item that reading back what writing it gives returns
    /// unchanged.
    spec fn canonical_item(v: <Self::Item as View>::V, version: i16) -> bool;

    /// Reading back what writing a canonical item appended gives the item
    /// again, and leaves what follows.
    proof fn lemma_item_round_trip(v: <Self::Item as View>::V, version: i16, rest: Seq<u8>)
        requires
            Self::canonical_item(v, version),
            Self::spec_write_item(v, version) is Ok,
        ensures
            Self::spec_read_item(written(Self::spec_write_item(v, version)) + rest, version)
                == Ok::<(<Self::Item as View>::V, Seq<u8>), Error>((v, rest)),
    ;

    /// Whether writing `v` succeeds, said over its parts.
    spec fn writable_item(v: <Self::Item as View>::V, version: i16) -> bool;

    /// Writing an item succeeds exactly when it is writable.
    proof fn lemma_item_writable(v: <Self::Item as View>::V, version: i16)
        ensures
            Self::spec_write_item(v, version) is Ok <==> Self::writable_item(v, version),
    ;

    fn read_item(buf: &mut Bytes, version: i16) -> (r: Result<Self::Item, Error>)
        ensures
            read_as(Self::spec_read_item(bytes_seq(*old(buf)), version), *final(buf), r),
            took_front(*old(buf), *final(buf)),
    ;

    fn write_item(item: &Self::Item, buf: &mut BytesMut, version: i16) -> (r: Result<(), Error>)
        requires
            has_room(Self::spec_write_item(item@, version), *old(buf)),
        ensures
            wrote(Self::spec_write_item(item@, version), *old(buf), *final(buf), r),
    ;
}

/// An item whose encoded length can be computed without writing it.
pub trait MeasuredCodec: Codec {
    fn item_len(item: &Self::Item, version: i16) -> (r: Result<usize, Error>)
        ensures
            r == len_result(Self::spec_write_item(item@, version)),
    ;
}

/// `n` items read one after the other, stopping at the first failure.
pub open spec fn read_each<C: Codec>(s: Seq<u8>, n: nat, version: i16) -> ReadOutcome<
    Seq<<C::Item as View>::V>,
>
    decreases n,
{
    if n == 0 {
        Ok((Seq::empty(), s))
    } else {
        match read_each::<C>(s, (n - 1) as nat, version) {
            Err(e) => Err(e),
            Ok((xs, rest)) => match C::spec_read_item(rest, version) {
                Err(e) => Err(e),
                Ok((x, rest2)) => Ok((xs.push(x), rest2)),
            },
        }
    }
}

/// The items of `xs` written one after the other, stopping at the first
/// failure.
pub open spec fn write_each<C: Codec>(xs: Seq<<C::Item as View>::V>, version: i16) -> WriteOutcome
    decreases xs.len(),
{
    if xs.len() == 0 {
        emit(Seq::empty())
    } else {
        chain(write_each::<C>(xs.drop_last(), version), C::spec_write_item(xs.last(), version))
    }
}

/// The count that a length prefix gives: a negative length gives none.
pub open spec fn item_count(n: i32) -> nat {
    if n < 0 {
        0
    } else {
        n as nat
    }
}

pub open spec fn spec_read_length(s: Seq<u8>, compact: bool) -> ReadOutcome<i32> {
    if compact {
        spec_read_compact_array_length(s)
    } else {
        spec_read_array_length(s)
    }
}

pub open spec fn length_bytes(n: i32, compact: bool) -> Seq<u8> {
    if compact {
        compact_array_length_bytes(n)
    } else {
        array_length_bytes(n)
    }
}

/// An array: its length, then its items. A negative length reads as no items.
pub open spec fn spec_read_array<C: Codec>(s: Seq<u8>, version: i16, compact: bool) -> ReadOutcome<
    Seq<<C::Item as View>::V>,
> {
    match spec_read_length(s, compact) {
        Err(e) => Err(e),
        Ok((n, rest)) => read_each::<C>(rest, item_count(n), version),
    }
}

/// An array that may be null: a negative length reads as null.
pub open spec fn spec_read_nullable_array<C: Codec>(s: Seq<u8>, version: i16, compact: bool) -> ReadOutcome<
    Option<Seq<<C::Item as View>::V>>,
> {
    match spec_read_length(s, compact) {
        Err(e) => Err(e),
        Ok((n, rest)) => if n < 0 {
            Ok((None, rest))
        } else {
            match read_each::<C>(rest, n as nat, version) {
                Err(e) => Err(e),
                Ok((xs, rest2)) => Ok((Some(xs), rest2)),
            }
        },
    }
}

pub open spec fn spec_write_array<C: Codec>(xs: Seq<<C::Item as View>::V>, version: i16, compact: bool) -> WriteOutcome {
    if xs.len() > i32::MAX {
        fail(Error::ValueTooLong)
    } else {
        chain(emit(length_bytes(xs.len() as i32, compact)), write_each::<C>(xs, version))
    }
}

/// An array that may be null; a null array is written with the length
/// `null_len` (`-1`, or `0` where a version has no null).
pub open spec fn spec_write_nullable_array<C: Codec>(
    o: Option<Seq<<C::Item as View>::V>>,
    version: i16,
    compact: bool,
    null_len: i32,
) -> WriteOutcome {
    match o {
        Some(xs) => spec_write_array::<C>(xs, version, compact),
        None => emit(length_bytes(null_len, compact)),
    }
}

pub open spec fn opt_views<T: View>(o: Option<Vec<T>>) -> Option<Seq<T::V>> {
    match o {
        Some(v) => Some(views(v@)),
        None => None,
    }
}

pub open spec fn opt_ref_views<T: View>(o: Option<&Vec<T>>) -> Option<Seq<T::V>> {
    match o {
        Some(v) => Some(views(v@)),
        None => None,
    }
}

/// `a + b`, or `usize::MAX` if the sum is larger.
pub fn saturating_sum(a: usize, b: usize) -> (r: usize)
    ensures
        r == saturate(a + b),
{
    if a > usize::MAX - b {
        usize::MAX
    } else {
        a + b
    }
}

pub proof fn lemma_read_each_err<C: Codec>(s: Seq<u8>, m: nat, m2: nat, version: i16)
    requires
        m <= m2,
        read_each::<C>(s, m, version) is Err,
    ensures
        read_each::<C>(s, m2, version) == read_each::<C>(s, m, version),
    decreases m2,
{
    if m2 > m {
        lemma_read_each_err::<C>(s, m, (m2 - 1) as nat, version);
    }
}

pub proof fn lemma_write_each_take<C: Codec>(xs: Seq<<C::Item as View>::V>, i: int, version: i16)
    requires
        0 <= i < xs.len(),
    ensures
        write_each::<C>(xs.take(i + 1), version) == chain(
            write_each::<C>(xs.take(i), version),
            C::spec_write_item(xs[i], version),
        ),
{
    assert(xs.take(i + 1).drop_last() =~= xs.take(i));
}

/// A longer run of writes appends at least as much, and once one fails the
/// rest change nothing.
pub proof fn lemma_write_each_grows<C: Codec>(xs: Seq<<C::Item as View>::V>, i: int, j: int, version: i16)
    requires
        0 <= i <= j <= xs.len(),
    ensures
        written(write_each::<C>(xs.take(i), version)).len() <= written(
            write_each::<C>(xs.take(j), version),
        ).len(),
        write_each::<C>(xs.take(i), version) is Err ==> write_each::<C>(xs.take(j), version)
            == write_each::<C>(xs.take(i), version),
    decreases j - i,
{
    if j > i {
        lemma_write_each_grows::<C>(xs, i, j - 1, version);
        lemma_write_each_take::<C>(xs, j - 1, version);
    }
}

/// Reads `n` items (none if `n` is negative).
pub fn read_items<C: Codec>(buf: &mut Bytes, n: u32, version: i16) -> (r: Result<Vec<C::Item>, Error>)
    ensures
        read_vec_as(read_each::<C>(bytes_seq(*old(buf)), n as nat, version), *final(buf), r),
        took_front(*old(buf), *final(buf)),
{
    let ghost s = bytes_seq(*buf);
    let mut out: Vec<C::Item> = Vec::new();
    let mut i: u32 = 0;
    assert(views(out@) =~= Seq::<<C::Item as View>::V>::empty());
    while i < n
        invariant
            0 <= i <= n,
            s == bytes_seq(*old(buf)),
            took_front(*old(buf), *buf),
            read_each::<C>(s, i as nat, version) == Ok::<
                (Seq<<C::Item as View>::V>, Seq<u8>),
                Error,
            >((views(out@), bytes_seq(*buf))),
        decreases n - i,
    {
        let ghost before = bytes_seq(*buf);
        let x = match C::read_item(buf, version) {
            Ok(x) => x,
            Err(e) => {
                proof {
                    assert(read_each::<C>(s, (i + 1) as nat, version) is Err);
                    lemma_read_each_err::<C>(s, (i + 1) as nat, n as nat, version);
                }
                return Err(e);
            },
        };
        let ghost xs = out@;
        out.push(x);
        assert(views(out@) =~= views(xs).push(x@));
        i = i + 1;
    }
    Ok(out)
}

/// Writes the items of `items` one after the other.
pub fn write_items<C: Codec>(buf: &mut BytesMut, items: &Vec<C::Item>, version: i16) -> (r: Result<(), Error>)
    requires
        has_room(write_each::<C>(views(items@), version), *old(buf)),
    ensures
        wrote(write_each::<C>(views(items@), version), *old(buf), *final(buf), r),
{
    let ghost xs = views(items@);
    let mut i: usize = 0;
    assert(xs.take(0) =~= Seq::<<C::Item as View>::V>::empty());
    assert(bytes_mut_seq(*buf) =~= bytes_mut_seq(*old(buf)) + Seq::<u8>::empty());
    while i < items.len()
        invariant
            0 <= i <= items.len(),
            xs == views(items@),
            has_room(write_each::<C>(xs, version), *old(buf)),
            write_each::<C>(xs.take(i as int), version) matches Ok(p) && bytes_mut_seq(*buf)
                == bytes_mut_seq(*old(buf)) + p,
        decreases items.len() - i,
    {
        let ghost before = bytes_mut_seq(*buf);
        proof {
            lemma_write_each_take::<C>(xs, i as int, version);
            lemma_write_each_grows::<C>(xs, i + 1, xs.len() as int, version);
            assert(xs.take(xs.len() as int) =~= xs);
            assert(items[i as int]@ == xs[i as int]);
        }
        let res = C::write_item(&items[i], buf, version);
        proof {
            assert(bytes_mut_seq(*buf) =~= bytes_mut_seq(*old(buf)) + written(
                write_each::<C>(xs.take(i + 1), version),
            ));
        }
        match res {
            Ok(()) => {},
            Err(e) => {
                return Err(e);
            },
        }
        i = i + 1;
    }
    proof {
        assert(xs.take(xs.len() as int) =~= xs);
    }
    Ok(())
}

/// The encoded length of the items of `items`.
pub fn items_len<C: MeasuredCodec>(items: &Vec<C::Item>, version: i16) -> (r: Result<usize, Error>)
    ensures
        r == len_result(write_each::<C>(views(items@), version)),
{
    let ghost xs = views(items@);
    let mut i: usize = 0;
    let mut total: usize = 0;
    assert(xs.take(0) =~= Seq::<<C::Item as View>::V>::empty());
    while i < items.len()
        invariant
            0 <= i <= items.len(),
            xs == views(items@),
            write_each::<C>(xs.take(i as int), version) matches Ok(p) && total == saturate(
                p.len() as int,
            ),
        decreases items.len() - i,
    {
        proof {
            lemma_write_each_take::<C>(xs, i as int, version);
            assert(items[i as int]@ == xs[i as int]);
        }
        let n = match C::item_len(&items[i], version) {
            Ok(n) => n,
            Err(e) => {
                proof {
                    lemma_write_each_grows::<C>(xs, i + 1, xs.len() as int, version);
                    assert(xs.take(xs.len() as int) =~= xs);
                }
                return Err(e);
            },
        };
        proof {
            let p = written(write_each::<C>(xs.take(i as int), version));
            let q = written(C::spec_write_item(xs[i as int], version));
            lemma_saturate_add(p.len() as int, q.len() as int);
        }
        total = saturating_sum(total, n);
        i = i + 1;
    }
    proof {
        assert(xs.take(xs.len() as int) =~= xs);
    }
    Ok(total)
}

fn read_length(buf: &mut Bytes, compact: bool) -> (r: Result<i32, Error>)
    ensures
        read_as(spec_read_length(bytes_seq(*old(buf)), compact), *final(buf), r),
        took_front(*old(buf), *final(buf)),
{
    if compact {
        read_compact_array_length(buf)
    } else {
        read_array_length(buf)
    }
}

fn write_length(buf: &mut BytesMut, n: i32, compact: bool)
    requires
        n >= -1,
        bytes_mut_seq(*old(buf)).len() + length_bytes(n, compact).len() <= isize::MAX,
    ensures
        bytes_mut_seq(*final(buf)) == bytes_mut_seq(*old(buf)) + length_bytes(n, compact),
{
    if compact {
        write_compact_array_length(buf, n);
    } else {
        write_array_length(buf, n);
    }
}

fn length_len(n: i32, compact: bool) -> (r: usize)
    requires
        n >= -1,
    ensures
        r == length_bytes(n, compact).len(),
        r <= 5,
{
    if compact {
        compact_array_length_len(n)
    } else {
        4
    }
}

/// Reads an array of items.
pub fn read_array<C: Codec>(buf: &mut Bytes, version: i16, compact: bool) -> (r: Result<Vec<C::Item>, Error>)
    ensures
        read_vec_as(spec_read_array::<C>(bytes_seq(*old(buf)), version, compact), *final(buf), r),
        took_front(*old(buf), *final(buf)),
{
    let n = read_length(buf, compact)?;
    read_items::<C>(buf, if n < 0 { 0 } else { n as u32 }, version)
}

/// Reads an array of items that may be null.
pub fn read_nullable_array<C: Codec>(buf: &mut Bytes, version: i16, compact: bool) -> (r: Result<
    Option<Vec<C::Item>>,
    Error,
>)
    ensures
        read_opt_vec_as(
            spec_read_nullable_array::<C>(bytes_seq(*old(buf)), version, compact),
            *final(buf),
            r,
        ),
        took_front(*old(buf), *final(buf)),
{
    let n = read_length(buf, compact)?;
    if n < 0 {
        return Ok(None);
    }
    let items = read_items::<C>(buf, n as u32, version)?;
    Ok(Some(items))
}

/// Writes an array of items.
pub fn write_array<C: Codec>(buf: &mut BytesMut, items: &Vec<C::Item>, version: i16, compact: bool) -> (r: Result<(), Error>)
    requires
        has_room(spec_write_array::<C>(views(items@), version, compact), *old(buf)),
    ensures
        wrote(spec_write_array::<C>(views(items@), version, compact), *old(buf), *final(buf), r),
{
    if items.len() > 0x7fff_ffff {
        return Err(Error::ValueTooLong);
    }
    let ghost mid = bytes_mut_seq(*buf);
    write_length(buf, items.len() as i32, compact);
    let ghost after_len = bytes_mut_seq(*buf);
    let r = write_items::<C>(buf, items, version);
    assert(bytes_mut_seq(*buf) =~= bytes_mut_seq(*old(buf)) + written(
        spec_write_array::<C>(views(items@), version, compact),
    ));
    r
}

/// Writes an array of items that may be null.
pub fn write_nullable_array<C: Codec>(
    buf: &mut BytesMut,
    items: &Option<Vec<C::Item>>,
    version: i16,
    compact: bool,
    null_len: i32,
) -> (r: Result<(), Error>)
    requires
        null_len >= -1,
        has_room(spec_write_nullable_array::<C>(opt_views(*items), version, compact, null_len), *old(buf)),
    ensures
        wrote(
            spec_write_nullable_array::<C>(opt_views(*items), version, compact, null_len),
            *old(buf),
            *final(buf),
            r,
        ),
{
    match items {
        Some(items) => write_array::<C>(buf, items, version, compact),
        None => {
            write_length(buf, null_len, compact);
            Ok(())
        },
    }
}

/// The encoded length of an array of items.
pub fn array_len<C: MeasuredCodec>(items: &Vec<C::Item>, version: i16, compact: bool) -> (r: Result<
    usize,
    Error,
>)
    ensures
        r == len_result(spec_write_array::<C>(views(items@), version, compact)),
{
    if items.len() > 0x7fff_ffff {
        return Err(Error::ValueTooLong);
    }
    let k = length_len(items.len() as i32, compact);
    let n = items_len::<C>(items, version)?;
    proof {
        let q = written(write_each::<C>(views(items@), version));
        lemma_saturate_add(k as int, q.len() as int);
    }
    Ok(saturating_sum(k, n))
}

/// The encoded length of an array of items that may be null.
pub fn nullable_array_len<C: MeasuredCodec>(
    items: &Option<Vec<C::Item>>,
    version: i16,
    compact: bool,
    null_len: i32,
) -> (r: Result<usize, Error>)
    requires
        null_len >= -1,
    ensures
        r == len_result(spec_write_nullable_array::<C>(opt_views(*items), version, compact, null_len)),
{
    match items {
        Some(items) => array_len::<C>(items, version, compact),
        None => Ok(length_len(null_len, compact)),
    }
}

/// An optional item behind a one-byte marker: a negative marker reads as
/// none, any other as the item that follows.
pub open spec fn spec_read_marked<C: Codec>(s: Seq<u8>, version: i16) -> ReadOutcome<
    Option<<C::Item as View>::V>,
> {
    match spec_read_i8(s) {
        Err(e) => Err(e),
        Ok((marker, rest)) => if marker < 0 {
            Ok((None, rest))
        } else {
            match C::spec_read_item(rest, version) {
                Err(e) => Err(e),
                Ok((x, rest2)) => Ok((Some(x), rest2)),
            }
        },
    }
}

/// No item is written as the marker `-1`, an item as the marker `1` followed
/// by the item.
pub open spec fn spec_write_marked<C: Codec>(o: Option<<C::Item as View>::V>, version: i16) -> WriteOutcome {
    match o {
        None => spec_write_i8(-1i8),
        Some(x) => chain(spec_write_i8(1i8), C::spec_write_item(x, version)),
    }
}

pub fn read_marked<C: Codec>(buf: &mut Bytes, version: i16) -> (r: Result<Option<Box<C::Item>>, Error>)
    ensures
        read_opt_as(spec_read_marked::<C>(bytes_seq(*old(buf)), version), *final(buf), r),
        took_front(*old(buf), *final(buf)),
{
    let marker = read_i8(buf)?;
    if marker < 0 {
        return Ok(None);
    }
    let x = C::read_item(buf, version)?;
    Ok(Some(Box::new(x)))
}

pub fn write_marked<C: Codec>(buf: &mut BytesMut, item: &Option<Box<C::Item>>, version: i16) -> (r: Result<(), Error>)
    requires
        has_room(spec_write_marked::<C>(opt_view(*item), version), *old(buf)),
    ensures
        wrote(spec_write_marked::<C>(opt_view(*item), version), *old(buf), *final(buf), r),
{
    match item {
        None => {
            write_i8(buf, -1);
            Ok(())
        },
        Some(x) => {
            write_i8(buf, 1);
            let r = C::write_item(x, buf, version);
            assert(bytes_mut_seq(*buf) =~= bytes_mut_seq(*old(buf)) + written(
                spec_write_marked::<C>(opt_view(*item), version),
            ));
            r
        },
    }
}

/// Items that are 8-bit integers.
pub struct Int8Item;

/// Items that are 32-bit integers.
pub struct Int32Item;

/// Items that are 64-bit integers.
pub struct Int64Item;

/// Items that are strings with a classic length.
pub struct StringItem;

/// Items that are strings with a compact length.
pub struct CompactStringItem;

impl Codec for Int8Item {
    type Item = i8;

    open spec fn spec_read_item(s: Seq<u8>, version: i16) -> ReadOutcome<i8> {
        spec_read_i8(s)
    }

    open spec fn spec_write_item(v: i8, version: i16) -> WriteOutcome {
        spec_write_i8(v)
    }

    open spec fn writable_item(v: i8, version: i16) -> bool {
        true
    }

    proof fn lemma_item_writable(v: i8, version: i16) {
    }

    open spec fn canonical_item(v: i8, version: i16) -> bool {
        true
    }

    proof fn lemma_item_round_trip(v: i8, version: i16, rest: Seq<u8>) {
        lemma_i8_roundtrip(v, rest);
    }

    fn read_item(buf: &mut Bytes, version: i16) -> (r: Result<i8, Error>) {
        read_i8(buf)
    }

    fn write_item(item: &i8, buf: &mut BytesMut, version: i16) -> (r: Result<(), Error>) {
        write_i8(buf, *item);
        Ok(())
    }
}

impl MeasuredCodec for Int8Item {
    fn item_len(item: &i8, version: i16) -> (r: Result<usize, Error>) {
        Ok(1)
    }
}

impl Codec for Int32Item {
    type Item = i32;

    open spec fn spec_read_item(s: Seq<u8>, version: i16) -> ReadOutcome<i32> {
        spec_read_i32(s)
    }

    open spec fn spec_write_item(v: i32, version: i16) -> WriteOutcome {
        spec_write_i32(v)
    }

    open spec fn writable_item(v: i32, version: i16) -> bool {
        true
    }

    proof fn lemma_item_writable(v: i32, version: i16) {
    }

    open spec fn canonical_item(v: i32, version: i16) -> bool {
        true
    }

    proof fn lemma_item_round_trip(v: i32, version: i16, rest: Seq<u8>) {
        lemma_i32_roundtrip(v, rest);
    }

    fn read_item(buf: &mut Bytes, version: i16) -> (r: Result<i32, Error>) {
        read_i32(buf)
    }

    fn write_item(item: &i32, buf: &mut BytesMut, version: i16) -> (r: Result<(), Error>) {
        write_i32(buf, *item);
        Ok(())
    }
}

impl MeasuredCodec for Int32Item {
    fn item_len(item: &i32, version: i16) -> (r: Result<usize, Error>) {
        Ok(4)
    }
}

impl Codec for Int64Item {
    type Item = i64;

    open spec fn spec_read_item(s: Seq<u8>, version: i16) -> ReadOutcome<i64> {
        spec_read_i64(s)
    }

    open spec fn spec_write_item(v: i64, version: i16) -> WriteOutcome {
        spec_write_i64(v)
    }

    open spec fn writable_item(v: i64, version: i16) -> bool {
        true
    }

    proof fn lemma_item_writable(v: i64, version: i16) {
    }

    open spec fn canonical_item(v: i64, version: i16) -> bool {
        true
    }

    proof fn lemma_item_round_trip(v: i64, version: i16, rest: Seq<u8>) {
        lemma_i64_roundtrip(v, rest);
    }

    fn read_item(buf: &mut Bytes, version: i16) -> (r: Result<i64, Error>) {
        read_i64(buf)
    }

    fn write_item(item: &i64, buf: &mut BytesMut, version: i16) -> (r: Result<(), Error>) {
        write_i64(buf, *item);
        Ok(())
    }
}

impl MeasuredCodec for Int64Item {
    fn item_len(item: &i64, version: i16) -> (r: Result<usize, Error>) {
        Ok(8)
    }
}

impl Codec for StringItem {
    type Item = KafkaString;

    open spec fn spec_read_item(s: Seq<u8>, version: i16) -> ReadOutcome<Seq<u8>> {
        spec_read_string(s)
    }

    open spec fn spec_write_item(v: Seq<u8>, version: i16) -> WriteOutcome {
        spec_write_string(v)
    }

    open spec fn writable_item(v: Seq<u8>, version: i16) -> bool {
        v.len() <= 0x7fff
    }

    proof fn lemma_item_writable(v: Seq<u8>, version: i16) {
    }

    open spec fn canonical_item(v: Seq<u8>, version: i16) -> bool {
        true
    }

    proof fn lemma_item_round_trip(v: Seq<u8>, version: i16, rest: Seq<u8>) {
        lemma_string_round_trip(v, rest);
    }

    fn read_item(buf: &mut Bytes, version: i16) -> (r: Result<KafkaString, Error>) {
        read_string(buf)
    }

    fn write_item(item: &KafkaString, buf: &mut BytesMut, version: i16) -> (r: Result<(), Error>) {
        write_string(buf, item)
    }
}

impl MeasuredCodec for StringItem {
    fn item_len(item: &KafkaString, version: i16) -> (r: Result<usize, Error>) {
        string_len(item)
    }
}

impl Codec for CompactStringItem {
    type Item = KafkaString;

    open spec fn spec_read_item(s: Seq<u8>, version: i16) -> ReadOutcome<Seq<u8>> {
        spec_read_compact_string(s)
    }

    open spec fn spec_write_item(v: Seq<u8>, version: i16) -> WriteOutcome {
        spec_write_compact_string(v)
    }

    open spec fn writable_item(v: Seq<u8>, version: i16) -> bool {
        v.len() <= 0x7fff
    }

    proof fn lemma_item_writable(v: Seq<u8>, version: i16) {
    }

    open spec fn canonical_item(v: Seq<u8>, version: i16) -> bool {
        true
    }

    proof fn lemma_item_round_trip(v: Seq<u8>, version: i16, rest: Seq<u8>) {
        lemma_compact_string_round_trip(v, rest);
    }

    fn read_item(buf: &mut Bytes, version: i16) -> (r: Result<KafkaString, Error>) {
        read_compact_string(buf)
    }

    fn write_item(item: &KafkaString, buf: &mut BytesMut, version: i16) -> (r: Result<(), Error>) {
        write_compact_string(buf, item)
    }
}

impl MeasuredCodec for CompactStringItem {
    fn item_len(item: &KafkaString, version: i16) -> (r: Result<usize, Error>) {
        compact_string_len(item)
    }
}

/// Whether every item of `xs` is canonical.
pub open spec fn all_canonical<C: Codec>(xs: Seq<<C::Item as View>::V>, version: i16) -> bool {
    forall|i: int| 0 <= i < xs.len() ==> C::canonical_item(#[trigger] xs[i], version)
}

/// Reading back the items that `write_each` wrote gives them again, and
/// leaves what follows.
pub proof fn lemma_write_each_round_trip<C: Codec>(
    xs: Seq<<C::Item as View>::V>,
    version: i16,
    rest: Seq<u8>,
)
    requires
        all_canonical::<C>(xs, version),
        write_each::<C>(xs, version) is Ok,
    ensures
        read_each::<C>(written(write_each::<C>(xs, version)) + rest, xs.len(), version) == Ok::<
            (Seq<<C::Item as View>::V>, Seq<u8>),
            Error,
        >((xs, rest)),
    decreases xs.len(),
{
    if xs.len() == 0 {
        assert(Seq::<u8>::empty() + rest =~= rest);
        assert(xs =~= Seq::<<C::Item as View>::V>::empty());
    } else {
        let init = xs.drop_last();
        let a = written(write_each::<C>(init, version));
        let b = written(C::spec_write_item(xs.last(), version));
        assert(all_canonical::<C>(init, version)) by {
            assert forall|i: int| 0 <= i < init.len() implies C::canonical_item(
                #[trigger] init[i],
                version,
            ) by {
                assert(init[i] == xs[i]);
            }
        }
        assert(C::canonical_item(xs[xs.len() - 1], version));
        lemma_write_each_round_trip::<C>(init, version, b + rest);
        C::lemma_item_round_trip(xs.last(), version, rest);
        assert(written(write_each::<C>(xs, version)) + rest =~= a + (b + rest));
        assert(init.push(xs.last()) =~= xs);
    }
}

/// Reading back a length that was written gives it, and leaves what follows.
pub proof fn lemma_length_round_trip(n: i32, compact: bool, rest: Seq<u8>)
    requires
        n >= -1,
    ensures
        spec_read_length(length_bytes(n, compact) + rest, compact) == Ok::<(i32, Seq<u8>), Error>(
            (n, rest),
        ),
{
    if compact {
        lemma_compact_array_length_round_trip(n, rest);
    } else {
        lemma_array_length_round_trip(n, rest);
    }
}

/// Reading back an array that was written gives it again, and leaves what
/// follows.
pub proof fn lemma_array_round_trip<C: Codec>(
    xs: Seq<<C::Item as View>::V>,
    version: i16,
    compact: bool,
    rest: Seq<u8>,
)
    requires
        all_canonical::<C>(xs, version),
        spec_write_array::<C>(xs, version, compact) is Ok,
    ensures
        spec_read_array::<C>(written(spec_write_array::<C>(xs, version, compact)) + rest, version, compact)
            == Ok::<(Seq<<C::Item as View>::V>, Seq<u8>), Error>((xs, rest)),
{
    let n = xs.len() as i32;
    let body = written(write_each::<C>(xs, version));
    lemma_write_each_round_trip::<C>(xs, version, rest);
    lemma_length_round_trip(n, compact, body + rest);
    assert(written(spec_write_array::<C>(xs, version, compact)) + rest =~= length_bytes(n, compact) + (
    body + rest));
}

/// Reading back an array that may be null, written with `-1` for null,
/// gives it again, and leaves what follows; so does one that is not null,
/// whatever the length for null.
pub proof fn lemma_nullable_array_round_trip<C: Codec>(
    o: Option<Seq<<C::Item as View>::V>>,
    version: i16,
    compact: bool,
    null_len: i32,
    rest: Seq<u8>,
)
    requires
        o is None ==> null_len == -1,
        o matches Some(xs) ==> all_canonical::<C>(xs, version),
        spec_write_nullable_array::<C>(o, version, compact, null_len) is Ok,
    ensures
        spec_read_nullable_array::<C>(
            written(spec_write_nullable_array::<C>(o, version, compact, null_len)) + rest,
            version,
            compact,
        ) == Ok::<(Option<Seq<<C::Item as View>::V>>, Seq<u8>), Error>((o, rest)),
{
    match o {
        Some(xs) => {
            let n = xs.len() as i32;
            let body = written(write_each::<C>(xs, version));
            lemma_write_each_round_trip::<C>(xs, version, rest);
            lemma_length_round_trip(n, compact, body + rest);
            assert(written(spec_write_array::<C>(xs, version, compact)) + rest =~= length_bytes(
                n,
                compact,
            ) + (body + rest));
        },
        None => {
            lemma_length_round_trip(-1i32, compact, rest);
        },
    }
}

/// Reading back an optional item behind its marker gives it again, and
/// leaves what follows.
pub proof fn lemma_marked_round_trip<C: Codec>(
    o: Option<<C::Item as View>::V>,
    version: i16,
    rest: Seq<u8>,
)
    requires
        o matches Some(x) ==> C::canonical_item(x, version),
        spec_write_marked::<C>(o, version) is Ok,
    ensures
        spec_read_marked::<C>(written(spec_write_marked::<C>(o, version)) + rest, version) == Ok::<
            (Option<<C::Item as View>::V>, Seq<u8>),
            Error,
        >((o, rest)),
{
    match o {
        Some(x) => {
            let b = written(C::spec_write_item(x, version));
            C::lemma_item_round_trip(x, version, rest);
            lemma_i8_roundtrip(1i8, b + rest);
            assert(written(spec_write_marked::<C>(o, version)) + rest =~= seq![1i8 as u8] + (b
                + rest));
        },
        None => {
            lemma_i8_roundtrip(-1i8, rest);
        },
    }
}

/// Whether every item of `xs` is writable.
pub open spec fn all_writable<C: Codec>(xs: Seq<<C::Item as View>::V>, version: i16) -> bool {
    forall|i: int| 0 <= i < xs.len() ==> C::writable_item(#[trigger] xs[i], version)
}

/// Writing items one after the other succeeds exactly when every one of
/// them is writable.
pub proof fn lemma_write_each_ok<C: Codec>(xs: Seq<<C::Item as View>::V>, version: i16)
    ensures
        write_each::<C>(xs, version) is Ok <==> all_writable::<C>(xs, version),
    decreases xs.len(),
{
    if xs.len() > 0 {
        let init = xs.drop_last();
        lemma_write_each_ok::<C>(init, version);
        C::lemma_item_writable(xs.last(), version);
        if all_writable::<C>(xs, version) {
            assert(C::writable_item(xs[xs.len() - 1], version));
            assert forall|i: int| 0 <= i < init.len() implies C::writable_item(#[trigger] init[i], version) by {
                assert(init[i] == xs[i]);
            }
        }
        if all_writable::<C>(init, version) && C::writable_item(xs.last(), version) {
            assert forall|i: int| 0 <= i < xs.len() implies C::writable_item(#[trigger] xs[i], version) by {
                if i < xs.len() - 1 {
                    assert(init[i] == xs[i]);
                }
            }
        }
    }
}

/// Writing an array succeeds exactly when its length fits an `i32` and its
/// items are writable.
pub proof fn lemma_array_writable<C: Codec>(xs: Seq<<C::Item as View>::V>, version: i16, compact: bool)
    ensures
        spec_write_array::<C>(xs, version, compact) is Ok <==> (xs.len() <= i32::MAX
            && all_writable::<C>(xs, version)),
{
    lemma_write_each_ok::<C>(xs, version);
}

/// Writing an array that may be null succeeds exactly when a present array
/// is writable.
pub proof fn lemma_nullable_array_writable<C: Codec>(
    o: Option<Seq<<C::Item as View>::V>>,
    version: i16,
    compact: bool,
    null_len: i32,
)
    ensures
        spec_write_nullable_array::<C>(o, version, compact, null_len) is Ok <==> (o matches Some(xs)
            ==> xs.len() <= i32::MAX && all_writable::<C>(xs, version)),
{
    if let Some(xs) = o {
        lemma_array_writable::<C>(xs, version, compact);
    }
}

/// Writing an optional item behind its marker succeeds exactly when a
/// present item is writable.
pub proof fn lemma_marked_writable<C: Codec>(o: Option<<C::Item as View>::V>, version: i16)
    ensures
        spec_write_marked::<C>(o, version) is Ok <==> (o matches Some(x) ==> C::writable_item(
            x,
            version,
        )),
{
    if let Some(x) = o {
        C::lemma_item_writable(x, version);
    }
}

} // verus!
