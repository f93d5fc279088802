//! Tagged fields: a count, then for each field its tag, its size and its
//! payload, all counts and sizes as unsigned varints.
use crate::buffer::{bytes_mut_put_bytes, bytes_mut_seq, bytes_remaining, bytes_seq};
use crate::codec::{
    all_canonical, all_writable, items_len, lemma_write_each_ok, lemma_write_each_round_trip, read_each, read_items, saturating_sum,
    write_each, write_items, Codec, MeasuredCodec,
};
use crate::error::Error;
use crate::strings::{spec_read_compact_nullable_sized, take_bytes};
use crate::types::RawTaggedField;
use crate::varint::{
    lemma_uvarint_roundtrip, read_unsigned_varint, spec_read_uvarint, unsigned_varint_len,
    uvarint_bytes, write_unsigned_varint,
};
use crate::wire::{lemma_saturate_add, saturate, 
    chain, emit, fail, has_room, len_result, read_as, read_vec_as, views, written, wrote,
    ReadOutcome, WriteOutcome,
};
use crate::buffer::bytes_split_to;
use bytes::{Bytes, BytesMut};
use crate::wire::{lemma_took_front_skip, took_front};
use vstd::prelude::*;

verus! {

broadcast use {crate::wire::lemma_took_front_nothing, crate::wire::lemma_took_front_twice};

/// Tagged fields as items of the list that ends a flexible message.
pub struct TaggedFieldItem;

pub open spec fn spec_read_tagged_field(s: Seq<u8>) -> ReadOutcome<(u32, Seq<u8>)> {
    match spec_read_uvarint(s) {
        Err(e) => Err(e),
        Ok((tag, rest)) => match spec_read_uvarint(rest) {
            Err(e) => Err(e),
            Ok((size, rest2)) => match take_bytes(rest2, size as int) {
                Err(e) => Err(e),
                Ok((data, rest3)) => Ok(((tag, data), rest3)),
            },
        },
    }
}

pub open spec fn spec_write_tagged_field(f: (u32, Seq<u8>)) -> WriteOutcome {
    if f.1.len() > u32::MAX {
        fail(Error::ValueTooLong)
    } else {
        emit(uvarint_bytes(f.0) + uvarint_bytes(f.1.len() as u32) + f.1)
    }
}

impl Codec for TaggedFieldItem {
    type Item = RawTaggedField;

    open spec fn spec_read_item(s: Seq<u8>, version: i16) -> ReadOutcome<(u32, Seq<u8>)> {
        spec_read_tagged_field(s)
    }

    open spec fn spec_write_item(v: (u32, Seq<u8>), version: i16) -> WriteOutcome {
        spec_write_tagged_field(v)
    }

    open spec fn writable_item(v: (u32, Seq<u8>), version: i16) -> bool {
        v.1.len() <= u32::MAX
    }

    proof fn lemma_item_writable(v: (u32, Seq<u8>), version: i16) {
    }

    open spec fn canonical_item(v: (u32, Seq<u8>), version: i16) -> bool {
        true
    }

    proof fn lemma_item_round_trip(v: (u32, Seq<u8>), version: i16, rest: Seq<u8>) {
        let d = v.1;
        let n = d.len() as u32;
        assert((d + rest).take(d.len() as int) =~= d);
        assert((d + rest).skip(d.len() as int) =~= rest);
        lemma_uvarint_roundtrip(n, d + rest);
        lemma_uvarint_roundtrip(v.0, uvarint_bytes(n) + (d + rest));
        assert(written(spec_write_tagged_field(v)) + rest =~= uvarint_bytes(v.0) + (uvarint_bytes(n)
            + (d + rest)));
    }

    fn read_item(buf: &mut Bytes, version: i16) -> (r: Result<RawTaggedField, Error>) {
        let tag = read_unsigned_varint(buf)?;
        let size = read_unsigned_varint(buf)?;
        if bytes_remaining(buf) < size as usize {
            return Err(Error::UnexpectedEof);
        }
        let ghost mid = *buf;
        let data = bytes_split_to(buf, size as usize);
        proof {
            lemma_took_front_skip(mid, *buf, size as int);
        }
        Ok(RawTaggedField { tag, data })
    }

    fn write_item(item: &RawTaggedField, buf: &mut BytesMut, version: i16) -> (r: Result<(), Error>) {
        let size = bytes_remaining(&item.data);
        if size > 0xffff_ffff {
            return Err(Error::ValueTooLong);
        }
        write_unsigned_varint(buf, item.tag);
        write_unsigned_varint(buf, size as u32);
        bytes_mut_put_bytes(buf, &item.data);
        assert(bytes_mut_seq(*buf) =~= bytes_mut_seq(*old(buf)) + (uvarint_bytes(item.tag)
            + uvarint_bytes(size as u32) + bytes_seq(item.data)));
        Ok(())
    }
}

impl MeasuredCodec for TaggedFieldItem {
    fn item_len(item: &RawTaggedField, version: i16) -> (r: Result<usize, Error>) {
        let size = bytes_remaining(&item.data);
        if size > 0xffff_ffff {
            return Err(Error::ValueTooLong);
        }
        let head = unsigned_varint_len(item.tag) + unsigned_varint_len(size as u32);
        Ok(saturating_sum(head, size))
    }
}

pub open spec fn spec_read_tagged_fields(s: Seq<u8>) -> ReadOutcome<Seq<(u32, Seq<u8>)>> {
    match spec_read_uvarint(s) {
        Err(e) => Err(e),
        Ok((n, rest)) => read_each::<TaggedFieldItem>(rest, n as nat, 0),
    }
}

pub open spec fn spec_write_tagged_fields(fs: Seq<(u32, Seq<u8>)>) -> WriteOutcome {
    if fs.len() > u32::MAX {
        fail(Error::ValueTooLong)
    } else {
        chain(emit(uvarint_bytes(fs.len() as u32)), write_each::<TaggedFieldItem>(fs, 0))
    }
}

pub fn read_tagged_fields(buf: &mut Bytes) -> (r: Result<Vec<RawTaggedField>, Error>)
    ensures
        read_vec_as(spec_read_tagged_fields(bytes_seq(*old(buf))), *final(buf), r),
        took_front(*old(buf), *final(buf)),
{
    let n = read_unsigned_varint(buf)?;
    read_items::<TaggedFieldItem>(buf, n, 0)
}

pub fn write_tagged_fields(buf: &mut BytesMut, fields: &Vec<RawTaggedField>) -> (r: Result<(), Error>)
    requires
        has_room(spec_write_tagged_fields(views(fields@)), *old(buf)),
    ensures
        wrote(spec_write_tagged_fields(views(fields@)), *old(buf), *final(buf), r),
{
    if fields.len() > 0xffff_ffff {
        return Err(Error::ValueTooLong);
    }
    write_unsigned_varint(buf, fields.len() as u32);
    let r = write_items::<TaggedFieldItem>(buf, fields, 0);
    assert(bytes_mut_seq(*buf) =~= bytes_mut_seq(*old(buf)) + written(
        spec_write_tagged_fields(views(fields@)),
    ));
    r
}

pub fn tagged_fields_len(fields: &Vec<RawTaggedField>) -> (r: Result<usize, Error>)
    ensures
        r == len_result(spec_write_tagged_fields(views(fields@))),
{
    if fields.len() > 0xffff_ffff {
        return Err(Error::ValueTooLong);
    }
    let k = unsigned_varint_len(fields.len() as u32);
    let n = items_len::<TaggedFieldItem>(fields, 0)?;
    proof {
        let q = written(write_each::<TaggedFieldItem>(views(fields@), 0));
        lemma_saturate_add(k as int, q.len() as int);
    }
    Ok(saturating_sum(k, n))
}

/// Where a field with tag `tag` goes among the fields of `s`: after every
/// field whose tag is not greater.
pub open spec fn insert_pos(s: Seq<(u32, Seq<u8>)>, tag: u32) -> int
    decreases s.len(),
{
    if s.len() == 0 {
        0
    } else if s.last().0 <= tag {
        s.len() as int
    } else {
        insert_pos(s.drop_last(), tag)
    }
}

/// The fields of `s` in order of their tags; fields with equal tags keep
/// their order.
pub open spec fn sorted_by_tag(s: Seq<(u32, Seq<u8>)>) -> Seq<(u32, Seq<u8>)>
    decreases s.len(),
{
    if s.len() == 0 {
        s
    } else {
        let t = sorted_by_tag(s.drop_last());
        t.insert(insert_pos(t, s.last().0), s.last())
    }
}

pub proof fn lemma_insert_pos_bounds(s: Seq<(u32, Seq<u8>)>, tag: u32)
    ensures
        0 <= insert_pos(s, tag) <= s.len(),
    decreases s.len(),
{
    if s.len() > 0 {
        lemma_insert_pos_bounds(s.drop_last(), tag);
    }
}

pub proof fn lemma_sorted_by_tag_len(s: Seq<(u32, Seq<u8>)>)
    ensures
        sorted_by_tag(s).len() == s.len(),
    decreases s.len(),
{
    if s.len() > 0 {
        lemma_sorted_by_tag_len(s.drop_last());
        lemma_insert_pos_bounds(sorted_by_tag(s.drop_last()), s.last().0);
    }
}

/// A copy of `fields` in order of their tags, as `sorted_by_tag` orders them.
pub fn sort_by_tag(fields: &Vec<RawTaggedField>) -> (r: Vec<RawTaggedField>)
    ensures
        views(r@) == sorted_by_tag(views(fields@)),
{
    let ghost src = views(fields@);
    let mut out: Vec<RawTaggedField> = Vec::new();
    let mut i: usize = 0;
    assert(src.take(0) =~= Seq::<(u32, Seq<u8>)>::empty());
    assert(views(out@) =~= Seq::<(u32, Seq<u8>)>::empty());
    while i < fields.len()
        invariant
            0 <= i <= fields.len(),
            src == views(fields@),
            views(out@) == sorted_by_tag(src.take(i as int)),
        decreases fields.len() - i,
    {
        let x = fields[i].clone();
        let ghost t = views(out@);
        proof {
            lemma_sorted_by_tag_len(src.take(i as int));
            assert(src.take(i + 1).drop_last() =~= src.take(i as int));
            assert(src.take(i + 1).last() == x@);
            assert(t.take(out.len() as int) =~= t);
        }
        let mut p: usize = out.len();
        while p > 0 && out[p - 1].tag > x.tag
            invariant
                0 <= p <= out.len(),
                t == views(out@),
                insert_pos(t, x.tag) == insert_pos(t.take(p as int), x.tag),
            decreases p,
        {
            assert(t.take(p as int).drop_last() =~= t.take(p - 1));
            p = p - 1;
        }
        proof {
            if p > 0 {
                assert(t.take(p as int).last() == t[p - 1]);
            }
        }
        out.insert(p, x);
        assert(views(out@) =~= t.insert(p as int, x@));
        i = i + 1;
    }
    assert(src.take(fields.len() as int) =~= src);
    out
}

/// The tagged field with tag `tag` that a write `o` of its value gives; a
/// value longer than a buffer can hold is refused.
pub open spec fn tag_entry(tag: u32, o: WriteOutcome) -> Result<Seq<(u32, Seq<u8>)>, Error> {
    match o {
        Err((e, _)) => Err(e),
        Ok(b) => if b.len() > isize::MAX {
            Err(Error::ValueTooLong)
        } else {
            Ok(seq![(tag, b)])
        },
    }
}

/// The fields of `a` followed by copies of those of `b`.
pub fn append_fields(a: Vec<RawTaggedField>, b: &Vec<RawTaggedField>) -> (r: Vec<RawTaggedField>)
    ensures
        views(r@) == views(a@) + views(b@),
{
    let ghost av = views(a@);
    let ghost bv = views(b@);
    let mut r = a;
    let mut i: usize = 0;
    assert(av + bv.take(0) =~= av);
    while i < b.len()
        invariant
            0 <= i <= b.len(),
            bv == views(b@),
            views(r@) == av + bv.take(i as int),
        decreases b.len() - i,
    {
        let ghost before = views(r@);
        r.push(b[i].clone());
        proof {
            assert(views(r@) =~= before.push(bv[i as int]));
            assert(av + bv.take(i + 1) =~= (av + bv.take(i as int)).push(bv[i as int]));
        }
        i = i + 1;
    }
    assert(bv.take(b.len() as int) =~= bv);
    r
}

/// Whether the tags of `s` never decrease.
pub open spec fn tags_in_order(s: Seq<(u32, Seq<u8>)>) -> bool {
    forall|i: int, j: int| 0 <= i < j < s.len() ==> s[i].0 <= s[j].0
}

/// Putting fields whose tags are already in order in order of their tags
/// leaves them as they are.
pub proof fn lemma_sorted_by_tag_in_order(s: Seq<(u32, Seq<u8>)>)
    requires
        tags_in_order(s),
    ensures
        sorted_by_tag(s) == s,
    decreases s.len(),
{
    if s.len() > 0 {
        let init = s.drop_last();
        assert(tags_in_order(init)) by {
            assert forall|i: int, j: int| 0 <= i < j < init.len() implies init[i].0 <= init[j].0 by {
                assert(init[i] == s[i] && init[j] == s[j]);
            }
        }
        lemma_sorted_by_tag_in_order(init);
        if init.len() > 0 {
            assert(init.last() == s[s.len() - 2]);
            assert(s[s.len() - 2].0 <= s[s.len() - 1].0);
        }
        assert(init.insert(init.len() as int, s.last()) =~= s);
    }
}

/// Reading back the tagged fields that were written gives them again, and
/// leaves what follows.
pub proof fn lemma_tagged_fields_round_trip(fs: Seq<(u32, Seq<u8>)>, rest: Seq<u8>)
    requires
        spec_write_tagged_fields(fs) is Ok,
    ensures
        spec_read_tagged_fields(written(spec_write_tagged_fields(fs)) + rest) == Ok::<
            (Seq<(u32, Seq<u8>)>, Seq<u8>),
            Error,
        >((fs, rest)),
{
    let body = written(write_each::<TaggedFieldItem>(fs, 0));
    assert(all_canonical::<TaggedFieldItem>(fs, 0));
    lemma_write_each_round_trip::<TaggedFieldItem>(fs, 0, rest);
    lemma_uvarint_roundtrip(fs.len() as u32, body + rest);
    assert(written(spec_write_tagged_fields(fs)) + rest =~= uvarint_bytes(fs.len() as u32) + (body
        + rest));
}

/// Dropping the last field keeps tags in order.
pub proof fn lemma_tags_in_order_drop_last(s: Seq<(u32, Seq<u8>)>)
    requires
        tags_in_order(s),
        s.len() > 0,
    ensures
        tags_in_order(s.drop_last()),
{
    let init = s.drop_last();
    assert forall|i: int, j: int| 0 <= i < j < init.len() implies init[i].0 <= init[j].0 by {
        assert(init[i] == s[i] && init[j] == s[j]);
    }
}

/// Every field after the place where a field with tag `tag` goes has a
/// greater tag.
pub proof fn lemma_insert_pos_after(s: Seq<(u32, Seq<u8>)>, tag: u32)
    ensures
        forall|i: int| insert_pos(s, tag) <= i < s.len() ==> #[trigger] s[i].0 > tag,
    decreases s.len(),
{
    if s.len() > 0 && s.last().0 > tag {
        let init = s.drop_last();
        lemma_insert_pos_after(init, tag);
        lemma_insert_pos_bounds(init, tag);
        assert forall|i: int| insert_pos(s, tag) <= i < s.len() implies #[trigger] s[i].0 > tag by {
            if i < s.len() - 1 {
                assert(init[i] == s[i]);
            }
        }
    }
}

/// Every field that `sorted_by_tag` gives is one of the fields it was given.
pub proof fn lemma_sorted_by_tag_members(s: Seq<(u32, Seq<u8>)>)
    ensures
        forall|i: int| 0 <= i < sorted_by_tag(s).len() ==> s.contains(#[trigger] sorted_by_tag(s)[i]),
    decreases s.len(),
{
    if s.len() > 0 {
        let init = s.drop_last();
        let t = sorted_by_tag(init);
        let p = insert_pos(t, s.last().0);
        lemma_sorted_by_tag_members(init);
        lemma_sorted_by_tag_len(init);
        lemma_insert_pos_bounds(t, s.last().0);
        assert forall|i: int| 0 <= i < sorted_by_tag(s).len() implies s.contains(
            #[trigger] sorted_by_tag(s)[i],
        ) by {
            if i == p {
                assert(s[s.len() - 1] == sorted_by_tag(s)[i]);
            } else {
                let k = if i < p { i } else { i - 1 };
                assert(sorted_by_tag(s)[i] == t[k]);
                assert(init.contains(t[k]));
                let j = choose|j: int| 0 <= j < init.len() && init[j] == t[k];
                assert(s[j] == t[k]);
            }
        }
    }
}

/// Whether the payload of every field of `s` fits the size that a tagged
/// field can give.
pub open spec fn tags_fit(s: Seq<(u32, Seq<u8>)>) -> bool {
    forall|i: int| 0 <= i < s.len() ==> #[trigger] s[i].1.len() <= u32::MAX
}

/// The payloads of two runs of fields fit exactly when those of each do.
pub proof fn lemma_tags_fit_concat(a: Seq<(u32, Seq<u8>)>, b: Seq<(u32, Seq<u8>)>)
    ensures
        tags_fit(a + b) <==> tags_fit(a) && tags_fit(b),
{
    if tags_fit(a + b) {
        assert forall|i: int| 0 <= i < a.len() implies #[trigger] a[i].1.len() <= u32::MAX by {
            assert((a + b)[i] == a[i]);
        }
        assert forall|i: int| 0 <= i < b.len() implies #[trigger] b[i].1.len() <= u32::MAX by {
            assert((a + b)[a.len() + i] == b[i]);
        }
    }
    if tags_fit(a) && tags_fit(b) {
        assert forall|i: int| 0 <= i < (a + b).len() implies #[trigger] (a + b)[i].1.len() <= u32::MAX by {
            if i < a.len() {
                assert((a + b)[i] == a[i]);
            } else {
                assert((a + b)[i] == b[i - a.len()]);
            }
        }
    }
}

/// Every field that `sorted_by_tag` is given is among those it gives.
pub proof fn lemma_sorted_by_tag_keeps(s: Seq<(u32, Seq<u8>)>)
    ensures
        forall|i: int| 0 <= i < s.len() ==> sorted_by_tag(s).contains(#[trigger] s[i]),
    decreases s.len(),
{
    if s.len() > 0 {
        let init = s.drop_last();
        let t = sorted_by_tag(init);
        let p = insert_pos(t, s.last().0);
        lemma_sorted_by_tag_keeps(init);
        lemma_sorted_by_tag_len(init);
        lemma_insert_pos_bounds(t, s.last().0);
        let u = sorted_by_tag(s);
        assert forall|i: int| 0 <= i < s.len() implies u.contains(#[trigger] s[i]) by {
            if i == s.len() - 1 {
                assert(u[p] == s[i]);
            } else {
                assert(init[i] == s[i]);
                assert(t.contains(init[i]));
                let j = choose|j: int| 0 <= j < t.len() && t[j] == init[i];
                if j < p {
                    assert(u[j] == s[i]);
                } else {
                    assert(u[j + 1] == s[i]);
                }
            }
        }
    }
}

/// Putting fields in order of their tags keeps whether their payloads fit.
pub proof fn lemma_sorted_tags_fit(s: Seq<(u32, Seq<u8>)>)
    ensures
        tags_fit(sorted_by_tag(s)) <==> tags_fit(s),
        sorted_by_tag(s).len() == s.len(),
{
    let u = sorted_by_tag(s);
    lemma_sorted_by_tag_len(s);
    lemma_sorted_by_tag_keeps(s);
    lemma_sorted_by_tag_members(s);
    if tags_fit(u) {
        assert forall|i: int| 0 <= i < s.len() implies #[trigger] s[i].1.len() <= u32::MAX by {
            assert(u.contains(s[i]));
            let j = choose|j: int| 0 <= j < u.len() && u[j] == s[i];
            assert(u[j].1.len() <= u32::MAX);
        }
    }
    if tags_fit(s) {
        assert forall|i: int| 0 <= i < u.len() implies #[trigger] u[i].1.len() <= u32::MAX by {
            assert(s.contains(u[i]));
            let j = choose|j: int| 0 <= j < s.len() && s[j] == u[i];
            assert(s[j].1.len() <= u32::MAX);
        }
    }
}

/// Writing tagged fields succeeds exactly when there are at most
/// `u32::MAX` of them and every payload fits.
pub proof fn lemma_tagged_fields_writable(fs: Seq<(u32, Seq<u8>)>)
    ensures
        spec_write_tagged_fields(fs) is Ok <==> fs.len() <= u32::MAX && tags_fit(fs),
{
    lemma_write_each_ok::<TaggedFieldItem>(fs, 0);
    if all_writable::<TaggedFieldItem>(fs, 0) {
        assert forall|i: int| 0 <= i < fs.len() implies #[trigger] fs[i].1.len() <= u32::MAX by {
            assert(TaggedFieldItem::writable_item(fs[i], 0));
        }
    }
    if tags_fit(fs) {
        assert forall|i: int| 0 <= i < fs.len() implies TaggedFieldItem::writable_item(
            #[trigger] fs[i],
            0,
        ) by {
            assert(fs[i].1.len() <= u32::MAX);
        }
    }
}

/// A single field fits exactly when its payload does; no fields always fit.
pub proof fn lemma_tags_fit_single(tag: u32, b: Seq<u8>)
    ensures
        tags_fit(seq![(tag, b)]) <==> b.len() <= u32::MAX,
        tags_fit(Seq::<(u32, Seq<u8>)>::empty()),
{
    let s = seq![(tag, b)];
    assert(s[0] == (tag, b));
    if tags_fit(s) {
        assert(s[0].1.len() <= u32::MAX);
    }
    if b.len() <= u32::MAX {
        assert forall|i: int| 0 <= i < s.len() implies #[trigger] s[i].1.len() <= u32::MAX by {
            assert(i == 0);
        }
    }
}

} // verus!
