//! The describe topic partitions request message.
use crate::buffer::{bytes_mut_seq, bytes_seq};
use crate::codec::{Codec, all_canonical, all_writable, lemma_array_round_trip, lemma_array_writable, lemma_marked_round_trip, lemma_marked_writable, read_array, read_marked, spec_read_array, spec_read_marked, spec_write_array, spec_write_marked, write_array, write_marked};
use crate::error::{Error, UnsupportedVersion};
use crate::ints::{lemma_i32_roundtrip, read_i32, spec_read_i32, spec_write_i32, u32_bytes, write_i32};
use crate::strings::{lemma_compact_string_round_trip, read_compact_string, spec_read_compact_string, spec_write_compact_string, write_compact_string};
use crate::tagged::{lemma_sorted_by_tag_in_order, lemma_sorted_tags_fit, lemma_tagged_fields_round_trip, lemma_tagged_fields_writable, read_tagged_fields, sort_by_tag, sorted_by_tag, spec_read_tagged_fields, spec_write_tagged_fields, tags_fit, tags_in_order, write_tagged_fields};
use crate::types::{KafkaString, RawTaggedField};
use crate::wire::{ReadOutcome, ViewClone, WriteOutcome, chain, clone_vec, empty_vec, fail, has_room, lemma_append_empty, lemma_chain_written, lemma_step, opt_view, read_as, read_opt_as, read_vec_as, took_front, views, written, wrote};
use bytes::{Bytes, BytesMut};
use vstd::prelude::*;

verus! {

broadcast use {crate::wire::lemma_chain_written, crate::wire::lemma_took_front_nothing, crate::wire::lemma_took_front_twice};

#[derive(Debug, PartialEq)]
pub struct DescribeTopicPartitionsRequestData {
    /// The topics to fetch details for.
    pub topics: Vec<TopicRequest>,
    /// The maximum number of partitions included in the response.
    pub response_partition_limit: i32,
    /// The first topic and partition index to fetch details for.
    pub cursor: Option<Box<Cursor>>,
    pub _unknown_tagged_fields: Vec<RawTaggedField>,
}

/// What a `DescribeTopicPartitionsRequestData` holds, as the specification sees it.
#[verifier::ext_equal]
pub struct DescribeTopicPartitionsRequestDataView {
    pub topics: Seq<TopicRequestView>,
    pub response_partition_limit: i32,
    pub cursor: Option<CursorView>,
    pub unknown_tagged_fields: Seq<(u32, Seq<u8>)>,
}

impl View for DescribeTopicPartitionsRequestData {
    type V = DescribeTopicPartitionsRequestDataView;

    open spec fn view(&self) -> DescribeTopicPartitionsRequestDataView {
        DescribeTopicPartitionsRequestDataView {
            topics: views(self.topics@),
            response_partition_limit: self.response_partition_limit,
            cursor: opt_view(self.cursor),
            unknown_tagged_fields: views(self._unknown_tagged_fields@),
        }
    }
}

impl Clone for DescribeTopicPartitionsRequestData {
    fn clone(&self) -> (r: Self)
        ensures
            r@ == self@,
    {
        let r = DescribeTopicPartitionsRequestData {
            topics: clone_vec(&self.topics),
            response_partition_limit: self.response_partition_limit,
            cursor: match &self.cursor {
                Some(x) => Some(Box::new((**x).clone())),
                None => None,
            },
            _unknown_tagged_fields: clone_vec(&self._unknown_tagged_fields),
        };
        assert(r@ =~= self@);
        r
    }
}

impl ViewClone for DescribeTopicPartitionsRequestData {
    fn clone_view(&self) -> (r: Self) {
        self.clone()
    }
}

impl Default for DescribeTopicPartitionsRequestData {
    fn default() -> (r: Self)
        ensures
            r@ == Self::default_view(),
    {
        let r = DescribeTopicPartitionsRequestData {
            topics: empty_vec(),
            response_partition_limit: 2000i32,
            cursor: None,
            _unknown_tagged_fields: empty_vec(),
        };
        assert(r@ =~= Self::default_view());
        r
    }
}

impl DescribeTopicPartitionsRequestData {
    pub open spec fn default_view() -> DescribeTopicPartitionsRequestDataView {
        DescribeTopicPartitionsRequestDataView {
            topics: Seq::empty(),
            response_partition_limit: 2000i32,
            cursor: None,
            unknown_tagged_fields: Seq::empty(),
        }
    }

    /// The `topics` field, read from the front of `s`.
    #[verifier::opaque]
    pub open spec fn spec_read_topics(s: Seq<u8>, version: i16) -> ReadOutcome<Seq<TopicRequestView>> {
        spec_read_array::<TopicRequest>(s, version, true)
    }

    /// The `response_partition_limit` field, read from the front of `s`.
    #[verifier::opaque]
    pub open spec fn spec_read_response_partition_limit(s: Seq<u8>, version: i16) -> ReadOutcome<i32> {
        spec_read_i32(s)
    }

    /// The `cursor` field, read from the front of `s`.
    #[verifier::opaque]
    pub open spec fn spec_read_cursor(s: Seq<u8>, version: i16) -> ReadOutcome<Option<CursorView>> {
        spec_read_marked::<Cursor>(s, version)
    }

    /// The tagged fields, read from the front of `s`.
    #[verifier::opaque]
    pub open spec fn spec_read_tags(s: Seq<u8>, version: i16) -> ReadOutcome<Seq<(u32, Seq<u8>)>> {
        spec_read_tagged_fields(s)
    }

    pub open spec fn spec_read(s: Seq<u8>, version: i16) -> ReadOutcome<DescribeTopicPartitionsRequestDataView> {
        if version < 0 || version > 0 {
            Err(Error::UnsupportedVersion(UnsupportedVersion { api_key: 75, version }))
        } else {
            match (Self::spec_read_topics(s, version)) {
                Err(e) => Err(e),
                Ok((topics, s)) => match (Self::spec_read_response_partition_limit(s, version)) {
                    Err(e) => Err(e),
                    Ok((response_partition_limit, s)) => match (Self::spec_read_cursor(s, version)) {
                        Err(e) => Err(e),
                        Ok((cursor, s)) => match (Self::spec_read_tags(s, version)) {
                            Err(e) => Err(e),
                            Ok((unknown_tagged_fields, s)) => Ok((DescribeTopicPartitionsRequestDataView {
                                        topics: topics,
                                        response_partition_limit: response_partition_limit,
                                        cursor: cursor,
                                        unknown_tagged_fields: unknown_tagged_fields,
                                    }, s)),
                        },
                    },
                },
            }
        }
    }

    /// What writing the `topics` field of `m` appends.
    #[verifier::opaque]
    pub open spec fn spec_write_topics(m: DescribeTopicPartitionsRequestDataView, version: i16) -> WriteOutcome {
        spec_write_array::<TopicRequest>(m.topics, version, true)
    }

    /// What writing the `response_partition_limit` field of `m` appends.
    #[verifier::opaque]
    pub open spec fn spec_write_response_partition_limit(m: DescribeTopicPartitionsRequestDataView, version: i16) -> WriteOutcome {
        spec_write_i32(m.response_partition_limit)
    }

    /// What writing the `cursor` field of `m` appends.
    #[verifier::opaque]
    pub open spec fn spec_write_cursor(m: DescribeTopicPartitionsRequestDataView, version: i16) -> WriteOutcome {
        spec_write_marked::<Cursor>(m.cursor, version)
    }

    /// What writing the tagged fields of `m` appends.
    #[verifier::opaque]
    pub open spec fn spec_write_tags(m: DescribeTopicPartitionsRequestDataView, version: i16) -> WriteOutcome {
        spec_write_tagged_fields(sorted_by_tag(m.unknown_tagged_fields))
    }

    pub open spec fn spec_write(m: DescribeTopicPartitionsRequestDataView, version: i16) -> WriteOutcome {
        if version < 0 || version > 0 {
            fail(Error::UnsupportedVersion(UnsupportedVersion { api_key: 75, version }))
        } else {
            chain(
                chain(
                    chain(
                        Self::spec_write_topics(m, version),
                        Self::spec_write_response_partition_limit(m, version),
                    ),
                    Self::spec_write_cursor(m, version),
                ),
                Self::spec_write_tags(m, version),
            )
        }
    }

    /// Whether reading back what writing `m` in `version` appends gives `m`:
    /// fields that the version does not carry hold their default values, and
    /// tagged fields come in the order in which they are written.
    pub open spec fn canonical(m: DescribeTopicPartitionsRequestDataView, version: i16) -> bool {
        &&& all_canonical::<TopicRequest>(m.topics, version)
        &&& (m.cursor matches Some(x) ==> Cursor::canonical(x, version))
        &&& tags_in_order(m.unknown_tagged_fields)
    }

    proof fn lemma_round_trip_topics(m: DescribeTopicPartitionsRequestDataView, version: i16, rest: Seq<u8>)
        requires
            Self::canonical(m, version),
            Self::spec_write_topics(m, version) is Ok,
        ensures
            Self::spec_read_topics(written(Self::spec_write_topics(m, version)) + rest, version) == Ok::<(Seq<TopicRequestView>, Seq<u8>), Error>((m.topics, rest)),
    {
        reveal(DescribeTopicPartitionsRequestData::spec_read_topics);
        reveal(DescribeTopicPartitionsRequestData::spec_write_topics);
        lemma_array_round_trip::<TopicRequest>(m.topics, version, true, rest);
    }

    proof fn lemma_round_trip_response_partition_limit(m: DescribeTopicPartitionsRequestDataView, version: i16, rest: Seq<u8>)
        requires
            Self::canonical(m, version),
            Self::spec_write_response_partition_limit(m, version) is Ok,
        ensures
            Self::spec_read_response_partition_limit(written(Self::spec_write_response_partition_limit(m, version)) + rest, version) == Ok::<(i32, Seq<u8>), Error>((m.response_partition_limit, rest)),
    {
        reveal(DescribeTopicPartitionsRequestData::spec_read_response_partition_limit);
        reveal(DescribeTopicPartitionsRequestData::spec_write_response_partition_limit);
        lemma_i32_roundtrip(m.response_partition_limit, rest);
    }

    proof fn lemma_round_trip_cursor(m: DescribeTopicPartitionsRequestDataView, version: i16, rest: Seq<u8>)
        requires
            Self::canonical(m, version),
            Self::spec_write_cursor(m, version) is Ok,
        ensures
            Self::spec_read_cursor(written(Self::spec_write_cursor(m, version)) + rest, version) == Ok::<(Option<CursorView>, Seq<u8>), Error>((m.cursor, rest)),
    {
        reveal(DescribeTopicPartitionsRequestData::spec_read_cursor);
        reveal(DescribeTopicPartitionsRequestData::spec_write_cursor);
        lemma_marked_round_trip::<Cursor>(m.cursor, version, rest);
    }

    proof fn lemma_round_trip_tags(m: DescribeTopicPartitionsRequestDataView, version: i16, rest: Seq<u8>)
        requires
            Self::canonical(m, version),
            Self::spec_write_tags(m, version) is Ok,
        ensures
            Self::spec_read_tags(written(Self::spec_write_tags(m, version)) + rest, version) == Ok::<(Seq<(u32, Seq<u8>)>, Seq<u8>), Error>((m.unknown_tagged_fields, rest)),
    {
        reveal(DescribeTopicPartitionsRequestData::spec_read_tags);
        reveal(DescribeTopicPartitionsRequestData::spec_write_tags);
        lemma_sorted_by_tag_in_order(m.unknown_tagged_fields);
        lemma_tagged_fields_round_trip(m.unknown_tagged_fields, rest);
    }

    /// Reading back what writing `m` in `version` appends gives `m` again, and
    /// leaves what follows, for every canonical message whose write succeeds.
    #[verifier::rlimit(80)]
    #[verifier::spinoff_prover]
    pub proof fn lemma_round_trip(m: DescribeTopicPartitionsRequestDataView, version: i16, rest: Seq<u8>)
        requires
            Self::canonical(m, version),
            Self::spec_write(m, version) is Ok,
        ensures
            Self::spec_read(written(Self::spec_write(m, version)) + rest, version) == Ok::<(DescribeTopicPartitionsRequestDataView, Seq<u8>), Error>((m, rest)),
    {
        let b0 = written(Self::spec_write_topics(m, version));
        let b1 = written(Self::spec_write_response_partition_limit(m, version));
        let b2 = written(Self::spec_write_cursor(m, version));
        let b3 = written(Self::spec_write_tags(m, version));
        let t4 = rest;
        let t3 = b3 + t4;
        let t2 = b2 + t3;
        let t1 = b1 + t2;
        let t0 = b0 + t1;
        let w0 = Self::spec_write_topics(m, version);
        let w1 = chain(w0, Self::spec_write_response_partition_limit(m, version));
        let w2 = chain(w1, Self::spec_write_cursor(m, version));
        let w3 = chain(w2, Self::spec_write_tags(m, version));
        assert(Self::spec_write(m, version) == w3);
        assert(written(w3) + t4 =~= written(w2) + t3);
        assert(written(w2) + t3 =~= written(w1) + t2);
        assert(written(w1) + t2 =~= written(w0) + t1);
        Self::lemma_round_trip_topics(m, version, t1);
        Self::lemma_round_trip_response_partition_limit(m, version, t2);
        Self::lemma_round_trip_cursor(m, version, t3);
        Self::lemma_round_trip_tags(m, version, t4);
    }

    /// The default message holds the default value of each field of the schema.
    pub proof fn lemma_default_values()
        ensures
            Self::default_view().topics.len() == 0,
            Self::default_view().response_partition_limit == (2000i32),
            (Self::default_view().cursor is None),
            Self::default_view().unknown_tagged_fields.len() == 0,
    {
    }

    /// Each integer, boolean and identifier field is written as its standard
    /// big-endian bytes (a boolean as `1` or `0`) in the versions that carry
    /// it, and as nothing in the others; reading it takes those bytes back (any
    /// byte other than `0` reads as `true`), or gives its default value.
    pub proof fn lemma_field_encodings(m: DescribeTopicPartitionsRequestDataView, s: Seq<u8>, version: i16)
        ensures
            true ==> Self::spec_write_response_partition_limit(m, version) == Ok::<Seq<u8>, (Error, Seq<u8>)>(u32_bytes(m.response_partition_limit as u32)),
            true ==> Self::spec_read_response_partition_limit(s, version) == spec_read_i32(s),
    {
        reveal(DescribeTopicPartitionsRequestData::spec_write_response_partition_limit);
        reveal(DescribeTopicPartitionsRequestData::spec_read_response_partition_limit);
    }

    /// Whether writing `m` in `version` succeeds, said over its parts: the
    /// version is one the schema covers, every field that the version cannot
    /// carry holds its default value, and every string, byte string, array and
    /// tagged field fits its length prefix.
    pub open spec fn writable(m: DescribeTopicPartitionsRequestDataView, version: i16) -> bool {
        &&& 0 <= version <= 0
        &&& (m.topics.len() <= i32::MAX && all_writable::<TopicRequest>(m.topics, version))
        &&& (m.cursor matches Some(x) ==> Cursor::writable(x, version))
        &&& m.unknown_tagged_fields.len() <= u32::MAX && tags_fit(m.unknown_tagged_fields)
    }

    proof fn lemma_writable_topics(m: DescribeTopicPartitionsRequestDataView, version: i16)
        ensures
            Self::spec_write_topics(m, version) is Ok <==> (m.topics.len() <= i32::MAX && all_writable::<TopicRequest>(m.topics, version)),
    {
        reveal(DescribeTopicPartitionsRequestData::spec_write_topics);
        lemma_array_writable::<TopicRequest>(m.topics, version, true);
    }

    proof fn lemma_writable_response_partition_limit(m: DescribeTopicPartitionsRequestDataView, version: i16)
        ensures
            Self::spec_write_response_partition_limit(m, version) is Ok <==> true,
    {
        reveal(DescribeTopicPartitionsRequestData::spec_write_response_partition_limit);
    }

    proof fn lemma_writable_cursor(m: DescribeTopicPartitionsRequestDataView, version: i16)
        ensures
            Self::spec_write_cursor(m, version) is Ok <==> (m.cursor matches Some(x) ==> Cursor::writable(x, version)),
    {
        reveal(DescribeTopicPartitionsRequestData::spec_write_cursor);
        lemma_marked_writable::<Cursor>(m.cursor, version);
    }

    proof fn lemma_writable_tags(m: DescribeTopicPartitionsRequestDataView, version: i16)
        ensures
            Self::spec_write_tags(m, version) is Ok <==> m.unknown_tagged_fields.len() <= u32::MAX && tags_fit(m.unknown_tagged_fields),
    {
        reveal(DescribeTopicPartitionsRequestData::spec_write_tags);
        lemma_sorted_tags_fit(m.unknown_tagged_fields);
        lemma_tagged_fields_writable(sorted_by_tag(m.unknown_tagged_fields));
    }

    /// Writing `m` in `version` succeeds exactly when `m` is writable in it;
    /// so do `write` and `encoded_len`, whose results follow `spec_write`.
    #[verifier::rlimit(54)]
    pub proof fn lemma_writable(m: DescribeTopicPartitionsRequestDataView, version: i16)
        ensures
            Self::spec_write(m, version) is Ok <==> Self::writable(m, version),
    {
        Self::lemma_writable_topics(m, version);
        Self::lemma_writable_response_partition_limit(m, version);
        Self::lemma_writable_cursor(m, version);
        Self::lemma_writable_tags(m, version);
    }

    /// A version outside the range that the schema covers is refused, by
    /// reads and by writes alike, before anything is read or written.
    pub proof fn lemma_refused_version(m: DescribeTopicPartitionsRequestDataView, s: Seq<u8>, version: i16)
        requires
            version < 0 || version > 0,
        ensures
            Self::spec_read(s, version) == Err::<(DescribeTopicPartitionsRequestDataView, Seq<u8>), Error>(Error::UnsupportedVersion(UnsupportedVersion { api_key: 75, version })),
            Self::spec_write(m, version) == fail(Error::UnsupportedVersion(UnsupportedVersion { api_key: 75, version })),
    {
    }

    fn read_topics(buf: &mut Bytes, version: i16) -> (r: Result<Vec<TopicRequest>, Error>)
        ensures
            read_vec_as(Self::spec_read_topics(bytes_seq(*old(buf)), version), *final(buf), r),
            took_front(*old(buf), *final(buf)),
    {
        proof {
            reveal(DescribeTopicPartitionsRequestData::spec_read_topics);
        }
        Ok(read_array::<TopicRequest>(buf, version, true)?)
    }

    fn read_response_partition_limit(buf: &mut Bytes, version: i16) -> (r: Result<i32, Error>)
        ensures
            read_as(Self::spec_read_response_partition_limit(bytes_seq(*old(buf)), version), *final(buf), r),
            took_front(*old(buf), *final(buf)),
    {
        proof {
            reveal(DescribeTopicPartitionsRequestData::spec_read_response_partition_limit);
        }
        Ok(read_i32(buf)?)
    }

    fn read_cursor(buf: &mut Bytes, version: i16) -> (r: Result<Option<Box<Cursor>>, Error>)
        ensures
            read_opt_as(Self::spec_read_cursor(bytes_seq(*old(buf)), version), *final(buf), r),
            took_front(*old(buf), *final(buf)),
    {
        proof {
            reveal(DescribeTopicPartitionsRequestData::spec_read_cursor);
        }
        Ok(read_marked::<Cursor>(buf, version)?)
    }

    fn read_tags(buf: &mut Bytes, version: i16) -> (r: Result<Vec<RawTaggedField>, Error>)
        ensures
            read_vec_as(Self::spec_read_tags(bytes_seq(*old(buf)), version), *final(buf), r),
            took_front(*old(buf), *final(buf)),
    {
        proof {
            reveal(DescribeTopicPartitionsRequestData::spec_read_tags);
        }
        Ok(read_tagged_fields(buf)?)
    }

    pub fn read(buf: &mut Bytes, version: i16) -> (r: Result<Self, Error>)
        ensures
            read_as(Self::spec_read(bytes_seq(*old(buf)), version), *final(buf), r),
            took_front(*old(buf), *final(buf)),
            (version < 0 || version > 0) ==> bytes_seq(*final(buf)) == bytes_seq(*old(buf)),
    {
        if version < 0 || version > 0 {
            return Err(Error::UnsupportedVersion(UnsupportedVersion::new(75, version)));
        }
        let topics = Self::read_topics(buf, version)?;
        let response_partition_limit = Self::read_response_partition_limit(buf, version)?;
        let cursor = Self::read_cursor(buf, version)?;
        let _unknown_tagged_fields = Self::read_tags(buf, version)?;
        Ok(DescribeTopicPartitionsRequestData {
                topics: topics,
                response_partition_limit: response_partition_limit,
                cursor: cursor,
                _unknown_tagged_fields: _unknown_tagged_fields,
        })
    }

    #[verifier::rlimit(70)]
    pub fn write(&self, buf: &mut BytesMut, version: i16) -> (r: Result<(), Error>)
        requires
            has_room(Self::spec_write(self@, version), *old(buf)),
        ensures
            wrote(Self::spec_write(self@, version), *old(buf), *final(buf), r),
    {
        if version < 0 || version > 0 {
            return Err(Error::UnsupportedVersion(UnsupportedVersion::new(75, version)));
        }
        let ghost m = self@;
        proof {
            reveal(DescribeTopicPartitionsRequestData::spec_write_topics);
            reveal(DescribeTopicPartitionsRequestData::spec_write_response_partition_limit);
            reveal(DescribeTopicPartitionsRequestData::spec_write_cursor);
            reveal(DescribeTopicPartitionsRequestData::spec_write_tags);
        }
        let ghost s0 = Self::spec_write_topics(m, version);
        let ghost w0 = s0;
        let ghost s1 = Self::spec_write_response_partition_limit(m, version);
        let ghost w1 = chain(w0, s1);
        let ghost s2 = Self::spec_write_cursor(m, version);
        let ghost w2 = chain(w1, s2);
        let ghost s3 = Self::spec_write_tags(m, version);
        let ghost w3 = chain(w2, s3);
        assert(Self::spec_write(m, version) == w3);
        assert(written(w2).len() <= written(w3).len() && (w2 is Err ==> w3 == w2));
        assert(written(w1).len() <= written(w3).len() && (w1 is Err ==> w3 == w1));
        assert(written(w0).len() <= written(w3).len() && (w0 is Err ==> w3 == w0));
        let ghost mid = bytes_mut_seq(*buf);
        proof {
            lemma_append_empty(mid);
        }
        let r0 = write_array::<TopicRequest>(buf, &self.topics, version, true);
        assert(bytes_mut_seq(*buf) == mid + written(s0));
        if r0.is_err() {
            return r0;
        }
        let ghost mid = bytes_mut_seq(*buf);
        proof {
            lemma_append_empty(mid);
        }
        let r1 = {
            write_i32(buf, self.response_partition_limit);
            Ok(())
        };
        assert(bytes_mut_seq(*buf) == mid + written(s1));
        proof {
            lemma_step(bytes_mut_seq(*old(buf)), w0, s1);
        }
        if r1.is_err() {
            return r1;
        }
        let ghost mid = bytes_mut_seq(*buf);
        proof {
            lemma_append_empty(mid);
        }
        let r2 = write_marked::<Cursor>(buf, &self.cursor, version);
        assert(bytes_mut_seq(*buf) == mid + written(s2));
        proof {
            lemma_step(bytes_mut_seq(*old(buf)), w1, s2);
        }
        if r2.is_err() {
            return r2;
        }
        let ghost mid = bytes_mut_seq(*buf);
        proof {
            lemma_append_empty(mid);
        }
        let r3 = write_tagged_fields(buf, &sort_by_tag(&self._unknown_tagged_fields));
        assert(bytes_mut_seq(*buf) == mid + written(s3));
        proof {
            lemma_step(bytes_mut_seq(*old(buf)), w2, s3);
        }
        if r3.is_err() {
            return r3;
        }
        Ok(())
    }
}

#[derive(Debug, PartialEq)]
pub struct TopicRequest {
    /// The topic name.
    pub name: KafkaString,
    pub _unknown_tagged_fields: Vec<RawTaggedField>,
}

/// What a `TopicRequest` holds, as the specification sees it.
#[verifier::ext_equal]
pub struct TopicRequestView {
    pub name: Seq<u8>,
    pub unknown_tagged_fields: Seq<(u32, Seq<u8>)>,
}

impl View for TopicRequest {
    type V = TopicRequestView;

    open spec fn view(&self) -> TopicRequestView {
        TopicRequestView {
            name: self.name@,
            unknown_tagged_fields: views(self._unknown_tagged_fields@),
        }
    }
}

impl Clone for TopicRequest {
    fn clone(&self) -> (r: Self)
        ensures
            r@ == self@,
    {
        let r = TopicRequest {
            name: self.name.clone(),
            _unknown_tagged_fields: clone_vec(&self._unknown_tagged_fields),
        };
        assert(r@ =~= self@);
        r
    }
}

impl ViewClone for TopicRequest {
    fn clone_view(&self) -> (r: Self) {
        self.clone()
    }
}

impl Default for TopicRequest {
    fn default() -> (r: Self)
        ensures
            r@ == Self::default_view(),
    {
        let r = TopicRequest {
            name: KafkaString::default(),
            _unknown_tagged_fields: empty_vec(),
        };
        assert(r@ =~= Self::default_view());
        r
    }
}

impl TopicRequest {
    pub open spec fn default_view() -> TopicRequestView {
        TopicRequestView {
            name: Seq::empty(),
            unknown_tagged_fields: Seq::empty(),
        }
    }

    /// The `name` field, read from the front of `s`.
    #[verifier::opaque]
    pub open spec fn spec_read_name(s: Seq<u8>, version: i16) -> ReadOutcome<Seq<u8>> {
        spec_read_compact_string(s)
    }

    /// The tagged fields, read from the front of `s`.
    #[verifier::opaque]
    pub open spec fn spec_read_tags(s: Seq<u8>, version: i16) -> ReadOutcome<Seq<(u32, Seq<u8>)>> {
        spec_read_tagged_fields(s)
    }

    pub open spec fn spec_read(s: Seq<u8>, version: i16) -> ReadOutcome<TopicRequestView> {
        match (Self::spec_read_name(s, version)) {
            Err(e) => Err(e),
            Ok((name, s)) => match (Self::spec_read_tags(s, version)) {
                Err(e) => Err(e),
                Ok((unknown_tagged_fields, s)) => Ok((TopicRequestView {
                            name: name,
                            unknown_tagged_fields: unknown_tagged_fields,
                        }, s)),
            },
        }
    }

    /// What writing the `name` field of `m` appends.
    #[verifier::opaque]
    pub open spec fn spec_write_name(m: TopicRequestView, version: i16) -> WriteOutcome {
        spec_write_compact_string(m.name)
    }

    /// What writing the tagged fields of `m` appends.
    #[verifier::opaque]
    pub open spec fn spec_write_tags(m: TopicRequestView, version: i16) -> WriteOutcome {
        spec_write_tagged_fields(sorted_by_tag(m.unknown_tagged_fields))
    }

    pub open spec fn spec_write(m: TopicRequestView, version: i16) -> WriteOutcome {
        chain(
            Self::spec_write_name(m, version),
            Self::spec_write_tags(m, version),
        )
    }

    /// Whether reading back what writing `m` in `version` appends gives `m`:
    /// fields that the version does not carry hold their default values, and
    /// tagged fields come in the order in which they are written.
    pub open spec fn canonical(m: TopicRequestView, version: i16) -> bool {
        &&& tags_in_order(m.unknown_tagged_fields)
    }

    proof fn lemma_round_trip_name(m: TopicRequestView, version: i16, rest: Seq<u8>)
        requires
            Self::canonical(m, version),
            Self::spec_write_name(m, version) is Ok,
        ensures
            Self::spec_read_name(written(Self::spec_write_name(m, version)) + rest, version) == Ok::<(Seq<u8>, Seq<u8>), Error>((m.name, rest)),
    {
        reveal(TopicRequest::spec_read_name);
        reveal(TopicRequest::spec_write_name);
        lemma_compact_string_round_trip(m.name, rest);
    }

    proof fn lemma_round_trip_tags(m: TopicRequestView, version: i16, rest: Seq<u8>)
        requires
            Self::canonical(m, version),
            Self::spec_write_tags(m, version) is Ok,
        ensures
            Self::spec_read_tags(written(Self::spec_write_tags(m, version)) + rest, version) == Ok::<(Seq<(u32, Seq<u8>)>, Seq<u8>), Error>((m.unknown_tagged_fields, rest)),
    {
        reveal(TopicRequest::spec_read_tags);
        reveal(TopicRequest::spec_write_tags);
        lemma_sorted_by_tag_in_order(m.unknown_tagged_fields);
        lemma_tagged_fields_round_trip(m.unknown_tagged_fields, rest);
    }

    /// Reading back what writing `m` in `version` appends gives `m` again, and
    /// leaves what follows, for every canonical message whose write succeeds.
    #[verifier::rlimit(60)]
    #[verifier::spinoff_prover]
    pub proof fn lemma_round_trip(m: TopicRequestView, version: i16, rest: Seq<u8>)
        requires
            Self::canonical(m, version),
            Self::spec_write(m, version) is Ok,
        ensures
            Self::spec_read(written(Self::spec_write(m, version)) + rest, version) == Ok::<(TopicRequestView, Seq<u8>), Error>((m, rest)),
    {
        let b0 = written(Self::spec_write_name(m, version));
        let b1 = written(Self::spec_write_tags(m, version));
        let t2 = rest;
        let t1 = b1 + t2;
        let t0 = b0 + t1;
        let w0 = Self::spec_write_name(m, version);
        let w1 = chain(w0, Self::spec_write_tags(m, version));
        assert(Self::spec_write(m, version) == w1);
        assert(written(w1) + t2 =~= written(w0) + t1);
        Self::lemma_round_trip_name(m, version, t1);
        Self::lemma_round_trip_tags(m, version, t2);
    }

    /// The default message holds the default value of each field of the schema.
    pub proof fn lemma_default_values()
        ensures
            Self::default_view().name.len() == 0,
            Self::default_view().unknown_tagged_fields.len() == 0,
    {
    }

    /// Whether writing `m` in `version` succeeds, said over its parts: the
    /// version is one the schema covers, every field that the version cannot
    /// carry holds its default value, and every string, byte string, array and
    /// tagged field fits its length prefix.
    pub open spec fn writable(m: TopicRequestView, version: i16) -> bool {
        &&& m.name.len() <= 0x7fff
        &&& m.unknown_tagged_fields.len() <= u32::MAX && tags_fit(m.unknown_tagged_fields)
    }

    proof fn lemma_writable_name(m: TopicRequestView, version: i16)
        ensures
            Self::spec_write_name(m, version) is Ok <==> m.name.len() <= 0x7fff,
    {
        reveal(TopicRequest::spec_write_name);
    }

    proof fn lemma_writable_tags(m: TopicRequestView, version: i16)
        ensures
            Self::spec_write_tags(m, version) is Ok <==> m.unknown_tagged_fields.len() <= u32::MAX && tags_fit(m.unknown_tagged_fields),
    {
        reveal(TopicRequest::spec_write_tags);
        lemma_sorted_tags_fit(m.unknown_tagged_fields);
        lemma_tagged_fields_writable(sorted_by_tag(m.unknown_tagged_fields));
    }

    /// Writing `m` in `version` succeeds exactly when `m` is writable in it;
    /// so do `write` and `encoded_len`, whose results follow `spec_write`.
    #[verifier::rlimit(42)]
    pub proof fn lemma_writable(m: TopicRequestView, version: i16)
        ensures
            Self::spec_write(m, version) is Ok <==> Self::writable(m, version),
    {
        Self::lemma_writable_name(m, version);
        Self::lemma_writable_tags(m, version);
    }

    fn read_name(buf: &mut Bytes, version: i16) -> (r: Result<KafkaString, Error>)
        ensures
            read_as(Self::spec_read_name(bytes_seq(*old(buf)), version), *final(buf), r),
            took_front(*old(buf), *final(buf)),
    {
        proof {
            reveal(TopicRequest::spec_read_name);
        }
        Ok(read_compact_string(buf)?)
    }

    fn read_tags(buf: &mut Bytes, version: i16) -> (r: Result<Vec<RawTaggedField>, Error>)
        ensures
            read_vec_as(Self::spec_read_tags(bytes_seq(*old(buf)), version), *final(buf), r),
            took_front(*old(buf), *final(buf)),
    {
        proof {
            reveal(TopicRequest::spec_read_tags);
        }
        Ok(read_tagged_fields(buf)?)
    }

    pub fn read(buf: &mut Bytes, version: i16) -> (r: Result<Self, Error>)
        ensures
            read_as(Self::spec_read(bytes_seq(*old(buf)), version), *final(buf), r),
            took_front(*old(buf), *final(buf)),
    {
        let name = Self::read_name(buf, version)?;
        let _unknown_tagged_fields = Self::read_tags(buf, version)?;
        Ok(TopicRequest {
                name: name,
                _unknown_tagged_fields: _unknown_tagged_fields,
        })
    }

    #[verifier::rlimit(50)]
    pub fn write(&self, buf: &mut BytesMut, version: i16) -> (r: Result<(), Error>)
        requires
            has_room(Self::spec_write(self@, version), *old(buf)),
        ensures
            wrote(Self::spec_write(self@, version), *old(buf), *final(buf), r),
    {
        let ghost m = self@;
        proof {
            reveal(TopicRequest::spec_write_name);
            reveal(TopicRequest::spec_write_tags);
        }
        let ghost s0 = Self::spec_write_name(m, version);
        let ghost w0 = s0;
        let ghost s1 = Self::spec_write_tags(m, version);
        let ghost w1 = chain(w0, s1);
        assert(Self::spec_write(m, version) == w1);
        assert(written(w0).len() <= written(w1).len() && (w0 is Err ==> w1 == w0));
        let ghost mid = bytes_mut_seq(*buf);
        proof {
            lemma_append_empty(mid);
        }
        let r0 = write_compact_string(buf, &self.name);
        assert(bytes_mut_seq(*buf) == mid + written(s0));
        if r0.is_err() {
            return r0;
        }
        let ghost mid = bytes_mut_seq(*buf);
        proof {
            lemma_append_empty(mid);
        }
        let r1 = write_tagged_fields(buf, &sort_by_tag(&self._unknown_tagged_fields));
        assert(bytes_mut_seq(*buf) == mid + written(s1));
        proof {
            lemma_step(bytes_mut_seq(*old(buf)), w0, s1);
        }
        if r1.is_err() {
            return r1;
        }
        Ok(())
    }
}

#[derive(Debug, PartialEq)]
pub struct Cursor {
    /// The name for the first topic to process.
    pub topic_name: KafkaString,
    /// The partition index to start with.
    pub partition_index: i32,
    pub _unknown_tagged_fields: Vec<RawTaggedField>,
}

/// What a `Cursor` holds, as the specification sees it.
#[verifier::ext_equal]
pub struct CursorView {
    pub topic_name: Seq<u8>,
    pub partition_index: i32,
    pub unknown_tagged_fields: Seq<(u32, Seq<u8>)>,
}

impl View for Cursor {
    type V = CursorView;

    open spec fn view(&self) -> CursorView {
        CursorView {
            topic_name: self.topic_name@,
            partition_index: self.partition_index,
            unknown_tagged_fields: views(self._unknown_tagged_fields@),
        }
    }
}

impl Clone for Cursor {
    fn clone(&self) -> (r: Self)
        ensures
            r@ == self@,
    {
        let r = Cursor {
            topic_name: self.topic_name.clone(),
            partition_index: self.partition_index,
            _unknown_tagged_fields: clone_vec(&self._unknown_tagged_fields),
        };
        assert(r@ =~= self@);
        r
    }
}

impl ViewClone for Cursor {
    fn clone_view(&self) -> (r: Self) {
        self.clone()
    }
}

impl Default for Cursor {
    fn default() -> (r: Self)
        ensures
            r@ == Self::default_view(),
    {
        let r = Cursor {
            topic_name: KafkaString::default(),
            partition_index: 0_i32,
            _unknown_tagged_fields: empty_vec(),
        };
        assert(r@ =~= Self::default_view());
        r
    }
}

impl Cursor {
    pub open spec fn default_view() -> CursorView {
        CursorView {
            topic_name: Seq::empty(),
            partition_index: 0_i32,
            unknown_tagged_fields: Seq::empty(),
        }
    }

    /// The `topic_name` field, read from the front of `s`.
    #[verifier::opaque]
    pub open spec fn spec_read_topic_name(s: Seq<u8>, version: i16) -> ReadOutcome<Seq<u8>> {
        spec_read_compact_string(s)
    }

    /// The `partition_index` field, read from the front of `s`.
    #[verifier::opaque]
    pub open spec fn spec_read_partition_index(s: Seq<u8>, version: i16) -> ReadOutcome<i32> {
        spec_read_i32(s)
    }

    /// The tagged fields, read from the front of `s`.
    #[verifier::opaque]
    pub open spec fn spec_read_tags(s: Seq<u8>, version: i16) -> ReadOutcome<Seq<(u32, Seq<u8>)>> {
        spec_read_tagged_fields(s)
    }

    pub open spec fn spec_read(s: Seq<u8>, version: i16) -> ReadOutcome<CursorView> {
        match (Self::spec_read_topic_name(s, version)) {
            Err(e) => Err(e),
            Ok((topic_name, s)) => match (Self::spec_read_partition_index(s, version)) {
                Err(e) => Err(e),
                Ok((partition_index, s)) => match (Self::spec_read_tags(s, version)) {
                    Err(e) => Err(e),
                    Ok((unknown_tagged_fields, s)) => Ok((CursorView {
                                topic_name: topic_name,
                                partition_index: partition_index,
                                unknown_tagged_fields: unknown_tagged_fields,
                            }, s)),
                },
            },
        }
    }

    /// What writing the `topic_name` field of `m` appends.
    #[verifier::opaque]
    pub open spec fn spec_write_topic_name(m: CursorView, version: i16) -> WriteOutcome {
        spec_write_compact_string(m.topic_name)
    }

    /// What writing the `partition_index` field of `m` appends.
    #[verifier::opaque]
    pub open spec fn spec_write_partition_index(m: CursorView, version: i16) -> WriteOutcome {
        spec_write_i32(m.partition_index)
    }

    /// What writing the tagged fields of `m` appends.
    #[verifier::opaque]
    pub open spec fn spec_write_tags(m: CursorView, version: i16) -> WriteOutcome {
        spec_write_tagged_fields(sorted_by_tag(m.unknown_tagged_fields))
    }

    pub open spec fn spec_write(m: CursorView, version: i16) -> WriteOutcome {
        chain(
            chain(
                Self::spec_write_topic_name(m, version),
                Self::spec_write_partition_index(m, version),
            ),
            Self::spec_write_tags(m, version),
        )
    }

    /// Whether reading back what writing `m` in `version` appends gives `m`:
    /// fields that the version does not carry hold their default values, and
    /// tagged fields come in the order in which they are written.
    pub open spec fn canonical(m: CursorView, version: i16) -> bool {
        &&& tags_in_order(m.unknown_tagged_fields)
    }

    proof fn lemma_round_trip_topic_name(m: CursorView, version: i16, rest: Seq<u8>)
        requires
            Self::canonical(m, version),
            Self::spec_write_topic_name(m, version) is Ok,
        ensures
            Self::spec_read_topic_name(written(Self::spec_write_topic_name(m, version)) + rest, version) == Ok::<(Seq<u8>, Seq<u8>), Error>((m.topic_name, rest)),
    {
        reveal(Cursor::spec_read_topic_name);
        reveal(Cursor::spec_write_topic_name);
        lemma_compact_string_round_trip(m.topic_name, rest);
    }

    proof fn lemma_round_trip_partition_index(m: CursorView, version: i16, rest: Seq<u8>)
        requires
            Self::canonical(m, version),
            Self::spec_write_partition_index(m, version) is Ok,
        ensures
            Self::spec_read_partition_index(written(Self::spec_write_partition_index(m, version)) + rest, version) == Ok::<(i32, Seq<u8>), Error>((m.partition_index, rest)),
    {
        reveal(Cursor::spec_read_partition_index);
        reveal(Cursor::spec_write_partition_index);
        lemma_i32_roundtrip(m.partition_index, rest);
    }

    proof fn lemma_round_trip_tags(m: CursorView, version: i16, rest: Seq<u8>)
        requires
            Self::canonical(m, version),
            Self::spec_write_tags(m, version) is Ok,
        ensures
            Self::spec_read_tags(written(Self::spec_write_tags(m, version)) + rest, version) == Ok::<(Seq<(u32, Seq<u8>)>, Seq<u8>), Error>((m.unknown_tagged_fields, rest)),
    {
        reveal(Cursor::spec_read_tags);
        reveal(Cursor::spec_write_tags);
        lemma_sorted_by_tag_in_order(m.unknown_tagged_fields);
        lemma_tagged_fields_round_trip(m.unknown_tagged_fields, rest);
    }

    /// Reading back what writing `m` in `version` appends gives `m` again, and
    /// leaves what follows, for every canonical message whose write succeeds.
    #[verifier::rlimit(70)]
    #[verifier::spinoff_prover]
    pub proof fn lemma_round_trip(m: CursorView, version: i16, rest: Seq<u8>)
        requires
            Self::canonical(m, version),
            Self::spec_write(m, version) is Ok,
        ensures
            Self::spec_read(written(Self::spec_write(m, version)) + rest, version) == Ok::<(CursorView, Seq<u8>), Error>((m, rest)),
    {
        let b0 = written(Self::spec_write_topic_name(m, version));
        let b1 = written(Self::spec_write_partition_index(m, version));
        let b2 = written(Self::spec_write_tags(m, version));
        let t3 = rest;
        let t2 = b2 + t3;
        let t1 = b1 + t2;
        let t0 = b0 + t1;
        let w0 = Self::spec_write_topic_name(m, version);
        let w1 = chain(w0, Self::spec_write_partition_index(m, version));
        let w2 = chain(w1, Self::spec_write_tags(m, version));
        assert(Self::spec_write(m, version) == w2);
        assert(written(w2) + t3 =~= written(w1) + t2);
        assert(written(w1) + t2 =~= written(w0) + t1);
        Self::lemma_round_trip_topic_name(m, version, t1);
        Self::lemma_round_trip_partition_index(m, version, t2);
        Self::lemma_round_trip_tags(m, version, t3);
    }

    /// The default message holds the default value of each field of the schema.
    pub proof fn lemma_default_values()
        ensures
            Self::default_view().topic_name.len() == 0,
            Self::default_view().partition_index == (0_i32),
            Self::default_view().unknown_tagged_fields.len() == 0,
    {
    }

    /// Each integer, boolean and identifier field is written as its standard
    /// big-endian bytes (a boolean as `1` or `0`) in the versions that carry
    /// it, and as nothing in the others; reading it takes those bytes back (any
    /// byte other than `0` reads as `true`), or gives its default value.
    pub proof fn lemma_field_encodings(m: CursorView, s: Seq<u8>, version: i16)
        ensures
            true ==> Self::spec_write_partition_index(m, version) == Ok::<Seq<u8>, (Error, Seq<u8>)>(u32_bytes(m.partition_index as u32)),
            true ==> Self::spec_read_partition_index(s, version) == spec_read_i32(s),
    {
        reveal(Cursor::spec_write_partition_index);
        reveal(Cursor::spec_read_partition_index);
    }

    /// Whether writing `m` in `version` succeeds, said over its parts: the
    /// version is one the schema covers, every field that the version cannot
    /// carry holds its default value, and every string, byte string, array and
    /// tagged field fits its length prefix.
    pub open spec fn writable(m: CursorView, version: i16) -> bool {
        &&& m.topic_name.len() <= 0x7fff
        &&& m.unknown_tagged_fields.len() <= u32::MAX && tags_fit(m.unknown_tagged_fields)
    }

    proof fn lemma_writable_topic_name(m: CursorView, version: i16)
        ensures
            Self::spec_write_topic_name(m, version) is Ok <==> m.topic_name.len() <= 0x7fff,
    {
        reveal(Cursor::spec_write_topic_name);
    }

    proof fn lemma_writable_partition_index(m: CursorView, version: i16)
        ensures
            Self::spec_write_partition_index(m, version) is Ok <==> true,
    {
        reveal(Cursor::spec_write_partition_index);
    }

    proof fn lemma_writable_tags(m: CursorView, version: i16)
        ensures
            Self::spec_write_tags(m, version) is Ok <==> m.unknown_tagged_fields.len() <= u32::MAX && tags_fit(m.unknown_tagged_fields),
    {
        reveal(Cursor::spec_write_tags);
        lemma_sorted_tags_fit(m.unknown_tagged_fields);
        lemma_tagged_fields_writable(sorted_by_tag(m.unknown_tagged_fields));
    }

    /// Writing `m` in `version` succeeds exactly when `m` is writable in it;
    /// so do `write` and `encoded_len`, whose results follow `spec_write`.
    #[verifier::rlimit(48)]
    pub proof fn lemma_writable(m: CursorView, version: i16)
        ensures
            Self::spec_write(m, version) is Ok <==> Self::writable(m, version),
    {
        Self::lemma_writable_topic_name(m, version);
        Self::lemma_writable_partition_index(m, version);
        Self::lemma_writable_tags(m, version);
    }

    fn read_topic_name(buf: &mut Bytes, version: i16) -> (r: Result<KafkaString, Error>)
        ensures
            read_as(Self::spec_read_topic_name(bytes_seq(*old(buf)), version), *final(buf), r),
            took_front(*old(buf), *final(buf)),
    {
        proof {
            reveal(Cursor::spec_read_topic_name);
        }
        Ok(read_compact_string(buf)?)
    }

    fn read_partition_index(buf: &mut Bytes, version: i16) -> (r: Result<i32, Error>)
        ensures
            read_as(Self::spec_read_partition_index(bytes_seq(*old(buf)), version), *final(buf), r),
            took_front(*old(buf), *final(buf)),
    {
        proof {
            reveal(Cursor::spec_read_partition_index);
        }
        Ok(read_i32(buf)?)
    }

    fn read_tags(buf: &mut Bytes, version: i16) -> (r: Result<Vec<RawTaggedField>, Error>)
        ensures
            read_vec_as(Self::spec_read_tags(bytes_seq(*old(buf)), version), *final(buf), r),
            took_front(*old(buf), *final(buf)),
    {
        proof {
            reveal(Cursor::spec_read_tags);
        }
        Ok(read_tagged_fields(buf)?)
    }

    pub fn read(buf: &mut Bytes, version: i16) -> (r: Result<Self, Error>)
        ensures
            read_as(Self::spec_read(bytes_seq(*old(buf)), version), *final(buf), r),
            took_front(*old(buf), *final(buf)),
    {
        let topic_name = Self::read_topic_name(buf, version)?;
        let partition_index = Self::read_partition_index(buf, version)?;
        let _unknown_tagged_fields = Self::read_tags(buf, version)?;
        Ok(Cursor {
                topic_name: topic_name,
                partition_index: partition_index,
                _unknown_tagged_fields: _unknown_tagged_fields,
        })
    }

    #[verifier::rlimit(60)]
    pub fn write(&self, buf: &mut BytesMut, version: i16) -> (r: Result<(), Error>)
        requires
            has_room(Self::spec_write(self@, version), *old(buf)),
        ensures
            wrote(Self::spec_write(self@, version), *old(buf), *final(buf), r),
    {
        let ghost m = self@;
        proof {
            reveal(Cursor::spec_write_topic_name);
            reveal(Cursor::spec_write_partition_index);
            reveal(Cursor::spec_write_tags);
        }
        let ghost s0 = Self::spec_write_topic_name(m, version);
        let ghost w0 = s0;
        let ghost s1 = Self::spec_write_partition_index(m, version);
        let ghost w1 = chain(w0, s1);
        let ghost s2 = Self::spec_write_tags(m, version);
        let ghost w2 = chain(w1, s2);
        assert(Self::spec_write(m, version) == w2);
        assert(written(w1).len() <= written(w2).len() && (w1 is Err ==> w2 == w1));
        assert(written(w0).len() <= written(w2).len() && (w0 is Err ==> w2 == w0));
        let ghost mid = bytes_mut_seq(*buf);
        proof {
            lemma_append_empty(mid);
        }
        let r0 = write_compact_string(buf, &self.topic_name);
        assert(bytes_mut_seq(*buf) == mid + written(s0));
        if r0.is_err() {
            return r0;
        }
        let ghost mid = bytes_mut_seq(*buf);
        proof {
            lemma_append_empty(mid);
        }
        let r1 = {
            write_i32(buf, self.partition_index);
            Ok(())
        };
        assert(bytes_mut_seq(*buf) == mid + written(s1));
        proof {
            lemma_step(bytes_mut_seq(*old(buf)), w0, s1);
        }
        if r1.is_err() {
            return r1;
        }
        let ghost mid = bytes_mut_seq(*buf);
        proof {
            lemma_append_empty(mid);
        }
        let r2 = write_tagged_fields(buf, &sort_by_tag(&self._unknown_tagged_fields));
        assert(bytes_mut_seq(*buf) == mid + written(s2));
        proof {
            lemma_step(bytes_mut_seq(*old(buf)), w1, s2);
        }
        if r2.is_err() {
            return r2;
        }
        Ok(())
    }
}

impl Codec for TopicRequest {
    type Item = TopicRequest;

    open spec fn spec_read_item(s: Seq<u8>, version: i16) -> ReadOutcome<TopicRequestView> {
        TopicRequest::spec_read(s, version)
    }

    open spec fn spec_write_item(v: TopicRequestView, version: i16) -> WriteOutcome {
        TopicRequest::spec_write(v, version)
    }

    open spec fn canonical_item(v: TopicRequestView, version: i16) -> bool {
        TopicRequest::canonical(v, version)
    }

    proof fn lemma_item_round_trip(v: TopicRequestView, version: i16, rest: Seq<u8>) {
        TopicRequest::lemma_round_trip(v, version, rest);
    }

    open spec fn writable_item(v: TopicRequestView, version: i16) -> bool {
        TopicRequest::writable(v, version)
    }

    proof fn lemma_item_writable(v: TopicRequestView, version: i16) {
        TopicRequest::lemma_writable(v, version);
    }

    fn read_item(buf: &mut Bytes, version: i16) -> (r: Result<TopicRequest, Error>) {
        TopicRequest::read(buf, version)
    }

    fn write_item(item: &TopicRequest, buf: &mut BytesMut, version: i16) -> (r: Result<(), Error>) {
        item.write(buf, version)
    }
}

impl Codec for Cursor {
    type Item = Cursor;

    open spec fn spec_read_item(s: Seq<u8>, version: i16) -> ReadOutcome<CursorView> {
        Cursor::spec_read(s, version)
    }

    open spec fn spec_write_item(v: CursorView, version: i16) -> WriteOutcome {
        Cursor::spec_write(v, version)
    }

    open spec fn canonical_item(v: CursorView, version: i16) -> bool {
        Cursor::canonical(v, version)
    }

    proof fn lemma_item_round_trip(v: CursorView, version: i16, rest: Seq<u8>) {
        Cursor::lemma_round_trip(v, version, rest);
    }

    open spec fn writable_item(v: CursorView, version: i16) -> bool {
        Cursor::writable(v, version)
    }

    proof fn lemma_item_writable(v: CursorView, version: i16) {
        Cursor::lemma_writable(v, version);
    }

    fn read_item(buf: &mut Bytes, version: i16) -> (r: Result<Cursor, Error>) {
        Cursor::read(buf, version)
    }

    fn write_item(item: &Cursor, buf: &mut BytesMut, version: i16) -> (r: Result<(), Error>) {
        item.write(buf, version)
    }
}

} // verus!
