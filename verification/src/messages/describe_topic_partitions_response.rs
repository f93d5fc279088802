//! The describe topic partitions response message.
use crate::buffer::{bytes_mut_seq, bytes_seq};
use crate::codec::{Codec, Int32Item, all_canonical, all_writable, lemma_array_round_trip, lemma_array_writable, lemma_marked_round_trip, lemma_marked_writable, lemma_nullable_array_round_trip, lemma_nullable_array_writable, opt_views, read_array, read_marked, read_nullable_array, spec_read_array, spec_read_marked, spec_read_nullable_array, spec_write_array, spec_write_marked, spec_write_nullable_array, write_array, write_marked, write_nullable_array};
use crate::error::{Error, UnsupportedVersion};
use crate::ints::{lemma_bool_roundtrip, lemma_i16_roundtrip, lemma_i32_roundtrip, read_bool, read_i16, read_i32, spec_read_bool, spec_read_i16, spec_read_i32, spec_write_bool, spec_write_i16, spec_write_i32, u16_bytes, u32_bytes, u64_bytes, write_bool, write_i16, write_i32};
use crate::strings::{lemma_compact_nullable_string_round_trip, lemma_compact_string_round_trip, lemma_uuid_round_trip, read_compact_nullable_string, read_compact_string, read_uuid, spec_read_compact_nullable_string, spec_read_compact_string, spec_read_uuid, spec_write_compact_nullable_string, spec_write_compact_string, spec_write_uuid, write_compact_nullable_string, write_compact_string, write_uuid};
use crate::tagged::{lemma_sorted_by_tag_in_order, lemma_sorted_tags_fit, lemma_tagged_fields_round_trip, lemma_tagged_fields_writable, read_tagged_fields, sort_by_tag, sorted_by_tag, spec_read_tagged_fields, spec_write_tagged_fields, tags_fit, tags_in_order, write_tagged_fields};
use crate::types::{KafkaString, KafkaUuid, RawTaggedField};
use crate::wire::{ReadOutcome, ViewClone, WriteOutcome, chain, clone_vec, empty_vec, fail, has_room, lemma_append_empty, lemma_chain_written, lemma_step, opt_view, read_as, read_opt_as, read_opt_vec_as, read_vec_as, took_front, views, written, wrote};
use bytes::{Bytes, BytesMut};
use vstd::prelude::*;

verus! {

broadcast use {crate::wire::lemma_chain_written, crate::wire::lemma_took_front_nothing, crate::wire::lemma_took_front_twice};

#[derive(Debug, PartialEq)]
pub struct DescribeTopicPartitionsResponseData {
    /// The duration in milliseconds for which the request was throttled due to a quota violation,
    /// or zero if the request did not violate any quota.
    pub throttle_time_ms: i32,
    /// Each topic in the response.
    pub topics: Vec<DescribeTopicPartitionsResponseTopic>,
    /// The next topic and partition index to fetch details for.
    pub next_cursor: Option<Box<Cursor>>,
    pub _unknown_tagged_fields: Vec<RawTaggedField>,
}

/// What a `DescribeTopicPartitionsResponseData` holds, as the specification sees it.
#[verifier::ext_equal]
pub struct DescribeTopicPartitionsResponseDataView {
    pub throttle_time_ms: i32,
    pub topics: Seq<DescribeTopicPartitionsResponseTopicView>,
    pub next_cursor: Option<CursorView>,
    pub unknown_tagged_fields: Seq<(u32, Seq<u8>)>,
}

impl View for DescribeTopicPartitionsResponseData {
    type V = DescribeTopicPartitionsResponseDataView;

    open spec fn view(&self) -> DescribeTopicPartitionsResponseDataView {
        DescribeTopicPartitionsResponseDataView {
            throttle_time_ms: self.throttle_time_ms,
            topics: views(self.topics@),
            next_cursor: opt_view(self.next_cursor),
            unknown_tagged_fields: views(self._unknown_tagged_fields@),
        }
    }
}

impl Clone for DescribeTopicPartitionsResponseData {
    fn clone(&self) -> (r: Self)
        ensures
            r@ == self@,
    {
        let r = DescribeTopicPartitionsResponseData {
            throttle_time_ms: self.throttle_time_ms,
            topics: clone_vec(&self.topics),
            next_cursor: match &self.next_cursor {
                Some(x) => Some(Box::new((**x).clone())),
                None => None,
            },
            _unknown_tagged_fields: clone_vec(&self._unknown_tagged_fields),
        };
        assert(r@ =~= self@);
        r
    }
}

impl ViewClone for DescribeTopicPartitionsResponseData {
    fn clone_view(&self) -> (r: Self) {
        self.clone()
    }
}

impl Default for DescribeTopicPartitionsResponseData {
    fn default() -> (r: Self)
        ensures
            r@ == Self::default_view(),
    {
        let r = DescribeTopicPartitionsResponseData {
            throttle_time_ms: 0_i32,
            topics: empty_vec(),
            next_cursor: None,
            _unknown_tagged_fields: empty_vec(),
        };
        assert(r@ =~= Self::default_view());
        r
    }
}

impl DescribeTopicPartitionsResponseData {
    pub open spec fn default_view() -> DescribeTopicPartitionsResponseDataView {
        DescribeTopicPartitionsResponseDataView {
            throttle_time_ms: 0_i32,
            topics: Seq::empty(),
            next_cursor: None,
            unknown_tagged_fields: Seq::empty(),
        }
    }

    /// The `throttle_time_ms` field, read from the front of `s`.
    #[verifier::opaque]
    pub open spec fn spec_read_throttle_time_ms(s: Seq<u8>, version: i16) -> ReadOutcome<i32> {
        spec_read_i32(s)
    }

    /// The `topics` field, read from the front of `s`.
    #[verifier::opaque]
    pub open spec fn spec_read_topics(s: Seq<u8>, version: i16) -> ReadOutcome<Seq<DescribeTopicPartitionsResponseTopicView>> {
        spec_read_array::<DescribeTopicPartitionsResponseTopic>(s, version, true)
    }

    /// The `next_cursor` field, read from the front of `s`.
    #[verifier::opaque]
    pub open spec fn spec_read_next_cursor(s: Seq<u8>, version: i16) -> ReadOutcome<Option<CursorView>> {
        spec_read_marked::<Cursor>(s, version)
    }

    /// The tagged fields, read from the front of `s`.
    #[verifier::opaque]
    pub open spec fn spec_read_tags(s: Seq<u8>, version: i16) -> ReadOutcome<Seq<(u32, Seq<u8>)>> {
        spec_read_tagged_fields(s)
    }

    pub open spec fn spec_read(s: Seq<u8>, version: i16) -> ReadOutcome<DescribeTopicPartitionsResponseDataView> {
        if version < 0 || version > 0 {
            Err(Error::UnsupportedVersion(UnsupportedVersion { api_key: 75, version }))
        } else {
            match (Self::spec_read_throttle_time_ms(s, version)) {
                Err(e) => Err(e),
                Ok((throttle_time_ms, s)) => match (Self::spec_read_topics(s, version)) {
                    Err(e) => Err(e),
                    Ok((topics, s)) => match (Self::spec_read_next_cursor(s, version)) {
                        Err(e) => Err(e),
                        Ok((next_cursor, s)) => match (Self::spec_read_tags(s, version)) {
                            Err(e) => Err(e),
                            Ok((unknown_tagged_fields, s)) => Ok((DescribeTopicPartitionsResponseDataView {
                                        throttle_time_ms: throttle_time_ms,
                                        topics: topics,
                                        next_cursor: next_cursor,
                                        unknown_tagged_fields: unknown_tagged_fields,
                                    }, s)),
                        },
                    },
                },
            }
        }
    }

    /// What writing the `throttle_time_ms` field of `m` appends.
    #[verifier::opaque]
    pub open spec fn spec_write_throttle_time_ms(m: DescribeTopicPartitionsResponseDataView, version: i16) -> WriteOutcome {
        spec_write_i32(m.throttle_time_ms)
    }

    /// What writing the `topics` field of `m` appends.
    #[verifier::opaque]
    pub open spec fn spec_write_topics(m: DescribeTopicPartitionsResponseDataView, version: i16) -> WriteOutcome {
        spec_write_array::<DescribeTopicPartitionsResponseTopic>(m.topics, version, true)
    }

    /// What writing the `next_cursor` field of `m` appends.
    #[verifier::opaque]
    pub open spec fn spec_write_next_cursor(m: DescribeTopicPartitionsResponseDataView, version: i16) -> WriteOutcome {
        spec_write_marked::<Cursor>(m.next_cursor, version)
    }

    /// What writing the tagged fields of `m` appends.
    #[verifier::opaque]
    pub open spec fn spec_write_tags(m: DescribeTopicPartitionsResponseDataView, version: i16) -> WriteOutcome {
        spec_write_tagged_fields(sorted_by_tag(m.unknown_tagged_fields))
    }

    pub open spec fn spec_write(m: DescribeTopicPartitionsResponseDataView, version: i16) -> WriteOutcome {
        if version < 0 || version > 0 {
            fail(Error::UnsupportedVersion(UnsupportedVersion { api_key: 75, version }))
        } else {
            chain(
                chain(
                    chain(
                        Self::spec_write_throttle_time_ms(m, version),
                        Self::spec_write_topics(m, version),
                    ),
                    Self::spec_write_next_cursor(m, version),
                ),
                Self::spec_write_tags(m, version),
            )
        }
    }

    /// Whether reading back what writing `m` in `version` appends gives `m`:
    /// fields that the version does not carry hold their default values, and
    /// tagged fields come in the order in which they are written.
    pub open spec fn canonical(m: DescribeTopicPartitionsResponseDataView, version: i16) -> bool {
        &&& all_canonical::<DescribeTopicPartitionsResponseTopic>(m.topics, version)
        &&& (m.next_cursor matches Some(x) ==> Cursor::canonical(x, version))
        &&& tags_in_order(m.unknown_tagged_fields)
    }

    proof fn lemma_round_trip_throttle_time_ms(m: DescribeTopicPartitionsResponseDataView, version: i16, rest: Seq<u8>)
        requires
            Self::canonical(m, version),
            Self::spec_write_throttle_time_ms(m, version) is Ok,
        ensures
            Self::spec_read_throttle_time_ms(written(Self::spec_write_throttle_time_ms(m, version)) + rest, version) == Ok::<(i32, Seq<u8>), Error>((m.throttle_time_ms, rest)),
    {
        reveal(DescribeTopicPartitionsResponseData::spec_read_throttle_time_ms);
        reveal(DescribeTopicPartitionsResponseData::spec_write_throttle_time_ms);
        lemma_i32_roundtrip(m.throttle_time_ms, rest);
    }

    proof fn lemma_round_trip_topics(m: DescribeTopicPartitionsResponseDataView, version: i16, rest: Seq<u8>)
        requires
            Self::canonical(m, version),
            Self::spec_write_topics(m, version) is Ok,
        ensures
            Self::spec_read_topics(written(Self::spec_write_topics(m, version)) + rest, version) == Ok::<(Seq<DescribeTopicPartitionsResponseTopicView>, Seq<u8>), Error>((m.topics, rest)),
    {
        reveal(DescribeTopicPartitionsResponseData::spec_read_topics);
        reveal(DescribeTopicPartitionsResponseData::spec_write_topics);
        lemma_array_round_trip::<DescribeTopicPartitionsResponseTopic>(m.topics, version, true, rest);
    }

    proof fn lemma_round_trip_next_cursor(m: DescribeTopicPartitionsResponseDataView, version: i16, rest: Seq<u8>)
        requires
            Self::canonical(m, version),
            Self::spec_write_next_cursor(m, version) is Ok,
        ensures
            Self::spec_read_next_cursor(written(Self::spec_write_next_cursor(m, version)) + rest, version) == Ok::<(Option<CursorView>, Seq<u8>), Error>((m.next_cursor, rest)),
    {
        reveal(DescribeTopicPartitionsResponseData::spec_read_next_cursor);
        reveal(DescribeTopicPartitionsResponseData::spec_write_next_cursor);
        lemma_marked_round_trip::<Cursor>(m.next_cursor, version, rest);
    }

    proof fn lemma_round_trip_tags(m: DescribeTopicPartitionsResponseDataView, version: i16, rest: Seq<u8>)
        requires
            Self::canonical(m, version),
            Self::spec_write_tags(m, version) is Ok,
        ensures
            Self::spec_read_tags(written(Self::spec_write_tags(m, version)) + rest, version) == Ok::<(Seq<(u32, Seq<u8>)>, Seq<u8>), Error>((m.unknown_tagged_fields, rest)),
    {
        reveal(DescribeTopicPartitionsResponseData::spec_read_tags);
        reveal(DescribeTopicPartitionsResponseData::spec_write_tags);
        lemma_sorted_by_tag_in_order(m.unknown_tagged_fields);
        lemma_tagged_fields_round_trip(m.unknown_tagged_fields, rest);
    }

    /// Reading back what writing `m` in `version` appends gives `m` again, and
    /// leaves what follows, for every canonical message whose write succeeds.
    #[verifier::rlimit(80)]
    #[verifier::spinoff_prover]
    pub proof fn lemma_round_trip(m: DescribeTopicPartitionsResponseDataView, version: i16, rest: Seq<u8>)
        requires
            Self::canonical(m, version),
            Self::spec_write(m, version) is Ok,
        ensures
            Self::spec_read(written(Self::spec_write(m, version)) + rest, version) == Ok::<(DescribeTopicPartitionsResponseDataView, Seq<u8>), Error>((m, rest)),
    {
        let b0 = written(Self::spec_write_throttle_time_ms(m, version));
        let b1 = written(Self::spec_write_topics(m, version));
        let b2 = written(Self::spec_write_next_cursor(m, version));
        let b3 = written(Self::spec_write_tags(m, version));
        let t4 = rest;
        let t3 = b3 + t4;
        let t2 = b2 + t3;
        let t1 = b1 + t2;
        let t0 = b0 + t1;
        let w0 = Self::spec_write_throttle_time_ms(m, version);
        let w1 = chain(w0, Self::spec_write_topics(m, version));
        let w2 = chain(w1, Self::spec_write_next_cursor(m, version));
        let w3 = chain(w2, Self::spec_write_tags(m, version));
        assert(Self::spec_write(m, version) == w3);
        assert(written(w3) + t4 =~= written(w2) + t3);
        assert(written(w2) + t3 =~= written(w1) + t2);
        assert(written(w1) + t2 =~= written(w0) + t1);
        Self::lemma_round_trip_throttle_time_ms(m, version, t1);
        Self::lemma_round_trip_topics(m, version, t2);
        Self::lemma_round_trip_next_cursor(m, version, t3);
        Self::lemma_round_trip_tags(m, version, t4);
    }

    /// The default message holds the default value of each field of the schema.
    pub proof fn lemma_default_values()
        ensures
            Self::default_view().throttle_time_ms == (0_i32),
            Self::default_view().topics.len() == 0,
            (Self::default_view().next_cursor is None),
            Self::default_view().unknown_tagged_fields.len() == 0,
    {
    }

    /// Each integer, boolean and identifier field is written as its standard
    /// big-endian bytes (a boolean as `1` or `0`) in the versions that carry
    /// it, and as nothing in the others; reading it takes those bytes back (any
    /// byte other than `0` reads as `true`), or gives its default value.
    pub proof fn lemma_field_encodings(m: DescribeTopicPartitionsResponseDataView, s: Seq<u8>, version: i16)
        ensures
            true ==> Self::spec_write_throttle_time_ms(m, version) == Ok::<Seq<u8>, (Error, Seq<u8>)>(u32_bytes(m.throttle_time_ms as u32)),
            true ==> Self::spec_read_throttle_time_ms(s, version) == spec_read_i32(s),
    {
        reveal(DescribeTopicPartitionsResponseData::spec_write_throttle_time_ms);
        reveal(DescribeTopicPartitionsResponseData::spec_read_throttle_time_ms);
    }

    /// Whether writing `m` in `version` succeeds, said over its parts: the
    /// version is one the schema covers, every field that the version cannot
    /// carry holds its default value, and every string, byte string, array and
    /// tagged field fits its length prefix.
    pub open spec fn writable(m: DescribeTopicPartitionsResponseDataView, version: i16) -> bool {
        &&& 0 <= version <= 0
        &&& (m.topics.len() <= i32::MAX && all_writable::<DescribeTopicPartitionsResponseTopic>(m.topics, version))
        &&& (m.next_cursor matches Some(x) ==> Cursor::writable(x, version))
        &&& m.unknown_tagged_fields.len() <= u32::MAX && tags_fit(m.unknown_tagged_fields)
    }

    proof fn lemma_writable_throttle_time_ms(m: DescribeTopicPartitionsResponseDataView, version: i16)
        ensures
            Self::spec_write_throttle_time_ms(m, version) is Ok <==> true,
    {
        reveal(DescribeTopicPartitionsResponseData::spec_write_throttle_time_ms);
    }

    proof fn lemma_writable_topics(m: DescribeTopicPartitionsResponseDataView, version: i16)
        ensures
            Self::spec_write_topics(m, version) is Ok <==> (m.topics.len() <= i32::MAX && all_writable::<DescribeTopicPartitionsResponseTopic>(m.topics, version)),
    {
        reveal(DescribeTopicPartitionsResponseData::spec_write_topics);
        lemma_array_writable::<DescribeTopicPartitionsResponseTopic>(m.topics, version, true);
    }

    proof fn lemma_writable_next_cursor(m: DescribeTopicPartitionsResponseDataView, version: i16)
        ensures
            Self::spec_write_next_cursor(m, version) is Ok <==> (m.next_cursor matches Some(x) ==> Cursor::writable(x, version)),
    {
        reveal(DescribeTopicPartitionsResponseData::spec_write_next_cursor);
        lemma_marked_writable::<Cursor>(m.next_cursor, version);
    }

    proof fn lemma_writable_tags(m: DescribeTopicPartitionsResponseDataView, version: i16)
        ensures
            Self::spec_write_tags(m, version) is Ok <==> m.unknown_tagged_fields.len() <= u32::MAX && tags_fit(m.unknown_tagged_fields),
    {
        reveal(DescribeTopicPartitionsResponseData::spec_write_tags);
        lemma_sorted_tags_fit(m.unknown_tagged_fields);
        lemma_tagged_fields_writable(sorted_by_tag(m.unknown_tagged_fields));
    }

    /// Writing `m` in `version` succeeds exactly when `m` is writable in it;
    /// so do `write` and `encoded_len`, whose results follow `spec_write`.
    #[verifier::rlimit(54)]
    pub proof fn lemma_writable(m: DescribeTopicPartitionsResponseDataView, version: i16)
        ensures
            Self::spec_write(m, version) is Ok <==> Self::writable(m, version),
    {
        Self::lemma_writable_throttle_time_ms(m, version);
        Self::lemma_writable_topics(m, version);
        Self::lemma_writable_next_cursor(m, version);
        Self::lemma_writable_tags(m, version);
    }

    /// A version outside the range that the schema covers is refused, by
    /// reads and by writes alike, before anything is read or written.
    pub proof fn lemma_refused_version(m: DescribeTopicPartitionsResponseDataView, s: Seq<u8>, version: i16)
        requires
            version < 0 || version > 0,
        ensures
            Self::spec_read(s, version) == Err::<(DescribeTopicPartitionsResponseDataView, Seq<u8>), Error>(Error::UnsupportedVersion(UnsupportedVersion { api_key: 75, version })),
            Self::spec_write(m, version) == fail(Error::UnsupportedVersion(UnsupportedVersion { api_key: 75, version })),
    {
    }

    fn read_throttle_time_ms(buf: &mut Bytes, version: i16) -> (r: Result<i32, Error>)
        ensures
            read_as(Self::spec_read_throttle_time_ms(bytes_seq(*old(buf)), version), *final(buf), r),
            took_front(*old(buf), *final(buf)),
    {
        proof {
            reveal(DescribeTopicPartitionsResponseData::spec_read_throttle_time_ms);
        }
        Ok(read_i32(buf)?)
    }

    fn read_topics(buf: &mut Bytes, version: i16) -> (r: Result<Vec<DescribeTopicPartitionsResponseTopic>, Error>)
        ensures
            read_vec_as(Self::spec_read_topics(bytes_seq(*old(buf)), version), *final(buf), r),
            took_front(*old(buf), *final(buf)),
    {
        proof {
            reveal(DescribeTopicPartitionsResponseData::spec_read_topics);
        }
        Ok(read_array::<DescribeTopicPartitionsResponseTopic>(buf, version, true)?)
    }

    fn read_next_cursor(buf: &mut Bytes, version: i16) -> (r: Result<Option<Box<Cursor>>, Error>)
        ensures
            read_opt_as(Self::spec_read_next_cursor(bytes_seq(*old(buf)), version), *final(buf), r),
            took_front(*old(buf), *final(buf)),
    {
        proof {
            reveal(DescribeTopicPartitionsResponseData::spec_read_next_cursor);
        }
        Ok(read_marked::<Cursor>(buf, version)?)
    }

    fn read_tags(buf: &mut Bytes, version: i16) -> (r: Result<Vec<RawTaggedField>, Error>)
        ensures
            read_vec_as(Self::spec_read_tags(bytes_seq(*old(buf)), version), *final(buf), r),
            took_front(*old(buf), *final(buf)),
    {
        proof {
            reveal(DescribeTopicPartitionsResponseData::spec_read_tags);
        }
        Ok(read_tagged_fields(buf)?)
    }

    pub fn read(buf: &mut Bytes, version: i16) -> (r: Result<Self, Error>)
        ensures
            read_as(Self::spec_read(bytes_seq(*old(buf)), version), *final(buf), r),
            took_front(*old(buf), *final(buf)),
            (version < 0 || version > 0) ==> bytes_seq(*final(buf)) == bytes_seq(*old(buf)),
    {
        if version < 0 || version > 0 {
            return Err(Error::UnsupportedVersion(UnsupportedVersion::new(75, version)));
        }
        let throttle_time_ms = Self::read_throttle_time_ms(buf, version)?;
        let topics = Self::read_topics(buf, version)?;
        let next_cursor = Self::read_next_cursor(buf, version)?;
        let _unknown_tagged_fields = Self::read_tags(buf, version)?;
        Ok(DescribeTopicPartitionsResponseData {
                throttle_time_ms: throttle_time_ms,
                topics: topics,
                next_cursor: next_cursor,
                _unknown_tagged_fields: _unknown_tagged_fields,
        })
    }

    #[verifier::rlimit(70)]
    pub fn write(&self, buf: &mut BytesMut, version: i16) -> (r: Result<(), Error>)
        requires
            has_room(Self::spec_write(self@, version), *old(buf)),
        ensures
            wrote(Self::spec_write(self@, version), *old(buf), *final(buf), r),
    {
        if version < 0 || version > 0 {
            return Err(Error::UnsupportedVersion(UnsupportedVersion::new(75, version)));
        }
        let ghost m = self@;
        proof {
            reveal(DescribeTopicPartitionsResponseData::spec_write_throttle_time_ms);
            reveal(DescribeTopicPartitionsResponseData::spec_write_topics);
            reveal(DescribeTopicPartitionsResponseData::spec_write_next_cursor);
            reveal(DescribeTopicPartitionsResponseData::spec_write_tags);
        }
        let ghost s0 = Self::spec_write_throttle_time_ms(m, version);
        let ghost w0 = s0;
        let ghost s1 = Self::spec_write_topics(m, version);
        let ghost w1 = chain(w0, s1);
        let ghost s2 = Self::spec_write_next_cursor(m, version);
        let ghost w2 = chain(w1, s2);
        let ghost s3 = Self::spec_write_tags(m, version);
        let ghost w3 = chain(w2, s3);
        assert(Self::spec_write(m, version) == w3);
        assert(written(w2).len() <= written(w3).len() && (w2 is Err ==> w3 == w2));
        assert(written(w1).len() <= written(w3).len() && (w1 is Err ==> w3 == w1));
        assert(written(w0).len() <= written(w3).len() && (w0 is Err ==> w3 == w0));
        let ghost mid = bytes_mut_seq(*buf);
        proof {
            lemma_append_empty(mid);
        }
        let r0 = {
            write_i32(buf, self.throttle_time_ms);
            Ok(())
        };
        assert(bytes_mut_seq(*buf) == mid + written(s0));
        if r0.is_err() {
            return r0;
        }
        let ghost mid = bytes_mut_seq(*buf);
        proof {
            lemma_append_empty(mid);
        }
        let r1 = write_array::<DescribeTopicPartitionsResponseTopic>(buf, &self.topics, version, true);
        assert(bytes_mut_seq(*buf) == mid + written(s1));
        proof {
            lemma_step(bytes_mut_seq(*old(buf)), w0, s1);
        }
        if r1.is_err() {
            return r1;
        }
        let ghost mid = bytes_mut_seq(*buf);
        proof {
            lemma_append_empty(mid);
        }
        let r2 = write_marked::<Cursor>(buf, &self.next_cursor, version);
        assert(bytes_mut_seq(*buf) == mid + written(s2));
        proof {
            lemma_step(bytes_mut_seq(*old(buf)), w1, s2);
        }
        if r2.is_err() {
            return r2;
        }
        let ghost mid = bytes_mut_seq(*buf);
        proof {
            lemma_append_empty(mid);
        }
        let r3 = write_tagged_fields(buf, &sort_by_tag(&self._unknown_tagged_fields));
        assert(bytes_mut_seq(*buf) == mid + written(s3));
        proof {
            lemma_step(bytes_mut_seq(*old(buf)), w2, s3);
        }
        if r3.is_err() {
            return r3;
        }
        Ok(())
    }
}

#[derive(Debug, PartialEq)]
pub struct DescribeTopicPartitionsResponseTopic {
    /// The topic error, or 0 if there was no error.
    pub error_code: i16,
    /// The topic name.
    pub name: Option<KafkaString>,
    /// The topic id.
    pub topic_id: KafkaUuid,
    /// True if the topic is internal.
    pub is_internal: bool,
    /// Each partition in the topic.
    pub partitions: Vec<DescribeTopicPartitionsResponsePartition>,
    /// 32-bit bitfield to represent authorized operations for this topic.
    pub topic_authorized_operations: i32,
    pub _unknown_tagged_fields: Vec<RawTaggedField>,
}

/// What a `DescribeTopicPartitionsResponseTopic` holds, as the specification sees it.
#[verifier::ext_equal]
pub struct DescribeTopicPartitionsResponseTopicView {
    pub error_code: i16,
    pub name: Option<Seq<u8>>,
    pub topic_id: KafkaUuid,
    pub is_internal: bool,
    pub partitions: Seq<DescribeTopicPartitionsResponsePartitionView>,
    pub topic_authorized_operations: i32,
    pub unknown_tagged_fields: Seq<(u32, Seq<u8>)>,
}

impl View for DescribeTopicPartitionsResponseTopic {
    type V = DescribeTopicPartitionsResponseTopicView;

    open spec fn view(&self) -> DescribeTopicPartitionsResponseTopicView {
        DescribeTopicPartitionsResponseTopicView {
            error_code: self.error_code,
            name: opt_view(self.name),
            topic_id: self.topic_id,
            is_internal: self.is_internal,
            partitions: views(self.partitions@),
            topic_authorized_operations: self.topic_authorized_operations,
            unknown_tagged_fields: views(self._unknown_tagged_fields@),
        }
    }
}

impl Clone for DescribeTopicPartitionsResponseTopic {
    fn clone(&self) -> (r: Self)
        ensures
            r@ == self@,
    {
        let r = DescribeTopicPartitionsResponseTopic {
            error_code: self.error_code,
            name: match &self.name {
                Some(x) => Some(x.clone()),
                None => None,
            },
            topic_id: self.topic_id,
            is_internal: self.is_internal,
            partitions: clone_vec(&self.partitions),
            topic_authorized_operations: self.topic_authorized_operations,
            _unknown_tagged_fields: clone_vec(&self._unknown_tagged_fields),
        };
        assert(r@ =~= self@);
        r
    }
}

impl ViewClone for DescribeTopicPartitionsResponseTopic {
    fn clone_view(&self) -> (r: Self) {
        self.clone()
    }
}

impl Default for DescribeTopicPartitionsResponseTopic {
    fn default() -> (r: Self)
        ensures
            r@ == Self::default_view(),
    {
        let r = DescribeTopicPartitionsResponseTopic {
            error_code: 0_i16,
            name: None,
            topic_id: KafkaUuid::zero(),
            is_internal: false,
            partitions: empty_vec(),
            topic_authorized_operations: i32::MIN,
            _unknown_tagged_fields: empty_vec(),
        };
        assert(r@ =~= Self::default_view());
        r
    }
}

impl DescribeTopicPartitionsResponseTopic {
    pub open spec fn default_view() -> DescribeTopicPartitionsResponseTopicView {
        DescribeTopicPartitionsResponseTopicView {
            error_code: 0_i16,
            name: None,
            topic_id: KafkaUuid { most_significant_bits: 0, least_significant_bits: 0 },
            is_internal: false,
            partitions: Seq::empty(),
            topic_authorized_operations: i32::MIN,
            unknown_tagged_fields: Seq::empty(),
        }
    }

    /// The `error_code` field, read from the front of `s`.
    #[verifier::opaque]
    pub open spec fn spec_read_error_code(s: Seq<u8>, version: i16) -> ReadOutcome<i16> {
        spec_read_i16(s)
    }

    /// The `name` field, read from the front of `s`.
    #[verifier::opaque]
    pub open spec fn spec_read_name(s: Seq<u8>, version: i16) -> ReadOutcome<Option<Seq<u8>>> {
        spec_read_compact_nullable_string(s)
    }

    /// The `topic_id` field, read from the front of `s`.
    #[verifier::opaque]
    pub open spec fn spec_read_topic_id(s: Seq<u8>, version: i16) -> ReadOutcome<KafkaUuid> {
        spec_read_uuid(s)
    }

    /// The `is_internal` field, read from the front of `s`.
    #[verifier::opaque]
    pub open spec fn spec_read_is_internal(s: Seq<u8>, version: i16) -> ReadOutcome<bool> {
        spec_read_bool(s)
    }

    /// The `partitions` field, read from the front of `s`.
    #[verifier::opaque]
    pub open spec fn spec_read_partitions(s: Seq<u8>, version: i16) -> ReadOutcome<Seq<DescribeTopicPartitionsResponsePartitionView>> {
        spec_read_array::<DescribeTopicPartitionsResponsePartition>(s, version, true)
    }

    /// The `topic_authorized_operations` field, read from the front of `s`.
    #[verifier::opaque]
    pub open spec fn spec_read_topic_authorized_operations(s: Seq<u8>, version: i16) -> ReadOutcome<i32> {
        spec_read_i32(s)
    }

    /// The tagged fields, read from the front of `s`.
    #[verifier::opaque]
    pub open spec fn spec_read_tags(s: Seq<u8>, version: i16) -> ReadOutcome<Seq<(u32, Seq<u8>)>> {
        spec_read_tagged_fields(s)
    }

    pub open spec fn spec_read(s: Seq<u8>, version: i16) -> ReadOutcome<DescribeTopicPartitionsResponseTopicView> {
        match (Self::spec_read_error_code(s, version)) {
            Err(e) => Err(e),
            Ok((error_code, s)) => match (Self::spec_read_name(s, version)) {
                Err(e) => Err(e),
                Ok((name, s)) => match (Self::spec_read_topic_id(s, version)) {
                    Err(e) => Err(e),
                    Ok((topic_id, s)) => match (Self::spec_read_is_internal(s, version)) {
                        Err(e) => Err(e),
                        Ok((is_internal, s)) => match (Self::spec_read_partitions(s, version)) {
                            Err(e) => Err(e),
                            Ok((partitions, s)) => match (Self::spec_read_topic_authorized_operations(s, version)) {
                                Err(e) => Err(e),
                                Ok((topic_authorized_operations, s)) => match (Self::spec_read_tags(s, version)) {
                                    Err(e) => Err(e),
                                    Ok((unknown_tagged_fields, s)) => Ok((DescribeTopicPartitionsResponseTopicView {
                                                error_code: error_code,
                                                name: name,
                                                topic_id: topic_id,
                                                is_internal: is_internal,
                                                partitions: partitions,
                                                topic_authorized_operations: topic_authorized_operations,
                                                unknown_tagged_fields: unknown_tagged_fields,
                                            }, s)),
                                },
                            },
                        },
                    },
                },
            },
        }
    }

    /// What writing the `error_code` field of `m` appends.
    #[verifier::opaque]
    pub open spec fn spec_write_error_code(m: DescribeTopicPartitionsResponseTopicView, version: i16) -> WriteOutcome {
        spec_write_i16(m.error_code)
    }

    /// What writing the `name` field of `m` appends.
    #[verifier::opaque]
    pub open spec fn spec_write_name(m: DescribeTopicPartitionsResponseTopicView, version: i16) -> WriteOutcome {
        spec_write_compact_nullable_string(m.name)
    }

    /// What writing the `topic_id` field of `m` appends.
    #[verifier::opaque]
    pub open spec fn spec_write_topic_id(m: DescribeTopicPartitionsResponseTopicView, version: i16) -> WriteOutcome {
        spec_write_uuid(m.topic_id)
    }

    /// What writing the `is_internal` field of `m` appends.
    #[verifier::opaque]
    pub open spec fn spec_write_is_internal(m: DescribeTopicPartitionsResponseTopicView, version: i16) -> WriteOutcome {
        spec_write_bool(m.is_internal)
    }

    /// What writing the `partitions` field of `m` appends.
    #[verifier::opaque]
    pub open spec fn spec_write_partitions(m: DescribeTopicPartitionsResponseTopicView, version: i16) -> WriteOutcome {
        spec_write_array::<DescribeTopicPartitionsResponsePartition>(m.partitions, version, true)
    }

    /// What writing the `topic_authorized_operations` field of `m` appends.
    #[verifier::opaque]
    pub open spec fn spec_write_topic_authorized_operations(m: DescribeTopicPartitionsResponseTopicView, version: i16) -> WriteOutcome {
        spec_write_i32(m.topic_authorized_operations)
    }

    /// What writing the tagged fields of `m` appends.
    #[verifier::opaque]
    pub open spec fn spec_write_tags(m: DescribeTopicPartitionsResponseTopicView, version: i16) -> WriteOutcome {
        spec_write_tagged_fields(sorted_by_tag(m.unknown_tagged_fields))
    }

    pub open spec fn spec_write(m: DescribeTopicPartitionsResponseTopicView, version: i16) -> WriteOutcome {
        chain(
            chain(
                chain(
                    chain(
                        chain(
                            chain(
                                Self::spec_write_error_code(m, version),
                                Self::spec_write_name(m, version),
                            ),
                            Self::spec_write_topic_id(m, version),
                        ),
                        Self::spec_write_is_internal(m, version),
                    ),
                    Self::spec_write_partitions(m, version),
                ),
                Self::spec_write_topic_authorized_operations(m, version),
            ),
            Self::spec_write_tags(m, version),
        )
    }

    /// Whether reading back what writing `m` in `version` appends gives `m`:
    /// fields that the version does not carry hold their default values, and
    /// tagged fields come in the order in which they are written.
    pub open spec fn canonical(m: DescribeTopicPartitionsResponseTopicView, version: i16) -> bool {
        &&& all_canonical::<DescribeTopicPartitionsResponsePartition>(m.partitions, version)
        &&& tags_in_order(m.unknown_tagged_fields)
    }

    proof fn lemma_round_trip_error_code(m: DescribeTopicPartitionsResponseTopicView, version: i16, rest: Seq<u8>)
        requires
            Self::canonical(m, version),
            Self::spec_write_error_code(m, version) is Ok,
        ensures
            Self::spec_read_error_code(written(Self::spec_write_error_code(m, version)) + rest, version) == Ok::<(i16, Seq<u8>), Error>((m.error_code, rest)),
    {
        reveal(DescribeTopicPartitionsResponseTopic::spec_read_error_code);
        reveal(DescribeTopicPartitionsResponseTopic::spec_write_error_code);
        lemma_i16_roundtrip(m.error_code, rest);
    }

    proof fn lemma_round_trip_name(m: DescribeTopicPartitionsResponseTopicView, version: i16, rest: Seq<u8>)
        requires
            Self::canonical(m, version),
            Self::spec_write_name(m, version) is Ok,
        ensures
            Self::spec_read_name(written(Self::spec_write_name(m, version)) + rest, version) == Ok::<(Option<Seq<u8>>, Seq<u8>), Error>((m.name, rest)),
    {
        reveal(DescribeTopicPartitionsResponseTopic::spec_read_name);
        reveal(DescribeTopicPartitionsResponseTopic::spec_write_name);
        lemma_compact_nullable_string_round_trip(m.name, rest);
    }

    proof fn lemma_round_trip_topic_id(m: DescribeTopicPartitionsResponseTopicView, version: i16, rest: Seq<u8>)
        requires
            Self::canonical(m, version),
            Self::spec_write_topic_id(m, version) is Ok,
        ensures
            Self::spec_read_topic_id(written(Self::spec_write_topic_id(m, version)) + rest, version) == Ok::<(KafkaUuid, Seq<u8>), Error>((m.topic_id, rest)),
    {
        reveal(DescribeTopicPartitionsResponseTopic::spec_read_topic_id);
        reveal(DescribeTopicPartitionsResponseTopic::spec_write_topic_id);
        lemma_uuid_round_trip(m.topic_id, rest);
    }

    proof fn lemma_round_trip_is_internal(m: DescribeTopicPartitionsResponseTopicView, version: i16, rest: Seq<u8>)
        requires
            Self::canonical(m, version),
            Self::spec_write_is_internal(m, version) is Ok,
        ensures
            Self::spec_read_is_internal(written(Self::spec_write_is_internal(m, version)) + rest, version) == Ok::<(bool, Seq<u8>), Error>((m.is_internal, rest)),
    {
        reveal(DescribeTopicPartitionsResponseTopic::spec_read_is_internal);
        reveal(DescribeTopicPartitionsResponseTopic::spec_write_is_internal);
        lemma_bool_roundtrip(m.is_internal, rest);
    }

    proof fn lemma_round_trip_partitions(m: DescribeTopicPartitionsResponseTopicView, version: i16, rest: Seq<u8>)
        requires
            Self::canonical(m, version),
            Self::spec_write_partitions(m, version) is Ok,
        ensures
            Self::spec_read_partitions(written(Self::spec_write_partitions(m, version)) + rest, version) == Ok::<(Seq<DescribeTopicPartitionsResponsePartitionView>, Seq<u8>), Error>((m.partitions, rest)),
    {
        reveal(DescribeTopicPartitionsResponseTopic::spec_read_partitions);
        reveal(DescribeTopicPartitionsResponseTopic::spec_write_partitions);
        lemma_array_round_trip::<DescribeTopicPartitionsResponsePartition>(m.partitions, version, true, rest);
    }

    proof fn lemma_round_trip_topic_authorized_operations(m: DescribeTopicPartitionsResponseTopicView, version: i16, rest: Seq<u8>)
        requires
            Self::canonical(m, version),
            Self::spec_write_topic_authorized_operations(m, version) is Ok,
        ensures
            Self::spec_read_topic_authorized_operations(written(Self::spec_write_topic_authorized_operations(m, version)) + rest, version) == Ok::<(i32, Seq<u8>), Error>((m.topic_authorized_operations, rest)),
    {
        reveal(DescribeTopicPartitionsResponseTopic::spec_read_topic_authorized_operations);
        reveal(DescribeTopicPartitionsResponseTopic::spec_write_topic_authorized_operations);
        lemma_i32_roundtrip(m.topic_authorized_operations, rest);
    }

    proof fn lemma_round_trip_tags(m: DescribeTopicPartitionsResponseTopicView, version: i16, rest: Seq<u8>)
        requires
            Self::canonical(m, version),
            Self::spec_write_tags(m, version) is Ok,
        ensures
            Self::spec_read_tags(written(Self::spec_write_tags(m, version)) + rest, version) == Ok::<(Seq<(u32, Seq<u8>)>, Seq<u8>), Error>((m.unknown_tagged_fields, rest)),
    {
        reveal(DescribeTopicPartitionsResponseTopic::spec_read_tags);
        reveal(DescribeTopicPartitionsResponseTopic::spec_write_tags);
        lemma_sorted_by_tag_in_order(m.unknown_tagged_fields);
        lemma_tagged_fields_round_trip(m.unknown_tagged_fields, rest);
    }

    /// Reading back what writing `m` in `version` appends gives `m` again, and
    /// leaves what follows, for every canonical message whose write succeeds.
    #[verifier::rlimit(100)]
    #[verifier::spinoff_prover]
    pub proof fn lemma_round_trip(m: DescribeTopicPartitionsResponseTopicView, version: i16, rest: Seq<u8>)
        requires
            Self::canonical(m, version),
            Self::spec_write(m, version) is Ok,
        ensures
            Self::spec_read(written(Self::spec_write(m, version)) + rest, version) == Ok::<(DescribeTopicPartitionsResponseTopicView, Seq<u8>), Error>((m, rest)),
    {
        let b0 = written(Self::spec_write_error_code(m, version));
        let b1 = written(Self::spec_write_name(m, version));
        let b2 = written(Self::spec_write_topic_id(m, version));
        let b3 = written(Self::spec_write_is_internal(m, version));
        let b4 = written(Self::spec_write_partitions(m, version));
        let b5 = written(Self::spec_write_topic_authorized_operations(m, version));
        let b6 = written(Self::spec_write_tags(m, version));
        let t7 = rest;
        let t6 = b6 + t7;
        let t5 = b5 + t6;
        let t4 = b4 + t5;
        let t3 = b3 + t4;
        let t2 = b2 + t3;
        let t1 = b1 + t2;
        let t0 = b0 + t1;
        let w0 = Self::spec_write_error_code(m, version);
        let w1 = chain(w0, Self::spec_write_name(m, version));
        let w2 = chain(w1, Self::spec_write_topic_id(m, version));
        let w3 = chain(w2, Self::spec_write_is_internal(m, version));
        let w4 = chain(w3, Self::spec_write_partitions(m, version));
        let w5 = chain(w4, Self::spec_write_topic_authorized_operations(m, version));
        let w6 = chain(w5, Self::spec_write_tags(m, version));
        assert(Self::spec_write(m, version) == w6);
        assert(written(w6) + t7 =~= written(w5) + t6);
        assert(written(w5) + t6 =~= written(w4) + t5);
        assert(written(w4) + t5 =~= written(w3) + t4);
        assert(written(w3) + t4 =~= written(w2) + t3);
        assert(written(w2) + t3 =~= written(w1) + t2);
        assert(written(w1) + t2 =~= written(w0) + t1);
        Self::lemma_round_trip_error_code(m, version, t1);
        Self::lemma_round_trip_name(m, version, t2);
        Self::lemma_round_trip_topic_id(m, version, t3);
        Self::lemma_round_trip_is_internal(m, version, t4);
        Self::lemma_round_trip_partitions(m, version, t5);
        Self::lemma_round_trip_topic_authorized_operations(m, version, t6);
        Self::lemma_round_trip_tags(m, version, t7);
    }

    /// The default message holds the default value of each field of the schema.
    pub proof fn lemma_default_values()
        ensures
            Self::default_view().error_code == (0_i16),
            (Self::default_view().name is None),
            Self::default_view().topic_id == (KafkaUuid { most_significant_bits: 0, least_significant_bits: 0 }),
            Self::default_view().is_internal == (false),
            Self::default_view().partitions.len() == 0,
            Self::default_view().topic_authorized_operations == (i32::MIN),
            Self::default_view().unknown_tagged_fields.len() == 0,
    {
    }

    /// Each integer, boolean and identifier field is written as its standard
    /// big-endian bytes (a boolean as `1` or `0`) in the versions that carry
    /// it, and as nothing in the others; reading it takes those bytes back (any
    /// byte other than `0` reads as `true`), or gives its default value.
    pub proof fn lemma_field_encodings(m: DescribeTopicPartitionsResponseTopicView, s: Seq<u8>, version: i16)
        ensures
            true ==> Self::spec_write_error_code(m, version) == Ok::<Seq<u8>, (Error, Seq<u8>)>(u16_bytes(m.error_code as u16)),
            true ==> Self::spec_write_topic_id(m, version) == Ok::<Seq<u8>, (Error, Seq<u8>)>((u64_bytes(m.topic_id.most_significant_bits) + u64_bytes(m.topic_id.least_significant_bits))),
            true ==> Self::spec_write_is_internal(m, version) == Ok::<Seq<u8>, (Error, Seq<u8>)>(seq![if m.is_internal { 1u8 } else { 0u8 }]),
            true ==> Self::spec_write_topic_authorized_operations(m, version) == Ok::<Seq<u8>, (Error, Seq<u8>)>(u32_bytes(m.topic_authorized_operations as u32)),
            true ==> Self::spec_read_error_code(s, version) == spec_read_i16(s),
            true ==> Self::spec_read_topic_id(s, version) == spec_read_uuid(s),
            true ==> Self::spec_read_is_internal(s, version) == (if s.len() < 1 { Err(Error::UnexpectedEof) } else { Ok((s[0] != 0, s.drop_first())) }),
            true ==> Self::spec_read_topic_authorized_operations(s, version) == spec_read_i32(s),
    {
        reveal(DescribeTopicPartitionsResponseTopic::spec_write_error_code);
        reveal(DescribeTopicPartitionsResponseTopic::spec_read_error_code);
        reveal(DescribeTopicPartitionsResponseTopic::spec_write_topic_id);
        reveal(DescribeTopicPartitionsResponseTopic::spec_read_topic_id);
        reveal(DescribeTopicPartitionsResponseTopic::spec_write_is_internal);
        reveal(DescribeTopicPartitionsResponseTopic::spec_read_is_internal);
        reveal(DescribeTopicPartitionsResponseTopic::spec_write_topic_authorized_operations);
        reveal(DescribeTopicPartitionsResponseTopic::spec_read_topic_authorized_operations);
    }

    /// Whether writing `m` in `version` succeeds, said over its parts: the
    /// version is one the schema covers, every field that the version cannot
    /// carry holds its default value, and every string, byte string, array and
    /// tagged field fits its length prefix.
    pub open spec fn writable(m: DescribeTopicPartitionsResponseTopicView, version: i16) -> bool {
        &&& (m.name matches Some(b) ==> b.len() <= 0x7fff)
        &&& (m.partitions.len() <= i32::MAX && all_writable::<DescribeTopicPartitionsResponsePartition>(m.partitions, version))
        &&& m.unknown_tagged_fields.len() <= u32::MAX && tags_fit(m.unknown_tagged_fields)
    }

    proof fn lemma_writable_error_code(m: DescribeTopicPartitionsResponseTopicView, version: i16)
        ensures
            Self::spec_write_error_code(m, version) is Ok <==> true,
    {
        reveal(DescribeTopicPartitionsResponseTopic::spec_write_error_code);
    }

    proof fn lemma_writable_name(m: DescribeTopicPartitionsResponseTopicView, version: i16)
        ensures
            Self::spec_write_name(m, version) is Ok <==> (m.name matches Some(b) ==> b.len() <= 0x7fff),
    {
        reveal(DescribeTopicPartitionsResponseTopic::spec_write_name);
    }

    proof fn lemma_writable_topic_id(m: DescribeTopicPartitionsResponseTopicView, version: i16)
        ensures
            Self::spec_write_topic_id(m, version) is Ok <==> true,
    {
        reveal(DescribeTopicPartitionsResponseTopic::spec_write_topic_id);
    }

    proof fn lemma_writable_is_internal(m: DescribeTopicPartitionsResponseTopicView, version: i16)
        ensures
            Self::spec_write_is_internal(m, version) is Ok <==> true,
    {
        reveal(DescribeTopicPartitionsResponseTopic::spec_write_is_internal);
    }

    proof fn lemma_writable_partitions(m: DescribeTopicPartitionsResponseTopicView, version: i16)
        ensures
            Self::spec_write_partitions(m, version) is Ok <==> (m.partitions.len() <= i32::MAX && all_writable::<DescribeTopicPartitionsResponsePartition>(m.partitions, version)),
    {
        reveal(DescribeTopicPartitionsResponseTopic::spec_write_partitions);
        lemma_array_writable::<DescribeTopicPartitionsResponsePartition>(m.partitions, version, true);
    }

    proof fn lemma_writable_topic_authorized_operations(m: DescribeTopicPartitionsResponseTopicView, version: i16)
        ensures
            Self::spec_write_topic_authorized_operations(m, version) is Ok <==> true,
    {
        reveal(DescribeTopicPartitionsResponseTopic::spec_write_topic_authorized_operations);
    }

    proof fn lemma_writable_tags(m: DescribeTopicPartitionsResponseTopicView, version: i16)
        ensures
            Self::spec_write_tags(m, version) is Ok <==> m.unknown_tagged_fields.len() <= u32::MAX && tags_fit(m.unknown_tagged_fields),
    {
        reveal(DescribeTopicPartitionsResponseTopic::spec_write_tags);
        lemma_sorted_tags_fit(m.unknown_tagged_fields);
        lemma_tagged_fields_writable(sorted_by_tag(m.unknown_tagged_fields));
    }

    /// Writing `m` in `version` succeeds exactly when `m` is writable in it;
    /// so do `write` and `encoded_len`, whose results follow `spec_write`.
    #[verifier::rlimit(72)]
    pub proof fn lemma_writable(m: DescribeTopicPartitionsResponseTopicView, version: i16)
        ensures
            Self::spec_write(m, version) is Ok <==> Self::writable(m, version),
    {
        Self::lemma_writable_error_code(m, version);
        Self::lemma_writable_name(m, version);
        Self::lemma_writable_topic_id(m, version);
        Self::lemma_writable_is_internal(m, version);
        Self::lemma_writable_partitions(m, version);
        Self::lemma_writable_topic_authorized_operations(m, version);
        Self::lemma_writable_tags(m, version);
    }

    fn read_error_code(buf: &mut Bytes, version: i16) -> (r: Result<i16, Error>)
        ensures
            read_as(Self::spec_read_error_code(bytes_seq(*old(buf)), version), *final(buf), r),
            took_front(*old(buf), *final(buf)),
    {
        proof {
            reveal(DescribeTopicPartitionsResponseTopic::spec_read_error_code);
        }
        Ok(read_i16(buf)?)
    }

    fn read_name(buf: &mut Bytes, version: i16) -> (r: Result<Option<KafkaString>, Error>)
        ensures
            read_opt_as(Self::spec_read_name(bytes_seq(*old(buf)), version), *final(buf), r),
            took_front(*old(buf), *final(buf)),
    {
        proof {
            reveal(DescribeTopicPartitionsResponseTopic::spec_read_name);
        }
        Ok(read_compact_nullable_string(buf)?)
    }

    fn read_topic_id(buf: &mut Bytes, version: i16) -> (r: Result<KafkaUuid, Error>)
        ensures
            read_as(Self::spec_read_topic_id(bytes_seq(*old(buf)), version), *final(buf), r),
            took_front(*old(buf), *final(buf)),
    {
        proof {
            reveal(DescribeTopicPartitionsResponseTopic::spec_read_topic_id);
        }
        Ok(read_uuid(buf)?)
    }

    fn read_is_internal(buf: &mut Bytes, version: i16) -> (r: Result<bool, Error>)
        ensures
            read_as(Self::spec_read_is_internal(bytes_seq(*old(buf)), version), *final(buf), r),
            took_front(*old(buf), *final(buf)),
    {
        proof {
            reveal(DescribeTopicPartitionsResponseTopic::spec_read_is_internal);
        }
        Ok(read_bool(buf)?)
    }

    fn read_partitions(buf: &mut Bytes, version: i16) -> (r: Result<Vec<DescribeTopicPartitionsResponsePartition>, Error>)
        ensures
            read_vec_as(Self::spec_read_partitions(bytes_seq(*old(buf)), version), *final(buf), r),
            took_front(*old(buf), *final(buf)),
    {
        proof {
            reveal(DescribeTopicPartitionsResponseTopic::spec_read_partitions);
        }
        Ok(read_array::<DescribeTopicPartitionsResponsePartition>(buf, version, true)?)
    }

    fn read_topic_authorized_operations(buf: &mut Bytes, version: i16) -> (r: Result<i32, Error>)
        ensures
            read_as(Self::spec_read_topic_authorized_operations(bytes_seq(*old(buf)), version), *final(buf), r),
            took_front(*old(buf), *final(buf)),
    {
        proof {
            reveal(DescribeTopicPartitionsResponseTopic::spec_read_topic_authorized_operations);
        }
        Ok(read_i32(buf)?)
    }

    fn read_tags(buf: &mut Bytes, version: i16) -> (r: Result<Vec<RawTaggedField>, Error>)
        ensures
            read_vec_as(Self::spec_read_tags(bytes_seq(*old(buf)), version), *final(buf), r),
            took_front(*old(buf), *final(buf)),
    {
        proof {
            reveal(DescribeTopicPartitionsResponseTopic::spec_read_tags);
        }
        Ok(read_tagged_fields(buf)?)
    }

    #[verifier::rlimit(62)]
    #[verifier::spinoff_prover]
    pub fn read(buf: &mut Bytes, version: i16) -> (r: Result<Self, Error>)
        ensures
            read_as(Self::spec_read(bytes_seq(*old(buf)), version), *final(buf), r),
            took_front(*old(buf), *final(buf)),
    {
        let error_code = Self::read_error_code(buf, version)?;
        let name = Self::read_name(buf, version)?;
        let topic_id = Self::read_topic_id(buf, version)?;
        let is_internal = Self::read_is_internal(buf, version)?;
        let partitions = Self::read_partitions(buf, version)?;
        let topic_authorized_operations = Self::read_topic_authorized_operations(buf, version)?;
        let _unknown_tagged_fields = Self::read_tags(buf, version)?;
        Ok(DescribeTopicPartitionsResponseTopic {
                error_code: error_code,
                name: name,
                topic_id: topic_id,
                is_internal: is_internal,
                partitions: partitions,
                topic_authorized_operations: topic_authorized_operations,
                _unknown_tagged_fields: _unknown_tagged_fields,
        })
    }

    #[verifier::rlimit(100)]
    #[verifier::spinoff_prover]
    pub fn write(&self, buf: &mut BytesMut, version: i16) -> (r: Result<(), Error>)
        requires
            has_room(Self::spec_write(self@, version), *old(buf)),
        ensures
            wrote(Self::spec_write(self@, version), *old(buf), *final(buf), r),
    {
        let ghost m = self@;
        proof {
            reveal(DescribeTopicPartitionsResponseTopic::spec_write_error_code);
            reveal(DescribeTopicPartitionsResponseTopic::spec_write_name);
            reveal(DescribeTopicPartitionsResponseTopic::spec_write_topic_id);
            reveal(DescribeTopicPartitionsResponseTopic::spec_write_is_internal);
            reveal(DescribeTopicPartitionsResponseTopic::spec_write_partitions);
            reveal(DescribeTopicPartitionsResponseTopic::spec_write_topic_authorized_operations);
            reveal(DescribeTopicPartitionsResponseTopic::spec_write_tags);
        }
        let ghost s0 = Self::spec_write_error_code(m, version);
        let ghost w0 = s0;
        let ghost s1 = Self::spec_write_name(m, version);
        let ghost w1 = chain(w0, s1);
        let ghost s2 = Self::spec_write_topic_id(m, version);
        let ghost w2 = chain(w1, s2);
        let ghost s3 = Self::spec_write_is_internal(m, version);
        let ghost w3 = chain(w2, s3);
        let ghost s4 = Self::spec_write_partitions(m, version);
        let ghost w4 = chain(w3, s4);
        let ghost s5 = Self::spec_write_topic_authorized_operations(m, version);
        let ghost w5 = chain(w4, s5);
        let ghost s6 = Self::spec_write_tags(m, version);
        let ghost w6 = chain(w5, s6);
        assert(Self::spec_write(m, version) == w6);
        assert(written(w5).len() <= written(w6).len() && (w5 is Err ==> w6 == w5));
        assert(written(w4).len() <= written(w6).len() && (w4 is Err ==> w6 == w4));
        assert(written(w3).len() <= written(w6).len() && (w3 is Err ==> w6 == w3));
        assert(written(w2).len() <= written(w6).len() && (w2 is Err ==> w6 == w2));
        assert(written(w1).len() <= written(w6).len() && (w1 is Err ==> w6 == w1));
        assert(written(w0).len() <= written(w6).len() && (w0 is Err ==> w6 == w0));
        let ghost mid = bytes_mut_seq(*buf);
        proof {
            lemma_append_empty(mid);
        }
        let r0 = {
            write_i16(buf, self.error_code);
            Ok(())
        };
        assert(bytes_mut_seq(*buf) == mid + written(s0));
        if r0.is_err() {
            return r0;
        }
        let ghost mid = bytes_mut_seq(*buf);
        proof {
            lemma_append_empty(mid);
        }
        let r1 = write_compact_nullable_string(buf, &self.name);
        assert(bytes_mut_seq(*buf) == mid + written(s1));
        proof {
            lemma_step(bytes_mut_seq(*old(buf)), w0, s1);
        }
        if r1.is_err() {
            return r1;
        }
        let ghost mid = bytes_mut_seq(*buf);
        proof {
            lemma_append_empty(mid);
        }
        let r2 = {
            write_uuid(buf, self.topic_id);
            Ok(())
        };
        assert(bytes_mut_seq(*buf) == mid + written(s2));
        proof {
            lemma_step(bytes_mut_seq(*old(buf)), w1, s2);
        }
        if r2.is_err() {
            return r2;
        }
        let ghost mid = bytes_mut_seq(*buf);
        proof {
            lemma_append_empty(mid);
        }
        let r3 = {
            write_bool(buf, self.is_internal);
            Ok(())
        };
        assert(bytes_mut_seq(*buf) == mid + written(s3));
        proof {
            lemma_step(bytes_mut_seq(*old(buf)), w2, s3);
        }
        if r3.is_err() {
            return r3;
        }
        let ghost mid = bytes_mut_seq(*buf);
        proof {
            lemma_append_empty(mid);
        }
        let r4 = write_array::<DescribeTopicPartitionsResponsePartition>(buf, &self.partitions, version, true);
        assert(bytes_mut_seq(*buf) == mid + written(s4));
        proof {
            lemma_step(bytes_mut_seq(*old(buf)), w3, s4);
        }
        if r4.is_err() {
            return r4;
        }
        let ghost mid = bytes_mut_seq(*buf);
        proof {
            lemma_append_empty(mid);
        }
        let r5 = {
            write_i32(buf, self.topic_authorized_operations);
            Ok(())
        };
        assert(bytes_mut_seq(*buf) == mid + written(s5));
        proof {
            lemma_step(bytes_mut_seq(*old(buf)), w4, s5);
        }
        if r5.is_err() {
            return r5;
        }
        let ghost mid = bytes_mut_seq(*buf);
        proof {
            lemma_append_empty(mid);
        }
        let r6 = write_tagged_fields(buf, &sort_by_tag(&self._unknown_tagged_fields));
        assert(bytes_mut_seq(*buf) == mid + written(s6));
        proof {
            lemma_step(bytes_mut_seq(*old(buf)), w5, s6);
        }
        if r6.is_err() {
            return r6;
        }
        Ok(())
    }
}

#[derive(Debug, PartialEq)]
pub struct DescribeTopicPartitionsResponsePartition {
    /// The partition error, or 0 if there was no error.
    pub error_code: i16,
    /// The partition index.
    pub partition_index: i32,
    /// The ID of the leader broker.
    pub leader_id: i32,
    /// The leader epoch of this partition.
    pub leader_epoch: i32,
    /// The set of all nodes that host this partition.
    pub replica_nodes: Vec<i32>,
    /// The set of nodes that are in sync with the leader for this partition.
    pub isr_nodes: Vec<i32>,
    /// The new eligible leader replicas otherwise.
    pub eligible_leader_replicas: Option<Vec<i32>>,
    /// The last known ELR.
    pub last_known_elr: Option<Vec<i32>>,
    /// The set of offline replicas of this partition.
    pub offline_replicas: Vec<i32>,
    pub _unknown_tagged_fields: Vec<RawTaggedField>,
}

/// What a `DescribeTopicPartitionsResponsePartition` holds, as the specification sees it.
#[verifier::ext_equal]
pub struct DescribeTopicPartitionsResponsePartitionView {
    pub error_code: i16,
    pub partition_index: i32,
    pub leader_id: i32,
    pub leader_epoch: i32,
    pub replica_nodes: Seq<i32>,
    pub isr_nodes: Seq<i32>,
    pub eligible_leader_replicas: Option<Seq<i32>>,
    pub last_known_elr: Option<Seq<i32>>,
    pub offline_replicas: Seq<i32>,
    pub unknown_tagged_fields: Seq<(u32, Seq<u8>)>,
}

impl View for DescribeTopicPartitionsResponsePartition {
    type V = DescribeTopicPartitionsResponsePartitionView;

    open spec fn view(&self) -> DescribeTopicPartitionsResponsePartitionView {
        DescribeTopicPartitionsResponsePartitionView {
            error_code: self.error_code,
            partition_index: self.partition_index,
            leader_id: self.leader_id,
            leader_epoch: self.leader_epoch,
            replica_nodes: views(self.replica_nodes@),
            isr_nodes: views(self.isr_nodes@),
            eligible_leader_replicas: opt_views(self.eligible_leader_replicas),
            last_known_elr: opt_views(self.last_known_elr),
            offline_replicas: views(self.offline_replicas@),
            unknown_tagged_fields: views(self._unknown_tagged_fields@),
        }
    }
}

impl Clone for DescribeTopicPartitionsResponsePartition {
    fn clone(&self) -> (r: Self)
        ensures
            r@ == self@,
    {
        let r = DescribeTopicPartitionsResponsePartition {
            error_code: self.error_code,
            partition_index: self.partition_index,
            leader_id: self.leader_id,
            leader_epoch: self.leader_epoch,
            replica_nodes: clone_vec(&self.replica_nodes),
            isr_nodes: clone_vec(&self.isr_nodes),
            eligible_leader_replicas: match &self.eligible_leader_replicas {
                Some(x) => Some(clone_vec(x)),
                None => None,
            },
            last_known_elr: match &self.last_known_elr {
                Some(x) => Some(clone_vec(x)),
                None => None,
            },
            offline_replicas: clone_vec(&self.offline_replicas),
            _unknown_tagged_fields: clone_vec(&self._unknown_tagged_fields),
        };
        assert(r@ =~= self@);
        r
    }
}

impl ViewClone for DescribeTopicPartitionsResponsePartition {
    fn clone_view(&self) -> (r: Self) {
        self.clone()
    }
}

impl Default for DescribeTopicPartitionsResponsePartition {
    fn default() -> (r: Self)
        ensures
            r@ == Self::default_view(),
    {
        let r = DescribeTopicPartitionsResponsePartition {
            error_code: 0_i16,
            partition_index: 0_i32,
            leader_id: 0_i32,
            leader_epoch: -1i32,
            replica_nodes: empty_vec(),
            isr_nodes: empty_vec(),
            eligible_leader_replicas: None,
            last_known_elr: None,
            offline_replicas: empty_vec(),
            _unknown_tagged_fields: empty_vec(),
        };
        assert(r@ =~= Self::default_view());
        r
    }
}

impl DescribeTopicPartitionsResponsePartition {
    pub open spec fn default_view() -> DescribeTopicPartitionsResponsePartitionView {
        DescribeTopicPartitionsResponsePartitionView {
            error_code: 0_i16,
            partition_index: 0_i32,
            leader_id: 0_i32,
            leader_epoch: -1i32,
            replica_nodes: Seq::empty(),
            isr_nodes: Seq::empty(),
            eligible_leader_replicas: None,
            last_known_elr: None,
            offline_replicas: Seq::empty(),
            unknown_tagged_fields: Seq::empty(),
        }
    }

    /// The `error_code` field, read from the front of `s`.
    #[verifier::opaque]
    pub open spec fn spec_read_error_code(s: Seq<u8>, version: i16) -> ReadOutcome<i16> {
        spec_read_i16(s)
    }

    /// The `partition_index` field, read from the front of `s`.
    #[verifier::opaque]
    pub open spec fn spec_read_partition_index(s: Seq<u8>, version: i16) -> ReadOutcome<i32> {
        spec_read_i32(s)
    }

    /// The `leader_id` field, read from the front of `s`.
    #[verifier::opaque]
    pub open spec fn spec_read_leader_id(s: Seq<u8>, version: i16) -> ReadOutcome<i32> {
        spec_read_i32(s)
    }

    /// The `leader_epoch` field, read from the front of `s`.
    #[verifier::opaque]
    pub open spec fn spec_read_leader_epoch(s: Seq<u8>, version: i16) -> ReadOutcome<i32> {
        spec_read_i32(s)
    }

    /// The `replica_nodes` field, read from the front of `s`.
    #[verifier::opaque]
    pub open spec fn spec_read_replica_nodes(s: Seq<u8>, version: i16) -> ReadOutcome<Seq<i32>> {
        spec_read_array::<Int32Item>(s, version, true)
    }

    /// The `isr_nodes` field, read from the front of `s`.
    #[verifier::opaque]
    pub open spec fn spec_read_isr_nodes(s: Seq<u8>, version: i16) -> ReadOutcome<Seq<i32>> {
        spec_read_array::<Int32Item>(s, version, true)
    }

    /// The `eligible_leader_replicas` field, read from the front of `s`.
    #[verifier::opaque]
    pub open spec fn spec_read_eligible_leader_replicas(s: Seq<u8>, version: i16) -> ReadOutcome<Option<Seq<i32>>> {
        spec_read_nullable_array::<Int32Item>(s, version, true)
    }

    /// The `last_known_elr` field, read from the front of `s`.
    #[verifier::opaque]
    pub open spec fn spec_read_last_known_elr(s: Seq<u8>, version: i16) -> ReadOutcome<Option<Seq<i32>>> {
        spec_read_nullable_array::<Int32Item>(s, version, true)
    }

    /// The `offline_replicas` field, read from the front of `s`.
    #[verifier::opaque]
    pub open spec fn spec_read_offline_replicas(s: Seq<u8>, version: i16) -> ReadOutcome<Seq<i32>> {
        spec_read_array::<Int32Item>(s, version, true)
    }

    /// The tagged fields, read from the front of `s`.
    #[verifier::opaque]
    pub open spec fn spec_read_tags(s: Seq<u8>, version: i16) -> ReadOutcome<Seq<(u32, Seq<u8>)>> {
        spec_read_tagged_fields(s)
    }

    pub open spec fn spec_read(s: Seq<u8>, version: i16) -> ReadOutcome<DescribeTopicPartitionsResponsePartitionView> {
        match (Self::spec_read_error_code(s, version)) {
            Err(e) => Err(e),
            Ok((error_code, s)) => match (Self::spec_read_partition_index(s, version)) {
                Err(e) => Err(e),
                Ok((partition_index, s)) => match (Self::spec_read_leader_id(s, version)) {
                    Err(e) => Err(e),
                    Ok((leader_id, s)) => match (Self::spec_read_leader_epoch(s, version)) {
                        Err(e) => Err(e),
                        Ok((leader_epoch, s)) => match (Self::spec_read_replica_nodes(s, version)) {
                            Err(e) => Err(e),
                            Ok((replica_nodes, s)) => match (Self::spec_read_isr_nodes(s, version)) {
                                Err(e) => Err(e),
                                Ok((isr_nodes, s)) => match (Self::spec_read_eligible_leader_replicas(s, version)) {
                                    Err(e) => Err(e),
                                    Ok((eligible_leader_replicas, s)) => match (Self::spec_read_last_known_elr(s, version)) {
                                        Err(e) => Err(e),
                                        Ok((last_known_elr, s)) => match (Self::spec_read_offline_replicas(s, version)) {
                                            Err(e) => Err(e),
                                            Ok((offline_replicas, s)) => match (Self::spec_read_tags(s, version)) {
                                                Err(e) => Err(e),
                                                Ok((unknown_tagged_fields, s)) => Ok((DescribeTopicPartitionsResponsePartitionView {
                                                            error_code: error_code,
                                                            partition_index: partition_index,
                                                            leader_id: leader_id,
                                                            leader_epoch: leader_epoch,
                                                            replica_nodes: replica_nodes,
                                                            isr_nodes: isr_nodes,
                                                            eligible_leader_replicas: eligible_leader_replicas,
                                                            last_known_elr: last_known_elr,
                                                            offline_replicas: offline_replicas,
                                                            unknown_tagged_fields: unknown_tagged_fields,
                                                        }, s)),
                                            },
                                        },
                                    },
                                },
                            },
                        },
                    },
                },
            },
        }
    }

    /// What writing the `error_code` field of `m` appends.
    #[verifier::opaque]
    pub open spec fn spec_write_error_code(m: DescribeTopicPartitionsResponsePartitionView, version: i16) -> WriteOutcome {
        spec_write_i16(m.error_code)
    }

    /// What writing the `partition_index` field of `m` appends.
    #[verifier::opaque]
    pub open spec fn spec_write_partition_index(m: DescribeTopicPartitionsResponsePartitionView, version: i16) -> WriteOutcome {
        spec_write_i32(m.partition_index)
    }

    /// What writing the `leader_id` field of `m` appends.
    #[verifier::opaque]
    pub open spec fn spec_write_leader_id(m: DescribeTopicPartitionsResponsePartitionView, version: i16) -> WriteOutcome {
        spec_write_i32(m.leader_id)
    }

    /// What writing the `leader_epoch` field of `m` appends.
    #[verifier::opaque]
    pub open spec fn spec_write_leader_epoch(m: DescribeTopicPartitionsResponsePartitionView, version: i16) -> WriteOutcome {
        spec_write_i32(m.leader_epoch)
    }

    /// What writing the `replica_nodes` field of `m` appends.
    #[verifier::opaque]
    pub open spec fn spec_write_replica_nodes(m: DescribeTopicPartitionsResponsePartitionView, version: i16) -> WriteOutcome {
        spec_write_array::<Int32Item>(m.replica_nodes, version, true)
    }

    /// What writing the `isr_nodes` field of `m` appends.
    #[verifier::opaque]
    pub open spec fn spec_write_isr_nodes(m: DescribeTopicPartitionsResponsePartitionView, version: i16) -> WriteOutcome {
        spec_write_array::<Int32Item>(m.isr_nodes, version, true)
    }

    /// What writing the `eligible_leader_replicas` field of `m` appends.
    #[verifier::opaque]
    pub open spec fn spec_write_eligible_leader_replicas(m: DescribeTopicPartitionsResponsePartitionView, version: i16) -> WriteOutcome {
        spec_write_nullable_array::<Int32Item>(m.eligible_leader_replicas, version, true, -1i32)
    }

    /// What writing the `last_known_elr` field of `m` appends.
    #[verifier::opaque]
    pub open spec fn spec_write_last_known_elr(m: DescribeTopicPartitionsResponsePartitionView, version: i16) -> WriteOutcome {
        spec_write_nullable_array::<Int32Item>(m.last_known_elr, version, true, -1i32)
    }

    /// What writing the `offline_replicas` field of `m` appends.
    #[verifier::opaque]
    pub open spec fn spec_write_offline_replicas(m: DescribeTopicPartitionsResponsePartitionView, version: i16) -> WriteOutcome {
        spec_write_array::<Int32Item>(m.offline_replicas, version, true)
    }

    /// What writing the tagged fields of `m` appends.
    #[verifier::opaque]
    pub open spec fn spec_write_tags(m: DescribeTopicPartitionsResponsePartitionView, version: i16) -> WriteOutcome {
        spec_write_tagged_fields(sorted_by_tag(m.unknown_tagged_fields))
    }

    pub open spec fn spec_write(m: DescribeTopicPartitionsResponsePartitionView, version: i16) -> WriteOutcome {
        chain(
            chain(
                chain(
                    chain(
                        chain(
                            chain(
                                chain(
                                    chain(
                                        chain(
                                            Self::spec_write_error_code(m, version),
                                            Self::spec_write_partition_index(m, version),
                                        ),
                                        Self::spec_write_leader_id(m, version),
                                    ),
                                    Self::spec_write_leader_epoch(m, version),
                                ),
                                Self::spec_write_replica_nodes(m, version),
                            ),
                            Self::spec_write_isr_nodes(m, version),
                        ),
                        Self::spec_write_eligible_leader_replicas(m, version),
                    ),
                    Self::spec_write_last_known_elr(m, version),
                ),
                Self::spec_write_offline_replicas(m, version),
            ),
            Self::spec_write_tags(m, version),
        )
    }

    /// Whether reading back what writing `m` in `version` appends gives `m`:
    /// fields that the version does not carry hold their default values, and
    /// tagged fields come in the order in which they are written.
    pub open spec fn canonical(m: DescribeTopicPartitionsResponsePartitionView, version: i16) -> bool {
        &&& tags_in_order(m.unknown_tagged_fields)
    }

    proof fn lemma_round_trip_error_code(m: DescribeTopicPartitionsResponsePartitionView, version: i16, rest: Seq<u8>)
        requires
            Self::canonical(m, version),
            Self::spec_write_error_code(m, version) is Ok,
        ensures
            Self::spec_read_error_code(written(Self::spec_write_error_code(m, version)) + rest, version) == Ok::<(i16, Seq<u8>), Error>((m.error_code, rest)),
    {
        reveal(DescribeTopicPartitionsResponsePartition::spec_read_error_code);
        reveal(DescribeTopicPartitionsResponsePartition::spec_write_error_code);
        lemma_i16_roundtrip(m.error_code, rest);
    }

    proof fn lemma_round_trip_partition_index(m: DescribeTopicPartitionsResponsePartitionView, version: i16, rest: Seq<u8>)
        requires
            Self::canonical(m, version),
            Self::spec_write_partition_index(m, version) is Ok,
        ensures
            Self::spec_read_partition_index(written(Self::spec_write_partition_index(m, version)) + rest, version) == Ok::<(i32, Seq<u8>), Error>((m.partition_index, rest)),
    {
        reveal(DescribeTopicPartitionsResponsePartition::spec_read_partition_index);
        reveal(DescribeTopicPartitionsResponsePartition::spec_write_partition_index);
        lemma_i32_roundtrip(m.partition_index, rest);
    }

    proof fn lemma_round_trip_leader_id(m: DescribeTopicPartitionsResponsePartitionView, version: i16, rest: Seq<u8>)
        requires
            Self::canonical(m, version),
            Self::spec_write_leader_id(m, version) is Ok,
        ensures
            Self::spec_read_leader_id(written(Self::spec_write_leader_id(m, version)) + rest, version) == Ok::<(i32, Seq<u8>), Error>((m.leader_id, rest)),
    {
        reveal(DescribeTopicPartitionsResponsePartition::spec_read_leader_id);
        reveal(DescribeTopicPartitionsResponsePartition::spec_write_leader_id);
        lemma_i32_roundtrip(m.leader_id, rest);
    }

    proof fn lemma_round_trip_leader_epoch(m: DescribeTopicPartitionsResponsePartitionView, version: i16, rest: Seq<u8>)
        requires
            Self::canonical(m, version),
            Self::spec_write_leader_epoch(m, version) is Ok,
        ensures
            Self::spec_read_leader_epoch(written(Self::spec_write_leader_epoch(m, version)) + rest, version) == Ok::<(i32, Seq<u8>), Error>((m.leader_epoch, rest)),
    {
        reveal(DescribeTopicPartitionsResponsePartition::spec_read_leader_epoch);
        reveal(DescribeTopicPartitionsResponsePartition::spec_write_leader_epoch);
        lemma_i32_roundtrip(m.leader_epoch, rest);
    }

    proof fn lemma_round_trip_replica_nodes(m: DescribeTopicPartitionsResponsePartitionView, version: i16, rest: Seq<u8>)
        requires
            Self::canonical(m, version),
            Self::spec_write_replica_nodes(m, version) is Ok,
        ensures
            Self::spec_read_replica_nodes(written(Self::spec_write_replica_nodes(m, version)) + rest, version) == Ok::<(Seq<i32>, Seq<u8>), Error>((m.replica_nodes, rest)),
    {
        reveal(DescribeTopicPartitionsResponsePartition::spec_read_replica_nodes);
        reveal(DescribeTopicPartitionsResponsePartition::spec_write_replica_nodes);
        lemma_array_round_trip::<Int32Item>(m.replica_nodes, version, true, rest);
    }

    proof fn lemma_round_trip_isr_nodes(m: DescribeTopicPartitionsResponsePartitionView, version: i16, rest: Seq<u8>)
        requires
            Self::canonical(m, version),
            Self::spec_write_isr_nodes(m, version) is Ok,
        ensures
            Self::spec_read_isr_nodes(written(Self::spec_write_isr_nodes(m, version)) + rest, version) == Ok::<(Seq<i32>, Seq<u8>), Error>((m.isr_nodes, rest)),
    {
        reveal(DescribeTopicPartitionsResponsePartition::spec_read_isr_nodes);
        reveal(DescribeTopicPartitionsResponsePartition::spec_write_isr_nodes);
        lemma_array_round_trip::<Int32Item>(m.isr_nodes, version, true, rest);
    }

    proof fn lemma_round_trip_eligible_leader_replicas(m: DescribeTopicPartitionsResponsePartitionView, version: i16, rest: Seq<u8>)
        requires
            Self::canonical(m, version),
            Self::spec_write_eligible_leader_replicas(m, version) is Ok,
        ensures
            Self::spec_read_eligible_leader_replicas(written(Self::spec_write_eligible_leader_replicas(m, version)) + rest, version) == Ok::<(Option<Seq<i32>>, Seq<u8>), Error>((m.eligible_leader_replicas, rest)),
    {
        reveal(DescribeTopicPartitionsResponsePartition::spec_read_eligible_leader_replicas);
        reveal(DescribeTopicPartitionsResponsePartition::spec_write_eligible_leader_replicas);
        lemma_nullable_array_round_trip::<Int32Item>(m.eligible_leader_replicas, version, true, -1i32, rest);
    }

    proof fn lemma_round_trip_last_known_elr(m: DescribeTopicPartitionsResponsePartitionView, version: i16, rest: Seq<u8>)
        requires
            Self::canonical(m, version),
            Self::spec_write_last_known_elr(m, version) is Ok,
        ensures
            Self::spec_read_last_known_elr(written(Self::spec_write_last_known_elr(m, version)) + rest, version) == Ok::<(Option<Seq<i32>>, Seq<u8>), Error>((m.last_known_elr, rest)),
    {
        reveal(DescribeTopicPartitionsResponsePartition::spec_read_last_known_elr);
        reveal(DescribeTopicPartitionsResponsePartition::spec_write_last_known_elr);
        lemma_nullable_array_round_trip::<Int32Item>(m.last_known_elr, version, true, -1i32, rest);
    }

    proof fn lemma_round_trip_offline_replicas(m: DescribeTopicPartitionsResponsePartitionView, version: i16, rest: Seq<u8>)
        requires
            Self::canonical(m, version),
            Self::spec_write_offline_replicas(m, version) is Ok,
        ensures
            Self::spec_read_offline_replicas(written(Self::spec_write_offline_replicas(m, version)) + rest, version) == Ok::<(Seq<i32>, Seq<u8>), Error>((m.offline_replicas, rest)),
    {
        reveal(DescribeTopicPartitionsResponsePartition::spec_read_offline_replicas);
        reveal(DescribeTopicPartitionsResponsePartition::spec_write_offline_replicas);
        lemma_array_round_trip::<Int32Item>(m.offline_replicas, version, true, rest);
    }

    proof fn lemma_round_trip_tags(m: DescribeTopicPartitionsResponsePartitionView, version: i16, rest: Seq<u8>)
        requires
            Self::canonical(m, version),
            Self::spec_write_tags(m, version) is Ok,
        ensures
            Self::spec_read_tags(written(Self::spec_write_tags(m, version)) + rest, version) == Ok::<(Seq<(u32, Seq<u8>)>, Seq<u8>), Error>((m.unknown_tagged_fields, rest)),
    {
        reveal(DescribeTopicPartitionsResponsePartition::spec_read_tags);
        reveal(DescribeTopicPartitionsResponsePartition::spec_write_tags);
        lemma_sorted_by_tag_in_order(m.unknown_tagged_fields);
        lemma_tagged_fields_round_trip(m.unknown_tagged_fields, rest);
    }

    /// Reading back what writing `m` in `version` appends gives `m` again, and
    /// leaves what follows, for every canonical message whose write succeeds.
    #[verifier::rlimit(100)]
    #[verifier::spinoff_prover]
    pub proof fn lemma_round_trip(m: DescribeTopicPartitionsResponsePartitionView, version: i16, rest: Seq<u8>)
        requires
            Self::canonical(m, version),
            Self::spec_write(m, version) is Ok,
        ensures
            Self::spec_read(written(Self::spec_write(m, version)) + rest, version) == Ok::<(DescribeTopicPartitionsResponsePartitionView, Seq<u8>), Error>((m, rest)),
    {
        let b0 = written(Self::spec_write_error_code(m, version));
        let b1 = written(Self::spec_write_partition_index(m, version));
        let b2 = written(Self::spec_write_leader_id(m, version));
        let b3 = written(Self::spec_write_leader_epoch(m, version));
        let b4 = written(Self::spec_write_replica_nodes(m, version));
        let b5 = written(Self::spec_write_isr_nodes(m, version));
        let b6 = written(Self::spec_write_eligible_leader_replicas(m, version));
        let b7 = written(Self::spec_write_last_known_elr(m, version));
        let b8 = written(Self::spec_write_offline_replicas(m, version));
        let b9 = written(Self::spec_write_tags(m, version));
        let t10 = rest;
        let t9 = b9 + t10;
        let t8 = b8 + t9;
        let t7 = b7 + t8;
        let t6 = b6 + t7;
        let t5 = b5 + t6;
        let t4 = b4 + t5;
        let t3 = b3 + t4;
        let t2 = b2 + t3;
        let t1 = b1 + t2;
        let t0 = b0 + t1;
        let w0 = Self::spec_write_error_code(m, version);
        let w1 = chain(w0, Self::spec_write_partition_index(m, version));
        let w2 = chain(w1, Self::spec_write_leader_id(m, version));
        let w3 = chain(w2, Self::spec_write_leader_epoch(m, version));
        let w4 = chain(w3, Self::spec_write_replica_nodes(m, version));
        let w5 = chain(w4, Self::spec_write_isr_nodes(m, version));
        let w6 = chain(w5, Self::spec_write_eligible_leader_replicas(m, version));
        let w7 = chain(w6, Self::spec_write_last_known_elr(m, version));
        let w8 = chain(w7, Self::spec_write_offline_replicas(m, version));
        let w9 = chain(w8, Self::spec_write_tags(m, version));
        assert(Self::spec_write(m, version) == w9);
        assert(written(w9) + t10 =~= written(w8) + t9);
        assert(written(w8) + t9 =~= written(w7) + t8);
        assert(written(w7) + t8 =~= written(w6) + t7);
        assert(written(w6) + t7 =~= written(w5) + t6);
        assert(written(w5) + t6 =~= written(w4) + t5);
        assert(written(w4) + t5 =~= written(w3) + t4);
        assert(written(w3) + t4 =~= written(w2) + t3);
        assert(written(w2) + t3 =~= written(w1) + t2);
        assert(written(w1) + t2 =~= written(w0) + t1);
        Self::lemma_round_trip_error_code(m, version, t1);
        Self::lemma_round_trip_partition_index(m, version, t2);
        Self::lemma_round_trip_leader_id(m, version, t3);
        Self::lemma_round_trip_leader_epoch(m, version, t4);
        Self::lemma_round_trip_replica_nodes(m, version, t5);
        Self::lemma_round_trip_isr_nodes(m, version, t6);
        Self::lemma_round_trip_eligible_leader_replicas(m, version, t7);
        Self::lemma_round_trip_last_known_elr(m, version, t8);
        Self::lemma_round_trip_offline_replicas(m, version, t9);
        Self::lemma_round_trip_tags(m, version, t10);
    }

    /// The default message holds the default value of each field of the schema.
    pub proof fn lemma_default_values()
        ensures
            Self::default_view().error_code == (0_i16),
            Self::default_view().partition_index == (0_i32),
            Self::default_view().leader_id == (0_i32),
            Self::default_view().leader_epoch == (-1i32),
            Self::default_view().replica_nodes.len() == 0,
            Self::default_view().isr_nodes.len() == 0,
            (Self::default_view().eligible_leader_replicas is None),
            (Self::default_view().last_known_elr is None),
            Self::default_view().offline_replicas.len() == 0,
            Self::default_view().unknown_tagged_fields.len() == 0,
    {
    }

    /// Each integer, boolean and identifier field is written as its standard
    /// big-endian bytes (a boolean as `1` or `0`) in the versions that carry
    /// it, and as nothing in the others; reading it takes those bytes back (any
    /// byte other than `0` reads as `true`), or gives its default value.
    pub proof fn lemma_field_encodings(m: DescribeTopicPartitionsResponsePartitionView, s: Seq<u8>, version: i16)
        ensures
            true ==> Self::spec_write_error_code(m, version) == Ok::<Seq<u8>, (Error, Seq<u8>)>(u16_bytes(m.error_code as u16)),
            true ==> Self::spec_write_partition_index(m, version) == Ok::<Seq<u8>, (Error, Seq<u8>)>(u32_bytes(m.partition_index as u32)),
            true ==> Self::spec_write_leader_id(m, version) == Ok::<Seq<u8>, (Error, Seq<u8>)>(u32_bytes(m.leader_id as u32)),
            true ==> Self::spec_write_leader_epoch(m, version) == Ok::<Seq<u8>, (Error, Seq<u8>)>(u32_bytes(m.leader_epoch as u32)),
            true ==> Self::spec_read_error_code(s, version) == spec_read_i16(s),
            true ==> Self::spec_read_partition_index(s, version) == spec_read_i32(s),
            true ==> Self::spec_read_leader_id(s, version) == spec_read_i32(s),
            true ==> Self::spec_read_leader_epoch(s, version) == spec_read_i32(s),
    {
        reveal(DescribeTopicPartitionsResponsePartition::spec_write_error_code);
        reveal(DescribeTopicPartitionsResponsePartition::spec_read_error_code);
        reveal(DescribeTopicPartitionsResponsePartition::spec_write_partition_index);
        reveal(DescribeTopicPartitionsResponsePartition::spec_read_partition_index);
        reveal(DescribeTopicPartitionsResponsePartition::spec_write_leader_id);
        reveal(DescribeTopicPartitionsResponsePartition::spec_read_leader_id);
        reveal(DescribeTopicPartitionsResponsePartition::spec_write_leader_epoch);
        reveal(DescribeTopicPartitionsResponsePartition::spec_read_leader_epoch);
    }

    /// Whether writing `m` in `version` succeeds, said over its parts: the
    /// version is one the schema covers, every field that the version cannot
    /// carry holds its default value, and every string, byte string, array and
    /// tagged field fits its length prefix.
    pub open spec fn writable(m: DescribeTopicPartitionsResponsePartitionView, version: i16) -> bool {
        &&& (m.replica_nodes.len() <= i32::MAX && all_writable::<Int32Item>(m.replica_nodes, version))
        &&& (m.isr_nodes.len() <= i32::MAX && all_writable::<Int32Item>(m.isr_nodes, version))
        &&& (m.eligible_leader_replicas matches Some(xs) ==> xs.len() <= i32::MAX && all_writable::<Int32Item>(xs, version))
        &&& (m.last_known_elr matches Some(xs) ==> xs.len() <= i32::MAX && all_writable::<Int32Item>(xs, version))
        &&& (m.offline_replicas.len() <= i32::MAX && all_writable::<Int32Item>(m.offline_replicas, version))
        &&& m.unknown_tagged_fields.len() <= u32::MAX && tags_fit(m.unknown_tagged_fields)
    }

    proof fn lemma_writable_error_code(m: DescribeTopicPartitionsResponsePartitionView, version: i16)
        ensures
            Self::spec_write_error_code(m, version) is Ok <==> true,
    {
        reveal(DescribeTopicPartitionsResponsePartition::spec_write_error_code);
    }

    proof fn lemma_writable_partition_index(m: DescribeTopicPartitionsResponsePartitionView, version: i16)
        ensures
            Self::spec_write_partition_index(m, version) is Ok <==> true,
    {
        reveal(DescribeTopicPartitionsResponsePartition::spec_write_partition_index);
    }

    proof fn lemma_writable_leader_id(m: DescribeTopicPartitionsResponsePartitionView, version: i16)
        ensures
            Self::spec_write_leader_id(m, version) is Ok <==> true,
    {
        reveal(DescribeTopicPartitionsResponsePartition::spec_write_leader_id);
    }

    proof fn lemma_writable_leader_epoch(m: DescribeTopicPartitionsResponsePartitionView, version: i16)
        ensures
            Self::spec_write_leader_epoch(m, version) is Ok <==> true,
    {
        reveal(DescribeTopicPartitionsResponsePartition::spec_write_leader_epoch);
    }

    proof fn lemma_writable_replica_nodes(m: DescribeTopicPartitionsResponsePartitionView, version: i16)
        ensures
            Self::spec_write_replica_nodes(m, version) is Ok <==> (m.replica_nodes.len() <= i32::MAX && all_writable::<Int32Item>(m.replica_nodes, version)),
    {
        reveal(DescribeTopicPartitionsResponsePartition::spec_write_replica_nodes);
        lemma_array_writable::<Int32Item>(m.replica_nodes, version, true);
    }

    proof fn lemma_writable_isr_nodes(m: DescribeTopicPartitionsResponsePartitionView, version: i16)
        ensures
            Self::spec_write_isr_nodes(m, version) is Ok <==> (m.isr_nodes.len() <= i32::MAX && all_writable::<Int32Item>(m.isr_nodes, version)),
    {
        reveal(DescribeTopicPartitionsResponsePartition::spec_write_isr_nodes);
        lemma_array_writable::<Int32Item>(m.isr_nodes, version, true);
    }

    proof fn lemma_writable_eligible_leader_replicas(m: DescribeTopicPartitionsResponsePartitionView, version: i16)
        ensures
            Self::spec_write_eligible_leader_replicas(m, version) is Ok <==> (m.eligible_leader_replicas matches Some(xs) ==> xs.len() <= i32::MAX && all_writable::<Int32Item>(xs, version)),
    {
        reveal(DescribeTopicPartitionsResponsePartition::spec_write_eligible_leader_replicas);
        lemma_nullable_array_writable::<Int32Item>(m.eligible_leader_replicas, version, true, -1i32);
    }

    proof fn lemma_writable_last_known_elr(m: DescribeTopicPartitionsResponsePartitionView, version: i16)
        ensures
            Self::spec_write_last_known_elr(m, version) is Ok <==> (m.last_known_elr matches Some(xs) ==> xs.len() <= i32::MAX && all_writable::<Int32Item>(xs, version)),
    {
        reveal(DescribeTopicPartitionsResponsePartition::spec_write_last_known_elr);
        lemma_nullable_array_writable::<Int32Item>(m.last_known_elr, version, true, -1i32);
    }

    proof fn lemma_writable_offline_replicas(m: DescribeTopicPartitionsResponsePartitionView, version: i16)
        ensures
            Self::spec_write_offline_replicas(m, version) is Ok <==> (m.offline_replicas.len() <= i32::MAX && all_writable::<Int32Item>(m.offline_replicas, version)),
    {
        reveal(DescribeTopicPartitionsResponsePartition::spec_write_offline_replicas);
        lemma_array_writable::<Int32Item>(m.offline_replicas, version, true);
    }

    proof fn lemma_writable_tags(m: DescribeTopicPartitionsResponsePartitionView, version: i16)
        ensures
            Self::spec_write_tags(m, version) is Ok <==> m.unknown_tagged_fields.len() <= u32::MAX && tags_fit(m.unknown_tagged_fields),
    {
        reveal(DescribeTopicPartitionsResponsePartition::spec_write_tags);
        lemma_sorted_tags_fit(m.unknown_tagged_fields);
        lemma_tagged_fields_writable(sorted_by_tag(m.unknown_tagged_fields));
    }

    /// Writing `m` in `version` succeeds exactly when `m` is writable in it;
    /// so do `write` and `encoded_len`, whose results follow `spec_write`.
    #[verifier::rlimit(90)]
    pub proof fn lemma_writable(m: DescribeTopicPartitionsResponsePartitionView, version: i16)
        ensures
            Self::spec_write(m, version) is Ok <==> Self::writable(m, version),
    {
        Self::lemma_writable_error_code(m, version);
        Self::lemma_writable_partition_index(m, version);
        Self::lemma_writable_leader_id(m, version);
        Self::lemma_writable_leader_epoch(m, version);
        Self::lemma_writable_replica_nodes(m, version);
        Self::lemma_writable_isr_nodes(m, version);
        Self::lemma_writable_eligible_leader_replicas(m, version);
        Self::lemma_writable_last_known_elr(m, version);
        Self::lemma_writable_offline_replicas(m, version);
        Self::lemma_writable_tags(m, version);
    }

    fn read_error_code(buf: &mut Bytes, version: i16) -> (r: Result<i16, Error>)
        ensures
            read_as(Self::spec_read_error_code(bytes_seq(*old(buf)), version), *final(buf), r),
            took_front(*old(buf), *final(buf)),
    {
        proof {
            reveal(DescribeTopicPartitionsResponsePartition::spec_read_error_code);
        }
        Ok(read_i16(buf)?)
    }

    fn read_partition_index(buf: &mut Bytes, version: i16) -> (r: Result<i32, Error>)
        ensures
            read_as(Self::spec_read_partition_index(bytes_seq(*old(buf)), version), *final(buf), r),
            took_front(*old(buf), *final(buf)),
    {
        proof {
            reveal(DescribeTopicPartitionsResponsePartition::spec_read_partition_index);
        }
        Ok(read_i32(buf)?)
    }

    fn read_leader_id(buf: &mut Bytes, version: i16) -> (r: Result<i32, Error>)
        ensures
            read_as(Self::spec_read_leader_id(bytes_seq(*old(buf)), version), *final(buf), r),
            took_front(*old(buf), *final(buf)),
    {
        proof {
            reveal(DescribeTopicPartitionsResponsePartition::spec_read_leader_id);
        }
        Ok(read_i32(buf)?)
    }

    fn read_leader_epoch(buf: &mut Bytes, version: i16) -> (r: Result<i32, Error>)
        ensures
            read_as(Self::spec_read_leader_epoch(bytes_seq(*old(buf)), version), *final(buf), r),
            took_front(*old(buf), *final(buf)),
    {
        proof {
            reveal(DescribeTopicPartitionsResponsePartition::spec_read_leader_epoch);
        }
        Ok(read_i32(buf)?)
    }

    fn read_replica_nodes(buf: &mut Bytes, version: i16) -> (r: Result<Vec<i32>, Error>)
        ensures
            read_vec_as(Self::spec_read_replica_nodes(bytes_seq(*old(buf)), version), *final(buf), r),
            took_front(*old(buf), *final(buf)),
    {
        proof {
            reveal(DescribeTopicPartitionsResponsePartition::spec_read_replica_nodes);
        }
        Ok(read_array::<Int32Item>(buf, version, true)?)
    }

    fn read_isr_nodes(buf: &mut Bytes, version: i16) -> (r: Result<Vec<i32>, Error>)
        ensures
            read_vec_as(Self::spec_read_isr_nodes(bytes_seq(*old(buf)), version), *final(buf), r),
            took_front(*old(buf), *final(buf)),
    {
        proof {
            reveal(DescribeTopicPartitionsResponsePartition::spec_read_isr_nodes);
        }
        Ok(read_array::<Int32Item>(buf, version, true)?)
    }

    fn read_eligible_leader_replicas(buf: &mut Bytes, version: i16) -> (r: Result<Option<Vec<i32>>, Error>)
        ensures
            read_opt_vec_as(Self::spec_read_eligible_leader_replicas(bytes_seq(*old(buf)), version), *final(buf), r),
            took_front(*old(buf), *final(buf)),
    {
        proof {
            reveal(DescribeTopicPartitionsResponsePartition::spec_read_eligible_leader_replicas);
        }
        Ok(read_nullable_array::<Int32Item>(buf, version, true)?)
    }

    fn read_last_known_elr(buf: &mut Bytes, version: i16) -> (r: Result<Option<Vec<i32>>, Error>)
        ensures
            read_opt_vec_as(Self::spec_read_last_known_elr(bytes_seq(*old(buf)), version), *final(buf), r),
            took_front(*old(buf), *final(buf)),
    {
        proof {
            reveal(DescribeTopicPartitionsResponsePartition::spec_read_last_known_elr);
        }
        Ok(read_nullable_array::<Int32Item>(buf, version, true)?)
    }

    fn read_offline_replicas(buf: &mut Bytes, version: i16) -> (r: Result<Vec<i32>, Error>)
        ensures
            read_vec_as(Self::spec_read_offline_replicas(bytes_seq(*old(buf)), version), *final(buf), r),
            took_front(*old(buf), *final(buf)),
    {
        proof {
            reveal(DescribeTopicPartitionsResponsePartition::spec_read_offline_replicas);
        }
        Ok(read_array::<Int32Item>(buf, version, true)?)
    }

    fn read_tags(buf: &mut Bytes, version: i16) -> (r: Result<Vec<RawTaggedField>, Error>)
        ensures
            read_vec_as(Self::spec_read_tags(bytes_seq(*old(buf)), version), *final(buf), r),
            took_front(*old(buf), *final(buf)),
    {
        proof {
            reveal(DescribeTopicPartitionsResponsePartition::spec_read_tags);
        }
        Ok(read_tagged_fields(buf)?)
    }

    #[verifier::rlimit(80)]
    #[verifier::spinoff_prover]
    pub fn read(buf: &mut Bytes, version: i16) -> (r: Result<Self, Error>)
        ensures
            read_as(Self::spec_read(bytes_seq(*old(buf)), version), *final(buf), r),
            took_front(*old(buf), *final(buf)),
    {
        let error_code = Self::read_error_code(buf, version)?;
        let partition_index = Self::read_partition_index(buf, version)?;
        let leader_id = Self::read_leader_id(buf, version)?;
        let leader_epoch = Self::read_leader_epoch(buf, version)?;
        let replica_nodes = Self::read_replica_nodes(buf, version)?;
        let isr_nodes = Self::read_isr_nodes(buf, version)?;
        let eligible_leader_replicas = Self::read_eligible_leader_replicas(buf, version)?;
        let last_known_elr = Self::read_last_known_elr(buf, version)?;
        let offline_replicas = Self::read_offline_replicas(buf, version)?;
        let _unknown_tagged_fields = Self::read_tags(buf, version)?;
        Ok(DescribeTopicPartitionsResponsePartition {
                error_code: error_code,
                partition_index: partition_index,
                leader_id: leader_id,
                leader_epoch: leader_epoch,
                replica_nodes: replica_nodes,
                isr_nodes: isr_nodes,
                eligible_leader_replicas: eligible_leader_replicas,
                last_known_elr: last_known_elr,
                offline_replicas: offline_replicas,
                _unknown_tagged_fields: _unknown_tagged_fields,
        })
    }

    #[verifier::rlimit(100)]
    #[verifier::spinoff_prover]
    pub fn write(&self, buf: &mut BytesMut, version: i16) -> (r: Result<(), Error>)
        requires
            has_room(Self::spec_write(self@, version), *old(buf)),
        ensures
            wrote(Self::spec_write(self@, version), *old(buf), *final(buf), r),
    {
        let ghost m = self@;
        proof {
            reveal(DescribeTopicPartitionsResponsePartition::spec_write_error_code);
            reveal(DescribeTopicPartitionsResponsePartition::spec_write_partition_index);
            reveal(DescribeTopicPartitionsResponsePartition::spec_write_leader_id);
            reveal(DescribeTopicPartitionsResponsePartition::spec_write_leader_epoch);
            reveal(DescribeTopicPartitionsResponsePartition::spec_write_replica_nodes);
            reveal(DescribeTopicPartitionsResponsePartition::spec_write_isr_nodes);
            reveal(DescribeTopicPartitionsResponsePartition::spec_write_eligible_leader_replicas);
            reveal(DescribeTopicPartitionsResponsePartition::spec_write_last_known_elr);
            reveal(DescribeTopicPartitionsResponsePartition::spec_write_offline_replicas);
            reveal(DescribeTopicPartitionsResponsePartition::spec_write_tags);
        }
        let ghost s0 = Self::spec_write_error_code(m, version);
        let ghost w0 = s0;
        let ghost s1 = Self::spec_write_partition_index(m, version);
        let ghost w1 = chain(w0, s1);
        let ghost s2 = Self::spec_write_leader_id(m, version);
        let ghost w2 = chain(w1, s2);
        let ghost s3 = Self::spec_write_leader_epoch(m, version);
        let ghost w3 = chain(w2, s3);
        let ghost s4 = Self::spec_write_replica_nodes(m, version);
        let ghost w4 = chain(w3, s4);
        let ghost s5 = Self::spec_write_isr_nodes(m, version);
        let ghost w5 = chain(w4, s5);
        let ghost s6 = Self::spec_write_eligible_leader_replicas(m, version);
        let ghost w6 = chain(w5, s6);
        let ghost s7 = Self::spec_write_last_known_elr(m, version);
        let ghost w7 = chain(w6, s7);
        let ghost s8 = Self::spec_write_offline_replicas(m, version);
        let ghost w8 = chain(w7, s8);
        let ghost s9 = Self::spec_write_tags(m, version);
        let ghost w9 = chain(w8, s9);
        assert(Self::spec_write(m, version) == w9);
        assert(written(w8).len() <= written(w9).len() && (w8 is Err ==> w9 == w8));
        assert(written(w7).len() <= written(w9).len() && (w7 is Err ==> w9 == w7));
        assert(written(w6).len() <= written(w9).len() && (w6 is Err ==> w9 == w6));
        assert(written(w5).len() <= written(w9).len() && (w5 is Err ==> w9 == w5));
        assert(written(w4).len() <= written(w9).len() && (w4 is Err ==> w9 == w4));
        assert(written(w3).len() <= written(w9).len() && (w3 is Err ==> w9 == w3));
        assert(written(w2).len() <= written(w9).len() && (w2 is Err ==> w9 == w2));
        assert(written(w1).len() <= written(w9).len() && (w1 is Err ==> w9 == w1));
        assert(written(w0).len() <= written(w9).len() && (w0 is Err ==> w9 == w0));
        let ghost mid = bytes_mut_seq(*buf);
        proof {
            lemma_append_empty(mid);
        }
        let r0 = {
            write_i16(buf, self.error_code);
            Ok(())
        };
        assert(bytes_mut_seq(*buf) == mid + written(s0));
        if r0.is_err() {
            return r0;
        }
        let ghost mid = bytes_mut_seq(*buf);
        proof {
            lemma_append_empty(mid);
        }
        let r1 = {
            write_i32(buf, self.partition_index);
            Ok(())
        };
        assert(bytes_mut_seq(*buf) == mid + written(s1));
        proof {
            lemma_step(bytes_mut_seq(*old(buf)), w0, s1);
        }
        if r1.is_err() {
            return r1;
        }
        let ghost mid = bytes_mut_seq(*buf);
        proof {
            lemma_append_empty(mid);
        }
        let r2 = {
            write_i32(buf, self.leader_id);
            Ok(())
        };
        assert(bytes_mut_seq(*buf) == mid + written(s2));
        proof {
            lemma_step(bytes_mut_seq(*old(buf)), w1, s2);
        }
        if r2.is_err() {
            return r2;
        }
        let ghost mid = bytes_mut_seq(*buf);
        proof {
            lemma_append_empty(mid);
        }
        let r3 = {
            write_i32(buf, self.leader_epoch);
            Ok(())
        };
        assert(bytes_mut_seq(*buf) == mid + written(s3));
        proof {
            lemma_step(bytes_mut_seq(*old(buf)), w2, s3);
        }
        if r3.is_err() {
            return r3;
        }
        let ghost mid = bytes_mut_seq(*buf);
        proof {
            lemma_append_empty(mid);
        }
        let r4 = write_array::<Int32Item>(buf, &self.replica_nodes, version, true);
        assert(bytes_mut_seq(*buf) == mid + written(s4));
        proof {
            lemma_step(bytes_mut_seq(*old(buf)), w3, s4);
        }
        if r4.is_err() {
            return r4;
        }
        let ghost mid = bytes_mut_seq(*buf);
        proof {
            lemma_append_empty(mid);
        }
        let r5 = write_array::<Int32Item>(buf, &self.isr_nodes, version, true);
        assert(bytes_mut_seq(*buf) == mid + written(s5));
        proof {
            lemma_step(bytes_mut_seq(*old(buf)), w4, s5);
        }
        if r5.is_err() {
            return r5;
        }
        let ghost mid = bytes_mut_seq(*buf);
        proof {
            lemma_append_empty(mid);
        }
        let r6 = write_nullable_array::<Int32Item>(buf, &self.eligible_leader_replicas, version, true, -1);
        assert(bytes_mut_seq(*buf) == mid + written(s6));
        proof {
            lemma_step(bytes_mut_seq(*old(buf)), w5, s6);
        }
        if r6.is_err() {
            return r6;
        }
        let ghost mid = bytes_mut_seq(*buf);
        proof {
            lemma_append_empty(mid);
        }
        let r7 = write_nullable_array::<Int32Item>(buf, &self.last_known_elr, version, true, -1);
        assert(bytes_mut_seq(*buf) == mid + written(s7));
        proof {
            lemma_step(bytes_mut_seq(*old(buf)), w6, s7);
        }
        if r7.is_err() {
            return r7;
        }
        let ghost mid = bytes_mut_seq(*buf);
        proof {
            lemma_append_empty(mid);
        }
        let r8 = write_array::<Int32Item>(buf, &self.offline_replicas, version, true);
        assert(bytes_mut_seq(*buf) == mid + written(s8));
        proof {
            lemma_step(bytes_mut_seq(*old(buf)), w7, s8);
        }
        if r8.is_err() {
            return r8;
        }
        let ghost mid = bytes_mut_seq(*buf);
        proof {
            lemma_append_empty(mid);
        }
        let r9 = write_tagged_fields(buf, &sort_by_tag(&self._unknown_tagged_fields));
        assert(bytes_mut_seq(*buf) == mid + written(s9));
        proof {
            lemma_step(bytes_mut_seq(*old(buf)), w8, s9);
        }
        if r9.is_err() {
            return r9;
        }
        Ok(())
    }
}

#[derive(Debug, PartialEq)]
pub struct Cursor {
    /// The name for the first topic to process.
    pub topic_name: KafkaString,
    /// The partition index to start with.
    pub partition_index: i32,
    pub _unknown_tagged_fields: Vec<RawTaggedField>,
}

/// What a `Cursor` holds, as the specification sees it.
#[verifier::ext_equal]
pub struct CursorView {
    pub topic_name: Seq<u8>,
    pub partition_index: i32,
    pub unknown_tagged_fields: Seq<(u32, Seq<u8>)>,
}

impl View for Cursor {
    type V = CursorView;

    open spec fn view(&self) -> CursorView {
        CursorView {
            topic_name: self.topic_name@,
            partition_index: self.partition_index,
            unknown_tagged_fields: views(self._unknown_tagged_fields@),
        }
    }
}

impl Clone for Cursor {
    fn clone(&self) -> (r: Self)
        ensures
            r@ == self@,
    {
        let r = Cursor {
            topic_name: self.topic_name.clone(),
            partition_index: self.partition_index,
            _unknown_tagged_fields: clone_vec(&self._unknown_tagged_fields),
        };
        assert(r@ =~= self@);
        r
    }
}

impl ViewClone for Cursor {
    fn clone_view(&self) -> (r: Self) {
        self.clone()
    }
}

impl Default for Cursor {
    fn default() -> (r: Self)
        ensures
            r@ == Self::default_view(),
    {
        let r = Cursor {
            topic_name: KafkaString::default(),
            partition_index: 0_i32,
            _unknown_tagged_fields: empty_vec(),
        };
        assert(r@ =~= Self::default_view());
        r
    }
}

impl Cursor {
    pub open spec fn default_view() -> CursorView {
        CursorView {
            topic_name: Seq::empty(),
            partition_index: 0_i32,
            unknown_tagged_fields: Seq::empty(),
        }
    }

    /// The `topic_name` field, read from the front of `s`.
    #[verifier::opaque]
    pub open spec fn spec_read_topic_name(s: Seq<u8>, version: i16) -> ReadOutcome<Seq<u8>> {
        spec_read_compact_string(s)
    }

    /// The `partition_index` field, read from the front of `s`.
    #[verifier::opaque]
    pub open spec fn spec_read_partition_index(s: Seq<u8>, version: i16) -> ReadOutcome<i32> {
        spec_read_i32(s)
    }

    /// The tagged fields, read from the front of `s`.
    #[verifier::opaque]
    pub open spec fn spec_read_tags(s: Seq<u8>, version: i16) -> ReadOutcome<Seq<(u32, Seq<u8>)>> {
        spec_read_tagged_fields(s)
    }

    pub open spec fn spec_read(s: Seq<u8>, version: i16) -> ReadOutcome<CursorView> {
        match (Self::spec_read_topic_name(s, version)) {
            Err(e) => Err(e),
            Ok((topic_name, s)) => match (Self::spec_read_partition_index(s, version)) {
                Err(e) => Err(e),
                Ok((partition_index, s)) => match (Self::spec_read_tags(s, version)) {
                    Err(e) => Err(e),
                    Ok((unknown_tagged_fields, s)) => Ok((CursorView {
                                topic_name: topic_name,
                                partition_index: partition_index,
                                unknown_tagged_fields: unknown_tagged_fields,
                            }, s)),
                },
            },
        }
    }

    /// What writing the `topic_name` field of `m` appends.
    #[verifier::opaque]
    pub open spec fn spec_write_topic_name(m: CursorView, version: i16) -> WriteOutcome {
        spec_write_compact_string(m.topic_name)
    }

    /// What writing the `partition_index` field of `m` appends.
    #[verifier::opaque]
    pub open spec fn spec_write_partition_index(m: CursorView, version: i16) -> WriteOutcome {
        spec_write_i32(m.partition_index)
    }

    /// What writing the tagged fields of `m` appends.
    #[verifier::opaque]
    pub open spec fn spec_write_tags(m: CursorView, version: i16) -> WriteOutcome {
        spec_write_tagged_fields(sorted_by_tag(m.unknown_tagged_fields))
    }

    pub open spec fn spec_write(m: CursorView, version: i16) -> WriteOutcome {
        chain(
            chain(
                Self::spec_write_topic_name(m, version),
                Self::spec_write_partition_index(m, version),
            ),
            Self::spec_write_tags(m, version),
        )
    }

    /// Whether reading back what writing `m` in `version` appends gives `m`:
    /// fields that the version does not carry hold their default values, and
    /// tagged fields come in the order in which they are written.
    pub open spec fn canonical(m: CursorView, version: i16) -> bool {
        &&& tags_in_order(m.unknown_tagged_fields)
    }

    proof fn lemma_round_trip_topic_name(m: CursorView, version: i16, rest: Seq<u8>)
        requires
            Self::canonical(m, version),
            Self::spec_write_topic_name(m, version) is Ok,
        ensures
            Self::spec_read_topic_name(written(Self::spec_write_topic_name(m, version)) + rest, version) == Ok::<(Seq<u8>, Seq<u8>), Error>((m.topic_name, rest)),
    {
        reveal(Cursor::spec_read_topic_name);
        reveal(Cursor::spec_write_topic_name);
        lemma_compact_string_round_trip(m.topic_name, rest);
    }

    proof fn lemma_round_trip_partition_index(m: CursorView, version: i16, rest: Seq<u8>)
        requires
            Self::canonical(m, version),
            Self::spec_write_partition_index(m, version) is Ok,
        ensures
            Self::spec_read_partition_index(written(Self::spec_write_partition_index(m, version)) + rest, version) == Ok::<(i32, Seq<u8>), Error>((m.partition_index, rest)),
    {
        reveal(Cursor::spec_read_partition_index);
        reveal(Cursor::spec_write_partition_index);
        lemma_i32_roundtrip(m.partition_index, rest);
    }

    proof fn lemma_round_trip_tags(m: CursorView, version: i16, rest: Seq<u8>)
        requires
            Self::canonical(m, version),
            Self::spec_write_tags(m, version) is Ok,
        ensures
            Self::spec_read_tags(written(Self::spec_write_tags(m, version)) + rest, version) == Ok::<(Seq<(u32, Seq<u8>)>, Seq<u8>), Error>((m.unknown_tagged_fields, rest)),
    {
        reveal(Cursor::spec_read_tags);
        reveal(Cursor::spec_write_tags);
        lemma_sorted_by_tag_in_order(m.unknown_tagged_fields);
        lemma_tagged_fields_round_trip(m.unknown_tagged_fields, rest);
    }

    /// Reading back what writing `m` in `version` appends gives `m` again, and
    /// leaves what follows, for every canonical message whose write succeeds.
    #[verifier::rlimit(70)]
    #[verifier::spinoff_prover]
    pub proof fn lemma_round_trip(m: CursorView, version: i16, rest: Seq<u8>)
        requires
            Self::canonical(m, version),
            Self::spec_write(m, version) is Ok,
        ensures
            Self::spec_read(written(Self::spec_write(m, version)) + rest, version) == Ok::<(CursorView, Seq<u8>), Error>((m, rest)),
    {
        let b0 = written(Self::spec_write_topic_name(m, version));
        let b1 = written(Self::spec_write_partition_index(m, version));
        let b2 = written(Self::spec_write_tags(m, version));
        let t3 = rest;
        let t2 = b2 + t3;
        let t1 = b1 + t2;
        let t0 = b0 + t1;
        let w0 = Self::spec_write_topic_name(m, version);
        let w1 = chain(w0, Self::spec_write_partition_index(m, version));
        let w2 = chain(w1, Self::spec_write_tags(m, version));
        assert(Self::spec_write(m, version) == w2);
        assert(written(w2) + t3 =~= written(w1) + t2);
        assert(written(w1) + t2 =~= written(w0) + t1);
        Self::lemma_round_trip_topic_name(m, version, t1);
        Self::lemma_round_trip_partition_index(m, version, t2);
        Self::lemma_round_trip_tags(m, version, t3);
    }

    /// The default message holds the default value of each field of the schema.
    pub proof fn lemma_default_values()
        ensures
            Self::default_view().topic_name.len() == 0,
            Self::default_view().partition_index == (0_i32),
            Self::default_view().unknown_tagged_fields.len() == 0,
    {
    }

    /// Each integer, boolean and identifier field is written as its standard
    /// big-endian bytes (a boolean as `1` or `0`) in the versions that carry
    /// it, and as nothing in the others; reading it takes those bytes back (any
    /// byte other than `0` reads as `true`), or gives its default value.
    pub proof fn lemma_field_encodings(m: CursorView, s: Seq<u8>, version: i16)
        ensures
            true ==> Self::spec_write_partition_index(m, version) == Ok::<Seq<u8>, (Error, Seq<u8>)>(u32_bytes(m.partition_index as u32)),
            true ==> Self::spec_read_partition_index(s, version) == spec_read_i32(s),
    {
        reveal(Cursor::spec_write_partition_index);
        reveal(Cursor::spec_read_partition_index);
    }

    /// Whether writing `m` in `version` succeeds, said over its parts: the
    /// version is one the schema covers, every field that the version cannot
    /// carry holds its default value, and every string, byte string, array and
    /// tagged field fits its length prefix.
    pub open spec fn writable(m: CursorView, version: i16) -> bool {
        &&& m.topic_name.len() <= 0x7fff
        &&& m.unknown_tagged_fields.len() <= u32::MAX && tags_fit(m.unknown_tagged_fields)
    }

    proof fn lemma_writable_topic_name(m: CursorView, version: i16)
        ensures
            Self::spec_write_topic_name(m, version) is Ok <==> m.topic_name.len() <= 0x7fff,
    {
        reveal(Cursor::spec_write_topic_name);
    }

    proof fn lemma_writable_partition_index(m: CursorView, version: i16)
        ensures
            Self::spec_write_partition_index(m, version) is Ok <==> true,
    {
        reveal(Cursor::spec_write_partition_index);
    }

    proof fn lemma_writable_tags(m: CursorView, version: i16)
        ensures
            Self::spec_write_tags(m, version) is Ok <==> m.unknown_tagged_fields.len() <= u32::MAX && tags_fit(m.unknown_tagged_fields),
    {
        reveal(Cursor::spec_write_tags);
        lemma_sorted_tags_fit(m.unknown_tagged_fields);
        lemma_tagged_fields_writable(sorted_by_tag(m.unknown_tagged_fields));
    }

    /// Writing `m` in `version` succeeds exactly when `m` is writable in it;
    /// so do `write` and `encoded_len`, whose results follow `spec_write`.
    #[verifier::rlimit(48)]
    pub proof fn lemma_writable(m: CursorView, version: i16)
        ensures
            Self::spec_write(m, version) is Ok <==> Self::writable(m, version),
    {
        Self::lemma_writable_topic_name(m, version);
        Self::lemma_writable_partition_index(m, version);
        Self::lemma_writable_tags(m, version);
    }

    fn read_topic_name(buf: &mut Bytes, version: i16) -> (r: Result<KafkaString, Error>)
        ensures
            read_as(Self::spec_read_topic_name(bytes_seq(*old(buf)), version), *final(buf), r),
            took_front(*old(buf), *final(buf)),
    {
        proof {
            reveal(Cursor::spec_read_topic_name);
        }
        Ok(read_compact_string(buf)?)
    }

    fn read_partition_index(buf: &mut Bytes, version: i16) -> (r: Result<i32, Error>)
        ensures
            read_as(Self::spec_read_partition_index(bytes_seq(*old(buf)), version), *final(buf), r),
            took_front(*old(buf), *final(buf)),
    {
        proof {
            reveal(Cursor::spec_read_partition_index);
        }
        Ok(read_i32(buf)?)
    }

    fn read_tags(buf: &mut Bytes, version: i16) -> (r: Result<Vec<RawTaggedField>, Error>)
        ensures
            read_vec_as(Self::spec_read_tags(bytes_seq(*old(buf)), version), *final(buf), r),
            took_front(*old(buf), *final(buf)),
    {
        proof {
            reveal(Cursor::spec_read_tags);
        }
        Ok(read_tagged_fields(buf)?)
    }

    pub fn read(buf: &mut Bytes, version: i16) -> (r: Result<Self, Error>)
        ensures
            read_as(Self::spec_read(bytes_seq(*old(buf)), version), *final(buf), r),
            took_front(*old(buf), *final(buf)),
    {
        let topic_name = Self::read_topic_name(buf, version)?;
        let partition_index = Self::read_partition_index(buf, version)?;
        let _unknown_tagged_fields = Self::read_tags(buf, version)?;
        Ok(Cursor {
                topic_name: topic_name,
                partition_index: partition_index,
                _unknown_tagged_fields: _unknown_tagged_fields,
        })
    }

    #[verifier::rlimit(60)]
    pub fn write(&self, buf: &mut BytesMut, version: i16) -> (r: Result<(), Error>)
        requires
            has_room(Self::spec_write(self@, version), *old(buf)),
        ensures
            wrote(Self::spec_write(self@, version), *old(buf), *final(buf), r),
    {
        let ghost m = self@;
        proof {
            reveal(Cursor::spec_write_topic_name);
            reveal(Cursor::spec_write_partition_index);
            reveal(Cursor::spec_write_tags);
        }
        let ghost s0 = Self::spec_write_topic_name(m, version);
        let ghost w0 = s0;
        let ghost s1 = Self::spec_write_partition_index(m, version);
        let ghost w1 = chain(w0, s1);
        let ghost s2 = Self::spec_write_tags(m, version);
        let ghost w2 = chain(w1, s2);
        assert(Self::spec_write(m, version) == w2);
        assert(written(w1).len() <= written(w2).len() && (w1 is Err ==> w2 == w1));
        assert(written(w0).len() <= written(w2).len() && (w0 is Err ==> w2 == w0));
        let ghost mid = bytes_mut_seq(*buf);
        proof {
            lemma_append_empty(mid);
        }
        let r0 = write_compact_string(buf, &self.topic_name);
        assert(bytes_mut_seq(*buf) == mid + written(s0));
        if r0.is_err() {
            return r0;
        }
        let ghost mid = bytes_mut_seq(*buf);
        proof {
            lemma_append_empty(mid);
        }
        let r1 = {
            write_i32(buf, self.partition_index);
            Ok(())
        };
        assert(bytes_mut_seq(*buf) == mid + written(s1));
        proof {
            lemma_step(bytes_mut_seq(*old(buf)), w0, s1);
        }
        if r1.is_err() {
            return r1;
        }
        let ghost mid = bytes_mut_seq(*buf);
        proof {
            lemma_append_empty(mid);
        }
        let r2 = write_tagged_fields(buf, &sort_by_tag(&self._unknown_tagged_fields));
        assert(bytes_mut_seq(*buf) == mid + written(s2));
        proof {
            lemma_step(bytes_mut_seq(*old(buf)), w1, s2);
        }
        if r2.is_err() {
            return r2;
        }
        Ok(())
    }
}

impl Codec for DescribeTopicPartitionsResponseTopic {
    type Item = DescribeTopicPartitionsResponseTopic;

    open spec fn spec_read_item(s: Seq<u8>, version: i16) -> ReadOutcome<DescribeTopicPartitionsResponseTopicView> {
        DescribeTopicPartitionsResponseTopic::spec_read(s, version)
    }

    open spec fn spec_write_item(v: DescribeTopicPartitionsResponseTopicView, version: i16) -> WriteOutcome {
        DescribeTopicPartitionsResponseTopic::spec_write(v, version)
    }

    open spec fn canonical_item(v: DescribeTopicPartitionsResponseTopicView, version: i16) -> bool {
        DescribeTopicPartitionsResponseTopic::canonical(v, version)
    }

    proof fn lemma_item_round_trip(v: DescribeTopicPartitionsResponseTopicView, version: i16, rest: Seq<u8>) {
        DescribeTopicPartitionsResponseTopic::lemma_round_trip(v, version, rest);
    }

    open spec fn writable_item(v: DescribeTopicPartitionsResponseTopicView, version: i16) -> bool {
        DescribeTopicPartitionsResponseTopic::writable(v, version)
    }

    proof fn lemma_item_writable(v: DescribeTopicPartitionsResponseTopicView, version: i16) {
        DescribeTopicPartitionsResponseTopic::lemma_writable(v, version);
    }

    fn read_item(buf: &mut Bytes, version: i16) -> (r: Result<DescribeTopicPartitionsResponseTopic, Error>) {
        DescribeTopicPartitionsResponseTopic::read(buf, version)
    }

    fn write_item(item: &DescribeTopicPartitionsResponseTopic, buf: &mut BytesMut, version: i16) -> (r: Result<(), Error>) {
        item.write(buf, version)
    }
}

impl Codec for DescribeTopicPartitionsResponsePartition {
    type Item = DescribeTopicPartitionsResponsePartition;

    open spec fn spec_read_item(s: Seq<u8>, version: i16) -> ReadOutcome<DescribeTopicPartitionsResponsePartitionView> {
        DescribeTopicPartitionsResponsePartition::spec_read(s, version)
    }

    open spec fn spec_write_item(v: DescribeTopicPartitionsResponsePartitionView, version: i16) -> WriteOutcome {
        DescribeTopicPartitionsResponsePartition::spec_write(v, version)
    }

    open spec fn canonical_item(v: DescribeTopicPartitionsResponsePartitionView, version: i16) -> bool {
        DescribeTopicPartitionsResponsePartition::canonical(v, version)
    }

    proof fn lemma_item_round_trip(v: DescribeTopicPartitionsResponsePartitionView, version: i16, rest: Seq<u8>) {
        DescribeTopicPartitionsResponsePartition::lemma_round_trip(v, version, rest);
    }

    open spec fn writable_item(v: DescribeTopicPartitionsResponsePartitionView, version: i16) -> bool {
        DescribeTopicPartitionsResponsePartition::writable(v, version)
    }

    proof fn lemma_item_writable(v: DescribeTopicPartitionsResponsePartitionView, version: i16) {
        DescribeTopicPartitionsResponsePartition::lemma_writable(v, version);
    }

    fn read_item(buf: &mut Bytes, version: i16) -> (r: Result<DescribeTopicPartitionsResponsePartition, Error>) {
        DescribeTopicPartitionsResponsePartition::read(buf, version)
    }

    fn write_item(item: &DescribeTopicPartitionsResponsePartition, buf: &mut BytesMut, version: i16) -> (r: Result<(), Error>) {
        item.write(buf, version)
    }
}

impl Codec for Cursor {
    type Item = Cursor;

    open spec fn spec_read_item(s: Seq<u8>, version: i16) -> ReadOutcome<CursorView> {
        Cursor::spec_read(s, version)
    }

    open spec fn spec_write_item(v: CursorView, version: i16) -> WriteOutcome {
        Cursor::spec_write(v, version)
    }

    open spec fn canonical_item(v: CursorView, version: i16) -> bool {
        Cursor::canonical(v, version)
    }

    proof fn lemma_item_round_trip(v: CursorView, version: i16, rest: Seq<u8>) {
        Cursor::lemma_round_trip(v, version, rest);
    }

    open spec fn writable_item(v: CursorView, version: i16) -> bool {
        Cursor::writable(v, version)
    }

    proof fn lemma_item_writable(v: CursorView, version: i16) {
        Cursor::lemma_writable(v, version);
    }

    fn read_item(buf: &mut Bytes, version: i16) -> (r: Result<Cursor, Error>) {
        Cursor::read(buf, version)
    }

    fn write_item(item: &Cursor, buf: &mut BytesMut, version: i16) -> (r: Result<(), Error>) {
        item.write(buf, version)
    }
}

} // verus!
