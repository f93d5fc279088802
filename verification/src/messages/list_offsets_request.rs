//! The list offsets request message.
use crate::buffer::{bytes_mut_seq, bytes_seq};
use crate::codec::{Codec, all_canonical, all_writable, lemma_array_round_trip, lemma_array_writable, read_array, spec_read_array, spec_write_array, write_array};
use crate::error::{Error, UnsupportedVersion};
use crate::ints::{lemma_i32_roundtrip, lemma_i64_roundtrip, lemma_i8_roundtrip, read_i32, read_i64, read_i8, spec_read_i32, spec_read_i64, spec_read_i8, spec_write_i32, spec_write_i64, spec_write_i8, u32_bytes, u64_bytes, write_i32, write_i64, write_i8};
use crate::strings::{lemma_compact_string_round_trip, lemma_string_round_trip, read_compact_string, read_string, spec_read_compact_string, spec_read_string, spec_write_compact_string, spec_write_string, write_compact_string, write_string};
use crate::tagged::{lemma_sorted_by_tag_in_order, lemma_sorted_tags_fit, lemma_tagged_fields_round_trip, lemma_tagged_fields_writable, read_tagged_fields, sort_by_tag, sorted_by_tag, spec_read_tagged_fields, spec_write_tagged_fields, tags_fit, tags_in_order, write_tagged_fields};
use crate::types::{KafkaString, RawTaggedField};
use crate::wire::{ReadOutcome, ViewClone, WriteOutcome, chain, clone_vec, emit, empty_vec, fail, has_room, lemma_append_empty, lemma_chain_written, lemma_step, read_as, read_vec_as, took_front, views, written, wrote};
use bytes::{Bytes, BytesMut};
use vstd::prelude::*;

verus! {

broadcast use {crate::wire::lemma_chain_written, crate::wire::lemma_took_front_nothing, crate::wire::lemma_took_front_twice};

#[derive(Debug, PartialEq)]
pub struct ListOffsetsRequestData {
    /// The broker ID of the requester, or -1 if this request is being made by a normal consumer.
    pub replica_id: i32,
    /// This setting controls the visibility of transactional records. Using READ_UNCOMMITTED
    /// (isolation_level = 0) makes all records visible. With READ_COMMITTED (isolation_level = 1),
    /// non-transactional and COMMITTED transactional records are visible. To be more concrete,
    /// READ_COMMITTED returns all data from offsets smaller than the current LSO (last stable
    /// offset), and enables the inclusion of the list of aborted transactions in the result, which
    /// allows consumers to discard ABORTED transactional records.
    pub isolation_level: i8,
    /// Each topic in the request.
    pub topics: Vec<ListOffsetsTopic>,
    /// The timeout to await a response in milliseconds for requests that require reading from
    /// remote storage for topics enabled with tiered storage.
    pub timeout_ms: i32,
    pub _unknown_tagged_fields: Vec<RawTaggedField>,
}

/// What a `ListOffsetsRequestData` holds, as the specification sees it.
#[verifier::ext_equal]
pub struct ListOffsetsRequestDataView {
    pub replica_id: i32,
    pub isolation_level: i8,
    pub topics: Seq<ListOffsetsTopicView>,
    pub timeout_ms: i32,
    pub unknown_tagged_fields: Seq<(u32, Seq<u8>)>,
}

impl View for ListOffsetsRequestData {
    type V = ListOffsetsRequestDataView;

    open spec fn view(&self) -> ListOffsetsRequestDataView {
        ListOffsetsRequestDataView {
            replica_id: self.replica_id,
            isolation_level: self.isolation_level,
            topics: views(self.topics@),
            timeout_ms: self.timeout_ms,
            unknown_tagged_fields: views(self._unknown_tagged_fields@),
        }
    }
}

impl Clone for ListOffsetsRequestData {
    fn clone(&self) -> (r: Self)
        ensures
            r@ == self@,
    {
        let r = ListOffsetsRequestData {
            replica_id: self.replica_id,
            isolation_level: self.isolation_level,
            topics: clone_vec(&self.topics),
            timeout_ms: self.timeout_ms,
            _unknown_tagged_fields: clone_vec(&self._unknown_tagged_fields),
        };
        assert(r@ =~= self@);
        r
    }
}

impl ViewClone for ListOffsetsRequestData {
    fn clone_view(&self) -> (r: Self) {
        self.clone()
    }
}

impl Default for ListOffsetsRequestData {
    fn default() -> (r: Self)
        ensures
            r@ == Self::default_view(),
    {
        let r = ListOffsetsRequestData {
            replica_id: 0_i32,
            isolation_level: 0_i8,
            topics: empty_vec(),
            timeout_ms: 0_i32,
            _unknown_tagged_fields: empty_vec(),
        };
        assert(r@ =~= Self::default_view());
        r
    }
}

impl ListOffsetsRequestData {
    pub open spec fn default_view() -> ListOffsetsRequestDataView {
        ListOffsetsRequestDataView {
            replica_id: 0_i32,
            isolation_level: 0_i8,
            topics: Seq::empty(),
            timeout_ms: 0_i32,
            unknown_tagged_fields: Seq::empty(),
        }
    }

    /// The `replica_id` field, read from the front of `s`.
    #[verifier::opaque]
    pub open spec fn spec_read_replica_id(s: Seq<u8>, version: i16) -> ReadOutcome<i32> {
        spec_read_i32(s)
    }

    /// The `isolation_level` field, read from the front of `s`.
    #[verifier::opaque]
    pub open spec fn spec_read_isolation_level(s: Seq<u8>, version: i16) -> ReadOutcome<i8> {
        if version >= 2 {
            spec_read_i8(s)
        } else {
            Ok((0_i8, s))
        }
    }

    /// The `topics` field, read from the front of `s`.
    #[verifier::opaque]
    pub open spec fn spec_read_topics(s: Seq<u8>, version: i16) -> ReadOutcome<Seq<ListOffsetsTopicView>> {
        if version >= 6 {
            spec_read_array::<ListOffsetsTopic>(s, version, true)
        } else {
            spec_read_array::<ListOffsetsTopic>(s, version, false)
        }
    }

    /// The `timeout_ms` field, read from the front of `s`.
    #[verifier::opaque]
    pub open spec fn spec_read_timeout_ms(s: Seq<u8>, version: i16) -> ReadOutcome<i32> {
        if version >= 10 {
            spec_read_i32(s)
        } else {
            Ok((0_i32, s))
        }
    }

    /// The tagged fields, read from the front of `s`.
    #[verifier::opaque]
    pub open spec fn spec_read_tags(s: Seq<u8>, version: i16) -> ReadOutcome<Seq<(u32, Seq<u8>)>> {
        if version >= 6 {
            spec_read_tagged_fields(s)
        } else {
            Ok((Seq::empty(), s))
        }
    }

    pub open spec fn spec_read(s: Seq<u8>, version: i16) -> ReadOutcome<ListOffsetsRequestDataView> {
        if version < 1 || version > 11 {
            Err(Error::UnsupportedVersion(UnsupportedVersion { api_key: 2, version }))
        } else {
            match (Self::spec_read_replica_id(s, version)) {
                Err(e) => Err(e),
                Ok((replica_id, s)) => match (Self::spec_read_isolation_level(s, version)) {
                    Err(e) => Err(e),
                    Ok((isolation_level, s)) => match (Self::spec_read_topics(s, version)) {
                        Err(e) => Err(e),
                        Ok((topics, s)) => match (Self::spec_read_timeout_ms(s, version)) {
                            Err(e) => Err(e),
                            Ok((timeout_ms, s)) => match (Self::spec_read_tags(s, version)) {
                                Err(e) => Err(e),
                                Ok((unknown_tagged_fields, s)) => Ok((ListOffsetsRequestDataView {
                                            replica_id: replica_id,
                                            isolation_level: isolation_level,
                                            topics: topics,
                                            timeout_ms: timeout_ms,
                                            unknown_tagged_fields: unknown_tagged_fields,
                                        }, s)),
                            },
                        },
                    },
                },
            }
        }
    }

    /// What writing the `replica_id` field of `m` appends.
    #[verifier::opaque]
    pub open spec fn spec_write_replica_id(m: ListOffsetsRequestDataView, version: i16) -> WriteOutcome {
        spec_write_i32(m.replica_id)
    }

    /// What writing the `isolation_level` field of `m` appends.
    #[verifier::opaque]
    pub open spec fn spec_write_isolation_level(m: ListOffsetsRequestDataView, version: i16) -> WriteOutcome {
        if version >= 2 {
            spec_write_i8(m.isolation_level)
        } else {
            emit(Seq::empty())
        }
    }

    /// What writing the `topics` field of `m` appends.
    #[verifier::opaque]
    pub open spec fn spec_write_topics(m: ListOffsetsRequestDataView, version: i16) -> WriteOutcome {
        if version >= 6 {
            spec_write_array::<ListOffsetsTopic>(m.topics, version, true)
        } else {
            spec_write_array::<ListOffsetsTopic>(m.topics, version, false)
        }
    }

    /// What writing the `timeout_ms` field of `m` appends.
    #[verifier::opaque]
    pub open spec fn spec_write_timeout_ms(m: ListOffsetsRequestDataView, version: i16) -> WriteOutcome {
        if version >= 10 {
            spec_write_i32(m.timeout_ms)
        } else {
            emit(Seq::empty())
        }
    }

    /// What writing the tagged fields of `m` appends.
    #[verifier::opaque]
    pub open spec fn spec_write_tags(m: ListOffsetsRequestDataView, version: i16) -> WriteOutcome {
        if version >= 6 {
            spec_write_tagged_fields(sorted_by_tag(m.unknown_tagged_fields))
        } else {
            emit(Seq::empty())
        }
    }

    pub open spec fn spec_write(m: ListOffsetsRequestDataView, version: i16) -> WriteOutcome {
        if version < 1 || version > 11 {
            fail(Error::UnsupportedVersion(UnsupportedVersion { api_key: 2, version }))
        } else {
            chain(
                chain(
                    chain(
                        chain(
                            Self::spec_write_replica_id(m, version),
                            Self::spec_write_isolation_level(m, version),
                        ),
                        Self::spec_write_topics(m, version),
                    ),
                    Self::spec_write_timeout_ms(m, version),
                ),
                Self::spec_write_tags(m, version),
            )
        }
    }

    /// Whether reading back what writing `m` in `version` appends gives `m`:
    /// fields that the version does not carry hold their default values, and
    /// tagged fields come in the order in which they are written.
    pub open spec fn canonical(m: ListOffsetsRequestDataView, version: i16) -> bool {
        &&& (if version >= 2 {
                true
            } else {
                m.isolation_level == 0_i8
        })
        &&& all_canonical::<ListOffsetsTopic>(m.topics, version)
        &&& (if version >= 10 {
                true
            } else {
                m.timeout_ms == 0_i32
        })
        &&& (if version >= 6 {
                tags_in_order(m.unknown_tagged_fields)
            } else {
                m.unknown_tagged_fields.len() == 0
        })
    }

    proof fn lemma_round_trip_replica_id(m: ListOffsetsRequestDataView, version: i16, rest: Seq<u8>)
        requires
            Self::canonical(m, version),
            Self::spec_write_replica_id(m, version) is Ok,
        ensures
            Self::spec_read_replica_id(written(Self::spec_write_replica_id(m, version)) + rest, version) == Ok::<(i32, Seq<u8>), Error>((m.replica_id, rest)),
    {
        reveal(ListOffsetsRequestData::spec_read_replica_id);
        reveal(ListOffsetsRequestData::spec_write_replica_id);
        lemma_i32_roundtrip(m.replica_id, rest);
    }

    proof fn lemma_round_trip_isolation_level(m: ListOffsetsRequestDataView, version: i16, rest: Seq<u8>)
        requires
            Self::canonical(m, version),
            Self::spec_write_isolation_level(m, version) is Ok,
        ensures
            Self::spec_read_isolation_level(written(Self::spec_write_isolation_level(m, version)) + rest, version) == Ok::<(i8, Seq<u8>), Error>((m.isolation_level, rest)),
    {
        reveal(ListOffsetsRequestData::spec_read_isolation_level);
        reveal(ListOffsetsRequestData::spec_write_isolation_level);
        if version >= 2 {
            lemma_i8_roundtrip(m.isolation_level, rest);
        } else {
            assert(Seq::<u8>::empty() + rest =~= rest);
        }
    }

    proof fn lemma_round_trip_topics(m: ListOffsetsRequestDataView, version: i16, rest: Seq<u8>)
        requires
            Self::canonical(m, version),
            Self::spec_write_topics(m, version) is Ok,
        ensures
            Self::spec_read_topics(written(Self::spec_write_topics(m, version)) + rest, version) == Ok::<(Seq<ListOffsetsTopicView>, Seq<u8>), Error>((m.topics, rest)),
    {
        reveal(ListOffsetsRequestData::spec_read_topics);
        reveal(ListOffsetsRequestData::spec_write_topics);
        if version >= 6 {
            lemma_array_round_trip::<ListOffsetsTopic>(m.topics, version, true, rest);
        } else {
            lemma_array_round_trip::<ListOffsetsTopic>(m.topics, version, false, rest);
        }
    }

    proof fn lemma_round_trip_timeout_ms(m: ListOffsetsRequestDataView, version: i16, rest: Seq<u8>)
        requires
            Self::canonical(m, version),
            Self::spec_write_timeout_ms(m, version) is Ok,
        ensures
            Self::spec_read_timeout_ms(written(Self::spec_write_timeout_ms(m, version)) + rest, version) == Ok::<(i32, Seq<u8>), Error>((m.timeout_ms, rest)),
    {
        reveal(ListOffsetsRequestData::spec_read_timeout_ms);
        reveal(ListOffsetsRequestData::spec_write_timeout_ms);
        if version >= 10 {
            lemma_i32_roundtrip(m.timeout_ms, rest);
        } else {
            assert(Seq::<u8>::empty() + rest =~= rest);
        }
    }

    proof fn lemma_round_trip_tags(m: ListOffsetsRequestDataView, version: i16, rest: Seq<u8>)
        requires
            Self::canonical(m, version),
            Self::spec_write_tags(m, version) is Ok,
        ensures
            Self::spec_read_tags(written(Self::spec_write_tags(m, version)) + rest, version) == Ok::<(Seq<(u32, Seq<u8>)>, Seq<u8>), Error>((m.unknown_tagged_fields, rest)),
    {
        reveal(ListOffsetsRequestData::spec_read_tags);
        reveal(ListOffsetsRequestData::spec_write_tags);
        if version >= 6 {
            lemma_sorted_by_tag_in_order(m.unknown_tagged_fields);
            lemma_tagged_fields_round_trip(m.unknown_tagged_fields, rest);
        } else {
            assert(Seq::<u8>::empty() + rest =~= rest);
            assert(m.unknown_tagged_fields =~= Seq::empty());
        }
    }

    /// Reading back what writing `m` in `version` appends gives `m` again, and
    /// leaves what follows, for every canonical message whose write succeeds.
    #[verifier::rlimit(90)]
    #[verifier::spinoff_prover]
    pub proof fn lemma_round_trip(m: ListOffsetsRequestDataView, version: i16, rest: Seq<u8>)
        requires
            Self::canonical(m, version),
            Self::spec_write(m, version) is Ok,
        ensures
            Self::spec_read(written(Self::spec_write(m, version)) + rest, version) == Ok::<(ListOffsetsRequestDataView, Seq<u8>), Error>((m, rest)),
    {
        let b0 = written(Self::spec_write_replica_id(m, version));
        let b1 = written(Self::spec_write_isolation_level(m, version));
        let b2 = written(Self::spec_write_topics(m, version));
        let b3 = written(Self::spec_write_timeout_ms(m, version));
        let b4 = written(Self::spec_write_tags(m, version));
        let t5 = rest;
        let t4 = b4 + t5;
        let t3 = b3 + t4;
        let t2 = b2 + t3;
        let t1 = b1 + t2;
        let t0 = b0 + t1;
        let w0 = Self::spec_write_replica_id(m, version);
        let w1 = chain(w0, Self::spec_write_isolation_level(m, version));
        let w2 = chain(w1, Self::spec_write_topics(m, version));
        let w3 = chain(w2, Self::spec_write_timeout_ms(m, version));
        let w4 = chain(w3, Self::spec_write_tags(m, version));
        assert(Self::spec_write(m, version) == w4);
        assert(written(w4) + t5 =~= written(w3) + t4);
        assert(written(w3) + t4 =~= written(w2) + t3);
        assert(written(w2) + t3 =~= written(w1) + t2);
        assert(written(w1) + t2 =~= written(w0) + t1);
        Self::lemma_round_trip_replica_id(m, version, t1);
        Self::lemma_round_trip_isolation_level(m, version, t2);
        Self::lemma_round_trip_topics(m, version, t3);
        Self::lemma_round_trip_timeout_ms(m, version, t4);
        Self::lemma_round_trip_tags(m, version, t5);
    }

    /// In a version that does not carry `isolation_level`, writing ignores its value.
    pub proof fn lemma_write_ignores_isolation_level(m: ListOffsetsRequestDataView, value: i8, version: i16)
        requires
            !(version >= 2),
        ensures
            Self::spec_write((ListOffsetsRequestDataView { isolation_level: value, ..m }), version) == Self::spec_write(m, version),
    {
        reveal(ListOffsetsRequestData::spec_write_replica_id);
        reveal(ListOffsetsRequestData::spec_write_isolation_level);
        reveal(ListOffsetsRequestData::spec_write_topics);
        reveal(ListOffsetsRequestData::spec_write_timeout_ms);
        reveal(ListOffsetsRequestData::spec_write_tags);
    }

    /// In a version that does not carry `timeout_ms`, writing ignores its value.
    pub proof fn lemma_write_ignores_timeout_ms(m: ListOffsetsRequestDataView, value: i32, version: i16)
        requires
            !(version >= 10),
        ensures
            Self::spec_write((ListOffsetsRequestDataView { timeout_ms: value, ..m }), version) == Self::spec_write(m, version),
    {
        reveal(ListOffsetsRequestData::spec_write_replica_id);
        reveal(ListOffsetsRequestData::spec_write_isolation_level);
        reveal(ListOffsetsRequestData::spec_write_topics);
        reveal(ListOffsetsRequestData::spec_write_timeout_ms);
        reveal(ListOffsetsRequestData::spec_write_tags);
    }

    /// In a version that does not carry `unknown_tagged_fields`, writing ignores its value.
    pub proof fn lemma_write_ignores_unknown_tagged_fields(m: ListOffsetsRequestDataView, value: Seq<(u32, Seq<u8>)>, version: i16)
        requires
            !(version >= 6),
        ensures
            Self::spec_write((ListOffsetsRequestDataView { unknown_tagged_fields: value, ..m }), version) == Self::spec_write(m, version),
    {
        reveal(ListOffsetsRequestData::spec_write_replica_id);
        reveal(ListOffsetsRequestData::spec_write_isolation_level);
        reveal(ListOffsetsRequestData::spec_write_topics);
        reveal(ListOffsetsRequestData::spec_write_timeout_ms);
        reveal(ListOffsetsRequestData::spec_write_tags);
    }

    /// The default message holds the default value of each field of the schema.
    pub proof fn lemma_default_values()
        ensures
            Self::default_view().replica_id == (0_i32),
            Self::default_view().isolation_level == (0_i8),
            Self::default_view().topics.len() == 0,
            Self::default_view().timeout_ms == (0_i32),
            Self::default_view().unknown_tagged_fields.len() == 0,
    {
    }

    /// Each integer, boolean and identifier field is written as its standard
    /// big-endian bytes (a boolean as `1` or `0`) in the versions that carry
    /// it, and as nothing in the others; reading it takes those bytes back (any
    /// byte other than `0` reads as `true`), or gives its default value.
    pub proof fn lemma_field_encodings(m: ListOffsetsRequestDataView, s: Seq<u8>, version: i16)
        ensures
            true ==> Self::spec_write_replica_id(m, version) == Ok::<Seq<u8>, (Error, Seq<u8>)>(u32_bytes(m.replica_id as u32)),
            version >= 2 ==> Self::spec_write_isolation_level(m, version) == Ok::<Seq<u8>, (Error, Seq<u8>)>(seq![m.isolation_level as u8]),
            !(version >= 2) ==> Self::spec_write_isolation_level(m, version) == Ok::<Seq<u8>, (Error, Seq<u8>)>(Seq::empty()),
            version >= 10 ==> Self::spec_write_timeout_ms(m, version) == Ok::<Seq<u8>, (Error, Seq<u8>)>(u32_bytes(m.timeout_ms as u32)),
            !(version >= 10) ==> Self::spec_write_timeout_ms(m, version) == Ok::<Seq<u8>, (Error, Seq<u8>)>(Seq::empty()),
            true ==> Self::spec_read_replica_id(s, version) == spec_read_i32(s),
            version >= 2 ==> Self::spec_read_isolation_level(s, version) == (if s.len() < 1 { Err(Error::UnexpectedEof) } else { Ok((s[0] as i8, s.drop_first())) }),
            !(version >= 2) ==> Self::spec_read_isolation_level(s, version) == Ok::<(i8, Seq<u8>), Error>((0_i8, s)),
            version >= 10 ==> Self::spec_read_timeout_ms(s, version) == spec_read_i32(s),
            !(version >= 10) ==> Self::spec_read_timeout_ms(s, version) == Ok::<(i32, Seq<u8>), Error>((0_i32, s)),
    {
        reveal(ListOffsetsRequestData::spec_write_replica_id);
        reveal(ListOffsetsRequestData::spec_read_replica_id);
        reveal(ListOffsetsRequestData::spec_write_isolation_level);
        reveal(ListOffsetsRequestData::spec_read_isolation_level);
        reveal(ListOffsetsRequestData::spec_write_timeout_ms);
        reveal(ListOffsetsRequestData::spec_read_timeout_ms);
    }

    /// Whether writing `m` in `version` succeeds, said over its parts: the
    /// version is one the schema covers, every field that the version cannot
    /// carry holds its default value, and every string, byte string, array and
    /// tagged field fits its length prefix.
    pub open spec fn writable(m: ListOffsetsRequestDataView, version: i16) -> bool {
        &&& 1 <= version <= 11
        &&& (m.topics.len() <= i32::MAX && all_writable::<ListOffsetsTopic>(m.topics, version))
        &&& (if version >= 6 {
                m.unknown_tagged_fields.len() <= u32::MAX && tags_fit(m.unknown_tagged_fields)
            } else {
                true
        })
    }

    proof fn lemma_writable_replica_id(m: ListOffsetsRequestDataView, version: i16)
        ensures
            Self::spec_write_replica_id(m, version) is Ok <==> true,
    {
        reveal(ListOffsetsRequestData::spec_write_replica_id);
    }

    proof fn lemma_writable_isolation_level(m: ListOffsetsRequestDataView, version: i16)
        ensures
            Self::spec_write_isolation_level(m, version) is Ok <==> true,
    {
        reveal(ListOffsetsRequestData::spec_write_isolation_level);
    }

    proof fn lemma_writable_topics(m: ListOffsetsRequestDataView, version: i16)
        ensures
            Self::spec_write_topics(m, version) is Ok <==> (m.topics.len() <= i32::MAX && all_writable::<ListOffsetsTopic>(m.topics, version)),
    {
        reveal(ListOffsetsRequestData::spec_write_topics);
        if version >= 6 {
            lemma_array_writable::<ListOffsetsTopic>(m.topics, version, true);
        } else {
            lemma_array_writable::<ListOffsetsTopic>(m.topics, version, false);
        }
    }

    proof fn lemma_writable_timeout_ms(m: ListOffsetsRequestDataView, version: i16)
        ensures
            Self::spec_write_timeout_ms(m, version) is Ok <==> true,
    {
        reveal(ListOffsetsRequestData::spec_write_timeout_ms);
    }

    proof fn lemma_writable_tags(m: ListOffsetsRequestDataView, version: i16)
        ensures
            Self::spec_write_tags(m, version) is Ok <==> (if version >= 6 { m.unknown_tagged_fields.len() <= u32::MAX && tags_fit(m.unknown_tagged_fields) } else { true }),
    {
        reveal(ListOffsetsRequestData::spec_write_tags);
        if version >= 6 {
            lemma_sorted_tags_fit(m.unknown_tagged_fields);
            lemma_tagged_fields_writable(sorted_by_tag(m.unknown_tagged_fields));
        }
    }

    /// Writing `m` in `version` succeeds exactly when `m` is writable in it;
    /// so do `write` and `encoded_len`, whose results follow `spec_write`.
    #[verifier::rlimit(60)]
    pub proof fn lemma_writable(m: ListOffsetsRequestDataView, version: i16)
        ensures
            Self::spec_write(m, version) is Ok <==> Self::writable(m, version),
    {
        Self::lemma_writable_replica_id(m, version);
        Self::lemma_writable_isolation_level(m, version);
        Self::lemma_writable_topics(m, version);
        Self::lemma_writable_timeout_ms(m, version);
        Self::lemma_writable_tags(m, version);
    }

    /// A version outside the range that the schema covers is refused, by
    /// reads and by writes alike, before anything is read or written.
    pub proof fn lemma_refused_version(m: ListOffsetsRequestDataView, s: Seq<u8>, version: i16)
        requires
            version < 1 || version > 11,
        ensures
            Self::spec_read(s, version) == Err::<(ListOffsetsRequestDataView, Seq<u8>), Error>(Error::UnsupportedVersion(UnsupportedVersion { api_key: 2, version })),
            Self::spec_write(m, version) == fail(Error::UnsupportedVersion(UnsupportedVersion { api_key: 2, version })),
    {
    }

    fn read_replica_id(buf: &mut Bytes, version: i16) -> (r: Result<i32, Error>)
        ensures
            read_as(Self::spec_read_replica_id(bytes_seq(*old(buf)), version), *final(buf), r),
            took_front(*old(buf), *final(buf)),
    {
        proof {
            reveal(ListOffsetsRequestData::spec_read_replica_id);
        }
        Ok(read_i32(buf)?)
    }

    fn read_isolation_level(buf: &mut Bytes, version: i16) -> (r: Result<i8, Error>)
        ensures
            read_as(Self::spec_read_isolation_level(bytes_seq(*old(buf)), version), *final(buf), r),
            took_front(*old(buf), *final(buf)),
    {
        proof {
            reveal(ListOffsetsRequestData::spec_read_isolation_level);
        }
        Ok(if version >= 2 {
                read_i8(buf)?
            } else {
                0_i8
        })
    }

    fn read_topics(buf: &mut Bytes, version: i16) -> (r: Result<Vec<ListOffsetsTopic>, Error>)
        ensures
            read_vec_as(Self::spec_read_topics(bytes_seq(*old(buf)), version), *final(buf), r),
            took_front(*old(buf), *final(buf)),
    {
        proof {
            reveal(ListOffsetsRequestData::spec_read_topics);
        }
        Ok(if version >= 6 {
                read_array::<ListOffsetsTopic>(buf, version, true)?
            } else {
                read_array::<ListOffsetsTopic>(buf, version, false)?
        })
    }

    fn read_timeout_ms(buf: &mut Bytes, version: i16) -> (r: Result<i32, Error>)
        ensures
            read_as(Self::spec_read_timeout_ms(bytes_seq(*old(buf)), version), *final(buf), r),
            took_front(*old(buf), *final(buf)),
    {
        proof {
            reveal(ListOffsetsRequestData::spec_read_timeout_ms);
        }
        Ok(if version >= 10 {
                read_i32(buf)?
            } else {
                0_i32
        })
    }

    fn read_tags(buf: &mut Bytes, version: i16) -> (r: Result<Vec<RawTaggedField>, Error>)
        ensures
            read_vec_as(Self::spec_read_tags(bytes_seq(*old(buf)), version), *final(buf), r),
            took_front(*old(buf), *final(buf)),
    {
        proof {
            reveal(ListOffsetsRequestData::spec_read_tags);
        }
        Ok(if version >= 6 {
                read_tagged_fields(buf)?
            } else {
                empty_vec()
        })
    }

    pub fn read(buf: &mut Bytes, version: i16) -> (r: Result<Self, Error>)
        ensures
            read_as(Self::spec_read(bytes_seq(*old(buf)), version), *final(buf), r),
            took_front(*old(buf), *final(buf)),
            (version < 1 || version > 11) ==> bytes_seq(*final(buf)) == bytes_seq(*old(buf)),
    {
        if version < 1 || version > 11 {
            return Err(Error::UnsupportedVersion(UnsupportedVersion::new(2, version)));
        }
        let replica_id = Self::read_replica_id(buf, version)?;
        let isolation_level = Self::read_isolation_level(buf, version)?;
        let topics = Self::read_topics(buf, version)?;
        let timeout_ms = Self::read_timeout_ms(buf, version)?;
        let _unknown_tagged_fields = Self::read_tags(buf, version)?;
        Ok(ListOffsetsRequestData {
                replica_id: replica_id,
                isolation_level: isolation_level,
                topics: topics,
                timeout_ms: timeout_ms,
                _unknown_tagged_fields: _unknown_tagged_fields,
        })
    }

    #[verifier::rlimit(80)]
    pub fn write(&self, buf: &mut BytesMut, version: i16) -> (r: Result<(), Error>)
        requires
            has_room(Self::spec_write(self@, version), *old(buf)),
        ensures
            wrote(Self::spec_write(self@, version), *old(buf), *final(buf), r),
    {
        if version < 1 || version > 11 {
            return Err(Error::UnsupportedVersion(UnsupportedVersion::new(2, version)));
        }
        let ghost m = self@;
        proof {
            reveal(ListOffsetsRequestData::spec_write_replica_id);
            reveal(ListOffsetsRequestData::spec_write_isolation_level);
            reveal(ListOffsetsRequestData::spec_write_topics);
            reveal(ListOffsetsRequestData::spec_write_timeout_ms);
            reveal(ListOffsetsRequestData::spec_write_tags);
        }
        let ghost s0 = Self::spec_write_replica_id(m, version);
        let ghost w0 = s0;
        let ghost s1 = Self::spec_write_isolation_level(m, version);
        let ghost w1 = chain(w0, s1);
        let ghost s2 = Self::spec_write_topics(m, version);
        let ghost w2 = chain(w1, s2);
        let ghost s3 = Self::spec_write_timeout_ms(m, version);
        let ghost w3 = chain(w2, s3);
        let ghost s4 = Self::spec_write_tags(m, version);
        let ghost w4 = chain(w3, s4);
        assert(Self::spec_write(m, version) == w4);
        assert(written(w3).len() <= written(w4).len() && (w3 is Err ==> w4 == w3));
        assert(written(w2).len() <= written(w4).len() && (w2 is Err ==> w4 == w2));
        assert(written(w1).len() <= written(w4).len() && (w1 is Err ==> w4 == w1));
        assert(written(w0).len() <= written(w4).len() && (w0 is Err ==> w4 == w0));
        let ghost mid = bytes_mut_seq(*buf);
        proof {
            lemma_append_empty(mid);
        }
        let r0 = {
            write_i32(buf, self.replica_id);
            Ok(())
        };
        assert(bytes_mut_seq(*buf) == mid + written(s0));
        if r0.is_err() {
            return r0;
        }
        let ghost mid = bytes_mut_seq(*buf);
        proof {
            lemma_append_empty(mid);
        }
        let r1 = if version >= 2 {
            {
                write_i8(buf, self.isolation_level);
                Ok(())
            }
        } else {
            Ok(())
        };
        assert(bytes_mut_seq(*buf) == mid + written(s1));
        proof {
            lemma_step(bytes_mut_seq(*old(buf)), w0, s1);
        }
        if r1.is_err() {
            return r1;
        }
        let ghost mid = bytes_mut_seq(*buf);
        proof {
            lemma_append_empty(mid);
        }
        let r2 = if version >= 6 {
            write_array::<ListOffsetsTopic>(buf, &self.topics, version, true)
        } else {
            write_array::<ListOffsetsTopic>(buf, &self.topics, version, false)
        };
        assert(bytes_mut_seq(*buf) == mid + written(s2));
        proof {
            lemma_step(bytes_mut_seq(*old(buf)), w1, s2);
        }
        if r2.is_err() {
            return r2;
        }
        let ghost mid = bytes_mut_seq(*buf);
        proof {
            lemma_append_empty(mid);
        }
        let r3 = if version >= 10 {
            {
                write_i32(buf, self.timeout_ms);
                Ok(())
            }
        } else {
            Ok(())
        };
        assert(bytes_mut_seq(*buf) == mid + written(s3));
        proof {
            lemma_step(bytes_mut_seq(*old(buf)), w2, s3);
        }
        if r3.is_err() {
            return r3;
        }
        let ghost mid = bytes_mut_seq(*buf);
        proof {
            lemma_append_empty(mid);
        }
        let r4 = if version >= 6 {
            write_tagged_fields(buf, &sort_by_tag(&self._unknown_tagged_fields))
        } else {
            Ok(())
        };
        assert(bytes_mut_seq(*buf) == mid + written(s4));
        proof {
            lemma_step(bytes_mut_seq(*old(buf)), w3, s4);
        }
        if r4.is_err() {
            return r4;
        }
        Ok(())
    }
}

#[derive(Debug, PartialEq)]
pub struct ListOffsetsTopic {
    /// The topic name.
    pub name: KafkaString,
    /// Each partition in the request.
    pub partitions: Vec<ListOffsetsPartition>,
    pub _unknown_tagged_fields: Vec<RawTaggedField>,
}

/// What a `ListOffsetsTopic` holds, as the specification sees it.
#[verifier::ext_equal]
pub struct ListOffsetsTopicView {
    pub name: Seq<u8>,
    pub partitions: Seq<ListOffsetsPartitionView>,
    pub unknown_tagged_fields: Seq<(u32, Seq<u8>)>,
}

impl View for ListOffsetsTopic {
    type V = ListOffsetsTopicView;

    open spec fn view(&self) -> ListOffsetsTopicView {
        ListOffsetsTopicView {
            name: self.name@,
            partitions: views(self.partitions@),
            unknown_tagged_fields: views(self._unknown_tagged_fields@),
        }
    }
}

impl Clone for ListOffsetsTopic {
    fn clone(&self) -> (r: Self)
        ensures
            r@ == self@,
    {
        let r = ListOffsetsTopic {
            name: self.name.clone(),
            partitions: clone_vec(&self.partitions),
            _unknown_tagged_fields: clone_vec(&self._unknown_tagged_fields),
        };
        assert(r@ =~= self@);
        r
    }
}

impl ViewClone for ListOffsetsTopic {
    fn clone_view(&self) -> (r: Self) {
        self.clone()
    }
}

impl Default for ListOffsetsTopic {
    fn default() -> (r: Self)
        ensures
            r@ == Self::default_view(),
    {
        let r = ListOffsetsTopic {
            name: KafkaString::default(),
            partitions: empty_vec(),
            _unknown_tagged_fields: empty_vec(),
        };
        assert(r@ =~= Self::default_view());
        r
    }
}

impl ListOffsetsTopic {
    pub open spec fn default_view() -> ListOffsetsTopicView {
        ListOffsetsTopicView {
            name: Seq::empty(),
            partitions: Seq::empty(),
            unknown_tagged_fields: Seq::empty(),
        }
    }

    /// The `name` field, read from the front of `s`.
    #[verifier::opaque]
    pub open spec fn spec_read_name(s: Seq<u8>, version: i16) -> ReadOutcome<Seq<u8>> {
        if version >= 6 {
            spec_read_compact_string(s)
        } else {
            spec_read_string(s)
        }
    }

    /// The `partitions` field, read from the front of `s`.
    #[verifier::opaque]
    pub open spec fn spec_read_partitions(s: Seq<u8>, version: i16) -> ReadOutcome<Seq<ListOffsetsPartitionView>> {
        if version >= 6 {
            spec_read_array::<ListOffsetsPartition>(s, version, true)
        } else {
            spec_read_array::<ListOffsetsPartition>(s, version, false)
        }
    }

    /// The tagged fields, read from the front of `s`.
    #[verifier::opaque]
    pub open spec fn spec_read_tags(s: Seq<u8>, version: i16) -> ReadOutcome<Seq<(u32, Seq<u8>)>> {
        if version >= 6 {
            spec_read_tagged_fields(s)
        } else {
            Ok((Seq::empty(), s))
        }
    }

    pub open spec fn spec_read(s: Seq<u8>, version: i16) -> ReadOutcome<ListOffsetsTopicView> {
        match (Self::spec_read_name(s, version)) {
            Err(e) => Err(e),
            Ok((name, s)) => match (Self::spec_read_partitions(s, version)) {
                Err(e) => Err(e),
                Ok((partitions, s)) => match (Self::spec_read_tags(s, version)) {
                    Err(e) => Err(e),
                    Ok((unknown_tagged_fields, s)) => Ok((ListOffsetsTopicView {
                                name: name,
                                partitions: partitions,
                                unknown_tagged_fields: unknown_tagged_fields,
                            }, s)),
                },
            },
        }
    }

    /// What writing the `name` field of `m` appends.
    #[verifier::opaque]
    pub open spec fn spec_write_name(m: ListOffsetsTopicView, version: i16) -> WriteOutcome {
        if version >= 6 {
            spec_write_compact_string(m.name)
        } else {
            spec_write_string(m.name)
        }
    }

    /// What writing the `partitions` field of `m` appends.
    #[verifier::opaque]
    pub open spec fn spec_write_partitions(m: ListOffsetsTopicView, version: i16) -> WriteOutcome {
        if version >= 6 {
            spec_write_array::<ListOffsetsPartition>(m.partitions, version, true)
        } else {
            spec_write_array::<ListOffsetsPartition>(m.partitions, version, false)
        }
    }

    /// What writing the tagged fields of `m` appends.
    #[verifier::opaque]
    pub open spec fn spec_write_tags(m: ListOffsetsTopicView, version: i16) -> WriteOutcome {
        if version >= 6 {
            spec_write_tagged_fields(sorted_by_tag(m.unknown_tagged_fields))
        } else {
            emit(Seq::empty())
        }
    }

    pub open spec fn spec_write(m: ListOffsetsTopicView, version: i16) -> WriteOutcome {
        chain(
            chain(
                Self::spec_write_name(m, version),
                Self::spec_write_partitions(m, version),
            ),
            Self::spec_write_tags(m, version),
        )
    }

    /// Whether reading back what writing `m` in `version` appends gives `m`:
    /// fields that the version does not carry hold their default values, and
    /// tagged fields come in the order in which they are written.
    pub open spec fn canonical(m: ListOffsetsTopicView, version: i16) -> bool {
        &&& all_canonical::<ListOffsetsPartition>(m.partitions, version)
        &&& (if version >= 6 {
                tags_in_order(m.unknown_tagged_fields)
            } else {
                m.unknown_tagged_fields.len() == 0
        })
    }

    proof fn lemma_round_trip_name(m: ListOffsetsTopicView, version: i16, rest: Seq<u8>)
        requires
            Self::canonical(m, version),
            Self::spec_write_name(m, version) is Ok,
        ensures
            Self::spec_read_name(written(Self::spec_write_name(m, version)) + rest, version) == Ok::<(Seq<u8>, Seq<u8>), Error>((m.name, rest)),
    {
        reveal(ListOffsetsTopic::spec_read_name);
        reveal(ListOffsetsTopic::spec_write_name);
        if version >= 6 {
            lemma_compact_string_round_trip(m.name, rest);
        } else {
            lemma_string_round_trip(m.name, rest);
        }
    }

    proof fn lemma_round_trip_partitions(m: ListOffsetsTopicView, version: i16, rest: Seq<u8>)
        requires
            Self::canonical(m, version),
            Self::spec_write_partitions(m, version) is Ok,
        ensures
            Self::spec_read_partitions(written(Self::spec_write_partitions(m, version)) + rest, version) == Ok::<(Seq<ListOffsetsPartitionView>, Seq<u8>), Error>((m.partitions, rest)),
    {
        reveal(ListOffsetsTopic::spec_read_partitions);
        reveal(ListOffsetsTopic::spec_write_partitions);
        if version >= 6 {
            lemma_array_round_trip::<ListOffsetsPartition>(m.partitions, version, true, rest);
        } else {
            lemma_array_round_trip::<ListOffsetsPartition>(m.partitions, version, false, rest);
        }
    }

    proof fn lemma_round_trip_tags(m: ListOffsetsTopicView, version: i16, rest: Seq<u8>)
        requires
            Self::canonical(m, version),
            Self::spec_write_tags(m, version) is Ok,
        ensures
            Self::spec_read_tags(written(Self::spec_write_tags(m, version)) + rest, version) == Ok::<(Seq<(u32, Seq<u8>)>, Seq<u8>), Error>((m.unknown_tagged_fields, rest)),
    {
        reveal(ListOffsetsTopic::spec_read_tags);
        reveal(ListOffsetsTopic::spec_write_tags);
        if version >= 6 {
            lemma_sorted_by_tag_in_order(m.unknown_tagged_fields);
            lemma_tagged_fields_round_trip(m.unknown_tagged_fields, rest);
        } else {
            assert(Seq::<u8>::empty() + rest =~= rest);
            assert(m.unknown_tagged_fields =~= Seq::empty());
        }
    }

    /// Reading back what writing `m` in `version` appends gives `m` again, and
    /// leaves what follows, for every canonical message whose write succeeds.
    #[verifier::rlimit(70)]
    #[verifier::spinoff_prover]
    pub proof fn lemma_round_trip(m: ListOffsetsTopicView, version: i16, rest: Seq<u8>)
        requires
            Self::canonical(m, version),
            Self::spec_write(m, version) is Ok,
        ensures
            Self::spec_read(written(Self::spec_write(m, version)) + rest, version) == Ok::<(ListOffsetsTopicView, Seq<u8>), Error>((m, rest)),
    {
        let b0 = written(Self::spec_write_name(m, version));
        let b1 = written(Self::spec_write_partitions(m, version));
        let b2 = written(Self::spec_write_tags(m, version));
        let t3 = rest;
        let t2 = b2 + t3;
        let t1 = b1 + t2;
        let t0 = b0 + t1;
        let w0 = Self::spec_write_name(m, version);
        let w1 = chain(w0, Self::spec_write_partitions(m, version));
        let w2 = chain(w1, Self::spec_write_tags(m, version));
        assert(Self::spec_write(m, version) == w2);
        assert(written(w2) + t3 =~= written(w1) + t2);
        assert(written(w1) + t2 =~= written(w0) + t1);
        Self::lemma_round_trip_name(m, version, t1);
        Self::lemma_round_trip_partitions(m, version, t2);
        Self::lemma_round_trip_tags(m, version, t3);
    }

    /// In a version that does not carry `unknown_tagged_fields`, writing ignores its value.
    pub proof fn lemma_write_ignores_unknown_tagged_fields(m: ListOffsetsTopicView, value: Seq<(u32, Seq<u8>)>, version: i16)
        requires
            !(version >= 6),
        ensures
            Self::spec_write((ListOffsetsTopicView { unknown_tagged_fields: value, ..m }), version) == Self::spec_write(m, version),
    {
        reveal(ListOffsetsTopic::spec_write_name);
        reveal(ListOffsetsTopic::spec_write_partitions);
        reveal(ListOffsetsTopic::spec_write_tags);
    }

    /// The default message holds the default value of each field of the schema.
    pub proof fn lemma_default_values()
        ensures
            Self::default_view().name.len() == 0,
            Self::default_view().partitions.len() == 0,
            Self::default_view().unknown_tagged_fields.len() == 0,
    {
    }

    /// Whether writing `m` in `version` succeeds, said over its parts: the
    /// version is one the schema covers, every field that the version cannot
    /// carry holds its default value, and every string, byte string, array and
    /// tagged field fits its length prefix.
    pub open spec fn writable(m: ListOffsetsTopicView, version: i16) -> bool {
        &&& m.name.len() <= 0x7fff
        &&& (m.partitions.len() <= i32::MAX && all_writable::<ListOffsetsPartition>(m.partitions, version))
        &&& (if version >= 6 {
                m.unknown_tagged_fields.len() <= u32::MAX && tags_fit(m.unknown_tagged_fields)
            } else {
                true
        })
    }

    proof fn lemma_writable_name(m: ListOffsetsTopicView, version: i16)
        ensures
            Self::spec_write_name(m, version) is Ok <==> m.name.len() <= 0x7fff,
    {
        reveal(ListOffsetsTopic::spec_write_name);
    }

    proof fn lemma_writable_partitions(m: ListOffsetsTopicView, version: i16)
        ensures
            Self::spec_write_partitions(m, version) is Ok <==> (m.partitions.len() <= i32::MAX && all_writable::<ListOffsetsPartition>(m.partitions, version)),
    {
        reveal(ListOffsetsTopic::spec_write_partitions);
        if version >= 6 {
            lemma_array_writable::<ListOffsetsPartition>(m.partitions, version, true);
        } else {
            lemma_array_writable::<ListOffsetsPartition>(m.partitions, version, false);
        }
    }

    proof fn lemma_writable_tags(m: ListOffsetsTopicView, version: i16)
        ensures
            Self::spec_write_tags(m, version) is Ok <==> (if version >= 6 { m.unknown_tagged_fields.len() <= u32::MAX && tags_fit(m.unknown_tagged_fields) } else { true }),
    {
        reveal(ListOffsetsTopic::spec_write_tags);
        if version >= 6 {
            lemma_sorted_tags_fit(m.unknown_tagged_fields);
            lemma_tagged_fields_writable(sorted_by_tag(m.unknown_tagged_fields));
        }
    }

    /// Writing `m` in `version` succeeds exactly when `m` is writable in it;
    /// so do `write` and `encoded_len`, whose results follow `spec_write`.
    #[verifier::rlimit(48)]
    pub proof fn lemma_writable(m: ListOffsetsTopicView, version: i16)
        ensures
            Self::spec_write(m, version) is Ok <==> Self::writable(m, version),
    {
        Self::lemma_writable_name(m, version);
        Self::lemma_writable_partitions(m, version);
        Self::lemma_writable_tags(m, version);
    }

    fn read_name(buf: &mut Bytes, version: i16) -> (r: Result<KafkaString, Error>)
        ensures
            read_as(Self::spec_read_name(bytes_seq(*old(buf)), version), *final(buf), r),
            took_front(*old(buf), *final(buf)),
    {
        proof {
            reveal(ListOffsetsTopic::spec_read_name);
        }
        Ok(if version >= 6 {
                read_compact_string(buf)?
            } else {
                read_string(buf)?
        })
    }

    fn read_partitions(buf: &mut Bytes, version: i16) -> (r: Result<Vec<ListOffsetsPartition>, Error>)
        ensures
            read_vec_as(Self::spec_read_partitions(bytes_seq(*old(buf)), version), *final(buf), r),
            took_front(*old(buf), *final(buf)),
    {
        proof {
            reveal(ListOffsetsTopic::spec_read_partitions);
        }
        Ok(if version >= 6 {
                read_array::<ListOffsetsPartition>(buf, version, true)?
            } else {
                read_array::<ListOffsetsPartition>(buf, version, false)?
        })
    }

    fn read_tags(buf: &mut Bytes, version: i16) -> (r: Result<Vec<RawTaggedField>, Error>)
        ensures
            read_vec_as(Self::spec_read_tags(bytes_seq(*old(buf)), version), *final(buf), r),
            took_front(*old(buf), *final(buf)),
    {
        proof {
            reveal(ListOffsetsTopic::spec_read_tags);
        }
        Ok(if version >= 6 {
                read_tagged_fields(buf)?
            } else {
                empty_vec()
        })
    }

    pub fn read(buf: &mut Bytes, version: i16) -> (r: Result<Self, Error>)
        ensures
            read_as(Self::spec_read(bytes_seq(*old(buf)), version), *final(buf), r),
            took_front(*old(buf), *final(buf)),
    {
        let name = Self::read_name(buf, version)?;
        let partitions = Self::read_partitions(buf, version)?;
        let _unknown_tagged_fields = Self::read_tags(buf, version)?;
        Ok(ListOffsetsTopic {
                name: name,
                partitions: partitions,
                _unknown_tagged_fields: _unknown_tagged_fields,
        })
    }

    #[verifier::rlimit(60)]
    pub fn write(&self, buf: &mut BytesMut, version: i16) -> (r: Result<(), Error>)
        requires
            has_room(Self::spec_write(self@, version), *old(buf)),
        ensures
            wrote(Self::spec_write(self@, version), *old(buf), *final(buf), r),
    {
        let ghost m = self@;
        proof {
            reveal(ListOffsetsTopic::spec_write_name);
            reveal(ListOffsetsTopic::spec_write_partitions);
            reveal(ListOffsetsTopic::spec_write_tags);
        }
        let ghost s0 = Self::spec_write_name(m, version);
        let ghost w0 = s0;
        let ghost s1 = Self::spec_write_partitions(m, version);
        let ghost w1 = chain(w0, s1);
        let ghost s2 = Self::spec_write_tags(m, version);
        let ghost w2 = chain(w1, s2);
        assert(Self::spec_write(m, version) == w2);
        assert(written(w1).len() <= written(w2).len() && (w1 is Err ==> w2 == w1));
        assert(written(w0).len() <= written(w2).len() && (w0 is Err ==> w2 == w0));
        let ghost mid = bytes_mut_seq(*buf);
        proof {
            lemma_append_empty(mid);
        }
        let r0 = if version >= 6 {
            write_compact_string(buf, &self.name)
        } else {
            write_string(buf, &self.name)
        };
        assert(bytes_mut_seq(*buf) == mid + written(s0));
        if r0.is_err() {
            return r0;
        }
        let ghost mid = bytes_mut_seq(*buf);
        proof {
            lemma_append_empty(mid);
        }
        let r1 = if version >= 6 {
            write_array::<ListOffsetsPartition>(buf, &self.partitions, version, true)
        } else {
            write_array::<ListOffsetsPartition>(buf, &self.partitions, version, false)
        };
        assert(bytes_mut_seq(*buf) == mid + written(s1));
        proof {
            lemma_step(bytes_mut_seq(*old(buf)), w0, s1);
        }
        if r1.is_err() {
            return r1;
        }
        let ghost mid = bytes_mut_seq(*buf);
        proof {
            lemma_append_empty(mid);
        }
        let r2 = if version >= 6 {
            write_tagged_fields(buf, &sort_by_tag(&self._unknown_tagged_fields))
        } else {
            Ok(())
        };
        assert(bytes_mut_seq(*buf) == mid + written(s2));
        proof {
            lemma_step(bytes_mut_seq(*old(buf)), w1, s2);
        }
        if r2.is_err() {
            return r2;
        }
        Ok(())
    }
}

#[derive(Debug, PartialEq)]
pub struct ListOffsetsPartition {
    /// The partition index.
    pub partition_index: i32,
    /// The current leader epoch.
    pub current_leader_epoch: i32,
    /// The current timestamp.
    pub timestamp: i64,
    pub _unknown_tagged_fields: Vec<RawTaggedField>,
}

/// What a `ListOffsetsPartition` holds, as the specification sees it.
#[verifier::ext_equal]
pub struct ListOffsetsPartitionView {
    pub partition_index: i32,
    pub current_leader_epoch: i32,
    pub timestamp: i64,
    pub unknown_tagged_fields: Seq<(u32, Seq<u8>)>,
}

impl View for ListOffsetsPartition {
    type V = ListOffsetsPartitionView;

    open spec fn view(&self) -> ListOffsetsPartitionView {
        ListOffsetsPartitionView {
            partition_index: self.partition_index,
            current_leader_epoch: self.current_leader_epoch,
            timestamp: self.timestamp,
            unknown_tagged_fields: views(self._unknown_tagged_fields@),
        }
    }
}

impl Clone for ListOffsetsPartition {
    fn clone(&self) -> (r: Self)
        ensures
            r@ == self@,
    {
        let r = ListOffsetsPartition {
            partition_index: self.partition_index,
            current_leader_epoch: self.current_leader_epoch,
            timestamp: self.timestamp,
            _unknown_tagged_fields: clone_vec(&self._unknown_tagged_fields),
        };
        assert(r@ =~= self@);
        r
    }
}

impl ViewClone for ListOffsetsPartition {
    fn clone_view(&self) -> (r: Self) {
        self.clone()
    }
}

impl Default for ListOffsetsPartition {
    fn default() -> (r: Self)
        ensures
            r@ == Self::default_view(),
    {
        let r = ListOffsetsPartition {
            partition_index: 0_i32,
            current_leader_epoch: -1i32,
            timestamp: 0_i64,
            _unknown_tagged_fields: empty_vec(),
        };
        assert(r@ =~= Self::default_view());
        r
    }
}

impl ListOffsetsPartition {
    pub open spec fn default_view() -> ListOffsetsPartitionView {
        ListOffsetsPartitionView {
            partition_index: 0_i32,
            current_leader_epoch: -1i32,
            timestamp: 0_i64,
            unknown_tagged_fields: Seq::empty(),
        }
    }

    /// The `partition_index` field, read from the front of `s`.
    #[verifier::opaque]
    pub open spec fn spec_read_partition_index(s: Seq<u8>, version: i16) -> ReadOutcome<i32> {
        spec_read_i32(s)
    }

    /// The `current_leader_epoch` field, read from the front of `s`.
    #[verifier::opaque]
    pub open spec fn spec_read_current_leader_epoch(s: Seq<u8>, version: i16) -> ReadOutcome<i32> {
        if version >= 4 {
            spec_read_i32(s)
        } else {
            Ok((-1i32, s))
        }
    }

    /// The `timestamp` field, read from the front of `s`.
    #[verifier::opaque]
    pub open spec fn spec_read_timestamp(s: Seq<u8>, version: i16) -> ReadOutcome<i64> {
        spec_read_i64(s)
    }

    /// The tagged fields, read from the front of `s`.
    #[verifier::opaque]
    pub open spec fn spec_read_tags(s: Seq<u8>, version: i16) -> ReadOutcome<Seq<(u32, Seq<u8>)>> {
        if version >= 6 {
            spec_read_tagged_fields(s)
        } else {
            Ok((Seq::empty(), s))
        }
    }

    pub open spec fn spec_read(s: Seq<u8>, version: i16) -> ReadOutcome<ListOffsetsPartitionView> {
        match (Self::spec_read_partition_index(s, version)) {
            Err(e) => Err(e),
            Ok((partition_index, s)) => match (Self::spec_read_current_leader_epoch(s, version)) {
                Err(e) => Err(e),
                Ok((current_leader_epoch, s)) => match (Self::spec_read_timestamp(s, version)) {
                    Err(e) => Err(e),
                    Ok((timestamp, s)) => match (Self::spec_read_tags(s, version)) {
                        Err(e) => Err(e),
                        Ok((unknown_tagged_fields, s)) => Ok((ListOffsetsPartitionView {
                                    partition_index: partition_index,
                                    current_leader_epoch: current_leader_epoch,
                                    timestamp: timestamp,
                                    unknown_tagged_fields: unknown_tagged_fields,
                                }, s)),
                    },
                },
            },
        }
    }

    /// What writing the `partition_index` field of `m` appends.
    #[verifier::opaque]
    pub open spec fn spec_write_partition_index(m: ListOffsetsPartitionView, version: i16) -> WriteOutcome {
        spec_write_i32(m.partition_index)
    }

    /// What writing the `current_leader_epoch` field of `m` appends.
    #[verifier::opaque]
    pub open spec fn spec_write_current_leader_epoch(m: ListOffsetsPartitionView, version: i16) -> WriteOutcome {
        if version >= 4 {
            spec_write_i32(m.current_leader_epoch)
        } else {
            emit(Seq::empty())
        }
    }

    /// What writing the `timestamp` field of `m` appends.
    #[verifier::opaque]
    pub open spec fn spec_write_timestamp(m: ListOffsetsPartitionView, version: i16) -> WriteOutcome {
        spec_write_i64(m.timestamp)
    }

    /// What writing the tagged fields of `m` appends.
    #[verifier::opaque]
    pub open spec fn spec_write_tags(m: ListOffsetsPartitionView, version: i16) -> WriteOutcome {
        if version >= 6 {
            spec_write_tagged_fields(sorted_by_tag(m.unknown_tagged_fields))
        } else {
            emit(Seq::empty())
        }
    }

    pub open spec fn spec_write(m: ListOffsetsPartitionView, version: i16) -> WriteOutcome {
        chain(
            chain(
                chain(
                    Self::spec_write_partition_index(m, version),
                    Self::spec_write_current_leader_epoch(m, version),
                ),
                Self::spec_write_timestamp(m, version),
            ),
            Self::spec_write_tags(m, version),
        )
    }

    /// Whether reading back what writing `m` in `version` appends gives `m`:
    /// fields that the version does not carry hold their default values, and
    /// tagged fields come in the order in which they are written.
    pub open spec fn canonical(m: ListOffsetsPartitionView, version: i16) -> bool {
        &&& (if version >= 4 {
                true
            } else {
                m.current_leader_epoch == -1i32
        })
        &&& (if version >= 6 {
                tags_in_order(m.unknown_tagged_fields)
            } else {
                m.unknown_tagged_fields.len() == 0
        })
    }

    proof fn lemma_round_trip_partition_index(m: ListOffsetsPartitionView, version: i16, rest: Seq<u8>)
        requires
            Self::canonical(m, version),
            Self::spec_write_partition_index(m, version) is Ok,
        ensures
            Self::spec_read_partition_index(written(Self::spec_write_partition_index(m, version)) + rest, version) == Ok::<(i32, Seq<u8>), Error>((m.partition_index, rest)),
    {
        reveal(ListOffsetsPartition::spec_read_partition_index);
        reveal(ListOffsetsPartition::spec_write_partition_index);
        lemma_i32_roundtrip(m.partition_index, rest);
    }

    proof fn lemma_round_trip_current_leader_epoch(m: ListOffsetsPartitionView, version: i16, rest: Seq<u8>)
        requires
            Self::canonical(m, version),
            Self::spec_write_current_leader_epoch(m, version) is Ok,
        ensures
            Self::spec_read_current_leader_epoch(written(Self::spec_write_current_leader_epoch(m, version)) + rest, version) == Ok::<(i32, Seq<u8>), Error>((m.current_leader_epoch, rest)),
    {
        reveal(ListOffsetsPartition::spec_read_current_leader_epoch);
        reveal(ListOffsetsPartition::spec_write_current_leader_epoch);
        if version >= 4 {
            lemma_i32_roundtrip(m.current_leader_epoch, rest);
        } else {
            assert(Seq::<u8>::empty() + rest =~= rest);
        }
    }

    proof fn lemma_round_trip_timestamp(m: ListOffsetsPartitionView, version: i16, rest: Seq<u8>)
        requires
            Self::canonical(m, version),
            Self::spec_write_timestamp(m, version) is Ok,
        ensures
            Self::spec_read_timestamp(written(Self::spec_write_timestamp(m, version)) + rest, version) == Ok::<(i64, Seq<u8>), Error>((m.timestamp, rest)),
    {
        reveal(ListOffsetsPartition::spec_read_timestamp);
        reveal(ListOffsetsPartition::spec_write_timestamp);
        lemma_i64_roundtrip(m.timestamp, rest);
    }

    proof fn lemma_round_trip_tags(m: ListOffsetsPartitionView, version: i16, rest: Seq<u8>)
        requires
            Self::canonical(m, version),
            Self::spec_write_tags(m, version) is Ok,
        ensures
            Self::spec_read_tags(written(Self::spec_write_tags(m, version)) + rest, version) == Ok::<(Seq<(u32, Seq<u8>)>, Seq<u8>), Error>((m.unknown_tagged_fields, rest)),
    {
        reveal(ListOffsetsPartition::spec_read_tags);
        reveal(ListOffsetsPartition::spec_write_tags);
        if version >= 6 {
            lemma_sorted_by_tag_in_order(m.unknown_tagged_fields);
            lemma_tagged_fields_round_trip(m.unknown_tagged_fields, rest);
        } else {
            assert(Seq::<u8>::empty() + rest =~= rest);
            assert(m.unknown_tagged_fields =~= Seq::empty());
        }
    }

    /// Reading back what writing `m` in `version` appends gives `m` again, and
    /// leaves what follows, for every canonical message whose write succeeds.
    #[verifier::rlimit(80)]
    #[verifier::spinoff_prover]
    pub proof fn lemma_round_trip(m: ListOffsetsPartitionView, version: i16, rest: Seq<u8>)
        requires
            Self::canonical(m, version),
            Self::spec_write(m, version) is Ok,
        ensures
            Self::spec_read(written(Self::spec_write(m, version)) + rest, version) == Ok::<(ListOffsetsPartitionView, Seq<u8>), Error>((m, rest)),
    {
        let b0 = written(Self::spec_write_partition_index(m, version));
        let b1 = written(Self::spec_write_current_leader_epoch(m, version));
        let b2 = written(Self::spec_write_timestamp(m, version));
        let b3 = written(Self::spec_write_tags(m, version));
        let t4 = rest;
        let t3 = b3 + t4;
        let t2 = b2 + t3;
        let t1 = b1 + t2;
        let t0 = b0 + t1;
        let w0 = Self::spec_write_partition_index(m, version);
        let w1 = chain(w0, Self::spec_write_current_leader_epoch(m, version));
        let w2 = chain(w1, Self::spec_write_timestamp(m, version));
        let w3 = chain(w2, Self::spec_write_tags(m, version));
        assert(Self::spec_write(m, version) == w3);
        assert(written(w3) + t4 =~= written(w2) + t3);
        assert(written(w2) + t3 =~= written(w1) + t2);
        assert(written(w1) + t2 =~= written(w0) + t1);
        Self::lemma_round_trip_partition_index(m, version, t1);
        Self::lemma_round_trip_current_leader_epoch(m, version, t2);
        Self::lemma_round_trip_timestamp(m, version, t3);
        Self::lemma_round_trip_tags(m, version, t4);
    }

    /// In a version that does not carry `current_leader_epoch`, writing ignores its value.
    pub proof fn lemma_write_ignores_current_leader_epoch(m: ListOffsetsPartitionView, value: i32, version: i16)
        requires
            !(version >= 4),
        ensures
            Self::spec_write((ListOffsetsPartitionView { current_leader_epoch: value, ..m }), version) == Self::spec_write(m, version),
    {
        reveal(ListOffsetsPartition::spec_write_partition_index);
        reveal(ListOffsetsPartition::spec_write_current_leader_epoch);
        reveal(ListOffsetsPartition::spec_write_timestamp);
        reveal(ListOffsetsPartition::spec_write_tags);
    }

    /// In a version that does not carry `unknown_tagged_fields`, writing ignores its value.
    pub proof fn lemma_write_ignores_unknown_tagged_fields(m: ListOffsetsPartitionView, value: Seq<(u32, Seq<u8>)>, version: i16)
        requires
            !(version >= 6),
        ensures
            Self::spec_write((ListOffsetsPartitionView { unknown_tagged_fields: value, ..m }), version) == Self::spec_write(m, version),
    {
        reveal(ListOffsetsPartition::spec_write_partition_index);
        reveal(ListOffsetsPartition::spec_write_current_leader_epoch);
        reveal(ListOffsetsPartition::spec_write_timestamp);
        reveal(ListOffsetsPartition::spec_write_tags);
    }

    /// The default message holds the default value of each field of the schema.
    pub proof fn lemma_default_values()
        ensures
            Self::default_view().partition_index == (0_i32),
            Self::default_view().current_leader_epoch == (-1i32),
            Self::default_view().timestamp == (0_i64),
            Self::default_view().unknown_tagged_fields.len() == 0,
    {
    }

    /// Each integer, boolean and identifier field is written as its standard
    /// big-endian bytes (a boolean as `1` or `0`) in the versions that carry
    /// it, and as nothing in the others; reading it takes those bytes back (any
    /// byte other than `0` reads as `true`), or gives its default value.
    pub proof fn lemma_field_encodings(m: ListOffsetsPartitionView, s: Seq<u8>, version: i16)
        ensures
            true ==> Self::spec_write_partition_index(m, version) == Ok::<Seq<u8>, (Error, Seq<u8>)>(u32_bytes(m.partition_index as u32)),
            version >= 4 ==> Self::spec_write_current_leader_epoch(m, version) == Ok::<Seq<u8>, (Error, Seq<u8>)>(u32_bytes(m.current_leader_epoch as u32)),
            !(version >= 4) ==> Self::spec_write_current_leader_epoch(m, version) == Ok::<Seq<u8>, (Error, Seq<u8>)>(Seq::empty()),
            true ==> Self::spec_write_timestamp(m, version) == Ok::<Seq<u8>, (Error, Seq<u8>)>(u64_bytes(m.timestamp as u64)),
            true ==> Self::spec_read_partition_index(s, version) == spec_read_i32(s),
            version >= 4 ==> Self::spec_read_current_leader_epoch(s, version) == spec_read_i32(s),
            !(version >= 4) ==> Self::spec_read_current_leader_epoch(s, version) == Ok::<(i32, Seq<u8>), Error>((-1i32, s)),
            true ==> Self::spec_read_timestamp(s, version) == spec_read_i64(s),
    {
        reveal(ListOffsetsPartition::spec_write_partition_index);
        reveal(ListOffsetsPartition::spec_read_partition_index);
        reveal(ListOffsetsPartition::spec_write_current_leader_epoch);
        reveal(ListOffsetsPartition::spec_read_current_leader_epoch);
        reveal(ListOffsetsPartition::spec_write_timestamp);
        reveal(ListOffsetsPartition::spec_read_timestamp);
    }

    /// Whether writing `m` in `version` succeeds, said over its parts: the
    /// version is one the schema covers, every field that the version cannot
    /// carry holds its default value, and every string, byte string, array and
    /// tagged field fits its length prefix.
    pub open spec fn writable(m: ListOffsetsPartitionView, version: i16) -> bool {
        &&& (if version >= 6 {
                m.unknown_tagged_fields.len() <= u32::MAX && tags_fit(m.unknown_tagged_fields)
            } else {
                true
        })
    }

    proof fn lemma_writable_partition_index(m: ListOffsetsPartitionView, version: i16)
        ensures
            Self::spec_write_partition_index(m, version) is Ok <==> true,
    {
        reveal(ListOffsetsPartition::spec_write_partition_index);
    }

    proof fn lemma_writable_current_leader_epoch(m: ListOffsetsPartitionView, version: i16)
        ensures
            Self::spec_write_current_leader_epoch(m, version) is Ok <==> true,
    {
        reveal(ListOffsetsPartition::spec_write_current_leader_epoch);
    }

    proof fn lemma_writable_timestamp(m: ListOffsetsPartitionView, version: i16)
        ensures
            Self::spec_write_timestamp(m, version) is Ok <==> true,
    {
        reveal(ListOffsetsPartition::spec_write_timestamp);
    }

    proof fn lemma_writable_tags(m: ListOffsetsPartitionView, version: i16)
        ensures
            Self::spec_write_tags(m, version) is Ok <==> (if version >= 6 { m.unknown_tagged_fields.len() <= u32::MAX && tags_fit(m.unknown_tagged_fields) } else { true }),
    {
        reveal(ListOffsetsPartition::spec_write_tags);
        if version >= 6 {
            lemma_sorted_tags_fit(m.unknown_tagged_fields);
            lemma_tagged_fields_writable(sorted_by_tag(m.unknown_tagged_fields));
        }
    }

    /// Writing `m` in `version` succeeds exactly when `m` is writable in it;
    /// so do `write` and `encoded_len`, whose results follow `spec_write`.
    #[verifier::rlimit(54)]
    pub proof fn lemma_writable(m: ListOffsetsPartitionView, version: i16)
        ensures
            Self::spec_write(m, version) is Ok <==> Self::writable(m, version),
    {
        Self::lemma_writable_partition_index(m, version);
        Self::lemma_writable_current_leader_epoch(m, version);
        Self::lemma_writable_timestamp(m, version);
        Self::lemma_writable_tags(m, version);
    }

    fn read_partition_index(buf: &mut Bytes, version: i16) -> (r: Result<i32, Error>)
        ensures
            read_as(Self::spec_read_partition_index(bytes_seq(*old(buf)), version), *final(buf), r),
            took_front(*old(buf), *final(buf)),
    {
        proof {
            reveal(ListOffsetsPartition::spec_read_partition_index);
        }
        Ok(read_i32(buf)?)
    }

    fn read_current_leader_epoch(buf: &mut Bytes, version: i16) -> (r: Result<i32, Error>)
        ensures
            read_as(Self::spec_read_current_leader_epoch(bytes_seq(*old(buf)), version), *final(buf), r),
            took_front(*old(buf), *final(buf)),
    {
        proof {
            reveal(ListOffsetsPartition::spec_read_current_leader_epoch);
        }
        Ok(if version >= 4 {
                read_i32(buf)?
            } else {
                -1i32
        })
    }

    fn read_timestamp(buf: &mut Bytes, version: i16) -> (r: Result<i64, Error>)
        ensures
            read_as(Self::spec_read_timestamp(bytes_seq(*old(buf)), version), *final(buf), r),
            took_front(*old(buf), *final(buf)),
    {
        proof {
            reveal(ListOffsetsPartition::spec_read_timestamp);
        }
        Ok(read_i64(buf)?)
    }

    fn read_tags(buf: &mut Bytes, version: i16) -> (r: Result<Vec<RawTaggedField>, Error>)
        ensures
            read_vec_as(Self::spec_read_tags(bytes_seq(*old(buf)), version), *final(buf), r),
            took_front(*old(buf), *final(buf)),
    {
        proof {
            reveal(ListOffsetsPartition::spec_read_tags);
        }
        Ok(if version >= 6 {
                read_tagged_fields(buf)?
            } else {
                empty_vec()
        })
    }

    pub fn read(buf: &mut Bytes, version: i16) -> (r: Result<Self, Error>)
        ensures
            read_as(Self::spec_read(bytes_seq(*old(buf)), version), *final(buf), r),
            took_front(*old(buf), *final(buf)),
    {
        let partition_index = Self::read_partition_index(buf, version)?;
        let current_leader_epoch = Self::read_current_leader_epoch(buf, version)?;
        let timestamp = Self::read_timestamp(buf, version)?;
        let _unknown_tagged_fields = Self::read_tags(buf, version)?;
        Ok(ListOffsetsPartition {
                partition_index: partition_index,
                current_leader_epoch: current_leader_epoch,
                timestamp: timestamp,
                _unknown_tagged_fields: _unknown_tagged_fields,
        })
    }

    #[verifier::rlimit(70)]
    pub fn write(&self, buf: &mut BytesMut, version: i16) -> (r: Result<(), Error>)
        requires
            has_room(Self::spec_write(self@, version), *old(buf)),
        ensures
            wrote(Self::spec_write(self@, version), *old(buf), *final(buf), r),
    {
        let ghost m = self@;
        proof {
            reveal(ListOffsetsPartition::spec_write_partition_index);
            reveal(ListOffsetsPartition::spec_write_current_leader_epoch);
            reveal(ListOffsetsPartition::spec_write_timestamp);
            reveal(ListOffsetsPartition::spec_write_tags);
        }
        let ghost s0 = Self::spec_write_partition_index(m, version);
        let ghost w0 = s0;
        let ghost s1 = Self::spec_write_current_leader_epoch(m, version);
        let ghost w1 = chain(w0, s1);
        let ghost s2 = Self::spec_write_timestamp(m, version);
        let ghost w2 = chain(w1, s2);
        let ghost s3 = Self::spec_write_tags(m, version);
        let ghost w3 = chain(w2, s3);
        assert(Self::spec_write(m, version) == w3);
        assert(written(w2).len() <= written(w3).len() && (w2 is Err ==> w3 == w2));
        assert(written(w1).len() <= written(w3).len() && (w1 is Err ==> w3 == w1));
        assert(written(w0).len() <= written(w3).len() && (w0 is Err ==> w3 == w0));
        let ghost mid = bytes_mut_seq(*buf);
        proof {
            lemma_append_empty(mid);
        }
        let r0 = {
            write_i32(buf, self.partition_index);
            Ok(())
        };
        assert(bytes_mut_seq(*buf) == mid + written(s0));
        if r0.is_err() {
            return r0;
        }
        let ghost mid = bytes_mut_seq(*buf);
        proof {
            lemma_append_empty(mid);
        }
        let r1 = if version >= 4 {
            {
                write_i32(buf, self.current_leader_epoch);
                Ok(())
            }
        } else {
            Ok(())
        };
        assert(bytes_mut_seq(*buf) == mid + written(s1));
        proof {
            lemma_step(bytes_mut_seq(*old(buf)), w0, s1);
        }
        if r1.is_err() {
            return r1;
        }
        let ghost mid = bytes_mut_seq(*buf);
        proof {
            lemma_append_empty(mid);
        }
        let r2 = {
            write_i64(buf, self.timestamp);
            Ok(())
        };
        assert(bytes_mut_seq(*buf) == mid + written(s2));
        proof {
            lemma_step(bytes_mut_seq(*old(buf)), w1, s2);
        }
        if r2.is_err() {
            return r2;
        }
        let ghost mid = bytes_mut_seq(*buf);
        proof {
            lemma_append_empty(mid);
        }
        let r3 = if version >= 6 {
            write_tagged_fields(buf, &sort_by_tag(&self._unknown_tagged_fields))
        } else {
            Ok(())
        };
        assert(bytes_mut_seq(*buf) == mid + written(s3));
        proof {
            lemma_step(bytes_mut_seq(*old(buf)), w2, s3);
        }
        if r3.is_err() {
            return r3;
        }
        Ok(())
    }
}

impl Codec for ListOffsetsTopic {
    type Item = ListOffsetsTopic;

    open spec fn spec_read_item(s: Seq<u8>, version: i16) -> ReadOutcome<ListOffsetsTopicView> {
        ListOffsetsTopic::spec_read(s, version)
    }

    open spec fn spec_write_item(v: ListOffsetsTopicView, version: i16) -> WriteOutcome {
        ListOffsetsTopic::spec_write(v, version)
    }

    open spec fn canonical_item(v: ListOffsetsTopicView, version: i16) -> bool {
        ListOffsetsTopic::canonical(v, version)
    }

    proof fn lemma_item_round_trip(v: ListOffsetsTopicView, version: i16, rest: Seq<u8>) {
        ListOffsetsTopic::lemma_round_trip(v, version, rest);
    }

    open spec fn writable_item(v: ListOffsetsTopicView, version: i16) -> bool {
        ListOffsetsTopic::writable(v, version)
    }

    proof fn lemma_item_writable(v: ListOffsetsTopicView, version: i16) {
        ListOffsetsTopic::lemma_writable(v, version);
    }

    fn read_item(buf: &mut Bytes, version: i16) -> (r: Result<ListOffsetsTopic, Error>) {
        ListOffsetsTopic::read(buf, version)
    }

    fn write_item(item: &ListOffsetsTopic, buf: &mut BytesMut, version: i16) -> (r: Result<(), Error>) {
        item.write(buf, version)
    }
}

impl Codec for ListOffsetsPartition {
    type Item = ListOffsetsPartition;

    open spec fn spec_read_item(s: Seq<u8>, version: i16) -> ReadOutcome<ListOffsetsPartitionView> {
        ListOffsetsPartition::spec_read(s, version)
    }

    open spec fn spec_write_item(v: ListOffsetsPartitionView, version: i16) -> WriteOutcome {
        ListOffsetsPartition::spec_write(v, version)
    }

    open spec fn canonical_item(v: ListOffsetsPartitionView, version: i16) -> bool {
        ListOffsetsPartition::canonical(v, version)
    }

    proof fn lemma_item_round_trip(v: ListOffsetsPartitionView, version: i16, rest: Seq<u8>) {
        ListOffsetsPartition::lemma_round_trip(v, version, rest);
    }

    open spec fn writable_item(v: ListOffsetsPartitionView, version: i16) -> bool {
        ListOffsetsPartition::writable(v, version)
    }

    proof fn lemma_item_writable(v: ListOffsetsPartitionView, version: i16) {
        ListOffsetsPartition::lemma_writable(v, version);
    }

    fn read_item(buf: &mut Bytes, version: i16) -> (r: Result<ListOffsetsPartition, Error>) {
        ListOffsetsPartition::read(buf, version)
    }

    fn write_item(item: &ListOffsetsPartition, buf: &mut BytesMut, version: i16) -> (r: Result<(), Error>) {
        item.write(buf, version)
    }
}

} // verus!
