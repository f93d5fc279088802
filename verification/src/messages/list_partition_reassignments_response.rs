//! The list partition reassignments response message.
use crate::buffer::{bytes_mut_seq, bytes_seq};
use crate::codec::{Codec, Int32Item, MeasuredCodec, all_canonical, all_writable, array_len, lemma_array_round_trip, lemma_array_writable, read_array, saturating_sum, spec_read_array, spec_write_array, write_array};
use crate::error::{Error, UnsupportedVersion};
use crate::ints::{lemma_i16_roundtrip, lemma_i32_roundtrip, read_i16, read_i32, spec_read_i16, spec_read_i32, spec_write_i16, spec_write_i32, u16_bytes, u32_bytes, write_i16, write_i32};
use crate::strings::{compact_nullable_string_len, compact_string_len, lemma_compact_nullable_string_round_trip, lemma_compact_string_round_trip, read_compact_nullable_string, read_compact_string, spec_read_compact_nullable_string, spec_read_compact_string, spec_write_compact_nullable_string, spec_write_compact_string, write_compact_nullable_string, write_compact_string};
use crate::tagged::{lemma_sorted_by_tag_in_order, lemma_sorted_tags_fit, lemma_tagged_fields_round_trip, lemma_tagged_fields_writable, read_tagged_fields, sort_by_tag, sorted_by_tag, spec_read_tagged_fields, spec_write_tagged_fields, tagged_fields_len, tags_fit, tags_in_order, write_tagged_fields};
use crate::types::{KafkaString, RawTaggedField};
use crate::wire::{ReadOutcome, ViewClone, WriteOutcome, chain, clone_vec, empty_vec, fail, has_room, lemma_append_empty, lemma_chain_written, lemma_len_step, lemma_step, len_result, opt_view, read_as, read_opt_as, read_vec_as, saturate, took_front, views, written, wrote};
use bytes::{Bytes, BytesMut};
use vstd::prelude::*;

verus! {

broadcast use {crate::wire::lemma_chain_written, crate::wire::lemma_took_front_nothing, crate::wire::lemma_took_front_twice};

#[derive(Debug, PartialEq)]
pub struct ListPartitionReassignmentsResponseData {
    /// The duration in milliseconds for which the request was throttled due to a quota violation,
    /// or zero if the request did not violate any quota.
    pub throttle_time_ms: i32,
    /// The top-level error code, or 0 if there was no error.
    pub error_code: i16,
    /// The top-level error message, or null if there was no error.
    pub error_message: Option<KafkaString>,
    /// The ongoing reassignments for each topic.
    pub topics: Vec<OngoingTopicReassignment>,
    pub _unknown_tagged_fields: Vec<RawTaggedField>,
}

/// What a `ListPartitionReassignmentsResponseData` holds, as the specification sees it.
#[verifier::ext_equal]
pub struct ListPartitionReassignmentsResponseDataView {
    pub throttle_time_ms: i32,
    pub error_code: i16,
    pub error_message: Option<Seq<u8>>,
    pub topics: Seq<OngoingTopicReassignmentView>,
    pub unknown_tagged_fields: Seq<(u32, Seq<u8>)>,
}

impl View for ListPartitionReassignmentsResponseData {
    type V = ListPartitionReassignmentsResponseDataView;

    open spec fn view(&self) -> ListPartitionReassignmentsResponseDataView {
        ListPartitionReassignmentsResponseDataView {
            throttle_time_ms: self.throttle_time_ms,
            error_code: self.error_code,
            error_message: opt_view(self.error_message),
            topics: views(self.topics@),
            unknown_tagged_fields: views(self._unknown_tagged_fields@),
        }
    }
}

impl Clone for ListPartitionReassignmentsResponseData {
    fn clone(&self) -> (r: Self)
        ensures
            r@ == self@,
    {
        let r = ListPartitionReassignmentsResponseData {
            throttle_time_ms: self.throttle_time_ms,
            error_code: self.error_code,
            error_message: match &self.error_message {
                Some(x) => Some(x.clone()),
                None => None,
            },
            topics: clone_vec(&self.topics),
            _unknown_tagged_fields: clone_vec(&self._unknown_tagged_fields),
        };
        assert(r@ =~= self@);
        r
    }
}

impl ViewClone for ListPartitionReassignmentsResponseData {
    fn clone_view(&self) -> (r: Self) {
        self.clone()
    }
}

impl Default for ListPartitionReassignmentsResponseData {
    fn default() -> (r: Self)
        ensures
            r@ == Self::default_view(),
    {
        let r = ListPartitionReassignmentsResponseData {
            throttle_time_ms: 0_i32,
            error_code: 0_i16,
            error_message: None,
            topics: empty_vec(),
            _unknown_tagged_fields: empty_vec(),
        };
        assert(r@ =~= Self::default_view());
        r
    }
}

impl ListPartitionReassignmentsResponseData {
    pub open spec fn default_view() -> ListPartitionReassignmentsResponseDataView {
        ListPartitionReassignmentsResponseDataView {
            throttle_time_ms: 0_i32,
            error_code: 0_i16,
            error_message: None,
            topics: Seq::empty(),
            unknown_tagged_fields: Seq::empty(),
        }
    }

    /// The `throttle_time_ms` field, read from the front of `s`.
    #[verifier::opaque]
    pub open spec fn spec_read_throttle_time_ms(s: Seq<u8>, version: i16) -> ReadOutcome<i32> {
        spec_read_i32(s)
    }

    /// The `error_code` field, read from the front of `s`.
    #[verifier::opaque]
    pub open spec fn spec_read_error_code(s: Seq<u8>, version: i16) -> ReadOutcome<i16> {
        spec_read_i16(s)
    }

    /// The `error_message` field, read from the front of `s`.
    #[verifier::opaque]
    pub open spec fn spec_read_error_message(s: Seq<u8>, version: i16) -> ReadOutcome<Option<Seq<u8>>> {
        spec_read_compact_nullable_string(s)
    }

    /// The `topics` field, read from the front of `s`.
    #[verifier::opaque]
    pub open spec fn spec_read_topics(s: Seq<u8>, version: i16) -> ReadOutcome<Seq<OngoingTopicReassignmentView>> {
        spec_read_array::<OngoingTopicReassignment>(s, version, true)
    }

    /// The tagged fields, read from the front of `s`.
    #[verifier::opaque]
    pub open spec fn spec_read_tags(s: Seq<u8>, version: i16) -> ReadOutcome<Seq<(u32, Seq<u8>)>> {
        spec_read_tagged_fields(s)
    }

    pub open spec fn spec_read(s: Seq<u8>, version: i16) -> ReadOutcome<ListPartitionReassignmentsResponseDataView> {
        if version < 0 || version > 0 {
            Err(Error::UnsupportedVersion(UnsupportedVersion { api_key: 46, version }))
        } else {
            match (Self::spec_read_throttle_time_ms(s, version)) {
                Err(e) => Err(e),
                Ok((throttle_time_ms, s)) => match (Self::spec_read_error_code(s, version)) {
                    Err(e) => Err(e),
                    Ok((error_code, s)) => match (Self::spec_read_error_message(s, version)) {
                        Err(e) => Err(e),
                        Ok((error_message, s)) => match (Self::spec_read_topics(s, version)) {
                            Err(e) => Err(e),
                            Ok((topics, s)) => match (Self::spec_read_tags(s, version)) {
                                Err(e) => Err(e),
                                Ok((unknown_tagged_fields, s)) => Ok((ListPartitionReassignmentsResponseDataView {
                                            throttle_time_ms: throttle_time_ms,
                                            error_code: error_code,
                                            error_message: error_message,
                                            topics: topics,
                                            unknown_tagged_fields: unknown_tagged_fields,
                                        }, s)),
                            },
                        },
                    },
                },
            }
        }
    }

    /// What writing the `throttle_time_ms` field of `m` appends.
    #[verifier::opaque]
    pub open spec fn spec_write_throttle_time_ms(m: ListPartitionReassignmentsResponseDataView, version: i16) -> WriteOutcome {
        spec_write_i32(m.throttle_time_ms)
    }

    /// What writing the `error_code` field of `m` appends.
    #[verifier::opaque]
    pub open spec fn spec_write_error_code(m: ListPartitionReassignmentsResponseDataView, version: i16) -> WriteOutcome {
        spec_write_i16(m.error_code)
    }

    /// What writing the `error_message` field of `m` appends.
    #[verifier::opaque]
    pub open spec fn spec_write_error_message(m: ListPartitionReassignmentsResponseDataView, version: i16) -> WriteOutcome {
        spec_write_compact_nullable_string(m.error_message)
    }

    /// What writing the `topics` field of `m` appends.
    #[verifier::opaque]
    pub open spec fn spec_write_topics(m: ListPartitionReassignmentsResponseDataView, version: i16) -> WriteOutcome {
        spec_write_array::<OngoingTopicReassignment>(m.topics, version, true)
    }

    /// What writing the tagged fields of `m` appends.
    #[verifier::opaque]
    pub open spec fn spec_write_tags(m: ListPartitionReassignmentsResponseDataView, version: i16) -> WriteOutcome {
        spec_write_tagged_fields(sorted_by_tag(m.unknown_tagged_fields))
    }

    pub open spec fn spec_write(m: ListPartitionReassignmentsResponseDataView, version: i16) -> WriteOutcome {
        if version < 0 || version > 0 {
            fail(Error::UnsupportedVersion(UnsupportedVersion { api_key: 46, version }))
        } else {
            chain(
                chain(
                    chain(
                        chain(
                            Self::spec_write_throttle_time_ms(m, version),
                            Self::spec_write_error_code(m, version),
                        ),
                        Self::spec_write_error_message(m, version),
                    ),
                    Self::spec_write_topics(m, version),
                ),
                Self::spec_write_tags(m, version),
            )
        }
    }

    /// Whether reading back what writing `m` in `version` appends gives `m`:
    /// fields that the version does not carry hold their default values, and
    /// tagged fields come in the order in which they are written.
    pub open spec fn canonical(m: ListPartitionReassignmentsResponseDataView, version: i16) -> bool {
        &&& all_canonical::<OngoingTopicReassignment>(m.topics, version)
        &&& tags_in_order(m.unknown_tagged_fields)
    }

    proof fn lemma_round_trip_throttle_time_ms(m: ListPartitionReassignmentsResponseDataView, version: i16, rest: Seq<u8>)
        requires
            Self::canonical(m, version),
            Self::spec_write_throttle_time_ms(m, version) is Ok,
        ensures
            Self::spec_read_throttle_time_ms(written(Self::spec_write_throttle_time_ms(m, version)) + rest, version) == Ok::<(i32, Seq<u8>), Error>((m.throttle_time_ms, rest)),
    {
        reveal(ListPartitionReassignmentsResponseData::spec_read_throttle_time_ms);
        reveal(ListPartitionReassignmentsResponseData::spec_write_throttle_time_ms);
        lemma_i32_roundtrip(m.throttle_time_ms, rest);
    }

    proof fn lemma_round_trip_error_code(m: ListPartitionReassignmentsResponseDataView, version: i16, rest: Seq<u8>)
        requires
            Self::canonical(m, version),
            Self::spec_write_error_code(m, version) is Ok,
        ensures
            Self::spec_read_error_code(written(Self::spec_write_error_code(m, version)) + rest, version) == Ok::<(i16, Seq<u8>), Error>((m.error_code, rest)),
    {
        reveal(ListPartitionReassignmentsResponseData::spec_read_error_code);
        reveal(ListPartitionReassignmentsResponseData::spec_write_error_code);
        lemma_i16_roundtrip(m.error_code, rest);
    }

    proof fn lemma_round_trip_error_message(m: ListPartitionReassignmentsResponseDataView, version: i16, rest: Seq<u8>)
        requires
            Self::canonical(m, version),
            Self::spec_write_error_message(m, version) is Ok,
        ensures
            Self::spec_read_error_message(written(Self::spec_write_error_message(m, version)) + rest, version) == Ok::<(Option<Seq<u8>>, Seq<u8>), Error>((m.error_message, rest)),
    {
        reveal(ListPartitionReassignmentsResponseData::spec_read_error_message);
        reveal(ListPartitionReassignmentsResponseData::spec_write_error_message);
        lemma_compact_nullable_string_round_trip(m.error_message, rest);
    }

    proof fn lemma_round_trip_topics(m: ListPartitionReassignmentsResponseDataView, version: i16, rest: Seq<u8>)
        requires
            Self::canonical(m, version),
            Self::spec_write_topics(m, version) is Ok,
        ensures
            Self::spec_read_topics(written(Self::spec_write_topics(m, version)) + rest, version) == Ok::<(Seq<OngoingTopicReassignmentView>, Seq<u8>), Error>((m.topics, rest)),
    {
        reveal(ListPartitionReassignmentsResponseData::spec_read_topics);
        reveal(ListPartitionReassignmentsResponseData::spec_write_topics);
        lemma_array_round_trip::<OngoingTopicReassignment>(m.topics, version, true, rest);
    }

    proof fn lemma_round_trip_tags(m: ListPartitionReassignmentsResponseDataView, version: i16, rest: Seq<u8>)
        requires
            Self::canonical(m, version),
            Self::spec_write_tags(m, version) is Ok,
        ensures
            Self::spec_read_tags(written(Self::spec_write_tags(m, version)) + rest, version) == Ok::<(Seq<(u32, Seq<u8>)>, Seq<u8>), Error>((m.unknown_tagged_fields, rest)),
    {
        reveal(ListPartitionReassignmentsResponseData::spec_read_tags);
        reveal(ListPartitionReassignmentsResponseData::spec_write_tags);
        lemma_sorted_by_tag_in_order(m.unknown_tagged_fields);
        lemma_tagged_fields_round_trip(m.unknown_tagged_fields, rest);
    }

    /// Reading back what writing `m` in `version` appends gives `m` again, and
    /// leaves what follows, for every canonical message whose write succeeds.
    #[verifier::rlimit(90)]
    #[verifier::spinoff_prover]
    pub proof fn lemma_round_trip(m: ListPartitionReassignmentsResponseDataView, version: i16, rest: Seq<u8>)
        requires
            Self::canonical(m, version),
            Self::spec_write(m, version) is Ok,
        ensures
            Self::spec_read(written(Self::spec_write(m, version)) + rest, version) == Ok::<(ListPartitionReassignmentsResponseDataView, Seq<u8>), Error>((m, rest)),
    {
        let b0 = written(Self::spec_write_throttle_time_ms(m, version));
        let b1 = written(Self::spec_write_error_code(m, version));
        let b2 = written(Self::spec_write_error_message(m, version));
        let b3 = written(Self::spec_write_topics(m, version));
        let b4 = written(Self::spec_write_tags(m, version));
        let t5 = rest;
        let t4 = b4 + t5;
        let t3 = b3 + t4;
        let t2 = b2 + t3;
        let t1 = b1 + t2;
        let t0 = b0 + t1;
        let w0 = Self::spec_write_throttle_time_ms(m, version);
        let w1 = chain(w0, Self::spec_write_error_code(m, version));
        let w2 = chain(w1, Self::spec_write_error_message(m, version));
        let w3 = chain(w2, Self::spec_write_topics(m, version));
        let w4 = chain(w3, Self::spec_write_tags(m, version));
        assert(Self::spec_write(m, version) == w4);
        assert(written(w4) + t5 =~= written(w3) + t4);
        assert(written(w3) + t4 =~= written(w2) + t3);
        assert(written(w2) + t3 =~= written(w1) + t2);
        assert(written(w1) + t2 =~= written(w0) + t1);
        Self::lemma_round_trip_throttle_time_ms(m, version, t1);
        Self::lemma_round_trip_error_code(m, version, t2);
        Self::lemma_round_trip_error_message(m, version, t3);
        Self::lemma_round_trip_topics(m, version, t4);
        Self::lemma_round_trip_tags(m, version, t5);
    }

    /// The default message holds the default value of each field of the schema.
    pub proof fn lemma_default_values()
        ensures
            Self::default_view().throttle_time_ms == (0_i32),
            Self::default_view().error_code == (0_i16),
            (Self::default_view().error_message is None),
            Self::default_view().topics.len() == 0,
            Self::default_view().unknown_tagged_fields.len() == 0,
    {
    }

    /// Each integer, boolean and identifier field is written as its standard
    /// big-endian bytes (a boolean as `1` or `0`) in the versions that carry
    /// it, and as nothing in the others; reading it takes those bytes back (any
    /// byte other than `0` reads as `true`), or gives its default value.
    pub proof fn lemma_field_encodings(m: ListPartitionReassignmentsResponseDataView, s: Seq<u8>, version: i16)
        ensures
            true ==> Self::spec_write_throttle_time_ms(m, version) == Ok::<Seq<u8>, (Error, Seq<u8>)>(u32_bytes(m.throttle_time_ms as u32)),
            true ==> Self::spec_write_error_code(m, version) == Ok::<Seq<u8>, (Error, Seq<u8>)>(u16_bytes(m.error_code as u16)),
            true ==> Self::spec_read_throttle_time_ms(s, version) == spec_read_i32(s),
            true ==> Self::spec_read_error_code(s, version) == spec_read_i16(s),
    {
        reveal(ListPartitionReassignmentsResponseData::spec_write_throttle_time_ms);
        reveal(ListPartitionReassignmentsResponseData::spec_read_throttle_time_ms);
        reveal(ListPartitionReassignmentsResponseData::spec_write_error_code);
        reveal(ListPartitionReassignmentsResponseData::spec_read_error_code);
    }

    /// Whether writing `m` in `version` succeeds, said over its parts: the
    /// version is one the schema covers, every field that the version cannot
    /// carry holds its default value, and every string, byte string, array and
    /// tagged field fits its length prefix.
    pub open spec fn writable(m: ListPartitionReassignmentsResponseDataView, version: i16) -> bool {
        &&& 0 <= version <= 0
        &&& (m.error_message matches Some(b) ==> b.len() <= 0x7fff)
        &&& (m.topics.len() <= i32::MAX && all_writable::<OngoingTopicReassignment>(m.topics, version))
        &&& m.unknown_tagged_fields.len() <= u32::MAX && tags_fit(m.unknown_tagged_fields)
    }

    proof fn lemma_writable_throttle_time_ms(m: ListPartitionReassignmentsResponseDataView, version: i16)
        ensures
            Self::spec_write_throttle_time_ms(m, version) is Ok <==> true,
    {
        reveal(ListPartitionReassignmentsResponseData::spec_write_throttle_time_ms);
    }

    proof fn lemma_writable_error_code(m: ListPartitionReassignmentsResponseDataView, version: i16)
        ensures
            Self::spec_write_error_code(m, version) is Ok <==> true,
    {
        reveal(ListPartitionReassignmentsResponseData::spec_write_error_code);
    }

    proof fn lemma_writable_error_message(m: ListPartitionReassignmentsResponseDataView, version: i16)
        ensures
            Self::spec_write_error_message(m, version) is Ok <==> (m.error_message matches Some(b) ==> b.len() <= 0x7fff),
    {
        reveal(ListPartitionReassignmentsResponseData::spec_write_error_message);
    }

    proof fn lemma_writable_topics(m: ListPartitionReassignmentsResponseDataView, version: i16)
        ensures
            Self::spec_write_topics(m, version) is Ok <==> (m.topics.len() <= i32::MAX && all_writable::<OngoingTopicReassignment>(m.topics, version)),
    {
        reveal(ListPartitionReassignmentsResponseData::spec_write_topics);
        lemma_array_writable::<OngoingTopicReassignment>(m.topics, version, true);
    }

    proof fn lemma_writable_tags(m: ListPartitionReassignmentsResponseDataView, version: i16)
        ensures
            Self::spec_write_tags(m, version) is Ok <==> m.unknown_tagged_fields.len() <= u32::MAX && tags_fit(m.unknown_tagged_fields),
    {
        reveal(ListPartitionReassignmentsResponseData::spec_write_tags);
        lemma_sorted_tags_fit(m.unknown_tagged_fields);
        lemma_tagged_fields_writable(sorted_by_tag(m.unknown_tagged_fields));
    }

    /// Writing `m` in `version` succeeds exactly when `m` is writable in it;
    /// so do `write` and `encoded_len`, whose results follow `spec_write`.
    #[verifier::rlimit(60)]
    pub proof fn lemma_writable(m: ListPartitionReassignmentsResponseDataView, version: i16)
        ensures
            Self::spec_write(m, version) is Ok <==> Self::writable(m, version),
    {
        Self::lemma_writable_throttle_time_ms(m, version);
        Self::lemma_writable_error_code(m, version);
        Self::lemma_writable_error_message(m, version);
        Self::lemma_writable_topics(m, version);
        Self::lemma_writable_tags(m, version);
    }

    /// A version outside the range that the schema covers is refused, by
    /// reads and by writes alike, before anything is read or written.
    pub proof fn lemma_refused_version(m: ListPartitionReassignmentsResponseDataView, s: Seq<u8>, version: i16)
        requires
            version < 0 || version > 0,
        ensures
            Self::spec_read(s, version) == Err::<(ListPartitionReassignmentsResponseDataView, Seq<u8>), Error>(Error::UnsupportedVersion(UnsupportedVersion { api_key: 46, version })),
            Self::spec_write(m, version) == fail(Error::UnsupportedVersion(UnsupportedVersion { api_key: 46, version })),
    {
    }

    pub fn with_throttle_time_ms(self, value: i32) -> (r: Self)
        ensures
            r@ == (ListPartitionReassignmentsResponseDataView { throttle_time_ms: value, ..self@ }),
    {
        let mut r = self;
        r.throttle_time_ms = value;
        r
    }

    pub fn with_error_code(self, value: i16) -> (r: Self)
        ensures
            r@ == (ListPartitionReassignmentsResponseDataView { error_code: value, ..self@ }),
    {
        let mut r = self;
        r.error_code = value;
        r
    }

    pub fn with_error_message(self, value: Option<KafkaString>) -> (r: Self)
        ensures
            r@ == (ListPartitionReassignmentsResponseDataView { error_message: opt_view(value), ..self@ }),
    {
        let mut r = self;
        r.error_message = value;
        r
    }

    pub fn with_topics(self, value: Vec<OngoingTopicReassignment>) -> (r: Self)
        ensures
            r@ == (ListPartitionReassignmentsResponseDataView { topics: views(value@), ..self@ }),
    {
        let mut r = self;
        r.topics = value;
        r
    }

    fn read_throttle_time_ms(buf: &mut Bytes, version: i16) -> (r: Result<i32, Error>)
        ensures
            read_as(Self::spec_read_throttle_time_ms(bytes_seq(*old(buf)), version), *final(buf), r),
            took_front(*old(buf), *final(buf)),
    {
        proof {
            reveal(ListPartitionReassignmentsResponseData::spec_read_throttle_time_ms);
        }
        Ok(read_i32(buf)?)
    }

    fn read_error_code(buf: &mut Bytes, version: i16) -> (r: Result<i16, Error>)
        ensures
            read_as(Self::spec_read_error_code(bytes_seq(*old(buf)), version), *final(buf), r),
            took_front(*old(buf), *final(buf)),
    {
        proof {
            reveal(ListPartitionReassignmentsResponseData::spec_read_error_code);
        }
        Ok(read_i16(buf)?)
    }

    fn read_error_message(buf: &mut Bytes, version: i16) -> (r: Result<Option<KafkaString>, Error>)
        ensures
            read_opt_as(Self::spec_read_error_message(bytes_seq(*old(buf)), version), *final(buf), r),
            took_front(*old(buf), *final(buf)),
    {
        proof {
            reveal(ListPartitionReassignmentsResponseData::spec_read_error_message);
        }
        Ok(read_compact_nullable_string(buf)?)
    }

    fn read_topics(buf: &mut Bytes, version: i16) -> (r: Result<Vec<OngoingTopicReassignment>, Error>)
        ensures
            read_vec_as(Self::spec_read_topics(bytes_seq(*old(buf)), version), *final(buf), r),
            took_front(*old(buf), *final(buf)),
    {
        proof {
            reveal(ListPartitionReassignmentsResponseData::spec_read_topics);
        }
        Ok(read_array::<OngoingTopicReassignment>(buf, version, true)?)
    }

    fn read_tags(buf: &mut Bytes, version: i16) -> (r: Result<Vec<RawTaggedField>, Error>)
        ensures
            read_vec_as(Self::spec_read_tags(bytes_seq(*old(buf)), version), *final(buf), r),
            took_front(*old(buf), *final(buf)),
    {
        proof {
            reveal(ListPartitionReassignmentsResponseData::spec_read_tags);
        }
        Ok(read_tagged_fields(buf)?)
    }

    pub fn read(buf: &mut Bytes, version: i16) -> (r: Result<Self, Error>)
        ensures
            read_as(Self::spec_read(bytes_seq(*old(buf)), version), *final(buf), r),
            took_front(*old(buf), *final(buf)),
            (version < 0 || version > 0) ==> bytes_seq(*final(buf)) == bytes_seq(*old(buf)),
    {
        if version < 0 || version > 0 {
            return Err(Error::UnsupportedVersion(UnsupportedVersion::new(46, version)));
        }
        let throttle_time_ms = Self::read_throttle_time_ms(buf, version)?;
        let error_code = Self::read_error_code(buf, version)?;
        let error_message = Self::read_error_message(buf, version)?;
        let topics = Self::read_topics(buf, version)?;
        let _unknown_tagged_fields = Self::read_tags(buf, version)?;
        Ok(ListPartitionReassignmentsResponseData {
                throttle_time_ms: throttle_time_ms,
                error_code: error_code,
                error_message: error_message,
                topics: topics,
                _unknown_tagged_fields: _unknown_tagged_fields,
        })
    }

    #[verifier::rlimit(80)]
    pub fn write(&self, buf: &mut BytesMut, version: i16) -> (r: Result<(), Error>)
        requires
            has_room(Self::spec_write(self@, version), *old(buf)),
        ensures
            wrote(Self::spec_write(self@, version), *old(buf), *final(buf), r),
    {
        if version < 0 || version > 0 {
            return Err(Error::UnsupportedVersion(UnsupportedVersion::new(46, version)));
        }
        let ghost m = self@;
        proof {
            reveal(ListPartitionReassignmentsResponseData::spec_write_throttle_time_ms);
            reveal(ListPartitionReassignmentsResponseData::spec_write_error_code);
            reveal(ListPartitionReassignmentsResponseData::spec_write_error_message);
            reveal(ListPartitionReassignmentsResponseData::spec_write_topics);
            reveal(ListPartitionReassignmentsResponseData::spec_write_tags);
        }
        let ghost s0 = Self::spec_write_throttle_time_ms(m, version);
        let ghost w0 = s0;
        let ghost s1 = Self::spec_write_error_code(m, version);
        let ghost w1 = chain(w0, s1);
        let ghost s2 = Self::spec_write_error_message(m, version);
        let ghost w2 = chain(w1, s2);
        let ghost s3 = Self::spec_write_topics(m, version);
        let ghost w3 = chain(w2, s3);
        let ghost s4 = Self::spec_write_tags(m, version);
        let ghost w4 = chain(w3, s4);
        assert(Self::spec_write(m, version) == w4);
        assert(written(w3).len() <= written(w4).len() && (w3 is Err ==> w4 == w3));
        assert(written(w2).len() <= written(w4).len() && (w2 is Err ==> w4 == w2));
        assert(written(w1).len() <= written(w4).len() && (w1 is Err ==> w4 == w1));
        assert(written(w0).len() <= written(w4).len() && (w0 is Err ==> w4 == w0));
        let ghost mid = bytes_mut_seq(*buf);
        proof {
            lemma_append_empty(mid);
        }
        let r0 = {
            write_i32(buf, self.throttle_time_ms);
            Ok(())
        };
        assert(bytes_mut_seq(*buf) == mid + written(s0));
        if r0.is_err() {
            return r0;
        }
        let ghost mid = bytes_mut_seq(*buf);
        proof {
            lemma_append_empty(mid);
        }
        let r1 = {
            write_i16(buf, self.error_code);
            Ok(())
        };
        assert(bytes_mut_seq(*buf) == mid + written(s1));
        proof {
            lemma_step(bytes_mut_seq(*old(buf)), w0, s1);
        }
        if r1.is_err() {
            return r1;
        }
        let ghost mid = bytes_mut_seq(*buf);
        proof {
            lemma_append_empty(mid);
        }
        let r2 = write_compact_nullable_string(buf, &self.error_message);
        assert(bytes_mut_seq(*buf) == mid + written(s2));
        proof {
            lemma_step(bytes_mut_seq(*old(buf)), w1, s2);
        }
        if r2.is_err() {
            return r2;
        }
        let ghost mid = bytes_mut_seq(*buf);
        proof {
            lemma_append_empty(mid);
        }
        let r3 = write_array::<OngoingTopicReassignment>(buf, &self.topics, version, true);
        assert(bytes_mut_seq(*buf) == mid + written(s3));
        proof {
            lemma_step(bytes_mut_seq(*old(buf)), w2, s3);
        }
        if r3.is_err() {
            return r3;
        }
        let ghost mid = bytes_mut_seq(*buf);
        proof {
            lemma_append_empty(mid);
        }
        let r4 = write_tagged_fields(buf, &sort_by_tag(&self._unknown_tagged_fields));
        assert(bytes_mut_seq(*buf) == mid + written(s4));
        proof {
            lemma_step(bytes_mut_seq(*old(buf)), w3, s4);
        }
        if r4.is_err() {
            return r4;
        }
        Ok(())
    }

    #[verifier::rlimit(80)]
    pub fn encoded_len(&self, version: i16) -> (r: Result<usize, Error>)
        ensures
            r == len_result(Self::spec_write(self@, version)),
    {
        if version < 0 || version > 0 {
            return Err(Error::UnsupportedVersion(UnsupportedVersion::new(46, version)));
        }
        let ghost m = self@;
        proof {
            reveal(ListPartitionReassignmentsResponseData::spec_write_throttle_time_ms);
            reveal(ListPartitionReassignmentsResponseData::spec_write_error_code);
            reveal(ListPartitionReassignmentsResponseData::spec_write_error_message);
            reveal(ListPartitionReassignmentsResponseData::spec_write_topics);
            reveal(ListPartitionReassignmentsResponseData::spec_write_tags);
        }
        let ghost s0 = Self::spec_write_throttle_time_ms(m, version);
        let ghost w0 = s0;
        let ghost s1 = Self::spec_write_error_code(m, version);
        let ghost w1 = chain(w0, s1);
        let ghost s2 = Self::spec_write_error_message(m, version);
        let ghost w2 = chain(w1, s2);
        let ghost s3 = Self::spec_write_topics(m, version);
        let ghost w3 = chain(w2, s3);
        let ghost s4 = Self::spec_write_tags(m, version);
        let ghost w4 = chain(w3, s4);
        assert(Self::spec_write(m, version) == w4);
        assert(w3 is Err ==> w4 == w3);
        assert(w2 is Err ==> w4 == w2);
        assert(w1 is Err ==> w4 == w1);
        assert(w0 is Err ==> w4 == w0);
        let mut len: usize = 0;
        let l0 = Ok(4);
        assert(l0 == len_result(s0));
        let n0 = match l0 {
            Ok(n) => n,
            Err(e) => {
                return Err(e);
            },
        };
        len = saturating_sum(len, n0);
        assert(w0 is Ok && len == saturate(written(w0).len() as int));
        let l1 = Ok(2);
        assert(l1 == len_result(s1));
        let n1 = match l1 {
            Ok(n) => n,
            Err(e) => {
                return Err(e);
            },
        };
        proof {
            lemma_len_step(w0, s1, n1);
        }
        len = saturating_sum(len, n1);
        assert(w1 is Ok && len == saturate(written(w1).len() as int));
        let l2 = compact_nullable_string_len(&self.error_message);
        assert(l2 == len_result(s2));
        let n2 = match l2 {
            Ok(n) => n,
            Err(e) => {
                return Err(e);
            },
        };
        proof {
            lemma_len_step(w1, s2, n2);
        }
        len = saturating_sum(len, n2);
        assert(w2 is Ok && len == saturate(written(w2).len() as int));
        let l3 = array_len::<OngoingTopicReassignment>(&self.topics, version, true);
        assert(l3 == len_result(s3));
        let n3 = match l3 {
            Ok(n) => n,
            Err(e) => {
                return Err(e);
            },
        };
        proof {
            lemma_len_step(w2, s3, n3);
        }
        len = saturating_sum(len, n3);
        assert(w3 is Ok && len == saturate(written(w3).len() as int));
        let l4 = tagged_fields_len(&sort_by_tag(&self._unknown_tagged_fields));
        assert(l4 == len_result(s4));
        let n4 = match l4 {
            Ok(n) => n,
            Err(e) => {
                return Err(e);
            },
        };
        proof {
            lemma_len_step(w3, s4, n4);
        }
        len = saturating_sum(len, n4);
        assert(w4 is Ok && len == saturate(written(w4).len() as int));
        Ok(len)
    }
}

#[derive(Debug, PartialEq)]
pub struct OngoingTopicReassignment {
    /// The topic name.
    pub name: KafkaString,
    /// The ongoing reassignments for each partition.
    pub partitions: Vec<OngoingPartitionReassignment>,
    pub _unknown_tagged_fields: Vec<RawTaggedField>,
}

/// What a `OngoingTopicReassignment` holds, as the specification sees it.
#[verifier::ext_equal]
pub struct OngoingTopicReassignmentView {
    pub name: Seq<u8>,
    pub partitions: Seq<OngoingPartitionReassignmentView>,
    pub unknown_tagged_fields: Seq<(u32, Seq<u8>)>,
}

impl View for OngoingTopicReassignment {
    type V = OngoingTopicReassignmentView;

    open spec fn view(&self) -> OngoingTopicReassignmentView {
        OngoingTopicReassignmentView {
            name: self.name@,
            partitions: views(self.partitions@),
            unknown_tagged_fields: views(self._unknown_tagged_fields@),
        }
    }
}

impl Clone for OngoingTopicReassignment {
    fn clone(&self) -> (r: Self)
        ensures
            r@ == self@,
    {
        let r = OngoingTopicReassignment {
            name: self.name.clone(),
            partitions: clone_vec(&self.partitions),
            _unknown_tagged_fields: clone_vec(&self._unknown_tagged_fields),
        };
        assert(r@ =~= self@);
        r
    }
}

impl ViewClone for OngoingTopicReassignment {
    fn clone_view(&self) -> (r: Self) {
        self.clone()
    }
}

impl Default for OngoingTopicReassignment {
    fn default() -> (r: Self)
        ensures
            r@ == Self::default_view(),
    {
        let r = OngoingTopicReassignment {
            name: KafkaString::default(),
            partitions: empty_vec(),
            _unknown_tagged_fields: empty_vec(),
        };
        assert(r@ =~= Self::default_view());
        r
    }
}

impl OngoingTopicReassignment {
    pub open spec fn default_view() -> OngoingTopicReassignmentView {
        OngoingTopicReassignmentView {
            name: Seq::empty(),
            partitions: Seq::empty(),
            unknown_tagged_fields: Seq::empty(),
        }
    }

    /// The `name` field, read from the front of `s`.
    #[verifier::opaque]
    pub open spec fn spec_read_name(s: Seq<u8>, version: i16) -> ReadOutcome<Seq<u8>> {
        spec_read_compact_string(s)
    }

    /// The `partitions` field, read from the front of `s`.
    #[verifier::opaque]
    pub open spec fn spec_read_partitions(s: Seq<u8>, version: i16) -> ReadOutcome<Seq<OngoingPartitionReassignmentView>> {
        spec_read_array::<OngoingPartitionReassignment>(s, version, true)
    }

    /// The tagged fields, read from the front of `s`.
    #[verifier::opaque]
    pub open spec fn spec_read_tags(s: Seq<u8>, version: i16) -> ReadOutcome<Seq<(u32, Seq<u8>)>> {
        spec_read_tagged_fields(s)
    }

    pub open spec fn spec_read(s: Seq<u8>, version: i16) -> ReadOutcome<OngoingTopicReassignmentView> {
        match (Self::spec_read_name(s, version)) {
            Err(e) => Err(e),
            Ok((name, s)) => match (Self::spec_read_partitions(s, version)) {
                Err(e) => Err(e),
                Ok((partitions, s)) => match (Self::spec_read_tags(s, version)) {
                    Err(e) => Err(e),
                    Ok((unknown_tagged_fields, s)) => Ok((OngoingTopicReassignmentView {
                                name: name,
                                partitions: partitions,
                                unknown_tagged_fields: unknown_tagged_fields,
                            }, s)),
                },
            },
        }
    }

    /// What writing the `name` field of `m` appends.
    #[verifier::opaque]
    pub open spec fn spec_write_name(m: OngoingTopicReassignmentView, version: i16) -> WriteOutcome {
        spec_write_compact_string(m.name)
    }

    /// What writing the `partitions` field of `m` appends.
    #[verifier::opaque]
    pub open spec fn spec_write_partitions(m: OngoingTopicReassignmentView, version: i16) -> WriteOutcome {
        spec_write_array::<OngoingPartitionReassignment>(m.partitions, version, true)
    }

    /// What writing the tagged fields of `m` appends.
    #[verifier::opaque]
    pub open spec fn spec_write_tags(m: OngoingTopicReassignmentView, version: i16) -> WriteOutcome {
        spec_write_tagged_fields(sorted_by_tag(m.unknown_tagged_fields))
    }

    pub open spec fn spec_write(m: OngoingTopicReassignmentView, version: i16) -> WriteOutcome {
        chain(
            chain(
                Self::spec_write_name(m, version),
                Self::spec_write_partitions(m, version),
            ),
            Self::spec_write_tags(m, version),
        )
    }

    /// Whether reading back what writing `m` in `version` appends gives `m`:
    /// fields that the version does not carry hold their default values, and
    /// tagged fields come in the order in which they are written.
    pub open spec fn canonical(m: OngoingTopicReassignmentView, version: i16) -> bool {
        &&& all_canonical::<OngoingPartitionReassignment>(m.partitions, version)
        &&& tags_in_order(m.unknown_tagged_fields)
    }

    proof fn lemma_round_trip_name(m: OngoingTopicReassignmentView, version: i16, rest: Seq<u8>)
        requires
            Self::canonical(m, version),
            Self::spec_write_name(m, version) is Ok,
        ensures
            Self::spec_read_name(written(Self::spec_write_name(m, version)) + rest, version) == Ok::<(Seq<u8>, Seq<u8>), Error>((m.name, rest)),
    {
        reveal(OngoingTopicReassignment::spec_read_name);
        reveal(OngoingTopicReassignment::spec_write_name);
        lemma_compact_string_round_trip(m.name, rest);
    }

    proof fn lemma_round_trip_partitions(m: OngoingTopicReassignmentView, version: i16, rest: Seq<u8>)
        requires
            Self::canonical(m, version),
            Self::spec_write_partitions(m, version) is Ok,
        ensures
            Self::spec_read_partitions(written(Self::spec_write_partitions(m, version)) + rest, version) == Ok::<(Seq<OngoingPartitionReassignmentView>, Seq<u8>), Error>((m.partitions, rest)),
    {
        reveal(OngoingTopicReassignment::spec_read_partitions);
        reveal(OngoingTopicReassignment::spec_write_partitions);
        lemma_array_round_trip::<OngoingPartitionReassignment>(m.partitions, version, true, rest);
    }

    proof fn lemma_round_trip_tags(m: OngoingTopicReassignmentView, version: i16, rest: Seq<u8>)
        requires
            Self::canonical(m, version),
            Self::spec_write_tags(m, version) is Ok,
        ensures
            Self::spec_read_tags(written(Self::spec_write_tags(m, version)) + rest, version) == Ok::<(Seq<(u32, Seq<u8>)>, Seq<u8>), Error>((m.unknown_tagged_fields, rest)),
    {
        reveal(OngoingTopicReassignment::spec_read_tags);
        reveal(OngoingTopicReassignment::spec_write_tags);
        lemma_sorted_by_tag_in_order(m.unknown_tagged_fields);
        lemma_tagged_fields_round_trip(m.unknown_tagged_fields, rest);
    }

    /// Reading back what writing `m` in `version` appends gives `m` again, and
    /// leaves what follows, for every canonical message whose write succeeds.
    #[verifier::rlimit(70)]
    #[verifier::spinoff_prover]
    pub proof fn lemma_round_trip(m: OngoingTopicReassignmentView, version: i16, rest: Seq<u8>)
        requires
            Self::canonical(m, version),
            Self::spec_write(m, version) is Ok,
        ensures
            Self::spec_read(written(Self::spec_write(m, version)) + rest, version) == Ok::<(OngoingTopicReassignmentView, Seq<u8>), Error>((m, rest)),
    {
        let b0 = written(Self::spec_write_name(m, version));
        let b1 = written(Self::spec_write_partitions(m, version));
        let b2 = written(Self::spec_write_tags(m, version));
        let t3 = rest;
        let t2 = b2 + t3;
        let t1 = b1 + t2;
        let t0 = b0 + t1;
        let w0 = Self::spec_write_name(m, version);
        let w1 = chain(w0, Self::spec_write_partitions(m, version));
        let w2 = chain(w1, Self::spec_write_tags(m, version));
        assert(Self::spec_write(m, version) == w2);
        assert(written(w2) + t3 =~= written(w1) + t2);
        assert(written(w1) + t2 =~= written(w0) + t1);
        Self::lemma_round_trip_name(m, version, t1);
        Self::lemma_round_trip_partitions(m, version, t2);
        Self::lemma_round_trip_tags(m, version, t3);
    }

    /// The default message holds the default value of each field of the schema.
    pub proof fn lemma_default_values()
        ensures
            Self::default_view().name.len() == 0,
            Self::default_view().partitions.len() == 0,
            Self::default_view().unknown_tagged_fields.len() == 0,
    {
    }

    /// Whether writing `m` in `version` succeeds, said over its parts: the
    /// version is one the schema covers, every field that the version cannot
    /// carry holds its default value, and every string, byte string, array and
    /// tagged field fits its length prefix.
    pub open spec fn writable(m: OngoingTopicReassignmentView, version: i16) -> bool {
        &&& m.name.len() <= 0x7fff
        &&& (m.partitions.len() <= i32::MAX && all_writable::<OngoingPartitionReassignment>(m.partitions, version))
        &&& m.unknown_tagged_fields.len() <= u32::MAX && tags_fit(m.unknown_tagged_fields)
    }

    proof fn lemma_writable_name(m: OngoingTopicReassignmentView, version: i16)
        ensures
            Self::spec_write_name(m, version) is Ok <==> m.name.len() <= 0x7fff,
    {
        reveal(OngoingTopicReassignment::spec_write_name);
    }

    proof fn lemma_writable_partitions(m: OngoingTopicReassignmentView, version: i16)
        ensures
            Self::spec_write_partitions(m, version) is Ok <==> (m.partitions.len() <= i32::MAX && all_writable::<OngoingPartitionReassignment>(m.partitions, version)),
    {
        reveal(OngoingTopicReassignment::spec_write_partitions);
        lemma_array_writable::<OngoingPartitionReassignment>(m.partitions, version, true);
    }

    proof fn lemma_writable_tags(m: OngoingTopicReassignmentView, version: i16)
        ensures
            Self::spec_write_tags(m, version) is Ok <==> m.unknown_tagged_fields.len() <= u32::MAX && tags_fit(m.unknown_tagged_fields),
    {
        reveal(OngoingTopicReassignment::spec_write_tags);
        lemma_sorted_tags_fit(m.unknown_tagged_fields);
        lemma_tagged_fields_writable(sorted_by_tag(m.unknown_tagged_fields));
    }

    /// Writing `m` in `version` succeeds exactly when `m` is writable in it;
    /// so do `write` and `encoded_len`, whose results follow `spec_write`.
    #[verifier::rlimit(48)]
    pub proof fn lemma_writable(m: OngoingTopicReassignmentView, version: i16)
        ensures
            Self::spec_write(m, version) is Ok <==> Self::writable(m, version),
    {
        Self::lemma_writable_name(m, version);
        Self::lemma_writable_partitions(m, version);
        Self::lemma_writable_tags(m, version);
    }

    pub fn with_name(self, value: KafkaString) -> (r: Self)
        ensures
            r@ == (OngoingTopicReassignmentView { name: value@, ..self@ }),
    {
        let mut r = self;
        r.name = value;
        r
    }

    pub fn with_partitions(self, value: Vec<OngoingPartitionReassignment>) -> (r: Self)
        ensures
            r@ == (OngoingTopicReassignmentView { partitions: views(value@), ..self@ }),
    {
        let mut r = self;
        r.partitions = value;
        r
    }

    fn read_name(buf: &mut Bytes, version: i16) -> (r: Result<KafkaString, Error>)
        ensures
            read_as(Self::spec_read_name(bytes_seq(*old(buf)), version), *final(buf), r),
            took_front(*old(buf), *final(buf)),
    {
        proof {
            reveal(OngoingTopicReassignment::spec_read_name);
        }
        Ok(read_compact_string(buf)?)
    }

    fn read_partitions(buf: &mut Bytes, version: i16) -> (r: Result<Vec<OngoingPartitionReassignment>, Error>)
        ensures
            read_vec_as(Self::spec_read_partitions(bytes_seq(*old(buf)), version), *final(buf), r),
            took_front(*old(buf), *final(buf)),
    {
        proof {
            reveal(OngoingTopicReassignment::spec_read_partitions);
        }
        Ok(read_array::<OngoingPartitionReassignment>(buf, version, true)?)
    }

    fn read_tags(buf: &mut Bytes, version: i16) -> (r: Result<Vec<RawTaggedField>, Error>)
        ensures
            read_vec_as(Self::spec_read_tags(bytes_seq(*old(buf)), version), *final(buf), r),
            took_front(*old(buf), *final(buf)),
    {
        proof {
            reveal(OngoingTopicReassignment::spec_read_tags);
        }
        Ok(read_tagged_fields(buf)?)
    }

    pub fn read(buf: &mut Bytes, version: i16) -> (r: Result<Self, Error>)
        ensures
            read_as(Self::spec_read(bytes_seq(*old(buf)), version), *final(buf), r),
            took_front(*old(buf), *final(buf)),
    {
        let name = Self::read_name(buf, version)?;
        let partitions = Self::read_partitions(buf, version)?;
        let _unknown_tagged_fields = Self::read_tags(buf, version)?;
        Ok(OngoingTopicReassignment {
                name: name,
                partitions: partitions,
                _unknown_tagged_fields: _unknown_tagged_fields,
        })
    }

    #[verifier::rlimit(60)]
    pub fn write(&self, buf: &mut BytesMut, version: i16) -> (r: Result<(), Error>)
        requires
            has_room(Self::spec_write(self@, version), *old(buf)),
        ensures
            wrote(Self::spec_write(self@, version), *old(buf), *final(buf), r),
    {
        let ghost m = self@;
        proof {
            reveal(OngoingTopicReassignment::spec_write_name);
            reveal(OngoingTopicReassignment::spec_write_partitions);
            reveal(OngoingTopicReassignment::spec_write_tags);
        }
        let ghost s0 = Self::spec_write_name(m, version);
        let ghost w0 = s0;
        let ghost s1 = Self::spec_write_partitions(m, version);
        let ghost w1 = chain(w0, s1);
        let ghost s2 = Self::spec_write_tags(m, version);
        let ghost w2 = chain(w1, s2);
        assert(Self::spec_write(m, version) == w2);
        assert(written(w1).len() <= written(w2).len() && (w1 is Err ==> w2 == w1));
        assert(written(w0).len() <= written(w2).len() && (w0 is Err ==> w2 == w0));
        let ghost mid = bytes_mut_seq(*buf);
        proof {
            lemma_append_empty(mid);
        }
        let r0 = write_compact_string(buf, &self.name);
        assert(bytes_mut_seq(*buf) == mid + written(s0));
        if r0.is_err() {
            return r0;
        }
        let ghost mid = bytes_mut_seq(*buf);
        proof {
            lemma_append_empty(mid);
        }
        let r1 = write_array::<OngoingPartitionReassignment>(buf, &self.partitions, version, true);
        assert(bytes_mut_seq(*buf) == mid + written(s1));
        proof {
            lemma_step(bytes_mut_seq(*old(buf)), w0, s1);
        }
        if r1.is_err() {
            return r1;
        }
        let ghost mid = bytes_mut_seq(*buf);
        proof {
            lemma_append_empty(mid);
        }
        let r2 = write_tagged_fields(buf, &sort_by_tag(&self._unknown_tagged_fields));
        assert(bytes_mut_seq(*buf) == mid + written(s2));
        proof {
            lemma_step(bytes_mut_seq(*old(buf)), w1, s2);
        }
        if r2.is_err() {
            return r2;
        }
        Ok(())
    }

    #[verifier::rlimit(60)]
    pub fn encoded_len(&self, version: i16) -> (r: Result<usize, Error>)
        ensures
            r == len_result(Self::spec_write(self@, version)),
    {
        let ghost m = self@;
        proof {
            reveal(OngoingTopicReassignment::spec_write_name);
            reveal(OngoingTopicReassignment::spec_write_partitions);
            reveal(OngoingTopicReassignment::spec_write_tags);
        }
        let ghost s0 = Self::spec_write_name(m, version);
        let ghost w0 = s0;
        let ghost s1 = Self::spec_write_partitions(m, version);
        let ghost w1 = chain(w0, s1);
        let ghost s2 = Self::spec_write_tags(m, version);
        let ghost w2 = chain(w1, s2);
        assert(Self::spec_write(m, version) == w2);
        assert(w1 is Err ==> w2 == w1);
        assert(w0 is Err ==> w2 == w0);
        let mut len: usize = 0;
        let l0 = compact_string_len(&self.name);
        assert(l0 == len_result(s0));
        let n0 = match l0 {
            Ok(n) => n,
            Err(e) => {
                return Err(e);
            },
        };
        len = saturating_sum(len, n0);
        assert(w0 is Ok && len == saturate(written(w0).len() as int));
        let l1 = array_len::<OngoingPartitionReassignment>(&self.partitions, version, true);
        assert(l1 == len_result(s1));
        let n1 = match l1 {
            Ok(n) => n,
            Err(e) => {
                return Err(e);
            },
        };
        proof {
            lemma_len_step(w0, s1, n1);
        }
        len = saturating_sum(len, n1);
        assert(w1 is Ok && len == saturate(written(w1).len() as int));
        let l2 = tagged_fields_len(&sort_by_tag(&self._unknown_tagged_fields));
        assert(l2 == len_result(s2));
        let n2 = match l2 {
            Ok(n) => n,
            Err(e) => {
                return Err(e);
            },
        };
        proof {
            lemma_len_step(w1, s2, n2);
        }
        len = saturating_sum(len, n2);
        assert(w2 is Ok && len == saturate(written(w2).len() as int));
        Ok(len)
    }
}

#[derive(Debug, PartialEq)]
pub struct OngoingPartitionReassignment {
    /// The index of the partition.
    pub partition_index: i32,
    /// The current replica set.
    pub replicas: Vec<i32>,
    /// The set of replicas we are currently adding.
    pub adding_replicas: Vec<i32>,
    /// The set of replicas we are currently removing.
    pub removing_replicas: Vec<i32>,
    pub _unknown_tagged_fields: Vec<RawTaggedField>,
}

/// What a `OngoingPartitionReassignment` holds, as the specification sees it.
#[verifier::ext_equal]
pub struct OngoingPartitionReassignmentView {
    pub partition_index: i32,
    pub replicas: Seq<i32>,
    pub adding_replicas: Seq<i32>,
    pub removing_replicas: Seq<i32>,
    pub unknown_tagged_fields: Seq<(u32, Seq<u8>)>,
}

impl View for OngoingPartitionReassignment {
    type V = OngoingPartitionReassignmentView;

    open spec fn view(&self) -> OngoingPartitionReassignmentView {
        OngoingPartitionReassignmentView {
            partition_index: self.partition_index,
            replicas: views(self.replicas@),
            adding_replicas: views(self.adding_replicas@),
            removing_replicas: views(self.removing_replicas@),
            unknown_tagged_fields: views(self._unknown_tagged_fields@),
        }
    }
}

impl Clone for OngoingPartitionReassignment {
    fn clone(&self) -> (r: Self)
        ensures
            r@ == self@,
    {
        let r = OngoingPartitionReassignment {
            partition_index: self.partition_index,
            replicas: clone_vec(&self.replicas),
            adding_replicas: clone_vec(&self.adding_replicas),
            removing_replicas: clone_vec(&self.removing_replicas),
            _unknown_tagged_fields: clone_vec(&self._unknown_tagged_fields),
        };
        assert(r@ =~= self@);
        r
    }
}

impl ViewClone for OngoingPartitionReassignment {
    fn clone_view(&self) -> (r: Self) {
        self.clone()
    }
}

impl Default for OngoingPartitionReassignment {
    fn default() -> (r: Self)
        ensures
            r@ == Self::default_view(),
    {
        let r = OngoingPartitionReassignment {
            partition_index: 0_i32,
            replicas: empty_vec(),
            adding_replicas: empty_vec(),
            removing_replicas: empty_vec(),
            _unknown_tagged_fields: empty_vec(),
        };
        assert(r@ =~= Self::default_view());
        r
    }
}

impl OngoingPartitionReassignment {
    pub open spec fn default_view() -> OngoingPartitionReassignmentView {
        OngoingPartitionReassignmentView {
            partition_index: 0_i32,
            replicas: Seq::empty(),
            adding_replicas: Seq::empty(),
            removing_replicas: Seq::empty(),
            unknown_tagged_fields: Seq::empty(),
        }
    }

    /// The `partition_index` field, read from the front of `s`.
    #[verifier::opaque]
    pub open spec fn spec_read_partition_index(s: Seq<u8>, version: i16) -> ReadOutcome<i32> {
        spec_read_i32(s)
    }

    /// The `replicas` field, read from the front of `s`.
    #[verifier::opaque]
    pub open spec fn spec_read_replicas(s: Seq<u8>, version: i16) -> ReadOutcome<Seq<i32>> {
        spec_read_array::<Int32Item>(s, version, true)
    }

    /// The `adding_replicas` field, read from the front of `s`.
    #[verifier::opaque]
    pub open spec fn spec_read_adding_replicas(s: Seq<u8>, version: i16) -> ReadOutcome<Seq<i32>> {
        spec_read_array::<Int32Item>(s, version, true)
    }

    /// The `removing_replicas` field, read from the front of `s`.
    #[verifier::opaque]
    pub open spec fn spec_read_removing_replicas(s: Seq<u8>, version: i16) -> ReadOutcome<Seq<i32>> {
        spec_read_array::<Int32Item>(s, version, true)
    }

    /// The tagged fields, read from the front of `s`.
    #[verifier::opaque]
    pub open spec fn spec_read_tags(s: Seq<u8>, version: i16) -> ReadOutcome<Seq<(u32, Seq<u8>)>> {
        spec_read_tagged_fields(s)
    }

    pub open spec fn spec_read(s: Seq<u8>, version: i16) -> ReadOutcome<OngoingPartitionReassignmentView> {
        match (Self::spec_read_partition_index(s, version)) {
            Err(e) => Err(e),
            Ok((partition_index, s)) => match (Self::spec_read_replicas(s, version)) {
                Err(e) => Err(e),
                Ok((replicas, s)) => match (Self::spec_read_adding_replicas(s, version)) {
                    Err(e) => Err(e),
                    Ok((adding_replicas, s)) => match (Self::spec_read_removing_replicas(s, version)) {
                        Err(e) => Err(e),
                        Ok((removing_replicas, s)) => match (Self::spec_read_tags(s, version)) {
                            Err(e) => Err(e),
                            Ok((unknown_tagged_fields, s)) => Ok((OngoingPartitionReassignmentView {
                                        partition_index: partition_index,
                                        replicas: replicas,
                                        adding_replicas: adding_replicas,
                                        removing_replicas: removing_replicas,
                                        unknown_tagged_fields: unknown_tagged_fields,
                                    }, s)),
                        },
                    },
                },
            },
        }
    }

    /// What writing the `partition_index` field of `m` appends.
    #[verifier::opaque]
    pub open spec fn spec_write_partition_index(m: OngoingPartitionReassignmentView, version: i16) -> WriteOutcome {
        spec_write_i32(m.partition_index)
    }

    /// What writing the `replicas` field of `m` appends.
    #[verifier::opaque]
    pub open spec fn spec_write_replicas(m: OngoingPartitionReassignmentView, version: i16) -> WriteOutcome {
        spec_write_array::<Int32Item>(m.replicas, version, true)
    }

    /// What writing the `adding_replicas` field of `m` appends.
    #[verifier::opaque]
    pub open spec fn spec_write_adding_replicas(m: OngoingPartitionReassignmentView, version: i16) -> WriteOutcome {
        spec_write_array::<Int32Item>(m.adding_replicas, version, true)
    }

    /// What writing the `removing_replicas` field of `m` appends.
    #[verifier::opaque]
    pub open spec fn spec_write_removing_replicas(m: OngoingPartitionReassignmentView, version: i16) -> WriteOutcome {
        spec_write_array::<Int32Item>(m.removing_replicas, version, true)
    }

    /// What writing the tagged fields of `m` appends.
    #[verifier::opaque]
    pub open spec fn spec_write_tags(m: OngoingPartitionReassignmentView, version: i16) -> WriteOutcome {
        spec_write_tagged_fields(sorted_by_tag(m.unknown_tagged_fields))
    }

    pub open spec fn spec_write(m: OngoingPartitionReassignmentView, version: i16) -> WriteOutcome {
        chain(
            chain(
                chain(
                    chain(
                        Self::spec_write_partition_index(m, version),
                        Self::spec_write_replicas(m, version),
                    ),
                    Self::spec_write_adding_replicas(m, version),
                ),
                Self::spec_write_removing_replicas(m, version),
            ),
            Self::spec_write_tags(m, version),
        )
    }

    /// Whether reading back what writing `m` in `version` appends gives `m`:
    /// fields that the version does not carry hold their default values, and
    /// tagged fields come in the order in which they are written.
    pub open spec fn canonical(m: OngoingPartitionReassignmentView, version: i16) -> bool {
        &&& tags_in_order(m.unknown_tagged_fields)
    }

    proof fn lemma_round_trip_partition_index(m: OngoingPartitionReassignmentView, version: i16, rest: Seq<u8>)
        requires
            Self::canonical(m, version),
            Self::spec_write_partition_index(m, version) is Ok,
        ensures
            Self::spec_read_partition_index(written(Self::spec_write_partition_index(m, version)) + rest, version) == Ok::<(i32, Seq<u8>), Error>((m.partition_index, rest)),
    {
        reveal(OngoingPartitionReassignment::spec_read_partition_index);
        reveal(OngoingPartitionReassignment::spec_write_partition_index);
        lemma_i32_roundtrip(m.partition_index, rest);
    }

    proof fn lemma_round_trip_replicas(m: OngoingPartitionReassignmentView, version: i16, rest: Seq<u8>)
        requires
            Self::canonical(m, version),
            Self::spec_write_replicas(m, version) is Ok,
        ensures
            Self::spec_read_replicas(written(Self::spec_write_replicas(m, version)) + rest, version) == Ok::<(Seq<i32>, Seq<u8>), Error>((m.replicas, rest)),
    {
        reveal(OngoingPartitionReassignment::spec_read_replicas);
        reveal(OngoingPartitionReassignment::spec_write_replicas);
        lemma_array_round_trip::<Int32Item>(m.replicas, version, true, rest);
    }

    proof fn lemma_round_trip_adding_replicas(m: OngoingPartitionReassignmentView, version: i16, rest: Seq<u8>)
        requires
            Self::canonical(m, version),
            Self::spec_write_adding_replicas(m, version) is Ok,
        ensures
            Self::spec_read_adding_replicas(written(Self::spec_write_adding_replicas(m, version)) + rest, version) == Ok::<(Seq<i32>, Seq<u8>), Error>((m.adding_replicas, rest)),
    {
        reveal(OngoingPartitionReassignment::spec_read_adding_replicas);
        reveal(OngoingPartitionReassignment::spec_write_adding_replicas);
        lemma_array_round_trip::<Int32Item>(m.adding_replicas, version, true, rest);
    }

    proof fn lemma_round_trip_removing_replicas(m: OngoingPartitionReassignmentView, version: i16, rest: Seq<u8>)
        requires
            Self::canonical(m, version),
            Self::spec_write_removing_replicas(m, version) is Ok,
        ensures
            Self::spec_read_removing_replicas(written(Self::spec_write_removing_replicas(m, version)) + rest, version) == Ok::<(Seq<i32>, Seq<u8>), Error>((m.removing_replicas, rest)),
    {
        reveal(OngoingPartitionReassignment::spec_read_removing_replicas);
        reveal(OngoingPartitionReassignment::spec_write_removing_replicas);
        lemma_array_round_trip::<Int32Item>(m.removing_replicas, version, true, rest);
    }

    proof fn lemma_round_trip_tags(m: OngoingPartitionReassignmentView, version: i16, rest: Seq<u8>)
        requires
            Self::canonical(m, version),
            Self::spec_write_tags(m, version) is Ok,
        ensures
            Self::spec_read_tags(written(Self::spec_write_tags(m, version)) + rest, version) == Ok::<(Seq<(u32, Seq<u8>)>, Seq<u8>), Error>((m.unknown_tagged_fields, rest)),
    {
        reveal(OngoingPartitionReassignment::spec_read_tags);
        reveal(OngoingPartitionReassignment::spec_write_tags);
        lemma_sorted_by_tag_in_order(m.unknown_tagged_fields);
        lemma_tagged_fields_round_trip(m.unknown_tagged_fields, rest);
    }

    /// Reading back what writing `m` in `version` appends gives `m` again, and
    /// leaves what follows, for every canonical message whose write succeeds.
    #[verifier::rlimit(90)]
    #[verifier::spinoff_prover]
    pub proof fn lemma_round_trip(m: OngoingPartitionReassignmentView, version: i16, rest: Seq<u8>)
        requires
            Self::canonical(m, version),
            Self::spec_write(m, version) is Ok,
        ensures
            Self::spec_read(written(Self::spec_write(m, version)) + rest, version) == Ok::<(OngoingPartitionReassignmentView, Seq<u8>), Error>((m, rest)),
    {
        let b0 = written(Self::spec_write_partition_index(m, version));
        let b1 = written(Self::spec_write_replicas(m, version));
        let b2 = written(Self::spec_write_adding_replicas(m, version));
        let b3 = written(Self::spec_write_removing_replicas(m, version));
        let b4 = written(Self::spec_write_tags(m, version));
        let t5 = rest;
        let t4 = b4 + t5;
        let t3 = b3 + t4;
        let t2 = b2 + t3;
        let t1 = b1 + t2;
        let t0 = b0 + t1;
        let w0 = Self::spec_write_partition_index(m, version);
        let w1 = chain(w0, Self::spec_write_replicas(m, version));
        let w2 = chain(w1, Self::spec_write_adding_replicas(m, version));
        let w3 = chain(w2, Self::spec_write_removing_replicas(m, version));
        let w4 = chain(w3, Self::spec_write_tags(m, version));
        assert(Self::spec_write(m, version) == w4);
        assert(written(w4) + t5 =~= written(w3) + t4);
        assert(written(w3) + t4 =~= written(w2) + t3);
        assert(written(w2) + t3 =~= written(w1) + t2);
        assert(written(w1) + t2 =~= written(w0) + t1);
        Self::lemma_round_trip_partition_index(m, version, t1);
        Self::lemma_round_trip_replicas(m, version, t2);
        Self::lemma_round_trip_adding_replicas(m, version, t3);
        Self::lemma_round_trip_removing_replicas(m, version, t4);
        Self::lemma_round_trip_tags(m, version, t5);
    }

    /// The default message holds the default value of each field of the schema.
    pub proof fn lemma_default_values()
        ensures
            Self::default_view().partition_index == (0_i32),
            Self::default_view().replicas.len() == 0,
            Self::default_view().adding_replicas.len() == 0,
            Self::default_view().removing_replicas.len() == 0,
            Self::default_view().unknown_tagged_fields.len() == 0,
    {
    }

    /// Each integer, boolean and identifier field is written as its standard
    /// big-endian bytes (a boolean as `1` or `0`) in the versions that carry
    /// it, and as nothing in the others; reading it takes those bytes back (any
    /// byte other than `0` reads as `true`), or gives its default value.
    pub proof fn lemma_field_encodings(m: OngoingPartitionReassignmentView, s: Seq<u8>, version: i16)
        ensures
            true ==> Self::spec_write_partition_index(m, version) == Ok::<Seq<u8>, (Error, Seq<u8>)>(u32_bytes(m.partition_index as u32)),
            true ==> Self::spec_read_partition_index(s, version) == spec_read_i32(s),
    {
        reveal(OngoingPartitionReassignment::spec_write_partition_index);
        reveal(OngoingPartitionReassignment::spec_read_partition_index);
    }

    /// Whether writing `m` in `version` succeeds, said over its parts: the
    /// version is one the schema covers, every field that the version cannot
    /// carry holds its default value, and every string, byte string, array and
    /// tagged field fits its length prefix.
    pub open spec fn writable(m: OngoingPartitionReassignmentView, version: i16) -> bool {
        &&& (m.replicas.len() <= i32::MAX && all_writable::<Int32Item>(m.replicas, version))
        &&& (m.adding_replicas.len() <= i32::MAX && all_writable::<Int32Item>(m.adding_replicas, version))
        &&& (m.removing_replicas.len() <= i32::MAX && all_writable::<Int32Item>(m.removing_replicas, version))
        &&& m.unknown_tagged_fields.len() <= u32::MAX && tags_fit(m.unknown_tagged_fields)
    }

    proof fn lemma_writable_partition_index(m: OngoingPartitionReassignmentView, version: i16)
        ensures
            Self::spec_write_partition_index(m, version) is Ok <==> true,
    {
        reveal(OngoingPartitionReassignment::spec_write_partition_index);
    }

    proof fn lemma_writable_replicas(m: OngoingPartitionReassignmentView, version: i16)
        ensures
            Self::spec_write_replicas(m, version) is Ok <==> (m.replicas.len() <= i32::MAX && all_writable::<Int32Item>(m.replicas, version)),
    {
        reveal(OngoingPartitionReassignment::spec_write_replicas);
        lemma_array_writable::<Int32Item>(m.replicas, version, true);
    }

    proof fn lemma_writable_adding_replicas(m: OngoingPartitionReassignmentView, version: i16)
        ensures
            Self::spec_write_adding_replicas(m, version) is Ok <==> (m.adding_replicas.len() <= i32::MAX && all_writable::<Int32Item>(m.adding_replicas, version)),
    {
        reveal(OngoingPartitionReassignment::spec_write_adding_replicas);
        lemma_array_writable::<Int32Item>(m.adding_replicas, version, true);
    }

    proof fn lemma_writable_removing_replicas(m: OngoingPartitionReassignmentView, version: i16)
        ensures
            Self::spec_write_removing_replicas(m, version) is Ok <==> (m.removing_replicas.len() <= i32::MAX && all_writable::<Int32Item>(m.removing_replicas, version)),
    {
        reveal(OngoingPartitionReassignment::spec_write_removing_replicas);
        lemma_array_writable::<Int32Item>(m.removing_replicas, version, true);
    }

    proof fn lemma_writable_tags(m: OngoingPartitionReassignmentView, version: i16)
        ensures
            Self::spec_write_tags(m, version) is Ok <==> m.unknown_tagged_fields.len() <= u32::MAX && tags_fit(m.unknown_tagged_fields),
    {
        reveal(OngoingPartitionReassignment::spec_write_tags);
        lemma_sorted_tags_fit(m.unknown_tagged_fields);
        lemma_tagged_fields_writable(sorted_by_tag(m.unknown_tagged_fields));
    }

    /// Writing `m` in `version` succeeds exactly when `m` is writable in it;
    /// so do `write` and `encoded_len`, whose results follow `spec_write`.
    #[verifier::rlimit(60)]
    pub proof fn lemma_writable(m: OngoingPartitionReassignmentView, version: i16)
        ensures
            Self::spec_write(m, version) is Ok <==> Self::writable(m, version),
    {
        Self::lemma_writable_partition_index(m, version);
        Self::lemma_writable_replicas(m, version);
        Self::lemma_writable_adding_replicas(m, version);
        Self::lemma_writable_removing_replicas(m, version);
        Self::lemma_writable_tags(m, version);
    }

    pub fn with_partition_index(self, value: i32) -> (r: Self)
        ensures
            r@ == (OngoingPartitionReassignmentView { partition_index: value, ..self@ }),
    {
        let mut r = self;
        r.partition_index = value;
        r
    }

    pub fn with_replicas(self, value: Vec<i32>) -> (r: Self)
        ensures
            r@ == (OngoingPartitionReassignmentView { replicas: views(value@), ..self@ }),
    {
        let mut r = self;
        r.replicas = value;
        r
    }

    pub fn with_adding_replicas(self, value: Vec<i32>) -> (r: Self)
        ensures
            r@ == (OngoingPartitionReassignmentView { adding_replicas: views(value@), ..self@ }),
    {
        let mut r = self;
        r.adding_replicas = value;
        r
    }

    pub fn with_removing_replicas(self, value: Vec<i32>) -> (r: Self)
        ensures
            r@ == (OngoingPartitionReassignmentView { removing_replicas: views(value@), ..self@ }),
    {
        let mut r = self;
        r.removing_replicas = value;
        r
    }

    fn read_partition_index(buf: &mut Bytes, version: i16) -> (r: Result<i32, Error>)
        ensures
            read_as(Self::spec_read_partition_index(bytes_seq(*old(buf)), version), *final(buf), r),
            took_front(*old(buf), *final(buf)),
    {
        proof {
            reveal(OngoingPartitionReassignment::spec_read_partition_index);
        }
        Ok(read_i32(buf)?)
    }

    fn read_replicas(buf: &mut Bytes, version: i16) -> (r: Result<Vec<i32>, Error>)
        ensures
            read_vec_as(Self::spec_read_replicas(bytes_seq(*old(buf)), version), *final(buf), r),
            took_front(*old(buf), *final(buf)),
    {
        proof {
            reveal(OngoingPartitionReassignment::spec_read_replicas);
        }
        Ok(read_array::<Int32Item>(buf, version, true)?)
    }

    fn read_adding_replicas(buf: &mut Bytes, version: i16) -> (r: Result<Vec<i32>, Error>)
        ensures
            read_vec_as(Self::spec_read_adding_replicas(bytes_seq(*old(buf)), version), *final(buf), r),
            took_front(*old(buf), *final(buf)),
    {
        proof {
            reveal(OngoingPartitionReassignment::spec_read_adding_replicas);
        }
        Ok(read_array::<Int32Item>(buf, version, true)?)
    }

    fn read_removing_replicas(buf: &mut Bytes, version: i16) -> (r: Result<Vec<i32>, Error>)
        ensures
            read_vec_as(Self::spec_read_removing_replicas(bytes_seq(*old(buf)), version), *final(buf), r),
            took_front(*old(buf), *final(buf)),
    {
        proof {
            reveal(OngoingPartitionReassignment::spec_read_removing_replicas);
        }
        Ok(read_array::<Int32Item>(buf, version, true)?)
    }

    fn read_tags(buf: &mut Bytes, version: i16) -> (r: Result<Vec<RawTaggedField>, Error>)
        ensures
            read_vec_as(Self::spec_read_tags(bytes_seq(*old(buf)), version), *final(buf), r),
            took_front(*old(buf), *final(buf)),
    {
        proof {
            reveal(OngoingPartitionReassignment::spec_read_tags);
        }
        Ok(read_tagged_fields(buf)?)
    }

    pub fn read(buf: &mut Bytes, version: i16) -> (r: Result<Self, Error>)
        ensures
            read_as(Self::spec_read(bytes_seq(*old(buf)), version), *final(buf), r),
            took_front(*old(buf), *final(buf)),
    {
        let partition_index = Self::read_partition_index(buf, version)?;
        let replicas = Self::read_replicas(buf, version)?;
        let adding_replicas = Self::read_adding_replicas(buf, version)?;
        let removing_replicas = Self::read_removing_replicas(buf, version)?;
        let _unknown_tagged_fields = Self::read_tags(buf, version)?;
        Ok(OngoingPartitionReassignment {
                partition_index: partition_index,
                replicas: replicas,
                adding_replicas: adding_replicas,
                removing_replicas: removing_replicas,
                _unknown_tagged_fields: _unknown_tagged_fields,
        })
    }

    #[verifier::rlimit(80)]
    pub fn write(&self, buf: &mut BytesMut, version: i16) -> (r: Result<(), Error>)
        requires
            has_room(Self::spec_write(self@, version), *old(buf)),
        ensures
            wrote(Self::spec_write(self@, version), *old(buf), *final(buf), r),
    {
        let ghost m = self@;
        proof {
            reveal(OngoingPartitionReassignment::spec_write_partition_index);
            reveal(OngoingPartitionReassignment::spec_write_replicas);
            reveal(OngoingPartitionReassignment::spec_write_adding_replicas);
            reveal(OngoingPartitionReassignment::spec_write_removing_replicas);
            reveal(OngoingPartitionReassignment::spec_write_tags);
        }
        let ghost s0 = Self::spec_write_partition_index(m, version);
        let ghost w0 = s0;
        let ghost s1 = Self::spec_write_replicas(m, version);
        let ghost w1 = chain(w0, s1);
        let ghost s2 = Self::spec_write_adding_replicas(m, version);
        let ghost w2 = chain(w1, s2);
        let ghost s3 = Self::spec_write_removing_replicas(m, version);
        let ghost w3 = chain(w2, s3);
        let ghost s4 = Self::spec_write_tags(m, version);
        let ghost w4 = chain(w3, s4);
        assert(Self::spec_write(m, version) == w4);
        assert(written(w3).len() <= written(w4).len() && (w3 is Err ==> w4 == w3));
        assert(written(w2).len() <= written(w4).len() && (w2 is Err ==> w4 == w2));
        assert(written(w1).len() <= written(w4).len() && (w1 is Err ==> w4 == w1));
        assert(written(w0).len() <= written(w4).len() && (w0 is Err ==> w4 == w0));
        let ghost mid = bytes_mut_seq(*buf);
        proof {
            lemma_append_empty(mid);
        }
        let r0 = {
            write_i32(buf, self.partition_index);
            Ok(())
        };
        assert(bytes_mut_seq(*buf) == mid + written(s0));
        if r0.is_err() {
            return r0;
        }
        let ghost mid = bytes_mut_seq(*buf);
        proof {
            lemma_append_empty(mid);
        }
        let r1 = write_array::<Int32Item>(buf, &self.replicas, version, true);
        assert(bytes_mut_seq(*buf) == mid + written(s1));
        proof {
            lemma_step(bytes_mut_seq(*old(buf)), w0, s1);
        }
        if r1.is_err() {
            return r1;
        }
        let ghost mid = bytes_mut_seq(*buf);
        proof {
            lemma_append_empty(mid);
        }
        let r2 = write_array::<Int32Item>(buf, &self.adding_replicas, version, true);
        assert(bytes_mut_seq(*buf) == mid + written(s2));
        proof {
            lemma_step(bytes_mut_seq(*old(buf)), w1, s2);
        }
        if r2.is_err() {
            return r2;
        }
        let ghost mid = bytes_mut_seq(*buf);
        proof {
            lemma_append_empty(mid);
        }
        let r3 = write_array::<Int32Item>(buf, &self.removing_replicas, version, true);
        assert(bytes_mut_seq(*buf) == mid + written(s3));
        proof {
            lemma_step(bytes_mut_seq(*old(buf)), w2, s3);
        }
        if r3.is_err() {
            return r3;
        }
        let ghost mid = bytes_mut_seq(*buf);
        proof {
            lemma_append_empty(mid);
        }
        let r4 = write_tagged_fields(buf, &sort_by_tag(&self._unknown_tagged_fields));
        assert(bytes_mut_seq(*buf) == mid + written(s4));
        proof {
            lemma_step(bytes_mut_seq(*old(buf)), w3, s4);
        }
        if r4.is_err() {
            return r4;
        }
        Ok(())
    }

    #[verifier::rlimit(80)]
    pub fn encoded_len(&self, version: i16) -> (r: Result<usize, Error>)
        ensures
            r == len_result(Self::spec_write(self@, version)),
    {
        let ghost m = self@;
        proof {
            reveal(OngoingPartitionReassignment::spec_write_partition_index);
            reveal(OngoingPartitionReassignment::spec_write_replicas);
            reveal(OngoingPartitionReassignment::spec_write_adding_replicas);
            reveal(OngoingPartitionReassignment::spec_write_removing_replicas);
            reveal(OngoingPartitionReassignment::spec_write_tags);
        }
        let ghost s0 = Self::spec_write_partition_index(m, version);
        let ghost w0 = s0;
        let ghost s1 = Self::spec_write_replicas(m, version);
        let ghost w1 = chain(w0, s1);
        let ghost s2 = Self::spec_write_adding_replicas(m, version);
        let ghost w2 = chain(w1, s2);
        let ghost s3 = Self::spec_write_removing_replicas(m, version);
        let ghost w3 = chain(w2, s3);
        let ghost s4 = Self::spec_write_tags(m, version);
        let ghost w4 = chain(w3, s4);
        assert(Self::spec_write(m, version) == w4);
        assert(w3 is Err ==> w4 == w3);
        assert(w2 is Err ==> w4 == w2);
        assert(w1 is Err ==> w4 == w1);
        assert(w0 is Err ==> w4 == w0);
        let mut len: usize = 0;
        let l0 = Ok(4);
        assert(l0 == len_result(s0));
        let n0 = match l0 {
            Ok(n) => n,
            Err(e) => {
                return Err(e);
            },
        };
        len = saturating_sum(len, n0);
        assert(w0 is Ok && len == saturate(written(w0).len() as int));
        let l1 = array_len::<Int32Item>(&self.replicas, version, true);
        assert(l1 == len_result(s1));
        let n1 = match l1 {
            Ok(n) => n,
            Err(e) => {
                return Err(e);
            },
        };
        proof {
            lemma_len_step(w0, s1, n1);
        }
        len = saturating_sum(len, n1);
        assert(w1 is Ok && len == saturate(written(w1).len() as int));
        let l2 = array_len::<Int32Item>(&self.adding_replicas, version, true);
        assert(l2 == len_result(s2));
        let n2 = match l2 {
            Ok(n) => n,
            Err(e) => {
                return Err(e);
            },
        };
        proof {
            lemma_len_step(w1, s2, n2);
        }
        len = saturating_sum(len, n2);
        assert(w2 is Ok && len == saturate(written(w2).len() as int));
        let l3 = array_len::<Int32Item>(&self.removing_replicas, version, true);
        assert(l3 == len_result(s3));
        let n3 = match l3 {
            Ok(n) => n,
            Err(e) => {
                return Err(e);
            },
        };
        proof {
            lemma_len_step(w2, s3, n3);
        }
        len = saturating_sum(len, n3);
        assert(w3 is Ok && len == saturate(written(w3).len() as int));
        let l4 = tagged_fields_len(&sort_by_tag(&self._unknown_tagged_fields));
        assert(l4 == len_result(s4));
        let n4 = match l4 {
            Ok(n) => n,
            Err(e) => {
                return Err(e);
            },
        };
        proof {
            lemma_len_step(w3, s4, n4);
        }
        len = saturating_sum(len, n4);
        assert(w4 is Ok && len == saturate(written(w4).len() as int));
        Ok(len)
    }
}

impl Codec for OngoingTopicReassignment {
    type Item = OngoingTopicReassignment;

    open spec fn spec_read_item(s: Seq<u8>, version: i16) -> ReadOutcome<OngoingTopicReassignmentView> {
        OngoingTopicReassignment::spec_read(s, version)
    }

    open spec fn spec_write_item(v: OngoingTopicReassignmentView, version: i16) -> WriteOutcome {
        OngoingTopicReassignment::spec_write(v, version)
    }

    open spec fn canonical_item(v: OngoingTopicReassignmentView, version: i16) -> bool {
        OngoingTopicReassignment::canonical(v, version)
    }

    proof fn lemma_item_round_trip(v: OngoingTopicReassignmentView, version: i16, rest: Seq<u8>) {
        OngoingTopicReassignment::lemma_round_trip(v, version, rest);
    }

    open spec fn writable_item(v: OngoingTopicReassignmentView, version: i16) -> bool {
        OngoingTopicReassignment::writable(v, version)
    }

    proof fn lemma_item_writable(v: OngoingTopicReassignmentView, version: i16) {
        OngoingTopicReassignment::lemma_writable(v, version);
    }

    fn read_item(buf: &mut Bytes, version: i16) -> (r: Result<OngoingTopicReassignment, Error>) {
        OngoingTopicReassignment::read(buf, version)
    }

    fn write_item(item: &OngoingTopicReassignment, buf: &mut BytesMut, version: i16) -> (r: Result<(), Error>) {
        item.write(buf, version)
    }
}

impl MeasuredCodec for OngoingTopicReassignment {
    fn item_len(item: &OngoingTopicReassignment, version: i16) -> (r: Result<usize, Error>) {
        item.encoded_len(version)
    }
}

impl Codec for OngoingPartitionReassignment {
    type Item = OngoingPartitionReassignment;

    open spec fn spec_read_item(s: Seq<u8>, version: i16) -> ReadOutcome<OngoingPartitionReassignmentView> {
        OngoingPartitionReassignment::spec_read(s, version)
    }

    open spec fn spec_write_item(v: OngoingPartitionReassignmentView, version: i16) -> WriteOutcome {
        OngoingPartitionReassignment::spec_write(v, version)
    }

    open spec fn canonical_item(v: OngoingPartitionReassignmentView, version: i16) -> bool {
        OngoingPartitionReassignment::canonical(v, version)
    }

    proof fn lemma_item_round_trip(v: OngoingPartitionReassignmentView, version: i16, rest: Seq<u8>) {
        OngoingPartitionReassignment::lemma_round_trip(v, version, rest);
    }

    open spec fn writable_item(v: OngoingPartitionReassignmentView, version: i16) -> bool {
        OngoingPartitionReassignment::writable(v, version)
    }

    proof fn lemma_item_writable(v: OngoingPartitionReassignmentView, version: i16) {
        OngoingPartitionReassignment::lemma_writable(v, version);
    }

    fn read_item(buf: &mut Bytes, version: i16) -> (r: Result<OngoingPartitionReassignment, Error>) {
        OngoingPartitionReassignment::read(buf, version)
    }

    fn write_item(item: &OngoingPartitionReassignment, buf: &mut BytesMut, version: i16) -> (r: Result<(), Error>) {
        item.write(buf, version)
    }
}

impl MeasuredCodec for OngoingPartitionReassignment {
    fn item_len(item: &OngoingPartitionReassignment, version: i16) -> (r: Result<usize, Error>) {
        item.encoded_len(version)
    }
}

} // verus!
