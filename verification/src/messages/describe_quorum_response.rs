//! The describe quorum response message.
use crate::buffer::{bytes_mut_seq, bytes_seq};
use crate::codec::{Codec, MeasuredCodec, all_canonical, all_writable, array_len, lemma_array_round_trip, lemma_array_writable, read_array, saturating_sum, spec_read_array, spec_write_array, write_array};
use crate::error::{Error, UnsupportedFieldVersion, UnsupportedVersion};
use crate::ints::{lemma_i16_roundtrip, lemma_i32_roundtrip, lemma_i64_roundtrip, lemma_u16_roundtrip, read_i16, read_i32, read_i64, read_u16, spec_read_i16, spec_read_i32, spec_read_i64, spec_read_u16, spec_write_i16, spec_write_i32, spec_write_i64, spec_write_u16, u16_bytes, u32_bytes, u64_bytes, write_i16, write_i32, write_i64, write_u16};
use crate::strings::{compact_nullable_string_len, compact_string_len, lemma_compact_nullable_string_round_trip, lemma_compact_string_round_trip, lemma_uuid_round_trip, read_compact_nullable_string, read_compact_string, read_uuid, spec_read_compact_nullable_string, spec_read_compact_string, spec_read_uuid, spec_write_compact_nullable_string, spec_write_compact_string, spec_write_uuid, write_compact_nullable_string, write_compact_string, write_uuid};
use crate::tagged::{lemma_sorted_by_tag_in_order, lemma_sorted_tags_fit, lemma_tagged_fields_round_trip, lemma_tagged_fields_writable, read_tagged_fields, sort_by_tag, sorted_by_tag, spec_read_tagged_fields, spec_write_tagged_fields, tagged_fields_len, tags_fit, tags_in_order, write_tagged_fields};
use crate::types::{KafkaString, KafkaUuid, RawTaggedField, uuid_is_nil};
use crate::wire::{ReadOutcome, ViewClone, WriteOutcome, chain, clone_vec, emit, empty_vec, fail, has_room, lemma_append_empty, lemma_chain_written, lemma_len_step, lemma_step, len_result, opt_view, read_as, read_opt_as, read_vec_as, saturate, took_front, views, written, wrote};
use bytes::{Bytes, BytesMut};
use vstd::prelude::*;

verus! {

broadcast use {crate::wire::lemma_chain_written, crate::wire::lemma_took_front_nothing, crate::wire::lemma_took_front_twice};

#[derive(Debug, PartialEq)]
pub struct DescribeQuorumResponseData {
    /// The top level error code.
    pub error_code: i16,
    /// The error message, or null if there was no error.
    pub error_message: Option<KafkaString>,
    /// The response from the describe quorum API.
    pub topics: Vec<TopicData>,
    /// The nodes in the quorum.
    pub nodes: Vec<Node>,
    pub _unknown_tagged_fields: Vec<RawTaggedField>,
}

/// What a `DescribeQuorumResponseData` holds, as the specification sees it.
#[verifier::ext_equal]
pub struct DescribeQuorumResponseDataView {
    pub error_code: i16,
    pub error_message: Option<Seq<u8>>,
    pub topics: Seq<TopicDataView>,
    pub nodes: Seq<NodeView>,
    pub unknown_tagged_fields: Seq<(u32, Seq<u8>)>,
}

impl View for DescribeQuorumResponseData {
    type V = DescribeQuorumResponseDataView;

    open spec fn view(&self) -> DescribeQuorumResponseDataView {
        DescribeQuorumResponseDataView {
            error_code: self.error_code,
            error_message: opt_view(self.error_message),
            topics: views(self.topics@),
            nodes: views(self.nodes@),
            unknown_tagged_fields: views(self._unknown_tagged_fields@),
        }
    }
}

impl Clone for DescribeQuorumResponseData {
    fn clone(&self) -> (r: Self)
        ensures
            r@ == self@,
    {
        let r = DescribeQuorumResponseData {
            error_code: self.error_code,
            error_message: match &self.error_message {
                Some(x) => Some(x.clone()),
                None => None,
            },
            topics: clone_vec(&self.topics),
            nodes: clone_vec(&self.nodes),
            _unknown_tagged_fields: clone_vec(&self._unknown_tagged_fields),
        };
        assert(r@ =~= self@);
        r
    }
}

impl ViewClone for DescribeQuorumResponseData {
    fn clone_view(&self) -> (r: Self) {
        self.clone()
    }
}

impl Default for DescribeQuorumResponseData {
    fn default() -> (r: Self)
        ensures
            r@ == Self::default_view(),
    {
        let r = DescribeQuorumResponseData {
            error_code: 0_i16,
            error_message: None,
            topics: empty_vec(),
            nodes: empty_vec(),
            _unknown_tagged_fields: empty_vec(),
        };
        assert(r@ =~= Self::default_view());
        r
    }
}

impl DescribeQuorumResponseData {
    pub open spec fn default_view() -> DescribeQuorumResponseDataView {
        DescribeQuorumResponseDataView {
            error_code: 0_i16,
            error_message: None,
            topics: Seq::empty(),
            nodes: Seq::empty(),
            unknown_tagged_fields: Seq::empty(),
        }
    }

    /// The `error_code` field, read from the front of `s`.
    #[verifier::opaque]
    pub open spec fn spec_read_error_code(s: Seq<u8>, version: i16) -> ReadOutcome<i16> {
        spec_read_i16(s)
    }

    /// The `error_message` field, read from the front of `s`.
    #[verifier::opaque]
    pub open spec fn spec_read_error_message(s: Seq<u8>, version: i16) -> ReadOutcome<Option<Seq<u8>>> {
        if version >= 2 {
            spec_read_compact_nullable_string(s)
        } else {
            Ok((None, s))
        }
    }

    /// The `topics` field, read from the front of `s`.
    #[verifier::opaque]
    pub open spec fn spec_read_topics(s: Seq<u8>, version: i16) -> ReadOutcome<Seq<TopicDataView>> {
        spec_read_array::<TopicData>(s, version, true)
    }

    /// The `nodes` field, read from the front of `s`.
    #[verifier::opaque]
    pub open spec fn spec_read_nodes(s: Seq<u8>, version: i16) -> ReadOutcome<Seq<NodeView>> {
        if version >= 2 {
            spec_read_array::<Node>(s, version, true)
        } else {
            Ok((Seq::empty(), s))
        }
    }

    /// The tagged fields, read from the front of `s`.
    #[verifier::opaque]
    pub open spec fn spec_read_tags(s: Seq<u8>, version: i16) -> ReadOutcome<Seq<(u32, Seq<u8>)>> {
        spec_read_tagged_fields(s)
    }

    pub open spec fn spec_read(s: Seq<u8>, version: i16) -> ReadOutcome<DescribeQuorumResponseDataView> {
        if version < 0 || version > 2 {
            Err(Error::UnsupportedVersion(UnsupportedVersion { api_key: 55, version }))
        } else {
            match (Self::spec_read_error_code(s, version)) {
                Err(e) => Err(e),
                Ok((error_code, s)) => match (Self::spec_read_error_message(s, version)) {
                    Err(e) => Err(e),
                    Ok((error_message, s)) => match (Self::spec_read_topics(s, version)) {
                        Err(e) => Err(e),
                        Ok((topics, s)) => match (Self::spec_read_nodes(s, version)) {
                            Err(e) => Err(e),
                            Ok((nodes, s)) => match (Self::spec_read_tags(s, version)) {
                                Err(e) => Err(e),
                                Ok((unknown_tagged_fields, s)) => Ok((DescribeQuorumResponseDataView {
                                            error_code: error_code,
                                            error_message: error_message,
                                            topics: topics,
                                            nodes: nodes,
                                            unknown_tagged_fields: unknown_tagged_fields,
                                        }, s)),
                            },
                        },
                    },
                },
            }
        }
    }

    /// What writing the `error_code` field of `m` appends.
    #[verifier::opaque]
    pub open spec fn spec_write_error_code(m: DescribeQuorumResponseDataView, version: i16) -> WriteOutcome {
        spec_write_i16(m.error_code)
    }

    /// What writing the `error_message` field of `m` appends.
    #[verifier::opaque]
    pub open spec fn spec_write_error_message(m: DescribeQuorumResponseDataView, version: i16) -> WriteOutcome {
        if version >= 2 {
            spec_write_compact_nullable_string(m.error_message)
        } else {
            if m.error_message is Some {
                fail(Error::UnsupportedFieldVersion(UnsupportedFieldVersion { api_key: 55, field: "error_message", version }))
            } else {
                emit(Seq::empty())
            }
        }
    }

    /// What writing the `topics` field of `m` appends.
    #[verifier::opaque]
    pub open spec fn spec_write_topics(m: DescribeQuorumResponseDataView, version: i16) -> WriteOutcome {
        spec_write_array::<TopicData>(m.topics, version, true)
    }

    /// What writing the `nodes` field of `m` appends.
    #[verifier::opaque]
    pub open spec fn spec_write_nodes(m: DescribeQuorumResponseDataView, version: i16) -> WriteOutcome {
        if version >= 2 {
            spec_write_array::<Node>(m.nodes, version, true)
        } else {
            if m.nodes.len() != 0 {
                fail(Error::UnsupportedFieldVersion(UnsupportedFieldVersion { api_key: 55, field: "nodes", version }))
            } else {
                emit(Seq::empty())
            }
        }
    }

    /// What writing the tagged fields of `m` appends.
    #[verifier::opaque]
    pub open spec fn spec_write_tags(m: DescribeQuorumResponseDataView, version: i16) -> WriteOutcome {
        spec_write_tagged_fields(sorted_by_tag(m.unknown_tagged_fields))
    }

    pub open spec fn spec_write(m: DescribeQuorumResponseDataView, version: i16) -> WriteOutcome {
        if version < 0 || version > 2 {
            fail(Error::UnsupportedVersion(UnsupportedVersion { api_key: 55, version }))
        } else {
            chain(
                chain(
                    chain(
                        chain(
                            Self::spec_write_error_code(m, version),
                            Self::spec_write_error_message(m, version),
                        ),
                        Self::spec_write_topics(m, version),
                    ),
                    Self::spec_write_nodes(m, version),
                ),
                Self::spec_write_tags(m, version),
            )
        }
    }

    /// Whether reading back what writing `m` in `version` appends gives `m`:
    /// fields that the version does not carry hold their default values, and
    /// tagged fields come in the order in which they are written.
    pub open spec fn canonical(m: DescribeQuorumResponseDataView, version: i16) -> bool {
        &&& all_canonical::<TopicData>(m.topics, version)
        &&& (if version >= 2 {
                all_canonical::<Node>(m.nodes, version)
            } else {
                true
        })
        &&& tags_in_order(m.unknown_tagged_fields)
    }

    proof fn lemma_round_trip_error_code(m: DescribeQuorumResponseDataView, version: i16, rest: Seq<u8>)
        requires
            Self::canonical(m, version),
            Self::spec_write_error_code(m, version) is Ok,
        ensures
            Self::spec_read_error_code(written(Self::spec_write_error_code(m, version)) + rest, version) == Ok::<(i16, Seq<u8>), Error>((m.error_code, rest)),
    {
        reveal(DescribeQuorumResponseData::spec_read_error_code);
        reveal(DescribeQuorumResponseData::spec_write_error_code);
        lemma_i16_roundtrip(m.error_code, rest);
    }

    proof fn lemma_round_trip_error_message(m: DescribeQuorumResponseDataView, version: i16, rest: Seq<u8>)
        requires
            Self::canonical(m, version),
            Self::spec_write_error_message(m, version) is Ok,
        ensures
            Self::spec_read_error_message(written(Self::spec_write_error_message(m, version)) + rest, version) == Ok::<(Option<Seq<u8>>, Seq<u8>), Error>((m.error_message, rest)),
    {
        reveal(DescribeQuorumResponseData::spec_read_error_message);
        reveal(DescribeQuorumResponseData::spec_write_error_message);
        if version >= 2 {
            lemma_compact_nullable_string_round_trip(m.error_message, rest);
        } else {
            assert(Seq::<u8>::empty() + rest =~= rest);
        }
    }

    proof fn lemma_round_trip_topics(m: DescribeQuorumResponseDataView, version: i16, rest: Seq<u8>)
        requires
            Self::canonical(m, version),
            Self::spec_write_topics(m, version) is Ok,
        ensures
            Self::spec_read_topics(written(Self::spec_write_topics(m, version)) + rest, version) == Ok::<(Seq<TopicDataView>, Seq<u8>), Error>((m.topics, rest)),
    {
        reveal(DescribeQuorumResponseData::spec_read_topics);
        reveal(DescribeQuorumResponseData::spec_write_topics);
        lemma_array_round_trip::<TopicData>(m.topics, version, true, rest);
    }

    proof fn lemma_round_trip_nodes(m: DescribeQuorumResponseDataView, version: i16, rest: Seq<u8>)
        requires
            Self::canonical(m, version),
            Self::spec_write_nodes(m, version) is Ok,
        ensures
            Self::spec_read_nodes(written(Self::spec_write_nodes(m, version)) + rest, version) == Ok::<(Seq<NodeView>, Seq<u8>), Error>((m.nodes, rest)),
    {
        reveal(DescribeQuorumResponseData::spec_read_nodes);
        reveal(DescribeQuorumResponseData::spec_write_nodes);
        if version >= 2 {
            lemma_array_round_trip::<Node>(m.nodes, version, true, rest);
        } else {
            assert(Seq::<u8>::empty() + rest =~= rest);
            assert(m.nodes =~= Seq::empty());
            assert(m.nodes =~= Seq::empty());
        }
    }

    proof fn lemma_round_trip_tags(m: DescribeQuorumResponseDataView, version: i16, rest: Seq<u8>)
        requires
            Self::canonical(m, version),
            Self::spec_write_tags(m, version) is Ok,
        ensures
            Self::spec_read_tags(written(Self::spec_write_tags(m, version)) + rest, version) == Ok::<(Seq<(u32, Seq<u8>)>, Seq<u8>), Error>((m.unknown_tagged_fields, rest)),
    {
        reveal(DescribeQuorumResponseData::spec_read_tags);
        reveal(DescribeQuorumResponseData::spec_write_tags);
        lemma_sorted_by_tag_in_order(m.unknown_tagged_fields);
        lemma_tagged_fields_round_trip(m.unknown_tagged_fields, rest);
    }

    /// Reading back what writing `m` in `version` appends gives `m` again, and
    /// leaves what follows, for every canonical message whose write succeeds.
    #[verifier::rlimit(90)]
    #[verifier::spinoff_prover]
    pub proof fn lemma_round_trip(m: DescribeQuorumResponseDataView, version: i16, rest: Seq<u8>)
        requires
            Self::canonical(m, version),
            Self::spec_write(m, version) is Ok,
        ensures
            Self::spec_read(written(Self::spec_write(m, version)) + rest, version) == Ok::<(DescribeQuorumResponseDataView, Seq<u8>), Error>((m, rest)),
    {
        let b0 = written(Self::spec_write_error_code(m, version));
        let b1 = written(Self::spec_write_error_message(m, version));
        let b2 = written(Self::spec_write_topics(m, version));
        let b3 = written(Self::spec_write_nodes(m, version));
        let b4 = written(Self::spec_write_tags(m, version));
        let t5 = rest;
        let t4 = b4 + t5;
        let t3 = b3 + t4;
        let t2 = b2 + t3;
        let t1 = b1 + t2;
        let t0 = b0 + t1;
        let w0 = Self::spec_write_error_code(m, version);
        let w1 = chain(w0, Self::spec_write_error_message(m, version));
        let w2 = chain(w1, Self::spec_write_topics(m, version));
        let w3 = chain(w2, Self::spec_write_nodes(m, version));
        let w4 = chain(w3, Self::spec_write_tags(m, version));
        assert(Self::spec_write(m, version) == w4);
        assert(written(w4) + t5 =~= written(w3) + t4);
        assert(written(w3) + t4 =~= written(w2) + t3);
        assert(written(w2) + t3 =~= written(w1) + t2);
        assert(written(w1) + t2 =~= written(w0) + t1);
        Self::lemma_round_trip_error_code(m, version, t1);
        Self::lemma_round_trip_error_message(m, version, t2);
        Self::lemma_round_trip_topics(m, version, t3);
        Self::lemma_round_trip_nodes(m, version, t4);
        Self::lemma_round_trip_tags(m, version, t5);
    }

    /// The default message holds the default value of each field of the schema.
    pub proof fn lemma_default_values()
        ensures
            Self::default_view().error_code == (0_i16),
            (Self::default_view().error_message is None),
            Self::default_view().topics.len() == 0,
            Self::default_view().nodes.len() == 0,
            Self::default_view().unknown_tagged_fields.len() == 0,
    {
    }

    /// Each integer, boolean and identifier field is written as its standard
    /// big-endian bytes (a boolean as `1` or `0`) in the versions that carry
    /// it, and as nothing in the others; reading it takes those bytes back (any
    /// byte other than `0` reads as `true`), or gives its default value.
    pub proof fn lemma_field_encodings(m: DescribeQuorumResponseDataView, s: Seq<u8>, version: i16)
        ensures
            true ==> Self::spec_write_error_code(m, version) == Ok::<Seq<u8>, (Error, Seq<u8>)>(u16_bytes(m.error_code as u16)),
            true ==> Self::spec_read_error_code(s, version) == spec_read_i16(s),
    {
        reveal(DescribeQuorumResponseData::spec_write_error_code);
        reveal(DescribeQuorumResponseData::spec_read_error_code);
    }

    /// Whether writing `m` in `version` succeeds, said over its parts: the
    /// version is one the schema covers, every field that the version cannot
    /// carry holds its default value, and every string, byte string, array and
    /// tagged field fits its length prefix.
    pub open spec fn writable(m: DescribeQuorumResponseDataView, version: i16) -> bool {
        &&& 0 <= version <= 2
        &&& (if version >= 2 {
                (m.error_message matches Some(b) ==> b.len() <= 0x7fff)
            } else {
                !(m.error_message is Some)
        })
        &&& (m.topics.len() <= i32::MAX && all_writable::<TopicData>(m.topics, version))
        &&& (if version >= 2 {
                (m.nodes.len() <= i32::MAX && all_writable::<Node>(m.nodes, version))
            } else {
                !(m.nodes.len() != 0)
        })
        &&& m.unknown_tagged_fields.len() <= u32::MAX && tags_fit(m.unknown_tagged_fields)
    }

    proof fn lemma_writable_error_code(m: DescribeQuorumResponseDataView, version: i16)
        ensures
            Self::spec_write_error_code(m, version) is Ok <==> true,
    {
        reveal(DescribeQuorumResponseData::spec_write_error_code);
    }

    proof fn lemma_writable_error_message(m: DescribeQuorumResponseDataView, version: i16)
        ensures
            Self::spec_write_error_message(m, version) is Ok <==> (if version >= 2 { (m.error_message matches Some(b) ==> b.len() <= 0x7fff) } else { !(m.error_message is Some) }),
    {
        reveal(DescribeQuorumResponseData::spec_write_error_message);
    }

    proof fn lemma_writable_topics(m: DescribeQuorumResponseDataView, version: i16)
        ensures
            Self::spec_write_topics(m, version) is Ok <==> (m.topics.len() <= i32::MAX && all_writable::<TopicData>(m.topics, version)),
    {
        reveal(DescribeQuorumResponseData::spec_write_topics);
        lemma_array_writable::<TopicData>(m.topics, version, true);
    }

    proof fn lemma_writable_nodes(m: DescribeQuorumResponseDataView, version: i16)
        ensures
            Self::spec_write_nodes(m, version) is Ok <==> (if version >= 2 { (m.nodes.len() <= i32::MAX && all_writable::<Node>(m.nodes, version)) } else { !(m.nodes.len() != 0) }),
    {
        reveal(DescribeQuorumResponseData::spec_write_nodes);
        if version >= 2 {
            lemma_array_writable::<Node>(m.nodes, version, true);
        } else {
        }
    }

    proof fn lemma_writable_tags(m: DescribeQuorumResponseDataView, version: i16)
        ensures
            Self::spec_write_tags(m, version) is Ok <==> m.unknown_tagged_fields.len() <= u32::MAX && tags_fit(m.unknown_tagged_fields),
    {
        reveal(DescribeQuorumResponseData::spec_write_tags);
        lemma_sorted_tags_fit(m.unknown_tagged_fields);
        lemma_tagged_fields_writable(sorted_by_tag(m.unknown_tagged_fields));
    }

    /// Writing `m` in `version` succeeds exactly when `m` is writable in it;
    /// so do `write` and `encoded_len`, whose results follow `spec_write`.
    #[verifier::rlimit(60)]
    pub proof fn lemma_writable(m: DescribeQuorumResponseDataView, version: i16)
        ensures
            Self::spec_write(m, version) is Ok <==> Self::writable(m, version),
    {
        Self::lemma_writable_error_code(m, version);
        Self::lemma_writable_error_message(m, version);
        Self::lemma_writable_topics(m, version);
        Self::lemma_writable_nodes(m, version);
        Self::lemma_writable_tags(m, version);
    }

    /// A version outside the range that the schema covers is refused, by
    /// reads and by writes alike, before anything is read or written.
    pub proof fn lemma_refused_version(m: DescribeQuorumResponseDataView, s: Seq<u8>, version: i16)
        requires
            version < 0 || version > 2,
        ensures
            Self::spec_read(s, version) == Err::<(DescribeQuorumResponseDataView, Seq<u8>), Error>(Error::UnsupportedVersion(UnsupportedVersion { api_key: 55, version })),
            Self::spec_write(m, version) == fail(Error::UnsupportedVersion(UnsupportedVersion { api_key: 55, version })),
    {
    }

    pub fn with_error_code(self, value: i16) -> (r: Self)
        ensures
            r@ == (DescribeQuorumResponseDataView { error_code: value, ..self@ }),
    {
        let mut r = self;
        r.error_code = value;
        r
    }

    pub fn with_error_message(self, value: Option<KafkaString>) -> (r: Self)
        ensures
            r@ == (DescribeQuorumResponseDataView { error_message: opt_view(value), ..self@ }),
    {
        let mut r = self;
        r.error_message = value;
        r
    }

    pub fn with_topics(self, value: Vec<TopicData>) -> (r: Self)
        ensures
            r@ == (DescribeQuorumResponseDataView { topics: views(value@), ..self@ }),
    {
        let mut r = self;
        r.topics = value;
        r
    }

    pub fn with_nodes(self, value: Vec<Node>) -> (r: Self)
        ensures
            r@ == (DescribeQuorumResponseDataView { nodes: views(value@), ..self@ }),
    {
        let mut r = self;
        r.nodes = value;
        r
    }

    fn read_error_code(buf: &mut Bytes, version: i16) -> (r: Result<i16, Error>)
        ensures
            read_as(Self::spec_read_error_code(bytes_seq(*old(buf)), version), *final(buf), r),
            took_front(*old(buf), *final(buf)),
    {
        proof {
            reveal(DescribeQuorumResponseData::spec_read_error_code);
        }
        Ok(read_i16(buf)?)
    }

    fn read_error_message(buf: &mut Bytes, version: i16) -> (r: Result<Option<KafkaString>, Error>)
        ensures
            read_opt_as(Self::spec_read_error_message(bytes_seq(*old(buf)), version), *final(buf), r),
            took_front(*old(buf), *final(buf)),
    {
        proof {
            reveal(DescribeQuorumResponseData::spec_read_error_message);
        }
        Ok(if version >= 2 {
                read_compact_nullable_string(buf)?
            } else {
                None
        })
    }

    fn read_topics(buf: &mut Bytes, version: i16) -> (r: Result<Vec<TopicData>, Error>)
        ensures
            read_vec_as(Self::spec_read_topics(bytes_seq(*old(buf)), version), *final(buf), r),
            took_front(*old(buf), *final(buf)),
    {
        proof {
            reveal(DescribeQuorumResponseData::spec_read_topics);
        }
        Ok(read_array::<TopicData>(buf, version, true)?)
    }

    fn read_nodes(buf: &mut Bytes, version: i16) -> (r: Result<Vec<Node>, Error>)
        ensures
            read_vec_as(Self::spec_read_nodes(bytes_seq(*old(buf)), version), *final(buf), r),
            took_front(*old(buf), *final(buf)),
    {
        proof {
            reveal(DescribeQuorumResponseData::spec_read_nodes);
        }
        Ok(if version >= 2 {
                read_array::<Node>(buf, version, true)?
            } else {
                empty_vec()
        })
    }

    fn read_tags(buf: &mut Bytes, version: i16) -> (r: Result<Vec<RawTaggedField>, Error>)
        ensures
            read_vec_as(Self::spec_read_tags(bytes_seq(*old(buf)), version), *final(buf), r),
            took_front(*old(buf), *final(buf)),
    {
        proof {
            reveal(DescribeQuorumResponseData::spec_read_tags);
        }
        Ok(read_tagged_fields(buf)?)
    }

    pub fn read(buf: &mut Bytes, version: i16) -> (r: Result<Self, Error>)
        ensures
            read_as(Self::spec_read(bytes_seq(*old(buf)), version), *final(buf), r),
            took_front(*old(buf), *final(buf)),
            (version < 0 || version > 2) ==> bytes_seq(*final(buf)) == bytes_seq(*old(buf)),
    {
        if version < 0 || version > 2 {
            return Err(Error::UnsupportedVersion(UnsupportedVersion::new(55, version)));
        }
        let error_code = Self::read_error_code(buf, version)?;
        let error_message = Self::read_error_message(buf, version)?;
        let topics = Self::read_topics(buf, version)?;
        let nodes = Self::read_nodes(buf, version)?;
        let _unknown_tagged_fields = Self::read_tags(buf, version)?;
        Ok(DescribeQuorumResponseData {
                error_code: error_code,
                error_message: error_message,
                topics: topics,
                nodes: nodes,
                _unknown_tagged_fields: _unknown_tagged_fields,
        })
    }

    #[verifier::rlimit(80)]
    pub fn write(&self, buf: &mut BytesMut, version: i16) -> (r: Result<(), Error>)
        requires
            has_room(Self::spec_write(self@, version), *old(buf)),
        ensures
            wrote(Self::spec_write(self@, version), *old(buf), *final(buf), r),
    {
        if version < 0 || version > 2 {
            return Err(Error::UnsupportedVersion(UnsupportedVersion::new(55, version)));
        }
        let ghost m = self@;
        proof {
            reveal(DescribeQuorumResponseData::spec_write_error_code);
            reveal(DescribeQuorumResponseData::spec_write_error_message);
            reveal(DescribeQuorumResponseData::spec_write_topics);
            reveal(DescribeQuorumResponseData::spec_write_nodes);
            reveal(DescribeQuorumResponseData::spec_write_tags);
        }
        let ghost s0 = Self::spec_write_error_code(m, version);
        let ghost w0 = s0;
        let ghost s1 = Self::spec_write_error_message(m, version);
        let ghost w1 = chain(w0, s1);
        let ghost s2 = Self::spec_write_topics(m, version);
        let ghost w2 = chain(w1, s2);
        let ghost s3 = Self::spec_write_nodes(m, version);
        let ghost w3 = chain(w2, s3);
        let ghost s4 = Self::spec_write_tags(m, version);
        let ghost w4 = chain(w3, s4);
        assert(Self::spec_write(m, version) == w4);
        assert(written(w3).len() <= written(w4).len() && (w3 is Err ==> w4 == w3));
        assert(written(w2).len() <= written(w4).len() && (w2 is Err ==> w4 == w2));
        assert(written(w1).len() <= written(w4).len() && (w1 is Err ==> w4 == w1));
        assert(written(w0).len() <= written(w4).len() && (w0 is Err ==> w4 == w0));
        let ghost mid = bytes_mut_seq(*buf);
        proof {
            lemma_append_empty(mid);
        }
        let r0 = {
            write_i16(buf, self.error_code);
            Ok(())
        };
        assert(bytes_mut_seq(*buf) == mid + written(s0));
        if r0.is_err() {
            return r0;
        }
        let ghost mid = bytes_mut_seq(*buf);
        proof {
            lemma_append_empty(mid);
        }
        let r1 = if version >= 2 {
            write_compact_nullable_string(buf, &self.error_message)
        } else {
            if self.error_message.is_some() {
                Err(Error::UnsupportedFieldVersion(UnsupportedFieldVersion::new(55, "error_message", version)))
            } else {
                Ok(())
            }
        };
        assert(bytes_mut_seq(*buf) == mid + written(s1));
        proof {
            lemma_step(bytes_mut_seq(*old(buf)), w0, s1);
        }
        if r1.is_err() {
            return r1;
        }
        let ghost mid = bytes_mut_seq(*buf);
        proof {
            lemma_append_empty(mid);
        }
        let r2 = write_array::<TopicData>(buf, &self.topics, version, true);
        assert(bytes_mut_seq(*buf) == mid + written(s2));
        proof {
            lemma_step(bytes_mut_seq(*old(buf)), w1, s2);
        }
        if r2.is_err() {
            return r2;
        }
        let ghost mid = bytes_mut_seq(*buf);
        proof {
            lemma_append_empty(mid);
        }
        let r3 = if version >= 2 {
            write_array::<Node>(buf, &self.nodes, version, true)
        } else {
            if self.nodes.len() != 0 {
                Err(Error::UnsupportedFieldVersion(UnsupportedFieldVersion::new(55, "nodes", version)))
            } else {
                Ok(())
            }
        };
        assert(bytes_mut_seq(*buf) == mid + written(s3));
        proof {
            lemma_step(bytes_mut_seq(*old(buf)), w2, s3);
        }
        if r3.is_err() {
            return r3;
        }
        let ghost mid = bytes_mut_seq(*buf);
        proof {
            lemma_append_empty(mid);
        }
        let r4 = write_tagged_fields(buf, &sort_by_tag(&self._unknown_tagged_fields));
        assert(bytes_mut_seq(*buf) == mid + written(s4));
        proof {
            lemma_step(bytes_mut_seq(*old(buf)), w3, s4);
        }
        if r4.is_err() {
            return r4;
        }
        Ok(())
    }

    #[verifier::rlimit(80)]
    pub fn encoded_len(&self, version: i16) -> (r: Result<usize, Error>)
        ensures
            r == len_result(Self::spec_write(self@, version)),
    {
        if version < 0 || version > 2 {
            return Err(Error::UnsupportedVersion(UnsupportedVersion::new(55, version)));
        }
        let ghost m = self@;
        proof {
            reveal(DescribeQuorumResponseData::spec_write_error_code);
            reveal(DescribeQuorumResponseData::spec_write_error_message);
            reveal(DescribeQuorumResponseData::spec_write_topics);
            reveal(DescribeQuorumResponseData::spec_write_nodes);
            reveal(DescribeQuorumResponseData::spec_write_tags);
        }
        let ghost s0 = Self::spec_write_error_code(m, version);
        let ghost w0 = s0;
        let ghost s1 = Self::spec_write_error_message(m, version);
        let ghost w1 = chain(w0, s1);
        let ghost s2 = Self::spec_write_topics(m, version);
        let ghost w2 = chain(w1, s2);
        let ghost s3 = Self::spec_write_nodes(m, version);
        let ghost w3 = chain(w2, s3);
        let ghost s4 = Self::spec_write_tags(m, version);
        let ghost w4 = chain(w3, s4);
        assert(Self::spec_write(m, version) == w4);
        assert(w3 is Err ==> w4 == w3);
        assert(w2 is Err ==> w4 == w2);
        assert(w1 is Err ==> w4 == w1);
        assert(w0 is Err ==> w4 == w0);
        let mut len: usize = 0;
        let l0 = Ok(2);
        assert(l0 == len_result(s0));
        let n0 = match l0 {
            Ok(n) => n,
            Err(e) => {
                return Err(e);
            },
        };
        len = saturating_sum(len, n0);
        assert(w0 is Ok && len == saturate(written(w0).len() as int));
        let l1 = if version >= 2 {
            compact_nullable_string_len(&self.error_message)
        } else {
            if self.error_message.is_some() {
                Err(Error::UnsupportedFieldVersion(UnsupportedFieldVersion::new(55, "error_message", version)))
            } else {
                Ok(0)
            }
        };
        assert(l1 == len_result(s1));
        let n1 = match l1 {
            Ok(n) => n,
            Err(e) => {
                return Err(e);
            },
        };
        proof {
            lemma_len_step(w0, s1, n1);
        }
        len = saturating_sum(len, n1);
        assert(w1 is Ok && len == saturate(written(w1).len() as int));
        let l2 = array_len::<TopicData>(&self.topics, version, true);
        assert(l2 == len_result(s2));
        let n2 = match l2 {
            Ok(n) => n,
            Err(e) => {
                return Err(e);
            },
        };
        proof {
            lemma_len_step(w1, s2, n2);
        }
        len = saturating_sum(len, n2);
        assert(w2 is Ok && len == saturate(written(w2).len() as int));
        let l3 = if version >= 2 {
            array_len::<Node>(&self.nodes, version, true)
        } else {
            if self.nodes.len() != 0 {
                Err(Error::UnsupportedFieldVersion(UnsupportedFieldVersion::new(55, "nodes", version)))
            } else {
                Ok(0)
            }
        };
        assert(l3 == len_result(s3));
        let n3 = match l3 {
            Ok(n) => n,
            Err(e) => {
                return Err(e);
            },
        };
        proof {
            lemma_len_step(w2, s3, n3);
        }
        len = saturating_sum(len, n3);
        assert(w3 is Ok && len == saturate(written(w3).len() as int));
        let l4 = tagged_fields_len(&sort_by_tag(&self._unknown_tagged_fields));
        assert(l4 == len_result(s4));
        let n4 = match l4 {
            Ok(n) => n,
            Err(e) => {
                return Err(e);
            },
        };
        proof {
            lemma_len_step(w3, s4, n4);
        }
        len = saturating_sum(len, n4);
        assert(w4 is Ok && len == saturate(written(w4).len() as int));
        Ok(len)
    }
}

#[derive(Debug, PartialEq)]
pub struct TopicData {
    /// The topic name.
    pub topic_name: KafkaString,
    /// The partition data.
    pub partitions: Vec<PartitionData>,
    pub _unknown_tagged_fields: Vec<RawTaggedField>,
}

/// What a `TopicData` holds, as the specification sees it.
#[verifier::ext_equal]
pub struct TopicDataView {
    pub topic_name: Seq<u8>,
    pub partitions: Seq<PartitionDataView>,
    pub unknown_tagged_fields: Seq<(u32, Seq<u8>)>,
}

impl View for TopicData {
    type V = TopicDataView;

    open spec fn view(&self) -> TopicDataView {
        TopicDataView {
            topic_name: self.topic_name@,
            partitions: views(self.partitions@),
            unknown_tagged_fields: views(self._unknown_tagged_fields@),
        }
    }
}

impl Clone for TopicData {
    fn clone(&self) -> (r: Self)
        ensures
            r@ == self@,
    {
        let r = TopicData {
            topic_name: self.topic_name.clone(),
            partitions: clone_vec(&self.partitions),
            _unknown_tagged_fields: clone_vec(&self._unknown_tagged_fields),
        };
        assert(r@ =~= self@);
        r
    }
}

impl ViewClone for TopicData {
    fn clone_view(&self) -> (r: Self) {
        self.clone()
    }
}

impl Default for TopicData {
    fn default() -> (r: Self)
        ensures
            r@ == Self::default_view(),
    {
        let r = TopicData {
            topic_name: KafkaString::default(),
            partitions: empty_vec(),
            _unknown_tagged_fields: empty_vec(),
        };
        assert(r@ =~= Self::default_view());
        r
    }
}

impl TopicData {
    pub open spec fn default_view() -> TopicDataView {
        TopicDataView {
            topic_name: Seq::empty(),
            partitions: Seq::empty(),
            unknown_tagged_fields: Seq::empty(),
        }
    }

    /// The `topic_name` field, read from the front of `s`.
    #[verifier::opaque]
    pub open spec fn spec_read_topic_name(s: Seq<u8>, version: i16) -> ReadOutcome<Seq<u8>> {
        spec_read_compact_string(s)
    }

    /// The `partitions` field, read from the front of `s`.
    #[verifier::opaque]
    pub open spec fn spec_read_partitions(s: Seq<u8>, version: i16) -> ReadOutcome<Seq<PartitionDataView>> {
        spec_read_array::<PartitionData>(s, version, true)
    }

    /// The tagged fields, read from the front of `s`.
    #[verifier::opaque]
    pub open spec fn spec_read_tags(s: Seq<u8>, version: i16) -> ReadOutcome<Seq<(u32, Seq<u8>)>> {
        spec_read_tagged_fields(s)
    }

    pub open spec fn spec_read(s: Seq<u8>, version: i16) -> ReadOutcome<TopicDataView> {
        match (Self::spec_read_topic_name(s, version)) {
            Err(e) => Err(e),
            Ok((topic_name, s)) => match (Self::spec_read_partitions(s, version)) {
                Err(e) => Err(e),
                Ok((partitions, s)) => match (Self::spec_read_tags(s, version)) {
                    Err(e) => Err(e),
                    Ok((unknown_tagged_fields, s)) => Ok((TopicDataView {
                                topic_name: topic_name,
                                partitions: partitions,
                                unknown_tagged_fields: unknown_tagged_fields,
                            }, s)),
                },
            },
        }
    }

    /// What writing the `topic_name` field of `m` appends.
    #[verifier::opaque]
    pub open spec fn spec_write_topic_name(m: TopicDataView, version: i16) -> WriteOutcome {
        spec_write_compact_string(m.topic_name)
    }

    /// What writing the `partitions` field of `m` appends.
    #[verifier::opaque]
    pub open spec fn spec_write_partitions(m: TopicDataView, version: i16) -> WriteOutcome {
        spec_write_array::<PartitionData>(m.partitions, version, true)
    }

    /// What writing the tagged fields of `m` appends.
    #[verifier::opaque]
    pub open spec fn spec_write_tags(m: TopicDataView, version: i16) -> WriteOutcome {
        spec_write_tagged_fields(sorted_by_tag(m.unknown_tagged_fields))
    }

    pub open spec fn spec_write(m: TopicDataView, version: i16) -> WriteOutcome {
        chain(
            chain(
                Self::spec_write_topic_name(m, version),
                Self::spec_write_partitions(m, version),
            ),
            Self::spec_write_tags(m, version),
        )
    }

    /// Whether reading back what writing `m` in `version` appends gives `m`:
    /// fields that the version does not carry hold their default values, and
    /// tagged fields come in the order in which they are written.
    pub open spec fn canonical(m: TopicDataView, version: i16) -> bool {
        &&& all_canonical::<PartitionData>(m.partitions, version)
        &&& tags_in_order(m.unknown_tagged_fields)
    }

    proof fn lemma_round_trip_topic_name(m: TopicDataView, version: i16, rest: Seq<u8>)
        requires
            Self::canonical(m, version),
            Self::spec_write_topic_name(m, version) is Ok,
        ensures
            Self::spec_read_topic_name(written(Self::spec_write_topic_name(m, version)) + rest, version) == Ok::<(Seq<u8>, Seq<u8>), Error>((m.topic_name, rest)),
    {
        reveal(TopicData::spec_read_topic_name);
        reveal(TopicData::spec_write_topic_name);
        lemma_compact_string_round_trip(m.topic_name, rest);
    }

    proof fn lemma_round_trip_partitions(m: TopicDataView, version: i16, rest: Seq<u8>)
        requires
            Self::canonical(m, version),
            Self::spec_write_partitions(m, version) is Ok,
        ensures
            Self::spec_read_partitions(written(Self::spec_write_partitions(m, version)) + rest, version) == Ok::<(Seq<PartitionDataView>, Seq<u8>), Error>((m.partitions, rest)),
    {
        reveal(TopicData::spec_read_partitions);
        reveal(TopicData::spec_write_partitions);
        lemma_array_round_trip::<PartitionData>(m.partitions, version, true, rest);
    }

    proof fn lemma_round_trip_tags(m: TopicDataView, version: i16, rest: Seq<u8>)
        requires
            Self::canonical(m, version),
            Self::spec_write_tags(m, version) is Ok,
        ensures
            Self::spec_read_tags(written(Self::spec_write_tags(m, version)) + rest, version) == Ok::<(Seq<(u32, Seq<u8>)>, Seq<u8>), Error>((m.unknown_tagged_fields, rest)),
    {
        reveal(TopicData::spec_read_tags);
        reveal(TopicData::spec_write_tags);
        lemma_sorted_by_tag_in_order(m.unknown_tagged_fields);
        lemma_tagged_fields_round_trip(m.unknown_tagged_fields, rest);
    }

    /// Reading back what writing `m` in `version` appends gives `m` again, and
    /// leaves what follows, for every canonical message whose write succeeds.
    #[verifier::rlimit(70)]
    #[verifier::spinoff_prover]
    pub proof fn lemma_round_trip(m: TopicDataView, version: i16, rest: Seq<u8>)
        requires
            Self::canonical(m, version),
            Self::spec_write(m, version) is Ok,
        ensures
            Self::spec_read(written(Self::spec_write(m, version)) + rest, version) == Ok::<(TopicDataView, Seq<u8>), Error>((m, rest)),
    {
        let b0 = written(Self::spec_write_topic_name(m, version));
        let b1 = written(Self::spec_write_partitions(m, version));
        let b2 = written(Self::spec_write_tags(m, version));
        let t3 = rest;
        let t2 = b2 + t3;
        let t1 = b1 + t2;
        let t0 = b0 + t1;
        let w0 = Self::spec_write_topic_name(m, version);
        let w1 = chain(w0, Self::spec_write_partitions(m, version));
        let w2 = chain(w1, Self::spec_write_tags(m, version));
        assert(Self::spec_write(m, version) == w2);
        assert(written(w2) + t3 =~= written(w1) + t2);
        assert(written(w1) + t2 =~= written(w0) + t1);
        Self::lemma_round_trip_topic_name(m, version, t1);
        Self::lemma_round_trip_partitions(m, version, t2);
        Self::lemma_round_trip_tags(m, version, t3);
    }

    /// The default message holds the default value of each field of the schema.
    pub proof fn lemma_default_values()
        ensures
            Self::default_view().topic_name.len() == 0,
            Self::default_view().partitions.len() == 0,
            Self::default_view().unknown_tagged_fields.len() == 0,
    {
    }

    /// Whether writing `m` in `version` succeeds, said over its parts: the
    /// version is one the schema covers, every field that the version cannot
    /// carry holds its default value, and every string, byte string, array and
    /// tagged field fits its length prefix.
    pub open spec fn writable(m: TopicDataView, version: i16) -> bool {
        &&& m.topic_name.len() <= 0x7fff
        &&& (m.partitions.len() <= i32::MAX && all_writable::<PartitionData>(m.partitions, version))
        &&& m.unknown_tagged_fields.len() <= u32::MAX && tags_fit(m.unknown_tagged_fields)
    }

    proof fn lemma_writable_topic_name(m: TopicDataView, version: i16)
        ensures
            Self::spec_write_topic_name(m, version) is Ok <==> m.topic_name.len() <= 0x7fff,
    {
        reveal(TopicData::spec_write_topic_name);
    }

    proof fn lemma_writable_partitions(m: TopicDataView, version: i16)
        ensures
            Self::spec_write_partitions(m, version) is Ok <==> (m.partitions.len() <= i32::MAX && all_writable::<PartitionData>(m.partitions, version)),
    {
        reveal(TopicData::spec_write_partitions);
        lemma_array_writable::<PartitionData>(m.partitions, version, true);
    }

    proof fn lemma_writable_tags(m: TopicDataView, version: i16)
        ensures
            Self::spec_write_tags(m, version) is Ok <==> m.unknown_tagged_fields.len() <= u32::MAX && tags_fit(m.unknown_tagged_fields),
    {
        reveal(TopicData::spec_write_tags);
        lemma_sorted_tags_fit(m.unknown_tagged_fields);
        lemma_tagged_fields_writable(sorted_by_tag(m.unknown_tagged_fields));
    }

    /// Writing `m` in `version` succeeds exactly when `m` is writable in it;
    /// so do `write` and `encoded_len`, whose results follow `spec_write`.
    #[verifier::rlimit(48)]
    pub proof fn lemma_writable(m: TopicDataView, version: i16)
        ensures
            Self::spec_write(m, version) is Ok <==> Self::writable(m, version),
    {
        Self::lemma_writable_topic_name(m, version);
        Self::lemma_writable_partitions(m, version);
        Self::lemma_writable_tags(m, version);
    }

    pub fn with_topic_name(self, value: KafkaString) -> (r: Self)
        ensures
            r@ == (TopicDataView { topic_name: value@, ..self@ }),
    {
        let mut r = self;
        r.topic_name = value;
        r
    }

    pub fn with_partitions(self, value: Vec<PartitionData>) -> (r: Self)
        ensures
            r@ == (TopicDataView { partitions: views(value@), ..self@ }),
    {
        let mut r = self;
        r.partitions = value;
        r
    }

    fn read_topic_name(buf: &mut Bytes, version: i16) -> (r: Result<KafkaString, Error>)
        ensures
            read_as(Self::spec_read_topic_name(bytes_seq(*old(buf)), version), *final(buf), r),
            took_front(*old(buf), *final(buf)),
    {
        proof {
            reveal(TopicData::spec_read_topic_name);
        }
        Ok(read_compact_string(buf)?)
    }

    fn read_partitions(buf: &mut Bytes, version: i16) -> (r: Result<Vec<PartitionData>, Error>)
        ensures
            read_vec_as(Self::spec_read_partitions(bytes_seq(*old(buf)), version), *final(buf), r),
            took_front(*old(buf), *final(buf)),
    {
        proof {
            reveal(TopicData::spec_read_partitions);
        }
        Ok(read_array::<PartitionData>(buf, version, true)?)
    }

    fn read_tags(buf: &mut Bytes, version: i16) -> (r: Result<Vec<RawTaggedField>, Error>)
        ensures
            read_vec_as(Self::spec_read_tags(bytes_seq(*old(buf)), version), *final(buf), r),
            took_front(*old(buf), *final(buf)),
    {
        proof {
            reveal(TopicData::spec_read_tags);
        }
        Ok(read_tagged_fields(buf)?)
    }

    pub fn read(buf: &mut Bytes, version: i16) -> (r: Result<Self, Error>)
        ensures
            read_as(Self::spec_read(bytes_seq(*old(buf)), version), *final(buf), r),
            took_front(*old(buf), *final(buf)),
    {
        let topic_name = Self::read_topic_name(buf, version)?;
        let partitions = Self::read_partitions(buf, version)?;
        let _unknown_tagged_fields = Self::read_tags(buf, version)?;
        Ok(TopicData {
                topic_name: topic_name,
                partitions: partitions,
                _unknown_tagged_fields: _unknown_tagged_fields,
        })
    }

    #[verifier::rlimit(60)]
    pub fn write(&self, buf: &mut BytesMut, version: i16) -> (r: Result<(), Error>)
        requires
            has_room(Self::spec_write(self@, version), *old(buf)),
        ensures
            wrote(Self::spec_write(self@, version), *old(buf), *final(buf), r),
    {
        let ghost m = self@;
        proof {
            reveal(TopicData::spec_write_topic_name);
            reveal(TopicData::spec_write_partitions);
            reveal(TopicData::spec_write_tags);
        }
        let ghost s0 = Self::spec_write_topic_name(m, version);
        let ghost w0 = s0;
        let ghost s1 = Self::spec_write_partitions(m, version);
        let ghost w1 = chain(w0, s1);
        let ghost s2 = Self::spec_write_tags(m, version);
        let ghost w2 = chain(w1, s2);
        assert(Self::spec_write(m, version) == w2);
        assert(written(w1).len() <= written(w2).len() && (w1 is Err ==> w2 == w1));
        assert(written(w0).len() <= written(w2).len() && (w0 is Err ==> w2 == w0));
        let ghost mid = bytes_mut_seq(*buf);
        proof {
            lemma_append_empty(mid);
        }
        let r0 = write_compact_string(buf, &self.topic_name);
        assert(bytes_mut_seq(*buf) == mid + written(s0));
        if r0.is_err() {
            return r0;
        }
        let ghost mid = bytes_mut_seq(*buf);
        proof {
            lemma_append_empty(mid);
        }
        let r1 = write_array::<PartitionData>(buf, &self.partitions, version, true);
        assert(bytes_mut_seq(*buf) == mid + written(s1));
        proof {
            lemma_step(bytes_mut_seq(*old(buf)), w0, s1);
        }
        if r1.is_err() {
            return r1;
        }
        let ghost mid = bytes_mut_seq(*buf);
        proof {
            lemma_append_empty(mid);
        }
        let r2 = write_tagged_fields(buf, &sort_by_tag(&self._unknown_tagged_fields));
        assert(bytes_mut_seq(*buf) == mid + written(s2));
        proof {
            lemma_step(bytes_mut_seq(*old(buf)), w1, s2);
        }
        if r2.is_err() {
            return r2;
        }
        Ok(())
    }

    #[verifier::rlimit(60)]
    pub fn encoded_len(&self, version: i16) -> (r: Result<usize, Error>)
        ensures
            r == len_result(Self::spec_write(self@, version)),
    {
        let ghost m = self@;
        proof {
            reveal(TopicData::spec_write_topic_name);
            reveal(TopicData::spec_write_partitions);
            reveal(TopicData::spec_write_tags);
        }
        let ghost s0 = Self::spec_write_topic_name(m, version);
        let ghost w0 = s0;
        let ghost s1 = Self::spec_write_partitions(m, version);
        let ghost w1 = chain(w0, s1);
        let ghost s2 = Self::spec_write_tags(m, version);
        let ghost w2 = chain(w1, s2);
        assert(Self::spec_write(m, version) == w2);
        assert(w1 is Err ==> w2 == w1);
        assert(w0 is Err ==> w2 == w0);
        let mut len: usize = 0;
        let l0 = compact_string_len(&self.topic_name);
        assert(l0 == len_result(s0));
        let n0 = match l0 {
            Ok(n) => n,
            Err(e) => {
                return Err(e);
            },
        };
        len = saturating_sum(len, n0);
        assert(w0 is Ok && len == saturate(written(w0).len() as int));
        let l1 = array_len::<PartitionData>(&self.partitions, version, true);
        assert(l1 == len_result(s1));
        let n1 = match l1 {
            Ok(n) => n,
            Err(e) => {
                return Err(e);
            },
        };
        proof {
            lemma_len_step(w0, s1, n1);
        }
        len = saturating_sum(len, n1);
        assert(w1 is Ok && len == saturate(written(w1).len() as int));
        let l2 = tagged_fields_len(&sort_by_tag(&self._unknown_tagged_fields));
        assert(l2 == len_result(s2));
        let n2 = match l2 {
            Ok(n) => n,
            Err(e) => {
                return Err(e);
            },
        };
        proof {
            lemma_len_step(w1, s2, n2);
        }
        len = saturating_sum(len, n2);
        assert(w2 is Ok && len == saturate(written(w2).len() as int));
        Ok(len)
    }
}

#[derive(Debug, PartialEq)]
pub struct PartitionData {
    /// The partition index.
    pub partition_index: i32,
    /// The partition error code.
    pub error_code: i16,
    /// The error message, or null if there was no error.
    pub error_message: Option<KafkaString>,
    /// The ID of the current leader or -1 if the leader is unknown.
    pub leader_id: i32,
    /// The latest known leader epoch.
    pub leader_epoch: i32,
    /// The high water mark.
    pub high_watermark: i64,
    /// The current voters of the partition.
    pub current_voters: Vec<ReplicaState>,
    /// The observers of the partition.
    pub observers: Vec<ReplicaState>,
    pub _unknown_tagged_fields: Vec<RawTaggedField>,
}

/// What a `PartitionData` holds, as the specification sees it.
#[verifier::ext_equal]
pub struct PartitionDataView {
    pub partition_index: i32,
    pub error_code: i16,
    pub error_message: Option<Seq<u8>>,
    pub leader_id: i32,
    pub leader_epoch: i32,
    pub high_watermark: i64,
    pub current_voters: Seq<ReplicaStateView>,
    pub observers: Seq<ReplicaStateView>,
    pub unknown_tagged_fields: Seq<(u32, Seq<u8>)>,
}

impl View for PartitionData {
    type V = PartitionDataView;

    open spec fn view(&self) -> PartitionDataView {
        PartitionDataView {
            partition_index: self.partition_index,
            error_code: self.error_code,
            error_message: opt_view(self.error_message),
            leader_id: self.leader_id,
            leader_epoch: self.leader_epoch,
            high_watermark: self.high_watermark,
            current_voters: views(self.current_voters@),
            observers: views(self.observers@),
            unknown_tagged_fields: views(self._unknown_tagged_fields@),
        }
    }
}

impl Clone for PartitionData {
    fn clone(&self) -> (r: Self)
        ensures
            r@ == self@,
    {
        let r = PartitionData {
            partition_index: self.partition_index,
            error_code: self.error_code,
            error_message: match &self.error_message {
                Some(x) => Some(x.clone()),
                None => None,
            },
            leader_id: self.leader_id,
            leader_epoch: self.leader_epoch,
            high_watermark: self.high_watermark,
            current_voters: clone_vec(&self.current_voters),
            observers: clone_vec(&self.observers),
            _unknown_tagged_fields: clone_vec(&self._unknown_tagged_fields),
        };
        assert(r@ =~= self@);
        r
    }
}

impl ViewClone for PartitionData {
    fn clone_view(&self) -> (r: Self) {
        self.clone()
    }
}

impl Default for PartitionData {
    fn default() -> (r: Self)
        ensures
            r@ == Self::default_view(),
    {
        let r = PartitionData {
            partition_index: 0_i32,
            error_code: 0_i16,
            error_message: None,
            leader_id: 0_i32,
            leader_epoch: 0_i32,
            high_watermark: 0_i64,
            current_voters: empty_vec(),
            observers: empty_vec(),
            _unknown_tagged_fields: empty_vec(),
        };
        assert(r@ =~= Self::default_view());
        r
    }
}

impl PartitionData {
    pub open spec fn default_view() -> PartitionDataView {
        PartitionDataView {
            partition_index: 0_i32,
            error_code: 0_i16,
            error_message: None,
            leader_id: 0_i32,
            leader_epoch: 0_i32,
            high_watermark: 0_i64,
            current_voters: Seq::empty(),
            observers: Seq::empty(),
            unknown_tagged_fields: Seq::empty(),
        }
    }

    /// The `partition_index` field, read from the front of `s`.
    #[verifier::opaque]
    pub open spec fn spec_read_partition_index(s: Seq<u8>, version: i16) -> ReadOutcome<i32> {
        spec_read_i32(s)
    }

    /// The `error_code` field, read from the front of `s`.
    #[verifier::opaque]
    pub open spec fn spec_read_error_code(s: Seq<u8>, version: i16) -> ReadOutcome<i16> {
        spec_read_i16(s)
    }

    /// The `error_message` field, read from the front of `s`.
    #[verifier::opaque]
    pub open spec fn spec_read_error_message(s: Seq<u8>, version: i16) -> ReadOutcome<Option<Seq<u8>>> {
        if version >= 2 {
            spec_read_compact_nullable_string(s)
        } else {
            Ok((None, s))
        }
    }

    /// The `leader_id` field, read from the front of `s`.
    #[verifier::opaque]
    pub open spec fn spec_read_leader_id(s: Seq<u8>, version: i16) -> ReadOutcome<i32> {
        spec_read_i32(s)
    }

    /// The `leader_epoch` field, read from the front of `s`.
    #[verifier::opaque]
    pub open spec fn spec_read_leader_epoch(s: Seq<u8>, version: i16) -> ReadOutcome<i32> {
        spec_read_i32(s)
    }

    /// The `high_watermark` field, read from the front of `s`.
    #[verifier::opaque]
    pub open spec fn spec_read_high_watermark(s: Seq<u8>, version: i16) -> ReadOutcome<i64> {
        spec_read_i64(s)
    }

    /// The `current_voters` field, read from the front of `s`.
    #[verifier::opaque]
    pub open spec fn spec_read_current_voters(s: Seq<u8>, version: i16) -> ReadOutcome<Seq<ReplicaStateView>> {
        spec_read_array::<ReplicaState>(s, version, true)
    }

    /// The `observers` field, read from the front of `s`.
    #[verifier::opaque]
    pub open spec fn spec_read_observers(s: Seq<u8>, version: i16) -> ReadOutcome<Seq<ReplicaStateView>> {
        spec_read_array::<ReplicaState>(s, version, true)
    }

    /// The tagged fields, read from the front of `s`.
    #[verifier::opaque]
    pub open spec fn spec_read_tags(s: Seq<u8>, version: i16) -> ReadOutcome<Seq<(u32, Seq<u8>)>> {
        spec_read_tagged_fields(s)
    }

    pub open spec fn spec_read(s: Seq<u8>, version: i16) -> ReadOutcome<PartitionDataView> {
        match (Self::spec_read_partition_index(s, version)) {
            Err(e) => Err(e),
            Ok((partition_index, s)) => match (Self::spec_read_error_code(s, version)) {
                Err(e) => Err(e),
                Ok((error_code, s)) => match (Self::spec_read_error_message(s, version)) {
                    Err(e) => Err(e),
                    Ok((error_message, s)) => match (Self::spec_read_leader_id(s, version)) {
                        Err(e) => Err(e),
                        Ok((leader_id, s)) => match (Self::spec_read_leader_epoch(s, version)) {
                            Err(e) => Err(e),
                            Ok((leader_epoch, s)) => match (Self::spec_read_high_watermark(s, version)) {
                                Err(e) => Err(e),
                                Ok((high_watermark, s)) => match (Self::spec_read_current_voters(s, version)) {
                                    Err(e) => Err(e),
                                    Ok((current_voters, s)) => match (Self::spec_read_observers(s, version)) {
                                        Err(e) => Err(e),
                                        Ok((observers, s)) => match (Self::spec_read_tags(s, version)) {
                                            Err(e) => Err(e),
                                            Ok((unknown_tagged_fields, s)) => Ok((PartitionDataView {
                                                        partition_index: partition_index,
                                                        error_code: error_code,
                                                        error_message: error_message,
                                                        leader_id: leader_id,
                                                        leader_epoch: leader_epoch,
                                                        high_watermark: high_watermark,
                                                        current_voters: current_voters,
                                                        observers: observers,
                                                        unknown_tagged_fields: unknown_tagged_fields,
                                                    }, s)),
                                        },
                                    },
                                },
                            },
                        },
                    },
                },
            },
        }
    }

    /// What writing the `partition_index` field of `m` appends.
    #[verifier::opaque]
    pub open spec fn spec_write_partition_index(m: PartitionDataView, version: i16) -> WriteOutcome {
        spec_write_i32(m.partition_index)
    }

    /// What writing the `error_code` field of `m` appends.
    #[verifier::opaque]
    pub open spec fn spec_write_error_code(m: PartitionDataView, version: i16) -> WriteOutcome {
        spec_write_i16(m.error_code)
    }

    /// What writing the `error_message` field of `m` appends.
    #[verifier::opaque]
    pub open spec fn spec_write_error_message(m: PartitionDataView, version: i16) -> WriteOutcome {
        if version >= 2 {
            spec_write_compact_nullable_string(m.error_message)
        } else {
            if m.error_message is Some {
                fail(Error::UnsupportedFieldVersion(UnsupportedFieldVersion { api_key: 55, field: "error_message", version }))
            } else {
                emit(Seq::empty())
            }
        }
    }

    /// What writing the `leader_id` field of `m` appends.
    #[verifier::opaque]
    pub open spec fn spec_write_leader_id(m: PartitionDataView, version: i16) -> WriteOutcome {
        spec_write_i32(m.leader_id)
    }

    /// What writing the `leader_epoch` field of `m` appends.
    #[verifier::opaque]
    pub open spec fn spec_write_leader_epoch(m: PartitionDataView, version: i16) -> WriteOutcome {
        spec_write_i32(m.leader_epoch)
    }

    /// What writing the `high_watermark` field of `m` appends.
    #[verifier::opaque]
    pub open spec fn spec_write_high_watermark(m: PartitionDataView, version: i16) -> WriteOutcome {
        spec_write_i64(m.high_watermark)
    }

    /// What writing the `current_voters` field of `m` appends.
    #[verifier::opaque]
    pub open spec fn spec_write_current_voters(m: PartitionDataView, version: i16) -> WriteOutcome {
        spec_write_array::<ReplicaState>(m.current_voters, version, true)
    }

    /// What writing the `observers` field of `m` appends.
    #[verifier::opaque]
    pub open spec fn spec_write_observers(m: PartitionDataView, version: i16) -> WriteOutcome {
        spec_write_array::<ReplicaState>(m.observers, version, true)
    }

    /// What writing the tagged fields of `m` appends.
    #[verifier::opaque]
    pub open spec fn spec_write_tags(m: PartitionDataView, version: i16) -> WriteOutcome {
        spec_write_tagged_fields(sorted_by_tag(m.unknown_tagged_fields))
    }

    pub open spec fn spec_write(m: PartitionDataView, version: i16) -> WriteOutcome {
        chain(
            chain(
                chain(
                    chain(
                        chain(
                            chain(
                                chain(
                                    chain(
                                        Self::spec_write_partition_index(m, version),
                                        Self::spec_write_error_code(m, version),
                                    ),
                                    Self::spec_write_error_message(m, version),
                                ),
                                Self::spec_write_leader_id(m, version),
                            ),
                            Self::spec_write_leader_epoch(m, version),
                        ),
                        Self::spec_write_high_watermark(m, version),
                    ),
                    Self::spec_write_current_voters(m, version),
                ),
                Self::spec_write_observers(m, version),
            ),
            Self::spec_write_tags(m, version),
        )
    }

    /// Whether reading back what writing `m` in `version` appends gives `m`:
    /// fields that the version does not carry hold their default values, and
    /// tagged fields come in the order in which they are written.
    pub open spec fn canonical(m: PartitionDataView, version: i16) -> bool {
        &&& all_canonical::<ReplicaState>(m.current_voters, version)
        &&& all_canonical::<ReplicaState>(m.observers, version)
        &&& tags_in_order(m.unknown_tagged_fields)
    }

    proof fn lemma_round_trip_partition_index(m: PartitionDataView, version: i16, rest: Seq<u8>)
        requires
            Self::canonical(m, version),
            Self::spec_write_partition_index(m, version) is Ok,
        ensures
            Self::spec_read_partition_index(written(Self::spec_write_partition_index(m, version)) + rest, version) == Ok::<(i32, Seq<u8>), Error>((m.partition_index, rest)),
    {
        reveal(PartitionData::spec_read_partition_index);
        reveal(PartitionData::spec_write_partition_index);
        lemma_i32_roundtrip(m.partition_index, rest);
    }

    proof fn lemma_round_trip_error_code(m: PartitionDataView, version: i16, rest: Seq<u8>)
        requires
            Self::canonical(m, version),
            Self::spec_write_error_code(m, version) is Ok,
        ensures
            Self::spec_read_error_code(written(Self::spec_write_error_code(m, version)) + rest, version) == Ok::<(i16, Seq<u8>), Error>((m.error_code, rest)),
    {
        reveal(PartitionData::spec_read_error_code);
        reveal(PartitionData::spec_write_error_code);
        lemma_i16_roundtrip(m.error_code, rest);
    }

    proof fn lemma_round_trip_error_message(m: PartitionDataView, version: i16, rest: Seq<u8>)
        requires
            Self::canonical(m, version),
            Self::spec_write_error_message(m, version) is Ok,
        ensures
            Self::spec_read_error_message(written(Self::spec_write_error_message(m, version)) + rest, version) == Ok::<(Option<Seq<u8>>, Seq<u8>), Error>((m.error_message, rest)),
    {
        reveal(PartitionData::spec_read_error_message);
        reveal(PartitionData::spec_write_error_message);
        if version >= 2 {
            lemma_compact_nullable_string_round_trip(m.error_message, rest);
        } else {
            assert(Seq::<u8>::empty() + rest =~= rest);
        }
    }

    proof fn lemma_round_trip_leader_id(m: PartitionDataView, version: i16, rest: Seq<u8>)
        requires
            Self::canonical(m, version),
            Self::spec_write_leader_id(m, version) is Ok,
        ensures
            Self::spec_read_leader_id(written(Self::spec_write_leader_id(m, version)) + rest, version) == Ok::<(i32, Seq<u8>), Error>((m.leader_id, rest)),
    {
        reveal(PartitionData::spec_read_leader_id);
        reveal(PartitionData::spec_write_leader_id);
        lemma_i32_roundtrip(m.leader_id, rest);
    }

    proof fn lemma_round_trip_leader_epoch(m: PartitionDataView, version: i16, rest: Seq<u8>)
        requires
            Self::canonical(m, version),
            Self::spec_write_leader_epoch(m, version) is Ok,
        ensures
            Self::spec_read_leader_epoch(written(Self::spec_write_leader_epoch(m, version)) + rest, version) == Ok::<(i32, Seq<u8>), Error>((m.leader_epoch, rest)),
    {
        reveal(PartitionData::spec_read_leader_epoch);
        reveal(PartitionData::spec_write_leader_epoch);
        lemma_i32_roundtrip(m.leader_epoch, rest);
    }

    proof fn lemma_round_trip_high_watermark(m: PartitionDataView, version: i16, rest: Seq<u8>)
        requires
            Self::canonical(m, version),
            Self::spec_write_high_watermark(m, version) is Ok,
        ensures
            Self::spec_read_high_watermark(written(Self::spec_write_high_watermark(m, version)) + rest, version) == Ok::<(i64, Seq<u8>), Error>((m.high_watermark, rest)),
    {
        reveal(PartitionData::spec_read_high_watermark);
        reveal(PartitionData::spec_write_high_watermark);
        lemma_i64_roundtrip(m.high_watermark, rest);
    }

    proof fn lemma_round_trip_current_voters(m: PartitionDataView, version: i16, rest: Seq<u8>)
        requires
            Self::canonical(m, version),
            Self::spec_write_current_voters(m, version) is Ok,
        ensures
            Self::spec_read_current_voters(written(Self::spec_write_current_voters(m, version)) + rest, version) == Ok::<(Seq<ReplicaStateView>, Seq<u8>), Error>((m.current_voters, rest)),
    {
        reveal(PartitionData::spec_read_current_voters);
        reveal(PartitionData::spec_write_current_voters);
        lemma_array_round_trip::<ReplicaState>(m.current_voters, version, true, rest);
    }

    proof fn lemma_round_trip_observers(m: PartitionDataView, version: i16, rest: Seq<u8>)
        requires
            Self::canonical(m, version),
            Self::spec_write_observers(m, version) is Ok,
        ensures
            Self::spec_read_observers(written(Self::spec_write_observers(m, version)) + rest, version) == Ok::<(Seq<ReplicaStateView>, Seq<u8>), Error>((m.observers, rest)),
    {
        reveal(PartitionData::spec_read_observers);
        reveal(PartitionData::spec_write_observers);
        lemma_array_round_trip::<ReplicaState>(m.observers, version, true, rest);
    }

    proof fn lemma_round_trip_tags(m: PartitionDataView, version: i16, rest: Seq<u8>)
        requires
            Self::canonical(m, version),
            Self::spec_write_tags(m, version) is Ok,
        ensures
            Self::spec_read_tags(written(Self::spec_write_tags(m, version)) + rest, version) == Ok::<(Seq<(u32, Seq<u8>)>, Seq<u8>), Error>((m.unknown_tagged_fields, rest)),
    {
        reveal(PartitionData::spec_read_tags);
        reveal(PartitionData::spec_write_tags);
        lemma_sorted_by_tag_in_order(m.unknown_tagged_fields);
        lemma_tagged_fields_round_trip(m.unknown_tagged_fields, rest);
    }

    /// Reading back what writing `m` in `version` appends gives `m` again, and
    /// leaves what follows, for every canonical message whose write succeeds.
    #[verifier::rlimit(100)]
    #[verifier::spinoff_prover]
    pub proof fn lemma_round_trip(m: PartitionDataView, version: i16, rest: Seq<u8>)
        requires
            Self::canonical(m, version),
            Self::spec_write(m, version) is Ok,
        ensures
            Self::spec_read(written(Self::spec_write(m, version)) + rest, version) == Ok::<(PartitionDataView, Seq<u8>), Error>((m, rest)),
    {
        let b0 = written(Self::spec_write_partition_index(m, version));
        let b1 = written(Self::spec_write_error_code(m, version));
        let b2 = written(Self::spec_write_error_message(m, version));
        let b3 = written(Self::spec_write_leader_id(m, version));
        let b4 = written(Self::spec_write_leader_epoch(m, version));
        let b5 = written(Self::spec_write_high_watermark(m, version));
        let b6 = written(Self::spec_write_current_voters(m, version));
        let b7 = written(Self::spec_write_observers(m, version));
        let b8 = written(Self::spec_write_tags(m, version));
        let t9 = rest;
        let t8 = b8 + t9;
        let t7 = b7 + t8;
        let t6 = b6 + t7;
        let t5 = b5 + t6;
        let t4 = b4 + t5;
        let t3 = b3 + t4;
        let t2 = b2 + t3;
        let t1 = b1 + t2;
        let t0 = b0 + t1;
        let w0 = Self::spec_write_partition_index(m, version);
        let w1 = chain(w0, Self::spec_write_error_code(m, version));
        let w2 = chain(w1, Self::spec_write_error_message(m, version));
        let w3 = chain(w2, Self::spec_write_leader_id(m, version));
        let w4 = chain(w3, Self::spec_write_leader_epoch(m, version));
        let w5 = chain(w4, Self::spec_write_high_watermark(m, version));
        let w6 = chain(w5, Self::spec_write_current_voters(m, version));
        let w7 = chain(w6, Self::spec_write_observers(m, version));
        let w8 = chain(w7, Self::spec_write_tags(m, version));
        assert(Self::spec_write(m, version) == w8);
        assert(written(w8) + t9 =~= written(w7) + t8);
        assert(written(w7) + t8 =~= written(w6) + t7);
        assert(written(w6) + t7 =~= written(w5) + t6);
        assert(written(w5) + t6 =~= written(w4) + t5);
        assert(written(w4) + t5 =~= written(w3) + t4);
        assert(written(w3) + t4 =~= written(w2) + t3);
        assert(written(w2) + t3 =~= written(w1) + t2);
        assert(written(w1) + t2 =~= written(w0) + t1);
        Self::lemma_round_trip_partition_index(m, version, t1);
        Self::lemma_round_trip_error_code(m, version, t2);
        Self::lemma_round_trip_error_message(m, version, t3);
        Self::lemma_round_trip_leader_id(m, version, t4);
        Self::lemma_round_trip_leader_epoch(m, version, t5);
        Self::lemma_round_trip_high_watermark(m, version, t6);
        Self::lemma_round_trip_current_voters(m, version, t7);
        Self::lemma_round_trip_observers(m, version, t8);
        Self::lemma_round_trip_tags(m, version, t9);
    }

    /// The default message holds the default value of each field of the schema.
    pub proof fn lemma_default_values()
        ensures
            Self::default_view().partition_index == (0_i32),
            Self::default_view().error_code == (0_i16),
            (Self::default_view().error_message is None),
            Self::default_view().leader_id == (0_i32),
            Self::default_view().leader_epoch == (0_i32),
            Self::default_view().high_watermark == (0_i64),
            Self::default_view().current_voters.len() == 0,
            Self::default_view().observers.len() == 0,
            Self::default_view().unknown_tagged_fields.len() == 0,
    {
    }

    /// Each integer, boolean and identifier field is written as its standard
    /// big-endian bytes (a boolean as `1` or `0`) in the versions that carry
    /// it, and as nothing in the others; reading it takes those bytes back (any
    /// byte other than `0` reads as `true`), or gives its default value.
    pub proof fn lemma_field_encodings(m: PartitionDataView, s: Seq<u8>, version: i16)
        ensures
            true ==> Self::spec_write_partition_index(m, version) == Ok::<Seq<u8>, (Error, Seq<u8>)>(u32_bytes(m.partition_index as u32)),
            true ==> Self::spec_write_error_code(m, version) == Ok::<Seq<u8>, (Error, Seq<u8>)>(u16_bytes(m.error_code as u16)),
            true ==> Self::spec_write_leader_id(m, version) == Ok::<Seq<u8>, (Error, Seq<u8>)>(u32_bytes(m.leader_id as u32)),
            true ==> Self::spec_write_leader_epoch(m, version) == Ok::<Seq<u8>, (Error, Seq<u8>)>(u32_bytes(m.leader_epoch as u32)),
            true ==> Self::spec_write_high_watermark(m, version) == Ok::<Seq<u8>, (Error, Seq<u8>)>(u64_bytes(m.high_watermark as u64)),
            true ==> Self::spec_read_partition_index(s, version) == spec_read_i32(s),
            true ==> Self::spec_read_error_code(s, version) == spec_read_i16(s),
            true ==> Self::spec_read_leader_id(s, version) == spec_read_i32(s),
            true ==> Self::spec_read_leader_epoch(s, version) == spec_read_i32(s),
            true ==> Self::spec_read_high_watermark(s, version) == spec_read_i64(s),
    {
        reveal(PartitionData::spec_write_partition_index);
        reveal(PartitionData::spec_read_partition_index);
        reveal(PartitionData::spec_write_error_code);
        reveal(PartitionData::spec_read_error_code);
        reveal(PartitionData::spec_write_leader_id);
        reveal(PartitionData::spec_read_leader_id);
        reveal(PartitionData::spec_write_leader_epoch);
        reveal(PartitionData::spec_read_leader_epoch);
        reveal(PartitionData::spec_write_high_watermark);
        reveal(PartitionData::spec_read_high_watermark);
    }

    /// Whether writing `m` in `version` succeeds, said over its parts: the
    /// version is one the schema covers, every field that the version cannot
    /// carry holds its default value, and every string, byte string, array and
    /// tagged field fits its length prefix.
    pub open spec fn writable(m: PartitionDataView, version: i16) -> bool {
        &&& (if version >= 2 {
                (m.error_message matches Some(b) ==> b.len() <= 0x7fff)
            } else {
                !(m.error_message is Some)
        })
        &&& (m.current_voters.len() <= i32::MAX && all_writable::<ReplicaState>(m.current_voters, version))
        &&& (m.observers.len() <= i32::MAX && all_writable::<ReplicaState>(m.observers, version))
        &&& m.unknown_tagged_fields.len() <= u32::MAX && tags_fit(m.unknown_tagged_fields)
    }

    proof fn lemma_writable_partition_index(m: PartitionDataView, version: i16)
        ensures
            Self::spec_write_partition_index(m, version) is Ok <==> true,
    {
        reveal(PartitionData::spec_write_partition_index);
    }

    proof fn lemma_writable_error_code(m: PartitionDataView, version: i16)
        ensures
            Self::spec_write_error_code(m, version) is Ok <==> true,
    {
        reveal(PartitionData::spec_write_error_code);
    }

    proof fn lemma_writable_error_message(m: PartitionDataView, version: i16)
        ensures
            Self::spec_write_error_message(m, version) is Ok <==> (if version >= 2 { (m.error_message matches Some(b) ==> b.len() <= 0x7fff) } else { !(m.error_message is Some) }),
    {
        reveal(PartitionData::spec_write_error_message);
    }

    proof fn lemma_writable_leader_id(m: PartitionDataView, version: i16)
        ensures
            Self::spec_write_leader_id(m, version) is Ok <==> true,
    {
        reveal(PartitionData::spec_write_leader_id);
    }

    proof fn lemma_writable_leader_epoch(m: PartitionDataView, version: i16)
        ensures
            Self::spec_write_leader_epoch(m, version) is Ok <==> true,
    {
        reveal(PartitionData::spec_write_leader_epoch);
    }

    proof fn lemma_writable_high_watermark(m: PartitionDataView, version: i16)
        ensures
            Self::spec_write_high_watermark(m, version) is Ok <==> true,
    {
        reveal(PartitionData::spec_write_high_watermark);
    }

    proof fn lemma_writable_current_voters(m: PartitionDataView, version: i16)
        ensures
            Self::spec_write_current_voters(m, version) is Ok <==> (m.current_voters.len() <= i32::MAX && all_writable::<ReplicaState>(m.current_voters, version)),
    {
        reveal(PartitionData::spec_write_current_voters);
        lemma_array_writable::<ReplicaState>(m.current_voters, version, true);
    }

    proof fn lemma_writable_observers(m: PartitionDataView, version: i16)
        ensures
            Self::spec_write_observers(m, version) is Ok <==> (m.observers.len() <= i32::MAX && all_writable::<ReplicaState>(m.observers, version)),
    {
        reveal(PartitionData::spec_write_observers);
        lemma_array_writable::<ReplicaState>(m.observers, version, true);
    }

    proof fn lemma_writable_tags(m: PartitionDataView, version: i16)
        ensures
            Self::spec_write_tags(m, version) is Ok <==> m.unknown_tagged_fields.len() <= u32::MAX && tags_fit(m.unknown_tagged_fields),
    {
        reveal(PartitionData::spec_write_tags);
        lemma_sorted_tags_fit(m.unknown_tagged_fields);
        lemma_tagged_fields_writable(sorted_by_tag(m.unknown_tagged_fields));
    }

    /// Writing `m` in `version` succeeds exactly when `m` is writable in it;
    /// so do `write` and `encoded_len`, whose results follow `spec_write`.
    #[verifier::rlimit(84)]
    pub proof fn lemma_writable(m: PartitionDataView, version: i16)
        ensures
            Self::spec_write(m, version) is Ok <==> Self::writable(m, version),
    {
        Self::lemma_writable_partition_index(m, version);
        Self::lemma_writable_error_code(m, version);
        Self::lemma_writable_error_message(m, version);
        Self::lemma_writable_leader_id(m, version);
        Self::lemma_writable_leader_epoch(m, version);
        Self::lemma_writable_high_watermark(m, version);
        Self::lemma_writable_current_voters(m, version);
        Self::lemma_writable_observers(m, version);
        Self::lemma_writable_tags(m, version);
    }

    pub fn with_partition_index(self, value: i32) -> (r: Self)
        ensures
            r@ == (PartitionDataView { partition_index: value, ..self@ }),
    {
        let mut r = self;
        r.partition_index = value;
        r
    }

    pub fn with_error_code(self, value: i16) -> (r: Self)
        ensures
            r@ == (PartitionDataView { error_code: value, ..self@ }),
    {
        let mut r = self;
        r.error_code = value;
        r
    }

    pub fn with_error_message(self, value: Option<KafkaString>) -> (r: Self)
        ensures
            r@ == (PartitionDataView { error_message: opt_view(value), ..self@ }),
    {
        let mut r = self;
        r.error_message = value;
        r
    }

    pub fn with_leader_id(self, value: i32) -> (r: Self)
        ensures
            r@ == (PartitionDataView { leader_id: value, ..self@ }),
    {
        let mut r = self;
        r.leader_id = value;
        r
    }

    pub fn with_leader_epoch(self, value: i32) -> (r: Self)
        ensures
            r@ == (PartitionDataView { leader_epoch: value, ..self@ }),
    {
        let mut r = self;
        r.leader_epoch = value;
        r
    }

    pub fn with_high_watermark(self, value: i64) -> (r: Self)
        ensures
            r@ == (PartitionDataView { high_watermark: value, ..self@ }),
    {
        let mut r = self;
        r.high_watermark = value;
        r
    }

    pub fn with_current_voters(self, value: Vec<ReplicaState>) -> (r: Self)
        ensures
            r@ == (PartitionDataView { current_voters: views(value@), ..self@ }),
    {
        let mut r = self;
        r.current_voters = value;
        r
    }

    pub fn with_observers(self, value: Vec<ReplicaState>) -> (r: Self)
        ensures
            r@ == (PartitionDataView { observers: views(value@), ..self@ }),
    {
        let mut r = self;
        r.observers = value;
        r
    }

    fn read_partition_index(buf: &mut Bytes, version: i16) -> (r: Result<i32, Error>)
        ensures
            read_as(Self::spec_read_partition_index(bytes_seq(*old(buf)), version), *final(buf), r),
            took_front(*old(buf), *final(buf)),
    {
        proof {
            reveal(PartitionData::spec_read_partition_index);
        }
        Ok(read_i32(buf)?)
    }

    fn read_error_code(buf: &mut Bytes, version: i16) -> (r: Result<i16, Error>)
        ensures
            read_as(Self::spec_read_error_code(bytes_seq(*old(buf)), version), *final(buf), r),
            took_front(*old(buf), *final(buf)),
    {
        proof {
            reveal(PartitionData::spec_read_error_code);
        }
        Ok(read_i16(buf)?)
    }

    fn read_error_message(buf: &mut Bytes, version: i16) -> (r: Result<Option<KafkaString>, Error>)
        ensures
            read_opt_as(Self::spec_read_error_message(bytes_seq(*old(buf)), version), *final(buf), r),
            took_front(*old(buf), *final(buf)),
    {
        proof {
            reveal(PartitionData::spec_read_error_message);
        }
        Ok(if version >= 2 {
                read_compact_nullable_string(buf)?
            } else {
                None
        })
    }

    fn read_leader_id(buf: &mut Bytes, version: i16) -> (r: Result<i32, Error>)
        ensures
            read_as(Self::spec_read_leader_id(bytes_seq(*old(buf)), version), *final(buf), r),
            took_front(*old(buf), *final(buf)),
    {
        proof {
            reveal(PartitionData::spec_read_leader_id);
        }
        Ok(read_i32(buf)?)
    }

    fn read_leader_epoch(buf: &mut Bytes, version: i16) -> (r: Result<i32, Error>)
        ensures
            read_as(Self::spec_read_leader_epoch(bytes_seq(*old(buf)), version), *final(buf), r),
            took_front(*old(buf), *final(buf)),
    {
        proof {
            reveal(PartitionData::spec_read_leader_epoch);
        }
        Ok(read_i32(buf)?)
    }

    fn read_high_watermark(buf: &mut Bytes, version: i16) -> (r: Result<i64, Error>)
        ensures
            read_as(Self::spec_read_high_watermark(bytes_seq(*old(buf)), version), *final(buf), r),
            took_front(*old(buf), *final(buf)),
    {
        proof {
            reveal(PartitionData::spec_read_high_watermark);
        }
        Ok(read_i64(buf)?)
    }

    fn read_current_voters(buf: &mut Bytes, version: i16) -> (r: Result<Vec<ReplicaState>, Error>)
        ensures
            read_vec_as(Self::spec_read_current_voters(bytes_seq(*old(buf)), version), *final(buf), r),
            took_front(*old(buf), *final(buf)),
    {
        proof {
            reveal(PartitionData::spec_read_current_voters);
        }
        Ok(read_array::<ReplicaState>(buf, version, true)?)
    }

    fn read_observers(buf: &mut Bytes, version: i16) -> (r: Result<Vec<ReplicaState>, Error>)
        ensures
            read_vec_as(Self::spec_read_observers(bytes_seq(*old(buf)), version), *final(buf), r),
            took_front(*old(buf), *final(buf)),
    {
        proof {
            reveal(PartitionData::spec_read_observers);
        }
        Ok(read_array::<ReplicaState>(buf, version, true)?)
    }

    fn read_tags(buf: &mut Bytes, version: i16) -> (r: Result<Vec<RawTaggedField>, Error>)
        ensures
            read_vec_as(Self::spec_read_tags(bytes_seq(*old(buf)), version), *final(buf), r),
            took_front(*old(buf), *final(buf)),
    {
        proof {
            reveal(PartitionData::spec_read_tags);
        }
        Ok(read_tagged_fields(buf)?)
    }

    #[verifier::rlimit(74)]
    #[verifier::spinoff_prover]
    pub fn read(buf: &mut Bytes, version: i16) -> (r: Result<Self, Error>)
        ensures
            read_as(Self::spec_read(bytes_seq(*old(buf)), version), *final(buf), r),
            took_front(*old(buf), *final(buf)),
    {
        let partition_index = Self::read_partition_index(buf, version)?;
        let error_code = Self::read_error_code(buf, version)?;
        let error_message = Self::read_error_message(buf, version)?;
        let leader_id = Self::read_leader_id(buf, version)?;
        let leader_epoch = Self::read_leader_epoch(buf, version)?;
        let high_watermark = Self::read_high_watermark(buf, version)?;
        let current_voters = Self::read_current_voters(buf, version)?;
        let observers = Self::read_observers(buf, version)?;
        let _unknown_tagged_fields = Self::read_tags(buf, version)?;
        Ok(PartitionData {
                partition_index: partition_index,
                error_code: error_code,
                error_message: error_message,
                leader_id: leader_id,
                leader_epoch: leader_epoch,
                high_watermark: high_watermark,
                current_voters: current_voters,
                observers: observers,
                _unknown_tagged_fields: _unknown_tagged_fields,
        })
    }

    #[verifier::rlimit(100)]
    #[verifier::spinoff_prover]
    pub fn write(&self, buf: &mut BytesMut, version: i16) -> (r: Result<(), Error>)
        requires
            has_room(Self::spec_write(self@, version), *old(buf)),
        ensures
            wrote(Self::spec_write(self@, version), *old(buf), *final(buf), r),
    {
        let ghost m = self@;
        proof {
            reveal(PartitionData::spec_write_partition_index);
            reveal(PartitionData::spec_write_error_code);
            reveal(PartitionData::spec_write_error_message);
            reveal(PartitionData::spec_write_leader_id);
            reveal(PartitionData::spec_write_leader_epoch);
            reveal(PartitionData::spec_write_high_watermark);
            reveal(PartitionData::spec_write_current_voters);
            reveal(PartitionData::spec_write_observers);
            reveal(PartitionData::spec_write_tags);
        }
        let ghost s0 = Self::spec_write_partition_index(m, version);
        let ghost w0 = s0;
        let ghost s1 = Self::spec_write_error_code(m, version);
        let ghost w1 = chain(w0, s1);
        let ghost s2 = Self::spec_write_error_message(m, version);
        let ghost w2 = chain(w1, s2);
        let ghost s3 = Self::spec_write_leader_id(m, version);
        let ghost w3 = chain(w2, s3);
        let ghost s4 = Self::spec_write_leader_epoch(m, version);
        let ghost w4 = chain(w3, s4);
        let ghost s5 = Self::spec_write_high_watermark(m, version);
        let ghost w5 = chain(w4, s5);
        let ghost s6 = Self::spec_write_current_voters(m, version);
        let ghost w6 = chain(w5, s6);
        let ghost s7 = Self::spec_write_observers(m, version);
        let ghost w7 = chain(w6, s7);
        let ghost s8 = Self::spec_write_tags(m, version);
        let ghost w8 = chain(w7, s8);
        assert(Self::spec_write(m, version) == w8);
        assert(written(w7).len() <= written(w8).len() && (w7 is Err ==> w8 == w7));
        assert(written(w6).len() <= written(w8).len() && (w6 is Err ==> w8 == w6));
        assert(written(w5).len() <= written(w8).len() && (w5 is Err ==> w8 == w5));
        assert(written(w4).len() <= written(w8).len() && (w4 is Err ==> w8 == w4));
        assert(written(w3).len() <= written(w8).len() && (w3 is Err ==> w8 == w3));
        assert(written(w2).len() <= written(w8).len() && (w2 is Err ==> w8 == w2));
        assert(written(w1).len() <= written(w8).len() && (w1 is Err ==> w8 == w1));
        assert(written(w0).len() <= written(w8).len() && (w0 is Err ==> w8 == w0));
        let ghost mid = bytes_mut_seq(*buf);
        proof {
            lemma_append_empty(mid);
        }
        let r0 = {
            write_i32(buf, self.partition_index);
            Ok(())
        };
        assert(bytes_mut_seq(*buf) == mid + written(s0));
        if r0.is_err() {
            return r0;
        }
        let ghost mid = bytes_mut_seq(*buf);
        proof {
            lemma_append_empty(mid);
        }
        let r1 = {
            write_i16(buf, self.error_code);
            Ok(())
        };
        assert(bytes_mut_seq(*buf) == mid + written(s1));
        proof {
            lemma_step(bytes_mut_seq(*old(buf)), w0, s1);
        }
        if r1.is_err() {
            return r1;
        }
        let ghost mid = bytes_mut_seq(*buf);
        proof {
            lemma_append_empty(mid);
        }
        let r2 = if version >= 2 {
            write_compact_nullable_string(buf, &self.error_message)
        } else {
            if self.error_message.is_some() {
                Err(Error::UnsupportedFieldVersion(UnsupportedFieldVersion::new(55, "error_message", version)))
            } else {
                Ok(())
            }
        };
        assert(bytes_mut_seq(*buf) == mid + written(s2));
        proof {
            lemma_step(bytes_mut_seq(*old(buf)), w1, s2);
        }
        if r2.is_err() {
            return r2;
        }
        let ghost mid = bytes_mut_seq(*buf);
        proof {
            lemma_append_empty(mid);
        }
        let r3 = {
            write_i32(buf, self.leader_id);
            Ok(())
        };
        assert(bytes_mut_seq(*buf) == mid + written(s3));
        proof {
            lemma_step(bytes_mut_seq(*old(buf)), w2, s3);
        }
        if r3.is_err() {
            return r3;
        }
        let ghost mid = bytes_mut_seq(*buf);
        proof {
            lemma_append_empty(mid);
        }
        let r4 = {
            write_i32(buf, self.leader_epoch);
            Ok(())
        };
        assert(bytes_mut_seq(*buf) == mid + written(s4));
        proof {
            lemma_step(bytes_mut_seq(*old(buf)), w3, s4);
        }
        if r4.is_err() {
            return r4;
        }
        let ghost mid = bytes_mut_seq(*buf);
        proof {
            lemma_append_empty(mid);
        }
        let r5 = {
            write_i64(buf, self.high_watermark);
            Ok(())
        };
        assert(bytes_mut_seq(*buf) == mid + written(s5));
        proof {
            lemma_step(bytes_mut_seq(*old(buf)), w4, s5);
        }
        if r5.is_err() {
            return r5;
        }
        let ghost mid = bytes_mut_seq(*buf);
        proof {
            lemma_append_empty(mid);
        }
        let r6 = write_array::<ReplicaState>(buf, &self.current_voters, version, true);
        assert(bytes_mut_seq(*buf) == mid + written(s6));
        proof {
            lemma_step(bytes_mut_seq(*old(buf)), w5, s6);
        }
        if r6.is_err() {
            return r6;
        }
        let ghost mid = bytes_mut_seq(*buf);
        proof {
            lemma_append_empty(mid);
        }
        let r7 = write_array::<ReplicaState>(buf, &self.observers, version, true);
        assert(bytes_mut_seq(*buf) == mid + written(s7));
        proof {
            lemma_step(bytes_mut_seq(*old(buf)), w6, s7);
        }
        if r7.is_err() {
            return r7;
        }
        let ghost mid = bytes_mut_seq(*buf);
        proof {
            lemma_append_empty(mid);
        }
        let r8 = write_tagged_fields(buf, &sort_by_tag(&self._unknown_tagged_fields));
        assert(bytes_mut_seq(*buf) == mid + written(s8));
        proof {
            lemma_step(bytes_mut_seq(*old(buf)), w7, s8);
        }
        if r8.is_err() {
            return r8;
        }
        Ok(())
    }

    #[verifier::rlimit(100)]
    #[verifier::spinoff_prover]
    pub fn encoded_len(&self, version: i16) -> (r: Result<usize, Error>)
        ensures
            r == len_result(Self::spec_write(self@, version)),
    {
        let ghost m = self@;
        proof {
            reveal(PartitionData::spec_write_partition_index);
            reveal(PartitionData::spec_write_error_code);
            reveal(PartitionData::spec_write_error_message);
            reveal(PartitionData::spec_write_leader_id);
            reveal(PartitionData::spec_write_leader_epoch);
            reveal(PartitionData::spec_write_high_watermark);
            reveal(PartitionData::spec_write_current_voters);
            reveal(PartitionData::spec_write_observers);
            reveal(PartitionData::spec_write_tags);
        }
        let ghost s0 = Self::spec_write_partition_index(m, version);
        let ghost w0 = s0;
        let ghost s1 = Self::spec_write_error_code(m, version);
        let ghost w1 = chain(w0, s1);
        let ghost s2 = Self::spec_write_error_message(m, version);
        let ghost w2 = chain(w1, s2);
        let ghost s3 = Self::spec_write_leader_id(m, version);
        let ghost w3 = chain(w2, s3);
        let ghost s4 = Self::spec_write_leader_epoch(m, version);
        let ghost w4 = chain(w3, s4);
        let ghost s5 = Self::spec_write_high_watermark(m, version);
        let ghost w5 = chain(w4, s5);
        let ghost s6 = Self::spec_write_current_voters(m, version);
        let ghost w6 = chain(w5, s6);
        let ghost s7 = Self::spec_write_observers(m, version);
        let ghost w7 = chain(w6, s7);
        let ghost s8 = Self::spec_write_tags(m, version);
        let ghost w8 = chain(w7, s8);
        assert(Self::spec_write(m, version) == w8);
        assert(w7 is Err ==> w8 == w7);
        assert(w6 is Err ==> w8 == w6);
        assert(w5 is Err ==> w8 == w5);
        assert(w4 is Err ==> w8 == w4);
        assert(w3 is Err ==> w8 == w3);
        assert(w2 is Err ==> w8 == w2);
        assert(w1 is Err ==> w8 == w1);
        assert(w0 is Err ==> w8 == w0);
        let mut len: usize = 0;
        let l0 = Ok(4);
        assert(l0 == len_result(s0));
        let n0 = match l0 {
            Ok(n) => n,
            Err(e) => {
                return Err(e);
            },
        };
        len = saturating_sum(len, n0);
        assert(w0 is Ok && len == saturate(written(w0).len() as int));
        let l1 = Ok(2);
        assert(l1 == len_result(s1));
        let n1 = match l1 {
            Ok(n) => n,
            Err(e) => {
                return Err(e);
            },
        };
        proof {
            lemma_len_step(w0, s1, n1);
        }
        len = saturating_sum(len, n1);
        assert(w1 is Ok && len == saturate(written(w1).len() as int));
        let l2 = if version >= 2 {
            compact_nullable_string_len(&self.error_message)
        } else {
            if self.error_message.is_some() {
                Err(Error::UnsupportedFieldVersion(UnsupportedFieldVersion::new(55, "error_message", version)))
            } else {
                Ok(0)
            }
        };
        assert(l2 == len_result(s2));
        let n2 = match l2 {
            Ok(n) => n,
            Err(e) => {
                return Err(e);
            },
        };
        proof {
            lemma_len_step(w1, s2, n2);
        }
        len = saturating_sum(len, n2);
        assert(w2 is Ok && len == saturate(written(w2).len() as int));
        let l3 = Ok(4);
        assert(l3 == len_result(s3));
        let n3 = match l3 {
            Ok(n) => n,
            Err(e) => {
                return Err(e);
            },
        };
        proof {
            lemma_len_step(w2, s3, n3);
        }
        len = saturating_sum(len, n3);
        assert(w3 is Ok && len == saturate(written(w3).len() as int));
        let l4 = Ok(4);
        assert(l4 == len_result(s4));
        let n4 = match l4 {
            Ok(n) => n,
            Err(e) => {
                return Err(e);
            },
        };
        proof {
            lemma_len_step(w3, s4, n4);
        }
        len = saturating_sum(len, n4);
        assert(w4 is Ok && len == saturate(written(w4).len() as int));
        let l5 = Ok(8);
        assert(l5 == len_result(s5));
        let n5 = match l5 {
            Ok(n) => n,
            Err(e) => {
                return Err(e);
            },
        };
        proof {
            lemma_len_step(w4, s5, n5);
        }
        len = saturating_sum(len, n5);
        assert(w5 is Ok && len == saturate(written(w5).len() as int));
        let l6 = array_len::<ReplicaState>(&self.current_voters, version, true);
        assert(l6 == len_result(s6));
        let n6 = match l6 {
            Ok(n) => n,
            Err(e) => {
                return Err(e);
            },
        };
        proof {
            lemma_len_step(w5, s6, n6);
        }
        len = saturating_sum(len, n6);
        assert(w6 is Ok && len == saturate(written(w6).len() as int));
        let l7 = array_len::<ReplicaState>(&self.observers, version, true);
        assert(l7 == len_result(s7));
        let n7 = match l7 {
            Ok(n) => n,
            Err(e) => {
                return Err(e);
            },
        };
        proof {
            lemma_len_step(w6, s7, n7);
        }
        len = saturating_sum(len, n7);
        assert(w7 is Ok && len == saturate(written(w7).len() as int));
        let l8 = tagged_fields_len(&sort_by_tag(&self._unknown_tagged_fields));
        assert(l8 == len_result(s8));
        let n8 = match l8 {
            Ok(n) => n,
            Err(e) => {
                return Err(e);
            },
        };
        proof {
            lemma_len_step(w7, s8, n8);
        }
        len = saturating_sum(len, n8);
        assert(w8 is Ok && len == saturate(written(w8).len() as int));
        Ok(len)
    }
}

#[derive(Debug, PartialEq)]
pub struct Node {
    /// The ID of the associated node.
    pub node_id: i32,
    /// The listeners of this controller.
    pub listeners: Vec<Listener>,
    pub _unknown_tagged_fields: Vec<RawTaggedField>,
}

/// What a `Node` holds, as the specification sees it.
#[verifier::ext_equal]
pub struct NodeView {
    pub node_id: i32,
    pub listeners: Seq<ListenerView>,
    pub unknown_tagged_fields: Seq<(u32, Seq<u8>)>,
}

impl View for Node {
    type V = NodeView;

    open spec fn view(&self) -> NodeView {
        NodeView {
            node_id: self.node_id,
            listeners: views(self.listeners@),
            unknown_tagged_fields: views(self._unknown_tagged_fields@),
        }
    }
}

impl Clone for Node {
    fn clone(&self) -> (r: Self)
        ensures
            r@ == self@,
    {
        let r = Node {
            node_id: self.node_id,
            listeners: clone_vec(&self.listeners),
            _unknown_tagged_fields: clone_vec(&self._unknown_tagged_fields),
        };
        assert(r@ =~= self@);
        r
    }
}

impl ViewClone for Node {
    fn clone_view(&self) -> (r: Self) {
        self.clone()
    }
}

impl Default for Node {
    fn default() -> (r: Self)
        ensures
            r@ == Self::default_view(),
    {
        let r = Node {
            node_id: 0_i32,
            listeners: empty_vec(),
            _unknown_tagged_fields: empty_vec(),
        };
        assert(r@ =~= Self::default_view());
        r
    }
}

impl Node {
    pub open spec fn default_view() -> NodeView {
        NodeView {
            node_id: 0_i32,
            listeners: Seq::empty(),
            unknown_tagged_fields: Seq::empty(),
        }
    }

    /// The `node_id` field, read from the front of `s`.
    #[verifier::opaque]
    pub open spec fn spec_read_node_id(s: Seq<u8>, version: i16) -> ReadOutcome<i32> {
        spec_read_i32(s)
    }

    /// The `listeners` field, read from the front of `s`.
    #[verifier::opaque]
    pub open spec fn spec_read_listeners(s: Seq<u8>, version: i16) -> ReadOutcome<Seq<ListenerView>> {
        spec_read_array::<Listener>(s, version, true)
    }

    /// The tagged fields, read from the front of `s`.
    #[verifier::opaque]
    pub open spec fn spec_read_tags(s: Seq<u8>, version: i16) -> ReadOutcome<Seq<(u32, Seq<u8>)>> {
        spec_read_tagged_fields(s)
    }

    pub open spec fn spec_read(s: Seq<u8>, version: i16) -> ReadOutcome<NodeView> {
        match (Self::spec_read_node_id(s, version)) {
            Err(e) => Err(e),
            Ok((node_id, s)) => match (Self::spec_read_listeners(s, version)) {
                Err(e) => Err(e),
                Ok((listeners, s)) => match (Self::spec_read_tags(s, version)) {
                    Err(e) => Err(e),
                    Ok((unknown_tagged_fields, s)) => Ok((NodeView {
                                node_id: node_id,
                                listeners: listeners,
                                unknown_tagged_fields: unknown_tagged_fields,
                            }, s)),
                },
            },
        }
    }

    /// What writing the `node_id` field of `m` appends.
    #[verifier::opaque]
    pub open spec fn spec_write_node_id(m: NodeView, version: i16) -> WriteOutcome {
        spec_write_i32(m.node_id)
    }

    /// What writing the `listeners` field of `m` appends.
    #[verifier::opaque]
    pub open spec fn spec_write_listeners(m: NodeView, version: i16) -> WriteOutcome {
        spec_write_array::<Listener>(m.listeners, version, true)
    }

    /// What writing the tagged fields of `m` appends.
    #[verifier::opaque]
    pub open spec fn spec_write_tags(m: NodeView, version: i16) -> WriteOutcome {
        spec_write_tagged_fields(sorted_by_tag(m.unknown_tagged_fields))
    }

    pub open spec fn spec_write(m: NodeView, version: i16) -> WriteOutcome {
        chain(
            chain(
                Self::spec_write_node_id(m, version),
                Self::spec_write_listeners(m, version),
            ),
            Self::spec_write_tags(m, version),
        )
    }

    /// Whether reading back what writing `m` in `version` appends gives `m`:
    /// fields that the version does not carry hold their default values, and
    /// tagged fields come in the order in which they are written.
    pub open spec fn canonical(m: NodeView, version: i16) -> bool {
        &&& all_canonical::<Listener>(m.listeners, version)
        &&& tags_in_order(m.unknown_tagged_fields)
    }

    proof fn lemma_round_trip_node_id(m: NodeView, version: i16, rest: Seq<u8>)
        requires
            Self::canonical(m, version),
            Self::spec_write_node_id(m, version) is Ok,
        ensures
            Self::spec_read_node_id(written(Self::spec_write_node_id(m, version)) + rest, version) == Ok::<(i32, Seq<u8>), Error>((m.node_id, rest)),
    {
        reveal(Node::spec_read_node_id);
        reveal(Node::spec_write_node_id);
        lemma_i32_roundtrip(m.node_id, rest);
    }

    proof fn lemma_round_trip_listeners(m: NodeView, version: i16, rest: Seq<u8>)
        requires
            Self::canonical(m, version),
            Self::spec_write_listeners(m, version) is Ok,
        ensures
            Self::spec_read_listeners(written(Self::spec_write_listeners(m, version)) + rest, version) == Ok::<(Seq<ListenerView>, Seq<u8>), Error>((m.listeners, rest)),
    {
        reveal(Node::spec_read_listeners);
        reveal(Node::spec_write_listeners);
        lemma_array_round_trip::<Listener>(m.listeners, version, true, rest);
    }

    proof fn lemma_round_trip_tags(m: NodeView, version: i16, rest: Seq<u8>)
        requires
            Self::canonical(m, version),
            Self::spec_write_tags(m, version) is Ok,
        ensures
            Self::spec_read_tags(written(Self::spec_write_tags(m, version)) + rest, version) == Ok::<(Seq<(u32, Seq<u8>)>, Seq<u8>), Error>((m.unknown_tagged_fields, rest)),
    {
        reveal(Node::spec_read_tags);
        reveal(Node::spec_write_tags);
        lemma_sorted_by_tag_in_order(m.unknown_tagged_fields);
        lemma_tagged_fields_round_trip(m.unknown_tagged_fields, rest);
    }

    /// Reading back what writing `m` in `version` appends gives `m` again, and
    /// leaves what follows, for every canonical message whose write succeeds.
    #[verifier::rlimit(70)]
    #[verifier::spinoff_prover]
    pub proof fn lemma_round_trip(m: NodeView, version: i16, rest: Seq<u8>)
        requires
            Self::canonical(m, version),
            Self::spec_write(m, version) is Ok,
        ensures
            Self::spec_read(written(Self::spec_write(m, version)) + rest, version) == Ok::<(NodeView, Seq<u8>), Error>((m, rest)),
    {
        let b0 = written(Self::spec_write_node_id(m, version));
        let b1 = written(Self::spec_write_listeners(m, version));
        let b2 = written(Self::spec_write_tags(m, version));
        let t3 = rest;
        let t2 = b2 + t3;
        let t1 = b1 + t2;
        let t0 = b0 + t1;
        let w0 = Self::spec_write_node_id(m, version);
        let w1 = chain(w0, Self::spec_write_listeners(m, version));
        let w2 = chain(w1, Self::spec_write_tags(m, version));
        assert(Self::spec_write(m, version) == w2);
        assert(written(w2) + t3 =~= written(w1) + t2);
        assert(written(w1) + t2 =~= written(w0) + t1);
        Self::lemma_round_trip_node_id(m, version, t1);
        Self::lemma_round_trip_listeners(m, version, t2);
        Self::lemma_round_trip_tags(m, version, t3);
    }

    /// The default message holds the default value of each field of the schema.
    pub proof fn lemma_default_values()
        ensures
            Self::default_view().node_id == (0_i32),
            Self::default_view().listeners.len() == 0,
            Self::default_view().unknown_tagged_fields.len() == 0,
    {
    }

    /// Each integer, boolean and identifier field is written as its standard
    /// big-endian bytes (a boolean as `1` or `0`) in the versions that carry
    /// it, and as nothing in the others; reading it takes those bytes back (any
    /// byte other than `0` reads as `true`), or gives its default value.
    pub proof fn lemma_field_encodings(m: NodeView, s: Seq<u8>, version: i16)
        ensures
            true ==> Self::spec_write_node_id(m, version) == Ok::<Seq<u8>, (Error, Seq<u8>)>(u32_bytes(m.node_id as u32)),
            true ==> Self::spec_read_node_id(s, version) == spec_read_i32(s),
    {
        reveal(Node::spec_write_node_id);
        reveal(Node::spec_read_node_id);
    }

    /// Whether writing `m` in `version` succeeds, said over its parts: the
    /// version is one the schema covers, every field that the version cannot
    /// carry holds its default value, and every string, byte string, array and
    /// tagged field fits its length prefix.
    pub open spec fn writable(m: NodeView, version: i16) -> bool {
        &&& (m.listeners.len() <= i32::MAX && all_writable::<Listener>(m.listeners, version))
        &&& m.unknown_tagged_fields.len() <= u32::MAX && tags_fit(m.unknown_tagged_fields)
    }

    proof fn lemma_writable_node_id(m: NodeView, version: i16)
        ensures
            Self::spec_write_node_id(m, version) is Ok <==> true,
    {
        reveal(Node::spec_write_node_id);
    }

    proof fn lemma_writable_listeners(m: NodeView, version: i16)
        ensures
            Self::spec_write_listeners(m, version) is Ok <==> (m.listeners.len() <= i32::MAX && all_writable::<Listener>(m.listeners, version)),
    {
        reveal(Node::spec_write_listeners);
        lemma_array_writable::<Listener>(m.listeners, version, true);
    }

    proof fn lemma_writable_tags(m: NodeView, version: i16)
        ensures
            Self::spec_write_tags(m, version) is Ok <==> m.unknown_tagged_fields.len() <= u32::MAX && tags_fit(m.unknown_tagged_fields),
    {
        reveal(Node::spec_write_tags);
        lemma_sorted_tags_fit(m.unknown_tagged_fields);
        lemma_tagged_fields_writable(sorted_by_tag(m.unknown_tagged_fields));
    }

    /// Writing `m` in `version` succeeds exactly when `m` is writable in it;
    /// so do `write` and `encoded_len`, whose results follow `spec_write`.
    #[verifier::rlimit(48)]
    pub proof fn lemma_writable(m: NodeView, version: i16)
        ensures
            Self::spec_write(m, version) is Ok <==> Self::writable(m, version),
    {
        Self::lemma_writable_node_id(m, version);
        Self::lemma_writable_listeners(m, version);
        Self::lemma_writable_tags(m, version);
    }

    pub fn with_node_id(self, value: i32) -> (r: Self)
        ensures
            r@ == (NodeView { node_id: value, ..self@ }),
    {
        let mut r = self;
        r.node_id = value;
        r
    }

    pub fn with_listeners(self, value: Vec<Listener>) -> (r: Self)
        ensures
            r@ == (NodeView { listeners: views(value@), ..self@ }),
    {
        let mut r = self;
        r.listeners = value;
        r
    }

    fn read_node_id(buf: &mut Bytes, version: i16) -> (r: Result<i32, Error>)
        ensures
            read_as(Self::spec_read_node_id(bytes_seq(*old(buf)), version), *final(buf), r),
            took_front(*old(buf), *final(buf)),
    {
        proof {
            reveal(Node::spec_read_node_id);
        }
        Ok(read_i32(buf)?)
    }

    fn read_listeners(buf: &mut Bytes, version: i16) -> (r: Result<Vec<Listener>, Error>)
        ensures
            read_vec_as(Self::spec_read_listeners(bytes_seq(*old(buf)), version), *final(buf), r),
            took_front(*old(buf), *final(buf)),
    {
        proof {
            reveal(Node::spec_read_listeners);
        }
        Ok(read_array::<Listener>(buf, version, true)?)
    }

    fn read_tags(buf: &mut Bytes, version: i16) -> (r: Result<Vec<RawTaggedField>, Error>)
        ensures
            read_vec_as(Self::spec_read_tags(bytes_seq(*old(buf)), version), *final(buf), r),
            took_front(*old(buf), *final(buf)),
    {
        proof {
            reveal(Node::spec_read_tags);
        }
        Ok(read_tagged_fields(buf)?)
    }

    pub fn read(buf: &mut Bytes, version: i16) -> (r: Result<Self, Error>)
        ensures
            read_as(Self::spec_read(bytes_seq(*old(buf)), version), *final(buf), r),
            took_front(*old(buf), *final(buf)),
    {
        let node_id = Self::read_node_id(buf, version)?;
        let listeners = Self::read_listeners(buf, version)?;
        let _unknown_tagged_fields = Self::read_tags(buf, version)?;
        Ok(Node {
                node_id: node_id,
                listeners: listeners,
                _unknown_tagged_fields: _unknown_tagged_fields,
        })
    }

    #[verifier::rlimit(60)]
    pub fn write(&self, buf: &mut BytesMut, version: i16) -> (r: Result<(), Error>)
        requires
            has_room(Self::spec_write(self@, version), *old(buf)),
        ensures
            wrote(Self::spec_write(self@, version), *old(buf), *final(buf), r),
    {
        let ghost m = self@;
        proof {
            reveal(Node::spec_write_node_id);
            reveal(Node::spec_write_listeners);
            reveal(Node::spec_write_tags);
        }
        let ghost s0 = Self::spec_write_node_id(m, version);
        let ghost w0 = s0;
        let ghost s1 = Self::spec_write_listeners(m, version);
        let ghost w1 = chain(w0, s1);
        let ghost s2 = Self::spec_write_tags(m, version);
        let ghost w2 = chain(w1, s2);
        assert(Self::spec_write(m, version) == w2);
        assert(written(w1).len() <= written(w2).len() && (w1 is Err ==> w2 == w1));
        assert(written(w0).len() <= written(w2).len() && (w0 is Err ==> w2 == w0));
        let ghost mid = bytes_mut_seq(*buf);
        proof {
            lemma_append_empty(mid);
        }
        let r0 = {
            write_i32(buf, self.node_id);
            Ok(())
        };
        assert(bytes_mut_seq(*buf) == mid + written(s0));
        if r0.is_err() {
            return r0;
        }
        let ghost mid = bytes_mut_seq(*buf);
        proof {
            lemma_append_empty(mid);
        }
        let r1 = write_array::<Listener>(buf, &self.listeners, version, true);
        assert(bytes_mut_seq(*buf) == mid + written(s1));
        proof {
            lemma_step(bytes_mut_seq(*old(buf)), w0, s1);
        }
        if r1.is_err() {
            return r1;
        }
        let ghost mid = bytes_mut_seq(*buf);
        proof {
            lemma_append_empty(mid);
        }
        let r2 = write_tagged_fields(buf, &sort_by_tag(&self._unknown_tagged_fields));
        assert(bytes_mut_seq(*buf) == mid + written(s2));
        proof {
            lemma_step(bytes_mut_seq(*old(buf)), w1, s2);
        }
        if r2.is_err() {
            return r2;
        }
        Ok(())
    }

    #[verifier::rlimit(60)]
    pub fn encoded_len(&self, version: i16) -> (r: Result<usize, Error>)
        ensures
            r == len_result(Self::spec_write(self@, version)),
    {
        let ghost m = self@;
        proof {
            reveal(Node::spec_write_node_id);
            reveal(Node::spec_write_listeners);
            reveal(Node::spec_write_tags);
        }
        let ghost s0 = Self::spec_write_node_id(m, version);
        let ghost w0 = s0;
        let ghost s1 = Self::spec_write_listeners(m, version);
        let ghost w1 = chain(w0, s1);
        let ghost s2 = Self::spec_write_tags(m, version);
        let ghost w2 = chain(w1, s2);
        assert(Self::spec_write(m, version) == w2);
        assert(w1 is Err ==> w2 == w1);
        assert(w0 is Err ==> w2 == w0);
        let mut len: usize = 0;
        let l0 = Ok(4);
        assert(l0 == len_result(s0));
        let n0 = match l0 {
            Ok(n) => n,
            Err(e) => {
                return Err(e);
            },
        };
        len = saturating_sum(len, n0);
        assert(w0 is Ok && len == saturate(written(w0).len() as int));
        let l1 = array_len::<Listener>(&self.listeners, version, true);
        assert(l1 == len_result(s1));
        let n1 = match l1 {
            Ok(n) => n,
            Err(e) => {
                return Err(e);
            },
        };
        proof {
            lemma_len_step(w0, s1, n1);
        }
        len = saturating_sum(len, n1);
        assert(w1 is Ok && len == saturate(written(w1).len() as int));
        let l2 = tagged_fields_len(&sort_by_tag(&self._unknown_tagged_fields));
        assert(l2 == len_result(s2));
        let n2 = match l2 {
            Ok(n) => n,
            Err(e) => {
                return Err(e);
            },
        };
        proof {
            lemma_len_step(w1, s2, n2);
        }
        len = saturating_sum(len, n2);
        assert(w2 is Ok && len == saturate(written(w2).len() as int));
        Ok(len)
    }
}

#[derive(Debug, PartialEq)]
pub struct Listener {
    /// The name of the endpoint.
    pub name: KafkaString,
    /// The hostname.
    pub host: KafkaString,
    /// The port.
    pub port: u16,
    pub _unknown_tagged_fields: Vec<RawTaggedField>,
}

/// What a `Listener` holds, as the specification sees it.
#[verifier::ext_equal]
pub struct ListenerView {
    pub name: Seq<u8>,
    pub host: Seq<u8>,
    pub port: u16,
    pub unknown_tagged_fields: Seq<(u32, Seq<u8>)>,
}

impl View for Listener {
    type V = ListenerView;

    open spec fn view(&self) -> ListenerView {
        ListenerView {
            name: self.name@,
            host: self.host@,
            port: self.port,
            unknown_tagged_fields: views(self._unknown_tagged_fields@),
        }
    }
}

impl Clone for Listener {
    fn clone(&self) -> (r: Self)
        ensures
            r@ == self@,
    {
        let r = Listener {
            name: self.name.clone(),
            host: self.host.clone(),
            port: self.port,
            _unknown_tagged_fields: clone_vec(&self._unknown_tagged_fields),
        };
        assert(r@ =~= self@);
        r
    }
}

impl ViewClone for Listener {
    fn clone_view(&self) -> (r: Self) {
        self.clone()
    }
}

impl Default for Listener {
    fn default() -> (r: Self)
        ensures
            r@ == Self::default_view(),
    {
        let r = Listener {
            name: KafkaString::default(),
            host: KafkaString::default(),
            port: 0_u16,
            _unknown_tagged_fields: empty_vec(),
        };
        assert(r@ =~= Self::default_view());
        r
    }
}

impl Listener {
    pub open spec fn default_view() -> ListenerView {
        ListenerView {
            name: Seq::empty(),
            host: Seq::empty(),
            port: 0_u16,
            unknown_tagged_fields: Seq::empty(),
        }
    }

    /// The `name` field, read from the front of `s`.
    #[verifier::opaque]
    pub open spec fn spec_read_name(s: Seq<u8>, version: i16) -> ReadOutcome<Seq<u8>> {
        spec_read_compact_string(s)
    }

    /// The `host` field, read from the front of `s`.
    #[verifier::opaque]
    pub open spec fn spec_read_host(s: Seq<u8>, version: i16) -> ReadOutcome<Seq<u8>> {
        spec_read_compact_string(s)
    }

    /// The `port` field, read from the front of `s`.
    #[verifier::opaque]
    pub open spec fn spec_read_port(s: Seq<u8>, version: i16) -> ReadOutcome<u16> {
        spec_read_u16(s)
    }

    /// The tagged fields, read from the front of `s`.
    #[verifier::opaque]
    pub open spec fn spec_read_tags(s: Seq<u8>, version: i16) -> ReadOutcome<Seq<(u32, Seq<u8>)>> {
        spec_read_tagged_fields(s)
    }

    pub open spec fn spec_read(s: Seq<u8>, version: i16) -> ReadOutcome<ListenerView> {
        match (Self::spec_read_name(s, version)) {
            Err(e) => Err(e),
            Ok((name, s)) => match (Self::spec_read_host(s, version)) {
                Err(e) => Err(e),
                Ok((host, s)) => match (Self::spec_read_port(s, version)) {
                    Err(e) => Err(e),
                    Ok((port, s)) => match (Self::spec_read_tags(s, version)) {
                        Err(e) => Err(e),
                        Ok((unknown_tagged_fields, s)) => Ok((ListenerView {
                                    name: name,
                                    host: host,
                                    port: port,
                                    unknown_tagged_fields: unknown_tagged_fields,
                                }, s)),
                    },
                },
            },
        }
    }

    /// What writing the `name` field of `m` appends.
    #[verifier::opaque]
    pub open spec fn spec_write_name(m: ListenerView, version: i16) -> WriteOutcome {
        spec_write_compact_string(m.name)
    }

    /// What writing the `host` field of `m` appends.
    #[verifier::opaque]
    pub open spec fn spec_write_host(m: ListenerView, version: i16) -> WriteOutcome {
        spec_write_compact_string(m.host)
    }

    /// What writing the `port` field of `m` appends.
    #[verifier::opaque]
    pub open spec fn spec_write_port(m: ListenerView, version: i16) -> WriteOutcome {
        spec_write_u16(m.port)
    }

    /// What writing the tagged fields of `m` appends.
    #[verifier::opaque]
    pub open spec fn spec_write_tags(m: ListenerView, version: i16) -> WriteOutcome {
        spec_write_tagged_fields(sorted_by_tag(m.unknown_tagged_fields))
    }

    pub open spec fn spec_write(m: ListenerView, version: i16) -> WriteOutcome {
        chain(
            chain(
                chain(
                    Self::spec_write_name(m, version),
                    Self::spec_write_host(m, version),
                ),
                Self::spec_write_port(m, version),
            ),
            Self::spec_write_tags(m, version),
        )
    }

    /// Whether reading back what writing `m` in `version` appends gives `m`:
    /// fields that the version does not carry hold their default values, and
    /// tagged fields come in the order in which they are written.
    pub open spec fn canonical(m: ListenerView, version: i16) -> bool {
        &&& tags_in_order(m.unknown_tagged_fields)
    }

    proof fn lemma_round_trip_name(m: ListenerView, version: i16, rest: Seq<u8>)
        requires
            Self::canonical(m, version),
            Self::spec_write_name(m, version) is Ok,
        ensures
            Self::spec_read_name(written(Self::spec_write_name(m, version)) + rest, version) == Ok::<(Seq<u8>, Seq<u8>), Error>((m.name, rest)),
    {
        reveal(Listener::spec_read_name);
        reveal(Listener::spec_write_name);
        lemma_compact_string_round_trip(m.name, rest);
    }

    proof fn lemma_round_trip_host(m: ListenerView, version: i16, rest: Seq<u8>)
        requires
            Self::canonical(m, version),
            Self::spec_write_host(m, version) is Ok,
        ensures
            Self::spec_read_host(written(Self::spec_write_host(m, version)) + rest, version) == Ok::<(Seq<u8>, Seq<u8>), Error>((m.host, rest)),
    {
        reveal(Listener::spec_read_host);
        reveal(Listener::spec_write_host);
        lemma_compact_string_round_trip(m.host, rest);
    }

    proof fn lemma_round_trip_port(m: ListenerView, version: i16, rest: Seq<u8>)
        requires
            Self::canonical(m, version),
            Self::spec_write_port(m, version) is Ok,
        ensures
            Self::spec_read_port(written(Self::spec_write_port(m, version)) + rest, version) == Ok::<(u16, Seq<u8>), Error>((m.port, rest)),
    {
        reveal(Listener::spec_read_port);
        reveal(Listener::spec_write_port);
        lemma_u16_roundtrip(m.port, rest);
    }

    proof fn lemma_round_trip_tags(m: ListenerView, version: i16, rest: Seq<u8>)
        requires
            Self::canonical(m, version),
            Self::spec_write_tags(m, version) is Ok,
        ensures
            Self::spec_read_tags(written(Self::spec_write_tags(m, version)) + rest, version) == Ok::<(Seq<(u32, Seq<u8>)>, Seq<u8>), Error>((m.unknown_tagged_fields, rest)),
    {
        reveal(Listener::spec_read_tags);
        reveal(Listener::spec_write_tags);
        lemma_sorted_by_tag_in_order(m.unknown_tagged_fields);
        lemma_tagged_fields_round_trip(m.unknown_tagged_fields, rest);
    }

    /// Reading back what writing `m` in `version` appends gives `m` again, and
    /// leaves what follows, for every canonical message whose write succeeds.
    #[verifier::rlimit(80)]
    #[verifier::spinoff_prover]
    pub proof fn lemma_round_trip(m: ListenerView, version: i16, rest: Seq<u8>)
        requires
            Self::canonical(m, version),
            Self::spec_write(m, version) is Ok,
        ensures
            Self::spec_read(written(Self::spec_write(m, version)) + rest, version) == Ok::<(ListenerView, Seq<u8>), Error>((m, rest)),
    {
        let b0 = written(Self::spec_write_name(m, version));
        let b1 = written(Self::spec_write_host(m, version));
        let b2 = written(Self::spec_write_port(m, version));
        let b3 = written(Self::spec_write_tags(m, version));
        let t4 = rest;
        let t3 = b3 + t4;
        let t2 = b2 + t3;
        let t1 = b1 + t2;
        let t0 = b0 + t1;
        let w0 = Self::spec_write_name(m, version);
        let w1 = chain(w0, Self::spec_write_host(m, version));
        let w2 = chain(w1, Self::spec_write_port(m, version));
        let w3 = chain(w2, Self::spec_write_tags(m, version));
        assert(Self::spec_write(m, version) == w3);
        assert(written(w3) + t4 =~= written(w2) + t3);
        assert(written(w2) + t3 =~= written(w1) + t2);
        assert(written(w1) + t2 =~= written(w0) + t1);
        Self::lemma_round_trip_name(m, version, t1);
        Self::lemma_round_trip_host(m, version, t2);
        Self::lemma_round_trip_port(m, version, t3);
        Self::lemma_round_trip_tags(m, version, t4);
    }

    /// The default message holds the default value of each field of the schema.
    pub proof fn lemma_default_values()
        ensures
            Self::default_view().name.len() == 0,
            Self::default_view().host.len() == 0,
            Self::default_view().port == (0_u16),
            Self::default_view().unknown_tagged_fields.len() == 0,
    {
    }

    /// Each integer, boolean and identifier field is written as its standard
    /// big-endian bytes (a boolean as `1` or `0`) in the versions that carry
    /// it, and as nothing in the others; reading it takes those bytes back (any
    /// byte other than `0` reads as `true`), or gives its default value.
    pub proof fn lemma_field_encodings(m: ListenerView, s: Seq<u8>, version: i16)
        ensures
            true ==> Self::spec_write_port(m, version) == Ok::<Seq<u8>, (Error, Seq<u8>)>(u16_bytes(m.port)),
            true ==> Self::spec_read_port(s, version) == spec_read_u16(s),
    {
        reveal(Listener::spec_write_port);
        reveal(Listener::spec_read_port);
    }

    /// Whether writing `m` in `version` succeeds, said over its parts: the
    /// version is one the schema covers, every field that the version cannot
    /// carry holds its default value, and every string, byte string, array and
    /// tagged field fits its length prefix.
    pub open spec fn writable(m: ListenerView, version: i16) -> bool {
        &&& m.name.len() <= 0x7fff
        &&& m.host.len() <= 0x7fff
        &&& m.unknown_tagged_fields.len() <= u32::MAX && tags_fit(m.unknown_tagged_fields)
    }

    proof fn lemma_writable_name(m: ListenerView, version: i16)
        ensures
            Self::spec_write_name(m, version) is Ok <==> m.name.len() <= 0x7fff,
    {
        reveal(Listener::spec_write_name);
    }

    proof fn lemma_writable_host(m: ListenerView, version: i16)
        ensures
            Self::spec_write_host(m, version) is Ok <==> m.host.len() <= 0x7fff,
    {
        reveal(Listener::spec_write_host);
    }

    proof fn lemma_writable_port(m: ListenerView, version: i16)
        ensures
            Self::spec_write_port(m, version) is Ok <==> true,
    {
        reveal(Listener::spec_write_port);
    }

    proof fn lemma_writable_tags(m: ListenerView, version: i16)
        ensures
            Self::spec_write_tags(m, version) is Ok <==> m.unknown_tagged_fields.len() <= u32::MAX && tags_fit(m.unknown_tagged_fields),
    {
        reveal(Listener::spec_write_tags);
        lemma_sorted_tags_fit(m.unknown_tagged_fields);
        lemma_tagged_fields_writable(sorted_by_tag(m.unknown_tagged_fields));
    }

    /// Writing `m` in `version` succeeds exactly when `m` is writable in it;
    /// so do `write` and `encoded_len`, whose results follow `spec_write`.
    #[verifier::rlimit(54)]
    pub proof fn lemma_writable(m: ListenerView, version: i16)
        ensures
            Self::spec_write(m, version) is Ok <==> Self::writable(m, version),
    {
        Self::lemma_writable_name(m, version);
        Self::lemma_writable_host(m, version);
        Self::lemma_writable_port(m, version);
        Self::lemma_writable_tags(m, version);
    }

    pub fn with_name(self, value: KafkaString) -> (r: Self)
        ensures
            r@ == (ListenerView { name: value@, ..self@ }),
    {
        let mut r = self;
        r.name = value;
        r
    }

    pub fn with_host(self, value: KafkaString) -> (r: Self)
        ensures
            r@ == (ListenerView { host: value@, ..self@ }),
    {
        let mut r = self;
        r.host = value;
        r
    }

    pub fn with_port(self, value: u16) -> (r: Self)
        ensures
            r@ == (ListenerView { port: value, ..self@ }),
    {
        let mut r = self;
        r.port = value;
        r
    }

    fn read_name(buf: &mut Bytes, version: i16) -> (r: Result<KafkaString, Error>)
        ensures
            read_as(Self::spec_read_name(bytes_seq(*old(buf)), version), *final(buf), r),
            took_front(*old(buf), *final(buf)),
    {
        proof {
            reveal(Listener::spec_read_name);
        }
        Ok(read_compact_string(buf)?)
    }

    fn read_host(buf: &mut Bytes, version: i16) -> (r: Result<KafkaString, Error>)
        ensures
            read_as(Self::spec_read_host(bytes_seq(*old(buf)), version), *final(buf), r),
            took_front(*old(buf), *final(buf)),
    {
        proof {
            reveal(Listener::spec_read_host);
        }
        Ok(read_compact_string(buf)?)
    }

    fn read_port(buf: &mut Bytes, version: i16) -> (r: Result<u16, Error>)
        ensures
            read_as(Self::spec_read_port(bytes_seq(*old(buf)), version), *final(buf), r),
            took_front(*old(buf), *final(buf)),
    {
        proof {
            reveal(Listener::spec_read_port);
        }
        Ok(read_u16(buf)?)
    }

    fn read_tags(buf: &mut Bytes, version: i16) -> (r: Result<Vec<RawTaggedField>, Error>)
        ensures
            read_vec_as(Self::spec_read_tags(bytes_seq(*old(buf)), version), *final(buf), r),
            took_front(*old(buf), *final(buf)),
    {
        proof {
            reveal(Listener::spec_read_tags);
        }
        Ok(read_tagged_fields(buf)?)
    }

    pub fn read(buf: &mut Bytes, version: i16) -> (r: Result<Self, Error>)
        ensures
            read_as(Self::spec_read(bytes_seq(*old(buf)), version), *final(buf), r),
            took_front(*old(buf), *final(buf)),
    {
        let name = Self::read_name(buf, version)?;
        let host = Self::read_host(buf, version)?;
        let port = Self::read_port(buf, version)?;
        let _unknown_tagged_fields = Self::read_tags(buf, version)?;
        Ok(Listener {
                name: name,
                host: host,
                port: port,
                _unknown_tagged_fields: _unknown_tagged_fields,
        })
    }

    #[verifier::rlimit(70)]
    pub fn write(&self, buf: &mut BytesMut, version: i16) -> (r: Result<(), Error>)
        requires
            has_room(Self::spec_write(self@, version), *old(buf)),
        ensures
            wrote(Self::spec_write(self@, version), *old(buf), *final(buf), r),
    {
        let ghost m = self@;
        proof {
            reveal(Listener::spec_write_name);
            reveal(Listener::spec_write_host);
            reveal(Listener::spec_write_port);
            reveal(Listener::spec_write_tags);
        }
        let ghost s0 = Self::spec_write_name(m, version);
        let ghost w0 = s0;
        let ghost s1 = Self::spec_write_host(m, version);
        let ghost w1 = chain(w0, s1);
        let ghost s2 = Self::spec_write_port(m, version);
        let ghost w2 = chain(w1, s2);
        let ghost s3 = Self::spec_write_tags(m, version);
        let ghost w3 = chain(w2, s3);
        assert(Self::spec_write(m, version) == w3);
        assert(written(w2).len() <= written(w3).len() && (w2 is Err ==> w3 == w2));
        assert(written(w1).len() <= written(w3).len() && (w1 is Err ==> w3 == w1));
        assert(written(w0).len() <= written(w3).len() && (w0 is Err ==> w3 == w0));
        let ghost mid = bytes_mut_seq(*buf);
        proof {
            lemma_append_empty(mid);
        }
        let r0 = write_compact_string(buf, &self.name);
        assert(bytes_mut_seq(*buf) == mid + written(s0));
        if r0.is_err() {
            return r0;
        }
        let ghost mid = bytes_mut_seq(*buf);
        proof {
            lemma_append_empty(mid);
        }
        let r1 = write_compact_string(buf, &self.host);
        assert(bytes_mut_seq(*buf) == mid + written(s1));
        proof {
            lemma_step(bytes_mut_seq(*old(buf)), w0, s1);
        }
        if r1.is_err() {
            return r1;
        }
        let ghost mid = bytes_mut_seq(*buf);
        proof {
            lemma_append_empty(mid);
        }
        let r2 = {
            write_u16(buf, self.port);
            Ok(())
        };
        assert(bytes_mut_seq(*buf) == mid + written(s2));
        proof {
            lemma_step(bytes_mut_seq(*old(buf)), w1, s2);
        }
        if r2.is_err() {
            return r2;
        }
        let ghost mid = bytes_mut_seq(*buf);
        proof {
            lemma_append_empty(mid);
        }
        let r3 = write_tagged_fields(buf, &sort_by_tag(&self._unknown_tagged_fields));
        assert(bytes_mut_seq(*buf) == mid + written(s3));
        proof {
            lemma_step(bytes_mut_seq(*old(buf)), w2, s3);
        }
        if r3.is_err() {
            return r3;
        }
        Ok(())
    }

    #[verifier::rlimit(70)]
    pub fn encoded_len(&self, version: i16) -> (r: Result<usize, Error>)
        ensures
            r == len_result(Self::spec_write(self@, version)),
    {
        let ghost m = self@;
        proof {
            reveal(Listener::spec_write_name);
            reveal(Listener::spec_write_host);
            reveal(Listener::spec_write_port);
            reveal(Listener::spec_write_tags);
        }
        let ghost s0 = Self::spec_write_name(m, version);
        let ghost w0 = s0;
        let ghost s1 = Self::spec_write_host(m, version);
        let ghost w1 = chain(w0, s1);
        let ghost s2 = Self::spec_write_port(m, version);
        let ghost w2 = chain(w1, s2);
        let ghost s3 = Self::spec_write_tags(m, version);
        let ghost w3 = chain(w2, s3);
        assert(Self::spec_write(m, version) == w3);
        assert(w2 is Err ==> w3 == w2);
        assert(w1 is Err ==> w3 == w1);
        assert(w0 is Err ==> w3 == w0);
        let mut len: usize = 0;
        let l0 = compact_string_len(&self.name);
        assert(l0 == len_result(s0));
        let n0 = match l0 {
            Ok(n) => n,
            Err(e) => {
                return Err(e);
            },
        };
        len = saturating_sum(len, n0);
        assert(w0 is Ok && len == saturate(written(w0).len() as int));
        let l1 = compact_string_len(&self.host);
        assert(l1 == len_result(s1));
        let n1 = match l1 {
            Ok(n) => n,
            Err(e) => {
                return Err(e);
            },
        };
        proof {
            lemma_len_step(w0, s1, n1);
        }
        len = saturating_sum(len, n1);
        assert(w1 is Ok && len == saturate(written(w1).len() as int));
        let l2 = Ok(2);
        assert(l2 == len_result(s2));
        let n2 = match l2 {
            Ok(n) => n,
            Err(e) => {
                return Err(e);
            },
        };
        proof {
            lemma_len_step(w1, s2, n2);
        }
        len = saturating_sum(len, n2);
        assert(w2 is Ok && len == saturate(written(w2).len() as int));
        let l3 = tagged_fields_len(&sort_by_tag(&self._unknown_tagged_fields));
        assert(l3 == len_result(s3));
        let n3 = match l3 {
            Ok(n) => n,
            Err(e) => {
                return Err(e);
            },
        };
        proof {
            lemma_len_step(w2, s3, n3);
        }
        len = saturating_sum(len, n3);
        assert(w3 is Ok && len == saturate(written(w3).len() as int));
        Ok(len)
    }
}

#[derive(Debug, PartialEq)]
pub struct ReplicaState {
    /// The ID of the replica.
    pub replica_id: i32,
    /// The replica directory ID of the replica.
    pub replica_directory_id: KafkaUuid,
    /// The last known log end offset of the follower or -1 if it is unknown.
    pub log_end_offset: i64,
    /// The last known leader wall clock time time when a follower fetched from the leader. This is
    /// reported as -1 both for the current leader or if it is unknown for a voter.
    pub last_fetch_timestamp: i64,
    /// The leader wall clock append time of the offset for which the follower made the most recent
    /// fetch request. This is reported as the current time for the leader and -1 if unknown for a
    /// voter.
    pub last_caught_up_timestamp: i64,
    pub _unknown_tagged_fields: Vec<RawTaggedField>,
}

/// What a `ReplicaState` holds, as the specification sees it.
#[verifier::ext_equal]
pub struct ReplicaStateView {
    pub replica_id: i32,
    pub replica_directory_id: KafkaUuid,
    pub log_end_offset: i64,
    pub last_fetch_timestamp: i64,
    pub last_caught_up_timestamp: i64,
    pub unknown_tagged_fields: Seq<(u32, Seq<u8>)>,
}

impl View for ReplicaState {
    type V = ReplicaStateView;

    open spec fn view(&self) -> ReplicaStateView {
        ReplicaStateView {
            replica_id: self.replica_id,
            replica_directory_id: self.replica_directory_id,
            log_end_offset: self.log_end_offset,
            last_fetch_timestamp: self.last_fetch_timestamp,
            last_caught_up_timestamp: self.last_caught_up_timestamp,
            unknown_tagged_fields: views(self._unknown_tagged_fields@),
        }
    }
}

impl Clone for ReplicaState {
    fn clone(&self) -> (r: Self)
        ensures
            r@ == self@,
    {
        let r = ReplicaState {
            replica_id: self.replica_id,
            replica_directory_id: self.replica_directory_id,
            log_end_offset: self.log_end_offset,
            last_fetch_timestamp: self.last_fetch_timestamp,
            last_caught_up_timestamp: self.last_caught_up_timestamp,
            _unknown_tagged_fields: clone_vec(&self._unknown_tagged_fields),
        };
        assert(r@ =~= self@);
        r
    }
}

impl ViewClone for ReplicaState {
    fn clone_view(&self) -> (r: Self) {
        self.clone()
    }
}

impl Default for ReplicaState {
    fn default() -> (r: Self)
        ensures
            r@ == Self::default_view(),
    {
        let r = ReplicaState {
            replica_id: 0_i32,
            replica_directory_id: KafkaUuid::zero(),
            log_end_offset: 0_i64,
            last_fetch_timestamp: -1i64,
            last_caught_up_timestamp: -1i64,
            _unknown_tagged_fields: empty_vec(),
        };
        assert(r@ =~= Self::default_view());
        r
    }
}

impl ReplicaState {
    pub open spec fn default_view() -> ReplicaStateView {
        ReplicaStateView {
            replica_id: 0_i32,
            replica_directory_id: KafkaUuid { most_significant_bits: 0, least_significant_bits: 0 },
            log_end_offset: 0_i64,
            last_fetch_timestamp: -1i64,
            last_caught_up_timestamp: -1i64,
            unknown_tagged_fields: Seq::empty(),
        }
    }

    /// The `replica_id` field, read from the front of `s`.
    #[verifier::opaque]
    pub open spec fn spec_read_replica_id(s: Seq<u8>, version: i16) -> ReadOutcome<i32> {
        spec_read_i32(s)
    }

    /// The `replica_directory_id` field, read from the front of `s`.
    #[verifier::opaque]
    pub open spec fn spec_read_replica_directory_id(s: Seq<u8>, version: i16) -> ReadOutcome<KafkaUuid> {
        if version >= 2 {
            spec_read_uuid(s)
        } else {
            Ok((KafkaUuid { most_significant_bits: 0, least_significant_bits: 0 }, s))
        }
    }

    /// The `log_end_offset` field, read from the front of `s`.
    #[verifier::opaque]
    pub open spec fn spec_read_log_end_offset(s: Seq<u8>, version: i16) -> ReadOutcome<i64> {
        spec_read_i64(s)
    }

    /// The `last_fetch_timestamp` field, read from the front of `s`.
    #[verifier::opaque]
    pub open spec fn spec_read_last_fetch_timestamp(s: Seq<u8>, version: i16) -> ReadOutcome<i64> {
        if version >= 1 {
            spec_read_i64(s)
        } else {
            Ok((-1i64, s))
        }
    }

    /// The `last_caught_up_timestamp` field, read from the front of `s`.
    #[verifier::opaque]
    pub open spec fn spec_read_last_caught_up_timestamp(s: Seq<u8>, version: i16) -> ReadOutcome<i64> {
        if version >= 1 {
            spec_read_i64(s)
        } else {
            Ok((-1i64, s))
        }
    }

    /// The tagged fields, read from the front of `s`.
    #[verifier::opaque]
    pub open spec fn spec_read_tags(s: Seq<u8>, version: i16) -> ReadOutcome<Seq<(u32, Seq<u8>)>> {
        spec_read_tagged_fields(s)
    }

    pub open spec fn spec_read(s: Seq<u8>, version: i16) -> ReadOutcome<ReplicaStateView> {
        match (Self::spec_read_replica_id(s, version)) {
            Err(e) => Err(e),
            Ok((replica_id, s)) => match (Self::spec_read_replica_directory_id(s, version)) {
                Err(e) => Err(e),
                Ok((replica_directory_id, s)) => match (Self::spec_read_log_end_offset(s, version)) {
                    Err(e) => Err(e),
                    Ok((log_end_offset, s)) => match (Self::spec_read_last_fetch_timestamp(s, version)) {
                        Err(e) => Err(e),
                        Ok((last_fetch_timestamp, s)) => match (Self::spec_read_last_caught_up_timestamp(s, version)) {
                            Err(e) => Err(e),
                            Ok((last_caught_up_timestamp, s)) => match (Self::spec_read_tags(s, version)) {
                                Err(e) => Err(e),
                                Ok((unknown_tagged_fields, s)) => Ok((ReplicaStateView {
                                            replica_id: replica_id,
                                            replica_directory_id: replica_directory_id,
                                            log_end_offset: log_end_offset,
                                            last_fetch_timestamp: last_fetch_timestamp,
                                            last_caught_up_timestamp: last_caught_up_timestamp,
                                            unknown_tagged_fields: unknown_tagged_fields,
                                        }, s)),
                            },
                        },
                    },
                },
            },
        }
    }

    /// What writing the `replica_id` field of `m` appends.
    #[verifier::opaque]
    pub open spec fn spec_write_replica_id(m: ReplicaStateView, version: i16) -> WriteOutcome {
        spec_write_i32(m.replica_id)
    }

    /// What writing the `replica_directory_id` field of `m` appends.
    #[verifier::opaque]
    pub open spec fn spec_write_replica_directory_id(m: ReplicaStateView, version: i16) -> WriteOutcome {
        if version >= 2 {
            spec_write_uuid(m.replica_directory_id)
        } else {
            if !uuid_is_nil(m.replica_directory_id) {
                fail(Error::UnsupportedFieldVersion(UnsupportedFieldVersion { api_key: 55, field: "replica_directory_id", version }))
            } else {
                emit(Seq::empty())
            }
        }
    }

    /// What writing the `log_end_offset` field of `m` appends.
    #[verifier::opaque]
    pub open spec fn spec_write_log_end_offset(m: ReplicaStateView, version: i16) -> WriteOutcome {
        spec_write_i64(m.log_end_offset)
    }

    /// What writing the `last_fetch_timestamp` field of `m` appends.
    #[verifier::opaque]
    pub open spec fn spec_write_last_fetch_timestamp(m: ReplicaStateView, version: i16) -> WriteOutcome {
        if version >= 1 {
            spec_write_i64(m.last_fetch_timestamp)
        } else {
            if m.last_fetch_timestamp != -1i64 {
                fail(Error::UnsupportedFieldVersion(UnsupportedFieldVersion { api_key: 55, field: "last_fetch_timestamp", version }))
            } else {
                emit(Seq::empty())
            }
        }
    }

    /// What writing the `last_caught_up_timestamp` field of `m` appends.
    #[verifier::opaque]
    pub open spec fn spec_write_last_caught_up_timestamp(m: ReplicaStateView, version: i16) -> WriteOutcome {
        if version >= 1 {
            spec_write_i64(m.last_caught_up_timestamp)
        } else {
            if m.last_caught_up_timestamp != -1i64 {
                fail(Error::UnsupportedFieldVersion(UnsupportedFieldVersion { api_key: 55, field: "last_caught_up_timestamp", version }))
            } else {
                emit(Seq::empty())
            }
        }
    }

    /// What writing the tagged fields of `m` appends.
    #[verifier::opaque]
    pub open spec fn spec_write_tags(m: ReplicaStateView, version: i16) -> WriteOutcome {
        spec_write_tagged_fields(sorted_by_tag(m.unknown_tagged_fields))
    }

    pub open spec fn spec_write(m: ReplicaStateView, version: i16) -> WriteOutcome {
        chain(
            chain(
                chain(
                    chain(
                        chain(
                            Self::spec_write_replica_id(m, version),
                            Self::spec_write_replica_directory_id(m, version),
                        ),
                        Self::spec_write_log_end_offset(m, version),
                    ),
                    Self::spec_write_last_fetch_timestamp(m, version),
                ),
                Self::spec_write_last_caught_up_timestamp(m, version),
            ),
            Self::spec_write_tags(m, version),
        )
    }

    /// Whether reading back what writing `m` in `version` appends gives `m`:
    /// fields that the version does not carry hold their default values, and
    /// tagged fields come in the order in which they are written.
    pub open spec fn canonical(m: ReplicaStateView, version: i16) -> bool {
        &&& tags_in_order(m.unknown_tagged_fields)
    }

    proof fn lemma_round_trip_replica_id(m: ReplicaStateView, version: i16, rest: Seq<u8>)
        requires
            Self::canonical(m, version),
            Self::spec_write_replica_id(m, version) is Ok,
        ensures
            Self::spec_read_replica_id(written(Self::spec_write_replica_id(m, version)) + rest, version) == Ok::<(i32, Seq<u8>), Error>((m.replica_id, rest)),
    {
        reveal(ReplicaState::spec_read_replica_id);
        reveal(ReplicaState::spec_write_replica_id);
        lemma_i32_roundtrip(m.replica_id, rest);
    }

    proof fn lemma_round_trip_replica_directory_id(m: ReplicaStateView, version: i16, rest: Seq<u8>)
        requires
            Self::canonical(m, version),
            Self::spec_write_replica_directory_id(m, version) is Ok,
        ensures
            Self::spec_read_replica_directory_id(written(Self::spec_write_replica_directory_id(m, version)) + rest, version) == Ok::<(KafkaUuid, Seq<u8>), Error>((m.replica_directory_id, rest)),
    {
        reveal(ReplicaState::spec_read_replica_directory_id);
        reveal(ReplicaState::spec_write_replica_directory_id);
        if version >= 2 {
            lemma_uuid_round_trip(m.replica_directory_id, rest);
        } else {
            assert(Seq::<u8>::empty() + rest =~= rest);
        }
    }

    proof fn lemma_round_trip_log_end_offset(m: ReplicaStateView, version: i16, rest: Seq<u8>)
        requires
            Self::canonical(m, version),
            Self::spec_write_log_end_offset(m, version) is Ok,
        ensures
            Self::spec_read_log_end_offset(written(Self::spec_write_log_end_offset(m, version)) + rest, version) == Ok::<(i64, Seq<u8>), Error>((m.log_end_offset, rest)),
    {
        reveal(ReplicaState::spec_read_log_end_offset);
        reveal(ReplicaState::spec_write_log_end_offset);
        lemma_i64_roundtrip(m.log_end_offset, rest);
    }

    proof fn lemma_round_trip_last_fetch_timestamp(m: ReplicaStateView, version: i16, rest: Seq<u8>)
        requires
            Self::canonical(m, version),
            Self::spec_write_last_fetch_timestamp(m, version) is Ok,
        ensures
            Self::spec_read_last_fetch_timestamp(written(Self::spec_write_last_fetch_timestamp(m, version)) + rest, version) == Ok::<(i64, Seq<u8>), Error>((m.last_fetch_timestamp, rest)),
    {
        reveal(ReplicaState::spec_read_last_fetch_timestamp);
        reveal(ReplicaState::spec_write_last_fetch_timestamp);
        if version >= 1 {
            lemma_i64_roundtrip(m.last_fetch_timestamp, rest);
        } else {
            assert(Seq::<u8>::empty() + rest =~= rest);
        }
    }

    proof fn lemma_round_trip_last_caught_up_timestamp(m: ReplicaStateView, version: i16, rest: Seq<u8>)
        requires
            Self::canonical(m, version),
            Self::spec_write_last_caught_up_timestamp(m, version) is Ok,
        ensures
            Self::spec_read_last_caught_up_timestamp(written(Self::spec_write_last_caught_up_timestamp(m, version)) + rest, version) == Ok::<(i64, Seq<u8>), Error>((m.last_caught_up_timestamp, rest)),
    {
        reveal(ReplicaState::spec_read_last_caught_up_timestamp);
        reveal(ReplicaState::spec_write_last_caught_up_timestamp);
        if version >= 1 {
            lemma_i64_roundtrip(m.last_caught_up_timestamp, rest);
        } else {
            assert(Seq::<u8>::empty() + rest =~= rest);
        }
    }

    proof fn lemma_round_trip_tags(m: ReplicaStateView, version: i16, rest: Seq<u8>)
        requires
            Self::canonical(m, version),
            Self::spec_write_tags(m, version) is Ok,
        ensures
            Self::spec_read_tags(written(Self::spec_write_tags(m, version)) + rest, version) == Ok::<(Seq<(u32, Seq<u8>)>, Seq<u8>), Error>((m.unknown_tagged_fields, rest)),
    {
        reveal(ReplicaState::spec_read_tags);
        reveal(ReplicaState::spec_write_tags);
        lemma_sorted_by_tag_in_order(m.unknown_tagged_fields);
        lemma_tagged_fields_round_trip(m.unknown_tagged_fields, rest);
    }

    /// Reading back what writing `m` in `version` appends gives `m` again, and
    /// leaves what follows, for every canonical message whose write succeeds.
    #[verifier::rlimit(100)]
    #[verifier::spinoff_prover]
    pub proof fn lemma_round_trip(m: ReplicaStateView, version: i16, rest: Seq<u8>)
        requires
            Self::canonical(m, version),
            Self::spec_write(m, version) is Ok,
        ensures
            Self::spec_read(written(Self::spec_write(m, version)) + rest, version) == Ok::<(ReplicaStateView, Seq<u8>), Error>((m, rest)),
    {
        let b0 = written(Self::spec_write_replica_id(m, version));
        let b1 = written(Self::spec_write_replica_directory_id(m, version));
        let b2 = written(Self::spec_write_log_end_offset(m, version));
        let b3 = written(Self::spec_write_last_fetch_timestamp(m, version));
        let b4 = written(Self::spec_write_last_caught_up_timestamp(m, version));
        let b5 = written(Self::spec_write_tags(m, version));
        let t6 = rest;
        let t5 = b5 + t6;
        let t4 = b4 + t5;
        let t3 = b3 + t4;
        let t2 = b2 + t3;
        let t1 = b1 + t2;
        let t0 = b0 + t1;
        let w0 = Self::spec_write_replica_id(m, version);
        let w1 = chain(w0, Self::spec_write_replica_directory_id(m, version));
        let w2 = chain(w1, Self::spec_write_log_end_offset(m, version));
        let w3 = chain(w2, Self::spec_write_last_fetch_timestamp(m, version));
        let w4 = chain(w3, Self::spec_write_last_caught_up_timestamp(m, version));
        let w5 = chain(w4, Self::spec_write_tags(m, version));
        assert(Self::spec_write(m, version) == w5);
        assert(written(w5) + t6 =~= written(w4) + t5);
        assert(written(w4) + t5 =~= written(w3) + t4);
        assert(written(w3) + t4 =~= written(w2) + t3);
        assert(written(w2) + t3 =~= written(w1) + t2);
        assert(written(w1) + t2 =~= written(w0) + t1);
        Self::lemma_round_trip_replica_id(m, version, t1);
        Self::lemma_round_trip_replica_directory_id(m, version, t2);
        Self::lemma_round_trip_log_end_offset(m, version, t3);
        Self::lemma_round_trip_last_fetch_timestamp(m, version, t4);
        Self::lemma_round_trip_last_caught_up_timestamp(m, version, t5);
        Self::lemma_round_trip_tags(m, version, t6);
    }

    /// The default message holds the default value of each field of the schema.
    pub proof fn lemma_default_values()
        ensures
            Self::default_view().replica_id == (0_i32),
            Self::default_view().replica_directory_id == (KafkaUuid { most_significant_bits: 0, least_significant_bits: 0 }),
            Self::default_view().log_end_offset == (0_i64),
            Self::default_view().last_fetch_timestamp == (-1i64),
            Self::default_view().last_caught_up_timestamp == (-1i64),
            Self::default_view().unknown_tagged_fields.len() == 0,
    {
    }

    /// Each integer, boolean and identifier field is written as its standard
    /// big-endian bytes (a boolean as `1` or `0`) in the versions that carry
    /// it, and as nothing in the others; reading it takes those bytes back (any
    /// byte other than `0` reads as `true`), or gives its default value.
    pub proof fn lemma_field_encodings(m: ReplicaStateView, s: Seq<u8>, version: i16)
        ensures
            true ==> Self::spec_write_replica_id(m, version) == Ok::<Seq<u8>, (Error, Seq<u8>)>(u32_bytes(m.replica_id as u32)),
            version >= 2 ==> Self::spec_write_replica_directory_id(m, version) == Ok::<Seq<u8>, (Error, Seq<u8>)>((u64_bytes(m.replica_directory_id.most_significant_bits) + u64_bytes(m.replica_directory_id.least_significant_bits))),
            true ==> Self::spec_write_log_end_offset(m, version) == Ok::<Seq<u8>, (Error, Seq<u8>)>(u64_bytes(m.log_end_offset as u64)),
            version >= 1 ==> Self::spec_write_last_fetch_timestamp(m, version) == Ok::<Seq<u8>, (Error, Seq<u8>)>(u64_bytes(m.last_fetch_timestamp as u64)),
            version >= 1 ==> Self::spec_write_last_caught_up_timestamp(m, version) == Ok::<Seq<u8>, (Error, Seq<u8>)>(u64_bytes(m.last_caught_up_timestamp as u64)),
            true ==> Self::spec_read_replica_id(s, version) == spec_read_i32(s),
            version >= 2 ==> Self::spec_read_replica_directory_id(s, version) == spec_read_uuid(s),
            true ==> Self::spec_read_log_end_offset(s, version) == spec_read_i64(s),
            version >= 1 ==> Self::spec_read_last_fetch_timestamp(s, version) == spec_read_i64(s),
            !(version >= 1) ==> Self::spec_read_last_fetch_timestamp(s, version) == Ok::<(i64, Seq<u8>), Error>((-1i64, s)),
            version >= 1 ==> Self::spec_read_last_caught_up_timestamp(s, version) == spec_read_i64(s),
            !(version >= 1) ==> Self::spec_read_last_caught_up_timestamp(s, version) == Ok::<(i64, Seq<u8>), Error>((-1i64, s)),
    {
        reveal(ReplicaState::spec_write_replica_id);
        reveal(ReplicaState::spec_read_replica_id);
        reveal(ReplicaState::spec_write_replica_directory_id);
        reveal(ReplicaState::spec_read_replica_directory_id);
        reveal(ReplicaState::spec_write_log_end_offset);
        reveal(ReplicaState::spec_read_log_end_offset);
        reveal(ReplicaState::spec_write_last_fetch_timestamp);
        reveal(ReplicaState::spec_read_last_fetch_timestamp);
        reveal(ReplicaState::spec_write_last_caught_up_timestamp);
        reveal(ReplicaState::spec_read_last_caught_up_timestamp);
    }

    /// Whether writing `m` in `version` succeeds, said over its parts: the
    /// version is one the schema covers, every field that the version cannot
    /// carry holds its default value, and every string, byte string, array and
    /// tagged field fits its length prefix.
    pub open spec fn writable(m: ReplicaStateView, version: i16) -> bool {
        &&& (if version >= 2 {
                true
            } else {
                !(!uuid_is_nil(m.replica_directory_id))
        })
        &&& (if version >= 1 {
                true
            } else {
                !(m.last_fetch_timestamp != -1i64)
        })
        &&& (if version >= 1 {
                true
            } else {
                !(m.last_caught_up_timestamp != -1i64)
        })
        &&& m.unknown_tagged_fields.len() <= u32::MAX && tags_fit(m.unknown_tagged_fields)
    }

    proof fn lemma_writable_replica_id(m: ReplicaStateView, version: i16)
        ensures
            Self::spec_write_replica_id(m, version) is Ok <==> true,
    {
        reveal(ReplicaState::spec_write_replica_id);
    }

    proof fn lemma_writable_replica_directory_id(m: ReplicaStateView, version: i16)
        ensures
            Self::spec_write_replica_directory_id(m, version) is Ok <==> (if version >= 2 { true } else { !(!uuid_is_nil(m.replica_directory_id)) }),
    {
        reveal(ReplicaState::spec_write_replica_directory_id);
    }

    proof fn lemma_writable_log_end_offset(m: ReplicaStateView, version: i16)
        ensures
            Self::spec_write_log_end_offset(m, version) is Ok <==> true,
    {
        reveal(ReplicaState::spec_write_log_end_offset);
    }

    proof fn lemma_writable_last_fetch_timestamp(m: ReplicaStateView, version: i16)
        ensures
            Self::spec_write_last_fetch_timestamp(m, version) is Ok <==> (if version >= 1 { true } else { !(m.last_fetch_timestamp != -1i64) }),
    {
        reveal(ReplicaState::spec_write_last_fetch_timestamp);
    }

    proof fn lemma_writable_last_caught_up_timestamp(m: ReplicaStateView, version: i16)
        ensures
            Self::spec_write_last_caught_up_timestamp(m, version) is Ok <==> (if version >= 1 { true } else { !(m.last_caught_up_timestamp != -1i64) }),
    {
        reveal(ReplicaState::spec_write_last_caught_up_timestamp);
    }

    proof fn lemma_writable_tags(m: ReplicaStateView, version: i16)
        ensures
            Self::spec_write_tags(m, version) is Ok <==> m.unknown_tagged_fields.len() <= u32::MAX && tags_fit(m.unknown_tagged_fields),
    {
        reveal(ReplicaState::spec_write_tags);
        lemma_sorted_tags_fit(m.unknown_tagged_fields);
        lemma_tagged_fields_writable(sorted_by_tag(m.unknown_tagged_fields));
    }

    /// Writing `m` in `version` succeeds exactly when `m` is writable in it;
    /// so do `write` and `encoded_len`, whose results follow `spec_write`.
    #[verifier::rlimit(66)]
    pub proof fn lemma_writable(m: ReplicaStateView, version: i16)
        ensures
            Self::spec_write(m, version) is Ok <==> Self::writable(m, version),
    {
        Self::lemma_writable_replica_id(m, version);
        Self::lemma_writable_replica_directory_id(m, version);
        Self::lemma_writable_log_end_offset(m, version);
        Self::lemma_writable_last_fetch_timestamp(m, version);
        Self::lemma_writable_last_caught_up_timestamp(m, version);
        Self::lemma_writable_tags(m, version);
    }

    pub fn with_replica_id(self, value: i32) -> (r: Self)
        ensures
            r@ == (ReplicaStateView { replica_id: value, ..self@ }),
    {
        let mut r = self;
        r.replica_id = value;
        r
    }

    pub fn with_replica_directory_id(self, value: KafkaUuid) -> (r: Self)
        ensures
            r@ == (ReplicaStateView { replica_directory_id: value, ..self@ }),
    {
        let mut r = self;
        r.replica_directory_id = value;
        r
    }

    pub fn with_log_end_offset(self, value: i64) -> (r: Self)
        ensures
            r@ == (ReplicaStateView { log_end_offset: value, ..self@ }),
    {
        let mut r = self;
        r.log_end_offset = value;
        r
    }

    pub fn with_last_fetch_timestamp(self, value: i64) -> (r: Self)
        ensures
            r@ == (ReplicaStateView { last_fetch_timestamp: value, ..self@ }),
    {
        let mut r = self;
        r.last_fetch_timestamp = value;
        r
    }

    pub fn with_last_caught_up_timestamp(self, value: i64) -> (r: Self)
        ensures
            r@ == (ReplicaStateView { last_caught_up_timestamp: value, ..self@ }),
    {
        let mut r = self;
        r.last_caught_up_timestamp = value;
        r
    }

    fn read_replica_id(buf: &mut Bytes, version: i16) -> (r: Result<i32, Error>)
        ensures
            read_as(Self::spec_read_replica_id(bytes_seq(*old(buf)), version), *final(buf), r),
            took_front(*old(buf), *final(buf)),
    {
        proof {
            reveal(ReplicaState::spec_read_replica_id);
        }
        Ok(read_i32(buf)?)
    }

    fn read_replica_directory_id(buf: &mut Bytes, version: i16) -> (r: Result<KafkaUuid, Error>)
        ensures
            read_as(Self::spec_read_replica_directory_id(bytes_seq(*old(buf)), version), *final(buf), r),
            took_front(*old(buf), *final(buf)),
    {
        proof {
            reveal(ReplicaState::spec_read_replica_directory_id);
        }
        Ok(if version >= 2 {
                read_uuid(buf)?
            } else {
                KafkaUuid::zero()
        })
    }

    fn read_log_end_offset(buf: &mut Bytes, version: i16) -> (r: Result<i64, Error>)
        ensures
            read_as(Self::spec_read_log_end_offset(bytes_seq(*old(buf)), version), *final(buf), r),
            took_front(*old(buf), *final(buf)),
    {
        proof {
            reveal(ReplicaState::spec_read_log_end_offset);
        }
        Ok(read_i64(buf)?)
    }

    fn read_last_fetch_timestamp(buf: &mut Bytes, version: i16) -> (r: Result<i64, Error>)
        ensures
            read_as(Self::spec_read_last_fetch_timestamp(bytes_seq(*old(buf)), version), *final(buf), r),
            took_front(*old(buf), *final(buf)),
    {
        proof {
            reveal(ReplicaState::spec_read_last_fetch_timestamp);
        }
        Ok(if version >= 1 {
                read_i64(buf)?
            } else {
                -1i64
        })
    }

    fn read_last_caught_up_timestamp(buf: &mut Bytes, version: i16) -> (r: Result<i64, Error>)
        ensures
            read_as(Self::spec_read_last_caught_up_timestamp(bytes_seq(*old(buf)), version), *final(buf), r),
            took_front(*old(buf), *final(buf)),
    {
        proof {
            reveal(ReplicaState::spec_read_last_caught_up_timestamp);
        }
        Ok(if version >= 1 {
                read_i64(buf)?
            } else {
                -1i64
        })
    }

    fn read_tags(buf: &mut Bytes, version: i16) -> (r: Result<Vec<RawTaggedField>, Error>)
        ensures
            read_vec_as(Self::spec_read_tags(bytes_seq(*old(buf)), version), *final(buf), r),
            took_front(*old(buf), *final(buf)),
    {
        proof {
            reveal(ReplicaState::spec_read_tags);
        }
        Ok(read_tagged_fields(buf)?)
    }

    #[verifier::rlimit(56)]
    #[verifier::spinoff_prover]
    pub fn read(buf: &mut Bytes, version: i16) -> (r: Result<Self, Error>)
        ensures
            read_as(Self::spec_read(bytes_seq(*old(buf)), version), *final(buf), r),
            took_front(*old(buf), *final(buf)),
    {
        let replica_id = Self::read_replica_id(buf, version)?;
        let replica_directory_id = Self::read_replica_directory_id(buf, version)?;
        let log_end_offset = Self::read_log_end_offset(buf, version)?;
        let last_fetch_timestamp = Self::read_last_fetch_timestamp(buf, version)?;
        let last_caught_up_timestamp = Self::read_last_caught_up_timestamp(buf, version)?;
        let _unknown_tagged_fields = Self::read_tags(buf, version)?;
        Ok(ReplicaState {
                replica_id: replica_id,
                replica_directory_id: replica_directory_id,
                log_end_offset: log_end_offset,
                last_fetch_timestamp: last_fetch_timestamp,
                last_caught_up_timestamp: last_caught_up_timestamp,
                _unknown_tagged_fields: _unknown_tagged_fields,
        })
    }

    #[verifier::rlimit(90)]
    #[verifier::spinoff_prover]
    pub fn write(&self, buf: &mut BytesMut, version: i16) -> (r: Result<(), Error>)
        requires
            has_room(Self::spec_write(self@, version), *old(buf)),
        ensures
            wrote(Self::spec_write(self@, version), *old(buf), *final(buf), r),
    {
        let ghost m = self@;
        proof {
            reveal(ReplicaState::spec_write_replica_id);
            reveal(ReplicaState::spec_write_replica_directory_id);
            reveal(ReplicaState::spec_write_log_end_offset);
            reveal(ReplicaState::spec_write_last_fetch_timestamp);
            reveal(ReplicaState::spec_write_last_caught_up_timestamp);
            reveal(ReplicaState::spec_write_tags);
        }
        let ghost s0 = Self::spec_write_replica_id(m, version);
        let ghost w0 = s0;
        let ghost s1 = Self::spec_write_replica_directory_id(m, version);
        let ghost w1 = chain(w0, s1);
        let ghost s2 = Self::spec_write_log_end_offset(m, version);
        let ghost w2 = chain(w1, s2);
        let ghost s3 = Self::spec_write_last_fetch_timestamp(m, version);
        let ghost w3 = chain(w2, s3);
        let ghost s4 = Self::spec_write_last_caught_up_timestamp(m, version);
        let ghost w4 = chain(w3, s4);
        let ghost s5 = Self::spec_write_tags(m, version);
        let ghost w5 = chain(w4, s5);
        assert(Self::spec_write(m, version) == w5);
        assert(written(w4).len() <= written(w5).len() && (w4 is Err ==> w5 == w4));
        assert(written(w3).len() <= written(w5).len() && (w3 is Err ==> w5 == w3));
        assert(written(w2).len() <= written(w5).len() && (w2 is Err ==> w5 == w2));
        assert(written(w1).len() <= written(w5).len() && (w1 is Err ==> w5 == w1));
        assert(written(w0).len() <= written(w5).len() && (w0 is Err ==> w5 == w0));
        let ghost mid = bytes_mut_seq(*buf);
        proof {
            lemma_append_empty(mid);
        }
        let r0 = {
            write_i32(buf, self.replica_id);
            Ok(())
        };
        assert(bytes_mut_seq(*buf) == mid + written(s0));
        if r0.is_err() {
            return r0;
        }
        let ghost mid = bytes_mut_seq(*buf);
        proof {
            lemma_append_empty(mid);
        }
        let r1 = if version >= 2 {
            {
                write_uuid(buf, self.replica_directory_id);
                Ok(())
            }
        } else {
            if !self.replica_directory_id.is_nil() {
                Err(Error::UnsupportedFieldVersion(UnsupportedFieldVersion::new(55, "replica_directory_id", version)))
            } else {
                Ok(())
            }
        };
        assert(bytes_mut_seq(*buf) == mid + written(s1));
        proof {
            lemma_step(bytes_mut_seq(*old(buf)), w0, s1);
        }
        if r1.is_err() {
            return r1;
        }
        let ghost mid = bytes_mut_seq(*buf);
        proof {
            lemma_append_empty(mid);
        }
        let r2 = {
            write_i64(buf, self.log_end_offset);
            Ok(())
        };
        assert(bytes_mut_seq(*buf) == mid + written(s2));
        proof {
            lemma_step(bytes_mut_seq(*old(buf)), w1, s2);
        }
        if r2.is_err() {
            return r2;
        }
        let ghost mid = bytes_mut_seq(*buf);
        proof {
            lemma_append_empty(mid);
        }
        let r3 = if version >= 1 {
            {
                write_i64(buf, self.last_fetch_timestamp);
                Ok(())
            }
        } else {
            if self.last_fetch_timestamp != -1i64 {
                Err(Error::UnsupportedFieldVersion(UnsupportedFieldVersion::new(55, "last_fetch_timestamp", version)))
            } else {
                Ok(())
            }
        };
        assert(bytes_mut_seq(*buf) == mid + written(s3));
        proof {
            lemma_step(bytes_mut_seq(*old(buf)), w2, s3);
        }
        if r3.is_err() {
            return r3;
        }
        let ghost mid = bytes_mut_seq(*buf);
        proof {
            lemma_append_empty(mid);
        }
        let r4 = if version >= 1 {
            {
                write_i64(buf, self.last_caught_up_timestamp);
                Ok(())
            }
        } else {
            if self.last_caught_up_timestamp != -1i64 {
                Err(Error::UnsupportedFieldVersion(UnsupportedFieldVersion::new(55, "last_caught_up_timestamp", version)))
            } else {
                Ok(())
            }
        };
        assert(bytes_mut_seq(*buf) == mid + written(s4));
        proof {
            lemma_step(bytes_mut_seq(*old(buf)), w3, s4);
        }
        if r4.is_err() {
            return r4;
        }
        let ghost mid = bytes_mut_seq(*buf);
        proof {
            lemma_append_empty(mid);
        }
        let r5 = write_tagged_fields(buf, &sort_by_tag(&self._unknown_tagged_fields));
        assert(bytes_mut_seq(*buf) == mid + written(s5));
        proof {
            lemma_step(bytes_mut_seq(*old(buf)), w4, s5);
        }
        if r5.is_err() {
            return r5;
        }
        Ok(())
    }

    #[verifier::rlimit(90)]
    #[verifier::spinoff_prover]
    pub fn encoded_len(&self, version: i16) -> (r: Result<usize, Error>)
        ensures
            r == len_result(Self::spec_write(self@, version)),
    {
        let ghost m = self@;
        proof {
            reveal(ReplicaState::spec_write_replica_id);
            reveal(ReplicaState::spec_write_replica_directory_id);
            reveal(ReplicaState::spec_write_log_end_offset);
            reveal(ReplicaState::spec_write_last_fetch_timestamp);
            reveal(ReplicaState::spec_write_last_caught_up_timestamp);
            reveal(ReplicaState::spec_write_tags);
        }
        let ghost s0 = Self::spec_write_replica_id(m, version);
        let ghost w0 = s0;
        let ghost s1 = Self::spec_write_replica_directory_id(m, version);
        let ghost w1 = chain(w0, s1);
        let ghost s2 = Self::spec_write_log_end_offset(m, version);
        let ghost w2 = chain(w1, s2);
        let ghost s3 = Self::spec_write_last_fetch_timestamp(m, version);
        let ghost w3 = chain(w2, s3);
        let ghost s4 = Self::spec_write_last_caught_up_timestamp(m, version);
        let ghost w4 = chain(w3, s4);
        let ghost s5 = Self::spec_write_tags(m, version);
        let ghost w5 = chain(w4, s5);
        assert(Self::spec_write(m, version) == w5);
        assert(w4 is Err ==> w5 == w4);
        assert(w3 is Err ==> w5 == w3);
        assert(w2 is Err ==> w5 == w2);
        assert(w1 is Err ==> w5 == w1);
        assert(w0 is Err ==> w5 == w0);
        let mut len: usize = 0;
        let l0 = Ok(4);
        assert(l0 == len_result(s0));
        let n0 = match l0 {
            Ok(n) => n,
            Err(e) => {
                return Err(e);
            },
        };
        len = saturating_sum(len, n0);
        assert(w0 is Ok && len == saturate(written(w0).len() as int));
        let l1 = if version >= 2 {
            Ok(16)
        } else {
            if !self.replica_directory_id.is_nil() {
                Err(Error::UnsupportedFieldVersion(UnsupportedFieldVersion::new(55, "replica_directory_id", version)))
            } else {
                Ok(0)
            }
        };
        assert(l1 == len_result(s1));
        let n1 = match l1 {
            Ok(n) => n,
            Err(e) => {
                return Err(e);
            },
        };
        proof {
            lemma_len_step(w0, s1, n1);
        }
        len = saturating_sum(len, n1);
        assert(w1 is Ok && len == saturate(written(w1).len() as int));
        let l2 = Ok(8);
        assert(l2 == len_result(s2));
        let n2 = match l2 {
            Ok(n) => n,
            Err(e) => {
                return Err(e);
            },
        };
        proof {
            lemma_len_step(w1, s2, n2);
        }
        len = saturating_sum(len, n2);
        assert(w2 is Ok && len == saturate(written(w2).len() as int));
        let l3 = if version >= 1 {
            Ok(8)
        } else {
            if self.last_fetch_timestamp != -1i64 {
                Err(Error::UnsupportedFieldVersion(UnsupportedFieldVersion::new(55, "last_fetch_timestamp", version)))
            } else {
                Ok(0)
            }
        };
        assert(l3 == len_result(s3));
        let n3 = match l3 {
            Ok(n) => n,
            Err(e) => {
                return Err(e);
            },
        };
        proof {
            lemma_len_step(w2, s3, n3);
        }
        len = saturating_sum(len, n3);
        assert(w3 is Ok && len == saturate(written(w3).len() as int));
        let l4 = if version >= 1 {
            Ok(8)
        } else {
            if self.last_caught_up_timestamp != -1i64 {
                Err(Error::UnsupportedFieldVersion(UnsupportedFieldVersion::new(55, "last_caught_up_timestamp", version)))
            } else {
                Ok(0)
            }
        };
        assert(l4 == len_result(s4));
        let n4 = match l4 {
            Ok(n) => n,
            Err(e) => {
                return Err(e);
            },
        };
        proof {
            lemma_len_step(w3, s4, n4);
        }
        len = saturating_sum(len, n4);
        assert(w4 is Ok && len == saturate(written(w4).len() as int));
        let l5 = tagged_fields_len(&sort_by_tag(&self._unknown_tagged_fields));
        assert(l5 == len_result(s5));
        let n5 = match l5 {
            Ok(n) => n,
            Err(e) => {
                return Err(e);
            },
        };
        proof {
            lemma_len_step(w4, s5, n5);
        }
        len = saturating_sum(len, n5);
        assert(w5 is Ok && len == saturate(written(w5).len() as int));
        Ok(len)
    }
}

impl Codec for TopicData {
    type Item = TopicData;

    open spec fn spec_read_item(s: Seq<u8>, version: i16) -> ReadOutcome<TopicDataView> {
        TopicData::spec_read(s, version)
    }

    open spec fn spec_write_item(v: TopicDataView, version: i16) -> WriteOutcome {
        TopicData::spec_write(v, version)
    }

    open spec fn canonical_item(v: TopicDataView, version: i16) -> bool {
        TopicData::canonical(v, version)
    }

    proof fn lemma_item_round_trip(v: TopicDataView, version: i16, rest: Seq<u8>) {
        TopicData::lemma_round_trip(v, version, rest);
    }

    open spec fn writable_item(v: TopicDataView, version: i16) -> bool {
        TopicData::writable(v, version)
    }

    proof fn lemma_item_writable(v: TopicDataView, version: i16) {
        TopicData::lemma_writable(v, version);
    }

    fn read_item(buf: &mut Bytes, version: i16) -> (r: Result<TopicData, Error>) {
        TopicData::read(buf, version)
    }

    fn write_item(item: &TopicData, buf: &mut BytesMut, version: i16) -> (r: Result<(), Error>) {
        item.write(buf, version)
    }
}

impl MeasuredCodec for TopicData {
    fn item_len(item: &TopicData, version: i16) -> (r: Result<usize, Error>) {
        item.encoded_len(version)
    }
}

impl Codec for PartitionData {
    type Item = PartitionData;

    open spec fn spec_read_item(s: Seq<u8>, version: i16) -> ReadOutcome<PartitionDataView> {
        PartitionData::spec_read(s, version)
    }

    open spec fn spec_write_item(v: PartitionDataView, version: i16) -> WriteOutcome {
        PartitionData::spec_write(v, version)
    }

    open spec fn canonical_item(v: PartitionDataView, version: i16) -> bool {
        PartitionData::canonical(v, version)
    }

    proof fn lemma_item_round_trip(v: PartitionDataView, version: i16, rest: Seq<u8>) {
        PartitionData::lemma_round_trip(v, version, rest);
    }

    open spec fn writable_item(v: PartitionDataView, version: i16) -> bool {
        PartitionData::writable(v, version)
    }

    proof fn lemma_item_writable(v: PartitionDataView, version: i16) {
        PartitionData::lemma_writable(v, version);
    }

    fn read_item(buf: &mut Bytes, version: i16) -> (r: Result<PartitionData, Error>) {
        PartitionData::read(buf, version)
    }

    fn write_item(item: &PartitionData, buf: &mut BytesMut, version: i16) -> (r: Result<(), Error>) {
        item.write(buf, version)
    }
}

impl MeasuredCodec for PartitionData {
    fn item_len(item: &PartitionData, version: i16) -> (r: Result<usize, Error>) {
        item.encoded_len(version)
    }
}

impl Codec for Node {
    type Item = Node;

    open spec fn spec_read_item(s: Seq<u8>, version: i16) -> ReadOutcome<NodeView> {
        Node::spec_read(s, version)
    }

    open spec fn spec_write_item(v: NodeView, version: i16) -> WriteOutcome {
        Node::spec_write(v, version)
    }

    open spec fn canonical_item(v: NodeView, version: i16) -> bool {
        Node::canonical(v, version)
    }

    proof fn lemma_item_round_trip(v: NodeView, version: i16, rest: Seq<u8>) {
        Node::lemma_round_trip(v, version, rest);
    }

    open spec fn writable_item(v: NodeView, version: i16) -> bool {
        Node::writable(v, version)
    }

    proof fn lemma_item_writable(v: NodeView, version: i16) {
        Node::lemma_writable(v, version);
    }

    fn read_item(buf: &mut Bytes, version: i16) -> (r: Result<Node, Error>) {
        Node::read(buf, version)
    }

    fn write_item(item: &Node, buf: &mut BytesMut, version: i16) -> (r: Result<(), Error>) {
        item.write(buf, version)
    }
}

impl MeasuredCodec for Node {
    fn item_len(item: &Node, version: i16) -> (r: Result<usize, Error>) {
        item.encoded_len(version)
    }
}

impl Codec for Listener {
    type Item = Listener;

    open spec fn spec_read_item(s: Seq<u8>, version: i16) -> ReadOutcome<ListenerView> {
        Listener::spec_read(s, version)
    }

    open spec fn spec_write_item(v: ListenerView, version: i16) -> WriteOutcome {
        Listener::spec_write(v, version)
    }

    open spec fn canonical_item(v: ListenerView, version: i16) -> bool {
        Listener::canonical(v, version)
    }

    proof fn lemma_item_round_trip(v: ListenerView, version: i16, rest: Seq<u8>) {
        Listener::lemma_round_trip(v, version, rest);
    }

    open spec fn writable_item(v: ListenerView, version: i16) -> bool {
        Listener::writable(v, version)
    }

    proof fn lemma_item_writable(v: ListenerView, version: i16) {
        Listener::lemma_writable(v, version);
    }

    fn read_item(buf: &mut Bytes, version: i16) -> (r: Result<Listener, Error>) {
        Listener::read(buf, version)
    }

    fn write_item(item: &Listener, buf: &mut BytesMut, version: i16) -> (r: Result<(), Error>) {
        item.write(buf, version)
    }
}

impl MeasuredCodec for Listener {
    fn item_len(item: &Listener, version: i16) -> (r: Result<usize, Error>) {
        item.encoded_len(version)
    }
}

impl Codec for ReplicaState {
    type Item = ReplicaState;

    open spec fn spec_read_item(s: Seq<u8>, version: i16) -> ReadOutcome<ReplicaStateView> {
        ReplicaState::spec_read(s, version)
    }

    open spec fn spec_write_item(v: ReplicaStateView, version: i16) -> WriteOutcome {
        ReplicaState::spec_write(v, version)
    }

    open spec fn canonical_item(v: ReplicaStateView, version: i16) -> bool {
        ReplicaState::canonical(v, version)
    }

    proof fn lemma_item_round_trip(v: ReplicaStateView, version: i16, rest: Seq<u8>) {
        ReplicaState::lemma_round_trip(v, version, rest);
    }

    open spec fn writable_item(v: ReplicaStateView, version: i16) -> bool {
        ReplicaState::writable(v, version)
    }

    proof fn lemma_item_writable(v: ReplicaStateView, version: i16) {
        ReplicaState::lemma_writable(v, version);
    }

    fn read_item(buf: &mut Bytes, version: i16) -> (r: Result<ReplicaState, Error>) {
        ReplicaState::read(buf, version)
    }

    fn write_item(item: &ReplicaState, buf: &mut BytesMut, version: i16) -> (r: Result<(), Error>) {
        item.write(buf, version)
    }
}

impl MeasuredCodec for ReplicaState {
    fn item_len(item: &ReplicaState, version: i16) -> (r: Result<usize, Error>) {
        item.encoded_len(version)
    }
}

} // verus!
