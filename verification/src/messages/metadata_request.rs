//! The metadata request message.
use crate::buffer::{bytes_mut_seq, bytes_seq};
use crate::codec::{Codec, MeasuredCodec, all_canonical, all_writable, lemma_nullable_array_round_trip, lemma_nullable_array_writable, nullable_array_len, opt_views, read_array, read_nullable_array, saturating_sum, spec_read_array, spec_read_nullable_array, spec_write_nullable_array, write_nullable_array};
use crate::error::{Error, UnsupportedFieldVersion, UnsupportedVersion};
use crate::ints::{lemma_bool_roundtrip, read_bool, spec_read_bool, spec_write_bool, u64_bytes, write_bool};
use crate::strings::{compact_nullable_string_len, compact_string_len, lemma_compact_nullable_string_round_trip, lemma_compact_string_round_trip, lemma_string_round_trip, lemma_uuid_round_trip, read_compact_nullable_string, read_compact_string, read_string, read_uuid, spec_read_compact_nullable_string, spec_read_compact_string, spec_read_string, spec_read_uuid, spec_write_compact_nullable_string, spec_write_compact_string, spec_write_string, spec_write_uuid, string_len, write_compact_nullable_string, write_compact_string, write_string, write_uuid};
use crate::tagged::{lemma_sorted_by_tag_in_order, lemma_sorted_tags_fit, lemma_tagged_fields_round_trip, lemma_tagged_fields_writable, read_tagged_fields, sort_by_tag, sorted_by_tag, spec_read_tagged_fields, spec_write_tagged_fields, tagged_fields_len, tags_fit, tags_in_order, write_tagged_fields};
use crate::types::{KafkaString, KafkaUuid, RawTaggedField, uuid_is_nil};
use crate::wire::{ReadOutcome, ViewClone, WriteOutcome, chain, clone_vec, emit, empty_vec, fail, has_room, lemma_append_empty, lemma_chain_written, lemma_len_step, lemma_step, len_result, opt_view, read_as, read_opt_as, read_opt_vec_as, read_vec_as, saturate, some_of, took_front, unwrap_or_empty, views, written, wrote};
use bytes::{Bytes, BytesMut};
use vstd::prelude::*;

verus! {

broadcast use {crate::wire::lemma_chain_written, crate::wire::lemma_took_front_nothing, crate::wire::lemma_took_front_twice};

#[derive(Debug, PartialEq)]
pub struct MetadataRequestData {
    /// The topics to fetch metadata for.
    pub topics: Option<Vec<MetadataRequestTopic>>,
    /// If this is true, the broker may auto-create topics that we requested which do not already
    /// exist, if it is configured to do so.
    pub allow_auto_topic_creation: bool,
    /// Whether to include cluster authorized operations.
    pub include_cluster_authorized_operations: bool,
    /// Whether to include topic authorized operations.
    pub include_topic_authorized_operations: bool,
    pub _unknown_tagged_fields: Vec<RawTaggedField>,
}

/// What a `MetadataRequestData` holds, as the specification sees it.
#[verifier::ext_equal]
pub struct MetadataRequestDataView {
    pub topics: Option<Seq<MetadataRequestTopicView>>,
    pub allow_auto_topic_creation: bool,
    pub include_cluster_authorized_operations: bool,
    pub include_topic_authorized_operations: bool,
    pub unknown_tagged_fields: Seq<(u32, Seq<u8>)>,
}

impl View for MetadataRequestData {
    type V = MetadataRequestDataView;

    open spec fn view(&self) -> MetadataRequestDataView {
        MetadataRequestDataView {
            topics: opt_views(self.topics),
            allow_auto_topic_creation: self.allow_auto_topic_creation,
            include_cluster_authorized_operations: self.include_cluster_authorized_operations,
            include_topic_authorized_operations: self.include_topic_authorized_operations,
            unknown_tagged_fields: views(self._unknown_tagged_fields@),
        }
    }
}

impl Clone for MetadataRequestData {
    fn clone(&self) -> (r: Self)
        ensures
            r@ == self@,
    {
        let r = MetadataRequestData {
            topics: match &self.topics {
                Some(x) => Some(clone_vec(x)),
                None => None,
            },
            allow_auto_topic_creation: self.allow_auto_topic_creation,
            include_cluster_authorized_operations: self.include_cluster_authorized_operations,
            include_topic_authorized_operations: self.include_topic_authorized_operations,
            _unknown_tagged_fields: clone_vec(&self._unknown_tagged_fields),
        };
        assert(r@ =~= self@);
        r
    }
}

impl ViewClone for MetadataRequestData {
    fn clone_view(&self) -> (r: Self) {
        self.clone()
    }
}

impl Default for MetadataRequestData {
    fn default() -> (r: Self)
        ensures
            r@ == Self::default_view(),
    {
        let r = MetadataRequestData {
            topics: None,
            allow_auto_topic_creation: true,
            include_cluster_authorized_operations: false,
            include_topic_authorized_operations: false,
            _unknown_tagged_fields: empty_vec(),
        };
        assert(r@ =~= Self::default_view());
        r
    }
}

impl MetadataRequestData {
    pub open spec fn default_view() -> MetadataRequestDataView {
        MetadataRequestDataView {
            topics: None,
            allow_auto_topic_creation: true,
            include_cluster_authorized_operations: false,
            include_topic_authorized_operations: false,
            unknown_tagged_fields: Seq::empty(),
        }
    }

    /// The `topics` field, read from the front of `s`.
    #[verifier::opaque]
    pub open spec fn spec_read_topics(s: Seq<u8>, version: i16) -> ReadOutcome<Option<Seq<MetadataRequestTopicView>>> {
        if version >= 1 {
            if version >= 9 {
                spec_read_nullable_array::<MetadataRequestTopic>(s, version, true)
            } else {
                spec_read_nullable_array::<MetadataRequestTopic>(s, version, false)
            }
        } else {
            some_of(spec_read_array::<MetadataRequestTopic>(s, version, false))
        }
    }

    /// The `allow_auto_topic_creation` field, read from the front of `s`.
    #[verifier::opaque]
    pub open spec fn spec_read_allow_auto_topic_creation(s: Seq<u8>, version: i16) -> ReadOutcome<bool> {
        if version >= 4 {
            spec_read_bool(s)
        } else {
            Ok((true, s))
        }
    }

    /// The `include_cluster_authorized_operations` field, read from the front of `s`.
    #[verifier::opaque]
    pub open spec fn spec_read_include_cluster_authorized_operations(s: Seq<u8>, version: i16) -> ReadOutcome<bool> {
        if version >= 8 && version <= 10 {
            spec_read_bool(s)
        } else {
            Ok((false, s))
        }
    }

    /// The `include_topic_authorized_operations` field, read from the front of `s`.
    #[verifier::opaque]
    pub open spec fn spec_read_include_topic_authorized_operations(s: Seq<u8>, version: i16) -> ReadOutcome<bool> {
        if version >= 8 {
            spec_read_bool(s)
        } else {
            Ok((false, s))
        }
    }

    /// The tagged fields, read from the front of `s`.
    #[verifier::opaque]
    pub open spec fn spec_read_tags(s: Seq<u8>, version: i16) -> ReadOutcome<Seq<(u32, Seq<u8>)>> {
        if version >= 9 {
            spec_read_tagged_fields(s)
        } else {
            Ok((Seq::empty(), s))
        }
    }

    pub open spec fn spec_read(s: Seq<u8>, version: i16) -> ReadOutcome<MetadataRequestDataView> {
        if version < 0 || version > 13 {
            Err(Error::UnsupportedVersion(UnsupportedVersion { api_key: 3, version }))
        } else {
            match (Self::spec_read_topics(s, version)) {
                Err(e) => Err(e),
                Ok((topics, s)) => match (Self::spec_read_allow_auto_topic_creation(s, version)) {
                    Err(e) => Err(e),
                    Ok((allow_auto_topic_creation, s)) => match (Self::spec_read_include_cluster_authorized_operations(s, version)) {
                        Err(e) => Err(e),
                        Ok((include_cluster_authorized_operations, s)) => match (Self::spec_read_include_topic_authorized_operations(s, version)) {
                            Err(e) => Err(e),
                            Ok((include_topic_authorized_operations, s)) => match (Self::spec_read_tags(s, version)) {
                                Err(e) => Err(e),
                                Ok((unknown_tagged_fields, s)) => Ok((MetadataRequestDataView {
                                            topics: topics,
                                            allow_auto_topic_creation: allow_auto_topic_creation,
                                            include_cluster_authorized_operations: include_cluster_authorized_operations,
                                            include_topic_authorized_operations: include_topic_authorized_operations,
                                            unknown_tagged_fields: unknown_tagged_fields,
                                        }, s)),
                            },
                        },
                    },
                },
            }
        }
    }

    /// What writing the `topics` field of `m` appends.
    #[verifier::opaque]
    pub open spec fn spec_write_topics(m: MetadataRequestDataView, version: i16) -> WriteOutcome {
        if version >= 1 {
            if version >= 9 {
                spec_write_nullable_array::<MetadataRequestTopic>(m.topics, version, true, -1i32)
            } else {
                spec_write_nullable_array::<MetadataRequestTopic>(m.topics, version, false, -1i32)
            }
        } else {
            spec_write_nullable_array::<MetadataRequestTopic>(m.topics, version, false, 0i32)
        }
    }

    /// What writing the `allow_auto_topic_creation` field of `m` appends.
    #[verifier::opaque]
    pub open spec fn spec_write_allow_auto_topic_creation(m: MetadataRequestDataView, version: i16) -> WriteOutcome {
        if version >= 4 {
            spec_write_bool(m.allow_auto_topic_creation)
        } else {
            if m.allow_auto_topic_creation != true {
                fail(Error::UnsupportedFieldVersion(UnsupportedFieldVersion { api_key: 3, field: "allow_auto_topic_creation", version }))
            } else {
                emit(Seq::empty())
            }
        }
    }

    /// What writing the `include_cluster_authorized_operations` field of `m` appends.
    #[verifier::opaque]
    pub open spec fn spec_write_include_cluster_authorized_operations(m: MetadataRequestDataView, version: i16) -> WriteOutcome {
        if version >= 8 && version <= 10 {
            spec_write_bool(m.include_cluster_authorized_operations)
        } else {
            if m.include_cluster_authorized_operations != false {
                fail(Error::UnsupportedFieldVersion(UnsupportedFieldVersion { api_key: 3, field: "include_cluster_authorized_operations", version }))
            } else {
                emit(Seq::empty())
            }
        }
    }

    /// What writing the `include_topic_authorized_operations` field of `m` appends.
    #[verifier::opaque]
    pub open spec fn spec_write_include_topic_authorized_operations(m: MetadataRequestDataView, version: i16) -> WriteOutcome {
        if version >= 8 {
            spec_write_bool(m.include_topic_authorized_operations)
        } else {
            if m.include_topic_authorized_operations != false {
                fail(Error::UnsupportedFieldVersion(UnsupportedFieldVersion { api_key: 3, field: "include_topic_authorized_operations", version }))
            } else {
                emit(Seq::empty())
            }
        }
    }

    /// What writing the tagged fields of `m` appends.
    #[verifier::opaque]
    pub open spec fn spec_write_tags(m: MetadataRequestDataView, version: i16) -> WriteOutcome {
        if version >= 9 {
            spec_write_tagged_fields(sorted_by_tag(m.unknown_tagged_fields))
        } else {
            emit(Seq::empty())
        }
    }

    pub open spec fn spec_write(m: MetadataRequestDataView, version: i16) -> WriteOutcome {
        if version < 0 || version > 13 {
            fail(Error::UnsupportedVersion(UnsupportedVersion { api_key: 3, version }))
        } else {
            chain(
                chain(
                    chain(
                        chain(
                            Self::spec_write_topics(m, version),
                            Self::spec_write_allow_auto_topic_creation(m, version),
                        ),
                        Self::spec_write_include_cluster_authorized_operations(m, version),
                    ),
                    Self::spec_write_include_topic_authorized_operations(m, version),
                ),
                Self::spec_write_tags(m, version),
            )
        }
    }

    /// Whether reading back what writing `m` in `version` appends gives `m`:
    /// fields that the version does not carry hold their default values, and
    /// tagged fields come in the order in which they are written.
    pub open spec fn canonical(m: MetadataRequestDataView, version: i16) -> bool {
        &&& (if version >= 1 {
                (m.topics matches Some(xs) ==> all_canonical::<MetadataRequestTopic>(xs, version))
            } else {
                (m.topics matches Some(xs) && all_canonical::<MetadataRequestTopic>(xs, version))
        })
        &&& (if version >= 9 {
                tags_in_order(m.unknown_tagged_fields)
            } else {
                m.unknown_tagged_fields.len() == 0
        })
    }

    proof fn lemma_round_trip_topics(m: MetadataRequestDataView, version: i16, rest: Seq<u8>)
        requires
            Self::canonical(m, version),
            Self::spec_write_topics(m, version) is Ok,
        ensures
            Self::spec_read_topics(written(Self::spec_write_topics(m, version)) + rest, version) == Ok::<(Option<Seq<MetadataRequestTopicView>>, Seq<u8>), Error>((m.topics, rest)),
    {
        reveal(MetadataRequestData::spec_read_topics);
        reveal(MetadataRequestData::spec_write_topics);
        if version >= 1 {
            if version >= 9 {
                lemma_nullable_array_round_trip::<MetadataRequestTopic>(m.topics, version, true, -1i32, rest);
            } else {
                lemma_nullable_array_round_trip::<MetadataRequestTopic>(m.topics, version, false, -1i32, rest);
            }
        } else {
            lemma_nullable_array_round_trip::<MetadataRequestTopic>(m.topics, version, false, 0i32, rest);
        }
    }

    proof fn lemma_round_trip_allow_auto_topic_creation(m: MetadataRequestDataView, version: i16, rest: Seq<u8>)
        requires
            Self::canonical(m, version),
            Self::spec_write_allow_auto_topic_creation(m, version) is Ok,
        ensures
            Self::spec_read_allow_auto_topic_creation(written(Self::spec_write_allow_auto_topic_creation(m, version)) + rest, version) == Ok::<(bool, Seq<u8>), Error>((m.allow_auto_topic_creation, rest)),
    {
        reveal(MetadataRequestData::spec_read_allow_auto_topic_creation);
        reveal(MetadataRequestData::spec_write_allow_auto_topic_creation);
        if version >= 4 {
            lemma_bool_roundtrip(m.allow_auto_topic_creation, rest);
        } else {
            assert(Seq::<u8>::empty() + rest =~= rest);
        }
    }

    proof fn lemma_round_trip_include_cluster_authorized_operations(m: MetadataRequestDataView, version: i16, rest: Seq<u8>)
        requires
            Self::canonical(m, version),
            Self::spec_write_include_cluster_authorized_operations(m, version) is Ok,
        ensures
            Self::spec_read_include_cluster_authorized_operations(written(Self::spec_write_include_cluster_authorized_operations(m, version)) + rest, version) == Ok::<(bool, Seq<u8>), Error>((m.include_cluster_authorized_operations, rest)),
    {
        reveal(MetadataRequestData::spec_read_include_cluster_authorized_operations);
        reveal(MetadataRequestData::spec_write_include_cluster_authorized_operations);
        if version >= 8 && version <= 10 {
            lemma_bool_roundtrip(m.include_cluster_authorized_operations, rest);
        } else {
            assert(Seq::<u8>::empty() + rest =~= rest);
        }
    }

    proof fn lemma_round_trip_include_topic_authorized_operations(m: MetadataRequestDataView, version: i16, rest: Seq<u8>)
        requires
            Self::canonical(m, version),
            Self::spec_write_include_topic_authorized_operations(m, version) is Ok,
        ensures
            Self::spec_read_include_topic_authorized_operations(written(Self::spec_write_include_topic_authorized_operations(m, version)) + rest, version) == Ok::<(bool, Seq<u8>), Error>((m.include_topic_authorized_operations, rest)),
    {
        reveal(MetadataRequestData::spec_read_include_topic_authorized_operations);
        reveal(MetadataRequestData::spec_write_include_topic_authorized_operations);
        if version >= 8 {
            lemma_bool_roundtrip(m.include_topic_authorized_operations, rest);
        } else {
            assert(Seq::<u8>::empty() + rest =~= rest);
        }
    }

    proof fn lemma_round_trip_tags(m: MetadataRequestDataView, version: i16, rest: Seq<u8>)
        requires
            Self::canonical(m, version),
            Self::spec_write_tags(m, version) is Ok,
        ensures
            Self::spec_read_tags(written(Self::spec_write_tags(m, version)) + rest, version) == Ok::<(Seq<(u32, Seq<u8>)>, Seq<u8>), Error>((m.unknown_tagged_fields, rest)),
    {
        reveal(MetadataRequestData::spec_read_tags);
        reveal(MetadataRequestData::spec_write_tags);
        if version >= 9 {
            lemma_sorted_by_tag_in_order(m.unknown_tagged_fields);
            lemma_tagged_fields_round_trip(m.unknown_tagged_fields, rest);
        } else {
            assert(Seq::<u8>::empty() + rest =~= rest);
            assert(m.unknown_tagged_fields =~= Seq::empty());
        }
    }

    /// Reading back what writing `m` in `version` appends gives `m` again, and
    /// leaves what follows, for every canonical message whose write succeeds.
    #[verifier::rlimit(90)]
    #[verifier::spinoff_prover]
    pub proof fn lemma_round_trip(m: MetadataRequestDataView, version: i16, rest: Seq<u8>)
        requires
            Self::canonical(m, version),
            Self::spec_write(m, version) is Ok,
        ensures
            Self::spec_read(written(Self::spec_write(m, version)) + rest, version) == Ok::<(MetadataRequestDataView, Seq<u8>), Error>((m, rest)),
    {
        let b0 = written(Self::spec_write_topics(m, version));
        let b1 = written(Self::spec_write_allow_auto_topic_creation(m, version));
        let b2 = written(Self::spec_write_include_cluster_authorized_operations(m, version));
        let b3 = written(Self::spec_write_include_topic_authorized_operations(m, version));
        let b4 = written(Self::spec_write_tags(m, version));
        let t5 = rest;
        let t4 = b4 + t5;
        let t3 = b3 + t4;
        let t2 = b2 + t3;
        let t1 = b1 + t2;
        let t0 = b0 + t1;
        let w0 = Self::spec_write_topics(m, version);
        let w1 = chain(w0, Self::spec_write_allow_auto_topic_creation(m, version));
        let w2 = chain(w1, Self::spec_write_include_cluster_authorized_operations(m, version));
        let w3 = chain(w2, Self::spec_write_include_topic_authorized_operations(m, version));
        let w4 = chain(w3, Self::spec_write_tags(m, version));
        assert(Self::spec_write(m, version) == w4);
        assert(written(w4) + t5 =~= written(w3) + t4);
        assert(written(w3) + t4 =~= written(w2) + t3);
        assert(written(w2) + t3 =~= written(w1) + t2);
        assert(written(w1) + t2 =~= written(w0) + t1);
        Self::lemma_round_trip_topics(m, version, t1);
        Self::lemma_round_trip_allow_auto_topic_creation(m, version, t2);
        Self::lemma_round_trip_include_cluster_authorized_operations(m, version, t3);
        Self::lemma_round_trip_include_topic_authorized_operations(m, version, t4);
        Self::lemma_round_trip_tags(m, version, t5);
    }

    /// In a version that does not carry `unknown_tagged_fields`, writing ignores its value.
    pub proof fn lemma_write_ignores_unknown_tagged_fields(m: MetadataRequestDataView, value: Seq<(u32, Seq<u8>)>, version: i16)
        requires
            !(version >= 9),
        ensures
            Self::spec_write((MetadataRequestDataView { unknown_tagged_fields: value, ..m }), version) == Self::spec_write(m, version),
    {
        reveal(MetadataRequestData::spec_write_topics);
        reveal(MetadataRequestData::spec_write_allow_auto_topic_creation);
        reveal(MetadataRequestData::spec_write_include_cluster_authorized_operations);
        reveal(MetadataRequestData::spec_write_include_topic_authorized_operations);
        reveal(MetadataRequestData::spec_write_tags);
    }

    /// The default message holds the default value of each field of the schema.
    pub proof fn lemma_default_values()
        ensures
            (Self::default_view().topics is None),
            Self::default_view().allow_auto_topic_creation == (true),
            Self::default_view().include_cluster_authorized_operations == (false),
            Self::default_view().include_topic_authorized_operations == (false),
            Self::default_view().unknown_tagged_fields.len() == 0,
    {
    }

    /// Each integer, boolean and identifier field is written as its standard
    /// big-endian bytes (a boolean as `1` or `0`) in the versions that carry
    /// it, and as nothing in the others; reading it takes those bytes back (any
    /// byte other than `0` reads as `true`), or gives its default value.
    pub proof fn lemma_field_encodings(m: MetadataRequestDataView, s: Seq<u8>, version: i16)
        ensures
            version >= 4 ==> Self::spec_write_allow_auto_topic_creation(m, version) == Ok::<Seq<u8>, (Error, Seq<u8>)>(seq![if m.allow_auto_topic_creation { 1u8 } else { 0u8 }]),
            version >= 8 && version <= 10 ==> Self::spec_write_include_cluster_authorized_operations(m, version) == Ok::<Seq<u8>, (Error, Seq<u8>)>(seq![if m.include_cluster_authorized_operations { 1u8 } else { 0u8 }]),
            version >= 8 ==> Self::spec_write_include_topic_authorized_operations(m, version) == Ok::<Seq<u8>, (Error, Seq<u8>)>(seq![if m.include_topic_authorized_operations { 1u8 } else { 0u8 }]),
            version >= 4 ==> Self::spec_read_allow_auto_topic_creation(s, version) == (if s.len() < 1 { Err(Error::UnexpectedEof) } else { Ok((s[0] != 0, s.drop_first())) }),
            !(version >= 4) ==> Self::spec_read_allow_auto_topic_creation(s, version) == Ok::<(bool, Seq<u8>), Error>((true, s)),
            version >= 8 && version <= 10 ==> Self::spec_read_include_cluster_authorized_operations(s, version) == (if s.len() < 1 { Err(Error::UnexpectedEof) } else { Ok((s[0] != 0, s.drop_first())) }),
            !(version >= 8 && version <= 10) ==> Self::spec_read_include_cluster_authorized_operations(s, version) == Ok::<(bool, Seq<u8>), Error>((false, s)),
            version >= 8 ==> Self::spec_read_include_topic_authorized_operations(s, version) == (if s.len() < 1 { Err(Error::UnexpectedEof) } else { Ok((s[0] != 0, s.drop_first())) }),
            !(version >= 8) ==> Self::spec_read_include_topic_authorized_operations(s, version) == Ok::<(bool, Seq<u8>), Error>((false, s)),
    {
        reveal(MetadataRequestData::spec_write_allow_auto_topic_creation);
        reveal(MetadataRequestData::spec_read_allow_auto_topic_creation);
        reveal(MetadataRequestData::spec_write_include_cluster_authorized_operations);
        reveal(MetadataRequestData::spec_read_include_cluster_authorized_operations);
        reveal(MetadataRequestData::spec_write_include_topic_authorized_operations);
        reveal(MetadataRequestData::spec_read_include_topic_authorized_operations);
    }

    /// Whether writing `m` in `version` succeeds, said over its parts: the
    /// version is one the schema covers, every field that the version cannot
    /// carry holds its default value, and every string, byte string, array and
    /// tagged field fits its length prefix.
    pub open spec fn writable(m: MetadataRequestDataView, version: i16) -> bool {
        &&& 0 <= version <= 13
        &&& (m.topics matches Some(xs) ==> xs.len() <= i32::MAX && all_writable::<MetadataRequestTopic>(xs, version))
        &&& (if version >= 4 {
                true
            } else {
                !(m.allow_auto_topic_creation != true)
        })
        &&& (if version >= 8 && version <= 10 {
                true
            } else {
                !(m.include_cluster_authorized_operations != false)
        })
        &&& (if version >= 8 {
                true
            } else {
                !(m.include_topic_authorized_operations != false)
        })
        &&& (if version >= 9 {
                m.unknown_tagged_fields.len() <= u32::MAX && tags_fit(m.unknown_tagged_fields)
            } else {
                true
        })
    }

    proof fn lemma_writable_topics(m: MetadataRequestDataView, version: i16)
        ensures
            Self::spec_write_topics(m, version) is Ok <==> (m.topics matches Some(xs) ==> xs.len() <= i32::MAX && all_writable::<MetadataRequestTopic>(xs, version)),
    {
        reveal(MetadataRequestData::spec_write_topics);
        if version >= 1 {
            if version >= 9 {
                lemma_nullable_array_writable::<MetadataRequestTopic>(m.topics, version, true, -1i32);
            } else {
                lemma_nullable_array_writable::<MetadataRequestTopic>(m.topics, version, false, -1i32);
            }
        } else {
            lemma_nullable_array_writable::<MetadataRequestTopic>(m.topics, version, false, 0i32);
        }
    }

    proof fn lemma_writable_allow_auto_topic_creation(m: MetadataRequestDataView, version: i16)
        ensures
            Self::spec_write_allow_auto_topic_creation(m, version) is Ok <==> (if version >= 4 { true } else { !(m.allow_auto_topic_creation != true) }),
    {
        reveal(MetadataRequestData::spec_write_allow_auto_topic_creation);
    }

    proof fn lemma_writable_include_cluster_authorized_operations(m: MetadataRequestDataView, version: i16)
        ensures
            Self::spec_write_include_cluster_authorized_operations(m, version) is Ok <==> (if version >= 8 && version <= 10 { true } else { !(m.include_cluster_authorized_operations != false) }),
    {
        reveal(MetadataRequestData::spec_write_include_cluster_authorized_operations);
    }

    proof fn lemma_writable_include_topic_authorized_operations(m: MetadataRequestDataView, version: i16)
        ensures
            Self::spec_write_include_topic_authorized_operations(m, version) is Ok <==> (if version >= 8 { true } else { !(m.include_topic_authorized_operations != false) }),
    {
        reveal(MetadataRequestData::spec_write_include_topic_authorized_operations);
    }

    proof fn lemma_writable_tags(m: MetadataRequestDataView, version: i16)
        ensures
            Self::spec_write_tags(m, version) is Ok <==> (if version >= 9 { m.unknown_tagged_fields.len() <= u32::MAX && tags_fit(m.unknown_tagged_fields) } else { true }),
    {
        reveal(MetadataRequestData::spec_write_tags);
        if version >= 9 {
            lemma_sorted_tags_fit(m.unknown_tagged_fields);
            lemma_tagged_fields_writable(sorted_by_tag(m.unknown_tagged_fields));
        }
    }

    /// Writing `m` in `version` succeeds exactly when `m` is writable in it;
    /// so do `write` and `encoded_len`, whose results follow `spec_write`.
    #[verifier::rlimit(60)]
    pub proof fn lemma_writable(m: MetadataRequestDataView, version: i16)
        ensures
            Self::spec_write(m, version) is Ok <==> Self::writable(m, version),
    {
        Self::lemma_writable_topics(m, version);
        Self::lemma_writable_allow_auto_topic_creation(m, version);
        Self::lemma_writable_include_cluster_authorized_operations(m, version);
        Self::lemma_writable_include_topic_authorized_operations(m, version);
        Self::lemma_writable_tags(m, version);
    }

    /// A version outside the range that the schema covers is refused, by
    /// reads and by writes alike, before anything is read or written.
    pub proof fn lemma_refused_version(m: MetadataRequestDataView, s: Seq<u8>, version: i16)
        requires
            version < 0 || version > 13,
        ensures
            Self::spec_read(s, version) == Err::<(MetadataRequestDataView, Seq<u8>), Error>(Error::UnsupportedVersion(UnsupportedVersion { api_key: 3, version })),
            Self::spec_write(m, version) == fail(Error::UnsupportedVersion(UnsupportedVersion { api_key: 3, version })),
    {
    }

    pub fn with_topics(self, value: Option<Vec<MetadataRequestTopic>>) -> (r: Self)
        ensures
            r@ == (MetadataRequestDataView { topics: opt_views(value), ..self@ }),
    {
        let mut r = self;
        r.topics = value;
        r
    }

    pub fn with_allow_auto_topic_creation(self, value: bool) -> (r: Self)
        ensures
            r@ == (MetadataRequestDataView { allow_auto_topic_creation: value, ..self@ }),
    {
        let mut r = self;
        r.allow_auto_topic_creation = value;
        r
    }

    pub fn with_include_cluster_authorized_operations(self, value: bool) -> (r: Self)
        ensures
            r@ == (MetadataRequestDataView { include_cluster_authorized_operations: value, ..self@ }),
    {
        let mut r = self;
        r.include_cluster_authorized_operations = value;
        r
    }

    pub fn with_include_topic_authorized_operations(self, value: bool) -> (r: Self)
        ensures
            r@ == (MetadataRequestDataView { include_topic_authorized_operations: value, ..self@ }),
    {
        let mut r = self;
        r.include_topic_authorized_operations = value;
        r
    }

    fn read_topics(buf: &mut Bytes, version: i16) -> (r: Result<Option<Vec<MetadataRequestTopic>>, Error>)
        ensures
            read_opt_vec_as(Self::spec_read_topics(bytes_seq(*old(buf)), version), *final(buf), r),
            took_front(*old(buf), *final(buf)),
    {
        proof {
            reveal(MetadataRequestData::spec_read_topics);
        }
        Ok(if version >= 1 {
                if version >= 9 {
                    read_nullable_array::<MetadataRequestTopic>(buf, version, true)?
                } else {
                    read_nullable_array::<MetadataRequestTopic>(buf, version, false)?
                }
            } else {
                Some(read_array::<MetadataRequestTopic>(buf, version, false)?)
        })
    }

    fn read_allow_auto_topic_creation(buf: &mut Bytes, version: i16) -> (r: Result<bool, Error>)
        ensures
            read_as(Self::spec_read_allow_auto_topic_creation(bytes_seq(*old(buf)), version), *final(buf), r),
            took_front(*old(buf), *final(buf)),
    {
        proof {
            reveal(MetadataRequestData::spec_read_allow_auto_topic_creation);
        }
        Ok(if version >= 4 {
                read_bool(buf)?
            } else {
                true
        })
    }

    fn read_include_cluster_authorized_operations(buf: &mut Bytes, version: i16) -> (r: Result<bool, Error>)
        ensures
            read_as(Self::spec_read_include_cluster_authorized_operations(bytes_seq(*old(buf)), version), *final(buf), r),
            took_front(*old(buf), *final(buf)),
    {
        proof {
            reveal(MetadataRequestData::spec_read_include_cluster_authorized_operations);
        }
        Ok(if version >= 8 && version <= 10 {
                read_bool(buf)?
            } else {
                false
        })
    }

    fn read_include_topic_authorized_operations(buf: &mut Bytes, version: i16) -> (r: Result<bool, Error>)
        ensures
            read_as(Self::spec_read_include_topic_authorized_operations(bytes_seq(*old(buf)), version), *final(buf), r),
            took_front(*old(buf), *final(buf)),
    {
        proof {
            reveal(MetadataRequestData::spec_read_include_topic_authorized_operations);
        }
        Ok(if version >= 8 {
                read_bool(buf)?
            } else {
                false
        })
    }

    fn read_tags(buf: &mut Bytes, version: i16) -> (r: Result<Vec<RawTaggedField>, Error>)
        ensures
            read_vec_as(Self::spec_read_tags(bytes_seq(*old(buf)), version), *final(buf), r),
            took_front(*old(buf), *final(buf)),
    {
        proof {
            reveal(MetadataRequestData::spec_read_tags);
        }
        Ok(if version >= 9 {
                read_tagged_fields(buf)?
            } else {
                empty_vec()
        })
    }

    pub fn read(buf: &mut Bytes, version: i16) -> (r: Result<Self, Error>)
        ensures
            read_as(Self::spec_read(bytes_seq(*old(buf)), version), *final(buf), r),
            took_front(*old(buf), *final(buf)),
            (version < 0 || version > 13) ==> bytes_seq(*final(buf)) == bytes_seq(*old(buf)),
    {
        if version < 0 || version > 13 {
            return Err(Error::UnsupportedVersion(UnsupportedVersion::new(3, version)));
        }
        let topics = Self::read_topics(buf, version)?;
        let allow_auto_topic_creation = Self::read_allow_auto_topic_creation(buf, version)?;
        let include_cluster_authorized_operations = Self::read_include_cluster_authorized_operations(buf, version)?;
        let include_topic_authorized_operations = Self::read_include_topic_authorized_operations(buf, version)?;
        let _unknown_tagged_fields = Self::read_tags(buf, version)?;
        Ok(MetadataRequestData {
                topics: topics,
                allow_auto_topic_creation: allow_auto_topic_creation,
                include_cluster_authorized_operations: include_cluster_authorized_operations,
                include_topic_authorized_operations: include_topic_authorized_operations,
                _unknown_tagged_fields: _unknown_tagged_fields,
        })
    }

    #[verifier::rlimit(80)]
    pub fn write(&self, buf: &mut BytesMut, version: i16) -> (r: Result<(), Error>)
        requires
            has_room(Self::spec_write(self@, version), *old(buf)),
        ensures
            wrote(Self::spec_write(self@, version), *old(buf), *final(buf), r),
    {
        if version < 0 || version > 13 {
            return Err(Error::UnsupportedVersion(UnsupportedVersion::new(3, version)));
        }
        let ghost m = self@;
        proof {
            reveal(MetadataRequestData::spec_write_topics);
            reveal(MetadataRequestData::spec_write_allow_auto_topic_creation);
            reveal(MetadataRequestData::spec_write_include_cluster_authorized_operations);
            reveal(MetadataRequestData::spec_write_include_topic_authorized_operations);
            reveal(MetadataRequestData::spec_write_tags);
        }
        let ghost s0 = Self::spec_write_topics(m, version);
        let ghost w0 = s0;
        let ghost s1 = Self::spec_write_allow_auto_topic_creation(m, version);
        let ghost w1 = chain(w0, s1);
        let ghost s2 = Self::spec_write_include_cluster_authorized_operations(m, version);
        let ghost w2 = chain(w1, s2);
        let ghost s3 = Self::spec_write_include_topic_authorized_operations(m, version);
        let ghost w3 = chain(w2, s3);
        let ghost s4 = Self::spec_write_tags(m, version);
        let ghost w4 = chain(w3, s4);
        assert(Self::spec_write(m, version) == w4);
        assert(written(w3).len() <= written(w4).len() && (w3 is Err ==> w4 == w3));
        assert(written(w2).len() <= written(w4).len() && (w2 is Err ==> w4 == w2));
        assert(written(w1).len() <= written(w4).len() && (w1 is Err ==> w4 == w1));
        assert(written(w0).len() <= written(w4).len() && (w0 is Err ==> w4 == w0));
        let ghost mid = bytes_mut_seq(*buf);
        proof {
            lemma_append_empty(mid);
        }
        let r0 = if version >= 1 {
            if version >= 9 {
                write_nullable_array::<MetadataRequestTopic>(buf, &self.topics, version, true, -1)
            } else {
                write_nullable_array::<MetadataRequestTopic>(buf, &self.topics, version, false, -1)
            }
        } else {
            write_nullable_array::<MetadataRequestTopic>(buf, &self.topics, version, false, 0)
        };
        assert(bytes_mut_seq(*buf) == mid + written(s0));
        if r0.is_err() {
            return r0;
        }
        let ghost mid = bytes_mut_seq(*buf);
        proof {
            lemma_append_empty(mid);
        }
        let r1 = if version >= 4 {
            {
                write_bool(buf, self.allow_auto_topic_creation);
                Ok(())
            }
        } else {
            if self.allow_auto_topic_creation != true {
                Err(Error::UnsupportedFieldVersion(UnsupportedFieldVersion::new(3, "allow_auto_topic_creation", version)))
            } else {
                Ok(())
            }
        };
        assert(bytes_mut_seq(*buf) == mid + written(s1));
        proof {
            lemma_step(bytes_mut_seq(*old(buf)), w0, s1);
        }
        if r1.is_err() {
            return r1;
        }
        let ghost mid = bytes_mut_seq(*buf);
        proof {
            lemma_append_empty(mid);
        }
        let r2 = if version >= 8 && version <= 10 {
            {
                write_bool(buf, self.include_cluster_authorized_operations);
                Ok(())
            }
        } else {
            if self.include_cluster_authorized_operations != false {
                Err(Error::UnsupportedFieldVersion(UnsupportedFieldVersion::new(3, "include_cluster_authorized_operations", version)))
            } else {
                Ok(())
            }
        };
        assert(bytes_mut_seq(*buf) == mid + written(s2));
        proof {
            lemma_step(bytes_mut_seq(*old(buf)), w1, s2);
        }
        if r2.is_err() {
            return r2;
        }
        let ghost mid = bytes_mut_seq(*buf);
        proof {
            lemma_append_empty(mid);
        }
        let r3 = if version >= 8 {
            {
                write_bool(buf, self.include_topic_authorized_operations);
                Ok(())
            }
        } else {
            if self.include_topic_authorized_operations != false {
                Err(Error::UnsupportedFieldVersion(UnsupportedFieldVersion::new(3, "include_topic_authorized_operations", version)))
            } else {
                Ok(())
            }
        };
        assert(bytes_mut_seq(*buf) == mid + written(s3));
        proof {
            lemma_step(bytes_mut_seq(*old(buf)), w2, s3);
        }
        if r3.is_err() {
            return r3;
        }
        let ghost mid = bytes_mut_seq(*buf);
        proof {
            lemma_append_empty(mid);
        }
        let r4 = if version >= 9 {
            write_tagged_fields(buf, &sort_by_tag(&self._unknown_tagged_fields))
        } else {
            Ok(())
        };
        assert(bytes_mut_seq(*buf) == mid + written(s4));
        proof {
            lemma_step(bytes_mut_seq(*old(buf)), w3, s4);
        }
        if r4.is_err() {
            return r4;
        }
        Ok(())
    }

    #[verifier::rlimit(80)]
    pub fn encoded_len(&self, version: i16) -> (r: Result<usize, Error>)
        ensures
            r == len_result(Self::spec_write(self@, version)),
    {
        if version < 0 || version > 13 {
            return Err(Error::UnsupportedVersion(UnsupportedVersion::new(3, version)));
        }
        let ghost m = self@;
        proof {
            reveal(MetadataRequestData::spec_write_topics);
            reveal(MetadataRequestData::spec_write_allow_auto_topic_creation);
            reveal(MetadataRequestData::spec_write_include_cluster_authorized_operations);
            reveal(MetadataRequestData::spec_write_include_topic_authorized_operations);
            reveal(MetadataRequestData::spec_write_tags);
        }
        let ghost s0 = Self::spec_write_topics(m, version);
        let ghost w0 = s0;
        let ghost s1 = Self::spec_write_allow_auto_topic_creation(m, version);
        let ghost w1 = chain(w0, s1);
        let ghost s2 = Self::spec_write_include_cluster_authorized_operations(m, version);
        let ghost w2 = chain(w1, s2);
        let ghost s3 = Self::spec_write_include_topic_authorized_operations(m, version);
        let ghost w3 = chain(w2, s3);
        let ghost s4 = Self::spec_write_tags(m, version);
        let ghost w4 = chain(w3, s4);
        assert(Self::spec_write(m, version) == w4);
        assert(w3 is Err ==> w4 == w3);
        assert(w2 is Err ==> w4 == w2);
        assert(w1 is Err ==> w4 == w1);
        assert(w0 is Err ==> w4 == w0);
        let mut len: usize = 0;
        let l0 = if version >= 1 {
            if version >= 9 {
                nullable_array_len::<MetadataRequestTopic>(&self.topics, version, true, -1)
            } else {
                nullable_array_len::<MetadataRequestTopic>(&self.topics, version, false, -1)
            }
        } else {
            nullable_array_len::<MetadataRequestTopic>(&self.topics, version, false, 0)
        };
        assert(l0 == len_result(s0));
        let n0 = match l0 {
            Ok(n) => n,
            Err(e) => {
                return Err(e);
            },
        };
        len = saturating_sum(len, n0);
        assert(w0 is Ok && len == saturate(written(w0).len() as int));
        let l1 = if version >= 4 {
            Ok(1)
        } else {
            if self.allow_auto_topic_creation != true {
                Err(Error::UnsupportedFieldVersion(UnsupportedFieldVersion::new(3, "allow_auto_topic_creation", version)))
            } else {
                Ok(0)
            }
        };
        assert(l1 == len_result(s1));
        let n1 = match l1 {
            Ok(n) => n,
            Err(e) => {
                return Err(e);
            },
        };
        proof {
            lemma_len_step(w0, s1, n1);
        }
        len = saturating_sum(len, n1);
        assert(w1 is Ok && len == saturate(written(w1).len() as int));
        let l2 = if version >= 8 && version <= 10 {
            Ok(1)
        } else {
            if self.include_cluster_authorized_operations != false {
                Err(Error::UnsupportedFieldVersion(UnsupportedFieldVersion::new(3, "include_cluster_authorized_operations", version)))
            } else {
                Ok(0)
            }
        };
        assert(l2 == len_result(s2));
        let n2 = match l2 {
            Ok(n) => n,
            Err(e) => {
                return Err(e);
            },
        };
        proof {
            lemma_len_step(w1, s2, n2);
        }
        len = saturating_sum(len, n2);
        assert(w2 is Ok && len == saturate(written(w2).len() as int));
        let l3 = if version >= 8 {
            Ok(1)
        } else {
            if self.include_topic_authorized_operations != false {
                Err(Error::UnsupportedFieldVersion(UnsupportedFieldVersion::new(3, "include_topic_authorized_operations", version)))
            } else {
                Ok(0)
            }
        };
        assert(l3 == len_result(s3));
        let n3 = match l3 {
            Ok(n) => n,
            Err(e) => {
                return Err(e);
            },
        };
        proof {
            lemma_len_step(w2, s3, n3);
        }
        len = saturating_sum(len, n3);
        assert(w3 is Ok && len == saturate(written(w3).len() as int));
        let l4 = if version >= 9 {
            tagged_fields_len(&sort_by_tag(&self._unknown_tagged_fields))
        } else {
            Ok(0)
        };
        assert(l4 == len_result(s4));
        let n4 = match l4 {
            Ok(n) => n,
            Err(e) => {
                return Err(e);
            },
        };
        proof {
            lemma_len_step(w3, s4, n4);
        }
        len = saturating_sum(len, n4);
        assert(w4 is Ok && len == saturate(written(w4).len() as int));
        Ok(len)
    }
}

#[derive(Debug, PartialEq)]
pub struct MetadataRequestTopic {
    /// The topic id.
    pub topic_id: KafkaUuid,
    /// The topic name.
    pub name: Option<KafkaString>,
    pub _unknown_tagged_fields: Vec<RawTaggedField>,
}

/// What a `MetadataRequestTopic` holds, as the specification sees it.
#[verifier::ext_equal]
pub struct MetadataRequestTopicView {
    pub topic_id: KafkaUuid,
    pub name: Option<Seq<u8>>,
    pub unknown_tagged_fields: Seq<(u32, Seq<u8>)>,
}

impl View for MetadataRequestTopic {
    type V = MetadataRequestTopicView;

    open spec fn view(&self) -> MetadataRequestTopicView {
        MetadataRequestTopicView {
            topic_id: self.topic_id,
            name: opt_view(self.name),
            unknown_tagged_fields: views(self._unknown_tagged_fields@),
        }
    }
}

impl Clone for MetadataRequestTopic {
    fn clone(&self) -> (r: Self)
        ensures
            r@ == self@,
    {
        let r = MetadataRequestTopic {
            topic_id: self.topic_id,
            name: match &self.name {
                Some(x) => Some(x.clone()),
                None => None,
            },
            _unknown_tagged_fields: clone_vec(&self._unknown_tagged_fields),
        };
        assert(r@ =~= self@);
        r
    }
}

impl ViewClone for MetadataRequestTopic {
    fn clone_view(&self) -> (r: Self) {
        self.clone()
    }
}

impl Default for MetadataRequestTopic {
    fn default() -> (r: Self)
        ensures
            r@ == Self::default_view(),
    {
        let r = MetadataRequestTopic {
            topic_id: KafkaUuid::zero(),
            name: None,
            _unknown_tagged_fields: empty_vec(),
        };
        assert(r@ =~= Self::default_view());
        r
    }
}

impl MetadataRequestTopic {
    pub open spec fn default_view() -> MetadataRequestTopicView {
        MetadataRequestTopicView {
            topic_id: KafkaUuid { most_significant_bits: 0, least_significant_bits: 0 },
            name: None,
            unknown_tagged_fields: Seq::empty(),
        }
    }

    /// The `topic_id` field, read from the front of `s`.
    #[verifier::opaque]
    pub open spec fn spec_read_topic_id(s: Seq<u8>, version: i16) -> ReadOutcome<KafkaUuid> {
        if version >= 10 {
            spec_read_uuid(s)
        } else {
            Ok((KafkaUuid { most_significant_bits: 0, least_significant_bits: 0 }, s))
        }
    }

    /// The `name` field, read from the front of `s`.
    #[verifier::opaque]
    pub open spec fn spec_read_name(s: Seq<u8>, version: i16) -> ReadOutcome<Option<Seq<u8>>> {
        if version >= 10 {
            spec_read_compact_nullable_string(s)
        } else {
            if version >= 9 {
                some_of(spec_read_compact_string(s))
            } else {
                some_of(spec_read_string(s))
            }
        }
    }

    /// The tagged fields, read from the front of `s`.
    #[verifier::opaque]
    pub open spec fn spec_read_tags(s: Seq<u8>, version: i16) -> ReadOutcome<Seq<(u32, Seq<u8>)>> {
        if version >= 9 {
            spec_read_tagged_fields(s)
        } else {
            Ok((Seq::empty(), s))
        }
    }

    pub open spec fn spec_read(s: Seq<u8>, version: i16) -> ReadOutcome<MetadataRequestTopicView> {
        match (Self::spec_read_topic_id(s, version)) {
            Err(e) => Err(e),
            Ok((topic_id, s)) => match (Self::spec_read_name(s, version)) {
                Err(e) => Err(e),
                Ok((name, s)) => match (Self::spec_read_tags(s, version)) {
                    Err(e) => Err(e),
                    Ok((unknown_tagged_fields, s)) => Ok((MetadataRequestTopicView {
                                topic_id: topic_id,
                                name: name,
                                unknown_tagged_fields: unknown_tagged_fields,
                            }, s)),
                },
            },
        }
    }

    /// What writing the `topic_id` field of `m` appends.
    #[verifier::opaque]
    pub open spec fn spec_write_topic_id(m: MetadataRequestTopicView, version: i16) -> WriteOutcome {
        if version >= 10 {
            spec_write_uuid(m.topic_id)
        } else {
            if !uuid_is_nil(m.topic_id) {
                fail(Error::UnsupportedFieldVersion(UnsupportedFieldVersion { api_key: 3, field: "topic_id", version }))
            } else {
                emit(Seq::empty())
            }
        }
    }

    /// What writing the `name` field of `m` appends.
    #[verifier::opaque]
    pub open spec fn spec_write_name(m: MetadataRequestTopicView, version: i16) -> WriteOutcome {
        if version >= 10 {
            spec_write_compact_nullable_string(m.name)
        } else {
            if version >= 9 {
                spec_write_compact_string(unwrap_or_empty(m.name))
            } else {
                spec_write_string(unwrap_or_empty(m.name))
            }
        }
    }

    /// What writing the tagged fields of `m` appends.
    #[verifier::opaque]
    pub open spec fn spec_write_tags(m: MetadataRequestTopicView, version: i16) -> WriteOutcome {
        if version >= 9 {
            spec_write_tagged_fields(sorted_by_tag(m.unknown_tagged_fields))
        } else {
            emit(Seq::empty())
        }
    }

    pub open spec fn spec_write(m: MetadataRequestTopicView, version: i16) -> WriteOutcome {
        chain(
            chain(
                Self::spec_write_topic_id(m, version),
                Self::spec_write_name(m, version),
            ),
            Self::spec_write_tags(m, version),
        )
    }

    /// Whether reading back what writing `m` in `version` appends gives `m`:
    /// fields that the version does not carry hold their default values, and
    /// tagged fields come in the order in which they are written.
    pub open spec fn canonical(m: MetadataRequestTopicView, version: i16) -> bool {
        &&& (if version >= 10 {
                true
            } else {
                m.name is Some
        })
        &&& (if version >= 9 {
                tags_in_order(m.unknown_tagged_fields)
            } else {
                m.unknown_tagged_fields.len() == 0
        })
    }

    proof fn lemma_round_trip_topic_id(m: MetadataRequestTopicView, version: i16, rest: Seq<u8>)
        requires
            Self::canonical(m, version),
            Self::spec_write_topic_id(m, version) is Ok,
        ensures
            Self::spec_read_topic_id(written(Self::spec_write_topic_id(m, version)) + rest, version) == Ok::<(KafkaUuid, Seq<u8>), Error>((m.topic_id, rest)),
    {
        reveal(MetadataRequestTopic::spec_read_topic_id);
        reveal(MetadataRequestTopic::spec_write_topic_id);
        if version >= 10 {
            lemma_uuid_round_trip(m.topic_id, rest);
        } else {
            assert(Seq::<u8>::empty() + rest =~= rest);
        }
    }

    proof fn lemma_round_trip_name(m: MetadataRequestTopicView, version: i16, rest: Seq<u8>)
        requires
            Self::canonical(m, version),
            Self::spec_write_name(m, version) is Ok,
        ensures
            Self::spec_read_name(written(Self::spec_write_name(m, version)) + rest, version) == Ok::<(Option<Seq<u8>>, Seq<u8>), Error>((m.name, rest)),
    {
        reveal(MetadataRequestTopic::spec_read_name);
        reveal(MetadataRequestTopic::spec_write_name);
        if version >= 10 {
            lemma_compact_nullable_string_round_trip(m.name, rest);
        } else {
            if version >= 9 {
                lemma_compact_string_round_trip(unwrap_or_empty(m.name), rest);
            } else {
                lemma_string_round_trip(unwrap_or_empty(m.name), rest);
            }
        }
    }

    proof fn lemma_round_trip_tags(m: MetadataRequestTopicView, version: i16, rest: Seq<u8>)
        requires
            Self::canonical(m, version),
            Self::spec_write_tags(m, version) is Ok,
        ensures
            Self::spec_read_tags(written(Self::spec_write_tags(m, version)) + rest, version) == Ok::<(Seq<(u32, Seq<u8>)>, Seq<u8>), Error>((m.unknown_tagged_fields, rest)),
    {
        reveal(MetadataRequestTopic::spec_read_tags);
        reveal(MetadataRequestTopic::spec_write_tags);
        if version >= 9 {
            lemma_sorted_by_tag_in_order(m.unknown_tagged_fields);
            lemma_tagged_fields_round_trip(m.unknown_tagged_fields, rest);
        } else {
            assert(Seq::<u8>::empty() + rest =~= rest);
            assert(m.unknown_tagged_fields =~= Seq::empty());
        }
    }

    /// Reading back what writing `m` in `version` appends gives `m` again, and
    /// leaves what follows, for every canonical message whose write succeeds.
    #[verifier::rlimit(70)]
    #[verifier::spinoff_prover]
    pub proof fn lemma_round_trip(m: MetadataRequestTopicView, version: i16, rest: Seq<u8>)
        requires
            Self::canonical(m, version),
            Self::spec_write(m, version) is Ok,
        ensures
            Self::spec_read(written(Self::spec_write(m, version)) + rest, version) == Ok::<(MetadataRequestTopicView, Seq<u8>), Error>((m, rest)),
    {
        let b0 = written(Self::spec_write_topic_id(m, version));
        let b1 = written(Self::spec_write_name(m, version));
        let b2 = written(Self::spec_write_tags(m, version));
        let t3 = rest;
        let t2 = b2 + t3;
        let t1 = b1 + t2;
        let t0 = b0 + t1;
        let w0 = Self::spec_write_topic_id(m, version);
        let w1 = chain(w0, Self::spec_write_name(m, version));
        let w2 = chain(w1, Self::spec_write_tags(m, version));
        assert(Self::spec_write(m, version) == w2);
        assert(written(w2) + t3 =~= written(w1) + t2);
        assert(written(w1) + t2 =~= written(w0) + t1);
        Self::lemma_round_trip_topic_id(m, version, t1);
        Self::lemma_round_trip_name(m, version, t2);
        Self::lemma_round_trip_tags(m, version, t3);
    }

    /// In a version that does not carry `unknown_tagged_fields`, writing ignores its value.
    pub proof fn lemma_write_ignores_unknown_tagged_fields(m: MetadataRequestTopicView, value: Seq<(u32, Seq<u8>)>, version: i16)
        requires
            !(version >= 9),
        ensures
            Self::spec_write((MetadataRequestTopicView { unknown_tagged_fields: value, ..m }), version) == Self::spec_write(m, version),
    {
        reveal(MetadataRequestTopic::spec_write_topic_id);
        reveal(MetadataRequestTopic::spec_write_name);
        reveal(MetadataRequestTopic::spec_write_tags);
    }

    /// The default message holds the default value of each field of the schema.
    pub proof fn lemma_default_values()
        ensures
            Self::default_view().topic_id == (KafkaUuid { most_significant_bits: 0, least_significant_bits: 0 }),
            (Self::default_view().name is None),
            Self::default_view().unknown_tagged_fields.len() == 0,
    {
    }

    /// Each integer, boolean and identifier field is written as its standard
    /// big-endian bytes (a boolean as `1` or `0`) in the versions that carry
    /// it, and as nothing in the others; reading it takes those bytes back (any
    /// byte other than `0` reads as `true`), or gives its default value.
    pub proof fn lemma_field_encodings(m: MetadataRequestTopicView, s: Seq<u8>, version: i16)
        ensures
            version >= 10 ==> Self::spec_write_topic_id(m, version) == Ok::<Seq<u8>, (Error, Seq<u8>)>((u64_bytes(m.topic_id.most_significant_bits) + u64_bytes(m.topic_id.least_significant_bits))),
            version >= 10 ==> Self::spec_read_topic_id(s, version) == spec_read_uuid(s),
    {
        reveal(MetadataRequestTopic::spec_write_topic_id);
        reveal(MetadataRequestTopic::spec_read_topic_id);
    }

    /// Whether writing `m` in `version` succeeds, said over its parts: the
    /// version is one the schema covers, every field that the version cannot
    /// carry holds its default value, and every string, byte string, array and
    /// tagged field fits its length prefix.
    pub open spec fn writable(m: MetadataRequestTopicView, version: i16) -> bool {
        &&& (if version >= 10 {
                true
            } else {
                !(!uuid_is_nil(m.topic_id))
        })
        &&& (if version >= 10 {
                (m.name matches Some(b) ==> b.len() <= 0x7fff)
            } else {
                unwrap_or_empty(m.name).len() <= 0x7fff
        })
        &&& (if version >= 9 {
                m.unknown_tagged_fields.len() <= u32::MAX && tags_fit(m.unknown_tagged_fields)
            } else {
                true
        })
    }

    proof fn lemma_writable_topic_id(m: MetadataRequestTopicView, version: i16)
        ensures
            Self::spec_write_topic_id(m, version) is Ok <==> (if version >= 10 { true } else { !(!uuid_is_nil(m.topic_id)) }),
    {
        reveal(MetadataRequestTopic::spec_write_topic_id);
    }

    proof fn lemma_writable_name(m: MetadataRequestTopicView, version: i16)
        ensures
            Self::spec_write_name(m, version) is Ok <==> (if version >= 10 { (m.name matches Some(b) ==> b.len() <= 0x7fff) } else { unwrap_or_empty(m.name).len() <= 0x7fff }),
    {
        reveal(MetadataRequestTopic::spec_write_name);
    }

    proof fn lemma_writable_tags(m: MetadataRequestTopicView, version: i16)
        ensures
            Self::spec_write_tags(m, version) is Ok <==> (if version >= 9 { m.unknown_tagged_fields.len() <= u32::MAX && tags_fit(m.unknown_tagged_fields) } else { true }),
    {
        reveal(MetadataRequestTopic::spec_write_tags);
        if version >= 9 {
            lemma_sorted_tags_fit(m.unknown_tagged_fields);
            lemma_tagged_fields_writable(sorted_by_tag(m.unknown_tagged_fields));
        }
    }

    /// Writing `m` in `version` succeeds exactly when `m` is writable in it;
    /// so do `write` and `encoded_len`, whose results follow `spec_write`.
    #[verifier::rlimit(48)]
    pub proof fn lemma_writable(m: MetadataRequestTopicView, version: i16)
        ensures
            Self::spec_write(m, version) is Ok <==> Self::writable(m, version),
    {
        Self::lemma_writable_topic_id(m, version);
        Self::lemma_writable_name(m, version);
        Self::lemma_writable_tags(m, version);
    }

    pub fn with_topic_id(self, value: KafkaUuid) -> (r: Self)
        ensures
            r@ == (MetadataRequestTopicView { topic_id: value, ..self@ }),
    {
        let mut r = self;
        r.topic_id = value;
        r
    }

    pub fn with_name(self, value: Option<KafkaString>) -> (r: Self)
        ensures
            r@ == (MetadataRequestTopicView { name: opt_view(value), ..self@ }),
    {
        let mut r = self;
        r.name = value;
        r
    }

    fn read_topic_id(buf: &mut Bytes, version: i16) -> (r: Result<KafkaUuid, Error>)
        ensures
            read_as(Self::spec_read_topic_id(bytes_seq(*old(buf)), version), *final(buf), r),
            took_front(*old(buf), *final(buf)),
    {
        proof {
            reveal(MetadataRequestTopic::spec_read_topic_id);
        }
        Ok(if version >= 10 {
                read_uuid(buf)?
            } else {
                KafkaUuid::zero()
        })
    }

    fn read_name(buf: &mut Bytes, version: i16) -> (r: Result<Option<KafkaString>, Error>)
        ensures
            read_opt_as(Self::spec_read_name(bytes_seq(*old(buf)), version), *final(buf), r),
            took_front(*old(buf), *final(buf)),
    {
        proof {
            reveal(MetadataRequestTopic::spec_read_name);
        }
        Ok(if version >= 10 {
                read_compact_nullable_string(buf)?
            } else {
                if version >= 9 {
                    Some(read_compact_string(buf)?)
                } else {
                    Some(read_string(buf)?)
                }
        })
    }

    fn read_tags(buf: &mut Bytes, version: i16) -> (r: Result<Vec<RawTaggedField>, Error>)
        ensures
            read_vec_as(Self::spec_read_tags(bytes_seq(*old(buf)), version), *final(buf), r),
            took_front(*old(buf), *final(buf)),
    {
        proof {
            reveal(MetadataRequestTopic::spec_read_tags);
        }
        Ok(if version >= 9 {
                read_tagged_fields(buf)?
            } else {
                empty_vec()
        })
    }

    pub fn read(buf: &mut Bytes, version: i16) -> (r: Result<Self, Error>)
        ensures
            read_as(Self::spec_read(bytes_seq(*old(buf)), version), *final(buf), r),
            took_front(*old(buf), *final(buf)),
    {
        let topic_id = Self::read_topic_id(buf, version)?;
        let name = Self::read_name(buf, version)?;
        let _unknown_tagged_fields = Self::read_tags(buf, version)?;
        Ok(MetadataRequestTopic {
                topic_id: topic_id,
                name: name,
                _unknown_tagged_fields: _unknown_tagged_fields,
        })
    }

    #[verifier::rlimit(60)]
    pub fn write(&self, buf: &mut BytesMut, version: i16) -> (r: Result<(), Error>)
        requires
            has_room(Self::spec_write(self@, version), *old(buf)),
        ensures
            wrote(Self::spec_write(self@, version), *old(buf), *final(buf), r),
    {
        let ghost m = self@;
        proof {
            reveal(MetadataRequestTopic::spec_write_topic_id);
            reveal(MetadataRequestTopic::spec_write_name);
            reveal(MetadataRequestTopic::spec_write_tags);
        }
        let ghost s0 = Self::spec_write_topic_id(m, version);
        let ghost w0 = s0;
        let ghost s1 = Self::spec_write_name(m, version);
        let ghost w1 = chain(w0, s1);
        let ghost s2 = Self::spec_write_tags(m, version);
        let ghost w2 = chain(w1, s2);
        assert(Self::spec_write(m, version) == w2);
        assert(written(w1).len() <= written(w2).len() && (w1 is Err ==> w2 == w1));
        assert(written(w0).len() <= written(w2).len() && (w0 is Err ==> w2 == w0));
        let ghost mid = bytes_mut_seq(*buf);
        proof {
            lemma_append_empty(mid);
        }
        let r0 = if version >= 10 {
            {
                write_uuid(buf, self.topic_id);
                Ok(())
            }
        } else {
            if !self.topic_id.is_nil() {
                Err(Error::UnsupportedFieldVersion(UnsupportedFieldVersion::new(3, "topic_id", version)))
            } else {
                Ok(())
            }
        };
        assert(bytes_mut_seq(*buf) == mid + written(s0));
        if r0.is_err() {
            return r0;
        }
        let ghost mid = bytes_mut_seq(*buf);
        proof {
            lemma_append_empty(mid);
        }
        let r1 = if version >= 10 {
            write_compact_nullable_string(buf, &self.name)
        } else {
            {
                let nn_default = KafkaString::default();
                let nn_val = match &self.name {
                    Some(v) => v,
                    None => &nn_default,
                };
                if version >= 9 {
                    write_compact_string(buf, &*nn_val)
                } else {
                    write_string(buf, &*nn_val)
                }
            }
        };
        assert(bytes_mut_seq(*buf) == mid + written(s1));
        proof {
            lemma_step(bytes_mut_seq(*old(buf)), w0, s1);
        }
        if r1.is_err() {
            return r1;
        }
        let ghost mid = bytes_mut_seq(*buf);
        proof {
            lemma_append_empty(mid);
        }
        let r2 = if version >= 9 {
            write_tagged_fields(buf, &sort_by_tag(&self._unknown_tagged_fields))
        } else {
            Ok(())
        };
        assert(bytes_mut_seq(*buf) == mid + written(s2));
        proof {
            lemma_step(bytes_mut_seq(*old(buf)), w1, s2);
        }
        if r2.is_err() {
            return r2;
        }
        Ok(())
    }

    #[verifier::rlimit(60)]
    pub fn encoded_len(&self, version: i16) -> (r: Result<usize, Error>)
        ensures
            r == len_result(Self::spec_write(self@, version)),
    {
        let ghost m = self@;
        proof {
            reveal(MetadataRequestTopic::spec_write_topic_id);
            reveal(MetadataRequestTopic::spec_write_name);
            reveal(MetadataRequestTopic::spec_write_tags);
        }
        let ghost s0 = Self::spec_write_topic_id(m, version);
        let ghost w0 = s0;
        let ghost s1 = Self::spec_write_name(m, version);
        let ghost w1 = chain(w0, s1);
        let ghost s2 = Self::spec_write_tags(m, version);
        let ghost w2 = chain(w1, s2);
        assert(Self::spec_write(m, version) == w2);
        assert(w1 is Err ==> w2 == w1);
        assert(w0 is Err ==> w2 == w0);
        let mut len: usize = 0;
        let l0 = if version >= 10 {
            Ok(16)
        } else {
            if !self.topic_id.is_nil() {
                Err(Error::UnsupportedFieldVersion(UnsupportedFieldVersion::new(3, "topic_id", version)))
            } else {
                Ok(0)
            }
        };
        assert(l0 == len_result(s0));
        let n0 = match l0 {
            Ok(n) => n,
            Err(e) => {
                return Err(e);
            },
        };
        len = saturating_sum(len, n0);
        assert(w0 is Ok && len == saturate(written(w0).len() as int));
        let l1 = if version >= 10 {
            compact_nullable_string_len(&self.name)
        } else {
            {
                let nn_default = KafkaString::default();
                let nn_val = match &self.name {
                    Some(v) => v,
                    None => &nn_default,
                };
                if version >= 9 {
                    compact_string_len(&*nn_val)
                } else {
                    string_len(&*nn_val)
                }
            }
        };
        assert(l1 == len_result(s1));
        let n1 = match l1 {
            Ok(n) => n,
            Err(e) => {
                return Err(e);
            },
        };
        proof {
            lemma_len_step(w0, s1, n1);
        }
        len = saturating_sum(len, n1);
        assert(w1 is Ok && len == saturate(written(w1).len() as int));
        let l2 = if version >= 9 {
            tagged_fields_len(&sort_by_tag(&self._unknown_tagged_fields))
        } else {
            Ok(0)
        };
        assert(l2 == len_result(s2));
        let n2 = match l2 {
            Ok(n) => n,
            Err(e) => {
                return Err(e);
            },
        };
        proof {
            lemma_len_step(w1, s2, n2);
        }
        len = saturating_sum(len, n2);
        assert(w2 is Ok && len == saturate(written(w2).len() as int));
        Ok(len)
    }
}

impl Codec for MetadataRequestTopic {
    type Item = MetadataRequestTopic;

    open spec fn spec_read_item(s: Seq<u8>, version: i16) -> ReadOutcome<MetadataRequestTopicView> {
        MetadataRequestTopic::spec_read(s, version)
    }

    open spec fn spec_write_item(v: MetadataRequestTopicView, version: i16) -> WriteOutcome {
        MetadataRequestTopic::spec_write(v, version)
    }

    open spec fn canonical_item(v: MetadataRequestTopicView, version: i16) -> bool {
        MetadataRequestTopic::canonical(v, version)
    }

    proof fn lemma_item_round_trip(v: MetadataRequestTopicView, version: i16, rest: Seq<u8>) {
        MetadataRequestTopic::lemma_round_trip(v, version, rest);
    }

    open spec fn writable_item(v: MetadataRequestTopicView, version: i16) -> bool {
        MetadataRequestTopic::writable(v, version)
    }

    proof fn lemma_item_writable(v: MetadataRequestTopicView, version: i16) {
        MetadataRequestTopic::lemma_writable(v, version);
    }

    fn read_item(buf: &mut Bytes, version: i16) -> (r: Result<MetadataRequestTopic, Error>) {
        MetadataRequestTopic::read(buf, version)
    }

    fn write_item(item: &MetadataRequestTopic, buf: &mut BytesMut, version: i16) -> (r: Result<(), Error>) {
        item.write(buf, version)
    }
}

impl MeasuredCodec for MetadataRequestTopic {
    fn item_len(item: &MetadataRequestTopic, version: i16) -> (r: Result<usize, Error>) {
        item.encoded_len(version)
    }
}

} // verus!
