//! The metadata response message.
use crate::buffer::{bytes_mut_seq, bytes_seq};
use crate::codec::{Codec, Int32Item, MeasuredCodec, all_canonical, all_writable, array_len, lemma_array_round_trip, lemma_array_writable, read_array, saturating_sum, spec_read_array, spec_write_array, write_array};
use crate::error::{Error, UnsupportedFieldVersion, UnsupportedVersion};
use crate::ints::{lemma_bool_roundtrip, lemma_i16_roundtrip, lemma_i32_roundtrip, read_bool, read_i16, read_i32, spec_read_bool, spec_read_i16, spec_read_i32, spec_write_bool, spec_write_i16, spec_write_i32, u16_bytes, u32_bytes, u64_bytes, write_bool, write_i16, write_i32};
use crate::strings::{compact_nullable_string_len, compact_string_len, lemma_compact_nullable_string_round_trip, lemma_compact_string_round_trip, lemma_nullable_string_round_trip, lemma_string_round_trip, lemma_uuid_round_trip, nullable_string_len, read_compact_nullable_string, read_compact_string, read_nullable_string, read_string, read_uuid, spec_read_compact_nullable_string, spec_read_compact_string, spec_read_nullable_string, spec_read_string, spec_read_uuid, spec_write_compact_nullable_string, spec_write_compact_string, spec_write_nullable_string, spec_write_string, spec_write_uuid, string_len, write_compact_nullable_string, write_compact_string, write_nullable_string, write_string, write_uuid};
use crate::tagged::{lemma_sorted_by_tag_in_order, lemma_sorted_tags_fit, lemma_tagged_fields_round_trip, lemma_tagged_fields_writable, read_tagged_fields, sort_by_tag, sorted_by_tag, spec_read_tagged_fields, spec_write_tagged_fields, tagged_fields_len, tags_fit, tags_in_order, write_tagged_fields};
use crate::types::{KafkaString, KafkaUuid, RawTaggedField, uuid_is_nil};
use crate::wire::{ReadOutcome, ViewClone, WriteOutcome, chain, clone_vec, emit, empty_vec, fail, has_room, lemma_append_empty, lemma_chain_written, lemma_len_step, lemma_step, len_result, opt_view, read_as, read_opt_as, read_vec_as, saturate, some_of, took_front, unwrap_or_empty, views, written, wrote};
use bytes::{Bytes, BytesMut};
use vstd::prelude::*;

verus! {

broadcast use {crate::wire::lemma_chain_written, crate::wire::lemma_took_front_nothing, crate::wire::lemma_took_front_twice};

#[derive(Debug, PartialEq)]
pub struct MetadataResponseData {
    /// The duration in milliseconds for which the request was throttled due to a quota violation,
    /// or zero if the request did not violate any quota.
    pub throttle_time_ms: i32,
    /// A list of brokers present in the cluster.
    pub brokers: Vec<MetadataResponseBroker>,
    /// The cluster ID that responding broker belongs to.
    pub cluster_id: Option<KafkaString>,
    /// The ID of the controller broker.
    pub controller_id: i32,
    /// Each topic in the response.
    pub topics: Vec<MetadataResponseTopic>,
    /// 32-bit bitfield to represent authorized operations for this cluster.
    pub cluster_authorized_operations: i32,
    /// The top-level error code, or 0 if there was no error.
    pub error_code: i16,
    pub _unknown_tagged_fields: Vec<RawTaggedField>,
}

/// What a `MetadataResponseData` holds, as the specification sees it.
#[verifier::ext_equal]
pub struct MetadataResponseDataView {
    pub throttle_time_ms: i32,
    pub brokers: Seq<MetadataResponseBrokerView>,
    pub cluster_id: Option<Seq<u8>>,
    pub controller_id: i32,
    pub topics: Seq<MetadataResponseTopicView>,
    pub cluster_authorized_operations: i32,
    pub error_code: i16,
    pub unknown_tagged_fields: Seq<(u32, Seq<u8>)>,
}

impl View for MetadataResponseData {
    type V = MetadataResponseDataView;

    open spec fn view(&self) -> MetadataResponseDataView {
        MetadataResponseDataView {
            throttle_time_ms: self.throttle_time_ms,
            brokers: views(self.brokers@),
            cluster_id: opt_view(self.cluster_id),
            controller_id: self.controller_id,
            topics: views(self.topics@),
            cluster_authorized_operations: self.cluster_authorized_operations,
            error_code: self.error_code,
            unknown_tagged_fields: views(self._unknown_tagged_fields@),
        }
    }
}

impl Clone for MetadataResponseData {
    fn clone(&self) -> (r: Self)
        ensures
            r@ == self@,
    {
        let r = MetadataResponseData {
            throttle_time_ms: self.throttle_time_ms,
            brokers: clone_vec(&self.brokers),
            cluster_id: match &self.cluster_id {
                Some(x) => Some(x.clone()),
                None => None,
            },
            controller_id: self.controller_id,
            topics: clone_vec(&self.topics),
            cluster_authorized_operations: self.cluster_authorized_operations,
            error_code: self.error_code,
            _unknown_tagged_fields: clone_vec(&self._unknown_tagged_fields),
        };
        assert(r@ =~= self@);
        r
    }
}

impl ViewClone for MetadataResponseData {
    fn clone_view(&self) -> (r: Self) {
        self.clone()
    }
}

impl Default for MetadataResponseData {
    fn default() -> (r: Self)
        ensures
            r@ == Self::default_view(),
    {
        let r = MetadataResponseData {
            throttle_time_ms: 0_i32,
            brokers: empty_vec(),
            cluster_id: None,
            controller_id: -1i32,
            topics: empty_vec(),
            cluster_authorized_operations: i32::MIN,
            error_code: 0_i16,
            _unknown_tagged_fields: empty_vec(),
        };
        assert(r@ =~= Self::default_view());
        r
    }
}

impl MetadataResponseData {
    pub open spec fn default_view() -> MetadataResponseDataView {
        MetadataResponseDataView {
            throttle_time_ms: 0_i32,
            brokers: Seq::empty(),
            cluster_id: None,
            controller_id: -1i32,
            topics: Seq::empty(),
            cluster_authorized_operations: i32::MIN,
            error_code: 0_i16,
            unknown_tagged_fields: Seq::empty(),
        }
    }

    /// The `throttle_time_ms` field, read from the front of `s`.
    #[verifier::opaque]
    pub open spec fn spec_read_throttle_time_ms(s: Seq<u8>, version: i16) -> ReadOutcome<i32> {
        if version >= 3 {
            spec_read_i32(s)
        } else {
            Ok((0_i32, s))
        }
    }

    /// The `brokers` field, read from the front of `s`.
    #[verifier::opaque]
    pub open spec fn spec_read_brokers(s: Seq<u8>, version: i16) -> ReadOutcome<Seq<MetadataResponseBrokerView>> {
        if version >= 9 {
            spec_read_array::<MetadataResponseBroker>(s, version, true)
        } else {
            spec_read_array::<MetadataResponseBroker>(s, version, false)
        }
    }

    /// The `cluster_id` field, read from the front of `s`.
    #[verifier::opaque]
    pub open spec fn spec_read_cluster_id(s: Seq<u8>, version: i16) -> ReadOutcome<Option<Seq<u8>>> {
        if version >= 2 {
            if version >= 9 {
                spec_read_compact_nullable_string(s)
            } else {
                spec_read_nullable_string(s)
            }
        } else {
            Ok((None, s))
        }
    }

    /// The `controller_id` field, read from the front of `s`.
    #[verifier::opaque]
    pub open spec fn spec_read_controller_id(s: Seq<u8>, version: i16) -> ReadOutcome<i32> {
        if version >= 1 {
            spec_read_i32(s)
        } else {
            Ok((-1i32, s))
        }
    }

    /// The `topics` field, read from the front of `s`.
    #[verifier::opaque]
    pub open spec fn spec_read_topics(s: Seq<u8>, version: i16) -> ReadOutcome<Seq<MetadataResponseTopicView>> {
        if version >= 9 {
            spec_read_array::<MetadataResponseTopic>(s, version, true)
        } else {
            spec_read_array::<MetadataResponseTopic>(s, version, false)
        }
    }

    /// The `cluster_authorized_operations` field, read from the front of `s`.
    #[verifier::opaque]
    pub open spec fn spec_read_cluster_authorized_operations(s: Seq<u8>, version: i16) -> ReadOutcome<i32> {
        if version >= 8 && version <= 10 {
            spec_read_i32(s)
        } else {
            Ok((i32::MIN, s))
        }
    }

    /// The `error_code` field, read from the front of `s`.
    #[verifier::opaque]
    pub open spec fn spec_read_error_code(s: Seq<u8>, version: i16) -> ReadOutcome<i16> {
        if version >= 13 {
            spec_read_i16(s)
        } else {
            Ok((0_i16, s))
        }
    }

    /// The tagged fields, read from the front of `s`.
    #[verifier::opaque]
    pub open spec fn spec_read_tags(s: Seq<u8>, version: i16) -> ReadOutcome<Seq<(u32, Seq<u8>)>> {
        if version >= 9 {
            spec_read_tagged_fields(s)
        } else {
            Ok((Seq::empty(), s))
        }
    }

    pub open spec fn spec_read(s: Seq<u8>, version: i16) -> ReadOutcome<MetadataResponseDataView> {
        if version < 0 || version > 13 {
            Err(Error::UnsupportedVersion(UnsupportedVersion { api_key: 3, version }))
        } else {
            match (Self::spec_read_throttle_time_ms(s, version)) {
                Err(e) => Err(e),
                Ok((throttle_time_ms, s)) => match (Self::spec_read_brokers(s, version)) {
                    Err(e) => Err(e),
                    Ok((brokers, s)) => match (Self::spec_read_cluster_id(s, version)) {
                        Err(e) => Err(e),
                        Ok((cluster_id, s)) => match (Self::spec_read_controller_id(s, version)) {
                            Err(e) => Err(e),
                            Ok((controller_id, s)) => match (Self::spec_read_topics(s, version)) {
                                Err(e) => Err(e),
                                Ok((topics, s)) => match (Self::spec_read_cluster_authorized_operations(s, version)) {
                                    Err(e) => Err(e),
                                    Ok((cluster_authorized_operations, s)) => match (Self::spec_read_error_code(s, version)) {
                                        Err(e) => Err(e),
                                        Ok((error_code, s)) => match (Self::spec_read_tags(s, version)) {
                                            Err(e) => Err(e),
                                            Ok((unknown_tagged_fields, s)) => Ok((MetadataResponseDataView {
                                                        throttle_time_ms: throttle_time_ms,
                                                        brokers: brokers,
                                                        cluster_id: cluster_id,
                                                        controller_id: controller_id,
                                                        topics: topics,
                                                        cluster_authorized_operations: cluster_authorized_operations,
                                                        error_code: error_code,
                                                        unknown_tagged_fields: unknown_tagged_fields,
                                                    }, s)),
                                        },
                                    },
                                },
                            },
                        },
                    },
                },
            }
        }
    }

    /// What writing the `throttle_time_ms` field of `m` appends.
    #[verifier::opaque]
    pub open spec fn spec_write_throttle_time_ms(m: MetadataResponseDataView, version: i16) -> WriteOutcome {
        if version >= 3 {
            spec_write_i32(m.throttle_time_ms)
        } else {
            if m.throttle_time_ms != 0_i32 {
                fail(Error::UnsupportedFieldVersion(UnsupportedFieldVersion { api_key: 3, field: "throttle_time_ms", version }))
            } else {
                emit(Seq::empty())
            }
        }
    }

    /// What writing the `brokers` field of `m` appends.
    #[verifier::opaque]
    pub open spec fn spec_write_brokers(m: MetadataResponseDataView, version: i16) -> WriteOutcome {
        if version >= 9 {
            spec_write_array::<MetadataResponseBroker>(m.brokers, version, true)
        } else {
            spec_write_array::<MetadataResponseBroker>(m.brokers, version, false)
        }
    }

    /// What writing the `cluster_id` field of `m` appends.
    #[verifier::opaque]
    pub open spec fn spec_write_cluster_id(m: MetadataResponseDataView, version: i16) -> WriteOutcome {
        if version >= 2 {
            if version >= 9 {
                spec_write_compact_nullable_string(m.cluster_id)
            } else {
                spec_write_nullable_string(m.cluster_id)
            }
        } else {
            if m.cluster_id is Some {
                fail(Error::UnsupportedFieldVersion(UnsupportedFieldVersion { api_key: 3, field: "cluster_id", version }))
            } else {
                emit(Seq::empty())
            }
        }
    }

    /// What writing the `controller_id` field of `m` appends.
    #[verifier::opaque]
    pub open spec fn spec_write_controller_id(m: MetadataResponseDataView, version: i16) -> WriteOutcome {
        if version >= 1 {
            spec_write_i32(m.controller_id)
        } else {
            if m.controller_id != -1i32 {
                fail(Error::UnsupportedFieldVersion(UnsupportedFieldVersion { api_key: 3, field: "controller_id", version }))
            } else {
                emit(Seq::empty())
            }
        }
    }

    /// What writing the `topics` field of `m` appends.
    #[verifier::opaque]
    pub open spec fn spec_write_topics(m: MetadataResponseDataView, version: i16) -> WriteOutcome {
        if version >= 9 {
            spec_write_array::<MetadataResponseTopic>(m.topics, version, true)
        } else {
            spec_write_array::<MetadataResponseTopic>(m.topics, version, false)
        }
    }

    /// What writing the `cluster_authorized_operations` field of `m` appends.
    #[verifier::opaque]
    pub open spec fn spec_write_cluster_authorized_operations(m: MetadataResponseDataView, version: i16) -> WriteOutcome {
        if version >= 8 && version <= 10 {
            spec_write_i32(m.cluster_authorized_operations)
        } else {
            if m.cluster_authorized_operations != i32::MIN {
                fail(Error::UnsupportedFieldVersion(UnsupportedFieldVersion { api_key: 3, field: "cluster_authorized_operations", version }))
            } else {
                emit(Seq::empty())
            }
        }
    }

    /// What writing the `error_code` field of `m` appends.
    #[verifier::opaque]
    pub open spec fn spec_write_error_code(m: MetadataResponseDataView, version: i16) -> WriteOutcome {
        if version >= 13 {
            spec_write_i16(m.error_code)
        } else {
            if m.error_code != 0_i16 {
                fail(Error::UnsupportedFieldVersion(UnsupportedFieldVersion { api_key: 3, field: "error_code", version }))
            } else {
                emit(Seq::empty())
            }
        }
    }

    /// What writing the tagged fields of `m` appends.
    #[verifier::opaque]
    pub open spec fn spec_write_tags(m: MetadataResponseDataView, version: i16) -> WriteOutcome {
        if version >= 9 {
            spec_write_tagged_fields(sorted_by_tag(m.unknown_tagged_fields))
        } else {
            emit(Seq::empty())
        }
    }

    pub open spec fn spec_write(m: MetadataResponseDataView, version: i16) -> WriteOutcome {
        if version < 0 || version > 13 {
            fail(Error::UnsupportedVersion(UnsupportedVersion { api_key: 3, version }))
        } else {
            chain(
                chain(
                    chain(
                        chain(
                            chain(
                                chain(
                                    chain(
                                        Self::spec_write_throttle_time_ms(m, version),
                                        Self::spec_write_brokers(m, version),
                                    ),
                                    Self::spec_write_cluster_id(m, version),
                                ),
                                Self::spec_write_controller_id(m, version),
                            ),
                            Self::spec_write_topics(m, version),
                        ),
                        Self::spec_write_cluster_authorized_operations(m, version),
                    ),
                    Self::spec_write_error_code(m, version),
                ),
                Self::spec_write_tags(m, version),
            )
        }
    }

    /// Whether reading back what writing `m` in `version` appends gives `m`:
    /// fields that the version does not carry hold their default values, and
    /// tagged fields come in the order in which they are written.
    pub open spec fn canonical(m: MetadataResponseDataView, version: i16) -> bool {
        &&& all_canonical::<MetadataResponseBroker>(m.brokers, version)
        &&& all_canonical::<MetadataResponseTopic>(m.topics, version)
        &&& (if version >= 9 {
                tags_in_order(m.unknown_tagged_fields)
            } else {
                m.unknown_tagged_fields.len() == 0
        })
    }

    proof fn lemma_round_trip_throttle_time_ms(m: MetadataResponseDataView, version: i16, rest: Seq<u8>)
        requires
            Self::canonical(m, version),
            Self::spec_write_throttle_time_ms(m, version) is Ok,
        ensures
            Self::spec_read_throttle_time_ms(written(Self::spec_write_throttle_time_ms(m, version)) + rest, version) == Ok::<(i32, Seq<u8>), Error>((m.throttle_time_ms, rest)),
    {
        reveal(MetadataResponseData::spec_read_throttle_time_ms);
        reveal(MetadataResponseData::spec_write_throttle_time_ms);
        if version >= 3 {
            lemma_i32_roundtrip(m.throttle_time_ms, rest);
        } else {
            assert(Seq::<u8>::empty() + rest =~= rest);
        }
    }

    proof fn lemma_round_trip_brokers(m: MetadataResponseDataView, version: i16, rest: Seq<u8>)
        requires
            Self::canonical(m, version),
            Self::spec_write_brokers(m, version) is Ok,
        ensures
            Self::spec_read_brokers(written(Self::spec_write_brokers(m, version)) + rest, version) == Ok::<(Seq<MetadataResponseBrokerView>, Seq<u8>), Error>((m.brokers, rest)),
    {
        reveal(MetadataResponseData::spec_read_brokers);
        reveal(MetadataResponseData::spec_write_brokers);
        if version >= 9 {
            lemma_array_round_trip::<MetadataResponseBroker>(m.brokers, version, true, rest);
        } else {
            lemma_array_round_trip::<MetadataResponseBroker>(m.brokers, version, false, rest);
        }
    }

    proof fn lemma_round_trip_cluster_id(m: MetadataResponseDataView, version: i16, rest: Seq<u8>)
        requires
            Self::canonical(m, version),
            Self::spec_write_cluster_id(m, version) is Ok,
        ensures
            Self::spec_read_cluster_id(written(Self::spec_write_cluster_id(m, version)) + rest, version) == Ok::<(Option<Seq<u8>>, Seq<u8>), Error>((m.cluster_id, rest)),
    {
        reveal(MetadataResponseData::spec_read_cluster_id);
        reveal(MetadataResponseData::spec_write_cluster_id);
        if version >= 2 {
            if version >= 9 {
                lemma_compact_nullable_string_round_trip(m.cluster_id, rest);
            } else {
                lemma_nullable_string_round_trip(m.cluster_id, rest);
            }
        } else {
            assert(Seq::<u8>::empty() + rest =~= rest);
        }
    }

    proof fn lemma_round_trip_controller_id(m: MetadataResponseDataView, version: i16, rest: Seq<u8>)
        requires
            Self::canonical(m, version),
            Self::spec_write_controller_id(m, version) is Ok,
        ensures
            Self::spec_read_controller_id(written(Self::spec_write_controller_id(m, version)) + rest, version) == Ok::<(i32, Seq<u8>), Error>((m.controller_id, rest)),
    {
        reveal(MetadataResponseData::spec_read_controller_id);
        reveal(MetadataResponseData::spec_write_controller_id);
        if version >= 1 {
            lemma_i32_roundtrip(m.controller_id, rest);
        } else {
            assert(Seq::<u8>::empty() + rest =~= rest);
        }
    }

    proof fn lemma_round_trip_topics(m: MetadataResponseDataView, version: i16, rest: Seq<u8>)
        requires
            Self::canonical(m, version),
            Self::spec_write_topics(m, version) is Ok,
        ensures
            Self::spec_read_topics(written(Self::spec_write_topics(m, version)) + rest, version) == Ok::<(Seq<MetadataResponseTopicView>, Seq<u8>), Error>((m.topics, rest)),
    {
        reveal(MetadataResponseData::spec_read_topics);
        reveal(MetadataResponseData::spec_write_topics);
        if version >= 9 {
            lemma_array_round_trip::<MetadataResponseTopic>(m.topics, version, true, rest);
        } else {
            lemma_array_round_trip::<MetadataResponseTopic>(m.topics, version, false, rest);
        }
    }

    proof fn lemma_round_trip_cluster_authorized_operations(m: MetadataResponseDataView, version: i16, rest: Seq<u8>)
        requires
            Self::canonical(m, version),
            Self::spec_write_cluster_authorized_operations(m, version) is Ok,
        ensures
            Self::spec_read_cluster_authorized_operations(written(Self::spec_write_cluster_authorized_operations(m, version)) + rest, version) == Ok::<(i32, Seq<u8>), Error>((m.cluster_authorized_operations, rest)),
    {
        reveal(MetadataResponseData::spec_read_cluster_authorized_operations);
        reveal(MetadataResponseData::spec_write_cluster_authorized_operations);
        if version >= 8 && version <= 10 {
            lemma_i32_roundtrip(m.cluster_authorized_operations, rest);
        } else {
            assert(Seq::<u8>::empty() + rest =~= rest);
        }
    }

    proof fn lemma_round_trip_error_code(m: MetadataResponseDataView, version: i16, rest: Seq<u8>)
        requires
            Self::canonical(m, version),
            Self::spec_write_error_code(m, version) is Ok,
        ensures
            Self::spec_read_error_code(written(Self::spec_write_error_code(m, version)) + rest, version) == Ok::<(i16, Seq<u8>), Error>((m.error_code, rest)),
    {
        reveal(MetadataResponseData::spec_read_error_code);
        reveal(MetadataResponseData::spec_write_error_code);
        if version >= 13 {
            lemma_i16_roundtrip(m.error_code, rest);
        } else {
            assert(Seq::<u8>::empty() + rest =~= rest);
        }
    }

    proof fn lemma_round_trip_tags(m: MetadataResponseDataView, version: i16, rest: Seq<u8>)
        requires
            Self::canonical(m, version),
            Self::spec_write_tags(m, version) is Ok,
        ensures
            Self::spec_read_tags(written(Self::spec_write_tags(m, version)) + rest, version) == Ok::<(Seq<(u32, Seq<u8>)>, Seq<u8>), Error>((m.unknown_tagged_fields, rest)),
    {
        reveal(MetadataResponseData::spec_read_tags);
        reveal(MetadataResponseData::spec_write_tags);
        if version >= 9 {
            lemma_sorted_by_tag_in_order(m.unknown_tagged_fields);
            lemma_tagged_fields_round_trip(m.unknown_tagged_fields, rest);
        } else {
            assert(Seq::<u8>::empty() + rest =~= rest);
            assert(m.unknown_tagged_fields =~= Seq::empty());
        }
    }

    /// Reading back what writing `m` in `version` appends gives `m` again, and
    /// leaves what follows, for every canonical message whose write succeeds.
    #[verifier::rlimit(100)]
    #[verifier::spinoff_prover]
    pub proof fn lemma_round_trip(m: MetadataResponseDataView, version: i16, rest: Seq<u8>)
        requires
            Self::canonical(m, version),
            Self::spec_write(m, version) is Ok,
        ensures
            Self::spec_read(written(Self::spec_write(m, version)) + rest, version) == Ok::<(MetadataResponseDataView, Seq<u8>), Error>((m, rest)),
    {
        let b0 = written(Self::spec_write_throttle_time_ms(m, version));
        let b1 = written(Self::spec_write_brokers(m, version));
        let b2 = written(Self::spec_write_cluster_id(m, version));
        let b3 = written(Self::spec_write_controller_id(m, version));
        let b4 = written(Self::spec_write_topics(m, version));
        let b5 = written(Self::spec_write_cluster_authorized_operations(m, version));
        let b6 = written(Self::spec_write_error_code(m, version));
        let b7 = written(Self::spec_write_tags(m, version));
        let t8 = rest;
        let t7 = b7 + t8;
        let t6 = b6 + t7;
        let t5 = b5 + t6;
        let t4 = b4 + t5;
        let t3 = b3 + t4;
        let t2 = b2 + t3;
        let t1 = b1 + t2;
        let t0 = b0 + t1;
        let w0 = Self::spec_write_throttle_time_ms(m, version);
        let w1 = chain(w0, Self::spec_write_brokers(m, version));
        let w2 = chain(w1, Self::spec_write_cluster_id(m, version));
        let w3 = chain(w2, Self::spec_write_controller_id(m, version));
        let w4 = chain(w3, Self::spec_write_topics(m, version));
        let w5 = chain(w4, Self::spec_write_cluster_authorized_operations(m, version));
        let w6 = chain(w5, Self::spec_write_error_code(m, version));
        let w7 = chain(w6, Self::spec_write_tags(m, version));
        assert(Self::spec_write(m, version) == w7);
        assert(written(w7) + t8 =~= written(w6) + t7);
        assert(written(w6) + t7 =~= written(w5) + t6);
        assert(written(w5) + t6 =~= written(w4) + t5);
        assert(written(w4) + t5 =~= written(w3) + t4);
        assert(written(w3) + t4 =~= written(w2) + t3);
        assert(written(w2) + t3 =~= written(w1) + t2);
        assert(written(w1) + t2 =~= written(w0) + t1);
        Self::lemma_round_trip_throttle_time_ms(m, version, t1);
        Self::lemma_round_trip_brokers(m, version, t2);
        Self::lemma_round_trip_cluster_id(m, version, t3);
        Self::lemma_round_trip_controller_id(m, version, t4);
        Self::lemma_round_trip_topics(m, version, t5);
        Self::lemma_round_trip_cluster_authorized_operations(m, version, t6);
        Self::lemma_round_trip_error_code(m, version, t7);
        Self::lemma_round_trip_tags(m, version, t8);
    }

    /// In a version that does not carry `unknown_tagged_fields`, writing ignores its value.
    pub proof fn lemma_write_ignores_unknown_tagged_fields(m: MetadataResponseDataView, value: Seq<(u32, Seq<u8>)>, version: i16)
        requires
            !(version >= 9),
        ensures
            Self::spec_write((MetadataResponseDataView { unknown_tagged_fields: value, ..m }), version) == Self::spec_write(m, version),
    {
        reveal(MetadataResponseData::spec_write_throttle_time_ms);
        reveal(MetadataResponseData::spec_write_brokers);
        reveal(MetadataResponseData::spec_write_cluster_id);
        reveal(MetadataResponseData::spec_write_controller_id);
        reveal(MetadataResponseData::spec_write_topics);
        reveal(MetadataResponseData::spec_write_cluster_authorized_operations);
        reveal(MetadataResponseData::spec_write_error_code);
        reveal(MetadataResponseData::spec_write_tags);
    }

    /// The default message holds the default value of each field of the schema.
    pub proof fn lemma_default_values()
        ensures
            Self::default_view().throttle_time_ms == (0_i32),
            Self::default_view().brokers.len() == 0,
            (Self::default_view().cluster_id is None),
            Self::default_view().controller_id == (-1i32),
            Self::default_view().topics.len() == 0,
            Self::default_view().cluster_authorized_operations == (i32::MIN),
            Self::default_view().error_code == (0_i16),
            Self::default_view().unknown_tagged_fields.len() == 0,
    {
    }

    /// Each integer, boolean and identifier field is written as its standard
    /// big-endian bytes (a boolean as `1` or `0`) in the versions that carry
    /// it, and as nothing in the others; reading it takes those bytes back (any
    /// byte other than `0` reads as `true`), or gives its default value.
    pub proof fn lemma_field_encodings(m: MetadataResponseDataView, s: Seq<u8>, version: i16)
        ensures
            version >= 3 ==> Self::spec_write_throttle_time_ms(m, version) == Ok::<Seq<u8>, (Error, Seq<u8>)>(u32_bytes(m.throttle_time_ms as u32)),
            version >= 1 ==> Self::spec_write_controller_id(m, version) == Ok::<Seq<u8>, (Error, Seq<u8>)>(u32_bytes(m.controller_id as u32)),
            version >= 8 && version <= 10 ==> Self::spec_write_cluster_authorized_operations(m, version) == Ok::<Seq<u8>, (Error, Seq<u8>)>(u32_bytes(m.cluster_authorized_operations as u32)),
            version >= 13 ==> Self::spec_write_error_code(m, version) == Ok::<Seq<u8>, (Error, Seq<u8>)>(u16_bytes(m.error_code as u16)),
            version >= 3 ==> Self::spec_read_throttle_time_ms(s, version) == spec_read_i32(s),
            !(version >= 3) ==> Self::spec_read_throttle_time_ms(s, version) == Ok::<(i32, Seq<u8>), Error>((0_i32, s)),
            version >= 1 ==> Self::spec_read_controller_id(s, version) == spec_read_i32(s),
            !(version >= 1) ==> Self::spec_read_controller_id(s, version) == Ok::<(i32, Seq<u8>), Error>((-1i32, s)),
            version >= 8 && version <= 10 ==> Self::spec_read_cluster_authorized_operations(s, version) == spec_read_i32(s),
            !(version >= 8 && version <= 10) ==> Self::spec_read_cluster_authorized_operations(s, version) == Ok::<(i32, Seq<u8>), Error>((i32::MIN, s)),
            version >= 13 ==> Self::spec_read_error_code(s, version) == spec_read_i16(s),
            !(version >= 13) ==> Self::spec_read_error_code(s, version) == Ok::<(i16, Seq<u8>), Error>((0_i16, s)),
    {
        reveal(MetadataResponseData::spec_write_throttle_time_ms);
        reveal(MetadataResponseData::spec_read_throttle_time_ms);
        reveal(MetadataResponseData::spec_write_controller_id);
        reveal(MetadataResponseData::spec_read_controller_id);
        reveal(MetadataResponseData::spec_write_cluster_authorized_operations);
        reveal(MetadataResponseData::spec_read_cluster_authorized_operations);
        reveal(MetadataResponseData::spec_write_error_code);
        reveal(MetadataResponseData::spec_read_error_code);
    }

    /// Whether writing `m` in `version` succeeds, said over its parts: the
    /// version is one the schema covers, every field that the version cannot
    /// carry holds its default value, and every string, byte string, array and
    /// tagged field fits its length prefix.
    pub open spec fn writable(m: MetadataResponseDataView, version: i16) -> bool {
        &&& 0 <= version <= 13
        &&& (if version >= 3 {
                true
            } else {
                !(m.throttle_time_ms != 0_i32)
        })
        &&& (m.brokers.len() <= i32::MAX && all_writable::<MetadataResponseBroker>(m.brokers, version))
        &&& (if version >= 2 {
                (m.cluster_id matches Some(b) ==> b.len() <= 0x7fff)
            } else {
                !(m.cluster_id is Some)
        })
        &&& (if version >= 1 {
                true
            } else {
                !(m.controller_id != -1i32)
        })
        &&& (m.topics.len() <= i32::MAX && all_writable::<MetadataResponseTopic>(m.topics, version))
        &&& (if version >= 8 && version <= 10 {
                true
            } else {
                !(m.cluster_authorized_operations != i32::MIN)
        })
        &&& (if version >= 13 {
                true
            } else {
                !(m.error_code != 0_i16)
        })
        &&& (if version >= 9 {
                m.unknown_tagged_fields.len() <= u32::MAX && tags_fit(m.unknown_tagged_fields)
            } else {
                true
        })
    }

    proof fn lemma_writable_throttle_time_ms(m: MetadataResponseDataView, version: i16)
        ensures
            Self::spec_write_throttle_time_ms(m, version) is Ok <==> (if version >= 3 { true } else { !(m.throttle_time_ms != 0_i32) }),
    {
        reveal(MetadataResponseData::spec_write_throttle_time_ms);
    }

    proof fn lemma_writable_brokers(m: MetadataResponseDataView, version: i16)
        ensures
            Self::spec_write_brokers(m, version) is Ok <==> (m.brokers.len() <= i32::MAX && all_writable::<MetadataResponseBroker>(m.brokers, version)),
    {
        reveal(MetadataResponseData::spec_write_brokers);
        if version >= 9 {
            lemma_array_writable::<MetadataResponseBroker>(m.brokers, version, true);
        } else {
            lemma_array_writable::<MetadataResponseBroker>(m.brokers, version, false);
        }
    }

    proof fn lemma_writable_cluster_id(m: MetadataResponseDataView, version: i16)
        ensures
            Self::spec_write_cluster_id(m, version) is Ok <==> (if version >= 2 { (m.cluster_id matches Some(b) ==> b.len() <= 0x7fff) } else { !(m.cluster_id is Some) }),
    {
        reveal(MetadataResponseData::spec_write_cluster_id);
    }

    proof fn lemma_writable_controller_id(m: MetadataResponseDataView, version: i16)
        ensures
            Self::spec_write_controller_id(m, version) is Ok <==> (if version >= 1 { true } else { !(m.controller_id != -1i32) }),
    {
        reveal(MetadataResponseData::spec_write_controller_id);
    }

    proof fn lemma_writable_topics(m: MetadataResponseDataView, version: i16)
        ensures
            Self::spec_write_topics(m, version) is Ok <==> (m.topics.len() <= i32::MAX && all_writable::<MetadataResponseTopic>(m.topics, version)),
    {
        reveal(MetadataResponseData::spec_write_topics);
        if version >= 9 {
            lemma_array_writable::<MetadataResponseTopic>(m.topics, version, true);
        } else {
            lemma_array_writable::<MetadataResponseTopic>(m.topics, version, false);
        }
    }

    proof fn lemma_writable_cluster_authorized_operations(m: MetadataResponseDataView, version: i16)
        ensures
            Self::spec_write_cluster_authorized_operations(m, version) is Ok <==> (if version >= 8 && version <= 10 { true } else { !(m.cluster_authorized_operations != i32::MIN) }),
    {
        reveal(MetadataResponseData::spec_write_cluster_authorized_operations);
    }

    proof fn lemma_writable_error_code(m: MetadataResponseDataView, version: i16)
        ensures
            Self::spec_write_error_code(m, version) is Ok <==> (if version >= 13 { true } else { !(m.error_code != 0_i16) }),
    {
        reveal(MetadataResponseData::spec_write_error_code);
    }

    proof fn lemma_writable_tags(m: MetadataResponseDataView, version: i16)
        ensures
            Self::spec_write_tags(m, version) is Ok <==> (if version >= 9 { m.unknown_tagged_fields.len() <= u32::MAX && tags_fit(m.unknown_tagged_fields) } else { true }),
    {
        reveal(MetadataResponseData::spec_write_tags);
        if version >= 9 {
            lemma_sorted_tags_fit(m.unknown_tagged_fields);
            lemma_tagged_fields_writable(sorted_by_tag(m.unknown_tagged_fields));
        }
    }

    /// Writing `m` in `version` succeeds exactly when `m` is writable in it;
    /// so do `write` and `encoded_len`, whose results follow `spec_write`.
    #[verifier::rlimit(78)]
    pub proof fn lemma_writable(m: MetadataResponseDataView, version: i16)
        ensures
            Self::spec_write(m, version) is Ok <==> Self::writable(m, version),
    {
        Self::lemma_writable_throttle_time_ms(m, version);
        Self::lemma_writable_brokers(m, version);
        Self::lemma_writable_cluster_id(m, version);
        Self::lemma_writable_controller_id(m, version);
        Self::lemma_writable_topics(m, version);
        Self::lemma_writable_cluster_authorized_operations(m, version);
        Self::lemma_writable_error_code(m, version);
        Self::lemma_writable_tags(m, version);
    }

    /// A version outside the range that the schema covers is refused, by
    /// reads and by writes alike, before anything is read or written.
    pub proof fn lemma_refused_version(m: MetadataResponseDataView, s: Seq<u8>, version: i16)
        requires
            version < 0 || version > 13,
        ensures
            Self::spec_read(s, version) == Err::<(MetadataResponseDataView, Seq<u8>), Error>(Error::UnsupportedVersion(UnsupportedVersion { api_key: 3, version })),
            Self::spec_write(m, version) == fail(Error::UnsupportedVersion(UnsupportedVersion { api_key: 3, version })),
    {
    }

    pub fn with_throttle_time_ms(self, value: i32) -> (r: Self)
        ensures
            r@ == (MetadataResponseDataView { throttle_time_ms: value, ..self@ }),
    {
        let mut r = self;
        r.throttle_time_ms = value;
        r
    }

    pub fn with_brokers(self, value: Vec<MetadataResponseBroker>) -> (r: Self)
        ensures
            r@ == (MetadataResponseDataView { brokers: views(value@), ..self@ }),
    {
        let mut r = self;
        r.brokers = value;
        r
    }

    pub fn with_cluster_id(self, value: Option<KafkaString>) -> (r: Self)
        ensures
            r@ == (MetadataResponseDataView { cluster_id: opt_view(value), ..self@ }),
    {
        let mut r = self;
        r.cluster_id = value;
        r
    }

    pub fn with_controller_id(self, value: i32) -> (r: Self)
        ensures
            r@ == (MetadataResponseDataView { controller_id: value, ..self@ }),
    {
        let mut r = self;
        r.controller_id = value;
        r
    }

    pub fn with_topics(self, value: Vec<MetadataResponseTopic>) -> (r: Self)
        ensures
            r@ == (MetadataResponseDataView { topics: views(value@), ..self@ }),
    {
        let mut r = self;
        r.topics = value;
        r
    }

    pub fn with_cluster_authorized_operations(self, value: i32) -> (r: Self)
        ensures
            r@ == (MetadataResponseDataView { cluster_authorized_operations: value, ..self@ }),
    {
        let mut r = self;
        r.cluster_authorized_operations = value;
        r
    }

    pub fn with_error_code(self, value: i16) -> (r: Self)
        ensures
            r@ == (MetadataResponseDataView { error_code: value, ..self@ }),
    {
        let mut r = self;
        r.error_code = value;
        r
    }

    fn read_throttle_time_ms(buf: &mut Bytes, version: i16) -> (r: Result<i32, Error>)
        ensures
            read_as(Self::spec_read_throttle_time_ms(bytes_seq(*old(buf)), version), *final(buf), r),
            took_front(*old(buf), *final(buf)),
    {
        proof {
            reveal(MetadataResponseData::spec_read_throttle_time_ms);
        }
        Ok(if version >= 3 {
                read_i32(buf)?
            } else {
                0_i32
        })
    }

    fn read_brokers(buf: &mut Bytes, version: i16) -> (r: Result<Vec<MetadataResponseBroker>, Error>)
        ensures
            read_vec_as(Self::spec_read_brokers(bytes_seq(*old(buf)), version), *final(buf), r),
            took_front(*old(buf), *final(buf)),
    {
        proof {
            reveal(MetadataResponseData::spec_read_brokers);
        }
        Ok(if version >= 9 {
                read_array::<MetadataResponseBroker>(buf, version, true)?
            } else {
                read_array::<MetadataResponseBroker>(buf, version, false)?
        })
    }

    fn read_cluster_id(buf: &mut Bytes, version: i16) -> (r: Result<Option<KafkaString>, Error>)
        ensures
            read_opt_as(Self::spec_read_cluster_id(bytes_seq(*old(buf)), version), *final(buf), r),
            took_front(*old(buf), *final(buf)),
    {
        proof {
            reveal(MetadataResponseData::spec_read_cluster_id);
        }
        Ok(if version >= 2 {
                if version >= 9 {
                    read_compact_nullable_string(buf)?
                } else {
                    read_nullable_string(buf)?
                }
            } else {
                None
        })
    }

    fn read_controller_id(buf: &mut Bytes, version: i16) -> (r: Result<i32, Error>)
        ensures
            read_as(Self::spec_read_controller_id(bytes_seq(*old(buf)), version), *final(buf), r),
            took_front(*old(buf), *final(buf)),
    {
        proof {
            reveal(MetadataResponseData::spec_read_controller_id);
        }
        Ok(if version >= 1 {
                read_i32(buf)?
            } else {
                -1i32
        })
    }

    fn read_topics(buf: &mut Bytes, version: i16) -> (r: Result<Vec<MetadataResponseTopic>, Error>)
        ensures
            read_vec_as(Self::spec_read_topics(bytes_seq(*old(buf)), version), *final(buf), r),
            took_front(*old(buf), *final(buf)),
    {
        proof {
            reveal(MetadataResponseData::spec_read_topics);
        }
        Ok(if version >= 9 {
                read_array::<MetadataResponseTopic>(buf, version, true)?
            } else {
                read_array::<MetadataResponseTopic>(buf, version, false)?
        })
    }

    fn read_cluster_authorized_operations(buf: &mut Bytes, version: i16) -> (r: Result<i32, Error>)
        ensures
            read_as(Self::spec_read_cluster_authorized_operations(bytes_seq(*old(buf)), version), *final(buf), r),
            took_front(*old(buf), *final(buf)),
    {
        proof {
            reveal(MetadataResponseData::spec_read_cluster_authorized_operations);
        }
        Ok(if version >= 8 && version <= 10 {
                read_i32(buf)?
            } else {
                i32::MIN
        })
    }

    fn read_error_code(buf: &mut Bytes, version: i16) -> (r: Result<i16, Error>)
        ensures
            read_as(Self::spec_read_error_code(bytes_seq(*old(buf)), version), *final(buf), r),
            took_front(*old(buf), *final(buf)),
    {
        proof {
            reveal(MetadataResponseData::spec_read_error_code);
        }
        Ok(if version >= 13 {
                read_i16(buf)?
            } else {
                0_i16
        })
    }

    fn read_tags(buf: &mut Bytes, version: i16) -> (r: Result<Vec<RawTaggedField>, Error>)
        ensures
            read_vec_as(Self::spec_read_tags(bytes_seq(*old(buf)), version), *final(buf), r),
            took_front(*old(buf), *final(buf)),
    {
        proof {
            reveal(MetadataResponseData::spec_read_tags);
        }
        Ok(if version >= 9 {
                read_tagged_fields(buf)?
            } else {
                empty_vec()
        })
    }

    #[verifier::rlimit(68)]
    #[verifier::spinoff_prover]
    pub fn read(buf: &mut Bytes, version: i16) -> (r: Result<Self, Error>)
        ensures
            read_as(Self::spec_read(bytes_seq(*old(buf)), version), *final(buf), r),
            took_front(*old(buf), *final(buf)),
            (version < 0 || version > 13) ==> bytes_seq(*final(buf)) == bytes_seq(*old(buf)),
    {
        if version < 0 || version > 13 {
            return Err(Error::UnsupportedVersion(UnsupportedVersion::new(3, version)));
        }
        let throttle_time_ms = Self::read_throttle_time_ms(buf, version)?;
        let brokers = Self::read_brokers(buf, version)?;
        let cluster_id = Self::read_cluster_id(buf, version)?;
        let controller_id = Self::read_controller_id(buf, version)?;
        let topics = Self::read_topics(buf, version)?;
        let cluster_authorized_operations = Self::read_cluster_authorized_operations(buf, version)?;
        let error_code = Self::read_error_code(buf, version)?;
        let _unknown_tagged_fields = Self::read_tags(buf, version)?;
        Ok(MetadataResponseData {
                throttle_time_ms: throttle_time_ms,
                brokers: brokers,
                cluster_id: cluster_id,
                controller_id: controller_id,
                topics: topics,
                cluster_authorized_operations: cluster_authorized_operations,
                error_code: error_code,
                _unknown_tagged_fields: _unknown_tagged_fields,
        })
    }

    #[verifier::rlimit(100)]
    #[verifier::spinoff_prover]
    pub fn write(&self, buf: &mut BytesMut, version: i16) -> (r: Result<(), Error>)
        requires
            has_room(Self::spec_write(self@, version), *old(buf)),
        ensures
            wrote(Self::spec_write(self@, version), *old(buf), *final(buf), r),
    {
        if version < 0 || version > 13 {
            return Err(Error::UnsupportedVersion(UnsupportedVersion::new(3, version)));
        }
        let ghost m = self@;
        proof {
            reveal(MetadataResponseData::spec_write_throttle_time_ms);
            reveal(MetadataResponseData::spec_write_brokers);
            reveal(MetadataResponseData::spec_write_cluster_id);
            reveal(MetadataResponseData::spec_write_controller_id);
            reveal(MetadataResponseData::spec_write_topics);
            reveal(MetadataResponseData::spec_write_cluster_authorized_operations);
            reveal(MetadataResponseData::spec_write_error_code);
            reveal(MetadataResponseData::spec_write_tags);
        }
        let ghost s0 = Self::spec_write_throttle_time_ms(m, version);
        let ghost w0 = s0;
        let ghost s1 = Self::spec_write_brokers(m, version);
        let ghost w1 = chain(w0, s1);
        let ghost s2 = Self::spec_write_cluster_id(m, version);
        let ghost w2 = chain(w1, s2);
        let ghost s3 = Self::spec_write_controller_id(m, version);
        let ghost w3 = chain(w2, s3);
        let ghost s4 = Self::spec_write_topics(m, version);
        let ghost w4 = chain(w3, s4);
        let ghost s5 = Self::spec_write_cluster_authorized_operations(m, version);
        let ghost w5 = chain(w4, s5);
        let ghost s6 = Self::spec_write_error_code(m, version);
        let ghost w6 = chain(w5, s6);
        let ghost s7 = Self::spec_write_tags(m, version);
        let ghost w7 = chain(w6, s7);
        assert(Self::spec_write(m, version) == w7);
        assert(written(w6).len() <= written(w7).len() && (w6 is Err ==> w7 == w6));
        assert(written(w5).len() <= written(w7).len() && (w5 is Err ==> w7 == w5));
        assert(written(w4).len() <= written(w7).len() && (w4 is Err ==> w7 == w4));
        assert(written(w3).len() <= written(w7).len() && (w3 is Err ==> w7 == w3));
        assert(written(w2).len() <= written(w7).len() && (w2 is Err ==> w7 == w2));
        assert(written(w1).len() <= written(w7).len() && (w1 is Err ==> w7 == w1));
        assert(written(w0).len() <= written(w7).len() && (w0 is Err ==> w7 == w0));
        let ghost mid = bytes_mut_seq(*buf);
        proof {
            lemma_append_empty(mid);
        }
        let r0 = if version >= 3 {
            {
                write_i32(buf, self.throttle_time_ms);
                Ok(())
            }
        } else {
            if self.throttle_time_ms != 0_i32 {
                Err(Error::UnsupportedFieldVersion(UnsupportedFieldVersion::new(3, "throttle_time_ms", version)))
            } else {
                Ok(())
            }
        };
        assert(bytes_mut_seq(*buf) == mid + written(s0));
        if r0.is_err() {
            return r0;
        }
        let ghost mid = bytes_mut_seq(*buf);
        proof {
            lemma_append_empty(mid);
        }
        let r1 = if version >= 9 {
            write_array::<MetadataResponseBroker>(buf, &self.brokers, version, true)
        } else {
            write_array::<MetadataResponseBroker>(buf, &self.brokers, version, false)
        };
        assert(bytes_mut_seq(*buf) == mid + written(s1));
        proof {
            lemma_step(bytes_mut_seq(*old(buf)), w0, s1);
        }
        if r1.is_err() {
            return r1;
        }
        let ghost mid = bytes_mut_seq(*buf);
        proof {
            lemma_append_empty(mid);
        }
        let r2 = if version >= 2 {
            if version >= 9 {
                write_compact_nullable_string(buf, &self.cluster_id)
            } else {
                write_nullable_string(buf, &self.cluster_id)
            }
        } else {
            if self.cluster_id.is_some() {
                Err(Error::UnsupportedFieldVersion(UnsupportedFieldVersion::new(3, "cluster_id", version)))
            } else {
                Ok(())
            }
        };
        assert(bytes_mut_seq(*buf) == mid + written(s2));
        proof {
            lemma_step(bytes_mut_seq(*old(buf)), w1, s2);
        }
        if r2.is_err() {
            return r2;
        }
        let ghost mid = bytes_mut_seq(*buf);
        proof {
            lemma_append_empty(mid);
        }
        let r3 = if version >= 1 {
            {
                write_i32(buf, self.controller_id);
                Ok(())
            }
        } else {
            if self.controller_id != -1i32 {
                Err(Error::UnsupportedFieldVersion(UnsupportedFieldVersion::new(3, "controller_id", version)))
            } else {
                Ok(())
            }
        };
        assert(bytes_mut_seq(*buf) == mid + written(s3));
        proof {
            lemma_step(bytes_mut_seq(*old(buf)), w2, s3);
        }
        if r3.is_err() {
            return r3;
        }
        let ghost mid = bytes_mut_seq(*buf);
        proof {
            lemma_append_empty(mid);
        }
        let r4 = if version >= 9 {
            write_array::<MetadataResponseTopic>(buf, &self.topics, version, true)
        } else {
            write_array::<MetadataResponseTopic>(buf, &self.topics, version, false)
        };
        assert(bytes_mut_seq(*buf) == mid + written(s4));
        proof {
            lemma_step(bytes_mut_seq(*old(buf)), w3, s4);
        }
        if r4.is_err() {
            return r4;
        }
        let ghost mid = bytes_mut_seq(*buf);
        proof {
            lemma_append_empty(mid);
        }
        let r5 = if version >= 8 && version <= 10 {
            {
                write_i32(buf, self.cluster_authorized_operations);
                Ok(())
            }
        } else {
            if self.cluster_authorized_operations != i32::MIN {
                Err(Error::UnsupportedFieldVersion(UnsupportedFieldVersion::new(3, "cluster_authorized_operations", version)))
            } else {
                Ok(())
            }
        };
        assert(bytes_mut_seq(*buf) == mid + written(s5));
        proof {
            lemma_step(bytes_mut_seq(*old(buf)), w4, s5);
        }
        if r5.is_err() {
            return r5;
        }
        let ghost mid = bytes_mut_seq(*buf);
        proof {
            lemma_append_empty(mid);
        }
        let r6 = if version >= 13 {
            {
                write_i16(buf, self.error_code);
                Ok(())
            }
        } else {
            if self.error_code != 0_i16 {
                Err(Error::UnsupportedFieldVersion(UnsupportedFieldVersion::new(3, "error_code", version)))
            } else {
                Ok(())
            }
        };
        assert(bytes_mut_seq(*buf) == mid + written(s6));
        proof {
            lemma_step(bytes_mut_seq(*old(buf)), w5, s6);
        }
        if r6.is_err() {
            return r6;
        }
        let ghost mid = bytes_mut_seq(*buf);
        proof {
            lemma_append_empty(mid);
        }
        let r7 = if version >= 9 {
            write_tagged_fields(buf, &sort_by_tag(&self._unknown_tagged_fields))
        } else {
            Ok(())
        };
        assert(bytes_mut_seq(*buf) == mid + written(s7));
        proof {
            lemma_step(bytes_mut_seq(*old(buf)), w6, s7);
        }
        if r7.is_err() {
            return r7;
        }
        Ok(())
    }

    #[verifier::rlimit(100)]
    #[verifier::spinoff_prover]
    pub fn encoded_len(&self, version: i16) -> (r: Result<usize, Error>)
        ensures
            r == len_result(Self::spec_write(self@, version)),
    {
        if version < 0 || version > 13 {
            return Err(Error::UnsupportedVersion(UnsupportedVersion::new(3, version)));
        }
        let ghost m = self@;
        proof {
            reveal(MetadataResponseData::spec_write_throttle_time_ms);
            reveal(MetadataResponseData::spec_write_brokers);
            reveal(MetadataResponseData::spec_write_cluster_id);
            reveal(MetadataResponseData::spec_write_controller_id);
            reveal(MetadataResponseData::spec_write_topics);
            reveal(MetadataResponseData::spec_write_cluster_authorized_operations);
            reveal(MetadataResponseData::spec_write_error_code);
            reveal(MetadataResponseData::spec_write_tags);
        }
        let ghost s0 = Self::spec_write_throttle_time_ms(m, version);
        let ghost w0 = s0;
        let ghost s1 = Self::spec_write_brokers(m, version);
        let ghost w1 = chain(w0, s1);
        let ghost s2 = Self::spec_write_cluster_id(m, version);
        let ghost w2 = chain(w1, s2);
        let ghost s3 = Self::spec_write_controller_id(m, version);
        let ghost w3 = chain(w2, s3);
        let ghost s4 = Self::spec_write_topics(m, version);
        let ghost w4 = chain(w3, s4);
        let ghost s5 = Self::spec_write_cluster_authorized_operations(m, version);
        let ghost w5 = chain(w4, s5);
        let ghost s6 = Self::spec_write_error_code(m, version);
        let ghost w6 = chain(w5, s6);
        let ghost s7 = Self::spec_write_tags(m, version);
        let ghost w7 = chain(w6, s7);
        assert(Self::spec_write(m, version) == w7);
        assert(w6 is Err ==> w7 == w6);
        assert(w5 is Err ==> w7 == w5);
        assert(w4 is Err ==> w7 == w4);
        assert(w3 is Err ==> w7 == w3);
        assert(w2 is Err ==> w7 == w2);
        assert(w1 is Err ==> w7 == w1);
        assert(w0 is Err ==> w7 == w0);
        let mut len: usize = 0;
        let l0 = if version >= 3 {
            Ok(4)
        } else {
            if self.throttle_time_ms != 0_i32 {
                Err(Error::UnsupportedFieldVersion(UnsupportedFieldVersion::new(3, "throttle_time_ms", version)))
            } else {
                Ok(0)
            }
        };
        assert(l0 == len_result(s0));
        let n0 = match l0 {
            Ok(n) => n,
            Err(e) => {
                return Err(e);
            },
        };
        len = saturating_sum(len, n0);
        assert(w0 is Ok && len == saturate(written(w0).len() as int));
        let l1 = if version >= 9 {
            array_len::<MetadataResponseBroker>(&self.brokers, version, true)
        } else {
            array_len::<MetadataResponseBroker>(&self.brokers, version, false)
        };
        assert(l1 == len_result(s1));
        let n1 = match l1 {
            Ok(n) => n,
            Err(e) => {
                return Err(e);
            },
        };
        proof {
            lemma_len_step(w0, s1, n1);
        }
        len = saturating_sum(len, n1);
        assert(w1 is Ok && len == saturate(written(w1).len() as int));
        let l2 = if version >= 2 {
            if version >= 9 {
                compact_nullable_string_len(&self.cluster_id)
            } else {
                nullable_string_len(&self.cluster_id)
            }
        } else {
            if self.cluster_id.is_some() {
                Err(Error::UnsupportedFieldVersion(UnsupportedFieldVersion::new(3, "cluster_id", version)))
            } else {
                Ok(0)
            }
        };
        assert(l2 == len_result(s2));
        let n2 = match l2 {
            Ok(n) => n,
            Err(e) => {
                return Err(e);
            },
        };
        proof {
            lemma_len_step(w1, s2, n2);
        }
        len = saturating_sum(len, n2);
        assert(w2 is Ok && len == saturate(written(w2).len() as int));
        let l3 = if version >= 1 {
            Ok(4)
        } else {
            if self.controller_id != -1i32 {
                Err(Error::UnsupportedFieldVersion(UnsupportedFieldVersion::new(3, "controller_id", version)))
            } else {
                Ok(0)
            }
        };
        assert(l3 == len_result(s3));
        let n3 = match l3 {
            Ok(n) => n,
            Err(e) => {
                return Err(e);
            },
        };
        proof {
            lemma_len_step(w2, s3, n3);
        }
        len = saturating_sum(len, n3);
        assert(w3 is Ok && len == saturate(written(w3).len() as int));
        let l4 = if version >= 9 {
            array_len::<MetadataResponseTopic>(&self.topics, version, true)
        } else {
            array_len::<MetadataResponseTopic>(&self.topics, version, false)
        };
        assert(l4 == len_result(s4));
        let n4 = match l4 {
            Ok(n) => n,
            Err(e) => {
                return Err(e);
            },
        };
        proof {
            lemma_len_step(w3, s4, n4);
        }
        len = saturating_sum(len, n4);
        assert(w4 is Ok && len == saturate(written(w4).len() as int));
        let l5 = if version >= 8 && version <= 10 {
            Ok(4)
        } else {
            if self.cluster_authorized_operations != i32::MIN {
                Err(Error::UnsupportedFieldVersion(UnsupportedFieldVersion::new(3, "cluster_authorized_operations", version)))
            } else {
                Ok(0)
            }
        };
        assert(l5 == len_result(s5));
        let n5 = match l5 {
            Ok(n) => n,
            Err(e) => {
                return Err(e);
            },
        };
        proof {
            lemma_len_step(w4, s5, n5);
        }
        len = saturating_sum(len, n5);
        assert(w5 is Ok && len == saturate(written(w5).len() as int));
        let l6 = if version >= 13 {
            Ok(2)
        } else {
            if self.error_code != 0_i16 {
                Err(Error::UnsupportedFieldVersion(UnsupportedFieldVersion::new(3, "error_code", version)))
            } else {
                Ok(0)
            }
        };
        assert(l6 == len_result(s6));
        let n6 = match l6 {
            Ok(n) => n,
            Err(e) => {
                return Err(e);
            },
        };
        proof {
            lemma_len_step(w5, s6, n6);
        }
        len = saturating_sum(len, n6);
        assert(w6 is Ok && len == saturate(written(w6).len() as int));
        let l7 = if version >= 9 {
            tagged_fields_len(&sort_by_tag(&self._unknown_tagged_fields))
        } else {
            Ok(0)
        };
        assert(l7 == len_result(s7));
        let n7 = match l7 {
            Ok(n) => n,
            Err(e) => {
                return Err(e);
            },
        };
        proof {
            lemma_len_step(w6, s7, n7);
        }
        len = saturating_sum(len, n7);
        assert(w7 is Ok && len == saturate(written(w7).len() as int));
        Ok(len)
    }
}

#[derive(Debug, PartialEq)]
pub struct MetadataResponseBroker {
    /// The broker ID.
    pub node_id: i32,
    /// The broker hostname.
    pub host: KafkaString,
    /// The broker port.
    pub port: i32,
    /// The rack of the broker, or null if it has not been assigned to a rack.
    pub rack: Option<KafkaString>,
    pub _unknown_tagged_fields: Vec<RawTaggedField>,
}

/// What a `MetadataResponseBroker` holds, as the specification sees it.
#[verifier::ext_equal]
pub struct MetadataResponseBrokerView {
    pub node_id: i32,
    pub host: Seq<u8>,
    pub port: i32,
    pub rack: Option<Seq<u8>>,
    pub unknown_tagged_fields: Seq<(u32, Seq<u8>)>,
}

impl View for MetadataResponseBroker {
    type V = MetadataResponseBrokerView;

    open spec fn view(&self) -> MetadataResponseBrokerView {
        MetadataResponseBrokerView {
            node_id: self.node_id,
            host: self.host@,
            port: self.port,
            rack: opt_view(self.rack),
            unknown_tagged_fields: views(self._unknown_tagged_fields@),
        }
    }
}

impl Clone for MetadataResponseBroker {
    fn clone(&self) -> (r: Self)
        ensures
            r@ == self@,
    {
        let r = MetadataResponseBroker {
            node_id: self.node_id,
            host: self.host.clone(),
            port: self.port,
            rack: match &self.rack {
                Some(x) => Some(x.clone()),
                None => None,
            },
            _unknown_tagged_fields: clone_vec(&self._unknown_tagged_fields),
        };
        assert(r@ =~= self@);
        r
    }
}

impl ViewClone for MetadataResponseBroker {
    fn clone_view(&self) -> (r: Self) {
        self.clone()
    }
}

impl Default for MetadataResponseBroker {
    fn default() -> (r: Self)
        ensures
            r@ == Self::default_view(),
    {
        let r = MetadataResponseBroker {
            node_id: 0_i32,
            host: KafkaString::default(),
            port: 0_i32,
            rack: None,
            _unknown_tagged_fields: empty_vec(),
        };
        assert(r@ =~= Self::default_view());
        r
    }
}

impl MetadataResponseBroker {
    pub open spec fn default_view() -> MetadataResponseBrokerView {
        MetadataResponseBrokerView {
            node_id: 0_i32,
            host: Seq::empty(),
            port: 0_i32,
            rack: None,
            unknown_tagged_fields: Seq::empty(),
        }
    }

    /// The `node_id` field, read from the front of `s`.
    #[verifier::opaque]
    pub open spec fn spec_read_node_id(s: Seq<u8>, version: i16) -> ReadOutcome<i32> {
        spec_read_i32(s)
    }

    /// The `host` field, read from the front of `s`.
    #[verifier::opaque]
    pub open spec fn spec_read_host(s: Seq<u8>, version: i16) -> ReadOutcome<Seq<u8>> {
        if version >= 9 {
            spec_read_compact_string(s)
        } else {
            spec_read_string(s)
        }
    }

    /// The `port` field, read from the front of `s`.
    #[verifier::opaque]
    pub open spec fn spec_read_port(s: Seq<u8>, version: i16) -> ReadOutcome<i32> {
        spec_read_i32(s)
    }

    /// The `rack` field, read from the front of `s`.
    #[verifier::opaque]
    pub open spec fn spec_read_rack(s: Seq<u8>, version: i16) -> ReadOutcome<Option<Seq<u8>>> {
        if version >= 1 {
            if version >= 9 {
                spec_read_compact_nullable_string(s)
            } else {
                spec_read_nullable_string(s)
            }
        } else {
            Ok((None, s))
        }
    }

    /// The tagged fields, read from the front of `s`.
    #[verifier::opaque]
    pub open spec fn spec_read_tags(s: Seq<u8>, version: i16) -> ReadOutcome<Seq<(u32, Seq<u8>)>> {
        if version >= 9 {
            spec_read_tagged_fields(s)
        } else {
            Ok((Seq::empty(), s))
        }
    }

    pub open spec fn spec_read(s: Seq<u8>, version: i16) -> ReadOutcome<MetadataResponseBrokerView> {
        match (Self::spec_read_node_id(s, version)) {
            Err(e) => Err(e),
            Ok((node_id, s)) => match (Self::spec_read_host(s, version)) {
                Err(e) => Err(e),
                Ok((host, s)) => match (Self::spec_read_port(s, version)) {
                    Err(e) => Err(e),
                    Ok((port, s)) => match (Self::spec_read_rack(s, version)) {
                        Err(e) => Err(e),
                        Ok((rack, s)) => match (Self::spec_read_tags(s, version)) {
                            Err(e) => Err(e),
                            Ok((unknown_tagged_fields, s)) => Ok((MetadataResponseBrokerView {
                                        node_id: node_id,
                                        host: host,
                                        port: port,
                                        rack: rack,
                                        unknown_tagged_fields: unknown_tagged_fields,
                                    }, s)),
                        },
                    },
                },
            },
        }
    }

    /// What writing the `node_id` field of `m` appends.
    #[verifier::opaque]
    pub open spec fn spec_write_node_id(m: MetadataResponseBrokerView, version: i16) -> WriteOutcome {
        spec_write_i32(m.node_id)
    }

    /// What writing the `host` field of `m` appends.
    #[verifier::opaque]
    pub open spec fn spec_write_host(m: MetadataResponseBrokerView, version: i16) -> WriteOutcome {
        if version >= 9 {
            spec_write_compact_string(m.host)
        } else {
            spec_write_string(m.host)
        }
    }

    /// What writing the `port` field of `m` appends.
    #[verifier::opaque]
    pub open spec fn spec_write_port(m: MetadataResponseBrokerView, version: i16) -> WriteOutcome {
        spec_write_i32(m.port)
    }

    /// What writing the `rack` field of `m` appends.
    #[verifier::opaque]
    pub open spec fn spec_write_rack(m: MetadataResponseBrokerView, version: i16) -> WriteOutcome {
        if version >= 1 {
            if version >= 9 {
                spec_write_compact_nullable_string(m.rack)
            } else {
                spec_write_nullable_string(m.rack)
            }
        } else {
            if m.rack is Some {
                fail(Error::UnsupportedFieldVersion(UnsupportedFieldVersion { api_key: 3, field: "rack", version }))
            } else {
                emit(Seq::empty())
            }
        }
    }

    /// What writing the tagged fields of `m` appends.
    #[verifier::opaque]
    pub open spec fn spec_write_tags(m: MetadataResponseBrokerView, version: i16) -> WriteOutcome {
        if version >= 9 {
            spec_write_tagged_fields(sorted_by_tag(m.unknown_tagged_fields))
        } else {
            emit(Seq::empty())
        }
    }

    pub open spec fn spec_write(m: MetadataResponseBrokerView, version: i16) -> WriteOutcome {
        chain(
            chain(
                chain(
                    chain(
                        Self::spec_write_node_id(m, version),
                        Self::spec_write_host(m, version),
                    ),
                    Self::spec_write_port(m, version),
                ),
                Self::spec_write_rack(m, version),
            ),
            Self::spec_write_tags(m, version),
        )
    }

    /// Whether reading back what writing `m` in `version` appends gives `m`:
    /// fields that the version does not carry hold their default values, and
    /// tagged fields come in the order in which they are written.
    pub open spec fn canonical(m: MetadataResponseBrokerView, version: i16) -> bool {
        &&& (if version >= 9 {
                tags_in_order(m.unknown_tagged_fields)
            } else {
                m.unknown_tagged_fields.len() == 0
        })
    }

    proof fn lemma_round_trip_node_id(m: MetadataResponseBrokerView, version: i16, rest: Seq<u8>)
        requires
            Self::canonical(m, version),
            Self::spec_write_node_id(m, version) is Ok,
        ensures
            Self::spec_read_node_id(written(Self::spec_write_node_id(m, version)) + rest, version) == Ok::<(i32, Seq<u8>), Error>((m.node_id, rest)),
    {
        reveal(MetadataResponseBroker::spec_read_node_id);
        reveal(MetadataResponseBroker::spec_write_node_id);
        lemma_i32_roundtrip(m.node_id, rest);
    }

    proof fn lemma_round_trip_host(m: MetadataResponseBrokerView, version: i16, rest: Seq<u8>)
        requires
            Self::canonical(m, version),
            Self::spec_write_host(m, version) is Ok,
        ensures
            Self::spec_read_host(written(Self::spec_write_host(m, version)) + rest, version) == Ok::<(Seq<u8>, Seq<u8>), Error>((m.host, rest)),
    {
        reveal(MetadataResponseBroker::spec_read_host);
        reveal(MetadataResponseBroker::spec_write_host);
        if version >= 9 {
            lemma_compact_string_round_trip(m.host, rest);
        } else {
            lemma_string_round_trip(m.host, rest);
        }
    }

    proof fn lemma_round_trip_port(m: MetadataResponseBrokerView, version: i16, rest: Seq<u8>)
        requires
            Self::canonical(m, version),
            Self::spec_write_port(m, version) is Ok,
        ensures
            Self::spec_read_port(written(Self::spec_write_port(m, version)) + rest, version) == Ok::<(i32, Seq<u8>), Error>((m.port, rest)),
    {
        reveal(MetadataResponseBroker::spec_read_port);
        reveal(MetadataResponseBroker::spec_write_port);
        lemma_i32_roundtrip(m.port, rest);
    }

    proof fn lemma_round_trip_rack(m: MetadataResponseBrokerView, version: i16, rest: Seq<u8>)
        requires
            Self::canonical(m, version),
            Self::spec_write_rack(m, version) is Ok,
        ensures
            Self::spec_read_rack(written(Self::spec_write_rack(m, version)) + rest, version) == Ok::<(Option<Seq<u8>>, Seq<u8>), Error>((m.rack, rest)),
    {
        reveal(MetadataResponseBroker::spec_read_rack);
        reveal(MetadataResponseBroker::spec_write_rack);
        if version >= 1 {
            if version >= 9 {
                lemma_compact_nullable_string_round_trip(m.rack, rest);
            } else {
                lemma_nullable_string_round_trip(m.rack, rest);
            }
        } else {
            assert(Seq::<u8>::empty() + rest =~= rest);
        }
    }

    proof fn lemma_round_trip_tags(m: MetadataResponseBrokerView, version: i16, rest: Seq<u8>)
        requires
            Self::canonical(m, version),
            Self::spec_write_tags(m, version) is Ok,
        ensures
            Self::spec_read_tags(written(Self::spec_write_tags(m, version)) + rest, version) == Ok::<(Seq<(u32, Seq<u8>)>, Seq<u8>), Error>((m.unknown_tagged_fields, rest)),
    {
        reveal(MetadataResponseBroker::spec_read_tags);
        reveal(MetadataResponseBroker::spec_write_tags);
        if version >= 9 {
            lemma_sorted_by_tag_in_order(m.unknown_tagged_fields);
            lemma_tagged_fields_round_trip(m.unknown_tagged_fields, rest);
        } else {
            assert(Seq::<u8>::empty() + rest =~= rest);
            assert(m.unknown_tagged_fields =~= Seq::empty());
        }
    }

    /// Reading back what writing `m` in `version` appends gives `m` again, and
    /// leaves what follows, for every canonical message whose write succeeds.
    #[verifier::rlimit(90)]
    #[verifier::spinoff_prover]
    pub proof fn lemma_round_trip(m: MetadataResponseBrokerView, version: i16, rest: Seq<u8>)
        requires
            Self::canonical(m, version),
            Self::spec_write(m, version) is Ok,
        ensures
            Self::spec_read(written(Self::spec_write(m, version)) + rest, version) == Ok::<(MetadataResponseBrokerView, Seq<u8>), Error>((m, rest)),
    {
        let b0 = written(Self::spec_write_node_id(m, version));
        let b1 = written(Self::spec_write_host(m, version));
        let b2 = written(Self::spec_write_port(m, version));
        let b3 = written(Self::spec_write_rack(m, version));
        let b4 = written(Self::spec_write_tags(m, version));
        let t5 = rest;
        let t4 = b4 + t5;
        let t3 = b3 + t4;
        let t2 = b2 + t3;
        let t1 = b1 + t2;
        let t0 = b0 + t1;
        let w0 = Self::spec_write_node_id(m, version);
        let w1 = chain(w0, Self::spec_write_host(m, version));
        let w2 = chain(w1, Self::spec_write_port(m, version));
        let w3 = chain(w2, Self::spec_write_rack(m, version));
        let w4 = chain(w3, Self::spec_write_tags(m, version));
        assert(Self::spec_write(m, version) == w4);
        assert(written(w4) + t5 =~= written(w3) + t4);
        assert(written(w3) + t4 =~= written(w2) + t3);
        assert(written(w2) + t3 =~= written(w1) + t2);
        assert(written(w1) + t2 =~= written(w0) + t1);
        Self::lemma_round_trip_node_id(m, version, t1);
        Self::lemma_round_trip_host(m, version, t2);
        Self::lemma_round_trip_port(m, version, t3);
        Self::lemma_round_trip_rack(m, version, t4);
        Self::lemma_round_trip_tags(m, version, t5);
    }

    /// In a version that does not carry `unknown_tagged_fields`, writing ignores its value.
    pub proof fn lemma_write_ignores_unknown_tagged_fields(m: MetadataResponseBrokerView, value: Seq<(u32, Seq<u8>)>, version: i16)
        requires
            !(version >= 9),
        ensures
            Self::spec_write((MetadataResponseBrokerView { unknown_tagged_fields: value, ..m }), version) == Self::spec_write(m, version),
    {
        reveal(MetadataResponseBroker::spec_write_node_id);
        reveal(MetadataResponseBroker::spec_write_host);
        reveal(MetadataResponseBroker::spec_write_port);
        reveal(MetadataResponseBroker::spec_write_rack);
        reveal(MetadataResponseBroker::spec_write_tags);
    }

    /// The default message holds the default value of each field of the schema.
    pub proof fn lemma_default_values()
        ensures
            Self::default_view().node_id == (0_i32),
            Self::default_view().host.len() == 0,
            Self::default_view().port == (0_i32),
            (Self::default_view().rack is None),
            Self::default_view().unknown_tagged_fields.len() == 0,
    {
    }

    /// Each integer, boolean and identifier field is written as its standard
    /// big-endian bytes (a boolean as `1` or `0`) in the versions that carry
    /// it, and as nothing in the others; reading it takes those bytes back (any
    /// byte other than `0` reads as `true`), or gives its default value.
    pub proof fn lemma_field_encodings(m: MetadataResponseBrokerView, s: Seq<u8>, version: i16)
        ensures
            true ==> Self::spec_write_node_id(m, version) == Ok::<Seq<u8>, (Error, Seq<u8>)>(u32_bytes(m.node_id as u32)),
            true ==> Self::spec_write_port(m, version) == Ok::<Seq<u8>, (Error, Seq<u8>)>(u32_bytes(m.port as u32)),
            true ==> Self::spec_read_node_id(s, version) == spec_read_i32(s),
            true ==> Self::spec_read_port(s, version) == spec_read_i32(s),
    {
        reveal(MetadataResponseBroker::spec_write_node_id);
        reveal(MetadataResponseBroker::spec_read_node_id);
        reveal(MetadataResponseBroker::spec_write_port);
        reveal(MetadataResponseBroker::spec_read_port);
    }

    /// Whether writing `m` in `version` succeeds, said over its parts: the
    /// version is one the schema covers, every field that the version cannot
    /// carry holds its default value, and every string, byte string, array and
    /// tagged field fits its length prefix.
    pub open spec fn writable(m: MetadataResponseBrokerView, version: i16) -> bool {
        &&& m.host.len() <= 0x7fff
        &&& (if version >= 1 {
                (m.rack matches Some(b) ==> b.len() <= 0x7fff)
            } else {
                !(m.rack is Some)
        })
        &&& (if version >= 9 {
                m.unknown_tagged_fields.len() <= u32::MAX && tags_fit(m.unknown_tagged_fields)
            } else {
                true
        })
    }

    proof fn lemma_writable_node_id(m: MetadataResponseBrokerView, version: i16)
        ensures
            Self::spec_write_node_id(m, version) is Ok <==> true,
    {
        reveal(MetadataResponseBroker::spec_write_node_id);
    }

    proof fn lemma_writable_host(m: MetadataResponseBrokerView, version: i16)
        ensures
            Self::spec_write_host(m, version) is Ok <==> m.host.len() <= 0x7fff,
    {
        reveal(MetadataResponseBroker::spec_write_host);
    }

    proof fn lemma_writable_port(m: MetadataResponseBrokerView, version: i16)
        ensures
            Self::spec_write_port(m, version) is Ok <==> true,
    {
        reveal(MetadataResponseBroker::spec_write_port);
    }

    proof fn lemma_writable_rack(m: MetadataResponseBrokerView, version: i16)
        ensures
            Self::spec_write_rack(m, version) is Ok <==> (if version >= 1 { (m.rack matches Some(b) ==> b.len() <= 0x7fff) } else { !(m.rack is Some) }),
    {
        reveal(MetadataResponseBroker::spec_write_rack);
    }

    proof fn lemma_writable_tags(m: MetadataResponseBrokerView, version: i16)
        ensures
            Self::spec_write_tags(m, version) is Ok <==> (if version >= 9 { m.unknown_tagged_fields.len() <= u32::MAX && tags_fit(m.unknown_tagged_fields) } else { true }),
    {
        reveal(MetadataResponseBroker::spec_write_tags);
        if version >= 9 {
            lemma_sorted_tags_fit(m.unknown_tagged_fields);
            lemma_tagged_fields_writable(sorted_by_tag(m.unknown_tagged_fields));
        }
    }

    /// Writing `m` in `version` succeeds exactly when `m` is writable in it;
    /// so do `write` and `encoded_len`, whose results follow `spec_write`.
    #[verifier::rlimit(60)]
    pub proof fn lemma_writable(m: MetadataResponseBrokerView, version: i16)
        ensures
            Self::spec_write(m, version) is Ok <==> Self::writable(m, version),
    {
        Self::lemma_writable_node_id(m, version);
        Self::lemma_writable_host(m, version);
        Self::lemma_writable_port(m, version);
        Self::lemma_writable_rack(m, version);
        Self::lemma_writable_tags(m, version);
    }

    pub fn with_node_id(self, value: i32) -> (r: Self)
        ensures
            r@ == (MetadataResponseBrokerView { node_id: value, ..self@ }),
    {
        let mut r = self;
        r.node_id = value;
        r
    }

    pub fn with_host(self, value: KafkaString) -> (r: Self)
        ensures
            r@ == (MetadataResponseBrokerView { host: value@, ..self@ }),
    {
        let mut r = self;
        r.host = value;
        r
    }

    pub fn with_port(self, value: i32) -> (r: Self)
        ensures
            r@ == (MetadataResponseBrokerView { port: value, ..self@ }),
    {
        let mut r = self;
        r.port = value;
        r
    }

    pub fn with_rack(self, value: Option<KafkaString>) -> (r: Self)
        ensures
            r@ == (MetadataResponseBrokerView { rack: opt_view(value), ..self@ }),
    {
        let mut r = self;
        r.rack = value;
        r
    }

    fn read_node_id(buf: &mut Bytes, version: i16) -> (r: Result<i32, Error>)
        ensures
            read_as(Self::spec_read_node_id(bytes_seq(*old(buf)), version), *final(buf), r),
            took_front(*old(buf), *final(buf)),
    {
        proof {
            reveal(MetadataResponseBroker::spec_read_node_id);
        }
        Ok(read_i32(buf)?)
    }

    fn read_host(buf: &mut Bytes, version: i16) -> (r: Result<KafkaString, Error>)
        ensures
            read_as(Self::spec_read_host(bytes_seq(*old(buf)), version), *final(buf), r),
            took_front(*old(buf), *final(buf)),
    {
        proof {
            reveal(MetadataResponseBroker::spec_read_host);
        }
        Ok(if version >= 9 {
                read_compact_string(buf)?
            } else {
                read_string(buf)?
        })
    }

    fn read_port(buf: &mut Bytes, version: i16) -> (r: Result<i32, Error>)
        ensures
            read_as(Self::spec_read_port(bytes_seq(*old(buf)), version), *final(buf), r),
            took_front(*old(buf), *final(buf)),
    {
        proof {
            reveal(MetadataResponseBroker::spec_read_port);
        }
        Ok(read_i32(buf)?)
    }

    fn read_rack(buf: &mut Bytes, version: i16) -> (r: Result<Option<KafkaString>, Error>)
        ensures
            read_opt_as(Self::spec_read_rack(bytes_seq(*old(buf)), version), *final(buf), r),
            took_front(*old(buf), *final(buf)),
    {
        proof {
            reveal(MetadataResponseBroker::spec_read_rack);
        }
        Ok(if version >= 1 {
                if version >= 9 {
                    read_compact_nullable_string(buf)?
                } else {
                    read_nullable_string(buf)?
                }
            } else {
                None
        })
    }

    fn read_tags(buf: &mut Bytes, version: i16) -> (r: Result<Vec<RawTaggedField>, Error>)
        ensures
            read_vec_as(Self::spec_read_tags(bytes_seq(*old(buf)), version), *final(buf), r),
            took_front(*old(buf), *final(buf)),
    {
        proof {
            reveal(MetadataResponseBroker::spec_read_tags);
        }
        Ok(if version >= 9 {
                read_tagged_fields(buf)?
            } else {
                empty_vec()
        })
    }

    pub fn read(buf: &mut Bytes, version: i16) -> (r: Result<Self, Error>)
        ensures
            read_as(Self::spec_read(bytes_seq(*old(buf)), version), *final(buf), r),
            took_front(*old(buf), *final(buf)),
    {
        let node_id = Self::read_node_id(buf, version)?;
        let host = Self::read_host(buf, version)?;
        let port = Self::read_port(buf, version)?;
        let rack = Self::read_rack(buf, version)?;
        let _unknown_tagged_fields = Self::read_tags(buf, version)?;
        Ok(MetadataResponseBroker {
                node_id: node_id,
                host: host,
                port: port,
                rack: rack,
                _unknown_tagged_fields: _unknown_tagged_fields,
        })
    }

    #[verifier::rlimit(80)]
    pub fn write(&self, buf: &mut BytesMut, version: i16) -> (r: Result<(), Error>)
        requires
            has_room(Self::spec_write(self@, version), *old(buf)),
        ensures
            wrote(Self::spec_write(self@, version), *old(buf), *final(buf), r),
    {
        let ghost m = self@;
        proof {
            reveal(MetadataResponseBroker::spec_write_node_id);
            reveal(MetadataResponseBroker::spec_write_host);
            reveal(MetadataResponseBroker::spec_write_port);
            reveal(MetadataResponseBroker::spec_write_rack);
            reveal(MetadataResponseBroker::spec_write_tags);
        }
        let ghost s0 = Self::spec_write_node_id(m, version);
        let ghost w0 = s0;
        let ghost s1 = Self::spec_write_host(m, version);
        let ghost w1 = chain(w0, s1);
        let ghost s2 = Self::spec_write_port(m, version);
        let ghost w2 = chain(w1, s2);
        let ghost s3 = Self::spec_write_rack(m, version);
        let ghost w3 = chain(w2, s3);
        let ghost s4 = Self::spec_write_tags(m, version);
        let ghost w4 = chain(w3, s4);
        assert(Self::spec_write(m, version) == w4);
        assert(written(w3).len() <= written(w4).len() && (w3 is Err ==> w4 == w3));
        assert(written(w2).len() <= written(w4).len() && (w2 is Err ==> w4 == w2));
        assert(written(w1).len() <= written(w4).len() && (w1 is Err ==> w4 == w1));
        assert(written(w0).len() <= written(w4).len() && (w0 is Err ==> w4 == w0));
        let ghost mid = bytes_mut_seq(*buf);
        proof {
            lemma_append_empty(mid);
        }
        let r0 = {
            write_i32(buf, self.node_id);
            Ok(())
        };
        assert(bytes_mut_seq(*buf) == mid + written(s0));
        if r0.is_err() {
            return r0;
        }
        let ghost mid = bytes_mut_seq(*buf);
        proof {
            lemma_append_empty(mid);
        }
        let r1 = if version >= 9 {
            write_compact_string(buf, &self.host)
        } else {
            write_string(buf, &self.host)
        };
        assert(bytes_mut_seq(*buf) == mid + written(s1));
        proof {
            lemma_step(bytes_mut_seq(*old(buf)), w0, s1);
        }
        if r1.is_err() {
            return r1;
        }
        let ghost mid = bytes_mut_seq(*buf);
        proof {
            lemma_append_empty(mid);
        }
        let r2 = {
            write_i32(buf, self.port);
            Ok(())
        };
        assert(bytes_mut_seq(*buf) == mid + written(s2));
        proof {
            lemma_step(bytes_mut_seq(*old(buf)), w1, s2);
        }
        if r2.is_err() {
            return r2;
        }
        let ghost mid = bytes_mut_seq(*buf);
        proof {
            lemma_append_empty(mid);
        }
        let r3 = if version >= 1 {
            if version >= 9 {
                write_compact_nullable_string(buf, &self.rack)
            } else {
                write_nullable_string(buf, &self.rack)
            }
        } else {
            if self.rack.is_some() {
                Err(Error::UnsupportedFieldVersion(UnsupportedFieldVersion::new(3, "rack", version)))
            } else {
                Ok(())
            }
        };
        assert(bytes_mut_seq(*buf) == mid + written(s3));
        proof {
            lemma_step(bytes_mut_seq(*old(buf)), w2, s3);
        }
        if r3.is_err() {
            return r3;
        }
        let ghost mid = bytes_mut_seq(*buf);
        proof {
            lemma_append_empty(mid);
        }
        let r4 = if version >= 9 {
            write_tagged_fields(buf, &sort_by_tag(&self._unknown_tagged_fields))
        } else {
            Ok(())
        };
        assert(bytes_mut_seq(*buf) == mid + written(s4));
        proof {
            lemma_step(bytes_mut_seq(*old(buf)), w3, s4);
        }
        if r4.is_err() {
            return r4;
        }
        Ok(())
    }

    #[verifier::rlimit(80)]
    pub fn encoded_len(&self, version: i16) -> (r: Result<usize, Error>)
        ensures
            r == len_result(Self::spec_write(self@, version)),
    {
        let ghost m = self@;
        proof {
            reveal(MetadataResponseBroker::spec_write_node_id);
            reveal(MetadataResponseBroker::spec_write_host);
            reveal(MetadataResponseBroker::spec_write_port);
            reveal(MetadataResponseBroker::spec_write_rack);
            reveal(MetadataResponseBroker::spec_write_tags);
        }
        let ghost s0 = Self::spec_write_node_id(m, version);
        let ghost w0 = s0;
        let ghost s1 = Self::spec_write_host(m, version);
        let ghost w1 = chain(w0, s1);
        let ghost s2 = Self::spec_write_port(m, version);
        let ghost w2 = chain(w1, s2);
        let ghost s3 = Self::spec_write_rack(m, version);
        let ghost w3 = chain(w2, s3);
        let ghost s4 = Self::spec_write_tags(m, version);
        let ghost w4 = chain(w3, s4);
        assert(Self::spec_write(m, version) == w4);
        assert(w3 is Err ==> w4 == w3);
        assert(w2 is Err ==> w4 == w2);
        assert(w1 is Err ==> w4 == w1);
        assert(w0 is Err ==> w4 == w0);
        let mut len: usize = 0;
        let l0 = Ok(4);
        assert(l0 == len_result(s0));
        let n0 = match l0 {
            Ok(n) => n,
            Err(e) => {
                return Err(e);
            },
        };
        len = saturating_sum(len, n0);
        assert(w0 is Ok && len == saturate(written(w0).len() as int));
        let l1 = if version >= 9 {
            compact_string_len(&self.host)
        } else {
            string_len(&self.host)
        };
        assert(l1 == len_result(s1));
        let n1 = match l1 {
            Ok(n) => n,
            Err(e) => {
                return Err(e);
            },
        };
        proof {
            lemma_len_step(w0, s1, n1);
        }
        len = saturating_sum(len, n1);
        assert(w1 is Ok && len == saturate(written(w1).len() as int));
        let l2 = Ok(4);
        assert(l2 == len_result(s2));
        let n2 = match l2 {
            Ok(n) => n,
            Err(e) => {
                return Err(e);
            },
        };
        proof {
            lemma_len_step(w1, s2, n2);
        }
        len = saturating_sum(len, n2);
        assert(w2 is Ok && len == saturate(written(w2).len() as int));
        let l3 = if version >= 1 {
            if version >= 9 {
                compact_nullable_string_len(&self.rack)
            } else {
                nullable_string_len(&self.rack)
            }
        } else {
            if self.rack.is_some() {
                Err(Error::UnsupportedFieldVersion(UnsupportedFieldVersion::new(3, "rack", version)))
            } else {
                Ok(0)
            }
        };
        assert(l3 == len_result(s3));
        let n3 = match l3 {
            Ok(n) => n,
            Err(e) => {
                return Err(e);
            },
        };
        proof {
            lemma_len_step(w2, s3, n3);
        }
        len = saturating_sum(len, n3);
        assert(w3 is Ok && len == saturate(written(w3).len() as int));
        let l4 = if version >= 9 {
            tagged_fields_len(&sort_by_tag(&self._unknown_tagged_fields))
        } else {
            Ok(0)
        };
        assert(l4 == len_result(s4));
        let n4 = match l4 {
            Ok(n) => n,
            Err(e) => {
                return Err(e);
            },
        };
        proof {
            lemma_len_step(w3, s4, n4);
        }
        len = saturating_sum(len, n4);
        assert(w4 is Ok && len == saturate(written(w4).len() as int));
        Ok(len)
    }
}

#[derive(Debug, PartialEq)]
pub struct MetadataResponseTopic {
    /// The topic error, or 0 if there was no error.
    pub error_code: i16,
    /// The topic name. Null for non-existing topics queried by ID. This is never null when
    /// ErrorCode is zero. One of Name and TopicId is always populated.
    pub name: Option<KafkaString>,
    /// The topic id. Zero for non-existing topics queried by name. This is never zero when
    /// ErrorCode is zero. One of Name and TopicId is always populated.
    pub topic_id: KafkaUuid,
    /// True if the topic is internal.
    pub is_internal: bool,
    /// Each partition in the topic.
    pub partitions: Vec<MetadataResponsePartition>,
    /// 32-bit bitfield to represent authorized operations for this topic.
    pub topic_authorized_operations: i32,
    pub _unknown_tagged_fields: Vec<RawTaggedField>,
}

/// What a `MetadataResponseTopic` holds, as the specification sees it.
#[verifier::ext_equal]
pub struct MetadataResponseTopicView {
    pub error_code: i16,
    pub name: Option<Seq<u8>>,
    pub topic_id: KafkaUuid,
    pub is_internal: bool,
    pub partitions: Seq<MetadataResponsePartitionView>,
    pub topic_authorized_operations: i32,
    pub unknown_tagged_fields: Seq<(u32, Seq<u8>)>,
}

impl View for MetadataResponseTopic {
    type V = MetadataResponseTopicView;

    open spec fn view(&self) -> MetadataResponseTopicView {
        MetadataResponseTopicView {
            error_code: self.error_code,
            name: opt_view(self.name),
            topic_id: self.topic_id,
            is_internal: self.is_internal,
            partitions: views(self.partitions@),
            topic_authorized_operations: self.topic_authorized_operations,
            unknown_tagged_fields: views(self._unknown_tagged_fields@),
        }
    }
}

impl Clone for MetadataResponseTopic {
    fn clone(&self) -> (r: Self)
        ensures
            r@ == self@,
    {
        let r = MetadataResponseTopic {
            error_code: self.error_code,
            name: match &self.name {
                Some(x) => Some(x.clone()),
                None => None,
            },
            topic_id: self.topic_id,
            is_internal: self.is_internal,
            partitions: clone_vec(&self.partitions),
            topic_authorized_operations: self.topic_authorized_operations,
            _unknown_tagged_fields: clone_vec(&self._unknown_tagged_fields),
        };
        assert(r@ =~= self@);
        r
    }
}

impl ViewClone for MetadataResponseTopic {
    fn clone_view(&self) -> (r: Self) {
        self.clone()
    }
}

impl Default for MetadataResponseTopic {
    fn default() -> (r: Self)
        ensures
            r@ == Self::default_view(),
    {
        let r = MetadataResponseTopic {
            error_code: 0_i16,
            name: None,
            topic_id: KafkaUuid::zero(),
            is_internal: false,
            partitions: empty_vec(),
            topic_authorized_operations: i32::MIN,
            _unknown_tagged_fields: empty_vec(),
        };
        assert(r@ =~= Self::default_view());
        r
    }
}

impl MetadataResponseTopic {
    pub open spec fn default_view() -> MetadataResponseTopicView {
        MetadataResponseTopicView {
            error_code: 0_i16,
            name: None,
            topic_id: KafkaUuid { most_significant_bits: 0, least_significant_bits: 0 },
            is_internal: false,
            partitions: Seq::empty(),
            topic_authorized_operations: i32::MIN,
            unknown_tagged_fields: Seq::empty(),
        }
    }

    /// The `error_code` field, read from the front of `s`.
    #[verifier::opaque]
    pub open spec fn spec_read_error_code(s: Seq<u8>, version: i16) -> ReadOutcome<i16> {
        spec_read_i16(s)
    }

    /// The `name` field, read from the front of `s`.
    #[verifier::opaque]
    pub open spec fn spec_read_name(s: Seq<u8>, version: i16) -> ReadOutcome<Option<Seq<u8>>> {
        if version >= 12 {
            spec_read_compact_nullable_string(s)
        } else {
            if version >= 9 {
                some_of(spec_read_compact_string(s))
            } else {
                some_of(spec_read_string(s))
            }
        }
    }

    /// The `topic_id` field, read from the front of `s`.
    #[verifier::opaque]
    pub open spec fn spec_read_topic_id(s: Seq<u8>, version: i16) -> ReadOutcome<KafkaUuid> {
        if version >= 10 {
            spec_read_uuid(s)
        } else {
            Ok((KafkaUuid { most_significant_bits: 0, least_significant_bits: 0 }, s))
        }
    }

    /// The `is_internal` field, read from the front of `s`.
    #[verifier::opaque]
    pub open spec fn spec_read_is_internal(s: Seq<u8>, version: i16) -> ReadOutcome<bool> {
        if version >= 1 {
            spec_read_bool(s)
        } else {
            Ok((false, s))
        }
    }

    /// The `partitions` field, read from the front of `s`.
    #[verifier::opaque]
    pub open spec fn spec_read_partitions(s: Seq<u8>, version: i16) -> ReadOutcome<Seq<MetadataResponsePartitionView>> {
        if version >= 9 {
            spec_read_array::<MetadataResponsePartition>(s, version, true)
        } else {
            spec_read_array::<MetadataResponsePartition>(s, version, false)
        }
    }

    /// The `topic_authorized_operations` field, read from the front of `s`.
    #[verifier::opaque]
    pub open spec fn spec_read_topic_authorized_operations(s: Seq<u8>, version: i16) -> ReadOutcome<i32> {
        if version >= 8 {
            spec_read_i32(s)
        } else {
            Ok((i32::MIN, s))
        }
    }

    /// The tagged fields, read from the front of `s`.
    #[verifier::opaque]
    pub open spec fn spec_read_tags(s: Seq<u8>, version: i16) -> ReadOutcome<Seq<(u32, Seq<u8>)>> {
        if version >= 9 {
            spec_read_tagged_fields(s)
        } else {
            Ok((Seq::empty(), s))
        }
    }

    pub open spec fn spec_read(s: Seq<u8>, version: i16) -> ReadOutcome<MetadataResponseTopicView> {
        match (Self::spec_read_error_code(s, version)) {
            Err(e) => Err(e),
            Ok((error_code, s)) => match (Self::spec_read_name(s, version)) {
                Err(e) => Err(e),
                Ok((name, s)) => match (Self::spec_read_topic_id(s, version)) {
                    Err(e) => Err(e),
                    Ok((topic_id, s)) => match (Self::spec_read_is_internal(s, version)) {
                        Err(e) => Err(e),
                        Ok((is_internal, s)) => match (Self::spec_read_partitions(s, version)) {
                            Err(e) => Err(e),
                            Ok((partitions, s)) => match (Self::spec_read_topic_authorized_operations(s, version)) {
                                Err(e) => Err(e),
                                Ok((topic_authorized_operations, s)) => match (Self::spec_read_tags(s, version)) {
                                    Err(e) => Err(e),
                                    Ok((unknown_tagged_fields, s)) => Ok((MetadataResponseTopicView {
                                                error_code: error_code,
                                                name: name,
                                                topic_id: topic_id,
                                                is_internal: is_internal,
                                                partitions: partitions,
                                                topic_authorized_operations: topic_authorized_operations,
                                                unknown_tagged_fields: unknown_tagged_fields,
                                            }, s)),
                                },
                            },
                        },
                    },
                },
            },
        }
    }

    /// What writing the `error_code` field of `m` appends.
    #[verifier::opaque]
    pub open spec fn spec_write_error_code(m: MetadataResponseTopicView, version: i16) -> WriteOutcome {
        spec_write_i16(m.error_code)
    }

    /// What writing the `name` field of `m` appends.
    #[verifier::opaque]
    pub open spec fn spec_write_name(m: MetadataResponseTopicView, version: i16) -> WriteOutcome {
        if version >= 12 {
            spec_write_compact_nullable_string(m.name)
        } else {
            if version >= 9 {
                spec_write_compact_string(unwrap_or_empty(m.name))
            } else {
                spec_write_string(unwrap_or_empty(m.name))
            }
        }
    }

    /// What writing the `topic_id` field of `m` appends.
    #[verifier::opaque]
    pub open spec fn spec_write_topic_id(m: MetadataResponseTopicView, version: i16) -> WriteOutcome {
        if version >= 10 {
            spec_write_uuid(m.topic_id)
        } else {
            if !uuid_is_nil(m.topic_id) {
                fail(Error::UnsupportedFieldVersion(UnsupportedFieldVersion { api_key: 3, field: "topic_id", version }))
            } else {
                emit(Seq::empty())
            }
        }
    }

    /// What writing the `is_internal` field of `m` appends.
    #[verifier::opaque]
    pub open spec fn spec_write_is_internal(m: MetadataResponseTopicView, version: i16) -> WriteOutcome {
        if version >= 1 {
            spec_write_bool(m.is_internal)
        } else {
            if m.is_internal != false {
                fail(Error::UnsupportedFieldVersion(UnsupportedFieldVersion { api_key: 3, field: "is_internal", version }))
            } else {
                emit(Seq::empty())
            }
        }
    }

    /// What writing the `partitions` field of `m` appends.
    #[verifier::opaque]
    pub open spec fn spec_write_partitions(m: MetadataResponseTopicView, version: i16) -> WriteOutcome {
        if version >= 9 {
            spec_write_array::<MetadataResponsePartition>(m.partitions, version, true)
        } else {
            spec_write_array::<MetadataResponsePartition>(m.partitions, version, false)
        }
    }

    /// What writing the `topic_authorized_operations` field of `m` appends.
    #[verifier::opaque]
    pub open spec fn spec_write_topic_authorized_operations(m: MetadataResponseTopicView, version: i16) -> WriteOutcome {
        if version >= 8 {
            spec_write_i32(m.topic_authorized_operations)
        } else {
            if m.topic_authorized_operations != i32::MIN {
                fail(Error::UnsupportedFieldVersion(UnsupportedFieldVersion { api_key: 3, field: "topic_authorized_operations", version }))
            } else {
                emit(Seq::empty())
            }
        }
    }

    /// What writing the tagged fields of `m` appends.
    #[verifier::opaque]
    pub open spec fn spec_write_tags(m: MetadataResponseTopicView, version: i16) -> WriteOutcome {
        if version >= 9 {
            spec_write_tagged_fields(sorted_by_tag(m.unknown_tagged_fields))
        } else {
            emit(Seq::empty())
        }
    }

    pub open spec fn spec_write(m: MetadataResponseTopicView, version: i16) -> WriteOutcome {
        chain(
            chain(
                chain(
                    chain(
                        chain(
                            chain(
                                Self::spec_write_error_code(m, version),
                                Self::spec_write_name(m, version),
                            ),
                            Self::spec_write_topic_id(m, version),
                        ),
                        Self::spec_write_is_internal(m, version),
                    ),
                    Self::spec_write_partitions(m, version),
                ),
                Self::spec_write_topic_authorized_operations(m, version),
            ),
            Self::spec_write_tags(m, version),
        )
    }

    /// Whether reading back what writing `m` in `version` appends gives `m`:
    /// fields that the version does not carry hold their default values, and
    /// tagged fields come in the order in which they are written.
    pub open spec fn canonical(m: MetadataResponseTopicView, version: i16) -> bool {
        &&& (if version >= 12 {
                true
            } else {
                m.name is Some
        })
        &&& all_canonical::<MetadataResponsePartition>(m.partitions, version)
        &&& (if version >= 9 {
                tags_in_order(m.unknown_tagged_fields)
            } else {
                m.unknown_tagged_fields.len() == 0
        })
    }

    proof fn lemma_round_trip_error_code(m: MetadataResponseTopicView, version: i16, rest: Seq<u8>)
        requires
            Self::canonical(m, version),
            Self::spec_write_error_code(m, version) is Ok,
        ensures
            Self::spec_read_error_code(written(Self::spec_write_error_code(m, version)) + rest, version) == Ok::<(i16, Seq<u8>), Error>((m.error_code, rest)),
    {
        reveal(MetadataResponseTopic::spec_read_error_code);
        reveal(MetadataResponseTopic::spec_write_error_code);
        lemma_i16_roundtrip(m.error_code, rest);
    }

    proof fn lemma_round_trip_name(m: MetadataResponseTopicView, version: i16, rest: Seq<u8>)
        requires
            Self::canonical(m, version),
            Self::spec_write_name(m, version) is Ok,
        ensures
            Self::spec_read_name(written(Self::spec_write_name(m, version)) + rest, version) == Ok::<(Option<Seq<u8>>, Seq<u8>), Error>((m.name, rest)),
    {
        reveal(MetadataResponseTopic::spec_read_name);
        reveal(MetadataResponseTopic::spec_write_name);
        if version >= 12 {
            lemma_compact_nullable_string_round_trip(m.name, rest);
        } else {
            if version >= 9 {
                lemma_compact_string_round_trip(unwrap_or_empty(m.name), rest);
            } else {
                lemma_string_round_trip(unwrap_or_empty(m.name), rest);
            }
        }
    }

    proof fn lemma_round_trip_topic_id(m: MetadataResponseTopicView, version: i16, rest: Seq<u8>)
        requires
            Self::canonical(m, version),
            Self::spec_write_topic_id(m, version) is Ok,
        ensures
            Self::spec_read_topic_id(written(Self::spec_write_topic_id(m, version)) + rest, version) == Ok::<(KafkaUuid, Seq<u8>), Error>((m.topic_id, rest)),
    {
        reveal(MetadataResponseTopic::spec_read_topic_id);
        reveal(MetadataResponseTopic::spec_write_topic_id);
        if version >= 10 {
            lemma_uuid_round_trip(m.topic_id, rest);
        } else {
            assert(Seq::<u8>::empty() + rest =~= rest);
        }
    }

    proof fn lemma_round_trip_is_internal(m: MetadataResponseTopicView, version: i16, rest: Seq<u8>)
        requires
            Self::canonical(m, version),
            Self::spec_write_is_internal(m, version) is Ok,
        ensures
            Self::spec_read_is_internal(written(Self::spec_write_is_internal(m, version)) + rest, version) == Ok::<(bool, Seq<u8>), Error>((m.is_internal, rest)),
    {
        reveal(MetadataResponseTopic::spec_read_is_internal);
        reveal(MetadataResponseTopic::spec_write_is_internal);
        if version >= 1 {
            lemma_bool_roundtrip(m.is_internal, rest);
        } else {
            assert(Seq::<u8>::empty() + rest =~= rest);
        }
    }

    proof fn lemma_round_trip_partitions(m: MetadataResponseTopicView, version: i16, rest: Seq<u8>)
        requires
            Self::canonical(m, version),
            Self::spec_write_partitions(m, version) is Ok,
        ensures
            Self::spec_read_partitions(written(Self::spec_write_partitions(m, version)) + rest, version) == Ok::<(Seq<MetadataResponsePartitionView>, Seq<u8>), Error>((m.partitions, rest)),
    {
        reveal(MetadataResponseTopic::spec_read_partitions);
        reveal(MetadataResponseTopic::spec_write_partitions);
        if version >= 9 {
            lemma_array_round_trip::<MetadataResponsePartition>(m.partitions, version, true, rest);
        } else {
            lemma_array_round_trip::<MetadataResponsePartition>(m.partitions, version, false, rest);
        }
    }

    proof fn lemma_round_trip_topic_authorized_operations(m: MetadataResponseTopicView, version: i16, rest: Seq<u8>)
        requires
            Self::canonical(m, version),
            Self::spec_write_topic_authorized_operations(m, version) is Ok,
        ensures
            Self::spec_read_topic_authorized_operations(written(Self::spec_write_topic_authorized_operations(m, version)) + rest, version) == Ok::<(i32, Seq<u8>), Error>((m.topic_authorized_operations, rest)),
    {
        reveal(MetadataResponseTopic::spec_read_topic_authorized_operations);
        reveal(MetadataResponseTopic::spec_write_topic_authorized_operations);
        if version >= 8 {
            lemma_i32_roundtrip(m.topic_authorized_operations, rest);
        } else {
            assert(Seq::<u8>::empty() + rest =~= rest);
        }
    }

    proof fn lemma_round_trip_tags(m: MetadataResponseTopicView, version: i16, rest: Seq<u8>)
        requires
            Self::canonical(m, version),
            Self::spec_write_tags(m, version) is Ok,
        ensures
            Self::spec_read_tags(written(Self::spec_write_tags(m, version)) + rest, version) == Ok::<(Seq<(u32, Seq<u8>)>, Seq<u8>), Error>((m.unknown_tagged_fields, rest)),
    {
        reveal(MetadataResponseTopic::spec_read_tags);
        reveal(MetadataResponseTopic::spec_write_tags);
        if version >= 9 {
            lemma_sorted_by_tag_in_order(m.unknown_tagged_fields);
            lemma_tagged_fields_round_trip(m.unknown_tagged_fields, rest);
        } else {
            assert(Seq::<u8>::empty() + rest =~= rest);
            assert(m.unknown_tagged_fields =~= Seq::empty());
        }
    }

    /// Reading back what writing `m` in `version` appends gives `m` again, and
    /// leaves what follows, for every canonical message whose write succeeds.
    #[verifier::rlimit(100)]
    #[verifier::spinoff_prover]
    pub proof fn lemma_round_trip(m: MetadataResponseTopicView, version: i16, rest: Seq<u8>)
        requires
            Self::canonical(m, version),
            Self::spec_write(m, version) is Ok,
        ensures
            Self::spec_read(written(Self::spec_write(m, version)) + rest, version) == Ok::<(MetadataResponseTopicView, Seq<u8>), Error>((m, rest)),
    {
        let b0 = written(Self::spec_write_error_code(m, version));
        let b1 = written(Self::spec_write_name(m, version));
        let b2 = written(Self::spec_write_topic_id(m, version));
        let b3 = written(Self::spec_write_is_internal(m, version));
        let b4 = written(Self::spec_write_partitions(m, version));
        let b5 = written(Self::spec_write_topic_authorized_operations(m, version));
        let b6 = written(Self::spec_write_tags(m, version));
        let t7 = rest;
        let t6 = b6 + t7;
        let t5 = b5 + t6;
        let t4 = b4 + t5;
        let t3 = b3 + t4;
        let t2 = b2 + t3;
        let t1 = b1 + t2;
        let t0 = b0 + t1;
        let w0 = Self::spec_write_error_code(m, version);
        let w1 = chain(w0, Self::spec_write_name(m, version));
        let w2 = chain(w1, Self::spec_write_topic_id(m, version));
        let w3 = chain(w2, Self::spec_write_is_internal(m, version));
        let w4 = chain(w3, Self::spec_write_partitions(m, version));
        let w5 = chain(w4, Self::spec_write_topic_authorized_operations(m, version));
        let w6 = chain(w5, Self::spec_write_tags(m, version));
        assert(Self::spec_write(m, version) == w6);
        assert(written(w6) + t7 =~= written(w5) + t6);
        assert(written(w5) + t6 =~= written(w4) + t5);
        assert(written(w4) + t5 =~= written(w3) + t4);
        assert(written(w3) + t4 =~= written(w2) + t3);
        assert(written(w2) + t3 =~= written(w1) + t2);
        assert(written(w1) + t2 =~= written(w0) + t1);
        Self::lemma_round_trip_error_code(m, version, t1);
        Self::lemma_round_trip_name(m, version, t2);
        Self::lemma_round_trip_topic_id(m, version, t3);
        Self::lemma_round_trip_is_internal(m, version, t4);
        Self::lemma_round_trip_partitions(m, version, t5);
        Self::lemma_round_trip_topic_authorized_operations(m, version, t6);
        Self::lemma_round_trip_tags(m, version, t7);
    }

    /// In a version that does not carry `unknown_tagged_fields`, writing ignores its value.
    pub proof fn lemma_write_ignores_unknown_tagged_fields(m: MetadataResponseTopicView, value: Seq<(u32, Seq<u8>)>, version: i16)
        requires
            !(version >= 9),
        ensures
            Self::spec_write((MetadataResponseTopicView { unknown_tagged_fields: value, ..m }), version) == Self::spec_write(m, version),
    {
        reveal(MetadataResponseTopic::spec_write_error_code);
        reveal(MetadataResponseTopic::spec_write_name);
        reveal(MetadataResponseTopic::spec_write_topic_id);
        reveal(MetadataResponseTopic::spec_write_is_internal);
        reveal(MetadataResponseTopic::spec_write_partitions);
        reveal(MetadataResponseTopic::spec_write_topic_authorized_operations);
        reveal(MetadataResponseTopic::spec_write_tags);
    }

    /// The default message holds the default value of each field of the schema.
    pub proof fn lemma_default_values()
        ensures
            Self::default_view().error_code == (0_i16),
            (Self::default_view().name is None),
            Self::default_view().topic_id == (KafkaUuid { most_significant_bits: 0, least_significant_bits: 0 }),
            Self::default_view().is_internal == (false),
            Self::default_view().partitions.len() == 0,
            Self::default_view().topic_authorized_operations == (i32::MIN),
            Self::default_view().unknown_tagged_fields.len() == 0,
    {
    }

    /// Each integer, boolean and identifier field is written as its standard
    /// big-endian bytes (a boolean as `1` or `0`) in the versions that carry
    /// it, and as nothing in the others; reading it takes those bytes back (any
    /// byte other than `0` reads as `true`), or gives its default value.
    pub proof fn lemma_field_encodings(m: MetadataResponseTopicView, s: Seq<u8>, version: i16)
        ensures
            true ==> Self::spec_write_error_code(m, version) == Ok::<Seq<u8>, (Error, Seq<u8>)>(u16_bytes(m.error_code as u16)),
            version >= 10 ==> Self::spec_write_topic_id(m, version) == Ok::<Seq<u8>, (Error, Seq<u8>)>((u64_bytes(m.topic_id.most_significant_bits) + u64_bytes(m.topic_id.least_significant_bits))),
            version >= 1 ==> Self::spec_write_is_internal(m, version) == Ok::<Seq<u8>, (Error, Seq<u8>)>(seq![if m.is_internal { 1u8 } else { 0u8 }]),
            version >= 8 ==> Self::spec_write_topic_authorized_operations(m, version) == Ok::<Seq<u8>, (Error, Seq<u8>)>(u32_bytes(m.topic_authorized_operations as u32)),
            true ==> Self::spec_read_error_code(s, version) == spec_read_i16(s),
            version >= 10 ==> Self::spec_read_topic_id(s, version) == spec_read_uuid(s),
            version >= 1 ==> Self::spec_read_is_internal(s, version) == (if s.len() < 1 { Err(Error::UnexpectedEof) } else { Ok((s[0] != 0, s.drop_first())) }),
            !(version >= 1) ==> Self::spec_read_is_internal(s, version) == Ok::<(bool, Seq<u8>), Error>((false, s)),
            version >= 8 ==> Self::spec_read_topic_authorized_operations(s, version) == spec_read_i32(s),
            !(version >= 8) ==> Self::spec_read_topic_authorized_operations(s, version) == Ok::<(i32, Seq<u8>), Error>((i32::MIN, s)),
    {
        reveal(MetadataResponseTopic::spec_write_error_code);
        reveal(MetadataResponseTopic::spec_read_error_code);
        reveal(MetadataResponseTopic::spec_write_topic_id);
        reveal(MetadataResponseTopic::spec_read_topic_id);
        reveal(MetadataResponseTopic::spec_write_is_internal);
        reveal(MetadataResponseTopic::spec_read_is_internal);
        reveal(MetadataResponseTopic::spec_write_topic_authorized_operations);
        reveal(MetadataResponseTopic::spec_read_topic_authorized_operations);
    }

    /// Whether writing `m` in `version` succeeds, said over its parts: the
    /// version is one the schema covers, every field that the version cannot
    /// carry holds its default value, and every string, byte string, array and
    /// tagged field fits its length prefix.
    pub open spec fn writable(m: MetadataResponseTopicView, version: i16) -> bool {
        &&& (if version >= 12 {
                (m.name matches Some(b) ==> b.len() <= 0x7fff)
            } else {
                unwrap_or_empty(m.name).len() <= 0x7fff
        })
        &&& (if version >= 10 {
                true
            } else {
                !(!uuid_is_nil(m.topic_id))
        })
        &&& (if version >= 1 {
                true
            } else {
                !(m.is_internal != false)
        })
        &&& (m.partitions.len() <= i32::MAX && all_writable::<MetadataResponsePartition>(m.partitions, version))
        &&& (if version >= 8 {
                true
            } else {
                !(m.topic_authorized_operations != i32::MIN)
        })
        &&& (if version >= 9 {
                m.unknown_tagged_fields.len() <= u32::MAX && tags_fit(m.unknown_tagged_fields)
            } else {
                true
        })
    }

    proof fn lemma_writable_error_code(m: MetadataResponseTopicView, version: i16)
        ensures
            Self::spec_write_error_code(m, version) is Ok <==> true,
    {
        reveal(MetadataResponseTopic::spec_write_error_code);
    }

    proof fn lemma_writable_name(m: MetadataResponseTopicView, version: i16)
        ensures
            Self::spec_write_name(m, version) is Ok <==> (if version >= 12 { (m.name matches Some(b) ==> b.len() <= 0x7fff) } else { unwrap_or_empty(m.name).len() <= 0x7fff }),
    {
        reveal(MetadataResponseTopic::spec_write_name);
    }

    proof fn lemma_writable_topic_id(m: MetadataResponseTopicView, version: i16)
        ensures
            Self::spec_write_topic_id(m, version) is Ok <==> (if version >= 10 { true } else { !(!uuid_is_nil(m.topic_id)) }),
    {
        reveal(MetadataResponseTopic::spec_write_topic_id);
    }

    proof fn lemma_writable_is_internal(m: MetadataResponseTopicView, version: i16)
        ensures
            Self::spec_write_is_internal(m, version) is Ok <==> (if version >= 1 { true } else { !(m.is_internal != false) }),
    {
        reveal(MetadataResponseTopic::spec_write_is_internal);
    }

    proof fn lemma_writable_partitions(m: MetadataResponseTopicView, version: i16)
        ensures
            Self::spec_write_partitions(m, version) is Ok <==> (m.partitions.len() <= i32::MAX && all_writable::<MetadataResponsePartition>(m.partitions, version)),
    {
        reveal(MetadataResponseTopic::spec_write_partitions);
        if version >= 9 {
            lemma_array_writable::<MetadataResponsePartition>(m.partitions, version, true);
        } else {
            lemma_array_writable::<MetadataResponsePartition>(m.partitions, version, false);
        }
    }

    proof fn lemma_writable_topic_authorized_operations(m: MetadataResponseTopicView, version: i16)
        ensures
            Self::spec_write_topic_authorized_operations(m, version) is Ok <==> (if version >= 8 { true } else { !(m.topic_authorized_operations != i32::MIN) }),
    {
        reveal(MetadataResponseTopic::spec_write_topic_authorized_operations);
    }

    proof fn lemma_writable_tags(m: MetadataResponseTopicView, version: i16)
        ensures
            Self::spec_write_tags(m, version) is Ok <==> (if version >= 9 { m.unknown_tagged_fields.len() <= u32::MAX && tags_fit(m.unknown_tagged_fields) } else { true }),
    {
        reveal(MetadataResponseTopic::spec_write_tags);
        if version >= 9 {
            lemma_sorted_tags_fit(m.unknown_tagged_fields);
            lemma_tagged_fields_writable(sorted_by_tag(m.unknown_tagged_fields));
        }
    }

    /// Writing `m` in `version` succeeds exactly when `m` is writable in it;
    /// so do `write` and `encoded_len`, whose results follow `spec_write`.
    #[verifier::rlimit(72)]
    pub proof fn lemma_writable(m: MetadataResponseTopicView, version: i16)
        ensures
            Self::spec_write(m, version) is Ok <==> Self::writable(m, version),
    {
        Self::lemma_writable_error_code(m, version);
        Self::lemma_writable_name(m, version);
        Self::lemma_writable_topic_id(m, version);
        Self::lemma_writable_is_internal(m, version);
        Self::lemma_writable_partitions(m, version);
        Self::lemma_writable_topic_authorized_operations(m, version);
        Self::lemma_writable_tags(m, version);
    }

    pub fn with_error_code(self, value: i16) -> (r: Self)
        ensures
            r@ == (MetadataResponseTopicView { error_code: value, ..self@ }),
    {
        let mut r = self;
        r.error_code = value;
        r
    }

    pub fn with_name(self, value: Option<KafkaString>) -> (r: Self)
        ensures
            r@ == (MetadataResponseTopicView { name: opt_view(value), ..self@ }),
    {
        let mut r = self;
        r.name = value;
        r
    }

    pub fn with_topic_id(self, value: KafkaUuid) -> (r: Self)
        ensures
            r@ == (MetadataResponseTopicView { topic_id: value, ..self@ }),
    {
        let mut r = self;
        r.topic_id = value;
        r
    }

    pub fn with_is_internal(self, value: bool) -> (r: Self)
        ensures
            r@ == (MetadataResponseTopicView { is_internal: value, ..self@ }),
    {
        let mut r = self;
        r.is_internal = value;
        r
    }

    pub fn with_partitions(self, value: Vec<MetadataResponsePartition>) -> (r: Self)
        ensures
            r@ == (MetadataResponseTopicView { partitions: views(value@), ..self@ }),
    {
        let mut r = self;
        r.partitions = value;
        r
    }

    pub fn with_topic_authorized_operations(self, value: i32) -> (r: Self)
        ensures
            r@ == (MetadataResponseTopicView { topic_authorized_operations: value, ..self@ }),
    {
        let mut r = self;
        r.topic_authorized_operations = value;
        r
    }

    fn read_error_code(buf: &mut Bytes, version: i16) -> (r: Result<i16, Error>)
        ensures
            read_as(Self::spec_read_error_code(bytes_seq(*old(buf)), version), *final(buf), r),
            took_front(*old(buf), *final(buf)),
    {
        proof {
            reveal(MetadataResponseTopic::spec_read_error_code);
        }
        Ok(read_i16(buf)?)
    }

    fn read_name(buf: &mut Bytes, version: i16) -> (r: Result<Option<KafkaString>, Error>)
        ensures
            read_opt_as(Self::spec_read_name(bytes_seq(*old(buf)), version), *final(buf), r),
            took_front(*old(buf), *final(buf)),
    {
        proof {
            reveal(MetadataResponseTopic::spec_read_name);
        }
        Ok(if version >= 12 {
                read_compact_nullable_string(buf)?
            } else {
                if version >= 9 {
                    Some(read_compact_string(buf)?)
                } else {
                    Some(read_string(buf)?)
                }
        })
    }

    fn read_topic_id(buf: &mut Bytes, version: i16) -> (r: Result<KafkaUuid, Error>)
        ensures
            read_as(Self::spec_read_topic_id(bytes_seq(*old(buf)), version), *final(buf), r),
            took_front(*old(buf), *final(buf)),
    {
        proof {
            reveal(MetadataResponseTopic::spec_read_topic_id);
        }
        Ok(if version >= 10 {
                read_uuid(buf)?
            } else {
                KafkaUuid::zero()
        })
    }

    fn read_is_internal(buf: &mut Bytes, version: i16) -> (r: Result<bool, Error>)
        ensures
            read_as(Self::spec_read_is_internal(bytes_seq(*old(buf)), version), *final(buf), r),
            took_front(*old(buf), *final(buf)),
    {
        proof {
            reveal(MetadataResponseTopic::spec_read_is_internal);
        }
        Ok(if version >= 1 {
                read_bool(buf)?
            } else {
                false
        })
    }

    fn read_partitions(buf: &mut Bytes, version: i16) -> (r: Result<Vec<MetadataResponsePartition>, Error>)
        ensures
            read_vec_as(Self::spec_read_partitions(bytes_seq(*old(buf)), version), *final(buf), r),
            took_front(*old(buf), *final(buf)),
    {
        proof {
            reveal(MetadataResponseTopic::spec_read_partitions);
        }
        Ok(if version >= 9 {
                read_array::<MetadataResponsePartition>(buf, version, true)?
            } else {
                read_array::<MetadataResponsePartition>(buf, version, false)?
        })
    }

    fn read_topic_authorized_operations(buf: &mut Bytes, version: i16) -> (r: Result<i32, Error>)
        ensures
            read_as(Self::spec_read_topic_authorized_operations(bytes_seq(*old(buf)), version), *final(buf), r),
            took_front(*old(buf), *final(buf)),
    {
        proof {
            reveal(MetadataResponseTopic::spec_read_topic_authorized_operations);
        }
        Ok(if version >= 8 {
                read_i32(buf)?
            } else {
                i32::MIN
        })
    }

    fn read_tags(buf: &mut Bytes, version: i16) -> (r: Result<Vec<RawTaggedField>, Error>)
        ensures
            read_vec_as(Self::spec_read_tags(bytes_seq(*old(buf)), version), *final(buf), r),
            took_front(*old(buf), *final(buf)),
    {
        proof {
            reveal(MetadataResponseTopic::spec_read_tags);
        }
        Ok(if version >= 9 {
                read_tagged_fields(buf)?
            } else {
                empty_vec()
        })
    }

    #[verifier::rlimit(62)]
    #[verifier::spinoff_prover]
    pub fn read(buf: &mut Bytes, version: i16) -> (r: Result<Self, Error>)
        ensures
            read_as(Self::spec_read(bytes_seq(*old(buf)), version), *final(buf), r),
            took_front(*old(buf), *final(buf)),
    {
        let error_code = Self::read_error_code(buf, version)?;
        let name = Self::read_name(buf, version)?;
        let topic_id = Self::read_topic_id(buf, version)?;
        let is_internal = Self::read_is_internal(buf, version)?;
        let partitions = Self::read_partitions(buf, version)?;
        let topic_authorized_operations = Self::read_topic_authorized_operations(buf, version)?;
        let _unknown_tagged_fields = Self::read_tags(buf, version)?;
        Ok(MetadataResponseTopic {
                error_code: error_code,
                name: name,
                topic_id: topic_id,
                is_internal: is_internal,
                partitions: partitions,
                topic_authorized_operations: topic_authorized_operations,
                _unknown_tagged_fields: _unknown_tagged_fields,
        })
    }

    #[verifier::rlimit(100)]
    #[verifier::spinoff_prover]
    pub fn write(&self, buf: &mut BytesMut, version: i16) -> (r: Result<(), Error>)
        requires
            has_room(Self::spec_write(self@, version), *old(buf)),
        ensures
            wrote(Self::spec_write(self@, version), *old(buf), *final(buf), r),
    {
        let ghost m = self@;
        proof {
            reveal(MetadataResponseTopic::spec_write_error_code);
            reveal(MetadataResponseTopic::spec_write_name);
            reveal(MetadataResponseTopic::spec_write_topic_id);
            reveal(MetadataResponseTopic::spec_write_is_internal);
            reveal(MetadataResponseTopic::spec_write_partitions);
            reveal(MetadataResponseTopic::spec_write_topic_authorized_operations);
            reveal(MetadataResponseTopic::spec_write_tags);
        }
        let ghost s0 = Self::spec_write_error_code(m, version);
        let ghost w0 = s0;
        let ghost s1 = Self::spec_write_name(m, version);
        let ghost w1 = chain(w0, s1);
        let ghost s2 = Self::spec_write_topic_id(m, version);
        let ghost w2 = chain(w1, s2);
        let ghost s3 = Self::spec_write_is_internal(m, version);
        let ghost w3 = chain(w2, s3);
        let ghost s4 = Self::spec_write_partitions(m, version);
        let ghost w4 = chain(w3, s4);
        let ghost s5 = Self::spec_write_topic_authorized_operations(m, version);
        let ghost w5 = chain(w4, s5);
        let ghost s6 = Self::spec_write_tags(m, version);
        let ghost w6 = chain(w5, s6);
        assert(Self::spec_write(m, version) == w6);
        assert(written(w5).len() <= written(w6).len() && (w5 is Err ==> w6 == w5));
        assert(written(w4).len() <= written(w6).len() && (w4 is Err ==> w6 == w4));
        assert(written(w3).len() <= written(w6).len() && (w3 is Err ==> w6 == w3));
        assert(written(w2).len() <= written(w6).len() && (w2 is Err ==> w6 == w2));
        assert(written(w1).len() <= written(w6).len() && (w1 is Err ==> w6 == w1));
        assert(written(w0).len() <= written(w6).len() && (w0 is Err ==> w6 == w0));
        let ghost mid = bytes_mut_seq(*buf);
        proof {
            lemma_append_empty(mid);
        }
        let r0 = {
            write_i16(buf, self.error_code);
            Ok(())
        };
        assert(bytes_mut_seq(*buf) == mid + written(s0));
        if r0.is_err() {
            return r0;
        }
        let ghost mid = bytes_mut_seq(*buf);
        proof {
            lemma_append_empty(mid);
        }
        let r1 = if version >= 12 {
            write_compact_nullable_string(buf, &self.name)
        } else {
            {
                let nn_default = KafkaString::default();
                let nn_val = match &self.name {
                    Some(v) => v,
                    None => &nn_default,
                };
                if version >= 9 {
                    write_compact_string(buf, &*nn_val)
                } else {
                    write_string(buf, &*nn_val)
                }
            }
        };
        assert(bytes_mut_seq(*buf) == mid + written(s1));
        proof {
            lemma_step(bytes_mut_seq(*old(buf)), w0, s1);
        }
        if r1.is_err() {
            return r1;
        }
        let ghost mid = bytes_mut_seq(*buf);
        proof {
            lemma_append_empty(mid);
        }
        let r2 = if version >= 10 {
            {
                write_uuid(buf, self.topic_id);
                Ok(())
            }
        } else {
            if !self.topic_id.is_nil() {
                Err(Error::UnsupportedFieldVersion(UnsupportedFieldVersion::new(3, "topic_id", version)))
            } else {
                Ok(())
            }
        };
        assert(bytes_mut_seq(*buf) == mid + written(s2));
        proof {
            lemma_step(bytes_mut_seq(*old(buf)), w1, s2);
        }
        if r2.is_err() {
            return r2;
        }
        let ghost mid = bytes_mut_seq(*buf);
        proof {
            lemma_append_empty(mid);
        }
        let r3 = if version >= 1 {
            {
                write_bool(buf, self.is_internal);
                Ok(())
            }
        } else {
            if self.is_internal != false {
                Err(Error::UnsupportedFieldVersion(UnsupportedFieldVersion::new(3, "is_internal", version)))
            } else {
                Ok(())
            }
        };
        assert(bytes_mut_seq(*buf) == mid + written(s3));
        proof {
            lemma_step(bytes_mut_seq(*old(buf)), w2, s3);
        }
        if r3.is_err() {
            return r3;
        }
        let ghost mid = bytes_mut_seq(*buf);
        proof {
            lemma_append_empty(mid);
        }
        let r4 = if version >= 9 {
            write_array::<MetadataResponsePartition>(buf, &self.partitions, version, true)
        } else {
            write_array::<MetadataResponsePartition>(buf, &self.partitions, version, false)
        };
        assert(bytes_mut_seq(*buf) == mid + written(s4));
        proof {
            lemma_step(bytes_mut_seq(*old(buf)), w3, s4);
        }
        if r4.is_err() {
            return r4;
        }
        let ghost mid = bytes_mut_seq(*buf);
        proof {
            lemma_append_empty(mid);
        }
        let r5 = if version >= 8 {
            {
                write_i32(buf, self.topic_authorized_operations);
                Ok(())
            }
        } else {
            if self.topic_authorized_operations != i32::MIN {
                Err(Error::UnsupportedFieldVersion(UnsupportedFieldVersion::new(3, "topic_authorized_operations", version)))
            } else {
                Ok(())
            }
        };
        assert(bytes_mut_seq(*buf) == mid + written(s5));
        proof {
            lemma_step(bytes_mut_seq(*old(buf)), w4, s5);
        }
        if r5.is_err() {
            return r5;
        }
        let ghost mid = bytes_mut_seq(*buf);
        proof {
            lemma_append_empty(mid);
        }
        let r6 = if version >= 9 {
            write_tagged_fields(buf, &sort_by_tag(&self._unknown_tagged_fields))
        } else {
            Ok(())
        };
        assert(bytes_mut_seq(*buf) == mid + written(s6));
        proof {
            lemma_step(bytes_mut_seq(*old(buf)), w5, s6);
        }
        if r6.is_err() {
            return r6;
        }
        Ok(())
    }

    #[verifier::rlimit(100)]
    #[verifier::spinoff_prover]
    pub fn encoded_len(&self, version: i16) -> (r: Result<usize, Error>)
        ensures
            r == len_result(Self::spec_write(self@, version)),
    {
        let ghost m = self@;
        proof {
            reveal(MetadataResponseTopic::spec_write_error_code);
            reveal(MetadataResponseTopic::spec_write_name);
            reveal(MetadataResponseTopic::spec_write_topic_id);
            reveal(MetadataResponseTopic::spec_write_is_internal);
            reveal(MetadataResponseTopic::spec_write_partitions);
            reveal(MetadataResponseTopic::spec_write_topic_authorized_operations);
            reveal(MetadataResponseTopic::spec_write_tags);
        }
        let ghost s0 = Self::spec_write_error_code(m, version);
        let ghost w0 = s0;
        let ghost s1 = Self::spec_write_name(m, version);
        let ghost w1 = chain(w0, s1);
        let ghost s2 = Self::spec_write_topic_id(m, version);
        let ghost w2 = chain(w1, s2);
        let ghost s3 = Self::spec_write_is_internal(m, version);
        let ghost w3 = chain(w2, s3);
        let ghost s4 = Self::spec_write_partitions(m, version);
        let ghost w4 = chain(w3, s4);
        let ghost s5 = Self::spec_write_topic_authorized_operations(m, version);
        let ghost w5 = chain(w4, s5);
        let ghost s6 = Self::spec_write_tags(m, version);
        let ghost w6 = chain(w5, s6);
        assert(Self::spec_write(m, version) == w6);
        assert(w5 is Err ==> w6 == w5);
        assert(w4 is Err ==> w6 == w4);
        assert(w3 is Err ==> w6 == w3);
        assert(w2 is Err ==> w6 == w2);
        assert(w1 is Err ==> w6 == w1);
        assert(w0 is Err ==> w6 == w0);
        let mut len: usize = 0;
        let l0 = Ok(2);
        assert(l0 == len_result(s0));
        let n0 = match l0 {
            Ok(n) => n,
            Err(e) => {
                return Err(e);
            },
        };
        len = saturating_sum(len, n0);
        assert(w0 is Ok && len == saturate(written(w0).len() as int));
        let l1 = if version >= 12 {
            compact_nullable_string_len(&self.name)
        } else {
            {
                let nn_default = KafkaString::default();
                let nn_val = match &self.name {
                    Some(v) => v,
                    None => &nn_default,
                };
                if version >= 9 {
                    compact_string_len(&*nn_val)
                } else {
                    string_len(&*nn_val)
                }
            }
        };
        assert(l1 == len_result(s1));
        let n1 = match l1 {
            Ok(n) => n,
            Err(e) => {
                return Err(e);
            },
        };
        proof {
            lemma_len_step(w0, s1, n1);
        }
        len = saturating_sum(len, n1);
        assert(w1 is Ok && len == saturate(written(w1).len() as int));
        let l2 = if version >= 10 {
            Ok(16)
        } else {
            if !self.topic_id.is_nil() {
                Err(Error::UnsupportedFieldVersion(UnsupportedFieldVersion::new(3, "topic_id", version)))
            } else {
                Ok(0)
            }
        };
        assert(l2 == len_result(s2));
        let n2 = match l2 {
            Ok(n) => n,
            Err(e) => {
                return Err(e);
            },
        };
        proof {
            lemma_len_step(w1, s2, n2);
        }
        len = saturating_sum(len, n2);
        assert(w2 is Ok && len == saturate(written(w2).len() as int));
        let l3 = if version >= 1 {
            Ok(1)
        } else {
            if self.is_internal != false {
                Err(Error::UnsupportedFieldVersion(UnsupportedFieldVersion::new(3, "is_internal", version)))
            } else {
                Ok(0)
            }
        };
        assert(l3 == len_result(s3));
        let n3 = match l3 {
            Ok(n) => n,
            Err(e) => {
                return Err(e);
            },
        };
        proof {
            lemma_len_step(w2, s3, n3);
        }
        len = saturating_sum(len, n3);
        assert(w3 is Ok && len == saturate(written(w3).len() as int));
        let l4 = if version >= 9 {
            array_len::<MetadataResponsePartition>(&self.partitions, version, true)
        } else {
            array_len::<MetadataResponsePartition>(&self.partitions, version, false)
        };
        assert(l4 == len_result(s4));
        let n4 = match l4 {
            Ok(n) => n,
            Err(e) => {
                return Err(e);
            },
        };
        proof {
            lemma_len_step(w3, s4, n4);
        }
        len = saturating_sum(len, n4);
        assert(w4 is Ok && len == saturate(written(w4).len() as int));
        let l5 = if version >= 8 {
            Ok(4)
        } else {
            if self.topic_authorized_operations != i32::MIN {
                Err(Error::UnsupportedFieldVersion(UnsupportedFieldVersion::new(3, "topic_authorized_operations", version)))
            } else {
                Ok(0)
            }
        };
        assert(l5 == len_result(s5));
        let n5 = match l5 {
            Ok(n) => n,
            Err(e) => {
                return Err(e);
            },
        };
        proof {
            lemma_len_step(w4, s5, n5);
        }
        len = saturating_sum(len, n5);
        assert(w5 is Ok && len == saturate(written(w5).len() as int));
        let l6 = if version >= 9 {
            tagged_fields_len(&sort_by_tag(&self._unknown_tagged_fields))
        } else {
            Ok(0)
        };
        assert(l6 == len_result(s6));
        let n6 = match l6 {
            Ok(n) => n,
            Err(e) => {
                return Err(e);
            },
        };
        proof {
            lemma_len_step(w5, s6, n6);
        }
        len = saturating_sum(len, n6);
        assert(w6 is Ok && len == saturate(written(w6).len() as int));
        Ok(len)
    }
}

#[derive(Debug, PartialEq)]
pub struct MetadataResponsePartition {
    /// The partition error, or 0 if there was no error.
    pub error_code: i16,
    /// The partition index.
    pub partition_index: i32,
    /// The ID of the leader broker.
    pub leader_id: i32,
    /// The leader epoch of this partition.
    pub leader_epoch: i32,
    /// The set of all nodes that host this partition.
    pub replica_nodes: Vec<i32>,
    /// The set of nodes that are in sync with the leader for this partition.
    pub isr_nodes: Vec<i32>,
    /// The set of offline replicas of this partition.
    pub offline_replicas: Vec<i32>,
    pub _unknown_tagged_fields: Vec<RawTaggedField>,
}

/// What a `MetadataResponsePartition` holds, as the specification sees it.
#[verifier::ext_equal]
pub struct MetadataResponsePartitionView {
    pub error_code: i16,
    pub partition_index: i32,
    pub leader_id: i32,
    pub leader_epoch: i32,
    pub replica_nodes: Seq<i32>,
    pub isr_nodes: Seq<i32>,
    pub offline_replicas: Seq<i32>,
    pub unknown_tagged_fields: Seq<(u32, Seq<u8>)>,
}

impl View for MetadataResponsePartition {
    type V = MetadataResponsePartitionView;

    open spec fn view(&self) -> MetadataResponsePartitionView {
        MetadataResponsePartitionView {
            error_code: self.error_code,
            partition_index: self.partition_index,
            leader_id: self.leader_id,
            leader_epoch: self.leader_epoch,
            replica_nodes: views(self.replica_nodes@),
            isr_nodes: views(self.isr_nodes@),
            offline_replicas: views(self.offline_replicas@),
            unknown_tagged_fields: views(self._unknown_tagged_fields@),
        }
    }
}

impl Clone for MetadataResponsePartition {
    fn clone(&self) -> (r: Self)
        ensures
            r@ == self@,
    {
        let r = MetadataResponsePartition {
            error_code: self.error_code,
            partition_index: self.partition_index,
            leader_id: self.leader_id,
            leader_epoch: self.leader_epoch,
            replica_nodes: clone_vec(&self.replica_nodes),
            isr_nodes: clone_vec(&self.isr_nodes),
            offline_replicas: clone_vec(&self.offline_replicas),
            _unknown_tagged_fields: clone_vec(&self._unknown_tagged_fields),
        };
        assert(r@ =~= self@);
        r
    }
}

impl ViewClone for MetadataResponsePartition {
    fn clone_view(&self) -> (r: Self) {
        self.clone()
    }
}

impl Default for MetadataResponsePartition {
    fn default() -> (r: Self)
        ensures
            r@ == Self::default_view(),
    {
        let r = MetadataResponsePartition {
            error_code: 0_i16,
            partition_index: 0_i32,
            leader_id: 0_i32,
            leader_epoch: -1i32,
            replica_nodes: empty_vec(),
            isr_nodes: empty_vec(),
            offline_replicas: empty_vec(),
            _unknown_tagged_fields: empty_vec(),
        };
        assert(r@ =~= Self::default_view());
        r
    }
}

impl MetadataResponsePartition {
    pub open spec fn default_view() -> MetadataResponsePartitionView {
        MetadataResponsePartitionView {
            error_code: 0_i16,
            partition_index: 0_i32,
            leader_id: 0_i32,
            leader_epoch: -1i32,
            replica_nodes: Seq::empty(),
            isr_nodes: Seq::empty(),
            offline_replicas: Seq::empty(),
            unknown_tagged_fields: Seq::empty(),
        }
    }

    /// The `error_code` field, read from the front of `s`.
    #[verifier::opaque]
    pub open spec fn spec_read_error_code(s: Seq<u8>, version: i16) -> ReadOutcome<i16> {
        spec_read_i16(s)
    }

    /// The `partition_index` field, read from the front of `s`.
    #[verifier::opaque]
    pub open spec fn spec_read_partition_index(s: Seq<u8>, version: i16) -> ReadOutcome<i32> {
        spec_read_i32(s)
    }

    /// The `leader_id` field, read from the front of `s`.
    #[verifier::opaque]
    pub open spec fn spec_read_leader_id(s: Seq<u8>, version: i16) -> ReadOutcome<i32> {
        spec_read_i32(s)
    }

    /// The `leader_epoch` field, read from the front of `s`.
    #[verifier::opaque]
    pub open spec fn spec_read_leader_epoch(s: Seq<u8>, version: i16) -> ReadOutcome<i32> {
        if version >= 7 {
            spec_read_i32(s)
        } else {
            Ok((-1i32, s))
        }
    }

    /// The `replica_nodes` field, read from the front of `s`.
    #[verifier::opaque]
    pub open spec fn spec_read_replica_nodes(s: Seq<u8>, version: i16) -> ReadOutcome<Seq<i32>> {
        if version >= 9 {
            spec_read_array::<Int32Item>(s, version, true)
        } else {
            spec_read_array::<Int32Item>(s, version, false)
        }
    }

    /// The `isr_nodes` field, read from the front of `s`.
    #[verifier::opaque]
    pub open spec fn spec_read_isr_nodes(s: Seq<u8>, version: i16) -> ReadOutcome<Seq<i32>> {
        if version >= 9 {
            spec_read_array::<Int32Item>(s, version, true)
        } else {
            spec_read_array::<Int32Item>(s, version, false)
        }
    }

    /// The `offline_replicas` field, read from the front of `s`.
    #[verifier::opaque]
    pub open spec fn spec_read_offline_replicas(s: Seq<u8>, version: i16) -> ReadOutcome<Seq<i32>> {
        if version >= 5 {
            if version >= 9 {
                spec_read_array::<Int32Item>(s, version, true)
            } else {
                spec_read_array::<Int32Item>(s, version, false)
            }
        } else {
            Ok((Seq::empty(), s))
        }
    }

    /// The tagged fields, read from the front of `s`.
    #[verifier::opaque]
    pub open spec fn spec_read_tags(s: Seq<u8>, version: i16) -> ReadOutcome<Seq<(u32, Seq<u8>)>> {
        if version >= 9 {
            spec_read_tagged_fields(s)
        } else {
            Ok((Seq::empty(), s))
        }
    }

    pub open spec fn spec_read(s: Seq<u8>, version: i16) -> ReadOutcome<MetadataResponsePartitionView> {
        match (Self::spec_read_error_code(s, version)) {
            Err(e) => Err(e),
            Ok((error_code, s)) => match (Self::spec_read_partition_index(s, version)) {
                Err(e) => Err(e),
                Ok((partition_index, s)) => match (Self::spec_read_leader_id(s, version)) {
                    Err(e) => Err(e),
                    Ok((leader_id, s)) => match (Self::spec_read_leader_epoch(s, version)) {
                        Err(e) => Err(e),
                        Ok((leader_epoch, s)) => match (Self::spec_read_replica_nodes(s, version)) {
                            Err(e) => Err(e),
                            Ok((replica_nodes, s)) => match (Self::spec_read_isr_nodes(s, version)) {
                                Err(e) => Err(e),
                                Ok((isr_nodes, s)) => match (Self::spec_read_offline_replicas(s, version)) {
                                    Err(e) => Err(e),
                                    Ok((offline_replicas, s)) => match (Self::spec_read_tags(s, version)) {
                                        Err(e) => Err(e),
                                        Ok((unknown_tagged_fields, s)) => Ok((MetadataResponsePartitionView {
                                                    error_code: error_code,
                                                    partition_index: partition_index,
                                                    leader_id: leader_id,
                                                    leader_epoch: leader_epoch,
                                                    replica_nodes: replica_nodes,
                                                    isr_nodes: isr_nodes,
                                                    offline_replicas: offline_replicas,
                                                    unknown_tagged_fields: unknown_tagged_fields,
                                                }, s)),
                                    },
                                },
                            },
                        },
                    },
                },
            },
        }
    }

    /// What writing the `error_code` field of `m` appends.
    #[verifier::opaque]
    pub open spec fn spec_write_error_code(m: MetadataResponsePartitionView, version: i16) -> WriteOutcome {
        spec_write_i16(m.error_code)
    }

    /// What writing the `partition_index` field of `m` appends.
    #[verifier::opaque]
    pub open spec fn spec_write_partition_index(m: MetadataResponsePartitionView, version: i16) -> WriteOutcome {
        spec_write_i32(m.partition_index)
    }

    /// What writing the `leader_id` field of `m` appends.
    #[verifier::opaque]
    pub open spec fn spec_write_leader_id(m: MetadataResponsePartitionView, version: i16) -> WriteOutcome {
        spec_write_i32(m.leader_id)
    }

    /// What writing the `leader_epoch` field of `m` appends.
    #[verifier::opaque]
    pub open spec fn spec_write_leader_epoch(m: MetadataResponsePartitionView, version: i16) -> WriteOutcome {
        if version >= 7 {
            spec_write_i32(m.leader_epoch)
        } else {
            if m.leader_epoch != -1i32 {
                fail(Error::UnsupportedFieldVersion(UnsupportedFieldVersion { api_key: 3, field: "leader_epoch", version }))
            } else {
                emit(Seq::empty())
            }
        }
    }

    /// What writing the `replica_nodes` field of `m` appends.
    #[verifier::opaque]
    pub open spec fn spec_write_replica_nodes(m: MetadataResponsePartitionView, version: i16) -> WriteOutcome {
        if version >= 9 {
            spec_write_array::<Int32Item>(m.replica_nodes, version, true)
        } else {
            spec_write_array::<Int32Item>(m.replica_nodes, version, false)
        }
    }

    /// What writing the `isr_nodes` field of `m` appends.
    #[verifier::opaque]
    pub open spec fn spec_write_isr_nodes(m: MetadataResponsePartitionView, version: i16) -> WriteOutcome {
        if version >= 9 {
            spec_write_array::<Int32Item>(m.isr_nodes, version, true)
        } else {
            spec_write_array::<Int32Item>(m.isr_nodes, version, false)
        }
    }

    /// What writing the `offline_replicas` field of `m` appends.
    #[verifier::opaque]
    pub open spec fn spec_write_offline_replicas(m: MetadataResponsePartitionView, version: i16) -> WriteOutcome {
        if version >= 5 {
            if version >= 9 {
                spec_write_array::<Int32Item>(m.offline_replicas, version, true)
            } else {
                spec_write_array::<Int32Item>(m.offline_replicas, version, false)
            }
        } else {
            if m.offline_replicas.len() != 0 {
                fail(Error::UnsupportedFieldVersion(UnsupportedFieldVersion { api_key: 3, field: "offline_replicas", version }))
            } else {
                emit(Seq::empty())
            }
        }
    }

    /// What writing the tagged fields of `m` appends.
    #[verifier::opaque]
    pub open spec fn spec_write_tags(m: MetadataResponsePartitionView, version: i16) -> WriteOutcome {
        if version >= 9 {
            spec_write_tagged_fields(sorted_by_tag(m.unknown_tagged_fields))
        } else {
            emit(Seq::empty())
        }
    }

    pub open spec fn spec_write(m: MetadataResponsePartitionView, version: i16) -> WriteOutcome {
        chain(
            chain(
                chain(
                    chain(
                        chain(
                            chain(
                                chain(
                                    Self::spec_write_error_code(m, version),
                                    Self::spec_write_partition_index(m, version),
                                ),
                                Self::spec_write_leader_id(m, version),
                            ),
                            Self::spec_write_leader_epoch(m, version),
                        ),
                        Self::spec_write_replica_nodes(m, version),
                    ),
                    Self::spec_write_isr_nodes(m, version),
                ),
                Self::spec_write_offline_replicas(m, version),
            ),
            Self::spec_write_tags(m, version),
        )
    }

    /// Whether reading back what writing `m` in `version` appends gives `m`:
    /// fields that the version does not carry hold their default values, and
    /// tagged fields come in the order in which they are written.
    pub open spec fn canonical(m: MetadataResponsePartitionView, version: i16) -> bool {
        &&& (if version >= 9 {
                tags_in_order(m.unknown_tagged_fields)
            } else {
                m.unknown_tagged_fields.len() == 0
        })
    }

    proof fn lemma_round_trip_error_code(m: MetadataResponsePartitionView, version: i16, rest: Seq<u8>)
        requires
            Self::canonical(m, version),
            Self::spec_write_error_code(m, version) is Ok,
        ensures
            Self::spec_read_error_code(written(Self::spec_write_error_code(m, version)) + rest, version) == Ok::<(i16, Seq<u8>), Error>((m.error_code, rest)),
    {
        reveal(MetadataResponsePartition::spec_read_error_code);
        reveal(MetadataResponsePartition::spec_write_error_code);
        lemma_i16_roundtrip(m.error_code, rest);
    }

    proof fn lemma_round_trip_partition_index(m: MetadataResponsePartitionView, version: i16, rest: Seq<u8>)
        requires
            Self::canonical(m, version),
            Self::spec_write_partition_index(m, version) is Ok,
        ensures
            Self::spec_read_partition_index(written(Self::spec_write_partition_index(m, version)) + rest, version) == Ok::<(i32, Seq<u8>), Error>((m.partition_index, rest)),
    {
        reveal(MetadataResponsePartition::spec_read_partition_index);
        reveal(MetadataResponsePartition::spec_write_partition_index);
        lemma_i32_roundtrip(m.partition_index, rest);
    }

    proof fn lemma_round_trip_leader_id(m: MetadataResponsePartitionView, version: i16, rest: Seq<u8>)
        requires
            Self::canonical(m, version),
            Self::spec_write_leader_id(m, version) is Ok,
        ensures
            Self::spec_read_leader_id(written(Self::spec_write_leader_id(m, version)) + rest, version) == Ok::<(i32, Seq<u8>), Error>((m.leader_id, rest)),
    {
        reveal(MetadataResponsePartition::spec_read_leader_id);
        reveal(MetadataResponsePartition::spec_write_leader_id);
        lemma_i32_roundtrip(m.leader_id, rest);
    }

    proof fn lemma_round_trip_leader_epoch(m: MetadataResponsePartitionView, version: i16, rest: Seq<u8>)
        requires
            Self::canonical(m, version),
            Self::spec_write_leader_epoch(m, version) is Ok,
        ensures
            Self::spec_read_leader_epoch(written(Self::spec_write_leader_epoch(m, version)) + rest, version) == Ok::<(i32, Seq<u8>), Error>((m.leader_epoch, rest)),
    {
        reveal(MetadataResponsePartition::spec_read_leader_epoch);
        reveal(MetadataResponsePartition::spec_write_leader_epoch);
        if version >= 7 {
            lemma_i32_roundtrip(m.leader_epoch, rest);
        } else {
            assert(Seq::<u8>::empty() + rest =~= rest);
        }
    }

    proof fn lemma_round_trip_replica_nodes(m: MetadataResponsePartitionView, version: i16, rest: Seq<u8>)
        requires
            Self::canonical(m, version),
            Self::spec_write_replica_nodes(m, version) is Ok,
        ensures
            Self::spec_read_replica_nodes(written(Self::spec_write_replica_nodes(m, version)) + rest, version) == Ok::<(Seq<i32>, Seq<u8>), Error>((m.replica_nodes, rest)),
    {
        reveal(MetadataResponsePartition::spec_read_replica_nodes);
        reveal(MetadataResponsePartition::spec_write_replica_nodes);
        if version >= 9 {
            lemma_array_round_trip::<Int32Item>(m.replica_nodes, version, true, rest);
        } else {
            lemma_array_round_trip::<Int32Item>(m.replica_nodes, version, false, rest);
        }
    }

    proof fn lemma_round_trip_isr_nodes(m: MetadataResponsePartitionView, version: i16, rest: Seq<u8>)
        requires
            Self::canonical(m, version),
            Self::spec_write_isr_nodes(m, version) is Ok,
        ensures
            Self::spec_read_isr_nodes(written(Self::spec_write_isr_nodes(m, version)) + rest, version) == Ok::<(Seq<i32>, Seq<u8>), Error>((m.isr_nodes, rest)),
    {
        reveal(MetadataResponsePartition::spec_read_isr_nodes);
        reveal(MetadataResponsePartition::spec_write_isr_nodes);
        if version >= 9 {
            lemma_array_round_trip::<Int32Item>(m.isr_nodes, version, true, rest);
        } else {
            lemma_array_round_trip::<Int32Item>(m.isr_nodes, version, false, rest);
        }
    }

    proof fn lemma_round_trip_offline_replicas(m: MetadataResponsePartitionView, version: i16, rest: Seq<u8>)
        requires
            Self::canonical(m, version),
            Self::spec_write_offline_replicas(m, version) is Ok,
        ensures
            Self::spec_read_offline_replicas(written(Self::spec_write_offline_replicas(m, version)) + rest, version) == Ok::<(Seq<i32>, Seq<u8>), Error>((m.offline_replicas, rest)),
    {
        reveal(MetadataResponsePartition::spec_read_offline_replicas);
        reveal(MetadataResponsePartition::spec_write_offline_replicas);
        if version >= 5 {
            if version >= 9 {
                lemma_array_round_trip::<Int32Item>(m.offline_replicas, version, true, rest);
            } else {
                lemma_array_round_trip::<Int32Item>(m.offline_replicas, version, false, rest);
            }
        } else {
            assert(Seq::<u8>::empty() + rest =~= rest);
            assert(m.offline_replicas =~= Seq::empty());
            assert(m.offline_replicas =~= Seq::empty());
        }
    }

    proof fn lemma_round_trip_tags(m: MetadataResponsePartitionView, version: i16, rest: Seq<u8>)
        requires
            Self::canonical(m, version),
            Self::spec_write_tags(m, version) is Ok,
        ensures
            Self::spec_read_tags(written(Self::spec_write_tags(m, version)) + rest, version) == Ok::<(Seq<(u32, Seq<u8>)>, Seq<u8>), Error>((m.unknown_tagged_fields, rest)),
    {
        reveal(MetadataResponsePartition::spec_read_tags);
        reveal(MetadataResponsePartition::spec_write_tags);
        if version >= 9 {
            lemma_sorted_by_tag_in_order(m.unknown_tagged_fields);
            lemma_tagged_fields_round_trip(m.unknown_tagged_fields, rest);
        } else {
            assert(Seq::<u8>::empty() + rest =~= rest);
            assert(m.unknown_tagged_fields =~= Seq::empty());
        }
    }

    /// Reading back what writing `m` in `version` appends gives `m` again, and
    /// leaves what follows, for every canonical message whose write succeeds.
    #[verifier::rlimit(100)]
    #[verifier::spinoff_prover]
    pub proof fn lemma_round_trip(m: MetadataResponsePartitionView, version: i16, rest: Seq<u8>)
        requires
            Self::canonical(m, version),
            Self::spec_write(m, version) is Ok,
        ensures
            Self::spec_read(written(Self::spec_write(m, version)) + rest, version) == Ok::<(MetadataResponsePartitionView, Seq<u8>), Error>((m, rest)),
    {
        let b0 = written(Self::spec_write_error_code(m, version));
        let b1 = written(Self::spec_write_partition_index(m, version));
        let b2 = written(Self::spec_write_leader_id(m, version));
        let b3 = written(Self::spec_write_leader_epoch(m, version));
        let b4 = written(Self::spec_write_replica_nodes(m, version));
        let b5 = written(Self::spec_write_isr_nodes(m, version));
        let b6 = written(Self::spec_write_offline_replicas(m, version));
        let b7 = written(Self::spec_write_tags(m, version));
        let t8 = rest;
        let t7 = b7 + t8;
        let t6 = b6 + t7;
        let t5 = b5 + t6;
        let t4 = b4 + t5;
        let t3 = b3 + t4;
        let t2 = b2 + t3;
        let t1 = b1 + t2;
        let t0 = b0 + t1;
        let w0 = Self::spec_write_error_code(m, version);
        let w1 = chain(w0, Self::spec_write_partition_index(m, version));
        let w2 = chain(w1, Self::spec_write_leader_id(m, version));
        let w3 = chain(w2, Self::spec_write_leader_epoch(m, version));
        let w4 = chain(w3, Self::spec_write_replica_nodes(m, version));
        let w5 = chain(w4, Self::spec_write_isr_nodes(m, version));
        let w6 = chain(w5, Self::spec_write_offline_replicas(m, version));
        let w7 = chain(w6, Self::spec_write_tags(m, version));
        assert(Self::spec_write(m, version) == w7);
        assert(written(w7) + t8 =~= written(w6) + t7);
        assert(written(w6) + t7 =~= written(w5) + t6);
        assert(written(w5) + t6 =~= written(w4) + t5);
        assert(written(w4) + t5 =~= written(w3) + t4);
        assert(written(w3) + t4 =~= written(w2) + t3);
        assert(written(w2) + t3 =~= written(w1) + t2);
        assert(written(w1) + t2 =~= written(w0) + t1);
        Self::lemma_round_trip_error_code(m, version, t1);
        Self::lemma_round_trip_partition_index(m, version, t2);
        Self::lemma_round_trip_leader_id(m, version, t3);
        Self::lemma_round_trip_leader_epoch(m, version, t4);
        Self::lemma_round_trip_replica_nodes(m, version, t5);
        Self::lemma_round_trip_isr_nodes(m, version, t6);
        Self::lemma_round_trip_offline_replicas(m, version, t7);
        Self::lemma_round_trip_tags(m, version, t8);
    }

    /// In a version that does not carry `unknown_tagged_fields`, writing ignores its value.
    pub proof fn lemma_write_ignores_unknown_tagged_fields(m: MetadataResponsePartitionView, value: Seq<(u32, Seq<u8>)>, version: i16)
        requires
            !(version >= 9),
        ensures
            Self::spec_write((MetadataResponsePartitionView { unknown_tagged_fields: value, ..m }), version) == Self::spec_write(m, version),
    {
        reveal(MetadataResponsePartition::spec_write_error_code);
        reveal(MetadataResponsePartition::spec_write_partition_index);
        reveal(MetadataResponsePartition::spec_write_leader_id);
        reveal(MetadataResponsePartition::spec_write_leader_epoch);
        reveal(MetadataResponsePartition::spec_write_replica_nodes);
        reveal(MetadataResponsePartition::spec_write_isr_nodes);
        reveal(MetadataResponsePartition::spec_write_offline_replicas);
        reveal(MetadataResponsePartition::spec_write_tags);
    }

    /// The default message holds the default value of each field of the schema.
    pub proof fn lemma_default_values()
        ensures
            Self::default_view().error_code == (0_i16),
            Self::default_view().partition_index == (0_i32),
            Self::default_view().leader_id == (0_i32),
            Self::default_view().leader_epoch == (-1i32),
            Self::default_view().replica_nodes.len() == 0,
            Self::default_view().isr_nodes.len() == 0,
            Self::default_view().offline_replicas.len() == 0,
            Self::default_view().unknown_tagged_fields.len() == 0,
    {
    }

    /// Each integer, boolean and identifier field is written as its standard
    /// big-endian bytes (a boolean as `1` or `0`) in the versions that carry
    /// it, and as nothing in the others; reading it takes those bytes back (any
    /// byte other than `0` reads as `true`), or gives its default value.
    pub proof fn lemma_field_encodings(m: MetadataResponsePartitionView, s: Seq<u8>, version: i16)
        ensures
            true ==> Self::spec_write_error_code(m, version) == Ok::<Seq<u8>, (Error, Seq<u8>)>(u16_bytes(m.error_code as u16)),
            true ==> Self::spec_write_partition_index(m, version) == Ok::<Seq<u8>, (Error, Seq<u8>)>(u32_bytes(m.partition_index as u32)),
            true ==> Self::spec_write_leader_id(m, version) == Ok::<Seq<u8>, (Error, Seq<u8>)>(u32_bytes(m.leader_id as u32)),
            version >= 7 ==> Self::spec_write_leader_epoch(m, version) == Ok::<Seq<u8>, (Error, Seq<u8>)>(u32_bytes(m.leader_epoch as u32)),
            true ==> Self::spec_read_error_code(s, version) == spec_read_i16(s),
            true ==> Self::spec_read_partition_index(s, version) == spec_read_i32(s),
            true ==> Self::spec_read_leader_id(s, version) == spec_read_i32(s),
            version >= 7 ==> Self::spec_read_leader_epoch(s, version) == spec_read_i32(s),
            !(version >= 7) ==> Self::spec_read_leader_epoch(s, version) == Ok::<(i32, Seq<u8>), Error>((-1i32, s)),
    {
        reveal(MetadataResponsePartition::spec_write_error_code);
        reveal(MetadataResponsePartition::spec_read_error_code);
        reveal(MetadataResponsePartition::spec_write_partition_index);
        reveal(MetadataResponsePartition::spec_read_partition_index);
        reveal(MetadataResponsePartition::spec_write_leader_id);
        reveal(MetadataResponsePartition::spec_read_leader_id);
        reveal(MetadataResponsePartition::spec_write_leader_epoch);
        reveal(MetadataResponsePartition::spec_read_leader_epoch);
    }

    /// Whether writing `m` in `version` succeeds, said over its parts: the
    /// version is one the schema covers, every field that the version cannot
    /// carry holds its default value, and every string, byte string, array and
    /// tagged field fits its length prefix.
    pub open spec fn writable(m: MetadataResponsePartitionView, version: i16) -> bool {
        &&& (if version >= 7 {
                true
            } else {
                !(m.leader_epoch != -1i32)
        })
        &&& (m.replica_nodes.len() <= i32::MAX && all_writable::<Int32Item>(m.replica_nodes, version))
        &&& (m.isr_nodes.len() <= i32::MAX && all_writable::<Int32Item>(m.isr_nodes, version))
        &&& (if version >= 5 {
                (m.offline_replicas.len() <= i32::MAX && all_writable::<Int32Item>(m.offline_replicas, version))
            } else {
                !(m.offline_replicas.len() != 0)
        })
        &&& (if version >= 9 {
                m.unknown_tagged_fields.len() <= u32::MAX && tags_fit(m.unknown_tagged_fields)
            } else {
                true
        })
    }

    proof fn lemma_writable_error_code(m: MetadataResponsePartitionView, version: i16)
        ensures
            Self::spec_write_error_code(m, version) is Ok <==> true,
    {
        reveal(MetadataResponsePartition::spec_write_error_code);
    }

    proof fn lemma_writable_partition_index(m: MetadataResponsePartitionView, version: i16)
        ensures
            Self::spec_write_partition_index(m, version) is Ok <==> true,
    {
        reveal(MetadataResponsePartition::spec_write_partition_index);
    }

    proof fn lemma_writable_leader_id(m: MetadataResponsePartitionView, version: i16)
        ensures
            Self::spec_write_leader_id(m, version) is Ok <==> true,
    {
        reveal(MetadataResponsePartition::spec_write_leader_id);
    }

    proof fn lemma_writable_leader_epoch(m: MetadataResponsePartitionView, version: i16)
        ensures
            Self::spec_write_leader_epoch(m, version) is Ok <==> (if version >= 7 { true } else { !(m.leader_epoch != -1i32) }),
    {
        reveal(MetadataResponsePartition::spec_write_leader_epoch);
    }

    proof fn lemma_writable_replica_nodes(m: MetadataResponsePartitionView, version: i16)
        ensures
            Self::spec_write_replica_nodes(m, version) is Ok <==> (m.replica_nodes.len() <= i32::MAX && all_writable::<Int32Item>(m.replica_nodes, version)),
    {
        reveal(MetadataResponsePartition::spec_write_replica_nodes);
        if version >= 9 {
            lemma_array_writable::<Int32Item>(m.replica_nodes, version, true);
        } else {
            lemma_array_writable::<Int32Item>(m.replica_nodes, version, false);
        }
    }

    proof fn lemma_writable_isr_nodes(m: MetadataResponsePartitionView, version: i16)
        ensures
            Self::spec_write_isr_nodes(m, version) is Ok <==> (m.isr_nodes.len() <= i32::MAX && all_writable::<Int32Item>(m.isr_nodes, version)),
    {
        reveal(MetadataResponsePartition::spec_write_isr_nodes);
        if version >= 9 {
            lemma_array_writable::<Int32Item>(m.isr_nodes, version, true);
        } else {
            lemma_array_writable::<Int32Item>(m.isr_nodes, version, false);
        }
    }

    proof fn lemma_writable_offline_replicas(m: MetadataResponsePartitionView, version: i16)
        ensures
            Self::spec_write_offline_replicas(m, version) is Ok <==> (if version >= 5 { (m.offline_replicas.len() <= i32::MAX && all_writable::<Int32Item>(m.offline_replicas, version)) } else { !(m.offline_replicas.len() != 0) }),
    {
        reveal(MetadataResponsePartition::spec_write_offline_replicas);
        if version >= 5 {
            if version >= 9 {
                lemma_array_writable::<Int32Item>(m.offline_replicas, version, true);
            } else {
                lemma_array_writable::<Int32Item>(m.offline_replicas, version, false);
            }
        } else {
        }
    }

    proof fn lemma_writable_tags(m: MetadataResponsePartitionView, version: i16)
        ensures
            Self::spec_write_tags(m, version) is Ok <==> (if version >= 9 { m.unknown_tagged_fields.len() <= u32::MAX && tags_fit(m.unknown_tagged_fields) } else { true }),
    {
        reveal(MetadataResponsePartition::spec_write_tags);
        if version >= 9 {
            lemma_sorted_tags_fit(m.unknown_tagged_fields);
            lemma_tagged_fields_writable(sorted_by_tag(m.unknown_tagged_fields));
        }
    }

    /// Writing `m` in `version` succeeds exactly when `m` is writable in it;
    /// so do `write` and `encoded_len`, whose results follow `spec_write`.
    #[verifier::rlimit(78)]
    pub proof fn lemma_writable(m: MetadataResponsePartitionView, version: i16)
        ensures
            Self::spec_write(m, version) is Ok <==> Self::writable(m, version),
    {
        Self::lemma_writable_error_code(m, version);
        Self::lemma_writable_partition_index(m, version);
        Self::lemma_writable_leader_id(m, version);
        Self::lemma_writable_leader_epoch(m, version);
        Self::lemma_writable_replica_nodes(m, version);
        Self::lemma_writable_isr_nodes(m, version);
        Self::lemma_writable_offline_replicas(m, version);
        Self::lemma_writable_tags(m, version);
    }

    pub fn with_error_code(self, value: i16) -> (r: Self)
        ensures
            r@ == (MetadataResponsePartitionView { error_code: value, ..self@ }),
    {
        let mut r = self;
        r.error_code = value;
        r
    }

    pub fn with_partition_index(self, value: i32) -> (r: Self)
        ensures
            r@ == (MetadataResponsePartitionView { partition_index: value, ..self@ }),
    {
        let mut r = self;
        r.partition_index = value;
        r
    }

    pub fn with_leader_id(self, value: i32) -> (r: Self)
        ensures
            r@ == (MetadataResponsePartitionView { leader_id: value, ..self@ }),
    {
        let mut r = self;
        r.leader_id = value;
        r
    }

    pub fn with_leader_epoch(self, value: i32) -> (r: Self)
        ensures
            r@ == (MetadataResponsePartitionView { leader_epoch: value, ..self@ }),
    {
        let mut r = self;
        r.leader_epoch = value;
        r
    }

    pub fn with_replica_nodes(self, value: Vec<i32>) -> (r: Self)
        ensures
            r@ == (MetadataResponsePartitionView { replica_nodes: views(value@), ..self@ }),
    {
        let mut r = self;
        r.replica_nodes = value;
        r
    }

    pub fn with_isr_nodes(self, value: Vec<i32>) -> (r: Self)
        ensures
            r@ == (MetadataResponsePartitionView { isr_nodes: views(value@), ..self@ }),
    {
        let mut r = self;
        r.isr_nodes = value;
        r
    }

    pub fn with_offline_replicas(self, value: Vec<i32>) -> (r: Self)
        ensures
            r@ == (MetadataResponsePartitionView { offline_replicas: views(value@), ..self@ }),
    {
        let mut r = self;
        r.offline_replicas = value;
        r
    }

    fn read_error_code(buf: &mut Bytes, version: i16) -> (r: Result<i16, Error>)
        ensures
            read_as(Self::spec_read_error_code(bytes_seq(*old(buf)), version), *final(buf), r),
            took_front(*old(buf), *final(buf)),
    {
        proof {
            reveal(MetadataResponsePartition::spec_read_error_code);
        }
        Ok(read_i16(buf)?)
    }

    fn read_partition_index(buf: &mut Bytes, version: i16) -> (r: Result<i32, Error>)
        ensures
            read_as(Self::spec_read_partition_index(bytes_seq(*old(buf)), version), *final(buf), r),
            took_front(*old(buf), *final(buf)),
    {
        proof {
            reveal(MetadataResponsePartition::spec_read_partition_index);
        }
        Ok(read_i32(buf)?)
    }

    fn read_leader_id(buf: &mut Bytes, version: i16) -> (r: Result<i32, Error>)
        ensures
            read_as(Self::spec_read_leader_id(bytes_seq(*old(buf)), version), *final(buf), r),
            took_front(*old(buf), *final(buf)),
    {
        proof {
            reveal(MetadataResponsePartition::spec_read_leader_id);
        }
        Ok(read_i32(buf)?)
    }

    fn read_leader_epoch(buf: &mut Bytes, version: i16) -> (r: Result<i32, Error>)
        ensures
            read_as(Self::spec_read_leader_epoch(bytes_seq(*old(buf)), version), *final(buf), r),
            took_front(*old(buf), *final(buf)),
    {
        proof {
            reveal(MetadataResponsePartition::spec_read_leader_epoch);
        }
        Ok(if version >= 7 {
                read_i32(buf)?
            } else {
                -1i32
        })
    }

    fn read_replica_nodes(buf: &mut Bytes, version: i16) -> (r: Result<Vec<i32>, Error>)
        ensures
            read_vec_as(Self::spec_read_replica_nodes(bytes_seq(*old(buf)), version), *final(buf), r),
            took_front(*old(buf), *final(buf)),
    {
        proof {
            reveal(MetadataResponsePartition::spec_read_replica_nodes);
        }
        Ok(if version >= 9 {
                read_array::<Int32Item>(buf, version, true)?
            } else {
                read_array::<Int32Item>(buf, version, false)?
        })
    }

    fn read_isr_nodes(buf: &mut Bytes, version: i16) -> (r: Result<Vec<i32>, Error>)
        ensures
            read_vec_as(Self::spec_read_isr_nodes(bytes_seq(*old(buf)), version), *final(buf), r),
            took_front(*old(buf), *final(buf)),
    {
        proof {
            reveal(MetadataResponsePartition::spec_read_isr_nodes);
        }
        Ok(if version >= 9 {
                read_array::<Int32Item>(buf, version, true)?
            } else {
                read_array::<Int32Item>(buf, version, false)?
        })
    }

    fn read_offline_replicas(buf: &mut Bytes, version: i16) -> (r: Result<Vec<i32>, Error>)
        ensures
            read_vec_as(Self::spec_read_offline_replicas(bytes_seq(*old(buf)), version), *final(buf), r),
            took_front(*old(buf), *final(buf)),
    {
        proof {
            reveal(MetadataResponsePartition::spec_read_offline_replicas);
        }
        Ok(if version >= 5 {
                if version >= 9 {
                    read_array::<Int32Item>(buf, version, true)?
                } else {
                    read_array::<Int32Item>(buf, version, false)?
                }
            } else {
                empty_vec()
        })
    }

    fn read_tags(buf: &mut Bytes, version: i16) -> (r: Result<Vec<RawTaggedField>, Error>)
        ensures
            read_vec_as(Self::spec_read_tags(bytes_seq(*old(buf)), version), *final(buf), r),
            took_front(*old(buf), *final(buf)),
    {
        proof {
            reveal(MetadataResponsePartition::spec_read_tags);
        }
        Ok(if version >= 9 {
                read_tagged_fields(buf)?
            } else {
                empty_vec()
        })
    }

    #[verifier::rlimit(68)]
    #[verifier::spinoff_prover]
    pub fn read(buf: &mut Bytes, version: i16) -> (r: Result<Self, Error>)
        ensures
            read_as(Self::spec_read(bytes_seq(*old(buf)), version), *final(buf), r),
            took_front(*old(buf), *final(buf)),
    {
        let error_code = Self::read_error_code(buf, version)?;
        let partition_index = Self::read_partition_index(buf, version)?;
        let leader_id = Self::read_leader_id(buf, version)?;
        let leader_epoch = Self::read_leader_epoch(buf, version)?;
        let replica_nodes = Self::read_replica_nodes(buf, version)?;
        let isr_nodes = Self::read_isr_nodes(buf, version)?;
        let offline_replicas = Self::read_offline_replicas(buf, version)?;
        let _unknown_tagged_fields = Self::read_tags(buf, version)?;
        Ok(MetadataResponsePartition {
                error_code: error_code,
                partition_index: partition_index,
                leader_id: leader_id,
                leader_epoch: leader_epoch,
                replica_nodes: replica_nodes,
                isr_nodes: isr_nodes,
                offline_replicas: offline_replicas,
                _unknown_tagged_fields: _unknown_tagged_fields,
        })
    }

    #[verifier::rlimit(100)]
    #[verifier::spinoff_prover]
    pub fn write(&self, buf: &mut BytesMut, version: i16) -> (r: Result<(), Error>)
        requires
            has_room(Self::spec_write(self@, version), *old(buf)),
        ensures
            wrote(Self::spec_write(self@, version), *old(buf), *final(buf), r),
    {
        let ghost m = self@;
        proof {
            reveal(MetadataResponsePartition::spec_write_error_code);
            reveal(MetadataResponsePartition::spec_write_partition_index);
            reveal(MetadataResponsePartition::spec_write_leader_id);
            reveal(MetadataResponsePartition::spec_write_leader_epoch);
            reveal(MetadataResponsePartition::spec_write_replica_nodes);
            reveal(MetadataResponsePartition::spec_write_isr_nodes);
            reveal(MetadataResponsePartition::spec_write_offline_replicas);
            reveal(MetadataResponsePartition::spec_write_tags);
        }
        let ghost s0 = Self::spec_write_error_code(m, version);
        let ghost w0 = s0;
        let ghost s1 = Self::spec_write_partition_index(m, version);
        let ghost w1 = chain(w0, s1);
        let ghost s2 = Self::spec_write_leader_id(m, version);
        let ghost w2 = chain(w1, s2);
        let ghost s3 = Self::spec_write_leader_epoch(m, version);
        let ghost w3 = chain(w2, s3);
        let ghost s4 = Self::spec_write_replica_nodes(m, version);
        let ghost w4 = chain(w3, s4);
        let ghost s5 = Self::spec_write_isr_nodes(m, version);
        let ghost w5 = chain(w4, s5);
        let ghost s6 = Self::spec_write_offline_replicas(m, version);
        let ghost w6 = chain(w5, s6);
        let ghost s7 = Self::spec_write_tags(m, version);
        let ghost w7 = chain(w6, s7);
        assert(Self::spec_write(m, version) == w7);
        assert(written(w6).len() <= written(w7).len() && (w6 is Err ==> w7 == w6));
        assert(written(w5).len() <= written(w7).len() && (w5 is Err ==> w7 == w5));
        assert(written(w4).len() <= written(w7).len() && (w4 is Err ==> w7 == w4));
        assert(written(w3).len() <= written(w7).len() && (w3 is Err ==> w7 == w3));
        assert(written(w2).len() <= written(w7).len() && (w2 is Err ==> w7 == w2));
        assert(written(w1).len() <= written(w7).len() && (w1 is Err ==> w7 == w1));
        assert(written(w0).len() <= written(w7).len() && (w0 is Err ==> w7 == w0));
        let ghost mid = bytes_mut_seq(*buf);
        proof {
            lemma_append_empty(mid);
        }
        let r0 = {
            write_i16(buf, self.error_code);
            Ok(())
        };
        assert(bytes_mut_seq(*buf) == mid + written(s0));
        if r0.is_err() {
            return r0;
        }
        let ghost mid = bytes_mut_seq(*buf);
        proof {
            lemma_append_empty(mid);
        }
        let r1 = {
            write_i32(buf, self.partition_index);
            Ok(())
        };
        assert(bytes_mut_seq(*buf) == mid + written(s1));
        proof {
            lemma_step(bytes_mut_seq(*old(buf)), w0, s1);
        }
        if r1.is_err() {
            return r1;
        }
        let ghost mid = bytes_mut_seq(*buf);
        proof {
            lemma_append_empty(mid);
        }
        let r2 = {
            write_i32(buf, self.leader_id);
            Ok(())
        };
        assert(bytes_mut_seq(*buf) == mid + written(s2));
        proof {
            lemma_step(bytes_mut_seq(*old(buf)), w1, s2);
        }
        if r2.is_err() {
            return r2;
        }
        let ghost mid = bytes_mut_seq(*buf);
        proof {
            lemma_append_empty(mid);
        }
        let r3 = if version >= 7 {
            {
                write_i32(buf, self.leader_epoch);
                Ok(())
            }
        } else {
            if self.leader_epoch != -1i32 {
                Err(Error::UnsupportedFieldVersion(UnsupportedFieldVersion::new(3, "leader_epoch", version)))
            } else {
                Ok(())
            }
        };
        assert(bytes_mut_seq(*buf) == mid + written(s3));
        proof {
            lemma_step(bytes_mut_seq(*old(buf)), w2, s3);
        }
        if r3.is_err() {
            return r3;
        }
        let ghost mid = bytes_mut_seq(*buf);
        proof {
            lemma_append_empty(mid);
        }
        let r4 = if version >= 9 {
            write_array::<Int32Item>(buf, &self.replica_nodes, version, true)
        } else {
            write_array::<Int32Item>(buf, &self.replica_nodes, version, false)
        };
        assert(bytes_mut_seq(*buf) == mid + written(s4));
        proof {
            lemma_step(bytes_mut_seq(*old(buf)), w3, s4);
        }
        if r4.is_err() {
            return r4;
        }
        let ghost mid = bytes_mut_seq(*buf);
        proof {
            lemma_append_empty(mid);
        }
        let r5 = if version >= 9 {
            write_array::<Int32Item>(buf, &self.isr_nodes, version, true)
        } else {
            write_array::<Int32Item>(buf, &self.isr_nodes, version, false)
        };
        assert(bytes_mut_seq(*buf) == mid + written(s5));
        proof {
            lemma_step(bytes_mut_seq(*old(buf)), w4, s5);
        }
        if r5.is_err() {
            return r5;
        }
        let ghost mid = bytes_mut_seq(*buf);
        proof {
            lemma_append_empty(mid);
        }
        let r6 = if version >= 5 {
            if version >= 9 {
                write_array::<Int32Item>(buf, &self.offline_replicas, version, true)
            } else {
                write_array::<Int32Item>(buf, &self.offline_replicas, version, false)
            }
        } else {
            if self.offline_replicas.len() != 0 {
                Err(Error::UnsupportedFieldVersion(UnsupportedFieldVersion::new(3, "offline_replicas", version)))
            } else {
                Ok(())
            }
        };
        assert(bytes_mut_seq(*buf) == mid + written(s6));
        proof {
            lemma_step(bytes_mut_seq(*old(buf)), w5, s6);
        }
        if r6.is_err() {
            return r6;
        }
        let ghost mid = bytes_mut_seq(*buf);
        proof {
            lemma_append_empty(mid);
        }
        let r7 = if version >= 9 {
            write_tagged_fields(buf, &sort_by_tag(&self._unknown_tagged_fields))
        } else {
            Ok(())
        };
        assert(bytes_mut_seq(*buf) == mid + written(s7));
        proof {
            lemma_step(bytes_mut_seq(*old(buf)), w6, s7);
        }
        if r7.is_err() {
            return r7;
        }
        Ok(())
    }

    #[verifier::rlimit(100)]
    #[verifier::spinoff_prover]
    pub fn encoded_len(&self, version: i16) -> (r: Result<usize, Error>)
        ensures
            r == len_result(Self::spec_write(self@, version)),
    {
        let ghost m = self@;
        proof {
            reveal(MetadataResponsePartition::spec_write_error_code);
            reveal(MetadataResponsePartition::spec_write_partition_index);
            reveal(MetadataResponsePartition::spec_write_leader_id);
            reveal(MetadataResponsePartition::spec_write_leader_epoch);
            reveal(MetadataResponsePartition::spec_write_replica_nodes);
            reveal(MetadataResponsePartition::spec_write_isr_nodes);
            reveal(MetadataResponsePartition::spec_write_offline_replicas);
            reveal(MetadataResponsePartition::spec_write_tags);
        }
        let ghost s0 = Self::spec_write_error_code(m, version);
        let ghost w0 = s0;
        let ghost s1 = Self::spec_write_partition_index(m, version);
        let ghost w1 = chain(w0, s1);
        let ghost s2 = Self::spec_write_leader_id(m, version);
        let ghost w2 = chain(w1, s2);
        let ghost s3 = Self::spec_write_leader_epoch(m, version);
        let ghost w3 = chain(w2, s3);
        let ghost s4 = Self::spec_write_replica_nodes(m, version);
        let ghost w4 = chain(w3, s4);
        let ghost s5 = Self::spec_write_isr_nodes(m, version);
        let ghost w5 = chain(w4, s5);
        let ghost s6 = Self::spec_write_offline_replicas(m, version);
        let ghost w6 = chain(w5, s6);
        let ghost s7 = Self::spec_write_tags(m, version);
        let ghost w7 = chain(w6, s7);
        assert(Self::spec_write(m, version) == w7);
        assert(w6 is Err ==> w7 == w6);
        assert(w5 is Err ==> w7 == w5);
        assert(w4 is Err ==> w7 == w4);
        assert(w3 is Err ==> w7 == w3);
        assert(w2 is Err ==> w7 == w2);
        assert(w1 is Err ==> w7 == w1);
        assert(w0 is Err ==> w7 == w0);
        let mut len: usize = 0;
        let l0 = Ok(2);
        assert(l0 == len_result(s0));
        let n0 = match l0 {
            Ok(n) => n,
            Err(e) => {
                return Err(e);
            },
        };
        len = saturating_sum(len, n0);
        assert(w0 is Ok && len == saturate(written(w0).len() as int));
        let l1 = Ok(4);
        assert(l1 == len_result(s1));
        let n1 = match l1 {
            Ok(n) => n,
            Err(e) => {
                return Err(e);
            },
        };
        proof {
            lemma_len_step(w0, s1, n1);
        }
        len = saturating_sum(len, n1);
        assert(w1 is Ok && len == saturate(written(w1).len() as int));
        let l2 = Ok(4);
        assert(l2 == len_result(s2));
        let n2 = match l2 {
            Ok(n) => n,
            Err(e) => {
                return Err(e);
            },
        };
        proof {
            lemma_len_step(w1, s2, n2);
        }
        len = saturating_sum(len, n2);
        assert(w2 is Ok && len == saturate(written(w2).len() as int));
        let l3 = if version >= 7 {
            Ok(4)
        } else {
            if self.leader_epoch != -1i32 {
                Err(Error::UnsupportedFieldVersion(UnsupportedFieldVersion::new(3, "leader_epoch", version)))
            } else {
                Ok(0)
            }
        };
        assert(l3 == len_result(s3));
        let n3 = match l3 {
            Ok(n) => n,
            Err(e) => {
                return Err(e);
            },
        };
        proof {
            lemma_len_step(w2, s3, n3);
        }
        len = saturating_sum(len, n3);
        assert(w3 is Ok && len == saturate(written(w3).len() as int));
        let l4 = if version >= 9 {
            array_len::<Int32Item>(&self.replica_nodes, version, true)
        } else {
            array_len::<Int32Item>(&self.replica_nodes, version, false)
        };
        assert(l4 == len_result(s4));
        let n4 = match l4 {
            Ok(n) => n,
            Err(e) => {
                return Err(e);
            },
        };
        proof {
            lemma_len_step(w3, s4, n4);
        }
        len = saturating_sum(len, n4);
        assert(w4 is Ok && len == saturate(written(w4).len() as int));
        let l5 = if version >= 9 {
            array_len::<Int32Item>(&self.isr_nodes, version, true)
        } else {
            array_len::<Int32Item>(&self.isr_nodes, version, false)
        };
        assert(l5 == len_result(s5));
        let n5 = match l5 {
            Ok(n) => n,
            Err(e) => {
                return Err(e);
            },
        };
        proof {
            lemma_len_step(w4, s5, n5);
        }
        len = saturating_sum(len, n5);
        assert(w5 is Ok && len == saturate(written(w5).len() as int));
        let l6 = if version >= 5 {
            if version >= 9 {
                array_len::<Int32Item>(&self.offline_replicas, version, true)
            } else {
                array_len::<Int32Item>(&self.offline_replicas, version, false)
            }
        } else {
            if self.offline_replicas.len() != 0 {
                Err(Error::UnsupportedFieldVersion(UnsupportedFieldVersion::new(3, "offline_replicas", version)))
            } else {
                Ok(0)
            }
        };
        assert(l6 == len_result(s6));
        let n6 = match l6 {
            Ok(n) => n,
            Err(e) => {
                return Err(e);
            },
        };
        proof {
            lemma_len_step(w5, s6, n6);
        }
        len = saturating_sum(len, n6);
        assert(w6 is Ok && len == saturate(written(w6).len() as int));
        let l7 = if version >= 9 {
            tagged_fields_len(&sort_by_tag(&self._unknown_tagged_fields))
        } else {
            Ok(0)
        };
        assert(l7 == len_result(s7));
        let n7 = match l7 {
            Ok(n) => n,
            Err(e) => {
                return Err(e);
            },
        };
        proof {
            lemma_len_step(w6, s7, n7);
        }
        len = saturating_sum(len, n7);
        assert(w7 is Ok && len == saturate(written(w7).len() as int));
        Ok(len)
    }
}

impl Codec for MetadataResponseBroker {
    type Item = MetadataResponseBroker;

    open spec fn spec_read_item(s: Seq<u8>, version: i16) -> ReadOutcome<MetadataResponseBrokerView> {
        MetadataResponseBroker::spec_read(s, version)
    }

    open spec fn spec_write_item(v: MetadataResponseBrokerView, version: i16) -> WriteOutcome {
        MetadataResponseBroker::spec_write(v, version)
    }

    open spec fn canonical_item(v: MetadataResponseBrokerView, version: i16) -> bool {
        MetadataResponseBroker::canonical(v, version)
    }

    proof fn lemma_item_round_trip(v: MetadataResponseBrokerView, version: i16, rest: Seq<u8>) {
        MetadataResponseBroker::lemma_round_trip(v, version, rest);
    }

    open spec fn writable_item(v: MetadataResponseBrokerView, version: i16) -> bool {
        MetadataResponseBroker::writable(v, version)
    }

    proof fn lemma_item_writable(v: MetadataResponseBrokerView, version: i16) {
        MetadataResponseBroker::lemma_writable(v, version);
    }

    fn read_item(buf: &mut Bytes, version: i16) -> (r: Result<MetadataResponseBroker, Error>) {
        MetadataResponseBroker::read(buf, version)
    }

    fn write_item(item: &MetadataResponseBroker, buf: &mut BytesMut, version: i16) -> (r: Result<(), Error>) {
        item.write(buf, version)
    }
}

impl MeasuredCodec for MetadataResponseBroker {
    fn item_len(item: &MetadataResponseBroker, version: i16) -> (r: Result<usize, Error>) {
        item.encoded_len(version)
    }
}

impl Codec for MetadataResponseTopic {
    type Item = MetadataResponseTopic;

    open spec fn spec_read_item(s: Seq<u8>, version: i16) -> ReadOutcome<MetadataResponseTopicView> {
        MetadataResponseTopic::spec_read(s, version)
    }

    open spec fn spec_write_item(v: MetadataResponseTopicView, version: i16) -> WriteOutcome {
        MetadataResponseTopic::spec_write(v, version)
    }

    open spec fn canonical_item(v: MetadataResponseTopicView, version: i16) -> bool {
        MetadataResponseTopic::canonical(v, version)
    }

    proof fn lemma_item_round_trip(v: MetadataResponseTopicView, version: i16, rest: Seq<u8>) {
        MetadataResponseTopic::lemma_round_trip(v, version, rest);
    }

    open spec fn writable_item(v: MetadataResponseTopicView, version: i16) -> bool {
        MetadataResponseTopic::writable(v, version)
    }

    proof fn lemma_item_writable(v: MetadataResponseTopicView, version: i16) {
        MetadataResponseTopic::lemma_writable(v, version);
    }

    fn read_item(buf: &mut Bytes, version: i16) -> (r: Result<MetadataResponseTopic, Error>) {
        MetadataResponseTopic::read(buf, version)
    }

    fn write_item(item: &MetadataResponseTopic, buf: &mut BytesMut, version: i16) -> (r: Result<(), Error>) {
        item.write(buf, version)
    }
}

impl MeasuredCodec for MetadataResponseTopic {
    fn item_len(item: &MetadataResponseTopic, version: i16) -> (r: Result<usize, Error>) {
        item.encoded_len(version)
    }
}

impl Codec for MetadataResponsePartition {
    type Item = MetadataResponsePartition;

    open spec fn spec_read_item(s: Seq<u8>, version: i16) -> ReadOutcome<MetadataResponsePartitionView> {
        MetadataResponsePartition::spec_read(s, version)
    }

    open spec fn spec_write_item(v: MetadataResponsePartitionView, version: i16) -> WriteOutcome {
        MetadataResponsePartition::spec_write(v, version)
    }

    open spec fn canonical_item(v: MetadataResponsePartitionView, version: i16) -> bool {
        MetadataResponsePartition::canonical(v, version)
    }

    proof fn lemma_item_round_trip(v: MetadataResponsePartitionView, version: i16, rest: Seq<u8>) {
        MetadataResponsePartition::lemma_round_trip(v, version, rest);
    }

    open spec fn writable_item(v: MetadataResponsePartitionView, version: i16) -> bool {
        MetadataResponsePartition::writable(v, version)
    }

    proof fn lemma_item_writable(v: MetadataResponsePartitionView, version: i16) {
        MetadataResponsePartition::lemma_writable(v, version);
    }

    fn read_item(buf: &mut Bytes, version: i16) -> (r: Result<MetadataResponsePartition, Error>) {
        MetadataResponsePartition::read(buf, version)
    }

    fn write_item(item: &MetadataResponsePartition, buf: &mut BytesMut, version: i16) -> (r: Result<(), Error>) {
        item.write(buf, version)
    }
}

impl MeasuredCodec for MetadataResponsePartition {
    fn item_len(item: &MetadataResponsePartition, version: i16) -> (r: Result<usize, Error>) {
        item.encoded_len(version)
    }
}

} // verus!
