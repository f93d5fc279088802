//! The fetch request message.
use crate::buffer::{bytes_mut_freeze, bytes_mut_new, bytes_mut_seq, bytes_seq};
use crate::codec::{Codec, Int32Item, MeasuredCodec, all_canonical, all_writable, array_len, lemma_array_round_trip, lemma_array_writable, read_array, saturating_sum, spec_read_array, spec_write_array, write_array};
use crate::error::{Error, UnsupportedFieldVersion, UnsupportedVersion};
use crate::ints::{lemma_i32_roundtrip, lemma_i64_roundtrip, lemma_i8_roundtrip, read_i32, read_i64, read_i8, spec_read_i32, spec_read_i64, spec_read_i8, spec_write_i32, spec_write_i64, spec_write_i8, u32_bytes, u64_bytes, write_i32, write_i64, write_i8};
use crate::strings::{compact_nullable_string_len, compact_string_len, lemma_compact_nullable_string_round_trip, lemma_compact_string_round_trip, lemma_string_round_trip, lemma_uuid_round_trip, read_compact_nullable_string, read_compact_string, read_string, read_uuid, spec_read_compact_nullable_string, spec_read_compact_string, spec_read_string, spec_read_uuid, spec_write_compact_nullable_string, spec_write_compact_string, spec_write_string, spec_write_uuid, string_len, write_compact_nullable_string, write_compact_string, write_string, write_uuid};
use crate::tagged::{append_fields, insert_pos, lemma_insert_pos_after, lemma_insert_pos_bounds, lemma_sorted_by_tag_in_order, lemma_sorted_by_tag_len, lemma_sorted_by_tag_members, lemma_sorted_tags_fit, lemma_tagged_fields_round_trip, lemma_tagged_fields_writable, lemma_tags_fit_concat, lemma_tags_fit_single, lemma_tags_in_order_drop_last, read_tagged_fields, sort_by_tag, sorted_by_tag, spec_read_tagged_fields, spec_write_tagged_fields, tag_entry, tagged_fields_len, tags_fit, tags_in_order, write_tagged_fields};
use crate::types::{KafkaString, KafkaUuid, RawTaggedField, uuid_is_nil};
use crate::wire::{ReadOutcome, ViewClone, WriteOutcome, chain, clone_vec, emit, empty_vec, fail, has_room, lemma_append_empty, lemma_chain_written, lemma_len_step, lemma_step, len_result, opt_view, read_as, read_vec_as, saturate, took_front, views, written, wrote};
use bytes::{Bytes, BytesMut};
use vstd::prelude::*;

verus! {

broadcast use {crate::wire::lemma_chain_written, crate::wire::lemma_took_front_nothing, crate::wire::lemma_took_front_twice};

#[derive(Debug, PartialEq)]
pub struct FetchRequestData {
    /// The clusterId if known. This is used to validate metadata fetches prior to broker
    /// registration.
    pub cluster_id: Option<KafkaString>,
    /// The broker ID of the follower, of -1 if this request is from a consumer.
    pub replica_id: i32,
    /// The state of the replica in the follower.
    pub replica_state: ReplicaState,
    /// The maximum time in milliseconds to wait for the response.
    pub max_wait_ms: i32,
    /// The minimum bytes to accumulate in the response.
    pub min_bytes: i32,
    /// The maximum bytes to fetch.  See KIP-74 for cases where this limit may not be honored.
    pub max_bytes: i32,
    /// This setting controls the visibility of transactional records. Using READ_UNCOMMITTED
    /// (isolation_level = 0) makes all records visible. With READ_COMMITTED (isolation_level = 1),
    /// non-transactional and COMMITTED transactional records are visible. To be more concrete,
    /// READ_COMMITTED returns all data from offsets smaller than the current LSO (last stable
    /// offset), and enables the inclusion of the list of aborted transactions in the result, which
    /// allows consumers to discard ABORTED transactional records.
    pub isolation_level: i8,
    /// The fetch session ID.
    pub session_id: i32,
    /// The fetch session epoch, which is used for ordering requests in a session.
    pub session_epoch: i32,
    /// The topics to fetch.
    pub topics: Vec<FetchTopic>,
    /// In an incremental fetch request, the partitions to remove.
    pub forgotten_topics_data: Vec<ForgottenTopic>,
    /// Rack ID of the consumer making this request.
    pub rack_id: KafkaString,
    pub _unknown_tagged_fields: Vec<RawTaggedField>,
}

/// What a `FetchRequestData` holds, as the specification sees it.
#[verifier::ext_equal]
pub struct FetchRequestDataView {
    pub cluster_id: Option<Seq<u8>>,
    pub replica_id: i32,
    pub replica_state: ReplicaStateView,
    pub max_wait_ms: i32,
    pub min_bytes: i32,
    pub max_bytes: i32,
    pub isolation_level: i8,
    pub session_id: i32,
    pub session_epoch: i32,
    pub topics: Seq<FetchTopicView>,
    pub forgotten_topics_data: Seq<ForgottenTopicView>,
    pub rack_id: Seq<u8>,
    pub unknown_tagged_fields: Seq<(u32, Seq<u8>)>,
}

impl View for FetchRequestData {
    type V = FetchRequestDataView;

    open spec fn view(&self) -> FetchRequestDataView {
        FetchRequestDataView {
            cluster_id: opt_view(self.cluster_id),
            replica_id: self.replica_id,
            replica_state: self.replica_state@,
            max_wait_ms: self.max_wait_ms,
            min_bytes: self.min_bytes,
            max_bytes: self.max_bytes,
            isolation_level: self.isolation_level,
            session_id: self.session_id,
            session_epoch: self.session_epoch,
            topics: views(self.topics@),
            forgotten_topics_data: views(self.forgotten_topics_data@),
            rack_id: self.rack_id@,
            unknown_tagged_fields: views(self._unknown_tagged_fields@),
        }
    }
}

impl Clone for FetchRequestData {
    fn clone(&self) -> (r: Self)
        ensures
            r@ == self@,
    {
        let r = FetchRequestData {
            cluster_id: match &self.cluster_id {
                Some(x) => Some(x.clone()),
                None => None,
            },
            replica_id: self.replica_id,
            replica_state: self.replica_state.clone(),
            max_wait_ms: self.max_wait_ms,
            min_bytes: self.min_bytes,
            max_bytes: self.max_bytes,
            isolation_level: self.isolation_level,
            session_id: self.session_id,
            session_epoch: self.session_epoch,
            topics: clone_vec(&self.topics),
            forgotten_topics_data: clone_vec(&self.forgotten_topics_data),
            rack_id: self.rack_id.clone(),
            _unknown_tagged_fields: clone_vec(&self._unknown_tagged_fields),
        };
        assert(r@ =~= self@);
        r
    }
}

impl ViewClone for FetchRequestData {
    fn clone_view(&self) -> (r: Self) {
        self.clone()
    }
}

impl Default for FetchRequestData {
    fn default() -> (r: Self)
        ensures
            r@ == Self::default_view(),
    {
        let r = FetchRequestData {
            cluster_id: None,
            replica_id: -1i32,
            replica_state: ReplicaState::default(),
            max_wait_ms: 0_i32,
            min_bytes: 0_i32,
            max_bytes: i32::MAX,
            isolation_level: 0i8,
            session_id: 0i32,
            session_epoch: -1i32,
            topics: empty_vec(),
            forgotten_topics_data: empty_vec(),
            rack_id: KafkaString::default(),
            _unknown_tagged_fields: empty_vec(),
        };
        assert(r@ =~= Self::default_view());
        r
    }
}

impl FetchRequestData {
    pub open spec fn default_view() -> FetchRequestDataView {
        FetchRequestDataView {
            cluster_id: None,
            replica_id: -1i32,
            replica_state: ReplicaState::default_view(),
            max_wait_ms: 0_i32,
            min_bytes: 0_i32,
            max_bytes: i32::MAX,
            isolation_level: 0i8,
            session_id: 0i32,
            session_epoch: -1i32,
            topics: Seq::empty(),
            forgotten_topics_data: Seq::empty(),
            rack_id: Seq::empty(),
            unknown_tagged_fields: Seq::empty(),
        }
    }

    /// The `replica_id` field, read from the front of `s`.
    #[verifier::opaque]
    pub open spec fn spec_read_replica_id(s: Seq<u8>, version: i16) -> ReadOutcome<i32> {
        if version <= 14 {
            spec_read_i32(s)
        } else {
            Ok((-1i32, s))
        }
    }

    /// The `max_wait_ms` field, read from the front of `s`.
    #[verifier::opaque]
    pub open spec fn spec_read_max_wait_ms(s: Seq<u8>, version: i16) -> ReadOutcome<i32> {
        spec_read_i32(s)
    }

    /// The `min_bytes` field, read from the front of `s`.
    #[verifier::opaque]
    pub open spec fn spec_read_min_bytes(s: Seq<u8>, version: i16) -> ReadOutcome<i32> {
        spec_read_i32(s)
    }

    /// The `max_bytes` field, read from the front of `s`.
    #[verifier::opaque]
    pub open spec fn spec_read_max_bytes(s: Seq<u8>, version: i16) -> ReadOutcome<i32> {
        spec_read_i32(s)
    }

    /// The `isolation_level` field, read from the front of `s`.
    #[verifier::opaque]
    pub open spec fn spec_read_isolation_level(s: Seq<u8>, version: i16) -> ReadOutcome<i8> {
        spec_read_i8(s)
    }

    /// The `session_id` field, read from the front of `s`.
    #[verifier::opaque]
    pub open spec fn spec_read_session_id(s: Seq<u8>, version: i16) -> ReadOutcome<i32> {
        if version >= 7 {
            spec_read_i32(s)
        } else {
            Ok((0i32, s))
        }
    }

    /// The `session_epoch` field, read from the front of `s`.
    #[verifier::opaque]
    pub open spec fn spec_read_session_epoch(s: Seq<u8>, version: i16) -> ReadOutcome<i32> {
        if version >= 7 {
            spec_read_i32(s)
        } else {
            Ok((-1i32, s))
        }
    }

    /// The `topics` field, read from the front of `s`.
    #[verifier::opaque]
    pub open spec fn spec_read_topics(s: Seq<u8>, version: i16) -> ReadOutcome<Seq<FetchTopicView>> {
        if version >= 12 {
            spec_read_array::<FetchTopic>(s, version, true)
        } else {
            spec_read_array::<FetchTopic>(s, version, false)
        }
    }

    /// The `forgotten_topics_data` field, read from the front of `s`.
    #[verifier::opaque]
    pub open spec fn spec_read_forgotten_topics_data(s: Seq<u8>, version: i16) -> ReadOutcome<Seq<ForgottenTopicView>> {
        if version >= 7 {
            if version >= 12 {
                spec_read_array::<ForgottenTopic>(s, version, true)
            } else {
                spec_read_array::<ForgottenTopic>(s, version, false)
            }
        } else {
            Ok((Seq::empty(), s))
        }
    }

    /// The `rack_id` field, read from the front of `s`.
    #[verifier::opaque]
    pub open spec fn spec_read_rack_id(s: Seq<u8>, version: i16) -> ReadOutcome<Seq<u8>> {
        if version >= 11 {
            if version >= 12 {
                spec_read_compact_string(s)
            } else {
                spec_read_string(s)
            }
        } else {
            Ok((Seq::empty(), s))
        }
    }

    pub open spec fn spec_read(s: Seq<u8>, version: i16) -> ReadOutcome<FetchRequestDataView> {
        if version < 4 || version > 18 {
            Err(Error::UnsupportedVersion(UnsupportedVersion { api_key: 1, version }))
        } else {
            match (Self::spec_read_replica_id(s, version)) {
                Err(e) => Err(e),
                Ok((replica_id, s)) => match (Self::spec_read_max_wait_ms(s, version)) {
                    Err(e) => Err(e),
                    Ok((max_wait_ms, s)) => match (Self::spec_read_min_bytes(s, version)) {
                        Err(e) => Err(e),
                        Ok((min_bytes, s)) => match (Self::spec_read_max_bytes(s, version)) {
                            Err(e) => Err(e),
                            Ok((max_bytes, s)) => match (Self::spec_read_isolation_level(s, version)) {
                                Err(e) => Err(e),
                                Ok((isolation_level, s)) => match (Self::spec_read_session_id(s, version)) {
                                    Err(e) => Err(e),
                                    Ok((session_id, s)) => match (Self::spec_read_session_epoch(s, version)) {
                                        Err(e) => Err(e),
                                        Ok((session_epoch, s)) => match (Self::spec_read_topics(s, version)) {
                                            Err(e) => Err(e),
                                            Ok((topics, s)) => match (Self::spec_read_forgotten_topics_data(s, version)) {
                                                Err(e) => Err(e),
                                                Ok((forgotten_topics_data, s)) => match (Self::spec_read_rack_id(s, version)) {
                                                    Err(e) => Err(e),
                                                    Ok((rack_id, s)) => match (if version >= 12 {
                                                            spec_read_tagged_fields(s)
                                                        } else {
                                                            Ok((Seq::empty(), s))
                                                    }) {
                                                        Err(e) => Err(e),
                                                        Ok((tags, s)) => match (match (Self::spec_apply_tags(tags, version)) {
                                                                Err(e) => Err(e),
                                                                Ok(k) => Ok((k, s)),
                                                        }) {
                                                            Err(e) => Err(e),
                                                            Ok(((cluster_id, replica_state, unknown_tagged_fields), s)) => Ok((FetchRequestDataView {
                                                                        cluster_id: cluster_id,
                                                                        replica_id: replica_id,
                                                                        replica_state: replica_state,
                                                                        max_wait_ms: max_wait_ms,
                                                                        min_bytes: min_bytes,
                                                                        max_bytes: max_bytes,
                                                                        isolation_level: isolation_level,
                                                                        session_id: session_id,
                                                                        session_epoch: session_epoch,
                                                                        topics: topics,
                                                                        forgotten_topics_data: forgotten_topics_data,
                                                                        rack_id: rack_id,
                                                                        unknown_tagged_fields: unknown_tagged_fields,
                                                                    }, s)),
                                                        },
                                                    },
                                                },
                                            },
                                        },
                                    },
                                },
                            },
                        },
                    },
                },
            }
        }
    }

    /// What writing the `replica_id` field of `m` appends.
    #[verifier::opaque]
    pub open spec fn spec_write_replica_id(m: FetchRequestDataView, version: i16) -> WriteOutcome {
        if version <= 14 {
            spec_write_i32(m.replica_id)
        } else {
            if m.replica_id != -1i32 {
                fail(Error::UnsupportedFieldVersion(UnsupportedFieldVersion { api_key: 1, field: "replica_id", version }))
            } else {
                emit(Seq::empty())
            }
        }
    }

    /// What writing the `max_wait_ms` field of `m` appends.
    #[verifier::opaque]
    pub open spec fn spec_write_max_wait_ms(m: FetchRequestDataView, version: i16) -> WriteOutcome {
        spec_write_i32(m.max_wait_ms)
    }

    /// What writing the `min_bytes` field of `m` appends.
    #[verifier::opaque]
    pub open spec fn spec_write_min_bytes(m: FetchRequestDataView, version: i16) -> WriteOutcome {
        spec_write_i32(m.min_bytes)
    }

    /// What writing the `max_bytes` field of `m` appends.
    #[verifier::opaque]
    pub open spec fn spec_write_max_bytes(m: FetchRequestDataView, version: i16) -> WriteOutcome {
        spec_write_i32(m.max_bytes)
    }

    /// What writing the `isolation_level` field of `m` appends.
    #[verifier::opaque]
    pub open spec fn spec_write_isolation_level(m: FetchRequestDataView, version: i16) -> WriteOutcome {
        spec_write_i8(m.isolation_level)
    }

    /// What writing the `session_id` field of `m` appends.
    #[verifier::opaque]
    pub open spec fn spec_write_session_id(m: FetchRequestDataView, version: i16) -> WriteOutcome {
        if version >= 7 {
            spec_write_i32(m.session_id)
        } else {
            if m.session_id != 0i32 {
                fail(Error::UnsupportedFieldVersion(UnsupportedFieldVersion { api_key: 1, field: "session_id", version }))
            } else {
                emit(Seq::empty())
            }
        }
    }

    /// What writing the `session_epoch` field of `m` appends.
    #[verifier::opaque]
    pub open spec fn spec_write_session_epoch(m: FetchRequestDataView, version: i16) -> WriteOutcome {
        if version >= 7 {
            spec_write_i32(m.session_epoch)
        } else {
            if m.session_epoch != -1i32 {
                fail(Error::UnsupportedFieldVersion(UnsupportedFieldVersion { api_key: 1, field: "session_epoch", version }))
            } else {
                emit(Seq::empty())
            }
        }
    }

    /// What writing the `topics` field of `m` appends.
    #[verifier::opaque]
    pub open spec fn spec_write_topics(m: FetchRequestDataView, version: i16) -> WriteOutcome {
        if version >= 12 {
            spec_write_array::<FetchTopic>(m.topics, version, true)
        } else {
            spec_write_array::<FetchTopic>(m.topics, version, false)
        }
    }

    /// What writing the `forgotten_topics_data` field of `m` appends.
    #[verifier::opaque]
    pub open spec fn spec_write_forgotten_topics_data(m: FetchRequestDataView, version: i16) -> WriteOutcome {
        if version >= 7 {
            if version >= 12 {
                spec_write_array::<ForgottenTopic>(m.forgotten_topics_data, version, true)
            } else {
                spec_write_array::<ForgottenTopic>(m.forgotten_topics_data, version, false)
            }
        } else {
            if m.forgotten_topics_data.len() != 0 {
                fail(Error::UnsupportedFieldVersion(UnsupportedFieldVersion { api_key: 1, field: "forgotten_topics_data", version }))
            } else {
                emit(Seq::empty())
            }
        }
    }

    /// What writing the `rack_id` field of `m` appends.
    #[verifier::opaque]
    pub open spec fn spec_write_rack_id(m: FetchRequestDataView, version: i16) -> WriteOutcome {
        if version >= 11 {
            if version >= 12 {
                spec_write_compact_string(m.rack_id)
            } else {
                spec_write_string(m.rack_id)
            }
        } else {
            if m.rack_id.len() != 0 {
                fail(Error::UnsupportedFieldVersion(UnsupportedFieldVersion { api_key: 1, field: "rack_id", version }))
            } else {
                emit(Seq::empty())
            }
        }
    }

    /// What writing the tagged fields of `m` appends.
    #[verifier::opaque]
    pub open spec fn spec_write_tags(m: FetchRequestDataView, version: i16) -> WriteOutcome {
        if version >= 12 {
            match (Self::spec_known_tags(m, version)) {
                Err(e) => fail(e),
                Ok(k) => spec_write_tagged_fields(sorted_by_tag(k + m.unknown_tagged_fields)),
            }
        } else {
            emit(Seq::empty())
        }
    }

    pub open spec fn spec_write(m: FetchRequestDataView, version: i16) -> WriteOutcome {
        if version < 4 || version > 18 {
            fail(Error::UnsupportedVersion(UnsupportedVersion { api_key: 1, version }))
        } else {
            chain(
                chain(
                    chain(
                        chain(
                            chain(
                                chain(
                                    chain(
                                        chain(
                                            chain(
                                                chain(
                                                    Self::spec_write_replica_id(m, version),
                                                    Self::spec_write_max_wait_ms(m, version),
                                                ),
                                                Self::spec_write_min_bytes(m, version),
                                            ),
                                            Self::spec_write_max_bytes(m, version),
                                        ),
                                        Self::spec_write_isolation_level(m, version),
                                    ),
                                    Self::spec_write_session_id(m, version),
                                ),
                                Self::spec_write_session_epoch(m, version),
                            ),
                            Self::spec_write_topics(m, version),
                        ),
                        Self::spec_write_forgotten_topics_data(m, version),
                    ),
                    Self::spec_write_rack_id(m, version),
                ),
                Self::spec_write_tags(m, version),
            )
        }
    }

    /// Whether reading back what writing `m` in `version` appends gives `m`:
    /// fields that the version does not carry hold their default values, and
    /// tagged fields come in the order in which they are written.
    pub open spec fn canonical(m: FetchRequestDataView, version: i16) -> bool {
        &&& all_canonical::<FetchTopic>(m.topics, version)
        &&& (if version >= 7 {
                all_canonical::<ForgottenTopic>(m.forgotten_topics_data, version)
            } else {
                true
        })
        &&& (if version >= 12 && m.cluster_id is Some {
                true
            } else {
                m.cluster_id is None
        })
        &&& (if version >= 12 && version >= 15 && !ReplicaState::is_default_view(m.replica_state) {
                ReplicaState::canonical(m.replica_state, version)
            } else {
                m.replica_state == ReplicaState::default_view()
        })
        &&& (if version >= 12 {
                tags_in_order(m.unknown_tagged_fields) && forall|i: int| 0 <= i < m.unknown_tagged_fields.len() ==> !#[trigger] Self::is_known_tag(m.unknown_tagged_fields[i].0)
            } else {
                m.unknown_tagged_fields.len() == 0
        })
    }

    proof fn lemma_round_trip_replica_id(m: FetchRequestDataView, version: i16, rest: Seq<u8>)
        requires
            Self::canonical(m, version),
            Self::spec_write_replica_id(m, version) is Ok,
        ensures
            Self::spec_read_replica_id(written(Self::spec_write_replica_id(m, version)) + rest, version) == Ok::<(i32, Seq<u8>), Error>((m.replica_id, rest)),
    {
        reveal(FetchRequestData::spec_read_replica_id);
        reveal(FetchRequestData::spec_write_replica_id);
        if version <= 14 {
            lemma_i32_roundtrip(m.replica_id, rest);
        } else {
            assert(Seq::<u8>::empty() + rest =~= rest);
        }
    }

    proof fn lemma_round_trip_max_wait_ms(m: FetchRequestDataView, version: i16, rest: Seq<u8>)
        requires
            Self::canonical(m, version),
            Self::spec_write_max_wait_ms(m, version) is Ok,
        ensures
            Self::spec_read_max_wait_ms(written(Self::spec_write_max_wait_ms(m, version)) + rest, version) == Ok::<(i32, Seq<u8>), Error>((m.max_wait_ms, rest)),
    {
        reveal(FetchRequestData::spec_read_max_wait_ms);
        reveal(FetchRequestData::spec_write_max_wait_ms);
        lemma_i32_roundtrip(m.max_wait_ms, rest);
    }

    proof fn lemma_round_trip_min_bytes(m: FetchRequestDataView, version: i16, rest: Seq<u8>)
        requires
            Self::canonical(m, version),
            Self::spec_write_min_bytes(m, version) is Ok,
        ensures
            Self::spec_read_min_bytes(written(Self::spec_write_min_bytes(m, version)) + rest, version) == Ok::<(i32, Seq<u8>), Error>((m.min_bytes, rest)),
    {
        reveal(FetchRequestData::spec_read_min_bytes);
        reveal(FetchRequestData::spec_write_min_bytes);
        lemma_i32_roundtrip(m.min_bytes, rest);
    }

    proof fn lemma_round_trip_max_bytes(m: FetchRequestDataView, version: i16, rest: Seq<u8>)
        requires
            Self::canonical(m, version),
            Self::spec_write_max_bytes(m, version) is Ok,
        ensures
            Self::spec_read_max_bytes(written(Self::spec_write_max_bytes(m, version)) + rest, version) == Ok::<(i32, Seq<u8>), Error>((m.max_bytes, rest)),
    {
        reveal(FetchRequestData::spec_read_max_bytes);
        reveal(FetchRequestData::spec_write_max_bytes);
        lemma_i32_roundtrip(m.max_bytes, rest);
    }

    proof fn lemma_round_trip_isolation_level(m: FetchRequestDataView, version: i16, rest: Seq<u8>)
        requires
            Self::canonical(m, version),
            Self::spec_write_isolation_level(m, version) is Ok,
        ensures
            Self::spec_read_isolation_level(written(Self::spec_write_isolation_level(m, version)) + rest, version) == Ok::<(i8, Seq<u8>), Error>((m.isolation_level, rest)),
    {
        reveal(FetchRequestData::spec_read_isolation_level);
        reveal(FetchRequestData::spec_write_isolation_level);
        lemma_i8_roundtrip(m.isolation_level, rest);
    }

    proof fn lemma_round_trip_session_id(m: FetchRequestDataView, version: i16, rest: Seq<u8>)
        requires
            Self::canonical(m, version),
            Self::spec_write_session_id(m, version) is Ok,
        ensures
            Self::spec_read_session_id(written(Self::spec_write_session_id(m, version)) + rest, version) == Ok::<(i32, Seq<u8>), Error>((m.session_id, rest)),
    {
        reveal(FetchRequestData::spec_read_session_id);
        reveal(FetchRequestData::spec_write_session_id);
        if version >= 7 {
            lemma_i32_roundtrip(m.session_id, rest);
        } else {
            assert(Seq::<u8>::empty() + rest =~= rest);
        }
    }

    proof fn lemma_round_trip_session_epoch(m: FetchRequestDataView, version: i16, rest: Seq<u8>)
        requires
            Self::canonical(m, version),
            Self::spec_write_session_epoch(m, version) is Ok,
        ensures
            Self::spec_read_session_epoch(written(Self::spec_write_session_epoch(m, version)) + rest, version) == Ok::<(i32, Seq<u8>), Error>((m.session_epoch, rest)),
    {
        reveal(FetchRequestData::spec_read_session_epoch);
        reveal(FetchRequestData::spec_write_session_epoch);
        if version >= 7 {
            lemma_i32_roundtrip(m.session_epoch, rest);
        } else {
            assert(Seq::<u8>::empty() + rest =~= rest);
        }
    }

    proof fn lemma_round_trip_topics(m: FetchRequestDataView, version: i16, rest: Seq<u8>)
        requires
            Self::canonical(m, version),
            Self::spec_write_topics(m, version) is Ok,
        ensures
            Self::spec_read_topics(written(Self::spec_write_topics(m, version)) + rest, version) == Ok::<(Seq<FetchTopicView>, Seq<u8>), Error>((m.topics, rest)),
    {
        reveal(FetchRequestData::spec_read_topics);
        reveal(FetchRequestData::spec_write_topics);
        if version >= 12 {
            lemma_array_round_trip::<FetchTopic>(m.topics, version, true, rest);
        } else {
            lemma_array_round_trip::<FetchTopic>(m.topics, version, false, rest);
        }
    }

    proof fn lemma_round_trip_forgotten_topics_data(m: FetchRequestDataView, version: i16, rest: Seq<u8>)
        requires
            Self::canonical(m, version),
            Self::spec_write_forgotten_topics_data(m, version) is Ok,
        ensures
            Self::spec_read_forgotten_topics_data(written(Self::spec_write_forgotten_topics_data(m, version)) + rest, version) == Ok::<(Seq<ForgottenTopicView>, Seq<u8>), Error>((m.forgotten_topics_data, rest)),
    {
        reveal(FetchRequestData::spec_read_forgotten_topics_data);
        reveal(FetchRequestData::spec_write_forgotten_topics_data);
        if version >= 7 {
            if version >= 12 {
                lemma_array_round_trip::<ForgottenTopic>(m.forgotten_topics_data, version, true, rest);
            } else {
                lemma_array_round_trip::<ForgottenTopic>(m.forgotten_topics_data, version, false, rest);
            }
        } else {
            assert(Seq::<u8>::empty() + rest =~= rest);
            assert(m.forgotten_topics_data =~= Seq::empty());
            assert(m.forgotten_topics_data =~= Seq::empty());
        }
    }

    proof fn lemma_round_trip_rack_id(m: FetchRequestDataView, version: i16, rest: Seq<u8>)
        requires
            Self::canonical(m, version),
            Self::spec_write_rack_id(m, version) is Ok,
        ensures
            Self::spec_read_rack_id(written(Self::spec_write_rack_id(m, version)) + rest, version) == Ok::<(Seq<u8>, Seq<u8>), Error>((m.rack_id, rest)),
    {
        reveal(FetchRequestData::spec_read_rack_id);
        reveal(FetchRequestData::spec_write_rack_id);
        if version >= 11 {
            if version >= 12 {
                lemma_compact_string_round_trip(m.rack_id, rest);
            } else {
                lemma_string_round_trip(m.rack_id, rest);
            }
        } else {
            assert(Seq::<u8>::empty() + rest =~= rest);
            assert(m.rack_id =~= Seq::empty());
            assert(m.rack_id =~= Seq::empty());
        }
    }

    proof fn lemma_apply_known_tags(m: FetchRequestDataView, version: i16)
        requires
            Self::canonical(m, version),
            Self::spec_known_tags(m, version) is Ok,
            version >= 12,
        ensures
            tags_in_order(Self::spec_known_tags(m, version)->Ok_0),
            forall|i: int| 0 <= i < Self::spec_known_tags(m, version)->Ok_0.len() ==> #[trigger] Self::is_known_tag(Self::spec_known_tags(m, version)->Ok_0[i].0),
            Self::spec_apply_tags(Self::spec_known_tags(m, version)->Ok_0, version) == Ok::<(Option<Seq<u8>>, ReplicaStateView, Seq<(u32, Seq<u8>)>), Error>((m.cluster_id, m.replica_state, Seq::empty())),
    {
        assert(Self::spec_apply_tags(Seq::empty(), version) == Ok::<(Option<Seq<u8>>, ReplicaStateView, Seq<(u32, Seq<u8>)>), Error>((None, ReplicaState::default_view(), Seq::empty())));
        let e0 = if m.cluster_id is Some {
            tag_entry(0u32, spec_write_compact_nullable_string(m.cluster_id))
        } else {
            Ok(Seq::empty())
        };
        let k0 = e0->Ok_0;
        let p0 = k0;
        if m.cluster_id is Some {
            lemma_compact_nullable_string_round_trip(m.cluster_id, Seq::<u8>::empty());
            assert(written(spec_write_compact_nullable_string(m.cluster_id)) + Seq::<u8>::empty() =~= written(spec_write_compact_nullable_string(m.cluster_id)));
            assert(p0.drop_last() =~= Seq::<(u32, Seq<u8>)>::empty());
        } else {
        }
        assert(tags_in_order(p0));
        assert(forall|i: int| 0 <= i < p0.len() ==> p0[i].0 <= 0u32);
        assert(forall|i: int| 0 <= i < p0.len() ==> #[trigger] Self::is_known_tag(p0[i].0));
        assert(Self::spec_apply_tags(p0, version) == Ok::<(Option<Seq<u8>>, ReplicaStateView, Seq<(u32, Seq<u8>)>), Error>((m.cluster_id, ReplicaState::default_view(), Seq::empty())));
        let e1 = if version >= 15 && !ReplicaState::is_default_view(m.replica_state) {
            tag_entry(1u32, ReplicaState::spec_write(m.replica_state, version))
        } else {
            Ok(Seq::empty())
        };
        let k1 = e1->Ok_0;
        let p1 = (p0 + k1);
        if version >= 15 && !ReplicaState::is_default_view(m.replica_state) {
            ReplicaState::lemma_round_trip(m.replica_state, version, Seq::<u8>::empty());
            assert(written(ReplicaState::spec_write(m.replica_state, version)) + Seq::<u8>::empty() =~= written(ReplicaState::spec_write(m.replica_state, version)));
            assert(p1.drop_last() =~= p0);
        } else {
            assert(p1 =~= p0);
        }
        assert(tags_in_order(p1));
        assert(forall|i: int| 0 <= i < p1.len() ==> p1[i].0 <= 1u32);
        assert(forall|i: int| 0 <= i < p1.len() ==> #[trigger] Self::is_known_tag(p1[i].0));
        assert(Self::spec_apply_tags(p1, version) == Ok::<(Option<Seq<u8>>, ReplicaStateView, Seq<(u32, Seq<u8>)>), Error>((m.cluster_id, m.replica_state, Seq::empty())));
        assert(Self::spec_known_tags(m, version)->Ok_0 =~= p1);
    }

    proof fn lemma_apply_tags_append(st: (Option<Seq<u8>>, ReplicaStateView, Seq<(u32, Seq<u8>)>), a: Seq<(u32, Seq<u8>)>, b: Seq<(u32, Seq<u8>)>, version: i16)
        ensures
            Self::spec_apply_tags_from(st, a + b, version) == (match Self::spec_apply_tags_from(st, a, version) {
            Err(e) => Err(e),
            Ok(s2) => Self::spec_apply_tags_from(s2, b, version),
            }),
            decreases b.len(),
    {
        if b.len() == 0 {
            assert(a + b =~= a);
        } else {
            assert((a + b).drop_last() =~= a + b.drop_last());
            assert((a + b).last() == b.last());
            Self::lemma_apply_tags_append(st, a, b.drop_last(), version);
        }
    }

    proof fn lemma_apply_known_only(st: (Option<Seq<u8>>, ReplicaStateView, Seq<(u32, Seq<u8>)>), us: Seq<(u32, Seq<u8>)>, b: Seq<(u32, Seq<u8>)>, version: i16)
        requires
            forall|i: int| 0 <= i < b.len() ==> #[trigger] Self::is_known_tag(b[i].0),
        ensures
            match Self::spec_apply_tags_from(st, b, version) {
            Err(e) => Self::spec_apply_tags_from((st.0, st.1, us), b, version) == Err::<(Option<Seq<u8>>, ReplicaStateView, Seq<(u32, Seq<u8>)>), Error>(e),
            Ok(r) => r.2 == st.2 && Self::spec_apply_tags_from((st.0, st.1, us), b, version) == Ok::<(Option<Seq<u8>>, ReplicaStateView, Seq<(u32, Seq<u8>)>), Error>((r.0, r.1, us)),
            },
            decreases b.len(),
    {
        if b.len() > 0 {
            assert(Self::is_known_tag(b[b.len() - 1].0));
            assert forall|i: int| 0 <= i < b.drop_last().len() implies #[trigger] Self::is_known_tag(b.drop_last()[i].0) by {
                assert(b.drop_last()[i] == b[i]);
                assert(Self::is_known_tag(b[i].0));
            }
            Self::lemma_apply_known_only(st, us, b.drop_last(), version);
        }
    }

    proof fn lemma_apply_sorted(k: Seq<(u32, Seq<u8>)>, u: Seq<(u32, Seq<u8>)>, version: i16)
        requires
            tags_in_order(k),
            tags_in_order(u),
            forall|i: int| 0 <= i < k.len() ==> #[trigger] Self::is_known_tag(k[i].0),
            forall|i: int| 0 <= i < u.len() ==> !#[trigger] Self::is_known_tag(u[i].0),
            Self::spec_apply_tags(k, version) is Ok,
            Self::spec_apply_tags(k, version)->Ok_0.2 == Seq::<(u32, Seq<u8>)>::empty(),
        ensures
            Self::spec_apply_tags(sorted_by_tag(k + u), version) == Ok::<(Option<Seq<u8>>, ReplicaStateView, Seq<(u32, Seq<u8>)>), Error>((Self::spec_apply_tags(k, version)->Ok_0.0, Self::spec_apply_tags(k, version)->Ok_0.1, u)),
            decreases u.len(),
    {
        let r = Self::spec_apply_tags(k, version)->Ok_0;
        if u.len() == 0 {
            assert(k + u =~= k);
            lemma_sorted_by_tag_in_order(k);
            assert(u =~= Seq::<(u32, Seq<u8>)>::empty());
        } else {
            let u1 = u.drop_last();
            let x = u.last();
            lemma_tags_in_order_drop_last(u);
            assert forall|i: int| 0 <= i < u1.len() implies !#[trigger] Self::is_known_tag(u1[i].0) by {
                assert(u1[i] == u[i]);
                assert(!Self::is_known_tag(u[i].0));
            }
            Self::lemma_apply_sorted(k, u1, version);
            let ku = k + u1;
            let t = sorted_by_tag(ku);
            assert((k + u).drop_last() =~= ku);
            assert((k + u).last() == x);
            let p = insert_pos(t, x.0);
            lemma_insert_pos_bounds(t, x.0);
            lemma_insert_pos_after(t, x.0);
            lemma_sorted_by_tag_members(ku);
            lemma_sorted_by_tag_len(ku);
            let head = t.subrange(0, p);
            let tail = t.subrange(p, t.len() as int);
            assert forall|i: int| 0 <= i < tail.len() implies #[trigger] Self::is_known_tag(tail[i].0) by {
                let y = t[p + i];
                assert(tail[i] == y);
                assert(y.0 > x.0);
                assert(ku.contains(y));
                let j = choose|j: int| 0 <= j < ku.len() && ku[j] == y;
                if j >= k.len() {
                    assert(u[j - k.len()] == y);
                    assert(u[j - k.len()].0 <= u[u.len() - 1].0);
                    assert(false);
                } else {
                    assert(k[j] == y);
                    assert(Self::is_known_tag(k[j].0));
                }
            }
            assert(t =~= head + tail);
            assert(sorted_by_tag(k + u) =~= head.push(x) + tail);
            Self::lemma_apply_tags_append((None, ReplicaState::default_view(), Seq::empty()), head, tail, version);
            Self::lemma_apply_tags_append((None, ReplicaState::default_view(), Seq::empty()), head.push(x), tail, version);
            let sa = Self::spec_apply_tags(head, version)->Ok_0;
            assert(head.push(x).drop_last() =~= head);
            assert(!Self::is_known_tag(x.0)) by {
                assert(u[u.len() - 1] == x);
            }
            Self::lemma_apply_known_only(sa, sa.2.push(x), tail, version);
            assert(u1.push(x) =~= u);
        }
    }

    /// The tagged fields that a flexible version writes: each known one that
    /// the version carries and that does not hold its default value, in the
    /// order of the tags, merged by tag with the unknown ones.
    pub proof fn lemma_tag_section(m: FetchRequestDataView, version: i16)
        requires
            version >= 12,
        ensures
            Self::spec_write_tags(m, version) == (match Self::spec_known_tags(m, version) {
            Err(e) => fail(e),
            Ok(k) => spec_write_tagged_fields(sorted_by_tag(k + m.unknown_tagged_fields)),
            }),
            Self::spec_known_tags(m, version) is Ok ==> Self::spec_known_tags(m, version)->Ok_0 == (if m.cluster_id is Some { seq![(0u32, written(spec_write_compact_nullable_string(m.cluster_id)))] } else { Seq::<(u32, Seq<u8>)>::empty() }) + (if version >= 15 && !ReplicaState::is_default_view(m.replica_state) { seq![(1u32, written(ReplicaState::spec_write(m.replica_state, version)))] } else { Seq::<(u32, Seq<u8>)>::empty() }),
    {
        reveal(FetchRequestData::spec_write_tags);
        if Self::spec_known_tags(m, version) is Ok {
            assert(Self::spec_known_tags(m, version)->Ok_0 =~= (if m.cluster_id is Some {
                        seq![(0u32, written(spec_write_compact_nullable_string(m.cluster_id)))]
                    } else {
                        Seq::<(u32, Seq<u8>)>::empty()
                }) + (if version >= 15 && !ReplicaState::is_default_view(m.replica_state) {
                        seq![(1u32, written(ReplicaState::spec_write(m.replica_state, version)))]
                    } else {
                        Seq::<(u32, Seq<u8>)>::empty()
            }));
        }
    }

    proof fn lemma_round_trip_tags(m: FetchRequestDataView, version: i16, rest: Seq<u8>)
        requires
            Self::canonical(m, version),
            Self::spec_write_tags(m, version) is Ok,
        ensures
            (if version >= 12 {
            spec_read_tagged_fields(written(Self::spec_write_tags(m, version)) + rest)
            } else {
            Ok((Seq::empty(), written(Self::spec_write_tags(m, version)) + rest))
            }) matches Ok((tags, r2)) && r2 == rest && Self::spec_apply_tags(tags, version) == Ok::<(Option<Seq<u8>>, ReplicaStateView, Seq<(u32, Seq<u8>)>), Error>((m.cluster_id, m.replica_state, m.unknown_tagged_fields)),
    {
        reveal(FetchRequestData::spec_write_tags);
        if version >= 12 {
            let k = Self::spec_known_tags(m, version)->Ok_0;
            Self::lemma_apply_known_tags(m, version);
            Self::lemma_apply_sorted(k, m.unknown_tagged_fields, version);
            lemma_tagged_fields_round_trip(sorted_by_tag(k + m.unknown_tagged_fields), rest);
        } else {
            assert(Seq::<u8>::empty() + rest =~= rest);
            assert(m.unknown_tagged_fields =~= Seq::empty());
        }
    }

    /// Reading back what writing `m` in `version` appends gives `m` again, and
    /// leaves what follows, for every canonical message whose write succeeds.
    #[verifier::rlimit(100)]
    #[verifier::spinoff_prover]
    pub proof fn lemma_round_trip(m: FetchRequestDataView, version: i16, rest: Seq<u8>)
        requires
            Self::canonical(m, version),
            Self::spec_write(m, version) is Ok,
        ensures
            Self::spec_read(written(Self::spec_write(m, version)) + rest, version) == Ok::<(FetchRequestDataView, Seq<u8>), Error>((m, rest)),
    {
        let b0 = written(Self::spec_write_replica_id(m, version));
        let b1 = written(Self::spec_write_max_wait_ms(m, version));
        let b2 = written(Self::spec_write_min_bytes(m, version));
        let b3 = written(Self::spec_write_max_bytes(m, version));
        let b4 = written(Self::spec_write_isolation_level(m, version));
        let b5 = written(Self::spec_write_session_id(m, version));
        let b6 = written(Self::spec_write_session_epoch(m, version));
        let b7 = written(Self::spec_write_topics(m, version));
        let b8 = written(Self::spec_write_forgotten_topics_data(m, version));
        let b9 = written(Self::spec_write_rack_id(m, version));
        let b10 = written(Self::spec_write_tags(m, version));
        let t11 = rest;
        let t10 = b10 + t11;
        let t9 = b9 + t10;
        let t8 = b8 + t9;
        let t7 = b7 + t8;
        let t6 = b6 + t7;
        let t5 = b5 + t6;
        let t4 = b4 + t5;
        let t3 = b3 + t4;
        let t2 = b2 + t3;
        let t1 = b1 + t2;
        let t0 = b0 + t1;
        let w0 = Self::spec_write_replica_id(m, version);
        let w1 = chain(w0, Self::spec_write_max_wait_ms(m, version));
        let w2 = chain(w1, Self::spec_write_min_bytes(m, version));
        let w3 = chain(w2, Self::spec_write_max_bytes(m, version));
        let w4 = chain(w3, Self::spec_write_isolation_level(m, version));
        let w5 = chain(w4, Self::spec_write_session_id(m, version));
        let w6 = chain(w5, Self::spec_write_session_epoch(m, version));
        let w7 = chain(w6, Self::spec_write_topics(m, version));
        let w8 = chain(w7, Self::spec_write_forgotten_topics_data(m, version));
        let w9 = chain(w8, Self::spec_write_rack_id(m, version));
        let w10 = chain(w9, Self::spec_write_tags(m, version));
        assert(Self::spec_write(m, version) == w10);
        assert(written(w10) + t11 =~= written(w9) + t10);
        assert(written(w9) + t10 =~= written(w8) + t9);
        assert(written(w8) + t9 =~= written(w7) + t8);
        assert(written(w7) + t8 =~= written(w6) + t7);
        assert(written(w6) + t7 =~= written(w5) + t6);
        assert(written(w5) + t6 =~= written(w4) + t5);
        assert(written(w4) + t5 =~= written(w3) + t4);
        assert(written(w3) + t4 =~= written(w2) + t3);
        assert(written(w2) + t3 =~= written(w1) + t2);
        assert(written(w1) + t2 =~= written(w0) + t1);
        Self::lemma_round_trip_replica_id(m, version, t1);
        Self::lemma_round_trip_max_wait_ms(m, version, t2);
        Self::lemma_round_trip_min_bytes(m, version, t3);
        Self::lemma_round_trip_max_bytes(m, version, t4);
        Self::lemma_round_trip_isolation_level(m, version, t5);
        Self::lemma_round_trip_session_id(m, version, t6);
        Self::lemma_round_trip_session_epoch(m, version, t7);
        Self::lemma_round_trip_topics(m, version, t8);
        Self::lemma_round_trip_forgotten_topics_data(m, version, t9);
        Self::lemma_round_trip_rack_id(m, version, t10);
        Self::lemma_round_trip_tags(m, version, t11);
    }

    /// In a version that does not carry `cluster_id`, writing ignores its value.
    pub proof fn lemma_write_ignores_cluster_id(m: FetchRequestDataView, value: Option<Seq<u8>>, version: i16)
        requires
            !(version >= 12),
        ensures
            Self::spec_write((FetchRequestDataView { cluster_id: value, ..m }), version) == Self::spec_write(m, version),
    {
        reveal(FetchRequestData::spec_write_replica_id);
        reveal(FetchRequestData::spec_write_max_wait_ms);
        reveal(FetchRequestData::spec_write_min_bytes);
        reveal(FetchRequestData::spec_write_max_bytes);
        reveal(FetchRequestData::spec_write_isolation_level);
        reveal(FetchRequestData::spec_write_session_id);
        reveal(FetchRequestData::spec_write_session_epoch);
        reveal(FetchRequestData::spec_write_topics);
        reveal(FetchRequestData::spec_write_forgotten_topics_data);
        reveal(FetchRequestData::spec_write_rack_id);
        reveal(FetchRequestData::spec_write_tags);
    }

    /// In a version that does not carry `replica_state`, writing ignores its value.
    pub proof fn lemma_write_ignores_replica_state(m: FetchRequestDataView, value: ReplicaStateView, version: i16)
        requires
            !(version >= 12 && version >= 15),
        ensures
            Self::spec_write((FetchRequestDataView { replica_state: value, ..m }), version) == Self::spec_write(m, version),
    {
        reveal(FetchRequestData::spec_write_replica_id);
        reveal(FetchRequestData::spec_write_max_wait_ms);
        reveal(FetchRequestData::spec_write_min_bytes);
        reveal(FetchRequestData::spec_write_max_bytes);
        reveal(FetchRequestData::spec_write_isolation_level);
        reveal(FetchRequestData::spec_write_session_id);
        reveal(FetchRequestData::spec_write_session_epoch);
        reveal(FetchRequestData::spec_write_topics);
        reveal(FetchRequestData::spec_write_forgotten_topics_data);
        reveal(FetchRequestData::spec_write_rack_id);
        reveal(FetchRequestData::spec_write_tags);
    }

    /// In a version that does not carry `unknown_tagged_fields`, writing ignores its value.
    pub proof fn lemma_write_ignores_unknown_tagged_fields(m: FetchRequestDataView, value: Seq<(u32, Seq<u8>)>, version: i16)
        requires
            !(version >= 12),
        ensures
            Self::spec_write((FetchRequestDataView { unknown_tagged_fields: value, ..m }), version) == Self::spec_write(m, version),
    {
        reveal(FetchRequestData::spec_write_replica_id);
        reveal(FetchRequestData::spec_write_max_wait_ms);
        reveal(FetchRequestData::spec_write_min_bytes);
        reveal(FetchRequestData::spec_write_max_bytes);
        reveal(FetchRequestData::spec_write_isolation_level);
        reveal(FetchRequestData::spec_write_session_id);
        reveal(FetchRequestData::spec_write_session_epoch);
        reveal(FetchRequestData::spec_write_topics);
        reveal(FetchRequestData::spec_write_forgotten_topics_data);
        reveal(FetchRequestData::spec_write_rack_id);
        reveal(FetchRequestData::spec_write_tags);
    }

    /// The default message holds the default value of each field of the schema.
    pub proof fn lemma_default_values()
        ensures
            (Self::default_view().cluster_id is None),
            Self::default_view().replica_id == (-1i32),
            Self::default_view().replica_state == (ReplicaState::default_view()),
            Self::default_view().max_wait_ms == (0_i32),
            Self::default_view().min_bytes == (0_i32),
            Self::default_view().max_bytes == (i32::MAX),
            Self::default_view().isolation_level == (0i8),
            Self::default_view().session_id == (0i32),
            Self::default_view().session_epoch == (-1i32),
            Self::default_view().topics.len() == 0,
            Self::default_view().forgotten_topics_data.len() == 0,
            Self::default_view().rack_id.len() == 0,
            Self::default_view().unknown_tagged_fields.len() == 0,
    {
    }

    /// Each integer, boolean and identifier field is written as its standard
    /// big-endian bytes (a boolean as `1` or `0`) in the versions that carry
    /// it, and as nothing in the others; reading it takes those bytes back (any
    /// byte other than `0` reads as `true`), or gives its default value.
    pub proof fn lemma_field_encodings(m: FetchRequestDataView, s: Seq<u8>, version: i16)
        ensures
            version <= 14 ==> Self::spec_write_replica_id(m, version) == Ok::<Seq<u8>, (Error, Seq<u8>)>(u32_bytes(m.replica_id as u32)),
            true ==> Self::spec_write_max_wait_ms(m, version) == Ok::<Seq<u8>, (Error, Seq<u8>)>(u32_bytes(m.max_wait_ms as u32)),
            true ==> Self::spec_write_min_bytes(m, version) == Ok::<Seq<u8>, (Error, Seq<u8>)>(u32_bytes(m.min_bytes as u32)),
            true ==> Self::spec_write_max_bytes(m, version) == Ok::<Seq<u8>, (Error, Seq<u8>)>(u32_bytes(m.max_bytes as u32)),
            true ==> Self::spec_write_isolation_level(m, version) == Ok::<Seq<u8>, (Error, Seq<u8>)>(seq![m.isolation_level as u8]),
            version >= 7 ==> Self::spec_write_session_id(m, version) == Ok::<Seq<u8>, (Error, Seq<u8>)>(u32_bytes(m.session_id as u32)),
            version >= 7 ==> Self::spec_write_session_epoch(m, version) == Ok::<Seq<u8>, (Error, Seq<u8>)>(u32_bytes(m.session_epoch as u32)),
            version <= 14 ==> Self::spec_read_replica_id(s, version) == spec_read_i32(s),
            !(version <= 14) ==> Self::spec_read_replica_id(s, version) == Ok::<(i32, Seq<u8>), Error>((-1i32, s)),
            true ==> Self::spec_read_max_wait_ms(s, version) == spec_read_i32(s),
            true ==> Self::spec_read_min_bytes(s, version) == spec_read_i32(s),
            true ==> Self::spec_read_max_bytes(s, version) == spec_read_i32(s),
            true ==> Self::spec_read_isolation_level(s, version) == (if s.len() < 1 { Err(Error::UnexpectedEof) } else { Ok((s[0] as i8, s.drop_first())) }),
            version >= 7 ==> Self::spec_read_session_id(s, version) == spec_read_i32(s),
            !(version >= 7) ==> Self::spec_read_session_id(s, version) == Ok::<(i32, Seq<u8>), Error>((0i32, s)),
            version >= 7 ==> Self::spec_read_session_epoch(s, version) == spec_read_i32(s),
            !(version >= 7) ==> Self::spec_read_session_epoch(s, version) == Ok::<(i32, Seq<u8>), Error>((-1i32, s)),
    {
        reveal(FetchRequestData::spec_write_replica_id);
        reveal(FetchRequestData::spec_read_replica_id);
        reveal(FetchRequestData::spec_write_max_wait_ms);
        reveal(FetchRequestData::spec_read_max_wait_ms);
        reveal(FetchRequestData::spec_write_min_bytes);
        reveal(FetchRequestData::spec_read_min_bytes);
        reveal(FetchRequestData::spec_write_max_bytes);
        reveal(FetchRequestData::spec_read_max_bytes);
        reveal(FetchRequestData::spec_write_isolation_level);
        reveal(FetchRequestData::spec_read_isolation_level);
        reveal(FetchRequestData::spec_write_session_id);
        reveal(FetchRequestData::spec_read_session_id);
        reveal(FetchRequestData::spec_write_session_epoch);
        reveal(FetchRequestData::spec_read_session_epoch);
    }

    /// Whether writing `m` in `version` succeeds, said over its parts: the
    /// version is one the schema covers, every field that the version cannot
    /// carry holds its default value, and every string, byte string, array and
    /// tagged field fits its length prefix.
    pub open spec fn writable(m: FetchRequestDataView, version: i16) -> bool {
        &&& 4 <= version <= 18
        &&& (if version <= 14 {
                true
            } else {
                !(m.replica_id != -1i32)
        })
        &&& (if version >= 7 {
                true
            } else {
                !(m.session_id != 0i32)
        })
        &&& (if version >= 7 {
                true
            } else {
                !(m.session_epoch != -1i32)
        })
        &&& (m.topics.len() <= i32::MAX && all_writable::<FetchTopic>(m.topics, version))
        &&& (if version >= 7 {
                (m.forgotten_topics_data.len() <= i32::MAX && all_writable::<ForgottenTopic>(m.forgotten_topics_data, version))
            } else {
                !(m.forgotten_topics_data.len() != 0)
        })
        &&& (if version >= 11 {
                m.rack_id.len() <= 0x7fff
            } else {
                !(m.rack_id.len() != 0)
        })
        &&& (if version >= 12 {
                (m.cluster_id is Some ==> (m.cluster_id matches Some(b) ==> b.len() <= 0x7fff) && written(spec_write_compact_nullable_string(m.cluster_id)).len() <= isize::MAX && written(spec_write_compact_nullable_string(m.cluster_id)).len() <= u32::MAX) && (version >= 15 && !ReplicaState::is_default_view(m.replica_state) ==> ReplicaState::writable(m.replica_state, version) && written(ReplicaState::spec_write(m.replica_state, version)).len() <= isize::MAX && written(ReplicaState::spec_write(m.replica_state, version)).len() <= u32::MAX) && (if m.cluster_id is Some { 1int } else { 0int }) + (if version >= 15 && !ReplicaState::is_default_view(m.replica_state) { 1int } else { 0int }) + m.unknown_tagged_fields.len() <= u32::MAX && tags_fit(m.unknown_tagged_fields)
            } else {
                true
        })
    }

    proof fn lemma_writable_replica_id(m: FetchRequestDataView, version: i16)
        ensures
            Self::spec_write_replica_id(m, version) is Ok <==> (if version <= 14 { true } else { !(m.replica_id != -1i32) }),
    {
        reveal(FetchRequestData::spec_write_replica_id);
    }

    proof fn lemma_writable_max_wait_ms(m: FetchRequestDataView, version: i16)
        ensures
            Self::spec_write_max_wait_ms(m, version) is Ok <==> true,
    {
        reveal(FetchRequestData::spec_write_max_wait_ms);
    }

    proof fn lemma_writable_min_bytes(m: FetchRequestDataView, version: i16)
        ensures
            Self::spec_write_min_bytes(m, version) is Ok <==> true,
    {
        reveal(FetchRequestData::spec_write_min_bytes);
    }

    proof fn lemma_writable_max_bytes(m: FetchRequestDataView, version: i16)
        ensures
            Self::spec_write_max_bytes(m, version) is Ok <==> true,
    {
        reveal(FetchRequestData::spec_write_max_bytes);
    }

    proof fn lemma_writable_isolation_level(m: FetchRequestDataView, version: i16)
        ensures
            Self::spec_write_isolation_level(m, version) is Ok <==> true,
    {
        reveal(FetchRequestData::spec_write_isolation_level);
    }

    proof fn lemma_writable_session_id(m: FetchRequestDataView, version: i16)
        ensures
            Self::spec_write_session_id(m, version) is Ok <==> (if version >= 7 { true } else { !(m.session_id != 0i32) }),
    {
        reveal(FetchRequestData::spec_write_session_id);
    }

    proof fn lemma_writable_session_epoch(m: FetchRequestDataView, version: i16)
        ensures
            Self::spec_write_session_epoch(m, version) is Ok <==> (if version >= 7 { true } else { !(m.session_epoch != -1i32) }),
    {
        reveal(FetchRequestData::spec_write_session_epoch);
    }

    proof fn lemma_writable_topics(m: FetchRequestDataView, version: i16)
        ensures
            Self::spec_write_topics(m, version) is Ok <==> (m.topics.len() <= i32::MAX && all_writable::<FetchTopic>(m.topics, version)),
    {
        reveal(FetchRequestData::spec_write_topics);
        if version >= 12 {
            lemma_array_writable::<FetchTopic>(m.topics, version, true);
        } else {
            lemma_array_writable::<FetchTopic>(m.topics, version, false);
        }
    }

    proof fn lemma_writable_forgotten_topics_data(m: FetchRequestDataView, version: i16)
        ensures
            Self::spec_write_forgotten_topics_data(m, version) is Ok <==> (if version >= 7 { (m.forgotten_topics_data.len() <= i32::MAX && all_writable::<ForgottenTopic>(m.forgotten_topics_data, version)) } else { !(m.forgotten_topics_data.len() != 0) }),
    {
        reveal(FetchRequestData::spec_write_forgotten_topics_data);
        if version >= 7 {
            if version >= 12 {
                lemma_array_writable::<ForgottenTopic>(m.forgotten_topics_data, version, true);
            } else {
                lemma_array_writable::<ForgottenTopic>(m.forgotten_topics_data, version, false);
            }
        } else {
        }
    }

    proof fn lemma_writable_rack_id(m: FetchRequestDataView, version: i16)
        ensures
            Self::spec_write_rack_id(m, version) is Ok <==> (if version >= 11 { m.rack_id.len() <= 0x7fff } else { !(m.rack_id.len() != 0) }),
    {
        reveal(FetchRequestData::spec_write_rack_id);
    }

    proof fn lemma_writable_tags(m: FetchRequestDataView, version: i16)
        ensures
            Self::spec_write_tags(m, version) is Ok <==> (if version >= 12 { (m.cluster_id is Some ==> (m.cluster_id matches Some(b) ==> b.len() <= 0x7fff) && written(spec_write_compact_nullable_string(m.cluster_id)).len() <= isize::MAX && written(spec_write_compact_nullable_string(m.cluster_id)).len() <= u32::MAX) && (version >= 15 && !ReplicaState::is_default_view(m.replica_state) ==> ReplicaState::writable(m.replica_state, version) && written(ReplicaState::spec_write(m.replica_state, version)).len() <= isize::MAX && written(ReplicaState::spec_write(m.replica_state, version)).len() <= u32::MAX) && (if m.cluster_id is Some { 1int } else { 0int }) + (if version >= 15 && !ReplicaState::is_default_view(m.replica_state) { 1int } else { 0int }) + m.unknown_tagged_fields.len() <= u32::MAX && tags_fit(m.unknown_tagged_fields) } else { true }),
    {
        reveal(FetchRequestData::spec_write_tags);
        let k = Self::spec_known_tags(m, version);
        lemma_tags_fit_single(0u32, written(spec_write_compact_nullable_string(m.cluster_id)));
        ReplicaState::lemma_writable(m.replica_state, version);
        lemma_tags_fit_single(1u32, written(ReplicaState::spec_write(m.replica_state, version)));
        if version >= 12 {
            Self::lemma_tag_section(m, version);
            if k is Ok {
                lemma_sorted_tags_fit(k->Ok_0 + m.unknown_tagged_fields);
                lemma_tagged_fields_writable(sorted_by_tag(k->Ok_0 + m.unknown_tagged_fields));
                lemma_tags_fit_concat(k->Ok_0, m.unknown_tagged_fields);
                lemma_tags_fit_concat((if m.cluster_id is Some {
                            seq![(0u32, written(spec_write_compact_nullable_string(m.cluster_id)))]
                        } else {
                            Seq::<(u32, Seq<u8>)>::empty()
                    }), (if version >= 15 && !ReplicaState::is_default_view(m.replica_state) {
                            seq![(1u32, written(ReplicaState::spec_write(m.replica_state, version)))]
                        } else {
                            Seq::<(u32, Seq<u8>)>::empty()
                }));
            }
        }
    }

    /// Writing `m` in `version` succeeds exactly when `m` is writable in it;
    /// so do `write` and `encoded_len`, whose results follow `spec_write`.
    #[verifier::rlimit(96)]
    pub proof fn lemma_writable(m: FetchRequestDataView, version: i16)
        ensures
            Self::spec_write(m, version) is Ok <==> Self::writable(m, version),
    {
        Self::lemma_writable_replica_id(m, version);
        Self::lemma_writable_max_wait_ms(m, version);
        Self::lemma_writable_min_bytes(m, version);
        Self::lemma_writable_max_bytes(m, version);
        Self::lemma_writable_isolation_level(m, version);
        Self::lemma_writable_session_id(m, version);
        Self::lemma_writable_session_epoch(m, version);
        Self::lemma_writable_topics(m, version);
        Self::lemma_writable_forgotten_topics_data(m, version);
        Self::lemma_writable_rack_id(m, version);
        Self::lemma_writable_tags(m, version);
    }

    /// A version outside the range that the schema covers is refused, by
    /// reads and by writes alike, before anything is read or written.
    pub proof fn lemma_refused_version(m: FetchRequestDataView, s: Seq<u8>, version: i16)
        requires
            version < 4 || version > 18,
        ensures
            Self::spec_read(s, version) == Err::<(FetchRequestDataView, Seq<u8>), Error>(Error::UnsupportedVersion(UnsupportedVersion { api_key: 1, version })),
            Self::spec_write(m, version) == fail(Error::UnsupportedVersion(UnsupportedVersion { api_key: 1, version })),
    {
    }

    pub fn with_cluster_id(self, value: Option<KafkaString>) -> (r: Self)
        ensures
            r@ == (FetchRequestDataView { cluster_id: opt_view(value), ..self@ }),
    {
        let mut r = self;
        r.cluster_id = value;
        r
    }

    pub fn with_replica_id(self, value: i32) -> (r: Self)
        ensures
            r@ == (FetchRequestDataView { replica_id: value, ..self@ }),
    {
        let mut r = self;
        r.replica_id = value;
        r
    }

    pub fn with_replica_state(self, value: ReplicaState) -> (r: Self)
        ensures
            r@ == (FetchRequestDataView { replica_state: value@, ..self@ }),
    {
        let mut r = self;
        r.replica_state = value;
        r
    }

    pub fn with_max_wait_ms(self, value: i32) -> (r: Self)
        ensures
            r@ == (FetchRequestDataView { max_wait_ms: value, ..self@ }),
    {
        let mut r = self;
        r.max_wait_ms = value;
        r
    }

    pub fn with_min_bytes(self, value: i32) -> (r: Self)
        ensures
            r@ == (FetchRequestDataView { min_bytes: value, ..self@ }),
    {
        let mut r = self;
        r.min_bytes = value;
        r
    }

    pub fn with_max_bytes(self, value: i32) -> (r: Self)
        ensures
            r@ == (FetchRequestDataView { max_bytes: value, ..self@ }),
    {
        let mut r = self;
        r.max_bytes = value;
        r
    }

    pub fn with_isolation_level(self, value: i8) -> (r: Self)
        ensures
            r@ == (FetchRequestDataView { isolation_level: value, ..self@ }),
    {
        let mut r = self;
        r.isolation_level = value;
        r
    }

    pub fn with_session_id(self, value: i32) -> (r: Self)
        ensures
            r@ == (FetchRequestDataView { session_id: value, ..self@ }),
    {
        let mut r = self;
        r.session_id = value;
        r
    }

    pub fn with_session_epoch(self, value: i32) -> (r: Self)
        ensures
            r@ == (FetchRequestDataView { session_epoch: value, ..self@ }),
    {
        let mut r = self;
        r.session_epoch = value;
        r
    }

    pub fn with_topics(self, value: Vec<FetchTopic>) -> (r: Self)
        ensures
            r@ == (FetchRequestDataView { topics: views(value@), ..self@ }),
    {
        let mut r = self;
        r.topics = value;
        r
    }

    pub fn with_forgotten_topics_data(self, value: Vec<ForgottenTopic>) -> (r: Self)
        ensures
            r@ == (FetchRequestDataView { forgotten_topics_data: views(value@), ..self@ }),
    {
        let mut r = self;
        r.forgotten_topics_data = value;
        r
    }

    pub fn with_rack_id(self, value: KafkaString) -> (r: Self)
        ensures
            r@ == (FetchRequestDataView { rack_id: value@, ..self@ }),
    {
        let mut r = self;
        r.rack_id = value;
        r
    }

    /// The known tagged fields and the unknown ones after the tagged field `f`
    /// is read: a known one replaces the value it holds, an unknown one is kept.
    pub open spec fn spec_apply_tag(st: (Option<Seq<u8>>, ReplicaStateView, Seq<(u32, Seq<u8>)>), f: (u32, Seq<u8>), version: i16) -> Result<(Option<Seq<u8>>, ReplicaStateView, Seq<(u32, Seq<u8>)>), Error> {
        if f.0 == 0u32 {
            match (spec_read_compact_nullable_string(f.1)) {
                Err(e) => Err(e),
                Ok((v, _)) => Ok((v, st.1, st.2)),
            }
        } else {
            if f.0 == 1u32 {
                if version >= 15 {
                    match (ReplicaState::spec_read(f.1, version)) {
                        Err(e) => Err(e),
                        Ok((v, _)) => Ok((st.0, v, st.2)),
                    }
                } else {
                    Ok(st)
                }
            } else {
                Ok((st.0, st.1, st.2.push(f)))
            }
        }
    }

    /// The known tagged fields, and the unknown ones, that reading `tags` in
    /// order gives, starting from `st`.
    pub open spec fn spec_apply_tags_from(st: (Option<Seq<u8>>, ReplicaStateView, Seq<(u32, Seq<u8>)>), tags: Seq<(u32, Seq<u8>)>, version: i16) -> Result<(Option<Seq<u8>>, ReplicaStateView, Seq<(u32, Seq<u8>)>), Error>
    decreases tags.len(),
    {
        if tags.len() == 0 {
            Ok(st)
        } else {
            match Self::spec_apply_tags_from(st, tags.drop_last(), version) {
                Err(e) => Err(e),
                Ok(s2) => Self::spec_apply_tag(s2, tags.last(), version),
            }
        }
    }

    /// The known tagged fields, and the unknown ones, that reading `tags` in
    /// order gives.
    pub open spec fn spec_apply_tags(tags: Seq<(u32, Seq<u8>)>, version: i16) -> Result<(Option<Seq<u8>>, ReplicaStateView, Seq<(u32, Seq<u8>)>), Error> {
        Self::spec_apply_tags_from((None, ReplicaState::default_view(), Seq::empty()), tags, version)
    }

    /// Whether a tagged field with tag `t` is one of the known ones.
    pub open spec fn is_known_tag(t: u32) -> bool {
        t == 0u32 || t == 1u32
    }

    proof fn lemma_apply_tags_err(tags: Seq<(u32, Seq<u8>)>, i: int, version: i16)
        requires
            0 <= i <= tags.len(),
            Self::spec_apply_tags(tags.take(i), version) is Err,
        ensures
            Self::spec_apply_tags(tags, version) == Self::spec_apply_tags(tags.take(i), version),
            decreases tags.len() - i,
    {
        if i < tags.len() {
            assert(tags.take(i + 1).drop_last() =~= tags.take(i));
            Self::lemma_apply_tags_err(tags, i + 1, version);
        } else {
            assert(tags.take(i) =~= tags);
        }
    }

    fn apply_tags(tags: &Vec<RawTaggedField>, version: i16) -> (r: Result<(Option<KafkaString>, ReplicaState, Vec<RawTaggedField>), Error>)
        ensures
            match Self::spec_apply_tags(views(tags@), version) {
            Err(e) => r matches Err(e2) && e2 == e,
            Ok(st) => r matches Ok(x) && opt_view(x.0) == st.0 && x.1@ == st.1 && views(x.2@) == st.2,
            },
    {
        let ghost ts = views(tags@);
        let mut k_cluster_id: Option<KafkaString> = None;
        let mut k_replica_state: ReplicaState = ReplicaState::default();
        let mut unknown: Vec<RawTaggedField> = empty_vec();
        let mut i: usize = 0;
        assert(ts.take(0) =~= Seq::<(u32, Seq<u8>)>::empty());
        while i < tags.len()
        invariant
        0 <= i <= tags.len(),
        ts == views(tags@),
        Self::spec_apply_tags(ts.take(i as int), version) == Ok::<(Option<Seq<u8>>, ReplicaStateView, Seq<(u32, Seq<u8>)>), Error>((opt_view(k_cluster_id), k_replica_state@, views(unknown@))),
        decreases tags.len() - i,
        {
            let field = &tags[i];
            proof {
                assert(ts.take(i + 1).drop_last() =~= ts.take(i as int));
                assert(ts.take(i + 1).last() == field@);
            }
            if field.tag == 0 {
                let mut tag_buf = field.data.clone();
                k_cluster_id = match read_compact_nullable_string(&mut tag_buf) {
                    Ok(v) => v,
                    Err(e) => {
                        proof {
                            Self::lemma_apply_tags_err(ts, i + 1, version);
                        }
                        return Err(e);
                    },
                };
            } else if field.tag == 1 {
                if version >= 15 {
                    let mut tag_buf = field.data.clone();
                    k_replica_state = match ReplicaState::read(&mut tag_buf, version) {
                        Ok(v) => v,
                        Err(e) => {
                            proof {
                                Self::lemma_apply_tags_err(ts, i + 1, version);
                            }
                            return Err(e);
                        },
                    };
                }
            } else {
                let ghost before = views(unknown@);
                unknown.push(field.clone());
                proof {
                    assert(views(unknown@) =~= before.push(field@));
                }
            }
            i = i + 1;
        }
        proof {
            assert(ts.take(tags.len() as int) =~= ts);
        }
        Ok((k_cluster_id, k_replica_state, unknown))
    }

    /// The known tagged fields that `m` has to write in `version`, in the
    /// order of their tags: those that do not hold their default value.
    pub open spec fn spec_known_tags(m: FetchRequestDataView, version: i16) -> Result<Seq<(u32, Seq<u8>)>, Error> {
        match (if m.cluster_id is Some {
                tag_entry(0u32, spec_write_compact_nullable_string(m.cluster_id))
            } else {
                Ok(Seq::empty())
        }) {
            Err(e) => Err(e),
            Ok(k0) => match (if version >= 15 && !ReplicaState::is_default_view(m.replica_state) {
                    tag_entry(1u32, ReplicaState::spec_write(m.replica_state, version))
                } else {
                    Ok(Seq::empty())
            }) {
                Err(e) => Err(e),
                Ok(k1) => Ok(k0 + k1),
            },
        }
    }

    fn known_tagged_fields(&self, version: i16) -> (r: Result<Vec<RawTaggedField>, Error>)
        ensures
            match Self::spec_known_tags(self@, version) {
            Err(e) => r matches Err(e2) && e2 == e,
            Ok(k) => r matches Ok(v) && views(v@) == k,
            },
    {
        let ghost m = self@;
        let ghost w0 = spec_write_compact_nullable_string(m.cluster_id);
        let ghost e0 = if m.cluster_id is Some {
            tag_entry(0u32, w0)
        } else {
            Ok(Seq::empty())
        };
        let ghost w1 = ReplicaState::spec_write(m.replica_state, version);
        let ghost e1 = if version >= 15 && !ReplicaState::is_default_view(m.replica_state) {
            tag_entry(1u32, w1)
        } else {
            Ok(Seq::empty())
        };
        let mut known: Vec<RawTaggedField> = empty_vec();
        let ghost prev0 = views(known@);
        if self.cluster_id.is_some() {
            let n = match compact_nullable_string_len(&self.cluster_id) {
                Ok(n) => n,
                Err(e) => {
                    return Err(e);
                },
            };
            if n > isize::MAX as usize {
                return Err(Error::ValueTooLong);
            }
            let mut tag_buf = bytes_mut_new();
            let _: Result<(), Error> = write_compact_nullable_string(&mut tag_buf, &self.cluster_id);
            let data = bytes_mut_freeze(tag_buf);
            assert(bytes_seq(data) =~= written(w0));
            known.push(RawTaggedField { tag: 0, data });
        }
        assert(views(known@) =~= prev0 + e0->Ok_0);
        let ghost prev1 = views(known@);
        if version >= 15 && !self.replica_state.is_default() {
            let n = match self.replica_state.encoded_len(version) {
                Ok(n) => n,
                Err(e) => {
                    return Err(e);
                },
            };
            if n > isize::MAX as usize {
                return Err(Error::ValueTooLong);
            }
            let mut tag_buf = bytes_mut_new();
            let _: Result<(), Error> = self.replica_state.write(&mut tag_buf, version);
            let data = bytes_mut_freeze(tag_buf);
            assert(bytes_seq(data) =~= written(w1));
            known.push(RawTaggedField { tag: 1, data });
        }
        assert(views(known@) =~= prev1 + e1->Ok_0);
        Ok(known)
    }

    fn read_replica_id(buf: &mut Bytes, version: i16) -> (r: Result<i32, Error>)
        ensures
            read_as(Self::spec_read_replica_id(bytes_seq(*old(buf)), version), *final(buf), r),
            took_front(*old(buf), *final(buf)),
    {
        proof {
            reveal(FetchRequestData::spec_read_replica_id);
        }
        Ok(if version <= 14 {
                read_i32(buf)?
            } else {
                -1i32
        })
    }

    fn read_max_wait_ms(buf: &mut Bytes, version: i16) -> (r: Result<i32, Error>)
        ensures
            read_as(Self::spec_read_max_wait_ms(bytes_seq(*old(buf)), version), *final(buf), r),
            took_front(*old(buf), *final(buf)),
    {
        proof {
            reveal(FetchRequestData::spec_read_max_wait_ms);
        }
        Ok(read_i32(buf)?)
    }

    fn read_min_bytes(buf: &mut Bytes, version: i16) -> (r: Result<i32, Error>)
        ensures
            read_as(Self::spec_read_min_bytes(bytes_seq(*old(buf)), version), *final(buf), r),
            took_front(*old(buf), *final(buf)),
    {
        proof {
            reveal(FetchRequestData::spec_read_min_bytes);
        }
        Ok(read_i32(buf)?)
    }

    fn read_max_bytes(buf: &mut Bytes, version: i16) -> (r: Result<i32, Error>)
        ensures
            read_as(Self::spec_read_max_bytes(bytes_seq(*old(buf)), version), *final(buf), r),
            took_front(*old(buf), *final(buf)),
    {
        proof {
            reveal(FetchRequestData::spec_read_max_bytes);
        }
        Ok(read_i32(buf)?)
    }

    fn read_isolation_level(buf: &mut Bytes, version: i16) -> (r: Result<i8, Error>)
        ensures
            read_as(Self::spec_read_isolation_level(bytes_seq(*old(buf)), version), *final(buf), r),
            took_front(*old(buf), *final(buf)),
    {
        proof {
            reveal(FetchRequestData::spec_read_isolation_level);
        }
        Ok(read_i8(buf)?)
    }

    fn read_session_id(buf: &mut Bytes, version: i16) -> (r: Result<i32, Error>)
        ensures
            read_as(Self::spec_read_session_id(bytes_seq(*old(buf)), version), *final(buf), r),
            took_front(*old(buf), *final(buf)),
    {
        proof {
            reveal(FetchRequestData::spec_read_session_id);
        }
        Ok(if version >= 7 {
                read_i32(buf)?
            } else {
                0i32
        })
    }

    fn read_session_epoch(buf: &mut Bytes, version: i16) -> (r: Result<i32, Error>)
        ensures
            read_as(Self::spec_read_session_epoch(bytes_seq(*old(buf)), version), *final(buf), r),
            took_front(*old(buf), *final(buf)),
    {
        proof {
            reveal(FetchRequestData::spec_read_session_epoch);
        }
        Ok(if version >= 7 {
                read_i32(buf)?
            } else {
                -1i32
        })
    }

    fn read_topics(buf: &mut Bytes, version: i16) -> (r: Result<Vec<FetchTopic>, Error>)
        ensures
            read_vec_as(Self::spec_read_topics(bytes_seq(*old(buf)), version), *final(buf), r),
            took_front(*old(buf), *final(buf)),
    {
        proof {
            reveal(FetchRequestData::spec_read_topics);
        }
        Ok(if version >= 12 {
                read_array::<FetchTopic>(buf, version, true)?
            } else {
                read_array::<FetchTopic>(buf, version, false)?
        })
    }

    fn read_forgotten_topics_data(buf: &mut Bytes, version: i16) -> (r: Result<Vec<ForgottenTopic>, Error>)
        ensures
            read_vec_as(Self::spec_read_forgotten_topics_data(bytes_seq(*old(buf)), version), *final(buf), r),
            took_front(*old(buf), *final(buf)),
    {
        proof {
            reveal(FetchRequestData::spec_read_forgotten_topics_data);
        }
        Ok(if version >= 7 {
                if version >= 12 {
                    read_array::<ForgottenTopic>(buf, version, true)?
                } else {
                    read_array::<ForgottenTopic>(buf, version, false)?
                }
            } else {
                empty_vec()
        })
    }

    fn read_rack_id(buf: &mut Bytes, version: i16) -> (r: Result<KafkaString, Error>)
        ensures
            read_as(Self::spec_read_rack_id(bytes_seq(*old(buf)), version), *final(buf), r),
            took_front(*old(buf), *final(buf)),
    {
        proof {
            reveal(FetchRequestData::spec_read_rack_id);
        }
        Ok(if version >= 11 {
                if version >= 12 {
                    read_compact_string(buf)?
                } else {
                    read_string(buf)?
                }
            } else {
                KafkaString::default()
        })
    }

    #[verifier::rlimit(80)]
    #[verifier::spinoff_prover]
    pub fn read(buf: &mut Bytes, version: i16) -> (r: Result<Self, Error>)
        ensures
            read_as(Self::spec_read(bytes_seq(*old(buf)), version), *final(buf), r),
            took_front(*old(buf), *final(buf)),
            (version < 4 || version > 18) ==> bytes_seq(*final(buf)) == bytes_seq(*old(buf)),
    {
        if version < 4 || version > 18 {
            return Err(Error::UnsupportedVersion(UnsupportedVersion::new(1, version)));
        }
        let replica_id = Self::read_replica_id(buf, version)?;
        let max_wait_ms = Self::read_max_wait_ms(buf, version)?;
        let min_bytes = Self::read_min_bytes(buf, version)?;
        let max_bytes = Self::read_max_bytes(buf, version)?;
        let isolation_level = Self::read_isolation_level(buf, version)?;
        let session_id = Self::read_session_id(buf, version)?;
        let session_epoch = Self::read_session_epoch(buf, version)?;
        let topics = Self::read_topics(buf, version)?;
        let forgotten_topics_data = Self::read_forgotten_topics_data(buf, version)?;
        let rack_id = Self::read_rack_id(buf, version)?;
        let (cluster_id, replica_state, _unknown_tagged_fields) = if version >= 12 {
            let tags = read_tagged_fields(buf)?;
            Self::apply_tags(&tags, version)?
        } else {
            (None, ReplicaState::default(), empty_vec())
        };
        Ok(FetchRequestData {
                cluster_id: cluster_id,
                replica_id: replica_id,
                replica_state: replica_state,
                max_wait_ms: max_wait_ms,
                min_bytes: min_bytes,
                max_bytes: max_bytes,
                isolation_level: isolation_level,
                session_id: session_id,
                session_epoch: session_epoch,
                topics: topics,
                forgotten_topics_data: forgotten_topics_data,
                rack_id: rack_id,
                _unknown_tagged_fields: _unknown_tagged_fields,
        })
    }

    #[verifier::rlimit(100)]
    #[verifier::spinoff_prover]
    pub fn write(&self, buf: &mut BytesMut, version: i16) -> (r: Result<(), Error>)
        requires
            has_room(Self::spec_write(self@, version), *old(buf)),
        ensures
            wrote(Self::spec_write(self@, version), *old(buf), *final(buf), r),
    {
        if version < 4 || version > 18 {
            return Err(Error::UnsupportedVersion(UnsupportedVersion::new(1, version)));
        }
        let ghost m = self@;
        proof {
            reveal(FetchRequestData::spec_write_replica_id);
            reveal(FetchRequestData::spec_write_max_wait_ms);
            reveal(FetchRequestData::spec_write_min_bytes);
            reveal(FetchRequestData::spec_write_max_bytes);
            reveal(FetchRequestData::spec_write_isolation_level);
            reveal(FetchRequestData::spec_write_session_id);
            reveal(FetchRequestData::spec_write_session_epoch);
            reveal(FetchRequestData::spec_write_topics);
            reveal(FetchRequestData::spec_write_forgotten_topics_data);
            reveal(FetchRequestData::spec_write_rack_id);
            reveal(FetchRequestData::spec_write_tags);
        }
        let ghost s0 = Self::spec_write_replica_id(m, version);
        let ghost w0 = s0;
        let ghost s1 = Self::spec_write_max_wait_ms(m, version);
        let ghost w1 = chain(w0, s1);
        let ghost s2 = Self::spec_write_min_bytes(m, version);
        let ghost w2 = chain(w1, s2);
        let ghost s3 = Self::spec_write_max_bytes(m, version);
        let ghost w3 = chain(w2, s3);
        let ghost s4 = Self::spec_write_isolation_level(m, version);
        let ghost w4 = chain(w3, s4);
        let ghost s5 = Self::spec_write_session_id(m, version);
        let ghost w5 = chain(w4, s5);
        let ghost s6 = Self::spec_write_session_epoch(m, version);
        let ghost w6 = chain(w5, s6);
        let ghost s7 = Self::spec_write_topics(m, version);
        let ghost w7 = chain(w6, s7);
        let ghost s8 = Self::spec_write_forgotten_topics_data(m, version);
        let ghost w8 = chain(w7, s8);
        let ghost s9 = Self::spec_write_rack_id(m, version);
        let ghost w9 = chain(w8, s9);
        let ghost s10 = Self::spec_write_tags(m, version);
        let ghost w10 = chain(w9, s10);
        assert(Self::spec_write(m, version) == w10);
        assert(written(w9).len() <= written(w10).len() && (w9 is Err ==> w10 == w9));
        assert(written(w8).len() <= written(w10).len() && (w8 is Err ==> w10 == w8));
        assert(written(w7).len() <= written(w10).len() && (w7 is Err ==> w10 == w7));
        assert(written(w6).len() <= written(w10).len() && (w6 is Err ==> w10 == w6));
        assert(written(w5).len() <= written(w10).len() && (w5 is Err ==> w10 == w5));
        assert(written(w4).len() <= written(w10).len() && (w4 is Err ==> w10 == w4));
        assert(written(w3).len() <= written(w10).len() && (w3 is Err ==> w10 == w3));
        assert(written(w2).len() <= written(w10).len() && (w2 is Err ==> w10 == w2));
        assert(written(w1).len() <= written(w10).len() && (w1 is Err ==> w10 == w1));
        assert(written(w0).len() <= written(w10).len() && (w0 is Err ==> w10 == w0));
        let ghost mid = bytes_mut_seq(*buf);
        proof {
            lemma_append_empty(mid);
        }
        let r0 = if version <= 14 {
            {
                write_i32(buf, self.replica_id);
                Ok(())
            }
        } else {
            if self.replica_id != -1i32 {
                Err(Error::UnsupportedFieldVersion(UnsupportedFieldVersion::new(1, "replica_id", version)))
            } else {
                Ok(())
            }
        };
        assert(bytes_mut_seq(*buf) == mid + written(s0));
        if r0.is_err() {
            return r0;
        }
        let ghost mid = bytes_mut_seq(*buf);
        proof {
            lemma_append_empty(mid);
        }
        let r1 = {
            write_i32(buf, self.max_wait_ms);
            Ok(())
        };
        assert(bytes_mut_seq(*buf) == mid + written(s1));
        proof {
            lemma_step(bytes_mut_seq(*old(buf)), w0, s1);
        }
        if r1.is_err() {
            return r1;
        }
        let ghost mid = bytes_mut_seq(*buf);
        proof {
            lemma_append_empty(mid);
        }
        let r2 = {
            write_i32(buf, self.min_bytes);
            Ok(())
        };
        assert(bytes_mut_seq(*buf) == mid + written(s2));
        proof {
            lemma_step(bytes_mut_seq(*old(buf)), w1, s2);
        }
        if r2.is_err() {
            return r2;
        }
        let ghost mid = bytes_mut_seq(*buf);
        proof {
            lemma_append_empty(mid);
        }
        let r3 = {
            write_i32(buf, self.max_bytes);
            Ok(())
        };
        assert(bytes_mut_seq(*buf) == mid + written(s3));
        proof {
            lemma_step(bytes_mut_seq(*old(buf)), w2, s3);
        }
        if r3.is_err() {
            return r3;
        }
        let ghost mid = bytes_mut_seq(*buf);
        proof {
            lemma_append_empty(mid);
        }
        let r4 = {
            write_i8(buf, self.isolation_level);
            Ok(())
        };
        assert(bytes_mut_seq(*buf) == mid + written(s4));
        proof {
            lemma_step(bytes_mut_seq(*old(buf)), w3, s4);
        }
        if r4.is_err() {
            return r4;
        }
        let ghost mid = bytes_mut_seq(*buf);
        proof {
            lemma_append_empty(mid);
        }
        let r5 = if version >= 7 {
            {
                write_i32(buf, self.session_id);
                Ok(())
            }
        } else {
            if self.session_id != 0i32 {
                Err(Error::UnsupportedFieldVersion(UnsupportedFieldVersion::new(1, "session_id", version)))
            } else {
                Ok(())
            }
        };
        assert(bytes_mut_seq(*buf) == mid + written(s5));
        proof {
            lemma_step(bytes_mut_seq(*old(buf)), w4, s5);
        }
        if r5.is_err() {
            return r5;
        }
        let ghost mid = bytes_mut_seq(*buf);
        proof {
            lemma_append_empty(mid);
        }
        let r6 = if version >= 7 {
            {
                write_i32(buf, self.session_epoch);
                Ok(())
            }
        } else {
            if self.session_epoch != -1i32 {
                Err(Error::UnsupportedFieldVersion(UnsupportedFieldVersion::new(1, "session_epoch", version)))
            } else {
                Ok(())
            }
        };
        assert(bytes_mut_seq(*buf) == mid + written(s6));
        proof {
            lemma_step(bytes_mut_seq(*old(buf)), w5, s6);
        }
        if r6.is_err() {
            return r6;
        }
        let ghost mid = bytes_mut_seq(*buf);
        proof {
            lemma_append_empty(mid);
        }
        let r7 = if version >= 12 {
            write_array::<FetchTopic>(buf, &self.topics, version, true)
        } else {
            write_array::<FetchTopic>(buf, &self.topics, version, false)
        };
        assert(bytes_mut_seq(*buf) == mid + written(s7));
        proof {
            lemma_step(bytes_mut_seq(*old(buf)), w6, s7);
        }
        if r7.is_err() {
            return r7;
        }
        let ghost mid = bytes_mut_seq(*buf);
        proof {
            lemma_append_empty(mid);
        }
        let r8 = if version >= 7 {
            if version >= 12 {
                write_array::<ForgottenTopic>(buf, &self.forgotten_topics_data, version, true)
            } else {
                write_array::<ForgottenTopic>(buf, &self.forgotten_topics_data, version, false)
            }
        } else {
            if self.forgotten_topics_data.len() != 0 {
                Err(Error::UnsupportedFieldVersion(UnsupportedFieldVersion::new(1, "forgotten_topics_data", version)))
            } else {
                Ok(())
            }
        };
        assert(bytes_mut_seq(*buf) == mid + written(s8));
        proof {
            lemma_step(bytes_mut_seq(*old(buf)), w7, s8);
        }
        if r8.is_err() {
            return r8;
        }
        let ghost mid = bytes_mut_seq(*buf);
        proof {
            lemma_append_empty(mid);
        }
        let r9 = if version >= 11 {
            if version >= 12 {
                write_compact_string(buf, &self.rack_id)
            } else {
                write_string(buf, &self.rack_id)
            }
        } else {
            if !self.rack_id.is_empty() {
                Err(Error::UnsupportedFieldVersion(UnsupportedFieldVersion::new(1, "rack_id", version)))
            } else {
                Ok(())
            }
        };
        assert(bytes_mut_seq(*buf) == mid + written(s9));
        proof {
            lemma_step(bytes_mut_seq(*old(buf)), w8, s9);
        }
        if r9.is_err() {
            return r9;
        }
        let ghost mid = bytes_mut_seq(*buf);
        proof {
            lemma_append_empty(mid);
        }
        let r10 = if version >= 12 {
            match self.known_tagged_fields(version) {
                Err(e) => Err(e),
                Ok(known) => {
                    let all = append_fields(known, &self._unknown_tagged_fields);
                    write_tagged_fields(buf, &sort_by_tag(&all))
                },
            }
        } else {
            Ok(())
        };
        assert(bytes_mut_seq(*buf) == mid + written(s10));
        proof {
            lemma_step(bytes_mut_seq(*old(buf)), w9, s10);
        }
        if r10.is_err() {
            return r10;
        }
        Ok(())
    }

    #[verifier::rlimit(100)]
    #[verifier::spinoff_prover]
    pub fn encoded_len(&self, version: i16) -> (r: Result<usize, Error>)
        ensures
            r == len_result(Self::spec_write(self@, version)),
    {
        if version < 4 || version > 18 {
            return Err(Error::UnsupportedVersion(UnsupportedVersion::new(1, version)));
        }
        let ghost m = self@;
        proof {
            reveal(FetchRequestData::spec_write_replica_id);
            reveal(FetchRequestData::spec_write_max_wait_ms);
            reveal(FetchRequestData::spec_write_min_bytes);
            reveal(FetchRequestData::spec_write_max_bytes);
            reveal(FetchRequestData::spec_write_isolation_level);
            reveal(FetchRequestData::spec_write_session_id);
            reveal(FetchRequestData::spec_write_session_epoch);
            reveal(FetchRequestData::spec_write_topics);
            reveal(FetchRequestData::spec_write_forgotten_topics_data);
            reveal(FetchRequestData::spec_write_rack_id);
            reveal(FetchRequestData::spec_write_tags);
        }
        let ghost s0 = Self::spec_write_replica_id(m, version);
        let ghost w0 = s0;
        let ghost s1 = Self::spec_write_max_wait_ms(m, version);
        let ghost w1 = chain(w0, s1);
        let ghost s2 = Self::spec_write_min_bytes(m, version);
        let ghost w2 = chain(w1, s2);
        let ghost s3 = Self::spec_write_max_bytes(m, version);
        let ghost w3 = chain(w2, s3);
        let ghost s4 = Self::spec_write_isolation_level(m, version);
        let ghost w4 = chain(w3, s4);
        let ghost s5 = Self::spec_write_session_id(m, version);
        let ghost w5 = chain(w4, s5);
        let ghost s6 = Self::spec_write_session_epoch(m, version);
        let ghost w6 = chain(w5, s6);
        let ghost s7 = Self::spec_write_topics(m, version);
        let ghost w7 = chain(w6, s7);
        let ghost s8 = Self::spec_write_forgotten_topics_data(m, version);
        let ghost w8 = chain(w7, s8);
        let ghost s9 = Self::spec_write_rack_id(m, version);
        let ghost w9 = chain(w8, s9);
        let ghost s10 = Self::spec_write_tags(m, version);
        let ghost w10 = chain(w9, s10);
        assert(Self::spec_write(m, version) == w10);
        assert(w9 is Err ==> w10 == w9);
        assert(w8 is Err ==> w10 == w8);
        assert(w7 is Err ==> w10 == w7);
        assert(w6 is Err ==> w10 == w6);
        assert(w5 is Err ==> w10 == w5);
        assert(w4 is Err ==> w10 == w4);
        assert(w3 is Err ==> w10 == w3);
        assert(w2 is Err ==> w10 == w2);
        assert(w1 is Err ==> w10 == w1);
        assert(w0 is Err ==> w10 == w0);
        let mut len: usize = 0;
        let l0 = if version <= 14 {
            Ok(4)
        } else {
            if self.replica_id != -1i32 {
                Err(Error::UnsupportedFieldVersion(UnsupportedFieldVersion::new(1, "replica_id", version)))
            } else {
                Ok(0)
            }
        };
        assert(l0 == len_result(s0));
        let n0 = match l0 {
            Ok(n) => n,
            Err(e) => {
                return Err(e);
            },
        };
        len = saturating_sum(len, n0);
        assert(w0 is Ok && len == saturate(written(w0).len() as int));
        let l1 = Ok(4);
        assert(l1 == len_result(s1));
        let n1 = match l1 {
            Ok(n) => n,
            Err(e) => {
                return Err(e);
            },
        };
        proof {
            lemma_len_step(w0, s1, n1);
        }
        len = saturating_sum(len, n1);
        assert(w1 is Ok && len == saturate(written(w1).len() as int));
        let l2 = Ok(4);
        assert(l2 == len_result(s2));
        let n2 = match l2 {
            Ok(n) => n,
            Err(e) => {
                return Err(e);
            },
        };
        proof {
            lemma_len_step(w1, s2, n2);
        }
        len = saturating_sum(len, n2);
        assert(w2 is Ok && len == saturate(written(w2).len() as int));
        let l3 = Ok(4);
        assert(l3 == len_result(s3));
        let n3 = match l3 {
            Ok(n) => n,
            Err(e) => {
                return Err(e);
            },
        };
        proof {
            lemma_len_step(w2, s3, n3);
        }
        len = saturating_sum(len, n3);
        assert(w3 is Ok && len == saturate(written(w3).len() as int));
        let l4 = Ok(1);
        assert(l4 == len_result(s4));
        let n4 = match l4 {
            Ok(n) => n,
            Err(e) => {
                return Err(e);
            },
        };
        proof {
            lemma_len_step(w3, s4, n4);
        }
        len = saturating_sum(len, n4);
        assert(w4 is Ok && len == saturate(written(w4).len() as int));
        let l5 = if version >= 7 {
            Ok(4)
        } else {
            if self.session_id != 0i32 {
                Err(Error::UnsupportedFieldVersion(UnsupportedFieldVersion::new(1, "session_id", version)))
            } else {
                Ok(0)
            }
        };
        assert(l5 == len_result(s5));
        let n5 = match l5 {
            Ok(n) => n,
            Err(e) => {
                return Err(e);
            },
        };
        proof {
            lemma_len_step(w4, s5, n5);
        }
        len = saturating_sum(len, n5);
        assert(w5 is Ok && len == saturate(written(w5).len() as int));
        let l6 = if version >= 7 {
            Ok(4)
        } else {
            if self.session_epoch != -1i32 {
                Err(Error::UnsupportedFieldVersion(UnsupportedFieldVersion::new(1, "session_epoch", version)))
            } else {
                Ok(0)
            }
        };
        assert(l6 == len_result(s6));
        let n6 = match l6 {
            Ok(n) => n,
            Err(e) => {
                return Err(e);
            },
        };
        proof {
            lemma_len_step(w5, s6, n6);
        }
        len = saturating_sum(len, n6);
        assert(w6 is Ok && len == saturate(written(w6).len() as int));
        let l7 = if version >= 12 {
            array_len::<FetchTopic>(&self.topics, version, true)
        } else {
            array_len::<FetchTopic>(&self.topics, version, false)
        };
        assert(l7 == len_result(s7));
        let n7 = match l7 {
            Ok(n) => n,
            Err(e) => {
                return Err(e);
            },
        };
        proof {
            lemma_len_step(w6, s7, n7);
        }
        len = saturating_sum(len, n7);
        assert(w7 is Ok && len == saturate(written(w7).len() as int));
        let l8 = if version >= 7 {
            if version >= 12 {
                array_len::<ForgottenTopic>(&self.forgotten_topics_data, version, true)
            } else {
                array_len::<ForgottenTopic>(&self.forgotten_topics_data, version, false)
            }
        } else {
            if self.forgotten_topics_data.len() != 0 {
                Err(Error::UnsupportedFieldVersion(UnsupportedFieldVersion::new(1, "forgotten_topics_data", version)))
            } else {
                Ok(0)
            }
        };
        assert(l8 == len_result(s8));
        let n8 = match l8 {
            Ok(n) => n,
            Err(e) => {
                return Err(e);
            },
        };
        proof {
            lemma_len_step(w7, s8, n8);
        }
        len = saturating_sum(len, n8);
        assert(w8 is Ok && len == saturate(written(w8).len() as int));
        let l9 = if version >= 11 {
            if version >= 12 {
                compact_string_len(&self.rack_id)
            } else {
                string_len(&self.rack_id)
            }
        } else {
            if !self.rack_id.is_empty() {
                Err(Error::UnsupportedFieldVersion(UnsupportedFieldVersion::new(1, "rack_id", version)))
            } else {
                Ok(0)
            }
        };
        assert(l9 == len_result(s9));
        let n9 = match l9 {
            Ok(n) => n,
            Err(e) => {
                return Err(e);
            },
        };
        proof {
            lemma_len_step(w8, s9, n9);
        }
        len = saturating_sum(len, n9);
        assert(w9 is Ok && len == saturate(written(w9).len() as int));
        let l10 = if version >= 12 {
            match self.known_tagged_fields(version) {
                Err(e) => Err(e),
                Ok(known) => {
                    let all = append_fields(known, &self._unknown_tagged_fields);
                    tagged_fields_len(&sort_by_tag(&all))
                },
            }
        } else {
            Ok(0)
        };
        assert(l10 == len_result(s10));
        let n10 = match l10 {
            Ok(n) => n,
            Err(e) => {
                return Err(e);
            },
        };
        proof {
            lemma_len_step(w9, s10, n10);
        }
        len = saturating_sum(len, n10);
        assert(w10 is Ok && len == saturate(written(w10).len() as int));
        Ok(len)
    }
}

#[derive(Debug, PartialEq)]
pub struct ReplicaState {
    /// The replica ID of the follower, or -1 if this request is from a consumer.
    pub replica_id: i32,
    /// The epoch of this follower, or -1 if not available.
    pub replica_epoch: i64,
    pub _unknown_tagged_fields: Vec<RawTaggedField>,
}

/// What a `ReplicaState` holds, as the specification sees it.
#[verifier::ext_equal]
pub struct ReplicaStateView {
    pub replica_id: i32,
    pub replica_epoch: i64,
    pub unknown_tagged_fields: Seq<(u32, Seq<u8>)>,
}

impl View for ReplicaState {
    type V = ReplicaStateView;

    open spec fn view(&self) -> ReplicaStateView {
        ReplicaStateView {
            replica_id: self.replica_id,
            replica_epoch: self.replica_epoch,
            unknown_tagged_fields: views(self._unknown_tagged_fields@),
        }
    }
}

impl Clone for ReplicaState {
    fn clone(&self) -> (r: Self)
        ensures
            r@ == self@,
    {
        let r = ReplicaState {
            replica_id: self.replica_id,
            replica_epoch: self.replica_epoch,
            _unknown_tagged_fields: clone_vec(&self._unknown_tagged_fields),
        };
        assert(r@ =~= self@);
        r
    }
}

impl ViewClone for ReplicaState {
    fn clone_view(&self) -> (r: Self) {
        self.clone()
    }
}

impl Default for ReplicaState {
    fn default() -> (r: Self)
        ensures
            r@ == Self::default_view(),
    {
        let r = ReplicaState {
            replica_id: -1i32,
            replica_epoch: -1i64,
            _unknown_tagged_fields: empty_vec(),
        };
        assert(r@ =~= Self::default_view());
        r
    }
}

impl ReplicaState {
    pub open spec fn default_view() -> ReplicaStateView {
        ReplicaStateView {
            replica_id: -1i32,
            replica_epoch: -1i64,
            unknown_tagged_fields: Seq::empty(),
        }
    }

    /// The `replica_id` field, read from the front of `s`.
    #[verifier::opaque]
    pub open spec fn spec_read_replica_id(s: Seq<u8>, version: i16) -> ReadOutcome<i32> {
        spec_read_i32(s)
    }

    /// The `replica_epoch` field, read from the front of `s`.
    #[verifier::opaque]
    pub open spec fn spec_read_replica_epoch(s: Seq<u8>, version: i16) -> ReadOutcome<i64> {
        spec_read_i64(s)
    }

    /// The tagged fields, read from the front of `s`.
    #[verifier::opaque]
    pub open spec fn spec_read_tags(s: Seq<u8>, version: i16) -> ReadOutcome<Seq<(u32, Seq<u8>)>> {
        spec_read_tagged_fields(s)
    }

    pub open spec fn spec_read(s: Seq<u8>, version: i16) -> ReadOutcome<ReplicaStateView> {
        match (Self::spec_read_replica_id(s, version)) {
            Err(e) => Err(e),
            Ok((replica_id, s)) => match (Self::spec_read_replica_epoch(s, version)) {
                Err(e) => Err(e),
                Ok((replica_epoch, s)) => match (Self::spec_read_tags(s, version)) {
                    Err(e) => Err(e),
                    Ok((unknown_tagged_fields, s)) => Ok((ReplicaStateView {
                                replica_id: replica_id,
                                replica_epoch: replica_epoch,
                                unknown_tagged_fields: unknown_tagged_fields,
                            }, s)),
                },
            },
        }
    }

    /// What writing the `replica_id` field of `m` appends.
    #[verifier::opaque]
    pub open spec fn spec_write_replica_id(m: ReplicaStateView, version: i16) -> WriteOutcome {
        spec_write_i32(m.replica_id)
    }

    /// What writing the `replica_epoch` field of `m` appends.
    #[verifier::opaque]
    pub open spec fn spec_write_replica_epoch(m: ReplicaStateView, version: i16) -> WriteOutcome {
        spec_write_i64(m.replica_epoch)
    }

    /// What writing the tagged fields of `m` appends.
    #[verifier::opaque]
    pub open spec fn spec_write_tags(m: ReplicaStateView, version: i16) -> WriteOutcome {
        spec_write_tagged_fields(sorted_by_tag(m.unknown_tagged_fields))
    }

    pub open spec fn spec_write(m: ReplicaStateView, version: i16) -> WriteOutcome {
        chain(
            chain(
                Self::spec_write_replica_id(m, version),
                Self::spec_write_replica_epoch(m, version),
            ),
            Self::spec_write_tags(m, version),
        )
    }

    /// Whether reading back what writing `m` in `version` appends gives `m`:
    /// fields that the version does not carry hold their default values, and
    /// tagged fields come in the order in which they are written.
    pub open spec fn canonical(m: ReplicaStateView, version: i16) -> bool {
        &&& tags_in_order(m.unknown_tagged_fields)
    }

    proof fn lemma_round_trip_replica_id(m: ReplicaStateView, version: i16, rest: Seq<u8>)
        requires
            Self::canonical(m, version),
            Self::spec_write_replica_id(m, version) is Ok,
        ensures
            Self::spec_read_replica_id(written(Self::spec_write_replica_id(m, version)) + rest, version) == Ok::<(i32, Seq<u8>), Error>((m.replica_id, rest)),
    {
        reveal(ReplicaState::spec_read_replica_id);
        reveal(ReplicaState::spec_write_replica_id);
        lemma_i32_roundtrip(m.replica_id, rest);
    }

    proof fn lemma_round_trip_replica_epoch(m: ReplicaStateView, version: i16, rest: Seq<u8>)
        requires
            Self::canonical(m, version),
            Self::spec_write_replica_epoch(m, version) is Ok,
        ensures
            Self::spec_read_replica_epoch(written(Self::spec_write_replica_epoch(m, version)) + rest, version) == Ok::<(i64, Seq<u8>), Error>((m.replica_epoch, rest)),
    {
        reveal(ReplicaState::spec_read_replica_epoch);
        reveal(ReplicaState::spec_write_replica_epoch);
        lemma_i64_roundtrip(m.replica_epoch, rest);
    }

    proof fn lemma_round_trip_tags(m: ReplicaStateView, version: i16, rest: Seq<u8>)
        requires
            Self::canonical(m, version),
            Self::spec_write_tags(m, version) is Ok,
        ensures
            Self::spec_read_tags(written(Self::spec_write_tags(m, version)) + rest, version) == Ok::<(Seq<(u32, Seq<u8>)>, Seq<u8>), Error>((m.unknown_tagged_fields, rest)),
    {
        reveal(ReplicaState::spec_read_tags);
        reveal(ReplicaState::spec_write_tags);
        lemma_sorted_by_tag_in_order(m.unknown_tagged_fields);
        lemma_tagged_fields_round_trip(m.unknown_tagged_fields, rest);
    }

    /// Reading back what writing `m` in `version` appends gives `m` again, and
    /// leaves what follows, for every canonical message whose write succeeds.
    #[verifier::rlimit(70)]
    #[verifier::spinoff_prover]
    pub proof fn lemma_round_trip(m: ReplicaStateView, version: i16, rest: Seq<u8>)
        requires
            Self::canonical(m, version),
            Self::spec_write(m, version) is Ok,
        ensures
            Self::spec_read(written(Self::spec_write(m, version)) + rest, version) == Ok::<(ReplicaStateView, Seq<u8>), Error>((m, rest)),
    {
        let b0 = written(Self::spec_write_replica_id(m, version));
        let b1 = written(Self::spec_write_replica_epoch(m, version));
        let b2 = written(Self::spec_write_tags(m, version));
        let t3 = rest;
        let t2 = b2 + t3;
        let t1 = b1 + t2;
        let t0 = b0 + t1;
        let w0 = Self::spec_write_replica_id(m, version);
        let w1 = chain(w0, Self::spec_write_replica_epoch(m, version));
        let w2 = chain(w1, Self::spec_write_tags(m, version));
        assert(Self::spec_write(m, version) == w2);
        assert(written(w2) + t3 =~= written(w1) + t2);
        assert(written(w1) + t2 =~= written(w0) + t1);
        Self::lemma_round_trip_replica_id(m, version, t1);
        Self::lemma_round_trip_replica_epoch(m, version, t2);
        Self::lemma_round_trip_tags(m, version, t3);
    }

    /// The default message holds the default value of each field of the schema.
    pub proof fn lemma_default_values()
        ensures
            Self::default_view().replica_id == (-1i32),
            Self::default_view().replica_epoch == (-1i64),
            Self::default_view().unknown_tagged_fields.len() == 0,
    {
    }

    /// Each integer, boolean and identifier field is written as its standard
    /// big-endian bytes (a boolean as `1` or `0`) in the versions that carry
    /// it, and as nothing in the others; reading it takes those bytes back (any
    /// byte other than `0` reads as `true`), or gives its default value.
    pub proof fn lemma_field_encodings(m: ReplicaStateView, s: Seq<u8>, version: i16)
        ensures
            true ==> Self::spec_write_replica_id(m, version) == Ok::<Seq<u8>, (Error, Seq<u8>)>(u32_bytes(m.replica_id as u32)),
            true ==> Self::spec_write_replica_epoch(m, version) == Ok::<Seq<u8>, (Error, Seq<u8>)>(u64_bytes(m.replica_epoch as u64)),
            true ==> Self::spec_read_replica_id(s, version) == spec_read_i32(s),
            true ==> Self::spec_read_replica_epoch(s, version) == spec_read_i64(s),
    {
        reveal(ReplicaState::spec_write_replica_id);
        reveal(ReplicaState::spec_read_replica_id);
        reveal(ReplicaState::spec_write_replica_epoch);
        reveal(ReplicaState::spec_read_replica_epoch);
    }

    /// Whether writing `m` in `version` succeeds, said over its parts: the
    /// version is one the schema covers, every field that the version cannot
    /// carry holds its default value, and every string, byte string, array and
    /// tagged field fits its length prefix.
    pub open spec fn writable(m: ReplicaStateView, version: i16) -> bool {
        &&& m.unknown_tagged_fields.len() <= u32::MAX && tags_fit(m.unknown_tagged_fields)
    }

    proof fn lemma_writable_replica_id(m: ReplicaStateView, version: i16)
        ensures
            Self::spec_write_replica_id(m, version) is Ok <==> true,
    {
        reveal(ReplicaState::spec_write_replica_id);
    }

    proof fn lemma_writable_replica_epoch(m: ReplicaStateView, version: i16)
        ensures
            Self::spec_write_replica_epoch(m, version) is Ok <==> true,
    {
        reveal(ReplicaState::spec_write_replica_epoch);
    }

    proof fn lemma_writable_tags(m: ReplicaStateView, version: i16)
        ensures
            Self::spec_write_tags(m, version) is Ok <==> m.unknown_tagged_fields.len() <= u32::MAX && tags_fit(m.unknown_tagged_fields),
    {
        reveal(ReplicaState::spec_write_tags);
        lemma_sorted_tags_fit(m.unknown_tagged_fields);
        lemma_tagged_fields_writable(sorted_by_tag(m.unknown_tagged_fields));
    }

    /// Writing `m` in `version` succeeds exactly when `m` is writable in it;
    /// so do `write` and `encoded_len`, whose results follow `spec_write`.
    #[verifier::rlimit(48)]
    pub proof fn lemma_writable(m: ReplicaStateView, version: i16)
        ensures
            Self::spec_write(m, version) is Ok <==> Self::writable(m, version),
    {
        Self::lemma_writable_replica_id(m, version);
        Self::lemma_writable_replica_epoch(m, version);
        Self::lemma_writable_tags(m, version);
    }

    pub fn with_replica_id(self, value: i32) -> (r: Self)
        ensures
            r@ == (ReplicaStateView { replica_id: value, ..self@ }),
    {
        let mut r = self;
        r.replica_id = value;
        r
    }

    pub fn with_replica_epoch(self, value: i64) -> (r: Self)
        ensures
            r@ == (ReplicaStateView { replica_epoch: value, ..self@ }),
    {
        let mut r = self;
        r.replica_epoch = value;
        r
    }

    /// Whether `v` is what `default` gives.
    pub open spec fn is_default_view(v: ReplicaStateView) -> bool {
        &&& v.replica_id == -1i32
        &&& v.replica_epoch == -1i64
        &&& v.unknown_tagged_fields.len() == 0
    }

    /// `is_default_view` holds of exactly the value that `default` gives.
    pub proof fn lemma_is_default(v: ReplicaStateView)
        ensures
            Self::is_default_view(v) <==> v == Self::default_view(),
    {
        if Self::is_default_view(v) {
            assert(v.unknown_tagged_fields =~= Seq::empty());
        }
    }

    /// Whether this is what `default` gives.
    pub fn is_default(&self) -> (r: bool)
        ensures
            r == Self::is_default_view(self@),
    {
        self.replica_id == -1i32 && self.replica_epoch == -1i64 && self._unknown_tagged_fields.len() == 0
    }

    fn read_replica_id(buf: &mut Bytes, version: i16) -> (r: Result<i32, Error>)
        ensures
            read_as(Self::spec_read_replica_id(bytes_seq(*old(buf)), version), *final(buf), r),
            took_front(*old(buf), *final(buf)),
    {
        proof {
            reveal(ReplicaState::spec_read_replica_id);
        }
        Ok(read_i32(buf)?)
    }

    fn read_replica_epoch(buf: &mut Bytes, version: i16) -> (r: Result<i64, Error>)
        ensures
            read_as(Self::spec_read_replica_epoch(bytes_seq(*old(buf)), version), *final(buf), r),
            took_front(*old(buf), *final(buf)),
    {
        proof {
            reveal(ReplicaState::spec_read_replica_epoch);
        }
        Ok(read_i64(buf)?)
    }

    fn read_tags(buf: &mut Bytes, version: i16) -> (r: Result<Vec<RawTaggedField>, Error>)
        ensures
            read_vec_as(Self::spec_read_tags(bytes_seq(*old(buf)), version), *final(buf), r),
            took_front(*old(buf), *final(buf)),
    {
        proof {
            reveal(ReplicaState::spec_read_tags);
        }
        Ok(read_tagged_fields(buf)?)
    }

    pub fn read(buf: &mut Bytes, version: i16) -> (r: Result<Self, Error>)
        ensures
            read_as(Self::spec_read(bytes_seq(*old(buf)), version), *final(buf), r),
            took_front(*old(buf), *final(buf)),
    {
        let replica_id = Self::read_replica_id(buf, version)?;
        let replica_epoch = Self::read_replica_epoch(buf, version)?;
        let _unknown_tagged_fields = Self::read_tags(buf, version)?;
        Ok(ReplicaState {
                replica_id: replica_id,
                replica_epoch: replica_epoch,
                _unknown_tagged_fields: _unknown_tagged_fields,
        })
    }

    #[verifier::rlimit(60)]
    pub fn write(&self, buf: &mut BytesMut, version: i16) -> (r: Result<(), Error>)
        requires
            has_room(Self::spec_write(self@, version), *old(buf)),
        ensures
            wrote(Self::spec_write(self@, version), *old(buf), *final(buf), r),
    {
        let ghost m = self@;
        proof {
            reveal(ReplicaState::spec_write_replica_id);
            reveal(ReplicaState::spec_write_replica_epoch);
            reveal(ReplicaState::spec_write_tags);
        }
        let ghost s0 = Self::spec_write_replica_id(m, version);
        let ghost w0 = s0;
        let ghost s1 = Self::spec_write_replica_epoch(m, version);
        let ghost w1 = chain(w0, s1);
        let ghost s2 = Self::spec_write_tags(m, version);
        let ghost w2 = chain(w1, s2);
        assert(Self::spec_write(m, version) == w2);
        assert(written(w1).len() <= written(w2).len() && (w1 is Err ==> w2 == w1));
        assert(written(w0).len() <= written(w2).len() && (w0 is Err ==> w2 == w0));
        let ghost mid = bytes_mut_seq(*buf);
        proof {
            lemma_append_empty(mid);
        }
        let r0 = {
            write_i32(buf, self.replica_id);
            Ok(())
        };
        assert(bytes_mut_seq(*buf) == mid + written(s0));
        if r0.is_err() {
            return r0;
        }
        let ghost mid = bytes_mut_seq(*buf);
        proof {
            lemma_append_empty(mid);
        }
        let r1 = {
            write_i64(buf, self.replica_epoch);
            Ok(())
        };
        assert(bytes_mut_seq(*buf) == mid + written(s1));
        proof {
            lemma_step(bytes_mut_seq(*old(buf)), w0, s1);
        }
        if r1.is_err() {
            return r1;
        }
        let ghost mid = bytes_mut_seq(*buf);
        proof {
            lemma_append_empty(mid);
        }
        let r2 = write_tagged_fields(buf, &sort_by_tag(&self._unknown_tagged_fields));
        assert(bytes_mut_seq(*buf) == mid + written(s2));
        proof {
            lemma_step(bytes_mut_seq(*old(buf)), w1, s2);
        }
        if r2.is_err() {
            return r2;
        }
        Ok(())
    }

    #[verifier::rlimit(60)]
    pub fn encoded_len(&self, version: i16) -> (r: Result<usize, Error>)
        ensures
            r == len_result(Self::spec_write(self@, version)),
    {
        let ghost m = self@;
        proof {
            reveal(ReplicaState::spec_write_replica_id);
            reveal(ReplicaState::spec_write_replica_epoch);
            reveal(ReplicaState::spec_write_tags);
        }
        let ghost s0 = Self::spec_write_replica_id(m, version);
        let ghost w0 = s0;
        let ghost s1 = Self::spec_write_replica_epoch(m, version);
        let ghost w1 = chain(w0, s1);
        let ghost s2 = Self::spec_write_tags(m, version);
        let ghost w2 = chain(w1, s2);
        assert(Self::spec_write(m, version) == w2);
        assert(w1 is Err ==> w2 == w1);
        assert(w0 is Err ==> w2 == w0);
        let mut len: usize = 0;
        let l0 = Ok(4);
        assert(l0 == len_result(s0));
        let n0 = match l0 {
            Ok(n) => n,
            Err(e) => {
                return Err(e);
            },
        };
        len = saturating_sum(len, n0);
        assert(w0 is Ok && len == saturate(written(w0).len() as int));
        let l1 = Ok(8);
        assert(l1 == len_result(s1));
        let n1 = match l1 {
            Ok(n) => n,
            Err(e) => {
                return Err(e);
            },
        };
        proof {
            lemma_len_step(w0, s1, n1);
        }
        len = saturating_sum(len, n1);
        assert(w1 is Ok && len == saturate(written(w1).len() as int));
        let l2 = tagged_fields_len(&sort_by_tag(&self._unknown_tagged_fields));
        assert(l2 == len_result(s2));
        let n2 = match l2 {
            Ok(n) => n,
            Err(e) => {
                return Err(e);
            },
        };
        proof {
            lemma_len_step(w1, s2, n2);
        }
        len = saturating_sum(len, n2);
        assert(w2 is Ok && len == saturate(written(w2).len() as int));
        Ok(len)
    }
}

#[derive(Debug, PartialEq)]
pub struct FetchTopic {
    /// The name of the topic to fetch.
    pub topic: KafkaString,
    /// The unique topic ID.
    pub topic_id: KafkaUuid,
    /// The partitions to fetch.
    pub partitions: Vec<FetchPartition>,
    pub _unknown_tagged_fields: Vec<RawTaggedField>,
}

/// What a `FetchTopic` holds, as the specification sees it.
#[verifier::ext_equal]
pub struct FetchTopicView {
    pub topic: Seq<u8>,
    pub topic_id: KafkaUuid,
    pub partitions: Seq<FetchPartitionView>,
    pub unknown_tagged_fields: Seq<(u32, Seq<u8>)>,
}

impl View for FetchTopic {
    type V = FetchTopicView;

    open spec fn view(&self) -> FetchTopicView {
        FetchTopicView {
            topic: self.topic@,
            topic_id: self.topic_id,
            partitions: views(self.partitions@),
            unknown_tagged_fields: views(self._unknown_tagged_fields@),
        }
    }
}

impl Clone for FetchTopic {
    fn clone(&self) -> (r: Self)
        ensures
            r@ == self@,
    {
        let r = FetchTopic {
            topic: self.topic.clone(),
            topic_id: self.topic_id,
            partitions: clone_vec(&self.partitions),
            _unknown_tagged_fields: clone_vec(&self._unknown_tagged_fields),
        };
        assert(r@ =~= self@);
        r
    }
}

impl ViewClone for FetchTopic {
    fn clone_view(&self) -> (r: Self) {
        self.clone()
    }
}

impl Default for FetchTopic {
    fn default() -> (r: Self)
        ensures
            r@ == Self::default_view(),
    {
        let r = FetchTopic {
            topic: KafkaString::default(),
            topic_id: KafkaUuid::zero(),
            partitions: empty_vec(),
            _unknown_tagged_fields: empty_vec(),
        };
        assert(r@ =~= Self::default_view());
        r
    }
}

impl FetchTopic {
    pub open spec fn default_view() -> FetchTopicView {
        FetchTopicView {
            topic: Seq::empty(),
            topic_id: KafkaUuid { most_significant_bits: 0, least_significant_bits: 0 },
            partitions: Seq::empty(),
            unknown_tagged_fields: Seq::empty(),
        }
    }

    /// The `topic` field, read from the front of `s`.
    #[verifier::opaque]
    pub open spec fn spec_read_topic(s: Seq<u8>, version: i16) -> ReadOutcome<Seq<u8>> {
        if version <= 12 {
            if version >= 12 {
                spec_read_compact_string(s)
            } else {
                spec_read_string(s)
            }
        } else {
            Ok((Seq::empty(), s))
        }
    }

    /// The `topic_id` field, read from the front of `s`.
    #[verifier::opaque]
    pub open spec fn spec_read_topic_id(s: Seq<u8>, version: i16) -> ReadOutcome<KafkaUuid> {
        if version >= 13 {
            spec_read_uuid(s)
        } else {
            Ok((KafkaUuid { most_significant_bits: 0, least_significant_bits: 0 }, s))
        }
    }

    /// The `partitions` field, read from the front of `s`.
    #[verifier::opaque]
    pub open spec fn spec_read_partitions(s: Seq<u8>, version: i16) -> ReadOutcome<Seq<FetchPartitionView>> {
        if version >= 12 {
            spec_read_array::<FetchPartition>(s, version, true)
        } else {
            spec_read_array::<FetchPartition>(s, version, false)
        }
    }

    /// The tagged fields, read from the front of `s`.
    #[verifier::opaque]
    pub open spec fn spec_read_tags(s: Seq<u8>, version: i16) -> ReadOutcome<Seq<(u32, Seq<u8>)>> {
        if version >= 12 {
            spec_read_tagged_fields(s)
        } else {
            Ok((Seq::empty(), s))
        }
    }

    pub open spec fn spec_read(s: Seq<u8>, version: i16) -> ReadOutcome<FetchTopicView> {
        match (Self::spec_read_topic(s, version)) {
            Err(e) => Err(e),
            Ok((topic, s)) => match (Self::spec_read_topic_id(s, version)) {
                Err(e) => Err(e),
                Ok((topic_id, s)) => match (Self::spec_read_partitions(s, version)) {
                    Err(e) => Err(e),
                    Ok((partitions, s)) => match (Self::spec_read_tags(s, version)) {
                        Err(e) => Err(e),
                        Ok((unknown_tagged_fields, s)) => Ok((FetchTopicView {
                                    topic: topic,
                                    topic_id: topic_id,
                                    partitions: partitions,
                                    unknown_tagged_fields: unknown_tagged_fields,
                                }, s)),
                    },
                },
            },
        }
    }

    /// What writing the `topic` field of `m` appends.
    #[verifier::opaque]
    pub open spec fn spec_write_topic(m: FetchTopicView, version: i16) -> WriteOutcome {
        if version <= 12 {
            if version >= 12 {
                spec_write_compact_string(m.topic)
            } else {
                spec_write_string(m.topic)
            }
        } else {
            if m.topic.len() != 0 {
                fail(Error::UnsupportedFieldVersion(UnsupportedFieldVersion { api_key: 1, field: "topic", version }))
            } else {
                emit(Seq::empty())
            }
        }
    }

    /// What writing the `topic_id` field of `m` appends.
    #[verifier::opaque]
    pub open spec fn spec_write_topic_id(m: FetchTopicView, version: i16) -> WriteOutcome {
        if version >= 13 {
            spec_write_uuid(m.topic_id)
        } else {
            if !uuid_is_nil(m.topic_id) {
                fail(Error::UnsupportedFieldVersion(UnsupportedFieldVersion { api_key: 1, field: "topic_id", version }))
            } else {
                emit(Seq::empty())
            }
        }
    }

    /// What writing the `partitions` field of `m` appends.
    #[verifier::opaque]
    pub open spec fn spec_write_partitions(m: FetchTopicView, version: i16) -> WriteOutcome {
        if version >= 12 {
            spec_write_array::<FetchPartition>(m.partitions, version, true)
        } else {
            spec_write_array::<FetchPartition>(m.partitions, version, false)
        }
    }

    /// What writing the tagged fields of `m` appends.
    #[verifier::opaque]
    pub open spec fn spec_write_tags(m: FetchTopicView, version: i16) -> WriteOutcome {
        if version >= 12 {
            spec_write_tagged_fields(sorted_by_tag(m.unknown_tagged_fields))
        } else {
            emit(Seq::empty())
        }
    }

    pub open spec fn spec_write(m: FetchTopicView, version: i16) -> WriteOutcome {
        chain(
            chain(
                chain(
                    Self::spec_write_topic(m, version),
                    Self::spec_write_topic_id(m, version),
                ),
                Self::spec_write_partitions(m, version),
            ),
            Self::spec_write_tags(m, version),
        )
    }

    /// Whether reading back what writing `m` in `version` appends gives `m`:
    /// fields that the version does not carry hold their default values, and
    /// tagged fields come in the order in which they are written.
    pub open spec fn canonical(m: FetchTopicView, version: i16) -> bool {
        &&& all_canonical::<FetchPartition>(m.partitions, version)
        &&& (if version >= 12 {
                tags_in_order(m.unknown_tagged_fields)
            } else {
                m.unknown_tagged_fields.len() == 0
        })
    }

    proof fn lemma_round_trip_topic(m: FetchTopicView, version: i16, rest: Seq<u8>)
        requires
            Self::canonical(m, version),
            Self::spec_write_topic(m, version) is Ok,
        ensures
            Self::spec_read_topic(written(Self::spec_write_topic(m, version)) + rest, version) == Ok::<(Seq<u8>, Seq<u8>), Error>((m.topic, rest)),
    {
        reveal(FetchTopic::spec_read_topic);
        reveal(FetchTopic::spec_write_topic);
        if version <= 12 {
            if version >= 12 {
                lemma_compact_string_round_trip(m.topic, rest);
            } else {
                lemma_string_round_trip(m.topic, rest);
            }
        } else {
            assert(Seq::<u8>::empty() + rest =~= rest);
            assert(m.topic =~= Seq::empty());
            assert(m.topic =~= Seq::empty());
        }
    }

    proof fn lemma_round_trip_topic_id(m: FetchTopicView, version: i16, rest: Seq<u8>)
        requires
            Self::canonical(m, version),
            Self::spec_write_topic_id(m, version) is Ok,
        ensures
            Self::spec_read_topic_id(written(Self::spec_write_topic_id(m, version)) + rest, version) == Ok::<(KafkaUuid, Seq<u8>), Error>((m.topic_id, rest)),
    {
        reveal(FetchTopic::spec_read_topic_id);
        reveal(FetchTopic::spec_write_topic_id);
        if version >= 13 {
            lemma_uuid_round_trip(m.topic_id, rest);
        } else {
            assert(Seq::<u8>::empty() + rest =~= rest);
        }
    }

    proof fn lemma_round_trip_partitions(m: FetchTopicView, version: i16, rest: Seq<u8>)
        requires
            Self::canonical(m, version),
            Self::spec_write_partitions(m, version) is Ok,
        ensures
            Self::spec_read_partitions(written(Self::spec_write_partitions(m, version)) + rest, version) == Ok::<(Seq<FetchPartitionView>, Seq<u8>), Error>((m.partitions, rest)),
    {
        reveal(FetchTopic::spec_read_partitions);
        reveal(FetchTopic::spec_write_partitions);
        if version >= 12 {
            lemma_array_round_trip::<FetchPartition>(m.partitions, version, true, rest);
        } else {
            lemma_array_round_trip::<FetchPartition>(m.partitions, version, false, rest);
        }
    }

    proof fn lemma_round_trip_tags(m: FetchTopicView, version: i16, rest: Seq<u8>)
        requires
            Self::canonical(m, version),
            Self::spec_write_tags(m, version) is Ok,
        ensures
            Self::spec_read_tags(written(Self::spec_write_tags(m, version)) + rest, version) == Ok::<(Seq<(u32, Seq<u8>)>, Seq<u8>), Error>((m.unknown_tagged_fields, rest)),
    {
        reveal(FetchTopic::spec_read_tags);
        reveal(FetchTopic::spec_write_tags);
        if version >= 12 {
            lemma_sorted_by_tag_in_order(m.unknown_tagged_fields);
            lemma_tagged_fields_round_trip(m.unknown_tagged_fields, rest);
        } else {
            assert(Seq::<u8>::empty() + rest =~= rest);
            assert(m.unknown_tagged_fields =~= Seq::empty());
        }
    }

    /// Reading back what writing `m` in `version` appends gives `m` again, and
    /// leaves what follows, for every canonical message whose write succeeds.
    #[verifier::rlimit(80)]
    #[verifier::spinoff_prover]
    pub proof fn lemma_round_trip(m: FetchTopicView, version: i16, rest: Seq<u8>)
        requires
            Self::canonical(m, version),
            Self::spec_write(m, version) is Ok,
        ensures
            Self::spec_read(written(Self::spec_write(m, version)) + rest, version) == Ok::<(FetchTopicView, Seq<u8>), Error>((m, rest)),
    {
        let b0 = written(Self::spec_write_topic(m, version));
        let b1 = written(Self::spec_write_topic_id(m, version));
        let b2 = written(Self::spec_write_partitions(m, version));
        let b3 = written(Self::spec_write_tags(m, version));
        let t4 = rest;
        let t3 = b3 + t4;
        let t2 = b2 + t3;
        let t1 = b1 + t2;
        let t0 = b0 + t1;
        let w0 = Self::spec_write_topic(m, version);
        let w1 = chain(w0, Self::spec_write_topic_id(m, version));
        let w2 = chain(w1, Self::spec_write_partitions(m, version));
        let w3 = chain(w2, Self::spec_write_tags(m, version));
        assert(Self::spec_write(m, version) == w3);
        assert(written(w3) + t4 =~= written(w2) + t3);
        assert(written(w2) + t3 =~= written(w1) + t2);
        assert(written(w1) + t2 =~= written(w0) + t1);
        Self::lemma_round_trip_topic(m, version, t1);
        Self::lemma_round_trip_topic_id(m, version, t2);
        Self::lemma_round_trip_partitions(m, version, t3);
        Self::lemma_round_trip_tags(m, version, t4);
    }

    /// In a version that does not carry `unknown_tagged_fields`, writing ignores its value.
    pub proof fn lemma_write_ignores_unknown_tagged_fields(m: FetchTopicView, value: Seq<(u32, Seq<u8>)>, version: i16)
        requires
            !(version >= 12),
        ensures
            Self::spec_write((FetchTopicView { unknown_tagged_fields: value, ..m }), version) == Self::spec_write(m, version),
    {
        reveal(FetchTopic::spec_write_topic);
        reveal(FetchTopic::spec_write_topic_id);
        reveal(FetchTopic::spec_write_partitions);
        reveal(FetchTopic::spec_write_tags);
    }

    /// The default message holds the default value of each field of the schema.
    pub proof fn lemma_default_values()
        ensures
            Self::default_view().topic.len() == 0,
            Self::default_view().topic_id == (KafkaUuid { most_significant_bits: 0, least_significant_bits: 0 }),
            Self::default_view().partitions.len() == 0,
            Self::default_view().unknown_tagged_fields.len() == 0,
    {
    }

    /// Each integer, boolean and identifier field is written as its standard
    /// big-endian bytes (a boolean as `1` or `0`) in the versions that carry
    /// it, and as nothing in the others; reading it takes those bytes back (any
    /// byte other than `0` reads as `true`), or gives its default value.
    pub proof fn lemma_field_encodings(m: FetchTopicView, s: Seq<u8>, version: i16)
        ensures
            version >= 13 ==> Self::spec_write_topic_id(m, version) == Ok::<Seq<u8>, (Error, Seq<u8>)>((u64_bytes(m.topic_id.most_significant_bits) + u64_bytes(m.topic_id.least_significant_bits))),
            version >= 13 ==> Self::spec_read_topic_id(s, version) == spec_read_uuid(s),
    {
        reveal(FetchTopic::spec_write_topic_id);
        reveal(FetchTopic::spec_read_topic_id);
    }

    /// Whether writing `m` in `version` succeeds, said over its parts: the
    /// version is one the schema covers, every field that the version cannot
    /// carry holds its default value, and every string, byte string, array and
    /// tagged field fits its length prefix.
    pub open spec fn writable(m: FetchTopicView, version: i16) -> bool {
        &&& (if version <= 12 {
                m.topic.len() <= 0x7fff
            } else {
                !(m.topic.len() != 0)
        })
        &&& (if version >= 13 {
                true
            } else {
                !(!uuid_is_nil(m.topic_id))
        })
        &&& (m.partitions.len() <= i32::MAX && all_writable::<FetchPartition>(m.partitions, version))
        &&& (if version >= 12 {
                m.unknown_tagged_fields.len() <= u32::MAX && tags_fit(m.unknown_tagged_fields)
            } else {
                true
        })
    }

    proof fn lemma_writable_topic(m: FetchTopicView, version: i16)
        ensures
            Self::spec_write_topic(m, version) is Ok <==> (if version <= 12 { m.topic.len() <= 0x7fff } else { !(m.topic.len() != 0) }),
    {
        reveal(FetchTopic::spec_write_topic);
    }

    proof fn lemma_writable_topic_id(m: FetchTopicView, version: i16)
        ensures
            Self::spec_write_topic_id(m, version) is Ok <==> (if version >= 13 { true } else { !(!uuid_is_nil(m.topic_id)) }),
    {
        reveal(FetchTopic::spec_write_topic_id);
    }

    proof fn lemma_writable_partitions(m: FetchTopicView, version: i16)
        ensures
            Self::spec_write_partitions(m, version) is Ok <==> (m.partitions.len() <= i32::MAX && all_writable::<FetchPartition>(m.partitions, version)),
    {
        reveal(FetchTopic::spec_write_partitions);
        if version >= 12 {
            lemma_array_writable::<FetchPartition>(m.partitions, version, true);
        } else {
            lemma_array_writable::<FetchPartition>(m.partitions, version, false);
        }
    }

    proof fn lemma_writable_tags(m: FetchTopicView, version: i16)
        ensures
            Self::spec_write_tags(m, version) is Ok <==> (if version >= 12 { m.unknown_tagged_fields.len() <= u32::MAX && tags_fit(m.unknown_tagged_fields) } else { true }),
    {
        reveal(FetchTopic::spec_write_tags);
        if version >= 12 {
            lemma_sorted_tags_fit(m.unknown_tagged_fields);
            lemma_tagged_fields_writable(sorted_by_tag(m.unknown_tagged_fields));
        }
    }

    /// Writing `m` in `version` succeeds exactly when `m` is writable in it;
    /// so do `write` and `encoded_len`, whose results follow `spec_write`.
    #[verifier::rlimit(54)]
    pub proof fn lemma_writable(m: FetchTopicView, version: i16)
        ensures
            Self::spec_write(m, version) is Ok <==> Self::writable(m, version),
    {
        Self::lemma_writable_topic(m, version);
        Self::lemma_writable_topic_id(m, version);
        Self::lemma_writable_partitions(m, version);
        Self::lemma_writable_tags(m, version);
    }

    pub fn with_topic(self, value: KafkaString) -> (r: Self)
        ensures
            r@ == (FetchTopicView { topic: value@, ..self@ }),
    {
        let mut r = self;
        r.topic = value;
        r
    }

    pub fn with_topic_id(self, value: KafkaUuid) -> (r: Self)
        ensures
            r@ == (FetchTopicView { topic_id: value, ..self@ }),
    {
        let mut r = self;
        r.topic_id = value;
        r
    }

    pub fn with_partitions(self, value: Vec<FetchPartition>) -> (r: Self)
        ensures
            r@ == (FetchTopicView { partitions: views(value@), ..self@ }),
    {
        let mut r = self;
        r.partitions = value;
        r
    }

    fn read_topic(buf: &mut Bytes, version: i16) -> (r: Result<KafkaString, Error>)
        ensures
            read_as(Self::spec_read_topic(bytes_seq(*old(buf)), version), *final(buf), r),
            took_front(*old(buf), *final(buf)),
    {
        proof {
            reveal(FetchTopic::spec_read_topic);
        }
        Ok(if version <= 12 {
                if version >= 12 {
                    read_compact_string(buf)?
                } else {
                    read_string(buf)?
                }
            } else {
                KafkaString::default()
        })
    }

    fn read_topic_id(buf: &mut Bytes, version: i16) -> (r: Result<KafkaUuid, Error>)
        ensures
            read_as(Self::spec_read_topic_id(bytes_seq(*old(buf)), version), *final(buf), r),
            took_front(*old(buf), *final(buf)),
    {
        proof {
            reveal(FetchTopic::spec_read_topic_id);
        }
        Ok(if version >= 13 {
                read_uuid(buf)?
            } else {
                KafkaUuid::zero()
        })
    }

    fn read_partitions(buf: &mut Bytes, version: i16) -> (r: Result<Vec<FetchPartition>, Error>)
        ensures
            read_vec_as(Self::spec_read_partitions(bytes_seq(*old(buf)), version), *final(buf), r),
            took_front(*old(buf), *final(buf)),
    {
        proof {
            reveal(FetchTopic::spec_read_partitions);
        }
        Ok(if version >= 12 {
                read_array::<FetchPartition>(buf, version, true)?
            } else {
                read_array::<FetchPartition>(buf, version, false)?
        })
    }

    fn read_tags(buf: &mut Bytes, version: i16) -> (r: Result<Vec<RawTaggedField>, Error>)
        ensures
            read_vec_as(Self::spec_read_tags(bytes_seq(*old(buf)), version), *final(buf), r),
            took_front(*old(buf), *final(buf)),
    {
        proof {
            reveal(FetchTopic::spec_read_tags);
        }
        Ok(if version >= 12 {
                read_tagged_fields(buf)?
            } else {
                empty_vec()
        })
    }

    pub fn read(buf: &mut Bytes, version: i16) -> (r: Result<Self, Error>)
        ensures
            read_as(Self::spec_read(bytes_seq(*old(buf)), version), *final(buf), r),
            took_front(*old(buf), *final(buf)),
    {
        let topic = Self::read_topic(buf, version)?;
        let topic_id = Self::read_topic_id(buf, version)?;
        let partitions = Self::read_partitions(buf, version)?;
        let _unknown_tagged_fields = Self::read_tags(buf, version)?;
        Ok(FetchTopic {
                topic: topic,
                topic_id: topic_id,
                partitions: partitions,
                _unknown_tagged_fields: _unknown_tagged_fields,
        })
    }

    #[verifier::rlimit(70)]
    pub fn write(&self, buf: &mut BytesMut, version: i16) -> (r: Result<(), Error>)
        requires
            has_room(Self::spec_write(self@, version), *old(buf)),
        ensures
            wrote(Self::spec_write(self@, version), *old(buf), *final(buf), r),
    {
        let ghost m = self@;
        proof {
            reveal(FetchTopic::spec_write_topic);
            reveal(FetchTopic::spec_write_topic_id);
            reveal(FetchTopic::spec_write_partitions);
            reveal(FetchTopic::spec_write_tags);
        }
        let ghost s0 = Self::spec_write_topic(m, version);
        let ghost w0 = s0;
        let ghost s1 = Self::spec_write_topic_id(m, version);
        let ghost w1 = chain(w0, s1);
        let ghost s2 = Self::spec_write_partitions(m, version);
        let ghost w2 = chain(w1, s2);
        let ghost s3 = Self::spec_write_tags(m, version);
        let ghost w3 = chain(w2, s3);
        assert(Self::spec_write(m, version) == w3);
        assert(written(w2).len() <= written(w3).len() && (w2 is Err ==> w3 == w2));
        assert(written(w1).len() <= written(w3).len() && (w1 is Err ==> w3 == w1));
        assert(written(w0).len() <= written(w3).len() && (w0 is Err ==> w3 == w0));
        let ghost mid = bytes_mut_seq(*buf);
        proof {
            lemma_append_empty(mid);
        }
        let r0 = if version <= 12 {
            if version >= 12 {
                write_compact_string(buf, &self.topic)
            } else {
                write_string(buf, &self.topic)
            }
        } else {
            if !self.topic.is_empty() {
                Err(Error::UnsupportedFieldVersion(UnsupportedFieldVersion::new(1, "topic", version)))
            } else {
                Ok(())
            }
        };
        assert(bytes_mut_seq(*buf) == mid + written(s0));
        if r0.is_err() {
            return r0;
        }
        let ghost mid = bytes_mut_seq(*buf);
        proof {
            lemma_append_empty(mid);
        }
        let r1 = if version >= 13 {
            {
                write_uuid(buf, self.topic_id);
                Ok(())
            }
        } else {
            if !self.topic_id.is_nil() {
                Err(Error::UnsupportedFieldVersion(UnsupportedFieldVersion::new(1, "topic_id", version)))
            } else {
                Ok(())
            }
        };
        assert(bytes_mut_seq(*buf) == mid + written(s1));
        proof {
            lemma_step(bytes_mut_seq(*old(buf)), w0, s1);
        }
        if r1.is_err() {
            return r1;
        }
        let ghost mid = bytes_mut_seq(*buf);
        proof {
            lemma_append_empty(mid);
        }
        let r2 = if version >= 12 {
            write_array::<FetchPartition>(buf, &self.partitions, version, true)
        } else {
            write_array::<FetchPartition>(buf, &self.partitions, version, false)
        };
        assert(bytes_mut_seq(*buf) == mid + written(s2));
        proof {
            lemma_step(bytes_mut_seq(*old(buf)), w1, s2);
        }
        if r2.is_err() {
            return r2;
        }
        let ghost mid = bytes_mut_seq(*buf);
        proof {
            lemma_append_empty(mid);
        }
        let r3 = if version >= 12 {
            write_tagged_fields(buf, &sort_by_tag(&self._unknown_tagged_fields))
        } else {
            Ok(())
        };
        assert(bytes_mut_seq(*buf) == mid + written(s3));
        proof {
            lemma_step(bytes_mut_seq(*old(buf)), w2, s3);
        }
        if r3.is_err() {
            return r3;
        }
        Ok(())
    }

    #[verifier::rlimit(70)]
    pub fn encoded_len(&self, version: i16) -> (r: Result<usize, Error>)
        ensures
            r == len_result(Self::spec_write(self@, version)),
    {
        let ghost m = self@;
        proof {
            reveal(FetchTopic::spec_write_topic);
            reveal(FetchTopic::spec_write_topic_id);
            reveal(FetchTopic::spec_write_partitions);
            reveal(FetchTopic::spec_write_tags);
        }
        let ghost s0 = Self::spec_write_topic(m, version);
        let ghost w0 = s0;
        let ghost s1 = Self::spec_write_topic_id(m, version);
        let ghost w1 = chain(w0, s1);
        let ghost s2 = Self::spec_write_partitions(m, version);
        let ghost w2 = chain(w1, s2);
        let ghost s3 = Self::spec_write_tags(m, version);
        let ghost w3 = chain(w2, s3);
        assert(Self::spec_write(m, version) == w3);
        assert(w2 is Err ==> w3 == w2);
        assert(w1 is Err ==> w3 == w1);
        assert(w0 is Err ==> w3 == w0);
        let mut len: usize = 0;
        let l0 = if version <= 12 {
            if version >= 12 {
                compact_string_len(&self.topic)
            } else {
                string_len(&self.topic)
            }
        } else {
            if !self.topic.is_empty() {
                Err(Error::UnsupportedFieldVersion(UnsupportedFieldVersion::new(1, "topic", version)))
            } else {
                Ok(0)
            }
        };
        assert(l0 == len_result(s0));
        let n0 = match l0 {
            Ok(n) => n,
            Err(e) => {
                return Err(e);
            },
        };
        len = saturating_sum(len, n0);
        assert(w0 is Ok && len == saturate(written(w0).len() as int));
        let l1 = if version >= 13 {
            Ok(16)
        } else {
            if !self.topic_id.is_nil() {
                Err(Error::UnsupportedFieldVersion(UnsupportedFieldVersion::new(1, "topic_id", version)))
            } else {
                Ok(0)
            }
        };
        assert(l1 == len_result(s1));
        let n1 = match l1 {
            Ok(n) => n,
            Err(e) => {
                return Err(e);
            },
        };
        proof {
            lemma_len_step(w0, s1, n1);
        }
        len = saturating_sum(len, n1);
        assert(w1 is Ok && len == saturate(written(w1).len() as int));
        let l2 = if version >= 12 {
            array_len::<FetchPartition>(&self.partitions, version, true)
        } else {
            array_len::<FetchPartition>(&self.partitions, version, false)
        };
        assert(l2 == len_result(s2));
        let n2 = match l2 {
            Ok(n) => n,
            Err(e) => {
                return Err(e);
            },
        };
        proof {
            lemma_len_step(w1, s2, n2);
        }
        len = saturating_sum(len, n2);
        assert(w2 is Ok && len == saturate(written(w2).len() as int));
        let l3 = if version >= 12 {
            tagged_fields_len(&sort_by_tag(&self._unknown_tagged_fields))
        } else {
            Ok(0)
        };
        assert(l3 == len_result(s3));
        let n3 = match l3 {
            Ok(n) => n,
            Err(e) => {
                return Err(e);
            },
        };
        proof {
            lemma_len_step(w2, s3, n3);
        }
        len = saturating_sum(len, n3);
        assert(w3 is Ok && len == saturate(written(w3).len() as int));
        Ok(len)
    }
}

#[derive(Debug, PartialEq)]
pub struct FetchPartition {
    /// The partition index.
    pub partition: i32,
    /// The current leader epoch of the partition.
    pub current_leader_epoch: i32,
    /// The message offset.
    pub fetch_offset: i64,
    /// The epoch of the last fetched record or -1 if there is none.
    pub last_fetched_epoch: i32,
    /// The earliest available offset of the follower replica.  The field is only used when the
    /// request is sent by the follower.
    pub log_start_offset: i64,
    /// The maximum bytes to fetch from this partition.  See KIP-74 for cases where this limit may
    /// not be honored.
    pub partition_max_bytes: i32,
    /// The directory id of the follower fetching.
    pub replica_directory_id: KafkaUuid,
    /// The high-watermark known by the replica. -1 if the high-watermark is not known and
    /// 9223372036854775807 if the feature is not supported.
    pub high_watermark: i64,
    pub _unknown_tagged_fields: Vec<RawTaggedField>,
}

/// What a `FetchPartition` holds, as the specification sees it.
#[verifier::ext_equal]
pub struct FetchPartitionView {
    pub partition: i32,
    pub current_leader_epoch: i32,
    pub fetch_offset: i64,
    pub last_fetched_epoch: i32,
    pub log_start_offset: i64,
    pub partition_max_bytes: i32,
    pub replica_directory_id: KafkaUuid,
    pub high_watermark: i64,
    pub unknown_tagged_fields: Seq<(u32, Seq<u8>)>,
}

impl View for FetchPartition {
    type V = FetchPartitionView;

    open spec fn view(&self) -> FetchPartitionView {
        FetchPartitionView {
            partition: self.partition,
            current_leader_epoch: self.current_leader_epoch,
            fetch_offset: self.fetch_offset,
            last_fetched_epoch: self.last_fetched_epoch,
            log_start_offset: self.log_start_offset,
            partition_max_bytes: self.partition_max_bytes,
            replica_directory_id: self.replica_directory_id,
            high_watermark: self.high_watermark,
            unknown_tagged_fields: views(self._unknown_tagged_fields@),
        }
    }
}

impl Clone for FetchPartition {
    fn clone(&self) -> (r: Self)
        ensures
            r@ == self@,
    {
        let r = FetchPartition {
            partition: self.partition,
            current_leader_epoch: self.current_leader_epoch,
            fetch_offset: self.fetch_offset,
            last_fetched_epoch: self.last_fetched_epoch,
            log_start_offset: self.log_start_offset,
            partition_max_bytes: self.partition_max_bytes,
            replica_directory_id: self.replica_directory_id,
            high_watermark: self.high_watermark,
            _unknown_tagged_fields: clone_vec(&self._unknown_tagged_fields),
        };
        assert(r@ =~= self@);
        r
    }
}

impl ViewClone for FetchPartition {
    fn clone_view(&self) -> (r: Self) {
        self.clone()
    }
}

impl Default for FetchPartition {
    fn default() -> (r: Self)
        ensures
            r@ == Self::default_view(),
    {
        let r = FetchPartition {
            partition: 0_i32,
            current_leader_epoch: -1i32,
            fetch_offset: 0_i64,
            last_fetched_epoch: -1i32,
            log_start_offset: -1i64,
            partition_max_bytes: 0_i32,
            replica_directory_id: KafkaUuid::zero(),
            high_watermark: i64::MAX,
            _unknown_tagged_fields: empty_vec(),
        };
        assert(r@ =~= Self::default_view());
        r
    }
}

impl FetchPartition {
    pub open spec fn default_view() -> FetchPartitionView {
        FetchPartitionView {
            partition: 0_i32,
            current_leader_epoch: -1i32,
            fetch_offset: 0_i64,
            last_fetched_epoch: -1i32,
            log_start_offset: -1i64,
            partition_max_bytes: 0_i32,
            replica_directory_id: KafkaUuid { most_significant_bits: 0, least_significant_bits: 0 },
            high_watermark: i64::MAX,
            unknown_tagged_fields: Seq::empty(),
        }
    }

    /// The `partition` field, read from the front of `s`.
    #[verifier::opaque]
    pub open spec fn spec_read_partition(s: Seq<u8>, version: i16) -> ReadOutcome<i32> {
        spec_read_i32(s)
    }

    /// The `current_leader_epoch` field, read from the front of `s`.
    #[verifier::opaque]
    pub open spec fn spec_read_current_leader_epoch(s: Seq<u8>, version: i16) -> ReadOutcome<i32> {
        if version >= 9 {
            spec_read_i32(s)
        } else {
            Ok((-1i32, s))
        }
    }

    /// The `fetch_offset` field, read from the front of `s`.
    #[verifier::opaque]
    pub open spec fn spec_read_fetch_offset(s: Seq<u8>, version: i16) -> ReadOutcome<i64> {
        spec_read_i64(s)
    }

    /// The `last_fetched_epoch` field, read from the front of `s`.
    #[verifier::opaque]
    pub open spec fn spec_read_last_fetched_epoch(s: Seq<u8>, version: i16) -> ReadOutcome<i32> {
        if version >= 12 {
            spec_read_i32(s)
        } else {
            Ok((-1i32, s))
        }
    }

    /// The `log_start_offset` field, read from the front of `s`.
    #[verifier::opaque]
    pub open spec fn spec_read_log_start_offset(s: Seq<u8>, version: i16) -> ReadOutcome<i64> {
        if version >= 5 {
            spec_read_i64(s)
        } else {
            Ok((-1i64, s))
        }
    }

    /// The `partition_max_bytes` field, read from the front of `s`.
    #[verifier::opaque]
    pub open spec fn spec_read_partition_max_bytes(s: Seq<u8>, version: i16) -> ReadOutcome<i32> {
        spec_read_i32(s)
    }

    pub open spec fn spec_read(s: Seq<u8>, version: i16) -> ReadOutcome<FetchPartitionView> {
        match (Self::spec_read_partition(s, version)) {
            Err(e) => Err(e),
            Ok((partition, s)) => match (Self::spec_read_current_leader_epoch(s, version)) {
                Err(e) => Err(e),
                Ok((current_leader_epoch, s)) => match (Self::spec_read_fetch_offset(s, version)) {
                    Err(e) => Err(e),
                    Ok((fetch_offset, s)) => match (Self::spec_read_last_fetched_epoch(s, version)) {
                        Err(e) => Err(e),
                        Ok((last_fetched_epoch, s)) => match (Self::spec_read_log_start_offset(s, version)) {
                            Err(e) => Err(e),
                            Ok((log_start_offset, s)) => match (Self::spec_read_partition_max_bytes(s, version)) {
                                Err(e) => Err(e),
                                Ok((partition_max_bytes, s)) => match (if version >= 12 {
                                        spec_read_tagged_fields(s)
                                    } else {
                                        Ok((Seq::empty(), s))
                                }) {
                                    Err(e) => Err(e),
                                    Ok((tags, s)) => match (match (Self::spec_apply_tags(tags, version)) {
                                            Err(e) => Err(e),
                                            Ok(k) => Ok((k, s)),
                                    }) {
                                        Err(e) => Err(e),
                                        Ok(((replica_directory_id, high_watermark, unknown_tagged_fields), s)) => Ok((FetchPartitionView {
                                                    partition: partition,
                                                    current_leader_epoch: current_leader_epoch,
                                                    fetch_offset: fetch_offset,
                                                    last_fetched_epoch: last_fetched_epoch,
                                                    log_start_offset: log_start_offset,
                                                    partition_max_bytes: partition_max_bytes,
                                                    replica_directory_id: replica_directory_id,
                                                    high_watermark: high_watermark,
                                                    unknown_tagged_fields: unknown_tagged_fields,
                                                }, s)),
                                    },
                                },
                            },
                        },
                    },
                },
            },
        }
    }

    /// What writing the `partition` field of `m` appends.
    #[verifier::opaque]
    pub open spec fn spec_write_partition(m: FetchPartitionView, version: i16) -> WriteOutcome {
        spec_write_i32(m.partition)
    }

    /// What writing the `current_leader_epoch` field of `m` appends.
    #[verifier::opaque]
    pub open spec fn spec_write_current_leader_epoch(m: FetchPartitionView, version: i16) -> WriteOutcome {
        if version >= 9 {
            spec_write_i32(m.current_leader_epoch)
        } else {
            if m.current_leader_epoch != -1i32 {
                fail(Error::UnsupportedFieldVersion(UnsupportedFieldVersion { api_key: 1, field: "current_leader_epoch", version }))
            } else {
                emit(Seq::empty())
            }
        }
    }

    /// What writing the `fetch_offset` field of `m` appends.
    #[verifier::opaque]
    pub open spec fn spec_write_fetch_offset(m: FetchPartitionView, version: i16) -> WriteOutcome {
        spec_write_i64(m.fetch_offset)
    }

    /// What writing the `last_fetched_epoch` field of `m` appends.
    #[verifier::opaque]
    pub open spec fn spec_write_last_fetched_epoch(m: FetchPartitionView, version: i16) -> WriteOutcome {
        if version >= 12 {
            spec_write_i32(m.last_fetched_epoch)
        } else {
            if m.last_fetched_epoch != -1i32 {
                fail(Error::UnsupportedFieldVersion(UnsupportedFieldVersion { api_key: 1, field: "last_fetched_epoch", version }))
            } else {
                emit(Seq::empty())
            }
        }
    }

    /// What writing the `log_start_offset` field of `m` appends.
    #[verifier::opaque]
    pub open spec fn spec_write_log_start_offset(m: FetchPartitionView, version: i16) -> WriteOutcome {
        if version >= 5 {
            spec_write_i64(m.log_start_offset)
        } else {
            if m.log_start_offset != -1i64 {
                fail(Error::UnsupportedFieldVersion(UnsupportedFieldVersion { api_key: 1, field: "log_start_offset", version }))
            } else {
                emit(Seq::empty())
            }
        }
    }

    /// What writing the `partition_max_bytes` field of `m` appends.
    #[verifier::opaque]
    pub open spec fn spec_write_partition_max_bytes(m: FetchPartitionView, version: i16) -> WriteOutcome {
        spec_write_i32(m.partition_max_bytes)
    }

    /// What writing the tagged fields of `m` appends.
    #[verifier::opaque]
    pub open spec fn spec_write_tags(m: FetchPartitionView, version: i16) -> WriteOutcome {
        if version >= 12 {
            match (Self::spec_known_tags(m, version)) {
                Err(e) => fail(e),
                Ok(k) => spec_write_tagged_fields(sorted_by_tag(k + m.unknown_tagged_fields)),
            }
        } else {
            emit(Seq::empty())
        }
    }

    pub open spec fn spec_write(m: FetchPartitionView, version: i16) -> WriteOutcome {
        chain(
            chain(
                chain(
                    chain(
                        chain(
                            chain(
                                Self::spec_write_partition(m, version),
                                Self::spec_write_current_leader_epoch(m, version),
                            ),
                            Self::spec_write_fetch_offset(m, version),
                        ),
                        Self::spec_write_last_fetched_epoch(m, version),
                    ),
                    Self::spec_write_log_start_offset(m, version),
                ),
                Self::spec_write_partition_max_bytes(m, version),
            ),
            Self::spec_write_tags(m, version),
        )
    }

    /// Whether reading back what writing `m` in `version` appends gives `m`:
    /// fields that the version does not carry hold their default values, and
    /// tagged fields come in the order in which they are written.
    pub open spec fn canonical(m: FetchPartitionView, version: i16) -> bool {
        &&& (if version >= 12 && version >= 17 && !uuid_is_nil(m.replica_directory_id) {
                true
            } else {
                m.replica_directory_id == KafkaUuid { most_significant_bits: 0, least_significant_bits: 0 }
        })
        &&& (if version >= 12 && version >= 18 && m.high_watermark != 9223372036854775807_i64 {
                true
            } else {
                m.high_watermark == i64::MAX
        })
        &&& (if version >= 12 {
                tags_in_order(m.unknown_tagged_fields) && forall|i: int| 0 <= i < m.unknown_tagged_fields.len() ==> !#[trigger] Self::is_known_tag(m.unknown_tagged_fields[i].0)
            } else {
                m.unknown_tagged_fields.len() == 0
        })
    }

    proof fn lemma_round_trip_partition(m: FetchPartitionView, version: i16, rest: Seq<u8>)
        requires
            Self::canonical(m, version),
            Self::spec_write_partition(m, version) is Ok,
        ensures
            Self::spec_read_partition(written(Self::spec_write_partition(m, version)) + rest, version) == Ok::<(i32, Seq<u8>), Error>((m.partition, rest)),
    {
        reveal(FetchPartition::spec_read_partition);
        reveal(FetchPartition::spec_write_partition);
        lemma_i32_roundtrip(m.partition, rest);
    }

    proof fn lemma_round_trip_current_leader_epoch(m: FetchPartitionView, version: i16, rest: Seq<u8>)
        requires
            Self::canonical(m, version),
            Self::spec_write_current_leader_epoch(m, version) is Ok,
        ensures
            Self::spec_read_current_leader_epoch(written(Self::spec_write_current_leader_epoch(m, version)) + rest, version) == Ok::<(i32, Seq<u8>), Error>((m.current_leader_epoch, rest)),
    {
        reveal(FetchPartition::spec_read_current_leader_epoch);
        reveal(FetchPartition::spec_write_current_leader_epoch);
        if version >= 9 {
            lemma_i32_roundtrip(m.current_leader_epoch, rest);
        } else {
            assert(Seq::<u8>::empty() + rest =~= rest);
        }
    }

    proof fn lemma_round_trip_fetch_offset(m: FetchPartitionView, version: i16, rest: Seq<u8>)
        requires
            Self::canonical(m, version),
            Self::spec_write_fetch_offset(m, version) is Ok,
        ensures
            Self::spec_read_fetch_offset(written(Self::spec_write_fetch_offset(m, version)) + rest, version) == Ok::<(i64, Seq<u8>), Error>((m.fetch_offset, rest)),
    {
        reveal(FetchPartition::spec_read_fetch_offset);
        reveal(FetchPartition::spec_write_fetch_offset);
        lemma_i64_roundtrip(m.fetch_offset, rest);
    }

    proof fn lemma_round_trip_last_fetched_epoch(m: FetchPartitionView, version: i16, rest: Seq<u8>)
        requires
            Self::canonical(m, version),
            Self::spec_write_last_fetched_epoch(m, version) is Ok,
        ensures
            Self::spec_read_last_fetched_epoch(written(Self::spec_write_last_fetched_epoch(m, version)) + rest, version) == Ok::<(i32, Seq<u8>), Error>((m.last_fetched_epoch, rest)),
    {
        reveal(FetchPartition::spec_read_last_fetched_epoch);
        reveal(FetchPartition::spec_write_last_fetched_epoch);
        if version >= 12 {
            lemma_i32_roundtrip(m.last_fetched_epoch, rest);
        } else {
            assert(Seq::<u8>::empty() + rest =~= rest);
        }
    }

    proof fn lemma_round_trip_log_start_offset(m: FetchPartitionView, version: i16, rest: Seq<u8>)
        requires
            Self::canonical(m, version),
            Self::spec_write_log_start_offset(m, version) is Ok,
        ensures
            Self::spec_read_log_start_offset(written(Self::spec_write_log_start_offset(m, version)) + rest, version) == Ok::<(i64, Seq<u8>), Error>((m.log_start_offset, rest)),
    {
        reveal(FetchPartition::spec_read_log_start_offset);
        reveal(FetchPartition::spec_write_log_start_offset);
        if version >= 5 {
            lemma_i64_roundtrip(m.log_start_offset, rest);
        } else {
            assert(Seq::<u8>::empty() + rest =~= rest);
        }
    }

    proof fn lemma_round_trip_partition_max_bytes(m: FetchPartitionView, version: i16, rest: Seq<u8>)
        requires
            Self::canonical(m, version),
            Self::spec_write_partition_max_bytes(m, version) is Ok,
        ensures
            Self::spec_read_partition_max_bytes(written(Self::spec_write_partition_max_bytes(m, version)) + rest, version) == Ok::<(i32, Seq<u8>), Error>((m.partition_max_bytes, rest)),
    {
        reveal(FetchPartition::spec_read_partition_max_bytes);
        reveal(FetchPartition::spec_write_partition_max_bytes);
        lemma_i32_roundtrip(m.partition_max_bytes, rest);
    }

    proof fn lemma_apply_known_tags(m: FetchPartitionView, version: i16)
        requires
            Self::canonical(m, version),
            Self::spec_known_tags(m, version) is Ok,
            version >= 12,
        ensures
            tags_in_order(Self::spec_known_tags(m, version)->Ok_0),
            forall|i: int| 0 <= i < Self::spec_known_tags(m, version)->Ok_0.len() ==> #[trigger] Self::is_known_tag(Self::spec_known_tags(m, version)->Ok_0[i].0),
            Self::spec_apply_tags(Self::spec_known_tags(m, version)->Ok_0, version) == Ok::<(KafkaUuid, i64, Seq<(u32, Seq<u8>)>), Error>((m.replica_directory_id, m.high_watermark, Seq::empty())),
    {
        assert(Self::spec_apply_tags(Seq::empty(), version) == Ok::<(KafkaUuid, i64, Seq<(u32, Seq<u8>)>), Error>((KafkaUuid { most_significant_bits: 0, least_significant_bits: 0 }, i64::MAX, Seq::empty())));
        let e0 = if version >= 17 && !uuid_is_nil(m.replica_directory_id) {
            tag_entry(0u32, spec_write_uuid(m.replica_directory_id))
        } else {
            Ok(Seq::empty())
        };
        let k0 = e0->Ok_0;
        let p0 = k0;
        if version >= 17 && !uuid_is_nil(m.replica_directory_id) {
            lemma_uuid_round_trip(m.replica_directory_id, Seq::<u8>::empty());
            assert(written(spec_write_uuid(m.replica_directory_id)) + Seq::<u8>::empty() =~= written(spec_write_uuid(m.replica_directory_id)));
            assert(p0.drop_last() =~= Seq::<(u32, Seq<u8>)>::empty());
        } else {
        }
        assert(tags_in_order(p0));
        assert(forall|i: int| 0 <= i < p0.len() ==> p0[i].0 <= 0u32);
        assert(forall|i: int| 0 <= i < p0.len() ==> #[trigger] Self::is_known_tag(p0[i].0));
        assert(Self::spec_apply_tags(p0, version) == Ok::<(KafkaUuid, i64, Seq<(u32, Seq<u8>)>), Error>((m.replica_directory_id, i64::MAX, Seq::empty())));
        let e1 = if version >= 18 && m.high_watermark != 9223372036854775807_i64 {
            tag_entry(1u32, spec_write_i64(m.high_watermark))
        } else {
            Ok(Seq::empty())
        };
        let k1 = e1->Ok_0;
        let p1 = (p0 + k1);
        if version >= 18 && m.high_watermark != 9223372036854775807_i64 {
            lemma_i64_roundtrip(m.high_watermark, Seq::<u8>::empty());
            assert(written(spec_write_i64(m.high_watermark)) + Seq::<u8>::empty() =~= written(spec_write_i64(m.high_watermark)));
            assert(p1.drop_last() =~= p0);
        } else {
            assert(p1 =~= p0);
        }
        assert(tags_in_order(p1));
        assert(forall|i: int| 0 <= i < p1.len() ==> p1[i].0 <= 1u32);
        assert(forall|i: int| 0 <= i < p1.len() ==> #[trigger] Self::is_known_tag(p1[i].0));
        assert(Self::spec_apply_tags(p1, version) == Ok::<(KafkaUuid, i64, Seq<(u32, Seq<u8>)>), Error>((m.replica_directory_id, m.high_watermark, Seq::empty())));
        assert(Self::spec_known_tags(m, version)->Ok_0 =~= p1);
    }

    proof fn lemma_apply_tags_append(st: (KafkaUuid, i64, Seq<(u32, Seq<u8>)>), a: Seq<(u32, Seq<u8>)>, b: Seq<(u32, Seq<u8>)>, version: i16)
        ensures
            Self::spec_apply_tags_from(st, a + b, version) == (match Self::spec_apply_tags_from(st, a, version) {
            Err(e) => Err(e),
            Ok(s2) => Self::spec_apply_tags_from(s2, b, version),
            }),
            decreases b.len(),
    {
        if b.len() == 0 {
            assert(a + b =~= a);
        } else {
            assert((a + b).drop_last() =~= a + b.drop_last());
            assert((a + b).last() == b.last());
            Self::lemma_apply_tags_append(st, a, b.drop_last(), version);
        }
    }

    proof fn lemma_apply_known_only(st: (KafkaUuid, i64, Seq<(u32, Seq<u8>)>), us: Seq<(u32, Seq<u8>)>, b: Seq<(u32, Seq<u8>)>, version: i16)
        requires
            forall|i: int| 0 <= i < b.len() ==> #[trigger] Self::is_known_tag(b[i].0),
        ensures
            match Self::spec_apply_tags_from(st, b, version) {
            Err(e) => Self::spec_apply_tags_from((st.0, st.1, us), b, version) == Err::<(KafkaUuid, i64, Seq<(u32, Seq<u8>)>), Error>(e),
            Ok(r) => r.2 == st.2 && Self::spec_apply_tags_from((st.0, st.1, us), b, version) == Ok::<(KafkaUuid, i64, Seq<(u32, Seq<u8>)>), Error>((r.0, r.1, us)),
            },
            decreases b.len(),
    {
        if b.len() > 0 {
            assert(Self::is_known_tag(b[b.len() - 1].0));
            assert forall|i: int| 0 <= i < b.drop_last().len() implies #[trigger] Self::is_known_tag(b.drop_last()[i].0) by {
                assert(b.drop_last()[i] == b[i]);
                assert(Self::is_known_tag(b[i].0));
            }
            Self::lemma_apply_known_only(st, us, b.drop_last(), version);
        }
    }

    proof fn lemma_apply_sorted(k: Seq<(u32, Seq<u8>)>, u: Seq<(u32, Seq<u8>)>, version: i16)
        requires
            tags_in_order(k),
            tags_in_order(u),
            forall|i: int| 0 <= i < k.len() ==> #[trigger] Self::is_known_tag(k[i].0),
            forall|i: int| 0 <= i < u.len() ==> !#[trigger] Self::is_known_tag(u[i].0),
            Self::spec_apply_tags(k, version) is Ok,
            Self::spec_apply_tags(k, version)->Ok_0.2 == Seq::<(u32, Seq<u8>)>::empty(),
        ensures
            Self::spec_apply_tags(sorted_by_tag(k + u), version) == Ok::<(KafkaUuid, i64, Seq<(u32, Seq<u8>)>), Error>((Self::spec_apply_tags(k, version)->Ok_0.0, Self::spec_apply_tags(k, version)->Ok_0.1, u)),
            decreases u.len(),
    {
        let r = Self::spec_apply_tags(k, version)->Ok_0;
        if u.len() == 0 {
            assert(k + u =~= k);
            lemma_sorted_by_tag_in_order(k);
            assert(u =~= Seq::<(u32, Seq<u8>)>::empty());
        } else {
            let u1 = u.drop_last();
            let x = u.last();
            lemma_tags_in_order_drop_last(u);
            assert forall|i: int| 0 <= i < u1.len() implies !#[trigger] Self::is_known_tag(u1[i].0) by {
                assert(u1[i] == u[i]);
                assert(!Self::is_known_tag(u[i].0));
            }
            Self::lemma_apply_sorted(k, u1, version);
            let ku = k + u1;
            let t = sorted_by_tag(ku);
            assert((k + u).drop_last() =~= ku);
            assert((k + u).last() == x);
            let p = insert_pos(t, x.0);
            lemma_insert_pos_bounds(t, x.0);
            lemma_insert_pos_after(t, x.0);
            lemma_sorted_by_tag_members(ku);
            lemma_sorted_by_tag_len(ku);
            let head = t.subrange(0, p);
            let tail = t.subrange(p, t.len() as int);
            assert forall|i: int| 0 <= i < tail.len() implies #[trigger] Self::is_known_tag(tail[i].0) by {
                let y = t[p + i];
                assert(tail[i] == y);
                assert(y.0 > x.0);
                assert(ku.contains(y));
                let j = choose|j: int| 0 <= j < ku.len() && ku[j] == y;
                if j >= k.len() {
                    assert(u[j - k.len()] == y);
                    assert(u[j - k.len()].0 <= u[u.len() - 1].0);
                    assert(false);
                } else {
                    assert(k[j] == y);
                    assert(Self::is_known_tag(k[j].0));
                }
            }
            assert(t =~= head + tail);
            assert(sorted_by_tag(k + u) =~= head.push(x) + tail);
            Self::lemma_apply_tags_append((KafkaUuid { most_significant_bits: 0, least_significant_bits: 0 }, i64::MAX, Seq::empty()), head, tail, version);
            Self::lemma_apply_tags_append((KafkaUuid { most_significant_bits: 0, least_significant_bits: 0 }, i64::MAX, Seq::empty()), head.push(x), tail, version);
            let sa = Self::spec_apply_tags(head, version)->Ok_0;
            assert(head.push(x).drop_last() =~= head);
            assert(!Self::is_known_tag(x.0)) by {
                assert(u[u.len() - 1] == x);
            }
            Self::lemma_apply_known_only(sa, sa.2.push(x), tail, version);
            assert(u1.push(x) =~= u);
        }
    }

    /// The tagged fields that a flexible version writes: each known one that
    /// the version carries and that does not hold its default value, in the
    /// order of the tags, merged by tag with the unknown ones.
    pub proof fn lemma_tag_section(m: FetchPartitionView, version: i16)
        requires
            version >= 12,
        ensures
            Self::spec_write_tags(m, version) == (match Self::spec_known_tags(m, version) {
            Err(e) => fail(e),
            Ok(k) => spec_write_tagged_fields(sorted_by_tag(k + m.unknown_tagged_fields)),
            }),
            Self::spec_known_tags(m, version) is Ok ==> Self::spec_known_tags(m, version)->Ok_0 == (if version >= 17 && !uuid_is_nil(m.replica_directory_id) { seq![(0u32, written(spec_write_uuid(m.replica_directory_id)))] } else { Seq::<(u32, Seq<u8>)>::empty() }) + (if version >= 18 && m.high_watermark != 9223372036854775807_i64 { seq![(1u32, written(spec_write_i64(m.high_watermark)))] } else { Seq::<(u32, Seq<u8>)>::empty() }),
    {
        reveal(FetchPartition::spec_write_tags);
        if Self::spec_known_tags(m, version) is Ok {
            assert(Self::spec_known_tags(m, version)->Ok_0 =~= (if version >= 17 && !uuid_is_nil(m.replica_directory_id) {
                        seq![(0u32, written(spec_write_uuid(m.replica_directory_id)))]
                    } else {
                        Seq::<(u32, Seq<u8>)>::empty()
                }) + (if version >= 18 && m.high_watermark != 9223372036854775807_i64 {
                        seq![(1u32, written(spec_write_i64(m.high_watermark)))]
                    } else {
                        Seq::<(u32, Seq<u8>)>::empty()
            }));
        }
    }

    proof fn lemma_round_trip_tags(m: FetchPartitionView, version: i16, rest: Seq<u8>)
        requires
            Self::canonical(m, version),
            Self::spec_write_tags(m, version) is Ok,
        ensures
            (if version >= 12 {
            spec_read_tagged_fields(written(Self::spec_write_tags(m, version)) + rest)
            } else {
            Ok((Seq::empty(), written(Self::spec_write_tags(m, version)) + rest))
            }) matches Ok((tags, r2)) && r2 == rest && Self::spec_apply_tags(tags, version) == Ok::<(KafkaUuid, i64, Seq<(u32, Seq<u8>)>), Error>((m.replica_directory_id, m.high_watermark, m.unknown_tagged_fields)),
    {
        reveal(FetchPartition::spec_write_tags);
        if version >= 12 {
            let k = Self::spec_known_tags(m, version)->Ok_0;
            Self::lemma_apply_known_tags(m, version);
            Self::lemma_apply_sorted(k, m.unknown_tagged_fields, version);
            lemma_tagged_fields_round_trip(sorted_by_tag(k + m.unknown_tagged_fields), rest);
        } else {
            assert(Seq::<u8>::empty() + rest =~= rest);
            assert(m.unknown_tagged_fields =~= Seq::empty());
        }
    }

    /// Reading back what writing `m` in `version` appends gives `m` again, and
    /// leaves what follows, for every canonical message whose write succeeds.
    #[verifier::rlimit(100)]
    #[verifier::spinoff_prover]
    pub proof fn lemma_round_trip(m: FetchPartitionView, version: i16, rest: Seq<u8>)
        requires
            Self::canonical(m, version),
            Self::spec_write(m, version) is Ok,
        ensures
            Self::spec_read(written(Self::spec_write(m, version)) + rest, version) == Ok::<(FetchPartitionView, Seq<u8>), Error>((m, rest)),
    {
        let b0 = written(Self::spec_write_partition(m, version));
        let b1 = written(Self::spec_write_current_leader_epoch(m, version));
        let b2 = written(Self::spec_write_fetch_offset(m, version));
        let b3 = written(Self::spec_write_last_fetched_epoch(m, version));
        let b4 = written(Self::spec_write_log_start_offset(m, version));
        let b5 = written(Self::spec_write_partition_max_bytes(m, version));
        let b6 = written(Self::spec_write_tags(m, version));
        let t7 = rest;
        let t6 = b6 + t7;
        let t5 = b5 + t6;
        let t4 = b4 + t5;
        let t3 = b3 + t4;
        let t2 = b2 + t3;
        let t1 = b1 + t2;
        let t0 = b0 + t1;
        let w0 = Self::spec_write_partition(m, version);
        let w1 = chain(w0, Self::spec_write_current_leader_epoch(m, version));
        let w2 = chain(w1, Self::spec_write_fetch_offset(m, version));
        let w3 = chain(w2, Self::spec_write_last_fetched_epoch(m, version));
        let w4 = chain(w3, Self::spec_write_log_start_offset(m, version));
        let w5 = chain(w4, Self::spec_write_partition_max_bytes(m, version));
        let w6 = chain(w5, Self::spec_write_tags(m, version));
        assert(Self::spec_write(m, version) == w6);
        assert(written(w6) + t7 =~= written(w5) + t6);
        assert(written(w5) + t6 =~= written(w4) + t5);
        assert(written(w4) + t5 =~= written(w3) + t4);
        assert(written(w3) + t4 =~= written(w2) + t3);
        assert(written(w2) + t3 =~= written(w1) + t2);
        assert(written(w1) + t2 =~= written(w0) + t1);
        Self::lemma_round_trip_partition(m, version, t1);
        Self::lemma_round_trip_current_leader_epoch(m, version, t2);
        Self::lemma_round_trip_fetch_offset(m, version, t3);
        Self::lemma_round_trip_last_fetched_epoch(m, version, t4);
        Self::lemma_round_trip_log_start_offset(m, version, t5);
        Self::lemma_round_trip_partition_max_bytes(m, version, t6);
        Self::lemma_round_trip_tags(m, version, t7);
    }

    /// In a version that does not carry `replica_directory_id`, writing ignores its value.
    pub proof fn lemma_write_ignores_replica_directory_id(m: FetchPartitionView, value: KafkaUuid, version: i16)
        requires
            !(version >= 12 && version >= 17),
        ensures
            Self::spec_write((FetchPartitionView { replica_directory_id: value, ..m }), version) == Self::spec_write(m, version),
    {
        reveal(FetchPartition::spec_write_partition);
        reveal(FetchPartition::spec_write_current_leader_epoch);
        reveal(FetchPartition::spec_write_fetch_offset);
        reveal(FetchPartition::spec_write_last_fetched_epoch);
        reveal(FetchPartition::spec_write_log_start_offset);
        reveal(FetchPartition::spec_write_partition_max_bytes);
        reveal(FetchPartition::spec_write_tags);
    }

    /// In a version that does not carry `high_watermark`, writing ignores its value.
    pub proof fn lemma_write_ignores_high_watermark(m: FetchPartitionView, value: i64, version: i16)
        requires
            !(version >= 12 && version >= 18),
        ensures
            Self::spec_write((FetchPartitionView { high_watermark: value, ..m }), version) == Self::spec_write(m, version),
    {
        reveal(FetchPartition::spec_write_partition);
        reveal(FetchPartition::spec_write_current_leader_epoch);
        reveal(FetchPartition::spec_write_fetch_offset);
        reveal(FetchPartition::spec_write_last_fetched_epoch);
        reveal(FetchPartition::spec_write_log_start_offset);
        reveal(FetchPartition::spec_write_partition_max_bytes);
        reveal(FetchPartition::spec_write_tags);
    }

    /// In a version that does not carry `unknown_tagged_fields`, writing ignores its value.
    pub proof fn lemma_write_ignores_unknown_tagged_fields(m: FetchPartitionView, value: Seq<(u32, Seq<u8>)>, version: i16)
        requires
            !(version >= 12),
        ensures
            Self::spec_write((FetchPartitionView { unknown_tagged_fields: value, ..m }), version) == Self::spec_write(m, version),
    {
        reveal(FetchPartition::spec_write_partition);
        reveal(FetchPartition::spec_write_current_leader_epoch);
        reveal(FetchPartition::spec_write_fetch_offset);
        reveal(FetchPartition::spec_write_last_fetched_epoch);
        reveal(FetchPartition::spec_write_log_start_offset);
        reveal(FetchPartition::spec_write_partition_max_bytes);
        reveal(FetchPartition::spec_write_tags);
    }

    /// The default message holds the default value of each field of the schema.
    pub proof fn lemma_default_values()
        ensures
            Self::default_view().partition == (0_i32),
            Self::default_view().current_leader_epoch == (-1i32),
            Self::default_view().fetch_offset == (0_i64),
            Self::default_view().last_fetched_epoch == (-1i32),
            Self::default_view().log_start_offset == (-1i64),
            Self::default_view().partition_max_bytes == (0_i32),
            Self::default_view().replica_directory_id == (KafkaUuid { most_significant_bits: 0, least_significant_bits: 0 }),
            Self::default_view().high_watermark == (i64::MAX),
            Self::default_view().unknown_tagged_fields.len() == 0,
    {
    }

    /// Each integer, boolean and identifier field is written as its standard
    /// big-endian bytes (a boolean as `1` or `0`) in the versions that carry
    /// it, and as nothing in the others; reading it takes those bytes back (any
    /// byte other than `0` reads as `true`), or gives its default value.
    pub proof fn lemma_field_encodings(m: FetchPartitionView, s: Seq<u8>, version: i16)
        ensures
            true ==> Self::spec_write_partition(m, version) == Ok::<Seq<u8>, (Error, Seq<u8>)>(u32_bytes(m.partition as u32)),
            version >= 9 ==> Self::spec_write_current_leader_epoch(m, version) == Ok::<Seq<u8>, (Error, Seq<u8>)>(u32_bytes(m.current_leader_epoch as u32)),
            true ==> Self::spec_write_fetch_offset(m, version) == Ok::<Seq<u8>, (Error, Seq<u8>)>(u64_bytes(m.fetch_offset as u64)),
            version >= 12 ==> Self::spec_write_last_fetched_epoch(m, version) == Ok::<Seq<u8>, (Error, Seq<u8>)>(u32_bytes(m.last_fetched_epoch as u32)),
            version >= 5 ==> Self::spec_write_log_start_offset(m, version) == Ok::<Seq<u8>, (Error, Seq<u8>)>(u64_bytes(m.log_start_offset as u64)),
            true ==> Self::spec_write_partition_max_bytes(m, version) == Ok::<Seq<u8>, (Error, Seq<u8>)>(u32_bytes(m.partition_max_bytes as u32)),
            true ==> Self::spec_read_partition(s, version) == spec_read_i32(s),
            version >= 9 ==> Self::spec_read_current_leader_epoch(s, version) == spec_read_i32(s),
            !(version >= 9) ==> Self::spec_read_current_leader_epoch(s, version) == Ok::<(i32, Seq<u8>), Error>((-1i32, s)),
            true ==> Self::spec_read_fetch_offset(s, version) == spec_read_i64(s),
            version >= 12 ==> Self::spec_read_last_fetched_epoch(s, version) == spec_read_i32(s),
            !(version >= 12) ==> Self::spec_read_last_fetched_epoch(s, version) == Ok::<(i32, Seq<u8>), Error>((-1i32, s)),
            version >= 5 ==> Self::spec_read_log_start_offset(s, version) == spec_read_i64(s),
            !(version >= 5) ==> Self::spec_read_log_start_offset(s, version) == Ok::<(i64, Seq<u8>), Error>((-1i64, s)),
            true ==> Self::spec_read_partition_max_bytes(s, version) == spec_read_i32(s),
    {
        reveal(FetchPartition::spec_write_partition);
        reveal(FetchPartition::spec_read_partition);
        reveal(FetchPartition::spec_write_current_leader_epoch);
        reveal(FetchPartition::spec_read_current_leader_epoch);
        reveal(FetchPartition::spec_write_fetch_offset);
        reveal(FetchPartition::spec_read_fetch_offset);
        reveal(FetchPartition::spec_write_last_fetched_epoch);
        reveal(FetchPartition::spec_read_last_fetched_epoch);
        reveal(FetchPartition::spec_write_log_start_offset);
        reveal(FetchPartition::spec_read_log_start_offset);
        reveal(FetchPartition::spec_write_partition_max_bytes);
        reveal(FetchPartition::spec_read_partition_max_bytes);
    }

    /// Whether writing `m` in `version` succeeds, said over its parts: the
    /// version is one the schema covers, every field that the version cannot
    /// carry holds its default value, and every string, byte string, array and
    /// tagged field fits its length prefix.
    pub open spec fn writable(m: FetchPartitionView, version: i16) -> bool {
        &&& (if version >= 9 {
                true
            } else {
                !(m.current_leader_epoch != -1i32)
        })
        &&& (if version >= 12 {
                true
            } else {
                !(m.last_fetched_epoch != -1i32)
        })
        &&& (if version >= 5 {
                true
            } else {
                !(m.log_start_offset != -1i64)
        })
        &&& (if version >= 12 {
                (version >= 17 && !uuid_is_nil(m.replica_directory_id) ==> true && written(spec_write_uuid(m.replica_directory_id)).len() <= isize::MAX && written(spec_write_uuid(m.replica_directory_id)).len() <= u32::MAX) && (version >= 18 && m.high_watermark != 9223372036854775807_i64 ==> true && written(spec_write_i64(m.high_watermark)).len() <= isize::MAX && written(spec_write_i64(m.high_watermark)).len() <= u32::MAX) && (if version >= 17 && !uuid_is_nil(m.replica_directory_id) { 1int } else { 0int }) + (if version >= 18 && m.high_watermark != 9223372036854775807_i64 { 1int } else { 0int }) + m.unknown_tagged_fields.len() <= u32::MAX && tags_fit(m.unknown_tagged_fields)
            } else {
                true
        })
    }

    proof fn lemma_writable_partition(m: FetchPartitionView, version: i16)
        ensures
            Self::spec_write_partition(m, version) is Ok <==> true,
    {
        reveal(FetchPartition::spec_write_partition);
    }

    proof fn lemma_writable_current_leader_epoch(m: FetchPartitionView, version: i16)
        ensures
            Self::spec_write_current_leader_epoch(m, version) is Ok <==> (if version >= 9 { true } else { !(m.current_leader_epoch != -1i32) }),
    {
        reveal(FetchPartition::spec_write_current_leader_epoch);
    }

    proof fn lemma_writable_fetch_offset(m: FetchPartitionView, version: i16)
        ensures
            Self::spec_write_fetch_offset(m, version) is Ok <==> true,
    {
        reveal(FetchPartition::spec_write_fetch_offset);
    }

    proof fn lemma_writable_last_fetched_epoch(m: FetchPartitionView, version: i16)
        ensures
            Self::spec_write_last_fetched_epoch(m, version) is Ok <==> (if version >= 12 { true } else { !(m.last_fetched_epoch != -1i32) }),
    {
        reveal(FetchPartition::spec_write_last_fetched_epoch);
    }

    proof fn lemma_writable_log_start_offset(m: FetchPartitionView, version: i16)
        ensures
            Self::spec_write_log_start_offset(m, version) is Ok <==> (if version >= 5 { true } else { !(m.log_start_offset != -1i64) }),
    {
        reveal(FetchPartition::spec_write_log_start_offset);
    }

    proof fn lemma_writable_partition_max_bytes(m: FetchPartitionView, version: i16)
        ensures
            Self::spec_write_partition_max_bytes(m, version) is Ok <==> true,
    {
        reveal(FetchPartition::spec_write_partition_max_bytes);
    }

    proof fn lemma_writable_tags(m: FetchPartitionView, version: i16)
        ensures
            Self::spec_write_tags(m, version) is Ok <==> (if version >= 12 { (version >= 17 && !uuid_is_nil(m.replica_directory_id) ==> true && written(spec_write_uuid(m.replica_directory_id)).len() <= isize::MAX && written(spec_write_uuid(m.replica_directory_id)).len() <= u32::MAX) && (version >= 18 && m.high_watermark != 9223372036854775807_i64 ==> true && written(spec_write_i64(m.high_watermark)).len() <= isize::MAX && written(spec_write_i64(m.high_watermark)).len() <= u32::MAX) && (if version >= 17 && !uuid_is_nil(m.replica_directory_id) { 1int } else { 0int }) + (if version >= 18 && m.high_watermark != 9223372036854775807_i64 { 1int } else { 0int }) + m.unknown_tagged_fields.len() <= u32::MAX && tags_fit(m.unknown_tagged_fields) } else { true }),
    {
        reveal(FetchPartition::spec_write_tags);
        let k = Self::spec_known_tags(m, version);
        lemma_tags_fit_single(0u32, written(spec_write_uuid(m.replica_directory_id)));
        lemma_tags_fit_single(1u32, written(spec_write_i64(m.high_watermark)));
        if version >= 12 {
            Self::lemma_tag_section(m, version);
            if k is Ok {
                lemma_sorted_tags_fit(k->Ok_0 + m.unknown_tagged_fields);
                lemma_tagged_fields_writable(sorted_by_tag(k->Ok_0 + m.unknown_tagged_fields));
                lemma_tags_fit_concat(k->Ok_0, m.unknown_tagged_fields);
                lemma_tags_fit_concat((if version >= 17 && !uuid_is_nil(m.replica_directory_id) {
                            seq![(0u32, written(spec_write_uuid(m.replica_directory_id)))]
                        } else {
                            Seq::<(u32, Seq<u8>)>::empty()
                    }), (if version >= 18 && m.high_watermark != 9223372036854775807_i64 {
                            seq![(1u32, written(spec_write_i64(m.high_watermark)))]
                        } else {
                            Seq::<(u32, Seq<u8>)>::empty()
                }));
            }
        }
    }

    /// Writing `m` in `version` succeeds exactly when `m` is writable in it;
    /// so do `write` and `encoded_len`, whose results follow `spec_write`.
    #[verifier::rlimit(72)]
    pub proof fn lemma_writable(m: FetchPartitionView, version: i16)
        ensures
            Self::spec_write(m, version) is Ok <==> Self::writable(m, version),
    {
        Self::lemma_writable_partition(m, version);
        Self::lemma_writable_current_leader_epoch(m, version);
        Self::lemma_writable_fetch_offset(m, version);
        Self::lemma_writable_last_fetched_epoch(m, version);
        Self::lemma_writable_log_start_offset(m, version);
        Self::lemma_writable_partition_max_bytes(m, version);
        Self::lemma_writable_tags(m, version);
    }

    pub fn with_partition(self, value: i32) -> (r: Self)
        ensures
            r@ == (FetchPartitionView { partition: value, ..self@ }),
    {
        let mut r = self;
        r.partition = value;
        r
    }

    pub fn with_current_leader_epoch(self, value: i32) -> (r: Self)
        ensures
            r@ == (FetchPartitionView { current_leader_epoch: value, ..self@ }),
    {
        let mut r = self;
        r.current_leader_epoch = value;
        r
    }

    pub fn with_fetch_offset(self, value: i64) -> (r: Self)
        ensures
            r@ == (FetchPartitionView { fetch_offset: value, ..self@ }),
    {
        let mut r = self;
        r.fetch_offset = value;
        r
    }

    pub fn with_last_fetched_epoch(self, value: i32) -> (r: Self)
        ensures
            r@ == (FetchPartitionView { last_fetched_epoch: value, ..self@ }),
    {
        let mut r = self;
        r.last_fetched_epoch = value;
        r
    }

    pub fn with_log_start_offset(self, value: i64) -> (r: Self)
        ensures
            r@ == (FetchPartitionView { log_start_offset: value, ..self@ }),
    {
        let mut r = self;
        r.log_start_offset = value;
        r
    }

    pub fn with_partition_max_bytes(self, value: i32) -> (r: Self)
        ensures
            r@ == (FetchPartitionView { partition_max_bytes: value, ..self@ }),
    {
        let mut r = self;
        r.partition_max_bytes = value;
        r
    }

    pub fn with_replica_directory_id(self, value: KafkaUuid) -> (r: Self)
        ensures
            r@ == (FetchPartitionView { replica_directory_id: value, ..self@ }),
    {
        let mut r = self;
        r.replica_directory_id = value;
        r
    }

    pub fn with_high_watermark(self, value: i64) -> (r: Self)
        ensures
            r@ == (FetchPartitionView { high_watermark: value, ..self@ }),
    {
        let mut r = self;
        r.high_watermark = value;
        r
    }

    /// The known tagged fields and the unknown ones after the tagged field `f`
    /// is read: a known one replaces the value it holds, an unknown one is kept.
    pub open spec fn spec_apply_tag(st: (KafkaUuid, i64, Seq<(u32, Seq<u8>)>), f: (u32, Seq<u8>), version: i16) -> Result<(KafkaUuid, i64, Seq<(u32, Seq<u8>)>), Error> {
        if f.0 == 0u32 {
            if version >= 17 {
                match (spec_read_uuid(f.1)) {
                    Err(e) => Err(e),
                    Ok((v, _)) => Ok((v, st.1, st.2)),
                }
            } else {
                Ok(st)
            }
        } else {
            if f.0 == 1u32 {
                if version >= 18 {
                    match (spec_read_i64(f.1)) {
                        Err(e) => Err(e),
                        Ok((v, _)) => Ok((st.0, v, st.2)),
                    }
                } else {
                    Ok(st)
                }
            } else {
                Ok((st.0, st.1, st.2.push(f)))
            }
        }
    }

    /// The known tagged fields, and the unknown ones, that reading `tags` in
    /// order gives, starting from `st`.
    pub open spec fn spec_apply_tags_from(st: (KafkaUuid, i64, Seq<(u32, Seq<u8>)>), tags: Seq<(u32, Seq<u8>)>, version: i16) -> Result<(KafkaUuid, i64, Seq<(u32, Seq<u8>)>), Error>
    decreases tags.len(),
    {
        if tags.len() == 0 {
            Ok(st)
        } else {
            match Self::spec_apply_tags_from(st, tags.drop_last(), version) {
                Err(e) => Err(e),
                Ok(s2) => Self::spec_apply_tag(s2, tags.last(), version),
            }
        }
    }

    /// The known tagged fields, and the unknown ones, that reading `tags` in
    /// order gives.
    pub open spec fn spec_apply_tags(tags: Seq<(u32, Seq<u8>)>, version: i16) -> Result<(KafkaUuid, i64, Seq<(u32, Seq<u8>)>), Error> {
        Self::spec_apply_tags_from((KafkaUuid { most_significant_bits: 0, least_significant_bits: 0 }, i64::MAX, Seq::empty()), tags, version)
    }

    /// Whether a tagged field with tag `t` is one of the known ones.
    pub open spec fn is_known_tag(t: u32) -> bool {
        t == 0u32 || t == 1u32
    }

    proof fn lemma_apply_tags_err(tags: Seq<(u32, Seq<u8>)>, i: int, version: i16)
        requires
            0 <= i <= tags.len(),
            Self::spec_apply_tags(tags.take(i), version) is Err,
        ensures
            Self::spec_apply_tags(tags, version) == Self::spec_apply_tags(tags.take(i), version),
            decreases tags.len() - i,
    {
        if i < tags.len() {
            assert(tags.take(i + 1).drop_last() =~= tags.take(i));
            Self::lemma_apply_tags_err(tags, i + 1, version);
        } else {
            assert(tags.take(i) =~= tags);
        }
    }

    fn apply_tags(tags: &Vec<RawTaggedField>, version: i16) -> (r: Result<(KafkaUuid, i64, Vec<RawTaggedField>), Error>)
        ensures
            match Self::spec_apply_tags(views(tags@), version) {
            Err(e) => r matches Err(e2) && e2 == e,
            Ok(st) => r matches Ok(x) && x.0 == st.0 && x.1 == st.1 && views(x.2@) == st.2,
            },
    {
        let ghost ts = views(tags@);
        let mut k_replica_directory_id: KafkaUuid = KafkaUuid::zero();
        let mut k_high_watermark: i64 = i64::MAX;
        let mut unknown: Vec<RawTaggedField> = empty_vec();
        let mut i: usize = 0;
        assert(ts.take(0) =~= Seq::<(u32, Seq<u8>)>::empty());
        while i < tags.len()
        invariant
        0 <= i <= tags.len(),
        ts == views(tags@),
        Self::spec_apply_tags(ts.take(i as int), version) == Ok::<(KafkaUuid, i64, Seq<(u32, Seq<u8>)>), Error>((k_replica_directory_id, k_high_watermark, views(unknown@))),
        decreases tags.len() - i,
        {
            let field = &tags[i];
            proof {
                assert(ts.take(i + 1).drop_last() =~= ts.take(i as int));
                assert(ts.take(i + 1).last() == field@);
            }
            if field.tag == 0 {
                if version >= 17 {
                    let mut tag_buf = field.data.clone();
                    k_replica_directory_id = match read_uuid(&mut tag_buf) {
                        Ok(v) => v,
                        Err(e) => {
                            proof {
                                Self::lemma_apply_tags_err(ts, i + 1, version);
                            }
                            return Err(e);
                        },
                    };
                }
            } else if field.tag == 1 {
                if version >= 18 {
                    let mut tag_buf = field.data.clone();
                    k_high_watermark = match read_i64(&mut tag_buf) {
                        Ok(v) => v,
                        Err(e) => {
                            proof {
                                Self::lemma_apply_tags_err(ts, i + 1, version);
                            }
                            return Err(e);
                        },
                    };
                }
            } else {
                let ghost before = views(unknown@);
                unknown.push(field.clone());
                proof {
                    assert(views(unknown@) =~= before.push(field@));
                }
            }
            i = i + 1;
        }
        proof {
            assert(ts.take(tags.len() as int) =~= ts);
        }
        Ok((k_replica_directory_id, k_high_watermark, unknown))
    }

    /// The known tagged fields that `m` has to write in `version`, in the
    /// order of their tags: those that do not hold their default value.
    pub open spec fn spec_known_tags(m: FetchPartitionView, version: i16) -> Result<Seq<(u32, Seq<u8>)>, Error> {
        match (if version >= 17 && !uuid_is_nil(m.replica_directory_id) {
                tag_entry(0u32, spec_write_uuid(m.replica_directory_id))
            } else {
                Ok(Seq::empty())
        }) {
            Err(e) => Err(e),
            Ok(k0) => match (if version >= 18 && m.high_watermark != 9223372036854775807_i64 {
                    tag_entry(1u32, spec_write_i64(m.high_watermark))
                } else {
                    Ok(Seq::empty())
            }) {
                Err(e) => Err(e),
                Ok(k1) => Ok(k0 + k1),
            },
        }
    }

    fn known_tagged_fields(&self, version: i16) -> (r: Result<Vec<RawTaggedField>, Error>)
        ensures
            match Self::spec_known_tags(self@, version) {
            Err(e) => r matches Err(e2) && e2 == e,
            Ok(k) => r matches Ok(v) && views(v@) == k,
            },
    {
        let ghost m = self@;
        let ghost w0 = spec_write_uuid(m.replica_directory_id);
        let ghost e0 = if version >= 17 && !uuid_is_nil(m.replica_directory_id) {
            tag_entry(0u32, w0)
        } else {
            Ok(Seq::empty())
        };
        let ghost w1 = spec_write_i64(m.high_watermark);
        let ghost e1 = if version >= 18 && m.high_watermark != 9223372036854775807_i64 {
            tag_entry(1u32, w1)
        } else {
            Ok(Seq::empty())
        };
        let mut known: Vec<RawTaggedField> = empty_vec();
        let ghost prev0 = views(known@);
        if version >= 17 && !self.replica_directory_id.is_nil() {
            let n = match Ok(16) {
                Ok(n) => n,
                Err(e) => {
                    return Err(e);
                },
            };
            if n > isize::MAX as usize {
                return Err(Error::ValueTooLong);
            }
            let mut tag_buf = bytes_mut_new();
            let _: Result<(), Error> = {
                write_uuid(&mut tag_buf, self.replica_directory_id);
                Ok(())
            };
            let data = bytes_mut_freeze(tag_buf);
            assert(bytes_seq(data) =~= written(w0));
            known.push(RawTaggedField { tag: 0, data });
        }
        assert(views(known@) =~= prev0 + e0->Ok_0);
        let ghost prev1 = views(known@);
        if version >= 18 && self.high_watermark != 9223372036854775807_i64 {
            let n = match Ok(8) {
                Ok(n) => n,
                Err(e) => {
                    return Err(e);
                },
            };
            if n > isize::MAX as usize {
                return Err(Error::ValueTooLong);
            }
            let mut tag_buf = bytes_mut_new();
            let _: Result<(), Error> = {
                write_i64(&mut tag_buf, self.high_watermark);
                Ok(())
            };
            let data = bytes_mut_freeze(tag_buf);
            assert(bytes_seq(data) =~= written(w1));
            known.push(RawTaggedField { tag: 1, data });
        }
        assert(views(known@) =~= prev1 + e1->Ok_0);
        Ok(known)
    }

    fn read_partition(buf: &mut Bytes, version: i16) -> (r: Result<i32, Error>)
        ensures
            read_as(Self::spec_read_partition(bytes_seq(*old(buf)), version), *final(buf), r),
            took_front(*old(buf), *final(buf)),
    {
        proof {
            reveal(FetchPartition::spec_read_partition);
        }
        Ok(read_i32(buf)?)
    }

    fn read_current_leader_epoch(buf: &mut Bytes, version: i16) -> (r: Result<i32, Error>)
        ensures
            read_as(Self::spec_read_current_leader_epoch(bytes_seq(*old(buf)), version), *final(buf), r),
            took_front(*old(buf), *final(buf)),
    {
        proof {
            reveal(FetchPartition::spec_read_current_leader_epoch);
        }
        Ok(if version >= 9 {
                read_i32(buf)?
            } else {
                -1i32
        })
    }

    fn read_fetch_offset(buf: &mut Bytes, version: i16) -> (r: Result<i64, Error>)
        ensures
            read_as(Self::spec_read_fetch_offset(bytes_seq(*old(buf)), version), *final(buf), r),
            took_front(*old(buf), *final(buf)),
    {
        proof {
            reveal(FetchPartition::spec_read_fetch_offset);
        }
        Ok(read_i64(buf)?)
    }

    fn read_last_fetched_epoch(buf: &mut Bytes, version: i16) -> (r: Result<i32, Error>)
        ensures
            read_as(Self::spec_read_last_fetched_epoch(bytes_seq(*old(buf)), version), *final(buf), r),
            took_front(*old(buf), *final(buf)),
    {
        proof {
            reveal(FetchPartition::spec_read_last_fetched_epoch);
        }
        Ok(if version >= 12 {
                read_i32(buf)?
            } else {
                -1i32
        })
    }

    fn read_log_start_offset(buf: &mut Bytes, version: i16) -> (r: Result<i64, Error>)
        ensures
            read_as(Self::spec_read_log_start_offset(bytes_seq(*old(buf)), version), *final(buf), r),
            took_front(*old(buf), *final(buf)),
    {
        proof {
            reveal(FetchPartition::spec_read_log_start_offset);
        }
        Ok(if version >= 5 {
                read_i64(buf)?
            } else {
                -1i64
        })
    }

    fn read_partition_max_bytes(buf: &mut Bytes, version: i16) -> (r: Result<i32, Error>)
        ensures
            read_as(Self::spec_read_partition_max_bytes(bytes_seq(*old(buf)), version), *final(buf), r),
            took_front(*old(buf), *final(buf)),
    {
        proof {
            reveal(FetchPartition::spec_read_partition_max_bytes);
        }
        Ok(read_i32(buf)?)
    }

    #[verifier::rlimit(56)]
    #[verifier::spinoff_prover]
    pub fn read(buf: &mut Bytes, version: i16) -> (r: Result<Self, Error>)
        ensures
            read_as(Self::spec_read(bytes_seq(*old(buf)), version), *final(buf), r),
            took_front(*old(buf), *final(buf)),
    {
        let partition = Self::read_partition(buf, version)?;
        let current_leader_epoch = Self::read_current_leader_epoch(buf, version)?;
        let fetch_offset = Self::read_fetch_offset(buf, version)?;
        let last_fetched_epoch = Self::read_last_fetched_epoch(buf, version)?;
        let log_start_offset = Self::read_log_start_offset(buf, version)?;
        let partition_max_bytes = Self::read_partition_max_bytes(buf, version)?;
        let (replica_directory_id, high_watermark, _unknown_tagged_fields) = if version >= 12 {
            let tags = read_tagged_fields(buf)?;
            Self::apply_tags(&tags, version)?
        } else {
            (KafkaUuid::zero(), i64::MAX, empty_vec())
        };
        Ok(FetchPartition {
                partition: partition,
                current_leader_epoch: current_leader_epoch,
                fetch_offset: fetch_offset,
                last_fetched_epoch: last_fetched_epoch,
                log_start_offset: log_start_offset,
                partition_max_bytes: partition_max_bytes,
                replica_directory_id: replica_directory_id,
                high_watermark: high_watermark,
                _unknown_tagged_fields: _unknown_tagged_fields,
        })
    }

    #[verifier::rlimit(100)]
    #[verifier::spinoff_prover]
    pub fn write(&self, buf: &mut BytesMut, version: i16) -> (r: Result<(), Error>)
        requires
            has_room(Self::spec_write(self@, version), *old(buf)),
        ensures
            wrote(Self::spec_write(self@, version), *old(buf), *final(buf), r),
    {
        let ghost m = self@;
        proof {
            reveal(FetchPartition::spec_write_partition);
            reveal(FetchPartition::spec_write_current_leader_epoch);
            reveal(FetchPartition::spec_write_fetch_offset);
            reveal(FetchPartition::spec_write_last_fetched_epoch);
            reveal(FetchPartition::spec_write_log_start_offset);
            reveal(FetchPartition::spec_write_partition_max_bytes);
            reveal(FetchPartition::spec_write_tags);
        }
        let ghost s0 = Self::spec_write_partition(m, version);
        let ghost w0 = s0;
        let ghost s1 = Self::spec_write_current_leader_epoch(m, version);
        let ghost w1 = chain(w0, s1);
        let ghost s2 = Self::spec_write_fetch_offset(m, version);
        let ghost w2 = chain(w1, s2);
        let ghost s3 = Self::spec_write_last_fetched_epoch(m, version);
        let ghost w3 = chain(w2, s3);
        let ghost s4 = Self::spec_write_log_start_offset(m, version);
        let ghost w4 = chain(w3, s4);
        let ghost s5 = Self::spec_write_partition_max_bytes(m, version);
        let ghost w5 = chain(w4, s5);
        let ghost s6 = Self::spec_write_tags(m, version);
        let ghost w6 = chain(w5, s6);
        assert(Self::spec_write(m, version) == w6);
        assert(written(w5).len() <= written(w6).len() && (w5 is Err ==> w6 == w5));
        assert(written(w4).len() <= written(w6).len() && (w4 is Err ==> w6 == w4));
        assert(written(w3).len() <= written(w6).len() && (w3 is Err ==> w6 == w3));
        assert(written(w2).len() <= written(w6).len() && (w2 is Err ==> w6 == w2));
        assert(written(w1).len() <= written(w6).len() && (w1 is Err ==> w6 == w1));
        assert(written(w0).len() <= written(w6).len() && (w0 is Err ==> w6 == w0));
        let ghost mid = bytes_mut_seq(*buf);
        proof {
            lemma_append_empty(mid);
        }
        let r0 = {
            write_i32(buf, self.partition);
            Ok(())
        };
        assert(bytes_mut_seq(*buf) == mid + written(s0));
        if r0.is_err() {
            return r0;
        }
        let ghost mid = bytes_mut_seq(*buf);
        proof {
            lemma_append_empty(mid);
        }
        let r1 = if version >= 9 {
            {
                write_i32(buf, self.current_leader_epoch);
                Ok(())
            }
        } else {
            if self.current_leader_epoch != -1i32 {
                Err(Error::UnsupportedFieldVersion(UnsupportedFieldVersion::new(1, "current_leader_epoch", version)))
            } else {
                Ok(())
            }
        };
        assert(bytes_mut_seq(*buf) == mid + written(s1));
        proof {
            lemma_step(bytes_mut_seq(*old(buf)), w0, s1);
        }
        if r1.is_err() {
            return r1;
        }
        let ghost mid = bytes_mut_seq(*buf);
        proof {
            lemma_append_empty(mid);
        }
        let r2 = {
            write_i64(buf, self.fetch_offset);
            Ok(())
        };
        assert(bytes_mut_seq(*buf) == mid + written(s2));
        proof {
            lemma_step(bytes_mut_seq(*old(buf)), w1, s2);
        }
        if r2.is_err() {
            return r2;
        }
        let ghost mid = bytes_mut_seq(*buf);
        proof {
            lemma_append_empty(mid);
        }
        let r3 = if version >= 12 {
            {
                write_i32(buf, self.last_fetched_epoch);
                Ok(())
            }
        } else {
            if self.last_fetched_epoch != -1i32 {
                Err(Error::UnsupportedFieldVersion(UnsupportedFieldVersion::new(1, "last_fetched_epoch", version)))
            } else {
                Ok(())
            }
        };
        assert(bytes_mut_seq(*buf) == mid + written(s3));
        proof {
            lemma_step(bytes_mut_seq(*old(buf)), w2, s3);
        }
        if r3.is_err() {
            return r3;
        }
        let ghost mid = bytes_mut_seq(*buf);
        proof {
            lemma_append_empty(mid);
        }
        let r4 = if version >= 5 {
            {
                write_i64(buf, self.log_start_offset);
                Ok(())
            }
        } else {
            if self.log_start_offset != -1i64 {
                Err(Error::UnsupportedFieldVersion(UnsupportedFieldVersion::new(1, "log_start_offset", version)))
            } else {
                Ok(())
            }
        };
        assert(bytes_mut_seq(*buf) == mid + written(s4));
        proof {
            lemma_step(bytes_mut_seq(*old(buf)), w3, s4);
        }
        if r4.is_err() {
            return r4;
        }
        let ghost mid = bytes_mut_seq(*buf);
        proof {
            lemma_append_empty(mid);
        }
        let r5 = {
            write_i32(buf, self.partition_max_bytes);
            Ok(())
        };
        assert(bytes_mut_seq(*buf) == mid + written(s5));
        proof {
            lemma_step(bytes_mut_seq(*old(buf)), w4, s5);
        }
        if r5.is_err() {
            return r5;
        }
        let ghost mid = bytes_mut_seq(*buf);
        proof {
            lemma_append_empty(mid);
        }
        let r6 = if version >= 12 {
            match self.known_tagged_fields(version) {
                Err(e) => Err(e),
                Ok(known) => {
                    let all = append_fields(known, &self._unknown_tagged_fields);
                    write_tagged_fields(buf, &sort_by_tag(&all))
                },
            }
        } else {
            Ok(())
        };
        assert(bytes_mut_seq(*buf) == mid + written(s6));
        proof {
            lemma_step(bytes_mut_seq(*old(buf)), w5, s6);
        }
        if r6.is_err() {
            return r6;
        }
        Ok(())
    }

    #[verifier::rlimit(100)]
    #[verifier::spinoff_prover]
    pub fn encoded_len(&self, version: i16) -> (r: Result<usize, Error>)
        ensures
            r == len_result(Self::spec_write(self@, version)),
    {
        let ghost m = self@;
        proof {
            reveal(FetchPartition::spec_write_partition);
            reveal(FetchPartition::spec_write_current_leader_epoch);
            reveal(FetchPartition::spec_write_fetch_offset);
            reveal(FetchPartition::spec_write_last_fetched_epoch);
            reveal(FetchPartition::spec_write_log_start_offset);
            reveal(FetchPartition::spec_write_partition_max_bytes);
            reveal(FetchPartition::spec_write_tags);
        }
        let ghost s0 = Self::spec_write_partition(m, version);
        let ghost w0 = s0;
        let ghost s1 = Self::spec_write_current_leader_epoch(m, version);
        let ghost w1 = chain(w0, s1);
        let ghost s2 = Self::spec_write_fetch_offset(m, version);
        let ghost w2 = chain(w1, s2);
        let ghost s3 = Self::spec_write_last_fetched_epoch(m, version);
        let ghost w3 = chain(w2, s3);
        let ghost s4 = Self::spec_write_log_start_offset(m, version);
        let ghost w4 = chain(w3, s4);
        let ghost s5 = Self::spec_write_partition_max_bytes(m, version);
        let ghost w5 = chain(w4, s5);
        let ghost s6 = Self::spec_write_tags(m, version);
        let ghost w6 = chain(w5, s6);
        assert(Self::spec_write(m, version) == w6);
        assert(w5 is Err ==> w6 == w5);
        assert(w4 is Err ==> w6 == w4);
        assert(w3 is Err ==> w6 == w3);
        assert(w2 is Err ==> w6 == w2);
        assert(w1 is Err ==> w6 == w1);
        assert(w0 is Err ==> w6 == w0);
        let mut len: usize = 0;
        let l0 = Ok(4);
        assert(l0 == len_result(s0));
        let n0 = match l0 {
            Ok(n) => n,
            Err(e) => {
                return Err(e);
            },
        };
        len = saturating_sum(len, n0);
        assert(w0 is Ok && len == saturate(written(w0).len() as int));
        let l1 = if version >= 9 {
            Ok(4)
        } else {
            if self.current_leader_epoch != -1i32 {
                Err(Error::UnsupportedFieldVersion(UnsupportedFieldVersion::new(1, "current_leader_epoch", version)))
            } else {
                Ok(0)
            }
        };
        assert(l1 == len_result(s1));
        let n1 = match l1 {
            Ok(n) => n,
            Err(e) => {
                return Err(e);
            },
        };
        proof {
            lemma_len_step(w0, s1, n1);
        }
        len = saturating_sum(len, n1);
        assert(w1 is Ok && len == saturate(written(w1).len() as int));
        let l2 = Ok(8);
        assert(l2 == len_result(s2));
        let n2 = match l2 {
            Ok(n) => n,
            Err(e) => {
                return Err(e);
            },
        };
        proof {
            lemma_len_step(w1, s2, n2);
        }
        len = saturating_sum(len, n2);
        assert(w2 is Ok && len == saturate(written(w2).len() as int));
        let l3 = if version >= 12 {
            Ok(4)
        } else {
            if self.last_fetched_epoch != -1i32 {
                Err(Error::UnsupportedFieldVersion(UnsupportedFieldVersion::new(1, "last_fetched_epoch", version)))
            } else {
                Ok(0)
            }
        };
        assert(l3 == len_result(s3));
        let n3 = match l3 {
            Ok(n) => n,
            Err(e) => {
                return Err(e);
            },
        };
        proof {
            lemma_len_step(w2, s3, n3);
        }
        len = saturating_sum(len, n3);
        assert(w3 is Ok && len == saturate(written(w3).len() as int));
        let l4 = if version >= 5 {
            Ok(8)
        } else {
            if self.log_start_offset != -1i64 {
                Err(Error::UnsupportedFieldVersion(UnsupportedFieldVersion::new(1, "log_start_offset", version)))
            } else {
                Ok(0)
            }
        };
        assert(l4 == len_result(s4));
        let n4 = match l4 {
            Ok(n) => n,
            Err(e) => {
                return Err(e);
            },
        };
        proof {
            lemma_len_step(w3, s4, n4);
        }
        len = saturating_sum(len, n4);
        assert(w4 is Ok && len == saturate(written(w4).len() as int));
        let l5 = Ok(4);
        assert(l5 == len_result(s5));
        let n5 = match l5 {
            Ok(n) => n,
            Err(e) => {
                return Err(e);
            },
        };
        proof {
            lemma_len_step(w4, s5, n5);
        }
        len = saturating_sum(len, n5);
        assert(w5 is Ok && len == saturate(written(w5).len() as int));
        let l6 = if version >= 12 {
            match self.known_tagged_fields(version) {
                Err(e) => Err(e),
                Ok(known) => {
                    let all = append_fields(known, &self._unknown_tagged_fields);
                    tagged_fields_len(&sort_by_tag(&all))
                },
            }
        } else {
            Ok(0)
        };
        assert(l6 == len_result(s6));
        let n6 = match l6 {
            Ok(n) => n,
            Err(e) => {
                return Err(e);
            },
        };
        proof {
            lemma_len_step(w5, s6, n6);
        }
        len = saturating_sum(len, n6);
        assert(w6 is Ok && len == saturate(written(w6).len() as int));
        Ok(len)
    }
}

#[derive(Debug, PartialEq)]
pub struct ForgottenTopic {
    /// The topic name.
    pub topic: KafkaString,
    /// The unique topic ID.
    pub topic_id: KafkaUuid,
    /// The partitions indexes to forget.
    pub partitions: Vec<i32>,
    pub _unknown_tagged_fields: Vec<RawTaggedField>,
}

/// What a `ForgottenTopic` holds, as the specification sees it.
#[verifier::ext_equal]
pub struct ForgottenTopicView {
    pub topic: Seq<u8>,
    pub topic_id: KafkaUuid,
    pub partitions: Seq<i32>,
    pub unknown_tagged_fields: Seq<(u32, Seq<u8>)>,
}

impl View for ForgottenTopic {
    type V = ForgottenTopicView;

    open spec fn view(&self) -> ForgottenTopicView {
        ForgottenTopicView {
            topic: self.topic@,
            topic_id: self.topic_id,
            partitions: views(self.partitions@),
            unknown_tagged_fields: views(self._unknown_tagged_fields@),
        }
    }
}

impl Clone for ForgottenTopic {
    fn clone(&self) -> (r: Self)
        ensures
            r@ == self@,
    {
        let r = ForgottenTopic {
            topic: self.topic.clone(),
            topic_id: self.topic_id,
            partitions: clone_vec(&self.partitions),
            _unknown_tagged_fields: clone_vec(&self._unknown_tagged_fields),
        };
        assert(r@ =~= self@);
        r
    }
}

impl ViewClone for ForgottenTopic {
    fn clone_view(&self) -> (r: Self) {
        self.clone()
    }
}

impl Default for ForgottenTopic {
    fn default() -> (r: Self)
        ensures
            r@ == Self::default_view(),
    {
        let r = ForgottenTopic {
            topic: KafkaString::default(),
            topic_id: KafkaUuid::zero(),
            partitions: empty_vec(),
            _unknown_tagged_fields: empty_vec(),
        };
        assert(r@ =~= Self::default_view());
        r
    }
}

impl ForgottenTopic {
    pub open spec fn default_view() -> ForgottenTopicView {
        ForgottenTopicView {
            topic: Seq::empty(),
            topic_id: KafkaUuid { most_significant_bits: 0, least_significant_bits: 0 },
            partitions: Seq::empty(),
            unknown_tagged_fields: Seq::empty(),
        }
    }

    /// The `topic` field, read from the front of `s`.
    #[verifier::opaque]
    pub open spec fn spec_read_topic(s: Seq<u8>, version: i16) -> ReadOutcome<Seq<u8>> {
        if version <= 12 {
            if version >= 12 {
                spec_read_compact_string(s)
            } else {
                spec_read_string(s)
            }
        } else {
            Ok((Seq::empty(), s))
        }
    }

    /// The `topic_id` field, read from the front of `s`.
    #[verifier::opaque]
    pub open spec fn spec_read_topic_id(s: Seq<u8>, version: i16) -> ReadOutcome<KafkaUuid> {
        if version >= 13 {
            spec_read_uuid(s)
        } else {
            Ok((KafkaUuid { most_significant_bits: 0, least_significant_bits: 0 }, s))
        }
    }

    /// The `partitions` field, read from the front of `s`.
    #[verifier::opaque]
    pub open spec fn spec_read_partitions(s: Seq<u8>, version: i16) -> ReadOutcome<Seq<i32>> {
        if version >= 12 {
            spec_read_array::<Int32Item>(s, version, true)
        } else {
            spec_read_array::<Int32Item>(s, version, false)
        }
    }

    /// The tagged fields, read from the front of `s`.
    #[verifier::opaque]
    pub open spec fn spec_read_tags(s: Seq<u8>, version: i16) -> ReadOutcome<Seq<(u32, Seq<u8>)>> {
        if version >= 12 {
            spec_read_tagged_fields(s)
        } else {
            Ok((Seq::empty(), s))
        }
    }

    pub open spec fn spec_read(s: Seq<u8>, version: i16) -> ReadOutcome<ForgottenTopicView> {
        match (Self::spec_read_topic(s, version)) {
            Err(e) => Err(e),
            Ok((topic, s)) => match (Self::spec_read_topic_id(s, version)) {
                Err(e) => Err(e),
                Ok((topic_id, s)) => match (Self::spec_read_partitions(s, version)) {
                    Err(e) => Err(e),
                    Ok((partitions, s)) => match (Self::spec_read_tags(s, version)) {
                        Err(e) => Err(e),
                        Ok((unknown_tagged_fields, s)) => Ok((ForgottenTopicView {
                                    topic: topic,
                                    topic_id: topic_id,
                                    partitions: partitions,
                                    unknown_tagged_fields: unknown_tagged_fields,
                                }, s)),
                    },
                },
            },
        }
    }

    /// What writing the `topic` field of `m` appends.
    #[verifier::opaque]
    pub open spec fn spec_write_topic(m: ForgottenTopicView, version: i16) -> WriteOutcome {
        if version <= 12 {
            if version >= 12 {
                spec_write_compact_string(m.topic)
            } else {
                spec_write_string(m.topic)
            }
        } else {
            if m.topic.len() != 0 {
                fail(Error::UnsupportedFieldVersion(UnsupportedFieldVersion { api_key: 1, field: "topic", version }))
            } else {
                emit(Seq::empty())
            }
        }
    }

    /// What writing the `topic_id` field of `m` appends.
    #[verifier::opaque]
    pub open spec fn spec_write_topic_id(m: ForgottenTopicView, version: i16) -> WriteOutcome {
        if version >= 13 {
            spec_write_uuid(m.topic_id)
        } else {
            if !uuid_is_nil(m.topic_id) {
                fail(Error::UnsupportedFieldVersion(UnsupportedFieldVersion { api_key: 1, field: "topic_id", version }))
            } else {
                emit(Seq::empty())
            }
        }
    }

    /// What writing the `partitions` field of `m` appends.
    #[verifier::opaque]
    pub open spec fn spec_write_partitions(m: ForgottenTopicView, version: i16) -> WriteOutcome {
        if version >= 12 {
            spec_write_array::<Int32Item>(m.partitions, version, true)
        } else {
            spec_write_array::<Int32Item>(m.partitions, version, false)
        }
    }

    /// What writing the tagged fields of `m` appends.
    #[verifier::opaque]
    pub open spec fn spec_write_tags(m: ForgottenTopicView, version: i16) -> WriteOutcome {
        if version >= 12 {
            spec_write_tagged_fields(sorted_by_tag(m.unknown_tagged_fields))
        } else {
            emit(Seq::empty())
        }
    }

    pub open spec fn spec_write(m: ForgottenTopicView, version: i16) -> WriteOutcome {
        chain(
            chain(
                chain(
                    Self::spec_write_topic(m, version),
                    Self::spec_write_topic_id(m, version),
                ),
                Self::spec_write_partitions(m, version),
            ),
            Self::spec_write_tags(m, version),
        )
    }

    /// Whether reading back what writing `m` in `version` appends gives `m`:
    /// fields that the version does not carry hold their default values, and
    /// tagged fields come in the order in which they are written.
    pub open spec fn canonical(m: ForgottenTopicView, version: i16) -> bool {
        &&& (if version >= 12 {
                tags_in_order(m.unknown_tagged_fields)
            } else {
                m.unknown_tagged_fields.len() == 0
        })
    }

    proof fn lemma_round_trip_topic(m: ForgottenTopicView, version: i16, rest: Seq<u8>)
        requires
            Self::canonical(m, version),
            Self::spec_write_topic(m, version) is Ok,
        ensures
            Self::spec_read_topic(written(Self::spec_write_topic(m, version)) + rest, version) == Ok::<(Seq<u8>, Seq<u8>), Error>((m.topic, rest)),
    {
        reveal(ForgottenTopic::spec_read_topic);
        reveal(ForgottenTopic::spec_write_topic);
        if version <= 12 {
            if version >= 12 {
                lemma_compact_string_round_trip(m.topic, rest);
            } else {
                lemma_string_round_trip(m.topic, rest);
            }
        } else {
            assert(Seq::<u8>::empty() + rest =~= rest);
            assert(m.topic =~= Seq::empty());
            assert(m.topic =~= Seq::empty());
        }
    }

    proof fn lemma_round_trip_topic_id(m: ForgottenTopicView, version: i16, rest: Seq<u8>)
        requires
            Self::canonical(m, version),
            Self::spec_write_topic_id(m, version) is Ok,
        ensures
            Self::spec_read_topic_id(written(Self::spec_write_topic_id(m, version)) + rest, version) == Ok::<(KafkaUuid, Seq<u8>), Error>((m.topic_id, rest)),
    {
        reveal(ForgottenTopic::spec_read_topic_id);
        reveal(ForgottenTopic::spec_write_topic_id);
        if version >= 13 {
            lemma_uuid_round_trip(m.topic_id, rest);
        } else {
            assert(Seq::<u8>::empty() + rest =~= rest);
        }
    }

    proof fn lemma_round_trip_partitions(m: ForgottenTopicView, version: i16, rest: Seq<u8>)
        requires
            Self::canonical(m, version),
            Self::spec_write_partitions(m, version) is Ok,
        ensures
            Self::spec_read_partitions(written(Self::spec_write_partitions(m, version)) + rest, version) == Ok::<(Seq<i32>, Seq<u8>), Error>((m.partitions, rest)),
    {
        reveal(ForgottenTopic::spec_read_partitions);
        reveal(ForgottenTopic::spec_write_partitions);
        if version >= 12 {
            lemma_array_round_trip::<Int32Item>(m.partitions, version, true, rest);
        } else {
            lemma_array_round_trip::<Int32Item>(m.partitions, version, false, rest);
        }
    }

    proof fn lemma_round_trip_tags(m: ForgottenTopicView, version: i16, rest: Seq<u8>)
        requires
            Self::canonical(m, version),
            Self::spec_write_tags(m, version) is Ok,
        ensures
            Self::spec_read_tags(written(Self::spec_write_tags(m, version)) + rest, version) == Ok::<(Seq<(u32, Seq<u8>)>, Seq<u8>), Error>((m.unknown_tagged_fields, rest)),
    {
        reveal(ForgottenTopic::spec_read_tags);
        reveal(ForgottenTopic::spec_write_tags);
        if version >= 12 {
            lemma_sorted_by_tag_in_order(m.unknown_tagged_fields);
            lemma_tagged_fields_round_trip(m.unknown_tagged_fields, rest);
        } else {
            assert(Seq::<u8>::empty() + rest =~= rest);
            assert(m.unknown_tagged_fields =~= Seq::empty());
        }
    }

    /// Reading back what writing `m` in `version` appends gives `m` again, and
    /// leaves what follows, for every canonical message whose write succeeds.
    #[verifier::rlimit(80)]
    #[verifier::spinoff_prover]
    pub proof fn lemma_round_trip(m: ForgottenTopicView, version: i16, rest: Seq<u8>)
        requires
            Self::canonical(m, version),
            Self::spec_write(m, version) is Ok,
        ensures
            Self::spec_read(written(Self::spec_write(m, version)) + rest, version) == Ok::<(ForgottenTopicView, Seq<u8>), Error>((m, rest)),
    {
        let b0 = written(Self::spec_write_topic(m, version));
        let b1 = written(Self::spec_write_topic_id(m, version));
        let b2 = written(Self::spec_write_partitions(m, version));
        let b3 = written(Self::spec_write_tags(m, version));
        let t4 = rest;
        let t3 = b3 + t4;
        let t2 = b2 + t3;
        let t1 = b1 + t2;
        let t0 = b0 + t1;
        let w0 = Self::spec_write_topic(m, version);
        let w1 = chain(w0, Self::spec_write_topic_id(m, version));
        let w2 = chain(w1, Self::spec_write_partitions(m, version));
        let w3 = chain(w2, Self::spec_write_tags(m, version));
        assert(Self::spec_write(m, version) == w3);
        assert(written(w3) + t4 =~= written(w2) + t3);
        assert(written(w2) + t3 =~= written(w1) + t2);
        assert(written(w1) + t2 =~= written(w0) + t1);
        Self::lemma_round_trip_topic(m, version, t1);
        Self::lemma_round_trip_topic_id(m, version, t2);
        Self::lemma_round_trip_partitions(m, version, t3);
        Self::lemma_round_trip_tags(m, version, t4);
    }

    /// In a version that does not carry `unknown_tagged_fields`, writing ignores its value.
    pub proof fn lemma_write_ignores_unknown_tagged_fields(m: ForgottenTopicView, value: Seq<(u32, Seq<u8>)>, version: i16)
        requires
            !(version >= 12),
        ensures
            Self::spec_write((ForgottenTopicView { unknown_tagged_fields: value, ..m }), version) == Self::spec_write(m, version),
    {
        reveal(ForgottenTopic::spec_write_topic);
        reveal(ForgottenTopic::spec_write_topic_id);
        reveal(ForgottenTopic::spec_write_partitions);
        reveal(ForgottenTopic::spec_write_tags);
    }

    /// The default message holds the default value of each field of the schema.
    pub proof fn lemma_default_values()
        ensures
            Self::default_view().topic.len() == 0,
            Self::default_view().topic_id == (KafkaUuid { most_significant_bits: 0, least_significant_bits: 0 }),
            Self::default_view().partitions.len() == 0,
            Self::default_view().unknown_tagged_fields.len() == 0,
    {
    }

    /// Each integer, boolean and identifier field is written as its standard
    /// big-endian bytes (a boolean as `1` or `0`) in the versions that carry
    /// it, and as nothing in the others; reading it takes those bytes back (any
    /// byte other than `0` reads as `true`), or gives its default value.
    pub proof fn lemma_field_encodings(m: ForgottenTopicView, s: Seq<u8>, version: i16)
        ensures
            version >= 13 ==> Self::spec_write_topic_id(m, version) == Ok::<Seq<u8>, (Error, Seq<u8>)>((u64_bytes(m.topic_id.most_significant_bits) + u64_bytes(m.topic_id.least_significant_bits))),
            version >= 13 ==> Self::spec_read_topic_id(s, version) == spec_read_uuid(s),
    {
        reveal(ForgottenTopic::spec_write_topic_id);
        reveal(ForgottenTopic::spec_read_topic_id);
    }

    /// Whether writing `m` in `version` succeeds, said over its parts: the
    /// version is one the schema covers, every field that the version cannot
    /// carry holds its default value, and every string, byte string, array and
    /// tagged field fits its length prefix.
    pub open spec fn writable(m: ForgottenTopicView, version: i16) -> bool {
        &&& (if version <= 12 {
                m.topic.len() <= 0x7fff
            } else {
                !(m.topic.len() != 0)
        })
        &&& (if version >= 13 {
                true
            } else {
                !(!uuid_is_nil(m.topic_id))
        })
        &&& (m.partitions.len() <= i32::MAX && all_writable::<Int32Item>(m.partitions, version))
        &&& (if version >= 12 {
                m.unknown_tagged_fields.len() <= u32::MAX && tags_fit(m.unknown_tagged_fields)
            } else {
                true
        })
    }

    proof fn lemma_writable_topic(m: ForgottenTopicView, version: i16)
        ensures
            Self::spec_write_topic(m, version) is Ok <==> (if version <= 12 { m.topic.len() <= 0x7fff } else { !(m.topic.len() != 0) }),
    {
        reveal(ForgottenTopic::spec_write_topic);
    }

    proof fn lemma_writable_topic_id(m: ForgottenTopicView, version: i16)
        ensures
            Self::spec_write_topic_id(m, version) is Ok <==> (if version >= 13 { true } else { !(!uuid_is_nil(m.topic_id)) }),
    {
        reveal(ForgottenTopic::spec_write_topic_id);
    }

    proof fn lemma_writable_partitions(m: ForgottenTopicView, version: i16)
        ensures
            Self::spec_write_partitions(m, version) is Ok <==> (m.partitions.len() <= i32::MAX && all_writable::<Int32Item>(m.partitions, version)),
    {
        reveal(ForgottenTopic::spec_write_partitions);
        if version >= 12 {
            lemma_array_writable::<Int32Item>(m.partitions, version, true);
        } else {
            lemma_array_writable::<Int32Item>(m.partitions, version, false);
        }
    }

    proof fn lemma_writable_tags(m: ForgottenTopicView, version: i16)
        ensures
            Self::spec_write_tags(m, version) is Ok <==> (if version >= 12 { m.unknown_tagged_fields.len() <= u32::MAX && tags_fit(m.unknown_tagged_fields) } else { true }),
    {
        reveal(ForgottenTopic::spec_write_tags);
        if version >= 12 {
            lemma_sorted_tags_fit(m.unknown_tagged_fields);
            lemma_tagged_fields_writable(sorted_by_tag(m.unknown_tagged_fields));
        }
    }

    /// Writing `m` in `version` succeeds exactly when `m` is writable in it;
    /// so do `write` and `encoded_len`, whose results follow `spec_write`.
    #[verifier::rlimit(54)]
    pub proof fn lemma_writable(m: ForgottenTopicView, version: i16)
        ensures
            Self::spec_write(m, version) is Ok <==> Self::writable(m, version),
    {
        Self::lemma_writable_topic(m, version);
        Self::lemma_writable_topic_id(m, version);
        Self::lemma_writable_partitions(m, version);
        Self::lemma_writable_tags(m, version);
    }

    pub fn with_topic(self, value: KafkaString) -> (r: Self)
        ensures
            r@ == (ForgottenTopicView { topic: value@, ..self@ }),
    {
        let mut r = self;
        r.topic = value;
        r
    }

    pub fn with_topic_id(self, value: KafkaUuid) -> (r: Self)
        ensures
            r@ == (ForgottenTopicView { topic_id: value, ..self@ }),
    {
        let mut r = self;
        r.topic_id = value;
        r
    }

    pub fn with_partitions(self, value: Vec<i32>) -> (r: Self)
        ensures
            r@ == (ForgottenTopicView { partitions: views(value@), ..self@ }),
    {
        let mut r = self;
        r.partitions = value;
        r
    }

    fn read_topic(buf: &mut Bytes, version: i16) -> (r: Result<KafkaString, Error>)
        ensures
            read_as(Self::spec_read_topic(bytes_seq(*old(buf)), version), *final(buf), r),
            took_front(*old(buf), *final(buf)),
    {
        proof {
            reveal(ForgottenTopic::spec_read_topic);
        }
        Ok(if version <= 12 {
                if version >= 12 {
                    read_compact_string(buf)?
                } else {
                    read_string(buf)?
                }
            } else {
                KafkaString::default()
        })
    }

    fn read_topic_id(buf: &mut Bytes, version: i16) -> (r: Result<KafkaUuid, Error>)
        ensures
            read_as(Self::spec_read_topic_id(bytes_seq(*old(buf)), version), *final(buf), r),
            took_front(*old(buf), *final(buf)),
    {
        proof {
            reveal(ForgottenTopic::spec_read_topic_id);
        }
        Ok(if version >= 13 {
                read_uuid(buf)?
            } else {
                KafkaUuid::zero()
        })
    }

    fn read_partitions(buf: &mut Bytes, version: i16) -> (r: Result<Vec<i32>, Error>)
        ensures
            read_vec_as(Self::spec_read_partitions(bytes_seq(*old(buf)), version), *final(buf), r),
            took_front(*old(buf), *final(buf)),
    {
        proof {
            reveal(ForgottenTopic::spec_read_partitions);
        }
        Ok(if version >= 12 {
                read_array::<Int32Item>(buf, version, true)?
            } else {
                read_array::<Int32Item>(buf, version, false)?
        })
    }

    fn read_tags(buf: &mut Bytes, version: i16) -> (r: Result<Vec<RawTaggedField>, Error>)
        ensures
            read_vec_as(Self::spec_read_tags(bytes_seq(*old(buf)), version), *final(buf), r),
            took_front(*old(buf), *final(buf)),
    {
        proof {
            reveal(ForgottenTopic::spec_read_tags);
        }
        Ok(if version >= 12 {
                read_tagged_fields(buf)?
            } else {
                empty_vec()
        })
    }

    pub fn read(buf: &mut Bytes, version: i16) -> (r: Result<Self, Error>)
        ensures
            read_as(Self::spec_read(bytes_seq(*old(buf)), version), *final(buf), r),
            took_front(*old(buf), *final(buf)),
    {
        let topic = Self::read_topic(buf, version)?;
        let topic_id = Self::read_topic_id(buf, version)?;
        let partitions = Self::read_partitions(buf, version)?;
        let _unknown_tagged_fields = Self::read_tags(buf, version)?;
        Ok(ForgottenTopic {
                topic: topic,
                topic_id: topic_id,
                partitions: partitions,
                _unknown_tagged_fields: _unknown_tagged_fields,
        })
    }

    #[verifier::rlimit(70)]
    pub fn write(&self, buf: &mut BytesMut, version: i16) -> (r: Result<(), Error>)
        requires
            has_room(Self::spec_write(self@, version), *old(buf)),
        ensures
            wrote(Self::spec_write(self@, version), *old(buf), *final(buf), r),
    {
        let ghost m = self@;
        proof {
            reveal(ForgottenTopic::spec_write_topic);
            reveal(ForgottenTopic::spec_write_topic_id);
            reveal(ForgottenTopic::spec_write_partitions);
            reveal(ForgottenTopic::spec_write_tags);
        }
        let ghost s0 = Self::spec_write_topic(m, version);
        let ghost w0 = s0;
        let ghost s1 = Self::spec_write_topic_id(m, version);
        let ghost w1 = chain(w0, s1);
        let ghost s2 = Self::spec_write_partitions(m, version);
        let ghost w2 = chain(w1, s2);
        let ghost s3 = Self::spec_write_tags(m, version);
        let ghost w3 = chain(w2, s3);
        assert(Self::spec_write(m, version) == w3);
        assert(written(w2).len() <= written(w3).len() && (w2 is Err ==> w3 == w2));
        assert(written(w1).len() <= written(w3).len() && (w1 is Err ==> w3 == w1));
        assert(written(w0).len() <= written(w3).len() && (w0 is Err ==> w3 == w0));
        let ghost mid = bytes_mut_seq(*buf);
        proof {
            lemma_append_empty(mid);
        }
        let r0 = if version <= 12 {
            if version >= 12 {
                write_compact_string(buf, &self.topic)
            } else {
                write_string(buf, &self.topic)
            }
        } else {
            if !self.topic.is_empty() {
                Err(Error::UnsupportedFieldVersion(UnsupportedFieldVersion::new(1, "topic", version)))
            } else {
                Ok(())
            }
        };
        assert(bytes_mut_seq(*buf) == mid + written(s0));
        if r0.is_err() {
            return r0;
        }
        let ghost mid = bytes_mut_seq(*buf);
        proof {
            lemma_append_empty(mid);
        }
        let r1 = if version >= 13 {
            {
                write_uuid(buf, self.topic_id);
                Ok(())
            }
        } else {
            if !self.topic_id.is_nil() {
                Err(Error::UnsupportedFieldVersion(UnsupportedFieldVersion::new(1, "topic_id", version)))
            } else {
                Ok(())
            }
        };
        assert(bytes_mut_seq(*buf) == mid + written(s1));
        proof {
            lemma_step(bytes_mut_seq(*old(buf)), w0, s1);
        }
        if r1.is_err() {
            return r1;
        }
        let ghost mid = bytes_mut_seq(*buf);
        proof {
            lemma_append_empty(mid);
        }
        let r2 = if version >= 12 {
            write_array::<Int32Item>(buf, &self.partitions, version, true)
        } else {
            write_array::<Int32Item>(buf, &self.partitions, version, false)
        };
        assert(bytes_mut_seq(*buf) == mid + written(s2));
        proof {
            lemma_step(bytes_mut_seq(*old(buf)), w1, s2);
        }
        if r2.is_err() {
            return r2;
        }
        let ghost mid = bytes_mut_seq(*buf);
        proof {
            lemma_append_empty(mid);
        }
        let r3 = if version >= 12 {
            write_tagged_fields(buf, &sort_by_tag(&self._unknown_tagged_fields))
        } else {
            Ok(())
        };
        assert(bytes_mut_seq(*buf) == mid + written(s3));
        proof {
            lemma_step(bytes_mut_seq(*old(buf)), w2, s3);
        }
        if r3.is_err() {
            return r3;
        }
        Ok(())
    }

    #[verifier::rlimit(70)]
    pub fn encoded_len(&self, version: i16) -> (r: Result<usize, Error>)
        ensures
            r == len_result(Self::spec_write(self@, version)),
    {
        let ghost m = self@;
        proof {
            reveal(ForgottenTopic::spec_write_topic);
            reveal(ForgottenTopic::spec_write_topic_id);
            reveal(ForgottenTopic::spec_write_partitions);
            reveal(ForgottenTopic::spec_write_tags);
        }
        let ghost s0 = Self::spec_write_topic(m, version);
        let ghost w0 = s0;
        let ghost s1 = Self::spec_write_topic_id(m, version);
        let ghost w1 = chain(w0, s1);
        let ghost s2 = Self::spec_write_partitions(m, version);
        let ghost w2 = chain(w1, s2);
        let ghost s3 = Self::spec_write_tags(m, version);
        let ghost w3 = chain(w2, s3);
        assert(Self::spec_write(m, version) == w3);
        assert(w2 is Err ==> w3 == w2);
        assert(w1 is Err ==> w3 == w1);
        assert(w0 is Err ==> w3 == w0);
        let mut len: usize = 0;
        let l0 = if version <= 12 {
            if version >= 12 {
                compact_string_len(&self.topic)
            } else {
                string_len(&self.topic)
            }
        } else {
            if !self.topic.is_empty() {
                Err(Error::UnsupportedFieldVersion(UnsupportedFieldVersion::new(1, "topic", version)))
            } else {
                Ok(0)
            }
        };
        assert(l0 == len_result(s0));
        let n0 = match l0 {
            Ok(n) => n,
            Err(e) => {
                return Err(e);
            },
        };
        len = saturating_sum(len, n0);
        assert(w0 is Ok && len == saturate(written(w0).len() as int));
        let l1 = if version >= 13 {
            Ok(16)
        } else {
            if !self.topic_id.is_nil() {
                Err(Error::UnsupportedFieldVersion(UnsupportedFieldVersion::new(1, "topic_id", version)))
            } else {
                Ok(0)
            }
        };
        assert(l1 == len_result(s1));
        let n1 = match l1 {
            Ok(n) => n,
            Err(e) => {
                return Err(e);
            },
        };
        proof {
            lemma_len_step(w0, s1, n1);
        }
        len = saturating_sum(len, n1);
        assert(w1 is Ok && len == saturate(written(w1).len() as int));
        let l2 = if version >= 12 {
            array_len::<Int32Item>(&self.partitions, version, true)
        } else {
            array_len::<Int32Item>(&self.partitions, version, false)
        };
        assert(l2 == len_result(s2));
        let n2 = match l2 {
            Ok(n) => n,
            Err(e) => {
                return Err(e);
            },
        };
        proof {
            lemma_len_step(w1, s2, n2);
        }
        len = saturating_sum(len, n2);
        assert(w2 is Ok && len == saturate(written(w2).len() as int));
        let l3 = if version >= 12 {
            tagged_fields_len(&sort_by_tag(&self._unknown_tagged_fields))
        } else {
            Ok(0)
        };
        assert(l3 == len_result(s3));
        let n3 = match l3 {
            Ok(n) => n,
            Err(e) => {
                return Err(e);
            },
        };
        proof {
            lemma_len_step(w2, s3, n3);
        }
        len = saturating_sum(len, n3);
        assert(w3 is Ok && len == saturate(written(w3).len() as int));
        Ok(len)
    }
}

impl Codec for FetchTopic {
    type Item = FetchTopic;

    open spec fn spec_read_item(s: Seq<u8>, version: i16) -> ReadOutcome<FetchTopicView> {
        FetchTopic::spec_read(s, version)
    }

    open spec fn spec_write_item(v: FetchTopicView, version: i16) -> WriteOutcome {
        FetchTopic::spec_write(v, version)
    }

    open spec fn canonical_item(v: FetchTopicView, version: i16) -> bool {
        FetchTopic::canonical(v, version)
    }

    proof fn lemma_item_round_trip(v: FetchTopicView, version: i16, rest: Seq<u8>) {
        FetchTopic::lemma_round_trip(v, version, rest);
    }

    open spec fn writable_item(v: FetchTopicView, version: i16) -> bool {
        FetchTopic::writable(v, version)
    }

    proof fn lemma_item_writable(v: FetchTopicView, version: i16) {
        FetchTopic::lemma_writable(v, version);
    }

    fn read_item(buf: &mut Bytes, version: i16) -> (r: Result<FetchTopic, Error>) {
        FetchTopic::read(buf, version)
    }

    fn write_item(item: &FetchTopic, buf: &mut BytesMut, version: i16) -> (r: Result<(), Error>) {
        item.write(buf, version)
    }
}

impl MeasuredCodec for FetchTopic {
    fn item_len(item: &FetchTopic, version: i16) -> (r: Result<usize, Error>) {
        item.encoded_len(version)
    }
}

impl Codec for FetchPartition {
    type Item = FetchPartition;

    open spec fn spec_read_item(s: Seq<u8>, version: i16) -> ReadOutcome<FetchPartitionView> {
        FetchPartition::spec_read(s, version)
    }

    open spec fn spec_write_item(v: FetchPartitionView, version: i16) -> WriteOutcome {
        FetchPartition::spec_write(v, version)
    }

    open spec fn canonical_item(v: FetchPartitionView, version: i16) -> bool {
        FetchPartition::canonical(v, version)
    }

    proof fn lemma_item_round_trip(v: FetchPartitionView, version: i16, rest: Seq<u8>) {
        FetchPartition::lemma_round_trip(v, version, rest);
    }

    open spec fn writable_item(v: FetchPartitionView, version: i16) -> bool {
        FetchPartition::writable(v, version)
    }

    proof fn lemma_item_writable(v: FetchPartitionView, version: i16) {
        FetchPartition::lemma_writable(v, version);
    }

    fn read_item(buf: &mut Bytes, version: i16) -> (r: Result<FetchPartition, Error>) {
        FetchPartition::read(buf, version)
    }

    fn write_item(item: &FetchPartition, buf: &mut BytesMut, version: i16) -> (r: Result<(), Error>) {
        item.write(buf, version)
    }
}

impl MeasuredCodec for FetchPartition {
    fn item_len(item: &FetchPartition, version: i16) -> (r: Result<usize, Error>) {
        item.encoded_len(version)
    }
}

impl Codec for ForgottenTopic {
    type Item = ForgottenTopic;

    open spec fn spec_read_item(s: Seq<u8>, version: i16) -> ReadOutcome<ForgottenTopicView> {
        ForgottenTopic::spec_read(s, version)
    }

    open spec fn spec_write_item(v: ForgottenTopicView, version: i16) -> WriteOutcome {
        ForgottenTopic::spec_write(v, version)
    }

    open spec fn canonical_item(v: ForgottenTopicView, version: i16) -> bool {
        ForgottenTopic::canonical(v, version)
    }

    proof fn lemma_item_round_trip(v: ForgottenTopicView, version: i16, rest: Seq<u8>) {
        ForgottenTopic::lemma_round_trip(v, version, rest);
    }

    open spec fn writable_item(v: ForgottenTopicView, version: i16) -> bool {
        ForgottenTopic::writable(v, version)
    }

    proof fn lemma_item_writable(v: ForgottenTopicView, version: i16) {
        ForgottenTopic::lemma_writable(v, version);
    }

    fn read_item(buf: &mut Bytes, version: i16) -> (r: Result<ForgottenTopic, Error>) {
        ForgottenTopic::read(buf, version)
    }

    fn write_item(item: &ForgottenTopic, buf: &mut BytesMut, version: i16) -> (r: Result<(), Error>) {
        item.write(buf, version)
    }
}

impl MeasuredCodec for ForgottenTopic {
    fn item_len(item: &ForgottenTopic, version: i16) -> (r: Result<usize, Error>) {
        item.encoded_len(version)
    }
}

} // verus!
