//! The describe cluster response message.
use crate::buffer::{bytes_mut_seq, bytes_seq};
use crate::codec::{Codec, all_canonical, all_writable, lemma_array_round_trip, lemma_array_writable, read_array, spec_read_array, spec_write_array, write_array};
use crate::error::{Error, UnsupportedVersion};
use crate::ints::{lemma_bool_roundtrip, lemma_i16_roundtrip, lemma_i32_roundtrip, lemma_i8_roundtrip, read_bool, read_i16, read_i32, read_i8, spec_read_bool, spec_read_i16, spec_read_i32, spec_read_i8, spec_write_bool, spec_write_i16, spec_write_i32, spec_write_i8, u16_bytes, u32_bytes, write_bool, write_i16, write_i32, write_i8};
use crate::strings::{lemma_compact_nullable_string_round_trip, lemma_compact_string_round_trip, read_compact_nullable_string, read_compact_string, spec_read_compact_nullable_string, spec_read_compact_string, spec_write_compact_nullable_string, spec_write_compact_string, write_compact_nullable_string, write_compact_string};
use crate::tagged::{lemma_sorted_by_tag_in_order, lemma_sorted_tags_fit, lemma_tagged_fields_round_trip, lemma_tagged_fields_writable, read_tagged_fields, sort_by_tag, sorted_by_tag, spec_read_tagged_fields, spec_write_tagged_fields, tags_fit, tags_in_order, write_tagged_fields};
use crate::types::{KafkaString, RawTaggedField};
use crate::wire::{ReadOutcome, ViewClone, WriteOutcome, chain, clone_vec, emit, empty_vec, fail, has_room, lemma_append_empty, lemma_chain_written, lemma_step, opt_view, read_as, read_opt_as, read_vec_as, took_front, views, written, wrote};
use bytes::{Bytes, BytesMut};
use vstd::prelude::*;

verus! {

broadcast use {crate::wire::lemma_chain_written, crate::wire::lemma_took_front_nothing, crate::wire::lemma_took_front_twice};

#[derive(Debug, PartialEq)]
pub struct DescribeClusterResponseData {
    /// The duration in milliseconds for which the request was throttled due to a quota violation,
    /// or zero if the request did not violate any quota.
    pub throttle_time_ms: i32,
    /// The top-level error code, or 0 if there was no error.
    pub error_code: i16,
    /// The top-level error message, or null if there was no error.
    pub error_message: Option<KafkaString>,
    /// The endpoint type that was described. 1=brokers, 2=controllers.
    pub endpoint_type: i8,
    /// The cluster ID that responding broker belongs to.
    pub cluster_id: KafkaString,
    /// The ID of the controller. When handled by a controller, returns the current voter leader
    /// ID. When handled by a broker, returns a random alive broker ID as a fallback.
    pub controller_id: i32,
    /// Each broker in the response.
    pub brokers: Vec<DescribeClusterBroker>,
    /// 32-bit bitfield to represent authorized operations for this cluster.
    pub cluster_authorized_operations: i32,
    pub _unknown_tagged_fields: Vec<RawTaggedField>,
}

/// What a `DescribeClusterResponseData` holds, as the specification sees it.
#[verifier::ext_equal]
pub struct DescribeClusterResponseDataView {
    pub throttle_time_ms: i32,
    pub error_code: i16,
    pub error_message: Option<Seq<u8>>,
    pub endpoint_type: i8,
    pub cluster_id: Seq<u8>,
    pub controller_id: i32,
    pub brokers: Seq<DescribeClusterBrokerView>,
    pub cluster_authorized_operations: i32,
    pub unknown_tagged_fields: Seq<(u32, Seq<u8>)>,
}

impl View for DescribeClusterResponseData {
    type V = DescribeClusterResponseDataView;

    open spec fn view(&self) -> DescribeClusterResponseDataView {
        DescribeClusterResponseDataView {
            throttle_time_ms: self.throttle_time_ms,
            error_code: self.error_code,
            error_message: opt_view(self.error_message),
            endpoint_type: self.endpoint_type,
            cluster_id: self.cluster_id@,
            controller_id: self.controller_id,
            brokers: views(self.brokers@),
            cluster_authorized_operations: self.cluster_authorized_operations,
            unknown_tagged_fields: views(self._unknown_tagged_fields@),
        }
    }
}

impl Clone for DescribeClusterResponseData {
    fn clone(&self) -> (r: Self)
        ensures
            r@ == self@,
    {
        let r = DescribeClusterResponseData {
            throttle_time_ms: self.throttle_time_ms,
            error_code: self.error_code,
            error_message: match &self.error_message {
                Some(x) => Some(x.clone()),
                None => None,
            },
            endpoint_type: self.endpoint_type,
            cluster_id: self.cluster_id.clone(),
            controller_id: self.controller_id,
            brokers: clone_vec(&self.brokers),
            cluster_authorized_operations: self.cluster_authorized_operations,
            _unknown_tagged_fields: clone_vec(&self._unknown_tagged_fields),
        };
        assert(r@ =~= self@);
        r
    }
}

impl ViewClone for DescribeClusterResponseData {
    fn clone_view(&self) -> (r: Self) {
        self.clone()
    }
}

impl Default for DescribeClusterResponseData {
    fn default() -> (r: Self)
        ensures
            r@ == Self::default_view(),
    {
        let r = DescribeClusterResponseData {
            throttle_time_ms: 0_i32,
            error_code: 0_i16,
            error_message: None,
            endpoint_type: 1i8,
            cluster_id: KafkaString::default(),
            controller_id: -1i32,
            brokers: empty_vec(),
            cluster_authorized_operations: i32::MIN,
            _unknown_tagged_fields: empty_vec(),
        };
        assert(r@ =~= Self::default_view());
        r
    }
}

impl DescribeClusterResponseData {
    pub open spec fn default_view() -> DescribeClusterResponseDataView {
        DescribeClusterResponseDataView {
            throttle_time_ms: 0_i32,
            error_code: 0_i16,
            error_message: None,
            endpoint_type: 1i8,
            cluster_id: Seq::empty(),
            controller_id: -1i32,
            brokers: Seq::empty(),
            cluster_authorized_operations: i32::MIN,
            unknown_tagged_fields: Seq::empty(),
        }
    }

    /// The `throttle_time_ms` field, read from the front of `s`.
    #[verifier::opaque]
    pub open spec fn spec_read_throttle_time_ms(s: Seq<u8>, version: i16) -> ReadOutcome<i32> {
        spec_read_i32(s)
    }

    /// The `error_code` field, read from the front of `s`.
    #[verifier::opaque]
    pub open spec fn spec_read_error_code(s: Seq<u8>, version: i16) -> ReadOutcome<i16> {
        spec_read_i16(s)
    }

    /// The `error_message` field, read from the front of `s`.
    #[verifier::opaque]
    pub open spec fn spec_read_error_message(s: Seq<u8>, version: i16) -> ReadOutcome<Option<Seq<u8>>> {
        spec_read_compact_nullable_string(s)
    }

    /// The `endpoint_type` field, read from the front of `s`.
    #[verifier::opaque]
    pub open spec fn spec_read_endpoint_type(s: Seq<u8>, version: i16) -> ReadOutcome<i8> {
        if version >= 1 {
            spec_read_i8(s)
        } else {
            Ok((1i8, s))
        }
    }

    /// The `cluster_id` field, read from the front of `s`.
    #[verifier::opaque]
    pub open spec fn spec_read_cluster_id(s: Seq<u8>, version: i16) -> ReadOutcome<Seq<u8>> {
        spec_read_compact_string(s)
    }

    /// The `controller_id` field, read from the front of `s`.
    #[verifier::opaque]
    pub open spec fn spec_read_controller_id(s: Seq<u8>, version: i16) -> ReadOutcome<i32> {
        spec_read_i32(s)
    }

    /// The `brokers` field, read from the front of `s`.
    #[verifier::opaque]
    pub open spec fn spec_read_brokers(s: Seq<u8>, version: i16) -> ReadOutcome<Seq<DescribeClusterBrokerView>> {
        spec_read_array::<DescribeClusterBroker>(s, version, true)
    }

    /// The `cluster_authorized_operations` field, read from the front of `s`.
    #[verifier::opaque]
    pub open spec fn spec_read_cluster_authorized_operations(s: Seq<u8>, version: i16) -> ReadOutcome<i32> {
        spec_read_i32(s)
    }

    /// The tagged fields, read from the front of `s`.
    #[verifier::opaque]
    pub open spec fn spec_read_tags(s: Seq<u8>, version: i16) -> ReadOutcome<Seq<(u32, Seq<u8>)>> {
        spec_read_tagged_fields(s)
    }

    pub open spec fn spec_read(s: Seq<u8>, version: i16) -> ReadOutcome<DescribeClusterResponseDataView> {
        if version < 0 || version > 2 {
            Err(Error::UnsupportedVersion(UnsupportedVersion { api_key: 60, version }))
        } else {
            match (Self::spec_read_throttle_time_ms(s, version)) {
                Err(e) => Err(e),
                Ok((throttle_time_ms, s)) => match (Self::spec_read_error_code(s, version)) {
                    Err(e) => Err(e),
                    Ok((error_code, s)) => match (Self::spec_read_error_message(s, version)) {
                        Err(e) => Err(e),
                        Ok((error_message, s)) => match (Self::spec_read_endpoint_type(s, version)) {
                            Err(e) => Err(e),
                            Ok((endpoint_type, s)) => match (Self::spec_read_cluster_id(s, version)) {
                                Err(e) => Err(e),
                                Ok((cluster_id, s)) => match (Self::spec_read_controller_id(s, version)) {
                                    Err(e) => Err(e),
                                    Ok((controller_id, s)) => match (Self::spec_read_brokers(s, version)) {
                                        Err(e) => Err(e),
                                        Ok((brokers, s)) => match (Self::spec_read_cluster_authorized_operations(s, version)) {
                                            Err(e) => Err(e),
                                            Ok((cluster_authorized_operations, s)) => match (Self::spec_read_tags(s, version)) {
                                                Err(e) => Err(e),
                                                Ok((unknown_tagged_fields, s)) => Ok((DescribeClusterResponseDataView {
                                                            throttle_time_ms: throttle_time_ms,
                                                            error_code: error_code,
                                                            error_message: error_message,
                                                            endpoint_type: endpoint_type,
                                                            cluster_id: cluster_id,
                                                            controller_id: controller_id,
                                                            brokers: brokers,
                                                            cluster_authorized_operations: cluster_authorized_operations,
                                                            unknown_tagged_fields: unknown_tagged_fields,
                                                        }, s)),
                                            },
                                        },
                                    },
                                },
                            },
                        },
                    },
                },
            }
        }
    }

    /// What writing the `throttle_time_ms` field of `m` appends.
    #[verifier::opaque]
    pub open spec fn spec_write_throttle_time_ms(m: DescribeClusterResponseDataView, version: i16) -> WriteOutcome {
        spec_write_i32(m.throttle_time_ms)
    }

    /// What writing the `error_code` field of `m` appends.
    #[verifier::opaque]
    pub open spec fn spec_write_error_code(m: DescribeClusterResponseDataView, version: i16) -> WriteOutcome {
        spec_write_i16(m.error_code)
    }

    /// What writing the `error_message` field of `m` appends.
    #[verifier::opaque]
    pub open spec fn spec_write_error_message(m: DescribeClusterResponseDataView, version: i16) -> WriteOutcome {
        spec_write_compact_nullable_string(m.error_message)
    }

    /// What writing the `endpoint_type` field of `m` appends.
    #[verifier::opaque]
    pub open spec fn spec_write_endpoint_type(m: DescribeClusterResponseDataView, version: i16) -> WriteOutcome {
        if version >= 1 {
            spec_write_i8(m.endpoint_type)
        } else {
            emit(Seq::empty())
        }
    }

    /// What writing the `cluster_id` field of `m` appends.
    #[verifier::opaque]
    pub open spec fn spec_write_cluster_id(m: DescribeClusterResponseDataView, version: i16) -> WriteOutcome {
        spec_write_compact_string(m.cluster_id)
    }

    /// What writing the `controller_id` field of `m` appends.
    #[verifier::opaque]
    pub open spec fn spec_write_controller_id(m: DescribeClusterResponseDataView, version: i16) -> WriteOutcome {
        spec_write_i32(m.controller_id)
    }

    /// What writing the `brokers` field of `m` appends.
    #[verifier::opaque]
    pub open spec fn spec_write_brokers(m: DescribeClusterResponseDataView, version: i16) -> WriteOutcome {
        spec_write_array::<DescribeClusterBroker>(m.brokers, version, true)
    }

    /// What writing the `cluster_authorized_operations` field of `m` appends.
    #[verifier::opaque]
    pub open spec fn spec_write_cluster_authorized_operations(m: DescribeClusterResponseDataView, version: i16) -> WriteOutcome {
        spec_write_i32(m.cluster_authorized_operations)
    }

    /// What writing the tagged fields of `m` appends.
    #[verifier::opaque]
    pub open spec fn spec_write_tags(m: DescribeClusterResponseDataView, version: i16) -> WriteOutcome {
        spec_write_tagged_fields(sorted_by_tag(m.unknown_tagged_fields))
    }

    pub open spec fn spec_write(m: DescribeClusterResponseDataView, version: i16) -> WriteOutcome {
        if version < 0 || version > 2 {
            fail(Error::UnsupportedVersion(UnsupportedVersion { api_key: 60, version }))
        } else {
            chain(
                chain(
                    chain(
                        chain(
                            chain(
                                chain(
                                    chain(
                                        chain(
                                            Self::spec_write_throttle_time_ms(m, version),
                                            Self::spec_write_error_code(m, version),
                                        ),
                                        Self::spec_write_error_message(m, version),
                                    ),
                                    Self::spec_write_endpoint_type(m, version),
                                ),
                                Self::spec_write_cluster_id(m, version),
                            ),
                            Self::spec_write_controller_id(m, version),
                        ),
                        Self::spec_write_brokers(m, version),
                    ),
                    Self::spec_write_cluster_authorized_operations(m, version),
                ),
                Self::spec_write_tags(m, version),
            )
        }
    }

    /// Whether reading back what writing `m` in `version` appends gives `m`:
    /// fields that the version does not carry hold their default values, and
    /// tagged fields come in the order in which they are written.
    pub open spec fn canonical(m: DescribeClusterResponseDataView, version: i16) -> bool {
        &&& (if version >= 1 {
                true
            } else {
                m.endpoint_type == 1i8
        })
        &&& all_canonical::<DescribeClusterBroker>(m.brokers, version)
        &&& tags_in_order(m.unknown_tagged_fields)
    }

    proof fn lemma_round_trip_throttle_time_ms(m: DescribeClusterResponseDataView, version: i16, rest: Seq<u8>)
        requires
            Self::canonical(m, version),
            Self::spec_write_throttle_time_ms(m, version) is Ok,
        ensures
            Self::spec_read_throttle_time_ms(written(Self::spec_write_throttle_time_ms(m, version)) + rest, version) == Ok::<(i32, Seq<u8>), Error>((m.throttle_time_ms, rest)),
    {
        reveal(DescribeClusterResponseData::spec_read_throttle_time_ms);
        reveal(DescribeClusterResponseData::spec_write_throttle_time_ms);
        lemma_i32_roundtrip(m.throttle_time_ms, rest);
    }

    proof fn lemma_round_trip_error_code(m: DescribeClusterResponseDataView, version: i16, rest: Seq<u8>)
        requires
            Self::canonical(m, version),
            Self::spec_write_error_code(m, version) is Ok,
        ensures
            Self::spec_read_error_code(written(Self::spec_write_error_code(m, version)) + rest, version) == Ok::<(i16, Seq<u8>), Error>((m.error_code, rest)),
    {
        reveal(DescribeClusterResponseData::spec_read_error_code);
        reveal(DescribeClusterResponseData::spec_write_error_code);
        lemma_i16_roundtrip(m.error_code, rest);
    }

    proof fn lemma_round_trip_error_message(m: DescribeClusterResponseDataView, version: i16, rest: Seq<u8>)
        requires
            Self::canonical(m, version),
            Self::spec_write_error_message(m, version) is Ok,
        ensures
            Self::spec_read_error_message(written(Self::spec_write_error_message(m, version)) + rest, version) == Ok::<(Option<Seq<u8>>, Seq<u8>), Error>((m.error_message, rest)),
    {
        reveal(DescribeClusterResponseData::spec_read_error_message);
        reveal(DescribeClusterResponseData::spec_write_error_message);
        lemma_compact_nullable_string_round_trip(m.error_message, rest);
    }

    proof fn lemma_round_trip_endpoint_type(m: DescribeClusterResponseDataView, version: i16, rest: Seq<u8>)
        requires
            Self::canonical(m, version),
            Self::spec_write_endpoint_type(m, version) is Ok,
        ensures
            Self::spec_read_endpoint_type(written(Self::spec_write_endpoint_type(m, version)) + rest, version) == Ok::<(i8, Seq<u8>), Error>((m.endpoint_type, rest)),
    {
        reveal(DescribeClusterResponseData::spec_read_endpoint_type);
        reveal(DescribeClusterResponseData::spec_write_endpoint_type);
        if version >= 1 {
            lemma_i8_roundtrip(m.endpoint_type, rest);
        } else {
            assert(Seq::<u8>::empty() + rest =~= rest);
        }
    }

    proof fn lemma_round_trip_cluster_id(m: DescribeClusterResponseDataView, version: i16, rest: Seq<u8>)
        requires
            Self::canonical(m, version),
            Self::spec_write_cluster_id(m, version) is Ok,
        ensures
            Self::spec_read_cluster_id(written(Self::spec_write_cluster_id(m, version)) + rest, version) == Ok::<(Seq<u8>, Seq<u8>), Error>((m.cluster_id, rest)),
    {
        reveal(DescribeClusterResponseData::spec_read_cluster_id);
        reveal(DescribeClusterResponseData::spec_write_cluster_id);
        lemma_compact_string_round_trip(m.cluster_id, rest);
    }

    proof fn lemma_round_trip_controller_id(m: DescribeClusterResponseDataView, version: i16, rest: Seq<u8>)
        requires
            Self::canonical(m, version),
            Self::spec_write_controller_id(m, version) is Ok,
        ensures
            Self::spec_read_controller_id(written(Self::spec_write_controller_id(m, version)) + rest, version) == Ok::<(i32, Seq<u8>), Error>((m.controller_id, rest)),
    {
        reveal(DescribeClusterResponseData::spec_read_controller_id);
        reveal(DescribeClusterResponseData::spec_write_controller_id);
        lemma_i32_roundtrip(m.controller_id, rest);
    }

    proof fn lemma_round_trip_brokers(m: DescribeClusterResponseDataView, version: i16, rest: Seq<u8>)
        requires
            Self::canonical(m, version),
            Self::spec_write_brokers(m, version) is Ok,
        ensures
            Self::spec_read_brokers(written(Self::spec_write_brokers(m, version)) + rest, version) == Ok::<(Seq<DescribeClusterBrokerView>, Seq<u8>), Error>((m.brokers, rest)),
    {
        reveal(DescribeClusterResponseData::spec_read_brokers);
        reveal(DescribeClusterResponseData::spec_write_brokers);
        lemma_array_round_trip::<DescribeClusterBroker>(m.brokers, version, true, rest);
    }

    proof fn lemma_round_trip_cluster_authorized_operations(m: DescribeClusterResponseDataView, version: i16, rest: Seq<u8>)
        requires
            Self::canonical(m, version),
            Self::spec_write_cluster_authorized_operations(m, version) is Ok,
        ensures
            Self::spec_read_cluster_authorized_operations(written(Self::spec_write_cluster_authorized_operations(m, version)) + rest, version) == Ok::<(i32, Seq<u8>), Error>((m.cluster_authorized_operations, rest)),
    {
        reveal(DescribeClusterResponseData::spec_read_cluster_authorized_operations);
        reveal(DescribeClusterResponseData::spec_write_cluster_authorized_operations);
        lemma_i32_roundtrip(m.cluster_authorized_operations, rest);
    }

    proof fn lemma_round_trip_tags(m: DescribeClusterResponseDataView, version: i16, rest: Seq<u8>)
        requires
            Self::canonical(m, version),
            Self::spec_write_tags(m, version) is Ok,
        ensures
            Self::spec_read_tags(written(Self::spec_write_tags(m, version)) + rest, version) == Ok::<(Seq<(u32, Seq<u8>)>, Seq<u8>), Error>((m.unknown_tagged_fields, rest)),
    {
        reveal(DescribeClusterResponseData::spec_read_tags);
        reveal(DescribeClusterResponseData::spec_write_tags);
        lemma_sorted_by_tag_in_order(m.unknown_tagged_fields);
        lemma_tagged_fields_round_trip(m.unknown_tagged_fields, rest);
    }

    /// Reading back what writing `m` in `version` appends gives `m` again, and
    /// leaves what follows, for every canonical message whose write succeeds.
    #[verifier::rlimit(100)]
    #[verifier::spinoff_prover]
    pub proof fn lemma_round_trip(m: DescribeClusterResponseDataView, version: i16, rest: Seq<u8>)
        requires
            Self::canonical(m, version),
            Self::spec_write(m, version) is Ok,
        ensures
            Self::spec_read(written(Self::spec_write(m, version)) + rest, version) == Ok::<(DescribeClusterResponseDataView, Seq<u8>), Error>((m, rest)),
    {
        let b0 = written(Self::spec_write_throttle_time_ms(m, version));
        let b1 = written(Self::spec_write_error_code(m, version));
        let b2 = written(Self::spec_write_error_message(m, version));
        let b3 = written(Self::spec_write_endpoint_type(m, version));
        let b4 = written(Self::spec_write_cluster_id(m, version));
        let b5 = written(Self::spec_write_controller_id(m, version));
        let b6 = written(Self::spec_write_brokers(m, version));
        let b7 = written(Self::spec_write_cluster_authorized_operations(m, version));
        let b8 = written(Self::spec_write_tags(m, version));
        let t9 = rest;
        let t8 = b8 + t9;
        let t7 = b7 + t8;
        let t6 = b6 + t7;
        let t5 = b5 + t6;
        let t4 = b4 + t5;
        let t3 = b3 + t4;
        let t2 = b2 + t3;
        let t1 = b1 + t2;
        let t0 = b0 + t1;
        let w0 = Self::spec_write_throttle_time_ms(m, version);
        let w1 = chain(w0, Self::spec_write_error_code(m, version));
        let w2 = chain(w1, Self::spec_write_error_message(m, version));
        let w3 = chain(w2, Self::spec_write_endpoint_type(m, version));
        let w4 = chain(w3, Self::spec_write_cluster_id(m, version));
        let w5 = chain(w4, Self::spec_write_controller_id(m, version));
        let w6 = chain(w5, Self::spec_write_brokers(m, version));
        let w7 = chain(w6, Self::spec_write_cluster_authorized_operations(m, version));
        let w8 = chain(w7, Self::spec_write_tags(m, version));
        assert(Self::spec_write(m, version) == w8);
        assert(written(w8) + t9 =~= written(w7) + t8);
        assert(written(w7) + t8 =~= written(w6) + t7);
        assert(written(w6) + t7 =~= written(w5) + t6);
        assert(written(w5) + t6 =~= written(w4) + t5);
        assert(written(w4) + t5 =~= written(w3) + t4);
        assert(written(w3) + t4 =~= written(w2) + t3);
        assert(written(w2) + t3 =~= written(w1) + t2);
        assert(written(w1) + t2 =~= written(w0) + t1);
        Self::lemma_round_trip_throttle_time_ms(m, version, t1);
        Self::lemma_round_trip_error_code(m, version, t2);
        Self::lemma_round_trip_error_message(m, version, t3);
        Self::lemma_round_trip_endpoint_type(m, version, t4);
        Self::lemma_round_trip_cluster_id(m, version, t5);
        Self::lemma_round_trip_controller_id(m, version, t6);
        Self::lemma_round_trip_brokers(m, version, t7);
        Self::lemma_round_trip_cluster_authorized_operations(m, version, t8);
        Self::lemma_round_trip_tags(m, version, t9);
    }

    /// In a version that does not carry `endpoint_type`, writing ignores its value.
    pub proof fn lemma_write_ignores_endpoint_type(m: DescribeClusterResponseDataView, value: i8, version: i16)
        requires
            !(version >= 1),
        ensures
            Self::spec_write((DescribeClusterResponseDataView { endpoint_type: value, ..m }), version) == Self::spec_write(m, version),
    {
        reveal(DescribeClusterResponseData::spec_write_throttle_time_ms);
        reveal(DescribeClusterResponseData::spec_write_error_code);
        reveal(DescribeClusterResponseData::spec_write_error_message);
        reveal(DescribeClusterResponseData::spec_write_endpoint_type);
        reveal(DescribeClusterResponseData::spec_write_cluster_id);
        reveal(DescribeClusterResponseData::spec_write_controller_id);
        reveal(DescribeClusterResponseData::spec_write_brokers);
        reveal(DescribeClusterResponseData::spec_write_cluster_authorized_operations);
        reveal(DescribeClusterResponseData::spec_write_tags);
    }

    /// The default message holds the default value of each field of the schema.
    pub proof fn lemma_default_values()
        ensures
            Self::default_view().throttle_time_ms == (0_i32),
            Self::default_view().error_code == (0_i16),
            (Self::default_view().error_message is None),
            Self::default_view().endpoint_type == (1i8),
            Self::default_view().cluster_id.len() == 0,
            Self::default_view().controller_id == (-1i32),
            Self::default_view().brokers.len() == 0,
            Self::default_view().cluster_authorized_operations == (i32::MIN),
            Self::default_view().unknown_tagged_fields.len() == 0,
    {
    }

    /// Each integer, boolean and identifier field is written as its standard
    /// big-endian bytes (a boolean as `1` or `0`) in the versions that carry
    /// it, and as nothing in the others; reading it takes those bytes back (any
    /// byte other than `0` reads as `true`), or gives its default value.
    pub proof fn lemma_field_encodings(m: DescribeClusterResponseDataView, s: Seq<u8>, version: i16)
        ensures
            true ==> Self::spec_write_throttle_time_ms(m, version) == Ok::<Seq<u8>, (Error, Seq<u8>)>(u32_bytes(m.throttle_time_ms as u32)),
            true ==> Self::spec_write_error_code(m, version) == Ok::<Seq<u8>, (Error, Seq<u8>)>(u16_bytes(m.error_code as u16)),
            version >= 1 ==> Self::spec_write_endpoint_type(m, version) == Ok::<Seq<u8>, (Error, Seq<u8>)>(seq![m.endpoint_type as u8]),
            !(version >= 1) ==> Self::spec_write_endpoint_type(m, version) == Ok::<Seq<u8>, (Error, Seq<u8>)>(Seq::empty()),
            true ==> Self::spec_write_controller_id(m, version) == Ok::<Seq<u8>, (Error, Seq<u8>)>(u32_bytes(m.controller_id as u32)),
            true ==> Self::spec_write_cluster_authorized_operations(m, version) == Ok::<Seq<u8>, (Error, Seq<u8>)>(u32_bytes(m.cluster_authorized_operations as u32)),
            true ==> Self::spec_read_throttle_time_ms(s, version) == spec_read_i32(s),
            true ==> Self::spec_read_error_code(s, version) == spec_read_i16(s),
            version >= 1 ==> Self::spec_read_endpoint_type(s, version) == (if s.len() < 1 { Err(Error::UnexpectedEof) } else { Ok((s[0] as i8, s.drop_first())) }),
            !(version >= 1) ==> Self::spec_read_endpoint_type(s, version) == Ok::<(i8, Seq<u8>), Error>((1i8, s)),
            true ==> Self::spec_read_controller_id(s, version) == spec_read_i32(s),
            true ==> Self::spec_read_cluster_authorized_operations(s, version) == spec_read_i32(s),
    {
        reveal(DescribeClusterResponseData::spec_write_throttle_time_ms);
        reveal(DescribeClusterResponseData::spec_read_throttle_time_ms);
        reveal(DescribeClusterResponseData::spec_write_error_code);
        reveal(DescribeClusterResponseData::spec_read_error_code);
        reveal(DescribeClusterResponseData::spec_write_endpoint_type);
        reveal(DescribeClusterResponseData::spec_read_endpoint_type);
        reveal(DescribeClusterResponseData::spec_write_controller_id);
        reveal(DescribeClusterResponseData::spec_read_controller_id);
        reveal(DescribeClusterResponseData::spec_write_cluster_authorized_operations);
        reveal(DescribeClusterResponseData::spec_read_cluster_authorized_operations);
    }

    /// Whether writing `m` in `version` succeeds, said over its parts: the
    /// version is one the schema covers, every field that the version cannot
    /// carry holds its default value, and every string, byte string, array and
    /// tagged field fits its length prefix.
    pub open spec fn writable(m: DescribeClusterResponseDataView, version: i16) -> bool {
        &&& 0 <= version <= 2
        &&& (m.error_message matches Some(b) ==> b.len() <= 0x7fff)
        &&& m.cluster_id.len() <= 0x7fff
        &&& (m.brokers.len() <= i32::MAX && all_writable::<DescribeClusterBroker>(m.brokers, version))
        &&& m.unknown_tagged_fields.len() <= u32::MAX && tags_fit(m.unknown_tagged_fields)
    }

    proof fn lemma_writable_throttle_time_ms(m: DescribeClusterResponseDataView, version: i16)
        ensures
            Self::spec_write_throttle_time_ms(m, version) is Ok <==> true,
    {
        reveal(DescribeClusterResponseData::spec_write_throttle_time_ms);
    }

    proof fn lemma_writable_error_code(m: DescribeClusterResponseDataView, version: i16)
        ensures
            Self::spec_write_error_code(m, version) is Ok <==> true,
    {
        reveal(DescribeClusterResponseData::spec_write_error_code);
    }

    proof fn lemma_writable_error_message(m: DescribeClusterResponseDataView, version: i16)
        ensures
            Self::spec_write_error_message(m, version) is Ok <==> (m.error_message matches Some(b) ==> b.len() <= 0x7fff),
    {
        reveal(DescribeClusterResponseData::spec_write_error_message);
    }

    proof fn lemma_writable_endpoint_type(m: DescribeClusterResponseDataView, version: i16)
        ensures
            Self::spec_write_endpoint_type(m, version) is Ok <==> true,
    {
        reveal(DescribeClusterResponseData::spec_write_endpoint_type);
    }

    proof fn lemma_writable_cluster_id(m: DescribeClusterResponseDataView, version: i16)
        ensures
            Self::spec_write_cluster_id(m, version) is Ok <==> m.cluster_id.len() <= 0x7fff,
    {
        reveal(DescribeClusterResponseData::spec_write_cluster_id);
    }

    proof fn lemma_writable_controller_id(m: DescribeClusterResponseDataView, version: i16)
        ensures
            Self::spec_write_controller_id(m, version) is Ok <==> true,
    {
        reveal(DescribeClusterResponseData::spec_write_controller_id);
    }

    proof fn lemma_writable_brokers(m: DescribeClusterResponseDataView, version: i16)
        ensures
            Self::spec_write_brokers(m, version) is Ok <==> (m.brokers.len() <= i32::MAX && all_writable::<DescribeClusterBroker>(m.brokers, version)),
    {
        reveal(DescribeClusterResponseData::spec_write_brokers);
        lemma_array_writable::<DescribeClusterBroker>(m.brokers, version, true);
    }

    proof fn lemma_writable_cluster_authorized_operations(m: DescribeClusterResponseDataView, version: i16)
        ensures
            Self::spec_write_cluster_authorized_operations(m, version) is Ok <==> true,
    {
        reveal(DescribeClusterResponseData::spec_write_cluster_authorized_operations);
    }

    proof fn lemma_writable_tags(m: DescribeClusterResponseDataView, version: i16)
        ensures
            Self::spec_write_tags(m, version) is Ok <==> m.unknown_tagged_fields.len() <= u32::MAX && tags_fit(m.unknown_tagged_fields),
    {
        reveal(DescribeClusterResponseData::spec_write_tags);
        lemma_sorted_tags_fit(m.unknown_tagged_fields);
        lemma_tagged_fields_writable(sorted_by_tag(m.unknown_tagged_fields));
    }

    /// Writing `m` in `version` succeeds exactly when `m` is writable in it;
    /// so do `write` and `encoded_len`, whose results follow `spec_write`.
    #[verifier::rlimit(84)]
    pub proof fn lemma_writable(m: DescribeClusterResponseDataView, version: i16)
        ensures
            Self::spec_write(m, version) is Ok <==> Self::writable(m, version),
    {
        Self::lemma_writable_throttle_time_ms(m, version);
        Self::lemma_writable_error_code(m, version);
        Self::lemma_writable_error_message(m, version);
        Self::lemma_writable_endpoint_type(m, version);
        Self::lemma_writable_cluster_id(m, version);
        Self::lemma_writable_controller_id(m, version);
        Self::lemma_writable_brokers(m, version);
        Self::lemma_writable_cluster_authorized_operations(m, version);
        Self::lemma_writable_tags(m, version);
    }

    /// A version outside the range that the schema covers is refused, by
    /// reads and by writes alike, before anything is read or written.
    pub proof fn lemma_refused_version(m: DescribeClusterResponseDataView, s: Seq<u8>, version: i16)
        requires
            version < 0 || version > 2,
        ensures
            Self::spec_read(s, version) == Err::<(DescribeClusterResponseDataView, Seq<u8>), Error>(Error::UnsupportedVersion(UnsupportedVersion { api_key: 60, version })),
            Self::spec_write(m, version) == fail(Error::UnsupportedVersion(UnsupportedVersion { api_key: 60, version })),
    {
    }

    fn read_throttle_time_ms(buf: &mut Bytes, version: i16) -> (r: Result<i32, Error>)
        ensures
            read_as(Self::spec_read_throttle_time_ms(bytes_seq(*old(buf)), version), *final(buf), r),
            took_front(*old(buf), *final(buf)),
    {
        proof {
            reveal(DescribeClusterResponseData::spec_read_throttle_time_ms);
        }
        Ok(read_i32(buf)?)
    }

    fn read_error_code(buf: &mut Bytes, version: i16) -> (r: Result<i16, Error>)
        ensures
            read_as(Self::spec_read_error_code(bytes_seq(*old(buf)), version), *final(buf), r),
            took_front(*old(buf), *final(buf)),
    {
        proof {
            reveal(DescribeClusterResponseData::spec_read_error_code);
        }
        Ok(read_i16(buf)?)
    }

    fn read_error_message(buf: &mut Bytes, version: i16) -> (r: Result<Option<KafkaString>, Error>)
        ensures
            read_opt_as(Self::spec_read_error_message(bytes_seq(*old(buf)), version), *final(buf), r),
            took_front(*old(buf), *final(buf)),
    {
        proof {
            reveal(DescribeClusterResponseData::spec_read_error_message);
        }
        Ok(read_compact_nullable_string(buf)?)
    }

    fn read_endpoint_type(buf: &mut Bytes, version: i16) -> (r: Result<i8, Error>)
        ensures
            read_as(Self::spec_read_endpoint_type(bytes_seq(*old(buf)), version), *final(buf), r),
            took_front(*old(buf), *final(buf)),
    {
        proof {
            reveal(DescribeClusterResponseData::spec_read_endpoint_type);
        }
        Ok(if version >= 1 {
                read_i8(buf)?
            } else {
                1i8
        })
    }

    fn read_cluster_id(buf: &mut Bytes, version: i16) -> (r: Result<KafkaString, Error>)
        ensures
            read_as(Self::spec_read_cluster_id(bytes_seq(*old(buf)), version), *final(buf), r),
            took_front(*old(buf), *final(buf)),
    {
        proof {
            reveal(DescribeClusterResponseData::spec_read_cluster_id);
        }
        Ok(read_compact_string(buf)?)
    }

    fn read_controller_id(buf: &mut Bytes, version: i16) -> (r: Result<i32, Error>)
        ensures
            read_as(Self::spec_read_controller_id(bytes_seq(*old(buf)), version), *final(buf), r),
            took_front(*old(buf), *final(buf)),
    {
        proof {
            reveal(DescribeClusterResponseData::spec_read_controller_id);
        }
        Ok(read_i32(buf)?)
    }

    fn read_brokers(buf: &mut Bytes, version: i16) -> (r: Result<Vec<DescribeClusterBroker>, Error>)
        ensures
            read_vec_as(Self::spec_read_brokers(bytes_seq(*old(buf)), version), *final(buf), r),
            took_front(*old(buf), *final(buf)),
    {
        proof {
            reveal(DescribeClusterResponseData::spec_read_brokers);
        }
        Ok(read_array::<DescribeClusterBroker>(buf, version, true)?)
    }

    fn read_cluster_authorized_operations(buf: &mut Bytes, version: i16) -> (r: Result<i32, Error>)
        ensures
            read_as(Self::spec_read_cluster_authorized_operations(bytes_seq(*old(buf)), version), *final(buf), r),
            took_front(*old(buf), *final(buf)),
    {
        proof {
            reveal(DescribeClusterResponseData::spec_read_cluster_authorized_operations);
        }
        Ok(read_i32(buf)?)
    }

    fn read_tags(buf: &mut Bytes, version: i16) -> (r: Result<Vec<RawTaggedField>, Error>)
        ensures
            read_vec_as(Self::spec_read_tags(bytes_seq(*old(buf)), version), *final(buf), r),
            took_front(*old(buf), *final(buf)),
    {
        proof {
            reveal(DescribeClusterResponseData::spec_read_tags);
        }
        Ok(read_tagged_fields(buf)?)
    }

    #[verifier::rlimit(74)]
    #[verifier::spinoff_prover]
    pub fn read(buf: &mut Bytes, version: i16) -> (r: Result<Self, Error>)
        ensures
            read_as(Self::spec_read(bytes_seq(*old(buf)), version), *final(buf), r),
            took_front(*old(buf), *final(buf)),
            (version < 0 || version > 2) ==> bytes_seq(*final(buf)) == bytes_seq(*old(buf)),
    {
        if version < 0 || version > 2 {
            return Err(Error::UnsupportedVersion(UnsupportedVersion::new(60, version)));
        }
        let throttle_time_ms = Self::read_throttle_time_ms(buf, version)?;
        let error_code = Self::read_error_code(buf, version)?;
        let error_message = Self::read_error_message(buf, version)?;
        let endpoint_type = Self::read_endpoint_type(buf, version)?;
        let cluster_id = Self::read_cluster_id(buf, version)?;
        let controller_id = Self::read_controller_id(buf, version)?;
        let brokers = Self::read_brokers(buf, version)?;
        let cluster_authorized_operations = Self::read_cluster_authorized_operations(buf, version)?;
        let _unknown_tagged_fields = Self::read_tags(buf, version)?;
        Ok(DescribeClusterResponseData {
                throttle_time_ms: throttle_time_ms,
                error_code: error_code,
                error_message: error_message,
                endpoint_type: endpoint_type,
                cluster_id: cluster_id,
                controller_id: controller_id,
                brokers: brokers,
                cluster_authorized_operations: cluster_authorized_operations,
                _unknown_tagged_fields: _unknown_tagged_fields,
        })
    }

    #[verifier::rlimit(100)]
    #[verifier::spinoff_prover]
    pub fn write(&self, buf: &mut BytesMut, version: i16) -> (r: Result<(), Error>)
        requires
            has_room(Self::spec_write(self@, version), *old(buf)),
        ensures
            wrote(Self::spec_write(self@, version), *old(buf), *final(buf), r),
    {
        if version < 0 || version > 2 {
            return Err(Error::UnsupportedVersion(UnsupportedVersion::new(60, version)));
        }
        let ghost m = self@;
        proof {
            reveal(DescribeClusterResponseData::spec_write_throttle_time_ms);
            reveal(DescribeClusterResponseData::spec_write_error_code);
            reveal(DescribeClusterResponseData::spec_write_error_message);
            reveal(DescribeClusterResponseData::spec_write_endpoint_type);
            reveal(DescribeClusterResponseData::spec_write_cluster_id);
            reveal(DescribeClusterResponseData::spec_write_controller_id);
            reveal(DescribeClusterResponseData::spec_write_brokers);
            reveal(DescribeClusterResponseData::spec_write_cluster_authorized_operations);
            reveal(DescribeClusterResponseData::spec_write_tags);
        }
        let ghost s0 = Self::spec_write_throttle_time_ms(m, version);
        let ghost w0 = s0;
        let ghost s1 = Self::spec_write_error_code(m, version);
        let ghost w1 = chain(w0, s1);
        let ghost s2 = Self::spec_write_error_message(m, version);
        let ghost w2 = chain(w1, s2);
        let ghost s3 = Self::spec_write_endpoint_type(m, version);
        let ghost w3 = chain(w2, s3);
        let ghost s4 = Self::spec_write_cluster_id(m, version);
        let ghost w4 = chain(w3, s4);
        let ghost s5 = Self::spec_write_controller_id(m, version);
        let ghost w5 = chain(w4, s5);
        let ghost s6 = Self::spec_write_brokers(m, version);
        let ghost w6 = chain(w5, s6);
        let ghost s7 = Self::spec_write_cluster_authorized_operations(m, version);
        let ghost w7 = chain(w6, s7);
        let ghost s8 = Self::spec_write_tags(m, version);
        let ghost w8 = chain(w7, s8);
        assert(Self::spec_write(m, version) == w8);
        assert(written(w7).len() <= written(w8).len() && (w7 is Err ==> w8 == w7));
        assert(written(w6).len() <= written(w8).len() && (w6 is Err ==> w8 == w6));
        assert(written(w5).len() <= written(w8).len() && (w5 is Err ==> w8 == w5));
        assert(written(w4).len() <= written(w8).len() && (w4 is Err ==> w8 == w4));
        assert(written(w3).len() <= written(w8).len() && (w3 is Err ==> w8 == w3));
        assert(written(w2).len() <= written(w8).len() && (w2 is Err ==> w8 == w2));
        assert(written(w1).len() <= written(w8).len() && (w1 is Err ==> w8 == w1));
        assert(written(w0).len() <= written(w8).len() && (w0 is Err ==> w8 == w0));
        let ghost mid = bytes_mut_seq(*buf);
        proof {
            lemma_append_empty(mid);
        }
        let r0 = {
            write_i32(buf, self.throttle_time_ms);
            Ok(())
        };
        assert(bytes_mut_seq(*buf) == mid + written(s0));
        if r0.is_err() {
            return r0;
        }
        let ghost mid = bytes_mut_seq(*buf);
        proof {
            lemma_append_empty(mid);
        }
        let r1 = {
            write_i16(buf, self.error_code);
            Ok(())
        };
        assert(bytes_mut_seq(*buf) == mid + written(s1));
        proof {
            lemma_step(bytes_mut_seq(*old(buf)), w0, s1);
        }
        if r1.is_err() {
            return r1;
        }
        let ghost mid = bytes_mut_seq(*buf);
        proof {
            lemma_append_empty(mid);
        }
        let r2 = write_compact_nullable_string(buf, &self.error_message);
        assert(bytes_mut_seq(*buf) == mid + written(s2));
        proof {
            lemma_step(bytes_mut_seq(*old(buf)), w1, s2);
        }
        if r2.is_err() {
            return r2;
        }
        let ghost mid = bytes_mut_seq(*buf);
        proof {
            lemma_append_empty(mid);
        }
        let r3 = if version >= 1 {
            {
                write_i8(buf, self.endpoint_type);
                Ok(())
            }
        } else {
            Ok(())
        };
        assert(bytes_mut_seq(*buf) == mid + written(s3));
        proof {
            lemma_step(bytes_mut_seq(*old(buf)), w2, s3);
        }
        if r3.is_err() {
            return r3;
        }
        let ghost mid = bytes_mut_seq(*buf);
        proof {
            lemma_append_empty(mid);
        }
        let r4 = write_compact_string(buf, &self.cluster_id);
        assert(bytes_mut_seq(*buf) == mid + written(s4));
        proof {
            lemma_step(bytes_mut_seq(*old(buf)), w3, s4);
        }
        if r4.is_err() {
            return r4;
        }
        let ghost mid = bytes_mut_seq(*buf);
        proof {
            lemma_append_empty(mid);
        }
        let r5 = {
            write_i32(buf, self.controller_id);
            Ok(())
        };
        assert(bytes_mut_seq(*buf) == mid + written(s5));
        proof {
            lemma_step(bytes_mut_seq(*old(buf)), w4, s5);
        }
        if r5.is_err() {
            return r5;
        }
        let ghost mid = bytes_mut_seq(*buf);
        proof {
            lemma_append_empty(mid);
        }
        let r6 = write_array::<DescribeClusterBroker>(buf, &self.brokers, version, true);
        assert(bytes_mut_seq(*buf) == mid + written(s6));
        proof {
            lemma_step(bytes_mut_seq(*old(buf)), w5, s6);
        }
        if r6.is_err() {
            return r6;
        }
        let ghost mid = bytes_mut_seq(*buf);
        proof {
            lemma_append_empty(mid);
        }
        let r7 = {
            write_i32(buf, self.cluster_authorized_operations);
            Ok(())
        };
        assert(bytes_mut_seq(*buf) == mid + written(s7));
        proof {
            lemma_step(bytes_mut_seq(*old(buf)), w6, s7);
        }
        if r7.is_err() {
            return r7;
        }
        let ghost mid = bytes_mut_seq(*buf);
        proof {
            lemma_append_empty(mid);
        }
        let r8 = write_tagged_fields(buf, &sort_by_tag(&self._unknown_tagged_fields));
        assert(bytes_mut_seq(*buf) == mid + written(s8));
        proof {
            lemma_step(bytes_mut_seq(*old(buf)), w7, s8);
        }
        if r8.is_err() {
            return r8;
        }
        Ok(())
    }
}

#[derive(Debug, PartialEq)]
pub struct DescribeClusterBroker {
    /// The broker ID.
    pub broker_id: i32,
    /// The broker hostname.
    pub host: KafkaString,
    /// The broker port.
    pub port: i32,
    /// The rack of the broker, or null if it has not been assigned to a rack.
    pub rack: Option<KafkaString>,
    /// Whether the broker is fenced
    pub is_fenced: bool,
    pub _unknown_tagged_fields: Vec<RawTaggedField>,
}

/// What a `DescribeClusterBroker` holds, as the specification sees it.
#[verifier::ext_equal]
pub struct DescribeClusterBrokerView {
    pub broker_id: i32,
    pub host: Seq<u8>,
    pub port: i32,
    pub rack: Option<Seq<u8>>,
    pub is_fenced: bool,
    pub unknown_tagged_fields: Seq<(u32, Seq<u8>)>,
}

impl View for DescribeClusterBroker {
    type V = DescribeClusterBrokerView;

    open spec fn view(&self) -> DescribeClusterBrokerView {
        DescribeClusterBrokerView {
            broker_id: self.broker_id,
            host: self.host@,
            port: self.port,
            rack: opt_view(self.rack),
            is_fenced: self.is_fenced,
            unknown_tagged_fields: views(self._unknown_tagged_fields@),
        }
    }
}

impl Clone for DescribeClusterBroker {
    fn clone(&self) -> (r: Self)
        ensures
            r@ == self@,
    {
        let r = DescribeClusterBroker {
            broker_id: self.broker_id,
            host: self.host.clone(),
            port: self.port,
            rack: match &self.rack {
                Some(x) => Some(x.clone()),
                None => None,
            },
            is_fenced: self.is_fenced,
            _unknown_tagged_fields: clone_vec(&self._unknown_tagged_fields),
        };
        assert(r@ =~= self@);
        r
    }
}

impl ViewClone for DescribeClusterBroker {
    fn clone_view(&self) -> (r: Self) {
        self.clone()
    }
}

impl Default for DescribeClusterBroker {
    fn default() -> (r: Self)
        ensures
            r@ == Self::default_view(),
    {
        let r = DescribeClusterBroker {
            broker_id: 0_i32,
            host: KafkaString::default(),
            port: 0_i32,
            rack: None,
            is_fenced: false,
            _unknown_tagged_fields: empty_vec(),
        };
        assert(r@ =~= Self::default_view());
        r
    }
}

impl DescribeClusterBroker {
    pub open spec fn default_view() -> DescribeClusterBrokerView {
        DescribeClusterBrokerView {
            broker_id: 0_i32,
            host: Seq::empty(),
            port: 0_i32,
            rack: None,
            is_fenced: false,
            unknown_tagged_fields: Seq::empty(),
        }
    }

    /// The `broker_id` field, read from the front of `s`.
    #[verifier::opaque]
    pub open spec fn spec_read_broker_id(s: Seq<u8>, version: i16) -> ReadOutcome<i32> {
        spec_read_i32(s)
    }

    /// The `host` field, read from the front of `s`.
    #[verifier::opaque]
    pub open spec fn spec_read_host(s: Seq<u8>, version: i16) -> ReadOutcome<Seq<u8>> {
        spec_read_compact_string(s)
    }

    /// The `port` field, read from the front of `s`.
    #[verifier::opaque]
    pub open spec fn spec_read_port(s: Seq<u8>, version: i16) -> ReadOutcome<i32> {
        spec_read_i32(s)
    }

    /// The `rack` field, read from the front of `s`.
    #[verifier::opaque]
    pub open spec fn spec_read_rack(s: Seq<u8>, version: i16) -> ReadOutcome<Option<Seq<u8>>> {
        spec_read_compact_nullable_string(s)
    }

    /// The `is_fenced` field, read from the front of `s`.
    #[verifier::opaque]
    pub open spec fn spec_read_is_fenced(s: Seq<u8>, version: i16) -> ReadOutcome<bool> {
        if version >= 2 {
            spec_read_bool(s)
        } else {
            Ok((false, s))
        }
    }

    /// The tagged fields, read from the front of `s`.
    #[verifier::opaque]
    pub open spec fn spec_read_tags(s: Seq<u8>, version: i16) -> ReadOutcome<Seq<(u32, Seq<u8>)>> {
        spec_read_tagged_fields(s)
    }

    pub open spec fn spec_read(s: Seq<u8>, version: i16) -> ReadOutcome<DescribeClusterBrokerView> {
        match (Self::spec_read_broker_id(s, version)) {
            Err(e) => Err(e),
            Ok((broker_id, s)) => match (Self::spec_read_host(s, version)) {
                Err(e) => Err(e),
                Ok((host, s)) => match (Self::spec_read_port(s, version)) {
                    Err(e) => Err(e),
                    Ok((port, s)) => match (Self::spec_read_rack(s, version)) {
                        Err(e) => Err(e),
                        Ok((rack, s)) => match (Self::spec_read_is_fenced(s, version)) {
                            Err(e) => Err(e),
                            Ok((is_fenced, s)) => match (Self::spec_read_tags(s, version)) {
                                Err(e) => Err(e),
                                Ok((unknown_tagged_fields, s)) => Ok((DescribeClusterBrokerView {
                                            broker_id: broker_id,
                                            host: host,
                                            port: port,
                                            rack: rack,
                                            is_fenced: is_fenced,
                                            unknown_tagged_fields: unknown_tagged_fields,
                                        }, s)),
                            },
                        },
                    },
                },
            },
        }
    }

    /// What writing the `broker_id` field of `m` appends.
    #[verifier::opaque]
    pub open spec fn spec_write_broker_id(m: DescribeClusterBrokerView, version: i16) -> WriteOutcome {
        spec_write_i32(m.broker_id)
    }

    /// What writing the `host` field of `m` appends.
    #[verifier::opaque]
    pub open spec fn spec_write_host(m: DescribeClusterBrokerView, version: i16) -> WriteOutcome {
        spec_write_compact_string(m.host)
    }

    /// What writing the `port` field of `m` appends.
    #[verifier::opaque]
    pub open spec fn spec_write_port(m: DescribeClusterBrokerView, version: i16) -> WriteOutcome {
        spec_write_i32(m.port)
    }

    /// What writing the `rack` field of `m` appends.
    #[verifier::opaque]
    pub open spec fn spec_write_rack(m: DescribeClusterBrokerView, version: i16) -> WriteOutcome {
        spec_write_compact_nullable_string(m.rack)
    }

    /// What writing the `is_fenced` field of `m` appends.
    #[verifier::opaque]
    pub open spec fn spec_write_is_fenced(m: DescribeClusterBrokerView, version: i16) -> WriteOutcome {
        if version >= 2 {
            spec_write_bool(m.is_fenced)
        } else {
            emit(Seq::empty())
        }
    }

    /// What writing the tagged fields of `m` appends.
    #[verifier::opaque]
    pub open spec fn spec_write_tags(m: DescribeClusterBrokerView, version: i16) -> WriteOutcome {
        spec_write_tagged_fields(sorted_by_tag(m.unknown_tagged_fields))
    }

    pub open spec fn spec_write(m: DescribeClusterBrokerView, version: i16) -> WriteOutcome {
        chain(
            chain(
                chain(
                    chain(
                        chain(
                            Self::spec_write_broker_id(m, version),
                            Self::spec_write_host(m, version),
                        ),
                        Self::spec_write_port(m, version),
                    ),
                    Self::spec_write_rack(m, version),
                ),
                Self::spec_write_is_fenced(m, version),
            ),
            Self::spec_write_tags(m, version),
        )
    }

    /// Whether reading back what writing `m` in `version` appends gives `m`:
    /// fields that the version does not carry hold their default values, and
    /// tagged fields come in the order in which they are written.
    pub open spec fn canonical(m: DescribeClusterBrokerView, version: i16) -> bool {
        &&& (if version >= 2 {
                true
            } else {
                m.is_fenced == false
        })
        &&& tags_in_order(m.unknown_tagged_fields)
    }

    proof fn lemma_round_trip_broker_id(m: DescribeClusterBrokerView, version: i16, rest: Seq<u8>)
        requires
            Self::canonical(m, version),
            Self::spec_write_broker_id(m, version) is Ok,
        ensures
            Self::spec_read_broker_id(written(Self::spec_write_broker_id(m, version)) + rest, version) == Ok::<(i32, Seq<u8>), Error>((m.broker_id, rest)),
    {
        reveal(DescribeClusterBroker::spec_read_broker_id);
        reveal(DescribeClusterBroker::spec_write_broker_id);
        lemma_i32_roundtrip(m.broker_id, rest);
    }

    proof fn lemma_round_trip_host(m: DescribeClusterBrokerView, version: i16, rest: Seq<u8>)
        requires
            Self::canonical(m, version),
            Self::spec_write_host(m, version) is Ok,
        ensures
            Self::spec_read_host(written(Self::spec_write_host(m, version)) + rest, version) == Ok::<(Seq<u8>, Seq<u8>), Error>((m.host, rest)),
    {
        reveal(DescribeClusterBroker::spec_read_host);
        reveal(DescribeClusterBroker::spec_write_host);
        lemma_compact_string_round_trip(m.host, rest);
    }

    proof fn lemma_round_trip_port(m: DescribeClusterBrokerView, version: i16, rest: Seq<u8>)
        requires
            Self::canonical(m, version),
            Self::spec_write_port(m, version) is Ok,
        ensures
            Self::spec_read_port(written(Self::spec_write_port(m, version)) + rest, version) == Ok::<(i32, Seq<u8>), Error>((m.port, rest)),
    {
        reveal(DescribeClusterBroker::spec_read_port);
        reveal(DescribeClusterBroker::spec_write_port);
        lemma_i32_roundtrip(m.port, rest);
    }

    proof fn lemma_round_trip_rack(m: DescribeClusterBrokerView, version: i16, rest: Seq<u8>)
        requires
            Self::canonical(m, version),
            Self::spec_write_rack(m, version) is Ok,
        ensures
            Self::spec_read_rack(written(Self::spec_write_rack(m, version)) + rest, version) == Ok::<(Option<Seq<u8>>, Seq<u8>), Error>((m.rack, rest)),
    {
        reveal(DescribeClusterBroker::spec_read_rack);
        reveal(DescribeClusterBroker::spec_write_rack);
        lemma_compact_nullable_string_round_trip(m.rack, rest);
    }

    proof fn lemma_round_trip_is_fenced(m: DescribeClusterBrokerView, version: i16, rest: Seq<u8>)
        requires
            Self::canonical(m, version),
            Self::spec_write_is_fenced(m, version) is Ok,
        ensures
            Self::spec_read_is_fenced(written(Self::spec_write_is_fenced(m, version)) + rest, version) == Ok::<(bool, Seq<u8>), Error>((m.is_fenced, rest)),
    {
        reveal(DescribeClusterBroker::spec_read_is_fenced);
        reveal(DescribeClusterBroker::spec_write_is_fenced);
        if version >= 2 {
            lemma_bool_roundtrip(m.is_fenced, rest);
        } else {
            assert(Seq::<u8>::empty() + rest =~= rest);
        }
    }

    proof fn lemma_round_trip_tags(m: DescribeClusterBrokerView, version: i16, rest: Seq<u8>)
        requires
            Self::canonical(m, version),
            Self::spec_write_tags(m, version) is Ok,
        ensures
            Self::spec_read_tags(written(Self::spec_write_tags(m, version)) + rest, version) == Ok::<(Seq<(u32, Seq<u8>)>, Seq<u8>), Error>((m.unknown_tagged_fields, rest)),
    {
        reveal(DescribeClusterBroker::spec_read_tags);
        reveal(DescribeClusterBroker::spec_write_tags);
        lemma_sorted_by_tag_in_order(m.unknown_tagged_fields);
        lemma_tagged_fields_round_trip(m.unknown_tagged_fields, rest);
    }

    /// Reading back what writing `m` in `version` appends gives `m` again, and
    /// leaves what follows, for every canonical message whose write succeeds.
    #[verifier::rlimit(100)]
    #[verifier::spinoff_prover]
    pub proof fn lemma_round_trip(m: DescribeClusterBrokerView, version: i16, rest: Seq<u8>)
        requires
            Self::canonical(m, version),
            Self::spec_write(m, version) is Ok,
        ensures
            Self::spec_read(written(Self::spec_write(m, version)) + rest, version) == Ok::<(DescribeClusterBrokerView, Seq<u8>), Error>((m, rest)),
    {
        let b0 = written(Self::spec_write_broker_id(m, version));
        let b1 = written(Self::spec_write_host(m, version));
        let b2 = written(Self::spec_write_port(m, version));
        let b3 = written(Self::spec_write_rack(m, version));
        let b4 = written(Self::spec_write_is_fenced(m, version));
        let b5 = written(Self::spec_write_tags(m, version));
        let t6 = rest;
        let t5 = b5 + t6;
        let t4 = b4 + t5;
        let t3 = b3 + t4;
        let t2 = b2 + t3;
        let t1 = b1 + t2;
        let t0 = b0 + t1;
        let w0 = Self::spec_write_broker_id(m, version);
        let w1 = chain(w0, Self::spec_write_host(m, version));
        let w2 = chain(w1, Self::spec_write_port(m, version));
        let w3 = chain(w2, Self::spec_write_rack(m, version));
        let w4 = chain(w3, Self::spec_write_is_fenced(m, version));
        let w5 = chain(w4, Self::spec_write_tags(m, version));
        assert(Self::spec_write(m, version) == w5);
        assert(written(w5) + t6 =~= written(w4) + t5);
        assert(written(w4) + t5 =~= written(w3) + t4);
        assert(written(w3) + t4 =~= written(w2) + t3);
        assert(written(w2) + t3 =~= written(w1) + t2);
        assert(written(w1) + t2 =~= written(w0) + t1);
        Self::lemma_round_trip_broker_id(m, version, t1);
        Self::lemma_round_trip_host(m, version, t2);
        Self::lemma_round_trip_port(m, version, t3);
        Self::lemma_round_trip_rack(m, version, t4);
        Self::lemma_round_trip_is_fenced(m, version, t5);
        Self::lemma_round_trip_tags(m, version, t6);
    }

    /// In a version that does not carry `is_fenced`, writing ignores its value.
    pub proof fn lemma_write_ignores_is_fenced(m: DescribeClusterBrokerView, value: bool, version: i16)
        requires
            !(version >= 2),
        ensures
            Self::spec_write((DescribeClusterBrokerView { is_fenced: value, ..m }), version) == Self::spec_write(m, version),
    {
        reveal(DescribeClusterBroker::spec_write_broker_id);
        reveal(DescribeClusterBroker::spec_write_host);
        reveal(DescribeClusterBroker::spec_write_port);
        reveal(DescribeClusterBroker::spec_write_rack);
        reveal(DescribeClusterBroker::spec_write_is_fenced);
        reveal(DescribeClusterBroker::spec_write_tags);
    }

    /// The default message holds the default value of each field of the schema.
    pub proof fn lemma_default_values()
        ensures
            Self::default_view().broker_id == (0_i32),
            Self::default_view().host.len() == 0,
            Self::default_view().port == (0_i32),
            (Self::default_view().rack is None),
            Self::default_view().is_fenced == (false),
            Self::default_view().unknown_tagged_fields.len() == 0,
    {
    }

    /// Each integer, boolean and identifier field is written as its standard
    /// big-endian bytes (a boolean as `1` or `0`) in the versions that carry
    /// it, and as nothing in the others; reading it takes those bytes back (any
    /// byte other than `0` reads as `true`), or gives its default value.
    pub proof fn lemma_field_encodings(m: DescribeClusterBrokerView, s: Seq<u8>, version: i16)
        ensures
            true ==> Self::spec_write_broker_id(m, version) == Ok::<Seq<u8>, (Error, Seq<u8>)>(u32_bytes(m.broker_id as u32)),
            true ==> Self::spec_write_port(m, version) == Ok::<Seq<u8>, (Error, Seq<u8>)>(u32_bytes(m.port as u32)),
            version >= 2 ==> Self::spec_write_is_fenced(m, version) == Ok::<Seq<u8>, (Error, Seq<u8>)>(seq![if m.is_fenced { 1u8 } else { 0u8 }]),
            !(version >= 2) ==> Self::spec_write_is_fenced(m, version) == Ok::<Seq<u8>, (Error, Seq<u8>)>(Seq::empty()),
            true ==> Self::spec_read_broker_id(s, version) == spec_read_i32(s),
            true ==> Self::spec_read_port(s, version) == spec_read_i32(s),
            version >= 2 ==> Self::spec_read_is_fenced(s, version) == (if s.len() < 1 { Err(Error::UnexpectedEof) } else { Ok((s[0] != 0, s.drop_first())) }),
            !(version >= 2) ==> Self::spec_read_is_fenced(s, version) == Ok::<(bool, Seq<u8>), Error>((false, s)),
    {
        reveal(DescribeClusterBroker::spec_write_broker_id);
        reveal(DescribeClusterBroker::spec_read_broker_id);
        reveal(DescribeClusterBroker::spec_write_port);
        reveal(DescribeClusterBroker::spec_read_port);
        reveal(DescribeClusterBroker::spec_write_is_fenced);
        reveal(DescribeClusterBroker::spec_read_is_fenced);
    }

    /// Whether writing `m` in `version` succeeds, said over its parts: the
    /// version is one the schema covers, every field that the version cannot
    /// carry holds its default value, and every string, byte string, array and
    /// tagged field fits its length prefix.
    pub open spec fn writable(m: DescribeClusterBrokerView, version: i16) -> bool {
        &&& m.host.len() <= 0x7fff
        &&& (m.rack matches Some(b) ==> b.len() <= 0x7fff)
        &&& m.unknown_tagged_fields.len() <= u32::MAX && tags_fit(m.unknown_tagged_fields)
    }

    proof fn lemma_writable_broker_id(m: DescribeClusterBrokerView, version: i16)
        ensures
            Self::spec_write_broker_id(m, version) is Ok <==> true,
    {
        reveal(DescribeClusterBroker::spec_write_broker_id);
    }

    proof fn lemma_writable_host(m: DescribeClusterBrokerView, version: i16)
        ensures
            Self::spec_write_host(m, version) is Ok <==> m.host.len() <= 0x7fff,
    {
        reveal(DescribeClusterBroker::spec_write_host);
    }

    proof fn lemma_writable_port(m: DescribeClusterBrokerView, version: i16)
        ensures
            Self::spec_write_port(m, version) is Ok <==> true,
    {
        reveal(DescribeClusterBroker::spec_write_port);
    }

    proof fn lemma_writable_rack(m: DescribeClusterBrokerView, version: i16)
        ensures
            Self::spec_write_rack(m, version) is Ok <==> (m.rack matches Some(b) ==> b.len() <= 0x7fff),
    {
        reveal(DescribeClusterBroker::spec_write_rack);
    }

    proof fn lemma_writable_is_fenced(m: DescribeClusterBrokerView, version: i16)
        ensures
            Self::spec_write_is_fenced(m, version) is Ok <==> true,
    {
        reveal(DescribeClusterBroker::spec_write_is_fenced);
    }

    proof fn lemma_writable_tags(m: DescribeClusterBrokerView, version: i16)
        ensures
            Self::spec_write_tags(m, version) is Ok <==> m.unknown_tagged_fields.len() <= u32::MAX && tags_fit(m.unknown_tagged_fields),
    {
        reveal(DescribeClusterBroker::spec_write_tags);
        lemma_sorted_tags_fit(m.unknown_tagged_fields);
        lemma_tagged_fields_writable(sorted_by_tag(m.unknown_tagged_fields));
    }

    /// Writing `m` in `version` succeeds exactly when `m` is writable in it;
    /// so do `write` and `encoded_len`, whose results follow `spec_write`.
    #[verifier::rlimit(66)]
    pub proof fn lemma_writable(m: DescribeClusterBrokerView, version: i16)
        ensures
            Self::spec_write(m, version) is Ok <==> Self::writable(m, version),
    {
        Self::lemma_writable_broker_id(m, version);
        Self::lemma_writable_host(m, version);
        Self::lemma_writable_port(m, version);
        Self::lemma_writable_rack(m, version);
        Self::lemma_writable_is_fenced(m, version);
        Self::lemma_writable_tags(m, version);
    }

    fn read_broker_id(buf: &mut Bytes, version: i16) -> (r: Result<i32, Error>)
        ensures
            read_as(Self::spec_read_broker_id(bytes_seq(*old(buf)), version), *final(buf), r),
            took_front(*old(buf), *final(buf)),
    {
        proof {
            reveal(DescribeClusterBroker::spec_read_broker_id);
        }
        Ok(read_i32(buf)?)
    }

    fn read_host(buf: &mut Bytes, version: i16) -> (r: Result<KafkaString, Error>)
        ensures
            read_as(Self::spec_read_host(bytes_seq(*old(buf)), version), *final(buf), r),
            took_front(*old(buf), *final(buf)),
    {
        proof {
            reveal(DescribeClusterBroker::spec_read_host);
        }
        Ok(read_compact_string(buf)?)
    }

    fn read_port(buf: &mut Bytes, version: i16) -> (r: Result<i32, Error>)
        ensures
            read_as(Self::spec_read_port(bytes_seq(*old(buf)), version), *final(buf), r),
            took_front(*old(buf), *final(buf)),
    {
        proof {
            reveal(DescribeClusterBroker::spec_read_port);
        }
        Ok(read_i32(buf)?)
    }

    fn read_rack(buf: &mut Bytes, version: i16) -> (r: Result<Option<KafkaString>, Error>)
        ensures
            read_opt_as(Self::spec_read_rack(bytes_seq(*old(buf)), version), *final(buf), r),
            took_front(*old(buf), *final(buf)),
    {
        proof {
            reveal(DescribeClusterBroker::spec_read_rack);
        }
        Ok(read_compact_nullable_string(buf)?)
    }

    fn read_is_fenced(buf: &mut Bytes, version: i16) -> (r: Result<bool, Error>)
        ensures
            read_as(Self::spec_read_is_fenced(bytes_seq(*old(buf)), version), *final(buf), r),
            took_front(*old(buf), *final(buf)),
    {
        proof {
            reveal(DescribeClusterBroker::spec_read_is_fenced);
        }
        Ok(if version >= 2 {
                read_bool(buf)?
            } else {
                false
        })
    }

    fn read_tags(buf: &mut Bytes, version: i16) -> (r: Result<Vec<RawTaggedField>, Error>)
        ensures
            read_vec_as(Self::spec_read_tags(bytes_seq(*old(buf)), version), *final(buf), r),
            took_front(*old(buf), *final(buf)),
    {
        proof {
            reveal(DescribeClusterBroker::spec_read_tags);
        }
        Ok(read_tagged_fields(buf)?)
    }

    #[verifier::rlimit(56)]
    #[verifier::spinoff_prover]
    pub fn read(buf: &mut Bytes, version: i16) -> (r: Result<Self, Error>)
        ensures
            read_as(Self::spec_read(bytes_seq(*old(buf)), version), *final(buf), r),
            took_front(*old(buf), *final(buf)),
    {
        let broker_id = Self::read_broker_id(buf, version)?;
        let host = Self::read_host(buf, version)?;
        let port = Self::read_port(buf, version)?;
        let rack = Self::read_rack(buf, version)?;
        let is_fenced = Self::read_is_fenced(buf, version)?;
        let _unknown_tagged_fields = Self::read_tags(buf, version)?;
        Ok(DescribeClusterBroker {
                broker_id: broker_id,
                host: host,
                port: port,
                rack: rack,
                is_fenced: is_fenced,
                _unknown_tagged_fields: _unknown_tagged_fields,
        })
    }

    #[verifier::rlimit(90)]
    #[verifier::spinoff_prover]
    pub fn write(&self, buf: &mut BytesMut, version: i16) -> (r: Result<(), Error>)
        requires
            has_room(Self::spec_write(self@, version), *old(buf)),
        ensures
            wrote(Self::spec_write(self@, version), *old(buf), *final(buf), r),
    {
        let ghost m = self@;
        proof {
            reveal(DescribeClusterBroker::spec_write_broker_id);
            reveal(DescribeClusterBroker::spec_write_host);
            reveal(DescribeClusterBroker::spec_write_port);
            reveal(DescribeClusterBroker::spec_write_rack);
            reveal(DescribeClusterBroker::spec_write_is_fenced);
            reveal(DescribeClusterBroker::spec_write_tags);
        }
        let ghost s0 = Self::spec_write_broker_id(m, version);
        let ghost w0 = s0;
        let ghost s1 = Self::spec_write_host(m, version);
        let ghost w1 = chain(w0, s1);
        let ghost s2 = Self::spec_write_port(m, version);
        let ghost w2 = chain(w1, s2);
        let ghost s3 = Self::spec_write_rack(m, version);
        let ghost w3 = chain(w2, s3);
        let ghost s4 = Self::spec_write_is_fenced(m, version);
        let ghost w4 = chain(w3, s4);
        let ghost s5 = Self::spec_write_tags(m, version);
        let ghost w5 = chain(w4, s5);
        assert(Self::spec_write(m, version) == w5);
        assert(written(w4).len() <= written(w5).len() && (w4 is Err ==> w5 == w4));
        assert(written(w3).len() <= written(w5).len() && (w3 is Err ==> w5 == w3));
        assert(written(w2).len() <= written(w5).len() && (w2 is Err ==> w5 == w2));
        assert(written(w1).len() <= written(w5).len() && (w1 is Err ==> w5 == w1));
        assert(written(w0).len() <= written(w5).len() && (w0 is Err ==> w5 == w0));
        let ghost mid = bytes_mut_seq(*buf);
        proof {
            lemma_append_empty(mid);
        }
        let r0 = {
            write_i32(buf, self.broker_id);
            Ok(())
        };
        assert(bytes_mut_seq(*buf) == mid + written(s0));
        if r0.is_err() {
            return r0;
        }
        let ghost mid = bytes_mut_seq(*buf);
        proof {
            lemma_append_empty(mid);
        }
        let r1 = write_compact_string(buf, &self.host);
        assert(bytes_mut_seq(*buf) == mid + written(s1));
        proof {
            lemma_step(bytes_mut_seq(*old(buf)), w0, s1);
        }
        if r1.is_err() {
            return r1;
        }
        let ghost mid = bytes_mut_seq(*buf);
        proof {
            lemma_append_empty(mid);
        }
        let r2 = {
            write_i32(buf, self.port);
            Ok(())
        };
        assert(bytes_mut_seq(*buf) == mid + written(s2));
        proof {
            lemma_step(bytes_mut_seq(*old(buf)), w1, s2);
        }
        if r2.is_err() {
            return r2;
        }
        let ghost mid = bytes_mut_seq(*buf);
        proof {
            lemma_append_empty(mid);
        }
        let r3 = write_compact_nullable_string(buf, &self.rack);
        assert(bytes_mut_seq(*buf) == mid + written(s3));
        proof {
            lemma_step(bytes_mut_seq(*old(buf)), w2, s3);
        }
        if r3.is_err() {
            return r3;
        }
        let ghost mid = bytes_mut_seq(*buf);
        proof {
            lemma_append_empty(mid);
        }
        let r4 = if version >= 2 {
            {
                write_bool(buf, self.is_fenced);
                Ok(())
            }
        } else {
            Ok(())
        };
        assert(bytes_mut_seq(*buf) == mid + written(s4));
        proof {
            lemma_step(bytes_mut_seq(*old(buf)), w3, s4);
        }
        if r4.is_err() {
            return r4;
        }
        let ghost mid = bytes_mut_seq(*buf);
        proof {
            lemma_append_empty(mid);
        }
        let r5 = write_tagged_fields(buf, &sort_by_tag(&self._unknown_tagged_fields));
        assert(bytes_mut_seq(*buf) == mid + written(s5));
        proof {
            lemma_step(bytes_mut_seq(*old(buf)), w4, s5);
        }
        if r5.is_err() {
            return r5;
        }
        Ok(())
    }
}

impl Codec for DescribeClusterBroker {
    type Item = DescribeClusterBroker;

    open spec fn spec_read_item(s: Seq<u8>, version: i16) -> ReadOutcome<DescribeClusterBrokerView> {
        DescribeClusterBroker::spec_read(s, version)
    }

    open spec fn spec_write_item(v: DescribeClusterBrokerView, version: i16) -> WriteOutcome {
        DescribeClusterBroker::spec_write(v, version)
    }

    open spec fn canonical_item(v: DescribeClusterBrokerView, version: i16) -> bool {
        DescribeClusterBroker::canonical(v, version)
    }

    proof fn lemma_item_round_trip(v: DescribeClusterBrokerView, version: i16, rest: Seq<u8>) {
        DescribeClusterBroker::lemma_round_trip(v, version, rest);
    }

    open spec fn writable_item(v: DescribeClusterBrokerView, version: i16) -> bool {
        DescribeClusterBroker::writable(v, version)
    }

    proof fn lemma_item_writable(v: DescribeClusterBrokerView, version: i16) {
        DescribeClusterBroker::lemma_writable(v, version);
    }

    fn read_item(buf: &mut Bytes, version: i16) -> (r: Result<DescribeClusterBroker, Error>) {
        DescribeClusterBroker::read(buf, version)
    }

    fn write_item(item: &DescribeClusterBroker, buf: &mut BytesMut, version: i16) -> (r: Result<(), Error>) {
        item.write(buf, version)
    }
}

} // verus!
