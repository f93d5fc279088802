//! The get telemetry subscriptions response message.
use crate::buffer::{bytes_mut_seq, bytes_seq};
use crate::codec::{CompactStringItem, Int8Item, all_writable, lemma_array_round_trip, lemma_array_writable, read_array, spec_read_array, spec_write_array, write_array};
use crate::error::{Error, UnsupportedVersion};
use crate::ints::{lemma_bool_roundtrip, lemma_i16_roundtrip, lemma_i32_roundtrip, read_bool, read_i16, read_i32, spec_read_bool, spec_read_i16, spec_read_i32, spec_write_bool, spec_write_i16, spec_write_i32, u16_bytes, u32_bytes, u64_bytes, write_bool, write_i16, write_i32};
use crate::strings::{lemma_uuid_round_trip, read_uuid, spec_read_uuid, spec_write_uuid, write_uuid};
use crate::tagged::{lemma_sorted_by_tag_in_order, lemma_sorted_tags_fit, lemma_tagged_fields_round_trip, lemma_tagged_fields_writable, read_tagged_fields, sort_by_tag, sorted_by_tag, spec_read_tagged_fields, spec_write_tagged_fields, tags_fit, tags_in_order, write_tagged_fields};
use crate::types::{KafkaString, KafkaUuid, RawTaggedField};
use crate::wire::{ReadOutcome, ViewClone, WriteOutcome, chain, clone_vec, empty_vec, fail, has_room, lemma_append_empty, lemma_chain_written, lemma_step, read_as, read_vec_as, took_front, views, written, wrote};
use bytes::{Bytes, BytesMut};
use vstd::prelude::*;

verus! {

broadcast use {crate::wire::lemma_chain_written, crate::wire::lemma_took_front_nothing, crate::wire::lemma_took_front_twice};

#[derive(Debug, PartialEq)]
pub struct GetTelemetrySubscriptionsResponseData {
    /// The duration in milliseconds for which the request was throttled due to a quota violation,
    /// or zero if the request did not violate any quota.
    pub throttle_time_ms: i32,
    /// The error code, or 0 if there was no error.
    pub error_code: i16,
    /// Assigned client instance id if ClientInstanceId was 0 in the request, else 0.
    pub client_instance_id: KafkaUuid,
    /// Unique identifier for the current subscription set for this client instance.
    pub subscription_id: i32,
    /// Compression types that broker accepts for the PushTelemetryRequest.
    pub accepted_compression_types: Vec<i8>,
    /// Configured push interval, which is the lowest configured interval in the current
    /// subscription set.
    pub push_interval_ms: i32,
    /// The maximum bytes of binary data the broker accepts in PushTelemetryRequest.
    pub telemetry_max_bytes: i32,
    /// Flag to indicate monotonic/counter metrics are to be emitted as deltas or cumulative
    /// values.
    pub delta_temporality: bool,
    /// Requested metrics prefix string match. Empty array: No metrics subscribed, Array[0] empty
    /// string: All metrics subscribed.
    pub requested_metrics: Vec<KafkaString>,
    pub _unknown_tagged_fields: Vec<RawTaggedField>,
}

/// What a `GetTelemetrySubscriptionsResponseData` holds, as the specification sees it.
#[verifier::ext_equal]
pub struct GetTelemetrySubscriptionsResponseDataView {
    pub throttle_time_ms: i32,
    pub error_code: i16,
    pub client_instance_id: KafkaUuid,
    pub subscription_id: i32,
    pub accepted_compression_types: Seq<i8>,
    pub push_interval_ms: i32,
    pub telemetry_max_bytes: i32,
    pub delta_temporality: bool,
    pub requested_metrics: Seq<Seq<u8>>,
    pub unknown_tagged_fields: Seq<(u32, Seq<u8>)>,
}

impl View for GetTelemetrySubscriptionsResponseData {
    type V = GetTelemetrySubscriptionsResponseDataView;

    open spec fn view(&self) -> GetTelemetrySubscriptionsResponseDataView {
        GetTelemetrySubscriptionsResponseDataView {
            throttle_time_ms: self.throttle_time_ms,
            error_code: self.error_code,
            client_instance_id: self.client_instance_id,
            subscription_id: self.subscription_id,
            accepted_compression_types: views(self.accepted_compression_types@),
            push_interval_ms: self.push_interval_ms,
            telemetry_max_bytes: self.telemetry_max_bytes,
            delta_temporality: self.delta_temporality,
            requested_metrics: views(self.requested_metrics@),
            unknown_tagged_fields: views(self._unknown_tagged_fields@),
        }
    }
}

impl Clone for GetTelemetrySubscriptionsResponseData {
    fn clone(&self) -> (r: Self)
        ensures
            r@ == self@,
    {
        let r = GetTelemetrySubscriptionsResponseData {
            throttle_time_ms: self.throttle_time_ms,
            error_code: self.error_code,
            client_instance_id: self.client_instance_id,
            subscription_id: self.subscription_id,
            accepted_compression_types: clone_vec(&self.accepted_compression_types),
            push_interval_ms: self.push_interval_ms,
            telemetry_max_bytes: self.telemetry_max_bytes,
            delta_temporality: self.delta_temporality,
            requested_metrics: clone_vec(&self.requested_metrics),
            _unknown_tagged_fields: clone_vec(&self._unknown_tagged_fields),
        };
        assert(r@ =~= self@);
        r
    }
}

impl ViewClone for GetTelemetrySubscriptionsResponseData {
    fn clone_view(&self) -> (r: Self) {
        self.clone()
    }
}

impl Default for GetTelemetrySubscriptionsResponseData {
    fn default() -> (r: Self)
        ensures
            r@ == Self::default_view(),
    {
        let r = GetTelemetrySubscriptionsResponseData {
            throttle_time_ms: 0_i32,
            error_code: 0_i16,
            client_instance_id: KafkaUuid::zero(),
            subscription_id: 0_i32,
            accepted_compression_types: empty_vec(),
            push_interval_ms: 0_i32,
            telemetry_max_bytes: 0_i32,
            delta_temporality: false,
            requested_metrics: empty_vec(),
            _unknown_tagged_fields: empty_vec(),
        };
        assert(r@ =~= Self::default_view());
        r
    }
}

impl GetTelemetrySubscriptionsResponseData {
    pub open spec fn default_view() -> GetTelemetrySubscriptionsResponseDataView {
        GetTelemetrySubscriptionsResponseDataView {
            throttle_time_ms: 0_i32,
            error_code: 0_i16,
            client_instance_id: KafkaUuid { most_significant_bits: 0, least_significant_bits: 0 },
            subscription_id: 0_i32,
            accepted_compression_types: Seq::empty(),
            push_interval_ms: 0_i32,
            telemetry_max_bytes: 0_i32,
            delta_temporality: false,
            requested_metrics: Seq::empty(),
            unknown_tagged_fields: Seq::empty(),
        }
    }

    /// The `throttle_time_ms` field, read from the front of `s`.
    #[verifier::opaque]
    pub open spec fn spec_read_throttle_time_ms(s: Seq<u8>, version: i16) -> ReadOutcome<i32> {
        spec_read_i32(s)
    }

    /// The `error_code` field, read from the front of `s`.
    #[verifier::opaque]
    pub open spec fn spec_read_error_code(s: Seq<u8>, version: i16) -> ReadOutcome<i16> {
        spec_read_i16(s)
    }

    /// The `client_instance_id` field, read from the front of `s`.
    #[verifier::opaque]
    pub open spec fn spec_read_client_instance_id(s: Seq<u8>, version: i16) -> ReadOutcome<KafkaUuid> {
        spec_read_uuid(s)
    }

    /// The `subscription_id` field, read from the front of `s`.
    #[verifier::opaque]
    pub open spec fn spec_read_subscription_id(s: Seq<u8>, version: i16) -> ReadOutcome<i32> {
        spec_read_i32(s)
    }

    /// The `accepted_compression_types` field, read from the front of `s`.
    #[verifier::opaque]
    pub open spec fn spec_read_accepted_compression_types(s: Seq<u8>, version: i16) -> ReadOutcome<Seq<i8>> {
        spec_read_array::<Int8Item>(s, version, true)
    }

    /// The `push_interval_ms` field, read from the front of `s`.
    #[verifier::opaque]
    pub open spec fn spec_read_push_interval_ms(s: Seq<u8>, version: i16) -> ReadOutcome<i32> {
        spec_read_i32(s)
    }

    /// The `telemetry_max_bytes` field, read from the front of `s`.
    #[verifier::opaque]
    pub open spec fn spec_read_telemetry_max_bytes(s: Seq<u8>, version: i16) -> ReadOutcome<i32> {
        spec_read_i32(s)
    }

    /// The `delta_temporality` field, read from the front of `s`.
    #[verifier::opaque]
    pub open spec fn spec_read_delta_temporality(s: Seq<u8>, version: i16) -> ReadOutcome<bool> {
        spec_read_bool(s)
    }

    /// The `requested_metrics` field, read from the front of `s`.
    #[verifier::opaque]
    pub open spec fn spec_read_requested_metrics(s: Seq<u8>, version: i16) -> ReadOutcome<Seq<Seq<u8>>> {
        spec_read_array::<CompactStringItem>(s, version, true)
    }

    /// The tagged fields, read from the front of `s`.
    #[verifier::opaque]
    pub open spec fn spec_read_tags(s: Seq<u8>, version: i16) -> ReadOutcome<Seq<(u32, Seq<u8>)>> {
        spec_read_tagged_fields(s)
    }

    pub open spec fn spec_read(s: Seq<u8>, version: i16) -> ReadOutcome<GetTelemetrySubscriptionsResponseDataView> {
        if version < 0 || version > 0 {
            Err(Error::UnsupportedVersion(UnsupportedVersion { api_key: 71, version }))
        } else {
            match (Self::spec_read_throttle_time_ms(s, version)) {
                Err(e) => Err(e),
                Ok((throttle_time_ms, s)) => match (Self::spec_read_error_code(s, version)) {
                    Err(e) => Err(e),
                    Ok((error_code, s)) => match (Self::spec_read_client_instance_id(s, version)) {
                        Err(e) => Err(e),
                        Ok((client_instance_id, s)) => match (Self::spec_read_subscription_id(s, version)) {
                            Err(e) => Err(e),
                            Ok((subscription_id, s)) => match (Self::spec_read_accepted_compression_types(s, version)) {
                                Err(e) => Err(e),
                                Ok((accepted_compression_types, s)) => match (Self::spec_read_push_interval_ms(s, version)) {
                                    Err(e) => Err(e),
                                    Ok((push_interval_ms, s)) => match (Self::spec_read_telemetry_max_bytes(s, version)) {
                                        Err(e) => Err(e),
                                        Ok((telemetry_max_bytes, s)) => match (Self::spec_read_delta_temporality(s, version)) {
                                            Err(e) => Err(e),
                                            Ok((delta_temporality, s)) => match (Self::spec_read_requested_metrics(s, version)) {
                                                Err(e) => Err(e),
                                                Ok((requested_metrics, s)) => match (Self::spec_read_tags(s, version)) {
                                                    Err(e) => Err(e),
                                                    Ok((unknown_tagged_fields, s)) => Ok((GetTelemetrySubscriptionsResponseDataView {
                                                                throttle_time_ms: throttle_time_ms,
                                                                error_code: error_code,
                                                                client_instance_id: client_instance_id,
                                                                subscription_id: subscription_id,
                                                                accepted_compression_types: accepted_compression_types,
                                                                push_interval_ms: push_interval_ms,
                                                                telemetry_max_bytes: telemetry_max_bytes,
                                                                delta_temporality: delta_temporality,
                                                                requested_metrics: requested_metrics,
                                                                unknown_tagged_fields: unknown_tagged_fields,
                                                            }, s)),
                                                },
                                            },
                                        },
                                    },
                                },
                            },
                        },
                    },
                },
            }
        }
    }

    /// What writing the `throttle_time_ms` field of `m` appends.
    #[verifier::opaque]
    pub open spec fn spec_write_throttle_time_ms(m: GetTelemetrySubscriptionsResponseDataView, version: i16) -> WriteOutcome {
        spec_write_i32(m.throttle_time_ms)
    }

    /// What writing the `error_code` field of `m` appends.
    #[verifier::opaque]
    pub open spec fn spec_write_error_code(m: GetTelemetrySubscriptionsResponseDataView, version: i16) -> WriteOutcome {
        spec_write_i16(m.error_code)
    }

    /// What writing the `client_instance_id` field of `m` appends.
    #[verifier::opaque]
    pub open spec fn spec_write_client_instance_id(m: GetTelemetrySubscriptionsResponseDataView, version: i16) -> WriteOutcome {
        spec_write_uuid(m.client_instance_id)
    }

    /// What writing the `subscription_id` field of `m` appends.
    #[verifier::opaque]
    pub open spec fn spec_write_subscription_id(m: GetTelemetrySubscriptionsResponseDataView, version: i16) -> WriteOutcome {
        spec_write_i32(m.subscription_id)
    }

    /// What writing the `accepted_compression_types` field of `m` appends.
    #[verifier::opaque]
    pub open spec fn spec_write_accepted_compression_types(m: GetTelemetrySubscriptionsResponseDataView, version: i16) -> WriteOutcome {
        spec_write_array::<Int8Item>(m.accepted_compression_types, version, true)
    }

    /// What writing the `push_interval_ms` field of `m` appends.
    #[verifier::opaque]
    pub open spec fn spec_write_push_interval_ms(m: GetTelemetrySubscriptionsResponseDataView, version: i16) -> WriteOutcome {
        spec_write_i32(m.push_interval_ms)
    }

    /// What writing the `telemetry_max_bytes` field of `m` appends.
    #[verifier::opaque]
    pub open spec fn spec_write_telemetry_max_bytes(m: GetTelemetrySubscriptionsResponseDataView, version: i16) -> WriteOutcome {
        spec_write_i32(m.telemetry_max_bytes)
    }

    /// What writing the `delta_temporality` field of `m` appends.
    #[verifier::opaque]
    pub open spec fn spec_write_delta_temporality(m: GetTelemetrySubscriptionsResponseDataView, version: i16) -> WriteOutcome {
        spec_write_bool(m.delta_temporality)
    }

    /// What writing the `requested_metrics` field of `m` appends.
    #[verifier::opaque]
    pub open spec fn spec_write_requested_metrics(m: GetTelemetrySubscriptionsResponseDataView, version: i16) -> WriteOutcome {
        spec_write_array::<CompactStringItem>(m.requested_metrics, version, true)
    }

    /// What writing the tagged fields of `m` appends.
    #[verifier::opaque]
    pub open spec fn spec_write_tags(m: GetTelemetrySubscriptionsResponseDataView, version: i16) -> WriteOutcome {
        spec_write_tagged_fields(sorted_by_tag(m.unknown_tagged_fields))
    }

    pub open spec fn spec_write(m: GetTelemetrySubscriptionsResponseDataView, version: i16) -> WriteOutcome {
        if version < 0 || version > 0 {
            fail(Error::UnsupportedVersion(UnsupportedVersion { api_key: 71, version }))
        } else {
            chain(
                chain(
                    chain(
                        chain(
                            chain(
                                chain(
                                    chain(
                                        chain(
                                            chain(
                                                Self::spec_write_throttle_time_ms(m, version),
                                                Self::spec_write_error_code(m, version),
                                            ),
                                            Self::spec_write_client_instance_id(m, version),
                                        ),
                                        Self::spec_write_subscription_id(m, version),
                                    ),
                                    Self::spec_write_accepted_compression_types(m, version),
                                ),
                                Self::spec_write_push_interval_ms(m, version),
                            ),
                            Self::spec_write_telemetry_max_bytes(m, version),
                        ),
                        Self::spec_write_delta_temporality(m, version),
                    ),
                    Self::spec_write_requested_metrics(m, version),
                ),
                Self::spec_write_tags(m, version),
            )
        }
    }

    /// Whether reading back what writing `m` in `version` appends gives `m`:
    /// fields that the version does not carry hold their default values, and
    /// tagged fields come in the order in which they are written.
    pub open spec fn canonical(m: GetTelemetrySubscriptionsResponseDataView, version: i16) -> bool {
        &&& tags_in_order(m.unknown_tagged_fields)
    }

    proof fn lemma_round_trip_throttle_time_ms(m: GetTelemetrySubscriptionsResponseDataView, version: i16, rest: Seq<u8>)
        requires
            Self::canonical(m, version),
            Self::spec_write_throttle_time_ms(m, version) is Ok,
        ensures
            Self::spec_read_throttle_time_ms(written(Self::spec_write_throttle_time_ms(m, version)) + rest, version) == Ok::<(i32, Seq<u8>), Error>((m.throttle_time_ms, rest)),
    {
        reveal(GetTelemetrySubscriptionsResponseData::spec_read_throttle_time_ms);
        reveal(GetTelemetrySubscriptionsResponseData::spec_write_throttle_time_ms);
        lemma_i32_roundtrip(m.throttle_time_ms, rest);
    }

    proof fn lemma_round_trip_error_code(m: GetTelemetrySubscriptionsResponseDataView, version: i16, rest: Seq<u8>)
        requires
            Self::canonical(m, version),
            Self::spec_write_error_code(m, version) is Ok,
        ensures
            Self::spec_read_error_code(written(Self::spec_write_error_code(m, version)) + rest, version) == Ok::<(i16, Seq<u8>), Error>((m.error_code, rest)),
    {
        reveal(GetTelemetrySubscriptionsResponseData::spec_read_error_code);
        reveal(GetTelemetrySubscriptionsResponseData::spec_write_error_code);
        lemma_i16_roundtrip(m.error_code, rest);
    }

    proof fn lemma_round_trip_client_instance_id(m: GetTelemetrySubscriptionsResponseDataView, version: i16, rest: Seq<u8>)
        requires
            Self::canonical(m, version),
            Self::spec_write_client_instance_id(m, version) is Ok,
        ensures
            Self::spec_read_client_instance_id(written(Self::spec_write_client_instance_id(m, version)) + rest, version) == Ok::<(KafkaUuid, Seq<u8>), Error>((m.client_instance_id, rest)),
    {
        reveal(GetTelemetrySubscriptionsResponseData::spec_read_client_instance_id);
        reveal(GetTelemetrySubscriptionsResponseData::spec_write_client_instance_id);
        lemma_uuid_round_trip(m.client_instance_id, rest);
    }

    proof fn lemma_round_trip_subscription_id(m: GetTelemetrySubscriptionsResponseDataView, version: i16, rest: Seq<u8>)
        requires
            Self::canonical(m, version),
            Self::spec_write_subscription_id(m, version) is Ok,
        ensures
            Self::spec_read_subscription_id(written(Self::spec_write_subscription_id(m, version)) + rest, version) == Ok::<(i32, Seq<u8>), Error>((m.subscription_id, rest)),
    {
        reveal(GetTelemetrySubscriptionsResponseData::spec_read_subscription_id);
        reveal(GetTelemetrySubscriptionsResponseData::spec_write_subscription_id);
        lemma_i32_roundtrip(m.subscription_id, rest);
    }

    proof fn lemma_round_trip_accepted_compression_types(m: GetTelemetrySubscriptionsResponseDataView, version: i16, rest: Seq<u8>)
        requires
            Self::canonical(m, version),
            Self::spec_write_accepted_compression_types(m, version) is Ok,
        ensures
            Self::spec_read_accepted_compression_types(written(Self::spec_write_accepted_compression_types(m, version)) + rest, version) == Ok::<(Seq<i8>, Seq<u8>), Error>((m.accepted_compression_types, rest)),
    {
        reveal(GetTelemetrySubscriptionsResponseData::spec_read_accepted_compression_types);
        reveal(GetTelemetrySubscriptionsResponseData::spec_write_accepted_compression_types);
        lemma_array_round_trip::<Int8Item>(m.accepted_compression_types, version, true, rest);
    }

    proof fn lemma_round_trip_push_interval_ms(m: GetTelemetrySubscriptionsResponseDataView, version: i16, rest: Seq<u8>)
        requires
            Self::canonical(m, version),
            Self::spec_write_push_interval_ms(m, version) is Ok,
        ensures
            Self::spec_read_push_interval_ms(written(Self::spec_write_push_interval_ms(m, version)) + rest, version) == Ok::<(i32, Seq<u8>), Error>((m.push_interval_ms, rest)),
    {
        reveal(GetTelemetrySubscriptionsResponseData::spec_read_push_interval_ms);
        reveal(GetTelemetrySubscriptionsResponseData::spec_write_push_interval_ms);
        lemma_i32_roundtrip(m.push_interval_ms, rest);
    }

    proof fn lemma_round_trip_telemetry_max_bytes(m: GetTelemetrySubscriptionsResponseDataView, version: i16, rest: Seq<u8>)
        requires
            Self::canonical(m, version),
            Self::spec_write_telemetry_max_bytes(m, version) is Ok,
        ensures
            Self::spec_read_telemetry_max_bytes(written(Self::spec_write_telemetry_max_bytes(m, version)) + rest, version) == Ok::<(i32, Seq<u8>), Error>((m.telemetry_max_bytes, rest)),
    {
        reveal(GetTelemetrySubscriptionsResponseData::spec_read_telemetry_max_bytes);
        reveal(GetTelemetrySubscriptionsResponseData::spec_write_telemetry_max_bytes);
        lemma_i32_roundtrip(m.telemetry_max_bytes, rest);
    }

    proof fn lemma_round_trip_delta_temporality(m: GetTelemetrySubscriptionsResponseDataView, version: i16, rest: Seq<u8>)
        requires
            Self::canonical(m, version),
            Self::spec_write_delta_temporality(m, version) is Ok,
        ensures
            Self::spec_read_delta_temporality(written(Self::spec_write_delta_temporality(m, version)) + rest, version) == Ok::<(bool, Seq<u8>), Error>((m.delta_temporality, rest)),
    {
        reveal(GetTelemetrySubscriptionsResponseData::spec_read_delta_temporality);
        reveal(GetTelemetrySubscriptionsResponseData::spec_write_delta_temporality);
        lemma_bool_roundtrip(m.delta_temporality, rest);
    }

    proof fn lemma_round_trip_requested_metrics(m: GetTelemetrySubscriptionsResponseDataView, version: i16, rest: Seq<u8>)
        requires
            Self::canonical(m, version),
            Self::spec_write_requested_metrics(m, version) is Ok,
        ensures
            Self::spec_read_requested_metrics(written(Self::spec_write_requested_metrics(m, version)) + rest, version) == Ok::<(Seq<Seq<u8>>, Seq<u8>), Error>((m.requested_metrics, rest)),
    {
        reveal(GetTelemetrySubscriptionsResponseData::spec_read_requested_metrics);
        reveal(GetTelemetrySubscriptionsResponseData::spec_write_requested_metrics);
        lemma_array_round_trip::<CompactStringItem>(m.requested_metrics, version, true, rest);
    }

    proof fn lemma_round_trip_tags(m: GetTelemetrySubscriptionsResponseDataView, version: i16, rest: Seq<u8>)
        requires
            Self::canonical(m, version),
            Self::spec_write_tags(m, version) is Ok,
        ensures
            Self::spec_read_tags(written(Self::spec_write_tags(m, version)) + rest, version) == Ok::<(Seq<(u32, Seq<u8>)>, Seq<u8>), Error>((m.unknown_tagged_fields, rest)),
    {
        reveal(GetTelemetrySubscriptionsResponseData::spec_read_tags);
        reveal(GetTelemetrySubscriptionsResponseData::spec_write_tags);
        lemma_sorted_by_tag_in_order(m.unknown_tagged_fields);
        lemma_tagged_fields_round_trip(m.unknown_tagged_fields, rest);
    }

    /// Reading back what writing `m` in `version` appends gives `m` again, and
    /// leaves what follows, for every canonical message whose write succeeds.
    #[verifier::rlimit(100)]
    #[verifier::spinoff_prover]
    pub proof fn lemma_round_trip(m: GetTelemetrySubscriptionsResponseDataView, version: i16, rest: Seq<u8>)
        requires
            Self::canonical(m, version),
            Self::spec_write(m, version) is Ok,
        ensures
            Self::spec_read(written(Self::spec_write(m, version)) + rest, version) == Ok::<(GetTelemetrySubscriptionsResponseDataView, Seq<u8>), Error>((m, rest)),
    {
        let b0 = written(Self::spec_write_throttle_time_ms(m, version));
        let b1 = written(Self::spec_write_error_code(m, version));
        let b2 = written(Self::spec_write_client_instance_id(m, version));
        let b3 = written(Self::spec_write_subscription_id(m, version));
        let b4 = written(Self::spec_write_accepted_compression_types(m, version));
        let b5 = written(Self::spec_write_push_interval_ms(m, version));
        let b6 = written(Self::spec_write_telemetry_max_bytes(m, version));
        let b7 = written(Self::spec_write_delta_temporality(m, version));
        let b8 = written(Self::spec_write_requested_metrics(m, version));
        let b9 = written(Self::spec_write_tags(m, version));
        let t10 = rest;
        let t9 = b9 + t10;
        let t8 = b8 + t9;
        let t7 = b7 + t8;
        let t6 = b6 + t7;
        let t5 = b5 + t6;
        let t4 = b4 + t5;
        let t3 = b3 + t4;
        let t2 = b2 + t3;
        let t1 = b1 + t2;
        let t0 = b0 + t1;
        let w0 = Self::spec_write_throttle_time_ms(m, version);
        let w1 = chain(w0, Self::spec_write_error_code(m, version));
        let w2 = chain(w1, Self::spec_write_client_instance_id(m, version));
        let w3 = chain(w2, Self::spec_write_subscription_id(m, version));
        let w4 = chain(w3, Self::spec_write_accepted_compression_types(m, version));
        let w5 = chain(w4, Self::spec_write_push_interval_ms(m, version));
        let w6 = chain(w5, Self::spec_write_telemetry_max_bytes(m, version));
        let w7 = chain(w6, Self::spec_write_delta_temporality(m, version));
        let w8 = chain(w7, Self::spec_write_requested_metrics(m, version));
        let w9 = chain(w8, Self::spec_write_tags(m, version));
        assert(Self::spec_write(m, version) == w9);
        assert(written(w9) + t10 =~= written(w8) + t9);
        assert(written(w8) + t9 =~= written(w7) + t8);
        assert(written(w7) + t8 =~= written(w6) + t7);
        assert(written(w6) + t7 =~= written(w5) + t6);
        assert(written(w5) + t6 =~= written(w4) + t5);
        assert(written(w4) + t5 =~= written(w3) + t4);
        assert(written(w3) + t4 =~= written(w2) + t3);
        assert(written(w2) + t3 =~= written(w1) + t2);
        assert(written(w1) + t2 =~= written(w0) + t1);
        Self::lemma_round_trip_throttle_time_ms(m, version, t1);
        Self::lemma_round_trip_error_code(m, version, t2);
        Self::lemma_round_trip_client_instance_id(m, version, t3);
        Self::lemma_round_trip_subscription_id(m, version, t4);
        Self::lemma_round_trip_accepted_compression_types(m, version, t5);
        Self::lemma_round_trip_push_interval_ms(m, version, t6);
        Self::lemma_round_trip_telemetry_max_bytes(m, version, t7);
        Self::lemma_round_trip_delta_temporality(m, version, t8);
        Self::lemma_round_trip_requested_metrics(m, version, t9);
        Self::lemma_round_trip_tags(m, version, t10);
    }

    /// The default message holds the default value of each field of the schema.
    pub proof fn lemma_default_values()
        ensures
            Self::default_view().throttle_time_ms == (0_i32),
            Self::default_view().error_code == (0_i16),
            Self::default_view().client_instance_id == (KafkaUuid { most_significant_bits: 0, least_significant_bits: 0 }),
            Self::default_view().subscription_id == (0_i32),
            Self::default_view().accepted_compression_types.len() == 0,
            Self::default_view().push_interval_ms == (0_i32),
            Self::default_view().telemetry_max_bytes == (0_i32),
            Self::default_view().delta_temporality == (false),
            Self::default_view().requested_metrics.len() == 0,
            Self::default_view().unknown_tagged_fields.len() == 0,
    {
    }

    /// Each integer, boolean and identifier field is written as its standard
    /// big-endian bytes (a boolean as `1` or `0`) in the versions that carry
    /// it, and as nothing in the others; reading it takes those bytes back (any
    /// byte other than `0` reads as `true`), or gives its default value.
    pub proof fn lemma_field_encodings(m: GetTelemetrySubscriptionsResponseDataView, s: Seq<u8>, version: i16)
        ensures
            true ==> Self::spec_write_throttle_time_ms(m, version) == Ok::<Seq<u8>, (Error, Seq<u8>)>(u32_bytes(m.throttle_time_ms as u32)),
            true ==> Self::spec_write_error_code(m, version) == Ok::<Seq<u8>, (Error, Seq<u8>)>(u16_bytes(m.error_code as u16)),
            true ==> Self::spec_write_client_instance_id(m, version) == Ok::<Seq<u8>, (Error, Seq<u8>)>((u64_bytes(m.client_instance_id.most_significant_bits) + u64_bytes(m.client_instance_id.least_significant_bits))),
            true ==> Self::spec_write_subscription_id(m, version) == Ok::<Seq<u8>, (Error, Seq<u8>)>(u32_bytes(m.subscription_id as u32)),
            true ==> Self::spec_write_push_interval_ms(m, version) == Ok::<Seq<u8>, (Error, Seq<u8>)>(u32_bytes(m.push_interval_ms as u32)),
            true ==> Self::spec_write_telemetry_max_bytes(m, version) == Ok::<Seq<u8>, (Error, Seq<u8>)>(u32_bytes(m.telemetry_max_bytes as u32)),
            true ==> Self::spec_write_delta_temporality(m, version) == Ok::<Seq<u8>, (Error, Seq<u8>)>(seq![if m.delta_temporality { 1u8 } else { 0u8 }]),
            true ==> Self::spec_read_throttle_time_ms(s, version) == spec_read_i32(s),
            true ==> Self::spec_read_error_code(s, version) == spec_read_i16(s),
            true ==> Self::spec_read_client_instance_id(s, version) == spec_read_uuid(s),
            true ==> Self::spec_read_subscription_id(s, version) == spec_read_i32(s),
            true ==> Self::spec_read_push_interval_ms(s, version) == spec_read_i32(s),
            true ==> Self::spec_read_telemetry_max_bytes(s, version) == spec_read_i32(s),
            true ==> Self::spec_read_delta_temporality(s, version) == (if s.len() < 1 { Err(Error::UnexpectedEof) } else { Ok((s[0] != 0, s.drop_first())) }),
    {
        reveal(GetTelemetrySubscriptionsResponseData::spec_write_throttle_time_ms);
        reveal(GetTelemetrySubscriptionsResponseData::spec_read_throttle_time_ms);
        reveal(GetTelemetrySubscriptionsResponseData::spec_write_error_code);
        reveal(GetTelemetrySubscriptionsResponseData::spec_read_error_code);
        reveal(GetTelemetrySubscriptionsResponseData::spec_write_client_instance_id);
        reveal(GetTelemetrySubscriptionsResponseData::spec_read_client_instance_id);
        reveal(GetTelemetrySubscriptionsResponseData::spec_write_subscription_id);
        reveal(GetTelemetrySubscriptionsResponseData::spec_read_subscription_id);
        reveal(GetTelemetrySubscriptionsResponseData::spec_write_push_interval_ms);
        reveal(GetTelemetrySubscriptionsResponseData::spec_read_push_interval_ms);
        reveal(GetTelemetrySubscriptionsResponseData::spec_write_telemetry_max_bytes);
        reveal(GetTelemetrySubscriptionsResponseData::spec_read_telemetry_max_bytes);
        reveal(GetTelemetrySubscriptionsResponseData::spec_write_delta_temporality);
        reveal(GetTelemetrySubscriptionsResponseData::spec_read_delta_temporality);
    }

    /// Whether writing `m` in `version` succeeds, said over its parts: the
    /// version is one the schema covers, every field that the version cannot
    /// carry holds its default value, and every string, byte string, array and
    /// tagged field fits its length prefix.
    pub open spec fn writable(m: GetTelemetrySubscriptionsResponseDataView, version: i16) -> bool {
        &&& 0 <= version <= 0
        &&& (m.accepted_compression_types.len() <= i32::MAX && all_writable::<Int8Item>(m.accepted_compression_types, version))
        &&& (m.requested_metrics.len() <= i32::MAX && all_writable::<CompactStringItem>(m.requested_metrics, version))
        &&& m.unknown_tagged_fields.len() <= u32::MAX && tags_fit(m.unknown_tagged_fields)
    }

    proof fn lemma_writable_throttle_time_ms(m: GetTelemetrySubscriptionsResponseDataView, version: i16)
        ensures
            Self::spec_write_throttle_time_ms(m, version) is Ok <==> true,
    {
        reveal(GetTelemetrySubscriptionsResponseData::spec_write_throttle_time_ms);
    }

    proof fn lemma_writable_error_code(m: GetTelemetrySubscriptionsResponseDataView, version: i16)
        ensures
            Self::spec_write_error_code(m, version) is Ok <==> true,
    {
        reveal(GetTelemetrySubscriptionsResponseData::spec_write_error_code);
    }

    proof fn lemma_writable_client_instance_id(m: GetTelemetrySubscriptionsResponseDataView, version: i16)
        ensures
            Self::spec_write_client_instance_id(m, version) is Ok <==> true,
    {
        reveal(GetTelemetrySubscriptionsResponseData::spec_write_client_instance_id);
    }

    proof fn lemma_writable_subscription_id(m: GetTelemetrySubscriptionsResponseDataView, version: i16)
        ensures
            Self::spec_write_subscription_id(m, version) is Ok <==> true,
    {
        reveal(GetTelemetrySubscriptionsResponseData::spec_write_subscription_id);
    }

    proof fn lemma_writable_accepted_compression_types(m: GetTelemetrySubscriptionsResponseDataView, version: i16)
        ensures
            Self::spec_write_accepted_compression_types(m, version) is Ok <==> (m.accepted_compression_types.len() <= i32::MAX && all_writable::<Int8Item>(m.accepted_compression_types, version)),
    {
        reveal(GetTelemetrySubscriptionsResponseData::spec_write_accepted_compression_types);
        lemma_array_writable::<Int8Item>(m.accepted_compression_types, version, true);
    }

    proof fn lemma_writable_push_interval_ms(m: GetTelemetrySubscriptionsResponseDataView, version: i16)
        ensures
            Self::spec_write_push_interval_ms(m, version) is Ok <==> true,
    {
        reveal(GetTelemetrySubscriptionsResponseData::spec_write_push_interval_ms);
    }

    proof fn lemma_writable_telemetry_max_bytes(m: GetTelemetrySubscriptionsResponseDataView, version: i16)
        ensures
            Self::spec_write_telemetry_max_bytes(m, version) is Ok <==> true,
    {
        reveal(GetTelemetrySubscriptionsResponseData::spec_write_telemetry_max_bytes);
    }

    proof fn lemma_writable_delta_temporality(m: GetTelemetrySubscriptionsResponseDataView, version: i16)
        ensures
            Self::spec_write_delta_temporality(m, version) is Ok <==> true,
    {
        reveal(GetTelemetrySubscriptionsResponseData::spec_write_delta_temporality);
    }

    proof fn lemma_writable_requested_metrics(m: GetTelemetrySubscriptionsResponseDataView, version: i16)
        ensures
            Self::spec_write_requested_metrics(m, version) is Ok <==> (m.requested_metrics.len() <= i32::MAX && all_writable::<CompactStringItem>(m.requested_metrics, version)),
    {
        reveal(GetTelemetrySubscriptionsResponseData::spec_write_requested_metrics);
        lemma_array_writable::<CompactStringItem>(m.requested_metrics, version, true);
    }

    proof fn lemma_writable_tags(m: GetTelemetrySubscriptionsResponseDataView, version: i16)
        ensures
            Self::spec_write_tags(m, version) is Ok <==> m.unknown_tagged_fields.len() <= u32::MAX && tags_fit(m.unknown_tagged_fields),
    {
        reveal(GetTelemetrySubscriptionsResponseData::spec_write_tags);
        lemma_sorted_tags_fit(m.unknown_tagged_fields);
        lemma_tagged_fields_writable(sorted_by_tag(m.unknown_tagged_fields));
    }

    /// Writing `m` in `version` succeeds exactly when `m` is writable in it;
    /// so do `write` and `encoded_len`, whose results follow `spec_write`.
    #[verifier::rlimit(90)]
    pub proof fn lemma_writable(m: GetTelemetrySubscriptionsResponseDataView, version: i16)
        ensures
            Self::spec_write(m, version) is Ok <==> Self::writable(m, version),
    {
        Self::lemma_writable_throttle_time_ms(m, version);
        Self::lemma_writable_error_code(m, version);
        Self::lemma_writable_client_instance_id(m, version);
        Self::lemma_writable_subscription_id(m, version);
        Self::lemma_writable_accepted_compression_types(m, version);
        Self::lemma_writable_push_interval_ms(m, version);
        Self::lemma_writable_telemetry_max_bytes(m, version);
        Self::lemma_writable_delta_temporality(m, version);
        Self::lemma_writable_requested_metrics(m, version);
        Self::lemma_writable_tags(m, version);
    }

    /// A version outside the range that the schema covers is refused, by
    /// reads and by writes alike, before anything is read or written.
    pub proof fn lemma_refused_version(m: GetTelemetrySubscriptionsResponseDataView, s: Seq<u8>, version: i16)
        requires
            version < 0 || version > 0,
        ensures
            Self::spec_read(s, version) == Err::<(GetTelemetrySubscriptionsResponseDataView, Seq<u8>), Error>(Error::UnsupportedVersion(UnsupportedVersion { api_key: 71, version })),
            Self::spec_write(m, version) == fail(Error::UnsupportedVersion(UnsupportedVersion { api_key: 71, version })),
    {
    }

    fn read_throttle_time_ms(buf: &mut Bytes, version: i16) -> (r: Result<i32, Error>)
        ensures
            read_as(Self::spec_read_throttle_time_ms(bytes_seq(*old(buf)), version), *final(buf), r),
            took_front(*old(buf), *final(buf)),
    {
        proof {
            reveal(GetTelemetrySubscriptionsResponseData::spec_read_throttle_time_ms);
        }
        Ok(read_i32(buf)?)
    }

    fn read_error_code(buf: &mut Bytes, version: i16) -> (r: Result<i16, Error>)
        ensures
            read_as(Self::spec_read_error_code(bytes_seq(*old(buf)), version), *final(buf), r),
            took_front(*old(buf), *final(buf)),
    {
        proof {
            reveal(GetTelemetrySubscriptionsResponseData::spec_read_error_code);
        }
        Ok(read_i16(buf)?)
    }

    fn read_client_instance_id(buf: &mut Bytes, version: i16) -> (r: Result<KafkaUuid, Error>)
        ensures
            read_as(Self::spec_read_client_instance_id(bytes_seq(*old(buf)), version), *final(buf), r),
            took_front(*old(buf), *final(buf)),
    {
        proof {
            reveal(GetTelemetrySubscriptionsResponseData::spec_read_client_instance_id);
        }
        Ok(read_uuid(buf)?)
    }

    fn read_subscription_id(buf: &mut Bytes, version: i16) -> (r: Result<i32, Error>)
        ensures
            read_as(Self::spec_read_subscription_id(bytes_seq(*old(buf)), version), *final(buf), r),
            took_front(*old(buf), *final(buf)),
    {
        proof {
            reveal(GetTelemetrySubscriptionsResponseData::spec_read_subscription_id);
        }
        Ok(read_i32(buf)?)
    }

    fn read_accepted_compression_types(buf: &mut Bytes, version: i16) -> (r: Result<Vec<i8>, Error>)
        ensures
            read_vec_as(Self::spec_read_accepted_compression_types(bytes_seq(*old(buf)), version), *final(buf), r),
            took_front(*old(buf), *final(buf)),
    {
        proof {
            reveal(GetTelemetrySubscriptionsResponseData::spec_read_accepted_compression_types);
        }
        Ok(read_array::<Int8Item>(buf, version, true)?)
    }

    fn read_push_interval_ms(buf: &mut Bytes, version: i16) -> (r: Result<i32, Error>)
        ensures
            read_as(Self::spec_read_push_interval_ms(bytes_seq(*old(buf)), version), *final(buf), r),
            took_front(*old(buf), *final(buf)),
    {
        proof {
            reveal(GetTelemetrySubscriptionsResponseData::spec_read_push_interval_ms);
        }
        Ok(read_i32(buf)?)
    }

    fn read_telemetry_max_bytes(buf: &mut Bytes, version: i16) -> (r: Result<i32, Error>)
        ensures
            read_as(Self::spec_read_telemetry_max_bytes(bytes_seq(*old(buf)), version), *final(buf), r),
            took_front(*old(buf), *final(buf)),
    {
        proof {
            reveal(GetTelemetrySubscriptionsResponseData::spec_read_telemetry_max_bytes);
        }
        Ok(read_i32(buf)?)
    }

    fn read_delta_temporality(buf: &mut Bytes, version: i16) -> (r: Result<bool, Error>)
        ensures
            read_as(Self::spec_read_delta_temporality(bytes_seq(*old(buf)), version), *final(buf), r),
            took_front(*old(buf), *final(buf)),
    {
        proof {
            reveal(GetTelemetrySubscriptionsResponseData::spec_read_delta_temporality);
        }
        Ok(read_bool(buf)?)
    }

    fn read_requested_metrics(buf: &mut Bytes, version: i16) -> (r: Result<Vec<KafkaString>, Error>)
        ensures
            read_vec_as(Self::spec_read_requested_metrics(bytes_seq(*old(buf)), version), *final(buf), r),
            took_front(*old(buf), *final(buf)),
    {
        proof {
            reveal(GetTelemetrySubscriptionsResponseData::spec_read_requested_metrics);
        }
        Ok(read_array::<CompactStringItem>(buf, version, true)?)
    }

    fn read_tags(buf: &mut Bytes, version: i16) -> (r: Result<Vec<RawTaggedField>, Error>)
        ensures
            read_vec_as(Self::spec_read_tags(bytes_seq(*old(buf)), version), *final(buf), r),
            took_front(*old(buf), *final(buf)),
    {
        proof {
            reveal(GetTelemetrySubscriptionsResponseData::spec_read_tags);
        }
        Ok(read_tagged_fields(buf)?)
    }

    #[verifier::rlimit(80)]
    #[verifier::spinoff_prover]
    pub fn read(buf: &mut Bytes, version: i16) -> (r: Result<Self, Error>)
        ensures
            read_as(Self::spec_read(bytes_seq(*old(buf)), version), *final(buf), r),
            took_front(*old(buf), *final(buf)),
            (version < 0 || version > 0) ==> bytes_seq(*final(buf)) == bytes_seq(*old(buf)),
    {
        if version < 0 || version > 0 {
            return Err(Error::UnsupportedVersion(UnsupportedVersion::new(71, version)));
        }
        let throttle_time_ms = Self::read_throttle_time_ms(buf, version)?;
        let error_code = Self::read_error_code(buf, version)?;
        let client_instance_id = Self::read_client_instance_id(buf, version)?;
        let subscription_id = Self::read_subscription_id(buf, version)?;
        let accepted_compression_types = Self::read_accepted_compression_types(buf, version)?;
        let push_interval_ms = Self::read_push_interval_ms(buf, version)?;
        let telemetry_max_bytes = Self::read_telemetry_max_bytes(buf, version)?;
        let delta_temporality = Self::read_delta_temporality(buf, version)?;
        let requested_metrics = Self::read_requested_metrics(buf, version)?;
        let _unknown_tagged_fields = Self::read_tags(buf, version)?;
        Ok(GetTelemetrySubscriptionsResponseData {
                throttle_time_ms: throttle_time_ms,
                error_code: error_code,
                client_instance_id: client_instance_id,
                subscription_id: subscription_id,
                accepted_compression_types: accepted_compression_types,
                push_interval_ms: push_interval_ms,
                telemetry_max_bytes: telemetry_max_bytes,
                delta_temporality: delta_temporality,
                requested_metrics: requested_metrics,
                _unknown_tagged_fields: _unknown_tagged_fields,
        })
    }

    #[verifier::rlimit(100)]
    #[verifier::spinoff_prover]
    pub fn write(&self, buf: &mut BytesMut, version: i16) -> (r: Result<(), Error>)
        requires
            has_room(Self::spec_write(self@, version), *old(buf)),
        ensures
            wrote(Self::spec_write(self@, version), *old(buf), *final(buf), r),
    {
        if version < 0 || version > 0 {
            return Err(Error::UnsupportedVersion(UnsupportedVersion::new(71, version)));
        }
        let ghost m = self@;
        proof {
            reveal(GetTelemetrySubscriptionsResponseData::spec_write_throttle_time_ms);
            reveal(GetTelemetrySubscriptionsResponseData::spec_write_error_code);
            reveal(GetTelemetrySubscriptionsResponseData::spec_write_client_instance_id);
            reveal(GetTelemetrySubscriptionsResponseData::spec_write_subscription_id);
            reveal(GetTelemetrySubscriptionsResponseData::spec_write_accepted_compression_types);
            reveal(GetTelemetrySubscriptionsResponseData::spec_write_push_interval_ms);
            reveal(GetTelemetrySubscriptionsResponseData::spec_write_telemetry_max_bytes);
            reveal(GetTelemetrySubscriptionsResponseData::spec_write_delta_temporality);
            reveal(GetTelemetrySubscriptionsResponseData::spec_write_requested_metrics);
            reveal(GetTelemetrySubscriptionsResponseData::spec_write_tags);
        }
        let ghost s0 = Self::spec_write_throttle_time_ms(m, version);
        let ghost w0 = s0;
        let ghost s1 = Self::spec_write_error_code(m, version);
        let ghost w1 = chain(w0, s1);
        let ghost s2 = Self::spec_write_client_instance_id(m, version);
        let ghost w2 = chain(w1, s2);
        let ghost s3 = Self::spec_write_subscription_id(m, version);
        let ghost w3 = chain(w2, s3);
        let ghost s4 = Self::spec_write_accepted_compression_types(m, version);
        let ghost w4 = chain(w3, s4);
        let ghost s5 = Self::spec_write_push_interval_ms(m, version);
        let ghost w5 = chain(w4, s5);
        let ghost s6 = Self::spec_write_telemetry_max_bytes(m, version);
        let ghost w6 = chain(w5, s6);
        let ghost s7 = Self::spec_write_delta_temporality(m, version);
        let ghost w7 = chain(w6, s7);
        let ghost s8 = Self::spec_write_requested_metrics(m, version);
        let ghost w8 = chain(w7, s8);
        let ghost s9 = Self::spec_write_tags(m, version);
        let ghost w9 = chain(w8, s9);
        assert(Self::spec_write(m, version) == w9);
        assert(written(w8).len() <= written(w9).len() && (w8 is Err ==> w9 == w8));
        assert(written(w7).len() <= written(w9).len() && (w7 is Err ==> w9 == w7));
        assert(written(w6).len() <= written(w9).len() && (w6 is Err ==> w9 == w6));
        assert(written(w5).len() <= written(w9).len() && (w5 is Err ==> w9 == w5));
        assert(written(w4).len() <= written(w9).len() && (w4 is Err ==> w9 == w4));
        assert(written(w3).len() <= written(w9).len() && (w3 is Err ==> w9 == w3));
        assert(written(w2).len() <= written(w9).len() && (w2 is Err ==> w9 == w2));
        assert(written(w1).len() <= written(w9).len() && (w1 is Err ==> w9 == w1));
        assert(written(w0).len() <= written(w9).len() && (w0 is Err ==> w9 == w0));
        let ghost mid = bytes_mut_seq(*buf);
        proof {
            lemma_append_empty(mid);
        }
        let r0 = {
            write_i32(buf, self.throttle_time_ms);
            Ok(())
        };
        assert(bytes_mut_seq(*buf) == mid + written(s0));
        if r0.is_err() {
            return r0;
        }
        let ghost mid = bytes_mut_seq(*buf);
        proof {
            lemma_append_empty(mid);
        }
        let r1 = {
            write_i16(buf, self.error_code);
            Ok(())
        };
        assert(bytes_mut_seq(*buf) == mid + written(s1));
        proof {
            lemma_step(bytes_mut_seq(*old(buf)), w0, s1);
        }
        if r1.is_err() {
            return r1;
        }
        let ghost mid = bytes_mut_seq(*buf);
        proof {
            lemma_append_empty(mid);
        }
        let r2 = {
            write_uuid(buf, self.client_instance_id);
            Ok(())
        };
        assert(bytes_mut_seq(*buf) == mid + written(s2));
        proof {
            lemma_step(bytes_mut_seq(*old(buf)), w1, s2);
        }
        if r2.is_err() {
            return r2;
        }
        let ghost mid = bytes_mut_seq(*buf);
        proof {
            lemma_append_empty(mid);
        }
        let r3 = {
            write_i32(buf, self.subscription_id);
            Ok(())
        };
        assert(bytes_mut_seq(*buf) == mid + written(s3));
        proof {
            lemma_step(bytes_mut_seq(*old(buf)), w2, s3);
        }
        if r3.is_err() {
            return r3;
        }
        let ghost mid = bytes_mut_seq(*buf);
        proof {
            lemma_append_empty(mid);
        }
        let r4 = write_array::<Int8Item>(buf, &self.accepted_compression_types, version, true);
        assert(bytes_mut_seq(*buf) == mid + written(s4));
        proof {
            lemma_step(bytes_mut_seq(*old(buf)), w3, s4);
        }
        if r4.is_err() {
            return r4;
        }
        let ghost mid = bytes_mut_seq(*buf);
        proof {
            lemma_append_empty(mid);
        }
        let r5 = {
            write_i32(buf, self.push_interval_ms);
            Ok(())
        };
        assert(bytes_mut_seq(*buf) == mid + written(s5));
        proof {
            lemma_step(bytes_mut_seq(*old(buf)), w4, s5);
        }
        if r5.is_err() {
            return r5;
        }
        let ghost mid = bytes_mut_seq(*buf);
        proof {
            lemma_append_empty(mid);
        }
        let r6 = {
            write_i32(buf, self.telemetry_max_bytes);
            Ok(())
        };
        assert(bytes_mut_seq(*buf) == mid + written(s6));
        proof {
            lemma_step(bytes_mut_seq(*old(buf)), w5, s6);
        }
        if r6.is_err() {
            return r6;
        }
        let ghost mid = bytes_mut_seq(*buf);
        proof {
            lemma_append_empty(mid);
        }
        let r7 = {
            write_bool(buf, self.delta_temporality);
            Ok(())
        };
        assert(bytes_mut_seq(*buf) == mid + written(s7));
        proof {
            lemma_step(bytes_mut_seq(*old(buf)), w6, s7);
        }
        if r7.is_err() {
            return r7;
        }
        let ghost mid = bytes_mut_seq(*buf);
        proof {
            lemma_append_empty(mid);
        }
        let r8 = write_array::<CompactStringItem>(buf, &self.requested_metrics, version, true);
        assert(bytes_mut_seq(*buf) == mid + written(s8));
        proof {
            lemma_step(bytes_mut_seq(*old(buf)), w7, s8);
        }
        if r8.is_err() {
            return r8;
        }
        let ghost mid = bytes_mut_seq(*buf);
        proof {
            lemma_append_empty(mid);
        }
        let r9 = write_tagged_fields(buf, &sort_by_tag(&self._unknown_tagged_fields));
        assert(bytes_mut_seq(*buf) == mid + written(s9));
        proof {
            lemma_step(bytes_mut_seq(*old(buf)), w8, s9);
        }
        if r9.is_err() {
            return r9;
        }
        Ok(())
    }
}

} // verus!
