//! The find coordinator response message.
use crate::buffer::{bytes_mut_seq, bytes_seq};
use crate::codec::{Codec, MeasuredCodec, all_canonical, all_writable, array_len, lemma_array_round_trip, lemma_array_writable, read_array, saturating_sum, spec_read_array, spec_write_array, write_array};
use crate::error::{Error, UnsupportedFieldVersion, UnsupportedVersion};
use crate::ints::{lemma_i16_roundtrip, lemma_i32_roundtrip, read_i16, read_i32, spec_read_i16, spec_read_i32, spec_write_i16, spec_write_i32, u16_bytes, u32_bytes, write_i16, write_i32};
use crate::strings::{compact_nullable_string_len, compact_string_len, lemma_compact_nullable_string_round_trip, lemma_compact_string_round_trip, lemma_nullable_string_round_trip, lemma_string_round_trip, nullable_string_len, read_compact_nullable_string, read_compact_string, read_nullable_string, read_string, spec_read_compact_nullable_string, spec_read_compact_string, spec_read_nullable_string, spec_read_string, spec_write_compact_nullable_string, spec_write_compact_string, spec_write_nullable_string, spec_write_string, string_len, write_compact_nullable_string, write_compact_string, write_nullable_string, write_string};
use crate::tagged::{lemma_sorted_by_tag_in_order, lemma_sorted_tags_fit, lemma_tagged_fields_round_trip, lemma_tagged_fields_writable, read_tagged_fields, sort_by_tag, sorted_by_tag, spec_read_tagged_fields, spec_write_tagged_fields, tagged_fields_len, tags_fit, tags_in_order, write_tagged_fields};
use crate::types::{KafkaString, RawTaggedField};
use crate::wire::{ReadOutcome, ViewClone, WriteOutcome, chain, clone_vec, emit, empty_vec, fail, has_room, lemma_append_empty, lemma_chain_written, lemma_len_step, lemma_step, len_result, opt_view, read_as, read_opt_as, read_vec_as, saturate, took_front, views, written, wrote};
use bytes::{Bytes, BytesMut};
use vstd::prelude::*;

verus! {

broadcast use {crate::wire::lemma_chain_written, crate::wire::lemma_took_front_nothing, crate::wire::lemma_took_front_twice};

#[derive(Debug, PartialEq)]
pub struct FindCoordinatorResponseData {
    /// The duration in milliseconds for which the request was throttled due to a quota violation,
    /// or zero if the request did not violate any quota.
    pub throttle_time_ms: i32,
    /// The error code, or 0 if there was no error.
    pub error_code: i16,
    /// The error message, or null if there was no error.
    pub error_message: Option<KafkaString>,
    /// The node id.
    pub node_id: i32,
    /// The host name.
    pub host: KafkaString,
    /// The port.
    pub port: i32,
    /// Each coordinator result in the response.
    pub coordinators: Vec<Coordinator>,
    pub _unknown_tagged_fields: Vec<RawTaggedField>,
}

/// What a `FindCoordinatorResponseData` holds, as the specification sees it.
#[verifier::ext_equal]
pub struct FindCoordinatorResponseDataView {
    pub throttle_time_ms: i32,
    pub error_code: i16,
    pub error_message: Option<Seq<u8>>,
    pub node_id: i32,
    pub host: Seq<u8>,
    pub port: i32,
    pub coordinators: Seq<CoordinatorView>,
    pub unknown_tagged_fields: Seq<(u32, Seq<u8>)>,
}

impl View for FindCoordinatorResponseData {
    type V = FindCoordinatorResponseDataView;

    open spec fn view(&self) -> FindCoordinatorResponseDataView {
        FindCoordinatorResponseDataView {
            throttle_time_ms: self.throttle_time_ms,
            error_code: self.error_code,
            error_message: opt_view(self.error_message),
            node_id: self.node_id,
            host: self.host@,
            port: self.port,
            coordinators: views(self.coordinators@),
            unknown_tagged_fields: views(self._unknown_tagged_fields@),
        }
    }
}

impl Clone for FindCoordinatorResponseData {
    fn clone(&self) -> (r: Self)
        ensures
            r@ == self@,
    {
        let r = FindCoordinatorResponseData {
            throttle_time_ms: self.throttle_time_ms,
            error_code: self.error_code,
            error_message: match &self.error_message {
                Some(x) => Some(x.clone()),
                None => None,
            },
            node_id: self.node_id,
            host: self.host.clone(),
            port: self.port,
            coordinators: clone_vec(&self.coordinators),
            _unknown_tagged_fields: clone_vec(&self._unknown_tagged_fields),
        };
        assert(r@ =~= self@);
        r
    }
}

impl ViewClone for FindCoordinatorResponseData {
    fn clone_view(&self) -> (r: Self) {
        self.clone()
    }
}

impl Default for FindCoordinatorResponseData {
    fn default() -> (r: Self)
        ensures
            r@ == Self::default_view(),
    {
        let r = FindCoordinatorResponseData {
            throttle_time_ms: 0_i32,
            error_code: 0_i16,
            error_message: None,
            node_id: 0_i32,
            host: KafkaString::default(),
            port: 0_i32,
            coordinators: empty_vec(),
            _unknown_tagged_fields: empty_vec(),
        };
        assert(r@ =~= Self::default_view());
        r
    }
}

impl FindCoordinatorResponseData {
    pub open spec fn default_view() -> FindCoordinatorResponseDataView {
        FindCoordinatorResponseDataView {
            throttle_time_ms: 0_i32,
            error_code: 0_i16,
            error_message: None,
            node_id: 0_i32,
            host: Seq::empty(),
            port: 0_i32,
            coordinators: Seq::empty(),
            unknown_tagged_fields: Seq::empty(),
        }
    }

    /// The `throttle_time_ms` field, read from the front of `s`.
    #[verifier::opaque]
    pub open spec fn spec_read_throttle_time_ms(s: Seq<u8>, version: i16) -> ReadOutcome<i32> {
        if version >= 1 {
            spec_read_i32(s)
        } else {
            Ok((0_i32, s))
        }
    }

    /// The `error_code` field, read from the front of `s`.
    #[verifier::opaque]
    pub open spec fn spec_read_error_code(s: Seq<u8>, version: i16) -> ReadOutcome<i16> {
        if version <= 3 {
            spec_read_i16(s)
        } else {
            Ok((0_i16, s))
        }
    }

    /// The `error_message` field, read from the front of `s`.
    #[verifier::opaque]
    pub open spec fn spec_read_error_message(s: Seq<u8>, version: i16) -> ReadOutcome<Option<Seq<u8>>> {
        if version >= 1 && version <= 3 {
            if version >= 3 {
                spec_read_compact_nullable_string(s)
            } else {
                spec_read_nullable_string(s)
            }
        } else {
            Ok((None, s))
        }
    }

    /// The `node_id` field, read from the front of `s`.
    #[verifier::opaque]
    pub open spec fn spec_read_node_id(s: Seq<u8>, version: i16) -> ReadOutcome<i32> {
        if version <= 3 {
            spec_read_i32(s)
        } else {
            Ok((0_i32, s))
        }
    }

    /// The `host` field, read from the front of `s`.
    #[verifier::opaque]
    pub open spec fn spec_read_host(s: Seq<u8>, version: i16) -> ReadOutcome<Seq<u8>> {
        if version <= 3 {
            if version >= 3 {
                spec_read_compact_string(s)
            } else {
                spec_read_string(s)
            }
        } else {
            Ok((Seq::empty(), s))
        }
    }

    /// The `port` field, read from the front of `s`.
    #[verifier::opaque]
    pub open spec fn spec_read_port(s: Seq<u8>, version: i16) -> ReadOutcome<i32> {
        if version <= 3 {
            spec_read_i32(s)
        } else {
            Ok((0_i32, s))
        }
    }

    /// The `coordinators` field, read from the front of `s`.
    #[verifier::opaque]
    pub open spec fn spec_read_coordinators(s: Seq<u8>, version: i16) -> ReadOutcome<Seq<CoordinatorView>> {
        if version >= 4 {
            spec_read_array::<Coordinator>(s, version, true)
        } else {
            Ok((Seq::empty(), s))
        }
    }

    /// The tagged fields, read from the front of `s`.
    #[verifier::opaque]
    pub open spec fn spec_read_tags(s: Seq<u8>, version: i16) -> ReadOutcome<Seq<(u32, Seq<u8>)>> {
        if version >= 3 {
            spec_read_tagged_fields(s)
        } else {
            Ok((Seq::empty(), s))
        }
    }

    pub open spec fn spec_read(s: Seq<u8>, version: i16) -> ReadOutcome<FindCoordinatorResponseDataView> {
        if version < 0 || version > 6 {
            Err(Error::UnsupportedVersion(UnsupportedVersion { api_key: 10, version }))
        } else {
            match (Self::spec_read_throttle_time_ms(s, version)) {
                Err(e) => Err(e),
                Ok((throttle_time_ms, s)) => match (Self::spec_read_error_code(s, version)) {
                    Err(e) => Err(e),
                    Ok((error_code, s)) => match (Self::spec_read_error_message(s, version)) {
                        Err(e) => Err(e),
                        Ok((error_message, s)) => match (Self::spec_read_node_id(s, version)) {
                            Err(e) => Err(e),
                            Ok((node_id, s)) => match (Self::spec_read_host(s, version)) {
                                Err(e) => Err(e),
                                Ok((host, s)) => match (Self::spec_read_port(s, version)) {
                                    Err(e) => Err(e),
                                    Ok((port, s)) => match (Self::spec_read_coordinators(s, version)) {
                                        Err(e) => Err(e),
                                        Ok((coordinators, s)) => match (Self::spec_read_tags(s, version)) {
                                            Err(e) => Err(e),
                                            Ok((unknown_tagged_fields, s)) => Ok((FindCoordinatorResponseDataView {
                                                        throttle_time_ms: throttle_time_ms,
                                                        error_code: error_code,
                                                        error_message: error_message,
                                                        node_id: node_id,
                                                        host: host,
                                                        port: port,
                                                        coordinators: coordinators,
                                                        unknown_tagged_fields: unknown_tagged_fields,
                                                    }, s)),
                                        },
                                    },
                                },
                            },
                        },
                    },
                },
            }
        }
    }

    /// What writing the `throttle_time_ms` field of `m` appends.
    #[verifier::opaque]
    pub open spec fn spec_write_throttle_time_ms(m: FindCoordinatorResponseDataView, version: i16) -> WriteOutcome {
        if version >= 1 {
            spec_write_i32(m.throttle_time_ms)
        } else {
            if m.throttle_time_ms != 0_i32 {
                fail(Error::UnsupportedFieldVersion(UnsupportedFieldVersion { api_key: 10, field: "throttle_time_ms", version }))
            } else {
                emit(Seq::empty())
            }
        }
    }

    /// What writing the `error_code` field of `m` appends.
    #[verifier::opaque]
    pub open spec fn spec_write_error_code(m: FindCoordinatorResponseDataView, version: i16) -> WriteOutcome {
        if version <= 3 {
            spec_write_i16(m.error_code)
        } else {
            if m.error_code != 0_i16 {
                fail(Error::UnsupportedFieldVersion(UnsupportedFieldVersion { api_key: 10, field: "error_code", version }))
            } else {
                emit(Seq::empty())
            }
        }
    }

    /// What writing the `error_message` field of `m` appends.
    #[verifier::opaque]
    pub open spec fn spec_write_error_message(m: FindCoordinatorResponseDataView, version: i16) -> WriteOutcome {
        if version >= 1 && version <= 3 {
            if version >= 3 {
                spec_write_compact_nullable_string(m.error_message)
            } else {
                spec_write_nullable_string(m.error_message)
            }
        } else {
            if m.error_message is Some {
                fail(Error::UnsupportedFieldVersion(UnsupportedFieldVersion { api_key: 10, field: "error_message", version }))
            } else {
                emit(Seq::empty())
            }
        }
    }

    /// What writing the `node_id` field of `m` appends.
    #[verifier::opaque]
    pub open spec fn spec_write_node_id(m: FindCoordinatorResponseDataView, version: i16) -> WriteOutcome {
        if version <= 3 {
            spec_write_i32(m.node_id)
        } else {
            if m.node_id != 0_i32 {
                fail(Error::UnsupportedFieldVersion(UnsupportedFieldVersion { api_key: 10, field: "node_id", version }))
            } else {
                emit(Seq::empty())
            }
        }
    }

    /// What writing the `host` field of `m` appends.
    #[verifier::opaque]
    pub open spec fn spec_write_host(m: FindCoordinatorResponseDataView, version: i16) -> WriteOutcome {
        if version <= 3 {
            if version >= 3 {
                spec_write_compact_string(m.host)
            } else {
                spec_write_string(m.host)
            }
        } else {
            if m.host.len() != 0 {
                fail(Error::UnsupportedFieldVersion(UnsupportedFieldVersion { api_key: 10, field: "host", version }))
            } else {
                emit(Seq::empty())
            }
        }
    }

    /// What writing the `port` field of `m` appends.
    #[verifier::opaque]
    pub open spec fn spec_write_port(m: FindCoordinatorResponseDataView, version: i16) -> WriteOutcome {
        if version <= 3 {
            spec_write_i32(m.port)
        } else {
            if m.port != 0_i32 {
                fail(Error::UnsupportedFieldVersion(UnsupportedFieldVersion { api_key: 10, field: "port", version }))
            } else {
                emit(Seq::empty())
            }
        }
    }

    /// What writing the `coordinators` field of `m` appends.
    #[verifier::opaque]
    pub open spec fn spec_write_coordinators(m: FindCoordinatorResponseDataView, version: i16) -> WriteOutcome {
        if version >= 4 {
            spec_write_array::<Coordinator>(m.coordinators, version, true)
        } else {
            if m.coordinators.len() != 0 {
                fail(Error::UnsupportedFieldVersion(UnsupportedFieldVersion { api_key: 10, field: "coordinators", version }))
            } else {
                emit(Seq::empty())
            }
        }
    }

    /// What writing the tagged fields of `m` appends.
    #[verifier::opaque]
    pub open spec fn spec_write_tags(m: FindCoordinatorResponseDataView, version: i16) -> WriteOutcome {
        if version >= 3 {
            spec_write_tagged_fields(sorted_by_tag(m.unknown_tagged_fields))
        } else {
            emit(Seq::empty())
        }
    }

    pub open spec fn spec_write(m: FindCoordinatorResponseDataView, version: i16) -> WriteOutcome {
        if version < 0 || version > 6 {
            fail(Error::UnsupportedVersion(UnsupportedVersion { api_key: 10, version }))
        } else {
            chain(
                chain(
                    chain(
                        chain(
                            chain(
                                chain(
                                    chain(
                                        Self::spec_write_throttle_time_ms(m, version),
                                        Self::spec_write_error_code(m, version),
                                    ),
                                    Self::spec_write_error_message(m, version),
                                ),
                                Self::spec_write_node_id(m, version),
                            ),
                            Self::spec_write_host(m, version),
                        ),
                        Self::spec_write_port(m, version),
                    ),
                    Self::spec_write_coordinators(m, version),
                ),
                Self::spec_write_tags(m, version),
            )
        }
    }

    /// Whether reading back what writing `m` in `version` appends gives `m`:
    /// fields that the version does not carry hold their default values, and
    /// tagged fields come in the order in which they are written.
    pub open spec fn canonical(m: FindCoordinatorResponseDataView, version: i16) -> bool {
        &&& (if version >= 4 {
                all_canonical::<Coordinator>(m.coordinators, version)
            } else {
                true
        })
        &&& (if version >= 3 {
                tags_in_order(m.unknown_tagged_fields)
            } else {
                m.unknown_tagged_fields.len() == 0
        })
    }

    proof fn lemma_round_trip_throttle_time_ms(m: FindCoordinatorResponseDataView, version: i16, rest: Seq<u8>)
        requires
            Self::canonical(m, version),
            Self::spec_write_throttle_time_ms(m, version) is Ok,
        ensures
            Self::spec_read_throttle_time_ms(written(Self::spec_write_throttle_time_ms(m, version)) + rest, version) == Ok::<(i32, Seq<u8>), Error>((m.throttle_time_ms, rest)),
    {
        reveal(FindCoordinatorResponseData::spec_read_throttle_time_ms);
        reveal(FindCoordinatorResponseData::spec_write_throttle_time_ms);
        if version >= 1 {
            lemma_i32_roundtrip(m.throttle_time_ms, rest);
        } else {
            assert(Seq::<u8>::empty() + rest =~= rest);
        }
    }

    proof fn lemma_round_trip_error_code(m: FindCoordinatorResponseDataView, version: i16, rest: Seq<u8>)
        requires
            Self::canonical(m, version),
            Self::spec_write_error_code(m, version) is Ok,
        ensures
            Self::spec_read_error_code(written(Self::spec_write_error_code(m, version)) + rest, version) == Ok::<(i16, Seq<u8>), Error>((m.error_code, rest)),
    {
        reveal(FindCoordinatorResponseData::spec_read_error_code);
        reveal(FindCoordinatorResponseData::spec_write_error_code);
        if version <= 3 {
            lemma_i16_roundtrip(m.error_code, rest);
        } else {
            assert(Seq::<u8>::empty() + rest =~= rest);
        }
    }

    proof fn lemma_round_trip_error_message(m: FindCoordinatorResponseDataView, version: i16, rest: Seq<u8>)
        requires
            Self::canonical(m, version),
            Self::spec_write_error_message(m, version) is Ok,
        ensures
            Self::spec_read_error_message(written(Self::spec_write_error_message(m, version)) + rest, version) == Ok::<(Option<Seq<u8>>, Seq<u8>), Error>((m.error_message, rest)),
    {
        reveal(FindCoordinatorResponseData::spec_read_error_message);
        reveal(FindCoordinatorResponseData::spec_write_error_message);
        if version >= 1 && version <= 3 {
            if version >= 3 {
                lemma_compact_nullable_string_round_trip(m.error_message, rest);
            } else {
                lemma_nullable_string_round_trip(m.error_message, rest);
            }
        } else {
            assert(Seq::<u8>::empty() + rest =~= rest);
        }
    }

    proof fn lemma_round_trip_node_id(m: FindCoordinatorResponseDataView, version: i16, rest: Seq<u8>)
        requires
            Self::canonical(m, version),
            Self::spec_write_node_id(m, version) is Ok,
        ensures
            Self::spec_read_node_id(written(Self::spec_write_node_id(m, version)) + rest, version) == Ok::<(i32, Seq<u8>), Error>((m.node_id, rest)),
    {
        reveal(FindCoordinatorResponseData::spec_read_node_id);
        reveal(FindCoordinatorResponseData::spec_write_node_id);
        if version <= 3 {
            lemma_i32_roundtrip(m.node_id, rest);
        } else {
            assert(Seq::<u8>::empty() + rest =~= rest);
        }
    }

    proof fn lemma_round_trip_host(m: FindCoordinatorResponseDataView, version: i16, rest: Seq<u8>)
        requires
            Self::canonical(m, version),
            Self::spec_write_host(m, version) is Ok,
        ensures
            Self::spec_read_host(written(Self::spec_write_host(m, version)) + rest, version) == Ok::<(Seq<u8>, Seq<u8>), Error>((m.host, rest)),
    {
        reveal(FindCoordinatorResponseData::spec_read_host);
        reveal(FindCoordinatorResponseData::spec_write_host);
        if version <= 3 {
            if version >= 3 {
                lemma_compact_string_round_trip(m.host, rest);
            } else {
                lemma_string_round_trip(m.host, rest);
            }
        } else {
            assert(Seq::<u8>::empty() + rest =~= rest);
            assert(m.host =~= Seq::empty());
            assert(m.host =~= Seq::empty());
        }
    }

    proof fn lemma_round_trip_port(m: FindCoordinatorResponseDataView, version: i16, rest: Seq<u8>)
        requires
            Self::canonical(m, version),
            Self::spec_write_port(m, version) is Ok,
        ensures
            Self::spec_read_port(written(Self::spec_write_port(m, version)) + rest, version) == Ok::<(i32, Seq<u8>), Error>((m.port, rest)),
    {
        reveal(FindCoordinatorResponseData::spec_read_port);
        reveal(FindCoordinatorResponseData::spec_write_port);
        if version <= 3 {
            lemma_i32_roundtrip(m.port, rest);
        } else {
            assert(Seq::<u8>::empty() + rest =~= rest);
        }
    }

    proof fn lemma_round_trip_coordinators(m: FindCoordinatorResponseDataView, version: i16, rest: Seq<u8>)
        requires
            Self::canonical(m, version),
            Self::spec_write_coordinators(m, version) is Ok,
        ensures
            Self::spec_read_coordinators(written(Self::spec_write_coordinators(m, version)) + rest, version) == Ok::<(Seq<CoordinatorView>, Seq<u8>), Error>((m.coordinators, rest)),
    {
        reveal(FindCoordinatorResponseData::spec_read_coordinators);
        reveal(FindCoordinatorResponseData::spec_write_coordinators);
        if version >= 4 {
            lemma_array_round_trip::<Coordinator>(m.coordinators, version, true, rest);
        } else {
            assert(Seq::<u8>::empty() + rest =~= rest);
            assert(m.coordinators =~= Seq::empty());
            assert(m.coordinators =~= Seq::empty());
        }
    }

    proof fn lemma_round_trip_tags(m: FindCoordinatorResponseDataView, version: i16, rest: Seq<u8>)
        requires
            Self::canonical(m, version),
            Self::spec_write_tags(m, version) is Ok,
        ensures
            Self::spec_read_tags(written(Self::spec_write_tags(m, version)) + rest, version) == Ok::<(Seq<(u32, Seq<u8>)>, Seq<u8>), Error>((m.unknown_tagged_fields, rest)),
    {
        reveal(FindCoordinatorResponseData::spec_read_tags);
        reveal(FindCoordinatorResponseData::spec_write_tags);
        if version >= 3 {
            lemma_sorted_by_tag_in_order(m.unknown_tagged_fields);
            lemma_tagged_fields_round_trip(m.unknown_tagged_fields, rest);
        } else {
            assert(Seq::<u8>::empty() + rest =~= rest);
            assert(m.unknown_tagged_fields =~= Seq::empty());
        }
    }

    /// Reading back what writing `m` in `version` appends gives `m` again, and
    /// leaves what follows, for every canonical message whose write succeeds.
    #[verifier::rlimit(100)]
    #[verifier::spinoff_prover]
    pub proof fn lemma_round_trip(m: FindCoordinatorResponseDataView, version: i16, rest: Seq<u8>)
        requires
            Self::canonical(m, version),
            Self::spec_write(m, version) is Ok,
        ensures
            Self::spec_read(written(Self::spec_write(m, version)) + rest, version) == Ok::<(FindCoordinatorResponseDataView, Seq<u8>), Error>((m, rest)),
    {
        let b0 = written(Self::spec_write_throttle_time_ms(m, version));
        let b1 = written(Self::spec_write_error_code(m, version));
        let b2 = written(Self::spec_write_error_message(m, version));
        let b3 = written(Self::spec_write_node_id(m, version));
        let b4 = written(Self::spec_write_host(m, version));
        let b5 = written(Self::spec_write_port(m, version));
        let b6 = written(Self::spec_write_coordinators(m, version));
        let b7 = written(Self::spec_write_tags(m, version));
        let t8 = rest;
        let t7 = b7 + t8;
        let t6 = b6 + t7;
        let t5 = b5 + t6;
        let t4 = b4 + t5;
        let t3 = b3 + t4;
        let t2 = b2 + t3;
        let t1 = b1 + t2;
        let t0 = b0 + t1;
        let w0 = Self::spec_write_throttle_time_ms(m, version);
        let w1 = chain(w0, Self::spec_write_error_code(m, version));
        let w2 = chain(w1, Self::spec_write_error_message(m, version));
        let w3 = chain(w2, Self::spec_write_node_id(m, version));
        let w4 = chain(w3, Self::spec_write_host(m, version));
        let w5 = chain(w4, Self::spec_write_port(m, version));
        let w6 = chain(w5, Self::spec_write_coordinators(m, version));
        let w7 = chain(w6, Self::spec_write_tags(m, version));
        assert(Self::spec_write(m, version) == w7);
        assert(written(w7) + t8 =~= written(w6) + t7);
        assert(written(w6) + t7 =~= written(w5) + t6);
        assert(written(w5) + t6 =~= written(w4) + t5);
        assert(written(w4) + t5 =~= written(w3) + t4);
        assert(written(w3) + t4 =~= written(w2) + t3);
        assert(written(w2) + t3 =~= written(w1) + t2);
        assert(written(w1) + t2 =~= written(w0) + t1);
        Self::lemma_round_trip_throttle_time_ms(m, version, t1);
        Self::lemma_round_trip_error_code(m, version, t2);
        Self::lemma_round_trip_error_message(m, version, t3);
        Self::lemma_round_trip_node_id(m, version, t4);
        Self::lemma_round_trip_host(m, version, t5);
        Self::lemma_round_trip_port(m, version, t6);
        Self::lemma_round_trip_coordinators(m, version, t7);
        Self::lemma_round_trip_tags(m, version, t8);
    }

    /// In a version that does not carry `unknown_tagged_fields`, writing ignores its value.
    pub proof fn lemma_write_ignores_unknown_tagged_fields(m: FindCoordinatorResponseDataView, value: Seq<(u32, Seq<u8>)>, version: i16)
        requires
            !(version >= 3),
        ensures
            Self::spec_write((FindCoordinatorResponseDataView { unknown_tagged_fields: value, ..m }), version) == Self::spec_write(m, version),
    {
        reveal(FindCoordinatorResponseData::spec_write_throttle_time_ms);
        reveal(FindCoordinatorResponseData::spec_write_error_code);
        reveal(FindCoordinatorResponseData::spec_write_error_message);
        reveal(FindCoordinatorResponseData::spec_write_node_id);
        reveal(FindCoordinatorResponseData::spec_write_host);
        reveal(FindCoordinatorResponseData::spec_write_port);
        reveal(FindCoordinatorResponseData::spec_write_coordinators);
        reveal(FindCoordinatorResponseData::spec_write_tags);
    }

    /// The default message holds the default value of each field of the schema.
    pub proof fn lemma_default_values()
        ensures
            Self::default_view().throttle_time_ms == (0_i32),
            Self::default_view().error_code == (0_i16),
            (Self::default_view().error_message is None),
            Self::default_view().node_id == (0_i32),
            Self::default_view().host.len() == 0,
            Self::default_view().port == (0_i32),
            Self::default_view().coordinators.len() == 0,
            Self::default_view().unknown_tagged_fields.len() == 0,
    {
    }

    /// Each integer, boolean and identifier field is written as its standard
    /// big-endian bytes (a boolean as `1` or `0`) in the versions that carry
    /// it, and as nothing in the others; reading it takes those bytes back (any
    /// byte other than `0` reads as `true`), or gives its default value.
    pub proof fn lemma_field_encodings(m: FindCoordinatorResponseDataView, s: Seq<u8>, version: i16)
        ensures
            version >= 1 ==> Self::spec_write_throttle_time_ms(m, version) == Ok::<Seq<u8>, (Error, Seq<u8>)>(u32_bytes(m.throttle_time_ms as u32)),
            version <= 3 ==> Self::spec_write_error_code(m, version) == Ok::<Seq<u8>, (Error, Seq<u8>)>(u16_bytes(m.error_code as u16)),
            version <= 3 ==> Self::spec_write_node_id(m, version) == Ok::<Seq<u8>, (Error, Seq<u8>)>(u32_bytes(m.node_id as u32)),
            version <= 3 ==> Self::spec_write_port(m, version) == Ok::<Seq<u8>, (Error, Seq<u8>)>(u32_bytes(m.port as u32)),
            version >= 1 ==> Self::spec_read_throttle_time_ms(s, version) == spec_read_i32(s),
            !(version >= 1) ==> Self::spec_read_throttle_time_ms(s, version) == Ok::<(i32, Seq<u8>), Error>((0_i32, s)),
            version <= 3 ==> Self::spec_read_error_code(s, version) == spec_read_i16(s),
            !(version <= 3) ==> Self::spec_read_error_code(s, version) == Ok::<(i16, Seq<u8>), Error>((0_i16, s)),
            version <= 3 ==> Self::spec_read_node_id(s, version) == spec_read_i32(s),
            !(version <= 3) ==> Self::spec_read_node_id(s, version) == Ok::<(i32, Seq<u8>), Error>((0_i32, s)),
            version <= 3 ==> Self::spec_read_port(s, version) == spec_read_i32(s),
            !(version <= 3) ==> Self::spec_read_port(s, version) == Ok::<(i32, Seq<u8>), Error>((0_i32, s)),
    {
        reveal(FindCoordinatorResponseData::spec_write_throttle_time_ms);
        reveal(FindCoordinatorResponseData::spec_read_throttle_time_ms);
        reveal(FindCoordinatorResponseData::spec_write_error_code);
        reveal(FindCoordinatorResponseData::spec_read_error_code);
        reveal(FindCoordinatorResponseData::spec_write_node_id);
        reveal(FindCoordinatorResponseData::spec_read_node_id);
        reveal(FindCoordinatorResponseData::spec_write_port);
        reveal(FindCoordinatorResponseData::spec_read_port);
    }

    /// Whether writing `m` in `version` succeeds, said over its parts: the
    /// version is one the schema covers, every field that the version cannot
    /// carry holds its default value, and every string, byte string, array and
    /// tagged field fits its length prefix.
    pub open spec fn writable(m: FindCoordinatorResponseDataView, version: i16) -> bool {
        &&& 0 <= version <= 6
        &&& (if version >= 1 {
                true
            } else {
                !(m.throttle_time_ms != 0_i32)
        })
        &&& (if version <= 3 {
                true
            } else {
                !(m.error_code != 0_i16)
        })
        &&& (if version >= 1 && version <= 3 {
                (m.error_message matches Some(b) ==> b.len() <= 0x7fff)
            } else {
                !(m.error_message is Some)
        })
        &&& (if version <= 3 {
                true
            } else {
                !(m.node_id != 0_i32)
        })
        &&& (if version <= 3 {
                m.host.len() <= 0x7fff
            } else {
                !(m.host.len() != 0)
        })
        &&& (if version <= 3 {
                true
            } else {
                !(m.port != 0_i32)
        })
        &&& (if version >= 4 {
                (m.coordinators.len() <= i32::MAX && all_writable::<Coordinator>(m.coordinators, version))
            } else {
                !(m.coordinators.len() != 0)
        })
        &&& (if version >= 3 {
                m.unknown_tagged_fields.len() <= u32::MAX && tags_fit(m.unknown_tagged_fields)
            } else {
                true
        })
    }

    proof fn lemma_writable_throttle_time_ms(m: FindCoordinatorResponseDataView, version: i16)
        ensures
            Self::spec_write_throttle_time_ms(m, version) is Ok <==> (if version >= 1 { true } else { !(m.throttle_time_ms != 0_i32) }),
    {
        reveal(FindCoordinatorResponseData::spec_write_throttle_time_ms);
    }

    proof fn lemma_writable_error_code(m: FindCoordinatorResponseDataView, version: i16)
        ensures
            Self::spec_write_error_code(m, version) is Ok <==> (if version <= 3 { true } else { !(m.error_code != 0_i16) }),
    {
        reveal(FindCoordinatorResponseData::spec_write_error_code);
    }

    proof fn lemma_writable_error_message(m: FindCoordinatorResponseDataView, version: i16)
        ensures
            Self::spec_write_error_message(m, version) is Ok <==> (if version >= 1 && version <= 3 { (m.error_message matches Some(b) ==> b.len() <= 0x7fff) } else { !(m.error_message is Some) }),
    {
        reveal(FindCoordinatorResponseData::spec_write_error_message);
    }

    proof fn lemma_writable_node_id(m: FindCoordinatorResponseDataView, version: i16)
        ensures
            Self::spec_write_node_id(m, version) is Ok <==> (if version <= 3 { true } else { !(m.node_id != 0_i32) }),
    {
        reveal(FindCoordinatorResponseData::spec_write_node_id);
    }

    proof fn lemma_writable_host(m: FindCoordinatorResponseDataView, version: i16)
        ensures
            Self::spec_write_host(m, version) is Ok <==> (if version <= 3 { m.host.len() <= 0x7fff } else { !(m.host.len() != 0) }),
    {
        reveal(FindCoordinatorResponseData::spec_write_host);
    }

    proof fn lemma_writable_port(m: FindCoordinatorResponseDataView, version: i16)
        ensures
            Self::spec_write_port(m, version) is Ok <==> (if version <= 3 { true } else { !(m.port != 0_i32) }),
    {
        reveal(FindCoordinatorResponseData::spec_write_port);
    }

    proof fn lemma_writable_coordinators(m: FindCoordinatorResponseDataView, version: i16)
        ensures
            Self::spec_write_coordinators(m, version) is Ok <==> (if version >= 4 { (m.coordinators.len() <= i32::MAX && all_writable::<Coordinator>(m.coordinators, version)) } else { !(m.coordinators.len() != 0) }),
    {
        reveal(FindCoordinatorResponseData::spec_write_coordinators);
        if version >= 4 {
            lemma_array_writable::<Coordinator>(m.coordinators, version, true);
        } else {
        }
    }

    proof fn lemma_writable_tags(m: FindCoordinatorResponseDataView, version: i16)
        ensures
            Self::spec_write_tags(m, version) is Ok <==> (if version >= 3 { m.unknown_tagged_fields.len() <= u32::MAX && tags_fit(m.unknown_tagged_fields) } else { true }),
    {
        reveal(FindCoordinatorResponseData::spec_write_tags);
        if version >= 3 {
            lemma_sorted_tags_fit(m.unknown_tagged_fields);
            lemma_tagged_fields_writable(sorted_by_tag(m.unknown_tagged_fields));
        }
    }

    /// Writing `m` in `version` succeeds exactly when `m` is writable in it;
    /// so do `write` and `encoded_len`, whose results follow `spec_write`.
    #[verifier::rlimit(78)]
    pub proof fn lemma_writable(m: FindCoordinatorResponseDataView, version: i16)
        ensures
            Self::spec_write(m, version) is Ok <==> Self::writable(m, version),
    {
        Self::lemma_writable_throttle_time_ms(m, version);
        Self::lemma_writable_error_code(m, version);
        Self::lemma_writable_error_message(m, version);
        Self::lemma_writable_node_id(m, version);
        Self::lemma_writable_host(m, version);
        Self::lemma_writable_port(m, version);
        Self::lemma_writable_coordinators(m, version);
        Self::lemma_writable_tags(m, version);
    }

    /// A version outside the range that the schema covers is refused, by
    /// reads and by writes alike, before anything is read or written.
    pub proof fn lemma_refused_version(m: FindCoordinatorResponseDataView, s: Seq<u8>, version: i16)
        requires
            version < 0 || version > 6,
        ensures
            Self::spec_read(s, version) == Err::<(FindCoordinatorResponseDataView, Seq<u8>), Error>(Error::UnsupportedVersion(UnsupportedVersion { api_key: 10, version })),
            Self::spec_write(m, version) == fail(Error::UnsupportedVersion(UnsupportedVersion { api_key: 10, version })),
    {
    }

    pub fn with_throttle_time_ms(self, value: i32) -> (r: Self)
        ensures
            r@ == (FindCoordinatorResponseDataView { throttle_time_ms: value, ..self@ }),
    {
        let mut r = self;
        r.throttle_time_ms = value;
        r
    }

    pub fn with_error_code(self, value: i16) -> (r: Self)
        ensures
            r@ == (FindCoordinatorResponseDataView { error_code: value, ..self@ }),
    {
        let mut r = self;
        r.error_code = value;
        r
    }

    pub fn with_error_message(self, value: Option<KafkaString>) -> (r: Self)
        ensures
            r@ == (FindCoordinatorResponseDataView { error_message: opt_view(value), ..self@ }),
    {
        let mut r = self;
        r.error_message = value;
        r
    }

    pub fn with_node_id(self, value: i32) -> (r: Self)
        ensures
            r@ == (FindCoordinatorResponseDataView { node_id: value, ..self@ }),
    {
        let mut r = self;
        r.node_id = value;
        r
    }

    pub fn with_host(self, value: KafkaString) -> (r: Self)
        ensures
            r@ == (FindCoordinatorResponseDataView { host: value@, ..self@ }),
    {
        let mut r = self;
        r.host = value;
        r
    }

    pub fn with_port(self, value: i32) -> (r: Self)
        ensures
            r@ == (FindCoordinatorResponseDataView { port: value, ..self@ }),
    {
        let mut r = self;
        r.port = value;
        r
    }

    pub fn with_coordinators(self, value: Vec<Coordinator>) -> (r: Self)
        ensures
            r@ == (FindCoordinatorResponseDataView { coordinators: views(value@), ..self@ }),
    {
        let mut r = self;
        r.coordinators = value;
        r
    }

    fn read_throttle_time_ms(buf: &mut Bytes, version: i16) -> (r: Result<i32, Error>)
        ensures
            read_as(Self::spec_read_throttle_time_ms(bytes_seq(*old(buf)), version), *final(buf), r),
            took_front(*old(buf), *final(buf)),
    {
        proof {
            reveal(FindCoordinatorResponseData::spec_read_throttle_time_ms);
        }
        Ok(if version >= 1 {
                read_i32(buf)?
            } else {
                0_i32
        })
    }

    fn read_error_code(buf: &mut Bytes, version: i16) -> (r: Result<i16, Error>)
        ensures
            read_as(Self::spec_read_error_code(bytes_seq(*old(buf)), version), *final(buf), r),
            took_front(*old(buf), *final(buf)),
    {
        proof {
            reveal(FindCoordinatorResponseData::spec_read_error_code);
        }
        Ok(if version <= 3 {
                read_i16(buf)?
            } else {
                0_i16
        })
    }

    fn read_error_message(buf: &mut Bytes, version: i16) -> (r: Result<Option<KafkaString>, Error>)
        ensures
            read_opt_as(Self::spec_read_error_message(bytes_seq(*old(buf)), version), *final(buf), r),
            took_front(*old(buf), *final(buf)),
    {
        proof {
            reveal(FindCoordinatorResponseData::spec_read_error_message);
        }
        Ok(if version >= 1 && version <= 3 {
                if version >= 3 {
                    read_compact_nullable_string(buf)?
                } else {
                    read_nullable_string(buf)?
                }
            } else {
                None
        })
    }

    fn read_node_id(buf: &mut Bytes, version: i16) -> (r: Result<i32, Error>)
        ensures
            read_as(Self::spec_read_node_id(bytes_seq(*old(buf)), version), *final(buf), r),
            took_front(*old(buf), *final(buf)),
    {
        proof {
            reveal(FindCoordinatorResponseData::spec_read_node_id);
        }
        Ok(if version <= 3 {
                read_i32(buf)?
            } else {
                0_i32
        })
    }

    fn read_host(buf: &mut Bytes, version: i16) -> (r: Result<KafkaString, Error>)
        ensures
            read_as(Self::spec_read_host(bytes_seq(*old(buf)), version), *final(buf), r),
            took_front(*old(buf), *final(buf)),
    {
        proof {
            reveal(FindCoordinatorResponseData::spec_read_host);
        }
        Ok(if version <= 3 {
                if version >= 3 {
                    read_compact_string(buf)?
                } else {
                    read_string(buf)?
                }
            } else {
                KafkaString::default()
        })
    }

    fn read_port(buf: &mut Bytes, version: i16) -> (r: Result<i32, Error>)
        ensures
            read_as(Self::spec_read_port(bytes_seq(*old(buf)), version), *final(buf), r),
            took_front(*old(buf), *final(buf)),
    {
        proof {
            reveal(FindCoordinatorResponseData::spec_read_port);
        }
        Ok(if version <= 3 {
                read_i32(buf)?
            } else {
                0_i32
        })
    }

    fn read_coordinators(buf: &mut Bytes, version: i16) -> (r: Result<Vec<Coordinator>, Error>)
        ensures
            read_vec_as(Self::spec_read_coordinators(bytes_seq(*old(buf)), version), *final(buf), r),
            took_front(*old(buf), *final(buf)),
    {
        proof {
            reveal(FindCoordinatorResponseData::spec_read_coordinators);
        }
        Ok(if version >= 4 {
                read_array::<Coordinator>(buf, version, true)?
            } else {
                empty_vec()
        })
    }

    fn read_tags(buf: &mut Bytes, version: i16) -> (r: Result<Vec<RawTaggedField>, Error>)
        ensures
            read_vec_as(Self::spec_read_tags(bytes_seq(*old(buf)), version), *final(buf), r),
            took_front(*old(buf), *final(buf)),
    {
        proof {
            reveal(FindCoordinatorResponseData::spec_read_tags);
        }
        Ok(if version >= 3 {
                read_tagged_fields(buf)?
            } else {
                empty_vec()
        })
    }

    #[verifier::rlimit(68)]
    #[verifier::spinoff_prover]
    pub fn read(buf: &mut Bytes, version: i16) -> (r: Result<Self, Error>)
        ensures
            read_as(Self::spec_read(bytes_seq(*old(buf)), version), *final(buf), r),
            took_front(*old(buf), *final(buf)),
            (version < 0 || version > 6) ==> bytes_seq(*final(buf)) == bytes_seq(*old(buf)),
    {
        if version < 0 || version > 6 {
            return Err(Error::UnsupportedVersion(UnsupportedVersion::new(10, version)));
        }
        let throttle_time_ms = Self::read_throttle_time_ms(buf, version)?;
        let error_code = Self::read_error_code(buf, version)?;
        let error_message = Self::read_error_message(buf, version)?;
        let node_id = Self::read_node_id(buf, version)?;
        let host = Self::read_host(buf, version)?;
        let port = Self::read_port(buf, version)?;
        let coordinators = Self::read_coordinators(buf, version)?;
        let _unknown_tagged_fields = Self::read_tags(buf, version)?;
        Ok(FindCoordinatorResponseData {
                throttle_time_ms: throttle_time_ms,
                error_code: error_code,
                error_message: error_message,
                node_id: node_id,
                host: host,
                port: port,
                coordinators: coordinators,
                _unknown_tagged_fields: _unknown_tagged_fields,
        })
    }

    #[verifier::rlimit(100)]
    #[verifier::spinoff_prover]
    pub fn write(&self, buf: &mut BytesMut, version: i16) -> (r: Result<(), Error>)
        requires
            has_room(Self::spec_write(self@, version), *old(buf)),
        ensures
            wrote(Self::spec_write(self@, version), *old(buf), *final(buf), r),
    {
        if version < 0 || version > 6 {
            return Err(Error::UnsupportedVersion(UnsupportedVersion::new(10, version)));
        }
        let ghost m = self@;
        proof {
            reveal(FindCoordinatorResponseData::spec_write_throttle_time_ms);
            reveal(FindCoordinatorResponseData::spec_write_error_code);
            reveal(FindCoordinatorResponseData::spec_write_error_message);
            reveal(FindCoordinatorResponseData::spec_write_node_id);
            reveal(FindCoordinatorResponseData::spec_write_host);
            reveal(FindCoordinatorResponseData::spec_write_port);
            reveal(FindCoordinatorResponseData::spec_write_coordinators);
            reveal(FindCoordinatorResponseData::spec_write_tags);
        }
        let ghost s0 = Self::spec_write_throttle_time_ms(m, version);
        let ghost w0 = s0;
        let ghost s1 = Self::spec_write_error_code(m, version);
        let ghost w1 = chain(w0, s1);
        let ghost s2 = Self::spec_write_error_message(m, version);
        let ghost w2 = chain(w1, s2);
        let ghost s3 = Self::spec_write_node_id(m, version);
        let ghost w3 = chain(w2, s3);
        let ghost s4 = Self::spec_write_host(m, version);
        let ghost w4 = chain(w3, s4);
        let ghost s5 = Self::spec_write_port(m, version);
        let ghost w5 = chain(w4, s5);
        let ghost s6 = Self::spec_write_coordinators(m, version);
        let ghost w6 = chain(w5, s6);
        let ghost s7 = Self::spec_write_tags(m, version);
        let ghost w7 = chain(w6, s7);
        assert(Self::spec_write(m, version) == w7);
        assert(written(w6).len() <= written(w7).len() && (w6 is Err ==> w7 == w6));
        assert(written(w5).len() <= written(w7).len() && (w5 is Err ==> w7 == w5));
        assert(written(w4).len() <= written(w7).len() && (w4 is Err ==> w7 == w4));
        assert(written(w3).len() <= written(w7).len() && (w3 is Err ==> w7 == w3));
        assert(written(w2).len() <= written(w7).len() && (w2 is Err ==> w7 == w2));
        assert(written(w1).len() <= written(w7).len() && (w1 is Err ==> w7 == w1));
        assert(written(w0).len() <= written(w7).len() && (w0 is Err ==> w7 == w0));
        let ghost mid = bytes_mut_seq(*buf);
        proof {
            lemma_append_empty(mid);
        }
        let r0 = if version >= 1 {
            {
                write_i32(buf, self.throttle_time_ms);
                Ok(())
            }
        } else {
            if self.throttle_time_ms != 0_i32 {
                Err(Error::UnsupportedFieldVersion(UnsupportedFieldVersion::new(10, "throttle_time_ms", version)))
            } else {
                Ok(())
            }
        };
        assert(bytes_mut_seq(*buf) == mid + written(s0));
        if r0.is_err() {
            return r0;
        }
        let ghost mid = bytes_mut_seq(*buf);
        proof {
            lemma_append_empty(mid);
        }
        let r1 = if version <= 3 {
            {
                write_i16(buf, self.error_code);
                Ok(())
            }
        } else {
            if self.error_code != 0_i16 {
                Err(Error::UnsupportedFieldVersion(UnsupportedFieldVersion::new(10, "error_code", version)))
            } else {
                Ok(())
            }
        };
        assert(bytes_mut_seq(*buf) == mid + written(s1));
        proof {
            lemma_step(bytes_mut_seq(*old(buf)), w0, s1);
        }
        if r1.is_err() {
            return r1;
        }
        let ghost mid = bytes_mut_seq(*buf);
        proof {
            lemma_append_empty(mid);
        }
        let r2 = if version >= 1 && version <= 3 {
            if version >= 3 {
                write_compact_nullable_string(buf, &self.error_message)
            } else {
                write_nullable_string(buf, &self.error_message)
            }
        } else {
            if self.error_message.is_some() {
                Err(Error::UnsupportedFieldVersion(UnsupportedFieldVersion::new(10, "error_message", version)))
            } else {
                Ok(())
            }
        };
        assert(bytes_mut_seq(*buf) == mid + written(s2));
        proof {
            lemma_step(bytes_mut_seq(*old(buf)), w1, s2);
        }
        if r2.is_err() {
            return r2;
        }
        let ghost mid = bytes_mut_seq(*buf);
        proof {
            lemma_append_empty(mid);
        }
        let r3 = if version <= 3 {
            {
                write_i32(buf, self.node_id);
                Ok(())
            }
        } else {
            if self.node_id != 0_i32 {
                Err(Error::UnsupportedFieldVersion(UnsupportedFieldVersion::new(10, "node_id", version)))
            } else {
                Ok(())
            }
        };
        assert(bytes_mut_seq(*buf) == mid + written(s3));
        proof {
            lemma_step(bytes_mut_seq(*old(buf)), w2, s3);
        }
        if r3.is_err() {
            return r3;
        }
        let ghost mid = bytes_mut_seq(*buf);
        proof {
            lemma_append_empty(mid);
        }
        let r4 = if version <= 3 {
            if version >= 3 {
                write_compact_string(buf, &self.host)
            } else {
                write_string(buf, &self.host)
            }
        } else {
            if !self.host.is_empty() {
                Err(Error::UnsupportedFieldVersion(UnsupportedFieldVersion::new(10, "host", version)))
            } else {
                Ok(())
            }
        };
        assert(bytes_mut_seq(*buf) == mid + written(s4));
        proof {
            lemma_step(bytes_mut_seq(*old(buf)), w3, s4);
        }
        if r4.is_err() {
            return r4;
        }
        let ghost mid = bytes_mut_seq(*buf);
        proof {
            lemma_append_empty(mid);
        }
        let r5 = if version <= 3 {
            {
                write_i32(buf, self.port);
                Ok(())
            }
        } else {
            if self.port != 0_i32 {
                Err(Error::UnsupportedFieldVersion(UnsupportedFieldVersion::new(10, "port", version)))
            } else {
                Ok(())
            }
        };
        assert(bytes_mut_seq(*buf) == mid + written(s5));
        proof {
            lemma_step(bytes_mut_seq(*old(buf)), w4, s5);
        }
        if r5.is_err() {
            return r5;
        }
        let ghost mid = bytes_mut_seq(*buf);
        proof {
            lemma_append_empty(mid);
        }
        let r6 = if version >= 4 {
            write_array::<Coordinator>(buf, &self.coordinators, version, true)
        } else {
            if self.coordinators.len() != 0 {
                Err(Error::UnsupportedFieldVersion(UnsupportedFieldVersion::new(10, "coordinators", version)))
            } else {
                Ok(())
            }
        };
        assert(bytes_mut_seq(*buf) == mid + written(s6));
        proof {
            lemma_step(bytes_mut_seq(*old(buf)), w5, s6);
        }
        if r6.is_err() {
            return r6;
        }
        let ghost mid = bytes_mut_seq(*buf);
        proof {
            lemma_append_empty(mid);
        }
        let r7 = if version >= 3 {
            write_tagged_fields(buf, &sort_by_tag(&self._unknown_tagged_fields))
        } else {
            Ok(())
        };
        assert(bytes_mut_seq(*buf) == mid + written(s7));
        proof {
            lemma_step(bytes_mut_seq(*old(buf)), w6, s7);
        }
        if r7.is_err() {
            return r7;
        }
        Ok(())
    }

    #[verifier::rlimit(100)]
    #[verifier::spinoff_prover]
    pub fn encoded_len(&self, version: i16) -> (r: Result<usize, Error>)
        ensures
            r == len_result(Self::spec_write(self@, version)),
    {
        if version < 0 || version > 6 {
            return Err(Error::UnsupportedVersion(UnsupportedVersion::new(10, version)));
        }
        let ghost m = self@;
        proof {
            reveal(FindCoordinatorResponseData::spec_write_throttle_time_ms);
            reveal(FindCoordinatorResponseData::spec_write_error_code);
            reveal(FindCoordinatorResponseData::spec_write_error_message);
            reveal(FindCoordinatorResponseData::spec_write_node_id);
            reveal(FindCoordinatorResponseData::spec_write_host);
            reveal(FindCoordinatorResponseData::spec_write_port);
            reveal(FindCoordinatorResponseData::spec_write_coordinators);
            reveal(FindCoordinatorResponseData::spec_write_tags);
        }
        let ghost s0 = Self::spec_write_throttle_time_ms(m, version);
        let ghost w0 = s0;
        let ghost s1 = Self::spec_write_error_code(m, version);
        let ghost w1 = chain(w0, s1);
        let ghost s2 = Self::spec_write_error_message(m, version);
        let ghost w2 = chain(w1, s2);
        let ghost s3 = Self::spec_write_node_id(m, version);
        let ghost w3 = chain(w2, s3);
        let ghost s4 = Self::spec_write_host(m, version);
        let ghost w4 = chain(w3, s4);
        let ghost s5 = Self::spec_write_port(m, version);
        let ghost w5 = chain(w4, s5);
        let ghost s6 = Self::spec_write_coordinators(m, version);
        let ghost w6 = chain(w5, s6);
        let ghost s7 = Self::spec_write_tags(m, version);
        let ghost w7 = chain(w6, s7);
        assert(Self::spec_write(m, version) == w7);
        assert(w6 is Err ==> w7 == w6);
        assert(w5 is Err ==> w7 == w5);
        assert(w4 is Err ==> w7 == w4);
        assert(w3 is Err ==> w7 == w3);
        assert(w2 is Err ==> w7 == w2);
        assert(w1 is Err ==> w7 == w1);
        assert(w0 is Err ==> w7 == w0);
        let mut len: usize = 0;
        let l0 = if version >= 1 {
            Ok(4)
        } else {
            if self.throttle_time_ms != 0_i32 {
                Err(Error::UnsupportedFieldVersion(UnsupportedFieldVersion::new(10, "throttle_time_ms", version)))
            } else {
                Ok(0)
            }
        };
        assert(l0 == len_result(s0));
        let n0 = match l0 {
            Ok(n) => n,
            Err(e) => {
                return Err(e);
            },
        };
        len = saturating_sum(len, n0);
        assert(w0 is Ok && len == saturate(written(w0).len() as int));
        let l1 = if version <= 3 {
            Ok(2)
        } else {
            if self.error_code != 0_i16 {
                Err(Error::UnsupportedFieldVersion(UnsupportedFieldVersion::new(10, "error_code", version)))
            } else {
                Ok(0)
            }
        };
        assert(l1 == len_result(s1));
        let n1 = match l1 {
            Ok(n) => n,
            Err(e) => {
                return Err(e);
            },
        };
        proof {
            lemma_len_step(w0, s1, n1);
        }
        len = saturating_sum(len, n1);
        assert(w1 is Ok && len == saturate(written(w1).len() as int));
        let l2 = if version >= 1 && version <= 3 {
            if version >= 3 {
                compact_nullable_string_len(&self.error_message)
            } else {
                nullable_string_len(&self.error_message)
            }
        } else {
            if self.error_message.is_some() {
                Err(Error::UnsupportedFieldVersion(UnsupportedFieldVersion::new(10, "error_message", version)))
            } else {
                Ok(0)
            }
        };
        assert(l2 == len_result(s2));
        let n2 = match l2 {
            Ok(n) => n,
            Err(e) => {
                return Err(e);
            },
        };
        proof {
            lemma_len_step(w1, s2, n2);
        }
        len = saturating_sum(len, n2);
        assert(w2 is Ok && len == saturate(written(w2).len() as int));
        let l3 = if version <= 3 {
            Ok(4)
        } else {
            if self.node_id != 0_i32 {
                Err(Error::UnsupportedFieldVersion(UnsupportedFieldVersion::new(10, "node_id", version)))
            } else {
                Ok(0)
            }
        };
        assert(l3 == len_result(s3));
        let n3 = match l3 {
            Ok(n) => n,
            Err(e) => {
                return Err(e);
            },
        };
        proof {
            lemma_len_step(w2, s3, n3);
        }
        len = saturating_sum(len, n3);
        assert(w3 is Ok && len == saturate(written(w3).len() as int));
        let l4 = if version <= 3 {
            if version >= 3 {
                compact_string_len(&self.host)
            } else {
                string_len(&self.host)
            }
        } else {
            if !self.host.is_empty() {
                Err(Error::UnsupportedFieldVersion(UnsupportedFieldVersion::new(10, "host", version)))
            } else {
                Ok(0)
            }
        };
        assert(l4 == len_result(s4));
        let n4 = match l4 {
            Ok(n) => n,
            Err(e) => {
                return Err(e);
            },
        };
        proof {
            lemma_len_step(w3, s4, n4);
        }
        len = saturating_sum(len, n4);
        assert(w4 is Ok && len == saturate(written(w4).len() as int));
        let l5 = if version <= 3 {
            Ok(4)
        } else {
            if self.port != 0_i32 {
                Err(Error::UnsupportedFieldVersion(UnsupportedFieldVersion::new(10, "port", version)))
            } else {
                Ok(0)
            }
        };
        assert(l5 == len_result(s5));
        let n5 = match l5 {
            Ok(n) => n,
            Err(e) => {
                return Err(e);
            },
        };
        proof {
            lemma_len_step(w4, s5, n5);
        }
        len = saturating_sum(len, n5);
        assert(w5 is Ok && len == saturate(written(w5).len() as int));
        let l6 = if version >= 4 {
            array_len::<Coordinator>(&self.coordinators, version, true)
        } else {
            if self.coordinators.len() != 0 {
                Err(Error::UnsupportedFieldVersion(UnsupportedFieldVersion::new(10, "coordinators", version)))
            } else {
                Ok(0)
            }
        };
        assert(l6 == len_result(s6));
        let n6 = match l6 {
            Ok(n) => n,
            Err(e) => {
                return Err(e);
            },
        };
        proof {
            lemma_len_step(w5, s6, n6);
        }
        len = saturating_sum(len, n6);
        assert(w6 is Ok && len == saturate(written(w6).len() as int));
        let l7 = if version >= 3 {
            tagged_fields_len(&sort_by_tag(&self._unknown_tagged_fields))
        } else {
            Ok(0)
        };
        assert(l7 == len_result(s7));
        let n7 = match l7 {
            Ok(n) => n,
            Err(e) => {
                return Err(e);
            },
        };
        proof {
            lemma_len_step(w6, s7, n7);
        }
        len = saturating_sum(len, n7);
        assert(w7 is Ok && len == saturate(written(w7).len() as int));
        Ok(len)
    }
}

#[derive(Debug, PartialEq)]
pub struct Coordinator {
    /// The coordinator key.
    pub key: KafkaString,
    /// The node id.
    pub node_id: i32,
    /// The host name.
    pub host: KafkaString,
    /// The port.
    pub port: i32,
    /// The error code, or 0 if there was no error.
    pub error_code: i16,
    /// The error message, or null if there was no error.
    pub error_message: Option<KafkaString>,
    pub _unknown_tagged_fields: Vec<RawTaggedField>,
}

/// What a `Coordinator` holds, as the specification sees it.
#[verifier::ext_equal]
pub struct CoordinatorView {
    pub key: Seq<u8>,
    pub node_id: i32,
    pub host: Seq<u8>,
    pub port: i32,
    pub error_code: i16,
    pub error_message: Option<Seq<u8>>,
    pub unknown_tagged_fields: Seq<(u32, Seq<u8>)>,
}

impl View for Coordinator {
    type V = CoordinatorView;

    open spec fn view(&self) -> CoordinatorView {
        CoordinatorView {
            key: self.key@,
            node_id: self.node_id,
            host: self.host@,
            port: self.port,
            error_code: self.error_code,
            error_message: opt_view(self.error_message),
            unknown_tagged_fields: views(self._unknown_tagged_fields@),
        }
    }
}

impl Clone for Coordinator {
    fn clone(&self) -> (r: Self)
        ensures
            r@ == self@,
    {
        let r = Coordinator {
            key: self.key.clone(),
            node_id: self.node_id,
            host: self.host.clone(),
            port: self.port,
            error_code: self.error_code,
            error_message: match &self.error_message {
                Some(x) => Some(x.clone()),
                None => None,
            },
            _unknown_tagged_fields: clone_vec(&self._unknown_tagged_fields),
        };
        assert(r@ =~= self@);
        r
    }
}

impl ViewClone for Coordinator {
    fn clone_view(&self) -> (r: Self) {
        self.clone()
    }
}

impl Default for Coordinator {
    fn default() -> (r: Self)
        ensures
            r@ == Self::default_view(),
    {
        let r = Coordinator {
            key: KafkaString::default(),
            node_id: 0_i32,
            host: KafkaString::default(),
            port: 0_i32,
            error_code: 0_i16,
            error_message: None,
            _unknown_tagged_fields: empty_vec(),
        };
        assert(r@ =~= Self::default_view());
        r
    }
}

impl Coordinator {
    pub open spec fn default_view() -> CoordinatorView {
        CoordinatorView {
            key: Seq::empty(),
            node_id: 0_i32,
            host: Seq::empty(),
            port: 0_i32,
            error_code: 0_i16,
            error_message: None,
            unknown_tagged_fields: Seq::empty(),
        }
    }

    /// The `key` field, read from the front of `s`.
    #[verifier::opaque]
    pub open spec fn spec_read_key(s: Seq<u8>, version: i16) -> ReadOutcome<Seq<u8>> {
        spec_read_compact_string(s)
    }

    /// The `node_id` field, read from the front of `s`.
    #[verifier::opaque]
    pub open spec fn spec_read_node_id(s: Seq<u8>, version: i16) -> ReadOutcome<i32> {
        spec_read_i32(s)
    }

    /// The `host` field, read from the front of `s`.
    #[verifier::opaque]
    pub open spec fn spec_read_host(s: Seq<u8>, version: i16) -> ReadOutcome<Seq<u8>> {
        spec_read_compact_string(s)
    }

    /// The `port` field, read from the front of `s`.
    #[verifier::opaque]
    pub open spec fn spec_read_port(s: Seq<u8>, version: i16) -> ReadOutcome<i32> {
        spec_read_i32(s)
    }

    /// The `error_code` field, read from the front of `s`.
    #[verifier::opaque]
    pub open spec fn spec_read_error_code(s: Seq<u8>, version: i16) -> ReadOutcome<i16> {
        spec_read_i16(s)
    }

    /// The `error_message` field, read from the front of `s`.
    #[verifier::opaque]
    pub open spec fn spec_read_error_message(s: Seq<u8>, version: i16) -> ReadOutcome<Option<Seq<u8>>> {
        spec_read_compact_nullable_string(s)
    }

    /// The tagged fields, read from the front of `s`.
    #[verifier::opaque]
    pub open spec fn spec_read_tags(s: Seq<u8>, version: i16) -> ReadOutcome<Seq<(u32, Seq<u8>)>> {
        spec_read_tagged_fields(s)
    }

    pub open spec fn spec_read(s: Seq<u8>, version: i16) -> ReadOutcome<CoordinatorView> {
        match (Self::spec_read_key(s, version)) {
            Err(e) => Err(e),
            Ok((key, s)) => match (Self::spec_read_node_id(s, version)) {
                Err(e) => Err(e),
                Ok((node_id, s)) => match (Self::spec_read_host(s, version)) {
                    Err(e) => Err(e),
                    Ok((host, s)) => match (Self::spec_read_port(s, version)) {
                        Err(e) => Err(e),
                        Ok((port, s)) => match (Self::spec_read_error_code(s, version)) {
                            Err(e) => Err(e),
                            Ok((error_code, s)) => match (Self::spec_read_error_message(s, version)) {
                                Err(e) => Err(e),
                                Ok((error_message, s)) => match (Self::spec_read_tags(s, version)) {
                                    Err(e) => Err(e),
                                    Ok((unknown_tagged_fields, s)) => Ok((CoordinatorView {
                                                key: key,
                                                node_id: node_id,
                                                host: host,
                                                port: port,
                                                error_code: error_code,
                                                error_message: error_message,
                                                unknown_tagged_fields: unknown_tagged_fields,
                                            }, s)),
                                },
                            },
                        },
                    },
                },
            },
        }
    }

    /// What writing the `key` field of `m` appends.
    #[verifier::opaque]
    pub open spec fn spec_write_key(m: CoordinatorView, version: i16) -> WriteOutcome {
        spec_write_compact_string(m.key)
    }

    /// What writing the `node_id` field of `m` appends.
    #[verifier::opaque]
    pub open spec fn spec_write_node_id(m: CoordinatorView, version: i16) -> WriteOutcome {
        spec_write_i32(m.node_id)
    }

    /// What writing the `host` field of `m` appends.
    #[verifier::opaque]
    pub open spec fn spec_write_host(m: CoordinatorView, version: i16) -> WriteOutcome {
        spec_write_compact_string(m.host)
    }

    /// What writing the `port` field of `m` appends.
    #[verifier::opaque]
    pub open spec fn spec_write_port(m: CoordinatorView, version: i16) -> WriteOutcome {
        spec_write_i32(m.port)
    }

    /// What writing the `error_code` field of `m` appends.
    #[verifier::opaque]
    pub open spec fn spec_write_error_code(m: CoordinatorView, version: i16) -> WriteOutcome {
        spec_write_i16(m.error_code)
    }

    /// What writing the `error_message` field of `m` appends.
    #[verifier::opaque]
    pub open spec fn spec_write_error_message(m: CoordinatorView, version: i16) -> WriteOutcome {
        spec_write_compact_nullable_string(m.error_message)
    }

    /// What writing the tagged fields of `m` appends.
    #[verifier::opaque]
    pub open spec fn spec_write_tags(m: CoordinatorView, version: i16) -> WriteOutcome {
        spec_write_tagged_fields(sorted_by_tag(m.unknown_tagged_fields))
    }

    pub open spec fn spec_write(m: CoordinatorView, version: i16) -> WriteOutcome {
        chain(
            chain(
                chain(
                    chain(
                        chain(
                            chain(
                                Self::spec_write_key(m, version),
                                Self::spec_write_node_id(m, version),
                            ),
                            Self::spec_write_host(m, version),
                        ),
                        Self::spec_write_port(m, version),
                    ),
                    Self::spec_write_error_code(m, version),
                ),
                Self::spec_write_error_message(m, version),
            ),
            Self::spec_write_tags(m, version),
        )
    }

    /// Whether reading back what writing `m` in `version` appends gives `m`:
    /// fields that the version does not carry hold their default values, and
    /// tagged fields come in the order in which they are written.
    pub open spec fn canonical(m: CoordinatorView, version: i16) -> bool {
        &&& tags_in_order(m.unknown_tagged_fields)
    }

    proof fn lemma_round_trip_key(m: CoordinatorView, version: i16, rest: Seq<u8>)
        requires
            Self::canonical(m, version),
            Self::spec_write_key(m, version) is Ok,
        ensures
            Self::spec_read_key(written(Self::spec_write_key(m, version)) + rest, version) == Ok::<(Seq<u8>, Seq<u8>), Error>((m.key, rest)),
    {
        reveal(Coordinator::spec_read_key);
        reveal(Coordinator::spec_write_key);
        lemma_compact_string_round_trip(m.key, rest);
    }

    proof fn lemma_round_trip_node_id(m: CoordinatorView, version: i16, rest: Seq<u8>)
        requires
            Self::canonical(m, version),
            Self::spec_write_node_id(m, version) is Ok,
        ensures
            Self::spec_read_node_id(written(Self::spec_write_node_id(m, version)) + rest, version) == Ok::<(i32, Seq<u8>), Error>((m.node_id, rest)),
    {
        reveal(Coordinator::spec_read_node_id);
        reveal(Coordinator::spec_write_node_id);
        lemma_i32_roundtrip(m.node_id, rest);
    }

    proof fn lemma_round_trip_host(m: CoordinatorView, version: i16, rest: Seq<u8>)
        requires
            Self::canonical(m, version),
            Self::spec_write_host(m, version) is Ok,
        ensures
            Self::spec_read_host(written(Self::spec_write_host(m, version)) + rest, version) == Ok::<(Seq<u8>, Seq<u8>), Error>((m.host, rest)),
    {
        reveal(Coordinator::spec_read_host);
        reveal(Coordinator::spec_write_host);
        lemma_compact_string_round_trip(m.host, rest);
    }

    proof fn lemma_round_trip_port(m: CoordinatorView, version: i16, rest: Seq<u8>)
        requires
            Self::canonical(m, version),
            Self::spec_write_port(m, version) is Ok,
        ensures
            Self::spec_read_port(written(Self::spec_write_port(m, version)) + rest, version) == Ok::<(i32, Seq<u8>), Error>((m.port, rest)),
    {
        reveal(Coordinator::spec_read_port);
        reveal(Coordinator::spec_write_port);
        lemma_i32_roundtrip(m.port, rest);
    }

    proof fn lemma_round_trip_error_code(m: CoordinatorView, version: i16, rest: Seq<u8>)
        requires
            Self::canonical(m, version),
            Self::spec_write_error_code(m, version) is Ok,
        ensures
            Self::spec_read_error_code(written(Self::spec_write_error_code(m, version)) + rest, version) == Ok::<(i16, Seq<u8>), Error>((m.error_code, rest)),
    {
        reveal(Coordinator::spec_read_error_code);
        reveal(Coordinator::spec_write_error_code);
        lemma_i16_roundtrip(m.error_code, rest);
    }

    proof fn lemma_round_trip_error_message(m: CoordinatorView, version: i16, rest: Seq<u8>)
        requires
            Self::canonical(m, version),
            Self::spec_write_error_message(m, version) is Ok,
        ensures
            Self::spec_read_error_message(written(Self::spec_write_error_message(m, version)) + rest, version) == Ok::<(Option<Seq<u8>>, Seq<u8>), Error>((m.error_message, rest)),
    {
        reveal(Coordinator::spec_read_error_message);
        reveal(Coordinator::spec_write_error_message);
        lemma_compact_nullable_string_round_trip(m.error_message, rest);
    }

    proof fn lemma_round_trip_tags(m: CoordinatorView, version: i16, rest: Seq<u8>)
        requires
            Self::canonical(m, version),
            Self::spec_write_tags(m, version) is Ok,
        ensures
            Self::spec_read_tags(written(Self::spec_write_tags(m, version)) + rest, version) == Ok::<(Seq<(u32, Seq<u8>)>, Seq<u8>), Error>((m.unknown_tagged_fields, rest)),
    {
        reveal(Coordinator::spec_read_tags);
        reveal(Coordinator::spec_write_tags);
        lemma_sorted_by_tag_in_order(m.unknown_tagged_fields);
        lemma_tagged_fields_round_trip(m.unknown_tagged_fields, rest);
    }

    /// Reading back what writing `m` in `version` appends gives `m` again, and
    /// leaves what follows, for every canonical message whose write succeeds.
    #[verifier::rlimit(100)]
    #[verifier::spinoff_prover]
    pub proof fn lemma_round_trip(m: CoordinatorView, version: i16, rest: Seq<u8>)
        requires
            Self::canonical(m, version),
            Self::spec_write(m, version) is Ok,
        ensures
            Self::spec_read(written(Self::spec_write(m, version)) + rest, version) == Ok::<(CoordinatorView, Seq<u8>), Error>((m, rest)),
    {
        let b0 = written(Self::spec_write_key(m, version));
        let b1 = written(Self::spec_write_node_id(m, version));
        let b2 = written(Self::spec_write_host(m, version));
        let b3 = written(Self::spec_write_port(m, version));
        let b4 = written(Self::spec_write_error_code(m, version));
        let b5 = written(Self::spec_write_error_message(m, version));
        let b6 = written(Self::spec_write_tags(m, version));
        let t7 = rest;
        let t6 = b6 + t7;
        let t5 = b5 + t6;
        let t4 = b4 + t5;
        let t3 = b3 + t4;
        let t2 = b2 + t3;
        let t1 = b1 + t2;
        let t0 = b0 + t1;
        let w0 = Self::spec_write_key(m, version);
        let w1 = chain(w0, Self::spec_write_node_id(m, version));
        let w2 = chain(w1, Self::spec_write_host(m, version));
        let w3 = chain(w2, Self::spec_write_port(m, version));
        let w4 = chain(w3, Self::spec_write_error_code(m, version));
        let w5 = chain(w4, Self::spec_write_error_message(m, version));
        let w6 = chain(w5, Self::spec_write_tags(m, version));
        assert(Self::spec_write(m, version) == w6);
        assert(written(w6) + t7 =~= written(w5) + t6);
        assert(written(w5) + t6 =~= written(w4) + t5);
        assert(written(w4) + t5 =~= written(w3) + t4);
        assert(written(w3) + t4 =~= written(w2) + t3);
        assert(written(w2) + t3 =~= written(w1) + t2);
        assert(written(w1) + t2 =~= written(w0) + t1);
        Self::lemma_round_trip_key(m, version, t1);
        Self::lemma_round_trip_node_id(m, version, t2);
        Self::lemma_round_trip_host(m, version, t3);
        Self::lemma_round_trip_port(m, version, t4);
        Self::lemma_round_trip_error_code(m, version, t5);
        Self::lemma_round_trip_error_message(m, version, t6);
        Self::lemma_round_trip_tags(m, version, t7);
    }

    /// The default message holds the default value of each field of the schema.
    pub proof fn lemma_default_values()
        ensures
            Self::default_view().key.len() == 0,
            Self::default_view().node_id == (0_i32),
            Self::default_view().host.len() == 0,
            Self::default_view().port == (0_i32),
            Self::default_view().error_code == (0_i16),
            (Self::default_view().error_message is None),
            Self::default_view().unknown_tagged_fields.len() == 0,
    {
    }

    /// Each integer, boolean and identifier field is written as its standard
    /// big-endian bytes (a boolean as `1` or `0`) in the versions that carry
    /// it, and as nothing in the others; reading it takes those bytes back (any
    /// byte other than `0` reads as `true`), or gives its default value.
    pub proof fn lemma_field_encodings(m: CoordinatorView, s: Seq<u8>, version: i16)
        ensures
            true ==> Self::spec_write_node_id(m, version) == Ok::<Seq<u8>, (Error, Seq<u8>)>(u32_bytes(m.node_id as u32)),
            true ==> Self::spec_write_port(m, version) == Ok::<Seq<u8>, (Error, Seq<u8>)>(u32_bytes(m.port as u32)),
            true ==> Self::spec_write_error_code(m, version) == Ok::<Seq<u8>, (Error, Seq<u8>)>(u16_bytes(m.error_code as u16)),
            true ==> Self::spec_read_node_id(s, version) == spec_read_i32(s),
            true ==> Self::spec_read_port(s, version) == spec_read_i32(s),
            true ==> Self::spec_read_error_code(s, version) == spec_read_i16(s),
    {
        reveal(Coordinator::spec_write_node_id);
        reveal(Coordinator::spec_read_node_id);
        reveal(Coordinator::spec_write_port);
        reveal(Coordinator::spec_read_port);
        reveal(Coordinator::spec_write_error_code);
        reveal(Coordinator::spec_read_error_code);
    }

    /// Whether writing `m` in `version` succeeds, said over its parts: the
    /// version is one the schema covers, every field that the version cannot
    /// carry holds its default value, and every string, byte string, array and
    /// tagged field fits its length prefix.
    pub open spec fn writable(m: CoordinatorView, version: i16) -> bool {
        &&& m.key.len() <= 0x7fff
        &&& m.host.len() <= 0x7fff
        &&& (m.error_message matches Some(b) ==> b.len() <= 0x7fff)
        &&& m.unknown_tagged_fields.len() <= u32::MAX && tags_fit(m.unknown_tagged_fields)
    }

    proof fn lemma_writable_key(m: CoordinatorView, version: i16)
        ensures
            Self::spec_write_key(m, version) is Ok <==> m.key.len() <= 0x7fff,
    {
        reveal(Coordinator::spec_write_key);
    }

    proof fn lemma_writable_node_id(m: CoordinatorView, version: i16)
        ensures
            Self::spec_write_node_id(m, version) is Ok <==> true,
    {
        reveal(Coordinator::spec_write_node_id);
    }

    proof fn lemma_writable_host(m: CoordinatorView, version: i16)
        ensures
            Self::spec_write_host(m, version) is Ok <==> m.host.len() <= 0x7fff,
    {
        reveal(Coordinator::spec_write_host);
    }

    proof fn lemma_writable_port(m: CoordinatorView, version: i16)
        ensures
            Self::spec_write_port(m, version) is Ok <==> true,
    {
        reveal(Coordinator::spec_write_port);
    }

    proof fn lemma_writable_error_code(m: CoordinatorView, version: i16)
        ensures
            Self::spec_write_error_code(m, version) is Ok <==> true,
    {
        reveal(Coordinator::spec_write_error_code);
    }

    proof fn lemma_writable_error_message(m: CoordinatorView, version: i16)
        ensures
            Self::spec_write_error_message(m, version) is Ok <==> (m.error_message matches Some(b) ==> b.len() <= 0x7fff),
    {
        reveal(Coordinator::spec_write_error_message);
    }

    proof fn lemma_writable_tags(m: CoordinatorView, version: i16)
        ensures
            Self::spec_write_tags(m, version) is Ok <==> m.unknown_tagged_fields.len() <= u32::MAX && tags_fit(m.unknown_tagged_fields),
    {
        reveal(Coordinator::spec_write_tags);
        lemma_sorted_tags_fit(m.unknown_tagged_fields);
        lemma_tagged_fields_writable(sorted_by_tag(m.unknown_tagged_fields));
    }

    /// Writing `m` in `version` succeeds exactly when `m` is writable in it;
    /// so do `write` and `encoded_len`, whose results follow `spec_write`.
    #[verifier::rlimit(72)]
    pub proof fn lemma_writable(m: CoordinatorView, version: i16)
        ensures
            Self::spec_write(m, version) is Ok <==> Self::writable(m, version),
    {
        Self::lemma_writable_key(m, version);
        Self::lemma_writable_node_id(m, version);
        Self::lemma_writable_host(m, version);
        Self::lemma_writable_port(m, version);
        Self::lemma_writable_error_code(m, version);
        Self::lemma_writable_error_message(m, version);
        Self::lemma_writable_tags(m, version);
    }

    pub fn with_key(self, value: KafkaString) -> (r: Self)
        ensures
            r@ == (CoordinatorView { key: value@, ..self@ }),
    {
        let mut r = self;
        r.key = value;
        r
    }

    pub fn with_node_id(self, value: i32) -> (r: Self)
        ensures
            r@ == (CoordinatorView { node_id: value, ..self@ }),
    {
        let mut r = self;
        r.node_id = value;
        r
    }

    pub fn with_host(self, value: KafkaString) -> (r: Self)
        ensures
            r@ == (CoordinatorView { host: value@, ..self@ }),
    {
        let mut r = self;
        r.host = value;
        r
    }

    pub fn with_port(self, value: i32) -> (r: Self)
        ensures
            r@ == (CoordinatorView { port: value, ..self@ }),
    {
        let mut r = self;
        r.port = value;
        r
    }

    pub fn with_error_code(self, value: i16) -> (r: Self)
        ensures
            r@ == (CoordinatorView { error_code: value, ..self@ }),
    {
        let mut r = self;
        r.error_code = value;
        r
    }

    pub fn with_error_message(self, value: Option<KafkaString>) -> (r: Self)
        ensures
            r@ == (CoordinatorView { error_message: opt_view(value), ..self@ }),
    {
        let mut r = self;
        r.error_message = value;
        r
    }

    fn read_key(buf: &mut Bytes, version: i16) -> (r: Result<KafkaString, Error>)
        ensures
            read_as(Self::spec_read_key(bytes_seq(*old(buf)), version), *final(buf), r),
            took_front(*old(buf), *final(buf)),
    {
        proof {
            reveal(Coordinator::spec_read_key);
        }
        Ok(read_compact_string(buf)?)
    }

    fn read_node_id(buf: &mut Bytes, version: i16) -> (r: Result<i32, Error>)
        ensures
            read_as(Self::spec_read_node_id(bytes_seq(*old(buf)), version), *final(buf), r),
            took_front(*old(buf), *final(buf)),
    {
        proof {
            reveal(Coordinator::spec_read_node_id);
        }
        Ok(read_i32(buf)?)
    }

    fn read_host(buf: &mut Bytes, version: i16) -> (r: Result<KafkaString, Error>)
        ensures
            read_as(Self::spec_read_host(bytes_seq(*old(buf)), version), *final(buf), r),
            took_front(*old(buf), *final(buf)),
    {
        proof {
            reveal(Coordinator::spec_read_host);
        }
        Ok(read_compact_string(buf)?)
    }

    fn read_port(buf: &mut Bytes, version: i16) -> (r: Result<i32, Error>)
        ensures
            read_as(Self::spec_read_port(bytes_seq(*old(buf)), version), *final(buf), r),
            took_front(*old(buf), *final(buf)),
    {
        proof {
            reveal(Coordinator::spec_read_port);
        }
        Ok(read_i32(buf)?)
    }

    fn read_error_code(buf: &mut Bytes, version: i16) -> (r: Result<i16, Error>)
        ensures
            read_as(Self::spec_read_error_code(bytes_seq(*old(buf)), version), *final(buf), r),
            took_front(*old(buf), *final(buf)),
    {
        proof {
            reveal(Coordinator::spec_read_error_code);
        }
        Ok(read_i16(buf)?)
    }

    fn read_error_message(buf: &mut Bytes, version: i16) -> (r: Result<Option<KafkaString>, Error>)
        ensures
            read_opt_as(Self::spec_read_error_message(bytes_seq(*old(buf)), version), *final(buf), r),
            took_front(*old(buf), *final(buf)),
    {
        proof {
            reveal(Coordinator::spec_read_error_message);
        }
        Ok(read_compact_nullable_string(buf)?)
    }

    fn read_tags(buf: &mut Bytes, version: i16) -> (r: Result<Vec<RawTaggedField>, Error>)
        ensures
            read_vec_as(Self::spec_read_tags(bytes_seq(*old(buf)), version), *final(buf), r),
            took_front(*old(buf), *final(buf)),
    {
        proof {
            reveal(Coordinator::spec_read_tags);
        }
        Ok(read_tagged_fields(buf)?)
    }

    #[verifier::rlimit(62)]
    #[verifier::spinoff_prover]
    pub fn read(buf: &mut Bytes, version: i16) -> (r: Result<Self, Error>)
        ensures
            read_as(Self::spec_read(bytes_seq(*old(buf)), version), *final(buf), r),
            took_front(*old(buf), *final(buf)),
    {
        let key = Self::read_key(buf, version)?;
        let node_id = Self::read_node_id(buf, version)?;
        let host = Self::read_host(buf, version)?;
        let port = Self::read_port(buf, version)?;
        let error_code = Self::read_error_code(buf, version)?;
        let error_message = Self::read_error_message(buf, version)?;
        let _unknown_tagged_fields = Self::read_tags(buf, version)?;
        Ok(Coordinator {
                key: key,
                node_id: node_id,
                host: host,
                port: port,
                error_code: error_code,
                error_message: error_message,
                _unknown_tagged_fields: _unknown_tagged_fields,
        })
    }

    #[verifier::rlimit(100)]
    #[verifier::spinoff_prover]
    pub fn write(&self, buf: &mut BytesMut, version: i16) -> (r: Result<(), Error>)
        requires
            has_room(Self::spec_write(self@, version), *old(buf)),
        ensures
            wrote(Self::spec_write(self@, version), *old(buf), *final(buf), r),
    {
        let ghost m = self@;
        proof {
            reveal(Coordinator::spec_write_key);
            reveal(Coordinator::spec_write_node_id);
            reveal(Coordinator::spec_write_host);
            reveal(Coordinator::spec_write_port);
            reveal(Coordinator::spec_write_error_code);
            reveal(Coordinator::spec_write_error_message);
            reveal(Coordinator::spec_write_tags);
        }
        let ghost s0 = Self::spec_write_key(m, version);
        let ghost w0 = s0;
        let ghost s1 = Self::spec_write_node_id(m, version);
        let ghost w1 = chain(w0, s1);
        let ghost s2 = Self::spec_write_host(m, version);
        let ghost w2 = chain(w1, s2);
        let ghost s3 = Self::spec_write_port(m, version);
        let ghost w3 = chain(w2, s3);
        let ghost s4 = Self::spec_write_error_code(m, version);
        let ghost w4 = chain(w3, s4);
        let ghost s5 = Self::spec_write_error_message(m, version);
        let ghost w5 = chain(w4, s5);
        let ghost s6 = Self::spec_write_tags(m, version);
        let ghost w6 = chain(w5, s6);
        assert(Self::spec_write(m, version) == w6);
        assert(written(w5).len() <= written(w6).len() && (w5 is Err ==> w6 == w5));
        assert(written(w4).len() <= written(w6).len() && (w4 is Err ==> w6 == w4));
        assert(written(w3).len() <= written(w6).len() && (w3 is Err ==> w6 == w3));
        assert(written(w2).len() <= written(w6).len() && (w2 is Err ==> w6 == w2));
        assert(written(w1).len() <= written(w6).len() && (w1 is Err ==> w6 == w1));
        assert(written(w0).len() <= written(w6).len() && (w0 is Err ==> w6 == w0));
        let ghost mid = bytes_mut_seq(*buf);
        proof {
            lemma_append_empty(mid);
        }
        let r0 = write_compact_string(buf, &self.key);
        assert(bytes_mut_seq(*buf) == mid + written(s0));
        if r0.is_err() {
            return r0;
        }
        let ghost mid = bytes_mut_seq(*buf);
        proof {
            lemma_append_empty(mid);
        }
        let r1 = {
            write_i32(buf, self.node_id);
            Ok(())
        };
        assert(bytes_mut_seq(*buf) == mid + written(s1));
        proof {
            lemma_step(bytes_mut_seq(*old(buf)), w0, s1);
        }
        if r1.is_err() {
            return r1;
        }
        let ghost mid = bytes_mut_seq(*buf);
        proof {
            lemma_append_empty(mid);
        }
        let r2 = write_compact_string(buf, &self.host);
        assert(bytes_mut_seq(*buf) == mid + written(s2));
        proof {
            lemma_step(bytes_mut_seq(*old(buf)), w1, s2);
        }
        if r2.is_err() {
            return r2;
        }
        let ghost mid = bytes_mut_seq(*buf);
        proof {
            lemma_append_empty(mid);
        }
        let r3 = {
            write_i32(buf, self.port);
            Ok(())
        };
        assert(bytes_mut_seq(*buf) == mid + written(s3));
        proof {
            lemma_step(bytes_mut_seq(*old(buf)), w2, s3);
        }
        if r3.is_err() {
            return r3;
        }
        let ghost mid = bytes_mut_seq(*buf);
        proof {
            lemma_append_empty(mid);
        }
        let r4 = {
            write_i16(buf, self.error_code);
            Ok(())
        };
        assert(bytes_mut_seq(*buf) == mid + written(s4));
        proof {
            lemma_step(bytes_mut_seq(*old(buf)), w3, s4);
        }
        if r4.is_err() {
            return r4;
        }
        let ghost mid = bytes_mut_seq(*buf);
        proof {
            lemma_append_empty(mid);
        }
        let r5 = write_compact_nullable_string(buf, &self.error_message);
        assert(bytes_mut_seq(*buf) == mid + written(s5));
        proof {
            lemma_step(bytes_mut_seq(*old(buf)), w4, s5);
        }
        if r5.is_err() {
            return r5;
        }
        let ghost mid = bytes_mut_seq(*buf);
        proof {
            lemma_append_empty(mid);
        }
        let r6 = write_tagged_fields(buf, &sort_by_tag(&self._unknown_tagged_fields));
        assert(bytes_mut_seq(*buf) == mid + written(s6));
        proof {
            lemma_step(bytes_mut_seq(*old(buf)), w5, s6);
        }
        if r6.is_err() {
            return r6;
        }
        Ok(())
    }

    #[verifier::rlimit(100)]
    #[verifier::spinoff_prover]
    pub fn encoded_len(&self, version: i16) -> (r: Result<usize, Error>)
        ensures
            r == len_result(Self::spec_write(self@, version)),
    {
        let ghost m = self@;
        proof {
            reveal(Coordinator::spec_write_key);
            reveal(Coordinator::spec_write_node_id);
            reveal(Coordinator::spec_write_host);
            reveal(Coordinator::spec_write_port);
            reveal(Coordinator::spec_write_error_code);
            reveal(Coordinator::spec_write_error_message);
            reveal(Coordinator::spec_write_tags);
        }
        let ghost s0 = Self::spec_write_key(m, version);
        let ghost w0 = s0;
        let ghost s1 = Self::spec_write_node_id(m, version);
        let ghost w1 = chain(w0, s1);
        let ghost s2 = Self::spec_write_host(m, version);
        let ghost w2 = chain(w1, s2);
        let ghost s3 = Self::spec_write_port(m, version);
        let ghost w3 = chain(w2, s3);
        let ghost s4 = Self::spec_write_error_code(m, version);
        let ghost w4 = chain(w3, s4);
        let ghost s5 = Self::spec_write_error_message(m, version);
        let ghost w5 = chain(w4, s5);
        let ghost s6 = Self::spec_write_tags(m, version);
        let ghost w6 = chain(w5, s6);
        assert(Self::spec_write(m, version) == w6);
        assert(w5 is Err ==> w6 == w5);
        assert(w4 is Err ==> w6 == w4);
        assert(w3 is Err ==> w6 == w3);
        assert(w2 is Err ==> w6 == w2);
        assert(w1 is Err ==> w6 == w1);
        assert(w0 is Err ==> w6 == w0);
        let mut len: usize = 0;
        let l0 = compact_string_len(&self.key);
        assert(l0 == len_result(s0));
        let n0 = match l0 {
            Ok(n) => n,
            Err(e) => {
                return Err(e);
            },
        };
        len = saturating_sum(len, n0);
        assert(w0 is Ok && len == saturate(written(w0).len() as int));
        let l1 = Ok(4);
        assert(l1 == len_result(s1));
        let n1 = match l1 {
            Ok(n) => n,
            Err(e) => {
                return Err(e);
            },
        };
        proof {
            lemma_len_step(w0, s1, n1);
        }
        len = saturating_sum(len, n1);
        assert(w1 is Ok && len == saturate(written(w1).len() as int));
        let l2 = compact_string_len(&self.host);
        assert(l2 == len_result(s2));
        let n2 = match l2 {
            Ok(n) => n,
            Err(e) => {
                return Err(e);
            },
        };
        proof {
            lemma_len_step(w1, s2, n2);
        }
        len = saturating_sum(len, n2);
        assert(w2 is Ok && len == saturate(written(w2).len() as int));
        let l3 = Ok(4);
        assert(l3 == len_result(s3));
        let n3 = match l3 {
            Ok(n) => n,
            Err(e) => {
                return Err(e);
            },
        };
        proof {
            lemma_len_step(w2, s3, n3);
        }
        len = saturating_sum(len, n3);
        assert(w3 is Ok && len == saturate(written(w3).len() as int));
        let l4 = Ok(2);
        assert(l4 == len_result(s4));
        let n4 = match l4 {
            Ok(n) => n,
            Err(e) => {
                return Err(e);
            },
        };
        proof {
            lemma_len_step(w3, s4, n4);
        }
        len = saturating_sum(len, n4);
        assert(w4 is Ok && len == saturate(written(w4).len() as int));
        let l5 = compact_nullable_string_len(&self.error_message);
        assert(l5 == len_result(s5));
        let n5 = match l5 {
            Ok(n) => n,
            Err(e) => {
                return Err(e);
            },
        };
        proof {
            lemma_len_step(w4, s5, n5);
        }
        len = saturating_sum(len, n5);
        assert(w5 is Ok && len == saturate(written(w5).len() as int));
        let l6 = tagged_fields_len(&sort_by_tag(&self._unknown_tagged_fields));
        assert(l6 == len_result(s6));
        let n6 = match l6 {
            Ok(n) => n,
            Err(e) => {
                return Err(e);
            },
        };
        proof {
            lemma_len_step(w5, s6, n6);
        }
        len = saturating_sum(len, n6);
        assert(w6 is Ok && len == saturate(written(w6).len() as int));
        Ok(len)
    }
}

impl Codec for Coordinator {
    type Item = Coordinator;

    open spec fn spec_read_item(s: Seq<u8>, version: i16) -> ReadOutcome<CoordinatorView> {
        Coordinator::spec_read(s, version)
    }

    open spec fn spec_write_item(v: CoordinatorView, version: i16) -> WriteOutcome {
        Coordinator::spec_write(v, version)
    }

    open spec fn canonical_item(v: CoordinatorView, version: i16) -> bool {
        Coordinator::canonical(v, version)
    }

    proof fn lemma_item_round_trip(v: CoordinatorView, version: i16, rest: Seq<u8>) {
        Coordinator::lemma_round_trip(v, version, rest);
    }

    open spec fn writable_item(v: CoordinatorView, version: i16) -> bool {
        Coordinator::writable(v, version)
    }

    proof fn lemma_item_writable(v: CoordinatorView, version: i16) {
        Coordinator::lemma_writable(v, version);
    }

    fn read_item(buf: &mut Bytes, version: i16) -> (r: Result<Coordinator, Error>) {
        Coordinator::read(buf, version)
    }

    fn write_item(item: &Coordinator, buf: &mut BytesMut, version: i16) -> (r: Result<(), Error>) {
        item.write(buf, version)
    }
}

impl MeasuredCodec for Coordinator {
    fn item_len(item: &Coordinator, version: i16) -> (r: Result<usize, Error>) {
        item.encoded_len(version)
    }
}

} // verus!
