//! The elect leaders response message.
use crate::buffer::{bytes_mut_seq, bytes_seq};
use crate::codec::{Codec, MeasuredCodec, all_canonical, all_writable, array_len, lemma_array_round_trip, lemma_array_writable, read_array, saturating_sum, spec_read_array, spec_write_array, write_array};
use crate::error::{Error, UnsupportedFieldVersion, UnsupportedVersion};
use crate::ints::{lemma_i16_roundtrip, lemma_i32_roundtrip, read_i16, read_i32, spec_read_i16, spec_read_i32, spec_write_i16, spec_write_i32, u16_bytes, u32_bytes, write_i16, write_i32};
use crate::strings::{compact_nullable_string_len, compact_string_len, lemma_compact_nullable_string_round_trip, lemma_compact_string_round_trip, lemma_nullable_string_round_trip, lemma_string_round_trip, nullable_string_len, read_compact_nullable_string, read_compact_string, read_nullable_string, read_string, spec_read_compact_nullable_string, spec_read_compact_string, spec_read_nullable_string, spec_read_string, spec_write_compact_nullable_string, spec_write_compact_string, spec_write_nullable_string, spec_write_string, string_len, write_compact_nullable_string, write_compact_string, write_nullable_string, write_string};
use crate::tagged::{lemma_sorted_by_tag_in_order, lemma_sorted_tags_fit, lemma_tagged_fields_round_trip, lemma_tagged_fields_writable, read_tagged_fields, sort_by_tag, sorted_by_tag, spec_read_tagged_fields, spec_write_tagged_fields, tagged_fields_len, tags_fit, tags_in_order, write_tagged_fields};
use crate::types::{KafkaString, RawTaggedField};
use crate::wire::{ReadOutcome, ViewClone, WriteOutcome, chain, clone_vec, emit, empty_vec, fail, has_room, lemma_append_empty, lemma_chain_written, lemma_len_step, lemma_step, len_result, opt_view, read_as, read_opt_as, read_vec_as, saturate, took_front, views, written, wrote};
use bytes::{Bytes, BytesMut};
use vstd::prelude::*;

verus! {

broadcast use {crate::wire::lemma_chain_written, crate::wire::lemma_took_front_nothing, crate::wire::lemma_took_front_twice};

#[derive(Debug, PartialEq)]
pub struct ElectLeadersResponseData {
    /// The duration in milliseconds for which the request was throttled due to a quota violation,
    /// or zero if the request did not violate any quota.
    pub throttle_time_ms: i32,
    /// The top level response error code.
    pub error_code: i16,
    /// The election results, or an empty array if the requester did not have permission and the
    /// request asks for all partitions.
    pub replica_election_results: Vec<ReplicaElectionResult>,
    pub _unknown_tagged_fields: Vec<RawTaggedField>,
}

/// What a `ElectLeadersResponseData` holds, as the specification sees it.
#[verifier::ext_equal]
pub struct ElectLeadersResponseDataView {
    pub throttle_time_ms: i32,
    pub error_code: i16,
    pub replica_election_results: Seq<ReplicaElectionResultView>,
    pub unknown_tagged_fields: Seq<(u32, Seq<u8>)>,
}

impl View for ElectLeadersResponseData {
    type V = ElectLeadersResponseDataView;

    open spec fn view(&self) -> ElectLeadersResponseDataView {
        ElectLeadersResponseDataView {
            throttle_time_ms: self.throttle_time_ms,
            error_code: self.error_code,
            replica_election_results: views(self.replica_election_results@),
            unknown_tagged_fields: views(self._unknown_tagged_fields@),
        }
    }
}

impl Clone for ElectLeadersResponseData {
    fn clone(&self) -> (r: Self)
        ensures
            r@ == self@,
    {
        let r = ElectLeadersResponseData {
            throttle_time_ms: self.throttle_time_ms,
            error_code: self.error_code,
            replica_election_results: clone_vec(&self.replica_election_results),
            _unknown_tagged_fields: clone_vec(&self._unknown_tagged_fields),
        };
        assert(r@ =~= self@);
        r
    }
}

impl ViewClone for ElectLeadersResponseData {
    fn clone_view(&self) -> (r: Self) {
        self.clone()
    }
}

impl Default for ElectLeadersResponseData {
    fn default() -> (r: Self)
        ensures
            r@ == Self::default_view(),
    {
        let r = ElectLeadersResponseData {
            throttle_time_ms: 0_i32,
            error_code: 0_i16,
            replica_election_results: empty_vec(),
            _unknown_tagged_fields: empty_vec(),
        };
        assert(r@ =~= Self::default_view());
        r
    }
}

impl ElectLeadersResponseData {
    pub open spec fn default_view() -> ElectLeadersResponseDataView {
        ElectLeadersResponseDataView {
            throttle_time_ms: 0_i32,
            error_code: 0_i16,
            replica_election_results: Seq::empty(),
            unknown_tagged_fields: Seq::empty(),
        }
    }

    /// The `throttle_time_ms` field, read from the front of `s`.
    #[verifier::opaque]
    pub open spec fn spec_read_throttle_time_ms(s: Seq<u8>, version: i16) -> ReadOutcome<i32> {
        spec_read_i32(s)
    }

    /// The `error_code` field, read from the front of `s`.
    #[verifier::opaque]
    pub open spec fn spec_read_error_code(s: Seq<u8>, version: i16) -> ReadOutcome<i16> {
        if version >= 1 {
            spec_read_i16(s)
        } else {
            Ok((0_i16, s))
        }
    }

    /// The `replica_election_results` field, read from the front of `s`.
    #[verifier::opaque]
    pub open spec fn spec_read_replica_election_results(s: Seq<u8>, version: i16) -> ReadOutcome<Seq<ReplicaElectionResultView>> {
        if version >= 2 {
            spec_read_array::<ReplicaElectionResult>(s, version, true)
        } else {
            spec_read_array::<ReplicaElectionResult>(s, version, false)
        }
    }

    /// The tagged fields, read from the front of `s`.
    #[verifier::opaque]
    pub open spec fn spec_read_tags(s: Seq<u8>, version: i16) -> ReadOutcome<Seq<(u32, Seq<u8>)>> {
        if version >= 2 {
            spec_read_tagged_fields(s)
        } else {
            Ok((Seq::empty(), s))
        }
    }

    pub open spec fn spec_read(s: Seq<u8>, version: i16) -> ReadOutcome<ElectLeadersResponseDataView> {
        if version < 0 || version > 2 {
            Err(Error::UnsupportedVersion(UnsupportedVersion { api_key: 43, version }))
        } else {
            match (Self::spec_read_throttle_time_ms(s, version)) {
                Err(e) => Err(e),
                Ok((throttle_time_ms, s)) => match (Self::spec_read_error_code(s, version)) {
                    Err(e) => Err(e),
                    Ok((error_code, s)) => match (Self::spec_read_replica_election_results(s, version)) {
                        Err(e) => Err(e),
                        Ok((replica_election_results, s)) => match (Self::spec_read_tags(s, version)) {
                            Err(e) => Err(e),
                            Ok((unknown_tagged_fields, s)) => Ok((ElectLeadersResponseDataView {
                                        throttle_time_ms: throttle_time_ms,
                                        error_code: error_code,
                                        replica_election_results: replica_election_results,
                                        unknown_tagged_fields: unknown_tagged_fields,
                                    }, s)),
                        },
                    },
                },
            }
        }
    }

    /// What writing the `throttle_time_ms` field of `m` appends.
    #[verifier::opaque]
    pub open spec fn spec_write_throttle_time_ms(m: ElectLeadersResponseDataView, version: i16) -> WriteOutcome {
        spec_write_i32(m.throttle_time_ms)
    }

    /// What writing the `error_code` field of `m` appends.
    #[verifier::opaque]
    pub open spec fn spec_write_error_code(m: ElectLeadersResponseDataView, version: i16) -> WriteOutcome {
        if version >= 1 {
            spec_write_i16(m.error_code)
        } else {
            if m.error_code != 0_i16 {
                fail(Error::UnsupportedFieldVersion(UnsupportedFieldVersion { api_key: 43, field: "error_code", version }))
            } else {
                emit(Seq::empty())
            }
        }
    }

    /// What writing the `replica_election_results` field of `m` appends.
    #[verifier::opaque]
    pub open spec fn spec_write_replica_election_results(m: ElectLeadersResponseDataView, version: i16) -> WriteOutcome {
        if version >= 2 {
            spec_write_array::<ReplicaElectionResult>(m.replica_election_results, version, true)
        } else {
            spec_write_array::<ReplicaElectionResult>(m.replica_election_results, version, false)
        }
    }

    /// What writing the tagged fields of `m` appends.
    #[verifier::opaque]
    pub open spec fn spec_write_tags(m: ElectLeadersResponseDataView, version: i16) -> WriteOutcome {
        if version >= 2 {
            spec_write_tagged_fields(sorted_by_tag(m.unknown_tagged_fields))
        } else {
            emit(Seq::empty())
        }
    }

    pub open spec fn spec_write(m: ElectLeadersResponseDataView, version: i16) -> WriteOutcome {
        if version < 0 || version > 2 {
            fail(Error::UnsupportedVersion(UnsupportedVersion { api_key: 43, version }))
        } else {
            chain(
                chain(
                    chain(
                        Self::spec_write_throttle_time_ms(m, version),
                        Self::spec_write_error_code(m, version),
                    ),
                    Self::spec_write_replica_election_results(m, version),
                ),
                Self::spec_write_tags(m, version),
            )
        }
    }

    /// Whether reading back what writing `m` in `version` appends gives `m`:
    /// fields that the version does not carry hold their default values, and
    /// tagged fields come in the order in which they are written.
    pub open spec fn canonical(m: ElectLeadersResponseDataView, version: i16) -> bool {
        &&& all_canonical::<ReplicaElectionResult>(m.replica_election_results, version)
        &&& (if version >= 2 {
                tags_in_order(m.unknown_tagged_fields)
            } else {
                m.unknown_tagged_fields.len() == 0
        })
    }

    proof fn lemma_round_trip_throttle_time_ms(m: ElectLeadersResponseDataView, version: i16, rest: Seq<u8>)
        requires
            Self::canonical(m, version),
            Self::spec_write_throttle_time_ms(m, version) is Ok,
        ensures
            Self::spec_read_throttle_time_ms(written(Self::spec_write_throttle_time_ms(m, version)) + rest, version) == Ok::<(i32, Seq<u8>), Error>((m.throttle_time_ms, rest)),
    {
        reveal(ElectLeadersResponseData::spec_read_throttle_time_ms);
        reveal(ElectLeadersResponseData::spec_write_throttle_time_ms);
        lemma_i32_roundtrip(m.throttle_time_ms, rest);
    }

    proof fn lemma_round_trip_error_code(m: ElectLeadersResponseDataView, version: i16, rest: Seq<u8>)
        requires
            Self::canonical(m, version),
            Self::spec_write_error_code(m, version) is Ok,
        ensures
            Self::spec_read_error_code(written(Self::spec_write_error_code(m, version)) + rest, version) == Ok::<(i16, Seq<u8>), Error>((m.error_code, rest)),
    {
        reveal(ElectLeadersResponseData::spec_read_error_code);
        reveal(ElectLeadersResponseData::spec_write_error_code);
        if version >= 1 {
            lemma_i16_roundtrip(m.error_code, rest);
        } else {
            assert(Seq::<u8>::empty() + rest =~= rest);
        }
    }

    proof fn lemma_round_trip_replica_election_results(m: ElectLeadersResponseDataView, version: i16, rest: Seq<u8>)
        requires
            Self::canonical(m, version),
            Self::spec_write_replica_election_results(m, version) is Ok,
        ensures
            Self::spec_read_replica_election_results(written(Self::spec_write_replica_election_results(m, version)) + rest, version) == Ok::<(Seq<ReplicaElectionResultView>, Seq<u8>), Error>((m.replica_election_results, rest)),
    {
        reveal(ElectLeadersResponseData::spec_read_replica_election_results);
        reveal(ElectLeadersResponseData::spec_write_replica_election_results);
        if version >= 2 {
            lemma_array_round_trip::<ReplicaElectionResult>(m.replica_election_results, version, true, rest);
        } else {
            lemma_array_round_trip::<ReplicaElectionResult>(m.replica_election_results, version, false, rest);
        }
    }

    proof fn lemma_round_trip_tags(m: ElectLeadersResponseDataView, version: i16, rest: Seq<u8>)
        requires
            Self::canonical(m, version),
            Self::spec_write_tags(m, version) is Ok,
        ensures
            Self::spec_read_tags(written(Self::spec_write_tags(m, version)) + rest, version) == Ok::<(Seq<(u32, Seq<u8>)>, Seq<u8>), Error>((m.unknown_tagged_fields, rest)),
    {
        reveal(ElectLeadersResponseData::spec_read_tags);
        reveal(ElectLeadersResponseData::spec_write_tags);
        if version >= 2 {
            lemma_sorted_by_tag_in_order(m.unknown_tagged_fields);
            lemma_tagged_fields_round_trip(m.unknown_tagged_fields, rest);
        } else {
            assert(Seq::<u8>::empty() + rest =~= rest);
            assert(m.unknown_tagged_fields =~= Seq::empty());
        }
    }

    /// Reading back what writing `m` in `version` appends gives `m` again, and
    /// leaves what follows, for every canonical message whose write succeeds.
    #[verifier::rlimit(80)]
    #[verifier::spinoff_prover]
    pub proof fn lemma_round_trip(m: ElectLeadersResponseDataView, version: i16, rest: Seq<u8>)
        requires
            Self::canonical(m, version),
            Self::spec_write(m, version) is Ok,
        ensures
            Self::spec_read(written(Self::spec_write(m, version)) + rest, version) == Ok::<(ElectLeadersResponseDataView, Seq<u8>), Error>((m, rest)),
    {
        let b0 = written(Self::spec_write_throttle_time_ms(m, version));
        let b1 = written(Self::spec_write_error_code(m, version));
        let b2 = written(Self::spec_write_replica_election_results(m, version));
        let b3 = written(Self::spec_write_tags(m, version));
        let t4 = rest;
        let t3 = b3 + t4;
        let t2 = b2 + t3;
        let t1 = b1 + t2;
        let t0 = b0 + t1;
        let w0 = Self::spec_write_throttle_time_ms(m, version);
        let w1 = chain(w0, Self::spec_write_error_code(m, version));
        let w2 = chain(w1, Self::spec_write_replica_election_results(m, version));
        let w3 = chain(w2, Self::spec_write_tags(m, version));
        assert(Self::spec_write(m, version) == w3);
        assert(written(w3) + t4 =~= written(w2) + t3);
        assert(written(w2) + t3 =~= written(w1) + t2);
        assert(written(w1) + t2 =~= written(w0) + t1);
        Self::lemma_round_trip_throttle_time_ms(m, version, t1);
        Self::lemma_round_trip_error_code(m, version, t2);
        Self::lemma_round_trip_replica_election_results(m, version, t3);
        Self::lemma_round_trip_tags(m, version, t4);
    }

    /// In a version that does not carry `unknown_tagged_fields`, writing ignores its value.
    pub proof fn lemma_write_ignores_unknown_tagged_fields(m: ElectLeadersResponseDataView, value: Seq<(u32, Seq<u8>)>, version: i16)
        requires
            !(version >= 2),
        ensures
            Self::spec_write((ElectLeadersResponseDataView { unknown_tagged_fields: value, ..m }), version) == Self::spec_write(m, version),
    {
        reveal(ElectLeadersResponseData::spec_write_throttle_time_ms);
        reveal(ElectLeadersResponseData::spec_write_error_code);
        reveal(ElectLeadersResponseData::spec_write_replica_election_results);
        reveal(ElectLeadersResponseData::spec_write_tags);
    }

    /// The default message holds the default value of each field of the schema.
    pub proof fn lemma_default_values()
        ensures
            Self::default_view().throttle_time_ms == (0_i32),
            Self::default_view().error_code == (0_i16),
            Self::default_view().replica_election_results.len() == 0,
            Self::default_view().unknown_tagged_fields.len() == 0,
    {
    }

    /// Each integer, boolean and identifier field is written as its standard
    /// big-endian bytes (a boolean as `1` or `0`) in the versions that carry
    /// it, and as nothing in the others; reading it takes those bytes back (any
    /// byte other than `0` reads as `true`), or gives its default value.
    pub proof fn lemma_field_encodings(m: ElectLeadersResponseDataView, s: Seq<u8>, version: i16)
        ensures
            true ==> Self::spec_write_throttle_time_ms(m, version) == Ok::<Seq<u8>, (Error, Seq<u8>)>(u32_bytes(m.throttle_time_ms as u32)),
            version >= 1 ==> Self::spec_write_error_code(m, version) == Ok::<Seq<u8>, (Error, Seq<u8>)>(u16_bytes(m.error_code as u16)),
            true ==> Self::spec_read_throttle_time_ms(s, version) == spec_read_i32(s),
            version >= 1 ==> Self::spec_read_error_code(s, version) == spec_read_i16(s),
            !(version >= 1) ==> Self::spec_read_error_code(s, version) == Ok::<(i16, Seq<u8>), Error>((0_i16, s)),
    {
        reveal(ElectLeadersResponseData::spec_write_throttle_time_ms);
        reveal(ElectLeadersResponseData::spec_read_throttle_time_ms);
        reveal(ElectLeadersResponseData::spec_write_error_code);
        reveal(ElectLeadersResponseData::spec_read_error_code);
    }

    /// Whether writing `m` in `version` succeeds, said over its parts: the
    /// version is one the schema covers, every field that the version cannot
    /// carry holds its default value, and every string, byte string, array and
    /// tagged field fits its length prefix.
    pub open spec fn writable(m: ElectLeadersResponseDataView, version: i16) -> bool {
        &&& 0 <= version <= 2
        &&& (if version >= 1 {
                true
            } else {
                !(m.error_code != 0_i16)
        })
        &&& (m.replica_election_results.len() <= i32::MAX && all_writable::<ReplicaElectionResult>(m.replica_election_results, version))
        &&& (if version >= 2 {
                m.unknown_tagged_fields.len() <= u32::MAX && tags_fit(m.unknown_tagged_fields)
            } else {
                true
        })
    }

    proof fn lemma_writable_throttle_time_ms(m: ElectLeadersResponseDataView, version: i16)
        ensures
            Self::spec_write_throttle_time_ms(m, version) is Ok <==> true,
    {
        reveal(ElectLeadersResponseData::spec_write_throttle_time_ms);
    }

    proof fn lemma_writable_error_code(m: ElectLeadersResponseDataView, version: i16)
        ensures
            Self::spec_write_error_code(m, version) is Ok <==> (if version >= 1 { true } else { !(m.error_code != 0_i16) }),
    {
        reveal(ElectLeadersResponseData::spec_write_error_code);
    }

    proof fn lemma_writable_replica_election_results(m: ElectLeadersResponseDataView, version: i16)
        ensures
            Self::spec_write_replica_election_results(m, version) is Ok <==> (m.replica_election_results.len() <= i32::MAX && all_writable::<ReplicaElectionResult>(m.replica_election_results, version)),
    {
        reveal(ElectLeadersResponseData::spec_write_replica_election_results);
        if version >= 2 {
            lemma_array_writable::<ReplicaElectionResult>(m.replica_election_results, version, true);
        } else {
            lemma_array_writable::<ReplicaElectionResult>(m.replica_election_results, version, false);
        }
    }

    proof fn lemma_writable_tags(m: ElectLeadersResponseDataView, version: i16)
        ensures
            Self::spec_write_tags(m, version) is Ok <==> (if version >= 2 { m.unknown_tagged_fields.len() <= u32::MAX && tags_fit(m.unknown_tagged_fields) } else { true }),
    {
        reveal(ElectLeadersResponseData::spec_write_tags);
        if version >= 2 {
            lemma_sorted_tags_fit(m.unknown_tagged_fields);
            lemma_tagged_fields_writable(sorted_by_tag(m.unknown_tagged_fields));
        }
    }

    /// Writing `m` in `version` succeeds exactly when `m` is writable in it;
    /// so do `write` and `encoded_len`, whose results follow `spec_write`.
    #[verifier::rlimit(54)]
    pub proof fn lemma_writable(m: ElectLeadersResponseDataView, version: i16)
        ensures
            Self::spec_write(m, version) is Ok <==> Self::writable(m, version),
    {
        Self::lemma_writable_throttle_time_ms(m, version);
        Self::lemma_writable_error_code(m, version);
        Self::lemma_writable_replica_election_results(m, version);
        Self::lemma_writable_tags(m, version);
    }

    /// A version outside the range that the schema covers is refused, by
    /// reads and by writes alike, before anything is read or written.
    pub proof fn lemma_refused_version(m: ElectLeadersResponseDataView, s: Seq<u8>, version: i16)
        requires
            version < 0 || version > 2,
        ensures
            Self::spec_read(s, version) == Err::<(ElectLeadersResponseDataView, Seq<u8>), Error>(Error::UnsupportedVersion(UnsupportedVersion { api_key: 43, version })),
            Self::spec_write(m, version) == fail(Error::UnsupportedVersion(UnsupportedVersion { api_key: 43, version })),
    {
    }

    pub fn with_throttle_time_ms(self, value: i32) -> (r: Self)
        ensures
            r@ == (ElectLeadersResponseDataView { throttle_time_ms: value, ..self@ }),
    {
        let mut r = self;
        r.throttle_time_ms = value;
        r
    }

    pub fn with_error_code(self, value: i16) -> (r: Self)
        ensures
            r@ == (ElectLeadersResponseDataView { error_code: value, ..self@ }),
    {
        let mut r = self;
        r.error_code = value;
        r
    }

    pub fn with_replica_election_results(self, value: Vec<ReplicaElectionResult>) -> (r: Self)
        ensures
            r@ == (ElectLeadersResponseDataView { replica_election_results: views(value@), ..self@ }),
    {
        let mut r = self;
        r.replica_election_results = value;
        r
    }

    fn read_throttle_time_ms(buf: &mut Bytes, version: i16) -> (r: Result<i32, Error>)
        ensures
            read_as(Self::spec_read_throttle_time_ms(bytes_seq(*old(buf)), version), *final(buf), r),
            took_front(*old(buf), *final(buf)),
    {
        proof {
            reveal(ElectLeadersResponseData::spec_read_throttle_time_ms);
        }
        Ok(read_i32(buf)?)
    }

    fn read_error_code(buf: &mut Bytes, version: i16) -> (r: Result<i16, Error>)
        ensures
            read_as(Self::spec_read_error_code(bytes_seq(*old(buf)), version), *final(buf), r),
            took_front(*old(buf), *final(buf)),
    {
        proof {
            reveal(ElectLeadersResponseData::spec_read_error_code);
        }
        Ok(if version >= 1 {
                read_i16(buf)?
            } else {
                0_i16
        })
    }

    fn read_replica_election_results(buf: &mut Bytes, version: i16) -> (r: Result<Vec<ReplicaElectionResult>, Error>)
        ensures
            read_vec_as(Self::spec_read_replica_election_results(bytes_seq(*old(buf)), version), *final(buf), r),
            took_front(*old(buf), *final(buf)),
    {
        proof {
            reveal(ElectLeadersResponseData::spec_read_replica_election_results);
        }
        Ok(if version >= 2 {
                read_array::<ReplicaElectionResult>(buf, version, true)?
            } else {
                read_array::<ReplicaElectionResult>(buf, version, false)?
        })
    }

    fn read_tags(buf: &mut Bytes, version: i16) -> (r: Result<Vec<RawTaggedField>, Error>)
        ensures
            read_vec_as(Self::spec_read_tags(bytes_seq(*old(buf)), version), *final(buf), r),
            took_front(*old(buf), *final(buf)),
    {
        proof {
            reveal(ElectLeadersResponseData::spec_read_tags);
        }
        Ok(if version >= 2 {
                read_tagged_fields(buf)?
            } else {
                empty_vec()
        })
    }

    pub fn read(buf: &mut Bytes, version: i16) -> (r: Result<Self, Error>)
        ensures
            read_as(Self::spec_read(bytes_seq(*old(buf)), version), *final(buf), r),
            took_front(*old(buf), *final(buf)),
            (version < 0 || version > 2) ==> bytes_seq(*final(buf)) == bytes_seq(*old(buf)),
    {
        if version < 0 || version > 2 {
            return Err(Error::UnsupportedVersion(UnsupportedVersion::new(43, version)));
        }
        let throttle_time_ms = Self::read_throttle_time_ms(buf, version)?;
        let error_code = Self::read_error_code(buf, version)?;
        let replica_election_results = Self::read_replica_election_results(buf, version)?;
        let _unknown_tagged_fields = Self::read_tags(buf, version)?;
        Ok(ElectLeadersResponseData {
                throttle_time_ms: throttle_time_ms,
                error_code: error_code,
                replica_election_results: replica_election_results,
                _unknown_tagged_fields: _unknown_tagged_fields,
        })
    }

    #[verifier::rlimit(70)]
    pub fn write(&self, buf: &mut BytesMut, version: i16) -> (r: Result<(), Error>)
        requires
            has_room(Self::spec_write(self@, version), *old(buf)),
        ensures
            wrote(Self::spec_write(self@, version), *old(buf), *final(buf), r),
    {
        if version < 0 || version > 2 {
            return Err(Error::UnsupportedVersion(UnsupportedVersion::new(43, version)));
        }
        let ghost m = self@;
        proof {
            reveal(ElectLeadersResponseData::spec_write_throttle_time_ms);
            reveal(ElectLeadersResponseData::spec_write_error_code);
            reveal(ElectLeadersResponseData::spec_write_replica_election_results);
            reveal(ElectLeadersResponseData::spec_write_tags);
        }
        let ghost s0 = Self::spec_write_throttle_time_ms(m, version);
        let ghost w0 = s0;
        let ghost s1 = Self::spec_write_error_code(m, version);
        let ghost w1 = chain(w0, s1);
        let ghost s2 = Self::spec_write_replica_election_results(m, version);
        let ghost w2 = chain(w1, s2);
        let ghost s3 = Self::spec_write_tags(m, version);
        let ghost w3 = chain(w2, s3);
        assert(Self::spec_write(m, version) == w3);
        assert(written(w2).len() <= written(w3).len() && (w2 is Err ==> w3 == w2));
        assert(written(w1).len() <= written(w3).len() && (w1 is Err ==> w3 == w1));
        assert(written(w0).len() <= written(w3).len() && (w0 is Err ==> w3 == w0));
        let ghost mid = bytes_mut_seq(*buf);
        proof {
            lemma_append_empty(mid);
        }
        let r0 = {
            write_i32(buf, self.throttle_time_ms);
            Ok(())
        };
        assert(bytes_mut_seq(*buf) == mid + written(s0));
        if r0.is_err() {
            return r0;
        }
        let ghost mid = bytes_mut_seq(*buf);
        proof {
            lemma_append_empty(mid);
        }
        let r1 = if version >= 1 {
            {
                write_i16(buf, self.error_code);
                Ok(())
            }
        } else {
            if self.error_code != 0_i16 {
                Err(Error::UnsupportedFieldVersion(UnsupportedFieldVersion::new(43, "error_code", version)))
            } else {
                Ok(())
            }
        };
        assert(bytes_mut_seq(*buf) == mid + written(s1));
        proof {
            lemma_step(bytes_mut_seq(*old(buf)), w0, s1);
        }
        if r1.is_err() {
            return r1;
        }
        let ghost mid = bytes_mut_seq(*buf);
        proof {
            lemma_append_empty(mid);
        }
        let r2 = if version >= 2 {
            write_array::<ReplicaElectionResult>(buf, &self.replica_election_results, version, true)
        } else {
            write_array::<ReplicaElectionResult>(buf, &self.replica_election_results, version, false)
        };
        assert(bytes_mut_seq(*buf) == mid + written(s2));
        proof {
            lemma_step(bytes_mut_seq(*old(buf)), w1, s2);
        }
        if r2.is_err() {
            return r2;
        }
        let ghost mid = bytes_mut_seq(*buf);
        proof {
            lemma_append_empty(mid);
        }
        let r3 = if version >= 2 {
            write_tagged_fields(buf, &sort_by_tag(&self._unknown_tagged_fields))
        } else {
            Ok(())
        };
        assert(bytes_mut_seq(*buf) == mid + written(s3));
        proof {
            lemma_step(bytes_mut_seq(*old(buf)), w2, s3);
        }
        if r3.is_err() {
            return r3;
        }
        Ok(())
    }

    #[verifier::rlimit(70)]
    pub fn encoded_len(&self, version: i16) -> (r: Result<usize, Error>)
        ensures
            r == len_result(Self::spec_write(self@, version)),
    {
        if version < 0 || version > 2 {
            return Err(Error::UnsupportedVersion(UnsupportedVersion::new(43, version)));
        }
        let ghost m = self@;
        proof {
            reveal(ElectLeadersResponseData::spec_write_throttle_time_ms);
            reveal(ElectLeadersResponseData::spec_write_error_code);
            reveal(ElectLeadersResponseData::spec_write_replica_election_results);
            reveal(ElectLeadersResponseData::spec_write_tags);
        }
        let ghost s0 = Self::spec_write_throttle_time_ms(m, version);
        let ghost w0 = s0;
        let ghost s1 = Self::spec_write_error_code(m, version);
        let ghost w1 = chain(w0, s1);
        let ghost s2 = Self::spec_write_replica_election_results(m, version);
        let ghost w2 = chain(w1, s2);
        let ghost s3 = Self::spec_write_tags(m, version);
        let ghost w3 = chain(w2, s3);
        assert(Self::spec_write(m, version) == w3);
        assert(w2 is Err ==> w3 == w2);
        assert(w1 is Err ==> w3 == w1);
        assert(w0 is Err ==> w3 == w0);
        let mut len: usize = 0;
        let l0 = Ok(4);
        assert(l0 == len_result(s0));
        let n0 = match l0 {
            Ok(n) => n,
            Err(e) => {
                return Err(e);
            },
        };
        len = saturating_sum(len, n0);
        assert(w0 is Ok && len == saturate(written(w0).len() as int));
        let l1 = if version >= 1 {
            Ok(2)
        } else {
            if self.error_code != 0_i16 {
                Err(Error::UnsupportedFieldVersion(UnsupportedFieldVersion::new(43, "error_code", version)))
            } else {
                Ok(0)
            }
        };
        assert(l1 == len_result(s1));
        let n1 = match l1 {
            Ok(n) => n,
            Err(e) => {
                return Err(e);
            },
        };
        proof {
            lemma_len_step(w0, s1, n1);
        }
        len = saturating_sum(len, n1);
        assert(w1 is Ok && len == saturate(written(w1).len() as int));
        let l2 = if version >= 2 {
            array_len::<ReplicaElectionResult>(&self.replica_election_results, version, true)
        } else {
            array_len::<ReplicaElectionResult>(&self.replica_election_results, version, false)
        };
        assert(l2 == len_result(s2));
        let n2 = match l2 {
            Ok(n) => n,
            Err(e) => {
                return Err(e);
            },
        };
        proof {
            lemma_len_step(w1, s2, n2);
        }
        len = saturating_sum(len, n2);
        assert(w2 is Ok && len == saturate(written(w2).len() as int));
        let l3 = if version >= 2 {
            tagged_fields_len(&sort_by_tag(&self._unknown_tagged_fields))
        } else {
            Ok(0)
        };
        assert(l3 == len_result(s3));
        let n3 = match l3 {
            Ok(n) => n,
            Err(e) => {
                return Err(e);
            },
        };
        proof {
            lemma_len_step(w2, s3, n3);
        }
        len = saturating_sum(len, n3);
        assert(w3 is Ok && len == saturate(written(w3).len() as int));
        Ok(len)
    }
}

#[derive(Debug, PartialEq)]
pub struct ReplicaElectionResult {
    /// The topic name.
    pub topic: KafkaString,
    /// The results for each partition.
    pub partition_result: Vec<PartitionResult>,
    pub _unknown_tagged_fields: Vec<RawTaggedField>,
}

/// What a `ReplicaElectionResult` holds, as the specification sees it.
#[verifier::ext_equal]
pub struct ReplicaElectionResultView {
    pub topic: Seq<u8>,
    pub partition_result: Seq<PartitionResultView>,
    pub unknown_tagged_fields: Seq<(u32, Seq<u8>)>,
}

impl View for ReplicaElectionResult {
    type V = ReplicaElectionResultView;

    open spec fn view(&self) -> ReplicaElectionResultView {
        ReplicaElectionResultView {
            topic: self.topic@,
            partition_result: views(self.partition_result@),
            unknown_tagged_fields: views(self._unknown_tagged_fields@),
        }
    }
}

impl Clone for ReplicaElectionResult {
    fn clone(&self) -> (r: Self)
        ensures
            r@ == self@,
    {
        let r = ReplicaElectionResult {
            topic: self.topic.clone(),
            partition_result: clone_vec(&self.partition_result),
            _unknown_tagged_fields: clone_vec(&self._unknown_tagged_fields),
        };
        assert(r@ =~= self@);
        r
    }
}

impl ViewClone for ReplicaElectionResult {
    fn clone_view(&self) -> (r: Self) {
        self.clone()
    }
}

impl Default for ReplicaElectionResult {
    fn default() -> (r: Self)
        ensures
            r@ == Self::default_view(),
    {
        let r = ReplicaElectionResult {
            topic: KafkaString::default(),
            partition_result: empty_vec(),
            _unknown_tagged_fields: empty_vec(),
        };
        assert(r@ =~= Self::default_view());
        r
    }
}

impl ReplicaElectionResult {
    pub open spec fn default_view() -> ReplicaElectionResultView {
        ReplicaElectionResultView {
            topic: Seq::empty(),
            partition_result: Seq::empty(),
            unknown_tagged_fields: Seq::empty(),
        }
    }

    /// The `topic` field, read from the front of `s`.
    #[verifier::opaque]
    pub open spec fn spec_read_topic(s: Seq<u8>, version: i16) -> ReadOutcome<Seq<u8>> {
        if version >= 2 {
            spec_read_compact_string(s)
        } else {
            spec_read_string(s)
        }
    }

    /// The `partition_result` field, read from the front of `s`.
    #[verifier::opaque]
    pub open spec fn spec_read_partition_result(s: Seq<u8>, version: i16) -> ReadOutcome<Seq<PartitionResultView>> {
        if version >= 2 {
            spec_read_array::<PartitionResult>(s, version, true)
        } else {
            spec_read_array::<PartitionResult>(s, version, false)
        }
    }

    /// The tagged fields, read from the front of `s`.
    #[verifier::opaque]
    pub open spec fn spec_read_tags(s: Seq<u8>, version: i16) -> ReadOutcome<Seq<(u32, Seq<u8>)>> {
        if version >= 2 {
            spec_read_tagged_fields(s)
        } else {
            Ok((Seq::empty(), s))
        }
    }

    pub open spec fn spec_read(s: Seq<u8>, version: i16) -> ReadOutcome<ReplicaElectionResultView> {
        match (Self::spec_read_topic(s, version)) {
            Err(e) => Err(e),
            Ok((topic, s)) => match (Self::spec_read_partition_result(s, version)) {
                Err(e) => Err(e),
                Ok((partition_result, s)) => match (Self::spec_read_tags(s, version)) {
                    Err(e) => Err(e),
                    Ok((unknown_tagged_fields, s)) => Ok((ReplicaElectionResultView {
                                topic: topic,
                                partition_result: partition_result,
                                unknown_tagged_fields: unknown_tagged_fields,
                            }, s)),
                },
            },
        }
    }

    /// What writing the `topic` field of `m` appends.
    #[verifier::opaque]
    pub open spec fn spec_write_topic(m: ReplicaElectionResultView, version: i16) -> WriteOutcome {
        if version >= 2 {
            spec_write_compact_string(m.topic)
        } else {
            spec_write_string(m.topic)
        }
    }

    /// What writing the `partition_result` field of `m` appends.
    #[verifier::opaque]
    pub open spec fn spec_write_partition_result(m: ReplicaElectionResultView, version: i16) -> WriteOutcome {
        if version >= 2 {
            spec_write_array::<PartitionResult>(m.partition_result, version, true)
        } else {
            spec_write_array::<PartitionResult>(m.partition_result, version, false)
        }
    }

    /// What writing the tagged fields of `m` appends.
    #[verifier::opaque]
    pub open spec fn spec_write_tags(m: ReplicaElectionResultView, version: i16) -> WriteOutcome {
        if version >= 2 {
            spec_write_tagged_fields(sorted_by_tag(m.unknown_tagged_fields))
        } else {
            emit(Seq::empty())
        }
    }

    pub open spec fn spec_write(m: ReplicaElectionResultView, version: i16) -> WriteOutcome {
        chain(
            chain(
                Self::spec_write_topic(m, version),
                Self::spec_write_partition_result(m, version),
            ),
            Self::spec_write_tags(m, version),
        )
    }

    /// Whether reading back what writing `m` in `version` appends gives `m`:
    /// fields that the version does not carry hold their default values, and
    /// tagged fields come in the order in which they are written.
    pub open spec fn canonical(m: ReplicaElectionResultView, version: i16) -> bool {
        &&& all_canonical::<PartitionResult>(m.partition_result, version)
        &&& (if version >= 2 {
                tags_in_order(m.unknown_tagged_fields)
            } else {
                m.unknown_tagged_fields.len() == 0
        })
    }

    proof fn lemma_round_trip_topic(m: ReplicaElectionResultView, version: i16, rest: Seq<u8>)
        requires
            Self::canonical(m, version),
            Self::spec_write_topic(m, version) is Ok,
        ensures
            Self::spec_read_topic(written(Self::spec_write_topic(m, version)) + rest, version) == Ok::<(Seq<u8>, Seq<u8>), Error>((m.topic, rest)),
    {
        reveal(ReplicaElectionResult::spec_read_topic);
        reveal(ReplicaElectionResult::spec_write_topic);
        if version >= 2 {
            lemma_compact_string_round_trip(m.topic, rest);
        } else {
            lemma_string_round_trip(m.topic, rest);
        }
    }

    proof fn lemma_round_trip_partition_result(m: ReplicaElectionResultView, version: i16, rest: Seq<u8>)
        requires
            Self::canonical(m, version),
            Self::spec_write_partition_result(m, version) is Ok,
        ensures
            Self::spec_read_partition_result(written(Self::spec_write_partition_result(m, version)) + rest, version) == Ok::<(Seq<PartitionResultView>, Seq<u8>), Error>((m.partition_result, rest)),
    {
        reveal(ReplicaElectionResult::spec_read_partition_result);
        reveal(ReplicaElectionResult::spec_write_partition_result);
        if version >= 2 {
            lemma_array_round_trip::<PartitionResult>(m.partition_result, version, true, rest);
        } else {
            lemma_array_round_trip::<PartitionResult>(m.partition_result, version, false, rest);
        }
    }

    proof fn lemma_round_trip_tags(m: ReplicaElectionResultView, version: i16, rest: Seq<u8>)
        requires
            Self::canonical(m, version),
            Self::spec_write_tags(m, version) is Ok,
        ensures
            Self::spec_read_tags(written(Self::spec_write_tags(m, version)) + rest, version) == Ok::<(Seq<(u32, Seq<u8>)>, Seq<u8>), Error>((m.unknown_tagged_fields, rest)),
    {
        reveal(ReplicaElectionResult::spec_read_tags);
        reveal(ReplicaElectionResult::spec_write_tags);
        if version >= 2 {
            lemma_sorted_by_tag_in_order(m.unknown_tagged_fields);
            lemma_tagged_fields_round_trip(m.unknown_tagged_fields, rest);
        } else {
            assert(Seq::<u8>::empty() + rest =~= rest);
            assert(m.unknown_tagged_fields =~= Seq::empty());
        }
    }

    /// Reading back what writing `m` in `version` appends gives `m` again, and
    /// leaves what follows, for every canonical message whose write succeeds.
    #[verifier::rlimit(70)]
    #[verifier::spinoff_prover]
    pub proof fn lemma_round_trip(m: ReplicaElectionResultView, version: i16, rest: Seq<u8>)
        requires
            Self::canonical(m, version),
            Self::spec_write(m, version) is Ok,
        ensures
            Self::spec_read(written(Self::spec_write(m, version)) + rest, version) == Ok::<(ReplicaElectionResultView, Seq<u8>), Error>((m, rest)),
    {
        let b0 = written(Self::spec_write_topic(m, version));
        let b1 = written(Self::spec_write_partition_result(m, version));
        let b2 = written(Self::spec_write_tags(m, version));
        let t3 = rest;
        let t2 = b2 + t3;
        let t1 = b1 + t2;
        let t0 = b0 + t1;
        let w0 = Self::spec_write_topic(m, version);
        let w1 = chain(w0, Self::spec_write_partition_result(m, version));
        let w2 = chain(w1, Self::spec_write_tags(m, version));
        assert(Self::spec_write(m, version) == w2);
        assert(written(w2) + t3 =~= written(w1) + t2);
        assert(written(w1) + t2 =~= written(w0) + t1);
        Self::lemma_round_trip_topic(m, version, t1);
        Self::lemma_round_trip_partition_result(m, version, t2);
        Self::lemma_round_trip_tags(m, version, t3);
    }

    /// In a version that does not carry `unknown_tagged_fields`, writing ignores its value.
    pub proof fn lemma_write_ignores_unknown_tagged_fields(m: ReplicaElectionResultView, value: Seq<(u32, Seq<u8>)>, version: i16)
        requires
            !(version >= 2),
        ensures
            Self::spec_write((ReplicaElectionResultView { unknown_tagged_fields: value, ..m }), version) == Self::spec_write(m, version),
    {
        reveal(ReplicaElectionResult::spec_write_topic);
        reveal(ReplicaElectionResult::spec_write_partition_result);
        reveal(ReplicaElectionResult::spec_write_tags);
    }

    /// The default message holds the default value of each field of the schema.
    pub proof fn lemma_default_values()
        ensures
            Self::default_view().topic.len() == 0,
            Self::default_view().partition_result.len() == 0,
            Self::default_view().unknown_tagged_fields.len() == 0,
    {
    }

    /// Whether writing `m` in `version` succeeds, said over its parts: the
    /// version is one the schema covers, every field that the version cannot
    /// carry holds its default value, and every string, byte string, array and
    /// tagged field fits its length prefix.
    pub open spec fn writable(m: ReplicaElectionResultView, version: i16) -> bool {
        &&& m.topic.len() <= 0x7fff
        &&& (m.partition_result.len() <= i32::MAX && all_writable::<PartitionResult>(m.partition_result, version))
        &&& (if version >= 2 {
                m.unknown_tagged_fields.len() <= u32::MAX && tags_fit(m.unknown_tagged_fields)
            } else {
                true
        })
    }

    proof fn lemma_writable_topic(m: ReplicaElectionResultView, version: i16)
        ensures
            Self::spec_write_topic(m, version) is Ok <==> m.topic.len() <= 0x7fff,
    {
        reveal(ReplicaElectionResult::spec_write_topic);
    }

    proof fn lemma_writable_partition_result(m: ReplicaElectionResultView, version: i16)
        ensures
            Self::spec_write_partition_result(m, version) is Ok <==> (m.partition_result.len() <= i32::MAX && all_writable::<PartitionResult>(m.partition_result, version)),
    {
        reveal(ReplicaElectionResult::spec_write_partition_result);
        if version >= 2 {
            lemma_array_writable::<PartitionResult>(m.partition_result, version, true);
        } else {
            lemma_array_writable::<PartitionResult>(m.partition_result, version, false);
        }
    }

    proof fn lemma_writable_tags(m: ReplicaElectionResultView, version: i16)
        ensures
            Self::spec_write_tags(m, version) is Ok <==> (if version >= 2 { m.unknown_tagged_fields.len() <= u32::MAX && tags_fit(m.unknown_tagged_fields) } else { true }),
    {
        reveal(ReplicaElectionResult::spec_write_tags);
        if version >= 2 {
            lemma_sorted_tags_fit(m.unknown_tagged_fields);
            lemma_tagged_fields_writable(sorted_by_tag(m.unknown_tagged_fields));
        }
    }

    /// Writing `m` in `version` succeeds exactly when `m` is writable in it;
    /// so do `write` and `encoded_len`, whose results follow `spec_write`.
    #[verifier::rlimit(48)]
    pub proof fn lemma_writable(m: ReplicaElectionResultView, version: i16)
        ensures
            Self::spec_write(m, version) is Ok <==> Self::writable(m, version),
    {
        Self::lemma_writable_topic(m, version);
        Self::lemma_writable_partition_result(m, version);
        Self::lemma_writable_tags(m, version);
    }

    pub fn with_topic(self, value: KafkaString) -> (r: Self)
        ensures
            r@ == (ReplicaElectionResultView { topic: value@, ..self@ }),
    {
        let mut r = self;
        r.topic = value;
        r
    }

    pub fn with_partition_result(self, value: Vec<PartitionResult>) -> (r: Self)
        ensures
            r@ == (ReplicaElectionResultView { partition_result: views(value@), ..self@ }),
    {
        let mut r = self;
        r.partition_result = value;
        r
    }

    fn read_topic(buf: &mut Bytes, version: i16) -> (r: Result<KafkaString, Error>)
        ensures
            read_as(Self::spec_read_topic(bytes_seq(*old(buf)), version), *final(buf), r),
            took_front(*old(buf), *final(buf)),
    {
        proof {
            reveal(ReplicaElectionResult::spec_read_topic);
        }
        Ok(if version >= 2 {
                read_compact_string(buf)?
            } else {
                read_string(buf)?
        })
    }

    fn read_partition_result(buf: &mut Bytes, version: i16) -> (r: Result<Vec<PartitionResult>, Error>)
        ensures
            read_vec_as(Self::spec_read_partition_result(bytes_seq(*old(buf)), version), *final(buf), r),
            took_front(*old(buf), *final(buf)),
    {
        proof {
            reveal(ReplicaElectionResult::spec_read_partition_result);
        }
        Ok(if version >= 2 {
                read_array::<PartitionResult>(buf, version, true)?
            } else {
                read_array::<PartitionResult>(buf, version, false)?
        })
    }

    fn read_tags(buf: &mut Bytes, version: i16) -> (r: Result<Vec<RawTaggedField>, Error>)
        ensures
            read_vec_as(Self::spec_read_tags(bytes_seq(*old(buf)), version), *final(buf), r),
            took_front(*old(buf), *final(buf)),
    {
        proof {
            reveal(ReplicaElectionResult::spec_read_tags);
        }
        Ok(if version >= 2 {
                read_tagged_fields(buf)?
            } else {
                empty_vec()
        })
    }

    pub fn read(buf: &mut Bytes, version: i16) -> (r: Result<Self, Error>)
        ensures
            read_as(Self::spec_read(bytes_seq(*old(buf)), version), *final(buf), r),
            took_front(*old(buf), *final(buf)),
    {
        let topic = Self::read_topic(buf, version)?;
        let partition_result = Self::read_partition_result(buf, version)?;
        let _unknown_tagged_fields = Self::read_tags(buf, version)?;
        Ok(ReplicaElectionResult {
                topic: topic,
                partition_result: partition_result,
                _unknown_tagged_fields: _unknown_tagged_fields,
        })
    }

    #[verifier::rlimit(60)]
    pub fn write(&self, buf: &mut BytesMut, version: i16) -> (r: Result<(), Error>)
        requires
            has_room(Self::spec_write(self@, version), *old(buf)),
        ensures
            wrote(Self::spec_write(self@, version), *old(buf), *final(buf), r),
    {
        let ghost m = self@;
        proof {
            reveal(ReplicaElectionResult::spec_write_topic);
            reveal(ReplicaElectionResult::spec_write_partition_result);
            reveal(ReplicaElectionResult::spec_write_tags);
        }
        let ghost s0 = Self::spec_write_topic(m, version);
        let ghost w0 = s0;
        let ghost s1 = Self::spec_write_partition_result(m, version);
        let ghost w1 = chain(w0, s1);
        let ghost s2 = Self::spec_write_tags(m, version);
        let ghost w2 = chain(w1, s2);
        assert(Self::spec_write(m, version) == w2);
        assert(written(w1).len() <= written(w2).len() && (w1 is Err ==> w2 == w1));
        assert(written(w0).len() <= written(w2).len() && (w0 is Err ==> w2 == w0));
        let ghost mid = bytes_mut_seq(*buf);
        proof {
            lemma_append_empty(mid);
        }
        let r0 = if version >= 2 {
            write_compact_string(buf, &self.topic)
        } else {
            write_string(buf, &self.topic)
        };
        assert(bytes_mut_seq(*buf) == mid + written(s0));
        if r0.is_err() {
            return r0;
        }
        let ghost mid = bytes_mut_seq(*buf);
        proof {
            lemma_append_empty(mid);
        }
        let r1 = if version >= 2 {
            write_array::<PartitionResult>(buf, &self.partition_result, version, true)
        } else {
            write_array::<PartitionResult>(buf, &self.partition_result, version, false)
        };
        assert(bytes_mut_seq(*buf) == mid + written(s1));
        proof {
            lemma_step(bytes_mut_seq(*old(buf)), w0, s1);
        }
        if r1.is_err() {
            return r1;
        }
        let ghost mid = bytes_mut_seq(*buf);
        proof {
            lemma_append_empty(mid);
        }
        let r2 = if version >= 2 {
            write_tagged_fields(buf, &sort_by_tag(&self._unknown_tagged_fields))
        } else {
            Ok(())
        };
        assert(bytes_mut_seq(*buf) == mid + written(s2));
        proof {
            lemma_step(bytes_mut_seq(*old(buf)), w1, s2);
        }
        if r2.is_err() {
            return r2;
        }
        Ok(())
    }

    #[verifier::rlimit(60)]
    pub fn encoded_len(&self, version: i16) -> (r: Result<usize, Error>)
        ensures
            r == len_result(Self::spec_write(self@, version)),
    {
        let ghost m = self@;
        proof {
            reveal(ReplicaElectionResult::spec_write_topic);
            reveal(ReplicaElectionResult::spec_write_partition_result);
            reveal(ReplicaElectionResult::spec_write_tags);
        }
        let ghost s0 = Self::spec_write_topic(m, version);
        let ghost w0 = s0;
        let ghost s1 = Self::spec_write_partition_result(m, version);
        let ghost w1 = chain(w0, s1);
        let ghost s2 = Self::spec_write_tags(m, version);
        let ghost w2 = chain(w1, s2);
        assert(Self::spec_write(m, version) == w2);
        assert(w1 is Err ==> w2 == w1);
        assert(w0 is Err ==> w2 == w0);
        let mut len: usize = 0;
        let l0 = if version >= 2 {
            compact_string_len(&self.topic)
        } else {
            string_len(&self.topic)
        };
        assert(l0 == len_result(s0));
        let n0 = match l0 {
            Ok(n) => n,
            Err(e) => {
                return Err(e);
            },
        };
        len = saturating_sum(len, n0);
        assert(w0 is Ok && len == saturate(written(w0).len() as int));
        let l1 = if version >= 2 {
            array_len::<PartitionResult>(&self.partition_result, version, true)
        } else {
            array_len::<PartitionResult>(&self.partition_result, version, false)
        };
        assert(l1 == len_result(s1));
        let n1 = match l1 {
            Ok(n) => n,
            Err(e) => {
                return Err(e);
            },
        };
        proof {
            lemma_len_step(w0, s1, n1);
        }
        len = saturating_sum(len, n1);
        assert(w1 is Ok && len == saturate(written(w1).len() as int));
        let l2 = if version >= 2 {
            tagged_fields_len(&sort_by_tag(&self._unknown_tagged_fields))
        } else {
            Ok(0)
        };
        assert(l2 == len_result(s2));
        let n2 = match l2 {
            Ok(n) => n,
            Err(e) => {
                return Err(e);
            },
        };
        proof {
            lemma_len_step(w1, s2, n2);
        }
        len = saturating_sum(len, n2);
        assert(w2 is Ok && len == saturate(written(w2).len() as int));
        Ok(len)
    }
}

#[derive(Debug, PartialEq)]
pub struct PartitionResult {
    /// The partition id.
    pub partition_id: i32,
    /// The result error, or zero if there was no error.
    pub error_code: i16,
    /// The result message, or null if there was no error.
    pub error_message: Option<KafkaString>,
    pub _unknown_tagged_fields: Vec<RawTaggedField>,
}

/// What a `PartitionResult` holds, as the specification sees it.
#[verifier::ext_equal]
pub struct PartitionResultView {
    pub partition_id: i32,
    pub error_code: i16,
    pub error_message: Option<Seq<u8>>,
    pub unknown_tagged_fields: Seq<(u32, Seq<u8>)>,
}

impl View for PartitionResult {
    type V = PartitionResultView;

    open spec fn view(&self) -> PartitionResultView {
        PartitionResultView {
            partition_id: self.partition_id,
            error_code: self.error_code,
            error_message: opt_view(self.error_message),
            unknown_tagged_fields: views(self._unknown_tagged_fields@),
        }
    }
}

impl Clone for PartitionResult {
    fn clone(&self) -> (r: Self)
        ensures
            r@ == self@,
    {
        let r = PartitionResult {
            partition_id: self.partition_id,
            error_code: self.error_code,
            error_message: match &self.error_message {
                Some(x) => Some(x.clone()),
                None => None,
            },
            _unknown_tagged_fields: clone_vec(&self._unknown_tagged_fields),
        };
        assert(r@ =~= self@);
        r
    }
}

impl ViewClone for PartitionResult {
    fn clone_view(&self) -> (r: Self) {
        self.clone()
    }
}

impl Default for PartitionResult {
    fn default() -> (r: Self)
        ensures
            r@ == Self::default_view(),
    {
        let r = PartitionResult {
            partition_id: 0_i32,
            error_code: 0_i16,
            error_message: None,
            _unknown_tagged_fields: empty_vec(),
        };
        assert(r@ =~= Self::default_view());
        r
    }
}

impl PartitionResult {
    pub open spec fn default_view() -> PartitionResultView {
        PartitionResultView {
            partition_id: 0_i32,
            error_code: 0_i16,
            error_message: None,
            unknown_tagged_fields: Seq::empty(),
        }
    }

    /// The `partition_id` field, read from the front of `s`.
    #[verifier::opaque]
    pub open spec fn spec_read_partition_id(s: Seq<u8>, version: i16) -> ReadOutcome<i32> {
        spec_read_i32(s)
    }

    /// The `error_code` field, read from the front of `s`.
    #[verifier::opaque]
    pub open spec fn spec_read_error_code(s: Seq<u8>, version: i16) -> ReadOutcome<i16> {
        spec_read_i16(s)
    }

    /// The `error_message` field, read from the front of `s`.
    #[verifier::opaque]
    pub open spec fn spec_read_error_message(s: Seq<u8>, version: i16) -> ReadOutcome<Option<Seq<u8>>> {
        if version >= 2 {
            spec_read_compact_nullable_string(s)
        } else {
            spec_read_nullable_string(s)
        }
    }

    /// The tagged fields, read from the front of `s`.
    #[verifier::opaque]
    pub open spec fn spec_read_tags(s: Seq<u8>, version: i16) -> ReadOutcome<Seq<(u32, Seq<u8>)>> {
        if version >= 2 {
            spec_read_tagged_fields(s)
        } else {
            Ok((Seq::empty(), s))
        }
    }

    pub open spec fn spec_read(s: Seq<u8>, version: i16) -> ReadOutcome<PartitionResultView> {
        match (Self::spec_read_partition_id(s, version)) {
            Err(e) => Err(e),
            Ok((partition_id, s)) => match (Self::spec_read_error_code(s, version)) {
                Err(e) => Err(e),
                Ok((error_code, s)) => match (Self::spec_read_error_message(s, version)) {
                    Err(e) => Err(e),
                    Ok((error_message, s)) => match (Self::spec_read_tags(s, version)) {
                        Err(e) => Err(e),
                        Ok((unknown_tagged_fields, s)) => Ok((PartitionResultView {
                                    partition_id: partition_id,
                                    error_code: error_code,
                                    error_message: error_message,
                                    unknown_tagged_fields: unknown_tagged_fields,
                                }, s)),
                    },
                },
            },
        }
    }

    /// What writing the `partition_id` field of `m` appends.
    #[verifier::opaque]
    pub open spec fn spec_write_partition_id(m: PartitionResultView, version: i16) -> WriteOutcome {
        spec_write_i32(m.partition_id)
    }

    /// What writing the `error_code` field of `m` appends.
    #[verifier::opaque]
    pub open spec fn spec_write_error_code(m: PartitionResultView, version: i16) -> WriteOutcome {
        spec_write_i16(m.error_code)
    }

    /// What writing the `error_message` field of `m` appends.
    #[verifier::opaque]
    pub open spec fn spec_write_error_message(m: PartitionResultView, version: i16) -> WriteOutcome {
        if version >= 2 {
            spec_write_compact_nullable_string(m.error_message)
        } else {
            spec_write_nullable_string(m.error_message)
        }
    }

    /// What writing the tagged fields of `m` appends.
    #[verifier::opaque]
    pub open spec fn spec_write_tags(m: PartitionResultView, version: i16) -> WriteOutcome {
        if version >= 2 {
            spec_write_tagged_fields(sorted_by_tag(m.unknown_tagged_fields))
        } else {
            emit(Seq::empty())
        }
    }

    pub open spec fn spec_write(m: PartitionResultView, version: i16) -> WriteOutcome {
        chain(
            chain(
                chain(
                    Self::spec_write_partition_id(m, version),
                    Self::spec_write_error_code(m, version),
                ),
                Self::spec_write_error_message(m, version),
            ),
            Self::spec_write_tags(m, version),
        )
    }

    /// Whether reading back what writing `m` in `version` appends gives `m`:
    /// fields that the version does not carry hold their default values, and
    /// tagged fields come in the order in which they are written.
    pub open spec fn canonical(m: PartitionResultView, version: i16) -> bool {
        &&& (if version >= 2 {
                tags_in_order(m.unknown_tagged_fields)
            } else {
                m.unknown_tagged_fields.len() == 0
        })
    }

    proof fn lemma_round_trip_partition_id(m: PartitionResultView, version: i16, rest: Seq<u8>)
        requires
            Self::canonical(m, version),
            Self::spec_write_partition_id(m, version) is Ok,
        ensures
            Self::spec_read_partition_id(written(Self::spec_write_partition_id(m, version)) + rest, version) == Ok::<(i32, Seq<u8>), Error>((m.partition_id, rest)),
    {
        reveal(PartitionResult::spec_read_partition_id);
        reveal(PartitionResult::spec_write_partition_id);
        lemma_i32_roundtrip(m.partition_id, rest);
    }

    proof fn lemma_round_trip_error_code(m: PartitionResultView, version: i16, rest: Seq<u8>)
        requires
            Self::canonical(m, version),
            Self::spec_write_error_code(m, version) is Ok,
        ensures
            Self::spec_read_error_code(written(Self::spec_write_error_code(m, version)) + rest, version) == Ok::<(i16, Seq<u8>), Error>((m.error_code, rest)),
    {
        reveal(PartitionResult::spec_read_error_code);
        reveal(PartitionResult::spec_write_error_code);
        lemma_i16_roundtrip(m.error_code, rest);
    }

    proof fn lemma_round_trip_error_message(m: PartitionResultView, version: i16, rest: Seq<u8>)
        requires
            Self::canonical(m, version),
            Self::spec_write_error_message(m, version) is Ok,
        ensures
            Self::spec_read_error_message(written(Self::spec_write_error_message(m, version)) + rest, version) == Ok::<(Option<Seq<u8>>, Seq<u8>), Error>((m.error_message, rest)),
    {
        reveal(PartitionResult::spec_read_error_message);
        reveal(PartitionResult::spec_write_error_message);
        if version >= 2 {
            lemma_compact_nullable_string_round_trip(m.error_message, rest);
        } else {
            lemma_nullable_string_round_trip(m.error_message, rest);
        }
    }

    proof fn lemma_round_trip_tags(m: PartitionResultView, version: i16, rest: Seq<u8>)
        requires
            Self::canonical(m, version),
            Self::spec_write_tags(m, version) is Ok,
        ensures
            Self::spec_read_tags(written(Self::spec_write_tags(m, version)) + rest, version) == Ok::<(Seq<(u32, Seq<u8>)>, Seq<u8>), Error>((m.unknown_tagged_fields, rest)),
    {
        reveal(PartitionResult::spec_read_tags);
        reveal(PartitionResult::spec_write_tags);
        if version >= 2 {
            lemma_sorted_by_tag_in_order(m.unknown_tagged_fields);
            lemma_tagged_fields_round_trip(m.unknown_tagged_fields, rest);
        } else {
            assert(Seq::<u8>::empty() + rest =~= rest);
            assert(m.unknown_tagged_fields =~= Seq::empty());
        }
    }

    /// Reading back what writing `m` in `version` appends gives `m` again, and
    /// leaves what follows, for every canonical message whose write succeeds.
    #[verifier::rlimit(80)]
    #[verifier::spinoff_prover]
    pub proof fn lemma_round_trip(m: PartitionResultView, version: i16, rest: Seq<u8>)
        requires
            Self::canonical(m, version),
            Self::spec_write(m, version) is Ok,
        ensures
            Self::spec_read(written(Self::spec_write(m, version)) + rest, version) == Ok::<(PartitionResultView, Seq<u8>), Error>((m, rest)),
    {
        let b0 = written(Self::spec_write_partition_id(m, version));
        let b1 = written(Self::spec_write_error_code(m, version));
        let b2 = written(Self::spec_write_error_message(m, version));
        let b3 = written(Self::spec_write_tags(m, version));
        let t4 = rest;
        let t3 = b3 + t4;
        let t2 = b2 + t3;
        let t1 = b1 + t2;
        let t0 = b0 + t1;
        let w0 = Self::spec_write_partition_id(m, version);
        let w1 = chain(w0, Self::spec_write_error_code(m, version));
        let w2 = chain(w1, Self::spec_write_error_message(m, version));
        let w3 = chain(w2, Self::spec_write_tags(m, version));
        assert(Self::spec_write(m, version) == w3);
        assert(written(w3) + t4 =~= written(w2) + t3);
        assert(written(w2) + t3 =~= written(w1) + t2);
        assert(written(w1) + t2 =~= written(w0) + t1);
        Self::lemma_round_trip_partition_id(m, version, t1);
        Self::lemma_round_trip_error_code(m, version, t2);
        Self::lemma_round_trip_error_message(m, version, t3);
        Self::lemma_round_trip_tags(m, version, t4);
    }

    /// In a version that does not carry `unknown_tagged_fields`, writing ignores its value.
    pub proof fn lemma_write_ignores_unknown_tagged_fields(m: PartitionResultView, value: Seq<(u32, Seq<u8>)>, version: i16)
        requires
            !(version >= 2),
        ensures
            Self::spec_write((PartitionResultView { unknown_tagged_fields: value, ..m }), version) == Self::spec_write(m, version),
    {
        reveal(PartitionResult::spec_write_partition_id);
        reveal(PartitionResult::spec_write_error_code);
        reveal(PartitionResult::spec_write_error_message);
        reveal(PartitionResult::spec_write_tags);
    }

    /// The default message holds the default value of each field of the schema.
    pub proof fn lemma_default_values()
        ensures
            Self::default_view().partition_id == (0_i32),
            Self::default_view().error_code == (0_i16),
            (Self::default_view().error_message is None),
            Self::default_view().unknown_tagged_fields.len() == 0,
    {
    }

    /// Each integer, boolean and identifier field is written as its standard
    /// big-endian bytes (a boolean as `1` or `0`) in the versions that carry
    /// it, and as nothing in the others; reading it takes those bytes back (any
    /// byte other than `0` reads as `true`), or gives its default value.
    pub proof fn lemma_field_encodings(m: PartitionResultView, s: Seq<u8>, version: i16)
        ensures
            true ==> Self::spec_write_partition_id(m, version) == Ok::<Seq<u8>, (Error, Seq<u8>)>(u32_bytes(m.partition_id as u32)),
            true ==> Self::spec_write_error_code(m, version) == Ok::<Seq<u8>, (Error, Seq<u8>)>(u16_bytes(m.error_code as u16)),
            true ==> Self::spec_read_partition_id(s, version) == spec_read_i32(s),
            true ==> Self::spec_read_error_code(s, version) == spec_read_i16(s),
    {
        reveal(PartitionResult::spec_write_partition_id);
        reveal(PartitionResult::spec_read_partition_id);
        reveal(PartitionResult::spec_write_error_code);
        reveal(PartitionResult::spec_read_error_code);
    }

    /// Whether writing `m` in `version` succeeds, said over its parts: the
    /// version is one the schema covers, every field that the version cannot
    /// carry holds its default value, and every string, byte string, array and
    /// tagged field fits its length prefix.
    pub open spec fn writable(m: PartitionResultView, version: i16) -> bool {
        &&& (m.error_message matches Some(b) ==> b.len() <= 0x7fff)
        &&& (if version >= 2 {
                m.unknown_tagged_fields.len() <= u32::MAX && tags_fit(m.unknown_tagged_fields)
            } else {
                true
        })
    }

    proof fn lemma_writable_partition_id(m: PartitionResultView, version: i16)
        ensures
            Self::spec_write_partition_id(m, version) is Ok <==> true,
    {
        reveal(PartitionResult::spec_write_partition_id);
    }

    proof fn lemma_writable_error_code(m: PartitionResultView, version: i16)
        ensures
            Self::spec_write_error_code(m, version) is Ok <==> true,
    {
        reveal(PartitionResult::spec_write_error_code);
    }

    proof fn lemma_writable_error_message(m: PartitionResultView, version: i16)
        ensures
            Self::spec_write_error_message(m, version) is Ok <==> (m.error_message matches Some(b) ==> b.len() <= 0x7fff),
    {
        reveal(PartitionResult::spec_write_error_message);
    }

    proof fn lemma_writable_tags(m: PartitionResultView, version: i16)
        ensures
            Self::spec_write_tags(m, version) is Ok <==> (if version >= 2 { m.unknown_tagged_fields.len() <= u32::MAX && tags_fit(m.unknown_tagged_fields) } else { true }),
    {
        reveal(PartitionResult::spec_write_tags);
        if version >= 2 {
            lemma_sorted_tags_fit(m.unknown_tagged_fields);
            lemma_tagged_fields_writable(sorted_by_tag(m.unknown_tagged_fields));
        }
    }

    /// Writing `m` in `version` succeeds exactly when `m` is writable in it;
    /// so do `write` and `encoded_len`, whose results follow `spec_write`.
    #[verifier::rlimit(54)]
    pub proof fn lemma_writable(m: PartitionResultView, version: i16)
        ensures
            Self::spec_write(m, version) is Ok <==> Self::writable(m, version),
    {
        Self::lemma_writable_partition_id(m, version);
        Self::lemma_writable_error_code(m, version);
        Self::lemma_writable_error_message(m, version);
        Self::lemma_writable_tags(m, version);
    }

    pub fn with_partition_id(self, value: i32) -> (r: Self)
        ensures
            r@ == (PartitionResultView { partition_id: value, ..self@ }),
    {
        let mut r = self;
        r.partition_id = value;
        r
    }

    pub fn with_error_code(self, value: i16) -> (r: Self)
        ensures
            r@ == (PartitionResultView { error_code: value, ..self@ }),
    {
        let mut r = self;
        r.error_code = value;
        r
    }

    pub fn with_error_message(self, value: Option<KafkaString>) -> (r: Self)
        ensures
            r@ == (PartitionResultView { error_message: opt_view(value), ..self@ }),
    {
        let mut r = self;
        r.error_message = value;
        r
    }

    fn read_partition_id(buf: &mut Bytes, version: i16) -> (r: Result<i32, Error>)
        ensures
            read_as(Self::spec_read_partition_id(bytes_seq(*old(buf)), version), *final(buf), r),
            took_front(*old(buf), *final(buf)),
    {
        proof {
            reveal(PartitionResult::spec_read_partition_id);
        }
        Ok(read_i32(buf)?)
    }

    fn read_error_code(buf: &mut Bytes, version: i16) -> (r: Result<i16, Error>)
        ensures
            read_as(Self::spec_read_error_code(bytes_seq(*old(buf)), version), *final(buf), r),
            took_front(*old(buf), *final(buf)),
    {
        proof {
            reveal(PartitionResult::spec_read_error_code);
        }
        Ok(read_i16(buf)?)
    }

    fn read_error_message(buf: &mut Bytes, version: i16) -> (r: Result<Option<KafkaString>, Error>)
        ensures
            read_opt_as(Self::spec_read_error_message(bytes_seq(*old(buf)), version), *final(buf), r),
            took_front(*old(buf), *final(buf)),
    {
        proof {
            reveal(PartitionResult::spec_read_error_message);
        }
        Ok(if version >= 2 {
                read_compact_nullable_string(buf)?
            } else {
                read_nullable_string(buf)?
        })
    }

    fn read_tags(buf: &mut Bytes, version: i16) -> (r: Result<Vec<RawTaggedField>, Error>)
        ensures
            read_vec_as(Self::spec_read_tags(bytes_seq(*old(buf)), version), *final(buf), r),
            took_front(*old(buf), *final(buf)),
    {
        proof {
            reveal(PartitionResult::spec_read_tags);
        }
        Ok(if version >= 2 {
                read_tagged_fields(buf)?
            } else {
                empty_vec()
        })
    }

    pub fn read(buf: &mut Bytes, version: i16) -> (r: Result<Self, Error>)
        ensures
            read_as(Self::spec_read(bytes_seq(*old(buf)), version), *final(buf), r),
            took_front(*old(buf), *final(buf)),
    {
        let partition_id = Self::read_partition_id(buf, version)?;
        let error_code = Self::read_error_code(buf, version)?;
        let error_message = Self::read_error_message(buf, version)?;
        let _unknown_tagged_fields = Self::read_tags(buf, version)?;
        Ok(PartitionResult {
                partition_id: partition_id,
                error_code: error_code,
                error_message: error_message,
                _unknown_tagged_fields: _unknown_tagged_fields,
        })
    }

    #[verifier::rlimit(70)]
    pub fn write(&self, buf: &mut BytesMut, version: i16) -> (r: Result<(), Error>)
        requires
            has_room(Self::spec_write(self@, version), *old(buf)),
        ensures
            wrote(Self::spec_write(self@, version), *old(buf), *final(buf), r),
    {
        let ghost m = self@;
        proof {
            reveal(PartitionResult::spec_write_partition_id);
            reveal(PartitionResult::spec_write_error_code);
            reveal(PartitionResult::spec_write_error_message);
            reveal(PartitionResult::spec_write_tags);
        }
        let ghost s0 = Self::spec_write_partition_id(m, version);
        let ghost w0 = s0;
        let ghost s1 = Self::spec_write_error_code(m, version);
        let ghost w1 = chain(w0, s1);
        let ghost s2 = Self::spec_write_error_message(m, version);
        let ghost w2 = chain(w1, s2);
        let ghost s3 = Self::spec_write_tags(m, version);
        let ghost w3 = chain(w2, s3);
        assert(Self::spec_write(m, version) == w3);
        assert(written(w2).len() <= written(w3).len() && (w2 is Err ==> w3 == w2));
        assert(written(w1).len() <= written(w3).len() && (w1 is Err ==> w3 == w1));
        assert(written(w0).len() <= written(w3).len() && (w0 is Err ==> w3 == w0));
        let ghost mid = bytes_mut_seq(*buf);
        proof {
            lemma_append_empty(mid);
        }
        let r0 = {
            write_i32(buf, self.partition_id);
            Ok(())
        };
        assert(bytes_mut_seq(*buf) == mid + written(s0));
        if r0.is_err() {
            return r0;
        }
        let ghost mid = bytes_mut_seq(*buf);
        proof {
            lemma_append_empty(mid);
        }
        let r1 = {
            write_i16(buf, self.error_code);
            Ok(())
        };
        assert(bytes_mut_seq(*buf) == mid + written(s1));
        proof {
            lemma_step(bytes_mut_seq(*old(buf)), w0, s1);
        }
        if r1.is_err() {
            return r1;
        }
        let ghost mid = bytes_mut_seq(*buf);
        proof {
            lemma_append_empty(mid);
        }
        let r2 = if version >= 2 {
            write_compact_nullable_string(buf, &self.error_message)
        } else {
            write_nullable_string(buf, &self.error_message)
        };
        assert(bytes_mut_seq(*buf) == mid + written(s2));
        proof {
            lemma_step(bytes_mut_seq(*old(buf)), w1, s2);
        }
        if r2.is_err() {
            return r2;
        }
        let ghost mid = bytes_mut_seq(*buf);
        proof {
            lemma_append_empty(mid);
        }
        let r3 = if version >= 2 {
            write_tagged_fields(buf, &sort_by_tag(&self._unknown_tagged_fields))
        } else {
            Ok(())
        };
        assert(bytes_mut_seq(*buf) == mid + written(s3));
        proof {
            lemma_step(bytes_mut_seq(*old(buf)), w2, s3);
        }
        if r3.is_err() {
            return r3;
        }
        Ok(())
    }

    #[verifier::rlimit(70)]
    pub fn encoded_len(&self, version: i16) -> (r: Result<usize, Error>)
        ensures
            r == len_result(Self::spec_write(self@, version)),
    {
        let ghost m = self@;
        proof {
            reveal(PartitionResult::spec_write_partition_id);
            reveal(PartitionResult::spec_write_error_code);
            reveal(PartitionResult::spec_write_error_message);
            reveal(PartitionResult::spec_write_tags);
        }
        let ghost s0 = Self::spec_write_partition_id(m, version);
        let ghost w0 = s0;
        let ghost s1 = Self::spec_write_error_code(m, version);
        let ghost w1 = chain(w0, s1);
        let ghost s2 = Self::spec_write_error_message(m, version);
        let ghost w2 = chain(w1, s2);
        let ghost s3 = Self::spec_write_tags(m, version);
        let ghost w3 = chain(w2, s3);
        assert(Self::spec_write(m, version) == w3);
        assert(w2 is Err ==> w3 == w2);
        assert(w1 is Err ==> w3 == w1);
        assert(w0 is Err ==> w3 == w0);
        let mut len: usize = 0;
        let l0 = Ok(4);
        assert(l0 == len_result(s0));
        let n0 = match l0 {
            Ok(n) => n,
            Err(e) => {
                return Err(e);
            },
        };
        len = saturating_sum(len, n0);
        assert(w0 is Ok && len == saturate(written(w0).len() as int));
        let l1 = Ok(2);
        assert(l1 == len_result(s1));
        let n1 = match l1 {
            Ok(n) => n,
            Err(e) => {
                return Err(e);
            },
        };
        proof {
            lemma_len_step(w0, s1, n1);
        }
        len = saturating_sum(len, n1);
        assert(w1 is Ok && len == saturate(written(w1).len() as int));
        let l2 = if version >= 2 {
            compact_nullable_string_len(&self.error_message)
        } else {
            nullable_string_len(&self.error_message)
        };
        assert(l2 == len_result(s2));
        let n2 = match l2 {
            Ok(n) => n,
            Err(e) => {
                return Err(e);
            },
        };
        proof {
            lemma_len_step(w1, s2, n2);
        }
        len = saturating_sum(len, n2);
        assert(w2 is Ok && len == saturate(written(w2).len() as int));
        let l3 = if version >= 2 {
            tagged_fields_len(&sort_by_tag(&self._unknown_tagged_fields))
        } else {
            Ok(0)
        };
        assert(l3 == len_result(s3));
        let n3 = match l3 {
            Ok(n) => n,
            Err(e) => {
                return Err(e);
            },
        };
        proof {
            lemma_len_step(w2, s3, n3);
        }
        len = saturating_sum(len, n3);
        assert(w3 is Ok && len == saturate(written(w3).len() as int));
        Ok(len)
    }
}

impl Codec for ReplicaElectionResult {
    type Item = ReplicaElectionResult;

    open spec fn spec_read_item(s: Seq<u8>, version: i16) -> ReadOutcome<ReplicaElectionResultView> {
        ReplicaElectionResult::spec_read(s, version)
    }

    open spec fn spec_write_item(v: ReplicaElectionResultView, version: i16) -> WriteOutcome {
        ReplicaElectionResult::spec_write(v, version)
    }

    open spec fn canonical_item(v: ReplicaElectionResultView, version: i16) -> bool {
        ReplicaElectionResult::canonical(v, version)
    }

    proof fn lemma_item_round_trip(v: ReplicaElectionResultView, version: i16, rest: Seq<u8>) {
        ReplicaElectionResult::lemma_round_trip(v, version, rest);
    }

    open spec fn writable_item(v: ReplicaElectionResultView, version: i16) -> bool {
        ReplicaElectionResult::writable(v, version)
    }

    proof fn lemma_item_writable(v: ReplicaElectionResultView, version: i16) {
        ReplicaElectionResult::lemma_writable(v, version);
    }

    fn read_item(buf: &mut Bytes, version: i16) -> (r: Result<ReplicaElectionResult, Error>) {
        ReplicaElectionResult::read(buf, version)
    }

    fn write_item(item: &ReplicaElectionResult, buf: &mut BytesMut, version: i16) -> (r: Result<(), Error>) {
        item.write(buf, version)
    }
}

impl MeasuredCodec for ReplicaElectionResult {
    fn item_len(item: &ReplicaElectionResult, version: i16) -> (r: Result<usize, Error>) {
        item.encoded_len(version)
    }
}

impl Codec for PartitionResult {
    type Item = PartitionResult;

    open spec fn spec_read_item(s: Seq<u8>, version: i16) -> ReadOutcome<PartitionResultView> {
        PartitionResult::spec_read(s, version)
    }

    open spec fn spec_write_item(v: PartitionResultView, version: i16) -> WriteOutcome {
        PartitionResult::spec_write(v, version)
    }

    open spec fn canonical_item(v: PartitionResultView, version: i16) -> bool {
        PartitionResult::canonical(v, version)
    }

    proof fn lemma_item_round_trip(v: PartitionResultView, version: i16, rest: Seq<u8>) {
        PartitionResult::lemma_round_trip(v, version, rest);
    }

    open spec fn writable_item(v: PartitionResultView, version: i16) -> bool {
        PartitionResult::writable(v, version)
    }

    proof fn lemma_item_writable(v: PartitionResultView, version: i16) {
        PartitionResult::lemma_writable(v, version);
    }

    fn read_item(buf: &mut Bytes, version: i16) -> (r: Result<PartitionResult, Error>) {
        PartitionResult::read(buf, version)
    }

    fn write_item(item: &PartitionResult, buf: &mut BytesMut, version: i16) -> (r: Result<(), Error>) {
        item.write(buf, version)
    }
}

impl MeasuredCodec for PartitionResult {
    fn item_len(item: &PartitionResult, version: i16) -> (r: Result<usize, Error>) {
        item.encoded_len(version)
    }
}

} // verus!
