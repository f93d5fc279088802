//! The describe log dirs response message.
use crate::buffer::{bytes_mut_seq, bytes_seq};
use crate::codec::{Codec, MeasuredCodec, all_canonical, all_writable, array_len, lemma_array_round_trip, lemma_array_writable, read_array, saturating_sum, spec_read_array, spec_write_array, write_array};
use crate::error::{Error, UnsupportedFieldVersion, UnsupportedVersion};
use crate::ints::{lemma_bool_roundtrip, lemma_i16_roundtrip, lemma_i32_roundtrip, lemma_i64_roundtrip, read_bool, read_i16, read_i32, read_i64, spec_read_bool, spec_read_i16, spec_read_i32, spec_read_i64, spec_write_bool, spec_write_i16, spec_write_i32, spec_write_i64, u16_bytes, u32_bytes, u64_bytes, write_bool, write_i16, write_i32, write_i64};
use crate::strings::{compact_string_len, lemma_compact_string_round_trip, lemma_string_round_trip, read_compact_string, read_string, spec_read_compact_string, spec_read_string, spec_write_compact_string, spec_write_string, string_len, write_compact_string, write_string};
use crate::tagged::{lemma_sorted_by_tag_in_order, lemma_sorted_tags_fit, lemma_tagged_fields_round_trip, lemma_tagged_fields_writable, read_tagged_fields, sort_by_tag, sorted_by_tag, spec_read_tagged_fields, spec_write_tagged_fields, tagged_fields_len, tags_fit, tags_in_order, write_tagged_fields};
use crate::types::{KafkaString, RawTaggedField};
use crate::wire::{ReadOutcome, ViewClone, WriteOutcome, chain, clone_vec, emit, empty_vec, fail, has_room, lemma_append_empty, lemma_chain_written, lemma_len_step, lemma_step, len_result, read_as, read_vec_as, saturate, took_front, views, written, wrote};
use bytes::{Bytes, BytesMut};
use vstd::prelude::*;

verus! {

broadcast use {crate::wire::lemma_chain_written, crate::wire::lemma_took_front_nothing, crate::wire::lemma_took_front_twice};

#[derive(Debug, PartialEq)]
pub struct DescribeLogDirsResponseData {
    /// The duration in milliseconds for which the request was throttled due to a quota violation,
    /// or zero if the request did not violate any quota.
    pub throttle_time_ms: i32,
    /// The error code, or 0 if there was no error.
    pub error_code: i16,
    /// The log directories.
    pub results: Vec<DescribeLogDirsResult>,
    pub _unknown_tagged_fields: Vec<RawTaggedField>,
}

/// What a `DescribeLogDirsResponseData` holds, as the specification sees it.
#[verifier::ext_equal]
pub struct DescribeLogDirsResponseDataView {
    pub throttle_time_ms: i32,
    pub error_code: i16,
    pub results: Seq<DescribeLogDirsResultView>,
    pub unknown_tagged_fields: Seq<(u32, Seq<u8>)>,
}

impl View for DescribeLogDirsResponseData {
    type V = DescribeLogDirsResponseDataView;

    open spec fn view(&self) -> DescribeLogDirsResponseDataView {
        DescribeLogDirsResponseDataView {
            throttle_time_ms: self.throttle_time_ms,
            error_code: self.error_code,
            results: views(self.results@),
            unknown_tagged_fields: views(self._unknown_tagged_fields@),
        }
    }
}

impl Clone for DescribeLogDirsResponseData {
    fn clone(&self) -> (r: Self)
        ensures
            r@ == self@,
    {
        let r = DescribeLogDirsResponseData {
            throttle_time_ms: self.throttle_time_ms,
            error_code: self.error_code,
            results: clone_vec(&self.results),
            _unknown_tagged_fields: clone_vec(&self._unknown_tagged_fields),
        };
        assert(r@ =~= self@);
        r
    }
}

impl ViewClone for DescribeLogDirsResponseData {
    fn clone_view(&self) -> (r: Self) {
        self.clone()
    }
}

impl Default for DescribeLogDirsResponseData {
    fn default() -> (r: Self)
        ensures
            r@ == Self::default_view(),
    {
        let r = DescribeLogDirsResponseData {
            throttle_time_ms: 0_i32,
            error_code: 0_i16,
            results: empty_vec(),
            _unknown_tagged_fields: empty_vec(),
        };
        assert(r@ =~= Self::default_view());
        r
    }
}

impl DescribeLogDirsResponseData {
    pub open spec fn default_view() -> DescribeLogDirsResponseDataView {
        DescribeLogDirsResponseDataView {
            throttle_time_ms: 0_i32,
            error_code: 0_i16,
            results: Seq::empty(),
            unknown_tagged_fields: Seq::empty(),
        }
    }

    /// The `throttle_time_ms` field, read from the front of `s`.
    #[verifier::opaque]
    pub open spec fn spec_read_throttle_time_ms(s: Seq<u8>, version: i16) -> ReadOutcome<i32> {
        spec_read_i32(s)
    }

    /// The `error_code` field, read from the front of `s`.
    #[verifier::opaque]
    pub open spec fn spec_read_error_code(s: Seq<u8>, version: i16) -> ReadOutcome<i16> {
        if version >= 3 {
            spec_read_i16(s)
        } else {
            Ok((0_i16, s))
        }
    }

    /// The `results` field, read from the front of `s`.
    #[verifier::opaque]
    pub open spec fn spec_read_results(s: Seq<u8>, version: i16) -> ReadOutcome<Seq<DescribeLogDirsResultView>> {
        if version >= 2 {
            spec_read_array::<DescribeLogDirsResult>(s, version, true)
        } else {
            spec_read_array::<DescribeLogDirsResult>(s, version, false)
        }
    }

    /// The tagged fields, read from the front of `s`.
    #[verifier::opaque]
    pub open spec fn spec_read_tags(s: Seq<u8>, version: i16) -> ReadOutcome<Seq<(u32, Seq<u8>)>> {
        if version >= 2 {
            spec_read_tagged_fields(s)
        } else {
            Ok((Seq::empty(), s))
        }
    }

    pub open spec fn spec_read(s: Seq<u8>, version: i16) -> ReadOutcome<DescribeLogDirsResponseDataView> {
        if version < 1 || version > 5 {
            Err(Error::UnsupportedVersion(UnsupportedVersion { api_key: 35, version }))
        } else {
            match (Self::spec_read_throttle_time_ms(s, version)) {
                Err(e) => Err(e),
                Ok((throttle_time_ms, s)) => match (Self::spec_read_error_code(s, version)) {
                    Err(e) => Err(e),
                    Ok((error_code, s)) => match (Self::spec_read_results(s, version)) {
                        Err(e) => Err(e),
                        Ok((results, s)) => match (Self::spec_read_tags(s, version)) {
                            Err(e) => Err(e),
                            Ok((unknown_tagged_fields, s)) => Ok((DescribeLogDirsResponseDataView {
                                        throttle_time_ms: throttle_time_ms,
                                        error_code: error_code,
                                        results: results,
                                        unknown_tagged_fields: unknown_tagged_fields,
                                    }, s)),
                        },
                    },
                },
            }
        }
    }

    /// What writing the `throttle_time_ms` field of `m` appends.
    #[verifier::opaque]
    pub open spec fn spec_write_throttle_time_ms(m: DescribeLogDirsResponseDataView, version: i16) -> WriteOutcome {
        spec_write_i32(m.throttle_time_ms)
    }

    /// What writing the `error_code` field of `m` appends.
    #[verifier::opaque]
    pub open spec fn spec_write_error_code(m: DescribeLogDirsResponseDataView, version: i16) -> WriteOutcome {
        if version >= 3 {
            spec_write_i16(m.error_code)
        } else {
            if m.error_code != 0_i16 {
                fail(Error::UnsupportedFieldVersion(UnsupportedFieldVersion { api_key: 35, field: "error_code", version }))
            } else {
                emit(Seq::empty())
            }
        }
    }

    /// What writing the `results` field of `m` appends.
    #[verifier::opaque]
    pub open spec fn spec_write_results(m: DescribeLogDirsResponseDataView, version: i16) -> WriteOutcome {
        if version >= 2 {
            spec_write_array::<DescribeLogDirsResult>(m.results, version, true)
        } else {
            spec_write_array::<DescribeLogDirsResult>(m.results, version, false)
        }
    }

    /// What writing the tagged fields of `m` appends.
    #[verifier::opaque]
    pub open spec fn spec_write_tags(m: DescribeLogDirsResponseDataView, version: i16) -> WriteOutcome {
        if version >= 2 {
            spec_write_tagged_fields(sorted_by_tag(m.unknown_tagged_fields))
        } else {
            emit(Seq::empty())
        }
    }

    pub open spec fn spec_write(m: DescribeLogDirsResponseDataView, version: i16) -> WriteOutcome {
        if version < 1 || version > 5 {
            fail(Error::UnsupportedVersion(UnsupportedVersion { api_key: 35, version }))
        } else {
            chain(
                chain(
                    chain(
                        Self::spec_write_throttle_time_ms(m, version),
                        Self::spec_write_error_code(m, version),
                    ),
                    Self::spec_write_results(m, version),
                ),
                Self::spec_write_tags(m, version),
            )
        }
    }

    /// Whether reading back what writing `m` in `version` appends gives `m`:
    /// fields that the version does not carry hold their default values, and
    /// tagged fields come in the order in which they are written.
    pub open spec fn canonical(m: DescribeLogDirsResponseDataView, version: i16) -> bool {
        &&& all_canonical::<DescribeLogDirsResult>(m.results, version)
        &&& (if version >= 2 {
                tags_in_order(m.unknown_tagged_fields)
            } else {
                m.unknown_tagged_fields.len() == 0
        })
    }

    proof fn lemma_round_trip_throttle_time_ms(m: DescribeLogDirsResponseDataView, version: i16, rest: Seq<u8>)
        requires
            Self::canonical(m, version),
            Self::spec_write_throttle_time_ms(m, version) is Ok,
        ensures
            Self::spec_read_throttle_time_ms(written(Self::spec_write_throttle_time_ms(m, version)) + rest, version) == Ok::<(i32, Seq<u8>), Error>((m.throttle_time_ms, rest)),
    {
        reveal(DescribeLogDirsResponseData::spec_read_throttle_time_ms);
        reveal(DescribeLogDirsResponseData::spec_write_throttle_time_ms);
        lemma_i32_roundtrip(m.throttle_time_ms, rest);
    }

    proof fn lemma_round_trip_error_code(m: DescribeLogDirsResponseDataView, version: i16, rest: Seq<u8>)
        requires
            Self::canonical(m, version),
            Self::spec_write_error_code(m, version) is Ok,
        ensures
            Self::spec_read_error_code(written(Self::spec_write_error_code(m, version)) + rest, version) == Ok::<(i16, Seq<u8>), Error>((m.error_code, rest)),
    {
        reveal(DescribeLogDirsResponseData::spec_read_error_code);
        reveal(DescribeLogDirsResponseData::spec_write_error_code);
        if version >= 3 {
            lemma_i16_roundtrip(m.error_code, rest);
        } else {
            assert(Seq::<u8>::empty() + rest =~= rest);
        }
    }

    proof fn lemma_round_trip_results(m: DescribeLogDirsResponseDataView, version: i16, rest: Seq<u8>)
        requires
            Self::canonical(m, version),
            Self::spec_write_results(m, version) is Ok,
        ensures
            Self::spec_read_results(written(Self::spec_write_results(m, version)) + rest, version) == Ok::<(Seq<DescribeLogDirsResultView>, Seq<u8>), Error>((m.results, rest)),
    {
        reveal(DescribeLogDirsResponseData::spec_read_results);
        reveal(DescribeLogDirsResponseData::spec_write_results);
        if version >= 2 {
            lemma_array_round_trip::<DescribeLogDirsResult>(m.results, version, true, rest);
        } else {
            lemma_array_round_trip::<DescribeLogDirsResult>(m.results, version, false, rest);
        }
    }

    proof fn lemma_round_trip_tags(m: DescribeLogDirsResponseDataView, version: i16, rest: Seq<u8>)
        requires
            Self::canonical(m, version),
            Self::spec_write_tags(m, version) is Ok,
        ensures
            Self::spec_read_tags(written(Self::spec_write_tags(m, version)) + rest, version) == Ok::<(Seq<(u32, Seq<u8>)>, Seq<u8>), Error>((m.unknown_tagged_fields, rest)),
    {
        reveal(DescribeLogDirsResponseData::spec_read_tags);
        reveal(DescribeLogDirsResponseData::spec_write_tags);
        if version >= 2 {
            lemma_sorted_by_tag_in_order(m.unknown_tagged_fields);
            lemma_tagged_fields_round_trip(m.unknown_tagged_fields, rest);
        } else {
            assert(Seq::<u8>::empty() + rest =~= rest);
            assert(m.unknown_tagged_fields =~= Seq::empty());
        }
    }

    /// Reading back what writing `m` in `version` appends gives `m` again, and
    /// leaves what follows, for every canonical message whose write succeeds.
    #[verifier::rlimit(80)]
    #[verifier::spinoff_prover]
    pub proof fn lemma_round_trip(m: DescribeLogDirsResponseDataView, version: i16, rest: Seq<u8>)
        requires
            Self::canonical(m, version),
            Self::spec_write(m, version) is Ok,
        ensures
            Self::spec_read(written(Self::spec_write(m, version)) + rest, version) == Ok::<(DescribeLogDirsResponseDataView, Seq<u8>), Error>((m, rest)),
    {
        let b0 = written(Self::spec_write_throttle_time_ms(m, version));
        let b1 = written(Self::spec_write_error_code(m, version));
        let b2 = written(Self::spec_write_results(m, version));
        let b3 = written(Self::spec_write_tags(m, version));
        let t4 = rest;
        let t3 = b3 + t4;
        let t2 = b2 + t3;
        let t1 = b1 + t2;
        let t0 = b0 + t1;
        let w0 = Self::spec_write_throttle_time_ms(m, version);
        let w1 = chain(w0, Self::spec_write_error_code(m, version));
        let w2 = chain(w1, Self::spec_write_results(m, version));
        let w3 = chain(w2, Self::spec_write_tags(m, version));
        assert(Self::spec_write(m, version) == w3);
        assert(written(w3) + t4 =~= written(w2) + t3);
        assert(written(w2) + t3 =~= written(w1) + t2);
        assert(written(w1) + t2 =~= written(w0) + t1);
        Self::lemma_round_trip_throttle_time_ms(m, version, t1);
        Self::lemma_round_trip_error_code(m, version, t2);
        Self::lemma_round_trip_results(m, version, t3);
        Self::lemma_round_trip_tags(m, version, t4);
    }

    /// In a version that does not carry `unknown_tagged_fields`, writing ignores its value.
    pub proof fn lemma_write_ignores_unknown_tagged_fields(m: DescribeLogDirsResponseDataView, value: Seq<(u32, Seq<u8>)>, version: i16)
        requires
            !(version >= 2),
        ensures
            Self::spec_write((DescribeLogDirsResponseDataView { unknown_tagged_fields: value, ..m }), version) == Self::spec_write(m, version),
    {
        reveal(DescribeLogDirsResponseData::spec_write_throttle_time_ms);
        reveal(DescribeLogDirsResponseData::spec_write_error_code);
        reveal(DescribeLogDirsResponseData::spec_write_results);
        reveal(DescribeLogDirsResponseData::spec_write_tags);
    }

    /// The default message holds the default value of each field of the schema.
    pub proof fn lemma_default_values()
        ensures
            Self::default_view().throttle_time_ms == (0_i32),
            Self::default_view().error_code == (0_i16),
            Self::default_view().results.len() == 0,
            Self::default_view().unknown_tagged_fields.len() == 0,
    {
    }

    /// Each integer, boolean and identifier field is written as its standard
    /// big-endian bytes (a boolean as `1` or `0`) in the versions that carry
    /// it, and as nothing in the others; reading it takes those bytes back (any
    /// byte other than `0` reads as `true`), or gives its default value.
    pub proof fn lemma_field_encodings(m: DescribeLogDirsResponseDataView, s: Seq<u8>, version: i16)
        ensures
            true ==> Self::spec_write_throttle_time_ms(m, version) == Ok::<Seq<u8>, (Error, Seq<u8>)>(u32_bytes(m.throttle_time_ms as u32)),
            version >= 3 ==> Self::spec_write_error_code(m, version) == Ok::<Seq<u8>, (Error, Seq<u8>)>(u16_bytes(m.error_code as u16)),
            true ==> Self::spec_read_throttle_time_ms(s, version) == spec_read_i32(s),
            version >= 3 ==> Self::spec_read_error_code(s, version) == spec_read_i16(s),
            !(version >= 3) ==> Self::spec_read_error_code(s, version) == Ok::<(i16, Seq<u8>), Error>((0_i16, s)),
    {
        reveal(DescribeLogDirsResponseData::spec_write_throttle_time_ms);
        reveal(DescribeLogDirsResponseData::spec_read_throttle_time_ms);
        reveal(DescribeLogDirsResponseData::spec_write_error_code);
        reveal(DescribeLogDirsResponseData::spec_read_error_code);
    }

    /// Whether writing `m` in `version` succeeds, said over its parts: the
    /// version is one the schema covers, every field that the version cannot
    /// carry holds its default value, and every string, byte string, array and
    /// tagged field fits its length prefix.
    pub open spec fn writable(m: DescribeLogDirsResponseDataView, version: i16) -> bool {
        &&& 1 <= version <= 5
        &&& (if version >= 3 {
                true
            } else {
                !(m.error_code != 0_i16)
        })
        &&& (m.results.len() <= i32::MAX && all_writable::<DescribeLogDirsResult>(m.results, version))
        &&& (if version >= 2 {
                m.unknown_tagged_fields.len() <= u32::MAX && tags_fit(m.unknown_tagged_fields)
            } else {
                true
        })
    }

    proof fn lemma_writable_throttle_time_ms(m: DescribeLogDirsResponseDataView, version: i16)
        ensures
            Self::spec_write_throttle_time_ms(m, version) is Ok <==> true,
    {
        reveal(DescribeLogDirsResponseData::spec_write_throttle_time_ms);
    }

    proof fn lemma_writable_error_code(m: DescribeLogDirsResponseDataView, version: i16)
        ensures
            Self::spec_write_error_code(m, version) is Ok <==> (if version >= 3 { true } else { !(m.error_code != 0_i16) }),
    {
        reveal(DescribeLogDirsResponseData::spec_write_error_code);
    }

    proof fn lemma_writable_results(m: DescribeLogDirsResponseDataView, version: i16)
        ensures
            Self::spec_write_results(m, version) is Ok <==> (m.results.len() <= i32::MAX && all_writable::<DescribeLogDirsResult>(m.results, version)),
    {
        reveal(DescribeLogDirsResponseData::spec_write_results);
        if version >= 2 {
            lemma_array_writable::<DescribeLogDirsResult>(m.results, version, true);
        } else {
            lemma_array_writable::<DescribeLogDirsResult>(m.results, version, false);
        }
    }

    proof fn lemma_writable_tags(m: DescribeLogDirsResponseDataView, version: i16)
        ensures
            Self::spec_write_tags(m, version) is Ok <==> (if version >= 2 { m.unknown_tagged_fields.len() <= u32::MAX && tags_fit(m.unknown_tagged_fields) } else { true }),
    {
        reveal(DescribeLogDirsResponseData::spec_write_tags);
        if version >= 2 {
            lemma_sorted_tags_fit(m.unknown_tagged_fields);
            lemma_tagged_fields_writable(sorted_by_tag(m.unknown_tagged_fields));
        }
    }

    /// Writing `m` in `version` succeeds exactly when `m` is writable in it;
    /// so do `write` and `encoded_len`, whose results follow `spec_write`.
    #[verifier::rlimit(54)]
    pub proof fn lemma_writable(m: DescribeLogDirsResponseDataView, version: i16)
        ensures
            Self::spec_write(m, version) is Ok <==> Self::writable(m, version),
    {
        Self::lemma_writable_throttle_time_ms(m, version);
        Self::lemma_writable_error_code(m, version);
        Self::lemma_writable_results(m, version);
        Self::lemma_writable_tags(m, version);
    }

    /// A version outside the range that the schema covers is refused, by
    /// reads and by writes alike, before anything is read or written.
    pub proof fn lemma_refused_version(m: DescribeLogDirsResponseDataView, s: Seq<u8>, version: i16)
        requires
            version < 1 || version > 5,
        ensures
            Self::spec_read(s, version) == Err::<(DescribeLogDirsResponseDataView, Seq<u8>), Error>(Error::UnsupportedVersion(UnsupportedVersion { api_key: 35, version })),
            Self::spec_write(m, version) == fail(Error::UnsupportedVersion(UnsupportedVersion { api_key: 35, version })),
    {
    }

    pub fn with_throttle_time_ms(self, value: i32) -> (r: Self)
        ensures
            r@ == (DescribeLogDirsResponseDataView { throttle_time_ms: value, ..self@ }),
    {
        let mut r = self;
        r.throttle_time_ms = value;
        r
    }

    pub fn with_error_code(self, value: i16) -> (r: Self)
        ensures
            r@ == (DescribeLogDirsResponseDataView { error_code: value, ..self@ }),
    {
        let mut r = self;
        r.error_code = value;
        r
    }

    pub fn with_results(self, value: Vec<DescribeLogDirsResult>) -> (r: Self)
        ensures
            r@ == (DescribeLogDirsResponseDataView { results: views(value@), ..self@ }),
    {
        let mut r = self;
        r.results = value;
        r
    }

    fn read_throttle_time_ms(buf: &mut Bytes, version: i16) -> (r: Result<i32, Error>)
        ensures
            read_as(Self::spec_read_throttle_time_ms(bytes_seq(*old(buf)), version), *final(buf), r),
            took_front(*old(buf), *final(buf)),
    {
        proof {
            reveal(DescribeLogDirsResponseData::spec_read_throttle_time_ms);
        }
        Ok(read_i32(buf)?)
    }

    fn read_error_code(buf: &mut Bytes, version: i16) -> (r: Result<i16, Error>)
        ensures
            read_as(Self::spec_read_error_code(bytes_seq(*old(buf)), version), *final(buf), r),
            took_front(*old(buf), *final(buf)),
    {
        proof {
            reveal(DescribeLogDirsResponseData::spec_read_error_code);
        }
        Ok(if version >= 3 {
                read_i16(buf)?
            } else {
                0_i16
        })
    }

    fn read_results(buf: &mut Bytes, version: i16) -> (r: Result<Vec<DescribeLogDirsResult>, Error>)
        ensures
            read_vec_as(Self::spec_read_results(bytes_seq(*old(buf)), version), *final(buf), r),
            took_front(*old(buf), *final(buf)),
    {
        proof {
            reveal(DescribeLogDirsResponseData::spec_read_results);
        }
        Ok(if version >= 2 {
                read_array::<DescribeLogDirsResult>(buf, version, true)?
            } else {
                read_array::<DescribeLogDirsResult>(buf, version, false)?
        })
    }

    fn read_tags(buf: &mut Bytes, version: i16) -> (r: Result<Vec<RawTaggedField>, Error>)
        ensures
            read_vec_as(Self::spec_read_tags(bytes_seq(*old(buf)), version), *final(buf), r),
            took_front(*old(buf), *final(buf)),
    {
        proof {
            reveal(DescribeLogDirsResponseData::spec_read_tags);
        }
        Ok(if version >= 2 {
                read_tagged_fields(buf)?
            } else {
                empty_vec()
        })
    }

    pub fn read(buf: &mut Bytes, version: i16) -> (r: Result<Self, Error>)
        ensures
            read_as(Self::spec_read(bytes_seq(*old(buf)), version), *final(buf), r),
            took_front(*old(buf), *final(buf)),
            (version < 1 || version > 5) ==> bytes_seq(*final(buf)) == bytes_seq(*old(buf)),
    {
        if version < 1 || version > 5 {
            return Err(Error::UnsupportedVersion(UnsupportedVersion::new(35, version)));
        }
        let throttle_time_ms = Self::read_throttle_time_ms(buf, version)?;
        let error_code = Self::read_error_code(buf, version)?;
        let results = Self::read_results(buf, version)?;
        let _unknown_tagged_fields = Self::read_tags(buf, version)?;
        Ok(DescribeLogDirsResponseData {
                throttle_time_ms: throttle_time_ms,
                error_code: error_code,
                results: results,
                _unknown_tagged_fields: _unknown_tagged_fields,
        })
    }

    #[verifier::rlimit(70)]
    pub fn write(&self, buf: &mut BytesMut, version: i16) -> (r: Result<(), Error>)
        requires
            has_room(Self::spec_write(self@, version), *old(buf)),
        ensures
            wrote(Self::spec_write(self@, version), *old(buf), *final(buf), r),
    {
        if version < 1 || version > 5 {
            return Err(Error::UnsupportedVersion(UnsupportedVersion::new(35, version)));
        }
        let ghost m = self@;
        proof {
            reveal(DescribeLogDirsResponseData::spec_write_throttle_time_ms);
            reveal(DescribeLogDirsResponseData::spec_write_error_code);
            reveal(DescribeLogDirsResponseData::spec_write_results);
            reveal(DescribeLogDirsResponseData::spec_write_tags);
        }
        let ghost s0 = Self::spec_write_throttle_time_ms(m, version);
        let ghost w0 = s0;
        let ghost s1 = Self::spec_write_error_code(m, version);
        let ghost w1 = chain(w0, s1);
        let ghost s2 = Self::spec_write_results(m, version);
        let ghost w2 = chain(w1, s2);
        let ghost s3 = Self::spec_write_tags(m, version);
        let ghost w3 = chain(w2, s3);
        assert(Self::spec_write(m, version) == w3);
        assert(written(w2).len() <= written(w3).len() && (w2 is Err ==> w3 == w2));
        assert(written(w1).len() <= written(w3).len() && (w1 is Err ==> w3 == w1));
        assert(written(w0).len() <= written(w3).len() && (w0 is Err ==> w3 == w0));
        let ghost mid = bytes_mut_seq(*buf);
        proof {
            lemma_append_empty(mid);
        }
        let r0 = {
            write_i32(buf, self.throttle_time_ms);
            Ok(())
        };
        assert(bytes_mut_seq(*buf) == mid + written(s0));
        if r0.is_err() {
            return r0;
        }
        let ghost mid = bytes_mut_seq(*buf);
        proof {
            lemma_append_empty(mid);
        }
        let r1 = if version >= 3 {
            {
                write_i16(buf, self.error_code);
                Ok(())
            }
        } else {
            if self.error_code != 0_i16 {
                Err(Error::UnsupportedFieldVersion(UnsupportedFieldVersion::new(35, "error_code", version)))
            } else {
                Ok(())
            }
        };
        assert(bytes_mut_seq(*buf) == mid + written(s1));
        proof {
            lemma_step(bytes_mut_seq(*old(buf)), w0, s1);
        }
        if r1.is_err() {
            return r1;
        }
        let ghost mid = bytes_mut_seq(*buf);
        proof {
            lemma_append_empty(mid);
        }
        let r2 = if version >= 2 {
            write_array::<DescribeLogDirsResult>(buf, &self.results, version, true)
        } else {
            write_array::<DescribeLogDirsResult>(buf, &self.results, version, false)
        };
        assert(bytes_mut_seq(*buf) == mid + written(s2));
        proof {
            lemma_step(bytes_mut_seq(*old(buf)), w1, s2);
        }
        if r2.is_err() {
            return r2;
        }
        let ghost mid = bytes_mut_seq(*buf);
        proof {
            lemma_append_empty(mid);
        }
        let r3 = if version >= 2 {
            write_tagged_fields(buf, &sort_by_tag(&self._unknown_tagged_fields))
        } else {
            Ok(())
        };
        assert(bytes_mut_seq(*buf) == mid + written(s3));
        proof {
            lemma_step(bytes_mut_seq(*old(buf)), w2, s3);
        }
        if r3.is_err() {
            return r3;
        }
        Ok(())
    }

    #[verifier::rlimit(70)]
    pub fn encoded_len(&self, version: i16) -> (r: Result<usize, Error>)
        ensures
            r == len_result(Self::spec_write(self@, version)),
    {
        if version < 1 || version > 5 {
            return Err(Error::UnsupportedVersion(UnsupportedVersion::new(35, version)));
        }
        let ghost m = self@;
        proof {
            reveal(DescribeLogDirsResponseData::spec_write_throttle_time_ms);
            reveal(DescribeLogDirsResponseData::spec_write_error_code);
            reveal(DescribeLogDirsResponseData::spec_write_results);
            reveal(DescribeLogDirsResponseData::spec_write_tags);
        }
        let ghost s0 = Self::spec_write_throttle_time_ms(m, version);
        let ghost w0 = s0;
        let ghost s1 = Self::spec_write_error_code(m, version);
        let ghost w1 = chain(w0, s1);
        let ghost s2 = Self::spec_write_results(m, version);
        let ghost w2 = chain(w1, s2);
        let ghost s3 = Self::spec_write_tags(m, version);
        let ghost w3 = chain(w2, s3);
        assert(Self::spec_write(m, version) == w3);
        assert(w2 is Err ==> w3 == w2);
        assert(w1 is Err ==> w3 == w1);
        assert(w0 is Err ==> w3 == w0);
        let mut len: usize = 0;
        let l0 = Ok(4);
        assert(l0 == len_result(s0));
        let n0 = match l0 {
            Ok(n) => n,
            Err(e) => {
                return Err(e);
            },
        };
        len = saturating_sum(len, n0);
        assert(w0 is Ok && len == saturate(written(w0).len() as int));
        let l1 = if version >= 3 {
            Ok(2)
        } else {
            if self.error_code != 0_i16 {
                Err(Error::UnsupportedFieldVersion(UnsupportedFieldVersion::new(35, "error_code", version)))
            } else {
                Ok(0)
            }
        };
        assert(l1 == len_result(s1));
        let n1 = match l1 {
            Ok(n) => n,
            Err(e) => {
                return Err(e);
            },
        };
        proof {
            lemma_len_step(w0, s1, n1);
        }
        len = saturating_sum(len, n1);
        assert(w1 is Ok && len == saturate(written(w1).len() as int));
        let l2 = if version >= 2 {
            array_len::<DescribeLogDirsResult>(&self.results, version, true)
        } else {
            array_len::<DescribeLogDirsResult>(&self.results, version, false)
        };
        assert(l2 == len_result(s2));
        let n2 = match l2 {
            Ok(n) => n,
            Err(e) => {
                return Err(e);
            },
        };
        proof {
            lemma_len_step(w1, s2, n2);
        }
        len = saturating_sum(len, n2);
        assert(w2 is Ok && len == saturate(written(w2).len() as int));
        let l3 = if version >= 2 {
            tagged_fields_len(&sort_by_tag(&self._unknown_tagged_fields))
        } else {
            Ok(0)
        };
        assert(l3 == len_result(s3));
        let n3 = match l3 {
            Ok(n) => n,
            Err(e) => {
                return Err(e);
            },
        };
        proof {
            lemma_len_step(w2, s3, n3);
        }
        len = saturating_sum(len, n3);
        assert(w3 is Ok && len == saturate(written(w3).len() as int));
        Ok(len)
    }
}

#[derive(Debug, PartialEq)]
pub struct DescribeLogDirsResult {
    /// The error code, or 0 if there was no error.
    pub error_code: i16,
    /// The absolute log directory path.
    pub log_dir: KafkaString,
    /// The topics.
    pub topics: Vec<DescribeLogDirsTopic>,
    /// The total size in bytes of the volume the log directory is in. This value does not include
    /// the size of data stored in remote storage.
    pub total_bytes: i64,
    /// The usable size in bytes of the volume the log directory is in. This value does not include
    /// the size of data stored in remote storage.
    pub usable_bytes: i64,
    /// True if this log directory is cordoned.
    pub is_cordoned: bool,
    pub _unknown_tagged_fields: Vec<RawTaggedField>,
}

/// What a `DescribeLogDirsResult` holds, as the specification sees it.
#[verifier::ext_equal]
pub struct DescribeLogDirsResultView {
    pub error_code: i16,
    pub log_dir: Seq<u8>,
    pub topics: Seq<DescribeLogDirsTopicView>,
    pub total_bytes: i64,
    pub usable_bytes: i64,
    pub is_cordoned: bool,
    pub unknown_tagged_fields: Seq<(u32, Seq<u8>)>,
}

impl View for DescribeLogDirsResult {
    type V = DescribeLogDirsResultView;

    open spec fn view(&self) -> DescribeLogDirsResultView {
        DescribeLogDirsResultView {
            error_code: self.error_code,
            log_dir: self.log_dir@,
            topics: views(self.topics@),
            total_bytes: self.total_bytes,
            usable_bytes: self.usable_bytes,
            is_cordoned: self.is_cordoned,
            unknown_tagged_fields: views(self._unknown_tagged_fields@),
        }
    }
}

impl Clone for DescribeLogDirsResult {
    fn clone(&self) -> (r: Self)
        ensures
            r@ == self@,
    {
        let r = DescribeLogDirsResult {
            error_code: self.error_code,
            log_dir: self.log_dir.clone(),
            topics: clone_vec(&self.topics),
            total_bytes: self.total_bytes,
            usable_bytes: self.usable_bytes,
            is_cordoned: self.is_cordoned,
            _unknown_tagged_fields: clone_vec(&self._unknown_tagged_fields),
        };
        assert(r@ =~= self@);
        r
    }
}

impl ViewClone for DescribeLogDirsResult {
    fn clone_view(&self) -> (r: Self) {
        self.clone()
    }
}

impl Default for DescribeLogDirsResult {
    fn default() -> (r: Self)
        ensures
            r@ == Self::default_view(),
    {
        let r = DescribeLogDirsResult {
            error_code: 0_i16,
            log_dir: KafkaString::default(),
            topics: empty_vec(),
            total_bytes: -1i64,
            usable_bytes: -1i64,
            is_cordoned: false,
            _unknown_tagged_fields: empty_vec(),
        };
        assert(r@ =~= Self::default_view());
        r
    }
}

impl DescribeLogDirsResult {
    pub open spec fn default_view() -> DescribeLogDirsResultView {
        DescribeLogDirsResultView {
            error_code: 0_i16,
            log_dir: Seq::empty(),
            topics: Seq::empty(),
            total_bytes: -1i64,
            usable_bytes: -1i64,
            is_cordoned: false,
            unknown_tagged_fields: Seq::empty(),
        }
    }

    /// The `error_code` field, read from the front of `s`.
    #[verifier::opaque]
    pub open spec fn spec_read_error_code(s: Seq<u8>, version: i16) -> ReadOutcome<i16> {
        spec_read_i16(s)
    }

    /// The `log_dir` field, read from the front of `s`.
    #[verifier::opaque]
    pub open spec fn spec_read_log_dir(s: Seq<u8>, version: i16) -> ReadOutcome<Seq<u8>> {
        if version >= 2 {
            spec_read_compact_string(s)
        } else {
            spec_read_string(s)
        }
    }

    /// The `topics` field, read from the front of `s`.
    #[verifier::opaque]
    pub open spec fn spec_read_topics(s: Seq<u8>, version: i16) -> ReadOutcome<Seq<DescribeLogDirsTopicView>> {
        if version >= 2 {
            spec_read_array::<DescribeLogDirsTopic>(s, version, true)
        } else {
            spec_read_array::<DescribeLogDirsTopic>(s, version, false)
        }
    }

    /// The `total_bytes` field, read from the front of `s`.
    #[verifier::opaque]
    pub open spec fn spec_read_total_bytes(s: Seq<u8>, version: i16) -> ReadOutcome<i64> {
        if version >= 4 {
            spec_read_i64(s)
        } else {
            Ok((-1i64, s))
        }
    }

    /// The `usable_bytes` field, read from the front of `s`.
    #[verifier::opaque]
    pub open spec fn spec_read_usable_bytes(s: Seq<u8>, version: i16) -> ReadOutcome<i64> {
        if version >= 4 {
            spec_read_i64(s)
        } else {
            Ok((-1i64, s))
        }
    }

    /// The `is_cordoned` field, read from the front of `s`.
    #[verifier::opaque]
    pub open spec fn spec_read_is_cordoned(s: Seq<u8>, version: i16) -> ReadOutcome<bool> {
        if version >= 5 {
            spec_read_bool(s)
        } else {
            Ok((false, s))
        }
    }

    /// The tagged fields, read from the front of `s`.
    #[verifier::opaque]
    pub open spec fn spec_read_tags(s: Seq<u8>, version: i16) -> ReadOutcome<Seq<(u32, Seq<u8>)>> {
        if version >= 2 {
            spec_read_tagged_fields(s)
        } else {
            Ok((Seq::empty(), s))
        }
    }

    pub open spec fn spec_read(s: Seq<u8>, version: i16) -> ReadOutcome<DescribeLogDirsResultView> {
        match (Self::spec_read_error_code(s, version)) {
            Err(e) => Err(e),
            Ok((error_code, s)) => match (Self::spec_read_log_dir(s, version)) {
                Err(e) => Err(e),
                Ok((log_dir, s)) => match (Self::spec_read_topics(s, version)) {
                    Err(e) => Err(e),
                    Ok((topics, s)) => match (Self::spec_read_total_bytes(s, version)) {
                        Err(e) => Err(e),
                        Ok((total_bytes, s)) => match (Self::spec_read_usable_bytes(s, version)) {
                            Err(e) => Err(e),
                            Ok((usable_bytes, s)) => match (Self::spec_read_is_cordoned(s, version)) {
                                Err(e) => Err(e),
                                Ok((is_cordoned, s)) => match (Self::spec_read_tags(s, version)) {
                                    Err(e) => Err(e),
                                    Ok((unknown_tagged_fields, s)) => Ok((DescribeLogDirsResultView {
                                                error_code: error_code,
                                                log_dir: log_dir,
                                                topics: topics,
                                                total_bytes: total_bytes,
                                                usable_bytes: usable_bytes,
                                                is_cordoned: is_cordoned,
                                                unknown_tagged_fields: unknown_tagged_fields,
                                            }, s)),
                                },
                            },
                        },
                    },
                },
            },
        }
    }

    /// What writing the `error_code` field of `m` appends.
    #[verifier::opaque]
    pub open spec fn spec_write_error_code(m: DescribeLogDirsResultView, version: i16) -> WriteOutcome {
        spec_write_i16(m.error_code)
    }

    /// What writing the `log_dir` field of `m` appends.
    #[verifier::opaque]
    pub open spec fn spec_write_log_dir(m: DescribeLogDirsResultView, version: i16) -> WriteOutcome {
        if version >= 2 {
            spec_write_compact_string(m.log_dir)
        } else {
            spec_write_string(m.log_dir)
        }
    }

    /// What writing the `topics` field of `m` appends.
    #[verifier::opaque]
    pub open spec fn spec_write_topics(m: DescribeLogDirsResultView, version: i16) -> WriteOutcome {
        if version >= 2 {
            spec_write_array::<DescribeLogDirsTopic>(m.topics, version, true)
        } else {
            spec_write_array::<DescribeLogDirsTopic>(m.topics, version, false)
        }
    }

    /// What writing the `total_bytes` field of `m` appends.
    #[verifier::opaque]
    pub open spec fn spec_write_total_bytes(m: DescribeLogDirsResultView, version: i16) -> WriteOutcome {
        if version >= 4 {
            spec_write_i64(m.total_bytes)
        } else {
            if m.total_bytes != -1i64 {
                fail(Error::UnsupportedFieldVersion(UnsupportedFieldVersion { api_key: 35, field: "total_bytes", version }))
            } else {
                emit(Seq::empty())
            }
        }
    }

    /// What writing the `usable_bytes` field of `m` appends.
    #[verifier::opaque]
    pub open spec fn spec_write_usable_bytes(m: DescribeLogDirsResultView, version: i16) -> WriteOutcome {
        if version >= 4 {
            spec_write_i64(m.usable_bytes)
        } else {
            if m.usable_bytes != -1i64 {
                fail(Error::UnsupportedFieldVersion(UnsupportedFieldVersion { api_key: 35, field: "usable_bytes", version }))
            } else {
                emit(Seq::empty())
            }
        }
    }

    /// What writing the `is_cordoned` field of `m` appends.
    #[verifier::opaque]
    pub open spec fn spec_write_is_cordoned(m: DescribeLogDirsResultView, version: i16) -> WriteOutcome {
        if version >= 5 {
            spec_write_bool(m.is_cordoned)
        } else {
            if m.is_cordoned != false {
                fail(Error::UnsupportedFieldVersion(UnsupportedFieldVersion { api_key: 35, field: "is_cordoned", version }))
            } else {
                emit(Seq::empty())
            }
        }
    }

    /// What writing the tagged fields of `m` appends.
    #[verifier::opaque]
    pub open spec fn spec_write_tags(m: DescribeLogDirsResultView, version: i16) -> WriteOutcome {
        if version >= 2 {
            spec_write_tagged_fields(sorted_by_tag(m.unknown_tagged_fields))
        } else {
            emit(Seq::empty())
        }
    }

    pub open spec fn spec_write(m: DescribeLogDirsResultView, version: i16) -> WriteOutcome {
        chain(
            chain(
                chain(
                    chain(
                        chain(
                            chain(
                                Self::spec_write_error_code(m, version),
                                Self::spec_write_log_dir(m, version),
                            ),
                            Self::spec_write_topics(m, version),
                        ),
                        Self::spec_write_total_bytes(m, version),
                    ),
                    Self::spec_write_usable_bytes(m, version),
                ),
                Self::spec_write_is_cordoned(m, version),
            ),
            Self::spec_write_tags(m, version),
        )
    }

    /// Whether reading back what writing `m` in `version` appends gives `m`:
    /// fields that the version does not carry hold their default values, and
    /// tagged fields come in the order in which they are written.
    pub open spec fn canonical(m: DescribeLogDirsResultView, version: i16) -> bool {
        &&& all_canonical::<DescribeLogDirsTopic>(m.topics, version)
        &&& (if version >= 2 {
                tags_in_order(m.unknown_tagged_fields)
            } else {
                m.unknown_tagged_fields.len() == 0
        })
    }

    proof fn lemma_round_trip_error_code(m: DescribeLogDirsResultView, version: i16, rest: Seq<u8>)
        requires
            Self::canonical(m, version),
            Self::spec_write_error_code(m, version) is Ok,
        ensures
            Self::spec_read_error_code(written(Self::spec_write_error_code(m, version)) + rest, version) == Ok::<(i16, Seq<u8>), Error>((m.error_code, rest)),
    {
        reveal(DescribeLogDirsResult::spec_read_error_code);
        reveal(DescribeLogDirsResult::spec_write_error_code);
        lemma_i16_roundtrip(m.error_code, rest);
    }

    proof fn lemma_round_trip_log_dir(m: DescribeLogDirsResultView, version: i16, rest: Seq<u8>)
        requires
            Self::canonical(m, version),
            Self::spec_write_log_dir(m, version) is Ok,
        ensures
            Self::spec_read_log_dir(written(Self::spec_write_log_dir(m, version)) + rest, version) == Ok::<(Seq<u8>, Seq<u8>), Error>((m.log_dir, rest)),
    {
        reveal(DescribeLogDirsResult::spec_read_log_dir);
        reveal(DescribeLogDirsResult::spec_write_log_dir);
        if version >= 2 {
            lemma_compact_string_round_trip(m.log_dir, rest);
        } else {
            lemma_string_round_trip(m.log_dir, rest);
        }
    }

    proof fn lemma_round_trip_topics(m: DescribeLogDirsResultView, version: i16, rest: Seq<u8>)
        requires
            Self::canonical(m, version),
            Self::spec_write_topics(m, version) is Ok,
        ensures
            Self::spec_read_topics(written(Self::spec_write_topics(m, version)) + rest, version) == Ok::<(Seq<DescribeLogDirsTopicView>, Seq<u8>), Error>((m.topics, rest)),
    {
        reveal(DescribeLogDirsResult::spec_read_topics);
        reveal(DescribeLogDirsResult::spec_write_topics);
        if version >= 2 {
            lemma_array_round_trip::<DescribeLogDirsTopic>(m.topics, version, true, rest);
        } else {
            lemma_array_round_trip::<DescribeLogDirsTopic>(m.topics, version, false, rest);
        }
    }

    proof fn lemma_round_trip_total_bytes(m: DescribeLogDirsResultView, version: i16, rest: Seq<u8>)
        requires
            Self::canonical(m, version),
            Self::spec_write_total_bytes(m, version) is Ok,
        ensures
            Self::spec_read_total_bytes(written(Self::spec_write_total_bytes(m, version)) + rest, version) == Ok::<(i64, Seq<u8>), Error>((m.total_bytes, rest)),
    {
        reveal(DescribeLogDirsResult::spec_read_total_bytes);
        reveal(DescribeLogDirsResult::spec_write_total_bytes);
        if version >= 4 {
            lemma_i64_roundtrip(m.total_bytes, rest);
        } else {
            assert(Seq::<u8>::empty() + rest =~= rest);
        }
    }

    proof fn lemma_round_trip_usable_bytes(m: DescribeLogDirsResultView, version: i16, rest: Seq<u8>)
        requires
            Self::canonical(m, version),
            Self::spec_write_usable_bytes(m, version) is Ok,
        ensures
            Self::spec_read_usable_bytes(written(Self::spec_write_usable_bytes(m, version)) + rest, version) == Ok::<(i64, Seq<u8>), Error>((m.usable_bytes, rest)),
    {
        reveal(DescribeLogDirsResult::spec_read_usable_bytes);
        reveal(DescribeLogDirsResult::spec_write_usable_bytes);
        if version >= 4 {
            lemma_i64_roundtrip(m.usable_bytes, rest);
        } else {
            assert(Seq::<u8>::empty() + rest =~= rest);
        }
    }

    proof fn lemma_round_trip_is_cordoned(m: DescribeLogDirsResultView, version: i16, rest: Seq<u8>)
        requires
            Self::canonical(m, version),
            Self::spec_write_is_cordoned(m, version) is Ok,
        ensures
            Self::spec_read_is_cordoned(written(Self::spec_write_is_cordoned(m, version)) + rest, version) == Ok::<(bool, Seq<u8>), Error>((m.is_cordoned, rest)),
    {
        reveal(DescribeLogDirsResult::spec_read_is_cordoned);
        reveal(DescribeLogDirsResult::spec_write_is_cordoned);
        if version >= 5 {
            lemma_bool_roundtrip(m.is_cordoned, rest);
        } else {
            assert(Seq::<u8>::empty() + rest =~= rest);
        }
    }

    proof fn lemma_round_trip_tags(m: DescribeLogDirsResultView, version: i16, rest: Seq<u8>)
        requires
            Self::canonical(m, version),
            Self::spec_write_tags(m, version) is Ok,
        ensures
            Self::spec_read_tags(written(Self::spec_write_tags(m, version)) + rest, version) == Ok::<(Seq<(u32, Seq<u8>)>, Seq<u8>), Error>((m.unknown_tagged_fields, rest)),
    {
        reveal(DescribeLogDirsResult::spec_read_tags);
        reveal(DescribeLogDirsResult::spec_write_tags);
        if version >= 2 {
            lemma_sorted_by_tag_in_order(m.unknown_tagged_fields);
            lemma_tagged_fields_round_trip(m.unknown_tagged_fields, rest);
        } else {
            assert(Seq::<u8>::empty() + rest =~= rest);
            assert(m.unknown_tagged_fields =~= Seq::empty());
        }
    }

    /// Reading back what writing `m` in `version` appends gives `m` again, and
    /// leaves what follows, for every canonical message whose write succeeds.
    #[verifier::rlimit(100)]
    #[verifier::spinoff_prover]
    pub proof fn lemma_round_trip(m: DescribeLogDirsResultView, version: i16, rest: Seq<u8>)
        requires
            Self::canonical(m, version),
            Self::spec_write(m, version) is Ok,
        ensures
            Self::spec_read(written(Self::spec_write(m, version)) + rest, version) == Ok::<(DescribeLogDirsResultView, Seq<u8>), Error>((m, rest)),
    {
        let b0 = written(Self::spec_write_error_code(m, version));
        let b1 = written(Self::spec_write_log_dir(m, version));
        let b2 = written(Self::spec_write_topics(m, version));
        let b3 = written(Self::spec_write_total_bytes(m, version));
        let b4 = written(Self::spec_write_usable_bytes(m, version));
        let b5 = written(Self::spec_write_is_cordoned(m, version));
        let b6 = written(Self::spec_write_tags(m, version));
        let t7 = rest;
        let t6 = b6 + t7;
        let t5 = b5 + t6;
        let t4 = b4 + t5;
        let t3 = b3 + t4;
        let t2 = b2 + t3;
        let t1 = b1 + t2;
        let t0 = b0 + t1;
        let w0 = Self::spec_write_error_code(m, version);
        let w1 = chain(w0, Self::spec_write_log_dir(m, version));
        let w2 = chain(w1, Self::spec_write_topics(m, version));
        let w3 = chain(w2, Self::spec_write_total_bytes(m, version));
        let w4 = chain(w3, Self::spec_write_usable_bytes(m, version));
        let w5 = chain(w4, Self::spec_write_is_cordoned(m, version));
        let w6 = chain(w5, Self::spec_write_tags(m, version));
        assert(Self::spec_write(m, version) == w6);
        assert(written(w6) + t7 =~= written(w5) + t6);
        assert(written(w5) + t6 =~= written(w4) + t5);
        assert(written(w4) + t5 =~= written(w3) + t4);
        assert(written(w3) + t4 =~= written(w2) + t3);
        assert(written(w2) + t3 =~= written(w1) + t2);
        assert(written(w1) + t2 =~= written(w0) + t1);
        Self::lemma_round_trip_error_code(m, version, t1);
        Self::lemma_round_trip_log_dir(m, version, t2);
        Self::lemma_round_trip_topics(m, version, t3);
        Self::lemma_round_trip_total_bytes(m, version, t4);
        Self::lemma_round_trip_usable_bytes(m, version, t5);
        Self::lemma_round_trip_is_cordoned(m, version, t6);
        Self::lemma_round_trip_tags(m, version, t7);
    }

    /// In a version that does not carry `unknown_tagged_fields`, writing ignores its value.
    pub proof fn lemma_write_ignores_unknown_tagged_fields(m: DescribeLogDirsResultView, value: Seq<(u32, Seq<u8>)>, version: i16)
        requires
            !(version >= 2),
        ensures
            Self::spec_write((DescribeLogDirsResultView { unknown_tagged_fields: value, ..m }), version) == Self::spec_write(m, version),
    {
        reveal(DescribeLogDirsResult::spec_write_error_code);
        reveal(DescribeLogDirsResult::spec_write_log_dir);
        reveal(DescribeLogDirsResult::spec_write_topics);
        reveal(DescribeLogDirsResult::spec_write_total_bytes);
        reveal(DescribeLogDirsResult::spec_write_usable_bytes);
        reveal(DescribeLogDirsResult::spec_write_is_cordoned);
        reveal(DescribeLogDirsResult::spec_write_tags);
    }

    /// The default message holds the default value of each field of the schema.
    pub proof fn lemma_default_values()
        ensures
            Self::default_view().error_code == (0_i16),
            Self::default_view().log_dir.len() == 0,
            Self::default_view().topics.len() == 0,
            Self::default_view().total_bytes == (-1i64),
            Self::default_view().usable_bytes == (-1i64),
            Self::default_view().is_cordoned == (false),
            Self::default_view().unknown_tagged_fields.len() == 0,
    {
    }

    /// Each integer, boolean and identifier field is written as its standard
    /// big-endian bytes (a boolean as `1` or `0`) in the versions that carry
    /// it, and as nothing in the others; reading it takes those bytes back (any
    /// byte other than `0` reads as `true`), or gives its default value.
    pub proof fn lemma_field_encodings(m: DescribeLogDirsResultView, s: Seq<u8>, version: i16)
        ensures
            true ==> Self::spec_write_error_code(m, version) == Ok::<Seq<u8>, (Error, Seq<u8>)>(u16_bytes(m.error_code as u16)),
            version >= 4 ==> Self::spec_write_total_bytes(m, version) == Ok::<Seq<u8>, (Error, Seq<u8>)>(u64_bytes(m.total_bytes as u64)),
            version >= 4 ==> Self::spec_write_usable_bytes(m, version) == Ok::<Seq<u8>, (Error, Seq<u8>)>(u64_bytes(m.usable_bytes as u64)),
            version >= 5 ==> Self::spec_write_is_cordoned(m, version) == Ok::<Seq<u8>, (Error, Seq<u8>)>(seq![if m.is_cordoned { 1u8 } else { 0u8 }]),
            true ==> Self::spec_read_error_code(s, version) == spec_read_i16(s),
            version >= 4 ==> Self::spec_read_total_bytes(s, version) == spec_read_i64(s),
            !(version >= 4) ==> Self::spec_read_total_bytes(s, version) == Ok::<(i64, Seq<u8>), Error>((-1i64, s)),
            version >= 4 ==> Self::spec_read_usable_bytes(s, version) == spec_read_i64(s),
            !(version >= 4) ==> Self::spec_read_usable_bytes(s, version) == Ok::<(i64, Seq<u8>), Error>((-1i64, s)),
            version >= 5 ==> Self::spec_read_is_cordoned(s, version) == (if s.len() < 1 { Err(Error::UnexpectedEof) } else { Ok((s[0] != 0, s.drop_first())) }),
            !(version >= 5) ==> Self::spec_read_is_cordoned(s, version) == Ok::<(bool, Seq<u8>), Error>((false, s)),
    {
        reveal(DescribeLogDirsResult::spec_write_error_code);
        reveal(DescribeLogDirsResult::spec_read_error_code);
        reveal(DescribeLogDirsResult::spec_write_total_bytes);
        reveal(DescribeLogDirsResult::spec_read_total_bytes);
        reveal(DescribeLogDirsResult::spec_write_usable_bytes);
        reveal(DescribeLogDirsResult::spec_read_usable_bytes);
        reveal(DescribeLogDirsResult::spec_write_is_cordoned);
        reveal(DescribeLogDirsResult::spec_read_is_cordoned);
    }

    /// Whether writing `m` in `version` succeeds, said over its parts: the
    /// version is one the schema covers, every field that the version cannot
    /// carry holds its default value, and every string, byte string, array and
    /// tagged field fits its length prefix.
    pub open spec fn writable(m: DescribeLogDirsResultView, version: i16) -> bool {
        &&& m.log_dir.len() <= 0x7fff
        &&& (m.topics.len() <= i32::MAX && all_writable::<DescribeLogDirsTopic>(m.topics, version))
        &&& (if version >= 4 {
                true
            } else {
                !(m.total_bytes != -1i64)
        })
        &&& (if version >= 4 {
                true
            } else {
                !(m.usable_bytes != -1i64)
        })
        &&& (if version >= 5 {
                true
            } else {
                !(m.is_cordoned != false)
        })
        &&& (if version >= 2 {
                m.unknown_tagged_fields.len() <= u32::MAX && tags_fit(m.unknown_tagged_fields)
            } else {
                true
        })
    }

    proof fn lemma_writable_error_code(m: DescribeLogDirsResultView, version: i16)
        ensures
            Self::spec_write_error_code(m, version) is Ok <==> true,
    {
        reveal(DescribeLogDirsResult::spec_write_error_code);
    }

    proof fn lemma_writable_log_dir(m: DescribeLogDirsResultView, version: i16)
        ensures
            Self::spec_write_log_dir(m, version) is Ok <==> m.log_dir.len() <= 0x7fff,
    {
        reveal(DescribeLogDirsResult::spec_write_log_dir);
    }

    proof fn lemma_writable_topics(m: DescribeLogDirsResultView, version: i16)
        ensures
            Self::spec_write_topics(m, version) is Ok <==> (m.topics.len() <= i32::MAX && all_writable::<DescribeLogDirsTopic>(m.topics, version)),
    {
        reveal(DescribeLogDirsResult::spec_write_topics);
        if version >= 2 {
            lemma_array_writable::<DescribeLogDirsTopic>(m.topics, version, true);
        } else {
            lemma_array_writable::<DescribeLogDirsTopic>(m.topics, version, false);
        }
    }

    proof fn lemma_writable_total_bytes(m: DescribeLogDirsResultView, version: i16)
        ensures
            Self::spec_write_total_bytes(m, version) is Ok <==> (if version >= 4 { true } else { !(m.total_bytes != -1i64) }),
    {
        reveal(DescribeLogDirsResult::spec_write_total_bytes);
    }

    proof fn lemma_writable_usable_bytes(m: DescribeLogDirsResultView, version: i16)
        ensures
            Self::spec_write_usable_bytes(m, version) is Ok <==> (if version >= 4 { true } else { !(m.usable_bytes != -1i64) }),
    {
        reveal(DescribeLogDirsResult::spec_write_usable_bytes);
    }

    proof fn lemma_writable_is_cordoned(m: DescribeLogDirsResultView, version: i16)
        ensures
            Self::spec_write_is_cordoned(m, version) is Ok <==> (if version >= 5 { true } else { !(m.is_cordoned != false) }),
    {
        reveal(DescribeLogDirsResult::spec_write_is_cordoned);
    }

    proof fn lemma_writable_tags(m: DescribeLogDirsResultView, version: i16)
        ensures
            Self::spec_write_tags(m, version) is Ok <==> (if version >= 2 { m.unknown_tagged_fields.len() <= u32::MAX && tags_fit(m.unknown_tagged_fields) } else { true }),
    {
        reveal(DescribeLogDirsResult::spec_write_tags);
        if version >= 2 {
            lemma_sorted_tags_fit(m.unknown_tagged_fields);
            lemma_tagged_fields_writable(sorted_by_tag(m.unknown_tagged_fields));
        }
    }

    /// Writing `m` in `version` succeeds exactly when `m` is writable in it;
    /// so do `write` and `encoded_len`, whose results follow `spec_write`.
    #[verifier::rlimit(72)]
    pub proof fn lemma_writable(m: DescribeLogDirsResultView, version: i16)
        ensures
            Self::spec_write(m, version) is Ok <==> Self::writable(m, version),
    {
        Self::lemma_writable_error_code(m, version);
        Self::lemma_writable_log_dir(m, version);
        Self::lemma_writable_topics(m, version);
        Self::lemma_writable_total_bytes(m, version);
        Self::lemma_writable_usable_bytes(m, version);
        Self::lemma_writable_is_cordoned(m, version);
        Self::lemma_writable_tags(m, version);
    }

    pub fn with_error_code(self, value: i16) -> (r: Self)
        ensures
            r@ == (DescribeLogDirsResultView { error_code: value, ..self@ }),
    {
        let mut r = self;
        r.error_code = value;
        r
    }

    pub fn with_log_dir(self, value: KafkaString) -> (r: Self)
        ensures
            r@ == (DescribeLogDirsResultView { log_dir: value@, ..self@ }),
    {
        let mut r = self;
        r.log_dir = value;
        r
    }

    pub fn with_topics(self, value: Vec<DescribeLogDirsTopic>) -> (r: Self)
        ensures
            r@ == (DescribeLogDirsResultView { topics: views(value@), ..self@ }),
    {
        let mut r = self;
        r.topics = value;
        r
    }

    pub fn with_total_bytes(self, value: i64) -> (r: Self)
        ensures
            r@ == (DescribeLogDirsResultView { total_bytes: value, ..self@ }),
    {
        let mut r = self;
        r.total_bytes = value;
        r
    }

    pub fn with_usable_bytes(self, value: i64) -> (r: Self)
        ensures
            r@ == (DescribeLogDirsResultView { usable_bytes: value, ..self@ }),
    {
        let mut r = self;
        r.usable_bytes = value;
        r
    }

    pub fn with_is_cordoned(self, value: bool) -> (r: Self)
        ensures
            r@ == (DescribeLogDirsResultView { is_cordoned: value, ..self@ }),
    {
        let mut r = self;
        r.is_cordoned = value;
        r
    }

    fn read_error_code(buf: &mut Bytes, version: i16) -> (r: Result<i16, Error>)
        ensures
            read_as(Self::spec_read_error_code(bytes_seq(*old(buf)), version), *final(buf), r),
            took_front(*old(buf), *final(buf)),
    {
        proof {
            reveal(DescribeLogDirsResult::spec_read_error_code);
        }
        Ok(read_i16(buf)?)
    }

    fn read_log_dir(buf: &mut Bytes, version: i16) -> (r: Result<KafkaString, Error>)
        ensures
            read_as(Self::spec_read_log_dir(bytes_seq(*old(buf)), version), *final(buf), r),
            took_front(*old(buf), *final(buf)),
    {
        proof {
            reveal(DescribeLogDirsResult::spec_read_log_dir);
        }
        Ok(if version >= 2 {
                read_compact_string(buf)?
            } else {
                read_string(buf)?
        })
    }

    fn read_topics(buf: &mut Bytes, version: i16) -> (r: Result<Vec<DescribeLogDirsTopic>, Error>)
        ensures
            read_vec_as(Self::spec_read_topics(bytes_seq(*old(buf)), version), *final(buf), r),
            took_front(*old(buf), *final(buf)),
    {
        proof {
            reveal(DescribeLogDirsResult::spec_read_topics);
        }
        Ok(if version >= 2 {
                read_array::<DescribeLogDirsTopic>(buf, version, true)?
            } else {
                read_array::<DescribeLogDirsTopic>(buf, version, false)?
        })
    }

    fn read_total_bytes(buf: &mut Bytes, version: i16) -> (r: Result<i64, Error>)
        ensures
            read_as(Self::spec_read_total_bytes(bytes_seq(*old(buf)), version), *final(buf), r),
            took_front(*old(buf), *final(buf)),
    {
        proof {
            reveal(DescribeLogDirsResult::spec_read_total_bytes);
        }
        Ok(if version >= 4 {
                read_i64(buf)?
            } else {
                -1i64
        })
    }

    fn read_usable_bytes(buf: &mut Bytes, version: i16) -> (r: Result<i64, Error>)
        ensures
            read_as(Self::spec_read_usable_bytes(bytes_seq(*old(buf)), version), *final(buf), r),
            took_front(*old(buf), *final(buf)),
    {
        proof {
            reveal(DescribeLogDirsResult::spec_read_usable_bytes);
        }
        Ok(if version >= 4 {
                read_i64(buf)?
            } else {
                -1i64
        })
    }

    fn read_is_cordoned(buf: &mut Bytes, version: i16) -> (r: Result<bool, Error>)
        ensures
            read_as(Self::spec_read_is_cordoned(bytes_seq(*old(buf)), version), *final(buf), r),
            took_front(*old(buf), *final(buf)),
    {
        proof {
            reveal(DescribeLogDirsResult::spec_read_is_cordoned);
        }
        Ok(if version >= 5 {
                read_bool(buf)?
            } else {
                false
        })
    }

    fn read_tags(buf: &mut Bytes, version: i16) -> (r: Result<Vec<RawTaggedField>, Error>)
        ensures
            read_vec_as(Self::spec_read_tags(bytes_seq(*old(buf)), version), *final(buf), r),
            took_front(*old(buf), *final(buf)),
    {
        proof {
            reveal(DescribeLogDirsResult::spec_read_tags);
        }
        Ok(if version >= 2 {
                read_tagged_fields(buf)?
            } else {
                empty_vec()
        })
    }

    #[verifier::rlimit(62)]
    #[verifier::spinoff_prover]
    pub fn read(buf: &mut Bytes, version: i16) -> (r: Result<Self, Error>)
        ensures
            read_as(Self::spec_read(bytes_seq(*old(buf)), version), *final(buf), r),
            took_front(*old(buf), *final(buf)),
    {
        let error_code = Self::read_error_code(buf, version)?;
        let log_dir = Self::read_log_dir(buf, version)?;
        let topics = Self::read_topics(buf, version)?;
        let total_bytes = Self::read_total_bytes(buf, version)?;
        let usable_bytes = Self::read_usable_bytes(buf, version)?;
        let is_cordoned = Self::read_is_cordoned(buf, version)?;
        let _unknown_tagged_fields = Self::read_tags(buf, version)?;
        Ok(DescribeLogDirsResult {
                error_code: error_code,
                log_dir: log_dir,
                topics: topics,
                total_bytes: total_bytes,
                usable_bytes: usable_bytes,
                is_cordoned: is_cordoned,
                _unknown_tagged_fields: _unknown_tagged_fields,
        })
    }

    #[verifier::rlimit(100)]
    #[verifier::spinoff_prover]
    pub fn write(&self, buf: &mut BytesMut, version: i16) -> (r: Result<(), Error>)
        requires
            has_room(Self::spec_write(self@, version), *old(buf)),
        ensures
            wrote(Self::spec_write(self@, version), *old(buf), *final(buf), r),
    {
        let ghost m = self@;
        proof {
            reveal(DescribeLogDirsResult::spec_write_error_code);
            reveal(DescribeLogDirsResult::spec_write_log_dir);
            reveal(DescribeLogDirsResult::spec_write_topics);
            reveal(DescribeLogDirsResult::spec_write_total_bytes);
            reveal(DescribeLogDirsResult::spec_write_usable_bytes);
            reveal(DescribeLogDirsResult::spec_write_is_cordoned);
            reveal(DescribeLogDirsResult::spec_write_tags);
        }
        let ghost s0 = Self::spec_write_error_code(m, version);
        let ghost w0 = s0;
        let ghost s1 = Self::spec_write_log_dir(m, version);
        let ghost w1 = chain(w0, s1);
        let ghost s2 = Self::spec_write_topics(m, version);
        let ghost w2 = chain(w1, s2);
        let ghost s3 = Self::spec_write_total_bytes(m, version);
        let ghost w3 = chain(w2, s3);
        let ghost s4 = Self::spec_write_usable_bytes(m, version);
        let ghost w4 = chain(w3, s4);
        let ghost s5 = Self::spec_write_is_cordoned(m, version);
        let ghost w5 = chain(w4, s5);
        let ghost s6 = Self::spec_write_tags(m, version);
        let ghost w6 = chain(w5, s6);
        assert(Self::spec_write(m, version) == w6);
        assert(written(w5).len() <= written(w6).len() && (w5 is Err ==> w6 == w5));
        assert(written(w4).len() <= written(w6).len() && (w4 is Err ==> w6 == w4));
        assert(written(w3).len() <= written(w6).len() && (w3 is Err ==> w6 == w3));
        assert(written(w2).len() <= written(w6).len() && (w2 is Err ==> w6 == w2));
        assert(written(w1).len() <= written(w6).len() && (w1 is Err ==> w6 == w1));
        assert(written(w0).len() <= written(w6).len() && (w0 is Err ==> w6 == w0));
        let ghost mid = bytes_mut_seq(*buf);
        proof {
            lemma_append_empty(mid);
        }
        let r0 = {
            write_i16(buf, self.error_code);
            Ok(())
        };
        assert(bytes_mut_seq(*buf) == mid + written(s0));
        if r0.is_err() {
            return r0;
        }
        let ghost mid = bytes_mut_seq(*buf);
        proof {
            lemma_append_empty(mid);
        }
        let r1 = if version >= 2 {
            write_compact_string(buf, &self.log_dir)
        } else {
            write_string(buf, &self.log_dir)
        };
        assert(bytes_mut_seq(*buf) == mid + written(s1));
        proof {
            lemma_step(bytes_mut_seq(*old(buf)), w0, s1);
        }
        if r1.is_err() {
            return r1;
        }
        let ghost mid = bytes_mut_seq(*buf);
        proof {
            lemma_append_empty(mid);
        }
        let r2 = if version >= 2 {
            write_array::<DescribeLogDirsTopic>(buf, &self.topics, version, true)
        } else {
            write_array::<DescribeLogDirsTopic>(buf, &self.topics, version, false)
        };
        assert(bytes_mut_seq(*buf) == mid + written(s2));
        proof {
            lemma_step(bytes_mut_seq(*old(buf)), w1, s2);
        }
        if r2.is_err() {
            return r2;
        }
        let ghost mid = bytes_mut_seq(*buf);
        proof {
            lemma_append_empty(mid);
        }
        let r3 = if version >= 4 {
            {
                write_i64(buf, self.total_bytes);
                Ok(())
            }
        } else {
            if self.total_bytes != -1i64 {
                Err(Error::UnsupportedFieldVersion(UnsupportedFieldVersion::new(35, "total_bytes", version)))
            } else {
                Ok(())
            }
        };
        assert(bytes_mut_seq(*buf) == mid + written(s3));
        proof {
            lemma_step(bytes_mut_seq(*old(buf)), w2, s3);
        }
        if r3.is_err() {
            return r3;
        }
        let ghost mid = bytes_mut_seq(*buf);
        proof {
            lemma_append_empty(mid);
        }
        let r4 = if version >= 4 {
            {
                write_i64(buf, self.usable_bytes);
                Ok(())
            }
        } else {
            if self.usable_bytes != -1i64 {
                Err(Error::UnsupportedFieldVersion(UnsupportedFieldVersion::new(35, "usable_bytes", version)))
            } else {
                Ok(())
            }
        };
        assert(bytes_mut_seq(*buf) == mid + written(s4));
        proof {
            lemma_step(bytes_mut_seq(*old(buf)), w3, s4);
        }
        if r4.is_err() {
            return r4;
        }
        let ghost mid = bytes_mut_seq(*buf);
        proof {
            lemma_append_empty(mid);
        }
        let r5 = if version >= 5 {
            {
                write_bool(buf, self.is_cordoned);
                Ok(())
            }
        } else {
            if self.is_cordoned != false {
                Err(Error::UnsupportedFieldVersion(UnsupportedFieldVersion::new(35, "is_cordoned", version)))
            } else {
                Ok(())
            }
        };
        assert(bytes_mut_seq(*buf) == mid + written(s5));
        proof {
            lemma_step(bytes_mut_seq(*old(buf)), w4, s5);
        }
        if r5.is_err() {
            return r5;
        }
        let ghost mid = bytes_mut_seq(*buf);
        proof {
            lemma_append_empty(mid);
        }
        let r6 = if version >= 2 {
            write_tagged_fields(buf, &sort_by_tag(&self._unknown_tagged_fields))
        } else {
            Ok(())
        };
        assert(bytes_mut_seq(*buf) == mid + written(s6));
        proof {
            lemma_step(bytes_mut_seq(*old(buf)), w5, s6);
        }
        if r6.is_err() {
            return r6;
        }
        Ok(())
    }

    #[verifier::rlimit(100)]
    #[verifier::spinoff_prover]
    pub fn encoded_len(&self, version: i16) -> (r: Result<usize, Error>)
        ensures
            r == len_result(Self::spec_write(self@, version)),
    {
        let ghost m = self@;
        proof {
            reveal(DescribeLogDirsResult::spec_write_error_code);
            reveal(DescribeLogDirsResult::spec_write_log_dir);
            reveal(DescribeLogDirsResult::spec_write_topics);
            reveal(DescribeLogDirsResult::spec_write_total_bytes);
            reveal(DescribeLogDirsResult::spec_write_usable_bytes);
            reveal(DescribeLogDirsResult::spec_write_is_cordoned);
            reveal(DescribeLogDirsResult::spec_write_tags);
        }
        let ghost s0 = Self::spec_write_error_code(m, version);
        let ghost w0 = s0;
        let ghost s1 = Self::spec_write_log_dir(m, version);
        let ghost w1 = chain(w0, s1);
        let ghost s2 = Self::spec_write_topics(m, version);
        let ghost w2 = chain(w1, s2);
        let ghost s3 = Self::spec_write_total_bytes(m, version);
        let ghost w3 = chain(w2, s3);
        let ghost s4 = Self::spec_write_usable_bytes(m, version);
        let ghost w4 = chain(w3, s4);
        let ghost s5 = Self::spec_write_is_cordoned(m, version);
        let ghost w5 = chain(w4, s5);
        let ghost s6 = Self::spec_write_tags(m, version);
        let ghost w6 = chain(w5, s6);
        assert(Self::spec_write(m, version) == w6);
        assert(w5 is Err ==> w6 == w5);
        assert(w4 is Err ==> w6 == w4);
        assert(w3 is Err ==> w6 == w3);
        assert(w2 is Err ==> w6 == w2);
        assert(w1 is Err ==> w6 == w1);
        assert(w0 is Err ==> w6 == w0);
        let mut len: usize = 0;
        let l0 = Ok(2);
        assert(l0 == len_result(s0));
        let n0 = match l0 {
            Ok(n) => n,
            Err(e) => {
                return Err(e);
            },
        };
        len = saturating_sum(len, n0);
        assert(w0 is Ok && len == saturate(written(w0).len() as int));
        let l1 = if version >= 2 {
            compact_string_len(&self.log_dir)
        } else {
            string_len(&self.log_dir)
        };
        assert(l1 == len_result(s1));
        let n1 = match l1 {
            Ok(n) => n,
            Err(e) => {
                return Err(e);
            },
        };
        proof {
            lemma_len_step(w0, s1, n1);
        }
        len = saturating_sum(len, n1);
        assert(w1 is Ok && len == saturate(written(w1).len() as int));
        let l2 = if version >= 2 {
            array_len::<DescribeLogDirsTopic>(&self.topics, version, true)
        } else {
            array_len::<DescribeLogDirsTopic>(&self.topics, version, false)
        };
        assert(l2 == len_result(s2));
        let n2 = match l2 {
            Ok(n) => n,
            Err(e) => {
                return Err(e);
            },
        };
        proof {
            lemma_len_step(w1, s2, n2);
        }
        len = saturating_sum(len, n2);
        assert(w2 is Ok && len == saturate(written(w2).len() as int));
        let l3 = if version >= 4 {
            Ok(8)
        } else {
            if self.total_bytes != -1i64 {
                Err(Error::UnsupportedFieldVersion(UnsupportedFieldVersion::new(35, "total_bytes", version)))
            } else {
                Ok(0)
            }
        };
        assert(l3 == len_result(s3));
        let n3 = match l3 {
            Ok(n) => n,
            Err(e) => {
                return Err(e);
            },
        };
        proof {
            lemma_len_step(w2, s3, n3);
        }
        len = saturating_sum(len, n3);
        assert(w3 is Ok && len == saturate(written(w3).len() as int));
        let l4 = if version >= 4 {
            Ok(8)
        } else {
            if self.usable_bytes != -1i64 {
                Err(Error::UnsupportedFieldVersion(UnsupportedFieldVersion::new(35, "usable_bytes", version)))
            } else {
                Ok(0)
            }
        };
        assert(l4 == len_result(s4));
        let n4 = match l4 {
            Ok(n) => n,
            Err(e) => {
                return Err(e);
            },
        };
        proof {
            lemma_len_step(w3, s4, n4);
        }
        len = saturating_sum(len, n4);
        assert(w4 is Ok && len == saturate(written(w4).len() as int));
        let l5 = if version >= 5 {
            Ok(1)
        } else {
            if self.is_cordoned != false {
                Err(Error::UnsupportedFieldVersion(UnsupportedFieldVersion::new(35, "is_cordoned", version)))
            } else {
                Ok(0)
            }
        };
        assert(l5 == len_result(s5));
        let n5 = match l5 {
            Ok(n) => n,
            Err(e) => {
                return Err(e);
            },
        };
        proof {
            lemma_len_step(w4, s5, n5);
        }
        len = saturating_sum(len, n5);
        assert(w5 is Ok && len == saturate(written(w5).len() as int));
        let l6 = if version >= 2 {
            tagged_fields_len(&sort_by_tag(&self._unknown_tagged_fields))
        } else {
            Ok(0)
        };
        assert(l6 == len_result(s6));
        let n6 = match l6 {
            Ok(n) => n,
            Err(e) => {
                return Err(e);
            },
        };
        proof {
            lemma_len_step(w5, s6, n6);
        }
        len = saturating_sum(len, n6);
        assert(w6 is Ok && len == saturate(written(w6).len() as int));
        Ok(len)
    }
}

#[derive(Debug, PartialEq)]
pub struct DescribeLogDirsTopic {
    /// The topic name.
    pub name: KafkaString,
    /// The partitions.
    pub partitions: Vec<DescribeLogDirsPartition>,
    pub _unknown_tagged_fields: Vec<RawTaggedField>,
}

/// What a `DescribeLogDirsTopic` holds, as the specification sees it.
#[verifier::ext_equal]
pub struct DescribeLogDirsTopicView {
    pub name: Seq<u8>,
    pub partitions: Seq<DescribeLogDirsPartitionView>,
    pub unknown_tagged_fields: Seq<(u32, Seq<u8>)>,
}

impl View for DescribeLogDirsTopic {
    type V = DescribeLogDirsTopicView;

    open spec fn view(&self) -> DescribeLogDirsTopicView {
        DescribeLogDirsTopicView {
            name: self.name@,
            partitions: views(self.partitions@),
            unknown_tagged_fields: views(self._unknown_tagged_fields@),
        }
    }
}

impl Clone for DescribeLogDirsTopic {
    fn clone(&self) -> (r: Self)
        ensures
            r@ == self@,
    {
        let r = DescribeLogDirsTopic {
            name: self.name.clone(),
            partitions: clone_vec(&self.partitions),
            _unknown_tagged_fields: clone_vec(&self._unknown_tagged_fields),
        };
        assert(r@ =~= self@);
        r
    }
}

impl ViewClone for DescribeLogDirsTopic {
    fn clone_view(&self) -> (r: Self) {
        self.clone()
    }
}

impl Default for DescribeLogDirsTopic {
    fn default() -> (r: Self)
        ensures
            r@ == Self::default_view(),
    {
        let r = DescribeLogDirsTopic {
            name: KafkaString::default(),
            partitions: empty_vec(),
            _unknown_tagged_fields: empty_vec(),
        };
        assert(r@ =~= Self::default_view());
        r
    }
}

impl DescribeLogDirsTopic {
    pub open spec fn default_view() -> DescribeLogDirsTopicView {
        DescribeLogDirsTopicView {
            name: Seq::empty(),
            partitions: Seq::empty(),
            unknown_tagged_fields: Seq::empty(),
        }
    }

    /// The `name` field, read from the front of `s`.
    #[verifier::opaque]
    pub open spec fn spec_read_name(s: Seq<u8>, version: i16) -> ReadOutcome<Seq<u8>> {
        if version >= 2 {
            spec_read_compact_string(s)
        } else {
            spec_read_string(s)
        }
    }

    /// The `partitions` field, read from the front of `s`.
    #[verifier::opaque]
    pub open spec fn spec_read_partitions(s: Seq<u8>, version: i16) -> ReadOutcome<Seq<DescribeLogDirsPartitionView>> {
        if version >= 2 {
            spec_read_array::<DescribeLogDirsPartition>(s, version, true)
        } else {
            spec_read_array::<DescribeLogDirsPartition>(s, version, false)
        }
    }

    /// The tagged fields, read from the front of `s`.
    #[verifier::opaque]
    pub open spec fn spec_read_tags(s: Seq<u8>, version: i16) -> ReadOutcome<Seq<(u32, Seq<u8>)>> {
        if version >= 2 {
            spec_read_tagged_fields(s)
        } else {
            Ok((Seq::empty(), s))
        }
    }

    pub open spec fn spec_read(s: Seq<u8>, version: i16) -> ReadOutcome<DescribeLogDirsTopicView> {
        match (Self::spec_read_name(s, version)) {
            Err(e) => Err(e),
            Ok((name, s)) => match (Self::spec_read_partitions(s, version)) {
                Err(e) => Err(e),
                Ok((partitions, s)) => match (Self::spec_read_tags(s, version)) {
                    Err(e) => Err(e),
                    Ok((unknown_tagged_fields, s)) => Ok((DescribeLogDirsTopicView {
                                name: name,
                                partitions: partitions,
                                unknown_tagged_fields: unknown_tagged_fields,
                            }, s)),
                },
            },
        }
    }

    /// What writing the `name` field of `m` appends.
    #[verifier::opaque]
    pub open spec fn spec_write_name(m: DescribeLogDirsTopicView, version: i16) -> WriteOutcome {
        if version >= 2 {
            spec_write_compact_string(m.name)
        } else {
            spec_write_string(m.name)
        }
    }

    /// What writing the `partitions` field of `m` appends.
    #[verifier::opaque]
    pub open spec fn spec_write_partitions(m: DescribeLogDirsTopicView, version: i16) -> WriteOutcome {
        if version >= 2 {
            spec_write_array::<DescribeLogDirsPartition>(m.partitions, version, true)
        } else {
            spec_write_array::<DescribeLogDirsPartition>(m.partitions, version, false)
        }
    }

    /// What writing the tagged fields of `m` appends.
    #[verifier::opaque]
    pub open spec fn spec_write_tags(m: DescribeLogDirsTopicView, version: i16) -> WriteOutcome {
        if version >= 2 {
            spec_write_tagged_fields(sorted_by_tag(m.unknown_tagged_fields))
        } else {
            emit(Seq::empty())
        }
    }

    pub open spec fn spec_write(m: DescribeLogDirsTopicView, version: i16) -> WriteOutcome {
        chain(
            chain(
                Self::spec_write_name(m, version),
                Self::spec_write_partitions(m, version),
            ),
            Self::spec_write_tags(m, version),
        )
    }

    /// Whether reading back what writing `m` in `version` appends gives `m`:
    /// fields that the version does not carry hold their default values, and
    /// tagged fields come in the order in which they are written.
    pub open spec fn canonical(m: DescribeLogDirsTopicView, version: i16) -> bool {
        &&& all_canonical::<DescribeLogDirsPartition>(m.partitions, version)
        &&& (if version >= 2 {
                tags_in_order(m.unknown_tagged_fields)
            } else {
                m.unknown_tagged_fields.len() == 0
        })
    }

    proof fn lemma_round_trip_name(m: DescribeLogDirsTopicView, version: i16, rest: Seq<u8>)
        requires
            Self::canonical(m, version),
            Self::spec_write_name(m, version) is Ok,
        ensures
            Self::spec_read_name(written(Self::spec_write_name(m, version)) + rest, version) == Ok::<(Seq<u8>, Seq<u8>), Error>((m.name, rest)),
    {
        reveal(DescribeLogDirsTopic::spec_read_name);
        reveal(DescribeLogDirsTopic::spec_write_name);
        if version >= 2 {
            lemma_compact_string_round_trip(m.name, rest);
        } else {
            lemma_string_round_trip(m.name, rest);
        }
    }

    proof fn lemma_round_trip_partitions(m: DescribeLogDirsTopicView, version: i16, rest: Seq<u8>)
        requires
            Self::canonical(m, version),
            Self::spec_write_partitions(m, version) is Ok,
        ensures
            Self::spec_read_partitions(written(Self::spec_write_partitions(m, version)) + rest, version) == Ok::<(Seq<DescribeLogDirsPartitionView>, Seq<u8>), Error>((m.partitions, rest)),
    {
        reveal(DescribeLogDirsTopic::spec_read_partitions);
        reveal(DescribeLogDirsTopic::spec_write_partitions);
        if version >= 2 {
            lemma_array_round_trip::<DescribeLogDirsPartition>(m.partitions, version, true, rest);
        } else {
            lemma_array_round_trip::<DescribeLogDirsPartition>(m.partitions, version, false, rest);
        }
    }

    proof fn lemma_round_trip_tags(m: DescribeLogDirsTopicView, version: i16, rest: Seq<u8>)
        requires
            Self::canonical(m, version),
            Self::spec_write_tags(m, version) is Ok,
        ensures
            Self::spec_read_tags(written(Self::spec_write_tags(m, version)) + rest, version) == Ok::<(Seq<(u32, Seq<u8>)>, Seq<u8>), Error>((m.unknown_tagged_fields, rest)),
    {
        reveal(DescribeLogDirsTopic::spec_read_tags);
        reveal(DescribeLogDirsTopic::spec_write_tags);
        if version >= 2 {
            lemma_sorted_by_tag_in_order(m.unknown_tagged_fields);
            lemma_tagged_fields_round_trip(m.unknown_tagged_fields, rest);
        } else {
            assert(Seq::<u8>::empty() + rest =~= rest);
            assert(m.unknown_tagged_fields =~= Seq::empty());
        }
    }

    /// Reading back what writing `m` in `version` appends gives `m` again, and
    /// leaves what follows, for every canonical message whose write succeeds.
    #[verifier::rlimit(70)]
    #[verifier::spinoff_prover]
    pub proof fn lemma_round_trip(m: DescribeLogDirsTopicView, version: i16, rest: Seq<u8>)
        requires
            Self::canonical(m, version),
            Self::spec_write(m, version) is Ok,
        ensures
            Self::spec_read(written(Self::spec_write(m, version)) + rest, version) == Ok::<(DescribeLogDirsTopicView, Seq<u8>), Error>((m, rest)),
    {
        let b0 = written(Self::spec_write_name(m, version));
        let b1 = written(Self::spec_write_partitions(m, version));
        let b2 = written(Self::spec_write_tags(m, version));
        let t3 = rest;
        let t2 = b2 + t3;
        let t1 = b1 + t2;
        let t0 = b0 + t1;
        let w0 = Self::spec_write_name(m, version);
        let w1 = chain(w0, Self::spec_write_partitions(m, version));
        let w2 = chain(w1, Self::spec_write_tags(m, version));
        assert(Self::spec_write(m, version) == w2);
        assert(written(w2) + t3 =~= written(w1) + t2);
        assert(written(w1) + t2 =~= written(w0) + t1);
        Self::lemma_round_trip_name(m, version, t1);
        Self::lemma_round_trip_partitions(m, version, t2);
        Self::lemma_round_trip_tags(m, version, t3);
    }

    /// In a version that does not carry `unknown_tagged_fields`, writing ignores its value.
    pub proof fn lemma_write_ignores_unknown_tagged_fields(m: DescribeLogDirsTopicView, value: Seq<(u32, Seq<u8>)>, version: i16)
        requires
            !(version >= 2),
        ensures
            Self::spec_write((DescribeLogDirsTopicView { unknown_tagged_fields: value, ..m }), version) == Self::spec_write(m, version),
    {
        reveal(DescribeLogDirsTopic::spec_write_name);
        reveal(DescribeLogDirsTopic::spec_write_partitions);
        reveal(DescribeLogDirsTopic::spec_write_tags);
    }

    /// The default message holds the default value of each field of the schema.
    pub proof fn lemma_default_values()
        ensures
            Self::default_view().name.len() == 0,
            Self::default_view().partitions.len() == 0,
            Self::default_view().unknown_tagged_fields.len() == 0,
    {
    }

    /// Whether writing `m` in `version` succeeds, said over its parts: the
    /// version is one the schema covers, every field that the version cannot
    /// carry holds its default value, and every string, byte string, array and
    /// tagged field fits its length prefix.
    pub open spec fn writable(m: DescribeLogDirsTopicView, version: i16) -> bool {
        &&& m.name.len() <= 0x7fff
        &&& (m.partitions.len() <= i32::MAX && all_writable::<DescribeLogDirsPartition>(m.partitions, version))
        &&& (if version >= 2 {
                m.unknown_tagged_fields.len() <= u32::MAX && tags_fit(m.unknown_tagged_fields)
            } else {
                true
        })
    }

    proof fn lemma_writable_name(m: DescribeLogDirsTopicView, version: i16)
        ensures
            Self::spec_write_name(m, version) is Ok <==> m.name.len() <= 0x7fff,
    {
        reveal(DescribeLogDirsTopic::spec_write_name);
    }

    proof fn lemma_writable_partitions(m: DescribeLogDirsTopicView, version: i16)
        ensures
            Self::spec_write_partitions(m, version) is Ok <==> (m.partitions.len() <= i32::MAX && all_writable::<DescribeLogDirsPartition>(m.partitions, version)),
    {
        reveal(DescribeLogDirsTopic::spec_write_partitions);
        if version >= 2 {
            lemma_array_writable::<DescribeLogDirsPartition>(m.partitions, version, true);
        } else {
            lemma_array_writable::<DescribeLogDirsPartition>(m.partitions, version, false);
        }
    }

    proof fn lemma_writable_tags(m: DescribeLogDirsTopicView, version: i16)
        ensures
            Self::spec_write_tags(m, version) is Ok <==> (if version >= 2 { m.unknown_tagged_fields.len() <= u32::MAX && tags_fit(m.unknown_tagged_fields) } else { true }),
    {
        reveal(DescribeLogDirsTopic::spec_write_tags);
        if version >= 2 {
            lemma_sorted_tags_fit(m.unknown_tagged_fields);
            lemma_tagged_fields_writable(sorted_by_tag(m.unknown_tagged_fields));
        }
    }

    /// Writing `m` in `version` succeeds exactly when `m` is writable in it;
    /// so do `write` and `encoded_len`, whose results follow `spec_write`.
    #[verifier::rlimit(48)]
    pub proof fn lemma_writable(m: DescribeLogDirsTopicView, version: i16)
        ensures
            Self::spec_write(m, version) is Ok <==> Self::writable(m, version),
    {
        Self::lemma_writable_name(m, version);
        Self::lemma_writable_partitions(m, version);
        Self::lemma_writable_tags(m, version);
    }

    pub fn with_name(self, value: KafkaString) -> (r: Self)
        ensures
            r@ == (DescribeLogDirsTopicView { name: value@, ..self@ }),
    {
        let mut r = self;
        r.name = value;
        r
    }

    pub fn with_partitions(self, value: Vec<DescribeLogDirsPartition>) -> (r: Self)
        ensures
            r@ == (DescribeLogDirsTopicView { partitions: views(value@), ..self@ }),
    {
        let mut r = self;
        r.partitions = value;
        r
    }

    fn read_name(buf: &mut Bytes, version: i16) -> (r: Result<KafkaString, Error>)
        ensures
            read_as(Self::spec_read_name(bytes_seq(*old(buf)), version), *final(buf), r),
            took_front(*old(buf), *final(buf)),
    {
        proof {
            reveal(DescribeLogDirsTopic::spec_read_name);
        }
        Ok(if version >= 2 {
                read_compact_string(buf)?
            } else {
                read_string(buf)?
        })
    }

    fn read_partitions(buf: &mut Bytes, version: i16) -> (r: Result<Vec<DescribeLogDirsPartition>, Error>)
        ensures
            read_vec_as(Self::spec_read_partitions(bytes_seq(*old(buf)), version), *final(buf), r),
            took_front(*old(buf), *final(buf)),
    {
        proof {
            reveal(DescribeLogDirsTopic::spec_read_partitions);
        }
        Ok(if version >= 2 {
                read_array::<DescribeLogDirsPartition>(buf, version, true)?
            } else {
                read_array::<DescribeLogDirsPartition>(buf, version, false)?
        })
    }

    fn read_tags(buf: &mut Bytes, version: i16) -> (r: Result<Vec<RawTaggedField>, Error>)
        ensures
            read_vec_as(Self::spec_read_tags(bytes_seq(*old(buf)), version), *final(buf), r),
            took_front(*old(buf), *final(buf)),
    {
        proof {
            reveal(DescribeLogDirsTopic::spec_read_tags);
        }
        Ok(if version >= 2 {
                read_tagged_fields(buf)?
            } else {
                empty_vec()
        })
    }

    pub fn read(buf: &mut Bytes, version: i16) -> (r: Result<Self, Error>)
        ensures
            read_as(Self::spec_read(bytes_seq(*old(buf)), version), *final(buf), r),
            took_front(*old(buf), *final(buf)),
    {
        let name = Self::read_name(buf, version)?;
        let partitions = Self::read_partitions(buf, version)?;
        let _unknown_tagged_fields = Self::read_tags(buf, version)?;
        Ok(DescribeLogDirsTopic {
                name: name,
                partitions: partitions,
                _unknown_tagged_fields: _unknown_tagged_fields,
        })
    }

    #[verifier::rlimit(60)]
    pub fn write(&self, buf: &mut BytesMut, version: i16) -> (r: Result<(), Error>)
        requires
            has_room(Self::spec_write(self@, version), *old(buf)),
        ensures
            wrote(Self::spec_write(self@, version), *old(buf), *final(buf), r),
    {
        let ghost m = self@;
        proof {
            reveal(DescribeLogDirsTopic::spec_write_name);
            reveal(DescribeLogDirsTopic::spec_write_partitions);
            reveal(DescribeLogDirsTopic::spec_write_tags);
        }
        let ghost s0 = Self::spec_write_name(m, version);
        let ghost w0 = s0;
        let ghost s1 = Self::spec_write_partitions(m, version);
        let ghost w1 = chain(w0, s1);
        let ghost s2 = Self::spec_write_tags(m, version);
        let ghost w2 = chain(w1, s2);
        assert(Self::spec_write(m, version) == w2);
        assert(written(w1).len() <= written(w2).len() && (w1 is Err ==> w2 == w1));
        assert(written(w0).len() <= written(w2).len() && (w0 is Err ==> w2 == w0));
        let ghost mid = bytes_mut_seq(*buf);
        proof {
            lemma_append_empty(mid);
        }
        let r0 = if version >= 2 {
            write_compact_string(buf, &self.name)
        } else {
            write_string(buf, &self.name)
        };
        assert(bytes_mut_seq(*buf) == mid + written(s0));
        if r0.is_err() {
            return r0;
        }
        let ghost mid = bytes_mut_seq(*buf);
        proof {
            lemma_append_empty(mid);
        }
        let r1 = if version >= 2 {
            write_array::<DescribeLogDirsPartition>(buf, &self.partitions, version, true)
        } else {
            write_array::<DescribeLogDirsPartition>(buf, &self.partitions, version, false)
        };
        assert(bytes_mut_seq(*buf) == mid + written(s1));
        proof {
            lemma_step(bytes_mut_seq(*old(buf)), w0, s1);
        }
        if r1.is_err() {
            return r1;
        }
        let ghost mid = bytes_mut_seq(*buf);
        proof {
            lemma_append_empty(mid);
        }
        let r2 = if version >= 2 {
            write_tagged_fields(buf, &sort_by_tag(&self._unknown_tagged_fields))
        } else {
            Ok(())
        };
        assert(bytes_mut_seq(*buf) == mid + written(s2));
        proof {
            lemma_step(bytes_mut_seq(*old(buf)), w1, s2);
        }
        if r2.is_err() {
            return r2;
        }
        Ok(())
    }

    #[verifier::rlimit(60)]
    pub fn encoded_len(&self, version: i16) -> (r: Result<usize, Error>)
        ensures
            r == len_result(Self::spec_write(self@, version)),
    {
        let ghost m = self@;
        proof {
            reveal(DescribeLogDirsTopic::spec_write_name);
            reveal(DescribeLogDirsTopic::spec_write_partitions);
            reveal(DescribeLogDirsTopic::spec_write_tags);
        }
        let ghost s0 = Self::spec_write_name(m, version);
        let ghost w0 = s0;
        let ghost s1 = Self::spec_write_partitions(m, version);
        let ghost w1 = chain(w0, s1);
        let ghost s2 = Self::spec_write_tags(m, version);
        let ghost w2 = chain(w1, s2);
        assert(Self::spec_write(m, version) == w2);
        assert(w1 is Err ==> w2 == w1);
        assert(w0 is Err ==> w2 == w0);
        let mut len: usize = 0;
        let l0 = if version >= 2 {
            compact_string_len(&self.name)
        } else {
            string_len(&self.name)
        };
        assert(l0 == len_result(s0));
        let n0 = match l0 {
            Ok(n) => n,
            Err(e) => {
                return Err(e);
            },
        };
        len = saturating_sum(len, n0);
        assert(w0 is Ok && len == saturate(written(w0).len() as int));
        let l1 = if version >= 2 {
            array_len::<DescribeLogDirsPartition>(&self.partitions, version, true)
        } else {
            array_len::<DescribeLogDirsPartition>(&self.partitions, version, false)
        };
        assert(l1 == len_result(s1));
        let n1 = match l1 {
            Ok(n) => n,
            Err(e) => {
                return Err(e);
            },
        };
        proof {
            lemma_len_step(w0, s1, n1);
        }
        len = saturating_sum(len, n1);
        assert(w1 is Ok && len == saturate(written(w1).len() as int));
        let l2 = if version >= 2 {
            tagged_fields_len(&sort_by_tag(&self._unknown_tagged_fields))
        } else {
            Ok(0)
        };
        assert(l2 == len_result(s2));
        let n2 = match l2 {
            Ok(n) => n,
            Err(e) => {
                return Err(e);
            },
        };
        proof {
            lemma_len_step(w1, s2, n2);
        }
        len = saturating_sum(len, n2);
        assert(w2 is Ok && len == saturate(written(w2).len() as int));
        Ok(len)
    }
}

#[derive(Debug, PartialEq)]
pub struct DescribeLogDirsPartition {
    /// The partition index.
    pub partition_index: i32,
    /// The size of the log segments in this partition in bytes.
    pub partition_size: i64,
    /// The lag of the log's LEO w.r.t. partition's HW (if it is the current log for the partition)
    /// or current replica's LEO (if it is the future log for the partition).
    pub offset_lag: i64,
    /// True if this log is created by AlterReplicaLogDirsRequest and will replace the current log
    /// of the replica in the future.
    pub is_future_key: bool,
    pub _unknown_tagged_fields: Vec<RawTaggedField>,
}

/// What a `DescribeLogDirsPartition` holds, as the specification sees it.
#[verifier::ext_equal]
pub struct DescribeLogDirsPartitionView {
    pub partition_index: i32,
    pub partition_size: i64,
    pub offset_lag: i64,
    pub is_future_key: bool,
    pub unknown_tagged_fields: Seq<(u32, Seq<u8>)>,
}

impl View for DescribeLogDirsPartition {
    type V = DescribeLogDirsPartitionView;

    open spec fn view(&self) -> DescribeLogDirsPartitionView {
        DescribeLogDirsPartitionView {
            partition_index: self.partition_index,
            partition_size: self.partition_size,
            offset_lag: self.offset_lag,
            is_future_key: self.is_future_key,
            unknown_tagged_fields: views(self._unknown_tagged_fields@),
        }
    }
}

impl Clone for DescribeLogDirsPartition {
    fn clone(&self) -> (r: Self)
        ensures
            r@ == self@,
    {
        let r = DescribeLogDirsPartition {
            partition_index: self.partition_index,
            partition_size: self.partition_size,
            offset_lag: self.offset_lag,
            is_future_key: self.is_future_key,
            _unknown_tagged_fields: clone_vec(&self._unknown_tagged_fields),
        };
        assert(r@ =~= self@);
        r
    }
}

impl ViewClone for DescribeLogDirsPartition {
    fn clone_view(&self) -> (r: Self) {
        self.clone()
    }
}

impl Default for DescribeLogDirsPartition {
    fn default() -> (r: Self)
        ensures
            r@ == Self::default_view(),
    {
        let r = DescribeLogDirsPartition {
            partition_index: 0_i32,
            partition_size: 0_i64,
            offset_lag: 0_i64,
            is_future_key: false,
            _unknown_tagged_fields: empty_vec(),
        };
        assert(r@ =~= Self::default_view());
        r
    }
}

impl DescribeLogDirsPartition {
    pub open spec fn default_view() -> DescribeLogDirsPartitionView {
        DescribeLogDirsPartitionView {
            partition_index: 0_i32,
            partition_size: 0_i64,
            offset_lag: 0_i64,
            is_future_key: false,
            unknown_tagged_fields: Seq::empty(),
        }
    }

    /// The `partition_index` field, read from the front of `s`.
    #[verifier::opaque]
    pub open spec fn spec_read_partition_index(s: Seq<u8>, version: i16) -> ReadOutcome<i32> {
        spec_read_i32(s)
    }

    /// The `partition_size` field, read from the front of `s`.
    #[verifier::opaque]
    pub open spec fn spec_read_partition_size(s: Seq<u8>, version: i16) -> ReadOutcome<i64> {
        spec_read_i64(s)
    }

    /// The `offset_lag` field, read from the front of `s`.
    #[verifier::opaque]
    pub open spec fn spec_read_offset_lag(s: Seq<u8>, version: i16) -> ReadOutcome<i64> {
        spec_read_i64(s)
    }

    /// The `is_future_key` field, read from the front of `s`.
    #[verifier::opaque]
    pub open spec fn spec_read_is_future_key(s: Seq<u8>, version: i16) -> ReadOutcome<bool> {
        spec_read_bool(s)
    }

    /// The tagged fields, read from the front of `s`.
    #[verifier::opaque]
    pub open spec fn spec_read_tags(s: Seq<u8>, version: i16) -> ReadOutcome<Seq<(u32, Seq<u8>)>> {
        if version >= 2 {
            spec_read_tagged_fields(s)
        } else {
            Ok((Seq::empty(), s))
        }
    }

    pub open spec fn spec_read(s: Seq<u8>, version: i16) -> ReadOutcome<DescribeLogDirsPartitionView> {
        match (Self::spec_read_partition_index(s, version)) {
            Err(e) => Err(e),
            Ok((partition_index, s)) => match (Self::spec_read_partition_size(s, version)) {
                Err(e) => Err(e),
                Ok((partition_size, s)) => match (Self::spec_read_offset_lag(s, version)) {
                    Err(e) => Err(e),
                    Ok((offset_lag, s)) => match (Self::spec_read_is_future_key(s, version)) {
                        Err(e) => Err(e),
                        Ok((is_future_key, s)) => match (Self::spec_read_tags(s, version)) {
                            Err(e) => Err(e),
                            Ok((unknown_tagged_fields, s)) => Ok((DescribeLogDirsPartitionView {
                                        partition_index: partition_index,
                                        partition_size: partition_size,
                                        offset_lag: offset_lag,
                                        is_future_key: is_future_key,
                                        unknown_tagged_fields: unknown_tagged_fields,
                                    }, s)),
                        },
                    },
                },
            },
        }
    }

    /// What writing the `partition_index` field of `m` appends.
    #[verifier::opaque]
    pub open spec fn spec_write_partition_index(m: DescribeLogDirsPartitionView, version: i16) -> WriteOutcome {
        spec_write_i32(m.partition_index)
    }

    /// What writing the `partition_size` field of `m` appends.
    #[verifier::opaque]
    pub open spec fn spec_write_partition_size(m: DescribeLogDirsPartitionView, version: i16) -> WriteOutcome {
        spec_write_i64(m.partition_size)
    }

    /// What writing the `offset_lag` field of `m` appends.
    #[verifier::opaque]
    pub open spec fn spec_write_offset_lag(m: DescribeLogDirsPartitionView, version: i16) -> WriteOutcome {
        spec_write_i64(m.offset_lag)
    }

    /// What writing the `is_future_key` field of `m` appends.
    #[verifier::opaque]
    pub open spec fn spec_write_is_future_key(m: DescribeLogDirsPartitionView, version: i16) -> WriteOutcome {
        spec_write_bool(m.is_future_key)
    }

    /// What writing the tagged fields of `m` appends.
    #[verifier::opaque]
    pub open spec fn spec_write_tags(m: DescribeLogDirsPartitionView, version: i16) -> WriteOutcome {
        if version >= 2 {
            spec_write_tagged_fields(sorted_by_tag(m.unknown_tagged_fields))
        } else {
            emit(Seq::empty())
        }
    }

    pub open spec fn spec_write(m: DescribeLogDirsPartitionView, version: i16) -> WriteOutcome {
        chain(
            chain(
                chain(
                    chain(
                        Self::spec_write_partition_index(m, version),
                        Self::spec_write_partition_size(m, version),
                    ),
                    Self::spec_write_offset_lag(m, version),
                ),
                Self::spec_write_is_future_key(m, version),
            ),
            Self::spec_write_tags(m, version),
        )
    }

    /// Whether reading back what writing `m` in `version` appends gives `m`:
    /// fields that the version does not carry hold their default values, and
    /// tagged fields come in the order in which they are written.
    pub open spec fn canonical(m: DescribeLogDirsPartitionView, version: i16) -> bool {
        &&& (if version >= 2 {
                tags_in_order(m.unknown_tagged_fields)
            } else {
                m.unknown_tagged_fields.len() == 0
        })
    }

    proof fn lemma_round_trip_partition_index(m: DescribeLogDirsPartitionView, version: i16, rest: Seq<u8>)
        requires
            Self::canonical(m, version),
            Self::spec_write_partition_index(m, version) is Ok,
        ensures
            Self::spec_read_partition_index(written(Self::spec_write_partition_index(m, version)) + rest, version) == Ok::<(i32, Seq<u8>), Error>((m.partition_index, rest)),
    {
        reveal(DescribeLogDirsPartition::spec_read_partition_index);
        reveal(DescribeLogDirsPartition::spec_write_partition_index);
        lemma_i32_roundtrip(m.partition_index, rest);
    }

    proof fn lemma_round_trip_partition_size(m: DescribeLogDirsPartitionView, version: i16, rest: Seq<u8>)
        requires
            Self::canonical(m, version),
            Self::spec_write_partition_size(m, version) is Ok,
        ensures
            Self::spec_read_partition_size(written(Self::spec_write_partition_size(m, version)) + rest, version) == Ok::<(i64, Seq<u8>), Error>((m.partition_size, rest)),
    {
        reveal(DescribeLogDirsPartition::spec_read_partition_size);
        reveal(DescribeLogDirsPartition::spec_write_partition_size);
        lemma_i64_roundtrip(m.partition_size, rest);
    }

    proof fn lemma_round_trip_offset_lag(m: DescribeLogDirsPartitionView, version: i16, rest: Seq<u8>)
        requires
            Self::canonical(m, version),
            Self::spec_write_offset_lag(m, version) is Ok,
        ensures
            Self::spec_read_offset_lag(written(Self::spec_write_offset_lag(m, version)) + rest, version) == Ok::<(i64, Seq<u8>), Error>((m.offset_lag, rest)),
    {
        reveal(DescribeLogDirsPartition::spec_read_offset_lag);
        reveal(DescribeLogDirsPartition::spec_write_offset_lag);
        lemma_i64_roundtrip(m.offset_lag, rest);
    }

    proof fn lemma_round_trip_is_future_key(m: DescribeLogDirsPartitionView, version: i16, rest: Seq<u8>)
        requires
            Self::canonical(m, version),
            Self::spec_write_is_future_key(m, version) is Ok,
        ensures
            Self::spec_read_is_future_key(written(Self::spec_write_is_future_key(m, version)) + rest, version) == Ok::<(bool, Seq<u8>), Error>((m.is_future_key, rest)),
    {
        reveal(DescribeLogDirsPartition::spec_read_is_future_key);
        reveal(DescribeLogDirsPartition::spec_write_is_future_key);
        lemma_bool_roundtrip(m.is_future_key, rest);
    }

    proof fn lemma_round_trip_tags(m: DescribeLogDirsPartitionView, version: i16, rest: Seq<u8>)
        requires
            Self::canonical(m, version),
            Self::spec_write_tags(m, version) is Ok,
        ensures
            Self::spec_read_tags(written(Self::spec_write_tags(m, version)) + rest, version) == Ok::<(Seq<(u32, Seq<u8>)>, Seq<u8>), Error>((m.unknown_tagged_fields, rest)),
    {
        reveal(DescribeLogDirsPartition::spec_read_tags);
        reveal(DescribeLogDirsPartition::spec_write_tags);
        if version >= 2 {
            lemma_sorted_by_tag_in_order(m.unknown_tagged_fields);
            lemma_tagged_fields_round_trip(m.unknown_tagged_fields, rest);
        } else {
            assert(Seq::<u8>::empty() + rest =~= rest);
            assert(m.unknown_tagged_fields =~= Seq::empty());
        }
    }

    /// Reading back what writing `m` in `version` appends gives `m` again, and
    /// leaves what follows, for every canonical message whose write succeeds.
    #[verifier::rlimit(90)]
    #[verifier::spinoff_prover]
    pub proof fn lemma_round_trip(m: DescribeLogDirsPartitionView, version: i16, rest: Seq<u8>)
        requires
            Self::canonical(m, version),
            Self::spec_write(m, version) is Ok,
        ensures
            Self::spec_read(written(Self::spec_write(m, version)) + rest, version) == Ok::<(DescribeLogDirsPartitionView, Seq<u8>), Error>((m, rest)),
    {
        let b0 = written(Self::spec_write_partition_index(m, version));
        let b1 = written(Self::spec_write_partition_size(m, version));
        let b2 = written(Self::spec_write_offset_lag(m, version));
        let b3 = written(Self::spec_write_is_future_key(m, version));
        let b4 = written(Self::spec_write_tags(m, version));
        let t5 = rest;
        let t4 = b4 + t5;
        let t3 = b3 + t4;
        let t2 = b2 + t3;
        let t1 = b1 + t2;
        let t0 = b0 + t1;
        let w0 = Self::spec_write_partition_index(m, version);
        let w1 = chain(w0, Self::spec_write_partition_size(m, version));
        let w2 = chain(w1, Self::spec_write_offset_lag(m, version));
        let w3 = chain(w2, Self::spec_write_is_future_key(m, version));
        let w4 = chain(w3, Self::spec_write_tags(m, version));
        assert(Self::spec_write(m, version) == w4);
        assert(written(w4) + t5 =~= written(w3) + t4);
        assert(written(w3) + t4 =~= written(w2) + t3);
        assert(written(w2) + t3 =~= written(w1) + t2);
        assert(written(w1) + t2 =~= written(w0) + t1);
        Self::lemma_round_trip_partition_index(m, version, t1);
        Self::lemma_round_trip_partition_size(m, version, t2);
        Self::lemma_round_trip_offset_lag(m, version, t3);
        Self::lemma_round_trip_is_future_key(m, version, t4);
        Self::lemma_round_trip_tags(m, version, t5);
    }

    /// In a version that does not carry `unknown_tagged_fields`, writing ignores its value.
    pub proof fn lemma_write_ignores_unknown_tagged_fields(m: DescribeLogDirsPartitionView, value: Seq<(u32, Seq<u8>)>, version: i16)
        requires
            !(version >= 2),
        ensures
            Self::spec_write((DescribeLogDirsPartitionView { unknown_tagged_fields: value, ..m }), version) == Self::spec_write(m, version),
    {
        reveal(DescribeLogDirsPartition::spec_write_partition_index);
        reveal(DescribeLogDirsPartition::spec_write_partition_size);
        reveal(DescribeLogDirsPartition::spec_write_offset_lag);
        reveal(DescribeLogDirsPartition::spec_write_is_future_key);
        reveal(DescribeLogDirsPartition::spec_write_tags);
    }

    /// The default message holds the default value of each field of the schema.
    pub proof fn lemma_default_values()
        ensures
            Self::default_view().partition_index == (0_i32),
            Self::default_view().partition_size == (0_i64),
            Self::default_view().offset_lag == (0_i64),
            Self::default_view().is_future_key == (false),
            Self::default_view().unknown_tagged_fields.len() == 0,
    {
    }

    /// Each integer, boolean and identifier field is written as its standard
    /// big-endian bytes (a boolean as `1` or `0`) in the versions that carry
    /// it, and as nothing in the others; reading it takes those bytes back (any
    /// byte other than `0` reads as `true`), or gives its default value.
    pub proof fn lemma_field_encodings(m: DescribeLogDirsPartitionView, s: Seq<u8>, version: i16)
        ensures
            true ==> Self::spec_write_partition_index(m, version) == Ok::<Seq<u8>, (Error, Seq<u8>)>(u32_bytes(m.partition_index as u32)),
            true ==> Self::spec_write_partition_size(m, version) == Ok::<Seq<u8>, (Error, Seq<u8>)>(u64_bytes(m.partition_size as u64)),
            true ==> Self::spec_write_offset_lag(m, version) == Ok::<Seq<u8>, (Error, Seq<u8>)>(u64_bytes(m.offset_lag as u64)),
            true ==> Self::spec_write_is_future_key(m, version) == Ok::<Seq<u8>, (Error, Seq<u8>)>(seq![if m.is_future_key { 1u8 } else { 0u8 }]),
            true ==> Self::spec_read_partition_index(s, version) == spec_read_i32(s),
            true ==> Self::spec_read_partition_size(s, version) == spec_read_i64(s),
            true ==> Self::spec_read_offset_lag(s, version) == spec_read_i64(s),
            true ==> Self::spec_read_is_future_key(s, version) == (if s.len() < 1 { Err(Error::UnexpectedEof) } else { Ok((s[0] != 0, s.drop_first())) }),
    {
        reveal(DescribeLogDirsPartition::spec_write_partition_index);
        reveal(DescribeLogDirsPartition::spec_read_partition_index);
        reveal(DescribeLogDirsPartition::spec_write_partition_size);
        reveal(DescribeLogDirsPartition::spec_read_partition_size);
        reveal(DescribeLogDirsPartition::spec_write_offset_lag);
        reveal(DescribeLogDirsPartition::spec_read_offset_lag);
        reveal(DescribeLogDirsPartition::spec_write_is_future_key);
        reveal(DescribeLogDirsPartition::spec_read_is_future_key);
    }

    /// Whether writing `m` in `version` succeeds, said over its parts: the
    /// version is one the schema covers, every field that the version cannot
    /// carry holds its default value, and every string, byte string, array and
    /// tagged field fits its length prefix.
    pub open spec fn writable(m: DescribeLogDirsPartitionView, version: i16) -> bool {
        &&& (if version >= 2 {
                m.unknown_tagged_fields.len() <= u32::MAX && tags_fit(m.unknown_tagged_fields)
            } else {
                true
        })
    }

    proof fn lemma_writable_partition_index(m: DescribeLogDirsPartitionView, version: i16)
        ensures
            Self::spec_write_partition_index(m, version) is Ok <==> true,
    {
        reveal(DescribeLogDirsPartition::spec_write_partition_index);
    }

    proof fn lemma_writable_partition_size(m: DescribeLogDirsPartitionView, version: i16)
        ensures
            Self::spec_write_partition_size(m, version) is Ok <==> true,
    {
        reveal(DescribeLogDirsPartition::spec_write_partition_size);
    }

    proof fn lemma_writable_offset_lag(m: DescribeLogDirsPartitionView, version: i16)
        ensures
            Self::spec_write_offset_lag(m, version) is Ok <==> true,
    {
        reveal(DescribeLogDirsPartition::spec_write_offset_lag);
    }

    proof fn lemma_writable_is_future_key(m: DescribeLogDirsPartitionView, version: i16)
        ensures
            Self::spec_write_is_future_key(m, version) is Ok <==> true,
    {
        reveal(DescribeLogDirsPartition::spec_write_is_future_key);
    }

    proof fn lemma_writable_tags(m: DescribeLogDirsPartitionView, version: i16)
        ensures
            Self::spec_write_tags(m, version) is Ok <==> (if version >= 2 { m.unknown_tagged_fields.len() <= u32::MAX && tags_fit(m.unknown_tagged_fields) } else { true }),
    {
        reveal(DescribeLogDirsPartition::spec_write_tags);
        if version >= 2 {
            lemma_sorted_tags_fit(m.unknown_tagged_fields);
            lemma_tagged_fields_writable(sorted_by_tag(m.unknown_tagged_fields));
        }
    }

    /// Writing `m` in `version` succeeds exactly when `m` is writable in it;
    /// so do `write` and `encoded_len`, whose results follow `spec_write`.
    #[verifier::rlimit(60)]
    pub proof fn lemma_writable(m: DescribeLogDirsPartitionView, version: i16)
        ensures
            Self::spec_write(m, version) is Ok <==> Self::writable(m, version),
    {
        Self::lemma_writable_partition_index(m, version);
        Self::lemma_writable_partition_size(m, version);
        Self::lemma_writable_offset_lag(m, version);
        Self::lemma_writable_is_future_key(m, version);
        Self::lemma_writable_tags(m, version);
    }

    pub fn with_partition_index(self, value: i32) -> (r: Self)
        ensures
            r@ == (DescribeLogDirsPartitionView { partition_index: value, ..self@ }),
    {
        let mut r = self;
        r.partition_index = value;
        r
    }

    pub fn with_partition_size(self, value: i64) -> (r: Self)
        ensures
            r@ == (DescribeLogDirsPartitionView { partition_size: value, ..self@ }),
    {
        let mut r = self;
        r.partition_size = value;
        r
    }

    pub fn with_offset_lag(self, value: i64) -> (r: Self)
        ensures
            r@ == (DescribeLogDirsPartitionView { offset_lag: value, ..self@ }),
    {
        let mut r = self;
        r.offset_lag = value;
        r
    }

    pub fn with_is_future_key(self, value: bool) -> (r: Self)
        ensures
            r@ == (DescribeLogDirsPartitionView { is_future_key: value, ..self@ }),
    {
        let mut r = self;
        r.is_future_key = value;
        r
    }

    fn read_partition_index(buf: &mut Bytes, version: i16) -> (r: Result<i32, Error>)
        ensures
            read_as(Self::spec_read_partition_index(bytes_seq(*old(buf)), version), *final(buf), r),
            took_front(*old(buf), *final(buf)),
    {
        proof {
            reveal(DescribeLogDirsPartition::spec_read_partition_index);
        }
        Ok(read_i32(buf)?)
    }

    fn read_partition_size(buf: &mut Bytes, version: i16) -> (r: Result<i64, Error>)
        ensures
            read_as(Self::spec_read_partition_size(bytes_seq(*old(buf)), version), *final(buf), r),
            took_front(*old(buf), *final(buf)),
    {
        proof {
            reveal(DescribeLogDirsPartition::spec_read_partition_size);
        }
        Ok(read_i64(buf)?)
    }

    fn read_offset_lag(buf: &mut Bytes, version: i16) -> (r: Result<i64, Error>)
        ensures
            read_as(Self::spec_read_offset_lag(bytes_seq(*old(buf)), version), *final(buf), r),
            took_front(*old(buf), *final(buf)),
    {
        proof {
            reveal(DescribeLogDirsPartition::spec_read_offset_lag);
        }
        Ok(read_i64(buf)?)
    }

    fn read_is_future_key(buf: &mut Bytes, version: i16) -> (r: Result<bool, Error>)
        ensures
            read_as(Self::spec_read_is_future_key(bytes_seq(*old(buf)), version), *final(buf), r),
            took_front(*old(buf), *final(buf)),
    {
        proof {
            reveal(DescribeLogDirsPartition::spec_read_is_future_key);
        }
        Ok(read_bool(buf)?)
    }

    fn read_tags(buf: &mut Bytes, version: i16) -> (r: Result<Vec<RawTaggedField>, Error>)
        ensures
            read_vec_as(Self::spec_read_tags(bytes_seq(*old(buf)), version), *final(buf), r),
            took_front(*old(buf), *final(buf)),
    {
        proof {
            reveal(DescribeLogDirsPartition::spec_read_tags);
        }
        Ok(if version >= 2 {
                read_tagged_fields(buf)?
            } else {
                empty_vec()
        })
    }

    pub fn read(buf: &mut Bytes, version: i16) -> (r: Result<Self, Error>)
        ensures
            read_as(Self::spec_read(bytes_seq(*old(buf)), version), *final(buf), r),
            took_front(*old(buf), *final(buf)),
    {
        let partition_index = Self::read_partition_index(buf, version)?;
        let partition_size = Self::read_partition_size(buf, version)?;
        let offset_lag = Self::read_offset_lag(buf, version)?;
        let is_future_key = Self::read_is_future_key(buf, version)?;
        let _unknown_tagged_fields = Self::read_tags(buf, version)?;
        Ok(DescribeLogDirsPartition {
                partition_index: partition_index,
                partition_size: partition_size,
                offset_lag: offset_lag,
                is_future_key: is_future_key,
                _unknown_tagged_fields: _unknown_tagged_fields,
        })
    }

    #[verifier::rlimit(80)]
    pub fn write(&self, buf: &mut BytesMut, version: i16) -> (r: Result<(), Error>)
        requires
            has_room(Self::spec_write(self@, version), *old(buf)),
        ensures
            wrote(Self::spec_write(self@, version), *old(buf), *final(buf), r),
    {
        let ghost m = self@;
        proof {
            reveal(DescribeLogDirsPartition::spec_write_partition_index);
            reveal(DescribeLogDirsPartition::spec_write_partition_size);
            reveal(DescribeLogDirsPartition::spec_write_offset_lag);
            reveal(DescribeLogDirsPartition::spec_write_is_future_key);
            reveal(DescribeLogDirsPartition::spec_write_tags);
        }
        let ghost s0 = Self::spec_write_partition_index(m, version);
        let ghost w0 = s0;
        let ghost s1 = Self::spec_write_partition_size(m, version);
        let ghost w1 = chain(w0, s1);
        let ghost s2 = Self::spec_write_offset_lag(m, version);
        let ghost w2 = chain(w1, s2);
        let ghost s3 = Self::spec_write_is_future_key(m, version);
        let ghost w3 = chain(w2, s3);
        let ghost s4 = Self::spec_write_tags(m, version);
        let ghost w4 = chain(w3, s4);
        assert(Self::spec_write(m, version) == w4);
        assert(written(w3).len() <= written(w4).len() && (w3 is Err ==> w4 == w3));
        assert(written(w2).len() <= written(w4).len() && (w2 is Err ==> w4 == w2));
        assert(written(w1).len() <= written(w4).len() && (w1 is Err ==> w4 == w1));
        assert(written(w0).len() <= written(w4).len() && (w0 is Err ==> w4 == w0));
        let ghost mid = bytes_mut_seq(*buf);
        proof {
            lemma_append_empty(mid);
        }
        let r0 = {
            write_i32(buf, self.partition_index);
            Ok(())
        };
        assert(bytes_mut_seq(*buf) == mid + written(s0));
        if r0.is_err() {
            return r0;
        }
        let ghost mid = bytes_mut_seq(*buf);
        proof {
            lemma_append_empty(mid);
        }
        let r1 = {
            write_i64(buf, self.partition_size);
            Ok(())
        };
        assert(bytes_mut_seq(*buf) == mid + written(s1));
        proof {
            lemma_step(bytes_mut_seq(*old(buf)), w0, s1);
        }
        if r1.is_err() {
            return r1;
        }
        let ghost mid = bytes_mut_seq(*buf);
        proof {
            lemma_append_empty(mid);
        }
        let r2 = {
            write_i64(buf, self.offset_lag);
            Ok(())
        };
        assert(bytes_mut_seq(*buf) == mid + written(s2));
        proof {
            lemma_step(bytes_mut_seq(*old(buf)), w1, s2);
        }
        if r2.is_err() {
            return r2;
        }
        let ghost mid = bytes_mut_seq(*buf);
        proof {
            lemma_append_empty(mid);
        }
        let r3 = {
            write_bool(buf, self.is_future_key);
            Ok(())
        };
        assert(bytes_mut_seq(*buf) == mid + written(s3));
        proof {
            lemma_step(bytes_mut_seq(*old(buf)), w2, s3);
        }
        if r3.is_err() {
            return r3;
        }
        let ghost mid = bytes_mut_seq(*buf);
        proof {
            lemma_append_empty(mid);
        }
        let r4 = if version >= 2 {
            write_tagged_fields(buf, &sort_by_tag(&self._unknown_tagged_fields))
        } else {
            Ok(())
        };
        assert(bytes_mut_seq(*buf) == mid + written(s4));
        proof {
            lemma_step(bytes_mut_seq(*old(buf)), w3, s4);
        }
        if r4.is_err() {
            return r4;
        }
        Ok(())
    }

    #[verifier::rlimit(80)]
    pub fn encoded_len(&self, version: i16) -> (r: Result<usize, Error>)
        ensures
            r == len_result(Self::spec_write(self@, version)),
    {
        let ghost m = self@;
        proof {
            reveal(DescribeLogDirsPartition::spec_write_partition_index);
            reveal(DescribeLogDirsPartition::spec_write_partition_size);
            reveal(DescribeLogDirsPartition::spec_write_offset_lag);
            reveal(DescribeLogDirsPartition::spec_write_is_future_key);
            reveal(DescribeLogDirsPartition::spec_write_tags);
        }
        let ghost s0 = Self::spec_write_partition_index(m, version);
        let ghost w0 = s0;
        let ghost s1 = Self::spec_write_partition_size(m, version);
        let ghost w1 = chain(w0, s1);
        let ghost s2 = Self::spec_write_offset_lag(m, version);
        let ghost w2 = chain(w1, s2);
        let ghost s3 = Self::spec_write_is_future_key(m, version);
        let ghost w3 = chain(w2, s3);
        let ghost s4 = Self::spec_write_tags(m, version);
        let ghost w4 = chain(w3, s4);
        assert(Self::spec_write(m, version) == w4);
        assert(w3 is Err ==> w4 == w3);
        assert(w2 is Err ==> w4 == w2);
        assert(w1 is Err ==> w4 == w1);
        assert(w0 is Err ==> w4 == w0);
        let mut len: usize = 0;
        let l0 = Ok(4);
        assert(l0 == len_result(s0));
        let n0 = match l0 {
            Ok(n) => n,
            Err(e) => {
                return Err(e);
            },
        };
        len = saturating_sum(len, n0);
        assert(w0 is Ok && len == saturate(written(w0).len() as int));
        let l1 = Ok(8);
        assert(l1 == len_result(s1));
        let n1 = match l1 {
            Ok(n) => n,
            Err(e) => {
                return Err(e);
            },
        };
        proof {
            lemma_len_step(w0, s1, n1);
        }
        len = saturating_sum(len, n1);
        assert(w1 is Ok && len == saturate(written(w1).len() as int));
        let l2 = Ok(8);
        assert(l2 == len_result(s2));
        let n2 = match l2 {
            Ok(n) => n,
            Err(e) => {
                return Err(e);
            },
        };
        proof {
            lemma_len_step(w1, s2, n2);
        }
        len = saturating_sum(len, n2);
        assert(w2 is Ok && len == saturate(written(w2).len() as int));
        let l3 = Ok(1);
        assert(l3 == len_result(s3));
        let n3 = match l3 {
            Ok(n) => n,
            Err(e) => {
                return Err(e);
            },
        };
        proof {
            lemma_len_step(w2, s3, n3);
        }
        len = saturating_sum(len, n3);
        assert(w3 is Ok && len == saturate(written(w3).len() as int));
        let l4 = if version >= 2 {
            tagged_fields_len(&sort_by_tag(&self._unknown_tagged_fields))
        } else {
            Ok(0)
        };
        assert(l4 == len_result(s4));
        let n4 = match l4 {
            Ok(n) => n,
            Err(e) => {
                return Err(e);
            },
        };
        proof {
            lemma_len_step(w3, s4, n4);
        }
        len = saturating_sum(len, n4);
        assert(w4 is Ok && len == saturate(written(w4).len() as int));
        Ok(len)
    }
}

impl Codec for DescribeLogDirsResult {
    type Item = DescribeLogDirsResult;

    open spec fn spec_read_item(s: Seq<u8>, version: i16) -> ReadOutcome<DescribeLogDirsResultView> {
        DescribeLogDirsResult::spec_read(s, version)
    }

    open spec fn spec_write_item(v: DescribeLogDirsResultView, version: i16) -> WriteOutcome {
        DescribeLogDirsResult::spec_write(v, version)
    }

    open spec fn canonical_item(v: DescribeLogDirsResultView, version: i16) -> bool {
        DescribeLogDirsResult::canonical(v, version)
    }

    proof fn lemma_item_round_trip(v: DescribeLogDirsResultView, version: i16, rest: Seq<u8>) {
        DescribeLogDirsResult::lemma_round_trip(v, version, rest);
    }

    open spec fn writable_item(v: DescribeLogDirsResultView, version: i16) -> bool {
        DescribeLogDirsResult::writable(v, version)
    }

    proof fn lemma_item_writable(v: DescribeLogDirsResultView, version: i16) {
        DescribeLogDirsResult::lemma_writable(v, version);
    }

    fn read_item(buf: &mut Bytes, version: i16) -> (r: Result<DescribeLogDirsResult, Error>) {
        DescribeLogDirsResult::read(buf, version)
    }

    fn write_item(item: &DescribeLogDirsResult, buf: &mut BytesMut, version: i16) -> (r: Result<(), Error>) {
        item.write(buf, version)
    }
}

impl MeasuredCodec for DescribeLogDirsResult {
    fn item_len(item: &DescribeLogDirsResult, version: i16) -> (r: Result<usize, Error>) {
        item.encoded_len(version)
    }
}

impl Codec for DescribeLogDirsTopic {
    type Item = DescribeLogDirsTopic;

    open spec fn spec_read_item(s: Seq<u8>, version: i16) -> ReadOutcome<DescribeLogDirsTopicView> {
        DescribeLogDirsTopic::spec_read(s, version)
    }

    open spec fn spec_write_item(v: DescribeLogDirsTopicView, version: i16) -> WriteOutcome {
        DescribeLogDirsTopic::spec_write(v, version)
    }

    open spec fn canonical_item(v: DescribeLogDirsTopicView, version: i16) -> bool {
        DescribeLogDirsTopic::canonical(v, version)
    }

    proof fn lemma_item_round_trip(v: DescribeLogDirsTopicView, version: i16, rest: Seq<u8>) {
        DescribeLogDirsTopic::lemma_round_trip(v, version, rest);
    }

    open spec fn writable_item(v: DescribeLogDirsTopicView, version: i16) -> bool {
        DescribeLogDirsTopic::writable(v, version)
    }

    proof fn lemma_item_writable(v: DescribeLogDirsTopicView, version: i16) {
        DescribeLogDirsTopic::lemma_writable(v, version);
    }

    fn read_item(buf: &mut Bytes, version: i16) -> (r: Result<DescribeLogDirsTopic, Error>) {
        DescribeLogDirsTopic::read(buf, version)
    }

    fn write_item(item: &DescribeLogDirsTopic, buf: &mut BytesMut, version: i16) -> (r: Result<(), Error>) {
        item.write(buf, version)
    }
}

impl MeasuredCodec for DescribeLogDirsTopic {
    fn item_len(item: &DescribeLogDirsTopic, version: i16) -> (r: Result<usize, Error>) {
        item.encoded_len(version)
    }
}

impl Codec for DescribeLogDirsPartition {
    type Item = DescribeLogDirsPartition;

    open spec fn spec_read_item(s: Seq<u8>, version: i16) -> ReadOutcome<DescribeLogDirsPartitionView> {
        DescribeLogDirsPartition::spec_read(s, version)
    }

    open spec fn spec_write_item(v: DescribeLogDirsPartitionView, version: i16) -> WriteOutcome {
        DescribeLogDirsPartition::spec_write(v, version)
    }

    open spec fn canonical_item(v: DescribeLogDirsPartitionView, version: i16) -> bool {
        DescribeLogDirsPartition::canonical(v, version)
    }

    proof fn lemma_item_round_trip(v: DescribeLogDirsPartitionView, version: i16, rest: Seq<u8>) {
        DescribeLogDirsPartition::lemma_round_trip(v, version, rest);
    }

    open spec fn writable_item(v: DescribeLogDirsPartitionView, version: i16) -> bool {
        DescribeLogDirsPartition::writable(v, version)
    }

    proof fn lemma_item_writable(v: DescribeLogDirsPartitionView, version: i16) {
        DescribeLogDirsPartition::lemma_writable(v, version);
    }

    fn read_item(buf: &mut Bytes, version: i16) -> (r: Result<DescribeLogDirsPartition, Error>) {
        DescribeLogDirsPartition::read(buf, version)
    }

    fn write_item(item: &DescribeLogDirsPartition, buf: &mut BytesMut, version: i16) -> (r: Result<(), Error>) {
        item.write(buf, version)
    }
}

impl MeasuredCodec for DescribeLogDirsPartition {
    fn item_len(item: &DescribeLogDirsPartition, version: i16) -> (r: Result<usize, Error>) {
        item.encoded_len(version)
    }
}

} // verus!
