//! The describe configs response message.
use crate::buffer::{bytes_mut_seq, bytes_seq};
use crate::codec::{Codec, MeasuredCodec, all_canonical, all_writable, array_len, lemma_array_round_trip, lemma_array_writable, read_array, saturating_sum, spec_read_array, spec_write_array, write_array};
use crate::error::{Error, UnsupportedFieldVersion, UnsupportedVersion};
use crate::ints::{lemma_bool_roundtrip, lemma_i16_roundtrip, lemma_i32_roundtrip, lemma_i8_roundtrip, read_bool, read_i16, read_i32, read_i8, spec_read_bool, spec_read_i16, spec_read_i32, spec_read_i8, spec_write_bool, spec_write_i16, spec_write_i32, spec_write_i8, u16_bytes, u32_bytes, write_bool, write_i16, write_i32, write_i8};
use crate::strings::{compact_nullable_string_len, compact_string_len, lemma_compact_nullable_string_round_trip, lemma_compact_string_round_trip, lemma_nullable_string_round_trip, lemma_string_round_trip, nullable_string_len, read_compact_nullable_string, read_compact_string, read_nullable_string, read_string, spec_read_compact_nullable_string, spec_read_compact_string, spec_read_nullable_string, spec_read_string, spec_write_compact_nullable_string, spec_write_compact_string, spec_write_nullable_string, spec_write_string, string_len, write_compact_nullable_string, write_compact_string, write_nullable_string, write_string};
use crate::tagged::{lemma_sorted_by_tag_in_order, lemma_sorted_tags_fit, lemma_tagged_fields_round_trip, lemma_tagged_fields_writable, read_tagged_fields, sort_by_tag, sorted_by_tag, spec_read_tagged_fields, spec_write_tagged_fields, tagged_fields_len, tags_fit, tags_in_order, write_tagged_fields};
use crate::types::{KafkaString, RawTaggedField};
use crate::wire::{ReadOutcome, ViewClone, WriteOutcome, chain, clone_vec, emit, empty_vec, fail, has_room, lemma_append_empty, lemma_chain_written, lemma_len_step, lemma_step, len_result, opt_view, read_as, read_opt_as, read_vec_as, saturate, took_front, views, written, wrote};
use bytes::{Bytes, BytesMut};
use vstd::prelude::*;

verus! {

broadcast use {crate::wire::lemma_chain_written, crate::wire::lemma_took_front_nothing, crate::wire::lemma_took_front_twice};

#[derive(Debug, PartialEq)]
pub struct DescribeConfigsResponseData {
    /// The duration in milliseconds for which the request was throttled due to a quota violation,
    /// or zero if the request did not violate any quota.
    pub throttle_time_ms: i32,
    /// The results for each resource.
    pub results: Vec<DescribeConfigsResult>,
    pub _unknown_tagged_fields: Vec<RawTaggedField>,
}

/// What a `DescribeConfigsResponseData` holds, as the specification sees it.
#[verifier::ext_equal]
pub struct DescribeConfigsResponseDataView {
    pub throttle_time_ms: i32,
    pub results: Seq<DescribeConfigsResultView>,
    pub unknown_tagged_fields: Seq<(u32, Seq<u8>)>,
}

impl View for DescribeConfigsResponseData {
    type V = DescribeConfigsResponseDataView;

    open spec fn view(&self) -> DescribeConfigsResponseDataView {
        DescribeConfigsResponseDataView {
            throttle_time_ms: self.throttle_time_ms,
            results: views(self.results@),
            unknown_tagged_fields: views(self._unknown_tagged_fields@),
        }
    }
}

impl Clone for DescribeConfigsResponseData {
    fn clone(&self) -> (r: Self)
        ensures
            r@ == self@,
    {
        let r = DescribeConfigsResponseData {
            throttle_time_ms: self.throttle_time_ms,
            results: clone_vec(&self.results),
            _unknown_tagged_fields: clone_vec(&self._unknown_tagged_fields),
        };
        assert(r@ =~= self@);
        r
    }
}

impl ViewClone for DescribeConfigsResponseData {
    fn clone_view(&self) -> (r: Self) {
        self.clone()
    }
}

impl Default for DescribeConfigsResponseData {
    fn default() -> (r: Self)
        ensures
            r@ == Self::default_view(),
    {
        let r = DescribeConfigsResponseData {
            throttle_time_ms: 0_i32,
            results: empty_vec(),
            _unknown_tagged_fields: empty_vec(),
        };
        assert(r@ =~= Self::default_view());
        r
    }
}

impl DescribeConfigsResponseData {
    pub open spec fn default_view() -> DescribeConfigsResponseDataView {
        DescribeConfigsResponseDataView {
            throttle_time_ms: 0_i32,
            results: Seq::empty(),
            unknown_tagged_fields: Seq::empty(),
        }
    }

    /// The `throttle_time_ms` field, read from the front of `s`.
    #[verifier::opaque]
    pub open spec fn spec_read_throttle_time_ms(s: Seq<u8>, version: i16) -> ReadOutcome<i32> {
        spec_read_i32(s)
    }

    /// The `results` field, read from the front of `s`.
    #[verifier::opaque]
    pub open spec fn spec_read_results(s: Seq<u8>, version: i16) -> ReadOutcome<Seq<DescribeConfigsResultView>> {
        if version >= 4 {
            spec_read_array::<DescribeConfigsResult>(s, version, true)
        } else {
            spec_read_array::<DescribeConfigsResult>(s, version, false)
        }
    }

    /// The tagged fields, read from the front of `s`.
    #[verifier::opaque]
    pub open spec fn spec_read_tags(s: Seq<u8>, version: i16) -> ReadOutcome<Seq<(u32, Seq<u8>)>> {
        if version >= 4 {
            spec_read_tagged_fields(s)
        } else {
            Ok((Seq::empty(), s))
        }
    }

    pub open spec fn spec_read(s: Seq<u8>, version: i16) -> ReadOutcome<DescribeConfigsResponseDataView> {
        if version < 1 || version > 4 {
            Err(Error::UnsupportedVersion(UnsupportedVersion { api_key: 32, version }))
        } else {
            match (Self::spec_read_throttle_time_ms(s, version)) {
                Err(e) => Err(e),
                Ok((throttle_time_ms, s)) => match (Self::spec_read_results(s, version)) {
                    Err(e) => Err(e),
                    Ok((results, s)) => match (Self::spec_read_tags(s, version)) {
                        Err(e) => Err(e),
                        Ok((unknown_tagged_fields, s)) => Ok((DescribeConfigsResponseDataView {
                                    throttle_time_ms: throttle_time_ms,
                                    results: results,
                                    unknown_tagged_fields: unknown_tagged_fields,
                                }, s)),
                    },
                },
            }
        }
    }

    /// What writing the `throttle_time_ms` field of `m` appends.
    #[verifier::opaque]
    pub open spec fn spec_write_throttle_time_ms(m: DescribeConfigsResponseDataView, version: i16) -> WriteOutcome {
        spec_write_i32(m.throttle_time_ms)
    }

    /// What writing the `results` field of `m` appends.
    #[verifier::opaque]
    pub open spec fn spec_write_results(m: DescribeConfigsResponseDataView, version: i16) -> WriteOutcome {
        if version >= 4 {
            spec_write_array::<DescribeConfigsResult>(m.results, version, true)
        } else {
            spec_write_array::<DescribeConfigsResult>(m.results, version, false)
        }
    }

    /// What writing the tagged fields of `m` appends.
    #[verifier::opaque]
    pub open spec fn spec_write_tags(m: DescribeConfigsResponseDataView, version: i16) -> WriteOutcome {
        if version >= 4 {
            spec_write_tagged_fields(sorted_by_tag(m.unknown_tagged_fields))
        } else {
            emit(Seq::empty())
        }
    }

    pub open spec fn spec_write(m: DescribeConfigsResponseDataView, version: i16) -> WriteOutcome {
        if version < 1 || version > 4 {
            fail(Error::UnsupportedVersion(UnsupportedVersion { api_key: 32, version }))
        } else {
            chain(
                chain(
                    Self::spec_write_throttle_time_ms(m, version),
                    Self::spec_write_results(m, version),
                ),
                Self::spec_write_tags(m, version),
            )
        }
    }

    /// Whether reading back what writing `m` in `version` appends gives `m`:
    /// fields that the version does not carry hold their default values, and
    /// tagged fields come in the order in which they are written.
    pub open spec fn canonical(m: DescribeConfigsResponseDataView, version: i16) -> bool {
        &&& all_canonical::<DescribeConfigsResult>(m.results, version)
        &&& (if version >= 4 {
                tags_in_order(m.unknown_tagged_fields)
            } else {
                m.unknown_tagged_fields.len() == 0
        })
    }

    proof fn lemma_round_trip_throttle_time_ms(m: DescribeConfigsResponseDataView, version: i16, rest: Seq<u8>)
        requires
            Self::canonical(m, version),
            Self::spec_write_throttle_time_ms(m, version) is Ok,
        ensures
            Self::spec_read_throttle_time_ms(written(Self::spec_write_throttle_time_ms(m, version)) + rest, version) == Ok::<(i32, Seq<u8>), Error>((m.throttle_time_ms, rest)),
    {
        reveal(DescribeConfigsResponseData::spec_read_throttle_time_ms);
        reveal(DescribeConfigsResponseData::spec_write_throttle_time_ms);
        lemma_i32_roundtrip(m.throttle_time_ms, rest);
    }

    proof fn lemma_round_trip_results(m: DescribeConfigsResponseDataView, version: i16, rest: Seq<u8>)
        requires
            Self::canonical(m, version),
            Self::spec_write_results(m, version) is Ok,
        ensures
            Self::spec_read_results(written(Self::spec_write_results(m, version)) + rest, version) == Ok::<(Seq<DescribeConfigsResultView>, Seq<u8>), Error>((m.results, rest)),
    {
        reveal(DescribeConfigsResponseData::spec_read_results);
        reveal(DescribeConfigsResponseData::spec_write_results);
        if version >= 4 {
            lemma_array_round_trip::<DescribeConfigsResult>(m.results, version, true, rest);
        } else {
            lemma_array_round_trip::<DescribeConfigsResult>(m.results, version, false, rest);
        }
    }

    proof fn lemma_round_trip_tags(m: DescribeConfigsResponseDataView, version: i16, rest: Seq<u8>)
        requires
            Self::canonical(m, version),
            Self::spec_write_tags(m, version) is Ok,
        ensures
            Self::spec_read_tags(written(Self::spec_write_tags(m, version)) + rest, version) == Ok::<(Seq<(u32, Seq<u8>)>, Seq<u8>), Error>((m.unknown_tagged_fields, rest)),
    {
        reveal(DescribeConfigsResponseData::spec_read_tags);
        reveal(DescribeConfigsResponseData::spec_write_tags);
        if version >= 4 {
            lemma_sorted_by_tag_in_order(m.unknown_tagged_fields);
            lemma_tagged_fields_round_trip(m.unknown_tagged_fields, rest);
        } else {
            assert(Seq::<u8>::empty() + rest =~= rest);
            assert(m.unknown_tagged_fields =~= Seq::empty());
        }
    }

    /// Reading back what writing `m` in `version` appends gives `m` again, and
    /// leaves what follows, for every canonical message whose write succeeds.
    #[verifier::rlimit(70)]
    #[verifier::spinoff_prover]
    pub proof fn lemma_round_trip(m: DescribeConfigsResponseDataView, version: i16, rest: Seq<u8>)
        requires
            Self::canonical(m, version),
            Self::spec_write(m, version) is Ok,
        ensures
            Self::spec_read(written(Self::spec_write(m, version)) + rest, version) == Ok::<(DescribeConfigsResponseDataView, Seq<u8>), Error>((m, rest)),
    {
        let b0 = written(Self::spec_write_throttle_time_ms(m, version));
        let b1 = written(Self::spec_write_results(m, version));
        let b2 = written(Self::spec_write_tags(m, version));
        let t3 = rest;
        let t2 = b2 + t3;
        let t1 = b1 + t2;
        let t0 = b0 + t1;
        let w0 = Self::spec_write_throttle_time_ms(m, version);
        let w1 = chain(w0, Self::spec_write_results(m, version));
        let w2 = chain(w1, Self::spec_write_tags(m, version));
        assert(Self::spec_write(m, version) == w2);
        assert(written(w2) + t3 =~= written(w1) + t2);
        assert(written(w1) + t2 =~= written(w0) + t1);
        Self::lemma_round_trip_throttle_time_ms(m, version, t1);
        Self::lemma_round_trip_results(m, version, t2);
        Self::lemma_round_trip_tags(m, version, t3);
    }

    /// In a version that does not carry `unknown_tagged_fields`, writing ignores its value.
    pub proof fn lemma_write_ignores_unknown_tagged_fields(m: DescribeConfigsResponseDataView, value: Seq<(u32, Seq<u8>)>, version: i16)
        requires
            !(version >= 4),
        ensures
            Self::spec_write((DescribeConfigsResponseDataView { unknown_tagged_fields: value, ..m }), version) == Self::spec_write(m, version),
    {
        reveal(DescribeConfigsResponseData::spec_write_throttle_time_ms);
        reveal(DescribeConfigsResponseData::spec_write_results);
        reveal(DescribeConfigsResponseData::spec_write_tags);
    }

    /// The default message holds the default value of each field of the schema.
    pub proof fn lemma_default_values()
        ensures
            Self::default_view().throttle_time_ms == (0_i32),
            Self::default_view().results.len() == 0,
            Self::default_view().unknown_tagged_fields.len() == 0,
    {
    }

    /// Each integer, boolean and identifier field is written as its standard
    /// big-endian bytes (a boolean as `1` or `0`) in the versions that carry
    /// it, and as nothing in the others; reading it takes those bytes back (any
    /// byte other than `0` reads as `true`), or gives its default value.
    pub proof fn lemma_field_encodings(m: DescribeConfigsResponseDataView, s: Seq<u8>, version: i16)
        ensures
            true ==> Self::spec_write_throttle_time_ms(m, version) == Ok::<Seq<u8>, (Error, Seq<u8>)>(u32_bytes(m.throttle_time_ms as u32)),
            true ==> Self::spec_read_throttle_time_ms(s, version) == spec_read_i32(s),
    {
        reveal(DescribeConfigsResponseData::spec_write_throttle_time_ms);
        reveal(DescribeConfigsResponseData::spec_read_throttle_time_ms);
    }

    /// Whether writing `m` in `version` succeeds, said over its parts: the
    /// version is one the schema covers, every field that the version cannot
    /// carry holds its default value, and every string, byte string, array and
    /// tagged field fits its length prefix.
    pub open spec fn writable(m: DescribeConfigsResponseDataView, version: i16) -> bool {
        &&& 1 <= version <= 4
        &&& (m.results.len() <= i32::MAX && all_writable::<DescribeConfigsResult>(m.results, version))
        &&& (if version >= 4 {
                m.unknown_tagged_fields.len() <= u32::MAX && tags_fit(m.unknown_tagged_fields)
            } else {
                true
        })
    }

    proof fn lemma_writable_throttle_time_ms(m: DescribeConfigsResponseDataView, version: i16)
        ensures
            Self::spec_write_throttle_time_ms(m, version) is Ok <==> true,
    {
        reveal(DescribeConfigsResponseData::spec_write_throttle_time_ms);
    }

    proof fn lemma_writable_results(m: DescribeConfigsResponseDataView, version: i16)
        ensures
            Self::spec_write_results(m, version) is Ok <==> (m.results.len() <= i32::MAX && all_writable::<DescribeConfigsResult>(m.results, version)),
    {
        reveal(DescribeConfigsResponseData::spec_write_results);
        if version >= 4 {
            lemma_array_writable::<DescribeConfigsResult>(m.results, version, true);
        } else {
            lemma_array_writable::<DescribeConfigsResult>(m.results, version, false);
        }
    }

    proof fn lemma_writable_tags(m: DescribeConfigsResponseDataView, version: i16)
        ensures
            Self::spec_write_tags(m, version) is Ok <==> (if version >= 4 { m.unknown_tagged_fields.len() <= u32::MAX && tags_fit(m.unknown_tagged_fields) } else { true }),
    {
        reveal(DescribeConfigsResponseData::spec_write_tags);
        if version >= 4 {
            lemma_sorted_tags_fit(m.unknown_tagged_fields);
            lemma_tagged_fields_writable(sorted_by_tag(m.unknown_tagged_fields));
        }
    }

    /// Writing `m` in `version` succeeds exactly when `m` is writable in it;
    /// so do `write` and `encoded_len`, whose results follow `spec_write`.
    #[verifier::rlimit(48)]
    pub proof fn lemma_writable(m: DescribeConfigsResponseDataView, version: i16)
        ensures
            Self::spec_write(m, version) is Ok <==> Self::writable(m, version),
    {
        Self::lemma_writable_throttle_time_ms(m, version);
        Self::lemma_writable_results(m, version);
        Self::lemma_writable_tags(m, version);
    }

    /// A version outside the range that the schema covers is refused, by
    /// reads and by writes alike, before anything is read or written.
    pub proof fn lemma_refused_version(m: DescribeConfigsResponseDataView, s: Seq<u8>, version: i16)
        requires
            version < 1 || version > 4,
        ensures
            Self::spec_read(s, version) == Err::<(DescribeConfigsResponseDataView, Seq<u8>), Error>(Error::UnsupportedVersion(UnsupportedVersion { api_key: 32, version })),
            Self::spec_write(m, version) == fail(Error::UnsupportedVersion(UnsupportedVersion { api_key: 32, version })),
    {
    }

    pub fn with_throttle_time_ms(self, value: i32) -> (r: Self)
        ensures
            r@ == (DescribeConfigsResponseDataView { throttle_time_ms: value, ..self@ }),
    {
        let mut r = self;
        r.throttle_time_ms = value;
        r
    }

    pub fn with_results(self, value: Vec<DescribeConfigsResult>) -> (r: Self)
        ensures
            r@ == (DescribeConfigsResponseDataView { results: views(value@), ..self@ }),
    {
        let mut r = self;
        r.results = value;
        r
    }

    fn read_throttle_time_ms(buf: &mut Bytes, version: i16) -> (r: Result<i32, Error>)
        ensures
            read_as(Self::spec_read_throttle_time_ms(bytes_seq(*old(buf)), version), *final(buf), r),
            took_front(*old(buf), *final(buf)),
    {
        proof {
            reveal(DescribeConfigsResponseData::spec_read_throttle_time_ms);
        }
        Ok(read_i32(buf)?)
    }

    fn read_results(buf: &mut Bytes, version: i16) -> (r: Result<Vec<DescribeConfigsResult>, Error>)
        ensures
            read_vec_as(Self::spec_read_results(bytes_seq(*old(buf)), version), *final(buf), r),
            took_front(*old(buf), *final(buf)),
    {
        proof {
            reveal(DescribeConfigsResponseData::spec_read_results);
        }
        Ok(if version >= 4 {
                read_array::<DescribeConfigsResult>(buf, version, true)?
            } else {
                read_array::<DescribeConfigsResult>(buf, version, false)?
        })
    }

    fn read_tags(buf: &mut Bytes, version: i16) -> (r: Result<Vec<RawTaggedField>, Error>)
        ensures
            read_vec_as(Self::spec_read_tags(bytes_seq(*old(buf)), version), *final(buf), r),
            took_front(*old(buf), *final(buf)),
    {
        proof {
            reveal(DescribeConfigsResponseData::spec_read_tags);
        }
        Ok(if version >= 4 {
                read_tagged_fields(buf)?
            } else {
                empty_vec()
        })
    }

    pub fn read(buf: &mut Bytes, version: i16) -> (r: Result<Self, Error>)
        ensures
            read_as(Self::spec_read(bytes_seq(*old(buf)), version), *final(buf), r),
            took_front(*old(buf), *final(buf)),
            (version < 1 || version > 4) ==> bytes_seq(*final(buf)) == bytes_seq(*old(buf)),
    {
        if version < 1 || version > 4 {
            return Err(Error::UnsupportedVersion(UnsupportedVersion::new(32, version)));
        }
        let throttle_time_ms = Self::read_throttle_time_ms(buf, version)?;
        let results = Self::read_results(buf, version)?;
        let _unknown_tagged_fields = Self::read_tags(buf, version)?;
        Ok(DescribeConfigsResponseData {
                throttle_time_ms: throttle_time_ms,
                results: results,
                _unknown_tagged_fields: _unknown_tagged_fields,
        })
    }

    #[verifier::rlimit(60)]
    pub fn write(&self, buf: &mut BytesMut, version: i16) -> (r: Result<(), Error>)
        requires
            has_room(Self::spec_write(self@, version), *old(buf)),
        ensures
            wrote(Self::spec_write(self@, version), *old(buf), *final(buf), r),
    {
        if version < 1 || version > 4 {
            return Err(Error::UnsupportedVersion(UnsupportedVersion::new(32, version)));
        }
        let ghost m = self@;
        proof {
            reveal(DescribeConfigsResponseData::spec_write_throttle_time_ms);
            reveal(DescribeConfigsResponseData::spec_write_results);
            reveal(DescribeConfigsResponseData::spec_write_tags);
        }
        let ghost s0 = Self::spec_write_throttle_time_ms(m, version);
        let ghost w0 = s0;
        let ghost s1 = Self::spec_write_results(m, version);
        let ghost w1 = chain(w0, s1);
        let ghost s2 = Self::spec_write_tags(m, version);
        let ghost w2 = chain(w1, s2);
        assert(Self::spec_write(m, version) == w2);
        assert(written(w1).len() <= written(w2).len() && (w1 is Err ==> w2 == w1));
        assert(written(w0).len() <= written(w2).len() && (w0 is Err ==> w2 == w0));
        let ghost mid = bytes_mut_seq(*buf);
        proof {
            lemma_append_empty(mid);
        }
        let r0 = {
            write_i32(buf, self.throttle_time_ms);
            Ok(())
        };
        assert(bytes_mut_seq(*buf) == mid + written(s0));
        if r0.is_err() {
            return r0;
        }
        let ghost mid = bytes_mut_seq(*buf);
        proof {
            lemma_append_empty(mid);
        }
        let r1 = if version >= 4 {
            write_array::<DescribeConfigsResult>(buf, &self.results, version, true)
        } else {
            write_array::<DescribeConfigsResult>(buf, &self.results, version, false)
        };
        assert(bytes_mut_seq(*buf) == mid + written(s1));
        proof {
            lemma_step(bytes_mut_seq(*old(buf)), w0, s1);
        }
        if r1.is_err() {
            return r1;
        }
        let ghost mid = bytes_mut_seq(*buf);
        proof {
            lemma_append_empty(mid);
        }
        let r2 = if version >= 4 {
            write_tagged_fields(buf, &sort_by_tag(&self._unknown_tagged_fields))
        } else {
            Ok(())
        };
        assert(bytes_mut_seq(*buf) == mid + written(s2));
        proof {
            lemma_step(bytes_mut_seq(*old(buf)), w1, s2);
        }
        if r2.is_err() {
            return r2;
        }
        Ok(())
    }

    #[verifier::rlimit(60)]
    pub fn encoded_len(&self, version: i16) -> (r: Result<usize, Error>)
        ensures
            r == len_result(Self::spec_write(self@, version)),
    {
        if version < 1 || version > 4 {
            return Err(Error::UnsupportedVersion(UnsupportedVersion::new(32, version)));
        }
        let ghost m = self@;
        proof {
            reveal(DescribeConfigsResponseData::spec_write_throttle_time_ms);
            reveal(DescribeConfigsResponseData::spec_write_results);
            reveal(DescribeConfigsResponseData::spec_write_tags);
        }
        let ghost s0 = Self::spec_write_throttle_time_ms(m, version);
        let ghost w0 = s0;
        let ghost s1 = Self::spec_write_results(m, version);
        let ghost w1 = chain(w0, s1);
        let ghost s2 = Self::spec_write_tags(m, version);
        let ghost w2 = chain(w1, s2);
        assert(Self::spec_write(m, version) == w2);
        assert(w1 is Err ==> w2 == w1);
        assert(w0 is Err ==> w2 == w0);
        let mut len: usize = 0;
        let l0 = Ok(4);
        assert(l0 == len_result(s0));
        let n0 = match l0 {
            Ok(n) => n,
            Err(e) => {
                return Err(e);
            },
        };
        len = saturating_sum(len, n0);
        assert(w0 is Ok && len == saturate(written(w0).len() as int));
        let l1 = if version >= 4 {
            array_len::<DescribeConfigsResult>(&self.results, version, true)
        } else {
            array_len::<DescribeConfigsResult>(&self.results, version, false)
        };
        assert(l1 == len_result(s1));
        let n1 = match l1 {
            Ok(n) => n,
            Err(e) => {
                return Err(e);
            },
        };
        proof {
            lemma_len_step(w0, s1, n1);
        }
        len = saturating_sum(len, n1);
        assert(w1 is Ok && len == saturate(written(w1).len() as int));
        let l2 = if version >= 4 {
            tagged_fields_len(&sort_by_tag(&self._unknown_tagged_fields))
        } else {
            Ok(0)
        };
        assert(l2 == len_result(s2));
        let n2 = match l2 {
            Ok(n) => n,
            Err(e) => {
                return Err(e);
            },
        };
        proof {
            lemma_len_step(w1, s2, n2);
        }
        len = saturating_sum(len, n2);
        assert(w2 is Ok && len == saturate(written(w2).len() as int));
        Ok(len)
    }
}

#[derive(Debug, PartialEq)]
pub struct DescribeConfigsResult {
    /// The error code, or 0 if we were able to successfully describe the configurations.
    pub error_code: i16,
    /// The error message, or null if we were able to successfully describe the configurations.
    pub error_message: Option<KafkaString>,
    /// The resource type.
    pub resource_type: i8,
    /// The resource name.
    pub resource_name: KafkaString,
    /// Each listed configuration.
    pub configs: Vec<DescribeConfigsResourceResult>,
    pub _unknown_tagged_fields: Vec<RawTaggedField>,
}

/// What a `DescribeConfigsResult` holds, as the specification sees it.
#[verifier::ext_equal]
pub struct DescribeConfigsResultView {
    pub error_code: i16,
    pub error_message: Option<Seq<u8>>,
    pub resource_type: i8,
    pub resource_name: Seq<u8>,
    pub configs: Seq<DescribeConfigsResourceResultView>,
    pub unknown_tagged_fields: Seq<(u32, Seq<u8>)>,
}

impl View for DescribeConfigsResult {
    type V = DescribeConfigsResultView;

    open spec fn view(&self) -> DescribeConfigsResultView {
        DescribeConfigsResultView {
            error_code: self.error_code,
            error_message: opt_view(self.error_message),
            resource_type: self.resource_type,
            resource_name: self.resource_name@,
            configs: views(self.configs@),
            unknown_tagged_fields: views(self._unknown_tagged_fields@),
        }
    }
}

impl Clone for DescribeConfigsResult {
    fn clone(&self) -> (r: Self)
        ensures
            r@ == self@,
    {
        let r = DescribeConfigsResult {
            error_code: self.error_code,
            error_message: match &self.error_message {
                Some(x) => Some(x.clone()),
                None => None,
            },
            resource_type: self.resource_type,
            resource_name: self.resource_name.clone(),
            configs: clone_vec(&self.configs),
            _unknown_tagged_fields: clone_vec(&self._unknown_tagged_fields),
        };
        assert(r@ =~= self@);
        r
    }
}

impl ViewClone for DescribeConfigsResult {
    fn clone_view(&self) -> (r: Self) {
        self.clone()
    }
}

impl Default for DescribeConfigsResult {
    fn default() -> (r: Self)
        ensures
            r@ == Self::default_view(),
    {
        let r = DescribeConfigsResult {
            error_code: 0_i16,
            error_message: None,
            resource_type: 0_i8,
            resource_name: KafkaString::default(),
            configs: empty_vec(),
            _unknown_tagged_fields: empty_vec(),
        };
        assert(r@ =~= Self::default_view());
        r
    }
}

impl DescribeConfigsResult {
    pub open spec fn default_view() -> DescribeConfigsResultView {
        DescribeConfigsResultView {
            error_code: 0_i16,
            error_message: None,
            resource_type: 0_i8,
            resource_name: Seq::empty(),
            configs: Seq::empty(),
            unknown_tagged_fields: Seq::empty(),
        }
    }

    /// The `error_code` field, read from the front of `s`.
    #[verifier::opaque]
    pub open spec fn spec_read_error_code(s: Seq<u8>, version: i16) -> ReadOutcome<i16> {
        spec_read_i16(s)
    }

    /// The `error_message` field, read from the front of `s`.
    #[verifier::opaque]
    pub open spec fn spec_read_error_message(s: Seq<u8>, version: i16) -> ReadOutcome<Option<Seq<u8>>> {
        if version >= 4 {
            spec_read_compact_nullable_string(s)
        } else {
            spec_read_nullable_string(s)
        }
    }

    /// The `resource_type` field, read from the front of `s`.
    #[verifier::opaque]
    pub open spec fn spec_read_resource_type(s: Seq<u8>, version: i16) -> ReadOutcome<i8> {
        spec_read_i8(s)
    }

    /// The `resource_name` field, read from the front of `s`.
    #[verifier::opaque]
    pub open spec fn spec_read_resource_name(s: Seq<u8>, version: i16) -> ReadOutcome<Seq<u8>> {
        if version >= 4 {
            spec_read_compact_string(s)
        } else {
            spec_read_string(s)
        }
    }

    /// The `configs` field, read from the front of `s`.
    #[verifier::opaque]
    pub open spec fn spec_read_configs(s: Seq<u8>, version: i16) -> ReadOutcome<Seq<DescribeConfigsResourceResultView>> {
        if version >= 4 {
            spec_read_array::<DescribeConfigsResourceResult>(s, version, true)
        } else {
            spec_read_array::<DescribeConfigsResourceResult>(s, version, false)
        }
    }

    /// The tagged fields, read from the front of `s`.
    #[verifier::opaque]
    pub open spec fn spec_read_tags(s: Seq<u8>, version: i16) -> ReadOutcome<Seq<(u32, Seq<u8>)>> {
        if version >= 4 {
            spec_read_tagged_fields(s)
        } else {
            Ok((Seq::empty(), s))
        }
    }

    pub open spec fn spec_read(s: Seq<u8>, version: i16) -> ReadOutcome<DescribeConfigsResultView> {
        match (Self::spec_read_error_code(s, version)) {
            Err(e) => Err(e),
            Ok((error_code, s)) => match (Self::spec_read_error_message(s, version)) {
                Err(e) => Err(e),
                Ok((error_message, s)) => match (Self::spec_read_resource_type(s, version)) {
                    Err(e) => Err(e),
                    Ok((resource_type, s)) => match (Self::spec_read_resource_name(s, version)) {
                        Err(e) => Err(e),
                        Ok((resource_name, s)) => match (Self::spec_read_configs(s, version)) {
                            Err(e) => Err(e),
                            Ok((configs, s)) => match (Self::spec_read_tags(s, version)) {
                                Err(e) => Err(e),
                                Ok((unknown_tagged_fields, s)) => Ok((DescribeConfigsResultView {
                                            error_code: error_code,
                                            error_message: error_message,
                                            resource_type: resource_type,
                                            resource_name: resource_name,
                                            configs: configs,
                                            unknown_tagged_fields: unknown_tagged_fields,
                                        }, s)),
                            },
                        },
                    },
                },
            },
        }
    }

    /// What writing the `error_code` field of `m` appends.
    #[verifier::opaque]
    pub open spec fn spec_write_error_code(m: DescribeConfigsResultView, version: i16) -> WriteOutcome {
        spec_write_i16(m.error_code)
    }

    /// What writing the `error_message` field of `m` appends.
    #[verifier::opaque]
    pub open spec fn spec_write_error_message(m: DescribeConfigsResultView, version: i16) -> WriteOutcome {
        if version >= 4 {
            spec_write_compact_nullable_string(m.error_message)
        } else {
            spec_write_nullable_string(m.error_message)
        }
    }

    /// What writing the `resource_type` field of `m` appends.
    #[verifier::opaque]
    pub open spec fn spec_write_resource_type(m: DescribeConfigsResultView, version: i16) -> WriteOutcome {
        spec_write_i8(m.resource_type)
    }

    /// What writing the `resource_name` field of `m` appends.
    #[verifier::opaque]
    pub open spec fn spec_write_resource_name(m: DescribeConfigsResultView, version: i16) -> WriteOutcome {
        if version >= 4 {
            spec_write_compact_string(m.resource_name)
        } else {
            spec_write_string(m.resource_name)
        }
    }

    /// What writing the `configs` field of `m` appends.
    #[verifier::opaque]
    pub open spec fn spec_write_configs(m: DescribeConfigsResultView, version: i16) -> WriteOutcome {
        if version >= 4 {
            spec_write_array::<DescribeConfigsResourceResult>(m.configs, version, true)
        } else {
            spec_write_array::<DescribeConfigsResourceResult>(m.configs, version, false)
        }
    }

    /// What writing the tagged fields of `m` appends.
    #[verifier::opaque]
    pub open spec fn spec_write_tags(m: DescribeConfigsResultView, version: i16) -> WriteOutcome {
        if version >= 4 {
            spec_write_tagged_fields(sorted_by_tag(m.unknown_tagged_fields))
        } else {
            emit(Seq::empty())
        }
    }

    pub open spec fn spec_write(m: DescribeConfigsResultView, version: i16) -> WriteOutcome {
        chain(
            chain(
                chain(
                    chain(
                        chain(
                            Self::spec_write_error_code(m, version),
                            Self::spec_write_error_message(m, version),
                        ),
                        Self::spec_write_resource_type(m, version),
                    ),
                    Self::spec_write_resource_name(m, version),
                ),
                Self::spec_write_configs(m, version),
            ),
            Self::spec_write_tags(m, version),
        )
    }

    /// Whether reading back what writing `m` in `version` appends gives `m`:
    /// fields that the version does not carry hold their default values, and
    /// tagged fields come in the order in which they are written.
    pub open spec fn canonical(m: DescribeConfigsResultView, version: i16) -> bool {
        &&& all_canonical::<DescribeConfigsResourceResult>(m.configs, version)
        &&& (if version >= 4 {
                tags_in_order(m.unknown_tagged_fields)
            } else {
                m.unknown_tagged_fields.len() == 0
        })
    }

    proof fn lemma_round_trip_error_code(m: DescribeConfigsResultView, version: i16, rest: Seq<u8>)
        requires
            Self::canonical(m, version),
            Self::spec_write_error_code(m, version) is Ok,
        ensures
            Self::spec_read_error_code(written(Self::spec_write_error_code(m, version)) + rest, version) == Ok::<(i16, Seq<u8>), Error>((m.error_code, rest)),
    {
        reveal(DescribeConfigsResult::spec_read_error_code);
        reveal(DescribeConfigsResult::spec_write_error_code);
        lemma_i16_roundtrip(m.error_code, rest);
    }

    proof fn lemma_round_trip_error_message(m: DescribeConfigsResultView, version: i16, rest: Seq<u8>)
        requires
            Self::canonical(m, version),
            Self::spec_write_error_message(m, version) is Ok,
        ensures
            Self::spec_read_error_message(written(Self::spec_write_error_message(m, version)) + rest, version) == Ok::<(Option<Seq<u8>>, Seq<u8>), Error>((m.error_message, rest)),
    {
        reveal(DescribeConfigsResult::spec_read_error_message);
        reveal(DescribeConfigsResult::spec_write_error_message);
        if version >= 4 {
            lemma_compact_nullable_string_round_trip(m.error_message, rest);
        } else {
            lemma_nullable_string_round_trip(m.error_message, rest);
        }
    }

    proof fn lemma_round_trip_resource_type(m: DescribeConfigsResultView, version: i16, rest: Seq<u8>)
        requires
            Self::canonical(m, version),
            Self::spec_write_resource_type(m, version) is Ok,
        ensures
            Self::spec_read_resource_type(written(Self::spec_write_resource_type(m, version)) + rest, version) == Ok::<(i8, Seq<u8>), Error>((m.resource_type, rest)),
    {
        reveal(DescribeConfigsResult::spec_read_resource_type);
        reveal(DescribeConfigsResult::spec_write_resource_type);
        lemma_i8_roundtrip(m.resource_type, rest);
    }

    proof fn lemma_round_trip_resource_name(m: DescribeConfigsResultView, version: i16, rest: Seq<u8>)
        requires
            Self::canonical(m, version),
            Self::spec_write_resource_name(m, version) is Ok,
        ensures
            Self::spec_read_resource_name(written(Self::spec_write_resource_name(m, version)) + rest, version) == Ok::<(Seq<u8>, Seq<u8>), Error>((m.resource_name, rest)),
    {
        reveal(DescribeConfigsResult::spec_read_resource_name);
        reveal(DescribeConfigsResult::spec_write_resource_name);
        if version >= 4 {
            lemma_compact_string_round_trip(m.resource_name, rest);
        } else {
            lemma_string_round_trip(m.resource_name, rest);
        }
    }

    proof fn lemma_round_trip_configs(m: DescribeConfigsResultView, version: i16, rest: Seq<u8>)
        requires
            Self::canonical(m, version),
            Self::spec_write_configs(m, version) is Ok,
        ensures
            Self::spec_read_configs(written(Self::spec_write_configs(m, version)) + rest, version) == Ok::<(Seq<DescribeConfigsResourceResultView>, Seq<u8>), Error>((m.configs, rest)),
    {
        reveal(DescribeConfigsResult::spec_read_configs);
        reveal(DescribeConfigsResult::spec_write_configs);
        if version >= 4 {
            lemma_array_round_trip::<DescribeConfigsResourceResult>(m.configs, version, true, rest);
        } else {
            lemma_array_round_trip::<DescribeConfigsResourceResult>(m.configs, version, false, rest);
        }
    }

    proof fn lemma_round_trip_tags(m: DescribeConfigsResultView, version: i16, rest: Seq<u8>)
        requires
            Self::canonical(m, version),
            Self::spec_write_tags(m, version) is Ok,
        ensures
            Self::spec_read_tags(written(Self::spec_write_tags(m, version)) + rest, version) == Ok::<(Seq<(u32, Seq<u8>)>, Seq<u8>), Error>((m.unknown_tagged_fields, rest)),
    {
        reveal(DescribeConfigsResult::spec_read_tags);
        reveal(DescribeConfigsResult::spec_write_tags);
        if version >= 4 {
            lemma_sorted_by_tag_in_order(m.unknown_tagged_fields);
            lemma_tagged_fields_round_trip(m.unknown_tagged_fields, rest);
        } else {
            assert(Seq::<u8>::empty() + rest =~= rest);
            assert(m.unknown_tagged_fields =~= Seq::empty());
        }
    }

    /// Reading back what writing `m` in `version` appends gives `m` again, and
    /// leaves what follows, for every canonical message whose write succeeds.
    #[verifier::rlimit(100)]
    #[verifier::spinoff_prover]
    pub proof fn lemma_round_trip(m: DescribeConfigsResultView, version: i16, rest: Seq<u8>)
        requires
            Self::canonical(m, version),
            Self::spec_write(m, version) is Ok,
        ensures
            Self::spec_read(written(Self::spec_write(m, version)) + rest, version) == Ok::<(DescribeConfigsResultView, Seq<u8>), Error>((m, rest)),
    {
        let b0 = written(Self::spec_write_error_code(m, version));
        let b1 = written(Self::spec_write_error_message(m, version));
        let b2 = written(Self::spec_write_resource_type(m, version));
        let b3 = written(Self::spec_write_resource_name(m, version));
        let b4 = written(Self::spec_write_configs(m, version));
        let b5 = written(Self::spec_write_tags(m, version));
        let t6 = rest;
        let t5 = b5 + t6;
        let t4 = b4 + t5;
        let t3 = b3 + t4;
        let t2 = b2 + t3;
        let t1 = b1 + t2;
        let t0 = b0 + t1;
        let w0 = Self::spec_write_error_code(m, version);
        let w1 = chain(w0, Self::spec_write_error_message(m, version));
        let w2 = chain(w1, Self::spec_write_resource_type(m, version));
        let w3 = chain(w2, Self::spec_write_resource_name(m, version));
        let w4 = chain(w3, Self::spec_write_configs(m, version));
        let w5 = chain(w4, Self::spec_write_tags(m, version));
        assert(Self::spec_write(m, version) == w5);
        assert(written(w5) + t6 =~= written(w4) + t5);
        assert(written(w4) + t5 =~= written(w3) + t4);
        assert(written(w3) + t4 =~= written(w2) + t3);
        assert(written(w2) + t3 =~= written(w1) + t2);
        assert(written(w1) + t2 =~= written(w0) + t1);
        Self::lemma_round_trip_error_code(m, version, t1);
        Self::lemma_round_trip_error_message(m, version, t2);
        Self::lemma_round_trip_resource_type(m, version, t3);
        Self::lemma_round_trip_resource_name(m, version, t4);
        Self::lemma_round_trip_configs(m, version, t5);
        Self::lemma_round_trip_tags(m, version, t6);
    }

    /// In a version that does not carry `unknown_tagged_fields`, writing ignores its value.
    pub proof fn lemma_write_ignores_unknown_tagged_fields(m: DescribeConfigsResultView, value: Seq<(u32, Seq<u8>)>, version: i16)
        requires
            !(version >= 4),
        ensures
            Self::spec_write((DescribeConfigsResultView { unknown_tagged_fields: value, ..m }), version) == Self::spec_write(m, version),
    {
        reveal(DescribeConfigsResult::spec_write_error_code);
        reveal(DescribeConfigsResult::spec_write_error_message);
        reveal(DescribeConfigsResult::spec_write_resource_type);
        reveal(DescribeConfigsResult::spec_write_resource_name);
        reveal(DescribeConfigsResult::spec_write_configs);
        reveal(DescribeConfigsResult::spec_write_tags);
    }

    /// The default message holds the default value of each field of the schema.
    pub proof fn lemma_default_values()
        ensures
            Self::default_view().error_code == (0_i16),
            (Self::default_view().error_message is None),
            Self::default_view().resource_type == (0_i8),
            Self::default_view().resource_name.len() == 0,
            Self::default_view().configs.len() == 0,
            Self::default_view().unknown_tagged_fields.len() == 0,
    {
    }

    /// Each integer, boolean and identifier field is written as its standard
    /// big-endian bytes (a boolean as `1` or `0`) in the versions that carry
    /// it, and as nothing in the others; reading it takes those bytes back (any
    /// byte other than `0` reads as `true`), or gives its default value.
    pub proof fn lemma_field_encodings(m: DescribeConfigsResultView, s: Seq<u8>, version: i16)
        ensures
            true ==> Self::spec_write_error_code(m, version) == Ok::<Seq<u8>, (Error, Seq<u8>)>(u16_bytes(m.error_code as u16)),
            true ==> Self::spec_write_resource_type(m, version) == Ok::<Seq<u8>, (Error, Seq<u8>)>(seq![m.resource_type as u8]),
            true ==> Self::spec_read_error_code(s, version) == spec_read_i16(s),
            true ==> Self::spec_read_resource_type(s, version) == (if s.len() < 1 { Err(Error::UnexpectedEof) } else { Ok((s[0] as i8, s.drop_first())) }),
    {
        reveal(DescribeConfigsResult::spec_write_error_code);
        reveal(DescribeConfigsResult::spec_read_error_code);
        reveal(DescribeConfigsResult::spec_write_resource_type);
        reveal(DescribeConfigsResult::spec_read_resource_type);
    }

    /// Whether writing `m` in `version` succeeds, said over its parts: the
    /// version is one the schema covers, every field that the version cannot
    /// carry holds its default value, and every string, byte string, array and
    /// tagged field fits its length prefix.
    pub open spec fn writable(m: DescribeConfigsResultView, version: i16) -> bool {
        &&& (m.error_message matches Some(b) ==> b.len() <= 0x7fff)
        &&& m.resource_name.len() <= 0x7fff
        &&& (m.configs.len() <= i32::MAX && all_writable::<DescribeConfigsResourceResult>(m.configs, version))
        &&& (if version >= 4 {
                m.unknown_tagged_fields.len() <= u32::MAX && tags_fit(m.unknown_tagged_fields)
            } else {
                true
        })
    }

    proof fn lemma_writable_error_code(m: DescribeConfigsResultView, version: i16)
        ensures
            Self::spec_write_error_code(m, version) is Ok <==> true,
    {
        reveal(DescribeConfigsResult::spec_write_error_code);
    }

    proof fn lemma_writable_error_message(m: DescribeConfigsResultView, version: i16)
        ensures
            Self::spec_write_error_message(m, version) is Ok <==> (m.error_message matches Some(b) ==> b.len() <= 0x7fff),
    {
        reveal(DescribeConfigsResult::spec_write_error_message);
    }

    proof fn lemma_writable_resource_type(m: DescribeConfigsResultView, version: i16)
        ensures
            Self::spec_write_resource_type(m, version) is Ok <==> true,
    {
        reveal(DescribeConfigsResult::spec_write_resource_type);
    }

    proof fn lemma_writable_resource_name(m: DescribeConfigsResultView, version: i16)
        ensures
            Self::spec_write_resource_name(m, version) is Ok <==> m.resource_name.len() <= 0x7fff,
    {
        reveal(DescribeConfigsResult::spec_write_resource_name);
    }

    proof fn lemma_writable_configs(m: DescribeConfigsResultView, version: i16)
        ensures
            Self::spec_write_configs(m, version) is Ok <==> (m.configs.len() <= i32::MAX && all_writable::<DescribeConfigsResourceResult>(m.configs, version)),
    {
        reveal(DescribeConfigsResult::spec_write_configs);
        if version >= 4 {
            lemma_array_writable::<DescribeConfigsResourceResult>(m.configs, version, true);
        } else {
            lemma_array_writable::<DescribeConfigsResourceResult>(m.configs, version, false);
        }
    }

    proof fn lemma_writable_tags(m: DescribeConfigsResultView, version: i16)
        ensures
            Self::spec_write_tags(m, version) is Ok <==> (if version >= 4 { m.unknown_tagged_fields.len() <= u32::MAX && tags_fit(m.unknown_tagged_fields) } else { true }),
    {
        reveal(DescribeConfigsResult::spec_write_tags);
        if version >= 4 {
            lemma_sorted_tags_fit(m.unknown_tagged_fields);
            lemma_tagged_fields_writable(sorted_by_tag(m.unknown_tagged_fields));
        }
    }

    /// Writing `m` in `version` succeeds exactly when `m` is writable in it;
    /// so do `write` and `encoded_len`, whose results follow `spec_write`.
    #[verifier::rlimit(66)]
    pub proof fn lemma_writable(m: DescribeConfigsResultView, version: i16)
        ensures
            Self::spec_write(m, version) is Ok <==> Self::writable(m, version),
    {
        Self::lemma_writable_error_code(m, version);
        Self::lemma_writable_error_message(m, version);
        Self::lemma_writable_resource_type(m, version);
        Self::lemma_writable_resource_name(m, version);
        Self::lemma_writable_configs(m, version);
        Self::lemma_writable_tags(m, version);
    }

    pub fn with_error_code(self, value: i16) -> (r: Self)
        ensures
            r@ == (DescribeConfigsResultView { error_code: value, ..self@ }),
    {
        let mut r = self;
        r.error_code = value;
        r
    }

    pub fn with_error_message(self, value: Option<KafkaString>) -> (r: Self)
        ensures
            r@ == (DescribeConfigsResultView { error_message: opt_view(value), ..self@ }),
    {
        let mut r = self;
        r.error_message = value;
        r
    }

    pub fn with_resource_type(self, value: i8) -> (r: Self)
        ensures
            r@ == (DescribeConfigsResultView { resource_type: value, ..self@ }),
    {
        let mut r = self;
        r.resource_type = value;
        r
    }

    pub fn with_resource_name(self, value: KafkaString) -> (r: Self)
        ensures
            r@ == (DescribeConfigsResultView { resource_name: value@, ..self@ }),
    {
        let mut r = self;
        r.resource_name = value;
        r
    }

    pub fn with_configs(self, value: Vec<DescribeConfigsResourceResult>) -> (r: Self)
        ensures
            r@ == (DescribeConfigsResultView { configs: views(value@), ..self@ }),
    {
        let mut r = self;
        r.configs = value;
        r
    }

    fn read_error_code(buf: &mut Bytes, version: i16) -> (r: Result<i16, Error>)
        ensures
            read_as(Self::spec_read_error_code(bytes_seq(*old(buf)), version), *final(buf), r),
            took_front(*old(buf), *final(buf)),
    {
        proof {
            reveal(DescribeConfigsResult::spec_read_error_code);
        }
        Ok(read_i16(buf)?)
    }

    fn read_error_message(buf: &mut Bytes, version: i16) -> (r: Result<Option<KafkaString>, Error>)
        ensures
            read_opt_as(Self::spec_read_error_message(bytes_seq(*old(buf)), version), *final(buf), r),
            took_front(*old(buf), *final(buf)),
    {
        proof {
            reveal(DescribeConfigsResult::spec_read_error_message);
        }
        Ok(if version >= 4 {
                read_compact_nullable_string(buf)?
            } else {
                read_nullable_string(buf)?
        })
    }

    fn read_resource_type(buf: &mut Bytes, version: i16) -> (r: Result<i8, Error>)
        ensures
            read_as(Self::spec_read_resource_type(bytes_seq(*old(buf)), version), *final(buf), r),
            took_front(*old(buf), *final(buf)),
    {
        proof {
            reveal(DescribeConfigsResult::spec_read_resource_type);
        }
        Ok(read_i8(buf)?)
    }

    fn read_resource_name(buf: &mut Bytes, version: i16) -> (r: Result<KafkaString, Error>)
        ensures
            read_as(Self::spec_read_resource_name(bytes_seq(*old(buf)), version), *final(buf), r),
            took_front(*old(buf), *final(buf)),
    {
        proof {
            reveal(DescribeConfigsResult::spec_read_resource_name);
        }
        Ok(if version >= 4 {
                read_compact_string(buf)?
            } else {
                read_string(buf)?
        })
    }

    fn read_configs(buf: &mut Bytes, version: i16) -> (r: Result<Vec<DescribeConfigsResourceResult>, Error>)
        ensures
            read_vec_as(Self::spec_read_configs(bytes_seq(*old(buf)), version), *final(buf), r),
            took_front(*old(buf), *final(buf)),
    {
        proof {
            reveal(DescribeConfigsResult::spec_read_configs);
        }
        Ok(if version >= 4 {
                read_array::<DescribeConfigsResourceResult>(buf, version, true)?
            } else {
                read_array::<DescribeConfigsResourceResult>(buf, version, false)?
        })
    }

    fn read_tags(buf: &mut Bytes, version: i16) -> (r: Result<Vec<RawTaggedField>, Error>)
        ensures
            read_vec_as(Self::spec_read_tags(bytes_seq(*old(buf)), version), *final(buf), r),
            took_front(*old(buf), *final(buf)),
    {
        proof {
            reveal(DescribeConfigsResult::spec_read_tags);
        }
        Ok(if version >= 4 {
                read_tagged_fields(buf)?
            } else {
                empty_vec()
        })
    }

    #[verifier::rlimit(56)]
    #[verifier::spinoff_prover]
    pub fn read(buf: &mut Bytes, version: i16) -> (r: Result<Self, Error>)
        ensures
            read_as(Self::spec_read(bytes_seq(*old(buf)), version), *final(buf), r),
            took_front(*old(buf), *final(buf)),
    {
        let error_code = Self::read_error_code(buf, version)?;
        let error_message = Self::read_error_message(buf, version)?;
        let resource_type = Self::read_resource_type(buf, version)?;
        let resource_name = Self::read_resource_name(buf, version)?;
        let configs = Self::read_configs(buf, version)?;
        let _unknown_tagged_fields = Self::read_tags(buf, version)?;
        Ok(DescribeConfigsResult {
                error_code: error_code,
                error_message: error_message,
                resource_type: resource_type,
                resource_name: resource_name,
                configs: configs,
                _unknown_tagged_fields: _unknown_tagged_fields,
        })
    }

    #[verifier::rlimit(90)]
    #[verifier::spinoff_prover]
    pub fn write(&self, buf: &mut BytesMut, version: i16) -> (r: Result<(), Error>)
        requires
            has_room(Self::spec_write(self@, version), *old(buf)),
        ensures
            wrote(Self::spec_write(self@, version), *old(buf), *final(buf), r),
    {
        let ghost m = self@;
        proof {
            reveal(DescribeConfigsResult::spec_write_error_code);
            reveal(DescribeConfigsResult::spec_write_error_message);
            reveal(DescribeConfigsResult::spec_write_resource_type);
            reveal(DescribeConfigsResult::spec_write_resource_name);
            reveal(DescribeConfigsResult::spec_write_configs);
            reveal(DescribeConfigsResult::spec_write_tags);
        }
        let ghost s0 = Self::spec_write_error_code(m, version);
        let ghost w0 = s0;
        let ghost s1 = Self::spec_write_error_message(m, version);
        let ghost w1 = chain(w0, s1);
        let ghost s2 = Self::spec_write_resource_type(m, version);
        let ghost w2 = chain(w1, s2);
        let ghost s3 = Self::spec_write_resource_name(m, version);
        let ghost w3 = chain(w2, s3);
        let ghost s4 = Self::spec_write_configs(m, version);
        let ghost w4 = chain(w3, s4);
        let ghost s5 = Self::spec_write_tags(m, version);
        let ghost w5 = chain(w4, s5);
        assert(Self::spec_write(m, version) == w5);
        assert(written(w4).len() <= written(w5).len() && (w4 is Err ==> w5 == w4));
        assert(written(w3).len() <= written(w5).len() && (w3 is Err ==> w5 == w3));
        assert(written(w2).len() <= written(w5).len() && (w2 is Err ==> w5 == w2));
        assert(written(w1).len() <= written(w5).len() && (w1 is Err ==> w5 == w1));
        assert(written(w0).len() <= written(w5).len() && (w0 is Err ==> w5 == w0));
        let ghost mid = bytes_mut_seq(*buf);
        proof {
            lemma_append_empty(mid);
        }
        let r0 = {
            write_i16(buf, self.error_code);
            Ok(())
        };
        assert(bytes_mut_seq(*buf) == mid + written(s0));
        if r0.is_err() {
            return r0;
        }
        let ghost mid = bytes_mut_seq(*buf);
        proof {
            lemma_append_empty(mid);
        }
        let r1 = if version >= 4 {
            write_compact_nullable_string(buf, &self.error_message)
        } else {
            write_nullable_string(buf, &self.error_message)
        };
        assert(bytes_mut_seq(*buf) == mid + written(s1));
        proof {
            lemma_step(bytes_mut_seq(*old(buf)), w0, s1);
        }
        if r1.is_err() {
            return r1;
        }
        let ghost mid = bytes_mut_seq(*buf);
        proof {
            lemma_append_empty(mid);
        }
        let r2 = {
            write_i8(buf, self.resource_type);
            Ok(())
        };
        assert(bytes_mut_seq(*buf) == mid + written(s2));
        proof {
            lemma_step(bytes_mut_seq(*old(buf)), w1, s2);
        }
        if r2.is_err() {
            return r2;
        }
        let ghost mid = bytes_mut_seq(*buf);
        proof {
            lemma_append_empty(mid);
        }
        let r3 = if version >= 4 {
            write_compact_string(buf, &self.resource_name)
        } else {
            write_string(buf, &self.resource_name)
        };
        assert(bytes_mut_seq(*buf) == mid + written(s3));
        proof {
            lemma_step(bytes_mut_seq(*old(buf)), w2, s3);
        }
        if r3.is_err() {
            return r3;
        }
        let ghost mid = bytes_mut_seq(*buf);
        proof {
            lemma_append_empty(mid);
        }
        let r4 = if version >= 4 {
            write_array::<DescribeConfigsResourceResult>(buf, &self.configs, version, true)
        } else {
            write_array::<DescribeConfigsResourceResult>(buf, &self.configs, version, false)
        };
        assert(bytes_mut_seq(*buf) == mid + written(s4));
        proof {
            lemma_step(bytes_mut_seq(*old(buf)), w3, s4);
        }
        if r4.is_err() {
            return r4;
        }
        let ghost mid = bytes_mut_seq(*buf);
        proof {
            lemma_append_empty(mid);
        }
        let r5 = if version >= 4 {
            write_tagged_fields(buf, &sort_by_tag(&self._unknown_tagged_fields))
        } else {
            Ok(())
        };
        assert(bytes_mut_seq(*buf) == mid + written(s5));
        proof {
            lemma_step(bytes_mut_seq(*old(buf)), w4, s5);
        }
        if r5.is_err() {
            return r5;
        }
        Ok(())
    }

    #[verifier::rlimit(90)]
    #[verifier::spinoff_prover]
    pub fn encoded_len(&self, version: i16) -> (r: Result<usize, Error>)
        ensures
            r == len_result(Self::spec_write(self@, version)),
    {
        let ghost m = self@;
        proof {
            reveal(DescribeConfigsResult::spec_write_error_code);
            reveal(DescribeConfigsResult::spec_write_error_message);
            reveal(DescribeConfigsResult::spec_write_resource_type);
            reveal(DescribeConfigsResult::spec_write_resource_name);
            reveal(DescribeConfigsResult::spec_write_configs);
            reveal(DescribeConfigsResult::spec_write_tags);
        }
        let ghost s0 = Self::spec_write_error_code(m, version);
        let ghost w0 = s0;
        let ghost s1 = Self::spec_write_error_message(m, version);
        let ghost w1 = chain(w0, s1);
        let ghost s2 = Self::spec_write_resource_type(m, version);
        let ghost w2 = chain(w1, s2);
        let ghost s3 = Self::spec_write_resource_name(m, version);
        let ghost w3 = chain(w2, s3);
        let ghost s4 = Self::spec_write_configs(m, version);
        let ghost w4 = chain(w3, s4);
        let ghost s5 = Self::spec_write_tags(m, version);
        let ghost w5 = chain(w4, s5);
        assert(Self::spec_write(m, version) == w5);
        assert(w4 is Err ==> w5 == w4);
        assert(w3 is Err ==> w5 == w3);
        assert(w2 is Err ==> w5 == w2);
        assert(w1 is Err ==> w5 == w1);
        assert(w0 is Err ==> w5 == w0);
        let mut len: usize = 0;
        let l0 = Ok(2);
        assert(l0 == len_result(s0));
        let n0 = match l0 {
            Ok(n) => n,
            Err(e) => {
                return Err(e);
            },
        };
        len = saturating_sum(len, n0);
        assert(w0 is Ok && len == saturate(written(w0).len() as int));
        let l1 = if version >= 4 {
            compact_nullable_string_len(&self.error_message)
        } else {
            nullable_string_len(&self.error_message)
        };
        assert(l1 == len_result(s1));
        let n1 = match l1 {
            Ok(n) => n,
            Err(e) => {
                return Err(e);
            },
        };
        proof {
            lemma_len_step(w0, s1, n1);
        }
        len = saturating_sum(len, n1);
        assert(w1 is Ok && len == saturate(written(w1).len() as int));
        let l2 = Ok(1);
        assert(l2 == len_result(s2));
        let n2 = match l2 {
            Ok(n) => n,
            Err(e) => {
                return Err(e);
            },
        };
        proof {
            lemma_len_step(w1, s2, n2);
        }
        len = saturating_sum(len, n2);
        assert(w2 is Ok && len == saturate(written(w2).len() as int));
        let l3 = if version >= 4 {
            compact_string_len(&self.resource_name)
        } else {
            string_len(&self.resource_name)
        };
        assert(l3 == len_result(s3));
        let n3 = match l3 {
            Ok(n) => n,
            Err(e) => {
                return Err(e);
            },
        };
        proof {
            lemma_len_step(w2, s3, n3);
        }
        len = saturating_sum(len, n3);
        assert(w3 is Ok && len == saturate(written(w3).len() as int));
        let l4 = if version >= 4 {
            array_len::<DescribeConfigsResourceResult>(&self.configs, version, true)
        } else {
            array_len::<DescribeConfigsResourceResult>(&self.configs, version, false)
        };
        assert(l4 == len_result(s4));
        let n4 = match l4 {
            Ok(n) => n,
            Err(e) => {
                return Err(e);
            },
        };
        proof {
            lemma_len_step(w3, s4, n4);
        }
        len = saturating_sum(len, n4);
        assert(w4 is Ok && len == saturate(written(w4).len() as int));
        let l5 = if version >= 4 {
            tagged_fields_len(&sort_by_tag(&self._unknown_tagged_fields))
        } else {
            Ok(0)
        };
        assert(l5 == len_result(s5));
        let n5 = match l5 {
            Ok(n) => n,
            Err(e) => {
                return Err(e);
            },
        };
        proof {
            lemma_len_step(w4, s5, n5);
        }
        len = saturating_sum(len, n5);
        assert(w5 is Ok && len == saturate(written(w5).len() as int));
        Ok(len)
    }
}

#[derive(Debug, PartialEq)]
pub struct DescribeConfigsResourceResult {
    /// The configuration name.
    pub name: KafkaString,
    /// The configuration value.
    pub value: Option<KafkaString>,
    /// True if the configuration is read-only.
    pub read_only: bool,
    /// The configuration source.
    pub config_source: i8,
    /// True if this configuration is sensitive.
    pub is_sensitive: bool,
    /// The synonyms for this configuration key.
    pub synonyms: Vec<DescribeConfigsSynonym>,
    /// The configuration data type. Type can be one of the following values - BOOLEAN, STRING,
    /// INT, SHORT, LONG, DOUBLE, LIST, CLASS, PASSWORD.
    pub config_type: i8,
    /// The configuration documentation.
    pub documentation: Option<KafkaString>,
    pub _unknown_tagged_fields: Vec<RawTaggedField>,
}

/// What a `DescribeConfigsResourceResult` holds, as the specification sees it.
#[verifier::ext_equal]
pub struct DescribeConfigsResourceResultView {
    pub name: Seq<u8>,
    pub value: Option<Seq<u8>>,
    pub read_only: bool,
    pub config_source: i8,
    pub is_sensitive: bool,
    pub synonyms: Seq<DescribeConfigsSynonymView>,
    pub config_type: i8,
    pub documentation: Option<Seq<u8>>,
    pub unknown_tagged_fields: Seq<(u32, Seq<u8>)>,
}

impl View for DescribeConfigsResourceResult {
    type V = DescribeConfigsResourceResultView;

    open spec fn view(&self) -> DescribeConfigsResourceResultView {
        DescribeConfigsResourceResultView {
            name: self.name@,
            value: opt_view(self.value),
            read_only: self.read_only,
            config_source: self.config_source,
            is_sensitive: self.is_sensitive,
            synonyms: views(self.synonyms@),
            config_type: self.config_type,
            documentation: opt_view(self.documentation),
            unknown_tagged_fields: views(self._unknown_tagged_fields@),
        }
    }
}

impl Clone for DescribeConfigsResourceResult {
    fn clone(&self) -> (r: Self)
        ensures
            r@ == self@,
    {
        let r = DescribeConfigsResourceResult {
            name: self.name.clone(),
            value: match &self.value {
                Some(x) => Some(x.clone()),
                None => None,
            },
            read_only: self.read_only,
            config_source: self.config_source,
            is_sensitive: self.is_sensitive,
            synonyms: clone_vec(&self.synonyms),
            config_type: self.config_type,
            documentation: match &self.documentation {
                Some(x) => Some(x.clone()),
                None => None,
            },
            _unknown_tagged_fields: clone_vec(&self._unknown_tagged_fields),
        };
        assert(r@ =~= self@);
        r
    }
}

impl ViewClone for DescribeConfigsResourceResult {
    fn clone_view(&self) -> (r: Self) {
        self.clone()
    }
}

impl Default for DescribeConfigsResourceResult {
    fn default() -> (r: Self)
        ensures
            r@ == Self::default_view(),
    {
        let r = DescribeConfigsResourceResult {
            name: KafkaString::default(),
            value: None,
            read_only: false,
            config_source: -1i8,
            is_sensitive: false,
            synonyms: empty_vec(),
            config_type: 0i8,
            documentation: None,
            _unknown_tagged_fields: empty_vec(),
        };
        assert(r@ =~= Self::default_view());
        r
    }
}

impl DescribeConfigsResourceResult {
    pub open spec fn default_view() -> DescribeConfigsResourceResultView {
        DescribeConfigsResourceResultView {
            name: Seq::empty(),
            value: None,
            read_only: false,
            config_source: -1i8,
            is_sensitive: false,
            synonyms: Seq::empty(),
            config_type: 0i8,
            documentation: None,
            unknown_tagged_fields: Seq::empty(),
        }
    }

    /// The `name` field, read from the front of `s`.
    #[verifier::opaque]
    pub open spec fn spec_read_name(s: Seq<u8>, version: i16) -> ReadOutcome<Seq<u8>> {
        if version >= 4 {
            spec_read_compact_string(s)
        } else {
            spec_read_string(s)
        }
    }

    /// The `value` field, read from the front of `s`.
    #[verifier::opaque]
    pub open spec fn spec_read_value(s: Seq<u8>, version: i16) -> ReadOutcome<Option<Seq<u8>>> {
        if version >= 4 {
            spec_read_compact_nullable_string(s)
        } else {
            spec_read_nullable_string(s)
        }
    }

    /// The `read_only` field, read from the front of `s`.
    #[verifier::opaque]
    pub open spec fn spec_read_read_only(s: Seq<u8>, version: i16) -> ReadOutcome<bool> {
        spec_read_bool(s)
    }

    /// The `config_source` field, read from the front of `s`.
    #[verifier::opaque]
    pub open spec fn spec_read_config_source(s: Seq<u8>, version: i16) -> ReadOutcome<i8> {
        spec_read_i8(s)
    }

    /// The `is_sensitive` field, read from the front of `s`.
    #[verifier::opaque]
    pub open spec fn spec_read_is_sensitive(s: Seq<u8>, version: i16) -> ReadOutcome<bool> {
        spec_read_bool(s)
    }

    /// The `synonyms` field, read from the front of `s`.
    #[verifier::opaque]
    pub open spec fn spec_read_synonyms(s: Seq<u8>, version: i16) -> ReadOutcome<Seq<DescribeConfigsSynonymView>> {
        if version >= 4 {
            spec_read_array::<DescribeConfigsSynonym>(s, version, true)
        } else {
            spec_read_array::<DescribeConfigsSynonym>(s, version, false)
        }
    }

    /// The `config_type` field, read from the front of `s`.
    #[verifier::opaque]
    pub open spec fn spec_read_config_type(s: Seq<u8>, version: i16) -> ReadOutcome<i8> {
        if version >= 3 {
            spec_read_i8(s)
        } else {
            Ok((0i8, s))
        }
    }

    /// The `documentation` field, read from the front of `s`.
    #[verifier::opaque]
    pub open spec fn spec_read_documentation(s: Seq<u8>, version: i16) -> ReadOutcome<Option<Seq<u8>>> {
        if version >= 3 {
            if version >= 4 {
                spec_read_compact_nullable_string(s)
            } else {
                spec_read_nullable_string(s)
            }
        } else {
            Ok((None, s))
        }
    }

    /// The tagged fields, read from the front of `s`.
    #[verifier::opaque]
    pub open spec fn spec_read_tags(s: Seq<u8>, version: i16) -> ReadOutcome<Seq<(u32, Seq<u8>)>> {
        if version >= 4 {
            spec_read_tagged_fields(s)
        } else {
            Ok((Seq::empty(), s))
        }
    }

    pub open spec fn spec_read(s: Seq<u8>, version: i16) -> ReadOutcome<DescribeConfigsResourceResultView> {
        match (Self::spec_read_name(s, version)) {
            Err(e) => Err(e),
            Ok((name, s)) => match (Self::spec_read_value(s, version)) {
                Err(e) => Err(e),
                Ok((value, s)) => match (Self::spec_read_read_only(s, version)) {
                    Err(e) => Err(e),
                    Ok((read_only, s)) => match (Self::spec_read_config_source(s, version)) {
                        Err(e) => Err(e),
                        Ok((config_source, s)) => match (Self::spec_read_is_sensitive(s, version)) {
                            Err(e) => Err(e),
                            Ok((is_sensitive, s)) => match (Self::spec_read_synonyms(s, version)) {
                                Err(e) => Err(e),
                                Ok((synonyms, s)) => match (Self::spec_read_config_type(s, version)) {
                                    Err(e) => Err(e),
                                    Ok((config_type, s)) => match (Self::spec_read_documentation(s, version)) {
                                        Err(e) => Err(e),
                                        Ok((documentation, s)) => match (Self::spec_read_tags(s, version)) {
                                            Err(e) => Err(e),
                                            Ok((unknown_tagged_fields, s)) => Ok((DescribeConfigsResourceResultView {
                                                        name: name,
                                                        value: value,
                                                        read_only: read_only,
                                                        config_source: config_source,
                                                        is_sensitive: is_sensitive,
                                                        synonyms: synonyms,
                                                        config_type: config_type,
                                                        documentation: documentation,
                                                        unknown_tagged_fields: unknown_tagged_fields,
                                                    }, s)),
                                        },
                                    },
                                },
                            },
                        },
                    },
                },
            },
        }
    }

    /// What writing the `name` field of `m` appends.
    #[verifier::opaque]
    pub open spec fn spec_write_name(m: DescribeConfigsResourceResultView, version: i16) -> WriteOutcome {
        if version >= 4 {
            spec_write_compact_string(m.name)
        } else {
            spec_write_string(m.name)
        }
    }

    /// What writing the `value` field of `m` appends.
    #[verifier::opaque]
    pub open spec fn spec_write_value(m: DescribeConfigsResourceResultView, version: i16) -> WriteOutcome {
        if version >= 4 {
            spec_write_compact_nullable_string(m.value)
        } else {
            spec_write_nullable_string(m.value)
        }
    }

    /// What writing the `read_only` field of `m` appends.
    #[verifier::opaque]
    pub open spec fn spec_write_read_only(m: DescribeConfigsResourceResultView, version: i16) -> WriteOutcome {
        spec_write_bool(m.read_only)
    }

    /// What writing the `config_source` field of `m` appends.
    #[verifier::opaque]
    pub open spec fn spec_write_config_source(m: DescribeConfigsResourceResultView, version: i16) -> WriteOutcome {
        spec_write_i8(m.config_source)
    }

    /// What writing the `is_sensitive` field of `m` appends.
    #[verifier::opaque]
    pub open spec fn spec_write_is_sensitive(m: DescribeConfigsResourceResultView, version: i16) -> WriteOutcome {
        spec_write_bool(m.is_sensitive)
    }

    /// What writing the `synonyms` field of `m` appends.
    #[verifier::opaque]
    pub open spec fn spec_write_synonyms(m: DescribeConfigsResourceResultView, version: i16) -> WriteOutcome {
        if version >= 4 {
            spec_write_array::<DescribeConfigsSynonym>(m.synonyms, version, true)
        } else {
            spec_write_array::<DescribeConfigsSynonym>(m.synonyms, version, false)
        }
    }

    /// What writing the `config_type` field of `m` appends.
    #[verifier::opaque]
    pub open spec fn spec_write_config_type(m: DescribeConfigsResourceResultView, version: i16) -> WriteOutcome {
        if version >= 3 {
            spec_write_i8(m.config_type)
        } else {
            if m.config_type != 0i8 {
                fail(Error::UnsupportedFieldVersion(UnsupportedFieldVersion { api_key: 32, field: "config_type", version }))
            } else {
                emit(Seq::empty())
            }
        }
    }

    /// What writing the `documentation` field of `m` appends.
    #[verifier::opaque]
    pub open spec fn spec_write_documentation(m: DescribeConfigsResourceResultView, version: i16) -> WriteOutcome {
        if version >= 3 {
            if version >= 4 {
                spec_write_compact_nullable_string(m.documentation)
            } else {
                spec_write_nullable_string(m.documentation)
            }
        } else {
            if m.documentation is Some {
                fail(Error::UnsupportedFieldVersion(UnsupportedFieldVersion { api_key: 32, field: "documentation", version }))
            } else {
                emit(Seq::empty())
            }
        }
    }

    /// What writing the tagged fields of `m` appends.
    #[verifier::opaque]
    pub open spec fn spec_write_tags(m: DescribeConfigsResourceResultView, version: i16) -> WriteOutcome {
        if version >= 4 {
            spec_write_tagged_fields(sorted_by_tag(m.unknown_tagged_fields))
        } else {
            emit(Seq::empty())
        }
    }

    pub open spec fn spec_write(m: DescribeConfigsResourceResultView, version: i16) -> WriteOutcome {
        chain(
            chain(
                chain(
                    chain(
                        chain(
                            chain(
                                chain(
                                    chain(
                                        Self::spec_write_name(m, version),
                                        Self::spec_write_value(m, version),
                                    ),
                                    Self::spec_write_read_only(m, version),
                                ),
                                Self::spec_write_config_source(m, version),
                            ),
                            Self::spec_write_is_sensitive(m, version),
                        ),
                        Self::spec_write_synonyms(m, version),
                    ),
                    Self::spec_write_config_type(m, version),
                ),
                Self::spec_write_documentation(m, version),
            ),
            Self::spec_write_tags(m, version),
        )
    }

    /// Whether reading back what writing `m` in `version` appends gives `m`:
    /// fields that the version does not carry hold their default values, and
    /// tagged fields come in the order in which they are written.
    pub open spec fn canonical(m: DescribeConfigsResourceResultView, version: i16) -> bool {
        &&& all_canonical::<DescribeConfigsSynonym>(m.synonyms, version)
        &&& (if version >= 4 {
                tags_in_order(m.unknown_tagged_fields)
            } else {
                m.unknown_tagged_fields.len() == 0
        })
    }

    proof fn lemma_round_trip_name(m: DescribeConfigsResourceResultView, version: i16, rest: Seq<u8>)
        requires
            Self::canonical(m, version),
            Self::spec_write_name(m, version) is Ok,
        ensures
            Self::spec_read_name(written(Self::spec_write_name(m, version)) + rest, version) == Ok::<(Seq<u8>, Seq<u8>), Error>((m.name, rest)),
    {
        reveal(DescribeConfigsResourceResult::spec_read_name);
        reveal(DescribeConfigsResourceResult::spec_write_name);
        if version >= 4 {
            lemma_compact_string_round_trip(m.name, rest);
        } else {
            lemma_string_round_trip(m.name, rest);
        }
    }

    proof fn lemma_round_trip_value(m: DescribeConfigsResourceResultView, version: i16, rest: Seq<u8>)
        requires
            Self::canonical(m, version),
            Self::spec_write_value(m, version) is Ok,
        ensures
            Self::spec_read_value(written(Self::spec_write_value(m, version)) + rest, version) == Ok::<(Option<Seq<u8>>, Seq<u8>), Error>((m.value, rest)),
    {
        reveal(DescribeConfigsResourceResult::spec_read_value);
        reveal(DescribeConfigsResourceResult::spec_write_value);
        if version >= 4 {
            lemma_compact_nullable_string_round_trip(m.value, rest);
        } else {
            lemma_nullable_string_round_trip(m.value, rest);
        }
    }

    proof fn lemma_round_trip_read_only(m: DescribeConfigsResourceResultView, version: i16, rest: Seq<u8>)
        requires
            Self::canonical(m, version),
            Self::spec_write_read_only(m, version) is Ok,
        ensures
            Self::spec_read_read_only(written(Self::spec_write_read_only(m, version)) + rest, version) == Ok::<(bool, Seq<u8>), Error>((m.read_only, rest)),
    {
        reveal(DescribeConfigsResourceResult::spec_read_read_only);
        reveal(DescribeConfigsResourceResult::spec_write_read_only);
        lemma_bool_roundtrip(m.read_only, rest);
    }

    proof fn lemma_round_trip_config_source(m: DescribeConfigsResourceResultView, version: i16, rest: Seq<u8>)
        requires
            Self::canonical(m, version),
            Self::spec_write_config_source(m, version) is Ok,
        ensures
            Self::spec_read_config_source(written(Self::spec_write_config_source(m, version)) + rest, version) == Ok::<(i8, Seq<u8>), Error>((m.config_source, rest)),
    {
        reveal(DescribeConfigsResourceResult::spec_read_config_source);
        reveal(DescribeConfigsResourceResult::spec_write_config_source);
        lemma_i8_roundtrip(m.config_source, rest);
    }

    proof fn lemma_round_trip_is_sensitive(m: DescribeConfigsResourceResultView, version: i16, rest: Seq<u8>)
        requires
            Self::canonical(m, version),
            Self::spec_write_is_sensitive(m, version) is Ok,
        ensures
            Self::spec_read_is_sensitive(written(Self::spec_write_is_sensitive(m, version)) + rest, version) == Ok::<(bool, Seq<u8>), Error>((m.is_sensitive, rest)),
    {
        reveal(DescribeConfigsResourceResult::spec_read_is_sensitive);
        reveal(DescribeConfigsResourceResult::spec_write_is_sensitive);
        lemma_bool_roundtrip(m.is_sensitive, rest);
    }

    proof fn lemma_round_trip_synonyms(m: DescribeConfigsResourceResultView, version: i16, rest: Seq<u8>)
        requires
            Self::canonical(m, version),
            Self::spec_write_synonyms(m, version) is Ok,
        ensures
            Self::spec_read_synonyms(written(Self::spec_write_synonyms(m, version)) + rest, version) == Ok::<(Seq<DescribeConfigsSynonymView>, Seq<u8>), Error>((m.synonyms, rest)),
    {
        reveal(DescribeConfigsResourceResult::spec_read_synonyms);
        reveal(DescribeConfigsResourceResult::spec_write_synonyms);
        if version >= 4 {
            lemma_array_round_trip::<DescribeConfigsSynonym>(m.synonyms, version, true, rest);
        } else {
            lemma_array_round_trip::<DescribeConfigsSynonym>(m.synonyms, version, false, rest);
        }
    }

    proof fn lemma_round_trip_config_type(m: DescribeConfigsResourceResultView, version: i16, rest: Seq<u8>)
        requires
            Self::canonical(m, version),
            Self::spec_write_config_type(m, version) is Ok,
        ensures
            Self::spec_read_config_type(written(Self::spec_write_config_type(m, version)) + rest, version) == Ok::<(i8, Seq<u8>), Error>((m.config_type, rest)),
    {
        reveal(DescribeConfigsResourceResult::spec_read_config_type);
        reveal(DescribeConfigsResourceResult::spec_write_config_type);
        if version >= 3 {
            lemma_i8_roundtrip(m.config_type, rest);
        } else {
            assert(Seq::<u8>::empty() + rest =~= rest);
        }
    }

    proof fn lemma_round_trip_documentation(m: DescribeConfigsResourceResultView, version: i16, rest: Seq<u8>)
        requires
            Self::canonical(m, version),
            Self::spec_write_documentation(m, version) is Ok,
        ensures
            Self::spec_read_documentation(written(Self::spec_write_documentation(m, version)) + rest, version) == Ok::<(Option<Seq<u8>>, Seq<u8>), Error>((m.documentation, rest)),
    {
        reveal(DescribeConfigsResourceResult::spec_read_documentation);
        reveal(DescribeConfigsResourceResult::spec_write_documentation);
        if version >= 3 {
            if version >= 4 {
                lemma_compact_nullable_string_round_trip(m.documentation, rest);
            } else {
                lemma_nullable_string_round_trip(m.documentation, rest);
            }
        } else {
            assert(Seq::<u8>::empty() + rest =~= rest);
        }
    }

    proof fn lemma_round_trip_tags(m: DescribeConfigsResourceResultView, version: i16, rest: Seq<u8>)
        requires
            Self::canonical(m, version),
            Self::spec_write_tags(m, version) is Ok,
        ensures
            Self::spec_read_tags(written(Self::spec_write_tags(m, version)) + rest, version) == Ok::<(Seq<(u32, Seq<u8>)>, Seq<u8>), Error>((m.unknown_tagged_fields, rest)),
    {
        reveal(DescribeConfigsResourceResult::spec_read_tags);
        reveal(DescribeConfigsResourceResult::spec_write_tags);
        if version >= 4 {
            lemma_sorted_by_tag_in_order(m.unknown_tagged_fields);
            lemma_tagged_fields_round_trip(m.unknown_tagged_fields, rest);
        } else {
            assert(Seq::<u8>::empty() + rest =~= rest);
            assert(m.unknown_tagged_fields =~= Seq::empty());
        }
    }

    /// Reading back what writing `m` in `version` appends gives `m` again, and
    /// leaves what follows, for every canonical message whose write succeeds.
    #[verifier::rlimit(100)]
    #[verifier::spinoff_prover]
    pub proof fn lemma_round_trip(m: DescribeConfigsResourceResultView, version: i16, rest: Seq<u8>)
        requires
            Self::canonical(m, version),
            Self::spec_write(m, version) is Ok,
        ensures
            Self::spec_read(written(Self::spec_write(m, version)) + rest, version) == Ok::<(DescribeConfigsResourceResultView, Seq<u8>), Error>((m, rest)),
    {
        let b0 = written(Self::spec_write_name(m, version));
        let b1 = written(Self::spec_write_value(m, version));
        let b2 = written(Self::spec_write_read_only(m, version));
        let b3 = written(Self::spec_write_config_source(m, version));
        let b4 = written(Self::spec_write_is_sensitive(m, version));
        let b5 = written(Self::spec_write_synonyms(m, version));
        let b6 = written(Self::spec_write_config_type(m, version));
        let b7 = written(Self::spec_write_documentation(m, version));
        let b8 = written(Self::spec_write_tags(m, version));
        let t9 = rest;
        let t8 = b8 + t9;
        let t7 = b7 + t8;
        let t6 = b6 + t7;
        let t5 = b5 + t6;
        let t4 = b4 + t5;
        let t3 = b3 + t4;
        let t2 = b2 + t3;
        let t1 = b1 + t2;
        let t0 = b0 + t1;
        let w0 = Self::spec_write_name(m, version);
        let w1 = chain(w0, Self::spec_write_value(m, version));
        let w2 = chain(w1, Self::spec_write_read_only(m, version));
        let w3 = chain(w2, Self::spec_write_config_source(m, version));
        let w4 = chain(w3, Self::spec_write_is_sensitive(m, version));
        let w5 = chain(w4, Self::spec_write_synonyms(m, version));
        let w6 = chain(w5, Self::spec_write_config_type(m, version));
        let w7 = chain(w6, Self::spec_write_documentation(m, version));
        let w8 = chain(w7, Self::spec_write_tags(m, version));
        assert(Self::spec_write(m, version) == w8);
        assert(written(w8) + t9 =~= written(w7) + t8);
        assert(written(w7) + t8 =~= written(w6) + t7);
        assert(written(w6) + t7 =~= written(w5) + t6);
        assert(written(w5) + t6 =~= written(w4) + t5);
        assert(written(w4) + t5 =~= written(w3) + t4);
        assert(written(w3) + t4 =~= written(w2) + t3);
        assert(written(w2) + t3 =~= written(w1) + t2);
        assert(written(w1) + t2 =~= written(w0) + t1);
        Self::lemma_round_trip_name(m, version, t1);
        Self::lemma_round_trip_value(m, version, t2);
        Self::lemma_round_trip_read_only(m, version, t3);
        Self::lemma_round_trip_config_source(m, version, t4);
        Self::lemma_round_trip_is_sensitive(m, version, t5);
        Self::lemma_round_trip_synonyms(m, version, t6);
        Self::lemma_round_trip_config_type(m, version, t7);
        Self::lemma_round_trip_documentation(m, version, t8);
        Self::lemma_round_trip_tags(m, version, t9);
    }

    /// In a version that does not carry `unknown_tagged_fields`, writing ignores its value.
    pub proof fn lemma_write_ignores_unknown_tagged_fields(m: DescribeConfigsResourceResultView, value: Seq<(u32, Seq<u8>)>, version: i16)
        requires
            !(version >= 4),
        ensures
            Self::spec_write((DescribeConfigsResourceResultView { unknown_tagged_fields: value, ..m }), version) == Self::spec_write(m, version),
    {
        reveal(DescribeConfigsResourceResult::spec_write_name);
        reveal(DescribeConfigsResourceResult::spec_write_value);
        reveal(DescribeConfigsResourceResult::spec_write_read_only);
        reveal(DescribeConfigsResourceResult::spec_write_config_source);
        reveal(DescribeConfigsResourceResult::spec_write_is_sensitive);
        reveal(DescribeConfigsResourceResult::spec_write_synonyms);
        reveal(DescribeConfigsResourceResult::spec_write_config_type);
        reveal(DescribeConfigsResourceResult::spec_write_documentation);
        reveal(DescribeConfigsResourceResult::spec_write_tags);
    }

    /// The default message holds the default value of each field of the schema.
    pub proof fn lemma_default_values()
        ensures
            Self::default_view().name.len() == 0,
            (Self::default_view().value is None),
            Self::default_view().read_only == (false),
            Self::default_view().config_source == (-1i8),
            Self::default_view().is_sensitive == (false),
            Self::default_view().synonyms.len() == 0,
            Self::default_view().config_type == (0i8),
            (Self::default_view().documentation is None),
            Self::default_view().unknown_tagged_fields.len() == 0,
    {
    }

    /// Each integer, boolean and identifier field is written as its standard
    /// big-endian bytes (a boolean as `1` or `0`) in the versions that carry
    /// it, and as nothing in the others; reading it takes those bytes back (any
    /// byte other than `0` reads as `true`), or gives its default value.
    pub proof fn lemma_field_encodings(m: DescribeConfigsResourceResultView, s: Seq<u8>, version: i16)
        ensures
            true ==> Self::spec_write_read_only(m, version) == Ok::<Seq<u8>, (Error, Seq<u8>)>(seq![if m.read_only { 1u8 } else { 0u8 }]),
            true ==> Self::spec_write_config_source(m, version) == Ok::<Seq<u8>, (Error, Seq<u8>)>(seq![m.config_source as u8]),
            true ==> Self::spec_write_is_sensitive(m, version) == Ok::<Seq<u8>, (Error, Seq<u8>)>(seq![if m.is_sensitive { 1u8 } else { 0u8 }]),
            version >= 3 ==> Self::spec_write_config_type(m, version) == Ok::<Seq<u8>, (Error, Seq<u8>)>(seq![m.config_type as u8]),
            true ==> Self::spec_read_read_only(s, version) == (if s.len() < 1 { Err(Error::UnexpectedEof) } else { Ok((s[0] != 0, s.drop_first())) }),
            true ==> Self::spec_read_config_source(s, version) == (if s.len() < 1 { Err(Error::UnexpectedEof) } else { Ok((s[0] as i8, s.drop_first())) }),
            true ==> Self::spec_read_is_sensitive(s, version) == (if s.len() < 1 { Err(Error::UnexpectedEof) } else { Ok((s[0] != 0, s.drop_first())) }),
            version >= 3 ==> Self::spec_read_config_type(s, version) == (if s.len() < 1 { Err(Error::UnexpectedEof) } else { Ok((s[0] as i8, s.drop_first())) }),
            !(version >= 3) ==> Self::spec_read_config_type(s, version) == Ok::<(i8, Seq<u8>), Error>((0i8, s)),
    {
        reveal(DescribeConfigsResourceResult::spec_write_read_only);
        reveal(DescribeConfigsResourceResult::spec_read_read_only);
        reveal(DescribeConfigsResourceResult::spec_write_config_source);
        reveal(DescribeConfigsResourceResult::spec_read_config_source);
        reveal(DescribeConfigsResourceResult::spec_write_is_sensitive);
        reveal(DescribeConfigsResourceResult::spec_read_is_sensitive);
        reveal(DescribeConfigsResourceResult::spec_write_config_type);
        reveal(DescribeConfigsResourceResult::spec_read_config_type);
    }

    /// Whether writing `m` in `version` succeeds, said over its parts: the
    /// version is one the schema covers, every field that the version cannot
    /// carry holds its default value, and every string, byte string, array and
    /// tagged field fits its length prefix.
    pub open spec fn writable(m: DescribeConfigsResourceResultView, version: i16) -> bool {
        &&& m.name.len() <= 0x7fff
        &&& (m.value matches Some(b) ==> b.len() <= 0x7fff)
        &&& (m.synonyms.len() <= i32::MAX && all_writable::<DescribeConfigsSynonym>(m.synonyms, version))
        &&& (if version >= 3 {
                true
            } else {
                !(m.config_type != 0i8)
        })
        &&& (if version >= 3 {
                (m.documentation matches Some(b) ==> b.len() <= 0x7fff)
            } else {
                !(m.documentation is Some)
        })
        &&& (if version >= 4 {
                m.unknown_tagged_fields.len() <= u32::MAX && tags_fit(m.unknown_tagged_fields)
            } else {
                true
        })
    }

    proof fn lemma_writable_name(m: DescribeConfigsResourceResultView, version: i16)
        ensures
            Self::spec_write_name(m, version) is Ok <==> m.name.len() <= 0x7fff,
    {
        reveal(DescribeConfigsResourceResult::spec_write_name);
    }

    proof fn lemma_writable_value(m: DescribeConfigsResourceResultView, version: i16)
        ensures
            Self::spec_write_value(m, version) is Ok <==> (m.value matches Some(b) ==> b.len() <= 0x7fff),
    {
        reveal(DescribeConfigsResourceResult::spec_write_value);
    }

    proof fn lemma_writable_read_only(m: DescribeConfigsResourceResultView, version: i16)
        ensures
            Self::spec_write_read_only(m, version) is Ok <==> true,
    {
        reveal(DescribeConfigsResourceResult::spec_write_read_only);
    }

    proof fn lemma_writable_config_source(m: DescribeConfigsResourceResultView, version: i16)
        ensures
            Self::spec_write_config_source(m, version) is Ok <==> true,
    {
        reveal(DescribeConfigsResourceResult::spec_write_config_source);
    }

    proof fn lemma_writable_is_sensitive(m: DescribeConfigsResourceResultView, version: i16)
        ensures
            Self::spec_write_is_sensitive(m, version) is Ok <==> true,
    {
        reveal(DescribeConfigsResourceResult::spec_write_is_sensitive);
    }

    proof fn lemma_writable_synonyms(m: DescribeConfigsResourceResultView, version: i16)
        ensures
            Self::spec_write_synonyms(m, version) is Ok <==> (m.synonyms.len() <= i32::MAX && all_writable::<DescribeConfigsSynonym>(m.synonyms, version)),
    {
        reveal(DescribeConfigsResourceResult::spec_write_synonyms);
        if version >= 4 {
            lemma_array_writable::<DescribeConfigsSynonym>(m.synonyms, version, true);
        } else {
            lemma_array_writable::<DescribeConfigsSynonym>(m.synonyms, version, false);
        }
    }

    proof fn lemma_writable_config_type(m: DescribeConfigsResourceResultView, version: i16)
        ensures
            Self::spec_write_config_type(m, version) is Ok <==> (if version >= 3 { true } else { !(m.config_type != 0i8) }),
    {
        reveal(DescribeConfigsResourceResult::spec_write_config_type);
    }

    proof fn lemma_writable_documentation(m: DescribeConfigsResourceResultView, version: i16)
        ensures
            Self::spec_write_documentation(m, version) is Ok <==> (if version >= 3 { (m.documentation matches Some(b) ==> b.len() <= 0x7fff) } else { !(m.documentation is Some) }),
    {
        reveal(DescribeConfigsResourceResult::spec_write_documentation);
    }

    proof fn lemma_writable_tags(m: DescribeConfigsResourceResultView, version: i16)
        ensures
            Self::spec_write_tags(m, version) is Ok <==> (if version >= 4 { m.unknown_tagged_fields.len() <= u32::MAX && tags_fit(m.unknown_tagged_fields) } else { true }),
    {
        reveal(DescribeConfigsResourceResult::spec_write_tags);
        if version >= 4 {
            lemma_sorted_tags_fit(m.unknown_tagged_fields);
            lemma_tagged_fields_writable(sorted_by_tag(m.unknown_tagged_fields));
        }
    }

    /// Writing `m` in `version` succeeds exactly when `m` is writable in it;
    /// so do `write` and `encoded_len`, whose results follow `spec_write`.
    #[verifier::rlimit(84)]
    pub proof fn lemma_writable(m: DescribeConfigsResourceResultView, version: i16)
        ensures
            Self::spec_write(m, version) is Ok <==> Self::writable(m, version),
    {
        Self::lemma_writable_name(m, version);
        Self::lemma_writable_value(m, version);
        Self::lemma_writable_read_only(m, version);
        Self::lemma_writable_config_source(m, version);
        Self::lemma_writable_is_sensitive(m, version);
        Self::lemma_writable_synonyms(m, version);
        Self::lemma_writable_config_type(m, version);
        Self::lemma_writable_documentation(m, version);
        Self::lemma_writable_tags(m, version);
    }

    pub fn with_name(self, value: KafkaString) -> (r: Self)
        ensures
            r@ == (DescribeConfigsResourceResultView { name: value@, ..self@ }),
    {
        let mut r = self;
        r.name = value;
        r
    }

    pub fn with_value(self, value: Option<KafkaString>) -> (r: Self)
        ensures
            r@ == (DescribeConfigsResourceResultView { value: opt_view(value), ..self@ }),
    {
        let mut r = self;
        r.value = value;
        r
    }

    pub fn with_read_only(self, value: bool) -> (r: Self)
        ensures
            r@ == (DescribeConfigsResourceResultView { read_only: value, ..self@ }),
    {
        let mut r = self;
        r.read_only = value;
        r
    }

    pub fn with_config_source(self, value: i8) -> (r: Self)
        ensures
            r@ == (DescribeConfigsResourceResultView { config_source: value, ..self@ }),
    {
        let mut r = self;
        r.config_source = value;
        r
    }

    pub fn with_is_sensitive(self, value: bool) -> (r: Self)
        ensures
            r@ == (DescribeConfigsResourceResultView { is_sensitive: value, ..self@ }),
    {
        let mut r = self;
        r.is_sensitive = value;
        r
    }

    pub fn with_synonyms(self, value: Vec<DescribeConfigsSynonym>) -> (r: Self)
        ensures
            r@ == (DescribeConfigsResourceResultView { synonyms: views(value@), ..self@ }),
    {
        let mut r = self;
        r.synonyms = value;
        r
    }

    pub fn with_config_type(self, value: i8) -> (r: Self)
        ensures
            r@ == (DescribeConfigsResourceResultView { config_type: value, ..self@ }),
    {
        let mut r = self;
        r.config_type = value;
        r
    }

    pub fn with_documentation(self, value: Option<KafkaString>) -> (r: Self)
        ensures
            r@ == (DescribeConfigsResourceResultView { documentation: opt_view(value), ..self@ }),
    {
        let mut r = self;
        r.documentation = value;
        r
    }

    fn read_name(buf: &mut Bytes, version: i16) -> (r: Result<KafkaString, Error>)
        ensures
            read_as(Self::spec_read_name(bytes_seq(*old(buf)), version), *final(buf), r),
            took_front(*old(buf), *final(buf)),
    {
        proof {
            reveal(DescribeConfigsResourceResult::spec_read_name);
        }
        Ok(if version >= 4 {
                read_compact_string(buf)?
            } else {
                read_string(buf)?
        })
    }

    fn read_value(buf: &mut Bytes, version: i16) -> (r: Result<Option<KafkaString>, Error>)
        ensures
            read_opt_as(Self::spec_read_value(bytes_seq(*old(buf)), version), *final(buf), r),
            took_front(*old(buf), *final(buf)),
    {
        proof {
            reveal(DescribeConfigsResourceResult::spec_read_value);
        }
        Ok(if version >= 4 {
                read_compact_nullable_string(buf)?
            } else {
                read_nullable_string(buf)?
        })
    }

    fn read_read_only(buf: &mut Bytes, version: i16) -> (r: Result<bool, Error>)
        ensures
            read_as(Self::spec_read_read_only(bytes_seq(*old(buf)), version), *final(buf), r),
            took_front(*old(buf), *final(buf)),
    {
        proof {
            reveal(DescribeConfigsResourceResult::spec_read_read_only);
        }
        Ok(read_bool(buf)?)
    }

    fn read_config_source(buf: &mut Bytes, version: i16) -> (r: Result<i8, Error>)
        ensures
            read_as(Self::spec_read_config_source(bytes_seq(*old(buf)), version), *final(buf), r),
            took_front(*old(buf), *final(buf)),
    {
        proof {
            reveal(DescribeConfigsResourceResult::spec_read_config_source);
        }
        Ok(read_i8(buf)?)
    }

    fn read_is_sensitive(buf: &mut Bytes, version: i16) -> (r: Result<bool, Error>)
        ensures
            read_as(Self::spec_read_is_sensitive(bytes_seq(*old(buf)), version), *final(buf), r),
            took_front(*old(buf), *final(buf)),
    {
        proof {
            reveal(DescribeConfigsResourceResult::spec_read_is_sensitive);
        }
        Ok(read_bool(buf)?)
    }

    fn read_synonyms(buf: &mut Bytes, version: i16) -> (r: Result<Vec<DescribeConfigsSynonym>, Error>)
        ensures
            read_vec_as(Self::spec_read_synonyms(bytes_seq(*old(buf)), version), *final(buf), r),
            took_front(*old(buf), *final(buf)),
    {
        proof {
            reveal(DescribeConfigsResourceResult::spec_read_synonyms);
        }
        Ok(if version >= 4 {
                read_array::<DescribeConfigsSynonym>(buf, version, true)?
            } else {
                read_array::<DescribeConfigsSynonym>(buf, version, false)?
        })
    }

    fn read_config_type(buf: &mut Bytes, version: i16) -> (r: Result<i8, Error>)
        ensures
            read_as(Self::spec_read_config_type(bytes_seq(*old(buf)), version), *final(buf), r),
            took_front(*old(buf), *final(buf)),
    {
        proof {
            reveal(DescribeConfigsResourceResult::spec_read_config_type);
        }
        Ok(if version >= 3 {
                read_i8(buf)?
            } else {
                0i8
        })
    }

    fn read_documentation(buf: &mut Bytes, version: i16) -> (r: Result<Option<KafkaString>, Error>)
        ensures
            read_opt_as(Self::spec_read_documentation(bytes_seq(*old(buf)), version), *final(buf), r),
            took_front(*old(buf), *final(buf)),
    {
        proof {
            reveal(DescribeConfigsResourceResult::spec_read_documentation);
        }
        Ok(if version >= 3 {
                if version >= 4 {
                    read_compact_nullable_string(buf)?
                } else {
                    read_nullable_string(buf)?
                }
            } else {
                None
        })
    }

    fn read_tags(buf: &mut Bytes, version: i16) -> (r: Result<Vec<RawTaggedField>, Error>)
        ensures
            read_vec_as(Self::spec_read_tags(bytes_seq(*old(buf)), version), *final(buf), r),
            took_front(*old(buf), *final(buf)),
    {
        proof {
            reveal(DescribeConfigsResourceResult::spec_read_tags);
        }
        Ok(if version >= 4 {
                read_tagged_fields(buf)?
            } else {
                empty_vec()
        })
    }

    #[verifier::rlimit(74)]
    #[verifier::spinoff_prover]
    pub fn read(buf: &mut Bytes, version: i16) -> (r: Result<Self, Error>)
        ensures
            read_as(Self::spec_read(bytes_seq(*old(buf)), version), *final(buf), r),
            took_front(*old(buf), *final(buf)),
    {
        let name = Self::read_name(buf, version)?;
        let value = Self::read_value(buf, version)?;
        let read_only = Self::read_read_only(buf, version)?;
        let config_source = Self::read_config_source(buf, version)?;
        let is_sensitive = Self::read_is_sensitive(buf, version)?;
        let synonyms = Self::read_synonyms(buf, version)?;
        let config_type = Self::read_config_type(buf, version)?;
        let documentation = Self::read_documentation(buf, version)?;
        let _unknown_tagged_fields = Self::read_tags(buf, version)?;
        Ok(DescribeConfigsResourceResult {
                name: name,
                value: value,
                read_only: read_only,
                config_source: config_source,
                is_sensitive: is_sensitive,
                synonyms: synonyms,
                config_type: config_type,
                documentation: documentation,
                _unknown_tagged_fields: _unknown_tagged_fields,
        })
    }

    #[verifier::rlimit(100)]
    #[verifier::spinoff_prover]
    pub fn write(&self, buf: &mut BytesMut, version: i16) -> (r: Result<(), Error>)
        requires
            has_room(Self::spec_write(self@, version), *old(buf)),
        ensures
            wrote(Self::spec_write(self@, version), *old(buf), *final(buf), r),
    {
        let ghost m = self@;
        proof {
            reveal(DescribeConfigsResourceResult::spec_write_name);
            reveal(DescribeConfigsResourceResult::spec_write_value);
            reveal(DescribeConfigsResourceResult::spec_write_read_only);
            reveal(DescribeConfigsResourceResult::spec_write_config_source);
            reveal(DescribeConfigsResourceResult::spec_write_is_sensitive);
            reveal(DescribeConfigsResourceResult::spec_write_synonyms);
            reveal(DescribeConfigsResourceResult::spec_write_config_type);
            reveal(DescribeConfigsResourceResult::spec_write_documentation);
            reveal(DescribeConfigsResourceResult::spec_write_tags);
        }
        let ghost s0 = Self::spec_write_name(m, version);
        let ghost w0 = s0;
        let ghost s1 = Self::spec_write_value(m, version);
        let ghost w1 = chain(w0, s1);
        let ghost s2 = Self::spec_write_read_only(m, version);
        let ghost w2 = chain(w1, s2);
        let ghost s3 = Self::spec_write_config_source(m, version);
        let ghost w3 = chain(w2, s3);
        let ghost s4 = Self::spec_write_is_sensitive(m, version);
        let ghost w4 = chain(w3, s4);
        let ghost s5 = Self::spec_write_synonyms(m, version);
        let ghost w5 = chain(w4, s5);
        let ghost s6 = Self::spec_write_config_type(m, version);
        let ghost w6 = chain(w5, s6);
        let ghost s7 = Self::spec_write_documentation(m, version);
        let ghost w7 = chain(w6, s7);
        let ghost s8 = Self::spec_write_tags(m, version);
        let ghost w8 = chain(w7, s8);
        assert(Self::spec_write(m, version) == w8);
        assert(written(w7).len() <= written(w8).len() && (w7 is Err ==> w8 == w7));
        assert(written(w6).len() <= written(w8).len() && (w6 is Err ==> w8 == w6));
        assert(written(w5).len() <= written(w8).len() && (w5 is Err ==> w8 == w5));
        assert(written(w4).len() <= written(w8).len() && (w4 is Err ==> w8 == w4));
        assert(written(w3).len() <= written(w8).len() && (w3 is Err ==> w8 == w3));
        assert(written(w2).len() <= written(w8).len() && (w2 is Err ==> w8 == w2));
        assert(written(w1).len() <= written(w8).len() && (w1 is Err ==> w8 == w1));
        assert(written(w0).len() <= written(w8).len() && (w0 is Err ==> w8 == w0));
        let ghost mid = bytes_mut_seq(*buf);
        proof {
            lemma_append_empty(mid);
        }
        let r0 = if version >= 4 {
            write_compact_string(buf, &self.name)
        } else {
            write_string(buf, &self.name)
        };
        assert(bytes_mut_seq(*buf) == mid + written(s0));
        if r0.is_err() {
            return r0;
        }
        let ghost mid = bytes_mut_seq(*buf);
        proof {
            lemma_append_empty(mid);
        }
        let r1 = if version >= 4 {
            write_compact_nullable_string(buf, &self.value)
        } else {
            write_nullable_string(buf, &self.value)
        };
        assert(bytes_mut_seq(*buf) == mid + written(s1));
        proof {
            lemma_step(bytes_mut_seq(*old(buf)), w0, s1);
        }
        if r1.is_err() {
            return r1;
        }
        let ghost mid = bytes_mut_seq(*buf);
        proof {
            lemma_append_empty(mid);
        }
        let r2 = {
            write_bool(buf, self.read_only);
            Ok(())
        };
        assert(bytes_mut_seq(*buf) == mid + written(s2));
        proof {
            lemma_step(bytes_mut_seq(*old(buf)), w1, s2);
        }
        if r2.is_err() {
            return r2;
        }
        let ghost mid = bytes_mut_seq(*buf);
        proof {
            lemma_append_empty(mid);
        }
        let r3 = {
            write_i8(buf, self.config_source);
            Ok(())
        };
        assert(bytes_mut_seq(*buf) == mid + written(s3));
        proof {
            lemma_step(bytes_mut_seq(*old(buf)), w2, s3);
        }
        if r3.is_err() {
            return r3;
        }
        let ghost mid = bytes_mut_seq(*buf);
        proof {
            lemma_append_empty(mid);
        }
        let r4 = {
            write_bool(buf, self.is_sensitive);
            Ok(())
        };
        assert(bytes_mut_seq(*buf) == mid + written(s4));
        proof {
            lemma_step(bytes_mut_seq(*old(buf)), w3, s4);
        }
        if r4.is_err() {
            return r4;
        }
        let ghost mid = bytes_mut_seq(*buf);
        proof {
            lemma_append_empty(mid);
        }
        let r5 = if version >= 4 {
            write_array::<DescribeConfigsSynonym>(buf, &self.synonyms, version, true)
        } else {
            write_array::<DescribeConfigsSynonym>(buf, &self.synonyms, version, false)
        };
        assert(bytes_mut_seq(*buf) == mid + written(s5));
        proof {
            lemma_step(bytes_mut_seq(*old(buf)), w4, s5);
        }
        if r5.is_err() {
            return r5;
        }
        let ghost mid = bytes_mut_seq(*buf);
        proof {
            lemma_append_empty(mid);
        }
        let r6 = if version >= 3 {
            {
                write_i8(buf, self.config_type);
                Ok(())
            }
        } else {
            if self.config_type != 0i8 {
                Err(Error::UnsupportedFieldVersion(UnsupportedFieldVersion::new(32, "config_type", version)))
            } else {
                Ok(())
            }
        };
        assert(bytes_mut_seq(*buf) == mid + written(s6));
        proof {
            lemma_step(bytes_mut_seq(*old(buf)), w5, s6);
        }
        if r6.is_err() {
            return r6;
        }
        let ghost mid = bytes_mut_seq(*buf);
        proof {
            lemma_append_empty(mid);
        }
        let r7 = if version >= 3 {
            if version >= 4 {
                write_compact_nullable_string(buf, &self.documentation)
            } else {
                write_nullable_string(buf, &self.documentation)
            }
        } else {
            if self.documentation.is_some() {
                Err(Error::UnsupportedFieldVersion(UnsupportedFieldVersion::new(32, "documentation", version)))
            } else {
                Ok(())
            }
        };
        assert(bytes_mut_seq(*buf) == mid + written(s7));
        proof {
            lemma_step(bytes_mut_seq(*old(buf)), w6, s7);
        }
        if r7.is_err() {
            return r7;
        }
        let ghost mid = bytes_mut_seq(*buf);
        proof {
            lemma_append_empty(mid);
        }
        let r8 = if version >= 4 {
            write_tagged_fields(buf, &sort_by_tag(&self._unknown_tagged_fields))
        } else {
            Ok(())
        };
        assert(bytes_mut_seq(*buf) == mid + written(s8));
        proof {
            lemma_step(bytes_mut_seq(*old(buf)), w7, s8);
        }
        if r8.is_err() {
            return r8;
        }
        Ok(())
    }

    #[verifier::rlimit(100)]
    #[verifier::spinoff_prover]
    pub fn encoded_len(&self, version: i16) -> (r: Result<usize, Error>)
        ensures
            r == len_result(Self::spec_write(self@, version)),
    {
        let ghost m = self@;
        proof {
            reveal(DescribeConfigsResourceResult::spec_write_name);
            reveal(DescribeConfigsResourceResult::spec_write_value);
            reveal(DescribeConfigsResourceResult::spec_write_read_only);
            reveal(DescribeConfigsResourceResult::spec_write_config_source);
            reveal(DescribeConfigsResourceResult::spec_write_is_sensitive);
            reveal(DescribeConfigsResourceResult::spec_write_synonyms);
            reveal(DescribeConfigsResourceResult::spec_write_config_type);
            reveal(DescribeConfigsResourceResult::spec_write_documentation);
            reveal(DescribeConfigsResourceResult::spec_write_tags);
        }
        let ghost s0 = Self::spec_write_name(m, version);
        let ghost w0 = s0;
        let ghost s1 = Self::spec_write_value(m, version);
        let ghost w1 = chain(w0, s1);
        let ghost s2 = Self::spec_write_read_only(m, version);
        let ghost w2 = chain(w1, s2);
        let ghost s3 = Self::spec_write_config_source(m, version);
        let ghost w3 = chain(w2, s3);
        let ghost s4 = Self::spec_write_is_sensitive(m, version);
        let ghost w4 = chain(w3, s4);
        let ghost s5 = Self::spec_write_synonyms(m, version);
        let ghost w5 = chain(w4, s5);
        let ghost s6 = Self::spec_write_config_type(m, version);
        let ghost w6 = chain(w5, s6);
        let ghost s7 = Self::spec_write_documentation(m, version);
        let ghost w7 = chain(w6, s7);
        let ghost s8 = Self::spec_write_tags(m, version);
        let ghost w8 = chain(w7, s8);
        assert(Self::spec_write(m, version) == w8);
        assert(w7 is Err ==> w8 == w7);
        assert(w6 is Err ==> w8 == w6);
        assert(w5 is Err ==> w8 == w5);
        assert(w4 is Err ==> w8 == w4);
        assert(w3 is Err ==> w8 == w3);
        assert(w2 is Err ==> w8 == w2);
        assert(w1 is Err ==> w8 == w1);
        assert(w0 is Err ==> w8 == w0);
        let mut len: usize = 0;
        let l0 = if version >= 4 {
            compact_string_len(&self.name)
        } else {
            string_len(&self.name)
        };
        assert(l0 == len_result(s0));
        let n0 = match l0 {
            Ok(n) => n,
            Err(e) => {
                return Err(e);
            },
        };
        len = saturating_sum(len, n0);
        assert(w0 is Ok && len == saturate(written(w0).len() as int));
        let l1 = if version >= 4 {
            compact_nullable_string_len(&self.value)
        } else {
            nullable_string_len(&self.value)
        };
        assert(l1 == len_result(s1));
        let n1 = match l1 {
            Ok(n) => n,
            Err(e) => {
                return Err(e);
            },
        };
        proof {
            lemma_len_step(w0, s1, n1);
        }
        len = saturating_sum(len, n1);
        assert(w1 is Ok && len == saturate(written(w1).len() as int));
        let l2 = Ok(1);
        assert(l2 == len_result(s2));
        let n2 = match l2 {
            Ok(n) => n,
            Err(e) => {
                return Err(e);
            },
        };
        proof {
            lemma_len_step(w1, s2, n2);
        }
        len = saturating_sum(len, n2);
        assert(w2 is Ok && len == saturate(written(w2).len() as int));
        let l3 = Ok(1);
        assert(l3 == len_result(s3));
        let n3 = match l3 {
            Ok(n) => n,
            Err(e) => {
                return Err(e);
            },
        };
        proof {
            lemma_len_step(w2, s3, n3);
        }
        len = saturating_sum(len, n3);
        assert(w3 is Ok && len == saturate(written(w3).len() as int));
        let l4 = Ok(1);
        assert(l4 == len_result(s4));
        let n4 = match l4 {
            Ok(n) => n,
            Err(e) => {
                return Err(e);
            },
        };
        proof {
            lemma_len_step(w3, s4, n4);
        }
        len = saturating_sum(len, n4);
        assert(w4 is Ok && len == saturate(written(w4).len() as int));
        let l5 = if version >= 4 {
            array_len::<DescribeConfigsSynonym>(&self.synonyms, version, true)
        } else {
            array_len::<DescribeConfigsSynonym>(&self.synonyms, version, false)
        };
        assert(l5 == len_result(s5));
        let n5 = match l5 {
            Ok(n) => n,
            Err(e) => {
                return Err(e);
            },
        };
        proof {
            lemma_len_step(w4, s5, n5);
        }
        len = saturating_sum(len, n5);
        assert(w5 is Ok && len == saturate(written(w5).len() as int));
        let l6 = if version >= 3 {
            Ok(1)
        } else {
            if self.config_type != 0i8 {
                Err(Error::UnsupportedFieldVersion(UnsupportedFieldVersion::new(32, "config_type", version)))
            } else {
                Ok(0)
            }
        };
        assert(l6 == len_result(s6));
        let n6 = match l6 {
            Ok(n) => n,
            Err(e) => {
                return Err(e);
            },
        };
        proof {
            lemma_len_step(w5, s6, n6);
        }
        len = saturating_sum(len, n6);
        assert(w6 is Ok && len == saturate(written(w6).len() as int));
        let l7 = if version >= 3 {
            if version >= 4 {
                compact_nullable_string_len(&self.documentation)
            } else {
                nullable_string_len(&self.documentation)
            }
        } else {
            if self.documentation.is_some() {
                Err(Error::UnsupportedFieldVersion(UnsupportedFieldVersion::new(32, "documentation", version)))
            } else {
                Ok(0)
            }
        };
        assert(l7 == len_result(s7));
        let n7 = match l7 {
            Ok(n) => n,
            Err(e) => {
                return Err(e);
            },
        };
        proof {
            lemma_len_step(w6, s7, n7);
        }
        len = saturating_sum(len, n7);
        assert(w7 is Ok && len == saturate(written(w7).len() as int));
        let l8 = if version >= 4 {
            tagged_fields_len(&sort_by_tag(&self._unknown_tagged_fields))
        } else {
            Ok(0)
        };
        assert(l8 == len_result(s8));
        let n8 = match l8 {
            Ok(n) => n,
            Err(e) => {
                return Err(e);
            },
        };
        proof {
            lemma_len_step(w7, s8, n8);
        }
        len = saturating_sum(len, n8);
        assert(w8 is Ok && len == saturate(written(w8).len() as int));
        Ok(len)
    }
}

#[derive(Debug, PartialEq)]
pub struct DescribeConfigsSynonym {
    /// The synonym name.
    pub name: KafkaString,
    /// The synonym value.
    pub value: Option<KafkaString>,
    /// The synonym source.
    pub source: i8,
    pub _unknown_tagged_fields: Vec<RawTaggedField>,
}

/// What a `DescribeConfigsSynonym` holds, as the specification sees it.
#[verifier::ext_equal]
pub struct DescribeConfigsSynonymView {
    pub name: Seq<u8>,
    pub value: Option<Seq<u8>>,
    pub source: i8,
    pub unknown_tagged_fields: Seq<(u32, Seq<u8>)>,
}

impl View for DescribeConfigsSynonym {
    type V = DescribeConfigsSynonymView;

    open spec fn view(&self) -> DescribeConfigsSynonymView {
        DescribeConfigsSynonymView {
            name: self.name@,
            value: opt_view(self.value),
            source: self.source,
            unknown_tagged_fields: views(self._unknown_tagged_fields@),
        }
    }
}

impl Clone for DescribeConfigsSynonym {
    fn clone(&self) -> (r: Self)
        ensures
            r@ == self@,
    {
        let r = DescribeConfigsSynonym {
            name: self.name.clone(),
            value: match &self.value {
                Some(x) => Some(x.clone()),
                None => None,
            },
            source: self.source,
            _unknown_tagged_fields: clone_vec(&self._unknown_tagged_fields),
        };
        assert(r@ =~= self@);
        r
    }
}

impl ViewClone for DescribeConfigsSynonym {
    fn clone_view(&self) -> (r: Self) {
        self.clone()
    }
}

impl Default for DescribeConfigsSynonym {
    fn default() -> (r: Self)
        ensures
            r@ == Self::default_view(),
    {
        let r = DescribeConfigsSynonym {
            name: KafkaString::default(),
            value: None,
            source: 0_i8,
            _unknown_tagged_fields: empty_vec(),
        };
        assert(r@ =~= Self::default_view());
        r
    }
}

impl DescribeConfigsSynonym {
    pub open spec fn default_view() -> DescribeConfigsSynonymView {
        DescribeConfigsSynonymView {
            name: Seq::empty(),
            value: None,
            source: 0_i8,
            unknown_tagged_fields: Seq::empty(),
        }
    }

    /// The `name` field, read from the front of `s`.
    #[verifier::opaque]
    pub open spec fn spec_read_name(s: Seq<u8>, version: i16) -> ReadOutcome<Seq<u8>> {
        if version >= 4 {
            spec_read_compact_string(s)
        } else {
            spec_read_string(s)
        }
    }

    /// The `value` field, read from the front of `s`.
    #[verifier::opaque]
    pub open spec fn spec_read_value(s: Seq<u8>, version: i16) -> ReadOutcome<Option<Seq<u8>>> {
        if version >= 4 {
            spec_read_compact_nullable_string(s)
        } else {
            spec_read_nullable_string(s)
        }
    }

    /// The `source` field, read from the front of `s`.
    #[verifier::opaque]
    pub open spec fn spec_read_source(s: Seq<u8>, version: i16) -> ReadOutcome<i8> {
        spec_read_i8(s)
    }

    /// The tagged fields, read from the front of `s`.
    #[verifier::opaque]
    pub open spec fn spec_read_tags(s: Seq<u8>, version: i16) -> ReadOutcome<Seq<(u32, Seq<u8>)>> {
        if version >= 4 {
            spec_read_tagged_fields(s)
        } else {
            Ok((Seq::empty(), s))
        }
    }

    pub open spec fn spec_read(s: Seq<u8>, version: i16) -> ReadOutcome<DescribeConfigsSynonymView> {
        match (Self::spec_read_name(s, version)) {
            Err(e) => Err(e),
            Ok((name, s)) => match (Self::spec_read_value(s, version)) {
                Err(e) => Err(e),
                Ok((value, s)) => match (Self::spec_read_source(s, version)) {
                    Err(e) => Err(e),
                    Ok((source, s)) => match (Self::spec_read_tags(s, version)) {
                        Err(e) => Err(e),
                        Ok((unknown_tagged_fields, s)) => Ok((DescribeConfigsSynonymView {
                                    name: name,
                                    value: value,
                                    source: source,
                                    unknown_tagged_fields: unknown_tagged_fields,
                                }, s)),
                    },
                },
            },
        }
    }

    /// What writing the `name` field of `m` appends.
    #[verifier::opaque]
    pub open spec fn spec_write_name(m: DescribeConfigsSynonymView, version: i16) -> WriteOutcome {
        if version >= 4 {
            spec_write_compact_string(m.name)
        } else {
            spec_write_string(m.name)
        }
    }

    /// What writing the `value` field of `m` appends.
    #[verifier::opaque]
    pub open spec fn spec_write_value(m: DescribeConfigsSynonymView, version: i16) -> WriteOutcome {
        if version >= 4 {
            spec_write_compact_nullable_string(m.value)
        } else {
            spec_write_nullable_string(m.value)
        }
    }

    /// What writing the `source` field of `m` appends.
    #[verifier::opaque]
    pub open spec fn spec_write_source(m: DescribeConfigsSynonymView, version: i16) -> WriteOutcome {
        spec_write_i8(m.source)
    }

    /// What writing the tagged fields of `m` appends.
    #[verifier::opaque]
    pub open spec fn spec_write_tags(m: DescribeConfigsSynonymView, version: i16) -> WriteOutcome {
        if version >= 4 {
            spec_write_tagged_fields(sorted_by_tag(m.unknown_tagged_fields))
        } else {
            emit(Seq::empty())
        }
    }

    pub open spec fn spec_write(m: DescribeConfigsSynonymView, version: i16) -> WriteOutcome {
        chain(
            chain(
                chain(
                    Self::spec_write_name(m, version),
                    Self::spec_write_value(m, version),
                ),
                Self::spec_write_source(m, version),
            ),
            Self::spec_write_tags(m, version),
        )
    }

    /// Whether reading back what writing `m` in `version` appends gives `m`:
    /// fields that the version does not carry hold their default values, and
    /// tagged fields come in the order in which they are written.
    pub open spec fn canonical(m: DescribeConfigsSynonymView, version: i16) -> bool {
        &&& (if version >= 4 {
                tags_in_order(m.unknown_tagged_fields)
            } else {
                m.unknown_tagged_fields.len() == 0
        })
    }

    proof fn lemma_round_trip_name(m: DescribeConfigsSynonymView, version: i16, rest: Seq<u8>)
        requires
            Self::canonical(m, version),
            Self::spec_write_name(m, version) is Ok,
        ensures
            Self::spec_read_name(written(Self::spec_write_name(m, version)) + rest, version) == Ok::<(Seq<u8>, Seq<u8>), Error>((m.name, rest)),
    {
        reveal(DescribeConfigsSynonym::spec_read_name);
        reveal(DescribeConfigsSynonym::spec_write_name);
        if version >= 4 {
            lemma_compact_string_round_trip(m.name, rest);
        } else {
            lemma_string_round_trip(m.name, rest);
        }
    }

    proof fn lemma_round_trip_value(m: DescribeConfigsSynonymView, version: i16, rest: Seq<u8>)
        requires
            Self::canonical(m, version),
            Self::spec_write_value(m, version) is Ok,
        ensures
            Self::spec_read_value(written(Self::spec_write_value(m, version)) + rest, version) == Ok::<(Option<Seq<u8>>, Seq<u8>), Error>((m.value, rest)),
    {
        reveal(DescribeConfigsSynonym::spec_read_value);
        reveal(DescribeConfigsSynonym::spec_write_value);
        if version >= 4 {
            lemma_compact_nullable_string_round_trip(m.value, rest);
        } else {
            lemma_nullable_string_round_trip(m.value, rest);
        }
    }

    proof fn lemma_round_trip_source(m: DescribeConfigsSynonymView, version: i16, rest: Seq<u8>)
        requires
            Self::canonical(m, version),
            Self::spec_write_source(m, version) is Ok,
        ensures
            Self::spec_read_source(written(Self::spec_write_source(m, version)) + rest, version) == Ok::<(i8, Seq<u8>), Error>((m.source, rest)),
    {
        reveal(DescribeConfigsSynonym::spec_read_source);
        reveal(DescribeConfigsSynonym::spec_write_source);
        lemma_i8_roundtrip(m.source, rest);
    }

    proof fn lemma_round_trip_tags(m: DescribeConfigsSynonymView, version: i16, rest: Seq<u8>)
        requires
            Self::canonical(m, version),
            Self::spec_write_tags(m, version) is Ok,
        ensures
            Self::spec_read_tags(written(Self::spec_write_tags(m, version)) + rest, version) == Ok::<(Seq<(u32, Seq<u8>)>, Seq<u8>), Error>((m.unknown_tagged_fields, rest)),
    {
        reveal(DescribeConfigsSynonym::spec_read_tags);
        reveal(DescribeConfigsSynonym::spec_write_tags);
        if version >= 4 {
            lemma_sorted_by_tag_in_order(m.unknown_tagged_fields);
            lemma_tagged_fields_round_trip(m.unknown_tagged_fields, rest);
        } else {
            assert(Seq::<u8>::empty() + rest =~= rest);
            assert(m.unknown_tagged_fields =~= Seq::empty());
        }
    }

    /// Reading back what writing `m` in `version` appends gives `m` again, and
    /// leaves what follows, for every canonical message whose write succeeds.
    #[verifier::rlimit(80)]
    #[verifier::spinoff_prover]
    pub proof fn lemma_round_trip(m: DescribeConfigsSynonymView, version: i16, rest: Seq<u8>)
        requires
            Self::canonical(m, version),
            Self::spec_write(m, version) is Ok,
        ensures
            Self::spec_read(written(Self::spec_write(m, version)) + rest, version) == Ok::<(DescribeConfigsSynonymView, Seq<u8>), Error>((m, rest)),
    {
        let b0 = written(Self::spec_write_name(m, version));
        let b1 = written(Self::spec_write_value(m, version));
        let b2 = written(Self::spec_write_source(m, version));
        let b3 = written(Self::spec_write_tags(m, version));
        let t4 = rest;
        let t3 = b3 + t4;
        let t2 = b2 + t3;
        let t1 = b1 + t2;
        let t0 = b0 + t1;
        let w0 = Self::spec_write_name(m, version);
        let w1 = chain(w0, Self::spec_write_value(m, version));
        let w2 = chain(w1, Self::spec_write_source(m, version));
        let w3 = chain(w2, Self::spec_write_tags(m, version));
        assert(Self::spec_write(m, version) == w3);
        assert(written(w3) + t4 =~= written(w2) + t3);
        assert(written(w2) + t3 =~= written(w1) + t2);
        assert(written(w1) + t2 =~= written(w0) + t1);
        Self::lemma_round_trip_name(m, version, t1);
        Self::lemma_round_trip_value(m, version, t2);
        Self::lemma_round_trip_source(m, version, t3);
        Self::lemma_round_trip_tags(m, version, t4);
    }

    /// In a version that does not carry `unknown_tagged_fields`, writing ignores its value.
    pub proof fn lemma_write_ignores_unknown_tagged_fields(m: DescribeConfigsSynonymView, value: Seq<(u32, Seq<u8>)>, version: i16)
        requires
            !(version >= 4),
        ensures
            Self::spec_write((DescribeConfigsSynonymView { unknown_tagged_fields: value, ..m }), version) == Self::spec_write(m, version),
    {
        reveal(DescribeConfigsSynonym::spec_write_name);
        reveal(DescribeConfigsSynonym::spec_write_value);
        reveal(DescribeConfigsSynonym::spec_write_source);
        reveal(DescribeConfigsSynonym::spec_write_tags);
    }

    /// The default message holds the default value of each field of the schema.
    pub proof fn lemma_default_values()
        ensures
            Self::default_view().name.len() == 0,
            (Self::default_view().value is None),
            Self::default_view().source == (0_i8),
            Self::default_view().unknown_tagged_fields.len() == 0,
    {
    }

    /// Each integer, boolean and identifier field is written as its standard
    /// big-endian bytes (a boolean as `1` or `0`) in the versions that carry
    /// it, and as nothing in the others; reading it takes those bytes back (any
    /// byte other than `0` reads as `true`), or gives its default value.
    pub proof fn lemma_field_encodings(m: DescribeConfigsSynonymView, s: Seq<u8>, version: i16)
        ensures
            true ==> Self::spec_write_source(m, version) == Ok::<Seq<u8>, (Error, Seq<u8>)>(seq![m.source as u8]),
            true ==> Self::spec_read_source(s, version) == (if s.len() < 1 { Err(Error::UnexpectedEof) } else { Ok((s[0] as i8, s.drop_first())) }),
    {
        reveal(DescribeConfigsSynonym::spec_write_source);
        reveal(DescribeConfigsSynonym::spec_read_source);
    }

    /// Whether writing `m` in `version` succeeds, said over its parts: the
    /// version is one the schema covers, every field that the version cannot
    /// carry holds its default value, and every string, byte string, array and
    /// tagged field fits its length prefix.
    pub open spec fn writable(m: DescribeConfigsSynonymView, version: i16) -> bool {
        &&& m.name.len() <= 0x7fff
        &&& (m.value matches Some(b) ==> b.len() <= 0x7fff)
        &&& (if version >= 4 {
                m.unknown_tagged_fields.len() <= u32::MAX && tags_fit(m.unknown_tagged_fields)
            } else {
                true
        })
    }

    proof fn lemma_writable_name(m: DescribeConfigsSynonymView, version: i16)
        ensures
            Self::spec_write_name(m, version) is Ok <==> m.name.len() <= 0x7fff,
    {
        reveal(DescribeConfigsSynonym::spec_write_name);
    }

    proof fn lemma_writable_value(m: DescribeConfigsSynonymView, version: i16)
        ensures
            Self::spec_write_value(m, version) is Ok <==> (m.value matches Some(b) ==> b.len() <= 0x7fff),
    {
        reveal(DescribeConfigsSynonym::spec_write_value);
    }

    proof fn lemma_writable_source(m: DescribeConfigsSynonymView, version: i16)
        ensures
            Self::spec_write_source(m, version) is Ok <==> true,
    {
        reveal(DescribeConfigsSynonym::spec_write_source);
    }

    proof fn lemma_writable_tags(m: DescribeConfigsSynonymView, version: i16)
        ensures
            Self::spec_write_tags(m, version) is Ok <==> (if version >= 4 { m.unknown_tagged_fields.len() <= u32::MAX && tags_fit(m.unknown_tagged_fields) } else { true }),
    {
        reveal(DescribeConfigsSynonym::spec_write_tags);
        if version >= 4 {
            lemma_sorted_tags_fit(m.unknown_tagged_fields);
            lemma_tagged_fields_writable(sorted_by_tag(m.unknown_tagged_fields));
        }
    }

    /// Writing `m` in `version` succeeds exactly when `m` is writable in it;
    /// so do `write` and `encoded_len`, whose results follow `spec_write`.
    #[verifier::rlimit(54)]
    pub proof fn lemma_writable(m: DescribeConfigsSynonymView, version: i16)
        ensures
            Self::spec_write(m, version) is Ok <==> Self::writable(m, version),
    {
        Self::lemma_writable_name(m, version);
        Self::lemma_writable_value(m, version);
        Self::lemma_writable_source(m, version);
        Self::lemma_writable_tags(m, version);
    }

    pub fn with_name(self, value: KafkaString) -> (r: Self)
        ensures
            r@ == (DescribeConfigsSynonymView { name: value@, ..self@ }),
    {
        let mut r = self;
        r.name = value;
        r
    }

    pub fn with_value(self, value: Option<KafkaString>) -> (r: Self)
        ensures
            r@ == (DescribeConfigsSynonymView { value: opt_view(value), ..self@ }),
    {
        let mut r = self;
        r.value = value;
        r
    }

    pub fn with_source(self, value: i8) -> (r: Self)
        ensures
            r@ == (DescribeConfigsSynonymView { source: value, ..self@ }),
    {
        let mut r = self;
        r.source = value;
        r
    }

    fn read_name(buf: &mut Bytes, version: i16) -> (r: Result<KafkaString, Error>)
        ensures
            read_as(Self::spec_read_name(bytes_seq(*old(buf)), version), *final(buf), r),
            took_front(*old(buf), *final(buf)),
    {
        proof {
            reveal(DescribeConfigsSynonym::spec_read_name);
        }
        Ok(if version >= 4 {
                read_compact_string(buf)?
            } else {
                read_string(buf)?
        })
    }

    fn read_value(buf: &mut Bytes, version: i16) -> (r: Result<Option<KafkaString>, Error>)
        ensures
            read_opt_as(Self::spec_read_value(bytes_seq(*old(buf)), version), *final(buf), r),
            took_front(*old(buf), *final(buf)),
    {
        proof {
            reveal(DescribeConfigsSynonym::spec_read_value);
        }
        Ok(if version >= 4 {
                read_compact_nullable_string(buf)?
            } else {
                read_nullable_string(buf)?
        })
    }

    fn read_source(buf: &mut Bytes, version: i16) -> (r: Result<i8, Error>)
        ensures
            read_as(Self::spec_read_source(bytes_seq(*old(buf)), version), *final(buf), r),
            took_front(*old(buf), *final(buf)),
    {
        proof {
            reveal(DescribeConfigsSynonym::spec_read_source);
        }
        Ok(read_i8(buf)?)
    }

    fn read_tags(buf: &mut Bytes, version: i16) -> (r: Result<Vec<RawTaggedField>, Error>)
        ensures
            read_vec_as(Self::spec_read_tags(bytes_seq(*old(buf)), version), *final(buf), r),
            took_front(*old(buf), *final(buf)),
    {
        proof {
            reveal(DescribeConfigsSynonym::spec_read_tags);
        }
        Ok(if version >= 4 {
                read_tagged_fields(buf)?
            } else {
                empty_vec()
        })
    }

    pub fn read(buf: &mut Bytes, version: i16) -> (r: Result<Self, Error>)
        ensures
            read_as(Self::spec_read(bytes_seq(*old(buf)), version), *final(buf), r),
            took_front(*old(buf), *final(buf)),
    {
        let name = Self::read_name(buf, version)?;
        let value = Self::read_value(buf, version)?;
        let source = Self::read_source(buf, version)?;
        let _unknown_tagged_fields = Self::read_tags(buf, version)?;
        Ok(DescribeConfigsSynonym {
                name: name,
                value: value,
                source: source,
                _unknown_tagged_fields: _unknown_tagged_fields,
        })
    }

    #[verifier::rlimit(70)]
    pub fn write(&self, buf: &mut BytesMut, version: i16) -> (r: Result<(), Error>)
        requires
            has_room(Self::spec_write(self@, version), *old(buf)),
        ensures
            wrote(Self::spec_write(self@, version), *old(buf), *final(buf), r),
    {
        let ghost m = self@;
        proof {
            reveal(DescribeConfigsSynonym::spec_write_name);
            reveal(DescribeConfigsSynonym::spec_write_value);
            reveal(DescribeConfigsSynonym::spec_write_source);
            reveal(DescribeConfigsSynonym::spec_write_tags);
        }
        let ghost s0 = Self::spec_write_name(m, version);
        let ghost w0 = s0;
        let ghost s1 = Self::spec_write_value(m, version);
        let ghost w1 = chain(w0, s1);
        let ghost s2 = Self::spec_write_source(m, version);
        let ghost w2 = chain(w1, s2);
        let ghost s3 = Self::spec_write_tags(m, version);
        let ghost w3 = chain(w2, s3);
        assert(Self::spec_write(m, version) == w3);
        assert(written(w2).len() <= written(w3).len() && (w2 is Err ==> w3 == w2));
        assert(written(w1).len() <= written(w3).len() && (w1 is Err ==> w3 == w1));
        assert(written(w0).len() <= written(w3).len() && (w0 is Err ==> w3 == w0));
        let ghost mid = bytes_mut_seq(*buf);
        proof {
            lemma_append_empty(mid);
        }
        let r0 = if version >= 4 {
            write_compact_string(buf, &self.name)
        } else {
            write_string(buf, &self.name)
        };
        assert(bytes_mut_seq(*buf) == mid + written(s0));
        if r0.is_err() {
            return r0;
        }
        let ghost mid = bytes_mut_seq(*buf);
        proof {
            lemma_append_empty(mid);
        }
        let r1 = if version >= 4 {
            write_compact_nullable_string(buf, &self.value)
        } else {
            write_nullable_string(buf, &self.value)
        };
        assert(bytes_mut_seq(*buf) == mid + written(s1));
        proof {
            lemma_step(bytes_mut_seq(*old(buf)), w0, s1);
        }
        if r1.is_err() {
            return r1;
        }
        let ghost mid = bytes_mut_seq(*buf);
        proof {
            lemma_append_empty(mid);
        }
        let r2 = {
            write_i8(buf, self.source);
            Ok(())
        };
        assert(bytes_mut_seq(*buf) == mid + written(s2));
        proof {
            lemma_step(bytes_mut_seq(*old(buf)), w1, s2);
        }
        if r2.is_err() {
            return r2;
        }
        let ghost mid = bytes_mut_seq(*buf);
        proof {
            lemma_append_empty(mid);
        }
        let r3 = if version >= 4 {
            write_tagged_fields(buf, &sort_by_tag(&self._unknown_tagged_fields))
        } else {
            Ok(())
        };
        assert(bytes_mut_seq(*buf) == mid + written(s3));
        proof {
            lemma_step(bytes_mut_seq(*old(buf)), w2, s3);
        }
        if r3.is_err() {
            return r3;
        }
        Ok(())
    }

    #[verifier::rlimit(70)]
    pub fn encoded_len(&self, version: i16) -> (r: Result<usize, Error>)
        ensures
            r == len_result(Self::spec_write(self@, version)),
    {
        let ghost m = self@;
        proof {
            reveal(DescribeConfigsSynonym::spec_write_name);
            reveal(DescribeConfigsSynonym::spec_write_value);
            reveal(DescribeConfigsSynonym::spec_write_source);
            reveal(DescribeConfigsSynonym::spec_write_tags);
        }
        let ghost s0 = Self::spec_write_name(m, version);
        let ghost w0 = s0;
        let ghost s1 = Self::spec_write_value(m, version);
        let ghost w1 = chain(w0, s1);
        let ghost s2 = Self::spec_write_source(m, version);
        let ghost w2 = chain(w1, s2);
        let ghost s3 = Self::spec_write_tags(m, version);
        let ghost w3 = chain(w2, s3);
        assert(Self::spec_write(m, version) == w3);
        assert(w2 is Err ==> w3 == w2);
        assert(w1 is Err ==> w3 == w1);
        assert(w0 is Err ==> w3 == w0);
        let mut len: usize = 0;
        let l0 = if version >= 4 {
            compact_string_len(&self.name)
        } else {
            string_len(&self.name)
        };
        assert(l0 == len_result(s0));
        let n0 = match l0 {
            Ok(n) => n,
            Err(e) => {
                return Err(e);
            },
        };
        len = saturating_sum(len, n0);
        assert(w0 is Ok && len == saturate(written(w0).len() as int));
        let l1 = if version >= 4 {
            compact_nullable_string_len(&self.value)
        } else {
            nullable_string_len(&self.value)
        };
        assert(l1 == len_result(s1));
        let n1 = match l1 {
            Ok(n) => n,
            Err(e) => {
                return Err(e);
            },
        };
        proof {
            lemma_len_step(w0, s1, n1);
        }
        len = saturating_sum(len, n1);
        assert(w1 is Ok && len == saturate(written(w1).len() as int));
        let l2 = Ok(1);
        assert(l2 == len_result(s2));
        let n2 = match l2 {
            Ok(n) => n,
            Err(e) => {
                return Err(e);
            },
        };
        proof {
            lemma_len_step(w1, s2, n2);
        }
        len = saturating_sum(len, n2);
        assert(w2 is Ok && len == saturate(written(w2).len() as int));
        let l3 = if version >= 4 {
            tagged_fields_len(&sort_by_tag(&self._unknown_tagged_fields))
        } else {
            Ok(0)
        };
        assert(l3 == len_result(s3));
        let n3 = match l3 {
            Ok(n) => n,
            Err(e) => {
                return Err(e);
            },
        };
        proof {
            lemma_len_step(w2, s3, n3);
        }
        len = saturating_sum(len, n3);
        assert(w3 is Ok && len == saturate(written(w3).len() as int));
        Ok(len)
    }
}

impl Codec for DescribeConfigsResult {
    type Item = DescribeConfigsResult;

    open spec fn spec_read_item(s: Seq<u8>, version: i16) -> ReadOutcome<DescribeConfigsResultView> {
        DescribeConfigsResult::spec_read(s, version)
    }

    open spec fn spec_write_item(v: DescribeConfigsResultView, version: i16) -> WriteOutcome {
        DescribeConfigsResult::spec_write(v, version)
    }

    open spec fn canonical_item(v: DescribeConfigsResultView, version: i16) -> bool {
        DescribeConfigsResult::canonical(v, version)
    }

    proof fn lemma_item_round_trip(v: DescribeConfigsResultView, version: i16, rest: Seq<u8>) {
        DescribeConfigsResult::lemma_round_trip(v, version, rest);
    }

    open spec fn writable_item(v: DescribeConfigsResultView, version: i16) -> bool {
        DescribeConfigsResult::writable(v, version)
    }

    proof fn lemma_item_writable(v: DescribeConfigsResultView, version: i16) {
        DescribeConfigsResult::lemma_writable(v, version);
    }

    fn read_item(buf: &mut Bytes, version: i16) -> (r: Result<DescribeConfigsResult, Error>) {
        DescribeConfigsResult::read(buf, version)
    }

    fn write_item(item: &DescribeConfigsResult, buf: &mut BytesMut, version: i16) -> (r: Result<(), Error>) {
        item.write(buf, version)
    }
}

impl MeasuredCodec for DescribeConfigsResult {
    fn item_len(item: &DescribeConfigsResult, version: i16) -> (r: Result<usize, Error>) {
        item.encoded_len(version)
    }
}

impl Codec for DescribeConfigsResourceResult {
    type Item = DescribeConfigsResourceResult;

    open spec fn spec_read_item(s: Seq<u8>, version: i16) -> ReadOutcome<DescribeConfigsResourceResultView> {
        DescribeConfigsResourceResult::spec_read(s, version)
    }

    open spec fn spec_write_item(v: DescribeConfigsResourceResultView, version: i16) -> WriteOutcome {
        DescribeConfigsResourceResult::spec_write(v, version)
    }

    open spec fn canonical_item(v: DescribeConfigsResourceResultView, version: i16) -> bool {
        DescribeConfigsResourceResult::canonical(v, version)
    }

    proof fn lemma_item_round_trip(v: DescribeConfigsResourceResultView, version: i16, rest: Seq<u8>) {
        DescribeConfigsResourceResult::lemma_round_trip(v, version, rest);
    }

    open spec fn writable_item(v: DescribeConfigsResourceResultView, version: i16) -> bool {
        DescribeConfigsResourceResult::writable(v, version)
    }

    proof fn lemma_item_writable(v: DescribeConfigsResourceResultView, version: i16) {
        DescribeConfigsResourceResult::lemma_writable(v, version);
    }

    fn read_item(buf: &mut Bytes, version: i16) -> (r: Result<DescribeConfigsResourceResult, Error>) {
        DescribeConfigsResourceResult::read(buf, version)
    }

    fn write_item(item: &DescribeConfigsResourceResult, buf: &mut BytesMut, version: i16) -> (r: Result<(), Error>) {
        item.write(buf, version)
    }
}

impl MeasuredCodec for DescribeConfigsResourceResult {
    fn item_len(item: &DescribeConfigsResourceResult, version: i16) -> (r: Result<usize, Error>) {
        item.encoded_len(version)
    }
}

impl Codec for DescribeConfigsSynonym {
    type Item = DescribeConfigsSynonym;

    open spec fn spec_read_item(s: Seq<u8>, version: i16) -> ReadOutcome<DescribeConfigsSynonymView> {
        DescribeConfigsSynonym::spec_read(s, version)
    }

    open spec fn spec_write_item(v: DescribeConfigsSynonymView, version: i16) -> WriteOutcome {
        DescribeConfigsSynonym::spec_write(v, version)
    }

    open spec fn canonical_item(v: DescribeConfigsSynonymView, version: i16) -> bool {
        DescribeConfigsSynonym::canonical(v, version)
    }

    proof fn lemma_item_round_trip(v: DescribeConfigsSynonymView, version: i16, rest: Seq<u8>) {
        DescribeConfigsSynonym::lemma_round_trip(v, version, rest);
    }

    open spec fn writable_item(v: DescribeConfigsSynonymView, version: i16) -> bool {
        DescribeConfigsSynonym::writable(v, version)
    }

    proof fn lemma_item_writable(v: DescribeConfigsSynonymView, version: i16) {
        DescribeConfigsSynonym::lemma_writable(v, version);
    }

    fn read_item(buf: &mut Bytes, version: i16) -> (r: Result<DescribeConfigsSynonym, Error>) {
        DescribeConfigsSynonym::read(buf, version)
    }

    fn write_item(item: &DescribeConfigsSynonym, buf: &mut BytesMut, version: i16) -> (r: Result<(), Error>) {
        item.write(buf, version)
    }
}

impl MeasuredCodec for DescribeConfigsSynonym {
    fn item_len(item: &DescribeConfigsSynonym, version: i16) -> (r: Result<usize, Error>) {
        item.encoded_len(version)
    }
}

} // verus!
