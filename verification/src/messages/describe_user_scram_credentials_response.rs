//! The describe user scram credentials response message.
use crate::buffer::{bytes_mut_seq, bytes_seq};
use crate::codec::{Codec, MeasuredCodec, all_canonical, all_writable, array_len, lemma_array_round_trip, lemma_array_writable, read_array, saturating_sum, spec_read_array, spec_write_array, write_array};
use crate::error::{Error, UnsupportedVersion};
use crate::ints::{lemma_i16_roundtrip, lemma_i32_roundtrip, lemma_i8_roundtrip, read_i16, read_i32, read_i8, spec_read_i16, spec_read_i32, spec_read_i8, spec_write_i16, spec_write_i32, spec_write_i8, u16_bytes, u32_bytes, write_i16, write_i32, write_i8};
use crate::strings::{compact_nullable_string_len, compact_string_len, lemma_compact_nullable_string_round_trip, lemma_compact_string_round_trip, read_compact_nullable_string, read_compact_string, spec_read_compact_nullable_string, spec_read_compact_string, spec_write_compact_nullable_string, spec_write_compact_string, write_compact_nullable_string, write_compact_string};
use crate::tagged::{lemma_sorted_by_tag_in_order, lemma_sorted_tags_fit, lemma_tagged_fields_round_trip, lemma_tagged_fields_writable, read_tagged_fields, sort_by_tag, sorted_by_tag, spec_read_tagged_fields, spec_write_tagged_fields, tagged_fields_len, tags_fit, tags_in_order, write_tagged_fields};
use crate::types::{KafkaString, RawTaggedField};
use crate::wire::{ReadOutcome, ViewClone, WriteOutcome, chain, clone_vec, empty_vec, fail, has_room, lemma_append_empty, lemma_chain_written, lemma_len_step, lemma_step, len_result, opt_view, read_as, read_opt_as, read_vec_as, saturate, took_front, views, written, wrote};
use bytes::{Bytes, BytesMut};
use vstd::prelude::*;

verus! {

broadcast use {crate::wire::lemma_chain_written, crate::wire::lemma_took_front_nothing, crate::wire::lemma_took_front_twice};

#[derive(Debug, PartialEq)]
pub struct DescribeUserScramCredentialsResponseData {
    /// The duration in milliseconds for which the request was throttled due to a quota violation,
    /// or zero if the request did not violate any quota.
    pub throttle_time_ms: i32,
    /// The message-level error code, 0 except for user authorization or infrastructure issues.
    pub error_code: i16,
    /// The message-level error message, if any.
    pub error_message: Option<KafkaString>,
    /// The results for descriptions, one per user.
    pub results: Vec<DescribeUserScramCredentialsResult>,
    pub _unknown_tagged_fields: Vec<RawTaggedField>,
}

/// What a `DescribeUserScramCredentialsResponseData` holds, as the specification sees it.
#[verifier::ext_equal]
pub struct DescribeUserScramCredentialsResponseDataView {
    pub throttle_time_ms: i32,
    pub error_code: i16,
    pub error_message: Option<Seq<u8>>,
    pub results: Seq<DescribeUserScramCredentialsResultView>,
    pub unknown_tagged_fields: Seq<(u32, Seq<u8>)>,
}

impl View for DescribeUserScramCredentialsResponseData {
    type V = DescribeUserScramCredentialsResponseDataView;

    open spec fn view(&self) -> DescribeUserScramCredentialsResponseDataView {
        DescribeUserScramCredentialsResponseDataView {
            throttle_time_ms: self.throttle_time_ms,
            error_code: self.error_code,
            error_message: opt_view(self.error_message),
            results: views(self.results@),
            unknown_tagged_fields: views(self._unknown_tagged_fields@),
        }
    }
}

impl Clone for DescribeUserScramCredentialsResponseData {
    fn clone(&self) -> (r: Self)
        ensures
            r@ == self@,
    {
        let r = DescribeUserScramCredentialsResponseData {
            throttle_time_ms: self.throttle_time_ms,
            error_code: self.error_code,
            error_message: match &self.error_message {
                Some(x) => Some(x.clone()),
                None => None,
            },
            results: clone_vec(&self.results),
            _unknown_tagged_fields: clone_vec(&self._unknown_tagged_fields),
        };
        assert(r@ =~= self@);
        r
    }
}

impl ViewClone for DescribeUserScramCredentialsResponseData {
    fn clone_view(&self) -> (r: Self) {
        self.clone()
    }
}

impl Default for DescribeUserScramCredentialsResponseData {
    fn default() -> (r: Self)
        ensures
            r@ == Self::default_view(),
    {
        let r = DescribeUserScramCredentialsResponseData {
            throttle_time_ms: 0_i32,
            error_code: 0_i16,
            error_message: None,
            results: empty_vec(),
            _unknown_tagged_fields: empty_vec(),
        };
        assert(r@ =~= Self::default_view());
        r
    }
}

impl DescribeUserScramCredentialsResponseData {
    pub open spec fn default_view() -> DescribeUserScramCredentialsResponseDataView {
        DescribeUserScramCredentialsResponseDataView {
            throttle_time_ms: 0_i32,
            error_code: 0_i16,
            error_message: None,
            results: Seq::empty(),
            unknown_tagged_fields: Seq::empty(),
        }
    }

    /// The `throttle_time_ms` field, read from the front of `s`.
    #[verifier::opaque]
    pub open spec fn spec_read_throttle_time_ms(s: Seq<u8>, version: i16) -> ReadOutcome<i32> {
        spec_read_i32(s)
    }

    /// The `error_code` field, read from the front of `s`.
    #[verifier::opaque]
    pub open spec fn spec_read_error_code(s: Seq<u8>, version: i16) -> ReadOutcome<i16> {
        spec_read_i16(s)
    }

    /// The `error_message` field, read from the front of `s`.
    #[verifier::opaque]
    pub open spec fn spec_read_error_message(s: Seq<u8>, version: i16) -> ReadOutcome<Option<Seq<u8>>> {
        spec_read_compact_nullable_string(s)
    }

    /// The `results` field, read from the front of `s`.
    #[verifier::opaque]
    pub open spec fn spec_read_results(s: Seq<u8>, version: i16) -> ReadOutcome<Seq<DescribeUserScramCredentialsResultView>> {
        spec_read_array::<DescribeUserScramCredentialsResult>(s, version, true)
    }

    /// The tagged fields, read from the front of `s`.
    #[verifier::opaque]
    pub open spec fn spec_read_tags(s: Seq<u8>, version: i16) -> ReadOutcome<Seq<(u32, Seq<u8>)>> {
        spec_read_tagged_fields(s)
    }

    pub open spec fn spec_read(s: Seq<u8>, version: i16) -> ReadOutcome<DescribeUserScramCredentialsResponseDataView> {
        if version < 0 || version > 0 {
            Err(Error::UnsupportedVersion(UnsupportedVersion { api_key: 50, version }))
        } else {
            match (Self::spec_read_throttle_time_ms(s, version)) {
                Err(e) => Err(e),
                Ok((throttle_time_ms, s)) => match (Self::spec_read_error_code(s, version)) {
                    Err(e) => Err(e),
                    Ok((error_code, s)) => match (Self::spec_read_error_message(s, version)) {
                        Err(e) => Err(e),
                        Ok((error_message, s)) => match (Self::spec_read_results(s, version)) {
                            Err(e) => Err(e),
                            Ok((results, s)) => match (Self::spec_read_tags(s, version)) {
                                Err(e) => Err(e),
                                Ok((unknown_tagged_fields, s)) => Ok((DescribeUserScramCredentialsResponseDataView {
                                            throttle_time_ms: throttle_time_ms,
                                            error_code: error_code,
                                            error_message: error_message,
                                            results: results,
                                            unknown_tagged_fields: unknown_tagged_fields,
                                        }, s)),
                            },
                        },
                    },
                },
            }
        }
    }

    /// What writing the `throttle_time_ms` field of `m` appends.
    #[verifier::opaque]
    pub open spec fn spec_write_throttle_time_ms(m: DescribeUserScramCredentialsResponseDataView, version: i16) -> WriteOutcome {
        spec_write_i32(m.throttle_time_ms)
    }

    /// What writing the `error_code` field of `m` appends.
    #[verifier::opaque]
    pub open spec fn spec_write_error_code(m: DescribeUserScramCredentialsResponseDataView, version: i16) -> WriteOutcome {
        spec_write_i16(m.error_code)
    }

    /// What writing the `error_message` field of `m` appends.
    #[verifier::opaque]
    pub open spec fn spec_write_error_message(m: DescribeUserScramCredentialsResponseDataView, version: i16) -> WriteOutcome {
        spec_write_compact_nullable_string(m.error_message)
    }

    /// What writing the `results` field of `m` appends.
    #[verifier::opaque]
    pub open spec fn spec_write_results(m: DescribeUserScramCredentialsResponseDataView, version: i16) -> WriteOutcome {
        spec_write_array::<DescribeUserScramCredentialsResult>(m.results, version, true)
    }

    /// What writing the tagged fields of `m` appends.
    #[verifier::opaque]
    pub open spec fn spec_write_tags(m: DescribeUserScramCredentialsResponseDataView, version: i16) -> WriteOutcome {
        spec_write_tagged_fields(sorted_by_tag(m.unknown_tagged_fields))
    }

    pub open spec fn spec_write(m: DescribeUserScramCredentialsResponseDataView, version: i16) -> WriteOutcome {
        if version < 0 || version > 0 {
            fail(Error::UnsupportedVersion(UnsupportedVersion { api_key: 50, version }))
        } else {
            chain(
                chain(
                    chain(
                        chain(
                            Self::spec_write_throttle_time_ms(m, version),
                            Self::spec_write_error_code(m, version),
                        ),
                        Self::spec_write_error_message(m, version),
                    ),
                    Self::spec_write_results(m, version),
                ),
                Self::spec_write_tags(m, version),
            )
        }
    }

    /// Whether reading back what writing `m` in `version` appends gives `m`:
    /// fields that the version does not carry hold their default values, and
    /// tagged fields come in the order in which they are written.
    pub open spec fn canonical(m: DescribeUserScramCredentialsResponseDataView, version: i16) -> bool {
        &&& all_canonical::<DescribeUserScramCredentialsResult>(m.results, version)
        &&& tags_in_order(m.unknown_tagged_fields)
    }

    proof fn lemma_round_trip_throttle_time_ms(m: DescribeUserScramCredentialsResponseDataView, version: i16, rest: Seq<u8>)
        requires
            Self::canonical(m, version),
            Self::spec_write_throttle_time_ms(m, version) is Ok,
        ensures
            Self::spec_read_throttle_time_ms(written(Self::spec_write_throttle_time_ms(m, version)) + rest, version) == Ok::<(i32, Seq<u8>), Error>((m.throttle_time_ms, rest)),
    {
        reveal(DescribeUserScramCredentialsResponseData::spec_read_throttle_time_ms);
        reveal(DescribeUserScramCredentialsResponseData::spec_write_throttle_time_ms);
        lemma_i32_roundtrip(m.throttle_time_ms, rest);
    }

    proof fn lemma_round_trip_error_code(m: DescribeUserScramCredentialsResponseDataView, version: i16, rest: Seq<u8>)
        requires
            Self::canonical(m, version),
            Self::spec_write_error_code(m, version) is Ok,
        ensures
            Self::spec_read_error_code(written(Self::spec_write_error_code(m, version)) + rest, version) == Ok::<(i16, Seq<u8>), Error>((m.error_code, rest)),
    {
        reveal(DescribeUserScramCredentialsResponseData::spec_read_error_code);
        reveal(DescribeUserScramCredentialsResponseData::spec_write_error_code);
        lemma_i16_roundtrip(m.error_code, rest);
    }

    proof fn lemma_round_trip_error_message(m: DescribeUserScramCredentialsResponseDataView, version: i16, rest: Seq<u8>)
        requires
            Self::canonical(m, version),
            Self::spec_write_error_message(m, version) is Ok,
        ensures
            Self::spec_read_error_message(written(Self::spec_write_error_message(m, version)) + rest, version) == Ok::<(Option<Seq<u8>>, Seq<u8>), Error>((m.error_message, rest)),
    {
        reveal(DescribeUserScramCredentialsResponseData::spec_read_error_message);
        reveal(DescribeUserScramCredentialsResponseData::spec_write_error_message);
        lemma_compact_nullable_string_round_trip(m.error_message, rest);
    }

    proof fn lemma_round_trip_results(m: DescribeUserScramCredentialsResponseDataView, version: i16, rest: Seq<u8>)
        requires
            Self::canonical(m, version),
            Self::spec_write_results(m, version) is Ok,
        ensures
            Self::spec_read_results(written(Self::spec_write_results(m, version)) + rest, version) == Ok::<(Seq<DescribeUserScramCredentialsResultView>, Seq<u8>), Error>((m.results, rest)),
    {
        reveal(DescribeUserScramCredentialsResponseData::spec_read_results);
        reveal(DescribeUserScramCredentialsResponseData::spec_write_results);
        lemma_array_round_trip::<DescribeUserScramCredentialsResult>(m.results, version, true, rest);
    }

    proof fn lemma_round_trip_tags(m: DescribeUserScramCredentialsResponseDataView, version: i16, rest: Seq<u8>)
        requires
            Self::canonical(m, version),
            Self::spec_write_tags(m, version) is Ok,
        ensures
            Self::spec_read_tags(written(Self::spec_write_tags(m, version)) + rest, version) == Ok::<(Seq<(u32, Seq<u8>)>, Seq<u8>), Error>((m.unknown_tagged_fields, rest)),
    {
        reveal(DescribeUserScramCredentialsResponseData::spec_read_tags);
        reveal(DescribeUserScramCredentialsResponseData::spec_write_tags);
        lemma_sorted_by_tag_in_order(m.unknown_tagged_fields);
        lemma_tagged_fields_round_trip(m.unknown_tagged_fields, rest);
    }

    /// Reading back what writing `m` in `version` appends gives `m` again, and
    /// leaves what follows, for every canonical message whose write succeeds.
    #[verifier::rlimit(90)]
    #[verifier::spinoff_prover]
    pub proof fn lemma_round_trip(m: DescribeUserScramCredentialsResponseDataView, version: i16, rest: Seq<u8>)
        requires
            Self::canonical(m, version),
            Self::spec_write(m, version) is Ok,
        ensures
            Self::spec_read(written(Self::spec_write(m, version)) + rest, version) == Ok::<(DescribeUserScramCredentialsResponseDataView, Seq<u8>), Error>((m, rest)),
    {
        let b0 = written(Self::spec_write_throttle_time_ms(m, version));
        let b1 = written(Self::spec_write_error_code(m, version));
        let b2 = written(Self::spec_write_error_message(m, version));
        let b3 = written(Self::spec_write_results(m, version));
        let b4 = written(Self::spec_write_tags(m, version));
        let t5 = rest;
        let t4 = b4 + t5;
        let t3 = b3 + t4;
        let t2 = b2 + t3;
        let t1 = b1 + t2;
        let t0 = b0 + t1;
        let w0 = Self::spec_write_throttle_time_ms(m, version);
        let w1 = chain(w0, Self::spec_write_error_code(m, version));
        let w2 = chain(w1, Self::spec_write_error_message(m, version));
        let w3 = chain(w2, Self::spec_write_results(m, version));
        let w4 = chain(w3, Self::spec_write_tags(m, version));
        assert(Self::spec_write(m, version) == w4);
        assert(written(w4) + t5 =~= written(w3) + t4);
        assert(written(w3) + t4 =~= written(w2) + t3);
        assert(written(w2) + t3 =~= written(w1) + t2);
        assert(written(w1) + t2 =~= written(w0) + t1);
        Self::lemma_round_trip_throttle_time_ms(m, version, t1);
        Self::lemma_round_trip_error_code(m, version, t2);
        Self::lemma_round_trip_error_message(m, version, t3);
        Self::lemma_round_trip_results(m, version, t4);
        Self::lemma_round_trip_tags(m, version, t5);
    }

    /// The default message holds the default value of each field of the schema.
    pub proof fn lemma_default_values()
        ensures
            Self::default_view().throttle_time_ms == (0_i32),
            Self::default_view().error_code == (0_i16),
            (Self::default_view().error_message is None),
            Self::default_view().results.len() == 0,
            Self::default_view().unknown_tagged_fields.len() == 0,
    {
    }

    /// Each integer, boolean and identifier field is written as its standard
    /// big-endian bytes (a boolean as `1` or `0`) in the versions that carry
    /// it, and as nothing in the others; reading it takes those bytes back (any
    /// byte other than `0` reads as `true`), or gives its default value.
    pub proof fn lemma_field_encodings(m: DescribeUserScramCredentialsResponseDataView, s: Seq<u8>, version: i16)
        ensures
            true ==> Self::spec_write_throttle_time_ms(m, version) == Ok::<Seq<u8>, (Error, Seq<u8>)>(u32_bytes(m.throttle_time_ms as u32)),
            true ==> Self::spec_write_error_code(m, version) == Ok::<Seq<u8>, (Error, Seq<u8>)>(u16_bytes(m.error_code as u16)),
            true ==> Self::spec_read_throttle_time_ms(s, version) == spec_read_i32(s),
            true ==> Self::spec_read_error_code(s, version) == spec_read_i16(s),
    {
        reveal(DescribeUserScramCredentialsResponseData::spec_write_throttle_time_ms);
        reveal(DescribeUserScramCredentialsResponseData::spec_read_throttle_time_ms);
        reveal(DescribeUserScramCredentialsResponseData::spec_write_error_code);
        reveal(DescribeUserScramCredentialsResponseData::spec_read_error_code);
    }

    /// Whether writing `m` in `version` succeeds, said over its parts: the
    /// version is one the schema covers, every field that the version cannot
    /// carry holds its default value, and every string, byte string, array and
    /// tagged field fits its length prefix.
    pub open spec fn writable(m: DescribeUserScramCredentialsResponseDataView, version: i16) -> bool {
        &&& 0 <= version <= 0
        &&& (m.error_message matches Some(b) ==> b.len() <= 0x7fff)
        &&& (m.results.len() <= i32::MAX && all_writable::<DescribeUserScramCredentialsResult>(m.results, version))
        &&& m.unknown_tagged_fields.len() <= u32::MAX && tags_fit(m.unknown_tagged_fields)
    }

    proof fn lemma_writable_throttle_time_ms(m: DescribeUserScramCredentialsResponseDataView, version: i16)
        ensures
            Self::spec_write_throttle_time_ms(m, version) is Ok <==> true,
    {
        reveal(DescribeUserScramCredentialsResponseData::spec_write_throttle_time_ms);
    }

    proof fn lemma_writable_error_code(m: DescribeUserScramCredentialsResponseDataView, version: i16)
        ensures
            Self::spec_write_error_code(m, version) is Ok <==> true,
    {
        reveal(DescribeUserScramCredentialsResponseData::spec_write_error_code);
    }

    proof fn lemma_writable_error_message(m: DescribeUserScramCredentialsResponseDataView, version: i16)
        ensures
            Self::spec_write_error_message(m, version) is Ok <==> (m.error_message matches Some(b) ==> b.len() <= 0x7fff),
    {
        reveal(DescribeUserScramCredentialsResponseData::spec_write_error_message);
    }

    proof fn lemma_writable_results(m: DescribeUserScramCredentialsResponseDataView, version: i16)
        ensures
            Self::spec_write_results(m, version) is Ok <==> (m.results.len() <= i32::MAX && all_writable::<DescribeUserScramCredentialsResult>(m.results, version)),
    {
        reveal(DescribeUserScramCredentialsResponseData::spec_write_results);
        lemma_array_writable::<DescribeUserScramCredentialsResult>(m.results, version, true);
    }

    proof fn lemma_writable_tags(m: DescribeUserScramCredentialsResponseDataView, version: i16)
        ensures
            Self::spec_write_tags(m, version) is Ok <==> m.unknown_tagged_fields.len() <= u32::MAX && tags_fit(m.unknown_tagged_fields),
    {
        reveal(DescribeUserScramCredentialsResponseData::spec_write_tags);
        lemma_sorted_tags_fit(m.unknown_tagged_fields);
        lemma_tagged_fields_writable(sorted_by_tag(m.unknown_tagged_fields));
    }

    /// Writing `m` in `version` succeeds exactly when `m` is writable in it;
    /// so do `write` and `encoded_len`, whose results follow `spec_write`.
    #[verifier::rlimit(60)]
    pub proof fn lemma_writable(m: DescribeUserScramCredentialsResponseDataView, version: i16)
        ensures
            Self::spec_write(m, version) is Ok <==> Self::writable(m, version),
    {
        Self::lemma_writable_throttle_time_ms(m, version);
        Self::lemma_writable_error_code(m, version);
        Self::lemma_writable_error_message(m, version);
        Self::lemma_writable_results(m, version);
        Self::lemma_writable_tags(m, version);
    }

    /// A version outside the range that the schema covers is refused, by
    /// reads and by writes alike, before anything is read or written.
    pub proof fn lemma_refused_version(m: DescribeUserScramCredentialsResponseDataView, s: Seq<u8>, version: i16)
        requires
            version < 0 || version > 0,
        ensures
            Self::spec_read(s, version) == Err::<(DescribeUserScramCredentialsResponseDataView, Seq<u8>), Error>(Error::UnsupportedVersion(UnsupportedVersion { api_key: 50, version })),
            Self::spec_write(m, version) == fail(Error::UnsupportedVersion(UnsupportedVersion { api_key: 50, version })),
    {
    }

    pub fn with_throttle_time_ms(self, value: i32) -> (r: Self)
        ensures
            r@ == (DescribeUserScramCredentialsResponseDataView { throttle_time_ms: value, ..self@ }),
    {
        let mut r = self;
        r.throttle_time_ms = value;
        r
    }

    pub fn with_error_code(self, value: i16) -> (r: Self)
        ensures
            r@ == (DescribeUserScramCredentialsResponseDataView { error_code: value, ..self@ }),
    {
        let mut r = self;
        r.error_code = value;
        r
    }

    pub fn with_error_message(self, value: Option<KafkaString>) -> (r: Self)
        ensures
            r@ == (DescribeUserScramCredentialsResponseDataView { error_message: opt_view(value), ..self@ }),
    {
        let mut r = self;
        r.error_message = value;
        r
    }

    pub fn with_results(self, value: Vec<DescribeUserScramCredentialsResult>) -> (r: Self)
        ensures
            r@ == (DescribeUserScramCredentialsResponseDataView { results: views(value@), ..self@ }),
    {
        let mut r = self;
        r.results = value;
        r
    }

    fn read_throttle_time_ms(buf: &mut Bytes, version: i16) -> (r: Result<i32, Error>)
        ensures
            read_as(Self::spec_read_throttle_time_ms(bytes_seq(*old(buf)), version), *final(buf), r),
            took_front(*old(buf), *final(buf)),
    {
        proof {
            reveal(DescribeUserScramCredentialsResponseData::spec_read_throttle_time_ms);
        }
        Ok(read_i32(buf)?)
    }

    fn read_error_code(buf: &mut Bytes, version: i16) -> (r: Result<i16, Error>)
        ensures
            read_as(Self::spec_read_error_code(bytes_seq(*old(buf)), version), *final(buf), r),
            took_front(*old(buf), *final(buf)),
    {
        proof {
            reveal(DescribeUserScramCredentialsResponseData::spec_read_error_code);
        }
        Ok(read_i16(buf)?)
    }

    fn read_error_message(buf: &mut Bytes, version: i16) -> (r: Result<Option<KafkaString>, Error>)
        ensures
            read_opt_as(Self::spec_read_error_message(bytes_seq(*old(buf)), version), *final(buf), r),
            took_front(*old(buf), *final(buf)),
    {
        proof {
            reveal(DescribeUserScramCredentialsResponseData::spec_read_error_message);
        }
        Ok(read_compact_nullable_string(buf)?)
    }

    fn read_results(buf: &mut Bytes, version: i16) -> (r: Result<Vec<DescribeUserScramCredentialsResult>, Error>)
        ensures
            read_vec_as(Self::spec_read_results(bytes_seq(*old(buf)), version), *final(buf), r),
            took_front(*old(buf), *final(buf)),
    {
        proof {
            reveal(DescribeUserScramCredentialsResponseData::spec_read_results);
        }
        Ok(read_array::<DescribeUserScramCredentialsResult>(buf, version, true)?)
    }

    fn read_tags(buf: &mut Bytes, version: i16) -> (r: Result<Vec<RawTaggedField>, Error>)
        ensures
            read_vec_as(Self::spec_read_tags(bytes_seq(*old(buf)), version), *final(buf), r),
            took_front(*old(buf), *final(buf)),
    {
        proof {
            reveal(DescribeUserScramCredentialsResponseData::spec_read_tags);
        }
        Ok(read_tagged_fields(buf)?)
    }

    pub fn read(buf: &mut Bytes, version: i16) -> (r: Result<Self, Error>)
        ensures
            read_as(Self::spec_read(bytes_seq(*old(buf)), version), *final(buf), r),
            took_front(*old(buf), *final(buf)),
            (version < 0 || version > 0) ==> bytes_seq(*final(buf)) == bytes_seq(*old(buf)),
    {
        if version < 0 || version > 0 {
            return Err(Error::UnsupportedVersion(UnsupportedVersion::new(50, version)));
        }
        let throttle_time_ms = Self::read_throttle_time_ms(buf, version)?;
        let error_code = Self::read_error_code(buf, version)?;
        let error_message = Self::read_error_message(buf, version)?;
        let results = Self::read_results(buf, version)?;
        let _unknown_tagged_fields = Self::read_tags(buf, version)?;
        Ok(DescribeUserScramCredentialsResponseData {
                throttle_time_ms: throttle_time_ms,
                error_code: error_code,
                error_message: error_message,
                results: results,
                _unknown_tagged_fields: _unknown_tagged_fields,
        })
    }

    #[verifier::rlimit(80)]
    pub fn write(&self, buf: &mut BytesMut, version: i16) -> (r: Result<(), Error>)
        requires
            has_room(Self::spec_write(self@, version), *old(buf)),
        ensures
            wrote(Self::spec_write(self@, version), *old(buf), *final(buf), r),
    {
        if version < 0 || version > 0 {
            return Err(Error::UnsupportedVersion(UnsupportedVersion::new(50, version)));
        }
        let ghost m = self@;
        proof {
            reveal(DescribeUserScramCredentialsResponseData::spec_write_throttle_time_ms);
            reveal(DescribeUserScramCredentialsResponseData::spec_write_error_code);
            reveal(DescribeUserScramCredentialsResponseData::spec_write_error_message);
            reveal(DescribeUserScramCredentialsResponseData::spec_write_results);
            reveal(DescribeUserScramCredentialsResponseData::spec_write_tags);
        }
        let ghost s0 = Self::spec_write_throttle_time_ms(m, version);
        let ghost w0 = s0;
        let ghost s1 = Self::spec_write_error_code(m, version);
        let ghost w1 = chain(w0, s1);
        let ghost s2 = Self::spec_write_error_message(m, version);
        let ghost w2 = chain(w1, s2);
        let ghost s3 = Self::spec_write_results(m, version);
        let ghost w3 = chain(w2, s3);
        let ghost s4 = Self::spec_write_tags(m, version);
        let ghost w4 = chain(w3, s4);
        assert(Self::spec_write(m, version) == w4);
        assert(written(w3).len() <= written(w4).len() && (w3 is Err ==> w4 == w3));
        assert(written(w2).len() <= written(w4).len() && (w2 is Err ==> w4 == w2));
        assert(written(w1).len() <= written(w4).len() && (w1 is Err ==> w4 == w1));
        assert(written(w0).len() <= written(w4).len() && (w0 is Err ==> w4 == w0));
        let ghost mid = bytes_mut_seq(*buf);
        proof {
            lemma_append_empty(mid);
        }
        let r0 = {
            write_i32(buf, self.throttle_time_ms);
            Ok(())
        };
        assert(bytes_mut_seq(*buf) == mid + written(s0));
        if r0.is_err() {
            return r0;
        }
        let ghost mid = bytes_mut_seq(*buf);
        proof {
            lemma_append_empty(mid);
        }
        let r1 = {
            write_i16(buf, self.error_code);
            Ok(())
        };
        assert(bytes_mut_seq(*buf) == mid + written(s1));
        proof {
            lemma_step(bytes_mut_seq(*old(buf)), w0, s1);
        }
        if r1.is_err() {
            return r1;
        }
        let ghost mid = bytes_mut_seq(*buf);
        proof {
            lemma_append_empty(mid);
        }
        let r2 = write_compact_nullable_string(buf, &self.error_message);
        assert(bytes_mut_seq(*buf) == mid + written(s2));
        proof {
            lemma_step(bytes_mut_seq(*old(buf)), w1, s2);
        }
        if r2.is_err() {
            return r2;
        }
        let ghost mid = bytes_mut_seq(*buf);
        proof {
            lemma_append_empty(mid);
        }
        let r3 = write_array::<DescribeUserScramCredentialsResult>(buf, &self.results, version, true);
        assert(bytes_mut_seq(*buf) == mid + written(s3));
        proof {
            lemma_step(bytes_mut_seq(*old(buf)), w2, s3);
        }
        if r3.is_err() {
            return r3;
        }
        let ghost mid = bytes_mut_seq(*buf);
        proof {
            lemma_append_empty(mid);
        }
        let r4 = write_tagged_fields(buf, &sort_by_tag(&self._unknown_tagged_fields));
        assert(bytes_mut_seq(*buf) == mid + written(s4));
        proof {
            lemma_step(bytes_mut_seq(*old(buf)), w3, s4);
        }
        if r4.is_err() {
            return r4;
        }
        Ok(())
    }

    #[verifier::rlimit(80)]
    pub fn encoded_len(&self, version: i16) -> (r: Result<usize, Error>)
        ensures
            r == len_result(Self::spec_write(self@, version)),
    {
        if version < 0 || version > 0 {
            return Err(Error::UnsupportedVersion(UnsupportedVersion::new(50, version)));
        }
        let ghost m = self@;
        proof {
            reveal(DescribeUserScramCredentialsResponseData::spec_write_throttle_time_ms);
            reveal(DescribeUserScramCredentialsResponseData::spec_write_error_code);
            reveal(DescribeUserScramCredentialsResponseData::spec_write_error_message);
            reveal(DescribeUserScramCredentialsResponseData::spec_write_results);
            reveal(DescribeUserScramCredentialsResponseData::spec_write_tags);
        }
        let ghost s0 = Self::spec_write_throttle_time_ms(m, version);
        let ghost w0 = s0;
        let ghost s1 = Self::spec_write_error_code(m, version);
        let ghost w1 = chain(w0, s1);
        let ghost s2 = Self::spec_write_error_message(m, version);
        let ghost w2 = chain(w1, s2);
        let ghost s3 = Self::spec_write_results(m, version);
        let ghost w3 = chain(w2, s3);
        let ghost s4 = Self::spec_write_tags(m, version);
        let ghost w4 = chain(w3, s4);
        assert(Self::spec_write(m, version) == w4);
        assert(w3 is Err ==> w4 == w3);
        assert(w2 is Err ==> w4 == w2);
        assert(w1 is Err ==> w4 == w1);
        assert(w0 is Err ==> w4 == w0);
        let mut len: usize = 0;
        let l0 = Ok(4);
        assert(l0 == len_result(s0));
        let n0 = match l0 {
            Ok(n) => n,
            Err(e) => {
                return Err(e);
            },
        };
        len = saturating_sum(len, n0);
        assert(w0 is Ok && len == saturate(written(w0).len() as int));
        let l1 = Ok(2);
        assert(l1 == len_result(s1));
        let n1 = match l1 {
            Ok(n) => n,
            Err(e) => {
                return Err(e);
            },
        };
        proof {
            lemma_len_step(w0, s1, n1);
        }
        len = saturating_sum(len, n1);
        assert(w1 is Ok && len == saturate(written(w1).len() as int));
        let l2 = compact_nullable_string_len(&self.error_message);
        assert(l2 == len_result(s2));
        let n2 = match l2 {
            Ok(n) => n,
            Err(e) => {
                return Err(e);
            },
        };
        proof {
            lemma_len_step(w1, s2, n2);
        }
        len = saturating_sum(len, n2);
        assert(w2 is Ok && len == saturate(written(w2).len() as int));
        let l3 = array_len::<DescribeUserScramCredentialsResult>(&self.results, version, true);
        assert(l3 == len_result(s3));
        let n3 = match l3 {
            Ok(n) => n,
            Err(e) => {
                return Err(e);
            },
        };
        proof {
            lemma_len_step(w2, s3, n3);
        }
        len = saturating_sum(len, n3);
        assert(w3 is Ok && len == saturate(written(w3).len() as int));
        let l4 = tagged_fields_len(&sort_by_tag(&self._unknown_tagged_fields));
        assert(l4 == len_result(s4));
        let n4 = match l4 {
            Ok(n) => n,
            Err(e) => {
                return Err(e);
            },
        };
        proof {
            lemma_len_step(w3, s4, n4);
        }
        len = saturating_sum(len, n4);
        assert(w4 is Ok && len == saturate(written(w4).len() as int));
        Ok(len)
    }
}

#[derive(Debug, PartialEq)]
pub struct DescribeUserScramCredentialsResult {
    /// The user name.
    pub user: KafkaString,
    /// The user-level error code.
    pub error_code: i16,
    /// The user-level error message, if any.
    pub error_message: Option<KafkaString>,
    /// The mechanism and related information associated with the user's SCRAM credentials.
    pub credential_infos: Vec<CredentialInfo>,
    pub _unknown_tagged_fields: Vec<RawTaggedField>,
}

/// What a `DescribeUserScramCredentialsResult` holds, as the specification sees it.
#[verifier::ext_equal]
pub struct DescribeUserScramCredentialsResultView {
    pub user: Seq<u8>,
    pub error_code: i16,
    pub error_message: Option<Seq<u8>>,
    pub credential_infos: Seq<CredentialInfoView>,
    pub unknown_tagged_fields: Seq<(u32, Seq<u8>)>,
}

impl View for DescribeUserScramCredentialsResult {
    type V = DescribeUserScramCredentialsResultView;

    open spec fn view(&self) -> DescribeUserScramCredentialsResultView {
        DescribeUserScramCredentialsResultView {
            user: self.user@,
            error_code: self.error_code,
            error_message: opt_view(self.error_message),
            credential_infos: views(self.credential_infos@),
            unknown_tagged_fields: views(self._unknown_tagged_fields@),
        }
    }
}

impl Clone for DescribeUserScramCredentialsResult {
    fn clone(&self) -> (r: Self)
        ensures
            r@ == self@,
    {
        let r = DescribeUserScramCredentialsResult {
            user: self.user.clone(),
            error_code: self.error_code,
            error_message: match &self.error_message {
                Some(x) => Some(x.clone()),
                None => None,
            },
            credential_infos: clone_vec(&self.credential_infos),
            _unknown_tagged_fields: clone_vec(&self._unknown_tagged_fields),
        };
        assert(r@ =~= self@);
        r
    }
}

impl ViewClone for DescribeUserScramCredentialsResult {
    fn clone_view(&self) -> (r: Self) {
        self.clone()
    }
}

impl Default for DescribeUserScramCredentialsResult {
    fn default() -> (r: Self)
        ensures
            r@ == Self::default_view(),
    {
        let r = DescribeUserScramCredentialsResult {
            user: KafkaString::default(),
            error_code: 0_i16,
            error_message: None,
            credential_infos: empty_vec(),
            _unknown_tagged_fields: empty_vec(),
        };
        assert(r@ =~= Self::default_view());
        r
    }
}

impl DescribeUserScramCredentialsResult {
    pub open spec fn default_view() -> DescribeUserScramCredentialsResultView {
        DescribeUserScramCredentialsResultView {
            user: Seq::empty(),
            error_code: 0_i16,
            error_message: None,
            credential_infos: Seq::empty(),
            unknown_tagged_fields: Seq::empty(),
        }
    }

    /// The `user` field, read from the front of `s`.
    #[verifier::opaque]
    pub open spec fn spec_read_user(s: Seq<u8>, version: i16) -> ReadOutcome<Seq<u8>> {
        spec_read_compact_string(s)
    }

    /// The `error_code` field, read from the front of `s`.
    #[verifier::opaque]
    pub open spec fn spec_read_error_code(s: Seq<u8>, version: i16) -> ReadOutcome<i16> {
        spec_read_i16(s)
    }

    /// The `error_message` field, read from the front of `s`.
    #[verifier::opaque]
    pub open spec fn spec_read_error_message(s: Seq<u8>, version: i16) -> ReadOutcome<Option<Seq<u8>>> {
        spec_read_compact_nullable_string(s)
    }

    /// The `credential_infos` field, read from the front of `s`.
    #[verifier::opaque]
    pub open spec fn spec_read_credential_infos(s: Seq<u8>, version: i16) -> ReadOutcome<Seq<CredentialInfoView>> {
        spec_read_array::<CredentialInfo>(s, version, true)
    }

    /// The tagged fields, read from the front of `s`.
    #[verifier::opaque]
    pub open spec fn spec_read_tags(s: Seq<u8>, version: i16) -> ReadOutcome<Seq<(u32, Seq<u8>)>> {
        spec_read_tagged_fields(s)
    }

    pub open spec fn spec_read(s: Seq<u8>, version: i16) -> ReadOutcome<DescribeUserScramCredentialsResultView> {
        match (Self::spec_read_user(s, version)) {
            Err(e) => Err(e),
            Ok((user, s)) => match (Self::spec_read_error_code(s, version)) {
                Err(e) => Err(e),
                Ok((error_code, s)) => match (Self::spec_read_error_message(s, version)) {
                    Err(e) => Err(e),
                    Ok((error_message, s)) => match (Self::spec_read_credential_infos(s, version)) {
                        Err(e) => Err(e),
                        Ok((credential_infos, s)) => match (Self::spec_read_tags(s, version)) {
                            Err(e) => Err(e),
                            Ok((unknown_tagged_fields, s)) => Ok((DescribeUserScramCredentialsResultView {
                                        user: user,
                                        error_code: error_code,
                                        error_message: error_message,
                                        credential_infos: credential_infos,
                                        unknown_tagged_fields: unknown_tagged_fields,
                                    }, s)),
                        },
                    },
                },
            },
        }
    }

    /// What writing the `user` field of `m` appends.
    #[verifier::opaque]
    pub open spec fn spec_write_user(m: DescribeUserScramCredentialsResultView, version: i16) -> WriteOutcome {
        spec_write_compact_string(m.user)
    }

    /// What writing the `error_code` field of `m` appends.
    #[verifier::opaque]
    pub open spec fn spec_write_error_code(m: DescribeUserScramCredentialsResultView, version: i16) -> WriteOutcome {
        spec_write_i16(m.error_code)
    }

    /// What writing the `error_message` field of `m` appends.
    #[verifier::opaque]
    pub open spec fn spec_write_error_message(m: DescribeUserScramCredentialsResultView, version: i16) -> WriteOutcome {
        spec_write_compact_nullable_string(m.error_message)
    }

    /// What writing the `credential_infos` field of `m` appends.
    #[verifier::opaque]
    pub open spec fn spec_write_credential_infos(m: DescribeUserScramCredentialsResultView, version: i16) -> WriteOutcome {
        spec_write_array::<CredentialInfo>(m.credential_infos, version, true)
    }

    /// What writing the tagged fields of `m` appends.
    #[verifier::opaque]
    pub open spec fn spec_write_tags(m: DescribeUserScramCredentialsResultView, version: i16) -> WriteOutcome {
        spec_write_tagged_fields(sorted_by_tag(m.unknown_tagged_fields))
    }

    pub open spec fn spec_write(m: DescribeUserScramCredentialsResultView, version: i16) -> WriteOutcome {
        chain(
            chain(
                chain(
                    chain(
                        Self::spec_write_user(m, version),
                        Self::spec_write_error_code(m, version),
                    ),
                    Self::spec_write_error_message(m, version),
                ),
                Self::spec_write_credential_infos(m, version),
            ),
            Self::spec_write_tags(m, version),
        )
    }

    /// Whether reading back what writing `m` in `version` appends gives `m`:
    /// fields that the version does not carry hold their default values, and
    /// tagged fields come in the order in which they are written.
    pub open spec fn canonical(m: DescribeUserScramCredentialsResultView, version: i16) -> bool {
        &&& all_canonical::<CredentialInfo>(m.credential_infos, version)
        &&& tags_in_order(m.unknown_tagged_fields)
    }

    proof fn lemma_round_trip_user(m: DescribeUserScramCredentialsResultView, version: i16, rest: Seq<u8>)
        requires
            Self::canonical(m, version),
            Self::spec_write_user(m, version) is Ok,
        ensures
            Self::spec_read_user(written(Self::spec_write_user(m, version)) + rest, version) == Ok::<(Seq<u8>, Seq<u8>), Error>((m.user, rest)),
    {
        reveal(DescribeUserScramCredentialsResult::spec_read_user);
        reveal(DescribeUserScramCredentialsResult::spec_write_user);
        lemma_compact_string_round_trip(m.user, rest);
    }

    proof fn lemma_round_trip_error_code(m: DescribeUserScramCredentialsResultView, version: i16, rest: Seq<u8>)
        requires
            Self::canonical(m, version),
            Self::spec_write_error_code(m, version) is Ok,
        ensures
            Self::spec_read_error_code(written(Self::spec_write_error_code(m, version)) + rest, version) == Ok::<(i16, Seq<u8>), Error>((m.error_code, rest)),
    {
        reveal(DescribeUserScramCredentialsResult::spec_read_error_code);
        reveal(DescribeUserScramCredentialsResult::spec_write_error_code);
        lemma_i16_roundtrip(m.error_code, rest);
    }

    proof fn lemma_round_trip_error_message(m: DescribeUserScramCredentialsResultView, version: i16, rest: Seq<u8>)
        requires
            Self::canonical(m, version),
            Self::spec_write_error_message(m, version) is Ok,
        ensures
            Self::spec_read_error_message(written(Self::spec_write_error_message(m, version)) + rest, version) == Ok::<(Option<Seq<u8>>, Seq<u8>), Error>((m.error_message, rest)),
    {
        reveal(DescribeUserScramCredentialsResult::spec_read_error_message);
        reveal(DescribeUserScramCredentialsResult::spec_write_error_message);
        lemma_compact_nullable_string_round_trip(m.error_message, rest);
    }

    proof fn lemma_round_trip_credential_infos(m: DescribeUserScramCredentialsResultView, version: i16, rest: Seq<u8>)
        requires
            Self::canonical(m, version),
            Self::spec_write_credential_infos(m, version) is Ok,
        ensures
            Self::spec_read_credential_infos(written(Self::spec_write_credential_infos(m, version)) + rest, version) == Ok::<(Seq<CredentialInfoView>, Seq<u8>), Error>((m.credential_infos, rest)),
    {
        reveal(DescribeUserScramCredentialsResult::spec_read_credential_infos);
        reveal(DescribeUserScramCredentialsResult::spec_write_credential_infos);
        lemma_array_round_trip::<CredentialInfo>(m.credential_infos, version, true, rest);
    }

    proof fn lemma_round_trip_tags(m: DescribeUserScramCredentialsResultView, version: i16, rest: Seq<u8>)
        requires
            Self::canonical(m, version),
            Self::spec_write_tags(m, version) is Ok,
        ensures
            Self::spec_read_tags(written(Self::spec_write_tags(m, version)) + rest, version) == Ok::<(Seq<(u32, Seq<u8>)>, Seq<u8>), Error>((m.unknown_tagged_fields, rest)),
    {
        reveal(DescribeUserScramCredentialsResult::spec_read_tags);
        reveal(DescribeUserScramCredentialsResult::spec_write_tags);
        lemma_sorted_by_tag_in_order(m.unknown_tagged_fields);
        lemma_tagged_fields_round_trip(m.unknown_tagged_fields, rest);
    }

    /// Reading back what writing `m` in `version` appends gives `m` again, and
    /// leaves what follows, for every canonical message whose write succeeds.
    #[verifier::rlimit(90)]
    #[verifier::spinoff_prover]
    pub proof fn lemma_round_trip(m: DescribeUserScramCredentialsResultView, version: i16, rest: Seq<u8>)
        requires
            Self::canonical(m, version),
            Self::spec_write(m, version) is Ok,
        ensures
            Self::spec_read(written(Self::spec_write(m, version)) + rest, version) == Ok::<(DescribeUserScramCredentialsResultView, Seq<u8>), Error>((m, rest)),
    {
        let b0 = written(Self::spec_write_user(m, version));
        let b1 = written(Self::spec_write_error_code(m, version));
        let b2 = written(Self::spec_write_error_message(m, version));
        let b3 = written(Self::spec_write_credential_infos(m, version));
        let b4 = written(Self::spec_write_tags(m, version));
        let t5 = rest;
        let t4 = b4 + t5;
        let t3 = b3 + t4;
        let t2 = b2 + t3;
        let t1 = b1 + t2;
        let t0 = b0 + t1;
        let w0 = Self::spec_write_user(m, version);
        let w1 = chain(w0, Self::spec_write_error_code(m, version));
        let w2 = chain(w1, Self::spec_write_error_message(m, version));
        let w3 = chain(w2, Self::spec_write_credential_infos(m, version));
        let w4 = chain(w3, Self::spec_write_tags(m, version));
        assert(Self::spec_write(m, version) == w4);
        assert(written(w4) + t5 =~= written(w3) + t4);
        assert(written(w3) + t4 =~= written(w2) + t3);
        assert(written(w2) + t3 =~= written(w1) + t2);
        assert(written(w1) + t2 =~= written(w0) + t1);
        Self::lemma_round_trip_user(m, version, t1);
        Self::lemma_round_trip_error_code(m, version, t2);
        Self::lemma_round_trip_error_message(m, version, t3);
        Self::lemma_round_trip_credential_infos(m, version, t4);
        Self::lemma_round_trip_tags(m, version, t5);
    }

    /// The default message holds the default value of each field of the schema.
    pub proof fn lemma_default_values()
        ensures
            Self::default_view().user.len() == 0,
            Self::default_view().error_code == (0_i16),
            (Self::default_view().error_message is None),
            Self::default_view().credential_infos.len() == 0,
            Self::default_view().unknown_tagged_fields.len() == 0,
    {
    }

    /// Each integer, boolean and identifier field is written as its standard
    /// big-endian bytes (a boolean as `1` or `0`) in the versions that carry
    /// it, and as nothing in the others; reading it takes those bytes back (any
    /// byte other than `0` reads as `true`), or gives its default value.
    pub proof fn lemma_field_encodings(m: DescribeUserScramCredentialsResultView, s: Seq<u8>, version: i16)
        ensures
            true ==> Self::spec_write_error_code(m, version) == Ok::<Seq<u8>, (Error, Seq<u8>)>(u16_bytes(m.error_code as u16)),
            true ==> Self::spec_read_error_code(s, version) == spec_read_i16(s),
    {
        reveal(DescribeUserScramCredentialsResult::spec_write_error_code);
        reveal(DescribeUserScramCredentialsResult::spec_read_error_code);
    }

    /// Whether writing `m` in `version` succeeds, said over its parts: the
    /// version is one the schema covers, every field that the version cannot
    /// carry holds its default value, and every string, byte string, array and
    /// tagged field fits its length prefix.
    pub open spec fn writable(m: DescribeUserScramCredentialsResultView, version: i16) -> bool {
        &&& m.user.len() <= 0x7fff
        &&& (m.error_message matches Some(b) ==> b.len() <= 0x7fff)
        &&& (m.credential_infos.len() <= i32::MAX && all_writable::<CredentialInfo>(m.credential_infos, version))
        &&& m.unknown_tagged_fields.len() <= u32::MAX && tags_fit(m.unknown_tagged_fields)
    }

    proof fn lemma_writable_user(m: DescribeUserScramCredentialsResultView, version: i16)
        ensures
            Self::spec_write_user(m, version) is Ok <==> m.user.len() <= 0x7fff,
    {
        reveal(DescribeUserScramCredentialsResult::spec_write_user);
    }

    proof fn lemma_writable_error_code(m: DescribeUserScramCredentialsResultView, version: i16)
        ensures
            Self::spec_write_error_code(m, version) is Ok <==> true,
    {
        reveal(DescribeUserScramCredentialsResult::spec_write_error_code);
    }

    proof fn lemma_writable_error_message(m: DescribeUserScramCredentialsResultView, version: i16)
        ensures
            Self::spec_write_error_message(m, version) is Ok <==> (m.error_message matches Some(b) ==> b.len() <= 0x7fff),
    {
        reveal(DescribeUserScramCredentialsResult::spec_write_error_message);
    }

    proof fn lemma_writable_credential_infos(m: DescribeUserScramCredentialsResultView, version: i16)
        ensures
            Self::spec_write_credential_infos(m, version) is Ok <==> (m.credential_infos.len() <= i32::MAX && all_writable::<CredentialInfo>(m.credential_infos, version)),
    {
        reveal(DescribeUserScramCredentialsResult::spec_write_credential_infos);
        lemma_array_writable::<CredentialInfo>(m.credential_infos, version, true);
    }

    proof fn lemma_writable_tags(m: DescribeUserScramCredentialsResultView, version: i16)
        ensures
            Self::spec_write_tags(m, version) is Ok <==> m.unknown_tagged_fields.len() <= u32::MAX && tags_fit(m.unknown_tagged_fields),
    {
        reveal(DescribeUserScramCredentialsResult::spec_write_tags);
        lemma_sorted_tags_fit(m.unknown_tagged_fields);
        lemma_tagged_fields_writable(sorted_by_tag(m.unknown_tagged_fields));
    }

    /// Writing `m` in `version` succeeds exactly when `m` is writable in it;
    /// so do `write` and `encoded_len`, whose results follow `spec_write`.
    #[verifier::rlimit(60)]
    pub proof fn lemma_writable(m: DescribeUserScramCredentialsResultView, version: i16)
        ensures
            Self::spec_write(m, version) is Ok <==> Self::writable(m, version),
    {
        Self::lemma_writable_user(m, version);
        Self::lemma_writable_error_code(m, version);
        Self::lemma_writable_error_message(m, version);
        Self::lemma_writable_credential_infos(m, version);
        Self::lemma_writable_tags(m, version);
    }

    pub fn with_user(self, value: KafkaString) -> (r: Self)
        ensures
            r@ == (DescribeUserScramCredentialsResultView { user: value@, ..self@ }),
    {
        let mut r = self;
        r.user = value;
        r
    }

    pub fn with_error_code(self, value: i16) -> (r: Self)
        ensures
            r@ == (DescribeUserScramCredentialsResultView { error_code: value, ..self@ }),
    {
        let mut r = self;
        r.error_code = value;
        r
    }

    pub fn with_error_message(self, value: Option<KafkaString>) -> (r: Self)
        ensures
            r@ == (DescribeUserScramCredentialsResultView { error_message: opt_view(value), ..self@ }),
    {
        let mut r = self;
        r.error_message = value;
        r
    }

    pub fn with_credential_infos(self, value: Vec<CredentialInfo>) -> (r: Self)
        ensures
            r@ == (DescribeUserScramCredentialsResultView { credential_infos: views(value@), ..self@ }),
    {
        let mut r = self;
        r.credential_infos = value;
        r
    }

    fn read_user(buf: &mut Bytes, version: i16) -> (r: Result<KafkaString, Error>)
        ensures
            read_as(Self::spec_read_user(bytes_seq(*old(buf)), version), *final(buf), r),
            took_front(*old(buf), *final(buf)),
    {
        proof {
            reveal(DescribeUserScramCredentialsResult::spec_read_user);
        }
        Ok(read_compact_string(buf)?)
    }

    fn read_error_code(buf: &mut Bytes, version: i16) -> (r: Result<i16, Error>)
        ensures
            read_as(Self::spec_read_error_code(bytes_seq(*old(buf)), version), *final(buf), r),
            took_front(*old(buf), *final(buf)),
    {
        proof {
            reveal(DescribeUserScramCredentialsResult::spec_read_error_code);
        }
        Ok(read_i16(buf)?)
    }

    fn read_error_message(buf: &mut Bytes, version: i16) -> (r: Result<Option<KafkaString>, Error>)
        ensures
            read_opt_as(Self::spec_read_error_message(bytes_seq(*old(buf)), version), *final(buf), r),
            took_front(*old(buf), *final(buf)),
    {
        proof {
            reveal(DescribeUserScramCredentialsResult::spec_read_error_message);
        }
        Ok(read_compact_nullable_string(buf)?)
    }

    fn read_credential_infos(buf: &mut Bytes, version: i16) -> (r: Result<Vec<CredentialInfo>, Error>)
        ensures
            read_vec_as(Self::spec_read_credential_infos(bytes_seq(*old(buf)), version), *final(buf), r),
            took_front(*old(buf), *final(buf)),
    {
        proof {
            reveal(DescribeUserScramCredentialsResult::spec_read_credential_infos);
        }
        Ok(read_array::<CredentialInfo>(buf, version, true)?)
    }

    fn read_tags(buf: &mut Bytes, version: i16) -> (r: Result<Vec<RawTaggedField>, Error>)
        ensures
            read_vec_as(Self::spec_read_tags(bytes_seq(*old(buf)), version), *final(buf), r),
            took_front(*old(buf), *final(buf)),
    {
        proof {
            reveal(DescribeUserScramCredentialsResult::spec_read_tags);
        }
        Ok(read_tagged_fields(buf)?)
    }

    pub fn read(buf: &mut Bytes, version: i16) -> (r: Result<Self, Error>)
        ensures
            read_as(Self::spec_read(bytes_seq(*old(buf)), version), *final(buf), r),
            took_front(*old(buf), *final(buf)),
    {
        let user = Self::read_user(buf, version)?;
        let error_code = Self::read_error_code(buf, version)?;
        let error_message = Self::read_error_message(buf, version)?;
        let credential_infos = Self::read_credential_infos(buf, version)?;
        let _unknown_tagged_fields = Self::read_tags(buf, version)?;
        Ok(DescribeUserScramCredentialsResult {
                user: user,
                error_code: error_code,
                error_message: error_message,
                credential_infos: credential_infos,
                _unknown_tagged_fields: _unknown_tagged_fields,
        })
    }

    #[verifier::rlimit(80)]
    pub fn write(&self, buf: &mut BytesMut, version: i16) -> (r: Result<(), Error>)
        requires
            has_room(Self::spec_write(self@, version), *old(buf)),
        ensures
            wrote(Self::spec_write(self@, version), *old(buf), *final(buf), r),
    {
        let ghost m = self@;
        proof {
            reveal(DescribeUserScramCredentialsResult::spec_write_user);
            reveal(DescribeUserScramCredentialsResult::spec_write_error_code);
            reveal(DescribeUserScramCredentialsResult::spec_write_error_message);
            reveal(DescribeUserScramCredentialsResult::spec_write_credential_infos);
            reveal(DescribeUserScramCredentialsResult::spec_write_tags);
        }
        let ghost s0 = Self::spec_write_user(m, version);
        let ghost w0 = s0;
        let ghost s1 = Self::spec_write_error_code(m, version);
        let ghost w1 = chain(w0, s1);
        let ghost s2 = Self::spec_write_error_message(m, version);
        let ghost w2 = chain(w1, s2);
        let ghost s3 = Self::spec_write_credential_infos(m, version);
        let ghost w3 = chain(w2, s3);
        let ghost s4 = Self::spec_write_tags(m, version);
        let ghost w4 = chain(w3, s4);
        assert(Self::spec_write(m, version) == w4);
        assert(written(w3).len() <= written(w4).len() && (w3 is Err ==> w4 == w3));
        assert(written(w2).len() <= written(w4).len() && (w2 is Err ==> w4 == w2));
        assert(written(w1).len() <= written(w4).len() && (w1 is Err ==> w4 == w1));
        assert(written(w0).len() <= written(w4).len() && (w0 is Err ==> w4 == w0));
        let ghost mid = bytes_mut_seq(*buf);
        proof {
            lemma_append_empty(mid);
        }
        let r0 = write_compact_string(buf, &self.user);
        assert(bytes_mut_seq(*buf) == mid + written(s0));
        if r0.is_err() {
            return r0;
        }
        let ghost mid = bytes_mut_seq(*buf);
        proof {
            lemma_append_empty(mid);
        }
        let r1 = {
            write_i16(buf, self.error_code);
            Ok(())
        };
        assert(bytes_mut_seq(*buf) == mid + written(s1));
        proof {
            lemma_step(bytes_mut_seq(*old(buf)), w0, s1);
        }
        if r1.is_err() {
            return r1;
        }
        let ghost mid = bytes_mut_seq(*buf);
        proof {
            lemma_append_empty(mid);
        }
        let r2 = write_compact_nullable_string(buf, &self.error_message);
        assert(bytes_mut_seq(*buf) == mid + written(s2));
        proof {
            lemma_step(bytes_mut_seq(*old(buf)), w1, s2);
        }
        if r2.is_err() {
            return r2;
        }
        let ghost mid = bytes_mut_seq(*buf);
        proof {
            lemma_append_empty(mid);
        }
        let r3 = write_array::<CredentialInfo>(buf, &self.credential_infos, version, true);
        assert(bytes_mut_seq(*buf) == mid + written(s3));
        proof {
            lemma_step(bytes_mut_seq(*old(buf)), w2, s3);
        }
        if r3.is_err() {
            return r3;
        }
        let ghost mid = bytes_mut_seq(*buf);
        proof {
            lemma_append_empty(mid);
        }
        let r4 = write_tagged_fields(buf, &sort_by_tag(&self._unknown_tagged_fields));
        assert(bytes_mut_seq(*buf) == mid + written(s4));
        proof {
            lemma_step(bytes_mut_seq(*old(buf)), w3, s4);
        }
        if r4.is_err() {
            return r4;
        }
        Ok(())
    }

    #[verifier::rlimit(80)]
    pub fn encoded_len(&self, version: i16) -> (r: Result<usize, Error>)
        ensures
            r == len_result(Self::spec_write(self@, version)),
    {
        let ghost m = self@;
        proof {
            reveal(DescribeUserScramCredentialsResult::spec_write_user);
            reveal(DescribeUserScramCredentialsResult::spec_write_error_code);
            reveal(DescribeUserScramCredentialsResult::spec_write_error_message);
            reveal(DescribeUserScramCredentialsResult::spec_write_credential_infos);
            reveal(DescribeUserScramCredentialsResult::spec_write_tags);
        }
        let ghost s0 = Self::spec_write_user(m, version);
        let ghost w0 = s0;
        let ghost s1 = Self::spec_write_error_code(m, version);
        let ghost w1 = chain(w0, s1);
        let ghost s2 = Self::spec_write_error_message(m, version);
        let ghost w2 = chain(w1, s2);
        let ghost s3 = Self::spec_write_credential_infos(m, version);
        let ghost w3 = chain(w2, s3);
        let ghost s4 = Self::spec_write_tags(m, version);
        let ghost w4 = chain(w3, s4);
        assert(Self::spec_write(m, version) == w4);
        assert(w3 is Err ==> w4 == w3);
        assert(w2 is Err ==> w4 == w2);
        assert(w1 is Err ==> w4 == w1);
        assert(w0 is Err ==> w4 == w0);
        let mut len: usize = 0;
        let l0 = compact_string_len(&self.user);
        assert(l0 == len_result(s0));
        let n0 = match l0 {
            Ok(n) => n,
            Err(e) => {
                return Err(e);
            },
        };
        len = saturating_sum(len, n0);
        assert(w0 is Ok && len == saturate(written(w0).len() as int));
        let l1 = Ok(2);
        assert(l1 == len_result(s1));
        let n1 = match l1 {
            Ok(n) => n,
            Err(e) => {
                return Err(e);
            },
        };
        proof {
            lemma_len_step(w0, s1, n1);
        }
        len = saturating_sum(len, n1);
        assert(w1 is Ok && len == saturate(written(w1).len() as int));
        let l2 = compact_nullable_string_len(&self.error_message);
        assert(l2 == len_result(s2));
        let n2 = match l2 {
            Ok(n) => n,
            Err(e) => {
                return Err(e);
            },
        };
        proof {
            lemma_len_step(w1, s2, n2);
        }
        len = saturating_sum(len, n2);
        assert(w2 is Ok && len == saturate(written(w2).len() as int));
        let l3 = array_len::<CredentialInfo>(&self.credential_infos, version, true);
        assert(l3 == len_result(s3));
        let n3 = match l3 {
            Ok(n) => n,
            Err(e) => {
                return Err(e);
            },
        };
        proof {
            lemma_len_step(w2, s3, n3);
        }
        len = saturating_sum(len, n3);
        assert(w3 is Ok && len == saturate(written(w3).len() as int));
        let l4 = tagged_fields_len(&sort_by_tag(&self._unknown_tagged_fields));
        assert(l4 == len_result(s4));
        let n4 = match l4 {
            Ok(n) => n,
            Err(e) => {
                return Err(e);
            },
        };
        proof {
            lemma_len_step(w3, s4, n4);
        }
        len = saturating_sum(len, n4);
        assert(w4 is Ok && len == saturate(written(w4).len() as int));
        Ok(len)
    }
}

#[derive(Debug, PartialEq)]
pub struct CredentialInfo {
    /// The SCRAM mechanism.
    pub mechanism: i8,
    /// The number of iterations used in the SCRAM credential.
    pub iterations: i32,
    pub _unknown_tagged_fields: Vec<RawTaggedField>,
}

/// What a `CredentialInfo` holds, as the specification sees it.
#[verifier::ext_equal]
pub struct CredentialInfoView {
    pub mechanism: i8,
    pub iterations: i32,
    pub unknown_tagged_fields: Seq<(u32, Seq<u8>)>,
}

impl View for CredentialInfo {
    type V = CredentialInfoView;

    open spec fn view(&self) -> CredentialInfoView {
        CredentialInfoView {
            mechanism: self.mechanism,
            iterations: self.iterations,
            unknown_tagged_fields: views(self._unknown_tagged_fields@),
        }
    }
}

impl Clone for CredentialInfo {
    fn clone(&self) -> (r: Self)
        ensures
            r@ == self@,
    {
        let r = CredentialInfo {
            mechanism: self.mechanism,
            iterations: self.iterations,
            _unknown_tagged_fields: clone_vec(&self._unknown_tagged_fields),
        };
        assert(r@ =~= self@);
        r
    }
}

impl ViewClone for CredentialInfo {
    fn clone_view(&self) -> (r: Self) {
        self.clone()
    }
}

impl Default for CredentialInfo {
    fn default() -> (r: Self)
        ensures
            r@ == Self::default_view(),
    {
        let r = CredentialInfo {
            mechanism: 0_i8,
            iterations: 0_i32,
            _unknown_tagged_fields: empty_vec(),
        };
        assert(r@ =~= Self::default_view());
        r
    }
}

impl CredentialInfo {
    pub open spec fn default_view() -> CredentialInfoView {
        CredentialInfoView {
            mechanism: 0_i8,
            iterations: 0_i32,
            unknown_tagged_fields: Seq::empty(),
        }
    }

    /// The `mechanism` field, read from the front of `s`.
    #[verifier::opaque]
    pub open spec fn spec_read_mechanism(s: Seq<u8>, version: i16) -> ReadOutcome<i8> {
        spec_read_i8(s)
    }

    /// The `iterations` field, read from the front of `s`.
    #[verifier::opaque]
    pub open spec fn spec_read_iterations(s: Seq<u8>, version: i16) -> ReadOutcome<i32> {
        spec_read_i32(s)
    }

    /// The tagged fields, read from the front of `s`.
    #[verifier::opaque]
    pub open spec fn spec_read_tags(s: Seq<u8>, version: i16) -> ReadOutcome<Seq<(u32, Seq<u8>)>> {
        spec_read_tagged_fields(s)
    }

    pub open spec fn spec_read(s: Seq<u8>, version: i16) -> ReadOutcome<CredentialInfoView> {
        match (Self::spec_read_mechanism(s, version)) {
            Err(e) => Err(e),
            Ok((mechanism, s)) => match (Self::spec_read_iterations(s, version)) {
                Err(e) => Err(e),
                Ok((iterations, s)) => match (Self::spec_read_tags(s, version)) {
                    Err(e) => Err(e),
                    Ok((unknown_tagged_fields, s)) => Ok((CredentialInfoView {
                                mechanism: mechanism,
                                iterations: iterations,
                                unknown_tagged_fields: unknown_tagged_fields,
                            }, s)),
                },
            },
        }
    }

    /// What writing the `mechanism` field of `m` appends.
    #[verifier::opaque]
    pub open spec fn spec_write_mechanism(m: CredentialInfoView, version: i16) -> WriteOutcome {
        spec_write_i8(m.mechanism)
    }

    /// What writing the `iterations` field of `m` appends.
    #[verifier::opaque]
    pub open spec fn spec_write_iterations(m: CredentialInfoView, version: i16) -> WriteOutcome {
        spec_write_i32(m.iterations)
    }

    /// What writing the tagged fields of `m` appends.
    #[verifier::opaque]
    pub open spec fn spec_write_tags(m: CredentialInfoView, version: i16) -> WriteOutcome {
        spec_write_tagged_fields(sorted_by_tag(m.unknown_tagged_fields))
    }

    pub open spec fn spec_write(m: CredentialInfoView, version: i16) -> WriteOutcome {
        chain(
            chain(
                Self::spec_write_mechanism(m, version),
                Self::spec_write_iterations(m, version),
            ),
            Self::spec_write_tags(m, version),
        )
    }

    /// Whether reading back what writing `m` in `version` appends gives `m`:
    /// fields that the version does not carry hold their default values, and
    /// tagged fields come in the order in which they are written.
    pub open spec fn canonical(m: CredentialInfoView, version: i16) -> bool {
        &&& tags_in_order(m.unknown_tagged_fields)
    }

    proof fn lemma_round_trip_mechanism(m: CredentialInfoView, version: i16, rest: Seq<u8>)
        requires
            Self::canonical(m, version),
            Self::spec_write_mechanism(m, version) is Ok,
        ensures
            Self::spec_read_mechanism(written(Self::spec_write_mechanism(m, version)) + rest, version) == Ok::<(i8, Seq<u8>), Error>((m.mechanism, rest)),
    {
        reveal(CredentialInfo::spec_read_mechanism);
        reveal(CredentialInfo::spec_write_mechanism);
        lemma_i8_roundtrip(m.mechanism, rest);
    }

    proof fn lemma_round_trip_iterations(m: CredentialInfoView, version: i16, rest: Seq<u8>)
        requires
            Self::canonical(m, version),
            Self::spec_write_iterations(m, version) is Ok,
        ensures
            Self::spec_read_iterations(written(Self::spec_write_iterations(m, version)) + rest, version) == Ok::<(i32, Seq<u8>), Error>((m.iterations, rest)),
    {
        reveal(CredentialInfo::spec_read_iterations);
        reveal(CredentialInfo::spec_write_iterations);
        lemma_i32_roundtrip(m.iterations, rest);
    }

    proof fn lemma_round_trip_tags(m: CredentialInfoView, version: i16, rest: Seq<u8>)
        requires
            Self::canonical(m, version),
            Self::spec_write_tags(m, version) is Ok,
        ensures
            Self::spec_read_tags(written(Self::spec_write_tags(m, version)) + rest, version) == Ok::<(Seq<(u32, Seq<u8>)>, Seq<u8>), Error>((m.unknown_tagged_fields, rest)),
    {
        reveal(CredentialInfo::spec_read_tags);
        reveal(CredentialInfo::spec_write_tags);
        lemma_sorted_by_tag_in_order(m.unknown_tagged_fields);
        lemma_tagged_fields_round_trip(m.unknown_tagged_fields, rest);
    }

    /// Reading back what writing `m` in `version` appends gives `m` again, and
    /// leaves what follows, for every canonical message whose write succeeds.
    #[verifier::rlimit(70)]
    #[verifier::spinoff_prover]
    pub proof fn lemma_round_trip(m: CredentialInfoView, version: i16, rest: Seq<u8>)
        requires
            Self::canonical(m, version),
            Self::spec_write(m, version) is Ok,
        ensures
            Self::spec_read(written(Self::spec_write(m, version)) + rest, version) == Ok::<(CredentialInfoView, Seq<u8>), Error>((m, rest)),
    {
        let b0 = written(Self::spec_write_mechanism(m, version));
        let b1 = written(Self::spec_write_iterations(m, version));
        let b2 = written(Self::spec_write_tags(m, version));
        let t3 = rest;
        let t2 = b2 + t3;
        let t1 = b1 + t2;
        let t0 = b0 + t1;
        let w0 = Self::spec_write_mechanism(m, version);
        let w1 = chain(w0, Self::spec_write_iterations(m, version));
        let w2 = chain(w1, Self::spec_write_tags(m, version));
        assert(Self::spec_write(m, version) == w2);
        assert(written(w2) + t3 =~= written(w1) + t2);
        assert(written(w1) + t2 =~= written(w0) + t1);
        Self::lemma_round_trip_mechanism(m, version, t1);
        Self::lemma_round_trip_iterations(m, version, t2);
        Self::lemma_round_trip_tags(m, version, t3);
    }

    /// The default message holds the default value of each field of the schema.
    pub proof fn lemma_default_values()
        ensures
            Self::default_view().mechanism == (0_i8),
            Self::default_view().iterations == (0_i32),
            Self::default_view().unknown_tagged_fields.len() == 0,
    {
    }

    /// Each integer, boolean and identifier field is written as its standard
    /// big-endian bytes (a boolean as `1` or `0`) in the versions that carry
    /// it, and as nothing in the others; reading it takes those bytes back (any
    /// byte other than `0` reads as `true`), or gives its default value.
    pub proof fn lemma_field_encodings(m: CredentialInfoView, s: Seq<u8>, version: i16)
        ensures
            true ==> Self::spec_write_mechanism(m, version) == Ok::<Seq<u8>, (Error, Seq<u8>)>(seq![m.mechanism as u8]),
            true ==> Self::spec_write_iterations(m, version) == Ok::<Seq<u8>, (Error, Seq<u8>)>(u32_bytes(m.iterations as u32)),
            true ==> Self::spec_read_mechanism(s, version) == (if s.len() < 1 { Err(Error::UnexpectedEof) } else { Ok((s[0] as i8, s.drop_first())) }),
            true ==> Self::spec_read_iterations(s, version) == spec_read_i32(s),
    {
        reveal(CredentialInfo::spec_write_mechanism);
        reveal(CredentialInfo::spec_read_mechanism);
        reveal(CredentialInfo::spec_write_iterations);
        reveal(CredentialInfo::spec_read_iterations);
    }

    /// Whether writing `m` in `version` succeeds, said over its parts: the
    /// version is one the schema covers, every field that the version cannot
    /// carry holds its default value, and every string, byte string, array and
    /// tagged field fits its length prefix.
    pub open spec fn writable(m: CredentialInfoView, version: i16) -> bool {
        &&& m.unknown_tagged_fields.len() <= u32::MAX && tags_fit(m.unknown_tagged_fields)
    }

    proof fn lemma_writable_mechanism(m: CredentialInfoView, version: i16)
        ensures
            Self::spec_write_mechanism(m, version) is Ok <==> true,
    {
        reveal(CredentialInfo::spec_write_mechanism);
    }

    proof fn lemma_writable_iterations(m: CredentialInfoView, version: i16)
        ensures
            Self::spec_write_iterations(m, version) is Ok <==> true,
    {
        reveal(CredentialInfo::spec_write_iterations);
    }

    proof fn lemma_writable_tags(m: CredentialInfoView, version: i16)
        ensures
            Self::spec_write_tags(m, version) is Ok <==> m.unknown_tagged_fields.len() <= u32::MAX && tags_fit(m.unknown_tagged_fields),
    {
        reveal(CredentialInfo::spec_write_tags);
        lemma_sorted_tags_fit(m.unknown_tagged_fields);
        lemma_tagged_fields_writable(sorted_by_tag(m.unknown_tagged_fields));
    }

    /// Writing `m` in `version` succeeds exactly when `m` is writable in it;
    /// so do `write` and `encoded_len`, whose results follow `spec_write`.
    #[verifier::rlimit(48)]
    pub proof fn lemma_writable(m: CredentialInfoView, version: i16)
        ensures
            Self::spec_write(m, version) is Ok <==> Self::writable(m, version),
    {
        Self::lemma_writable_mechanism(m, version);
        Self::lemma_writable_iterations(m, version);
        Self::lemma_writable_tags(m, version);
    }

    pub fn with_mechanism(self, value: i8) -> (r: Self)
        ensures
            r@ == (CredentialInfoView { mechanism: value, ..self@ }),
    {
        let mut r = self;
        r.mechanism = value;
        r
    }

    pub fn with_iterations(self, value: i32) -> (r: Self)
        ensures
            r@ == (CredentialInfoView { iterations: value, ..self@ }),
    {
        let mut r = self;
        r.iterations = value;
        r
    }

    fn read_mechanism(buf: &mut Bytes, version: i16) -> (r: Result<i8, Error>)
        ensures
            read_as(Self::spec_read_mechanism(bytes_seq(*old(buf)), version), *final(buf), r),
            took_front(*old(buf), *final(buf)),
    {
        proof {
            reveal(CredentialInfo::spec_read_mechanism);
        }
        Ok(read_i8(buf)?)
    }

    fn read_iterations(buf: &mut Bytes, version: i16) -> (r: Result<i32, Error>)
        ensures
            read_as(Self::spec_read_iterations(bytes_seq(*old(buf)), version), *final(buf), r),
            took_front(*old(buf), *final(buf)),
    {
        proof {
            reveal(CredentialInfo::spec_read_iterations);
        }
        Ok(read_i32(buf)?)
    }

    fn read_tags(buf: &mut Bytes, version: i16) -> (r: Result<Vec<RawTaggedField>, Error>)
        ensures
            read_vec_as(Self::spec_read_tags(bytes_seq(*old(buf)), version), *final(buf), r),
            took_front(*old(buf), *final(buf)),
    {
        proof {
            reveal(CredentialInfo::spec_read_tags);
        }
        Ok(read_tagged_fields(buf)?)
    }

    pub fn read(buf: &mut Bytes, version: i16) -> (r: Result<Self, Error>)
        ensures
            read_as(Self::spec_read(bytes_seq(*old(buf)), version), *final(buf), r),
            took_front(*old(buf), *final(buf)),
    {
        let mechanism = Self::read_mechanism(buf, version)?;
        let iterations = Self::read_iterations(buf, version)?;
        let _unknown_tagged_fields = Self::read_tags(buf, version)?;
        Ok(CredentialInfo {
                mechanism: mechanism,
                iterations: iterations,
                _unknown_tagged_fields: _unknown_tagged_fields,
        })
    }

    #[verifier::rlimit(60)]
    pub fn write(&self, buf: &mut BytesMut, version: i16) -> (r: Result<(), Error>)
        requires
            has_room(Self::spec_write(self@, version), *old(buf)),
        ensures
            wrote(Self::spec_write(self@, version), *old(buf), *final(buf), r),
    {
        let ghost m = self@;
        proof {
            reveal(CredentialInfo::spec_write_mechanism);
            reveal(CredentialInfo::spec_write_iterations);
            reveal(CredentialInfo::spec_write_tags);
        }
        let ghost s0 = Self::spec_write_mechanism(m, version);
        let ghost w0 = s0;
        let ghost s1 = Self::spec_write_iterations(m, version);
        let ghost w1 = chain(w0, s1);
        let ghost s2 = Self::spec_write_tags(m, version);
        let ghost w2 = chain(w1, s2);
        assert(Self::spec_write(m, version) == w2);
        assert(written(w1).len() <= written(w2).len() && (w1 is Err ==> w2 == w1));
        assert(written(w0).len() <= written(w2).len() && (w0 is Err ==> w2 == w0));
        let ghost mid = bytes_mut_seq(*buf);
        proof {
            lemma_append_empty(mid);
        }
        let r0 = {
            write_i8(buf, self.mechanism);
            Ok(())
        };
        assert(bytes_mut_seq(*buf) == mid + written(s0));
        if r0.is_err() {
            return r0;
        }
        let ghost mid = bytes_mut_seq(*buf);
        proof {
            lemma_append_empty(mid);
        }
        let r1 = {
            write_i32(buf, self.iterations);
            Ok(())
        };
        assert(bytes_mut_seq(*buf) == mid + written(s1));
        proof {
            lemma_step(bytes_mut_seq(*old(buf)), w0, s1);
        }
        if r1.is_err() {
            return r1;
        }
        let ghost mid = bytes_mut_seq(*buf);
        proof {
            lemma_append_empty(mid);
        }
        let r2 = write_tagged_fields(buf, &sort_by_tag(&self._unknown_tagged_fields));
        assert(bytes_mut_seq(*buf) == mid + written(s2));
        proof {
            lemma_step(bytes_mut_seq(*old(buf)), w1, s2);
        }
        if r2.is_err() {
            return r2;
        }
        Ok(())
    }

    #[verifier::rlimit(60)]
    pub fn encoded_len(&self, version: i16) -> (r: Result<usize, Error>)
        ensures
            r == len_result(Self::spec_write(self@, version)),
    {
        let ghost m = self@;
        proof {
            reveal(CredentialInfo::spec_write_mechanism);
            reveal(CredentialInfo::spec_write_iterations);
            reveal(CredentialInfo::spec_write_tags);
        }
        let ghost s0 = Self::spec_write_mechanism(m, version);
        let ghost w0 = s0;
        let ghost s1 = Self::spec_write_iterations(m, version);
        let ghost w1 = chain(w0, s1);
        let ghost s2 = Self::spec_write_tags(m, version);
        let ghost w2 = chain(w1, s2);
        assert(Self::spec_write(m, version) == w2);
        assert(w1 is Err ==> w2 == w1);
        assert(w0 is Err ==> w2 == w0);
        let mut len: usize = 0;
        let l0 = Ok(1);
        assert(l0 == len_result(s0));
        let n0 = match l0 {
            Ok(n) => n,
            Err(e) => {
                return Err(e);
            },
        };
        len = saturating_sum(len, n0);
        assert(w0 is Ok && len == saturate(written(w0).len() as int));
        let l1 = Ok(4);
        assert(l1 == len_result(s1));
        let n1 = match l1 {
            Ok(n) => n,
            Err(e) => {
                return Err(e);
            },
        };
        proof {
            lemma_len_step(w0, s1, n1);
        }
        len = saturating_sum(len, n1);
        assert(w1 is Ok && len == saturate(written(w1).len() as int));
        let l2 = tagged_fields_len(&sort_by_tag(&self._unknown_tagged_fields));
        assert(l2 == len_result(s2));
        let n2 = match l2 {
            Ok(n) => n,
            Err(e) => {
                return Err(e);
            },
        };
        proof {
            lemma_len_step(w1, s2, n2);
        }
        len = saturating_sum(len, n2);
        assert(w2 is Ok && len == saturate(written(w2).len() as int));
        Ok(len)
    }
}

impl Codec for DescribeUserScramCredentialsResult {
    type Item = DescribeUserScramCredentialsResult;

    open spec fn spec_read_item(s: Seq<u8>, version: i16) -> ReadOutcome<DescribeUserScramCredentialsResultView> {
        DescribeUserScramCredentialsResult::spec_read(s, version)
    }

    open spec fn spec_write_item(v: DescribeUserScramCredentialsResultView, version: i16) -> WriteOutcome {
        DescribeUserScramCredentialsResult::spec_write(v, version)
    }

    open spec fn canonical_item(v: DescribeUserScramCredentialsResultView, version: i16) -> bool {
        DescribeUserScramCredentialsResult::canonical(v, version)
    }

    proof fn lemma_item_round_trip(v: DescribeUserScramCredentialsResultView, version: i16, rest: Seq<u8>) {
        DescribeUserScramCredentialsResult::lemma_round_trip(v, version, rest);
    }

    open spec fn writable_item(v: DescribeUserScramCredentialsResultView, version: i16) -> bool {
        DescribeUserScramCredentialsResult::writable(v, version)
    }

    proof fn lemma_item_writable(v: DescribeUserScramCredentialsResultView, version: i16) {
        DescribeUserScramCredentialsResult::lemma_writable(v, version);
    }

    fn read_item(buf: &mut Bytes, version: i16) -> (r: Result<DescribeUserScramCredentialsResult, Error>) {
        DescribeUserScramCredentialsResult::read(buf, version)
    }

    fn write_item(item: &DescribeUserScramCredentialsResult, buf: &mut BytesMut, version: i16) -> (r: Result<(), Error>) {
        item.write(buf, version)
    }
}

impl MeasuredCodec for DescribeUserScramCredentialsResult {
    fn item_len(item: &DescribeUserScramCredentialsResult, version: i16) -> (r: Result<usize, Error>) {
        item.encoded_len(version)
    }
}

impl Codec for CredentialInfo {
    type Item = CredentialInfo;

    open spec fn spec_read_item(s: Seq<u8>, version: i16) -> ReadOutcome<CredentialInfoView> {
        CredentialInfo::spec_read(s, version)
    }

    open spec fn spec_write_item(v: CredentialInfoView, version: i16) -> WriteOutcome {
        CredentialInfo::spec_write(v, version)
    }

    open spec fn canonical_item(v: CredentialInfoView, version: i16) -> bool {
        CredentialInfo::canonical(v, version)
    }

    proof fn lemma_item_round_trip(v: CredentialInfoView, version: i16, rest: Seq<u8>) {
        CredentialInfo::lemma_round_trip(v, version, rest);
    }

    open spec fn writable_item(v: CredentialInfoView, version: i16) -> bool {
        CredentialInfo::writable(v, version)
    }

    proof fn lemma_item_writable(v: CredentialInfoView, version: i16) {
        CredentialInfo::lemma_writable(v, version);
    }

    fn read_item(buf: &mut Bytes, version: i16) -> (r: Result<CredentialInfo, Error>) {
        CredentialInfo::read(buf, version)
    }

    fn write_item(item: &CredentialInfo, buf: &mut BytesMut, version: i16) -> (r: Result<(), Error>) {
        item.write(buf, version)
    }
}

impl MeasuredCodec for CredentialInfo {
    fn item_len(item: &CredentialInfo, version: i16) -> (r: Result<usize, Error>) {
        item.encoded_len(version)
    }
}

} // verus!
