//! The end txn response message.
use crate::buffer::{bytes_mut_seq, bytes_seq};
use crate::codec::{saturating_sum};
use crate::error::{Error, UnsupportedFieldVersion, UnsupportedVersion};
use crate::ints::{lemma_i16_roundtrip, lemma_i32_roundtrip, lemma_i64_roundtrip, read_i16, read_i32, read_i64, spec_read_i16, spec_read_i32, spec_read_i64, spec_write_i16, spec_write_i32, spec_write_i64, u16_bytes, u32_bytes, u64_bytes, write_i16, write_i32, write_i64};
use crate::tagged::{lemma_sorted_by_tag_in_order, lemma_sorted_tags_fit, lemma_tagged_fields_round_trip, lemma_tagged_fields_writable, read_tagged_fields, sort_by_tag, sorted_by_tag, spec_read_tagged_fields, spec_write_tagged_fields, tagged_fields_len, tags_fit, tags_in_order, write_tagged_fields};
use crate::types::{RawTaggedField};
use crate::wire::{ReadOutcome, ViewClone, WriteOutcome, chain, clone_vec, emit, empty_vec, fail, has_room, lemma_append_empty, lemma_chain_written, lemma_len_step, lemma_step, len_result, read_as, read_vec_as, saturate, took_front, views, written, wrote};
use bytes::{Bytes, BytesMut};
use vstd::prelude::*;

verus! {

broadcast use {crate::wire::lemma_chain_written, crate::wire::lemma_took_front_nothing, crate::wire::lemma_took_front_twice};

#[derive(Debug, PartialEq)]
pub struct EndTxnResponseData {
    /// The duration in milliseconds for which the request was throttled due to a quota violation,
    /// or zero if the request did not violate any quota.
    pub throttle_time_ms: i32,
    /// The error code, or 0 if there was no error.
    pub error_code: i16,
    /// The producer ID.
    pub producer_id: i64,
    /// The current epoch associated with the producer.
    pub producer_epoch: i16,
    pub _unknown_tagged_fields: Vec<RawTaggedField>,
}

/// What a `EndTxnResponseData` holds, as the specification sees it.
#[verifier::ext_equal]
pub struct EndTxnResponseDataView {
    pub throttle_time_ms: i32,
    pub error_code: i16,
    pub producer_id: i64,
    pub producer_epoch: i16,
    pub unknown_tagged_fields: Seq<(u32, Seq<u8>)>,
}

impl View for EndTxnResponseData {
    type V = EndTxnResponseDataView;

    open spec fn view(&self) -> EndTxnResponseDataView {
        EndTxnResponseDataView {
            throttle_time_ms: self.throttle_time_ms,
            error_code: self.error_code,
            producer_id: self.producer_id,
            producer_epoch: self.producer_epoch,
            unknown_tagged_fields: views(self._unknown_tagged_fields@),
        }
    }
}

impl Clone for EndTxnResponseData {
    fn clone(&self) -> (r: Self)
        ensures
            r@ == self@,
    {
        let r = EndTxnResponseData {
            throttle_time_ms: self.throttle_time_ms,
            error_code: self.error_code,
            producer_id: self.producer_id,
            producer_epoch: self.producer_epoch,
            _unknown_tagged_fields: clone_vec(&self._unknown_tagged_fields),
        };
        assert(r@ =~= self@);
        r
    }
}

impl ViewClone for EndTxnResponseData {
    fn clone_view(&self) -> (r: Self) {
        self.clone()
    }
}

impl Default for EndTxnResponseData {
    fn default() -> (r: Self)
        ensures
            r@ == Self::default_view(),
    {
        let r = EndTxnResponseData {
            throttle_time_ms: 0_i32,
            error_code: 0_i16,
            producer_id: -1i64,
            producer_epoch: -1i16,
            _unknown_tagged_fields: empty_vec(),
        };
        assert(r@ =~= Self::default_view());
        r
    }
}

impl EndTxnResponseData {
    pub open spec fn default_view() -> EndTxnResponseDataView {
        EndTxnResponseDataView {
            throttle_time_ms: 0_i32,
            error_code: 0_i16,
            producer_id: -1i64,
            producer_epoch: -1i16,
            unknown_tagged_fields: Seq::empty(),
        }
    }

    /// The `throttle_time_ms` field, read from the front of `s`.
    #[verifier::opaque]
    pub open spec fn spec_read_throttle_time_ms(s: Seq<u8>, version: i16) -> ReadOutcome<i32> {
        spec_read_i32(s)
    }

    /// The `error_code` field, read from the front of `s`.
    #[verifier::opaque]
    pub open spec fn spec_read_error_code(s: Seq<u8>, version: i16) -> ReadOutcome<i16> {
        spec_read_i16(s)
    }

    /// The `producer_id` field, read from the front of `s`.
    #[verifier::opaque]
    pub open spec fn spec_read_producer_id(s: Seq<u8>, version: i16) -> ReadOutcome<i64> {
        if version >= 5 {
            spec_read_i64(s)
        } else {
            Ok((-1i64, s))
        }
    }

    /// The `producer_epoch` field, read from the front of `s`.
    #[verifier::opaque]
    pub open spec fn spec_read_producer_epoch(s: Seq<u8>, version: i16) -> ReadOutcome<i16> {
        if version >= 5 {
            spec_read_i16(s)
        } else {
            Ok((-1i16, s))
        }
    }

    /// The tagged fields, read from the front of `s`.
    #[verifier::opaque]
    pub open spec fn spec_read_tags(s: Seq<u8>, version: i16) -> ReadOutcome<Seq<(u32, Seq<u8>)>> {
        if version >= 3 {
            spec_read_tagged_fields(s)
        } else {
            Ok((Seq::empty(), s))
        }
    }

    pub open spec fn spec_read(s: Seq<u8>, version: i16) -> ReadOutcome<EndTxnResponseDataView> {
        if version < 0 || version > 5 {
            Err(Error::UnsupportedVersion(UnsupportedVersion { api_key: 26, version }))
        } else {
            match (Self::spec_read_throttle_time_ms(s, version)) {
                Err(e) => Err(e),
                Ok((throttle_time_ms, s)) => match (Self::spec_read_error_code(s, version)) {
                    Err(e) => Err(e),
                    Ok((error_code, s)) => match (Self::spec_read_producer_id(s, version)) {
                        Err(e) => Err(e),
                        Ok((producer_id, s)) => match (Self::spec_read_producer_epoch(s, version)) {
                            Err(e) => Err(e),
                            Ok((producer_epoch, s)) => match (Self::spec_read_tags(s, version)) {
                                Err(e) => Err(e),
                                Ok((unknown_tagged_fields, s)) => Ok((EndTxnResponseDataView {
                                            throttle_time_ms: throttle_time_ms,
                                            error_code: error_code,
                                            producer_id: producer_id,
                                            producer_epoch: producer_epoch,
                                            unknown_tagged_fields: unknown_tagged_fields,
                                        }, s)),
                            },
                        },
                    },
                },
            }
        }
    }

    /// What writing the `throttle_time_ms` field of `m` appends.
    #[verifier::opaque]
    pub open spec fn spec_write_throttle_time_ms(m: EndTxnResponseDataView, version: i16) -> WriteOutcome {
        spec_write_i32(m.throttle_time_ms)
    }

    /// What writing the `error_code` field of `m` appends.
    #[verifier::opaque]
    pub open spec fn spec_write_error_code(m: EndTxnResponseDataView, version: i16) -> WriteOutcome {
        spec_write_i16(m.error_code)
    }

    /// What writing the `producer_id` field of `m` appends.
    #[verifier::opaque]
    pub open spec fn spec_write_producer_id(m: EndTxnResponseDataView, version: i16) -> WriteOutcome {
        if version >= 5 {
            spec_write_i64(m.producer_id)
        } else {
            if m.producer_id != -1i64 {
                fail(Error::UnsupportedFieldVersion(UnsupportedFieldVersion { api_key: 26, field: "producer_id", version }))
            } else {
                emit(Seq::empty())
            }
        }
    }

    /// What writing the `producer_epoch` field of `m` appends.
    #[verifier::opaque]
    pub open spec fn spec_write_producer_epoch(m: EndTxnResponseDataView, version: i16) -> WriteOutcome {
        if version >= 5 {
            spec_write_i16(m.producer_epoch)
        } else {
            if m.producer_epoch != -1i16 {
                fail(Error::UnsupportedFieldVersion(UnsupportedFieldVersion { api_key: 26, field: "producer_epoch", version }))
            } else {
                emit(Seq::empty())
            }
        }
    }

    /// What writing the tagged fields of `m` appends.
    #[verifier::opaque]
    pub open spec fn spec_write_tags(m: EndTxnResponseDataView, version: i16) -> WriteOutcome {
        if version >= 3 {
            spec_write_tagged_fields(sorted_by_tag(m.unknown_tagged_fields))
        } else {
            emit(Seq::empty())
        }
    }

    pub open spec fn spec_write(m: EndTxnResponseDataView, version: i16) -> WriteOutcome {
        if version < 0 || version > 5 {
            fail(Error::UnsupportedVersion(UnsupportedVersion { api_key: 26, version }))
        } else {
            chain(
                chain(
                    chain(
                        chain(
                            Self::spec_write_throttle_time_ms(m, version),
                            Self::spec_write_error_code(m, version),
                        ),
                        Self::spec_write_producer_id(m, version),
                    ),
                    Self::spec_write_producer_epoch(m, version),
                ),
                Self::spec_write_tags(m, version),
            )
        }
    }

    /// Whether reading back what writing `m` in `version` appends gives `m`:
    /// fields that the version does not carry hold their default values, and
    /// tagged fields come in the order in which they are written.
    pub open spec fn canonical(m: EndTxnResponseDataView, version: i16) -> bool {
        &&& (if version >= 3 {
                tags_in_order(m.unknown_tagged_fields)
            } else {
                m.unknown_tagged_fields.len() == 0
        })
    }

    proof fn lemma_round_trip_throttle_time_ms(m: EndTxnResponseDataView, version: i16, rest: Seq<u8>)
        requires
            Self::canonical(m, version),
            Self::spec_write_throttle_time_ms(m, version) is Ok,
        ensures
            Self::spec_read_throttle_time_ms(written(Self::spec_write_throttle_time_ms(m, version)) + rest, version) == Ok::<(i32, Seq<u8>), Error>((m.throttle_time_ms, rest)),
    {
        reveal(EndTxnResponseData::spec_read_throttle_time_ms);
        reveal(EndTxnResponseData::spec_write_throttle_time_ms);
        lemma_i32_roundtrip(m.throttle_time_ms, rest);
    }

    proof fn lemma_round_trip_error_code(m: EndTxnResponseDataView, version: i16, rest: Seq<u8>)
        requires
            Self::canonical(m, version),
            Self::spec_write_error_code(m, version) is Ok,
        ensures
            Self::spec_read_error_code(written(Self::spec_write_error_code(m, version)) + rest, version) == Ok::<(i16, Seq<u8>), Error>((m.error_code, rest)),
    {
        reveal(EndTxnResponseData::spec_read_error_code);
        reveal(EndTxnResponseData::spec_write_error_code);
        lemma_i16_roundtrip(m.error_code, rest);
    }

    proof fn lemma_round_trip_producer_id(m: EndTxnResponseDataView, version: i16, rest: Seq<u8>)
        requires
            Self::canonical(m, version),
            Self::spec_write_producer_id(m, version) is Ok,
        ensures
            Self::spec_read_producer_id(written(Self::spec_write_producer_id(m, version)) + rest, version) == Ok::<(i64, Seq<u8>), Error>((m.producer_id, rest)),
    {
        reveal(EndTxnResponseData::spec_read_producer_id);
        reveal(EndTxnResponseData::spec_write_producer_id);
        if version >= 5 {
            lemma_i64_roundtrip(m.producer_id, rest);
        } else {
            assert(Seq::<u8>::empty() + rest =~= rest);
        }
    }

    proof fn lemma_round_trip_producer_epoch(m: EndTxnResponseDataView, version: i16, rest: Seq<u8>)
        requires
            Self::canonical(m, version),
            Self::spec_write_producer_epoch(m, version) is Ok,
        ensures
            Self::spec_read_producer_epoch(written(Self::spec_write_producer_epoch(m, version)) + rest, version) == Ok::<(i16, Seq<u8>), Error>((m.producer_epoch, rest)),
    {
        reveal(EndTxnResponseData::spec_read_producer_epoch);
        reveal(EndTxnResponseData::spec_write_producer_epoch);
        if version >= 5 {
            lemma_i16_roundtrip(m.producer_epoch, rest);
        } else {
            assert(Seq::<u8>::empty() + rest =~= rest);
        }
    }

    proof fn lemma_round_trip_tags(m: EndTxnResponseDataView, version: i16, rest: Seq<u8>)
        requires
            Self::canonical(m, version),
            Self::spec_write_tags(m, version) is Ok,
        ensures
            Self::spec_read_tags(written(Self::spec_write_tags(m, version)) + rest, version) == Ok::<(Seq<(u32, Seq<u8>)>, Seq<u8>), Error>((m.unknown_tagged_fields, rest)),
    {
        reveal(EndTxnResponseData::spec_read_tags);
        reveal(EndTxnResponseData::spec_write_tags);
        if version >= 3 {
            lemma_sorted_by_tag_in_order(m.unknown_tagged_fields);
            lemma_tagged_fields_round_trip(m.unknown_tagged_fields, rest);
        } else {
            assert(Seq::<u8>::empty() + rest =~= rest);
            assert(m.unknown_tagged_fields =~= Seq::empty());
        }
    }

    /// Reading back what writing `m` in `version` appends gives `m` again, and
    /// leaves what follows, for every canonical message whose write succeeds.
    #[verifier::rlimit(90)]
    #[verifier::spinoff_prover]
    pub proof fn lemma_round_trip(m: EndTxnResponseDataView, version: i16, rest: Seq<u8>)
        requires
            Self::canonical(m, version),
            Self::spec_write(m, version) is Ok,
        ensures
            Self::spec_read(written(Self::spec_write(m, version)) + rest, version) == Ok::<(EndTxnResponseDataView, Seq<u8>), Error>((m, rest)),
    {
        let b0 = written(Self::spec_write_throttle_time_ms(m, version));
        let b1 = written(Self::spec_write_error_code(m, version));
        let b2 = written(Self::spec_write_producer_id(m, version));
        let b3 = written(Self::spec_write_producer_epoch(m, version));
        let b4 = written(Self::spec_write_tags(m, version));
        let t5 = rest;
        let t4 = b4 + t5;
        let t3 = b3 + t4;
        let t2 = b2 + t3;
        let t1 = b1 + t2;
        let t0 = b0 + t1;
        let w0 = Self::spec_write_throttle_time_ms(m, version);
        let w1 = chain(w0, Self::spec_write_error_code(m, version));
        let w2 = chain(w1, Self::spec_write_producer_id(m, version));
        let w3 = chain(w2, Self::spec_write_producer_epoch(m, version));
        let w4 = chain(w3, Self::spec_write_tags(m, version));
        assert(Self::spec_write(m, version) == w4);
        assert(written(w4) + t5 =~= written(w3) + t4);
        assert(written(w3) + t4 =~= written(w2) + t3);
        assert(written(w2) + t3 =~= written(w1) + t2);
        assert(written(w1) + t2 =~= written(w0) + t1);
        Self::lemma_round_trip_throttle_time_ms(m, version, t1);
        Self::lemma_round_trip_error_code(m, version, t2);
        Self::lemma_round_trip_producer_id(m, version, t3);
        Self::lemma_round_trip_producer_epoch(m, version, t4);
        Self::lemma_round_trip_tags(m, version, t5);
    }

    /// In a version that does not carry `unknown_tagged_fields`, writing ignores its value.
    pub proof fn lemma_write_ignores_unknown_tagged_fields(m: EndTxnResponseDataView, value: Seq<(u32, Seq<u8>)>, version: i16)
        requires
            !(version >= 3),
        ensures
            Self::spec_write((EndTxnResponseDataView { unknown_tagged_fields: value, ..m }), version) == Self::spec_write(m, version),
    {
        reveal(EndTxnResponseData::spec_write_throttle_time_ms);
        reveal(EndTxnResponseData::spec_write_error_code);
        reveal(EndTxnResponseData::spec_write_producer_id);
        reveal(EndTxnResponseData::spec_write_producer_epoch);
        reveal(EndTxnResponseData::spec_write_tags);
    }

    /// The default message holds the default value of each field of the schema.
    pub proof fn lemma_default_values()
        ensures
            Self::default_view().throttle_time_ms == (0_i32),
            Self::default_view().error_code == (0_i16),
            Self::default_view().producer_id == (-1i64),
            Self::default_view().producer_epoch == (-1i16),
            Self::default_view().unknown_tagged_fields.len() == 0,
    {
    }

    /// Each integer, boolean and identifier field is written as its standard
    /// big-endian bytes (a boolean as `1` or `0`) in the versions that carry
    /// it, and as nothing in the others; reading it takes those bytes back (any
    /// byte other than `0` reads as `true`), or gives its default value.
    pub proof fn lemma_field_encodings(m: EndTxnResponseDataView, s: Seq<u8>, version: i16)
        ensures
            true ==> Self::spec_write_throttle_time_ms(m, version) == Ok::<Seq<u8>, (Error, Seq<u8>)>(u32_bytes(m.throttle_time_ms as u32)),
            true ==> Self::spec_write_error_code(m, version) == Ok::<Seq<u8>, (Error, Seq<u8>)>(u16_bytes(m.error_code as u16)),
            version >= 5 ==> Self::spec_write_producer_id(m, version) == Ok::<Seq<u8>, (Error, Seq<u8>)>(u64_bytes(m.producer_id as u64)),
            version >= 5 ==> Self::spec_write_producer_epoch(m, version) == Ok::<Seq<u8>, (Error, Seq<u8>)>(u16_bytes(m.producer_epoch as u16)),
            true ==> Self::spec_read_throttle_time_ms(s, version) == spec_read_i32(s),
            true ==> Self::spec_read_error_code(s, version) == spec_read_i16(s),
            version >= 5 ==> Self::spec_read_producer_id(s, version) == spec_read_i64(s),
            !(version >= 5) ==> Self::spec_read_producer_id(s, version) == Ok::<(i64, Seq<u8>), Error>((-1i64, s)),
            version >= 5 ==> Self::spec_read_producer_epoch(s, version) == spec_read_i16(s),
            !(version >= 5) ==> Self::spec_read_producer_epoch(s, version) == Ok::<(i16, Seq<u8>), Error>((-1i16, s)),
    {
        reveal(EndTxnResponseData::spec_write_throttle_time_ms);
        reveal(EndTxnResponseData::spec_read_throttle_time_ms);
        reveal(EndTxnResponseData::spec_write_error_code);
        reveal(EndTxnResponseData::spec_read_error_code);
        reveal(EndTxnResponseData::spec_write_producer_id);
        reveal(EndTxnResponseData::spec_read_producer_id);
        reveal(EndTxnResponseData::spec_write_producer_epoch);
        reveal(EndTxnResponseData::spec_read_producer_epoch);
    }

    /// Whether writing `m` in `version` succeeds, said over its parts: the
    /// version is one the schema covers, every field that the version cannot
    /// carry holds its default value, and every string, byte string, array and
    /// tagged field fits its length prefix.
    pub open spec fn writable(m: EndTxnResponseDataView, version: i16) -> bool {
        &&& 0 <= version <= 5
        &&& (if version >= 5 {
                true
            } else {
                !(m.producer_id != -1i64)
        })
        &&& (if version >= 5 {
                true
            } else {
                !(m.producer_epoch != -1i16)
        })
        &&& (if version >= 3 {
                m.unknown_tagged_fields.len() <= u32::MAX && tags_fit(m.unknown_tagged_fields)
            } else {
                true
        })
    }

    proof fn lemma_writable_throttle_time_ms(m: EndTxnResponseDataView, version: i16)
        ensures
            Self::spec_write_throttle_time_ms(m, version) is Ok <==> true,
    {
        reveal(EndTxnResponseData::spec_write_throttle_time_ms);
    }

    proof fn lemma_writable_error_code(m: EndTxnResponseDataView, version: i16)
        ensures
            Self::spec_write_error_code(m, version) is Ok <==> true,
    {
        reveal(EndTxnResponseData::spec_write_error_code);
    }

    proof fn lemma_writable_producer_id(m: EndTxnResponseDataView, version: i16)
        ensures
            Self::spec_write_producer_id(m, version) is Ok <==> (if version >= 5 { true } else { !(m.producer_id != -1i64) }),
    {
        reveal(EndTxnResponseData::spec_write_producer_id);
    }

    proof fn lemma_writable_producer_epoch(m: EndTxnResponseDataView, version: i16)
        ensures
            Self::spec_write_producer_epoch(m, version) is Ok <==> (if version >= 5 { true } else { !(m.producer_epoch != -1i16) }),
    {
        reveal(EndTxnResponseData::spec_write_producer_epoch);
    }

    proof fn lemma_writable_tags(m: EndTxnResponseDataView, version: i16)
        ensures
            Self::spec_write_tags(m, version) is Ok <==> (if version >= 3 { m.unknown_tagged_fields.len() <= u32::MAX && tags_fit(m.unknown_tagged_fields) } else { true }),
    {
        reveal(EndTxnResponseData::spec_write_tags);
        if version >= 3 {
            lemma_sorted_tags_fit(m.unknown_tagged_fields);
            lemma_tagged_fields_writable(sorted_by_tag(m.unknown_tagged_fields));
        }
    }

    /// Writing `m` in `version` succeeds exactly when `m` is writable in it;
    /// so do `write` and `encoded_len`, whose results follow `spec_write`.
    #[verifier::rlimit(60)]
    pub proof fn lemma_writable(m: EndTxnResponseDataView, version: i16)
        ensures
            Self::spec_write(m, version) is Ok <==> Self::writable(m, version),
    {
        Self::lemma_writable_throttle_time_ms(m, version);
        Self::lemma_writable_error_code(m, version);
        Self::lemma_writable_producer_id(m, version);
        Self::lemma_writable_producer_epoch(m, version);
        Self::lemma_writable_tags(m, version);
    }

    /// A version outside the range that the schema covers is refused, by
    /// reads and by writes alike, before anything is read or written.
    pub proof fn lemma_refused_version(m: EndTxnResponseDataView, s: Seq<u8>, version: i16)
        requires
            version < 0 || version > 5,
        ensures
            Self::spec_read(s, version) == Err::<(EndTxnResponseDataView, Seq<u8>), Error>(Error::UnsupportedVersion(UnsupportedVersion { api_key: 26, version })),
            Self::spec_write(m, version) == fail(Error::UnsupportedVersion(UnsupportedVersion { api_key: 26, version })),
    {
    }

    pub fn with_throttle_time_ms(self, value: i32) -> (r: Self)
        ensures
            r@ == (EndTxnResponseDataView { throttle_time_ms: value, ..self@ }),
    {
        let mut r = self;
        r.throttle_time_ms = value;
        r
    }

    pub fn with_error_code(self, value: i16) -> (r: Self)
        ensures
            r@ == (EndTxnResponseDataView { error_code: value, ..self@ }),
    {
        let mut r = self;
        r.error_code = value;
        r
    }

    pub fn with_producer_id(self, value: i64) -> (r: Self)
        ensures
            r@ == (EndTxnResponseDataView { producer_id: value, ..self@ }),
    {
        let mut r = self;
        r.producer_id = value;
        r
    }

    pub fn with_producer_epoch(self, value: i16) -> (r: Self)
        ensures
            r@ == (EndTxnResponseDataView { producer_epoch: value, ..self@ }),
    {
        let mut r = self;
        r.producer_epoch = value;
        r
    }

    fn read_throttle_time_ms(buf: &mut Bytes, version: i16) -> (r: Result<i32, Error>)
        ensures
            read_as(Self::spec_read_throttle_time_ms(bytes_seq(*old(buf)), version), *final(buf), r),
            took_front(*old(buf), *final(buf)),
    {
        proof {
            reveal(EndTxnResponseData::spec_read_throttle_time_ms);
        }
        Ok(read_i32(buf)?)
    }

    fn read_error_code(buf: &mut Bytes, version: i16) -> (r: Result<i16, Error>)
        ensures
            read_as(Self::spec_read_error_code(bytes_seq(*old(buf)), version), *final(buf), r),
            took_front(*old(buf), *final(buf)),
    {
        proof {
            reveal(EndTxnResponseData::spec_read_error_code);
        }
        Ok(read_i16(buf)?)
    }

    fn read_producer_id(buf: &mut Bytes, version: i16) -> (r: Result<i64, Error>)
        ensures
            read_as(Self::spec_read_producer_id(bytes_seq(*old(buf)), version), *final(buf), r),
            took_front(*old(buf), *final(buf)),
    {
        proof {
            reveal(EndTxnResponseData::spec_read_producer_id);
        }
        Ok(if version >= 5 {
                read_i64(buf)?
            } else {
                -1i64
        })
    }

    fn read_producer_epoch(buf: &mut Bytes, version: i16) -> (r: Result<i16, Error>)
        ensures
            read_as(Self::spec_read_producer_epoch(bytes_seq(*old(buf)), version), *final(buf), r),
            took_front(*old(buf), *final(buf)),
    {
        proof {
            reveal(EndTxnResponseData::spec_read_producer_epoch);
        }
        Ok(if version >= 5 {
                read_i16(buf)?
            } else {
                -1i16
        })
    }

    fn read_tags(buf: &mut Bytes, version: i16) -> (r: Result<Vec<RawTaggedField>, Error>)
        ensures
            read_vec_as(Self::spec_read_tags(bytes_seq(*old(buf)), version), *final(buf), r),
            took_front(*old(buf), *final(buf)),
    {
        proof {
            reveal(EndTxnResponseData::spec_read_tags);
        }
        Ok(if version >= 3 {
                read_tagged_fields(buf)?
            } else {
                empty_vec()
        })
    }

    pub fn read(buf: &mut Bytes, version: i16) -> (r: Result<Self, Error>)
        ensures
            read_as(Self::spec_read(bytes_seq(*old(buf)), version), *final(buf), r),
            took_front(*old(buf), *final(buf)),
            (version < 0 || version > 5) ==> bytes_seq(*final(buf)) == bytes_seq(*old(buf)),
    {
        if version < 0 || version > 5 {
            return Err(Error::UnsupportedVersion(UnsupportedVersion::new(26, version)));
        }
        let throttle_time_ms = Self::read_throttle_time_ms(buf, version)?;
        let error_code = Self::read_error_code(buf, version)?;
        let producer_id = Self::read_producer_id(buf, version)?;
        let producer_epoch = Self::read_producer_epoch(buf, version)?;
        let _unknown_tagged_fields = Self::read_tags(buf, version)?;
        Ok(EndTxnResponseData {
                throttle_time_ms: throttle_time_ms,
                error_code: error_code,
                producer_id: producer_id,
                producer_epoch: producer_epoch,
                _unknown_tagged_fields: _unknown_tagged_fields,
        })
    }

    #[verifier::rlimit(80)]
    pub fn write(&self, buf: &mut BytesMut, version: i16) -> (r: Result<(), Error>)
        requires
            has_room(Self::spec_write(self@, version), *old(buf)),
        ensures
            wrote(Self::spec_write(self@, version), *old(buf), *final(buf), r),
    {
        if version < 0 || version > 5 {
            return Err(Error::UnsupportedVersion(UnsupportedVersion::new(26, version)));
        }
        let ghost m = self@;
        proof {
            reveal(EndTxnResponseData::spec_write_throttle_time_ms);
            reveal(EndTxnResponseData::spec_write_error_code);
            reveal(EndTxnResponseData::spec_write_producer_id);
            reveal(EndTxnResponseData::spec_write_producer_epoch);
            reveal(EndTxnResponseData::spec_write_tags);
        }
        let ghost s0 = Self::spec_write_throttle_time_ms(m, version);
        let ghost w0 = s0;
        let ghost s1 = Self::spec_write_error_code(m, version);
        let ghost w1 = chain(w0, s1);
        let ghost s2 = Self::spec_write_producer_id(m, version);
        let ghost w2 = chain(w1, s2);
        let ghost s3 = Self::spec_write_producer_epoch(m, version);
        let ghost w3 = chain(w2, s3);
        let ghost s4 = Self::spec_write_tags(m, version);
        let ghost w4 = chain(w3, s4);
        assert(Self::spec_write(m, version) == w4);
        assert(written(w3).len() <= written(w4).len() && (w3 is Err ==> w4 == w3));
        assert(written(w2).len() <= written(w4).len() && (w2 is Err ==> w4 == w2));
        assert(written(w1).len() <= written(w4).len() && (w1 is Err ==> w4 == w1));
        assert(written(w0).len() <= written(w4).len() && (w0 is Err ==> w4 == w0));
        let ghost mid = bytes_mut_seq(*buf);
        proof {
            lemma_append_empty(mid);
        }
        let r0 = {
            write_i32(buf, self.throttle_time_ms);
            Ok(())
        };
        assert(bytes_mut_seq(*buf) == mid + written(s0));
        if r0.is_err() {
            return r0;
        }
        let ghost mid = bytes_mut_seq(*buf);
        proof {
            lemma_append_empty(mid);
        }
        let r1 = {
            write_i16(buf, self.error_code);
            Ok(())
        };
        assert(bytes_mut_seq(*buf) == mid + written(s1));
        proof {
            lemma_step(bytes_mut_seq(*old(buf)), w0, s1);
        }
        if r1.is_err() {
            return r1;
        }
        let ghost mid = bytes_mut_seq(*buf);
        proof {
            lemma_append_empty(mid);
        }
        let r2 = if version >= 5 {
            {
                write_i64(buf, self.producer_id);
                Ok(())
            }
        } else {
            if self.producer_id != -1i64 {
                Err(Error::UnsupportedFieldVersion(UnsupportedFieldVersion::new(26, "producer_id", version)))
            } else {
                Ok(())
            }
        };
        assert(bytes_mut_seq(*buf) == mid + written(s2));
        proof {
            lemma_step(bytes_mut_seq(*old(buf)), w1, s2);
        }
        if r2.is_err() {
            return r2;
        }
        let ghost mid = bytes_mut_seq(*buf);
        proof {
            lemma_append_empty(mid);
        }
        let r3 = if version >= 5 {
            {
                write_i16(buf, self.producer_epoch);
                Ok(())
            }
        } else {
            if self.producer_epoch != -1i16 {
                Err(Error::UnsupportedFieldVersion(UnsupportedFieldVersion::new(26, "producer_epoch", version)))
            } else {
                Ok(())
            }
        };
        assert(bytes_mut_seq(*buf) == mid + written(s3));
        proof {
            lemma_step(bytes_mut_seq(*old(buf)), w2, s3);
        }
        if r3.is_err() {
            return r3;
        }
        let ghost mid = bytes_mut_seq(*buf);
        proof {
            lemma_append_empty(mid);
        }
        let r4 = if version >= 3 {
            write_tagged_fields(buf, &sort_by_tag(&self._unknown_tagged_fields))
        } else {
            Ok(())
        };
        assert(bytes_mut_seq(*buf) == mid + written(s4));
        proof {
            lemma_step(bytes_mut_seq(*old(buf)), w3, s4);
        }
        if r4.is_err() {
            return r4;
        }
        Ok(())
    }

    #[verifier::rlimit(80)]
    pub fn encoded_len(&self, version: i16) -> (r: Result<usize, Error>)
        ensures
            r == len_result(Self::spec_write(self@, version)),
    {
        if version < 0 || version > 5 {
            return Err(Error::UnsupportedVersion(UnsupportedVersion::new(26, version)));
        }
        let ghost m = self@;
        proof {
            reveal(EndTxnResponseData::spec_write_throttle_time_ms);
            reveal(EndTxnResponseData::spec_write_error_code);
            reveal(EndTxnResponseData::spec_write_producer_id);
            reveal(EndTxnResponseData::spec_write_producer_epoch);
            reveal(EndTxnResponseData::spec_write_tags);
        }
        let ghost s0 = Self::spec_write_throttle_time_ms(m, version);
        let ghost w0 = s0;
        let ghost s1 = Self::spec_write_error_code(m, version);
        let ghost w1 = chain(w0, s1);
        let ghost s2 = Self::spec_write_producer_id(m, version);
        let ghost w2 = chain(w1, s2);
        let ghost s3 = Self::spec_write_producer_epoch(m, version);
        let ghost w3 = chain(w2, s3);
        let ghost s4 = Self::spec_write_tags(m, version);
        let ghost w4 = chain(w3, s4);
        assert(Self::spec_write(m, version) == w4);
        assert(w3 is Err ==> w4 == w3);
        assert(w2 is Err ==> w4 == w2);
        assert(w1 is Err ==> w4 == w1);
        assert(w0 is Err ==> w4 == w0);
        let mut len: usize = 0;
        let l0 = Ok(4);
        assert(l0 == len_result(s0));
        let n0 = match l0 {
            Ok(n) => n,
            Err(e) => {
                return Err(e);
            },
        };
        len = saturating_sum(len, n0);
        assert(w0 is Ok && len == saturate(written(w0).len() as int));
        let l1 = Ok(2);
        assert(l1 == len_result(s1));
        let n1 = match l1 {
            Ok(n) => n,
            Err(e) => {
                return Err(e);
            },
        };
        proof {
            lemma_len_step(w0, s1, n1);
        }
        len = saturating_sum(len, n1);
        assert(w1 is Ok && len == saturate(written(w1).len() as int));
        let l2 = if version >= 5 {
            Ok(8)
        } else {
            if self.producer_id != -1i64 {
                Err(Error::UnsupportedFieldVersion(UnsupportedFieldVersion::new(26, "producer_id", version)))
            } else {
                Ok(0)
            }
        };
        assert(l2 == len_result(s2));
        let n2 = match l2 {
            Ok(n) => n,
            Err(e) => {
                return Err(e);
            },
        };
        proof {
            lemma_len_step(w1, s2, n2);
        }
        len = saturating_sum(len, n2);
        assert(w2 is Ok && len == saturate(written(w2).len() as int));
        let l3 = if version >= 5 {
            Ok(2)
        } else {
            if self.producer_epoch != -1i16 {
                Err(Error::UnsupportedFieldVersion(UnsupportedFieldVersion::new(26, "producer_epoch", version)))
            } else {
                Ok(0)
            }
        };
        assert(l3 == len_result(s3));
        let n3 = match l3 {
            Ok(n) => n,
            Err(e) => {
                return Err(e);
            },
        };
        proof {
            lemma_len_step(w2, s3, n3);
        }
        len = saturating_sum(len, n3);
        assert(w3 is Ok && len == saturate(written(w3).len() as int));
        let l4 = if version >= 3 {
            tagged_fields_len(&sort_by_tag(&self._unknown_tagged_fields))
        } else {
            Ok(0)
        };
        assert(l4 == len_result(s4));
        let n4 = match l4 {
            Ok(n) => n,
            Err(e) => {
                return Err(e);
            },
        };
        proof {
            lemma_len_step(w3, s4, n4);
        }
        len = saturating_sum(len, n4);
        assert(w4 is Ok && len == saturate(written(w4).len() as int));
        Ok(len)
    }
}

} // verus!
