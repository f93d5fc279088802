//! The delete topics response message.
use crate::buffer::{bytes_mut_seq, bytes_seq};
use crate::codec::{Codec, all_canonical, all_writable, lemma_array_round_trip, lemma_array_writable, read_array, spec_read_array, spec_write_array, write_array};
use crate::error::{Error, UnsupportedVersion};
use crate::ints::{lemma_i16_roundtrip, lemma_i32_roundtrip, read_i16, read_i32, spec_read_i16, spec_read_i32, spec_write_i16, spec_write_i32, u16_bytes, u32_bytes, u64_bytes, write_i16, write_i32};
use crate::strings::{lemma_compact_nullable_string_round_trip, lemma_compact_string_round_trip, lemma_string_round_trip, lemma_uuid_round_trip, read_compact_nullable_string, read_compact_string, read_string, read_uuid, spec_read_compact_nullable_string, spec_read_compact_string, spec_read_string, spec_read_uuid, spec_write_compact_nullable_string, spec_write_compact_string, spec_write_string, spec_write_uuid, write_compact_nullable_string, write_compact_string, write_string, write_uuid};
use crate::tagged::{lemma_sorted_by_tag_in_order, lemma_sorted_tags_fit, lemma_tagged_fields_round_trip, lemma_tagged_fields_writable, read_tagged_fields, sort_by_tag, sorted_by_tag, spec_read_tagged_fields, spec_write_tagged_fields, tags_fit, tags_in_order, write_tagged_fields};
use crate::types::{KafkaString, KafkaUuid, RawTaggedField};
use crate::wire::{ReadOutcome, ViewClone, WriteOutcome, chain, clone_vec, emit, empty_vec, fail, has_room, lemma_append_empty, lemma_chain_written, lemma_step, opt_view, read_as, read_opt_as, read_vec_as, some_of, took_front, unwrap_or_empty, views, written, wrote};
use bytes::{Bytes, BytesMut};
use vstd::prelude::*;

verus! {

broadcast use {crate::wire::lemma_chain_written, crate::wire::lemma_took_front_nothing, crate::wire::lemma_took_front_twice};

#[derive(Debug, PartialEq)]
pub struct DeleteTopicsResponseData {
    /// The duration in milliseconds for which the request was throttled due to a quota violation,
    /// or zero if the request did not violate any quota.
    pub throttle_time_ms: i32,
    /// The results for each topic we tried to delete.
    pub responses: Vec<DeletableTopicResult>,
    pub _unknown_tagged_fields: Vec<RawTaggedField>,
}

/// What a `DeleteTopicsResponseData` holds, as the specification sees it.
#[verifier::ext_equal]
pub struct DeleteTopicsResponseDataView {
    pub throttle_time_ms: i32,
    pub responses: Seq<DeletableTopicResultView>,
    pub unknown_tagged_fields: Seq<(u32, Seq<u8>)>,
}

impl View for DeleteTopicsResponseData {
    type V = DeleteTopicsResponseDataView;

    open spec fn view(&self) -> DeleteTopicsResponseDataView {
        DeleteTopicsResponseDataView {
            throttle_time_ms: self.throttle_time_ms,
            responses: views(self.responses@),
            unknown_tagged_fields: views(self._unknown_tagged_fields@),
        }
    }
}

impl Clone for DeleteTopicsResponseData {
    fn clone(&self) -> (r: Self)
        ensures
            r@ == self@,
    {
        let r = DeleteTopicsResponseData {
            throttle_time_ms: self.throttle_time_ms,
            responses: clone_vec(&self.responses),
            _unknown_tagged_fields: clone_vec(&self._unknown_tagged_fields),
        };
        assert(r@ =~= self@);
        r
    }
}

impl ViewClone for DeleteTopicsResponseData {
    fn clone_view(&self) -> (r: Self) {
        self.clone()
    }
}

impl Default for DeleteTopicsResponseData {
    fn default() -> (r: Self)
        ensures
            r@ == Self::default_view(),
    {
        let r = DeleteTopicsResponseData {
            throttle_time_ms: 0_i32,
            responses: empty_vec(),
            _unknown_tagged_fields: empty_vec(),
        };
        assert(r@ =~= Self::default_view());
        r
    }
}

impl DeleteTopicsResponseData {
    pub open spec fn default_view() -> DeleteTopicsResponseDataView {
        DeleteTopicsResponseDataView {
            throttle_time_ms: 0_i32,
            responses: Seq::empty(),
            unknown_tagged_fields: Seq::empty(),
        }
    }

    /// The `throttle_time_ms` field, read from the front of `s`.
    #[verifier::opaque]
    pub open spec fn spec_read_throttle_time_ms(s: Seq<u8>, version: i16) -> ReadOutcome<i32> {
        spec_read_i32(s)
    }

    /// The `responses` field, read from the front of `s`.
    #[verifier::opaque]
    pub open spec fn spec_read_responses(s: Seq<u8>, version: i16) -> ReadOutcome<Seq<DeletableTopicResultView>> {
        if version >= 4 {
            spec_read_array::<DeletableTopicResult>(s, version, true)
        } else {
            spec_read_array::<DeletableTopicResult>(s, version, false)
        }
    }

    /// The tagged fields, read from the front of `s`.
    #[verifier::opaque]
    pub open spec fn spec_read_tags(s: Seq<u8>, version: i16) -> ReadOutcome<Seq<(u32, Seq<u8>)>> {
        if version >= 4 {
            spec_read_tagged_fields(s)
        } else {
            Ok((Seq::empty(), s))
        }
    }

    pub open spec fn spec_read(s: Seq<u8>, version: i16) -> ReadOutcome<DeleteTopicsResponseDataView> {
        if version < 1 || version > 6 {
            Err(Error::UnsupportedVersion(UnsupportedVersion { api_key: 20, version }))
        } else {
            match (Self::spec_read_throttle_time_ms(s, version)) {
                Err(e) => Err(e),
                Ok((throttle_time_ms, s)) => match (Self::spec_read_responses(s, version)) {
                    Err(e) => Err(e),
                    Ok((responses, s)) => match (Self::spec_read_tags(s, version)) {
                        Err(e) => Err(e),
                        Ok((unknown_tagged_fields, s)) => Ok((DeleteTopicsResponseDataView {
                                    throttle_time_ms: throttle_time_ms,
                                    responses: responses,
                                    unknown_tagged_fields: unknown_tagged_fields,
                                }, s)),
                    },
                },
            }
        }
    }

    /// What writing the `throttle_time_ms` field of `m` appends.
    #[verifier::opaque]
    pub open spec fn spec_write_throttle_time_ms(m: DeleteTopicsResponseDataView, version: i16) -> WriteOutcome {
        spec_write_i32(m.throttle_time_ms)
    }

    /// What writing the `responses` field of `m` appends.
    #[verifier::opaque]
    pub open spec fn spec_write_responses(m: DeleteTopicsResponseDataView, version: i16) -> WriteOutcome {
        if version >= 4 {
            spec_write_array::<DeletableTopicResult>(m.responses, version, true)
        } else {
            spec_write_array::<DeletableTopicResult>(m.responses, version, false)
        }
    }

    /// What writing the tagged fields of `m` appends.
    #[verifier::opaque]
    pub open spec fn spec_write_tags(m: DeleteTopicsResponseDataView, version: i16) -> WriteOutcome {
        if version >= 4 {
            spec_write_tagged_fields(sorted_by_tag(m.unknown_tagged_fields))
        } else {
            emit(Seq::empty())
        }
    }

    pub open spec fn spec_write(m: DeleteTopicsResponseDataView, version: i16) -> WriteOutcome {
        if version < 1 || version > 6 {
            fail(Error::UnsupportedVersion(UnsupportedVersion { api_key: 20, version }))
        } else {
            chain(
                chain(
                    Self::spec_write_throttle_time_ms(m, version),
                    Self::spec_write_responses(m, version),
                ),
                Self::spec_write_tags(m, version),
            )
        }
    }

    /// Whether reading back what writing `m` in `version` appends gives `m`:
    /// fields that the version does not carry hold their default values, and
    /// tagged fields come in the order in which they are written.
    pub open spec fn canonical(m: DeleteTopicsResponseDataView, version: i16) -> bool {
        &&& all_canonical::<DeletableTopicResult>(m.responses, version)
        &&& (if version >= 4 {
                tags_in_order(m.unknown_tagged_fields)
            } else {
                m.unknown_tagged_fields.len() == 0
        })
    }

    proof fn lemma_round_trip_throttle_time_ms(m: DeleteTopicsResponseDataView, version: i16, rest: Seq<u8>)
        requires
            Self::canonical(m, version),
            Self::spec_write_throttle_time_ms(m, version) is Ok,
        ensures
            Self::spec_read_throttle_time_ms(written(Self::spec_write_throttle_time_ms(m, version)) + rest, version) == Ok::<(i32, Seq<u8>), Error>((m.throttle_time_ms, rest)),
    {
        reveal(DeleteTopicsResponseData::spec_read_throttle_time_ms);
        reveal(DeleteTopicsResponseData::spec_write_throttle_time_ms);
        lemma_i32_roundtrip(m.throttle_time_ms, rest);
    }

    proof fn lemma_round_trip_responses(m: DeleteTopicsResponseDataView, version: i16, rest: Seq<u8>)
        requires
            Self::canonical(m, version),
            Self::spec_write_responses(m, version) is Ok,
        ensures
            Self::spec_read_responses(written(Self::spec_write_responses(m, version)) + rest, version) == Ok::<(Seq<DeletableTopicResultView>, Seq<u8>), Error>((m.responses, rest)),
    {
        reveal(DeleteTopicsResponseData::spec_read_responses);
        reveal(DeleteTopicsResponseData::spec_write_responses);
        if version >= 4 {
            lemma_array_round_trip::<DeletableTopicResult>(m.responses, version, true, rest);
        } else {
            lemma_array_round_trip::<DeletableTopicResult>(m.responses, version, false, rest);
        }
    }

    proof fn lemma_round_trip_tags(m: DeleteTopicsResponseDataView, version: i16, rest: Seq<u8>)
        requires
            Self::canonical(m, version),
            Self::spec_write_tags(m, version) is Ok,
        ensures
            Self::spec_read_tags(written(Self::spec_write_tags(m, version)) + rest, version) == Ok::<(Seq<(u32, Seq<u8>)>, Seq<u8>), Error>((m.unknown_tagged_fields, rest)),
    {
        reveal(DeleteTopicsResponseData::spec_read_tags);
        reveal(DeleteTopicsResponseData::spec_write_tags);
        if version >= 4 {
            lemma_sorted_by_tag_in_order(m.unknown_tagged_fields);
            lemma_tagged_fields_round_trip(m.unknown_tagged_fields, rest);
        } else {
            assert(Seq::<u8>::empty() + rest =~= rest);
            assert(m.unknown_tagged_fields =~= Seq::empty());
        }
    }

    /// Reading back what writing `m` in `version` appends gives `m` again, and
    /// leaves what follows, for every canonical message whose write succeeds.
    #[verifier::rlimit(70)]
    #[verifier::spinoff_prover]
    pub proof fn lemma_round_trip(m: DeleteTopicsResponseDataView, version: i16, rest: Seq<u8>)
        requires
            Self::canonical(m, version),
            Self::spec_write(m, version) is Ok,
        ensures
            Self::spec_read(written(Self::spec_write(m, version)) + rest, version) == Ok::<(DeleteTopicsResponseDataView, Seq<u8>), Error>((m, rest)),
    {
        let b0 = written(Self::spec_write_throttle_time_ms(m, version));
        let b1 = written(Self::spec_write_responses(m, version));
        let b2 = written(Self::spec_write_tags(m, version));
        let t3 = rest;
        let t2 = b2 + t3;
        let t1 = b1 + t2;
        let t0 = b0 + t1;
        let w0 = Self::spec_write_throttle_time_ms(m, version);
        let w1 = chain(w0, Self::spec_write_responses(m, version));
        let w2 = chain(w1, Self::spec_write_tags(m, version));
        assert(Self::spec_write(m, version) == w2);
        assert(written(w2) + t3 =~= written(w1) + t2);
        assert(written(w1) + t2 =~= written(w0) + t1);
        Self::lemma_round_trip_throttle_time_ms(m, version, t1);
        Self::lemma_round_trip_responses(m, version, t2);
        Self::lemma_round_trip_tags(m, version, t3);
    }

    /// In a version that does not carry `unknown_tagged_fields`, writing ignores its value.
    pub proof fn lemma_write_ignores_unknown_tagged_fields(m: DeleteTopicsResponseDataView, value: Seq<(u32, Seq<u8>)>, version: i16)
        requires
            !(version >= 4),
        ensures
            Self::spec_write((DeleteTopicsResponseDataView { unknown_tagged_fields: value, ..m }), version) == Self::spec_write(m, version),
    {
        reveal(DeleteTopicsResponseData::spec_write_throttle_time_ms);
        reveal(DeleteTopicsResponseData::spec_write_responses);
        reveal(DeleteTopicsResponseData::spec_write_tags);
    }

    /// The default message holds the default value of each field of the schema.
    pub proof fn lemma_default_values()
        ensures
            Self::default_view().throttle_time_ms == (0_i32),
            Self::default_view().responses.len() == 0,
            Self::default_view().unknown_tagged_fields.len() == 0,
    {
    }

    /// Each integer, boolean and identifier field is written as its standard
    /// big-endian bytes (a boolean as `1` or `0`) in the versions that carry
    /// it, and as nothing in the others; reading it takes those bytes back (any
    /// byte other than `0` reads as `true`), or gives its default value.
    pub proof fn lemma_field_encodings(m: DeleteTopicsResponseDataView, s: Seq<u8>, version: i16)
        ensures
            true ==> Self::spec_write_throttle_time_ms(m, version) == Ok::<Seq<u8>, (Error, Seq<u8>)>(u32_bytes(m.throttle_time_ms as u32)),
            true ==> Self::spec_read_throttle_time_ms(s, version) == spec_read_i32(s),
    {
        reveal(DeleteTopicsResponseData::spec_write_throttle_time_ms);
        reveal(DeleteTopicsResponseData::spec_read_throttle_time_ms);
    }

    /// Whether writing `m` in `version` succeeds, said over its parts: the
    /// version is one the schema covers, every field that the version cannot
    /// carry holds its default value, and every string, byte string, array and
    /// tagged field fits its length prefix.
    pub open spec fn writable(m: DeleteTopicsResponseDataView, version: i16) -> bool {
        &&& 1 <= version <= 6
        &&& (m.responses.len() <= i32::MAX && all_writable::<DeletableTopicResult>(m.responses, version))
        &&& (if version >= 4 {
                m.unknown_tagged_fields.len() <= u32::MAX && tags_fit(m.unknown_tagged_fields)
            } else {
                true
        })
    }

    proof fn lemma_writable_throttle_time_ms(m: DeleteTopicsResponseDataView, version: i16)
        ensures
            Self::spec_write_throttle_time_ms(m, version) is Ok <==> true,
    {
        reveal(DeleteTopicsResponseData::spec_write_throttle_time_ms);
    }

    proof fn lemma_writable_responses(m: DeleteTopicsResponseDataView, version: i16)
        ensures
            Self::spec_write_responses(m, version) is Ok <==> (m.responses.len() <= i32::MAX && all_writable::<DeletableTopicResult>(m.responses, version)),
    {
        reveal(DeleteTopicsResponseData::spec_write_responses);
        if version >= 4 {
            lemma_array_writable::<DeletableTopicResult>(m.responses, version, true);
        } else {
            lemma_array_writable::<DeletableTopicResult>(m.responses, version, false);
        }
    }

    proof fn lemma_writable_tags(m: DeleteTopicsResponseDataView, version: i16)
        ensures
            Self::spec_write_tags(m, version) is Ok <==> (if version >= 4 { m.unknown_tagged_fields.len() <= u32::MAX && tags_fit(m.unknown_tagged_fields) } else { true }),
    {
        reveal(DeleteTopicsResponseData::spec_write_tags);
        if version >= 4 {
            lemma_sorted_tags_fit(m.unknown_tagged_fields);
            lemma_tagged_fields_writable(sorted_by_tag(m.unknown_tagged_fields));
        }
    }

    /// Writing `m` in `version` succeeds exactly when `m` is writable in it;
    /// so do `write` and `encoded_len`, whose results follow `spec_write`.
    #[verifier::rlimit(48)]
    pub proof fn lemma_writable(m: DeleteTopicsResponseDataView, version: i16)
        ensures
            Self::spec_write(m, version) is Ok <==> Self::writable(m, version),
    {
        Self::lemma_writable_throttle_time_ms(m, version);
        Self::lemma_writable_responses(m, version);
        Self::lemma_writable_tags(m, version);
    }

    /// A version outside the range that the schema covers is refused, by
    /// reads and by writes alike, before anything is read or written.
    pub proof fn lemma_refused_version(m: DeleteTopicsResponseDataView, s: Seq<u8>, version: i16)
        requires
            version < 1 || version > 6,
        ensures
            Self::spec_read(s, version) == Err::<(DeleteTopicsResponseDataView, Seq<u8>), Error>(Error::UnsupportedVersion(UnsupportedVersion { api_key: 20, version })),
            Self::spec_write(m, version) == fail(Error::UnsupportedVersion(UnsupportedVersion { api_key: 20, version })),
    {
    }

    fn read_throttle_time_ms(buf: &mut Bytes, version: i16) -> (r: Result<i32, Error>)
        ensures
            read_as(Self::spec_read_throttle_time_ms(bytes_seq(*old(buf)), version), *final(buf), r),
            took_front(*old(buf), *final(buf)),
    {
        proof {
            reveal(DeleteTopicsResponseData::spec_read_throttle_time_ms);
        }
        Ok(read_i32(buf)?)
    }

    fn read_responses(buf: &mut Bytes, version: i16) -> (r: Result<Vec<DeletableTopicResult>, Error>)
        ensures
            read_vec_as(Self::spec_read_responses(bytes_seq(*old(buf)), version), *final(buf), r),
            took_front(*old(buf), *final(buf)),
    {
        proof {
            reveal(DeleteTopicsResponseData::spec_read_responses);
        }
        Ok(if version >= 4 {
                read_array::<DeletableTopicResult>(buf, version, true)?
            } else {
                read_array::<DeletableTopicResult>(buf, version, false)?
        })
    }

    fn read_tags(buf: &mut Bytes, version: i16) -> (r: Result<Vec<RawTaggedField>, Error>)
        ensures
            read_vec_as(Self::spec_read_tags(bytes_seq(*old(buf)), version), *final(buf), r),
            took_front(*old(buf), *final(buf)),
    {
        proof {
            reveal(DeleteTopicsResponseData::spec_read_tags);
        }
        Ok(if version >= 4 {
                read_tagged_fields(buf)?
            } else {
                empty_vec()
        })
    }

    pub fn read(buf: &mut Bytes, version: i16) -> (r: Result<Self, Error>)
        ensures
            read_as(Self::spec_read(bytes_seq(*old(buf)), version), *final(buf), r),
            took_front(*old(buf), *final(buf)),
            (version < 1 || version > 6) ==> bytes_seq(*final(buf)) == bytes_seq(*old(buf)),
    {
        if version < 1 || version > 6 {
            return Err(Error::UnsupportedVersion(UnsupportedVersion::new(20, version)));
        }
        let throttle_time_ms = Self::read_throttle_time_ms(buf, version)?;
        let responses = Self::read_responses(buf, version)?;
        let _unknown_tagged_fields = Self::read_tags(buf, version)?;
        Ok(DeleteTopicsResponseData {
                throttle_time_ms: throttle_time_ms,
                responses: responses,
                _unknown_tagged_fields: _unknown_tagged_fields,
        })
    }

    #[verifier::rlimit(60)]
    pub fn write(&self, buf: &mut BytesMut, version: i16) -> (r: Result<(), Error>)
        requires
            has_room(Self::spec_write(self@, version), *old(buf)),
        ensures
            wrote(Self::spec_write(self@, version), *old(buf), *final(buf), r),
    {
        if version < 1 || version > 6 {
            return Err(Error::UnsupportedVersion(UnsupportedVersion::new(20, version)));
        }
        let ghost m = self@;
        proof {
            reveal(DeleteTopicsResponseData::spec_write_throttle_time_ms);
            reveal(DeleteTopicsResponseData::spec_write_responses);
            reveal(DeleteTopicsResponseData::spec_write_tags);
        }
        let ghost s0 = Self::spec_write_throttle_time_ms(m, version);
        let ghost w0 = s0;
        let ghost s1 = Self::spec_write_responses(m, version);
        let ghost w1 = chain(w0, s1);
        let ghost s2 = Self::spec_write_tags(m, version);
        let ghost w2 = chain(w1, s2);
        assert(Self::spec_write(m, version) == w2);
        assert(written(w1).len() <= written(w2).len() && (w1 is Err ==> w2 == w1));
        assert(written(w0).len() <= written(w2).len() && (w0 is Err ==> w2 == w0));
        let ghost mid = bytes_mut_seq(*buf);
        proof {
            lemma_append_empty(mid);
        }
        let r0 = {
            write_i32(buf, self.throttle_time_ms);
            Ok(())
        };
        assert(bytes_mut_seq(*buf) == mid + written(s0));
        if r0.is_err() {
            return r0;
        }
        let ghost mid = bytes_mut_seq(*buf);
        proof {
            lemma_append_empty(mid);
        }
        let r1 = if version >= 4 {
            write_array::<DeletableTopicResult>(buf, &self.responses, version, true)
        } else {
            write_array::<DeletableTopicResult>(buf, &self.responses, version, false)
        };
        assert(bytes_mut_seq(*buf) == mid + written(s1));
        proof {
            lemma_step(bytes_mut_seq(*old(buf)), w0, s1);
        }
        if r1.is_err() {
            return r1;
        }
        let ghost mid = bytes_mut_seq(*buf);
        proof {
            lemma_append_empty(mid);
        }
        let r2 = if version >= 4 {
            write_tagged_fields(buf, &sort_by_tag(&self._unknown_tagged_fields))
        } else {
            Ok(())
        };
        assert(bytes_mut_seq(*buf) == mid + written(s2));
        proof {
            lemma_step(bytes_mut_seq(*old(buf)), w1, s2);
        }
        if r2.is_err() {
            return r2;
        }
        Ok(())
    }
}

#[derive(Debug, PartialEq)]
pub struct DeletableTopicResult {
    /// The topic name.
    pub name: Option<KafkaString>,
    /// The unique topic ID.
    pub topic_id: KafkaUuid,
    /// The deletion error, or 0 if the deletion succeeded.
    pub error_code: i16,
    /// The error message, or null if there was no error.
    pub error_message: Option<KafkaString>,
    pub _unknown_tagged_fields: Vec<RawTaggedField>,
}

/// What a `DeletableTopicResult` holds, as the specification sees it.
#[verifier::ext_equal]
pub struct DeletableTopicResultView {
    pub name: Option<Seq<u8>>,
    pub topic_id: KafkaUuid,
    pub error_code: i16,
    pub error_message: Option<Seq<u8>>,
    pub unknown_tagged_fields: Seq<(u32, Seq<u8>)>,
}

impl View for DeletableTopicResult {
    type V = DeletableTopicResultView;

    open spec fn view(&self) -> DeletableTopicResultView {
        DeletableTopicResultView {
            name: opt_view(self.name),
            topic_id: self.topic_id,
            error_code: self.error_code,
            error_message: opt_view(self.error_message),
            unknown_tagged_fields: views(self._unknown_tagged_fields@),
        }
    }
}

impl Clone for DeletableTopicResult {
    fn clone(&self) -> (r: Self)
        ensures
            r@ == self@,
    {
        let r = DeletableTopicResult {
            name: match &self.name {
                Some(x) => Some(x.clone()),
                None => None,
            },
            topic_id: self.topic_id,
            error_code: self.error_code,
            error_message: match &self.error_message {
                Some(x) => Some(x.clone()),
                None => None,
            },
            _unknown_tagged_fields: clone_vec(&self._unknown_tagged_fields),
        };
        assert(r@ =~= self@);
        r
    }
}

impl ViewClone for DeletableTopicResult {
    fn clone_view(&self) -> (r: Self) {
        self.clone()
    }
}

impl Default for DeletableTopicResult {
    fn default() -> (r: Self)
        ensures
            r@ == Self::default_view(),
    {
        let r = DeletableTopicResult {
            name: None,
            topic_id: KafkaUuid::zero(),
            error_code: 0_i16,
            error_message: None,
            _unknown_tagged_fields: empty_vec(),
        };
        assert(r@ =~= Self::default_view());
        r
    }
}

impl DeletableTopicResult {
    pub open spec fn default_view() -> DeletableTopicResultView {
        DeletableTopicResultView {
            name: None,
            topic_id: KafkaUuid { most_significant_bits: 0, least_significant_bits: 0 },
            error_code: 0_i16,
            error_message: None,
            unknown_tagged_fields: Seq::empty(),
        }
    }

    /// The `name` field, read from the front of `s`.
    #[verifier::opaque]
    pub open spec fn spec_read_name(s: Seq<u8>, version: i16) -> ReadOutcome<Option<Seq<u8>>> {
        if version >= 6 {
            spec_read_compact_nullable_string(s)
        } else {
            if version >= 4 {
                some_of(spec_read_compact_string(s))
            } else {
                some_of(spec_read_string(s))
            }
        }
    }

    /// The `topic_id` field, read from the front of `s`.
    #[verifier::opaque]
    pub open spec fn spec_read_topic_id(s: Seq<u8>, version: i16) -> ReadOutcome<KafkaUuid> {
        if version >= 6 {
            spec_read_uuid(s)
        } else {
            Ok((KafkaUuid { most_significant_bits: 0, least_significant_bits: 0 }, s))
        }
    }

    /// The `error_code` field, read from the front of `s`.
    #[verifier::opaque]
    pub open spec fn spec_read_error_code(s: Seq<u8>, version: i16) -> ReadOutcome<i16> {
        spec_read_i16(s)
    }

    /// The `error_message` field, read from the front of `s`.
    #[verifier::opaque]
    pub open spec fn spec_read_error_message(s: Seq<u8>, version: i16) -> ReadOutcome<Option<Seq<u8>>> {
        if version >= 5 {
            spec_read_compact_nullable_string(s)
        } else {
            Ok((None, s))
        }
    }

    /// The tagged fields, read from the front of `s`.
    #[verifier::opaque]
    pub open spec fn spec_read_tags(s: Seq<u8>, version: i16) -> ReadOutcome<Seq<(u32, Seq<u8>)>> {
        if version >= 4 {
            spec_read_tagged_fields(s)
        } else {
            Ok((Seq::empty(), s))
        }
    }

    pub open spec fn spec_read(s: Seq<u8>, version: i16) -> ReadOutcome<DeletableTopicResultView> {
        match (Self::spec_read_name(s, version)) {
            Err(e) => Err(e),
            Ok((name, s)) => match (Self::spec_read_topic_id(s, version)) {
                Err(e) => Err(e),
                Ok((topic_id, s)) => match (Self::spec_read_error_code(s, version)) {
                    Err(e) => Err(e),
                    Ok((error_code, s)) => match (Self::spec_read_error_message(s, version)) {
                        Err(e) => Err(e),
                        Ok((error_message, s)) => match (Self::spec_read_tags(s, version)) {
                            Err(e) => Err(e),
                            Ok((unknown_tagged_fields, s)) => Ok((DeletableTopicResultView {
                                        name: name,
                                        topic_id: topic_id,
                                        error_code: error_code,
                                        error_message: error_message,
                                        unknown_tagged_fields: unknown_tagged_fields,
                                    }, s)),
                        },
                    },
                },
            },
        }
    }

    /// What writing the `name` field of `m` appends.
    #[verifier::opaque]
    pub open spec fn spec_write_name(m: DeletableTopicResultView, version: i16) -> WriteOutcome {
        if version >= 6 {
            spec_write_compact_nullable_string(m.name)
        } else {
            if version >= 4 {
                spec_write_compact_string(unwrap_or_empty(m.name))
            } else {
                spec_write_string(unwrap_or_empty(m.name))
            }
        }
    }

    /// What writing the `topic_id` field of `m` appends.
    #[verifier::opaque]
    pub open spec fn spec_write_topic_id(m: DeletableTopicResultView, version: i16) -> WriteOutcome {
        if version >= 6 {
            spec_write_uuid(m.topic_id)
        } else {
            emit(Seq::empty())
        }
    }

    /// What writing the `error_code` field of `m` appends.
    #[verifier::opaque]
    pub open spec fn spec_write_error_code(m: DeletableTopicResultView, version: i16) -> WriteOutcome {
        spec_write_i16(m.error_code)
    }

    /// What writing the `error_message` field of `m` appends.
    #[verifier::opaque]
    pub open spec fn spec_write_error_message(m: DeletableTopicResultView, version: i16) -> WriteOutcome {
        if version >= 5 {
            spec_write_compact_nullable_string(m.error_message)
        } else {
            emit(Seq::empty())
        }
    }

    /// What writing the tagged fields of `m` appends.
    #[verifier::opaque]
    pub open spec fn spec_write_tags(m: DeletableTopicResultView, version: i16) -> WriteOutcome {
        if version >= 4 {
            spec_write_tagged_fields(sorted_by_tag(m.unknown_tagged_fields))
        } else {
            emit(Seq::empty())
        }
    }

    pub open spec fn spec_write(m: DeletableTopicResultView, version: i16) -> WriteOutcome {
        chain(
            chain(
                chain(
                    chain(
                        Self::spec_write_name(m, version),
                        Self::spec_write_topic_id(m, version),
                    ),
                    Self::spec_write_error_code(m, version),
                ),
                Self::spec_write_error_message(m, version),
            ),
            Self::spec_write_tags(m, version),
        )
    }

    /// Whether reading back what writing `m` in `version` appends gives `m`:
    /// fields that the version does not carry hold their default values, and
    /// tagged fields come in the order in which they are written.
    pub open spec fn canonical(m: DeletableTopicResultView, version: i16) -> bool {
        &&& (if version >= 6 {
                true
            } else {
                m.name is Some
        })
        &&& (if version >= 6 {
                true
            } else {
                m.topic_id == KafkaUuid { most_significant_bits: 0, least_significant_bits: 0 }
        })
        &&& (if version >= 5 {
                true
            } else {
                m.error_message is None
        })
        &&& (if version >= 4 {
                tags_in_order(m.unknown_tagged_fields)
            } else {
                m.unknown_tagged_fields.len() == 0
        })
    }

    proof fn lemma_round_trip_name(m: DeletableTopicResultView, version: i16, rest: Seq<u8>)
        requires
            Self::canonical(m, version),
            Self::spec_write_name(m, version) is Ok,
        ensures
            Self::spec_read_name(written(Self::spec_write_name(m, version)) + rest, version) == Ok::<(Option<Seq<u8>>, Seq<u8>), Error>((m.name, rest)),
    {
        reveal(DeletableTopicResult::spec_read_name);
        reveal(DeletableTopicResult::spec_write_name);
        if version >= 6 {
            lemma_compact_nullable_string_round_trip(m.name, rest);
        } else {
            if version >= 4 {
                lemma_compact_string_round_trip(unwrap_or_empty(m.name), rest);
            } else {
                lemma_string_round_trip(unwrap_or_empty(m.name), rest);
            }
        }
    }

    proof fn lemma_round_trip_topic_id(m: DeletableTopicResultView, version: i16, rest: Seq<u8>)
        requires
            Self::canonical(m, version),
            Self::spec_write_topic_id(m, version) is Ok,
        ensures
            Self::spec_read_topic_id(written(Self::spec_write_topic_id(m, version)) + rest, version) == Ok::<(KafkaUuid, Seq<u8>), Error>((m.topic_id, rest)),
    {
        reveal(DeletableTopicResult::spec_read_topic_id);
        reveal(DeletableTopicResult::spec_write_topic_id);
        if version >= 6 {
            lemma_uuid_round_trip(m.topic_id, rest);
        } else {
            assert(Seq::<u8>::empty() + rest =~= rest);
        }
    }

    proof fn lemma_round_trip_error_code(m: DeletableTopicResultView, version: i16, rest: Seq<u8>)
        requires
            Self::canonical(m, version),
            Self::spec_write_error_code(m, version) is Ok,
        ensures
            Self::spec_read_error_code(written(Self::spec_write_error_code(m, version)) + rest, version) == Ok::<(i16, Seq<u8>), Error>((m.error_code, rest)),
    {
        reveal(DeletableTopicResult::spec_read_error_code);
        reveal(DeletableTopicResult::spec_write_error_code);
        lemma_i16_roundtrip(m.error_code, rest);
    }

    proof fn lemma_round_trip_error_message(m: DeletableTopicResultView, version: i16, rest: Seq<u8>)
        requires
            Self::canonical(m, version),
            Self::spec_write_error_message(m, version) is Ok,
        ensures
            Self::spec_read_error_message(written(Self::spec_write_error_message(m, version)) + rest, version) == Ok::<(Option<Seq<u8>>, Seq<u8>), Error>((m.error_message, rest)),
    {
        reveal(DeletableTopicResult::spec_read_error_message);
        reveal(DeletableTopicResult::spec_write_error_message);
        if version >= 5 {
            lemma_compact_nullable_string_round_trip(m.error_message, rest);
        } else {
            assert(Seq::<u8>::empty() + rest =~= rest);
        }
    }

    proof fn lemma_round_trip_tags(m: DeletableTopicResultView, version: i16, rest: Seq<u8>)
        requires
            Self::canonical(m, version),
            Self::spec_write_tags(m, version) is Ok,
        ensures
            Self::spec_read_tags(written(Self::spec_write_tags(m, version)) + rest, version) == Ok::<(Seq<(u32, Seq<u8>)>, Seq<u8>), Error>((m.unknown_tagged_fields, rest)),
    {
        reveal(DeletableTopicResult::spec_read_tags);
        reveal(DeletableTopicResult::spec_write_tags);
        if version >= 4 {
            lemma_sorted_by_tag_in_order(m.unknown_tagged_fields);
            lemma_tagged_fields_round_trip(m.unknown_tagged_fields, rest);
        } else {
            assert(Seq::<u8>::empty() + rest =~= rest);
            assert(m.unknown_tagged_fields =~= Seq::empty());
        }
    }

    /// Reading back what writing `m` in `version` appends gives `m` again, and
    /// leaves what follows, for every canonical message whose write succeeds.
    #[verifier::rlimit(90)]
    #[verifier::spinoff_prover]
    pub proof fn lemma_round_trip(m: DeletableTopicResultView, version: i16, rest: Seq<u8>)
        requires
            Self::canonical(m, version),
            Self::spec_write(m, version) is Ok,
        ensures
            Self::spec_read(written(Self::spec_write(m, version)) + rest, version) == Ok::<(DeletableTopicResultView, Seq<u8>), Error>((m, rest)),
    {
        let b0 = written(Self::spec_write_name(m, version));
        let b1 = written(Self::spec_write_topic_id(m, version));
        let b2 = written(Self::spec_write_error_code(m, version));
        let b3 = written(Self::spec_write_error_message(m, version));
        let b4 = written(Self::spec_write_tags(m, version));
        let t5 = rest;
        let t4 = b4 + t5;
        let t3 = b3 + t4;
        let t2 = b2 + t3;
        let t1 = b1 + t2;
        let t0 = b0 + t1;
        let w0 = Self::spec_write_name(m, version);
        let w1 = chain(w0, Self::spec_write_topic_id(m, version));
        let w2 = chain(w1, Self::spec_write_error_code(m, version));
        let w3 = chain(w2, Self::spec_write_error_message(m, version));
        let w4 = chain(w3, Self::spec_write_tags(m, version));
        assert(Self::spec_write(m, version) == w4);
        assert(written(w4) + t5 =~= written(w3) + t4);
        assert(written(w3) + t4 =~= written(w2) + t3);
        assert(written(w2) + t3 =~= written(w1) + t2);
        assert(written(w1) + t2 =~= written(w0) + t1);
        Self::lemma_round_trip_name(m, version, t1);
        Self::lemma_round_trip_topic_id(m, version, t2);
        Self::lemma_round_trip_error_code(m, version, t3);
        Self::lemma_round_trip_error_message(m, version, t4);
        Self::lemma_round_trip_tags(m, version, t5);
    }

    /// In a version that does not carry `topic_id`, writing ignores its value.
    pub proof fn lemma_write_ignores_topic_id(m: DeletableTopicResultView, value: KafkaUuid, version: i16)
        requires
            !(version >= 6),
        ensures
            Self::spec_write((DeletableTopicResultView { topic_id: value, ..m }), version) == Self::spec_write(m, version),
    {
        reveal(DeletableTopicResult::spec_write_name);
        reveal(DeletableTopicResult::spec_write_topic_id);
        reveal(DeletableTopicResult::spec_write_error_code);
        reveal(DeletableTopicResult::spec_write_error_message);
        reveal(DeletableTopicResult::spec_write_tags);
    }

    /// In a version that does not carry `error_message`, writing ignores its value.
    pub proof fn lemma_write_ignores_error_message(m: DeletableTopicResultView, value: Option<Seq<u8>>, version: i16)
        requires
            !(version >= 5),
        ensures
            Self::spec_write((DeletableTopicResultView { error_message: value, ..m }), version) == Self::spec_write(m, version),
    {
        reveal(DeletableTopicResult::spec_write_name);
        reveal(DeletableTopicResult::spec_write_topic_id);
        reveal(DeletableTopicResult::spec_write_error_code);
        reveal(DeletableTopicResult::spec_write_error_message);
        reveal(DeletableTopicResult::spec_write_tags);
    }

    /// In a version that does not carry `unknown_tagged_fields`, writing ignores its value.
    pub proof fn lemma_write_ignores_unknown_tagged_fields(m: DeletableTopicResultView, value: Seq<(u32, Seq<u8>)>, version: i16)
        requires
            !(version >= 4),
        ensures
            Self::spec_write((DeletableTopicResultView { unknown_tagged_fields: value, ..m }), version) == Self::spec_write(m, version),
    {
        reveal(DeletableTopicResult::spec_write_name);
        reveal(DeletableTopicResult::spec_write_topic_id);
        reveal(DeletableTopicResult::spec_write_error_code);
        reveal(DeletableTopicResult::spec_write_error_message);
        reveal(DeletableTopicResult::spec_write_tags);
    }

    /// The default message holds the default value of each field of the schema.
    pub proof fn lemma_default_values()
        ensures
            (Self::default_view().name is None),
            Self::default_view().topic_id == (KafkaUuid { most_significant_bits: 0, least_significant_bits: 0 }),
            Self::default_view().error_code == (0_i16),
            (Self::default_view().error_message is None),
            Self::default_view().unknown_tagged_fields.len() == 0,
    {
    }

    /// Each integer, boolean and identifier field is written as its standard
    /// big-endian bytes (a boolean as `1` or `0`) in the versions that carry
    /// it, and as nothing in the others; reading it takes those bytes back (any
    /// byte other than `0` reads as `true`), or gives its default value.
    pub proof fn lemma_field_encodings(m: DeletableTopicResultView, s: Seq<u8>, version: i16)
        ensures
            version >= 6 ==> Self::spec_write_topic_id(m, version) == Ok::<Seq<u8>, (Error, Seq<u8>)>((u64_bytes(m.topic_id.most_significant_bits) + u64_bytes(m.topic_id.least_significant_bits))),
            !(version >= 6) ==> Self::spec_write_topic_id(m, version) == Ok::<Seq<u8>, (Error, Seq<u8>)>(Seq::empty()),
            true ==> Self::spec_write_error_code(m, version) == Ok::<Seq<u8>, (Error, Seq<u8>)>(u16_bytes(m.error_code as u16)),
            !(version >= 5) ==> Self::spec_write_error_message(m, version) == Ok::<Seq<u8>, (Error, Seq<u8>)>(Seq::empty()),
            version >= 6 ==> Self::spec_read_topic_id(s, version) == spec_read_uuid(s),
            true ==> Self::spec_read_error_code(s, version) == spec_read_i16(s),
    {
        reveal(DeletableTopicResult::spec_write_topic_id);
        reveal(DeletableTopicResult::spec_read_topic_id);
        reveal(DeletableTopicResult::spec_write_error_code);
        reveal(DeletableTopicResult::spec_read_error_code);
        reveal(DeletableTopicResult::spec_write_error_message);
        reveal(DeletableTopicResult::spec_read_error_message);
    }

    /// Whether writing `m` in `version` succeeds, said over its parts: the
    /// version is one the schema covers, every field that the version cannot
    /// carry holds its default value, and every string, byte string, array and
    /// tagged field fits its length prefix.
    pub open spec fn writable(m: DeletableTopicResultView, version: i16) -> bool {
        &&& (if version >= 6 {
                (m.name matches Some(b) ==> b.len() <= 0x7fff)
            } else {
                unwrap_or_empty(m.name).len() <= 0x7fff
        })
        &&& (if version >= 5 {
                (m.error_message matches Some(b) ==> b.len() <= 0x7fff)
            } else {
                true
        })
        &&& (if version >= 4 {
                m.unknown_tagged_fields.len() <= u32::MAX && tags_fit(m.unknown_tagged_fields)
            } else {
                true
        })
    }

    proof fn lemma_writable_name(m: DeletableTopicResultView, version: i16)
        ensures
            Self::spec_write_name(m, version) is Ok <==> (if version >= 6 { (m.name matches Some(b) ==> b.len() <= 0x7fff) } else { unwrap_or_empty(m.name).len() <= 0x7fff }),
    {
        reveal(DeletableTopicResult::spec_write_name);
    }

    proof fn lemma_writable_topic_id(m: DeletableTopicResultView, version: i16)
        ensures
            Self::spec_write_topic_id(m, version) is Ok <==> true,
    {
        reveal(DeletableTopicResult::spec_write_topic_id);
    }

    proof fn lemma_writable_error_code(m: DeletableTopicResultView, version: i16)
        ensures
            Self::spec_write_error_code(m, version) is Ok <==> true,
    {
        reveal(DeletableTopicResult::spec_write_error_code);
    }

    proof fn lemma_writable_error_message(m: DeletableTopicResultView, version: i16)
        ensures
            Self::spec_write_error_message(m, version) is Ok <==> (if version >= 5 { (m.error_message matches Some(b) ==> b.len() <= 0x7fff) } else { true }),
    {
        reveal(DeletableTopicResult::spec_write_error_message);
    }

    proof fn lemma_writable_tags(m: DeletableTopicResultView, version: i16)
        ensures
            Self::spec_write_tags(m, version) is Ok <==> (if version >= 4 { m.unknown_tagged_fields.len() <= u32::MAX && tags_fit(m.unknown_tagged_fields) } else { true }),
    {
        reveal(DeletableTopicResult::spec_write_tags);
        if version >= 4 {
            lemma_sorted_tags_fit(m.unknown_tagged_fields);
            lemma_tagged_fields_writable(sorted_by_tag(m.unknown_tagged_fields));
        }
    }

    /// Writing `m` in `version` succeeds exactly when `m` is writable in it;
    /// so do `write` and `encoded_len`, whose results follow `spec_write`.
    #[verifier::rlimit(60)]
    pub proof fn lemma_writable(m: DeletableTopicResultView, version: i16)
        ensures
            Self::spec_write(m, version) is Ok <==> Self::writable(m, version),
    {
        Self::lemma_writable_name(m, version);
        Self::lemma_writable_topic_id(m, version);
        Self::lemma_writable_error_code(m, version);
        Self::lemma_writable_error_message(m, version);
        Self::lemma_writable_tags(m, version);
    }

    fn read_name(buf: &mut Bytes, version: i16) -> (r: Result<Option<KafkaString>, Error>)
        ensures
            read_opt_as(Self::spec_read_name(bytes_seq(*old(buf)), version), *final(buf), r),
            took_front(*old(buf), *final(buf)),
    {
        proof {
            reveal(DeletableTopicResult::spec_read_name);
        }
        Ok(if version >= 6 {
                read_compact_nullable_string(buf)?
            } else {
                if version >= 4 {
                    Some(read_compact_string(buf)?)
                } else {
                    Some(read_string(buf)?)
                }
        })
    }

    fn read_topic_id(buf: &mut Bytes, version: i16) -> (r: Result<KafkaUuid, Error>)
        ensures
            read_as(Self::spec_read_topic_id(bytes_seq(*old(buf)), version), *final(buf), r),
            took_front(*old(buf), *final(buf)),
    {
        proof {
            reveal(DeletableTopicResult::spec_read_topic_id);
        }
        Ok(if version >= 6 {
                read_uuid(buf)?
            } else {
                KafkaUuid::zero()
        })
    }

    fn read_error_code(buf: &mut Bytes, version: i16) -> (r: Result<i16, Error>)
        ensures
            read_as(Self::spec_read_error_code(bytes_seq(*old(buf)), version), *final(buf), r),
            took_front(*old(buf), *final(buf)),
    {
        proof {
            reveal(DeletableTopicResult::spec_read_error_code);
        }
        Ok(read_i16(buf)?)
    }

    fn read_error_message(buf: &mut Bytes, version: i16) -> (r: Result<Option<KafkaString>, Error>)
        ensures
            read_opt_as(Self::spec_read_error_message(bytes_seq(*old(buf)), version), *final(buf), r),
            took_front(*old(buf), *final(buf)),
    {
        proof {
            reveal(DeletableTopicResult::spec_read_error_message);
        }
        Ok(if version >= 5 {
                read_compact_nullable_string(buf)?
            } else {
                None
        })
    }

    fn read_tags(buf: &mut Bytes, version: i16) -> (r: Result<Vec<RawTaggedField>, Error>)
        ensures
            read_vec_as(Self::spec_read_tags(bytes_seq(*old(buf)), version), *final(buf), r),
            took_front(*old(buf), *final(buf)),
    {
        proof {
            reveal(DeletableTopicResult::spec_read_tags);
        }
        Ok(if version >= 4 {
                read_tagged_fields(buf)?
            } else {
                empty_vec()
        })
    }

    pub fn read(buf: &mut Bytes, version: i16) -> (r: Result<Self, Error>)
        ensures
            read_as(Self::spec_read(bytes_seq(*old(buf)), version), *final(buf), r),
            took_front(*old(buf), *final(buf)),
    {
        let name = Self::read_name(buf, version)?;
        let topic_id = Self::read_topic_id(buf, version)?;
        let error_code = Self::read_error_code(buf, version)?;
        let error_message = Self::read_error_message(buf, version)?;
        let _unknown_tagged_fields = Self::read_tags(buf, version)?;
        Ok(DeletableTopicResult {
                name: name,
                topic_id: topic_id,
                error_code: error_code,
                error_message: error_message,
                _unknown_tagged_fields: _unknown_tagged_fields,
        })
    }

    #[verifier::rlimit(80)]
    pub fn write(&self, buf: &mut BytesMut, version: i16) -> (r: Result<(), Error>)
        requires
            has_room(Self::spec_write(self@, version), *old(buf)),
        ensures
            wrote(Self::spec_write(self@, version), *old(buf), *final(buf), r),
    {
        let ghost m = self@;
        proof {
            reveal(DeletableTopicResult::spec_write_name);
            reveal(DeletableTopicResult::spec_write_topic_id);
            reveal(DeletableTopicResult::spec_write_error_code);
            reveal(DeletableTopicResult::spec_write_error_message);
            reveal(DeletableTopicResult::spec_write_tags);
        }
        let ghost s0 = Self::spec_write_name(m, version);
        let ghost w0 = s0;
        let ghost s1 = Self::spec_write_topic_id(m, version);
        let ghost w1 = chain(w0, s1);
        let ghost s2 = Self::spec_write_error_code(m, version);
        let ghost w2 = chain(w1, s2);
        let ghost s3 = Self::spec_write_error_message(m, version);
        let ghost w3 = chain(w2, s3);
        let ghost s4 = Self::spec_write_tags(m, version);
        let ghost w4 = chain(w3, s4);
        assert(Self::spec_write(m, version) == w4);
        assert(written(w3).len() <= written(w4).len() && (w3 is Err ==> w4 == w3));
        assert(written(w2).len() <= written(w4).len() && (w2 is Err ==> w4 == w2));
        assert(written(w1).len() <= written(w4).len() && (w1 is Err ==> w4 == w1));
        assert(written(w0).len() <= written(w4).len() && (w0 is Err ==> w4 == w0));
        let ghost mid = bytes_mut_seq(*buf);
        proof {
            lemma_append_empty(mid);
        }
        let r0 = if version >= 6 {
            write_compact_nullable_string(buf, &self.name)
        } else {
            {
                let nn_default = KafkaString::default();
                let nn_val = match &self.name {
                    Some(v) => v,
                    None => &nn_default,
                };
                if version >= 4 {
                    write_compact_string(buf, &*nn_val)
                } else {
                    write_string(buf, &*nn_val)
                }
            }
        };
        assert(bytes_mut_seq(*buf) == mid + written(s0));
        if r0.is_err() {
            return r0;
        }
        let ghost mid = bytes_mut_seq(*buf);
        proof {
            lemma_append_empty(mid);
        }
        let r1 = if version >= 6 {
            {
                write_uuid(buf, self.topic_id);
                Ok(())
            }
        } else {
            Ok(())
        };
        assert(bytes_mut_seq(*buf) == mid + written(s1));
        proof {
            lemma_step(bytes_mut_seq(*old(buf)), w0, s1);
        }
        if r1.is_err() {
            return r1;
        }
        let ghost mid = bytes_mut_seq(*buf);
        proof {
            lemma_append_empty(mid);
        }
        let r2 = {
            write_i16(buf, self.error_code);
            Ok(())
        };
        assert(bytes_mut_seq(*buf) == mid + written(s2));
        proof {
            lemma_step(bytes_mut_seq(*old(buf)), w1, s2);
        }
        if r2.is_err() {
            return r2;
        }
        let ghost mid = bytes_mut_seq(*buf);
        proof {
            lemma_append_empty(mid);
        }
        let r3 = if version >= 5 {
            write_compact_nullable_string(buf, &self.error_message)
        } else {
            Ok(())
        };
        assert(bytes_mut_seq(*buf) == mid + written(s3));
        proof {
            lemma_step(bytes_mut_seq(*old(buf)), w2, s3);
        }
        if r3.is_err() {
            return r3;
        }
        let ghost mid = bytes_mut_seq(*buf);
        proof {
            lemma_append_empty(mid);
        }
        let r4 = if version >= 4 {
            write_tagged_fields(buf, &sort_by_tag(&self._unknown_tagged_fields))
        } else {
            Ok(())
        };
        assert(bytes_mut_seq(*buf) == mid + written(s4));
        proof {
            lemma_step(bytes_mut_seq(*old(buf)), w3, s4);
        }
        if r4.is_err() {
            return r4;
        }
        Ok(())
    }
}

impl Codec for DeletableTopicResult {
    type Item = DeletableTopicResult;

    open spec fn spec_read_item(s: Seq<u8>, version: i16) -> ReadOutcome<DeletableTopicResultView> {
        DeletableTopicResult::spec_read(s, version)
    }

    open spec fn spec_write_item(v: DeletableTopicResultView, version: i16) -> WriteOutcome {
        DeletableTopicResult::spec_write(v, version)
    }

    open spec fn canonical_item(v: DeletableTopicResultView, version: i16) -> bool {
        DeletableTopicResult::canonical(v, version)
    }

    proof fn lemma_item_round_trip(v: DeletableTopicResultView, version: i16, rest: Seq<u8>) {
        DeletableTopicResult::lemma_round_trip(v, version, rest);
    }

    open spec fn writable_item(v: DeletableTopicResultView, version: i16) -> bool {
        DeletableTopicResult::writable(v, version)
    }

    proof fn lemma_item_writable(v: DeletableTopicResultView, version: i16) {
        DeletableTopicResult::lemma_writable(v, version);
    }

    fn read_item(buf: &mut Bytes, version: i16) -> (r: Result<DeletableTopicResult, Error>) {
        DeletableTopicResult::read(buf, version)
    }

    fn write_item(item: &DeletableTopicResult, buf: &mut BytesMut, version: i16) -> (r: Result<(), Error>) {
        item.write(buf, version)
    }
}

} // verus!
