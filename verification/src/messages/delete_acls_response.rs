//! The delete acls response message.
use crate::buffer::{bytes_mut_seq, bytes_seq};
use crate::codec::{Codec, MeasuredCodec, all_canonical, all_writable, array_len, lemma_array_round_trip, lemma_array_writable, read_array, saturating_sum, spec_read_array, spec_write_array, write_array};
use crate::error::{Error, UnsupportedVersion};
use crate::ints::{lemma_i16_roundtrip, lemma_i32_roundtrip, lemma_i8_roundtrip, read_i16, read_i32, read_i8, spec_read_i16, spec_read_i32, spec_read_i8, spec_write_i16, spec_write_i32, spec_write_i8, u16_bytes, u32_bytes, write_i16, write_i32, write_i8};
use crate::strings::{compact_nullable_string_len, compact_string_len, lemma_compact_nullable_string_round_trip, lemma_compact_string_round_trip, lemma_nullable_string_round_trip, lemma_string_round_trip, nullable_string_len, read_compact_nullable_string, read_compact_string, read_nullable_string, read_string, spec_read_compact_nullable_string, spec_read_compact_string, spec_read_nullable_string, spec_read_string, spec_write_compact_nullable_string, spec_write_compact_string, spec_write_nullable_string, spec_write_string, string_len, write_compact_nullable_string, write_compact_string, write_nullable_string, write_string};
use crate::tagged::{lemma_sorted_by_tag_in_order, lemma_sorted_tags_fit, lemma_tagged_fields_round_trip, lemma_tagged_fields_writable, read_tagged_fields, sort_by_tag, sorted_by_tag, spec_read_tagged_fields, spec_write_tagged_fields, tagged_fields_len, tags_fit, tags_in_order, write_tagged_fields};
use crate::types::{KafkaString, RawTaggedField};
use crate::wire::{ReadOutcome, ViewClone, WriteOutcome, chain, clone_vec, emit, empty_vec, fail, has_room, lemma_append_empty, lemma_chain_written, lemma_len_step, lemma_step, len_result, opt_view, read_as, read_opt_as, read_vec_as, saturate, took_front, views, written, wrote};
use bytes::{Bytes, BytesMut};
use vstd::prelude::*;

verus! {

broadcast use {crate::wire::lemma_chain_written, crate::wire::lemma_took_front_nothing, crate::wire::lemma_took_front_twice};

#[derive(Debug, PartialEq)]
pub struct DeleteAclsResponseData {
    /// The duration in milliseconds for which the request was throttled due to a quota violation,
    /// or zero if the request did not violate any quota.
    pub throttle_time_ms: i32,
    /// The results for each filter.
    pub filter_results: Vec<DeleteAclsFilterResult>,
    pub _unknown_tagged_fields: Vec<RawTaggedField>,
}

/// What a `DeleteAclsResponseData` holds, as the specification sees it.
#[verifier::ext_equal]
pub struct DeleteAclsResponseDataView {
    pub throttle_time_ms: i32,
    pub filter_results: Seq<DeleteAclsFilterResultView>,
    pub unknown_tagged_fields: Seq<(u32, Seq<u8>)>,
}

impl View for DeleteAclsResponseData {
    type V = DeleteAclsResponseDataView;

    open spec fn view(&self) -> DeleteAclsResponseDataView {
        DeleteAclsResponseDataView {
            throttle_time_ms: self.throttle_time_ms,
            filter_results: views(self.filter_results@),
            unknown_tagged_fields: views(self._unknown_tagged_fields@),
        }
    }
}

impl Clone for DeleteAclsResponseData {
    fn clone(&self) -> (r: Self)
        ensures
            r@ == self@,
    {
        let r = DeleteAclsResponseData {
            throttle_time_ms: self.throttle_time_ms,
            filter_results: clone_vec(&self.filter_results),
            _unknown_tagged_fields: clone_vec(&self._unknown_tagged_fields),
        };
        assert(r@ =~= self@);
        r
    }
}

impl ViewClone for DeleteAclsResponseData {
    fn clone_view(&self) -> (r: Self) {
        self.clone()
    }
}

impl Default for DeleteAclsResponseData {
    fn default() -> (r: Self)
        ensures
            r@ == Self::default_view(),
    {
        let r = DeleteAclsResponseData {
            throttle_time_ms: 0_i32,
            filter_results: empty_vec(),
            _unknown_tagged_fields: empty_vec(),
        };
        assert(r@ =~= Self::default_view());
        r
    }
}

impl DeleteAclsResponseData {
    pub open spec fn default_view() -> DeleteAclsResponseDataView {
        DeleteAclsResponseDataView {
            throttle_time_ms: 0_i32,
            filter_results: Seq::empty(),
            unknown_tagged_fields: Seq::empty(),
        }
    }

    /// The `throttle_time_ms` field, read from the front of `s`.
    #[verifier::opaque]
    pub open spec fn spec_read_throttle_time_ms(s: Seq<u8>, version: i16) -> ReadOutcome<i32> {
        spec_read_i32(s)
    }

    /// The `filter_results` field, read from the front of `s`.
    #[verifier::opaque]
    pub open spec fn spec_read_filter_results(s: Seq<u8>, version: i16) -> ReadOutcome<Seq<DeleteAclsFilterResultView>> {
        if version >= 2 {
            spec_read_array::<DeleteAclsFilterResult>(s, version, true)
        } else {
            spec_read_array::<DeleteAclsFilterResult>(s, version, false)
        }
    }

    /// The tagged fields, read from the front of `s`.
    #[verifier::opaque]
    pub open spec fn spec_read_tags(s: Seq<u8>, version: i16) -> ReadOutcome<Seq<(u32, Seq<u8>)>> {
        if version >= 2 {
            spec_read_tagged_fields(s)
        } else {
            Ok((Seq::empty(), s))
        }
    }

    pub open spec fn spec_read(s: Seq<u8>, version: i16) -> ReadOutcome<DeleteAclsResponseDataView> {
        if version < 1 || version > 3 {
            Err(Error::UnsupportedVersion(UnsupportedVersion { api_key: 31, version }))
        } else {
            match (Self::spec_read_throttle_time_ms(s, version)) {
                Err(e) => Err(e),
                Ok((throttle_time_ms, s)) => match (Self::spec_read_filter_results(s, version)) {
                    Err(e) => Err(e),
                    Ok((filter_results, s)) => match (Self::spec_read_tags(s, version)) {
                        Err(e) => Err(e),
                        Ok((unknown_tagged_fields, s)) => Ok((DeleteAclsResponseDataView {
                                    throttle_time_ms: throttle_time_ms,
                                    filter_results: filter_results,
                                    unknown_tagged_fields: unknown_tagged_fields,
                                }, s)),
                    },
                },
            }
        }
    }

    /// What writing the `throttle_time_ms` field of `m` appends.
    #[verifier::opaque]
    pub open spec fn spec_write_throttle_time_ms(m: DeleteAclsResponseDataView, version: i16) -> WriteOutcome {
        spec_write_i32(m.throttle_time_ms)
    }

    /// What writing the `filter_results` field of `m` appends.
    #[verifier::opaque]
    pub open spec fn spec_write_filter_results(m: DeleteAclsResponseDataView, version: i16) -> WriteOutcome {
        if version >= 2 {
            spec_write_array::<DeleteAclsFilterResult>(m.filter_results, version, true)
        } else {
            spec_write_array::<DeleteAclsFilterResult>(m.filter_results, version, false)
        }
    }

    /// What writing the tagged fields of `m` appends.
    #[verifier::opaque]
    pub open spec fn spec_write_tags(m: DeleteAclsResponseDataView, version: i16) -> WriteOutcome {
        if version >= 2 {
            spec_write_tagged_fields(sorted_by_tag(m.unknown_tagged_fields))
        } else {
            emit(Seq::empty())
        }
    }

    pub open spec fn spec_write(m: DeleteAclsResponseDataView, version: i16) -> WriteOutcome {
        if version < 1 || version > 3 {
            fail(Error::UnsupportedVersion(UnsupportedVersion { api_key: 31, version }))
        } else {
            chain(
                chain(
                    Self::spec_write_throttle_time_ms(m, version),
                    Self::spec_write_filter_results(m, version),
                ),
                Self::spec_write_tags(m, version),
            )
        }
    }

    /// Whether reading back what writing `m` in `version` appends gives `m`:
    /// fields that the version does not carry hold their default values, and
    /// tagged fields come in the order in which they are written.
    pub open spec fn canonical(m: DeleteAclsResponseDataView, version: i16) -> bool {
        &&& all_canonical::<DeleteAclsFilterResult>(m.filter_results, version)
        &&& (if version >= 2 {
                tags_in_order(m.unknown_tagged_fields)
            } else {
                m.unknown_tagged_fields.len() == 0
        })
    }

    proof fn lemma_round_trip_throttle_time_ms(m: DeleteAclsResponseDataView, version: i16, rest: Seq<u8>)
        requires
            Self::canonical(m, version),
            Self::spec_write_throttle_time_ms(m, version) is Ok,
        ensures
            Self::spec_read_throttle_time_ms(written(Self::spec_write_throttle_time_ms(m, version)) + rest, version) == Ok::<(i32, Seq<u8>), Error>((m.throttle_time_ms, rest)),
    {
        reveal(DeleteAclsResponseData::spec_read_throttle_time_ms);
        reveal(DeleteAclsResponseData::spec_write_throttle_time_ms);
        lemma_i32_roundtrip(m.throttle_time_ms, rest);
    }

    proof fn lemma_round_trip_filter_results(m: DeleteAclsResponseDataView, version: i16, rest: Seq<u8>)
        requires
            Self::canonical(m, version),
            Self::spec_write_filter_results(m, version) is Ok,
        ensures
            Self::spec_read_filter_results(written(Self::spec_write_filter_results(m, version)) + rest, version) == Ok::<(Seq<DeleteAclsFilterResultView>, Seq<u8>), Error>((m.filter_results, rest)),
    {
        reveal(DeleteAclsResponseData::spec_read_filter_results);
        reveal(DeleteAclsResponseData::spec_write_filter_results);
        if version >= 2 {
            lemma_array_round_trip::<DeleteAclsFilterResult>(m.filter_results, version, true, rest);
        } else {
            lemma_array_round_trip::<DeleteAclsFilterResult>(m.filter_results, version, false, rest);
        }
    }

    proof fn lemma_round_trip_tags(m: DeleteAclsResponseDataView, version: i16, rest: Seq<u8>)
        requires
            Self::canonical(m, version),
            Self::spec_write_tags(m, version) is Ok,
        ensures
            Self::spec_read_tags(written(Self::spec_write_tags(m, version)) + rest, version) == Ok::<(Seq<(u32, Seq<u8>)>, Seq<u8>), Error>((m.unknown_tagged_fields, rest)),
    {
        reveal(DeleteAclsResponseData::spec_read_tags);
        reveal(DeleteAclsResponseData::spec_write_tags);
        if version >= 2 {
            lemma_sorted_by_tag_in_order(m.unknown_tagged_fields);
            lemma_tagged_fields_round_trip(m.unknown_tagged_fields, rest);
        } else {
            assert(Seq::<u8>::empty() + rest =~= rest);
            assert(m.unknown_tagged_fields =~= Seq::empty());
        }
    }

    /// Reading back what writing `m` in `version` appends gives `m` again, and
    /// leaves what follows, for every canonical message whose write succeeds.
    #[verifier::rlimit(70)]
    #[verifier::spinoff_prover]
    pub proof fn lemma_round_trip(m: DeleteAclsResponseDataView, version: i16, rest: Seq<u8>)
        requires
            Self::canonical(m, version),
            Self::spec_write(m, version) is Ok,
        ensures
            Self::spec_read(written(Self::spec_write(m, version)) + rest, version) == Ok::<(DeleteAclsResponseDataView, Seq<u8>), Error>((m, rest)),
    {
        let b0 = written(Self::spec_write_throttle_time_ms(m, version));
        let b1 = written(Self::spec_write_filter_results(m, version));
        let b2 = written(Self::spec_write_tags(m, version));
        let t3 = rest;
        let t2 = b2 + t3;
        let t1 = b1 + t2;
        let t0 = b0 + t1;
        let w0 = Self::spec_write_throttle_time_ms(m, version);
        let w1 = chain(w0, Self::spec_write_filter_results(m, version));
        let w2 = chain(w1, Self::spec_write_tags(m, version));
        assert(Self::spec_write(m, version) == w2);
        assert(written(w2) + t3 =~= written(w1) + t2);
        assert(written(w1) + t2 =~= written(w0) + t1);
        Self::lemma_round_trip_throttle_time_ms(m, version, t1);
        Self::lemma_round_trip_filter_results(m, version, t2);
        Self::lemma_round_trip_tags(m, version, t3);
    }

    /// In a version that does not carry `unknown_tagged_fields`, writing ignores its value.
    pub proof fn lemma_write_ignores_unknown_tagged_fields(m: DeleteAclsResponseDataView, value: Seq<(u32, Seq<u8>)>, version: i16)
        requires
            !(version >= 2),
        ensures
            Self::spec_write((DeleteAclsResponseDataView { unknown_tagged_fields: value, ..m }), version) == Self::spec_write(m, version),
    {
        reveal(DeleteAclsResponseData::spec_write_throttle_time_ms);
        reveal(DeleteAclsResponseData::spec_write_filter_results);
        reveal(DeleteAclsResponseData::spec_write_tags);
    }

    /// The default message holds the default value of each field of the schema.
    pub proof fn lemma_default_values()
        ensures
            Self::default_view().throttle_time_ms == (0_i32),
            Self::default_view().filter_results.len() == 0,
            Self::default_view().unknown_tagged_fields.len() == 0,
    {
    }

    /// Each integer, boolean and identifier field is written as its standard
    /// big-endian bytes (a boolean as `1` or `0`) in the versions that carry
    /// it, and as nothing in the others; reading it takes those bytes back (any
    /// byte other than `0` reads as `true`), or gives its default value.
    pub proof fn lemma_field_encodings(m: DeleteAclsResponseDataView, s: Seq<u8>, version: i16)
        ensures
            true ==> Self::spec_write_throttle_time_ms(m, version) == Ok::<Seq<u8>, (Error, Seq<u8>)>(u32_bytes(m.throttle_time_ms as u32)),
            true ==> Self::spec_read_throttle_time_ms(s, version) == spec_read_i32(s),
    {
        reveal(DeleteAclsResponseData::spec_write_throttle_time_ms);
        reveal(DeleteAclsResponseData::spec_read_throttle_time_ms);
    }

    /// Whether writing `m` in `version` succeeds, said over its parts: the
    /// version is one the schema covers, every field that the version cannot
    /// carry holds its default value, and every string, byte string, array and
    /// tagged field fits its length prefix.
    pub open spec fn writable(m: DeleteAclsResponseDataView, version: i16) -> bool {
        &&& 1 <= version <= 3
        &&& (m.filter_results.len() <= i32::MAX && all_writable::<DeleteAclsFilterResult>(m.filter_results, version))
        &&& (if version >= 2 {
                m.unknown_tagged_fields.len() <= u32::MAX && tags_fit(m.unknown_tagged_fields)
            } else {
                true
        })
    }

    proof fn lemma_writable_throttle_time_ms(m: DeleteAclsResponseDataView, version: i16)
        ensures
            Self::spec_write_throttle_time_ms(m, version) is Ok <==> true,
    {
        reveal(DeleteAclsResponseData::spec_write_throttle_time_ms);
    }

    proof fn lemma_writable_filter_results(m: DeleteAclsResponseDataView, version: i16)
        ensures
            Self::spec_write_filter_results(m, version) is Ok <==> (m.filter_results.len() <= i32::MAX && all_writable::<DeleteAclsFilterResult>(m.filter_results, version)),
    {
        reveal(DeleteAclsResponseData::spec_write_filter_results);
        if version >= 2 {
            lemma_array_writable::<DeleteAclsFilterResult>(m.filter_results, version, true);
        } else {
            lemma_array_writable::<DeleteAclsFilterResult>(m.filter_results, version, false);
        }
    }

    proof fn lemma_writable_tags(m: DeleteAclsResponseDataView, version: i16)
        ensures
            Self::spec_write_tags(m, version) is Ok <==> (if version >= 2 { m.unknown_tagged_fields.len() <= u32::MAX && tags_fit(m.unknown_tagged_fields) } else { true }),
    {
        reveal(DeleteAclsResponseData::spec_write_tags);
        if version >= 2 {
            lemma_sorted_tags_fit(m.unknown_tagged_fields);
            lemma_tagged_fields_writable(sorted_by_tag(m.unknown_tagged_fields));
        }
    }

    /// Writing `m` in `version` succeeds exactly when `m` is writable in it;
    /// so do `write` and `encoded_len`, whose results follow `spec_write`.
    #[verifier::rlimit(48)]
    pub proof fn lemma_writable(m: DeleteAclsResponseDataView, version: i16)
        ensures
            Self::spec_write(m, version) is Ok <==> Self::writable(m, version),
    {
        Self::lemma_writable_throttle_time_ms(m, version);
        Self::lemma_writable_filter_results(m, version);
        Self::lemma_writable_tags(m, version);
    }

    /// A version outside the range that the schema covers is refused, by
    /// reads and by writes alike, before anything is read or written.
    pub proof fn lemma_refused_version(m: DeleteAclsResponseDataView, s: Seq<u8>, version: i16)
        requires
            version < 1 || version > 3,
        ensures
            Self::spec_read(s, version) == Err::<(DeleteAclsResponseDataView, Seq<u8>), Error>(Error::UnsupportedVersion(UnsupportedVersion { api_key: 31, version })),
            Self::spec_write(m, version) == fail(Error::UnsupportedVersion(UnsupportedVersion { api_key: 31, version })),
    {
    }

    pub fn with_throttle_time_ms(self, value: i32) -> (r: Self)
        ensures
            r@ == (DeleteAclsResponseDataView { throttle_time_ms: value, ..self@ }),
    {
        let mut r = self;
        r.throttle_time_ms = value;
        r
    }

    pub fn with_filter_results(self, value: Vec<DeleteAclsFilterResult>) -> (r: Self)
        ensures
            r@ == (DeleteAclsResponseDataView { filter_results: views(value@), ..self@ }),
    {
        let mut r = self;
        r.filter_results = value;
        r
    }

    fn read_throttle_time_ms(buf: &mut Bytes, version: i16) -> (r: Result<i32, Error>)
        ensures
            read_as(Self::spec_read_throttle_time_ms(bytes_seq(*old(buf)), version), *final(buf), r),
            took_front(*old(buf), *final(buf)),
    {
        proof {
            reveal(DeleteAclsResponseData::spec_read_throttle_time_ms);
        }
        Ok(read_i32(buf)?)
    }

    fn read_filter_results(buf: &mut Bytes, version: i16) -> (r: Result<Vec<DeleteAclsFilterResult>, Error>)
        ensures
            read_vec_as(Self::spec_read_filter_results(bytes_seq(*old(buf)), version), *final(buf), r),
            took_front(*old(buf), *final(buf)),
    {
        proof {
            reveal(DeleteAclsResponseData::spec_read_filter_results);
        }
        Ok(if version >= 2 {
                read_array::<DeleteAclsFilterResult>(buf, version, true)?
            } else {
                read_array::<DeleteAclsFilterResult>(buf, version, false)?
        })
    }

    fn read_tags(buf: &mut Bytes, version: i16) -> (r: Result<Vec<RawTaggedField>, Error>)
        ensures
            read_vec_as(Self::spec_read_tags(bytes_seq(*old(buf)), version), *final(buf), r),
            took_front(*old(buf), *final(buf)),
    {
        proof {
            reveal(DeleteAclsResponseData::spec_read_tags);
        }
        Ok(if version >= 2 {
                read_tagged_fields(buf)?
            } else {
                empty_vec()
        })
    }

    pub fn read(buf: &mut Bytes, version: i16) -> (r: Result<Self, Error>)
        ensures
            read_as(Self::spec_read(bytes_seq(*old(buf)), version), *final(buf), r),
            took_front(*old(buf), *final(buf)),
            (version < 1 || version > 3) ==> bytes_seq(*final(buf)) == bytes_seq(*old(buf)),
    {
        if version < 1 || version > 3 {
            return Err(Error::UnsupportedVersion(UnsupportedVersion::new(31, version)));
        }
        let throttle_time_ms = Self::read_throttle_time_ms(buf, version)?;
        let filter_results = Self::read_filter_results(buf, version)?;
        let _unknown_tagged_fields = Self::read_tags(buf, version)?;
        Ok(DeleteAclsResponseData {
                throttle_time_ms: throttle_time_ms,
                filter_results: filter_results,
                _unknown_tagged_fields: _unknown_tagged_fields,
        })
    }

    #[verifier::rlimit(60)]
    pub fn write(&self, buf: &mut BytesMut, version: i16) -> (r: Result<(), Error>)
        requires
            has_room(Self::spec_write(self@, version), *old(buf)),
        ensures
            wrote(Self::spec_write(self@, version), *old(buf), *final(buf), r),
    {
        if version < 1 || version > 3 {
            return Err(Error::UnsupportedVersion(UnsupportedVersion::new(31, version)));
        }
        let ghost m = self@;
        proof {
            reveal(DeleteAclsResponseData::spec_write_throttle_time_ms);
            reveal(DeleteAclsResponseData::spec_write_filter_results);
            reveal(DeleteAclsResponseData::spec_write_tags);
        }
        let ghost s0 = Self::spec_write_throttle_time_ms(m, version);
        let ghost w0 = s0;
        let ghost s1 = Self::spec_write_filter_results(m, version);
        let ghost w1 = chain(w0, s1);
        let ghost s2 = Self::spec_write_tags(m, version);
        let ghost w2 = chain(w1, s2);
        assert(Self::spec_write(m, version) == w2);
        assert(written(w1).len() <= written(w2).len() && (w1 is Err ==> w2 == w1));
        assert(written(w0).len() <= written(w2).len() && (w0 is Err ==> w2 == w0));
        let ghost mid = bytes_mut_seq(*buf);
        proof {
            lemma_append_empty(mid);
        }
        let r0 = {
            write_i32(buf, self.throttle_time_ms);
            Ok(())
        };
        assert(bytes_mut_seq(*buf) == mid + written(s0));
        if r0.is_err() {
            return r0;
        }
        let ghost mid = bytes_mut_seq(*buf);
        proof {
            lemma_append_empty(mid);
        }
        let r1 = if version >= 2 {
            write_array::<DeleteAclsFilterResult>(buf, &self.filter_results, version, true)
        } else {
            write_array::<DeleteAclsFilterResult>(buf, &self.filter_results, version, false)
        };
        assert(bytes_mut_seq(*buf) == mid + written(s1));
        proof {
            lemma_step(bytes_mut_seq(*old(buf)), w0, s1);
        }
        if r1.is_err() {
            return r1;
        }
        let ghost mid = bytes_mut_seq(*buf);
        proof {
            lemma_append_empty(mid);
        }
        let r2 = if version >= 2 {
            write_tagged_fields(buf, &sort_by_tag(&self._unknown_tagged_fields))
        } else {
            Ok(())
        };
        assert(bytes_mut_seq(*buf) == mid + written(s2));
        proof {
            lemma_step(bytes_mut_seq(*old(buf)), w1, s2);
        }
        if r2.is_err() {
            return r2;
        }
        Ok(())
    }

    #[verifier::rlimit(60)]
    pub fn encoded_len(&self, version: i16) -> (r: Result<usize, Error>)
        ensures
            r == len_result(Self::spec_write(self@, version)),
    {
        if version < 1 || version > 3 {
            return Err(Error::UnsupportedVersion(UnsupportedVersion::new(31, version)));
        }
        let ghost m = self@;
        proof {
            reveal(DeleteAclsResponseData::spec_write_throttle_time_ms);
            reveal(DeleteAclsResponseData::spec_write_filter_results);
            reveal(DeleteAclsResponseData::spec_write_tags);
        }
        let ghost s0 = Self::spec_write_throttle_time_ms(m, version);
        let ghost w0 = s0;
        let ghost s1 = Self::spec_write_filter_results(m, version);
        let ghost w1 = chain(w0, s1);
        let ghost s2 = Self::spec_write_tags(m, version);
        let ghost w2 = chain(w1, s2);
        assert(Self::spec_write(m, version) == w2);
        assert(w1 is Err ==> w2 == w1);
        assert(w0 is Err ==> w2 == w0);
        let mut len: usize = 0;
        let l0 = Ok(4);
        assert(l0 == len_result(s0));
        let n0 = match l0 {
            Ok(n) => n,
            Err(e) => {
                return Err(e);
            },
        };
        len = saturating_sum(len, n0);
        assert(w0 is Ok && len == saturate(written(w0).len() as int));
        let l1 = if version >= 2 {
            array_len::<DeleteAclsFilterResult>(&self.filter_results, version, true)
        } else {
            array_len::<DeleteAclsFilterResult>(&self.filter_results, version, false)
        };
        assert(l1 == len_result(s1));
        let n1 = match l1 {
            Ok(n) => n,
            Err(e) => {
                return Err(e);
            },
        };
        proof {
            lemma_len_step(w0, s1, n1);
        }
        len = saturating_sum(len, n1);
        assert(w1 is Ok && len == saturate(written(w1).len() as int));
        let l2 = if version >= 2 {
            tagged_fields_len(&sort_by_tag(&self._unknown_tagged_fields))
        } else {
            Ok(0)
        };
        assert(l2 == len_result(s2));
        let n2 = match l2 {
            Ok(n) => n,
            Err(e) => {
                return Err(e);
            },
        };
        proof {
            lemma_len_step(w1, s2, n2);
        }
        len = saturating_sum(len, n2);
        assert(w2 is Ok && len == saturate(written(w2).len() as int));
        Ok(len)
    }
}

#[derive(Debug, PartialEq)]
pub struct DeleteAclsFilterResult {
    /// The error code, or 0 if the filter succeeded.
    pub error_code: i16,
    /// The error message, or null if the filter succeeded.
    pub error_message: Option<KafkaString>,
    /// The ACLs which matched this filter.
    pub matching_acls: Vec<DeleteAclsMatchingAcl>,
    pub _unknown_tagged_fields: Vec<RawTaggedField>,
}

/// What a `DeleteAclsFilterResult` holds, as the specification sees it.
#[verifier::ext_equal]
pub struct DeleteAclsFilterResultView {
    pub error_code: i16,
    pub error_message: Option<Seq<u8>>,
    pub matching_acls: Seq<DeleteAclsMatchingAclView>,
    pub unknown_tagged_fields: Seq<(u32, Seq<u8>)>,
}

impl View for DeleteAclsFilterResult {
    type V = DeleteAclsFilterResultView;

    open spec fn view(&self) -> DeleteAclsFilterResultView {
        DeleteAclsFilterResultView {
            error_code: self.error_code,
            error_message: opt_view(self.error_message),
            matching_acls: views(self.matching_acls@),
            unknown_tagged_fields: views(self._unknown_tagged_fields@),
        }
    }
}

impl Clone for DeleteAclsFilterResult {
    fn clone(&self) -> (r: Self)
        ensures
            r@ == self@,
    {
        let r = DeleteAclsFilterResult {
            error_code: self.error_code,
            error_message: match &self.error_message {
                Some(x) => Some(x.clone()),
                None => None,
            },
            matching_acls: clone_vec(&self.matching_acls),
            _unknown_tagged_fields: clone_vec(&self._unknown_tagged_fields),
        };
        assert(r@ =~= self@);
        r
    }
}

impl ViewClone for DeleteAclsFilterResult {
    fn clone_view(&self) -> (r: Self) {
        self.clone()
    }
}

impl Default for DeleteAclsFilterResult {
    fn default() -> (r: Self)
        ensures
            r@ == Self::default_view(),
    {
        let r = DeleteAclsFilterResult {
            error_code: 0_i16,
            error_message: None,
            matching_acls: empty_vec(),
            _unknown_tagged_fields: empty_vec(),
        };
        assert(r@ =~= Self::default_view());
        r
    }
}

impl DeleteAclsFilterResult {
    pub open spec fn default_view() -> DeleteAclsFilterResultView {
        DeleteAclsFilterResultView {
            error_code: 0_i16,
            error_message: None,
            matching_acls: Seq::empty(),
            unknown_tagged_fields: Seq::empty(),
        }
    }

    /// The `error_code` field, read from the front of `s`.
    #[verifier::opaque]
    pub open spec fn spec_read_error_code(s: Seq<u8>, version: i16) -> ReadOutcome<i16> {
        spec_read_i16(s)
    }

    /// The `error_message` field, read from the front of `s`.
    #[verifier::opaque]
    pub open spec fn spec_read_error_message(s: Seq<u8>, version: i16) -> ReadOutcome<Option<Seq<u8>>> {
        if version >= 2 {
            spec_read_compact_nullable_string(s)
        } else {
            spec_read_nullable_string(s)
        }
    }

    /// The `matching_acls` field, read from the front of `s`.
    #[verifier::opaque]
    pub open spec fn spec_read_matching_acls(s: Seq<u8>, version: i16) -> ReadOutcome<Seq<DeleteAclsMatchingAclView>> {
        if version >= 2 {
            spec_read_array::<DeleteAclsMatchingAcl>(s, version, true)
        } else {
            spec_read_array::<DeleteAclsMatchingAcl>(s, version, false)
        }
    }

    /// The tagged fields, read from the front of `s`.
    #[verifier::opaque]
    pub open spec fn spec_read_tags(s: Seq<u8>, version: i16) -> ReadOutcome<Seq<(u32, Seq<u8>)>> {
        if version >= 2 {
            spec_read_tagged_fields(s)
        } else {
            Ok((Seq::empty(), s))
        }
    }

    pub open spec fn spec_read(s: Seq<u8>, version: i16) -> ReadOutcome<DeleteAclsFilterResultView> {
        match (Self::spec_read_error_code(s, version)) {
            Err(e) => Err(e),
            Ok((error_code, s)) => match (Self::spec_read_error_message(s, version)) {
                Err(e) => Err(e),
                Ok((error_message, s)) => match (Self::spec_read_matching_acls(s, version)) {
                    Err(e) => Err(e),
                    Ok((matching_acls, s)) => match (Self::spec_read_tags(s, version)) {
                        Err(e) => Err(e),
                        Ok((unknown_tagged_fields, s)) => Ok((DeleteAclsFilterResultView {
                                    error_code: error_code,
                                    error_message: error_message,
                                    matching_acls: matching_acls,
                                    unknown_tagged_fields: unknown_tagged_fields,
                                }, s)),
                    },
                },
            },
        }
    }

    /// What writing the `error_code` field of `m` appends.
    #[verifier::opaque]
    pub open spec fn spec_write_error_code(m: DeleteAclsFilterResultView, version: i16) -> WriteOutcome {
        spec_write_i16(m.error_code)
    }

    /// What writing the `error_message` field of `m` appends.
    #[verifier::opaque]
    pub open spec fn spec_write_error_message(m: DeleteAclsFilterResultView, version: i16) -> WriteOutcome {
        if version >= 2 {
            spec_write_compact_nullable_string(m.error_message)
        } else {
            spec_write_nullable_string(m.error_message)
        }
    }

    /// What writing the `matching_acls` field of `m` appends.
    #[verifier::opaque]
    pub open spec fn spec_write_matching_acls(m: DeleteAclsFilterResultView, version: i16) -> WriteOutcome {
        if version >= 2 {
            spec_write_array::<DeleteAclsMatchingAcl>(m.matching_acls, version, true)
        } else {
            spec_write_array::<DeleteAclsMatchingAcl>(m.matching_acls, version, false)
        }
    }

    /// What writing the tagged fields of `m` appends.
    #[verifier::opaque]
    pub open spec fn spec_write_tags(m: DeleteAclsFilterResultView, version: i16) -> WriteOutcome {
        if version >= 2 {
            spec_write_tagged_fields(sorted_by_tag(m.unknown_tagged_fields))
        } else {
            emit(Seq::empty())
        }
    }

    pub open spec fn spec_write(m: DeleteAclsFilterResultView, version: i16) -> WriteOutcome {
        chain(
            chain(
                chain(
                    Self::spec_write_error_code(m, version),
                    Self::spec_write_error_message(m, version),
                ),
                Self::spec_write_matching_acls(m, version),
            ),
            Self::spec_write_tags(m, version),
        )
    }

    /// Whether reading back what writing `m` in `version` appends gives `m`:
    /// fields that the version does not carry hold their default values, and
    /// tagged fields come in the order in which they are written.
    pub open spec fn canonical(m: DeleteAclsFilterResultView, version: i16) -> bool {
        &&& all_canonical::<DeleteAclsMatchingAcl>(m.matching_acls, version)
        &&& (if version >= 2 {
                tags_in_order(m.unknown_tagged_fields)
            } else {
                m.unknown_tagged_fields.len() == 0
        })
    }

    proof fn lemma_round_trip_error_code(m: DeleteAclsFilterResultView, version: i16, rest: Seq<u8>)
        requires
            Self::canonical(m, version),
            Self::spec_write_error_code(m, version) is Ok,
        ensures
            Self::spec_read_error_code(written(Self::spec_write_error_code(m, version)) + rest, version) == Ok::<(i16, Seq<u8>), Error>((m.error_code, rest)),
    {
        reveal(DeleteAclsFilterResult::spec_read_error_code);
        reveal(DeleteAclsFilterResult::spec_write_error_code);
        lemma_i16_roundtrip(m.error_code, rest);
    }

    proof fn lemma_round_trip_error_message(m: DeleteAclsFilterResultView, version: i16, rest: Seq<u8>)
        requires
            Self::canonical(m, version),
            Self::spec_write_error_message(m, version) is Ok,
        ensures
            Self::spec_read_error_message(written(Self::spec_write_error_message(m, version)) + rest, version) == Ok::<(Option<Seq<u8>>, Seq<u8>), Error>((m.error_message, rest)),
    {
        reveal(DeleteAclsFilterResult::spec_read_error_message);
        reveal(DeleteAclsFilterResult::spec_write_error_message);
        if version >= 2 {
            lemma_compact_nullable_string_round_trip(m.error_message, rest);
        } else {
            lemma_nullable_string_round_trip(m.error_message, rest);
        }
    }

    proof fn lemma_round_trip_matching_acls(m: DeleteAclsFilterResultView, version: i16, rest: Seq<u8>)
        requires
            Self::canonical(m, version),
            Self::spec_write_matching_acls(m, version) is Ok,
        ensures
            Self::spec_read_matching_acls(written(Self::spec_write_matching_acls(m, version)) + rest, version) == Ok::<(Seq<DeleteAclsMatchingAclView>, Seq<u8>), Error>((m.matching_acls, rest)),
    {
        reveal(DeleteAclsFilterResult::spec_read_matching_acls);
        reveal(DeleteAclsFilterResult::spec_write_matching_acls);
        if version >= 2 {
            lemma_array_round_trip::<DeleteAclsMatchingAcl>(m.matching_acls, version, true, rest);
        } else {
            lemma_array_round_trip::<DeleteAclsMatchingAcl>(m.matching_acls, version, false, rest);
        }
    }

    proof fn lemma_round_trip_tags(m: DeleteAclsFilterResultView, version: i16, rest: Seq<u8>)
        requires
            Self::canonical(m, version),
            Self::spec_write_tags(m, version) is Ok,
        ensures
            Self::spec_read_tags(written(Self::spec_write_tags(m, version)) + rest, version) == Ok::<(Seq<(u32, Seq<u8>)>, Seq<u8>), Error>((m.unknown_tagged_fields, rest)),
    {
        reveal(DeleteAclsFilterResult::spec_read_tags);
        reveal(DeleteAclsFilterResult::spec_write_tags);
        if version >= 2 {
            lemma_sorted_by_tag_in_order(m.unknown_tagged_fields);
            lemma_tagged_fields_round_trip(m.unknown_tagged_fields, rest);
        } else {
            assert(Seq::<u8>::empty() + rest =~= rest);
            assert(m.unknown_tagged_fields =~= Seq::empty());
        }
    }

    /// Reading back what writing `m` in `version` appends gives `m` again, and
    /// leaves what follows, for every canonical message whose write succeeds.
    #[verifier::rlimit(80)]
    #[verifier::spinoff_prover]
    pub proof fn lemma_round_trip(m: DeleteAclsFilterResultView, version: i16, rest: Seq<u8>)
        requires
            Self::canonical(m, version),
            Self::spec_write(m, version) is Ok,
        ensures
            Self::spec_read(written(Self::spec_write(m, version)) + rest, version) == Ok::<(DeleteAclsFilterResultView, Seq<u8>), Error>((m, rest)),
    {
        let b0 = written(Self::spec_write_error_code(m, version));
        let b1 = written(Self::spec_write_error_message(m, version));
        let b2 = written(Self::spec_write_matching_acls(m, version));
        let b3 = written(Self::spec_write_tags(m, version));
        let t4 = rest;
        let t3 = b3 + t4;
        let t2 = b2 + t3;
        let t1 = b1 + t2;
        let t0 = b0 + t1;
        let w0 = Self::spec_write_error_code(m, version);
        let w1 = chain(w0, Self::spec_write_error_message(m, version));
        let w2 = chain(w1, Self::spec_write_matching_acls(m, version));
        let w3 = chain(w2, Self::spec_write_tags(m, version));
        assert(Self::spec_write(m, version) == w3);
        assert(written(w3) + t4 =~= written(w2) + t3);
        assert(written(w2) + t3 =~= written(w1) + t2);
        assert(written(w1) + t2 =~= written(w0) + t1);
        Self::lemma_round_trip_error_code(m, version, t1);
        Self::lemma_round_trip_error_message(m, version, t2);
        Self::lemma_round_trip_matching_acls(m, version, t3);
        Self::lemma_round_trip_tags(m, version, t4);
    }

    /// In a version that does not carry `unknown_tagged_fields`, writing ignores its value.
    pub proof fn lemma_write_ignores_unknown_tagged_fields(m: DeleteAclsFilterResultView, value: Seq<(u32, Seq<u8>)>, version: i16)
        requires
            !(version >= 2),
        ensures
            Self::spec_write((DeleteAclsFilterResultView { unknown_tagged_fields: value, ..m }), version) == Self::spec_write(m, version),
    {
        reveal(DeleteAclsFilterResult::spec_write_error_code);
        reveal(DeleteAclsFilterResult::spec_write_error_message);
        reveal(DeleteAclsFilterResult::spec_write_matching_acls);
        reveal(DeleteAclsFilterResult::spec_write_tags);
    }

    /// The default message holds the default value of each field of the schema.
    pub proof fn lemma_default_values()
        ensures
            Self::default_view().error_code == (0_i16),
            (Self::default_view().error_message is None),
            Self::default_view().matching_acls.len() == 0,
            Self::default_view().unknown_tagged_fields.len() == 0,
    {
    }

    /// Each integer, boolean and identifier field is written as its standard
    /// big-endian bytes (a boolean as `1` or `0`) in the versions that carry
    /// it, and as nothing in the others; reading it takes those bytes back (any
    /// byte other than `0` reads as `true`), or gives its default value.
    pub proof fn lemma_field_encodings(m: DeleteAclsFilterResultView, s: Seq<u8>, version: i16)
        ensures
            true ==> Self::spec_write_error_code(m, version) == Ok::<Seq<u8>, (Error, Seq<u8>)>(u16_bytes(m.error_code as u16)),
            true ==> Self::spec_read_error_code(s, version) == spec_read_i16(s),
    {
        reveal(DeleteAclsFilterResult::spec_write_error_code);
        reveal(DeleteAclsFilterResult::spec_read_error_code);
    }

    /// Whether writing `m` in `version` succeeds, said over its parts: the
    /// version is one the schema covers, every field that the version cannot
    /// carry holds its default value, and every string, byte string, array and
    /// tagged field fits its length prefix.
    pub open spec fn writable(m: DeleteAclsFilterResultView, version: i16) -> bool {
        &&& (m.error_message matches Some(b) ==> b.len() <= 0x7fff)
        &&& (m.matching_acls.len() <= i32::MAX && all_writable::<DeleteAclsMatchingAcl>(m.matching_acls, version))
        &&& (if version >= 2 {
                m.unknown_tagged_fields.len() <= u32::MAX && tags_fit(m.unknown_tagged_fields)
            } else {
                true
        })
    }

    proof fn lemma_writable_error_code(m: DeleteAclsFilterResultView, version: i16)
        ensures
            Self::spec_write_error_code(m, version) is Ok <==> true,
    {
        reveal(DeleteAclsFilterResult::spec_write_error_code);
    }

    proof fn lemma_writable_error_message(m: DeleteAclsFilterResultView, version: i16)
        ensures
            Self::spec_write_error_message(m, version) is Ok <==> (m.error_message matches Some(b) ==> b.len() <= 0x7fff),
    {
        reveal(DeleteAclsFilterResult::spec_write_error_message);
    }

    proof fn lemma_writable_matching_acls(m: DeleteAclsFilterResultView, version: i16)
        ensures
            Self::spec_write_matching_acls(m, version) is Ok <==> (m.matching_acls.len() <= i32::MAX && all_writable::<DeleteAclsMatchingAcl>(m.matching_acls, version)),
    {
        reveal(DeleteAclsFilterResult::spec_write_matching_acls);
        if version >= 2 {
            lemma_array_writable::<DeleteAclsMatchingAcl>(m.matching_acls, version, true);
        } else {
            lemma_array_writable::<DeleteAclsMatchingAcl>(m.matching_acls, version, false);
        }
    }

    proof fn lemma_writable_tags(m: DeleteAclsFilterResultView, version: i16)
        ensures
            Self::spec_write_tags(m, version) is Ok <==> (if version >= 2 { m.unknown_tagged_fields.len() <= u32::MAX && tags_fit(m.unknown_tagged_fields) } else { true }),
    {
        reveal(DeleteAclsFilterResult::spec_write_tags);
        if version >= 2 {
            lemma_sorted_tags_fit(m.unknown_tagged_fields);
            lemma_tagged_fields_writable(sorted_by_tag(m.unknown_tagged_fields));
        }
    }

    /// Writing `m` in `version` succeeds exactly when `m` is writable in it;
    /// so do `write` and `encoded_len`, whose results follow `spec_write`.
    #[verifier::rlimit(54)]
    pub proof fn lemma_writable(m: DeleteAclsFilterResultView, version: i16)
        ensures
            Self::spec_write(m, version) is Ok <==> Self::writable(m, version),
    {
        Self::lemma_writable_error_code(m, version);
        Self::lemma_writable_error_message(m, version);
        Self::lemma_writable_matching_acls(m, version);
        Self::lemma_writable_tags(m, version);
    }

    pub fn with_error_code(self, value: i16) -> (r: Self)
        ensures
            r@ == (DeleteAclsFilterResultView { error_code: value, ..self@ }),
    {
        let mut r = self;
        r.error_code = value;
        r
    }

    pub fn with_error_message(self, value: Option<KafkaString>) -> (r: Self)
        ensures
            r@ == (DeleteAclsFilterResultView { error_message: opt_view(value), ..self@ }),
    {
        let mut r = self;
        r.error_message = value;
        r
    }

    pub fn with_matching_acls(self, value: Vec<DeleteAclsMatchingAcl>) -> (r: Self)
        ensures
            r@ == (DeleteAclsFilterResultView { matching_acls: views(value@), ..self@ }),
    {
        let mut r = self;
        r.matching_acls = value;
        r
    }

    fn read_error_code(buf: &mut Bytes, version: i16) -> (r: Result<i16, Error>)
        ensures
            read_as(Self::spec_read_error_code(bytes_seq(*old(buf)), version), *final(buf), r),
            took_front(*old(buf), *final(buf)),
    {
        proof {
            reveal(DeleteAclsFilterResult::spec_read_error_code);
        }
        Ok(read_i16(buf)?)
    }

    fn read_error_message(buf: &mut Bytes, version: i16) -> (r: Result<Option<KafkaString>, Error>)
        ensures
            read_opt_as(Self::spec_read_error_message(bytes_seq(*old(buf)), version), *final(buf), r),
            took_front(*old(buf), *final(buf)),
    {
        proof {
            reveal(DeleteAclsFilterResult::spec_read_error_message);
        }
        Ok(if version >= 2 {
                read_compact_nullable_string(buf)?
            } else {
                read_nullable_string(buf)?
        })
    }

    fn read_matching_acls(buf: &mut Bytes, version: i16) -> (r: Result<Vec<DeleteAclsMatchingAcl>, Error>)
        ensures
            read_vec_as(Self::spec_read_matching_acls(bytes_seq(*old(buf)), version), *final(buf), r),
            took_front(*old(buf), *final(buf)),
    {
        proof {
            reveal(DeleteAclsFilterResult::spec_read_matching_acls);
        }
        Ok(if version >= 2 {
                read_array::<DeleteAclsMatchingAcl>(buf, version, true)?
            } else {
                read_array::<DeleteAclsMatchingAcl>(buf, version, false)?
        })
    }

    fn read_tags(buf: &mut Bytes, version: i16) -> (r: Result<Vec<RawTaggedField>, Error>)
        ensures
            read_vec_as(Self::spec_read_tags(bytes_seq(*old(buf)), version), *final(buf), r),
            took_front(*old(buf), *final(buf)),
    {
        proof {
            reveal(DeleteAclsFilterResult::spec_read_tags);
        }
        Ok(if version >= 2 {
                read_tagged_fields(buf)?
            } else {
                empty_vec()
        })
    }

    pub fn read(buf: &mut Bytes, version: i16) -> (r: Result<Self, Error>)
        ensures
            read_as(Self::spec_read(bytes_seq(*old(buf)), version), *final(buf), r),
            took_front(*old(buf), *final(buf)),
    {
        let error_code = Self::read_error_code(buf, version)?;
        let error_message = Self::read_error_message(buf, version)?;
        let matching_acls = Self::read_matching_acls(buf, version)?;
        let _unknown_tagged_fields = Self::read_tags(buf, version)?;
        Ok(DeleteAclsFilterResult {
                error_code: error_code,
                error_message: error_message,
                matching_acls: matching_acls,
                _unknown_tagged_fields: _unknown_tagged_fields,
        })
    }

    #[verifier::rlimit(70)]
    pub fn write(&self, buf: &mut BytesMut, version: i16) -> (r: Result<(), Error>)
        requires
            has_room(Self::spec_write(self@, version), *old(buf)),
        ensures
            wrote(Self::spec_write(self@, version), *old(buf), *final(buf), r),
    {
        let ghost m = self@;
        proof {
            reveal(DeleteAclsFilterResult::spec_write_error_code);
            reveal(DeleteAclsFilterResult::spec_write_error_message);
            reveal(DeleteAclsFilterResult::spec_write_matching_acls);
            reveal(DeleteAclsFilterResult::spec_write_tags);
        }
        let ghost s0 = Self::spec_write_error_code(m, version);
        let ghost w0 = s0;
        let ghost s1 = Self::spec_write_error_message(m, version);
        let ghost w1 = chain(w0, s1);
        let ghost s2 = Self::spec_write_matching_acls(m, version);
        let ghost w2 = chain(w1, s2);
        let ghost s3 = Self::spec_write_tags(m, version);
        let ghost w3 = chain(w2, s3);
        assert(Self::spec_write(m, version) == w3);
        assert(written(w2).len() <= written(w3).len() && (w2 is Err ==> w3 == w2));
        assert(written(w1).len() <= written(w3).len() && (w1 is Err ==> w3 == w1));
        assert(written(w0).len() <= written(w3).len() && (w0 is Err ==> w3 == w0));
        let ghost mid = bytes_mut_seq(*buf);
        proof {
            lemma_append_empty(mid);
        }
        let r0 = {
            write_i16(buf, self.error_code);
            Ok(())
        };
        assert(bytes_mut_seq(*buf) == mid + written(s0));
        if r0.is_err() {
            return r0;
        }
        let ghost mid = bytes_mut_seq(*buf);
        proof {
            lemma_append_empty(mid);
        }
        let r1 = if version >= 2 {
            write_compact_nullable_string(buf, &self.error_message)
        } else {
            write_nullable_string(buf, &self.error_message)
        };
        assert(bytes_mut_seq(*buf) == mid + written(s1));
        proof {
            lemma_step(bytes_mut_seq(*old(buf)), w0, s1);
        }
        if r1.is_err() {
            return r1;
        }
        let ghost mid = bytes_mut_seq(*buf);
        proof {
            lemma_append_empty(mid);
        }
        let r2 = if version >= 2 {
            write_array::<DeleteAclsMatchingAcl>(buf, &self.matching_acls, version, true)
        } else {
            write_array::<DeleteAclsMatchingAcl>(buf, &self.matching_acls, version, false)
        };
        assert(bytes_mut_seq(*buf) == mid + written(s2));
        proof {
            lemma_step(bytes_mut_seq(*old(buf)), w1, s2);
        }
        if r2.is_err() {
            return r2;
        }
        let ghost mid = bytes_mut_seq(*buf);
        proof {
            lemma_append_empty(mid);
        }
        let r3 = if version >= 2 {
            write_tagged_fields(buf, &sort_by_tag(&self._unknown_tagged_fields))
        } else {
            Ok(())
        };
        assert(bytes_mut_seq(*buf) == mid + written(s3));
        proof {
            lemma_step(bytes_mut_seq(*old(buf)), w2, s3);
        }
        if r3.is_err() {
            return r3;
        }
        Ok(())
    }

    #[verifier::rlimit(70)]
    pub fn encoded_len(&self, version: i16) -> (r: Result<usize, Error>)
        ensures
            r == len_result(Self::spec_write(self@, version)),
    {
        let ghost m = self@;
        proof {
            reveal(DeleteAclsFilterResult::spec_write_error_code);
            reveal(DeleteAclsFilterResult::spec_write_error_message);
            reveal(DeleteAclsFilterResult::spec_write_matching_acls);
            reveal(DeleteAclsFilterResult::spec_write_tags);
        }
        let ghost s0 = Self::spec_write_error_code(m, version);
        let ghost w0 = s0;
        let ghost s1 = Self::spec_write_error_message(m, version);
        let ghost w1 = chain(w0, s1);
        let ghost s2 = Self::spec_write_matching_acls(m, version);
        let ghost w2 = chain(w1, s2);
        let ghost s3 = Self::spec_write_tags(m, version);
        let ghost w3 = chain(w2, s3);
        assert(Self::spec_write(m, version) == w3);
        assert(w2 is Err ==> w3 == w2);
        assert(w1 is Err ==> w3 == w1);
        assert(w0 is Err ==> w3 == w0);
        let mut len: usize = 0;
        let l0 = Ok(2);
        assert(l0 == len_result(s0));
        let n0 = match l0 {
            Ok(n) => n,
            Err(e) => {
                return Err(e);
            },
        };
        len = saturating_sum(len, n0);
        assert(w0 is Ok && len == saturate(written(w0).len() as int));
        let l1 = if version >= 2 {
            compact_nullable_string_len(&self.error_message)
        } else {
            nullable_string_len(&self.error_message)
        };
        assert(l1 == len_result(s1));
        let n1 = match l1 {
            Ok(n) => n,
            Err(e) => {
                return Err(e);
            },
        };
        proof {
            lemma_len_step(w0, s1, n1);
        }
        len = saturating_sum(len, n1);
        assert(w1 is Ok && len == saturate(written(w1).len() as int));
        let l2 = if version >= 2 {
            array_len::<DeleteAclsMatchingAcl>(&self.matching_acls, version, true)
        } else {
            array_len::<DeleteAclsMatchingAcl>(&self.matching_acls, version, false)
        };
        assert(l2 == len_result(s2));
        let n2 = match l2 {
            Ok(n) => n,
            Err(e) => {
                return Err(e);
            },
        };
        proof {
            lemma_len_step(w1, s2, n2);
        }
        len = saturating_sum(len, n2);
        assert(w2 is Ok && len == saturate(written(w2).len() as int));
        let l3 = if version >= 2 {
            tagged_fields_len(&sort_by_tag(&self._unknown_tagged_fields))
        } else {
            Ok(0)
        };
        assert(l3 == len_result(s3));
        let n3 = match l3 {
            Ok(n) => n,
            Err(e) => {
                return Err(e);
            },
        };
        proof {
            lemma_len_step(w2, s3, n3);
        }
        len = saturating_sum(len, n3);
        assert(w3 is Ok && len == saturate(written(w3).len() as int));
        Ok(len)
    }
}

#[derive(Debug, PartialEq)]
pub struct DeleteAclsMatchingAcl {
    /// The deletion error code, or 0 if the deletion succeeded.
    pub error_code: i16,
    /// The deletion error message, or null if the deletion succeeded.
    pub error_message: Option<KafkaString>,
    /// The ACL resource type.
    pub resource_type: i8,
    /// The ACL resource name.
    pub resource_name: KafkaString,
    /// The ACL resource pattern type.
    pub pattern_type: i8,
    /// The ACL principal.
    pub principal: KafkaString,
    /// The ACL host.
    pub host: KafkaString,
    /// The ACL operation.
    pub operation: i8,
    /// The ACL permission type.
    pub permission_type: i8,
    pub _unknown_tagged_fields: Vec<RawTaggedField>,
}

/// What a `DeleteAclsMatchingAcl` holds, as the specification sees it.
#[verifier::ext_equal]
pub struct DeleteAclsMatchingAclView {
    pub error_code: i16,
    pub error_message: Option<Seq<u8>>,
    pub resource_type: i8,
    pub resource_name: Seq<u8>,
    pub pattern_type: i8,
    pub principal: Seq<u8>,
    pub host: Seq<u8>,
    pub operation: i8,
    pub permission_type: i8,
    pub unknown_tagged_fields: Seq<(u32, Seq<u8>)>,
}

impl View for DeleteAclsMatchingAcl {
    type V = DeleteAclsMatchingAclView;

    open spec fn view(&self) -> DeleteAclsMatchingAclView {
        DeleteAclsMatchingAclView {
            error_code: self.error_code,
            error_message: opt_view(self.error_message),
            resource_type: self.resource_type,
            resource_name: self.resource_name@,
            pattern_type: self.pattern_type,
            principal: self.principal@,
            host: self.host@,
            operation: self.operation,
            permission_type: self.permission_type,
            unknown_tagged_fields: views(self._unknown_tagged_fields@),
        }
    }
}

impl Clone for DeleteAclsMatchingAcl {
    fn clone(&self) -> (r: Self)
        ensures
            r@ == self@,
    {
        let r = DeleteAclsMatchingAcl {
            error_code: self.error_code,
            error_message: match &self.error_message {
                Some(x) => Some(x.clone()),
                None => None,
            },
            resource_type: self.resource_type,
            resource_name: self.resource_name.clone(),
            pattern_type: self.pattern_type,
            principal: self.principal.clone(),
            host: self.host.clone(),
            operation: self.operation,
            permission_type: self.permission_type,
            _unknown_tagged_fields: clone_vec(&self._unknown_tagged_fields),
        };
        assert(r@ =~= self@);
        r
    }
}

impl ViewClone for DeleteAclsMatchingAcl {
    fn clone_view(&self) -> (r: Self) {
        self.clone()
    }
}

impl Default for DeleteAclsMatchingAcl {
    fn default() -> (r: Self)
        ensures
            r@ == Self::default_view(),
    {
        let r = DeleteAclsMatchingAcl {
            error_code: 0_i16,
            error_message: None,
            resource_type: 0_i8,
            resource_name: KafkaString::default(),
            pattern_type: 3i8,
            principal: KafkaString::default(),
            host: KafkaString::default(),
            operation: 0_i8,
            permission_type: 0_i8,
            _unknown_tagged_fields: empty_vec(),
        };
        assert(r@ =~= Self::default_view());
        r
    }
}

impl DeleteAclsMatchingAcl {
    pub open spec fn default_view() -> DeleteAclsMatchingAclView {
        DeleteAclsMatchingAclView {
            error_code: 0_i16,
            error_message: None,
            resource_type: 0_i8,
            resource_name: Seq::empty(),
            pattern_type: 3i8,
            principal: Seq::empty(),
            host: Seq::empty(),
            operation: 0_i8,
            permission_type: 0_i8,
            unknown_tagged_fields: Seq::empty(),
        }
    }

    /// The `error_code` field, read from the front of `s`.
    #[verifier::opaque]
    pub open spec fn spec_read_error_code(s: Seq<u8>, version: i16) -> ReadOutcome<i16> {
        spec_read_i16(s)
    }

    /// The `error_message` field, read from the front of `s`.
    #[verifier::opaque]
    pub open spec fn spec_read_error_message(s: Seq<u8>, version: i16) -> ReadOutcome<Option<Seq<u8>>> {
        if version >= 2 {
            spec_read_compact_nullable_string(s)
        } else {
            spec_read_nullable_string(s)
        }
    }

    /// The `resource_type` field, read from the front of `s`.
    #[verifier::opaque]
    pub open spec fn spec_read_resource_type(s: Seq<u8>, version: i16) -> ReadOutcome<i8> {
        spec_read_i8(s)
    }

    /// The `resource_name` field, read from the front of `s`.
    #[verifier::opaque]
    pub open spec fn spec_read_resource_name(s: Seq<u8>, version: i16) -> ReadOutcome<Seq<u8>> {
        if version >= 2 {
            spec_read_compact_string(s)
        } else {
            spec_read_string(s)
        }
    }

    /// The `pattern_type` field, read from the front of `s`.
    #[verifier::opaque]
    pub open spec fn spec_read_pattern_type(s: Seq<u8>, version: i16) -> ReadOutcome<i8> {
        spec_read_i8(s)
    }

    /// The `principal` field, read from the front of `s`.
    #[verifier::opaque]
    pub open spec fn spec_read_principal(s: Seq<u8>, version: i16) -> ReadOutcome<Seq<u8>> {
        if version >= 2 {
            spec_read_compact_string(s)
        } else {
            spec_read_string(s)
        }
    }

    /// The `host` field, read from the front of `s`.
    #[verifier::opaque]
    pub open spec fn spec_read_host(s: Seq<u8>, version: i16) -> ReadOutcome<Seq<u8>> {
        if version >= 2 {
            spec_read_compact_string(s)
        } else {
            spec_read_string(s)
        }
    }

    /// The `operation` field, read from the front of `s`.
    #[verifier::opaque]
    pub open spec fn spec_read_operation(s: Seq<u8>, version: i16) -> ReadOutcome<i8> {
        spec_read_i8(s)
    }

    /// The `permission_type` field, read from the front of `s`.
    #[verifier::opaque]
    pub open spec fn spec_read_permission_type(s: Seq<u8>, version: i16) -> ReadOutcome<i8> {
        spec_read_i8(s)
    }

    /// The tagged fields, read from the front of `s`.
    #[verifier::opaque]
    pub open spec fn spec_read_tags(s: Seq<u8>, version: i16) -> ReadOutcome<Seq<(u32, Seq<u8>)>> {
        if version >= 2 {
            spec_read_tagged_fields(s)
        } else {
            Ok((Seq::empty(), s))
        }
    }

    pub open spec fn spec_read(s: Seq<u8>, version: i16) -> ReadOutcome<DeleteAclsMatchingAclView> {
        match (Self::spec_read_error_code(s, version)) {
            Err(e) => Err(e),
            Ok((error_code, s)) => match (Self::spec_read_error_message(s, version)) {
                Err(e) => Err(e),
                Ok((error_message, s)) => match (Self::spec_read_resource_type(s, version)) {
                    Err(e) => Err(e),
                    Ok((resource_type, s)) => match (Self::spec_read_resource_name(s, version)) {
                        Err(e) => Err(e),
                        Ok((resource_name, s)) => match (Self::spec_read_pattern_type(s, version)) {
                            Err(e) => Err(e),
                            Ok((pattern_type, s)) => match (Self::spec_read_principal(s, version)) {
                                Err(e) => Err(e),
                                Ok((principal, s)) => match (Self::spec_read_host(s, version)) {
                                    Err(e) => Err(e),
                                    Ok((host, s)) => match (Self::spec_read_operation(s, version)) {
                                        Err(e) => Err(e),
                                        Ok((operation, s)) => match (Self::spec_read_permission_type(s, version)) {
                                            Err(e) => Err(e),
                                            Ok((permission_type, s)) => match (Self::spec_read_tags(s, version)) {
                                                Err(e) => Err(e),
                                                Ok((unknown_tagged_fields, s)) => Ok((DeleteAclsMatchingAclView {
                                                            error_code: error_code,
                                                            error_message: error_message,
                                                            resource_type: resource_type,
                                                            resource_name: resource_name,
                                                            pattern_type: pattern_type,
                                                            principal: principal,
                                                            host: host,
                                                            operation: operation,
                                                            permission_type: permission_type,
                                                            unknown_tagged_fields: unknown_tagged_fields,
                                                        }, s)),
                                            },
                                        },
                                    },
                                },
                            },
                        },
                    },
                },
            },
        }
    }

    /// What writing the `error_code` field of `m` appends.
    #[verifier::opaque]
    pub open spec fn spec_write_error_code(m: DeleteAclsMatchingAclView, version: i16) -> WriteOutcome {
        spec_write_i16(m.error_code)
    }

    /// What writing the `error_message` field of `m` appends.
    #[verifier::opaque]
    pub open spec fn spec_write_error_message(m: DeleteAclsMatchingAclView, version: i16) -> WriteOutcome {
        if version >= 2 {
            spec_write_compact_nullable_string(m.error_message)
        } else {
            spec_write_nullable_string(m.error_message)
        }
    }

    /// What writing the `resource_type` field of `m` appends.
    #[verifier::opaque]
    pub open spec fn spec_write_resource_type(m: DeleteAclsMatchingAclView, version: i16) -> WriteOutcome {
        spec_write_i8(m.resource_type)
    }

    /// What writing the `resource_name` field of `m` appends.
    #[verifier::opaque]
    pub open spec fn spec_write_resource_name(m: DeleteAclsMatchingAclView, version: i16) -> WriteOutcome {
        if version >= 2 {
            spec_write_compact_string(m.resource_name)
        } else {
            spec_write_string(m.resource_name)
        }
    }

    /// What writing the `pattern_type` field of `m` appends.
    #[verifier::opaque]
    pub open spec fn spec_write_pattern_type(m: DeleteAclsMatchingAclView, version: i16) -> WriteOutcome {
        spec_write_i8(m.pattern_type)
    }

    /// What writing the `principal` field of `m` appends.
    #[verifier::opaque]
    pub open spec fn spec_write_principal(m: DeleteAclsMatchingAclView, version: i16) -> WriteOutcome {
        if version >= 2 {
            spec_write_compact_string(m.principal)
        } else {
            spec_write_string(m.principal)
        }
    }

    /// What writing the `host` field of `m` appends.
    #[verifier::opaque]
    pub open spec fn spec_write_host(m: DeleteAclsMatchingAclView, version: i16) -> WriteOutcome {
        if version >= 2 {
            spec_write_compact_string(m.host)
        } else {
            spec_write_string(m.host)
        }
    }

    /// What writing the `operation` field of `m` appends.
    #[verifier::opaque]
    pub open spec fn spec_write_operation(m: DeleteAclsMatchingAclView, version: i16) -> WriteOutcome {
        spec_write_i8(m.operation)
    }

    /// What writing the `permission_type` field of `m` appends.
    #[verifier::opaque]
    pub open spec fn spec_write_permission_type(m: DeleteAclsMatchingAclView, version: i16) -> WriteOutcome {
        spec_write_i8(m.permission_type)
    }

    /// What writing the tagged fields of `m` appends.
    #[verifier::opaque]
    pub open spec fn spec_write_tags(m: DeleteAclsMatchingAclView, version: i16) -> WriteOutcome {
        if version >= 2 {
            spec_write_tagged_fields(sorted_by_tag(m.unknown_tagged_fields))
        } else {
            emit(Seq::empty())
        }
    }

    pub open spec fn spec_write(m: DeleteAclsMatchingAclView, version: i16) -> WriteOutcome {
        chain(
            chain(
                chain(
                    chain(
                        chain(
                            chain(
                                chain(
                                    chain(
                                        chain(
                                            Self::spec_write_error_code(m, version),
                                            Self::spec_write_error_message(m, version),
                                        ),
                                        Self::spec_write_resource_type(m, version),
                                    ),
                                    Self::spec_write_resource_name(m, version),
                                ),
                                Self::spec_write_pattern_type(m, version),
                            ),
                            Self::spec_write_principal(m, version),
                        ),
                        Self::spec_write_host(m, version),
                    ),
                    Self::spec_write_operation(m, version),
                ),
                Self::spec_write_permission_type(m, version),
            ),
            Self::spec_write_tags(m, version),
        )
    }

    /// Whether reading back what writing `m` in `version` appends gives `m`:
    /// fields that the version does not carry hold their default values, and
    /// tagged fields come in the order in which they are written.
    pub open spec fn canonical(m: DeleteAclsMatchingAclView, version: i16) -> bool {
        &&& (if version >= 2 {
                tags_in_order(m.unknown_tagged_fields)
            } else {
                m.unknown_tagged_fields.len() == 0
        })
    }

    proof fn lemma_round_trip_error_code(m: DeleteAclsMatchingAclView, version: i16, rest: Seq<u8>)
        requires
            Self::canonical(m, version),
            Self::spec_write_error_code(m, version) is Ok,
        ensures
            Self::spec_read_error_code(written(Self::spec_write_error_code(m, version)) + rest, version) == Ok::<(i16, Seq<u8>), Error>((m.error_code, rest)),
    {
        reveal(DeleteAclsMatchingAcl::spec_read_error_code);
        reveal(DeleteAclsMatchingAcl::spec_write_error_code);
        lemma_i16_roundtrip(m.error_code, rest);
    }

    proof fn lemma_round_trip_error_message(m: DeleteAclsMatchingAclView, version: i16, rest: Seq<u8>)
        requires
            Self::canonical(m, version),
            Self::spec_write_error_message(m, version) is Ok,
        ensures
            Self::spec_read_error_message(written(Self::spec_write_error_message(m, version)) + rest, version) == Ok::<(Option<Seq<u8>>, Seq<u8>), Error>((m.error_message, rest)),
    {
        reveal(DeleteAclsMatchingAcl::spec_read_error_message);
        reveal(DeleteAclsMatchingAcl::spec_write_error_message);
        if version >= 2 {
            lemma_compact_nullable_string_round_trip(m.error_message, rest);
        } else {
            lemma_nullable_string_round_trip(m.error_message, rest);
        }
    }

    proof fn lemma_round_trip_resource_type(m: DeleteAclsMatchingAclView, version: i16, rest: Seq<u8>)
        requires
            Self::canonical(m, version),
            Self::spec_write_resource_type(m, version) is Ok,
        ensures
            Self::spec_read_resource_type(written(Self::spec_write_resource_type(m, version)) + rest, version) == Ok::<(i8, Seq<u8>), Error>((m.resource_type, rest)),
    {
        reveal(DeleteAclsMatchingAcl::spec_read_resource_type);
        reveal(DeleteAclsMatchingAcl::spec_write_resource_type);
        lemma_i8_roundtrip(m.resource_type, rest);
    }

    proof fn lemma_round_trip_resource_name(m: DeleteAclsMatchingAclView, version: i16, rest: Seq<u8>)
        requires
            Self::canonical(m, version),
            Self::spec_write_resource_name(m, version) is Ok,
        ensures
            Self::spec_read_resource_name(written(Self::spec_write_resource_name(m, version)) + rest, version) == Ok::<(Seq<u8>, Seq<u8>), Error>((m.resource_name, rest)),
    {
        reveal(DeleteAclsMatchingAcl::spec_read_resource_name);
        reveal(DeleteAclsMatchingAcl::spec_write_resource_name);
        if version >= 2 {
            lemma_compact_string_round_trip(m.resource_name, rest);
        } else {
            lemma_string_round_trip(m.resource_name, rest);
        }
    }

    proof fn lemma_round_trip_pattern_type(m: DeleteAclsMatchingAclView, version: i16, rest: Seq<u8>)
        requires
            Self::canonical(m, version),
            Self::spec_write_pattern_type(m, version) is Ok,
        ensures
            Self::spec_read_pattern_type(written(Self::spec_write_pattern_type(m, version)) + rest, version) == Ok::<(i8, Seq<u8>), Error>((m.pattern_type, rest)),
    {
        reveal(DeleteAclsMatchingAcl::spec_read_pattern_type);
        reveal(DeleteAclsMatchingAcl::spec_write_pattern_type);
        lemma_i8_roundtrip(m.pattern_type, rest);
    }

    proof fn lemma_round_trip_principal(m: DeleteAclsMatchingAclView, version: i16, rest: Seq<u8>)
        requires
            Self::canonical(m, version),
            Self::spec_write_principal(m, version) is Ok,
        ensures
            Self::spec_read_principal(written(Self::spec_write_principal(m, version)) + rest, version) == Ok::<(Seq<u8>, Seq<u8>), Error>((m.principal, rest)),
    {
        reveal(DeleteAclsMatchingAcl::spec_read_principal);
        reveal(DeleteAclsMatchingAcl::spec_write_principal);
        if version >= 2 {
            lemma_compact_string_round_trip(m.principal, rest);
        } else {
            lemma_string_round_trip(m.principal, rest);
        }
    }

    proof fn lemma_round_trip_host(m: DeleteAclsMatchingAclView, version: i16, rest: Seq<u8>)
        requires
            Self::canonical(m, version),
            Self::spec_write_host(m, version) is Ok,
        ensures
            Self::spec_read_host(written(Self::spec_write_host(m, version)) + rest, version) == Ok::<(Seq<u8>, Seq<u8>), Error>((m.host, rest)),
    {
        reveal(DeleteAclsMatchingAcl::spec_read_host);
        reveal(DeleteAclsMatchingAcl::spec_write_host);
        if version >= 2 {
            lemma_compact_string_round_trip(m.host, rest);
        } else {
            lemma_string_round_trip(m.host, rest);
        }
    }

    proof fn lemma_round_trip_operation(m: DeleteAclsMatchingAclView, version: i16, rest: Seq<u8>)
        requires
            Self::canonical(m, version),
            Self::spec_write_operation(m, version) is Ok,
        ensures
            Self::spec_read_operation(written(Self::spec_write_operation(m, version)) + rest, version) == Ok::<(i8, Seq<u8>), Error>((m.operation, rest)),
    {
        reveal(DeleteAclsMatchingAcl::spec_read_operation);
        reveal(DeleteAclsMatchingAcl::spec_write_operation);
        lemma_i8_roundtrip(m.operation, rest);
    }

    proof fn lemma_round_trip_permission_type(m: DeleteAclsMatchingAclView, version: i16, rest: Seq<u8>)
        requires
            Self::canonical(m, version),
            Self::spec_write_permission_type(m, version) is Ok,
        ensures
            Self::spec_read_permission_type(written(Self::spec_write_permission_type(m, version)) + rest, version) == Ok::<(i8, Seq<u8>), Error>((m.permission_type, rest)),
    {
        reveal(DeleteAclsMatchingAcl::spec_read_permission_type);
        reveal(DeleteAclsMatchingAcl::spec_write_permission_type);
        lemma_i8_roundtrip(m.permission_type, rest);
    }

    proof fn lemma_round_trip_tags(m: DeleteAclsMatchingAclView, version: i16, rest: Seq<u8>)
        requires
            Self::canonical(m, version),
            Self::spec_write_tags(m, version) is Ok,
        ensures
            Self::spec_read_tags(written(Self::spec_write_tags(m, version)) + rest, version) == Ok::<(Seq<(u32, Seq<u8>)>, Seq<u8>), Error>((m.unknown_tagged_fields, rest)),
    {
        reveal(DeleteAclsMatchingAcl::spec_read_tags);
        reveal(DeleteAclsMatchingAcl::spec_write_tags);
        if version >= 2 {
            lemma_sorted_by_tag_in_order(m.unknown_tagged_fields);
            lemma_tagged_fields_round_trip(m.unknown_tagged_fields, rest);
        } else {
            assert(Seq::<u8>::empty() + rest =~= rest);
            assert(m.unknown_tagged_fields =~= Seq::empty());
        }
    }

    /// Reading back what writing `m` in `version` appends gives `m` again, and
    /// leaves what follows, for every canonical message whose write succeeds.
    #[verifier::rlimit(100)]
    #[verifier::spinoff_prover]
    pub proof fn lemma_round_trip(m: DeleteAclsMatchingAclView, version: i16, rest: Seq<u8>)
        requires
            Self::canonical(m, version),
            Self::spec_write(m, version) is Ok,
        ensures
            Self::spec_read(written(Self::spec_write(m, version)) + rest, version) == Ok::<(DeleteAclsMatchingAclView, Seq<u8>), Error>((m, rest)),
    {
        let b0 = written(Self::spec_write_error_code(m, version));
        let b1 = written(Self::spec_write_error_message(m, version));
        let b2 = written(Self::spec_write_resource_type(m, version));
        let b3 = written(Self::spec_write_resource_name(m, version));
        let b4 = written(Self::spec_write_pattern_type(m, version));
        let b5 = written(Self::spec_write_principal(m, version));
        let b6 = written(Self::spec_write_host(m, version));
        let b7 = written(Self::spec_write_operation(m, version));
        let b8 = written(Self::spec_write_permission_type(m, version));
        let b9 = written(Self::spec_write_tags(m, version));
        let t10 = rest;
        let t9 = b9 + t10;
        let t8 = b8 + t9;
        let t7 = b7 + t8;
        let t6 = b6 + t7;
        let t5 = b5 + t6;
        let t4 = b4 + t5;
        let t3 = b3 + t4;
        let t2 = b2 + t3;
        let t1 = b1 + t2;
        let t0 = b0 + t1;
        let w0 = Self::spec_write_error_code(m, version);
        let w1 = chain(w0, Self::spec_write_error_message(m, version));
        let w2 = chain(w1, Self::spec_write_resource_type(m, version));
        let w3 = chain(w2, Self::spec_write_resource_name(m, version));
        let w4 = chain(w3, Self::spec_write_pattern_type(m, version));
        let w5 = chain(w4, Self::spec_write_principal(m, version));
        let w6 = chain(w5, Self::spec_write_host(m, version));
        let w7 = chain(w6, Self::spec_write_operation(m, version));
        let w8 = chain(w7, Self::spec_write_permission_type(m, version));
        let w9 = chain(w8, Self::spec_write_tags(m, version));
        assert(Self::spec_write(m, version) == w9);
        assert(written(w9) + t10 =~= written(w8) + t9);
        assert(written(w8) + t9 =~= written(w7) + t8);
        assert(written(w7) + t8 =~= written(w6) + t7);
        assert(written(w6) + t7 =~= written(w5) + t6);
        assert(written(w5) + t6 =~= written(w4) + t5);
        assert(written(w4) + t5 =~= written(w3) + t4);
        assert(written(w3) + t4 =~= written(w2) + t3);
        assert(written(w2) + t3 =~= written(w1) + t2);
        assert(written(w1) + t2 =~= written(w0) + t1);
        Self::lemma_round_trip_error_code(m, version, t1);
        Self::lemma_round_trip_error_message(m, version, t2);
        Self::lemma_round_trip_resource_type(m, version, t3);
        Self::lemma_round_trip_resource_name(m, version, t4);
        Self::lemma_round_trip_pattern_type(m, version, t5);
        Self::lemma_round_trip_principal(m, version, t6);
        Self::lemma_round_trip_host(m, version, t7);
        Self::lemma_round_trip_operation(m, version, t8);
        Self::lemma_round_trip_permission_type(m, version, t9);
        Self::lemma_round_trip_tags(m, version, t10);
    }

    /// In a version that does not carry `unknown_tagged_fields`, writing ignores its value.
    pub proof fn lemma_write_ignores_unknown_tagged_fields(m: DeleteAclsMatchingAclView, value: Seq<(u32, Seq<u8>)>, version: i16)
        requires
            !(version >= 2),
        ensures
            Self::spec_write((DeleteAclsMatchingAclView { unknown_tagged_fields: value, ..m }), version) == Self::spec_write(m, version),
    {
        reveal(DeleteAclsMatchingAcl::spec_write_error_code);
        reveal(DeleteAclsMatchingAcl::spec_write_error_message);
        reveal(DeleteAclsMatchingAcl::spec_write_resource_type);
        reveal(DeleteAclsMatchingAcl::spec_write_resource_name);
        reveal(DeleteAclsMatchingAcl::spec_write_pattern_type);
        reveal(DeleteAclsMatchingAcl::spec_write_principal);
        reveal(DeleteAclsMatchingAcl::spec_write_host);
        reveal(DeleteAclsMatchingAcl::spec_write_operation);
        reveal(DeleteAclsMatchingAcl::spec_write_permission_type);
        reveal(DeleteAclsMatchingAcl::spec_write_tags);
    }

    /// The default message holds the default value of each field of the schema.
    pub proof fn lemma_default_values()
        ensures
            Self::default_view().error_code == (0_i16),
            (Self::default_view().error_message is None),
            Self::default_view().resource_type == (0_i8),
            Self::default_view().resource_name.len() == 0,
            Self::default_view().pattern_type == (3i8),
            Self::default_view().principal.len() == 0,
            Self::default_view().host.len() == 0,
            Self::default_view().operation == (0_i8),
            Self::default_view().permission_type == (0_i8),
            Self::default_view().unknown_tagged_fields.len() == 0,
    {
    }

    /// Each integer, boolean and identifier field is written as its standard
    /// big-endian bytes (a boolean as `1` or `0`) in the versions that carry
    /// it, and as nothing in the others; reading it takes those bytes back (any
    /// byte other than `0` reads as `true`), or gives its default value.
    pub proof fn lemma_field_encodings(m: DeleteAclsMatchingAclView, s: Seq<u8>, version: i16)
        ensures
            true ==> Self::spec_write_error_code(m, version) == Ok::<Seq<u8>, (Error, Seq<u8>)>(u16_bytes(m.error_code as u16)),
            true ==> Self::spec_write_resource_type(m, version) == Ok::<Seq<u8>, (Error, Seq<u8>)>(seq![m.resource_type as u8]),
            true ==> Self::spec_write_pattern_type(m, version) == Ok::<Seq<u8>, (Error, Seq<u8>)>(seq![m.pattern_type as u8]),
            true ==> Self::spec_write_operation(m, version) == Ok::<Seq<u8>, (Error, Seq<u8>)>(seq![m.operation as u8]),
            true ==> Self::spec_write_permission_type(m, version) == Ok::<Seq<u8>, (Error, Seq<u8>)>(seq![m.permission_type as u8]),
            true ==> Self::spec_read_error_code(s, version) == spec_read_i16(s),
            true ==> Self::spec_read_resource_type(s, version) == (if s.len() < 1 { Err(Error::UnexpectedEof) } else { Ok((s[0] as i8, s.drop_first())) }),
            true ==> Self::spec_read_pattern_type(s, version) == (if s.len() < 1 { Err(Error::UnexpectedEof) } else { Ok((s[0] as i8, s.drop_first())) }),
            true ==> Self::spec_read_operation(s, version) == (if s.len() < 1 { Err(Error::UnexpectedEof) } else { Ok((s[0] as i8, s.drop_first())) }),
            true ==> Self::spec_read_permission_type(s, version) == (if s.len() < 1 { Err(Error::UnexpectedEof) } else { Ok((s[0] as i8, s.drop_first())) }),
    {
        reveal(DeleteAclsMatchingAcl::spec_write_error_code);
        reveal(DeleteAclsMatchingAcl::spec_read_error_code);
        reveal(DeleteAclsMatchingAcl::spec_write_resource_type);
        reveal(DeleteAclsMatchingAcl::spec_read_resource_type);
        reveal(DeleteAclsMatchingAcl::spec_write_pattern_type);
        reveal(DeleteAclsMatchingAcl::spec_read_pattern_type);
        reveal(DeleteAclsMatchingAcl::spec_write_operation);
        reveal(DeleteAclsMatchingAcl::spec_read_operation);
        reveal(DeleteAclsMatchingAcl::spec_write_permission_type);
        reveal(DeleteAclsMatchingAcl::spec_read_permission_type);
    }

    /// Whether writing `m` in `version` succeeds, said over its parts: the
    /// version is one the schema covers, every field that the version cannot
    /// carry holds its default value, and every string, byte string, array and
    /// tagged field fits its length prefix.
    pub open spec fn writable(m: DeleteAclsMatchingAclView, version: i16) -> bool {
        &&& (m.error_message matches Some(b) ==> b.len() <= 0x7fff)
        &&& m.resource_name.len() <= 0x7fff
        &&& m.principal.len() <= 0x7fff
        &&& m.host.len() <= 0x7fff
        &&& (if version >= 2 {
                m.unknown_tagged_fields.len() <= u32::MAX && tags_fit(m.unknown_tagged_fields)
            } else {
                true
        })
    }

    proof fn lemma_writable_error_code(m: DeleteAclsMatchingAclView, version: i16)
        ensures
            Self::spec_write_error_code(m, version) is Ok <==> true,
    {
        reveal(DeleteAclsMatchingAcl::spec_write_error_code);
    }

    proof fn lemma_writable_error_message(m: DeleteAclsMatchingAclView, version: i16)
        ensures
            Self::spec_write_error_message(m, version) is Ok <==> (m.error_message matches Some(b) ==> b.len() <= 0x7fff),
    {
        reveal(DeleteAclsMatchingAcl::spec_write_error_message);
    }

    proof fn lemma_writable_resource_type(m: DeleteAclsMatchingAclView, version: i16)
        ensures
            Self::spec_write_resource_type(m, version) is Ok <==> true,
    {
        reveal(DeleteAclsMatchingAcl::spec_write_resource_type);
    }

    proof fn lemma_writable_resource_name(m: DeleteAclsMatchingAclView, version: i16)
        ensures
            Self::spec_write_resource_name(m, version) is Ok <==> m.resource_name.len() <= 0x7fff,
    {
        reveal(DeleteAclsMatchingAcl::spec_write_resource_name);
    }

    proof fn lemma_writable_pattern_type(m: DeleteAclsMatchingAclView, version: i16)
        ensures
            Self::spec_write_pattern_type(m, version) is Ok <==> true,
    {
        reveal(DeleteAclsMatchingAcl::spec_write_pattern_type);
    }

    proof fn lemma_writable_principal(m: DeleteAclsMatchingAclView, version: i16)
        ensures
            Self::spec_write_principal(m, version) is Ok <==> m.principal.len() <= 0x7fff,
    {
        reveal(DeleteAclsMatchingAcl::spec_write_principal);
    }

    proof fn lemma_writable_host(m: DeleteAclsMatchingAclView, version: i16)
        ensures
            Self::spec_write_host(m, version) is Ok <==> m.host.len() <= 0x7fff,
    {
        reveal(DeleteAclsMatchingAcl::spec_write_host);
    }

    proof fn lemma_writable_operation(m: DeleteAclsMatchingAclView, version: i16)
        ensures
            Self::spec_write_operation(m, version) is Ok <==> true,
    {
        reveal(DeleteAclsMatchingAcl::spec_write_operation);
    }

    proof fn lemma_writable_permission_type(m: DeleteAclsMatchingAclView, version: i16)
        ensures
            Self::spec_write_permission_type(m, version) is Ok <==> true,
    {
        reveal(DeleteAclsMatchingAcl::spec_write_permission_type);
    }

    proof fn lemma_writable_tags(m: DeleteAclsMatchingAclView, version: i16)
        ensures
            Self::spec_write_tags(m, version) is Ok <==> (if version >= 2 { m.unknown_tagged_fields.len() <= u32::MAX && tags_fit(m.unknown_tagged_fields) } else { true }),
    {
        reveal(DeleteAclsMatchingAcl::spec_write_tags);
        if version >= 2 {
            lemma_sorted_tags_fit(m.unknown_tagged_fields);
            lemma_tagged_fields_writable(sorted_by_tag(m.unknown_tagged_fields));
        }
    }

    /// Writing `m` in `version` succeeds exactly when `m` is writable in it;
    /// so do `write` and `encoded_len`, whose results follow `spec_write`.
    #[verifier::rlimit(90)]
    pub proof fn lemma_writable(m: DeleteAclsMatchingAclView, version: i16)
        ensures
            Self::spec_write(m, version) is Ok <==> Self::writable(m, version),
    {
        Self::lemma_writable_error_code(m, version);
        Self::lemma_writable_error_message(m, version);
        Self::lemma_writable_resource_type(m, version);
        Self::lemma_writable_resource_name(m, version);
        Self::lemma_writable_pattern_type(m, version);
        Self::lemma_writable_principal(m, version);
        Self::lemma_writable_host(m, version);
        Self::lemma_writable_operation(m, version);
        Self::lemma_writable_permission_type(m, version);
        Self::lemma_writable_tags(m, version);
    }

    pub fn with_error_code(self, value: i16) -> (r: Self)
        ensures
            r@ == (DeleteAclsMatchingAclView { error_code: value, ..self@ }),
    {
        let mut r = self;
        r.error_code = value;
        r
    }

    pub fn with_error_message(self, value: Option<KafkaString>) -> (r: Self)
        ensures
            r@ == (DeleteAclsMatchingAclView { error_message: opt_view(value), ..self@ }),
    {
        let mut r = self;
        r.error_message = value;
        r
    }

    pub fn with_resource_type(self, value: i8) -> (r: Self)
        ensures
            r@ == (DeleteAclsMatchingAclView { resource_type: value, ..self@ }),
    {
        let mut r = self;
        r.resource_type = value;
        r
    }

    pub fn with_resource_name(self, value: KafkaString) -> (r: Self)
        ensures
            r@ == (DeleteAclsMatchingAclView { resource_name: value@, ..self@ }),
    {
        let mut r = self;
        r.resource_name = value;
        r
    }

    pub fn with_pattern_type(self, value: i8) -> (r: Self)
        ensures
            r@ == (DeleteAclsMatchingAclView { pattern_type: value, ..self@ }),
    {
        let mut r = self;
        r.pattern_type = value;
        r
    }

    pub fn with_principal(self, value: KafkaString) -> (r: Self)
        ensures
            r@ == (DeleteAclsMatchingAclView { principal: value@, ..self@ }),
    {
        let mut r = self;
        r.principal = value;
        r
    }

    pub fn with_host(self, value: KafkaString) -> (r: Self)
        ensures
            r@ == (DeleteAclsMatchingAclView { host: value@, ..self@ }),
    {
        let mut r = self;
        r.host = value;
        r
    }

    pub fn with_operation(self, value: i8) -> (r: Self)
        ensures
            r@ == (DeleteAclsMatchingAclView { operation: value, ..self@ }),
    {
        let mut r = self;
        r.operation = value;
        r
    }

    pub fn with_permission_type(self, value: i8) -> (r: Self)
        ensures
            r@ == (DeleteAclsMatchingAclView { permission_type: value, ..self@ }),
    {
        let mut r = self;
        r.permission_type = value;
        r
    }

    fn read_error_code(buf: &mut Bytes, version: i16) -> (r: Result<i16, Error>)
        ensures
            read_as(Self::spec_read_error_code(bytes_seq(*old(buf)), version), *final(buf), r),
            took_front(*old(buf), *final(buf)),
    {
        proof {
            reveal(DeleteAclsMatchingAcl::spec_read_error_code);
        }
        Ok(read_i16(buf)?)
    }

    fn read_error_message(buf: &mut Bytes, version: i16) -> (r: Result<Option<KafkaString>, Error>)
        ensures
            read_opt_as(Self::spec_read_error_message(bytes_seq(*old(buf)), version), *final(buf), r),
            took_front(*old(buf), *final(buf)),
    {
        proof {
            reveal(DeleteAclsMatchingAcl::spec_read_error_message);
        }
        Ok(if version >= 2 {
                read_compact_nullable_string(buf)?
            } else {
                read_nullable_string(buf)?
        })
    }

    fn read_resource_type(buf: &mut Bytes, version: i16) -> (r: Result<i8, Error>)
        ensures
            read_as(Self::spec_read_resource_type(bytes_seq(*old(buf)), version), *final(buf), r),
            took_front(*old(buf), *final(buf)),
    {
        proof {
            reveal(DeleteAclsMatchingAcl::spec_read_resource_type);
        }
        Ok(read_i8(buf)?)
    }

    fn read_resource_name(buf: &mut Bytes, version: i16) -> (r: Result<KafkaString, Error>)
        ensures
            read_as(Self::spec_read_resource_name(bytes_seq(*old(buf)), version), *final(buf), r),
            took_front(*old(buf), *final(buf)),
    {
        proof {
            reveal(DeleteAclsMatchingAcl::spec_read_resource_name);
        }
        Ok(if version >= 2 {
                read_compact_string(buf)?
            } else {
                read_string(buf)?
        })
    }

    fn read_pattern_type(buf: &mut Bytes, version: i16) -> (r: Result<i8, Error>)
        ensures
            read_as(Self::spec_read_pattern_type(bytes_seq(*old(buf)), version), *final(buf), r),
            took_front(*old(buf), *final(buf)),
    {
        proof {
            reveal(DeleteAclsMatchingAcl::spec_read_pattern_type);
        }
        Ok(read_i8(buf)?)
    }

    fn read_principal(buf: &mut Bytes, version: i16) -> (r: Result<KafkaString, Error>)
        ensures
            read_as(Self::spec_read_principal(bytes_seq(*old(buf)), version), *final(buf), r),
            took_front(*old(buf), *final(buf)),
    {
        proof {
            reveal(DeleteAclsMatchingAcl::spec_read_principal);
        }
        Ok(if version >= 2 {
                read_compact_string(buf)?
            } else {
                read_string(buf)?
        })
    }

    fn read_host(buf: &mut Bytes, version: i16) -> (r: Result<KafkaString, Error>)
        ensures
            read_as(Self::spec_read_host(bytes_seq(*old(buf)), version), *final(buf), r),
            took_front(*old(buf), *final(buf)),
    {
        proof {
            reveal(DeleteAclsMatchingAcl::spec_read_host);
        }
        Ok(if version >= 2 {
                read_compact_string(buf)?
            } else {
                read_string(buf)?
        })
    }

    fn read_operation(buf: &mut Bytes, version: i16) -> (r: Result<i8, Error>)
        ensures
            read_as(Self::spec_read_operation(bytes_seq(*old(buf)), version), *final(buf), r),
            took_front(*old(buf), *final(buf)),
    {
        proof {
            reveal(DeleteAclsMatchingAcl::spec_read_operation);
        }
        Ok(read_i8(buf)?)
    }

    fn read_permission_type(buf: &mut Bytes, version: i16) -> (r: Result<i8, Error>)
        ensures
            read_as(Self::spec_read_permission_type(bytes_seq(*old(buf)), version), *final(buf), r),
            took_front(*old(buf), *final(buf)),
    {
        proof {
            reveal(DeleteAclsMatchingAcl::spec_read_permission_type);
        }
        Ok(read_i8(buf)?)
    }

    fn read_tags(buf: &mut Bytes, version: i16) -> (r: Result<Vec<RawTaggedField>, Error>)
        ensures
            read_vec_as(Self::spec_read_tags(bytes_seq(*old(buf)), version), *final(buf), r),
            took_front(*old(buf), *final(buf)),
    {
        proof {
            reveal(DeleteAclsMatchingAcl::spec_read_tags);
        }
        Ok(if version >= 2 {
                read_tagged_fields(buf)?
            } else {
                empty_vec()
        })
    }

    #[verifier::rlimit(80)]
    #[verifier::spinoff_prover]
    pub fn read(buf: &mut Bytes, version: i16) -> (r: Result<Self, Error>)
        ensures
            read_as(Self::spec_read(bytes_seq(*old(buf)), version), *final(buf), r),
            took_front(*old(buf), *final(buf)),
    {
        let error_code = Self::read_error_code(buf, version)?;
        let error_message = Self::read_error_message(buf, version)?;
        let resource_type = Self::read_resource_type(buf, version)?;
        let resource_name = Self::read_resource_name(buf, version)?;
        let pattern_type = Self::read_pattern_type(buf, version)?;
        let principal = Self::read_principal(buf, version)?;
        let host = Self::read_host(buf, version)?;
        let operation = Self::read_operation(buf, version)?;
        let permission_type = Self::read_permission_type(buf, version)?;
        let _unknown_tagged_fields = Self::read_tags(buf, version)?;
        Ok(DeleteAclsMatchingAcl {
                error_code: error_code,
                error_message: error_message,
                resource_type: resource_type,
                resource_name: resource_name,
                pattern_type: pattern_type,
                principal: principal,
                host: host,
                operation: operation,
                permission_type: permission_type,
                _unknown_tagged_fields: _unknown_tagged_fields,
        })
    }

    #[verifier::rlimit(100)]
    #[verifier::spinoff_prover]
    pub fn write(&self, buf: &mut BytesMut, version: i16) -> (r: Result<(), Error>)
        requires
            has_room(Self::spec_write(self@, version), *old(buf)),
        ensures
            wrote(Self::spec_write(self@, version), *old(buf), *final(buf), r),
    {
        let ghost m = self@;
        proof {
            reveal(DeleteAclsMatchingAcl::spec_write_error_code);
            reveal(DeleteAclsMatchingAcl::spec_write_error_message);
            reveal(DeleteAclsMatchingAcl::spec_write_resource_type);
            reveal(DeleteAclsMatchingAcl::spec_write_resource_name);
            reveal(DeleteAclsMatchingAcl::spec_write_pattern_type);
            reveal(DeleteAclsMatchingAcl::spec_write_principal);
            reveal(DeleteAclsMatchingAcl::spec_write_host);
            reveal(DeleteAclsMatchingAcl::spec_write_operation);
            reveal(DeleteAclsMatchingAcl::spec_write_permission_type);
            reveal(DeleteAclsMatchingAcl::spec_write_tags);
        }
        let ghost s0 = Self::spec_write_error_code(m, version);
        let ghost w0 = s0;
        let ghost s1 = Self::spec_write_error_message(m, version);
        let ghost w1 = chain(w0, s1);
        let ghost s2 = Self::spec_write_resource_type(m, version);
        let ghost w2 = chain(w1, s2);
        let ghost s3 = Self::spec_write_resource_name(m, version);
        let ghost w3 = chain(w2, s3);
        let ghost s4 = Self::spec_write_pattern_type(m, version);
        let ghost w4 = chain(w3, s4);
        let ghost s5 = Self::spec_write_principal(m, version);
        let ghost w5 = chain(w4, s5);
        let ghost s6 = Self::spec_write_host(m, version);
        let ghost w6 = chain(w5, s6);
        let ghost s7 = Self::spec_write_operation(m, version);
        let ghost w7 = chain(w6, s7);
        let ghost s8 = Self::spec_write_permission_type(m, version);
        let ghost w8 = chain(w7, s8);
        let ghost s9 = Self::spec_write_tags(m, version);
        let ghost w9 = chain(w8, s9);
        assert(Self::spec_write(m, version) == w9);
        assert(written(w8).len() <= written(w9).len() && (w8 is Err ==> w9 == w8));
        assert(written(w7).len() <= written(w9).len() && (w7 is Err ==> w9 == w7));
        assert(written(w6).len() <= written(w9).len() && (w6 is Err ==> w9 == w6));
        assert(written(w5).len() <= written(w9).len() && (w5 is Err ==> w9 == w5));
        assert(written(w4).len() <= written(w9).len() && (w4 is Err ==> w9 == w4));
        assert(written(w3).len() <= written(w9).len() && (w3 is Err ==> w9 == w3));
        assert(written(w2).len() <= written(w9).len() && (w2 is Err ==> w9 == w2));
        assert(written(w1).len() <= written(w9).len() && (w1 is Err ==> w9 == w1));
        assert(written(w0).len() <= written(w9).len() && (w0 is Err ==> w9 == w0));
        let ghost mid = bytes_mut_seq(*buf);
        proof {
            lemma_append_empty(mid);
        }
        let r0 = {
            write_i16(buf, self.error_code);
            Ok(())
        };
        assert(bytes_mut_seq(*buf) == mid + written(s0));
        if r0.is_err() {
            return r0;
        }
        let ghost mid = bytes_mut_seq(*buf);
        proof {
            lemma_append_empty(mid);
        }
        let r1 = if version >= 2 {
            write_compact_nullable_string(buf, &self.error_message)
        } else {
            write_nullable_string(buf, &self.error_message)
        };
        assert(bytes_mut_seq(*buf) == mid + written(s1));
        proof {
            lemma_step(bytes_mut_seq(*old(buf)), w0, s1);
        }
        if r1.is_err() {
            return r1;
        }
        let ghost mid = bytes_mut_seq(*buf);
        proof {
            lemma_append_empty(mid);
        }
        let r2 = {
            write_i8(buf, self.resource_type);
            Ok(())
        };
        assert(bytes_mut_seq(*buf) == mid + written(s2));
        proof {
            lemma_step(bytes_mut_seq(*old(buf)), w1, s2);
        }
        if r2.is_err() {
            return r2;
        }
        let ghost mid = bytes_mut_seq(*buf);
        proof {
            lemma_append_empty(mid);
        }
        let r3 = if version >= 2 {
            write_compact_string(buf, &self.resource_name)
        } else {
            write_string(buf, &self.resource_name)
        };
        assert(bytes_mut_seq(*buf) == mid + written(s3));
        proof {
            lemma_step(bytes_mut_seq(*old(buf)), w2, s3);
        }
        if r3.is_err() {
            return r3;
        }
        let ghost mid = bytes_mut_seq(*buf);
        proof {
            lemma_append_empty(mid);
        }
        let r4 = {
            write_i8(buf, self.pattern_type);
            Ok(())
        };
        assert(bytes_mut_seq(*buf) == mid + written(s4));
        proof {
            lemma_step(bytes_mut_seq(*old(buf)), w3, s4);
        }
        if r4.is_err() {
            return r4;
        }
        let ghost mid = bytes_mut_seq(*buf);
        proof {
            lemma_append_empty(mid);
        }
        let r5 = if version >= 2 {
            write_compact_string(buf, &self.principal)
        } else {
            write_string(buf, &self.principal)
        };
        assert(bytes_mut_seq(*buf) == mid + written(s5));
        proof {
            lemma_step(bytes_mut_seq(*old(buf)), w4, s5);
        }
        if r5.is_err() {
            return r5;
        }
        let ghost mid = bytes_mut_seq(*buf);
        proof {
            lemma_append_empty(mid);
        }
        let r6 = if version >= 2 {
            write_compact_string(buf, &self.host)
        } else {
            write_string(buf, &self.host)
        };
        assert(bytes_mut_seq(*buf) == mid + written(s6));
        proof {
            lemma_step(bytes_mut_seq(*old(buf)), w5, s6);
        }
        if r6.is_err() {
            return r6;
        }
        let ghost mid = bytes_mut_seq(*buf);
        proof {
            lemma_append_empty(mid);
        }
        let r7 = {
            write_i8(buf, self.operation);
            Ok(())
        };
        assert(bytes_mut_seq(*buf) == mid + written(s7));
        proof {
            lemma_step(bytes_mut_seq(*old(buf)), w6, s7);
        }
        if r7.is_err() {
            return r7;
        }
        let ghost mid = bytes_mut_seq(*buf);
        proof {
            lemma_append_empty(mid);
        }
        let r8 = {
            write_i8(buf, self.permission_type);
            Ok(())
        };
        assert(bytes_mut_seq(*buf) == mid + written(s8));
        proof {
            lemma_step(bytes_mut_seq(*old(buf)), w7, s8);
        }
        if r8.is_err() {
            return r8;
        }
        let ghost mid = bytes_mut_seq(*buf);
        proof {
            lemma_append_empty(mid);
        }
        let r9 = if version >= 2 {
            write_tagged_fields(buf, &sort_by_tag(&self._unknown_tagged_fields))
        } else {
            Ok(())
        };
        assert(bytes_mut_seq(*buf) == mid + written(s9));
        proof {
            lemma_step(bytes_mut_seq(*old(buf)), w8, s9);
        }
        if r9.is_err() {
            return r9;
        }
        Ok(())
    }

    #[verifier::rlimit(100)]
    #[verifier::spinoff_prover]
    pub fn encoded_len(&self, version: i16) -> (r: Result<usize, Error>)
        ensures
            r == len_result(Self::spec_write(self@, version)),
    {
        let ghost m = self@;
        proof {
            reveal(DeleteAclsMatchingAcl::spec_write_error_code);
            reveal(DeleteAclsMatchingAcl::spec_write_error_message);
            reveal(DeleteAclsMatchingAcl::spec_write_resource_type);
            reveal(DeleteAclsMatchingAcl::spec_write_resource_name);
            reveal(DeleteAclsMatchingAcl::spec_write_pattern_type);
            reveal(DeleteAclsMatchingAcl::spec_write_principal);
            reveal(DeleteAclsMatchingAcl::spec_write_host);
            reveal(DeleteAclsMatchingAcl::spec_write_operation);
            reveal(DeleteAclsMatchingAcl::spec_write_permission_type);
            reveal(DeleteAclsMatchingAcl::spec_write_tags);
        }
        let ghost s0 = Self::spec_write_error_code(m, version);
        let ghost w0 = s0;
        let ghost s1 = Self::spec_write_error_message(m, version);
        let ghost w1 = chain(w0, s1);
        let ghost s2 = Self::spec_write_resource_type(m, version);
        let ghost w2 = chain(w1, s2);
        let ghost s3 = Self::spec_write_resource_name(m, version);
        let ghost w3 = chain(w2, s3);
        let ghost s4 = Self::spec_write_pattern_type(m, version);
        let ghost w4 = chain(w3, s4);
        let ghost s5 = Self::spec_write_principal(m, version);
        let ghost w5 = chain(w4, s5);
        let ghost s6 = Self::spec_write_host(m, version);
        let ghost w6 = chain(w5, s6);
        let ghost s7 = Self::spec_write_operation(m, version);
        let ghost w7 = chain(w6, s7);
        let ghost s8 = Self::spec_write_permission_type(m, version);
        let ghost w8 = chain(w7, s8);
        let ghost s9 = Self::spec_write_tags(m, version);
        let ghost w9 = chain(w8, s9);
        assert(Self::spec_write(m, version) == w9);
        assert(w8 is Err ==> w9 == w8);
        assert(w7 is Err ==> w9 == w7);
        assert(w6 is Err ==> w9 == w6);
        assert(w5 is Err ==> w9 == w5);
        assert(w4 is Err ==> w9 == w4);
        assert(w3 is Err ==> w9 == w3);
        assert(w2 is Err ==> w9 == w2);
        assert(w1 is Err ==> w9 == w1);
        assert(w0 is Err ==> w9 == w0);
        let mut len: usize = 0;
        let l0 = Ok(2);
        assert(l0 == len_result(s0));
        let n0 = match l0 {
            Ok(n) => n,
            Err(e) => {
                return Err(e);
            },
        };
        len = saturating_sum(len, n0);
        assert(w0 is Ok && len == saturate(written(w0).len() as int));
        let l1 = if version >= 2 {
            compact_nullable_string_len(&self.error_message)
        } else {
            nullable_string_len(&self.error_message)
        };
        assert(l1 == len_result(s1));
        let n1 = match l1 {
            Ok(n) => n,
            Err(e) => {
                return Err(e);
            },
        };
        proof {
            lemma_len_step(w0, s1, n1);
        }
        len = saturating_sum(len, n1);
        assert(w1 is Ok && len == saturate(written(w1).len() as int));
        let l2 = Ok(1);
        assert(l2 == len_result(s2));
        let n2 = match l2 {
            Ok(n) => n,
            Err(e) => {
                return Err(e);
            },
        };
        proof {
            lemma_len_step(w1, s2, n2);
        }
        len = saturating_sum(len, n2);
        assert(w2 is Ok && len == saturate(written(w2).len() as int));
        let l3 = if version >= 2 {
            compact_string_len(&self.resource_name)
        } else {
            string_len(&self.resource_name)
        };
        assert(l3 == len_result(s3));
        let n3 = match l3 {
            Ok(n) => n,
            Err(e) => {
                return Err(e);
            },
        };
        proof {
            lemma_len_step(w2, s3, n3);
        }
        len = saturating_sum(len, n3);
        assert(w3 is Ok && len == saturate(written(w3).len() as int));
        let l4 = Ok(1);
        assert(l4 == len_result(s4));
        let n4 = match l4 {
            Ok(n) => n,
            Err(e) => {
                return Err(e);
            },
        };
        proof {
            lemma_len_step(w3, s4, n4);
        }
        len = saturating_sum(len, n4);
        assert(w4 is Ok && len == saturate(written(w4).len() as int));
        let l5 = if version >= 2 {
            compact_string_len(&self.principal)
        } else {
            string_len(&self.principal)
        };
        assert(l5 == len_result(s5));
        let n5 = match l5 {
            Ok(n) => n,
            Err(e) => {
                return Err(e);
            },
        };
        proof {
            lemma_len_step(w4, s5, n5);
        }
        len = saturating_sum(len, n5);
        assert(w5 is Ok && len == saturate(written(w5).len() as int));
        let l6 = if version >= 2 {
            compact_string_len(&self.host)
        } else {
            string_len(&self.host)
        };
        assert(l6 == len_result(s6));
        let n6 = match l6 {
            Ok(n) => n,
            Err(e) => {
                return Err(e);
            },
        };
        proof {
            lemma_len_step(w5, s6, n6);
        }
        len = saturating_sum(len, n6);
        assert(w6 is Ok && len == saturate(written(w6).len() as int));
        let l7 = Ok(1);
        assert(l7 == len_result(s7));
        let n7 = match l7 {
            Ok(n) => n,
            Err(e) => {
                return Err(e);
            },
        };
        proof {
            lemma_len_step(w6, s7, n7);
        }
        len = saturating_sum(len, n7);
        assert(w7 is Ok && len == saturate(written(w7).len() as int));
        let l8 = Ok(1);
        assert(l8 == len_result(s8));
        let n8 = match l8 {
            Ok(n) => n,
            Err(e) => {
                return Err(e);
            },
        };
        proof {
            lemma_len_step(w7, s8, n8);
        }
        len = saturating_sum(len, n8);
        assert(w8 is Ok && len == saturate(written(w8).len() as int));
        let l9 = if version >= 2 {
            tagged_fields_len(&sort_by_tag(&self._unknown_tagged_fields))
        } else {
            Ok(0)
        };
        assert(l9 == len_result(s9));
        let n9 = match l9 {
            Ok(n) => n,
            Err(e) => {
                return Err(e);
            },
        };
        proof {
            lemma_len_step(w8, s9, n9);
        }
        len = saturating_sum(len, n9);
        assert(w9 is Ok && len == saturate(written(w9).len() as int));
        Ok(len)
    }
}

impl Codec for DeleteAclsFilterResult {
    type Item = DeleteAclsFilterResult;

    open spec fn spec_read_item(s: Seq<u8>, version: i16) -> ReadOutcome<DeleteAclsFilterResultView> {
        DeleteAclsFilterResult::spec_read(s, version)
    }

    open spec fn spec_write_item(v: DeleteAclsFilterResultView, version: i16) -> WriteOutcome {
        DeleteAclsFilterResult::spec_write(v, version)
    }

    open spec fn canonical_item(v: DeleteAclsFilterResultView, version: i16) -> bool {
        DeleteAclsFilterResult::canonical(v, version)
    }

    proof fn lemma_item_round_trip(v: DeleteAclsFilterResultView, version: i16, rest: Seq<u8>) {
        DeleteAclsFilterResult::lemma_round_trip(v, version, rest);
    }

    open spec fn writable_item(v: DeleteAclsFilterResultView, version: i16) -> bool {
        DeleteAclsFilterResult::writable(v, version)
    }

    proof fn lemma_item_writable(v: DeleteAclsFilterResultView, version: i16) {
        DeleteAclsFilterResult::lemma_writable(v, version);
    }

    fn read_item(buf: &mut Bytes, version: i16) -> (r: Result<DeleteAclsFilterResult, Error>) {
        DeleteAclsFilterResult::read(buf, version)
    }

    fn write_item(item: &DeleteAclsFilterResult, buf: &mut BytesMut, version: i16) -> (r: Result<(), Error>) {
        item.write(buf, version)
    }
}

impl MeasuredCodec for DeleteAclsFilterResult {
    fn item_len(item: &DeleteAclsFilterResult, version: i16) -> (r: Result<usize, Error>) {
        item.encoded_len(version)
    }
}

impl Codec for DeleteAclsMatchingAcl {
    type Item = DeleteAclsMatchingAcl;

    open spec fn spec_read_item(s: Seq<u8>, version: i16) -> ReadOutcome<DeleteAclsMatchingAclView> {
        DeleteAclsMatchingAcl::spec_read(s, version)
    }

    open spec fn spec_write_item(v: DeleteAclsMatchingAclView, version: i16) -> WriteOutcome {
        DeleteAclsMatchingAcl::spec_write(v, version)
    }

    open spec fn canonical_item(v: DeleteAclsMatchingAclView, version: i16) -> bool {
        DeleteAclsMatchingAcl::canonical(v, version)
    }

    proof fn lemma_item_round_trip(v: DeleteAclsMatchingAclView, version: i16, rest: Seq<u8>) {
        DeleteAclsMatchingAcl::lemma_round_trip(v, version, rest);
    }

    open spec fn writable_item(v: DeleteAclsMatchingAclView, version: i16) -> bool {
        DeleteAclsMatchingAcl::writable(v, version)
    }

    proof fn lemma_item_writable(v: DeleteAclsMatchingAclView, version: i16) {
        DeleteAclsMatchingAcl::lemma_writable(v, version);
    }

    fn read_item(buf: &mut Bytes, version: i16) -> (r: Result<DeleteAclsMatchingAcl, Error>) {
        DeleteAclsMatchingAcl::read(buf, version)
    }

    fn write_item(item: &DeleteAclsMatchingAcl, buf: &mut BytesMut, version: i16) -> (r: Result<(), Error>) {
        item.write(buf, version)
    }
}

impl MeasuredCodec for DeleteAclsMatchingAcl {
    fn item_len(item: &DeleteAclsMatchingAcl, version: i16) -> (r: Result<usize, Error>) {
        item.encoded_len(version)
    }
}

} // verus!
