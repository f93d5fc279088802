//! The expire delegation token request message.
use crate::buffer::{bytes_empty, bytes_mut_seq, bytes_seq};
use crate::error::{Error, UnsupportedVersion};
use crate::ints::{lemma_i64_roundtrip, read_i64, spec_read_i64, spec_write_i64, u64_bytes, write_i64};
use crate::strings::{lemma_bytes_round_trip, lemma_compact_bytes_round_trip, read_bytes, read_compact_bytes, spec_read_bytes, spec_read_compact_bytes, spec_write_bytes, spec_write_compact_bytes, write_bytes, write_compact_bytes};
use crate::tagged::{lemma_sorted_by_tag_in_order, lemma_sorted_tags_fit, lemma_tagged_fields_round_trip, lemma_tagged_fields_writable, read_tagged_fields, sort_by_tag, sorted_by_tag, spec_read_tagged_fields, spec_write_tagged_fields, tags_fit, tags_in_order, write_tagged_fields};
use crate::types::{RawTaggedField};
use crate::wire::{ReadOutcome, ViewClone, WriteOutcome, chain, clone_vec, emit, empty_vec, fail, has_room, lemma_append_empty, lemma_chain_written, lemma_step, read_as, read_bytes_as, read_vec_as, took_front, views, written, wrote};
use bytes::{Bytes, BytesMut};
use vstd::prelude::*;

verus! {

broadcast use {crate::wire::lemma_chain_written, crate::wire::lemma_took_front_nothing, crate::wire::lemma_took_front_twice};

#[derive(Debug, PartialEq)]
pub struct ExpireDelegationTokenRequestData {
    /// The HMAC of the delegation token to be expired.
    pub hmac: Bytes,
    /// The expiry time period in milliseconds.
    pub expiry_time_period_ms: i64,
    pub _unknown_tagged_fields: Vec<RawTaggedField>,
}

/// What a `ExpireDelegationTokenRequestData` holds, as the specification sees it.
#[verifier::ext_equal]
pub struct ExpireDelegationTokenRequestDataView {
    pub hmac: Seq<u8>,
    pub expiry_time_period_ms: i64,
    pub unknown_tagged_fields: Seq<(u32, Seq<u8>)>,
}

impl View for ExpireDelegationTokenRequestData {
    type V = ExpireDelegationTokenRequestDataView;

    open spec fn view(&self) -> ExpireDelegationTokenRequestDataView {
        ExpireDelegationTokenRequestDataView {
            hmac: bytes_seq(self.hmac),
            expiry_time_period_ms: self.expiry_time_period_ms,
            unknown_tagged_fields: views(self._unknown_tagged_fields@),
        }
    }
}

impl Clone for ExpireDelegationTokenRequestData {
    fn clone(&self) -> (r: Self)
        ensures
            r@ == self@,
    {
        let r = ExpireDelegationTokenRequestData {
            hmac: self.hmac.clone(),
            expiry_time_period_ms: self.expiry_time_period_ms,
            _unknown_tagged_fields: clone_vec(&self._unknown_tagged_fields),
        };
        assert(r@ =~= self@);
        r
    }
}

impl ViewClone for ExpireDelegationTokenRequestData {
    fn clone_view(&self) -> (r: Self) {
        self.clone()
    }
}

impl Default for ExpireDelegationTokenRequestData {
    fn default() -> (r: Self)
        ensures
            r@ == Self::default_view(),
    {
        let r = ExpireDelegationTokenRequestData {
            hmac: bytes_empty(),
            expiry_time_period_ms: 0_i64,
            _unknown_tagged_fields: empty_vec(),
        };
        assert(r@ =~= Self::default_view());
        r
    }
}

impl ExpireDelegationTokenRequestData {
    pub open spec fn default_view() -> ExpireDelegationTokenRequestDataView {
        ExpireDelegationTokenRequestDataView {
            hmac: Seq::empty(),
            expiry_time_period_ms: 0_i64,
            unknown_tagged_fields: Seq::empty(),
        }
    }

    /// The `hmac` field, read from the front of `s`.
    #[verifier::opaque]
    pub open spec fn spec_read_hmac(s: Seq<u8>, version: i16) -> ReadOutcome<Seq<u8>> {
        if version >= 2 {
            spec_read_compact_bytes(s)
        } else {
            spec_read_bytes(s)
        }
    }

    /// The `expiry_time_period_ms` field, read from the front of `s`.
    #[verifier::opaque]
    pub open spec fn spec_read_expiry_time_period_ms(s: Seq<u8>, version: i16) -> ReadOutcome<i64> {
        spec_read_i64(s)
    }

    /// The tagged fields, read from the front of `s`.
    #[verifier::opaque]
    pub open spec fn spec_read_tags(s: Seq<u8>, version: i16) -> ReadOutcome<Seq<(u32, Seq<u8>)>> {
        if version >= 2 {
            spec_read_tagged_fields(s)
        } else {
            Ok((Seq::empty(), s))
        }
    }

    pub open spec fn spec_read(s: Seq<u8>, version: i16) -> ReadOutcome<ExpireDelegationTokenRequestDataView> {
        if version < 1 || version > 2 {
            Err(Error::UnsupportedVersion(UnsupportedVersion { api_key: 40, version }))
        } else {
            match (Self::spec_read_hmac(s, version)) {
                Err(e) => Err(e),
                Ok((hmac, s)) => match (Self::spec_read_expiry_time_period_ms(s, version)) {
                    Err(e) => Err(e),
                    Ok((expiry_time_period_ms, s)) => match (Self::spec_read_tags(s, version)) {
                        Err(e) => Err(e),
                        Ok((unknown_tagged_fields, s)) => Ok((ExpireDelegationTokenRequestDataView {
                                    hmac: hmac,
                                    expiry_time_period_ms: expiry_time_period_ms,
                                    unknown_tagged_fields: unknown_tagged_fields,
                                }, s)),
                    },
                },
            }
        }
    }

    /// What writing the `hmac` field of `m` appends.
    #[verifier::opaque]
    pub open spec fn spec_write_hmac(m: ExpireDelegationTokenRequestDataView, version: i16) -> WriteOutcome {
        if version >= 2 {
            spec_write_compact_bytes(m.hmac)
        } else {
            spec_write_bytes(m.hmac)
        }
    }

    /// What writing the `expiry_time_period_ms` field of `m` appends.
    #[verifier::opaque]
    pub open spec fn spec_write_expiry_time_period_ms(m: ExpireDelegationTokenRequestDataView, version: i16) -> WriteOutcome {
        spec_write_i64(m.expiry_time_period_ms)
    }

    /// What writing the tagged fields of `m` appends.
    #[verifier::opaque]
    pub open spec fn spec_write_tags(m: ExpireDelegationTokenRequestDataView, version: i16) -> WriteOutcome {
        if version >= 2 {
            spec_write_tagged_fields(sorted_by_tag(m.unknown_tagged_fields))
        } else {
            emit(Seq::empty())
        }
    }

    pub open spec fn spec_write(m: ExpireDelegationTokenRequestDataView, version: i16) -> WriteOutcome {
        if version < 1 || version > 2 {
            fail(Error::UnsupportedVersion(UnsupportedVersion { api_key: 40, version }))
        } else {
            chain(
                chain(
                    Self::spec_write_hmac(m, version),
                    Self::spec_write_expiry_time_period_ms(m, version),
                ),
                Self::spec_write_tags(m, version),
            )
        }
    }

    /// Whether reading back what writing `m` in `version` appends gives `m`:
    /// fields that the version does not carry hold their default values, and
    /// tagged fields come in the order in which they are written.
    pub open spec fn canonical(m: ExpireDelegationTokenRequestDataView, version: i16) -> bool {
        &&& (if version >= 2 {
                tags_in_order(m.unknown_tagged_fields)
            } else {
                m.unknown_tagged_fields.len() == 0
        })
    }

    proof fn lemma_round_trip_hmac(m: ExpireDelegationTokenRequestDataView, version: i16, rest: Seq<u8>)
        requires
            Self::canonical(m, version),
            Self::spec_write_hmac(m, version) is Ok,
        ensures
            Self::spec_read_hmac(written(Self::spec_write_hmac(m, version)) + rest, version) == Ok::<(Seq<u8>, Seq<u8>), Error>((m.hmac, rest)),
    {
        reveal(ExpireDelegationTokenRequestData::spec_read_hmac);
        reveal(ExpireDelegationTokenRequestData::spec_write_hmac);
        if version >= 2 {
            lemma_compact_bytes_round_trip(m.hmac, rest);
        } else {
            lemma_bytes_round_trip(m.hmac, rest);
        }
    }

    proof fn lemma_round_trip_expiry_time_period_ms(m: ExpireDelegationTokenRequestDataView, version: i16, rest: Seq<u8>)
        requires
            Self::canonical(m, version),
            Self::spec_write_expiry_time_period_ms(m, version) is Ok,
        ensures
            Self::spec_read_expiry_time_period_ms(written(Self::spec_write_expiry_time_period_ms(m, version)) + rest, version) == Ok::<(i64, Seq<u8>), Error>((m.expiry_time_period_ms, rest)),
    {
        reveal(ExpireDelegationTokenRequestData::spec_read_expiry_time_period_ms);
        reveal(ExpireDelegationTokenRequestData::spec_write_expiry_time_period_ms);
        lemma_i64_roundtrip(m.expiry_time_period_ms, rest);
    }

    proof fn lemma_round_trip_tags(m: ExpireDelegationTokenRequestDataView, version: i16, rest: Seq<u8>)
        requires
            Self::canonical(m, version),
            Self::spec_write_tags(m, version) is Ok,
        ensures
            Self::spec_read_tags(written(Self::spec_write_tags(m, version)) + rest, version) == Ok::<(Seq<(u32, Seq<u8>)>, Seq<u8>), Error>((m.unknown_tagged_fields, rest)),
    {
        reveal(ExpireDelegationTokenRequestData::spec_read_tags);
        reveal(ExpireDelegationTokenRequestData::spec_write_tags);
        if version >= 2 {
            lemma_sorted_by_tag_in_order(m.unknown_tagged_fields);
            lemma_tagged_fields_round_trip(m.unknown_tagged_fields, rest);
        } else {
            assert(Seq::<u8>::empty() + rest =~= rest);
            assert(m.unknown_tagged_fields =~= Seq::empty());
        }
    }

    /// Reading back what writing `m` in `version` appends gives `m` again, and
    /// leaves what follows, for every canonical message whose write succeeds.
    #[verifier::rlimit(70)]
    #[verifier::spinoff_prover]
    pub proof fn lemma_round_trip(m: ExpireDelegationTokenRequestDataView, version: i16, rest: Seq<u8>)
        requires
            Self::canonical(m, version),
            Self::spec_write(m, version) is Ok,
        ensures
            Self::spec_read(written(Self::spec_write(m, version)) + rest, version) == Ok::<(ExpireDelegationTokenRequestDataView, Seq<u8>), Error>((m, rest)),
    {
        let b0 = written(Self::spec_write_hmac(m, version));
        let b1 = written(Self::spec_write_expiry_time_period_ms(m, version));
        let b2 = written(Self::spec_write_tags(m, version));
        let t3 = rest;
        let t2 = b2 + t3;
        let t1 = b1 + t2;
        let t0 = b0 + t1;
        let w0 = Self::spec_write_hmac(m, version);
        let w1 = chain(w0, Self::spec_write_expiry_time_period_ms(m, version));
        let w2 = chain(w1, Self::spec_write_tags(m, version));
        assert(Self::spec_write(m, version) == w2);
        assert(written(w2) + t3 =~= written(w1) + t2);
        assert(written(w1) + t2 =~= written(w0) + t1);
        Self::lemma_round_trip_hmac(m, version, t1);
        Self::lemma_round_trip_expiry_time_period_ms(m, version, t2);
        Self::lemma_round_trip_tags(m, version, t3);
    }

    /// In a version that does not carry `unknown_tagged_fields`, writing ignores its value.
    pub proof fn lemma_write_ignores_unknown_tagged_fields(m: ExpireDelegationTokenRequestDataView, value: Seq<(u32, Seq<u8>)>, version: i16)
        requires
            !(version >= 2),
        ensures
            Self::spec_write((ExpireDelegationTokenRequestDataView { unknown_tagged_fields: value, ..m }), version) == Self::spec_write(m, version),
    {
        reveal(ExpireDelegationTokenRequestData::spec_write_hmac);
        reveal(ExpireDelegationTokenRequestData::spec_write_expiry_time_period_ms);
        reveal(ExpireDelegationTokenRequestData::spec_write_tags);
    }

    /// The default message holds the default value of each field of the schema.
    pub proof fn lemma_default_values()
        ensures
            Self::default_view().hmac.len() == 0,
            Self::default_view().expiry_time_period_ms == (0_i64),
            Self::default_view().unknown_tagged_fields.len() == 0,
    {
    }

    /// Each integer, boolean and identifier field is written as its standard
    /// big-endian bytes (a boolean as `1` or `0`) in the versions that carry
    /// it, and as nothing in the others; reading it takes those bytes back (any
    /// byte other than `0` reads as `true`), or gives its default value.
    pub proof fn lemma_field_encodings(m: ExpireDelegationTokenRequestDataView, s: Seq<u8>, version: i16)
        ensures
            true ==> Self::spec_write_expiry_time_period_ms(m, version) == Ok::<Seq<u8>, (Error, Seq<u8>)>(u64_bytes(m.expiry_time_period_ms as u64)),
            true ==> Self::spec_read_expiry_time_period_ms(s, version) == spec_read_i64(s),
    {
        reveal(ExpireDelegationTokenRequestData::spec_write_expiry_time_period_ms);
        reveal(ExpireDelegationTokenRequestData::spec_read_expiry_time_period_ms);
    }

    /// Whether writing `m` in `version` succeeds, said over its parts: the
    /// version is one the schema covers, every field that the version cannot
    /// carry holds its default value, and every string, byte string, array and
    /// tagged field fits its length prefix.
    pub open spec fn writable(m: ExpireDelegationTokenRequestDataView, version: i16) -> bool {
        &&& 1 <= version <= 2
        &&& (if version >= 2 {
                m.hmac.len() < u32::MAX
            } else {
                m.hmac.len() <= i32::MAX
        })
        &&& (if version >= 2 {
                m.unknown_tagged_fields.len() <= u32::MAX && tags_fit(m.unknown_tagged_fields)
            } else {
                true
        })
    }

    proof fn lemma_writable_hmac(m: ExpireDelegationTokenRequestDataView, version: i16)
        ensures
            Self::spec_write_hmac(m, version) is Ok <==> (if version >= 2 { m.hmac.len() < u32::MAX } else { m.hmac.len() <= i32::MAX }),
    {
        reveal(ExpireDelegationTokenRequestData::spec_write_hmac);
    }

    proof fn lemma_writable_expiry_time_period_ms(m: ExpireDelegationTokenRequestDataView, version: i16)
        ensures
            Self::spec_write_expiry_time_period_ms(m, version) is Ok <==> true,
    {
        reveal(ExpireDelegationTokenRequestData::spec_write_expiry_time_period_ms);
    }

    proof fn lemma_writable_tags(m: ExpireDelegationTokenRequestDataView, version: i16)
        ensures
            Self::spec_write_tags(m, version) is Ok <==> (if version >= 2 { m.unknown_tagged_fields.len() <= u32::MAX && tags_fit(m.unknown_tagged_fields) } else { true }),
    {
        reveal(ExpireDelegationTokenRequestData::spec_write_tags);
        if version >= 2 {
            lemma_sorted_tags_fit(m.unknown_tagged_fields);
            lemma_tagged_fields_writable(sorted_by_tag(m.unknown_tagged_fields));
        }
    }

    /// Writing `m` in `version` succeeds exactly when `m` is writable in it;
    /// so do `write` and `encoded_len`, whose results follow `spec_write`.
    #[verifier::rlimit(48)]
    pub proof fn lemma_writable(m: ExpireDelegationTokenRequestDataView, version: i16)
        ensures
            Self::spec_write(m, version) is Ok <==> Self::writable(m, version),
    {
        Self::lemma_writable_hmac(m, version);
        Self::lemma_writable_expiry_time_period_ms(m, version);
        Self::lemma_writable_tags(m, version);
    }

    /// A version outside the range that the schema covers is refused, by
    /// reads and by writes alike, before anything is read or written.
    pub proof fn lemma_refused_version(m: ExpireDelegationTokenRequestDataView, s: Seq<u8>, version: i16)
        requires
            version < 1 || version > 2,
        ensures
            Self::spec_read(s, version) == Err::<(ExpireDelegationTokenRequestDataView, Seq<u8>), Error>(Error::UnsupportedVersion(UnsupportedVersion { api_key: 40, version })),
            Self::spec_write(m, version) == fail(Error::UnsupportedVersion(UnsupportedVersion { api_key: 40, version })),
    {
    }

    fn read_hmac(buf: &mut Bytes, version: i16) -> (r: Result<Bytes, Error>)
        ensures
            read_bytes_as(Self::spec_read_hmac(bytes_seq(*old(buf)), version), *final(buf), r),
            took_front(*old(buf), *final(buf)),
    {
        proof {
            reveal(ExpireDelegationTokenRequestData::spec_read_hmac);
        }
        Ok(if version >= 2 {
                read_compact_bytes(buf)?
            } else {
                read_bytes(buf)?
        })
    }

    fn read_expiry_time_period_ms(buf: &mut Bytes, version: i16) -> (r: Result<i64, Error>)
        ensures
            read_as(Self::spec_read_expiry_time_period_ms(bytes_seq(*old(buf)), version), *final(buf), r),
            took_front(*old(buf), *final(buf)),
    {
        proof {
            reveal(ExpireDelegationTokenRequestData::spec_read_expiry_time_period_ms);
        }
        Ok(read_i64(buf)?)
    }

    fn read_tags(buf: &mut Bytes, version: i16) -> (r: Result<Vec<RawTaggedField>, Error>)
        ensures
            read_vec_as(Self::spec_read_tags(bytes_seq(*old(buf)), version), *final(buf), r),
            took_front(*old(buf), *final(buf)),
    {
        proof {
            reveal(ExpireDelegationTokenRequestData::spec_read_tags);
        }
        Ok(if version >= 2 {
                read_tagged_fields(buf)?
            } else {
                empty_vec()
        })
    }

    pub fn read(buf: &mut Bytes, version: i16) -> (r: Result<Self, Error>)
        ensures
            read_as(Self::spec_read(bytes_seq(*old(buf)), version), *final(buf), r),
            took_front(*old(buf), *final(buf)),
            (version < 1 || version > 2) ==> bytes_seq(*final(buf)) == bytes_seq(*old(buf)),
    {
        if version < 1 || version > 2 {
            return Err(Error::UnsupportedVersion(UnsupportedVersion::new(40, version)));
        }
        let hmac = Self::read_hmac(buf, version)?;
        let expiry_time_period_ms = Self::read_expiry_time_period_ms(buf, version)?;
        let _unknown_tagged_fields = Self::read_tags(buf, version)?;
        Ok(ExpireDelegationTokenRequestData {
                hmac: hmac,
                expiry_time_period_ms: expiry_time_period_ms,
                _unknown_tagged_fields: _unknown_tagged_fields,
        })
    }

    #[verifier::rlimit(60)]
    pub fn write(&self, buf: &mut BytesMut, version: i16) -> (r: Result<(), Error>)
        requires
            has_room(Self::spec_write(self@, version), *old(buf)),
        ensures
            wrote(Self::spec_write(self@, version), *old(buf), *final(buf), r),
    {
        if version < 1 || version > 2 {
            return Err(Error::UnsupportedVersion(UnsupportedVersion::new(40, version)));
        }
        let ghost m = self@;
        proof {
            reveal(ExpireDelegationTokenRequestData::spec_write_hmac);
            reveal(ExpireDelegationTokenRequestData::spec_write_expiry_time_period_ms);
            reveal(ExpireDelegationTokenRequestData::spec_write_tags);
        }
        let ghost s0 = Self::spec_write_hmac(m, version);
        let ghost w0 = s0;
        let ghost s1 = Self::spec_write_expiry_time_period_ms(m, version);
        let ghost w1 = chain(w0, s1);
        let ghost s2 = Self::spec_write_tags(m, version);
        let ghost w2 = chain(w1, s2);
        assert(Self::spec_write(m, version) == w2);
        assert(written(w1).len() <= written(w2).len() && (w1 is Err ==> w2 == w1));
        assert(written(w0).len() <= written(w2).len() && (w0 is Err ==> w2 == w0));
        let ghost mid = bytes_mut_seq(*buf);
        proof {
            lemma_append_empty(mid);
        }
        let r0 = if version >= 2 {
            write_compact_bytes(buf, &self.hmac)
        } else {
            write_bytes(buf, &self.hmac)
        };
        assert(bytes_mut_seq(*buf) == mid + written(s0));
        if r0.is_err() {
            return r0;
        }
        let ghost mid = bytes_mut_seq(*buf);
        proof {
            lemma_append_empty(mid);
        }
        let r1 = {
            write_i64(buf, self.expiry_time_period_ms);
            Ok(())
        };
        assert(bytes_mut_seq(*buf) == mid + written(s1));
        proof {
            lemma_step(bytes_mut_seq(*old(buf)), w0, s1);
        }
        if r1.is_err() {
            return r1;
        }
        let ghost mid = bytes_mut_seq(*buf);
        proof {
            lemma_append_empty(mid);
        }
        let r2 = if version >= 2 {
            write_tagged_fields(buf, &sort_by_tag(&self._unknown_tagged_fields))
        } else {
            Ok(())
        };
        assert(bytes_mut_seq(*buf) == mid + written(s2));
        proof {
            lemma_step(bytes_mut_seq(*old(buf)), w1, s2);
        }
        if r2.is_err() {
            return r2;
        }
        Ok(())
    }
}

} // verus!
