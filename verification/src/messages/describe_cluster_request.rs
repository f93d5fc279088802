//! The describe cluster request message.
use crate::buffer::{bytes_mut_seq, bytes_seq};
use crate::codec::{saturating_sum};
use crate::error::{Error, UnsupportedFieldVersion, UnsupportedVersion};
use crate::ints::{lemma_bool_roundtrip, lemma_i8_roundtrip, read_bool, read_i8, spec_read_bool, spec_read_i8, spec_write_bool, spec_write_i8, write_bool, write_i8};
use crate::tagged::{lemma_sorted_by_tag_in_order, lemma_sorted_tags_fit, lemma_tagged_fields_round_trip, lemma_tagged_fields_writable, read_tagged_fields, sort_by_tag, sorted_by_tag, spec_read_tagged_fields, spec_write_tagged_fields, tagged_fields_len, tags_fit, tags_in_order, write_tagged_fields};
use crate::types::{RawTaggedField};
use crate::wire::{ReadOutcome, ViewClone, WriteOutcome, chain, clone_vec, emit, empty_vec, fail, has_room, lemma_append_empty, lemma_chain_written, lemma_len_step, lemma_step, len_result, read_as, read_vec_as, saturate, took_front, views, written, wrote};
use bytes::{Bytes, BytesMut};
use vstd::prelude::*;

verus! {

broadcast use {crate::wire::lemma_chain_written, crate::wire::lemma_took_front_nothing, crate::wire::lemma_took_front_twice};

#[derive(Debug, PartialEq)]
pub struct DescribeClusterRequestData {
    /// Whether to include cluster authorized operations.
    pub include_cluster_authorized_operations: bool,
    /// The endpoint type to describe. 1=brokers, 2=controllers.
    pub endpoint_type: i8,
    /// Whether to include fenced brokers when listing brokers.
    pub include_fenced_brokers: bool,
    pub _unknown_tagged_fields: Vec<RawTaggedField>,
}

/// What a `DescribeClusterRequestData` holds, as the specification sees it.
#[verifier::ext_equal]
pub struct DescribeClusterRequestDataView {
    pub include_cluster_authorized_operations: bool,
    pub endpoint_type: i8,
    pub include_fenced_brokers: bool,
    pub unknown_tagged_fields: Seq<(u32, Seq<u8>)>,
}

impl View for DescribeClusterRequestData {
    type V = DescribeClusterRequestDataView;

    open spec fn view(&self) -> DescribeClusterRequestDataView {
        DescribeClusterRequestDataView {
            include_cluster_authorized_operations: self.include_cluster_authorized_operations,
            endpoint_type: self.endpoint_type,
            include_fenced_brokers: self.include_fenced_brokers,
            unknown_tagged_fields: views(self._unknown_tagged_fields@),
        }
    }
}

impl Clone for DescribeClusterRequestData {
    fn clone(&self) -> (r: Self)
        ensures
            r@ == self@,
    {
        let r = DescribeClusterRequestData {
            include_cluster_authorized_operations: self.include_cluster_authorized_operations,
            endpoint_type: self.endpoint_type,
            include_fenced_brokers: self.include_fenced_brokers,
            _unknown_tagged_fields: clone_vec(&self._unknown_tagged_fields),
        };
        assert(r@ =~= self@);
        r
    }
}

impl ViewClone for DescribeClusterRequestData {
    fn clone_view(&self) -> (r: Self) {
        self.clone()
    }
}

impl Default for DescribeClusterRequestData {
    fn default() -> (r: Self)
        ensures
            r@ == Self::default_view(),
    {
        let r = DescribeClusterRequestData {
            include_cluster_authorized_operations: false,
            endpoint_type: 1i8,
            include_fenced_brokers: false,
            _unknown_tagged_fields: empty_vec(),
        };
        assert(r@ =~= Self::default_view());
        r
    }
}

impl DescribeClusterRequestData {
    pub open spec fn default_view() -> DescribeClusterRequestDataView {
        DescribeClusterRequestDataView {
            include_cluster_authorized_operations: false,
            endpoint_type: 1i8,
            include_fenced_brokers: false,
            unknown_tagged_fields: Seq::empty(),
        }
    }

    /// The `include_cluster_authorized_operations` field, read from the front of `s`.
    #[verifier::opaque]
    pub open spec fn spec_read_include_cluster_authorized_operations(s: Seq<u8>, version: i16) -> ReadOutcome<bool> {
        spec_read_bool(s)
    }

    /// The `endpoint_type` field, read from the front of `s`.
    #[verifier::opaque]
    pub open spec fn spec_read_endpoint_type(s: Seq<u8>, version: i16) -> ReadOutcome<i8> {
        if version >= 1 {
            spec_read_i8(s)
        } else {
            Ok((1i8, s))
        }
    }

    /// The `include_fenced_brokers` field, read from the front of `s`.
    #[verifier::opaque]
    pub open spec fn spec_read_include_fenced_brokers(s: Seq<u8>, version: i16) -> ReadOutcome<bool> {
        if version >= 2 {
            spec_read_bool(s)
        } else {
            Ok((false, s))
        }
    }

    /// The tagged fields, read from the front of `s`.
    #[verifier::opaque]
    pub open spec fn spec_read_tags(s: Seq<u8>, version: i16) -> ReadOutcome<Seq<(u32, Seq<u8>)>> {
        spec_read_tagged_fields(s)
    }

    pub open spec fn spec_read(s: Seq<u8>, version: i16) -> ReadOutcome<DescribeClusterRequestDataView> {
        if version < 0 || version > 2 {
            Err(Error::UnsupportedVersion(UnsupportedVersion { api_key: 60, version }))
        } else {
            match (Self::spec_read_include_cluster_authorized_operations(s, version)) {
                Err(e) => Err(e),
                Ok((include_cluster_authorized_operations, s)) => match (Self::spec_read_endpoint_type(s, version)) {
                    Err(e) => Err(e),
                    Ok((endpoint_type, s)) => match (Self::spec_read_include_fenced_brokers(s, version)) {
                        Err(e) => Err(e),
                        Ok((include_fenced_brokers, s)) => match (Self::spec_read_tags(s, version)) {
                            Err(e) => Err(e),
                            Ok((unknown_tagged_fields, s)) => Ok((DescribeClusterRequestDataView {
                                        include_cluster_authorized_operations: include_cluster_authorized_operations,
                                        endpoint_type: endpoint_type,
                                        include_fenced_brokers: include_fenced_brokers,
                                        unknown_tagged_fields: unknown_tagged_fields,
                                    }, s)),
                        },
                    },
                },
            }
        }
    }

    /// What writing the `include_cluster_authorized_operations` field of `m` appends.
    #[verifier::opaque]
    pub open spec fn spec_write_include_cluster_authorized_operations(m: DescribeClusterRequestDataView, version: i16) -> WriteOutcome {
        spec_write_bool(m.include_cluster_authorized_operations)
    }

    /// What writing the `endpoint_type` field of `m` appends.
    #[verifier::opaque]
    pub open spec fn spec_write_endpoint_type(m: DescribeClusterRequestDataView, version: i16) -> WriteOutcome {
        if version >= 1 {
            spec_write_i8(m.endpoint_type)
        } else {
            if m.endpoint_type != 1i8 {
                fail(Error::UnsupportedFieldVersion(UnsupportedFieldVersion { api_key: 60, field: "endpoint_type", version }))
            } else {
                emit(Seq::empty())
            }
        }
    }

    /// What writing the `include_fenced_brokers` field of `m` appends.
    #[verifier::opaque]
    pub open spec fn spec_write_include_fenced_brokers(m: DescribeClusterRequestDataView, version: i16) -> WriteOutcome {
        if version >= 2 {
            spec_write_bool(m.include_fenced_brokers)
        } else {
            if m.include_fenced_brokers != false {
                fail(Error::UnsupportedFieldVersion(UnsupportedFieldVersion { api_key: 60, field: "include_fenced_brokers", version }))
            } else {
                emit(Seq::empty())
            }
        }
    }

    /// What writing the tagged fields of `m` appends.
    #[verifier::opaque]
    pub open spec fn spec_write_tags(m: DescribeClusterRequestDataView, version: i16) -> WriteOutcome {
        spec_write_tagged_fields(sorted_by_tag(m.unknown_tagged_fields))
    }

    pub open spec fn spec_write(m: DescribeClusterRequestDataView, version: i16) -> WriteOutcome {
        if version < 0 || version > 2 {
            fail(Error::UnsupportedVersion(UnsupportedVersion { api_key: 60, version }))
        } else {
            chain(
                chain(
                    chain(
                        Self::spec_write_include_cluster_authorized_operations(m, version),
                        Self::spec_write_endpoint_type(m, version),
                    ),
                    Self::spec_write_include_fenced_brokers(m, version),
                ),
                Self::spec_write_tags(m, version),
            )
        }
    }

    /// Whether reading back what writing `m` in `version` appends gives `m`:
    /// fields that the version does not carry hold their default values, and
    /// tagged fields come in the order in which they are written.
    pub open spec fn canonical(m: DescribeClusterRequestDataView, version: i16) -> bool {
        &&& tags_in_order(m.unknown_tagged_fields)
    }

    proof fn lemma_round_trip_include_cluster_authorized_operations(m: DescribeClusterRequestDataView, version: i16, rest: Seq<u8>)
        requires
            Self::canonical(m, version),
            Self::spec_write_include_cluster_authorized_operations(m, version) is Ok,
        ensures
            Self::spec_read_include_cluster_authorized_operations(written(Self::spec_write_include_cluster_authorized_operations(m, version)) + rest, version) == Ok::<(bool, Seq<u8>), Error>((m.include_cluster_authorized_operations, rest)),
    {
        reveal(DescribeClusterRequestData::spec_read_include_cluster_authorized_operations);
        reveal(DescribeClusterRequestData::spec_write_include_cluster_authorized_operations);
        lemma_bool_roundtrip(m.include_cluster_authorized_operations, rest);
    }

    proof fn lemma_round_trip_endpoint_type(m: DescribeClusterRequestDataView, version: i16, rest: Seq<u8>)
        requires
            Self::canonical(m, version),
            Self::spec_write_endpoint_type(m, version) is Ok,
        ensures
            Self::spec_read_endpoint_type(written(Self::spec_write_endpoint_type(m, version)) + rest, version) == Ok::<(i8, Seq<u8>), Error>((m.endpoint_type, rest)),
    {
        reveal(DescribeClusterRequestData::spec_read_endpoint_type);
        reveal(DescribeClusterRequestData::spec_write_endpoint_type);
        if version >= 1 {
            lemma_i8_roundtrip(m.endpoint_type, rest);
        } else {
            assert(Seq::<u8>::empty() + rest =~= rest);
        }
    }

    proof fn lemma_round_trip_include_fenced_brokers(m: DescribeClusterRequestDataView, version: i16, rest: Seq<u8>)
        requires
            Self::canonical(m, version),
            Self::spec_write_include_fenced_brokers(m, version) is Ok,
        ensures
            Self::spec_read_include_fenced_brokers(written(Self::spec_write_include_fenced_brokers(m, version)) + rest, version) == Ok::<(bool, Seq<u8>), Error>((m.include_fenced_brokers, rest)),
    {
        reveal(DescribeClusterRequestData::spec_read_include_fenced_brokers);
        reveal(DescribeClusterRequestData::spec_write_include_fenced_brokers);
        if version >= 2 {
            lemma_bool_roundtrip(m.include_fenced_brokers, rest);
        } else {
            assert(Seq::<u8>::empty() + rest =~= rest);
        }
    }

    proof fn lemma_round_trip_tags(m: DescribeClusterRequestDataView, version: i16, rest: Seq<u8>)
        requires
            Self::canonical(m, version),
            Self::spec_write_tags(m, version) is Ok,
        ensures
            Self::spec_read_tags(written(Self::spec_write_tags(m, version)) + rest, version) == Ok::<(Seq<(u32, Seq<u8>)>, Seq<u8>), Error>((m.unknown_tagged_fields, rest)),
    {
        reveal(DescribeClusterRequestData::spec_read_tags);
        reveal(DescribeClusterRequestData::spec_write_tags);
        lemma_sorted_by_tag_in_order(m.unknown_tagged_fields);
        lemma_tagged_fields_round_trip(m.unknown_tagged_fields, rest);
    }

    /// Reading back what writing `m` in `version` appends gives `m` again, and
    /// leaves what follows, for every canonical message whose write succeeds.
    #[verifier::rlimit(80)]
    #[verifier::spinoff_prover]
    pub proof fn lemma_round_trip(m: DescribeClusterRequestDataView, version: i16, rest: Seq<u8>)
        requires
            Self::canonical(m, version),
            Self::spec_write(m, version) is Ok,
        ensures
            Self::spec_read(written(Self::spec_write(m, version)) + rest, version) == Ok::<(DescribeClusterRequestDataView, Seq<u8>), Error>((m, rest)),
    {
        let b0 = written(Self::spec_write_include_cluster_authorized_operations(m, version));
        let b1 = written(Self::spec_write_endpoint_type(m, version));
        let b2 = written(Self::spec_write_include_fenced_brokers(m, version));
        let b3 = written(Self::spec_write_tags(m, version));
        let t4 = rest;
        let t3 = b3 + t4;
        let t2 = b2 + t3;
        let t1 = b1 + t2;
        let t0 = b0 + t1;
        let w0 = Self::spec_write_include_cluster_authorized_operations(m, version);
        let w1 = chain(w0, Self::spec_write_endpoint_type(m, version));
        let w2 = chain(w1, Self::spec_write_include_fenced_brokers(m, version));
        let w3 = chain(w2, Self::spec_write_tags(m, version));
        assert(Self::spec_write(m, version) == w3);
        assert(written(w3) + t4 =~= written(w2) + t3);
        assert(written(w2) + t3 =~= written(w1) + t2);
        assert(written(w1) + t2 =~= written(w0) + t1);
        Self::lemma_round_trip_include_cluster_authorized_operations(m, version, t1);
        Self::lemma_round_trip_endpoint_type(m, version, t2);
        Self::lemma_round_trip_include_fenced_brokers(m, version, t3);
        Self::lemma_round_trip_tags(m, version, t4);
    }

    /// The default message holds the default value of each field of the schema.
    pub proof fn lemma_default_values()
        ensures
            Self::default_view().include_cluster_authorized_operations == (false),
            Self::default_view().endpoint_type == (1i8),
            Self::default_view().include_fenced_brokers == (false),
            Self::default_view().unknown_tagged_fields.len() == 0,
    {
    }

    /// Each integer, boolean and identifier field is written as its standard
    /// big-endian bytes (a boolean as `1` or `0`) in the versions that carry
    /// it, and as nothing in the others; reading it takes those bytes back (any
    /// byte other than `0` reads as `true`), or gives its default value.
    pub proof fn lemma_field_encodings(m: DescribeClusterRequestDataView, s: Seq<u8>, version: i16)
        ensures
            true ==> Self::spec_write_include_cluster_authorized_operations(m, version) == Ok::<Seq<u8>, (Error, Seq<u8>)>(seq![if m.include_cluster_authorized_operations { 1u8 } else { 0u8 }]),
            version >= 1 ==> Self::spec_write_endpoint_type(m, version) == Ok::<Seq<u8>, (Error, Seq<u8>)>(seq![m.endpoint_type as u8]),
            version >= 2 ==> Self::spec_write_include_fenced_brokers(m, version) == Ok::<Seq<u8>, (Error, Seq<u8>)>(seq![if m.include_fenced_brokers { 1u8 } else { 0u8 }]),
            true ==> Self::spec_read_include_cluster_authorized_operations(s, version) == (if s.len() < 1 { Err(Error::UnexpectedEof) } else { Ok((s[0] != 0, s.drop_first())) }),
            version >= 1 ==> Self::spec_read_endpoint_type(s, version) == (if s.len() < 1 { Err(Error::UnexpectedEof) } else { Ok((s[0] as i8, s.drop_first())) }),
            !(version >= 1) ==> Self::spec_read_endpoint_type(s, version) == Ok::<(i8, Seq<u8>), Error>((1i8, s)),
            version >= 2 ==> Self::spec_read_include_fenced_brokers(s, version) == (if s.len() < 1 { Err(Error::UnexpectedEof) } else { Ok((s[0] != 0, s.drop_first())) }),
            !(version >= 2) ==> Self::spec_read_include_fenced_brokers(s, version) == Ok::<(bool, Seq<u8>), Error>((false, s)),
    {
        reveal(DescribeClusterRequestData::spec_write_include_cluster_authorized_operations);
        reveal(DescribeClusterRequestData::spec_read_include_cluster_authorized_operations);
        reveal(DescribeClusterRequestData::spec_write_endpoint_type);
        reveal(DescribeClusterRequestData::spec_read_endpoint_type);
        reveal(DescribeClusterRequestData::spec_write_include_fenced_brokers);
        reveal(DescribeClusterRequestData::spec_read_include_fenced_brokers);
    }

    /// Whether writing `m` in `version` succeeds, said over its parts: the
    /// version is one the schema covers, every field that the version cannot
    /// carry holds its default value, and every string, byte string, array and
    /// tagged field fits its length prefix.
    pub open spec fn writable(m: DescribeClusterRequestDataView, version: i16) -> bool {
        &&& 0 <= version <= 2
        &&& (if version >= 1 {
                true
            } else {
                !(m.endpoint_type != 1i8)
        })
        &&& (if version >= 2 {
                true
            } else {
                !(m.include_fenced_brokers != false)
        })
        &&& m.unknown_tagged_fields.len() <= u32::MAX && tags_fit(m.unknown_tagged_fields)
    }

    proof fn lemma_writable_include_cluster_authorized_operations(m: DescribeClusterRequestDataView, version: i16)
        ensures
            Self::spec_write_include_cluster_authorized_operations(m, version) is Ok <==> true,
    {
        reveal(DescribeClusterRequestData::spec_write_include_cluster_authorized_operations);
    }

    proof fn lemma_writable_endpoint_type(m: DescribeClusterRequestDataView, version: i16)
        ensures
            Self::spec_write_endpoint_type(m, version) is Ok <==> (if version >= 1 { true } else { !(m.endpoint_type != 1i8) }),
    {
        reveal(DescribeClusterRequestData::spec_write_endpoint_type);
    }

    proof fn lemma_writable_include_fenced_brokers(m: DescribeClusterRequestDataView, version: i16)
        ensures
            Self::spec_write_include_fenced_brokers(m, version) is Ok <==> (if version >= 2 { true } else { !(m.include_fenced_brokers != false) }),
    {
        reveal(DescribeClusterRequestData::spec_write_include_fenced_brokers);
    }

    proof fn lemma_writable_tags(m: DescribeClusterRequestDataView, version: i16)
        ensures
            Self::spec_write_tags(m, version) is Ok <==> m.unknown_tagged_fields.len() <= u32::MAX && tags_fit(m.unknown_tagged_fields),
    {
        reveal(DescribeClusterRequestData::spec_write_tags);
        lemma_sorted_tags_fit(m.unknown_tagged_fields);
        lemma_tagged_fields_writable(sorted_by_tag(m.unknown_tagged_fields));
    }

    /// Writing `m` in `version` succeeds exactly when `m` is writable in it;
    /// so do `write` and `encoded_len`, whose results follow `spec_write`.
    #[verifier::rlimit(54)]
    pub proof fn lemma_writable(m: DescribeClusterRequestDataView, version: i16)
        ensures
            Self::spec_write(m, version) is Ok <==> Self::writable(m, version),
    {
        Self::lemma_writable_include_cluster_authorized_operations(m, version);
        Self::lemma_writable_endpoint_type(m, version);
        Self::lemma_writable_include_fenced_brokers(m, version);
        Self::lemma_writable_tags(m, version);
    }

    /// A version outside the range that the schema covers is refused, by
    /// reads and by writes alike, before anything is read or written.
    pub proof fn lemma_refused_version(m: DescribeClusterRequestDataView, s: Seq<u8>, version: i16)
        requires
            version < 0 || version > 2,
        ensures
            Self::spec_read(s, version) == Err::<(DescribeClusterRequestDataView, Seq<u8>), Error>(Error::UnsupportedVersion(UnsupportedVersion { api_key: 60, version })),
            Self::spec_write(m, version) == fail(Error::UnsupportedVersion(UnsupportedVersion { api_key: 60, version })),
    {
    }

    pub fn with_include_cluster_authorized_operations(self, value: bool) -> (r: Self)
        ensures
            r@ == (DescribeClusterRequestDataView { include_cluster_authorized_operations: value, ..self@ }),
    {
        let mut r = self;
        r.include_cluster_authorized_operations = value;
        r
    }

    pub fn with_endpoint_type(self, value: i8) -> (r: Self)
        ensures
            r@ == (DescribeClusterRequestDataView { endpoint_type: value, ..self@ }),
    {
        let mut r = self;
        r.endpoint_type = value;
        r
    }

    pub fn with_include_fenced_brokers(self, value: bool) -> (r: Self)
        ensures
            r@ == (DescribeClusterRequestDataView { include_fenced_brokers: value, ..self@ }),
    {
        let mut r = self;
        r.include_fenced_brokers = value;
        r
    }

    fn read_include_cluster_authorized_operations(buf: &mut Bytes, version: i16) -> (r: Result<bool, Error>)
        ensures
            read_as(Self::spec_read_include_cluster_authorized_operations(bytes_seq(*old(buf)), version), *final(buf), r),
            took_front(*old(buf), *final(buf)),
    {
        proof {
            reveal(DescribeClusterRequestData::spec_read_include_cluster_authorized_operations);
        }
        Ok(read_bool(buf)?)
    }

    fn read_endpoint_type(buf: &mut Bytes, version: i16) -> (r: Result<i8, Error>)
        ensures
            read_as(Self::spec_read_endpoint_type(bytes_seq(*old(buf)), version), *final(buf), r),
            took_front(*old(buf), *final(buf)),
    {
        proof {
            reveal(DescribeClusterRequestData::spec_read_endpoint_type);
        }
        Ok(if version >= 1 {
                read_i8(buf)?
            } else {
                1i8
        })
    }

    fn read_include_fenced_brokers(buf: &mut Bytes, version: i16) -> (r: Result<bool, Error>)
        ensures
            read_as(Self::spec_read_include_fenced_brokers(bytes_seq(*old(buf)), version), *final(buf), r),
            took_front(*old(buf), *final(buf)),
    {
        proof {
            reveal(DescribeClusterRequestData::spec_read_include_fenced_brokers);
        }
        Ok(if version >= 2 {
                read_bool(buf)?
            } else {
                false
        })
    }

    fn read_tags(buf: &mut Bytes, version: i16) -> (r: Result<Vec<RawTaggedField>, Error>)
        ensures
            read_vec_as(Self::spec_read_tags(bytes_seq(*old(buf)), version), *final(buf), r),
            took_front(*old(buf), *final(buf)),
    {
        proof {
            reveal(DescribeClusterRequestData::spec_read_tags);
        }
        Ok(read_tagged_fields(buf)?)
    }

    pub fn read(buf: &mut Bytes, version: i16) -> (r: Result<Self, Error>)
        ensures
            read_as(Self::spec_read(bytes_seq(*old(buf)), version), *final(buf), r),
            took_front(*old(buf), *final(buf)),
            (version < 0 || version > 2) ==> bytes_seq(*final(buf)) == bytes_seq(*old(buf)),
    {
        if version < 0 || version > 2 {
            return Err(Error::UnsupportedVersion(UnsupportedVersion::new(60, version)));
        }
        let include_cluster_authorized_operations = Self::read_include_cluster_authorized_operations(buf, version)?;
        let endpoint_type = Self::read_endpoint_type(buf, version)?;
        let include_fenced_brokers = Self::read_include_fenced_brokers(buf, version)?;
        let _unknown_tagged_fields = Self::read_tags(buf, version)?;
        Ok(DescribeClusterRequestData {
                include_cluster_authorized_operations: include_cluster_authorized_operations,
                endpoint_type: endpoint_type,
                include_fenced_brokers: include_fenced_brokers,
                _unknown_tagged_fields: _unknown_tagged_fields,
        })
    }

    #[verifier::rlimit(70)]
    pub fn write(&self, buf: &mut BytesMut, version: i16) -> (r: Result<(), Error>)
        requires
            has_room(Self::spec_write(self@, version), *old(buf)),
        ensures
            wrote(Self::spec_write(self@, version), *old(buf), *final(buf), r),
    {
        if version < 0 || version > 2 {
            return Err(Error::UnsupportedVersion(UnsupportedVersion::new(60, version)));
        }
        let ghost m = self@;
        proof {
            reveal(DescribeClusterRequestData::spec_write_include_cluster_authorized_operations);
            reveal(DescribeClusterRequestData::spec_write_endpoint_type);
            reveal(DescribeClusterRequestData::spec_write_include_fenced_brokers);
            reveal(DescribeClusterRequestData::spec_write_tags);
        }
        let ghost s0 = Self::spec_write_include_cluster_authorized_operations(m, version);
        let ghost w0 = s0;
        let ghost s1 = Self::spec_write_endpoint_type(m, version);
        let ghost w1 = chain(w0, s1);
        let ghost s2 = Self::spec_write_include_fenced_brokers(m, version);
        let ghost w2 = chain(w1, s2);
        let ghost s3 = Self::spec_write_tags(m, version);
        let ghost w3 = chain(w2, s3);
        assert(Self::spec_write(m, version) == w3);
        assert(written(w2).len() <= written(w3).len() && (w2 is Err ==> w3 == w2));
        assert(written(w1).len() <= written(w3).len() && (w1 is Err ==> w3 == w1));
        assert(written(w0).len() <= written(w3).len() && (w0 is Err ==> w3 == w0));
        let ghost mid = bytes_mut_seq(*buf);
        proof {
            lemma_append_empty(mid);
        }
        let r0 = {
            write_bool(buf, self.include_cluster_authorized_operations);
            Ok(())
        };
        assert(bytes_mut_seq(*buf) == mid + written(s0));
        if r0.is_err() {
            return r0;
        }
        let ghost mid = bytes_mut_seq(*buf);
        proof {
            lemma_append_empty(mid);
        }
        let r1 = if version >= 1 {
            {
                write_i8(buf, self.endpoint_type);
                Ok(())
            }
        } else {
            if self.endpoint_type != 1i8 {
                Err(Error::UnsupportedFieldVersion(UnsupportedFieldVersion::new(60, "endpoint_type", version)))
            } else {
                Ok(())
            }
        };
        assert(bytes_mut_seq(*buf) == mid + written(s1));
        proof {
            lemma_step(bytes_mut_seq(*old(buf)), w0, s1);
        }
        if r1.is_err() {
            return r1;
        }
        let ghost mid = bytes_mut_seq(*buf);
        proof {
            lemma_append_empty(mid);
        }
        let r2 = if version >= 2 {
            {
                write_bool(buf, self.include_fenced_brokers);
                Ok(())
            }
        } else {
            if self.include_fenced_brokers != false {
                Err(Error::UnsupportedFieldVersion(UnsupportedFieldVersion::new(60, "include_fenced_brokers", version)))
            } else {
                Ok(())
            }
        };
        assert(bytes_mut_seq(*buf) == mid + written(s2));
        proof {
            lemma_step(bytes_mut_seq(*old(buf)), w1, s2);
        }
        if r2.is_err() {
            return r2;
        }
        let ghost mid = bytes_mut_seq(*buf);
        proof {
            lemma_append_empty(mid);
        }
        let r3 = write_tagged_fields(buf, &sort_by_tag(&self._unknown_tagged_fields));
        assert(bytes_mut_seq(*buf) == mid + written(s3));
        proof {
            lemma_step(bytes_mut_seq(*old(buf)), w2, s3);
        }
        if r3.is_err() {
            return r3;
        }
        Ok(())
    }

    #[verifier::rlimit(70)]
    pub fn encoded_len(&self, version: i16) -> (r: Result<usize, Error>)
        ensures
            r == len_result(Self::spec_write(self@, version)),
    {
        if version < 0 || version > 2 {
            return Err(Error::UnsupportedVersion(UnsupportedVersion::new(60, version)));
        }
        let ghost m = self@;
        proof {
            reveal(DescribeClusterRequestData::spec_write_include_cluster_authorized_operations);
            reveal(DescribeClusterRequestData::spec_write_endpoint_type);
            reveal(DescribeClusterRequestData::spec_write_include_fenced_brokers);
            reveal(DescribeClusterRequestData::spec_write_tags);
        }
        let ghost s0 = Self::spec_write_include_cluster_authorized_operations(m, version);
        let ghost w0 = s0;
        let ghost s1 = Self::spec_write_endpoint_type(m, version);
        let ghost w1 = chain(w0, s1);
        let ghost s2 = Self::spec_write_include_fenced_brokers(m, version);
        let ghost w2 = chain(w1, s2);
        let ghost s3 = Self::spec_write_tags(m, version);
        let ghost w3 = chain(w2, s3);
        assert(Self::spec_write(m, version) == w3);
        assert(w2 is Err ==> w3 == w2);
        assert(w1 is Err ==> w3 == w1);
        assert(w0 is Err ==> w3 == w0);
        let mut len: usize = 0;
        let l0 = Ok(1);
        assert(l0 == len_result(s0));
        let n0 = match l0 {
            Ok(n) => n,
            Err(e) => {
                return Err(e);
            },
        };
        len = saturating_sum(len, n0);
        assert(w0 is Ok && len == saturate(written(w0).len() as int));
        let l1 = if version >= 1 {
            Ok(1)
        } else {
            if self.endpoint_type != 1i8 {
                Err(Error::UnsupportedFieldVersion(UnsupportedFieldVersion::new(60, "endpoint_type", version)))
            } else {
                Ok(0)
            }
        };
        assert(l1 == len_result(s1));
        let n1 = match l1 {
            Ok(n) => n,
            Err(e) => {
                return Err(e);
            },
        };
        proof {
            lemma_len_step(w0, s1, n1);
        }
        len = saturating_sum(len, n1);
        assert(w1 is Ok && len == saturate(written(w1).len() as int));
        let l2 = if version >= 2 {
            Ok(1)
        } else {
            if self.include_fenced_brokers != false {
                Err(Error::UnsupportedFieldVersion(UnsupportedFieldVersion::new(60, "include_fenced_brokers", version)))
            } else {
                Ok(0)
            }
        };
        assert(l2 == len_result(s2));
        let n2 = match l2 {
            Ok(n) => n,
            Err(e) => {
                return Err(e);
            },
        };
        proof {
            lemma_len_step(w1, s2, n2);
        }
        len = saturating_sum(len, n2);
        assert(w2 is Ok && len == saturate(written(w2).len() as int));
        let l3 = tagged_fields_len(&sort_by_tag(&self._unknown_tagged_fields));
        assert(l3 == len_result(s3));
        let n3 = match l3 {
            Ok(n) => n,
            Err(e) => {
                return Err(e);
            },
        };
        proof {
            lemma_len_step(w2, s3, n3);
        }
        len = saturating_sum(len, n3);
        assert(w3 is Ok && len == saturate(written(w3).len() as int));
        Ok(len)
    }
}

} // verus!
