//! The describe configs request message.
use crate::buffer::{bytes_mut_seq, bytes_seq};
use crate::codec::{Codec, CompactStringItem, StringItem, all_canonical, all_writable, lemma_array_round_trip, lemma_array_writable, lemma_nullable_array_round_trip, lemma_nullable_array_writable, opt_views, read_array, read_nullable_array, spec_read_array, spec_read_nullable_array, spec_write_array, spec_write_nullable_array, write_array, write_nullable_array};
use crate::error::{Error, UnsupportedVersion};
use crate::ints::{lemma_bool_roundtrip, lemma_i8_roundtrip, read_bool, read_i8, spec_read_bool, spec_read_i8, spec_write_bool, spec_write_i8, write_bool, write_i8};
use crate::strings::{lemma_compact_string_round_trip, lemma_string_round_trip, read_compact_string, read_string, spec_read_compact_string, spec_read_string, spec_write_compact_string, spec_write_string, write_compact_string, write_string};
use crate::tagged::{lemma_sorted_by_tag_in_order, lemma_sorted_tags_fit, lemma_tagged_fields_round_trip, lemma_tagged_fields_writable, read_tagged_fields, sort_by_tag, sorted_by_tag, spec_read_tagged_fields, spec_write_tagged_fields, tags_fit, tags_in_order, write_tagged_fields};
use crate::types::{KafkaString, RawTaggedField};
use crate::wire::{ReadOutcome, ViewClone, WriteOutcome, chain, clone_vec, emit, empty_vec, fail, has_room, lemma_append_empty, lemma_chain_written, lemma_step, read_as, read_opt_vec_as, read_vec_as, took_front, views, written, wrote};
use bytes::{Bytes, BytesMut};
use vstd::prelude::*;

verus! {

broadcast use {crate::wire::lemma_chain_written, crate::wire::lemma_took_front_nothing, crate::wire::lemma_took_front_twice};

#[derive(Debug, PartialEq)]
pub struct DescribeConfigsRequestData {
    /// The resources whose configurations we want to describe.
    pub resources: Vec<DescribeConfigsResource>,
    /// True if we should include all synonyms.
    pub include_synonyms: bool,
    /// True if we should include configuration documentation.
    pub include_documentation: bool,
    pub _unknown_tagged_fields: Vec<RawTaggedField>,
}

/// What a `DescribeConfigsRequestData` holds, as the specification sees it.
#[verifier::ext_equal]
pub struct DescribeConfigsRequestDataView {
    pub resources: Seq<DescribeConfigsResourceView>,
    pub include_synonyms: bool,
    pub include_documentation: bool,
    pub unknown_tagged_fields: Seq<(u32, Seq<u8>)>,
}

impl View for DescribeConfigsRequestData {
    type V = DescribeConfigsRequestDataView;

    open spec fn view(&self) -> DescribeConfigsRequestDataView {
        DescribeConfigsRequestDataView {
            resources: views(self.resources@),
            include_synonyms: self.include_synonyms,
            include_documentation: self.include_documentation,
            unknown_tagged_fields: views(self._unknown_tagged_fields@),
        }
    }
}

impl Clone for DescribeConfigsRequestData {
    fn clone(&self) -> (r: Self)
        ensures
            r@ == self@,
    {
        let r = DescribeConfigsRequestData {
            resources: clone_vec(&self.resources),
            include_synonyms: self.include_synonyms,
            include_documentation: self.include_documentation,
            _unknown_tagged_fields: clone_vec(&self._unknown_tagged_fields),
        };
        assert(r@ =~= self@);
        r
    }
}

impl ViewClone for DescribeConfigsRequestData {
    fn clone_view(&self) -> (r: Self) {
        self.clone()
    }
}

impl Default for DescribeConfigsRequestData {
    fn default() -> (r: Self)
        ensures
            r@ == Self::default_view(),
    {
        let r = DescribeConfigsRequestData {
            resources: empty_vec(),
            include_synonyms: false,
            include_documentation: false,
            _unknown_tagged_fields: empty_vec(),
        };
        assert(r@ =~= Self::default_view());
        r
    }
}

impl DescribeConfigsRequestData {
    pub open spec fn default_view() -> DescribeConfigsRequestDataView {
        DescribeConfigsRequestDataView {
            resources: Seq::empty(),
            include_synonyms: false,
            include_documentation: false,
            unknown_tagged_fields: Seq::empty(),
        }
    }

    /// The `resources` field, read from the front of `s`.
    #[verifier::opaque]
    pub open spec fn spec_read_resources(s: Seq<u8>, version: i16) -> ReadOutcome<Seq<DescribeConfigsResourceView>> {
        if version >= 4 {
            spec_read_array::<DescribeConfigsResource>(s, version, true)
        } else {
            spec_read_array::<DescribeConfigsResource>(s, version, false)
        }
    }

    /// The `include_synonyms` field, read from the front of `s`.
    #[verifier::opaque]
    pub open spec fn spec_read_include_synonyms(s: Seq<u8>, version: i16) -> ReadOutcome<bool> {
        spec_read_bool(s)
    }

    /// The `include_documentation` field, read from the front of `s`.
    #[verifier::opaque]
    pub open spec fn spec_read_include_documentation(s: Seq<u8>, version: i16) -> ReadOutcome<bool> {
        if version >= 3 {
            spec_read_bool(s)
        } else {
            Ok((false, s))
        }
    }

    /// The tagged fields, read from the front of `s`.
    #[verifier::opaque]
    pub open spec fn spec_read_tags(s: Seq<u8>, version: i16) -> ReadOutcome<Seq<(u32, Seq<u8>)>> {
        if version >= 4 {
            spec_read_tagged_fields(s)
        } else {
            Ok((Seq::empty(), s))
        }
    }

    pub open spec fn spec_read(s: Seq<u8>, version: i16) -> ReadOutcome<DescribeConfigsRequestDataView> {
        if version < 1 || version > 4 {
            Err(Error::UnsupportedVersion(UnsupportedVersion { api_key: 32, version }))
        } else {
            match (Self::spec_read_resources(s, version)) {
                Err(e) => Err(e),
                Ok((resources, s)) => match (Self::spec_read_include_synonyms(s, version)) {
                    Err(e) => Err(e),
                    Ok((include_synonyms, s)) => match (Self::spec_read_include_documentation(s, version)) {
                        Err(e) => Err(e),
                        Ok((include_documentation, s)) => match (Self::spec_read_tags(s, version)) {
                            Err(e) => Err(e),
                            Ok((unknown_tagged_fields, s)) => Ok((DescribeConfigsRequestDataView {
                                        resources: resources,
                                        include_synonyms: include_synonyms,
                                        include_documentation: include_documentation,
                                        unknown_tagged_fields: unknown_tagged_fields,
                                    }, s)),
                        },
                    },
                },
            }
        }
    }

    /// What writing the `resources` field of `m` appends.
    #[verifier::opaque]
    pub open spec fn spec_write_resources(m: DescribeConfigsRequestDataView, version: i16) -> WriteOutcome {
        if version >= 4 {
            spec_write_array::<DescribeConfigsResource>(m.resources, version, true)
        } else {
            spec_write_array::<DescribeConfigsResource>(m.resources, version, false)
        }
    }

    /// What writing the `include_synonyms` field of `m` appends.
    #[verifier::opaque]
    pub open spec fn spec_write_include_synonyms(m: DescribeConfigsRequestDataView, version: i16) -> WriteOutcome {
        spec_write_bool(m.include_synonyms)
    }

    /// What writing the `include_documentation` field of `m` appends.
    #[verifier::opaque]
    pub open spec fn spec_write_include_documentation(m: DescribeConfigsRequestDataView, version: i16) -> WriteOutcome {
        if version >= 3 {
            spec_write_bool(m.include_documentation)
        } else {
            emit(Seq::empty())
        }
    }

    /// What writing the tagged fields of `m` appends.
    #[verifier::opaque]
    pub open spec fn spec_write_tags(m: DescribeConfigsRequestDataView, version: i16) -> WriteOutcome {
        if version >= 4 {
            spec_write_tagged_fields(sorted_by_tag(m.unknown_tagged_fields))
        } else {
            emit(Seq::empty())
        }
    }

    pub open spec fn spec_write(m: DescribeConfigsRequestDataView, version: i16) -> WriteOutcome {
        if version < 1 || version > 4 {
            fail(Error::UnsupportedVersion(UnsupportedVersion { api_key: 32, version }))
        } else {
            chain(
                chain(
                    chain(
                        Self::spec_write_resources(m, version),
                        Self::spec_write_include_synonyms(m, version),
                    ),
                    Self::spec_write_include_documentation(m, version),
                ),
                Self::spec_write_tags(m, version),
            )
        }
    }

    /// Whether reading back what writing `m` in `version` appends gives `m`:
    /// fields that the version does not carry hold their default values, and
    /// tagged fields come in the order in which they are written.
    pub open spec fn canonical(m: DescribeConfigsRequestDataView, version: i16) -> bool {
        &&& all_canonical::<DescribeConfigsResource>(m.resources, version)
        &&& (if version >= 3 {
                true
            } else {
                m.include_documentation == false
        })
        &&& (if version >= 4 {
                tags_in_order(m.unknown_tagged_fields)
            } else {
                m.unknown_tagged_fields.len() == 0
        })
    }

    proof fn lemma_round_trip_resources(m: DescribeConfigsRequestDataView, version: i16, rest: Seq<u8>)
        requires
            Self::canonical(m, version),
            Self::spec_write_resources(m, version) is Ok,
        ensures
            Self::spec_read_resources(written(Self::spec_write_resources(m, version)) + rest, version) == Ok::<(Seq<DescribeConfigsResourceView>, Seq<u8>), Error>((m.resources, rest)),
    {
        reveal(DescribeConfigsRequestData::spec_read_resources);
        reveal(DescribeConfigsRequestData::spec_write_resources);
        if version >= 4 {
            lemma_array_round_trip::<DescribeConfigsResource>(m.resources, version, true, rest);
        } else {
            lemma_array_round_trip::<DescribeConfigsResource>(m.resources, version, false, rest);
        }
    }

    proof fn lemma_round_trip_include_synonyms(m: DescribeConfigsRequestDataView, version: i16, rest: Seq<u8>)
        requires
            Self::canonical(m, version),
            Self::spec_write_include_synonyms(m, version) is Ok,
        ensures
            Self::spec_read_include_synonyms(written(Self::spec_write_include_synonyms(m, version)) + rest, version) == Ok::<(bool, Seq<u8>), Error>((m.include_synonyms, rest)),
    {
        reveal(DescribeConfigsRequestData::spec_read_include_synonyms);
        reveal(DescribeConfigsRequestData::spec_write_include_synonyms);
        lemma_bool_roundtrip(m.include_synonyms, rest);
    }

    proof fn lemma_round_trip_include_documentation(m: DescribeConfigsRequestDataView, version: i16, rest: Seq<u8>)
        requires
            Self::canonical(m, version),
            Self::spec_write_include_documentation(m, version) is Ok,
        ensures
            Self::spec_read_include_documentation(written(Self::spec_write_include_documentation(m, version)) + rest, version) == Ok::<(bool, Seq<u8>), Error>((m.include_documentation, rest)),
    {
        reveal(DescribeConfigsRequestData::spec_read_include_documentation);
        reveal(DescribeConfigsRequestData::spec_write_include_documentation);
        if version >= 3 {
            lemma_bool_roundtrip(m.include_documentation, rest);
        } else {
            assert(Seq::<u8>::empty() + rest =~= rest);
        }
    }

    proof fn lemma_round_trip_tags(m: DescribeConfigsRequestDataView, version: i16, rest: Seq<u8>)
        requires
            Self::canonical(m, version),
            Self::spec_write_tags(m, version) is Ok,
        ensures
            Self::spec_read_tags(written(Self::spec_write_tags(m, version)) + rest, version) == Ok::<(Seq<(u32, Seq<u8>)>, Seq<u8>), Error>((m.unknown_tagged_fields, rest)),
    {
        reveal(DescribeConfigsRequestData::spec_read_tags);
        reveal(DescribeConfigsRequestData::spec_write_tags);
        if version >= 4 {
            lemma_sorted_by_tag_in_order(m.unknown_tagged_fields);
            lemma_tagged_fields_round_trip(m.unknown_tagged_fields, rest);
        } else {
            assert(Seq::<u8>::empty() + rest =~= rest);
            assert(m.unknown_tagged_fields =~= Seq::empty());
        }
    }

    /// Reading back what writing `m` in `version` appends gives `m` again, and
    /// leaves what follows, for every canonical message whose write succeeds.
    #[verifier::rlimit(80)]
    #[verifier::spinoff_prover]
    pub proof fn lemma_round_trip(m: DescribeConfigsRequestDataView, version: i16, rest: Seq<u8>)
        requires
            Self::canonical(m, version),
            Self::spec_write(m, version) is Ok,
        ensures
            Self::spec_read(written(Self::spec_write(m, version)) + rest, version) == Ok::<(DescribeConfigsRequestDataView, Seq<u8>), Error>((m, rest)),
    {
        let b0 = written(Self::spec_write_resources(m, version));
        let b1 = written(Self::spec_write_include_synonyms(m, version));
        let b2 = written(Self::spec_write_include_documentation(m, version));
        let b3 = written(Self::spec_write_tags(m, version));
        let t4 = rest;
        let t3 = b3 + t4;
        let t2 = b2 + t3;
        let t1 = b1 + t2;
        let t0 = b0 + t1;
        let w0 = Self::spec_write_resources(m, version);
        let w1 = chain(w0, Self::spec_write_include_synonyms(m, version));
        let w2 = chain(w1, Self::spec_write_include_documentation(m, version));
        let w3 = chain(w2, Self::spec_write_tags(m, version));
        assert(Self::spec_write(m, version) == w3);
        assert(written(w3) + t4 =~= written(w2) + t3);
        assert(written(w2) + t3 =~= written(w1) + t2);
        assert(written(w1) + t2 =~= written(w0) + t1);
        Self::lemma_round_trip_resources(m, version, t1);
        Self::lemma_round_trip_include_synonyms(m, version, t2);
        Self::lemma_round_trip_include_documentation(m, version, t3);
        Self::lemma_round_trip_tags(m, version, t4);
    }

    /// In a version that does not carry `include_documentation`, writing ignores its value.
    pub proof fn lemma_write_ignores_include_documentation(m: DescribeConfigsRequestDataView, value: bool, version: i16)
        requires
            !(version >= 3),
        ensures
            Self::spec_write((DescribeConfigsRequestDataView { include_documentation: value, ..m }), version) == Self::spec_write(m, version),
    {
        reveal(DescribeConfigsRequestData::spec_write_resources);
        reveal(DescribeConfigsRequestData::spec_write_include_synonyms);
        reveal(DescribeConfigsRequestData::spec_write_include_documentation);
        reveal(DescribeConfigsRequestData::spec_write_tags);
    }

    /// In a version that does not carry `unknown_tagged_fields`, writing ignores its value.
    pub proof fn lemma_write_ignores_unknown_tagged_fields(m: DescribeConfigsRequestDataView, value: Seq<(u32, Seq<u8>)>, version: i16)
        requires
            !(version >= 4),
        ensures
            Self::spec_write((DescribeConfigsRequestDataView { unknown_tagged_fields: value, ..m }), version) == Self::spec_write(m, version),
    {
        reveal(DescribeConfigsRequestData::spec_write_resources);
        reveal(DescribeConfigsRequestData::spec_write_include_synonyms);
        reveal(DescribeConfigsRequestData::spec_write_include_documentation);
        reveal(DescribeConfigsRequestData::spec_write_tags);
    }

    /// The default message holds the default value of each field of the schema.
    pub proof fn lemma_default_values()
        ensures
            Self::default_view().resources.len() == 0,
            Self::default_view().include_synonyms == (false),
            Self::default_view().include_documentation == (false),
            Self::default_view().unknown_tagged_fields.len() == 0,
    {
    }

    /// Each integer, boolean and identifier field is written as its standard
    /// big-endian bytes (a boolean as `1` or `0`) in the versions that carry
    /// it, and as nothing in the others; reading it takes those bytes back (any
    /// byte other than `0` reads as `true`), or gives its default value.
    pub proof fn lemma_field_encodings(m: DescribeConfigsRequestDataView, s: Seq<u8>, version: i16)
        ensures
            true ==> Self::spec_write_include_synonyms(m, version) == Ok::<Seq<u8>, (Error, Seq<u8>)>(seq![if m.include_synonyms { 1u8 } else { 0u8 }]),
            version >= 3 ==> Self::spec_write_include_documentation(m, version) == Ok::<Seq<u8>, (Error, Seq<u8>)>(seq![if m.include_documentation { 1u8 } else { 0u8 }]),
            !(version >= 3) ==> Self::spec_write_include_documentation(m, version) == Ok::<Seq<u8>, (Error, Seq<u8>)>(Seq::empty()),
            true ==> Self::spec_read_include_synonyms(s, version) == (if s.len() < 1 { Err(Error::UnexpectedEof) } else { Ok((s[0] != 0, s.drop_first())) }),
            version >= 3 ==> Self::spec_read_include_documentation(s, version) == (if s.len() < 1 { Err(Error::UnexpectedEof) } else { Ok((s[0] != 0, s.drop_first())) }),
            !(version >= 3) ==> Self::spec_read_include_documentation(s, version) == Ok::<(bool, Seq<u8>), Error>((false, s)),
    {
        reveal(DescribeConfigsRequestData::spec_write_include_synonyms);
        reveal(DescribeConfigsRequestData::spec_read_include_synonyms);
        reveal(DescribeConfigsRequestData::spec_write_include_documentation);
        reveal(DescribeConfigsRequestData::spec_read_include_documentation);
    }

    /// Whether writing `m` in `version` succeeds, said over its parts: the
    /// version is one the schema covers, every field that the version cannot
    /// carry holds its default value, and every string, byte string, array and
    /// tagged field fits its length prefix.
    pub open spec fn writable(m: DescribeConfigsRequestDataView, version: i16) -> bool {
        &&& 1 <= version <= 4
        &&& (m.resources.len() <= i32::MAX && all_writable::<DescribeConfigsResource>(m.resources, version))
        &&& (if version >= 4 {
                m.unknown_tagged_fields.len() <= u32::MAX && tags_fit(m.unknown_tagged_fields)
            } else {
                true
        })
    }

    proof fn lemma_writable_resources(m: DescribeConfigsRequestDataView, version: i16)
        ensures
            Self::spec_write_resources(m, version) is Ok <==> (m.resources.len() <= i32::MAX && all_writable::<DescribeConfigsResource>(m.resources, version)),
    {
        reveal(DescribeConfigsRequestData::spec_write_resources);
        if version >= 4 {
            lemma_array_writable::<DescribeConfigsResource>(m.resources, version, true);
        } else {
            lemma_array_writable::<DescribeConfigsResource>(m.resources, version, false);
        }
    }

    proof fn lemma_writable_include_synonyms(m: DescribeConfigsRequestDataView, version: i16)
        ensures
            Self::spec_write_include_synonyms(m, version) is Ok <==> true,
    {
        reveal(DescribeConfigsRequestData::spec_write_include_synonyms);
    }

    proof fn lemma_writable_include_documentation(m: DescribeConfigsRequestDataView, version: i16)
        ensures
            Self::spec_write_include_documentation(m, version) is Ok <==> true,
    {
        reveal(DescribeConfigsRequestData::spec_write_include_documentation);
    }

    proof fn lemma_writable_tags(m: DescribeConfigsRequestDataView, version: i16)
        ensures
            Self::spec_write_tags(m, version) is Ok <==> (if version >= 4 { m.unknown_tagged_fields.len() <= u32::MAX && tags_fit(m.unknown_tagged_fields) } else { true }),
    {
        reveal(DescribeConfigsRequestData::spec_write_tags);
        if version >= 4 {
            lemma_sorted_tags_fit(m.unknown_tagged_fields);
            lemma_tagged_fields_writable(sorted_by_tag(m.unknown_tagged_fields));
        }
    }

    /// Writing `m` in `version` succeeds exactly when `m` is writable in it;
    /// so do `write` and `encoded_len`, whose results follow `spec_write`.
    #[verifier::rlimit(54)]
    pub proof fn lemma_writable(m: DescribeConfigsRequestDataView, version: i16)
        ensures
            Self::spec_write(m, version) is Ok <==> Self::writable(m, version),
    {
        Self::lemma_writable_resources(m, version);
        Self::lemma_writable_include_synonyms(m, version);
        Self::lemma_writable_include_documentation(m, version);
        Self::lemma_writable_tags(m, version);
    }

    /// A version outside the range that the schema covers is refused, by
    /// reads and by writes alike, before anything is read or written.
    pub proof fn lemma_refused_version(m: DescribeConfigsRequestDataView, s: Seq<u8>, version: i16)
        requires
            version < 1 || version > 4,
        ensures
            Self::spec_read(s, version) == Err::<(DescribeConfigsRequestDataView, Seq<u8>), Error>(Error::UnsupportedVersion(UnsupportedVersion { api_key: 32, version })),
            Self::spec_write(m, version) == fail(Error::UnsupportedVersion(UnsupportedVersion { api_key: 32, version })),
    {
    }

    fn read_resources(buf: &mut Bytes, version: i16) -> (r: Result<Vec<DescribeConfigsResource>, Error>)
        ensures
            read_vec_as(Self::spec_read_resources(bytes_seq(*old(buf)), version), *final(buf), r),
            took_front(*old(buf), *final(buf)),
    {
        proof {
            reveal(DescribeConfigsRequestData::spec_read_resources);
        }
        Ok(if version >= 4 {
                read_array::<DescribeConfigsResource>(buf, version, true)?
            } else {
                read_array::<DescribeConfigsResource>(buf, version, false)?
        })
    }

    fn read_include_synonyms(buf: &mut Bytes, version: i16) -> (r: Result<bool, Error>)
        ensures
            read_as(Self::spec_read_include_synonyms(bytes_seq(*old(buf)), version), *final(buf), r),
            took_front(*old(buf), *final(buf)),
    {
        proof {
            reveal(DescribeConfigsRequestData::spec_read_include_synonyms);
        }
        Ok(read_bool(buf)?)
    }

    fn read_include_documentation(buf: &mut Bytes, version: i16) -> (r: Result<bool, Error>)
        ensures
            read_as(Self::spec_read_include_documentation(bytes_seq(*old(buf)), version), *final(buf), r),
            took_front(*old(buf), *final(buf)),
    {
        proof {
            reveal(DescribeConfigsRequestData::spec_read_include_documentation);
        }
        Ok(if version >= 3 {
                read_bool(buf)?
            } else {
                false
        })
    }

    fn read_tags(buf: &mut Bytes, version: i16) -> (r: Result<Vec<RawTaggedField>, Error>)
        ensures
            read_vec_as(Self::spec_read_tags(bytes_seq(*old(buf)), version), *final(buf), r),
            took_front(*old(buf), *final(buf)),
    {
        proof {
            reveal(DescribeConfigsRequestData::spec_read_tags);
        }
        Ok(if version >= 4 {
                read_tagged_fields(buf)?
            } else {
                empty_vec()
        })
    }

    pub fn read(buf: &mut Bytes, version: i16) -> (r: Result<Self, Error>)
        ensures
            read_as(Self::spec_read(bytes_seq(*old(buf)), version), *final(buf), r),
            took_front(*old(buf), *final(buf)),
            (version < 1 || version > 4) ==> bytes_seq(*final(buf)) == bytes_seq(*old(buf)),
    {
        if version < 1 || version > 4 {
            return Err(Error::UnsupportedVersion(UnsupportedVersion::new(32, version)));
        }
        let resources = Self::read_resources(buf, version)?;
        let include_synonyms = Self::read_include_synonyms(buf, version)?;
        let include_documentation = Self::read_include_documentation(buf, version)?;
        let _unknown_tagged_fields = Self::read_tags(buf, version)?;
        Ok(DescribeConfigsRequestData {
                resources: resources,
                include_synonyms: include_synonyms,
                include_documentation: include_documentation,
                _unknown_tagged_fields: _unknown_tagged_fields,
        })
    }

    #[verifier::rlimit(70)]
    pub fn write(&self, buf: &mut BytesMut, version: i16) -> (r: Result<(), Error>)
        requires
            has_room(Self::spec_write(self@, version), *old(buf)),
        ensures
            wrote(Self::spec_write(self@, version), *old(buf), *final(buf), r),
    {
        if version < 1 || version > 4 {
            return Err(Error::UnsupportedVersion(UnsupportedVersion::new(32, version)));
        }
        let ghost m = self@;
        proof {
            reveal(DescribeConfigsRequestData::spec_write_resources);
            reveal(DescribeConfigsRequestData::spec_write_include_synonyms);
            reveal(DescribeConfigsRequestData::spec_write_include_documentation);
            reveal(DescribeConfigsRequestData::spec_write_tags);
        }
        let ghost s0 = Self::spec_write_resources(m, version);
        let ghost w0 = s0;
        let ghost s1 = Self::spec_write_include_synonyms(m, version);
        let ghost w1 = chain(w0, s1);
        let ghost s2 = Self::spec_write_include_documentation(m, version);
        let ghost w2 = chain(w1, s2);
        let ghost s3 = Self::spec_write_tags(m, version);
        let ghost w3 = chain(w2, s3);
        assert(Self::spec_write(m, version) == w3);
        assert(written(w2).len() <= written(w3).len() && (w2 is Err ==> w3 == w2));
        assert(written(w1).len() <= written(w3).len() && (w1 is Err ==> w3 == w1));
        assert(written(w0).len() <= written(w3).len() && (w0 is Err ==> w3 == w0));
        let ghost mid = bytes_mut_seq(*buf);
        proof {
            lemma_append_empty(mid);
        }
        let r0 = if version >= 4 {
            write_array::<DescribeConfigsResource>(buf, &self.resources, version, true)
        } else {
            write_array::<DescribeConfigsResource>(buf, &self.resources, version, false)
        };
        assert(bytes_mut_seq(*buf) == mid + written(s0));
        if r0.is_err() {
            return r0;
        }
        let ghost mid = bytes_mut_seq(*buf);
        proof {
            lemma_append_empty(mid);
        }
        let r1 = {
            write_bool(buf, self.include_synonyms);
            Ok(())
        };
        assert(bytes_mut_seq(*buf) == mid + written(s1));
        proof {
            lemma_step(bytes_mut_seq(*old(buf)), w0, s1);
        }
        if r1.is_err() {
            return r1;
        }
        let ghost mid = bytes_mut_seq(*buf);
        proof {
            lemma_append_empty(mid);
        }
        let r2 = if version >= 3 {
            {
                write_bool(buf, self.include_documentation);
                Ok(())
            }
        } else {
            Ok(())
        };
        assert(bytes_mut_seq(*buf) == mid + written(s2));
        proof {
            lemma_step(bytes_mut_seq(*old(buf)), w1, s2);
        }
        if r2.is_err() {
            return r2;
        }
        let ghost mid = bytes_mut_seq(*buf);
        proof {
            lemma_append_empty(mid);
        }
        let r3 = if version >= 4 {
            write_tagged_fields(buf, &sort_by_tag(&self._unknown_tagged_fields))
        } else {
            Ok(())
        };
        assert(bytes_mut_seq(*buf) == mid + written(s3));
        proof {
            lemma_step(bytes_mut_seq(*old(buf)), w2, s3);
        }
        if r3.is_err() {
            return r3;
        }
        Ok(())
    }
}

#[derive(Debug, PartialEq)]
pub struct DescribeConfigsResource {
    /// The resource type.
    pub resource_type: i8,
    /// The resource name.
    pub resource_name: KafkaString,
    /// The configuration keys to list, or null to list all configuration keys.
    pub configuration_keys: Option<Vec<KafkaString>>,
    pub _unknown_tagged_fields: Vec<RawTaggedField>,
}

/// What a `DescribeConfigsResource` holds, as the specification sees it.
#[verifier::ext_equal]
pub struct DescribeConfigsResourceView {
    pub resource_type: i8,
    pub resource_name: Seq<u8>,
    pub configuration_keys: Option<Seq<Seq<u8>>>,
    pub unknown_tagged_fields: Seq<(u32, Seq<u8>)>,
}

impl View for DescribeConfigsResource {
    type V = DescribeConfigsResourceView;

    open spec fn view(&self) -> DescribeConfigsResourceView {
        DescribeConfigsResourceView {
            resource_type: self.resource_type,
            resource_name: self.resource_name@,
            configuration_keys: opt_views(self.configuration_keys),
            unknown_tagged_fields: views(self._unknown_tagged_fields@),
        }
    }
}

impl Clone for DescribeConfigsResource {
    fn clone(&self) -> (r: Self)
        ensures
            r@ == self@,
    {
        let r = DescribeConfigsResource {
            resource_type: self.resource_type,
            resource_name: self.resource_name.clone(),
            configuration_keys: match &self.configuration_keys {
                Some(x) => Some(clone_vec(x)),
                None => None,
            },
            _unknown_tagged_fields: clone_vec(&self._unknown_tagged_fields),
        };
        assert(r@ =~= self@);
        r
    }
}

impl ViewClone for DescribeConfigsResource {
    fn clone_view(&self) -> (r: Self) {
        self.clone()
    }
}

impl Default for DescribeConfigsResource {
    fn default() -> (r: Self)
        ensures
            r@ == Self::default_view(),
    {
        let r = DescribeConfigsResource {
            resource_type: 0_i8,
            resource_name: KafkaString::default(),
            configuration_keys: None,
            _unknown_tagged_fields: empty_vec(),
        };
        assert(r@ =~= Self::default_view());
        r
    }
}

impl DescribeConfigsResource {
    pub open spec fn default_view() -> DescribeConfigsResourceView {
        DescribeConfigsResourceView {
            resource_type: 0_i8,
            resource_name: Seq::empty(),
            configuration_keys: None,
            unknown_tagged_fields: Seq::empty(),
        }
    }

    /// The `resource_type` field, read from the front of `s`.
    #[verifier::opaque]
    pub open spec fn spec_read_resource_type(s: Seq<u8>, version: i16) -> ReadOutcome<i8> {
        spec_read_i8(s)
    }

    /// The `resource_name` field, read from the front of `s`.
    #[verifier::opaque]
    pub open spec fn spec_read_resource_name(s: Seq<u8>, version: i16) -> ReadOutcome<Seq<u8>> {
        if version >= 4 {
            spec_read_compact_string(s)
        } else {
            spec_read_string(s)
        }
    }

    /// The `configuration_keys` field, read from the front of `s`.
    #[verifier::opaque]
    pub open spec fn spec_read_configuration_keys(s: Seq<u8>, version: i16) -> ReadOutcome<Option<Seq<Seq<u8>>>> {
        if version >= 4 {
            spec_read_nullable_array::<CompactStringItem>(s, version, true)
        } else {
            spec_read_nullable_array::<StringItem>(s, version, false)
        }
    }

    /// The tagged fields, read from the front of `s`.
    #[verifier::opaque]
    pub open spec fn spec_read_tags(s: Seq<u8>, version: i16) -> ReadOutcome<Seq<(u32, Seq<u8>)>> {
        if version >= 4 {
            spec_read_tagged_fields(s)
        } else {
            Ok((Seq::empty(), s))
        }
    }

    pub open spec fn spec_read(s: Seq<u8>, version: i16) -> ReadOutcome<DescribeConfigsResourceView> {
        match (Self::spec_read_resource_type(s, version)) {
            Err(e) => Err(e),
            Ok((resource_type, s)) => match (Self::spec_read_resource_name(s, version)) {
                Err(e) => Err(e),
                Ok((resource_name, s)) => match (Self::spec_read_configuration_keys(s, version)) {
                    Err(e) => Err(e),
                    Ok((configuration_keys, s)) => match (Self::spec_read_tags(s, version)) {
                        Err(e) => Err(e),
                        Ok((unknown_tagged_fields, s)) => Ok((DescribeConfigsResourceView {
                                    resource_type: resource_type,
                                    resource_name: resource_name,
                                    configuration_keys: configuration_keys,
                                    unknown_tagged_fields: unknown_tagged_fields,
                                }, s)),
                    },
                },
            },
        }
    }

    /// What writing the `resource_type` field of `m` appends.
    #[verifier::opaque]
    pub open spec fn spec_write_resource_type(m: DescribeConfigsResourceView, version: i16) -> WriteOutcome {
        spec_write_i8(m.resource_type)
    }

    /// What writing the `resource_name` field of `m` appends.
    #[verifier::opaque]
    pub open spec fn spec_write_resource_name(m: DescribeConfigsResourceView, version: i16) -> WriteOutcome {
        if version >= 4 {
            spec_write_compact_string(m.resource_name)
        } else {
            spec_write_string(m.resource_name)
        }
    }

    /// What writing the `configuration_keys` field of `m` appends.
    #[verifier::opaque]
    pub open spec fn spec_write_configuration_keys(m: DescribeConfigsResourceView, version: i16) -> WriteOutcome {
        if version >= 4 {
            spec_write_nullable_array::<CompactStringItem>(m.configuration_keys, version, true, -1i32)
        } else {
            spec_write_nullable_array::<StringItem>(m.configuration_keys, version, false, -1i32)
        }
    }

    /// What writing the tagged fields of `m` appends.
    #[verifier::opaque]
    pub open spec fn spec_write_tags(m: DescribeConfigsResourceView, version: i16) -> WriteOutcome {
        if version >= 4 {
            spec_write_tagged_fields(sorted_by_tag(m.unknown_tagged_fields))
        } else {
            emit(Seq::empty())
        }
    }

    pub open spec fn spec_write(m: DescribeConfigsResourceView, version: i16) -> WriteOutcome {
        chain(
            chain(
                chain(
                    Self::spec_write_resource_type(m, version),
                    Self::spec_write_resource_name(m, version),
                ),
                Self::spec_write_configuration_keys(m, version),
            ),
            Self::spec_write_tags(m, version),
        )
    }

    /// Whether reading back what writing `m` in `version` appends gives `m`:
    /// fields that the version does not carry hold their default values, and
    /// tagged fields come in the order in which they are written.
    pub open spec fn canonical(m: DescribeConfigsResourceView, version: i16) -> bool {
        &&& (if version >= 4 {
                tags_in_order(m.unknown_tagged_fields)
            } else {
                m.unknown_tagged_fields.len() == 0
        })
    }

    proof fn lemma_round_trip_resource_type(m: DescribeConfigsResourceView, version: i16, rest: Seq<u8>)
        requires
            Self::canonical(m, version),
            Self::spec_write_resource_type(m, version) is Ok,
        ensures
            Self::spec_read_resource_type(written(Self::spec_write_resource_type(m, version)) + rest, version) == Ok::<(i8, Seq<u8>), Error>((m.resource_type, rest)),
    {
        reveal(DescribeConfigsResource::spec_read_resource_type);
        reveal(DescribeConfigsResource::spec_write_resource_type);
        lemma_i8_roundtrip(m.resource_type, rest);
    }

    proof fn lemma_round_trip_resource_name(m: DescribeConfigsResourceView, version: i16, rest: Seq<u8>)
        requires
            Self::canonical(m, version),
            Self::spec_write_resource_name(m, version) is Ok,
        ensures
            Self::spec_read_resource_name(written(Self::spec_write_resource_name(m, version)) + rest, version) == Ok::<(Seq<u8>, Seq<u8>), Error>((m.resource_name, rest)),
    {
        reveal(DescribeConfigsResource::spec_read_resource_name);
        reveal(DescribeConfigsResource::spec_write_resource_name);
        if version >= 4 {
            lemma_compact_string_round_trip(m.resource_name, rest);
        } else {
            lemma_string_round_trip(m.resource_name, rest);
        }
    }

    proof fn lemma_round_trip_configuration_keys(m: DescribeConfigsResourceView, version: i16, rest: Seq<u8>)
        requires
            Self::canonical(m, version),
            Self::spec_write_configuration_keys(m, version) is Ok,
        ensures
            Self::spec_read_configuration_keys(written(Self::spec_write_configuration_keys(m, version)) + rest, version) == Ok::<(Option<Seq<Seq<u8>>>, Seq<u8>), Error>((m.configuration_keys, rest)),
    {
        reveal(DescribeConfigsResource::spec_read_configuration_keys);
        reveal(DescribeConfigsResource::spec_write_configuration_keys);
        if version >= 4 {
            lemma_nullable_array_round_trip::<CompactStringItem>(m.configuration_keys, version, true, -1i32, rest);
        } else {
            lemma_nullable_array_round_trip::<StringItem>(m.configuration_keys, version, false, -1i32, rest);
        }
    }

    proof fn lemma_round_trip_tags(m: DescribeConfigsResourceView, version: i16, rest: Seq<u8>)
        requires
            Self::canonical(m, version),
            Self::spec_write_tags(m, version) is Ok,
        ensures
            Self::spec_read_tags(written(Self::spec_write_tags(m, version)) + rest, version) == Ok::<(Seq<(u32, Seq<u8>)>, Seq<u8>), Error>((m.unknown_tagged_fields, rest)),
    {
        reveal(DescribeConfigsResource::spec_read_tags);
        reveal(DescribeConfigsResource::spec_write_tags);
        if version >= 4 {
            lemma_sorted_by_tag_in_order(m.unknown_tagged_fields);
            lemma_tagged_fields_round_trip(m.unknown_tagged_fields, rest);
        } else {
            assert(Seq::<u8>::empty() + rest =~= rest);
            assert(m.unknown_tagged_fields =~= Seq::empty());
        }
    }

    /// Reading back what writing `m` in `version` appends gives `m` again, and
    /// leaves what follows, for every canonical message whose write succeeds.
    #[verifier::rlimit(80)]
    #[verifier::spinoff_prover]
    pub proof fn lemma_round_trip(m: DescribeConfigsResourceView, version: i16, rest: Seq<u8>)
        requires
            Self::canonical(m, version),
            Self::spec_write(m, version) is Ok,
        ensures
            Self::spec_read(written(Self::spec_write(m, version)) + rest, version) == Ok::<(DescribeConfigsResourceView, Seq<u8>), Error>((m, rest)),
    {
        let b0 = written(Self::spec_write_resource_type(m, version));
        let b1 = written(Self::spec_write_resource_name(m, version));
        let b2 = written(Self::spec_write_configuration_keys(m, version));
        let b3 = written(Self::spec_write_tags(m, version));
        let t4 = rest;
        let t3 = b3 + t4;
        let t2 = b2 + t3;
        let t1 = b1 + t2;
        let t0 = b0 + t1;
        let w0 = Self::spec_write_resource_type(m, version);
        let w1 = chain(w0, Self::spec_write_resource_name(m, version));
        let w2 = chain(w1, Self::spec_write_configuration_keys(m, version));
        let w3 = chain(w2, Self::spec_write_tags(m, version));
        assert(Self::spec_write(m, version) == w3);
        assert(written(w3) + t4 =~= written(w2) + t3);
        assert(written(w2) + t3 =~= written(w1) + t2);
        assert(written(w1) + t2 =~= written(w0) + t1);
        Self::lemma_round_trip_resource_type(m, version, t1);
        Self::lemma_round_trip_resource_name(m, version, t2);
        Self::lemma_round_trip_configuration_keys(m, version, t3);
        Self::lemma_round_trip_tags(m, version, t4);
    }

    /// In a version that does not carry `unknown_tagged_fields`, writing ignores its value.
    pub proof fn lemma_write_ignores_unknown_tagged_fields(m: DescribeConfigsResourceView, value: Seq<(u32, Seq<u8>)>, version: i16)
        requires
            !(version >= 4),
        ensures
            Self::spec_write((DescribeConfigsResourceView { unknown_tagged_fields: value, ..m }), version) == Self::spec_write(m, version),
    {
        reveal(DescribeConfigsResource::spec_write_resource_type);
        reveal(DescribeConfigsResource::spec_write_resource_name);
        reveal(DescribeConfigsResource::spec_write_configuration_keys);
        reveal(DescribeConfigsResource::spec_write_tags);
    }

    /// The default message holds the default value of each field of the schema.
    pub proof fn lemma_default_values()
        ensures
            Self::default_view().resource_type == (0_i8),
            Self::default_view().resource_name.len() == 0,
            (Self::default_view().configuration_keys is None),
            Self::default_view().unknown_tagged_fields.len() == 0,
    {
    }

    /// Each integer, boolean and identifier field is written as its standard
    /// big-endian bytes (a boolean as `1` or `0`) in the versions that carry
    /// it, and as nothing in the others; reading it takes those bytes back (any
    /// byte other than `0` reads as `true`), or gives its default value.
    pub proof fn lemma_field_encodings(m: DescribeConfigsResourceView, s: Seq<u8>, version: i16)
        ensures
            true ==> Self::spec_write_resource_type(m, version) == Ok::<Seq<u8>, (Error, Seq<u8>)>(seq![m.resource_type as u8]),
            true ==> Self::spec_read_resource_type(s, version) == (if s.len() < 1 { Err(Error::UnexpectedEof) } else { Ok((s[0] as i8, s.drop_first())) }),
    {
        reveal(DescribeConfigsResource::spec_write_resource_type);
        reveal(DescribeConfigsResource::spec_read_resource_type);
    }

    /// Whether writing `m` in `version` succeeds, said over its parts: the
    /// version is one the schema covers, every field that the version cannot
    /// carry holds its default value, and every string, byte string, array and
    /// tagged field fits its length prefix.
    pub open spec fn writable(m: DescribeConfigsResourceView, version: i16) -> bool {
        &&& m.resource_name.len() <= 0x7fff
        &&& (if version >= 4 {
                (m.configuration_keys matches Some(xs) ==> xs.len() <= i32::MAX && all_writable::<CompactStringItem>(xs, version))
            } else {
                (m.configuration_keys matches Some(xs) ==> xs.len() <= i32::MAX && all_writable::<StringItem>(xs, version))
        })
        &&& (if version >= 4 {
                m.unknown_tagged_fields.len() <= u32::MAX && tags_fit(m.unknown_tagged_fields)
            } else {
                true
        })
    }

    proof fn lemma_writable_resource_type(m: DescribeConfigsResourceView, version: i16)
        ensures
            Self::spec_write_resource_type(m, version) is Ok <==> true,
    {
        reveal(DescribeConfigsResource::spec_write_resource_type);
    }

    proof fn lemma_writable_resource_name(m: DescribeConfigsResourceView, version: i16)
        ensures
            Self::spec_write_resource_name(m, version) is Ok <==> m.resource_name.len() <= 0x7fff,
    {
        reveal(DescribeConfigsResource::spec_write_resource_name);
    }

    proof fn lemma_writable_configuration_keys(m: DescribeConfigsResourceView, version: i16)
        ensures
            Self::spec_write_configuration_keys(m, version) is Ok <==> (if version >= 4 { (m.configuration_keys matches Some(xs) ==> xs.len() <= i32::MAX && all_writable::<CompactStringItem>(xs, version)) } else { (m.configuration_keys matches Some(xs) ==> xs.len() <= i32::MAX && all_writable::<StringItem>(xs, version)) }),
    {
        reveal(DescribeConfigsResource::spec_write_configuration_keys);
        if version >= 4 {
            lemma_nullable_array_writable::<CompactStringItem>(m.configuration_keys, version, true, -1i32);
        } else {
            lemma_nullable_array_writable::<StringItem>(m.configuration_keys, version, false, -1i32);
        }
    }

    proof fn lemma_writable_tags(m: DescribeConfigsResourceView, version: i16)
        ensures
            Self::spec_write_tags(m, version) is Ok <==> (if version >= 4 { m.unknown_tagged_fields.len() <= u32::MAX && tags_fit(m.unknown_tagged_fields) } else { true }),
    {
        reveal(DescribeConfigsResource::spec_write_tags);
        if version >= 4 {
            lemma_sorted_tags_fit(m.unknown_tagged_fields);
            lemma_tagged_fields_writable(sorted_by_tag(m.unknown_tagged_fields));
        }
    }

    /// Writing `m` in `version` succeeds exactly when `m` is writable in it;
    /// so do `write` and `encoded_len`, whose results follow `spec_write`.
    #[verifier::rlimit(54)]
    pub proof fn lemma_writable(m: DescribeConfigsResourceView, version: i16)
        ensures
            Self::spec_write(m, version) is Ok <==> Self::writable(m, version),
    {
        Self::lemma_writable_resource_type(m, version);
        Self::lemma_writable_resource_name(m, version);
        Self::lemma_writable_configuration_keys(m, version);
        Self::lemma_writable_tags(m, version);
    }

    fn read_resource_type(buf: &mut Bytes, version: i16) -> (r: Result<i8, Error>)
        ensures
            read_as(Self::spec_read_resource_type(bytes_seq(*old(buf)), version), *final(buf), r),
            took_front(*old(buf), *final(buf)),
    {
        proof {
            reveal(DescribeConfigsResource::spec_read_resource_type);
        }
        Ok(read_i8(buf)?)
    }

    fn read_resource_name(buf: &mut Bytes, version: i16) -> (r: Result<KafkaString, Error>)
        ensures
            read_as(Self::spec_read_resource_name(bytes_seq(*old(buf)), version), *final(buf), r),
            took_front(*old(buf), *final(buf)),
    {
        proof {
            reveal(DescribeConfigsResource::spec_read_resource_name);
        }
        Ok(if version >= 4 {
                read_compact_string(buf)?
            } else {
                read_string(buf)?
        })
    }

    fn read_configuration_keys(buf: &mut Bytes, version: i16) -> (r: Result<Option<Vec<KafkaString>>, Error>)
        ensures
            read_opt_vec_as(Self::spec_read_configuration_keys(bytes_seq(*old(buf)), version), *final(buf), r),
            took_front(*old(buf), *final(buf)),
    {
        proof {
            reveal(DescribeConfigsResource::spec_read_configuration_keys);
        }
        Ok(if version >= 4 {
                read_nullable_array::<CompactStringItem>(buf, version, true)?
            } else {
                read_nullable_array::<StringItem>(buf, version, false)?
        })
    }

    fn read_tags(buf: &mut Bytes, version: i16) -> (r: Result<Vec<RawTaggedField>, Error>)
        ensures
            read_vec_as(Self::spec_read_tags(bytes_seq(*old(buf)), version), *final(buf), r),
            took_front(*old(buf), *final(buf)),
    {
        proof {
            reveal(DescribeConfigsResource::spec_read_tags);
        }
        Ok(if version >= 4 {
                read_tagged_fields(buf)?
            } else {
                empty_vec()
        })
    }

    pub fn read(buf: &mut Bytes, version: i16) -> (r: Result<Self, Error>)
        ensures
            read_as(Self::spec_read(bytes_seq(*old(buf)), version), *final(buf), r),
            took_front(*old(buf), *final(buf)),
    {
        let resource_type = Self::read_resource_type(buf, version)?;
        let resource_name = Self::read_resource_name(buf, version)?;
        let configuration_keys = Self::read_configuration_keys(buf, version)?;
        let _unknown_tagged_fields = Self::read_tags(buf, version)?;
        Ok(DescribeConfigsResource {
                resource_type: resource_type,
                resource_name: resource_name,
                configuration_keys: configuration_keys,
                _unknown_tagged_fields: _unknown_tagged_fields,
        })
    }

    #[verifier::rlimit(70)]
    pub fn write(&self, buf: &mut BytesMut, version: i16) -> (r: Result<(), Error>)
        requires
            has_room(Self::spec_write(self@, version), *old(buf)),
        ensures
            wrote(Self::spec_write(self@, version), *old(buf), *final(buf), r),
    {
        let ghost m = self@;
        proof {
            reveal(DescribeConfigsResource::spec_write_resource_type);
            reveal(DescribeConfigsResource::spec_write_resource_name);
            reveal(DescribeConfigsResource::spec_write_configuration_keys);
            reveal(DescribeConfigsResource::spec_write_tags);
        }
        let ghost s0 = Self::spec_write_resource_type(m, version);
        let ghost w0 = s0;
        let ghost s1 = Self::spec_write_resource_name(m, version);
        let ghost w1 = chain(w0, s1);
        let ghost s2 = Self::spec_write_configuration_keys(m, version);
        let ghost w2 = chain(w1, s2);
        let ghost s3 = Self::spec_write_tags(m, version);
        let ghost w3 = chain(w2, s3);
        assert(Self::spec_write(m, version) == w3);
        assert(written(w2).len() <= written(w3).len() && (w2 is Err ==> w3 == w2));
        assert(written(w1).len() <= written(w3).len() && (w1 is Err ==> w3 == w1));
        assert(written(w0).len() <= written(w3).len() && (w0 is Err ==> w3 == w0));
        let ghost mid = bytes_mut_seq(*buf);
        proof {
            lemma_append_empty(mid);
        }
        let r0 = {
            write_i8(buf, self.resource_type);
            Ok(())
        };
        assert(bytes_mut_seq(*buf) == mid + written(s0));
        if r0.is_err() {
            return r0;
        }
        let ghost mid = bytes_mut_seq(*buf);
        proof {
            lemma_append_empty(mid);
        }
        let r1 = if version >= 4 {
            write_compact_string(buf, &self.resource_name)
        } else {
            write_string(buf, &self.resource_name)
        };
        assert(bytes_mut_seq(*buf) == mid + written(s1));
        proof {
            lemma_step(bytes_mut_seq(*old(buf)), w0, s1);
        }
        if r1.is_err() {
            return r1;
        }
        let ghost mid = bytes_mut_seq(*buf);
        proof {
            lemma_append_empty(mid);
        }
        let r2 = if version >= 4 {
            write_nullable_array::<CompactStringItem>(buf, &self.configuration_keys, version, true, -1)
        } else {
            write_nullable_array::<StringItem>(buf, &self.configuration_keys, version, false, -1)
        };
        assert(bytes_mut_seq(*buf) == mid + written(s2));
        proof {
            lemma_step(bytes_mut_seq(*old(buf)), w1, s2);
        }
        if r2.is_err() {
            return r2;
        }
        let ghost mid = bytes_mut_seq(*buf);
        proof {
            lemma_append_empty(mid);
        }
        let r3 = if version >= 4 {
            write_tagged_fields(buf, &sort_by_tag(&self._unknown_tagged_fields))
        } else {
            Ok(())
        };
        assert(bytes_mut_seq(*buf) == mid + written(s3));
        proof {
            lemma_step(bytes_mut_seq(*old(buf)), w2, s3);
        }
        if r3.is_err() {
            return r3;
        }
        Ok(())
    }
}

impl Codec for DescribeConfigsResource {
    type Item = DescribeConfigsResource;

    open spec fn spec_read_item(s: Seq<u8>, version: i16) -> ReadOutcome<DescribeConfigsResourceView> {
        DescribeConfigsResource::spec_read(s, version)
    }

    open spec fn spec_write_item(v: DescribeConfigsResourceView, version: i16) -> WriteOutcome {
        DescribeConfigsResource::spec_write(v, version)
    }

    open spec fn canonical_item(v: DescribeConfigsResourceView, version: i16) -> bool {
        DescribeConfigsResource::canonical(v, version)
    }

    proof fn lemma_item_round_trip(v: DescribeConfigsResourceView, version: i16, rest: Seq<u8>) {
        DescribeConfigsResource::lemma_round_trip(v, version, rest);
    }

    open spec fn writable_item(v: DescribeConfigsResourceView, version: i16) -> bool {
        DescribeConfigsResource::writable(v, version)
    }

    proof fn lemma_item_writable(v: DescribeConfigsResourceView, version: i16) {
        DescribeConfigsResource::lemma_writable(v, version);
    }

    fn read_item(buf: &mut Bytes, version: i16) -> (r: Result<DescribeConfigsResource, Error>) {
        DescribeConfigsResource::read(buf, version)
    }

    fn write_item(item: &DescribeConfigsResource, buf: &mut BytesMut, version: i16) -> (r: Result<(), Error>) {
        item.write(buf, version)
    }
}

} // verus!
