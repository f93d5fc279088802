//! The incremental alter configs request message.
use crate::buffer::{bytes_mut_seq, bytes_seq};
use crate::codec::{Codec, all_canonical, all_writable, lemma_array_round_trip, lemma_array_writable, read_array, spec_read_array, spec_write_array, write_array};
use crate::error::{Error, UnsupportedVersion};
use crate::ints::{lemma_bool_roundtrip, lemma_i8_roundtrip, read_bool, read_i8, spec_read_bool, spec_read_i8, spec_write_bool, spec_write_i8, write_bool, write_i8};
use crate::strings::{lemma_compact_nullable_string_round_trip, lemma_compact_string_round_trip, lemma_nullable_string_round_trip, lemma_string_round_trip, read_compact_nullable_string, read_compact_string, read_nullable_string, read_string, spec_read_compact_nullable_string, spec_read_compact_string, spec_read_nullable_string, spec_read_string, spec_write_compact_nullable_string, spec_write_compact_string, spec_write_nullable_string, spec_write_string, write_compact_nullable_string, write_compact_string, write_nullable_string, write_string};
use crate::tagged::{lemma_sorted_by_tag_in_order, lemma_sorted_tags_fit, lemma_tagged_fields_round_trip, lemma_tagged_fields_writable, read_tagged_fields, sort_by_tag, sorted_by_tag, spec_read_tagged_fields, spec_write_tagged_fields, tags_fit, tags_in_order, write_tagged_fields};
use crate::types::{KafkaString, RawTaggedField};
use crate::wire::{ReadOutcome, ViewClone, WriteOutcome, chain, clone_vec, emit, empty_vec, fail, has_room, lemma_append_empty, lemma_chain_written, lemma_step, opt_view, read_as, read_opt_as, read_vec_as, took_front, views, written, wrote};
use bytes::{Bytes, BytesMut};
use vstd::prelude::*;

verus! {

broadcast use {crate::wire::lemma_chain_written, crate::wire::lemma_took_front_nothing, crate::wire::lemma_took_front_twice};

#[derive(Debug, PartialEq)]
pub struct IncrementalAlterConfigsRequestData {
    /// The incremental updates for each resource.
    pub resources: Vec<AlterConfigsResource>,
    /// True if we should validate the request, but not change the configurations.
    pub validate_only: bool,
    pub _unknown_tagged_fields: Vec<RawTaggedField>,
}

/// What a `IncrementalAlterConfigsRequestData` holds, as the specification sees it.
#[verifier::ext_equal]
pub struct IncrementalAlterConfigsRequestDataView {
    pub resources: Seq<AlterConfigsResourceView>,
    pub validate_only: bool,
    pub unknown_tagged_fields: Seq<(u32, Seq<u8>)>,
}

impl View for IncrementalAlterConfigsRequestData {
    type V = IncrementalAlterConfigsRequestDataView;

    open spec fn view(&self) -> IncrementalAlterConfigsRequestDataView {
        IncrementalAlterConfigsRequestDataView {
            resources: views(self.resources@),
            validate_only: self.validate_only,
            unknown_tagged_fields: views(self._unknown_tagged_fields@),
        }
    }
}

impl Clone for IncrementalAlterConfigsRequestData {
    fn clone(&self) -> (r: Self)
        ensures
            r@ == self@,
    {
        let r = IncrementalAlterConfigsRequestData {
            resources: clone_vec(&self.resources),
            validate_only: self.validate_only,
            _unknown_tagged_fields: clone_vec(&self._unknown_tagged_fields),
        };
        assert(r@ =~= self@);
        r
    }
}

impl ViewClone for IncrementalAlterConfigsRequestData {
    fn clone_view(&self) -> (r: Self) {
        self.clone()
    }
}

impl Default for IncrementalAlterConfigsRequestData {
    fn default() -> (r: Self)
        ensures
            r@ == Self::default_view(),
    {
        let r = IncrementalAlterConfigsRequestData {
            resources: empty_vec(),
            validate_only: false,
            _unknown_tagged_fields: empty_vec(),
        };
        assert(r@ =~= Self::default_view());
        r
    }
}

impl IncrementalAlterConfigsRequestData {
    pub open spec fn default_view() -> IncrementalAlterConfigsRequestDataView {
        IncrementalAlterConfigsRequestDataView {
            resources: Seq::empty(),
            validate_only: false,
            unknown_tagged_fields: Seq::empty(),
        }
    }

    /// The `resources` field, read from the front of `s`.
    #[verifier::opaque]
    pub open spec fn spec_read_resources(s: Seq<u8>, version: i16) -> ReadOutcome<Seq<AlterConfigsResourceView>> {
        if version >= 1 {
            spec_read_array::<AlterConfigsResource>(s, version, true)
        } else {
            spec_read_array::<AlterConfigsResource>(s, version, false)
        }
    }

    /// The `validate_only` field, read from the front of `s`.
    #[verifier::opaque]
    pub open spec fn spec_read_validate_only(s: Seq<u8>, version: i16) -> ReadOutcome<bool> {
        spec_read_bool(s)
    }

    /// The tagged fields, read from the front of `s`.
    #[verifier::opaque]
    pub open spec fn spec_read_tags(s: Seq<u8>, version: i16) -> ReadOutcome<Seq<(u32, Seq<u8>)>> {
        if version >= 1 {
            spec_read_tagged_fields(s)
        } else {
            Ok((Seq::empty(), s))
        }
    }

    pub open spec fn spec_read(s: Seq<u8>, version: i16) -> ReadOutcome<IncrementalAlterConfigsRequestDataView> {
        if version < 0 || version > 1 {
            Err(Error::UnsupportedVersion(UnsupportedVersion { api_key: 44, version }))
        } else {
            match (Self::spec_read_resources(s, version)) {
                Err(e) => Err(e),
                Ok((resources, s)) => match (Self::spec_read_validate_only(s, version)) {
                    Err(e) => Err(e),
                    Ok((validate_only, s)) => match (Self::spec_read_tags(s, version)) {
                        Err(e) => Err(e),
                        Ok((unknown_tagged_fields, s)) => Ok((IncrementalAlterConfigsRequestDataView {
                                    resources: resources,
                                    validate_only: validate_only,
                                    unknown_tagged_fields: unknown_tagged_fields,
                                }, s)),
                    },
                },
            }
        }
    }

    /// What writing the `resources` field of `m` appends.
    #[verifier::opaque]
    pub open spec fn spec_write_resources(m: IncrementalAlterConfigsRequestDataView, version: i16) -> WriteOutcome {
        if version >= 1 {
            spec_write_array::<AlterConfigsResource>(m.resources, version, true)
        } else {
            spec_write_array::<AlterConfigsResource>(m.resources, version, false)
        }
    }

    /// What writing the `validate_only` field of `m` appends.
    #[verifier::opaque]
    pub open spec fn spec_write_validate_only(m: IncrementalAlterConfigsRequestDataView, version: i16) -> WriteOutcome {
        spec_write_bool(m.validate_only)
    }

    /// What writing the tagged fields of `m` appends.
    #[verifier::opaque]
    pub open spec fn spec_write_tags(m: IncrementalAlterConfigsRequestDataView, version: i16) -> WriteOutcome {
        if version >= 1 {
            spec_write_tagged_fields(sorted_by_tag(m.unknown_tagged_fields))
        } else {
            emit(Seq::empty())
        }
    }

    pub open spec fn spec_write(m: IncrementalAlterConfigsRequestDataView, version: i16) -> WriteOutcome {
        if version < 0 || version > 1 {
            fail(Error::UnsupportedVersion(UnsupportedVersion { api_key: 44, version }))
        } else {
            chain(
                chain(
                    Self::spec_write_resources(m, version),
                    Self::spec_write_validate_only(m, version),
                ),
                Self::spec_write_tags(m, version),
            )
        }
    }

    /// Whether reading back what writing `m` in `version` appends gives `m`:
    /// fields that the version does not carry hold their default values, and
    /// tagged fields come in the order in which they are written.
    pub open spec fn canonical(m: IncrementalAlterConfigsRequestDataView, version: i16) -> bool {
        &&& all_canonical::<AlterConfigsResource>(m.resources, version)
        &&& (if version >= 1 {
                tags_in_order(m.unknown_tagged_fields)
            } else {
                m.unknown_tagged_fields.len() == 0
        })
    }

    proof fn lemma_round_trip_resources(m: IncrementalAlterConfigsRequestDataView, version: i16, rest: Seq<u8>)
        requires
            Self::canonical(m, version),
            Self::spec_write_resources(m, version) is Ok,
        ensures
            Self::spec_read_resources(written(Self::spec_write_resources(m, version)) + rest, version) == Ok::<(Seq<AlterConfigsResourceView>, Seq<u8>), Error>((m.resources, rest)),
    {
        reveal(IncrementalAlterConfigsRequestData::spec_read_resources);
        reveal(IncrementalAlterConfigsRequestData::spec_write_resources);
        if version >= 1 {
            lemma_array_round_trip::<AlterConfigsResource>(m.resources, version, true, rest);
        } else {
            lemma_array_round_trip::<AlterConfigsResource>(m.resources, version, false, rest);
        }
    }

    proof fn lemma_round_trip_validate_only(m: IncrementalAlterConfigsRequestDataView, version: i16, rest: Seq<u8>)
        requires
            Self::canonical(m, version),
            Self::spec_write_validate_only(m, version) is Ok,
        ensures
            Self::spec_read_validate_only(written(Self::spec_write_validate_only(m, version)) + rest, version) == Ok::<(bool, Seq<u8>), Error>((m.validate_only, rest)),
    {
        reveal(IncrementalAlterConfigsRequestData::spec_read_validate_only);
        reveal(IncrementalAlterConfigsRequestData::spec_write_validate_only);
        lemma_bool_roundtrip(m.validate_only, rest);
    }

    proof fn lemma_round_trip_tags(m: IncrementalAlterConfigsRequestDataView, version: i16, rest: Seq<u8>)
        requires
            Self::canonical(m, version),
            Self::spec_write_tags(m, version) is Ok,
        ensures
            Self::spec_read_tags(written(Self::spec_write_tags(m, version)) + rest, version) == Ok::<(Seq<(u32, Seq<u8>)>, Seq<u8>), Error>((m.unknown_tagged_fields, rest)),
    {
        reveal(IncrementalAlterConfigsRequestData::spec_read_tags);
        reveal(IncrementalAlterConfigsRequestData::spec_write_tags);
        if version >= 1 {
            lemma_sorted_by_tag_in_order(m.unknown_tagged_fields);
            lemma_tagged_fields_round_trip(m.unknown_tagged_fields, rest);
        } else {
            assert(Seq::<u8>::empty() + rest =~= rest);
            assert(m.unknown_tagged_fields =~= Seq::empty());
        }
    }

    /// Reading back what writing `m` in `version` appends gives `m` again, and
    /// leaves what follows, for every canonical message whose write succeeds.
    #[verifier::rlimit(70)]
    #[verifier::spinoff_prover]
    pub proof fn lemma_round_trip(m: IncrementalAlterConfigsRequestDataView, version: i16, rest: Seq<u8>)
        requires
            Self::canonical(m, version),
            Self::spec_write(m, version) is Ok,
        ensures
            Self::spec_read(written(Self::spec_write(m, version)) + rest, version) == Ok::<(IncrementalAlterConfigsRequestDataView, Seq<u8>), Error>((m, rest)),
    {
        let b0 = written(Self::spec_write_resources(m, version));
        let b1 = written(Self::spec_write_validate_only(m, version));
        let b2 = written(Self::spec_write_tags(m, version));
        let t3 = rest;
        let t2 = b2 + t3;
        let t1 = b1 + t2;
        let t0 = b0 + t1;
        let w0 = Self::spec_write_resources(m, version);
        let w1 = chain(w0, Self::spec_write_validate_only(m, version));
        let w2 = chain(w1, Self::spec_write_tags(m, version));
        assert(Self::spec_write(m, version) == w2);
        assert(written(w2) + t3 =~= written(w1) + t2);
        assert(written(w1) + t2 =~= written(w0) + t1);
        Self::lemma_round_trip_resources(m, version, t1);
        Self::lemma_round_trip_validate_only(m, version, t2);
        Self::lemma_round_trip_tags(m, version, t3);
    }

    /// In a version that does not carry `unknown_tagged_fields`, writing ignores its value.
    pub proof fn lemma_write_ignores_unknown_tagged_fields(m: IncrementalAlterConfigsRequestDataView, value: Seq<(u32, Seq<u8>)>, version: i16)
        requires
            !(version >= 1),
        ensures
            Self::spec_write((IncrementalAlterConfigsRequestDataView { unknown_tagged_fields: value, ..m }), version) == Self::spec_write(m, version),
    {
        reveal(IncrementalAlterConfigsRequestData::spec_write_resources);
        reveal(IncrementalAlterConfigsRequestData::spec_write_validate_only);
        reveal(IncrementalAlterConfigsRequestData::spec_write_tags);
    }

    /// The default message holds the default value of each field of the schema.
    pub proof fn lemma_default_values()
        ensures
            Self::default_view().resources.len() == 0,
            Self::default_view().validate_only == (false),
            Self::default_view().unknown_tagged_fields.len() == 0,
    {
    }

    /// Each integer, boolean and identifier field is written as its standard
    /// big-endian bytes (a boolean as `1` or `0`) in the versions that carry
    /// it, and as nothing in the others; reading it takes those bytes back (any
    /// byte other than `0` reads as `true`), or gives its default value.
    pub proof fn lemma_field_encodings(m: IncrementalAlterConfigsRequestDataView, s: Seq<u8>, version: i16)
        ensures
            true ==> Self::spec_write_validate_only(m, version) == Ok::<Seq<u8>, (Error, Seq<u8>)>(seq![if m.validate_only { 1u8 } else { 0u8 }]),
            true ==> Self::spec_read_validate_only(s, version) == (if s.len() < 1 { Err(Error::UnexpectedEof) } else { Ok((s[0] != 0, s.drop_first())) }),
    {
        reveal(IncrementalAlterConfigsRequestData::spec_write_validate_only);
        reveal(IncrementalAlterConfigsRequestData::spec_read_validate_only);
    }

    /// Whether writing `m` in `version` succeeds, said over its parts: the
    /// version is one the schema covers, every field that the version cannot
    /// carry holds its default value, and every string, byte string, array and
    /// tagged field fits its length prefix.
    pub open spec fn writable(m: IncrementalAlterConfigsRequestDataView, version: i16) -> bool {
        &&& 0 <= version <= 1
        &&& (m.resources.len() <= i32::MAX && all_writable::<AlterConfigsResource>(m.resources, version))
        &&& (if version >= 1 {
                m.unknown_tagged_fields.len() <= u32::MAX && tags_fit(m.unknown_tagged_fields)
            } else {
                true
        })
    }

    proof fn lemma_writable_resources(m: IncrementalAlterConfigsRequestDataView, version: i16)
        ensures
            Self::spec_write_resources(m, version) is Ok <==> (m.resources.len() <= i32::MAX && all_writable::<AlterConfigsResource>(m.resources, version)),
    {
        reveal(IncrementalAlterConfigsRequestData::spec_write_resources);
        if version >= 1 {
            lemma_array_writable::<AlterConfigsResource>(m.resources, version, true);
        } else {
            lemma_array_writable::<AlterConfigsResource>(m.resources, version, false);
        }
    }

    proof fn lemma_writable_validate_only(m: IncrementalAlterConfigsRequestDataView, version: i16)
        ensures
            Self::spec_write_validate_only(m, version) is Ok <==> true,
    {
        reveal(IncrementalAlterConfigsRequestData::spec_write_validate_only);
    }

    proof fn lemma_writable_tags(m: IncrementalAlterConfigsRequestDataView, version: i16)
        ensures
            Self::spec_write_tags(m, version) is Ok <==> (if version >= 1 { m.unknown_tagged_fields.len() <= u32::MAX && tags_fit(m.unknown_tagged_fields) } else { true }),
    {
        reveal(IncrementalAlterConfigsRequestData::spec_write_tags);
        if version >= 1 {
            lemma_sorted_tags_fit(m.unknown_tagged_fields);
            lemma_tagged_fields_writable(sorted_by_tag(m.unknown_tagged_fields));
        }
    }

    /// Writing `m` in `version` succeeds exactly when `m` is writable in it;
    /// so do `write` and `encoded_len`, whose results follow `spec_write`.
    #[verifier::rlimit(48)]
    pub proof fn lemma_writable(m: IncrementalAlterConfigsRequestDataView, version: i16)
        ensures
            Self::spec_write(m, version) is Ok <==> Self::writable(m, version),
    {
        Self::lemma_writable_resources(m, version);
        Self::lemma_writable_validate_only(m, version);
        Self::lemma_writable_tags(m, version);
    }

    /// A version outside the range that the schema covers is refused, by
    /// reads and by writes alike, before anything is read or written.
    pub proof fn lemma_refused_version(m: IncrementalAlterConfigsRequestDataView, s: Seq<u8>, version: i16)
        requires
            version < 0 || version > 1,
        ensures
            Self::spec_read(s, version) == Err::<(IncrementalAlterConfigsRequestDataView, Seq<u8>), Error>(Error::UnsupportedVersion(UnsupportedVersion { api_key: 44, version })),
            Self::spec_write(m, version) == fail(Error::UnsupportedVersion(UnsupportedVersion { api_key: 44, version })),
    {
    }

    fn read_resources(buf: &mut Bytes, version: i16) -> (r: Result<Vec<AlterConfigsResource>, Error>)
        ensures
            read_vec_as(Self::spec_read_resources(bytes_seq(*old(buf)), version), *final(buf), r),
            took_front(*old(buf), *final(buf)),
    {
        proof {
            reveal(IncrementalAlterConfigsRequestData::spec_read_resources);
        }
        Ok(if version >= 1 {
                read_array::<AlterConfigsResource>(buf, version, true)?
            } else {
                read_array::<AlterConfigsResource>(buf, version, false)?
        })
    }

    fn read_validate_only(buf: &mut Bytes, version: i16) -> (r: Result<bool, Error>)
        ensures
            read_as(Self::spec_read_validate_only(bytes_seq(*old(buf)), version), *final(buf), r),
            took_front(*old(buf), *final(buf)),
    {
        proof {
            reveal(IncrementalAlterConfigsRequestData::spec_read_validate_only);
        }
        Ok(read_bool(buf)?)
    }

    fn read_tags(buf: &mut Bytes, version: i16) -> (r: Result<Vec<RawTaggedField>, Error>)
        ensures
            read_vec_as(Self::spec_read_tags(bytes_seq(*old(buf)), version), *final(buf), r),
            took_front(*old(buf), *final(buf)),
    {
        proof {
            reveal(IncrementalAlterConfigsRequestData::spec_read_tags);
        }
        Ok(if version >= 1 {
                read_tagged_fields(buf)?
            } else {
                empty_vec()
        })
    }

    pub fn read(buf: &mut Bytes, version: i16) -> (r: Result<Self, Error>)
        ensures
            read_as(Self::spec_read(bytes_seq(*old(buf)), version), *final(buf), r),
            took_front(*old(buf), *final(buf)),
            (version < 0 || version > 1) ==> bytes_seq(*final(buf)) == bytes_seq(*old(buf)),
    {
        if version < 0 || version > 1 {
            return Err(Error::UnsupportedVersion(UnsupportedVersion::new(44, version)));
        }
        let resources = Self::read_resources(buf, version)?;
        let validate_only = Self::read_validate_only(buf, version)?;
        let _unknown_tagged_fields = Self::read_tags(buf, version)?;
        Ok(IncrementalAlterConfigsRequestData {
                resources: resources,
                validate_only: validate_only,
                _unknown_tagged_fields: _unknown_tagged_fields,
        })
    }

    #[verifier::rlimit(60)]
    pub fn write(&self, buf: &mut BytesMut, version: i16) -> (r: Result<(), Error>)
        requires
            has_room(Self::spec_write(self@, version), *old(buf)),
        ensures
            wrote(Self::spec_write(self@, version), *old(buf), *final(buf), r),
    {
        if version < 0 || version > 1 {
            return Err(Error::UnsupportedVersion(UnsupportedVersion::new(44, version)));
        }
        let ghost m = self@;
        proof {
            reveal(IncrementalAlterConfigsRequestData::spec_write_resources);
            reveal(IncrementalAlterConfigsRequestData::spec_write_validate_only);
            reveal(IncrementalAlterConfigsRequestData::spec_write_tags);
        }
        let ghost s0 = Self::spec_write_resources(m, version);
        let ghost w0 = s0;
        let ghost s1 = Self::spec_write_validate_only(m, version);
        let ghost w1 = chain(w0, s1);
        let ghost s2 = Self::spec_write_tags(m, version);
        let ghost w2 = chain(w1, s2);
        assert(Self::spec_write(m, version) == w2);
        assert(written(w1).len() <= written(w2).len() && (w1 is Err ==> w2 == w1));
        assert(written(w0).len() <= written(w2).len() && (w0 is Err ==> w2 == w0));
        let ghost mid = bytes_mut_seq(*buf);
        proof {
            lemma_append_empty(mid);
        }
        let r0 = if version >= 1 {
            write_array::<AlterConfigsResource>(buf, &self.resources, version, true)
        } else {
            write_array::<AlterConfigsResource>(buf, &self.resources, version, false)
        };
        assert(bytes_mut_seq(*buf) == mid + written(s0));
        if r0.is_err() {
            return r0;
        }
        let ghost mid = bytes_mut_seq(*buf);
        proof {
            lemma_append_empty(mid);
        }
        let r1 = {
            write_bool(buf, self.validate_only);
            Ok(())
        };
        assert(bytes_mut_seq(*buf) == mid + written(s1));
        proof {
            lemma_step(bytes_mut_seq(*old(buf)), w0, s1);
        }
        if r1.is_err() {
            return r1;
        }
        let ghost mid = bytes_mut_seq(*buf);
        proof {
            lemma_append_empty(mid);
        }
        let r2 = if version >= 1 {
            write_tagged_fields(buf, &sort_by_tag(&self._unknown_tagged_fields))
        } else {
            Ok(())
        };
        assert(bytes_mut_seq(*buf) == mid + written(s2));
        proof {
            lemma_step(bytes_mut_seq(*old(buf)), w1, s2);
        }
        if r2.is_err() {
            return r2;
        }
        Ok(())
    }
}

#[derive(Debug, PartialEq)]
pub struct AlterConfigsResource {
    /// The resource type.
    pub resource_type: i8,
    /// The resource name.
    pub resource_name: KafkaString,
    /// The configurations.
    pub configs: Vec<AlterableConfig>,
    pub _unknown_tagged_fields: Vec<RawTaggedField>,
}

/// What a `AlterConfigsResource` holds, as the specification sees it.
#[verifier::ext_equal]
pub struct AlterConfigsResourceView {
    pub resource_type: i8,
    pub resource_name: Seq<u8>,
    pub configs: Seq<AlterableConfigView>,
    pub unknown_tagged_fields: Seq<(u32, Seq<u8>)>,
}

impl View for AlterConfigsResource {
    type V = AlterConfigsResourceView;

    open spec fn view(&self) -> AlterConfigsResourceView {
        AlterConfigsResourceView {
            resource_type: self.resource_type,
            resource_name: self.resource_name@,
            configs: views(self.configs@),
            unknown_tagged_fields: views(self._unknown_tagged_fields@),
        }
    }
}

impl Clone for AlterConfigsResource {
    fn clone(&self) -> (r: Self)
        ensures
            r@ == self@,
    {
        let r = AlterConfigsResource {
            resource_type: self.resource_type,
            resource_name: self.resource_name.clone(),
            configs: clone_vec(&self.configs),
            _unknown_tagged_fields: clone_vec(&self._unknown_tagged_fields),
        };
        assert(r@ =~= self@);
        r
    }
}

impl ViewClone for AlterConfigsResource {
    fn clone_view(&self) -> (r: Self) {
        self.clone()
    }
}

impl Default for AlterConfigsResource {
    fn default() -> (r: Self)
        ensures
            r@ == Self::default_view(),
    {
        let r = AlterConfigsResource {
            resource_type: 0_i8,
            resource_name: KafkaString::default(),
            configs: empty_vec(),
            _unknown_tagged_fields: empty_vec(),
        };
        assert(r@ =~= Self::default_view());
        r
    }
}

impl AlterConfigsResource {
    pub open spec fn default_view() -> AlterConfigsResourceView {
        AlterConfigsResourceView {
            resource_type: 0_i8,
            resource_name: Seq::empty(),
            configs: Seq::empty(),
            unknown_tagged_fields: Seq::empty(),
        }
    }

    /// The `resource_type` field, read from the front of `s`.
    #[verifier::opaque]
    pub open spec fn spec_read_resource_type(s: Seq<u8>, version: i16) -> ReadOutcome<i8> {
        spec_read_i8(s)
    }

    /// The `resource_name` field, read from the front of `s`.
    #[verifier::opaque]
    pub open spec fn spec_read_resource_name(s: Seq<u8>, version: i16) -> ReadOutcome<Seq<u8>> {
        if version >= 1 {
            spec_read_compact_string(s)
        } else {
            spec_read_string(s)
        }
    }

    /// The `configs` field, read from the front of `s`.
    #[verifier::opaque]
    pub open spec fn spec_read_configs(s: Seq<u8>, version: i16) -> ReadOutcome<Seq<AlterableConfigView>> {
        if version >= 1 {
            spec_read_array::<AlterableConfig>(s, version, true)
        } else {
            spec_read_array::<AlterableConfig>(s, version, false)
        }
    }

    /// The tagged fields, read from the front of `s`.
    #[verifier::opaque]
    pub open spec fn spec_read_tags(s: Seq<u8>, version: i16) -> ReadOutcome<Seq<(u32, Seq<u8>)>> {
        if version >= 1 {
            spec_read_tagged_fields(s)
        } else {
            Ok((Seq::empty(), s))
        }
    }

    pub open spec fn spec_read(s: Seq<u8>, version: i16) -> ReadOutcome<AlterConfigsResourceView> {
        match (Self::spec_read_resource_type(s, version)) {
            Err(e) => Err(e),
            Ok((resource_type, s)) => match (Self::spec_read_resource_name(s, version)) {
                Err(e) => Err(e),
                Ok((resource_name, s)) => match (Self::spec_read_configs(s, version)) {
                    Err(e) => Err(e),
                    Ok((configs, s)) => match (Self::spec_read_tags(s, version)) {
                        Err(e) => Err(e),
                        Ok((unknown_tagged_fields, s)) => Ok((AlterConfigsResourceView {
                                    resource_type: resource_type,
                                    resource_name: resource_name,
                                    configs: configs,
                                    unknown_tagged_fields: unknown_tagged_fields,
                                }, s)),
                    },
                },
            },
        }
    }

    /// What writing the `resource_type` field of `m` appends.
    #[verifier::opaque]
    pub open spec fn spec_write_resource_type(m: AlterConfigsResourceView, version: i16) -> WriteOutcome {
        spec_write_i8(m.resource_type)
    }

    /// What writing the `resource_name` field of `m` appends.
    #[verifier::opaque]
    pub open spec fn spec_write_resource_name(m: AlterConfigsResourceView, version: i16) -> WriteOutcome {
        if version >= 1 {
            spec_write_compact_string(m.resource_name)
        } else {
            spec_write_string(m.resource_name)
        }
    }

    /// What writing the `configs` field of `m` appends.
    #[verifier::opaque]
    pub open spec fn spec_write_configs(m: AlterConfigsResourceView, version: i16) -> WriteOutcome {
        if version >= 1 {
            spec_write_array::<AlterableConfig>(m.configs, version, true)
        } else {
            spec_write_array::<AlterableConfig>(m.configs, version, false)
        }
    }

    /// What writing the tagged fields of `m` appends.
    #[verifier::opaque]
    pub open spec fn spec_write_tags(m: AlterConfigsResourceView, version: i16) -> WriteOutcome {
        if version >= 1 {
            spec_write_tagged_fields(sorted_by_tag(m.unknown_tagged_fields))
        } else {
            emit(Seq::empty())
        }
    }

    pub open spec fn spec_write(m: AlterConfigsResourceView, version: i16) -> WriteOutcome {
        chain(
            chain(
                chain(
                    Self::spec_write_resource_type(m, version),
                    Self::spec_write_resource_name(m, version),
                ),
                Self::spec_write_configs(m, version),
            ),
            Self::spec_write_tags(m, version),
        )
    }

    /// Whether reading back what writing `m` in `version` appends gives `m`:
    /// fields that the version does not carry hold their default values, and
    /// tagged fields come in the order in which they are written.
    pub open spec fn canonical(m: AlterConfigsResourceView, version: i16) -> bool {
        &&& all_canonical::<AlterableConfig>(m.configs, version)
        &&& (if version >= 1 {
                tags_in_order(m.unknown_tagged_fields)
            } else {
                m.unknown_tagged_fields.len() == 0
        })
    }

    proof fn lemma_round_trip_resource_type(m: AlterConfigsResourceView, version: i16, rest: Seq<u8>)
        requires
            Self::canonical(m, version),
            Self::spec_write_resource_type(m, version) is Ok,
        ensures
            Self::spec_read_resource_type(written(Self::spec_write_resource_type(m, version)) + rest, version) == Ok::<(i8, Seq<u8>), Error>((m.resource_type, rest)),
    {
        reveal(AlterConfigsResource::spec_read_resource_type);
        reveal(AlterConfigsResource::spec_write_resource_type);
        lemma_i8_roundtrip(m.resource_type, rest);
    }

    proof fn lemma_round_trip_resource_name(m: AlterConfigsResourceView, version: i16, rest: Seq<u8>)
        requires
            Self::canonical(m, version),
            Self::spec_write_resource_name(m, version) is Ok,
        ensures
            Self::spec_read_resource_name(written(Self::spec_write_resource_name(m, version)) + rest, version) == Ok::<(Seq<u8>, Seq<u8>), Error>((m.resource_name, rest)),
    {
        reveal(AlterConfigsResource::spec_read_resource_name);
        reveal(AlterConfigsResource::spec_write_resource_name);
        if version >= 1 {
            lemma_compact_string_round_trip(m.resource_name, rest);
        } else {
            lemma_string_round_trip(m.resource_name, rest);
        }
    }

    proof fn lemma_round_trip_configs(m: AlterConfigsResourceView, version: i16, rest: Seq<u8>)
        requires
            Self::canonical(m, version),
            Self::spec_write_configs(m, version) is Ok,
        ensures
            Self::spec_read_configs(written(Self::spec_write_configs(m, version)) + rest, version) == Ok::<(Seq<AlterableConfigView>, Seq<u8>), Error>((m.configs, rest)),
    {
        reveal(AlterConfigsResource::spec_read_configs);
        reveal(AlterConfigsResource::spec_write_configs);
        if version >= 1 {
            lemma_array_round_trip::<AlterableConfig>(m.configs, version, true, rest);
        } else {
            lemma_array_round_trip::<AlterableConfig>(m.configs, version, false, rest);
        }
    }

    proof fn lemma_round_trip_tags(m: AlterConfigsResourceView, version: i16, rest: Seq<u8>)
        requires
            Self::canonical(m, version),
            Self::spec_write_tags(m, version) is Ok,
        ensures
            Self::spec_read_tags(written(Self::spec_write_tags(m, version)) + rest, version) == Ok::<(Seq<(u32, Seq<u8>)>, Seq<u8>), Error>((m.unknown_tagged_fields, rest)),
    {
        reveal(AlterConfigsResource::spec_read_tags);
        reveal(AlterConfigsResource::spec_write_tags);
        if version >= 1 {
            lemma_sorted_by_tag_in_order(m.unknown_tagged_fields);
            lemma_tagged_fields_round_trip(m.unknown_tagged_fields, rest);
        } else {
            assert(Seq::<u8>::empty() + rest =~= rest);
            assert(m.unknown_tagged_fields =~= Seq::empty());
        }
    }

    /// Reading back what writing `m` in `version` appends gives `m` again, and
    /// leaves what follows, for every canonical message whose write succeeds.
    #[verifier::rlimit(80)]
    #[verifier::spinoff_prover]
    pub proof fn lemma_round_trip(m: AlterConfigsResourceView, version: i16, rest: Seq<u8>)
        requires
            Self::canonical(m, version),
            Self::spec_write(m, version) is Ok,
        ensures
            Self::spec_read(written(Self::spec_write(m, version)) + rest, version) == Ok::<(AlterConfigsResourceView, Seq<u8>), Error>((m, rest)),
    {
        let b0 = written(Self::spec_write_resource_type(m, version));
        let b1 = written(Self::spec_write_resource_name(m, version));
        let b2 = written(Self::spec_write_configs(m, version));
        let b3 = written(Self::spec_write_tags(m, version));
        let t4 = rest;
        let t3 = b3 + t4;
        let t2 = b2 + t3;
        let t1 = b1 + t2;
        let t0 = b0 + t1;
        let w0 = Self::spec_write_resource_type(m, version);
        let w1 = chain(w0, Self::spec_write_resource_name(m, version));
        let w2 = chain(w1, Self::spec_write_configs(m, version));
        let w3 = chain(w2, Self::spec_write_tags(m, version));
        assert(Self::spec_write(m, version) == w3);
        assert(written(w3) + t4 =~= written(w2) + t3);
        assert(written(w2) + t3 =~= written(w1) + t2);
        assert(written(w1) + t2 =~= written(w0) + t1);
        Self::lemma_round_trip_resource_type(m, version, t1);
        Self::lemma_round_trip_resource_name(m, version, t2);
        Self::lemma_round_trip_configs(m, version, t3);
        Self::lemma_round_trip_tags(m, version, t4);
    }

    /// In a version that does not carry `unknown_tagged_fields`, writing ignores its value.
    pub proof fn lemma_write_ignores_unknown_tagged_fields(m: AlterConfigsResourceView, value: Seq<(u32, Seq<u8>)>, version: i16)
        requires
            !(version >= 1),
        ensures
            Self::spec_write((AlterConfigsResourceView { unknown_tagged_fields: value, ..m }), version) == Self::spec_write(m, version),
    {
        reveal(AlterConfigsResource::spec_write_resource_type);
        reveal(AlterConfigsResource::spec_write_resource_name);
        reveal(AlterConfigsResource::spec_write_configs);
        reveal(AlterConfigsResource::spec_write_tags);
    }

    /// The default message holds the default value of each field of the schema.
    pub proof fn lemma_default_values()
        ensures
            Self::default_view().resource_type == (0_i8),
            Self::default_view().resource_name.len() == 0,
            Self::default_view().configs.len() == 0,
            Self::default_view().unknown_tagged_fields.len() == 0,
    {
    }

    /// Each integer, boolean and identifier field is written as its standard
    /// big-endian bytes (a boolean as `1` or `0`) in the versions that carry
    /// it, and as nothing in the others; reading it takes those bytes back (any
    /// byte other than `0` reads as `true`), or gives its default value.
    pub proof fn lemma_field_encodings(m: AlterConfigsResourceView, s: Seq<u8>, version: i16)
        ensures
            true ==> Self::spec_write_resource_type(m, version) == Ok::<Seq<u8>, (Error, Seq<u8>)>(seq![m.resource_type as u8]),
            true ==> Self::spec_read_resource_type(s, version) == (if s.len() < 1 { Err(Error::UnexpectedEof) } else { Ok((s[0] as i8, s.drop_first())) }),
    {
        reveal(AlterConfigsResource::spec_write_resource_type);
        reveal(AlterConfigsResource::spec_read_resource_type);
    }

    /// Whether writing `m` in `version` succeeds, said over its parts: the
    /// version is one the schema covers, every field that the version cannot
    /// carry holds its default value, and every string, byte string, array and
    /// tagged field fits its length prefix.
    pub open spec fn writable(m: AlterConfigsResourceView, version: i16) -> bool {
        &&& m.resource_name.len() <= 0x7fff
        &&& (m.configs.len() <= i32::MAX && all_writable::<AlterableConfig>(m.configs, version))
        &&& (if version >= 1 {
                m.unknown_tagged_fields.len() <= u32::MAX && tags_fit(m.unknown_tagged_fields)
            } else {
                true
        })
    }

    proof fn lemma_writable_resource_type(m: AlterConfigsResourceView, version: i16)
        ensures
            Self::spec_write_resource_type(m, version) is Ok <==> true,
    {
        reveal(AlterConfigsResource::spec_write_resource_type);
    }

    proof fn lemma_writable_resource_name(m: AlterConfigsResourceView, version: i16)
        ensures
            Self::spec_write_resource_name(m, version) is Ok <==> m.resource_name.len() <= 0x7fff,
    {
        reveal(AlterConfigsResource::spec_write_resource_name);
    }

    proof fn lemma_writable_configs(m: AlterConfigsResourceView, version: i16)
        ensures
            Self::spec_write_configs(m, version) is Ok <==> (m.configs.len() <= i32::MAX && all_writable::<AlterableConfig>(m.configs, version)),
    {
        reveal(AlterConfigsResource::spec_write_configs);
        if version >= 1 {
            lemma_array_writable::<AlterableConfig>(m.configs, version, true);
        } else {
            lemma_array_writable::<AlterableConfig>(m.configs, version, false);
        }
    }

    proof fn lemma_writable_tags(m: AlterConfigsResourceView, version: i16)
        ensures
            Self::spec_write_tags(m, version) is Ok <==> (if version >= 1 { m.unknown_tagged_fields.len() <= u32::MAX && tags_fit(m.unknown_tagged_fields) } else { true }),
    {
        reveal(AlterConfigsResource::spec_write_tags);
        if version >= 1 {
            lemma_sorted_tags_fit(m.unknown_tagged_fields);
            lemma_tagged_fields_writable(sorted_by_tag(m.unknown_tagged_fields));
        }
    }

    /// Writing `m` in `version` succeeds exactly when `m` is writable in it;
    /// so do `write` and `encoded_len`, whose results follow `spec_write`.
    #[verifier::rlimit(54)]
    pub proof fn lemma_writable(m: AlterConfigsResourceView, version: i16)
        ensures
            Self::spec_write(m, version) is Ok <==> Self::writable(m, version),
    {
        Self::lemma_writable_resource_type(m, version);
        Self::lemma_writable_resource_name(m, version);
        Self::lemma_writable_configs(m, version);
        Self::lemma_writable_tags(m, version);
    }

    fn read_resource_type(buf: &mut Bytes, version: i16) -> (r: Result<i8, Error>)
        ensures
            read_as(Self::spec_read_resource_type(bytes_seq(*old(buf)), version), *final(buf), r),
            took_front(*old(buf), *final(buf)),
    {
        proof {
            reveal(AlterConfigsResource::spec_read_resource_type);
        }
        Ok(read_i8(buf)?)
    }

    fn read_resource_name(buf: &mut Bytes, version: i16) -> (r: Result<KafkaString, Error>)
        ensures
            read_as(Self::spec_read_resource_name(bytes_seq(*old(buf)), version), *final(buf), r),
            took_front(*old(buf), *final(buf)),
    {
        proof {
            reveal(AlterConfigsResource::spec_read_resource_name);
        }
        Ok(if version >= 1 {
                read_compact_string(buf)?
            } else {
                read_string(buf)?
        })
    }

    fn read_configs(buf: &mut Bytes, version: i16) -> (r: Result<Vec<AlterableConfig>, Error>)
        ensures
            read_vec_as(Self::spec_read_configs(bytes_seq(*old(buf)), version), *final(buf), r),
            took_front(*old(buf), *final(buf)),
    {
        proof {
            reveal(AlterConfigsResource::spec_read_configs);
        }
        Ok(if version >= 1 {
                read_array::<AlterableConfig>(buf, version, true)?
            } else {
                read_array::<AlterableConfig>(buf, version, false)?
        })
    }

    fn read_tags(buf: &mut Bytes, version: i16) -> (r: Result<Vec<RawTaggedField>, Error>)
        ensures
            read_vec_as(Self::spec_read_tags(bytes_seq(*old(buf)), version), *final(buf), r),
            took_front(*old(buf), *final(buf)),
    {
        proof {
            reveal(AlterConfigsResource::spec_read_tags);
        }
        Ok(if version >= 1 {
                read_tagged_fields(buf)?
            } else {
                empty_vec()
        })
    }

    pub fn read(buf: &mut Bytes, version: i16) -> (r: Result<Self, Error>)
        ensures
            read_as(Self::spec_read(bytes_seq(*old(buf)), version), *final(buf), r),
            took_front(*old(buf), *final(buf)),
    {
        let resource_type = Self::read_resource_type(buf, version)?;
        let resource_name = Self::read_resource_name(buf, version)?;
        let configs = Self::read_configs(buf, version)?;
        let _unknown_tagged_fields = Self::read_tags(buf, version)?;
        Ok(AlterConfigsResource {
                resource_type: resource_type,
                resource_name: resource_name,
                configs: configs,
                _unknown_tagged_fields: _unknown_tagged_fields,
        })
    }

    #[verifier::rlimit(70)]
    pub fn write(&self, buf: &mut BytesMut, version: i16) -> (r: Result<(), Error>)
        requires
            has_room(Self::spec_write(self@, version), *old(buf)),
        ensures
            wrote(Self::spec_write(self@, version), *old(buf), *final(buf), r),
    {
        let ghost m = self@;
        proof {
            reveal(AlterConfigsResource::spec_write_resource_type);
            reveal(AlterConfigsResource::spec_write_resource_name);
            reveal(AlterConfigsResource::spec_write_configs);
            reveal(AlterConfigsResource::spec_write_tags);
        }
        let ghost s0 = Self::spec_write_resource_type(m, version);
        let ghost w0 = s0;
        let ghost s1 = Self::spec_write_resource_name(m, version);
        let ghost w1 = chain(w0, s1);
        let ghost s2 = Self::spec_write_configs(m, version);
        let ghost w2 = chain(w1, s2);
        let ghost s3 = Self::spec_write_tags(m, version);
        let ghost w3 = chain(w2, s3);
        assert(Self::spec_write(m, version) == w3);
        assert(written(w2).len() <= written(w3).len() && (w2 is Err ==> w3 == w2));
        assert(written(w1).len() <= written(w3).len() && (w1 is Err ==> w3 == w1));
        assert(written(w0).len() <= written(w3).len() && (w0 is Err ==> w3 == w0));
        let ghost mid = bytes_mut_seq(*buf);
        proof {
            lemma_append_empty(mid);
        }
        let r0 = {
            write_i8(buf, self.resource_type);
            Ok(())
        };
        assert(bytes_mut_seq(*buf) == mid + written(s0));
        if r0.is_err() {
            return r0;
        }
        let ghost mid = bytes_mut_seq(*buf);
        proof {
            lemma_append_empty(mid);
        }
        let r1 = if version >= 1 {
            write_compact_string(buf, &self.resource_name)
        } else {
            write_string(buf, &self.resource_name)
        };
        assert(bytes_mut_seq(*buf) == mid + written(s1));
        proof {
            lemma_step(bytes_mut_seq(*old(buf)), w0, s1);
        }
        if r1.is_err() {
            return r1;
        }
        let ghost mid = bytes_mut_seq(*buf);
        proof {
            lemma_append_empty(mid);
        }
        let r2 = if version >= 1 {
            write_array::<AlterableConfig>(buf, &self.configs, version, true)
        } else {
            write_array::<AlterableConfig>(buf, &self.configs, version, false)
        };
        assert(bytes_mut_seq(*buf) == mid + written(s2));
        proof {
            lemma_step(bytes_mut_seq(*old(buf)), w1, s2);
        }
        if r2.is_err() {
            return r2;
        }
        let ghost mid = bytes_mut_seq(*buf);
        proof {
            lemma_append_empty(mid);
        }
        let r3 = if version >= 1 {
            write_tagged_fields(buf, &sort_by_tag(&self._unknown_tagged_fields))
        } else {
            Ok(())
        };
        assert(bytes_mut_seq(*buf) == mid + written(s3));
        proof {
            lemma_step(bytes_mut_seq(*old(buf)), w2, s3);
        }
        if r3.is_err() {
            return r3;
        }
        Ok(())
    }
}

#[derive(Debug, PartialEq)]
pub struct AlterableConfig {
    /// The configuration key name.
    pub name: KafkaString,
    /// The type (Set, Delete, Append, Subtract) of operation.
    pub config_operation: i8,
    /// The value to set for the configuration key.
    pub value: Option<KafkaString>,
    pub _unknown_tagged_fields: Vec<RawTaggedField>,
}

/// What a `AlterableConfig` holds, as the specification sees it.
#[verifier::ext_equal]
pub struct AlterableConfigView {
    pub name: Seq<u8>,
    pub config_operation: i8,
    pub value: Option<Seq<u8>>,
    pub unknown_tagged_fields: Seq<(u32, Seq<u8>)>,
}

impl View for AlterableConfig {
    type V = AlterableConfigView;

    open spec fn view(&self) -> AlterableConfigView {
        AlterableConfigView {
            name: self.name@,
            config_operation: self.config_operation,
            value: opt_view(self.value),
            unknown_tagged_fields: views(self._unknown_tagged_fields@),
        }
    }
}

impl Clone for AlterableConfig {
    fn clone(&self) -> (r: Self)
        ensures
            r@ == self@,
    {
        let r = AlterableConfig {
            name: self.name.clone(),
            config_operation: self.config_operation,
            value: match &self.value {
                Some(x) => Some(x.clone()),
                None => None,
            },
            _unknown_tagged_fields: clone_vec(&self._unknown_tagged_fields),
        };
        assert(r@ =~= self@);
        r
    }
}

impl ViewClone for AlterableConfig {
    fn clone_view(&self) -> (r: Self) {
        self.clone()
    }
}

impl Default for AlterableConfig {
    fn default() -> (r: Self)
        ensures
            r@ == Self::default_view(),
    {
        let r = AlterableConfig {
            name: KafkaString::default(),
            config_operation: 0_i8,
            value: None,
            _unknown_tagged_fields: empty_vec(),
        };
        assert(r@ =~= Self::default_view());
        r
    }
}

impl AlterableConfig {
    pub open spec fn default_view() -> AlterableConfigView {
        AlterableConfigView {
            name: Seq::empty(),
            config_operation: 0_i8,
            value: None,
            unknown_tagged_fields: Seq::empty(),
        }
    }

    /// The `name` field, read from the front of `s`.
    #[verifier::opaque]
    pub open spec fn spec_read_name(s: Seq<u8>, version: i16) -> ReadOutcome<Seq<u8>> {
        if version >= 1 {
            spec_read_compact_string(s)
        } else {
            spec_read_string(s)
        }
    }

    /// The `config_operation` field, read from the front of `s`.
    #[verifier::opaque]
    pub open spec fn spec_read_config_operation(s: Seq<u8>, version: i16) -> ReadOutcome<i8> {
        spec_read_i8(s)
    }

    /// The `value` field, read from the front of `s`.
    #[verifier::opaque]
    pub open spec fn spec_read_value(s: Seq<u8>, version: i16) -> ReadOutcome<Option<Seq<u8>>> {
        if version >= 1 {
            spec_read_compact_nullable_string(s)
        } else {
            spec_read_nullable_string(s)
        }
    }

    /// The tagged fields, read from the front of `s`.
    #[verifier::opaque]
    pub open spec fn spec_read_tags(s: Seq<u8>, version: i16) -> ReadOutcome<Seq<(u32, Seq<u8>)>> {
        if version >= 1 {
            spec_read_tagged_fields(s)
        } else {
            Ok((Seq::empty(), s))
        }
    }

    pub open spec fn spec_read(s: Seq<u8>, version: i16) -> ReadOutcome<AlterableConfigView> {
        match (Self::spec_read_name(s, version)) {
            Err(e) => Err(e),
            Ok((name, s)) => match (Self::spec_read_config_operation(s, version)) {
                Err(e) => Err(e),
                Ok((config_operation, s)) => match (Self::spec_read_value(s, version)) {
                    Err(e) => Err(e),
                    Ok((value, s)) => match (Self::spec_read_tags(s, version)) {
                        Err(e) => Err(e),
                        Ok((unknown_tagged_fields, s)) => Ok((AlterableConfigView {
                                    name: name,
                                    config_operation: config_operation,
                                    value: value,
                                    unknown_tagged_fields: unknown_tagged_fields,
                                }, s)),
                    },
                },
            },
        }
    }

    /// What writing the `name` field of `m` appends.
    #[verifier::opaque]
    pub open spec fn spec_write_name(m: AlterableConfigView, version: i16) -> WriteOutcome {
        if version >= 1 {
            spec_write_compact_string(m.name)
        } else {
            spec_write_string(m.name)
        }
    }

    /// What writing the `config_operation` field of `m` appends.
    #[verifier::opaque]
    pub open spec fn spec_write_config_operation(m: AlterableConfigView, version: i16) -> WriteOutcome {
        spec_write_i8(m.config_operation)
    }

    /// What writing the `value` field of `m` appends.
    #[verifier::opaque]
    pub open spec fn spec_write_value(m: AlterableConfigView, version: i16) -> WriteOutcome {
        if version >= 1 {
            spec_write_compact_nullable_string(m.value)
        } else {
            spec_write_nullable_string(m.value)
        }
    }

    /// What writing the tagged fields of `m` appends.
    #[verifier::opaque]
    pub open spec fn spec_write_tags(m: AlterableConfigView, version: i16) -> WriteOutcome {
        if version >= 1 {
            spec_write_tagged_fields(sorted_by_tag(m.unknown_tagged_fields))
        } else {
            emit(Seq::empty())
        }
    }

    pub open spec fn spec_write(m: AlterableConfigView, version: i16) -> WriteOutcome {
        chain(
            chain(
                chain(
                    Self::spec_write_name(m, version),
                    Self::spec_write_config_operation(m, version),
                ),
                Self::spec_write_value(m, version),
            ),
            Self::spec_write_tags(m, version),
        )
    }

    /// Whether reading back what writing `m` in `version` appends gives `m`:
    /// fields that the version does not carry hold their default values, and
    /// tagged fields come in the order in which they are written.
    pub open spec fn canonical(m: AlterableConfigView, version: i16) -> bool {
        &&& (if version >= 1 {
                tags_in_order(m.unknown_tagged_fields)
            } else {
                m.unknown_tagged_fields.len() == 0
        })
    }

    proof fn lemma_round_trip_name(m: AlterableConfigView, version: i16, rest: Seq<u8>)
        requires
            Self::canonical(m, version),
            Self::spec_write_name(m, version) is Ok,
        ensures
            Self::spec_read_name(written(Self::spec_write_name(m, version)) + rest, version) == Ok::<(Seq<u8>, Seq<u8>), Error>((m.name, rest)),
    {
        reveal(AlterableConfig::spec_read_name);
        reveal(AlterableConfig::spec_write_name);
        if version >= 1 {
            lemma_compact_string_round_trip(m.name, rest);
        } else {
            lemma_string_round_trip(m.name, rest);
        }
    }

    proof fn lemma_round_trip_config_operation(m: AlterableConfigView, version: i16, rest: Seq<u8>)
        requires
            Self::canonical(m, version),
            Self::spec_write_config_operation(m, version) is Ok,
        ensures
            Self::spec_read_config_operation(written(Self::spec_write_config_operation(m, version)) + rest, version) == Ok::<(i8, Seq<u8>), Error>((m.config_operation, rest)),
    {
        reveal(AlterableConfig::spec_read_config_operation);
        reveal(AlterableConfig::spec_write_config_operation);
        lemma_i8_roundtrip(m.config_operation, rest);
    }

    proof fn lemma_round_trip_value(m: AlterableConfigView, version: i16, rest: Seq<u8>)
        requires
            Self::canonical(m, version),
            Self::spec_write_value(m, version) is Ok,
        ensures
            Self::spec_read_value(written(Self::spec_write_value(m, version)) + rest, version) == Ok::<(Option<Seq<u8>>, Seq<u8>), Error>((m.value, rest)),
    {
        reveal(AlterableConfig::spec_read_value);
        reveal(AlterableConfig::spec_write_value);
        if version >= 1 {
            lemma_compact_nullable_string_round_trip(m.value, rest);
        } else {
            lemma_nullable_string_round_trip(m.value, rest);
        }
    }

    proof fn lemma_round_trip_tags(m: AlterableConfigView, version: i16, rest: Seq<u8>)
        requires
            Self::canonical(m, version),
            Self::spec_write_tags(m, version) is Ok,
        ensures
            Self::spec_read_tags(written(Self::spec_write_tags(m, version)) + rest, version) == Ok::<(Seq<(u32, Seq<u8>)>, Seq<u8>), Error>((m.unknown_tagged_fields, rest)),
    {
        reveal(AlterableConfig::spec_read_tags);
        reveal(AlterableConfig::spec_write_tags);
        if version >= 1 {
            lemma_sorted_by_tag_in_order(m.unknown_tagged_fields);
            lemma_tagged_fields_round_trip(m.unknown_tagged_fields, rest);
        } else {
            assert(Seq::<u8>::empty() + rest =~= rest);
            assert(m.unknown_tagged_fields =~= Seq::empty());
        }
    }

    /// Reading back what writing `m` in `version` appends gives `m` again, and
    /// leaves what follows, for every canonical message whose write succeeds.
    #[verifier::rlimit(80)]
    #[verifier::spinoff_prover]
    pub proof fn lemma_round_trip(m: AlterableConfigView, version: i16, rest: Seq<u8>)
        requires
            Self::canonical(m, version),
            Self::spec_write(m, version) is Ok,
        ensures
            Self::spec_read(written(Self::spec_write(m, version)) + rest, version) == Ok::<(AlterableConfigView, Seq<u8>), Error>((m, rest)),
    {
        let b0 = written(Self::spec_write_name(m, version));
        let b1 = written(Self::spec_write_config_operation(m, version));
        let b2 = written(Self::spec_write_value(m, version));
        let b3 = written(Self::spec_write_tags(m, version));
        let t4 = rest;
        let t3 = b3 + t4;
        let t2 = b2 + t3;
        let t1 = b1 + t2;
        let t0 = b0 + t1;
        let w0 = Self::spec_write_name(m, version);
        let w1 = chain(w0, Self::spec_write_config_operation(m, version));
        let w2 = chain(w1, Self::spec_write_value(m, version));
        let w3 = chain(w2, Self::spec_write_tags(m, version));
        assert(Self::spec_write(m, version) == w3);
        assert(written(w3) + t4 =~= written(w2) + t3);
        assert(written(w2) + t3 =~= written(w1) + t2);
        assert(written(w1) + t2 =~= written(w0) + t1);
        Self::lemma_round_trip_name(m, version, t1);
        Self::lemma_round_trip_config_operation(m, version, t2);
        Self::lemma_round_trip_value(m, version, t3);
        Self::lemma_round_trip_tags(m, version, t4);
    }

    /// In a version that does not carry `unknown_tagged_fields`, writing ignores its value.
    pub proof fn lemma_write_ignores_unknown_tagged_fields(m: AlterableConfigView, value: Seq<(u32, Seq<u8>)>, version: i16)
        requires
            !(version >= 1),
        ensures
            Self::spec_write((AlterableConfigView { unknown_tagged_fields: value, ..m }), version) == Self::spec_write(m, version),
    {
        reveal(AlterableConfig::spec_write_name);
        reveal(AlterableConfig::spec_write_config_operation);
        reveal(AlterableConfig::spec_write_value);
        reveal(AlterableConfig::spec_write_tags);
    }

    /// The default message holds the default value of each field of the schema.
    pub proof fn lemma_default_values()
        ensures
            Self::default_view().name.len() == 0,
            Self::default_view().config_operation == (0_i8),
            (Self::default_view().value is None),
            Self::default_view().unknown_tagged_fields.len() == 0,
    {
    }

    /// Each integer, boolean and identifier field is written as its standard
    /// big-endian bytes (a boolean as `1` or `0`) in the versions that carry
    /// it, and as nothing in the others; reading it takes those bytes back (any
    /// byte other than `0` reads as `true`), or gives its default value.
    pub proof fn lemma_field_encodings(m: AlterableConfigView, s: Seq<u8>, version: i16)
        ensures
            true ==> Self::spec_write_config_operation(m, version) == Ok::<Seq<u8>, (Error, Seq<u8>)>(seq![m.config_operation as u8]),
            true ==> Self::spec_read_config_operation(s, version) == (if s.len() < 1 { Err(Error::UnexpectedEof) } else { Ok((s[0] as i8, s.drop_first())) }),
    {
        reveal(AlterableConfig::spec_write_config_operation);
        reveal(AlterableConfig::spec_read_config_operation);
    }

    /// Whether writing `m` in `version` succeeds, said over its parts: the
    /// version is one the schema covers, every field that the version cannot
    /// carry holds its default value, and every string, byte string, array and
    /// tagged field fits its length prefix.
    pub open spec fn writable(m: AlterableConfigView, version: i16) -> bool {
        &&& m.name.len() <= 0x7fff
        &&& (m.value matches Some(b) ==> b.len() <= 0x7fff)
        &&& (if version >= 1 {
                m.unknown_tagged_fields.len() <= u32::MAX && tags_fit(m.unknown_tagged_fields)
            } else {
                true
        })
    }

    proof fn lemma_writable_name(m: AlterableConfigView, version: i16)
        ensures
            Self::spec_write_name(m, version) is Ok <==> m.name.len() <= 0x7fff,
    {
        reveal(AlterableConfig::spec_write_name);
    }

    proof fn lemma_writable_config_operation(m: AlterableConfigView, version: i16)
        ensures
            Self::spec_write_config_operation(m, version) is Ok <==> true,
    {
        reveal(AlterableConfig::spec_write_config_operation);
    }

    proof fn lemma_writable_value(m: AlterableConfigView, version: i16)
        ensures
            Self::spec_write_value(m, version) is Ok <==> (m.value matches Some(b) ==> b.len() <= 0x7fff),
    {
        reveal(AlterableConfig::spec_write_value);
    }

    proof fn lemma_writable_tags(m: AlterableConfigView, version: i16)
        ensures
            Self::spec_write_tags(m, version) is Ok <==> (if version >= 1 { m.unknown_tagged_fields.len() <= u32::MAX && tags_fit(m.unknown_tagged_fields) } else { true }),
    {
        reveal(AlterableConfig::spec_write_tags);
        if version >= 1 {
            lemma_sorted_tags_fit(m.unknown_tagged_fields);
            lemma_tagged_fields_writable(sorted_by_tag(m.unknown_tagged_fields));
        }
    }

    /// Writing `m` in `version` succeeds exactly when `m` is writable in it;
    /// so do `write` and `encoded_len`, whose results follow `spec_write`.
    #[verifier::rlimit(54)]
    pub proof fn lemma_writable(m: AlterableConfigView, version: i16)
        ensures
            Self::spec_write(m, version) is Ok <==> Self::writable(m, version),
    {
        Self::lemma_writable_name(m, version);
        Self::lemma_writable_config_operation(m, version);
        Self::lemma_writable_value(m, version);
        Self::lemma_writable_tags(m, version);
    }

    fn read_name(buf: &mut Bytes, version: i16) -> (r: Result<KafkaString, Error>)
        ensures
            read_as(Self::spec_read_name(bytes_seq(*old(buf)), version), *final(buf), r),
            took_front(*old(buf), *final(buf)),
    {
        proof {
            reveal(AlterableConfig::spec_read_name);
        }
        Ok(if version >= 1 {
                read_compact_string(buf)?
            } else {
                read_string(buf)?
        })
    }

    fn read_config_operation(buf: &mut Bytes, version: i16) -> (r: Result<i8, Error>)
        ensures
            read_as(Self::spec_read_config_operation(bytes_seq(*old(buf)), version), *final(buf), r),
            took_front(*old(buf), *final(buf)),
    {
        proof {
            reveal(AlterableConfig::spec_read_config_operation);
        }
        Ok(read_i8(buf)?)
    }

    fn read_value(buf: &mut Bytes, version: i16) -> (r: Result<Option<KafkaString>, Error>)
        ensures
            read_opt_as(Self::spec_read_value(bytes_seq(*old(buf)), version), *final(buf), r),
            took_front(*old(buf), *final(buf)),
    {
        proof {
            reveal(AlterableConfig::spec_read_value);
        }
        Ok(if version >= 1 {
                read_compact_nullable_string(buf)?
            } else {
                read_nullable_string(buf)?
        })
    }

    fn read_tags(buf: &mut Bytes, version: i16) -> (r: Result<Vec<RawTaggedField>, Error>)
        ensures
            read_vec_as(Self::spec_read_tags(bytes_seq(*old(buf)), version), *final(buf), r),
            took_front(*old(buf), *final(buf)),
    {
        proof {
            reveal(AlterableConfig::spec_read_tags);
        }
        Ok(if version >= 1 {
                read_tagged_fields(buf)?
            } else {
                empty_vec()
        })
    }

    pub fn read(buf: &mut Bytes, version: i16) -> (r: Result<Self, Error>)
        ensures
            read_as(Self::spec_read(bytes_seq(*old(buf)), version), *final(buf), r),
            took_front(*old(buf), *final(buf)),
    {
        let name = Self::read_name(buf, version)?;
        let config_operation = Self::read_config_operation(buf, version)?;
        let value = Self::read_value(buf, version)?;
        let _unknown_tagged_fields = Self::read_tags(buf, version)?;
        Ok(AlterableConfig {
                name: name,
                config_operation: config_operation,
                value: value,
                _unknown_tagged_fields: _unknown_tagged_fields,
        })
    }

    #[verifier::rlimit(70)]
    pub fn write(&self, buf: &mut BytesMut, version: i16) -> (r: Result<(), Error>)
        requires
            has_room(Self::spec_write(self@, version), *old(buf)),
        ensures
            wrote(Self::spec_write(self@, version), *old(buf), *final(buf), r),
    {
        let ghost m = self@;
        proof {
            reveal(AlterableConfig::spec_write_name);
            reveal(AlterableConfig::spec_write_config_operation);
            reveal(AlterableConfig::spec_write_value);
            reveal(AlterableConfig::spec_write_tags);
        }
        let ghost s0 = Self::spec_write_name(m, version);
        let ghost w0 = s0;
        let ghost s1 = Self::spec_write_config_operation(m, version);
        let ghost w1 = chain(w0, s1);
        let ghost s2 = Self::spec_write_value(m, version);
        let ghost w2 = chain(w1, s2);
        let ghost s3 = Self::spec_write_tags(m, version);
        let ghost w3 = chain(w2, s3);
        assert(Self::spec_write(m, version) == w3);
        assert(written(w2).len() <= written(w3).len() && (w2 is Err ==> w3 == w2));
        assert(written(w1).len() <= written(w3).len() && (w1 is Err ==> w3 == w1));
        assert(written(w0).len() <= written(w3).len() && (w0 is Err ==> w3 == w0));
        let ghost mid = bytes_mut_seq(*buf);
        proof {
            lemma_append_empty(mid);
        }
        let r0 = if version >= 1 {
            write_compact_string(buf, &self.name)
        } else {
            write_string(buf, &self.name)
        };
        assert(bytes_mut_seq(*buf) == mid + written(s0));
        if r0.is_err() {
            return r0;
        }
        let ghost mid = bytes_mut_seq(*buf);
        proof {
            lemma_append_empty(mid);
        }
        let r1 = {
            write_i8(buf, self.config_operation);
            Ok(())
        };
        assert(bytes_mut_seq(*buf) == mid + written(s1));
        proof {
            lemma_step(bytes_mut_seq(*old(buf)), w0, s1);
        }
        if r1.is_err() {
            return r1;
        }
        let ghost mid = bytes_mut_seq(*buf);
        proof {
            lemma_append_empty(mid);
        }
        let r2 = if version >= 1 {
            write_compact_nullable_string(buf, &self.value)
        } else {
            write_nullable_string(buf, &self.value)
        };
        assert(bytes_mut_seq(*buf) == mid + written(s2));
        proof {
            lemma_step(bytes_mut_seq(*old(buf)), w1, s2);
        }
        if r2.is_err() {
            return r2;
        }
        let ghost mid = bytes_mut_seq(*buf);
        proof {
            lemma_append_empty(mid);
        }
        let r3 = if version >= 1 {
            write_tagged_fields(buf, &sort_by_tag(&self._unknown_tagged_fields))
        } else {
            Ok(())
        };
        assert(bytes_mut_seq(*buf) == mid + written(s3));
        proof {
            lemma_step(bytes_mut_seq(*old(buf)), w2, s3);
        }
        if r3.is_err() {
            return r3;
        }
        Ok(())
    }
}

impl Codec for AlterConfigsResource {
    type Item = AlterConfigsResource;

    open spec fn spec_read_item(s: Seq<u8>, version: i16) -> ReadOutcome<AlterConfigsResourceView> {
        AlterConfigsResource::spec_read(s, version)
    }

    open spec fn spec_write_item(v: AlterConfigsResourceView, version: i16) -> WriteOutcome {
        AlterConfigsResource::spec_write(v, version)
    }

    open spec fn canonical_item(v: AlterConfigsResourceView, version: i16) -> bool {
        AlterConfigsResource::canonical(v, version)
    }

    proof fn lemma_item_round_trip(v: AlterConfigsResourceView, version: i16, rest: Seq<u8>) {
        AlterConfigsResource::lemma_round_trip(v, version, rest);
    }

    open spec fn writable_item(v: AlterConfigsResourceView, version: i16) -> bool {
        AlterConfigsResource::writable(v, version)
    }

    proof fn lemma_item_writable(v: AlterConfigsResourceView, version: i16) {
        AlterConfigsResource::lemma_writable(v, version);
    }

    fn read_item(buf: &mut Bytes, version: i16) -> (r: Result<AlterConfigsResource, Error>) {
        AlterConfigsResource::read(buf, version)
    }

    fn write_item(item: &AlterConfigsResource, buf: &mut BytesMut, version: i16) -> (r: Result<(), Error>) {
        item.write(buf, version)
    }
}

impl Codec for AlterableConfig {
    type Item = AlterableConfig;

    open spec fn spec_read_item(s: Seq<u8>, version: i16) -> ReadOutcome<AlterableConfigView> {
        AlterableConfig::spec_read(s, version)
    }

    open spec fn spec_write_item(v: AlterableConfigView, version: i16) -> WriteOutcome {
        AlterableConfig::spec_write(v, version)
    }

    open spec fn canonical_item(v: AlterableConfigView, version: i16) -> bool {
        AlterableConfig::canonical(v, version)
    }

    proof fn lemma_item_round_trip(v: AlterableConfigView, version: i16, rest: Seq<u8>) {
        AlterableConfig::lemma_round_trip(v, version, rest);
    }

    open spec fn writable_item(v: AlterableConfigView, version: i16) -> bool {
        AlterableConfig::writable(v, version)
    }

    proof fn lemma_item_writable(v: AlterableConfigView, version: i16) {
        AlterableConfig::lemma_writable(v, version);
    }

    fn read_item(buf: &mut Bytes, version: i16) -> (r: Result<AlterableConfig, Error>) {
        AlterableConfig::read(buf, version)
    }

    fn write_item(item: &AlterableConfig, buf: &mut BytesMut, version: i16) -> (r: Result<(), Error>) {
        item.write(buf, version)
    }
}

} // verus!
