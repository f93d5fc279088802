//! The describe acls request message.
use crate::buffer::{bytes_mut_seq, bytes_seq};
use crate::error::{Error, UnsupportedVersion};
use crate::ints::{lemma_i8_roundtrip, read_i8, spec_read_i8, spec_write_i8, write_i8};
use crate::strings::{lemma_compact_nullable_string_round_trip, lemma_nullable_string_round_trip, read_compact_nullable_string, read_nullable_string, spec_read_compact_nullable_string, spec_read_nullable_string, spec_write_compact_nullable_string, spec_write_nullable_string, write_compact_nullable_string, write_nullable_string};
use crate::tagged::{lemma_sorted_by_tag_in_order, lemma_sorted_tags_fit, lemma_tagged_fields_round_trip, lemma_tagged_fields_writable, read_tagged_fields, sort_by_tag, sorted_by_tag, spec_read_tagged_fields, spec_write_tagged_fields, tags_fit, tags_in_order, write_tagged_fields};
use crate::types::{KafkaString, RawTaggedField};
use crate::wire::{ReadOutcome, ViewClone, WriteOutcome, chain, clone_vec, emit, empty_vec, fail, has_room, lemma_append_empty, lemma_chain_written, lemma_step, opt_view, read_as, read_opt_as, read_vec_as, took_front, views, written, wrote};
use bytes::{Bytes, BytesMut};
use vstd::prelude::*;

verus! {

broadcast use {crate::wire::lemma_chain_written, crate::wire::lemma_took_front_nothing, crate::wire::lemma_took_front_twice};

#[derive(Debug, PartialEq)]
pub struct DescribeAclsRequestData {
    /// The resource type.
    pub resource_type_filter: i8,
    /// The resource name, or null to match any resource name.
    pub resource_name_filter: Option<KafkaString>,
    /// The resource pattern to match.
    pub pattern_type_filter: i8,
    /// The principal to match, or null to match any principal.
    pub principal_filter: Option<KafkaString>,
    /// The host to match, or null to match any host.
    pub host_filter: Option<KafkaString>,
    /// The operation to match.
    pub operation: i8,
    /// The permission type to match.
    pub permission_type: i8,
    pub _unknown_tagged_fields: Vec<RawTaggedField>,
}

/// What a `DescribeAclsRequestData` holds, as the specification sees it.
#[verifier::ext_equal]
pub struct DescribeAclsRequestDataView {
    pub resource_type_filter: i8,
    pub resource_name_filter: Option<Seq<u8>>,
    pub pattern_type_filter: i8,
    pub principal_filter: Option<Seq<u8>>,
    pub host_filter: Option<Seq<u8>>,
    pub operation: i8,
    pub permission_type: i8,
    pub unknown_tagged_fields: Seq<(u32, Seq<u8>)>,
}

impl View for DescribeAclsRequestData {
    type V = DescribeAclsRequestDataView;

    open spec fn view(&self) -> DescribeAclsRequestDataView {
        DescribeAclsRequestDataView {
            resource_type_filter: self.resource_type_filter,
            resource_name_filter: opt_view(self.resource_name_filter),
            pattern_type_filter: self.pattern_type_filter,
            principal_filter: opt_view(self.principal_filter),
            host_filter: opt_view(self.host_filter),
            operation: self.operation,
            permission_type: self.permission_type,
            unknown_tagged_fields: views(self._unknown_tagged_fields@),
        }
    }
}

impl Clone for DescribeAclsRequestData {
    fn clone(&self) -> (r: Self)
        ensures
            r@ == self@,
    {
        let r = DescribeAclsRequestData {
            resource_type_filter: self.resource_type_filter,
            resource_name_filter: match &self.resource_name_filter {
                Some(x) => Some(x.clone()),
                None => None,
            },
            pattern_type_filter: self.pattern_type_filter,
            principal_filter: match &self.principal_filter {
                Some(x) => Some(x.clone()),
                None => None,
            },
            host_filter: match &self.host_filter {
                Some(x) => Some(x.clone()),
                None => None,
            },
            operation: self.operation,
            permission_type: self.permission_type,
            _unknown_tagged_fields: clone_vec(&self._unknown_tagged_fields),
        };
        assert(r@ =~= self@);
        r
    }
}

impl ViewClone for DescribeAclsRequestData {
    fn clone_view(&self) -> (r: Self) {
        self.clone()
    }
}

impl Default for DescribeAclsRequestData {
    fn default() -> (r: Self)
        ensures
            r@ == Self::default_view(),
    {
        let r = DescribeAclsRequestData {
            resource_type_filter: 0_i8,
            resource_name_filter: None,
            pattern_type_filter: 3i8,
            principal_filter: None,
            host_filter: None,
            operation: 0_i8,
            permission_type: 0_i8,
            _unknown_tagged_fields: empty_vec(),
        };
        assert(r@ =~= Self::default_view());
        r
    }
}

impl DescribeAclsRequestData {
    pub open spec fn default_view() -> DescribeAclsRequestDataView {
        DescribeAclsRequestDataView {
            resource_type_filter: 0_i8,
            resource_name_filter: None,
            pattern_type_filter: 3i8,
            principal_filter: None,
            host_filter: None,
            operation: 0_i8,
            permission_type: 0_i8,
            unknown_tagged_fields: Seq::empty(),
        }
    }

    /// The `resource_type_filter` field, read from the front of `s`.
    #[verifier::opaque]
    pub open spec fn spec_read_resource_type_filter(s: Seq<u8>, version: i16) -> ReadOutcome<i8> {
        spec_read_i8(s)
    }

    /// The `resource_name_filter` field, read from the front of `s`.
    #[verifier::opaque]
    pub open spec fn spec_read_resource_name_filter(s: Seq<u8>, version: i16) -> ReadOutcome<Option<Seq<u8>>> {
        if version >= 2 {
            spec_read_compact_nullable_string(s)
        } else {
            spec_read_nullable_string(s)
        }
    }

    /// The `pattern_type_filter` field, read from the front of `s`.
    #[verifier::opaque]
    pub open spec fn spec_read_pattern_type_filter(s: Seq<u8>, version: i16) -> ReadOutcome<i8> {
        spec_read_i8(s)
    }

    /// The `principal_filter` field, read from the front of `s`.
    #[verifier::opaque]
    pub open spec fn spec_read_principal_filter(s: Seq<u8>, version: i16) -> ReadOutcome<Option<Seq<u8>>> {
        if version >= 2 {
            spec_read_compact_nullable_string(s)
        } else {
            spec_read_nullable_string(s)
        }
    }

    /// The `host_filter` field, read from the front of `s`.
    #[verifier::opaque]
    pub open spec fn spec_read_host_filter(s: Seq<u8>, version: i16) -> ReadOutcome<Option<Seq<u8>>> {
        if version >= 2 {
            spec_read_compact_nullable_string(s)
        } else {
            spec_read_nullable_string(s)
        }
    }

    /// The `operation` field, read from the front of `s`.
    #[verifier::opaque]
    pub open spec fn spec_read_operation(s: Seq<u8>, version: i16) -> ReadOutcome<i8> {
        spec_read_i8(s)
    }

    /// The `permission_type` field, read from the front of `s`.
    #[verifier::opaque]
    pub open spec fn spec_read_permission_type(s: Seq<u8>, version: i16) -> ReadOutcome<i8> {
        spec_read_i8(s)
    }

    /// The tagged fields, read from the front of `s`.
    #[verifier::opaque]
    pub open spec fn spec_read_tags(s: Seq<u8>, version: i16) -> ReadOutcome<Seq<(u32, Seq<u8>)>> {
        if version >= 2 {
            spec_read_tagged_fields(s)
        } else {
            Ok((Seq::empty(), s))
        }
    }

    pub open spec fn spec_read(s: Seq<u8>, version: i16) -> ReadOutcome<DescribeAclsRequestDataView> {
        if version < 1 || version > 3 {
            Err(Error::UnsupportedVersion(UnsupportedVersion { api_key: 29, version }))
        } else {
            match (Self::spec_read_resource_type_filter(s, version)) {
                Err(e) => Err(e),
                Ok((resource_type_filter, s)) => match (Self::spec_read_resource_name_filter(s, version)) {
                    Err(e) => Err(e),
                    Ok((resource_name_filter, s)) => match (Self::spec_read_pattern_type_filter(s, version)) {
                        Err(e) => Err(e),
                        Ok((pattern_type_filter, s)) => match (Self::spec_read_principal_filter(s, version)) {
                            Err(e) => Err(e),
                            Ok((principal_filter, s)) => match (Self::spec_read_host_filter(s, version)) {
                                Err(e) => Err(e),
                                Ok((host_filter, s)) => match (Self::spec_read_operation(s, version)) {
                                    Err(e) => Err(e),
                                    Ok((operation, s)) => match (Self::spec_read_permission_type(s, version)) {
                                        Err(e) => Err(e),
                                        Ok((permission_type, s)) => match (Self::spec_read_tags(s, version)) {
                                            Err(e) => Err(e),
                                            Ok((unknown_tagged_fields, s)) => Ok((DescribeAclsRequestDataView {
                                                        resource_type_filter: resource_type_filter,
                                                        resource_name_filter: resource_name_filter,
                                                        pattern_type_filter: pattern_type_filter,
                                                        principal_filter: principal_filter,
                                                        host_filter: host_filter,
                                                        operation: operation,
                                                        permission_type: permission_type,
                                                        unknown_tagged_fields: unknown_tagged_fields,
                                                    }, s)),
                                        },
                                    },
                                },
                            },
                        },
                    },
                },
            }
        }
    }

    /// What writing the `resource_type_filter` field of `m` appends.
    #[verifier::opaque]
    pub open spec fn spec_write_resource_type_filter(m: DescribeAclsRequestDataView, version: i16) -> WriteOutcome {
        spec_write_i8(m.resource_type_filter)
    }

    /// What writing the `resource_name_filter` field of `m` appends.
    #[verifier::opaque]
    pub open spec fn spec_write_resource_name_filter(m: DescribeAclsRequestDataView, version: i16) -> WriteOutcome {
        if version >= 2 {
            spec_write_compact_nullable_string(m.resource_name_filter)
        } else {
            spec_write_nullable_string(m.resource_name_filter)
        }
    }

    /// What writing the `pattern_type_filter` field of `m` appends.
    #[verifier::opaque]
    pub open spec fn spec_write_pattern_type_filter(m: DescribeAclsRequestDataView, version: i16) -> WriteOutcome {
        spec_write_i8(m.pattern_type_filter)
    }

    /// What writing the `principal_filter` field of `m` appends.
    #[verifier::opaque]
    pub open spec fn spec_write_principal_filter(m: DescribeAclsRequestDataView, version: i16) -> WriteOutcome {
        if version >= 2 {
            spec_write_compact_nullable_string(m.principal_filter)
        } else {
            spec_write_nullable_string(m.principal_filter)
        }
    }

    /// What writing the `host_filter` field of `m` appends.
    #[verifier::opaque]
    pub open spec fn spec_write_host_filter(m: DescribeAclsRequestDataView, version: i16) -> WriteOutcome {
        if version >= 2 {
            spec_write_compact_nullable_string(m.host_filter)
        } else {
            spec_write_nullable_string(m.host_filter)
        }
    }

    /// What writing the `operation` field of `m` appends.
    #[verifier::opaque]
    pub open spec fn spec_write_operation(m: DescribeAclsRequestDataView, version: i16) -> WriteOutcome {
        spec_write_i8(m.operation)
    }

    /// What writing the `permission_type` field of `m` appends.
    #[verifier::opaque]
    pub open spec fn spec_write_permission_type(m: DescribeAclsRequestDataView, version: i16) -> WriteOutcome {
        spec_write_i8(m.permission_type)
    }

    /// What writing the tagged fields of `m` appends.
    #[verifier::opaque]
    pub open spec fn spec_write_tags(m: DescribeAclsRequestDataView, version: i16) -> WriteOutcome {
        if version >= 2 {
            spec_write_tagged_fields(sorted_by_tag(m.unknown_tagged_fields))
        } else {
            emit(Seq::empty())
        }
    }

    pub open spec fn spec_write(m: DescribeAclsRequestDataView, version: i16) -> WriteOutcome {
        if version < 1 || version > 3 {
            fail(Error::UnsupportedVersion(UnsupportedVersion { api_key: 29, version }))
        } else {
            chain(
                chain(
                    chain(
                        chain(
                            chain(
                                chain(
                                    chain(
                                        Self::spec_write_resource_type_filter(m, version),
                                        Self::spec_write_resource_name_filter(m, version),
                                    ),
                                    Self::spec_write_pattern_type_filter(m, version),
                                ),
                                Self::spec_write_principal_filter(m, version),
                            ),
                            Self::spec_write_host_filter(m, version),
                        ),
                        Self::spec_write_operation(m, version),
                    ),
                    Self::spec_write_permission_type(m, version),
                ),
                Self::spec_write_tags(m, version),
            )
        }
    }

    /// Whether reading back what writing `m` in `version` appends gives `m`:
    /// fields that the version does not carry hold their default values, and
    /// tagged fields come in the order in which they are written.
    pub open spec fn canonical(m: DescribeAclsRequestDataView, version: i16) -> bool {
        &&& (if version >= 2 {
                tags_in_order(m.unknown_tagged_fields)
            } else {
                m.unknown_tagged_fields.len() == 0
        })
    }

    proof fn lemma_round_trip_resource_type_filter(m: DescribeAclsRequestDataView, version: i16, rest: Seq<u8>)
        requires
            Self::canonical(m, version),
            Self::spec_write_resource_type_filter(m, version) is Ok,
        ensures
            Self::spec_read_resource_type_filter(written(Self::spec_write_resource_type_filter(m, version)) + rest, version) == Ok::<(i8, Seq<u8>), Error>((m.resource_type_filter, rest)),
    {
        reveal(DescribeAclsRequestData::spec_read_resource_type_filter);
        reveal(DescribeAclsRequestData::spec_write_resource_type_filter);
        lemma_i8_roundtrip(m.resource_type_filter, rest);
    }

    proof fn lemma_round_trip_resource_name_filter(m: DescribeAclsRequestDataView, version: i16, rest: Seq<u8>)
        requires
            Self::canonical(m, version),
            Self::spec_write_resource_name_filter(m, version) is Ok,
        ensures
            Self::spec_read_resource_name_filter(written(Self::spec_write_resource_name_filter(m, version)) + rest, version) == Ok::<(Option<Seq<u8>>, Seq<u8>), Error>((m.resource_name_filter, rest)),
    {
        reveal(DescribeAclsRequestData::spec_read_resource_name_filter);
        reveal(DescribeAclsRequestData::spec_write_resource_name_filter);
        if version >= 2 {
            lemma_compact_nullable_string_round_trip(m.resource_name_filter, rest);
        } else {
            lemma_nullable_string_round_trip(m.resource_name_filter, rest);
        }
    }

    proof fn lemma_round_trip_pattern_type_filter(m: DescribeAclsRequestDataView, version: i16, rest: Seq<u8>)
        requires
            Self::canonical(m, version),
            Self::spec_write_pattern_type_filter(m, version) is Ok,
        ensures
            Self::spec_read_pattern_type_filter(written(Self::spec_write_pattern_type_filter(m, version)) + rest, version) == Ok::<(i8, Seq<u8>), Error>((m.pattern_type_filter, rest)),
    {
        reveal(DescribeAclsRequestData::spec_read_pattern_type_filter);
        reveal(DescribeAclsRequestData::spec_write_pattern_type_filter);
        lemma_i8_roundtrip(m.pattern_type_filter, rest);
    }

    proof fn lemma_round_trip_principal_filter(m: DescribeAclsRequestDataView, version: i16, rest: Seq<u8>)
        requires
            Self::canonical(m, version),
            Self::spec_write_principal_filter(m, version) is Ok,
        ensures
            Self::spec_read_principal_filter(written(Self::spec_write_principal_filter(m, version)) + rest, version) == Ok::<(Option<Seq<u8>>, Seq<u8>), Error>((m.principal_filter, rest)),
    {
        reveal(DescribeAclsRequestData::spec_read_principal_filter);
        reveal(DescribeAclsRequestData::spec_write_principal_filter);
        if version >= 2 {
            lemma_compact_nullable_string_round_trip(m.principal_filter, rest);
        } else {
            lemma_nullable_string_round_trip(m.principal_filter, rest);
        }
    }

    proof fn lemma_round_trip_host_filter(m: DescribeAclsRequestDataView, version: i16, rest: Seq<u8>)
        requires
            Self::canonical(m, version),
            Self::spec_write_host_filter(m, version) is Ok,
        ensures
            Self::spec_read_host_filter(written(Self::spec_write_host_filter(m, version)) + rest, version) == Ok::<(Option<Seq<u8>>, Seq<u8>), Error>((m.host_filter, rest)),
    {
        reveal(DescribeAclsRequestData::spec_read_host_filter);
        reveal(DescribeAclsRequestData::spec_write_host_filter);
        if version >= 2 {
            lemma_compact_nullable_string_round_trip(m.host_filter, rest);
        } else {
            lemma_nullable_string_round_trip(m.host_filter, rest);
        }
    }

    proof fn lemma_round_trip_operation(m: DescribeAclsRequestDataView, version: i16, rest: Seq<u8>)
        requires
            Self::canonical(m, version),
            Self::spec_write_operation(m, version) is Ok,
        ensures
            Self::spec_read_operation(written(Self::spec_write_operation(m, version)) + rest, version) == Ok::<(i8, Seq<u8>), Error>((m.operation, rest)),
    {
        reveal(DescribeAclsRequestData::spec_read_operation);
        reveal(DescribeAclsRequestData::spec_write_operation);
        lemma_i8_roundtrip(m.operation, rest);
    }

    proof fn lemma_round_trip_permission_type(m: DescribeAclsRequestDataView, version: i16, rest: Seq<u8>)
        requires
            Self::canonical(m, version),
            Self::spec_write_permission_type(m, version) is Ok,
        ensures
            Self::spec_read_permission_type(written(Self::spec_write_permission_type(m, version)) + rest, version) == Ok::<(i8, Seq<u8>), Error>((m.permission_type, rest)),
    {
        reveal(DescribeAclsRequestData::spec_read_permission_type);
        reveal(DescribeAclsRequestData::spec_write_permission_type);
        lemma_i8_roundtrip(m.permission_type, rest);
    }

    proof fn lemma_round_trip_tags(m: DescribeAclsRequestDataView, version: i16, rest: Seq<u8>)
        requires
            Self::canonical(m, version),
            Self::spec_write_tags(m, version) is Ok,
        ensures
            Self::spec_read_tags(written(Self::spec_write_tags(m, version)) + rest, version) == Ok::<(Seq<(u32, Seq<u8>)>, Seq<u8>), Error>((m.unknown_tagged_fields, rest)),
    {
        reveal(DescribeAclsRequestData::spec_read_tags);
        reveal(DescribeAclsRequestData::spec_write_tags);
        if version >= 2 {
            lemma_sorted_by_tag_in_order(m.unknown_tagged_fields);
            lemma_tagged_fields_round_trip(m.unknown_tagged_fields, rest);
        } else {
            assert(Seq::<u8>::empty() + rest =~= rest);
            assert(m.unknown_tagged_fields =~= Seq::empty());
        }
    }

    /// Reading back what writing `m` in `version` appends gives `m` again, and
    /// leaves what follows, for every canonical message whose write succeeds.
    #[verifier::rlimit(100)]
    #[verifier::spinoff_prover]
    pub proof fn lemma_round_trip(m: DescribeAclsRequestDataView, version: i16, rest: Seq<u8>)
        requires
            Self::canonical(m, version),
            Self::spec_write(m, version) is Ok,
        ensures
            Self::spec_read(written(Self::spec_write(m, version)) + rest, version) == Ok::<(DescribeAclsRequestDataView, Seq<u8>), Error>((m, rest)),
    {
        let b0 = written(Self::spec_write_resource_type_filter(m, version));
        let b1 = written(Self::spec_write_resource_name_filter(m, version));
        let b2 = written(Self::spec_write_pattern_type_filter(m, version));
        let b3 = written(Self::spec_write_principal_filter(m, version));
        let b4 = written(Self::spec_write_host_filter(m, version));
        let b5 = written(Self::spec_write_operation(m, version));
        let b6 = written(Self::spec_write_permission_type(m, version));
        let b7 = written(Self::spec_write_tags(m, version));
        let t8 = rest;
        let t7 = b7 + t8;
        let t6 = b6 + t7;
        let t5 = b5 + t6;
        let t4 = b4 + t5;
        let t3 = b3 + t4;
        let t2 = b2 + t3;
        let t1 = b1 + t2;
        let t0 = b0 + t1;
        let w0 = Self::spec_write_resource_type_filter(m, version);
        let w1 = chain(w0, Self::spec_write_resource_name_filter(m, version));
        let w2 = chain(w1, Self::spec_write_pattern_type_filter(m, version));
        let w3 = chain(w2, Self::spec_write_principal_filter(m, version));
        let w4 = chain(w3, Self::spec_write_host_filter(m, version));
        let w5 = chain(w4, Self::spec_write_operation(m, version));
        let w6 = chain(w5, Self::spec_write_permission_type(m, version));
        let w7 = chain(w6, Self::spec_write_tags(m, version));
        assert(Self::spec_write(m, version) == w7);
        assert(written(w7) + t8 =~= written(w6) + t7);
        assert(written(w6) + t7 =~= written(w5) + t6);
        assert(written(w5) + t6 =~= written(w4) + t5);
        assert(written(w4) + t5 =~= written(w3) + t4);
        assert(written(w3) + t4 =~= written(w2) + t3);
        assert(written(w2) + t3 =~= written(w1) + t2);
        assert(written(w1) + t2 =~= written(w0) + t1);
        Self::lemma_round_trip_resource_type_filter(m, version, t1);
        Self::lemma_round_trip_resource_name_filter(m, version, t2);
        Self::lemma_round_trip_pattern_type_filter(m, version, t3);
        Self::lemma_round_trip_principal_filter(m, version, t4);
        Self::lemma_round_trip_host_filter(m, version, t5);
        Self::lemma_round_trip_operation(m, version, t6);
        Self::lemma_round_trip_permission_type(m, version, t7);
        Self::lemma_round_trip_tags(m, version, t8);
    }

    /// In a version that does not carry `unknown_tagged_fields`, writing ignores its value.
    pub proof fn lemma_write_ignores_unknown_tagged_fields(m: DescribeAclsRequestDataView, value: Seq<(u32, Seq<u8>)>, version: i16)
        requires
            !(version >= 2),
        ensures
            Self::spec_write((DescribeAclsRequestDataView { unknown_tagged_fields: value, ..m }), version) == Self::spec_write(m, version),
    {
        reveal(DescribeAclsRequestData::spec_write_resource_type_filter);
        reveal(DescribeAclsRequestData::spec_write_resource_name_filter);
        reveal(DescribeAclsRequestData::spec_write_pattern_type_filter);
        reveal(DescribeAclsRequestData::spec_write_principal_filter);
        reveal(DescribeAclsRequestData::spec_write_host_filter);
        reveal(DescribeAclsRequestData::spec_write_operation);
        reveal(DescribeAclsRequestData::spec_write_permission_type);
        reveal(DescribeAclsRequestData::spec_write_tags);
    }

    /// The default message holds the default value of each field of the schema.
    pub proof fn lemma_default_values()
        ensures
            Self::default_view().resource_type_filter == (0_i8),
            (Self::default_view().resource_name_filter is None),
            Self::default_view().pattern_type_filter == (3i8),
            (Self::default_view().principal_filter is None),
            (Self::default_view().host_filter is None),
            Self::default_view().operation == (0_i8),
            Self::default_view().permission_type == (0_i8),
            Self::default_view().unknown_tagged_fields.len() == 0,
    {
    }

    /// Each integer, boolean and identifier field is written as its standard
    /// big-endian bytes (a boolean as `1` or `0`) in the versions that carry
    /// it, and as nothing in the others; reading it takes those bytes back (any
    /// byte other than `0` reads as `true`), or gives its default value.
    pub proof fn lemma_field_encodings(m: DescribeAclsRequestDataView, s: Seq<u8>, version: i16)
        ensures
            true ==> Self::spec_write_resource_type_filter(m, version) == Ok::<Seq<u8>, (Error, Seq<u8>)>(seq![m.resource_type_filter as u8]),
            true ==> Self::spec_write_pattern_type_filter(m, version) == Ok::<Seq<u8>, (Error, Seq<u8>)>(seq![m.pattern_type_filter as u8]),
            true ==> Self::spec_write_operation(m, version) == Ok::<Seq<u8>, (Error, Seq<u8>)>(seq![m.operation as u8]),
            true ==> Self::spec_write_permission_type(m, version) == Ok::<Seq<u8>, (Error, Seq<u8>)>(seq![m.permission_type as u8]),
            true ==> Self::spec_read_resource_type_filter(s, version) == (if s.len() < 1 { Err(Error::UnexpectedEof) } else { Ok((s[0] as i8, s.drop_first())) }),
            true ==> Self::spec_read_pattern_type_filter(s, version) == (if s.len() < 1 { Err(Error::UnexpectedEof) } else { Ok((s[0] as i8, s.drop_first())) }),
            true ==> Self::spec_read_operation(s, version) == (if s.len() < 1 { Err(Error::UnexpectedEof) } else { Ok((s[0] as i8, s.drop_first())) }),
            true ==> Self::spec_read_permission_type(s, version) == (if s.len() < 1 { Err(Error::UnexpectedEof) } else { Ok((s[0] as i8, s.drop_first())) }),
    {
        reveal(DescribeAclsRequestData::spec_write_resource_type_filter);
        reveal(DescribeAclsRequestData::spec_read_resource_type_filter);
        reveal(DescribeAclsRequestData::spec_write_pattern_type_filter);
        reveal(DescribeAclsRequestData::spec_read_pattern_type_filter);
        reveal(DescribeAclsRequestData::spec_write_operation);
        reveal(DescribeAclsRequestData::spec_read_operation);
        reveal(DescribeAclsRequestData::spec_write_permission_type);
        reveal(DescribeAclsRequestData::spec_read_permission_type);
    }

    /// Whether writing `m` in `version` succeeds, said over its parts: the
    /// version is one the schema covers, every field that the version cannot
    /// carry holds its default value, and every string, byte string, array and
    /// tagged field fits its length prefix.
    pub open spec fn writable(m: DescribeAclsRequestDataView, version: i16) -> bool {
        &&& 1 <= version <= 3
        &&& (m.resource_name_filter matches Some(b) ==> b.len() <= 0x7fff)
        &&& (m.principal_filter matches Some(b) ==> b.len() <= 0x7fff)
        &&& (m.host_filter matches Some(b) ==> b.len() <= 0x7fff)
        &&& (if version >= 2 {
                m.unknown_tagged_fields.len() <= u32::MAX && tags_fit(m.unknown_tagged_fields)
            } else {
                true
        })
    }

    proof fn lemma_writable_resource_type_filter(m: DescribeAclsRequestDataView, version: i16)
        ensures
            Self::spec_write_resource_type_filter(m, version) is Ok <==> true,
    {
        reveal(DescribeAclsRequestData::spec_write_resource_type_filter);
    }

    proof fn lemma_writable_resource_name_filter(m: DescribeAclsRequestDataView, version: i16)
        ensures
            Self::spec_write_resource_name_filter(m, version) is Ok <==> (m.resource_name_filter matches Some(b) ==> b.len() <= 0x7fff),
    {
        reveal(DescribeAclsRequestData::spec_write_resource_name_filter);
    }

    proof fn lemma_writable_pattern_type_filter(m: DescribeAclsRequestDataView, version: i16)
        ensures
            Self::spec_write_pattern_type_filter(m, version) is Ok <==> true,
    {
        reveal(DescribeAclsRequestData::spec_write_pattern_type_filter);
    }

    proof fn lemma_writable_principal_filter(m: DescribeAclsRequestDataView, version: i16)
        ensures
            Self::spec_write_principal_filter(m, version) is Ok <==> (m.principal_filter matches Some(b) ==> b.len() <= 0x7fff),
    {
        reveal(DescribeAclsRequestData::spec_write_principal_filter);
    }

    proof fn lemma_writable_host_filter(m: DescribeAclsRequestDataView, version: i16)
        ensures
            Self::spec_write_host_filter(m, version) is Ok <==> (m.host_filter matches Some(b) ==> b.len() <= 0x7fff),
    {
        reveal(DescribeAclsRequestData::spec_write_host_filter);
    }

    proof fn lemma_writable_operation(m: DescribeAclsRequestDataView, version: i16)
        ensures
            Self::spec_write_operation(m, version) is Ok <==> true,
    {
        reveal(DescribeAclsRequestData::spec_write_operation);
    }

    proof fn lemma_writable_permission_type(m: DescribeAclsRequestDataView, version: i16)
        ensures
            Self::spec_write_permission_type(m, version) is Ok <==> true,
    {
        reveal(DescribeAclsRequestData::spec_write_permission_type);
    }

    proof fn lemma_writable_tags(m: DescribeAclsRequestDataView, version: i16)
        ensures
            Self::spec_write_tags(m, version) is Ok <==> (if version >= 2 { m.unknown_tagged_fields.len() <= u32::MAX && tags_fit(m.unknown_tagged_fields) } else { true }),
    {
        reveal(DescribeAclsRequestData::spec_write_tags);
        if version >= 2 {
            lemma_sorted_tags_fit(m.unknown_tagged_fields);
            lemma_tagged_fields_writable(sorted_by_tag(m.unknown_tagged_fields));
        }
    }

    /// Writing `m` in `version` succeeds exactly when `m` is writable in it;
    /// so do `write` and `encoded_len`, whose results follow `spec_write`.
    #[verifier::rlimit(78)]
    pub proof fn lemma_writable(m: DescribeAclsRequestDataView, version: i16)
        ensures
            Self::spec_write(m, version) is Ok <==> Self::writable(m, version),
    {
        Self::lemma_writable_resource_type_filter(m, version);
        Self::lemma_writable_resource_name_filter(m, version);
        Self::lemma_writable_pattern_type_filter(m, version);
        Self::lemma_writable_principal_filter(m, version);
        Self::lemma_writable_host_filter(m, version);
        Self::lemma_writable_operation(m, version);
        Self::lemma_writable_permission_type(m, version);
        Self::lemma_writable_tags(m, version);
    }

    /// A version outside the range that the schema covers is refused, by
    /// reads and by writes alike, before anything is read or written.
    pub proof fn lemma_refused_version(m: DescribeAclsRequestDataView, s: Seq<u8>, version: i16)
        requires
            version < 1 || version > 3,
        ensures
            Self::spec_read(s, version) == Err::<(DescribeAclsRequestDataView, Seq<u8>), Error>(Error::UnsupportedVersion(UnsupportedVersion { api_key: 29, version })),
            Self::spec_write(m, version) == fail(Error::UnsupportedVersion(UnsupportedVersion { api_key: 29, version })),
    {
    }

    fn read_resource_type_filter(buf: &mut Bytes, version: i16) -> (r: Result<i8, Error>)
        ensures
            read_as(Self::spec_read_resource_type_filter(bytes_seq(*old(buf)), version), *final(buf), r),
            took_front(*old(buf), *final(buf)),
    {
        proof {
            reveal(DescribeAclsRequestData::spec_read_resource_type_filter);
        }
        Ok(read_i8(buf)?)
    }

    fn read_resource_name_filter(buf: &mut Bytes, version: i16) -> (r: Result<Option<KafkaString>, Error>)
        ensures
            read_opt_as(Self::spec_read_resource_name_filter(bytes_seq(*old(buf)), version), *final(buf), r),
            took_front(*old(buf), *final(buf)),
    {
        proof {
            reveal(DescribeAclsRequestData::spec_read_resource_name_filter);
        }
        Ok(if version >= 2 {
                read_compact_nullable_string(buf)?
            } else {
                read_nullable_string(buf)?
        })
    }

    fn read_pattern_type_filter(buf: &mut Bytes, version: i16) -> (r: Result<i8, Error>)
        ensures
            read_as(Self::spec_read_pattern_type_filter(bytes_seq(*old(buf)), version), *final(buf), r),
            took_front(*old(buf), *final(buf)),
    {
        proof {
            reveal(DescribeAclsRequestData::spec_read_pattern_type_filter);
        }
        Ok(read_i8(buf)?)
    }

    fn read_principal_filter(buf: &mut Bytes, version: i16) -> (r: Result<Option<KafkaString>, Error>)
        ensures
            read_opt_as(Self::spec_read_principal_filter(bytes_seq(*old(buf)), version), *final(buf), r),
            took_front(*old(buf), *final(buf)),
    {
        proof {
            reveal(DescribeAclsRequestData::spec_read_principal_filter);
        }
        Ok(if version >= 2 {
                read_compact_nullable_string(buf)?
            } else {
                read_nullable_string(buf)?
        })
    }

    fn read_host_filter(buf: &mut Bytes, version: i16) -> (r: Result<Option<KafkaString>, Error>)
        ensures
            read_opt_as(Self::spec_read_host_filter(bytes_seq(*old(buf)), version), *final(buf), r),
            took_front(*old(buf), *final(buf)),
    {
        proof {
            reveal(DescribeAclsRequestData::spec_read_host_filter);
        }
        Ok(if version >= 2 {
                read_compact_nullable_string(buf)?
            } else {
                read_nullable_string(buf)?
        })
    }

    fn read_operation(buf: &mut Bytes, version: i16) -> (r: Result<i8, Error>)
        ensures
            read_as(Self::spec_read_operation(bytes_seq(*old(buf)), version), *final(buf), r),
            took_front(*old(buf), *final(buf)),
    {
        proof {
            reveal(DescribeAclsRequestData::spec_read_operation);
        }
        Ok(read_i8(buf)?)
    }

    fn read_permission_type(buf: &mut Bytes, version: i16) -> (r: Result<i8, Error>)
        ensures
            read_as(Self::spec_read_permission_type(bytes_seq(*old(buf)), version), *final(buf), r),
            took_front(*old(buf), *final(buf)),
    {
        proof {
            reveal(DescribeAclsRequestData::spec_read_permission_type);
        }
        Ok(read_i8(buf)?)
    }

    fn read_tags(buf: &mut Bytes, version: i16) -> (r: Result<Vec<RawTaggedField>, Error>)
        ensures
            read_vec_as(Self::spec_read_tags(bytes_seq(*old(buf)), version), *final(buf), r),
            took_front(*old(buf), *final(buf)),
    {
        proof {
            reveal(DescribeAclsRequestData::spec_read_tags);
        }
        Ok(if version >= 2 {
                read_tagged_fields(buf)?
            } else {
                empty_vec()
        })
    }

    #[verifier::rlimit(68)]
    #[verifier::spinoff_prover]
    pub fn read(buf: &mut Bytes, version: i16) -> (r: Result<Self, Error>)
        ensures
            read_as(Self::spec_read(bytes_seq(*old(buf)), version), *final(buf), r),
            took_front(*old(buf), *final(buf)),
            (version < 1 || version > 3) ==> bytes_seq(*final(buf)) == bytes_seq(*old(buf)),
    {
        if version < 1 || version > 3 {
            return Err(Error::UnsupportedVersion(UnsupportedVersion::new(29, version)));
        }
        let resource_type_filter = Self::read_resource_type_filter(buf, version)?;
        let resource_name_filter = Self::read_resource_name_filter(buf, version)?;
        let pattern_type_filter = Self::read_pattern_type_filter(buf, version)?;
        let principal_filter = Self::read_principal_filter(buf, version)?;
        let host_filter = Self::read_host_filter(buf, version)?;
        let operation = Self::read_operation(buf, version)?;
        let permission_type = Self::read_permission_type(buf, version)?;
        let _unknown_tagged_fields = Self::read_tags(buf, version)?;
        Ok(DescribeAclsRequestData {
                resource_type_filter: resource_type_filter,
                resource_name_filter: resource_name_filter,
                pattern_type_filter: pattern_type_filter,
                principal_filter: principal_filter,
                host_filter: host_filter,
                operation: operation,
                permission_type: permission_type,
                _unknown_tagged_fields: _unknown_tagged_fields,
        })
    }

    #[verifier::rlimit(100)]
    #[verifier::spinoff_prover]
    pub fn write(&self, buf: &mut BytesMut, version: i16) -> (r: Result<(), Error>)
        requires
            has_room(Self::spec_write(self@, version), *old(buf)),
        ensures
            wrote(Self::spec_write(self@, version), *old(buf), *final(buf), r),
    {
        if version < 1 || version > 3 {
            return Err(Error::UnsupportedVersion(UnsupportedVersion::new(29, version)));
        }
        let ghost m = self@;
        proof {
            reveal(DescribeAclsRequestData::spec_write_resource_type_filter);
            reveal(DescribeAclsRequestData::spec_write_resource_name_filter);
            reveal(DescribeAclsRequestData::spec_write_pattern_type_filter);
            reveal(DescribeAclsRequestData::spec_write_principal_filter);
            reveal(DescribeAclsRequestData::spec_write_host_filter);
            reveal(DescribeAclsRequestData::spec_write_operation);
            reveal(DescribeAclsRequestData::spec_write_permission_type);
            reveal(DescribeAclsRequestData::spec_write_tags);
        }
        let ghost s0 = Self::spec_write_resource_type_filter(m, version);
        let ghost w0 = s0;
        let ghost s1 = Self::spec_write_resource_name_filter(m, version);
        let ghost w1 = chain(w0, s1);
        let ghost s2 = Self::spec_write_pattern_type_filter(m, version);
        let ghost w2 = chain(w1, s2);
        let ghost s3 = Self::spec_write_principal_filter(m, version);
        let ghost w3 = chain(w2, s3);
        let ghost s4 = Self::spec_write_host_filter(m, version);
        let ghost w4 = chain(w3, s4);
        let ghost s5 = Self::spec_write_operation(m, version);
        let ghost w5 = chain(w4, s5);
        let ghost s6 = Self::spec_write_permission_type(m, version);
        let ghost w6 = chain(w5, s6);
        let ghost s7 = Self::spec_write_tags(m, version);
        let ghost w7 = chain(w6, s7);
        assert(Self::spec_write(m, version) == w7);
        assert(written(w6).len() <= written(w7).len() && (w6 is Err ==> w7 == w6));
        assert(written(w5).len() <= written(w7).len() && (w5 is Err ==> w7 == w5));
        assert(written(w4).len() <= written(w7).len() && (w4 is Err ==> w7 == w4));
        assert(written(w3).len() <= written(w7).len() && (w3 is Err ==> w7 == w3));
        assert(written(w2).len() <= written(w7).len() && (w2 is Err ==> w7 == w2));
        assert(written(w1).len() <= written(w7).len() && (w1 is Err ==> w7 == w1));
        assert(written(w0).len() <= written(w7).len() && (w0 is Err ==> w7 == w0));
        let ghost mid = bytes_mut_seq(*buf);
        proof {
            lemma_append_empty(mid);
        }
        let r0 = {
            write_i8(buf, self.resource_type_filter);
            Ok(())
        };
        assert(bytes_mut_seq(*buf) == mid + written(s0));
        if r0.is_err() {
            return r0;
        }
        let ghost mid = bytes_mut_seq(*buf);
        proof {
            lemma_append_empty(mid);
        }
        let r1 = if version >= 2 {
            write_compact_nullable_string(buf, &self.resource_name_filter)
        } else {
            write_nullable_string(buf, &self.resource_name_filter)
        };
        assert(bytes_mut_seq(*buf) == mid + written(s1));
        proof {
            lemma_step(bytes_mut_seq(*old(buf)), w0, s1);
        }
        if r1.is_err() {
            return r1;
        }
        let ghost mid = bytes_mut_seq(*buf);
        proof {
            lemma_append_empty(mid);
        }
        let r2 = {
            write_i8(buf, self.pattern_type_filter);
            Ok(())
        };
        assert(bytes_mut_seq(*buf) == mid + written(s2));
        proof {
            lemma_step(bytes_mut_seq(*old(buf)), w1, s2);
        }
        if r2.is_err() {
            return r2;
        }
        let ghost mid = bytes_mut_seq(*buf);
        proof {
            lemma_append_empty(mid);
        }
        let r3 = if version >= 2 {
            write_compact_nullable_string(buf, &self.principal_filter)
        } else {
            write_nullable_string(buf, &self.principal_filter)
        };
        assert(bytes_mut_seq(*buf) == mid + written(s3));
        proof {
            lemma_step(bytes_mut_seq(*old(buf)), w2, s3);
        }
        if r3.is_err() {
            return r3;
        }
        let ghost mid = bytes_mut_seq(*buf);
        proof {
            lemma_append_empty(mid);
        }
        let r4 = if version >= 2 {
            write_compact_nullable_string(buf, &self.host_filter)
        } else {
            write_nullable_string(buf, &self.host_filter)
        };
        assert(bytes_mut_seq(*buf) == mid + written(s4));
        proof {
            lemma_step(bytes_mut_seq(*old(buf)), w3, s4);
        }
        if r4.is_err() {
            return r4;
        }
        let ghost mid = bytes_mut_seq(*buf);
        proof {
            lemma_append_empty(mid);
        }
        let r5 = {
            write_i8(buf, self.operation);
            Ok(())
        };
        assert(bytes_mut_seq(*buf) == mid + written(s5));
        proof {
            lemma_step(bytes_mut_seq(*old(buf)), w4, s5);
        }
        if r5.is_err() {
            return r5;
        }
        let ghost mid = bytes_mut_seq(*buf);
        proof {
            lemma_append_empty(mid);
        }
        let r6 = {
            write_i8(buf, self.permission_type);
            Ok(())
        };
        assert(bytes_mut_seq(*buf) == mid + written(s6));
        proof {
            lemma_step(bytes_mut_seq(*old(buf)), w5, s6);
        }
        if r6.is_err() {
            return r6;
        }
        let ghost mid = bytes_mut_seq(*buf);
        proof {
            lemma_append_empty(mid);
        }
        let r7 = if version >= 2 {
            write_tagged_fields(buf, &sort_by_tag(&self._unknown_tagged_fields))
        } else {
            Ok(())
        };
        assert(bytes_mut_seq(*buf) == mid + written(s7));
        proof {
            lemma_step(bytes_mut_seq(*old(buf)), w6, s7);
        }
        if r7.is_err() {
            return r7;
        }
        Ok(())
    }
}

} // verus!
