//! The describe client quotas request message.
use crate::buffer::{bytes_mut_seq, bytes_seq};
use crate::codec::{Codec, MeasuredCodec, all_canonical, all_writable, array_len, lemma_array_round_trip, lemma_array_writable, read_array, saturating_sum, spec_read_array, spec_write_array, write_array};
use crate::error::{Error, UnsupportedVersion};
use crate::ints::{lemma_bool_roundtrip, lemma_i8_roundtrip, read_bool, read_i8, spec_read_bool, spec_read_i8, spec_write_bool, spec_write_i8, write_bool, write_i8};
use crate::strings::{compact_nullable_string_len, compact_string_len, lemma_compact_nullable_string_round_trip, lemma_compact_string_round_trip, lemma_nullable_string_round_trip, lemma_string_round_trip, nullable_string_len, read_compact_nullable_string, read_compact_string, read_nullable_string, read_string, spec_read_compact_nullable_string, spec_read_compact_string, spec_read_nullable_string, spec_read_string, spec_write_compact_nullable_string, spec_write_compact_string, spec_write_nullable_string, spec_write_string, string_len, write_compact_nullable_string, write_compact_string, write_nullable_string, write_string};
use crate::tagged::{lemma_sorted_by_tag_in_order, lemma_sorted_tags_fit, lemma_tagged_fields_round_trip, lemma_tagged_fields_writable, read_tagged_fields, sort_by_tag, sorted_by_tag, spec_read_tagged_fields, spec_write_tagged_fields, tagged_fields_len, tags_fit, tags_in_order, write_tagged_fields};
use crate::types::{KafkaString, RawTaggedField};
use crate::wire::{ReadOutcome, ViewClone, WriteOutcome, chain, clone_vec, emit, empty_vec, fail, has_room, lemma_append_empty, lemma_chain_written, lemma_len_step, lemma_step, len_result, opt_view, read_as, read_opt_as, read_vec_as, saturate, took_front, views, written, wrote};
use bytes::{Bytes, BytesMut};
use vstd::prelude::*;

verus! {

broadcast use {crate::wire::lemma_chain_written, crate::wire::lemma_took_front_nothing, crate::wire::lemma_took_front_twice};

#[derive(Debug, PartialEq)]
pub struct DescribeClientQuotasRequestData {
    /// Filter components to apply to quota entities.
    pub components: Vec<ComponentData>,
    /// Whether the match is strict, i.e. should exclude entities with unspecified entity types.
    pub strict: bool,
    pub _unknown_tagged_fields: Vec<RawTaggedField>,
}

/// What a `DescribeClientQuotasRequestData` holds, as the specification sees it.
#[verifier::ext_equal]
pub struct DescribeClientQuotasRequestDataView {
    pub components: Seq<ComponentDataView>,
    pub strict: bool,
    pub unknown_tagged_fields: Seq<(u32, Seq<u8>)>,
}

impl View for DescribeClientQuotasRequestData {
    type V = DescribeClientQuotasRequestDataView;

    open spec fn view(&self) -> DescribeClientQuotasRequestDataView {
        DescribeClientQuotasRequestDataView {
            components: views(self.components@),
            strict: self.strict,
            unknown_tagged_fields: views(self._unknown_tagged_fields@),
        }
    }
}

impl Clone for DescribeClientQuotasRequestData {
    fn clone(&self) -> (r: Self)
        ensures
            r@ == self@,
    {
        let r = DescribeClientQuotasRequestData {
            components: clone_vec(&self.components),
            strict: self.strict,
            _unknown_tagged_fields: clone_vec(&self._unknown_tagged_fields),
        };
        assert(r@ =~= self@);
        r
    }
}

impl ViewClone for DescribeClientQuotasRequestData {
    fn clone_view(&self) -> (r: Self) {
        self.clone()
    }
}

impl Default for DescribeClientQuotasRequestData {
    fn default() -> (r: Self)
        ensures
            r@ == Self::default_view(),
    {
        let r = DescribeClientQuotasRequestData {
            components: empty_vec(),
            strict: false,
            _unknown_tagged_fields: empty_vec(),
        };
        assert(r@ =~= Self::default_view());
        r
    }
}

impl DescribeClientQuotasRequestData {
    pub open spec fn default_view() -> DescribeClientQuotasRequestDataView {
        DescribeClientQuotasRequestDataView {
            components: Seq::empty(),
            strict: false,
            unknown_tagged_fields: Seq::empty(),
        }
    }

    /// The `components` field, read from the front of `s`.
    #[verifier::opaque]
    pub open spec fn spec_read_components(s: Seq<u8>, version: i16) -> ReadOutcome<Seq<ComponentDataView>> {
        if version >= 1 {
            spec_read_array::<ComponentData>(s, version, true)
        } else {
            spec_read_array::<ComponentData>(s, version, false)
        }
    }

    /// The `strict` field, read from the front of `s`.
    #[verifier::opaque]
    pub open spec fn spec_read_strict(s: Seq<u8>, version: i16) -> ReadOutcome<bool> {
        spec_read_bool(s)
    }

    /// The tagged fields, read from the front of `s`.
    #[verifier::opaque]
    pub open spec fn spec_read_tags(s: Seq<u8>, version: i16) -> ReadOutcome<Seq<(u32, Seq<u8>)>> {
        if version >= 1 {
            spec_read_tagged_fields(s)
        } else {
            Ok((Seq::empty(), s))
        }
    }

    pub open spec fn spec_read(s: Seq<u8>, version: i16) -> ReadOutcome<DescribeClientQuotasRequestDataView> {
        if version < 0 || version > 1 {
            Err(Error::UnsupportedVersion(UnsupportedVersion { api_key: 48, version }))
        } else {
            match (Self::spec_read_components(s, version)) {
                Err(e) => Err(e),
                Ok((components, s)) => match (Self::spec_read_strict(s, version)) {
                    Err(e) => Err(e),
                    Ok((strict, s)) => match (Self::spec_read_tags(s, version)) {
                        Err(e) => Err(e),
                        Ok((unknown_tagged_fields, s)) => Ok((DescribeClientQuotasRequestDataView {
                                    components: components,
                                    strict: strict,
                                    unknown_tagged_fields: unknown_tagged_fields,
                                }, s)),
                    },
                },
            }
        }
    }

    /// What writing the `components` field of `m` appends.
    #[verifier::opaque]
    pub open spec fn spec_write_components(m: DescribeClientQuotasRequestDataView, version: i16) -> WriteOutcome {
        if version >= 1 {
            spec_write_array::<ComponentData>(m.components, version, true)
        } else {
            spec_write_array::<ComponentData>(m.components, version, false)
        }
    }

    /// What writing the `strict` field of `m` appends.
    #[verifier::opaque]
    pub open spec fn spec_write_strict(m: DescribeClientQuotasRequestDataView, version: i16) -> WriteOutcome {
        spec_write_bool(m.strict)
    }

    /// What writing the tagged fields of `m` appends.
    #[verifier::opaque]
    pub open spec fn spec_write_tags(m: DescribeClientQuotasRequestDataView, version: i16) -> WriteOutcome {
        if version >= 1 {
            spec_write_tagged_fields(sorted_by_tag(m.unknown_tagged_fields))
        } else {
            emit(Seq::empty())
        }
    }

    pub open spec fn spec_write(m: DescribeClientQuotasRequestDataView, version: i16) -> WriteOutcome {
        if version < 0 || version > 1 {
            fail(Error::UnsupportedVersion(UnsupportedVersion { api_key: 48, version }))
        } else {
            chain(
                chain(
                    Self::spec_write_components(m, version),
                    Self::spec_write_strict(m, version),
                ),
                Self::spec_write_tags(m, version),
            )
        }
    }

    /// Whether reading back what writing `m` in `version` appends gives `m`:
    /// fields that the version does not carry hold their default values, and
    /// tagged fields come in the order in which they are written.
    pub open spec fn canonical(m: DescribeClientQuotasRequestDataView, version: i16) -> bool {
        &&& all_canonical::<ComponentData>(m.components, version)
        &&& (if version >= 1 {
                tags_in_order(m.unknown_tagged_fields)
            } else {
                m.unknown_tagged_fields.len() == 0
        })
    }

    proof fn lemma_round_trip_components(m: DescribeClientQuotasRequestDataView, version: i16, rest: Seq<u8>)
        requires
            Self::canonical(m, version),
            Self::spec_write_components(m, version) is Ok,
        ensures
            Self::spec_read_components(written(Self::spec_write_components(m, version)) + rest, version) == Ok::<(Seq<ComponentDataView>, Seq<u8>), Error>((m.components, rest)),
    {
        reveal(DescribeClientQuotasRequestData::spec_read_components);
        reveal(DescribeClientQuotasRequestData::spec_write_components);
        if version >= 1 {
            lemma_array_round_trip::<ComponentData>(m.components, version, true, rest);
        } else {
            lemma_array_round_trip::<ComponentData>(m.components, version, false, rest);
        }
    }

    proof fn lemma_round_trip_strict(m: DescribeClientQuotasRequestDataView, version: i16, rest: Seq<u8>)
        requires
            Self::canonical(m, version),
            Self::spec_write_strict(m, version) is Ok,
        ensures
            Self::spec_read_strict(written(Self::spec_write_strict(m, version)) + rest, version) == Ok::<(bool, Seq<u8>), Error>((m.strict, rest)),
    {
        reveal(DescribeClientQuotasRequestData::spec_read_strict);
        reveal(DescribeClientQuotasRequestData::spec_write_strict);
        lemma_bool_roundtrip(m.strict, rest);
    }

    proof fn lemma_round_trip_tags(m: DescribeClientQuotasRequestDataView, version: i16, rest: Seq<u8>)
        requires
            Self::canonical(m, version),
            Self::spec_write_tags(m, version) is Ok,
        ensures
            Self::spec_read_tags(written(Self::spec_write_tags(m, version)) + rest, version) == Ok::<(Seq<(u32, Seq<u8>)>, Seq<u8>), Error>((m.unknown_tagged_fields, rest)),
    {
        reveal(DescribeClientQuotasRequestData::spec_read_tags);
        reveal(DescribeClientQuotasRequestData::spec_write_tags);
        if version >= 1 {
            lemma_sorted_by_tag_in_order(m.unknown_tagged_fields);
            lemma_tagged_fields_round_trip(m.unknown_tagged_fields, rest);
        } else {
            assert(Seq::<u8>::empty() + rest =~= rest);
            assert(m.unknown_tagged_fields =~= Seq::empty());
        }
    }

    /// Reading back what writing `m` in `version` appends gives `m` again, and
    /// leaves what follows, for every canonical message whose write succeeds.
    #[verifier::rlimit(70)]
    #[verifier::spinoff_prover]
    pub proof fn lemma_round_trip(m: DescribeClientQuotasRequestDataView, version: i16, rest: Seq<u8>)
        requires
            Self::canonical(m, version),
            Self::spec_write(m, version) is Ok,
        ensures
            Self::spec_read(written(Self::spec_write(m, version)) + rest, version) == Ok::<(DescribeClientQuotasRequestDataView, Seq<u8>), Error>((m, rest)),
    {
        let b0 = written(Self::spec_write_components(m, version));
        let b1 = written(Self::spec_write_strict(m, version));
        let b2 = written(Self::spec_write_tags(m, version));
        let t3 = rest;
        let t2 = b2 + t3;
        let t1 = b1 + t2;
        let t0 = b0 + t1;
        let w0 = Self::spec_write_components(m, version);
        let w1 = chain(w0, Self::spec_write_strict(m, version));
        let w2 = chain(w1, Self::spec_write_tags(m, version));
        assert(Self::spec_write(m, version) == w2);
        assert(written(w2) + t3 =~= written(w1) + t2);
        assert(written(w1) + t2 =~= written(w0) + t1);
        Self::lemma_round_trip_components(m, version, t1);
        Self::lemma_round_trip_strict(m, version, t2);
        Self::lemma_round_trip_tags(m, version, t3);
    }

    /// In a version that does not carry `unknown_tagged_fields`, writing ignores its value.
    pub proof fn lemma_write_ignores_unknown_tagged_fields(m: DescribeClientQuotasRequestDataView, value: Seq<(u32, Seq<u8>)>, version: i16)
        requires
            !(version >= 1),
        ensures
            Self::spec_write((DescribeClientQuotasRequestDataView { unknown_tagged_fields: value, ..m }), version) == Self::spec_write(m, version),
    {
        reveal(DescribeClientQuotasRequestData::spec_write_components);
        reveal(DescribeClientQuotasRequestData::spec_write_strict);
        reveal(DescribeClientQuotasRequestData::spec_write_tags);
    }

    /// The default message holds the default value of each field of the schema.
    pub proof fn lemma_default_values()
        ensures
            Self::default_view().components.len() == 0,
            Self::default_view().strict == (false),
            Self::default_view().unknown_tagged_fields.len() == 0,
    {
    }

    /// Each integer, boolean and identifier field is written as its standard
    /// big-endian bytes (a boolean as `1` or `0`) in the versions that carry
    /// it, and as nothing in the others; reading it takes those bytes back (any
    /// byte other than `0` reads as `true`), or gives its default value.
    pub proof fn lemma_field_encodings(m: DescribeClientQuotasRequestDataView, s: Seq<u8>, version: i16)
        ensures
            true ==> Self::spec_write_strict(m, version) == Ok::<Seq<u8>, (Error, Seq<u8>)>(seq![if m.strict { 1u8 } else { 0u8 }]),
            true ==> Self::spec_read_strict(s, version) == (if s.len() < 1 { Err(Error::UnexpectedEof) } else { Ok((s[0] != 0, s.drop_first())) }),
    {
        reveal(DescribeClientQuotasRequestData::spec_write_strict);
        reveal(DescribeClientQuotasRequestData::spec_read_strict);
    }

    /// Whether writing `m` in `version` succeeds, said over its parts: the
    /// version is one the schema covers, every field that the version cannot
    /// carry holds its default value, and every string, byte string, array and
    /// tagged field fits its length prefix.
    pub open spec fn writable(m: DescribeClientQuotasRequestDataView, version: i16) -> bool {
        &&& 0 <= version <= 1
        &&& (m.components.len() <= i32::MAX && all_writable::<ComponentData>(m.components, version))
        &&& (if version >= 1 {
                m.unknown_tagged_fields.len() <= u32::MAX && tags_fit(m.unknown_tagged_fields)
            } else {
                true
        })
    }

    proof fn lemma_writable_components(m: DescribeClientQuotasRequestDataView, version: i16)
        ensures
            Self::spec_write_components(m, version) is Ok <==> (m.components.len() <= i32::MAX && all_writable::<ComponentData>(m.components, version)),
    {
        reveal(DescribeClientQuotasRequestData::spec_write_components);
        if version >= 1 {
            lemma_array_writable::<ComponentData>(m.components, version, true);
        } else {
            lemma_array_writable::<ComponentData>(m.components, version, false);
        }
    }

    proof fn lemma_writable_strict(m: DescribeClientQuotasRequestDataView, version: i16)
        ensures
            Self::spec_write_strict(m, version) is Ok <==> true,
    {
        reveal(DescribeClientQuotasRequestData::spec_write_strict);
    }

    proof fn lemma_writable_tags(m: DescribeClientQuotasRequestDataView, version: i16)
        ensures
            Self::spec_write_tags(m, version) is Ok <==> (if version >= 1 { m.unknown_tagged_fields.len() <= u32::MAX && tags_fit(m.unknown_tagged_fields) } else { true }),
    {
        reveal(DescribeClientQuotasRequestData::spec_write_tags);
        if version >= 1 {
            lemma_sorted_tags_fit(m.unknown_tagged_fields);
            lemma_tagged_fields_writable(sorted_by_tag(m.unknown_tagged_fields));
        }
    }

    /// Writing `m` in `version` succeeds exactly when `m` is writable in it;
    /// so do `write` and `encoded_len`, whose results follow `spec_write`.
    #[verifier::rlimit(48)]
    pub proof fn lemma_writable(m: DescribeClientQuotasRequestDataView, version: i16)
        ensures
            Self::spec_write(m, version) is Ok <==> Self::writable(m, version),
    {
        Self::lemma_writable_components(m, version);
        Self::lemma_writable_strict(m, version);
        Self::lemma_writable_tags(m, version);
    }

    /// A version outside the range that the schema covers is refused, by
    /// reads and by writes alike, before anything is read or written.
    pub proof fn lemma_refused_version(m: DescribeClientQuotasRequestDataView, s: Seq<u8>, version: i16)
        requires
            version < 0 || version > 1,
        ensures
            Self::spec_read(s, version) == Err::<(DescribeClientQuotasRequestDataView, Seq<u8>), Error>(Error::UnsupportedVersion(UnsupportedVersion { api_key: 48, version })),
            Self::spec_write(m, version) == fail(Error::UnsupportedVersion(UnsupportedVersion { api_key: 48, version })),
    {
    }

    pub fn with_components(self, value: Vec<ComponentData>) -> (r: Self)
        ensures
            r@ == (DescribeClientQuotasRequestDataView { components: views(value@), ..self@ }),
    {
        let mut r = self;
        r.components = value;
        r
    }

    pub fn with_strict(self, value: bool) -> (r: Self)
        ensures
            r@ == (DescribeClientQuotasRequestDataView { strict: value, ..self@ }),
    {
        let mut r = self;
        r.strict = value;
        r
    }

    fn read_components(buf: &mut Bytes, version: i16) -> (r: Result<Vec<ComponentData>, Error>)
        ensures
            read_vec_as(Self::spec_read_components(bytes_seq(*old(buf)), version), *final(buf), r),
            took_front(*old(buf), *final(buf)),
    {
        proof {
            reveal(DescribeClientQuotasRequestData::spec_read_components);
        }
        Ok(if version >= 1 {
                read_array::<ComponentData>(buf, version, true)?
            } else {
                read_array::<ComponentData>(buf, version, false)?
        })
    }

    fn read_strict(buf: &mut Bytes, version: i16) -> (r: Result<bool, Error>)
        ensures
            read_as(Self::spec_read_strict(bytes_seq(*old(buf)), version), *final(buf), r),
            took_front(*old(buf), *final(buf)),
    {
        proof {
            reveal(DescribeClientQuotasRequestData::spec_read_strict);
        }
        Ok(read_bool(buf)?)
    }

    fn read_tags(buf: &mut Bytes, version: i16) -> (r: Result<Vec<RawTaggedField>, Error>)
        ensures
            read_vec_as(Self::spec_read_tags(bytes_seq(*old(buf)), version), *final(buf), r),
            took_front(*old(buf), *final(buf)),
    {
        proof {
            reveal(DescribeClientQuotasRequestData::spec_read_tags);
        }
        Ok(if version >= 1 {
                read_tagged_fields(buf)?
            } else {
                empty_vec()
        })
    }

    pub fn read(buf: &mut Bytes, version: i16) -> (r: Result<Self, Error>)
        ensures
            read_as(Self::spec_read(bytes_seq(*old(buf)), version), *final(buf), r),
            took_front(*old(buf), *final(buf)),
            (version < 0 || version > 1) ==> bytes_seq(*final(buf)) == bytes_seq(*old(buf)),
    {
        if version < 0 || version > 1 {
            return Err(Error::UnsupportedVersion(UnsupportedVersion::new(48, version)));
        }
        let components = Self::read_components(buf, version)?;
        let strict = Self::read_strict(buf, version)?;
        let _unknown_tagged_fields = Self::read_tags(buf, version)?;
        Ok(DescribeClientQuotasRequestData {
                components: components,
                strict: strict,
                _unknown_tagged_fields: _unknown_tagged_fields,
        })
    }

    #[verifier::rlimit(60)]
    pub fn write(&self, buf: &mut BytesMut, version: i16) -> (r: Result<(), Error>)
        requires
            has_room(Self::spec_write(self@, version), *old(buf)),
        ensures
            wrote(Self::spec_write(self@, version), *old(buf), *final(buf), r),
    {
        if version < 0 || version > 1 {
            return Err(Error::UnsupportedVersion(UnsupportedVersion::new(48, version)));
        }
        let ghost m = self@;
        proof {
            reveal(DescribeClientQuotasRequestData::spec_write_components);
            reveal(DescribeClientQuotasRequestData::spec_write_strict);
            reveal(DescribeClientQuotasRequestData::spec_write_tags);
        }
        let ghost s0 = Self::spec_write_components(m, version);
        let ghost w0 = s0;
        let ghost s1 = Self::spec_write_strict(m, version);
        let ghost w1 = chain(w0, s1);
        let ghost s2 = Self::spec_write_tags(m, version);
        let ghost w2 = chain(w1, s2);
        assert(Self::spec_write(m, version) == w2);
        assert(written(w1).len() <= written(w2).len() && (w1 is Err ==> w2 == w1));
        assert(written(w0).len() <= written(w2).len() && (w0 is Err ==> w2 == w0));
        let ghost mid = bytes_mut_seq(*buf);
        proof {
            lemma_append_empty(mid);
        }
        let r0 = if version >= 1 {
            write_array::<ComponentData>(buf, &self.components, version, true)
        } else {
            write_array::<ComponentData>(buf, &self.components, version, false)
        };
        assert(bytes_mut_seq(*buf) == mid + written(s0));
        if r0.is_err() {
            return r0;
        }
        let ghost mid = bytes_mut_seq(*buf);
        proof {
            lemma_append_empty(mid);
        }
        let r1 = {
            write_bool(buf, self.strict);
            Ok(())
        };
        assert(bytes_mut_seq(*buf) == mid + written(s1));
        proof {
            lemma_step(bytes_mut_seq(*old(buf)), w0, s1);
        }
        if r1.is_err() {
            return r1;
        }
        let ghost mid = bytes_mut_seq(*buf);
        proof {
            lemma_append_empty(mid);
        }
        let r2 = if version >= 1 {
            write_tagged_fields(buf, &sort_by_tag(&self._unknown_tagged_fields))
        } else {
            Ok(())
        };
        assert(bytes_mut_seq(*buf) == mid + written(s2));
        proof {
            lemma_step(bytes_mut_seq(*old(buf)), w1, s2);
        }
        if r2.is_err() {
            return r2;
        }
        Ok(())
    }

    #[verifier::rlimit(60)]
    pub fn encoded_len(&self, version: i16) -> (r: Result<usize, Error>)
        ensures
            r == len_result(Self::spec_write(self@, version)),
    {
        if version < 0 || version > 1 {
            return Err(Error::UnsupportedVersion(UnsupportedVersion::new(48, version)));
        }
        let ghost m = self@;
        proof {
            reveal(DescribeClientQuotasRequestData::spec_write_components);
            reveal(DescribeClientQuotasRequestData::spec_write_strict);
            reveal(DescribeClientQuotasRequestData::spec_write_tags);
        }
        let ghost s0 = Self::spec_write_components(m, version);
        let ghost w0 = s0;
        let ghost s1 = Self::spec_write_strict(m, version);
        let ghost w1 = chain(w0, s1);
        let ghost s2 = Self::spec_write_tags(m, version);
        let ghost w2 = chain(w1, s2);
        assert(Self::spec_write(m, version) == w2);
        assert(w1 is Err ==> w2 == w1);
        assert(w0 is Err ==> w2 == w0);
        let mut len: usize = 0;
        let l0 = if version >= 1 {
            array_len::<ComponentData>(&self.components, version, true)
        } else {
            array_len::<ComponentData>(&self.components, version, false)
        };
        assert(l0 == len_result(s0));
        let n0 = match l0 {
            Ok(n) => n,
            Err(e) => {
                return Err(e);
            },
        };
        len = saturating_sum(len, n0);
        assert(w0 is Ok && len == saturate(written(w0).len() as int));
        let l1 = Ok(1);
        assert(l1 == len_result(s1));
        let n1 = match l1 {
            Ok(n) => n,
            Err(e) => {
                return Err(e);
            },
        };
        proof {
            lemma_len_step(w0, s1, n1);
        }
        len = saturating_sum(len, n1);
        assert(w1 is Ok && len == saturate(written(w1).len() as int));
        let l2 = if version >= 1 {
            tagged_fields_len(&sort_by_tag(&self._unknown_tagged_fields))
        } else {
            Ok(0)
        };
        assert(l2 == len_result(s2));
        let n2 = match l2 {
            Ok(n) => n,
            Err(e) => {
                return Err(e);
            },
        };
        proof {
            lemma_len_step(w1, s2, n2);
        }
        len = saturating_sum(len, n2);
        assert(w2 is Ok && len == saturate(written(w2).len() as int));
        Ok(len)
    }
}

#[derive(Debug, PartialEq)]
pub struct ComponentData {
    /// The entity type that the filter component applies to.
    pub entity_type: KafkaString,
    /// How to match the entity {0 = exact name, 1 = default name, 2 = any specified name}.
    pub match_type: i8,
    /// The string to match against, or null if unused for the match type.
    pub match_: Option<KafkaString>,
    pub _unknown_tagged_fields: Vec<RawTaggedField>,
}

/// What a `ComponentData` holds, as the specification sees it.
#[verifier::ext_equal]
pub struct ComponentDataView {
    pub entity_type: Seq<u8>,
    pub match_type: i8,
    pub match_: Option<Seq<u8>>,
    pub unknown_tagged_fields: Seq<(u32, Seq<u8>)>,
}

impl View for ComponentData {
    type V = ComponentDataView;

    open spec fn view(&self) -> ComponentDataView {
        ComponentDataView {
            entity_type: self.entity_type@,
            match_type: self.match_type,
            match_: opt_view(self.match_),
            unknown_tagged_fields: views(self._unknown_tagged_fields@),
        }
    }
}

impl Clone for ComponentData {
    fn clone(&self) -> (r: Self)
        ensures
            r@ == self@,
    {
        let r = ComponentData {
            entity_type: self.entity_type.clone(),
            match_type: self.match_type,
            match_: match &self.match_ {
                Some(x) => Some(x.clone()),
                None => None,
            },
            _unknown_tagged_fields: clone_vec(&self._unknown_tagged_fields),
        };
        assert(r@ =~= self@);
        r
    }
}

impl ViewClone for ComponentData {
    fn clone_view(&self) -> (r: Self) {
        self.clone()
    }
}

impl Default for ComponentData {
    fn default() -> (r: Self)
        ensures
            r@ == Self::default_view(),
    {
        let r = ComponentData {
            entity_type: KafkaString::default(),
            match_type: 0_i8,
            match_: None,
            _unknown_tagged_fields: empty_vec(),
        };
        assert(r@ =~= Self::default_view());
        r
    }
}

impl ComponentData {
    pub open spec fn default_view() -> ComponentDataView {
        ComponentDataView {
            entity_type: Seq::empty(),
            match_type: 0_i8,
            match_: None,
            unknown_tagged_fields: Seq::empty(),
        }
    }

    /// The `entity_type` field, read from the front of `s`.
    #[verifier::opaque]
    pub open spec fn spec_read_entity_type(s: Seq<u8>, version: i16) -> ReadOutcome<Seq<u8>> {
        if version >= 1 {
            spec_read_compact_string(s)
        } else {
            spec_read_string(s)
        }
    }

    /// The `match_type` field, read from the front of `s`.
    #[verifier::opaque]
    pub open spec fn spec_read_match_type(s: Seq<u8>, version: i16) -> ReadOutcome<i8> {
        spec_read_i8(s)
    }

    /// The `match_` field, read from the front of `s`.
    #[verifier::opaque]
    pub open spec fn spec_read_match_(s: Seq<u8>, version: i16) -> ReadOutcome<Option<Seq<u8>>> {
        if version >= 1 {
            spec_read_compact_nullable_string(s)
        } else {
            spec_read_nullable_string(s)
        }
    }

    /// The tagged fields, read from the front of `s`.
    #[verifier::opaque]
    pub open spec fn spec_read_tags(s: Seq<u8>, version: i16) -> ReadOutcome<Seq<(u32, Seq<u8>)>> {
        if version >= 1 {
            spec_read_tagged_fields(s)
        } else {
            Ok((Seq::empty(), s))
        }
    }

    pub open spec fn spec_read(s: Seq<u8>, version: i16) -> ReadOutcome<ComponentDataView> {
        match (Self::spec_read_entity_type(s, version)) {
            Err(e) => Err(e),
            Ok((entity_type, s)) => match (Self::spec_read_match_type(s, version)) {
                Err(e) => Err(e),
                Ok((match_type, s)) => match (Self::spec_read_match_(s, version)) {
                    Err(e) => Err(e),
                    Ok((match_, s)) => match (Self::spec_read_tags(s, version)) {
                        Err(e) => Err(e),
                        Ok((unknown_tagged_fields, s)) => Ok((ComponentDataView {
                                    entity_type: entity_type,
                                    match_type: match_type,
                                    match_: match_,
                                    unknown_tagged_fields: unknown_tagged_fields,
                                }, s)),
                    },
                },
            },
        }
    }

    /// What writing the `entity_type` field of `m` appends.
    #[verifier::opaque]
    pub open spec fn spec_write_entity_type(m: ComponentDataView, version: i16) -> WriteOutcome {
        if version >= 1 {
            spec_write_compact_string(m.entity_type)
        } else {
            spec_write_string(m.entity_type)
        }
    }

    /// What writing the `match_type` field of `m` appends.
    #[verifier::opaque]
    pub open spec fn spec_write_match_type(m: ComponentDataView, version: i16) -> WriteOutcome {
        spec_write_i8(m.match_type)
    }

    /// What writing the `match_` field of `m` appends.
    #[verifier::opaque]
    pub open spec fn spec_write_match_(m: ComponentDataView, version: i16) -> WriteOutcome {
        if version >= 1 {
            spec_write_compact_nullable_string(m.match_)
        } else {
            spec_write_nullable_string(m.match_)
        }
    }

    /// What writing the tagged fields of `m` appends.
    #[verifier::opaque]
    pub open spec fn spec_write_tags(m: ComponentDataView, version: i16) -> WriteOutcome {
        if version >= 1 {
            spec_write_tagged_fields(sorted_by_tag(m.unknown_tagged_fields))
        } else {
            emit(Seq::empty())
        }
    }

    pub open spec fn spec_write(m: ComponentDataView, version: i16) -> WriteOutcome {
        chain(
            chain(
                chain(
                    Self::spec_write_entity_type(m, version),
                    Self::spec_write_match_type(m, version),
                ),
                Self::spec_write_match_(m, version),
            ),
            Self::spec_write_tags(m, version),
        )
    }

    /// Whether reading back what writing `m` in `version` appends gives `m`:
    /// fields that the version does not carry hold their default values, and
    /// tagged fields come in the order in which they are written.
    pub open spec fn canonical(m: ComponentDataView, version: i16) -> bool {
        &&& (if version >= 1 {
                tags_in_order(m.unknown_tagged_fields)
            } else {
                m.unknown_tagged_fields.len() == 0
        })
    }

    proof fn lemma_round_trip_entity_type(m: ComponentDataView, version: i16, rest: Seq<u8>)
        requires
            Self::canonical(m, version),
            Self::spec_write_entity_type(m, version) is Ok,
        ensures
            Self::spec_read_entity_type(written(Self::spec_write_entity_type(m, version)) + rest, version) == Ok::<(Seq<u8>, Seq<u8>), Error>((m.entity_type, rest)),
    {
        reveal(ComponentData::spec_read_entity_type);
        reveal(ComponentData::spec_write_entity_type);
        if version >= 1 {
            lemma_compact_string_round_trip(m.entity_type, rest);
        } else {
            lemma_string_round_trip(m.entity_type, rest);
        }
    }

    proof fn lemma_round_trip_match_type(m: ComponentDataView, version: i16, rest: Seq<u8>)
        requires
            Self::canonical(m, version),
            Self::spec_write_match_type(m, version) is Ok,
        ensures
            Self::spec_read_match_type(written(Self::spec_write_match_type(m, version)) + rest, version) == Ok::<(i8, Seq<u8>), Error>((m.match_type, rest)),
    {
        reveal(ComponentData::spec_read_match_type);
        reveal(ComponentData::spec_write_match_type);
        lemma_i8_roundtrip(m.match_type, rest);
    }

    proof fn lemma_round_trip_match_(m: ComponentDataView, version: i16, rest: Seq<u8>)
        requires
            Self::canonical(m, version),
            Self::spec_write_match_(m, version) is Ok,
        ensures
            Self::spec_read_match_(written(Self::spec_write_match_(m, version)) + rest, version) == Ok::<(Option<Seq<u8>>, Seq<u8>), Error>((m.match_, rest)),
    {
        reveal(ComponentData::spec_read_match_);
        reveal(ComponentData::spec_write_match_);
        if version >= 1 {
            lemma_compact_nullable_string_round_trip(m.match_, rest);
        } else {
            lemma_nullable_string_round_trip(m.match_, rest);
        }
    }

    proof fn lemma_round_trip_tags(m: ComponentDataView, version: i16, rest: Seq<u8>)
        requires
            Self::canonical(m, version),
            Self::spec_write_tags(m, version) is Ok,
        ensures
            Self::spec_read_tags(written(Self::spec_write_tags(m, version)) + rest, version) == Ok::<(Seq<(u32, Seq<u8>)>, Seq<u8>), Error>((m.unknown_tagged_fields, rest)),
    {
        reveal(ComponentData::spec_read_tags);
        reveal(ComponentData::spec_write_tags);
        if version >= 1 {
            lemma_sorted_by_tag_in_order(m.unknown_tagged_fields);
            lemma_tagged_fields_round_trip(m.unknown_tagged_fields, rest);
        } else {
            assert(Seq::<u8>::empty() + rest =~= rest);
            assert(m.unknown_tagged_fields =~= Seq::empty());
        }
    }

    /// Reading back what writing `m` in `version` appends gives `m` again, and
    /// leaves what follows, for every canonical message whose write succeeds.
    #[verifier::rlimit(80)]
    #[verifier::spinoff_prover]
    pub proof fn lemma_round_trip(m: ComponentDataView, version: i16, rest: Seq<u8>)
        requires
            Self::canonical(m, version),
            Self::spec_write(m, version) is Ok,
        ensures
            Self::spec_read(written(Self::spec_write(m, version)) + rest, version) == Ok::<(ComponentDataView, Seq<u8>), Error>((m, rest)),
    {
        let b0 = written(Self::spec_write_entity_type(m, version));
        let b1 = written(Self::spec_write_match_type(m, version));
        let b2 = written(Self::spec_write_match_(m, version));
        let b3 = written(Self::spec_write_tags(m, version));
        let t4 = rest;
        let t3 = b3 + t4;
        let t2 = b2 + t3;
        let t1 = b1 + t2;
        let t0 = b0 + t1;
        let w0 = Self::spec_write_entity_type(m, version);
        let w1 = chain(w0, Self::spec_write_match_type(m, version));
        let w2 = chain(w1, Self::spec_write_match_(m, version));
        let w3 = chain(w2, Self::spec_write_tags(m, version));
        assert(Self::spec_write(m, version) == w3);
        assert(written(w3) + t4 =~= written(w2) + t3);
        assert(written(w2) + t3 =~= written(w1) + t2);
        assert(written(w1) + t2 =~= written(w0) + t1);
        Self::lemma_round_trip_entity_type(m, version, t1);
        Self::lemma_round_trip_match_type(m, version, t2);
        Self::lemma_round_trip_match_(m, version, t3);
        Self::lemma_round_trip_tags(m, version, t4);
    }

    /// In a version that does not carry `unknown_tagged_fields`, writing ignores its value.
    pub proof fn lemma_write_ignores_unknown_tagged_fields(m: ComponentDataView, value: Seq<(u32, Seq<u8>)>, version: i16)
        requires
            !(version >= 1),
        ensures
            Self::spec_write((ComponentDataView { unknown_tagged_fields: value, ..m }), version) == Self::spec_write(m, version),
    {
        reveal(ComponentData::spec_write_entity_type);
        reveal(ComponentData::spec_write_match_type);
        reveal(ComponentData::spec_write_match_);
        reveal(ComponentData::spec_write_tags);
    }

    /// The default message holds the default value of each field of the schema.
    pub proof fn lemma_default_values()
        ensures
            Self::default_view().entity_type.len() == 0,
            Self::default_view().match_type == (0_i8),
            (Self::default_view().match_ is None),
            Self::default_view().unknown_tagged_fields.len() == 0,
    {
    }

    /// Each integer, boolean and identifier field is written as its standard
    /// big-endian bytes (a boolean as `1` or `0`) in the versions that carry
    /// it, and as nothing in the others; reading it takes those bytes back (any
    /// byte other than `0` reads as `true`), or gives its default value.
    pub proof fn lemma_field_encodings(m: ComponentDataView, s: Seq<u8>, version: i16)
        ensures
            true ==> Self::spec_write_match_type(m, version) == Ok::<Seq<u8>, (Error, Seq<u8>)>(seq![m.match_type as u8]),
            true ==> Self::spec_read_match_type(s, version) == (if s.len() < 1 { Err(Error::UnexpectedEof) } else { Ok((s[0] as i8, s.drop_first())) }),
    {
        reveal(ComponentData::spec_write_match_type);
        reveal(ComponentData::spec_read_match_type);
    }

    /// Whether writing `m` in `version` succeeds, said over its parts: the
    /// version is one the schema covers, every field that the version cannot
    /// carry holds its default value, and every string, byte string, array and
    /// tagged field fits its length prefix.
    pub open spec fn writable(m: ComponentDataView, version: i16) -> bool {
        &&& m.entity_type.len() <= 0x7fff
        &&& (m.match_ matches Some(b) ==> b.len() <= 0x7fff)
        &&& (if version >= 1 {
                m.unknown_tagged_fields.len() <= u32::MAX && tags_fit(m.unknown_tagged_fields)
            } else {
                true
        })
    }

    proof fn lemma_writable_entity_type(m: ComponentDataView, version: i16)
        ensures
            Self::spec_write_entity_type(m, version) is Ok <==> m.entity_type.len() <= 0x7fff,
    {
        reveal(ComponentData::spec_write_entity_type);
    }

    proof fn lemma_writable_match_type(m: ComponentDataView, version: i16)
        ensures
            Self::spec_write_match_type(m, version) is Ok <==> true,
    {
        reveal(ComponentData::spec_write_match_type);
    }

    proof fn lemma_writable_match_(m: ComponentDataView, version: i16)
        ensures
            Self::spec_write_match_(m, version) is Ok <==> (m.match_ matches Some(b) ==> b.len() <= 0x7fff),
    {
        reveal(ComponentData::spec_write_match_);
    }

    proof fn lemma_writable_tags(m: ComponentDataView, version: i16)
        ensures
            Self::spec_write_tags(m, version) is Ok <==> (if version >= 1 { m.unknown_tagged_fields.len() <= u32::MAX && tags_fit(m.unknown_tagged_fields) } else { true }),
    {
        reveal(ComponentData::spec_write_tags);
        if version >= 1 {
            lemma_sorted_tags_fit(m.unknown_tagged_fields);
            lemma_tagged_fields_writable(sorted_by_tag(m.unknown_tagged_fields));
        }
    }

    /// Writing `m` in `version` succeeds exactly when `m` is writable in it;
    /// so do `write` and `encoded_len`, whose results follow `spec_write`.
    #[verifier::rlimit(54)]
    pub proof fn lemma_writable(m: ComponentDataView, version: i16)
        ensures
            Self::spec_write(m, version) is Ok <==> Self::writable(m, version),
    {
        Self::lemma_writable_entity_type(m, version);
        Self::lemma_writable_match_type(m, version);
        Self::lemma_writable_match_(m, version);
        Self::lemma_writable_tags(m, version);
    }

    pub fn with_entity_type(self, value: KafkaString) -> (r: Self)
        ensures
            r@ == (ComponentDataView { entity_type: value@, ..self@ }),
    {
        let mut r = self;
        r.entity_type = value;
        r
    }

    pub fn with_match_type(self, value: i8) -> (r: Self)
        ensures
            r@ == (ComponentDataView { match_type: value, ..self@ }),
    {
        let mut r = self;
        r.match_type = value;
        r
    }

    pub fn with_match(self, value: Option<KafkaString>) -> (r: Self)
        ensures
            r@ == (ComponentDataView { match_: opt_view(value), ..self@ }),
    {
        let mut r = self;
        r.match_ = value;
        r
    }

    fn read_entity_type(buf: &mut Bytes, version: i16) -> (r: Result<KafkaString, Error>)
        ensures
            read_as(Self::spec_read_entity_type(bytes_seq(*old(buf)), version), *final(buf), r),
            took_front(*old(buf), *final(buf)),
    {
        proof {
            reveal(ComponentData::spec_read_entity_type);
        }
        Ok(if version >= 1 {
                read_compact_string(buf)?
            } else {
                read_string(buf)?
        })
    }

    fn read_match_type(buf: &mut Bytes, version: i16) -> (r: Result<i8, Error>)
        ensures
            read_as(Self::spec_read_match_type(bytes_seq(*old(buf)), version), *final(buf), r),
            took_front(*old(buf), *final(buf)),
    {
        proof {
            reveal(ComponentData::spec_read_match_type);
        }
        Ok(read_i8(buf)?)
    }

    fn read_match_(buf: &mut Bytes, version: i16) -> (r: Result<Option<KafkaString>, Error>)
        ensures
            read_opt_as(Self::spec_read_match_(bytes_seq(*old(buf)), version), *final(buf), r),
            took_front(*old(buf), *final(buf)),
    {
        proof {
            reveal(ComponentData::spec_read_match_);
        }
        Ok(if version >= 1 {
                read_compact_nullable_string(buf)?
            } else {
                read_nullable_string(buf)?
        })
    }

    fn read_tags(buf: &mut Bytes, version: i16) -> (r: Result<Vec<RawTaggedField>, Error>)
        ensures
            read_vec_as(Self::spec_read_tags(bytes_seq(*old(buf)), version), *final(buf), r),
            took_front(*old(buf), *final(buf)),
    {
        proof {
            reveal(ComponentData::spec_read_tags);
        }
        Ok(if version >= 1 {
                read_tagged_fields(buf)?
            } else {
                empty_vec()
        })
    }

    pub fn read(buf: &mut Bytes, version: i16) -> (r: Result<Self, Error>)
        ensures
            read_as(Self::spec_read(bytes_seq(*old(buf)), version), *final(buf), r),
            took_front(*old(buf), *final(buf)),
    {
        let entity_type = Self::read_entity_type(buf, version)?;
        let match_type = Self::read_match_type(buf, version)?;
        let match_ = Self::read_match_(buf, version)?;
        let _unknown_tagged_fields = Self::read_tags(buf, version)?;
        Ok(ComponentData {
                entity_type: entity_type,
                match_type: match_type,
                match_: match_,
                _unknown_tagged_fields: _unknown_tagged_fields,
        })
    }

    #[verifier::rlimit(70)]
    pub fn write(&self, buf: &mut BytesMut, version: i16) -> (r: Result<(), Error>)
        requires
            has_room(Self::spec_write(self@, version), *old(buf)),
        ensures
            wrote(Self::spec_write(self@, version), *old(buf), *final(buf), r),
    {
        let ghost m = self@;
        proof {
            reveal(ComponentData::spec_write_entity_type);
            reveal(ComponentData::spec_write_match_type);
            reveal(ComponentData::spec_write_match_);
            reveal(ComponentData::spec_write_tags);
        }
        let ghost s0 = Self::spec_write_entity_type(m, version);
        let ghost w0 = s0;
        let ghost s1 = Self::spec_write_match_type(m, version);
        let ghost w1 = chain(w0, s1);
        let ghost s2 = Self::spec_write_match_(m, version);
        let ghost w2 = chain(w1, s2);
        let ghost s3 = Self::spec_write_tags(m, version);
        let ghost w3 = chain(w2, s3);
        assert(Self::spec_write(m, version) == w3);
        assert(written(w2).len() <= written(w3).len() && (w2 is Err ==> w3 == w2));
        assert(written(w1).len() <= written(w3).len() && (w1 is Err ==> w3 == w1));
        assert(written(w0).len() <= written(w3).len() && (w0 is Err ==> w3 == w0));
        let ghost mid = bytes_mut_seq(*buf);
        proof {
            lemma_append_empty(mid);
        }
        let r0 = if version >= 1 {
            write_compact_string(buf, &self.entity_type)
        } else {
            write_string(buf, &self.entity_type)
        };
        assert(bytes_mut_seq(*buf) == mid + written(s0));
        if r0.is_err() {
            return r0;
        }
        let ghost mid = bytes_mut_seq(*buf);
        proof {
            lemma_append_empty(mid);
        }
        let r1 = {
            write_i8(buf, self.match_type);
            Ok(())
        };
        assert(bytes_mut_seq(*buf) == mid + written(s1));
        proof {
            lemma_step(bytes_mut_seq(*old(buf)), w0, s1);
        }
        if r1.is_err() {
            return r1;
        }
        let ghost mid = bytes_mut_seq(*buf);
        proof {
            lemma_append_empty(mid);
        }
        let r2 = if version >= 1 {
            write_compact_nullable_string(buf, &self.match_)
        } else {
            write_nullable_string(buf, &self.match_)
        };
        assert(bytes_mut_seq(*buf) == mid + written(s2));
        proof {
            lemma_step(bytes_mut_seq(*old(buf)), w1, s2);
        }
        if r2.is_err() {
            return r2;
        }
        let ghost mid = bytes_mut_seq(*buf);
        proof {
            lemma_append_empty(mid);
        }
        let r3 = if version >= 1 {
            write_tagged_fields(buf, &sort_by_tag(&self._unknown_tagged_fields))
        } else {
            Ok(())
        };
        assert(bytes_mut_seq(*buf) == mid + written(s3));
        proof {
            lemma_step(bytes_mut_seq(*old(buf)), w2, s3);
        }
        if r3.is_err() {
            return r3;
        }
        Ok(())
    }

    #[verifier::rlimit(70)]
    pub fn encoded_len(&self, version: i16) -> (r: Result<usize, Error>)
        ensures
            r == len_result(Self::spec_write(self@, version)),
    {
        let ghost m = self@;
        proof {
            reveal(ComponentData::spec_write_entity_type);
            reveal(ComponentData::spec_write_match_type);
            reveal(ComponentData::spec_write_match_);
            reveal(ComponentData::spec_write_tags);
        }
        let ghost s0 = Self::spec_write_entity_type(m, version);
        let ghost w0 = s0;
        let ghost s1 = Self::spec_write_match_type(m, version);
        let ghost w1 = chain(w0, s1);
        let ghost s2 = Self::spec_write_match_(m, version);
        let ghost w2 = chain(w1, s2);
        let ghost s3 = Self::spec_write_tags(m, version);
        let ghost w3 = chain(w2, s3);
        assert(Self::spec_write(m, version) == w3);
        assert(w2 is Err ==> w3 == w2);
        assert(w1 is Err ==> w3 == w1);
        assert(w0 is Err ==> w3 == w0);
        let mut len: usize = 0;
        let l0 = if version >= 1 {
            compact_string_len(&self.entity_type)
        } else {
            string_len(&self.entity_type)
        };
        assert(l0 == len_result(s0));
        let n0 = match l0 {
            Ok(n) => n,
            Err(e) => {
                return Err(e);
            },
        };
        len = saturating_sum(len, n0);
        assert(w0 is Ok && len == saturate(written(w0).len() as int));
        let l1 = Ok(1);
        assert(l1 == len_result(s1));
        let n1 = match l1 {
            Ok(n) => n,
            Err(e) => {
                return Err(e);
            },
        };
        proof {
            lemma_len_step(w0, s1, n1);
        }
        len = saturating_sum(len, n1);
        assert(w1 is Ok && len == saturate(written(w1).len() as int));
        let l2 = if version >= 1 {
            compact_nullable_string_len(&self.match_)
        } else {
            nullable_string_len(&self.match_)
        };
        assert(l2 == len_result(s2));
        let n2 = match l2 {
            Ok(n) => n,
            Err(e) => {
                return Err(e);
            },
        };
        proof {
            lemma_len_step(w1, s2, n2);
        }
        len = saturating_sum(len, n2);
        assert(w2 is Ok && len == saturate(written(w2).len() as int));
        let l3 = if version >= 1 {
            tagged_fields_len(&sort_by_tag(&self._unknown_tagged_fields))
        } else {
            Ok(0)
        };
        assert(l3 == len_result(s3));
        let n3 = match l3 {
            Ok(n) => n,
            Err(e) => {
                return Err(e);
            },
        };
        proof {
            lemma_len_step(w2, s3, n3);
        }
        len = saturating_sum(len, n3);
        assert(w3 is Ok && len == saturate(written(w3).len() as int));
        Ok(len)
    }
}

impl Codec for ComponentData {
    type Item = ComponentData;

    open spec fn spec_read_item(s: Seq<u8>, version: i16) -> ReadOutcome<ComponentDataView> {
        ComponentData::spec_read(s, version)
    }

    open spec fn spec_write_item(v: ComponentDataView, version: i16) -> WriteOutcome {
        ComponentData::spec_write(v, version)
    }

    open spec fn canonical_item(v: ComponentDataView, version: i16) -> bool {
        ComponentData::canonical(v, version)
    }

    proof fn lemma_item_round_trip(v: ComponentDataView, version: i16, rest: Seq<u8>) {
        ComponentData::lemma_round_trip(v, version, rest);
    }

    open spec fn writable_item(v: ComponentDataView, version: i16) -> bool {
        ComponentData::writable(v, version)
    }

    proof fn lemma_item_writable(v: ComponentDataView, version: i16) {
        ComponentData::lemma_writable(v, version);
    }

    fn read_item(buf: &mut Bytes, version: i16) -> (r: Result<ComponentData, Error>) {
        ComponentData::read(buf, version)
    }

    fn write_item(item: &ComponentData, buf: &mut BytesMut, version: i16) -> (r: Result<(), Error>) {
        item.write(buf, version)
    }
}

impl MeasuredCodec for ComponentData {
    fn item_len(item: &ComponentData, version: i16) -> (r: Result<usize, Error>) {
        item.encoded_len(version)
    }
}

} // verus!
