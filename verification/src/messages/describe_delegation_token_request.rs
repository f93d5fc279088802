//! The describe delegation token request message.
use crate::buffer::{bytes_mut_seq, bytes_seq};
use crate::codec::{Codec, all_canonical, all_writable, lemma_nullable_array_round_trip, lemma_nullable_array_writable, opt_views, read_nullable_array, spec_read_nullable_array, spec_write_nullable_array, write_nullable_array};
use crate::error::{Error, UnsupportedVersion};
use crate::strings::{lemma_compact_string_round_trip, lemma_string_round_trip, read_compact_string, read_string, spec_read_compact_string, spec_read_string, spec_write_compact_string, spec_write_string, write_compact_string, write_string};
use crate::tagged::{lemma_sorted_by_tag_in_order, lemma_sorted_tags_fit, lemma_tagged_fields_round_trip, lemma_tagged_fields_writable, read_tagged_fields, sort_by_tag, sorted_by_tag, spec_read_tagged_fields, spec_write_tagged_fields, tags_fit, tags_in_order, write_tagged_fields};
use crate::types::{KafkaString, RawTaggedField};
use crate::wire::{ReadOutcome, ViewClone, WriteOutcome, chain, clone_vec, emit, empty_vec, fail, has_room, lemma_append_empty, lemma_chain_written, lemma_step, read_as, read_opt_vec_as, read_vec_as, took_front, views, written, wrote};
use bytes::{Bytes, BytesMut};
use vstd::prelude::*;

verus! {

broadcast use {crate::wire::lemma_chain_written, crate::wire::lemma_took_front_nothing, crate::wire::lemma_took_front_twice};

#[derive(Debug, PartialEq)]
pub struct DescribeDelegationTokenRequestData {
    /// Each owner that we want to describe delegation tokens for, or null to describe all tokens.
    pub owners: Option<Vec<DescribeDelegationTokenOwner>>,
    pub _unknown_tagged_fields: Vec<RawTaggedField>,
}

/// What a `DescribeDelegationTokenRequestData` holds, as the specification sees it.
#[verifier::ext_equal]
pub struct DescribeDelegationTokenRequestDataView {
    pub owners: Option<Seq<DescribeDelegationTokenOwnerView>>,
    pub unknown_tagged_fields: Seq<(u32, Seq<u8>)>,
}

impl View for DescribeDelegationTokenRequestData {
    type V = DescribeDelegationTokenRequestDataView;

    open spec fn view(&self) -> DescribeDelegationTokenRequestDataView {
        DescribeDelegationTokenRequestDataView {
            owners: opt_views(self.owners),
            unknown_tagged_fields: views(self._unknown_tagged_fields@),
        }
    }
}

impl Clone for DescribeDelegationTokenRequestData {
    fn clone(&self) -> (r: Self)
        ensures
            r@ == self@,
    {
        let r = DescribeDelegationTokenRequestData {
            owners: match &self.owners {
                Some(x) => Some(clone_vec(x)),
                None => None,
            },
            _unknown_tagged_fields: clone_vec(&self._unknown_tagged_fields),
        };
        assert(r@ =~= self@);
        r
    }
}

impl ViewClone for DescribeDelegationTokenRequestData {
    fn clone_view(&self) -> (r: Self) {
        self.clone()
    }
}

impl Default for DescribeDelegationTokenRequestData {
    fn default() -> (r: Self)
        ensures
            r@ == Self::default_view(),
    {
        let r = DescribeDelegationTokenRequestData {
            owners: None,
            _unknown_tagged_fields: empty_vec(),
        };
        assert(r@ =~= Self::default_view());
        r
    }
}

impl DescribeDelegationTokenRequestData {
    pub open spec fn default_view() -> DescribeDelegationTokenRequestDataView {
        DescribeDelegationTokenRequestDataView {
            owners: None,
            unknown_tagged_fields: Seq::empty(),
        }
    }

    /// The `owners` field, read from the front of `s`.
    #[verifier::opaque]
    pub open spec fn spec_read_owners(s: Seq<u8>, version: i16) -> ReadOutcome<Option<Seq<DescribeDelegationTokenOwnerView>>> {
        if version >= 2 {
            spec_read_nullable_array::<DescribeDelegationTokenOwner>(s, version, true)
        } else {
            spec_read_nullable_array::<DescribeDelegationTokenOwner>(s, version, false)
        }
    }

    /// The tagged fields, read from the front of `s`.
    #[verifier::opaque]
    pub open spec fn spec_read_tags(s: Seq<u8>, version: i16) -> ReadOutcome<Seq<(u32, Seq<u8>)>> {
        if version >= 2 {
            spec_read_tagged_fields(s)
        } else {
            Ok((Seq::empty(), s))
        }
    }

    pub open spec fn spec_read(s: Seq<u8>, version: i16) -> ReadOutcome<DescribeDelegationTokenRequestDataView> {
        if version < 1 || version > 3 {
            Err(Error::UnsupportedVersion(UnsupportedVersion { api_key: 41, version }))
        } else {
            match (Self::spec_read_owners(s, version)) {
                Err(e) => Err(e),
                Ok((owners, s)) => match (Self::spec_read_tags(s, version)) {
                    Err(e) => Err(e),
                    Ok((unknown_tagged_fields, s)) => Ok((DescribeDelegationTokenRequestDataView {
                                owners: owners,
                                unknown_tagged_fields: unknown_tagged_fields,
                            }, s)),
                },
            }
        }
    }

    /// What writing the `owners` field of `m` appends.
    #[verifier::opaque]
    pub open spec fn spec_write_owners(m: DescribeDelegationTokenRequestDataView, version: i16) -> WriteOutcome {
        if version >= 2 {
            spec_write_nullable_array::<DescribeDelegationTokenOwner>(m.owners, version, true, -1i32)
        } else {
            spec_write_nullable_array::<DescribeDelegationTokenOwner>(m.owners, version, false, -1i32)
        }
    }

    /// What writing the tagged fields of `m` appends.
    #[verifier::opaque]
    pub open spec fn spec_write_tags(m: DescribeDelegationTokenRequestDataView, version: i16) -> WriteOutcome {
        if version >= 2 {
            spec_write_tagged_fields(sorted_by_tag(m.unknown_tagged_fields))
        } else {
            emit(Seq::empty())
        }
    }

    pub open spec fn spec_write(m: DescribeDelegationTokenRequestDataView, version: i16) -> WriteOutcome {
        if version < 1 || version > 3 {
            fail(Error::UnsupportedVersion(UnsupportedVersion { api_key: 41, version }))
        } else {
            chain(
                Self::spec_write_owners(m, version),
                Self::spec_write_tags(m, version),
            )
        }
    }

    /// Whether reading back what writing `m` in `version` appends gives `m`:
    /// fields that the version does not carry hold their default values, and
    /// tagged fields come in the order in which they are written.
    pub open spec fn canonical(m: DescribeDelegationTokenRequestDataView, version: i16) -> bool {
        &&& (m.owners matches Some(xs) ==> all_canonical::<DescribeDelegationTokenOwner>(xs, version))
        &&& (if version >= 2 {
                tags_in_order(m.unknown_tagged_fields)
            } else {
                m.unknown_tagged_fields.len() == 0
        })
    }

    proof fn lemma_round_trip_owners(m: DescribeDelegationTokenRequestDataView, version: i16, rest: Seq<u8>)
        requires
            Self::canonical(m, version),
            Self::spec_write_owners(m, version) is Ok,
        ensures
            Self::spec_read_owners(written(Self::spec_write_owners(m, version)) + rest, version) == Ok::<(Option<Seq<DescribeDelegationTokenOwnerView>>, Seq<u8>), Error>((m.owners, rest)),
    {
        reveal(DescribeDelegationTokenRequestData::spec_read_owners);
        reveal(DescribeDelegationTokenRequestData::spec_write_owners);
        if version >= 2 {
            lemma_nullable_array_round_trip::<DescribeDelegationTokenOwner>(m.owners, version, true, -1i32, rest);
        } else {
            lemma_nullable_array_round_trip::<DescribeDelegationTokenOwner>(m.owners, version, false, -1i32, rest);
        }
    }

    proof fn lemma_round_trip_tags(m: DescribeDelegationTokenRequestDataView, version: i16, rest: Seq<u8>)
        requires
            Self::canonical(m, version),
            Self::spec_write_tags(m, version) is Ok,
        ensures
            Self::spec_read_tags(written(Self::spec_write_tags(m, version)) + rest, version) == Ok::<(Seq<(u32, Seq<u8>)>, Seq<u8>), Error>((m.unknown_tagged_fields, rest)),
    {
        reveal(DescribeDelegationTokenRequestData::spec_read_tags);
        reveal(DescribeDelegationTokenRequestData::spec_write_tags);
        if version >= 2 {
            lemma_sorted_by_tag_in_order(m.unknown_tagged_fields);
            lemma_tagged_fields_round_trip(m.unknown_tagged_fields, rest);
        } else {
            assert(Seq::<u8>::empty() + rest =~= rest);
            assert(m.unknown_tagged_fields =~= Seq::empty());
        }
    }

    /// Reading back what writing `m` in `version` appends gives `m` again, and
    /// leaves what follows, for every canonical message whose write succeeds.
    #[verifier::rlimit(60)]
    #[verifier::spinoff_prover]
    pub proof fn lemma_round_trip(m: DescribeDelegationTokenRequestDataView, version: i16, rest: Seq<u8>)
        requires
            Self::canonical(m, version),
            Self::spec_write(m, version) is Ok,
        ensures
            Self::spec_read(written(Self::spec_write(m, version)) + rest, version) == Ok::<(DescribeDelegationTokenRequestDataView, Seq<u8>), Error>((m, rest)),
    {
        let b0 = written(Self::spec_write_owners(m, version));
        let b1 = written(Self::spec_write_tags(m, version));
        let t2 = rest;
        let t1 = b1 + t2;
        let t0 = b0 + t1;
        let w0 = Self::spec_write_owners(m, version);
        let w1 = chain(w0, Self::spec_write_tags(m, version));
        assert(Self::spec_write(m, version) == w1);
        assert(written(w1) + t2 =~= written(w0) + t1);
        Self::lemma_round_trip_owners(m, version, t1);
        Self::lemma_round_trip_tags(m, version, t2);
    }

    /// In a version that does not carry `unknown_tagged_fields`, writing ignores its value.
    pub proof fn lemma_write_ignores_unknown_tagged_fields(m: DescribeDelegationTokenRequestDataView, value: Seq<(u32, Seq<u8>)>, version: i16)
        requires
            !(version >= 2),
        ensures
            Self::spec_write((DescribeDelegationTokenRequestDataView { unknown_tagged_fields: value, ..m }), version) == Self::spec_write(m, version),
    {
        reveal(DescribeDelegationTokenRequestData::spec_write_owners);
        reveal(DescribeDelegationTokenRequestData::spec_write_tags);
    }

    /// The default message holds the default value of each field of the schema.
    pub proof fn lemma_default_values()
        ensures
            (Self::default_view().owners is None),
            Self::default_view().unknown_tagged_fields.len() == 0,
    {
    }

    /// Whether writing `m` in `version` succeeds, said over its parts: the
    /// version is one the schema covers, every field that the version cannot
    /// carry holds its default value, and every string, byte string, array and
    /// tagged field fits its length prefix.
    pub open spec fn writable(m: DescribeDelegationTokenRequestDataView, version: i16) -> bool {
        &&& 1 <= version <= 3
        &&& (m.owners matches Some(xs) ==> xs.len() <= i32::MAX && all_writable::<DescribeDelegationTokenOwner>(xs, version))
        &&& (if version >= 2 {
                m.unknown_tagged_fields.len() <= u32::MAX && tags_fit(m.unknown_tagged_fields)
            } else {
                true
        })
    }

    proof fn lemma_writable_owners(m: DescribeDelegationTokenRequestDataView, version: i16)
        ensures
            Self::spec_write_owners(m, version) is Ok <==> (m.owners matches Some(xs) ==> xs.len() <= i32::MAX && all_writable::<DescribeDelegationTokenOwner>(xs, version)),
    {
        reveal(DescribeDelegationTokenRequestData::spec_write_owners);
        if version >= 2 {
            lemma_nullable_array_writable::<DescribeDelegationTokenOwner>(m.owners, version, true, -1i32);
        } else {
            lemma_nullable_array_writable::<DescribeDelegationTokenOwner>(m.owners, version, false, -1i32);
        }
    }

    proof fn lemma_writable_tags(m: DescribeDelegationTokenRequestDataView, version: i16)
        ensures
            Self::spec_write_tags(m, version) is Ok <==> (if version >= 2 { m.unknown_tagged_fields.len() <= u32::MAX && tags_fit(m.unknown_tagged_fields) } else { true }),
    {
        reveal(DescribeDelegationTokenRequestData::spec_write_tags);
        if version >= 2 {
            lemma_sorted_tags_fit(m.unknown_tagged_fields);
            lemma_tagged_fields_writable(sorted_by_tag(m.unknown_tagged_fields));
        }
    }

    /// Writing `m` in `version` succeeds exactly when `m` is writable in it;
    /// so do `write` and `encoded_len`, whose results follow `spec_write`.
    #[verifier::rlimit(42)]
    pub proof fn lemma_writable(m: DescribeDelegationTokenRequestDataView, version: i16)
        ensures
            Self::spec_write(m, version) is Ok <==> Self::writable(m, version),
    {
        Self::lemma_writable_owners(m, version);
        Self::lemma_writable_tags(m, version);
    }

    /// A version outside the range that the schema covers is refused, by
    /// reads and by writes alike, before anything is read or written.
    pub proof fn lemma_refused_version(m: DescribeDelegationTokenRequestDataView, s: Seq<u8>, version: i16)
        requires
            version < 1 || version > 3,
        ensures
            Self::spec_read(s, version) == Err::<(DescribeDelegationTokenRequestDataView, Seq<u8>), Error>(Error::UnsupportedVersion(UnsupportedVersion { api_key: 41, version })),
            Self::spec_write(m, version) == fail(Error::UnsupportedVersion(UnsupportedVersion { api_key: 41, version })),
    {
    }

    fn read_owners(buf: &mut Bytes, version: i16) -> (r: Result<Option<Vec<DescribeDelegationTokenOwner>>, Error>)
        ensures
            read_opt_vec_as(Self::spec_read_owners(bytes_seq(*old(buf)), version), *final(buf), r),
            took_front(*old(buf), *final(buf)),
    {
        proof {
            reveal(DescribeDelegationTokenRequestData::spec_read_owners);
        }
        Ok(if version >= 2 {
                read_nullable_array::<DescribeDelegationTokenOwner>(buf, version, true)?
            } else {
                read_nullable_array::<DescribeDelegationTokenOwner>(buf, version, false)?
        })
    }

    fn read_tags(buf: &mut Bytes, version: i16) -> (r: Result<Vec<RawTaggedField>, Error>)
        ensures
            read_vec_as(Self::spec_read_tags(bytes_seq(*old(buf)), version), *final(buf), r),
            took_front(*old(buf), *final(buf)),
    {
        proof {
            reveal(DescribeDelegationTokenRequestData::spec_read_tags);
        }
        Ok(if version >= 2 {
                read_tagged_fields(buf)?
            } else {
                empty_vec()
        })
    }

    pub fn read(buf: &mut Bytes, version: i16) -> (r: Result<Self, Error>)
        ensures
            read_as(Self::spec_read(bytes_seq(*old(buf)), version), *final(buf), r),
            took_front(*old(buf), *final(buf)),
            (version < 1 || version > 3) ==> bytes_seq(*final(buf)) == bytes_seq(*old(buf)),
    {
        if version < 1 || version > 3 {
            return Err(Error::UnsupportedVersion(UnsupportedVersion::new(41, version)));
        }
        let owners = Self::read_owners(buf, version)?;
        let _unknown_tagged_fields = Self::read_tags(buf, version)?;
        Ok(DescribeDelegationTokenRequestData {
                owners: owners,
                _unknown_tagged_fields: _unknown_tagged_fields,
        })
    }

    #[verifier::rlimit(50)]
    pub fn write(&self, buf: &mut BytesMut, version: i16) -> (r: Result<(), Error>)
        requires
            has_room(Self::spec_write(self@, version), *old(buf)),
        ensures
            wrote(Self::spec_write(self@, version), *old(buf), *final(buf), r),
    {
        if version < 1 || version > 3 {
            return Err(Error::UnsupportedVersion(UnsupportedVersion::new(41, version)));
        }
        let ghost m = self@;
        proof {
            reveal(DescribeDelegationTokenRequestData::spec_write_owners);
            reveal(DescribeDelegationTokenRequestData::spec_write_tags);
        }
        let ghost s0 = Self::spec_write_owners(m, version);
        let ghost w0 = s0;
        let ghost s1 = Self::spec_write_tags(m, version);
        let ghost w1 = chain(w0, s1);
        assert(Self::spec_write(m, version) == w1);
        assert(written(w0).len() <= written(w1).len() && (w0 is Err ==> w1 == w0));
        let ghost mid = bytes_mut_seq(*buf);
        proof {
            lemma_append_empty(mid);
        }
        let r0 = if version >= 2 {
            write_nullable_array::<DescribeDelegationTokenOwner>(buf, &self.owners, version, true, -1)
        } else {
            write_nullable_array::<DescribeDelegationTokenOwner>(buf, &self.owners, version, false, -1)
        };
        assert(bytes_mut_seq(*buf) == mid + written(s0));
        if r0.is_err() {
            return r0;
        }
        let ghost mid = bytes_mut_seq(*buf);
        proof {
            lemma_append_empty(mid);
        }
        let r1 = if version >= 2 {
            write_tagged_fields(buf, &sort_by_tag(&self._unknown_tagged_fields))
        } else {
            Ok(())
        };
        assert(bytes_mut_seq(*buf) == mid + written(s1));
        proof {
            lemma_step(bytes_mut_seq(*old(buf)), w0, s1);
        }
        if r1.is_err() {
            return r1;
        }
        Ok(())
    }
}

#[derive(Debug, PartialEq)]
pub struct DescribeDelegationTokenOwner {
    /// The owner principal type.
    pub principal_type: KafkaString,
    /// The owner principal name.
    pub principal_name: KafkaString,
    pub _unknown_tagged_fields: Vec<RawTaggedField>,
}

/// What a `DescribeDelegationTokenOwner` holds, as the specification sees it.
#[verifier::ext_equal]
pub struct DescribeDelegationTokenOwnerView {
    pub principal_type: Seq<u8>,
    pub principal_name: Seq<u8>,
    pub unknown_tagged_fields: Seq<(u32, Seq<u8>)>,
}

impl View for DescribeDelegationTokenOwner {
    type V = DescribeDelegationTokenOwnerView;

    open spec fn view(&self) -> DescribeDelegationTokenOwnerView {
        DescribeDelegationTokenOwnerView {
            principal_type: self.principal_type@,
            principal_name: self.principal_name@,
            unknown_tagged_fields: views(self._unknown_tagged_fields@),
        }
    }
}

impl Clone for DescribeDelegationTokenOwner {
    fn clone(&self) -> (r: Self)
        ensures
            r@ == self@,
    {
        let r = DescribeDelegationTokenOwner {
            principal_type: self.principal_type.clone(),
            principal_name: self.principal_name.clone(),
            _unknown_tagged_fields: clone_vec(&self._unknown_tagged_fields),
        };
        assert(r@ =~= self@);
        r
    }
}

impl ViewClone for DescribeDelegationTokenOwner {
    fn clone_view(&self) -> (r: Self) {
        self.clone()
    }
}

impl Default for DescribeDelegationTokenOwner {
    fn default() -> (r: Self)
        ensures
            r@ == Self::default_view(),
    {
        let r = DescribeDelegationTokenOwner {
            principal_type: KafkaString::default(),
            principal_name: KafkaString::default(),
            _unknown_tagged_fields: empty_vec(),
        };
        assert(r@ =~= Self::default_view());
        r
    }
}

impl DescribeDelegationTokenOwner {
    pub open spec fn default_view() -> DescribeDelegationTokenOwnerView {
        DescribeDelegationTokenOwnerView {
            principal_type: Seq::empty(),
            principal_name: Seq::empty(),
            unknown_tagged_fields: Seq::empty(),
        }
    }

    /// The `principal_type` field, read from the front of `s`.
    #[verifier::opaque]
    pub open spec fn spec_read_principal_type(s: Seq<u8>, version: i16) -> ReadOutcome<Seq<u8>> {
        if version >= 2 {
            spec_read_compact_string(s)
        } else {
            spec_read_string(s)
        }
    }

    /// The `principal_name` field, read from the front of `s`.
    #[verifier::opaque]
    pub open spec fn spec_read_principal_name(s: Seq<u8>, version: i16) -> ReadOutcome<Seq<u8>> {
        if version >= 2 {
            spec_read_compact_string(s)
        } else {
            spec_read_string(s)
        }
    }

    /// The tagged fields, read from the front of `s`.
    #[verifier::opaque]
    pub open spec fn spec_read_tags(s: Seq<u8>, version: i16) -> ReadOutcome<Seq<(u32, Seq<u8>)>> {
        if version >= 2 {
            spec_read_tagged_fields(s)
        } else {
            Ok((Seq::empty(), s))
        }
    }

    pub open spec fn spec_read(s: Seq<u8>, version: i16) -> ReadOutcome<DescribeDelegationTokenOwnerView> {
        match (Self::spec_read_principal_type(s, version)) {
            Err(e) => Err(e),
            Ok((principal_type, s)) => match (Self::spec_read_principal_name(s, version)) {
                Err(e) => Err(e),
                Ok((principal_name, s)) => match (Self::spec_read_tags(s, version)) {
                    Err(e) => Err(e),
                    Ok((unknown_tagged_fields, s)) => Ok((DescribeDelegationTokenOwnerView {
                                principal_type: principal_type,
                                principal_name: principal_name,
                                unknown_tagged_fields: unknown_tagged_fields,
                            }, s)),
                },
            },
        }
    }

    /// What writing the `principal_type` field of `m` appends.
    #[verifier::opaque]
    pub open spec fn spec_write_principal_type(m: DescribeDelegationTokenOwnerView, version: i16) -> WriteOutcome {
        if version >= 2 {
            spec_write_compact_string(m.principal_type)
        } else {
            spec_write_string(m.principal_type)
        }
    }

    /// What writing the `principal_name` field of `m` appends.
    #[verifier::opaque]
    pub open spec fn spec_write_principal_name(m: DescribeDelegationTokenOwnerView, version: i16) -> WriteOutcome {
        if version >= 2 {
            spec_write_compact_string(m.principal_name)
        } else {
            spec_write_string(m.principal_name)
        }
    }

    /// What writing the tagged fields of `m` appends.
    #[verifier::opaque]
    pub open spec fn spec_write_tags(m: DescribeDelegationTokenOwnerView, version: i16) -> WriteOutcome {
        if version >= 2 {
            spec_write_tagged_fields(sorted_by_tag(m.unknown_tagged_fields))
        } else {
            emit(Seq::empty())
        }
    }

    pub open spec fn spec_write(m: DescribeDelegationTokenOwnerView, version: i16) -> WriteOutcome {
        chain(
            chain(
                Self::spec_write_principal_type(m, version),
                Self::spec_write_principal_name(m, version),
            ),
            Self::spec_write_tags(m, version),
        )
    }

    /// Whether reading back what writing `m` in `version` appends gives `m`:
    /// fields that the version does not carry hold their default values, and
    /// tagged fields come in the order in which they are written.
    pub open spec fn canonical(m: DescribeDelegationTokenOwnerView, version: i16) -> bool {
        &&& (if version >= 2 {
                tags_in_order(m.unknown_tagged_fields)
            } else {
                m.unknown_tagged_fields.len() == 0
        })
    }

    proof fn lemma_round_trip_principal_type(m: DescribeDelegationTokenOwnerView, version: i16, rest: Seq<u8>)
        requires
            Self::canonical(m, version),
            Self::spec_write_principal_type(m, version) is Ok,
        ensures
            Self::spec_read_principal_type(written(Self::spec_write_principal_type(m, version)) + rest, version) == Ok::<(Seq<u8>, Seq<u8>), Error>((m.principal_type, rest)),
    {
        reveal(DescribeDelegationTokenOwner::spec_read_principal_type);
        reveal(DescribeDelegationTokenOwner::spec_write_principal_type);
        if version >= 2 {
            lemma_compact_string_round_trip(m.principal_type, rest);
        } else {
            lemma_string_round_trip(m.principal_type, rest);
        }
    }

    proof fn lemma_round_trip_principal_name(m: DescribeDelegationTokenOwnerView, version: i16, rest: Seq<u8>)
        requires
            Self::canonical(m, version),
            Self::spec_write_principal_name(m, version) is Ok,
        ensures
            Self::spec_read_principal_name(written(Self::spec_write_principal_name(m, version)) + rest, version) == Ok::<(Seq<u8>, Seq<u8>), Error>((m.principal_name, rest)),
    {
        reveal(DescribeDelegationTokenOwner::spec_read_principal_name);
        reveal(DescribeDelegationTokenOwner::spec_write_principal_name);
        if version >= 2 {
            lemma_compact_string_round_trip(m.principal_name, rest);
        } else {
            lemma_string_round_trip(m.principal_name, rest);
        }
    }

    proof fn lemma_round_trip_tags(m: DescribeDelegationTokenOwnerView, version: i16, rest: Seq<u8>)
        requires
            Self::canonical(m, version),
            Self::spec_write_tags(m, version) is Ok,
        ensures
            Self::spec_read_tags(written(Self::spec_write_tags(m, version)) + rest, version) == Ok::<(Seq<(u32, Seq<u8>)>, Seq<u8>), Error>((m.unknown_tagged_fields, rest)),
    {
        reveal(DescribeDelegationTokenOwner::spec_read_tags);
        reveal(DescribeDelegationTokenOwner::spec_write_tags);
        if version >= 2 {
            lemma_sorted_by_tag_in_order(m.unknown_tagged_fields);
            lemma_tagged_fields_round_trip(m.unknown_tagged_fields, rest);
        } else {
            assert(Seq::<u8>::empty() + rest =~= rest);
            assert(m.unknown_tagged_fields =~= Seq::empty());
        }
    }

    /// Reading back what writing `m` in `version` appends gives `m` again, and
    /// leaves what follows, for every canonical message whose write succeeds.
    #[verifier::rlimit(70)]
    #[verifier::spinoff_prover]
    pub proof fn lemma_round_trip(m: DescribeDelegationTokenOwnerView, version: i16, rest: Seq<u8>)
        requires
            Self::canonical(m, version),
            Self::spec_write(m, version) is Ok,
        ensures
            Self::spec_read(written(Self::spec_write(m, version)) + rest, version) == Ok::<(DescribeDelegationTokenOwnerView, Seq<u8>), Error>((m, rest)),
    {
        let b0 = written(Self::spec_write_principal_type(m, version));
        let b1 = written(Self::spec_write_principal_name(m, version));
        let b2 = written(Self::spec_write_tags(m, version));
        let t3 = rest;
        let t2 = b2 + t3;
        let t1 = b1 + t2;
        let t0 = b0 + t1;
        let w0 = Self::spec_write_principal_type(m, version);
        let w1 = chain(w0, Self::spec_write_principal_name(m, version));
        let w2 = chain(w1, Self::spec_write_tags(m, version));
        assert(Self::spec_write(m, version) == w2);
        assert(written(w2) + t3 =~= written(w1) + t2);
        assert(written(w1) + t2 =~= written(w0) + t1);
        Self::lemma_round_trip_principal_type(m, version, t1);
        Self::lemma_round_trip_principal_name(m, version, t2);
        Self::lemma_round_trip_tags(m, version, t3);
    }

    /// In a version that does not carry `unknown_tagged_fields`, writing ignores its value.
    pub proof fn lemma_write_ignores_unknown_tagged_fields(m: DescribeDelegationTokenOwnerView, value: Seq<(u32, Seq<u8>)>, version: i16)
        requires
            !(version >= 2),
        ensures
            Self::spec_write((DescribeDelegationTokenOwnerView { unknown_tagged_fields: value, ..m }), version) == Self::spec_write(m, version),
    {
        reveal(DescribeDelegationTokenOwner::spec_write_principal_type);
        reveal(DescribeDelegationTokenOwner::spec_write_principal_name);
        reveal(DescribeDelegationTokenOwner::spec_write_tags);
    }

    /// The default message holds the default value of each field of the schema.
    pub proof fn lemma_default_values()
        ensures
            Self::default_view().principal_type.len() == 0,
            Self::default_view().principal_name.len() == 0,
            Self::default_view().unknown_tagged_fields.len() == 0,
    {
    }

    /// Whether writing `m` in `version` succeeds, said over its parts: the
    /// version is one the schema covers, every field that the version cannot
    /// carry holds its default value, and every string, byte string, array and
    /// tagged field fits its length prefix.
    pub open spec fn writable(m: DescribeDelegationTokenOwnerView, version: i16) -> bool {
        &&& m.principal_type.len() <= 0x7fff
        &&& m.principal_name.len() <= 0x7fff
        &&& (if version >= 2 {
                m.unknown_tagged_fields.len() <= u32::MAX && tags_fit(m.unknown_tagged_fields)
            } else {
                true
        })
    }

    proof fn lemma_writable_principal_type(m: DescribeDelegationTokenOwnerView, version: i16)
        ensures
            Self::spec_write_principal_type(m, version) is Ok <==> m.principal_type.len() <= 0x7fff,
    {
        reveal(DescribeDelegationTokenOwner::spec_write_principal_type);
    }

    proof fn lemma_writable_principal_name(m: DescribeDelegationTokenOwnerView, version: i16)
        ensures
            Self::spec_write_principal_name(m, version) is Ok <==> m.principal_name.len() <= 0x7fff,
    {
        reveal(DescribeDelegationTokenOwner::spec_write_principal_name);
    }

    proof fn lemma_writable_tags(m: DescribeDelegationTokenOwnerView, version: i16)
        ensures
            Self::spec_write_tags(m, version) is Ok <==> (if version >= 2 { m.unknown_tagged_fields.len() <= u32::MAX && tags_fit(m.unknown_tagged_fields) } else { true }),
    {
        reveal(DescribeDelegationTokenOwner::spec_write_tags);
        if version >= 2 {
            lemma_sorted_tags_fit(m.unknown_tagged_fields);
            lemma_tagged_fields_writable(sorted_by_tag(m.unknown_tagged_fields));
        }
    }

    /// Writing `m` in `version` succeeds exactly when `m` is writable in it;
    /// so do `write` and `encoded_len`, whose results follow `spec_write`.
    #[verifier::rlimit(48)]
    pub proof fn lemma_writable(m: DescribeDelegationTokenOwnerView, version: i16)
        ensures
            Self::spec_write(m, version) is Ok <==> Self::writable(m, version),
    {
        Self::lemma_writable_principal_type(m, version);
        Self::lemma_writable_principal_name(m, version);
        Self::lemma_writable_tags(m, version);
    }

    fn read_principal_type(buf: &mut Bytes, version: i16) -> (r: Result<KafkaString, Error>)
        ensures
            read_as(Self::spec_read_principal_type(bytes_seq(*old(buf)), version), *final(buf), r),
            took_front(*old(buf), *final(buf)),
    {
        proof {
            reveal(DescribeDelegationTokenOwner::spec_read_principal_type);
        }
        Ok(if version >= 2 {
                read_compact_string(buf)?
            } else {
                read_string(buf)?
        })
    }

    fn read_principal_name(buf: &mut Bytes, version: i16) -> (r: Result<KafkaString, Error>)
        ensures
            read_as(Self::spec_read_principal_name(bytes_seq(*old(buf)), version), *final(buf), r),
            took_front(*old(buf), *final(buf)),
    {
        proof {
            reveal(DescribeDelegationTokenOwner::spec_read_principal_name);
        }
        Ok(if version >= 2 {
                read_compact_string(buf)?
            } else {
                read_string(buf)?
        })
    }

    fn read_tags(buf: &mut Bytes, version: i16) -> (r: Result<Vec<RawTaggedField>, Error>)
        ensures
            read_vec_as(Self::spec_read_tags(bytes_seq(*old(buf)), version), *final(buf), r),
            took_front(*old(buf), *final(buf)),
    {
        proof {
            reveal(DescribeDelegationTokenOwner::spec_read_tags);
        }
        Ok(if version >= 2 {
                read_tagged_fields(buf)?
            } else {
                empty_vec()
        })
    }

    pub fn read(buf: &mut Bytes, version: i16) -> (r: Result<Self, Error>)
        ensures
            read_as(Self::spec_read(bytes_seq(*old(buf)), version), *final(buf), r),
            took_front(*old(buf), *final(buf)),
    {
        let principal_type = Self::read_principal_type(buf, version)?;
        let principal_name = Self::read_principal_name(buf, version)?;
        let _unknown_tagged_fields = Self::read_tags(buf, version)?;
        Ok(DescribeDelegationTokenOwner {
                principal_type: principal_type,
                principal_name: principal_name,
                _unknown_tagged_fields: _unknown_tagged_fields,
        })
    }

    #[verifier::rlimit(60)]
    pub fn write(&self, buf: &mut BytesMut, version: i16) -> (r: Result<(), Error>)
        requires
            has_room(Self::spec_write(self@, version), *old(buf)),
        ensures
            wrote(Self::spec_write(self@, version), *old(buf), *final(buf), r),
    {
        let ghost m = self@;
        proof {
            reveal(DescribeDelegationTokenOwner::spec_write_principal_type);
            reveal(DescribeDelegationTokenOwner::spec_write_principal_name);
            reveal(DescribeDelegationTokenOwner::spec_write_tags);
        }
        let ghost s0 = Self::spec_write_principal_type(m, version);
        let ghost w0 = s0;
        let ghost s1 = Self::spec_write_principal_name(m, version);
        let ghost w1 = chain(w0, s1);
        let ghost s2 = Self::spec_write_tags(m, version);
        let ghost w2 = chain(w1, s2);
        assert(Self::spec_write(m, version) == w2);
        assert(written(w1).len() <= written(w2).len() && (w1 is Err ==> w2 == w1));
        assert(written(w0).len() <= written(w2).len() && (w0 is Err ==> w2 == w0));
        let ghost mid = bytes_mut_seq(*buf);
        proof {
            lemma_append_empty(mid);
        }
        let r0 = if version >= 2 {
            write_compact_string(buf, &self.principal_type)
        } else {
            write_string(buf, &self.principal_type)
        };
        assert(bytes_mut_seq(*buf) == mid + written(s0));
        if r0.is_err() {
            return r0;
        }
        let ghost mid = bytes_mut_seq(*buf);
        proof {
            lemma_append_empty(mid);
        }
        let r1 = if version >= 2 {
            write_compact_string(buf, &self.principal_name)
        } else {
            write_string(buf, &self.principal_name)
        };
        assert(bytes_mut_seq(*buf) == mid + written(s1));
        proof {
            lemma_step(bytes_mut_seq(*old(buf)), w0, s1);
        }
        if r1.is_err() {
            return r1;
        }
        let ghost mid = bytes_mut_seq(*buf);
        proof {
            lemma_append_empty(mid);
        }
        let r2 = if version >= 2 {
            write_tagged_fields(buf, &sort_by_tag(&self._unknown_tagged_fields))
        } else {
            Ok(())
        };
        assert(bytes_mut_seq(*buf) == mid + written(s2));
        proof {
            lemma_step(bytes_mut_seq(*old(buf)), w1, s2);
        }
        if r2.is_err() {
            return r2;
        }
        Ok(())
    }
}

impl Codec for DescribeDelegationTokenOwner {
    type Item = DescribeDelegationTokenOwner;

    open spec fn spec_read_item(s: Seq<u8>, version: i16) -> ReadOutcome<DescribeDelegationTokenOwnerView> {
        DescribeDelegationTokenOwner::spec_read(s, version)
    }

    open spec fn spec_write_item(v: DescribeDelegationTokenOwnerView, version: i16) -> WriteOutcome {
        DescribeDelegationTokenOwner::spec_write(v, version)
    }

    open spec fn canonical_item(v: DescribeDelegationTokenOwnerView, version: i16) -> bool {
        DescribeDelegationTokenOwner::canonical(v, version)
    }

    proof fn lemma_item_round_trip(v: DescribeDelegationTokenOwnerView, version: i16, rest: Seq<u8>) {
        DescribeDelegationTokenOwner::lemma_round_trip(v, version, rest);
    }

    open spec fn writable_item(v: DescribeDelegationTokenOwnerView, version: i16) -> bool {
        DescribeDelegationTokenOwner::writable(v, version)
    }

    proof fn lemma_item_writable(v: DescribeDelegationTokenOwnerView, version: i16) {
        DescribeDelegationTokenOwner::lemma_writable(v, version);
    }

    fn read_item(buf: &mut Bytes, version: i16) -> (r: Result<DescribeDelegationTokenOwner, Error>) {
        DescribeDelegationTokenOwner::read(buf, version)
    }

    fn write_item(item: &DescribeDelegationTokenOwner, buf: &mut BytesMut, version: i16) -> (r: Result<(), Error>) {
        item.write(buf, version)
    }
}

} // verus!
