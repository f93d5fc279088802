//! The list config resources request message.
use crate::buffer::{bytes_mut_seq, bytes_seq};
use crate::codec::{Int8Item, all_writable, lemma_array_round_trip, lemma_array_writable, read_array, spec_read_array, spec_write_array, write_array};
use crate::error::{Error, UnsupportedVersion};
use crate::tagged::{lemma_sorted_by_tag_in_order, lemma_sorted_tags_fit, lemma_tagged_fields_round_trip, lemma_tagged_fields_writable, read_tagged_fields, sort_by_tag, sorted_by_tag, spec_read_tagged_fields, spec_write_tagged_fields, tags_fit, tags_in_order, write_tagged_fields};
use crate::types::{RawTaggedField};
use crate::wire::{ReadOutcome, ViewClone, WriteOutcome, chain, clone_vec, emit, empty_vec, fail, has_room, lemma_append_empty, lemma_chain_written, lemma_step, read_as, read_vec_as, took_front, views, written, wrote};
use bytes::{Bytes, BytesMut};
use vstd::prelude::*;

verus! {

broadcast use {crate::wire::lemma_chain_written, crate::wire::lemma_took_front_nothing, crate::wire::lemma_took_front_twice};

#[derive(Debug, PartialEq)]
pub struct ListConfigResourcesRequestData {
    /// The list of resource type. If the list is empty, it uses default supported config resource
    /// types.
    pub resource_types: Vec<i8>,
    pub _unknown_tagged_fields: Vec<RawTaggedField>,
}

/// What a `ListConfigResourcesRequestData` holds, as the specification sees it.
#[verifier::ext_equal]
pub struct ListConfigResourcesRequestDataView {
    pub resource_types: Seq<i8>,
    pub unknown_tagged_fields: Seq<(u32, Seq<u8>)>,
}

impl View for ListConfigResourcesRequestData {
    type V = ListConfigResourcesRequestDataView;

    open spec fn view(&self) -> ListConfigResourcesRequestDataView {
        ListConfigResourcesRequestDataView {
            resource_types: views(self.resource_types@),
            unknown_tagged_fields: views(self._unknown_tagged_fields@),
        }
    }
}

impl Clone for ListConfigResourcesRequestData {
    fn clone(&self) -> (r: Self)
        ensures
            r@ == self@,
    {
        let r = ListConfigResourcesRequestData {
            resource_types: clone_vec(&self.resource_types),
            _unknown_tagged_fields: clone_vec(&self._unknown_tagged_fields),
        };
        assert(r@ =~= self@);
        r
    }
}

impl ViewClone for ListConfigResourcesRequestData {
    fn clone_view(&self) -> (r: Self) {
        self.clone()
    }
}

impl Default for ListConfigResourcesRequestData {
    fn default() -> (r: Self)
        ensures
            r@ == Self::default_view(),
    {
        let r = ListConfigResourcesRequestData {
            resource_types: empty_vec(),
            _unknown_tagged_fields: empty_vec(),
        };
        assert(r@ =~= Self::default_view());
        r
    }
}

impl ListConfigResourcesRequestData {
    pub open spec fn default_view() -> ListConfigResourcesRequestDataView {
        ListConfigResourcesRequestDataView {
            resource_types: Seq::empty(),
            unknown_tagged_fields: Seq::empty(),
        }
    }

    /// The `resource_types` field, read from the front of `s`.
    #[verifier::opaque]
    pub open spec fn spec_read_resource_types(s: Seq<u8>, version: i16) -> ReadOutcome<Seq<i8>> {
        if version >= 1 {
            spec_read_array::<Int8Item>(s, version, true)
        } else {
            Ok((Seq::empty(), s))
        }
    }

    /// The tagged fields, read from the front of `s`.
    #[verifier::opaque]
    pub open spec fn spec_read_tags(s: Seq<u8>, version: i16) -> ReadOutcome<Seq<(u32, Seq<u8>)>> {
        spec_read_tagged_fields(s)
    }

    pub open spec fn spec_read(s: Seq<u8>, version: i16) -> ReadOutcome<ListConfigResourcesRequestDataView> {
        if version < 0 || version > 1 {
            Err(Error::UnsupportedVersion(UnsupportedVersion { api_key: 74, version }))
        } else {
            match (Self::spec_read_resource_types(s, version)) {
                Err(e) => Err(e),
                Ok((resource_types, s)) => match (Self::spec_read_tags(s, version)) {
                    Err(e) => Err(e),
                    Ok((unknown_tagged_fields, s)) => Ok((ListConfigResourcesRequestDataView {
                                resource_types: resource_types,
                                unknown_tagged_fields: unknown_tagged_fields,
                            }, s)),
                },
            }
        }
    }

    /// What writing the `resource_types` field of `m` appends.
    #[verifier::opaque]
    pub open spec fn spec_write_resource_types(m: ListConfigResourcesRequestDataView, version: i16) -> WriteOutcome {
        if version >= 1 {
            spec_write_array::<Int8Item>(m.resource_types, version, true)
        } else {
            emit(Seq::empty())
        }
    }

    /// What writing the tagged fields of `m` appends.
    #[verifier::opaque]
    pub open spec fn spec_write_tags(m: ListConfigResourcesRequestDataView, version: i16) -> WriteOutcome {
        spec_write_tagged_fields(sorted_by_tag(m.unknown_tagged_fields))
    }

    pub open spec fn spec_write(m: ListConfigResourcesRequestDataView, version: i16) -> WriteOutcome {
        if version < 0 || version > 1 {
            fail(Error::UnsupportedVersion(UnsupportedVersion { api_key: 74, version }))
        } else {
            chain(
                Self::spec_write_resource_types(m, version),
                Self::spec_write_tags(m, version),
            )
        }
    }

    /// Whether reading back what writing `m` in `version` appends gives `m`:
    /// fields that the version does not carry hold their default values, and
    /// tagged fields come in the order in which they are written.
    pub open spec fn canonical(m: ListConfigResourcesRequestDataView, version: i16) -> bool {
        &&& (if version >= 1 {
                true
            } else {
                m.resource_types.len() == 0
        })
        &&& tags_in_order(m.unknown_tagged_fields)
    }

    proof fn lemma_round_trip_resource_types(m: ListConfigResourcesRequestDataView, version: i16, rest: Seq<u8>)
        requires
            Self::canonical(m, version),
            Self::spec_write_resource_types(m, version) is Ok,
        ensures
            Self::spec_read_resource_types(written(Self::spec_write_resource_types(m, version)) + rest, version) == Ok::<(Seq<i8>, Seq<u8>), Error>((m.resource_types, rest)),
    {
        reveal(ListConfigResourcesRequestData::spec_read_resource_types);
        reveal(ListConfigResourcesRequestData::spec_write_resource_types);
        if version >= 1 {
            lemma_array_round_trip::<Int8Item>(m.resource_types, version, true, rest);
        } else {
            assert(Seq::<u8>::empty() + rest =~= rest);
            assert(m.resource_types =~= Seq::empty());
        }
    }

    proof fn lemma_round_trip_tags(m: ListConfigResourcesRequestDataView, version: i16, rest: Seq<u8>)
        requires
            Self::canonical(m, version),
            Self::spec_write_tags(m, version) is Ok,
        ensures
            Self::spec_read_tags(written(Self::spec_write_tags(m, version)) + rest, version) == Ok::<(Seq<(u32, Seq<u8>)>, Seq<u8>), Error>((m.unknown_tagged_fields, rest)),
    {
        reveal(ListConfigResourcesRequestData::spec_read_tags);
        reveal(ListConfigResourcesRequestData::spec_write_tags);
        lemma_sorted_by_tag_in_order(m.unknown_tagged_fields);
        lemma_tagged_fields_round_trip(m.unknown_tagged_fields, rest);
    }

    /// Reading back what writing `m` in `version` appends gives `m` again, and
    /// leaves what follows, for every canonical message whose write succeeds.
    #[verifier::rlimit(60)]
    #[verifier::spinoff_prover]
    pub proof fn lemma_round_trip(m: ListConfigResourcesRequestDataView, version: i16, rest: Seq<u8>)
        requires
            Self::canonical(m, version),
            Self::spec_write(m, version) is Ok,
        ensures
            Self::spec_read(written(Self::spec_write(m, version)) + rest, version) == Ok::<(ListConfigResourcesRequestDataView, Seq<u8>), Error>((m, rest)),
    {
        let b0 = written(Self::spec_write_resource_types(m, version));
        let b1 = written(Self::spec_write_tags(m, version));
        let t2 = rest;
        let t1 = b1 + t2;
        let t0 = b0 + t1;
        let w0 = Self::spec_write_resource_types(m, version);
        let w1 = chain(w0, Self::spec_write_tags(m, version));
        assert(Self::spec_write(m, version) == w1);
        assert(written(w1) + t2 =~= written(w0) + t1);
        Self::lemma_round_trip_resource_types(m, version, t1);
        Self::lemma_round_trip_tags(m, version, t2);
    }

    /// In a version that does not carry `resource_types`, writing ignores its value.
    pub proof fn lemma_write_ignores_resource_types(m: ListConfigResourcesRequestDataView, value: Seq<i8>, version: i16)
        requires
            !(version >= 1),
        ensures
            Self::spec_write((ListConfigResourcesRequestDataView { resource_types: value, ..m }), version) == Self::spec_write(m, version),
    {
        reveal(ListConfigResourcesRequestData::spec_write_resource_types);
        reveal(ListConfigResourcesRequestData::spec_write_tags);
    }

    /// The default message holds the default value of each field of the schema.
    pub proof fn lemma_default_values()
        ensures
            Self::default_view().resource_types.len() == 0,
            Self::default_view().unknown_tagged_fields.len() == 0,
    {
    }

    /// Each integer, boolean and identifier field is written as its standard
    /// big-endian bytes (a boolean as `1` or `0`) in the versions that carry
    /// it, and as nothing in the others; reading it takes those bytes back (any
    /// byte other than `0` reads as `true`), or gives its default value.
    pub proof fn lemma_field_encodings(m: ListConfigResourcesRequestDataView, s: Seq<u8>, version: i16)
        ensures
            !(version >= 1) ==> Self::spec_write_resource_types(m, version) == Ok::<Seq<u8>, (Error, Seq<u8>)>(Seq::empty()),
    {
        reveal(ListConfigResourcesRequestData::spec_write_resource_types);
        reveal(ListConfigResourcesRequestData::spec_read_resource_types);
    }

    /// Whether writing `m` in `version` succeeds, said over its parts: the
    /// version is one the schema covers, every field that the version cannot
    /// carry holds its default value, and every string, byte string, array and
    /// tagged field fits its length prefix.
    pub open spec fn writable(m: ListConfigResourcesRequestDataView, version: i16) -> bool {
        &&& 0 <= version <= 1
        &&& (if version >= 1 {
                (m.resource_types.len() <= i32::MAX && all_writable::<Int8Item>(m.resource_types, version))
            } else {
                true
        })
        &&& m.unknown_tagged_fields.len() <= u32::MAX && tags_fit(m.unknown_tagged_fields)
    }

    proof fn lemma_writable_resource_types(m: ListConfigResourcesRequestDataView, version: i16)
        ensures
            Self::spec_write_resource_types(m, version) is Ok <==> (if version >= 1 { (m.resource_types.len() <= i32::MAX && all_writable::<Int8Item>(m.resource_types, version)) } else { true }),
    {
        reveal(ListConfigResourcesRequestData::spec_write_resource_types);
        if version >= 1 {
            lemma_array_writable::<Int8Item>(m.resource_types, version, true);
        } else {
        }
    }

    proof fn lemma_writable_tags(m: ListConfigResourcesRequestDataView, version: i16)
        ensures
            Self::spec_write_tags(m, version) is Ok <==> m.unknown_tagged_fields.len() <= u32::MAX && tags_fit(m.unknown_tagged_fields),
    {
        reveal(ListConfigResourcesRequestData::spec_write_tags);
        lemma_sorted_tags_fit(m.unknown_tagged_fields);
        lemma_tagged_fields_writable(sorted_by_tag(m.unknown_tagged_fields));
    }

    /// Writing `m` in `version` succeeds exactly when `m` is writable in it;
    /// so do `write` and `encoded_len`, whose results follow `spec_write`.
    #[verifier::rlimit(42)]
    pub proof fn lemma_writable(m: ListConfigResourcesRequestDataView, version: i16)
        ensures
            Self::spec_write(m, version) is Ok <==> Self::writable(m, version),
    {
        Self::lemma_writable_resource_types(m, version);
        Self::lemma_writable_tags(m, version);
    }

    /// A version outside the range that the schema covers is refused, by
    /// reads and by writes alike, before anything is read or written.
    pub proof fn lemma_refused_version(m: ListConfigResourcesRequestDataView, s: Seq<u8>, version: i16)
        requires
            version < 0 || version > 1,
        ensures
            Self::spec_read(s, version) == Err::<(ListConfigResourcesRequestDataView, Seq<u8>), Error>(Error::UnsupportedVersion(UnsupportedVersion { api_key: 74, version })),
            Self::spec_write(m, version) == fail(Error::UnsupportedVersion(UnsupportedVersion { api_key: 74, version })),
    {
    }

    fn read_resource_types(buf: &mut Bytes, version: i16) -> (r: Result<Vec<i8>, Error>)
        ensures
            read_vec_as(Self::spec_read_resource_types(bytes_seq(*old(buf)), version), *final(buf), r),
            took_front(*old(buf), *final(buf)),
    {
        proof {
            reveal(ListConfigResourcesRequestData::spec_read_resource_types);
        }
        Ok(if version >= 1 {
                read_array::<Int8Item>(buf, version, true)?
            } else {
                empty_vec()
        })
    }

    fn read_tags(buf: &mut Bytes, version: i16) -> (r: Result<Vec<RawTaggedField>, Error>)
        ensures
            read_vec_as(Self::spec_read_tags(bytes_seq(*old(buf)), version), *final(buf), r),
            took_front(*old(buf), *final(buf)),
    {
        proof {
            reveal(ListConfigResourcesRequestData::spec_read_tags);
        }
        Ok(read_tagged_fields(buf)?)
    }

    pub fn read(buf: &mut Bytes, version: i16) -> (r: Result<Self, Error>)
        ensures
            read_as(Self::spec_read(bytes_seq(*old(buf)), version), *final(buf), r),
            took_front(*old(buf), *final(buf)),
            (version < 0 || version > 1) ==> bytes_seq(*final(buf)) == bytes_seq(*old(buf)),
    {
        if version < 0 || version > 1 {
            return Err(Error::UnsupportedVersion(UnsupportedVersion::new(74, version)));
        }
        let resource_types = Self::read_resource_types(buf, version)?;
        let _unknown_tagged_fields = Self::read_tags(buf, version)?;
        Ok(ListConfigResourcesRequestData {
                resource_types: resource_types,
                _unknown_tagged_fields: _unknown_tagged_fields,
        })
    }

    #[verifier::rlimit(50)]
    pub fn write(&self, buf: &mut BytesMut, version: i16) -> (r: Result<(), Error>)
        requires
            has_room(Self::spec_write(self@, version), *old(buf)),
        ensures
            wrote(Self::spec_write(self@, version), *old(buf), *final(buf), r),
    {
        if version < 0 || version > 1 {
            return Err(Error::UnsupportedVersion(UnsupportedVersion::new(74, version)));
        }
        let ghost m = self@;
        proof {
            reveal(ListConfigResourcesRequestData::spec_write_resource_types);
            reveal(ListConfigResourcesRequestData::spec_write_tags);
        }
        let ghost s0 = Self::spec_write_resource_types(m, version);
        let ghost w0 = s0;
        let ghost s1 = Self::spec_write_tags(m, version);
        let ghost w1 = chain(w0, s1);
        assert(Self::spec_write(m, version) == w1);
        assert(written(w0).len() <= written(w1).len() && (w0 is Err ==> w1 == w0));
        let ghost mid = bytes_mut_seq(*buf);
        proof {
            lemma_append_empty(mid);
        }
        let r0 = if version >= 1 {
            write_array::<Int8Item>(buf, &self.resource_types, version, true)
        } else {
            Ok(())
        };
        assert(bytes_mut_seq(*buf) == mid + written(s0));
        if r0.is_err() {
            return r0;
        }
        let ghost mid = bytes_mut_seq(*buf);
        proof {
            lemma_append_empty(mid);
        }
        let r1 = write_tagged_fields(buf, &sort_by_tag(&self._unknown_tagged_fields));
        assert(bytes_mut_seq(*buf) == mid + written(s1));
        proof {
            lemma_step(bytes_mut_seq(*old(buf)), w0, s1);
        }
        if r1.is_err() {
            return r1;
        }
        Ok(())
    }
}

} // verus!
