//! The describe groups request message.
use crate::buffer::{bytes_mut_seq, bytes_seq};
use crate::codec::{CompactStringItem, StringItem, all_writable, lemma_array_round_trip, lemma_array_writable, read_array, spec_read_array, spec_write_array, write_array};
use crate::error::{Error, UnsupportedVersion};
use crate::ints::{lemma_bool_roundtrip, read_bool, spec_read_bool, spec_write_bool, write_bool};
use crate::tagged::{lemma_sorted_by_tag_in_order, lemma_sorted_tags_fit, lemma_tagged_fields_round_trip, lemma_tagged_fields_writable, read_tagged_fields, sort_by_tag, sorted_by_tag, spec_read_tagged_fields, spec_write_tagged_fields, tags_fit, tags_in_order, write_tagged_fields};
use crate::types::{KafkaString, RawTaggedField};
use crate::wire::{ReadOutcome, ViewClone, WriteOutcome, chain, clone_vec, emit, empty_vec, fail, has_room, lemma_append_empty, lemma_chain_written, lemma_step, read_as, read_vec_as, took_front, views, written, wrote};
use bytes::{Bytes, BytesMut};
use vstd::prelude::*;

verus! {

broadcast use {crate::wire::lemma_chain_written, crate::wire::lemma_took_front_nothing, crate::wire::lemma_took_front_twice};

#[derive(Debug, PartialEq)]
pub struct DescribeGroupsRequestData {
    /// The names of the groups to describe.
    pub groups: Vec<KafkaString>,
    /// Whether to include authorized operations.
    pub include_authorized_operations: bool,
    pub _unknown_tagged_fields: Vec<RawTaggedField>,
}

/// What a `DescribeGroupsRequestData` holds, as the specification sees it.
#[verifier::ext_equal]
pub struct DescribeGroupsRequestDataView {
    pub groups: Seq<Seq<u8>>,
    pub include_authorized_operations: bool,
    pub unknown_tagged_fields: Seq<(u32, Seq<u8>)>,
}

impl View for DescribeGroupsRequestData {
    type V = DescribeGroupsRequestDataView;

    open spec fn view(&self) -> DescribeGroupsRequestDataView {
        DescribeGroupsRequestDataView {
            groups: views(self.groups@),
            include_authorized_operations: self.include_authorized_operations,
            unknown_tagged_fields: views(self._unknown_tagged_fields@),
        }
    }
}

impl Clone for DescribeGroupsRequestData {
    fn clone(&self) -> (r: Self)
        ensures
            r@ == self@,
    {
        let r = DescribeGroupsRequestData {
            groups: clone_vec(&self.groups),
            include_authorized_operations: self.include_authorized_operations,
            _unknown_tagged_fields: clone_vec(&self._unknown_tagged_fields),
        };
        assert(r@ =~= self@);
        r
    }
}

impl ViewClone for DescribeGroupsRequestData {
    fn clone_view(&self) -> (r: Self) {
        self.clone()
    }
}

impl Default for DescribeGroupsRequestData {
    fn default() -> (r: Self)
        ensures
            r@ == Self::default_view(),
    {
        let r = DescribeGroupsRequestData {
            groups: empty_vec(),
            include_authorized_operations: false,
            _unknown_tagged_fields: empty_vec(),
        };
        assert(r@ =~= Self::default_view());
        r
    }
}

impl DescribeGroupsRequestData {
    pub open spec fn default_view() -> DescribeGroupsRequestDataView {
        DescribeGroupsRequestDataView {
            groups: Seq::empty(),
            include_authorized_operations: false,
            unknown_tagged_fields: Seq::empty(),
        }
    }

    /// The `groups` field, read from the front of `s`.
    #[verifier::opaque]
    pub open spec fn spec_read_groups(s: Seq<u8>, version: i16) -> ReadOutcome<Seq<Seq<u8>>> {
        if version >= 5 {
            spec_read_array::<CompactStringItem>(s, version, true)
        } else {
            spec_read_array::<StringItem>(s, version, false)
        }
    }

    /// The `include_authorized_operations` field, read from the front of `s`.
    #[verifier::opaque]
    pub open spec fn spec_read_include_authorized_operations(s: Seq<u8>, version: i16) -> ReadOutcome<bool> {
        if version >= 3 {
            spec_read_bool(s)
        } else {
            Ok((false, s))
        }
    }

    /// The tagged fields, read from the front of `s`.
    #[verifier::opaque]
    pub open spec fn spec_read_tags(s: Seq<u8>, version: i16) -> ReadOutcome<Seq<(u32, Seq<u8>)>> {
        if version >= 5 {
            spec_read_tagged_fields(s)
        } else {
            Ok((Seq::empty(), s))
        }
    }

    pub open spec fn spec_read(s: Seq<u8>, version: i16) -> ReadOutcome<DescribeGroupsRequestDataView> {
        if version < 0 || version > 6 {
            Err(Error::UnsupportedVersion(UnsupportedVersion { api_key: 15, version }))
        } else {
            match (Self::spec_read_groups(s, version)) {
                Err(e) => Err(e),
                Ok((groups, s)) => match (Self::spec_read_include_authorized_operations(s, version)) {
                    Err(e) => Err(e),
                    Ok((include_authorized_operations, s)) => match (Self::spec_read_tags(s, version)) {
                        Err(e) => Err(e),
                        Ok((unknown_tagged_fields, s)) => Ok((DescribeGroupsRequestDataView {
                                    groups: groups,
                                    include_authorized_operations: include_authorized_operations,
                                    unknown_tagged_fields: unknown_tagged_fields,
                                }, s)),
                    },
                },
            }
        }
    }

    /// What writing the `groups` field of `m` appends.
    #[verifier::opaque]
    pub open spec fn spec_write_groups(m: DescribeGroupsRequestDataView, version: i16) -> WriteOutcome {
        if version >= 5 {
            spec_write_array::<CompactStringItem>(m.groups, version, true)
        } else {
            spec_write_array::<StringItem>(m.groups, version, false)
        }
    }

    /// What writing the `include_authorized_operations` field of `m` appends.
    #[verifier::opaque]
    pub open spec fn spec_write_include_authorized_operations(m: DescribeGroupsRequestDataView, version: i16) -> WriteOutcome {
        if version >= 3 {
            spec_write_bool(m.include_authorized_operations)
        } else {
            emit(Seq::empty())
        }
    }

    /// What writing the tagged fields of `m` appends.
    #[verifier::opaque]
    pub open spec fn spec_write_tags(m: DescribeGroupsRequestDataView, version: i16) -> WriteOutcome {
        if version >= 5 {
            spec_write_tagged_fields(sorted_by_tag(m.unknown_tagged_fields))
        } else {
            emit(Seq::empty())
        }
    }

    pub open spec fn spec_write(m: DescribeGroupsRequestDataView, version: i16) -> WriteOutcome {
        if version < 0 || version > 6 {
            fail(Error::UnsupportedVersion(UnsupportedVersion { api_key: 15, version }))
        } else {
            chain(
                chain(
                    Self::spec_write_groups(m, version),
                    Self::spec_write_include_authorized_operations(m, version),
                ),
                Self::spec_write_tags(m, version),
            )
        }
    }

    /// Whether reading back what writing `m` in `version` appends gives `m`:
    /// fields that the version does not carry hold their default values, and
    /// tagged fields come in the order in which they are written.
    pub open spec fn canonical(m: DescribeGroupsRequestDataView, version: i16) -> bool {
        &&& (if version >= 3 {
                true
            } else {
                m.include_authorized_operations == false
        })
        &&& (if version >= 5 {
                tags_in_order(m.unknown_tagged_fields)
            } else {
                m.unknown_tagged_fields.len() == 0
        })
    }

    proof fn lemma_round_trip_groups(m: DescribeGroupsRequestDataView, version: i16, rest: Seq<u8>)
        requires
            Self::canonical(m, version),
            Self::spec_write_groups(m, version) is Ok,
        ensures
            Self::spec_read_groups(written(Self::spec_write_groups(m, version)) + rest, version) == Ok::<(Seq<Seq<u8>>, Seq<u8>), Error>((m.groups, rest)),
    {
        reveal(DescribeGroupsRequestData::spec_read_groups);
        reveal(DescribeGroupsRequestData::spec_write_groups);
        if version >= 5 {
            lemma_array_round_trip::<CompactStringItem>(m.groups, version, true, rest);
        } else {
            lemma_array_round_trip::<StringItem>(m.groups, version, false, rest);
        }
    }

    proof fn lemma_round_trip_include_authorized_operations(m: DescribeGroupsRequestDataView, version: i16, rest: Seq<u8>)
        requires
            Self::canonical(m, version),
            Self::spec_write_include_authorized_operations(m, version) is Ok,
        ensures
            Self::spec_read_include_authorized_operations(written(Self::spec_write_include_authorized_operations(m, version)) + rest, version) == Ok::<(bool, Seq<u8>), Error>((m.include_authorized_operations, rest)),
    {
        reveal(DescribeGroupsRequestData::spec_read_include_authorized_operations);
        reveal(DescribeGroupsRequestData::spec_write_include_authorized_operations);
        if version >= 3 {
            lemma_bool_roundtrip(m.include_authorized_operations, rest);
        } else {
            assert(Seq::<u8>::empty() + rest =~= rest);
        }
    }

    proof fn lemma_round_trip_tags(m: DescribeGroupsRequestDataView, version: i16, rest: Seq<u8>)
        requires
            Self::canonical(m, version),
            Self::spec_write_tags(m, version) is Ok,
        ensures
            Self::spec_read_tags(written(Self::spec_write_tags(m, version)) + rest, version) == Ok::<(Seq<(u32, Seq<u8>)>, Seq<u8>), Error>((m.unknown_tagged_fields, rest)),
    {
        reveal(DescribeGroupsRequestData::spec_read_tags);
        reveal(DescribeGroupsRequestData::spec_write_tags);
        if version >= 5 {
            lemma_sorted_by_tag_in_order(m.unknown_tagged_fields);
            lemma_tagged_fields_round_trip(m.unknown_tagged_fields, rest);
        } else {
            assert(Seq::<u8>::empty() + rest =~= rest);
            assert(m.unknown_tagged_fields =~= Seq::empty());
        }
    }

    /// Reading back what writing `m` in `version` appends gives `m` again, and
    /// leaves what follows, for every canonical message whose write succeeds.
    #[verifier::rlimit(70)]
    #[verifier::spinoff_prover]
    pub proof fn lemma_round_trip(m: DescribeGroupsRequestDataView, version: i16, rest: Seq<u8>)
        requires
            Self::canonical(m, version),
            Self::spec_write(m, version) is Ok,
        ensures
            Self::spec_read(written(Self::spec_write(m, version)) + rest, version) == Ok::<(DescribeGroupsRequestDataView, Seq<u8>), Error>((m, rest)),
    {
        let b0 = written(Self::spec_write_groups(m, version));
        let b1 = written(Self::spec_write_include_authorized_operations(m, version));
        let b2 = written(Self::spec_write_tags(m, version));
        let t3 = rest;
        let t2 = b2 + t3;
        let t1 = b1 + t2;
        let t0 = b0 + t1;
        let w0 = Self::spec_write_groups(m, version);
        let w1 = chain(w0, Self::spec_write_include_authorized_operations(m, version));
        let w2 = chain(w1, Self::spec_write_tags(m, version));
        assert(Self::spec_write(m, version) == w2);
        assert(written(w2) + t3 =~= written(w1) + t2);
        assert(written(w1) + t2 =~= written(w0) + t1);
        Self::lemma_round_trip_groups(m, version, t1);
        Self::lemma_round_trip_include_authorized_operations(m, version, t2);
        Self::lemma_round_trip_tags(m, version, t3);
    }

    /// In a version that does not carry `include_authorized_operations`, writing ignores its value.
    pub proof fn lemma_write_ignores_include_authorized_operations(m: DescribeGroupsRequestDataView, value: bool, version: i16)
        requires
            !(version >= 3),
        ensures
            Self::spec_write((DescribeGroupsRequestDataView { include_authorized_operations: value, ..m }), version) == Self::spec_write(m, version),
    {
        reveal(DescribeGroupsRequestData::spec_write_groups);
        reveal(DescribeGroupsRequestData::spec_write_include_authorized_operations);
        reveal(DescribeGroupsRequestData::spec_write_tags);
    }

    /// In a version that does not carry `unknown_tagged_fields`, writing ignores its value.
    pub proof fn lemma_write_ignores_unknown_tagged_fields(m: DescribeGroupsRequestDataView, value: Seq<(u32, Seq<u8>)>, version: i16)
        requires
            !(version >= 5),
        ensures
            Self::spec_write((DescribeGroupsRequestDataView { unknown_tagged_fields: value, ..m }), version) == Self::spec_write(m, version),
    {
        reveal(DescribeGroupsRequestData::spec_write_groups);
        reveal(DescribeGroupsRequestData::spec_write_include_authorized_operations);
        reveal(DescribeGroupsRequestData::spec_write_tags);
    }

    /// The default message holds the default value of each field of the schema.
    pub proof fn lemma_default_values()
        ensures
            Self::default_view().groups.len() == 0,
            Self::default_view().include_authorized_operations == (false),
            Self::default_view().unknown_tagged_fields.len() == 0,
    {
    }

    /// Each integer, boolean and identifier field is written as its standard
    /// big-endian bytes (a boolean as `1` or `0`) in the versions that carry
    /// it, and as nothing in the others; reading it takes those bytes back (any
    /// byte other than `0` reads as `true`), or gives its default value.
    pub proof fn lemma_field_encodings(m: DescribeGroupsRequestDataView, s: Seq<u8>, version: i16)
        ensures
            version >= 3 ==> Self::spec_write_include_authorized_operations(m, version) == Ok::<Seq<u8>, (Error, Seq<u8>)>(seq![if m.include_authorized_operations { 1u8 } else { 0u8 }]),
            !(version >= 3) ==> Self::spec_write_include_authorized_operations(m, version) == Ok::<Seq<u8>, (Error, Seq<u8>)>(Seq::empty()),
            version >= 3 ==> Self::spec_read_include_authorized_operations(s, version) == (if s.len() < 1 { Err(Error::UnexpectedEof) } else { Ok((s[0] != 0, s.drop_first())) }),
            !(version >= 3) ==> Self::spec_read_include_authorized_operations(s, version) == Ok::<(bool, Seq<u8>), Error>((false, s)),
    {
        reveal(DescribeGroupsRequestData::spec_write_include_authorized_operations);
        reveal(DescribeGroupsRequestData::spec_read_include_authorized_operations);
    }

    /// Whether writing `m` in `version` succeeds, said over its parts: the
    /// version is one the schema covers, every field that the version cannot
    /// carry holds its default value, and every string, byte string, array and
    /// tagged field fits its length prefix.
    pub open spec fn writable(m: DescribeGroupsRequestDataView, version: i16) -> bool {
        &&& 0 <= version <= 6
        &&& (if version >= 5 {
                (m.groups.len() <= i32::MAX && all_writable::<CompactStringItem>(m.groups, version))
            } else {
                (m.groups.len() <= i32::MAX && all_writable::<StringItem>(m.groups, version))
        })
        &&& (if version >= 5 {
                m.unknown_tagged_fields.len() <= u32::MAX && tags_fit(m.unknown_tagged_fields)
            } else {
                true
        })
    }

    proof fn lemma_writable_groups(m: DescribeGroupsRequestDataView, version: i16)
        ensures
            Self::spec_write_groups(m, version) is Ok <==> (if version >= 5 { (m.groups.len() <= i32::MAX && all_writable::<CompactStringItem>(m.groups, version)) } else { (m.groups.len() <= i32::MAX && all_writable::<StringItem>(m.groups, version)) }),
    {
        reveal(DescribeGroupsRequestData::spec_write_groups);
        if version >= 5 {
            lemma_array_writable::<CompactStringItem>(m.groups, version, true);
        } else {
            lemma_array_writable::<StringItem>(m.groups, version, false);
        }
    }

    proof fn lemma_writable_include_authorized_operations(m: DescribeGroupsRequestDataView, version: i16)
        ensures
            Self::spec_write_include_authorized_operations(m, version) is Ok <==> true,
    {
        reveal(DescribeGroupsRequestData::spec_write_include_authorized_operations);
    }

    proof fn lemma_writable_tags(m: DescribeGroupsRequestDataView, version: i16)
        ensures
            Self::spec_write_tags(m, version) is Ok <==> (if version >= 5 { m.unknown_tagged_fields.len() <= u32::MAX && tags_fit(m.unknown_tagged_fields) } else { true }),
    {
        reveal(DescribeGroupsRequestData::spec_write_tags);
        if version >= 5 {
            lemma_sorted_tags_fit(m.unknown_tagged_fields);
            lemma_tagged_fields_writable(sorted_by_tag(m.unknown_tagged_fields));
        }
    }

    /// Writing `m` in `version` succeeds exactly when `m` is writable in it;
    /// so do `write` and `encoded_len`, whose results follow `spec_write`.
    #[verifier::rlimit(48)]
    pub proof fn lemma_writable(m: DescribeGroupsRequestDataView, version: i16)
        ensures
            Self::spec_write(m, version) is Ok <==> Self::writable(m, version),
    {
        Self::lemma_writable_groups(m, version);
        Self::lemma_writable_include_authorized_operations(m, version);
        Self::lemma_writable_tags(m, version);
    }

    /// A version outside the range that the schema covers is refused, by
    /// reads and by writes alike, before anything is read or written.
    pub proof fn lemma_refused_version(m: DescribeGroupsRequestDataView, s: Seq<u8>, version: i16)
        requires
            version < 0 || version > 6,
        ensures
            Self::spec_read(s, version) == Err::<(DescribeGroupsRequestDataView, Seq<u8>), Error>(Error::UnsupportedVersion(UnsupportedVersion { api_key: 15, version })),
            Self::spec_write(m, version) == fail(Error::UnsupportedVersion(UnsupportedVersion { api_key: 15, version })),
    {
    }

    fn read_groups(buf: &mut Bytes, version: i16) -> (r: Result<Vec<KafkaString>, Error>)
        ensures
            read_vec_as(Self::spec_read_groups(bytes_seq(*old(buf)), version), *final(buf), r),
            took_front(*old(buf), *final(buf)),
    {
        proof {
            reveal(DescribeGroupsRequestData::spec_read_groups);
        }
        Ok(if version >= 5 {
                read_array::<CompactStringItem>(buf, version, true)?
            } else {
                read_array::<StringItem>(buf, version, false)?
        })
    }

    fn read_include_authorized_operations(buf: &mut Bytes, version: i16) -> (r: Result<bool, Error>)
        ensures
            read_as(Self::spec_read_include_authorized_operations(bytes_seq(*old(buf)), version), *final(buf), r),
            took_front(*old(buf), *final(buf)),
    {
        proof {
            reveal(DescribeGroupsRequestData::spec_read_include_authorized_operations);
        }
        Ok(if version >= 3 {
                read_bool(buf)?
            } else {
                false
        })
    }

    fn read_tags(buf: &mut Bytes, version: i16) -> (r: Result<Vec<RawTaggedField>, Error>)
        ensures
            read_vec_as(Self::spec_read_tags(bytes_seq(*old(buf)), version), *final(buf), r),
            took_front(*old(buf), *final(buf)),
    {
        proof {
            reveal(DescribeGroupsRequestData::spec_read_tags);
        }
        Ok(if version >= 5 {
                read_tagged_fields(buf)?
            } else {
                empty_vec()
        })
    }

    pub fn read(buf: &mut Bytes, version: i16) -> (r: Result<Self, Error>)
        ensures
            read_as(Self::spec_read(bytes_seq(*old(buf)), version), *final(buf), r),
            took_front(*old(buf), *final(buf)),
            (version < 0 || version > 6) ==> bytes_seq(*final(buf)) == bytes_seq(*old(buf)),
    {
        if version < 0 || version > 6 {
            return Err(Error::UnsupportedVersion(UnsupportedVersion::new(15, version)));
        }
        let groups = Self::read_groups(buf, version)?;
        let include_authorized_operations = Self::read_include_authorized_operations(buf, version)?;
        let _unknown_tagged_fields = Self::read_tags(buf, version)?;
        Ok(DescribeGroupsRequestData {
                groups: groups,
                include_authorized_operations: include_authorized_operations,
                _unknown_tagged_fields: _unknown_tagged_fields,
        })
    }

    #[verifier::rlimit(60)]
    pub fn write(&self, buf: &mut BytesMut, version: i16) -> (r: Result<(), Error>)
        requires
            has_room(Self::spec_write(self@, version), *old(buf)),
        ensures
            wrote(Self::spec_write(self@, version), *old(buf), *final(buf), r),
    {
        if version < 0 || version > 6 {
            return Err(Error::UnsupportedVersion(UnsupportedVersion::new(15, version)));
        }
        let ghost m = self@;
        proof {
            reveal(DescribeGroupsRequestData::spec_write_groups);
            reveal(DescribeGroupsRequestData::spec_write_include_authorized_operations);
            reveal(DescribeGroupsRequestData::spec_write_tags);
        }
        let ghost s0 = Self::spec_write_groups(m, version);
        let ghost w0 = s0;
        let ghost s1 = Self::spec_write_include_authorized_operations(m, version);
        let ghost w1 = chain(w0, s1);
        let ghost s2 = Self::spec_write_tags(m, version);
        let ghost w2 = chain(w1, s2);
        assert(Self::spec_write(m, version) == w2);
        assert(written(w1).len() <= written(w2).len() && (w1 is Err ==> w2 == w1));
        assert(written(w0).len() <= written(w2).len() && (w0 is Err ==> w2 == w0));
        let ghost mid = bytes_mut_seq(*buf);
        proof {
            lemma_append_empty(mid);
        }
        let r0 = if version >= 5 {
            write_array::<CompactStringItem>(buf, &self.groups, version, true)
        } else {
            write_array::<StringItem>(buf, &self.groups, version, false)
        };
        assert(bytes_mut_seq(*buf) == mid + written(s0));
        if r0.is_err() {
            return r0;
        }
        let ghost mid = bytes_mut_seq(*buf);
        proof {
            lemma_append_empty(mid);
        }
        let r1 = if version >= 3 {
            {
                write_bool(buf, self.include_authorized_operations);
                Ok(())
            }
        } else {
            Ok(())
        };
        assert(bytes_mut_seq(*buf) == mid + written(s1));
        proof {
            lemma_step(bytes_mut_seq(*old(buf)), w0, s1);
        }
        if r1.is_err() {
            return r1;
        }
        let ghost mid = bytes_mut_seq(*buf);
        proof {
            lemma_append_empty(mid);
        }
        let r2 = if version >= 5 {
            write_tagged_fields(buf, &sort_by_tag(&self._unknown_tagged_fields))
        } else {
            Ok(())
        };
        assert(bytes_mut_seq(*buf) == mid + written(s2));
        proof {
            lemma_step(bytes_mut_seq(*old(buf)), w1, s2);
        }
        if r2.is_err() {
            return r2;
        }
        Ok(())
    }
}

} // verus!
