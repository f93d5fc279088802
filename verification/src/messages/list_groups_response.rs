//! The list groups response message.
use crate::buffer::{bytes_mut_seq, bytes_seq};
use crate::codec::{Codec, all_canonical, all_writable, lemma_array_round_trip, lemma_array_writable, read_array, spec_read_array, spec_write_array, write_array};
use crate::error::{Error, UnsupportedVersion};
use crate::ints::{lemma_i16_roundtrip, lemma_i32_roundtrip, read_i16, read_i32, spec_read_i16, spec_read_i32, spec_write_i16, spec_write_i32, u16_bytes, u32_bytes, write_i16, write_i32};
use crate::strings::{lemma_compact_string_round_trip, lemma_string_round_trip, read_compact_string, read_string, spec_read_compact_string, spec_read_string, spec_write_compact_string, spec_write_string, write_compact_string, write_string};
use crate::tagged::{lemma_sorted_by_tag_in_order, lemma_sorted_tags_fit, lemma_tagged_fields_round_trip, lemma_tagged_fields_writable, read_tagged_fields, sort_by_tag, sorted_by_tag, spec_read_tagged_fields, spec_write_tagged_fields, tags_fit, tags_in_order, write_tagged_fields};
use crate::types::{KafkaString, RawTaggedField};
use crate::wire::{ReadOutcome, ViewClone, WriteOutcome, chain, clone_vec, emit, empty_vec, fail, has_room, lemma_append_empty, lemma_chain_written, lemma_step, read_as, read_vec_as, took_front, views, written, wrote};
use bytes::{Bytes, BytesMut};
use vstd::prelude::*;

verus! {

broadcast use {crate::wire::lemma_chain_written, crate::wire::lemma_took_front_nothing, crate::wire::lemma_took_front_twice};

#[derive(Debug, PartialEq)]
pub struct ListGroupsResponseData {
    /// The duration in milliseconds for which the request was throttled due to a quota violation,
    /// or zero if the request did not violate any quota.
    pub throttle_time_ms: i32,
    /// The error code, or 0 if there was no error.
    pub error_code: i16,
    /// Each group in the response.
    pub groups: Vec<ListedGroup>,
    pub _unknown_tagged_fields: Vec<RawTaggedField>,
}

/// What a `ListGroupsResponseData` holds, as the specification sees it.
#[verifier::ext_equal]
pub struct ListGroupsResponseDataView {
    pub throttle_time_ms: i32,
    pub error_code: i16,
    pub groups: Seq<ListedGroupView>,
    pub unknown_tagged_fields: Seq<(u32, Seq<u8>)>,
}

impl View for ListGroupsResponseData {
    type V = ListGroupsResponseDataView;

    open spec fn view(&self) -> ListGroupsResponseDataView {
        ListGroupsResponseDataView {
            throttle_time_ms: self.throttle_time_ms,
            error_code: self.error_code,
            groups: views(self.groups@),
            unknown_tagged_fields: views(self._unknown_tagged_fields@),
        }
    }
}

impl Clone for ListGroupsResponseData {
    fn clone(&self) -> (r: Self)
        ensures
            r@ == self@,
    {
        let r = ListGroupsResponseData {
            throttle_time_ms: self.throttle_time_ms,
            error_code: self.error_code,
            groups: clone_vec(&self.groups),
            _unknown_tagged_fields: clone_vec(&self._unknown_tagged_fields),
        };
        assert(r@ =~= self@);
        r
    }
}

impl ViewClone for ListGroupsResponseData {
    fn clone_view(&self) -> (r: Self) {
        self.clone()
    }
}

impl Default for ListGroupsResponseData {
    fn default() -> (r: Self)
        ensures
            r@ == Self::default_view(),
    {
        let r = ListGroupsResponseData {
            throttle_time_ms: 0_i32,
            error_code: 0_i16,
            groups: empty_vec(),
            _unknown_tagged_fields: empty_vec(),
        };
        assert(r@ =~= Self::default_view());
        r
    }
}

impl ListGroupsResponseData {
    pub open spec fn default_view() -> ListGroupsResponseDataView {
        ListGroupsResponseDataView {
            throttle_time_ms: 0_i32,
            error_code: 0_i16,
            groups: Seq::empty(),
            unknown_tagged_fields: Seq::empty(),
        }
    }

    /// The `throttle_time_ms` field, read from the front of `s`.
    #[verifier::opaque]
    pub open spec fn spec_read_throttle_time_ms(s: Seq<u8>, version: i16) -> ReadOutcome<i32> {
        if version >= 1 {
            spec_read_i32(s)
        } else {
            Ok((0_i32, s))
        }
    }

    /// The `error_code` field, read from the front of `s`.
    #[verifier::opaque]
    pub open spec fn spec_read_error_code(s: Seq<u8>, version: i16) -> ReadOutcome<i16> {
        spec_read_i16(s)
    }

    /// The `groups` field, read from the front of `s`.
    #[verifier::opaque]
    pub open spec fn spec_read_groups(s: Seq<u8>, version: i16) -> ReadOutcome<Seq<ListedGroupView>> {
        if version >= 3 {
            spec_read_array::<ListedGroup>(s, version, true)
        } else {
            spec_read_array::<ListedGroup>(s, version, false)
        }
    }

    /// The tagged fields, read from the front of `s`.
    #[verifier::opaque]
    pub open spec fn spec_read_tags(s: Seq<u8>, version: i16) -> ReadOutcome<Seq<(u32, Seq<u8>)>> {
        if version >= 3 {
            spec_read_tagged_fields(s)
        } else {
            Ok((Seq::empty(), s))
        }
    }

    pub open spec fn spec_read(s: Seq<u8>, version: i16) -> ReadOutcome<ListGroupsResponseDataView> {
        if version < 0 || version > 5 {
            Err(Error::UnsupportedVersion(UnsupportedVersion { api_key: 16, version }))
        } else {
            match (Self::spec_read_throttle_time_ms(s, version)) {
                Err(e) => Err(e),
                Ok((throttle_time_ms, s)) => match (Self::spec_read_error_code(s, version)) {
                    Err(e) => Err(e),
                    Ok((error_code, s)) => match (Self::spec_read_groups(s, version)) {
                        Err(e) => Err(e),
                        Ok((groups, s)) => match (Self::spec_read_tags(s, version)) {
                            Err(e) => Err(e),
                            Ok((unknown_tagged_fields, s)) => Ok((ListGroupsResponseDataView {
                                        throttle_time_ms: throttle_time_ms,
                                        error_code: error_code,
                                        groups: groups,
                                        unknown_tagged_fields: unknown_tagged_fields,
                                    }, s)),
                        },
                    },
                },
            }
        }
    }

    /// What writing the `throttle_time_ms` field of `m` appends.
    #[verifier::opaque]
    pub open spec fn spec_write_throttle_time_ms(m: ListGroupsResponseDataView, version: i16) -> WriteOutcome {
        if version >= 1 {
            spec_write_i32(m.throttle_time_ms)
        } else {
            emit(Seq::empty())
        }
    }

    /// What writing the `error_code` field of `m` appends.
    #[verifier::opaque]
    pub open spec fn spec_write_error_code(m: ListGroupsResponseDataView, version: i16) -> WriteOutcome {
        spec_write_i16(m.error_code)
    }

    /// What writing the `groups` field of `m` appends.
    #[verifier::opaque]
    pub open spec fn spec_write_groups(m: ListGroupsResponseDataView, version: i16) -> WriteOutcome {
        if version >= 3 {
            spec_write_array::<ListedGroup>(m.groups, version, true)
        } else {
            spec_write_array::<ListedGroup>(m.groups, version, false)
        }
    }

    /// What writing the tagged fields of `m` appends.
    #[verifier::opaque]
    pub open spec fn spec_write_tags(m: ListGroupsResponseDataView, version: i16) -> WriteOutcome {
        if version >= 3 {
            spec_write_tagged_fields(sorted_by_tag(m.unknown_tagged_fields))
        } else {
            emit(Seq::empty())
        }
    }

    pub open spec fn spec_write(m: ListGroupsResponseDataView, version: i16) -> WriteOutcome {
        if version < 0 || version > 5 {
            fail(Error::UnsupportedVersion(UnsupportedVersion { api_key: 16, version }))
        } else {
            chain(
                chain(
                    chain(
                        Self::spec_write_throttle_time_ms(m, version),
                        Self::spec_write_error_code(m, version),
                    ),
                    Self::spec_write_groups(m, version),
                ),
                Self::spec_write_tags(m, version),
            )
        }
    }

    /// Whether reading back what writing `m` in `version` appends gives `m`:
    /// fields that the version does not carry hold their default values, and
    /// tagged fields come in the order in which they are written.
    pub open spec fn canonical(m: ListGroupsResponseDataView, version: i16) -> bool {
        &&& (if version >= 1 {
                true
            } else {
                m.throttle_time_ms == 0_i32
        })
        &&& all_canonical::<ListedGroup>(m.groups, version)
        &&& (if version >= 3 {
                tags_in_order(m.unknown_tagged_fields)
            } else {
                m.unknown_tagged_fields.len() == 0
        })
    }

    proof fn lemma_round_trip_throttle_time_ms(m: ListGroupsResponseDataView, version: i16, rest: Seq<u8>)
        requires
            Self::canonical(m, version),
            Self::spec_write_throttle_time_ms(m, version) is Ok,
        ensures
            Self::spec_read_throttle_time_ms(written(Self::spec_write_throttle_time_ms(m, version)) + rest, version) == Ok::<(i32, Seq<u8>), Error>((m.throttle_time_ms, rest)),
    {
        reveal(ListGroupsResponseData::spec_read_throttle_time_ms);
        reveal(ListGroupsResponseData::spec_write_throttle_time_ms);
        if version >= 1 {
            lemma_i32_roundtrip(m.throttle_time_ms, rest);
        } else {
            assert(Seq::<u8>::empty() + rest =~= rest);
        }
    }

    proof fn lemma_round_trip_error_code(m: ListGroupsResponseDataView, version: i16, rest: Seq<u8>)
        requires
            Self::canonical(m, version),
            Self::spec_write_error_code(m, version) is Ok,
        ensures
            Self::spec_read_error_code(written(Self::spec_write_error_code(m, version)) + rest, version) == Ok::<(i16, Seq<u8>), Error>((m.error_code, rest)),
    {
        reveal(ListGroupsResponseData::spec_read_error_code);
        reveal(ListGroupsResponseData::spec_write_error_code);
        lemma_i16_roundtrip(m.error_code, rest);
    }

    proof fn lemma_round_trip_groups(m: ListGroupsResponseDataView, version: i16, rest: Seq<u8>)
        requires
            Self::canonical(m, version),
            Self::spec_write_groups(m, version) is Ok,
        ensures
            Self::spec_read_groups(written(Self::spec_write_groups(m, version)) + rest, version) == Ok::<(Seq<ListedGroupView>, Seq<u8>), Error>((m.groups, rest)),
    {
        reveal(ListGroupsResponseData::spec_read_groups);
        reveal(ListGroupsResponseData::spec_write_groups);
        if version >= 3 {
            lemma_array_round_trip::<ListedGroup>(m.groups, version, true, rest);
        } else {
            lemma_array_round_trip::<ListedGroup>(m.groups, version, false, rest);
        }
    }

    proof fn lemma_round_trip_tags(m: ListGroupsResponseDataView, version: i16, rest: Seq<u8>)
        requires
            Self::canonical(m, version),
            Self::spec_write_tags(m, version) is Ok,
        ensures
            Self::spec_read_tags(written(Self::spec_write_tags(m, version)) + rest, version) == Ok::<(Seq<(u32, Seq<u8>)>, Seq<u8>), Error>((m.unknown_tagged_fields, rest)),
    {
        reveal(ListGroupsResponseData::spec_read_tags);
        reveal(ListGroupsResponseData::spec_write_tags);
        if version >= 3 {
            lemma_sorted_by_tag_in_order(m.unknown_tagged_fields);
            lemma_tagged_fields_round_trip(m.unknown_tagged_fields, rest);
        } else {
            assert(Seq::<u8>::empty() + rest =~= rest);
            assert(m.unknown_tagged_fields =~= Seq::empty());
        }
    }

    /// Reading back what writing `m` in `version` appends gives `m` again, and
    /// leaves what follows, for every canonical message whose write succeeds.
    #[verifier::rlimit(80)]
    #[verifier::spinoff_prover]
    pub proof fn lemma_round_trip(m: ListGroupsResponseDataView, version: i16, rest: Seq<u8>)
        requires
            Self::canonical(m, version),
            Self::spec_write(m, version) is Ok,
        ensures
            Self::spec_read(written(Self::spec_write(m, version)) + rest, version) == Ok::<(ListGroupsResponseDataView, Seq<u8>), Error>((m, rest)),
    {
        let b0 = written(Self::spec_write_throttle_time_ms(m, version));
        let b1 = written(Self::spec_write_error_code(m, version));
        let b2 = written(Self::spec_write_groups(m, version));
        let b3 = written(Self::spec_write_tags(m, version));
        let t4 = rest;
        let t3 = b3 + t4;
        let t2 = b2 + t3;
        let t1 = b1 + t2;
        let t0 = b0 + t1;
        let w0 = Self::spec_write_throttle_time_ms(m, version);
        let w1 = chain(w0, Self::spec_write_error_code(m, version));
        let w2 = chain(w1, Self::spec_write_groups(m, version));
        let w3 = chain(w2, Self::spec_write_tags(m, version));
        assert(Self::spec_write(m, version) == w3);
        assert(written(w3) + t4 =~= written(w2) + t3);
        assert(written(w2) + t3 =~= written(w1) + t2);
        assert(written(w1) + t2 =~= written(w0) + t1);
        Self::lemma_round_trip_throttle_time_ms(m, version, t1);
        Self::lemma_round_trip_error_code(m, version, t2);
        Self::lemma_round_trip_groups(m, version, t3);
        Self::lemma_round_trip_tags(m, version, t4);
    }

    /// In a version that does not carry `throttle_time_ms`, writing ignores its value.
    pub proof fn lemma_write_ignores_throttle_time_ms(m: ListGroupsResponseDataView, value: i32, version: i16)
        requires
            !(version >= 1),
        ensures
            Self::spec_write((ListGroupsResponseDataView { throttle_time_ms: value, ..m }), version) == Self::spec_write(m, version),
    {
        reveal(ListGroupsResponseData::spec_write_throttle_time_ms);
        reveal(ListGroupsResponseData::spec_write_error_code);
        reveal(ListGroupsResponseData::spec_write_groups);
        reveal(ListGroupsResponseData::spec_write_tags);
    }

    /// In a version that does not carry `unknown_tagged_fields`, writing ignores its value.
    pub proof fn lemma_write_ignores_unknown_tagged_fields(m: ListGroupsResponseDataView, value: Seq<(u32, Seq<u8>)>, version: i16)
        requires
            !(version >= 3),
        ensures
            Self::spec_write((ListGroupsResponseDataView { unknown_tagged_fields: value, ..m }), version) == Self::spec_write(m, version),
    {
        reveal(ListGroupsResponseData::spec_write_throttle_time_ms);
        reveal(ListGroupsResponseData::spec_write_error_code);
        reveal(ListGroupsResponseData::spec_write_groups);
        reveal(ListGroupsResponseData::spec_write_tags);
    }

    /// The default message holds the default value of each field of the schema.
    pub proof fn lemma_default_values()
        ensures
            Self::default_view().throttle_time_ms == (0_i32),
            Self::default_view().error_code == (0_i16),
            Self::default_view().groups.len() == 0,
            Self::default_view().unknown_tagged_fields.len() == 0,
    {
    }

    /// Each integer, boolean and identifier field is written as its standard
    /// big-endian bytes (a boolean as `1` or `0`) in the versions that carry
    /// it, and as nothing in the others; reading it takes those bytes back (any
    /// byte other than `0` reads as `true`), or gives its default value.
    pub proof fn lemma_field_encodings(m: ListGroupsResponseDataView, s: Seq<u8>, version: i16)
        ensures
            version >= 1 ==> Self::spec_write_throttle_time_ms(m, version) == Ok::<Seq<u8>, (Error, Seq<u8>)>(u32_bytes(m.throttle_time_ms as u32)),
            !(version >= 1) ==> Self::spec_write_throttle_time_ms(m, version) == Ok::<Seq<u8>, (Error, Seq<u8>)>(Seq::empty()),
            true ==> Self::spec_write_error_code(m, version) == Ok::<Seq<u8>, (Error, Seq<u8>)>(u16_bytes(m.error_code as u16)),
            version >= 1 ==> Self::spec_read_throttle_time_ms(s, version) == spec_read_i32(s),
            !(version >= 1) ==> Self::spec_read_throttle_time_ms(s, version) == Ok::<(i32, Seq<u8>), Error>((0_i32, s)),
            true ==> Self::spec_read_error_code(s, version) == spec_read_i16(s),
    {
        reveal(ListGroupsResponseData::spec_write_throttle_time_ms);
        reveal(ListGroupsResponseData::spec_read_throttle_time_ms);
        reveal(ListGroupsResponseData::spec_write_error_code);
        reveal(ListGroupsResponseData::spec_read_error_code);
    }

    /// Whether writing `m` in `version` succeeds, said over its parts: the
    /// version is one the schema covers, every field that the version cannot
    /// carry holds its default value, and every string, byte string, array and
    /// tagged field fits its length prefix.
    pub open spec fn writable(m: ListGroupsResponseDataView, version: i16) -> bool {
        &&& 0 <= version <= 5
        &&& (m.groups.len() <= i32::MAX && all_writable::<ListedGroup>(m.groups, version))
        &&& (if version >= 3 {
                m.unknown_tagged_fields.len() <= u32::MAX && tags_fit(m.unknown_tagged_fields)
            } else {
                true
        })
    }

    proof fn lemma_writable_throttle_time_ms(m: ListGroupsResponseDataView, version: i16)
        ensures
            Self::spec_write_throttle_time_ms(m, version) is Ok <==> true,
    {
        reveal(ListGroupsResponseData::spec_write_throttle_time_ms);
    }

    proof fn lemma_writable_error_code(m: ListGroupsResponseDataView, version: i16)
        ensures
            Self::spec_write_error_code(m, version) is Ok <==> true,
    {
        reveal(ListGroupsResponseData::spec_write_error_code);
    }

    proof fn lemma_writable_groups(m: ListGroupsResponseDataView, version: i16)
        ensures
            Self::spec_write_groups(m, version) is Ok <==> (m.groups.len() <= i32::MAX && all_writable::<ListedGroup>(m.groups, version)),
    {
        reveal(ListGroupsResponseData::spec_write_groups);
        if version >= 3 {
            lemma_array_writable::<ListedGroup>(m.groups, version, true);
        } else {
            lemma_array_writable::<ListedGroup>(m.groups, version, false);
        }
    }

    proof fn lemma_writable_tags(m: ListGroupsResponseDataView, version: i16)
        ensures
            Self::spec_write_tags(m, version) is Ok <==> (if version >= 3 { m.unknown_tagged_fields.len() <= u32::MAX && tags_fit(m.unknown_tagged_fields) } else { true }),
    {
        reveal(ListGroupsResponseData::spec_write_tags);
        if version >= 3 {
            lemma_sorted_tags_fit(m.unknown_tagged_fields);
            lemma_tagged_fields_writable(sorted_by_tag(m.unknown_tagged_fields));
        }
    }

    /// Writing `m` in `version` succeeds exactly when `m` is writable in it;
    /// so do `write` and `encoded_len`, whose results follow `spec_write`.
    #[verifier::rlimit(54)]
    pub proof fn lemma_writable(m: ListGroupsResponseDataView, version: i16)
        ensures
            Self::spec_write(m, version) is Ok <==> Self::writable(m, version),
    {
        Self::lemma_writable_throttle_time_ms(m, version);
        Self::lemma_writable_error_code(m, version);
        Self::lemma_writable_groups(m, version);
        Self::lemma_writable_tags(m, version);
    }

    /// A version outside the range that the schema covers is refused, by
    /// reads and by writes alike, before anything is read or written.
    pub proof fn lemma_refused_version(m: ListGroupsResponseDataView, s: Seq<u8>, version: i16)
        requires
            version < 0 || version > 5,
        ensures
            Self::spec_read(s, version) == Err::<(ListGroupsResponseDataView, Seq<u8>), Error>(Error::UnsupportedVersion(UnsupportedVersion { api_key: 16, version })),
            Self::spec_write(m, version) == fail(Error::UnsupportedVersion(UnsupportedVersion { api_key: 16, version })),
    {
    }

    fn read_throttle_time_ms(buf: &mut Bytes, version: i16) -> (r: Result<i32, Error>)
        ensures
            read_as(Self::spec_read_throttle_time_ms(bytes_seq(*old(buf)), version), *final(buf), r),
            took_front(*old(buf), *final(buf)),
    {
        proof {
            reveal(ListGroupsResponseData::spec_read_throttle_time_ms);
        }
        Ok(if version >= 1 {
                read_i32(buf)?
            } else {
                0_i32
        })
    }

    fn read_error_code(buf: &mut Bytes, version: i16) -> (r: Result<i16, Error>)
        ensures
            read_as(Self::spec_read_error_code(bytes_seq(*old(buf)), version), *final(buf), r),
            took_front(*old(buf), *final(buf)),
    {
        proof {
            reveal(ListGroupsResponseData::spec_read_error_code);
        }
        Ok(read_i16(buf)?)
    }

    fn read_groups(buf: &mut Bytes, version: i16) -> (r: Result<Vec<ListedGroup>, Error>)
        ensures
            read_vec_as(Self::spec_read_groups(bytes_seq(*old(buf)), version), *final(buf), r),
            took_front(*old(buf), *final(buf)),
    {
        proof {
            reveal(ListGroupsResponseData::spec_read_groups);
        }
        Ok(if version >= 3 {
                read_array::<ListedGroup>(buf, version, true)?
            } else {
                read_array::<ListedGroup>(buf, version, false)?
        })
    }

    fn read_tags(buf: &mut Bytes, version: i16) -> (r: Result<Vec<RawTaggedField>, Error>)
        ensures
            read_vec_as(Self::spec_read_tags(bytes_seq(*old(buf)), version), *final(buf), r),
            took_front(*old(buf), *final(buf)),
    {
        proof {
            reveal(ListGroupsResponseData::spec_read_tags);
        }
        Ok(if version >= 3 {
                read_tagged_fields(buf)?
            } else {
                empty_vec()
        })
    }

    pub fn read(buf: &mut Bytes, version: i16) -> (r: Result<Self, Error>)
        ensures
            read_as(Self::spec_read(bytes_seq(*old(buf)), version), *final(buf), r),
            took_front(*old(buf), *final(buf)),
            (version < 0 || version > 5) ==> bytes_seq(*final(buf)) == bytes_seq(*old(buf)),
    {
        if version < 0 || version > 5 {
            return Err(Error::UnsupportedVersion(UnsupportedVersion::new(16, version)));
        }
        let throttle_time_ms = Self::read_throttle_time_ms(buf, version)?;
        let error_code = Self::read_error_code(buf, version)?;
        let groups = Self::read_groups(buf, version)?;
        let _unknown_tagged_fields = Self::read_tags(buf, version)?;
        Ok(ListGroupsResponseData {
                throttle_time_ms: throttle_time_ms,
                error_code: error_code,
                groups: groups,
                _unknown_tagged_fields: _unknown_tagged_fields,
        })
    }

    #[verifier::rlimit(70)]
    pub fn write(&self, buf: &mut BytesMut, version: i16) -> (r: Result<(), Error>)
        requires
            has_room(Self::spec_write(self@, version), *old(buf)),
        ensures
            wrote(Self::spec_write(self@, version), *old(buf), *final(buf), r),
    {
        if version < 0 || version > 5 {
            return Err(Error::UnsupportedVersion(UnsupportedVersion::new(16, version)));
        }
        let ghost m = self@;
        proof {
            reveal(ListGroupsResponseData::spec_write_throttle_time_ms);
            reveal(ListGroupsResponseData::spec_write_error_code);
            reveal(ListGroupsResponseData::spec_write_groups);
            reveal(ListGroupsResponseData::spec_write_tags);
        }
        let ghost s0 = Self::spec_write_throttle_time_ms(m, version);
        let ghost w0 = s0;
        let ghost s1 = Self::spec_write_error_code(m, version);
        let ghost w1 = chain(w0, s1);
        let ghost s2 = Self::spec_write_groups(m, version);
        let ghost w2 = chain(w1, s2);
        let ghost s3 = Self::spec_write_tags(m, version);
        let ghost w3 = chain(w2, s3);
        assert(Self::spec_write(m, version) == w3);
        assert(written(w2).len() <= written(w3).len() && (w2 is Err ==> w3 == w2));
        assert(written(w1).len() <= written(w3).len() && (w1 is Err ==> w3 == w1));
        assert(written(w0).len() <= written(w3).len() && (w0 is Err ==> w3 == w0));
        let ghost mid = bytes_mut_seq(*buf);
        proof {
            lemma_append_empty(mid);
        }
        let r0 = if version >= 1 {
            {
                write_i32(buf, self.throttle_time_ms);
                Ok(())
            }
        } else {
            Ok(())
        };
        assert(bytes_mut_seq(*buf) == mid + written(s0));
        if r0.is_err() {
            return r0;
        }
        let ghost mid = bytes_mut_seq(*buf);
        proof {
            lemma_append_empty(mid);
        }
        let r1 = {
            write_i16(buf, self.error_code);
            Ok(())
        };
        assert(bytes_mut_seq(*buf) == mid + written(s1));
        proof {
            lemma_step(bytes_mut_seq(*old(buf)), w0, s1);
        }
        if r1.is_err() {
            return r1;
        }
        let ghost mid = bytes_mut_seq(*buf);
        proof {
            lemma_append_empty(mid);
        }
        let r2 = if version >= 3 {
            write_array::<ListedGroup>(buf, &self.groups, version, true)
        } else {
            write_array::<ListedGroup>(buf, &self.groups, version, false)
        };
        assert(bytes_mut_seq(*buf) == mid + written(s2));
        proof {
            lemma_step(bytes_mut_seq(*old(buf)), w1, s2);
        }
        if r2.is_err() {
            return r2;
        }
        let ghost mid = bytes_mut_seq(*buf);
        proof {
            lemma_append_empty(mid);
        }
        let r3 = if version >= 3 {
            write_tagged_fields(buf, &sort_by_tag(&self._unknown_tagged_fields))
        } else {
            Ok(())
        };
        assert(bytes_mut_seq(*buf) == mid + written(s3));
        proof {
            lemma_step(bytes_mut_seq(*old(buf)), w2, s3);
        }
        if r3.is_err() {
            return r3;
        }
        Ok(())
    }
}

#[derive(Debug, PartialEq)]
pub struct ListedGroup {
    /// The group ID.
    pub group_id: KafkaString,
    /// The group protocol type.
    pub protocol_type: KafkaString,
    /// The group state name.
    pub group_state: KafkaString,
    /// The group type name.
    pub group_type: KafkaString,
    pub _unknown_tagged_fields: Vec<RawTaggedField>,
}

/// What a `ListedGroup` holds, as the specification sees it.
#[verifier::ext_equal]
pub struct ListedGroupView {
    pub group_id: Seq<u8>,
    pub protocol_type: Seq<u8>,
    pub group_state: Seq<u8>,
    pub group_type: Seq<u8>,
    pub unknown_tagged_fields: Seq<(u32, Seq<u8>)>,
}

impl View for ListedGroup {
    type V = ListedGroupView;

    open spec fn view(&self) -> ListedGroupView {
        ListedGroupView {
            group_id: self.group_id@,
            protocol_type: self.protocol_type@,
            group_state: self.group_state@,
            group_type: self.group_type@,
            unknown_tagged_fields: views(self._unknown_tagged_fields@),
        }
    }
}

impl Clone for ListedGroup {
    fn clone(&self) -> (r: Self)
        ensures
            r@ == self@,
    {
        let r = ListedGroup {
            group_id: self.group_id.clone(),
            protocol_type: self.protocol_type.clone(),
            group_state: self.group_state.clone(),
            group_type: self.group_type.clone(),
            _unknown_tagged_fields: clone_vec(&self._unknown_tagged_fields),
        };
        assert(r@ =~= self@);
        r
    }
}

impl ViewClone for ListedGroup {
    fn clone_view(&self) -> (r: Self) {
        self.clone()
    }
}

impl Default for ListedGroup {
    fn default() -> (r: Self)
        ensures
            r@ == Self::default_view(),
    {
        let r = ListedGroup {
            group_id: KafkaString::default(),
            protocol_type: KafkaString::default(),
            group_state: KafkaString::default(),
            group_type: KafkaString::default(),
            _unknown_tagged_fields: empty_vec(),
        };
        assert(r@ =~= Self::default_view());
        r
    }
}

impl ListedGroup {
    pub open spec fn default_view() -> ListedGroupView {
        ListedGroupView {
            group_id: Seq::empty(),
            protocol_type: Seq::empty(),
            group_state: Seq::empty(),
            group_type: Seq::empty(),
            unknown_tagged_fields: Seq::empty(),
        }
    }

    /// The `group_id` field, read from the front of `s`.
    #[verifier::opaque]
    pub open spec fn spec_read_group_id(s: Seq<u8>, version: i16) -> ReadOutcome<Seq<u8>> {
        if version >= 3 {
            spec_read_compact_string(s)
        } else {
            spec_read_string(s)
        }
    }

    /// The `protocol_type` field, read from the front of `s`.
    #[verifier::opaque]
    pub open spec fn spec_read_protocol_type(s: Seq<u8>, version: i16) -> ReadOutcome<Seq<u8>> {
        if version >= 3 {
            spec_read_compact_string(s)
        } else {
            spec_read_string(s)
        }
    }

    /// The `group_state` field, read from the front of `s`.
    #[verifier::opaque]
    pub open spec fn spec_read_group_state(s: Seq<u8>, version: i16) -> ReadOutcome<Seq<u8>> {
        if version >= 4 {
            spec_read_compact_string(s)
        } else {
            Ok((Seq::empty(), s))
        }
    }

    /// The `group_type` field, read from the front of `s`.
    #[verifier::opaque]
    pub open spec fn spec_read_group_type(s: Seq<u8>, version: i16) -> ReadOutcome<Seq<u8>> {
        if version >= 5 {
            spec_read_compact_string(s)
        } else {
            Ok((Seq::empty(), s))
        }
    }

    /// The tagged fields, read from the front of `s`.
    #[verifier::opaque]
    pub open spec fn spec_read_tags(s: Seq<u8>, version: i16) -> ReadOutcome<Seq<(u32, Seq<u8>)>> {
        if version >= 3 {
            spec_read_tagged_fields(s)
        } else {
            Ok((Seq::empty(), s))
        }
    }

    pub open spec fn spec_read(s: Seq<u8>, version: i16) -> ReadOutcome<ListedGroupView> {
        match (Self::spec_read_group_id(s, version)) {
            Err(e) => Err(e),
            Ok((group_id, s)) => match (Self::spec_read_protocol_type(s, version)) {
                Err(e) => Err(e),
                Ok((protocol_type, s)) => match (Self::spec_read_group_state(s, version)) {
                    Err(e) => Err(e),
                    Ok((group_state, s)) => match (Self::spec_read_group_type(s, version)) {
                        Err(e) => Err(e),
                        Ok((group_type, s)) => match (Self::spec_read_tags(s, version)) {
                            Err(e) => Err(e),
                            Ok((unknown_tagged_fields, s)) => Ok((ListedGroupView {
                                        group_id: group_id,
                                        protocol_type: protocol_type,
                                        group_state: group_state,
                                        group_type: group_type,
                                        unknown_tagged_fields: unknown_tagged_fields,
                                    }, s)),
                        },
                    },
                },
            },
        }
    }

    /// What writing the `group_id` field of `m` appends.
    #[verifier::opaque]
    pub open spec fn spec_write_group_id(m: ListedGroupView, version: i16) -> WriteOutcome {
        if version >= 3 {
            spec_write_compact_string(m.group_id)
        } else {
            spec_write_string(m.group_id)
        }
    }

    /// What writing the `protocol_type` field of `m` appends.
    #[verifier::opaque]
    pub open spec fn spec_write_protocol_type(m: ListedGroupView, version: i16) -> WriteOutcome {
        if version >= 3 {
            spec_write_compact_string(m.protocol_type)
        } else {
            spec_write_string(m.protocol_type)
        }
    }

    /// What writing the `group_state` field of `m` appends.
    #[verifier::opaque]
    pub open spec fn spec_write_group_state(m: ListedGroupView, version: i16) -> WriteOutcome {
        if version >= 4 {
            spec_write_compact_string(m.group_state)
        } else {
            emit(Seq::empty())
        }
    }

    /// What writing the `group_type` field of `m` appends.
    #[verifier::opaque]
    pub open spec fn spec_write_group_type(m: ListedGroupView, version: i16) -> WriteOutcome {
        if version >= 5 {
            spec_write_compact_string(m.group_type)
        } else {
            emit(Seq::empty())
        }
    }

    /// What writing the tagged fields of `m` appends.
    #[verifier::opaque]
    pub open spec fn spec_write_tags(m: ListedGroupView, version: i16) -> WriteOutcome {
        if version >= 3 {
            spec_write_tagged_fields(sorted_by_tag(m.unknown_tagged_fields))
        } else {
            emit(Seq::empty())
        }
    }

    pub open spec fn spec_write(m: ListedGroupView, version: i16) -> WriteOutcome {
        chain(
            chain(
                chain(
                    chain(
                        Self::spec_write_group_id(m, version),
                        Self::spec_write_protocol_type(m, version),
                    ),
                    Self::spec_write_group_state(m, version),
                ),
                Self::spec_write_group_type(m, version),
            ),
            Self::spec_write_tags(m, version),
        )
    }

    /// Whether reading back what writing `m` in `version` appends gives `m`:
    /// fields that the version does not carry hold their default values, and
    /// tagged fields come in the order in which they are written.
    pub open spec fn canonical(m: ListedGroupView, version: i16) -> bool {
        &&& (if version >= 4 {
                true
            } else {
                m.group_state.len() == 0
        })
        &&& (if version >= 5 {
                true
            } else {
                m.group_type.len() == 0
        })
        &&& (if version >= 3 {
                tags_in_order(m.unknown_tagged_fields)
            } else {
                m.unknown_tagged_fields.len() == 0
        })
    }

    proof fn lemma_round_trip_group_id(m: ListedGroupView, version: i16, rest: Seq<u8>)
        requires
            Self::canonical(m, version),
            Self::spec_write_group_id(m, version) is Ok,
        ensures
            Self::spec_read_group_id(written(Self::spec_write_group_id(m, version)) + rest, version) == Ok::<(Seq<u8>, Seq<u8>), Error>((m.group_id, rest)),
    {
        reveal(ListedGroup::spec_read_group_id);
        reveal(ListedGroup::spec_write_group_id);
        if version >= 3 {
            lemma_compact_string_round_trip(m.group_id, rest);
        } else {
            lemma_string_round_trip(m.group_id, rest);
        }
    }

    proof fn lemma_round_trip_protocol_type(m: ListedGroupView, version: i16, rest: Seq<u8>)
        requires
            Self::canonical(m, version),
            Self::spec_write_protocol_type(m, version) is Ok,
        ensures
            Self::spec_read_protocol_type(written(Self::spec_write_protocol_type(m, version)) + rest, version) == Ok::<(Seq<u8>, Seq<u8>), Error>((m.protocol_type, rest)),
    {
        reveal(ListedGroup::spec_read_protocol_type);
        reveal(ListedGroup::spec_write_protocol_type);
        if version >= 3 {
            lemma_compact_string_round_trip(m.protocol_type, rest);
        } else {
            lemma_string_round_trip(m.protocol_type, rest);
        }
    }

    proof fn lemma_round_trip_group_state(m: ListedGroupView, version: i16, rest: Seq<u8>)
        requires
            Self::canonical(m, version),
            Self::spec_write_group_state(m, version) is Ok,
        ensures
            Self::spec_read_group_state(written(Self::spec_write_group_state(m, version)) + rest, version) == Ok::<(Seq<u8>, Seq<u8>), Error>((m.group_state, rest)),
    {
        reveal(ListedGroup::spec_read_group_state);
        reveal(ListedGroup::spec_write_group_state);
        if version >= 4 {
            lemma_compact_string_round_trip(m.group_state, rest);
        } else {
            assert(Seq::<u8>::empty() + rest =~= rest);
            assert(m.group_state =~= Seq::empty());
        }
    }

    proof fn lemma_round_trip_group_type(m: ListedGroupView, version: i16, rest: Seq<u8>)
        requires
            Self::canonical(m, version),
            Self::spec_write_group_type(m, version) is Ok,
        ensures
            Self::spec_read_group_type(written(Self::spec_write_group_type(m, version)) + rest, version) == Ok::<(Seq<u8>, Seq<u8>), Error>((m.group_type, rest)),
    {
        reveal(ListedGroup::spec_read_group_type);
        reveal(ListedGroup::spec_write_group_type);
        if version >= 5 {
            lemma_compact_string_round_trip(m.group_type, rest);
        } else {
            assert(Seq::<u8>::empty() + rest =~= rest);
            assert(m.group_type =~= Seq::empty());
        }
    }

    proof fn lemma_round_trip_tags(m: ListedGroupView, version: i16, rest: Seq<u8>)
        requires
            Self::canonical(m, version),
            Self::spec_write_tags(m, version) is Ok,
        ensures
            Self::spec_read_tags(written(Self::spec_write_tags(m, version)) + rest, version) == Ok::<(Seq<(u32, Seq<u8>)>, Seq<u8>), Error>((m.unknown_tagged_fields, rest)),
    {
        reveal(ListedGroup::spec_read_tags);
        reveal(ListedGroup::spec_write_tags);
        if version >= 3 {
            lemma_sorted_by_tag_in_order(m.unknown_tagged_fields);
            lemma_tagged_fields_round_trip(m.unknown_tagged_fields, rest);
        } else {
            assert(Seq::<u8>::empty() + rest =~= rest);
            assert(m.unknown_tagged_fields =~= Seq::empty());
        }
    }

    /// Reading back what writing `m` in `version` appends gives `m` again, and
    /// leaves what follows, for every canonical message whose write succeeds.
    #[verifier::rlimit(90)]
    #[verifier::spinoff_prover]
    pub proof fn lemma_round_trip(m: ListedGroupView, version: i16, rest: Seq<u8>)
        requires
            Self::canonical(m, version),
            Self::spec_write(m, version) is Ok,
        ensures
            Self::spec_read(written(Self::spec_write(m, version)) + rest, version) == Ok::<(ListedGroupView, Seq<u8>), Error>((m, rest)),
    {
        let b0 = written(Self::spec_write_group_id(m, version));
        let b1 = written(Self::spec_write_protocol_type(m, version));
        let b2 = written(Self::spec_write_group_state(m, version));
        let b3 = written(Self::spec_write_group_type(m, version));
        let b4 = written(Self::spec_write_tags(m, version));
        let t5 = rest;
        let t4 = b4 + t5;
        let t3 = b3 + t4;
        let t2 = b2 + t3;
        let t1 = b1 + t2;
        let t0 = b0 + t1;
        let w0 = Self::spec_write_group_id(m, version);
        let w1 = chain(w0, Self::spec_write_protocol_type(m, version));
        let w2 = chain(w1, Self::spec_write_group_state(m, version));
        let w3 = chain(w2, Self::spec_write_group_type(m, version));
        let w4 = chain(w3, Self::spec_write_tags(m, version));
        assert(Self::spec_write(m, version) == w4);
        assert(written(w4) + t5 =~= written(w3) + t4);
        assert(written(w3) + t4 =~= written(w2) + t3);
        assert(written(w2) + t3 =~= written(w1) + t2);
        assert(written(w1) + t2 =~= written(w0) + t1);
        Self::lemma_round_trip_group_id(m, version, t1);
        Self::lemma_round_trip_protocol_type(m, version, t2);
        Self::lemma_round_trip_group_state(m, version, t3);
        Self::lemma_round_trip_group_type(m, version, t4);
        Self::lemma_round_trip_tags(m, version, t5);
    }

    /// In a version that does not carry `group_state`, writing ignores its value.
    pub proof fn lemma_write_ignores_group_state(m: ListedGroupView, value: Seq<u8>, version: i16)
        requires
            !(version >= 4),
        ensures
            Self::spec_write((ListedGroupView { group_state: value, ..m }), version) == Self::spec_write(m, version),
    {
        reveal(ListedGroup::spec_write_group_id);
        reveal(ListedGroup::spec_write_protocol_type);
        reveal(ListedGroup::spec_write_group_state);
        reveal(ListedGroup::spec_write_group_type);
        reveal(ListedGroup::spec_write_tags);
    }

    /// In a version that does not carry `group_type`, writing ignores its value.
    pub proof fn lemma_write_ignores_group_type(m: ListedGroupView, value: Seq<u8>, version: i16)
        requires
            !(version >= 5),
        ensures
            Self::spec_write((ListedGroupView { group_type: value, ..m }), version) == Self::spec_write(m, version),
    {
        reveal(ListedGroup::spec_write_group_id);
        reveal(ListedGroup::spec_write_protocol_type);
        reveal(ListedGroup::spec_write_group_state);
        reveal(ListedGroup::spec_write_group_type);
        reveal(ListedGroup::spec_write_tags);
    }

    /// In a version that does not carry `unknown_tagged_fields`, writing ignores its value.
    pub proof fn lemma_write_ignores_unknown_tagged_fields(m: ListedGroupView, value: Seq<(u32, Seq<u8>)>, version: i16)
        requires
            !(version >= 3),
        ensures
            Self::spec_write((ListedGroupView { unknown_tagged_fields: value, ..m }), version) == Self::spec_write(m, version),
    {
        reveal(ListedGroup::spec_write_group_id);
        reveal(ListedGroup::spec_write_protocol_type);
        reveal(ListedGroup::spec_write_group_state);
        reveal(ListedGroup::spec_write_group_type);
        reveal(ListedGroup::spec_write_tags);
    }

    /// The default message holds the default value of each field of the schema.
    pub proof fn lemma_default_values()
        ensures
            Self::default_view().group_id.len() == 0,
            Self::default_view().protocol_type.len() == 0,
            Self::default_view().group_state.len() == 0,
            Self::default_view().group_type.len() == 0,
            Self::default_view().unknown_tagged_fields.len() == 0,
    {
    }

    /// Each integer, boolean and identifier field is written as its standard
    /// big-endian bytes (a boolean as `1` or `0`) in the versions that carry
    /// it, and as nothing in the others; reading it takes those bytes back (any
    /// byte other than `0` reads as `true`), or gives its default value.
    pub proof fn lemma_field_encodings(m: ListedGroupView, s: Seq<u8>, version: i16)
        ensures
            !(version >= 4) ==> Self::spec_write_group_state(m, version) == Ok::<Seq<u8>, (Error, Seq<u8>)>(Seq::empty()),
            !(version >= 5) ==> Self::spec_write_group_type(m, version) == Ok::<Seq<u8>, (Error, Seq<u8>)>(Seq::empty()),
    {
        reveal(ListedGroup::spec_write_group_state);
        reveal(ListedGroup::spec_read_group_state);
        reveal(ListedGroup::spec_write_group_type);
        reveal(ListedGroup::spec_read_group_type);
    }

    /// Whether writing `m` in `version` succeeds, said over its parts: the
    /// version is one the schema covers, every field that the version cannot
    /// carry holds its default value, and every string, byte string, array and
    /// tagged field fits its length prefix.
    pub open spec fn writable(m: ListedGroupView, version: i16) -> bool {
        &&& m.group_id.len() <= 0x7fff
        &&& m.protocol_type.len() <= 0x7fff
        &&& (if version >= 4 {
                m.group_state.len() <= 0x7fff
            } else {
                true
        })
        &&& (if version >= 5 {
                m.group_type.len() <= 0x7fff
            } else {
                true
        })
        &&& (if version >= 3 {
                m.unknown_tagged_fields.len() <= u32::MAX && tags_fit(m.unknown_tagged_fields)
            } else {
                true
        })
    }

    proof fn lemma_writable_group_id(m: ListedGroupView, version: i16)
        ensures
            Self::spec_write_group_id(m, version) is Ok <==> m.group_id.len() <= 0x7fff,
    {
        reveal(ListedGroup::spec_write_group_id);
    }

    proof fn lemma_writable_protocol_type(m: ListedGroupView, version: i16)
        ensures
            Self::spec_write_protocol_type(m, version) is Ok <==> m.protocol_type.len() <= 0x7fff,
    {
        reveal(ListedGroup::spec_write_protocol_type);
    }

    proof fn lemma_writable_group_state(m: ListedGroupView, version: i16)
        ensures
            Self::spec_write_group_state(m, version) is Ok <==> (if version >= 4 { m.group_state.len() <= 0x7fff } else { true }),
    {
        reveal(ListedGroup::spec_write_group_state);
    }

    proof fn lemma_writable_group_type(m: ListedGroupView, version: i16)
        ensures
            Self::spec_write_group_type(m, version) is Ok <==> (if version >= 5 { m.group_type.len() <= 0x7fff } else { true }),
    {
        reveal(ListedGroup::spec_write_group_type);
    }

    proof fn lemma_writable_tags(m: ListedGroupView, version: i16)
        ensures
            Self::spec_write_tags(m, version) is Ok <==> (if version >= 3 { m.unknown_tagged_fields.len() <= u32::MAX && tags_fit(m.unknown_tagged_fields) } else { true }),
    {
        reveal(ListedGroup::spec_write_tags);
        if version >= 3 {
            lemma_sorted_tags_fit(m.unknown_tagged_fields);
            lemma_tagged_fields_writable(sorted_by_tag(m.unknown_tagged_fields));
        }
    }

    /// Writing `m` in `version` succeeds exactly when `m` is writable in it;
    /// so do `write` and `encoded_len`, whose results follow `spec_write`.
    #[verifier::rlimit(60)]
    pub proof fn lemma_writable(m: ListedGroupView, version: i16)
        ensures
            Self::spec_write(m, version) is Ok <==> Self::writable(m, version),
    {
        Self::lemma_writable_group_id(m, version);
        Self::lemma_writable_protocol_type(m, version);
        Self::lemma_writable_group_state(m, version);
        Self::lemma_writable_group_type(m, version);
        Self::lemma_writable_tags(m, version);
    }

    fn read_group_id(buf: &mut Bytes, version: i16) -> (r: Result<KafkaString, Error>)
        ensures
            read_as(Self::spec_read_group_id(bytes_seq(*old(buf)), version), *final(buf), r),
            took_front(*old(buf), *final(buf)),
    {
        proof {
            reveal(ListedGroup::spec_read_group_id);
        }
        Ok(if version >= 3 {
                read_compact_string(buf)?
            } else {
                read_string(buf)?
        })
    }

    fn read_protocol_type(buf: &mut Bytes, version: i16) -> (r: Result<KafkaString, Error>)
        ensures
            read_as(Self::spec_read_protocol_type(bytes_seq(*old(buf)), version), *final(buf), r),
            took_front(*old(buf), *final(buf)),
    {
        proof {
            reveal(ListedGroup::spec_read_protocol_type);
        }
        Ok(if version >= 3 {
                read_compact_string(buf)?
            } else {
                read_string(buf)?
        })
    }

    fn read_group_state(buf: &mut Bytes, version: i16) -> (r: Result<KafkaString, Error>)
        ensures
            read_as(Self::spec_read_group_state(bytes_seq(*old(buf)), version), *final(buf), r),
            took_front(*old(buf), *final(buf)),
    {
        proof {
            reveal(ListedGroup::spec_read_group_state);
        }
        Ok(if version >= 4 {
                read_compact_string(buf)?
            } else {
                KafkaString::default()
        })
    }

    fn read_group_type(buf: &mut Bytes, version: i16) -> (r: Result<KafkaString, Error>)
        ensures
            read_as(Self::spec_read_group_type(bytes_seq(*old(buf)), version), *final(buf), r),
            took_front(*old(buf), *final(buf)),
    {
        proof {
            reveal(ListedGroup::spec_read_group_type);
        }
        Ok(if version >= 5 {
                read_compact_string(buf)?
            } else {
                KafkaString::default()
        })
    }

    fn read_tags(buf: &mut Bytes, version: i16) -> (r: Result<Vec<RawTaggedField>, Error>)
        ensures
            read_vec_as(Self::spec_read_tags(bytes_seq(*old(buf)), version), *final(buf), r),
            took_front(*old(buf), *final(buf)),
    {
        proof {
            reveal(ListedGroup::spec_read_tags);
        }
        Ok(if version >= 3 {
                read_tagged_fields(buf)?
            } else {
                empty_vec()
        })
    }

    pub fn read(buf: &mut Bytes, version: i16) -> (r: Result<Self, Error>)
        ensures
            read_as(Self::spec_read(bytes_seq(*old(buf)), version), *final(buf), r),
            took_front(*old(buf), *final(buf)),
    {
        let group_id = Self::read_group_id(buf, version)?;
        let protocol_type = Self::read_protocol_type(buf, version)?;
        let group_state = Self::read_group_state(buf, version)?;
        let group_type = Self::read_group_type(buf, version)?;
        let _unknown_tagged_fields = Self::read_tags(buf, version)?;
        Ok(ListedGroup {
                group_id: group_id,
                protocol_type: protocol_type,
                group_state: group_state,
                group_type: group_type,
                _unknown_tagged_fields: _unknown_tagged_fields,
        })
    }

    #[verifier::rlimit(80)]
    pub fn write(&self, buf: &mut BytesMut, version: i16) -> (r: Result<(), Error>)
        requires
            has_room(Self::spec_write(self@, version), *old(buf)),
        ensures
            wrote(Self::spec_write(self@, version), *old(buf), *final(buf), r),
    {
        let ghost m = self@;
        proof {
            reveal(ListedGroup::spec_write_group_id);
            reveal(ListedGroup::spec_write_protocol_type);
            reveal(ListedGroup::spec_write_group_state);
            reveal(ListedGroup::spec_write_group_type);
            reveal(ListedGroup::spec_write_tags);
        }
        let ghost s0 = Self::spec_write_group_id(m, version);
        let ghost w0 = s0;
        let ghost s1 = Self::spec_write_protocol_type(m, version);
        let ghost w1 = chain(w0, s1);
        let ghost s2 = Self::spec_write_group_state(m, version);
        let ghost w2 = chain(w1, s2);
        let ghost s3 = Self::spec_write_group_type(m, version);
        let ghost w3 = chain(w2, s3);
        let ghost s4 = Self::spec_write_tags(m, version);
        let ghost w4 = chain(w3, s4);
        assert(Self::spec_write(m, version) == w4);
        assert(written(w3).len() <= written(w4).len() && (w3 is Err ==> w4 == w3));
        assert(written(w2).len() <= written(w4).len() && (w2 is Err ==> w4 == w2));
        assert(written(w1).len() <= written(w4).len() && (w1 is Err ==> w4 == w1));
        assert(written(w0).len() <= written(w4).len() && (w0 is Err ==> w4 == w0));
        let ghost mid = bytes_mut_seq(*buf);
        proof {
            lemma_append_empty(mid);
        }
        let r0 = if version >= 3 {
            write_compact_string(buf, &self.group_id)
        } else {
            write_string(buf, &self.group_id)
        };
        assert(bytes_mut_seq(*buf) == mid + written(s0));
        if r0.is_err() {
            return r0;
        }
        let ghost mid = bytes_mut_seq(*buf);
        proof {
            lemma_append_empty(mid);
        }
        let r1 = if version >= 3 {
            write_compact_string(buf, &self.protocol_type)
        } else {
            write_string(buf, &self.protocol_type)
        };
        assert(bytes_mut_seq(*buf) == mid + written(s1));
        proof {
            lemma_step(bytes_mut_seq(*old(buf)), w0, s1);
        }
        if r1.is_err() {
            return r1;
        }
        let ghost mid = bytes_mut_seq(*buf);
        proof {
            lemma_append_empty(mid);
        }
        let r2 = if version >= 4 {
            write_compact_string(buf, &self.group_state)
        } else {
            Ok(())
        };
        assert(bytes_mut_seq(*buf) == mid + written(s2));
        proof {
            lemma_step(bytes_mut_seq(*old(buf)), w1, s2);
        }
        if r2.is_err() {
            return r2;
        }
        let ghost mid = bytes_mut_seq(*buf);
        proof {
            lemma_append_empty(mid);
        }
        let r3 = if version >= 5 {
            write_compact_string(buf, &self.group_type)
        } else {
            Ok(())
        };
        assert(bytes_mut_seq(*buf) == mid + written(s3));
        proof {
            lemma_step(bytes_mut_seq(*old(buf)), w2, s3);
        }
        if r3.is_err() {
            return r3;
        }
        let ghost mid = bytes_mut_seq(*buf);
        proof {
            lemma_append_empty(mid);
        }
        let r4 = if version >= 3 {
            write_tagged_fields(buf, &sort_by_tag(&self._unknown_tagged_fields))
        } else {
            Ok(())
        };
        assert(bytes_mut_seq(*buf) == mid + written(s4));
        proof {
            lemma_step(bytes_mut_seq(*old(buf)), w3, s4);
        }
        if r4.is_err() {
            return r4;
        }
        Ok(())
    }
}

impl Codec for ListedGroup {
    type Item = ListedGroup;

    open spec fn spec_read_item(s: Seq<u8>, version: i16) -> ReadOutcome<ListedGroupView> {
        ListedGroup::spec_read(s, version)
    }

    open spec fn spec_write_item(v: ListedGroupView, version: i16) -> WriteOutcome {
        ListedGroup::spec_write(v, version)
    }

    open spec fn canonical_item(v: ListedGroupView, version: i16) -> bool {
        ListedGroup::canonical(v, version)
    }

    proof fn lemma_item_round_trip(v: ListedGroupView, version: i16, rest: Seq<u8>) {
        ListedGroup::lemma_round_trip(v, version, rest);
    }

    open spec fn writable_item(v: ListedGroupView, version: i16) -> bool {
        ListedGroup::writable(v, version)
    }

    proof fn lemma_item_writable(v: ListedGroupView, version: i16) {
        ListedGroup::lemma_writable(v, version);
    }

    fn read_item(buf: &mut Bytes, version: i16) -> (r: Result<ListedGroup, Error>) {
        ListedGroup::read(buf, version)
    }

    fn write_item(item: &ListedGroup, buf: &mut BytesMut, version: i16) -> (r: Result<(), Error>) {
        item.write(buf, version)
    }
}

} // verus!
