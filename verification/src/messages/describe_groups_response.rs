//! The describe groups response message.
use crate::buffer::{bytes_empty, bytes_mut_seq, bytes_seq};
use crate::codec::{Codec, all_canonical, all_writable, lemma_array_round_trip, lemma_array_writable, read_array, spec_read_array, spec_write_array, write_array};
use crate::error::{Error, UnsupportedVersion};
use crate::ints::{lemma_i16_roundtrip, lemma_i32_roundtrip, read_i16, read_i32, spec_read_i16, spec_read_i32, spec_write_i16, spec_write_i32, u16_bytes, u32_bytes, write_i16, write_i32};
use crate::strings::{lemma_bytes_round_trip, lemma_compact_bytes_round_trip, lemma_compact_nullable_string_round_trip, lemma_compact_string_round_trip, lemma_nullable_string_round_trip, lemma_string_round_trip, read_bytes, read_compact_bytes, read_compact_nullable_string, read_compact_string, read_nullable_string, read_string, spec_read_bytes, spec_read_compact_bytes, spec_read_compact_nullable_string, spec_read_compact_string, spec_read_nullable_string, spec_read_string, spec_write_bytes, spec_write_compact_bytes, spec_write_compact_nullable_string, spec_write_compact_string, spec_write_nullable_string, spec_write_string, write_bytes, write_compact_bytes, write_compact_nullable_string, write_compact_string, write_nullable_string, write_string};
use crate::tagged::{lemma_sorted_by_tag_in_order, lemma_sorted_tags_fit, lemma_tagged_fields_round_trip, lemma_tagged_fields_writable, read_tagged_fields, sort_by_tag, sorted_by_tag, spec_read_tagged_fields, spec_write_tagged_fields, tags_fit, tags_in_order, write_tagged_fields};
use crate::types::{KafkaString, RawTaggedField};
use crate::wire::{ReadOutcome, ViewClone, WriteOutcome, chain, clone_vec, emit, empty_vec, fail, has_room, lemma_append_empty, lemma_chain_written, lemma_step, opt_view, read_as, read_bytes_as, read_opt_as, read_vec_as, took_front, views, written, wrote};
use bytes::{Bytes, BytesMut};
use vstd::prelude::*;

verus! {

broadcast use {crate::wire::lemma_chain_written, crate::wire::lemma_took_front_nothing, crate::wire::lemma_took_front_twice};

#[derive(Debug, PartialEq)]
pub struct DescribeGroupsResponseData {
    /// The duration in milliseconds for which the request was throttled due to a quota violation,
    /// or zero if the request did not violate any quota.
    pub throttle_time_ms: i32,
    /// Each described group.
    pub groups: Vec<DescribedGroup>,
    pub _unknown_tagged_fields: Vec<RawTaggedField>,
}

/// What a `DescribeGroupsResponseData` holds, as the specification sees it.
#[verifier::ext_equal]
pub struct DescribeGroupsResponseDataView {
    pub throttle_time_ms: i32,
    pub groups: Seq<DescribedGroupView>,
    pub unknown_tagged_fields: Seq<(u32, Seq<u8>)>,
}

impl View for DescribeGroupsResponseData {
    type V = DescribeGroupsResponseDataView;

    open spec fn view(&self) -> DescribeGroupsResponseDataView {
        DescribeGroupsResponseDataView {
            throttle_time_ms: self.throttle_time_ms,
            groups: views(self.groups@),
            unknown_tagged_fields: views(self._unknown_tagged_fields@),
        }
    }
}

impl Clone for DescribeGroupsResponseData {
    fn clone(&self) -> (r: Self)
        ensures
            r@ == self@,
    {
        let r = DescribeGroupsResponseData {
            throttle_time_ms: self.throttle_time_ms,
            groups: clone_vec(&self.groups),
            _unknown_tagged_fields: clone_vec(&self._unknown_tagged_fields),
        };
        assert(r@ =~= self@);
        r
    }
}

impl ViewClone for DescribeGroupsResponseData {
    fn clone_view(&self) -> (r: Self) {
        self.clone()
    }
}

impl Default for DescribeGroupsResponseData {
    fn default() -> (r: Self)
        ensures
            r@ == Self::default_view(),
    {
        let r = DescribeGroupsResponseData {
            throttle_time_ms: 0_i32,
            groups: empty_vec(),
            _unknown_tagged_fields: empty_vec(),
        };
        assert(r@ =~= Self::default_view());
        r
    }
}

impl DescribeGroupsResponseData {
    pub open spec fn default_view() -> DescribeGroupsResponseDataView {
        DescribeGroupsResponseDataView {
            throttle_time_ms: 0_i32,
            groups: Seq::empty(),
            unknown_tagged_fields: Seq::empty(),
        }
    }

    /// The `throttle_time_ms` field, read from the front of `s`.
    #[verifier::opaque]
    pub open spec fn spec_read_throttle_time_ms(s: Seq<u8>, version: i16) -> ReadOutcome<i32> {
        if version >= 1 {
            spec_read_i32(s)
        } else {
            Ok((0_i32, s))
        }
    }

    /// The `groups` field, read from the front of `s`.
    #[verifier::opaque]
    pub open spec fn spec_read_groups(s: Seq<u8>, version: i16) -> ReadOutcome<Seq<DescribedGroupView>> {
        if version >= 5 {
            spec_read_array::<DescribedGroup>(s, version, true)
        } else {
            spec_read_array::<DescribedGroup>(s, version, false)
        }
    }

    /// The tagged fields, read from the front of `s`.
    #[verifier::opaque]
    pub open spec fn spec_read_tags(s: Seq<u8>, version: i16) -> ReadOutcome<Seq<(u32, Seq<u8>)>> {
        if version >= 5 {
            spec_read_tagged_fields(s)
        } else {
            Ok((Seq::empty(), s))
        }
    }

    pub open spec fn spec_read(s: Seq<u8>, version: i16) -> ReadOutcome<DescribeGroupsResponseDataView> {
        if version < 0 || version > 6 {
            Err(Error::UnsupportedVersion(UnsupportedVersion { api_key: 15, version }))
        } else {
            match (Self::spec_read_throttle_time_ms(s, version)) {
                Err(e) => Err(e),
                Ok((throttle_time_ms, s)) => match (Self::spec_read_groups(s, version)) {
                    Err(e) => Err(e),
                    Ok((groups, s)) => match (Self::spec_read_tags(s, version)) {
                        Err(e) => Err(e),
                        Ok((unknown_tagged_fields, s)) => Ok((DescribeGroupsResponseDataView {
                                    throttle_time_ms: throttle_time_ms,
                                    groups: groups,
                                    unknown_tagged_fields: unknown_tagged_fields,
                                }, s)),
                    },
                },
            }
        }
    }

    /// What writing the `throttle_time_ms` field of `m` appends.
    #[verifier::opaque]
    pub open spec fn spec_write_throttle_time_ms(m: DescribeGroupsResponseDataView, version: i16) -> WriteOutcome {
        if version >= 1 {
            spec_write_i32(m.throttle_time_ms)
        } else {
            emit(Seq::empty())
        }
    }

    /// What writing the `groups` field of `m` appends.
    #[verifier::opaque]
    pub open spec fn spec_write_groups(m: DescribeGroupsResponseDataView, version: i16) -> WriteOutcome {
        if version >= 5 {
            spec_write_array::<DescribedGroup>(m.groups, version, true)
        } else {
            spec_write_array::<DescribedGroup>(m.groups, version, false)
        }
    }

    /// What writing the tagged fields of `m` appends.
    #[verifier::opaque]
    pub open spec fn spec_write_tags(m: DescribeGroupsResponseDataView, version: i16) -> WriteOutcome {
        if version >= 5 {
            spec_write_tagged_fields(sorted_by_tag(m.unknown_tagged_fields))
        } else {
            emit(Seq::empty())
        }
    }

    pub open spec fn spec_write(m: DescribeGroupsResponseDataView, version: i16) -> WriteOutcome {
        if version < 0 || version > 6 {
            fail(Error::UnsupportedVersion(UnsupportedVersion { api_key: 15, version }))
        } else {
            chain(
                chain(
                    Self::spec_write_throttle_time_ms(m, version),
                    Self::spec_write_groups(m, version),
                ),
                Self::spec_write_tags(m, version),
            )
        }
    }

    /// Whether reading back what writing `m` in `version` appends gives `m`:
    /// fields that the version does not carry hold their default values, and
    /// tagged fields come in the order in which they are written.
    pub open spec fn canonical(m: DescribeGroupsResponseDataView, version: i16) -> bool {
        &&& (if version >= 1 {
                true
            } else {
                m.throttle_time_ms == 0_i32
        })
        &&& all_canonical::<DescribedGroup>(m.groups, version)
        &&& (if version >= 5 {
                tags_in_order(m.unknown_tagged_fields)
            } else {
                m.unknown_tagged_fields.len() == 0
        })
    }

    proof fn lemma_round_trip_throttle_time_ms(m: DescribeGroupsResponseDataView, version: i16, rest: Seq<u8>)
        requires
            Self::canonical(m, version),
            Self::spec_write_throttle_time_ms(m, version) is Ok,
        ensures
            Self::spec_read_throttle_time_ms(written(Self::spec_write_throttle_time_ms(m, version)) + rest, version) == Ok::<(i32, Seq<u8>), Error>((m.throttle_time_ms, rest)),
    {
        reveal(DescribeGroupsResponseData::spec_read_throttle_time_ms);
        reveal(DescribeGroupsResponseData::spec_write_throttle_time_ms);
        if version >= 1 {
            lemma_i32_roundtrip(m.throttle_time_ms, rest);
        } else {
            assert(Seq::<u8>::empty() + rest =~= rest);
        }
    }

    proof fn lemma_round_trip_groups(m: DescribeGroupsResponseDataView, version: i16, rest: Seq<u8>)
        requires
            Self::canonical(m, version),
            Self::spec_write_groups(m, version) is Ok,
        ensures
            Self::spec_read_groups(written(Self::spec_write_groups(m, version)) + rest, version) == Ok::<(Seq<DescribedGroupView>, Seq<u8>), Error>((m.groups, rest)),
    {
        reveal(DescribeGroupsResponseData::spec_read_groups);
        reveal(DescribeGroupsResponseData::spec_write_groups);
        if version >= 5 {
            lemma_array_round_trip::<DescribedGroup>(m.groups, version, true, rest);
        } else {
            lemma_array_round_trip::<DescribedGroup>(m.groups, version, false, rest);
        }
    }

    proof fn lemma_round_trip_tags(m: DescribeGroupsResponseDataView, version: i16, rest: Seq<u8>)
        requires
            Self::canonical(m, version),
            Self::spec_write_tags(m, version) is Ok,
        ensures
            Self::spec_read_tags(written(Self::spec_write_tags(m, version)) + rest, version) == Ok::<(Seq<(u32, Seq<u8>)>, Seq<u8>), Error>((m.unknown_tagged_fields, rest)),
    {
        reveal(DescribeGroupsResponseData::spec_read_tags);
        reveal(DescribeGroupsResponseData::spec_write_tags);
        if version >= 5 {
            lemma_sorted_by_tag_in_order(m.unknown_tagged_fields);
            lemma_tagged_fields_round_trip(m.unknown_tagged_fields, rest);
        } else {
            assert(Seq::<u8>::empty() + rest =~= rest);
            assert(m.unknown_tagged_fields =~= Seq::empty());
        }
    }

    /// Reading back what writing `m` in `version` appends gives `m` again, and
    /// leaves what follows, for every canonical message whose write succeeds.
    #[verifier::rlimit(70)]
    #[verifier::spinoff_prover]
    pub proof fn lemma_round_trip(m: DescribeGroupsResponseDataView, version: i16, rest: Seq<u8>)
        requires
            Self::canonical(m, version),
            Self::spec_write(m, version) is Ok,
        ensures
            Self::spec_read(written(Self::spec_write(m, version)) + rest, version) == Ok::<(DescribeGroupsResponseDataView, Seq<u8>), Error>((m, rest)),
    {
        let b0 = written(Self::spec_write_throttle_time_ms(m, version));
        let b1 = written(Self::spec_write_groups(m, version));
        let b2 = written(Self::spec_write_tags(m, version));
        let t3 = rest;
        let t2 = b2 + t3;
        let t1 = b1 + t2;
        let t0 = b0 + t1;
        let w0 = Self::spec_write_throttle_time_ms(m, version);
        let w1 = chain(w0, Self::spec_write_groups(m, version));
        let w2 = chain(w1, Self::spec_write_tags(m, version));
        assert(Self::spec_write(m, version) == w2);
        assert(written(w2) + t3 =~= written(w1) + t2);
        assert(written(w1) + t2 =~= written(w0) + t1);
        Self::lemma_round_trip_throttle_time_ms(m, version, t1);
        Self::lemma_round_trip_groups(m, version, t2);
        Self::lemma_round_trip_tags(m, version, t3);
    }

    /// In a version that does not carry `throttle_time_ms`, writing ignores its value.
    pub proof fn lemma_write_ignores_throttle_time_ms(m: DescribeGroupsResponseDataView, value: i32, version: i16)
        requires
            !(version >= 1),
        ensures
            Self::spec_write((DescribeGroupsResponseDataView { throttle_time_ms: value, ..m }), version) == Self::spec_write(m, version),
    {
        reveal(DescribeGroupsResponseData::spec_write_throttle_time_ms);
        reveal(DescribeGroupsResponseData::spec_write_groups);
        reveal(DescribeGroupsResponseData::spec_write_tags);
    }

    /// In a version that does not carry `unknown_tagged_fields`, writing ignores its value.
    pub proof fn lemma_write_ignores_unknown_tagged_fields(m: DescribeGroupsResponseDataView, value: Seq<(u32, Seq<u8>)>, version: i16)
        requires
            !(version >= 5),
        ensures
            Self::spec_write((DescribeGroupsResponseDataView { unknown_tagged_fields: value, ..m }), version) == Self::spec_write(m, version),
    {
        reveal(DescribeGroupsResponseData::spec_write_throttle_time_ms);
        reveal(DescribeGroupsResponseData::spec_write_groups);
        reveal(DescribeGroupsResponseData::spec_write_tags);
    }

    /// The default message holds the default value of each field of the schema.
    pub proof fn lemma_default_values()
        ensures
            Self::default_view().throttle_time_ms == (0_i32),
            Self::default_view().groups.len() == 0,
            Self::default_view().unknown_tagged_fields.len() == 0,
    {
    }

    /// Each integer, boolean and identifier field is written as its standard
    /// big-endian bytes (a boolean as `1` or `0`) in the versions that carry
    /// it, and as nothing in the others; reading it takes those bytes back (any
    /// byte other than `0` reads as `true`), or gives its default value.
    pub proof fn lemma_field_encodings(m: DescribeGroupsResponseDataView, s: Seq<u8>, version: i16)
        ensures
            version >= 1 ==> Self::spec_write_throttle_time_ms(m, version) == Ok::<Seq<u8>, (Error, Seq<u8>)>(u32_bytes(m.throttle_time_ms as u32)),
            !(version >= 1) ==> Self::spec_write_throttle_time_ms(m, version) == Ok::<Seq<u8>, (Error, Seq<u8>)>(Seq::empty()),
            version >= 1 ==> Self::spec_read_throttle_time_ms(s, version) == spec_read_i32(s),
            !(version >= 1) ==> Self::spec_read_throttle_time_ms(s, version) == Ok::<(i32, Seq<u8>), Error>((0_i32, s)),
    {
        reveal(DescribeGroupsResponseData::spec_write_throttle_time_ms);
        reveal(DescribeGroupsResponseData::spec_read_throttle_time_ms);
    }

    /// Whether writing `m` in `version` succeeds, said over its parts: the
    /// version is one the schema covers, every field that the version cannot
    /// carry holds its default value, and every string, byte string, array and
    /// tagged field fits its length prefix.
    pub open spec fn writable(m: DescribeGroupsResponseDataView, version: i16) -> bool {
        &&& 0 <= version <= 6
        &&& (m.groups.len() <= i32::MAX && all_writable::<DescribedGroup>(m.groups, version))
        &&& (if version >= 5 {
                m.unknown_tagged_fields.len() <= u32::MAX && tags_fit(m.unknown_tagged_fields)
            } else {
                true
        })
    }

    proof fn lemma_writable_throttle_time_ms(m: DescribeGroupsResponseDataView, version: i16)
        ensures
            Self::spec_write_throttle_time_ms(m, version) is Ok <==> true,
    {
        reveal(DescribeGroupsResponseData::spec_write_throttle_time_ms);
    }

    proof fn lemma_writable_groups(m: DescribeGroupsResponseDataView, version: i16)
        ensures
            Self::spec_write_groups(m, version) is Ok <==> (m.groups.len() <= i32::MAX && all_writable::<DescribedGroup>(m.groups, version)),
    {
        reveal(DescribeGroupsResponseData::spec_write_groups);
        if version >= 5 {
            lemma_array_writable::<DescribedGroup>(m.groups, version, true);
        } else {
            lemma_array_writable::<DescribedGroup>(m.groups, version, false);
        }
    }

    proof fn lemma_writable_tags(m: DescribeGroupsResponseDataView, version: i16)
        ensures
            Self::spec_write_tags(m, version) is Ok <==> (if version >= 5 { m.unknown_tagged_fields.len() <= u32::MAX && tags_fit(m.unknown_tagged_fields) } else { true }),
    {
        reveal(DescribeGroupsResponseData::spec_write_tags);
        if version >= 5 {
            lemma_sorted_tags_fit(m.unknown_tagged_fields);
            lemma_tagged_fields_writable(sorted_by_tag(m.unknown_tagged_fields));
        }
    }

    /// Writing `m` in `version` succeeds exactly when `m` is writable in it;
    /// so do `write` and `encoded_len`, whose results follow `spec_write`.
    #[verifier::rlimit(48)]
    pub proof fn lemma_writable(m: DescribeGroupsResponseDataView, version: i16)
        ensures
            Self::spec_write(m, version) is Ok <==> Self::writable(m, version),
    {
        Self::lemma_writable_throttle_time_ms(m, version);
        Self::lemma_writable_groups(m, version);
        Self::lemma_writable_tags(m, version);
    }

    /// A version outside the range that the schema covers is refused, by
    /// reads and by writes alike, before anything is read or written.
    pub proof fn lemma_refused_version(m: DescribeGroupsResponseDataView, s: Seq<u8>, version: i16)
        requires
            version < 0 || version > 6,
        ensures
            Self::spec_read(s, version) == Err::<(DescribeGroupsResponseDataView, Seq<u8>), Error>(Error::UnsupportedVersion(UnsupportedVersion { api_key: 15, version })),
            Self::spec_write(m, version) == fail(Error::UnsupportedVersion(UnsupportedVersion { api_key: 15, version })),
    {
    }

    fn read_throttle_time_ms(buf: &mut Bytes, version: i16) -> (r: Result<i32, Error>)
        ensures
            read_as(Self::spec_read_throttle_time_ms(bytes_seq(*old(buf)), version), *final(buf), r),
            took_front(*old(buf), *final(buf)),
    {
        proof {
            reveal(DescribeGroupsResponseData::spec_read_throttle_time_ms);
        }
        Ok(if version >= 1 {
                read_i32(buf)?
            } else {
                0_i32
        })
    }

    fn read_groups(buf: &mut Bytes, version: i16) -> (r: Result<Vec<DescribedGroup>, Error>)
        ensures
            read_vec_as(Self::spec_read_groups(bytes_seq(*old(buf)), version), *final(buf), r),
            took_front(*old(buf), *final(buf)),
    {
        proof {
            reveal(DescribeGroupsResponseData::spec_read_groups);
        }
        Ok(if version >= 5 {
                read_array::<DescribedGroup>(buf, version, true)?
            } else {
                read_array::<DescribedGroup>(buf, version, false)?
        })
    }

    fn read_tags(buf: &mut Bytes, version: i16) -> (r: Result<Vec<RawTaggedField>, Error>)
        ensures
            read_vec_as(Self::spec_read_tags(bytes_seq(*old(buf)), version), *final(buf), r),
            took_front(*old(buf), *final(buf)),
    {
        proof {
            reveal(DescribeGroupsResponseData::spec_read_tags);
        }
        Ok(if version >= 5 {
                read_tagged_fields(buf)?
            } else {
                empty_vec()
        })
    }

    pub fn read(buf: &mut Bytes, version: i16) -> (r: Result<Self, Error>)
        ensures
            read_as(Self::spec_read(bytes_seq(*old(buf)), version), *final(buf), r),
            took_front(*old(buf), *final(buf)),
            (version < 0 || version > 6) ==> bytes_seq(*final(buf)) == bytes_seq(*old(buf)),
    {
        if version < 0 || version > 6 {
            return Err(Error::UnsupportedVersion(UnsupportedVersion::new(15, version)));
        }
        let throttle_time_ms = Self::read_throttle_time_ms(buf, version)?;
        let groups = Self::read_groups(buf, version)?;
        let _unknown_tagged_fields = Self::read_tags(buf, version)?;
        Ok(DescribeGroupsResponseData {
                throttle_time_ms: throttle_time_ms,
                groups: groups,
                _unknown_tagged_fields: _unknown_tagged_fields,
        })
    }

    #[verifier::rlimit(60)]
    pub fn write(&self, buf: &mut BytesMut, version: i16) -> (r: Result<(), Error>)
        requires
            has_room(Self::spec_write(self@, version), *old(buf)),
        ensures
            wrote(Self::spec_write(self@, version), *old(buf), *final(buf), r),
    {
        if version < 0 || version > 6 {
            return Err(Error::UnsupportedVersion(UnsupportedVersion::new(15, version)));
        }
        let ghost m = self@;
        proof {
            reveal(DescribeGroupsResponseData::spec_write_throttle_time_ms);
            reveal(DescribeGroupsResponseData::spec_write_groups);
            reveal(DescribeGroupsResponseData::spec_write_tags);
        }
        let ghost s0 = Self::spec_write_throttle_time_ms(m, version);
        let ghost w0 = s0;
        let ghost s1 = Self::spec_write_groups(m, version);
        let ghost w1 = chain(w0, s1);
        let ghost s2 = Self::spec_write_tags(m, version);
        let ghost w2 = chain(w1, s2);
        assert(Self::spec_write(m, version) == w2);
        assert(written(w1).len() <= written(w2).len() && (w1 is Err ==> w2 == w1));
        assert(written(w0).len() <= written(w2).len() && (w0 is Err ==> w2 == w0));
        let ghost mid = bytes_mut_seq(*buf);
        proof {
            lemma_append_empty(mid);
        }
        let r0 = if version >= 1 {
            {
                write_i32(buf, self.throttle_time_ms);
                Ok(())
            }
        } else {
            Ok(())
        };
        assert(bytes_mut_seq(*buf) == mid + written(s0));
        if r0.is_err() {
            return r0;
        }
        let ghost mid = bytes_mut_seq(*buf);
        proof {
            lemma_append_empty(mid);
        }
        let r1 = if version >= 5 {
            write_array::<DescribedGroup>(buf, &self.groups, version, true)
        } else {
            write_array::<DescribedGroup>(buf, &self.groups, version, false)
        };
        assert(bytes_mut_seq(*buf) == mid + written(s1));
        proof {
            lemma_step(bytes_mut_seq(*old(buf)), w0, s1);
        }
        if r1.is_err() {
            return r1;
        }
        let ghost mid = bytes_mut_seq(*buf);
        proof {
            lemma_append_empty(mid);
        }
        let r2 = if version >= 5 {
            write_tagged_fields(buf, &sort_by_tag(&self._unknown_tagged_fields))
        } else {
            Ok(())
        };
        assert(bytes_mut_seq(*buf) == mid + written(s2));
        proof {
            lemma_step(bytes_mut_seq(*old(buf)), w1, s2);
        }
        if r2.is_err() {
            return r2;
        }
        Ok(())
    }
}

#[derive(Debug, PartialEq)]
pub struct DescribedGroup {
    /// The describe error, or 0 if there was no error.
    pub error_code: i16,
    /// The describe error message, or null if there was no error.
    pub error_message: Option<KafkaString>,
    /// The group ID string.
    pub group_id: KafkaString,
    /// The group state string, or the empty string.
    pub group_state: KafkaString,
    /// The group protocol type, or the empty string.
    pub protocol_type: KafkaString,
    /// The group protocol data, or the empty string.
    pub protocol_data: KafkaString,
    /// The group members.
    pub members: Vec<DescribedGroupMember>,
    /// 32-bit bitfield to represent authorized operations for this group.
    pub authorized_operations: i32,
    pub _unknown_tagged_fields: Vec<RawTaggedField>,
}

/// What a `DescribedGroup` holds, as the specification sees it.
#[verifier::ext_equal]
pub struct DescribedGroupView {
    pub error_code: i16,
    pub error_message: Option<Seq<u8>>,
    pub group_id: Seq<u8>,
    pub group_state: Seq<u8>,
    pub protocol_type: Seq<u8>,
    pub protocol_data: Seq<u8>,
    pub members: Seq<DescribedGroupMemberView>,
    pub authorized_operations: i32,
    pub unknown_tagged_fields: Seq<(u32, Seq<u8>)>,
}

impl View for DescribedGroup {
    type V = DescribedGroupView;

    open spec fn view(&self) -> DescribedGroupView {
        DescribedGroupView {
            error_code: self.error_code,
            error_message: opt_view(self.error_message),
            group_id: self.group_id@,
            group_state: self.group_state@,
            protocol_type: self.protocol_type@,
            protocol_data: self.protocol_data@,
            members: views(self.members@),
            authorized_operations: self.authorized_operations,
            unknown_tagged_fields: views(self._unknown_tagged_fields@),
        }
    }
}

impl Clone for DescribedGroup {
    fn clone(&self) -> (r: Self)
        ensures
            r@ == self@,
    {
        let r = DescribedGroup {
            error_code: self.error_code,
            error_message: match &self.error_message {
                Some(x) => Some(x.clone()),
                None => None,
            },
            group_id: self.group_id.clone(),
            group_state: self.group_state.clone(),
            protocol_type: self.protocol_type.clone(),
            protocol_data: self.protocol_data.clone(),
            members: clone_vec(&self.members),
            authorized_operations: self.authorized_operations,
            _unknown_tagged_fields: clone_vec(&self._unknown_tagged_fields),
        };
        assert(r@ =~= self@);
        r
    }
}

impl ViewClone for DescribedGroup {
    fn clone_view(&self) -> (r: Self) {
        self.clone()
    }
}

impl Default for DescribedGroup {
    fn default() -> (r: Self)
        ensures
            r@ == Self::default_view(),
    {
        let r = DescribedGroup {
            error_code: 0_i16,
            error_message: None,
            group_id: KafkaString::default(),
            group_state: KafkaString::default(),
            protocol_type: KafkaString::default(),
            protocol_data: KafkaString::default(),
            members: empty_vec(),
            authorized_operations: i32::MIN,
            _unknown_tagged_fields: empty_vec(),
        };
        assert(r@ =~= Self::default_view());
        r
    }
}

impl DescribedGroup {
    pub open spec fn default_view() -> DescribedGroupView {
        DescribedGroupView {
            error_code: 0_i16,
            error_message: None,
            group_id: Seq::empty(),
            group_state: Seq::empty(),
            protocol_type: Seq::empty(),
            protocol_data: Seq::empty(),
            members: Seq::empty(),
            authorized_operations: i32::MIN,
            unknown_tagged_fields: Seq::empty(),
        }
    }

    /// The `error_code` field, read from the front of `s`.
    #[verifier::opaque]
    pub open spec fn spec_read_error_code(s: Seq<u8>, version: i16) -> ReadOutcome<i16> {
        spec_read_i16(s)
    }

    /// The `error_message` field, read from the front of `s`.
    #[verifier::opaque]
    pub open spec fn spec_read_error_message(s: Seq<u8>, version: i16) -> ReadOutcome<Option<Seq<u8>>> {
        if version >= 6 {
            spec_read_compact_nullable_string(s)
        } else {
            Ok((None, s))
        }
    }

    /// The `group_id` field, read from the front of `s`.
    #[verifier::opaque]
    pub open spec fn spec_read_group_id(s: Seq<u8>, version: i16) -> ReadOutcome<Seq<u8>> {
        if version >= 5 {
            spec_read_compact_string(s)
        } else {
            spec_read_string(s)
        }
    }

    /// The `group_state` field, read from the front of `s`.
    #[verifier::opaque]
    pub open spec fn spec_read_group_state(s: Seq<u8>, version: i16) -> ReadOutcome<Seq<u8>> {
        if version >= 5 {
            spec_read_compact_string(s)
        } else {
            spec_read_string(s)
        }
    }

    /// The `protocol_type` field, read from the front of `s`.
    #[verifier::opaque]
    pub open spec fn spec_read_protocol_type(s: Seq<u8>, version: i16) -> ReadOutcome<Seq<u8>> {
        if version >= 5 {
            spec_read_compact_string(s)
        } else {
            spec_read_string(s)
        }
    }

    /// The `protocol_data` field, read from the front of `s`.
    #[verifier::opaque]
    pub open spec fn spec_read_protocol_data(s: Seq<u8>, version: i16) -> ReadOutcome<Seq<u8>> {
        if version >= 5 {
            spec_read_compact_string(s)
        } else {
            spec_read_string(s)
        }
    }

    /// The `members` field, read from the front of `s`.
    #[verifier::opaque]
    pub open spec fn spec_read_members(s: Seq<u8>, version: i16) -> ReadOutcome<Seq<DescribedGroupMemberView>> {
        if version >= 5 {
            spec_read_array::<DescribedGroupMember>(s, version, true)
        } else {
            spec_read_array::<DescribedGroupMember>(s, version, false)
        }
    }

    /// The `authorized_operations` field, read from the front of `s`.
    #[verifier::opaque]
    pub open spec fn spec_read_authorized_operations(s: Seq<u8>, version: i16) -> ReadOutcome<i32> {
        if version >= 3 {
            spec_read_i32(s)
        } else {
            Ok((i32::MIN, s))
        }
    }

    /// The tagged fields, read from the front of `s`.
    #[verifier::opaque]
    pub open spec fn spec_read_tags(s: Seq<u8>, version: i16) -> ReadOutcome<Seq<(u32, Seq<u8>)>> {
        if version >= 5 {
            spec_read_tagged_fields(s)
        } else {
            Ok((Seq::empty(), s))
        }
    }

    pub open spec fn spec_read(s: Seq<u8>, version: i16) -> ReadOutcome<DescribedGroupView> {
        match (Self::spec_read_error_code(s, version)) {
            Err(e) => Err(e),
            Ok((error_code, s)) => match (Self::spec_read_error_message(s, version)) {
                Err(e) => Err(e),
                Ok((error_message, s)) => match (Self::spec_read_group_id(s, version)) {
                    Err(e) => Err(e),
                    Ok((group_id, s)) => match (Self::spec_read_group_state(s, version)) {
                        Err(e) => Err(e),
                        Ok((group_state, s)) => match (Self::spec_read_protocol_type(s, version)) {
                            Err(e) => Err(e),
                            Ok((protocol_type, s)) => match (Self::spec_read_protocol_data(s, version)) {
                                Err(e) => Err(e),
                                Ok((protocol_data, s)) => match (Self::spec_read_members(s, version)) {
                                    Err(e) => Err(e),
                                    Ok((members, s)) => match (Self::spec_read_authorized_operations(s, version)) {
                                        Err(e) => Err(e),
                                        Ok((authorized_operations, s)) => match (Self::spec_read_tags(s, version)) {
                                            Err(e) => Err(e),
                                            Ok((unknown_tagged_fields, s)) => Ok((DescribedGroupView {
                                                        error_code: error_code,
                                                        error_message: error_message,
                                                        group_id: group_id,
                                                        group_state: group_state,
                                                        protocol_type: protocol_type,
                                                        protocol_data: protocol_data,
                                                        members: members,
                                                        authorized_operations: authorized_operations,
                                                        unknown_tagged_fields: unknown_tagged_fields,
                                                    }, s)),
                                        },
                                    },
                                },
                            },
                        },
                    },
                },
            },
        }
    }

    /// What writing the `error_code` field of `m` appends.
    #[verifier::opaque]
    pub open spec fn spec_write_error_code(m: DescribedGroupView, version: i16) -> WriteOutcome {
        spec_write_i16(m.error_code)
    }

    /// What writing the `error_message` field of `m` appends.
    #[verifier::opaque]
    pub open spec fn spec_write_error_message(m: DescribedGroupView, version: i16) -> WriteOutcome {
        if version >= 6 {
            spec_write_compact_nullable_string(m.error_message)
        } else {
            emit(Seq::empty())
        }
    }

    /// What writing the `group_id` field of `m` appends.
    #[verifier::opaque]
    pub open spec fn spec_write_group_id(m: DescribedGroupView, version: i16) -> WriteOutcome {
        if version >= 5 {
            spec_write_compact_string(m.group_id)
        } else {
            spec_write_string(m.group_id)
        }
    }

    /// What writing the `group_state` field of `m` appends.
    #[verifier::opaque]
    pub open spec fn spec_write_group_state(m: DescribedGroupView, version: i16) -> WriteOutcome {
        if version >= 5 {
            spec_write_compact_string(m.group_state)
        } else {
            spec_write_string(m.group_state)
        }
    }

    /// What writing the `protocol_type` field of `m` appends.
    #[verifier::opaque]
    pub open spec fn spec_write_protocol_type(m: DescribedGroupView, version: i16) -> WriteOutcome {
        if version >= 5 {
            spec_write_compact_string(m.protocol_type)
        } else {
            spec_write_string(m.protocol_type)
        }
    }

    /// What writing the `protocol_data` field of `m` appends.
    #[verifier::opaque]
    pub open spec fn spec_write_protocol_data(m: DescribedGroupView, version: i16) -> WriteOutcome {
        if version >= 5 {
            spec_write_compact_string(m.protocol_data)
        } else {
            spec_write_string(m.protocol_data)
        }
    }

    /// What writing the `members` field of `m` appends.
    #[verifier::opaque]
    pub open spec fn spec_write_members(m: DescribedGroupView, version: i16) -> WriteOutcome {
        if version >= 5 {
            spec_write_array::<DescribedGroupMember>(m.members, version, true)
        } else {
            spec_write_array::<DescribedGroupMember>(m.members, version, false)
        }
    }

    /// What writing the `authorized_operations` field of `m` appends.
    #[verifier::opaque]
    pub open spec fn spec_write_authorized_operations(m: DescribedGroupView, version: i16) -> WriteOutcome {
        if version >= 3 {
            spec_write_i32(m.authorized_operations)
        } else {
            emit(Seq::empty())
        }
    }

    /// What writing the tagged fields of `m` appends.
    #[verifier::opaque]
    pub open spec fn spec_write_tags(m: DescribedGroupView, version: i16) -> WriteOutcome {
        if version >= 5 {
            spec_write_tagged_fields(sorted_by_tag(m.unknown_tagged_fields))
        } else {
            emit(Seq::empty())
        }
    }

    pub open spec fn spec_write(m: DescribedGroupView, version: i16) -> WriteOutcome {
        chain(
            chain(
                chain(
                    chain(
                        chain(
                            chain(
                                chain(
                                    chain(
                                        Self::spec_write_error_code(m, version),
                                        Self::spec_write_error_message(m, version),
                                    ),
                                    Self::spec_write_group_id(m, version),
                                ),
                                Self::spec_write_group_state(m, version),
                            ),
                            Self::spec_write_protocol_type(m, version),
                        ),
                        Self::spec_write_protocol_data(m, version),
                    ),
                    Self::spec_write_members(m, version),
                ),
                Self::spec_write_authorized_operations(m, version),
            ),
            Self::spec_write_tags(m, version),
        )
    }

    /// Whether reading back what writing `m` in `version` appends gives `m`:
    /// fields that the version does not carry hold their default values, and
    /// tagged fields come in the order in which they are written.
    pub open spec fn canonical(m: DescribedGroupView, version: i16) -> bool {
        &&& (if version >= 6 {
                true
            } else {
                m.error_message is None
        })
        &&& all_canonical::<DescribedGroupMember>(m.members, version)
        &&& (if version >= 3 {
                true
            } else {
                m.authorized_operations == i32::MIN
        })
        &&& (if version >= 5 {
                tags_in_order(m.unknown_tagged_fields)
            } else {
                m.unknown_tagged_fields.len() == 0
        })
    }

    proof fn lemma_round_trip_error_code(m: DescribedGroupView, version: i16, rest: Seq<u8>)
        requires
            Self::canonical(m, version),
            Self::spec_write_error_code(m, version) is Ok,
        ensures
            Self::spec_read_error_code(written(Self::spec_write_error_code(m, version)) + rest, version) == Ok::<(i16, Seq<u8>), Error>((m.error_code, rest)),
    {
        reveal(DescribedGroup::spec_read_error_code);
        reveal(DescribedGroup::spec_write_error_code);
        lemma_i16_roundtrip(m.error_code, rest);
    }

    proof fn lemma_round_trip_error_message(m: DescribedGroupView, version: i16, rest: Seq<u8>)
        requires
            Self::canonical(m, version),
            Self::spec_write_error_message(m, version) is Ok,
        ensures
            Self::spec_read_error_message(written(Self::spec_write_error_message(m, version)) + rest, version) == Ok::<(Option<Seq<u8>>, Seq<u8>), Error>((m.error_message, rest)),
    {
        reveal(DescribedGroup::spec_read_error_message);
        reveal(DescribedGroup::spec_write_error_message);
        if version >= 6 {
            lemma_compact_nullable_string_round_trip(m.error_message, rest);
        } else {
            assert(Seq::<u8>::empty() + rest =~= rest);
        }
    }

    proof fn lemma_round_trip_group_id(m: DescribedGroupView, version: i16, rest: Seq<u8>)
        requires
            Self::canonical(m, version),
            Self::spec_write_group_id(m, version) is Ok,
        ensures
            Self::spec_read_group_id(written(Self::spec_write_group_id(m, version)) + rest, version) == Ok::<(Seq<u8>, Seq<u8>), Error>((m.group_id, rest)),
    {
        reveal(DescribedGroup::spec_read_group_id);
        reveal(DescribedGroup::spec_write_group_id);
        if version >= 5 {
            lemma_compact_string_round_trip(m.group_id, rest);
        } else {
            lemma_string_round_trip(m.group_id, rest);
        }
    }

    proof fn lemma_round_trip_group_state(m: DescribedGroupView, version: i16, rest: Seq<u8>)
        requires
            Self::canonical(m, version),
            Self::spec_write_group_state(m, version) is Ok,
        ensures
            Self::spec_read_group_state(written(Self::spec_write_group_state(m, version)) + rest, version) == Ok::<(Seq<u8>, Seq<u8>), Error>((m.group_state, rest)),
    {
        reveal(DescribedGroup::spec_read_group_state);
        reveal(DescribedGroup::spec_write_group_state);
        if version >= 5 {
            lemma_compact_string_round_trip(m.group_state, rest);
        } else {
            lemma_string_round_trip(m.group_state, rest);
        }
    }

    proof fn lemma_round_trip_protocol_type(m: DescribedGroupView, version: i16, rest: Seq<u8>)
        requires
            Self::canonical(m, version),
            Self::spec_write_protocol_type(m, version) is Ok,
        ensures
            Self::spec_read_protocol_type(written(Self::spec_write_protocol_type(m, version)) + rest, version) == Ok::<(Seq<u8>, Seq<u8>), Error>((m.protocol_type, rest)),
    {
        reveal(DescribedGroup::spec_read_protocol_type);
        reveal(DescribedGroup::spec_write_protocol_type);
        if version >= 5 {
            lemma_compact_string_round_trip(m.protocol_type, rest);
        } else {
            lemma_string_round_trip(m.protocol_type, rest);
        }
    }

    proof fn lemma_round_trip_protocol_data(m: DescribedGroupView, version: i16, rest: Seq<u8>)
        requires
            Self::canonical(m, version),
            Self::spec_write_protocol_data(m, version) is Ok,
        ensures
            Self::spec_read_protocol_data(written(Self::spec_write_protocol_data(m, version)) + rest, version) == Ok::<(Seq<u8>, Seq<u8>), Error>((m.protocol_data, rest)),
    {
        reveal(DescribedGroup::spec_read_protocol_data);
        reveal(DescribedGroup::spec_write_protocol_data);
        if version >= 5 {
            lemma_compact_string_round_trip(m.protocol_data, rest);
        } else {
            lemma_string_round_trip(m.protocol_data, rest);
        }
    }

    proof fn lemma_round_trip_members(m: DescribedGroupView, version: i16, rest: Seq<u8>)
        requires
            Self::canonical(m, version),
            Self::spec_write_members(m, version) is Ok,
        ensures
            Self::spec_read_members(written(Self::spec_write_members(m, version)) + rest, version) == Ok::<(Seq<DescribedGroupMemberView>, Seq<u8>), Error>((m.members, rest)),
    {
        reveal(DescribedGroup::spec_read_members);
        reveal(DescribedGroup::spec_write_members);
        if version >= 5 {
            lemma_array_round_trip::<DescribedGroupMember>(m.members, version, true, rest);
        } else {
            lemma_array_round_trip::<DescribedGroupMember>(m.members, version, false, rest);
        }
    }

    proof fn lemma_round_trip_authorized_operations(m: DescribedGroupView, version: i16, rest: Seq<u8>)
        requires
            Self::canonical(m, version),
            Self::spec_write_authorized_operations(m, version) is Ok,
        ensures
            Self::spec_read_authorized_operations(written(Self::spec_write_authorized_operations(m, version)) + rest, version) == Ok::<(i32, Seq<u8>), Error>((m.authorized_operations, rest)),
    {
        reveal(DescribedGroup::spec_read_authorized_operations);
        reveal(DescribedGroup::spec_write_authorized_operations);
        if version >= 3 {
            lemma_i32_roundtrip(m.authorized_operations, rest);
        } else {
            assert(Seq::<u8>::empty() + rest =~= rest);
        }
    }

    proof fn lemma_round_trip_tags(m: DescribedGroupView, version: i16, rest: Seq<u8>)
        requires
            Self::canonical(m, version),
            Self::spec_write_tags(m, version) is Ok,
        ensures
            Self::spec_read_tags(written(Self::spec_write_tags(m, version)) + rest, version) == Ok::<(Seq<(u32, Seq<u8>)>, Seq<u8>), Error>((m.unknown_tagged_fields, rest)),
    {
        reveal(DescribedGroup::spec_read_tags);
        reveal(DescribedGroup::spec_write_tags);
        if version >= 5 {
            lemma_sorted_by_tag_in_order(m.unknown_tagged_fields);
            lemma_tagged_fields_round_trip(m.unknown_tagged_fields, rest);
        } else {
            assert(Seq::<u8>::empty() + rest =~= rest);
            assert(m.unknown_tagged_fields =~= Seq::empty());
        }
    }

    /// Reading back what writing `m` in `version` appends gives `m` again, and
    /// leaves what follows, for every canonical message whose write succeeds.
    #[verifier::rlimit(100)]
    #[verifier::spinoff_prover]
    pub proof fn lemma_round_trip(m: DescribedGroupView, version: i16, rest: Seq<u8>)
        requires
            Self::canonical(m, version),
            Self::spec_write(m, version) is Ok,
        ensures
            Self::spec_read(written(Self::spec_write(m, version)) + rest, version) == Ok::<(DescribedGroupView, Seq<u8>), Error>((m, rest)),
    {
        let b0 = written(Self::spec_write_error_code(m, version));
        let b1 = written(Self::spec_write_error_message(m, version));
        let b2 = written(Self::spec_write_group_id(m, version));
        let b3 = written(Self::spec_write_group_state(m, version));
        let b4 = written(Self::spec_write_protocol_type(m, version));
        let b5 = written(Self::spec_write_protocol_data(m, version));
        let b6 = written(Self::spec_write_members(m, version));
        let b7 = written(Self::spec_write_authorized_operations(m, version));
        let b8 = written(Self::spec_write_tags(m, version));
        let t9 = rest;
        let t8 = b8 + t9;
        let t7 = b7 + t8;
        let t6 = b6 + t7;
        let t5 = b5 + t6;
        let t4 = b4 + t5;
        let t3 = b3 + t4;
        let t2 = b2 + t3;
        let t1 = b1 + t2;
        let t0 = b0 + t1;
        let w0 = Self::spec_write_error_code(m, version);
        let w1 = chain(w0, Self::spec_write_error_message(m, version));
        let w2 = chain(w1, Self::spec_write_group_id(m, version));
        let w3 = chain(w2, Self::spec_write_group_state(m, version));
        let w4 = chain(w3, Self::spec_write_protocol_type(m, version));
        let w5 = chain(w4, Self::spec_write_protocol_data(m, version));
        let w6 = chain(w5, Self::spec_write_members(m, version));
        let w7 = chain(w6, Self::spec_write_authorized_operations(m, version));
        let w8 = chain(w7, Self::spec_write_tags(m, version));
        assert(Self::spec_write(m, version) == w8);
        assert(written(w8) + t9 =~= written(w7) + t8);
        assert(written(w7) + t8 =~= written(w6) + t7);
        assert(written(w6) + t7 =~= written(w5) + t6);
        assert(written(w5) + t6 =~= written(w4) + t5);
        assert(written(w4) + t5 =~= written(w3) + t4);
        assert(written(w3) + t4 =~= written(w2) + t3);
        assert(written(w2) + t3 =~= written(w1) + t2);
        assert(written(w1) + t2 =~= written(w0) + t1);
        Self::lemma_round_trip_error_code(m, version, t1);
        Self::lemma_round_trip_error_message(m, version, t2);
        Self::lemma_round_trip_group_id(m, version, t3);
        Self::lemma_round_trip_group_state(m, version, t4);
        Self::lemma_round_trip_protocol_type(m, version, t5);
        Self::lemma_round_trip_protocol_data(m, version, t6);
        Self::lemma_round_trip_members(m, version, t7);
        Self::lemma_round_trip_authorized_operations(m, version, t8);
        Self::lemma_round_trip_tags(m, version, t9);
    }

    /// In a version that does not carry `error_message`, writing ignores its value.
    pub proof fn lemma_write_ignores_error_message(m: DescribedGroupView, value: Option<Seq<u8>>, version: i16)
        requires
            !(version >= 6),
        ensures
            Self::spec_write((DescribedGroupView { error_message: value, ..m }), version) == Self::spec_write(m, version),
    {
        reveal(DescribedGroup::spec_write_error_code);
        reveal(DescribedGroup::spec_write_error_message);
        reveal(DescribedGroup::spec_write_group_id);
        reveal(DescribedGroup::spec_write_group_state);
        reveal(DescribedGroup::spec_write_protocol_type);
        reveal(DescribedGroup::spec_write_protocol_data);
        reveal(DescribedGroup::spec_write_members);
        reveal(DescribedGroup::spec_write_authorized_operations);
        reveal(DescribedGroup::spec_write_tags);
    }

    /// In a version that does not carry `authorized_operations`, writing ignores its value.
    pub proof fn lemma_write_ignores_authorized_operations(m: DescribedGroupView, value: i32, version: i16)
        requires
            !(version >= 3),
        ensures
            Self::spec_write((DescribedGroupView { authorized_operations: value, ..m }), version) == Self::spec_write(m, version),
    {
        reveal(DescribedGroup::spec_write_error_code);
        reveal(DescribedGroup::spec_write_error_message);
        reveal(DescribedGroup::spec_write_group_id);
        reveal(DescribedGroup::spec_write_group_state);
        reveal(DescribedGroup::spec_write_protocol_type);
        reveal(DescribedGroup::spec_write_protocol_data);
        reveal(DescribedGroup::spec_write_members);
        reveal(DescribedGroup::spec_write_authorized_operations);
        reveal(DescribedGroup::spec_write_tags);
    }

    /// In a version that does not carry `unknown_tagged_fields`, writing ignores its value.
    pub proof fn lemma_write_ignores_unknown_tagged_fields(m: DescribedGroupView, value: Seq<(u32, Seq<u8>)>, version: i16)
        requires
            !(version >= 5),
        ensures
            Self::spec_write((DescribedGroupView { unknown_tagged_fields: value, ..m }), version) == Self::spec_write(m, version),
    {
        reveal(DescribedGroup::spec_write_error_code);
        reveal(DescribedGroup::spec_write_error_message);
        reveal(DescribedGroup::spec_write_group_id);
        reveal(DescribedGroup::spec_write_group_state);
        reveal(DescribedGroup::spec_write_protocol_type);
        reveal(DescribedGroup::spec_write_protocol_data);
        reveal(DescribedGroup::spec_write_members);
        reveal(DescribedGroup::spec_write_authorized_operations);
        reveal(DescribedGroup::spec_write_tags);
    }

    /// The default message holds the default value of each field of the schema.
    pub proof fn lemma_default_values()
        ensures
            Self::default_view().error_code == (0_i16),
            (Self::default_view().error_message is None),
            Self::default_view().group_id.len() == 0,
            Self::default_view().group_state.len() == 0,
            Self::default_view().protocol_type.len() == 0,
            Self::default_view().protocol_data.len() == 0,
            Self::default_view().members.len() == 0,
            Self::default_view().authorized_operations == (i32::MIN),
            Self::default_view().unknown_tagged_fields.len() == 0,
    {
    }

    /// Each integer, boolean and identifier field is written as its standard
    /// big-endian bytes (a boolean as `1` or `0`) in the versions that carry
    /// it, and as nothing in the others; reading it takes those bytes back (any
    /// byte other than `0` reads as `true`), or gives its default value.
    pub proof fn lemma_field_encodings(m: DescribedGroupView, s: Seq<u8>, version: i16)
        ensures
            true ==> Self::spec_write_error_code(m, version) == Ok::<Seq<u8>, (Error, Seq<u8>)>(u16_bytes(m.error_code as u16)),
            !(version >= 6) ==> Self::spec_write_error_message(m, version) == Ok::<Seq<u8>, (Error, Seq<u8>)>(Seq::empty()),
            version >= 3 ==> Self::spec_write_authorized_operations(m, version) == Ok::<Seq<u8>, (Error, Seq<u8>)>(u32_bytes(m.authorized_operations as u32)),
            !(version >= 3) ==> Self::spec_write_authorized_operations(m, version) == Ok::<Seq<u8>, (Error, Seq<u8>)>(Seq::empty()),
            true ==> Self::spec_read_error_code(s, version) == spec_read_i16(s),
            version >= 3 ==> Self::spec_read_authorized_operations(s, version) == spec_read_i32(s),
            !(version >= 3) ==> Self::spec_read_authorized_operations(s, version) == Ok::<(i32, Seq<u8>), Error>((i32::MIN, s)),
    {
        reveal(DescribedGroup::spec_write_error_code);
        reveal(DescribedGroup::spec_read_error_code);
        reveal(DescribedGroup::spec_write_error_message);
        reveal(DescribedGroup::spec_read_error_message);
        reveal(DescribedGroup::spec_write_authorized_operations);
        reveal(DescribedGroup::spec_read_authorized_operations);
    }

    /// Whether writing `m` in `version` succeeds, said over its parts: the
    /// version is one the schema covers, every field that the version cannot
    /// carry holds its default value, and every string, byte string, array and
    /// tagged field fits its length prefix.
    pub open spec fn writable(m: DescribedGroupView, version: i16) -> bool {
        &&& (if version >= 6 {
                (m.error_message matches Some(b) ==> b.len() <= 0x7fff)
            } else {
                true
        })
        &&& m.group_id.len() <= 0x7fff
        &&& m.group_state.len() <= 0x7fff
        &&& m.protocol_type.len() <= 0x7fff
        &&& m.protocol_data.len() <= 0x7fff
        &&& (m.members.len() <= i32::MAX && all_writable::<DescribedGroupMember>(m.members, version))
        &&& (if version >= 5 {
                m.unknown_tagged_fields.len() <= u32::MAX && tags_fit(m.unknown_tagged_fields)
            } else {
                true
        })
    }

    proof fn lemma_writable_error_code(m: DescribedGroupView, version: i16)
        ensures
            Self::spec_write_error_code(m, version) is Ok <==> true,
    {
        reveal(DescribedGroup::spec_write_error_code);
    }

    proof fn lemma_writable_error_message(m: DescribedGroupView, version: i16)
        ensures
            Self::spec_write_error_message(m, version) is Ok <==> (if version >= 6 { (m.error_message matches Some(b) ==> b.len() <= 0x7fff) } else { true }),
    {
        reveal(DescribedGroup::spec_write_error_message);
    }

    proof fn lemma_writable_group_id(m: DescribedGroupView, version: i16)
        ensures
            Self::spec_write_group_id(m, version) is Ok <==> m.group_id.len() <= 0x7fff,
    {
        reveal(DescribedGroup::spec_write_group_id);
    }

    proof fn lemma_writable_group_state(m: DescribedGroupView, version: i16)
        ensures
            Self::spec_write_group_state(m, version) is Ok <==> m.group_state.len() <= 0x7fff,
    {
        reveal(DescribedGroup::spec_write_group_state);
    }

    proof fn lemma_writable_protocol_type(m: DescribedGroupView, version: i16)
        ensures
            Self::spec_write_protocol_type(m, version) is Ok <==> m.protocol_type.len() <= 0x7fff,
    {
        reveal(DescribedGroup::spec_write_protocol_type);
    }

    proof fn lemma_writable_protocol_data(m: DescribedGroupView, version: i16)
        ensures
            Self::spec_write_protocol_data(m, version) is Ok <==> m.protocol_data.len() <= 0x7fff,
    {
        reveal(DescribedGroup::spec_write_protocol_data);
    }

    proof fn lemma_writable_members(m: DescribedGroupView, version: i16)
        ensures
            Self::spec_write_members(m, version) is Ok <==> (m.members.len() <= i32::MAX && all_writable::<DescribedGroupMember>(m.members, version)),
    {
        reveal(DescribedGroup::spec_write_members);
        if version >= 5 {
            lemma_array_writable::<DescribedGroupMember>(m.members, version, true);
        } else {
            lemma_array_writable::<DescribedGroupMember>(m.members, version, false);
        }
    }

    proof fn lemma_writable_authorized_operations(m: DescribedGroupView, version: i16)
        ensures
            Self::spec_write_authorized_operations(m, version) is Ok <==> true,
    {
        reveal(DescribedGroup::spec_write_authorized_operations);
    }

    proof fn lemma_writable_tags(m: DescribedGroupView, version: i16)
        ensures
            Self::spec_write_tags(m, version) is Ok <==> (if version >= 5 { m.unknown_tagged_fields.len() <= u32::MAX && tags_fit(m.unknown_tagged_fields) } else { true }),
    {
        reveal(DescribedGroup::spec_write_tags);
        if version >= 5 {
            lemma_sorted_tags_fit(m.unknown_tagged_fields);
            lemma_tagged_fields_writable(sorted_by_tag(m.unknown_tagged_fields));
        }
    }

    /// Writing `m` in `version` succeeds exactly when `m` is writable in it;
    /// so do `write` and `encoded_len`, whose results follow `spec_write`.
    #[verifier::rlimit(84)]
    pub proof fn lemma_writable(m: DescribedGroupView, version: i16)
        ensures
            Self::spec_write(m, version) is Ok <==> Self::writable(m, version),
    {
        Self::lemma_writable_error_code(m, version);
        Self::lemma_writable_error_message(m, version);
        Self::lemma_writable_group_id(m, version);
        Self::lemma_writable_group_state(m, version);
        Self::lemma_writable_protocol_type(m, version);
        Self::lemma_writable_protocol_data(m, version);
        Self::lemma_writable_members(m, version);
        Self::lemma_writable_authorized_operations(m, version);
        Self::lemma_writable_tags(m, version);
    }

    fn read_error_code(buf: &mut Bytes, version: i16) -> (r: Result<i16, Error>)
        ensures
            read_as(Self::spec_read_error_code(bytes_seq(*old(buf)), version), *final(buf), r),
            took_front(*old(buf), *final(buf)),
    {
        proof {
            reveal(DescribedGroup::spec_read_error_code);
        }
        Ok(read_i16(buf)?)
    }

    fn read_error_message(buf: &mut Bytes, version: i16) -> (r: Result<Option<KafkaString>, Error>)
        ensures
            read_opt_as(Self::spec_read_error_message(bytes_seq(*old(buf)), version), *final(buf), r),
            took_front(*old(buf), *final(buf)),
    {
        proof {
            reveal(DescribedGroup::spec_read_error_message);
        }
        Ok(if version >= 6 {
                read_compact_nullable_string(buf)?
            } else {
                None
        })
    }

    fn read_group_id(buf: &mut Bytes, version: i16) -> (r: Result<KafkaString, Error>)
        ensures
            read_as(Self::spec_read_group_id(bytes_seq(*old(buf)), version), *final(buf), r),
            took_front(*old(buf), *final(buf)),
    {
        proof {
            reveal(DescribedGroup::spec_read_group_id);
        }
        Ok(if version >= 5 {
                read_compact_string(buf)?
            } else {
                read_string(buf)?
        })
    }

    fn read_group_state(buf: &mut Bytes, version: i16) -> (r: Result<KafkaString, Error>)
        ensures
            read_as(Self::spec_read_group_state(bytes_seq(*old(buf)), version), *final(buf), r),
            took_front(*old(buf), *final(buf)),
    {
        proof {
            reveal(DescribedGroup::spec_read_group_state);
        }
        Ok(if version >= 5 {
                read_compact_string(buf)?
            } else {
                read_string(buf)?
        })
    }

    fn read_protocol_type(buf: &mut Bytes, version: i16) -> (r: Result<KafkaString, Error>)
        ensures
            read_as(Self::spec_read_protocol_type(bytes_seq(*old(buf)), version), *final(buf), r),
            took_front(*old(buf), *final(buf)),
    {
        proof {
            reveal(DescribedGroup::spec_read_protocol_type);
        }
        Ok(if version >= 5 {
                read_compact_string(buf)?
            } else {
                read_string(buf)?
        })
    }

    fn read_protocol_data(buf: &mut Bytes, version: i16) -> (r: Result<KafkaString, Error>)
        ensures
            read_as(Self::spec_read_protocol_data(bytes_seq(*old(buf)), version), *final(buf), r),
            took_front(*old(buf), *final(buf)),
    {
        proof {
            reveal(DescribedGroup::spec_read_protocol_data);
        }
        Ok(if version >= 5 {
                read_compact_string(buf)?
            } else {
                read_string(buf)?
        })
    }

    fn read_members(buf: &mut Bytes, version: i16) -> (r: Result<Vec<DescribedGroupMember>, Error>)
        ensures
            read_vec_as(Self::spec_read_members(bytes_seq(*old(buf)), version), *final(buf), r),
            took_front(*old(buf), *final(buf)),
    {
        proof {
            reveal(DescribedGroup::spec_read_members);
        }
        Ok(if version >= 5 {
                read_array::<DescribedGroupMember>(buf, version, true)?
            } else {
                read_array::<DescribedGroupMember>(buf, version, false)?
        })
    }

    fn read_authorized_operations(buf: &mut Bytes, version: i16) -> (r: Result<i32, Error>)
        ensures
            read_as(Self::spec_read_authorized_operations(bytes_seq(*old(buf)), version), *final(buf), r),
            took_front(*old(buf), *final(buf)),
    {
        proof {
            reveal(DescribedGroup::spec_read_authorized_operations);
        }
        Ok(if version >= 3 {
                read_i32(buf)?
            } else {
                i32::MIN
        })
    }

    fn read_tags(buf: &mut Bytes, version: i16) -> (r: Result<Vec<RawTaggedField>, Error>)
        ensures
            read_vec_as(Self::spec_read_tags(bytes_seq(*old(buf)), version), *final(buf), r),
            took_front(*old(buf), *final(buf)),
    {
        proof {
            reveal(DescribedGroup::spec_read_tags);
        }
        Ok(if version >= 5 {
                read_tagged_fields(buf)?
            } else {
                empty_vec()
        })
    }

    #[verifier::rlimit(74)]
    #[verifier::spinoff_prover]
    pub fn read(buf: &mut Bytes, version: i16) -> (r: Result<Self, Error>)
        ensures
            read_as(Self::spec_read(bytes_seq(*old(buf)), version), *final(buf), r),
            took_front(*old(buf), *final(buf)),
    {
        let error_code = Self::read_error_code(buf, version)?;
        let error_message = Self::read_error_message(buf, version)?;
        let group_id = Self::read_group_id(buf, version)?;
        let group_state = Self::read_group_state(buf, version)?;
        let protocol_type = Self::read_protocol_type(buf, version)?;
        let protocol_data = Self::read_protocol_data(buf, version)?;
        let members = Self::read_members(buf, version)?;
        let authorized_operations = Self::read_authorized_operations(buf, version)?;
        let _unknown_tagged_fields = Self::read_tags(buf, version)?;
        Ok(DescribedGroup {
                error_code: error_code,
                error_message: error_message,
                group_id: group_id,
                group_state: group_state,
                protocol_type: protocol_type,
                protocol_data: protocol_data,
                members: members,
                authorized_operations: authorized_operations,
                _unknown_tagged_fields: _unknown_tagged_fields,
        })
    }

    #[verifier::rlimit(100)]
    #[verifier::spinoff_prover]
    pub fn write(&self, buf: &mut BytesMut, version: i16) -> (r: Result<(), Error>)
        requires
            has_room(Self::spec_write(self@, version), *old(buf)),
        ensures
            wrote(Self::spec_write(self@, version), *old(buf), *final(buf), r),
    {
        let ghost m = self@;
        proof {
            reveal(DescribedGroup::spec_write_error_code);
            reveal(DescribedGroup::spec_write_error_message);
            reveal(DescribedGroup::spec_write_group_id);
            reveal(DescribedGroup::spec_write_group_state);
            reveal(DescribedGroup::spec_write_protocol_type);
            reveal(DescribedGroup::spec_write_protocol_data);
            reveal(DescribedGroup::spec_write_members);
            reveal(DescribedGroup::spec_write_authorized_operations);
            reveal(DescribedGroup::spec_write_tags);
        }
        let ghost s0 = Self::spec_write_error_code(m, version);
        let ghost w0 = s0;
        let ghost s1 = Self::spec_write_error_message(m, version);
        let ghost w1 = chain(w0, s1);
        let ghost s2 = Self::spec_write_group_id(m, version);
        let ghost w2 = chain(w1, s2);
        let ghost s3 = Self::spec_write_group_state(m, version);
        let ghost w3 = chain(w2, s3);
        let ghost s4 = Self::spec_write_protocol_type(m, version);
        let ghost w4 = chain(w3, s4);
        let ghost s5 = Self::spec_write_protocol_data(m, version);
        let ghost w5 = chain(w4, s5);
        let ghost s6 = Self::spec_write_members(m, version);
        let ghost w6 = chain(w5, s6);
        let ghost s7 = Self::spec_write_authorized_operations(m, version);
        let ghost w7 = chain(w6, s7);
        let ghost s8 = Self::spec_write_tags(m, version);
        let ghost w8 = chain(w7, s8);
        assert(Self::spec_write(m, version) == w8);
        assert(written(w7).len() <= written(w8).len() && (w7 is Err ==> w8 == w7));
        assert(written(w6).len() <= written(w8).len() && (w6 is Err ==> w8 == w6));
        assert(written(w5).len() <= written(w8).len() && (w5 is Err ==> w8 == w5));
        assert(written(w4).len() <= written(w8).len() && (w4 is Err ==> w8 == w4));
        assert(written(w3).len() <= written(w8).len() && (w3 is Err ==> w8 == w3));
        assert(written(w2).len() <= written(w8).len() && (w2 is Err ==> w8 == w2));
        assert(written(w1).len() <= written(w8).len() && (w1 is Err ==> w8 == w1));
        assert(written(w0).len() <= written(w8).len() && (w0 is Err ==> w8 == w0));
        let ghost mid = bytes_mut_seq(*buf);
        proof {
            lemma_append_empty(mid);
        }
        let r0 = {
            write_i16(buf, self.error_code);
            Ok(())
        };
        assert(bytes_mut_seq(*buf) == mid + written(s0));
        if r0.is_err() {
            return r0;
        }
        let ghost mid = bytes_mut_seq(*buf);
        proof {
            lemma_append_empty(mid);
        }
        let r1 = if version >= 6 {
            write_compact_nullable_string(buf, &self.error_message)
        } else {
            Ok(())
        };
        assert(bytes_mut_seq(*buf) == mid + written(s1));
        proof {
            lemma_step(bytes_mut_seq(*old(buf)), w0, s1);
        }
        if r1.is_err() {
            return r1;
        }
        let ghost mid = bytes_mut_seq(*buf);
        proof {
            lemma_append_empty(mid);
        }
        let r2 = if version >= 5 {
            write_compact_string(buf, &self.group_id)
        } else {
            write_string(buf, &self.group_id)
        };
        assert(bytes_mut_seq(*buf) == mid + written(s2));
        proof {
            lemma_step(bytes_mut_seq(*old(buf)), w1, s2);
        }
        if r2.is_err() {
            return r2;
        }
        let ghost mid = bytes_mut_seq(*buf);
        proof {
            lemma_append_empty(mid);
        }
        let r3 = if version >= 5 {
            write_compact_string(buf, &self.group_state)
        } else {
            write_string(buf, &self.group_state)
        };
        assert(bytes_mut_seq(*buf) == mid + written(s3));
        proof {
            lemma_step(bytes_mut_seq(*old(buf)), w2, s3);
        }
        if r3.is_err() {
            return r3;
        }
        let ghost mid = bytes_mut_seq(*buf);
        proof {
            lemma_append_empty(mid);
        }
        let r4 = if version >= 5 {
            write_compact_string(buf, &self.protocol_type)
        } else {
            write_string(buf, &self.protocol_type)
        };
        assert(bytes_mut_seq(*buf) == mid + written(s4));
        proof {
            lemma_step(bytes_mut_seq(*old(buf)), w3, s4);
        }
        if r4.is_err() {
            return r4;
        }
        let ghost mid = bytes_mut_seq(*buf);
        proof {
            lemma_append_empty(mid);
        }
        let r5 = if version >= 5 {
            write_compact_string(buf, &self.protocol_data)
        } else {
            write_string(buf, &self.protocol_data)
        };
        assert(bytes_mut_seq(*buf) == mid + written(s5));
        proof {
            lemma_step(bytes_mut_seq(*old(buf)), w4, s5);
        }
        if r5.is_err() {
            return r5;
        }
        let ghost mid = bytes_mut_seq(*buf);
        proof {
            lemma_append_empty(mid);
        }
        let r6 = if version >= 5 {
            write_array::<DescribedGroupMember>(buf, &self.members, version, true)
        } else {
            write_array::<DescribedGroupMember>(buf, &self.members, version, false)
        };
        assert(bytes_mut_seq(*buf) == mid + written(s6));
        proof {
            lemma_step(bytes_mut_seq(*old(buf)), w5, s6);
        }
        if r6.is_err() {
            return r6;
        }
        let ghost mid = bytes_mut_seq(*buf);
        proof {
            lemma_append_empty(mid);
        }
        let r7 = if version >= 3 {
            {
                write_i32(buf, self.authorized_operations);
                Ok(())
            }
        } else {
            Ok(())
        };
        assert(bytes_mut_seq(*buf) == mid + written(s7));
        proof {
            lemma_step(bytes_mut_seq(*old(buf)), w6, s7);
        }
        if r7.is_err() {
            return r7;
        }
        let ghost mid = bytes_mut_seq(*buf);
        proof {
            lemma_append_empty(mid);
        }
        let r8 = if version >= 5 {
            write_tagged_fields(buf, &sort_by_tag(&self._unknown_tagged_fields))
        } else {
            Ok(())
        };
        assert(bytes_mut_seq(*buf) == mid + written(s8));
        proof {
            lemma_step(bytes_mut_seq(*old(buf)), w7, s8);
        }
        if r8.is_err() {
            return r8;
        }
        Ok(())
    }
}

#[derive(Debug, PartialEq)]
pub struct DescribedGroupMember {
    /// The member id.
    pub member_id: KafkaString,
    /// The unique identifier of the consumer instance provided by end user.
    pub group_instance_id: Option<KafkaString>,
    /// The client ID used in the member's latest join group request.
    pub client_id: KafkaString,
    /// The client host.
    pub client_host: KafkaString,
    /// The metadata corresponding to the current group protocol in use.
    pub member_metadata: Bytes,
    /// The current assignment provided by the group leader.
    pub member_assignment: Bytes,
    pub _unknown_tagged_fields: Vec<RawTaggedField>,
}

/// What a `DescribedGroupMember` holds, as the specification sees it.
#[verifier::ext_equal]
pub struct DescribedGroupMemberView {
    pub member_id: Seq<u8>,
    pub group_instance_id: Option<Seq<u8>>,
    pub client_id: Seq<u8>,
    pub client_host: Seq<u8>,
    pub member_metadata: Seq<u8>,
    pub member_assignment: Seq<u8>,
    pub unknown_tagged_fields: Seq<(u32, Seq<u8>)>,
}

impl View for DescribedGroupMember {
    type V = DescribedGroupMemberView;

    open spec fn view(&self) -> DescribedGroupMemberView {
        DescribedGroupMemberView {
            member_id: self.member_id@,
            group_instance_id: opt_view(self.group_instance_id),
            client_id: self.client_id@,
            client_host: self.client_host@,
            member_metadata: bytes_seq(self.member_metadata),
            member_assignment: bytes_seq(self.member_assignment),
            unknown_tagged_fields: views(self._unknown_tagged_fields@),
        }
    }
}

impl Clone for DescribedGroupMember {
    fn clone(&self) -> (r: Self)
        ensures
            r@ == self@,
    {
        let r = DescribedGroupMember {
            member_id: self.member_id.clone(),
            group_instance_id: match &self.group_instance_id {
                Some(x) => Some(x.clone()),
                None => None,
            },
            client_id: self.client_id.clone(),
            client_host: self.client_host.clone(),
            member_metadata: self.member_metadata.clone(),
            member_assignment: self.member_assignment.clone(),
            _unknown_tagged_fields: clone_vec(&self._unknown_tagged_fields),
        };
        assert(r@ =~= self@);
        r
    }
}

impl ViewClone for DescribedGroupMember {
    fn clone_view(&self) -> (r: Self) {
        self.clone()
    }
}

impl Default for DescribedGroupMember {
    fn default() -> (r: Self)
        ensures
            r@ == Self::default_view(),
    {
        let r = DescribedGroupMember {
            member_id: KafkaString::default(),
            group_instance_id: None,
            client_id: KafkaString::default(),
            client_host: KafkaString::default(),
            member_metadata: bytes_empty(),
            member_assignment: bytes_empty(),
            _unknown_tagged_fields: empty_vec(),
        };
        assert(r@ =~= Self::default_view());
        r
    }
}

impl DescribedGroupMember {
    pub open spec fn default_view() -> DescribedGroupMemberView {
        DescribedGroupMemberView {
            member_id: Seq::empty(),
            group_instance_id: None,
            client_id: Seq::empty(),
            client_host: Seq::empty(),
            member_metadata: Seq::empty(),
            member_assignment: Seq::empty(),
            unknown_tagged_fields: Seq::empty(),
        }
    }

    /// The `member_id` field, read from the front of `s`.
    #[verifier::opaque]
    pub open spec fn spec_read_member_id(s: Seq<u8>, version: i16) -> ReadOutcome<Seq<u8>> {
        if version >= 5 {
            spec_read_compact_string(s)
        } else {
            spec_read_string(s)
        }
    }

    /// The `group_instance_id` field, read from the front of `s`.
    #[verifier::opaque]
    pub open spec fn spec_read_group_instance_id(s: Seq<u8>, version: i16) -> ReadOutcome<Option<Seq<u8>>> {
        if version >= 4 {
            if version >= 5 {
                spec_read_compact_nullable_string(s)
            } else {
                spec_read_nullable_string(s)
            }
        } else {
            Ok((None, s))
        }
    }

    /// The `client_id` field, read from the front of `s`.
    #[verifier::opaque]
    pub open spec fn spec_read_client_id(s: Seq<u8>, version: i16) -> ReadOutcome<Seq<u8>> {
        if version >= 5 {
            spec_read_compact_string(s)
        } else {
            spec_read_string(s)
        }
    }

    /// The `client_host` field, read from the front of `s`.
    #[verifier::opaque]
    pub open spec fn spec_read_client_host(s: Seq<u8>, version: i16) -> ReadOutcome<Seq<u8>> {
        if version >= 5 {
            spec_read_compact_string(s)
        } else {
            spec_read_string(s)
        }
    }

    /// The `member_metadata` field, read from the front of `s`.
    #[verifier::opaque]
    pub open spec fn spec_read_member_metadata(s: Seq<u8>, version: i16) -> ReadOutcome<Seq<u8>> {
        if version >= 5 {
            spec_read_compact_bytes(s)
        } else {
            spec_read_bytes(s)
        }
    }

    /// The `member_assignment` field, read from the front of `s`.
    #[verifier::opaque]
    pub open spec fn spec_read_member_assignment(s: Seq<u8>, version: i16) -> ReadOutcome<Seq<u8>> {
        if version >= 5 {
            spec_read_compact_bytes(s)
        } else {
            spec_read_bytes(s)
        }
    }

    /// The tagged fields, read from the front of `s`.
    #[verifier::opaque]
    pub open spec fn spec_read_tags(s: Seq<u8>, version: i16) -> ReadOutcome<Seq<(u32, Seq<u8>)>> {
        if version >= 5 {
            spec_read_tagged_fields(s)
        } else {
            Ok((Seq::empty(), s))
        }
    }

    pub open spec fn spec_read(s: Seq<u8>, version: i16) -> ReadOutcome<DescribedGroupMemberView> {
        match (Self::spec_read_member_id(s, version)) {
            Err(e) => Err(e),
            Ok((member_id, s)) => match (Self::spec_read_group_instance_id(s, version)) {
                Err(e) => Err(e),
                Ok((group_instance_id, s)) => match (Self::spec_read_client_id(s, version)) {
                    Err(e) => Err(e),
                    Ok((client_id, s)) => match (Self::spec_read_client_host(s, version)) {
                        Err(e) => Err(e),
                        Ok((client_host, s)) => match (Self::spec_read_member_metadata(s, version)) {
                            Err(e) => Err(e),
                            Ok((member_metadata, s)) => match (Self::spec_read_member_assignment(s, version)) {
                                Err(e) => Err(e),
                                Ok((member_assignment, s)) => match (Self::spec_read_tags(s, version)) {
                                    Err(e) => Err(e),
                                    Ok((unknown_tagged_fields, s)) => Ok((DescribedGroupMemberView {
                                                member_id: member_id,
                                                group_instance_id: group_instance_id,
                                                client_id: client_id,
                                                client_host: client_host,
                                                member_metadata: member_metadata,
                                                member_assignment: member_assignment,
                                                unknown_tagged_fields: unknown_tagged_fields,
                                            }, s)),
                                },
                            },
                        },
                    },
                },
            },
        }
    }

    /// What writing the `member_id` field of `m` appends.
    #[verifier::opaque]
    pub open spec fn spec_write_member_id(m: DescribedGroupMemberView, version: i16) -> WriteOutcome {
        if version >= 5 {
            spec_write_compact_string(m.member_id)
        } else {
            spec_write_string(m.member_id)
        }
    }

    /// What writing the `group_instance_id` field of `m` appends.
    #[verifier::opaque]
    pub open spec fn spec_write_group_instance_id(m: DescribedGroupMemberView, version: i16) -> WriteOutcome {
        if version >= 4 {
            if version >= 5 {
                spec_write_compact_nullable_string(m.group_instance_id)
            } else {
                spec_write_nullable_string(m.group_instance_id)
            }
        } else {
            emit(Seq::empty())
        }
    }

    /// What writing the `client_id` field of `m` appends.
    #[verifier::opaque]
    pub open spec fn spec_write_client_id(m: DescribedGroupMemberView, version: i16) -> WriteOutcome {
        if version >= 5 {
            spec_write_compact_string(m.client_id)
        } else {
            spec_write_string(m.client_id)
        }
    }

    /// What writing the `client_host` field of `m` appends.
    #[verifier::opaque]
    pub open spec fn spec_write_client_host(m: DescribedGroupMemberView, version: i16) -> WriteOutcome {
        if version >= 5 {
            spec_write_compact_string(m.client_host)
        } else {
            spec_write_string(m.client_host)
        }
    }

    /// What writing the `member_metadata` field of `m` appends.
    #[verifier::opaque]
    pub open spec fn spec_write_member_metadata(m: DescribedGroupMemberView, version: i16) -> WriteOutcome {
        if version >= 5 {
            spec_write_compact_bytes(m.member_metadata)
        } else {
            spec_write_bytes(m.member_metadata)
        }
    }

    /// What writing the `member_assignment` field of `m` appends.
    #[verifier::opaque]
    pub open spec fn spec_write_member_assignment(m: DescribedGroupMemberView, version: i16) -> WriteOutcome {
        if version >= 5 {
            spec_write_compact_bytes(m.member_assignment)
        } else {
            spec_write_bytes(m.member_assignment)
        }
    }

    /// What writing the tagged fields of `m` appends.
    #[verifier::opaque]
    pub open spec fn spec_write_tags(m: DescribedGroupMemberView, version: i16) -> WriteOutcome {
        if version >= 5 {
            spec_write_tagged_fields(sorted_by_tag(m.unknown_tagged_fields))
        } else {
            emit(Seq::empty())
        }
    }

    pub open spec fn spec_write(m: DescribedGroupMemberView, version: i16) -> WriteOutcome {
        chain(
            chain(
                chain(
                    chain(
                        chain(
                            chain(
                                Self::spec_write_member_id(m, version),
                                Self::spec_write_group_instance_id(m, version),
                            ),
                            Self::spec_write_client_id(m, version),
                        ),
                        Self::spec_write_client_host(m, version),
                    ),
                    Self::spec_write_member_metadata(m, version),
                ),
                Self::spec_write_member_assignment(m, version),
            ),
            Self::spec_write_tags(m, version),
        )
    }

    /// Whether reading back what writing `m` in `version` appends gives `m`:
    /// fields that the version does not carry hold their default values, and
    /// tagged fields come in the order in which they are written.
    pub open spec fn canonical(m: DescribedGroupMemberView, version: i16) -> bool {
        &&& (if version >= 4 {
                true
            } else {
                m.group_instance_id is None
        })
        &&& (if version >= 5 {
                tags_in_order(m.unknown_tagged_fields)
            } else {
                m.unknown_tagged_fields.len() == 0
        })
    }

    proof fn lemma_round_trip_member_id(m: DescribedGroupMemberView, version: i16, rest: Seq<u8>)
        requires
            Self::canonical(m, version),
            Self::spec_write_member_id(m, version) is Ok,
        ensures
            Self::spec_read_member_id(written(Self::spec_write_member_id(m, version)) + rest, version) == Ok::<(Seq<u8>, Seq<u8>), Error>((m.member_id, rest)),
    {
        reveal(DescribedGroupMember::spec_read_member_id);
        reveal(DescribedGroupMember::spec_write_member_id);
        if version >= 5 {
            lemma_compact_string_round_trip(m.member_id, rest);
        } else {
            lemma_string_round_trip(m.member_id, rest);
        }
    }

    proof fn lemma_round_trip_group_instance_id(m: DescribedGroupMemberView, version: i16, rest: Seq<u8>)
        requires
            Self::canonical(m, version),
            Self::spec_write_group_instance_id(m, version) is Ok,
        ensures
            Self::spec_read_group_instance_id(written(Self::spec_write_group_instance_id(m, version)) + rest, version) == Ok::<(Option<Seq<u8>>, Seq<u8>), Error>((m.group_instance_id, rest)),
    {
        reveal(DescribedGroupMember::spec_read_group_instance_id);
        reveal(DescribedGroupMember::spec_write_group_instance_id);
        if version >= 4 {
            if version >= 5 {
                lemma_compact_nullable_string_round_trip(m.group_instance_id, rest);
            } else {
                lemma_nullable_string_round_trip(m.group_instance_id, rest);
            }
        } else {
            assert(Seq::<u8>::empty() + rest =~= rest);
        }
    }

    proof fn lemma_round_trip_client_id(m: DescribedGroupMemberView, version: i16, rest: Seq<u8>)
        requires
            Self::canonical(m, version),
            Self::spec_write_client_id(m, version) is Ok,
        ensures
            Self::spec_read_client_id(written(Self::spec_write_client_id(m, version)) + rest, version) == Ok::<(Seq<u8>, Seq<u8>), Error>((m.client_id, rest)),
    {
        reveal(DescribedGroupMember::spec_read_client_id);
        reveal(DescribedGroupMember::spec_write_client_id);
        if version >= 5 {
            lemma_compact_string_round_trip(m.client_id, rest);
        } else {
            lemma_string_round_trip(m.client_id, rest);
        }
    }

    proof fn lemma_round_trip_client_host(m: DescribedGroupMemberView, version: i16, rest: Seq<u8>)
        requires
            Self::canonical(m, version),
            Self::spec_write_client_host(m, version) is Ok,
        ensures
            Self::spec_read_client_host(written(Self::spec_write_client_host(m, version)) + rest, version) == Ok::<(Seq<u8>, Seq<u8>), Error>((m.client_host, rest)),
    {
        reveal(DescribedGroupMember::spec_read_client_host);
        reveal(DescribedGroupMember::spec_write_client_host);
        if version >= 5 {
            lemma_compact_string_round_trip(m.client_host, rest);
        } else {
            lemma_string_round_trip(m.client_host, rest);
        }
    }

    proof fn lemma_round_trip_member_metadata(m: DescribedGroupMemberView, version: i16, rest: Seq<u8>)
        requires
            Self::canonical(m, version),
            Self::spec_write_member_metadata(m, version) is Ok,
        ensures
            Self::spec_read_member_metadata(written(Self::spec_write_member_metadata(m, version)) + rest, version) == Ok::<(Seq<u8>, Seq<u8>), Error>((m.member_metadata, rest)),
    {
        reveal(DescribedGroupMember::spec_read_member_metadata);
        reveal(DescribedGroupMember::spec_write_member_metadata);
        if version >= 5 {
            lemma_compact_bytes_round_trip(m.member_metadata, rest);
        } else {
            lemma_bytes_round_trip(m.member_metadata, rest);
        }
    }

    proof fn lemma_round_trip_member_assignment(m: DescribedGroupMemberView, version: i16, rest: Seq<u8>)
        requires
            Self::canonical(m, version),
            Self::spec_write_member_assignment(m, version) is Ok,
        ensures
            Self::spec_read_member_assignment(written(Self::spec_write_member_assignment(m, version)) + rest, version) == Ok::<(Seq<u8>, Seq<u8>), Error>((m.member_assignment, rest)),
    {
        reveal(DescribedGroupMember::spec_read_member_assignment);
        reveal(DescribedGroupMember::spec_write_member_assignment);
        if version >= 5 {
            lemma_compact_bytes_round_trip(m.member_assignment, rest);
        } else {
            lemma_bytes_round_trip(m.member_assignment, rest);
        }
    }

    proof fn lemma_round_trip_tags(m: DescribedGroupMemberView, version: i16, rest: Seq<u8>)
        requires
            Self::canonical(m, version),
            Self::spec_write_tags(m, version) is Ok,
        ensures
            Self::spec_read_tags(written(Self::spec_write_tags(m, version)) + rest, version) == Ok::<(Seq<(u32, Seq<u8>)>, Seq<u8>), Error>((m.unknown_tagged_fields, rest)),
    {
        reveal(DescribedGroupMember::spec_read_tags);
        reveal(DescribedGroupMember::spec_write_tags);
        if version >= 5 {
            lemma_sorted_by_tag_in_order(m.unknown_tagged_fields);
            lemma_tagged_fields_round_trip(m.unknown_tagged_fields, rest);
        } else {
            assert(Seq::<u8>::empty() + rest =~= rest);
            assert(m.unknown_tagged_fields =~= Seq::empty());
        }
    }

    /// Reading back what writing `m` in `version` appends gives `m` again, and
    /// leaves what follows, for every canonical message whose write succeeds.
    #[verifier::rlimit(100)]
    #[verifier::spinoff_prover]
    pub proof fn lemma_round_trip(m: DescribedGroupMemberView, version: i16, rest: Seq<u8>)
        requires
            Self::canonical(m, version),
            Self::spec_write(m, version) is Ok,
        ensures
            Self::spec_read(written(Self::spec_write(m, version)) + rest, version) == Ok::<(DescribedGroupMemberView, Seq<u8>), Error>((m, rest)),
    {
        let b0 = written(Self::spec_write_member_id(m, version));
        let b1 = written(Self::spec_write_group_instance_id(m, version));
        let b2 = written(Self::spec_write_client_id(m, version));
        let b3 = written(Self::spec_write_client_host(m, version));
        let b4 = written(Self::spec_write_member_metadata(m, version));
        let b5 = written(Self::spec_write_member_assignment(m, version));
        let b6 = written(Self::spec_write_tags(m, version));
        let t7 = rest;
        let t6 = b6 + t7;
        let t5 = b5 + t6;
        let t4 = b4 + t5;
        let t3 = b3 + t4;
        let t2 = b2 + t3;
        let t1 = b1 + t2;
        let t0 = b0 + t1;
        let w0 = Self::spec_write_member_id(m, version);
        let w1 = chain(w0, Self::spec_write_group_instance_id(m, version));
        let w2 = chain(w1, Self::spec_write_client_id(m, version));
        let w3 = chain(w2, Self::spec_write_client_host(m, version));
        let w4 = chain(w3, Self::spec_write_member_metadata(m, version));
        let w5 = chain(w4, Self::spec_write_member_assignment(m, version));
        let w6 = chain(w5, Self::spec_write_tags(m, version));
        assert(Self::spec_write(m, version) == w6);
        assert(written(w6) + t7 =~= written(w5) + t6);
        assert(written(w5) + t6 =~= written(w4) + t5);
        assert(written(w4) + t5 =~= written(w3) + t4);
        assert(written(w3) + t4 =~= written(w2) + t3);
        assert(written(w2) + t3 =~= written(w1) + t2);
        assert(written(w1) + t2 =~= written(w0) + t1);
        Self::lemma_round_trip_member_id(m, version, t1);
        Self::lemma_round_trip_group_instance_id(m, version, t2);
        Self::lemma_round_trip_client_id(m, version, t3);
        Self::lemma_round_trip_client_host(m, version, t4);
        Self::lemma_round_trip_member_metadata(m, version, t5);
        Self::lemma_round_trip_member_assignment(m, version, t6);
        Self::lemma_round_trip_tags(m, version, t7);
    }

    /// In a version that does not carry `group_instance_id`, writing ignores its value.
    pub proof fn lemma_write_ignores_group_instance_id(m: DescribedGroupMemberView, value: Option<Seq<u8>>, version: i16)
        requires
            !(version >= 4),
        ensures
            Self::spec_write((DescribedGroupMemberView { group_instance_id: value, ..m }), version) == Self::spec_write(m, version),
    {
        reveal(DescribedGroupMember::spec_write_member_id);
        reveal(DescribedGroupMember::spec_write_group_instance_id);
        reveal(DescribedGroupMember::spec_write_client_id);
        reveal(DescribedGroupMember::spec_write_client_host);
        reveal(DescribedGroupMember::spec_write_member_metadata);
        reveal(DescribedGroupMember::spec_write_member_assignment);
        reveal(DescribedGroupMember::spec_write_tags);
    }

    /// In a version that does not carry `unknown_tagged_fields`, writing ignores its value.
    pub proof fn lemma_write_ignores_unknown_tagged_fields(m: DescribedGroupMemberView, value: Seq<(u32, Seq<u8>)>, version: i16)
        requires
            !(version >= 5),
        ensures
            Self::spec_write((DescribedGroupMemberView { unknown_tagged_fields: value, ..m }), version) == Self::spec_write(m, version),
    {
        reveal(DescribedGroupMember::spec_write_member_id);
        reveal(DescribedGroupMember::spec_write_group_instance_id);
        reveal(DescribedGroupMember::spec_write_client_id);
        reveal(DescribedGroupMember::spec_write_client_host);
        reveal(DescribedGroupMember::spec_write_member_metadata);
        reveal(DescribedGroupMember::spec_write_member_assignment);
        reveal(DescribedGroupMember::spec_write_tags);
    }

    /// The default message holds the default value of each field of the schema.
    pub proof fn lemma_default_values()
        ensures
            Self::default_view().member_id.len() == 0,
            (Self::default_view().group_instance_id is None),
            Self::default_view().client_id.len() == 0,
            Self::default_view().client_host.len() == 0,
            Self::default_view().member_metadata.len() == 0,
            Self::default_view().member_assignment.len() == 0,
            Self::default_view().unknown_tagged_fields.len() == 0,
    {
    }

    /// Each integer, boolean and identifier field is written as its standard
    /// big-endian bytes (a boolean as `1` or `0`) in the versions that carry
    /// it, and as nothing in the others; reading it takes those bytes back (any
    /// byte other than `0` reads as `true`), or gives its default value.
    pub proof fn lemma_field_encodings(m: DescribedGroupMemberView, s: Seq<u8>, version: i16)
        ensures
            !(version >= 4) ==> Self::spec_write_group_instance_id(m, version) == Ok::<Seq<u8>, (Error, Seq<u8>)>(Seq::empty()),
    {
        reveal(DescribedGroupMember::spec_write_group_instance_id);
        reveal(DescribedGroupMember::spec_read_group_instance_id);
    }

    /// Whether writing `m` in `version` succeeds, said over its parts: the
    /// version is one the schema covers, every field that the version cannot
    /// carry holds its default value, and every string, byte string, array and
    /// tagged field fits its length prefix.
    pub open spec fn writable(m: DescribedGroupMemberView, version: i16) -> bool {
        &&& m.member_id.len() <= 0x7fff
        &&& (if version >= 4 {
                (m.group_instance_id matches Some(b) ==> b.len() <= 0x7fff)
            } else {
                true
        })
        &&& m.client_id.len() <= 0x7fff
        &&& m.client_host.len() <= 0x7fff
        &&& (if version >= 5 {
                m.member_metadata.len() < u32::MAX
            } else {
                m.member_metadata.len() <= i32::MAX
        })
        &&& (if version >= 5 {
                m.member_assignment.len() < u32::MAX
            } else {
                m.member_assignment.len() <= i32::MAX
        })
        &&& (if version >= 5 {
                m.unknown_tagged_fields.len() <= u32::MAX && tags_fit(m.unknown_tagged_fields)
            } else {
                true
        })
    }

    proof fn lemma_writable_member_id(m: DescribedGroupMemberView, version: i16)
        ensures
            Self::spec_write_member_id(m, version) is Ok <==> m.member_id.len() <= 0x7fff,
    {
        reveal(DescribedGroupMember::spec_write_member_id);
    }

    proof fn lemma_writable_group_instance_id(m: DescribedGroupMemberView, version: i16)
        ensures
            Self::spec_write_group_instance_id(m, version) is Ok <==> (if version >= 4 { (m.group_instance_id matches Some(b) ==> b.len() <= 0x7fff) } else { true }),
    {
        reveal(DescribedGroupMember::spec_write_group_instance_id);
    }

    proof fn lemma_writable_client_id(m: DescribedGroupMemberView, version: i16)
        ensures
            Self::spec_write_client_id(m, version) is Ok <==> m.client_id.len() <= 0x7fff,
    {
        reveal(DescribedGroupMember::spec_write_client_id);
    }

    proof fn lemma_writable_client_host(m: DescribedGroupMemberView, version: i16)
        ensures
            Self::spec_write_client_host(m, version) is Ok <==> m.client_host.len() <= 0x7fff,
    {
        reveal(DescribedGroupMember::spec_write_client_host);
    }

    proof fn lemma_writable_member_metadata(m: DescribedGroupMemberView, version: i16)
        ensures
            Self::spec_write_member_metadata(m, version) is Ok <==> (if version >= 5 { m.member_metadata.len() < u32::MAX } else { m.member_metadata.len() <= i32::MAX }),
    {
        reveal(DescribedGroupMember::spec_write_member_metadata);
    }

    proof fn lemma_writable_member_assignment(m: DescribedGroupMemberView, version: i16)
        ensures
            Self::spec_write_member_assignment(m, version) is Ok <==> (if version >= 5 { m.member_assignment.len() < u32::MAX } else { m.member_assignment.len() <= i32::MAX }),
    {
        reveal(DescribedGroupMember::spec_write_member_assignment);
    }

    proof fn lemma_writable_tags(m: DescribedGroupMemberView, version: i16)
        ensures
            Self::spec_write_tags(m, version) is Ok <==> (if version >= 5 { m.unknown_tagged_fields.len() <= u32::MAX && tags_fit(m.unknown_tagged_fields) } else { true }),
    {
        reveal(DescribedGroupMember::spec_write_tags);
        if version >= 5 {
            lemma_sorted_tags_fit(m.unknown_tagged_fields);
            lemma_tagged_fields_writable(sorted_by_tag(m.unknown_tagged_fields));
        }
    }

    /// Writing `m` in `version` succeeds exactly when `m` is writable in it;
    /// so do `write` and `encoded_len`, whose results follow `spec_write`.
    #[verifier::rlimit(72)]
    pub proof fn lemma_writable(m: DescribedGroupMemberView, version: i16)
        ensures
            Self::spec_write(m, version) is Ok <==> Self::writable(m, version),
    {
        Self::lemma_writable_member_id(m, version);
        Self::lemma_writable_group_instance_id(m, version);
        Self::lemma_writable_client_id(m, version);
        Self::lemma_writable_client_host(m, version);
        Self::lemma_writable_member_metadata(m, version);
        Self::lemma_writable_member_assignment(m, version);
        Self::lemma_writable_tags(m, version);
    }

    fn read_member_id(buf: &mut Bytes, version: i16) -> (r: Result<KafkaString, Error>)
        ensures
            read_as(Self::spec_read_member_id(bytes_seq(*old(buf)), version), *final(buf), r),
            took_front(*old(buf), *final(buf)),
    {
        proof {
            reveal(DescribedGroupMember::spec_read_member_id);
        }
        Ok(if version >= 5 {
                read_compact_string(buf)?
            } else {
                read_string(buf)?
        })
    }

    fn read_group_instance_id(buf: &mut Bytes, version: i16) -> (r: Result<Option<KafkaString>, Error>)
        ensures
            read_opt_as(Self::spec_read_group_instance_id(bytes_seq(*old(buf)), version), *final(buf), r),
            took_front(*old(buf), *final(buf)),
    {
        proof {
            reveal(DescribedGroupMember::spec_read_group_instance_id);
        }
        Ok(if version >= 4 {
                if version >= 5 {
                    read_compact_nullable_string(buf)?
                } else {
                    read_nullable_string(buf)?
                }
            } else {
                None
        })
    }

    fn read_client_id(buf: &mut Bytes, version: i16) -> (r: Result<KafkaString, Error>)
        ensures
            read_as(Self::spec_read_client_id(bytes_seq(*old(buf)), version), *final(buf), r),
            took_front(*old(buf), *final(buf)),
    {
        proof {
            reveal(DescribedGroupMember::spec_read_client_id);
        }
        Ok(if version >= 5 {
                read_compact_string(buf)?
            } else {
                read_string(buf)?
        })
    }

    fn read_client_host(buf: &mut Bytes, version: i16) -> (r: Result<KafkaString, Error>)
        ensures
            read_as(Self::spec_read_client_host(bytes_seq(*old(buf)), version), *final(buf), r),
            took_front(*old(buf), *final(buf)),
    {
        proof {
            reveal(DescribedGroupMember::spec_read_client_host);
        }
        Ok(if version >= 5 {
                read_compact_string(buf)?
            } else {
                read_string(buf)?
        })
    }

    fn read_member_metadata(buf: &mut Bytes, version: i16) -> (r: Result<Bytes, Error>)
        ensures
            read_bytes_as(Self::spec_read_member_metadata(bytes_seq(*old(buf)), version), *final(buf), r),
            took_front(*old(buf), *final(buf)),
    {
        proof {
            reveal(DescribedGroupMember::spec_read_member_metadata);
        }
        Ok(if version >= 5 {
                read_compact_bytes(buf)?
            } else {
                read_bytes(buf)?
        })
    }

    fn read_member_assignment(buf: &mut Bytes, version: i16) -> (r: Result<Bytes, Error>)
        ensures
            read_bytes_as(Self::spec_read_member_assignment(bytes_seq(*old(buf)), version), *final(buf), r),
            took_front(*old(buf), *final(buf)),
    {
        proof {
            reveal(DescribedGroupMember::spec_read_member_assignment);
        }
        Ok(if version >= 5 {
                read_compact_bytes(buf)?
            } else {
                read_bytes(buf)?
        })
    }

    fn read_tags(buf: &mut Bytes, version: i16) -> (r: Result<Vec<RawTaggedField>, Error>)
        ensures
            read_vec_as(Self::spec_read_tags(bytes_seq(*old(buf)), version), *final(buf), r),
            took_front(*old(buf), *final(buf)),
    {
        proof {
            reveal(DescribedGroupMember::spec_read_tags);
        }
        Ok(if version >= 5 {
                read_tagged_fields(buf)?
            } else {
                empty_vec()
        })
    }

    #[verifier::rlimit(62)]
    #[verifier::spinoff_prover]
    pub fn read(buf: &mut Bytes, version: i16) -> (r: Result<Self, Error>)
        ensures
            read_as(Self::spec_read(bytes_seq(*old(buf)), version), *final(buf), r),
            took_front(*old(buf), *final(buf)),
    {
        let member_id = Self::read_member_id(buf, version)?;
        let group_instance_id = Self::read_group_instance_id(buf, version)?;
        let client_id = Self::read_client_id(buf, version)?;
        let client_host = Self::read_client_host(buf, version)?;
        let member_metadata = Self::read_member_metadata(buf, version)?;
        let member_assignment = Self::read_member_assignment(buf, version)?;
        let _unknown_tagged_fields = Self::read_tags(buf, version)?;
        Ok(DescribedGroupMember {
                member_id: member_id,
                group_instance_id: group_instance_id,
                client_id: client_id,
                client_host: client_host,
                member_metadata: member_metadata,
                member_assignment: member_assignment,
                _unknown_tagged_fields: _unknown_tagged_fields,
        })
    }

    #[verifier::rlimit(100)]
    #[verifier::spinoff_prover]
    pub fn write(&self, buf: &mut BytesMut, version: i16) -> (r: Result<(), Error>)
        requires
            has_room(Self::spec_write(self@, version), *old(buf)),
        ensures
            wrote(Self::spec_write(self@, version), *old(buf), *final(buf), r),
    {
        let ghost m = self@;
        proof {
            reveal(DescribedGroupMember::spec_write_member_id);
            reveal(DescribedGroupMember::spec_write_group_instance_id);
            reveal(DescribedGroupMember::spec_write_client_id);
            reveal(DescribedGroupMember::spec_write_client_host);
            reveal(DescribedGroupMember::spec_write_member_metadata);
            reveal(DescribedGroupMember::spec_write_member_assignment);
            reveal(DescribedGroupMember::spec_write_tags);
        }
        let ghost s0 = Self::spec_write_member_id(m, version);
        let ghost w0 = s0;
        let ghost s1 = Self::spec_write_group_instance_id(m, version);
        let ghost w1 = chain(w0, s1);
        let ghost s2 = Self::spec_write_client_id(m, version);
        let ghost w2 = chain(w1, s2);
        let ghost s3 = Self::spec_write_client_host(m, version);
        let ghost w3 = chain(w2, s3);
        let ghost s4 = Self::spec_write_member_metadata(m, version);
        let ghost w4 = chain(w3, s4);
        let ghost s5 = Self::spec_write_member_assignment(m, version);
        let ghost w5 = chain(w4, s5);
        let ghost s6 = Self::spec_write_tags(m, version);
        let ghost w6 = chain(w5, s6);
        assert(Self::spec_write(m, version) == w6);
        assert(written(w5).len() <= written(w6).len() && (w5 is Err ==> w6 == w5));
        assert(written(w4).len() <= written(w6).len() && (w4 is Err ==> w6 == w4));
        assert(written(w3).len() <= written(w6).len() && (w3 is Err ==> w6 == w3));
        assert(written(w2).len() <= written(w6).len() && (w2 is Err ==> w6 == w2));
        assert(written(w1).len() <= written(w6).len() && (w1 is Err ==> w6 == w1));
        assert(written(w0).len() <= written(w6).len() && (w0 is Err ==> w6 == w0));
        let ghost mid = bytes_mut_seq(*buf);
        proof {
            lemma_append_empty(mid);
        }
        let r0 = if version >= 5 {
            write_compact_string(buf, &self.member_id)
        } else {
            write_string(buf, &self.member_id)
        };
        assert(bytes_mut_seq(*buf) == mid + written(s0));
        if r0.is_err() {
            return r0;
        }
        let ghost mid = bytes_mut_seq(*buf);
        proof {
            lemma_append_empty(mid);
        }
        let r1 = if version >= 4 {
            if version >= 5 {
                write_compact_nullable_string(buf, &self.group_instance_id)
            } else {
                write_nullable_string(buf, &self.group_instance_id)
            }
        } else {
            Ok(())
        };
        assert(bytes_mut_seq(*buf) == mid + written(s1));
        proof {
            lemma_step(bytes_mut_seq(*old(buf)), w0, s1);
        }
        if r1.is_err() {
            return r1;
        }
        let ghost mid = bytes_mut_seq(*buf);
        proof {
            lemma_append_empty(mid);
        }
        let r2 = if version >= 5 {
            write_compact_string(buf, &self.client_id)
        } else {
            write_string(buf, &self.client_id)
        };
        assert(bytes_mut_seq(*buf) == mid + written(s2));
        proof {
            lemma_step(bytes_mut_seq(*old(buf)), w1, s2);
        }
        if r2.is_err() {
            return r2;
        }
        let ghost mid = bytes_mut_seq(*buf);
        proof {
            lemma_append_empty(mid);
        }
        let r3 = if version >= 5 {
            write_compact_string(buf, &self.client_host)
        } else {
            write_string(buf, &self.client_host)
        };
        assert(bytes_mut_seq(*buf) == mid + written(s3));
        proof {
            lemma_step(bytes_mut_seq(*old(buf)), w2, s3);
        }
        if r3.is_err() {
            return r3;
        }
        let ghost mid = bytes_mut_seq(*buf);
        proof {
            lemma_append_empty(mid);
        }
        let r4 = if version >= 5 {
            write_compact_bytes(buf, &self.member_metadata)
        } else {
            write_bytes(buf, &self.member_metadata)
        };
        assert(bytes_mut_seq(*buf) == mid + written(s4));
        proof {
            lemma_step(bytes_mut_seq(*old(buf)), w3, s4);
        }
        if r4.is_err() {
            return r4;
        }
        let ghost mid = bytes_mut_seq(*buf);
        proof {
            lemma_append_empty(mid);
        }
        let r5 = if version >= 5 {
            write_compact_bytes(buf, &self.member_assignment)
        } else {
            write_bytes(buf, &self.member_assignment)
        };
        assert(bytes_mut_seq(*buf) == mid + written(s5));
        proof {
            lemma_step(bytes_mut_seq(*old(buf)), w4, s5);
        }
        if r5.is_err() {
            return r5;
        }
        let ghost mid = bytes_mut_seq(*buf);
        proof {
            lemma_append_empty(mid);
        }
        let r6 = if version >= 5 {
            write_tagged_fields(buf, &sort_by_tag(&self._unknown_tagged_fields))
        } else {
            Ok(())
        };
        assert(bytes_mut_seq(*buf) == mid + written(s6));
        proof {
            lemma_step(bytes_mut_seq(*old(buf)), w5, s6);
        }
        if r6.is_err() {
            return r6;
        }
        Ok(())
    }
}

impl Codec for DescribedGroup {
    type Item = DescribedGroup;

    open spec fn spec_read_item(s: Seq<u8>, version: i16) -> ReadOutcome<DescribedGroupView> {
        DescribedGroup::spec_read(s, version)
    }

    open spec fn spec_write_item(v: DescribedGroupView, version: i16) -> WriteOutcome {
        DescribedGroup::spec_write(v, version)
    }

    open spec fn canonical_item(v: DescribedGroupView, version: i16) -> bool {
        DescribedGroup::canonical(v, version)
    }

    proof fn lemma_item_round_trip(v: DescribedGroupView, version: i16, rest: Seq<u8>) {
        DescribedGroup::lemma_round_trip(v, version, rest);
    }

    open spec fn writable_item(v: DescribedGroupView, version: i16) -> bool {
        DescribedGroup::writable(v, version)
    }

    proof fn lemma_item_writable(v: DescribedGroupView, version: i16) {
        DescribedGroup::lemma_writable(v, version);
    }

    fn read_item(buf: &mut Bytes, version: i16) -> (r: Result<DescribedGroup, Error>) {
        DescribedGroup::read(buf, version)
    }

    fn write_item(item: &DescribedGroup, buf: &mut BytesMut, version: i16) -> (r: Result<(), Error>) {
        item.write(buf, version)
    }
}

impl Codec for DescribedGroupMember {
    type Item = DescribedGroupMember;

    open spec fn spec_read_item(s: Seq<u8>, version: i16) -> ReadOutcome<DescribedGroupMemberView> {
        DescribedGroupMember::spec_read(s, version)
    }

    open spec fn spec_write_item(v: DescribedGroupMemberView, version: i16) -> WriteOutcome {
        DescribedGroupMember::spec_write(v, version)
    }

    open spec fn canonical_item(v: DescribedGroupMemberView, version: i16) -> bool {
        DescribedGroupMember::canonical(v, version)
    }

    proof fn lemma_item_round_trip(v: DescribedGroupMemberView, version: i16, rest: Seq<u8>) {
        DescribedGroupMember::lemma_round_trip(v, version, rest);
    }

    open spec fn writable_item(v: DescribedGroupMemberView, version: i16) -> bool {
        DescribedGroupMember::writable(v, version)
    }

    proof fn lemma_item_writable(v: DescribedGroupMemberView, version: i16) {
        DescribedGroupMember::lemma_writable(v, version);
    }

    fn read_item(buf: &mut Bytes, version: i16) -> (r: Result<DescribedGroupMember, Error>) {
        DescribedGroupMember::read(buf, version)
    }

    fn write_item(item: &DescribedGroupMember, buf: &mut BytesMut, version: i16) -> (r: Result<(), Error>) {
        item.write(buf, version)
    }
}

} // verus!
