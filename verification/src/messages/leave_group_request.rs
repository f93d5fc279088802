//! The leave group request message.
use crate::buffer::{bytes_mut_seq, bytes_seq};
use crate::codec::{Codec, MeasuredCodec, all_canonical, all_writable, array_len, lemma_array_round_trip, lemma_array_writable, read_array, saturating_sum, spec_read_array, spec_write_array, write_array};
use crate::error::{Error, UnsupportedFieldVersion, UnsupportedVersion};
use crate::strings::{compact_nullable_string_len, compact_string_len, lemma_compact_nullable_string_round_trip, lemma_compact_string_round_trip, lemma_nullable_string_round_trip, lemma_string_round_trip, nullable_string_len, read_compact_nullable_string, read_compact_string, read_nullable_string, read_string, spec_read_compact_nullable_string, spec_read_compact_string, spec_read_nullable_string, spec_read_string, spec_write_compact_nullable_string, spec_write_compact_string, spec_write_nullable_string, spec_write_string, string_len, write_compact_nullable_string, write_compact_string, write_nullable_string, write_string};
use crate::tagged::{lemma_sorted_by_tag_in_order, lemma_sorted_tags_fit, lemma_tagged_fields_round_trip, lemma_tagged_fields_writable, read_tagged_fields, sort_by_tag, sorted_by_tag, spec_read_tagged_fields, spec_write_tagged_fields, tagged_fields_len, tags_fit, tags_in_order, write_tagged_fields};
use crate::types::{KafkaString, RawTaggedField};
use crate::wire::{ReadOutcome, ViewClone, WriteOutcome, chain, clone_vec, emit, empty_vec, fail, has_room, lemma_append_empty, lemma_chain_written, lemma_len_step, lemma_step, len_result, opt_view, read_as, read_opt_as, read_vec_as, saturate, took_front, views, written, wrote};
use bytes::{Bytes, BytesMut};
use vstd::prelude::*;

verus! {

broadcast use {crate::wire::lemma_chain_written, crate::wire::lemma_took_front_nothing, crate::wire::lemma_took_front_twice};

#[derive(Debug, PartialEq)]
pub struct LeaveGroupRequestData {
    /// The ID of the group to leave.
    pub group_id: KafkaString,
    /// The member ID to remove from the group.
    pub member_id: KafkaString,
    /// List of leaving member identities.
    pub members: Vec<MemberIdentity>,
    pub _unknown_tagged_fields: Vec<RawTaggedField>,
}

/// What a `LeaveGroupRequestData` holds, as the specification sees it.
#[verifier::ext_equal]
pub struct LeaveGroupRequestDataView {
    pub group_id: Seq<u8>,
    pub member_id: Seq<u8>,
    pub members: Seq<MemberIdentityView>,
    pub unknown_tagged_fields: Seq<(u32, Seq<u8>)>,
}

impl View for LeaveGroupRequestData {
    type V = LeaveGroupRequestDataView;

    open spec fn view(&self) -> LeaveGroupRequestDataView {
        LeaveGroupRequestDataView {
            group_id: self.group_id@,
            member_id: self.member_id@,
            members: views(self.members@),
            unknown_tagged_fields: views(self._unknown_tagged_fields@),
        }
    }
}

impl Clone for LeaveGroupRequestData {
    fn clone(&self) -> (r: Self)
        ensures
            r@ == self@,
    {
        let r = LeaveGroupRequestData {
            group_id: self.group_id.clone(),
            member_id: self.member_id.clone(),
            members: clone_vec(&self.members),
            _unknown_tagged_fields: clone_vec(&self._unknown_tagged_fields),
        };
        assert(r@ =~= self@);
        r
    }
}

impl ViewClone for LeaveGroupRequestData {
    fn clone_view(&self) -> (r: Self) {
        self.clone()
    }
}

impl Default for LeaveGroupRequestData {
    fn default() -> (r: Self)
        ensures
            r@ == Self::default_view(),
    {
        let r = LeaveGroupRequestData {
            group_id: KafkaString::default(),
            member_id: KafkaString::default(),
            members: empty_vec(),
            _unknown_tagged_fields: empty_vec(),
        };
        assert(r@ =~= Self::default_view());
        r
    }
}

impl LeaveGroupRequestData {
    pub open spec fn default_view() -> LeaveGroupRequestDataView {
        LeaveGroupRequestDataView {
            group_id: Seq::empty(),
            member_id: Seq::empty(),
            members: Seq::empty(),
            unknown_tagged_fields: Seq::empty(),
        }
    }

    /// The `group_id` field, read from the front of `s`.
    #[verifier::opaque]
    pub open spec fn spec_read_group_id(s: Seq<u8>, version: i16) -> ReadOutcome<Seq<u8>> {
        if version >= 4 {
            spec_read_compact_string(s)
        } else {
            spec_read_string(s)
        }
    }

    /// The `member_id` field, read from the front of `s`.
    #[verifier::opaque]
    pub open spec fn spec_read_member_id(s: Seq<u8>, version: i16) -> ReadOutcome<Seq<u8>> {
        if version <= 2 {
            spec_read_string(s)
        } else {
            Ok((Seq::empty(), s))
        }
    }

    /// The `members` field, read from the front of `s`.
    #[verifier::opaque]
    pub open spec fn spec_read_members(s: Seq<u8>, version: i16) -> ReadOutcome<Seq<MemberIdentityView>> {
        if version >= 3 {
            if version >= 4 {
                spec_read_array::<MemberIdentity>(s, version, true)
            } else {
                spec_read_array::<MemberIdentity>(s, version, false)
            }
        } else {
            Ok((Seq::empty(), s))
        }
    }

    /// The tagged fields, read from the front of `s`.
    #[verifier::opaque]
    pub open spec fn spec_read_tags(s: Seq<u8>, version: i16) -> ReadOutcome<Seq<(u32, Seq<u8>)>> {
        if version >= 4 {
            spec_read_tagged_fields(s)
        } else {
            Ok((Seq::empty(), s))
        }
    }

    pub open spec fn spec_read(s: Seq<u8>, version: i16) -> ReadOutcome<LeaveGroupRequestDataView> {
        if version < 0 || version > 5 {
            Err(Error::UnsupportedVersion(UnsupportedVersion { api_key: 13, version }))
        } else {
            match (Self::spec_read_group_id(s, version)) {
                Err(e) => Err(e),
                Ok((group_id, s)) => match (Self::spec_read_member_id(s, version)) {
                    Err(e) => Err(e),
                    Ok((member_id, s)) => match (Self::spec_read_members(s, version)) {
                        Err(e) => Err(e),
                        Ok((members, s)) => match (Self::spec_read_tags(s, version)) {
                            Err(e) => Err(e),
                            Ok((unknown_tagged_fields, s)) => Ok((LeaveGroupRequestDataView {
                                        group_id: group_id,
                                        member_id: member_id,
                                        members: members,
                                        unknown_tagged_fields: unknown_tagged_fields,
                                    }, s)),
                        },
                    },
                },
            }
        }
    }

    /// What writing the `group_id` field of `m` appends.
    #[verifier::opaque]
    pub open spec fn spec_write_group_id(m: LeaveGroupRequestDataView, version: i16) -> WriteOutcome {
        if version >= 4 {
            spec_write_compact_string(m.group_id)
        } else {
            spec_write_string(m.group_id)
        }
    }

    /// What writing the `member_id` field of `m` appends.
    #[verifier::opaque]
    pub open spec fn spec_write_member_id(m: LeaveGroupRequestDataView, version: i16) -> WriteOutcome {
        if version <= 2 {
            spec_write_string(m.member_id)
        } else {
            if m.member_id.len() != 0 {
                fail(Error::UnsupportedFieldVersion(UnsupportedFieldVersion { api_key: 13, field: "member_id", version }))
            } else {
                emit(Seq::empty())
            }
        }
    }

    /// What writing the `members` field of `m` appends.
    #[verifier::opaque]
    pub open spec fn spec_write_members(m: LeaveGroupRequestDataView, version: i16) -> WriteOutcome {
        if version >= 3 {
            if version >= 4 {
                spec_write_array::<MemberIdentity>(m.members, version, true)
            } else {
                spec_write_array::<MemberIdentity>(m.members, version, false)
            }
        } else {
            if m.members.len() != 0 {
                fail(Error::UnsupportedFieldVersion(UnsupportedFieldVersion { api_key: 13, field: "members", version }))
            } else {
                emit(Seq::empty())
            }
        }
    }

    /// What writing the tagged fields of `m` appends.
    #[verifier::opaque]
    pub open spec fn spec_write_tags(m: LeaveGroupRequestDataView, version: i16) -> WriteOutcome {
        if version >= 4 {
            spec_write_tagged_fields(sorted_by_tag(m.unknown_tagged_fields))
        } else {
            emit(Seq::empty())
        }
    }

    pub open spec fn spec_write(m: LeaveGroupRequestDataView, version: i16) -> WriteOutcome {
        if version < 0 || version > 5 {
            fail(Error::UnsupportedVersion(UnsupportedVersion { api_key: 13, version }))
        } else {
            chain(
                chain(
                    chain(
                        Self::spec_write_group_id(m, version),
                        Self::spec_write_member_id(m, version),
                    ),
                    Self::spec_write_members(m, version),
                ),
                Self::spec_write_tags(m, version),
            )
        }
    }

    /// Whether reading back what writing `m` in `version` appends gives `m`:
    /// fields that the version does not carry hold their default values, and
    /// tagged fields come in the order in which they are written.
    pub open spec fn canonical(m: LeaveGroupRequestDataView, version: i16) -> bool {
        &&& (if version >= 3 {
                all_canonical::<MemberIdentity>(m.members, version)
            } else {
                true
        })
        &&& (if version >= 4 {
                tags_in_order(m.unknown_tagged_fields)
            } else {
                m.unknown_tagged_fields.len() == 0
        })
    }

    proof fn lemma_round_trip_group_id(m: LeaveGroupRequestDataView, version: i16, rest: Seq<u8>)
        requires
            Self::canonical(m, version),
            Self::spec_write_group_id(m, version) is Ok,
        ensures
            Self::spec_read_group_id(written(Self::spec_write_group_id(m, version)) + rest, version) == Ok::<(Seq<u8>, Seq<u8>), Error>((m.group_id, rest)),
    {
        reveal(LeaveGroupRequestData::spec_read_group_id);
        reveal(LeaveGroupRequestData::spec_write_group_id);
        if version >= 4 {
            lemma_compact_string_round_trip(m.group_id, rest);
        } else {
            lemma_string_round_trip(m.group_id, rest);
        }
    }

    proof fn lemma_round_trip_member_id(m: LeaveGroupRequestDataView, version: i16, rest: Seq<u8>)
        requires
            Self::canonical(m, version),
            Self::spec_write_member_id(m, version) is Ok,
        ensures
            Self::spec_read_member_id(written(Self::spec_write_member_id(m, version)) + rest, version) == Ok::<(Seq<u8>, Seq<u8>), Error>((m.member_id, rest)),
    {
        reveal(LeaveGroupRequestData::spec_read_member_id);
        reveal(LeaveGroupRequestData::spec_write_member_id);
        if version <= 2 {
            lemma_string_round_trip(m.member_id, rest);
        } else {
            assert(Seq::<u8>::empty() + rest =~= rest);
            assert(m.member_id =~= Seq::empty());
            assert(m.member_id =~= Seq::empty());
        }
    }

    proof fn lemma_round_trip_members(m: LeaveGroupRequestDataView, version: i16, rest: Seq<u8>)
        requires
            Self::canonical(m, version),
            Self::spec_write_members(m, version) is Ok,
        ensures
            Self::spec_read_members(written(Self::spec_write_members(m, version)) + rest, version) == Ok::<(Seq<MemberIdentityView>, Seq<u8>), Error>((m.members, rest)),
    {
        reveal(LeaveGroupRequestData::spec_read_members);
        reveal(LeaveGroupRequestData::spec_write_members);
        if version >= 3 {
            if version >= 4 {
                lemma_array_round_trip::<MemberIdentity>(m.members, version, true, rest);
            } else {
                lemma_array_round_trip::<MemberIdentity>(m.members, version, false, rest);
            }
        } else {
            assert(Seq::<u8>::empty() + rest =~= rest);
            assert(m.members =~= Seq::empty());
            assert(m.members =~= Seq::empty());
        }
    }

    proof fn lemma_round_trip_tags(m: LeaveGroupRequestDataView, version: i16, rest: Seq<u8>)
        requires
            Self::canonical(m, version),
            Self::spec_write_tags(m, version) is Ok,
        ensures
            Self::spec_read_tags(written(Self::spec_write_tags(m, version)) + rest, version) == Ok::<(Seq<(u32, Seq<u8>)>, Seq<u8>), Error>((m.unknown_tagged_fields, rest)),
    {
        reveal(LeaveGroupRequestData::spec_read_tags);
        reveal(LeaveGroupRequestData::spec_write_tags);
        if version >= 4 {
            lemma_sorted_by_tag_in_order(m.unknown_tagged_fields);
            lemma_tagged_fields_round_trip(m.unknown_tagged_fields, rest);
        } else {
            assert(Seq::<u8>::empty() + rest =~= rest);
            assert(m.unknown_tagged_fields =~= Seq::empty());
        }
    }

    /// Reading back what writing `m` in `version` appends gives `m` again, and
    /// leaves what follows, for every canonical message whose write succeeds.
    #[verifier::rlimit(80)]
    #[verifier::spinoff_prover]
    pub proof fn lemma_round_trip(m: LeaveGroupRequestDataView, version: i16, rest: Seq<u8>)
        requires
            Self::canonical(m, version),
            Self::spec_write(m, version) is Ok,
        ensures
            Self::spec_read(written(Self::spec_write(m, version)) + rest, version) == Ok::<(LeaveGroupRequestDataView, Seq<u8>), Error>((m, rest)),
    {
        let b0 = written(Self::spec_write_group_id(m, version));
        let b1 = written(Self::spec_write_member_id(m, version));
        let b2 = written(Self::spec_write_members(m, version));
        let b3 = written(Self::spec_write_tags(m, version));
        let t4 = rest;
        let t3 = b3 + t4;
        let t2 = b2 + t3;
        let t1 = b1 + t2;
        let t0 = b0 + t1;
        let w0 = Self::spec_write_group_id(m, version);
        let w1 = chain(w0, Self::spec_write_member_id(m, version));
        let w2 = chain(w1, Self::spec_write_members(m, version));
        let w3 = chain(w2, Self::spec_write_tags(m, version));
        assert(Self::spec_write(m, version) == w3);
        assert(written(w3) + t4 =~= written(w2) + t3);
        assert(written(w2) + t3 =~= written(w1) + t2);
        assert(written(w1) + t2 =~= written(w0) + t1);
        Self::lemma_round_trip_group_id(m, version, t1);
        Self::lemma_round_trip_member_id(m, version, t2);
        Self::lemma_round_trip_members(m, version, t3);
        Self::lemma_round_trip_tags(m, version, t4);
    }

    /// In a version that does not carry `unknown_tagged_fields`, writing ignores its value.
    pub proof fn lemma_write_ignores_unknown_tagged_fields(m: LeaveGroupRequestDataView, value: Seq<(u32, Seq<u8>)>, version: i16)
        requires
            !(version >= 4),
        ensures
            Self::spec_write((LeaveGroupRequestDataView { unknown_tagged_fields: value, ..m }), version) == Self::spec_write(m, version),
    {
        reveal(LeaveGroupRequestData::spec_write_group_id);
        reveal(LeaveGroupRequestData::spec_write_member_id);
        reveal(LeaveGroupRequestData::spec_write_members);
        reveal(LeaveGroupRequestData::spec_write_tags);
    }

    /// The default message holds the default value of each field of the schema.
    pub proof fn lemma_default_values()
        ensures
            Self::default_view().group_id.len() == 0,
            Self::default_view().member_id.len() == 0,
            Self::default_view().members.len() == 0,
            Self::default_view().unknown_tagged_fields.len() == 0,
    {
    }

    /// Whether writing `m` in `version` succeeds, said over its parts: the
    /// version is one the schema covers, every field that the version cannot
    /// carry holds its default value, and every string, byte string, array and
    /// tagged field fits its length prefix.
    pub open spec fn writable(m: LeaveGroupRequestDataView, version: i16) -> bool {
        &&& 0 <= version <= 5
        &&& m.group_id.len() <= 0x7fff
        &&& (if version <= 2 {
                m.member_id.len() <= 0x7fff
            } else {
                !(m.member_id.len() != 0)
        })
        &&& (if version >= 3 {
                (m.members.len() <= i32::MAX && all_writable::<MemberIdentity>(m.members, version))
            } else {
                !(m.members.len() != 0)
        })
        &&& (if version >= 4 {
                m.unknown_tagged_fields.len() <= u32::MAX && tags_fit(m.unknown_tagged_fields)
            } else {
                true
        })
    }

    proof fn lemma_writable_group_id(m: LeaveGroupRequestDataView, version: i16)
        ensures
            Self::spec_write_group_id(m, version) is Ok <==> m.group_id.len() <= 0x7fff,
    {
        reveal(LeaveGroupRequestData::spec_write_group_id);
    }

    proof fn lemma_writable_member_id(m: LeaveGroupRequestDataView, version: i16)
        ensures
            Self::spec_write_member_id(m, version) is Ok <==> (if version <= 2 { m.member_id.len() <= 0x7fff } else { !(m.member_id.len() != 0) }),
    {
        reveal(LeaveGroupRequestData::spec_write_member_id);
    }

    proof fn lemma_writable_members(m: LeaveGroupRequestDataView, version: i16)
        ensures
            Self::spec_write_members(m, version) is Ok <==> (if version >= 3 { (m.members.len() <= i32::MAX && all_writable::<MemberIdentity>(m.members, version)) } else { !(m.members.len() != 0) }),
    {
        reveal(LeaveGroupRequestData::spec_write_members);
        if version >= 3 {
            if version >= 4 {
                lemma_array_writable::<MemberIdentity>(m.members, version, true);
            } else {
                lemma_array_writable::<MemberIdentity>(m.members, version, false);
            }
        } else {
        }
    }

    proof fn lemma_writable_tags(m: LeaveGroupRequestDataView, version: i16)
        ensures
            Self::spec_write_tags(m, version) is Ok <==> (if version >= 4 { m.unknown_tagged_fields.len() <= u32::MAX && tags_fit(m.unknown_tagged_fields) } else { true }),
    {
        reveal(LeaveGroupRequestData::spec_write_tags);
        if version >= 4 {
            lemma_sorted_tags_fit(m.unknown_tagged_fields);
            lemma_tagged_fields_writable(sorted_by_tag(m.unknown_tagged_fields));
        }
    }

    /// Writing `m` in `version` succeeds exactly when `m` is writable in it;
    /// so do `write` and `encoded_len`, whose results follow `spec_write`.
    #[verifier::rlimit(54)]
    pub proof fn lemma_writable(m: LeaveGroupRequestDataView, version: i16)
        ensures
            Self::spec_write(m, version) is Ok <==> Self::writable(m, version),
    {
        Self::lemma_writable_group_id(m, version);
        Self::lemma_writable_member_id(m, version);
        Self::lemma_writable_members(m, version);
        Self::lemma_writable_tags(m, version);
    }

    /// A version outside the range that the schema covers is refused, by
    /// reads and by writes alike, before anything is read or written.
    pub proof fn lemma_refused_version(m: LeaveGroupRequestDataView, s: Seq<u8>, version: i16)
        requires
            version < 0 || version > 5,
        ensures
            Self::spec_read(s, version) == Err::<(LeaveGroupRequestDataView, Seq<u8>), Error>(Error::UnsupportedVersion(UnsupportedVersion { api_key: 13, version })),
            Self::spec_write(m, version) == fail(Error::UnsupportedVersion(UnsupportedVersion { api_key: 13, version })),
    {
    }

    pub fn with_group_id(self, value: KafkaString) -> (r: Self)
        ensures
            r@ == (LeaveGroupRequestDataView { group_id: value@, ..self@ }),
    {
        let mut r = self;
        r.group_id = value;
        r
    }

    pub fn with_member_id(self, value: KafkaString) -> (r: Self)
        ensures
            r@ == (LeaveGroupRequestDataView { member_id: value@, ..self@ }),
    {
        let mut r = self;
        r.member_id = value;
        r
    }

    pub fn with_members(self, value: Vec<MemberIdentity>) -> (r: Self)
        ensures
            r@ == (LeaveGroupRequestDataView { members: views(value@), ..self@ }),
    {
        let mut r = self;
        r.members = value;
        r
    }

    fn read_group_id(buf: &mut Bytes, version: i16) -> (r: Result<KafkaString, Error>)
        ensures
            read_as(Self::spec_read_group_id(bytes_seq(*old(buf)), version), *final(buf), r),
            took_front(*old(buf), *final(buf)),
    {
        proof {
            reveal(LeaveGroupRequestData::spec_read_group_id);
        }
        Ok(if version >= 4 {
                read_compact_string(buf)?
            } else {
                read_string(buf)?
        })
    }

    fn read_member_id(buf: &mut Bytes, version: i16) -> (r: Result<KafkaString, Error>)
        ensures
            read_as(Self::spec_read_member_id(bytes_seq(*old(buf)), version), *final(buf), r),
            took_front(*old(buf), *final(buf)),
    {
        proof {
            reveal(LeaveGroupRequestData::spec_read_member_id);
        }
        Ok(if version <= 2 {
                read_string(buf)?
            } else {
                KafkaString::default()
        })
    }

    fn read_members(buf: &mut Bytes, version: i16) -> (r: Result<Vec<MemberIdentity>, Error>)
        ensures
            read_vec_as(Self::spec_read_members(bytes_seq(*old(buf)), version), *final(buf), r),
            took_front(*old(buf), *final(buf)),
    {
        proof {
            reveal(LeaveGroupRequestData::spec_read_members);
        }
        Ok(if version >= 3 {
                if version >= 4 {
                    read_array::<MemberIdentity>(buf, version, true)?
                } else {
                    read_array::<MemberIdentity>(buf, version, false)?
                }
            } else {
                empty_vec()
        })
    }

    fn read_tags(buf: &mut Bytes, version: i16) -> (r: Result<Vec<RawTaggedField>, Error>)
        ensures
            read_vec_as(Self::spec_read_tags(bytes_seq(*old(buf)), version), *final(buf), r),
            took_front(*old(buf), *final(buf)),
    {
        proof {
            reveal(LeaveGroupRequestData::spec_read_tags);
        }
        Ok(if version >= 4 {
                read_tagged_fields(buf)?
            } else {
                empty_vec()
        })
    }

    pub fn read(buf: &mut Bytes, version: i16) -> (r: Result<Self, Error>)
        ensures
            read_as(Self::spec_read(bytes_seq(*old(buf)), version), *final(buf), r),
            took_front(*old(buf), *final(buf)),
            (version < 0 || version > 5) ==> bytes_seq(*final(buf)) == bytes_seq(*old(buf)),
    {
        if version < 0 || version > 5 {
            return Err(Error::UnsupportedVersion(UnsupportedVersion::new(13, version)));
        }
        let group_id = Self::read_group_id(buf, version)?;
        let member_id = Self::read_member_id(buf, version)?;
        let members = Self::read_members(buf, version)?;
        let _unknown_tagged_fields = Self::read_tags(buf, version)?;
        Ok(LeaveGroupRequestData {
                group_id: group_id,
                member_id: member_id,
                members: members,
                _unknown_tagged_fields: _unknown_tagged_fields,
        })
    }

    #[verifier::rlimit(70)]
    pub fn write(&self, buf: &mut BytesMut, version: i16) -> (r: Result<(), Error>)
        requires
            has_room(Self::spec_write(self@, version), *old(buf)),
        ensures
            wrote(Self::spec_write(self@, version), *old(buf), *final(buf), r),
    {
        if version < 0 || version > 5 {
            return Err(Error::UnsupportedVersion(UnsupportedVersion::new(13, version)));
        }
        let ghost m = self@;
        proof {
            reveal(LeaveGroupRequestData::spec_write_group_id);
            reveal(LeaveGroupRequestData::spec_write_member_id);
            reveal(LeaveGroupRequestData::spec_write_members);
            reveal(LeaveGroupRequestData::spec_write_tags);
        }
        let ghost s0 = Self::spec_write_group_id(m, version);
        let ghost w0 = s0;
        let ghost s1 = Self::spec_write_member_id(m, version);
        let ghost w1 = chain(w0, s1);
        let ghost s2 = Self::spec_write_members(m, version);
        let ghost w2 = chain(w1, s2);
        let ghost s3 = Self::spec_write_tags(m, version);
        let ghost w3 = chain(w2, s3);
        assert(Self::spec_write(m, version) == w3);
        assert(written(w2).len() <= written(w3).len() && (w2 is Err ==> w3 == w2));
        assert(written(w1).len() <= written(w3).len() && (w1 is Err ==> w3 == w1));
        assert(written(w0).len() <= written(w3).len() && (w0 is Err ==> w3 == w0));
        let ghost mid = bytes_mut_seq(*buf);
        proof {
            lemma_append_empty(mid);
        }
        let r0 = if version >= 4 {
            write_compact_string(buf, &self.group_id)
        } else {
            write_string(buf, &self.group_id)
        };
        assert(bytes_mut_seq(*buf) == mid + written(s0));
        if r0.is_err() {
            return r0;
        }
        let ghost mid = bytes_mut_seq(*buf);
        proof {
            lemma_append_empty(mid);
        }
        let r1 = if version <= 2 {
            write_string(buf, &self.member_id)
        } else {
            if !self.member_id.is_empty() {
                Err(Error::UnsupportedFieldVersion(UnsupportedFieldVersion::new(13, "member_id", version)))
            } else {
                Ok(())
            }
        };
        assert(bytes_mut_seq(*buf) == mid + written(s1));
        proof {
            lemma_step(bytes_mut_seq(*old(buf)), w0, s1);
        }
        if r1.is_err() {
            return r1;
        }
        let ghost mid = bytes_mut_seq(*buf);
        proof {
            lemma_append_empty(mid);
        }
        let r2 = if version >= 3 {
            if version >= 4 {
                write_array::<MemberIdentity>(buf, &self.members, version, true)
            } else {
                write_array::<MemberIdentity>(buf, &self.members, version, false)
            }
        } else {
            if self.members.len() != 0 {
                Err(Error::UnsupportedFieldVersion(UnsupportedFieldVersion::new(13, "members", version)))
            } else {
                Ok(())
            }
        };
        assert(bytes_mut_seq(*buf) == mid + written(s2));
        proof {
            lemma_step(bytes_mut_seq(*old(buf)), w1, s2);
        }
        if r2.is_err() {
            return r2;
        }
        let ghost mid = bytes_mut_seq(*buf);
        proof {
            lemma_append_empty(mid);
        }
        let r3 = if version >= 4 {
            write_tagged_fields(buf, &sort_by_tag(&self._unknown_tagged_fields))
        } else {
            Ok(())
        };
        assert(bytes_mut_seq(*buf) == mid + written(s3));
        proof {
            lemma_step(bytes_mut_seq(*old(buf)), w2, s3);
        }
        if r3.is_err() {
            return r3;
        }
        Ok(())
    }

    #[verifier::rlimit(70)]
    pub fn encoded_len(&self, version: i16) -> (r: Result<usize, Error>)
        ensures
            r == len_result(Self::spec_write(self@, version)),
    {
        if version < 0 || version > 5 {
            return Err(Error::UnsupportedVersion(UnsupportedVersion::new(13, version)));
        }
        let ghost m = self@;
        proof {
            reveal(LeaveGroupRequestData::spec_write_group_id);
            reveal(LeaveGroupRequestData::spec_write_member_id);
            reveal(LeaveGroupRequestData::spec_write_members);
            reveal(LeaveGroupRequestData::spec_write_tags);
        }
        let ghost s0 = Self::spec_write_group_id(m, version);
        let ghost w0 = s0;
        let ghost s1 = Self::spec_write_member_id(m, version);
        let ghost w1 = chain(w0, s1);
        let ghost s2 = Self::spec_write_members(m, version);
        let ghost w2 = chain(w1, s2);
        let ghost s3 = Self::spec_write_tags(m, version);
        let ghost w3 = chain(w2, s3);
        assert(Self::spec_write(m, version) == w3);
        assert(w2 is Err ==> w3 == w2);
        assert(w1 is Err ==> w3 == w1);
        assert(w0 is Err ==> w3 == w0);
        let mut len: usize = 0;
        let l0 = if version >= 4 {
            compact_string_len(&self.group_id)
        } else {
            string_len(&self.group_id)
        };
        assert(l0 == len_result(s0));
        let n0 = match l0 {
            Ok(n) => n,
            Err(e) => {
                return Err(e);
            },
        };
        len = saturating_sum(len, n0);
        assert(w0 is Ok && len == saturate(written(w0).len() as int));
        let l1 = if version <= 2 {
            string_len(&self.member_id)
        } else {
            if !self.member_id.is_empty() {
                Err(Error::UnsupportedFieldVersion(UnsupportedFieldVersion::new(13, "member_id", version)))
            } else {
                Ok(0)
            }
        };
        assert(l1 == len_result(s1));
        let n1 = match l1 {
            Ok(n) => n,
            Err(e) => {
                return Err(e);
            },
        };
        proof {
            lemma_len_step(w0, s1, n1);
        }
        len = saturating_sum(len, n1);
        assert(w1 is Ok && len == saturate(written(w1).len() as int));
        let l2 = if version >= 3 {
            if version >= 4 {
                array_len::<MemberIdentity>(&self.members, version, true)
            } else {
                array_len::<MemberIdentity>(&self.members, version, false)
            }
        } else {
            if self.members.len() != 0 {
                Err(Error::UnsupportedFieldVersion(UnsupportedFieldVersion::new(13, "members", version)))
            } else {
                Ok(0)
            }
        };
        assert(l2 == len_result(s2));
        let n2 = match l2 {
            Ok(n) => n,
            Err(e) => {
                return Err(e);
            },
        };
        proof {
            lemma_len_step(w1, s2, n2);
        }
        len = saturating_sum(len, n2);
        assert(w2 is Ok && len == saturate(written(w2).len() as int));
        let l3 = if version >= 4 {
            tagged_fields_len(&sort_by_tag(&self._unknown_tagged_fields))
        } else {
            Ok(0)
        };
        assert(l3 == len_result(s3));
        let n3 = match l3 {
            Ok(n) => n,
            Err(e) => {
                return Err(e);
            },
        };
        proof {
            lemma_len_step(w2, s3, n3);
        }
        len = saturating_sum(len, n3);
        assert(w3 is Ok && len == saturate(written(w3).len() as int));
        Ok(len)
    }
}

#[derive(Debug, PartialEq)]
pub struct MemberIdentity {
    /// The member ID to remove from the group.
    pub member_id: KafkaString,
    /// The group instance ID to remove from the group.
    pub group_instance_id: Option<KafkaString>,
    /// The reason why the member left the group.
    pub reason: Option<KafkaString>,
    pub _unknown_tagged_fields: Vec<RawTaggedField>,
}

/// What a `MemberIdentity` holds, as the specification sees it.
#[verifier::ext_equal]
pub struct MemberIdentityView {
    pub member_id: Seq<u8>,
    pub group_instance_id: Option<Seq<u8>>,
    pub reason: Option<Seq<u8>>,
    pub unknown_tagged_fields: Seq<(u32, Seq<u8>)>,
}

impl View for MemberIdentity {
    type V = MemberIdentityView;

    open spec fn view(&self) -> MemberIdentityView {
        MemberIdentityView {
            member_id: self.member_id@,
            group_instance_id: opt_view(self.group_instance_id),
            reason: opt_view(self.reason),
            unknown_tagged_fields: views(self._unknown_tagged_fields@),
        }
    }
}

impl Clone for MemberIdentity {
    fn clone(&self) -> (r: Self)
        ensures
            r@ == self@,
    {
        let r = MemberIdentity {
            member_id: self.member_id.clone(),
            group_instance_id: match &self.group_instance_id {
                Some(x) => Some(x.clone()),
                None => None,
            },
            reason: match &self.reason {
                Some(x) => Some(x.clone()),
                None => None,
            },
            _unknown_tagged_fields: clone_vec(&self._unknown_tagged_fields),
        };
        assert(r@ =~= self@);
        r
    }
}

impl ViewClone for MemberIdentity {
    fn clone_view(&self) -> (r: Self) {
        self.clone()
    }
}

impl Default for MemberIdentity {
    fn default() -> (r: Self)
        ensures
            r@ == Self::default_view(),
    {
        let r = MemberIdentity {
            member_id: KafkaString::default(),
            group_instance_id: None,
            reason: None,
            _unknown_tagged_fields: empty_vec(),
        };
        assert(r@ =~= Self::default_view());
        r
    }
}

impl MemberIdentity {
    pub open spec fn default_view() -> MemberIdentityView {
        MemberIdentityView {
            member_id: Seq::empty(),
            group_instance_id: None,
            reason: None,
            unknown_tagged_fields: Seq::empty(),
        }
    }

    /// The `member_id` field, read from the front of `s`.
    #[verifier::opaque]
    pub open spec fn spec_read_member_id(s: Seq<u8>, version: i16) -> ReadOutcome<Seq<u8>> {
        if version >= 4 {
            spec_read_compact_string(s)
        } else {
            spec_read_string(s)
        }
    }

    /// The `group_instance_id` field, read from the front of `s`.
    #[verifier::opaque]
    pub open spec fn spec_read_group_instance_id(s: Seq<u8>, version: i16) -> ReadOutcome<Option<Seq<u8>>> {
        if version >= 4 {
            spec_read_compact_nullable_string(s)
        } else {
            spec_read_nullable_string(s)
        }
    }

    /// The `reason` field, read from the front of `s`.
    #[verifier::opaque]
    pub open spec fn spec_read_reason(s: Seq<u8>, version: i16) -> ReadOutcome<Option<Seq<u8>>> {
        if version >= 5 {
            spec_read_compact_nullable_string(s)
        } else {
            Ok((None, s))
        }
    }

    /// The tagged fields, read from the front of `s`.
    #[verifier::opaque]
    pub open spec fn spec_read_tags(s: Seq<u8>, version: i16) -> ReadOutcome<Seq<(u32, Seq<u8>)>> {
        if version >= 4 {
            spec_read_tagged_fields(s)
        } else {
            Ok((Seq::empty(), s))
        }
    }

    pub open spec fn spec_read(s: Seq<u8>, version: i16) -> ReadOutcome<MemberIdentityView> {
        match (Self::spec_read_member_id(s, version)) {
            Err(e) => Err(e),
            Ok((member_id, s)) => match (Self::spec_read_group_instance_id(s, version)) {
                Err(e) => Err(e),
                Ok((group_instance_id, s)) => match (Self::spec_read_reason(s, version)) {
                    Err(e) => Err(e),
                    Ok((reason, s)) => match (Self::spec_read_tags(s, version)) {
                        Err(e) => Err(e),
                        Ok((unknown_tagged_fields, s)) => Ok((MemberIdentityView {
                                    member_id: member_id,
                                    group_instance_id: group_instance_id,
                                    reason: reason,
                                    unknown_tagged_fields: unknown_tagged_fields,
                                }, s)),
                    },
                },
            },
        }
    }

    /// What writing the `member_id` field of `m` appends.
    #[verifier::opaque]
    pub open spec fn spec_write_member_id(m: MemberIdentityView, version: i16) -> WriteOutcome {
        if version >= 4 {
            spec_write_compact_string(m.member_id)
        } else {
            spec_write_string(m.member_id)
        }
    }

    /// What writing the `group_instance_id` field of `m` appends.
    #[verifier::opaque]
    pub open spec fn spec_write_group_instance_id(m: MemberIdentityView, version: i16) -> WriteOutcome {
        if version >= 4 {
            spec_write_compact_nullable_string(m.group_instance_id)
        } else {
            spec_write_nullable_string(m.group_instance_id)
        }
    }

    /// What writing the `reason` field of `m` appends.
    #[verifier::opaque]
    pub open spec fn spec_write_reason(m: MemberIdentityView, version: i16) -> WriteOutcome {
        if version >= 5 {
            spec_write_compact_nullable_string(m.reason)
        } else {
            if m.reason is Some {
                fail(Error::UnsupportedFieldVersion(UnsupportedFieldVersion { api_key: 13, field: "reason", version }))
            } else {
                emit(Seq::empty())
            }
        }
    }

    /// What writing the tagged fields of `m` appends.
    #[verifier::opaque]
    pub open spec fn spec_write_tags(m: MemberIdentityView, version: i16) -> WriteOutcome {
        if version >= 4 {
            spec_write_tagged_fields(sorted_by_tag(m.unknown_tagged_fields))
        } else {
            emit(Seq::empty())
        }
    }

    pub open spec fn spec_write(m: MemberIdentityView, version: i16) -> WriteOutcome {
        chain(
            chain(
                chain(
                    Self::spec_write_member_id(m, version),
                    Self::spec_write_group_instance_id(m, version),
                ),
                Self::spec_write_reason(m, version),
            ),
            Self::spec_write_tags(m, version),
        )
    }

    /// Whether reading back what writing `m` in `version` appends gives `m`:
    /// fields that the version does not carry hold their default values, and
    /// tagged fields come in the order in which they are written.
    pub open spec fn canonical(m: MemberIdentityView, version: i16) -> bool {
        &&& (if version >= 4 {
                tags_in_order(m.unknown_tagged_fields)
            } else {
                m.unknown_tagged_fields.len() == 0
        })
    }

    proof fn lemma_round_trip_member_id(m: MemberIdentityView, version: i16, rest: Seq<u8>)
        requires
            Self::canonical(m, version),
            Self::spec_write_member_id(m, version) is Ok,
        ensures
            Self::spec_read_member_id(written(Self::spec_write_member_id(m, version)) + rest, version) == Ok::<(Seq<u8>, Seq<u8>), Error>((m.member_id, rest)),
    {
        reveal(MemberIdentity::spec_read_member_id);
        reveal(MemberIdentity::spec_write_member_id);
        if version >= 4 {
            lemma_compact_string_round_trip(m.member_id, rest);
        } else {
            lemma_string_round_trip(m.member_id, rest);
        }
    }

    proof fn lemma_round_trip_group_instance_id(m: MemberIdentityView, version: i16, rest: Seq<u8>)
        requires
            Self::canonical(m, version),
            Self::spec_write_group_instance_id(m, version) is Ok,
        ensures
            Self::spec_read_group_instance_id(written(Self::spec_write_group_instance_id(m, version)) + rest, version) == Ok::<(Option<Seq<u8>>, Seq<u8>), Error>((m.group_instance_id, rest)),
    {
        reveal(MemberIdentity::spec_read_group_instance_id);
        reveal(MemberIdentity::spec_write_group_instance_id);
        if version >= 4 {
            lemma_compact_nullable_string_round_trip(m.group_instance_id, rest);
        } else {
            lemma_nullable_string_round_trip(m.group_instance_id, rest);
        }
    }

    proof fn lemma_round_trip_reason(m: MemberIdentityView, version: i16, rest: Seq<u8>)
        requires
            Self::canonical(m, version),
            Self::spec_write_reason(m, version) is Ok,
        ensures
            Self::spec_read_reason(written(Self::spec_write_reason(m, version)) + rest, version) == Ok::<(Option<Seq<u8>>, Seq<u8>), Error>((m.reason, rest)),
    {
        reveal(MemberIdentity::spec_read_reason);
        reveal(MemberIdentity::spec_write_reason);
        if version >= 5 {
            lemma_compact_nullable_string_round_trip(m.reason, rest);
        } else {
            assert(Seq::<u8>::empty() + rest =~= rest);
        }
    }

    proof fn lemma_round_trip_tags(m: MemberIdentityView, version: i16, rest: Seq<u8>)
        requires
            Self::canonical(m, version),
            Self::spec_write_tags(m, version) is Ok,
        ensures
            Self::spec_read_tags(written(Self::spec_write_tags(m, version)) + rest, version) == Ok::<(Seq<(u32, Seq<u8>)>, Seq<u8>), Error>((m.unknown_tagged_fields, rest)),
    {
        reveal(MemberIdentity::spec_read_tags);
        reveal(MemberIdentity::spec_write_tags);
        if version >= 4 {
            lemma_sorted_by_tag_in_order(m.unknown_tagged_fields);
            lemma_tagged_fields_round_trip(m.unknown_tagged_fields, rest);
        } else {
            assert(Seq::<u8>::empty() + rest =~= rest);
            assert(m.unknown_tagged_fields =~= Seq::empty());
        }
    }

    /// Reading back what writing `m` in `version` appends gives `m` again, and
    /// leaves what follows, for every canonical message whose write succeeds.
    #[verifier::rlimit(80)]
    #[verifier::spinoff_prover]
    pub proof fn lemma_round_trip(m: MemberIdentityView, version: i16, rest: Seq<u8>)
        requires
            Self::canonical(m, version),
            Self::spec_write(m, version) is Ok,
        ensures
            Self::spec_read(written(Self::spec_write(m, version)) + rest, version) == Ok::<(MemberIdentityView, Seq<u8>), Error>((m, rest)),
    {
        let b0 = written(Self::spec_write_member_id(m, version));
        let b1 = written(Self::spec_write_group_instance_id(m, version));
        let b2 = written(Self::spec_write_reason(m, version));
        let b3 = written(Self::spec_write_tags(m, version));
        let t4 = rest;
        let t3 = b3 + t4;
        let t2 = b2 + t3;
        let t1 = b1 + t2;
        let t0 = b0 + t1;
        let w0 = Self::spec_write_member_id(m, version);
        let w1 = chain(w0, Self::spec_write_group_instance_id(m, version));
        let w2 = chain(w1, Self::spec_write_reason(m, version));
        let w3 = chain(w2, Self::spec_write_tags(m, version));
        assert(Self::spec_write(m, version) == w3);
        assert(written(w3) + t4 =~= written(w2) + t3);
        assert(written(w2) + t3 =~= written(w1) + t2);
        assert(written(w1) + t2 =~= written(w0) + t1);
        Self::lemma_round_trip_member_id(m, version, t1);
        Self::lemma_round_trip_group_instance_id(m, version, t2);
        Self::lemma_round_trip_reason(m, version, t3);
        Self::lemma_round_trip_tags(m, version, t4);
    }

    /// In a version that does not carry `unknown_tagged_fields`, writing ignores its value.
    pub proof fn lemma_write_ignores_unknown_tagged_fields(m: MemberIdentityView, value: Seq<(u32, Seq<u8>)>, version: i16)
        requires
            !(version >= 4),
        ensures
            Self::spec_write((MemberIdentityView { unknown_tagged_fields: value, ..m }), version) == Self::spec_write(m, version),
    {
        reveal(MemberIdentity::spec_write_member_id);
        reveal(MemberIdentity::spec_write_group_instance_id);
        reveal(MemberIdentity::spec_write_reason);
        reveal(MemberIdentity::spec_write_tags);
    }

    /// The default message holds the default value of each field of the schema.
    pub proof fn lemma_default_values()
        ensures
            Self::default_view().member_id.len() == 0,
            (Self::default_view().group_instance_id is None),
            (Self::default_view().reason is None),
            Self::default_view().unknown_tagged_fields.len() == 0,
    {
    }

    /// Whether writing `m` in `version` succeeds, said over its parts: the
    /// version is one the schema covers, every field that the version cannot
    /// carry holds its default value, and every string, byte string, array and
    /// tagged field fits its length prefix.
    pub open spec fn writable(m: MemberIdentityView, version: i16) -> bool {
        &&& m.member_id.len() <= 0x7fff
        &&& (m.group_instance_id matches Some(b) ==> b.len() <= 0x7fff)
        &&& (if version >= 5 {
                (m.reason matches Some(b) ==> b.len() <= 0x7fff)
            } else {
                !(m.reason is Some)
        })
        &&& (if version >= 4 {
                m.unknown_tagged_fields.len() <= u32::MAX && tags_fit(m.unknown_tagged_fields)
            } else {
                true
        })
    }

    proof fn lemma_writable_member_id(m: MemberIdentityView, version: i16)
        ensures
            Self::spec_write_member_id(m, version) is Ok <==> m.member_id.len() <= 0x7fff,
    {
        reveal(MemberIdentity::spec_write_member_id);
    }

    proof fn lemma_writable_group_instance_id(m: MemberIdentityView, version: i16)
        ensures
            Self::spec_write_group_instance_id(m, version) is Ok <==> (m.group_instance_id matches Some(b) ==> b.len() <= 0x7fff),
    {
        reveal(MemberIdentity::spec_write_group_instance_id);
    }

    proof fn lemma_writable_reason(m: MemberIdentityView, version: i16)
        ensures
            Self::spec_write_reason(m, version) is Ok <==> (if version >= 5 { (m.reason matches Some(b) ==> b.len() <= 0x7fff) } else { !(m.reason is Some) }),
    {
        reveal(MemberIdentity::spec_write_reason);
    }

    proof fn lemma_writable_tags(m: MemberIdentityView, version: i16)
        ensures
            Self::spec_write_tags(m, version) is Ok <==> (if version >= 4 { m.unknown_tagged_fields.len() <= u32::MAX && tags_fit(m.unknown_tagged_fields) } else { true }),
    {
        reveal(MemberIdentity::spec_write_tags);
        if version >= 4 {
            lemma_sorted_tags_fit(m.unknown_tagged_fields);
            lemma_tagged_fields_writable(sorted_by_tag(m.unknown_tagged_fields));
        }
    }

    /// Writing `m` in `version` succeeds exactly when `m` is writable in it;
    /// so do `write` and `encoded_len`, whose results follow `spec_write`.
    #[verifier::rlimit(54)]
    pub proof fn lemma_writable(m: MemberIdentityView, version: i16)
        ensures
            Self::spec_write(m, version) is Ok <==> Self::writable(m, version),
    {
        Self::lemma_writable_member_id(m, version);
        Self::lemma_writable_group_instance_id(m, version);
        Self::lemma_writable_reason(m, version);
        Self::lemma_writable_tags(m, version);
    }

    pub fn with_member_id(self, value: KafkaString) -> (r: Self)
        ensures
            r@ == (MemberIdentityView { member_id: value@, ..self@ }),
    {
        let mut r = self;
        r.member_id = value;
        r
    }

    pub fn with_group_instance_id(self, value: Option<KafkaString>) -> (r: Self)
        ensures
            r@ == (MemberIdentityView { group_instance_id: opt_view(value), ..self@ }),
    {
        let mut r = self;
        r.group_instance_id = value;
        r
    }

    pub fn with_reason(self, value: Option<KafkaString>) -> (r: Self)
        ensures
            r@ == (MemberIdentityView { reason: opt_view(value), ..self@ }),
    {
        let mut r = self;
        r.reason = value;
        r
    }

    fn read_member_id(buf: &mut Bytes, version: i16) -> (r: Result<KafkaString, Error>)
        ensures
            read_as(Self::spec_read_member_id(bytes_seq(*old(buf)), version), *final(buf), r),
            took_front(*old(buf), *final(buf)),
    {
        proof {
            reveal(MemberIdentity::spec_read_member_id);
        }
        Ok(if version >= 4 {
                read_compact_string(buf)?
            } else {
                read_string(buf)?
        })
    }

    fn read_group_instance_id(buf: &mut Bytes, version: i16) -> (r: Result<Option<KafkaString>, Error>)
        ensures
            read_opt_as(Self::spec_read_group_instance_id(bytes_seq(*old(buf)), version), *final(buf), r),
            took_front(*old(buf), *final(buf)),
    {
        proof {
            reveal(MemberIdentity::spec_read_group_instance_id);
        }
        Ok(if version >= 4 {
                read_compact_nullable_string(buf)?
            } else {
                read_nullable_string(buf)?
        })
    }

    fn read_reason(buf: &mut Bytes, version: i16) -> (r: Result<Option<KafkaString>, Error>)
        ensures
            read_opt_as(Self::spec_read_reason(bytes_seq(*old(buf)), version), *final(buf), r),
            took_front(*old(buf), *final(buf)),
    {
        proof {
            reveal(MemberIdentity::spec_read_reason);
        }
        Ok(if version >= 5 {
                read_compact_nullable_string(buf)?
            } else {
                None
        })
    }

    fn read_tags(buf: &mut Bytes, version: i16) -> (r: Result<Vec<RawTaggedField>, Error>)
        ensures
            read_vec_as(Self::spec_read_tags(bytes_seq(*old(buf)), version), *final(buf), r),
            took_front(*old(buf), *final(buf)),
    {
        proof {
            reveal(MemberIdentity::spec_read_tags);
        }
        Ok(if version >= 4 {
                read_tagged_fields(buf)?
            } else {
                empty_vec()
        })
    }

    pub fn read(buf: &mut Bytes, version: i16) -> (r: Result<Self, Error>)
        ensures
            read_as(Self::spec_read(bytes_seq(*old(buf)), version), *final(buf), r),
            took_front(*old(buf), *final(buf)),
    {
        let member_id = Self::read_member_id(buf, version)?;
        let group_instance_id = Self::read_group_instance_id(buf, version)?;
        let reason = Self::read_reason(buf, version)?;
        let _unknown_tagged_fields = Self::read_tags(buf, version)?;
        Ok(MemberIdentity {
                member_id: member_id,
                group_instance_id: group_instance_id,
                reason: reason,
                _unknown_tagged_fields: _unknown_tagged_fields,
        })
    }

    #[verifier::rlimit(70)]
    pub fn write(&self, buf: &mut BytesMut, version: i16) -> (r: Result<(), Error>)
        requires
            has_room(Self::spec_write(self@, version), *old(buf)),
        ensures
            wrote(Self::spec_write(self@, version), *old(buf), *final(buf), r),
    {
        let ghost m = self@;
        proof {
            reveal(MemberIdentity::spec_write_member_id);
            reveal(MemberIdentity::spec_write_group_instance_id);
            reveal(MemberIdentity::spec_write_reason);
            reveal(MemberIdentity::spec_write_tags);
        }
        let ghost s0 = Self::spec_write_member_id(m, version);
        let ghost w0 = s0;
        let ghost s1 = Self::spec_write_group_instance_id(m, version);
        let ghost w1 = chain(w0, s1);
        let ghost s2 = Self::spec_write_reason(m, version);
        let ghost w2 = chain(w1, s2);
        let ghost s3 = Self::spec_write_tags(m, version);
        let ghost w3 = chain(w2, s3);
        assert(Self::spec_write(m, version) == w3);
        assert(written(w2).len() <= written(w3).len() && (w2 is Err ==> w3 == w2));
        assert(written(w1).len() <= written(w3).len() && (w1 is Err ==> w3 == w1));
        assert(written(w0).len() <= written(w3).len() && (w0 is Err ==> w3 == w0));
        let ghost mid = bytes_mut_seq(*buf);
        proof {
            lemma_append_empty(mid);
        }
        let r0 = if version >= 4 {
            write_compact_string(buf, &self.member_id)
        } else {
            write_string(buf, &self.member_id)
        };
        assert(bytes_mut_seq(*buf) == mid + written(s0));
        if r0.is_err() {
            return r0;
        }
        let ghost mid = bytes_mut_seq(*buf);
        proof {
            lemma_append_empty(mid);
        }
        let r1 = if version >= 4 {
            write_compact_nullable_string(buf, &self.group_instance_id)
        } else {
            write_nullable_string(buf, &self.group_instance_id)
        };
        assert(bytes_mut_seq(*buf) == mid + written(s1));
        proof {
            lemma_step(bytes_mut_seq(*old(buf)), w0, s1);
        }
        if r1.is_err() {
            return r1;
        }
        let ghost mid = bytes_mut_seq(*buf);
        proof {
            lemma_append_empty(mid);
        }
        let r2 = if version >= 5 {
            write_compact_nullable_string(buf, &self.reason)
        } else {
            if self.reason.is_some() {
                Err(Error::UnsupportedFieldVersion(UnsupportedFieldVersion::new(13, "reason", version)))
            } else {
                Ok(())
            }
        };
        assert(bytes_mut_seq(*buf) == mid + written(s2));
        proof {
            lemma_step(bytes_mut_seq(*old(buf)), w1, s2);
        }
        if r2.is_err() {
            return r2;
        }
        let ghost mid = bytes_mut_seq(*buf);
        proof {
            lemma_append_empty(mid);
        }
        let r3 = if version >= 4 {
            write_tagged_fields(buf, &sort_by_tag(&self._unknown_tagged_fields))
        } else {
            Ok(())
        };
        assert(bytes_mut_seq(*buf) == mid + written(s3));
        proof {
            lemma_step(bytes_mut_seq(*old(buf)), w2, s3);
        }
        if r3.is_err() {
            return r3;
        }
        Ok(())
    }

    #[verifier::rlimit(70)]
    pub fn encoded_len(&self, version: i16) -> (r: Result<usize, Error>)
        ensures
            r == len_result(Self::spec_write(self@, version)),
    {
        let ghost m = self@;
        proof {
            reveal(MemberIdentity::spec_write_member_id);
            reveal(MemberIdentity::spec_write_group_instance_id);
            reveal(MemberIdentity::spec_write_reason);
            reveal(MemberIdentity::spec_write_tags);
        }
        let ghost s0 = Self::spec_write_member_id(m, version);
        let ghost w0 = s0;
        let ghost s1 = Self::spec_write_group_instance_id(m, version);
        let ghost w1 = chain(w0, s1);
        let ghost s2 = Self::spec_write_reason(m, version);
        let ghost w2 = chain(w1, s2);
        let ghost s3 = Self::spec_write_tags(m, version);
        let ghost w3 = chain(w2, s3);
        assert(Self::spec_write(m, version) == w3);
        assert(w2 is Err ==> w3 == w2);
        assert(w1 is Err ==> w3 == w1);
        assert(w0 is Err ==> w3 == w0);
        let mut len: usize = 0;
        let l0 = if version >= 4 {
            compact_string_len(&self.member_id)
        } else {
            string_len(&self.member_id)
        };
        assert(l0 == len_result(s0));
        let n0 = match l0 {
            Ok(n) => n,
            Err(e) => {
                return Err(e);
            },
        };
        len = saturating_sum(len, n0);
        assert(w0 is Ok && len == saturate(written(w0).len() as int));
        let l1 = if version >= 4 {
            compact_nullable_string_len(&self.group_instance_id)
        } else {
            nullable_string_len(&self.group_instance_id)
        };
        assert(l1 == len_result(s1));
        let n1 = match l1 {
            Ok(n) => n,
            Err(e) => {
                return Err(e);
            },
        };
        proof {
            lemma_len_step(w0, s1, n1);
        }
        len = saturating_sum(len, n1);
        assert(w1 is Ok && len == saturate(written(w1).len() as int));
        let l2 = if version >= 5 {
            compact_nullable_string_len(&self.reason)
        } else {
            if self.reason.is_some() {
                Err(Error::UnsupportedFieldVersion(UnsupportedFieldVersion::new(13, "reason", version)))
            } else {
                Ok(0)
            }
        };
        assert(l2 == len_result(s2));
        let n2 = match l2 {
            Ok(n) => n,
            Err(e) => {
                return Err(e);
            },
        };
        proof {
            lemma_len_step(w1, s2, n2);
        }
        len = saturating_sum(len, n2);
        assert(w2 is Ok && len == saturate(written(w2).len() as int));
        let l3 = if version >= 4 {
            tagged_fields_len(&sort_by_tag(&self._unknown_tagged_fields))
        } else {
            Ok(0)
        };
        assert(l3 == len_result(s3));
        let n3 = match l3 {
            Ok(n) => n,
            Err(e) => {
                return Err(e);
            },
        };
        proof {
            lemma_len_step(w2, s3, n3);
        }
        len = saturating_sum(len, n3);
        assert(w3 is Ok && len == saturate(written(w3).len() as int));
        Ok(len)
    }
}

impl Codec for MemberIdentity {
    type Item = MemberIdentity;

    open spec fn spec_read_item(s: Seq<u8>, version: i16) -> ReadOutcome<MemberIdentityView> {
        MemberIdentity::spec_read(s, version)
    }

    open spec fn spec_write_item(v: MemberIdentityView, version: i16) -> WriteOutcome {
        MemberIdentity::spec_write(v, version)
    }

    open spec fn canonical_item(v: MemberIdentityView, version: i16) -> bool {
        MemberIdentity::canonical(v, version)
    }

    proof fn lemma_item_round_trip(v: MemberIdentityView, version: i16, rest: Seq<u8>) {
        MemberIdentity::lemma_round_trip(v, version, rest);
    }

    open spec fn writable_item(v: MemberIdentityView, version: i16) -> bool {
        MemberIdentity::writable(v, version)
    }

    proof fn lemma_item_writable(v: MemberIdentityView, version: i16) {
        MemberIdentity::lemma_writable(v, version);
    }

    fn read_item(buf: &mut Bytes, version: i16) -> (r: Result<MemberIdentity, Error>) {
        MemberIdentity::read(buf, version)
    }

    fn write_item(item: &MemberIdentity, buf: &mut BytesMut, version: i16) -> (r: Result<(), Error>) {
        item.write(buf, version)
    }
}

impl MeasuredCodec for MemberIdentity {
    fn item_len(item: &MemberIdentity, version: i16) -> (r: Result<usize, Error>) {
        item.encoded_len(version)
    }
}

} // verus!
