//! The join group response message.
use crate::buffer::{bytes_empty, bytes_mut_seq, bytes_seq};
use crate::codec::{Codec, all_canonical, all_writable, lemma_array_round_trip, lemma_array_writable, read_array, spec_read_array, spec_write_array, write_array};
use crate::error::{Error, UnsupportedVersion};
use crate::ints::{lemma_bool_roundtrip, lemma_i16_roundtrip, lemma_i32_roundtrip, read_bool, read_i16, read_i32, spec_read_bool, spec_read_i16, spec_read_i32, spec_write_bool, spec_write_i16, spec_write_i32, u16_bytes, u32_bytes, write_bool, write_i16, write_i32};
use crate::strings::{lemma_bytes_round_trip, lemma_compact_bytes_round_trip, lemma_compact_nullable_string_round_trip, lemma_compact_string_round_trip, lemma_nullable_string_round_trip, lemma_string_round_trip, read_bytes, read_compact_bytes, read_compact_nullable_string, read_compact_string, read_nullable_string, read_string, spec_read_bytes, spec_read_compact_bytes, spec_read_compact_nullable_string, spec_read_compact_string, spec_read_nullable_string, spec_read_string, spec_write_bytes, spec_write_compact_bytes, spec_write_compact_nullable_string, spec_write_compact_string, spec_write_nullable_string, spec_write_string, write_bytes, write_compact_bytes, write_compact_nullable_string, write_compact_string, write_nullable_string, write_string};
use crate::tagged::{lemma_sorted_by_tag_in_order, lemma_sorted_tags_fit, lemma_tagged_fields_round_trip, lemma_tagged_fields_writable, read_tagged_fields, sort_by_tag, sorted_by_tag, spec_read_tagged_fields, spec_write_tagged_fields, tags_fit, tags_in_order, write_tagged_fields};
use crate::types::{KafkaString, RawTaggedField};
use crate::wire::{ReadOutcome, ViewClone, WriteOutcome, chain, clone_vec, emit, empty_vec, fail, has_room, lemma_append_empty, lemma_chain_written, lemma_step, opt_view, read_as, read_bytes_as, read_opt_as, read_vec_as, some_of, took_front, unwrap_or_empty, views, written, wrote};
use bytes::{Bytes, BytesMut};
use vstd::prelude::*;

verus! {

broadcast use {crate::wire::lemma_chain_written, crate::wire::lemma_took_front_nothing, crate::wire::lemma_took_front_twice};

#[derive(Debug, PartialEq)]
pub struct JoinGroupResponseData {
    /// The duration in milliseconds for which the request was throttled due to a quota violation,
    /// or zero if the request did not violate any quota.
    pub throttle_time_ms: i32,
    /// The error code, or 0 if there was no error.
    pub error_code: i16,
    /// The generation ID of the group.
    pub generation_id: i32,
    /// The group protocol name.
    pub protocol_type: Option<KafkaString>,
    /// The group protocol selected by the coordinator.
    pub protocol_name: Option<KafkaString>,
    /// The leader of the group.
    pub leader: KafkaString,
    /// True if the leader must skip running the assignment.
    pub skip_assignment: bool,
    /// The member ID assigned by the group coordinator.
    pub member_id: KafkaString,
    /// The group members.
    pub members: Vec<JoinGroupResponseMember>,
    pub _unknown_tagged_fields: Vec<RawTaggedField>,
}

/// What a `JoinGroupResponseData` holds, as the specification sees it.
#[verifier::ext_equal]
pub struct JoinGroupResponseDataView {
    pub throttle_time_ms: i32,
    pub error_code: i16,
    pub generation_id: i32,
    pub protocol_type: Option<Seq<u8>>,
    pub protocol_name: Option<Seq<u8>>,
    pub leader: Seq<u8>,
    pub skip_assignment: bool,
    pub member_id: Seq<u8>,
    pub members: Seq<JoinGroupResponseMemberView>,
    pub unknown_tagged_fields: Seq<(u32, Seq<u8>)>,
}

impl View for JoinGroupResponseData {
    type V = JoinGroupResponseDataView;

    open spec fn view(&self) -> JoinGroupResponseDataView {
        JoinGroupResponseDataView {
            throttle_time_ms: self.throttle_time_ms,
            error_code: self.error_code,
            generation_id: self.generation_id,
            protocol_type: opt_view(self.protocol_type),
            protocol_name: opt_view(self.protocol_name),
            leader: self.leader@,
            skip_assignment: self.skip_assignment,
            member_id: self.member_id@,
            members: views(self.members@),
            unknown_tagged_fields: views(self._unknown_tagged_fields@),
        }
    }
}

impl Clone for JoinGroupResponseData {
    fn clone(&self) -> (r: Self)
        ensures
            r@ == self@,
    {
        let r = JoinGroupResponseData {
            throttle_time_ms: self.throttle_time_ms,
            error_code: self.error_code,
            generation_id: self.generation_id,
            protocol_type: match &self.protocol_type {
                Some(x) => Some(x.clone()),
                None => None,
            },
            protocol_name: match &self.protocol_name {
                Some(x) => Some(x.clone()),
                None => None,
            },
            leader: self.leader.clone(),
            skip_assignment: self.skip_assignment,
            member_id: self.member_id.clone(),
            members: clone_vec(&self.members),
            _unknown_tagged_fields: clone_vec(&self._unknown_tagged_fields),
        };
        assert(r@ =~= self@);
        r
    }
}

impl ViewClone for JoinGroupResponseData {
    fn clone_view(&self) -> (r: Self) {
        self.clone()
    }
}

impl Default for JoinGroupResponseData {
    fn default() -> (r: Self)
        ensures
            r@ == Self::default_view(),
    {
        let r = JoinGroupResponseData {
            throttle_time_ms: 0_i32,
            error_code: 0_i16,
            generation_id: -1i32,
            protocol_type: None,
            protocol_name: None,
            leader: KafkaString::default(),
            skip_assignment: false,
            member_id: KafkaString::default(),
            members: empty_vec(),
            _unknown_tagged_fields: empty_vec(),
        };
        assert(r@ =~= Self::default_view());
        r
    }
}

impl JoinGroupResponseData {
    pub open spec fn default_view() -> JoinGroupResponseDataView {
        JoinGroupResponseDataView {
            throttle_time_ms: 0_i32,
            error_code: 0_i16,
            generation_id: -1i32,
            protocol_type: None,
            protocol_name: None,
            leader: Seq::empty(),
            skip_assignment: false,
            member_id: Seq::empty(),
            members: Seq::empty(),
            unknown_tagged_fields: Seq::empty(),
        }
    }

    /// The `throttle_time_ms` field, read from the front of `s`.
    #[verifier::opaque]
    pub open spec fn spec_read_throttle_time_ms(s: Seq<u8>, version: i16) -> ReadOutcome<i32> {
        if version >= 2 {
            spec_read_i32(s)
        } else {
            Ok((0_i32, s))
        }
    }

    /// The `error_code` field, read from the front of `s`.
    #[verifier::opaque]
    pub open spec fn spec_read_error_code(s: Seq<u8>, version: i16) -> ReadOutcome<i16> {
        spec_read_i16(s)
    }

    /// The `generation_id` field, read from the front of `s`.
    #[verifier::opaque]
    pub open spec fn spec_read_generation_id(s: Seq<u8>, version: i16) -> ReadOutcome<i32> {
        spec_read_i32(s)
    }

    /// The `protocol_type` field, read from the front of `s`.
    #[verifier::opaque]
    pub open spec fn spec_read_protocol_type(s: Seq<u8>, version: i16) -> ReadOutcome<Option<Seq<u8>>> {
        if version >= 7 {
            spec_read_compact_nullable_string(s)
        } else {
            Ok((None, s))
        }
    }

    /// The `protocol_name` field, read from the front of `s`.
    #[verifier::opaque]
    pub open spec fn spec_read_protocol_name(s: Seq<u8>, version: i16) -> ReadOutcome<Option<Seq<u8>>> {
        if version >= 7 {
            spec_read_compact_nullable_string(s)
        } else {
            if version >= 6 {
                some_of(spec_read_compact_string(s))
            } else {
                some_of(spec_read_string(s))
            }
        }
    }

    /// The `leader` field, read from the front of `s`.
    #[verifier::opaque]
    pub open spec fn spec_read_leader(s: Seq<u8>, version: i16) -> ReadOutcome<Seq<u8>> {
        if version >= 6 {
            spec_read_compact_string(s)
        } else {
            spec_read_string(s)
        }
    }

    /// The `skip_assignment` field, read from the front of `s`.
    #[verifier::opaque]
    pub open spec fn spec_read_skip_assignment(s: Seq<u8>, version: i16) -> ReadOutcome<bool> {
        if version >= 9 {
            spec_read_bool(s)
        } else {
            Ok((false, s))
        }
    }

    /// The `member_id` field, read from the front of `s`.
    #[verifier::opaque]
    pub open spec fn spec_read_member_id(s: Seq<u8>, version: i16) -> ReadOutcome<Seq<u8>> {
        if version >= 6 {
            spec_read_compact_string(s)
        } else {
            spec_read_string(s)
        }
    }

    /// The `members` field, read from the front of `s`.
    #[verifier::opaque]
    pub open spec fn spec_read_members(s: Seq<u8>, version: i16) -> ReadOutcome<Seq<JoinGroupResponseMemberView>> {
        if version >= 6 {
            spec_read_array::<JoinGroupResponseMember>(s, version, true)
        } else {
            spec_read_array::<JoinGroupResponseMember>(s, version, false)
        }
    }

    /// The tagged fields, read from the front of `s`.
    #[verifier::opaque]
    pub open spec fn spec_read_tags(s: Seq<u8>, version: i16) -> ReadOutcome<Seq<(u32, Seq<u8>)>> {
        if version >= 6 {
            spec_read_tagged_fields(s)
        } else {
            Ok((Seq::empty(), s))
        }
    }

    pub open spec fn spec_read(s: Seq<u8>, version: i16) -> ReadOutcome<JoinGroupResponseDataView> {
        if version < 0 || version > 9 {
            Err(Error::UnsupportedVersion(UnsupportedVersion { api_key: 11, version }))
        } else {
            match (Self::spec_read_throttle_time_ms(s, version)) {
                Err(e) => Err(e),
                Ok((throttle_time_ms, s)) => match (Self::spec_read_error_code(s, version)) {
                    Err(e) => Err(e),
                    Ok((error_code, s)) => match (Self::spec_read_generation_id(s, version)) {
                        Err(e) => Err(e),
                        Ok((generation_id, s)) => match (Self::spec_read_protocol_type(s, version)) {
                            Err(e) => Err(e),
                            Ok((protocol_type, s)) => match (Self::spec_read_protocol_name(s, version)) {
                                Err(e) => Err(e),
                                Ok((protocol_name, s)) => match (Self::spec_read_leader(s, version)) {
                                    Err(e) => Err(e),
                                    Ok((leader, s)) => match (Self::spec_read_skip_assignment(s, version)) {
                                        Err(e) => Err(e),
                                        Ok((skip_assignment, s)) => match (Self::spec_read_member_id(s, version)) {
                                            Err(e) => Err(e),
                                            Ok((member_id, s)) => match (Self::spec_read_members(s, version)) {
                                                Err(e) => Err(e),
                                                Ok((members, s)) => match (Self::spec_read_tags(s, version)) {
                                                    Err(e) => Err(e),
                                                    Ok((unknown_tagged_fields, s)) => Ok((JoinGroupResponseDataView {
                                                                throttle_time_ms: throttle_time_ms,
                                                                error_code: error_code,
                                                                generation_id: generation_id,
                                                                protocol_type: protocol_type,
                                                                protocol_name: protocol_name,
                                                                leader: leader,
                                                                skip_assignment: skip_assignment,
                                                                member_id: member_id,
                                                                members: members,
                                                                unknown_tagged_fields: unknown_tagged_fields,
                                                            }, s)),
                                                },
                                            },
                                        },
                                    },
                                },
                            },
                        },
                    },
                },
            }
        }
    }

    /// What writing the `throttle_time_ms` field of `m` appends.
    #[verifier::opaque]
    pub open spec fn spec_write_throttle_time_ms(m: JoinGroupResponseDataView, version: i16) -> WriteOutcome {
        if version >= 2 {
            spec_write_i32(m.throttle_time_ms)
        } else {
            emit(Seq::empty())
        }
    }

    /// What writing the `error_code` field of `m` appends.
    #[verifier::opaque]
    pub open spec fn spec_write_error_code(m: JoinGroupResponseDataView, version: i16) -> WriteOutcome {
        spec_write_i16(m.error_code)
    }

    /// What writing the `generation_id` field of `m` appends.
    #[verifier::opaque]
    pub open spec fn spec_write_generation_id(m: JoinGroupResponseDataView, version: i16) -> WriteOutcome {
        spec_write_i32(m.generation_id)
    }

    /// What writing the `protocol_type` field of `m` appends.
    #[verifier::opaque]
    pub open spec fn spec_write_protocol_type(m: JoinGroupResponseDataView, version: i16) -> WriteOutcome {
        if version >= 7 {
            spec_write_compact_nullable_string(m.protocol_type)
        } else {
            emit(Seq::empty())
        }
    }

    /// What writing the `protocol_name` field of `m` appends.
    #[verifier::opaque]
    pub open spec fn spec_write_protocol_name(m: JoinGroupResponseDataView, version: i16) -> WriteOutcome {
        if version >= 7 {
            spec_write_compact_nullable_string(m.protocol_name)
        } else {
            if version >= 6 {
                spec_write_compact_string(unwrap_or_empty(m.protocol_name))
            } else {
                spec_write_string(unwrap_or_empty(m.protocol_name))
            }
        }
    }

    /// What writing the `leader` field of `m` appends.
    #[verifier::opaque]
    pub open spec fn spec_write_leader(m: JoinGroupResponseDataView, version: i16) -> WriteOutcome {
        if version >= 6 {
            spec_write_compact_string(m.leader)
        } else {
            spec_write_string(m.leader)
        }
    }

    /// What writing the `skip_assignment` field of `m` appends.
    #[verifier::opaque]
    pub open spec fn spec_write_skip_assignment(m: JoinGroupResponseDataView, version: i16) -> WriteOutcome {
        if version >= 9 {
            spec_write_bool(m.skip_assignment)
        } else {
            emit(Seq::empty())
        }
    }

    /// What writing the `member_id` field of `m` appends.
    #[verifier::opaque]
    pub open spec fn spec_write_member_id(m: JoinGroupResponseDataView, version: i16) -> WriteOutcome {
        if version >= 6 {
            spec_write_compact_string(m.member_id)
        } else {
            spec_write_string(m.member_id)
        }
    }

    /// What writing the `members` field of `m` appends.
    #[verifier::opaque]
    pub open spec fn spec_write_members(m: JoinGroupResponseDataView, version: i16) -> WriteOutcome {
        if version >= 6 {
            spec_write_array::<JoinGroupResponseMember>(m.members, version, true)
        } else {
            spec_write_array::<JoinGroupResponseMember>(m.members, version, false)
        }
    }

    /// What writing the tagged fields of `m` appends.
    #[verifier::opaque]
    pub open spec fn spec_write_tags(m: JoinGroupResponseDataView, version: i16) -> WriteOutcome {
        if version >= 6 {
            spec_write_tagged_fields(sorted_by_tag(m.unknown_tagged_fields))
        } else {
            emit(Seq::empty())
        }
    }

    pub open spec fn spec_write(m: JoinGroupResponseDataView, version: i16) -> WriteOutcome {
        if version < 0 || version > 9 {
            fail(Error::UnsupportedVersion(UnsupportedVersion { api_key: 11, version }))
        } else {
            chain(
                chain(
                    chain(
                        chain(
                            chain(
                                chain(
                                    chain(
                                        chain(
                                            chain(
                                                Self::spec_write_throttle_time_ms(m, version),
                                                Self::spec_write_error_code(m, version),
                                            ),
                                            Self::spec_write_generation_id(m, version),
                                        ),
                                        Self::spec_write_protocol_type(m, version),
                                    ),
                                    Self::spec_write_protocol_name(m, version),
                                ),
                                Self::spec_write_leader(m, version),
                            ),
                            Self::spec_write_skip_assignment(m, version),
                        ),
                        Self::spec_write_member_id(m, version),
                    ),
                    Self::spec_write_members(m, version),
                ),
                Self::spec_write_tags(m, version),
            )
        }
    }

    /// Whether reading back what writing `m` in `version` appends gives `m`:
    /// fields that the version does not carry hold their default values, and
    /// tagged fields come in the order in which they are written.
    pub open spec fn canonical(m: JoinGroupResponseDataView, version: i16) -> bool {
        &&& (if version >= 2 {
                true
            } else {
                m.throttle_time_ms == 0_i32
        })
        &&& (if version >= 7 {
                true
            } else {
                m.protocol_type is None
        })
        &&& (if version >= 7 {
                true
            } else {
                m.protocol_name is Some
        })
        &&& (if version >= 9 {
                true
            } else {
                m.skip_assignment == false
        })
        &&& all_canonical::<JoinGroupResponseMember>(m.members, version)
        &&& (if version >= 6 {
                tags_in_order(m.unknown_tagged_fields)
            } else {
                m.unknown_tagged_fields.len() == 0
        })
    }

    proof fn lemma_round_trip_throttle_time_ms(m: JoinGroupResponseDataView, version: i16, rest: Seq<u8>)
        requires
            Self::canonical(m, version),
            Self::spec_write_throttle_time_ms(m, version) is Ok,
        ensures
            Self::spec_read_throttle_time_ms(written(Self::spec_write_throttle_time_ms(m, version)) + rest, version) == Ok::<(i32, Seq<u8>), Error>((m.throttle_time_ms, rest)),
    {
        reveal(JoinGroupResponseData::spec_read_throttle_time_ms);
        reveal(JoinGroupResponseData::spec_write_throttle_time_ms);
        if version >= 2 {
            lemma_i32_roundtrip(m.throttle_time_ms, rest);
        } else {
            assert(Seq::<u8>::empty() + rest =~= rest);
        }
    }

    proof fn lemma_round_trip_error_code(m: JoinGroupResponseDataView, version: i16, rest: Seq<u8>)
        requires
            Self::canonical(m, version),
            Self::spec_write_error_code(m, version) is Ok,
        ensures
            Self::spec_read_error_code(written(Self::spec_write_error_code(m, version)) + rest, version) == Ok::<(i16, Seq<u8>), Error>((m.error_code, rest)),
    {
        reveal(JoinGroupResponseData::spec_read_error_code);
        reveal(JoinGroupResponseData::spec_write_error_code);
        lemma_i16_roundtrip(m.error_code, rest);
    }

    proof fn lemma_round_trip_generation_id(m: JoinGroupResponseDataView, version: i16, rest: Seq<u8>)
        requires
            Self::canonical(m, version),
            Self::spec_write_generation_id(m, version) is Ok,
        ensures
            Self::spec_read_generation_id(written(Self::spec_write_generation_id(m, version)) + rest, version) == Ok::<(i32, Seq<u8>), Error>((m.generation_id, rest)),
    {
        reveal(JoinGroupResponseData::spec_read_generation_id);
        reveal(JoinGroupResponseData::spec_write_generation_id);
        lemma_i32_roundtrip(m.generation_id, rest);
    }

    proof fn lemma_round_trip_protocol_type(m: JoinGroupResponseDataView, version: i16, rest: Seq<u8>)
        requires
            Self::canonical(m, version),
            Self::spec_write_protocol_type(m, version) is Ok,
        ensures
            Self::spec_read_protocol_type(written(Self::spec_write_protocol_type(m, version)) + rest, version) == Ok::<(Option<Seq<u8>>, Seq<u8>), Error>((m.protocol_type, rest)),
    {
        reveal(JoinGroupResponseData::spec_read_protocol_type);
        reveal(JoinGroupResponseData::spec_write_protocol_type);
        if version >= 7 {
            lemma_compact_nullable_string_round_trip(m.protocol_type, rest);
        } else {
            assert(Seq::<u8>::empty() + rest =~= rest);
        }
    }

    proof fn lemma_round_trip_protocol_name(m: JoinGroupResponseDataView, version: i16, rest: Seq<u8>)
        requires
            Self::canonical(m, version),
            Self::spec_write_protocol_name(m, version) is Ok,
        ensures
            Self::spec_read_protocol_name(written(Self::spec_write_protocol_name(m, version)) + rest, version) == Ok::<(Option<Seq<u8>>, Seq<u8>), Error>((m.protocol_name, rest)),
    {
        reveal(JoinGroupResponseData::spec_read_protocol_name);
        reveal(JoinGroupResponseData::spec_write_protocol_name);
        if version >= 7 {
            lemma_compact_nullable_string_round_trip(m.protocol_name, rest);
        } else {
            if version >= 6 {
                lemma_compact_string_round_trip(unwrap_or_empty(m.protocol_name), rest);
            } else {
                lemma_string_round_trip(unwrap_or_empty(m.protocol_name), rest);
            }
        }
    }

    proof fn lemma_round_trip_leader(m: JoinGroupResponseDataView, version: i16, rest: Seq<u8>)
        requires
            Self::canonical(m, version),
            Self::spec_write_leader(m, version) is Ok,
        ensures
            Self::spec_read_leader(written(Self::spec_write_leader(m, version)) + rest, version) == Ok::<(Seq<u8>, Seq<u8>), Error>((m.leader, rest)),
    {
        reveal(JoinGroupResponseData::spec_read_leader);
        reveal(JoinGroupResponseData::spec_write_leader);
        if version >= 6 {
            lemma_compact_string_round_trip(m.leader, rest);
        } else {
            lemma_string_round_trip(m.leader, rest);
        }
    }

    proof fn lemma_round_trip_skip_assignment(m: JoinGroupResponseDataView, version: i16, rest: Seq<u8>)
        requires
            Self::canonical(m, version),
            Self::spec_write_skip_assignment(m, version) is Ok,
        ensures
            Self::spec_read_skip_assignment(written(Self::spec_write_skip_assignment(m, version)) + rest, version) == Ok::<(bool, Seq<u8>), Error>((m.skip_assignment, rest)),
    {
        reveal(JoinGroupResponseData::spec_read_skip_assignment);
        reveal(JoinGroupResponseData::spec_write_skip_assignment);
        if version >= 9 {
            lemma_bool_roundtrip(m.skip_assignment, rest);
        } else {
            assert(Seq::<u8>::empty() + rest =~= rest);
        }
    }

    proof fn lemma_round_trip_member_id(m: JoinGroupResponseDataView, version: i16, rest: Seq<u8>)
        requires
            Self::canonical(m, version),
            Self::spec_write_member_id(m, version) is Ok,
        ensures
            Self::spec_read_member_id(written(Self::spec_write_member_id(m, version)) + rest, version) == Ok::<(Seq<u8>, Seq<u8>), Error>((m.member_id, rest)),
    {
        reveal(JoinGroupResponseData::spec_read_member_id);
        reveal(JoinGroupResponseData::spec_write_member_id);
        if version >= 6 {
            lemma_compact_string_round_trip(m.member_id, rest);
        } else {
            lemma_string_round_trip(m.member_id, rest);
        }
    }

    proof fn lemma_round_trip_members(m: JoinGroupResponseDataView, version: i16, rest: Seq<u8>)
        requires
            Self::canonical(m, version),
            Self::spec_write_members(m, version) is Ok,
        ensures
            Self::spec_read_members(written(Self::spec_write_members(m, version)) + rest, version) == Ok::<(Seq<JoinGroupResponseMemberView>, Seq<u8>), Error>((m.members, rest)),
    {
        reveal(JoinGroupResponseData::spec_read_members);
        reveal(JoinGroupResponseData::spec_write_members);
        if version >= 6 {
            lemma_array_round_trip::<JoinGroupResponseMember>(m.members, version, true, rest);
        } else {
            lemma_array_round_trip::<JoinGroupResponseMember>(m.members, version, false, rest);
        }
    }

    proof fn lemma_round_trip_tags(m: JoinGroupResponseDataView, version: i16, rest: Seq<u8>)
        requires
            Self::canonical(m, version),
            Self::spec_write_tags(m, version) is Ok,
        ensures
            Self::spec_read_tags(written(Self::spec_write_tags(m, version)) + rest, version) == Ok::<(Seq<(u32, Seq<u8>)>, Seq<u8>), Error>((m.unknown_tagged_fields, rest)),
    {
        reveal(JoinGroupResponseData::spec_read_tags);
        reveal(JoinGroupResponseData::spec_write_tags);
        if version >= 6 {
            lemma_sorted_by_tag_in_order(m.unknown_tagged_fields);
            lemma_tagged_fields_round_trip(m.unknown_tagged_fields, rest);
        } else {
            assert(Seq::<u8>::empty() + rest =~= rest);
            assert(m.unknown_tagged_fields =~= Seq::empty());
        }
    }

    /// Reading back what writing `m` in `version` appends gives `m` again, and
    /// leaves what follows, for every canonical message whose write succeeds.
    #[verifier::rlimit(100)]
    #[verifier::spinoff_prover]
    pub proof fn lemma_round_trip(m: JoinGroupResponseDataView, version: i16, rest: Seq<u8>)
        requires
            Self::canonical(m, version),
            Self::spec_write(m, version) is Ok,
        ensures
            Self::spec_read(written(Self::spec_write(m, version)) + rest, version) == Ok::<(JoinGroupResponseDataView, Seq<u8>), Error>((m, rest)),
    {
        let b0 = written(Self::spec_write_throttle_time_ms(m, version));
        let b1 = written(Self::spec_write_error_code(m, version));
        let b2 = written(Self::spec_write_generation_id(m, version));
        let b3 = written(Self::spec_write_protocol_type(m, version));
        let b4 = written(Self::spec_write_protocol_name(m, version));
        let b5 = written(Self::spec_write_leader(m, version));
        let b6 = written(Self::spec_write_skip_assignment(m, version));
        let b7 = written(Self::spec_write_member_id(m, version));
        let b8 = written(Self::spec_write_members(m, version));
        let b9 = written(Self::spec_write_tags(m, version));
        let t10 = rest;
        let t9 = b9 + t10;
        let t8 = b8 + t9;
        let t7 = b7 + t8;
        let t6 = b6 + t7;
        let t5 = b5 + t6;
        let t4 = b4 + t5;
        let t3 = b3 + t4;
        let t2 = b2 + t3;
        let t1 = b1 + t2;
        let t0 = b0 + t1;
        let w0 = Self::spec_write_throttle_time_ms(m, version);
        let w1 = chain(w0, Self::spec_write_error_code(m, version));
        let w2 = chain(w1, Self::spec_write_generation_id(m, version));
        let w3 = chain(w2, Self::spec_write_protocol_type(m, version));
        let w4 = chain(w3, Self::spec_write_protocol_name(m, version));
        let w5 = chain(w4, Self::spec_write_leader(m, version));
        let w6 = chain(w5, Self::spec_write_skip_assignment(m, version));
        let w7 = chain(w6, Self::spec_write_member_id(m, version));
        let w8 = chain(w7, Self::spec_write_members(m, version));
        let w9 = chain(w8, Self::spec_write_tags(m, version));
        assert(Self::spec_write(m, version) == w9);
        assert(written(w9) + t10 =~= written(w8) + t9);
        assert(written(w8) + t9 =~= written(w7) + t8);
        assert(written(w7) + t8 =~= written(w6) + t7);
        assert(written(w6) + t7 =~= written(w5) + t6);
        assert(written(w5) + t6 =~= written(w4) + t5);
        assert(written(w4) + t5 =~= written(w3) + t4);
        assert(written(w3) + t4 =~= written(w2) + t3);
        assert(written(w2) + t3 =~= written(w1) + t2);
        assert(written(w1) + t2 =~= written(w0) + t1);
        Self::lemma_round_trip_throttle_time_ms(m, version, t1);
        Self::lemma_round_trip_error_code(m, version, t2);
        Self::lemma_round_trip_generation_id(m, version, t3);
        Self::lemma_round_trip_protocol_type(m, version, t4);
        Self::lemma_round_trip_protocol_name(m, version, t5);
        Self::lemma_round_trip_leader(m, version, t6);
        Self::lemma_round_trip_skip_assignment(m, version, t7);
        Self::lemma_round_trip_member_id(m, version, t8);
        Self::lemma_round_trip_members(m, version, t9);
        Self::lemma_round_trip_tags(m, version, t10);
    }

    /// In a version that does not carry `throttle_time_ms`, writing ignores its value.
    pub proof fn lemma_write_ignores_throttle_time_ms(m: JoinGroupResponseDataView, value: i32, version: i16)
        requires
            !(version >= 2),
        ensures
            Self::spec_write((JoinGroupResponseDataView { throttle_time_ms: value, ..m }), version) == Self::spec_write(m, version),
    {
        reveal(JoinGroupResponseData::spec_write_throttle_time_ms);
        reveal(JoinGroupResponseData::spec_write_error_code);
        reveal(JoinGroupResponseData::spec_write_generation_id);
        reveal(JoinGroupResponseData::spec_write_protocol_type);
        reveal(JoinGroupResponseData::spec_write_protocol_name);
        reveal(JoinGroupResponseData::spec_write_leader);
        reveal(JoinGroupResponseData::spec_write_skip_assignment);
        reveal(JoinGroupResponseData::spec_write_member_id);
        reveal(JoinGroupResponseData::spec_write_members);
        reveal(JoinGroupResponseData::spec_write_tags);
    }

    /// In a version that does not carry `protocol_type`, writing ignores its value.
    pub proof fn lemma_write_ignores_protocol_type(m: JoinGroupResponseDataView, value: Option<Seq<u8>>, version: i16)
        requires
            !(version >= 7),
        ensures
            Self::spec_write((JoinGroupResponseDataView { protocol_type: value, ..m }), version) == Self::spec_write(m, version),
    {
        reveal(JoinGroupResponseData::spec_write_throttle_time_ms);
        reveal(JoinGroupResponseData::spec_write_error_code);
        reveal(JoinGroupResponseData::spec_write_generation_id);
        reveal(JoinGroupResponseData::spec_write_protocol_type);
        reveal(JoinGroupResponseData::spec_write_protocol_name);
        reveal(JoinGroupResponseData::spec_write_leader);
        reveal(JoinGroupResponseData::spec_write_skip_assignment);
        reveal(JoinGroupResponseData::spec_write_member_id);
        reveal(JoinGroupResponseData::spec_write_members);
        reveal(JoinGroupResponseData::spec_write_tags);
    }

    /// In a version that does not carry `skip_assignment`, writing ignores its value.
    pub proof fn lemma_write_ignores_skip_assignment(m: JoinGroupResponseDataView, value: bool, version: i16)
        requires
            !(version >= 9),
        ensures
            Self::spec_write((JoinGroupResponseDataView { skip_assignment: value, ..m }), version) == Self::spec_write(m, version),
    {
        reveal(JoinGroupResponseData::spec_write_throttle_time_ms);
        reveal(JoinGroupResponseData::spec_write_error_code);
        reveal(JoinGroupResponseData::spec_write_generation_id);
        reveal(JoinGroupResponseData::spec_write_protocol_type);
        reveal(JoinGroupResponseData::spec_write_protocol_name);
        reveal(JoinGroupResponseData::spec_write_leader);
        reveal(JoinGroupResponseData::spec_write_skip_assignment);
        reveal(JoinGroupResponseData::spec_write_member_id);
        reveal(JoinGroupResponseData::spec_write_members);
        reveal(JoinGroupResponseData::spec_write_tags);
    }

    /// In a version that does not carry `unknown_tagged_fields`, writing ignores its value.
    pub proof fn lemma_write_ignores_unknown_tagged_fields(m: JoinGroupResponseDataView, value: Seq<(u32, Seq<u8>)>, version: i16)
        requires
            !(version >= 6),
        ensures
            Self::spec_write((JoinGroupResponseDataView { unknown_tagged_fields: value, ..m }), version) == Self::spec_write(m, version),
    {
        reveal(JoinGroupResponseData::spec_write_throttle_time_ms);
        reveal(JoinGroupResponseData::spec_write_error_code);
        reveal(JoinGroupResponseData::spec_write_generation_id);
        reveal(JoinGroupResponseData::spec_write_protocol_type);
        reveal(JoinGroupResponseData::spec_write_protocol_name);
        reveal(JoinGroupResponseData::spec_write_leader);
        reveal(JoinGroupResponseData::spec_write_skip_assignment);
        reveal(JoinGroupResponseData::spec_write_member_id);
        reveal(JoinGroupResponseData::spec_write_members);
        reveal(JoinGroupResponseData::spec_write_tags);
    }

    /// The default message holds the default value of each field of the schema.
    pub proof fn lemma_default_values()
        ensures
            Self::default_view().throttle_time_ms == (0_i32),
            Self::default_view().error_code == (0_i16),
            Self::default_view().generation_id == (-1i32),
            (Self::default_view().protocol_type is None),
            (Self::default_view().protocol_name is None),
            Self::default_view().leader.len() == 0,
            Self::default_view().skip_assignment == (false),
            Self::default_view().member_id.len() == 0,
            Self::default_view().members.len() == 0,
            Self::default_view().unknown_tagged_fields.len() == 0,
    {
    }

    /// Each integer, boolean and identifier field is written as its standard
    /// big-endian bytes (a boolean as `1` or `0`) in the versions that carry
    /// it, and as nothing in the others; reading it takes those bytes back (any
    /// byte other than `0` reads as `true`), or gives its default value.
    pub proof fn lemma_field_encodings(m: JoinGroupResponseDataView, s: Seq<u8>, version: i16)
        ensures
            version >= 2 ==> Self::spec_write_throttle_time_ms(m, version) == Ok::<Seq<u8>, (Error, Seq<u8>)>(u32_bytes(m.throttle_time_ms as u32)),
            !(version >= 2) ==> Self::spec_write_throttle_time_ms(m, version) == Ok::<Seq<u8>, (Error, Seq<u8>)>(Seq::empty()),
            true ==> Self::spec_write_error_code(m, version) == Ok::<Seq<u8>, (Error, Seq<u8>)>(u16_bytes(m.error_code as u16)),
            true ==> Self::spec_write_generation_id(m, version) == Ok::<Seq<u8>, (Error, Seq<u8>)>(u32_bytes(m.generation_id as u32)),
            !(version >= 7) ==> Self::spec_write_protocol_type(m, version) == Ok::<Seq<u8>, (Error, Seq<u8>)>(Seq::empty()),
            version >= 9 ==> Self::spec_write_skip_assignment(m, version) == Ok::<Seq<u8>, (Error, Seq<u8>)>(seq![if m.skip_assignment { 1u8 } else { 0u8 }]),
            !(version >= 9) ==> Self::spec_write_skip_assignment(m, version) == Ok::<Seq<u8>, (Error, Seq<u8>)>(Seq::empty()),
            version >= 2 ==> Self::spec_read_throttle_time_ms(s, version) == spec_read_i32(s),
            !(version >= 2) ==> Self::spec_read_throttle_time_ms(s, version) == Ok::<(i32, Seq<u8>), Error>((0_i32, s)),
            true ==> Self::spec_read_error_code(s, version) == spec_read_i16(s),
            true ==> Self::spec_read_generation_id(s, version) == spec_read_i32(s),
            version >= 9 ==> Self::spec_read_skip_assignment(s, version) == (if s.len() < 1 { Err(Error::UnexpectedEof) } else { Ok((s[0] != 0, s.drop_first())) }),
            !(version >= 9) ==> Self::spec_read_skip_assignment(s, version) == Ok::<(bool, Seq<u8>), Error>((false, s)),
    {
        reveal(JoinGroupResponseData::spec_write_throttle_time_ms);
        reveal(JoinGroupResponseData::spec_read_throttle_time_ms);
        reveal(JoinGroupResponseData::spec_write_error_code);
        reveal(JoinGroupResponseData::spec_read_error_code);
        reveal(JoinGroupResponseData::spec_write_generation_id);
        reveal(JoinGroupResponseData::spec_read_generation_id);
        reveal(JoinGroupResponseData::spec_write_protocol_type);
        reveal(JoinGroupResponseData::spec_read_protocol_type);
        reveal(JoinGroupResponseData::spec_write_skip_assignment);
        reveal(JoinGroupResponseData::spec_read_skip_assignment);
    }

    /// Whether writing `m` in `version` succeeds, said over its parts: the
    /// version is one the schema covers, every field that the version cannot
    /// carry holds its default value, and every string, byte string, array and
    /// tagged field fits its length prefix.
    pub open spec fn writable(m: JoinGroupResponseDataView, version: i16) -> bool {
        &&& 0 <= version <= 9
        &&& (if version >= 7 {
                (m.protocol_type matches Some(b) ==> b.len() <= 0x7fff)
            } else {
                true
        })
        &&& (if version >= 7 {
                (m.protocol_name matches Some(b) ==> b.len() <= 0x7fff)
            } else {
                unwrap_or_empty(m.protocol_name).len() <= 0x7fff
        })
        &&& m.leader.len() <= 0x7fff
        &&& m.member_id.len() <= 0x7fff
        &&& (m.members.len() <= i32::MAX && all_writable::<JoinGroupResponseMember>(m.members, version))
        &&& (if version >= 6 {
                m.unknown_tagged_fields.len() <= u32::MAX && tags_fit(m.unknown_tagged_fields)
            } else {
                true
        })
    }

    proof fn lemma_writable_throttle_time_ms(m: JoinGroupResponseDataView, version: i16)
        ensures
            Self::spec_write_throttle_time_ms(m, version) is Ok <==> true,
    {
        reveal(JoinGroupResponseData::spec_write_throttle_time_ms);
    }

    proof fn lemma_writable_error_code(m: JoinGroupResponseDataView, version: i16)
        ensures
            Self::spec_write_error_code(m, version) is Ok <==> true,
    {
        reveal(JoinGroupResponseData::spec_write_error_code);
    }

    proof fn lemma_writable_generation_id(m: JoinGroupResponseDataView, version: i16)
        ensures
            Self::spec_write_generation_id(m, version) is Ok <==> true,
    {
        reveal(JoinGroupResponseData::spec_write_generation_id);
    }

    proof fn lemma_writable_protocol_type(m: JoinGroupResponseDataView, version: i16)
        ensures
            Self::spec_write_protocol_type(m, version) is Ok <==> (if version >= 7 { (m.protocol_type matches Some(b) ==> b.len() <= 0x7fff) } else { true }),
    {
        reveal(JoinGroupResponseData::spec_write_protocol_type);
    }

    proof fn lemma_writable_protocol_name(m: JoinGroupResponseDataView, version: i16)
        ensures
            Self::spec_write_protocol_name(m, version) is Ok <==> (if version >= 7 { (m.protocol_name matches Some(b) ==> b.len() <= 0x7fff) } else { unwrap_or_empty(m.protocol_name).len() <= 0x7fff }),
    {
        reveal(JoinGroupResponseData::spec_write_protocol_name);
    }

    proof fn lemma_writable_leader(m: JoinGroupResponseDataView, version: i16)
        ensures
            Self::spec_write_leader(m, version) is Ok <==> m.leader.len() <= 0x7fff,
    {
        reveal(JoinGroupResponseData::spec_write_leader);
    }

    proof fn lemma_writable_skip_assignment(m: JoinGroupResponseDataView, version: i16)
        ensures
            Self::spec_write_skip_assignment(m, version) is Ok <==> true,
    {
        reveal(JoinGroupResponseData::spec_write_skip_assignment);
    }

    proof fn lemma_writable_member_id(m: JoinGroupResponseDataView, version: i16)
        ensures
            Self::spec_write_member_id(m, version) is Ok <==> m.member_id.len() <= 0x7fff,
    {
        reveal(JoinGroupResponseData::spec_write_member_id);
    }

    proof fn lemma_writable_members(m: JoinGroupResponseDataView, version: i16)
        ensures
            Self::spec_write_members(m, version) is Ok <==> (m.members.len() <= i32::MAX && all_writable::<JoinGroupResponseMember>(m.members, version)),
    {
        reveal(JoinGroupResponseData::spec_write_members);
        if version >= 6 {
            lemma_array_writable::<JoinGroupResponseMember>(m.members, version, true);
        } else {
            lemma_array_writable::<JoinGroupResponseMember>(m.members, version, false);
        }
    }

    proof fn lemma_writable_tags(m: JoinGroupResponseDataView, version: i16)
        ensures
            Self::spec_write_tags(m, version) is Ok <==> (if version >= 6 { m.unknown_tagged_fields.len() <= u32::MAX && tags_fit(m.unknown_tagged_fields) } else { true }),
    {
        reveal(JoinGroupResponseData::spec_write_tags);
        if version >= 6 {
            lemma_sorted_tags_fit(m.unknown_tagged_fields);
            lemma_tagged_fields_writable(sorted_by_tag(m.unknown_tagged_fields));
        }
    }

    /// Writing `m` in `version` succeeds exactly when `m` is writable in it;
    /// so do `write` and `encoded_len`, whose results follow `spec_write`.
    #[verifier::rlimit(90)]
    pub proof fn lemma_writable(m: JoinGroupResponseDataView, version: i16)
        ensures
            Self::spec_write(m, version) is Ok <==> Self::writable(m, version),
    {
        Self::lemma_writable_throttle_time_ms(m, version);
        Self::lemma_writable_error_code(m, version);
        Self::lemma_writable_generation_id(m, version);
        Self::lemma_writable_protocol_type(m, version);
        Self::lemma_writable_protocol_name(m, version);
        Self::lemma_writable_leader(m, version);
        Self::lemma_writable_skip_assignment(m, version);
        Self::lemma_writable_member_id(m, version);
        Self::lemma_writable_members(m, version);
        Self::lemma_writable_tags(m, version);
    }

    /// A version outside the range that the schema covers is refused, by
    /// reads and by writes alike, before anything is read or written.
    pub proof fn lemma_refused_version(m: JoinGroupResponseDataView, s: Seq<u8>, version: i16)
        requires
            version < 0 || version > 9,
        ensures
            Self::spec_read(s, version) == Err::<(JoinGroupResponseDataView, Seq<u8>), Error>(Error::UnsupportedVersion(UnsupportedVersion { api_key: 11, version })),
            Self::spec_write(m, version) == fail(Error::UnsupportedVersion(UnsupportedVersion { api_key: 11, version })),
    {
    }

    fn read_throttle_time_ms(buf: &mut Bytes, version: i16) -> (r: Result<i32, Error>)
        ensures
            read_as(Self::spec_read_throttle_time_ms(bytes_seq(*old(buf)), version), *final(buf), r),
            took_front(*old(buf), *final(buf)),
    {
        proof {
            reveal(JoinGroupResponseData::spec_read_throttle_time_ms);
        }
        Ok(if version >= 2 {
                read_i32(buf)?
            } else {
                0_i32
        })
    }

    fn read_error_code(buf: &mut Bytes, version: i16) -> (r: Result<i16, Error>)
        ensures
            read_as(Self::spec_read_error_code(bytes_seq(*old(buf)), version), *final(buf), r),
            took_front(*old(buf), *final(buf)),
    {
        proof {
            reveal(JoinGroupResponseData::spec_read_error_code);
        }
        Ok(read_i16(buf)?)
    }

    fn read_generation_id(buf: &mut Bytes, version: i16) -> (r: Result<i32, Error>)
        ensures
            read_as(Self::spec_read_generation_id(bytes_seq(*old(buf)), version), *final(buf), r),
            took_front(*old(buf), *final(buf)),
    {
        proof {
            reveal(JoinGroupResponseData::spec_read_generation_id);
        }
        Ok(read_i32(buf)?)
    }

    fn read_protocol_type(buf: &mut Bytes, version: i16) -> (r: Result<Option<KafkaString>, Error>)
        ensures
            read_opt_as(Self::spec_read_protocol_type(bytes_seq(*old(buf)), version), *final(buf), r),
            took_front(*old(buf), *final(buf)),
    {
        proof {
            reveal(JoinGroupResponseData::spec_read_protocol_type);
        }
        Ok(if version >= 7 {
                read_compact_nullable_string(buf)?
            } else {
                None
        })
    }

    fn read_protocol_name(buf: &mut Bytes, version: i16) -> (r: Result<Option<KafkaString>, Error>)
        ensures
            read_opt_as(Self::spec_read_protocol_name(bytes_seq(*old(buf)), version), *final(buf), r),
            took_front(*old(buf), *final(buf)),
    {
        proof {
            reveal(JoinGroupResponseData::spec_read_protocol_name);
        }
        Ok(if version >= 7 {
                read_compact_nullable_string(buf)?
            } else {
                if version >= 6 {
                    Some(read_compact_string(buf)?)
                } else {
                    Some(read_string(buf)?)
                }
        })
    }

    fn read_leader(buf: &mut Bytes, version: i16) -> (r: Result<KafkaString, Error>)
        ensures
            read_as(Self::spec_read_leader(bytes_seq(*old(buf)), version), *final(buf), r),
            took_front(*old(buf), *final(buf)),
    {
        proof {
            reveal(JoinGroupResponseData::spec_read_leader);
        }
        Ok(if version >= 6 {
                read_compact_string(buf)?
            } else {
                read_string(buf)?
        })
    }

    fn read_skip_assignment(buf: &mut Bytes, version: i16) -> (r: Result<bool, Error>)
        ensures
            read_as(Self::spec_read_skip_assignment(bytes_seq(*old(buf)), version), *final(buf), r),
            took_front(*old(buf), *final(buf)),
    {
        proof {
            reveal(JoinGroupResponseData::spec_read_skip_assignment);
        }
        Ok(if version >= 9 {
                read_bool(buf)?
            } else {
                false
        })
    }

    fn read_member_id(buf: &mut Bytes, version: i16) -> (r: Result<KafkaString, Error>)
        ensures
            read_as(Self::spec_read_member_id(bytes_seq(*old(buf)), version), *final(buf), r),
            took_front(*old(buf), *final(buf)),
    {
        proof {
            reveal(JoinGroupResponseData::spec_read_member_id);
        }
        Ok(if version >= 6 {
                read_compact_string(buf)?
            } else {
                read_string(buf)?
        })
    }

    fn read_members(buf: &mut Bytes, version: i16) -> (r: Result<Vec<JoinGroupResponseMember>, Error>)
        ensures
            read_vec_as(Self::spec_read_members(bytes_seq(*old(buf)), version), *final(buf), r),
            took_front(*old(buf), *final(buf)),
    {
        proof {
            reveal(JoinGroupResponseData::spec_read_members);
        }
        Ok(if version >= 6 {
                read_array::<JoinGroupResponseMember>(buf, version, true)?
            } else {
                read_array::<JoinGroupResponseMember>(buf, version, false)?
        })
    }

    fn read_tags(buf: &mut Bytes, version: i16) -> (r: Result<Vec<RawTaggedField>, Error>)
        ensures
            read_vec_as(Self::spec_read_tags(bytes_seq(*old(buf)), version), *final(buf), r),
            took_front(*old(buf), *final(buf)),
    {
        proof {
            reveal(JoinGroupResponseData::spec_read_tags);
        }
        Ok(if version >= 6 {
                read_tagged_fields(buf)?
            } else {
                empty_vec()
        })
    }

    #[verifier::rlimit(80)]
    #[verifier::spinoff_prover]
    pub fn read(buf: &mut Bytes, version: i16) -> (r: Result<Self, Error>)
        ensures
            read_as(Self::spec_read(bytes_seq(*old(buf)), version), *final(buf), r),
            took_front(*old(buf), *final(buf)),
            (version < 0 || version > 9) ==> bytes_seq(*final(buf)) == bytes_seq(*old(buf)),
    {
        if version < 0 || version > 9 {
            return Err(Error::UnsupportedVersion(UnsupportedVersion::new(11, version)));
        }
        let throttle_time_ms = Self::read_throttle_time_ms(buf, version)?;
        let error_code = Self::read_error_code(buf, version)?;
        let generation_id = Self::read_generation_id(buf, version)?;
        let protocol_type = Self::read_protocol_type(buf, version)?;
        let protocol_name = Self::read_protocol_name(buf, version)?;
        let leader = Self::read_leader(buf, version)?;
        let skip_assignment = Self::read_skip_assignment(buf, version)?;
        let member_id = Self::read_member_id(buf, version)?;
        let members = Self::read_members(buf, version)?;
        let _unknown_tagged_fields = Self::read_tags(buf, version)?;
        Ok(JoinGroupResponseData {
                throttle_time_ms: throttle_time_ms,
                error_code: error_code,
                generation_id: generation_id,
                protocol_type: protocol_type,
                protocol_name: protocol_name,
                leader: leader,
                skip_assignment: skip_assignment,
                member_id: member_id,
                members: members,
                _unknown_tagged_fields: _unknown_tagged_fields,
        })
    }

    #[verifier::rlimit(100)]
    #[verifier::spinoff_prover]
    pub fn write(&self, buf: &mut BytesMut, version: i16) -> (r: Result<(), Error>)
        requires
            has_room(Self::spec_write(self@, version), *old(buf)),
        ensures
            wrote(Self::spec_write(self@, version), *old(buf), *final(buf), r),
    {
        if version < 0 || version > 9 {
            return Err(Error::UnsupportedVersion(UnsupportedVersion::new(11, version)));
        }
        let ghost m = self@;
        proof {
            reveal(JoinGroupResponseData::spec_write_throttle_time_ms);
            reveal(JoinGroupResponseData::spec_write_error_code);
            reveal(JoinGroupResponseData::spec_write_generation_id);
            reveal(JoinGroupResponseData::spec_write_protocol_type);
            reveal(JoinGroupResponseData::spec_write_protocol_name);
            reveal(JoinGroupResponseData::spec_write_leader);
            reveal(JoinGroupResponseData::spec_write_skip_assignment);
            reveal(JoinGroupResponseData::spec_write_member_id);
            reveal(JoinGroupResponseData::spec_write_members);
            reveal(JoinGroupResponseData::spec_write_tags);
        }
        let ghost s0 = Self::spec_write_throttle_time_ms(m, version);
        let ghost w0 = s0;
        let ghost s1 = Self::spec_write_error_code(m, version);
        let ghost w1 = chain(w0, s1);
        let ghost s2 = Self::spec_write_generation_id(m, version);
        let ghost w2 = chain(w1, s2);
        let ghost s3 = Self::spec_write_protocol_type(m, version);
        let ghost w3 = chain(w2, s3);
        let ghost s4 = Self::spec_write_protocol_name(m, version);
        let ghost w4 = chain(w3, s4);
        let ghost s5 = Self::spec_write_leader(m, version);
        let ghost w5 = chain(w4, s5);
        let ghost s6 = Self::spec_write_skip_assignment(m, version);
        let ghost w6 = chain(w5, s6);
        let ghost s7 = Self::spec_write_member_id(m, version);
        let ghost w7 = chain(w6, s7);
        let ghost s8 = Self::spec_write_members(m, version);
        let ghost w8 = chain(w7, s8);
        let ghost s9 = Self::spec_write_tags(m, version);
        let ghost w9 = chain(w8, s9);
        assert(Self::spec_write(m, version) == w9);
        assert(written(w8).len() <= written(w9).len() && (w8 is Err ==> w9 == w8));
        assert(written(w7).len() <= written(w9).len() && (w7 is Err ==> w9 == w7));
        assert(written(w6).len() <= written(w9).len() && (w6 is Err ==> w9 == w6));
        assert(written(w5).len() <= written(w9).len() && (w5 is Err ==> w9 == w5));
        assert(written(w4).len() <= written(w9).len() && (w4 is Err ==> w9 == w4));
        assert(written(w3).len() <= written(w9).len() && (w3 is Err ==> w9 == w3));
        assert(written(w2).len() <= written(w9).len() && (w2 is Err ==> w9 == w2));
        assert(written(w1).len() <= written(w9).len() && (w1 is Err ==> w9 == w1));
        assert(written(w0).len() <= written(w9).len() && (w0 is Err ==> w9 == w0));
        let ghost mid = bytes_mut_seq(*buf);
        proof {
            lemma_append_empty(mid);
        }
        let r0 = if version >= 2 {
            {
                write_i32(buf, self.throttle_time_ms);
                Ok(())
            }
        } else {
            Ok(())
        };
        assert(bytes_mut_seq(*buf) == mid + written(s0));
        if r0.is_err() {
            return r0;
        }
        let ghost mid = bytes_mut_seq(*buf);
        proof {
            lemma_append_empty(mid);
        }
        let r1 = {
            write_i16(buf, self.error_code);
            Ok(())
        };
        assert(bytes_mut_seq(*buf) == mid + written(s1));
        proof {
            lemma_step(bytes_mut_seq(*old(buf)), w0, s1);
        }
        if r1.is_err() {
            return r1;
        }
        let ghost mid = bytes_mut_seq(*buf);
        proof {
            lemma_append_empty(mid);
        }
        let r2 = {
            write_i32(buf, self.generation_id);
            Ok(())
        };
        assert(bytes_mut_seq(*buf) == mid + written(s2));
        proof {
            lemma_step(bytes_mut_seq(*old(buf)), w1, s2);
        }
        if r2.is_err() {
            return r2;
        }
        let ghost mid = bytes_mut_seq(*buf);
        proof {
            lemma_append_empty(mid);
        }
        let r3 = if version >= 7 {
            write_compact_nullable_string(buf, &self.protocol_type)
        } else {
            Ok(())
        };
        assert(bytes_mut_seq(*buf) == mid + written(s3));
        proof {
            lemma_step(bytes_mut_seq(*old(buf)), w2, s3);
        }
        if r3.is_err() {
            return r3;
        }
        let ghost mid = bytes_mut_seq(*buf);
        proof {
            lemma_append_empty(mid);
        }
        let r4 = if version >= 7 {
            write_compact_nullable_string(buf, &self.protocol_name)
        } else {
            {
                let nn_default = KafkaString::default();
                let nn_val = match &self.protocol_name {
                    Some(v) => v,
                    None => &nn_default,
                };
                if version >= 6 {
                    write_compact_string(buf, &*nn_val)
                } else {
                    write_string(buf, &*nn_val)
                }
            }
        };
        assert(bytes_mut_seq(*buf) == mid + written(s4));
        proof {
            lemma_step(bytes_mut_seq(*old(buf)), w3, s4);
        }
        if r4.is_err() {
            return r4;
        }
        let ghost mid = bytes_mut_seq(*buf);
        proof {
            lemma_append_empty(mid);
        }
        let r5 = if version >= 6 {
            write_compact_string(buf, &self.leader)
        } else {
            write_string(buf, &self.leader)
        };
        assert(bytes_mut_seq(*buf) == mid + written(s5));
        proof {
            lemma_step(bytes_mut_seq(*old(buf)), w4, s5);
        }
        if r5.is_err() {
            return r5;
        }
        let ghost mid = bytes_mut_seq(*buf);
        proof {
            lemma_append_empty(mid);
        }
        let r6 = if version >= 9 {
            {
                write_bool(buf, self.skip_assignment);
                Ok(())
            }
        } else {
            Ok(())
        };
        assert(bytes_mut_seq(*buf) == mid + written(s6));
        proof {
            lemma_step(bytes_mut_seq(*old(buf)), w5, s6);
        }
        if r6.is_err() {
            return r6;
        }
        let ghost mid = bytes_mut_seq(*buf);
        proof {
            lemma_append_empty(mid);
        }
        let r7 = if version >= 6 {
            write_compact_string(buf, &self.member_id)
        } else {
            write_string(buf, &self.member_id)
        };
        assert(bytes_mut_seq(*buf) == mid + written(s7));
        proof {
            lemma_step(bytes_mut_seq(*old(buf)), w6, s7);
        }
        if r7.is_err() {
            return r7;
        }
        let ghost mid = bytes_mut_seq(*buf);
        proof {
            lemma_append_empty(mid);
        }
        let r8 = if version >= 6 {
            write_array::<JoinGroupResponseMember>(buf, &self.members, version, true)
        } else {
            write_array::<JoinGroupResponseMember>(buf, &self.members, version, false)
        };
        assert(bytes_mut_seq(*buf) == mid + written(s8));
        proof {
            lemma_step(bytes_mut_seq(*old(buf)), w7, s8);
        }
        if r8.is_err() {
            return r8;
        }
        let ghost mid = bytes_mut_seq(*buf);
        proof {
            lemma_append_empty(mid);
        }
        let r9 = if version >= 6 {
            write_tagged_fields(buf, &sort_by_tag(&self._unknown_tagged_fields))
        } else {
            Ok(())
        };
        assert(bytes_mut_seq(*buf) == mid + written(s9));
        proof {
            lemma_step(bytes_mut_seq(*old(buf)), w8, s9);
        }
        if r9.is_err() {
            return r9;
        }
        Ok(())
    }
}

#[derive(Debug, PartialEq)]
pub struct JoinGroupResponseMember {
    /// The group member ID.
    pub member_id: KafkaString,
    /// The unique identifier of the consumer instance provided by end user.
    pub group_instance_id: Option<KafkaString>,
    /// The group member metadata.
    pub metadata: Bytes,
    pub _unknown_tagged_fields: Vec<RawTaggedField>,
}

/// What a `JoinGroupResponseMember` holds, as the specification sees it.
#[verifier::ext_equal]
pub struct JoinGroupResponseMemberView {
    pub member_id: Seq<u8>,
    pub group_instance_id: Option<Seq<u8>>,
    pub metadata: Seq<u8>,
    pub unknown_tagged_fields: Seq<(u32, Seq<u8>)>,
}

impl View for JoinGroupResponseMember {
    type V = JoinGroupResponseMemberView;

    open spec fn view(&self) -> JoinGroupResponseMemberView {
        JoinGroupResponseMemberView {
            member_id: self.member_id@,
            group_instance_id: opt_view(self.group_instance_id),
            metadata: bytes_seq(self.metadata),
            unknown_tagged_fields: views(self._unknown_tagged_fields@),
        }
    }
}

impl Clone for JoinGroupResponseMember {
    fn clone(&self) -> (r: Self)
        ensures
            r@ == self@,
    {
        let r = JoinGroupResponseMember {
            member_id: self.member_id.clone(),
            group_instance_id: match &self.group_instance_id {
                Some(x) => Some(x.clone()),
                None => None,
            },
            metadata: self.metadata.clone(),
            _unknown_tagged_fields: clone_vec(&self._unknown_tagged_fields),
        };
        assert(r@ =~= self@);
        r
    }
}

impl ViewClone for JoinGroupResponseMember {
    fn clone_view(&self) -> (r: Self) {
        self.clone()
    }
}

impl Default for JoinGroupResponseMember {
    fn default() -> (r: Self)
        ensures
            r@ == Self::default_view(),
    {
        let r = JoinGroupResponseMember {
            member_id: KafkaString::default(),
            group_instance_id: None,
            metadata: bytes_empty(),
            _unknown_tagged_fields: empty_vec(),
        };
        assert(r@ =~= Self::default_view());
        r
    }
}

impl JoinGroupResponseMember {
    pub open spec fn default_view() -> JoinGroupResponseMemberView {
        JoinGroupResponseMemberView {
            member_id: Seq::empty(),
            group_instance_id: None,
            metadata: Seq::empty(),
            unknown_tagged_fields: Seq::empty(),
        }
    }

    /// The `member_id` field, read from the front of `s`.
    #[verifier::opaque]
    pub open spec fn spec_read_member_id(s: Seq<u8>, version: i16) -> ReadOutcome<Seq<u8>> {
        if version >= 6 {
            spec_read_compact_string(s)
        } else {
            spec_read_string(s)
        }
    }

    /// The `group_instance_id` field, read from the front of `s`.
    #[verifier::opaque]
    pub open spec fn spec_read_group_instance_id(s: Seq<u8>, version: i16) -> ReadOutcome<Option<Seq<u8>>> {
        if version >= 5 {
            if version >= 6 {
                spec_read_compact_nullable_string(s)
            } else {
                spec_read_nullable_string(s)
            }
        } else {
            Ok((None, s))
        }
    }

    /// The `metadata` field, read from the front of `s`.
    #[verifier::opaque]
    pub open spec fn spec_read_metadata(s: Seq<u8>, version: i16) -> ReadOutcome<Seq<u8>> {
        if version >= 6 {
            spec_read_compact_bytes(s)
        } else {
            spec_read_bytes(s)
        }
    }

    /// The tagged fields, read from the front of `s`.
    #[verifier::opaque]
    pub open spec fn spec_read_tags(s: Seq<u8>, version: i16) -> ReadOutcome<Seq<(u32, Seq<u8>)>> {
        if version >= 6 {
            spec_read_tagged_fields(s)
        } else {
            Ok((Seq::empty(), s))
        }
    }

    pub open spec fn spec_read(s: Seq<u8>, version: i16) -> ReadOutcome<JoinGroupResponseMemberView> {
        match (Self::spec_read_member_id(s, version)) {
            Err(e) => Err(e),
            Ok((member_id, s)) => match (Self::spec_read_group_instance_id(s, version)) {
                Err(e) => Err(e),
                Ok((group_instance_id, s)) => match (Self::spec_read_metadata(s, version)) {
                    Err(e) => Err(e),
                    Ok((metadata, s)) => match (Self::spec_read_tags(s, version)) {
                        Err(e) => Err(e),
                        Ok((unknown_tagged_fields, s)) => Ok((JoinGroupResponseMemberView {
                                    member_id: member_id,
                                    group_instance_id: group_instance_id,
                                    metadata: metadata,
                                    unknown_tagged_fields: unknown_tagged_fields,
                                }, s)),
                    },
                },
            },
        }
    }

    /// What writing the `member_id` field of `m` appends.
    #[verifier::opaque]
    pub open spec fn spec_write_member_id(m: JoinGroupResponseMemberView, version: i16) -> WriteOutcome {
        if version >= 6 {
            spec_write_compact_string(m.member_id)
        } else {
            spec_write_string(m.member_id)
        }
    }

    /// What writing the `group_instance_id` field of `m` appends.
    #[verifier::opaque]
    pub open spec fn spec_write_group_instance_id(m: JoinGroupResponseMemberView, version: i16) -> WriteOutcome {
        if version >= 5 {
            if version >= 6 {
                spec_write_compact_nullable_string(m.group_instance_id)
            } else {
                spec_write_nullable_string(m.group_instance_id)
            }
        } else {
            emit(Seq::empty())
        }
    }

    /// What writing the `metadata` field of `m` appends.
    #[verifier::opaque]
    pub open spec fn spec_write_metadata(m: JoinGroupResponseMemberView, version: i16) -> WriteOutcome {
        if version >= 6 {
            spec_write_compact_bytes(m.metadata)
        } else {
            spec_write_bytes(m.metadata)
        }
    }

    /// What writing the tagged fields of `m` appends.
    #[verifier::opaque]
    pub open spec fn spec_write_tags(m: JoinGroupResponseMemberView, version: i16) -> WriteOutcome {
        if version >= 6 {
            spec_write_tagged_fields(sorted_by_tag(m.unknown_tagged_fields))
        } else {
            emit(Seq::empty())
        }
    }

    pub open spec fn spec_write(m: JoinGroupResponseMemberView, version: i16) -> WriteOutcome {
        chain(
            chain(
                chain(
                    Self::spec_write_member_id(m, version),
                    Self::spec_write_group_instance_id(m, version),
                ),
                Self::spec_write_metadata(m, version),
            ),
            Self::spec_write_tags(m, version),
        )
    }

    /// Whether reading back what writing `m` in `version` appends gives `m`:
    /// fields that the version does not carry hold their default values, and
    /// tagged fields come in the order in which they are written.
    pub open spec fn canonical(m: JoinGroupResponseMemberView, version: i16) -> bool {
        &&& (if version >= 5 {
                true
            } else {
                m.group_instance_id is None
        })
        &&& (if version >= 6 {
                tags_in_order(m.unknown_tagged_fields)
            } else {
                m.unknown_tagged_fields.len() == 0
        })
    }

    proof fn lemma_round_trip_member_id(m: JoinGroupResponseMemberView, version: i16, rest: Seq<u8>)
        requires
            Self::canonical(m, version),
            Self::spec_write_member_id(m, version) is Ok,
        ensures
            Self::spec_read_member_id(written(Self::spec_write_member_id(m, version)) + rest, version) == Ok::<(Seq<u8>, Seq<u8>), Error>((m.member_id, rest)),
    {
        reveal(JoinGroupResponseMember::spec_read_member_id);
        reveal(JoinGroupResponseMember::spec_write_member_id);
        if version >= 6 {
            lemma_compact_string_round_trip(m.member_id, rest);
        } else {
            lemma_string_round_trip(m.member_id, rest);
        }
    }

    proof fn lemma_round_trip_group_instance_id(m: JoinGroupResponseMemberView, version: i16, rest: Seq<u8>)
        requires
            Self::canonical(m, version),
            Self::spec_write_group_instance_id(m, version) is Ok,
        ensures
            Self::spec_read_group_instance_id(written(Self::spec_write_group_instance_id(m, version)) + rest, version) == Ok::<(Option<Seq<u8>>, Seq<u8>), Error>((m.group_instance_id, rest)),
    {
        reveal(JoinGroupResponseMember::spec_read_group_instance_id);
        reveal(JoinGroupResponseMember::spec_write_group_instance_id);
        if version >= 5 {
            if version >= 6 {
                lemma_compact_nullable_string_round_trip(m.group_instance_id, rest);
            } else {
                lemma_nullable_string_round_trip(m.group_instance_id, rest);
            }
        } else {
            assert(Seq::<u8>::empty() + rest =~= rest);
        }
    }

    proof fn lemma_round_trip_metadata(m: JoinGroupResponseMemberView, version: i16, rest: Seq<u8>)
        requires
            Self::canonical(m, version),
            Self::spec_write_metadata(m, version) is Ok,
        ensures
            Self::spec_read_metadata(written(Self::spec_write_metadata(m, version)) + rest, version) == Ok::<(Seq<u8>, Seq<u8>), Error>((m.metadata, rest)),
    {
        reveal(JoinGroupResponseMember::spec_read_metadata);
        reveal(JoinGroupResponseMember::spec_write_metadata);
        if version >= 6 {
            lemma_compact_bytes_round_trip(m.metadata, rest);
        } else {
            lemma_bytes_round_trip(m.metadata, rest);
        }
    }

    proof fn lemma_round_trip_tags(m: JoinGroupResponseMemberView, version: i16, rest: Seq<u8>)
        requires
            Self::canonical(m, version),
            Self::spec_write_tags(m, version) is Ok,
        ensures
            Self::spec_read_tags(written(Self::spec_write_tags(m, version)) + rest, version) == Ok::<(Seq<(u32, Seq<u8>)>, Seq<u8>), Error>((m.unknown_tagged_fields, rest)),
    {
        reveal(JoinGroupResponseMember::spec_read_tags);
        reveal(JoinGroupResponseMember::spec_write_tags);
        if version >= 6 {
            lemma_sorted_by_tag_in_order(m.unknown_tagged_fields);
            lemma_tagged_fields_round_trip(m.unknown_tagged_fields, rest);
        } else {
            assert(Seq::<u8>::empty() + rest =~= rest);
            assert(m.unknown_tagged_fields =~= Seq::empty());
        }
    }

    /// Reading back what writing `m` in `version` appends gives `m` again, and
    /// leaves what follows, for every canonical message whose write succeeds.
    #[verifier::rlimit(80)]
    #[verifier::spinoff_prover]
    pub proof fn lemma_round_trip(m: JoinGroupResponseMemberView, version: i16, rest: Seq<u8>)
        requires
            Self::canonical(m, version),
            Self::spec_write(m, version) is Ok,
        ensures
            Self::spec_read(written(Self::spec_write(m, version)) + rest, version) == Ok::<(JoinGroupResponseMemberView, Seq<u8>), Error>((m, rest)),
    {
        let b0 = written(Self::spec_write_member_id(m, version));
        let b1 = written(Self::spec_write_group_instance_id(m, version));
        let b2 = written(Self::spec_write_metadata(m, version));
        let b3 = written(Self::spec_write_tags(m, version));
        let t4 = rest;
        let t3 = b3 + t4;
        let t2 = b2 + t3;
        let t1 = b1 + t2;
        let t0 = b0 + t1;
        let w0 = Self::spec_write_member_id(m, version);
        let w1 = chain(w0, Self::spec_write_group_instance_id(m, version));
        let w2 = chain(w1, Self::spec_write_metadata(m, version));
        let w3 = chain(w2, Self::spec_write_tags(m, version));
        assert(Self::spec_write(m, version) == w3);
        assert(written(w3) + t4 =~= written(w2) + t3);
        assert(written(w2) + t3 =~= written(w1) + t2);
        assert(written(w1) + t2 =~= written(w0) + t1);
        Self::lemma_round_trip_member_id(m, version, t1);
        Self::lemma_round_trip_group_instance_id(m, version, t2);
        Self::lemma_round_trip_metadata(m, version, t3);
        Self::lemma_round_trip_tags(m, version, t4);
    }

    /// In a version that does not carry `group_instance_id`, writing ignores its value.
    pub proof fn lemma_write_ignores_group_instance_id(m: JoinGroupResponseMemberView, value: Option<Seq<u8>>, version: i16)
        requires
            !(version >= 5),
        ensures
            Self::spec_write((JoinGroupResponseMemberView { group_instance_id: value, ..m }), version) == Self::spec_write(m, version),
    {
        reveal(JoinGroupResponseMember::spec_write_member_id);
        reveal(JoinGroupResponseMember::spec_write_group_instance_id);
        reveal(JoinGroupResponseMember::spec_write_metadata);
        reveal(JoinGroupResponseMember::spec_write_tags);
    }

    /// In a version that does not carry `unknown_tagged_fields`, writing ignores its value.
    pub proof fn lemma_write_ignores_unknown_tagged_fields(m: JoinGroupResponseMemberView, value: Seq<(u32, Seq<u8>)>, version: i16)
        requires
            !(version >= 6),
        ensures
            Self::spec_write((JoinGroupResponseMemberView { unknown_tagged_fields: value, ..m }), version) == Self::spec_write(m, version),
    {
        reveal(JoinGroupResponseMember::spec_write_member_id);
        reveal(JoinGroupResponseMember::spec_write_group_instance_id);
        reveal(JoinGroupResponseMember::spec_write_metadata);
        reveal(JoinGroupResponseMember::spec_write_tags);
    }

    /// The default message holds the default value of each field of the schema.
    pub proof fn lemma_default_values()
        ensures
            Self::default_view().member_id.len() == 0,
            (Self::default_view().group_instance_id is None),
            Self::default_view().metadata.len() == 0,
            Self::default_view().unknown_tagged_fields.len() == 0,
    {
    }

    /// Each integer, boolean and identifier field is written as its standard
    /// big-endian bytes (a boolean as `1` or `0`) in the versions that carry
    /// it, and as nothing in the others; reading it takes those bytes back (any
    /// byte other than `0` reads as `true`), or gives its default value.
    pub proof fn lemma_field_encodings(m: JoinGroupResponseMemberView, s: Seq<u8>, version: i16)
        ensures
            !(version >= 5) ==> Self::spec_write_group_instance_id(m, version) == Ok::<Seq<u8>, (Error, Seq<u8>)>(Seq::empty()),
    {
        reveal(JoinGroupResponseMember::spec_write_group_instance_id);
        reveal(JoinGroupResponseMember::spec_read_group_instance_id);
    }

    /// Whether writing `m` in `version` succeeds, said over its parts: the
    /// version is one the schema covers, every field that the version cannot
    /// carry holds its default value, and every string, byte string, array and
    /// tagged field fits its length prefix.
    pub open spec fn writable(m: JoinGroupResponseMemberView, version: i16) -> bool {
        &&& m.member_id.len() <= 0x7fff
        &&& (if version >= 5 {
                (m.group_instance_id matches Some(b) ==> b.len() <= 0x7fff)
            } else {
                true
        })
        &&& (if version >= 6 {
                m.metadata.len() < u32::MAX
            } else {
                m.metadata.len() <= i32::MAX
        })
        &&& (if version >= 6 {
                m.unknown_tagged_fields.len() <= u32::MAX && tags_fit(m.unknown_tagged_fields)
            } else {
                true
        })
    }

    proof fn lemma_writable_member_id(m: JoinGroupResponseMemberView, version: i16)
        ensures
            Self::spec_write_member_id(m, version) is Ok <==> m.member_id.len() <= 0x7fff,
    {
        reveal(JoinGroupResponseMember::spec_write_member_id);
    }

    proof fn lemma_writable_group_instance_id(m: JoinGroupResponseMemberView, version: i16)
        ensures
            Self::spec_write_group_instance_id(m, version) is Ok <==> (if version >= 5 { (m.group_instance_id matches Some(b) ==> b.len() <= 0x7fff) } else { true }),
    {
        reveal(JoinGroupResponseMember::spec_write_group_instance_id);
    }

    proof fn lemma_writable_metadata(m: JoinGroupResponseMemberView, version: i16)
        ensures
            Self::spec_write_metadata(m, version) is Ok <==> (if version >= 6 { m.metadata.len() < u32::MAX } else { m.metadata.len() <= i32::MAX }),
    {
        reveal(JoinGroupResponseMember::spec_write_metadata);
    }

    proof fn lemma_writable_tags(m: JoinGroupResponseMemberView, version: i16)
        ensures
            Self::spec_write_tags(m, version) is Ok <==> (if version >= 6 { m.unknown_tagged_fields.len() <= u32::MAX && tags_fit(m.unknown_tagged_fields) } else { true }),
    {
        reveal(JoinGroupResponseMember::spec_write_tags);
        if version >= 6 {
            lemma_sorted_tags_fit(m.unknown_tagged_fields);
            lemma_tagged_fields_writable(sorted_by_tag(m.unknown_tagged_fields));
        }
    }

    /// Writing `m` in `version` succeeds exactly when `m` is writable in it;
    /// so do `write` and `encoded_len`, whose results follow `spec_write`.
    #[verifier::rlimit(54)]
    pub proof fn lemma_writable(m: JoinGroupResponseMemberView, version: i16)
        ensures
            Self::spec_write(m, version) is Ok <==> Self::writable(m, version),
    {
        Self::lemma_writable_member_id(m, version);
        Self::lemma_writable_group_instance_id(m, version);
        Self::lemma_writable_metadata(m, version);
        Self::lemma_writable_tags(m, version);
    }

    fn read_member_id(buf: &mut Bytes, version: i16) -> (r: Result<KafkaString, Error>)
        ensures
            read_as(Self::spec_read_member_id(bytes_seq(*old(buf)), version), *final(buf), r),
            took_front(*old(buf), *final(buf)),
    {
        proof {
            reveal(JoinGroupResponseMember::spec_read_member_id);
        }
        Ok(if version >= 6 {
                read_compact_string(buf)?
            } else {
                read_string(buf)?
        })
    }

    fn read_group_instance_id(buf: &mut Bytes, version: i16) -> (r: Result<Option<KafkaString>, Error>)
        ensures
            read_opt_as(Self::spec_read_group_instance_id(bytes_seq(*old(buf)), version), *final(buf), r),
            took_front(*old(buf), *final(buf)),
    {
        proof {
            reveal(JoinGroupResponseMember::spec_read_group_instance_id);
        }
        Ok(if version >= 5 {
                if version >= 6 {
                    read_compact_nullable_string(buf)?
                } else {
                    read_nullable_string(buf)?
                }
            } else {
                None
        })
    }

    fn read_metadata(buf: &mut Bytes, version: i16) -> (r: Result<Bytes, Error>)
        ensures
            read_bytes_as(Self::spec_read_metadata(bytes_seq(*old(buf)), version), *final(buf), r),
            took_front(*old(buf), *final(buf)),
    {
        proof {
            reveal(JoinGroupResponseMember::spec_read_metadata);
        }
        Ok(if version >= 6 {
                read_compact_bytes(buf)?
            } else {
                read_bytes(buf)?
        })
    }

    fn read_tags(buf: &mut Bytes, version: i16) -> (r: Result<Vec<RawTaggedField>, Error>)
        ensures
            read_vec_as(Self::spec_read_tags(bytes_seq(*old(buf)), version), *final(buf), r),
            took_front(*old(buf), *final(buf)),
    {
        proof {
            reveal(JoinGroupResponseMember::spec_read_tags);
        }
        Ok(if version >= 6 {
                read_tagged_fields(buf)?
            } else {
                empty_vec()
        })
    }

    pub fn read(buf: &mut Bytes, version: i16) -> (r: Result<Self, Error>)
        ensures
            read_as(Self::spec_read(bytes_seq(*old(buf)), version), *final(buf), r),
            took_front(*old(buf), *final(buf)),
    {
        let member_id = Self::read_member_id(buf, version)?;
        let group_instance_id = Self::read_group_instance_id(buf, version)?;
        let metadata = Self::read_metadata(buf, version)?;
        let _unknown_tagged_fields = Self::read_tags(buf, version)?;
        Ok(JoinGroupResponseMember {
                member_id: member_id,
                group_instance_id: group_instance_id,
                metadata: metadata,
                _unknown_tagged_fields: _unknown_tagged_fields,
        })
    }

    #[verifier::rlimit(70)]
    pub fn write(&self, buf: &mut BytesMut, version: i16) -> (r: Result<(), Error>)
        requires
            has_room(Self::spec_write(self@, version), *old(buf)),
        ensures
            wrote(Self::spec_write(self@, version), *old(buf), *final(buf), r),
    {
        let ghost m = self@;
        proof {
            reveal(JoinGroupResponseMember::spec_write_member_id);
            reveal(JoinGroupResponseMember::spec_write_group_instance_id);
            reveal(JoinGroupResponseMember::spec_write_metadata);
            reveal(JoinGroupResponseMember::spec_write_tags);
        }
        let ghost s0 = Self::spec_write_member_id(m, version);
        let ghost w0 = s0;
        let ghost s1 = Self::spec_write_group_instance_id(m, version);
        let ghost w1 = chain(w0, s1);
        let ghost s2 = Self::spec_write_metadata(m, version);
        let ghost w2 = chain(w1, s2);
        let ghost s3 = Self::spec_write_tags(m, version);
        let ghost w3 = chain(w2, s3);
        assert(Self::spec_write(m, version) == w3);
        assert(written(w2).len() <= written(w3).len() && (w2 is Err ==> w3 == w2));
        assert(written(w1).len() <= written(w3).len() && (w1 is Err ==> w3 == w1));
        assert(written(w0).len() <= written(w3).len() && (w0 is Err ==> w3 == w0));
        let ghost mid = bytes_mut_seq(*buf);
        proof {
            lemma_append_empty(mid);
        }
        let r0 = if version >= 6 {
            write_compact_string(buf, &self.member_id)
        } else {
            write_string(buf, &self.member_id)
        };
        assert(bytes_mut_seq(*buf) == mid + written(s0));
        if r0.is_err() {
            return r0;
        }
        let ghost mid = bytes_mut_seq(*buf);
        proof {
            lemma_append_empty(mid);
        }
        let r1 = if version >= 5 {
            if version >= 6 {
                write_compact_nullable_string(buf, &self.group_instance_id)
            } else {
                write_nullable_string(buf, &self.group_instance_id)
            }
        } else {
            Ok(())
        };
        assert(bytes_mut_seq(*buf) == mid + written(s1));
        proof {
            lemma_step(bytes_mut_seq(*old(buf)), w0, s1);
        }
        if r1.is_err() {
            return r1;
        }
        let ghost mid = bytes_mut_seq(*buf);
        proof {
            lemma_append_empty(mid);
        }
        let r2 = if version >= 6 {
            write_compact_bytes(buf, &self.metadata)
        } else {
            write_bytes(buf, &self.metadata)
        };
        assert(bytes_mut_seq(*buf) == mid + written(s2));
        proof {
            lemma_step(bytes_mut_seq(*old(buf)), w1, s2);
        }
        if r2.is_err() {
            return r2;
        }
        let ghost mid = bytes_mut_seq(*buf);
        proof {
            lemma_append_empty(mid);
        }
        let r3 = if version >= 6 {
            write_tagged_fields(buf, &sort_by_tag(&self._unknown_tagged_fields))
        } else {
            Ok(())
        };
        assert(bytes_mut_seq(*buf) == mid + written(s3));
        proof {
            lemma_step(bytes_mut_seq(*old(buf)), w2, s3);
        }
        if r3.is_err() {
            return r3;
        }
        Ok(())
    }
}

impl Codec for JoinGroupResponseMember {
    type Item = JoinGroupResponseMember;

    open spec fn spec_read_item(s: Seq<u8>, version: i16) -> ReadOutcome<JoinGroupResponseMemberView> {
        JoinGroupResponseMember::spec_read(s, version)
    }

    open spec fn spec_write_item(v: JoinGroupResponseMemberView, version: i16) -> WriteOutcome {
        JoinGroupResponseMember::spec_write(v, version)
    }

    open spec fn canonical_item(v: JoinGroupResponseMemberView, version: i16) -> bool {
        JoinGroupResponseMember::canonical(v, version)
    }

    proof fn lemma_item_round_trip(v: JoinGroupResponseMemberView, version: i16, rest: Seq<u8>) {
        JoinGroupResponseMember::lemma_round_trip(v, version, rest);
    }

    open spec fn writable_item(v: JoinGroupResponseMemberView, version: i16) -> bool {
        JoinGroupResponseMember::writable(v, version)
    }

    proof fn lemma_item_writable(v: JoinGroupResponseMemberView, version: i16) {
        JoinGroupResponseMember::lemma_writable(v, version);
    }

    fn read_item(buf: &mut Bytes, version: i16) -> (r: Result<JoinGroupResponseMember, Error>) {
        JoinGroupResponseMember::read(buf, version)
    }

    fn write_item(item: &JoinGroupResponseMember, buf: &mut BytesMut, version: i16) -> (r: Result<(), Error>) {
        item.write(buf, version)
    }
}

} // verus!
