//! The join group request message.
use crate::buffer::{bytes_empty, bytes_mut_seq, bytes_seq};
use crate::codec::{Codec, all_canonical, all_writable, lemma_array_round_trip, lemma_array_writable, read_array, spec_read_array, spec_write_array, write_array};
use crate::error::{Error, UnsupportedVersion};
use crate::ints::{lemma_i32_roundtrip, read_i32, spec_read_i32, spec_write_i32, u32_bytes, write_i32};
use crate::strings::{lemma_bytes_round_trip, lemma_compact_bytes_round_trip, lemma_compact_nullable_string_round_trip, lemma_compact_string_round_trip, lemma_nullable_string_round_trip, lemma_string_round_trip, read_bytes, read_compact_bytes, read_compact_nullable_string, read_compact_string, read_nullable_string, read_string, spec_read_bytes, spec_read_compact_bytes, spec_read_compact_nullable_string, spec_read_compact_string, spec_read_nullable_string, spec_read_string, spec_write_bytes, spec_write_compact_bytes, spec_write_compact_nullable_string, spec_write_compact_string, spec_write_nullable_string, spec_write_string, write_bytes, write_compact_bytes, write_compact_nullable_string, write_compact_string, write_nullable_string, write_string};
use crate::tagged::{lemma_sorted_by_tag_in_order, lemma_sorted_tags_fit, lemma_tagged_fields_round_trip, lemma_tagged_fields_writable, read_tagged_fields, sort_by_tag, sorted_by_tag, spec_read_tagged_fields, spec_write_tagged_fields, tags_fit, tags_in_order, write_tagged_fields};
use crate::types::{KafkaString, RawTaggedField};
use crate::wire::{ReadOutcome, ViewClone, WriteOutcome, chain, clone_vec, emit, empty_vec, fail, has_room, lemma_append_empty, lemma_chain_written, lemma_step, opt_view, read_as, read_bytes_as, read_opt_as, read_vec_as, took_front, views, written, wrote};
use bytes::{Bytes, BytesMut};
use vstd::prelude::*;

verus! {

broadcast use {crate::wire::lemma_chain_written, crate::wire::lemma_took_front_nothing, crate::wire::lemma_took_front_twice};

#[derive(Debug, PartialEq)]
pub struct JoinGroupRequestData {
    /// The group identifier.
    pub group_id: KafkaString,
    /// The coordinator considers the consumer dead if it receives no heartbeat after this timeout
    /// in milliseconds.
    pub session_timeout_ms: i32,
    /// The maximum time in milliseconds that the coordinator will wait for each member to rejoin
    /// when rebalancing the group.
    pub rebalance_timeout_ms: i32,
    /// The member id assigned by the group coordinator.
    pub member_id: KafkaString,
    /// The unique identifier of the consumer instance provided by end user.
    pub group_instance_id: Option<KafkaString>,
    /// The unique name the for class of protocols implemented by the group we want to join.
    pub protocol_type: KafkaString,
    /// The list of protocols that the member supports.
    pub protocols: Vec<JoinGroupRequestProtocol>,
    /// The reason why the member (re-)joins the group.
    pub reason: Option<KafkaString>,
    pub _unknown_tagged_fields: Vec<RawTaggedField>,
}

/// What a `JoinGroupRequestData` holds, as the specification sees it.
#[verifier::ext_equal]
pub struct JoinGroupRequestDataView {
    pub group_id: Seq<u8>,
    pub session_timeout_ms: i32,
    pub rebalance_timeout_ms: i32,
    pub member_id: Seq<u8>,
    pub group_instance_id: Option<Seq<u8>>,
    pub protocol_type: Seq<u8>,
    pub protocols: Seq<JoinGroupRequestProtocolView>,
    pub reason: Option<Seq<u8>>,
    pub unknown_tagged_fields: Seq<(u32, Seq<u8>)>,
}

impl View for JoinGroupRequestData {
    type V = JoinGroupRequestDataView;

    open spec fn view(&self) -> JoinGroupRequestDataView {
        JoinGroupRequestDataView {
            group_id: self.group_id@,
            session_timeout_ms: self.session_timeout_ms,
            rebalance_timeout_ms: self.rebalance_timeout_ms,
            member_id: self.member_id@,
            group_instance_id: opt_view(self.group_instance_id),
            protocol_type: self.protocol_type@,
            protocols: views(self.protocols@),
            reason: opt_view(self.reason),
            unknown_tagged_fields: views(self._unknown_tagged_fields@),
        }
    }
}

impl Clone for JoinGroupRequestData {
    fn clone(&self) -> (r: Self)
        ensures
            r@ == self@,
    {
        let r = JoinGroupRequestData {
            group_id: self.group_id.clone(),
            session_timeout_ms: self.session_timeout_ms,
            rebalance_timeout_ms: self.rebalance_timeout_ms,
            member_id: self.member_id.clone(),
            group_instance_id: match &self.group_instance_id {
                Some(x) => Some(x.clone()),
                None => None,
            },
            protocol_type: self.protocol_type.clone(),
            protocols: clone_vec(&self.protocols),
            reason: match &self.reason {
                Some(x) => Some(x.clone()),
                None => None,
            },
            _unknown_tagged_fields: clone_vec(&self._unknown_tagged_fields),
        };
        assert(r@ =~= self@);
        r
    }
}

impl ViewClone for JoinGroupRequestData {
    fn clone_view(&self) -> (r: Self) {
        self.clone()
    }
}

impl Default for JoinGroupRequestData {
    fn default() -> (r: Self)
        ensures
            r@ == Self::default_view(),
    {
        let r = JoinGroupRequestData {
            group_id: KafkaString::default(),
            session_timeout_ms: 0_i32,
            rebalance_timeout_ms: -1i32,
            member_id: KafkaString::default(),
            group_instance_id: None,
            protocol_type: KafkaString::default(),
            protocols: empty_vec(),
            reason: None,
            _unknown_tagged_fields: empty_vec(),
        };
        assert(r@ =~= Self::default_view());
        r
    }
}

impl JoinGroupRequestData {
    pub open spec fn default_view() -> JoinGroupRequestDataView {
        JoinGroupRequestDataView {
            group_id: Seq::empty(),
            session_timeout_ms: 0_i32,
            rebalance_timeout_ms: -1i32,
            member_id: Seq::empty(),
            group_instance_id: None,
            protocol_type: Seq::empty(),
            protocols: Seq::empty(),
            reason: None,
            unknown_tagged_fields: Seq::empty(),
        }
    }

    /// The `group_id` field, read from the front of `s`.
    #[verifier::opaque]
    pub open spec fn spec_read_group_id(s: Seq<u8>, version: i16) -> ReadOutcome<Seq<u8>> {
        if version >= 6 {
            spec_read_compact_string(s)
        } else {
            spec_read_string(s)
        }
    }

    /// The `session_timeout_ms` field, read from the front of `s`.
    #[verifier::opaque]
    pub open spec fn spec_read_session_timeout_ms(s: Seq<u8>, version: i16) -> ReadOutcome<i32> {
        spec_read_i32(s)
    }

    /// The `rebalance_timeout_ms` field, read from the front of `s`.
    #[verifier::opaque]
    pub open spec fn spec_read_rebalance_timeout_ms(s: Seq<u8>, version: i16) -> ReadOutcome<i32> {
        if version >= 1 {
            spec_read_i32(s)
        } else {
            Ok((-1i32, s))
        }
    }

    /// The `member_id` field, read from the front of `s`.
    #[verifier::opaque]
    pub open spec fn spec_read_member_id(s: Seq<u8>, version: i16) -> ReadOutcome<Seq<u8>> {
        if version >= 6 {
            spec_read_compact_string(s)
        } else {
            spec_read_string(s)
        }
    }

    /// The `group_instance_id` field, read from the front of `s`.
    #[verifier::opaque]
    pub open spec fn spec_read_group_instance_id(s: Seq<u8>, version: i16) -> ReadOutcome<Option<Seq<u8>>> {
        if version >= 5 {
            if version >= 6 {
                spec_read_compact_nullable_string(s)
            } else {
                spec_read_nullable_string(s)
            }
        } else {
            Ok((None, s))
        }
    }

    /// The `protocol_type` field, read from the front of `s`.
    #[verifier::opaque]
    pub open spec fn spec_read_protocol_type(s: Seq<u8>, version: i16) -> ReadOutcome<Seq<u8>> {
        if version >= 6 {
            spec_read_compact_string(s)
        } else {
            spec_read_string(s)
        }
    }

    /// The `protocols` field, read from the front of `s`.
    #[verifier::opaque]
    pub open spec fn spec_read_protocols(s: Seq<u8>, version: i16) -> ReadOutcome<Seq<JoinGroupRequestProtocolView>> {
        if version >= 6 {
            spec_read_array::<JoinGroupRequestProtocol>(s, version, true)
        } else {
            spec_read_array::<JoinGroupRequestProtocol>(s, version, false)
        }
    }

    /// The `reason` field, read from the front of `s`.
    #[verifier::opaque]
    pub open spec fn spec_read_reason(s: Seq<u8>, version: i16) -> ReadOutcome<Option<Seq<u8>>> {
        if version >= 8 {
            spec_read_compact_nullable_string(s)
        } else {
            Ok((None, s))
        }
    }

    /// The tagged fields, read from the front of `s`.
    #[verifier::opaque]
    pub open spec fn spec_read_tags(s: Seq<u8>, version: i16) -> ReadOutcome<Seq<(u32, Seq<u8>)>> {
        if version >= 6 {
            spec_read_tagged_fields(s)
        } else {
            Ok((Seq::empty(), s))
        }
    }

    pub open spec fn spec_read(s: Seq<u8>, version: i16) -> ReadOutcome<JoinGroupRequestDataView> {
        if version < 0 || version > 9 {
            Err(Error::UnsupportedVersion(UnsupportedVersion { api_key: 11, version }))
        } else {
            match (Self::spec_read_group_id(s, version)) {
                Err(e) => Err(e),
                Ok((group_id, s)) => match (Self::spec_read_session_timeout_ms(s, version)) {
                    Err(e) => Err(e),
                    Ok((session_timeout_ms, s)) => match (Self::spec_read_rebalance_timeout_ms(s, version)) {
                        Err(e) => Err(e),
                        Ok((rebalance_timeout_ms, s)) => match (Self::spec_read_member_id(s, version)) {
                            Err(e) => Err(e),
                            Ok((member_id, s)) => match (Self::spec_read_group_instance_id(s, version)) {
                                Err(e) => Err(e),
                                Ok((group_instance_id, s)) => match (Self::spec_read_protocol_type(s, version)) {
                                    Err(e) => Err(e),
                                    Ok((protocol_type, s)) => match (Self::spec_read_protocols(s, version)) {
                                        Err(e) => Err(e),
                                        Ok((protocols, s)) => match (Self::spec_read_reason(s, version)) {
                                            Err(e) => Err(e),
                                            Ok((reason, s)) => match (Self::spec_read_tags(s, version)) {
                                                Err(e) => Err(e),
                                                Ok((unknown_tagged_fields, s)) => Ok((JoinGroupRequestDataView {
                                                            group_id: group_id,
                                                            session_timeout_ms: session_timeout_ms,
                                                            rebalance_timeout_ms: rebalance_timeout_ms,
                                                            member_id: member_id,
                                                            group_instance_id: group_instance_id,
                                                            protocol_type: protocol_type,
                                                            protocols: protocols,
                                                            reason: reason,
                                                            unknown_tagged_fields: unknown_tagged_fields,
                                                        }, s)),
                                            },
                                        },
                                    },
                                },
                            },
                        },
                    },
                },
            }
        }
    }

    /// What writing the `group_id` field of `m` appends.
    #[verifier::opaque]
    pub open spec fn spec_write_group_id(m: JoinGroupRequestDataView, version: i16) -> WriteOutcome {
        if version >= 6 {
            spec_write_compact_string(m.group_id)
        } else {
            spec_write_string(m.group_id)
        }
    }

    /// What writing the `session_timeout_ms` field of `m` appends.
    #[verifier::opaque]
    pub open spec fn spec_write_session_timeout_ms(m: JoinGroupRequestDataView, version: i16) -> WriteOutcome {
        spec_write_i32(m.session_timeout_ms)
    }

    /// What writing the `rebalance_timeout_ms` field of `m` appends.
    #[verifier::opaque]
    pub open spec fn spec_write_rebalance_timeout_ms(m: JoinGroupRequestDataView, version: i16) -> WriteOutcome {
        if version >= 1 {
            spec_write_i32(m.rebalance_timeout_ms)
        } else {
            emit(Seq::empty())
        }
    }

    /// What writing the `member_id` field of `m` appends.
    #[verifier::opaque]
    pub open spec fn spec_write_member_id(m: JoinGroupRequestDataView, version: i16) -> WriteOutcome {
        if version >= 6 {
            spec_write_compact_string(m.member_id)
        } else {
            spec_write_string(m.member_id)
        }
    }

    /// What writing the `group_instance_id` field of `m` appends.
    #[verifier::opaque]
    pub open spec fn spec_write_group_instance_id(m: JoinGroupRequestDataView, version: i16) -> WriteOutcome {
        if version >= 5 {
            if version >= 6 {
                spec_write_compact_nullable_string(m.group_instance_id)
            } else {
                spec_write_nullable_string(m.group_instance_id)
            }
        } else {
            emit(Seq::empty())
        }
    }

    /// What writing the `protocol_type` field of `m` appends.
    #[verifier::opaque]
    pub open spec fn spec_write_protocol_type(m: JoinGroupRequestDataView, version: i16) -> WriteOutcome {
        if version >= 6 {
            spec_write_compact_string(m.protocol_type)
        } else {
            spec_write_string(m.protocol_type)
        }
    }

    /// What writing the `protocols` field of `m` appends.
    #[verifier::opaque]
    pub open spec fn spec_write_protocols(m: JoinGroupRequestDataView, version: i16) -> WriteOutcome {
        if version >= 6 {
            spec_write_array::<JoinGroupRequestProtocol>(m.protocols, version, true)
        } else {
            spec_write_array::<JoinGroupRequestProtocol>(m.protocols, version, false)
        }
    }

    /// What writing the `reason` field of `m` appends.
    #[verifier::opaque]
    pub open spec fn spec_write_reason(m: JoinGroupRequestDataView, version: i16) -> WriteOutcome {
        if version >= 8 {
            spec_write_compact_nullable_string(m.reason)
        } else {
            emit(Seq::empty())
        }
    }

    /// What writing the tagged fields of `m` appends.
    #[verifier::opaque]
    pub open spec fn spec_write_tags(m: JoinGroupRequestDataView, version: i16) -> WriteOutcome {
        if version >= 6 {
            spec_write_tagged_fields(sorted_by_tag(m.unknown_tagged_fields))
        } else {
            emit(Seq::empty())
        }
    }

    pub open spec fn spec_write(m: JoinGroupRequestDataView, version: i16) -> WriteOutcome {
        if version < 0 || version > 9 {
            fail(Error::UnsupportedVersion(UnsupportedVersion { api_key: 11, version }))
        } else {
            chain(
                chain(
                    chain(
                        chain(
                            chain(
                                chain(
                                    chain(
                                        chain(
                                            Self::spec_write_group_id(m, version),
                                            Self::spec_write_session_timeout_ms(m, version),
                                        ),
                                        Self::spec_write_rebalance_timeout_ms(m, version),
                                    ),
                                    Self::spec_write_member_id(m, version),
                                ),
                                Self::spec_write_group_instance_id(m, version),
                            ),
                            Self::spec_write_protocol_type(m, version),
                        ),
                        Self::spec_write_protocols(m, version),
                    ),
                    Self::spec_write_reason(m, version),
                ),
                Self::spec_write_tags(m, version),
            )
        }
    }

    /// Whether reading back what writing `m` in `version` appends gives `m`:
    /// fields that the version does not carry hold their default values, and
    /// tagged fields come in the order in which they are written.
    pub open spec fn canonical(m: JoinGroupRequestDataView, version: i16) -> bool {
        &&& (if version >= 1 {
                true
            } else {
                m.rebalance_timeout_ms == -1i32
        })
        &&& (if version >= 5 {
                true
            } else {
                m.group_instance_id is None
        })
        &&& all_canonical::<JoinGroupRequestProtocol>(m.protocols, version)
        &&& (if version >= 8 {
                true
            } else {
                m.reason is None
        })
        &&& (if version >= 6 {
                tags_in_order(m.unknown_tagged_fields)
            } else {
                m.unknown_tagged_fields.len() == 0
        })
    }

    proof fn lemma_round_trip_group_id(m: JoinGroupRequestDataView, version: i16, rest: Seq<u8>)
        requires
            Self::canonical(m, version),
            Self::spec_write_group_id(m, version) is Ok,
        ensures
            Self::spec_read_group_id(written(Self::spec_write_group_id(m, version)) + rest, version) == Ok::<(Seq<u8>, Seq<u8>), Error>((m.group_id, rest)),
    {
        reveal(JoinGroupRequestData::spec_read_group_id);
        reveal(JoinGroupRequestData::spec_write_group_id);
        if version >= 6 {
            lemma_compact_string_round_trip(m.group_id, rest);
        } else {
            lemma_string_round_trip(m.group_id, rest);
        }
    }

    proof fn lemma_round_trip_session_timeout_ms(m: JoinGroupRequestDataView, version: i16, rest: Seq<u8>)
        requires
            Self::canonical(m, version),
            Self::spec_write_session_timeout_ms(m, version) is Ok,
        ensures
            Self::spec_read_session_timeout_ms(written(Self::spec_write_session_timeout_ms(m, version)) + rest, version) == Ok::<(i32, Seq<u8>), Error>((m.session_timeout_ms, rest)),
    {
        reveal(JoinGroupRequestData::spec_read_session_timeout_ms);
        reveal(JoinGroupRequestData::spec_write_session_timeout_ms);
        lemma_i32_roundtrip(m.session_timeout_ms, rest);
    }

    proof fn lemma_round_trip_rebalance_timeout_ms(m: JoinGroupRequestDataView, version: i16, rest: Seq<u8>)
        requires
            Self::canonical(m, version),
            Self::spec_write_rebalance_timeout_ms(m, version) is Ok,
        ensures
            Self::spec_read_rebalance_timeout_ms(written(Self::spec_write_rebalance_timeout_ms(m, version)) + rest, version) == Ok::<(i32, Seq<u8>), Error>((m.rebalance_timeout_ms, rest)),
    {
        reveal(JoinGroupRequestData::spec_read_rebalance_timeout_ms);
        reveal(JoinGroupRequestData::spec_write_rebalance_timeout_ms);
        if version >= 1 {
            lemma_i32_roundtrip(m.rebalance_timeout_ms, rest);
        } else {
            assert(Seq::<u8>::empty() + rest =~= rest);
        }
    }

    proof fn lemma_round_trip_member_id(m: JoinGroupRequestDataView, version: i16, rest: Seq<u8>)
        requires
            Self::canonical(m, version),
            Self::spec_write_member_id(m, version) is Ok,
        ensures
            Self::spec_read_member_id(written(Self::spec_write_member_id(m, version)) + rest, version) == Ok::<(Seq<u8>, Seq<u8>), Error>((m.member_id, rest)),
    {
        reveal(JoinGroupRequestData::spec_read_member_id);
        reveal(JoinGroupRequestData::spec_write_member_id);
        if version >= 6 {
            lemma_compact_string_round_trip(m.member_id, rest);
        } else {
            lemma_string_round_trip(m.member_id, rest);
        }
    }

    proof fn lemma_round_trip_group_instance_id(m: JoinGroupRequestDataView, version: i16, rest: Seq<u8>)
        requires
            Self::canonical(m, version),
            Self::spec_write_group_instance_id(m, version) is Ok,
        ensures
            Self::spec_read_group_instance_id(written(Self::spec_write_group_instance_id(m, version)) + rest, version) == Ok::<(Option<Seq<u8>>, Seq<u8>), Error>((m.group_instance_id, rest)),
    {
        reveal(JoinGroupRequestData::spec_read_group_instance_id);
        reveal(JoinGroupRequestData::spec_write_group_instance_id);
        if version >= 5 {
            if version >= 6 {
                lemma_compact_nullable_string_round_trip(m.group_instance_id, rest);
            } else {
                lemma_nullable_string_round_trip(m.group_instance_id, rest);
            }
        } else {
            assert(Seq::<u8>::empty() + rest =~= rest);
        }
    }

    proof fn lemma_round_trip_protocol_type(m: JoinGroupRequestDataView, version: i16, rest: Seq<u8>)
        requires
            Self::canonical(m, version),
            Self::spec_write_protocol_type(m, version) is Ok,
        ensures
            Self::spec_read_protocol_type(written(Self::spec_write_protocol_type(m, version)) + rest, version) == Ok::<(Seq<u8>, Seq<u8>), Error>((m.protocol_type, rest)),
    {
        reveal(JoinGroupRequestData::spec_read_protocol_type);
        reveal(JoinGroupRequestData::spec_write_protocol_type);
        if version >= 6 {
            lemma_compact_string_round_trip(m.protocol_type, rest);
        } else {
            lemma_string_round_trip(m.protocol_type, rest);
        }
    }

    proof fn lemma_round_trip_protocols(m: JoinGroupRequestDataView, version: i16, rest: Seq<u8>)
        requires
            Self::canonical(m, version),
            Self::spec_write_protocols(m, version) is Ok,
        ensures
            Self::spec_read_protocols(written(Self::spec_write_protocols(m, version)) + rest, version) == Ok::<(Seq<JoinGroupRequestProtocolView>, Seq<u8>), Error>((m.protocols, rest)),
    {
        reveal(JoinGroupRequestData::spec_read_protocols);
        reveal(JoinGroupRequestData::spec_write_protocols);
        if version >= 6 {
            lemma_array_round_trip::<JoinGroupRequestProtocol>(m.protocols, version, true, rest);
        } else {
            lemma_array_round_trip::<JoinGroupRequestProtocol>(m.protocols, version, false, rest);
        }
    }

    proof fn lemma_round_trip_reason(m: JoinGroupRequestDataView, version: i16, rest: Seq<u8>)
        requires
            Self::canonical(m, version),
            Self::spec_write_reason(m, version) is Ok,
        ensures
            Self::spec_read_reason(written(Self::spec_write_reason(m, version)) + rest, version) == Ok::<(Option<Seq<u8>>, Seq<u8>), Error>((m.reason, rest)),
    {
        reveal(JoinGroupRequestData::spec_read_reason);
        reveal(JoinGroupRequestData::spec_write_reason);
        if version >= 8 {
            lemma_compact_nullable_string_round_trip(m.reason, rest);
        } else {
            assert(Seq::<u8>::empty() + rest =~= rest);
        }
    }

    proof fn lemma_round_trip_tags(m: JoinGroupRequestDataView, version: i16, rest: Seq<u8>)
        requires
            Self::canonical(m, version),
            Self::spec_write_tags(m, version) is Ok,
        ensures
            Self::spec_read_tags(written(Self::spec_write_tags(m, version)) + rest, version) == Ok::<(Seq<(u32, Seq<u8>)>, Seq<u8>), Error>((m.unknown_tagged_fields, rest)),
    {
        reveal(JoinGroupRequestData::spec_read_tags);
        reveal(JoinGroupRequestData::spec_write_tags);
        if version >= 6 {
            lemma_sorted_by_tag_in_order(m.unknown_tagged_fields);
            lemma_tagged_fields_round_trip(m.unknown_tagged_fields, rest);
        } else {
            assert(Seq::<u8>::empty() + rest =~= rest);
            assert(m.unknown_tagged_fields =~= Seq::empty());
        }
    }

    /// Reading back what writing `m` in `version` appends gives `m` again, and
    /// leaves what follows, for every canonical message whose write succeeds.
    #[verifier::rlimit(100)]
    #[verifier::spinoff_prover]
    pub proof fn lemma_round_trip(m: JoinGroupRequestDataView, version: i16, rest: Seq<u8>)
        requires
            Self::canonical(m, version),
            Self::spec_write(m, version) is Ok,
        ensures
            Self::spec_read(written(Self::spec_write(m, version)) + rest, version) == Ok::<(JoinGroupRequestDataView, Seq<u8>), Error>((m, rest)),
    {
        let b0 = written(Self::spec_write_group_id(m, version));
        let b1 = written(Self::spec_write_session_timeout_ms(m, version));
        let b2 = written(Self::spec_write_rebalance_timeout_ms(m, version));
        let b3 = written(Self::spec_write_member_id(m, version));
        let b4 = written(Self::spec_write_group_instance_id(m, version));
        let b5 = written(Self::spec_write_protocol_type(m, version));
        let b6 = written(Self::spec_write_protocols(m, version));
        let b7 = written(Self::spec_write_reason(m, version));
        let b8 = written(Self::spec_write_tags(m, version));
        let t9 = rest;
        let t8 = b8 + t9;
        let t7 = b7 + t8;
        let t6 = b6 + t7;
        let t5 = b5 + t6;
        let t4 = b4 + t5;
        let t3 = b3 + t4;
        let t2 = b2 + t3;
        let t1 = b1 + t2;
        let t0 = b0 + t1;
        let w0 = Self::spec_write_group_id(m, version);
        let w1 = chain(w0, Self::spec_write_session_timeout_ms(m, version));
        let w2 = chain(w1, Self::spec_write_rebalance_timeout_ms(m, version));
        let w3 = chain(w2, Self::spec_write_member_id(m, version));
        let w4 = chain(w3, Self::spec_write_group_instance_id(m, version));
        let w5 = chain(w4, Self::spec_write_protocol_type(m, version));
        let w6 = chain(w5, Self::spec_write_protocols(m, version));
        let w7 = chain(w6, Self::spec_write_reason(m, version));
        let w8 = chain(w7, Self::spec_write_tags(m, version));
        assert(Self::spec_write(m, version) == w8);
        assert(written(w8) + t9 =~= written(w7) + t8);
        assert(written(w7) + t8 =~= written(w6) + t7);
        assert(written(w6) + t7 =~= written(w5) + t6);
        assert(written(w5) + t6 =~= written(w4) + t5);
        assert(written(w4) + t5 =~= written(w3) + t4);
        assert(written(w3) + t4 =~= written(w2) + t3);
        assert(written(w2) + t3 =~= written(w1) + t2);
        assert(written(w1) + t2 =~= written(w0) + t1);
        Self::lemma_round_trip_group_id(m, version, t1);
        Self::lemma_round_trip_session_timeout_ms(m, version, t2);
        Self::lemma_round_trip_rebalance_timeout_ms(m, version, t3);
        Self::lemma_round_trip_member_id(m, version, t4);
        Self::lemma_round_trip_group_instance_id(m, version, t5);
        Self::lemma_round_trip_protocol_type(m, version, t6);
        Self::lemma_round_trip_protocols(m, version, t7);
        Self::lemma_round_trip_reason(m, version, t8);
        Self::lemma_round_trip_tags(m, version, t9);
    }

    /// In a version that does not carry `rebalance_timeout_ms`, writing ignores its value.
    pub proof fn lemma_write_ignores_rebalance_timeout_ms(m: JoinGroupRequestDataView, value: i32, version: i16)
        requires
            !(version >= 1),
        ensures
            Self::spec_write((JoinGroupRequestDataView { rebalance_timeout_ms: value, ..m }), version) == Self::spec_write(m, version),
    {
        reveal(JoinGroupRequestData::spec_write_group_id);
        reveal(JoinGroupRequestData::spec_write_session_timeout_ms);
        reveal(JoinGroupRequestData::spec_write_rebalance_timeout_ms);
        reveal(JoinGroupRequestData::spec_write_member_id);
        reveal(JoinGroupRequestData::spec_write_group_instance_id);
        reveal(JoinGroupRequestData::spec_write_protocol_type);
        reveal(JoinGroupRequestData::spec_write_protocols);
        reveal(JoinGroupRequestData::spec_write_reason);
        reveal(JoinGroupRequestData::spec_write_tags);
    }

    /// In a version that does not carry `group_instance_id`, writing ignores its value.
    pub proof fn lemma_write_ignores_group_instance_id(m: JoinGroupRequestDataView, value: Option<Seq<u8>>, version: i16)
        requires
            !(version >= 5),
        ensures
            Self::spec_write((JoinGroupRequestDataView { group_instance_id: value, ..m }), version) == Self::spec_write(m, version),
    {
        reveal(JoinGroupRequestData::spec_write_group_id);
        reveal(JoinGroupRequestData::spec_write_session_timeout_ms);
        reveal(JoinGroupRequestData::spec_write_rebalance_timeout_ms);
        reveal(JoinGroupRequestData::spec_write_member_id);
        reveal(JoinGroupRequestData::spec_write_group_instance_id);
        reveal(JoinGroupRequestData::spec_write_protocol_type);
        reveal(JoinGroupRequestData::spec_write_protocols);
        reveal(JoinGroupRequestData::spec_write_reason);
        reveal(JoinGroupRequestData::spec_write_tags);
    }

    /// In a version that does not carry `reason`, writing ignores its value.
    pub proof fn lemma_write_ignores_reason(m: JoinGroupRequestDataView, value: Option<Seq<u8>>, version: i16)
        requires
            !(version >= 8),
        ensures
            Self::spec_write((JoinGroupRequestDataView { reason: value, ..m }), version) == Self::spec_write(m, version),
    {
        reveal(JoinGroupRequestData::spec_write_group_id);
        reveal(JoinGroupRequestData::spec_write_session_timeout_ms);
        reveal(JoinGroupRequestData::spec_write_rebalance_timeout_ms);
        reveal(JoinGroupRequestData::spec_write_member_id);
        reveal(JoinGroupRequestData::spec_write_group_instance_id);
        reveal(JoinGroupRequestData::spec_write_protocol_type);
        reveal(JoinGroupRequestData::spec_write_protocols);
        reveal(JoinGroupRequestData::spec_write_reason);
        reveal(JoinGroupRequestData::spec_write_tags);
    }

    /// In a version that does not carry `unknown_tagged_fields`, writing ignores its value.
    pub proof fn lemma_write_ignores_unknown_tagged_fields(m: JoinGroupRequestDataView, value: Seq<(u32, Seq<u8>)>, version: i16)
        requires
            !(version >= 6),
        ensures
            Self::spec_write((JoinGroupRequestDataView { unknown_tagged_fields: value, ..m }), version) == Self::spec_write(m, version),
    {
        reveal(JoinGroupRequestData::spec_write_group_id);
        reveal(JoinGroupRequestData::spec_write_session_timeout_ms);
        reveal(JoinGroupRequestData::spec_write_rebalance_timeout_ms);
        reveal(JoinGroupRequestData::spec_write_member_id);
        reveal(JoinGroupRequestData::spec_write_group_instance_id);
        reveal(JoinGroupRequestData::spec_write_protocol_type);
        reveal(JoinGroupRequestData::spec_write_protocols);
        reveal(JoinGroupRequestData::spec_write_reason);
        reveal(JoinGroupRequestData::spec_write_tags);
    }

    /// The default message holds the default value of each field of the schema.
    pub proof fn lemma_default_values()
        ensures
            Self::default_view().group_id.len() == 0,
            Self::default_view().session_timeout_ms == (0_i32),
            Self::default_view().rebalance_timeout_ms == (-1i32),
            Self::default_view().member_id.len() == 0,
            (Self::default_view().group_instance_id is None),
            Self::default_view().protocol_type.len() == 0,
            Self::default_view().protocols.len() == 0,
            (Self::default_view().reason is None),
            Self::default_view().unknown_tagged_fields.len() == 0,
    {
    }

    /// Each integer, boolean and identifier field is written as its standard
    /// big-endian bytes (a boolean as `1` or `0`) in the versions that carry
    /// it, and as nothing in the others; reading it takes those bytes back (any
    /// byte other than `0` reads as `true`), or gives its default value.
    pub proof fn lemma_field_encodings(m: JoinGroupRequestDataView, s: Seq<u8>, version: i16)
        ensures
            true ==> Self::spec_write_session_timeout_ms(m, version) == Ok::<Seq<u8>, (Error, Seq<u8>)>(u32_bytes(m.session_timeout_ms as u32)),
            version >= 1 ==> Self::spec_write_rebalance_timeout_ms(m, version) == Ok::<Seq<u8>, (Error, Seq<u8>)>(u32_bytes(m.rebalance_timeout_ms as u32)),
            !(version >= 1) ==> Self::spec_write_rebalance_timeout_ms(m, version) == Ok::<Seq<u8>, (Error, Seq<u8>)>(Seq::empty()),
            !(version >= 5) ==> Self::spec_write_group_instance_id(m, version) == Ok::<Seq<u8>, (Error, Seq<u8>)>(Seq::empty()),
            !(version >= 8) ==> Self::spec_write_reason(m, version) == Ok::<Seq<u8>, (Error, Seq<u8>)>(Seq::empty()),
            true ==> Self::spec_read_session_timeout_ms(s, version) == spec_read_i32(s),
            version >= 1 ==> Self::spec_read_rebalance_timeout_ms(s, version) == spec_read_i32(s),
            !(version >= 1) ==> Self::spec_read_rebalance_timeout_ms(s, version) == Ok::<(i32, Seq<u8>), Error>((-1i32, s)),
    {
        reveal(JoinGroupRequestData::spec_write_session_timeout_ms);
        reveal(JoinGroupRequestData::spec_read_session_timeout_ms);
        reveal(JoinGroupRequestData::spec_write_rebalance_timeout_ms);
        reveal(JoinGroupRequestData::spec_read_rebalance_timeout_ms);
        reveal(JoinGroupRequestData::spec_write_group_instance_id);
        reveal(JoinGroupRequestData::spec_read_group_instance_id);
        reveal(JoinGroupRequestData::spec_write_reason);
        reveal(JoinGroupRequestData::spec_read_reason);
    }

    /// Whether writing `m` in `version` succeeds, said over its parts: the
    /// version is one the schema covers, every field that the version cannot
    /// carry holds its default value, and every string, byte string, array and
    /// tagged field fits its length prefix.
    pub open spec fn writable(m: JoinGroupRequestDataView, version: i16) -> bool {
        &&& 0 <= version <= 9
        &&& m.group_id.len() <= 0x7fff
        &&& m.member_id.len() <= 0x7fff
        &&& (if version >= 5 {
                (m.group_instance_id matches Some(b) ==> b.len() <= 0x7fff)
            } else {
                true
        })
        &&& m.protocol_type.len() <= 0x7fff
        &&& (m.protocols.len() <= i32::MAX && all_writable::<JoinGroupRequestProtocol>(m.protocols, version))
        &&& (if version >= 8 {
                (m.reason matches Some(b) ==> b.len() <= 0x7fff)
            } else {
                true
        })
        &&& (if version >= 6 {
                m.unknown_tagged_fields.len() <= u32::MAX && tags_fit(m.unknown_tagged_fields)
            } else {
                true
        })
    }

    proof fn lemma_writable_group_id(m: JoinGroupRequestDataView, version: i16)
        ensures
            Self::spec_write_group_id(m, version) is Ok <==> m.group_id.len() <= 0x7fff,
    {
        reveal(JoinGroupRequestData::spec_write_group_id);
    }

    proof fn lemma_writable_session_timeout_ms(m: JoinGroupRequestDataView, version: i16)
        ensures
            Self::spec_write_session_timeout_ms(m, version) is Ok <==> true,
    {
        reveal(JoinGroupRequestData::spec_write_session_timeout_ms);
    }

    proof fn lemma_writable_rebalance_timeout_ms(m: JoinGroupRequestDataView, version: i16)
        ensures
            Self::spec_write_rebalance_timeout_ms(m, version) is Ok <==> true,
    {
        reveal(JoinGroupRequestData::spec_write_rebalance_timeout_ms);
    }

    proof fn lemma_writable_member_id(m: JoinGroupRequestDataView, version: i16)
        ensures
            Self::spec_write_member_id(m, version) is Ok <==> m.member_id.len() <= 0x7fff,
    {
        reveal(JoinGroupRequestData::spec_write_member_id);
    }

    proof fn lemma_writable_group_instance_id(m: JoinGroupRequestDataView, version: i16)
        ensures
            Self::spec_write_group_instance_id(m, version) is Ok <==> (if version >= 5 { (m.group_instance_id matches Some(b) ==> b.len() <= 0x7fff) } else { true }),
    {
        reveal(JoinGroupRequestData::spec_write_group_instance_id);
    }

    proof fn lemma_writable_protocol_type(m: JoinGroupRequestDataView, version: i16)
        ensures
            Self::spec_write_protocol_type(m, version) is Ok <==> m.protocol_type.len() <= 0x7fff,
    {
        reveal(JoinGroupRequestData::spec_write_protocol_type);
    }

    proof fn lemma_writable_protocols(m: JoinGroupRequestDataView, version: i16)
        ensures
            Self::spec_write_protocols(m, version) is Ok <==> (m.protocols.len() <= i32::MAX && all_writable::<JoinGroupRequestProtocol>(m.protocols, version)),
    {
        reveal(JoinGroupRequestData::spec_write_protocols);
        if version >= 6 {
            lemma_array_writable::<JoinGroupRequestProtocol>(m.protocols, version, true);
        } else {
            lemma_array_writable::<JoinGroupRequestProtocol>(m.protocols, version, false);
        }
    }

    proof fn lemma_writable_reason(m: JoinGroupRequestDataView, version: i16)
        ensures
            Self::spec_write_reason(m, version) is Ok <==> (if version >= 8 { (m.reason matches Some(b) ==> b.len() <= 0x7fff) } else { true }),
    {
        reveal(JoinGroupRequestData::spec_write_reason);
    }

    proof fn lemma_writable_tags(m: JoinGroupRequestDataView, version: i16)
        ensures
            Self::spec_write_tags(m, version) is Ok <==> (if version >= 6 { m.unknown_tagged_fields.len() <= u32::MAX && tags_fit(m.unknown_tagged_fields) } else { true }),
    {
        reveal(JoinGroupRequestData::spec_write_tags);
        if version >= 6 {
            lemma_sorted_tags_fit(m.unknown_tagged_fields);
            lemma_tagged_fields_writable(sorted_by_tag(m.unknown_tagged_fields));
        }
    }

    /// Writing `m` in `version` succeeds exactly when `m` is writable in it;
    /// so do `write` and `encoded_len`, whose results follow `spec_write`.
    #[verifier::rlimit(84)]
    pub proof fn lemma_writable(m: JoinGroupRequestDataView, version: i16)
        ensures
            Self::spec_write(m, version) is Ok <==> Self::writable(m, version),
    {
        Self::lemma_writable_group_id(m, version);
        Self::lemma_writable_session_timeout_ms(m, version);
        Self::lemma_writable_rebalance_timeout_ms(m, version);
        Self::lemma_writable_member_id(m, version);
        Self::lemma_writable_group_instance_id(m, version);
        Self::lemma_writable_protocol_type(m, version);
        Self::lemma_writable_protocols(m, version);
        Self::lemma_writable_reason(m, version);
        Self::lemma_writable_tags(m, version);
    }

    /// A version outside the range that the schema covers is refused, by
    /// reads and by writes alike, before anything is read or written.
    pub proof fn lemma_refused_version(m: JoinGroupRequestDataView, s: Seq<u8>, version: i16)
        requires
            version < 0 || version > 9,
        ensures
            Self::spec_read(s, version) == Err::<(JoinGroupRequestDataView, Seq<u8>), Error>(Error::UnsupportedVersion(UnsupportedVersion { api_key: 11, version })),
            Self::spec_write(m, version) == fail(Error::UnsupportedVersion(UnsupportedVersion { api_key: 11, version })),
    {
    }

    fn read_group_id(buf: &mut Bytes, version: i16) -> (r: Result<KafkaString, Error>)
        ensures
            read_as(Self::spec_read_group_id(bytes_seq(*old(buf)), version), *final(buf), r),
            took_front(*old(buf), *final(buf)),
    {
        proof {
            reveal(JoinGroupRequestData::spec_read_group_id);
        }
        Ok(if version >= 6 {
                read_compact_string(buf)?
            } else {
                read_string(buf)?
        })
    }

    fn read_session_timeout_ms(buf: &mut Bytes, version: i16) -> (r: Result<i32, Error>)
        ensures
            read_as(Self::spec_read_session_timeout_ms(bytes_seq(*old(buf)), version), *final(buf), r),
            took_front(*old(buf), *final(buf)),
    {
        proof {
            reveal(JoinGroupRequestData::spec_read_session_timeout_ms);
        }
        Ok(read_i32(buf)?)
    }

    fn read_rebalance_timeout_ms(buf: &mut Bytes, version: i16) -> (r: Result<i32, Error>)
        ensures
            read_as(Self::spec_read_rebalance_timeout_ms(bytes_seq(*old(buf)), version), *final(buf), r),
            took_front(*old(buf), *final(buf)),
    {
        proof {
            reveal(JoinGroupRequestData::spec_read_rebalance_timeout_ms);
        }
        Ok(if version >= 1 {
                read_i32(buf)?
            } else {
                -1i32
        })
    }

    fn read_member_id(buf: &mut Bytes, version: i16) -> (r: Result<KafkaString, Error>)
        ensures
            read_as(Self::spec_read_member_id(bytes_seq(*old(buf)), version), *final(buf), r),
            took_front(*old(buf), *final(buf)),
    {
        proof {
            reveal(JoinGroupRequestData::spec_read_member_id);
        }
        Ok(if version >= 6 {
                read_compact_string(buf)?
            } else {
                read_string(buf)?
        })
    }

    fn read_group_instance_id(buf: &mut Bytes, version: i16) -> (r: Result<Option<KafkaString>, Error>)
        ensures
            read_opt_as(Self::spec_read_group_instance_id(bytes_seq(*old(buf)), version), *final(buf), r),
            took_front(*old(buf), *final(buf)),
    {
        proof {
            reveal(JoinGroupRequestData::spec_read_group_instance_id);
        }
        Ok(if version >= 5 {
                if version >= 6 {
                    read_compact_nullable_string(buf)?
                } else {
                    read_nullable_string(buf)?
                }
            } else {
                None
        })
    }

    fn read_protocol_type(buf: &mut Bytes, version: i16) -> (r: Result<KafkaString, Error>)
        ensures
            read_as(Self::spec_read_protocol_type(bytes_seq(*old(buf)), version), *final(buf), r),
            took_front(*old(buf), *final(buf)),
    {
        proof {
            reveal(JoinGroupRequestData::spec_read_protocol_type);
        }
        Ok(if version >= 6 {
                read_compact_string(buf)?
            } else {
                read_string(buf)?
        })
    }

    fn read_protocols(buf: &mut Bytes, version: i16) -> (r: Result<Vec<JoinGroupRequestProtocol>, Error>)
        ensures
            read_vec_as(Self::spec_read_protocols(bytes_seq(*old(buf)), version), *final(buf), r),
            took_front(*old(buf), *final(buf)),
    {
        proof {
            reveal(JoinGroupRequestData::spec_read_protocols);
        }
        Ok(if version >= 6 {
                read_array::<JoinGroupRequestProtocol>(buf, version, true)?
            } else {
                read_array::<JoinGroupRequestProtocol>(buf, version, false)?
        })
    }

    fn read_reason(buf: &mut Bytes, version: i16) -> (r: Result<Option<KafkaString>, Error>)
        ensures
            read_opt_as(Self::spec_read_reason(bytes_seq(*old(buf)), version), *final(buf), r),
            took_front(*old(buf), *final(buf)),
    {
        proof {
            reveal(JoinGroupRequestData::spec_read_reason);
        }
        Ok(if version >= 8 {
                read_compact_nullable_string(buf)?
            } else {
                None
        })
    }

    fn read_tags(buf: &mut Bytes, version: i16) -> (r: Result<Vec<RawTaggedField>, Error>)
        ensures
            read_vec_as(Self::spec_read_tags(bytes_seq(*old(buf)), version), *final(buf), r),
            took_front(*old(buf), *final(buf)),
    {
        proof {
            reveal(JoinGroupRequestData::spec_read_tags);
        }
        Ok(if version >= 6 {
                read_tagged_fields(buf)?
            } else {
                empty_vec()
        })
    }

    #[verifier::rlimit(74)]
    #[verifier::spinoff_prover]
    pub fn read(buf: &mut Bytes, version: i16) -> (r: Result<Self, Error>)
        ensures
            read_as(Self::spec_read(bytes_seq(*old(buf)), version), *final(buf), r),
            took_front(*old(buf), *final(buf)),
            (version < 0 || version > 9) ==> bytes_seq(*final(buf)) == bytes_seq(*old(buf)),
    {
        if version < 0 || version > 9 {
            return Err(Error::UnsupportedVersion(UnsupportedVersion::new(11, version)));
        }
        let group_id = Self::read_group_id(buf, version)?;
        let session_timeout_ms = Self::read_session_timeout_ms(buf, version)?;
        let rebalance_timeout_ms = Self::read_rebalance_timeout_ms(buf, version)?;
        let member_id = Self::read_member_id(buf, version)?;
        let group_instance_id = Self::read_group_instance_id(buf, version)?;
        let protocol_type = Self::read_protocol_type(buf, version)?;
        let protocols = Self::read_protocols(buf, version)?;
        let reason = Self::read_reason(buf, version)?;
        let _unknown_tagged_fields = Self::read_tags(buf, version)?;
        Ok(JoinGroupRequestData {
                group_id: group_id,
                session_timeout_ms: session_timeout_ms,
                rebalance_timeout_ms: rebalance_timeout_ms,
                member_id: member_id,
                group_instance_id: group_instance_id,
                protocol_type: protocol_type,
                protocols: protocols,
                reason: reason,
                _unknown_tagged_fields: _unknown_tagged_fields,
        })
    }

    #[verifier::rlimit(100)]
    #[verifier::spinoff_prover]
    pub fn write(&self, buf: &mut BytesMut, version: i16) -> (r: Result<(), Error>)
        requires
            has_room(Self::spec_write(self@, version), *old(buf)),
        ensures
            wrote(Self::spec_write(self@, version), *old(buf), *final(buf), r),
    {
        if version < 0 || version > 9 {
            return Err(Error::UnsupportedVersion(UnsupportedVersion::new(11, version)));
        }
        let ghost m = self@;
        proof {
            reveal(JoinGroupRequestData::spec_write_group_id);
            reveal(JoinGroupRequestData::spec_write_session_timeout_ms);
            reveal(JoinGroupRequestData::spec_write_rebalance_timeout_ms);
            reveal(JoinGroupRequestData::spec_write_member_id);
            reveal(JoinGroupRequestData::spec_write_group_instance_id);
            reveal(JoinGroupRequestData::spec_write_protocol_type);
            reveal(JoinGroupRequestData::spec_write_protocols);
            reveal(JoinGroupRequestData::spec_write_reason);
            reveal(JoinGroupRequestData::spec_write_tags);
        }
        let ghost s0 = Self::spec_write_group_id(m, version);
        let ghost w0 = s0;
        let ghost s1 = Self::spec_write_session_timeout_ms(m, version);
        let ghost w1 = chain(w0, s1);
        let ghost s2 = Self::spec_write_rebalance_timeout_ms(m, version);
        let ghost w2 = chain(w1, s2);
        let ghost s3 = Self::spec_write_member_id(m, version);
        let ghost w3 = chain(w2, s3);
        let ghost s4 = Self::spec_write_group_instance_id(m, version);
        let ghost w4 = chain(w3, s4);
        let ghost s5 = Self::spec_write_protocol_type(m, version);
        let ghost w5 = chain(w4, s5);
        let ghost s6 = Self::spec_write_protocols(m, version);
        let ghost w6 = chain(w5, s6);
        let ghost s7 = Self::spec_write_reason(m, version);
        let ghost w7 = chain(w6, s7);
        let ghost s8 = Self::spec_write_tags(m, version);
        let ghost w8 = chain(w7, s8);
        assert(Self::spec_write(m, version) == w8);
        assert(written(w7).len() <= written(w8).len() && (w7 is Err ==> w8 == w7));
        assert(written(w6).len() <= written(w8).len() && (w6 is Err ==> w8 == w6));
        assert(written(w5).len() <= written(w8).len() && (w5 is Err ==> w8 == w5));
        assert(written(w4).len() <= written(w8).len() && (w4 is Err ==> w8 == w4));
        assert(written(w3).len() <= written(w8).len() && (w3 is Err ==> w8 == w3));
        assert(written(w2).len() <= written(w8).len() && (w2 is Err ==> w8 == w2));
        assert(written(w1).len() <= written(w8).len() && (w1 is Err ==> w8 == w1));
        assert(written(w0).len() <= written(w8).len() && (w0 is Err ==> w8 == w0));
        let ghost mid = bytes_mut_seq(*buf);
        proof {
            lemma_append_empty(mid);
        }
        let r0 = if version >= 6 {
            write_compact_string(buf, &self.group_id)
        } else {
            write_string(buf, &self.group_id)
        };
        assert(bytes_mut_seq(*buf) == mid + written(s0));
        if r0.is_err() {
            return r0;
        }
        let ghost mid = bytes_mut_seq(*buf);
        proof {
            lemma_append_empty(mid);
        }
        let r1 = {
            write_i32(buf, self.session_timeout_ms);
            Ok(())
        };
        assert(bytes_mut_seq(*buf) == mid + written(s1));
        proof {
            lemma_step(bytes_mut_seq(*old(buf)), w0, s1);
        }
        if r1.is_err() {
            return r1;
        }
        let ghost mid = bytes_mut_seq(*buf);
        proof {
            lemma_append_empty(mid);
        }
        let r2 = if version >= 1 {
            {
                write_i32(buf, self.rebalance_timeout_ms);
                Ok(())
            }
        } else {
            Ok(())
        };
        assert(bytes_mut_seq(*buf) == mid + written(s2));
        proof {
            lemma_step(bytes_mut_seq(*old(buf)), w1, s2);
        }
        if r2.is_err() {
            return r2;
        }
        let ghost mid = bytes_mut_seq(*buf);
        proof {
            lemma_append_empty(mid);
        }
        let r3 = if version >= 6 {
            write_compact_string(buf, &self.member_id)
        } else {
            write_string(buf, &self.member_id)
        };
        assert(bytes_mut_seq(*buf) == mid + written(s3));
        proof {
            lemma_step(bytes_mut_seq(*old(buf)), w2, s3);
        }
        if r3.is_err() {
            return r3;
        }
        let ghost mid = bytes_mut_seq(*buf);
        proof {
            lemma_append_empty(mid);
        }
        let r4 = if version >= 5 {
            if version >= 6 {
                write_compact_nullable_string(buf, &self.group_instance_id)
            } else {
                write_nullable_string(buf, &self.group_instance_id)
            }
        } else {
            Ok(())
        };
        assert(bytes_mut_seq(*buf) == mid + written(s4));
        proof {
            lemma_step(bytes_mut_seq(*old(buf)), w3, s4);
        }
        if r4.is_err() {
            return r4;
        }
        let ghost mid = bytes_mut_seq(*buf);
        proof {
            lemma_append_empty(mid);
        }
        let r5 = if version >= 6 {
            write_compact_string(buf, &self.protocol_type)
        } else {
            write_string(buf, &self.protocol_type)
        };
        assert(bytes_mut_seq(*buf) == mid + written(s5));
        proof {
            lemma_step(bytes_mut_seq(*old(buf)), w4, s5);
        }
        if r5.is_err() {
            return r5;
        }
        let ghost mid = bytes_mut_seq(*buf);
        proof {
            lemma_append_empty(mid);
        }
        let r6 = if version >= 6 {
            write_array::<JoinGroupRequestProtocol>(buf, &self.protocols, version, true)
        } else {
            write_array::<JoinGroupRequestProtocol>(buf, &self.protocols, version, false)
        };
        assert(bytes_mut_seq(*buf) == mid + written(s6));
        proof {
            lemma_step(bytes_mut_seq(*old(buf)), w5, s6);
        }
        if r6.is_err() {
            return r6;
        }
        let ghost mid = bytes_mut_seq(*buf);
        proof {
            lemma_append_empty(mid);
        }
        let r7 = if version >= 8 {
            write_compact_nullable_string(buf, &self.reason)
        } else {
            Ok(())
        };
        assert(bytes_mut_seq(*buf) == mid + written(s7));
        proof {
            lemma_step(bytes_mut_seq(*old(buf)), w6, s7);
        }
        if r7.is_err() {
            return r7;
        }
        let ghost mid = bytes_mut_seq(*buf);
        proof {
            lemma_append_empty(mid);
        }
        let r8 = if version >= 6 {
            write_tagged_fields(buf, &sort_by_tag(&self._unknown_tagged_fields))
        } else {
            Ok(())
        };
        assert(bytes_mut_seq(*buf) == mid + written(s8));
        proof {
            lemma_step(bytes_mut_seq(*old(buf)), w7, s8);
        }
        if r8.is_err() {
            return r8;
        }
        Ok(())
    }
}

#[derive(Debug, PartialEq)]
pub struct JoinGroupRequestProtocol {
    /// The protocol name.
    pub name: KafkaString,
    /// The protocol metadata.
    pub metadata: Bytes,
    pub _unknown_tagged_fields: Vec<RawTaggedField>,
}

/// What a `JoinGroupRequestProtocol` holds, as the specification sees it.
#[verifier::ext_equal]
pub struct JoinGroupRequestProtocolView {
    pub name: Seq<u8>,
    pub metadata: Seq<u8>,
    pub unknown_tagged_fields: Seq<(u32, Seq<u8>)>,
}

impl View for JoinGroupRequestProtocol {
    type V = JoinGroupRequestProtocolView;

    open spec fn view(&self) -> JoinGroupRequestProtocolView {
        JoinGroupRequestProtocolView {
            name: self.name@,
            metadata: bytes_seq(self.metadata),
            unknown_tagged_fields: views(self._unknown_tagged_fields@),
        }
    }
}

impl Clone for JoinGroupRequestProtocol {
    fn clone(&self) -> (r: Self)
        ensures
            r@ == self@,
    {
        let r = JoinGroupRequestProtocol {
            name: self.name.clone(),
            metadata: self.metadata.clone(),
            _unknown_tagged_fields: clone_vec(&self._unknown_tagged_fields),
        };
        assert(r@ =~= self@);
        r
    }
}

impl ViewClone for JoinGroupRequestProtocol {
    fn clone_view(&self) -> (r: Self) {
        self.clone()
    }
}

impl Default for JoinGroupRequestProtocol {
    fn default() -> (r: Self)
        ensures
            r@ == Self::default_view(),
    {
        let r = JoinGroupRequestProtocol {
            name: KafkaString::default(),
            metadata: bytes_empty(),
            _unknown_tagged_fields: empty_vec(),
        };
        assert(r@ =~= Self::default_view());
        r
    }
}

impl JoinGroupRequestProtocol {
    pub open spec fn default_view() -> JoinGroupRequestProtocolView {
        JoinGroupRequestProtocolView {
            name: Seq::empty(),
            metadata: Seq::empty(),
            unknown_tagged_fields: Seq::empty(),
        }
    }

    /// The `name` field, read from the front of `s`.
    #[verifier::opaque]
    pub open spec fn spec_read_name(s: Seq<u8>, version: i16) -> ReadOutcome<Seq<u8>> {
        if version >= 6 {
            spec_read_compact_string(s)
        } else {
            spec_read_string(s)
        }
    }

    /// The `metadata` field, read from the front of `s`.
    #[verifier::opaque]
    pub open spec fn spec_read_metadata(s: Seq<u8>, version: i16) -> ReadOutcome<Seq<u8>> {
        if version >= 6 {
            spec_read_compact_bytes(s)
        } else {
            spec_read_bytes(s)
        }
    }

    /// The tagged fields, read from the front of `s`.
    #[verifier::opaque]
    pub open spec fn spec_read_tags(s: Seq<u8>, version: i16) -> ReadOutcome<Seq<(u32, Seq<u8>)>> {
        if version >= 6 {
            spec_read_tagged_fields(s)
        } else {
            Ok((Seq::empty(), s))
        }
    }

    pub open spec fn spec_read(s: Seq<u8>, version: i16) -> ReadOutcome<JoinGroupRequestProtocolView> {
        match (Self::spec_read_name(s, version)) {
            Err(e) => Err(e),
            Ok((name, s)) => match (Self::spec_read_metadata(s, version)) {
                Err(e) => Err(e),
                Ok((metadata, s)) => match (Self::spec_read_tags(s, version)) {
                    Err(e) => Err(e),
                    Ok((unknown_tagged_fields, s)) => Ok((JoinGroupRequestProtocolView {
                                name: name,
                                metadata: metadata,
                                unknown_tagged_fields: unknown_tagged_fields,
                            }, s)),
                },
            },
        }
    }

    /// What writing the `name` field of `m` appends.
    #[verifier::opaque]
    pub open spec fn spec_write_name(m: JoinGroupRequestProtocolView, version: i16) -> WriteOutcome {
        if version >= 6 {
            spec_write_compact_string(m.name)
        } else {
            spec_write_string(m.name)
        }
    }

    /// What writing the `metadata` field of `m` appends.
    #[verifier::opaque]
    pub open spec fn spec_write_metadata(m: JoinGroupRequestProtocolView, version: i16) -> WriteOutcome {
        if version >= 6 {
            spec_write_compact_bytes(m.metadata)
        } else {
            spec_write_bytes(m.metadata)
        }
    }

    /// What writing the tagged fields of `m` appends.
    #[verifier::opaque]
    pub open spec fn spec_write_tags(m: JoinGroupRequestProtocolView, version: i16) -> WriteOutcome {
        if version >= 6 {
            spec_write_tagged_fields(sorted_by_tag(m.unknown_tagged_fields))
        } else {
            emit(Seq::empty())
        }
    }

    pub open spec fn spec_write(m: JoinGroupRequestProtocolView, version: i16) -> WriteOutcome {
        chain(
            chain(
                Self::spec_write_name(m, version),
                Self::spec_write_metadata(m, version),
            ),
            Self::spec_write_tags(m, version),
        )
    }

    /// Whether reading back what writing `m` in `version` appends gives `m`:
    /// fields that the version does not carry hold their default values, and
    /// tagged fields come in the order in which they are written.
    pub open spec fn canonical(m: JoinGroupRequestProtocolView, version: i16) -> bool {
        &&& (if version >= 6 {
                tags_in_order(m.unknown_tagged_fields)
            } else {
                m.unknown_tagged_fields.len() == 0
        })
    }

    proof fn lemma_round_trip_name(m: JoinGroupRequestProtocolView, version: i16, rest: Seq<u8>)
        requires
            Self::canonical(m, version),
            Self::spec_write_name(m, version) is Ok,
        ensures
            Self::spec_read_name(written(Self::spec_write_name(m, version)) + rest, version) == Ok::<(Seq<u8>, Seq<u8>), Error>((m.name, rest)),
    {
        reveal(JoinGroupRequestProtocol::spec_read_name);
        reveal(JoinGroupRequestProtocol::spec_write_name);
        if version >= 6 {
            lemma_compact_string_round_trip(m.name, rest);
        } else {
            lemma_string_round_trip(m.name, rest);
        }
    }

    proof fn lemma_round_trip_metadata(m: JoinGroupRequestProtocolView, version: i16, rest: Seq<u8>)
        requires
            Self::canonical(m, version),
            Self::spec_write_metadata(m, version) is Ok,
        ensures
            Self::spec_read_metadata(written(Self::spec_write_metadata(m, version)) + rest, version) == Ok::<(Seq<u8>, Seq<u8>), Error>((m.metadata, rest)),
    {
        reveal(JoinGroupRequestProtocol::spec_read_metadata);
        reveal(JoinGroupRequestProtocol::spec_write_metadata);
        if version >= 6 {
            lemma_compact_bytes_round_trip(m.metadata, rest);
        } else {
            lemma_bytes_round_trip(m.metadata, rest);
        }
    }

    proof fn lemma_round_trip_tags(m: JoinGroupRequestProtocolView, version: i16, rest: Seq<u8>)
        requires
            Self::canonical(m, version),
            Self::spec_write_tags(m, version) is Ok,
        ensures
            Self::spec_read_tags(written(Self::spec_write_tags(m, version)) + rest, version) == Ok::<(Seq<(u32, Seq<u8>)>, Seq<u8>), Error>((m.unknown_tagged_fields, rest)),
    {
        reveal(JoinGroupRequestProtocol::spec_read_tags);
        reveal(JoinGroupRequestProtocol::spec_write_tags);
        if version >= 6 {
            lemma_sorted_by_tag_in_order(m.unknown_tagged_fields);
            lemma_tagged_fields_round_trip(m.unknown_tagged_fields, rest);
        } else {
            assert(Seq::<u8>::empty() + rest =~= rest);
            assert(m.unknown_tagged_fields =~= Seq::empty());
        }
    }

    /// Reading back what writing `m` in `version` appends gives `m` again, and
    /// leaves what follows, for every canonical message whose write succeeds.
    #[verifier::rlimit(70)]
    #[verifier::spinoff_prover]
    pub proof fn lemma_round_trip(m: JoinGroupRequestProtocolView, version: i16, rest: Seq<u8>)
        requires
            Self::canonical(m, version),
            Self::spec_write(m, version) is Ok,
        ensures
            Self::spec_read(written(Self::spec_write(m, version)) + rest, version) == Ok::<(JoinGroupRequestProtocolView, Seq<u8>), Error>((m, rest)),
    {
        let b0 = written(Self::spec_write_name(m, version));
        let b1 = written(Self::spec_write_metadata(m, version));
        let b2 = written(Self::spec_write_tags(m, version));
        let t3 = rest;
        let t2 = b2 + t3;
        let t1 = b1 + t2;
        let t0 = b0 + t1;
        let w0 = Self::spec_write_name(m, version);
        let w1 = chain(w0, Self::spec_write_metadata(m, version));
        let w2 = chain(w1, Self::spec_write_tags(m, version));
        assert(Self::spec_write(m, version) == w2);
        assert(written(w2) + t3 =~= written(w1) + t2);
        assert(written(w1) + t2 =~= written(w0) + t1);
        Self::lemma_round_trip_name(m, version, t1);
        Self::lemma_round_trip_metadata(m, version, t2);
        Self::lemma_round_trip_tags(m, version, t3);
    }

    /// In a version that does not carry `unknown_tagged_fields`, writing ignores its value.
    pub proof fn lemma_write_ignores_unknown_tagged_fields(m: JoinGroupRequestProtocolView, value: Seq<(u32, Seq<u8>)>, version: i16)
        requires
            !(version >= 6),
        ensures
            Self::spec_write((JoinGroupRequestProtocolView { unknown_tagged_fields: value, ..m }), version) == Self::spec_write(m, version),
    {
        reveal(JoinGroupRequestProtocol::spec_write_name);
        reveal(JoinGroupRequestProtocol::spec_write_metadata);
        reveal(JoinGroupRequestProtocol::spec_write_tags);
    }

    /// The default message holds the default value of each field of the schema.
    pub proof fn lemma_default_values()
        ensures
            Self::default_view().name.len() == 0,
            Self::default_view().metadata.len() == 0,
            Self::default_view().unknown_tagged_fields.len() == 0,
    {
    }

    /// Whether writing `m` in `version` succeeds, said over its parts: the
    /// version is one the schema covers, every field that the version cannot
    /// carry holds its default value, and every string, byte string, array and
    /// tagged field fits its length prefix.
    pub open spec fn writable(m: JoinGroupRequestProtocolView, version: i16) -> bool {
        &&& m.name.len() <= 0x7fff
        &&& (if version >= 6 {
                m.metadata.len() < u32::MAX
            } else {
                m.metadata.len() <= i32::MAX
        })
        &&& (if version >= 6 {
                m.unknown_tagged_fields.len() <= u32::MAX && tags_fit(m.unknown_tagged_fields)
            } else {
                true
        })
    }

    proof fn lemma_writable_name(m: JoinGroupRequestProtocolView, version: i16)
        ensures
            Self::spec_write_name(m, version) is Ok <==> m.name.len() <= 0x7fff,
    {
        reveal(JoinGroupRequestProtocol::spec_write_name);
    }

    proof fn lemma_writable_metadata(m: JoinGroupRequestProtocolView, version: i16)
        ensures
            Self::spec_write_metadata(m, version) is Ok <==> (if version >= 6 { m.metadata.len() < u32::MAX } else { m.metadata.len() <= i32::MAX }),
    {
        reveal(JoinGroupRequestProtocol::spec_write_metadata);
    }

    proof fn lemma_writable_tags(m: JoinGroupRequestProtocolView, version: i16)
        ensures
            Self::spec_write_tags(m, version) is Ok <==> (if version >= 6 { m.unknown_tagged_fields.len() <= u32::MAX && tags_fit(m.unknown_tagged_fields) } else { true }),
    {
        reveal(JoinGroupRequestProtocol::spec_write_tags);
        if version >= 6 {
            lemma_sorted_tags_fit(m.unknown_tagged_fields);
            lemma_tagged_fields_writable(sorted_by_tag(m.unknown_tagged_fields));
        }
    }

    /// Writing `m` in `version` succeeds exactly when `m` is writable in it;
    /// so do `write` and `encoded_len`, whose results follow `spec_write`.
    #[verifier::rlimit(48)]
    pub proof fn lemma_writable(m: JoinGroupRequestProtocolView, version: i16)
        ensures
            Self::spec_write(m, version) is Ok <==> Self::writable(m, version),
    {
        Self::lemma_writable_name(m, version);
        Self::lemma_writable_metadata(m, version);
        Self::lemma_writable_tags(m, version);
    }

    fn read_name(buf: &mut Bytes, version: i16) -> (r: Result<KafkaString, Error>)
        ensures
            read_as(Self::spec_read_name(bytes_seq(*old(buf)), version), *final(buf), r),
            took_front(*old(buf), *final(buf)),
    {
        proof {
            reveal(JoinGroupRequestProtocol::spec_read_name);
        }
        Ok(if version >= 6 {
                read_compact_string(buf)?
            } else {
                read_string(buf)?
        })
    }

    fn read_metadata(buf: &mut Bytes, version: i16) -> (r: Result<Bytes, Error>)
        ensures
            read_bytes_as(Self::spec_read_metadata(bytes_seq(*old(buf)), version), *final(buf), r),
            took_front(*old(buf), *final(buf)),
    {
        proof {
            reveal(JoinGroupRequestProtocol::spec_read_metadata);
        }
        Ok(if version >= 6 {
                read_compact_bytes(buf)?
            } else {
                read_bytes(buf)?
        })
    }

    fn read_tags(buf: &mut Bytes, version: i16) -> (r: Result<Vec<RawTaggedField>, Error>)
        ensures
            read_vec_as(Self::spec_read_tags(bytes_seq(*old(buf)), version), *final(buf), r),
            took_front(*old(buf), *final(buf)),
    {
        proof {
            reveal(JoinGroupRequestProtocol::spec_read_tags);
        }
        Ok(if version >= 6 {
                read_tagged_fields(buf)?
            } else {
                empty_vec()
        })
    }

    pub fn read(buf: &mut Bytes, version: i16) -> (r: Result<Self, Error>)
        ensures
            read_as(Self::spec_read(bytes_seq(*old(buf)), version), *final(buf), r),
            took_front(*old(buf), *final(buf)),
    {
        let name = Self::read_name(buf, version)?;
        let metadata = Self::read_metadata(buf, version)?;
        let _unknown_tagged_fields = Self::read_tags(buf, version)?;
        Ok(JoinGroupRequestProtocol {
                name: name,
                metadata: metadata,
                _unknown_tagged_fields: _unknown_tagged_fields,
        })
    }

    #[verifier::rlimit(60)]
    pub fn write(&self, buf: &mut BytesMut, version: i16) -> (r: Result<(), Error>)
        requires
            has_room(Self::spec_write(self@, version), *old(buf)),
        ensures
            wrote(Self::spec_write(self@, version), *old(buf), *final(buf), r),
    {
        let ghost m = self@;
        proof {
            reveal(JoinGroupRequestProtocol::spec_write_name);
            reveal(JoinGroupRequestProtocol::spec_write_metadata);
            reveal(JoinGroupRequestProtocol::spec_write_tags);
        }
        let ghost s0 = Self::spec_write_name(m, version);
        let ghost w0 = s0;
        let ghost s1 = Self::spec_write_metadata(m, version);
        let ghost w1 = chain(w0, s1);
        let ghost s2 = Self::spec_write_tags(m, version);
        let ghost w2 = chain(w1, s2);
        assert(Self::spec_write(m, version) == w2);
        assert(written(w1).len() <= written(w2).len() && (w1 is Err ==> w2 == w1));
        assert(written(w0).len() <= written(w2).len() && (w0 is Err ==> w2 == w0));
        let ghost mid = bytes_mut_seq(*buf);
        proof {
            lemma_append_empty(mid);
        }
        let r0 = if version >= 6 {
            write_compact_string(buf, &self.name)
        } else {
            write_string(buf, &self.name)
        };
        assert(bytes_mut_seq(*buf) == mid + written(s0));
        if r0.is_err() {
            return r0;
        }
        let ghost mid = bytes_mut_seq(*buf);
        proof {
            lemma_append_empty(mid);
        }
        let r1 = if version >= 6 {
            write_compact_bytes(buf, &self.metadata)
        } else {
            write_bytes(buf, &self.metadata)
        };
        assert(bytes_mut_seq(*buf) == mid + written(s1));
        proof {
            lemma_step(bytes_mut_seq(*old(buf)), w0, s1);
        }
        if r1.is_err() {
            return r1;
        }
        let ghost mid = bytes_mut_seq(*buf);
        proof {
            lemma_append_empty(mid);
        }
        let r2 = if version >= 6 {
            write_tagged_fields(buf, &sort_by_tag(&self._unknown_tagged_fields))
        } else {
            Ok(())
        };
        assert(bytes_mut_seq(*buf) == mid + written(s2));
        proof {
            lemma_step(bytes_mut_seq(*old(buf)), w1, s2);
        }
        if r2.is_err() {
            return r2;
        }
        Ok(())
    }
}

impl Codec for JoinGroupRequestProtocol {
    type Item = JoinGroupRequestProtocol;

    open spec fn spec_read_item(s: Seq<u8>, version: i16) -> ReadOutcome<JoinGroupRequestProtocolView> {
        JoinGroupRequestProtocol::spec_read(s, version)
    }

    open spec fn spec_write_item(v: JoinGroupRequestProtocolView, version: i16) -> WriteOutcome {
        JoinGroupRequestProtocol::spec_write(v, version)
    }

    open spec fn canonical_item(v: JoinGroupRequestProtocolView, version: i16) -> bool {
        JoinGroupRequestProtocol::canonical(v, version)
    }

    proof fn lemma_item_round_trip(v: JoinGroupRequestProtocolView, version: i16, rest: Seq<u8>) {
        JoinGroupRequestProtocol::lemma_round_trip(v, version, rest);
    }

    open spec fn writable_item(v: JoinGroupRequestProtocolView, version: i16) -> bool {
        JoinGroupRequestProtocol::writable(v, version)
    }

    proof fn lemma_item_writable(v: JoinGroupRequestProtocolView, version: i16) {
        JoinGroupRequestProtocol::lemma_writable(v, version);
    }

    fn read_item(buf: &mut Bytes, version: i16) -> (r: Result<JoinGroupRequestProtocol, Error>) {
        JoinGroupRequestProtocol::read(buf, version)
    }

    fn write_item(item: &JoinGroupRequestProtocol, buf: &mut BytesMut, version: i16) -> (r: Result<(), Error>) {
        item.write(buf, version)
    }
}

} // verus!
