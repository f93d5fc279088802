//! The fetch response message.
use crate::buffer::{bytes_mut_freeze, bytes_mut_new, bytes_mut_seq, bytes_seq};
use crate::codec::{Codec, MeasuredCodec, all_canonical, all_writable, array_len, lemma_array_round_trip, lemma_array_writable, lemma_nullable_array_round_trip, lemma_nullable_array_writable, opt_views, read_array, read_nullable_array, saturating_sum, spec_read_array, spec_read_nullable_array, spec_write_array, spec_write_nullable_array, write_array, write_nullable_array};
use crate::error::{Error, UnsupportedVersion};
use crate::ints::{lemma_i16_roundtrip, lemma_i32_roundtrip, lemma_i64_roundtrip, read_i16, read_i32, read_i64, spec_read_i16, spec_read_i32, spec_read_i64, spec_write_i16, spec_write_i32, spec_write_i64, u16_bytes, u32_bytes, u64_bytes, write_i16, write_i32, write_i64};
use crate::strings::{compact_nullable_string_len, compact_string_len, lemma_compact_nullable_bytes_round_trip, lemma_compact_nullable_string_round_trip, lemma_compact_string_round_trip, lemma_nullable_bytes_round_trip, lemma_string_round_trip, lemma_uuid_round_trip, read_compact_nullable_bytes, read_compact_nullable_string, read_compact_string, read_nullable_bytes, read_string, read_uuid, spec_read_compact_nullable_bytes, spec_read_compact_nullable_string, spec_read_compact_string, spec_read_nullable_bytes, spec_read_string, spec_read_uuid, spec_write_compact_nullable_bytes, spec_write_compact_nullable_string, spec_write_compact_string, spec_write_nullable_bytes, spec_write_string, spec_write_uuid, write_compact_nullable_bytes, write_compact_nullable_string, write_compact_string, write_nullable_bytes, write_string, write_uuid};
use crate::tagged::{append_fields, insert_pos, lemma_insert_pos_after, lemma_insert_pos_bounds, lemma_sorted_by_tag_in_order, lemma_sorted_by_tag_len, lemma_sorted_by_tag_members, lemma_sorted_tags_fit, lemma_tagged_fields_round_trip, lemma_tagged_fields_writable, lemma_tags_fit_concat, lemma_tags_fit_single, lemma_tags_in_order_drop_last, read_tagged_fields, sort_by_tag, sorted_by_tag, spec_read_tagged_fields, spec_write_tagged_fields, tag_entry, tagged_fields_len, tags_fit, tags_in_order, write_tagged_fields};
use crate::types::{KafkaString, KafkaUuid, RawTaggedField};
use crate::wire::{ReadOutcome, ViewClone, WriteOutcome, chain, clone_vec, emit, empty_vec, fail, has_room, lemma_append_empty, lemma_chain_written, lemma_len_step, lemma_step, len_result, opt_bytes_view, opt_view, read_as, read_opt_as, read_opt_bytes_as, read_opt_vec_as, read_vec_as, saturate, took_front, views, written, wrote};
use bytes::{Bytes, BytesMut};
use vstd::prelude::*;

verus! {

broadcast use {crate::wire::lemma_chain_written, crate::wire::lemma_took_front_nothing, crate::wire::lemma_took_front_twice};

#[derive(Debug, PartialEq)]
pub struct FetchResponseData {
    /// The duration in milliseconds for which the request was throttled due to a quota violation,
    /// or zero if the request did not violate any quota.
    pub throttle_time_ms: i32,
    /// The top level response error code.
    pub error_code: i16,
    /// The fetch session ID, or 0 if this is not part of a fetch session.
    pub session_id: i32,
    /// The response topics.
    pub responses: Vec<FetchableTopicResponse>,
    /// Endpoints for all current-leaders enumerated in PartitionData, with errors
    /// NOT_LEADER_OR_FOLLOWER & FENCED_LEADER_EPOCH.
    pub node_endpoints: Vec<NodeEndpoint>,
    pub _unknown_tagged_fields: Vec<RawTaggedField>,
}

/// What a `FetchResponseData` holds, as the specification sees it.
#[verifier::ext_equal]
pub struct FetchResponseDataView {
    pub throttle_time_ms: i32,
    pub error_code: i16,
    pub session_id: i32,
    pub responses: Seq<FetchableTopicResponseView>,
    pub node_endpoints: Seq<NodeEndpointView>,
    pub unknown_tagged_fields: Seq<(u32, Seq<u8>)>,
}

impl View for FetchResponseData {
    type V = FetchResponseDataView;

    open spec fn view(&self) -> FetchResponseDataView {
        FetchResponseDataView {
            throttle_time_ms: self.throttle_time_ms,
            error_code: self.error_code,
            session_id: self.session_id,
            responses: views(self.responses@),
            node_endpoints: views(self.node_endpoints@),
            unknown_tagged_fields: views(self._unknown_tagged_fields@),
        }
    }
}

impl Clone for FetchResponseData {
    fn clone(&self) -> (r: Self)
        ensures
            r@ == self@,
    {
        let r = FetchResponseData {
            throttle_time_ms: self.throttle_time_ms,
            error_code: self.error_code,
            session_id: self.session_id,
            responses: clone_vec(&self.responses),
            node_endpoints: clone_vec(&self.node_endpoints),
            _unknown_tagged_fields: clone_vec(&self._unknown_tagged_fields),
        };
        assert(r@ =~= self@);
        r
    }
}

impl ViewClone for FetchResponseData {
    fn clone_view(&self) -> (r: Self) {
        self.clone()
    }
}

impl Default for FetchResponseData {
    fn default() -> (r: Self)
        ensures
            r@ == Self::default_view(),
    {
        let r = FetchResponseData {
            throttle_time_ms: 0_i32,
            error_code: 0_i16,
            session_id: 0i32,
            responses: empty_vec(),
            node_endpoints: empty_vec(),
            _unknown_tagged_fields: empty_vec(),
        };
        assert(r@ =~= Self::default_view());
        r
    }
}

impl FetchResponseData {
    pub open spec fn default_view() -> FetchResponseDataView {
        FetchResponseDataView {
            throttle_time_ms: 0_i32,
            error_code: 0_i16,
            session_id: 0i32,
            responses: Seq::empty(),
            node_endpoints: Seq::empty(),
            unknown_tagged_fields: Seq::empty(),
        }
    }

    /// The `throttle_time_ms` field, read from the front of `s`.
    #[verifier::opaque]
    pub open spec fn spec_read_throttle_time_ms(s: Seq<u8>, version: i16) -> ReadOutcome<i32> {
        spec_read_i32(s)
    }

    /// The `error_code` field, read from the front of `s`.
    #[verifier::opaque]
    pub open spec fn spec_read_error_code(s: Seq<u8>, version: i16) -> ReadOutcome<i16> {
        if version >= 7 {
            spec_read_i16(s)
        } else {
            Ok((0_i16, s))
        }
    }

    /// The `session_id` field, read from the front of `s`.
    #[verifier::opaque]
    pub open spec fn spec_read_session_id(s: Seq<u8>, version: i16) -> ReadOutcome<i32> {
        if version >= 7 {
            spec_read_i32(s)
        } else {
            Ok((0i32, s))
        }
    }

    /// The `responses` field, read from the front of `s`.
    #[verifier::opaque]
    pub open spec fn spec_read_responses(s: Seq<u8>, version: i16) -> ReadOutcome<Seq<FetchableTopicResponseView>> {
        if version >= 12 {
            spec_read_array::<FetchableTopicResponse>(s, version, true)
        } else {
            spec_read_array::<FetchableTopicResponse>(s, version, false)
        }
    }

    pub open spec fn spec_read(s: Seq<u8>, version: i16) -> ReadOutcome<FetchResponseDataView> {
        if version < 4 || version > 18 {
            Err(Error::UnsupportedVersion(UnsupportedVersion { api_key: 1, version }))
        } else {
            match (Self::spec_read_throttle_time_ms(s, version)) {
                Err(e) => Err(e),
                Ok((throttle_time_ms, s)) => match (Self::spec_read_error_code(s, version)) {
                    Err(e) => Err(e),
                    Ok((error_code, s)) => match (Self::spec_read_session_id(s, version)) {
                        Err(e) => Err(e),
                        Ok((session_id, s)) => match (Self::spec_read_responses(s, version)) {
                            Err(e) => Err(e),
                            Ok((responses, s)) => match (if version >= 12 {
                                    spec_read_tagged_fields(s)
                                } else {
                                    Ok((Seq::empty(), s))
                            }) {
                                Err(e) => Err(e),
                                Ok((tags, s)) => match (match (Self::spec_apply_tags(tags, version)) {
                                        Err(e) => Err(e),
                                        Ok(k) => Ok((k, s)),
                                }) {
                                    Err(e) => Err(e),
                                    Ok(((node_endpoints, unknown_tagged_fields), s)) => Ok((FetchResponseDataView {
                                                throttle_time_ms: throttle_time_ms,
                                                error_code: error_code,
                                                session_id: session_id,
                                                responses: responses,
                                                node_endpoints: node_endpoints,
                                                unknown_tagged_fields: unknown_tagged_fields,
                                            }, s)),
                                },
                            },
                        },
                    },
                },
            }
        }
    }

    /// What writing the `throttle_time_ms` field of `m` appends.
    #[verifier::opaque]
    pub open spec fn spec_write_throttle_time_ms(m: FetchResponseDataView, version: i16) -> WriteOutcome {
        spec_write_i32(m.throttle_time_ms)
    }

    /// What writing the `error_code` field of `m` appends.
    #[verifier::opaque]
    pub open spec fn spec_write_error_code(m: FetchResponseDataView, version: i16) -> WriteOutcome {
        if version >= 7 {
            spec_write_i16(m.error_code)
        } else {
            emit(Seq::empty())
        }
    }

    /// What writing the `session_id` field of `m` appends.
    #[verifier::opaque]
    pub open spec fn spec_write_session_id(m: FetchResponseDataView, version: i16) -> WriteOutcome {
        if version >= 7 {
            spec_write_i32(m.session_id)
        } else {
            emit(Seq::empty())
        }
    }

    /// What writing the `responses` field of `m` appends.
    #[verifier::opaque]
    pub open spec fn spec_write_responses(m: FetchResponseDataView, version: i16) -> WriteOutcome {
        if version >= 12 {
            spec_write_array::<FetchableTopicResponse>(m.responses, version, true)
        } else {
            spec_write_array::<FetchableTopicResponse>(m.responses, version, false)
        }
    }

    /// What writing the tagged fields of `m` appends.
    #[verifier::opaque]
    pub open spec fn spec_write_tags(m: FetchResponseDataView, version: i16) -> WriteOutcome {
        if version >= 12 {
            match (Self::spec_known_tags(m, version)) {
                Err(e) => fail(e),
                Ok(k) => spec_write_tagged_fields(sorted_by_tag(k + m.unknown_tagged_fields)),
            }
        } else {
            emit(Seq::empty())
        }
    }

    pub open spec fn spec_write(m: FetchResponseDataView, version: i16) -> WriteOutcome {
        if version < 4 || version > 18 {
            fail(Error::UnsupportedVersion(UnsupportedVersion { api_key: 1, version }))
        } else {
            chain(
                chain(
                    chain(
                        chain(
                            Self::spec_write_throttle_time_ms(m, version),
                            Self::spec_write_error_code(m, version),
                        ),
                        Self::spec_write_session_id(m, version),
                    ),
                    Self::spec_write_responses(m, version),
                ),
                Self::spec_write_tags(m, version),
            )
        }
    }

    /// Whether reading back what writing `m` in `version` appends gives `m`:
    /// fields that the version does not carry hold their default values, and
    /// tagged fields come in the order in which they are written.
    pub open spec fn canonical(m: FetchResponseDataView, version: i16) -> bool {
        &&& (if version >= 7 {
                true
            } else {
                m.error_code == 0_i16
        })
        &&& (if version >= 7 {
                true
            } else {
                m.session_id == 0i32
        })
        &&& all_canonical::<FetchableTopicResponse>(m.responses, version)
        &&& (if version >= 12 && version >= 16 && m.node_endpoints.len() != 0 {
                all_canonical::<NodeEndpoint>(m.node_endpoints, version)
            } else {
                m.node_endpoints.len() == 0
        })
        &&& (if version >= 12 {
                tags_in_order(m.unknown_tagged_fields) && forall|i: int| 0 <= i < m.unknown_tagged_fields.len() ==> !#[trigger] Self::is_known_tag(m.unknown_tagged_fields[i].0)
            } else {
                m.unknown_tagged_fields.len() == 0
        })
    }

    proof fn lemma_round_trip_throttle_time_ms(m: FetchResponseDataView, version: i16, rest: Seq<u8>)
        requires
            Self::canonical(m, version),
            Self::spec_write_throttle_time_ms(m, version) is Ok,
        ensures
            Self::spec_read_throttle_time_ms(written(Self::spec_write_throttle_time_ms(m, version)) + rest, version) == Ok::<(i32, Seq<u8>), Error>((m.throttle_time_ms, rest)),
    {
        reveal(FetchResponseData::spec_read_throttle_time_ms);
        reveal(FetchResponseData::spec_write_throttle_time_ms);
        lemma_i32_roundtrip(m.throttle_time_ms, rest);
    }

    proof fn lemma_round_trip_error_code(m: FetchResponseDataView, version: i16, rest: Seq<u8>)
        requires
            Self::canonical(m, version),
            Self::spec_write_error_code(m, version) is Ok,
        ensures
            Self::spec_read_error_code(written(Self::spec_write_error_code(m, version)) + rest, version) == Ok::<(i16, Seq<u8>), Error>((m.error_code, rest)),
    {
        reveal(FetchResponseData::spec_read_error_code);
        reveal(FetchResponseData::spec_write_error_code);
        if version >= 7 {
            lemma_i16_roundtrip(m.error_code, rest);
        } else {
            assert(Seq::<u8>::empty() + rest =~= rest);
        }
    }

    proof fn lemma_round_trip_session_id(m: FetchResponseDataView, version: i16, rest: Seq<u8>)
        requires
            Self::canonical(m, version),
            Self::spec_write_session_id(m, version) is Ok,
        ensures
            Self::spec_read_session_id(written(Self::spec_write_session_id(m, version)) + rest, version) == Ok::<(i32, Seq<u8>), Error>((m.session_id, rest)),
    {
        reveal(FetchResponseData::spec_read_session_id);
        reveal(FetchResponseData::spec_write_session_id);
        if version >= 7 {
            lemma_i32_roundtrip(m.session_id, rest);
        } else {
            assert(Seq::<u8>::empty() + rest =~= rest);
        }
    }

    proof fn lemma_round_trip_responses(m: FetchResponseDataView, version: i16, rest: Seq<u8>)
        requires
            Self::canonical(m, version),
            Self::spec_write_responses(m, version) is Ok,
        ensures
            Self::spec_read_responses(written(Self::spec_write_responses(m, version)) + rest, version) == Ok::<(Seq<FetchableTopicResponseView>, Seq<u8>), Error>((m.responses, rest)),
    {
        reveal(FetchResponseData::spec_read_responses);
        reveal(FetchResponseData::spec_write_responses);
        if version >= 12 {
            lemma_array_round_trip::<FetchableTopicResponse>(m.responses, version, true, rest);
        } else {
            lemma_array_round_trip::<FetchableTopicResponse>(m.responses, version, false, rest);
        }
    }

    proof fn lemma_apply_known_tags(m: FetchResponseDataView, version: i16)
        requires
            Self::canonical(m, version),
            Self::spec_known_tags(m, version) is Ok,
            version >= 12,
        ensures
            tags_in_order(Self::spec_known_tags(m, version)->Ok_0),
            forall|i: int| 0 <= i < Self::spec_known_tags(m, version)->Ok_0.len() ==> #[trigger] Self::is_known_tag(Self::spec_known_tags(m, version)->Ok_0[i].0),
            Self::spec_apply_tags(Self::spec_known_tags(m, version)->Ok_0, version) == Ok::<(Seq<NodeEndpointView>, Seq<(u32, Seq<u8>)>), Error>((m.node_endpoints, Seq::empty())),
    {
        assert(Self::spec_apply_tags(Seq::empty(), version) == Ok::<(Seq<NodeEndpointView>, Seq<(u32, Seq<u8>)>), Error>((Seq::empty(), Seq::empty())));
        let e0 = if version >= 16 && m.node_endpoints.len() != 0 {
            tag_entry(0u32, spec_write_array::<NodeEndpoint>(m.node_endpoints, version, true))
        } else {
            Ok(Seq::empty())
        };
        let k0 = e0->Ok_0;
        let p0 = k0;
        if version >= 16 && m.node_endpoints.len() != 0 {
            lemma_array_round_trip::<NodeEndpoint>(m.node_endpoints, version, true, Seq::<u8>::empty());
            assert(written(spec_write_array::<NodeEndpoint>(m.node_endpoints, version, true)) + Seq::<u8>::empty() =~= written(spec_write_array::<NodeEndpoint>(m.node_endpoints, version, true)));
            assert(p0.drop_last() =~= Seq::<(u32, Seq<u8>)>::empty());
        } else {
            assert(m.node_endpoints =~= Seq::empty());
        }
        assert(tags_in_order(p0));
        assert(forall|i: int| 0 <= i < p0.len() ==> p0[i].0 <= 0u32);
        assert(forall|i: int| 0 <= i < p0.len() ==> #[trigger] Self::is_known_tag(p0[i].0));
        assert(Self::spec_apply_tags(p0, version) == Ok::<(Seq<NodeEndpointView>, Seq<(u32, Seq<u8>)>), Error>((m.node_endpoints, Seq::empty())));
        assert(Self::spec_known_tags(m, version)->Ok_0 =~= p0);
    }

    proof fn lemma_apply_tags_append(st: (Seq<NodeEndpointView>, Seq<(u32, Seq<u8>)>), a: Seq<(u32, Seq<u8>)>, b: Seq<(u32, Seq<u8>)>, version: i16)
        ensures
            Self::spec_apply_tags_from(st, a + b, version) == (match Self::spec_apply_tags_from(st, a, version) {
            Err(e) => Err(e),
            Ok(s2) => Self::spec_apply_tags_from(s2, b, version),
            }),
            decreases b.len(),
    {
        if b.len() == 0 {
            assert(a + b =~= a);
        } else {
            assert((a + b).drop_last() =~= a + b.drop_last());
            assert((a + b).last() == b.last());
            Self::lemma_apply_tags_append(st, a, b.drop_last(), version);
        }
    }

    proof fn lemma_apply_known_only(st: (Seq<NodeEndpointView>, Seq<(u32, Seq<u8>)>), us: Seq<(u32, Seq<u8>)>, b: Seq<(u32, Seq<u8>)>, version: i16)
        requires
            forall|i: int| 0 <= i < b.len() ==> #[trigger] Self::is_known_tag(b[i].0),
        ensures
            match Self::spec_apply_tags_from(st, b, version) {
            Err(e) => Self::spec_apply_tags_from((st.0, us), b, version) == Err::<(Seq<NodeEndpointView>, Seq<(u32, Seq<u8>)>), Error>(e),
            Ok(r) => r.1 == st.1 && Self::spec_apply_tags_from((st.0, us), b, version) == Ok::<(Seq<NodeEndpointView>, Seq<(u32, Seq<u8>)>), Error>((r.0, us)),
            },
            decreases b.len(),
    {
        if b.len() > 0 {
            assert(Self::is_known_tag(b[b.len() - 1].0));
            assert forall|i: int| 0 <= i < b.drop_last().len() implies #[trigger] Self::is_known_tag(b.drop_last()[i].0) by {
                assert(b.drop_last()[i] == b[i]);
                assert(Self::is_known_tag(b[i].0));
            }
            Self::lemma_apply_known_only(st, us, b.drop_last(), version);
        }
    }

    proof fn lemma_apply_sorted(k: Seq<(u32, Seq<u8>)>, u: Seq<(u32, Seq<u8>)>, version: i16)
        requires
            tags_in_order(k),
            tags_in_order(u),
            forall|i: int| 0 <= i < k.len() ==> #[trigger] Self::is_known_tag(k[i].0),
            forall|i: int| 0 <= i < u.len() ==> !#[trigger] Self::is_known_tag(u[i].0),
            Self::spec_apply_tags(k, version) is Ok,
            Self::spec_apply_tags(k, version)->Ok_0.1 == Seq::<(u32, Seq<u8>)>::empty(),
        ensures
            Self::spec_apply_tags(sorted_by_tag(k + u), version) == Ok::<(Seq<NodeEndpointView>, Seq<(u32, Seq<u8>)>), Error>((Self::spec_apply_tags(k, version)->Ok_0.0, u)),
            decreases u.len(),
    {
        let r = Self::spec_apply_tags(k, version)->Ok_0;
        if u.len() == 0 {
            assert(k + u =~= k);
            lemma_sorted_by_tag_in_order(k);
            assert(u =~= Seq::<(u32, Seq<u8>)>::empty());
        } else {
            let u1 = u.drop_last();
            let x = u.last();
            lemma_tags_in_order_drop_last(u);
            assert forall|i: int| 0 <= i < u1.len() implies !#[trigger] Self::is_known_tag(u1[i].0) by {
                assert(u1[i] == u[i]);
                assert(!Self::is_known_tag(u[i].0));
            }
            Self::lemma_apply_sorted(k, u1, version);
            let ku = k + u1;
            let t = sorted_by_tag(ku);
            assert((k + u).drop_last() =~= ku);
            assert((k + u).last() == x);
            let p = insert_pos(t, x.0);
            lemma_insert_pos_bounds(t, x.0);
            lemma_insert_pos_after(t, x.0);
            lemma_sorted_by_tag_members(ku);
            lemma_sorted_by_tag_len(ku);
            let head = t.subrange(0, p);
            let tail = t.subrange(p, t.len() as int);
            assert forall|i: int| 0 <= i < tail.len() implies #[trigger] Self::is_known_tag(tail[i].0) by {
                let y = t[p + i];
                assert(tail[i] == y);
                assert(y.0 > x.0);
                assert(ku.contains(y));
                let j = choose|j: int| 0 <= j < ku.len() && ku[j] == y;
                if j >= k.len() {
                    assert(u[j - k.len()] == y);
                    assert(u[j - k.len()].0 <= u[u.len() - 1].0);
                    assert(false);
                } else {
                    assert(k[j] == y);
                    assert(Self::is_known_tag(k[j].0));
                }
            }
            assert(t =~= head + tail);
            assert(sorted_by_tag(k + u) =~= head.push(x) + tail);
            Self::lemma_apply_tags_append((Seq::empty(), Seq::empty()), head, tail, version);
            Self::lemma_apply_tags_append((Seq::empty(), Seq::empty()), head.push(x), tail, version);
            let sa = Self::spec_apply_tags(head, version)->Ok_0;
            assert(head.push(x).drop_last() =~= head);
            assert(!Self::is_known_tag(x.0)) by {
                assert(u[u.len() - 1] == x);
            }
            Self::lemma_apply_known_only(sa, sa.1.push(x), tail, version);
            assert(u1.push(x) =~= u);
        }
    }

    /// The tagged fields that a flexible version writes: each known one that
    /// the version carries and that does not hold its default value, in the
    /// order of the tags, merged by tag with the unknown ones.
    pub proof fn lemma_tag_section(m: FetchResponseDataView, version: i16)
        requires
            version >= 12,
        ensures
            Self::spec_write_tags(m, version) == (match Self::spec_known_tags(m, version) {
            Err(e) => fail(e),
            Ok(k) => spec_write_tagged_fields(sorted_by_tag(k + m.unknown_tagged_fields)),
            }),
            Self::spec_known_tags(m, version) is Ok ==> Self::spec_known_tags(m, version)->Ok_0 == (if version >= 16 && m.node_endpoints.len() != 0 { seq![(0u32, written(spec_write_array::<NodeEndpoint>(m.node_endpoints, version, true)))] } else { Seq::<(u32, Seq<u8>)>::empty() }),
    {
        reveal(FetchResponseData::spec_write_tags);
        if Self::spec_known_tags(m, version) is Ok {
            assert(Self::spec_known_tags(m, version)->Ok_0 =~= (if version >= 16 && m.node_endpoints.len() != 0 {
                        seq![(0u32, written(spec_write_array::<NodeEndpoint>(m.node_endpoints, version, true)))]
                    } else {
                        Seq::<(u32, Seq<u8>)>::empty()
            }));
        }
    }

    proof fn lemma_round_trip_tags(m: FetchResponseDataView, version: i16, rest: Seq<u8>)
        requires
            Self::canonical(m, version),
            Self::spec_write_tags(m, version) is Ok,
        ensures
            (if version >= 12 {
            spec_read_tagged_fields(written(Self::spec_write_tags(m, version)) + rest)
            } else {
            Ok((Seq::empty(), written(Self::spec_write_tags(m, version)) + rest))
            }) matches Ok((tags, r2)) && r2 == rest && Self::spec_apply_tags(tags, version) == Ok::<(Seq<NodeEndpointView>, Seq<(u32, Seq<u8>)>), Error>((m.node_endpoints, m.unknown_tagged_fields)),
    {
        reveal(FetchResponseData::spec_write_tags);
        if version >= 12 {
            let k = Self::spec_known_tags(m, version)->Ok_0;
            Self::lemma_apply_known_tags(m, version);
            Self::lemma_apply_sorted(k, m.unknown_tagged_fields, version);
            lemma_tagged_fields_round_trip(sorted_by_tag(k + m.unknown_tagged_fields), rest);
        } else {
            assert(Seq::<u8>::empty() + rest =~= rest);
            assert(m.unknown_tagged_fields =~= Seq::empty());
            assert(m.node_endpoints =~= Seq::empty());
        }
    }

    /// Reading back what writing `m` in `version` appends gives `m` again, and
    /// leaves what follows, for every canonical message whose write succeeds.
    #[verifier::rlimit(90)]
    #[verifier::spinoff_prover]
    pub proof fn lemma_round_trip(m: FetchResponseDataView, version: i16, rest: Seq<u8>)
        requires
            Self::canonical(m, version),
            Self::spec_write(m, version) is Ok,
        ensures
            Self::spec_read(written(Self::spec_write(m, version)) + rest, version) == Ok::<(FetchResponseDataView, Seq<u8>), Error>((m, rest)),
    {
        let b0 = written(Self::spec_write_throttle_time_ms(m, version));
        let b1 = written(Self::spec_write_error_code(m, version));
        let b2 = written(Self::spec_write_session_id(m, version));
        let b3 = written(Self::spec_write_responses(m, version));
        let b4 = written(Self::spec_write_tags(m, version));
        let t5 = rest;
        let t4 = b4 + t5;
        let t3 = b3 + t4;
        let t2 = b2 + t3;
        let t1 = b1 + t2;
        let t0 = b0 + t1;
        let w0 = Self::spec_write_throttle_time_ms(m, version);
        let w1 = chain(w0, Self::spec_write_error_code(m, version));
        let w2 = chain(w1, Self::spec_write_session_id(m, version));
        let w3 = chain(w2, Self::spec_write_responses(m, version));
        let w4 = chain(w3, Self::spec_write_tags(m, version));
        assert(Self::spec_write(m, version) == w4);
        assert(written(w4) + t5 =~= written(w3) + t4);
        assert(written(w3) + t4 =~= written(w2) + t3);
        assert(written(w2) + t3 =~= written(w1) + t2);
        assert(written(w1) + t2 =~= written(w0) + t1);
        Self::lemma_round_trip_throttle_time_ms(m, version, t1);
        Self::lemma_round_trip_error_code(m, version, t2);
        Self::lemma_round_trip_session_id(m, version, t3);
        Self::lemma_round_trip_responses(m, version, t4);
        Self::lemma_round_trip_tags(m, version, t5);
    }

    /// In a version that does not carry `error_code`, writing ignores its value.
    pub proof fn lemma_write_ignores_error_code(m: FetchResponseDataView, value: i16, version: i16)
        requires
            !(version >= 7),
        ensures
            Self::spec_write((FetchResponseDataView { error_code: value, ..m }), version) == Self::spec_write(m, version),
    {
        reveal(FetchResponseData::spec_write_throttle_time_ms);
        reveal(FetchResponseData::spec_write_error_code);
        reveal(FetchResponseData::spec_write_session_id);
        reveal(FetchResponseData::spec_write_responses);
        reveal(FetchResponseData::spec_write_tags);
    }

    /// In a version that does not carry `session_id`, writing ignores its value.
    pub proof fn lemma_write_ignores_session_id(m: FetchResponseDataView, value: i32, version: i16)
        requires
            !(version >= 7),
        ensures
            Self::spec_write((FetchResponseDataView { session_id: value, ..m }), version) == Self::spec_write(m, version),
    {
        reveal(FetchResponseData::spec_write_throttle_time_ms);
        reveal(FetchResponseData::spec_write_error_code);
        reveal(FetchResponseData::spec_write_session_id);
        reveal(FetchResponseData::spec_write_responses);
        reveal(FetchResponseData::spec_write_tags);
    }

    /// In a version that does not carry `node_endpoints`, writing ignores its value.
    pub proof fn lemma_write_ignores_node_endpoints(m: FetchResponseDataView, value: Seq<NodeEndpointView>, version: i16)
        requires
            !(version >= 12 && version >= 16),
        ensures
            Self::spec_write((FetchResponseDataView { node_endpoints: value, ..m }), version) == Self::spec_write(m, version),
    {
        reveal(FetchResponseData::spec_write_throttle_time_ms);
        reveal(FetchResponseData::spec_write_error_code);
        reveal(FetchResponseData::spec_write_session_id);
        reveal(FetchResponseData::spec_write_responses);
        reveal(FetchResponseData::spec_write_tags);
    }

    /// In a version that does not carry `unknown_tagged_fields`, writing ignores its value.
    pub proof fn lemma_write_ignores_unknown_tagged_fields(m: FetchResponseDataView, value: Seq<(u32, Seq<u8>)>, version: i16)
        requires
            !(version >= 12),
        ensures
            Self::spec_write((FetchResponseDataView { unknown_tagged_fields: value, ..m }), version) == Self::spec_write(m, version),
    {
        reveal(FetchResponseData::spec_write_throttle_time_ms);
        reveal(FetchResponseData::spec_write_error_code);
        reveal(FetchResponseData::spec_write_session_id);
        reveal(FetchResponseData::spec_write_responses);
        reveal(FetchResponseData::spec_write_tags);
    }

    /// The default message holds the default value of each field of the schema.
    pub proof fn lemma_default_values()
        ensures
            Self::default_view().throttle_time_ms == (0_i32),
            Self::default_view().error_code == (0_i16),
            Self::default_view().session_id == (0i32),
            Self::default_view().responses.len() == 0,
            Self::default_view().node_endpoints.len() == 0,
            Self::default_view().unknown_tagged_fields.len() == 0,
    {
    }

    /// Each integer, boolean and identifier field is written as its standard
    /// big-endian bytes (a boolean as `1` or `0`) in the versions that carry
    /// it, and as nothing in the others; reading it takes those bytes back (any
    /// byte other than `0` reads as `true`), or gives its default value.
    pub proof fn lemma_field_encodings(m: FetchResponseDataView, s: Seq<u8>, version: i16)
        ensures
            true ==> Self::spec_write_throttle_time_ms(m, version) == Ok::<Seq<u8>, (Error, Seq<u8>)>(u32_bytes(m.throttle_time_ms as u32)),
            version >= 7 ==> Self::spec_write_error_code(m, version) == Ok::<Seq<u8>, (Error, Seq<u8>)>(u16_bytes(m.error_code as u16)),
            !(version >= 7) ==> Self::spec_write_error_code(m, version) == Ok::<Seq<u8>, (Error, Seq<u8>)>(Seq::empty()),
            version >= 7 ==> Self::spec_write_session_id(m, version) == Ok::<Seq<u8>, (Error, Seq<u8>)>(u32_bytes(m.session_id as u32)),
            !(version >= 7) ==> Self::spec_write_session_id(m, version) == Ok::<Seq<u8>, (Error, Seq<u8>)>(Seq::empty()),
            true ==> Self::spec_read_throttle_time_ms(s, version) == spec_read_i32(s),
            version >= 7 ==> Self::spec_read_error_code(s, version) == spec_read_i16(s),
            !(version >= 7) ==> Self::spec_read_error_code(s, version) == Ok::<(i16, Seq<u8>), Error>((0_i16, s)),
            version >= 7 ==> Self::spec_read_session_id(s, version) == spec_read_i32(s),
            !(version >= 7) ==> Self::spec_read_session_id(s, version) == Ok::<(i32, Seq<u8>), Error>((0i32, s)),
    {
        reveal(FetchResponseData::spec_write_throttle_time_ms);
        reveal(FetchResponseData::spec_read_throttle_time_ms);
        reveal(FetchResponseData::spec_write_error_code);
        reveal(FetchResponseData::spec_read_error_code);
        reveal(FetchResponseData::spec_write_session_id);
        reveal(FetchResponseData::spec_read_session_id);
    }

    /// Whether writing `m` in `version` succeeds, said over its parts: the
    /// version is one the schema covers, every field that the version cannot
    /// carry holds its default value, and every string, byte string, array and
    /// tagged field fits its length prefix.
    pub open spec fn writable(m: FetchResponseDataView, version: i16) -> bool {
        &&& 4 <= version <= 18
        &&& (m.responses.len() <= i32::MAX && all_writable::<FetchableTopicResponse>(m.responses, version))
        &&& (if version >= 12 {
                (version >= 16 && m.node_endpoints.len() != 0 ==> (m.node_endpoints.len() <= i32::MAX && all_writable::<NodeEndpoint>(m.node_endpoints, version)) && written(spec_write_array::<NodeEndpoint>(m.node_endpoints, version, true)).len() <= isize::MAX && written(spec_write_array::<NodeEndpoint>(m.node_endpoints, version, true)).len() <= u32::MAX) && (if version >= 16 && m.node_endpoints.len() != 0 { 1int } else { 0int }) + m.unknown_tagged_fields.len() <= u32::MAX && tags_fit(m.unknown_tagged_fields)
            } else {
                true
        })
    }

    proof fn lemma_writable_throttle_time_ms(m: FetchResponseDataView, version: i16)
        ensures
            Self::spec_write_throttle_time_ms(m, version) is Ok <==> true,
    {
        reveal(FetchResponseData::spec_write_throttle_time_ms);
    }

    proof fn lemma_writable_error_code(m: FetchResponseDataView, version: i16)
        ensures
            Self::spec_write_error_code(m, version) is Ok <==> true,
    {
        reveal(FetchResponseData::spec_write_error_code);
    }

    proof fn lemma_writable_session_id(m: FetchResponseDataView, version: i16)
        ensures
            Self::spec_write_session_id(m, version) is Ok <==> true,
    {
        reveal(FetchResponseData::spec_write_session_id);
    }

    proof fn lemma_writable_responses(m: FetchResponseDataView, version: i16)
        ensures
            Self::spec_write_responses(m, version) is Ok <==> (m.responses.len() <= i32::MAX && all_writable::<FetchableTopicResponse>(m.responses, version)),
    {
        reveal(FetchResponseData::spec_write_responses);
        if version >= 12 {
            lemma_array_writable::<FetchableTopicResponse>(m.responses, version, true);
        } else {
            lemma_array_writable::<FetchableTopicResponse>(m.responses, version, false);
        }
    }

    proof fn lemma_writable_tags(m: FetchResponseDataView, version: i16)
        ensures
            Self::spec_write_tags(m, version) is Ok <==> (if version >= 12 { (version >= 16 && m.node_endpoints.len() != 0 ==> (m.node_endpoints.len() <= i32::MAX && all_writable::<NodeEndpoint>(m.node_endpoints, version)) && written(spec_write_array::<NodeEndpoint>(m.node_endpoints, version, true)).len() <= isize::MAX && written(spec_write_array::<NodeEndpoint>(m.node_endpoints, version, true)).len() <= u32::MAX) && (if version >= 16 && m.node_endpoints.len() != 0 { 1int } else { 0int }) + m.unknown_tagged_fields.len() <= u32::MAX && tags_fit(m.unknown_tagged_fields) } else { true }),
    {
        reveal(FetchResponseData::spec_write_tags);
        let k = Self::spec_known_tags(m, version);
        lemma_array_writable::<NodeEndpoint>(m.node_endpoints, version, true);
        lemma_tags_fit_single(0u32, written(spec_write_array::<NodeEndpoint>(m.node_endpoints, version, true)));
        if version >= 12 {
            Self::lemma_tag_section(m, version);
            if k is Ok {
                lemma_sorted_tags_fit(k->Ok_0 + m.unknown_tagged_fields);
                lemma_tagged_fields_writable(sorted_by_tag(k->Ok_0 + m.unknown_tagged_fields));
                lemma_tags_fit_concat(k->Ok_0, m.unknown_tagged_fields);
            }
        }
    }

    /// Writing `m` in `version` succeeds exactly when `m` is writable in it;
    /// so do `write` and `encoded_len`, whose results follow `spec_write`.
    #[verifier::rlimit(60)]
    pub proof fn lemma_writable(m: FetchResponseDataView, version: i16)
        ensures
            Self::spec_write(m, version) is Ok <==> Self::writable(m, version),
    {
        Self::lemma_writable_throttle_time_ms(m, version);
        Self::lemma_writable_error_code(m, version);
        Self::lemma_writable_session_id(m, version);
        Self::lemma_writable_responses(m, version);
        Self::lemma_writable_tags(m, version);
    }

    /// A version outside the range that the schema covers is refused, by
    /// reads and by writes alike, before anything is read or written.
    pub proof fn lemma_refused_version(m: FetchResponseDataView, s: Seq<u8>, version: i16)
        requires
            version < 4 || version > 18,
        ensures
            Self::spec_read(s, version) == Err::<(FetchResponseDataView, Seq<u8>), Error>(Error::UnsupportedVersion(UnsupportedVersion { api_key: 1, version })),
            Self::spec_write(m, version) == fail(Error::UnsupportedVersion(UnsupportedVersion { api_key: 1, version })),
    {
    }

    /// The known tagged fields and the unknown ones after the tagged field `f`
    /// is read: a known one replaces the value it holds, an unknown one is kept.
    pub open spec fn spec_apply_tag(st: (Seq<NodeEndpointView>, Seq<(u32, Seq<u8>)>), f: (u32, Seq<u8>), version: i16) -> Result<(Seq<NodeEndpointView>, Seq<(u32, Seq<u8>)>), Error> {
        if f.0 == 0u32 {
            if version >= 16 {
                match (spec_read_array::<NodeEndpoint>(f.1, version, true)) {
                    Err(e) => Err(e),
                    Ok((v, _)) => Ok((v, st.1)),
                }
            } else {
                Ok(st)
            }
        } else {
            Ok((st.0, st.1.push(f)))
        }
    }

    /// The known tagged fields, and the unknown ones, that reading `tags` in
    /// order gives, starting from `st`.
    pub open spec fn spec_apply_tags_from(st: (Seq<NodeEndpointView>, Seq<(u32, Seq<u8>)>), tags: Seq<(u32, Seq<u8>)>, version: i16) -> Result<(Seq<NodeEndpointView>, Seq<(u32, Seq<u8>)>), Error>
    decreases tags.len(),
    {
        if tags.len() == 0 {
            Ok(st)
        } else {
            match Self::spec_apply_tags_from(st, tags.drop_last(), version) {
                Err(e) => Err(e),
                Ok(s2) => Self::spec_apply_tag(s2, tags.last(), version),
            }
        }
    }

    /// The known tagged fields, and the unknown ones, that reading `tags` in
    /// order gives.
    pub open spec fn spec_apply_tags(tags: Seq<(u32, Seq<u8>)>, version: i16) -> Result<(Seq<NodeEndpointView>, Seq<(u32, Seq<u8>)>), Error> {
        Self::spec_apply_tags_from((Seq::empty(), Seq::empty()), tags, version)
    }

    /// Whether a tagged field with tag `t` is one of the known ones.
    pub open spec fn is_known_tag(t: u32) -> bool {
        t == 0u32
    }

    proof fn lemma_apply_tags_err(tags: Seq<(u32, Seq<u8>)>, i: int, version: i16)
        requires
            0 <= i <= tags.len(),
            Self::spec_apply_tags(tags.take(i), version) is Err,
        ensures
            Self::spec_apply_tags(tags, version) == Self::spec_apply_tags(tags.take(i), version),
            decreases tags.len() - i,
    {
        if i < tags.len() {
            assert(tags.take(i + 1).drop_last() =~= tags.take(i));
            Self::lemma_apply_tags_err(tags, i + 1, version);
        } else {
            assert(tags.take(i) =~= tags);
        }
    }

    fn apply_tags(tags: &Vec<RawTaggedField>, version: i16) -> (r: Result<(Vec<NodeEndpoint>, Vec<RawTaggedField>), Error>)
        ensures
            match Self::spec_apply_tags(views(tags@), version) {
            Err(e) => r matches Err(e2) && e2 == e,
            Ok(st) => r matches Ok(x) && views(x.0@) == st.0 && views(x.1@) == st.1,
            },
    {
        let ghost ts = views(tags@);
        let mut k_node_endpoints: Vec<NodeEndpoint> = empty_vec();
        let mut unknown: Vec<RawTaggedField> = empty_vec();
        let mut i: usize = 0;
        assert(ts.take(0) =~= Seq::<(u32, Seq<u8>)>::empty());
        while i < tags.len()
        invariant
        0 <= i <= tags.len(),
        ts == views(tags@),
        Self::spec_apply_tags(ts.take(i as int), version) == Ok::<(Seq<NodeEndpointView>, Seq<(u32, Seq<u8>)>), Error>((views(k_node_endpoints@), views(unknown@))),
        decreases tags.len() - i,
        {
            let field = &tags[i];
            proof {
                assert(ts.take(i + 1).drop_last() =~= ts.take(i as int));
                assert(ts.take(i + 1).last() == field@);
            }
            if field.tag == 0 {
                if version >= 16 {
                    let mut tag_buf = field.data.clone();
                    k_node_endpoints = match read_array::<NodeEndpoint>(&mut tag_buf, version, true) {
                        Ok(v) => v,
                        Err(e) => {
                            proof {
                                Self::lemma_apply_tags_err(ts, i + 1, version);
                            }
                            return Err(e);
                        },
                    };
                }
            } else {
                let ghost before = views(unknown@);
                unknown.push(field.clone());
                proof {
                    assert(views(unknown@) =~= before.push(field@));
                }
            }
            i = i + 1;
        }
        proof {
            assert(ts.take(tags.len() as int) =~= ts);
        }
        Ok((k_node_endpoints, unknown))
    }

    /// The known tagged fields that `m` has to write in `version`, in the
    /// order of their tags: those that do not hold their default value.
    pub open spec fn spec_known_tags(m: FetchResponseDataView, version: i16) -> Result<Seq<(u32, Seq<u8>)>, Error> {
        match (if version >= 16 && m.node_endpoints.len() != 0 {
                tag_entry(0u32, spec_write_array::<NodeEndpoint>(m.node_endpoints, version, true))
            } else {
                Ok(Seq::empty())
        }) {
            Err(e) => Err(e),
            Ok(k0) => Ok(k0),
        }
    }

    fn known_tagged_fields(&self, version: i16) -> (r: Result<Vec<RawTaggedField>, Error>)
        ensures
            match Self::spec_known_tags(self@, version) {
            Err(e) => r matches Err(e2) && e2 == e,
            Ok(k) => r matches Ok(v) && views(v@) == k,
            },
    {
        let ghost m = self@;
        let ghost w0 = spec_write_array::<NodeEndpoint>(m.node_endpoints, version, true);
        let ghost e0 = if version >= 16 && m.node_endpoints.len() != 0 {
            tag_entry(0u32, w0)
        } else {
            Ok(Seq::empty())
        };
        let mut known: Vec<RawTaggedField> = empty_vec();
        let ghost prev0 = views(known@);
        if version >= 16 && self.node_endpoints.len() != 0 {
            let n = match array_len::<NodeEndpoint>(&self.node_endpoints, version, true) {
                Ok(n) => n,
                Err(e) => {
                    return Err(e);
                },
            };
            if n > isize::MAX as usize {
                return Err(Error::ValueTooLong);
            }
            let mut tag_buf = bytes_mut_new();
            let _: Result<(), Error> = write_array::<NodeEndpoint>(&mut tag_buf, &self.node_endpoints, version, true);
            let data = bytes_mut_freeze(tag_buf);
            assert(bytes_seq(data) =~= written(w0));
            known.push(RawTaggedField { tag: 0, data });
        }
        assert(views(known@) =~= prev0 + e0->Ok_0);
        Ok(known)
    }

    fn read_throttle_time_ms(buf: &mut Bytes, version: i16) -> (r: Result<i32, Error>)
        ensures
            read_as(Self::spec_read_throttle_time_ms(bytes_seq(*old(buf)), version), *final(buf), r),
            took_front(*old(buf), *final(buf)),
    {
        proof {
            reveal(FetchResponseData::spec_read_throttle_time_ms);
        }
        Ok(read_i32(buf)?)
    }

    fn read_error_code(buf: &mut Bytes, version: i16) -> (r: Result<i16, Error>)
        ensures
            read_as(Self::spec_read_error_code(bytes_seq(*old(buf)), version), *final(buf), r),
            took_front(*old(buf), *final(buf)),
    {
        proof {
            reveal(FetchResponseData::spec_read_error_code);
        }
        Ok(if version >= 7 {
                read_i16(buf)?
            } else {
                0_i16
        })
    }

    fn read_session_id(buf: &mut Bytes, version: i16) -> (r: Result<i32, Error>)
        ensures
            read_as(Self::spec_read_session_id(bytes_seq(*old(buf)), version), *final(buf), r),
            took_front(*old(buf), *final(buf)),
    {
        proof {
            reveal(FetchResponseData::spec_read_session_id);
        }
        Ok(if version >= 7 {
                read_i32(buf)?
            } else {
                0i32
        })
    }

    fn read_responses(buf: &mut Bytes, version: i16) -> (r: Result<Vec<FetchableTopicResponse>, Error>)
        ensures
            read_vec_as(Self::spec_read_responses(bytes_seq(*old(buf)), version), *final(buf), r),
            took_front(*old(buf), *final(buf)),
    {
        proof {
            reveal(FetchResponseData::spec_read_responses);
        }
        Ok(if version >= 12 {
                read_array::<FetchableTopicResponse>(buf, version, true)?
            } else {
                read_array::<FetchableTopicResponse>(buf, version, false)?
        })
    }

    pub fn read(buf: &mut Bytes, version: i16) -> (r: Result<Self, Error>)
        ensures
            read_as(Self::spec_read(bytes_seq(*old(buf)), version), *final(buf), r),
            took_front(*old(buf), *final(buf)),
            (version < 4 || version > 18) ==> bytes_seq(*final(buf)) == bytes_seq(*old(buf)),
    {
        if version < 4 || version > 18 {
            return Err(Error::UnsupportedVersion(UnsupportedVersion::new(1, version)));
        }
        let throttle_time_ms = Self::read_throttle_time_ms(buf, version)?;
        let error_code = Self::read_error_code(buf, version)?;
        let session_id = Self::read_session_id(buf, version)?;
        let responses = Self::read_responses(buf, version)?;
        let (node_endpoints, _unknown_tagged_fields) = if version >= 12 {
            let tags = read_tagged_fields(buf)?;
            Self::apply_tags(&tags, version)?
        } else {
            (empty_vec(), empty_vec())
        };
        Ok(FetchResponseData {
                throttle_time_ms: throttle_time_ms,
                error_code: error_code,
                session_id: session_id,
                responses: responses,
                node_endpoints: node_endpoints,
                _unknown_tagged_fields: _unknown_tagged_fields,
        })
    }

    #[verifier::rlimit(80)]
    pub fn write(&self, buf: &mut BytesMut, version: i16) -> (r: Result<(), Error>)
        requires
            has_room(Self::spec_write(self@, version), *old(buf)),
        ensures
            wrote(Self::spec_write(self@, version), *old(buf), *final(buf), r),
    {
        if version < 4 || version > 18 {
            return Err(Error::UnsupportedVersion(UnsupportedVersion::new(1, version)));
        }
        let ghost m = self@;
        proof {
            reveal(FetchResponseData::spec_write_throttle_time_ms);
            reveal(FetchResponseData::spec_write_error_code);
            reveal(FetchResponseData::spec_write_session_id);
            reveal(FetchResponseData::spec_write_responses);
            reveal(FetchResponseData::spec_write_tags);
        }
        let ghost s0 = Self::spec_write_throttle_time_ms(m, version);
        let ghost w0 = s0;
        let ghost s1 = Self::spec_write_error_code(m, version);
        let ghost w1 = chain(w0, s1);
        let ghost s2 = Self::spec_write_session_id(m, version);
        let ghost w2 = chain(w1, s2);
        let ghost s3 = Self::spec_write_responses(m, version);
        let ghost w3 = chain(w2, s3);
        let ghost s4 = Self::spec_write_tags(m, version);
        let ghost w4 = chain(w3, s4);
        assert(Self::spec_write(m, version) == w4);
        assert(written(w3).len() <= written(w4).len() && (w3 is Err ==> w4 == w3));
        assert(written(w2).len() <= written(w4).len() && (w2 is Err ==> w4 == w2));
        assert(written(w1).len() <= written(w4).len() && (w1 is Err ==> w4 == w1));
        assert(written(w0).len() <= written(w4).len() && (w0 is Err ==> w4 == w0));
        let ghost mid = bytes_mut_seq(*buf);
        proof {
            lemma_append_empty(mid);
        }
        let r0 = {
            write_i32(buf, self.throttle_time_ms);
            Ok(())
        };
        assert(bytes_mut_seq(*buf) == mid + written(s0));
        if r0.is_err() {
            return r0;
        }
        let ghost mid = bytes_mut_seq(*buf);
        proof {
            lemma_append_empty(mid);
        }
        let r1 = if version >= 7 {
            {
                write_i16(buf, self.error_code);
                Ok(())
            }
        } else {
            Ok(())
        };
        assert(bytes_mut_seq(*buf) == mid + written(s1));
        proof {
            lemma_step(bytes_mut_seq(*old(buf)), w0, s1);
        }
        if r1.is_err() {
            return r1;
        }
        let ghost mid = bytes_mut_seq(*buf);
        proof {
            lemma_append_empty(mid);
        }
        let r2 = if version >= 7 {
            {
                write_i32(buf, self.session_id);
                Ok(())
            }
        } else {
            Ok(())
        };
        assert(bytes_mut_seq(*buf) == mid + written(s2));
        proof {
            lemma_step(bytes_mut_seq(*old(buf)), w1, s2);
        }
        if r2.is_err() {
            return r2;
        }
        let ghost mid = bytes_mut_seq(*buf);
        proof {
            lemma_append_empty(mid);
        }
        let r3 = if version >= 12 {
            write_array::<FetchableTopicResponse>(buf, &self.responses, version, true)
        } else {
            write_array::<FetchableTopicResponse>(buf, &self.responses, version, false)
        };
        assert(bytes_mut_seq(*buf) == mid + written(s3));
        proof {
            lemma_step(bytes_mut_seq(*old(buf)), w2, s3);
        }
        if r3.is_err() {
            return r3;
        }
        let ghost mid = bytes_mut_seq(*buf);
        proof {
            lemma_append_empty(mid);
        }
        let r4 = if version >= 12 {
            match self.known_tagged_fields(version) {
                Err(e) => Err(e),
                Ok(known) => {
                    let all = append_fields(known, &self._unknown_tagged_fields);
                    write_tagged_fields(buf, &sort_by_tag(&all))
                },
            }
        } else {
            Ok(())
        };
        assert(bytes_mut_seq(*buf) == mid + written(s4));
        proof {
            lemma_step(bytes_mut_seq(*old(buf)), w3, s4);
        }
        if r4.is_err() {
            return r4;
        }
        Ok(())
    }
}

#[derive(Debug, PartialEq)]
pub struct FetchableTopicResponse {
    /// The topic name.
    pub topic: KafkaString,
    /// The unique topic ID.
    pub topic_id: KafkaUuid,
    /// The topic partitions.
    pub partitions: Vec<PartitionData>,
    pub _unknown_tagged_fields: Vec<RawTaggedField>,
}

/// What a `FetchableTopicResponse` holds, as the specification sees it.
#[verifier::ext_equal]
pub struct FetchableTopicResponseView {
    pub topic: Seq<u8>,
    pub topic_id: KafkaUuid,
    pub partitions: Seq<PartitionDataView>,
    pub unknown_tagged_fields: Seq<(u32, Seq<u8>)>,
}

impl View for FetchableTopicResponse {
    type V = FetchableTopicResponseView;

    open spec fn view(&self) -> FetchableTopicResponseView {
        FetchableTopicResponseView {
            topic: self.topic@,
            topic_id: self.topic_id,
            partitions: views(self.partitions@),
            unknown_tagged_fields: views(self._unknown_tagged_fields@),
        }
    }
}

impl Clone for FetchableTopicResponse {
    fn clone(&self) -> (r: Self)
        ensures
            r@ == self@,
    {
        let r = FetchableTopicResponse {
            topic: self.topic.clone(),
            topic_id: self.topic_id,
            partitions: clone_vec(&self.partitions),
            _unknown_tagged_fields: clone_vec(&self._unknown_tagged_fields),
        };
        assert(r@ =~= self@);
        r
    }
}

impl ViewClone for FetchableTopicResponse {
    fn clone_view(&self) -> (r: Self) {
        self.clone()
    }
}

impl Default for FetchableTopicResponse {
    fn default() -> (r: Self)
        ensures
            r@ == Self::default_view(),
    {
        let r = FetchableTopicResponse {
            topic: KafkaString::default(),
            topic_id: KafkaUuid::zero(),
            partitions: empty_vec(),
            _unknown_tagged_fields: empty_vec(),
        };
        assert(r@ =~= Self::default_view());
        r
    }
}

impl FetchableTopicResponse {
    pub open spec fn default_view() -> FetchableTopicResponseView {
        FetchableTopicResponseView {
            topic: Seq::empty(),
            topic_id: KafkaUuid { most_significant_bits: 0, least_significant_bits: 0 },
            partitions: Seq::empty(),
            unknown_tagged_fields: Seq::empty(),
        }
    }

    /// The `topic` field, read from the front of `s`.
    #[verifier::opaque]
    pub open spec fn spec_read_topic(s: Seq<u8>, version: i16) -> ReadOutcome<Seq<u8>> {
        if version <= 12 {
            if version >= 12 {
                spec_read_compact_string(s)
            } else {
                spec_read_string(s)
            }
        } else {
            Ok((Seq::empty(), s))
        }
    }

    /// The `topic_id` field, read from the front of `s`.
    #[verifier::opaque]
    pub open spec fn spec_read_topic_id(s: Seq<u8>, version: i16) -> ReadOutcome<KafkaUuid> {
        if version >= 13 {
            spec_read_uuid(s)
        } else {
            Ok((KafkaUuid { most_significant_bits: 0, least_significant_bits: 0 }, s))
        }
    }

    /// The `partitions` field, read from the front of `s`.
    #[verifier::opaque]
    pub open spec fn spec_read_partitions(s: Seq<u8>, version: i16) -> ReadOutcome<Seq<PartitionDataView>> {
        if version >= 12 {
            spec_read_array::<PartitionData>(s, version, true)
        } else {
            spec_read_array::<PartitionData>(s, version, false)
        }
    }

    /// The tagged fields, read from the front of `s`.
    #[verifier::opaque]
    pub open spec fn spec_read_tags(s: Seq<u8>, version: i16) -> ReadOutcome<Seq<(u32, Seq<u8>)>> {
        if version >= 12 {
            spec_read_tagged_fields(s)
        } else {
            Ok((Seq::empty(), s))
        }
    }

    pub open spec fn spec_read(s: Seq<u8>, version: i16) -> ReadOutcome<FetchableTopicResponseView> {
        match (Self::spec_read_topic(s, version)) {
            Err(e) => Err(e),
            Ok((topic, s)) => match (Self::spec_read_topic_id(s, version)) {
                Err(e) => Err(e),
                Ok((topic_id, s)) => match (Self::spec_read_partitions(s, version)) {
                    Err(e) => Err(e),
                    Ok((partitions, s)) => match (Self::spec_read_tags(s, version)) {
                        Err(e) => Err(e),
                        Ok((unknown_tagged_fields, s)) => Ok((FetchableTopicResponseView {
                                    topic: topic,
                                    topic_id: topic_id,
                                    partitions: partitions,
                                    unknown_tagged_fields: unknown_tagged_fields,
                                }, s)),
                    },
                },
            },
        }
    }

    /// What writing the `topic` field of `m` appends.
    #[verifier::opaque]
    pub open spec fn spec_write_topic(m: FetchableTopicResponseView, version: i16) -> WriteOutcome {
        if version <= 12 {
            if version >= 12 {
                spec_write_compact_string(m.topic)
            } else {
                spec_write_string(m.topic)
            }
        } else {
            emit(Seq::empty())
        }
    }

    /// What writing the `topic_id` field of `m` appends.
    #[verifier::opaque]
    pub open spec fn spec_write_topic_id(m: FetchableTopicResponseView, version: i16) -> WriteOutcome {
        if version >= 13 {
            spec_write_uuid(m.topic_id)
        } else {
            emit(Seq::empty())
        }
    }

    /// What writing the `partitions` field of `m` appends.
    #[verifier::opaque]
    pub open spec fn spec_write_partitions(m: FetchableTopicResponseView, version: i16) -> WriteOutcome {
        if version >= 12 {
            spec_write_array::<PartitionData>(m.partitions, version, true)
        } else {
            spec_write_array::<PartitionData>(m.partitions, version, false)
        }
    }

    /// What writing the tagged fields of `m` appends.
    #[verifier::opaque]
    pub open spec fn spec_write_tags(m: FetchableTopicResponseView, version: i16) -> WriteOutcome {
        if version >= 12 {
            spec_write_tagged_fields(sorted_by_tag(m.unknown_tagged_fields))
        } else {
            emit(Seq::empty())
        }
    }

    pub open spec fn spec_write(m: FetchableTopicResponseView, version: i16) -> WriteOutcome {
        chain(
            chain(
                chain(
                    Self::spec_write_topic(m, version),
                    Self::spec_write_topic_id(m, version),
                ),
                Self::spec_write_partitions(m, version),
            ),
            Self::spec_write_tags(m, version),
        )
    }

    /// Whether reading back what writing `m` in `version` appends gives `m`:
    /// fields that the version does not carry hold their default values, and
    /// tagged fields come in the order in which they are written.
    pub open spec fn canonical(m: FetchableTopicResponseView, version: i16) -> bool {
        &&& (if version <= 12 {
                true
            } else {
                m.topic.len() == 0
        })
        &&& (if version >= 13 {
                true
            } else {
                m.topic_id == KafkaUuid { most_significant_bits: 0, least_significant_bits: 0 }
        })
        &&& all_canonical::<PartitionData>(m.partitions, version)
        &&& (if version >= 12 {
                tags_in_order(m.unknown_tagged_fields)
            } else {
                m.unknown_tagged_fields.len() == 0
        })
    }

    proof fn lemma_round_trip_topic(m: FetchableTopicResponseView, version: i16, rest: Seq<u8>)
        requires
            Self::canonical(m, version),
            Self::spec_write_topic(m, version) is Ok,
        ensures
            Self::spec_read_topic(written(Self::spec_write_topic(m, version)) + rest, version) == Ok::<(Seq<u8>, Seq<u8>), Error>((m.topic, rest)),
    {
        reveal(FetchableTopicResponse::spec_read_topic);
        reveal(FetchableTopicResponse::spec_write_topic);
        if version <= 12 {
            if version >= 12 {
                lemma_compact_string_round_trip(m.topic, rest);
            } else {
                lemma_string_round_trip(m.topic, rest);
            }
        } else {
            assert(Seq::<u8>::empty() + rest =~= rest);
            assert(m.topic =~= Seq::empty());
        }
    }

    proof fn lemma_round_trip_topic_id(m: FetchableTopicResponseView, version: i16, rest: Seq<u8>)
        requires
            Self::canonical(m, version),
            Self::spec_write_topic_id(m, version) is Ok,
        ensures
            Self::spec_read_topic_id(written(Self::spec_write_topic_id(m, version)) + rest, version) == Ok::<(KafkaUuid, Seq<u8>), Error>((m.topic_id, rest)),
    {
        reveal(FetchableTopicResponse::spec_read_topic_id);
        reveal(FetchableTopicResponse::spec_write_topic_id);
        if version >= 13 {
            lemma_uuid_round_trip(m.topic_id, rest);
        } else {
            assert(Seq::<u8>::empty() + rest =~= rest);
        }
    }

    proof fn lemma_round_trip_partitions(m: FetchableTopicResponseView, version: i16, rest: Seq<u8>)
        requires
            Self::canonical(m, version),
            Self::spec_write_partitions(m, version) is Ok,
        ensures
            Self::spec_read_partitions(written(Self::spec_write_partitions(m, version)) + rest, version) == Ok::<(Seq<PartitionDataView>, Seq<u8>), Error>((m.partitions, rest)),
    {
        reveal(FetchableTopicResponse::spec_read_partitions);
        reveal(FetchableTopicResponse::spec_write_partitions);
        if version >= 12 {
            lemma_array_round_trip::<PartitionData>(m.partitions, version, true, rest);
        } else {
            lemma_array_round_trip::<PartitionData>(m.partitions, version, false, rest);
        }
    }

    proof fn lemma_round_trip_tags(m: FetchableTopicResponseView, version: i16, rest: Seq<u8>)
        requires
            Self::canonical(m, version),
            Self::spec_write_tags(m, version) is Ok,
        ensures
            Self::spec_read_tags(written(Self::spec_write_tags(m, version)) + rest, version) == Ok::<(Seq<(u32, Seq<u8>)>, Seq<u8>), Error>((m.unknown_tagged_fields, rest)),
    {
        reveal(FetchableTopicResponse::spec_read_tags);
        reveal(FetchableTopicResponse::spec_write_tags);
        if version >= 12 {
            lemma_sorted_by_tag_in_order(m.unknown_tagged_fields);
            lemma_tagged_fields_round_trip(m.unknown_tagged_fields, rest);
        } else {
            assert(Seq::<u8>::empty() + rest =~= rest);
            assert(m.unknown_tagged_fields =~= Seq::empty());
        }
    }

    /// Reading back what writing `m` in `version` appends gives `m` again, and
    /// leaves what follows, for every canonical message whose write succeeds.
    #[verifier::rlimit(80)]
    #[verifier::spinoff_prover]
    pub proof fn lemma_round_trip(m: FetchableTopicResponseView, version: i16, rest: Seq<u8>)
        requires
            Self::canonical(m, version),
            Self::spec_write(m, version) is Ok,
        ensures
            Self::spec_read(written(Self::spec_write(m, version)) + rest, version) == Ok::<(FetchableTopicResponseView, Seq<u8>), Error>((m, rest)),
    {
        let b0 = written(Self::spec_write_topic(m, version));
        let b1 = written(Self::spec_write_topic_id(m, version));
        let b2 = written(Self::spec_write_partitions(m, version));
        let b3 = written(Self::spec_write_tags(m, version));
        let t4 = rest;
        let t3 = b3 + t4;
        let t2 = b2 + t3;
        let t1 = b1 + t2;
        let t0 = b0 + t1;
        let w0 = Self::spec_write_topic(m, version);
        let w1 = chain(w0, Self::spec_write_topic_id(m, version));
        let w2 = chain(w1, Self::spec_write_partitions(m, version));
        let w3 = chain(w2, Self::spec_write_tags(m, version));
        assert(Self::spec_write(m, version) == w3);
        assert(written(w3) + t4 =~= written(w2) + t3);
        assert(written(w2) + t3 =~= written(w1) + t2);
        assert(written(w1) + t2 =~= written(w0) + t1);
        Self::lemma_round_trip_topic(m, version, t1);
        Self::lemma_round_trip_topic_id(m, version, t2);
        Self::lemma_round_trip_partitions(m, version, t3);
        Self::lemma_round_trip_tags(m, version, t4);
    }

    /// In a version that does not carry `topic`, writing ignores its value.
    pub proof fn lemma_write_ignores_topic(m: FetchableTopicResponseView, value: Seq<u8>, version: i16)
        requires
            !(version <= 12),
        ensures
            Self::spec_write((FetchableTopicResponseView { topic: value, ..m }), version) == Self::spec_write(m, version),
    {
        reveal(FetchableTopicResponse::spec_write_topic);
        reveal(FetchableTopicResponse::spec_write_topic_id);
        reveal(FetchableTopicResponse::spec_write_partitions);
        reveal(FetchableTopicResponse::spec_write_tags);
    }

    /// In a version that does not carry `topic_id`, writing ignores its value.
    pub proof fn lemma_write_ignores_topic_id(m: FetchableTopicResponseView, value: KafkaUuid, version: i16)
        requires
            !(version >= 13),
        ensures
            Self::spec_write((FetchableTopicResponseView { topic_id: value, ..m }), version) == Self::spec_write(m, version),
    {
        reveal(FetchableTopicResponse::spec_write_topic);
        reveal(FetchableTopicResponse::spec_write_topic_id);
        reveal(FetchableTopicResponse::spec_write_partitions);
        reveal(FetchableTopicResponse::spec_write_tags);
    }

    /// In a version that does not carry `unknown_tagged_fields`, writing ignores its value.
    pub proof fn lemma_write_ignores_unknown_tagged_fields(m: FetchableTopicResponseView, value: Seq<(u32, Seq<u8>)>, version: i16)
        requires
            !(version >= 12),
        ensures
            Self::spec_write((FetchableTopicResponseView { unknown_tagged_fields: value, ..m }), version) == Self::spec_write(m, version),
    {
        reveal(FetchableTopicResponse::spec_write_topic);
        reveal(FetchableTopicResponse::spec_write_topic_id);
        reveal(FetchableTopicResponse::spec_write_partitions);
        reveal(FetchableTopicResponse::spec_write_tags);
    }

    /// The default message holds the default value of each field of the schema.
    pub proof fn lemma_default_values()
        ensures
            Self::default_view().topic.len() == 0,
            Self::default_view().topic_id == (KafkaUuid { most_significant_bits: 0, least_significant_bits: 0 }),
            Self::default_view().partitions.len() == 0,
            Self::default_view().unknown_tagged_fields.len() == 0,
    {
    }

    /// Each integer, boolean and identifier field is written as its standard
    /// big-endian bytes (a boolean as `1` or `0`) in the versions that carry
    /// it, and as nothing in the others; reading it takes those bytes back (any
    /// byte other than `0` reads as `true`), or gives its default value.
    pub proof fn lemma_field_encodings(m: FetchableTopicResponseView, s: Seq<u8>, version: i16)
        ensures
            !(version <= 12) ==> Self::spec_write_topic(m, version) == Ok::<Seq<u8>, (Error, Seq<u8>)>(Seq::empty()),
            version >= 13 ==> Self::spec_write_topic_id(m, version) == Ok::<Seq<u8>, (Error, Seq<u8>)>((u64_bytes(m.topic_id.most_significant_bits) + u64_bytes(m.topic_id.least_significant_bits))),
            !(version >= 13) ==> Self::spec_write_topic_id(m, version) == Ok::<Seq<u8>, (Error, Seq<u8>)>(Seq::empty()),
            version >= 13 ==> Self::spec_read_topic_id(s, version) == spec_read_uuid(s),
    {
        reveal(FetchableTopicResponse::spec_write_topic);
        reveal(FetchableTopicResponse::spec_read_topic);
        reveal(FetchableTopicResponse::spec_write_topic_id);
        reveal(FetchableTopicResponse::spec_read_topic_id);
    }

    /// Whether writing `m` in `version` succeeds, said over its parts: the
    /// version is one the schema covers, every field that the version cannot
    /// carry holds its default value, and every string, byte string, array and
    /// tagged field fits its length prefix.
    pub open spec fn writable(m: FetchableTopicResponseView, version: i16) -> bool {
        &&& (if version <= 12 {
                m.topic.len() <= 0x7fff
            } else {
                true
        })
        &&& (m.partitions.len() <= i32::MAX && all_writable::<PartitionData>(m.partitions, version))
        &&& (if version >= 12 {
                m.unknown_tagged_fields.len() <= u32::MAX && tags_fit(m.unknown_tagged_fields)
            } else {
                true
        })
    }

    proof fn lemma_writable_topic(m: FetchableTopicResponseView, version: i16)
        ensures
            Self::spec_write_topic(m, version) is Ok <==> (if version <= 12 { m.topic.len() <= 0x7fff } else { true }),
    {
        reveal(FetchableTopicResponse::spec_write_topic);
    }

    proof fn lemma_writable_topic_id(m: FetchableTopicResponseView, version: i16)
        ensures
            Self::spec_write_topic_id(m, version) is Ok <==> true,
    {
        reveal(FetchableTopicResponse::spec_write_topic_id);
    }

    proof fn lemma_writable_partitions(m: FetchableTopicResponseView, version: i16)
        ensures
            Self::spec_write_partitions(m, version) is Ok <==> (m.partitions.len() <= i32::MAX && all_writable::<PartitionData>(m.partitions, version)),
    {
        reveal(FetchableTopicResponse::spec_write_partitions);
        if version >= 12 {
            lemma_array_writable::<PartitionData>(m.partitions, version, true);
        } else {
            lemma_array_writable::<PartitionData>(m.partitions, version, false);
        }
    }

    proof fn lemma_writable_tags(m: FetchableTopicResponseView, version: i16)
        ensures
            Self::spec_write_tags(m, version) is Ok <==> (if version >= 12 { m.unknown_tagged_fields.len() <= u32::MAX && tags_fit(m.unknown_tagged_fields) } else { true }),
    {
        reveal(FetchableTopicResponse::spec_write_tags);
        if version >= 12 {
            lemma_sorted_tags_fit(m.unknown_tagged_fields);
            lemma_tagged_fields_writable(sorted_by_tag(m.unknown_tagged_fields));
        }
    }

    /// Writing `m` in `version` succeeds exactly when `m` is writable in it;
    /// so do `write` and `encoded_len`, whose results follow `spec_write`.
    #[verifier::rlimit(54)]
    pub proof fn lemma_writable(m: FetchableTopicResponseView, version: i16)
        ensures
            Self::spec_write(m, version) is Ok <==> Self::writable(m, version),
    {
        Self::lemma_writable_topic(m, version);
        Self::lemma_writable_topic_id(m, version);
        Self::lemma_writable_partitions(m, version);
        Self::lemma_writable_tags(m, version);
    }

    fn read_topic(buf: &mut Bytes, version: i16) -> (r: Result<KafkaString, Error>)
        ensures
            read_as(Self::spec_read_topic(bytes_seq(*old(buf)), version), *final(buf), r),
            took_front(*old(buf), *final(buf)),
    {
        proof {
            reveal(FetchableTopicResponse::spec_read_topic);
        }
        Ok(if version <= 12 {
                if version >= 12 {
                    read_compact_string(buf)?
                } else {
                    read_string(buf)?
                }
            } else {
                KafkaString::default()
        })
    }

    fn read_topic_id(buf: &mut Bytes, version: i16) -> (r: Result<KafkaUuid, Error>)
        ensures
            read_as(Self::spec_read_topic_id(bytes_seq(*old(buf)), version), *final(buf), r),
            took_front(*old(buf), *final(buf)),
    {
        proof {
            reveal(FetchableTopicResponse::spec_read_topic_id);
        }
        Ok(if version >= 13 {
                read_uuid(buf)?
            } else {
                KafkaUuid::zero()
        })
    }

    fn read_partitions(buf: &mut Bytes, version: i16) -> (r: Result<Vec<PartitionData>, Error>)
        ensures
            read_vec_as(Self::spec_read_partitions(bytes_seq(*old(buf)), version), *final(buf), r),
            took_front(*old(buf), *final(buf)),
    {
        proof {
            reveal(FetchableTopicResponse::spec_read_partitions);
        }
        Ok(if version >= 12 {
                read_array::<PartitionData>(buf, version, true)?
            } else {
                read_array::<PartitionData>(buf, version, false)?
        })
    }

    fn read_tags(buf: &mut Bytes, version: i16) -> (r: Result<Vec<RawTaggedField>, Error>)
        ensures
            read_vec_as(Self::spec_read_tags(bytes_seq(*old(buf)), version), *final(buf), r),
            took_front(*old(buf), *final(buf)),
    {
        proof {
            reveal(FetchableTopicResponse::spec_read_tags);
        }
        Ok(if version >= 12 {
                read_tagged_fields(buf)?
            } else {
                empty_vec()
        })
    }

    pub fn read(buf: &mut Bytes, version: i16) -> (r: Result<Self, Error>)
        ensures
            read_as(Self::spec_read(bytes_seq(*old(buf)), version), *final(buf), r),
            took_front(*old(buf), *final(buf)),
    {
        let topic = Self::read_topic(buf, version)?;
        let topic_id = Self::read_topic_id(buf, version)?;
        let partitions = Self::read_partitions(buf, version)?;
        let _unknown_tagged_fields = Self::read_tags(buf, version)?;
        Ok(FetchableTopicResponse {
                topic: topic,
                topic_id: topic_id,
                partitions: partitions,
                _unknown_tagged_fields: _unknown_tagged_fields,
        })
    }

    #[verifier::rlimit(70)]
    pub fn write(&self, buf: &mut BytesMut, version: i16) -> (r: Result<(), Error>)
        requires
            has_room(Self::spec_write(self@, version), *old(buf)),
        ensures
            wrote(Self::spec_write(self@, version), *old(buf), *final(buf), r),
    {
        let ghost m = self@;
        proof {
            reveal(FetchableTopicResponse::spec_write_topic);
            reveal(FetchableTopicResponse::spec_write_topic_id);
            reveal(FetchableTopicResponse::spec_write_partitions);
            reveal(FetchableTopicResponse::spec_write_tags);
        }
        let ghost s0 = Self::spec_write_topic(m, version);
        let ghost w0 = s0;
        let ghost s1 = Self::spec_write_topic_id(m, version);
        let ghost w1 = chain(w0, s1);
        let ghost s2 = Self::spec_write_partitions(m, version);
        let ghost w2 = chain(w1, s2);
        let ghost s3 = Self::spec_write_tags(m, version);
        let ghost w3 = chain(w2, s3);
        assert(Self::spec_write(m, version) == w3);
        assert(written(w2).len() <= written(w3).len() && (w2 is Err ==> w3 == w2));
        assert(written(w1).len() <= written(w3).len() && (w1 is Err ==> w3 == w1));
        assert(written(w0).len() <= written(w3).len() && (w0 is Err ==> w3 == w0));
        let ghost mid = bytes_mut_seq(*buf);
        proof {
            lemma_append_empty(mid);
        }
        let r0 = if version <= 12 {
            if version >= 12 {
                write_compact_string(buf, &self.topic)
            } else {
                write_string(buf, &self.topic)
            }
        } else {
            Ok(())
        };
        assert(bytes_mut_seq(*buf) == mid + written(s0));
        if r0.is_err() {
            return r0;
        }
        let ghost mid = bytes_mut_seq(*buf);
        proof {
            lemma_append_empty(mid);
        }
        let r1 = if version >= 13 {
            {
                write_uuid(buf, self.topic_id);
                Ok(())
            }
        } else {
            Ok(())
        };
        assert(bytes_mut_seq(*buf) == mid + written(s1));
        proof {
            lemma_step(bytes_mut_seq(*old(buf)), w0, s1);
        }
        if r1.is_err() {
            return r1;
        }
        let ghost mid = bytes_mut_seq(*buf);
        proof {
            lemma_append_empty(mid);
        }
        let r2 = if version >= 12 {
            write_array::<PartitionData>(buf, &self.partitions, version, true)
        } else {
            write_array::<PartitionData>(buf, &self.partitions, version, false)
        };
        assert(bytes_mut_seq(*buf) == mid + written(s2));
        proof {
            lemma_step(bytes_mut_seq(*old(buf)), w1, s2);
        }
        if r2.is_err() {
            return r2;
        }
        let ghost mid = bytes_mut_seq(*buf);
        proof {
            lemma_append_empty(mid);
        }
        let r3 = if version >= 12 {
            write_tagged_fields(buf, &sort_by_tag(&self._unknown_tagged_fields))
        } else {
            Ok(())
        };
        assert(bytes_mut_seq(*buf) == mid + written(s3));
        proof {
            lemma_step(bytes_mut_seq(*old(buf)), w2, s3);
        }
        if r3.is_err() {
            return r3;
        }
        Ok(())
    }
}

#[derive(Debug, PartialEq)]
pub struct PartitionData {
    /// The partition index.
    pub partition_index: i32,
    /// The error code, or 0 if there was no fetch error.
    pub error_code: i16,
    /// The current high water mark.
    pub high_watermark: i64,
    /// The last stable offset (or LSO) of the partition. This is the last offset such that the
    /// state of all transactional records prior to this offset have been decided (ABORTED or
    /// COMMITTED).
    pub last_stable_offset: i64,
    /// The current log start offset.
    pub log_start_offset: i64,
    /// In case divergence is detected based on the `LastFetchedEpoch` and `FetchOffset` in the
    /// request, this field indicates the largest epoch and its end offset such that subsequent
    /// records are known to diverge.
    pub diverging_epoch: EpochEndOffset,
    /// The current leader of the partition.
    pub current_leader: LeaderIdAndEpoch,
    /// In the case of fetching an offset less than the LogStartOffset, this is the end offset and
    /// epoch that should be used in the FetchSnapshot request.
    pub snapshot_id: SnapshotId,
    /// The aborted transactions.
    pub aborted_transactions: Option<Vec<AbortedTransaction>>,
    /// The preferred read replica for the consumer to use on its next fetch request.
    pub preferred_read_replica: i32,
    /// The record data.
    pub records: Option<Bytes>,
    pub _unknown_tagged_fields: Vec<RawTaggedField>,
}

/// What a `PartitionData` holds, as the specification sees it.
#[verifier::ext_equal]
pub struct PartitionDataView {
    pub partition_index: i32,
    pub error_code: i16,
    pub high_watermark: i64,
    pub last_stable_offset: i64,
    pub log_start_offset: i64,
    pub diverging_epoch: EpochEndOffsetView,
    pub current_leader: LeaderIdAndEpochView,
    pub snapshot_id: SnapshotIdView,
    pub aborted_transactions: Option<Seq<AbortedTransactionView>>,
    pub preferred_read_replica: i32,
    pub records: Option<Seq<u8>>,
    pub unknown_tagged_fields: Seq<(u32, Seq<u8>)>,
}

impl View for PartitionData {
    type V = PartitionDataView;

    open spec fn view(&self) -> PartitionDataView {
        PartitionDataView {
            partition_index: self.partition_index,
            error_code: self.error_code,
            high_watermark: self.high_watermark,
            last_stable_offset: self.last_stable_offset,
            log_start_offset: self.log_start_offset,
            diverging_epoch: self.diverging_epoch@,
            current_leader: self.current_leader@,
            snapshot_id: self.snapshot_id@,
            aborted_transactions: opt_views(self.aborted_transactions),
            preferred_read_replica: self.preferred_read_replica,
            records: opt_bytes_view(self.records),
            unknown_tagged_fields: views(self._unknown_tagged_fields@),
        }
    }
}

impl Clone for PartitionData {
    fn clone(&self) -> (r: Self)
        ensures
            r@ == self@,
    {
        let r = PartitionData {
            partition_index: self.partition_index,
            error_code: self.error_code,
            high_watermark: self.high_watermark,
            last_stable_offset: self.last_stable_offset,
            log_start_offset: self.log_start_offset,
            diverging_epoch: self.diverging_epoch.clone(),
            current_leader: self.current_leader.clone(),
            snapshot_id: self.snapshot_id.clone(),
            aborted_transactions: match &self.aborted_transactions {
                Some(x) => Some(clone_vec(x)),
                None => None,
            },
            preferred_read_replica: self.preferred_read_replica,
            records: match &self.records {
                Some(x) => Some(x.clone()),
                None => None,
            },
            _unknown_tagged_fields: clone_vec(&self._unknown_tagged_fields),
        };
        assert(r@ =~= self@);
        r
    }
}

impl ViewClone for PartitionData {
    fn clone_view(&self) -> (r: Self) {
        self.clone()
    }
}

impl Default for PartitionData {
    fn default() -> (r: Self)
        ensures
            r@ == Self::default_view(),
    {
        let r = PartitionData {
            partition_index: 0_i32,
            error_code: 0_i16,
            high_watermark: 0_i64,
            last_stable_offset: -1i64,
            log_start_offset: -1i64,
            diverging_epoch: EpochEndOffset::default(),
            current_leader: LeaderIdAndEpoch::default(),
            snapshot_id: SnapshotId::default(),
            aborted_transactions: None,
            preferred_read_replica: -1i32,
            records: None,
            _unknown_tagged_fields: empty_vec(),
        };
        assert(r@ =~= Self::default_view());
        r
    }
}

impl PartitionData {
    pub open spec fn default_view() -> PartitionDataView {
        PartitionDataView {
            partition_index: 0_i32,
            error_code: 0_i16,
            high_watermark: 0_i64,
            last_stable_offset: -1i64,
            log_start_offset: -1i64,
            diverging_epoch: EpochEndOffset::default_view(),
            current_leader: LeaderIdAndEpoch::default_view(),
            snapshot_id: SnapshotId::default_view(),
            aborted_transactions: None,
            preferred_read_replica: -1i32,
            records: None,
            unknown_tagged_fields: Seq::empty(),
        }
    }

    /// The `partition_index` field, read from the front of `s`.
    #[verifier::opaque]
    pub open spec fn spec_read_partition_index(s: Seq<u8>, version: i16) -> ReadOutcome<i32> {
        spec_read_i32(s)
    }

    /// The `error_code` field, read from the front of `s`.
    #[verifier::opaque]
    pub open spec fn spec_read_error_code(s: Seq<u8>, version: i16) -> ReadOutcome<i16> {
        spec_read_i16(s)
    }

    /// The `high_watermark` field, read from the front of `s`.
    #[verifier::opaque]
    pub open spec fn spec_read_high_watermark(s: Seq<u8>, version: i16) -> ReadOutcome<i64> {
        spec_read_i64(s)
    }

    /// The `last_stable_offset` field, read from the front of `s`.
    #[verifier::opaque]
    pub open spec fn spec_read_last_stable_offset(s: Seq<u8>, version: i16) -> ReadOutcome<i64> {
        spec_read_i64(s)
    }

    /// The `log_start_offset` field, read from the front of `s`.
    #[verifier::opaque]
    pub open spec fn spec_read_log_start_offset(s: Seq<u8>, version: i16) -> ReadOutcome<i64> {
        if version >= 5 {
            spec_read_i64(s)
        } else {
            Ok((-1i64, s))
        }
    }

    /// The `aborted_transactions` field, read from the front of `s`.
    #[verifier::opaque]
    pub open spec fn spec_read_aborted_transactions(s: Seq<u8>, version: i16) -> ReadOutcome<Option<Seq<AbortedTransactionView>>> {
        if version >= 12 {
            spec_read_nullable_array::<AbortedTransaction>(s, version, true)
        } else {
            spec_read_nullable_array::<AbortedTransaction>(s, version, false)
        }
    }

    /// The `preferred_read_replica` field, read from the front of `s`.
    #[verifier::opaque]
    pub open spec fn spec_read_preferred_read_replica(s: Seq<u8>, version: i16) -> ReadOutcome<i32> {
        if version >= 11 {
            spec_read_i32(s)
        } else {
            Ok((-1i32, s))
        }
    }

    /// The `records` field, read from the front of `s`.
    #[verifier::opaque]
    pub open spec fn spec_read_records(s: Seq<u8>, version: i16) -> ReadOutcome<Option<Seq<u8>>> {
        if version >= 12 {
            spec_read_compact_nullable_bytes(s)
        } else {
            spec_read_nullable_bytes(s)
        }
    }

    pub open spec fn spec_read(s: Seq<u8>, version: i16) -> ReadOutcome<PartitionDataView> {
        match (Self::spec_read_partition_index(s, version)) {
            Err(e) => Err(e),
            Ok((partition_index, s)) => match (Self::spec_read_error_code(s, version)) {
                Err(e) => Err(e),
                Ok((error_code, s)) => match (Self::spec_read_high_watermark(s, version)) {
                    Err(e) => Err(e),
                    Ok((high_watermark, s)) => match (Self::spec_read_last_stable_offset(s, version)) {
                        Err(e) => Err(e),
                        Ok((last_stable_offset, s)) => match (Self::spec_read_log_start_offset(s, version)) {
                            Err(e) => Err(e),
                            Ok((log_start_offset, s)) => match (Self::spec_read_aborted_transactions(s, version)) {
                                Err(e) => Err(e),
                                Ok((aborted_transactions, s)) => match (Self::spec_read_preferred_read_replica(s, version)) {
                                    Err(e) => Err(e),
                                    Ok((preferred_read_replica, s)) => match (Self::spec_read_records(s, version)) {
                                        Err(e) => Err(e),
                                        Ok((records, s)) => match (if version >= 12 {
                                                spec_read_tagged_fields(s)
                                            } else {
                                                Ok((Seq::empty(), s))
                                        }) {
                                            Err(e) => Err(e),
                                            Ok((tags, s)) => match (match (Self::spec_apply_tags(tags, version)) {
                                                    Err(e) => Err(e),
                                                    Ok(k) => Ok((k, s)),
                                            }) {
                                                Err(e) => Err(e),
                                                Ok(((diverging_epoch, current_leader, snapshot_id, unknown_tagged_fields), s)) => Ok((PartitionDataView {
                                                            partition_index: partition_index,
                                                            error_code: error_code,
                                                            high_watermark: high_watermark,
                                                            last_stable_offset: last_stable_offset,
                                                            log_start_offset: log_start_offset,
                                                            diverging_epoch: diverging_epoch,
                                                            current_leader: current_leader,
                                                            snapshot_id: snapshot_id,
                                                            aborted_transactions: aborted_transactions,
                                                            preferred_read_replica: preferred_read_replica,
                                                            records: records,
                                                            unknown_tagged_fields: unknown_tagged_fields,
                                                        }, s)),
                                            },
                                        },
                                    },
                                },
                            },
                        },
                    },
                },
            },
        }
    }

    /// What writing the `partition_index` field of `m` appends.
    #[verifier::opaque]
    pub open spec fn spec_write_partition_index(m: PartitionDataView, version: i16) -> WriteOutcome {
        spec_write_i32(m.partition_index)
    }

    /// What writing the `error_code` field of `m` appends.
    #[verifier::opaque]
    pub open spec fn spec_write_error_code(m: PartitionDataView, version: i16) -> WriteOutcome {
        spec_write_i16(m.error_code)
    }

    /// What writing the `high_watermark` field of `m` appends.
    #[verifier::opaque]
    pub open spec fn spec_write_high_watermark(m: PartitionDataView, version: i16) -> WriteOutcome {
        spec_write_i64(m.high_watermark)
    }

    /// What writing the `last_stable_offset` field of `m` appends.
    #[verifier::opaque]
    pub open spec fn spec_write_last_stable_offset(m: PartitionDataView, version: i16) -> WriteOutcome {
        spec_write_i64(m.last_stable_offset)
    }

    /// What writing the `log_start_offset` field of `m` appends.
    #[verifier::opaque]
    pub open spec fn spec_write_log_start_offset(m: PartitionDataView, version: i16) -> WriteOutcome {
        if version >= 5 {
            spec_write_i64(m.log_start_offset)
        } else {
            emit(Seq::empty())
        }
    }

    /// What writing the `aborted_transactions` field of `m` appends.
    #[verifier::opaque]
    pub open spec fn spec_write_aborted_transactions(m: PartitionDataView, version: i16) -> WriteOutcome {
        if version >= 12 {
            spec_write_nullable_array::<AbortedTransaction>(m.aborted_transactions, version, true, -1i32)
        } else {
            spec_write_nullable_array::<AbortedTransaction>(m.aborted_transactions, version, false, -1i32)
        }
    }

    /// What writing the `preferred_read_replica` field of `m` appends.
    #[verifier::opaque]
    pub open spec fn spec_write_preferred_read_replica(m: PartitionDataView, version: i16) -> WriteOutcome {
        if version >= 11 {
            spec_write_i32(m.preferred_read_replica)
        } else {
            emit(Seq::empty())
        }
    }

    /// What writing the `records` field of `m` appends.
    #[verifier::opaque]
    pub open spec fn spec_write_records(m: PartitionDataView, version: i16) -> WriteOutcome {
        if version >= 12 {
            spec_write_compact_nullable_bytes(m.records)
        } else {
            spec_write_nullable_bytes(m.records)
        }
    }

    /// What writing the tagged fields of `m` appends.
    #[verifier::opaque]
    pub open spec fn spec_write_tags(m: PartitionDataView, version: i16) -> WriteOutcome {
        if version >= 12 {
            match (Self::spec_known_tags(m, version)) {
                Err(e) => fail(e),
                Ok(k) => spec_write_tagged_fields(sorted_by_tag(k + m.unknown_tagged_fields)),
            }
        } else {
            emit(Seq::empty())
        }
    }

    pub open spec fn spec_write(m: PartitionDataView, version: i16) -> WriteOutcome {
        chain(
            chain(
                chain(
                    chain(
                        chain(
                            chain(
                                chain(
                                    chain(
                                        Self::spec_write_partition_index(m, version),
                                        Self::spec_write_error_code(m, version),
                                    ),
                                    Self::spec_write_high_watermark(m, version),
                                ),
                                Self::spec_write_last_stable_offset(m, version),
                            ),
                            Self::spec_write_log_start_offset(m, version),
                        ),
                        Self::spec_write_aborted_transactions(m, version),
                    ),
                    Self::spec_write_preferred_read_replica(m, version),
                ),
                Self::spec_write_records(m, version),
            ),
            Self::spec_write_tags(m, version),
        )
    }

    /// Whether reading back what writing `m` in `version` appends gives `m`:
    /// fields that the version does not carry hold their default values, and
    /// tagged fields come in the order in which they are written.
    pub open spec fn canonical(m: PartitionDataView, version: i16) -> bool {
        &&& (if version >= 5 {
                true
            } else {
                m.log_start_offset == -1i64
        })
        &&& (m.aborted_transactions matches Some(xs) ==> all_canonical::<AbortedTransaction>(xs, version))
        &&& (if version >= 11 {
                true
            } else {
                m.preferred_read_replica == -1i32
        })
        &&& (if version >= 12 && !EpochEndOffset::is_default_view(m.diverging_epoch) {
                EpochEndOffset::canonical(m.diverging_epoch, version)
            } else {
                m.diverging_epoch == EpochEndOffset::default_view()
        })
        &&& (if version >= 12 && !LeaderIdAndEpoch::is_default_view(m.current_leader) {
                LeaderIdAndEpoch::canonical(m.current_leader, version)
            } else {
                m.current_leader == LeaderIdAndEpoch::default_view()
        })
        &&& (if version >= 12 && !SnapshotId::is_default_view(m.snapshot_id) {
                SnapshotId::canonical(m.snapshot_id, version)
            } else {
                m.snapshot_id == SnapshotId::default_view()
        })
        &&& (if version >= 12 {
                tags_in_order(m.unknown_tagged_fields) && forall|i: int| 0 <= i < m.unknown_tagged_fields.len() ==> !#[trigger] Self::is_known_tag(m.unknown_tagged_fields[i].0)
            } else {
                m.unknown_tagged_fields.len() == 0
        })
    }

    proof fn lemma_round_trip_partition_index(m: PartitionDataView, version: i16, rest: Seq<u8>)
        requires
            Self::canonical(m, version),
            Self::spec_write_partition_index(m, version) is Ok,
        ensures
            Self::spec_read_partition_index(written(Self::spec_write_partition_index(m, version)) + rest, version) == Ok::<(i32, Seq<u8>), Error>((m.partition_index, rest)),
    {
        reveal(PartitionData::spec_read_partition_index);
        reveal(PartitionData::spec_write_partition_index);
        lemma_i32_roundtrip(m.partition_index, rest);
    }

    proof fn lemma_round_trip_error_code(m: PartitionDataView, version: i16, rest: Seq<u8>)
        requires
            Self::canonical(m, version),
            Self::spec_write_error_code(m, version) is Ok,
        ensures
            Self::spec_read_error_code(written(Self::spec_write_error_code(m, version)) + rest, version) == Ok::<(i16, Seq<u8>), Error>((m.error_code, rest)),
    {
        reveal(PartitionData::spec_read_error_code);
        reveal(PartitionData::spec_write_error_code);
        lemma_i16_roundtrip(m.error_code, rest);
    }

    proof fn lemma_round_trip_high_watermark(m: PartitionDataView, version: i16, rest: Seq<u8>)
        requires
            Self::canonical(m, version),
            Self::spec_write_high_watermark(m, version) is Ok,
        ensures
            Self::spec_read_high_watermark(written(Self::spec_write_high_watermark(m, version)) + rest, version) == Ok::<(i64, Seq<u8>), Error>((m.high_watermark, rest)),
    {
        reveal(PartitionData::spec_read_high_watermark);
        reveal(PartitionData::spec_write_high_watermark);
        lemma_i64_roundtrip(m.high_watermark, rest);
    }

    proof fn lemma_round_trip_last_stable_offset(m: PartitionDataView, version: i16, rest: Seq<u8>)
        requires
            Self::canonical(m, version),
            Self::spec_write_last_stable_offset(m, version) is Ok,
        ensures
            Self::spec_read_last_stable_offset(written(Self::spec_write_last_stable_offset(m, version)) + rest, version) == Ok::<(i64, Seq<u8>), Error>((m.last_stable_offset, rest)),
    {
        reveal(PartitionData::spec_read_last_stable_offset);
        reveal(PartitionData::spec_write_last_stable_offset);
        lemma_i64_roundtrip(m.last_stable_offset, rest);
    }

    proof fn lemma_round_trip_log_start_offset(m: PartitionDataView, version: i16, rest: Seq<u8>)
        requires
            Self::canonical(m, version),
            Self::spec_write_log_start_offset(m, version) is Ok,
        ensures
            Self::spec_read_log_start_offset(written(Self::spec_write_log_start_offset(m, version)) + rest, version) == Ok::<(i64, Seq<u8>), Error>((m.log_start_offset, rest)),
    {
        reveal(PartitionData::spec_read_log_start_offset);
        reveal(PartitionData::spec_write_log_start_offset);
        if version >= 5 {
            lemma_i64_roundtrip(m.log_start_offset, rest);
        } else {
            assert(Seq::<u8>::empty() + rest =~= rest);
        }
    }

    proof fn lemma_round_trip_aborted_transactions(m: PartitionDataView, version: i16, rest: Seq<u8>)
        requires
            Self::canonical(m, version),
            Self::spec_write_aborted_transactions(m, version) is Ok,
        ensures
            Self::spec_read_aborted_transactions(written(Self::spec_write_aborted_transactions(m, version)) + rest, version) == Ok::<(Option<Seq<AbortedTransactionView>>, Seq<u8>), Error>((m.aborted_transactions, rest)),
    {
        reveal(PartitionData::spec_read_aborted_transactions);
        reveal(PartitionData::spec_write_aborted_transactions);
        if version >= 12 {
            lemma_nullable_array_round_trip::<AbortedTransaction>(m.aborted_transactions, version, true, -1i32, rest);
        } else {
            lemma_nullable_array_round_trip::<AbortedTransaction>(m.aborted_transactions, version, false, -1i32, rest);
        }
    }

    proof fn lemma_round_trip_preferred_read_replica(m: PartitionDataView, version: i16, rest: Seq<u8>)
        requires
            Self::canonical(m, version),
            Self::spec_write_preferred_read_replica(m, version) is Ok,
        ensures
            Self::spec_read_preferred_read_replica(written(Self::spec_write_preferred_read_replica(m, version)) + rest, version) == Ok::<(i32, Seq<u8>), Error>((m.preferred_read_replica, rest)),
    {
        reveal(PartitionData::spec_read_preferred_read_replica);
        reveal(PartitionData::spec_write_preferred_read_replica);
        if version >= 11 {
            lemma_i32_roundtrip(m.preferred_read_replica, rest);
        } else {
            assert(Seq::<u8>::empty() + rest =~= rest);
        }
    }

    proof fn lemma_round_trip_records(m: PartitionDataView, version: i16, rest: Seq<u8>)
        requires
            Self::canonical(m, version),
            Self::spec_write_records(m, version) is Ok,
        ensures
            Self::spec_read_records(written(Self::spec_write_records(m, version)) + rest, version) == Ok::<(Option<Seq<u8>>, Seq<u8>), Error>((m.records, rest)),
    {
        reveal(PartitionData::spec_read_records);
        reveal(PartitionData::spec_write_records);
        if version >= 12 {
            lemma_compact_nullable_bytes_round_trip(m.records, rest);
        } else {
            lemma_nullable_bytes_round_trip(m.records, rest);
        }
    }

    proof fn lemma_apply_known_tags(m: PartitionDataView, version: i16)
        requires
            Self::canonical(m, version),
            Self::spec_known_tags(m, version) is Ok,
            version >= 12,
        ensures
            tags_in_order(Self::spec_known_tags(m, version)->Ok_0),
            forall|i: int| 0 <= i < Self::spec_known_tags(m, version)->Ok_0.len() ==> #[trigger] Self::is_known_tag(Self::spec_known_tags(m, version)->Ok_0[i].0),
            Self::spec_apply_tags(Self::spec_known_tags(m, version)->Ok_0, version) == Ok::<(EpochEndOffsetView, LeaderIdAndEpochView, SnapshotIdView, Seq<(u32, Seq<u8>)>), Error>((m.diverging_epoch, m.current_leader, m.snapshot_id, Seq::empty())),
    {
        assert(Self::spec_apply_tags(Seq::empty(), version) == Ok::<(EpochEndOffsetView, LeaderIdAndEpochView, SnapshotIdView, Seq<(u32, Seq<u8>)>), Error>((EpochEndOffset::default_view(), LeaderIdAndEpoch::default_view(), SnapshotId::default_view(), Seq::empty())));
        let e0 = if !EpochEndOffset::is_default_view(m.diverging_epoch) {
            tag_entry(0u32, EpochEndOffset::spec_write(m.diverging_epoch, version))
        } else {
            Ok(Seq::empty())
        };
        let k0 = e0->Ok_0;
        let p0 = k0;
        if !EpochEndOffset::is_default_view(m.diverging_epoch) {
            EpochEndOffset::lemma_round_trip(m.diverging_epoch, version, Seq::<u8>::empty());
            assert(written(EpochEndOffset::spec_write(m.diverging_epoch, version)) + Seq::<u8>::empty() =~= written(EpochEndOffset::spec_write(m.diverging_epoch, version)));
            assert(p0.drop_last() =~= Seq::<(u32, Seq<u8>)>::empty());
        } else {
        }
        assert(tags_in_order(p0));
        assert(forall|i: int| 0 <= i < p0.len() ==> p0[i].0 <= 0u32);
        assert(forall|i: int| 0 <= i < p0.len() ==> #[trigger] Self::is_known_tag(p0[i].0));
        assert(Self::spec_apply_tags(p0, version) == Ok::<(EpochEndOffsetView, LeaderIdAndEpochView, SnapshotIdView, Seq<(u32, Seq<u8>)>), Error>((m.diverging_epoch, LeaderIdAndEpoch::default_view(), SnapshotId::default_view(), Seq::empty())));
        let e1 = if !LeaderIdAndEpoch::is_default_view(m.current_leader) {
            tag_entry(1u32, LeaderIdAndEpoch::spec_write(m.current_leader, version))
        } else {
            Ok(Seq::empty())
        };
        let k1 = e1->Ok_0;
        let p1 = (p0 + k1);
        if !LeaderIdAndEpoch::is_default_view(m.current_leader) {
            LeaderIdAndEpoch::lemma_round_trip(m.current_leader, version, Seq::<u8>::empty());
            assert(written(LeaderIdAndEpoch::spec_write(m.current_leader, version)) + Seq::<u8>::empty() =~= written(LeaderIdAndEpoch::spec_write(m.current_leader, version)));
            assert(p1.drop_last() =~= p0);
        } else {
            assert(p1 =~= p0);
        }
        assert(tags_in_order(p1));
        assert(forall|i: int| 0 <= i < p1.len() ==> p1[i].0 <= 1u32);
        assert(forall|i: int| 0 <= i < p1.len() ==> #[trigger] Self::is_known_tag(p1[i].0));
        assert(Self::spec_apply_tags(p1, version) == Ok::<(EpochEndOffsetView, LeaderIdAndEpochView, SnapshotIdView, Seq<(u32, Seq<u8>)>), Error>((m.diverging_epoch, m.current_leader, SnapshotId::default_view(), Seq::empty())));
        let e2 = if !SnapshotId::is_default_view(m.snapshot_id) {
            tag_entry(2u32, SnapshotId::spec_write(m.snapshot_id, version))
        } else {
            Ok(Seq::empty())
        };
        let k2 = e2->Ok_0;
        let p2 = (p1 + k2);
        if !SnapshotId::is_default_view(m.snapshot_id) {
            SnapshotId::lemma_round_trip(m.snapshot_id, version, Seq::<u8>::empty());
            assert(written(SnapshotId::spec_write(m.snapshot_id, version)) + Seq::<u8>::empty() =~= written(SnapshotId::spec_write(m.snapshot_id, version)));
            assert(p2.drop_last() =~= p1);
        } else {
            assert(p2 =~= p1);
        }
        assert(tags_in_order(p2));
        assert(forall|i: int| 0 <= i < p2.len() ==> p2[i].0 <= 2u32);
        assert(forall|i: int| 0 <= i < p2.len() ==> #[trigger] Self::is_known_tag(p2[i].0));
        assert(Self::spec_apply_tags(p2, version) == Ok::<(EpochEndOffsetView, LeaderIdAndEpochView, SnapshotIdView, Seq<(u32, Seq<u8>)>), Error>((m.diverging_epoch, m.current_leader, m.snapshot_id, Seq::empty())));
        assert(Self::spec_known_tags(m, version)->Ok_0 =~= p2);
    }

    proof fn lemma_apply_tags_append(st: (EpochEndOffsetView, LeaderIdAndEpochView, SnapshotIdView, Seq<(u32, Seq<u8>)>), a: Seq<(u32, Seq<u8>)>, b: Seq<(u32, Seq<u8>)>, version: i16)
        ensures
            Self::spec_apply_tags_from(st, a + b, version) == (match Self::spec_apply_tags_from(st, a, version) {
            Err(e) => Err(e),
            Ok(s2) => Self::spec_apply_tags_from(s2, b, version),
            }),
            decreases b.len(),
    {
        if b.len() == 0 {
            assert(a + b =~= a);
        } else {
            assert((a + b).drop_last() =~= a + b.drop_last());
            assert((a + b).last() == b.last());
            Self::lemma_apply_tags_append(st, a, b.drop_last(), version);
        }
    }

    proof fn lemma_apply_known_only(st: (EpochEndOffsetView, LeaderIdAndEpochView, SnapshotIdView, Seq<(u32, Seq<u8>)>), us: Seq<(u32, Seq<u8>)>, b: Seq<(u32, Seq<u8>)>, version: i16)
        requires
            forall|i: int| 0 <= i < b.len() ==> #[trigger] Self::is_known_tag(b[i].0),
        ensures
            match Self::spec_apply_tags_from(st, b, version) {
            Err(e) => Self::spec_apply_tags_from((st.0, st.1, st.2, us), b, version) == Err::<(EpochEndOffsetView, LeaderIdAndEpochView, SnapshotIdView, Seq<(u32, Seq<u8>)>), Error>(e),
            Ok(r) => r.3 == st.3 && Self::spec_apply_tags_from((st.0, st.1, st.2, us), b, version) == Ok::<(EpochEndOffsetView, LeaderIdAndEpochView, SnapshotIdView, Seq<(u32, Seq<u8>)>), Error>((r.0, r.1, r.2, us)),
            },
            decreases b.len(),
    {
        if b.len() > 0 {
            assert(Self::is_known_tag(b[b.len() - 1].0));
            assert forall|i: int| 0 <= i < b.drop_last().len() implies #[trigger] Self::is_known_tag(b.drop_last()[i].0) by {
                assert(b.drop_last()[i] == b[i]);
                assert(Self::is_known_tag(b[i].0));
            }
            Self::lemma_apply_known_only(st, us, b.drop_last(), version);
        }
    }

    proof fn lemma_apply_sorted(k: Seq<(u32, Seq<u8>)>, u: Seq<(u32, Seq<u8>)>, version: i16)
        requires
            tags_in_order(k),
            tags_in_order(u),
            forall|i: int| 0 <= i < k.len() ==> #[trigger] Self::is_known_tag(k[i].0),
            forall|i: int| 0 <= i < u.len() ==> !#[trigger] Self::is_known_tag(u[i].0),
            Self::spec_apply_tags(k, version) is Ok,
            Self::spec_apply_tags(k, version)->Ok_0.3 == Seq::<(u32, Seq<u8>)>::empty(),
        ensures
            Self::spec_apply_tags(sorted_by_tag(k + u), version) == Ok::<(EpochEndOffsetView, LeaderIdAndEpochView, SnapshotIdView, Seq<(u32, Seq<u8>)>), Error>((Self::spec_apply_tags(k, version)->Ok_0.0, Self::spec_apply_tags(k, version)->Ok_0.1, Self::spec_apply_tags(k, version)->Ok_0.2, u)),
            decreases u.len(),
    {
        let r = Self::spec_apply_tags(k, version)->Ok_0;
        if u.len() == 0 {
            assert(k + u =~= k);
            lemma_sorted_by_tag_in_order(k);
            assert(u =~= Seq::<(u32, Seq<u8>)>::empty());
        } else {
            let u1 = u.drop_last();
            let x = u.last();
            lemma_tags_in_order_drop_last(u);
            assert forall|i: int| 0 <= i < u1.len() implies !#[trigger] Self::is_known_tag(u1[i].0) by {
                assert(u1[i] == u[i]);
                assert(!Self::is_known_tag(u[i].0));
            }
            Self::lemma_apply_sorted(k, u1, version);
            let ku = k + u1;
            let t = sorted_by_tag(ku);
            assert((k + u).drop_last() =~= ku);
            assert((k + u).last() == x);
            let p = insert_pos(t, x.0);
            lemma_insert_pos_bounds(t, x.0);
            lemma_insert_pos_after(t, x.0);
            lemma_sorted_by_tag_members(ku);
            lemma_sorted_by_tag_len(ku);
            let head = t.subrange(0, p);
            let tail = t.subrange(p, t.len() as int);
            assert forall|i: int| 0 <= i < tail.len() implies #[trigger] Self::is_known_tag(tail[i].0) by {
                let y = t[p + i];
                assert(tail[i] == y);
                assert(y.0 > x.0);
                assert(ku.contains(y));
                let j = choose|j: int| 0 <= j < ku.len() && ku[j] == y;
                if j >= k.len() {
                    assert(u[j - k.len()] == y);
                    assert(u[j - k.len()].0 <= u[u.len() - 1].0);
                    assert(false);
                } else {
                    assert(k[j] == y);
                    assert(Self::is_known_tag(k[j].0));
                }
            }
            assert(t =~= head + tail);
            assert(sorted_by_tag(k + u) =~= head.push(x) + tail);
            Self::lemma_apply_tags_append((EpochEndOffset::default_view(), LeaderIdAndEpoch::default_view(), SnapshotId::default_view(), Seq::empty()), head, tail, version);
            Self::lemma_apply_tags_append((EpochEndOffset::default_view(), LeaderIdAndEpoch::default_view(), SnapshotId::default_view(), Seq::empty()), head.push(x), tail, version);
            let sa = Self::spec_apply_tags(head, version)->Ok_0;
            assert(head.push(x).drop_last() =~= head);
            assert(!Self::is_known_tag(x.0)) by {
                assert(u[u.len() - 1] == x);
            }
            Self::lemma_apply_known_only(sa, sa.3.push(x), tail, version);
            assert(u1.push(x) =~= u);
        }
    }

    /// The tagged fields that a flexible version writes: each known one that
    /// the version carries and that does not hold its default value, in the
    /// order of the tags, merged by tag with the unknown ones.
    pub proof fn lemma_tag_section(m: PartitionDataView, version: i16)
        requires
            version >= 12,
        ensures
            Self::spec_write_tags(m, version) == (match Self::spec_known_tags(m, version) {
            Err(e) => fail(e),
            Ok(k) => spec_write_tagged_fields(sorted_by_tag(k + m.unknown_tagged_fields)),
            }),
            Self::spec_known_tags(m, version) is Ok ==> Self::spec_known_tags(m, version)->Ok_0 == (if !EpochEndOffset::is_default_view(m.diverging_epoch) { seq![(0u32, written(EpochEndOffset::spec_write(m.diverging_epoch, version)))] } else { Seq::<(u32, Seq<u8>)>::empty() }) + (if !LeaderIdAndEpoch::is_default_view(m.current_leader) { seq![(1u32, written(LeaderIdAndEpoch::spec_write(m.current_leader, version)))] } else { Seq::<(u32, Seq<u8>)>::empty() }) + (if !SnapshotId::is_default_view(m.snapshot_id) { seq![(2u32, written(SnapshotId::spec_write(m.snapshot_id, version)))] } else { Seq::<(u32, Seq<u8>)>::empty() }),
    {
        reveal(PartitionData::spec_write_tags);
        if Self::spec_known_tags(m, version) is Ok {
            assert(Self::spec_known_tags(m, version)->Ok_0 =~= (if !EpochEndOffset::is_default_view(m.diverging_epoch) {
                        seq![(0u32, written(EpochEndOffset::spec_write(m.diverging_epoch, version)))]
                    } else {
                        Seq::<(u32, Seq<u8>)>::empty()
                }) + (if !LeaderIdAndEpoch::is_default_view(m.current_leader) {
                        seq![(1u32, written(LeaderIdAndEpoch::spec_write(m.current_leader, version)))]
                    } else {
                        Seq::<(u32, Seq<u8>)>::empty()
                }) + (if !SnapshotId::is_default_view(m.snapshot_id) {
                        seq![(2u32, written(SnapshotId::spec_write(m.snapshot_id, version)))]
                    } else {
                        Seq::<(u32, Seq<u8>)>::empty()
            }));
        }
    }

    proof fn lemma_round_trip_tags(m: PartitionDataView, version: i16, rest: Seq<u8>)
        requires
            Self::canonical(m, version),
            Self::spec_write_tags(m, version) is Ok,
        ensures
            (if version >= 12 {
            spec_read_tagged_fields(written(Self::spec_write_tags(m, version)) + rest)
            } else {
            Ok((Seq::empty(), written(Self::spec_write_tags(m, version)) + rest))
            }) matches Ok((tags, r2)) && r2 == rest && Self::spec_apply_tags(tags, version) == Ok::<(EpochEndOffsetView, LeaderIdAndEpochView, SnapshotIdView, Seq<(u32, Seq<u8>)>), Error>((m.diverging_epoch, m.current_leader, m.snapshot_id, m.unknown_tagged_fields)),
    {
        reveal(PartitionData::spec_write_tags);
        if version >= 12 {
            let k = Self::spec_known_tags(m, version)->Ok_0;
            Self::lemma_apply_known_tags(m, version);
            Self::lemma_apply_sorted(k, m.unknown_tagged_fields, version);
            lemma_tagged_fields_round_trip(sorted_by_tag(k + m.unknown_tagged_fields), rest);
        } else {
            assert(Seq::<u8>::empty() + rest =~= rest);
            assert(m.unknown_tagged_fields =~= Seq::empty());
        }
    }

    /// Reading back what writing `m` in `version` appends gives `m` again, and
    /// leaves what follows, for every canonical message whose write succeeds.
    #[verifier::rlimit(100)]
    #[verifier::spinoff_prover]
    pub proof fn lemma_round_trip(m: PartitionDataView, version: i16, rest: Seq<u8>)
        requires
            Self::canonical(m, version),
            Self::spec_write(m, version) is Ok,
        ensures
            Self::spec_read(written(Self::spec_write(m, version)) + rest, version) == Ok::<(PartitionDataView, Seq<u8>), Error>((m, rest)),
    {
        let b0 = written(Self::spec_write_partition_index(m, version));
        let b1 = written(Self::spec_write_error_code(m, version));
        let b2 = written(Self::spec_write_high_watermark(m, version));
        let b3 = written(Self::spec_write_last_stable_offset(m, version));
        let b4 = written(Self::spec_write_log_start_offset(m, version));
        let b5 = written(Self::spec_write_aborted_transactions(m, version));
        let b6 = written(Self::spec_write_preferred_read_replica(m, version));
        let b7 = written(Self::spec_write_records(m, version));
        let b8 = written(Self::spec_write_tags(m, version));
        let t9 = rest;
        let t8 = b8 + t9;
        let t7 = b7 + t8;
        let t6 = b6 + t7;
        let t5 = b5 + t6;
        let t4 = b4 + t5;
        let t3 = b3 + t4;
        let t2 = b2 + t3;
        let t1 = b1 + t2;
        let t0 = b0 + t1;
        let w0 = Self::spec_write_partition_index(m, version);
        let w1 = chain(w0, Self::spec_write_error_code(m, version));
        let w2 = chain(w1, Self::spec_write_high_watermark(m, version));
        let w3 = chain(w2, Self::spec_write_last_stable_offset(m, version));
        let w4 = chain(w3, Self::spec_write_log_start_offset(m, version));
        let w5 = chain(w4, Self::spec_write_aborted_transactions(m, version));
        let w6 = chain(w5, Self::spec_write_preferred_read_replica(m, version));
        let w7 = chain(w6, Self::spec_write_records(m, version));
        let w8 = chain(w7, Self::spec_write_tags(m, version));
        assert(Self::spec_write(m, version) == w8);
        assert(written(w8) + t9 =~= written(w7) + t8);
        assert(written(w7) + t8 =~= written(w6) + t7);
        assert(written(w6) + t7 =~= written(w5) + t6);
        assert(written(w5) + t6 =~= written(w4) + t5);
        assert(written(w4) + t5 =~= written(w3) + t4);
        assert(written(w3) + t4 =~= written(w2) + t3);
        assert(written(w2) + t3 =~= written(w1) + t2);
        assert(written(w1) + t2 =~= written(w0) + t1);
        Self::lemma_round_trip_partition_index(m, version, t1);
        Self::lemma_round_trip_error_code(m, version, t2);
        Self::lemma_round_trip_high_watermark(m, version, t3);
        Self::lemma_round_trip_last_stable_offset(m, version, t4);
        Self::lemma_round_trip_log_start_offset(m, version, t5);
        Self::lemma_round_trip_aborted_transactions(m, version, t6);
        Self::lemma_round_trip_preferred_read_replica(m, version, t7);
        Self::lemma_round_trip_records(m, version, t8);
        Self::lemma_round_trip_tags(m, version, t9);
    }

    /// In a version that does not carry `log_start_offset`, writing ignores its value.
    pub proof fn lemma_write_ignores_log_start_offset(m: PartitionDataView, value: i64, version: i16)
        requires
            !(version >= 5),
        ensures
            Self::spec_write((PartitionDataView { log_start_offset: value, ..m }), version) == Self::spec_write(m, version),
    {
        reveal(PartitionData::spec_write_partition_index);
        reveal(PartitionData::spec_write_error_code);
        reveal(PartitionData::spec_write_high_watermark);
        reveal(PartitionData::spec_write_last_stable_offset);
        reveal(PartitionData::spec_write_log_start_offset);
        reveal(PartitionData::spec_write_aborted_transactions);
        reveal(PartitionData::spec_write_preferred_read_replica);
        reveal(PartitionData::spec_write_records);
        reveal(PartitionData::spec_write_tags);
    }

    /// In a version that does not carry `preferred_read_replica`, writing ignores its value.
    pub proof fn lemma_write_ignores_preferred_read_replica(m: PartitionDataView, value: i32, version: i16)
        requires
            !(version >= 11),
        ensures
            Self::spec_write((PartitionDataView { preferred_read_replica: value, ..m }), version) == Self::spec_write(m, version),
    {
        reveal(PartitionData::spec_write_partition_index);
        reveal(PartitionData::spec_write_error_code);
        reveal(PartitionData::spec_write_high_watermark);
        reveal(PartitionData::spec_write_last_stable_offset);
        reveal(PartitionData::spec_write_log_start_offset);
        reveal(PartitionData::spec_write_aborted_transactions);
        reveal(PartitionData::spec_write_preferred_read_replica);
        reveal(PartitionData::spec_write_records);
        reveal(PartitionData::spec_write_tags);
    }

    /// In a version that does not carry `diverging_epoch`, writing ignores its value.
    pub proof fn lemma_write_ignores_diverging_epoch(m: PartitionDataView, value: EpochEndOffsetView, version: i16)
        requires
            !(version >= 12),
        ensures
            Self::spec_write((PartitionDataView { diverging_epoch: value, ..m }), version) == Self::spec_write(m, version),
    {
        reveal(PartitionData::spec_write_partition_index);
        reveal(PartitionData::spec_write_error_code);
        reveal(PartitionData::spec_write_high_watermark);
        reveal(PartitionData::spec_write_last_stable_offset);
        reveal(PartitionData::spec_write_log_start_offset);
        reveal(PartitionData::spec_write_aborted_transactions);
        reveal(PartitionData::spec_write_preferred_read_replica);
        reveal(PartitionData::spec_write_records);
        reveal(PartitionData::spec_write_tags);
    }

    /// In a version that does not carry `current_leader`, writing ignores its value.
    pub proof fn lemma_write_ignores_current_leader(m: PartitionDataView, value: LeaderIdAndEpochView, version: i16)
        requires
            !(version >= 12),
        ensures
            Self::spec_write((PartitionDataView { current_leader: value, ..m }), version) == Self::spec_write(m, version),
    {
        reveal(PartitionData::spec_write_partition_index);
        reveal(PartitionData::spec_write_error_code);
        reveal(PartitionData::spec_write_high_watermark);
        reveal(PartitionData::spec_write_last_stable_offset);
        reveal(PartitionData::spec_write_log_start_offset);
        reveal(PartitionData::spec_write_aborted_transactions);
        reveal(PartitionData::spec_write_preferred_read_replica);
        reveal(PartitionData::spec_write_records);
        reveal(PartitionData::spec_write_tags);
    }

    /// In a version that does not carry `snapshot_id`, writing ignores its value.
    pub proof fn lemma_write_ignores_snapshot_id(m: PartitionDataView, value: SnapshotIdView, version: i16)
        requires
            !(version >= 12),
        ensures
            Self::spec_write((PartitionDataView { snapshot_id: value, ..m }), version) == Self::spec_write(m, version),
    {
        reveal(PartitionData::spec_write_partition_index);
        reveal(PartitionData::spec_write_error_code);
        reveal(PartitionData::spec_write_high_watermark);
        reveal(PartitionData::spec_write_last_stable_offset);
        reveal(PartitionData::spec_write_log_start_offset);
        reveal(PartitionData::spec_write_aborted_transactions);
        reveal(PartitionData::spec_write_preferred_read_replica);
        reveal(PartitionData::spec_write_records);
        reveal(PartitionData::spec_write_tags);
    }

    /// In a version that does not carry `unknown_tagged_fields`, writing ignores its value.
    pub proof fn lemma_write_ignores_unknown_tagged_fields(m: PartitionDataView, value: Seq<(u32, Seq<u8>)>, version: i16)
        requires
            !(version >= 12),
        ensures
            Self::spec_write((PartitionDataView { unknown_tagged_fields: value, ..m }), version) == Self::spec_write(m, version),
    {
        reveal(PartitionData::spec_write_partition_index);
        reveal(PartitionData::spec_write_error_code);
        reveal(PartitionData::spec_write_high_watermark);
        reveal(PartitionData::spec_write_last_stable_offset);
        reveal(PartitionData::spec_write_log_start_offset);
        reveal(PartitionData::spec_write_aborted_transactions);
        reveal(PartitionData::spec_write_preferred_read_replica);
        reveal(PartitionData::spec_write_records);
        reveal(PartitionData::spec_write_tags);
    }

    /// The default message holds the default value of each field of the schema.
    pub proof fn lemma_default_values()
        ensures
            Self::default_view().partition_index == (0_i32),
            Self::default_view().error_code == (0_i16),
            Self::default_view().high_watermark == (0_i64),
            Self::default_view().last_stable_offset == (-1i64),
            Self::default_view().log_start_offset == (-1i64),
            Self::default_view().diverging_epoch == (EpochEndOffset::default_view()),
            Self::default_view().current_leader == (LeaderIdAndEpoch::default_view()),
            Self::default_view().snapshot_id == (SnapshotId::default_view()),
            (Self::default_view().aborted_transactions is None),
            Self::default_view().preferred_read_replica == (-1i32),
            (Self::default_view().records is None),
            Self::default_view().unknown_tagged_fields.len() == 0,
    {
    }

    /// Each integer, boolean and identifier field is written as its standard
    /// big-endian bytes (a boolean as `1` or `0`) in the versions that carry
    /// it, and as nothing in the others; reading it takes those bytes back (any
    /// byte other than `0` reads as `true`), or gives its default value.
    pub proof fn lemma_field_encodings(m: PartitionDataView, s: Seq<u8>, version: i16)
        ensures
            true ==> Self::spec_write_partition_index(m, version) == Ok::<Seq<u8>, (Error, Seq<u8>)>(u32_bytes(m.partition_index as u32)),
            true ==> Self::spec_write_error_code(m, version) == Ok::<Seq<u8>, (Error, Seq<u8>)>(u16_bytes(m.error_code as u16)),
            true ==> Self::spec_write_high_watermark(m, version) == Ok::<Seq<u8>, (Error, Seq<u8>)>(u64_bytes(m.high_watermark as u64)),
            true ==> Self::spec_write_last_stable_offset(m, version) == Ok::<Seq<u8>, (Error, Seq<u8>)>(u64_bytes(m.last_stable_offset as u64)),
            version >= 5 ==> Self::spec_write_log_start_offset(m, version) == Ok::<Seq<u8>, (Error, Seq<u8>)>(u64_bytes(m.log_start_offset as u64)),
            !(version >= 5) ==> Self::spec_write_log_start_offset(m, version) == Ok::<Seq<u8>, (Error, Seq<u8>)>(Seq::empty()),
            version >= 11 ==> Self::spec_write_preferred_read_replica(m, version) == Ok::<Seq<u8>, (Error, Seq<u8>)>(u32_bytes(m.preferred_read_replica as u32)),
            !(version >= 11) ==> Self::spec_write_preferred_read_replica(m, version) == Ok::<Seq<u8>, (Error, Seq<u8>)>(Seq::empty()),
            true ==> Self::spec_read_partition_index(s, version) == spec_read_i32(s),
            true ==> Self::spec_read_error_code(s, version) == spec_read_i16(s),
            true ==> Self::spec_read_high_watermark(s, version) == spec_read_i64(s),
            true ==> Self::spec_read_last_stable_offset(s, version) == spec_read_i64(s),
            version >= 5 ==> Self::spec_read_log_start_offset(s, version) == spec_read_i64(s),
            !(version >= 5) ==> Self::spec_read_log_start_offset(s, version) == Ok::<(i64, Seq<u8>), Error>((-1i64, s)),
            version >= 11 ==> Self::spec_read_preferred_read_replica(s, version) == spec_read_i32(s),
            !(version >= 11) ==> Self::spec_read_preferred_read_replica(s, version) == Ok::<(i32, Seq<u8>), Error>((-1i32, s)),
    {
        reveal(PartitionData::spec_write_partition_index);
        reveal(PartitionData::spec_read_partition_index);
        reveal(PartitionData::spec_write_error_code);
        reveal(PartitionData::spec_read_error_code);
        reveal(PartitionData::spec_write_high_watermark);
        reveal(PartitionData::spec_read_high_watermark);
        reveal(PartitionData::spec_write_last_stable_offset);
        reveal(PartitionData::spec_read_last_stable_offset);
        reveal(PartitionData::spec_write_log_start_offset);
        reveal(PartitionData::spec_read_log_start_offset);
        reveal(PartitionData::spec_write_preferred_read_replica);
        reveal(PartitionData::spec_read_preferred_read_replica);
    }

    /// Whether writing `m` in `version` succeeds, said over its parts: the
    /// version is one the schema covers, every field that the version cannot
    /// carry holds its default value, and every string, byte string, array and
    /// tagged field fits its length prefix.
    pub open spec fn writable(m: PartitionDataView, version: i16) -> bool {
        &&& (m.aborted_transactions matches Some(xs) ==> xs.len() <= i32::MAX && all_writable::<AbortedTransaction>(xs, version))
        &&& (if version >= 12 {
                (m.records matches Some(b) ==> b.len() < u32::MAX)
            } else {
                (m.records matches Some(b) ==> b.len() <= i32::MAX)
        })
        &&& (if version >= 12 {
                (!EpochEndOffset::is_default_view(m.diverging_epoch) ==> EpochEndOffset::writable(m.diverging_epoch, version) && written(EpochEndOffset::spec_write(m.diverging_epoch, version)).len() <= isize::MAX && written(EpochEndOffset::spec_write(m.diverging_epoch, version)).len() <= u32::MAX) && (!LeaderIdAndEpoch::is_default_view(m.current_leader) ==> LeaderIdAndEpoch::writable(m.current_leader, version) && written(LeaderIdAndEpoch::spec_write(m.current_leader, version)).len() <= isize::MAX && written(LeaderIdAndEpoch::spec_write(m.current_leader, version)).len() <= u32::MAX) && (!SnapshotId::is_default_view(m.snapshot_id) ==> SnapshotId::writable(m.snapshot_id, version) && written(SnapshotId::spec_write(m.snapshot_id, version)).len() <= isize::MAX && written(SnapshotId::spec_write(m.snapshot_id, version)).len() <= u32::MAX) && (if !EpochEndOffset::is_default_view(m.diverging_epoch) { 1int } else { 0int }) + (if !LeaderIdAndEpoch::is_default_view(m.current_leader) { 1int } else { 0int }) + (if !SnapshotId::is_default_view(m.snapshot_id) { 1int } else { 0int }) + m.unknown_tagged_fields.len() <= u32::MAX && tags_fit(m.unknown_tagged_fields)
            } else {
                true
        })
    }

    proof fn lemma_writable_partition_index(m: PartitionDataView, version: i16)
        ensures
            Self::spec_write_partition_index(m, version) is Ok <==> true,
    {
        reveal(PartitionData::spec_write_partition_index);
    }

    proof fn lemma_writable_error_code(m: PartitionDataView, version: i16)
        ensures
            Self::spec_write_error_code(m, version) is Ok <==> true,
    {
        reveal(PartitionData::spec_write_error_code);
    }

    proof fn lemma_writable_high_watermark(m: PartitionDataView, version: i16)
        ensures
            Self::spec_write_high_watermark(m, version) is Ok <==> true,
    {
        reveal(PartitionData::spec_write_high_watermark);
    }

    proof fn lemma_writable_last_stable_offset(m: PartitionDataView, version: i16)
        ensures
            Self::spec_write_last_stable_offset(m, version) is Ok <==> true,
    {
        reveal(PartitionData::spec_write_last_stable_offset);
    }

    proof fn lemma_writable_log_start_offset(m: PartitionDataView, version: i16)
        ensures
            Self::spec_write_log_start_offset(m, version) is Ok <==> true,
    {
        reveal(PartitionData::spec_write_log_start_offset);
    }

    proof fn lemma_writable_aborted_transactions(m: PartitionDataView, version: i16)
        ensures
            Self::spec_write_aborted_transactions(m, version) is Ok <==> (m.aborted_transactions matches Some(xs) ==> xs.len() <= i32::MAX && all_writable::<AbortedTransaction>(xs, version)),
    {
        reveal(PartitionData::spec_write_aborted_transactions);
        if version >= 12 {
            lemma_nullable_array_writable::<AbortedTransaction>(m.aborted_transactions, version, true, -1i32);
        } else {
            lemma_nullable_array_writable::<AbortedTransaction>(m.aborted_transactions, version, false, -1i32);
        }
    }

    proof fn lemma_writable_preferred_read_replica(m: PartitionDataView, version: i16)
        ensures
            Self::spec_write_preferred_read_replica(m, version) is Ok <==> true,
    {
        reveal(PartitionData::spec_write_preferred_read_replica);
    }

    proof fn lemma_writable_records(m: PartitionDataView, version: i16)
        ensures
            Self::spec_write_records(m, version) is Ok <==> (if version >= 12 { (m.records matches Some(b) ==> b.len() < u32::MAX) } else { (m.records matches Some(b) ==> b.len() <= i32::MAX) }),
    {
        reveal(PartitionData::spec_write_records);
    }

    proof fn lemma_writable_tags(m: PartitionDataView, version: i16)
        ensures
            Self::spec_write_tags(m, version) is Ok <==> (if version >= 12 { (!EpochEndOffset::is_default_view(m.diverging_epoch) ==> EpochEndOffset::writable(m.diverging_epoch, version) && written(EpochEndOffset::spec_write(m.diverging_epoch, version)).len() <= isize::MAX && written(EpochEndOffset::spec_write(m.diverging_epoch, version)).len() <= u32::MAX) && (!LeaderIdAndEpoch::is_default_view(m.current_leader) ==> LeaderIdAndEpoch::writable(m.current_leader, version) && written(LeaderIdAndEpoch::spec_write(m.current_leader, version)).len() <= isize::MAX && written(LeaderIdAndEpoch::spec_write(m.current_leader, version)).len() <= u32::MAX) && (!SnapshotId::is_default_view(m.snapshot_id) ==> SnapshotId::writable(m.snapshot_id, version) && written(SnapshotId::spec_write(m.snapshot_id, version)).len() <= isize::MAX && written(SnapshotId::spec_write(m.snapshot_id, version)).len() <= u32::MAX) && (if !EpochEndOffset::is_default_view(m.diverging_epoch) { 1int } else { 0int }) + (if !LeaderIdAndEpoch::is_default_view(m.current_leader) { 1int } else { 0int }) + (if !SnapshotId::is_default_view(m.snapshot_id) { 1int } else { 0int }) + m.unknown_tagged_fields.len() <= u32::MAX && tags_fit(m.unknown_tagged_fields) } else { true }),
    {
        reveal(PartitionData::spec_write_tags);
        let k = Self::spec_known_tags(m, version);
        EpochEndOffset::lemma_writable(m.diverging_epoch, version);
        lemma_tags_fit_single(0u32, written(EpochEndOffset::spec_write(m.diverging_epoch, version)));
        LeaderIdAndEpoch::lemma_writable(m.current_leader, version);
        lemma_tags_fit_single(1u32, written(LeaderIdAndEpoch::spec_write(m.current_leader, version)));
        SnapshotId::lemma_writable(m.snapshot_id, version);
        lemma_tags_fit_single(2u32, written(SnapshotId::spec_write(m.snapshot_id, version)));
        if version >= 12 {
            Self::lemma_tag_section(m, version);
            if k is Ok {
                lemma_sorted_tags_fit(k->Ok_0 + m.unknown_tagged_fields);
                lemma_tagged_fields_writable(sorted_by_tag(k->Ok_0 + m.unknown_tagged_fields));
                lemma_tags_fit_concat(k->Ok_0, m.unknown_tagged_fields);
                lemma_tags_fit_concat((if !EpochEndOffset::is_default_view(m.diverging_epoch) {
                            seq![(0u32, written(EpochEndOffset::spec_write(m.diverging_epoch, version)))]
                        } else {
                            Seq::<(u32, Seq<u8>)>::empty()
                    }), (if !LeaderIdAndEpoch::is_default_view(m.current_leader) {
                            seq![(1u32, written(LeaderIdAndEpoch::spec_write(m.current_leader, version)))]
                        } else {
                            Seq::<(u32, Seq<u8>)>::empty()
                }));
                lemma_tags_fit_concat(((if !EpochEndOffset::is_default_view(m.diverging_epoch) {
                                seq![(0u32, written(EpochEndOffset::spec_write(m.diverging_epoch, version)))]
                            } else {
                                Seq::<(u32, Seq<u8>)>::empty()
                        }) + (if !LeaderIdAndEpoch::is_default_view(m.current_leader) {
                                seq![(1u32, written(LeaderIdAndEpoch::spec_write(m.current_leader, version)))]
                            } else {
                                Seq::<(u32, Seq<u8>)>::empty()
                    })), (if !SnapshotId::is_default_view(m.snapshot_id) {
                            seq![(2u32, written(SnapshotId::spec_write(m.snapshot_id, version)))]
                        } else {
                            Seq::<(u32, Seq<u8>)>::empty()
                }));
            }
        }
    }

    /// Writing `m` in `version` succeeds exactly when `m` is writable in it;
    /// so do `write` and `encoded_len`, whose results follow `spec_write`.
    #[verifier::rlimit(84)]
    pub proof fn lemma_writable(m: PartitionDataView, version: i16)
        ensures
            Self::spec_write(m, version) is Ok <==> Self::writable(m, version),
    {
        Self::lemma_writable_partition_index(m, version);
        Self::lemma_writable_error_code(m, version);
        Self::lemma_writable_high_watermark(m, version);
        Self::lemma_writable_last_stable_offset(m, version);
        Self::lemma_writable_log_start_offset(m, version);
        Self::lemma_writable_aborted_transactions(m, version);
        Self::lemma_writable_preferred_read_replica(m, version);
        Self::lemma_writable_records(m, version);
        Self::lemma_writable_tags(m, version);
    }

    /// The known tagged fields and the unknown ones after the tagged field `f`
    /// is read: a known one replaces the value it holds, an unknown one is kept.
    pub open spec fn spec_apply_tag(st: (EpochEndOffsetView, LeaderIdAndEpochView, SnapshotIdView, Seq<(u32, Seq<u8>)>), f: (u32, Seq<u8>), version: i16) -> Result<(EpochEndOffsetView, LeaderIdAndEpochView, SnapshotIdView, Seq<(u32, Seq<u8>)>), Error> {
        if f.0 == 0u32 {
            match (EpochEndOffset::spec_read(f.1, version)) {
                Err(e) => Err(e),
                Ok((v, _)) => Ok((v, st.1, st.2, st.3)),
            }
        } else {
            if f.0 == 1u32 {
                match (LeaderIdAndEpoch::spec_read(f.1, version)) {
                    Err(e) => Err(e),
                    Ok((v, _)) => Ok((st.0, v, st.2, st.3)),
                }
            } else {
                if f.0 == 2u32 {
                    match (SnapshotId::spec_read(f.1, version)) {
                        Err(e) => Err(e),
                        Ok((v, _)) => Ok((st.0, st.1, v, st.3)),
                    }
                } else {
                    Ok((st.0, st.1, st.2, st.3.push(f)))
                }
            }
        }
    }

    /// The known tagged fields, and the unknown ones, that reading `tags` in
    /// order gives, starting from `st`.
    pub open spec fn spec_apply_tags_from(st: (EpochEndOffsetView, LeaderIdAndEpochView, SnapshotIdView, Seq<(u32, Seq<u8>)>), tags: Seq<(u32, Seq<u8>)>, version: i16) -> Result<(EpochEndOffsetView, LeaderIdAndEpochView, SnapshotIdView, Seq<(u32, Seq<u8>)>), Error>
    decreases tags.len(),
    {
        if tags.len() == 0 {
            Ok(st)
        } else {
            match Self::spec_apply_tags_from(st, tags.drop_last(), version) {
                Err(e) => Err(e),
                Ok(s2) => Self::spec_apply_tag(s2, tags.last(), version),
            }
        }
    }

    /// The known tagged fields, and the unknown ones, that reading `tags` in
    /// order gives.
    pub open spec fn spec_apply_tags(tags: Seq<(u32, Seq<u8>)>, version: i16) -> Result<(EpochEndOffsetView, LeaderIdAndEpochView, SnapshotIdView, Seq<(u32, Seq<u8>)>), Error> {
        Self::spec_apply_tags_from((EpochEndOffset::default_view(), LeaderIdAndEpoch::default_view(), SnapshotId::default_view(), Seq::empty()), tags, version)
    }

    /// Whether a tagged field with tag `t` is one of the known ones.
    pub open spec fn is_known_tag(t: u32) -> bool {
        t == 0u32 || t == 1u32 || t == 2u32
    }

    proof fn lemma_apply_tags_err(tags: Seq<(u32, Seq<u8>)>, i: int, version: i16)
        requires
            0 <= i <= tags.len(),
            Self::spec_apply_tags(tags.take(i), version) is Err,
        ensures
            Self::spec_apply_tags(tags, version) == Self::spec_apply_tags(tags.take(i), version),
            decreases tags.len() - i,
    {
        if i < tags.len() {
            assert(tags.take(i + 1).drop_last() =~= tags.take(i));
            Self::lemma_apply_tags_err(tags, i + 1, version);
        } else {
            assert(tags.take(i) =~= tags);
        }
    }

    fn apply_tags(tags: &Vec<RawTaggedField>, version: i16) -> (r: Result<(EpochEndOffset, LeaderIdAndEpoch, SnapshotId, Vec<RawTaggedField>), Error>)
        ensures
            match Self::spec_apply_tags(views(tags@), version) {
            Err(e) => r matches Err(e2) && e2 == e,
            Ok(st) => r matches Ok(x) && x.0@ == st.0 && x.1@ == st.1 && x.2@ == st.2 && views(x.3@) == st.3,
            },
    {
        let ghost ts = views(tags@);
        let mut k_diverging_epoch: EpochEndOffset = EpochEndOffset::default();
        let mut k_current_leader: LeaderIdAndEpoch = LeaderIdAndEpoch::default();
        let mut k_snapshot_id: SnapshotId = SnapshotId::default();
        let mut unknown: Vec<RawTaggedField> = empty_vec();
        let mut i: usize = 0;
        assert(ts.take(0) =~= Seq::<(u32, Seq<u8>)>::empty());
        while i < tags.len()
        invariant
        0 <= i <= tags.len(),
        ts == views(tags@),
        Self::spec_apply_tags(ts.take(i as int), version) == Ok::<(EpochEndOffsetView, LeaderIdAndEpochView, SnapshotIdView, Seq<(u32, Seq<u8>)>), Error>((k_diverging_epoch@, k_current_leader@, k_snapshot_id@, views(unknown@))),
        decreases tags.len() - i,
        {
            let field = &tags[i];
            proof {
                assert(ts.take(i + 1).drop_last() =~= ts.take(i as int));
                assert(ts.take(i + 1).last() == field@);
            }
            if field.tag == 0 {
                let mut tag_buf = field.data.clone();
                k_diverging_epoch = match EpochEndOffset::read(&mut tag_buf, version) {
                    Ok(v) => v,
                    Err(e) => {
                        proof {
                            Self::lemma_apply_tags_err(ts, i + 1, version);
                        }
                        return Err(e);
                    },
                };
            } else if field.tag == 1 {
                let mut tag_buf = field.data.clone();
                k_current_leader = match LeaderIdAndEpoch::read(&mut tag_buf, version) {
                    Ok(v) => v,
                    Err(e) => {
                        proof {
                            Self::lemma_apply_tags_err(ts, i + 1, version);
                        }
                        return Err(e);
                    },
                };
            } else if field.tag == 2 {
                let mut tag_buf = field.data.clone();
                k_snapshot_id = match SnapshotId::read(&mut tag_buf, version) {
                    Ok(v) => v,
                    Err(e) => {
                        proof {
                            Self::lemma_apply_tags_err(ts, i + 1, version);
                        }
                        return Err(e);
                    },
                };
            } else {
                let ghost before = views(unknown@);
                unknown.push(field.clone());
                proof {
                    assert(views(unknown@) =~= before.push(field@));
                }
            }
            i = i + 1;
        }
        proof {
            assert(ts.take(tags.len() as int) =~= ts);
        }
        Ok((k_diverging_epoch, k_current_leader, k_snapshot_id, unknown))
    }

    /// The known tagged fields that `m` has to write in `version`, in the
    /// order of their tags: those that do not hold their default value.
    pub open spec fn spec_known_tags(m: PartitionDataView, version: i16) -> Result<Seq<(u32, Seq<u8>)>, Error> {
        match (if !EpochEndOffset::is_default_view(m.diverging_epoch) {
                tag_entry(0u32, EpochEndOffset::spec_write(m.diverging_epoch, version))
            } else {
                Ok(Seq::empty())
        }) {
            Err(e) => Err(e),
            Ok(k0) => match (if !LeaderIdAndEpoch::is_default_view(m.current_leader) {
                    tag_entry(1u32, LeaderIdAndEpoch::spec_write(m.current_leader, version))
                } else {
                    Ok(Seq::empty())
            }) {
                Err(e) => Err(e),
                Ok(k1) => match (if !SnapshotId::is_default_view(m.snapshot_id) {
                        tag_entry(2u32, SnapshotId::spec_write(m.snapshot_id, version))
                    } else {
                        Ok(Seq::empty())
                }) {
                    Err(e) => Err(e),
                    Ok(k2) => Ok(k0 + k1 + k2),
                },
            },
        }
    }

    fn known_tagged_fields(&self, version: i16) -> (r: Result<Vec<RawTaggedField>, Error>)
        ensures
            match Self::spec_known_tags(self@, version) {
            Err(e) => r matches Err(e2) && e2 == e,
            Ok(k) => r matches Ok(v) && views(v@) == k,
            },
    {
        let ghost m = self@;
        let ghost w0 = EpochEndOffset::spec_write(m.diverging_epoch, version);
        let ghost e0 = if !EpochEndOffset::is_default_view(m.diverging_epoch) {
            tag_entry(0u32, w0)
        } else {
            Ok(Seq::empty())
        };
        let ghost w1 = LeaderIdAndEpoch::spec_write(m.current_leader, version);
        let ghost e1 = if !LeaderIdAndEpoch::is_default_view(m.current_leader) {
            tag_entry(1u32, w1)
        } else {
            Ok(Seq::empty())
        };
        let ghost w2 = SnapshotId::spec_write(m.snapshot_id, version);
        let ghost e2 = if !SnapshotId::is_default_view(m.snapshot_id) {
            tag_entry(2u32, w2)
        } else {
            Ok(Seq::empty())
        };
        let mut known: Vec<RawTaggedField> = empty_vec();
        let ghost prev0 = views(known@);
        if !self.diverging_epoch.is_default() {
            let n = match self.diverging_epoch.encoded_len(version) {
                Ok(n) => n,
                Err(e) => {
                    return Err(e);
                },
            };
            if n > isize::MAX as usize {
                return Err(Error::ValueTooLong);
            }
            let mut tag_buf = bytes_mut_new();
            let _: Result<(), Error> = self.diverging_epoch.write(&mut tag_buf, version);
            let data = bytes_mut_freeze(tag_buf);
            assert(bytes_seq(data) =~= written(w0));
            known.push(RawTaggedField { tag: 0, data });
        }
        assert(views(known@) =~= prev0 + e0->Ok_0);
        let ghost prev1 = views(known@);
        if !self.current_leader.is_default() {
            let n = match self.current_leader.encoded_len(version) {
                Ok(n) => n,
                Err(e) => {
                    return Err(e);
                },
            };
            if n > isize::MAX as usize {
                return Err(Error::ValueTooLong);
            }
            let mut tag_buf = bytes_mut_new();
            let _: Result<(), Error> = self.current_leader.write(&mut tag_buf, version);
            let data = bytes_mut_freeze(tag_buf);
            assert(bytes_seq(data) =~= written(w1));
            known.push(RawTaggedField { tag: 1, data });
        }
        assert(views(known@) =~= prev1 + e1->Ok_0);
        let ghost prev2 = views(known@);
        if !self.snapshot_id.is_default() {
            let n = match self.snapshot_id.encoded_len(version) {
                Ok(n) => n,
                Err(e) => {
                    return Err(e);
                },
            };
            if n > isize::MAX as usize {
                return Err(Error::ValueTooLong);
            }
            let mut tag_buf = bytes_mut_new();
            let _: Result<(), Error> = self.snapshot_id.write(&mut tag_buf, version);
            let data = bytes_mut_freeze(tag_buf);
            assert(bytes_seq(data) =~= written(w2));
            known.push(RawTaggedField { tag: 2, data });
        }
        assert(views(known@) =~= prev2 + e2->Ok_0);
        Ok(known)
    }

    fn read_partition_index(buf: &mut Bytes, version: i16) -> (r: Result<i32, Error>)
        ensures
            read_as(Self::spec_read_partition_index(bytes_seq(*old(buf)), version), *final(buf), r),
            took_front(*old(buf), *final(buf)),
    {
        proof {
            reveal(PartitionData::spec_read_partition_index);
        }
        Ok(read_i32(buf)?)
    }

    fn read_error_code(buf: &mut Bytes, version: i16) -> (r: Result<i16, Error>)
        ensures
            read_as(Self::spec_read_error_code(bytes_seq(*old(buf)), version), *final(buf), r),
            took_front(*old(buf), *final(buf)),
    {
        proof {
            reveal(PartitionData::spec_read_error_code);
        }
        Ok(read_i16(buf)?)
    }

    fn read_high_watermark(buf: &mut Bytes, version: i16) -> (r: Result<i64, Error>)
        ensures
            read_as(Self::spec_read_high_watermark(bytes_seq(*old(buf)), version), *final(buf), r),
            took_front(*old(buf), *final(buf)),
    {
        proof {
            reveal(PartitionData::spec_read_high_watermark);
        }
        Ok(read_i64(buf)?)
    }

    fn read_last_stable_offset(buf: &mut Bytes, version: i16) -> (r: Result<i64, Error>)
        ensures
            read_as(Self::spec_read_last_stable_offset(bytes_seq(*old(buf)), version), *final(buf), r),
            took_front(*old(buf), *final(buf)),
    {
        proof {
            reveal(PartitionData::spec_read_last_stable_offset);
        }
        Ok(read_i64(buf)?)
    }

    fn read_log_start_offset(buf: &mut Bytes, version: i16) -> (r: Result<i64, Error>)
        ensures
            read_as(Self::spec_read_log_start_offset(bytes_seq(*old(buf)), version), *final(buf), r),
            took_front(*old(buf), *final(buf)),
    {
        proof {
            reveal(PartitionData::spec_read_log_start_offset);
        }
        Ok(if version >= 5 {
                read_i64(buf)?
            } else {
                -1i64
        })
    }

    fn read_aborted_transactions(buf: &mut Bytes, version: i16) -> (r: Result<Option<Vec<AbortedTransaction>>, Error>)
        ensures
            read_opt_vec_as(Self::spec_read_aborted_transactions(bytes_seq(*old(buf)), version), *final(buf), r),
            took_front(*old(buf), *final(buf)),
    {
        proof {
            reveal(PartitionData::spec_read_aborted_transactions);
        }
        Ok(if version >= 12 {
                read_nullable_array::<AbortedTransaction>(buf, version, true)?
            } else {
                read_nullable_array::<AbortedTransaction>(buf, version, false)?
        })
    }

    fn read_preferred_read_replica(buf: &mut Bytes, version: i16) -> (r: Result<i32, Error>)
        ensures
            read_as(Self::spec_read_preferred_read_replica(bytes_seq(*old(buf)), version), *final(buf), r),
            took_front(*old(buf), *final(buf)),
    {
        proof {
            reveal(PartitionData::spec_read_preferred_read_replica);
        }
        Ok(if version >= 11 {
                read_i32(buf)?
            } else {
                -1i32
        })
    }

    fn read_records(buf: &mut Bytes, version: i16) -> (r: Result<Option<Bytes>, Error>)
        ensures
            read_opt_bytes_as(Self::spec_read_records(bytes_seq(*old(buf)), version), *final(buf), r),
            took_front(*old(buf), *final(buf)),
    {
        proof {
            reveal(PartitionData::spec_read_records);
        }
        Ok(if version >= 12 {
                read_compact_nullable_bytes(buf)?
            } else {
                read_nullable_bytes(buf)?
        })
    }

    #[verifier::rlimit(68)]
    #[verifier::spinoff_prover]
    pub fn read(buf: &mut Bytes, version: i16) -> (r: Result<Self, Error>)
        ensures
            read_as(Self::spec_read(bytes_seq(*old(buf)), version), *final(buf), r),
            took_front(*old(buf), *final(buf)),
    {
        let partition_index = Self::read_partition_index(buf, version)?;
        let error_code = Self::read_error_code(buf, version)?;
        let high_watermark = Self::read_high_watermark(buf, version)?;
        let last_stable_offset = Self::read_last_stable_offset(buf, version)?;
        let log_start_offset = Self::read_log_start_offset(buf, version)?;
        let aborted_transactions = Self::read_aborted_transactions(buf, version)?;
        let preferred_read_replica = Self::read_preferred_read_replica(buf, version)?;
        let records = Self::read_records(buf, version)?;
        let (diverging_epoch, current_leader, snapshot_id, _unknown_tagged_fields) = if version >= 12 {
            let tags = read_tagged_fields(buf)?;
            Self::apply_tags(&tags, version)?
        } else {
            (EpochEndOffset::default(), LeaderIdAndEpoch::default(), SnapshotId::default(), empty_vec())
        };
        Ok(PartitionData {
                partition_index: partition_index,
                error_code: error_code,
                high_watermark: high_watermark,
                last_stable_offset: last_stable_offset,
                log_start_offset: log_start_offset,
                diverging_epoch: diverging_epoch,
                current_leader: current_leader,
                snapshot_id: snapshot_id,
                aborted_transactions: aborted_transactions,
                preferred_read_replica: preferred_read_replica,
                records: records,
                _unknown_tagged_fields: _unknown_tagged_fields,
        })
    }

    #[verifier::rlimit(100)]
    #[verifier::spinoff_prover]
    pub fn write(&self, buf: &mut BytesMut, version: i16) -> (r: Result<(), Error>)
        requires
            has_room(Self::spec_write(self@, version), *old(buf)),
        ensures
            wrote(Self::spec_write(self@, version), *old(buf), *final(buf), r),
    {
        let ghost m = self@;
        proof {
            reveal(PartitionData::spec_write_partition_index);
            reveal(PartitionData::spec_write_error_code);
            reveal(PartitionData::spec_write_high_watermark);
            reveal(PartitionData::spec_write_last_stable_offset);
            reveal(PartitionData::spec_write_log_start_offset);
            reveal(PartitionData::spec_write_aborted_transactions);
            reveal(PartitionData::spec_write_preferred_read_replica);
            reveal(PartitionData::spec_write_records);
            reveal(PartitionData::spec_write_tags);
        }
        let ghost s0 = Self::spec_write_partition_index(m, version);
        let ghost w0 = s0;
        let ghost s1 = Self::spec_write_error_code(m, version);
        let ghost w1 = chain(w0, s1);
        let ghost s2 = Self::spec_write_high_watermark(m, version);
        let ghost w2 = chain(w1, s2);
        let ghost s3 = Self::spec_write_last_stable_offset(m, version);
        let ghost w3 = chain(w2, s3);
        let ghost s4 = Self::spec_write_log_start_offset(m, version);
        let ghost w4 = chain(w3, s4);
        let ghost s5 = Self::spec_write_aborted_transactions(m, version);
        let ghost w5 = chain(w4, s5);
        let ghost s6 = Self::spec_write_preferred_read_replica(m, version);
        let ghost w6 = chain(w5, s6);
        let ghost s7 = Self::spec_write_records(m, version);
        let ghost w7 = chain(w6, s7);
        let ghost s8 = Self::spec_write_tags(m, version);
        let ghost w8 = chain(w7, s8);
        assert(Self::spec_write(m, version) == w8);
        assert(written(w7).len() <= written(w8).len() && (w7 is Err ==> w8 == w7));
        assert(written(w6).len() <= written(w8).len() && (w6 is Err ==> w8 == w6));
        assert(written(w5).len() <= written(w8).len() && (w5 is Err ==> w8 == w5));
        assert(written(w4).len() <= written(w8).len() && (w4 is Err ==> w8 == w4));
        assert(written(w3).len() <= written(w8).len() && (w3 is Err ==> w8 == w3));
        assert(written(w2).len() <= written(w8).len() && (w2 is Err ==> w8 == w2));
        assert(written(w1).len() <= written(w8).len() && (w1 is Err ==> w8 == w1));
        assert(written(w0).len() <= written(w8).len() && (w0 is Err ==> w8 == w0));
        let ghost mid = bytes_mut_seq(*buf);
        proof {
            lemma_append_empty(mid);
        }
        let r0 = {
            write_i32(buf, self.partition_index);
            Ok(())
        };
        assert(bytes_mut_seq(*buf) == mid + written(s0));
        if r0.is_err() {
            return r0;
        }
        let ghost mid = bytes_mut_seq(*buf);
        proof {
            lemma_append_empty(mid);
        }
        let r1 = {
            write_i16(buf, self.error_code);
            Ok(())
        };
        assert(bytes_mut_seq(*buf) == mid + written(s1));
        proof {
            lemma_step(bytes_mut_seq(*old(buf)), w0, s1);
        }
        if r1.is_err() {
            return r1;
        }
        let ghost mid = bytes_mut_seq(*buf);
        proof {
            lemma_append_empty(mid);
        }
        let r2 = {
            write_i64(buf, self.high_watermark);
            Ok(())
        };
        assert(bytes_mut_seq(*buf) == mid + written(s2));
        proof {
            lemma_step(bytes_mut_seq(*old(buf)), w1, s2);
        }
        if r2.is_err() {
            return r2;
        }
        let ghost mid = bytes_mut_seq(*buf);
        proof {
            lemma_append_empty(mid);
        }
        let r3 = {
            write_i64(buf, self.last_stable_offset);
            Ok(())
        };
        assert(bytes_mut_seq(*buf) == mid + written(s3));
        proof {
            lemma_step(bytes_mut_seq(*old(buf)), w2, s3);
        }
        if r3.is_err() {
            return r3;
        }
        let ghost mid = bytes_mut_seq(*buf);
        proof {
            lemma_append_empty(mid);
        }
        let r4 = if version >= 5 {
            {
                write_i64(buf, self.log_start_offset);
                Ok(())
            }
        } else {
            Ok(())
        };
        assert(bytes_mut_seq(*buf) == mid + written(s4));
        proof {
            lemma_step(bytes_mut_seq(*old(buf)), w3, s4);
        }
        if r4.is_err() {
            return r4;
        }
        let ghost mid = bytes_mut_seq(*buf);
        proof {
            lemma_append_empty(mid);
        }
        let r5 = if version >= 12 {
            write_nullable_array::<AbortedTransaction>(buf, &self.aborted_transactions, version, true, -1)
        } else {
            write_nullable_array::<AbortedTransaction>(buf, &self.aborted_transactions, version, false, -1)
        };
        assert(bytes_mut_seq(*buf) == mid + written(s5));
        proof {
            lemma_step(bytes_mut_seq(*old(buf)), w4, s5);
        }
        if r5.is_err() {
            return r5;
        }
        let ghost mid = bytes_mut_seq(*buf);
        proof {
            lemma_append_empty(mid);
        }
        let r6 = if version >= 11 {
            {
                write_i32(buf, self.preferred_read_replica);
                Ok(())
            }
        } else {
            Ok(())
        };
        assert(bytes_mut_seq(*buf) == mid + written(s6));
        proof {
            lemma_step(bytes_mut_seq(*old(buf)), w5, s6);
        }
        if r6.is_err() {
            return r6;
        }
        let ghost mid = bytes_mut_seq(*buf);
        proof {
            lemma_append_empty(mid);
        }
        let r7 = if version >= 12 {
            write_compact_nullable_bytes(buf, &self.records)
        } else {
            write_nullable_bytes(buf, &self.records)
        };
        assert(bytes_mut_seq(*buf) == mid + written(s7));
        proof {
            lemma_step(bytes_mut_seq(*old(buf)), w6, s7);
        }
        if r7.is_err() {
            return r7;
        }
        let ghost mid = bytes_mut_seq(*buf);
        proof {
            lemma_append_empty(mid);
        }
        let r8 = if version >= 12 {
            match self.known_tagged_fields(version) {
                Err(e) => Err(e),
                Ok(known) => {
                    let all = append_fields(known, &self._unknown_tagged_fields);
                    write_tagged_fields(buf, &sort_by_tag(&all))
                },
            }
        } else {
            Ok(())
        };
        assert(bytes_mut_seq(*buf) == mid + written(s8));
        proof {
            lemma_step(bytes_mut_seq(*old(buf)), w7, s8);
        }
        if r8.is_err() {
            return r8;
        }
        Ok(())
    }
}

#[derive(Debug, PartialEq)]
pub struct EpochEndOffset {
    /// The largest epoch.
    pub epoch: i32,
    /// The end offset of the epoch.
    pub end_offset: i64,
    pub _unknown_tagged_fields: Vec<RawTaggedField>,
}

/// What a `EpochEndOffset` holds, as the specification sees it.
#[verifier::ext_equal]
pub struct EpochEndOffsetView {
    pub epoch: i32,
    pub end_offset: i64,
    pub unknown_tagged_fields: Seq<(u32, Seq<u8>)>,
}

impl View for EpochEndOffset {
    type V = EpochEndOffsetView;

    open spec fn view(&self) -> EpochEndOffsetView {
        EpochEndOffsetView {
            epoch: self.epoch,
            end_offset: self.end_offset,
            unknown_tagged_fields: views(self._unknown_tagged_fields@),
        }
    }
}

impl Clone for EpochEndOffset {
    fn clone(&self) -> (r: Self)
        ensures
            r@ == self@,
    {
        let r = EpochEndOffset {
            epoch: self.epoch,
            end_offset: self.end_offset,
            _unknown_tagged_fields: clone_vec(&self._unknown_tagged_fields),
        };
        assert(r@ =~= self@);
        r
    }
}

impl ViewClone for EpochEndOffset {
    fn clone_view(&self) -> (r: Self) {
        self.clone()
    }
}

impl Default for EpochEndOffset {
    fn default() -> (r: Self)
        ensures
            r@ == Self::default_view(),
    {
        let r = EpochEndOffset {
            epoch: -1i32,
            end_offset: -1i64,
            _unknown_tagged_fields: empty_vec(),
        };
        assert(r@ =~= Self::default_view());
        r
    }
}

impl EpochEndOffset {
    pub open spec fn default_view() -> EpochEndOffsetView {
        EpochEndOffsetView {
            epoch: -1i32,
            end_offset: -1i64,
            unknown_tagged_fields: Seq::empty(),
        }
    }

    /// The `epoch` field, read from the front of `s`.
    #[verifier::opaque]
    pub open spec fn spec_read_epoch(s: Seq<u8>, version: i16) -> ReadOutcome<i32> {
        spec_read_i32(s)
    }

    /// The `end_offset` field, read from the front of `s`.
    #[verifier::opaque]
    pub open spec fn spec_read_end_offset(s: Seq<u8>, version: i16) -> ReadOutcome<i64> {
        spec_read_i64(s)
    }

    /// The tagged fields, read from the front of `s`.
    #[verifier::opaque]
    pub open spec fn spec_read_tags(s: Seq<u8>, version: i16) -> ReadOutcome<Seq<(u32, Seq<u8>)>> {
        spec_read_tagged_fields(s)
    }

    pub open spec fn spec_read(s: Seq<u8>, version: i16) -> ReadOutcome<EpochEndOffsetView> {
        match (Self::spec_read_epoch(s, version)) {
            Err(e) => Err(e),
            Ok((epoch, s)) => match (Self::spec_read_end_offset(s, version)) {
                Err(e) => Err(e),
                Ok((end_offset, s)) => match (Self::spec_read_tags(s, version)) {
                    Err(e) => Err(e),
                    Ok((unknown_tagged_fields, s)) => Ok((EpochEndOffsetView {
                                epoch: epoch,
                                end_offset: end_offset,
                                unknown_tagged_fields: unknown_tagged_fields,
                            }, s)),
                },
            },
        }
    }

    /// What writing the `epoch` field of `m` appends.
    #[verifier::opaque]
    pub open spec fn spec_write_epoch(m: EpochEndOffsetView, version: i16) -> WriteOutcome {
        spec_write_i32(m.epoch)
    }

    /// What writing the `end_offset` field of `m` appends.
    #[verifier::opaque]
    pub open spec fn spec_write_end_offset(m: EpochEndOffsetView, version: i16) -> WriteOutcome {
        spec_write_i64(m.end_offset)
    }

    /// What writing the tagged fields of `m` appends.
    #[verifier::opaque]
    pub open spec fn spec_write_tags(m: EpochEndOffsetView, version: i16) -> WriteOutcome {
        spec_write_tagged_fields(sorted_by_tag(m.unknown_tagged_fields))
    }

    pub open spec fn spec_write(m: EpochEndOffsetView, version: i16) -> WriteOutcome {
        chain(
            chain(
                Self::spec_write_epoch(m, version),
                Self::spec_write_end_offset(m, version),
            ),
            Self::spec_write_tags(m, version),
        )
    }

    /// Whether reading back what writing `m` in `version` appends gives `m`:
    /// fields that the version does not carry hold their default values, and
    /// tagged fields come in the order in which they are written.
    pub open spec fn canonical(m: EpochEndOffsetView, version: i16) -> bool {
        &&& tags_in_order(m.unknown_tagged_fields)
    }

    proof fn lemma_round_trip_epoch(m: EpochEndOffsetView, version: i16, rest: Seq<u8>)
        requires
            Self::canonical(m, version),
            Self::spec_write_epoch(m, version) is Ok,
        ensures
            Self::spec_read_epoch(written(Self::spec_write_epoch(m, version)) + rest, version) == Ok::<(i32, Seq<u8>), Error>((m.epoch, rest)),
    {
        reveal(EpochEndOffset::spec_read_epoch);
        reveal(EpochEndOffset::spec_write_epoch);
        lemma_i32_roundtrip(m.epoch, rest);
    }

    proof fn lemma_round_trip_end_offset(m: EpochEndOffsetView, version: i16, rest: Seq<u8>)
        requires
            Self::canonical(m, version),
            Self::spec_write_end_offset(m, version) is Ok,
        ensures
            Self::spec_read_end_offset(written(Self::spec_write_end_offset(m, version)) + rest, version) == Ok::<(i64, Seq<u8>), Error>((m.end_offset, rest)),
    {
        reveal(EpochEndOffset::spec_read_end_offset);
        reveal(EpochEndOffset::spec_write_end_offset);
        lemma_i64_roundtrip(m.end_offset, rest);
    }

    proof fn lemma_round_trip_tags(m: EpochEndOffsetView, version: i16, rest: Seq<u8>)
        requires
            Self::canonical(m, version),
            Self::spec_write_tags(m, version) is Ok,
        ensures
            Self::spec_read_tags(written(Self::spec_write_tags(m, version)) + rest, version) == Ok::<(Seq<(u32, Seq<u8>)>, Seq<u8>), Error>((m.unknown_tagged_fields, rest)),
    {
        reveal(EpochEndOffset::spec_read_tags);
        reveal(EpochEndOffset::spec_write_tags);
        lemma_sorted_by_tag_in_order(m.unknown_tagged_fields);
        lemma_tagged_fields_round_trip(m.unknown_tagged_fields, rest);
    }

    /// Reading back what writing `m` in `version` appends gives `m` again, and
    /// leaves what follows, for every canonical message whose write succeeds.
    #[verifier::rlimit(70)]
    #[verifier::spinoff_prover]
    pub proof fn lemma_round_trip(m: EpochEndOffsetView, version: i16, rest: Seq<u8>)
        requires
            Self::canonical(m, version),
            Self::spec_write(m, version) is Ok,
        ensures
            Self::spec_read(written(Self::spec_write(m, version)) + rest, version) == Ok::<(EpochEndOffsetView, Seq<u8>), Error>((m, rest)),
    {
        let b0 = written(Self::spec_write_epoch(m, version));
        let b1 = written(Self::spec_write_end_offset(m, version));
        let b2 = written(Self::spec_write_tags(m, version));
        let t3 = rest;
        let t2 = b2 + t3;
        let t1 = b1 + t2;
        let t0 = b0 + t1;
        let w0 = Self::spec_write_epoch(m, version);
        let w1 = chain(w0, Self::spec_write_end_offset(m, version));
        let w2 = chain(w1, Self::spec_write_tags(m, version));
        assert(Self::spec_write(m, version) == w2);
        assert(written(w2) + t3 =~= written(w1) + t2);
        assert(written(w1) + t2 =~= written(w0) + t1);
        Self::lemma_round_trip_epoch(m, version, t1);
        Self::lemma_round_trip_end_offset(m, version, t2);
        Self::lemma_round_trip_tags(m, version, t3);
    }

    /// The default message holds the default value of each field of the schema.
    pub proof fn lemma_default_values()
        ensures
            Self::default_view().epoch == (-1i32),
            Self::default_view().end_offset == (-1i64),
            Self::default_view().unknown_tagged_fields.len() == 0,
    {
    }

    /// Each integer, boolean and identifier field is written as its standard
    /// big-endian bytes (a boolean as `1` or `0`) in the versions that carry
    /// it, and as nothing in the others; reading it takes those bytes back (any
    /// byte other than `0` reads as `true`), or gives its default value.
    pub proof fn lemma_field_encodings(m: EpochEndOffsetView, s: Seq<u8>, version: i16)
        ensures
            true ==> Self::spec_write_epoch(m, version) == Ok::<Seq<u8>, (Error, Seq<u8>)>(u32_bytes(m.epoch as u32)),
            true ==> Self::spec_write_end_offset(m, version) == Ok::<Seq<u8>, (Error, Seq<u8>)>(u64_bytes(m.end_offset as u64)),
            true ==> Self::spec_read_epoch(s, version) == spec_read_i32(s),
            true ==> Self::spec_read_end_offset(s, version) == spec_read_i64(s),
    {
        reveal(EpochEndOffset::spec_write_epoch);
        reveal(EpochEndOffset::spec_read_epoch);
        reveal(EpochEndOffset::spec_write_end_offset);
        reveal(EpochEndOffset::spec_read_end_offset);
    }

    /// Whether writing `m` in `version` succeeds, said over its parts: the
    /// version is one the schema covers, every field that the version cannot
    /// carry holds its default value, and every string, byte string, array and
    /// tagged field fits its length prefix.
    pub open spec fn writable(m: EpochEndOffsetView, version: i16) -> bool {
        &&& m.unknown_tagged_fields.len() <= u32::MAX && tags_fit(m.unknown_tagged_fields)
    }

    proof fn lemma_writable_epoch(m: EpochEndOffsetView, version: i16)
        ensures
            Self::spec_write_epoch(m, version) is Ok <==> true,
    {
        reveal(EpochEndOffset::spec_write_epoch);
    }

    proof fn lemma_writable_end_offset(m: EpochEndOffsetView, version: i16)
        ensures
            Self::spec_write_end_offset(m, version) is Ok <==> true,
    {
        reveal(EpochEndOffset::spec_write_end_offset);
    }

    proof fn lemma_writable_tags(m: EpochEndOffsetView, version: i16)
        ensures
            Self::spec_write_tags(m, version) is Ok <==> m.unknown_tagged_fields.len() <= u32::MAX && tags_fit(m.unknown_tagged_fields),
    {
        reveal(EpochEndOffset::spec_write_tags);
        lemma_sorted_tags_fit(m.unknown_tagged_fields);
        lemma_tagged_fields_writable(sorted_by_tag(m.unknown_tagged_fields));
    }

    /// Writing `m` in `version` succeeds exactly when `m` is writable in it;
    /// so do `write` and `encoded_len`, whose results follow `spec_write`.
    #[verifier::rlimit(48)]
    pub proof fn lemma_writable(m: EpochEndOffsetView, version: i16)
        ensures
            Self::spec_write(m, version) is Ok <==> Self::writable(m, version),
    {
        Self::lemma_writable_epoch(m, version);
        Self::lemma_writable_end_offset(m, version);
        Self::lemma_writable_tags(m, version);
    }

    /// Whether `v` is what `default` gives.
    pub open spec fn is_default_view(v: EpochEndOffsetView) -> bool {
        &&& v.epoch == -1i32
        &&& v.end_offset == -1i64
        &&& v.unknown_tagged_fields.len() == 0
    }

    /// `is_default_view` holds of exactly the value that `default` gives.
    pub proof fn lemma_is_default(v: EpochEndOffsetView)
        ensures
            Self::is_default_view(v) <==> v == Self::default_view(),
    {
        if Self::is_default_view(v) {
            assert(v.unknown_tagged_fields =~= Seq::empty());
        }
    }

    /// Whether this is what `default` gives.
    pub fn is_default(&self) -> (r: bool)
        ensures
            r == Self::is_default_view(self@),
    {
        self.epoch == -1i32 && self.end_offset == -1i64 && self._unknown_tagged_fields.len() == 0
    }

    fn read_epoch(buf: &mut Bytes, version: i16) -> (r: Result<i32, Error>)
        ensures
            read_as(Self::spec_read_epoch(bytes_seq(*old(buf)), version), *final(buf), r),
            took_front(*old(buf), *final(buf)),
    {
        proof {
            reveal(EpochEndOffset::spec_read_epoch);
        }
        Ok(read_i32(buf)?)
    }

    fn read_end_offset(buf: &mut Bytes, version: i16) -> (r: Result<i64, Error>)
        ensures
            read_as(Self::spec_read_end_offset(bytes_seq(*old(buf)), version), *final(buf), r),
            took_front(*old(buf), *final(buf)),
    {
        proof {
            reveal(EpochEndOffset::spec_read_end_offset);
        }
        Ok(read_i64(buf)?)
    }

    fn read_tags(buf: &mut Bytes, version: i16) -> (r: Result<Vec<RawTaggedField>, Error>)
        ensures
            read_vec_as(Self::spec_read_tags(bytes_seq(*old(buf)), version), *final(buf), r),
            took_front(*old(buf), *final(buf)),
    {
        proof {
            reveal(EpochEndOffset::spec_read_tags);
        }
        Ok(read_tagged_fields(buf)?)
    }

    pub fn read(buf: &mut Bytes, version: i16) -> (r: Result<Self, Error>)
        ensures
            read_as(Self::spec_read(bytes_seq(*old(buf)), version), *final(buf), r),
            took_front(*old(buf), *final(buf)),
    {
        let epoch = Self::read_epoch(buf, version)?;
        let end_offset = Self::read_end_offset(buf, version)?;
        let _unknown_tagged_fields = Self::read_tags(buf, version)?;
        Ok(EpochEndOffset {
                epoch: epoch,
                end_offset: end_offset,
                _unknown_tagged_fields: _unknown_tagged_fields,
        })
    }

    #[verifier::rlimit(60)]
    pub fn write(&self, buf: &mut BytesMut, version: i16) -> (r: Result<(), Error>)
        requires
            has_room(Self::spec_write(self@, version), *old(buf)),
        ensures
            wrote(Self::spec_write(self@, version), *old(buf), *final(buf), r),
    {
        let ghost m = self@;
        proof {
            reveal(EpochEndOffset::spec_write_epoch);
            reveal(EpochEndOffset::spec_write_end_offset);
            reveal(EpochEndOffset::spec_write_tags);
        }
        let ghost s0 = Self::spec_write_epoch(m, version);
        let ghost w0 = s0;
        let ghost s1 = Self::spec_write_end_offset(m, version);
        let ghost w1 = chain(w0, s1);
        let ghost s2 = Self::spec_write_tags(m, version);
        let ghost w2 = chain(w1, s2);
        assert(Self::spec_write(m, version) == w2);
        assert(written(w1).len() <= written(w2).len() && (w1 is Err ==> w2 == w1));
        assert(written(w0).len() <= written(w2).len() && (w0 is Err ==> w2 == w0));
        let ghost mid = bytes_mut_seq(*buf);
        proof {
            lemma_append_empty(mid);
        }
        let r0 = {
            write_i32(buf, self.epoch);
            Ok(())
        };
        assert(bytes_mut_seq(*buf) == mid + written(s0));
        if r0.is_err() {
            return r0;
        }
        let ghost mid = bytes_mut_seq(*buf);
        proof {
            lemma_append_empty(mid);
        }
        let r1 = {
            write_i64(buf, self.end_offset);
            Ok(())
        };
        assert(bytes_mut_seq(*buf) == mid + written(s1));
        proof {
            lemma_step(bytes_mut_seq(*old(buf)), w0, s1);
        }
        if r1.is_err() {
            return r1;
        }
        let ghost mid = bytes_mut_seq(*buf);
        proof {
            lemma_append_empty(mid);
        }
        let r2 = write_tagged_fields(buf, &sort_by_tag(&self._unknown_tagged_fields));
        assert(bytes_mut_seq(*buf) == mid + written(s2));
        proof {
            lemma_step(bytes_mut_seq(*old(buf)), w1, s2);
        }
        if r2.is_err() {
            return r2;
        }
        Ok(())
    }

    #[verifier::rlimit(60)]
    fn encoded_len(&self, version: i16) -> (r: Result<usize, Error>)
        ensures
            r == len_result(Self::spec_write(self@, version)),
    {
        let ghost m = self@;
        proof {
            reveal(EpochEndOffset::spec_write_epoch);
            reveal(EpochEndOffset::spec_write_end_offset);
            reveal(EpochEndOffset::spec_write_tags);
        }
        let ghost s0 = Self::spec_write_epoch(m, version);
        let ghost w0 = s0;
        let ghost s1 = Self::spec_write_end_offset(m, version);
        let ghost w1 = chain(w0, s1);
        let ghost s2 = Self::spec_write_tags(m, version);
        let ghost w2 = chain(w1, s2);
        assert(Self::spec_write(m, version) == w2);
        assert(w1 is Err ==> w2 == w1);
        assert(w0 is Err ==> w2 == w0);
        let mut len: usize = 0;
        let l0 = Ok(4);
        assert(l0 == len_result(s0));
        let n0 = match l0 {
            Ok(n) => n,
            Err(e) => {
                return Err(e);
            },
        };
        len = saturating_sum(len, n0);
        assert(w0 is Ok && len == saturate(written(w0).len() as int));
        let l1 = Ok(8);
        assert(l1 == len_result(s1));
        let n1 = match l1 {
            Ok(n) => n,
            Err(e) => {
                return Err(e);
            },
        };
        proof {
            lemma_len_step(w0, s1, n1);
        }
        len = saturating_sum(len, n1);
        assert(w1 is Ok && len == saturate(written(w1).len() as int));
        let l2 = tagged_fields_len(&sort_by_tag(&self._unknown_tagged_fields));
        assert(l2 == len_result(s2));
        let n2 = match l2 {
            Ok(n) => n,
            Err(e) => {
                return Err(e);
            },
        };
        proof {
            lemma_len_step(w1, s2, n2);
        }
        len = saturating_sum(len, n2);
        assert(w2 is Ok && len == saturate(written(w2).len() as int));
        Ok(len)
    }
}

#[derive(Debug, PartialEq)]
pub struct LeaderIdAndEpoch {
    /// The ID of the current leader or -1 if the leader is unknown.
    pub leader_id: i32,
    /// The latest known leader epoch.
    pub leader_epoch: i32,
    pub _unknown_tagged_fields: Vec<RawTaggedField>,
}

/// What a `LeaderIdAndEpoch` holds, as the specification sees it.
#[verifier::ext_equal]
pub struct LeaderIdAndEpochView {
    pub leader_id: i32,
    pub leader_epoch: i32,
    pub unknown_tagged_fields: Seq<(u32, Seq<u8>)>,
}

impl View for LeaderIdAndEpoch {
    type V = LeaderIdAndEpochView;

    open spec fn view(&self) -> LeaderIdAndEpochView {
        LeaderIdAndEpochView {
            leader_id: self.leader_id,
            leader_epoch: self.leader_epoch,
            unknown_tagged_fields: views(self._unknown_tagged_fields@),
        }
    }
}

impl Clone for LeaderIdAndEpoch {
    fn clone(&self) -> (r: Self)
        ensures
            r@ == self@,
    {
        let r = LeaderIdAndEpoch {
            leader_id: self.leader_id,
            leader_epoch: self.leader_epoch,
            _unknown_tagged_fields: clone_vec(&self._unknown_tagged_fields),
        };
        assert(r@ =~= self@);
        r
    }
}

impl ViewClone for LeaderIdAndEpoch {
    fn clone_view(&self) -> (r: Self) {
        self.clone()
    }
}

impl Default for LeaderIdAndEpoch {
    fn default() -> (r: Self)
        ensures
            r@ == Self::default_view(),
    {
        let r = LeaderIdAndEpoch {
            leader_id: -1i32,
            leader_epoch: -1i32,
            _unknown_tagged_fields: empty_vec(),
        };
        assert(r@ =~= Self::default_view());
        r
    }
}

impl LeaderIdAndEpoch {
    pub open spec fn default_view() -> LeaderIdAndEpochView {
        LeaderIdAndEpochView {
            leader_id: -1i32,
            leader_epoch: -1i32,
            unknown_tagged_fields: Seq::empty(),
        }
    }

    /// The `leader_id` field, read from the front of `s`.
    #[verifier::opaque]
    pub open spec fn spec_read_leader_id(s: Seq<u8>, version: i16) -> ReadOutcome<i32> {
        spec_read_i32(s)
    }

    /// The `leader_epoch` field, read from the front of `s`.
    #[verifier::opaque]
    pub open spec fn spec_read_leader_epoch(s: Seq<u8>, version: i16) -> ReadOutcome<i32> {
        spec_read_i32(s)
    }

    /// The tagged fields, read from the front of `s`.
    #[verifier::opaque]
    pub open spec fn spec_read_tags(s: Seq<u8>, version: i16) -> ReadOutcome<Seq<(u32, Seq<u8>)>> {
        spec_read_tagged_fields(s)
    }

    pub open spec fn spec_read(s: Seq<u8>, version: i16) -> ReadOutcome<LeaderIdAndEpochView> {
        match (Self::spec_read_leader_id(s, version)) {
            Err(e) => Err(e),
            Ok((leader_id, s)) => match (Self::spec_read_leader_epoch(s, version)) {
                Err(e) => Err(e),
                Ok((leader_epoch, s)) => match (Self::spec_read_tags(s, version)) {
                    Err(e) => Err(e),
                    Ok((unknown_tagged_fields, s)) => Ok((LeaderIdAndEpochView {
                                leader_id: leader_id,
                                leader_epoch: leader_epoch,
                                unknown_tagged_fields: unknown_tagged_fields,
                            }, s)),
                },
            },
        }
    }

    /// What writing the `leader_id` field of `m` appends.
    #[verifier::opaque]
    pub open spec fn spec_write_leader_id(m: LeaderIdAndEpochView, version: i16) -> WriteOutcome {
        spec_write_i32(m.leader_id)
    }

    /// What writing the `leader_epoch` field of `m` appends.
    #[verifier::opaque]
    pub open spec fn spec_write_leader_epoch(m: LeaderIdAndEpochView, version: i16) -> WriteOutcome {
        spec_write_i32(m.leader_epoch)
    }

    /// What writing the tagged fields of `m` appends.
    #[verifier::opaque]
    pub open spec fn spec_write_tags(m: LeaderIdAndEpochView, version: i16) -> WriteOutcome {
        spec_write_tagged_fields(sorted_by_tag(m.unknown_tagged_fields))
    }

    pub open spec fn spec_write(m: LeaderIdAndEpochView, version: i16) -> WriteOutcome {
        chain(
            chain(
                Self::spec_write_leader_id(m, version),
                Self::spec_write_leader_epoch(m, version),
            ),
            Self::spec_write_tags(m, version),
        )
    }

    /// Whether reading back what writing `m` in `version` appends gives `m`:
    /// fields that the version does not carry hold their default values, and
    /// tagged fields come in the order in which they are written.
    pub open spec fn canonical(m: LeaderIdAndEpochView, version: i16) -> bool {
        &&& tags_in_order(m.unknown_tagged_fields)
    }

    proof fn lemma_round_trip_leader_id(m: LeaderIdAndEpochView, version: i16, rest: Seq<u8>)
        requires
            Self::canonical(m, version),
            Self::spec_write_leader_id(m, version) is Ok,
        ensures
            Self::spec_read_leader_id(written(Self::spec_write_leader_id(m, version)) + rest, version) == Ok::<(i32, Seq<u8>), Error>((m.leader_id, rest)),
    {
        reveal(LeaderIdAndEpoch::spec_read_leader_id);
        reveal(LeaderIdAndEpoch::spec_write_leader_id);
        lemma_i32_roundtrip(m.leader_id, rest);
    }

    proof fn lemma_round_trip_leader_epoch(m: LeaderIdAndEpochView, version: i16, rest: Seq<u8>)
        requires
            Self::canonical(m, version),
            Self::spec_write_leader_epoch(m, version) is Ok,
        ensures
            Self::spec_read_leader_epoch(written(Self::spec_write_leader_epoch(m, version)) + rest, version) == Ok::<(i32, Seq<u8>), Error>((m.leader_epoch, rest)),
    {
        reveal(LeaderIdAndEpoch::spec_read_leader_epoch);
        reveal(LeaderIdAndEpoch::spec_write_leader_epoch);
        lemma_i32_roundtrip(m.leader_epoch, rest);
    }

    proof fn lemma_round_trip_tags(m: LeaderIdAndEpochView, version: i16, rest: Seq<u8>)
        requires
            Self::canonical(m, version),
            Self::spec_write_tags(m, version) is Ok,
        ensures
            Self::spec_read_tags(written(Self::spec_write_tags(m, version)) + rest, version) == Ok::<(Seq<(u32, Seq<u8>)>, Seq<u8>), Error>((m.unknown_tagged_fields, rest)),
    {
        reveal(LeaderIdAndEpoch::spec_read_tags);
        reveal(LeaderIdAndEpoch::spec_write_tags);
        lemma_sorted_by_tag_in_order(m.unknown_tagged_fields);
        lemma_tagged_fields_round_trip(m.unknown_tagged_fields, rest);
    }

    /// Reading back what writing `m` in `version` appends gives `m` again, and
    /// leaves what follows, for every canonical message whose write succeeds.
    #[verifier::rlimit(70)]
    #[verifier::spinoff_prover]
    pub proof fn lemma_round_trip(m: LeaderIdAndEpochView, version: i16, rest: Seq<u8>)
        requires
            Self::canonical(m, version),
            Self::spec_write(m, version) is Ok,
        ensures
            Self::spec_read(written(Self::spec_write(m, version)) + rest, version) == Ok::<(LeaderIdAndEpochView, Seq<u8>), Error>((m, rest)),
    {
        let b0 = written(Self::spec_write_leader_id(m, version));
        let b1 = written(Self::spec_write_leader_epoch(m, version));
        let b2 = written(Self::spec_write_tags(m, version));
        let t3 = rest;
        let t2 = b2 + t3;
        let t1 = b1 + t2;
        let t0 = b0 + t1;
        let w0 = Self::spec_write_leader_id(m, version);
        let w1 = chain(w0, Self::spec_write_leader_epoch(m, version));
        let w2 = chain(w1, Self::spec_write_tags(m, version));
        assert(Self::spec_write(m, version) == w2);
        assert(written(w2) + t3 =~= written(w1) + t2);
        assert(written(w1) + t2 =~= written(w0) + t1);
        Self::lemma_round_trip_leader_id(m, version, t1);
        Self::lemma_round_trip_leader_epoch(m, version, t2);
        Self::lemma_round_trip_tags(m, version, t3);
    }

    /// The default message holds the default value of each field of the schema.
    pub proof fn lemma_default_values()
        ensures
            Self::default_view().leader_id == (-1i32),
            Self::default_view().leader_epoch == (-1i32),
            Self::default_view().unknown_tagged_fields.len() == 0,
    {
    }

    /// Each integer, boolean and identifier field is written as its standard
    /// big-endian bytes (a boolean as `1` or `0`) in the versions that carry
    /// it, and as nothing in the others; reading it takes those bytes back (any
    /// byte other than `0` reads as `true`), or gives its default value.
    pub proof fn lemma_field_encodings(m: LeaderIdAndEpochView, s: Seq<u8>, version: i16)
        ensures
            true ==> Self::spec_write_leader_id(m, version) == Ok::<Seq<u8>, (Error, Seq<u8>)>(u32_bytes(m.leader_id as u32)),
            true ==> Self::spec_write_leader_epoch(m, version) == Ok::<Seq<u8>, (Error, Seq<u8>)>(u32_bytes(m.leader_epoch as u32)),
            true ==> Self::spec_read_leader_id(s, version) == spec_read_i32(s),
            true ==> Self::spec_read_leader_epoch(s, version) == spec_read_i32(s),
    {
        reveal(LeaderIdAndEpoch::spec_write_leader_id);
        reveal(LeaderIdAndEpoch::spec_read_leader_id);
        reveal(LeaderIdAndEpoch::spec_write_leader_epoch);
        reveal(LeaderIdAndEpoch::spec_read_leader_epoch);
    }

    /// Whether writing `m` in `version` succeeds, said over its parts: the
    /// version is one the schema covers, every field that the version cannot
    /// carry holds its default value, and every string, byte string, array and
    /// tagged field fits its length prefix.
    pub open spec fn writable(m: LeaderIdAndEpochView, version: i16) -> bool {
        &&& m.unknown_tagged_fields.len() <= u32::MAX && tags_fit(m.unknown_tagged_fields)
    }

    proof fn lemma_writable_leader_id(m: LeaderIdAndEpochView, version: i16)
        ensures
            Self::spec_write_leader_id(m, version) is Ok <==> true,
    {
        reveal(LeaderIdAndEpoch::spec_write_leader_id);
    }

    proof fn lemma_writable_leader_epoch(m: LeaderIdAndEpochView, version: i16)
        ensures
            Self::spec_write_leader_epoch(m, version) is Ok <==> true,
    {
        reveal(LeaderIdAndEpoch::spec_write_leader_epoch);
    }

    proof fn lemma_writable_tags(m: LeaderIdAndEpochView, version: i16)
        ensures
            Self::spec_write_tags(m, version) is Ok <==> m.unknown_tagged_fields.len() <= u32::MAX && tags_fit(m.unknown_tagged_fields),
    {
        reveal(LeaderIdAndEpoch::spec_write_tags);
        lemma_sorted_tags_fit(m.unknown_tagged_fields);
        lemma_tagged_fields_writable(sorted_by_tag(m.unknown_tagged_fields));
    }

    /// Writing `m` in `version` succeeds exactly when `m` is writable in it;
    /// so do `write` and `encoded_len`, whose results follow `spec_write`.
    #[verifier::rlimit(48)]
    pub proof fn lemma_writable(m: LeaderIdAndEpochView, version: i16)
        ensures
            Self::spec_write(m, version) is Ok <==> Self::writable(m, version),
    {
        Self::lemma_writable_leader_id(m, version);
        Self::lemma_writable_leader_epoch(m, version);
        Self::lemma_writable_tags(m, version);
    }

    /// Whether `v` is what `default` gives.
    pub open spec fn is_default_view(v: LeaderIdAndEpochView) -> bool {
        &&& v.leader_id == -1i32
        &&& v.leader_epoch == -1i32
        &&& v.unknown_tagged_fields.len() == 0
    }

    /// `is_default_view` holds of exactly the value that `default` gives.
    pub proof fn lemma_is_default(v: LeaderIdAndEpochView)
        ensures
            Self::is_default_view(v) <==> v == Self::default_view(),
    {
        if Self::is_default_view(v) {
            assert(v.unknown_tagged_fields =~= Seq::empty());
        }
    }

    /// Whether this is what `default` gives.
    pub fn is_default(&self) -> (r: bool)
        ensures
            r == Self::is_default_view(self@),
    {
        self.leader_id == -1i32 && self.leader_epoch == -1i32 && self._unknown_tagged_fields.len() == 0
    }

    fn read_leader_id(buf: &mut Bytes, version: i16) -> (r: Result<i32, Error>)
        ensures
            read_as(Self::spec_read_leader_id(bytes_seq(*old(buf)), version), *final(buf), r),
            took_front(*old(buf), *final(buf)),
    {
        proof {
            reveal(LeaderIdAndEpoch::spec_read_leader_id);
        }
        Ok(read_i32(buf)?)
    }

    fn read_leader_epoch(buf: &mut Bytes, version: i16) -> (r: Result<i32, Error>)
        ensures
            read_as(Self::spec_read_leader_epoch(bytes_seq(*old(buf)), version), *final(buf), r),
            took_front(*old(buf), *final(buf)),
    {
        proof {
            reveal(LeaderIdAndEpoch::spec_read_leader_epoch);
        }
        Ok(read_i32(buf)?)
    }

    fn read_tags(buf: &mut Bytes, version: i16) -> (r: Result<Vec<RawTaggedField>, Error>)
        ensures
            read_vec_as(Self::spec_read_tags(bytes_seq(*old(buf)), version), *final(buf), r),
            took_front(*old(buf), *final(buf)),
    {
        proof {
            reveal(LeaderIdAndEpoch::spec_read_tags);
        }
        Ok(read_tagged_fields(buf)?)
    }

    pub fn read(buf: &mut Bytes, version: i16) -> (r: Result<Self, Error>)
        ensures
            read_as(Self::spec_read(bytes_seq(*old(buf)), version), *final(buf), r),
            took_front(*old(buf), *final(buf)),
    {
        let leader_id = Self::read_leader_id(buf, version)?;
        let leader_epoch = Self::read_leader_epoch(buf, version)?;
        let _unknown_tagged_fields = Self::read_tags(buf, version)?;
        Ok(LeaderIdAndEpoch {
                leader_id: leader_id,
                leader_epoch: leader_epoch,
                _unknown_tagged_fields: _unknown_tagged_fields,
        })
    }

    #[verifier::rlimit(60)]
    pub fn write(&self, buf: &mut BytesMut, version: i16) -> (r: Result<(), Error>)
        requires
            has_room(Self::spec_write(self@, version), *old(buf)),
        ensures
            wrote(Self::spec_write(self@, version), *old(buf), *final(buf), r),
    {
        let ghost m = self@;
        proof {
            reveal(LeaderIdAndEpoch::spec_write_leader_id);
            reveal(LeaderIdAndEpoch::spec_write_leader_epoch);
            reveal(LeaderIdAndEpoch::spec_write_tags);
        }
        let ghost s0 = Self::spec_write_leader_id(m, version);
        let ghost w0 = s0;
        let ghost s1 = Self::spec_write_leader_epoch(m, version);
        let ghost w1 = chain(w0, s1);
        let ghost s2 = Self::spec_write_tags(m, version);
        let ghost w2 = chain(w1, s2);
        assert(Self::spec_write(m, version) == w2);
        assert(written(w1).len() <= written(w2).len() && (w1 is Err ==> w2 == w1));
        assert(written(w0).len() <= written(w2).len() && (w0 is Err ==> w2 == w0));
        let ghost mid = bytes_mut_seq(*buf);
        proof {
            lemma_append_empty(mid);
        }
        let r0 = {
            write_i32(buf, self.leader_id);
            Ok(())
        };
        assert(bytes_mut_seq(*buf) == mid + written(s0));
        if r0.is_err() {
            return r0;
        }
        let ghost mid = bytes_mut_seq(*buf);
        proof {
            lemma_append_empty(mid);
        }
        let r1 = {
            write_i32(buf, self.leader_epoch);
            Ok(())
        };
        assert(bytes_mut_seq(*buf) == mid + written(s1));
        proof {
            lemma_step(bytes_mut_seq(*old(buf)), w0, s1);
        }
        if r1.is_err() {
            return r1;
        }
        let ghost mid = bytes_mut_seq(*buf);
        proof {
            lemma_append_empty(mid);
        }
        let r2 = write_tagged_fields(buf, &sort_by_tag(&self._unknown_tagged_fields));
        assert(bytes_mut_seq(*buf) == mid + written(s2));
        proof {
            lemma_step(bytes_mut_seq(*old(buf)), w1, s2);
        }
        if r2.is_err() {
            return r2;
        }
        Ok(())
    }

    #[verifier::rlimit(60)]
    fn encoded_len(&self, version: i16) -> (r: Result<usize, Error>)
        ensures
            r == len_result(Self::spec_write(self@, version)),
    {
        let ghost m = self@;
        proof {
            reveal(LeaderIdAndEpoch::spec_write_leader_id);
            reveal(LeaderIdAndEpoch::spec_write_leader_epoch);
            reveal(LeaderIdAndEpoch::spec_write_tags);
        }
        let ghost s0 = Self::spec_write_leader_id(m, version);
        let ghost w0 = s0;
        let ghost s1 = Self::spec_write_leader_epoch(m, version);
        let ghost w1 = chain(w0, s1);
        let ghost s2 = Self::spec_write_tags(m, version);
        let ghost w2 = chain(w1, s2);
        assert(Self::spec_write(m, version) == w2);
        assert(w1 is Err ==> w2 == w1);
        assert(w0 is Err ==> w2 == w0);
        let mut len: usize = 0;
        let l0 = Ok(4);
        assert(l0 == len_result(s0));
        let n0 = match l0 {
            Ok(n) => n,
            Err(e) => {
                return Err(e);
            },
        };
        len = saturating_sum(len, n0);
        assert(w0 is Ok && len == saturate(written(w0).len() as int));
        let l1 = Ok(4);
        assert(l1 == len_result(s1));
        let n1 = match l1 {
            Ok(n) => n,
            Err(e) => {
                return Err(e);
            },
        };
        proof {
            lemma_len_step(w0, s1, n1);
        }
        len = saturating_sum(len, n1);
        assert(w1 is Ok && len == saturate(written(w1).len() as int));
        let l2 = tagged_fields_len(&sort_by_tag(&self._unknown_tagged_fields));
        assert(l2 == len_result(s2));
        let n2 = match l2 {
            Ok(n) => n,
            Err(e) => {
                return Err(e);
            },
        };
        proof {
            lemma_len_step(w1, s2, n2);
        }
        len = saturating_sum(len, n2);
        assert(w2 is Ok && len == saturate(written(w2).len() as int));
        Ok(len)
    }
}

#[derive(Debug, PartialEq)]
pub struct SnapshotId {
    /// The end offset of the epoch.
    pub end_offset: i64,
    /// The largest epoch.
    pub epoch: i32,
    pub _unknown_tagged_fields: Vec<RawTaggedField>,
}

/// What a `SnapshotId` holds, as the specification sees it.
#[verifier::ext_equal]
pub struct SnapshotIdView {
    pub end_offset: i64,
    pub epoch: i32,
    pub unknown_tagged_fields: Seq<(u32, Seq<u8>)>,
}

impl View for SnapshotId {
    type V = SnapshotIdView;

    open spec fn view(&self) -> SnapshotIdView {
        SnapshotIdView {
            end_offset: self.end_offset,
            epoch: self.epoch,
            unknown_tagged_fields: views(self._unknown_tagged_fields@),
        }
    }
}

impl Clone for SnapshotId {
    fn clone(&self) -> (r: Self)
        ensures
            r@ == self@,
    {
        let r = SnapshotId {
            end_offset: self.end_offset,
            epoch: self.epoch,
            _unknown_tagged_fields: clone_vec(&self._unknown_tagged_fields),
        };
        assert(r@ =~= self@);
        r
    }
}

impl ViewClone for SnapshotId {
    fn clone_view(&self) -> (r: Self) {
        self.clone()
    }
}

impl Default for SnapshotId {
    fn default() -> (r: Self)
        ensures
            r@ == Self::default_view(),
    {
        let r = SnapshotId {
            end_offset: -1i64,
            epoch: -1i32,
            _unknown_tagged_fields: empty_vec(),
        };
        assert(r@ =~= Self::default_view());
        r
    }
}

impl SnapshotId {
    pub open spec fn default_view() -> SnapshotIdView {
        SnapshotIdView {
            end_offset: -1i64,
            epoch: -1i32,
            unknown_tagged_fields: Seq::empty(),
        }
    }

    /// The `end_offset` field, read from the front of `s`.
    #[verifier::opaque]
    pub open spec fn spec_read_end_offset(s: Seq<u8>, version: i16) -> ReadOutcome<i64> {
        spec_read_i64(s)
    }

    /// The `epoch` field, read from the front of `s`.
    #[verifier::opaque]
    pub open spec fn spec_read_epoch(s: Seq<u8>, version: i16) -> ReadOutcome<i32> {
        spec_read_i32(s)
    }

    /// The tagged fields, read from the front of `s`.
    #[verifier::opaque]
    pub open spec fn spec_read_tags(s: Seq<u8>, version: i16) -> ReadOutcome<Seq<(u32, Seq<u8>)>> {
        spec_read_tagged_fields(s)
    }

    pub open spec fn spec_read(s: Seq<u8>, version: i16) -> ReadOutcome<SnapshotIdView> {
        match (Self::spec_read_end_offset(s, version)) {
            Err(e) => Err(e),
            Ok((end_offset, s)) => match (Self::spec_read_epoch(s, version)) {
                Err(e) => Err(e),
                Ok((epoch, s)) => match (Self::spec_read_tags(s, version)) {
                    Err(e) => Err(e),
                    Ok((unknown_tagged_fields, s)) => Ok((SnapshotIdView {
                                end_offset: end_offset,
                                epoch: epoch,
                                unknown_tagged_fields: unknown_tagged_fields,
                            }, s)),
                },
            },
        }
    }

    /// What writing the `end_offset` field of `m` appends.
    #[verifier::opaque]
    pub open spec fn spec_write_end_offset(m: SnapshotIdView, version: i16) -> WriteOutcome {
        spec_write_i64(m.end_offset)
    }

    /// What writing the `epoch` field of `m` appends.
    #[verifier::opaque]
    pub open spec fn spec_write_epoch(m: SnapshotIdView, version: i16) -> WriteOutcome {
        spec_write_i32(m.epoch)
    }

    /// What writing the tagged fields of `m` appends.
    #[verifier::opaque]
    pub open spec fn spec_write_tags(m: SnapshotIdView, version: i16) -> WriteOutcome {
        spec_write_tagged_fields(sorted_by_tag(m.unknown_tagged_fields))
    }

    pub open spec fn spec_write(m: SnapshotIdView, version: i16) -> WriteOutcome {
        chain(
            chain(
                Self::spec_write_end_offset(m, version),
                Self::spec_write_epoch(m, version),
            ),
            Self::spec_write_tags(m, version),
        )
    }

    /// Whether reading back what writing `m` in `version` appends gives `m`:
    /// fields that the version does not carry hold their default values, and
    /// tagged fields come in the order in which they are written.
    pub open spec fn canonical(m: SnapshotIdView, version: i16) -> bool {
        &&& tags_in_order(m.unknown_tagged_fields)
    }

    proof fn lemma_round_trip_end_offset(m: SnapshotIdView, version: i16, rest: Seq<u8>)
        requires
            Self::canonical(m, version),
            Self::spec_write_end_offset(m, version) is Ok,
        ensures
            Self::spec_read_end_offset(written(Self::spec_write_end_offset(m, version)) + rest, version) == Ok::<(i64, Seq<u8>), Error>((m.end_offset, rest)),
    {
        reveal(SnapshotId::spec_read_end_offset);
        reveal(SnapshotId::spec_write_end_offset);
        lemma_i64_roundtrip(m.end_offset, rest);
    }

    proof fn lemma_round_trip_epoch(m: SnapshotIdView, version: i16, rest: Seq<u8>)
        requires
            Self::canonical(m, version),
            Self::spec_write_epoch(m, version) is Ok,
        ensures
            Self::spec_read_epoch(written(Self::spec_write_epoch(m, version)) + rest, version) == Ok::<(i32, Seq<u8>), Error>((m.epoch, rest)),
    {
        reveal(SnapshotId::spec_read_epoch);
        reveal(SnapshotId::spec_write_epoch);
        lemma_i32_roundtrip(m.epoch, rest);
    }

    proof fn lemma_round_trip_tags(m: SnapshotIdView, version: i16, rest: Seq<u8>)
        requires
            Self::canonical(m, version),
            Self::spec_write_tags(m, version) is Ok,
        ensures
            Self::spec_read_tags(written(Self::spec_write_tags(m, version)) + rest, version) == Ok::<(Seq<(u32, Seq<u8>)>, Seq<u8>), Error>((m.unknown_tagged_fields, rest)),
    {
        reveal(SnapshotId::spec_read_tags);
        reveal(SnapshotId::spec_write_tags);
        lemma_sorted_by_tag_in_order(m.unknown_tagged_fields);
        lemma_tagged_fields_round_trip(m.unknown_tagged_fields, rest);
    }

    /// Reading back what writing `m` in `version` appends gives `m` again, and
    /// leaves what follows, for every canonical message whose write succeeds.
    #[verifier::rlimit(70)]
    #[verifier::spinoff_prover]
    pub proof fn lemma_round_trip(m: SnapshotIdView, version: i16, rest: Seq<u8>)
        requires
            Self::canonical(m, version),
            Self::spec_write(m, version) is Ok,
        ensures
            Self::spec_read(written(Self::spec_write(m, version)) + rest, version) == Ok::<(SnapshotIdView, Seq<u8>), Error>((m, rest)),
    {
        let b0 = written(Self::spec_write_end_offset(m, version));
        let b1 = written(Self::spec_write_epoch(m, version));
        let b2 = written(Self::spec_write_tags(m, version));
        let t3 = rest;
        let t2 = b2 + t3;
        let t1 = b1 + t2;
        let t0 = b0 + t1;
        let w0 = Self::spec_write_end_offset(m, version);
        let w1 = chain(w0, Self::spec_write_epoch(m, version));
        let w2 = chain(w1, Self::spec_write_tags(m, version));
        assert(Self::spec_write(m, version) == w2);
        assert(written(w2) + t3 =~= written(w1) + t2);
        assert(written(w1) + t2 =~= written(w0) + t1);
        Self::lemma_round_trip_end_offset(m, version, t1);
        Self::lemma_round_trip_epoch(m, version, t2);
        Self::lemma_round_trip_tags(m, version, t3);
    }

    /// The default message holds the default value of each field of the schema.
    pub proof fn lemma_default_values()
        ensures
            Self::default_view().end_offset == (-1i64),
            Self::default_view().epoch == (-1i32),
            Self::default_view().unknown_tagged_fields.len() == 0,
    {
    }

    /// Each integer, boolean and identifier field is written as its standard
    /// big-endian bytes (a boolean as `1` or `0`) in the versions that carry
    /// it, and as nothing in the others; reading it takes those bytes back (any
    /// byte other than `0` reads as `true`), or gives its default value.
    pub proof fn lemma_field_encodings(m: SnapshotIdView, s: Seq<u8>, version: i16)
        ensures
            true ==> Self::spec_write_end_offset(m, version) == Ok::<Seq<u8>, (Error, Seq<u8>)>(u64_bytes(m.end_offset as u64)),
            true ==> Self::spec_write_epoch(m, version) == Ok::<Seq<u8>, (Error, Seq<u8>)>(u32_bytes(m.epoch as u32)),
            true ==> Self::spec_read_end_offset(s, version) == spec_read_i64(s),
            true ==> Self::spec_read_epoch(s, version) == spec_read_i32(s),
    {
        reveal(SnapshotId::spec_write_end_offset);
        reveal(SnapshotId::spec_read_end_offset);
        reveal(SnapshotId::spec_write_epoch);
        reveal(SnapshotId::spec_read_epoch);
    }

    /// Whether writing `m` in `version` succeeds, said over its parts: the
    /// version is one the schema covers, every field that the version cannot
    /// carry holds its default value, and every string, byte string, array and
    /// tagged field fits its length prefix.
    pub open spec fn writable(m: SnapshotIdView, version: i16) -> bool {
        &&& m.unknown_tagged_fields.len() <= u32::MAX && tags_fit(m.unknown_tagged_fields)
    }

    proof fn lemma_writable_end_offset(m: SnapshotIdView, version: i16)
        ensures
            Self::spec_write_end_offset(m, version) is Ok <==> true,
    {
        reveal(SnapshotId::spec_write_end_offset);
    }

    proof fn lemma_writable_epoch(m: SnapshotIdView, version: i16)
        ensures
            Self::spec_write_epoch(m, version) is Ok <==> true,
    {
        reveal(SnapshotId::spec_write_epoch);
    }

    proof fn lemma_writable_tags(m: SnapshotIdView, version: i16)
        ensures
            Self::spec_write_tags(m, version) is Ok <==> m.unknown_tagged_fields.len() <= u32::MAX && tags_fit(m.unknown_tagged_fields),
    {
        reveal(SnapshotId::spec_write_tags);
        lemma_sorted_tags_fit(m.unknown_tagged_fields);
        lemma_tagged_fields_writable(sorted_by_tag(m.unknown_tagged_fields));
    }

    /// Writing `m` in `version` succeeds exactly when `m` is writable in it;
    /// so do `write` and `encoded_len`, whose results follow `spec_write`.
    #[verifier::rlimit(48)]
    pub proof fn lemma_writable(m: SnapshotIdView, version: i16)
        ensures
            Self::spec_write(m, version) is Ok <==> Self::writable(m, version),
    {
        Self::lemma_writable_end_offset(m, version);
        Self::lemma_writable_epoch(m, version);
        Self::lemma_writable_tags(m, version);
    }

    /// Whether `v` is what `default` gives.
    pub open spec fn is_default_view(v: SnapshotIdView) -> bool {
        &&& v.end_offset == -1i64
        &&& v.epoch == -1i32
        &&& v.unknown_tagged_fields.len() == 0
    }

    /// `is_default_view` holds of exactly the value that `default` gives.
    pub proof fn lemma_is_default(v: SnapshotIdView)
        ensures
            Self::is_default_view(v) <==> v == Self::default_view(),
    {
        if Self::is_default_view(v) {
            assert(v.unknown_tagged_fields =~= Seq::empty());
        }
    }

    /// Whether this is what `default` gives.
    pub fn is_default(&self) -> (r: bool)
        ensures
            r == Self::is_default_view(self@),
    {
        self.end_offset == -1i64 && self.epoch == -1i32 && self._unknown_tagged_fields.len() == 0
    }

    fn read_end_offset(buf: &mut Bytes, version: i16) -> (r: Result<i64, Error>)
        ensures
            read_as(Self::spec_read_end_offset(bytes_seq(*old(buf)), version), *final(buf), r),
            took_front(*old(buf), *final(buf)),
    {
        proof {
            reveal(SnapshotId::spec_read_end_offset);
        }
        Ok(read_i64(buf)?)
    }

    fn read_epoch(buf: &mut Bytes, version: i16) -> (r: Result<i32, Error>)
        ensures
            read_as(Self::spec_read_epoch(bytes_seq(*old(buf)), version), *final(buf), r),
            took_front(*old(buf), *final(buf)),
    {
        proof {
            reveal(SnapshotId::spec_read_epoch);
        }
        Ok(read_i32(buf)?)
    }

    fn read_tags(buf: &mut Bytes, version: i16) -> (r: Result<Vec<RawTaggedField>, Error>)
        ensures
            read_vec_as(Self::spec_read_tags(bytes_seq(*old(buf)), version), *final(buf), r),
            took_front(*old(buf), *final(buf)),
    {
        proof {
            reveal(SnapshotId::spec_read_tags);
        }
        Ok(read_tagged_fields(buf)?)
    }

    pub fn read(buf: &mut Bytes, version: i16) -> (r: Result<Self, Error>)
        ensures
            read_as(Self::spec_read(bytes_seq(*old(buf)), version), *final(buf), r),
            took_front(*old(buf), *final(buf)),
    {
        let end_offset = Self::read_end_offset(buf, version)?;
        let epoch = Self::read_epoch(buf, version)?;
        let _unknown_tagged_fields = Self::read_tags(buf, version)?;
        Ok(SnapshotId {
                end_offset: end_offset,
                epoch: epoch,
                _unknown_tagged_fields: _unknown_tagged_fields,
        })
    }

    #[verifier::rlimit(60)]
    pub fn write(&self, buf: &mut BytesMut, version: i16) -> (r: Result<(), Error>)
        requires
            has_room(Self::spec_write(self@, version), *old(buf)),
        ensures
            wrote(Self::spec_write(self@, version), *old(buf), *final(buf), r),
    {
        let ghost m = self@;
        proof {
            reveal(SnapshotId::spec_write_end_offset);
            reveal(SnapshotId::spec_write_epoch);
            reveal(SnapshotId::spec_write_tags);
        }
        let ghost s0 = Self::spec_write_end_offset(m, version);
        let ghost w0 = s0;
        let ghost s1 = Self::spec_write_epoch(m, version);
        let ghost w1 = chain(w0, s1);
        let ghost s2 = Self::spec_write_tags(m, version);
        let ghost w2 = chain(w1, s2);
        assert(Self::spec_write(m, version) == w2);
        assert(written(w1).len() <= written(w2).len() && (w1 is Err ==> w2 == w1));
        assert(written(w0).len() <= written(w2).len() && (w0 is Err ==> w2 == w0));
        let ghost mid = bytes_mut_seq(*buf);
        proof {
            lemma_append_empty(mid);
        }
        let r0 = {
            write_i64(buf, self.end_offset);
            Ok(())
        };
        assert(bytes_mut_seq(*buf) == mid + written(s0));
        if r0.is_err() {
            return r0;
        }
        let ghost mid = bytes_mut_seq(*buf);
        proof {
            lemma_append_empty(mid);
        }
        let r1 = {
            write_i32(buf, self.epoch);
            Ok(())
        };
        assert(bytes_mut_seq(*buf) == mid + written(s1));
        proof {
            lemma_step(bytes_mut_seq(*old(buf)), w0, s1);
        }
        if r1.is_err() {
            return r1;
        }
        let ghost mid = bytes_mut_seq(*buf);
        proof {
            lemma_append_empty(mid);
        }
        let r2 = write_tagged_fields(buf, &sort_by_tag(&self._unknown_tagged_fields));
        assert(bytes_mut_seq(*buf) == mid + written(s2));
        proof {
            lemma_step(bytes_mut_seq(*old(buf)), w1, s2);
        }
        if r2.is_err() {
            return r2;
        }
        Ok(())
    }

    #[verifier::rlimit(60)]
    fn encoded_len(&self, version: i16) -> (r: Result<usize, Error>)
        ensures
            r == len_result(Self::spec_write(self@, version)),
    {
        let ghost m = self@;
        proof {
            reveal(SnapshotId::spec_write_end_offset);
            reveal(SnapshotId::spec_write_epoch);
            reveal(SnapshotId::spec_write_tags);
        }
        let ghost s0 = Self::spec_write_end_offset(m, version);
        let ghost w0 = s0;
        let ghost s1 = Self::spec_write_epoch(m, version);
        let ghost w1 = chain(w0, s1);
        let ghost s2 = Self::spec_write_tags(m, version);
        let ghost w2 = chain(w1, s2);
        assert(Self::spec_write(m, version) == w2);
        assert(w1 is Err ==> w2 == w1);
        assert(w0 is Err ==> w2 == w0);
        let mut len: usize = 0;
        let l0 = Ok(8);
        assert(l0 == len_result(s0));
        let n0 = match l0 {
            Ok(n) => n,
            Err(e) => {
                return Err(e);
            },
        };
        len = saturating_sum(len, n0);
        assert(w0 is Ok && len == saturate(written(w0).len() as int));
        let l1 = Ok(4);
        assert(l1 == len_result(s1));
        let n1 = match l1 {
            Ok(n) => n,
            Err(e) => {
                return Err(e);
            },
        };
        proof {
            lemma_len_step(w0, s1, n1);
        }
        len = saturating_sum(len, n1);
        assert(w1 is Ok && len == saturate(written(w1).len() as int));
        let l2 = tagged_fields_len(&sort_by_tag(&self._unknown_tagged_fields));
        assert(l2 == len_result(s2));
        let n2 = match l2 {
            Ok(n) => n,
            Err(e) => {
                return Err(e);
            },
        };
        proof {
            lemma_len_step(w1, s2, n2);
        }
        len = saturating_sum(len, n2);
        assert(w2 is Ok && len == saturate(written(w2).len() as int));
        Ok(len)
    }
}

#[derive(Debug, PartialEq)]
pub struct AbortedTransaction {
    /// The producer id associated with the aborted transaction.
    pub producer_id: i64,
    /// The first offset in the aborted transaction.
    pub first_offset: i64,
    pub _unknown_tagged_fields: Vec<RawTaggedField>,
}

/// What a `AbortedTransaction` holds, as the specification sees it.
#[verifier::ext_equal]
pub struct AbortedTransactionView {
    pub producer_id: i64,
    pub first_offset: i64,
    pub unknown_tagged_fields: Seq<(u32, Seq<u8>)>,
}

impl View for AbortedTransaction {
    type V = AbortedTransactionView;

    open spec fn view(&self) -> AbortedTransactionView {
        AbortedTransactionView {
            producer_id: self.producer_id,
            first_offset: self.first_offset,
            unknown_tagged_fields: views(self._unknown_tagged_fields@),
        }
    }
}

impl Clone for AbortedTransaction {
    fn clone(&self) -> (r: Self)
        ensures
            r@ == self@,
    {
        let r = AbortedTransaction {
            producer_id: self.producer_id,
            first_offset: self.first_offset,
            _unknown_tagged_fields: clone_vec(&self._unknown_tagged_fields),
        };
        assert(r@ =~= self@);
        r
    }
}

impl ViewClone for AbortedTransaction {
    fn clone_view(&self) -> (r: Self) {
        self.clone()
    }
}

impl Default for AbortedTransaction {
    fn default() -> (r: Self)
        ensures
            r@ == Self::default_view(),
    {
        let r = AbortedTransaction {
            producer_id: 0_i64,
            first_offset: 0_i64,
            _unknown_tagged_fields: empty_vec(),
        };
        assert(r@ =~= Self::default_view());
        r
    }
}

impl AbortedTransaction {
    pub open spec fn default_view() -> AbortedTransactionView {
        AbortedTransactionView {
            producer_id: 0_i64,
            first_offset: 0_i64,
            unknown_tagged_fields: Seq::empty(),
        }
    }

    /// The `producer_id` field, read from the front of `s`.
    #[verifier::opaque]
    pub open spec fn spec_read_producer_id(s: Seq<u8>, version: i16) -> ReadOutcome<i64> {
        spec_read_i64(s)
    }

    /// The `first_offset` field, read from the front of `s`.
    #[verifier::opaque]
    pub open spec fn spec_read_first_offset(s: Seq<u8>, version: i16) -> ReadOutcome<i64> {
        spec_read_i64(s)
    }

    /// The tagged fields, read from the front of `s`.
    #[verifier::opaque]
    pub open spec fn spec_read_tags(s: Seq<u8>, version: i16) -> ReadOutcome<Seq<(u32, Seq<u8>)>> {
        if version >= 12 {
            spec_read_tagged_fields(s)
        } else {
            Ok((Seq::empty(), s))
        }
    }

    pub open spec fn spec_read(s: Seq<u8>, version: i16) -> ReadOutcome<AbortedTransactionView> {
        match (Self::spec_read_producer_id(s, version)) {
            Err(e) => Err(e),
            Ok((producer_id, s)) => match (Self::spec_read_first_offset(s, version)) {
                Err(e) => Err(e),
                Ok((first_offset, s)) => match (Self::spec_read_tags(s, version)) {
                    Err(e) => Err(e),
                    Ok((unknown_tagged_fields, s)) => Ok((AbortedTransactionView {
                                producer_id: producer_id,
                                first_offset: first_offset,
                                unknown_tagged_fields: unknown_tagged_fields,
                            }, s)),
                },
            },
        }
    }

    /// What writing the `producer_id` field of `m` appends.
    #[verifier::opaque]
    pub open spec fn spec_write_producer_id(m: AbortedTransactionView, version: i16) -> WriteOutcome {
        spec_write_i64(m.producer_id)
    }

    /// What writing the `first_offset` field of `m` appends.
    #[verifier::opaque]
    pub open spec fn spec_write_first_offset(m: AbortedTransactionView, version: i16) -> WriteOutcome {
        spec_write_i64(m.first_offset)
    }

    /// What writing the tagged fields of `m` appends.
    #[verifier::opaque]
    pub open spec fn spec_write_tags(m: AbortedTransactionView, version: i16) -> WriteOutcome {
        if version >= 12 {
            spec_write_tagged_fields(sorted_by_tag(m.unknown_tagged_fields))
        } else {
            emit(Seq::empty())
        }
    }

    pub open spec fn spec_write(m: AbortedTransactionView, version: i16) -> WriteOutcome {
        chain(
            chain(
                Self::spec_write_producer_id(m, version),
                Self::spec_write_first_offset(m, version),
            ),
            Self::spec_write_tags(m, version),
        )
    }

    /// Whether reading back what writing `m` in `version` appends gives `m`:
    /// fields that the version does not carry hold their default values, and
    /// tagged fields come in the order in which they are written.
    pub open spec fn canonical(m: AbortedTransactionView, version: i16) -> bool {
        &&& (if version >= 12 {
                tags_in_order(m.unknown_tagged_fields)
            } else {
                m.unknown_tagged_fields.len() == 0
        })
    }

    proof fn lemma_round_trip_producer_id(m: AbortedTransactionView, version: i16, rest: Seq<u8>)
        requires
            Self::canonical(m, version),
            Self::spec_write_producer_id(m, version) is Ok,
        ensures
            Self::spec_read_producer_id(written(Self::spec_write_producer_id(m, version)) + rest, version) == Ok::<(i64, Seq<u8>), Error>((m.producer_id, rest)),
    {
        reveal(AbortedTransaction::spec_read_producer_id);
        reveal(AbortedTransaction::spec_write_producer_id);
        lemma_i64_roundtrip(m.producer_id, rest);
    }

    proof fn lemma_round_trip_first_offset(m: AbortedTransactionView, version: i16, rest: Seq<u8>)
        requires
            Self::canonical(m, version),
            Self::spec_write_first_offset(m, version) is Ok,
        ensures
            Self::spec_read_first_offset(written(Self::spec_write_first_offset(m, version)) + rest, version) == Ok::<(i64, Seq<u8>), Error>((m.first_offset, rest)),
    {
        reveal(AbortedTransaction::spec_read_first_offset);
        reveal(AbortedTransaction::spec_write_first_offset);
        lemma_i64_roundtrip(m.first_offset, rest);
    }

    proof fn lemma_round_trip_tags(m: AbortedTransactionView, version: i16, rest: Seq<u8>)
        requires
            Self::canonical(m, version),
            Self::spec_write_tags(m, version) is Ok,
        ensures
            Self::spec_read_tags(written(Self::spec_write_tags(m, version)) + rest, version) == Ok::<(Seq<(u32, Seq<u8>)>, Seq<u8>), Error>((m.unknown_tagged_fields, rest)),
    {
        reveal(AbortedTransaction::spec_read_tags);
        reveal(AbortedTransaction::spec_write_tags);
        if version >= 12 {
            lemma_sorted_by_tag_in_order(m.unknown_tagged_fields);
            lemma_tagged_fields_round_trip(m.unknown_tagged_fields, rest);
        } else {
            assert(Seq::<u8>::empty() + rest =~= rest);
            assert(m.unknown_tagged_fields =~= Seq::empty());
        }
    }

    /// Reading back what writing `m` in `version` appends gives `m` again, and
    /// leaves what follows, for every canonical message whose write succeeds.
    #[verifier::rlimit(70)]
    #[verifier::spinoff_prover]
    pub proof fn lemma_round_trip(m: AbortedTransactionView, version: i16, rest: Seq<u8>)
        requires
            Self::canonical(m, version),
            Self::spec_write(m, version) is Ok,
        ensures
            Self::spec_read(written(Self::spec_write(m, version)) + rest, version) == Ok::<(AbortedTransactionView, Seq<u8>), Error>((m, rest)),
    {
        let b0 = written(Self::spec_write_producer_id(m, version));
        let b1 = written(Self::spec_write_first_offset(m, version));
        let b2 = written(Self::spec_write_tags(m, version));
        let t3 = rest;
        let t2 = b2 + t3;
        let t1 = b1 + t2;
        let t0 = b0 + t1;
        let w0 = Self::spec_write_producer_id(m, version);
        let w1 = chain(w0, Self::spec_write_first_offset(m, version));
        let w2 = chain(w1, Self::spec_write_tags(m, version));
        assert(Self::spec_write(m, version) == w2);
        assert(written(w2) + t3 =~= written(w1) + t2);
        assert(written(w1) + t2 =~= written(w0) + t1);
        Self::lemma_round_trip_producer_id(m, version, t1);
        Self::lemma_round_trip_first_offset(m, version, t2);
        Self::lemma_round_trip_tags(m, version, t3);
    }

    /// In a version that does not carry `unknown_tagged_fields`, writing ignores its value.
    pub proof fn lemma_write_ignores_unknown_tagged_fields(m: AbortedTransactionView, value: Seq<(u32, Seq<u8>)>, version: i16)
        requires
            !(version >= 12),
        ensures
            Self::spec_write((AbortedTransactionView { unknown_tagged_fields: value, ..m }), version) == Self::spec_write(m, version),
    {
        reveal(AbortedTransaction::spec_write_producer_id);
        reveal(AbortedTransaction::spec_write_first_offset);
        reveal(AbortedTransaction::spec_write_tags);
    }

    /// The default message holds the default value of each field of the schema.
    pub proof fn lemma_default_values()
        ensures
            Self::default_view().producer_id == (0_i64),
            Self::default_view().first_offset == (0_i64),
            Self::default_view().unknown_tagged_fields.len() == 0,
    {
    }

    /// Each integer, boolean and identifier field is written as its standard
    /// big-endian bytes (a boolean as `1` or `0`) in the versions that carry
    /// it, and as nothing in the others; reading it takes those bytes back (any
    /// byte other than `0` reads as `true`), or gives its default value.
    pub proof fn lemma_field_encodings(m: AbortedTransactionView, s: Seq<u8>, version: i16)
        ensures
            true ==> Self::spec_write_producer_id(m, version) == Ok::<Seq<u8>, (Error, Seq<u8>)>(u64_bytes(m.producer_id as u64)),
            true ==> Self::spec_write_first_offset(m, version) == Ok::<Seq<u8>, (Error, Seq<u8>)>(u64_bytes(m.first_offset as u64)),
            true ==> Self::spec_read_producer_id(s, version) == spec_read_i64(s),
            true ==> Self::spec_read_first_offset(s, version) == spec_read_i64(s),
    {
        reveal(AbortedTransaction::spec_write_producer_id);
        reveal(AbortedTransaction::spec_read_producer_id);
        reveal(AbortedTransaction::spec_write_first_offset);
        reveal(AbortedTransaction::spec_read_first_offset);
    }

    /// Whether writing `m` in `version` succeeds, said over its parts: the
    /// version is one the schema covers, every field that the version cannot
    /// carry holds its default value, and every string, byte string, array and
    /// tagged field fits its length prefix.
    pub open spec fn writable(m: AbortedTransactionView, version: i16) -> bool {
        &&& (if version >= 12 {
                m.unknown_tagged_fields.len() <= u32::MAX && tags_fit(m.unknown_tagged_fields)
            } else {
                true
        })
    }

    proof fn lemma_writable_producer_id(m: AbortedTransactionView, version: i16)
        ensures
            Self::spec_write_producer_id(m, version) is Ok <==> true,
    {
        reveal(AbortedTransaction::spec_write_producer_id);
    }

    proof fn lemma_writable_first_offset(m: AbortedTransactionView, version: i16)
        ensures
            Self::spec_write_first_offset(m, version) is Ok <==> true,
    {
        reveal(AbortedTransaction::spec_write_first_offset);
    }

    proof fn lemma_writable_tags(m: AbortedTransactionView, version: i16)
        ensures
            Self::spec_write_tags(m, version) is Ok <==> (if version >= 12 { m.unknown_tagged_fields.len() <= u32::MAX && tags_fit(m.unknown_tagged_fields) } else { true }),
    {
        reveal(AbortedTransaction::spec_write_tags);
        if version >= 12 {
            lemma_sorted_tags_fit(m.unknown_tagged_fields);
            lemma_tagged_fields_writable(sorted_by_tag(m.unknown_tagged_fields));
        }
    }

    /// Writing `m` in `version` succeeds exactly when `m` is writable in it;
    /// so do `write` and `encoded_len`, whose results follow `spec_write`.
    #[verifier::rlimit(48)]
    pub proof fn lemma_writable(m: AbortedTransactionView, version: i16)
        ensures
            Self::spec_write(m, version) is Ok <==> Self::writable(m, version),
    {
        Self::lemma_writable_producer_id(m, version);
        Self::lemma_writable_first_offset(m, version);
        Self::lemma_writable_tags(m, version);
    }

    fn read_producer_id(buf: &mut Bytes, version: i16) -> (r: Result<i64, Error>)
        ensures
            read_as(Self::spec_read_producer_id(bytes_seq(*old(buf)), version), *final(buf), r),
            took_front(*old(buf), *final(buf)),
    {
        proof {
            reveal(AbortedTransaction::spec_read_producer_id);
        }
        Ok(read_i64(buf)?)
    }

    fn read_first_offset(buf: &mut Bytes, version: i16) -> (r: Result<i64, Error>)
        ensures
            read_as(Self::spec_read_first_offset(bytes_seq(*old(buf)), version), *final(buf), r),
            took_front(*old(buf), *final(buf)),
    {
        proof {
            reveal(AbortedTransaction::spec_read_first_offset);
        }
        Ok(read_i64(buf)?)
    }

    fn read_tags(buf: &mut Bytes, version: i16) -> (r: Result<Vec<RawTaggedField>, Error>)
        ensures
            read_vec_as(Self::spec_read_tags(bytes_seq(*old(buf)), version), *final(buf), r),
            took_front(*old(buf), *final(buf)),
    {
        proof {
            reveal(AbortedTransaction::spec_read_tags);
        }
        Ok(if version >= 12 {
                read_tagged_fields(buf)?
            } else {
                empty_vec()
        })
    }

    pub fn read(buf: &mut Bytes, version: i16) -> (r: Result<Self, Error>)
        ensures
            read_as(Self::spec_read(bytes_seq(*old(buf)), version), *final(buf), r),
            took_front(*old(buf), *final(buf)),
    {
        let producer_id = Self::read_producer_id(buf, version)?;
        let first_offset = Self::read_first_offset(buf, version)?;
        let _unknown_tagged_fields = Self::read_tags(buf, version)?;
        Ok(AbortedTransaction {
                producer_id: producer_id,
                first_offset: first_offset,
                _unknown_tagged_fields: _unknown_tagged_fields,
        })
    }

    #[verifier::rlimit(60)]
    pub fn write(&self, buf: &mut BytesMut, version: i16) -> (r: Result<(), Error>)
        requires
            has_room(Self::spec_write(self@, version), *old(buf)),
        ensures
            wrote(Self::spec_write(self@, version), *old(buf), *final(buf), r),
    {
        let ghost m = self@;
        proof {
            reveal(AbortedTransaction::spec_write_producer_id);
            reveal(AbortedTransaction::spec_write_first_offset);
            reveal(AbortedTransaction::spec_write_tags);
        }
        let ghost s0 = Self::spec_write_producer_id(m, version);
        let ghost w0 = s0;
        let ghost s1 = Self::spec_write_first_offset(m, version);
        let ghost w1 = chain(w0, s1);
        let ghost s2 = Self::spec_write_tags(m, version);
        let ghost w2 = chain(w1, s2);
        assert(Self::spec_write(m, version) == w2);
        assert(written(w1).len() <= written(w2).len() && (w1 is Err ==> w2 == w1));
        assert(written(w0).len() <= written(w2).len() && (w0 is Err ==> w2 == w0));
        let ghost mid = bytes_mut_seq(*buf);
        proof {
            lemma_append_empty(mid);
        }
        let r0 = {
            write_i64(buf, self.producer_id);
            Ok(())
        };
        assert(bytes_mut_seq(*buf) == mid + written(s0));
        if r0.is_err() {
            return r0;
        }
        let ghost mid = bytes_mut_seq(*buf);
        proof {
            lemma_append_empty(mid);
        }
        let r1 = {
            write_i64(buf, self.first_offset);
            Ok(())
        };
        assert(bytes_mut_seq(*buf) == mid + written(s1));
        proof {
            lemma_step(bytes_mut_seq(*old(buf)), w0, s1);
        }
        if r1.is_err() {
            return r1;
        }
        let ghost mid = bytes_mut_seq(*buf);
        proof {
            lemma_append_empty(mid);
        }
        let r2 = if version >= 12 {
            write_tagged_fields(buf, &sort_by_tag(&self._unknown_tagged_fields))
        } else {
            Ok(())
        };
        assert(bytes_mut_seq(*buf) == mid + written(s2));
        proof {
            lemma_step(bytes_mut_seq(*old(buf)), w1, s2);
        }
        if r2.is_err() {
            return r2;
        }
        Ok(())
    }
}

#[derive(Debug, PartialEq)]
pub struct NodeEndpoint {
    /// The ID of the associated node.
    pub node_id: i32,
    /// The node's hostname.
    pub host: KafkaString,
    /// The node's port.
    pub port: i32,
    /// The rack of the node, or null if it has not been assigned to a rack.
    pub rack: Option<KafkaString>,
    pub _unknown_tagged_fields: Vec<RawTaggedField>,
}

/// What a `NodeEndpoint` holds, as the specification sees it.
#[verifier::ext_equal]
pub struct NodeEndpointView {
    pub node_id: i32,
    pub host: Seq<u8>,
    pub port: i32,
    pub rack: Option<Seq<u8>>,
    pub unknown_tagged_fields: Seq<(u32, Seq<u8>)>,
}

impl View for NodeEndpoint {
    type V = NodeEndpointView;

    open spec fn view(&self) -> NodeEndpointView {
        NodeEndpointView {
            node_id: self.node_id,
            host: self.host@,
            port: self.port,
            rack: opt_view(self.rack),
            unknown_tagged_fields: views(self._unknown_tagged_fields@),
        }
    }
}

impl Clone for NodeEndpoint {
    fn clone(&self) -> (r: Self)
        ensures
            r@ == self@,
    {
        let r = NodeEndpoint {
            node_id: self.node_id,
            host: self.host.clone(),
            port: self.port,
            rack: match &self.rack {
                Some(x) => Some(x.clone()),
                None => None,
            },
            _unknown_tagged_fields: clone_vec(&self._unknown_tagged_fields),
        };
        assert(r@ =~= self@);
        r
    }
}

impl ViewClone for NodeEndpoint {
    fn clone_view(&self) -> (r: Self) {
        self.clone()
    }
}

impl Default for NodeEndpoint {
    fn default() -> (r: Self)
        ensures
            r@ == Self::default_view(),
    {
        let r = NodeEndpoint {
            node_id: 0_i32,
            host: KafkaString::default(),
            port: 0_i32,
            rack: None,
            _unknown_tagged_fields: empty_vec(),
        };
        assert(r@ =~= Self::default_view());
        r
    }
}

impl NodeEndpoint {
    pub open spec fn default_view() -> NodeEndpointView {
        NodeEndpointView {
            node_id: 0_i32,
            host: Seq::empty(),
            port: 0_i32,
            rack: None,
            unknown_tagged_fields: Seq::empty(),
        }
    }

    /// The `node_id` field, read from the front of `s`.
    #[verifier::opaque]
    pub open spec fn spec_read_node_id(s: Seq<u8>, version: i16) -> ReadOutcome<i32> {
        spec_read_i32(s)
    }

    /// The `host` field, read from the front of `s`.
    #[verifier::opaque]
    pub open spec fn spec_read_host(s: Seq<u8>, version: i16) -> ReadOutcome<Seq<u8>> {
        spec_read_compact_string(s)
    }

    /// The `port` field, read from the front of `s`.
    #[verifier::opaque]
    pub open spec fn spec_read_port(s: Seq<u8>, version: i16) -> ReadOutcome<i32> {
        spec_read_i32(s)
    }

    /// The `rack` field, read from the front of `s`.
    #[verifier::opaque]
    pub open spec fn spec_read_rack(s: Seq<u8>, version: i16) -> ReadOutcome<Option<Seq<u8>>> {
        spec_read_compact_nullable_string(s)
    }

    /// The tagged fields, read from the front of `s`.
    #[verifier::opaque]
    pub open spec fn spec_read_tags(s: Seq<u8>, version: i16) -> ReadOutcome<Seq<(u32, Seq<u8>)>> {
        spec_read_tagged_fields(s)
    }

    pub open spec fn spec_read(s: Seq<u8>, version: i16) -> ReadOutcome<NodeEndpointView> {
        match (Self::spec_read_node_id(s, version)) {
            Err(e) => Err(e),
            Ok((node_id, s)) => match (Self::spec_read_host(s, version)) {
                Err(e) => Err(e),
                Ok((host, s)) => match (Self::spec_read_port(s, version)) {
                    Err(e) => Err(e),
                    Ok((port, s)) => match (Self::spec_read_rack(s, version)) {
                        Err(e) => Err(e),
                        Ok((rack, s)) => match (Self::spec_read_tags(s, version)) {
                            Err(e) => Err(e),
                            Ok((unknown_tagged_fields, s)) => Ok((NodeEndpointView {
                                        node_id: node_id,
                                        host: host,
                                        port: port,
                                        rack: rack,
                                        unknown_tagged_fields: unknown_tagged_fields,
                                    }, s)),
                        },
                    },
                },
            },
        }
    }

    /// What writing the `node_id` field of `m` appends.
    #[verifier::opaque]
    pub open spec fn spec_write_node_id(m: NodeEndpointView, version: i16) -> WriteOutcome {
        spec_write_i32(m.node_id)
    }

    /// What writing the `host` field of `m` appends.
    #[verifier::opaque]
    pub open spec fn spec_write_host(m: NodeEndpointView, version: i16) -> WriteOutcome {
        spec_write_compact_string(m.host)
    }

    /// What writing the `port` field of `m` appends.
    #[verifier::opaque]
    pub open spec fn spec_write_port(m: NodeEndpointView, version: i16) -> WriteOutcome {
        spec_write_i32(m.port)
    }

    /// What writing the `rack` field of `m` appends.
    #[verifier::opaque]
    pub open spec fn spec_write_rack(m: NodeEndpointView, version: i16) -> WriteOutcome {
        spec_write_compact_nullable_string(m.rack)
    }

    /// What writing the tagged fields of `m` appends.
    #[verifier::opaque]
    pub open spec fn spec_write_tags(m: NodeEndpointView, version: i16) -> WriteOutcome {
        spec_write_tagged_fields(sorted_by_tag(m.unknown_tagged_fields))
    }

    pub open spec fn spec_write(m: NodeEndpointView, version: i16) -> WriteOutcome {
        chain(
            chain(
                chain(
                    chain(
                        Self::spec_write_node_id(m, version),
                        Self::spec_write_host(m, version),
                    ),
                    Self::spec_write_port(m, version),
                ),
                Self::spec_write_rack(m, version),
            ),
            Self::spec_write_tags(m, version),
        )
    }

    /// Whether reading back what writing `m` in `version` appends gives `m`:
    /// fields that the version does not carry hold their default values, and
    /// tagged fields come in the order in which they are written.
    pub open spec fn canonical(m: NodeEndpointView, version: i16) -> bool {
        &&& tags_in_order(m.unknown_tagged_fields)
    }

    proof fn lemma_round_trip_node_id(m: NodeEndpointView, version: i16, rest: Seq<u8>)
        requires
            Self::canonical(m, version),
            Self::spec_write_node_id(m, version) is Ok,
        ensures
            Self::spec_read_node_id(written(Self::spec_write_node_id(m, version)) + rest, version) == Ok::<(i32, Seq<u8>), Error>((m.node_id, rest)),
    {
        reveal(NodeEndpoint::spec_read_node_id);
        reveal(NodeEndpoint::spec_write_node_id);
        lemma_i32_roundtrip(m.node_id, rest);
    }

    proof fn lemma_round_trip_host(m: NodeEndpointView, version: i16, rest: Seq<u8>)
        requires
            Self::canonical(m, version),
            Self::spec_write_host(m, version) is Ok,
        ensures
            Self::spec_read_host(written(Self::spec_write_host(m, version)) + rest, version) == Ok::<(Seq<u8>, Seq<u8>), Error>((m.host, rest)),
    {
        reveal(NodeEndpoint::spec_read_host);
        reveal(NodeEndpoint::spec_write_host);
        lemma_compact_string_round_trip(m.host, rest);
    }

    proof fn lemma_round_trip_port(m: NodeEndpointView, version: i16, rest: Seq<u8>)
        requires
            Self::canonical(m, version),
            Self::spec_write_port(m, version) is Ok,
        ensures
            Self::spec_read_port(written(Self::spec_write_port(m, version)) + rest, version) == Ok::<(i32, Seq<u8>), Error>((m.port, rest)),
    {
        reveal(NodeEndpoint::spec_read_port);
        reveal(NodeEndpoint::spec_write_port);
        lemma_i32_roundtrip(m.port, rest);
    }

    proof fn lemma_round_trip_rack(m: NodeEndpointView, version: i16, rest: Seq<u8>)
        requires
            Self::canonical(m, version),
            Self::spec_write_rack(m, version) is Ok,
        ensures
            Self::spec_read_rack(written(Self::spec_write_rack(m, version)) + rest, version) == Ok::<(Option<Seq<u8>>, Seq<u8>), Error>((m.rack, rest)),
    {
        reveal(NodeEndpoint::spec_read_rack);
        reveal(NodeEndpoint::spec_write_rack);
        lemma_compact_nullable_string_round_trip(m.rack, rest);
    }

    proof fn lemma_round_trip_tags(m: NodeEndpointView, version: i16, rest: Seq<u8>)
        requires
            Self::canonical(m, version),
            Self::spec_write_tags(m, version) is Ok,
        ensures
            Self::spec_read_tags(written(Self::spec_write_tags(m, version)) + rest, version) == Ok::<(Seq<(u32, Seq<u8>)>, Seq<u8>), Error>((m.unknown_tagged_fields, rest)),
    {
        reveal(NodeEndpoint::spec_read_tags);
        reveal(NodeEndpoint::spec_write_tags);
        lemma_sorted_by_tag_in_order(m.unknown_tagged_fields);
        lemma_tagged_fields_round_trip(m.unknown_tagged_fields, rest);
    }

    /// Reading back what writing `m` in `version` appends gives `m` again, and
    /// leaves what follows, for every canonical message whose write succeeds.
    #[verifier::rlimit(90)]
    #[verifier::spinoff_prover]
    pub proof fn lemma_round_trip(m: NodeEndpointView, version: i16, rest: Seq<u8>)
        requires
            Self::canonical(m, version),
            Self::spec_write(m, version) is Ok,
        ensures
            Self::spec_read(written(Self::spec_write(m, version)) + rest, version) == Ok::<(NodeEndpointView, Seq<u8>), Error>((m, rest)),
    {
        let b0 = written(Self::spec_write_node_id(m, version));
        let b1 = written(Self::spec_write_host(m, version));
        let b2 = written(Self::spec_write_port(m, version));
        let b3 = written(Self::spec_write_rack(m, version));
        let b4 = written(Self::spec_write_tags(m, version));
        let t5 = rest;
        let t4 = b4 + t5;
        let t3 = b3 + t4;
        let t2 = b2 + t3;
        let t1 = b1 + t2;
        let t0 = b0 + t1;
        let w0 = Self::spec_write_node_id(m, version);
        let w1 = chain(w0, Self::spec_write_host(m, version));
        let w2 = chain(w1, Self::spec_write_port(m, version));
        let w3 = chain(w2, Self::spec_write_rack(m, version));
        let w4 = chain(w3, Self::spec_write_tags(m, version));
        assert(Self::spec_write(m, version) == w4);
        assert(written(w4) + t5 =~= written(w3) + t4);
        assert(written(w3) + t4 =~= written(w2) + t3);
        assert(written(w2) + t3 =~= written(w1) + t2);
        assert(written(w1) + t2 =~= written(w0) + t1);
        Self::lemma_round_trip_node_id(m, version, t1);
        Self::lemma_round_trip_host(m, version, t2);
        Self::lemma_round_trip_port(m, version, t3);
        Self::lemma_round_trip_rack(m, version, t4);
        Self::lemma_round_trip_tags(m, version, t5);
    }

    /// The default message holds the default value of each field of the schema.
    pub proof fn lemma_default_values()
        ensures
            Self::default_view().node_id == (0_i32),
            Self::default_view().host.len() == 0,
            Self::default_view().port == (0_i32),
            (Self::default_view().rack is None),
            Self::default_view().unknown_tagged_fields.len() == 0,
    {
    }

    /// Each integer, boolean and identifier field is written as its standard
    /// big-endian bytes (a boolean as `1` or `0`) in the versions that carry
    /// it, and as nothing in the others; reading it takes those bytes back (any
    /// byte other than `0` reads as `true`), or gives its default value.
    pub proof fn lemma_field_encodings(m: NodeEndpointView, s: Seq<u8>, version: i16)
        ensures
            true ==> Self::spec_write_node_id(m, version) == Ok::<Seq<u8>, (Error, Seq<u8>)>(u32_bytes(m.node_id as u32)),
            true ==> Self::spec_write_port(m, version) == Ok::<Seq<u8>, (Error, Seq<u8>)>(u32_bytes(m.port as u32)),
            true ==> Self::spec_read_node_id(s, version) == spec_read_i32(s),
            true ==> Self::spec_read_port(s, version) == spec_read_i32(s),
    {
        reveal(NodeEndpoint::spec_write_node_id);
        reveal(NodeEndpoint::spec_read_node_id);
        reveal(NodeEndpoint::spec_write_port);
        reveal(NodeEndpoint::spec_read_port);
    }

    /// Whether writing `m` in `version` succeeds, said over its parts: the
    /// version is one the schema covers, every field that the version cannot
    /// carry holds its default value, and every string, byte string, array and
    /// tagged field fits its length prefix.
    pub open spec fn writable(m: NodeEndpointView, version: i16) -> bool {
        &&& m.host.len() <= 0x7fff
        &&& (m.rack matches Some(b) ==> b.len() <= 0x7fff)
        &&& m.unknown_tagged_fields.len() <= u32::MAX && tags_fit(m.unknown_tagged_fields)
    }

    proof fn lemma_writable_node_id(m: NodeEndpointView, version: i16)
        ensures
            Self::spec_write_node_id(m, version) is Ok <==> true,
    {
        reveal(NodeEndpoint::spec_write_node_id);
    }

    proof fn lemma_writable_host(m: NodeEndpointView, version: i16)
        ensures
            Self::spec_write_host(m, version) is Ok <==> m.host.len() <= 0x7fff,
    {
        reveal(NodeEndpoint::spec_write_host);
    }

    proof fn lemma_writable_port(m: NodeEndpointView, version: i16)
        ensures
            Self::spec_write_port(m, version) is Ok <==> true,
    {
        reveal(NodeEndpoint::spec_write_port);
    }

    proof fn lemma_writable_rack(m: NodeEndpointView, version: i16)
        ensures
            Self::spec_write_rack(m, version) is Ok <==> (m.rack matches Some(b) ==> b.len() <= 0x7fff),
    {
        reveal(NodeEndpoint::spec_write_rack);
    }

    proof fn lemma_writable_tags(m: NodeEndpointView, version: i16)
        ensures
            Self::spec_write_tags(m, version) is Ok <==> m.unknown_tagged_fields.len() <= u32::MAX && tags_fit(m.unknown_tagged_fields),
    {
        reveal(NodeEndpoint::spec_write_tags);
        lemma_sorted_tags_fit(m.unknown_tagged_fields);
        lemma_tagged_fields_writable(sorted_by_tag(m.unknown_tagged_fields));
    }

    /// Writing `m` in `version` succeeds exactly when `m` is writable in it;
    /// so do `write` and `encoded_len`, whose results follow `spec_write`.
    #[verifier::rlimit(60)]
    pub proof fn lemma_writable(m: NodeEndpointView, version: i16)
        ensures
            Self::spec_write(m, version) is Ok <==> Self::writable(m, version),
    {
        Self::lemma_writable_node_id(m, version);
        Self::lemma_writable_host(m, version);
        Self::lemma_writable_port(m, version);
        Self::lemma_writable_rack(m, version);
        Self::lemma_writable_tags(m, version);
    }

    fn read_node_id(buf: &mut Bytes, version: i16) -> (r: Result<i32, Error>)
        ensures
            read_as(Self::spec_read_node_id(bytes_seq(*old(buf)), version), *final(buf), r),
            took_front(*old(buf), *final(buf)),
    {
        proof {
            reveal(NodeEndpoint::spec_read_node_id);
        }
        Ok(read_i32(buf)?)
    }

    fn read_host(buf: &mut Bytes, version: i16) -> (r: Result<KafkaString, Error>)
        ensures
            read_as(Self::spec_read_host(bytes_seq(*old(buf)), version), *final(buf), r),
            took_front(*old(buf), *final(buf)),
    {
        proof {
            reveal(NodeEndpoint::spec_read_host);
        }
        Ok(read_compact_string(buf)?)
    }

    fn read_port(buf: &mut Bytes, version: i16) -> (r: Result<i32, Error>)
        ensures
            read_as(Self::spec_read_port(bytes_seq(*old(buf)), version), *final(buf), r),
            took_front(*old(buf), *final(buf)),
    {
        proof {
            reveal(NodeEndpoint::spec_read_port);
        }
        Ok(read_i32(buf)?)
    }

    fn read_rack(buf: &mut Bytes, version: i16) -> (r: Result<Option<KafkaString>, Error>)
        ensures
            read_opt_as(Self::spec_read_rack(bytes_seq(*old(buf)), version), *final(buf), r),
            took_front(*old(buf), *final(buf)),
    {
        proof {
            reveal(NodeEndpoint::spec_read_rack);
        }
        Ok(read_compact_nullable_string(buf)?)
    }

    fn read_tags(buf: &mut Bytes, version: i16) -> (r: Result<Vec<RawTaggedField>, Error>)
        ensures
            read_vec_as(Self::spec_read_tags(bytes_seq(*old(buf)), version), *final(buf), r),
            took_front(*old(buf), *final(buf)),
    {
        proof {
            reveal(NodeEndpoint::spec_read_tags);
        }
        Ok(read_tagged_fields(buf)?)
    }

    pub fn read(buf: &mut Bytes, version: i16) -> (r: Result<Self, Error>)
        ensures
            read_as(Self::spec_read(bytes_seq(*old(buf)), version), *final(buf), r),
            took_front(*old(buf), *final(buf)),
    {
        let node_id = Self::read_node_id(buf, version)?;
        let host = Self::read_host(buf, version)?;
        let port = Self::read_port(buf, version)?;
        let rack = Self::read_rack(buf, version)?;
        let _unknown_tagged_fields = Self::read_tags(buf, version)?;
        Ok(NodeEndpoint {
                node_id: node_id,
                host: host,
                port: port,
                rack: rack,
                _unknown_tagged_fields: _unknown_tagged_fields,
        })
    }

    #[verifier::rlimit(80)]
    pub fn write(&self, buf: &mut BytesMut, version: i16) -> (r: Result<(), Error>)
        requires
            has_room(Self::spec_write(self@, version), *old(buf)),
        ensures
            wrote(Self::spec_write(self@, version), *old(buf), *final(buf), r),
    {
        let ghost m = self@;
        proof {
            reveal(NodeEndpoint::spec_write_node_id);
            reveal(NodeEndpoint::spec_write_host);
            reveal(NodeEndpoint::spec_write_port);
            reveal(NodeEndpoint::spec_write_rack);
            reveal(NodeEndpoint::spec_write_tags);
        }
        let ghost s0 = Self::spec_write_node_id(m, version);
        let ghost w0 = s0;
        let ghost s1 = Self::spec_write_host(m, version);
        let ghost w1 = chain(w0, s1);
        let ghost s2 = Self::spec_write_port(m, version);
        let ghost w2 = chain(w1, s2);
        let ghost s3 = Self::spec_write_rack(m, version);
        let ghost w3 = chain(w2, s3);
        let ghost s4 = Self::spec_write_tags(m, version);
        let ghost w4 = chain(w3, s4);
        assert(Self::spec_write(m, version) == w4);
        assert(written(w3).len() <= written(w4).len() && (w3 is Err ==> w4 == w3));
        assert(written(w2).len() <= written(w4).len() && (w2 is Err ==> w4 == w2));
        assert(written(w1).len() <= written(w4).len() && (w1 is Err ==> w4 == w1));
        assert(written(w0).len() <= written(w4).len() && (w0 is Err ==> w4 == w0));
        let ghost mid = bytes_mut_seq(*buf);
        proof {
            lemma_append_empty(mid);
        }
        let r0 = {
            write_i32(buf, self.node_id);
            Ok(())
        };
        assert(bytes_mut_seq(*buf) == mid + written(s0));
        if r0.is_err() {
            return r0;
        }
        let ghost mid = bytes_mut_seq(*buf);
        proof {
            lemma_append_empty(mid);
        }
        let r1 = write_compact_string(buf, &self.host);
        assert(bytes_mut_seq(*buf) == mid + written(s1));
        proof {
            lemma_step(bytes_mut_seq(*old(buf)), w0, s1);
        }
        if r1.is_err() {
            return r1;
        }
        let ghost mid = bytes_mut_seq(*buf);
        proof {
            lemma_append_empty(mid);
        }
        let r2 = {
            write_i32(buf, self.port);
            Ok(())
        };
        assert(bytes_mut_seq(*buf) == mid + written(s2));
        proof {
            lemma_step(bytes_mut_seq(*old(buf)), w1, s2);
        }
        if r2.is_err() {
            return r2;
        }
        let ghost mid = bytes_mut_seq(*buf);
        proof {
            lemma_append_empty(mid);
        }
        let r3 = write_compact_nullable_string(buf, &self.rack);
        assert(bytes_mut_seq(*buf) == mid + written(s3));
        proof {
            lemma_step(bytes_mut_seq(*old(buf)), w2, s3);
        }
        if r3.is_err() {
            return r3;
        }
        let ghost mid = bytes_mut_seq(*buf);
        proof {
            lemma_append_empty(mid);
        }
        let r4 = write_tagged_fields(buf, &sort_by_tag(&self._unknown_tagged_fields));
        assert(bytes_mut_seq(*buf) == mid + written(s4));
        proof {
            lemma_step(bytes_mut_seq(*old(buf)), w3, s4);
        }
        if r4.is_err() {
            return r4;
        }
        Ok(())
    }

    #[verifier::rlimit(80)]
    fn encoded_len(&self, version: i16) -> (r: Result<usize, Error>)
        ensures
            r == len_result(Self::spec_write(self@, version)),
    {
        let ghost m = self@;
        proof {
            reveal(NodeEndpoint::spec_write_node_id);
            reveal(NodeEndpoint::spec_write_host);
            reveal(NodeEndpoint::spec_write_port);
            reveal(NodeEndpoint::spec_write_rack);
            reveal(NodeEndpoint::spec_write_tags);
        }
        let ghost s0 = Self::spec_write_node_id(m, version);
        let ghost w0 = s0;
        let ghost s1 = Self::spec_write_host(m, version);
        let ghost w1 = chain(w0, s1);
        let ghost s2 = Self::spec_write_port(m, version);
        let ghost w2 = chain(w1, s2);
        let ghost s3 = Self::spec_write_rack(m, version);
        let ghost w3 = chain(w2, s3);
        let ghost s4 = Self::spec_write_tags(m, version);
        let ghost w4 = chain(w3, s4);
        assert(Self::spec_write(m, version) == w4);
        assert(w3 is Err ==> w4 == w3);
        assert(w2 is Err ==> w4 == w2);
        assert(w1 is Err ==> w4 == w1);
        assert(w0 is Err ==> w4 == w0);
        let mut len: usize = 0;
        let l0 = Ok(4);
        assert(l0 == len_result(s0));
        let n0 = match l0 {
            Ok(n) => n,
            Err(e) => {
                return Err(e);
            },
        };
        len = saturating_sum(len, n0);
        assert(w0 is Ok && len == saturate(written(w0).len() as int));
        let l1 = compact_string_len(&self.host);
        assert(l1 == len_result(s1));
        let n1 = match l1 {
            Ok(n) => n,
            Err(e) => {
                return Err(e);
            },
        };
        proof {
            lemma_len_step(w0, s1, n1);
        }
        len = saturating_sum(len, n1);
        assert(w1 is Ok && len == saturate(written(w1).len() as int));
        let l2 = Ok(4);
        assert(l2 == len_result(s2));
        let n2 = match l2 {
            Ok(n) => n,
            Err(e) => {
                return Err(e);
            },
        };
        proof {
            lemma_len_step(w1, s2, n2);
        }
        len = saturating_sum(len, n2);
        assert(w2 is Ok && len == saturate(written(w2).len() as int));
        let l3 = compact_nullable_string_len(&self.rack);
        assert(l3 == len_result(s3));
        let n3 = match l3 {
            Ok(n) => n,
            Err(e) => {
                return Err(e);
            },
        };
        proof {
            lemma_len_step(w2, s3, n3);
        }
        len = saturating_sum(len, n3);
        assert(w3 is Ok && len == saturate(written(w3).len() as int));
        let l4 = tagged_fields_len(&sort_by_tag(&self._unknown_tagged_fields));
        assert(l4 == len_result(s4));
        let n4 = match l4 {
            Ok(n) => n,
            Err(e) => {
                return Err(e);
            },
        };
        proof {
            lemma_len_step(w3, s4, n4);
        }
        len = saturating_sum(len, n4);
        assert(w4 is Ok && len == saturate(written(w4).len() as int));
        Ok(len)
    }
}

impl Codec for FetchableTopicResponse {
    type Item = FetchableTopicResponse;

    open spec fn spec_read_item(s: Seq<u8>, version: i16) -> ReadOutcome<FetchableTopicResponseView> {
        FetchableTopicResponse::spec_read(s, version)
    }

    open spec fn spec_write_item(v: FetchableTopicResponseView, version: i16) -> WriteOutcome {
        FetchableTopicResponse::spec_write(v, version)
    }

    open spec fn canonical_item(v: FetchableTopicResponseView, version: i16) -> bool {
        FetchableTopicResponse::canonical(v, version)
    }

    proof fn lemma_item_round_trip(v: FetchableTopicResponseView, version: i16, rest: Seq<u8>) {
        FetchableTopicResponse::lemma_round_trip(v, version, rest);
    }

    open spec fn writable_item(v: FetchableTopicResponseView, version: i16) -> bool {
        FetchableTopicResponse::writable(v, version)
    }

    proof fn lemma_item_writable(v: FetchableTopicResponseView, version: i16) {
        FetchableTopicResponse::lemma_writable(v, version);
    }

    fn read_item(buf: &mut Bytes, version: i16) -> (r: Result<FetchableTopicResponse, Error>) {
        FetchableTopicResponse::read(buf, version)
    }

    fn write_item(item: &FetchableTopicResponse, buf: &mut BytesMut, version: i16) -> (r: Result<(), Error>) {
        item.write(buf, version)
    }
}

impl Codec for PartitionData {
    type Item = PartitionData;

    open spec fn spec_read_item(s: Seq<u8>, version: i16) -> ReadOutcome<PartitionDataView> {
        PartitionData::spec_read(s, version)
    }

    open spec fn spec_write_item(v: PartitionDataView, version: i16) -> WriteOutcome {
        PartitionData::spec_write(v, version)
    }

    open spec fn canonical_item(v: PartitionDataView, version: i16) -> bool {
        PartitionData::canonical(v, version)
    }

    proof fn lemma_item_round_trip(v: PartitionDataView, version: i16, rest: Seq<u8>) {
        PartitionData::lemma_round_trip(v, version, rest);
    }

    open spec fn writable_item(v: PartitionDataView, version: i16) -> bool {
        PartitionData::writable(v, version)
    }

    proof fn lemma_item_writable(v: PartitionDataView, version: i16) {
        PartitionData::lemma_writable(v, version);
    }

    fn read_item(buf: &mut Bytes, version: i16) -> (r: Result<PartitionData, Error>) {
        PartitionData::read(buf, version)
    }

    fn write_item(item: &PartitionData, buf: &mut BytesMut, version: i16) -> (r: Result<(), Error>) {
        item.write(buf, version)
    }
}

impl Codec for AbortedTransaction {
    type Item = AbortedTransaction;

    open spec fn spec_read_item(s: Seq<u8>, version: i16) -> ReadOutcome<AbortedTransactionView> {
        AbortedTransaction::spec_read(s, version)
    }

    open spec fn spec_write_item(v: AbortedTransactionView, version: i16) -> WriteOutcome {
        AbortedTransaction::spec_write(v, version)
    }

    open spec fn canonical_item(v: AbortedTransactionView, version: i16) -> bool {
        AbortedTransaction::canonical(v, version)
    }

    proof fn lemma_item_round_trip(v: AbortedTransactionView, version: i16, rest: Seq<u8>) {
        AbortedTransaction::lemma_round_trip(v, version, rest);
    }

    open spec fn writable_item(v: AbortedTransactionView, version: i16) -> bool {
        AbortedTransaction::writable(v, version)
    }

    proof fn lemma_item_writable(v: AbortedTransactionView, version: i16) {
        AbortedTransaction::lemma_writable(v, version);
    }

    fn read_item(buf: &mut Bytes, version: i16) -> (r: Result<AbortedTransaction, Error>) {
        AbortedTransaction::read(buf, version)
    }

    fn write_item(item: &AbortedTransaction, buf: &mut BytesMut, version: i16) -> (r: Result<(), Error>) {
        item.write(buf, version)
    }
}

impl Codec for NodeEndpoint {
    type Item = NodeEndpoint;

    open spec fn spec_read_item(s: Seq<u8>, version: i16) -> ReadOutcome<NodeEndpointView> {
        NodeEndpoint::spec_read(s, version)
    }

    open spec fn spec_write_item(v: NodeEndpointView, version: i16) -> WriteOutcome {
        NodeEndpoint::spec_write(v, version)
    }

    open spec fn canonical_item(v: NodeEndpointView, version: i16) -> bool {
        NodeEndpoint::canonical(v, version)
    }

    proof fn lemma_item_round_trip(v: NodeEndpointView, version: i16, rest: Seq<u8>) {
        NodeEndpoint::lemma_round_trip(v, version, rest);
    }

    open spec fn writable_item(v: NodeEndpointView, version: i16) -> bool {
        NodeEndpoint::writable(v, version)
    }

    proof fn lemma_item_writable(v: NodeEndpointView, version: i16) {
        NodeEndpoint::lemma_writable(v, version);
    }

    fn read_item(buf: &mut Bytes, version: i16) -> (r: Result<NodeEndpoint, Error>) {
        NodeEndpoint::read(buf, version)
    }

    fn write_item(item: &NodeEndpoint, buf: &mut BytesMut, version: i16) -> (r: Result<(), Error>) {
        item.write(buf, version)
    }
}

impl MeasuredCodec for NodeEndpoint {
    fn item_len(item: &NodeEndpoint, version: i16) -> (r: Result<usize, Error>) {
        item.encoded_len(version)
    }
}

} // verus!
