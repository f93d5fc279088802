//! The fetch snapshot response message.
use crate::buffer::{bytes_mut_freeze, bytes_mut_new, bytes_mut_seq, bytes_seq};
use crate::codec::{Codec, MeasuredCodec, all_canonical, all_writable, array_len, lemma_array_round_trip, lemma_array_writable, read_array, saturating_sum, spec_read_array, spec_write_array, write_array};
use crate::error::{Error, UnsupportedVersion};
use crate::ints::{lemma_i16_roundtrip, lemma_i32_roundtrip, lemma_i64_roundtrip, lemma_u16_roundtrip, read_i16, read_i32, read_i64, read_u16, spec_read_i16, spec_read_i32, spec_read_i64, spec_read_u16, spec_write_i16, spec_write_i32, spec_write_i64, spec_write_u16, u16_bytes, u32_bytes, u64_bytes, write_i16, write_i32, write_i64, write_u16};
use crate::strings::{compact_string_len, lemma_compact_nullable_bytes_round_trip, lemma_compact_string_round_trip, read_compact_nullable_bytes, read_compact_string, spec_read_compact_nullable_bytes, spec_read_compact_string, spec_write_compact_nullable_bytes, spec_write_compact_string, write_compact_nullable_bytes, write_compact_string};
use crate::tagged::{append_fields, insert_pos, lemma_insert_pos_after, lemma_insert_pos_bounds, lemma_sorted_by_tag_in_order, lemma_sorted_by_tag_len, lemma_sorted_by_tag_members, lemma_sorted_tags_fit, lemma_tagged_fields_round_trip, lemma_tagged_fields_writable, lemma_tags_fit_concat, lemma_tags_fit_single, lemma_tags_in_order_drop_last, read_tagged_fields, sort_by_tag, sorted_by_tag, spec_read_tagged_fields, spec_write_tagged_fields, tag_entry, tagged_fields_len, tags_fit, tags_in_order, write_tagged_fields};
use crate::types::{KafkaString, RawTaggedField};
use crate::wire::{ReadOutcome, ViewClone, WriteOutcome, chain, clone_vec, empty_vec, fail, has_room, lemma_append_empty, lemma_chain_written, lemma_len_step, lemma_step, len_result, opt_bytes_view, read_as, read_opt_bytes_as, read_vec_as, saturate, took_front, views, written, wrote};
use bytes::{Bytes, BytesMut};
use vstd::prelude::*;

verus! {

broadcast use {crate::wire::lemma_chain_written, crate::wire::lemma_took_front_nothing, crate::wire::lemma_took_front_twice};

#[derive(Debug, PartialEq)]
pub struct FetchSnapshotResponseData {
    /// The duration in milliseconds for which the request was throttled due to a quota violation,
    /// or zero if the request did not violate any quota.
    pub throttle_time_ms: i32,
    /// The top level response error code.
    pub error_code: i16,
    /// The topics to fetch.
    pub topics: Vec<TopicSnapshot>,
    /// Endpoints for all current-leaders enumerated in PartitionSnapshot.
    pub node_endpoints: Vec<NodeEndpoint>,
    pub _unknown_tagged_fields: Vec<RawTaggedField>,
}

/// What a `FetchSnapshotResponseData` holds, as the specification sees it.
#[verifier::ext_equal]
pub struct FetchSnapshotResponseDataView {
    pub throttle_time_ms: i32,
    pub error_code: i16,
    pub topics: Seq<TopicSnapshotView>,
    pub node_endpoints: Seq<NodeEndpointView>,
    pub unknown_tagged_fields: Seq<(u32, Seq<u8>)>,
}

impl View for FetchSnapshotResponseData {
    type V = FetchSnapshotResponseDataView;

    open spec fn view(&self) -> FetchSnapshotResponseDataView {
        FetchSnapshotResponseDataView {
            throttle_time_ms: self.throttle_time_ms,
            error_code: self.error_code,
            topics: views(self.topics@),
            node_endpoints: views(self.node_endpoints@),
            unknown_tagged_fields: views(self._unknown_tagged_fields@),
        }
    }
}

impl Clone for FetchSnapshotResponseData {
    fn clone(&self) -> (r: Self)
        ensures
            r@ == self@,
    {
        let r = FetchSnapshotResponseData {
            throttle_time_ms: self.throttle_time_ms,
            error_code: self.error_code,
            topics: clone_vec(&self.topics),
            node_endpoints: clone_vec(&self.node_endpoints),
            _unknown_tagged_fields: clone_vec(&self._unknown_tagged_fields),
        };
        assert(r@ =~= self@);
        r
    }
}

impl ViewClone for FetchSnapshotResponseData {
    fn clone_view(&self) -> (r: Self) {
        self.clone()
    }
}

impl Default for FetchSnapshotResponseData {
    fn default() -> (r: Self)
        ensures
            r@ == Self::default_view(),
    {
        let r = FetchSnapshotResponseData {
            throttle_time_ms: 0_i32,
            error_code: 0_i16,
            topics: empty_vec(),
            node_endpoints: empty_vec(),
            _unknown_tagged_fields: empty_vec(),
        };
        assert(r@ =~= Self::default_view());
        r
    }
}

impl FetchSnapshotResponseData {
    pub open spec fn default_view() -> FetchSnapshotResponseDataView {
        FetchSnapshotResponseDataView {
            throttle_time_ms: 0_i32,
            error_code: 0_i16,
            topics: Seq::empty(),
            node_endpoints: Seq::empty(),
            unknown_tagged_fields: Seq::empty(),
        }
    }

    /// The `throttle_time_ms` field, read from the front of `s`.
    #[verifier::opaque]
    pub open spec fn spec_read_throttle_time_ms(s: Seq<u8>, version: i16) -> ReadOutcome<i32> {
        spec_read_i32(s)
    }

    /// The `error_code` field, read from the front of `s`.
    #[verifier::opaque]
    pub open spec fn spec_read_error_code(s: Seq<u8>, version: i16) -> ReadOutcome<i16> {
        spec_read_i16(s)
    }

    /// The `topics` field, read from the front of `s`.
    #[verifier::opaque]
    pub open spec fn spec_read_topics(s: Seq<u8>, version: i16) -> ReadOutcome<Seq<TopicSnapshotView>> {
        spec_read_array::<TopicSnapshot>(s, version, true)
    }

    pub open spec fn spec_read(s: Seq<u8>, version: i16) -> ReadOutcome<FetchSnapshotResponseDataView> {
        if version < 0 || version > 1 {
            Err(Error::UnsupportedVersion(UnsupportedVersion { api_key: 59, version }))
        } else {
            match (Self::spec_read_throttle_time_ms(s, version)) {
                Err(e) => Err(e),
                Ok((throttle_time_ms, s)) => match (Self::spec_read_error_code(s, version)) {
                    Err(e) => Err(e),
                    Ok((error_code, s)) => match (Self::spec_read_topics(s, version)) {
                        Err(e) => Err(e),
                        Ok((topics, s)) => match (spec_read_tagged_fields(s)) {
                            Err(e) => Err(e),
                            Ok((tags, s)) => match (match (Self::spec_apply_tags(tags, version)) {
                                    Err(e) => Err(e),
                                    Ok(k) => Ok((k, s)),
                            }) {
                                Err(e) => Err(e),
                                Ok(((node_endpoints, unknown_tagged_fields), s)) => Ok((FetchSnapshotResponseDataView {
                                            throttle_time_ms: throttle_time_ms,
                                            error_code: error_code,
                                            topics: topics,
                                            node_endpoints: node_endpoints,
                                            unknown_tagged_fields: unknown_tagged_fields,
                                        }, s)),
                            },
                        },
                    },
                },
            }
        }
    }

    /// What writing the `throttle_time_ms` field of `m` appends.
    #[verifier::opaque]
    pub open spec fn spec_write_throttle_time_ms(m: FetchSnapshotResponseDataView, version: i16) -> WriteOutcome {
        spec_write_i32(m.throttle_time_ms)
    }

    /// What writing the `error_code` field of `m` appends.
    #[verifier::opaque]
    pub open spec fn spec_write_error_code(m: FetchSnapshotResponseDataView, version: i16) -> WriteOutcome {
        spec_write_i16(m.error_code)
    }

    /// What writing the `topics` field of `m` appends.
    #[verifier::opaque]
    pub open spec fn spec_write_topics(m: FetchSnapshotResponseDataView, version: i16) -> WriteOutcome {
        spec_write_array::<TopicSnapshot>(m.topics, version, true)
    }

    /// What writing the tagged fields of `m` appends.
    #[verifier::opaque]
    pub open spec fn spec_write_tags(m: FetchSnapshotResponseDataView, version: i16) -> WriteOutcome {
        match (Self::spec_known_tags(m, version)) {
            Err(e) => fail(e),
            Ok(k) => spec_write_tagged_fields(sorted_by_tag(k + m.unknown_tagged_fields)),
        }
    }

    pub open spec fn spec_write(m: FetchSnapshotResponseDataView, version: i16) -> WriteOutcome {
        if version < 0 || version > 1 {
            fail(Error::UnsupportedVersion(UnsupportedVersion { api_key: 59, version }))
        } else {
            chain(
                chain(
                    chain(
                        Self::spec_write_throttle_time_ms(m, version),
                        Self::spec_write_error_code(m, version),
                    ),
                    Self::spec_write_topics(m, version),
                ),
                Self::spec_write_tags(m, version),
            )
        }
    }

    /// Whether reading back what writing `m` in `version` appends gives `m`:
    /// fields that the version does not carry hold their default values, and
    /// tagged fields come in the order in which they are written.
    pub open spec fn canonical(m: FetchSnapshotResponseDataView, version: i16) -> bool {
        &&& all_canonical::<TopicSnapshot>(m.topics, version)
        &&& (if version >= 1 && m.node_endpoints.len() != 0 {
                all_canonical::<NodeEndpoint>(m.node_endpoints, version)
            } else {
                m.node_endpoints.len() == 0
        })
        &&& (tags_in_order(m.unknown_tagged_fields) && forall|i: int| 0 <= i < m.unknown_tagged_fields.len() ==> !#[trigger] Self::is_known_tag(m.unknown_tagged_fields[i].0))
    }

    proof fn lemma_round_trip_throttle_time_ms(m: FetchSnapshotResponseDataView, version: i16, rest: Seq<u8>)
        requires
            Self::canonical(m, version),
            Self::spec_write_throttle_time_ms(m, version) is Ok,
        ensures
            Self::spec_read_throttle_time_ms(written(Self::spec_write_throttle_time_ms(m, version)) + rest, version) == Ok::<(i32, Seq<u8>), Error>((m.throttle_time_ms, rest)),
    {
        reveal(FetchSnapshotResponseData::spec_read_throttle_time_ms);
        reveal(FetchSnapshotResponseData::spec_write_throttle_time_ms);
        lemma_i32_roundtrip(m.throttle_time_ms, rest);
    }

    proof fn lemma_round_trip_error_code(m: FetchSnapshotResponseDataView, version: i16, rest: Seq<u8>)
        requires
            Self::canonical(m, version),
            Self::spec_write_error_code(m, version) is Ok,
        ensures
            Self::spec_read_error_code(written(Self::spec_write_error_code(m, version)) + rest, version) == Ok::<(i16, Seq<u8>), Error>((m.error_code, rest)),
    {
        reveal(FetchSnapshotResponseData::spec_read_error_code);
        reveal(FetchSnapshotResponseData::spec_write_error_code);
        lemma_i16_roundtrip(m.error_code, rest);
    }

    proof fn lemma_round_trip_topics(m: FetchSnapshotResponseDataView, version: i16, rest: Seq<u8>)
        requires
            Self::canonical(m, version),
            Self::spec_write_topics(m, version) is Ok,
        ensures
            Self::spec_read_topics(written(Self::spec_write_topics(m, version)) + rest, version) == Ok::<(Seq<TopicSnapshotView>, Seq<u8>), Error>((m.topics, rest)),
    {
        reveal(FetchSnapshotResponseData::spec_read_topics);
        reveal(FetchSnapshotResponseData::spec_write_topics);
        lemma_array_round_trip::<TopicSnapshot>(m.topics, version, true, rest);
    }

    proof fn lemma_apply_known_tags(m: FetchSnapshotResponseDataView, version: i16)
        requires
            Self::canonical(m, version),
            Self::spec_known_tags(m, version) is Ok,
        ensures
            tags_in_order(Self::spec_known_tags(m, version)->Ok_0),
            forall|i: int| 0 <= i < Self::spec_known_tags(m, version)->Ok_0.len() ==> #[trigger] Self::is_known_tag(Self::spec_known_tags(m, version)->Ok_0[i].0),
            Self::spec_apply_tags(Self::spec_known_tags(m, version)->Ok_0, version) == Ok::<(Seq<NodeEndpointView>, Seq<(u32, Seq<u8>)>), Error>((m.node_endpoints, Seq::empty())),
    {
        assert(Self::spec_apply_tags(Seq::empty(), version) == Ok::<(Seq<NodeEndpointView>, Seq<(u32, Seq<u8>)>), Error>((Seq::empty(), Seq::empty())));
        let e0 = if version >= 1 && m.node_endpoints.len() != 0 {
            tag_entry(0u32, spec_write_array::<NodeEndpoint>(m.node_endpoints, version, true))
        } else {
            Ok(Seq::empty())
        };
        let k0 = e0->Ok_0;
        let p0 = k0;
        if version >= 1 && m.node_endpoints.len() != 0 {
            lemma_array_round_trip::<NodeEndpoint>(m.node_endpoints, version, true, Seq::<u8>::empty());
            assert(written(spec_write_array::<NodeEndpoint>(m.node_endpoints, version, true)) + Seq::<u8>::empty() =~= written(spec_write_array::<NodeEndpoint>(m.node_endpoints, version, true)));
            assert(p0.drop_last() =~= Seq::<(u32, Seq<u8>)>::empty());
        } else {
            assert(m.node_endpoints =~= Seq::empty());
        }
        assert(tags_in_order(p0));
        assert(forall|i: int| 0 <= i < p0.len() ==> p0[i].0 <= 0u32);
        assert(forall|i: int| 0 <= i < p0.len() ==> #[trigger] Self::is_known_tag(p0[i].0));
        assert(Self::spec_apply_tags(p0, version) == Ok::<(Seq<NodeEndpointView>, Seq<(u32, Seq<u8>)>), Error>((m.node_endpoints, Seq::empty())));
        assert(Self::spec_known_tags(m, version)->Ok_0 =~= p0);
    }

    proof fn lemma_apply_tags_append(st: (Seq<NodeEndpointView>, Seq<(u32, Seq<u8>)>), a: Seq<(u32, Seq<u8>)>, b: Seq<(u32, Seq<u8>)>, version: i16)
        ensures
            Self::spec_apply_tags_from(st, a + b, version) == (match Self::spec_apply_tags_from(st, a, version) {
            Err(e) => Err(e),
            Ok(s2) => Self::spec_apply_tags_from(s2, b, version),
            }),
            decreases b.len(),
    {
        if b.len() == 0 {
            assert(a + b =~= a);
        } else {
            assert((a + b).drop_last() =~= a + b.drop_last());
            assert((a + b).last() == b.last());
            Self::lemma_apply_tags_append(st, a, b.drop_last(), version);
        }
    }

    proof fn lemma_apply_known_only(st: (Seq<NodeEndpointView>, Seq<(u32, Seq<u8>)>), us: Seq<(u32, Seq<u8>)>, b: Seq<(u32, Seq<u8>)>, version: i16)
        requires
            forall|i: int| 0 <= i < b.len() ==> #[trigger] Self::is_known_tag(b[i].0),
        ensures
            match Self::spec_apply_tags_from(st, b, version) {
            Err(e) => Self::spec_apply_tags_from((st.0, us), b, version) == Err::<(Seq<NodeEndpointView>, Seq<(u32, Seq<u8>)>), Error>(e),
            Ok(r) => r.1 == st.1 && Self::spec_apply_tags_from((st.0, us), b, version) == Ok::<(Seq<NodeEndpointView>, Seq<(u32, Seq<u8>)>), Error>((r.0, us)),
            },
            decreases b.len(),
    {
        if b.len() > 0 {
            assert(Self::is_known_tag(b[b.len() - 1].0));
            assert forall|i: int| 0 <= i < b.drop_last().len() implies #[trigger] Self::is_known_tag(b.drop_last()[i].0) by {
                assert(b.drop_last()[i] == b[i]);
                assert(Self::is_known_tag(b[i].0));
            }
            Self::lemma_apply_known_only(st, us, b.drop_last(), version);
        }
    }

    proof fn lemma_apply_sorted(k: Seq<(u32, Seq<u8>)>, u: Seq<(u32, Seq<u8>)>, version: i16)
        requires
            tags_in_order(k),
            tags_in_order(u),
            forall|i: int| 0 <= i < k.len() ==> #[trigger] Self::is_known_tag(k[i].0),
            forall|i: int| 0 <= i < u.len() ==> !#[trigger] Self::is_known_tag(u[i].0),
            Self::spec_apply_tags(k, version) is Ok,
            Self::spec_apply_tags(k, version)->Ok_0.1 == Seq::<(u32, Seq<u8>)>::empty(),
        ensures
            Self::spec_apply_tags(sorted_by_tag(k + u), version) == Ok::<(Seq<NodeEndpointView>, Seq<(u32, Seq<u8>)>), Error>((Self::spec_apply_tags(k, version)->Ok_0.0, u)),
            decreases u.len(),
    {
        let r = Self::spec_apply_tags(k, version)->Ok_0;
        if u.len() == 0 {
            assert(k + u =~= k);
            lemma_sorted_by_tag_in_order(k);
            assert(u =~= Seq::<(u32, Seq<u8>)>::empty());
        } else {
            let u1 = u.drop_last();
            let x = u.last();
            lemma_tags_in_order_drop_last(u);
            assert forall|i: int| 0 <= i < u1.len() implies !#[trigger] Self::is_known_tag(u1[i].0) by {
                assert(u1[i] == u[i]);
                assert(!Self::is_known_tag(u[i].0));
            }
            Self::lemma_apply_sorted(k, u1, version);
            let ku = k + u1;
            let t = sorted_by_tag(ku);
            assert((k + u).drop_last() =~= ku);
            assert((k + u).last() == x);
            let p = insert_pos(t, x.0);
            lemma_insert_pos_bounds(t, x.0);
            lemma_insert_pos_after(t, x.0);
            lemma_sorted_by_tag_members(ku);
            lemma_sorted_by_tag_len(ku);
            let head = t.subrange(0, p);
            let tail = t.subrange(p, t.len() as int);
            assert forall|i: int| 0 <= i < tail.len() implies #[trigger] Self::is_known_tag(tail[i].0) by {
                let y = t[p + i];
                assert(tail[i] == y);
                assert(y.0 > x.0);
                assert(ku.contains(y));
                let j = choose|j: int| 0 <= j < ku.len() && ku[j] == y;
                if j >= k.len() {
                    assert(u[j - k.len()] == y);
                    assert(u[j - k.len()].0 <= u[u.len() - 1].0);
                    assert(false);
                } else {
                    assert(k[j] == y);
                    assert(Self::is_known_tag(k[j].0));
                }
            }
            assert(t =~= head + tail);
            assert(sorted_by_tag(k + u) =~= head.push(x) + tail);
            Self::lemma_apply_tags_append((Seq::empty(), Seq::empty()), head, tail, version);
            Self::lemma_apply_tags_append((Seq::empty(), Seq::empty()), head.push(x), tail, version);
            let sa = Self::spec_apply_tags(head, version)->Ok_0;
            assert(head.push(x).drop_last() =~= head);
            assert(!Self::is_known_tag(x.0)) by {
                assert(u[u.len() - 1] == x);
            }
            Self::lemma_apply_known_only(sa, sa.1.push(x), tail, version);
            assert(u1.push(x) =~= u);
        }
    }

    /// The tagged fields that a flexible version writes: each known one that
    /// the version carries and that does not hold its default value, in the
    /// order of the tags, merged by tag with the unknown ones.
    pub proof fn lemma_tag_section(m: FetchSnapshotResponseDataView, version: i16)
        ensures
            Self::spec_write_tags(m, version) == (match Self::spec_known_tags(m, version) {
            Err(e) => fail(e),
            Ok(k) => spec_write_tagged_fields(sorted_by_tag(k + m.unknown_tagged_fields)),
            }),
            Self::spec_known_tags(m, version) is Ok ==> Self::spec_known_tags(m, version)->Ok_0 == (if version >= 1 && m.node_endpoints.len() != 0 { seq![(0u32, written(spec_write_array::<NodeEndpoint>(m.node_endpoints, version, true)))] } else { Seq::<(u32, Seq<u8>)>::empty() }),
    {
        reveal(FetchSnapshotResponseData::spec_write_tags);
        if Self::spec_known_tags(m, version) is Ok {
            assert(Self::spec_known_tags(m, version)->Ok_0 =~= (if version >= 1 && m.node_endpoints.len() != 0 {
                        seq![(0u32, written(spec_write_array::<NodeEndpoint>(m.node_endpoints, version, true)))]
                    } else {
                        Seq::<(u32, Seq<u8>)>::empty()
            }));
        }
    }

    proof fn lemma_round_trip_tags(m: FetchSnapshotResponseDataView, version: i16, rest: Seq<u8>)
        requires
            Self::canonical(m, version),
            Self::spec_write_tags(m, version) is Ok,
        ensures
            spec_read_tagged_fields(written(Self::spec_write_tags(m, version)) + rest) matches Ok((tags, r2)) && r2 == rest && Self::spec_apply_tags(tags, version) == Ok::<(Seq<NodeEndpointView>, Seq<(u32, Seq<u8>)>), Error>((m.node_endpoints, m.unknown_tagged_fields)),
    {
        reveal(FetchSnapshotResponseData::spec_write_tags);
        let k = Self::spec_known_tags(m, version)->Ok_0;
        Self::lemma_apply_known_tags(m, version);
        Self::lemma_apply_sorted(k, m.unknown_tagged_fields, version);
        lemma_tagged_fields_round_trip(sorted_by_tag(k + m.unknown_tagged_fields), rest);
    }

    /// Reading back what writing `m` in `version` appends gives `m` again, and
    /// leaves what follows, for every canonical message whose write succeeds.
    #[verifier::rlimit(80)]
    #[verifier::spinoff_prover]
    pub proof fn lemma_round_trip(m: FetchSnapshotResponseDataView, version: i16, rest: Seq<u8>)
        requires
            Self::canonical(m, version),
            Self::spec_write(m, version) is Ok,
        ensures
            Self::spec_read(written(Self::spec_write(m, version)) + rest, version) == Ok::<(FetchSnapshotResponseDataView, Seq<u8>), Error>((m, rest)),
    {
        let b0 = written(Self::spec_write_throttle_time_ms(m, version));
        let b1 = written(Self::spec_write_error_code(m, version));
        let b2 = written(Self::spec_write_topics(m, version));
        let b3 = written(Self::spec_write_tags(m, version));
        let t4 = rest;
        let t3 = b3 + t4;
        let t2 = b2 + t3;
        let t1 = b1 + t2;
        let t0 = b0 + t1;
        let w0 = Self::spec_write_throttle_time_ms(m, version);
        let w1 = chain(w0, Self::spec_write_error_code(m, version));
        let w2 = chain(w1, Self::spec_write_topics(m, version));
        let w3 = chain(w2, Self::spec_write_tags(m, version));
        assert(Self::spec_write(m, version) == w3);
        assert(written(w3) + t4 =~= written(w2) + t3);
        assert(written(w2) + t3 =~= written(w1) + t2);
        assert(written(w1) + t2 =~= written(w0) + t1);
        Self::lemma_round_trip_throttle_time_ms(m, version, t1);
        Self::lemma_round_trip_error_code(m, version, t2);
        Self::lemma_round_trip_topics(m, version, t3);
        Self::lemma_round_trip_tags(m, version, t4);
    }

    /// In a version that does not carry `node_endpoints`, writing ignores its value.
    pub proof fn lemma_write_ignores_node_endpoints(m: FetchSnapshotResponseDataView, value: Seq<NodeEndpointView>, version: i16)
        requires
            !(version >= 1),
        ensures
            Self::spec_write((FetchSnapshotResponseDataView { node_endpoints: value, ..m }), version) == Self::spec_write(m, version),
    {
        reveal(FetchSnapshotResponseData::spec_write_throttle_time_ms);
        reveal(FetchSnapshotResponseData::spec_write_error_code);
        reveal(FetchSnapshotResponseData::spec_write_topics);
        reveal(FetchSnapshotResponseData::spec_write_tags);
    }

    /// The default message holds the default value of each field of the schema.
    pub proof fn lemma_default_values()
        ensures
            Self::default_view().throttle_time_ms == (0_i32),
            Self::default_view().error_code == (0_i16),
            Self::default_view().topics.len() == 0,
            Self::default_view().node_endpoints.len() == 0,
            Self::default_view().unknown_tagged_fields.len() == 0,
    {
    }

    /// Each integer, boolean and identifier field is written as its standard
    /// big-endian bytes (a boolean as `1` or `0`) in the versions that carry
    /// it, and as nothing in the others; reading it takes those bytes back (any
    /// byte other than `0` reads as `true`), or gives its default value.
    pub proof fn lemma_field_encodings(m: FetchSnapshotResponseDataView, s: Seq<u8>, version: i16)
        ensures
            true ==> Self::spec_write_throttle_time_ms(m, version) == Ok::<Seq<u8>, (Error, Seq<u8>)>(u32_bytes(m.throttle_time_ms as u32)),
            true ==> Self::spec_write_error_code(m, version) == Ok::<Seq<u8>, (Error, Seq<u8>)>(u16_bytes(m.error_code as u16)),
            true ==> Self::spec_read_throttle_time_ms(s, version) == spec_read_i32(s),
            true ==> Self::spec_read_error_code(s, version) == spec_read_i16(s),
    {
        reveal(FetchSnapshotResponseData::spec_write_throttle_time_ms);
        reveal(FetchSnapshotResponseData::spec_read_throttle_time_ms);
        reveal(FetchSnapshotResponseData::spec_write_error_code);
        reveal(FetchSnapshotResponseData::spec_read_error_code);
    }

    /// Whether writing `m` in `version` succeeds, said over its parts: the
    /// version is one the schema covers, every field that the version cannot
    /// carry holds its default value, and every string, byte string, array and
    /// tagged field fits its length prefix.
    pub open spec fn writable(m: FetchSnapshotResponseDataView, version: i16) -> bool {
        &&& 0 <= version <= 1
        &&& (m.topics.len() <= i32::MAX && all_writable::<TopicSnapshot>(m.topics, version))
        &&& (version >= 1 && m.node_endpoints.len() != 0 ==> (m.node_endpoints.len() <= i32::MAX && all_writable::<NodeEndpoint>(m.node_endpoints, version)) && written(spec_write_array::<NodeEndpoint>(m.node_endpoints, version, true)).len() <= isize::MAX && written(spec_write_array::<NodeEndpoint>(m.node_endpoints, version, true)).len() <= u32::MAX) && (if version >= 1 && m.node_endpoints.len() != 0 { 1int } else { 0int }) + m.unknown_tagged_fields.len() <= u32::MAX && tags_fit(m.unknown_tagged_fields)
    }

    proof fn lemma_writable_throttle_time_ms(m: FetchSnapshotResponseDataView, version: i16)
        ensures
            Self::spec_write_throttle_time_ms(m, version) is Ok <==> true,
    {
        reveal(FetchSnapshotResponseData::spec_write_throttle_time_ms);
    }

    proof fn lemma_writable_error_code(m: FetchSnapshotResponseDataView, version: i16)
        ensures
            Self::spec_write_error_code(m, version) is Ok <==> true,
    {
        reveal(FetchSnapshotResponseData::spec_write_error_code);
    }

    proof fn lemma_writable_topics(m: FetchSnapshotResponseDataView, version: i16)
        ensures
            Self::spec_write_topics(m, version) is Ok <==> (m.topics.len() <= i32::MAX && all_writable::<TopicSnapshot>(m.topics, version)),
    {
        reveal(FetchSnapshotResponseData::spec_write_topics);
        lemma_array_writable::<TopicSnapshot>(m.topics, version, true);
    }

    proof fn lemma_writable_tags(m: FetchSnapshotResponseDataView, version: i16)
        ensures
            Self::spec_write_tags(m, version) is Ok <==> (version >= 1 && m.node_endpoints.len() != 0 ==> (m.node_endpoints.len() <= i32::MAX && all_writable::<NodeEndpoint>(m.node_endpoints, version)) && written(spec_write_array::<NodeEndpoint>(m.node_endpoints, version, true)).len() <= isize::MAX && written(spec_write_array::<NodeEndpoint>(m.node_endpoints, version, true)).len() <= u32::MAX) && (if version >= 1 && m.node_endpoints.len() != 0 { 1int } else { 0int }) + m.unknown_tagged_fields.len() <= u32::MAX && tags_fit(m.unknown_tagged_fields),
    {
        reveal(FetchSnapshotResponseData::spec_write_tags);
        let k = Self::spec_known_tags(m, version);
        lemma_array_writable::<NodeEndpoint>(m.node_endpoints, version, true);
        lemma_tags_fit_single(0u32, written(spec_write_array::<NodeEndpoint>(m.node_endpoints, version, true)));
        if true {
            Self::lemma_tag_section(m, version);
            if k is Ok {
                lemma_sorted_tags_fit(k->Ok_0 + m.unknown_tagged_fields);
                lemma_tagged_fields_writable(sorted_by_tag(k->Ok_0 + m.unknown_tagged_fields));
                lemma_tags_fit_concat(k->Ok_0, m.unknown_tagged_fields);
            }
        }
    }

    /// Writing `m` in `version` succeeds exactly when `m` is writable in it;
    /// so do `write` and `encoded_len`, whose results follow `spec_write`.
    #[verifier::rlimit(54)]
    pub proof fn lemma_writable(m: FetchSnapshotResponseDataView, version: i16)
        ensures
            Self::spec_write(m, version) is Ok <==> Self::writable(m, version),
    {
        Self::lemma_writable_throttle_time_ms(m, version);
        Self::lemma_writable_error_code(m, version);
        Self::lemma_writable_topics(m, version);
        Self::lemma_writable_tags(m, version);
    }

    /// A version outside the range that the schema covers is refused, by
    /// reads and by writes alike, before anything is read or written.
    pub proof fn lemma_refused_version(m: FetchSnapshotResponseDataView, s: Seq<u8>, version: i16)
        requires
            version < 0 || version > 1,
        ensures
            Self::spec_read(s, version) == Err::<(FetchSnapshotResponseDataView, Seq<u8>), Error>(Error::UnsupportedVersion(UnsupportedVersion { api_key: 59, version })),
            Self::spec_write(m, version) == fail(Error::UnsupportedVersion(UnsupportedVersion { api_key: 59, version })),
    {
    }

    /// The known tagged fields and the unknown ones after the tagged field `f`
    /// is read: a known one replaces the value it holds, an unknown one is kept.
    pub open spec fn spec_apply_tag(st: (Seq<NodeEndpointView>, Seq<(u32, Seq<u8>)>), f: (u32, Seq<u8>), version: i16) -> Result<(Seq<NodeEndpointView>, Seq<(u32, Seq<u8>)>), Error> {
        if f.0 == 0u32 {
            if version >= 1 {
                match (spec_read_array::<NodeEndpoint>(f.1, version, true)) {
                    Err(e) => Err(e),
                    Ok((v, _)) => Ok((v, st.1)),
                }
            } else {
                Ok(st)
            }
        } else {
            Ok((st.0, st.1.push(f)))
        }
    }

    /// The known tagged fields, and the unknown ones, that reading `tags` in
    /// order gives, starting from `st`.
    pub open spec fn spec_apply_tags_from(st: (Seq<NodeEndpointView>, Seq<(u32, Seq<u8>)>), tags: Seq<(u32, Seq<u8>)>, version: i16) -> Result<(Seq<NodeEndpointView>, Seq<(u32, Seq<u8>)>), Error>
    decreases tags.len(),
    {
        if tags.len() == 0 {
            Ok(st)
        } else {
            match Self::spec_apply_tags_from(st, tags.drop_last(), version) {
                Err(e) => Err(e),
                Ok(s2) => Self::spec_apply_tag(s2, tags.last(), version),
            }
        }
    }

    /// The known tagged fields, and the unknown ones, that reading `tags` in
    /// order gives.
    pub open spec fn spec_apply_tags(tags: Seq<(u32, Seq<u8>)>, version: i16) -> Result<(Seq<NodeEndpointView>, Seq<(u32, Seq<u8>)>), Error> {
        Self::spec_apply_tags_from((Seq::empty(), Seq::empty()), tags, version)
    }

    /// Whether a tagged field with tag `t` is one of the known ones.
    pub open spec fn is_known_tag(t: u32) -> bool {
        t == 0u32
    }

    proof fn lemma_apply_tags_err(tags: Seq<(u32, Seq<u8>)>, i: int, version: i16)
        requires
            0 <= i <= tags.len(),
            Self::spec_apply_tags(tags.take(i), version) is Err,
        ensures
            Self::spec_apply_tags(tags, version) == Self::spec_apply_tags(tags.take(i), version),
            decreases tags.len() - i,
    {
        if i < tags.len() {
            assert(tags.take(i + 1).drop_last() =~= tags.take(i));
            Self::lemma_apply_tags_err(tags, i + 1, version);
        } else {
            assert(tags.take(i) =~= tags);
        }
    }

    fn apply_tags(tags: &Vec<RawTaggedField>, version: i16) -> (r: Result<(Vec<NodeEndpoint>, Vec<RawTaggedField>), Error>)
        ensures
            match Self::spec_apply_tags(views(tags@), version) {
            Err(e) => r matches Err(e2) && e2 == e,
            Ok(st) => r matches Ok(x) && views(x.0@) == st.0 && views(x.1@) == st.1,
            },
    {
        let ghost ts = views(tags@);
        let mut k_node_endpoints: Vec<NodeEndpoint> = empty_vec();
        let mut unknown: Vec<RawTaggedField> = empty_vec();
        let mut i: usize = 0;
        assert(ts.take(0) =~= Seq::<(u32, Seq<u8>)>::empty());
        while i < tags.len()
        invariant
        0 <= i <= tags.len(),
        ts == views(tags@),
        Self::spec_apply_tags(ts.take(i as int), version) == Ok::<(Seq<NodeEndpointView>, Seq<(u32, Seq<u8>)>), Error>((views(k_node_endpoints@), views(unknown@))),
        decreases tags.len() - i,
        {
            let field = &tags[i];
            proof {
                assert(ts.take(i + 1).drop_last() =~= ts.take(i as int));
                assert(ts.take(i + 1).last() == field@);
            }
            if field.tag == 0 {
                if version >= 1 {
                    let mut tag_buf = field.data.clone();
                    k_node_endpoints = match read_array::<NodeEndpoint>(&mut tag_buf, version, true) {
                        Ok(v) => v,
                        Err(e) => {
                            proof {
                                Self::lemma_apply_tags_err(ts, i + 1, version);
                            }
                            return Err(e);
                        },
                    };
                }
            } else {
                let ghost before = views(unknown@);
                unknown.push(field.clone());
                proof {
                    assert(views(unknown@) =~= before.push(field@));
                }
            }
            i = i + 1;
        }
        proof {
            assert(ts.take(tags.len() as int) =~= ts);
        }
        Ok((k_node_endpoints, unknown))
    }

    /// The known tagged fields that `m` has to write in `version`, in the
    /// order of their tags: those that do not hold their default value.
    pub open spec fn spec_known_tags(m: FetchSnapshotResponseDataView, version: i16) -> Result<Seq<(u32, Seq<u8>)>, Error> {
        match (if version >= 1 && m.node_endpoints.len() != 0 {
                tag_entry(0u32, spec_write_array::<NodeEndpoint>(m.node_endpoints, version, true))
            } else {
                Ok(Seq::empty())
        }) {
            Err(e) => Err(e),
            Ok(k0) => Ok(k0),
        }
    }

    fn known_tagged_fields(&self, version: i16) -> (r: Result<Vec<RawTaggedField>, Error>)
        ensures
            match Self::spec_known_tags(self@, version) {
            Err(e) => r matches Err(e2) && e2 == e,
            Ok(k) => r matches Ok(v) && views(v@) == k,
            },
    {
        let ghost m = self@;
        let ghost w0 = spec_write_array::<NodeEndpoint>(m.node_endpoints, version, true);
        let ghost e0 = if version >= 1 && m.node_endpoints.len() != 0 {
            tag_entry(0u32, w0)
        } else {
            Ok(Seq::empty())
        };
        let mut known: Vec<RawTaggedField> = empty_vec();
        let ghost prev0 = views(known@);
        if version >= 1 && self.node_endpoints.len() != 0 {
            let n = match array_len::<NodeEndpoint>(&self.node_endpoints, version, true) {
                Ok(n) => n,
                Err(e) => {
                    return Err(e);
                },
            };
            if n > isize::MAX as usize {
                return Err(Error::ValueTooLong);
            }
            let mut tag_buf = bytes_mut_new();
            let _: Result<(), Error> = write_array::<NodeEndpoint>(&mut tag_buf, &self.node_endpoints, version, true);
            let data = bytes_mut_freeze(tag_buf);
            assert(bytes_seq(data) =~= written(w0));
            known.push(RawTaggedField { tag: 0, data });
        }
        assert(views(known@) =~= prev0 + e0->Ok_0);
        Ok(known)
    }

    fn read_throttle_time_ms(buf: &mut Bytes, version: i16) -> (r: Result<i32, Error>)
        ensures
            read_as(Self::spec_read_throttle_time_ms(bytes_seq(*old(buf)), version), *final(buf), r),
            took_front(*old(buf), *final(buf)),
    {
        proof {
            reveal(FetchSnapshotResponseData::spec_read_throttle_time_ms);
        }
        Ok(read_i32(buf)?)
    }

    fn read_error_code(buf: &mut Bytes, version: i16) -> (r: Result<i16, Error>)
        ensures
            read_as(Self::spec_read_error_code(bytes_seq(*old(buf)), version), *final(buf), r),
            took_front(*old(buf), *final(buf)),
    {
        proof {
            reveal(FetchSnapshotResponseData::spec_read_error_code);
        }
        Ok(read_i16(buf)?)
    }

    fn read_topics(buf: &mut Bytes, version: i16) -> (r: Result<Vec<TopicSnapshot>, Error>)
        ensures
            read_vec_as(Self::spec_read_topics(bytes_seq(*old(buf)), version), *final(buf), r),
            took_front(*old(buf), *final(buf)),
    {
        proof {
            reveal(FetchSnapshotResponseData::spec_read_topics);
        }
        Ok(read_array::<TopicSnapshot>(buf, version, true)?)
    }

    pub fn read(buf: &mut Bytes, version: i16) -> (r: Result<Self, Error>)
        ensures
            read_as(Self::spec_read(bytes_seq(*old(buf)), version), *final(buf), r),
            took_front(*old(buf), *final(buf)),
            (version < 0 || version > 1) ==> bytes_seq(*final(buf)) == bytes_seq(*old(buf)),
    {
        if version < 0 || version > 1 {
            return Err(Error::UnsupportedVersion(UnsupportedVersion::new(59, version)));
        }
        let throttle_time_ms = Self::read_throttle_time_ms(buf, version)?;
        let error_code = Self::read_error_code(buf, version)?;
        let topics = Self::read_topics(buf, version)?;
        let (node_endpoints, _unknown_tagged_fields) = {
            let tags = read_tagged_fields(buf)?;
            Self::apply_tags(&tags, version)?
        };
        Ok(FetchSnapshotResponseData {
                throttle_time_ms: throttle_time_ms,
                error_code: error_code,
                topics: topics,
                node_endpoints: node_endpoints,
                _unknown_tagged_fields: _unknown_tagged_fields,
        })
    }

    #[verifier::rlimit(70)]
    pub fn write(&self, buf: &mut BytesMut, version: i16) -> (r: Result<(), Error>)
        requires
            has_room(Self::spec_write(self@, version), *old(buf)),
        ensures
            wrote(Self::spec_write(self@, version), *old(buf), *final(buf), r),
    {
        if version < 0 || version > 1 {
            return Err(Error::UnsupportedVersion(UnsupportedVersion::new(59, version)));
        }
        let ghost m = self@;
        proof {
            reveal(FetchSnapshotResponseData::spec_write_throttle_time_ms);
            reveal(FetchSnapshotResponseData::spec_write_error_code);
            reveal(FetchSnapshotResponseData::spec_write_topics);
            reveal(FetchSnapshotResponseData::spec_write_tags);
        }
        let ghost s0 = Self::spec_write_throttle_time_ms(m, version);
        let ghost w0 = s0;
        let ghost s1 = Self::spec_write_error_code(m, version);
        let ghost w1 = chain(w0, s1);
        let ghost s2 = Self::spec_write_topics(m, version);
        let ghost w2 = chain(w1, s2);
        let ghost s3 = Self::spec_write_tags(m, version);
        let ghost w3 = chain(w2, s3);
        assert(Self::spec_write(m, version) == w3);
        assert(written(w2).len() <= written(w3).len() && (w2 is Err ==> w3 == w2));
        assert(written(w1).len() <= written(w3).len() && (w1 is Err ==> w3 == w1));
        assert(written(w0).len() <= written(w3).len() && (w0 is Err ==> w3 == w0));
        let ghost mid = bytes_mut_seq(*buf);
        proof {
            lemma_append_empty(mid);
        }
        let r0 = {
            write_i32(buf, self.throttle_time_ms);
            Ok(())
        };
        assert(bytes_mut_seq(*buf) == mid + written(s0));
        if r0.is_err() {
            return r0;
        }
        let ghost mid = bytes_mut_seq(*buf);
        proof {
            lemma_append_empty(mid);
        }
        let r1 = {
            write_i16(buf, self.error_code);
            Ok(())
        };
        assert(bytes_mut_seq(*buf) == mid + written(s1));
        proof {
            lemma_step(bytes_mut_seq(*old(buf)), w0, s1);
        }
        if r1.is_err() {
            return r1;
        }
        let ghost mid = bytes_mut_seq(*buf);
        proof {
            lemma_append_empty(mid);
        }
        let r2 = write_array::<TopicSnapshot>(buf, &self.topics, version, true);
        assert(bytes_mut_seq(*buf) == mid + written(s2));
        proof {
            lemma_step(bytes_mut_seq(*old(buf)), w1, s2);
        }
        if r2.is_err() {
            return r2;
        }
        let ghost mid = bytes_mut_seq(*buf);
        proof {
            lemma_append_empty(mid);
        }
        let r3 = match self.known_tagged_fields(version) {
            Err(e) => Err(e),
            Ok(known) => {
                let all = append_fields(known, &self._unknown_tagged_fields);
                write_tagged_fields(buf, &sort_by_tag(&all))
            },
        };
        assert(bytes_mut_seq(*buf) == mid + written(s3));
        proof {
            lemma_step(bytes_mut_seq(*old(buf)), w2, s3);
        }
        if r3.is_err() {
            return r3;
        }
        Ok(())
    }
}

#[derive(Debug, PartialEq)]
pub struct TopicSnapshot {
    /// The name of the topic to fetch.
    pub name: KafkaString,
    /// The partitions to fetch.
    pub partitions: Vec<PartitionSnapshot>,
    pub _unknown_tagged_fields: Vec<RawTaggedField>,
}

/// What a `TopicSnapshot` holds, as the specification sees it.
#[verifier::ext_equal]
pub struct TopicSnapshotView {
    pub name: Seq<u8>,
    pub partitions: Seq<PartitionSnapshotView>,
    pub unknown_tagged_fields: Seq<(u32, Seq<u8>)>,
}

impl View for TopicSnapshot {
    type V = TopicSnapshotView;

    open spec fn view(&self) -> TopicSnapshotView {
        TopicSnapshotView {
            name: self.name@,
            partitions: views(self.partitions@),
            unknown_tagged_fields: views(self._unknown_tagged_fields@),
        }
    }
}

impl Clone for TopicSnapshot {
    fn clone(&self) -> (r: Self)
        ensures
            r@ == self@,
    {
        let r = TopicSnapshot {
            name: self.name.clone(),
            partitions: clone_vec(&self.partitions),
            _unknown_tagged_fields: clone_vec(&self._unknown_tagged_fields),
        };
        assert(r@ =~= self@);
        r
    }
}

impl ViewClone for TopicSnapshot {
    fn clone_view(&self) -> (r: Self) {
        self.clone()
    }
}

impl Default for TopicSnapshot {
    fn default() -> (r: Self)
        ensures
            r@ == Self::default_view(),
    {
        let r = TopicSnapshot {
            name: KafkaString::default(),
            partitions: empty_vec(),
            _unknown_tagged_fields: empty_vec(),
        };
        assert(r@ =~= Self::default_view());
        r
    }
}

impl TopicSnapshot {
    pub open spec fn default_view() -> TopicSnapshotView {
        TopicSnapshotView {
            name: Seq::empty(),
            partitions: Seq::empty(),
            unknown_tagged_fields: Seq::empty(),
        }
    }

    /// The `name` field, read from the front of `s`.
    #[verifier::opaque]
    pub open spec fn spec_read_name(s: Seq<u8>, version: i16) -> ReadOutcome<Seq<u8>> {
        spec_read_compact_string(s)
    }

    /// The `partitions` field, read from the front of `s`.
    #[verifier::opaque]
    pub open spec fn spec_read_partitions(s: Seq<u8>, version: i16) -> ReadOutcome<Seq<PartitionSnapshotView>> {
        spec_read_array::<PartitionSnapshot>(s, version, true)
    }

    /// The tagged fields, read from the front of `s`.
    #[verifier::opaque]
    pub open spec fn spec_read_tags(s: Seq<u8>, version: i16) -> ReadOutcome<Seq<(u32, Seq<u8>)>> {
        spec_read_tagged_fields(s)
    }

    pub open spec fn spec_read(s: Seq<u8>, version: i16) -> ReadOutcome<TopicSnapshotView> {
        match (Self::spec_read_name(s, version)) {
            Err(e) => Err(e),
            Ok((name, s)) => match (Self::spec_read_partitions(s, version)) {
                Err(e) => Err(e),
                Ok((partitions, s)) => match (Self::spec_read_tags(s, version)) {
                    Err(e) => Err(e),
                    Ok((unknown_tagged_fields, s)) => Ok((TopicSnapshotView {
                                name: name,
                                partitions: partitions,
                                unknown_tagged_fields: unknown_tagged_fields,
                            }, s)),
                },
            },
        }
    }

    /// What writing the `name` field of `m` appends.
    #[verifier::opaque]
    pub open spec fn spec_write_name(m: TopicSnapshotView, version: i16) -> WriteOutcome {
        spec_write_compact_string(m.name)
    }

    /// What writing the `partitions` field of `m` appends.
    #[verifier::opaque]
    pub open spec fn spec_write_partitions(m: TopicSnapshotView, version: i16) -> WriteOutcome {
        spec_write_array::<PartitionSnapshot>(m.partitions, version, true)
    }

    /// What writing the tagged fields of `m` appends.
    #[verifier::opaque]
    pub open spec fn spec_write_tags(m: TopicSnapshotView, version: i16) -> WriteOutcome {
        spec_write_tagged_fields(sorted_by_tag(m.unknown_tagged_fields))
    }

    pub open spec fn spec_write(m: TopicSnapshotView, version: i16) -> WriteOutcome {
        chain(
            chain(
                Self::spec_write_name(m, version),
                Self::spec_write_partitions(m, version),
            ),
            Self::spec_write_tags(m, version),
        )
    }

    /// Whether reading back what writing `m` in `version` appends gives `m`:
    /// fields that the version does not carry hold their default values, and
    /// tagged fields come in the order in which they are written.
    pub open spec fn canonical(m: TopicSnapshotView, version: i16) -> bool {
        &&& all_canonical::<PartitionSnapshot>(m.partitions, version)
        &&& tags_in_order(m.unknown_tagged_fields)
    }

    proof fn lemma_round_trip_name(m: TopicSnapshotView, version: i16, rest: Seq<u8>)
        requires
            Self::canonical(m, version),
            Self::spec_write_name(m, version) is Ok,
        ensures
            Self::spec_read_name(written(Self::spec_write_name(m, version)) + rest, version) == Ok::<(Seq<u8>, Seq<u8>), Error>((m.name, rest)),
    {
        reveal(TopicSnapshot::spec_read_name);
        reveal(TopicSnapshot::spec_write_name);
        lemma_compact_string_round_trip(m.name, rest);
    }

    proof fn lemma_round_trip_partitions(m: TopicSnapshotView, version: i16, rest: Seq<u8>)
        requires
            Self::canonical(m, version),
            Self::spec_write_partitions(m, version) is Ok,
        ensures
            Self::spec_read_partitions(written(Self::spec_write_partitions(m, version)) + rest, version) == Ok::<(Seq<PartitionSnapshotView>, Seq<u8>), Error>((m.partitions, rest)),
    {
        reveal(TopicSnapshot::spec_read_partitions);
        reveal(TopicSnapshot::spec_write_partitions);
        lemma_array_round_trip::<PartitionSnapshot>(m.partitions, version, true, rest);
    }

    proof fn lemma_round_trip_tags(m: TopicSnapshotView, version: i16, rest: Seq<u8>)
        requires
            Self::canonical(m, version),
            Self::spec_write_tags(m, version) is Ok,
        ensures
            Self::spec_read_tags(written(Self::spec_write_tags(m, version)) + rest, version) == Ok::<(Seq<(u32, Seq<u8>)>, Seq<u8>), Error>((m.unknown_tagged_fields, rest)),
    {
        reveal(TopicSnapshot::spec_read_tags);
        reveal(TopicSnapshot::spec_write_tags);
        lemma_sorted_by_tag_in_order(m.unknown_tagged_fields);
        lemma_tagged_fields_round_trip(m.unknown_tagged_fields, rest);
    }

    /// Reading back what writing `m` in `version` appends gives `m` again, and
    /// leaves what follows, for every canonical message whose write succeeds.
    #[verifier::rlimit(70)]
    #[verifier::spinoff_prover]
    pub proof fn lemma_round_trip(m: TopicSnapshotView, version: i16, rest: Seq<u8>)
        requires
            Self::canonical(m, version),
            Self::spec_write(m, version) is Ok,
        ensures
            Self::spec_read(written(Self::spec_write(m, version)) + rest, version) == Ok::<(TopicSnapshotView, Seq<u8>), Error>((m, rest)),
    {
        let b0 = written(Self::spec_write_name(m, version));
        let b1 = written(Self::spec_write_partitions(m, version));
        let b2 = written(Self::spec_write_tags(m, version));
        let t3 = rest;
        let t2 = b2 + t3;
        let t1 = b1 + t2;
        let t0 = b0 + t1;
        let w0 = Self::spec_write_name(m, version);
        let w1 = chain(w0, Self::spec_write_partitions(m, version));
        let w2 = chain(w1, Self::spec_write_tags(m, version));
        assert(Self::spec_write(m, version) == w2);
        assert(written(w2) + t3 =~= written(w1) + t2);
        assert(written(w1) + t2 =~= written(w0) + t1);
        Self::lemma_round_trip_name(m, version, t1);
        Self::lemma_round_trip_partitions(m, version, t2);
        Self::lemma_round_trip_tags(m, version, t3);
    }

    /// The default message holds the default value of each field of the schema.
    pub proof fn lemma_default_values()
        ensures
            Self::default_view().name.len() == 0,
            Self::default_view().partitions.len() == 0,
            Self::default_view().unknown_tagged_fields.len() == 0,
    {
    }

    /// Whether writing `m` in `version` succeeds, said over its parts: the
    /// version is one the schema covers, every field that the version cannot
    /// carry holds its default value, and every string, byte string, array and
    /// tagged field fits its length prefix.
    pub open spec fn writable(m: TopicSnapshotView, version: i16) -> bool {
        &&& m.name.len() <= 0x7fff
        &&& (m.partitions.len() <= i32::MAX && all_writable::<PartitionSnapshot>(m.partitions, version))
        &&& m.unknown_tagged_fields.len() <= u32::MAX && tags_fit(m.unknown_tagged_fields)
    }

    proof fn lemma_writable_name(m: TopicSnapshotView, version: i16)
        ensures
            Self::spec_write_name(m, version) is Ok <==> m.name.len() <= 0x7fff,
    {
        reveal(TopicSnapshot::spec_write_name);
    }

    proof fn lemma_writable_partitions(m: TopicSnapshotView, version: i16)
        ensures
            Self::spec_write_partitions(m, version) is Ok <==> (m.partitions.len() <= i32::MAX && all_writable::<PartitionSnapshot>(m.partitions, version)),
    {
        reveal(TopicSnapshot::spec_write_partitions);
        lemma_array_writable::<PartitionSnapshot>(m.partitions, version, true);
    }

    proof fn lemma_writable_tags(m: TopicSnapshotView, version: i16)
        ensures
            Self::spec_write_tags(m, version) is Ok <==> m.unknown_tagged_fields.len() <= u32::MAX && tags_fit(m.unknown_tagged_fields),
    {
        reveal(TopicSnapshot::spec_write_tags);
        lemma_sorted_tags_fit(m.unknown_tagged_fields);
        lemma_tagged_fields_writable(sorted_by_tag(m.unknown_tagged_fields));
    }

    /// Writing `m` in `version` succeeds exactly when `m` is writable in it;
    /// so do `write` and `encoded_len`, whose results follow `spec_write`.
    #[verifier::rlimit(48)]
    pub proof fn lemma_writable(m: TopicSnapshotView, version: i16)
        ensures
            Self::spec_write(m, version) is Ok <==> Self::writable(m, version),
    {
        Self::lemma_writable_name(m, version);
        Self::lemma_writable_partitions(m, version);
        Self::lemma_writable_tags(m, version);
    }

    fn read_name(buf: &mut Bytes, version: i16) -> (r: Result<KafkaString, Error>)
        ensures
            read_as(Self::spec_read_name(bytes_seq(*old(buf)), version), *final(buf), r),
            took_front(*old(buf), *final(buf)),
    {
        proof {
            reveal(TopicSnapshot::spec_read_name);
        }
        Ok(read_compact_string(buf)?)
    }

    fn read_partitions(buf: &mut Bytes, version: i16) -> (r: Result<Vec<PartitionSnapshot>, Error>)
        ensures
            read_vec_as(Self::spec_read_partitions(bytes_seq(*old(buf)), version), *final(buf), r),
            took_front(*old(buf), *final(buf)),
    {
        proof {
            reveal(TopicSnapshot::spec_read_partitions);
        }
        Ok(read_array::<PartitionSnapshot>(buf, version, true)?)
    }

    fn read_tags(buf: &mut Bytes, version: i16) -> (r: Result<Vec<RawTaggedField>, Error>)
        ensures
            read_vec_as(Self::spec_read_tags(bytes_seq(*old(buf)), version), *final(buf), r),
            took_front(*old(buf), *final(buf)),
    {
        proof {
            reveal(TopicSnapshot::spec_read_tags);
        }
        Ok(read_tagged_fields(buf)?)
    }

    pub fn read(buf: &mut Bytes, version: i16) -> (r: Result<Self, Error>)
        ensures
            read_as(Self::spec_read(bytes_seq(*old(buf)), version), *final(buf), r),
            took_front(*old(buf), *final(buf)),
    {
        let name = Self::read_name(buf, version)?;
        let partitions = Self::read_partitions(buf, version)?;
        let _unknown_tagged_fields = Self::read_tags(buf, version)?;
        Ok(TopicSnapshot {
                name: name,
                partitions: partitions,
                _unknown_tagged_fields: _unknown_tagged_fields,
        })
    }

    #[verifier::rlimit(60)]
    pub fn write(&self, buf: &mut BytesMut, version: i16) -> (r: Result<(), Error>)
        requires
            has_room(Self::spec_write(self@, version), *old(buf)),
        ensures
            wrote(Self::spec_write(self@, version), *old(buf), *final(buf), r),
    {
        let ghost m = self@;
        proof {
            reveal(TopicSnapshot::spec_write_name);
            reveal(TopicSnapshot::spec_write_partitions);
            reveal(TopicSnapshot::spec_write_tags);
        }
        let ghost s0 = Self::spec_write_name(m, version);
        let ghost w0 = s0;
        let ghost s1 = Self::spec_write_partitions(m, version);
        let ghost w1 = chain(w0, s1);
        let ghost s2 = Self::spec_write_tags(m, version);
        let ghost w2 = chain(w1, s2);
        assert(Self::spec_write(m, version) == w2);
        assert(written(w1).len() <= written(w2).len() && (w1 is Err ==> w2 == w1));
        assert(written(w0).len() <= written(w2).len() && (w0 is Err ==> w2 == w0));
        let ghost mid = bytes_mut_seq(*buf);
        proof {
            lemma_append_empty(mid);
        }
        let r0 = write_compact_string(buf, &self.name);
        assert(bytes_mut_seq(*buf) == mid + written(s0));
        if r0.is_err() {
            return r0;
        }
        let ghost mid = bytes_mut_seq(*buf);
        proof {
            lemma_append_empty(mid);
        }
        let r1 = write_array::<PartitionSnapshot>(buf, &self.partitions, version, true);
        assert(bytes_mut_seq(*buf) == mid + written(s1));
        proof {
            lemma_step(bytes_mut_seq(*old(buf)), w0, s1);
        }
        if r1.is_err() {
            return r1;
        }
        let ghost mid = bytes_mut_seq(*buf);
        proof {
            lemma_append_empty(mid);
        }
        let r2 = write_tagged_fields(buf, &sort_by_tag(&self._unknown_tagged_fields));
        assert(bytes_mut_seq(*buf) == mid + written(s2));
        proof {
            lemma_step(bytes_mut_seq(*old(buf)), w1, s2);
        }
        if r2.is_err() {
            return r2;
        }
        Ok(())
    }
}

#[derive(Debug, PartialEq)]
pub struct PartitionSnapshot {
    /// The partition index.
    pub index: i32,
    /// The error code, or 0 if there was no fetch error.
    pub error_code: i16,
    /// The snapshot endOffset and epoch fetched.
    pub snapshot_id: SnapshotId,
    /// The leader of the partition at the time of the snapshot.
    pub current_leader: LeaderIdAndEpoch,
    /// The total size of the snapshot.
    pub size: i64,
    /// The starting byte position within the snapshot included in the Bytes field.
    pub position: i64,
    /// Snapshot data in records format which may not be aligned on an offset boundary.
    pub unaligned_records: Option<Bytes>,
    pub _unknown_tagged_fields: Vec<RawTaggedField>,
}

/// What a `PartitionSnapshot` holds, as the specification sees it.
#[verifier::ext_equal]
pub struct PartitionSnapshotView {
    pub index: i32,
    pub error_code: i16,
    pub snapshot_id: SnapshotIdView,
    pub current_leader: LeaderIdAndEpochView,
    pub size: i64,
    pub position: i64,
    pub unaligned_records: Option<Seq<u8>>,
    pub unknown_tagged_fields: Seq<(u32, Seq<u8>)>,
}

impl View for PartitionSnapshot {
    type V = PartitionSnapshotView;

    open spec fn view(&self) -> PartitionSnapshotView {
        PartitionSnapshotView {
            index: self.index,
            error_code: self.error_code,
            snapshot_id: self.snapshot_id@,
            current_leader: self.current_leader@,
            size: self.size,
            position: self.position,
            unaligned_records: opt_bytes_view(self.unaligned_records),
            unknown_tagged_fields: views(self._unknown_tagged_fields@),
        }
    }
}

impl Clone for PartitionSnapshot {
    fn clone(&self) -> (r: Self)
        ensures
            r@ == self@,
    {
        let r = PartitionSnapshot {
            index: self.index,
            error_code: self.error_code,
            snapshot_id: self.snapshot_id.clone(),
            current_leader: self.current_leader.clone(),
            size: self.size,
            position: self.position,
            unaligned_records: match &self.unaligned_records {
                Some(x) => Some(x.clone()),
                None => None,
            },
            _unknown_tagged_fields: clone_vec(&self._unknown_tagged_fields),
        };
        assert(r@ =~= self@);
        r
    }
}

impl ViewClone for PartitionSnapshot {
    fn clone_view(&self) -> (r: Self) {
        self.clone()
    }
}

impl Default for PartitionSnapshot {
    fn default() -> (r: Self)
        ensures
            r@ == Self::default_view(),
    {
        let r = PartitionSnapshot {
            index: 0_i32,
            error_code: 0_i16,
            snapshot_id: SnapshotId::default(),
            current_leader: LeaderIdAndEpoch::default(),
            size: 0_i64,
            position: 0_i64,
            unaligned_records: None,
            _unknown_tagged_fields: empty_vec(),
        };
        assert(r@ =~= Self::default_view());
        r
    }
}

impl PartitionSnapshot {
    pub open spec fn default_view() -> PartitionSnapshotView {
        PartitionSnapshotView {
            index: 0_i32,
            error_code: 0_i16,
            snapshot_id: SnapshotId::default_view(),
            current_leader: LeaderIdAndEpoch::default_view(),
            size: 0_i64,
            position: 0_i64,
            unaligned_records: None,
            unknown_tagged_fields: Seq::empty(),
        }
    }

    /// The `index` field, read from the front of `s`.
    #[verifier::opaque]
    pub open spec fn spec_read_index(s: Seq<u8>, version: i16) -> ReadOutcome<i32> {
        spec_read_i32(s)
    }

    /// The `error_code` field, read from the front of `s`.
    #[verifier::opaque]
    pub open spec fn spec_read_error_code(s: Seq<u8>, version: i16) -> ReadOutcome<i16> {
        spec_read_i16(s)
    }

    /// The `snapshot_id` field, read from the front of `s`.
    #[verifier::opaque]
    pub open spec fn spec_read_snapshot_id(s: Seq<u8>, version: i16) -> ReadOutcome<SnapshotIdView> {
        SnapshotId::spec_read(s, version)
    }

    /// The `size` field, read from the front of `s`.
    #[verifier::opaque]
    pub open spec fn spec_read_size(s: Seq<u8>, version: i16) -> ReadOutcome<i64> {
        spec_read_i64(s)
    }

    /// The `position` field, read from the front of `s`.
    #[verifier::opaque]
    pub open spec fn spec_read_position(s: Seq<u8>, version: i16) -> ReadOutcome<i64> {
        spec_read_i64(s)
    }

    /// The `unaligned_records` field, read from the front of `s`.
    #[verifier::opaque]
    pub open spec fn spec_read_unaligned_records(s: Seq<u8>, version: i16) -> ReadOutcome<Option<Seq<u8>>> {
        spec_read_compact_nullable_bytes(s)
    }

    pub open spec fn spec_read(s: Seq<u8>, version: i16) -> ReadOutcome<PartitionSnapshotView> {
        match (Self::spec_read_index(s, version)) {
            Err(e) => Err(e),
            Ok((index, s)) => match (Self::spec_read_error_code(s, version)) {
                Err(e) => Err(e),
                Ok((error_code, s)) => match (Self::spec_read_snapshot_id(s, version)) {
                    Err(e) => Err(e),
                    Ok((snapshot_id, s)) => match (Self::spec_read_size(s, version)) {
                        Err(e) => Err(e),
                        Ok((size, s)) => match (Self::spec_read_position(s, version)) {
                            Err(e) => Err(e),
                            Ok((position, s)) => match (Self::spec_read_unaligned_records(s, version)) {
                                Err(e) => Err(e),
                                Ok((unaligned_records, s)) => match (spec_read_tagged_fields(s)) {
                                    Err(e) => Err(e),
                                    Ok((tags, s)) => match (match (Self::spec_apply_tags(tags, version)) {
                                            Err(e) => Err(e),
                                            Ok(k) => Ok((k, s)),
                                    }) {
                                        Err(e) => Err(e),
                                        Ok(((current_leader, unknown_tagged_fields), s)) => Ok((PartitionSnapshotView {
                                                    index: index,
                                                    error_code: error_code,
                                                    snapshot_id: snapshot_id,
                                                    current_leader: current_leader,
                                                    size: size,
                                                    position: position,
                                                    unaligned_records: unaligned_records,
                                                    unknown_tagged_fields: unknown_tagged_fields,
                                                }, s)),
                                    },
                                },
                            },
                        },
                    },
                },
            },
        }
    }

    /// What writing the `index` field of `m` appends.
    #[verifier::opaque]
    pub open spec fn spec_write_index(m: PartitionSnapshotView, version: i16) -> WriteOutcome {
        spec_write_i32(m.index)
    }

    /// What writing the `error_code` field of `m` appends.
    #[verifier::opaque]
    pub open spec fn spec_write_error_code(m: PartitionSnapshotView, version: i16) -> WriteOutcome {
        spec_write_i16(m.error_code)
    }

    /// What writing the `snapshot_id` field of `m` appends.
    #[verifier::opaque]
    pub open spec fn spec_write_snapshot_id(m: PartitionSnapshotView, version: i16) -> WriteOutcome {
        SnapshotId::spec_write(m.snapshot_id, version)
    }

    /// What writing the `size` field of `m` appends.
    #[verifier::opaque]
    pub open spec fn spec_write_size(m: PartitionSnapshotView, version: i16) -> WriteOutcome {
        spec_write_i64(m.size)
    }

    /// What writing the `position` field of `m` appends.
    #[verifier::opaque]
    pub open spec fn spec_write_position(m: PartitionSnapshotView, version: i16) -> WriteOutcome {
        spec_write_i64(m.position)
    }

    /// What writing the `unaligned_records` field of `m` appends.
    #[verifier::opaque]
    pub open spec fn spec_write_unaligned_records(m: PartitionSnapshotView, version: i16) -> WriteOutcome {
        spec_write_compact_nullable_bytes(m.unaligned_records)
    }

    /// What writing the tagged fields of `m` appends.
    #[verifier::opaque]
    pub open spec fn spec_write_tags(m: PartitionSnapshotView, version: i16) -> WriteOutcome {
        match (Self::spec_known_tags(m, version)) {
            Err(e) => fail(e),
            Ok(k) => spec_write_tagged_fields(sorted_by_tag(k + m.unknown_tagged_fields)),
        }
    }

    pub open spec fn spec_write(m: PartitionSnapshotView, version: i16) -> WriteOutcome {
        chain(
            chain(
                chain(
                    chain(
                        chain(
                            chain(
                                Self::spec_write_index(m, version),
                                Self::spec_write_error_code(m, version),
                            ),
                            Self::spec_write_snapshot_id(m, version),
                        ),
                        Self::spec_write_size(m, version),
                    ),
                    Self::spec_write_position(m, version),
                ),
                Self::spec_write_unaligned_records(m, version),
            ),
            Self::spec_write_tags(m, version),
        )
    }

    /// Whether reading back what writing `m` in `version` appends gives `m`:
    /// fields that the version does not carry hold their default values, and
    /// tagged fields come in the order in which they are written.
    pub open spec fn canonical(m: PartitionSnapshotView, version: i16) -> bool {
        &&& SnapshotId::canonical(m.snapshot_id, version)
        &&& (if !LeaderIdAndEpoch::is_default_view(m.current_leader) {
                LeaderIdAndEpoch::canonical(m.current_leader, version)
            } else {
                m.current_leader == LeaderIdAndEpoch::default_view()
        })
        &&& (tags_in_order(m.unknown_tagged_fields) && forall|i: int| 0 <= i < m.unknown_tagged_fields.len() ==> !#[trigger] Self::is_known_tag(m.unknown_tagged_fields[i].0))
    }

    proof fn lemma_round_trip_index(m: PartitionSnapshotView, version: i16, rest: Seq<u8>)
        requires
            Self::canonical(m, version),
            Self::spec_write_index(m, version) is Ok,
        ensures
            Self::spec_read_index(written(Self::spec_write_index(m, version)) + rest, version) == Ok::<(i32, Seq<u8>), Error>((m.index, rest)),
    {
        reveal(PartitionSnapshot::spec_read_index);
        reveal(PartitionSnapshot::spec_write_index);
        lemma_i32_roundtrip(m.index, rest);
    }

    proof fn lemma_round_trip_error_code(m: PartitionSnapshotView, version: i16, rest: Seq<u8>)
        requires
            Self::canonical(m, version),
            Self::spec_write_error_code(m, version) is Ok,
        ensures
            Self::spec_read_error_code(written(Self::spec_write_error_code(m, version)) + rest, version) == Ok::<(i16, Seq<u8>), Error>((m.error_code, rest)),
    {
        reveal(PartitionSnapshot::spec_read_error_code);
        reveal(PartitionSnapshot::spec_write_error_code);
        lemma_i16_roundtrip(m.error_code, rest);
    }

    proof fn lemma_round_trip_snapshot_id(m: PartitionSnapshotView, version: i16, rest: Seq<u8>)
        requires
            Self::canonical(m, version),
            Self::spec_write_snapshot_id(m, version) is Ok,
        ensures
            Self::spec_read_snapshot_id(written(Self::spec_write_snapshot_id(m, version)) + rest, version) == Ok::<(SnapshotIdView, Seq<u8>), Error>((m.snapshot_id, rest)),
    {
        reveal(PartitionSnapshot::spec_read_snapshot_id);
        reveal(PartitionSnapshot::spec_write_snapshot_id);
        SnapshotId::lemma_round_trip(m.snapshot_id, version, rest);
    }

    proof fn lemma_round_trip_size(m: PartitionSnapshotView, version: i16, rest: Seq<u8>)
        requires
            Self::canonical(m, version),
            Self::spec_write_size(m, version) is Ok,
        ensures
            Self::spec_read_size(written(Self::spec_write_size(m, version)) + rest, version) == Ok::<(i64, Seq<u8>), Error>((m.size, rest)),
    {
        reveal(PartitionSnapshot::spec_read_size);
        reveal(PartitionSnapshot::spec_write_size);
        lemma_i64_roundtrip(m.size, rest);
    }

    proof fn lemma_round_trip_position(m: PartitionSnapshotView, version: i16, rest: Seq<u8>)
        requires
            Self::canonical(m, version),
            Self::spec_write_position(m, version) is Ok,
        ensures
            Self::spec_read_position(written(Self::spec_write_position(m, version)) + rest, version) == Ok::<(i64, Seq<u8>), Error>((m.position, rest)),
    {
        reveal(PartitionSnapshot::spec_read_position);
        reveal(PartitionSnapshot::spec_write_position);
        lemma_i64_roundtrip(m.position, rest);
    }

    proof fn lemma_round_trip_unaligned_records(m: PartitionSnapshotView, version: i16, rest: Seq<u8>)
        requires
            Self::canonical(m, version),
            Self::spec_write_unaligned_records(m, version) is Ok,
        ensures
            Self::spec_read_unaligned_records(written(Self::spec_write_unaligned_records(m, version)) + rest, version) == Ok::<(Option<Seq<u8>>, Seq<u8>), Error>((m.unaligned_records, rest)),
    {
        reveal(PartitionSnapshot::spec_read_unaligned_records);
        reveal(PartitionSnapshot::spec_write_unaligned_records);
        lemma_compact_nullable_bytes_round_trip(m.unaligned_records, rest);
    }

    proof fn lemma_apply_known_tags(m: PartitionSnapshotView, version: i16)
        requires
            Self::canonical(m, version),
            Self::spec_known_tags(m, version) is Ok,
        ensures
            tags_in_order(Self::spec_known_tags(m, version)->Ok_0),
            forall|i: int| 0 <= i < Self::spec_known_tags(m, version)->Ok_0.len() ==> #[trigger] Self::is_known_tag(Self::spec_known_tags(m, version)->Ok_0[i].0),
            Self::spec_apply_tags(Self::spec_known_tags(m, version)->Ok_0, version) == Ok::<(LeaderIdAndEpochView, Seq<(u32, Seq<u8>)>), Error>((m.current_leader, Seq::empty())),
    {
        assert(Self::spec_apply_tags(Seq::empty(), version) == Ok::<(LeaderIdAndEpochView, Seq<(u32, Seq<u8>)>), Error>((LeaderIdAndEpoch::default_view(), Seq::empty())));
        let e0 = if !LeaderIdAndEpoch::is_default_view(m.current_leader) {
            tag_entry(0u32, LeaderIdAndEpoch::spec_write(m.current_leader, version))
        } else {
            Ok(Seq::empty())
        };
        let k0 = e0->Ok_0;
        let p0 = k0;
        if !LeaderIdAndEpoch::is_default_view(m.current_leader) {
            LeaderIdAndEpoch::lemma_round_trip(m.current_leader, version, Seq::<u8>::empty());
            assert(written(LeaderIdAndEpoch::spec_write(m.current_leader, version)) + Seq::<u8>::empty() =~= written(LeaderIdAndEpoch::spec_write(m.current_leader, version)));
            assert(p0.drop_last() =~= Seq::<(u32, Seq<u8>)>::empty());
        } else {
        }
        assert(tags_in_order(p0));
        assert(forall|i: int| 0 <= i < p0.len() ==> p0[i].0 <= 0u32);
        assert(forall|i: int| 0 <= i < p0.len() ==> #[trigger] Self::is_known_tag(p0[i].0));
        assert(Self::spec_apply_tags(p0, version) == Ok::<(LeaderIdAndEpochView, Seq<(u32, Seq<u8>)>), Error>((m.current_leader, Seq::empty())));
        assert(Self::spec_known_tags(m, version)->Ok_0 =~= p0);
    }

    proof fn lemma_apply_tags_append(st: (LeaderIdAndEpochView, Seq<(u32, Seq<u8>)>), a: Seq<(u32, Seq<u8>)>, b: Seq<(u32, Seq<u8>)>, version: i16)
        ensures
            Self::spec_apply_tags_from(st, a + b, version) == (match Self::spec_apply_tags_from(st, a, version) {
            Err(e) => Err(e),
            Ok(s2) => Self::spec_apply_tags_from(s2, b, version),
            }),
            decreases b.len(),
    {
        if b.len() == 0 {
            assert(a + b =~= a);
        } else {
            assert((a + b).drop_last() =~= a + b.drop_last());
            assert((a + b).last() == b.last());
            Self::lemma_apply_tags_append(st, a, b.drop_last(), version);
        }
    }

    proof fn lemma_apply_known_only(st: (LeaderIdAndEpochView, Seq<(u32, Seq<u8>)>), us: Seq<(u32, Seq<u8>)>, b: Seq<(u32, Seq<u8>)>, version: i16)
        requires
            forall|i: int| 0 <= i < b.len() ==> #[trigger] Self::is_known_tag(b[i].0),
        ensures
            match Self::spec_apply_tags_from(st, b, version) {
            Err(e) => Self::spec_apply_tags_from((st.0, us), b, version) == Err::<(LeaderIdAndEpochView, Seq<(u32, Seq<u8>)>), Error>(e),
            Ok(r) => r.1 == st.1 && Self::spec_apply_tags_from((st.0, us), b, version) == Ok::<(LeaderIdAndEpochView, Seq<(u32, Seq<u8>)>), Error>((r.0, us)),
            },
            decreases b.len(),
    {
        if b.len() > 0 {
            assert(Self::is_known_tag(b[b.len() - 1].0));
            assert forall|i: int| 0 <= i < b.drop_last().len() implies #[trigger] Self::is_known_tag(b.drop_last()[i].0) by {
                assert(b.drop_last()[i] == b[i]);
                assert(Self::is_known_tag(b[i].0));
            }
            Self::lemma_apply_known_only(st, us, b.drop_last(), version);
        }
    }

    proof fn lemma_apply_sorted(k: Seq<(u32, Seq<u8>)>, u: Seq<(u32, Seq<u8>)>, version: i16)
        requires
            tags_in_order(k),
            tags_in_order(u),
            forall|i: int| 0 <= i < k.len() ==> #[trigger] Self::is_known_tag(k[i].0),
            forall|i: int| 0 <= i < u.len() ==> !#[trigger] Self::is_known_tag(u[i].0),
            Self::spec_apply_tags(k, version) is Ok,
            Self::spec_apply_tags(k, version)->Ok_0.1 == Seq::<(u32, Seq<u8>)>::empty(),
        ensures
            Self::spec_apply_tags(sorted_by_tag(k + u), version) == Ok::<(LeaderIdAndEpochView, Seq<(u32, Seq<u8>)>), Error>((Self::spec_apply_tags(k, version)->Ok_0.0, u)),
            decreases u.len(),
    {
        let r = Self::spec_apply_tags(k, version)->Ok_0;
        if u.len() == 0 {
            assert(k + u =~= k);
            lemma_sorted_by_tag_in_order(k);
            assert(u =~= Seq::<(u32, Seq<u8>)>::empty());
        } else {
            let u1 = u.drop_last();
            let x = u.last();
            lemma_tags_in_order_drop_last(u);
            assert forall|i: int| 0 <= i < u1.len() implies !#[trigger] Self::is_known_tag(u1[i].0) by {
                assert(u1[i] == u[i]);
                assert(!Self::is_known_tag(u[i].0));
            }
            Self::lemma_apply_sorted(k, u1, version);
            let ku = k + u1;
            let t = sorted_by_tag(ku);
            assert((k + u).drop_last() =~= ku);
            assert((k + u).last() == x);
            let p = insert_pos(t, x.0);
            lemma_insert_pos_bounds(t, x.0);
            lemma_insert_pos_after(t, x.0);
            lemma_sorted_by_tag_members(ku);
            lemma_sorted_by_tag_len(ku);
            let head = t.subrange(0, p);
            let tail = t.subrange(p, t.len() as int);
            assert forall|i: int| 0 <= i < tail.len() implies #[trigger] Self::is_known_tag(tail[i].0) by {
                let y = t[p + i];
                assert(tail[i] == y);
                assert(y.0 > x.0);
                assert(ku.contains(y));
                let j = choose|j: int| 0 <= j < ku.len() && ku[j] == y;
                if j >= k.len() {
                    assert(u[j - k.len()] == y);
                    assert(u[j - k.len()].0 <= u[u.len() - 1].0);
                    assert(false);
                } else {
                    assert(k[j] == y);
                    assert(Self::is_known_tag(k[j].0));
                }
            }
            assert(t =~= head + tail);
            assert(sorted_by_tag(k + u) =~= head.push(x) + tail);
            Self::lemma_apply_tags_append((LeaderIdAndEpoch::default_view(), Seq::empty()), head, tail, version);
            Self::lemma_apply_tags_append((LeaderIdAndEpoch::default_view(), Seq::empty()), head.push(x), tail, version);
            let sa = Self::spec_apply_tags(head, version)->Ok_0;
            assert(head.push(x).drop_last() =~= head);
            assert(!Self::is_known_tag(x.0)) by {
                assert(u[u.len() - 1] == x);
            }
            Self::lemma_apply_known_only(sa, sa.1.push(x), tail, version);
            assert(u1.push(x) =~= u);
        }
    }

    /// The tagged fields that a flexible version writes: each known one that
    /// the version carries and that does not hold its default value, in the
    /// order of the tags, merged by tag with the unknown ones.
    pub proof fn lemma_tag_section(m: PartitionSnapshotView, version: i16)
        ensures
            Self::spec_write_tags(m, version) == (match Self::spec_known_tags(m, version) {
            Err(e) => fail(e),
            Ok(k) => spec_write_tagged_fields(sorted_by_tag(k + m.unknown_tagged_fields)),
            }),
            Self::spec_known_tags(m, version) is Ok ==> Self::spec_known_tags(m, version)->Ok_0 == (if !LeaderIdAndEpoch::is_default_view(m.current_leader) { seq![(0u32, written(LeaderIdAndEpoch::spec_write(m.current_leader, version)))] } else { Seq::<(u32, Seq<u8>)>::empty() }),
    {
        reveal(PartitionSnapshot::spec_write_tags);
        if Self::spec_known_tags(m, version) is Ok {
            assert(Self::spec_known_tags(m, version)->Ok_0 =~= (if !LeaderIdAndEpoch::is_default_view(m.current_leader) {
                        seq![(0u32, written(LeaderIdAndEpoch::spec_write(m.current_leader, version)))]
                    } else {
                        Seq::<(u32, Seq<u8>)>::empty()
            }));
        }
    }

    proof fn lemma_round_trip_tags(m: PartitionSnapshotView, version: i16, rest: Seq<u8>)
        requires
            Self::canonical(m, version),
            Self::spec_write_tags(m, version) is Ok,
        ensures
            spec_read_tagged_fields(written(Self::spec_write_tags(m, version)) + rest) matches Ok((tags, r2)) && r2 == rest && Self::spec_apply_tags(tags, version) == Ok::<(LeaderIdAndEpochView, Seq<(u32, Seq<u8>)>), Error>((m.current_leader, m.unknown_tagged_fields)),
    {
        reveal(PartitionSnapshot::spec_write_tags);
        let k = Self::spec_known_tags(m, version)->Ok_0;
        Self::lemma_apply_known_tags(m, version);
        Self::lemma_apply_sorted(k, m.unknown_tagged_fields, version);
        lemma_tagged_fields_round_trip(sorted_by_tag(k + m.unknown_tagged_fields), rest);
    }

    /// Reading back what writing `m` in `version` appends gives `m` again, and
    /// leaves what follows, for every canonical message whose write succeeds.
    #[verifier::rlimit(100)]
    #[verifier::spinoff_prover]
    pub proof fn lemma_round_trip(m: PartitionSnapshotView, version: i16, rest: Seq<u8>)
        requires
            Self::canonical(m, version),
            Self::spec_write(m, version) is Ok,
        ensures
            Self::spec_read(written(Self::spec_write(m, version)) + rest, version) == Ok::<(PartitionSnapshotView, Seq<u8>), Error>((m, rest)),
    {
        let b0 = written(Self::spec_write_index(m, version));
        let b1 = written(Self::spec_write_error_code(m, version));
        let b2 = written(Self::spec_write_snapshot_id(m, version));
        let b3 = written(Self::spec_write_size(m, version));
        let b4 = written(Self::spec_write_position(m, version));
        let b5 = written(Self::spec_write_unaligned_records(m, version));
        let b6 = written(Self::spec_write_tags(m, version));
        let t7 = rest;
        let t6 = b6 + t7;
        let t5 = b5 + t6;
        let t4 = b4 + t5;
        let t3 = b3 + t4;
        let t2 = b2 + t3;
        let t1 = b1 + t2;
        let t0 = b0 + t1;
        let w0 = Self::spec_write_index(m, version);
        let w1 = chain(w0, Self::spec_write_error_code(m, version));
        let w2 = chain(w1, Self::spec_write_snapshot_id(m, version));
        let w3 = chain(w2, Self::spec_write_size(m, version));
        let w4 = chain(w3, Self::spec_write_position(m, version));
        let w5 = chain(w4, Self::spec_write_unaligned_records(m, version));
        let w6 = chain(w5, Self::spec_write_tags(m, version));
        assert(Self::spec_write(m, version) == w6);
        assert(written(w6) + t7 =~= written(w5) + t6);
        assert(written(w5) + t6 =~= written(w4) + t5);
        assert(written(w4) + t5 =~= written(w3) + t4);
        assert(written(w3) + t4 =~= written(w2) + t3);
        assert(written(w2) + t3 =~= written(w1) + t2);
        assert(written(w1) + t2 =~= written(w0) + t1);
        Self::lemma_round_trip_index(m, version, t1);
        Self::lemma_round_trip_error_code(m, version, t2);
        Self::lemma_round_trip_snapshot_id(m, version, t3);
        Self::lemma_round_trip_size(m, version, t4);
        Self::lemma_round_trip_position(m, version, t5);
        Self::lemma_round_trip_unaligned_records(m, version, t6);
        Self::lemma_round_trip_tags(m, version, t7);
    }

    /// The default message holds the default value of each field of the schema.
    pub proof fn lemma_default_values()
        ensures
            Self::default_view().index == (0_i32),
            Self::default_view().error_code == (0_i16),
            Self::default_view().snapshot_id == (SnapshotId::default_view()),
            Self::default_view().current_leader == (LeaderIdAndEpoch::default_view()),
            Self::default_view().size == (0_i64),
            Self::default_view().position == (0_i64),
            (Self::default_view().unaligned_records is None),
            Self::default_view().unknown_tagged_fields.len() == 0,
    {
    }

    /// Each integer, boolean and identifier field is written as its standard
    /// big-endian bytes (a boolean as `1` or `0`) in the versions that carry
    /// it, and as nothing in the others; reading it takes those bytes back (any
    /// byte other than `0` reads as `true`), or gives its default value.
    pub proof fn lemma_field_encodings(m: PartitionSnapshotView, s: Seq<u8>, version: i16)
        ensures
            true ==> Self::spec_write_index(m, version) == Ok::<Seq<u8>, (Error, Seq<u8>)>(u32_bytes(m.index as u32)),
            true ==> Self::spec_write_error_code(m, version) == Ok::<Seq<u8>, (Error, Seq<u8>)>(u16_bytes(m.error_code as u16)),
            true ==> Self::spec_write_size(m, version) == Ok::<Seq<u8>, (Error, Seq<u8>)>(u64_bytes(m.size as u64)),
            true ==> Self::spec_write_position(m, version) == Ok::<Seq<u8>, (Error, Seq<u8>)>(u64_bytes(m.position as u64)),
            true ==> Self::spec_read_index(s, version) == spec_read_i32(s),
            true ==> Self::spec_read_error_code(s, version) == spec_read_i16(s),
            true ==> Self::spec_read_size(s, version) == spec_read_i64(s),
            true ==> Self::spec_read_position(s, version) == spec_read_i64(s),
    {
        reveal(PartitionSnapshot::spec_write_index);
        reveal(PartitionSnapshot::spec_read_index);
        reveal(PartitionSnapshot::spec_write_error_code);
        reveal(PartitionSnapshot::spec_read_error_code);
        reveal(PartitionSnapshot::spec_write_size);
        reveal(PartitionSnapshot::spec_read_size);
        reveal(PartitionSnapshot::spec_write_position);
        reveal(PartitionSnapshot::spec_read_position);
    }

    /// Whether writing `m` in `version` succeeds, said over its parts: the
    /// version is one the schema covers, every field that the version cannot
    /// carry holds its default value, and every string, byte string, array and
    /// tagged field fits its length prefix.
    pub open spec fn writable(m: PartitionSnapshotView, version: i16) -> bool {
        &&& SnapshotId::writable(m.snapshot_id, version)
        &&& (m.unaligned_records matches Some(b) ==> b.len() < u32::MAX)
        &&& (!LeaderIdAndEpoch::is_default_view(m.current_leader) ==> LeaderIdAndEpoch::writable(m.current_leader, version) && written(LeaderIdAndEpoch::spec_write(m.current_leader, version)).len() <= isize::MAX && written(LeaderIdAndEpoch::spec_write(m.current_leader, version)).len() <= u32::MAX) && (if !LeaderIdAndEpoch::is_default_view(m.current_leader) { 1int } else { 0int }) + m.unknown_tagged_fields.len() <= u32::MAX && tags_fit(m.unknown_tagged_fields)
    }

    proof fn lemma_writable_index(m: PartitionSnapshotView, version: i16)
        ensures
            Self::spec_write_index(m, version) is Ok <==> true,
    {
        reveal(PartitionSnapshot::spec_write_index);
    }

    proof fn lemma_writable_error_code(m: PartitionSnapshotView, version: i16)
        ensures
            Self::spec_write_error_code(m, version) is Ok <==> true,
    {
        reveal(PartitionSnapshot::spec_write_error_code);
    }

    proof fn lemma_writable_snapshot_id(m: PartitionSnapshotView, version: i16)
        ensures
            Self::spec_write_snapshot_id(m, version) is Ok <==> SnapshotId::writable(m.snapshot_id, version),
    {
        reveal(PartitionSnapshot::spec_write_snapshot_id);
        SnapshotId::lemma_writable(m.snapshot_id, version);
    }

    proof fn lemma_writable_size(m: PartitionSnapshotView, version: i16)
        ensures
            Self::spec_write_size(m, version) is Ok <==> true,
    {
        reveal(PartitionSnapshot::spec_write_size);
    }

    proof fn lemma_writable_position(m: PartitionSnapshotView, version: i16)
        ensures
            Self::spec_write_position(m, version) is Ok <==> true,
    {
        reveal(PartitionSnapshot::spec_write_position);
    }

    proof fn lemma_writable_unaligned_records(m: PartitionSnapshotView, version: i16)
        ensures
            Self::spec_write_unaligned_records(m, version) is Ok <==> (m.unaligned_records matches Some(b) ==> b.len() < u32::MAX),
    {
        reveal(PartitionSnapshot::spec_write_unaligned_records);
    }

    proof fn lemma_writable_tags(m: PartitionSnapshotView, version: i16)
        ensures
            Self::spec_write_tags(m, version) is Ok <==> (!LeaderIdAndEpoch::is_default_view(m.current_leader) ==> LeaderIdAndEpoch::writable(m.current_leader, version) && written(LeaderIdAndEpoch::spec_write(m.current_leader, version)).len() <= isize::MAX && written(LeaderIdAndEpoch::spec_write(m.current_leader, version)).len() <= u32::MAX) && (if !LeaderIdAndEpoch::is_default_view(m.current_leader) { 1int } else { 0int }) + m.unknown_tagged_fields.len() <= u32::MAX && tags_fit(m.unknown_tagged_fields),
    {
        reveal(PartitionSnapshot::spec_write_tags);
        let k = Self::spec_known_tags(m, version);
        LeaderIdAndEpoch::lemma_writable(m.current_leader, version);
        lemma_tags_fit_single(0u32, written(LeaderIdAndEpoch::spec_write(m.current_leader, version)));
        if true {
            Self::lemma_tag_section(m, version);
            if k is Ok {
                lemma_sorted_tags_fit(k->Ok_0 + m.unknown_tagged_fields);
                lemma_tagged_fields_writable(sorted_by_tag(k->Ok_0 + m.unknown_tagged_fields));
                lemma_tags_fit_concat(k->Ok_0, m.unknown_tagged_fields);
            }
        }
    }

    /// Writing `m` in `version` succeeds exactly when `m` is writable in it;
    /// so do `write` and `encoded_len`, whose results follow `spec_write`.
    #[verifier::rlimit(72)]
    pub proof fn lemma_writable(m: PartitionSnapshotView, version: i16)
        ensures
            Self::spec_write(m, version) is Ok <==> Self::writable(m, version),
    {
        Self::lemma_writable_index(m, version);
        Self::lemma_writable_error_code(m, version);
        Self::lemma_writable_snapshot_id(m, version);
        Self::lemma_writable_size(m, version);
        Self::lemma_writable_position(m, version);
        Self::lemma_writable_unaligned_records(m, version);
        Self::lemma_writable_tags(m, version);
    }

    /// The known tagged fields and the unknown ones after the tagged field `f`
    /// is read: a known one replaces the value it holds, an unknown one is kept.
    pub open spec fn spec_apply_tag(st: (LeaderIdAndEpochView, Seq<(u32, Seq<u8>)>), f: (u32, Seq<u8>), version: i16) -> Result<(LeaderIdAndEpochView, Seq<(u32, Seq<u8>)>), Error> {
        if f.0 == 0u32 {
            match (LeaderIdAndEpoch::spec_read(f.1, version)) {
                Err(e) => Err(e),
                Ok((v, _)) => Ok((v, st.1)),
            }
        } else {
            Ok((st.0, st.1.push(f)))
        }
    }

    /// The known tagged fields, and the unknown ones, that reading `tags` in
    /// order gives, starting from `st`.
    pub open spec fn spec_apply_tags_from(st: (LeaderIdAndEpochView, Seq<(u32, Seq<u8>)>), tags: Seq<(u32, Seq<u8>)>, version: i16) -> Result<(LeaderIdAndEpochView, Seq<(u32, Seq<u8>)>), Error>
    decreases tags.len(),
    {
        if tags.len() == 0 {
            Ok(st)
        } else {
            match Self::spec_apply_tags_from(st, tags.drop_last(), version) {
                Err(e) => Err(e),
                Ok(s2) => Self::spec_apply_tag(s2, tags.last(), version),
            }
        }
    }

    /// The known tagged fields, and the unknown ones, that reading `tags` in
    /// order gives.
    pub open spec fn spec_apply_tags(tags: Seq<(u32, Seq<u8>)>, version: i16) -> Result<(LeaderIdAndEpochView, Seq<(u32, Seq<u8>)>), Error> {
        Self::spec_apply_tags_from((LeaderIdAndEpoch::default_view(), Seq::empty()), tags, version)
    }

    /// Whether a tagged field with tag `t` is one of the known ones.
    pub open spec fn is_known_tag(t: u32) -> bool {
        t == 0u32
    }

    proof fn lemma_apply_tags_err(tags: Seq<(u32, Seq<u8>)>, i: int, version: i16)
        requires
            0 <= i <= tags.len(),
            Self::spec_apply_tags(tags.take(i), version) is Err,
        ensures
            Self::spec_apply_tags(tags, version) == Self::spec_apply_tags(tags.take(i), version),
            decreases tags.len() - i,
    {
        if i < tags.len() {
            assert(tags.take(i + 1).drop_last() =~= tags.take(i));
            Self::lemma_apply_tags_err(tags, i + 1, version);
        } else {
            assert(tags.take(i) =~= tags);
        }
    }

    fn apply_tags(tags: &Vec<RawTaggedField>, version: i16) -> (r: Result<(LeaderIdAndEpoch, Vec<RawTaggedField>), Error>)
        ensures
            match Self::spec_apply_tags(views(tags@), version) {
            Err(e) => r matches Err(e2) && e2 == e,
            Ok(st) => r matches Ok(x) && x.0@ == st.0 && views(x.1@) == st.1,
            },
    {
        let ghost ts = views(tags@);
        let mut k_current_leader: LeaderIdAndEpoch = LeaderIdAndEpoch::default();
        let mut unknown: Vec<RawTaggedField> = empty_vec();
        let mut i: usize = 0;
        assert(ts.take(0) =~= Seq::<(u32, Seq<u8>)>::empty());
        while i < tags.len()
        invariant
        0 <= i <= tags.len(),
        ts == views(tags@),
        Self::spec_apply_tags(ts.take(i as int), version) == Ok::<(LeaderIdAndEpochView, Seq<(u32, Seq<u8>)>), Error>((k_current_leader@, views(unknown@))),
        decreases tags.len() - i,
        {
            let field = &tags[i];
            proof {
                assert(ts.take(i + 1).drop_last() =~= ts.take(i as int));
                assert(ts.take(i + 1).last() == field@);
            }
            if field.tag == 0 {
                let mut tag_buf = field.data.clone();
                k_current_leader = match LeaderIdAndEpoch::read(&mut tag_buf, version) {
                    Ok(v) => v,
                    Err(e) => {
                        proof {
                            Self::lemma_apply_tags_err(ts, i + 1, version);
                        }
                        return Err(e);
                    },
                };
            } else {
                let ghost before = views(unknown@);
                unknown.push(field.clone());
                proof {
                    assert(views(unknown@) =~= before.push(field@));
                }
            }
            i = i + 1;
        }
        proof {
            assert(ts.take(tags.len() as int) =~= ts);
        }
        Ok((k_current_leader, unknown))
    }

    /// The known tagged fields that `m` has to write in `version`, in the
    /// order of their tags: those that do not hold their default value.
    pub open spec fn spec_known_tags(m: PartitionSnapshotView, version: i16) -> Result<Seq<(u32, Seq<u8>)>, Error> {
        match (if !LeaderIdAndEpoch::is_default_view(m.current_leader) {
                tag_entry(0u32, LeaderIdAndEpoch::spec_write(m.current_leader, version))
            } else {
                Ok(Seq::empty())
        }) {
            Err(e) => Err(e),
            Ok(k0) => Ok(k0),
        }
    }

    fn known_tagged_fields(&self, version: i16) -> (r: Result<Vec<RawTaggedField>, Error>)
        ensures
            match Self::spec_known_tags(self@, version) {
            Err(e) => r matches Err(e2) && e2 == e,
            Ok(k) => r matches Ok(v) && views(v@) == k,
            },
    {
        let ghost m = self@;
        let ghost w0 = LeaderIdAndEpoch::spec_write(m.current_leader, version);
        let ghost e0 = if !LeaderIdAndEpoch::is_default_view(m.current_leader) {
            tag_entry(0u32, w0)
        } else {
            Ok(Seq::empty())
        };
        let mut known: Vec<RawTaggedField> = empty_vec();
        let ghost prev0 = views(known@);
        if !self.current_leader.is_default() {
            let n = match self.current_leader.encoded_len(version) {
                Ok(n) => n,
                Err(e) => {
                    return Err(e);
                },
            };
            if n > isize::MAX as usize {
                return Err(Error::ValueTooLong);
            }
            let mut tag_buf = bytes_mut_new();
            let _: Result<(), Error> = self.current_leader.write(&mut tag_buf, version);
            let data = bytes_mut_freeze(tag_buf);
            assert(bytes_seq(data) =~= written(w0));
            known.push(RawTaggedField { tag: 0, data });
        }
        assert(views(known@) =~= prev0 + e0->Ok_0);
        Ok(known)
    }

    fn read_index(buf: &mut Bytes, version: i16) -> (r: Result<i32, Error>)
        ensures
            read_as(Self::spec_read_index(bytes_seq(*old(buf)), version), *final(buf), r),
            took_front(*old(buf), *final(buf)),
    {
        proof {
            reveal(PartitionSnapshot::spec_read_index);
        }
        Ok(read_i32(buf)?)
    }

    fn read_error_code(buf: &mut Bytes, version: i16) -> (r: Result<i16, Error>)
        ensures
            read_as(Self::spec_read_error_code(bytes_seq(*old(buf)), version), *final(buf), r),
            took_front(*old(buf), *final(buf)),
    {
        proof {
            reveal(PartitionSnapshot::spec_read_error_code);
        }
        Ok(read_i16(buf)?)
    }

    fn read_snapshot_id(buf: &mut Bytes, version: i16) -> (r: Result<SnapshotId, Error>)
        ensures
            read_as(Self::spec_read_snapshot_id(bytes_seq(*old(buf)), version), *final(buf), r),
            took_front(*old(buf), *final(buf)),
    {
        proof {
            reveal(PartitionSnapshot::spec_read_snapshot_id);
        }
        Ok(SnapshotId::read(buf, version)?)
    }

    fn read_size(buf: &mut Bytes, version: i16) -> (r: Result<i64, Error>)
        ensures
            read_as(Self::spec_read_size(bytes_seq(*old(buf)), version), *final(buf), r),
            took_front(*old(buf), *final(buf)),
    {
        proof {
            reveal(PartitionSnapshot::spec_read_size);
        }
        Ok(read_i64(buf)?)
    }

    fn read_position(buf: &mut Bytes, version: i16) -> (r: Result<i64, Error>)
        ensures
            read_as(Self::spec_read_position(bytes_seq(*old(buf)), version), *final(buf), r),
            took_front(*old(buf), *final(buf)),
    {
        proof {
            reveal(PartitionSnapshot::spec_read_position);
        }
        Ok(read_i64(buf)?)
    }

    fn read_unaligned_records(buf: &mut Bytes, version: i16) -> (r: Result<Option<Bytes>, Error>)
        ensures
            read_opt_bytes_as(Self::spec_read_unaligned_records(bytes_seq(*old(buf)), version), *final(buf), r),
            took_front(*old(buf), *final(buf)),
    {
        proof {
            reveal(PartitionSnapshot::spec_read_unaligned_records);
        }
        Ok(read_compact_nullable_bytes(buf)?)
    }

    #[verifier::rlimit(56)]
    #[verifier::spinoff_prover]
    pub fn read(buf: &mut Bytes, version: i16) -> (r: Result<Self, Error>)
        ensures
            read_as(Self::spec_read(bytes_seq(*old(buf)), version), *final(buf), r),
            took_front(*old(buf), *final(buf)),
    {
        let index = Self::read_index(buf, version)?;
        let error_code = Self::read_error_code(buf, version)?;
        let snapshot_id = Self::read_snapshot_id(buf, version)?;
        let size = Self::read_size(buf, version)?;
        let position = Self::read_position(buf, version)?;
        let unaligned_records = Self::read_unaligned_records(buf, version)?;
        let (current_leader, _unknown_tagged_fields) = {
            let tags = read_tagged_fields(buf)?;
            Self::apply_tags(&tags, version)?
        };
        Ok(PartitionSnapshot {
                index: index,
                error_code: error_code,
                snapshot_id: snapshot_id,
                current_leader: current_leader,
                size: size,
                position: position,
                unaligned_records: unaligned_records,
                _unknown_tagged_fields: _unknown_tagged_fields,
        })
    }

    #[verifier::rlimit(100)]
    #[verifier::spinoff_prover]
    pub fn write(&self, buf: &mut BytesMut, version: i16) -> (r: Result<(), Error>)
        requires
            has_room(Self::spec_write(self@, version), *old(buf)),
        ensures
            wrote(Self::spec_write(self@, version), *old(buf), *final(buf), r),
    {
        let ghost m = self@;
        proof {
            reveal(PartitionSnapshot::spec_write_index);
            reveal(PartitionSnapshot::spec_write_error_code);
            reveal(PartitionSnapshot::spec_write_snapshot_id);
            reveal(PartitionSnapshot::spec_write_size);
            reveal(PartitionSnapshot::spec_write_position);
            reveal(PartitionSnapshot::spec_write_unaligned_records);
            reveal(PartitionSnapshot::spec_write_tags);
        }
        let ghost s0 = Self::spec_write_index(m, version);
        let ghost w0 = s0;
        let ghost s1 = Self::spec_write_error_code(m, version);
        let ghost w1 = chain(w0, s1);
        let ghost s2 = Self::spec_write_snapshot_id(m, version);
        let ghost w2 = chain(w1, s2);
        let ghost s3 = Self::spec_write_size(m, version);
        let ghost w3 = chain(w2, s3);
        let ghost s4 = Self::spec_write_position(m, version);
        let ghost w4 = chain(w3, s4);
        let ghost s5 = Self::spec_write_unaligned_records(m, version);
        let ghost w5 = chain(w4, s5);
        let ghost s6 = Self::spec_write_tags(m, version);
        let ghost w6 = chain(w5, s6);
        assert(Self::spec_write(m, version) == w6);
        assert(written(w5).len() <= written(w6).len() && (w5 is Err ==> w6 == w5));
        assert(written(w4).len() <= written(w6).len() && (w4 is Err ==> w6 == w4));
        assert(written(w3).len() <= written(w6).len() && (w3 is Err ==> w6 == w3));
        assert(written(w2).len() <= written(w6).len() && (w2 is Err ==> w6 == w2));
        assert(written(w1).len() <= written(w6).len() && (w1 is Err ==> w6 == w1));
        assert(written(w0).len() <= written(w6).len() && (w0 is Err ==> w6 == w0));
        let ghost mid = bytes_mut_seq(*buf);
        proof {
            lemma_append_empty(mid);
        }
        let r0 = {
            write_i32(buf, self.index);
            Ok(())
        };
        assert(bytes_mut_seq(*buf) == mid + written(s0));
        if r0.is_err() {
            return r0;
        }
        let ghost mid = bytes_mut_seq(*buf);
        proof {
            lemma_append_empty(mid);
        }
        let r1 = {
            write_i16(buf, self.error_code);
            Ok(())
        };
        assert(bytes_mut_seq(*buf) == mid + written(s1));
        proof {
            lemma_step(bytes_mut_seq(*old(buf)), w0, s1);
        }
        if r1.is_err() {
            return r1;
        }
        let ghost mid = bytes_mut_seq(*buf);
        proof {
            lemma_append_empty(mid);
        }
        let r2 = self.snapshot_id.write(buf, version);
        assert(bytes_mut_seq(*buf) == mid + written(s2));
        proof {
            lemma_step(bytes_mut_seq(*old(buf)), w1, s2);
        }
        if r2.is_err() {
            return r2;
        }
        let ghost mid = bytes_mut_seq(*buf);
        proof {
            lemma_append_empty(mid);
        }
        let r3 = {
            write_i64(buf, self.size);
            Ok(())
        };
        assert(bytes_mut_seq(*buf) == mid + written(s3));
        proof {
            lemma_step(bytes_mut_seq(*old(buf)), w2, s3);
        }
        if r3.is_err() {
            return r3;
        }
        let ghost mid = bytes_mut_seq(*buf);
        proof {
            lemma_append_empty(mid);
        }
        let r4 = {
            write_i64(buf, self.position);
            Ok(())
        };
        assert(bytes_mut_seq(*buf) == mid + written(s4));
        proof {
            lemma_step(bytes_mut_seq(*old(buf)), w3, s4);
        }
        if r4.is_err() {
            return r4;
        }
        let ghost mid = bytes_mut_seq(*buf);
        proof {
            lemma_append_empty(mid);
        }
        let r5 = write_compact_nullable_bytes(buf, &self.unaligned_records);
        assert(bytes_mut_seq(*buf) == mid + written(s5));
        proof {
            lemma_step(bytes_mut_seq(*old(buf)), w4, s5);
        }
        if r5.is_err() {
            return r5;
        }
        let ghost mid = bytes_mut_seq(*buf);
        proof {
            lemma_append_empty(mid);
        }
        let r6 = match self.known_tagged_fields(version) {
            Err(e) => Err(e),
            Ok(known) => {
                let all = append_fields(known, &self._unknown_tagged_fields);
                write_tagged_fields(buf, &sort_by_tag(&all))
            },
        };
        assert(bytes_mut_seq(*buf) == mid + written(s6));
        proof {
            lemma_step(bytes_mut_seq(*old(buf)), w5, s6);
        }
        if r6.is_err() {
            return r6;
        }
        Ok(())
    }
}

#[derive(Debug, PartialEq)]
pub struct SnapshotId {
    /// The snapshot end offset.
    pub end_offset: i64,
    /// The snapshot epoch.
    pub epoch: i32,
    pub _unknown_tagged_fields: Vec<RawTaggedField>,
}

/// What a `SnapshotId` holds, as the specification sees it.
#[verifier::ext_equal]
pub struct SnapshotIdView {
    pub end_offset: i64,
    pub epoch: i32,
    pub unknown_tagged_fields: Seq<(u32, Seq<u8>)>,
}

impl View for SnapshotId {
    type V = SnapshotIdView;

    open spec fn view(&self) -> SnapshotIdView {
        SnapshotIdView {
            end_offset: self.end_offset,
            epoch: self.epoch,
            unknown_tagged_fields: views(self._unknown_tagged_fields@),
        }
    }
}

impl Clone for SnapshotId {
    fn clone(&self) -> (r: Self)
        ensures
            r@ == self@,
    {
        let r = SnapshotId {
            end_offset: self.end_offset,
            epoch: self.epoch,
            _unknown_tagged_fields: clone_vec(&self._unknown_tagged_fields),
        };
        assert(r@ =~= self@);
        r
    }
}

impl ViewClone for SnapshotId {
    fn clone_view(&self) -> (r: Self) {
        self.clone()
    }
}

impl Default for SnapshotId {
    fn default() -> (r: Self)
        ensures
            r@ == Self::default_view(),
    {
        let r = SnapshotId {
            end_offset: 0_i64,
            epoch: 0_i32,
            _unknown_tagged_fields: empty_vec(),
        };
        assert(r@ =~= Self::default_view());
        r
    }
}

impl SnapshotId {
    pub open spec fn default_view() -> SnapshotIdView {
        SnapshotIdView {
            end_offset: 0_i64,
            epoch: 0_i32,
            unknown_tagged_fields: Seq::empty(),
        }
    }

    /// The `end_offset` field, read from the front of `s`.
    #[verifier::opaque]
    pub open spec fn spec_read_end_offset(s: Seq<u8>, version: i16) -> ReadOutcome<i64> {
        spec_read_i64(s)
    }

    /// The `epoch` field, read from the front of `s`.
    #[verifier::opaque]
    pub open spec fn spec_read_epoch(s: Seq<u8>, version: i16) -> ReadOutcome<i32> {
        spec_read_i32(s)
    }

    /// The tagged fields, read from the front of `s`.
    #[verifier::opaque]
    pub open spec fn spec_read_tags(s: Seq<u8>, version: i16) -> ReadOutcome<Seq<(u32, Seq<u8>)>> {
        spec_read_tagged_fields(s)
    }

    pub open spec fn spec_read(s: Seq<u8>, version: i16) -> ReadOutcome<SnapshotIdView> {
        match (Self::spec_read_end_offset(s, version)) {
            Err(e) => Err(e),
            Ok((end_offset, s)) => match (Self::spec_read_epoch(s, version)) {
                Err(e) => Err(e),
                Ok((epoch, s)) => match (Self::spec_read_tags(s, version)) {
                    Err(e) => Err(e),
                    Ok((unknown_tagged_fields, s)) => Ok((SnapshotIdView {
                                end_offset: end_offset,
                                epoch: epoch,
                                unknown_tagged_fields: unknown_tagged_fields,
                            }, s)),
                },
            },
        }
    }

    /// What writing the `end_offset` field of `m` appends.
    #[verifier::opaque]
    pub open spec fn spec_write_end_offset(m: SnapshotIdView, version: i16) -> WriteOutcome {
        spec_write_i64(m.end_offset)
    }

    /// What writing the `epoch` field of `m` appends.
    #[verifier::opaque]
    pub open spec fn spec_write_epoch(m: SnapshotIdView, version: i16) -> WriteOutcome {
        spec_write_i32(m.epoch)
    }

    /// What writing the tagged fields of `m` appends.
    #[verifier::opaque]
    pub open spec fn spec_write_tags(m: SnapshotIdView, version: i16) -> WriteOutcome {
        spec_write_tagged_fields(sorted_by_tag(m.unknown_tagged_fields))
    }

    pub open spec fn spec_write(m: SnapshotIdView, version: i16) -> WriteOutcome {
        chain(
            chain(
                Self::spec_write_end_offset(m, version),
                Self::spec_write_epoch(m, version),
            ),
            Self::spec_write_tags(m, version),
        )
    }

    /// Whether reading back what writing `m` in `version` appends gives `m`:
    /// fields that the version does not carry hold their default values, and
    /// tagged fields come in the order in which they are written.
    pub open spec fn canonical(m: SnapshotIdView, version: i16) -> bool {
        &&& tags_in_order(m.unknown_tagged_fields)
    }

    proof fn lemma_round_trip_end_offset(m: SnapshotIdView, version: i16, rest: Seq<u8>)
        requires
            Self::canonical(m, version),
            Self::spec_write_end_offset(m, version) is Ok,
        ensures
            Self::spec_read_end_offset(written(Self::spec_write_end_offset(m, version)) + rest, version) == Ok::<(i64, Seq<u8>), Error>((m.end_offset, rest)),
    {
        reveal(SnapshotId::spec_read_end_offset);
        reveal(SnapshotId::spec_write_end_offset);
        lemma_i64_roundtrip(m.end_offset, rest);
    }

    proof fn lemma_round_trip_epoch(m: SnapshotIdView, version: i16, rest: Seq<u8>)
        requires
            Self::canonical(m, version),
            Self::spec_write_epoch(m, version) is Ok,
        ensures
            Self::spec_read_epoch(written(Self::spec_write_epoch(m, version)) + rest, version) == Ok::<(i32, Seq<u8>), Error>((m.epoch, rest)),
    {
        reveal(SnapshotId::spec_read_epoch);
        reveal(SnapshotId::spec_write_epoch);
        lemma_i32_roundtrip(m.epoch, rest);
    }

    proof fn lemma_round_trip_tags(m: SnapshotIdView, version: i16, rest: Seq<u8>)
        requires
            Self::canonical(m, version),
            Self::spec_write_tags(m, version) is Ok,
        ensures
            Self::spec_read_tags(written(Self::spec_write_tags(m, version)) + rest, version) == Ok::<(Seq<(u32, Seq<u8>)>, Seq<u8>), Error>((m.unknown_tagged_fields, rest)),
    {
        reveal(SnapshotId::spec_read_tags);
        reveal(SnapshotId::spec_write_tags);
        lemma_sorted_by_tag_in_order(m.unknown_tagged_fields);
        lemma_tagged_fields_round_trip(m.unknown_tagged_fields, rest);
    }

    /// Reading back what writing `m` in `version` appends gives `m` again, and
    /// leaves what follows, for every canonical message whose write succeeds.
    #[verifier::rlimit(70)]
    #[verifier::spinoff_prover]
    pub proof fn lemma_round_trip(m: SnapshotIdView, version: i16, rest: Seq<u8>)
        requires
            Self::canonical(m, version),
            Self::spec_write(m, version) is Ok,
        ensures
            Self::spec_read(written(Self::spec_write(m, version)) + rest, version) == Ok::<(SnapshotIdView, Seq<u8>), Error>((m, rest)),
    {
        let b0 = written(Self::spec_write_end_offset(m, version));
        let b1 = written(Self::spec_write_epoch(m, version));
        let b2 = written(Self::spec_write_tags(m, version));
        let t3 = rest;
        let t2 = b2 + t3;
        let t1 = b1 + t2;
        let t0 = b0 + t1;
        let w0 = Self::spec_write_end_offset(m, version);
        let w1 = chain(w0, Self::spec_write_epoch(m, version));
        let w2 = chain(w1, Self::spec_write_tags(m, version));
        assert(Self::spec_write(m, version) == w2);
        assert(written(w2) + t3 =~= written(w1) + t2);
        assert(written(w1) + t2 =~= written(w0) + t1);
        Self::lemma_round_trip_end_offset(m, version, t1);
        Self::lemma_round_trip_epoch(m, version, t2);
        Self::lemma_round_trip_tags(m, version, t3);
    }

    /// The default message holds the default value of each field of the schema.
    pub proof fn lemma_default_values()
        ensures
            Self::default_view().end_offset == (0_i64),
            Self::default_view().epoch == (0_i32),
            Self::default_view().unknown_tagged_fields.len() == 0,
    {
    }

    /// Each integer, boolean and identifier field is written as its standard
    /// big-endian bytes (a boolean as `1` or `0`) in the versions that carry
    /// it, and as nothing in the others; reading it takes those bytes back (any
    /// byte other than `0` reads as `true`), or gives its default value.
    pub proof fn lemma_field_encodings(m: SnapshotIdView, s: Seq<u8>, version: i16)
        ensures
            true ==> Self::spec_write_end_offset(m, version) == Ok::<Seq<u8>, (Error, Seq<u8>)>(u64_bytes(m.end_offset as u64)),
            true ==> Self::spec_write_epoch(m, version) == Ok::<Seq<u8>, (Error, Seq<u8>)>(u32_bytes(m.epoch as u32)),
            true ==> Self::spec_read_end_offset(s, version) == spec_read_i64(s),
            true ==> Self::spec_read_epoch(s, version) == spec_read_i32(s),
    {
        reveal(SnapshotId::spec_write_end_offset);
        reveal(SnapshotId::spec_read_end_offset);
        reveal(SnapshotId::spec_write_epoch);
        reveal(SnapshotId::spec_read_epoch);
    }

    /// Whether writing `m` in `version` succeeds, said over its parts: the
    /// version is one the schema covers, every field that the version cannot
    /// carry holds its default value, and every string, byte string, array and
    /// tagged field fits its length prefix.
    pub open spec fn writable(m: SnapshotIdView, version: i16) -> bool {
        &&& m.unknown_tagged_fields.len() <= u32::MAX && tags_fit(m.unknown_tagged_fields)
    }

    proof fn lemma_writable_end_offset(m: SnapshotIdView, version: i16)
        ensures
            Self::spec_write_end_offset(m, version) is Ok <==> true,
    {
        reveal(SnapshotId::spec_write_end_offset);
    }

    proof fn lemma_writable_epoch(m: SnapshotIdView, version: i16)
        ensures
            Self::spec_write_epoch(m, version) is Ok <==> true,
    {
        reveal(SnapshotId::spec_write_epoch);
    }

    proof fn lemma_writable_tags(m: SnapshotIdView, version: i16)
        ensures
            Self::spec_write_tags(m, version) is Ok <==> m.unknown_tagged_fields.len() <= u32::MAX && tags_fit(m.unknown_tagged_fields),
    {
        reveal(SnapshotId::spec_write_tags);
        lemma_sorted_tags_fit(m.unknown_tagged_fields);
        lemma_tagged_fields_writable(sorted_by_tag(m.unknown_tagged_fields));
    }

    /// Writing `m` in `version` succeeds exactly when `m` is writable in it;
    /// so do `write` and `encoded_len`, whose results follow `spec_write`.
    #[verifier::rlimit(48)]
    pub proof fn lemma_writable(m: SnapshotIdView, version: i16)
        ensures
            Self::spec_write(m, version) is Ok <==> Self::writable(m, version),
    {
        Self::lemma_writable_end_offset(m, version);
        Self::lemma_writable_epoch(m, version);
        Self::lemma_writable_tags(m, version);
    }

    fn read_end_offset(buf: &mut Bytes, version: i16) -> (r: Result<i64, Error>)
        ensures
            read_as(Self::spec_read_end_offset(bytes_seq(*old(buf)), version), *final(buf), r),
            took_front(*old(buf), *final(buf)),
    {
        proof {
            reveal(SnapshotId::spec_read_end_offset);
        }
        Ok(read_i64(buf)?)
    }

    fn read_epoch(buf: &mut Bytes, version: i16) -> (r: Result<i32, Error>)
        ensures
            read_as(Self::spec_read_epoch(bytes_seq(*old(buf)), version), *final(buf), r),
            took_front(*old(buf), *final(buf)),
    {
        proof {
            reveal(SnapshotId::spec_read_epoch);
        }
        Ok(read_i32(buf)?)
    }

    fn read_tags(buf: &mut Bytes, version: i16) -> (r: Result<Vec<RawTaggedField>, Error>)
        ensures
            read_vec_as(Self::spec_read_tags(bytes_seq(*old(buf)), version), *final(buf), r),
            took_front(*old(buf), *final(buf)),
    {
        proof {
            reveal(SnapshotId::spec_read_tags);
        }
        Ok(read_tagged_fields(buf)?)
    }

    pub fn read(buf: &mut Bytes, version: i16) -> (r: Result<Self, Error>)
        ensures
            read_as(Self::spec_read(bytes_seq(*old(buf)), version), *final(buf), r),
            took_front(*old(buf), *final(buf)),
    {
        let end_offset = Self::read_end_offset(buf, version)?;
        let epoch = Self::read_epoch(buf, version)?;
        let _unknown_tagged_fields = Self::read_tags(buf, version)?;
        Ok(SnapshotId {
                end_offset: end_offset,
                epoch: epoch,
                _unknown_tagged_fields: _unknown_tagged_fields,
        })
    }

    #[verifier::rlimit(60)]
    pub fn write(&self, buf: &mut BytesMut, version: i16) -> (r: Result<(), Error>)
        requires
            has_room(Self::spec_write(self@, version), *old(buf)),
        ensures
            wrote(Self::spec_write(self@, version), *old(buf), *final(buf), r),
    {
        let ghost m = self@;
        proof {
            reveal(SnapshotId::spec_write_end_offset);
            reveal(SnapshotId::spec_write_epoch);
            reveal(SnapshotId::spec_write_tags);
        }
        let ghost s0 = Self::spec_write_end_offset(m, version);
        let ghost w0 = s0;
        let ghost s1 = Self::spec_write_epoch(m, version);
        let ghost w1 = chain(w0, s1);
        let ghost s2 = Self::spec_write_tags(m, version);
        let ghost w2 = chain(w1, s2);
        assert(Self::spec_write(m, version) == w2);
        assert(written(w1).len() <= written(w2).len() && (w1 is Err ==> w2 == w1));
        assert(written(w0).len() <= written(w2).len() && (w0 is Err ==> w2 == w0));
        let ghost mid = bytes_mut_seq(*buf);
        proof {
            lemma_append_empty(mid);
        }
        let r0 = {
            write_i64(buf, self.end_offset);
            Ok(())
        };
        assert(bytes_mut_seq(*buf) == mid + written(s0));
        if r0.is_err() {
            return r0;
        }
        let ghost mid = bytes_mut_seq(*buf);
        proof {
            lemma_append_empty(mid);
        }
        let r1 = {
            write_i32(buf, self.epoch);
            Ok(())
        };
        assert(bytes_mut_seq(*buf) == mid + written(s1));
        proof {
            lemma_step(bytes_mut_seq(*old(buf)), w0, s1);
        }
        if r1.is_err() {
            return r1;
        }
        let ghost mid = bytes_mut_seq(*buf);
        proof {
            lemma_append_empty(mid);
        }
        let r2 = write_tagged_fields(buf, &sort_by_tag(&self._unknown_tagged_fields));
        assert(bytes_mut_seq(*buf) == mid + written(s2));
        proof {
            lemma_step(bytes_mut_seq(*old(buf)), w1, s2);
        }
        if r2.is_err() {
            return r2;
        }
        Ok(())
    }
}

#[derive(Debug, PartialEq)]
pub struct LeaderIdAndEpoch {
    /// The ID of the current leader or -1 if the leader is unknown.
    pub leader_id: i32,
    /// The latest known leader epoch.
    pub leader_epoch: i32,
    pub _unknown_tagged_fields: Vec<RawTaggedField>,
}

/// What a `LeaderIdAndEpoch` holds, as the specification sees it.
#[verifier::ext_equal]
pub struct LeaderIdAndEpochView {
    pub leader_id: i32,
    pub leader_epoch: i32,
    pub unknown_tagged_fields: Seq<(u32, Seq<u8>)>,
}

impl View for LeaderIdAndEpoch {
    type V = LeaderIdAndEpochView;

    open spec fn view(&self) -> LeaderIdAndEpochView {
        LeaderIdAndEpochView {
            leader_id: self.leader_id,
            leader_epoch: self.leader_epoch,
            unknown_tagged_fields: views(self._unknown_tagged_fields@),
        }
    }
}

impl Clone for LeaderIdAndEpoch {
    fn clone(&self) -> (r: Self)
        ensures
            r@ == self@,
    {
        let r = LeaderIdAndEpoch {
            leader_id: self.leader_id,
            leader_epoch: self.leader_epoch,
            _unknown_tagged_fields: clone_vec(&self._unknown_tagged_fields),
        };
        assert(r@ =~= self@);
        r
    }
}

impl ViewClone for LeaderIdAndEpoch {
    fn clone_view(&self) -> (r: Self) {
        self.clone()
    }
}

impl Default for LeaderIdAndEpoch {
    fn default() -> (r: Self)
        ensures
            r@ == Self::default_view(),
    {
        let r = LeaderIdAndEpoch {
            leader_id: 0_i32,
            leader_epoch: 0_i32,
            _unknown_tagged_fields: empty_vec(),
        };
        assert(r@ =~= Self::default_view());
        r
    }
}

impl LeaderIdAndEpoch {
    pub open spec fn default_view() -> LeaderIdAndEpochView {
        LeaderIdAndEpochView {
            leader_id: 0_i32,
            leader_epoch: 0_i32,
            unknown_tagged_fields: Seq::empty(),
        }
    }

    /// The `leader_id` field, read from the front of `s`.
    #[verifier::opaque]
    pub open spec fn spec_read_leader_id(s: Seq<u8>, version: i16) -> ReadOutcome<i32> {
        spec_read_i32(s)
    }

    /// The `leader_epoch` field, read from the front of `s`.
    #[verifier::opaque]
    pub open spec fn spec_read_leader_epoch(s: Seq<u8>, version: i16) -> ReadOutcome<i32> {
        spec_read_i32(s)
    }

    /// The tagged fields, read from the front of `s`.
    #[verifier::opaque]
    pub open spec fn spec_read_tags(s: Seq<u8>, version: i16) -> ReadOutcome<Seq<(u32, Seq<u8>)>> {
        spec_read_tagged_fields(s)
    }

    pub open spec fn spec_read(s: Seq<u8>, version: i16) -> ReadOutcome<LeaderIdAndEpochView> {
        match (Self::spec_read_leader_id(s, version)) {
            Err(e) => Err(e),
            Ok((leader_id, s)) => match (Self::spec_read_leader_epoch(s, version)) {
                Err(e) => Err(e),
                Ok((leader_epoch, s)) => match (Self::spec_read_tags(s, version)) {
                    Err(e) => Err(e),
                    Ok((unknown_tagged_fields, s)) => Ok((LeaderIdAndEpochView {
                                leader_id: leader_id,
                                leader_epoch: leader_epoch,
                                unknown_tagged_fields: unknown_tagged_fields,
                            }, s)),
                },
            },
        }
    }

    /// What writing the `leader_id` field of `m` appends.
    #[verifier::opaque]
    pub open spec fn spec_write_leader_id(m: LeaderIdAndEpochView, version: i16) -> WriteOutcome {
        spec_write_i32(m.leader_id)
    }

    /// What writing the `leader_epoch` field of `m` appends.
    #[verifier::opaque]
    pub open spec fn spec_write_leader_epoch(m: LeaderIdAndEpochView, version: i16) -> WriteOutcome {
        spec_write_i32(m.leader_epoch)
    }

    /// What writing the tagged fields of `m` appends.
    #[verifier::opaque]
    pub open spec fn spec_write_tags(m: LeaderIdAndEpochView, version: i16) -> WriteOutcome {
        spec_write_tagged_fields(sorted_by_tag(m.unknown_tagged_fields))
    }

    pub open spec fn spec_write(m: LeaderIdAndEpochView, version: i16) -> WriteOutcome {
        chain(
            chain(
                Self::spec_write_leader_id(m, version),
                Self::spec_write_leader_epoch(m, version),
            ),
            Self::spec_write_tags(m, version),
        )
    }

    /// Whether reading back what writing `m` in `version` appends gives `m`:
    /// fields that the version does not carry hold their default values, and
    /// tagged fields come in the order in which they are written.
    pub open spec fn canonical(m: LeaderIdAndEpochView, version: i16) -> bool {
        &&& tags_in_order(m.unknown_tagged_fields)
    }

    proof fn lemma_round_trip_leader_id(m: LeaderIdAndEpochView, version: i16, rest: Seq<u8>)
        requires
            Self::canonical(m, version),
            Self::spec_write_leader_id(m, version) is Ok,
        ensures
            Self::spec_read_leader_id(written(Self::spec_write_leader_id(m, version)) + rest, version) == Ok::<(i32, Seq<u8>), Error>((m.leader_id, rest)),
    {
        reveal(LeaderIdAndEpoch::spec_read_leader_id);
        reveal(LeaderIdAndEpoch::spec_write_leader_id);
        lemma_i32_roundtrip(m.leader_id, rest);
    }

    proof fn lemma_round_trip_leader_epoch(m: LeaderIdAndEpochView, version: i16, rest: Seq<u8>)
        requires
            Self::canonical(m, version),
            Self::spec_write_leader_epoch(m, version) is Ok,
        ensures
            Self::spec_read_leader_epoch(written(Self::spec_write_leader_epoch(m, version)) + rest, version) == Ok::<(i32, Seq<u8>), Error>((m.leader_epoch, rest)),
    {
        reveal(LeaderIdAndEpoch::spec_read_leader_epoch);
        reveal(LeaderIdAndEpoch::spec_write_leader_epoch);
        lemma_i32_roundtrip(m.leader_epoch, rest);
    }

    proof fn lemma_round_trip_tags(m: LeaderIdAndEpochView, version: i16, rest: Seq<u8>)
        requires
            Self::canonical(m, version),
            Self::spec_write_tags(m, version) is Ok,
        ensures
            Self::spec_read_tags(written(Self::spec_write_tags(m, version)) + rest, version) == Ok::<(Seq<(u32, Seq<u8>)>, Seq<u8>), Error>((m.unknown_tagged_fields, rest)),
    {
        reveal(LeaderIdAndEpoch::spec_read_tags);
        reveal(LeaderIdAndEpoch::spec_write_tags);
        lemma_sorted_by_tag_in_order(m.unknown_tagged_fields);
        lemma_tagged_fields_round_trip(m.unknown_tagged_fields, rest);
    }

    /// Reading back what writing `m` in `version` appends gives `m` again, and
    /// leaves what follows, for every canonical message whose write succeeds.
    #[verifier::rlimit(70)]
    #[verifier::spinoff_prover]
    pub proof fn lemma_round_trip(m: LeaderIdAndEpochView, version: i16, rest: Seq<u8>)
        requires
            Self::canonical(m, version),
            Self::spec_write(m, version) is Ok,
        ensures
            Self::spec_read(written(Self::spec_write(m, version)) + rest, version) == Ok::<(LeaderIdAndEpochView, Seq<u8>), Error>((m, rest)),
    {
        let b0 = written(Self::spec_write_leader_id(m, version));
        let b1 = written(Self::spec_write_leader_epoch(m, version));
        let b2 = written(Self::spec_write_tags(m, version));
        let t3 = rest;
        let t2 = b2 + t3;
        let t1 = b1 + t2;
        let t0 = b0 + t1;
        let w0 = Self::spec_write_leader_id(m, version);
        let w1 = chain(w0, Self::spec_write_leader_epoch(m, version));
        let w2 = chain(w1, Self::spec_write_tags(m, version));
        assert(Self::spec_write(m, version) == w2);
        assert(written(w2) + t3 =~= written(w1) + t2);
        assert(written(w1) + t2 =~= written(w0) + t1);
        Self::lemma_round_trip_leader_id(m, version, t1);
        Self::lemma_round_trip_leader_epoch(m, version, t2);
        Self::lemma_round_trip_tags(m, version, t3);
    }

    /// The default message holds the default value of each field of the schema.
    pub proof fn lemma_default_values()
        ensures
            Self::default_view().leader_id == (0_i32),
            Self::default_view().leader_epoch == (0_i32),
            Self::default_view().unknown_tagged_fields.len() == 0,
    {
    }

    /// Each integer, boolean and identifier field is written as its standard
    /// big-endian bytes (a boolean as `1` or `0`) in the versions that carry
    /// it, and as nothing in the others; reading it takes those bytes back (any
    /// byte other than `0` reads as `true`), or gives its default value.
    pub proof fn lemma_field_encodings(m: LeaderIdAndEpochView, s: Seq<u8>, version: i16)
        ensures
            true ==> Self::spec_write_leader_id(m, version) == Ok::<Seq<u8>, (Error, Seq<u8>)>(u32_bytes(m.leader_id as u32)),
            true ==> Self::spec_write_leader_epoch(m, version) == Ok::<Seq<u8>, (Error, Seq<u8>)>(u32_bytes(m.leader_epoch as u32)),
            true ==> Self::spec_read_leader_id(s, version) == spec_read_i32(s),
            true ==> Self::spec_read_leader_epoch(s, version) == spec_read_i32(s),
    {
        reveal(LeaderIdAndEpoch::spec_write_leader_id);
        reveal(LeaderIdAndEpoch::spec_read_leader_id);
        reveal(LeaderIdAndEpoch::spec_write_leader_epoch);
        reveal(LeaderIdAndEpoch::spec_read_leader_epoch);
    }

    /// Whether writing `m` in `version` succeeds, said over its parts: the
    /// version is one the schema covers, every field that the version cannot
    /// carry holds its default value, and every string, byte string, array and
    /// tagged field fits its length prefix.
    pub open spec fn writable(m: LeaderIdAndEpochView, version: i16) -> bool {
        &&& m.unknown_tagged_fields.len() <= u32::MAX && tags_fit(m.unknown_tagged_fields)
    }

    proof fn lemma_writable_leader_id(m: LeaderIdAndEpochView, version: i16)
        ensures
            Self::spec_write_leader_id(m, version) is Ok <==> true,
    {
        reveal(LeaderIdAndEpoch::spec_write_leader_id);
    }

    proof fn lemma_writable_leader_epoch(m: LeaderIdAndEpochView, version: i16)
        ensures
            Self::spec_write_leader_epoch(m, version) is Ok <==> true,
    {
        reveal(LeaderIdAndEpoch::spec_write_leader_epoch);
    }

    proof fn lemma_writable_tags(m: LeaderIdAndEpochView, version: i16)
        ensures
            Self::spec_write_tags(m, version) is Ok <==> m.unknown_tagged_fields.len() <= u32::MAX && tags_fit(m.unknown_tagged_fields),
    {
        reveal(LeaderIdAndEpoch::spec_write_tags);
        lemma_sorted_tags_fit(m.unknown_tagged_fields);
        lemma_tagged_fields_writable(sorted_by_tag(m.unknown_tagged_fields));
    }

    /// Writing `m` in `version` succeeds exactly when `m` is writable in it;
    /// so do `write` and `encoded_len`, whose results follow `spec_write`.
    #[verifier::rlimit(48)]
    pub proof fn lemma_writable(m: LeaderIdAndEpochView, version: i16)
        ensures
            Self::spec_write(m, version) is Ok <==> Self::writable(m, version),
    {
        Self::lemma_writable_leader_id(m, version);
        Self::lemma_writable_leader_epoch(m, version);
        Self::lemma_writable_tags(m, version);
    }

    /// Whether `v` is what `default` gives.
    pub open spec fn is_default_view(v: LeaderIdAndEpochView) -> bool {
        &&& v.leader_id == 0_i32
        &&& v.leader_epoch == 0_i32
        &&& v.unknown_tagged_fields.len() == 0
    }

    /// `is_default_view` holds of exactly the value that `default` gives.
    pub proof fn lemma_is_default(v: LeaderIdAndEpochView)
        ensures
            Self::is_default_view(v) <==> v == Self::default_view(),
    {
        if Self::is_default_view(v) {
            assert(v.unknown_tagged_fields =~= Seq::empty());
        }
    }

    /// Whether this is what `default` gives.
    pub fn is_default(&self) -> (r: bool)
        ensures
            r == Self::is_default_view(self@),
    {
        self.leader_id == 0_i32 && self.leader_epoch == 0_i32 && self._unknown_tagged_fields.len() == 0
    }

    fn read_leader_id(buf: &mut Bytes, version: i16) -> (r: Result<i32, Error>)
        ensures
            read_as(Self::spec_read_leader_id(bytes_seq(*old(buf)), version), *final(buf), r),
            took_front(*old(buf), *final(buf)),
    {
        proof {
            reveal(LeaderIdAndEpoch::spec_read_leader_id);
        }
        Ok(read_i32(buf)?)
    }

    fn read_leader_epoch(buf: &mut Bytes, version: i16) -> (r: Result<i32, Error>)
        ensures
            read_as(Self::spec_read_leader_epoch(bytes_seq(*old(buf)), version), *final(buf), r),
            took_front(*old(buf), *final(buf)),
    {
        proof {
            reveal(LeaderIdAndEpoch::spec_read_leader_epoch);
        }
        Ok(read_i32(buf)?)
    }

    fn read_tags(buf: &mut Bytes, version: i16) -> (r: Result<Vec<RawTaggedField>, Error>)
        ensures
            read_vec_as(Self::spec_read_tags(bytes_seq(*old(buf)), version), *final(buf), r),
            took_front(*old(buf), *final(buf)),
    {
        proof {
            reveal(LeaderIdAndEpoch::spec_read_tags);
        }
        Ok(read_tagged_fields(buf)?)
    }

    pub fn read(buf: &mut Bytes, version: i16) -> (r: Result<Self, Error>)
        ensures
            read_as(Self::spec_read(bytes_seq(*old(buf)), version), *final(buf), r),
            took_front(*old(buf), *final(buf)),
    {
        let leader_id = Self::read_leader_id(buf, version)?;
        let leader_epoch = Self::read_leader_epoch(buf, version)?;
        let _unknown_tagged_fields = Self::read_tags(buf, version)?;
        Ok(LeaderIdAndEpoch {
                leader_id: leader_id,
                leader_epoch: leader_epoch,
                _unknown_tagged_fields: _unknown_tagged_fields,
        })
    }

    #[verifier::rlimit(60)]
    pub fn write(&self, buf: &mut BytesMut, version: i16) -> (r: Result<(), Error>)
        requires
            has_room(Self::spec_write(self@, version), *old(buf)),
        ensures
            wrote(Self::spec_write(self@, version), *old(buf), *final(buf), r),
    {
        let ghost m = self@;
        proof {
            reveal(LeaderIdAndEpoch::spec_write_leader_id);
            reveal(LeaderIdAndEpoch::spec_write_leader_epoch);
            reveal(LeaderIdAndEpoch::spec_write_tags);
        }
        let ghost s0 = Self::spec_write_leader_id(m, version);
        let ghost w0 = s0;
        let ghost s1 = Self::spec_write_leader_epoch(m, version);
        let ghost w1 = chain(w0, s1);
        let ghost s2 = Self::spec_write_tags(m, version);
        let ghost w2 = chain(w1, s2);
        assert(Self::spec_write(m, version) == w2);
        assert(written(w1).len() <= written(w2).len() && (w1 is Err ==> w2 == w1));
        assert(written(w0).len() <= written(w2).len() && (w0 is Err ==> w2 == w0));
        let ghost mid = bytes_mut_seq(*buf);
        proof {
            lemma_append_empty(mid);
        }
        let r0 = {
            write_i32(buf, self.leader_id);
            Ok(())
        };
        assert(bytes_mut_seq(*buf) == mid + written(s0));
        if r0.is_err() {
            return r0;
        }
        let ghost mid = bytes_mut_seq(*buf);
        proof {
            lemma_append_empty(mid);
        }
        let r1 = {
            write_i32(buf, self.leader_epoch);
            Ok(())
        };
        assert(bytes_mut_seq(*buf) == mid + written(s1));
        proof {
            lemma_step(bytes_mut_seq(*old(buf)), w0, s1);
        }
        if r1.is_err() {
            return r1;
        }
        let ghost mid = bytes_mut_seq(*buf);
        proof {
            lemma_append_empty(mid);
        }
        let r2 = write_tagged_fields(buf, &sort_by_tag(&self._unknown_tagged_fields));
        assert(bytes_mut_seq(*buf) == mid + written(s2));
        proof {
            lemma_step(bytes_mut_seq(*old(buf)), w1, s2);
        }
        if r2.is_err() {
            return r2;
        }
        Ok(())
    }

    #[verifier::rlimit(60)]
    fn encoded_len(&self, version: i16) -> (r: Result<usize, Error>)
        ensures
            r == len_result(Self::spec_write(self@, version)),
    {
        let ghost m = self@;
        proof {
            reveal(LeaderIdAndEpoch::spec_write_leader_id);
            reveal(LeaderIdAndEpoch::spec_write_leader_epoch);
            reveal(LeaderIdAndEpoch::spec_write_tags);
        }
        let ghost s0 = Self::spec_write_leader_id(m, version);
        let ghost w0 = s0;
        let ghost s1 = Self::spec_write_leader_epoch(m, version);
        let ghost w1 = chain(w0, s1);
        let ghost s2 = Self::spec_write_tags(m, version);
        let ghost w2 = chain(w1, s2);
        assert(Self::spec_write(m, version) == w2);
        assert(w1 is Err ==> w2 == w1);
        assert(w0 is Err ==> w2 == w0);
        let mut len: usize = 0;
        let l0 = Ok(4);
        assert(l0 == len_result(s0));
        let n0 = match l0 {
            Ok(n) => n,
            Err(e) => {
                return Err(e);
            },
        };
        len = saturating_sum(len, n0);
        assert(w0 is Ok && len == saturate(written(w0).len() as int));
        let l1 = Ok(4);
        assert(l1 == len_result(s1));
        let n1 = match l1 {
            Ok(n) => n,
            Err(e) => {
                return Err(e);
            },
        };
        proof {
            lemma_len_step(w0, s1, n1);
        }
        len = saturating_sum(len, n1);
        assert(w1 is Ok && len == saturate(written(w1).len() as int));
        let l2 = tagged_fields_len(&sort_by_tag(&self._unknown_tagged_fields));
        assert(l2 == len_result(s2));
        let n2 = match l2 {
            Ok(n) => n,
            Err(e) => {
                return Err(e);
            },
        };
        proof {
            lemma_len_step(w1, s2, n2);
        }
        len = saturating_sum(len, n2);
        assert(w2 is Ok && len == saturate(written(w2).len() as int));
        Ok(len)
    }
}

#[derive(Debug, PartialEq)]
pub struct NodeEndpoint {
    /// The ID of the associated node.
    pub node_id: i32,
    /// The node's hostname.
    pub host: KafkaString,
    /// The node's port.
    pub port: u16,
    pub _unknown_tagged_fields: Vec<RawTaggedField>,
}

/// What a `NodeEndpoint` holds, as the specification sees it.
#[verifier::ext_equal]
pub struct NodeEndpointView {
    pub node_id: i32,
    pub host: Seq<u8>,
    pub port: u16,
    pub unknown_tagged_fields: Seq<(u32, Seq<u8>)>,
}

impl View for NodeEndpoint {
    type V = NodeEndpointView;

    open spec fn view(&self) -> NodeEndpointView {
        NodeEndpointView {
            node_id: self.node_id,
            host: self.host@,
            port: self.port,
            unknown_tagged_fields: views(self._unknown_tagged_fields@),
        }
    }
}

impl Clone for NodeEndpoint {
    fn clone(&self) -> (r: Self)
        ensures
            r@ == self@,
    {
        let r = NodeEndpoint {
            node_id: self.node_id,
            host: self.host.clone(),
            port: self.port,
            _unknown_tagged_fields: clone_vec(&self._unknown_tagged_fields),
        };
        assert(r@ =~= self@);
        r
    }
}

impl ViewClone for NodeEndpoint {
    fn clone_view(&self) -> (r: Self) {
        self.clone()
    }
}

impl Default for NodeEndpoint {
    fn default() -> (r: Self)
        ensures
            r@ == Self::default_view(),
    {
        let r = NodeEndpoint {
            node_id: 0_i32,
            host: KafkaString::default(),
            port: 0_u16,
            _unknown_tagged_fields: empty_vec(),
        };
        assert(r@ =~= Self::default_view());
        r
    }
}

impl NodeEndpoint {
    pub open spec fn default_view() -> NodeEndpointView {
        NodeEndpointView {
            node_id: 0_i32,
            host: Seq::empty(),
            port: 0_u16,
            unknown_tagged_fields: Seq::empty(),
        }
    }

    /// The `node_id` field, read from the front of `s`.
    #[verifier::opaque]
    pub open spec fn spec_read_node_id(s: Seq<u8>, version: i16) -> ReadOutcome<i32> {
        spec_read_i32(s)
    }

    /// The `host` field, read from the front of `s`.
    #[verifier::opaque]
    pub open spec fn spec_read_host(s: Seq<u8>, version: i16) -> ReadOutcome<Seq<u8>> {
        spec_read_compact_string(s)
    }

    /// The `port` field, read from the front of `s`.
    #[verifier::opaque]
    pub open spec fn spec_read_port(s: Seq<u8>, version: i16) -> ReadOutcome<u16> {
        spec_read_u16(s)
    }

    /// The tagged fields, read from the front of `s`.
    #[verifier::opaque]
    pub open spec fn spec_read_tags(s: Seq<u8>, version: i16) -> ReadOutcome<Seq<(u32, Seq<u8>)>> {
        spec_read_tagged_fields(s)
    }

    pub open spec fn spec_read(s: Seq<u8>, version: i16) -> ReadOutcome<NodeEndpointView> {
        match (Self::spec_read_node_id(s, version)) {
            Err(e) => Err(e),
            Ok((node_id, s)) => match (Self::spec_read_host(s, version)) {
                Err(e) => Err(e),
                Ok((host, s)) => match (Self::spec_read_port(s, version)) {
                    Err(e) => Err(e),
                    Ok((port, s)) => match (Self::spec_read_tags(s, version)) {
                        Err(e) => Err(e),
                        Ok((unknown_tagged_fields, s)) => Ok((NodeEndpointView {
                                    node_id: node_id,
                                    host: host,
                                    port: port,
                                    unknown_tagged_fields: unknown_tagged_fields,
                                }, s)),
                    },
                },
            },
        }
    }

    /// What writing the `node_id` field of `m` appends.
    #[verifier::opaque]
    pub open spec fn spec_write_node_id(m: NodeEndpointView, version: i16) -> WriteOutcome {
        spec_write_i32(m.node_id)
    }

    /// What writing the `host` field of `m` appends.
    #[verifier::opaque]
    pub open spec fn spec_write_host(m: NodeEndpointView, version: i16) -> WriteOutcome {
        spec_write_compact_string(m.host)
    }

    /// What writing the `port` field of `m` appends.
    #[verifier::opaque]
    pub open spec fn spec_write_port(m: NodeEndpointView, version: i16) -> WriteOutcome {
        spec_write_u16(m.port)
    }

    /// What writing the tagged fields of `m` appends.
    #[verifier::opaque]
    pub open spec fn spec_write_tags(m: NodeEndpointView, version: i16) -> WriteOutcome {
        spec_write_tagged_fields(sorted_by_tag(m.unknown_tagged_fields))
    }

    pub open spec fn spec_write(m: NodeEndpointView, version: i16) -> WriteOutcome {
        chain(
            chain(
                chain(
                    Self::spec_write_node_id(m, version),
                    Self::spec_write_host(m, version),
                ),
                Self::spec_write_port(m, version),
            ),
            Self::spec_write_tags(m, version),
        )
    }

    /// Whether reading back what writing `m` in `version` appends gives `m`:
    /// fields that the version does not carry hold their default values, and
    /// tagged fields come in the order in which they are written.
    pub open spec fn canonical(m: NodeEndpointView, version: i16) -> bool {
        &&& tags_in_order(m.unknown_tagged_fields)
    }

    proof fn lemma_round_trip_node_id(m: NodeEndpointView, version: i16, rest: Seq<u8>)
        requires
            Self::canonical(m, version),
            Self::spec_write_node_id(m, version) is Ok,
        ensures
            Self::spec_read_node_id(written(Self::spec_write_node_id(m, version)) + rest, version) == Ok::<(i32, Seq<u8>), Error>((m.node_id, rest)),
    {
        reveal(NodeEndpoint::spec_read_node_id);
        reveal(NodeEndpoint::spec_write_node_id);
        lemma_i32_roundtrip(m.node_id, rest);
    }

    proof fn lemma_round_trip_host(m: NodeEndpointView, version: i16, rest: Seq<u8>)
        requires
            Self::canonical(m, version),
            Self::spec_write_host(m, version) is Ok,
        ensures
            Self::spec_read_host(written(Self::spec_write_host(m, version)) + rest, version) == Ok::<(Seq<u8>, Seq<u8>), Error>((m.host, rest)),
    {
        reveal(NodeEndpoint::spec_read_host);
        reveal(NodeEndpoint::spec_write_host);
        lemma_compact_string_round_trip(m.host, rest);
    }

    proof fn lemma_round_trip_port(m: NodeEndpointView, version: i16, rest: Seq<u8>)
        requires
            Self::canonical(m, version),
            Self::spec_write_port(m, version) is Ok,
        ensures
            Self::spec_read_port(written(Self::spec_write_port(m, version)) + rest, version) == Ok::<(u16, Seq<u8>), Error>((m.port, rest)),
    {
        reveal(NodeEndpoint::spec_read_port);
        reveal(NodeEndpoint::spec_write_port);
        lemma_u16_roundtrip(m.port, rest);
    }

    proof fn lemma_round_trip_tags(m: NodeEndpointView, version: i16, rest: Seq<u8>)
        requires
            Self::canonical(m, version),
            Self::spec_write_tags(m, version) is Ok,
        ensures
            Self::spec_read_tags(written(Self::spec_write_tags(m, version)) + rest, version) == Ok::<(Seq<(u32, Seq<u8>)>, Seq<u8>), Error>((m.unknown_tagged_fields, rest)),
    {
        reveal(NodeEndpoint::spec_read_tags);
        reveal(NodeEndpoint::spec_write_tags);
        lemma_sorted_by_tag_in_order(m.unknown_tagged_fields);
        lemma_tagged_fields_round_trip(m.unknown_tagged_fields, rest);
    }

    /// Reading back what writing `m` in `version` appends gives `m` again, and
    /// leaves what follows, for every canonical message whose write succeeds.
    #[verifier::rlimit(80)]
    #[verifier::spinoff_prover]
    pub proof fn lemma_round_trip(m: NodeEndpointView, version: i16, rest: Seq<u8>)
        requires
            Self::canonical(m, version),
            Self::spec_write(m, version) is Ok,
        ensures
            Self::spec_read(written(Self::spec_write(m, version)) + rest, version) == Ok::<(NodeEndpointView, Seq<u8>), Error>((m, rest)),
    {
        let b0 = written(Self::spec_write_node_id(m, version));
        let b1 = written(Self::spec_write_host(m, version));
        let b2 = written(Self::spec_write_port(m, version));
        let b3 = written(Self::spec_write_tags(m, version));
        let t4 = rest;
        let t3 = b3 + t4;
        let t2 = b2 + t3;
        let t1 = b1 + t2;
        let t0 = b0 + t1;
        let w0 = Self::spec_write_node_id(m, version);
        let w1 = chain(w0, Self::spec_write_host(m, version));
        let w2 = chain(w1, Self::spec_write_port(m, version));
        let w3 = chain(w2, Self::spec_write_tags(m, version));
        assert(Self::spec_write(m, version) == w3);
        assert(written(w3) + t4 =~= written(w2) + t3);
        assert(written(w2) + t3 =~= written(w1) + t2);
        assert(written(w1) + t2 =~= written(w0) + t1);
        Self::lemma_round_trip_node_id(m, version, t1);
        Self::lemma_round_trip_host(m, version, t2);
        Self::lemma_round_trip_port(m, version, t3);
        Self::lemma_round_trip_tags(m, version, t4);
    }

    /// The default message holds the default value of each field of the schema.
    pub proof fn lemma_default_values()
        ensures
            Self::default_view().node_id == (0_i32),
            Self::default_view().host.len() == 0,
            Self::default_view().port == (0_u16),
            Self::default_view().unknown_tagged_fields.len() == 0,
    {
    }

    /// Each integer, boolean and identifier field is written as its standard
    /// big-endian bytes (a boolean as `1` or `0`) in the versions that carry
    /// it, and as nothing in the others; reading it takes those bytes back (any
    /// byte other than `0` reads as `true`), or gives its default value.
    pub proof fn lemma_field_encodings(m: NodeEndpointView, s: Seq<u8>, version: i16)
        ensures
            true ==> Self::spec_write_node_id(m, version) == Ok::<Seq<u8>, (Error, Seq<u8>)>(u32_bytes(m.node_id as u32)),
            true ==> Self::spec_write_port(m, version) == Ok::<Seq<u8>, (Error, Seq<u8>)>(u16_bytes(m.port)),
            true ==> Self::spec_read_node_id(s, version) == spec_read_i32(s),
            true ==> Self::spec_read_port(s, version) == spec_read_u16(s),
    {
        reveal(NodeEndpoint::spec_write_node_id);
        reveal(NodeEndpoint::spec_read_node_id);
        reveal(NodeEndpoint::spec_write_port);
        reveal(NodeEndpoint::spec_read_port);
    }

    /// Whether writing `m` in `version` succeeds, said over its parts: the
    /// version is one the schema covers, every field that the version cannot
    /// carry holds its default value, and every string, byte string, array and
    /// tagged field fits its length prefix.
    pub open spec fn writable(m: NodeEndpointView, version: i16) -> bool {
        &&& m.host.len() <= 0x7fff
        &&& m.unknown_tagged_fields.len() <= u32::MAX && tags_fit(m.unknown_tagged_fields)
    }

    proof fn lemma_writable_node_id(m: NodeEndpointView, version: i16)
        ensures
            Self::spec_write_node_id(m, version) is Ok <==> true,
    {
        reveal(NodeEndpoint::spec_write_node_id);
    }

    proof fn lemma_writable_host(m: NodeEndpointView, version: i16)
        ensures
            Self::spec_write_host(m, version) is Ok <==> m.host.len() <= 0x7fff,
    {
        reveal(NodeEndpoint::spec_write_host);
    }

    proof fn lemma_writable_port(m: NodeEndpointView, version: i16)
        ensures
            Self::spec_write_port(m, version) is Ok <==> true,
    {
        reveal(NodeEndpoint::spec_write_port);
    }

    proof fn lemma_writable_tags(m: NodeEndpointView, version: i16)
        ensures
            Self::spec_write_tags(m, version) is Ok <==> m.unknown_tagged_fields.len() <= u32::MAX && tags_fit(m.unknown_tagged_fields),
    {
        reveal(NodeEndpoint::spec_write_tags);
        lemma_sorted_tags_fit(m.unknown_tagged_fields);
        lemma_tagged_fields_writable(sorted_by_tag(m.unknown_tagged_fields));
    }

    /// Writing `m` in `version` succeeds exactly when `m` is writable in it;
    /// so do `write` and `encoded_len`, whose results follow `spec_write`.
    #[verifier::rlimit(54)]
    pub proof fn lemma_writable(m: NodeEndpointView, version: i16)
        ensures
            Self::spec_write(m, version) is Ok <==> Self::writable(m, version),
    {
        Self::lemma_writable_node_id(m, version);
        Self::lemma_writable_host(m, version);
        Self::lemma_writable_port(m, version);
        Self::lemma_writable_tags(m, version);
    }

    fn read_node_id(buf: &mut Bytes, version: i16) -> (r: Result<i32, Error>)
        ensures
            read_as(Self::spec_read_node_id(bytes_seq(*old(buf)), version), *final(buf), r),
            took_front(*old(buf), *final(buf)),
    {
        proof {
            reveal(NodeEndpoint::spec_read_node_id);
        }
        Ok(read_i32(buf)?)
    }

    fn read_host(buf: &mut Bytes, version: i16) -> (r: Result<KafkaString, Error>)
        ensures
            read_as(Self::spec_read_host(bytes_seq(*old(buf)), version), *final(buf), r),
            took_front(*old(buf), *final(buf)),
    {
        proof {
            reveal(NodeEndpoint::spec_read_host);
        }
        Ok(read_compact_string(buf)?)
    }

    fn read_port(buf: &mut Bytes, version: i16) -> (r: Result<u16, Error>)
        ensures
            read_as(Self::spec_read_port(bytes_seq(*old(buf)), version), *final(buf), r),
            took_front(*old(buf), *final(buf)),
    {
        proof {
            reveal(NodeEndpoint::spec_read_port);
        }
        Ok(read_u16(buf)?)
    }

    fn read_tags(buf: &mut Bytes, version: i16) -> (r: Result<Vec<RawTaggedField>, Error>)
        ensures
            read_vec_as(Self::spec_read_tags(bytes_seq(*old(buf)), version), *final(buf), r),
            took_front(*old(buf), *final(buf)),
    {
        proof {
            reveal(NodeEndpoint::spec_read_tags);
        }
        Ok(read_tagged_fields(buf)?)
    }

    pub fn read(buf: &mut Bytes, version: i16) -> (r: Result<Self, Error>)
        ensures
            read_as(Self::spec_read(bytes_seq(*old(buf)), version), *final(buf), r),
            took_front(*old(buf), *final(buf)),
    {
        let node_id = Self::read_node_id(buf, version)?;
        let host = Self::read_host(buf, version)?;
        let port = Self::read_port(buf, version)?;
        let _unknown_tagged_fields = Self::read_tags(buf, version)?;
        Ok(NodeEndpoint {
                node_id: node_id,
                host: host,
                port: port,
                _unknown_tagged_fields: _unknown_tagged_fields,
        })
    }

    #[verifier::rlimit(70)]
    pub fn write(&self, buf: &mut BytesMut, version: i16) -> (r: Result<(), Error>)
        requires
            has_room(Self::spec_write(self@, version), *old(buf)),
        ensures
            wrote(Self::spec_write(self@, version), *old(buf), *final(buf), r),
    {
        let ghost m = self@;
        proof {
            reveal(NodeEndpoint::spec_write_node_id);
            reveal(NodeEndpoint::spec_write_host);
            reveal(NodeEndpoint::spec_write_port);
            reveal(NodeEndpoint::spec_write_tags);
        }
        let ghost s0 = Self::spec_write_node_id(m, version);
        let ghost w0 = s0;
        let ghost s1 = Self::spec_write_host(m, version);
        let ghost w1 = chain(w0, s1);
        let ghost s2 = Self::spec_write_port(m, version);
        let ghost w2 = chain(w1, s2);
        let ghost s3 = Self::spec_write_tags(m, version);
        let ghost w3 = chain(w2, s3);
        assert(Self::spec_write(m, version) == w3);
        assert(written(w2).len() <= written(w3).len() && (w2 is Err ==> w3 == w2));
        assert(written(w1).len() <= written(w3).len() && (w1 is Err ==> w3 == w1));
        assert(written(w0).len() <= written(w3).len() && (w0 is Err ==> w3 == w0));
        let ghost mid = bytes_mut_seq(*buf);
        proof {
            lemma_append_empty(mid);
        }
        let r0 = {
            write_i32(buf, self.node_id);
            Ok(())
        };
        assert(bytes_mut_seq(*buf) == mid + written(s0));
        if r0.is_err() {
            return r0;
        }
        let ghost mid = bytes_mut_seq(*buf);
        proof {
            lemma_append_empty(mid);
        }
        let r1 = write_compact_string(buf, &self.host);
        assert(bytes_mut_seq(*buf) == mid + written(s1));
        proof {
            lemma_step(bytes_mut_seq(*old(buf)), w0, s1);
        }
        if r1.is_err() {
            return r1;
        }
        let ghost mid = bytes_mut_seq(*buf);
        proof {
            lemma_append_empty(mid);
        }
        let r2 = {
            write_u16(buf, self.port);
            Ok(())
        };
        assert(bytes_mut_seq(*buf) == mid + written(s2));
        proof {
            lemma_step(bytes_mut_seq(*old(buf)), w1, s2);
        }
        if r2.is_err() {
            return r2;
        }
        let ghost mid = bytes_mut_seq(*buf);
        proof {
            lemma_append_empty(mid);
        }
        let r3 = write_tagged_fields(buf, &sort_by_tag(&self._unknown_tagged_fields));
        assert(bytes_mut_seq(*buf) == mid + written(s3));
        proof {
            lemma_step(bytes_mut_seq(*old(buf)), w2, s3);
        }
        if r3.is_err() {
            return r3;
        }
        Ok(())
    }

    #[verifier::rlimit(70)]
    fn encoded_len(&self, version: i16) -> (r: Result<usize, Error>)
        ensures
            r == len_result(Self::spec_write(self@, version)),
    {
        let ghost m = self@;
        proof {
            reveal(NodeEndpoint::spec_write_node_id);
            reveal(NodeEndpoint::spec_write_host);
            reveal(NodeEndpoint::spec_write_port);
            reveal(NodeEndpoint::spec_write_tags);
        }
        let ghost s0 = Self::spec_write_node_id(m, version);
        let ghost w0 = s0;
        let ghost s1 = Self::spec_write_host(m, version);
        let ghost w1 = chain(w0, s1);
        let ghost s2 = Self::spec_write_port(m, version);
        let ghost w2 = chain(w1, s2);
        let ghost s3 = Self::spec_write_tags(m, version);
        let ghost w3 = chain(w2, s3);
        assert(Self::spec_write(m, version) == w3);
        assert(w2 is Err ==> w3 == w2);
        assert(w1 is Err ==> w3 == w1);
        assert(w0 is Err ==> w3 == w0);
        let mut len: usize = 0;
        let l0 = Ok(4);
        assert(l0 == len_result(s0));
        let n0 = match l0 {
            Ok(n) => n,
            Err(e) => {
                return Err(e);
            },
        };
        len = saturating_sum(len, n0);
        assert(w0 is Ok && len == saturate(written(w0).len() as int));
        let l1 = compact_string_len(&self.host);
        assert(l1 == len_result(s1));
        let n1 = match l1 {
            Ok(n) => n,
            Err(e) => {
                return Err(e);
            },
        };
        proof {
            lemma_len_step(w0, s1, n1);
        }
        len = saturating_sum(len, n1);
        assert(w1 is Ok && len == saturate(written(w1).len() as int));
        let l2 = Ok(2);
        assert(l2 == len_result(s2));
        let n2 = match l2 {
            Ok(n) => n,
            Err(e) => {
                return Err(e);
            },
        };
        proof {
            lemma_len_step(w1, s2, n2);
        }
        len = saturating_sum(len, n2);
        assert(w2 is Ok && len == saturate(written(w2).len() as int));
        let l3 = tagged_fields_len(&sort_by_tag(&self._unknown_tagged_fields));
        assert(l3 == len_result(s3));
        let n3 = match l3 {
            Ok(n) => n,
            Err(e) => {
                return Err(e);
            },
        };
        proof {
            lemma_len_step(w2, s3, n3);
        }
        len = saturating_sum(len, n3);
        assert(w3 is Ok && len == saturate(written(w3).len() as int));
        Ok(len)
    }
}

impl Codec for TopicSnapshot {
    type Item = TopicSnapshot;

    open spec fn spec_read_item(s: Seq<u8>, version: i16) -> ReadOutcome<TopicSnapshotView> {
        TopicSnapshot::spec_read(s, version)
    }

    open spec fn spec_write_item(v: TopicSnapshotView, version: i16) -> WriteOutcome {
        TopicSnapshot::spec_write(v, version)
    }

    open spec fn canonical_item(v: TopicSnapshotView, version: i16) -> bool {
        TopicSnapshot::canonical(v, version)
    }

    proof fn lemma_item_round_trip(v: TopicSnapshotView, version: i16, rest: Seq<u8>) {
        TopicSnapshot::lemma_round_trip(v, version, rest);
    }

    open spec fn writable_item(v: TopicSnapshotView, version: i16) -> bool {
        TopicSnapshot::writable(v, version)
    }

    proof fn lemma_item_writable(v: TopicSnapshotView, version: i16) {
        TopicSnapshot::lemma_writable(v, version);
    }

    fn read_item(buf: &mut Bytes, version: i16) -> (r: Result<TopicSnapshot, Error>) {
        TopicSnapshot::read(buf, version)
    }

    fn write_item(item: &TopicSnapshot, buf: &mut BytesMut, version: i16) -> (r: Result<(), Error>) {
        item.write(buf, version)
    }
}

impl Codec for PartitionSnapshot {
    type Item = PartitionSnapshot;

    open spec fn spec_read_item(s: Seq<u8>, version: i16) -> ReadOutcome<PartitionSnapshotView> {
        PartitionSnapshot::spec_read(s, version)
    }

    open spec fn spec_write_item(v: PartitionSnapshotView, version: i16) -> WriteOutcome {
        PartitionSnapshot::spec_write(v, version)
    }

    open spec fn canonical_item(v: PartitionSnapshotView, version: i16) -> bool {
        PartitionSnapshot::canonical(v, version)
    }

    proof fn lemma_item_round_trip(v: PartitionSnapshotView, version: i16, rest: Seq<u8>) {
        PartitionSnapshot::lemma_round_trip(v, version, rest);
    }

    open spec fn writable_item(v: PartitionSnapshotView, version: i16) -> bool {
        PartitionSnapshot::writable(v, version)
    }

    proof fn lemma_item_writable(v: PartitionSnapshotView, version: i16) {
        PartitionSnapshot::lemma_writable(v, version);
    }

    fn read_item(buf: &mut Bytes, version: i16) -> (r: Result<PartitionSnapshot, Error>) {
        PartitionSnapshot::read(buf, version)
    }

    fn write_item(item: &PartitionSnapshot, buf: &mut BytesMut, version: i16) -> (r: Result<(), Error>) {
        item.write(buf, version)
    }
}

impl Codec for NodeEndpoint {
    type Item = NodeEndpoint;

    open spec fn spec_read_item(s: Seq<u8>, version: i16) -> ReadOutcome<NodeEndpointView> {
        NodeEndpoint::spec_read(s, version)
    }

    open spec fn spec_write_item(v: NodeEndpointView, version: i16) -> WriteOutcome {
        NodeEndpoint::spec_write(v, version)
    }

    open spec fn canonical_item(v: NodeEndpointView, version: i16) -> bool {
        NodeEndpoint::canonical(v, version)
    }

    proof fn lemma_item_round_trip(v: NodeEndpointView, version: i16, rest: Seq<u8>) {
        NodeEndpoint::lemma_round_trip(v, version, rest);
    }

    open spec fn writable_item(v: NodeEndpointView, version: i16) -> bool {
        NodeEndpoint::writable(v, version)
    }

    proof fn lemma_item_writable(v: NodeEndpointView, version: i16) {
        NodeEndpoint::lemma_writable(v, version);
    }

    fn read_item(buf: &mut Bytes, version: i16) -> (r: Result<NodeEndpoint, Error>) {
        NodeEndpoint::read(buf, version)
    }

    fn write_item(item: &NodeEndpoint, buf: &mut BytesMut, version: i16) -> (r: Result<(), Error>) {
        item.write(buf, version)
    }
}

impl MeasuredCodec for NodeEndpoint {
    fn item_len(item: &NodeEndpoint, version: i16) -> (r: Result<usize, Error>) {
        item.encoded_len(version)
    }
}

} // verus!
