//! The fetch snapshot request message.
use crate::buffer::{bytes_mut_freeze, bytes_mut_new, bytes_mut_seq, bytes_seq};
use crate::codec::{Codec, MeasuredCodec, all_canonical, all_writable, array_len, lemma_array_round_trip, lemma_array_writable, read_array, saturating_sum, spec_read_array, spec_write_array, write_array};
use crate::error::{Error, UnsupportedVersion};
use crate::ints::{lemma_i32_roundtrip, lemma_i64_roundtrip, read_i32, read_i64, spec_read_i32, spec_read_i64, spec_write_i32, spec_write_i64, u32_bytes, u64_bytes, write_i32, write_i64};
use crate::strings::{compact_nullable_string_len, compact_string_len, lemma_compact_nullable_string_round_trip, lemma_compact_string_round_trip, lemma_uuid_round_trip, read_compact_nullable_string, read_compact_string, read_uuid, spec_read_compact_nullable_string, spec_read_compact_string, spec_read_uuid, spec_write_compact_nullable_string, spec_write_compact_string, spec_write_uuid, write_compact_nullable_string, write_compact_string, write_uuid};
use crate::tagged::{append_fields, insert_pos, lemma_insert_pos_after, lemma_insert_pos_bounds, lemma_sorted_by_tag_in_order, lemma_sorted_by_tag_len, lemma_sorted_by_tag_members, lemma_sorted_tags_fit, lemma_tagged_fields_round_trip, lemma_tagged_fields_writable, lemma_tags_fit_concat, lemma_tags_fit_single, lemma_tags_in_order_drop_last, read_tagged_fields, sort_by_tag, sorted_by_tag, spec_read_tagged_fields, spec_write_tagged_fields, tag_entry, tagged_fields_len, tags_fit, tags_in_order, write_tagged_fields};
use crate::types::{KafkaString, KafkaUuid, RawTaggedField, uuid_is_nil};
use crate::wire::{ReadOutcome, ViewClone, WriteOutcome, chain, clone_vec, empty_vec, fail, has_room, lemma_append_empty, lemma_chain_written, lemma_len_step, lemma_step, len_result, opt_view, read_as, read_vec_as, saturate, took_front, views, written, wrote};
use bytes::{Bytes, BytesMut};
use vstd::prelude::*;

verus! {

broadcast use {crate::wire::lemma_chain_written, crate::wire::lemma_took_front_nothing, crate::wire::lemma_took_front_twice};

#[derive(Debug, PartialEq)]
pub struct FetchSnapshotRequestData {
    /// The clusterId if known, this is used to validate metadata fetches prior to broker
    /// registration.
    pub cluster_id: Option<KafkaString>,
    /// The broker ID of the follower.
    pub replica_id: i32,
    /// The maximum bytes to fetch from all of the snapshots.
    pub max_bytes: i32,
    /// The topics to fetch.
    pub topics: Vec<TopicSnapshot>,
    pub _unknown_tagged_fields: Vec<RawTaggedField>,
}

/// What a `FetchSnapshotRequestData` holds, as the specification sees it.
#[verifier::ext_equal]
pub struct FetchSnapshotRequestDataView {
    pub cluster_id: Option<Seq<u8>>,
    pub replica_id: i32,
    pub max_bytes: i32,
    pub topics: Seq<TopicSnapshotView>,
    pub unknown_tagged_fields: Seq<(u32, Seq<u8>)>,
}

impl View for FetchSnapshotRequestData {
    type V = FetchSnapshotRequestDataView;

    open spec fn view(&self) -> FetchSnapshotRequestDataView {
        FetchSnapshotRequestDataView {
            cluster_id: opt_view(self.cluster_id),
            replica_id: self.replica_id,
            max_bytes: self.max_bytes,
            topics: views(self.topics@),
            unknown_tagged_fields: views(self._unknown_tagged_fields@),
        }
    }
}

impl Clone for FetchSnapshotRequestData {
    fn clone(&self) -> (r: Self)
        ensures
            r@ == self@,
    {
        let r = FetchSnapshotRequestData {
            cluster_id: match &self.cluster_id {
                Some(x) => Some(x.clone()),
                None => None,
            },
            replica_id: self.replica_id,
            max_bytes: self.max_bytes,
            topics: clone_vec(&self.topics),
            _unknown_tagged_fields: clone_vec(&self._unknown_tagged_fields),
        };
        assert(r@ =~= self@);
        r
    }
}

impl ViewClone for FetchSnapshotRequestData {
    fn clone_view(&self) -> (r: Self) {
        self.clone()
    }
}

impl Default for FetchSnapshotRequestData {
    fn default() -> (r: Self)
        ensures
            r@ == Self::default_view(),
    {
        let r = FetchSnapshotRequestData {
            cluster_id: None,
            replica_id: -1i32,
            max_bytes: i32::MAX,
            topics: empty_vec(),
            _unknown_tagged_fields: empty_vec(),
        };
        assert(r@ =~= Self::default_view());
        r
    }
}

impl FetchSnapshotRequestData {
    pub open spec fn default_view() -> FetchSnapshotRequestDataView {
        FetchSnapshotRequestDataView {
            cluster_id: None,
            replica_id: -1i32,
            max_bytes: i32::MAX,
            topics: Seq::empty(),
            unknown_tagged_fields: Seq::empty(),
        }
    }

    /// The `replica_id` field, read from the front of `s`.
    #[verifier::opaque]
    pub open spec fn spec_read_replica_id(s: Seq<u8>, version: i16) -> ReadOutcome<i32> {
        spec_read_i32(s)
    }

    /// The `max_bytes` field, read from the front of `s`.
    #[verifier::opaque]
    pub open spec fn spec_read_max_bytes(s: Seq<u8>, version: i16) -> ReadOutcome<i32> {
        spec_read_i32(s)
    }

    /// The `topics` field, read from the front of `s`.
    #[verifier::opaque]
    pub open spec fn spec_read_topics(s: Seq<u8>, version: i16) -> ReadOutcome<Seq<TopicSnapshotView>> {
        spec_read_array::<TopicSnapshot>(s, version, true)
    }

    pub open spec fn spec_read(s: Seq<u8>, version: i16) -> ReadOutcome<FetchSnapshotRequestDataView> {
        if version < 0 || version > 1 {
            Err(Error::UnsupportedVersion(UnsupportedVersion { api_key: 59, version }))
        } else {
            match (Self::spec_read_replica_id(s, version)) {
                Err(e) => Err(e),
                Ok((replica_id, s)) => match (Self::spec_read_max_bytes(s, version)) {
                    Err(e) => Err(e),
                    Ok((max_bytes, s)) => match (Self::spec_read_topics(s, version)) {
                        Err(e) => Err(e),
                        Ok((topics, s)) => match (spec_read_tagged_fields(s)) {
                            Err(e) => Err(e),
                            Ok((tags, s)) => match (match (Self::spec_apply_tags(tags, version)) {
                                    Err(e) => Err(e),
                                    Ok(k) => Ok((k, s)),
                            }) {
                                Err(e) => Err(e),
                                Ok(((cluster_id, unknown_tagged_fields), s)) => Ok((FetchSnapshotRequestDataView {
                                            cluster_id: cluster_id,
                                            replica_id: replica_id,
                                            max_bytes: max_bytes,
                                            topics: topics,
                                            unknown_tagged_fields: unknown_tagged_fields,
                                        }, s)),
                            },
                        },
                    },
                },
            }
        }
    }

    /// What writing the `replica_id` field of `m` appends.
    #[verifier::opaque]
    pub open spec fn spec_write_replica_id(m: FetchSnapshotRequestDataView, version: i16) -> WriteOutcome {
        spec_write_i32(m.replica_id)
    }

    /// What writing the `max_bytes` field of `m` appends.
    #[verifier::opaque]
    pub open spec fn spec_write_max_bytes(m: FetchSnapshotRequestDataView, version: i16) -> WriteOutcome {
        spec_write_i32(m.max_bytes)
    }

    /// What writing the `topics` field of `m` appends.
    #[verifier::opaque]
    pub open spec fn spec_write_topics(m: FetchSnapshotRequestDataView, version: i16) -> WriteOutcome {
        spec_write_array::<TopicSnapshot>(m.topics, version, true)
    }

    /// What writing the tagged fields of `m` appends.
    #[verifier::opaque]
    pub open spec fn spec_write_tags(m: FetchSnapshotRequestDataView, version: i16) -> WriteOutcome {
        match (Self::spec_known_tags(m, version)) {
            Err(e) => fail(e),
            Ok(k) => spec_write_tagged_fields(sorted_by_tag(k + m.unknown_tagged_fields)),
        }
    }

    pub open spec fn spec_write(m: FetchSnapshotRequestDataView, version: i16) -> WriteOutcome {
        if version < 0 || version > 1 {
            fail(Error::UnsupportedVersion(UnsupportedVersion { api_key: 59, version }))
        } else {
            chain(
                chain(
                    chain(
                        Self::spec_write_replica_id(m, version),
                        Self::spec_write_max_bytes(m, version),
                    ),
                    Self::spec_write_topics(m, version),
                ),
                Self::spec_write_tags(m, version),
            )
        }
    }

    /// Whether reading back what writing `m` in `version` appends gives `m`:
    /// fields that the version does not carry hold their default values, and
    /// tagged fields come in the order in which they are written.
    pub open spec fn canonical(m: FetchSnapshotRequestDataView, version: i16) -> bool {
        &&& all_canonical::<TopicSnapshot>(m.topics, version)
        &&& (if m.cluster_id is Some {
                true
            } else {
                m.cluster_id is None
        })
        &&& (tags_in_order(m.unknown_tagged_fields) && forall|i: int| 0 <= i < m.unknown_tagged_fields.len() ==> !#[trigger] Self::is_known_tag(m.unknown_tagged_fields[i].0))
    }

    proof fn lemma_round_trip_replica_id(m: FetchSnapshotRequestDataView, version: i16, rest: Seq<u8>)
        requires
            Self::canonical(m, version),
            Self::spec_write_replica_id(m, version) is Ok,
        ensures
            Self::spec_read_replica_id(written(Self::spec_write_replica_id(m, version)) + rest, version) == Ok::<(i32, Seq<u8>), Error>((m.replica_id, rest)),
    {
        reveal(FetchSnapshotRequestData::spec_read_replica_id);
        reveal(FetchSnapshotRequestData::spec_write_replica_id);
        lemma_i32_roundtrip(m.replica_id, rest);
    }

    proof fn lemma_round_trip_max_bytes(m: FetchSnapshotRequestDataView, version: i16, rest: Seq<u8>)
        requires
            Self::canonical(m, version),
            Self::spec_write_max_bytes(m, version) is Ok,
        ensures
            Self::spec_read_max_bytes(written(Self::spec_write_max_bytes(m, version)) + rest, version) == Ok::<(i32, Seq<u8>), Error>((m.max_bytes, rest)),
    {
        reveal(FetchSnapshotRequestData::spec_read_max_bytes);
        reveal(FetchSnapshotRequestData::spec_write_max_bytes);
        lemma_i32_roundtrip(m.max_bytes, rest);
    }

    proof fn lemma_round_trip_topics(m: FetchSnapshotRequestDataView, version: i16, rest: Seq<u8>)
        requires
            Self::canonical(m, version),
            Self::spec_write_topics(m, version) is Ok,
        ensures
            Self::spec_read_topics(written(Self::spec_write_topics(m, version)) + rest, version) == Ok::<(Seq<TopicSnapshotView>, Seq<u8>), Error>((m.topics, rest)),
    {
        reveal(FetchSnapshotRequestData::spec_read_topics);
        reveal(FetchSnapshotRequestData::spec_write_topics);
        lemma_array_round_trip::<TopicSnapshot>(m.topics, version, true, rest);
    }

    proof fn lemma_apply_known_tags(m: FetchSnapshotRequestDataView, version: i16)
        requires
            Self::canonical(m, version),
            Self::spec_known_tags(m, version) is Ok,
        ensures
            tags_in_order(Self::spec_known_tags(m, version)->Ok_0),
            forall|i: int| 0 <= i < Self::spec_known_tags(m, version)->Ok_0.len() ==> #[trigger] Self::is_known_tag(Self::spec_known_tags(m, version)->Ok_0[i].0),
            Self::spec_apply_tags(Self::spec_known_tags(m, version)->Ok_0, version) == Ok::<(Option<Seq<u8>>, Seq<(u32, Seq<u8>)>), Error>((m.cluster_id, Seq::empty())),
    {
        assert(Self::spec_apply_tags(Seq::empty(), version) == Ok::<(Option<Seq<u8>>, Seq<(u32, Seq<u8>)>), Error>((None, Seq::empty())));
        let e0 = if m.cluster_id is Some {
            tag_entry(0u32, spec_write_compact_nullable_string(m.cluster_id))
        } else {
            Ok(Seq::empty())
        };
        let k0 = e0->Ok_0;
        let p0 = k0;
        if m.cluster_id is Some {
            lemma_compact_nullable_string_round_trip(m.cluster_id, Seq::<u8>::empty());
            assert(written(spec_write_compact_nullable_string(m.cluster_id)) + Seq::<u8>::empty() =~= written(spec_write_compact_nullable_string(m.cluster_id)));
            assert(p0.drop_last() =~= Seq::<(u32, Seq<u8>)>::empty());
        } else {
        }
        assert(tags_in_order(p0));
        assert(forall|i: int| 0 <= i < p0.len() ==> p0[i].0 <= 0u32);
        assert(forall|i: int| 0 <= i < p0.len() ==> #[trigger] Self::is_known_tag(p0[i].0));
        assert(Self::spec_apply_tags(p0, version) == Ok::<(Option<Seq<u8>>, Seq<(u32, Seq<u8>)>), Error>((m.cluster_id, Seq::empty())));
        assert(Self::spec_known_tags(m, version)->Ok_0 =~= p0);
    }

    proof fn lemma_apply_tags_append(st: (Option<Seq<u8>>, Seq<(u32, Seq<u8>)>), a: Seq<(u32, Seq<u8>)>, b: Seq<(u32, Seq<u8>)>, version: i16)
        ensures
            Self::spec_apply_tags_from(st, a + b, version) == (match Self::spec_apply_tags_from(st, a, version) {
            Err(e) => Err(e),
            Ok(s2) => Self::spec_apply_tags_from(s2, b, version),
            }),
            decreases b.len(),
    {
        if b.len() == 0 {
            assert(a + b =~= a);
        } else {
            assert((a + b).drop_last() =~= a + b.drop_last());
            assert((a + b).last() == b.last());
            Self::lemma_apply_tags_append(st, a, b.drop_last(), version);
        }
    }

    proof fn lemma_apply_known_only(st: (Option<Seq<u8>>, Seq<(u32, Seq<u8>)>), us: Seq<(u32, Seq<u8>)>, b: Seq<(u32, Seq<u8>)>, version: i16)
        requires
            forall|i: int| 0 <= i < b.len() ==> #[trigger] Self::is_known_tag(b[i].0),
        ensures
            match Self::spec_apply_tags_from(st, b, version) {
            Err(e) => Self::spec_apply_tags_from((st.0, us), b, version) == Err::<(Option<Seq<u8>>, Seq<(u32, Seq<u8>)>), Error>(e),
            Ok(r) => r.1 == st.1 && Self::spec_apply_tags_from((st.0, us), b, version) == Ok::<(Option<Seq<u8>>, Seq<(u32, Seq<u8>)>), Error>((r.0, us)),
            },
            decreases b.len(),
    {
        if b.len() > 0 {
            assert(Self::is_known_tag(b[b.len() - 1].0));
            assert forall|i: int| 0 <= i < b.drop_last().len() implies #[trigger] Self::is_known_tag(b.drop_last()[i].0) by {
                assert(b.drop_last()[i] == b[i]);
                assert(Self::is_known_tag(b[i].0));
            }
            Self::lemma_apply_known_only(st, us, b.drop_last(), version);
        }
    }

    proof fn lemma_apply_sorted(k: Seq<(u32, Seq<u8>)>, u: Seq<(u32, Seq<u8>)>, version: i16)
        requires
            tags_in_order(k),
            tags_in_order(u),
            forall|i: int| 0 <= i < k.len() ==> #[trigger] Self::is_known_tag(k[i].0),
            forall|i: int| 0 <= i < u.len() ==> !#[trigger] Self::is_known_tag(u[i].0),
            Self::spec_apply_tags(k, version) is Ok,
            Self::spec_apply_tags(k, version)->Ok_0.1 == Seq::<(u32, Seq<u8>)>::empty(),
        ensures
            Self::spec_apply_tags(sorted_by_tag(k + u), version) == Ok::<(Option<Seq<u8>>, Seq<(u32, Seq<u8>)>), Error>((Self::spec_apply_tags(k, version)->Ok_0.0, u)),
            decreases u.len(),
    {
        let r = Self::spec_apply_tags(k, version)->Ok_0;
        if u.len() == 0 {
            assert(k + u =~= k);
            lemma_sorted_by_tag_in_order(k);
            assert(u =~= Seq::<(u32, Seq<u8>)>::empty());
        } else {
            let u1 = u.drop_last();
            let x = u.last();
            lemma_tags_in_order_drop_last(u);
            assert forall|i: int| 0 <= i < u1.len() implies !#[trigger] Self::is_known_tag(u1[i].0) by {
                assert(u1[i] == u[i]);
                assert(!Self::is_known_tag(u[i].0));
            }
            Self::lemma_apply_sorted(k, u1, version);
            let ku = k + u1;
            let t = sorted_by_tag(ku);
            assert((k + u).drop_last() =~= ku);
            assert((k + u).last() == x);
            let p = insert_pos(t, x.0);
            lemma_insert_pos_bounds(t, x.0);
            lemma_insert_pos_after(t, x.0);
            lemma_sorted_by_tag_members(ku);
            lemma_sorted_by_tag_len(ku);
            let head = t.subrange(0, p);
            let tail = t.subrange(p, t.len() as int);
            assert forall|i: int| 0 <= i < tail.len() implies #[trigger] Self::is_known_tag(tail[i].0) by {
                let y = t[p + i];
                assert(tail[i] == y);
                assert(y.0 > x.0);
                assert(ku.contains(y));
                let j = choose|j: int| 0 <= j < ku.len() && ku[j] == y;
                if j >= k.len() {
                    assert(u[j - k.len()] == y);
                    assert(u[j - k.len()].0 <= u[u.len() - 1].0);
                    assert(false);
                } else {
                    assert(k[j] == y);
                    assert(Self::is_known_tag(k[j].0));
                }
            }
            assert(t =~= head + tail);
            assert(sorted_by_tag(k + u) =~= head.push(x) + tail);
            Self::lemma_apply_tags_append((None, Seq::empty()), head, tail, version);
            Self::lemma_apply_tags_append((None, Seq::empty()), head.push(x), tail, version);
            let sa = Self::spec_apply_tags(head, version)->Ok_0;
            assert(head.push(x).drop_last() =~= head);
            assert(!Self::is_known_tag(x.0)) by {
                assert(u[u.len() - 1] == x);
            }
            Self::lemma_apply_known_only(sa, sa.1.push(x), tail, version);
            assert(u1.push(x) =~= u);
        }
    }

    /// The tagged fields that a flexible version writes: each known one that
    /// the version carries and that does not hold its default value, in the
    /// order of the tags, merged by tag with the unknown ones.
    pub proof fn lemma_tag_section(m: FetchSnapshotRequestDataView, version: i16)
        ensures
            Self::spec_write_tags(m, version) == (match Self::spec_known_tags(m, version) {
            Err(e) => fail(e),
            Ok(k) => spec_write_tagged_fields(sorted_by_tag(k + m.unknown_tagged_fields)),
            }),
            Self::spec_known_tags(m, version) is Ok ==> Self::spec_known_tags(m, version)->Ok_0 == (if m.cluster_id is Some { seq![(0u32, written(spec_write_compact_nullable_string(m.cluster_id)))] } else { Seq::<(u32, Seq<u8>)>::empty() }),
    {
        reveal(FetchSnapshotRequestData::spec_write_tags);
        if Self::spec_known_tags(m, version) is Ok {
            assert(Self::spec_known_tags(m, version)->Ok_0 =~= (if m.cluster_id is Some {
                        seq![(0u32, written(spec_write_compact_nullable_string(m.cluster_id)))]
                    } else {
                        Seq::<(u32, Seq<u8>)>::empty()
            }));
        }
    }

    proof fn lemma_round_trip_tags(m: FetchSnapshotRequestDataView, version: i16, rest: Seq<u8>)
        requires
            Self::canonical(m, version),
            Self::spec_write_tags(m, version) is Ok,
        ensures
            spec_read_tagged_fields(written(Self::spec_write_tags(m, version)) + rest) matches Ok((tags, r2)) && r2 == rest && Self::spec_apply_tags(tags, version) == Ok::<(Option<Seq<u8>>, Seq<(u32, Seq<u8>)>), Error>((m.cluster_id, m.unknown_tagged_fields)),
    {
        reveal(FetchSnapshotRequestData::spec_write_tags);
        let k = Self::spec_known_tags(m, version)->Ok_0;
        Self::lemma_apply_known_tags(m, version);
        Self::lemma_apply_sorted(k, m.unknown_tagged_fields, version);
        lemma_tagged_fields_round_trip(sorted_by_tag(k + m.unknown_tagged_fields), rest);
    }

    /// Reading back what writing `m` in `version` appends gives `m` again, and
    /// leaves what follows, for every canonical message whose write succeeds.
    #[verifier::rlimit(80)]
    #[verifier::spinoff_prover]
    pub proof fn lemma_round_trip(m: FetchSnapshotRequestDataView, version: i16, rest: Seq<u8>)
        requires
            Self::canonical(m, version),
            Self::spec_write(m, version) is Ok,
        ensures
            Self::spec_read(written(Self::spec_write(m, version)) + rest, version) == Ok::<(FetchSnapshotRequestDataView, Seq<u8>), Error>((m, rest)),
    {
        let b0 = written(Self::spec_write_replica_id(m, version));
        let b1 = written(Self::spec_write_max_bytes(m, version));
        let b2 = written(Self::spec_write_topics(m, version));
        let b3 = written(Self::spec_write_tags(m, version));
        let t4 = rest;
        let t3 = b3 + t4;
        let t2 = b2 + t3;
        let t1 = b1 + t2;
        let t0 = b0 + t1;
        let w0 = Self::spec_write_replica_id(m, version);
        let w1 = chain(w0, Self::spec_write_max_bytes(m, version));
        let w2 = chain(w1, Self::spec_write_topics(m, version));
        let w3 = chain(w2, Self::spec_write_tags(m, version));
        assert(Self::spec_write(m, version) == w3);
        assert(written(w3) + t4 =~= written(w2) + t3);
        assert(written(w2) + t3 =~= written(w1) + t2);
        assert(written(w1) + t2 =~= written(w0) + t1);
        Self::lemma_round_trip_replica_id(m, version, t1);
        Self::lemma_round_trip_max_bytes(m, version, t2);
        Self::lemma_round_trip_topics(m, version, t3);
        Self::lemma_round_trip_tags(m, version, t4);
    }

    /// The default message holds the default value of each field of the schema.
    pub proof fn lemma_default_values()
        ensures
            (Self::default_view().cluster_id is None),
            Self::default_view().replica_id == (-1i32),
            Self::default_view().max_bytes == (i32::MAX),
            Self::default_view().topics.len() == 0,
            Self::default_view().unknown_tagged_fields.len() == 0,
    {
    }

    /// Each integer, boolean and identifier field is written as its standard
    /// big-endian bytes (a boolean as `1` or `0`) in the versions that carry
    /// it, and as nothing in the others; reading it takes those bytes back (any
    /// byte other than `0` reads as `true`), or gives its default value.
    pub proof fn lemma_field_encodings(m: FetchSnapshotRequestDataView, s: Seq<u8>, version: i16)
        ensures
            true ==> Self::spec_write_replica_id(m, version) == Ok::<Seq<u8>, (Error, Seq<u8>)>(u32_bytes(m.replica_id as u32)),
            true ==> Self::spec_write_max_bytes(m, version) == Ok::<Seq<u8>, (Error, Seq<u8>)>(u32_bytes(m.max_bytes as u32)),
            true ==> Self::spec_read_replica_id(s, version) == spec_read_i32(s),
            true ==> Self::spec_read_max_bytes(s, version) == spec_read_i32(s),
    {
        reveal(FetchSnapshotRequestData::spec_write_replica_id);
        reveal(FetchSnapshotRequestData::spec_read_replica_id);
        reveal(FetchSnapshotRequestData::spec_write_max_bytes);
        reveal(FetchSnapshotRequestData::spec_read_max_bytes);
    }

    /// Whether writing `m` in `version` succeeds, said over its parts: the
    /// version is one the schema covers, every field that the version cannot
    /// carry holds its default value, and every string, byte string, array and
    /// tagged field fits its length prefix.
    pub open spec fn writable(m: FetchSnapshotRequestDataView, version: i16) -> bool {
        &&& 0 <= version <= 1
        &&& (m.topics.len() <= i32::MAX && all_writable::<TopicSnapshot>(m.topics, version))
        &&& (m.cluster_id is Some ==> (m.cluster_id matches Some(b) ==> b.len() <= 0x7fff) && written(spec_write_compact_nullable_string(m.cluster_id)).len() <= isize::MAX && written(spec_write_compact_nullable_string(m.cluster_id)).len() <= u32::MAX) && (if m.cluster_id is Some { 1int } else { 0int }) + m.unknown_tagged_fields.len() <= u32::MAX && tags_fit(m.unknown_tagged_fields)
    }

    proof fn lemma_writable_replica_id(m: FetchSnapshotRequestDataView, version: i16)
        ensures
            Self::spec_write_replica_id(m, version) is Ok <==> true,
    {
        reveal(FetchSnapshotRequestData::spec_write_replica_id);
    }

    proof fn lemma_writable_max_bytes(m: FetchSnapshotRequestDataView, version: i16)
        ensures
            Self::spec_write_max_bytes(m, version) is Ok <==> true,
    {
        reveal(FetchSnapshotRequestData::spec_write_max_bytes);
    }

    proof fn lemma_writable_topics(m: FetchSnapshotRequestDataView, version: i16)
        ensures
            Self::spec_write_topics(m, version) is Ok <==> (m.topics.len() <= i32::MAX && all_writable::<TopicSnapshot>(m.topics, version)),
    {
        reveal(FetchSnapshotRequestData::spec_write_topics);
        lemma_array_writable::<TopicSnapshot>(m.topics, version, true);
    }

    proof fn lemma_writable_tags(m: FetchSnapshotRequestDataView, version: i16)
        ensures
            Self::spec_write_tags(m, version) is Ok <==> (m.cluster_id is Some ==> (m.cluster_id matches Some(b) ==> b.len() <= 0x7fff) && written(spec_write_compact_nullable_string(m.cluster_id)).len() <= isize::MAX && written(spec_write_compact_nullable_string(m.cluster_id)).len() <= u32::MAX) && (if m.cluster_id is Some { 1int } else { 0int }) + m.unknown_tagged_fields.len() <= u32::MAX && tags_fit(m.unknown_tagged_fields),
    {
        reveal(FetchSnapshotRequestData::spec_write_tags);
        let k = Self::spec_known_tags(m, version);
        lemma_tags_fit_single(0u32, written(spec_write_compact_nullable_string(m.cluster_id)));
        if true {
            Self::lemma_tag_section(m, version);
            if k is Ok {
                lemma_sorted_tags_fit(k->Ok_0 + m.unknown_tagged_fields);
                lemma_tagged_fields_writable(sorted_by_tag(k->Ok_0 + m.unknown_tagged_fields));
                lemma_tags_fit_concat(k->Ok_0, m.unknown_tagged_fields);
            }
        }
    }

    /// Writing `m` in `version` succeeds exactly when `m` is writable in it;
    /// so do `write` and `encoded_len`, whose results follow `spec_write`.
    #[verifier::rlimit(54)]
    pub proof fn lemma_writable(m: FetchSnapshotRequestDataView, version: i16)
        ensures
            Self::spec_write(m, version) is Ok <==> Self::writable(m, version),
    {
        Self::lemma_writable_replica_id(m, version);
        Self::lemma_writable_max_bytes(m, version);
        Self::lemma_writable_topics(m, version);
        Self::lemma_writable_tags(m, version);
    }

    /// A version outside the range that the schema covers is refused, by
    /// reads and by writes alike, before anything is read or written.
    pub proof fn lemma_refused_version(m: FetchSnapshotRequestDataView, s: Seq<u8>, version: i16)
        requires
            version < 0 || version > 1,
        ensures
            Self::spec_read(s, version) == Err::<(FetchSnapshotRequestDataView, Seq<u8>), Error>(Error::UnsupportedVersion(UnsupportedVersion { api_key: 59, version })),
            Self::spec_write(m, version) == fail(Error::UnsupportedVersion(UnsupportedVersion { api_key: 59, version })),
    {
    }

    pub fn with_cluster_id(self, value: Option<KafkaString>) -> (r: Self)
        ensures
            r@ == (FetchSnapshotRequestDataView { cluster_id: opt_view(value), ..self@ }),
    {
        let mut r = self;
        r.cluster_id = value;
        r
    }

    pub fn with_replica_id(self, value: i32) -> (r: Self)
        ensures
            r@ == (FetchSnapshotRequestDataView { replica_id: value, ..self@ }),
    {
        let mut r = self;
        r.replica_id = value;
        r
    }

    pub fn with_max_bytes(self, value: i32) -> (r: Self)
        ensures
            r@ == (FetchSnapshotRequestDataView { max_bytes: value, ..self@ }),
    {
        let mut r = self;
        r.max_bytes = value;
        r
    }

    pub fn with_topics(self, value: Vec<TopicSnapshot>) -> (r: Self)
        ensures
            r@ == (FetchSnapshotRequestDataView { topics: views(value@), ..self@ }),
    {
        let mut r = self;
        r.topics = value;
        r
    }

    /// The known tagged fields and the unknown ones after the tagged field `f`
    /// is read: a known one replaces the value it holds, an unknown one is kept.
    pub open spec fn spec_apply_tag(st: (Option<Seq<u8>>, Seq<(u32, Seq<u8>)>), f: (u32, Seq<u8>), version: i16) -> Result<(Option<Seq<u8>>, Seq<(u32, Seq<u8>)>), Error> {
        if f.0 == 0u32 {
            match (spec_read_compact_nullable_string(f.1)) {
                Err(e) => Err(e),
                Ok((v, _)) => Ok((v, st.1)),
            }
        } else {
            Ok((st.0, st.1.push(f)))
        }
    }

    /// The known tagged fields, and the unknown ones, that reading `tags` in
    /// order gives, starting from `st`.
    pub open spec fn spec_apply_tags_from(st: (Option<Seq<u8>>, Seq<(u32, Seq<u8>)>), tags: Seq<(u32, Seq<u8>)>, version: i16) -> Result<(Option<Seq<u8>>, Seq<(u32, Seq<u8>)>), Error>
    decreases tags.len(),
    {
        if tags.len() == 0 {
            Ok(st)
        } else {
            match Self::spec_apply_tags_from(st, tags.drop_last(), version) {
                Err(e) => Err(e),
                Ok(s2) => Self::spec_apply_tag(s2, tags.last(), version),
            }
        }
    }

    /// The known tagged fields, and the unknown ones, that reading `tags` in
    /// order gives.
    pub open spec fn spec_apply_tags(tags: Seq<(u32, Seq<u8>)>, version: i16) -> Result<(Option<Seq<u8>>, Seq<(u32, Seq<u8>)>), Error> {
        Self::spec_apply_tags_from((None, Seq::empty()), tags, version)
    }

    /// Whether a tagged field with tag `t` is one of the known ones.
    pub open spec fn is_known_tag(t: u32) -> bool {
        t == 0u32
    }

    proof fn lemma_apply_tags_err(tags: Seq<(u32, Seq<u8>)>, i: int, version: i16)
        requires
            0 <= i <= tags.len(),
            Self::spec_apply_tags(tags.take(i), version) is Err,
        ensures
            Self::spec_apply_tags(tags, version) == Self::spec_apply_tags(tags.take(i), version),
            decreases tags.len() - i,
    {
        if i < tags.len() {
            assert(tags.take(i + 1).drop_last() =~= tags.take(i));
            Self::lemma_apply_tags_err(tags, i + 1, version);
        } else {
            assert(tags.take(i) =~= tags);
        }
    }

    fn apply_tags(tags: &Vec<RawTaggedField>, version: i16) -> (r: Result<(Option<KafkaString>, Vec<RawTaggedField>), Error>)
        ensures
            match Self::spec_apply_tags(views(tags@), version) {
            Err(e) => r matches Err(e2) && e2 == e,
            Ok(st) => r matches Ok(x) && opt_view(x.0) == st.0 && views(x.1@) == st.1,
            },
    {
        let ghost ts = views(tags@);
        let mut k_cluster_id: Option<KafkaString> = None;
        let mut unknown: Vec<RawTaggedField> = empty_vec();
        let mut i: usize = 0;
        assert(ts.take(0) =~= Seq::<(u32, Seq<u8>)>::empty());
        while i < tags.len()
        invariant
        0 <= i <= tags.len(),
        ts == views(tags@),
        Self::spec_apply_tags(ts.take(i as int), version) == Ok::<(Option<Seq<u8>>, Seq<(u32, Seq<u8>)>), Error>((opt_view(k_cluster_id), views(unknown@))),
        decreases tags.len() - i,
        {
            let field = &tags[i];
            proof {
                assert(ts.take(i + 1).drop_last() =~= ts.take(i as int));
                assert(ts.take(i + 1).last() == field@);
            }
            if field.tag == 0 {
                let mut tag_buf = field.data.clone();
                k_cluster_id = match read_compact_nullable_string(&mut tag_buf) {
                    Ok(v) => v,
                    Err(e) => {
                        proof {
                            Self::lemma_apply_tags_err(ts, i + 1, version);
                        }
                        return Err(e);
                    },
                };
            } else {
                let ghost before = views(unknown@);
                unknown.push(field.clone());
                proof {
                    assert(views(unknown@) =~= before.push(field@));
                }
            }
            i = i + 1;
        }
        proof {
            assert(ts.take(tags.len() as int) =~= ts);
        }
        Ok((k_cluster_id, unknown))
    }

    /// The known tagged fields that `m` has to write in `version`, in the
    /// order of their tags: those that do not hold their default value.
    pub open spec fn spec_known_tags(m: FetchSnapshotRequestDataView, version: i16) -> Result<Seq<(u32, Seq<u8>)>, Error> {
        match (if m.cluster_id is Some {
                tag_entry(0u32, spec_write_compact_nullable_string(m.cluster_id))
            } else {
                Ok(Seq::empty())
        }) {
            Err(e) => Err(e),
            Ok(k0) => Ok(k0),
        }
    }

    fn known_tagged_fields(&self, version: i16) -> (r: Result<Vec<RawTaggedField>, Error>)
        ensures
            match Self::spec_known_tags(self@, version) {
            Err(e) => r matches Err(e2) && e2 == e,
            Ok(k) => r matches Ok(v) && views(v@) == k,
            },
    {
        let ghost m = self@;
        let ghost w0 = spec_write_compact_nullable_string(m.cluster_id);
        let ghost e0 = if m.cluster_id is Some {
            tag_entry(0u32, w0)
        } else {
            Ok(Seq::empty())
        };
        let mut known: Vec<RawTaggedField> = empty_vec();
        let ghost prev0 = views(known@);
        if self.cluster_id.is_some() {
            let n = match compact_nullable_string_len(&self.cluster_id) {
                Ok(n) => n,
                Err(e) => {
                    return Err(e);
                },
            };
            if n > isize::MAX as usize {
                return Err(Error::ValueTooLong);
            }
            let mut tag_buf = bytes_mut_new();
            let _: Result<(), Error> = write_compact_nullable_string(&mut tag_buf, &self.cluster_id);
            let data = bytes_mut_freeze(tag_buf);
            assert(bytes_seq(data) =~= written(w0));
            known.push(RawTaggedField { tag: 0, data });
        }
        assert(views(known@) =~= prev0 + e0->Ok_0);
        Ok(known)
    }

    fn read_replica_id(buf: &mut Bytes, version: i16) -> (r: Result<i32, Error>)
        ensures
            read_as(Self::spec_read_replica_id(bytes_seq(*old(buf)), version), *final(buf), r),
            took_front(*old(buf), *final(buf)),
    {
        proof {
            reveal(FetchSnapshotRequestData::spec_read_replica_id);
        }
        Ok(read_i32(buf)?)
    }

    fn read_max_bytes(buf: &mut Bytes, version: i16) -> (r: Result<i32, Error>)
        ensures
            read_as(Self::spec_read_max_bytes(bytes_seq(*old(buf)), version), *final(buf), r),
            took_front(*old(buf), *final(buf)),
    {
        proof {
            reveal(FetchSnapshotRequestData::spec_read_max_bytes);
        }
        Ok(read_i32(buf)?)
    }

    fn read_topics(buf: &mut Bytes, version: i16) -> (r: Result<Vec<TopicSnapshot>, Error>)
        ensures
            read_vec_as(Self::spec_read_topics(bytes_seq(*old(buf)), version), *final(buf), r),
            took_front(*old(buf), *final(buf)),
    {
        proof {
            reveal(FetchSnapshotRequestData::spec_read_topics);
        }
        Ok(read_array::<TopicSnapshot>(buf, version, true)?)
    }

    pub fn read(buf: &mut Bytes, version: i16) -> (r: Result<Self, Error>)
        ensures
            read_as(Self::spec_read(bytes_seq(*old(buf)), version), *final(buf), r),
            took_front(*old(buf), *final(buf)),
            (version < 0 || version > 1) ==> bytes_seq(*final(buf)) == bytes_seq(*old(buf)),
    {
        if version < 0 || version > 1 {
            return Err(Error::UnsupportedVersion(UnsupportedVersion::new(59, version)));
        }
        let replica_id = Self::read_replica_id(buf, version)?;
        let max_bytes = Self::read_max_bytes(buf, version)?;
        let topics = Self::read_topics(buf, version)?;
        let (cluster_id, _unknown_tagged_fields) = {
            let tags = read_tagged_fields(buf)?;
            Self::apply_tags(&tags, version)?
        };
        Ok(FetchSnapshotRequestData {
                cluster_id: cluster_id,
                replica_id: replica_id,
                max_bytes: max_bytes,
                topics: topics,
                _unknown_tagged_fields: _unknown_tagged_fields,
        })
    }

    #[verifier::rlimit(70)]
    pub fn write(&self, buf: &mut BytesMut, version: i16) -> (r: Result<(), Error>)
        requires
            has_room(Self::spec_write(self@, version), *old(buf)),
        ensures
            wrote(Self::spec_write(self@, version), *old(buf), *final(buf), r),
    {
        if version < 0 || version > 1 {
            return Err(Error::UnsupportedVersion(UnsupportedVersion::new(59, version)));
        }
        let ghost m = self@;
        proof {
            reveal(FetchSnapshotRequestData::spec_write_replica_id);
            reveal(FetchSnapshotRequestData::spec_write_max_bytes);
            reveal(FetchSnapshotRequestData::spec_write_topics);
            reveal(FetchSnapshotRequestData::spec_write_tags);
        }
        let ghost s0 = Self::spec_write_replica_id(m, version);
        let ghost w0 = s0;
        let ghost s1 = Self::spec_write_max_bytes(m, version);
        let ghost w1 = chain(w0, s1);
        let ghost s2 = Self::spec_write_topics(m, version);
        let ghost w2 = chain(w1, s2);
        let ghost s3 = Self::spec_write_tags(m, version);
        let ghost w3 = chain(w2, s3);
        assert(Self::spec_write(m, version) == w3);
        assert(written(w2).len() <= written(w3).len() && (w2 is Err ==> w3 == w2));
        assert(written(w1).len() <= written(w3).len() && (w1 is Err ==> w3 == w1));
        assert(written(w0).len() <= written(w3).len() && (w0 is Err ==> w3 == w0));
        let ghost mid = bytes_mut_seq(*buf);
        proof {
            lemma_append_empty(mid);
        }
        let r0 = {
            write_i32(buf, self.replica_id);
            Ok(())
        };
        assert(bytes_mut_seq(*buf) == mid + written(s0));
        if r0.is_err() {
            return r0;
        }
        let ghost mid = bytes_mut_seq(*buf);
        proof {
            lemma_append_empty(mid);
        }
        let r1 = {
            write_i32(buf, self.max_bytes);
            Ok(())
        };
        assert(bytes_mut_seq(*buf) == mid + written(s1));
        proof {
            lemma_step(bytes_mut_seq(*old(buf)), w0, s1);
        }
        if r1.is_err() {
            return r1;
        }
        let ghost mid = bytes_mut_seq(*buf);
        proof {
            lemma_append_empty(mid);
        }
        let r2 = write_array::<TopicSnapshot>(buf, &self.topics, version, true);
        assert(bytes_mut_seq(*buf) == mid + written(s2));
        proof {
            lemma_step(bytes_mut_seq(*old(buf)), w1, s2);
        }
        if r2.is_err() {
            return r2;
        }
        let ghost mid = bytes_mut_seq(*buf);
        proof {
            lemma_append_empty(mid);
        }
        let r3 = match self.known_tagged_fields(version) {
            Err(e) => Err(e),
            Ok(known) => {
                let all = append_fields(known, &self._unknown_tagged_fields);
                write_tagged_fields(buf, &sort_by_tag(&all))
            },
        };
        assert(bytes_mut_seq(*buf) == mid + written(s3));
        proof {
            lemma_step(bytes_mut_seq(*old(buf)), w2, s3);
        }
        if r3.is_err() {
            return r3;
        }
        Ok(())
    }

    #[verifier::rlimit(70)]
    pub fn encoded_len(&self, version: i16) -> (r: Result<usize, Error>)
        ensures
            r == len_result(Self::spec_write(self@, version)),
    {
        if version < 0 || version > 1 {
            return Err(Error::UnsupportedVersion(UnsupportedVersion::new(59, version)));
        }
        let ghost m = self@;
        proof {
            reveal(FetchSnapshotRequestData::spec_write_replica_id);
            reveal(FetchSnapshotRequestData::spec_write_max_bytes);
            reveal(FetchSnapshotRequestData::spec_write_topics);
            reveal(FetchSnapshotRequestData::spec_write_tags);
        }
        let ghost s0 = Self::spec_write_replica_id(m, version);
        let ghost w0 = s0;
        let ghost s1 = Self::spec_write_max_bytes(m, version);
        let ghost w1 = chain(w0, s1);
        let ghost s2 = Self::spec_write_topics(m, version);
        let ghost w2 = chain(w1, s2);
        let ghost s3 = Self::spec_write_tags(m, version);
        let ghost w3 = chain(w2, s3);
        assert(Self::spec_write(m, version) == w3);
        assert(w2 is Err ==> w3 == w2);
        assert(w1 is Err ==> w3 == w1);
        assert(w0 is Err ==> w3 == w0);
        let mut len: usize = 0;
        let l0 = Ok(4);
        assert(l0 == len_result(s0));
        let n0 = match l0 {
            Ok(n) => n,
            Err(e) => {
                return Err(e);
            },
        };
        len = saturating_sum(len, n0);
        assert(w0 is Ok && len == saturate(written(w0).len() as int));
        let l1 = Ok(4);
        assert(l1 == len_result(s1));
        let n1 = match l1 {
            Ok(n) => n,
            Err(e) => {
                return Err(e);
            },
        };
        proof {
            lemma_len_step(w0, s1, n1);
        }
        len = saturating_sum(len, n1);
        assert(w1 is Ok && len == saturate(written(w1).len() as int));
        let l2 = array_len::<TopicSnapshot>(&self.topics, version, true);
        assert(l2 == len_result(s2));
        let n2 = match l2 {
            Ok(n) => n,
            Err(e) => {
                return Err(e);
            },
        };
        proof {
            lemma_len_step(w1, s2, n2);
        }
        len = saturating_sum(len, n2);
        assert(w2 is Ok && len == saturate(written(w2).len() as int));
        let l3 = match self.known_tagged_fields(version) {
            Err(e) => Err(e),
            Ok(known) => {
                let all = append_fields(known, &self._unknown_tagged_fields);
                tagged_fields_len(&sort_by_tag(&all))
            },
        };
        assert(l3 == len_result(s3));
        let n3 = match l3 {
            Ok(n) => n,
            Err(e) => {
                return Err(e);
            },
        };
        proof {
            lemma_len_step(w2, s3, n3);
        }
        len = saturating_sum(len, n3);
        assert(w3 is Ok && len == saturate(written(w3).len() as int));
        Ok(len)
    }
}

#[derive(Debug, PartialEq)]
pub struct TopicSnapshot {
    /// The name of the topic to fetch.
    pub name: KafkaString,
    /// The partitions to fetch.
    pub partitions: Vec<PartitionSnapshot>,
    pub _unknown_tagged_fields: Vec<RawTaggedField>,
}

/// What a `TopicSnapshot` holds, as the specification sees it.
#[verifier::ext_equal]
pub struct TopicSnapshotView {
    pub name: Seq<u8>,
    pub partitions: Seq<PartitionSnapshotView>,
    pub unknown_tagged_fields: Seq<(u32, Seq<u8>)>,
}

impl View for TopicSnapshot {
    type V = TopicSnapshotView;

    open spec fn view(&self) -> TopicSnapshotView {
        TopicSnapshotView {
            name: self.name@,
            partitions: views(self.partitions@),
            unknown_tagged_fields: views(self._unknown_tagged_fields@),
        }
    }
}

impl Clone for TopicSnapshot {
    fn clone(&self) -> (r: Self)
        ensures
            r@ == self@,
    {
        let r = TopicSnapshot {
            name: self.name.clone(),
            partitions: clone_vec(&self.partitions),
            _unknown_tagged_fields: clone_vec(&self._unknown_tagged_fields),
        };
        assert(r@ =~= self@);
        r
    }
}

impl ViewClone for TopicSnapshot {
    fn clone_view(&self) -> (r: Self) {
        self.clone()
    }
}

impl Default for TopicSnapshot {
    fn default() -> (r: Self)
        ensures
            r@ == Self::default_view(),
    {
        let r = TopicSnapshot {
            name: KafkaString::default(),
            partitions: empty_vec(),
            _unknown_tagged_fields: empty_vec(),
        };
        assert(r@ =~= Self::default_view());
        r
    }
}

impl TopicSnapshot {
    pub open spec fn default_view() -> TopicSnapshotView {
        TopicSnapshotView {
            name: Seq::empty(),
            partitions: Seq::empty(),
            unknown_tagged_fields: Seq::empty(),
        }
    }

    /// The `name` field, read from the front of `s`.
    #[verifier::opaque]
    pub open spec fn spec_read_name(s: Seq<u8>, version: i16) -> ReadOutcome<Seq<u8>> {
        spec_read_compact_string(s)
    }

    /// The `partitions` field, read from the front of `s`.
    #[verifier::opaque]
    pub open spec fn spec_read_partitions(s: Seq<u8>, version: i16) -> ReadOutcome<Seq<PartitionSnapshotView>> {
        spec_read_array::<PartitionSnapshot>(s, version, true)
    }

    /// The tagged fields, read from the front of `s`.
    #[verifier::opaque]
    pub open spec fn spec_read_tags(s: Seq<u8>, version: i16) -> ReadOutcome<Seq<(u32, Seq<u8>)>> {
        spec_read_tagged_fields(s)
    }

    pub open spec fn spec_read(s: Seq<u8>, version: i16) -> ReadOutcome<TopicSnapshotView> {
        match (Self::spec_read_name(s, version)) {
            Err(e) => Err(e),
            Ok((name, s)) => match (Self::spec_read_partitions(s, version)) {
                Err(e) => Err(e),
                Ok((partitions, s)) => match (Self::spec_read_tags(s, version)) {
                    Err(e) => Err(e),
                    Ok((unknown_tagged_fields, s)) => Ok((TopicSnapshotView {
                                name: name,
                                partitions: partitions,
                                unknown_tagged_fields: unknown_tagged_fields,
                            }, s)),
                },
            },
        }
    }

    /// What writing the `name` field of `m` appends.
    #[verifier::opaque]
    pub open spec fn spec_write_name(m: TopicSnapshotView, version: i16) -> WriteOutcome {
        spec_write_compact_string(m.name)
    }

    /// What writing the `partitions` field of `m` appends.
    #[verifier::opaque]
    pub open spec fn spec_write_partitions(m: TopicSnapshotView, version: i16) -> WriteOutcome {
        spec_write_array::<PartitionSnapshot>(m.partitions, version, true)
    }

    /// What writing the tagged fields of `m` appends.
    #[verifier::opaque]
    pub open spec fn spec_write_tags(m: TopicSnapshotView, version: i16) -> WriteOutcome {
        spec_write_tagged_fields(sorted_by_tag(m.unknown_tagged_fields))
    }

    pub open spec fn spec_write(m: TopicSnapshotView, version: i16) -> WriteOutcome {
        chain(
            chain(
                Self::spec_write_name(m, version),
                Self::spec_write_partitions(m, version),
            ),
            Self::spec_write_tags(m, version),
        )
    }

    /// Whether reading back what writing `m` in `version` appends gives `m`:
    /// fields that the version does not carry hold their default values, and
    /// tagged fields come in the order in which they are written.
    pub open spec fn canonical(m: TopicSnapshotView, version: i16) -> bool {
        &&& all_canonical::<PartitionSnapshot>(m.partitions, version)
        &&& tags_in_order(m.unknown_tagged_fields)
    }

    proof fn lemma_round_trip_name(m: TopicSnapshotView, version: i16, rest: Seq<u8>)
        requires
            Self::canonical(m, version),
            Self::spec_write_name(m, version) is Ok,
        ensures
            Self::spec_read_name(written(Self::spec_write_name(m, version)) + rest, version) == Ok::<(Seq<u8>, Seq<u8>), Error>((m.name, rest)),
    {
        reveal(TopicSnapshot::spec_read_name);
        reveal(TopicSnapshot::spec_write_name);
        lemma_compact_string_round_trip(m.name, rest);
    }

    proof fn lemma_round_trip_partitions(m: TopicSnapshotView, version: i16, rest: Seq<u8>)
        requires
            Self::canonical(m, version),
            Self::spec_write_partitions(m, version) is Ok,
        ensures
            Self::spec_read_partitions(written(Self::spec_write_partitions(m, version)) + rest, version) == Ok::<(Seq<PartitionSnapshotView>, Seq<u8>), Error>((m.partitions, rest)),
    {
        reveal(TopicSnapshot::spec_read_partitions);
        reveal(TopicSnapshot::spec_write_partitions);
        lemma_array_round_trip::<PartitionSnapshot>(m.partitions, version, true, rest);
    }

    proof fn lemma_round_trip_tags(m: TopicSnapshotView, version: i16, rest: Seq<u8>)
        requires
            Self::canonical(m, version),
            Self::spec_write_tags(m, version) is Ok,
        ensures
            Self::spec_read_tags(written(Self::spec_write_tags(m, version)) + rest, version) == Ok::<(Seq<(u32, Seq<u8>)>, Seq<u8>), Error>((m.unknown_tagged_fields, rest)),
    {
        reveal(TopicSnapshot::spec_read_tags);
        reveal(TopicSnapshot::spec_write_tags);
        lemma_sorted_by_tag_in_order(m.unknown_tagged_fields);
        lemma_tagged_fields_round_trip(m.unknown_tagged_fields, rest);
    }

    /// Reading back what writing `m` in `version` appends gives `m` again, and
    /// leaves what follows, for every canonical message whose write succeeds.
    #[verifier::rlimit(70)]
    #[verifier::spinoff_prover]
    pub proof fn lemma_round_trip(m: TopicSnapshotView, version: i16, rest: Seq<u8>)
        requires
            Self::canonical(m, version),
            Self::spec_write(m, version) is Ok,
        ensures
            Self::spec_read(written(Self::spec_write(m, version)) + rest, version) == Ok::<(TopicSnapshotView, Seq<u8>), Error>((m, rest)),
    {
        let b0 = written(Self::spec_write_name(m, version));
        let b1 = written(Self::spec_write_partitions(m, version));
        let b2 = written(Self::spec_write_tags(m, version));
        let t3 = rest;
        let t2 = b2 + t3;
        let t1 = b1 + t2;
        let t0 = b0 + t1;
        let w0 = Self::spec_write_name(m, version);
        let w1 = chain(w0, Self::spec_write_partitions(m, version));
        let w2 = chain(w1, Self::spec_write_tags(m, version));
        assert(Self::spec_write(m, version) == w2);
        assert(written(w2) + t3 =~= written(w1) + t2);
        assert(written(w1) + t2 =~= written(w0) + t1);
        Self::lemma_round_trip_name(m, version, t1);
        Self::lemma_round_trip_partitions(m, version, t2);
        Self::lemma_round_trip_tags(m, version, t3);
    }

    /// The default message holds the default value of each field of the schema.
    pub proof fn lemma_default_values()
        ensures
            Self::default_view().name.len() == 0,
            Self::default_view().partitions.len() == 0,
            Self::default_view().unknown_tagged_fields.len() == 0,
    {
    }

    /// Whether writing `m` in `version` succeeds, said over its parts: the
    /// version is one the schema covers, every field that the version cannot
    /// carry holds its default value, and every string, byte string, array and
    /// tagged field fits its length prefix.
    pub open spec fn writable(m: TopicSnapshotView, version: i16) -> bool {
        &&& m.name.len() <= 0x7fff
        &&& (m.partitions.len() <= i32::MAX && all_writable::<PartitionSnapshot>(m.partitions, version))
        &&& m.unknown_tagged_fields.len() <= u32::MAX && tags_fit(m.unknown_tagged_fields)
    }

    proof fn lemma_writable_name(m: TopicSnapshotView, version: i16)
        ensures
            Self::spec_write_name(m, version) is Ok <==> m.name.len() <= 0x7fff,
    {
        reveal(TopicSnapshot::spec_write_name);
    }

    proof fn lemma_writable_partitions(m: TopicSnapshotView, version: i16)
        ensures
            Self::spec_write_partitions(m, version) is Ok <==> (m.partitions.len() <= i32::MAX && all_writable::<PartitionSnapshot>(m.partitions, version)),
    {
        reveal(TopicSnapshot::spec_write_partitions);
        lemma_array_writable::<PartitionSnapshot>(m.partitions, version, true);
    }

    proof fn lemma_writable_tags(m: TopicSnapshotView, version: i16)
        ensures
            Self::spec_write_tags(m, version) is Ok <==> m.unknown_tagged_fields.len() <= u32::MAX && tags_fit(m.unknown_tagged_fields),
    {
        reveal(TopicSnapshot::spec_write_tags);
        lemma_sorted_tags_fit(m.unknown_tagged_fields);
        lemma_tagged_fields_writable(sorted_by_tag(m.unknown_tagged_fields));
    }

    /// Writing `m` in `version` succeeds exactly when `m` is writable in it;
    /// so do `write` and `encoded_len`, whose results follow `spec_write`.
    #[verifier::rlimit(48)]
    pub proof fn lemma_writable(m: TopicSnapshotView, version: i16)
        ensures
            Self::spec_write(m, version) is Ok <==> Self::writable(m, version),
    {
        Self::lemma_writable_name(m, version);
        Self::lemma_writable_partitions(m, version);
        Self::lemma_writable_tags(m, version);
    }

    pub fn with_name(self, value: KafkaString) -> (r: Self)
        ensures
            r@ == (TopicSnapshotView { name: value@, ..self@ }),
    {
        let mut r = self;
        r.name = value;
        r
    }

    pub fn with_partitions(self, value: Vec<PartitionSnapshot>) -> (r: Self)
        ensures
            r@ == (TopicSnapshotView { partitions: views(value@), ..self@ }),
    {
        let mut r = self;
        r.partitions = value;
        r
    }

    fn read_name(buf: &mut Bytes, version: i16) -> (r: Result<KafkaString, Error>)
        ensures
            read_as(Self::spec_read_name(bytes_seq(*old(buf)), version), *final(buf), r),
            took_front(*old(buf), *final(buf)),
    {
        proof {
            reveal(TopicSnapshot::spec_read_name);
        }
        Ok(read_compact_string(buf)?)
    }

    fn read_partitions(buf: &mut Bytes, version: i16) -> (r: Result<Vec<PartitionSnapshot>, Error>)
        ensures
            read_vec_as(Self::spec_read_partitions(bytes_seq(*old(buf)), version), *final(buf), r),
            took_front(*old(buf), *final(buf)),
    {
        proof {
            reveal(TopicSnapshot::spec_read_partitions);
        }
        Ok(read_array::<PartitionSnapshot>(buf, version, true)?)
    }

    fn read_tags(buf: &mut Bytes, version: i16) -> (r: Result<Vec<RawTaggedField>, Error>)
        ensures
            read_vec_as(Self::spec_read_tags(bytes_seq(*old(buf)), version), *final(buf), r),
            took_front(*old(buf), *final(buf)),
    {
        proof {
            reveal(TopicSnapshot::spec_read_tags);
        }
        Ok(read_tagged_fields(buf)?)
    }

    pub fn read(buf: &mut Bytes, version: i16) -> (r: Result<Self, Error>)
        ensures
            read_as(Self::spec_read(bytes_seq(*old(buf)), version), *final(buf), r),
            took_front(*old(buf), *final(buf)),
    {
        let name = Self::read_name(buf, version)?;
        let partitions = Self::read_partitions(buf, version)?;
        let _unknown_tagged_fields = Self::read_tags(buf, version)?;
        Ok(TopicSnapshot {
                name: name,
                partitions: partitions,
                _unknown_tagged_fields: _unknown_tagged_fields,
        })
    }

    #[verifier::rlimit(60)]
    pub fn write(&self, buf: &mut BytesMut, version: i16) -> (r: Result<(), Error>)
        requires
            has_room(Self::spec_write(self@, version), *old(buf)),
        ensures
            wrote(Self::spec_write(self@, version), *old(buf), *final(buf), r),
    {
        let ghost m = self@;
        proof {
            reveal(TopicSnapshot::spec_write_name);
            reveal(TopicSnapshot::spec_write_partitions);
            reveal(TopicSnapshot::spec_write_tags);
        }
        let ghost s0 = Self::spec_write_name(m, version);
        let ghost w0 = s0;
        let ghost s1 = Self::spec_write_partitions(m, version);
        let ghost w1 = chain(w0, s1);
        let ghost s2 = Self::spec_write_tags(m, version);
        let ghost w2 = chain(w1, s2);
        assert(Self::spec_write(m, version) == w2);
        assert(written(w1).len() <= written(w2).len() && (w1 is Err ==> w2 == w1));
        assert(written(w0).len() <= written(w2).len() && (w0 is Err ==> w2 == w0));
        let ghost mid = bytes_mut_seq(*buf);
        proof {
            lemma_append_empty(mid);
        }
        let r0 = write_compact_string(buf, &self.name);
        assert(bytes_mut_seq(*buf) == mid + written(s0));
        if r0.is_err() {
            return r0;
        }
        let ghost mid = bytes_mut_seq(*buf);
        proof {
            lemma_append_empty(mid);
        }
        let r1 = write_array::<PartitionSnapshot>(buf, &self.partitions, version, true);
        assert(bytes_mut_seq(*buf) == mid + written(s1));
        proof {
            lemma_step(bytes_mut_seq(*old(buf)), w0, s1);
        }
        if r1.is_err() {
            return r1;
        }
        let ghost mid = bytes_mut_seq(*buf);
        proof {
            lemma_append_empty(mid);
        }
        let r2 = write_tagged_fields(buf, &sort_by_tag(&self._unknown_tagged_fields));
        assert(bytes_mut_seq(*buf) == mid + written(s2));
        proof {
            lemma_step(bytes_mut_seq(*old(buf)), w1, s2);
        }
        if r2.is_err() {
            return r2;
        }
        Ok(())
    }

    #[verifier::rlimit(60)]
    pub fn encoded_len(&self, version: i16) -> (r: Result<usize, Error>)
        ensures
            r == len_result(Self::spec_write(self@, version)),
    {
        let ghost m = self@;
        proof {
            reveal(TopicSnapshot::spec_write_name);
            reveal(TopicSnapshot::spec_write_partitions);
            reveal(TopicSnapshot::spec_write_tags);
        }
        let ghost s0 = Self::spec_write_name(m, version);
        let ghost w0 = s0;
        let ghost s1 = Self::spec_write_partitions(m, version);
        let ghost w1 = chain(w0, s1);
        let ghost s2 = Self::spec_write_tags(m, version);
        let ghost w2 = chain(w1, s2);
        assert(Self::spec_write(m, version) == w2);
        assert(w1 is Err ==> w2 == w1);
        assert(w0 is Err ==> w2 == w0);
        let mut len: usize = 0;
        let l0 = compact_string_len(&self.name);
        assert(l0 == len_result(s0));
        let n0 = match l0 {
            Ok(n) => n,
            Err(e) => {
                return Err(e);
            },
        };
        len = saturating_sum(len, n0);
        assert(w0 is Ok && len == saturate(written(w0).len() as int));
        let l1 = array_len::<PartitionSnapshot>(&self.partitions, version, true);
        assert(l1 == len_result(s1));
        let n1 = match l1 {
            Ok(n) => n,
            Err(e) => {
                return Err(e);
            },
        };
        proof {
            lemma_len_step(w0, s1, n1);
        }
        len = saturating_sum(len, n1);
        assert(w1 is Ok && len == saturate(written(w1).len() as int));
        let l2 = tagged_fields_len(&sort_by_tag(&self._unknown_tagged_fields));
        assert(l2 == len_result(s2));
        let n2 = match l2 {
            Ok(n) => n,
            Err(e) => {
                return Err(e);
            },
        };
        proof {
            lemma_len_step(w1, s2, n2);
        }
        len = saturating_sum(len, n2);
        assert(w2 is Ok && len == saturate(written(w2).len() as int));
        Ok(len)
    }
}

#[derive(Debug, PartialEq)]
pub struct PartitionSnapshot {
    /// The partition index.
    pub partition: i32,
    /// The current leader epoch of the partition, -1 for unknown leader epoch.
    pub current_leader_epoch: i32,
    /// The snapshot endOffset and epoch to fetch.
    pub snapshot_id: SnapshotId,
    /// The byte position within the snapshot to start fetching from.
    pub position: i64,
    /// The directory id of the follower fetching.
    pub replica_directory_id: KafkaUuid,
    pub _unknown_tagged_fields: Vec<RawTaggedField>,
}

/// What a `PartitionSnapshot` holds, as the specification sees it.
#[verifier::ext_equal]
pub struct PartitionSnapshotView {
    pub partition: i32,
    pub current_leader_epoch: i32,
    pub snapshot_id: SnapshotIdView,
    pub position: i64,
    pub replica_directory_id: KafkaUuid,
    pub unknown_tagged_fields: Seq<(u32, Seq<u8>)>,
}

impl View for PartitionSnapshot {
    type V = PartitionSnapshotView;

    open spec fn view(&self) -> PartitionSnapshotView {
        PartitionSnapshotView {
            partition: self.partition,
            current_leader_epoch: self.current_leader_epoch,
            snapshot_id: self.snapshot_id@,
            position: self.position,
            replica_directory_id: self.replica_directory_id,
            unknown_tagged_fields: views(self._unknown_tagged_fields@),
        }
    }
}

impl Clone for PartitionSnapshot {
    fn clone(&self) -> (r: Self)
        ensures
            r@ == self@,
    {
        let r = PartitionSnapshot {
            partition: self.partition,
            current_leader_epoch: self.current_leader_epoch,
            snapshot_id: self.snapshot_id.clone(),
            position: self.position,
            replica_directory_id: self.replica_directory_id,
            _unknown_tagged_fields: clone_vec(&self._unknown_tagged_fields),
        };
        assert(r@ =~= self@);
        r
    }
}

impl ViewClone for PartitionSnapshot {
    fn clone_view(&self) -> (r: Self) {
        self.clone()
    }
}

impl Default for PartitionSnapshot {
    fn default() -> (r: Self)
        ensures
            r@ == Self::default_view(),
    {
        let r = PartitionSnapshot {
            partition: 0_i32,
            current_leader_epoch: 0_i32,
            snapshot_id: SnapshotId::default(),
            position: 0_i64,
            replica_directory_id: KafkaUuid::zero(),
            _unknown_tagged_fields: empty_vec(),
        };
        assert(r@ =~= Self::default_view());
        r
    }
}

impl PartitionSnapshot {
    pub open spec fn default_view() -> PartitionSnapshotView {
        PartitionSnapshotView {
            partition: 0_i32,
            current_leader_epoch: 0_i32,
            snapshot_id: SnapshotId::default_view(),
            position: 0_i64,
            replica_directory_id: KafkaUuid { most_significant_bits: 0, least_significant_bits: 0 },
            unknown_tagged_fields: Seq::empty(),
        }
    }

    /// The `partition` field, read from the front of `s`.
    #[verifier::opaque]
    pub open spec fn spec_read_partition(s: Seq<u8>, version: i16) -> ReadOutcome<i32> {
        spec_read_i32(s)
    }

    /// The `current_leader_epoch` field, read from the front of `s`.
    #[verifier::opaque]
    pub open spec fn spec_read_current_leader_epoch(s: Seq<u8>, version: i16) -> ReadOutcome<i32> {
        spec_read_i32(s)
    }

    /// The `snapshot_id` field, read from the front of `s`.
    #[verifier::opaque]
    pub open spec fn spec_read_snapshot_id(s: Seq<u8>, version: i16) -> ReadOutcome<SnapshotIdView> {
        SnapshotId::spec_read(s, version)
    }

    /// The `position` field, read from the front of `s`.
    #[verifier::opaque]
    pub open spec fn spec_read_position(s: Seq<u8>, version: i16) -> ReadOutcome<i64> {
        spec_read_i64(s)
    }

    pub open spec fn spec_read(s: Seq<u8>, version: i16) -> ReadOutcome<PartitionSnapshotView> {
        match (Self::spec_read_partition(s, version)) {
            Err(e) => Err(e),
            Ok((partition, s)) => match (Self::spec_read_current_leader_epoch(s, version)) {
                Err(e) => Err(e),
                Ok((current_leader_epoch, s)) => match (Self::spec_read_snapshot_id(s, version)) {
                    Err(e) => Err(e),
                    Ok((snapshot_id, s)) => match (Self::spec_read_position(s, version)) {
                        Err(e) => Err(e),
                        Ok((position, s)) => match (spec_read_tagged_fields(s)) {
                            Err(e) => Err(e),
                            Ok((tags, s)) => match (match (Self::spec_apply_tags(tags, version)) {
                                    Err(e) => Err(e),
                                    Ok(k) => Ok((k, s)),
                            }) {
                                Err(e) => Err(e),
                                Ok(((replica_directory_id, unknown_tagged_fields), s)) => Ok((PartitionSnapshotView {
                                            partition: partition,
                                            current_leader_epoch: current_leader_epoch,
                                            snapshot_id: snapshot_id,
                                            position: position,
                                            replica_directory_id: replica_directory_id,
                                            unknown_tagged_fields: unknown_tagged_fields,
                                        }, s)),
                            },
                        },
                    },
                },
            },
        }
    }

    /// What writing the `partition` field of `m` appends.
    #[verifier::opaque]
    pub open spec fn spec_write_partition(m: PartitionSnapshotView, version: i16) -> WriteOutcome {
        spec_write_i32(m.partition)
    }

    /// What writing the `current_leader_epoch` field of `m` appends.
    #[verifier::opaque]
    pub open spec fn spec_write_current_leader_epoch(m: PartitionSnapshotView, version: i16) -> WriteOutcome {
        spec_write_i32(m.current_leader_epoch)
    }

    /// What writing the `snapshot_id` field of `m` appends.
    #[verifier::opaque]
    pub open spec fn spec_write_snapshot_id(m: PartitionSnapshotView, version: i16) -> WriteOutcome {
        SnapshotId::spec_write(m.snapshot_id, version)
    }

    /// What writing the `position` field of `m` appends.
    #[verifier::opaque]
    pub open spec fn spec_write_position(m: PartitionSnapshotView, version: i16) -> WriteOutcome {
        spec_write_i64(m.position)
    }

    /// What writing the tagged fields of `m` appends.
    #[verifier::opaque]
    pub open spec fn spec_write_tags(m: PartitionSnapshotView, version: i16) -> WriteOutcome {
        match (Self::spec_known_tags(m, version)) {
            Err(e) => fail(e),
            Ok(k) => spec_write_tagged_fields(sorted_by_tag(k + m.unknown_tagged_fields)),
        }
    }

    pub open spec fn spec_write(m: PartitionSnapshotView, version: i16) -> WriteOutcome {
        chain(
            chain(
                chain(
                    chain(
                        Self::spec_write_partition(m, version),
                        Self::spec_write_current_leader_epoch(m, version),
                    ),
                    Self::spec_write_snapshot_id(m, version),
                ),
                Self::spec_write_position(m, version),
            ),
            Self::spec_write_tags(m, version),
        )
    }

    /// Whether reading back what writing `m` in `version` appends gives `m`:
    /// fields that the version does not carry hold their default values, and
    /// tagged fields come in the order in which they are written.
    pub open spec fn canonical(m: PartitionSnapshotView, version: i16) -> bool {
        &&& SnapshotId::canonical(m.snapshot_id, version)
        &&& (if version >= 1 && !uuid_is_nil(m.replica_directory_id) {
                true
            } else {
                m.replica_directory_id == KafkaUuid { most_significant_bits: 0, least_significant_bits: 0 }
        })
        &&& (tags_in_order(m.unknown_tagged_fields) && forall|i: int| 0 <= i < m.unknown_tagged_fields.len() ==> !#[trigger] Self::is_known_tag(m.unknown_tagged_fields[i].0))
    }

    proof fn lemma_round_trip_partition(m: PartitionSnapshotView, version: i16, rest: Seq<u8>)
        requires
            Self::canonical(m, version),
            Self::spec_write_partition(m, version) is Ok,
        ensures
            Self::spec_read_partition(written(Self::spec_write_partition(m, version)) + rest, version) == Ok::<(i32, Seq<u8>), Error>((m.partition, rest)),
    {
        reveal(PartitionSnapshot::spec_read_partition);
        reveal(PartitionSnapshot::spec_write_partition);
        lemma_i32_roundtrip(m.partition, rest);
    }

    proof fn lemma_round_trip_current_leader_epoch(m: PartitionSnapshotView, version: i16, rest: Seq<u8>)
        requires
            Self::canonical(m, version),
            Self::spec_write_current_leader_epoch(m, version) is Ok,
        ensures
            Self::spec_read_current_leader_epoch(written(Self::spec_write_current_leader_epoch(m, version)) + rest, version) == Ok::<(i32, Seq<u8>), Error>((m.current_leader_epoch, rest)),
    {
        reveal(PartitionSnapshot::spec_read_current_leader_epoch);
        reveal(PartitionSnapshot::spec_write_current_leader_epoch);
        lemma_i32_roundtrip(m.current_leader_epoch, rest);
    }

    proof fn lemma_round_trip_snapshot_id(m: PartitionSnapshotView, version: i16, rest: Seq<u8>)
        requires
            Self::canonical(m, version),
            Self::spec_write_snapshot_id(m, version) is Ok,
        ensures
            Self::spec_read_snapshot_id(written(Self::spec_write_snapshot_id(m, version)) + rest, version) == Ok::<(SnapshotIdView, Seq<u8>), Error>((m.snapshot_id, rest)),
    {
        reveal(PartitionSnapshot::spec_read_snapshot_id);
        reveal(PartitionSnapshot::spec_write_snapshot_id);
        SnapshotId::lemma_round_trip(m.snapshot_id, version, rest);
    }

    proof fn lemma_round_trip_position(m: PartitionSnapshotView, version: i16, rest: Seq<u8>)
        requires
            Self::canonical(m, version),
            Self::spec_write_position(m, version) is Ok,
        ensures
            Self::spec_read_position(written(Self::spec_write_position(m, version)) + rest, version) == Ok::<(i64, Seq<u8>), Error>((m.position, rest)),
    {
        reveal(PartitionSnapshot::spec_read_position);
        reveal(PartitionSnapshot::spec_write_position);
        lemma_i64_roundtrip(m.position, rest);
    }

    proof fn lemma_apply_known_tags(m: PartitionSnapshotView, version: i16)
        requires
            Self::canonical(m, version),
            Self::spec_known_tags(m, version) is Ok,
        ensures
            tags_in_order(Self::spec_known_tags(m, version)->Ok_0),
            forall|i: int| 0 <= i < Self::spec_known_tags(m, version)->Ok_0.len() ==> #[trigger] Self::is_known_tag(Self::spec_known_tags(m, version)->Ok_0[i].0),
            Self::spec_apply_tags(Self::spec_known_tags(m, version)->Ok_0, version) == Ok::<(KafkaUuid, Seq<(u32, Seq<u8>)>), Error>((m.replica_directory_id, Seq::empty())),
    {
        assert(Self::spec_apply_tags(Seq::empty(), version) == Ok::<(KafkaUuid, Seq<(u32, Seq<u8>)>), Error>((KafkaUuid { most_significant_bits: 0, least_significant_bits: 0 }, Seq::empty())));
        let e0 = if version >= 1 && !uuid_is_nil(m.replica_directory_id) {
            tag_entry(0u32, spec_write_uuid(m.replica_directory_id))
        } else {
            Ok(Seq::empty())
        };
        let k0 = e0->Ok_0;
        let p0 = k0;
        if version >= 1 && !uuid_is_nil(m.replica_directory_id) {
            lemma_uuid_round_trip(m.replica_directory_id, Seq::<u8>::empty());
            assert(written(spec_write_uuid(m.replica_directory_id)) + Seq::<u8>::empty() =~= written(spec_write_uuid(m.replica_directory_id)));
            assert(p0.drop_last() =~= Seq::<(u32, Seq<u8>)>::empty());
        } else {
        }
        assert(tags_in_order(p0));
        assert(forall|i: int| 0 <= i < p0.len() ==> p0[i].0 <= 0u32);
        assert(forall|i: int| 0 <= i < p0.len() ==> #[trigger] Self::is_known_tag(p0[i].0));
        assert(Self::spec_apply_tags(p0, version) == Ok::<(KafkaUuid, Seq<(u32, Seq<u8>)>), Error>((m.replica_directory_id, Seq::empty())));
        assert(Self::spec_known_tags(m, version)->Ok_0 =~= p0);
    }

    proof fn lemma_apply_tags_append(st: (KafkaUuid, Seq<(u32, Seq<u8>)>), a: Seq<(u32, Seq<u8>)>, b: Seq<(u32, Seq<u8>)>, version: i16)
        ensures
            Self::spec_apply_tags_from(st, a + b, version) == (match Self::spec_apply_tags_from(st, a, version) {
            Err(e) => Err(e),
            Ok(s2) => Self::spec_apply_tags_from(s2, b, version),
            }),
            decreases b.len(),
    {
        if b.len() == 0 {
            assert(a + b =~= a);
        } else {
            assert((a + b).drop_last() =~= a + b.drop_last());
            assert((a + b).last() == b.last());
            Self::lemma_apply_tags_append(st, a, b.drop_last(), version);
        }
    }

    proof fn lemma_apply_known_only(st: (KafkaUuid, Seq<(u32, Seq<u8>)>), us: Seq<(u32, Seq<u8>)>, b: Seq<(u32, Seq<u8>)>, version: i16)
        requires
            forall|i: int| 0 <= i < b.len() ==> #[trigger] Self::is_known_tag(b[i].0),
        ensures
            match Self::spec_apply_tags_from(st, b, version) {
            Err(e) => Self::spec_apply_tags_from((st.0, us), b, version) == Err::<(KafkaUuid, Seq<(u32, Seq<u8>)>), Error>(e),
            Ok(r) => r.1 == st.1 && Self::spec_apply_tags_from((st.0, us), b, version) == Ok::<(KafkaUuid, Seq<(u32, Seq<u8>)>), Error>((r.0, us)),
            },
            decreases b.len(),
    {
        if b.len() > 0 {
            assert(Self::is_known_tag(b[b.len() - 1].0));
            assert forall|i: int| 0 <= i < b.drop_last().len() implies #[trigger] Self::is_known_tag(b.drop_last()[i].0) by {
                assert(b.drop_last()[i] == b[i]);
                assert(Self::is_known_tag(b[i].0));
            }
            Self::lemma_apply_known_only(st, us, b.drop_last(), version);
        }
    }

    proof fn lemma_apply_sorted(k: Seq<(u32, Seq<u8>)>, u: Seq<(u32, Seq<u8>)>, version: i16)
        requires
            tags_in_order(k),
            tags_in_order(u),
            forall|i: int| 0 <= i < k.len() ==> #[trigger] Self::is_known_tag(k[i].0),
            forall|i: int| 0 <= i < u.len() ==> !#[trigger] Self::is_known_tag(u[i].0),
            Self::spec_apply_tags(k, version) is Ok,
            Self::spec_apply_tags(k, version)->Ok_0.1 == Seq::<(u32, Seq<u8>)>::empty(),
        ensures
            Self::spec_apply_tags(sorted_by_tag(k + u), version) == Ok::<(KafkaUuid, Seq<(u32, Seq<u8>)>), Error>((Self::spec_apply_tags(k, version)->Ok_0.0, u)),
            decreases u.len(),
    {
        let r = Self::spec_apply_tags(k, version)->Ok_0;
        if u.len() == 0 {
            assert(k + u =~= k);
            lemma_sorted_by_tag_in_order(k);
            assert(u =~= Seq::<(u32, Seq<u8>)>::empty());
        } else {
            let u1 = u.drop_last();
            let x = u.last();
            lemma_tags_in_order_drop_last(u);
            assert forall|i: int| 0 <= i < u1.len() implies !#[trigger] Self::is_known_tag(u1[i].0) by {
                assert(u1[i] == u[i]);
                assert(!Self::is_known_tag(u[i].0));
            }
            Self::lemma_apply_sorted(k, u1, version);
            let ku = k + u1;
            let t = sorted_by_tag(ku);
            assert((k + u).drop_last() =~= ku);
            assert((k + u).last() == x);
            let p = insert_pos(t, x.0);
            lemma_insert_pos_bounds(t, x.0);
            lemma_insert_pos_after(t, x.0);
            lemma_sorted_by_tag_members(ku);
            lemma_sorted_by_tag_len(ku);
            let head = t.subrange(0, p);
            let tail = t.subrange(p, t.len() as int);
            assert forall|i: int| 0 <= i < tail.len() implies #[trigger] Self::is_known_tag(tail[i].0) by {
                let y = t[p + i];
                assert(tail[i] == y);
                assert(y.0 > x.0);
                assert(ku.contains(y));
                let j = choose|j: int| 0 <= j < ku.len() && ku[j] == y;
                if j >= k.len() {
                    assert(u[j - k.len()] == y);
                    assert(u[j - k.len()].0 <= u[u.len() - 1].0);
                    assert(false);
                } else {
                    assert(k[j] == y);
                    assert(Self::is_known_tag(k[j].0));
                }
            }
            assert(t =~= head + tail);
            assert(sorted_by_tag(k + u) =~= head.push(x) + tail);
            Self::lemma_apply_tags_append((KafkaUuid { most_significant_bits: 0, least_significant_bits: 0 }, Seq::empty()), head, tail, version);
            Self::lemma_apply_tags_append((KafkaUuid { most_significant_bits: 0, least_significant_bits: 0 }, Seq::empty()), head.push(x), tail, version);
            let sa = Self::spec_apply_tags(head, version)->Ok_0;
            assert(head.push(x).drop_last() =~= head);
            assert(!Self::is_known_tag(x.0)) by {
                assert(u[u.len() - 1] == x);
            }
            Self::lemma_apply_known_only(sa, sa.1.push(x), tail, version);
            assert(u1.push(x) =~= u);
        }
    }

    /// The tagged fields that a flexible version writes: each known one that
    /// the version carries and that does not hold its default value, in the
    /// order of the tags, merged by tag with the unknown ones.
    pub proof fn lemma_tag_section(m: PartitionSnapshotView, version: i16)
        ensures
            Self::spec_write_tags(m, version) == (match Self::spec_known_tags(m, version) {
            Err(e) => fail(e),
            Ok(k) => spec_write_tagged_fields(sorted_by_tag(k + m.unknown_tagged_fields)),
            }),
            Self::spec_known_tags(m, version) is Ok ==> Self::spec_known_tags(m, version)->Ok_0 == (if version >= 1 && !uuid_is_nil(m.replica_directory_id) { seq![(0u32, written(spec_write_uuid(m.replica_directory_id)))] } else { Seq::<(u32, Seq<u8>)>::empty() }),
    {
        reveal(PartitionSnapshot::spec_write_tags);
        if Self::spec_known_tags(m, version) is Ok {
            assert(Self::spec_known_tags(m, version)->Ok_0 =~= (if version >= 1 && !uuid_is_nil(m.replica_directory_id) {
                        seq![(0u32, written(spec_write_uuid(m.replica_directory_id)))]
                    } else {
                        Seq::<(u32, Seq<u8>)>::empty()
            }));
        }
    }

    proof fn lemma_round_trip_tags(m: PartitionSnapshotView, version: i16, rest: Seq<u8>)
        requires
            Self::canonical(m, version),
            Self::spec_write_tags(m, version) is Ok,
        ensures
            spec_read_tagged_fields(written(Self::spec_write_tags(m, version)) + rest) matches Ok((tags, r2)) && r2 == rest && Self::spec_apply_tags(tags, version) == Ok::<(KafkaUuid, Seq<(u32, Seq<u8>)>), Error>((m.replica_directory_id, m.unknown_tagged_fields)),
    {
        reveal(PartitionSnapshot::spec_write_tags);
        let k = Self::spec_known_tags(m, version)->Ok_0;
        Self::lemma_apply_known_tags(m, version);
        Self::lemma_apply_sorted(k, m.unknown_tagged_fields, version);
        lemma_tagged_fields_round_trip(sorted_by_tag(k + m.unknown_tagged_fields), rest);
    }

    /// Reading back what writing `m` in `version` appends gives `m` again, and
    /// leaves what follows, for every canonical message whose write succeeds.
    #[verifier::rlimit(90)]
    #[verifier::spinoff_prover]
    pub proof fn lemma_round_trip(m: PartitionSnapshotView, version: i16, rest: Seq<u8>)
        requires
            Self::canonical(m, version),
            Self::spec_write(m, version) is Ok,
        ensures
            Self::spec_read(written(Self::spec_write(m, version)) + rest, version) == Ok::<(PartitionSnapshotView, Seq<u8>), Error>((m, rest)),
    {
        let b0 = written(Self::spec_write_partition(m, version));
        let b1 = written(Self::spec_write_current_leader_epoch(m, version));
        let b2 = written(Self::spec_write_snapshot_id(m, version));
        let b3 = written(Self::spec_write_position(m, version));
        let b4 = written(Self::spec_write_tags(m, version));
        let t5 = rest;
        let t4 = b4 + t5;
        let t3 = b3 + t4;
        let t2 = b2 + t3;
        let t1 = b1 + t2;
        let t0 = b0 + t1;
        let w0 = Self::spec_write_partition(m, version);
        let w1 = chain(w0, Self::spec_write_current_leader_epoch(m, version));
        let w2 = chain(w1, Self::spec_write_snapshot_id(m, version));
        let w3 = chain(w2, Self::spec_write_position(m, version));
        let w4 = chain(w3, Self::spec_write_tags(m, version));
        assert(Self::spec_write(m, version) == w4);
        assert(written(w4) + t5 =~= written(w3) + t4);
        assert(written(w3) + t4 =~= written(w2) + t3);
        assert(written(w2) + t3 =~= written(w1) + t2);
        assert(written(w1) + t2 =~= written(w0) + t1);
        Self::lemma_round_trip_partition(m, version, t1);
        Self::lemma_round_trip_current_leader_epoch(m, version, t2);
        Self::lemma_round_trip_snapshot_id(m, version, t3);
        Self::lemma_round_trip_position(m, version, t4);
        Self::lemma_round_trip_tags(m, version, t5);
    }

    /// In a version that does not carry `replica_directory_id`, writing ignores its value.
    pub proof fn lemma_write_ignores_replica_directory_id(m: PartitionSnapshotView, value: KafkaUuid, version: i16)
        requires
            !(version >= 1),
        ensures
            Self::spec_write((PartitionSnapshotView { replica_directory_id: value, ..m }), version) == Self::spec_write(m, version),
    {
        reveal(PartitionSnapshot::spec_write_partition);
        reveal(PartitionSnapshot::spec_write_current_leader_epoch);
        reveal(PartitionSnapshot::spec_write_snapshot_id);
        reveal(PartitionSnapshot::spec_write_position);
        reveal(PartitionSnapshot::spec_write_tags);
    }

    /// The default message holds the default value of each field of the schema.
    pub proof fn lemma_default_values()
        ensures
            Self::default_view().partition == (0_i32),
            Self::default_view().current_leader_epoch == (0_i32),
            Self::default_view().snapshot_id == (SnapshotId::default_view()),
            Self::default_view().position == (0_i64),
            Self::default_view().replica_directory_id == (KafkaUuid { most_significant_bits: 0, least_significant_bits: 0 }),
            Self::default_view().unknown_tagged_fields.len() == 0,
    {
    }

    /// Each integer, boolean and identifier field is written as its standard
    /// big-endian bytes (a boolean as `1` or `0`) in the versions that carry
    /// it, and as nothing in the others; reading it takes those bytes back (any
    /// byte other than `0` reads as `true`), or gives its default value.
    pub proof fn lemma_field_encodings(m: PartitionSnapshotView, s: Seq<u8>, version: i16)
        ensures
            true ==> Self::spec_write_partition(m, version) == Ok::<Seq<u8>, (Error, Seq<u8>)>(u32_bytes(m.partition as u32)),
            true ==> Self::spec_write_current_leader_epoch(m, version) == Ok::<Seq<u8>, (Error, Seq<u8>)>(u32_bytes(m.current_leader_epoch as u32)),
            true ==> Self::spec_write_position(m, version) == Ok::<Seq<u8>, (Error, Seq<u8>)>(u64_bytes(m.position as u64)),
            true ==> Self::spec_read_partition(s, version) == spec_read_i32(s),
            true ==> Self::spec_read_current_leader_epoch(s, version) == spec_read_i32(s),
            true ==> Self::spec_read_position(s, version) == spec_read_i64(s),
    {
        reveal(PartitionSnapshot::spec_write_partition);
        reveal(PartitionSnapshot::spec_read_partition);
        reveal(PartitionSnapshot::spec_write_current_leader_epoch);
        reveal(PartitionSnapshot::spec_read_current_leader_epoch);
        reveal(PartitionSnapshot::spec_write_position);
        reveal(PartitionSnapshot::spec_read_position);
    }

    /// Whether writing `m` in `version` succeeds, said over its parts: the
    /// version is one the schema covers, every field that the version cannot
    /// carry holds its default value, and every string, byte string, array and
    /// tagged field fits its length prefix.
    pub open spec fn writable(m: PartitionSnapshotView, version: i16) -> bool {
        &&& SnapshotId::writable(m.snapshot_id, version)
        &&& (version >= 1 && !uuid_is_nil(m.replica_directory_id) ==> true && written(spec_write_uuid(m.replica_directory_id)).len() <= isize::MAX && written(spec_write_uuid(m.replica_directory_id)).len() <= u32::MAX) && (if version >= 1 && !uuid_is_nil(m.replica_directory_id) { 1int } else { 0int }) + m.unknown_tagged_fields.len() <= u32::MAX && tags_fit(m.unknown_tagged_fields)
    }

    proof fn lemma_writable_partition(m: PartitionSnapshotView, version: i16)
        ensures
            Self::spec_write_partition(m, version) is Ok <==> true,
    {
        reveal(PartitionSnapshot::spec_write_partition);
    }

    proof fn lemma_writable_current_leader_epoch(m: PartitionSnapshotView, version: i16)
        ensures
            Self::spec_write_current_leader_epoch(m, version) is Ok <==> true,
    {
        reveal(PartitionSnapshot::spec_write_current_leader_epoch);
    }

    proof fn lemma_writable_snapshot_id(m: PartitionSnapshotView, version: i16)
        ensures
            Self::spec_write_snapshot_id(m, version) is Ok <==> SnapshotId::writable(m.snapshot_id, version),
    {
        reveal(PartitionSnapshot::spec_write_snapshot_id);
        SnapshotId::lemma_writable(m.snapshot_id, version);
    }

    proof fn lemma_writable_position(m: PartitionSnapshotView, version: i16)
        ensures
            Self::spec_write_position(m, version) is Ok <==> true,
    {
        reveal(PartitionSnapshot::spec_write_position);
    }

    proof fn lemma_writable_tags(m: PartitionSnapshotView, version: i16)
        ensures
            Self::spec_write_tags(m, version) is Ok <==> (version >= 1 && !uuid_is_nil(m.replica_directory_id) ==> true && written(spec_write_uuid(m.replica_directory_id)).len() <= isize::MAX && written(spec_write_uuid(m.replica_directory_id)).len() <= u32::MAX) && (if version >= 1 && !uuid_is_nil(m.replica_directory_id) { 1int } else { 0int }) + m.unknown_tagged_fields.len() <= u32::MAX && tags_fit(m.unknown_tagged_fields),
    {
        reveal(PartitionSnapshot::spec_write_tags);
        let k = Self::spec_known_tags(m, version);
        lemma_tags_fit_single(0u32, written(spec_write_uuid(m.replica_directory_id)));
        if true {
            Self::lemma_tag_section(m, version);
            if k is Ok {
                lemma_sorted_tags_fit(k->Ok_0 + m.unknown_tagged_fields);
                lemma_tagged_fields_writable(sorted_by_tag(k->Ok_0 + m.unknown_tagged_fields));
                lemma_tags_fit_concat(k->Ok_0, m.unknown_tagged_fields);
            }
        }
    }

    /// Writing `m` in `version` succeeds exactly when `m` is writable in it;
    /// so do `write` and `encoded_len`, whose results follow `spec_write`.
    #[verifier::rlimit(60)]
    pub proof fn lemma_writable(m: PartitionSnapshotView, version: i16)
        ensures
            Self::spec_write(m, version) is Ok <==> Self::writable(m, version),
    {
        Self::lemma_writable_partition(m, version);
        Self::lemma_writable_current_leader_epoch(m, version);
        Self::lemma_writable_snapshot_id(m, version);
        Self::lemma_writable_position(m, version);
        Self::lemma_writable_tags(m, version);
    }

    pub fn with_partition(self, value: i32) -> (r: Self)
        ensures
            r@ == (PartitionSnapshotView { partition: value, ..self@ }),
    {
        let mut r = self;
        r.partition = value;
        r
    }

    pub fn with_current_leader_epoch(self, value: i32) -> (r: Self)
        ensures
            r@ == (PartitionSnapshotView { current_leader_epoch: value, ..self@ }),
    {
        let mut r = self;
        r.current_leader_epoch = value;
        r
    }

    pub fn with_snapshot_id(self, value: SnapshotId) -> (r: Self)
        ensures
            r@ == (PartitionSnapshotView { snapshot_id: value@, ..self@ }),
    {
        let mut r = self;
        r.snapshot_id = value;
        r
    }

    pub fn with_position(self, value: i64) -> (r: Self)
        ensures
            r@ == (PartitionSnapshotView { position: value, ..self@ }),
    {
        let mut r = self;
        r.position = value;
        r
    }

    pub fn with_replica_directory_id(self, value: KafkaUuid) -> (r: Self)
        ensures
            r@ == (PartitionSnapshotView { replica_directory_id: value, ..self@ }),
    {
        let mut r = self;
        r.replica_directory_id = value;
        r
    }

    /// The known tagged fields and the unknown ones after the tagged field `f`
    /// is read: a known one replaces the value it holds, an unknown one is kept.
    pub open spec fn spec_apply_tag(st: (KafkaUuid, Seq<(u32, Seq<u8>)>), f: (u32, Seq<u8>), version: i16) -> Result<(KafkaUuid, Seq<(u32, Seq<u8>)>), Error> {
        if f.0 == 0u32 {
            if version >= 1 {
                match (spec_read_uuid(f.1)) {
                    Err(e) => Err(e),
                    Ok((v, _)) => Ok((v, st.1)),
                }
            } else {
                Ok(st)
            }
        } else {
            Ok((st.0, st.1.push(f)))
        }
    }

    /// The known tagged fields, and the unknown ones, that reading `tags` in
    /// order gives, starting from `st`.
    pub open spec fn spec_apply_tags_from(st: (KafkaUuid, Seq<(u32, Seq<u8>)>), tags: Seq<(u32, Seq<u8>)>, version: i16) -> Result<(KafkaUuid, Seq<(u32, Seq<u8>)>), Error>
    decreases tags.len(),
    {
        if tags.len() == 0 {
            Ok(st)
        } else {
            match Self::spec_apply_tags_from(st, tags.drop_last(), version) {
                Err(e) => Err(e),
                Ok(s2) => Self::spec_apply_tag(s2, tags.last(), version),
            }
        }
    }

    /// The known tagged fields, and the unknown ones, that reading `tags` in
    /// order gives.
    pub open spec fn spec_apply_tags(tags: Seq<(u32, Seq<u8>)>, version: i16) -> Result<(KafkaUuid, Seq<(u32, Seq<u8>)>), Error> {
        Self::spec_apply_tags_from((KafkaUuid { most_significant_bits: 0, least_significant_bits: 0 }, Seq::empty()), tags, version)
    }

    /// Whether a tagged field with tag `t` is one of the known ones.
    pub open spec fn is_known_tag(t: u32) -> bool {
        t == 0u32
    }

    proof fn lemma_apply_tags_err(tags: Seq<(u32, Seq<u8>)>, i: int, version: i16)
        requires
            0 <= i <= tags.len(),
            Self::spec_apply_tags(tags.take(i), version) is Err,
        ensures
            Self::spec_apply_tags(tags, version) == Self::spec_apply_tags(tags.take(i), version),
            decreases tags.len() - i,
    {
        if i < tags.len() {
            assert(tags.take(i + 1).drop_last() =~= tags.take(i));
            Self::lemma_apply_tags_err(tags, i + 1, version);
        } else {
            assert(tags.take(i) =~= tags);
        }
    }

    fn apply_tags(tags: &Vec<RawTaggedField>, version: i16) -> (r: Result<(KafkaUuid, Vec<RawTaggedField>), Error>)
        ensures
            match Self::spec_apply_tags(views(tags@), version) {
            Err(e) => r matches Err(e2) && e2 == e,
            Ok(st) => r matches Ok(x) && x.0 == st.0 && views(x.1@) == st.1,
            },
    {
        let ghost ts = views(tags@);
        let mut k_replica_directory_id: KafkaUuid = KafkaUuid::zero();
        let mut unknown: Vec<RawTaggedField> = empty_vec();
        let mut i: usize = 0;
        assert(ts.take(0) =~= Seq::<(u32, Seq<u8>)>::empty());
        while i < tags.len()
        invariant
        0 <= i <= tags.len(),
        ts == views(tags@),
        Self::spec_apply_tags(ts.take(i as int), version) == Ok::<(KafkaUuid, Seq<(u32, Seq<u8>)>), Error>((k_replica_directory_id, views(unknown@))),
        decreases tags.len() - i,
        {
            let field = &tags[i];
            proof {
                assert(ts.take(i + 1).drop_last() =~= ts.take(i as int));
                assert(ts.take(i + 1).last() == field@);
            }
            if field.tag == 0 {
                if version >= 1 {
                    let mut tag_buf = field.data.clone();
                    k_replica_directory_id = match read_uuid(&mut tag_buf) {
                        Ok(v) => v,
                        Err(e) => {
                            proof {
                                Self::lemma_apply_tags_err(ts, i + 1, version);
                            }
                            return Err(e);
                        },
                    };
                }
            } else {
                let ghost before = views(unknown@);
                unknown.push(field.clone());
                proof {
                    assert(views(unknown@) =~= before.push(field@));
                }
            }
            i = i + 1;
        }
        proof {
            assert(ts.take(tags.len() as int) =~= ts);
        }
        Ok((k_replica_directory_id, unknown))
    }

    /// The known tagged fields that `m` has to write in `version`, in the
    /// order of their tags: those that do not hold their default value.
    pub open spec fn spec_known_tags(m: PartitionSnapshotView, version: i16) -> Result<Seq<(u32, Seq<u8>)>, Error> {
        match (if version >= 1 && !uuid_is_nil(m.replica_directory_id) {
                tag_entry(0u32, spec_write_uuid(m.replica_directory_id))
            } else {
                Ok(Seq::empty())
        }) {
            Err(e) => Err(e),
            Ok(k0) => Ok(k0),
        }
    }

    fn known_tagged_fields(&self, version: i16) -> (r: Result<Vec<RawTaggedField>, Error>)
        ensures
            match Self::spec_known_tags(self@, version) {
            Err(e) => r matches Err(e2) && e2 == e,
            Ok(k) => r matches Ok(v) && views(v@) == k,
            },
    {
        let ghost m = self@;
        let ghost w0 = spec_write_uuid(m.replica_directory_id);
        let ghost e0 = if version >= 1 && !uuid_is_nil(m.replica_directory_id) {
            tag_entry(0u32, w0)
        } else {
            Ok(Seq::empty())
        };
        let mut known: Vec<RawTaggedField> = empty_vec();
        let ghost prev0 = views(known@);
        if version >= 1 && !self.replica_directory_id.is_nil() {
            let n = match Ok(16) {
                Ok(n) => n,
                Err(e) => {
                    return Err(e);
                },
            };
            if n > isize::MAX as usize {
                return Err(Error::ValueTooLong);
            }
            let mut tag_buf = bytes_mut_new();
            let _: Result<(), Error> = {
                write_uuid(&mut tag_buf, self.replica_directory_id);
                Ok(())
            };
            let data = bytes_mut_freeze(tag_buf);
            assert(bytes_seq(data) =~= written(w0));
            known.push(RawTaggedField { tag: 0, data });
        }
        assert(views(known@) =~= prev0 + e0->Ok_0);
        Ok(known)
    }

    fn read_partition(buf: &mut Bytes, version: i16) -> (r: Result<i32, Error>)
        ensures
            read_as(Self::spec_read_partition(bytes_seq(*old(buf)), version), *final(buf), r),
            took_front(*old(buf), *final(buf)),
    {
        proof {
            reveal(PartitionSnapshot::spec_read_partition);
        }
        Ok(read_i32(buf)?)
    }

    fn read_current_leader_epoch(buf: &mut Bytes, version: i16) -> (r: Result<i32, Error>)
        ensures
            read_as(Self::spec_read_current_leader_epoch(bytes_seq(*old(buf)), version), *final(buf), r),
            took_front(*old(buf), *final(buf)),
    {
        proof {
            reveal(PartitionSnapshot::spec_read_current_leader_epoch);
        }
        Ok(read_i32(buf)?)
    }

    fn read_snapshot_id(buf: &mut Bytes, version: i16) -> (r: Result<SnapshotId, Error>)
        ensures
            read_as(Self::spec_read_snapshot_id(bytes_seq(*old(buf)), version), *final(buf), r),
            took_front(*old(buf), *final(buf)),
    {
        proof {
            reveal(PartitionSnapshot::spec_read_snapshot_id);
        }
        Ok(SnapshotId::read(buf, version)?)
    }

    fn read_position(buf: &mut Bytes, version: i16) -> (r: Result<i64, Error>)
        ensures
            read_as(Self::spec_read_position(bytes_seq(*old(buf)), version), *final(buf), r),
            took_front(*old(buf), *final(buf)),
    {
        proof {
            reveal(PartitionSnapshot::spec_read_position);
        }
        Ok(read_i64(buf)?)
    }

    pub fn read(buf: &mut Bytes, version: i16) -> (r: Result<Self, Error>)
        ensures
            read_as(Self::spec_read(bytes_seq(*old(buf)), version), *final(buf), r),
            took_front(*old(buf), *final(buf)),
    {
        let partition = Self::read_partition(buf, version)?;
        let current_leader_epoch = Self::read_current_leader_epoch(buf, version)?;
        let snapshot_id = Self::read_snapshot_id(buf, version)?;
        let position = Self::read_position(buf, version)?;
        let (replica_directory_id, _unknown_tagged_fields) = {
            let tags = read_tagged_fields(buf)?;
            Self::apply_tags(&tags, version)?
        };
        Ok(PartitionSnapshot {
                partition: partition,
                current_leader_epoch: current_leader_epoch,
                snapshot_id: snapshot_id,
                position: position,
                replica_directory_id: replica_directory_id,
                _unknown_tagged_fields: _unknown_tagged_fields,
        })
    }

    #[verifier::rlimit(80)]
    pub fn write(&self, buf: &mut BytesMut, version: i16) -> (r: Result<(), Error>)
        requires
            has_room(Self::spec_write(self@, version), *old(buf)),
        ensures
            wrote(Self::spec_write(self@, version), *old(buf), *final(buf), r),
    {
        let ghost m = self@;
        proof {
            reveal(PartitionSnapshot::spec_write_partition);
            reveal(PartitionSnapshot::spec_write_current_leader_epoch);
            reveal(PartitionSnapshot::spec_write_snapshot_id);
            reveal(PartitionSnapshot::spec_write_position);
            reveal(PartitionSnapshot::spec_write_tags);
        }
        let ghost s0 = Self::spec_write_partition(m, version);
        let ghost w0 = s0;
        let ghost s1 = Self::spec_write_current_leader_epoch(m, version);
        let ghost w1 = chain(w0, s1);
        let ghost s2 = Self::spec_write_snapshot_id(m, version);
        let ghost w2 = chain(w1, s2);
        let ghost s3 = Self::spec_write_position(m, version);
        let ghost w3 = chain(w2, s3);
        let ghost s4 = Self::spec_write_tags(m, version);
        let ghost w4 = chain(w3, s4);
        assert(Self::spec_write(m, version) == w4);
        assert(written(w3).len() <= written(w4).len() && (w3 is Err ==> w4 == w3));
        assert(written(w2).len() <= written(w4).len() && (w2 is Err ==> w4 == w2));
        assert(written(w1).len() <= written(w4).len() && (w1 is Err ==> w4 == w1));
        assert(written(w0).len() <= written(w4).len() && (w0 is Err ==> w4 == w0));
        let ghost mid = bytes_mut_seq(*buf);
        proof {
            lemma_append_empty(mid);
        }
        let r0 = {
            write_i32(buf, self.partition);
            Ok(())
        };
        assert(bytes_mut_seq(*buf) == mid + written(s0));
        if r0.is_err() {
            return r0;
        }
        let ghost mid = bytes_mut_seq(*buf);
        proof {
            lemma_append_empty(mid);
        }
        let r1 = {
            write_i32(buf, self.current_leader_epoch);
            Ok(())
        };
        assert(bytes_mut_seq(*buf) == mid + written(s1));
        proof {
            lemma_step(bytes_mut_seq(*old(buf)), w0, s1);
        }
        if r1.is_err() {
            return r1;
        }
        let ghost mid = bytes_mut_seq(*buf);
        proof {
            lemma_append_empty(mid);
        }
        let r2 = self.snapshot_id.write(buf, version);
        assert(bytes_mut_seq(*buf) == mid + written(s2));
        proof {
            lemma_step(bytes_mut_seq(*old(buf)), w1, s2);
        }
        if r2.is_err() {
            return r2;
        }
        let ghost mid = bytes_mut_seq(*buf);
        proof {
            lemma_append_empty(mid);
        }
        let r3 = {
            write_i64(buf, self.position);
            Ok(())
        };
        assert(bytes_mut_seq(*buf) == mid + written(s3));
        proof {
            lemma_step(bytes_mut_seq(*old(buf)), w2, s3);
        }
        if r3.is_err() {
            return r3;
        }
        let ghost mid = bytes_mut_seq(*buf);
        proof {
            lemma_append_empty(mid);
        }
        let r4 = match self.known_tagged_fields(version) {
            Err(e) => Err(e),
            Ok(known) => {
                let all = append_fields(known, &self._unknown_tagged_fields);
                write_tagged_fields(buf, &sort_by_tag(&all))
            },
        };
        assert(bytes_mut_seq(*buf) == mid + written(s4));
        proof {
            lemma_step(bytes_mut_seq(*old(buf)), w3, s4);
        }
        if r4.is_err() {
            return r4;
        }
        Ok(())
    }

    #[verifier::rlimit(80)]
    pub fn encoded_len(&self, version: i16) -> (r: Result<usize, Error>)
        ensures
            r == len_result(Self::spec_write(self@, version)),
    {
        let ghost m = self@;
        proof {
            reveal(PartitionSnapshot::spec_write_partition);
            reveal(PartitionSnapshot::spec_write_current_leader_epoch);
            reveal(PartitionSnapshot::spec_write_snapshot_id);
            reveal(PartitionSnapshot::spec_write_position);
            reveal(PartitionSnapshot::spec_write_tags);
        }
        let ghost s0 = Self::spec_write_partition(m, version);
        let ghost w0 = s0;
        let ghost s1 = Self::spec_write_current_leader_epoch(m, version);
        let ghost w1 = chain(w0, s1);
        let ghost s2 = Self::spec_write_snapshot_id(m, version);
        let ghost w2 = chain(w1, s2);
        let ghost s3 = Self::spec_write_position(m, version);
        let ghost w3 = chain(w2, s3);
        let ghost s4 = Self::spec_write_tags(m, version);
        let ghost w4 = chain(w3, s4);
        assert(Self::spec_write(m, version) == w4);
        assert(w3 is Err ==> w4 == w3);
        assert(w2 is Err ==> w4 == w2);
        assert(w1 is Err ==> w4 == w1);
        assert(w0 is Err ==> w4 == w0);
        let mut len: usize = 0;
        let l0 = Ok(4);
        assert(l0 == len_result(s0));
        let n0 = match l0 {
            Ok(n) => n,
            Err(e) => {
                return Err(e);
            },
        };
        len = saturating_sum(len, n0);
        assert(w0 is Ok && len == saturate(written(w0).len() as int));
        let l1 = Ok(4);
        assert(l1 == len_result(s1));
        let n1 = match l1 {
            Ok(n) => n,
            Err(e) => {
                return Err(e);
            },
        };
        proof {
            lemma_len_step(w0, s1, n1);
        }
        len = saturating_sum(len, n1);
        assert(w1 is Ok && len == saturate(written(w1).len() as int));
        let l2 = self.snapshot_id.encoded_len(version);
        assert(l2 == len_result(s2));
        let n2 = match l2 {
            Ok(n) => n,
            Err(e) => {
                return Err(e);
            },
        };
        proof {
            lemma_len_step(w1, s2, n2);
        }
        len = saturating_sum(len, n2);
        assert(w2 is Ok && len == saturate(written(w2).len() as int));
        let l3 = Ok(8);
        assert(l3 == len_result(s3));
        let n3 = match l3 {
            Ok(n) => n,
            Err(e) => {
                return Err(e);
            },
        };
        proof {
            lemma_len_step(w2, s3, n3);
        }
        len = saturating_sum(len, n3);
        assert(w3 is Ok && len == saturate(written(w3).len() as int));
        let l4 = match self.known_tagged_fields(version) {
            Err(e) => Err(e),
            Ok(known) => {
                let all = append_fields(known, &self._unknown_tagged_fields);
                tagged_fields_len(&sort_by_tag(&all))
            },
        };
        assert(l4 == len_result(s4));
        let n4 = match l4 {
            Ok(n) => n,
            Err(e) => {
                return Err(e);
            },
        };
        proof {
            lemma_len_step(w3, s4, n4);
        }
        len = saturating_sum(len, n4);
        assert(w4 is Ok && len == saturate(written(w4).len() as int));
        Ok(len)
    }
}

#[derive(Debug, PartialEq)]
pub struct SnapshotId {
    /// The end offset of the snapshot.
    pub end_offset: i64,
    /// The epoch of the snapshot.
    pub epoch: i32,
    pub _unknown_tagged_fields: Vec<RawTaggedField>,
}

/// What a `SnapshotId` holds, as the specification sees it.
#[verifier::ext_equal]
pub struct SnapshotIdView {
    pub end_offset: i64,
    pub epoch: i32,
    pub unknown_tagged_fields: Seq<(u32, Seq<u8>)>,
}

impl View for SnapshotId {
    type V = SnapshotIdView;

    open spec fn view(&self) -> SnapshotIdView {
        SnapshotIdView {
            end_offset: self.end_offset,
            epoch: self.epoch,
            unknown_tagged_fields: views(self._unknown_tagged_fields@),
        }
    }
}

impl Clone for SnapshotId {
    fn clone(&self) -> (r: Self)
        ensures
            r@ == self@,
    {
        let r = SnapshotId {
            end_offset: self.end_offset,
            epoch: self.epoch,
            _unknown_tagged_fields: clone_vec(&self._unknown_tagged_fields),
        };
        assert(r@ =~= self@);
        r
    }
}

impl ViewClone for SnapshotId {
    fn clone_view(&self) -> (r: Self) {
        self.clone()
    }
}

impl Default for SnapshotId {
    fn default() -> (r: Self)
        ensures
            r@ == Self::default_view(),
    {
        let r = SnapshotId {
            end_offset: 0_i64,
            epoch: 0_i32,
            _unknown_tagged_fields: empty_vec(),
        };
        assert(r@ =~= Self::default_view());
        r
    }
}

impl SnapshotId {
    pub open spec fn default_view() -> SnapshotIdView {
        SnapshotIdView {
            end_offset: 0_i64,
            epoch: 0_i32,
            unknown_tagged_fields: Seq::empty(),
        }
    }

    /// The `end_offset` field, read from the front of `s`.
    #[verifier::opaque]
    pub open spec fn spec_read_end_offset(s: Seq<u8>, version: i16) -> ReadOutcome<i64> {
        spec_read_i64(s)
    }

    /// The `epoch` field, read from the front of `s`.
    #[verifier::opaque]
    pub open spec fn spec_read_epoch(s: Seq<u8>, version: i16) -> ReadOutcome<i32> {
        spec_read_i32(s)
    }

    /// The tagged fields, read from the front of `s`.
    #[verifier::opaque]
    pub open spec fn spec_read_tags(s: Seq<u8>, version: i16) -> ReadOutcome<Seq<(u32, Seq<u8>)>> {
        spec_read_tagged_fields(s)
    }

    pub open spec fn spec_read(s: Seq<u8>, version: i16) -> ReadOutcome<SnapshotIdView> {
        match (Self::spec_read_end_offset(s, version)) {
            Err(e) => Err(e),
            Ok((end_offset, s)) => match (Self::spec_read_epoch(s, version)) {
                Err(e) => Err(e),
                Ok((epoch, s)) => match (Self::spec_read_tags(s, version)) {
                    Err(e) => Err(e),
                    Ok((unknown_tagged_fields, s)) => Ok((SnapshotIdView {
                                end_offset: end_offset,
                                epoch: epoch,
                                unknown_tagged_fields: unknown_tagged_fields,
                            }, s)),
                },
            },
        }
    }

    /// What writing the `end_offset` field of `m` appends.
    #[verifier::opaque]
    pub open spec fn spec_write_end_offset(m: SnapshotIdView, version: i16) -> WriteOutcome {
        spec_write_i64(m.end_offset)
    }

    /// What writing the `epoch` field of `m` appends.
    #[verifier::opaque]
    pub open spec fn spec_write_epoch(m: SnapshotIdView, version: i16) -> WriteOutcome {
        spec_write_i32(m.epoch)
    }

    /// What writing the tagged fields of `m` appends.
    #[verifier::opaque]
    pub open spec fn spec_write_tags(m: SnapshotIdView, version: i16) -> WriteOutcome {
        spec_write_tagged_fields(sorted_by_tag(m.unknown_tagged_fields))
    }

    pub open spec fn spec_write(m: SnapshotIdView, version: i16) -> WriteOutcome {
        chain(
            chain(
                Self::spec_write_end_offset(m, version),
                Self::spec_write_epoch(m, version),
            ),
            Self::spec_write_tags(m, version),
        )
    }

    /// Whether reading back what writing `m` in `version` appends gives `m`:
    /// fields that the version does not carry hold their default values, and
    /// tagged fields come in the order in which they are written.
    pub open spec fn canonical(m: SnapshotIdView, version: i16) -> bool {
        &&& tags_in_order(m.unknown_tagged_fields)
    }

    proof fn lemma_round_trip_end_offset(m: SnapshotIdView, version: i16, rest: Seq<u8>)
        requires
            Self::canonical(m, version),
            Self::spec_write_end_offset(m, version) is Ok,
        ensures
            Self::spec_read_end_offset(written(Self::spec_write_end_offset(m, version)) + rest, version) == Ok::<(i64, Seq<u8>), Error>((m.end_offset, rest)),
    {
        reveal(SnapshotId::spec_read_end_offset);
        reveal(SnapshotId::spec_write_end_offset);
        lemma_i64_roundtrip(m.end_offset, rest);
    }

    proof fn lemma_round_trip_epoch(m: SnapshotIdView, version: i16, rest: Seq<u8>)
        requires
            Self::canonical(m, version),
            Self::spec_write_epoch(m, version) is Ok,
        ensures
            Self::spec_read_epoch(written(Self::spec_write_epoch(m, version)) + rest, version) == Ok::<(i32, Seq<u8>), Error>((m.epoch, rest)),
    {
        reveal(SnapshotId::spec_read_epoch);
        reveal(SnapshotId::spec_write_epoch);
        lemma_i32_roundtrip(m.epoch, rest);
    }

    proof fn lemma_round_trip_tags(m: SnapshotIdView, version: i16, rest: Seq<u8>)
        requires
            Self::canonical(m, version),
            Self::spec_write_tags(m, version) is Ok,
        ensures
            Self::spec_read_tags(written(Self::spec_write_tags(m, version)) + rest, version) == Ok::<(Seq<(u32, Seq<u8>)>, Seq<u8>), Error>((m.unknown_tagged_fields, rest)),
    {
        reveal(SnapshotId::spec_read_tags);
        reveal(SnapshotId::spec_write_tags);
        lemma_sorted_by_tag_in_order(m.unknown_tagged_fields);
        lemma_tagged_fields_round_trip(m.unknown_tagged_fields, rest);
    }

    /// Reading back what writing `m` in `version` appends gives `m` again, and
    /// leaves what follows, for every canonical message whose write succeeds.
    #[verifier::rlimit(70)]
    #[verifier::spinoff_prover]
    pub proof fn lemma_round_trip(m: SnapshotIdView, version: i16, rest: Seq<u8>)
        requires
            Self::canonical(m, version),
            Self::spec_write(m, version) is Ok,
        ensures
            Self::spec_read(written(Self::spec_write(m, version)) + rest, version) == Ok::<(SnapshotIdView, Seq<u8>), Error>((m, rest)),
    {
        let b0 = written(Self::spec_write_end_offset(m, version));
        let b1 = written(Self::spec_write_epoch(m, version));
        let b2 = written(Self::spec_write_tags(m, version));
        let t3 = rest;
        let t2 = b2 + t3;
        let t1 = b1 + t2;
        let t0 = b0 + t1;
        let w0 = Self::spec_write_end_offset(m, version);
        let w1 = chain(w0, Self::spec_write_epoch(m, version));
        let w2 = chain(w1, Self::spec_write_tags(m, version));
        assert(Self::spec_write(m, version) == w2);
        assert(written(w2) + t3 =~= written(w1) + t2);
        assert(written(w1) + t2 =~= written(w0) + t1);
        Self::lemma_round_trip_end_offset(m, version, t1);
        Self::lemma_round_trip_epoch(m, version, t2);
        Self::lemma_round_trip_tags(m, version, t3);
    }

    /// The default message holds the default value of each field of the schema.
    pub proof fn lemma_default_values()
        ensures
            Self::default_view().end_offset == (0_i64),
            Self::default_view().epoch == (0_i32),
            Self::default_view().unknown_tagged_fields.len() == 0,
    {
    }

    /// Each integer, boolean and identifier field is written as its standard
    /// big-endian bytes (a boolean as `1` or `0`) in the versions that carry
    /// it, and as nothing in the others; reading it takes those bytes back (any
    /// byte other than `0` reads as `true`), or gives its default value.
    pub proof fn lemma_field_encodings(m: SnapshotIdView, s: Seq<u8>, version: i16)
        ensures
            true ==> Self::spec_write_end_offset(m, version) == Ok::<Seq<u8>, (Error, Seq<u8>)>(u64_bytes(m.end_offset as u64)),
            true ==> Self::spec_write_epoch(m, version) == Ok::<Seq<u8>, (Error, Seq<u8>)>(u32_bytes(m.epoch as u32)),
            true ==> Self::spec_read_end_offset(s, version) == spec_read_i64(s),
            true ==> Self::spec_read_epoch(s, version) == spec_read_i32(s),
    {
        reveal(SnapshotId::spec_write_end_offset);
        reveal(SnapshotId::spec_read_end_offset);
        reveal(SnapshotId::spec_write_epoch);
        reveal(SnapshotId::spec_read_epoch);
    }

    /// Whether writing `m` in `version` succeeds, said over its parts: the
    /// version is one the schema covers, every field that the version cannot
    /// carry holds its default value, and every string, byte string, array and
    /// tagged field fits its length prefix.
    pub open spec fn writable(m: SnapshotIdView, version: i16) -> bool {
        &&& m.unknown_tagged_fields.len() <= u32::MAX && tags_fit(m.unknown_tagged_fields)
    }

    proof fn lemma_writable_end_offset(m: SnapshotIdView, version: i16)
        ensures
            Self::spec_write_end_offset(m, version) is Ok <==> true,
    {
        reveal(SnapshotId::spec_write_end_offset);
    }

    proof fn lemma_writable_epoch(m: SnapshotIdView, version: i16)
        ensures
            Self::spec_write_epoch(m, version) is Ok <==> true,
    {
        reveal(SnapshotId::spec_write_epoch);
    }

    proof fn lemma_writable_tags(m: SnapshotIdView, version: i16)
        ensures
            Self::spec_write_tags(m, version) is Ok <==> m.unknown_tagged_fields.len() <= u32::MAX && tags_fit(m.unknown_tagged_fields),
    {
        reveal(SnapshotId::spec_write_tags);
        lemma_sorted_tags_fit(m.unknown_tagged_fields);
        lemma_tagged_fields_writable(sorted_by_tag(m.unknown_tagged_fields));
    }

    /// Writing `m` in `version` succeeds exactly when `m` is writable in it;
    /// so do `write` and `encoded_len`, whose results follow `spec_write`.
    #[verifier::rlimit(48)]
    pub proof fn lemma_writable(m: SnapshotIdView, version: i16)
        ensures
            Self::spec_write(m, version) is Ok <==> Self::writable(m, version),
    {
        Self::lemma_writable_end_offset(m, version);
        Self::lemma_writable_epoch(m, version);
        Self::lemma_writable_tags(m, version);
    }

    pub fn with_end_offset(self, value: i64) -> (r: Self)
        ensures
            r@ == (SnapshotIdView { end_offset: value, ..self@ }),
    {
        let mut r = self;
        r.end_offset = value;
        r
    }

    pub fn with_epoch(self, value: i32) -> (r: Self)
        ensures
            r@ == (SnapshotIdView { epoch: value, ..self@ }),
    {
        let mut r = self;
        r.epoch = value;
        r
    }

    fn read_end_offset(buf: &mut Bytes, version: i16) -> (r: Result<i64, Error>)
        ensures
            read_as(Self::spec_read_end_offset(bytes_seq(*old(buf)), version), *final(buf), r),
            took_front(*old(buf), *final(buf)),
    {
        proof {
            reveal(SnapshotId::spec_read_end_offset);
        }
        Ok(read_i64(buf)?)
    }

    fn read_epoch(buf: &mut Bytes, version: i16) -> (r: Result<i32, Error>)
        ensures
            read_as(Self::spec_read_epoch(bytes_seq(*old(buf)), version), *final(buf), r),
            took_front(*old(buf), *final(buf)),
    {
        proof {
            reveal(SnapshotId::spec_read_epoch);
        }
        Ok(read_i32(buf)?)
    }

    fn read_tags(buf: &mut Bytes, version: i16) -> (r: Result<Vec<RawTaggedField>, Error>)
        ensures
            read_vec_as(Self::spec_read_tags(bytes_seq(*old(buf)), version), *final(buf), r),
            took_front(*old(buf), *final(buf)),
    {
        proof {
            reveal(SnapshotId::spec_read_tags);
        }
        Ok(read_tagged_fields(buf)?)
    }

    pub fn read(buf: &mut Bytes, version: i16) -> (r: Result<Self, Error>)
        ensures
            read_as(Self::spec_read(bytes_seq(*old(buf)), version), *final(buf), r),
            took_front(*old(buf), *final(buf)),
    {
        let end_offset = Self::read_end_offset(buf, version)?;
        let epoch = Self::read_epoch(buf, version)?;
        let _unknown_tagged_fields = Self::read_tags(buf, version)?;
        Ok(SnapshotId {
                end_offset: end_offset,
                epoch: epoch,
                _unknown_tagged_fields: _unknown_tagged_fields,
        })
    }

    #[verifier::rlimit(60)]
    pub fn write(&self, buf: &mut BytesMut, version: i16) -> (r: Result<(), Error>)
        requires
            has_room(Self::spec_write(self@, version), *old(buf)),
        ensures
            wrote(Self::spec_write(self@, version), *old(buf), *final(buf), r),
    {
        let ghost m = self@;
        proof {
            reveal(SnapshotId::spec_write_end_offset);
            reveal(SnapshotId::spec_write_epoch);
            reveal(SnapshotId::spec_write_tags);
        }
        let ghost s0 = Self::spec_write_end_offset(m, version);
        let ghost w0 = s0;
        let ghost s1 = Self::spec_write_epoch(m, version);
        let ghost w1 = chain(w0, s1);
        let ghost s2 = Self::spec_write_tags(m, version);
        let ghost w2 = chain(w1, s2);
        assert(Self::spec_write(m, version) == w2);
        assert(written(w1).len() <= written(w2).len() && (w1 is Err ==> w2 == w1));
        assert(written(w0).len() <= written(w2).len() && (w0 is Err ==> w2 == w0));
        let ghost mid = bytes_mut_seq(*buf);
        proof {
            lemma_append_empty(mid);
        }
        let r0 = {
            write_i64(buf, self.end_offset);
            Ok(())
        };
        assert(bytes_mut_seq(*buf) == mid + written(s0));
        if r0.is_err() {
            return r0;
        }
        let ghost mid = bytes_mut_seq(*buf);
        proof {
            lemma_append_empty(mid);
        }
        let r1 = {
            write_i32(buf, self.epoch);
            Ok(())
        };
        assert(bytes_mut_seq(*buf) == mid + written(s1));
        proof {
            lemma_step(bytes_mut_seq(*old(buf)), w0, s1);
        }
        if r1.is_err() {
            return r1;
        }
        let ghost mid = bytes_mut_seq(*buf);
        proof {
            lemma_append_empty(mid);
        }
        let r2 = write_tagged_fields(buf, &sort_by_tag(&self._unknown_tagged_fields));
        assert(bytes_mut_seq(*buf) == mid + written(s2));
        proof {
            lemma_step(bytes_mut_seq(*old(buf)), w1, s2);
        }
        if r2.is_err() {
            return r2;
        }
        Ok(())
    }

    #[verifier::rlimit(60)]
    pub fn encoded_len(&self, version: i16) -> (r: Result<usize, Error>)
        ensures
            r == len_result(Self::spec_write(self@, version)),
    {
        let ghost m = self@;
        proof {
            reveal(SnapshotId::spec_write_end_offset);
            reveal(SnapshotId::spec_write_epoch);
            reveal(SnapshotId::spec_write_tags);
        }
        let ghost s0 = Self::spec_write_end_offset(m, version);
        let ghost w0 = s0;
        let ghost s1 = Self::spec_write_epoch(m, version);
        let ghost w1 = chain(w0, s1);
        let ghost s2 = Self::spec_write_tags(m, version);
        let ghost w2 = chain(w1, s2);
        assert(Self::spec_write(m, version) == w2);
        assert(w1 is Err ==> w2 == w1);
        assert(w0 is Err ==> w2 == w0);
        let mut len: usize = 0;
        let l0 = Ok(8);
        assert(l0 == len_result(s0));
        let n0 = match l0 {
            Ok(n) => n,
            Err(e) => {
                return Err(e);
            },
        };
        len = saturating_sum(len, n0);
        assert(w0 is Ok && len == saturate(written(w0).len() as int));
        let l1 = Ok(4);
        assert(l1 == len_result(s1));
        let n1 = match l1 {
            Ok(n) => n,
            Err(e) => {
                return Err(e);
            },
        };
        proof {
            lemma_len_step(w0, s1, n1);
        }
        len = saturating_sum(len, n1);
        assert(w1 is Ok && len == saturate(written(w1).len() as int));
        let l2 = tagged_fields_len(&sort_by_tag(&self._unknown_tagged_fields));
        assert(l2 == len_result(s2));
        let n2 = match l2 {
            Ok(n) => n,
            Err(e) => {
                return Err(e);
            },
        };
        proof {
            lemma_len_step(w1, s2, n2);
        }
        len = saturating_sum(len, n2);
        assert(w2 is Ok && len == saturate(written(w2).len() as int));
        Ok(len)
    }
}

impl Codec for TopicSnapshot {
    type Item = TopicSnapshot;

    open spec fn spec_read_item(s: Seq<u8>, version: i16) -> ReadOutcome<TopicSnapshotView> {
        TopicSnapshot::spec_read(s, version)
    }

    open spec fn spec_write_item(v: TopicSnapshotView, version: i16) -> WriteOutcome {
        TopicSnapshot::spec_write(v, version)
    }

    open spec fn canonical_item(v: TopicSnapshotView, version: i16) -> bool {
        TopicSnapshot::canonical(v, version)
    }

    proof fn lemma_item_round_trip(v: TopicSnapshotView, version: i16, rest: Seq<u8>) {
        TopicSnapshot::lemma_round_trip(v, version, rest);
    }

    open spec fn writable_item(v: TopicSnapshotView, version: i16) -> bool {
        TopicSnapshot::writable(v, version)
    }

    proof fn lemma_item_writable(v: TopicSnapshotView, version: i16) {
        TopicSnapshot::lemma_writable(v, version);
    }

    fn read_item(buf: &mut Bytes, version: i16) -> (r: Result<TopicSnapshot, Error>) {
        TopicSnapshot::read(buf, version)
    }

    fn write_item(item: &TopicSnapshot, buf: &mut BytesMut, version: i16) -> (r: Result<(), Error>) {
        item.write(buf, version)
    }
}

impl MeasuredCodec for TopicSnapshot {
    fn item_len(item: &TopicSnapshot, version: i16) -> (r: Result<usize, Error>) {
        item.encoded_len(version)
    }
}

impl Codec for PartitionSnapshot {
    type Item = PartitionSnapshot;

    open spec fn spec_read_item(s: Seq<u8>, version: i16) -> ReadOutcome<PartitionSnapshotView> {
        PartitionSnapshot::spec_read(s, version)
    }

    open spec fn spec_write_item(v: PartitionSnapshotView, version: i16) -> WriteOutcome {
        PartitionSnapshot::spec_write(v, version)
    }

    open spec fn canonical_item(v: PartitionSnapshotView, version: i16) -> bool {
        PartitionSnapshot::canonical(v, version)
    }

    proof fn lemma_item_round_trip(v: PartitionSnapshotView, version: i16, rest: Seq<u8>) {
        PartitionSnapshot::lemma_round_trip(v, version, rest);
    }

    open spec fn writable_item(v: PartitionSnapshotView, version: i16) -> bool {
        PartitionSnapshot::writable(v, version)
    }

    proof fn lemma_item_writable(v: PartitionSnapshotView, version: i16) {
        PartitionSnapshot::lemma_writable(v, version);
    }

    fn read_item(buf: &mut Bytes, version: i16) -> (r: Result<PartitionSnapshot, Error>) {
        PartitionSnapshot::read(buf, version)
    }

    fn write_item(item: &PartitionSnapshot, buf: &mut BytesMut, version: i16) -> (r: Result<(), Error>) {
        item.write(buf, version)
    }
}

impl MeasuredCodec for PartitionSnapshot {
    fn item_len(item: &PartitionSnapshot, version: i16) -> (r: Result<usize, Error>) {
        item.encoded_len(version)
    }
}

} // verus!
