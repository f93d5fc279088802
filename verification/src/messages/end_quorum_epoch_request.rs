//! The end quorum epoch request message.
use crate::buffer::{bytes_mut_seq, bytes_seq};
use crate::codec::{Codec, Int32Item, all_canonical, all_writable, lemma_array_round_trip, lemma_array_writable, read_array, spec_read_array, spec_write_array, write_array};
use crate::error::{Error, UnsupportedVersion};
use crate::ints::{lemma_i32_roundtrip, lemma_u16_roundtrip, read_i32, read_u16, spec_read_i32, spec_read_u16, spec_write_i32, spec_write_u16, u16_bytes, u32_bytes, u64_bytes, write_i32, write_u16};
use crate::strings::{lemma_compact_nullable_string_round_trip, lemma_compact_string_round_trip, lemma_nullable_string_round_trip, lemma_string_round_trip, lemma_uuid_round_trip, read_compact_nullable_string, read_compact_string, read_nullable_string, read_string, read_uuid, spec_read_compact_nullable_string, spec_read_compact_string, spec_read_nullable_string, spec_read_string, spec_read_uuid, spec_write_compact_nullable_string, spec_write_compact_string, spec_write_nullable_string, spec_write_string, spec_write_uuid, write_compact_nullable_string, write_compact_string, write_nullable_string, write_string, write_uuid};
use crate::tagged::{lemma_sorted_by_tag_in_order, lemma_sorted_tags_fit, lemma_tagged_fields_round_trip, lemma_tagged_fields_writable, read_tagged_fields, sort_by_tag, sorted_by_tag, spec_read_tagged_fields, spec_write_tagged_fields, tags_fit, tags_in_order, write_tagged_fields};
use crate::types::{KafkaString, KafkaUuid, RawTaggedField};
use crate::wire::{ReadOutcome, ViewClone, WriteOutcome, chain, clone_vec, emit, empty_vec, fail, has_room, lemma_append_empty, lemma_chain_written, lemma_step, opt_view, read_as, read_opt_as, read_vec_as, took_front, views, written, wrote};
use bytes::{Bytes, BytesMut};
use vstd::prelude::*;

verus! {

broadcast use {crate::wire::lemma_chain_written, crate::wire::lemma_took_front_nothing, crate::wire::lemma_took_front_twice};

#[derive(Debug, PartialEq)]
pub struct EndQuorumEpochRequestData {
    /// The cluster id.
    pub cluster_id: Option<KafkaString>,
    /// The topics.
    pub topics: Vec<TopicData>,
    /// Endpoints for the leader.
    pub leader_endpoints: Vec<LeaderEndpoint>,
    pub _unknown_tagged_fields: Vec<RawTaggedField>,
}

/// What a `EndQuorumEpochRequestData` holds, as the specification sees it.
#[verifier::ext_equal]
pub struct EndQuorumEpochRequestDataView {
    pub cluster_id: Option<Seq<u8>>,
    pub topics: Seq<TopicDataView>,
    pub leader_endpoints: Seq<LeaderEndpointView>,
    pub unknown_tagged_fields: Seq<(u32, Seq<u8>)>,
}

impl View for EndQuorumEpochRequestData {
    type V = EndQuorumEpochRequestDataView;

    open spec fn view(&self) -> EndQuorumEpochRequestDataView {
        EndQuorumEpochRequestDataView {
            cluster_id: opt_view(self.cluster_id),
            topics: views(self.topics@),
            leader_endpoints: views(self.leader_endpoints@),
            unknown_tagged_fields: views(self._unknown_tagged_fields@),
        }
    }
}

impl Clone for EndQuorumEpochRequestData {
    fn clone(&self) -> (r: Self)
        ensures
            r@ == self@,
    {
        let r = EndQuorumEpochRequestData {
            cluster_id: match &self.cluster_id {
                Some(x) => Some(x.clone()),
                None => None,
            },
            topics: clone_vec(&self.topics),
            leader_endpoints: clone_vec(&self.leader_endpoints),
            _unknown_tagged_fields: clone_vec(&self._unknown_tagged_fields),
        };
        assert(r@ =~= self@);
        r
    }
}

impl ViewClone for EndQuorumEpochRequestData {
    fn clone_view(&self) -> (r: Self) {
        self.clone()
    }
}

impl Default for EndQuorumEpochRequestData {
    fn default() -> (r: Self)
        ensures
            r@ == Self::default_view(),
    {
        let r = EndQuorumEpochRequestData {
            cluster_id: None,
            topics: empty_vec(),
            leader_endpoints: empty_vec(),
            _unknown_tagged_fields: empty_vec(),
        };
        assert(r@ =~= Self::default_view());
        r
    }
}

impl EndQuorumEpochRequestData {
    pub open spec fn default_view() -> EndQuorumEpochRequestDataView {
        EndQuorumEpochRequestDataView {
            cluster_id: None,
            topics: Seq::empty(),
            leader_endpoints: Seq::empty(),
            unknown_tagged_fields: Seq::empty(),
        }
    }

    /// The `cluster_id` field, read from the front of `s`.
    #[verifier::opaque]
    pub open spec fn spec_read_cluster_id(s: Seq<u8>, version: i16) -> ReadOutcome<Option<Seq<u8>>> {
        if version >= 1 {
            spec_read_compact_nullable_string(s)
        } else {
            spec_read_nullable_string(s)
        }
    }

    /// The `topics` field, read from the front of `s`.
    #[verifier::opaque]
    pub open spec fn spec_read_topics(s: Seq<u8>, version: i16) -> ReadOutcome<Seq<TopicDataView>> {
        if version >= 1 {
            spec_read_array::<TopicData>(s, version, true)
        } else {
            spec_read_array::<TopicData>(s, version, false)
        }
    }

    /// The `leader_endpoints` field, read from the front of `s`.
    #[verifier::opaque]
    pub open spec fn spec_read_leader_endpoints(s: Seq<u8>, version: i16) -> ReadOutcome<Seq<LeaderEndpointView>> {
        if version >= 1 {
            spec_read_array::<LeaderEndpoint>(s, version, true)
        } else {
            Ok((Seq::empty(), s))
        }
    }

    /// The tagged fields, read from the front of `s`.
    #[verifier::opaque]
    pub open spec fn spec_read_tags(s: Seq<u8>, version: i16) -> ReadOutcome<Seq<(u32, Seq<u8>)>> {
        if version >= 1 {
            spec_read_tagged_fields(s)
        } else {
            Ok((Seq::empty(), s))
        }
    }

    pub open spec fn spec_read(s: Seq<u8>, version: i16) -> ReadOutcome<EndQuorumEpochRequestDataView> {
        if version < 0 || version > 1 {
            Err(Error::UnsupportedVersion(UnsupportedVersion { api_key: 54, version }))
        } else {
            match (Self::spec_read_cluster_id(s, version)) {
                Err(e) => Err(e),
                Ok((cluster_id, s)) => match (Self::spec_read_topics(s, version)) {
                    Err(e) => Err(e),
                    Ok((topics, s)) => match (Self::spec_read_leader_endpoints(s, version)) {
                        Err(e) => Err(e),
                        Ok((leader_endpoints, s)) => match (Self::spec_read_tags(s, version)) {
                            Err(e) => Err(e),
                            Ok((unknown_tagged_fields, s)) => Ok((EndQuorumEpochRequestDataView {
                                        cluster_id: cluster_id,
                                        topics: topics,
                                        leader_endpoints: leader_endpoints,
                                        unknown_tagged_fields: unknown_tagged_fields,
                                    }, s)),
                        },
                    },
                },
            }
        }
    }

    /// What writing the `cluster_id` field of `m` appends.
    #[verifier::opaque]
    pub open spec fn spec_write_cluster_id(m: EndQuorumEpochRequestDataView, version: i16) -> WriteOutcome {
        if version >= 1 {
            spec_write_compact_nullable_string(m.cluster_id)
        } else {
            spec_write_nullable_string(m.cluster_id)
        }
    }

    /// What writing the `topics` field of `m` appends.
    #[verifier::opaque]
    pub open spec fn spec_write_topics(m: EndQuorumEpochRequestDataView, version: i16) -> WriteOutcome {
        if version >= 1 {
            spec_write_array::<TopicData>(m.topics, version, true)
        } else {
            spec_write_array::<TopicData>(m.topics, version, false)
        }
    }

    /// What writing the `leader_endpoints` field of `m` appends.
    #[verifier::opaque]
    pub open spec fn spec_write_leader_endpoints(m: EndQuorumEpochRequestDataView, version: i16) -> WriteOutcome {
        if version >= 1 {
            spec_write_array::<LeaderEndpoint>(m.leader_endpoints, version, true)
        } else {
            emit(Seq::empty())
        }
    }

    /// What writing the tagged fields of `m` appends.
    #[verifier::opaque]
    pub open spec fn spec_write_tags(m: EndQuorumEpochRequestDataView, version: i16) -> WriteOutcome {
        if version >= 1 {
            spec_write_tagged_fields(sorted_by_tag(m.unknown_tagged_fields))
        } else {
            emit(Seq::empty())
        }
    }

    pub open spec fn spec_write(m: EndQuorumEpochRequestDataView, version: i16) -> WriteOutcome {
        if version < 0 || version > 1 {
            fail(Error::UnsupportedVersion(UnsupportedVersion { api_key: 54, version }))
        } else {
            chain(
                chain(
                    chain(
                        Self::spec_write_cluster_id(m, version),
                        Self::spec_write_topics(m, version),
                    ),
                    Self::spec_write_leader_endpoints(m, version),
                ),
                Self::spec_write_tags(m, version),
            )
        }
    }

    /// Whether reading back what writing `m` in `version` appends gives `m`:
    /// fields that the version does not carry hold their default values, and
    /// tagged fields come in the order in which they are written.
    pub open spec fn canonical(m: EndQuorumEpochRequestDataView, version: i16) -> bool {
        &&& all_canonical::<TopicData>(m.topics, version)
        &&& (if version >= 1 {
                all_canonical::<LeaderEndpoint>(m.leader_endpoints, version)
            } else {
                m.leader_endpoints.len() == 0
        })
        &&& (if version >= 1 {
                tags_in_order(m.unknown_tagged_fields)
            } else {
                m.unknown_tagged_fields.len() == 0
        })
    }

    proof fn lemma_round_trip_cluster_id(m: EndQuorumEpochRequestDataView, version: i16, rest: Seq<u8>)
        requires
            Self::canonical(m, version),
            Self::spec_write_cluster_id(m, version) is Ok,
        ensures
            Self::spec_read_cluster_id(written(Self::spec_write_cluster_id(m, version)) + rest, version) == Ok::<(Option<Seq<u8>>, Seq<u8>), Error>((m.cluster_id, rest)),
    {
        reveal(EndQuorumEpochRequestData::spec_read_cluster_id);
        reveal(EndQuorumEpochRequestData::spec_write_cluster_id);
        if version >= 1 {
            lemma_compact_nullable_string_round_trip(m.cluster_id, rest);
        } else {
            lemma_nullable_string_round_trip(m.cluster_id, rest);
        }
    }

    proof fn lemma_round_trip_topics(m: EndQuorumEpochRequestDataView, version: i16, rest: Seq<u8>)
        requires
            Self::canonical(m, version),
            Self::spec_write_topics(m, version) is Ok,
        ensures
            Self::spec_read_topics(written(Self::spec_write_topics(m, version)) + rest, version) == Ok::<(Seq<TopicDataView>, Seq<u8>), Error>((m.topics, rest)),
    {
        reveal(EndQuorumEpochRequestData::spec_read_topics);
        reveal(EndQuorumEpochRequestData::spec_write_topics);
        if version >= 1 {
            lemma_array_round_trip::<TopicData>(m.topics, version, true, rest);
        } else {
            lemma_array_round_trip::<TopicData>(m.topics, version, false, rest);
        }
    }

    proof fn lemma_round_trip_leader_endpoints(m: EndQuorumEpochRequestDataView, version: i16, rest: Seq<u8>)
        requires
            Self::canonical(m, version),
            Self::spec_write_leader_endpoints(m, version) is Ok,
        ensures
            Self::spec_read_leader_endpoints(written(Self::spec_write_leader_endpoints(m, version)) + rest, version) == Ok::<(Seq<LeaderEndpointView>, Seq<u8>), Error>((m.leader_endpoints, rest)),
    {
        reveal(EndQuorumEpochRequestData::spec_read_leader_endpoints);
        reveal(EndQuorumEpochRequestData::spec_write_leader_endpoints);
        if version >= 1 {
            lemma_array_round_trip::<LeaderEndpoint>(m.leader_endpoints, version, true, rest);
        } else {
            assert(Seq::<u8>::empty() + rest =~= rest);
            assert(m.leader_endpoints =~= Seq::empty());
        }
    }

    proof fn lemma_round_trip_tags(m: EndQuorumEpochRequestDataView, version: i16, rest: Seq<u8>)
        requires
            Self::canonical(m, version),
            Self::spec_write_tags(m, version) is Ok,
        ensures
            Self::spec_read_tags(written(Self::spec_write_tags(m, version)) + rest, version) == Ok::<(Seq<(u32, Seq<u8>)>, Seq<u8>), Error>((m.unknown_tagged_fields, rest)),
    {
        reveal(EndQuorumEpochRequestData::spec_read_tags);
        reveal(EndQuorumEpochRequestData::spec_write_tags);
        if version >= 1 {
            lemma_sorted_by_tag_in_order(m.unknown_tagged_fields);
            lemma_tagged_fields_round_trip(m.unknown_tagged_fields, rest);
        } else {
            assert(Seq::<u8>::empty() + rest =~= rest);
            assert(m.unknown_tagged_fields =~= Seq::empty());
        }
    }

    /// Reading back what writing `m` in `version` appends gives `m` again, and
    /// leaves what follows, for every canonical message whose write succeeds.
    #[verifier::rlimit(80)]
    #[verifier::spinoff_prover]
    pub proof fn lemma_round_trip(m: EndQuorumEpochRequestDataView, version: i16, rest: Seq<u8>)
        requires
            Self::canonical(m, version),
            Self::spec_write(m, version) is Ok,
        ensures
            Self::spec_read(written(Self::spec_write(m, version)) + rest, version) == Ok::<(EndQuorumEpochRequestDataView, Seq<u8>), Error>((m, rest)),
    {
        let b0 = written(Self::spec_write_cluster_id(m, version));
        let b1 = written(Self::spec_write_topics(m, version));
        let b2 = written(Self::spec_write_leader_endpoints(m, version));
        let b3 = written(Self::spec_write_tags(m, version));
        let t4 = rest;
        let t3 = b3 + t4;
        let t2 = b2 + t3;
        let t1 = b1 + t2;
        let t0 = b0 + t1;
        let w0 = Self::spec_write_cluster_id(m, version);
        let w1 = chain(w0, Self::spec_write_topics(m, version));
        let w2 = chain(w1, Self::spec_write_leader_endpoints(m, version));
        let w3 = chain(w2, Self::spec_write_tags(m, version));
        assert(Self::spec_write(m, version) == w3);
        assert(written(w3) + t4 =~= written(w2) + t3);
        assert(written(w2) + t3 =~= written(w1) + t2);
        assert(written(w1) + t2 =~= written(w0) + t1);
        Self::lemma_round_trip_cluster_id(m, version, t1);
        Self::lemma_round_trip_topics(m, version, t2);
        Self::lemma_round_trip_leader_endpoints(m, version, t3);
        Self::lemma_round_trip_tags(m, version, t4);
    }

    /// In a version that does not carry `leader_endpoints`, writing ignores its value.
    pub proof fn lemma_write_ignores_leader_endpoints(m: EndQuorumEpochRequestDataView, value: Seq<LeaderEndpointView>, version: i16)
        requires
            !(version >= 1),
        ensures
            Self::spec_write((EndQuorumEpochRequestDataView { leader_endpoints: value, ..m }), version) == Self::spec_write(m, version),
    {
        reveal(EndQuorumEpochRequestData::spec_write_cluster_id);
        reveal(EndQuorumEpochRequestData::spec_write_topics);
        reveal(EndQuorumEpochRequestData::spec_write_leader_endpoints);
        reveal(EndQuorumEpochRequestData::spec_write_tags);
    }

    /// In a version that does not carry `unknown_tagged_fields`, writing ignores its value.
    pub proof fn lemma_write_ignores_unknown_tagged_fields(m: EndQuorumEpochRequestDataView, value: Seq<(u32, Seq<u8>)>, version: i16)
        requires
            !(version >= 1),
        ensures
            Self::spec_write((EndQuorumEpochRequestDataView { unknown_tagged_fields: value, ..m }), version) == Self::spec_write(m, version),
    {
        reveal(EndQuorumEpochRequestData::spec_write_cluster_id);
        reveal(EndQuorumEpochRequestData::spec_write_topics);
        reveal(EndQuorumEpochRequestData::spec_write_leader_endpoints);
        reveal(EndQuorumEpochRequestData::spec_write_tags);
    }

    /// The default message holds the default value of each field of the schema.
    pub proof fn lemma_default_values()
        ensures
            (Self::default_view().cluster_id is None),
            Self::default_view().topics.len() == 0,
            Self::default_view().leader_endpoints.len() == 0,
            Self::default_view().unknown_tagged_fields.len() == 0,
    {
    }

    /// Each integer, boolean and identifier field is written as its standard
    /// big-endian bytes (a boolean as `1` or `0`) in the versions that carry
    /// it, and as nothing in the others; reading it takes those bytes back (any
    /// byte other than `0` reads as `true`), or gives its default value.
    pub proof fn lemma_field_encodings(m: EndQuorumEpochRequestDataView, s: Seq<u8>, version: i16)
        ensures
            !(version >= 1) ==> Self::spec_write_leader_endpoints(m, version) == Ok::<Seq<u8>, (Error, Seq<u8>)>(Seq::empty()),
    {
        reveal(EndQuorumEpochRequestData::spec_write_leader_endpoints);
        reveal(EndQuorumEpochRequestData::spec_read_leader_endpoints);
    }

    /// Whether writing `m` in `version` succeeds, said over its parts: the
    /// version is one the schema covers, every field that the version cannot
    /// carry holds its default value, and every string, byte string, array and
    /// tagged field fits its length prefix.
    pub open spec fn writable(m: EndQuorumEpochRequestDataView, version: i16) -> bool {
        &&& 0 <= version <= 1
        &&& (m.cluster_id matches Some(b) ==> b.len() <= 0x7fff)
        &&& (m.topics.len() <= i32::MAX && all_writable::<TopicData>(m.topics, version))
        &&& (if version >= 1 {
                (m.leader_endpoints.len() <= i32::MAX && all_writable::<LeaderEndpoint>(m.leader_endpoints, version))
            } else {
                true
        })
        &&& (if version >= 1 {
                m.unknown_tagged_fields.len() <= u32::MAX && tags_fit(m.unknown_tagged_fields)
            } else {
                true
        })
    }

    proof fn lemma_writable_cluster_id(m: EndQuorumEpochRequestDataView, version: i16)
        ensures
            Self::spec_write_cluster_id(m, version) is Ok <==> (m.cluster_id matches Some(b) ==> b.len() <= 0x7fff),
    {
        reveal(EndQuorumEpochRequestData::spec_write_cluster_id);
    }

    proof fn lemma_writable_topics(m: EndQuorumEpochRequestDataView, version: i16)
        ensures
            Self::spec_write_topics(m, version) is Ok <==> (m.topics.len() <= i32::MAX && all_writable::<TopicData>(m.topics, version)),
    {
        reveal(EndQuorumEpochRequestData::spec_write_topics);
        if version >= 1 {
            lemma_array_writable::<TopicData>(m.topics, version, true);
        } else {
            lemma_array_writable::<TopicData>(m.topics, version, false);
        }
    }

    proof fn lemma_writable_leader_endpoints(m: EndQuorumEpochRequestDataView, version: i16)
        ensures
            Self::spec_write_leader_endpoints(m, version) is Ok <==> (if version >= 1 { (m.leader_endpoints.len() <= i32::MAX && all_writable::<LeaderEndpoint>(m.leader_endpoints, version)) } else { true }),
    {
        reveal(EndQuorumEpochRequestData::spec_write_leader_endpoints);
        if version >= 1 {
            lemma_array_writable::<LeaderEndpoint>(m.leader_endpoints, version, true);
        } else {
        }
    }

    proof fn lemma_writable_tags(m: EndQuorumEpochRequestDataView, version: i16)
        ensures
            Self::spec_write_tags(m, version) is Ok <==> (if version >= 1 { m.unknown_tagged_fields.len() <= u32::MAX && tags_fit(m.unknown_tagged_fields) } else { true }),
    {
        reveal(EndQuorumEpochRequestData::spec_write_tags);
        if version >= 1 {
            lemma_sorted_tags_fit(m.unknown_tagged_fields);
            lemma_tagged_fields_writable(sorted_by_tag(m.unknown_tagged_fields));
        }
    }

    /// Writing `m` in `version` succeeds exactly when `m` is writable in it;
    /// so do `write` and `encoded_len`, whose results follow `spec_write`.
    #[verifier::rlimit(54)]
    pub proof fn lemma_writable(m: EndQuorumEpochRequestDataView, version: i16)
        ensures
            Self::spec_write(m, version) is Ok <==> Self::writable(m, version),
    {
        Self::lemma_writable_cluster_id(m, version);
        Self::lemma_writable_topics(m, version);
        Self::lemma_writable_leader_endpoints(m, version);
        Self::lemma_writable_tags(m, version);
    }

    /// A version outside the range that the schema covers is refused, by
    /// reads and by writes alike, before anything is read or written.
    pub proof fn lemma_refused_version(m: EndQuorumEpochRequestDataView, s: Seq<u8>, version: i16)
        requires
            version < 0 || version > 1,
        ensures
            Self::spec_read(s, version) == Err::<(EndQuorumEpochRequestDataView, Seq<u8>), Error>(Error::UnsupportedVersion(UnsupportedVersion { api_key: 54, version })),
            Self::spec_write(m, version) == fail(Error::UnsupportedVersion(UnsupportedVersion { api_key: 54, version })),
    {
    }

    fn read_cluster_id(buf: &mut Bytes, version: i16) -> (r: Result<Option<KafkaString>, Error>)
        ensures
            read_opt_as(Self::spec_read_cluster_id(bytes_seq(*old(buf)), version), *final(buf), r),
            took_front(*old(buf), *final(buf)),
    {
        proof {
            reveal(EndQuorumEpochRequestData::spec_read_cluster_id);
        }
        Ok(if version >= 1 {
                read_compact_nullable_string(buf)?
            } else {
                read_nullable_string(buf)?
        })
    }

    fn read_topics(buf: &mut Bytes, version: i16) -> (r: Result<Vec<TopicData>, Error>)
        ensures
            read_vec_as(Self::spec_read_topics(bytes_seq(*old(buf)), version), *final(buf), r),
            took_front(*old(buf), *final(buf)),
    {
        proof {
            reveal(EndQuorumEpochRequestData::spec_read_topics);
        }
        Ok(if version >= 1 {
                read_array::<TopicData>(buf, version, true)?
            } else {
                read_array::<TopicData>(buf, version, false)?
        })
    }

    fn read_leader_endpoints(buf: &mut Bytes, version: i16) -> (r: Result<Vec<LeaderEndpoint>, Error>)
        ensures
            read_vec_as(Self::spec_read_leader_endpoints(bytes_seq(*old(buf)), version), *final(buf), r),
            took_front(*old(buf), *final(buf)),
    {
        proof {
            reveal(EndQuorumEpochRequestData::spec_read_leader_endpoints);
        }
        Ok(if version >= 1 {
                read_array::<LeaderEndpoint>(buf, version, true)?
            } else {
                empty_vec()
        })
    }

    fn read_tags(buf: &mut Bytes, version: i16) -> (r: Result<Vec<RawTaggedField>, Error>)
        ensures
            read_vec_as(Self::spec_read_tags(bytes_seq(*old(buf)), version), *final(buf), r),
            took_front(*old(buf), *final(buf)),
    {
        proof {
            reveal(EndQuorumEpochRequestData::spec_read_tags);
        }
        Ok(if version >= 1 {
                read_tagged_fields(buf)?
            } else {
                empty_vec()
        })
    }

    pub fn read(buf: &mut Bytes, version: i16) -> (r: Result<Self, Error>)
        ensures
            read_as(Self::spec_read(bytes_seq(*old(buf)), version), *final(buf), r),
            took_front(*old(buf), *final(buf)),
            (version < 0 || version > 1) ==> bytes_seq(*final(buf)) == bytes_seq(*old(buf)),
    {
        if version < 0 || version > 1 {
            return Err(Error::UnsupportedVersion(UnsupportedVersion::new(54, version)));
        }
        let cluster_id = Self::read_cluster_id(buf, version)?;
        let topics = Self::read_topics(buf, version)?;
        let leader_endpoints = Self::read_leader_endpoints(buf, version)?;
        let _unknown_tagged_fields = Self::read_tags(buf, version)?;
        Ok(EndQuorumEpochRequestData {
                cluster_id: cluster_id,
                topics: topics,
                leader_endpoints: leader_endpoints,
                _unknown_tagged_fields: _unknown_tagged_fields,
        })
    }

    #[verifier::rlimit(70)]
    pub fn write(&self, buf: &mut BytesMut, version: i16) -> (r: Result<(), Error>)
        requires
            has_room(Self::spec_write(self@, version), *old(buf)),
        ensures
            wrote(Self::spec_write(self@, version), *old(buf), *final(buf), r),
    {
        if version < 0 || version > 1 {
            return Err(Error::UnsupportedVersion(UnsupportedVersion::new(54, version)));
        }
        let ghost m = self@;
        proof {
            reveal(EndQuorumEpochRequestData::spec_write_cluster_id);
            reveal(EndQuorumEpochRequestData::spec_write_topics);
            reveal(EndQuorumEpochRequestData::spec_write_leader_endpoints);
            reveal(EndQuorumEpochRequestData::spec_write_tags);
        }
        let ghost s0 = Self::spec_write_cluster_id(m, version);
        let ghost w0 = s0;
        let ghost s1 = Self::spec_write_topics(m, version);
        let ghost w1 = chain(w0, s1);
        let ghost s2 = Self::spec_write_leader_endpoints(m, version);
        let ghost w2 = chain(w1, s2);
        let ghost s3 = Self::spec_write_tags(m, version);
        let ghost w3 = chain(w2, s3);
        assert(Self::spec_write(m, version) == w3);
        assert(written(w2).len() <= written(w3).len() && (w2 is Err ==> w3 == w2));
        assert(written(w1).len() <= written(w3).len() && (w1 is Err ==> w3 == w1));
        assert(written(w0).len() <= written(w3).len() && (w0 is Err ==> w3 == w0));
        let ghost mid = bytes_mut_seq(*buf);
        proof {
            lemma_append_empty(mid);
        }
        let r0 = if version >= 1 {
            write_compact_nullable_string(buf, &self.cluster_id)
        } else {
            write_nullable_string(buf, &self.cluster_id)
        };
        assert(bytes_mut_seq(*buf) == mid + written(s0));
        if r0.is_err() {
            return r0;
        }
        let ghost mid = bytes_mut_seq(*buf);
        proof {
            lemma_append_empty(mid);
        }
        let r1 = if version >= 1 {
            write_array::<TopicData>(buf, &self.topics, version, true)
        } else {
            write_array::<TopicData>(buf, &self.topics, version, false)
        };
        assert(bytes_mut_seq(*buf) == mid + written(s1));
        proof {
            lemma_step(bytes_mut_seq(*old(buf)), w0, s1);
        }
        if r1.is_err() {
            return r1;
        }
        let ghost mid = bytes_mut_seq(*buf);
        proof {
            lemma_append_empty(mid);
        }
        let r2 = if version >= 1 {
            write_array::<LeaderEndpoint>(buf, &self.leader_endpoints, version, true)
        } else {
            Ok(())
        };
        assert(bytes_mut_seq(*buf) == mid + written(s2));
        proof {
            lemma_step(bytes_mut_seq(*old(buf)), w1, s2);
        }
        if r2.is_err() {
            return r2;
        }
        let ghost mid = bytes_mut_seq(*buf);
        proof {
            lemma_append_empty(mid);
        }
        let r3 = if version >= 1 {
            write_tagged_fields(buf, &sort_by_tag(&self._unknown_tagged_fields))
        } else {
            Ok(())
        };
        assert(bytes_mut_seq(*buf) == mid + written(s3));
        proof {
            lemma_step(bytes_mut_seq(*old(buf)), w2, s3);
        }
        if r3.is_err() {
            return r3;
        }
        Ok(())
    }
}

#[derive(Debug, PartialEq)]
pub struct TopicData {
    /// The topic name.
    pub topic_name: KafkaString,
    /// The partitions.
    pub partitions: Vec<PartitionData>,
    pub _unknown_tagged_fields: Vec<RawTaggedField>,
}

/// What a `TopicData` holds, as the specification sees it.
#[verifier::ext_equal]
pub struct TopicDataView {
    pub topic_name: Seq<u8>,
    pub partitions: Seq<PartitionDataView>,
    pub unknown_tagged_fields: Seq<(u32, Seq<u8>)>,
}

impl View for TopicData {
    type V = TopicDataView;

    open spec fn view(&self) -> TopicDataView {
        TopicDataView {
            topic_name: self.topic_name@,
            partitions: views(self.partitions@),
            unknown_tagged_fields: views(self._unknown_tagged_fields@),
        }
    }
}

impl Clone for TopicData {
    fn clone(&self) -> (r: Self)
        ensures
            r@ == self@,
    {
        let r = TopicData {
            topic_name: self.topic_name.clone(),
            partitions: clone_vec(&self.partitions),
            _unknown_tagged_fields: clone_vec(&self._unknown_tagged_fields),
        };
        assert(r@ =~= self@);
        r
    }
}

impl ViewClone for TopicData {
    fn clone_view(&self) -> (r: Self) {
        self.clone()
    }
}

impl Default for TopicData {
    fn default() -> (r: Self)
        ensures
            r@ == Self::default_view(),
    {
        let r = TopicData {
            topic_name: KafkaString::default(),
            partitions: empty_vec(),
            _unknown_tagged_fields: empty_vec(),
        };
        assert(r@ =~= Self::default_view());
        r
    }
}

impl TopicData {
    pub open spec fn default_view() -> TopicDataView {
        TopicDataView {
            topic_name: Seq::empty(),
            partitions: Seq::empty(),
            unknown_tagged_fields: Seq::empty(),
        }
    }

    /// The `topic_name` field, read from the front of `s`.
    #[verifier::opaque]
    pub open spec fn spec_read_topic_name(s: Seq<u8>, version: i16) -> ReadOutcome<Seq<u8>> {
        if version >= 1 {
            spec_read_compact_string(s)
        } else {
            spec_read_string(s)
        }
    }

    /// The `partitions` field, read from the front of `s`.
    #[verifier::opaque]
    pub open spec fn spec_read_partitions(s: Seq<u8>, version: i16) -> ReadOutcome<Seq<PartitionDataView>> {
        if version >= 1 {
            spec_read_array::<PartitionData>(s, version, true)
        } else {
            spec_read_array::<PartitionData>(s, version, false)
        }
    }

    /// The tagged fields, read from the front of `s`.
    #[verifier::opaque]
    pub open spec fn spec_read_tags(s: Seq<u8>, version: i16) -> ReadOutcome<Seq<(u32, Seq<u8>)>> {
        if version >= 1 {
            spec_read_tagged_fields(s)
        } else {
            Ok((Seq::empty(), s))
        }
    }

    pub open spec fn spec_read(s: Seq<u8>, version: i16) -> ReadOutcome<TopicDataView> {
        match (Self::spec_read_topic_name(s, version)) {
            Err(e) => Err(e),
            Ok((topic_name, s)) => match (Self::spec_read_partitions(s, version)) {
                Err(e) => Err(e),
                Ok((partitions, s)) => match (Self::spec_read_tags(s, version)) {
                    Err(e) => Err(e),
                    Ok((unknown_tagged_fields, s)) => Ok((TopicDataView {
                                topic_name: topic_name,
                                partitions: partitions,
                                unknown_tagged_fields: unknown_tagged_fields,
                            }, s)),
                },
            },
        }
    }

    /// What writing the `topic_name` field of `m` appends.
    #[verifier::opaque]
    pub open spec fn spec_write_topic_name(m: TopicDataView, version: i16) -> WriteOutcome {
        if version >= 1 {
            spec_write_compact_string(m.topic_name)
        } else {
            spec_write_string(m.topic_name)
        }
    }

    /// What writing the `partitions` field of `m` appends.
    #[verifier::opaque]
    pub open spec fn spec_write_partitions(m: TopicDataView, version: i16) -> WriteOutcome {
        if version >= 1 {
            spec_write_array::<PartitionData>(m.partitions, version, true)
        } else {
            spec_write_array::<PartitionData>(m.partitions, version, false)
        }
    }

    /// What writing the tagged fields of `m` appends.
    #[verifier::opaque]
    pub open spec fn spec_write_tags(m: TopicDataView, version: i16) -> WriteOutcome {
        if version >= 1 {
            spec_write_tagged_fields(sorted_by_tag(m.unknown_tagged_fields))
        } else {
            emit(Seq::empty())
        }
    }

    pub open spec fn spec_write(m: TopicDataView, version: i16) -> WriteOutcome {
        chain(
            chain(
                Self::spec_write_topic_name(m, version),
                Self::spec_write_partitions(m, version),
            ),
            Self::spec_write_tags(m, version),
        )
    }

    /// Whether reading back what writing `m` in `version` appends gives `m`:
    /// fields that the version does not carry hold their default values, and
    /// tagged fields come in the order in which they are written.
    pub open spec fn canonical(m: TopicDataView, version: i16) -> bool {
        &&& all_canonical::<PartitionData>(m.partitions, version)
        &&& (if version >= 1 {
                tags_in_order(m.unknown_tagged_fields)
            } else {
                m.unknown_tagged_fields.len() == 0
        })
    }

    proof fn lemma_round_trip_topic_name(m: TopicDataView, version: i16, rest: Seq<u8>)
        requires
            Self::canonical(m, version),
            Self::spec_write_topic_name(m, version) is Ok,
        ensures
            Self::spec_read_topic_name(written(Self::spec_write_topic_name(m, version)) + rest, version) == Ok::<(Seq<u8>, Seq<u8>), Error>((m.topic_name, rest)),
    {
        reveal(TopicData::spec_read_topic_name);
        reveal(TopicData::spec_write_topic_name);
        if version >= 1 {
            lemma_compact_string_round_trip(m.topic_name, rest);
        } else {
            lemma_string_round_trip(m.topic_name, rest);
        }
    }

    proof fn lemma_round_trip_partitions(m: TopicDataView, version: i16, rest: Seq<u8>)
        requires
            Self::canonical(m, version),
            Self::spec_write_partitions(m, version) is Ok,
        ensures
            Self::spec_read_partitions(written(Self::spec_write_partitions(m, version)) + rest, version) == Ok::<(Seq<PartitionDataView>, Seq<u8>), Error>((m.partitions, rest)),
    {
        reveal(TopicData::spec_read_partitions);
        reveal(TopicData::spec_write_partitions);
        if version >= 1 {
            lemma_array_round_trip::<PartitionData>(m.partitions, version, true, rest);
        } else {
            lemma_array_round_trip::<PartitionData>(m.partitions, version, false, rest);
        }
    }

    proof fn lemma_round_trip_tags(m: TopicDataView, version: i16, rest: Seq<u8>)
        requires
            Self::canonical(m, version),
            Self::spec_write_tags(m, version) is Ok,
        ensures
            Self::spec_read_tags(written(Self::spec_write_tags(m, version)) + rest, version) == Ok::<(Seq<(u32, Seq<u8>)>, Seq<u8>), Error>((m.unknown_tagged_fields, rest)),
    {
        reveal(TopicData::spec_read_tags);
        reveal(TopicData::spec_write_tags);
        if version >= 1 {
            lemma_sorted_by_tag_in_order(m.unknown_tagged_fields);
            lemma_tagged_fields_round_trip(m.unknown_tagged_fields, rest);
        } else {
            assert(Seq::<u8>::empty() + rest =~= rest);
            assert(m.unknown_tagged_fields =~= Seq::empty());
        }
    }

    /// Reading back what writing `m` in `version` appends gives `m` again, and
    /// leaves what follows, for every canonical message whose write succeeds.
    #[verifier::rlimit(70)]
    #[verifier::spinoff_prover]
    pub proof fn lemma_round_trip(m: TopicDataView, version: i16, rest: Seq<u8>)
        requires
            Self::canonical(m, version),
            Self::spec_write(m, version) is Ok,
        ensures
            Self::spec_read(written(Self::spec_write(m, version)) + rest, version) == Ok::<(TopicDataView, Seq<u8>), Error>((m, rest)),
    {
        let b0 = written(Self::spec_write_topic_name(m, version));
        let b1 = written(Self::spec_write_partitions(m, version));
        let b2 = written(Self::spec_write_tags(m, version));
        let t3 = rest;
        let t2 = b2 + t3;
        let t1 = b1 + t2;
        let t0 = b0 + t1;
        let w0 = Self::spec_write_topic_name(m, version);
        let w1 = chain(w0, Self::spec_write_partitions(m, version));
        let w2 = chain(w1, Self::spec_write_tags(m, version));
        assert(Self::spec_write(m, version) == w2);
        assert(written(w2) + t3 =~= written(w1) + t2);
        assert(written(w1) + t2 =~= written(w0) + t1);
        Self::lemma_round_trip_topic_name(m, version, t1);
        Self::lemma_round_trip_partitions(m, version, t2);
        Self::lemma_round_trip_tags(m, version, t3);
    }

    /// In a version that does not carry `unknown_tagged_fields`, writing ignores its value.
    pub proof fn lemma_write_ignores_unknown_tagged_fields(m: TopicDataView, value: Seq<(u32, Seq<u8>)>, version: i16)
        requires
            !(version >= 1),
        ensures
            Self::spec_write((TopicDataView { unknown_tagged_fields: value, ..m }), version) == Self::spec_write(m, version),
    {
        reveal(TopicData::spec_write_topic_name);
        reveal(TopicData::spec_write_partitions);
        reveal(TopicData::spec_write_tags);
    }

    /// The default message holds the default value of each field of the schema.
    pub proof fn lemma_default_values()
        ensures
            Self::default_view().topic_name.len() == 0,
            Self::default_view().partitions.len() == 0,
            Self::default_view().unknown_tagged_fields.len() == 0,
    {
    }

    /// Whether writing `m` in `version` succeeds, said over its parts: the
    /// version is one the schema covers, every field that the version cannot
    /// carry holds its default value, and every string, byte string, array and
    /// tagged field fits its length prefix.
    pub open spec fn writable(m: TopicDataView, version: i16) -> bool {
        &&& m.topic_name.len() <= 0x7fff
        &&& (m.partitions.len() <= i32::MAX && all_writable::<PartitionData>(m.partitions, version))
        &&& (if version >= 1 {
                m.unknown_tagged_fields.len() <= u32::MAX && tags_fit(m.unknown_tagged_fields)
            } else {
                true
        })
    }

    proof fn lemma_writable_topic_name(m: TopicDataView, version: i16)
        ensures
            Self::spec_write_topic_name(m, version) is Ok <==> m.topic_name.len() <= 0x7fff,
    {
        reveal(TopicData::spec_write_topic_name);
    }

    proof fn lemma_writable_partitions(m: TopicDataView, version: i16)
        ensures
            Self::spec_write_partitions(m, version) is Ok <==> (m.partitions.len() <= i32::MAX && all_writable::<PartitionData>(m.partitions, version)),
    {
        reveal(TopicData::spec_write_partitions);
        if version >= 1 {
            lemma_array_writable::<PartitionData>(m.partitions, version, true);
        } else {
            lemma_array_writable::<PartitionData>(m.partitions, version, false);
        }
    }

    proof fn lemma_writable_tags(m: TopicDataView, version: i16)
        ensures
            Self::spec_write_tags(m, version) is Ok <==> (if version >= 1 { m.unknown_tagged_fields.len() <= u32::MAX && tags_fit(m.unknown_tagged_fields) } else { true }),
    {
        reveal(TopicData::spec_write_tags);
        if version >= 1 {
            lemma_sorted_tags_fit(m.unknown_tagged_fields);
            lemma_tagged_fields_writable(sorted_by_tag(m.unknown_tagged_fields));
        }
    }

    /// Writing `m` in `version` succeeds exactly when `m` is writable in it;
    /// so do `write` and `encoded_len`, whose results follow `spec_write`.
    #[verifier::rlimit(48)]
    pub proof fn lemma_writable(m: TopicDataView, version: i16)
        ensures
            Self::spec_write(m, version) is Ok <==> Self::writable(m, version),
    {
        Self::lemma_writable_topic_name(m, version);
        Self::lemma_writable_partitions(m, version);
        Self::lemma_writable_tags(m, version);
    }

    fn read_topic_name(buf: &mut Bytes, version: i16) -> (r: Result<KafkaString, Error>)
        ensures
            read_as(Self::spec_read_topic_name(bytes_seq(*old(buf)), version), *final(buf), r),
            took_front(*old(buf), *final(buf)),
    {
        proof {
            reveal(TopicData::spec_read_topic_name);
        }
        Ok(if version >= 1 {
                read_compact_string(buf)?
            } else {
                read_string(buf)?
        })
    }

    fn read_partitions(buf: &mut Bytes, version: i16) -> (r: Result<Vec<PartitionData>, Error>)
        ensures
            read_vec_as(Self::spec_read_partitions(bytes_seq(*old(buf)), version), *final(buf), r),
            took_front(*old(buf), *final(buf)),
    {
        proof {
            reveal(TopicData::spec_read_partitions);
        }
        Ok(if version >= 1 {
                read_array::<PartitionData>(buf, version, true)?
            } else {
                read_array::<PartitionData>(buf, version, false)?
        })
    }

    fn read_tags(buf: &mut Bytes, version: i16) -> (r: Result<Vec<RawTaggedField>, Error>)
        ensures
            read_vec_as(Self::spec_read_tags(bytes_seq(*old(buf)), version), *final(buf), r),
            took_front(*old(buf), *final(buf)),
    {
        proof {
            reveal(TopicData::spec_read_tags);
        }
        Ok(if version >= 1 {
                read_tagged_fields(buf)?
            } else {
                empty_vec()
        })
    }

    pub fn read(buf: &mut Bytes, version: i16) -> (r: Result<Self, Error>)
        ensures
            read_as(Self::spec_read(bytes_seq(*old(buf)), version), *final(buf), r),
            took_front(*old(buf), *final(buf)),
    {
        let topic_name = Self::read_topic_name(buf, version)?;
        let partitions = Self::read_partitions(buf, version)?;
        let _unknown_tagged_fields = Self::read_tags(buf, version)?;
        Ok(TopicData {
                topic_name: topic_name,
                partitions: partitions,
                _unknown_tagged_fields: _unknown_tagged_fields,
        })
    }

    #[verifier::rlimit(60)]
    pub fn write(&self, buf: &mut BytesMut, version: i16) -> (r: Result<(), Error>)
        requires
            has_room(Self::spec_write(self@, version), *old(buf)),
        ensures
            wrote(Self::spec_write(self@, version), *old(buf), *final(buf), r),
    {
        let ghost m = self@;
        proof {
            reveal(TopicData::spec_write_topic_name);
            reveal(TopicData::spec_write_partitions);
            reveal(TopicData::spec_write_tags);
        }
        let ghost s0 = Self::spec_write_topic_name(m, version);
        let ghost w0 = s0;
        let ghost s1 = Self::spec_write_partitions(m, version);
        let ghost w1 = chain(w0, s1);
        let ghost s2 = Self::spec_write_tags(m, version);
        let ghost w2 = chain(w1, s2);
        assert(Self::spec_write(m, version) == w2);
        assert(written(w1).len() <= written(w2).len() && (w1 is Err ==> w2 == w1));
        assert(written(w0).len() <= written(w2).len() && (w0 is Err ==> w2 == w0));
        let ghost mid = bytes_mut_seq(*buf);
        proof {
            lemma_append_empty(mid);
        }
        let r0 = if version >= 1 {
            write_compact_string(buf, &self.topic_name)
        } else {
            write_string(buf, &self.topic_name)
        };
        assert(bytes_mut_seq(*buf) == mid + written(s0));
        if r0.is_err() {
            return r0;
        }
        let ghost mid = bytes_mut_seq(*buf);
        proof {
            lemma_append_empty(mid);
        }
        let r1 = if version >= 1 {
            write_array::<PartitionData>(buf, &self.partitions, version, true)
        } else {
            write_array::<PartitionData>(buf, &self.partitions, version, false)
        };
        assert(bytes_mut_seq(*buf) == mid + written(s1));
        proof {
            lemma_step(bytes_mut_seq(*old(buf)), w0, s1);
        }
        if r1.is_err() {
            return r1;
        }
        let ghost mid = bytes_mut_seq(*buf);
        proof {
            lemma_append_empty(mid);
        }
        let r2 = if version >= 1 {
            write_tagged_fields(buf, &sort_by_tag(&self._unknown_tagged_fields))
        } else {
            Ok(())
        };
        assert(bytes_mut_seq(*buf) == mid + written(s2));
        proof {
            lemma_step(bytes_mut_seq(*old(buf)), w1, s2);
        }
        if r2.is_err() {
            return r2;
        }
        Ok(())
    }
}

#[derive(Debug, PartialEq)]
pub struct PartitionData {
    /// The partition index.
    pub partition_index: i32,
    /// The current leader ID that is resigning.
    pub leader_id: i32,
    /// The current epoch.
    pub leader_epoch: i32,
    /// A sorted list of preferred successors to start the election.
    pub preferred_successors: Vec<i32>,
    /// A sorted list of preferred candidates to start the election.
    pub preferred_candidates: Vec<ReplicaInfo>,
    pub _unknown_tagged_fields: Vec<RawTaggedField>,
}

/// What a `PartitionData` holds, as the specification sees it.
#[verifier::ext_equal]
pub struct PartitionDataView {
    pub partition_index: i32,
    pub leader_id: i32,
    pub leader_epoch: i32,
    pub preferred_successors: Seq<i32>,
    pub preferred_candidates: Seq<ReplicaInfoView>,
    pub unknown_tagged_fields: Seq<(u32, Seq<u8>)>,
}

impl View for PartitionData {
    type V = PartitionDataView;

    open spec fn view(&self) -> PartitionDataView {
        PartitionDataView {
            partition_index: self.partition_index,
            leader_id: self.leader_id,
            leader_epoch: self.leader_epoch,
            preferred_successors: views(self.preferred_successors@),
            preferred_candidates: views(self.preferred_candidates@),
            unknown_tagged_fields: views(self._unknown_tagged_fields@),
        }
    }
}

impl Clone for PartitionData {
    fn clone(&self) -> (r: Self)
        ensures
            r@ == self@,
    {
        let r = PartitionData {
            partition_index: self.partition_index,
            leader_id: self.leader_id,
            leader_epoch: self.leader_epoch,
            preferred_successors: clone_vec(&self.preferred_successors),
            preferred_candidates: clone_vec(&self.preferred_candidates),
            _unknown_tagged_fields: clone_vec(&self._unknown_tagged_fields),
        };
        assert(r@ =~= self@);
        r
    }
}

impl ViewClone for PartitionData {
    fn clone_view(&self) -> (r: Self) {
        self.clone()
    }
}

impl Default for PartitionData {
    fn default() -> (r: Self)
        ensures
            r@ == Self::default_view(),
    {
        let r = PartitionData {
            partition_index: 0_i32,
            leader_id: 0_i32,
            leader_epoch: 0_i32,
            preferred_successors: empty_vec(),
            preferred_candidates: empty_vec(),
            _unknown_tagged_fields: empty_vec(),
        };
        assert(r@ =~= Self::default_view());
        r
    }
}

impl PartitionData {
    pub open spec fn default_view() -> PartitionDataView {
        PartitionDataView {
            partition_index: 0_i32,
            leader_id: 0_i32,
            leader_epoch: 0_i32,
            preferred_successors: Seq::empty(),
            preferred_candidates: Seq::empty(),
            unknown_tagged_fields: Seq::empty(),
        }
    }

    /// The `partition_index` field, read from the front of `s`.
    #[verifier::opaque]
    pub open spec fn spec_read_partition_index(s: Seq<u8>, version: i16) -> ReadOutcome<i32> {
        spec_read_i32(s)
    }

    /// The `leader_id` field, read from the front of `s`.
    #[verifier::opaque]
    pub open spec fn spec_read_leader_id(s: Seq<u8>, version: i16) -> ReadOutcome<i32> {
        spec_read_i32(s)
    }

    /// The `leader_epoch` field, read from the front of `s`.
    #[verifier::opaque]
    pub open spec fn spec_read_leader_epoch(s: Seq<u8>, version: i16) -> ReadOutcome<i32> {
        spec_read_i32(s)
    }

    /// The `preferred_successors` field, read from the front of `s`.
    #[verifier::opaque]
    pub open spec fn spec_read_preferred_successors(s: Seq<u8>, version: i16) -> ReadOutcome<Seq<i32>> {
        if version == 0 {
            spec_read_array::<Int32Item>(s, version, false)
        } else {
            Ok((Seq::empty(), s))
        }
    }

    /// The `preferred_candidates` field, read from the front of `s`.
    #[verifier::opaque]
    pub open spec fn spec_read_preferred_candidates(s: Seq<u8>, version: i16) -> ReadOutcome<Seq<ReplicaInfoView>> {
        if version >= 1 {
            spec_read_array::<ReplicaInfo>(s, version, true)
        } else {
            Ok((Seq::empty(), s))
        }
    }

    /// The tagged fields, read from the front of `s`.
    #[verifier::opaque]
    pub open spec fn spec_read_tags(s: Seq<u8>, version: i16) -> ReadOutcome<Seq<(u32, Seq<u8>)>> {
        if version >= 1 {
            spec_read_tagged_fields(s)
        } else {
            Ok((Seq::empty(), s))
        }
    }

    pub open spec fn spec_read(s: Seq<u8>, version: i16) -> ReadOutcome<PartitionDataView> {
        match (Self::spec_read_partition_index(s, version)) {
            Err(e) => Err(e),
            Ok((partition_index, s)) => match (Self::spec_read_leader_id(s, version)) {
                Err(e) => Err(e),
                Ok((leader_id, s)) => match (Self::spec_read_leader_epoch(s, version)) {
                    Err(e) => Err(e),
                    Ok((leader_epoch, s)) => match (Self::spec_read_preferred_successors(s, version)) {
                        Err(e) => Err(e),
                        Ok((preferred_successors, s)) => match (Self::spec_read_preferred_candidates(s, version)) {
                            Err(e) => Err(e),
                            Ok((preferred_candidates, s)) => match (Self::spec_read_tags(s, version)) {
                                Err(e) => Err(e),
                                Ok((unknown_tagged_fields, s)) => Ok((PartitionDataView {
                                            partition_index: partition_index,
                                            leader_id: leader_id,
                                            leader_epoch: leader_epoch,
                                            preferred_successors: preferred_successors,
                                            preferred_candidates: preferred_candidates,
                                            unknown_tagged_fields: unknown_tagged_fields,
                                        }, s)),
                            },
                        },
                    },
                },
            },
        }
    }

    /// What writing the `partition_index` field of `m` appends.
    #[verifier::opaque]
    pub open spec fn spec_write_partition_index(m: PartitionDataView, version: i16) -> WriteOutcome {
        spec_write_i32(m.partition_index)
    }

    /// What writing the `leader_id` field of `m` appends.
    #[verifier::opaque]
    pub open spec fn spec_write_leader_id(m: PartitionDataView, version: i16) -> WriteOutcome {
        spec_write_i32(m.leader_id)
    }

    /// What writing the `leader_epoch` field of `m` appends.
    #[verifier::opaque]
    pub open spec fn spec_write_leader_epoch(m: PartitionDataView, version: i16) -> WriteOutcome {
        spec_write_i32(m.leader_epoch)
    }

    /// What writing the `preferred_successors` field of `m` appends.
    #[verifier::opaque]
    pub open spec fn spec_write_preferred_successors(m: PartitionDataView, version: i16) -> WriteOutcome {
        if version == 0 {
            spec_write_array::<Int32Item>(m.preferred_successors, version, false)
        } else {
            emit(Seq::empty())
        }
    }

    /// What writing the `preferred_candidates` field of `m` appends.
    #[verifier::opaque]
    pub open spec fn spec_write_preferred_candidates(m: PartitionDataView, version: i16) -> WriteOutcome {
        if version >= 1 {
            spec_write_array::<ReplicaInfo>(m.preferred_candidates, version, true)
        } else {
            emit(Seq::empty())
        }
    }

    /// What writing the tagged fields of `m` appends.
    #[verifier::opaque]
    pub open spec fn spec_write_tags(m: PartitionDataView, version: i16) -> WriteOutcome {
        if version >= 1 {
            spec_write_tagged_fields(sorted_by_tag(m.unknown_tagged_fields))
        } else {
            emit(Seq::empty())
        }
    }

    pub open spec fn spec_write(m: PartitionDataView, version: i16) -> WriteOutcome {
        chain(
            chain(
                chain(
                    chain(
                        chain(
                            Self::spec_write_partition_index(m, version),
                            Self::spec_write_leader_id(m, version),
                        ),
                        Self::spec_write_leader_epoch(m, version),
                    ),
                    Self::spec_write_preferred_successors(m, version),
                ),
                Self::spec_write_preferred_candidates(m, version),
            ),
            Self::spec_write_tags(m, version),
        )
    }

    /// Whether reading back what writing `m` in `version` appends gives `m`:
    /// fields that the version does not carry hold their default values, and
    /// tagged fields come in the order in which they are written.
    pub open spec fn canonical(m: PartitionDataView, version: i16) -> bool {
        &&& (if version == 0 {
                true
            } else {
                m.preferred_successors.len() == 0
        })
        &&& (if version >= 1 {
                all_canonical::<ReplicaInfo>(m.preferred_candidates, version)
            } else {
                m.preferred_candidates.len() == 0
        })
        &&& (if version >= 1 {
                tags_in_order(m.unknown_tagged_fields)
            } else {
                m.unknown_tagged_fields.len() == 0
        })
    }

    proof fn lemma_round_trip_partition_index(m: PartitionDataView, version: i16, rest: Seq<u8>)
        requires
            Self::canonical(m, version),
            Self::spec_write_partition_index(m, version) is Ok,
        ensures
            Self::spec_read_partition_index(written(Self::spec_write_partition_index(m, version)) + rest, version) == Ok::<(i32, Seq<u8>), Error>((m.partition_index, rest)),
    {
        reveal(PartitionData::spec_read_partition_index);
        reveal(PartitionData::spec_write_partition_index);
        lemma_i32_roundtrip(m.partition_index, rest);
    }

    proof fn lemma_round_trip_leader_id(m: PartitionDataView, version: i16, rest: Seq<u8>)
        requires
            Self::canonical(m, version),
            Self::spec_write_leader_id(m, version) is Ok,
        ensures
            Self::spec_read_leader_id(written(Self::spec_write_leader_id(m, version)) + rest, version) == Ok::<(i32, Seq<u8>), Error>((m.leader_id, rest)),
    {
        reveal(PartitionData::spec_read_leader_id);
        reveal(PartitionData::spec_write_leader_id);
        lemma_i32_roundtrip(m.leader_id, rest);
    }

    proof fn lemma_round_trip_leader_epoch(m: PartitionDataView, version: i16, rest: Seq<u8>)
        requires
            Self::canonical(m, version),
            Self::spec_write_leader_epoch(m, version) is Ok,
        ensures
            Self::spec_read_leader_epoch(written(Self::spec_write_leader_epoch(m, version)) + rest, version) == Ok::<(i32, Seq<u8>), Error>((m.leader_epoch, rest)),
    {
        reveal(PartitionData::spec_read_leader_epoch);
        reveal(PartitionData::spec_write_leader_epoch);
        lemma_i32_roundtrip(m.leader_epoch, rest);
    }

    proof fn lemma_round_trip_preferred_successors(m: PartitionDataView, version: i16, rest: Seq<u8>)
        requires
            Self::canonical(m, version),
            Self::spec_write_preferred_successors(m, version) is Ok,
        ensures
            Self::spec_read_preferred_successors(written(Self::spec_write_preferred_successors(m, version)) + rest, version) == Ok::<(Seq<i32>, Seq<u8>), Error>((m.preferred_successors, rest)),
    {
        reveal(PartitionData::spec_read_preferred_successors);
        reveal(PartitionData::spec_write_preferred_successors);
        if version == 0 {
            lemma_array_round_trip::<Int32Item>(m.preferred_successors, version, false, rest);
        } else {
            assert(Seq::<u8>::empty() + rest =~= rest);
            assert(m.preferred_successors =~= Seq::empty());
        }
    }

    proof fn lemma_round_trip_preferred_candidates(m: PartitionDataView, version: i16, rest: Seq<u8>)
        requires
            Self::canonical(m, version),
            Self::spec_write_preferred_candidates(m, version) is Ok,
        ensures
            Self::spec_read_preferred_candidates(written(Self::spec_write_preferred_candidates(m, version)) + rest, version) == Ok::<(Seq<ReplicaInfoView>, Seq<u8>), Error>((m.preferred_candidates, rest)),
    {
        reveal(PartitionData::spec_read_preferred_candidates);
        reveal(PartitionData::spec_write_preferred_candidates);
        if version >= 1 {
            lemma_array_round_trip::<ReplicaInfo>(m.preferred_candidates, version, true, rest);
        } else {
            assert(Seq::<u8>::empty() + rest =~= rest);
            assert(m.preferred_candidates =~= Seq::empty());
        }
    }

    proof fn lemma_round_trip_tags(m: PartitionDataView, version: i16, rest: Seq<u8>)
        requires
            Self::canonical(m, version),
            Self::spec_write_tags(m, version) is Ok,
        ensures
            Self::spec_read_tags(written(Self::spec_write_tags(m, version)) + rest, version) == Ok::<(Seq<(u32, Seq<u8>)>, Seq<u8>), Error>((m.unknown_tagged_fields, rest)),
    {
        reveal(PartitionData::spec_read_tags);
        reveal(PartitionData::spec_write_tags);
        if version >= 1 {
            lemma_sorted_by_tag_in_order(m.unknown_tagged_fields);
            lemma_tagged_fields_round_trip(m.unknown_tagged_fields, rest);
        } else {
            assert(Seq::<u8>::empty() + rest =~= rest);
            assert(m.unknown_tagged_fields =~= Seq::empty());
        }
    }

    /// Reading back what writing `m` in `version` appends gives `m` again, and
    /// leaves what follows, for every canonical message whose write succeeds.
    #[verifier::rlimit(100)]
    #[verifier::spinoff_prover]
    pub proof fn lemma_round_trip(m: PartitionDataView, version: i16, rest: Seq<u8>)
        requires
            Self::canonical(m, version),
            Self::spec_write(m, version) is Ok,
        ensures
            Self::spec_read(written(Self::spec_write(m, version)) + rest, version) == Ok::<(PartitionDataView, Seq<u8>), Error>((m, rest)),
    {
        let b0 = written(Self::spec_write_partition_index(m, version));
        let b1 = written(Self::spec_write_leader_id(m, version));
        let b2 = written(Self::spec_write_leader_epoch(m, version));
        let b3 = written(Self::spec_write_preferred_successors(m, version));
        let b4 = written(Self::spec_write_preferred_candidates(m, version));
        let b5 = written(Self::spec_write_tags(m, version));
        let t6 = rest;
        let t5 = b5 + t6;
        let t4 = b4 + t5;
        let t3 = b3 + t4;
        let t2 = b2 + t3;
        let t1 = b1 + t2;
        let t0 = b0 + t1;
        let w0 = Self::spec_write_partition_index(m, version);
        let w1 = chain(w0, Self::spec_write_leader_id(m, version));
        let w2 = chain(w1, Self::spec_write_leader_epoch(m, version));
        let w3 = chain(w2, Self::spec_write_preferred_successors(m, version));
        let w4 = chain(w3, Self::spec_write_preferred_candidates(m, version));
        let w5 = chain(w4, Self::spec_write_tags(m, version));
        assert(Self::spec_write(m, version) == w5);
        assert(written(w5) + t6 =~= written(w4) + t5);
        assert(written(w4) + t5 =~= written(w3) + t4);
        assert(written(w3) + t4 =~= written(w2) + t3);
        assert(written(w2) + t3 =~= written(w1) + t2);
        assert(written(w1) + t2 =~= written(w0) + t1);
        Self::lemma_round_trip_partition_index(m, version, t1);
        Self::lemma_round_trip_leader_id(m, version, t2);
        Self::lemma_round_trip_leader_epoch(m, version, t3);
        Self::lemma_round_trip_preferred_successors(m, version, t4);
        Self::lemma_round_trip_preferred_candidates(m, version, t5);
        Self::lemma_round_trip_tags(m, version, t6);
    }

    /// In a version that does not carry `preferred_successors`, writing ignores its value.
    pub proof fn lemma_write_ignores_preferred_successors(m: PartitionDataView, value: Seq<i32>, version: i16)
        requires
            !(version == 0),
        ensures
            Self::spec_write((PartitionDataView { preferred_successors: value, ..m }), version) == Self::spec_write(m, version),
    {
        reveal(PartitionData::spec_write_partition_index);
        reveal(PartitionData::spec_write_leader_id);
        reveal(PartitionData::spec_write_leader_epoch);
        reveal(PartitionData::spec_write_preferred_successors);
        reveal(PartitionData::spec_write_preferred_candidates);
        reveal(PartitionData::spec_write_tags);
    }

    /// In a version that does not carry `preferred_candidates`, writing ignores its value.
    pub proof fn lemma_write_ignores_preferred_candidates(m: PartitionDataView, value: Seq<ReplicaInfoView>, version: i16)
        requires
            !(version >= 1),
        ensures
            Self::spec_write((PartitionDataView { preferred_candidates: value, ..m }), version) == Self::spec_write(m, version),
    {
        reveal(PartitionData::spec_write_partition_index);
        reveal(PartitionData::spec_write_leader_id);
        reveal(PartitionData::spec_write_leader_epoch);
        reveal(PartitionData::spec_write_preferred_successors);
        reveal(PartitionData::spec_write_preferred_candidates);
        reveal(PartitionData::spec_write_tags);
    }

    /// In a version that does not carry `unknown_tagged_fields`, writing ignores its value.
    pub proof fn lemma_write_ignores_unknown_tagged_fields(m: PartitionDataView, value: Seq<(u32, Seq<u8>)>, version: i16)
        requires
            !(version >= 1),
        ensures
            Self::spec_write((PartitionDataView { unknown_tagged_fields: value, ..m }), version) == Self::spec_write(m, version),
    {
        reveal(PartitionData::spec_write_partition_index);
        reveal(PartitionData::spec_write_leader_id);
        reveal(PartitionData::spec_write_leader_epoch);
        reveal(PartitionData::spec_write_preferred_successors);
        reveal(PartitionData::spec_write_preferred_candidates);
        reveal(PartitionData::spec_write_tags);
    }

    /// The default message holds the default value of each field of the schema.
    pub proof fn lemma_default_values()
        ensures
            Self::default_view().partition_index == (0_i32),
            Self::default_view().leader_id == (0_i32),
            Self::default_view().leader_epoch == (0_i32),
            Self::default_view().preferred_successors.len() == 0,
            Self::default_view().preferred_candidates.len() == 0,
            Self::default_view().unknown_tagged_fields.len() == 0,
    {
    }

    /// Each integer, boolean and identifier field is written as its standard
    /// big-endian bytes (a boolean as `1` or `0`) in the versions that carry
    /// it, and as nothing in the others; reading it takes those bytes back (any
    /// byte other than `0` reads as `true`), or gives its default value.
    pub proof fn lemma_field_encodings(m: PartitionDataView, s: Seq<u8>, version: i16)
        ensures
            true ==> Self::spec_write_partition_index(m, version) == Ok::<Seq<u8>, (Error, Seq<u8>)>(u32_bytes(m.partition_index as u32)),
            true ==> Self::spec_write_leader_id(m, version) == Ok::<Seq<u8>, (Error, Seq<u8>)>(u32_bytes(m.leader_id as u32)),
            true ==> Self::spec_write_leader_epoch(m, version) == Ok::<Seq<u8>, (Error, Seq<u8>)>(u32_bytes(m.leader_epoch as u32)),
            !(version == 0) ==> Self::spec_write_preferred_successors(m, version) == Ok::<Seq<u8>, (Error, Seq<u8>)>(Seq::empty()),
            !(version >= 1) ==> Self::spec_write_preferred_candidates(m, version) == Ok::<Seq<u8>, (Error, Seq<u8>)>(Seq::empty()),
            true ==> Self::spec_read_partition_index(s, version) == spec_read_i32(s),
            true ==> Self::spec_read_leader_id(s, version) == spec_read_i32(s),
            true ==> Self::spec_read_leader_epoch(s, version) == spec_read_i32(s),
    {
        reveal(PartitionData::spec_write_partition_index);
        reveal(PartitionData::spec_read_partition_index);
        reveal(PartitionData::spec_write_leader_id);
        reveal(PartitionData::spec_read_leader_id);
        reveal(PartitionData::spec_write_leader_epoch);
        reveal(PartitionData::spec_read_leader_epoch);
        reveal(PartitionData::spec_write_preferred_successors);
        reveal(PartitionData::spec_read_preferred_successors);
        reveal(PartitionData::spec_write_preferred_candidates);
        reveal(PartitionData::spec_read_preferred_candidates);
    }

    /// Whether writing `m` in `version` succeeds, said over its parts: the
    /// version is one the schema covers, every field that the version cannot
    /// carry holds its default value, and every string, byte string, array and
    /// tagged field fits its length prefix.
    pub open spec fn writable(m: PartitionDataView, version: i16) -> bool {
        &&& (if version == 0 {
                (m.preferred_successors.len() <= i32::MAX && all_writable::<Int32Item>(m.preferred_successors, version))
            } else {
                true
        })
        &&& (if version >= 1 {
                (m.preferred_candidates.len() <= i32::MAX && all_writable::<ReplicaInfo>(m.preferred_candidates, version))
            } else {
                true
        })
        &&& (if version >= 1 {
                m.unknown_tagged_fields.len() <= u32::MAX && tags_fit(m.unknown_tagged_fields)
            } else {
                true
        })
    }

    proof fn lemma_writable_partition_index(m: PartitionDataView, version: i16)
        ensures
            Self::spec_write_partition_index(m, version) is Ok <==> true,
    {
        reveal(PartitionData::spec_write_partition_index);
    }

    proof fn lemma_writable_leader_id(m: PartitionDataView, version: i16)
        ensures
            Self::spec_write_leader_id(m, version) is Ok <==> true,
    {
        reveal(PartitionData::spec_write_leader_id);
    }

    proof fn lemma_writable_leader_epoch(m: PartitionDataView, version: i16)
        ensures
            Self::spec_write_leader_epoch(m, version) is Ok <==> true,
    {
        reveal(PartitionData::spec_write_leader_epoch);
    }

    proof fn lemma_writable_preferred_successors(m: PartitionDataView, version: i16)
        ensures
            Self::spec_write_preferred_successors(m, version) is Ok <==> (if version == 0 { (m.preferred_successors.len() <= i32::MAX && all_writable::<Int32Item>(m.preferred_successors, version)) } else { true }),
    {
        reveal(PartitionData::spec_write_preferred_successors);
        if version == 0 {
            lemma_array_writable::<Int32Item>(m.preferred_successors, version, false);
        } else {
        }
    }

    proof fn lemma_writable_preferred_candidates(m: PartitionDataView, version: i16)
        ensures
            Self::spec_write_preferred_candidates(m, version) is Ok <==> (if version >= 1 { (m.preferred_candidates.len() <= i32::MAX && all_writable::<ReplicaInfo>(m.preferred_candidates, version)) } else { true }),
    {
        reveal(PartitionData::spec_write_preferred_candidates);
        if version >= 1 {
            lemma_array_writable::<ReplicaInfo>(m.preferred_candidates, version, true);
        } else {
        }
    }

    proof fn lemma_writable_tags(m: PartitionDataView, version: i16)
        ensures
            Self::spec_write_tags(m, version) is Ok <==> (if version >= 1 { m.unknown_tagged_fields.len() <= u32::MAX && tags_fit(m.unknown_tagged_fields) } else { true }),
    {
        reveal(PartitionData::spec_write_tags);
        if version >= 1 {
            lemma_sorted_tags_fit(m.unknown_tagged_fields);
            lemma_tagged_fields_writable(sorted_by_tag(m.unknown_tagged_fields));
        }
    }

    /// Writing `m` in `version` succeeds exactly when `m` is writable in it;
    /// so do `write` and `encoded_len`, whose results follow `spec_write`.
    #[verifier::rlimit(66)]
    pub proof fn lemma_writable(m: PartitionDataView, version: i16)
        ensures
            Self::spec_write(m, version) is Ok <==> Self::writable(m, version),
    {
        Self::lemma_writable_partition_index(m, version);
        Self::lemma_writable_leader_id(m, version);
        Self::lemma_writable_leader_epoch(m, version);
        Self::lemma_writable_preferred_successors(m, version);
        Self::lemma_writable_preferred_candidates(m, version);
        Self::lemma_writable_tags(m, version);
    }

    fn read_partition_index(buf: &mut Bytes, version: i16) -> (r: Result<i32, Error>)
        ensures
            read_as(Self::spec_read_partition_index(bytes_seq(*old(buf)), version), *final(buf), r),
            took_front(*old(buf), *final(buf)),
    {
        proof {
            reveal(PartitionData::spec_read_partition_index);
        }
        Ok(read_i32(buf)?)
    }

    fn read_leader_id(buf: &mut Bytes, version: i16) -> (r: Result<i32, Error>)
        ensures
            read_as(Self::spec_read_leader_id(bytes_seq(*old(buf)), version), *final(buf), r),
            took_front(*old(buf), *final(buf)),
    {
        proof {
            reveal(PartitionData::spec_read_leader_id);
        }
        Ok(read_i32(buf)?)
    }

    fn read_leader_epoch(buf: &mut Bytes, version: i16) -> (r: Result<i32, Error>)
        ensures
            read_as(Self::spec_read_leader_epoch(bytes_seq(*old(buf)), version), *final(buf), r),
            took_front(*old(buf), *final(buf)),
    {
        proof {
            reveal(PartitionData::spec_read_leader_epoch);
        }
        Ok(read_i32(buf)?)
    }

    fn read_preferred_successors(buf: &mut Bytes, version: i16) -> (r: Result<Vec<i32>, Error>)
        ensures
            read_vec_as(Self::spec_read_preferred_successors(bytes_seq(*old(buf)), version), *final(buf), r),
            took_front(*old(buf), *final(buf)),
    {
        proof {
            reveal(PartitionData::spec_read_preferred_successors);
        }
        Ok(if version == 0 {
                read_array::<Int32Item>(buf, version, false)?
            } else {
                empty_vec()
        })
    }

    fn read_preferred_candidates(buf: &mut Bytes, version: i16) -> (r: Result<Vec<ReplicaInfo>, Error>)
        ensures
            read_vec_as(Self::spec_read_preferred_candidates(bytes_seq(*old(buf)), version), *final(buf), r),
            took_front(*old(buf), *final(buf)),
    {
        proof {
            reveal(PartitionData::spec_read_preferred_candidates);
        }
        Ok(if version >= 1 {
                read_array::<ReplicaInfo>(buf, version, true)?
            } else {
                empty_vec()
        })
    }

    fn read_tags(buf: &mut Bytes, version: i16) -> (r: Result<Vec<RawTaggedField>, Error>)
        ensures
            read_vec_as(Self::spec_read_tags(bytes_seq(*old(buf)), version), *final(buf), r),
            took_front(*old(buf), *final(buf)),
    {
        proof {
            reveal(PartitionData::spec_read_tags);
        }
        Ok(if version >= 1 {
                read_tagged_fields(buf)?
            } else {
                empty_vec()
        })
    }

    #[verifier::rlimit(56)]
    #[verifier::spinoff_prover]
    pub fn read(buf: &mut Bytes, version: i16) -> (r: Result<Self, Error>)
        ensures
            read_as(Self::spec_read(bytes_seq(*old(buf)), version), *final(buf), r),
            took_front(*old(buf), *final(buf)),
    {
        let partition_index = Self::read_partition_index(buf, version)?;
        let leader_id = Self::read_leader_id(buf, version)?;
        let leader_epoch = Self::read_leader_epoch(buf, version)?;
        let preferred_successors = Self::read_preferred_successors(buf, version)?;
        let preferred_candidates = Self::read_preferred_candidates(buf, version)?;
        let _unknown_tagged_fields = Self::read_tags(buf, version)?;
        Ok(PartitionData {
                partition_index: partition_index,
                leader_id: leader_id,
                leader_epoch: leader_epoch,
                preferred_successors: preferred_successors,
                preferred_candidates: preferred_candidates,
                _unknown_tagged_fields: _unknown_tagged_fields,
        })
    }

    #[verifier::rlimit(90)]
    #[verifier::spinoff_prover]
    pub fn write(&self, buf: &mut BytesMut, version: i16) -> (r: Result<(), Error>)
        requires
            has_room(Self::spec_write(self@, version), *old(buf)),
        ensures
            wrote(Self::spec_write(self@, version), *old(buf), *final(buf), r),
    {
        let ghost m = self@;
        proof {
            reveal(PartitionData::spec_write_partition_index);
            reveal(PartitionData::spec_write_leader_id);
            reveal(PartitionData::spec_write_leader_epoch);
            reveal(PartitionData::spec_write_preferred_successors);
            reveal(PartitionData::spec_write_preferred_candidates);
            reveal(PartitionData::spec_write_tags);
        }
        let ghost s0 = Self::spec_write_partition_index(m, version);
        let ghost w0 = s0;
        let ghost s1 = Self::spec_write_leader_id(m, version);
        let ghost w1 = chain(w0, s1);
        let ghost s2 = Self::spec_write_leader_epoch(m, version);
        let ghost w2 = chain(w1, s2);
        let ghost s3 = Self::spec_write_preferred_successors(m, version);
        let ghost w3 = chain(w2, s3);
        let ghost s4 = Self::spec_write_preferred_candidates(m, version);
        let ghost w4 = chain(w3, s4);
        let ghost s5 = Self::spec_write_tags(m, version);
        let ghost w5 = chain(w4, s5);
        assert(Self::spec_write(m, version) == w5);
        assert(written(w4).len() <= written(w5).len() && (w4 is Err ==> w5 == w4));
        assert(written(w3).len() <= written(w5).len() && (w3 is Err ==> w5 == w3));
        assert(written(w2).len() <= written(w5).len() && (w2 is Err ==> w5 == w2));
        assert(written(w1).len() <= written(w5).len() && (w1 is Err ==> w5 == w1));
        assert(written(w0).len() <= written(w5).len() && (w0 is Err ==> w5 == w0));
        let ghost mid = bytes_mut_seq(*buf);
        proof {
            lemma_append_empty(mid);
        }
        let r0 = {
            write_i32(buf, self.partition_index);
            Ok(())
        };
        assert(bytes_mut_seq(*buf) == mid + written(s0));
        if r0.is_err() {
            return r0;
        }
        let ghost mid = bytes_mut_seq(*buf);
        proof {
            lemma_append_empty(mid);
        }
        let r1 = {
            write_i32(buf, self.leader_id);
            Ok(())
        };
        assert(bytes_mut_seq(*buf) == mid + written(s1));
        proof {
            lemma_step(bytes_mut_seq(*old(buf)), w0, s1);
        }
        if r1.is_err() {
            return r1;
        }
        let ghost mid = bytes_mut_seq(*buf);
        proof {
            lemma_append_empty(mid);
        }
        let r2 = {
            write_i32(buf, self.leader_epoch);
            Ok(())
        };
        assert(bytes_mut_seq(*buf) == mid + written(s2));
        proof {
            lemma_step(bytes_mut_seq(*old(buf)), w1, s2);
        }
        if r2.is_err() {
            return r2;
        }
        let ghost mid = bytes_mut_seq(*buf);
        proof {
            lemma_append_empty(mid);
        }
        let r3 = if version == 0 {
            write_array::<Int32Item>(buf, &self.preferred_successors, version, false)
        } else {
            Ok(())
        };
        assert(bytes_mut_seq(*buf) == mid + written(s3));
        proof {
            lemma_step(bytes_mut_seq(*old(buf)), w2, s3);
        }
        if r3.is_err() {
            return r3;
        }
        let ghost mid = bytes_mut_seq(*buf);
        proof {
            lemma_append_empty(mid);
        }
        let r4 = if version >= 1 {
            write_array::<ReplicaInfo>(buf, &self.preferred_candidates, version, true)
        } else {
            Ok(())
        };
        assert(bytes_mut_seq(*buf) == mid + written(s4));
        proof {
            lemma_step(bytes_mut_seq(*old(buf)), w3, s4);
        }
        if r4.is_err() {
            return r4;
        }
        let ghost mid = bytes_mut_seq(*buf);
        proof {
            lemma_append_empty(mid);
        }
        let r5 = if version >= 1 {
            write_tagged_fields(buf, &sort_by_tag(&self._unknown_tagged_fields))
        } else {
            Ok(())
        };
        assert(bytes_mut_seq(*buf) == mid + written(s5));
        proof {
            lemma_step(bytes_mut_seq(*old(buf)), w4, s5);
        }
        if r5.is_err() {
            return r5;
        }
        Ok(())
    }
}

#[derive(Debug, PartialEq)]
pub struct ReplicaInfo {
    /// The ID of the candidate replica.
    pub candidate_id: i32,
    /// The directory ID of the candidate replica.
    pub candidate_directory_id: KafkaUuid,
    pub _unknown_tagged_fields: Vec<RawTaggedField>,
}

/// What a `ReplicaInfo` holds, as the specification sees it.
#[verifier::ext_equal]
pub struct ReplicaInfoView {
    pub candidate_id: i32,
    pub candidate_directory_id: KafkaUuid,
    pub unknown_tagged_fields: Seq<(u32, Seq<u8>)>,
}

impl View for ReplicaInfo {
    type V = ReplicaInfoView;

    open spec fn view(&self) -> ReplicaInfoView {
        ReplicaInfoView {
            candidate_id: self.candidate_id,
            candidate_directory_id: self.candidate_directory_id,
            unknown_tagged_fields: views(self._unknown_tagged_fields@),
        }
    }
}

impl Clone for ReplicaInfo {
    fn clone(&self) -> (r: Self)
        ensures
            r@ == self@,
    {
        let r = ReplicaInfo {
            candidate_id: self.candidate_id,
            candidate_directory_id: self.candidate_directory_id,
            _unknown_tagged_fields: clone_vec(&self._unknown_tagged_fields),
        };
        assert(r@ =~= self@);
        r
    }
}

impl ViewClone for ReplicaInfo {
    fn clone_view(&self) -> (r: Self) {
        self.clone()
    }
}

impl Default for ReplicaInfo {
    fn default() -> (r: Self)
        ensures
            r@ == Self::default_view(),
    {
        let r = ReplicaInfo {
            candidate_id: 0_i32,
            candidate_directory_id: KafkaUuid::zero(),
            _unknown_tagged_fields: empty_vec(),
        };
        assert(r@ =~= Self::default_view());
        r
    }
}

impl ReplicaInfo {
    pub open spec fn default_view() -> ReplicaInfoView {
        ReplicaInfoView {
            candidate_id: 0_i32,
            candidate_directory_id: KafkaUuid { most_significant_bits: 0, least_significant_bits: 0 },
            unknown_tagged_fields: Seq::empty(),
        }
    }

    /// The `candidate_id` field, read from the front of `s`.
    #[verifier::opaque]
    pub open spec fn spec_read_candidate_id(s: Seq<u8>, version: i16) -> ReadOutcome<i32> {
        spec_read_i32(s)
    }

    /// The `candidate_directory_id` field, read from the front of `s`.
    #[verifier::opaque]
    pub open spec fn spec_read_candidate_directory_id(s: Seq<u8>, version: i16) -> ReadOutcome<KafkaUuid> {
        spec_read_uuid(s)
    }

    /// The tagged fields, read from the front of `s`.
    #[verifier::opaque]
    pub open spec fn spec_read_tags(s: Seq<u8>, version: i16) -> ReadOutcome<Seq<(u32, Seq<u8>)>> {
        spec_read_tagged_fields(s)
    }

    pub open spec fn spec_read(s: Seq<u8>, version: i16) -> ReadOutcome<ReplicaInfoView> {
        match (Self::spec_read_candidate_id(s, version)) {
            Err(e) => Err(e),
            Ok((candidate_id, s)) => match (Self::spec_read_candidate_directory_id(s, version)) {
                Err(e) => Err(e),
                Ok((candidate_directory_id, s)) => match (Self::spec_read_tags(s, version)) {
                    Err(e) => Err(e),
                    Ok((unknown_tagged_fields, s)) => Ok((ReplicaInfoView {
                                candidate_id: candidate_id,
                                candidate_directory_id: candidate_directory_id,
                                unknown_tagged_fields: unknown_tagged_fields,
                            }, s)),
                },
            },
        }
    }

    /// What writing the `candidate_id` field of `m` appends.
    #[verifier::opaque]
    pub open spec fn spec_write_candidate_id(m: ReplicaInfoView, version: i16) -> WriteOutcome {
        spec_write_i32(m.candidate_id)
    }

    /// What writing the `candidate_directory_id` field of `m` appends.
    #[verifier::opaque]
    pub open spec fn spec_write_candidate_directory_id(m: ReplicaInfoView, version: i16) -> WriteOutcome {
        spec_write_uuid(m.candidate_directory_id)
    }

    /// What writing the tagged fields of `m` appends.
    #[verifier::opaque]
    pub open spec fn spec_write_tags(m: ReplicaInfoView, version: i16) -> WriteOutcome {
        spec_write_tagged_fields(sorted_by_tag(m.unknown_tagged_fields))
    }

    pub open spec fn spec_write(m: ReplicaInfoView, version: i16) -> WriteOutcome {
        chain(
            chain(
                Self::spec_write_candidate_id(m, version),
                Self::spec_write_candidate_directory_id(m, version),
            ),
            Self::spec_write_tags(m, version),
        )
    }

    /// Whether reading back what writing `m` in `version` appends gives `m`:
    /// fields that the version does not carry hold their default values, and
    /// tagged fields come in the order in which they are written.
    pub open spec fn canonical(m: ReplicaInfoView, version: i16) -> bool {
        &&& tags_in_order(m.unknown_tagged_fields)
    }

    proof fn lemma_round_trip_candidate_id(m: ReplicaInfoView, version: i16, rest: Seq<u8>)
        requires
            Self::canonical(m, version),
            Self::spec_write_candidate_id(m, version) is Ok,
        ensures
            Self::spec_read_candidate_id(written(Self::spec_write_candidate_id(m, version)) + rest, version) == Ok::<(i32, Seq<u8>), Error>((m.candidate_id, rest)),
    {
        reveal(ReplicaInfo::spec_read_candidate_id);
        reveal(ReplicaInfo::spec_write_candidate_id);
        lemma_i32_roundtrip(m.candidate_id, rest);
    }

    proof fn lemma_round_trip_candidate_directory_id(m: ReplicaInfoView, version: i16, rest: Seq<u8>)
        requires
            Self::canonical(m, version),
            Self::spec_write_candidate_directory_id(m, version) is Ok,
        ensures
            Self::spec_read_candidate_directory_id(written(Self::spec_write_candidate_directory_id(m, version)) + rest, version) == Ok::<(KafkaUuid, Seq<u8>), Error>((m.candidate_directory_id, rest)),
    {
        reveal(ReplicaInfo::spec_read_candidate_directory_id);
        reveal(ReplicaInfo::spec_write_candidate_directory_id);
        lemma_uuid_round_trip(m.candidate_directory_id, rest);
    }

    proof fn lemma_round_trip_tags(m: ReplicaInfoView, version: i16, rest: Seq<u8>)
        requires
            Self::canonical(m, version),
            Self::spec_write_tags(m, version) is Ok,
        ensures
            Self::spec_read_tags(written(Self::spec_write_tags(m, version)) + rest, version) == Ok::<(Seq<(u32, Seq<u8>)>, Seq<u8>), Error>((m.unknown_tagged_fields, rest)),
    {
        reveal(ReplicaInfo::spec_read_tags);
        reveal(ReplicaInfo::spec_write_tags);
        lemma_sorted_by_tag_in_order(m.unknown_tagged_fields);
        lemma_tagged_fields_round_trip(m.unknown_tagged_fields, rest);
    }

    /// Reading back what writing `m` in `version` appends gives `m` again, and
    /// leaves what follows, for every canonical message whose write succeeds.
    #[verifier::rlimit(70)]
    #[verifier::spinoff_prover]
    pub proof fn lemma_round_trip(m: ReplicaInfoView, version: i16, rest: Seq<u8>)
        requires
            Self::canonical(m, version),
            Self::spec_write(m, version) is Ok,
        ensures
            Self::spec_read(written(Self::spec_write(m, version)) + rest, version) == Ok::<(ReplicaInfoView, Seq<u8>), Error>((m, rest)),
    {
        let b0 = written(Self::spec_write_candidate_id(m, version));
        let b1 = written(Self::spec_write_candidate_directory_id(m, version));
        let b2 = written(Self::spec_write_tags(m, version));
        let t3 = rest;
        let t2 = b2 + t3;
        let t1 = b1 + t2;
        let t0 = b0 + t1;
        let w0 = Self::spec_write_candidate_id(m, version);
        let w1 = chain(w0, Self::spec_write_candidate_directory_id(m, version));
        let w2 = chain(w1, Self::spec_write_tags(m, version));
        assert(Self::spec_write(m, version) == w2);
        assert(written(w2) + t3 =~= written(w1) + t2);
        assert(written(w1) + t2 =~= written(w0) + t1);
        Self::lemma_round_trip_candidate_id(m, version, t1);
        Self::lemma_round_trip_candidate_directory_id(m, version, t2);
        Self::lemma_round_trip_tags(m, version, t3);
    }

    /// The default message holds the default value of each field of the schema.
    pub proof fn lemma_default_values()
        ensures
            Self::default_view().candidate_id == (0_i32),
            Self::default_view().candidate_directory_id == (KafkaUuid { most_significant_bits: 0, least_significant_bits: 0 }),
            Self::default_view().unknown_tagged_fields.len() == 0,
    {
    }

    /// Each integer, boolean and identifier field is written as its standard
    /// big-endian bytes (a boolean as `1` or `0`) in the versions that carry
    /// it, and as nothing in the others; reading it takes those bytes back (any
    /// byte other than `0` reads as `true`), or gives its default value.
    pub proof fn lemma_field_encodings(m: ReplicaInfoView, s: Seq<u8>, version: i16)
        ensures
            true ==> Self::spec_write_candidate_id(m, version) == Ok::<Seq<u8>, (Error, Seq<u8>)>(u32_bytes(m.candidate_id as u32)),
            true ==> Self::spec_write_candidate_directory_id(m, version) == Ok::<Seq<u8>, (Error, Seq<u8>)>((u64_bytes(m.candidate_directory_id.most_significant_bits) + u64_bytes(m.candidate_directory_id.least_significant_bits))),
            true ==> Self::spec_read_candidate_id(s, version) == spec_read_i32(s),
            true ==> Self::spec_read_candidate_directory_id(s, version) == spec_read_uuid(s),
    {
        reveal(ReplicaInfo::spec_write_candidate_id);
        reveal(ReplicaInfo::spec_read_candidate_id);
        reveal(ReplicaInfo::spec_write_candidate_directory_id);
        reveal(ReplicaInfo::spec_read_candidate_directory_id);
    }

    /// Whether writing `m` in `version` succeeds, said over its parts: the
    /// version is one the schema covers, every field that the version cannot
    /// carry holds its default value, and every string, byte string, array and
    /// tagged field fits its length prefix.
    pub open spec fn writable(m: ReplicaInfoView, version: i16) -> bool {
        &&& m.unknown_tagged_fields.len() <= u32::MAX && tags_fit(m.unknown_tagged_fields)
    }

    proof fn lemma_writable_candidate_id(m: ReplicaInfoView, version: i16)
        ensures
            Self::spec_write_candidate_id(m, version) is Ok <==> true,
    {
        reveal(ReplicaInfo::spec_write_candidate_id);
    }

    proof fn lemma_writable_candidate_directory_id(m: ReplicaInfoView, version: i16)
        ensures
            Self::spec_write_candidate_directory_id(m, version) is Ok <==> true,
    {
        reveal(ReplicaInfo::spec_write_candidate_directory_id);
    }

    proof fn lemma_writable_tags(m: ReplicaInfoView, version: i16)
        ensures
            Self::spec_write_tags(m, version) is Ok <==> m.unknown_tagged_fields.len() <= u32::MAX && tags_fit(m.unknown_tagged_fields),
    {
        reveal(ReplicaInfo::spec_write_tags);
        lemma_sorted_tags_fit(m.unknown_tagged_fields);
        lemma_tagged_fields_writable(sorted_by_tag(m.unknown_tagged_fields));
    }

    /// Writing `m` in `version` succeeds exactly when `m` is writable in it;
    /// so do `write` and `encoded_len`, whose results follow `spec_write`.
    #[verifier::rlimit(48)]
    pub proof fn lemma_writable(m: ReplicaInfoView, version: i16)
        ensures
            Self::spec_write(m, version) is Ok <==> Self::writable(m, version),
    {
        Self::lemma_writable_candidate_id(m, version);
        Self::lemma_writable_candidate_directory_id(m, version);
        Self::lemma_writable_tags(m, version);
    }

    fn read_candidate_id(buf: &mut Bytes, version: i16) -> (r: Result<i32, Error>)
        ensures
            read_as(Self::spec_read_candidate_id(bytes_seq(*old(buf)), version), *final(buf), r),
            took_front(*old(buf), *final(buf)),
    {
        proof {
            reveal(ReplicaInfo::spec_read_candidate_id);
        }
        Ok(read_i32(buf)?)
    }

    fn read_candidate_directory_id(buf: &mut Bytes, version: i16) -> (r: Result<KafkaUuid, Error>)
        ensures
            read_as(Self::spec_read_candidate_directory_id(bytes_seq(*old(buf)), version), *final(buf), r),
            took_front(*old(buf), *final(buf)),
    {
        proof {
            reveal(ReplicaInfo::spec_read_candidate_directory_id);
        }
        Ok(read_uuid(buf)?)
    }

    fn read_tags(buf: &mut Bytes, version: i16) -> (r: Result<Vec<RawTaggedField>, Error>)
        ensures
            read_vec_as(Self::spec_read_tags(bytes_seq(*old(buf)), version), *final(buf), r),
            took_front(*old(buf), *final(buf)),
    {
        proof {
            reveal(ReplicaInfo::spec_read_tags);
        }
        Ok(read_tagged_fields(buf)?)
    }

    pub fn read(buf: &mut Bytes, version: i16) -> (r: Result<Self, Error>)
        ensures
            read_as(Self::spec_read(bytes_seq(*old(buf)), version), *final(buf), r),
            took_front(*old(buf), *final(buf)),
    {
        let candidate_id = Self::read_candidate_id(buf, version)?;
        let candidate_directory_id = Self::read_candidate_directory_id(buf, version)?;
        let _unknown_tagged_fields = Self::read_tags(buf, version)?;
        Ok(ReplicaInfo {
                candidate_id: candidate_id,
                candidate_directory_id: candidate_directory_id,
                _unknown_tagged_fields: _unknown_tagged_fields,
        })
    }

    #[verifier::rlimit(60)]
    pub fn write(&self, buf: &mut BytesMut, version: i16) -> (r: Result<(), Error>)
        requires
            has_room(Self::spec_write(self@, version), *old(buf)),
        ensures
            wrote(Self::spec_write(self@, version), *old(buf), *final(buf), r),
    {
        let ghost m = self@;
        proof {
            reveal(ReplicaInfo::spec_write_candidate_id);
            reveal(ReplicaInfo::spec_write_candidate_directory_id);
            reveal(ReplicaInfo::spec_write_tags);
        }
        let ghost s0 = Self::spec_write_candidate_id(m, version);
        let ghost w0 = s0;
        let ghost s1 = Self::spec_write_candidate_directory_id(m, version);
        let ghost w1 = chain(w0, s1);
        let ghost s2 = Self::spec_write_tags(m, version);
        let ghost w2 = chain(w1, s2);
        assert(Self::spec_write(m, version) == w2);
        assert(written(w1).len() <= written(w2).len() && (w1 is Err ==> w2 == w1));
        assert(written(w0).len() <= written(w2).len() && (w0 is Err ==> w2 == w0));
        let ghost mid = bytes_mut_seq(*buf);
        proof {
            lemma_append_empty(mid);
        }
        let r0 = {
            write_i32(buf, self.candidate_id);
            Ok(())
        };
        assert(bytes_mut_seq(*buf) == mid + written(s0));
        if r0.is_err() {
            return r0;
        }
        let ghost mid = bytes_mut_seq(*buf);
        proof {
            lemma_append_empty(mid);
        }
        let r1 = {
            write_uuid(buf, self.candidate_directory_id);
            Ok(())
        };
        assert(bytes_mut_seq(*buf) == mid + written(s1));
        proof {
            lemma_step(bytes_mut_seq(*old(buf)), w0, s1);
        }
        if r1.is_err() {
            return r1;
        }
        let ghost mid = bytes_mut_seq(*buf);
        proof {
            lemma_append_empty(mid);
        }
        let r2 = write_tagged_fields(buf, &sort_by_tag(&self._unknown_tagged_fields));
        assert(bytes_mut_seq(*buf) == mid + written(s2));
        proof {
            lemma_step(bytes_mut_seq(*old(buf)), w1, s2);
        }
        if r2.is_err() {
            return r2;
        }
        Ok(())
    }
}

#[derive(Debug, PartialEq)]
pub struct LeaderEndpoint {
    /// The name of the endpoint.
    pub name: KafkaString,
    /// The node's hostname.
    pub host: KafkaString,
    /// The node's port.
    pub port: u16,
    pub _unknown_tagged_fields: Vec<RawTaggedField>,
}

/// What a `LeaderEndpoint` holds, as the specification sees it.
#[verifier::ext_equal]
pub struct LeaderEndpointView {
    pub name: Seq<u8>,
    pub host: Seq<u8>,
    pub port: u16,
    pub unknown_tagged_fields: Seq<(u32, Seq<u8>)>,
}

impl View for LeaderEndpoint {
    type V = LeaderEndpointView;

    open spec fn view(&self) -> LeaderEndpointView {
        LeaderEndpointView {
            name: self.name@,
            host: self.host@,
            port: self.port,
            unknown_tagged_fields: views(self._unknown_tagged_fields@),
        }
    }
}

impl Clone for LeaderEndpoint {
    fn clone(&self) -> (r: Self)
        ensures
            r@ == self@,
    {
        let r = LeaderEndpoint {
            name: self.name.clone(),
            host: self.host.clone(),
            port: self.port,
            _unknown_tagged_fields: clone_vec(&self._unknown_tagged_fields),
        };
        assert(r@ =~= self@);
        r
    }
}

impl ViewClone for LeaderEndpoint {
    fn clone_view(&self) -> (r: Self) {
        self.clone()
    }
}

impl Default for LeaderEndpoint {
    fn default() -> (r: Self)
        ensures
            r@ == Self::default_view(),
    {
        let r = LeaderEndpoint {
            name: KafkaString::default(),
            host: KafkaString::default(),
            port: 0_u16,
            _unknown_tagged_fields: empty_vec(),
        };
        assert(r@ =~= Self::default_view());
        r
    }
}

impl LeaderEndpoint {
    pub open spec fn default_view() -> LeaderEndpointView {
        LeaderEndpointView {
            name: Seq::empty(),
            host: Seq::empty(),
            port: 0_u16,
            unknown_tagged_fields: Seq::empty(),
        }
    }

    /// The `name` field, read from the front of `s`.
    #[verifier::opaque]
    pub open spec fn spec_read_name(s: Seq<u8>, version: i16) -> ReadOutcome<Seq<u8>> {
        spec_read_compact_string(s)
    }

    /// The `host` field, read from the front of `s`.
    #[verifier::opaque]
    pub open spec fn spec_read_host(s: Seq<u8>, version: i16) -> ReadOutcome<Seq<u8>> {
        spec_read_compact_string(s)
    }

    /// The `port` field, read from the front of `s`.
    #[verifier::opaque]
    pub open spec fn spec_read_port(s: Seq<u8>, version: i16) -> ReadOutcome<u16> {
        spec_read_u16(s)
    }

    /// The tagged fields, read from the front of `s`.
    #[verifier::opaque]
    pub open spec fn spec_read_tags(s: Seq<u8>, version: i16) -> ReadOutcome<Seq<(u32, Seq<u8>)>> {
        spec_read_tagged_fields(s)
    }

    pub open spec fn spec_read(s: Seq<u8>, version: i16) -> ReadOutcome<LeaderEndpointView> {
        match (Self::spec_read_name(s, version)) {
            Err(e) => Err(e),
            Ok((name, s)) => match (Self::spec_read_host(s, version)) {
                Err(e) => Err(e),
                Ok((host, s)) => match (Self::spec_read_port(s, version)) {
                    Err(e) => Err(e),
                    Ok((port, s)) => match (Self::spec_read_tags(s, version)) {
                        Err(e) => Err(e),
                        Ok((unknown_tagged_fields, s)) => Ok((LeaderEndpointView {
                                    name: name,
                                    host: host,
                                    port: port,
                                    unknown_tagged_fields: unknown_tagged_fields,
                                }, s)),
                    },
                },
            },
        }
    }

    /// What writing the `name` field of `m` appends.
    #[verifier::opaque]
    pub open spec fn spec_write_name(m: LeaderEndpointView, version: i16) -> WriteOutcome {
        spec_write_compact_string(m.name)
    }

    /// What writing the `host` field of `m` appends.
    #[verifier::opaque]
    pub open spec fn spec_write_host(m: LeaderEndpointView, version: i16) -> WriteOutcome {
        spec_write_compact_string(m.host)
    }

    /// What writing the `port` field of `m` appends.
    #[verifier::opaque]
    pub open spec fn spec_write_port(m: LeaderEndpointView, version: i16) -> WriteOutcome {
        spec_write_u16(m.port)
    }

    /// What writing the tagged fields of `m` appends.
    #[verifier::opaque]
    pub open spec fn spec_write_tags(m: LeaderEndpointView, version: i16) -> WriteOutcome {
        spec_write_tagged_fields(sorted_by_tag(m.unknown_tagged_fields))
    }

    pub open spec fn spec_write(m: LeaderEndpointView, version: i16) -> WriteOutcome {
        chain(
            chain(
                chain(
                    Self::spec_write_name(m, version),
                    Self::spec_write_host(m, version),
                ),
                Self::spec_write_port(m, version),
            ),
            Self::spec_write_tags(m, version),
        )
    }

    /// Whether reading back what writing `m` in `version` appends gives `m`:
    /// fields that the version does not carry hold their default values, and
    /// tagged fields come in the order in which they are written.
    pub open spec fn canonical(m: LeaderEndpointView, version: i16) -> bool {
        &&& tags_in_order(m.unknown_tagged_fields)
    }

    proof fn lemma_round_trip_name(m: LeaderEndpointView, version: i16, rest: Seq<u8>)
        requires
            Self::canonical(m, version),
            Self::spec_write_name(m, version) is Ok,
        ensures
            Self::spec_read_name(written(Self::spec_write_name(m, version)) + rest, version) == Ok::<(Seq<u8>, Seq<u8>), Error>((m.name, rest)),
    {
        reveal(LeaderEndpoint::spec_read_name);
        reveal(LeaderEndpoint::spec_write_name);
        lemma_compact_string_round_trip(m.name, rest);
    }

    proof fn lemma_round_trip_host(m: LeaderEndpointView, version: i16, rest: Seq<u8>)
        requires
            Self::canonical(m, version),
            Self::spec_write_host(m, version) is Ok,
        ensures
            Self::spec_read_host(written(Self::spec_write_host(m, version)) + rest, version) == Ok::<(Seq<u8>, Seq<u8>), Error>((m.host, rest)),
    {
        reveal(LeaderEndpoint::spec_read_host);
        reveal(LeaderEndpoint::spec_write_host);
        lemma_compact_string_round_trip(m.host, rest);
    }

    proof fn lemma_round_trip_port(m: LeaderEndpointView, version: i16, rest: Seq<u8>)
        requires
            Self::canonical(m, version),
            Self::spec_write_port(m, version) is Ok,
        ensures
            Self::spec_read_port(written(Self::spec_write_port(m, version)) + rest, version) == Ok::<(u16, Seq<u8>), Error>((m.port, rest)),
    {
        reveal(LeaderEndpoint::spec_read_port);
        reveal(LeaderEndpoint::spec_write_port);
        lemma_u16_roundtrip(m.port, rest);
    }

    proof fn lemma_round_trip_tags(m: LeaderEndpointView, version: i16, rest: Seq<u8>)
        requires
            Self::canonical(m, version),
            Self::spec_write_tags(m, version) is Ok,
        ensures
            Self::spec_read_tags(written(Self::spec_write_tags(m, version)) + rest, version) == Ok::<(Seq<(u32, Seq<u8>)>, Seq<u8>), Error>((m.unknown_tagged_fields, rest)),
    {
        reveal(LeaderEndpoint::spec_read_tags);
        reveal(LeaderEndpoint::spec_write_tags);
        lemma_sorted_by_tag_in_order(m.unknown_tagged_fields);
        lemma_tagged_fields_round_trip(m.unknown_tagged_fields, rest);
    }

    /// Reading back what writing `m` in `version` appends gives `m` again, and
    /// leaves what follows, for every canonical message whose write succeeds.
    #[verifier::rlimit(80)]
    #[verifier::spinoff_prover]
    pub proof fn lemma_round_trip(m: LeaderEndpointView, version: i16, rest: Seq<u8>)
        requires
            Self::canonical(m, version),
            Self::spec_write(m, version) is Ok,
        ensures
            Self::spec_read(written(Self::spec_write(m, version)) + rest, version) == Ok::<(LeaderEndpointView, Seq<u8>), Error>((m, rest)),
    {
        let b0 = written(Self::spec_write_name(m, version));
        let b1 = written(Self::spec_write_host(m, version));
        let b2 = written(Self::spec_write_port(m, version));
        let b3 = written(Self::spec_write_tags(m, version));
        let t4 = rest;
        let t3 = b3 + t4;
        let t2 = b2 + t3;
        let t1 = b1 + t2;
        let t0 = b0 + t1;
        let w0 = Self::spec_write_name(m, version);
        let w1 = chain(w0, Self::spec_write_host(m, version));
        let w2 = chain(w1, Self::spec_write_port(m, version));
        let w3 = chain(w2, Self::spec_write_tags(m, version));
        assert(Self::spec_write(m, version) == w3);
        assert(written(w3) + t4 =~= written(w2) + t3);
        assert(written(w2) + t3 =~= written(w1) + t2);
        assert(written(w1) + t2 =~= written(w0) + t1);
        Self::lemma_round_trip_name(m, version, t1);
        Self::lemma_round_trip_host(m, version, t2);
        Self::lemma_round_trip_port(m, version, t3);
        Self::lemma_round_trip_tags(m, version, t4);
    }

    /// The default message holds the default value of each field of the schema.
    pub proof fn lemma_default_values()
        ensures
            Self::default_view().name.len() == 0,
            Self::default_view().host.len() == 0,
            Self::default_view().port == (0_u16),
            Self::default_view().unknown_tagged_fields.len() == 0,
    {
    }

    /// Each integer, boolean and identifier field is written as its standard
    /// big-endian bytes (a boolean as `1` or `0`) in the versions that carry
    /// it, and as nothing in the others; reading it takes those bytes back (any
    /// byte other than `0` reads as `true`), or gives its default value.
    pub proof fn lemma_field_encodings(m: LeaderEndpointView, s: Seq<u8>, version: i16)
        ensures
            true ==> Self::spec_write_port(m, version) == Ok::<Seq<u8>, (Error, Seq<u8>)>(u16_bytes(m.port)),
            true ==> Self::spec_read_port(s, version) == spec_read_u16(s),
    {
        reveal(LeaderEndpoint::spec_write_port);
        reveal(LeaderEndpoint::spec_read_port);
    }

    /// Whether writing `m` in `version` succeeds, said over its parts: the
    /// version is one the schema covers, every field that the version cannot
    /// carry holds its default value, and every string, byte string, array and
    /// tagged field fits its length prefix.
    pub open spec fn writable(m: LeaderEndpointView, version: i16) -> bool {
        &&& m.name.len() <= 0x7fff
        &&& m.host.len() <= 0x7fff
        &&& m.unknown_tagged_fields.len() <= u32::MAX && tags_fit(m.unknown_tagged_fields)
    }

    proof fn lemma_writable_name(m: LeaderEndpointView, version: i16)
        ensures
            Self::spec_write_name(m, version) is Ok <==> m.name.len() <= 0x7fff,
    {
        reveal(LeaderEndpoint::spec_write_name);
    }

    proof fn lemma_writable_host(m: LeaderEndpointView, version: i16)
        ensures
            Self::spec_write_host(m, version) is Ok <==> m.host.len() <= 0x7fff,
    {
        reveal(LeaderEndpoint::spec_write_host);
    }

    proof fn lemma_writable_port(m: LeaderEndpointView, version: i16)
        ensures
            Self::spec_write_port(m, version) is Ok <==> true,
    {
        reveal(LeaderEndpoint::spec_write_port);
    }

    proof fn lemma_writable_tags(m: LeaderEndpointView, version: i16)
        ensures
            Self::spec_write_tags(m, version) is Ok <==> m.unknown_tagged_fields.len() <= u32::MAX && tags_fit(m.unknown_tagged_fields),
    {
        reveal(LeaderEndpoint::spec_write_tags);
        lemma_sorted_tags_fit(m.unknown_tagged_fields);
        lemma_tagged_fields_writable(sorted_by_tag(m.unknown_tagged_fields));
    }

    /// Writing `m` in `version` succeeds exactly when `m` is writable in it;
    /// so do `write` and `encoded_len`, whose results follow `spec_write`.
    #[verifier::rlimit(54)]
    pub proof fn lemma_writable(m: LeaderEndpointView, version: i16)
        ensures
            Self::spec_write(m, version) is Ok <==> Self::writable(m, version),
    {
        Self::lemma_writable_name(m, version);
        Self::lemma_writable_host(m, version);
        Self::lemma_writable_port(m, version);
        Self::lemma_writable_tags(m, version);
    }

    fn read_name(buf: &mut Bytes, version: i16) -> (r: Result<KafkaString, Error>)
        ensures
            read_as(Self::spec_read_name(bytes_seq(*old(buf)), version), *final(buf), r),
            took_front(*old(buf), *final(buf)),
    {
        proof {
            reveal(LeaderEndpoint::spec_read_name);
        }
        Ok(read_compact_string(buf)?)
    }

    fn read_host(buf: &mut Bytes, version: i16) -> (r: Result<KafkaString, Error>)
        ensures
            read_as(Self::spec_read_host(bytes_seq(*old(buf)), version), *final(buf), r),
            took_front(*old(buf), *final(buf)),
    {
        proof {
            reveal(LeaderEndpoint::spec_read_host);
        }
        Ok(read_compact_string(buf)?)
    }

    fn read_port(buf: &mut Bytes, version: i16) -> (r: Result<u16, Error>)
        ensures
            read_as(Self::spec_read_port(bytes_seq(*old(buf)), version), *final(buf), r),
            took_front(*old(buf), *final(buf)),
    {
        proof {
            reveal(LeaderEndpoint::spec_read_port);
        }
        Ok(read_u16(buf)?)
    }

    fn read_tags(buf: &mut Bytes, version: i16) -> (r: Result<Vec<RawTaggedField>, Error>)
        ensures
            read_vec_as(Self::spec_read_tags(bytes_seq(*old(buf)), version), *final(buf), r),
            took_front(*old(buf), *final(buf)),
    {
        proof {
            reveal(LeaderEndpoint::spec_read_tags);
        }
        Ok(read_tagged_fields(buf)?)
    }

    pub fn read(buf: &mut Bytes, version: i16) -> (r: Result<Self, Error>)
        ensures
            read_as(Self::spec_read(bytes_seq(*old(buf)), version), *final(buf), r),
            took_front(*old(buf), *final(buf)),
    {
        let name = Self::read_name(buf, version)?;
        let host = Self::read_host(buf, version)?;
        let port = Self::read_port(buf, version)?;
        let _unknown_tagged_fields = Self::read_tags(buf, version)?;
        Ok(LeaderEndpoint {
                name: name,
                host: host,
                port: port,
                _unknown_tagged_fields: _unknown_tagged_fields,
        })
    }

    #[verifier::rlimit(70)]
    pub fn write(&self, buf: &mut BytesMut, version: i16) -> (r: Result<(), Error>)
        requires
            has_room(Self::spec_write(self@, version), *old(buf)),
        ensures
            wrote(Self::spec_write(self@, version), *old(buf), *final(buf), r),
    {
        let ghost m = self@;
        proof {
            reveal(LeaderEndpoint::spec_write_name);
            reveal(LeaderEndpoint::spec_write_host);
            reveal(LeaderEndpoint::spec_write_port);
            reveal(LeaderEndpoint::spec_write_tags);
        }
        let ghost s0 = Self::spec_write_name(m, version);
        let ghost w0 = s0;
        let ghost s1 = Self::spec_write_host(m, version);
        let ghost w1 = chain(w0, s1);
        let ghost s2 = Self::spec_write_port(m, version);
        let ghost w2 = chain(w1, s2);
        let ghost s3 = Self::spec_write_tags(m, version);
        let ghost w3 = chain(w2, s3);
        assert(Self::spec_write(m, version) == w3);
        assert(written(w2).len() <= written(w3).len() && (w2 is Err ==> w3 == w2));
        assert(written(w1).len() <= written(w3).len() && (w1 is Err ==> w3 == w1));
        assert(written(w0).len() <= written(w3).len() && (w0 is Err ==> w3 == w0));
        let ghost mid = bytes_mut_seq(*buf);
        proof {
            lemma_append_empty(mid);
        }
        let r0 = write_compact_string(buf, &self.name);
        assert(bytes_mut_seq(*buf) == mid + written(s0));
        if r0.is_err() {
            return r0;
        }
        let ghost mid = bytes_mut_seq(*buf);
        proof {
            lemma_append_empty(mid);
        }
        let r1 = write_compact_string(buf, &self.host);
        assert(bytes_mut_seq(*buf) == mid + written(s1));
        proof {
            lemma_step(bytes_mut_seq(*old(buf)), w0, s1);
        }
        if r1.is_err() {
            return r1;
        }
        let ghost mid = bytes_mut_seq(*buf);
        proof {
            lemma_append_empty(mid);
        }
        let r2 = {
            write_u16(buf, self.port);
            Ok(())
        };
        assert(bytes_mut_seq(*buf) == mid + written(s2));
        proof {
            lemma_step(bytes_mut_seq(*old(buf)), w1, s2);
        }
        if r2.is_err() {
            return r2;
        }
        let ghost mid = bytes_mut_seq(*buf);
        proof {
            lemma_append_empty(mid);
        }
        let r3 = write_tagged_fields(buf, &sort_by_tag(&self._unknown_tagged_fields));
        assert(bytes_mut_seq(*buf) == mid + written(s3));
        proof {
            lemma_step(bytes_mut_seq(*old(buf)), w2, s3);
        }
        if r3.is_err() {
            return r3;
        }
        Ok(())
    }
}

impl Codec for TopicData {
    type Item = TopicData;

    open spec fn spec_read_item(s: Seq<u8>, version: i16) -> ReadOutcome<TopicDataView> {
        TopicData::spec_read(s, version)
    }

    open spec fn spec_write_item(v: TopicDataView, version: i16) -> WriteOutcome {
        TopicData::spec_write(v, version)
    }

    open spec fn canonical_item(v: TopicDataView, version: i16) -> bool {
        TopicData::canonical(v, version)
    }

    proof fn lemma_item_round_trip(v: TopicDataView, version: i16, rest: Seq<u8>) {
        TopicData::lemma_round_trip(v, version, rest);
    }

    open spec fn writable_item(v: TopicDataView, version: i16) -> bool {
        TopicData::writable(v, version)
    }

    proof fn lemma_item_writable(v: TopicDataView, version: i16) {
        TopicData::lemma_writable(v, version);
    }

    fn read_item(buf: &mut Bytes, version: i16) -> (r: Result<TopicData, Error>) {
        TopicData::read(buf, version)
    }

    fn write_item(item: &TopicData, buf: &mut BytesMut, version: i16) -> (r: Result<(), Error>) {
        item.write(buf, version)
    }
}

impl Codec for PartitionData {
    type Item = PartitionData;

    open spec fn spec_read_item(s: Seq<u8>, version: i16) -> ReadOutcome<PartitionDataView> {
        PartitionData::spec_read(s, version)
    }

    open spec fn spec_write_item(v: PartitionDataView, version: i16) -> WriteOutcome {
        PartitionData::spec_write(v, version)
    }

    open spec fn canonical_item(v: PartitionDataView, version: i16) -> bool {
        PartitionData::canonical(v, version)
    }

    proof fn lemma_item_round_trip(v: PartitionDataView, version: i16, rest: Seq<u8>) {
        PartitionData::lemma_round_trip(v, version, rest);
    }

    open spec fn writable_item(v: PartitionDataView, version: i16) -> bool {
        PartitionData::writable(v, version)
    }

    proof fn lemma_item_writable(v: PartitionDataView, version: i16) {
        PartitionData::lemma_writable(v, version);
    }

    fn read_item(buf: &mut Bytes, version: i16) -> (r: Result<PartitionData, Error>) {
        PartitionData::read(buf, version)
    }

    fn write_item(item: &PartitionData, buf: &mut BytesMut, version: i16) -> (r: Result<(), Error>) {
        item.write(buf, version)
    }
}

impl Codec for ReplicaInfo {
    type Item = ReplicaInfo;

    open spec fn spec_read_item(s: Seq<u8>, version: i16) -> ReadOutcome<ReplicaInfoView> {
        ReplicaInfo::spec_read(s, version)
    }

    open spec fn spec_write_item(v: ReplicaInfoView, version: i16) -> WriteOutcome {
        ReplicaInfo::spec_write(v, version)
    }

    open spec fn canonical_item(v: ReplicaInfoView, version: i16) -> bool {
        ReplicaInfo::canonical(v, version)
    }

    proof fn lemma_item_round_trip(v: ReplicaInfoView, version: i16, rest: Seq<u8>) {
        ReplicaInfo::lemma_round_trip(v, version, rest);
    }

    open spec fn writable_item(v: ReplicaInfoView, version: i16) -> bool {
        ReplicaInfo::writable(v, version)
    }

    proof fn lemma_item_writable(v: ReplicaInfoView, version: i16) {
        ReplicaInfo::lemma_writable(v, version);
    }

    fn read_item(buf: &mut Bytes, version: i16) -> (r: Result<ReplicaInfo, Error>) {
        ReplicaInfo::read(buf, version)
    }

    fn write_item(item: &ReplicaInfo, buf: &mut BytesMut, version: i16) -> (r: Result<(), Error>) {
        item.write(buf, version)
    }
}

impl Codec for LeaderEndpoint {
    type Item = LeaderEndpoint;

    open spec fn spec_read_item(s: Seq<u8>, version: i16) -> ReadOutcome<LeaderEndpointView> {
        LeaderEndpoint::spec_read(s, version)
    }

    open spec fn spec_write_item(v: LeaderEndpointView, version: i16) -> WriteOutcome {
        LeaderEndpoint::spec_write(v, version)
    }

    open spec fn canonical_item(v: LeaderEndpointView, version: i16) -> bool {
        LeaderEndpoint::canonical(v, version)
    }

    proof fn lemma_item_round_trip(v: LeaderEndpointView, version: i16, rest: Seq<u8>) {
        LeaderEndpoint::lemma_round_trip(v, version, rest);
    }

    open spec fn writable_item(v: LeaderEndpointView, version: i16) -> bool {
        LeaderEndpoint::writable(v, version)
    }

    proof fn lemma_item_writable(v: LeaderEndpointView, version: i16) {
        LeaderEndpoint::lemma_writable(v, version);
    }

    fn read_item(buf: &mut Bytes, version: i16) -> (r: Result<LeaderEndpoint, Error>) {
        LeaderEndpoint::read(buf, version)
    }

    fn write_item(item: &LeaderEndpoint, buf: &mut BytesMut, version: i16) -> (r: Result<(), Error>) {
        item.write(buf, version)
    }
}

} // verus!
