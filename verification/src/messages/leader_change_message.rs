//! The leader change message message.
use crate::buffer::{bytes_mut_seq, bytes_seq};
use crate::codec::{Codec, all_canonical, all_writable, lemma_array_round_trip, lemma_array_writable, read_array, spec_read_array, spec_write_array, write_array};
use crate::error::{Error};
use crate::ints::{lemma_i16_roundtrip, lemma_i32_roundtrip, read_i16, read_i32, spec_read_i16, spec_read_i32, spec_write_i16, spec_write_i32, u16_bytes, u32_bytes, u64_bytes, write_i16, write_i32};
use crate::strings::{lemma_uuid_round_trip, read_uuid, spec_read_uuid, spec_write_uuid, write_uuid};
use crate::tagged::{lemma_sorted_by_tag_in_order, lemma_sorted_tags_fit, lemma_tagged_fields_round_trip, lemma_tagged_fields_writable, read_tagged_fields, sort_by_tag, sorted_by_tag, spec_read_tagged_fields, spec_write_tagged_fields, tags_fit, tags_in_order, write_tagged_fields};
use crate::types::{KafkaUuid, RawTaggedField};
use crate::wire::{ReadOutcome, ViewClone, WriteOutcome, chain, clone_vec, emit, empty_vec, has_room, lemma_append_empty, lemma_chain_written, lemma_step, read_as, read_vec_as, took_front, views, written, wrote};
use bytes::{Bytes, BytesMut};
use vstd::prelude::*;

verus! {

broadcast use {crate::wire::lemma_chain_written, crate::wire::lemma_took_front_nothing, crate::wire::lemma_took_front_twice};

#[derive(Debug, PartialEq)]
pub struct LeaderChangeMessageData {
    /// The version of the leader change message.
    pub version: i16,
    /// The ID of the newly elected leader.
    pub leader_id: i32,
    /// The set of voters in the quorum for this epoch.
    pub voters: Vec<Voter>,
    /// The voters who voted for the leader at the time of election.
    pub granting_voters: Vec<Voter>,
    pub _unknown_tagged_fields: Vec<RawTaggedField>,
}

/// What a `LeaderChangeMessageData` holds, as the specification sees it.
#[verifier::ext_equal]
pub struct LeaderChangeMessageDataView {
    pub version: i16,
    pub leader_id: i32,
    pub voters: Seq<VoterView>,
    pub granting_voters: Seq<VoterView>,
    pub unknown_tagged_fields: Seq<(u32, Seq<u8>)>,
}

impl View for LeaderChangeMessageData {
    type V = LeaderChangeMessageDataView;

    open spec fn view(&self) -> LeaderChangeMessageDataView {
        LeaderChangeMessageDataView {
            version: self.version,
            leader_id: self.leader_id,
            voters: views(self.voters@),
            granting_voters: views(self.granting_voters@),
            unknown_tagged_fields: views(self._unknown_tagged_fields@),
        }
    }
}

impl Clone for LeaderChangeMessageData {
    fn clone(&self) -> (r: Self)
        ensures
            r@ == self@,
    {
        let r = LeaderChangeMessageData {
            version: self.version,
            leader_id: self.leader_id,
            voters: clone_vec(&self.voters),
            granting_voters: clone_vec(&self.granting_voters),
            _unknown_tagged_fields: clone_vec(&self._unknown_tagged_fields),
        };
        assert(r@ =~= self@);
        r
    }
}

impl ViewClone for LeaderChangeMessageData {
    fn clone_view(&self) -> (r: Self) {
        self.clone()
    }
}

impl Default for LeaderChangeMessageData {
    fn default() -> (r: Self)
        ensures
            r@ == Self::default_view(),
    {
        let r = LeaderChangeMessageData {
            version: 0_i16,
            leader_id: 0_i32,
            voters: empty_vec(),
            granting_voters: empty_vec(),
            _unknown_tagged_fields: empty_vec(),
        };
        assert(r@ =~= Self::default_view());
        r
    }
}

impl LeaderChangeMessageData {
    pub open spec fn default_view() -> LeaderChangeMessageDataView {
        LeaderChangeMessageDataView {
            version: 0_i16,
            leader_id: 0_i32,
            voters: Seq::empty(),
            granting_voters: Seq::empty(),
            unknown_tagged_fields: Seq::empty(),
        }
    }

    /// The `version` field, read from the front of `s`.
    #[verifier::opaque]
    pub open spec fn spec_read_version(s: Seq<u8>, version: i16) -> ReadOutcome<i16> {
        spec_read_i16(s)
    }

    /// The `leader_id` field, read from the front of `s`.
    #[verifier::opaque]
    pub open spec fn spec_read_leader_id(s: Seq<u8>, version: i16) -> ReadOutcome<i32> {
        spec_read_i32(s)
    }

    /// The `voters` field, read from the front of `s`.
    #[verifier::opaque]
    pub open spec fn spec_read_voters(s: Seq<u8>, version: i16) -> ReadOutcome<Seq<VoterView>> {
        spec_read_array::<Voter>(s, version, true)
    }

    /// The `granting_voters` field, read from the front of `s`.
    #[verifier::opaque]
    pub open spec fn spec_read_granting_voters(s: Seq<u8>, version: i16) -> ReadOutcome<Seq<VoterView>> {
        spec_read_array::<Voter>(s, version, true)
    }

    /// The tagged fields, read from the front of `s`.
    #[verifier::opaque]
    pub open spec fn spec_read_tags(s: Seq<u8>, version: i16) -> ReadOutcome<Seq<(u32, Seq<u8>)>> {
        spec_read_tagged_fields(s)
    }

    pub open spec fn spec_read(s: Seq<u8>, version: i16) -> ReadOutcome<LeaderChangeMessageDataView> {
        match (Self::spec_read_version(s, version)) {
            Err(e) => Err(e),
            Ok((version_, s)) => match (Self::spec_read_leader_id(s, version)) {
                Err(e) => Err(e),
                Ok((leader_id, s)) => match (Self::spec_read_voters(s, version)) {
                    Err(e) => Err(e),
                    Ok((voters, s)) => match (Self::spec_read_granting_voters(s, version)) {
                        Err(e) => Err(e),
                        Ok((granting_voters, s)) => match (Self::spec_read_tags(s, version)) {
                            Err(e) => Err(e),
                            Ok((unknown_tagged_fields, s)) => Ok((LeaderChangeMessageDataView {
                                        version: version_,
                                        leader_id: leader_id,
                                        voters: voters,
                                        granting_voters: granting_voters,
                                        unknown_tagged_fields: unknown_tagged_fields,
                                    }, s)),
                        },
                    },
                },
            },
        }
    }

    /// What writing the `version` field of `m` appends.
    #[verifier::opaque]
    pub open spec fn spec_write_version(m: LeaderChangeMessageDataView, version: i16) -> WriteOutcome {
        spec_write_i16(m.version)
    }

    /// What writing the `leader_id` field of `m` appends.
    #[verifier::opaque]
    pub open spec fn spec_write_leader_id(m: LeaderChangeMessageDataView, version: i16) -> WriteOutcome {
        spec_write_i32(m.leader_id)
    }

    /// What writing the `voters` field of `m` appends.
    #[verifier::opaque]
    pub open spec fn spec_write_voters(m: LeaderChangeMessageDataView, version: i16) -> WriteOutcome {
        spec_write_array::<Voter>(m.voters, version, true)
    }

    /// What writing the `granting_voters` field of `m` appends.
    #[verifier::opaque]
    pub open spec fn spec_write_granting_voters(m: LeaderChangeMessageDataView, version: i16) -> WriteOutcome {
        spec_write_array::<Voter>(m.granting_voters, version, true)
    }

    /// What writing the tagged fields of `m` appends.
    #[verifier::opaque]
    pub open spec fn spec_write_tags(m: LeaderChangeMessageDataView, version: i16) -> WriteOutcome {
        spec_write_tagged_fields(sorted_by_tag(m.unknown_tagged_fields))
    }

    pub open spec fn spec_write(m: LeaderChangeMessageDataView, version: i16) -> WriteOutcome {
        chain(
            chain(
                chain(
                    chain(
                        Self::spec_write_version(m, version),
                        Self::spec_write_leader_id(m, version),
                    ),
                    Self::spec_write_voters(m, version),
                ),
                Self::spec_write_granting_voters(m, version),
            ),
            Self::spec_write_tags(m, version),
        )
    }

    /// Whether reading back what writing `m` in `version` appends gives `m`:
    /// fields that the version does not carry hold their default values, and
    /// tagged fields come in the order in which they are written.
    pub open spec fn canonical(m: LeaderChangeMessageDataView, version: i16) -> bool {
        &&& all_canonical::<Voter>(m.voters, version)
        &&& all_canonical::<Voter>(m.granting_voters, version)
        &&& tags_in_order(m.unknown_tagged_fields)
    }

    proof fn lemma_round_trip_version(m: LeaderChangeMessageDataView, version: i16, rest: Seq<u8>)
        requires
            Self::canonical(m, version),
            Self::spec_write_version(m, version) is Ok,
        ensures
            Self::spec_read_version(written(Self::spec_write_version(m, version)) + rest, version) == Ok::<(i16, Seq<u8>), Error>((m.version, rest)),
    {
        reveal(LeaderChangeMessageData::spec_read_version);
        reveal(LeaderChangeMessageData::spec_write_version);
        lemma_i16_roundtrip(m.version, rest);
    }

    proof fn lemma_round_trip_leader_id(m: LeaderChangeMessageDataView, version: i16, rest: Seq<u8>)
        requires
            Self::canonical(m, version),
            Self::spec_write_leader_id(m, version) is Ok,
        ensures
            Self::spec_read_leader_id(written(Self::spec_write_leader_id(m, version)) + rest, version) == Ok::<(i32, Seq<u8>), Error>((m.leader_id, rest)),
    {
        reveal(LeaderChangeMessageData::spec_read_leader_id);
        reveal(LeaderChangeMessageData::spec_write_leader_id);
        lemma_i32_roundtrip(m.leader_id, rest);
    }

    proof fn lemma_round_trip_voters(m: LeaderChangeMessageDataView, version: i16, rest: Seq<u8>)
        requires
            Self::canonical(m, version),
            Self::spec_write_voters(m, version) is Ok,
        ensures
            Self::spec_read_voters(written(Self::spec_write_voters(m, version)) + rest, version) == Ok::<(Seq<VoterView>, Seq<u8>), Error>((m.voters, rest)),
    {
        reveal(LeaderChangeMessageData::spec_read_voters);
        reveal(LeaderChangeMessageData::spec_write_voters);
        lemma_array_round_trip::<Voter>(m.voters, version, true, rest);
    }

    proof fn lemma_round_trip_granting_voters(m: LeaderChangeMessageDataView, version: i16, rest: Seq<u8>)
        requires
            Self::canonical(m, version),
            Self::spec_write_granting_voters(m, version) is Ok,
        ensures
            Self::spec_read_granting_voters(written(Self::spec_write_granting_voters(m, version)) + rest, version) == Ok::<(Seq<VoterView>, Seq<u8>), Error>((m.granting_voters, rest)),
    {
        reveal(LeaderChangeMessageData::spec_read_granting_voters);
        reveal(LeaderChangeMessageData::spec_write_granting_voters);
        lemma_array_round_trip::<Voter>(m.granting_voters, version, true, rest);
    }

    proof fn lemma_round_trip_tags(m: LeaderChangeMessageDataView, version: i16, rest: Seq<u8>)
        requires
            Self::canonical(m, version),
            Self::spec_write_tags(m, version) is Ok,
        ensures
            Self::spec_read_tags(written(Self::spec_write_tags(m, version)) + rest, version) == Ok::<(Seq<(u32, Seq<u8>)>, Seq<u8>), Error>((m.unknown_tagged_fields, rest)),
    {
        reveal(LeaderChangeMessageData::spec_read_tags);
        reveal(LeaderChangeMessageData::spec_write_tags);
        lemma_sorted_by_tag_in_order(m.unknown_tagged_fields);
        lemma_tagged_fields_round_trip(m.unknown_tagged_fields, rest);
    }

    /// Reading back what writing `m` in `version` appends gives `m` again, and
    /// leaves what follows, for every canonical message whose write succeeds.
    #[verifier::rlimit(90)]
    #[verifier::spinoff_prover]
    pub proof fn lemma_round_trip(m: LeaderChangeMessageDataView, version: i16, rest: Seq<u8>)
        requires
            Self::canonical(m, version),
            Self::spec_write(m, version) is Ok,
        ensures
            Self::spec_read(written(Self::spec_write(m, version)) + rest, version) == Ok::<(LeaderChangeMessageDataView, Seq<u8>), Error>((m, rest)),
    {
        let b0 = written(Self::spec_write_version(m, version));
        let b1 = written(Self::spec_write_leader_id(m, version));
        let b2 = written(Self::spec_write_voters(m, version));
        let b3 = written(Self::spec_write_granting_voters(m, version));
        let b4 = written(Self::spec_write_tags(m, version));
        let t5 = rest;
        let t4 = b4 + t5;
        let t3 = b3 + t4;
        let t2 = b2 + t3;
        let t1 = b1 + t2;
        let t0 = b0 + t1;
        let w0 = Self::spec_write_version(m, version);
        let w1 = chain(w0, Self::spec_write_leader_id(m, version));
        let w2 = chain(w1, Self::spec_write_voters(m, version));
        let w3 = chain(w2, Self::spec_write_granting_voters(m, version));
        let w4 = chain(w3, Self::spec_write_tags(m, version));
        assert(Self::spec_write(m, version) == w4);
        assert(written(w4) + t5 =~= written(w3) + t4);
        assert(written(w3) + t4 =~= written(w2) + t3);
        assert(written(w2) + t3 =~= written(w1) + t2);
        assert(written(w1) + t2 =~= written(w0) + t1);
        Self::lemma_round_trip_version(m, version, t1);
        Self::lemma_round_trip_leader_id(m, version, t2);
        Self::lemma_round_trip_voters(m, version, t3);
        Self::lemma_round_trip_granting_voters(m, version, t4);
        Self::lemma_round_trip_tags(m, version, t5);
    }

    /// The default message holds the default value of each field of the schema.
    pub proof fn lemma_default_values()
        ensures
            Self::default_view().version == (0_i16),
            Self::default_view().leader_id == (0_i32),
            Self::default_view().voters.len() == 0,
            Self::default_view().granting_voters.len() == 0,
            Self::default_view().unknown_tagged_fields.len() == 0,
    {
    }

    /// Each integer, boolean and identifier field is written as its standard
    /// big-endian bytes (a boolean as `1` or `0`) in the versions that carry
    /// it, and as nothing in the others; reading it takes those bytes back (any
    /// byte other than `0` reads as `true`), or gives its default value.
    pub proof fn lemma_field_encodings(m: LeaderChangeMessageDataView, s: Seq<u8>, version: i16)
        ensures
            true ==> Self::spec_write_version(m, version) == Ok::<Seq<u8>, (Error, Seq<u8>)>(u16_bytes(m.version as u16)),
            true ==> Self::spec_write_leader_id(m, version) == Ok::<Seq<u8>, (Error, Seq<u8>)>(u32_bytes(m.leader_id as u32)),
            true ==> Self::spec_read_version(s, version) == spec_read_i16(s),
            true ==> Self::spec_read_leader_id(s, version) == spec_read_i32(s),
    {
        reveal(LeaderChangeMessageData::spec_write_version);
        reveal(LeaderChangeMessageData::spec_read_version);
        reveal(LeaderChangeMessageData::spec_write_leader_id);
        reveal(LeaderChangeMessageData::spec_read_leader_id);
    }

    /// Whether writing `m` in `version` succeeds, said over its parts: the
    /// version is one the schema covers, every field that the version cannot
    /// carry holds its default value, and every string, byte string, array and
    /// tagged field fits its length prefix.
    pub open spec fn writable(m: LeaderChangeMessageDataView, version: i16) -> bool {
        &&& (m.voters.len() <= i32::MAX && all_writable::<Voter>(m.voters, version))
        &&& (m.granting_voters.len() <= i32::MAX && all_writable::<Voter>(m.granting_voters, version))
        &&& m.unknown_tagged_fields.len() <= u32::MAX && tags_fit(m.unknown_tagged_fields)
    }

    proof fn lemma_writable_version(m: LeaderChangeMessageDataView, version: i16)
        ensures
            Self::spec_write_version(m, version) is Ok <==> true,
    {
        reveal(LeaderChangeMessageData::spec_write_version);
    }

    proof fn lemma_writable_leader_id(m: LeaderChangeMessageDataView, version: i16)
        ensures
            Self::spec_write_leader_id(m, version) is Ok <==> true,
    {
        reveal(LeaderChangeMessageData::spec_write_leader_id);
    }

    proof fn lemma_writable_voters(m: LeaderChangeMessageDataView, version: i16)
        ensures
            Self::spec_write_voters(m, version) is Ok <==> (m.voters.len() <= i32::MAX && all_writable::<Voter>(m.voters, version)),
    {
        reveal(LeaderChangeMessageData::spec_write_voters);
        lemma_array_writable::<Voter>(m.voters, version, true);
    }

    proof fn lemma_writable_granting_voters(m: LeaderChangeMessageDataView, version: i16)
        ensures
            Self::spec_write_granting_voters(m, version) is Ok <==> (m.granting_voters.len() <= i32::MAX && all_writable::<Voter>(m.granting_voters, version)),
    {
        reveal(LeaderChangeMessageData::spec_write_granting_voters);
        lemma_array_writable::<Voter>(m.granting_voters, version, true);
    }

    proof fn lemma_writable_tags(m: LeaderChangeMessageDataView, version: i16)
        ensures
            Self::spec_write_tags(m, version) is Ok <==> m.unknown_tagged_fields.len() <= u32::MAX && tags_fit(m.unknown_tagged_fields),
    {
        reveal(LeaderChangeMessageData::spec_write_tags);
        lemma_sorted_tags_fit(m.unknown_tagged_fields);
        lemma_tagged_fields_writable(sorted_by_tag(m.unknown_tagged_fields));
    }

    /// Writing `m` in `version` succeeds exactly when `m` is writable in it;
    /// so do `write` and `encoded_len`, whose results follow `spec_write`.
    #[verifier::rlimit(60)]
    pub proof fn lemma_writable(m: LeaderChangeMessageDataView, version: i16)
        ensures
            Self::spec_write(m, version) is Ok <==> Self::writable(m, version),
    {
        Self::lemma_writable_version(m, version);
        Self::lemma_writable_leader_id(m, version);
        Self::lemma_writable_voters(m, version);
        Self::lemma_writable_granting_voters(m, version);
        Self::lemma_writable_tags(m, version);
    }

    fn read_version(buf: &mut Bytes, version: i16) -> (r: Result<i16, Error>)
        ensures
            read_as(Self::spec_read_version(bytes_seq(*old(buf)), version), *final(buf), r),
            took_front(*old(buf), *final(buf)),
    {
        proof {
            reveal(LeaderChangeMessageData::spec_read_version);
        }
        Ok(read_i16(buf)?)
    }

    fn read_leader_id(buf: &mut Bytes, version: i16) -> (r: Result<i32, Error>)
        ensures
            read_as(Self::spec_read_leader_id(bytes_seq(*old(buf)), version), *final(buf), r),
            took_front(*old(buf), *final(buf)),
    {
        proof {
            reveal(LeaderChangeMessageData::spec_read_leader_id);
        }
        Ok(read_i32(buf)?)
    }

    fn read_voters(buf: &mut Bytes, version: i16) -> (r: Result<Vec<Voter>, Error>)
        ensures
            read_vec_as(Self::spec_read_voters(bytes_seq(*old(buf)), version), *final(buf), r),
            took_front(*old(buf), *final(buf)),
    {
        proof {
            reveal(LeaderChangeMessageData::spec_read_voters);
        }
        Ok(read_array::<Voter>(buf, version, true)?)
    }

    fn read_granting_voters(buf: &mut Bytes, version: i16) -> (r: Result<Vec<Voter>, Error>)
        ensures
            read_vec_as(Self::spec_read_granting_voters(bytes_seq(*old(buf)), version), *final(buf), r),
            took_front(*old(buf), *final(buf)),
    {
        proof {
            reveal(LeaderChangeMessageData::spec_read_granting_voters);
        }
        Ok(read_array::<Voter>(buf, version, true)?)
    }

    fn read_tags(buf: &mut Bytes, version: i16) -> (r: Result<Vec<RawTaggedField>, Error>)
        ensures
            read_vec_as(Self::spec_read_tags(bytes_seq(*old(buf)), version), *final(buf), r),
            took_front(*old(buf), *final(buf)),
    {
        proof {
            reveal(LeaderChangeMessageData::spec_read_tags);
        }
        Ok(read_tagged_fields(buf)?)
    }

    pub fn read(buf: &mut Bytes, version: i16) -> (r: Result<Self, Error>)
        ensures
            read_as(Self::spec_read(bytes_seq(*old(buf)), version), *final(buf), r),
            took_front(*old(buf), *final(buf)),
    {
        let version_ = Self::read_version(buf, version)?;
        let leader_id = Self::read_leader_id(buf, version)?;
        let voters = Self::read_voters(buf, version)?;
        let granting_voters = Self::read_granting_voters(buf, version)?;
        let _unknown_tagged_fields = Self::read_tags(buf, version)?;
        Ok(LeaderChangeMessageData {
                version: version_,
                leader_id: leader_id,
                voters: voters,
                granting_voters: granting_voters,
                _unknown_tagged_fields: _unknown_tagged_fields,
        })
    }

    #[verifier::rlimit(80)]
    pub fn write(&self, buf: &mut BytesMut, version: i16) -> (r: Result<(), Error>)
        requires
            has_room(Self::spec_write(self@, version), *old(buf)),
        ensures
            wrote(Self::spec_write(self@, version), *old(buf), *final(buf), r),
    {
        let ghost m = self@;
        proof {
            reveal(LeaderChangeMessageData::spec_write_version);
            reveal(LeaderChangeMessageData::spec_write_leader_id);
            reveal(LeaderChangeMessageData::spec_write_voters);
            reveal(LeaderChangeMessageData::spec_write_granting_voters);
            reveal(LeaderChangeMessageData::spec_write_tags);
        }
        let ghost s0 = Self::spec_write_version(m, version);
        let ghost w0 = s0;
        let ghost s1 = Self::spec_write_leader_id(m, version);
        let ghost w1 = chain(w0, s1);
        let ghost s2 = Self::spec_write_voters(m, version);
        let ghost w2 = chain(w1, s2);
        let ghost s3 = Self::spec_write_granting_voters(m, version);
        let ghost w3 = chain(w2, s3);
        let ghost s4 = Self::spec_write_tags(m, version);
        let ghost w4 = chain(w3, s4);
        assert(Self::spec_write(m, version) == w4);
        assert(written(w3).len() <= written(w4).len() && (w3 is Err ==> w4 == w3));
        assert(written(w2).len() <= written(w4).len() && (w2 is Err ==> w4 == w2));
        assert(written(w1).len() <= written(w4).len() && (w1 is Err ==> w4 == w1));
        assert(written(w0).len() <= written(w4).len() && (w0 is Err ==> w4 == w0));
        let ghost mid = bytes_mut_seq(*buf);
        proof {
            lemma_append_empty(mid);
        }
        let r0 = {
            write_i16(buf, self.version);
            Ok(())
        };
        assert(bytes_mut_seq(*buf) == mid + written(s0));
        if r0.is_err() {
            return r0;
        }
        let ghost mid = bytes_mut_seq(*buf);
        proof {
            lemma_append_empty(mid);
        }
        let r1 = {
            write_i32(buf, self.leader_id);
            Ok(())
        };
        assert(bytes_mut_seq(*buf) == mid + written(s1));
        proof {
            lemma_step(bytes_mut_seq(*old(buf)), w0, s1);
        }
        if r1.is_err() {
            return r1;
        }
        let ghost mid = bytes_mut_seq(*buf);
        proof {
            lemma_append_empty(mid);
        }
        let r2 = write_array::<Voter>(buf, &self.voters, version, true);
        assert(bytes_mut_seq(*buf) == mid + written(s2));
        proof {
            lemma_step(bytes_mut_seq(*old(buf)), w1, s2);
        }
        if r2.is_err() {
            return r2;
        }
        let ghost mid = bytes_mut_seq(*buf);
        proof {
            lemma_append_empty(mid);
        }
        let r3 = write_array::<Voter>(buf, &self.granting_voters, version, true);
        assert(bytes_mut_seq(*buf) == mid + written(s3));
        proof {
            lemma_step(bytes_mut_seq(*old(buf)), w2, s3);
        }
        if r3.is_err() {
            return r3;
        }
        let ghost mid = bytes_mut_seq(*buf);
        proof {
            lemma_append_empty(mid);
        }
        let r4 = write_tagged_fields(buf, &sort_by_tag(&self._unknown_tagged_fields));
        assert(bytes_mut_seq(*buf) == mid + written(s4));
        proof {
            lemma_step(bytes_mut_seq(*old(buf)), w3, s4);
        }
        if r4.is_err() {
            return r4;
        }
        Ok(())
    }
}

#[derive(Debug, PartialEq)]
pub struct Voter {
    /// The ID of the voter.
    pub voter_id: i32,
    /// The directory id of the voter.
    pub voter_directory_id: KafkaUuid,
    pub _unknown_tagged_fields: Vec<RawTaggedField>,
}

/// What a `Voter` holds, as the specification sees it.
#[verifier::ext_equal]
pub struct VoterView {
    pub voter_id: i32,
    pub voter_directory_id: KafkaUuid,
    pub unknown_tagged_fields: Seq<(u32, Seq<u8>)>,
}

impl View for Voter {
    type V = VoterView;

    open spec fn view(&self) -> VoterView {
        VoterView {
            voter_id: self.voter_id,
            voter_directory_id: self.voter_directory_id,
            unknown_tagged_fields: views(self._unknown_tagged_fields@),
        }
    }
}

impl Clone for Voter {
    fn clone(&self) -> (r: Self)
        ensures
            r@ == self@,
    {
        let r = Voter {
            voter_id: self.voter_id,
            voter_directory_id: self.voter_directory_id,
            _unknown_tagged_fields: clone_vec(&self._unknown_tagged_fields),
        };
        assert(r@ =~= self@);
        r
    }
}

impl ViewClone for Voter {
    fn clone_view(&self) -> (r: Self) {
        self.clone()
    }
}

impl Default for Voter {
    fn default() -> (r: Self)
        ensures
            r@ == Self::default_view(),
    {
        let r = Voter {
            voter_id: 0_i32,
            voter_directory_id: KafkaUuid::zero(),
            _unknown_tagged_fields: empty_vec(),
        };
        assert(r@ =~= Self::default_view());
        r
    }
}

impl Voter {
    pub open spec fn default_view() -> VoterView {
        VoterView {
            voter_id: 0_i32,
            voter_directory_id: KafkaUuid { most_significant_bits: 0, least_significant_bits: 0 },
            unknown_tagged_fields: Seq::empty(),
        }
    }

    /// The `voter_id` field, read from the front of `s`.
    #[verifier::opaque]
    pub open spec fn spec_read_voter_id(s: Seq<u8>, version: i16) -> ReadOutcome<i32> {
        spec_read_i32(s)
    }

    /// The `voter_directory_id` field, read from the front of `s`.
    #[verifier::opaque]
    pub open spec fn spec_read_voter_directory_id(s: Seq<u8>, version: i16) -> ReadOutcome<KafkaUuid> {
        if version >= 1 {
            spec_read_uuid(s)
        } else {
            Ok((KafkaUuid { most_significant_bits: 0, least_significant_bits: 0 }, s))
        }
    }

    /// The tagged fields, read from the front of `s`.
    #[verifier::opaque]
    pub open spec fn spec_read_tags(s: Seq<u8>, version: i16) -> ReadOutcome<Seq<(u32, Seq<u8>)>> {
        spec_read_tagged_fields(s)
    }

    pub open spec fn spec_read(s: Seq<u8>, version: i16) -> ReadOutcome<VoterView> {
        match (Self::spec_read_voter_id(s, version)) {
            Err(e) => Err(e),
            Ok((voter_id, s)) => match (Self::spec_read_voter_directory_id(s, version)) {
                Err(e) => Err(e),
                Ok((voter_directory_id, s)) => match (Self::spec_read_tags(s, version)) {
                    Err(e) => Err(e),
                    Ok((unknown_tagged_fields, s)) => Ok((VoterView {
                                voter_id: voter_id,
                                voter_directory_id: voter_directory_id,
                                unknown_tagged_fields: unknown_tagged_fields,
                            }, s)),
                },
            },
        }
    }

    /// What writing the `voter_id` field of `m` appends.
    #[verifier::opaque]
    pub open spec fn spec_write_voter_id(m: VoterView, version: i16) -> WriteOutcome {
        spec_write_i32(m.voter_id)
    }

    /// What writing the `voter_directory_id` field of `m` appends.
    #[verifier::opaque]
    pub open spec fn spec_write_voter_directory_id(m: VoterView, version: i16) -> WriteOutcome {
        if version >= 1 {
            spec_write_uuid(m.voter_directory_id)
        } else {
            emit(Seq::empty())
        }
    }

    /// What writing the tagged fields of `m` appends.
    #[verifier::opaque]
    pub open spec fn spec_write_tags(m: VoterView, version: i16) -> WriteOutcome {
        spec_write_tagged_fields(sorted_by_tag(m.unknown_tagged_fields))
    }

    pub open spec fn spec_write(m: VoterView, version: i16) -> WriteOutcome {
        chain(
            chain(
                Self::spec_write_voter_id(m, version),
                Self::spec_write_voter_directory_id(m, version),
            ),
            Self::spec_write_tags(m, version),
        )
    }

    /// Whether reading back what writing `m` in `version` appends gives `m`:
    /// fields that the version does not carry hold their default values, and
    /// tagged fields come in the order in which they are written.
    pub open spec fn canonical(m: VoterView, version: i16) -> bool {
        &&& (if version >= 1 {
                true
            } else {
                m.voter_directory_id == KafkaUuid { most_significant_bits: 0, least_significant_bits: 0 }
        })
        &&& tags_in_order(m.unknown_tagged_fields)
    }

    proof fn lemma_round_trip_voter_id(m: VoterView, version: i16, rest: Seq<u8>)
        requires
            Self::canonical(m, version),
            Self::spec_write_voter_id(m, version) is Ok,
        ensures
            Self::spec_read_voter_id(written(Self::spec_write_voter_id(m, version)) + rest, version) == Ok::<(i32, Seq<u8>), Error>((m.voter_id, rest)),
    {
        reveal(Voter::spec_read_voter_id);
        reveal(Voter::spec_write_voter_id);
        lemma_i32_roundtrip(m.voter_id, rest);
    }

    proof fn lemma_round_trip_voter_directory_id(m: VoterView, version: i16, rest: Seq<u8>)
        requires
            Self::canonical(m, version),
            Self::spec_write_voter_directory_id(m, version) is Ok,
        ensures
            Self::spec_read_voter_directory_id(written(Self::spec_write_voter_directory_id(m, version)) + rest, version) == Ok::<(KafkaUuid, Seq<u8>), Error>((m.voter_directory_id, rest)),
    {
        reveal(Voter::spec_read_voter_directory_id);
        reveal(Voter::spec_write_voter_directory_id);
        if version >= 1 {
            lemma_uuid_round_trip(m.voter_directory_id, rest);
        } else {
            assert(Seq::<u8>::empty() + rest =~= rest);
        }
    }

    proof fn lemma_round_trip_tags(m: VoterView, version: i16, rest: Seq<u8>)
        requires
            Self::canonical(m, version),
            Self::spec_write_tags(m, version) is Ok,
        ensures
            Self::spec_read_tags(written(Self::spec_write_tags(m, version)) + rest, version) == Ok::<(Seq<(u32, Seq<u8>)>, Seq<u8>), Error>((m.unknown_tagged_fields, rest)),
    {
        reveal(Voter::spec_read_tags);
        reveal(Voter::spec_write_tags);
        lemma_sorted_by_tag_in_order(m.unknown_tagged_fields);
        lemma_tagged_fields_round_trip(m.unknown_tagged_fields, rest);
    }

    /// Reading back what writing `m` in `version` appends gives `m` again, and
    /// leaves what follows, for every canonical message whose write succeeds.
    #[verifier::rlimit(70)]
    #[verifier::spinoff_prover]
    pub proof fn lemma_round_trip(m: VoterView, version: i16, rest: Seq<u8>)
        requires
            Self::canonical(m, version),
            Self::spec_write(m, version) is Ok,
        ensures
            Self::spec_read(written(Self::spec_write(m, version)) + rest, version) == Ok::<(VoterView, Seq<u8>), Error>((m, rest)),
    {
        let b0 = written(Self::spec_write_voter_id(m, version));
        let b1 = written(Self::spec_write_voter_directory_id(m, version));
        let b2 = written(Self::spec_write_tags(m, version));
        let t3 = rest;
        let t2 = b2 + t3;
        let t1 = b1 + t2;
        let t0 = b0 + t1;
        let w0 = Self::spec_write_voter_id(m, version);
        let w1 = chain(w0, Self::spec_write_voter_directory_id(m, version));
        let w2 = chain(w1, Self::spec_write_tags(m, version));
        assert(Self::spec_write(m, version) == w2);
        assert(written(w2) + t3 =~= written(w1) + t2);
        assert(written(w1) + t2 =~= written(w0) + t1);
        Self::lemma_round_trip_voter_id(m, version, t1);
        Self::lemma_round_trip_voter_directory_id(m, version, t2);
        Self::lemma_round_trip_tags(m, version, t3);
    }

    /// In a version that does not carry `voter_directory_id`, writing ignores its value.
    pub proof fn lemma_write_ignores_voter_directory_id(m: VoterView, value: KafkaUuid, version: i16)
        requires
            !(version >= 1),
        ensures
            Self::spec_write((VoterView { voter_directory_id: value, ..m }), version) == Self::spec_write(m, version),
    {
        reveal(Voter::spec_write_voter_id);
        reveal(Voter::spec_write_voter_directory_id);
        reveal(Voter::spec_write_tags);
    }

    /// The default message holds the default value of each field of the schema.
    pub proof fn lemma_default_values()
        ensures
            Self::default_view().voter_id == (0_i32),
            Self::default_view().voter_directory_id == (KafkaUuid { most_significant_bits: 0, least_significant_bits: 0 }),
            Self::default_view().unknown_tagged_fields.len() == 0,
    {
    }

    /// Each integer, boolean and identifier field is written as its standard
    /// big-endian bytes (a boolean as `1` or `0`) in the versions that carry
    /// it, and as nothing in the others; reading it takes those bytes back (any
    /// byte other than `0` reads as `true`), or gives its default value.
    pub proof fn lemma_field_encodings(m: VoterView, s: Seq<u8>, version: i16)
        ensures
            true ==> Self::spec_write_voter_id(m, version) == Ok::<Seq<u8>, (Error, Seq<u8>)>(u32_bytes(m.voter_id as u32)),
            version >= 1 ==> Self::spec_write_voter_directory_id(m, version) == Ok::<Seq<u8>, (Error, Seq<u8>)>((u64_bytes(m.voter_directory_id.most_significant_bits) + u64_bytes(m.voter_directory_id.least_significant_bits))),
            !(version >= 1) ==> Self::spec_write_voter_directory_id(m, version) == Ok::<Seq<u8>, (Error, Seq<u8>)>(Seq::empty()),
            true ==> Self::spec_read_voter_id(s, version) == spec_read_i32(s),
            version >= 1 ==> Self::spec_read_voter_directory_id(s, version) == spec_read_uuid(s),
    {
        reveal(Voter::spec_write_voter_id);
        reveal(Voter::spec_read_voter_id);
        reveal(Voter::spec_write_voter_directory_id);
        reveal(Voter::spec_read_voter_directory_id);
    }

    /// Whether writing `m` in `version` succeeds, said over its parts: the
    /// version is one the schema covers, every field that the version cannot
    /// carry holds its default value, and every string, byte string, array and
    /// tagged field fits its length prefix.
    pub open spec fn writable(m: VoterView, version: i16) -> bool {
        &&& m.unknown_tagged_fields.len() <= u32::MAX && tags_fit(m.unknown_tagged_fields)
    }

    proof fn lemma_writable_voter_id(m: VoterView, version: i16)
        ensures
            Self::spec_write_voter_id(m, version) is Ok <==> true,
    {
        reveal(Voter::spec_write_voter_id);
    }

    proof fn lemma_writable_voter_directory_id(m: VoterView, version: i16)
        ensures
            Self::spec_write_voter_directory_id(m, version) is Ok <==> true,
    {
        reveal(Voter::spec_write_voter_directory_id);
    }

    proof fn lemma_writable_tags(m: VoterView, version: i16)
        ensures
            Self::spec_write_tags(m, version) is Ok <==> m.unknown_tagged_fields.len() <= u32::MAX && tags_fit(m.unknown_tagged_fields),
    {
        reveal(Voter::spec_write_tags);
        lemma_sorted_tags_fit(m.unknown_tagged_fields);
        lemma_tagged_fields_writable(sorted_by_tag(m.unknown_tagged_fields));
    }

    /// Writing `m` in `version` succeeds exactly when `m` is writable in it;
    /// so do `write` and `encoded_len`, whose results follow `spec_write`.
    #[verifier::rlimit(48)]
    pub proof fn lemma_writable(m: VoterView, version: i16)
        ensures
            Self::spec_write(m, version) is Ok <==> Self::writable(m, version),
    {
        Self::lemma_writable_voter_id(m, version);
        Self::lemma_writable_voter_directory_id(m, version);
        Self::lemma_writable_tags(m, version);
    }

    fn read_voter_id(buf: &mut Bytes, version: i16) -> (r: Result<i32, Error>)
        ensures
            read_as(Self::spec_read_voter_id(bytes_seq(*old(buf)), version), *final(buf), r),
            took_front(*old(buf), *final(buf)),
    {
        proof {
            reveal(Voter::spec_read_voter_id);
        }
        Ok(read_i32(buf)?)
    }

    fn read_voter_directory_id(buf: &mut Bytes, version: i16) -> (r: Result<KafkaUuid, Error>)
        ensures
            read_as(Self::spec_read_voter_directory_id(bytes_seq(*old(buf)), version), *final(buf), r),
            took_front(*old(buf), *final(buf)),
    {
        proof {
            reveal(Voter::spec_read_voter_directory_id);
        }
        Ok(if version >= 1 {
                read_uuid(buf)?
            } else {
                KafkaUuid::zero()
        })
    }

    fn read_tags(buf: &mut Bytes, version: i16) -> (r: Result<Vec<RawTaggedField>, Error>)
        ensures
            read_vec_as(Self::spec_read_tags(bytes_seq(*old(buf)), version), *final(buf), r),
            took_front(*old(buf), *final(buf)),
    {
        proof {
            reveal(Voter::spec_read_tags);
        }
        Ok(read_tagged_fields(buf)?)
    }

    pub fn read(buf: &mut Bytes, version: i16) -> (r: Result<Self, Error>)
        ensures
            read_as(Self::spec_read(bytes_seq(*old(buf)), version), *final(buf), r),
            took_front(*old(buf), *final(buf)),
    {
        let voter_id = Self::read_voter_id(buf, version)?;
        let voter_directory_id = Self::read_voter_directory_id(buf, version)?;
        let _unknown_tagged_fields = Self::read_tags(buf, version)?;
        Ok(Voter {
                voter_id: voter_id,
                voter_directory_id: voter_directory_id,
                _unknown_tagged_fields: _unknown_tagged_fields,
        })
    }

    #[verifier::rlimit(60)]
    pub fn write(&self, buf: &mut BytesMut, version: i16) -> (r: Result<(), Error>)
        requires
            has_room(Self::spec_write(self@, version), *old(buf)),
        ensures
            wrote(Self::spec_write(self@, version), *old(buf), *final(buf), r),
    {
        let ghost m = self@;
        proof {
            reveal(Voter::spec_write_voter_id);
            reveal(Voter::spec_write_voter_directory_id);
            reveal(Voter::spec_write_tags);
        }
        let ghost s0 = Self::spec_write_voter_id(m, version);
        let ghost w0 = s0;
        let ghost s1 = Self::spec_write_voter_directory_id(m, version);
        let ghost w1 = chain(w0, s1);
        let ghost s2 = Self::spec_write_tags(m, version);
        let ghost w2 = chain(w1, s2);
        assert(Self::spec_write(m, version) == w2);
        assert(written(w1).len() <= written(w2).len() && (w1 is Err ==> w2 == w1));
        assert(written(w0).len() <= written(w2).len() && (w0 is Err ==> w2 == w0));
        let ghost mid = bytes_mut_seq(*buf);
        proof {
            lemma_append_empty(mid);
        }
        let r0 = {
            write_i32(buf, self.voter_id);
            Ok(())
        };
        assert(bytes_mut_seq(*buf) == mid + written(s0));
        if r0.is_err() {
            return r0;
        }
        let ghost mid = bytes_mut_seq(*buf);
        proof {
            lemma_append_empty(mid);
        }
        let r1 = if version >= 1 {
            {
                write_uuid(buf, self.voter_directory_id);
                Ok(())
            }
        } else {
            Ok(())
        };
        assert(bytes_mut_seq(*buf) == mid + written(s1));
        proof {
            lemma_step(bytes_mut_seq(*old(buf)), w0, s1);
        }
        if r1.is_err() {
            return r1;
        }
        let ghost mid = bytes_mut_seq(*buf);
        proof {
            lemma_append_empty(mid);
        }
        let r2 = write_tagged_fields(buf, &sort_by_tag(&self._unknown_tagged_fields));
        assert(bytes_mut_seq(*buf) == mid + written(s2));
        proof {
            lemma_step(bytes_mut_seq(*old(buf)), w1, s2);
        }
        if r2.is_err() {
            return r2;
        }
        Ok(())
    }
}

impl Codec for Voter {
    type Item = Voter;

    open spec fn spec_read_item(s: Seq<u8>, version: i16) -> ReadOutcome<VoterView> {
        Voter::spec_read(s, version)
    }

    open spec fn spec_write_item(v: VoterView, version: i16) -> WriteOutcome {
        Voter::spec_write(v, version)
    }

    open spec fn canonical_item(v: VoterView, version: i16) -> bool {
        Voter::canonical(v, version)
    }

    proof fn lemma_item_round_trip(v: VoterView, version: i16, rest: Seq<u8>) {
        Voter::lemma_round_trip(v, version, rest);
    }

    open spec fn writable_item(v: VoterView, version: i16) -> bool {
        Voter::writable(v, version)
    }

    proof fn lemma_item_writable(v: VoterView, version: i16) {
        Voter::lemma_writable(v, version);
    }

    fn read_item(buf: &mut Bytes, version: i16) -> (r: Result<Voter, Error>) {
        Voter::read(buf, version)
    }

    fn write_item(item: &Voter, buf: &mut BytesMut, version: i16) -> (r: Result<(), Error>) {
        item.write(buf, version)
    }
}

} // verus!
