//! The describe share group offsets response message.
use crate::buffer::{bytes_mut_seq, bytes_seq};
use crate::codec::{Codec, all_canonical, all_writable, lemma_array_round_trip, lemma_array_writable, read_array, spec_read_array, spec_write_array, write_array};
use crate::error::{Error, UnsupportedVersion};
use crate::ints::{lemma_i16_roundtrip, lemma_i32_roundtrip, lemma_i64_roundtrip, read_i16, read_i32, read_i64, spec_read_i16, spec_read_i32, spec_read_i64, spec_write_i16, spec_write_i32, spec_write_i64, u16_bytes, u32_bytes, u64_bytes, write_i16, write_i32, write_i64};
use crate::strings::{lemma_compact_nullable_string_round_trip, lemma_compact_string_round_trip, lemma_uuid_round_trip, read_compact_nullable_string, read_compact_string, read_uuid, spec_read_compact_nullable_string, spec_read_compact_string, spec_read_uuid, spec_write_compact_nullable_string, spec_write_compact_string, spec_write_uuid, write_compact_nullable_string, write_compact_string, write_uuid};
use crate::tagged::{lemma_sorted_by_tag_in_order, lemma_sorted_tags_fit, lemma_tagged_fields_round_trip, lemma_tagged_fields_writable, read_tagged_fields, sort_by_tag, sorted_by_tag, spec_read_tagged_fields, spec_write_tagged_fields, tags_fit, tags_in_order, write_tagged_fields};
use crate::types::{KafkaString, KafkaUuid, RawTaggedField};
use crate::wire::{ReadOutcome, ViewClone, WriteOutcome, chain, clone_vec, emit, empty_vec, fail, has_room, lemma_append_empty, lemma_chain_written, lemma_step, opt_view, read_as, read_opt_as, read_vec_as, took_front, views, written, wrote};
use bytes::{Bytes, BytesMut};
use vstd::prelude::*;

verus! {

broadcast use {crate::wire::lemma_chain_written, crate::wire::lemma_took_front_nothing, crate::wire::lemma_took_front_twice};

#[derive(Debug, PartialEq)]
pub struct DescribeShareGroupOffsetsResponseData {
    /// The duration in milliseconds for which the request was throttled due to a quota violation,
    /// or zero if the request did not violate any quota.
    pub throttle_time_ms: i32,
    /// The results for each group.
    pub groups: Vec<DescribeShareGroupOffsetsResponseGroup>,
    pub _unknown_tagged_fields: Vec<RawTaggedField>,
}

/// What a `DescribeShareGroupOffsetsResponseData` holds, as the specification sees it.
#[verifier::ext_equal]
pub struct DescribeShareGroupOffsetsResponseDataView {
    pub throttle_time_ms: i32,
    pub groups: Seq<DescribeShareGroupOffsetsResponseGroupView>,
    pub unknown_tagged_fields: Seq<(u32, Seq<u8>)>,
}

impl View for DescribeShareGroupOffsetsResponseData {
    type V = DescribeShareGroupOffsetsResponseDataView;

    open spec fn view(&self) -> DescribeShareGroupOffsetsResponseDataView {
        DescribeShareGroupOffsetsResponseDataView {
            throttle_time_ms: self.throttle_time_ms,
            groups: views(self.groups@),
            unknown_tagged_fields: views(self._unknown_tagged_fields@),
        }
    }
}

impl Clone for DescribeShareGroupOffsetsResponseData {
    fn clone(&self) -> (r: Self)
        ensures
            r@ == self@,
    {
        let r = DescribeShareGroupOffsetsResponseData {
            throttle_time_ms: self.throttle_time_ms,
            groups: clone_vec(&self.groups),
            _unknown_tagged_fields: clone_vec(&self._unknown_tagged_fields),
        };
        assert(r@ =~= self@);
        r
    }
}

impl ViewClone for DescribeShareGroupOffsetsResponseData {
    fn clone_view(&self) -> (r: Self) {
        self.clone()
    }
}

impl Default for DescribeShareGroupOffsetsResponseData {
    fn default() -> (r: Self)
        ensures
            r@ == Self::default_view(),
    {
        let r = DescribeShareGroupOffsetsResponseData {
            throttle_time_ms: 0_i32,
            groups: empty_vec(),
            _unknown_tagged_fields: empty_vec(),
        };
        assert(r@ =~= Self::default_view());
        r
    }
}

impl DescribeShareGroupOffsetsResponseData {
    pub open spec fn default_view() -> DescribeShareGroupOffsetsResponseDataView {
        DescribeShareGroupOffsetsResponseDataView {
            throttle_time_ms: 0_i32,
            groups: Seq::empty(),
            unknown_tagged_fields: Seq::empty(),
        }
    }

    /// The `throttle_time_ms` field, read from the front of `s`.
    #[verifier::opaque]
    pub open spec fn spec_read_throttle_time_ms(s: Seq<u8>, version: i16) -> ReadOutcome<i32> {
        spec_read_i32(s)
    }

    /// The `groups` field, read from the front of `s`.
    #[verifier::opaque]
    pub open spec fn spec_read_groups(s: Seq<u8>, version: i16) -> ReadOutcome<Seq<DescribeShareGroupOffsetsResponseGroupView>> {
        spec_read_array::<DescribeShareGroupOffsetsResponseGroup>(s, version, true)
    }

    /// The tagged fields, read from the front of `s`.
    #[verifier::opaque]
    pub open spec fn spec_read_tags(s: Seq<u8>, version: i16) -> ReadOutcome<Seq<(u32, Seq<u8>)>> {
        spec_read_tagged_fields(s)
    }

    pub open spec fn spec_read(s: Seq<u8>, version: i16) -> ReadOutcome<DescribeShareGroupOffsetsResponseDataView> {
        if version < 0 || version > 1 {
            Err(Error::UnsupportedVersion(UnsupportedVersion { api_key: 90, version }))
        } else {
            match (Self::spec_read_throttle_time_ms(s, version)) {
                Err(e) => Err(e),
                Ok((throttle_time_ms, s)) => match (Self::spec_read_groups(s, version)) {
                    Err(e) => Err(e),
                    Ok((groups, s)) => match (Self::spec_read_tags(s, version)) {
                        Err(e) => Err(e),
                        Ok((unknown_tagged_fields, s)) => Ok((DescribeShareGroupOffsetsResponseDataView {
                                    throttle_time_ms: throttle_time_ms,
                                    groups: groups,
                                    unknown_tagged_fields: unknown_tagged_fields,
                                }, s)),
                    },
                },
            }
        }
    }

    /// What writing the `throttle_time_ms` field of `m` appends.
    #[verifier::opaque]
    pub open spec fn spec_write_throttle_time_ms(m: DescribeShareGroupOffsetsResponseDataView, version: i16) -> WriteOutcome {
        spec_write_i32(m.throttle_time_ms)
    }

    /// What writing the `groups` field of `m` appends.
    #[verifier::opaque]
    pub open spec fn spec_write_groups(m: DescribeShareGroupOffsetsResponseDataView, version: i16) -> WriteOutcome {
        spec_write_array::<DescribeShareGroupOffsetsResponseGroup>(m.groups, version, true)
    }

    /// What writing the tagged fields of `m` appends.
    #[verifier::opaque]
    pub open spec fn spec_write_tags(m: DescribeShareGroupOffsetsResponseDataView, version: i16) -> WriteOutcome {
        spec_write_tagged_fields(sorted_by_tag(m.unknown_tagged_fields))
    }

    pub open spec fn spec_write(m: DescribeShareGroupOffsetsResponseDataView, version: i16) -> WriteOutcome {
        if version < 0 || version > 1 {
            fail(Error::UnsupportedVersion(UnsupportedVersion { api_key: 90, version }))
        } else {
            chain(
                chain(
                    Self::spec_write_throttle_time_ms(m, version),
                    Self::spec_write_groups(m, version),
                ),
                Self::spec_write_tags(m, version),
            )
        }
    }

    /// Whether reading back what writing `m` in `version` appends gives `m`:
    /// fields that the version does not carry hold their default values, and
    /// tagged fields come in the order in which they are written.
    pub open spec fn canonical(m: DescribeShareGroupOffsetsResponseDataView, version: i16) -> bool {
        &&& all_canonical::<DescribeShareGroupOffsetsResponseGroup>(m.groups, version)
        &&& tags_in_order(m.unknown_tagged_fields)
    }

    proof fn lemma_round_trip_throttle_time_ms(m: DescribeShareGroupOffsetsResponseDataView, version: i16, rest: Seq<u8>)
        requires
            Self::canonical(m, version),
            Self::spec_write_throttle_time_ms(m, version) is Ok,
        ensures
            Self::spec_read_throttle_time_ms(written(Self::spec_write_throttle_time_ms(m, version)) + rest, version) == Ok::<(i32, Seq<u8>), Error>((m.throttle_time_ms, rest)),
    {
        reveal(DescribeShareGroupOffsetsResponseData::spec_read_throttle_time_ms);
        reveal(DescribeShareGroupOffsetsResponseData::spec_write_throttle_time_ms);
        lemma_i32_roundtrip(m.throttle_time_ms, rest);
    }

    proof fn lemma_round_trip_groups(m: DescribeShareGroupOffsetsResponseDataView, version: i16, rest: Seq<u8>)
        requires
            Self::canonical(m, version),
            Self::spec_write_groups(m, version) is Ok,
        ensures
            Self::spec_read_groups(written(Self::spec_write_groups(m, version)) + rest, version) == Ok::<(Seq<DescribeShareGroupOffsetsResponseGroupView>, Seq<u8>), Error>((m.groups, rest)),
    {
        reveal(DescribeShareGroupOffsetsResponseData::spec_read_groups);
        reveal(DescribeShareGroupOffsetsResponseData::spec_write_groups);
        lemma_array_round_trip::<DescribeShareGroupOffsetsResponseGroup>(m.groups, version, true, rest);
    }

    proof fn lemma_round_trip_tags(m: DescribeShareGroupOffsetsResponseDataView, version: i16, rest: Seq<u8>)
        requires
            Self::canonical(m, version),
            Self::spec_write_tags(m, version) is Ok,
        ensures
            Self::spec_read_tags(written(Self::spec_write_tags(m, version)) + rest, version) == Ok::<(Seq<(u32, Seq<u8>)>, Seq<u8>), Error>((m.unknown_tagged_fields, rest)),
    {
        reveal(DescribeShareGroupOffsetsResponseData::spec_read_tags);
        reveal(DescribeShareGroupOffsetsResponseData::spec_write_tags);
        lemma_sorted_by_tag_in_order(m.unknown_tagged_fields);
        lemma_tagged_fields_round_trip(m.unknown_tagged_fields, rest);
    }

    /// Reading back what writing `m` in `version` appends gives `m` again, and
    /// leaves what follows, for every canonical message whose write succeeds.
    #[verifier::rlimit(70)]
    #[verifier::spinoff_prover]
    pub proof fn lemma_round_trip(m: DescribeShareGroupOffsetsResponseDataView, version: i16, rest: Seq<u8>)
        requires
            Self::canonical(m, version),
            Self::spec_write(m, version) is Ok,
        ensures
            Self::spec_read(written(Self::spec_write(m, version)) + rest, version) == Ok::<(DescribeShareGroupOffsetsResponseDataView, Seq<u8>), Error>((m, rest)),
    {
        let b0 = written(Self::spec_write_throttle_time_ms(m, version));
        let b1 = written(Self::spec_write_groups(m, version));
        let b2 = written(Self::spec_write_tags(m, version));
        let t3 = rest;
        let t2 = b2 + t3;
        let t1 = b1 + t2;
        let t0 = b0 + t1;
        let w0 = Self::spec_write_throttle_time_ms(m, version);
        let w1 = chain(w0, Self::spec_write_groups(m, version));
        let w2 = chain(w1, Self::spec_write_tags(m, version));
        assert(Self::spec_write(m, version) == w2);
        assert(written(w2) + t3 =~= written(w1) + t2);
        assert(written(w1) + t2 =~= written(w0) + t1);
        Self::lemma_round_trip_throttle_time_ms(m, version, t1);
        Self::lemma_round_trip_groups(m, version, t2);
        Self::lemma_round_trip_tags(m, version, t3);
    }

    /// The default message holds the default value of each field of the schema.
    pub proof fn lemma_default_values()
        ensures
            Self::default_view().throttle_time_ms == (0_i32),
            Self::default_view().groups.len() == 0,
            Self::default_view().unknown_tagged_fields.len() == 0,
    {
    }

    /// Each integer, boolean and identifier field is written as its standard
    /// big-endian bytes (a boolean as `1` or `0`) in the versions that carry
    /// it, and as nothing in the others; reading it takes those bytes back (any
    /// byte other than `0` reads as `true`), or gives its default value.
    pub proof fn lemma_field_encodings(m: DescribeShareGroupOffsetsResponseDataView, s: Seq<u8>, version: i16)
        ensures
            true ==> Self::spec_write_throttle_time_ms(m, version) == Ok::<Seq<u8>, (Error, Seq<u8>)>(u32_bytes(m.throttle_time_ms as u32)),
            true ==> Self::spec_read_throttle_time_ms(s, version) == spec_read_i32(s),
    {
        reveal(DescribeShareGroupOffsetsResponseData::spec_write_throttle_time_ms);
        reveal(DescribeShareGroupOffsetsResponseData::spec_read_throttle_time_ms);
    }

    /// Whether writing `m` in `version` succeeds, said over its parts: the
    /// version is one the schema covers, every field that the version cannot
    /// carry holds its default value, and every string, byte string, array and
    /// tagged field fits its length prefix.
    pub open spec fn writable(m: DescribeShareGroupOffsetsResponseDataView, version: i16) -> bool {
        &&& 0 <= version <= 1
        &&& (m.groups.len() <= i32::MAX && all_writable::<DescribeShareGroupOffsetsResponseGroup>(m.groups, version))
        &&& m.unknown_tagged_fields.len() <= u32::MAX && tags_fit(m.unknown_tagged_fields)
    }

    proof fn lemma_writable_throttle_time_ms(m: DescribeShareGroupOffsetsResponseDataView, version: i16)
        ensures
            Self::spec_write_throttle_time_ms(m, version) is Ok <==> true,
    {
        reveal(DescribeShareGroupOffsetsResponseData::spec_write_throttle_time_ms);
    }

    proof fn lemma_writable_groups(m: DescribeShareGroupOffsetsResponseDataView, version: i16)
        ensures
            Self::spec_write_groups(m, version) is Ok <==> (m.groups.len() <= i32::MAX && all_writable::<DescribeShareGroupOffsetsResponseGroup>(m.groups, version)),
    {
        reveal(DescribeShareGroupOffsetsResponseData::spec_write_groups);
        lemma_array_writable::<DescribeShareGroupOffsetsResponseGroup>(m.groups, version, true);
    }

    proof fn lemma_writable_tags(m: DescribeShareGroupOffsetsResponseDataView, version: i16)
        ensures
            Self::spec_write_tags(m, version) is Ok <==> m.unknown_tagged_fields.len() <= u32::MAX && tags_fit(m.unknown_tagged_fields),
    {
        reveal(DescribeShareGroupOffsetsResponseData::spec_write_tags);
        lemma_sorted_tags_fit(m.unknown_tagged_fields);
        lemma_tagged_fields_writable(sorted_by_tag(m.unknown_tagged_fields));
    }

    /// Writing `m` in `version` succeeds exactly when `m` is writable in it;
    /// so do `write` and `encoded_len`, whose results follow `spec_write`.
    #[verifier::rlimit(48)]
    pub proof fn lemma_writable(m: DescribeShareGroupOffsetsResponseDataView, version: i16)
        ensures
            Self::spec_write(m, version) is Ok <==> Self::writable(m, version),
    {
        Self::lemma_writable_throttle_time_ms(m, version);
        Self::lemma_writable_groups(m, version);
        Self::lemma_writable_tags(m, version);
    }

    /// A version outside the range that the schema covers is refused, by
    /// reads and by writes alike, before anything is read or written.
    pub proof fn lemma_refused_version(m: DescribeShareGroupOffsetsResponseDataView, s: Seq<u8>, version: i16)
        requires
            version < 0 || version > 1,
        ensures
            Self::spec_read(s, version) == Err::<(DescribeShareGroupOffsetsResponseDataView, Seq<u8>), Error>(Error::UnsupportedVersion(UnsupportedVersion { api_key: 90, version })),
            Self::spec_write(m, version) == fail(Error::UnsupportedVersion(UnsupportedVersion { api_key: 90, version })),
    {
    }

    fn read_throttle_time_ms(buf: &mut Bytes, version: i16) -> (r: Result<i32, Error>)
        ensures
            read_as(Self::spec_read_throttle_time_ms(bytes_seq(*old(buf)), version), *final(buf), r),
            took_front(*old(buf), *final(buf)),
    {
        proof {
            reveal(DescribeShareGroupOffsetsResponseData::spec_read_throttle_time_ms);
        }
        Ok(read_i32(buf)?)
    }

    fn read_groups(buf: &mut Bytes, version: i16) -> (r: Result<Vec<DescribeShareGroupOffsetsResponseGroup>, Error>)
        ensures
            read_vec_as(Self::spec_read_groups(bytes_seq(*old(buf)), version), *final(buf), r),
            took_front(*old(buf), *final(buf)),
    {
        proof {
            reveal(DescribeShareGroupOffsetsResponseData::spec_read_groups);
        }
        Ok(read_array::<DescribeShareGroupOffsetsResponseGroup>(buf, version, true)?)
    }

    fn read_tags(buf: &mut Bytes, version: i16) -> (r: Result<Vec<RawTaggedField>, Error>)
        ensures
            read_vec_as(Self::spec_read_tags(bytes_seq(*old(buf)), version), *final(buf), r),
            took_front(*old(buf), *final(buf)),
    {
        proof {
            reveal(DescribeShareGroupOffsetsResponseData::spec_read_tags);
        }
        Ok(read_tagged_fields(buf)?)
    }

    pub fn read(buf: &mut Bytes, version: i16) -> (r: Result<Self, Error>)
        ensures
            read_as(Self::spec_read(bytes_seq(*old(buf)), version), *final(buf), r),
            took_front(*old(buf), *final(buf)),
            (version < 0 || version > 1) ==> bytes_seq(*final(buf)) == bytes_seq(*old(buf)),
    {
        if version < 0 || version > 1 {
            return Err(Error::UnsupportedVersion(UnsupportedVersion::new(90, version)));
        }
        let throttle_time_ms = Self::read_throttle_time_ms(buf, version)?;
        let groups = Self::read_groups(buf, version)?;
        let _unknown_tagged_fields = Self::read_tags(buf, version)?;
        Ok(DescribeShareGroupOffsetsResponseData {
                throttle_time_ms: throttle_time_ms,
                groups: groups,
                _unknown_tagged_fields: _unknown_tagged_fields,
        })
    }

    #[verifier::rlimit(60)]
    pub fn write(&self, buf: &mut BytesMut, version: i16) -> (r: Result<(), Error>)
        requires
            has_room(Self::spec_write(self@, version), *old(buf)),
        ensures
            wrote(Self::spec_write(self@, version), *old(buf), *final(buf), r),
    {
        if version < 0 || version > 1 {
            return Err(Error::UnsupportedVersion(UnsupportedVersion::new(90, version)));
        }
        let ghost m = self@;
        proof {
            reveal(DescribeShareGroupOffsetsResponseData::spec_write_throttle_time_ms);
            reveal(DescribeShareGroupOffsetsResponseData::spec_write_groups);
            reveal(DescribeShareGroupOffsetsResponseData::spec_write_tags);
        }
        let ghost s0 = Self::spec_write_throttle_time_ms(m, version);
        let ghost w0 = s0;
        let ghost s1 = Self::spec_write_groups(m, version);
        let ghost w1 = chain(w0, s1);
        let ghost s2 = Self::spec_write_tags(m, version);
        let ghost w2 = chain(w1, s2);
        assert(Self::spec_write(m, version) == w2);
        assert(written(w1).len() <= written(w2).len() && (w1 is Err ==> w2 == w1));
        assert(written(w0).len() <= written(w2).len() && (w0 is Err ==> w2 == w0));
        let ghost mid = bytes_mut_seq(*buf);
        proof {
            lemma_append_empty(mid);
        }
        let r0 = {
            write_i32(buf, self.throttle_time_ms);
            Ok(())
        };
        assert(bytes_mut_seq(*buf) == mid + written(s0));
        if r0.is_err() {
            return r0;
        }
        let ghost mid = bytes_mut_seq(*buf);
        proof {
            lemma_append_empty(mid);
        }
        let r1 = write_array::<DescribeShareGroupOffsetsResponseGroup>(buf, &self.groups, version, true);
        assert(bytes_mut_seq(*buf) == mid + written(s1));
        proof {
            lemma_step(bytes_mut_seq(*old(buf)), w0, s1);
        }
        if r1.is_err() {
            return r1;
        }
        let ghost mid = bytes_mut_seq(*buf);
        proof {
            lemma_append_empty(mid);
        }
        let r2 = write_tagged_fields(buf, &sort_by_tag(&self._unknown_tagged_fields));
        assert(bytes_mut_seq(*buf) == mid + written(s2));
        proof {
            lemma_step(bytes_mut_seq(*old(buf)), w1, s2);
        }
        if r2.is_err() {
            return r2;
        }
        Ok(())
    }
}

#[derive(Debug, PartialEq)]
pub struct DescribeShareGroupOffsetsResponseGroup {
    /// The group identifier.
    pub group_id: KafkaString,
    /// The results for each topic.
    pub topics: Vec<DescribeShareGroupOffsetsResponseTopic>,
    /// The group-level error code, or 0 if there was no error.
    pub error_code: i16,
    /// The group-level error message, or null if there was no error.
    pub error_message: Option<KafkaString>,
    pub _unknown_tagged_fields: Vec<RawTaggedField>,
}

/// What a `DescribeShareGroupOffsetsResponseGroup` holds, as the specification sees it.
#[verifier::ext_equal]
pub struct DescribeShareGroupOffsetsResponseGroupView {
    pub group_id: Seq<u8>,
    pub topics: Seq<DescribeShareGroupOffsetsResponseTopicView>,
    pub error_code: i16,
    pub error_message: Option<Seq<u8>>,
    pub unknown_tagged_fields: Seq<(u32, Seq<u8>)>,
}

impl View for DescribeShareGroupOffsetsResponseGroup {
    type V = DescribeShareGroupOffsetsResponseGroupView;

    open spec fn view(&self) -> DescribeShareGroupOffsetsResponseGroupView {
        DescribeShareGroupOffsetsResponseGroupView {
            group_id: self.group_id@,
            topics: views(self.topics@),
            error_code: self.error_code,
            error_message: opt_view(self.error_message),
            unknown_tagged_fields: views(self._unknown_tagged_fields@),
        }
    }
}

impl Clone for DescribeShareGroupOffsetsResponseGroup {
    fn clone(&self) -> (r: Self)
        ensures
            r@ == self@,
    {
        let r = DescribeShareGroupOffsetsResponseGroup {
            group_id: self.group_id.clone(),
            topics: clone_vec(&self.topics),
            error_code: self.error_code,
            error_message: match &self.error_message {
                Some(x) => Some(x.clone()),
                None => None,
            },
            _unknown_tagged_fields: clone_vec(&self._unknown_tagged_fields),
        };
        assert(r@ =~= self@);
        r
    }
}

impl ViewClone for DescribeShareGroupOffsetsResponseGroup {
    fn clone_view(&self) -> (r: Self) {
        self.clone()
    }
}

impl Default for DescribeShareGroupOffsetsResponseGroup {
    fn default() -> (r: Self)
        ensures
            r@ == Self::default_view(),
    {
        let r = DescribeShareGroupOffsetsResponseGroup {
            group_id: KafkaString::default(),
            topics: empty_vec(),
            error_code: 0_i16,
            error_message: None,
            _unknown_tagged_fields: empty_vec(),
        };
        assert(r@ =~= Self::default_view());
        r
    }
}

impl DescribeShareGroupOffsetsResponseGroup {
    pub open spec fn default_view() -> DescribeShareGroupOffsetsResponseGroupView {
        DescribeShareGroupOffsetsResponseGroupView {
            group_id: Seq::empty(),
            topics: Seq::empty(),
            error_code: 0_i16,
            error_message: None,
            unknown_tagged_fields: Seq::empty(),
        }
    }

    /// The `group_id` field, read from the front of `s`.
    #[verifier::opaque]
    pub open spec fn spec_read_group_id(s: Seq<u8>, version: i16) -> ReadOutcome<Seq<u8>> {
        spec_read_compact_string(s)
    }

    /// The `topics` field, read from the front of `s`.
    #[verifier::opaque]
    pub open spec fn spec_read_topics(s: Seq<u8>, version: i16) -> ReadOutcome<Seq<DescribeShareGroupOffsetsResponseTopicView>> {
        spec_read_array::<DescribeShareGroupOffsetsResponseTopic>(s, version, true)
    }

    /// The `error_code` field, read from the front of `s`.
    #[verifier::opaque]
    pub open spec fn spec_read_error_code(s: Seq<u8>, version: i16) -> ReadOutcome<i16> {
        spec_read_i16(s)
    }

    /// The `error_message` field, read from the front of `s`.
    #[verifier::opaque]
    pub open spec fn spec_read_error_message(s: Seq<u8>, version: i16) -> ReadOutcome<Option<Seq<u8>>> {
        spec_read_compact_nullable_string(s)
    }

    /// The tagged fields, read from the front of `s`.
    #[verifier::opaque]
    pub open spec fn spec_read_tags(s: Seq<u8>, version: i16) -> ReadOutcome<Seq<(u32, Seq<u8>)>> {
        spec_read_tagged_fields(s)
    }

    pub open spec fn spec_read(s: Seq<u8>, version: i16) -> ReadOutcome<DescribeShareGroupOffsetsResponseGroupView> {
        match (Self::spec_read_group_id(s, version)) {
            Err(e) => Err(e),
            Ok((group_id, s)) => match (Self::spec_read_topics(s, version)) {
                Err(e) => Err(e),
                Ok((topics, s)) => match (Self::spec_read_error_code(s, version)) {
                    Err(e) => Err(e),
                    Ok((error_code, s)) => match (Self::spec_read_error_message(s, version)) {
                        Err(e) => Err(e),
                        Ok((error_message, s)) => match (Self::spec_read_tags(s, version)) {
                            Err(e) => Err(e),
                            Ok((unknown_tagged_fields, s)) => Ok((DescribeShareGroupOffsetsResponseGroupView {
                                        group_id: group_id,
                                        topics: topics,
                                        error_code: error_code,
                                        error_message: error_message,
                                        unknown_tagged_fields: unknown_tagged_fields,
                                    }, s)),
                        },
                    },
                },
            },
        }
    }

    /// What writing the `group_id` field of `m` appends.
    #[verifier::opaque]
    pub open spec fn spec_write_group_id(m: DescribeShareGroupOffsetsResponseGroupView, version: i16) -> WriteOutcome {
        spec_write_compact_string(m.group_id)
    }

    /// What writing the `topics` field of `m` appends.
    #[verifier::opaque]
    pub open spec fn spec_write_topics(m: DescribeShareGroupOffsetsResponseGroupView, version: i16) -> WriteOutcome {
        spec_write_array::<DescribeShareGroupOffsetsResponseTopic>(m.topics, version, true)
    }

    /// What writing the `error_code` field of `m` appends.
    #[verifier::opaque]
    pub open spec fn spec_write_error_code(m: DescribeShareGroupOffsetsResponseGroupView, version: i16) -> WriteOutcome {
        spec_write_i16(m.error_code)
    }

    /// What writing the `error_message` field of `m` appends.
    #[verifier::opaque]
    pub open spec fn spec_write_error_message(m: DescribeShareGroupOffsetsResponseGroupView, version: i16) -> WriteOutcome {
        spec_write_compact_nullable_string(m.error_message)
    }

    /// What writing the tagged fields of `m` appends.
    #[verifier::opaque]
    pub open spec fn spec_write_tags(m: DescribeShareGroupOffsetsResponseGroupView, version: i16) -> WriteOutcome {
        spec_write_tagged_fields(sorted_by_tag(m.unknown_tagged_fields))
    }

    pub open spec fn spec_write(m: DescribeShareGroupOffsetsResponseGroupView, version: i16) -> WriteOutcome {
        chain(
            chain(
                chain(
                    chain(
                        Self::spec_write_group_id(m, version),
                        Self::spec_write_topics(m, version),
                    ),
                    Self::spec_write_error_code(m, version),
                ),
                Self::spec_write_error_message(m, version),
            ),
            Self::spec_write_tags(m, version),
        )
    }

    /// Whether reading back what writing `m` in `version` appends gives `m`:
    /// fields that the version does not carry hold their default values, and
    /// tagged fields come in the order in which they are written.
    pub open spec fn canonical(m: DescribeShareGroupOffsetsResponseGroupView, version: i16) -> bool {
        &&& all_canonical::<DescribeShareGroupOffsetsResponseTopic>(m.topics, version)
        &&& tags_in_order(m.unknown_tagged_fields)
    }

    proof fn lemma_round_trip_group_id(m: DescribeShareGroupOffsetsResponseGroupView, version: i16, rest: Seq<u8>)
        requires
            Self::canonical(m, version),
            Self::spec_write_group_id(m, version) is Ok,
        ensures
            Self::spec_read_group_id(written(Self::spec_write_group_id(m, version)) + rest, version) == Ok::<(Seq<u8>, Seq<u8>), Error>((m.group_id, rest)),
    {
        reveal(DescribeShareGroupOffsetsResponseGroup::spec_read_group_id);
        reveal(DescribeShareGroupOffsetsResponseGroup::spec_write_group_id);
        lemma_compact_string_round_trip(m.group_id, rest);
    }

    proof fn lemma_round_trip_topics(m: DescribeShareGroupOffsetsResponseGroupView, version: i16, rest: Seq<u8>)
        requires
            Self::canonical(m, version),
            Self::spec_write_topics(m, version) is Ok,
        ensures
            Self::spec_read_topics(written(Self::spec_write_topics(m, version)) + rest, version) == Ok::<(Seq<DescribeShareGroupOffsetsResponseTopicView>, Seq<u8>), Error>((m.topics, rest)),
    {
        reveal(DescribeShareGroupOffsetsResponseGroup::spec_read_topics);
        reveal(DescribeShareGroupOffsetsResponseGroup::spec_write_topics);
        lemma_array_round_trip::<DescribeShareGroupOffsetsResponseTopic>(m.topics, version, true, rest);
    }

    proof fn lemma_round_trip_error_code(m: DescribeShareGroupOffsetsResponseGroupView, version: i16, rest: Seq<u8>)
        requires
            Self::canonical(m, version),
            Self::spec_write_error_code(m, version) is Ok,
        ensures
            Self::spec_read_error_code(written(Self::spec_write_error_code(m, version)) + rest, version) == Ok::<(i16, Seq<u8>), Error>((m.error_code, rest)),
    {
        reveal(DescribeShareGroupOffsetsResponseGroup::spec_read_error_code);
        reveal(DescribeShareGroupOffsetsResponseGroup::spec_write_error_code);
        lemma_i16_roundtrip(m.error_code, rest);
    }

    proof fn lemma_round_trip_error_message(m: DescribeShareGroupOffsetsResponseGroupView, version: i16, rest: Seq<u8>)
        requires
            Self::canonical(m, version),
            Self::spec_write_error_message(m, version) is Ok,
        ensures
            Self::spec_read_error_message(written(Self::spec_write_error_message(m, version)) + rest, version) == Ok::<(Option<Seq<u8>>, Seq<u8>), Error>((m.error_message, rest)),
    {
        reveal(DescribeShareGroupOffsetsResponseGroup::spec_read_error_message);
        reveal(DescribeShareGroupOffsetsResponseGroup::spec_write_error_message);
        lemma_compact_nullable_string_round_trip(m.error_message, rest);
    }

    proof fn lemma_round_trip_tags(m: DescribeShareGroupOffsetsResponseGroupView, version: i16, rest: Seq<u8>)
        requires
            Self::canonical(m, version),
            Self::spec_write_tags(m, version) is Ok,
        ensures
            Self::spec_read_tags(written(Self::spec_write_tags(m, version)) + rest, version) == Ok::<(Seq<(u32, Seq<u8>)>, Seq<u8>), Error>((m.unknown_tagged_fields, rest)),
    {
        reveal(DescribeShareGroupOffsetsResponseGroup::spec_read_tags);
        reveal(DescribeShareGroupOffsetsResponseGroup::spec_write_tags);
        lemma_sorted_by_tag_in_order(m.unknown_tagged_fields);
        lemma_tagged_fields_round_trip(m.unknown_tagged_fields, rest);
    }

    /// Reading back what writing `m` in `version` appends gives `m` again, and
    /// leaves what follows, for every canonical message whose write succeeds.
    #[verifier::rlimit(90)]
    #[verifier::spinoff_prover]
    pub proof fn lemma_round_trip(m: DescribeShareGroupOffsetsResponseGroupView, version: i16, rest: Seq<u8>)
        requires
            Self::canonical(m, version),
            Self::spec_write(m, version) is Ok,
        ensures
            Self::spec_read(written(Self::spec_write(m, version)) + rest, version) == Ok::<(DescribeShareGroupOffsetsResponseGroupView, Seq<u8>), Error>((m, rest)),
    {
        let b0 = written(Self::spec_write_group_id(m, version));
        let b1 = written(Self::spec_write_topics(m, version));
        let b2 = written(Self::spec_write_error_code(m, version));
        let b3 = written(Self::spec_write_error_message(m, version));
        let b4 = written(Self::spec_write_tags(m, version));
        let t5 = rest;
        let t4 = b4 + t5;
        let t3 = b3 + t4;
        let t2 = b2 + t3;
        let t1 = b1 + t2;
        let t0 = b0 + t1;
        let w0 = Self::spec_write_group_id(m, version);
        let w1 = chain(w0, Self::spec_write_topics(m, version));
        let w2 = chain(w1, Self::spec_write_error_code(m, version));
        let w3 = chain(w2, Self::spec_write_error_message(m, version));
        let w4 = chain(w3, Self::spec_write_tags(m, version));
        assert(Self::spec_write(m, version) == w4);
        assert(written(w4) + t5 =~= written(w3) + t4);
        assert(written(w3) + t4 =~= written(w2) + t3);
        assert(written(w2) + t3 =~= written(w1) + t2);
        assert(written(w1) + t2 =~= written(w0) + t1);
        Self::lemma_round_trip_group_id(m, version, t1);
        Self::lemma_round_trip_topics(m, version, t2);
        Self::lemma_round_trip_error_code(m, version, t3);
        Self::lemma_round_trip_error_message(m, version, t4);
        Self::lemma_round_trip_tags(m, version, t5);
    }

    /// The default message holds the default value of each field of the schema.
    pub proof fn lemma_default_values()
        ensures
            Self::default_view().group_id.len() == 0,
            Self::default_view().topics.len() == 0,
            Self::default_view().error_code == (0_i16),
            (Self::default_view().error_message is None),
            Self::default_view().unknown_tagged_fields.len() == 0,
    {
    }

    /// Each integer, boolean and identifier field is written as its standard
    /// big-endian bytes (a boolean as `1` or `0`) in the versions that carry
    /// it, and as nothing in the others; reading it takes those bytes back (any
    /// byte other than `0` reads as `true`), or gives its default value.
    pub proof fn lemma_field_encodings(m: DescribeShareGroupOffsetsResponseGroupView, s: Seq<u8>, version: i16)
        ensures
            true ==> Self::spec_write_error_code(m, version) == Ok::<Seq<u8>, (Error, Seq<u8>)>(u16_bytes(m.error_code as u16)),
            true ==> Self::spec_read_error_code(s, version) == spec_read_i16(s),
    {
        reveal(DescribeShareGroupOffsetsResponseGroup::spec_write_error_code);
        reveal(DescribeShareGroupOffsetsResponseGroup::spec_read_error_code);
    }

    /// Whether writing `m` in `version` succeeds, said over its parts: the
    /// version is one the schema covers, every field that the version cannot
    /// carry holds its default value, and every string, byte string, array and
    /// tagged field fits its length prefix.
    pub open spec fn writable(m: DescribeShareGroupOffsetsResponseGroupView, version: i16) -> bool {
        &&& m.group_id.len() <= 0x7fff
        &&& (m.topics.len() <= i32::MAX && all_writable::<DescribeShareGroupOffsetsResponseTopic>(m.topics, version))
        &&& (m.error_message matches Some(b) ==> b.len() <= 0x7fff)
        &&& m.unknown_tagged_fields.len() <= u32::MAX && tags_fit(m.unknown_tagged_fields)
    }

    proof fn lemma_writable_group_id(m: DescribeShareGroupOffsetsResponseGroupView, version: i16)
        ensures
            Self::spec_write_group_id(m, version) is Ok <==> m.group_id.len() <= 0x7fff,
    {
        reveal(DescribeShareGroupOffsetsResponseGroup::spec_write_group_id);
    }

    proof fn lemma_writable_topics(m: DescribeShareGroupOffsetsResponseGroupView, version: i16)
        ensures
            Self::spec_write_topics(m, version) is Ok <==> (m.topics.len() <= i32::MAX && all_writable::<DescribeShareGroupOffsetsResponseTopic>(m.topics, version)),
    {
        reveal(DescribeShareGroupOffsetsResponseGroup::spec_write_topics);
        lemma_array_writable::<DescribeShareGroupOffsetsResponseTopic>(m.topics, version, true);
    }

    proof fn lemma_writable_error_code(m: DescribeShareGroupOffsetsResponseGroupView, version: i16)
        ensures
            Self::spec_write_error_code(m, version) is Ok <==> true,
    {
        reveal(DescribeShareGroupOffsetsResponseGroup::spec_write_error_code);
    }

    proof fn lemma_writable_error_message(m: DescribeShareGroupOffsetsResponseGroupView, version: i16)
        ensures
            Self::spec_write_error_message(m, version) is Ok <==> (m.error_message matches Some(b) ==> b.len() <= 0x7fff),
    {
        reveal(DescribeShareGroupOffsetsResponseGroup::spec_write_error_message);
    }

    proof fn lemma_writable_tags(m: DescribeShareGroupOffsetsResponseGroupView, version: i16)
        ensures
            Self::spec_write_tags(m, version) is Ok <==> m.unknown_tagged_fields.len() <= u32::MAX && tags_fit(m.unknown_tagged_fields),
    {
        reveal(DescribeShareGroupOffsetsResponseGroup::spec_write_tags);
        lemma_sorted_tags_fit(m.unknown_tagged_fields);
        lemma_tagged_fields_writable(sorted_by_tag(m.unknown_tagged_fields));
    }

    /// Writing `m` in `version` succeeds exactly when `m` is writable in it;
    /// so do `write` and `encoded_len`, whose results follow `spec_write`.
    #[verifier::rlimit(60)]
    pub proof fn lemma_writable(m: DescribeShareGroupOffsetsResponseGroupView, version: i16)
        ensures
            Self::spec_write(m, version) is Ok <==> Self::writable(m, version),
    {
        Self::lemma_writable_group_id(m, version);
        Self::lemma_writable_topics(m, version);
        Self::lemma_writable_error_code(m, version);
        Self::lemma_writable_error_message(m, version);
        Self::lemma_writable_tags(m, version);
    }

    fn read_group_id(buf: &mut Bytes, version: i16) -> (r: Result<KafkaString, Error>)
        ensures
            read_as(Self::spec_read_group_id(bytes_seq(*old(buf)), version), *final(buf), r),
            took_front(*old(buf), *final(buf)),
    {
        proof {
            reveal(DescribeShareGroupOffsetsResponseGroup::spec_read_group_id);
        }
        Ok(read_compact_string(buf)?)
    }

    fn read_topics(buf: &mut Bytes, version: i16) -> (r: Result<Vec<DescribeShareGroupOffsetsResponseTopic>, Error>)
        ensures
            read_vec_as(Self::spec_read_topics(bytes_seq(*old(buf)), version), *final(buf), r),
            took_front(*old(buf), *final(buf)),
    {
        proof {
            reveal(DescribeShareGroupOffsetsResponseGroup::spec_read_topics);
        }
        Ok(read_array::<DescribeShareGroupOffsetsResponseTopic>(buf, version, true)?)
    }

    fn read_error_code(buf: &mut Bytes, version: i16) -> (r: Result<i16, Error>)
        ensures
            read_as(Self::spec_read_error_code(bytes_seq(*old(buf)), version), *final(buf), r),
            took_front(*old(buf), *final(buf)),
    {
        proof {
            reveal(DescribeShareGroupOffsetsResponseGroup::spec_read_error_code);
        }
        Ok(read_i16(buf)?)
    }

    fn read_error_message(buf: &mut Bytes, version: i16) -> (r: Result<Option<KafkaString>, Error>)
        ensures
            read_opt_as(Self::spec_read_error_message(bytes_seq(*old(buf)), version), *final(buf), r),
            took_front(*old(buf), *final(buf)),
    {
        proof {
            reveal(DescribeShareGroupOffsetsResponseGroup::spec_read_error_message);
        }
        Ok(read_compact_nullable_string(buf)?)
    }

    fn read_tags(buf: &mut Bytes, version: i16) -> (r: Result<Vec<RawTaggedField>, Error>)
        ensures
            read_vec_as(Self::spec_read_tags(bytes_seq(*old(buf)), version), *final(buf), r),
            took_front(*old(buf), *final(buf)),
    {
        proof {
            reveal(DescribeShareGroupOffsetsResponseGroup::spec_read_tags);
        }
        Ok(read_tagged_fields(buf)?)
    }

    pub fn read(buf: &mut Bytes, version: i16) -> (r: Result<Self, Error>)
        ensures
            read_as(Self::spec_read(bytes_seq(*old(buf)), version), *final(buf), r),
            took_front(*old(buf), *final(buf)),
    {
        let group_id = Self::read_group_id(buf, version)?;
        let topics = Self::read_topics(buf, version)?;
        let error_code = Self::read_error_code(buf, version)?;
        let error_message = Self::read_error_message(buf, version)?;
        let _unknown_tagged_fields = Self::read_tags(buf, version)?;
        Ok(DescribeShareGroupOffsetsResponseGroup {
                group_id: group_id,
                topics: topics,
                error_code: error_code,
                error_message: error_message,
                _unknown_tagged_fields: _unknown_tagged_fields,
        })
    }

    #[verifier::rlimit(80)]
    pub fn write(&self, buf: &mut BytesMut, version: i16) -> (r: Result<(), Error>)
        requires
            has_room(Self::spec_write(self@, version), *old(buf)),
        ensures
            wrote(Self::spec_write(self@, version), *old(buf), *final(buf), r),
    {
        let ghost m = self@;
        proof {
            reveal(DescribeShareGroupOffsetsResponseGroup::spec_write_group_id);
            reveal(DescribeShareGroupOffsetsResponseGroup::spec_write_topics);
            reveal(DescribeShareGroupOffsetsResponseGroup::spec_write_error_code);
            reveal(DescribeShareGroupOffsetsResponseGroup::spec_write_error_message);
            reveal(DescribeShareGroupOffsetsResponseGroup::spec_write_tags);
        }
        let ghost s0 = Self::spec_write_group_id(m, version);
        let ghost w0 = s0;
        let ghost s1 = Self::spec_write_topics(m, version);
        let ghost w1 = chain(w0, s1);
        let ghost s2 = Self::spec_write_error_code(m, version);
        let ghost w2 = chain(w1, s2);
        let ghost s3 = Self::spec_write_error_message(m, version);
        let ghost w3 = chain(w2, s3);
        let ghost s4 = Self::spec_write_tags(m, version);
        let ghost w4 = chain(w3, s4);
        assert(Self::spec_write(m, version) == w4);
        assert(written(w3).len() <= written(w4).len() && (w3 is Err ==> w4 == w3));
        assert(written(w2).len() <= written(w4).len() && (w2 is Err ==> w4 == w2));
        assert(written(w1).len() <= written(w4).len() && (w1 is Err ==> w4 == w1));
        assert(written(w0).len() <= written(w4).len() && (w0 is Err ==> w4 == w0));
        let ghost mid = bytes_mut_seq(*buf);
        proof {
            lemma_append_empty(mid);
        }
        let r0 = write_compact_string(buf, &self.group_id);
        assert(bytes_mut_seq(*buf) == mid + written(s0));
        if r0.is_err() {
            return r0;
        }
        let ghost mid = bytes_mut_seq(*buf);
        proof {
            lemma_append_empty(mid);
        }
        let r1 = write_array::<DescribeShareGroupOffsetsResponseTopic>(buf, &self.topics, version, true);
        assert(bytes_mut_seq(*buf) == mid + written(s1));
        proof {
            lemma_step(bytes_mut_seq(*old(buf)), w0, s1);
        }
        if r1.is_err() {
            return r1;
        }
        let ghost mid = bytes_mut_seq(*buf);
        proof {
            lemma_append_empty(mid);
        }
        let r2 = {
            write_i16(buf, self.error_code);
            Ok(())
        };
        assert(bytes_mut_seq(*buf) == mid + written(s2));
        proof {
            lemma_step(bytes_mut_seq(*old(buf)), w1, s2);
        }
        if r2.is_err() {
            return r2;
        }
        let ghost mid = bytes_mut_seq(*buf);
        proof {
            lemma_append_empty(mid);
        }
        let r3 = write_compact_nullable_string(buf, &self.error_message);
        assert(bytes_mut_seq(*buf) == mid + written(s3));
        proof {
            lemma_step(bytes_mut_seq(*old(buf)), w2, s3);
        }
        if r3.is_err() {
            return r3;
        }
        let ghost mid = bytes_mut_seq(*buf);
        proof {
            lemma_append_empty(mid);
        }
        let r4 = write_tagged_fields(buf, &sort_by_tag(&self._unknown_tagged_fields));
        assert(bytes_mut_seq(*buf) == mid + written(s4));
        proof {
            lemma_step(bytes_mut_seq(*old(buf)), w3, s4);
        }
        if r4.is_err() {
            return r4;
        }
        Ok(())
    }
}

#[derive(Debug, PartialEq)]
pub struct DescribeShareGroupOffsetsResponseTopic {
    /// The topic name.
    pub topic_name: KafkaString,
    /// The unique topic ID.
    pub topic_id: KafkaUuid,
    pub partitions: Vec<DescribeShareGroupOffsetsResponsePartition>,
    pub _unknown_tagged_fields: Vec<RawTaggedField>,
}

/// What a `DescribeShareGroupOffsetsResponseTopic` holds, as the specification sees it.
#[verifier::ext_equal]
pub struct DescribeShareGroupOffsetsResponseTopicView {
    pub topic_name: Seq<u8>,
    pub topic_id: KafkaUuid,
    pub partitions: Seq<DescribeShareGroupOffsetsResponsePartitionView>,
    pub unknown_tagged_fields: Seq<(u32, Seq<u8>)>,
}

impl View for DescribeShareGroupOffsetsResponseTopic {
    type V = DescribeShareGroupOffsetsResponseTopicView;

    open spec fn view(&self) -> DescribeShareGroupOffsetsResponseTopicView {
        DescribeShareGroupOffsetsResponseTopicView {
            topic_name: self.topic_name@,
            topic_id: self.topic_id,
            partitions: views(self.partitions@),
            unknown_tagged_fields: views(self._unknown_tagged_fields@),
        }
    }
}

impl Clone for DescribeShareGroupOffsetsResponseTopic {
    fn clone(&self) -> (r: Self)
        ensures
            r@ == self@,
    {
        let r = DescribeShareGroupOffsetsResponseTopic {
            topic_name: self.topic_name.clone(),
            topic_id: self.topic_id,
            partitions: clone_vec(&self.partitions),
            _unknown_tagged_fields: clone_vec(&self._unknown_tagged_fields),
        };
        assert(r@ =~= self@);
        r
    }
}

impl ViewClone for DescribeShareGroupOffsetsResponseTopic {
    fn clone_view(&self) -> (r: Self) {
        self.clone()
    }
}

impl Default for DescribeShareGroupOffsetsResponseTopic {
    fn default() -> (r: Self)
        ensures
            r@ == Self::default_view(),
    {
        let r = DescribeShareGroupOffsetsResponseTopic {
            topic_name: KafkaString::default(),
            topic_id: KafkaUuid::zero(),
            partitions: empty_vec(),
            _unknown_tagged_fields: empty_vec(),
        };
        assert(r@ =~= Self::default_view());
        r
    }
}

impl DescribeShareGroupOffsetsResponseTopic {
    pub open spec fn default_view() -> DescribeShareGroupOffsetsResponseTopicView {
        DescribeShareGroupOffsetsResponseTopicView {
            topic_name: Seq::empty(),
            topic_id: KafkaUuid { most_significant_bits: 0, least_significant_bits: 0 },
            partitions: Seq::empty(),
            unknown_tagged_fields: Seq::empty(),
        }
    }

    /// The `topic_name` field, read from the front of `s`.
    #[verifier::opaque]
    pub open spec fn spec_read_topic_name(s: Seq<u8>, version: i16) -> ReadOutcome<Seq<u8>> {
        spec_read_compact_string(s)
    }

    /// The `topic_id` field, read from the front of `s`.
    #[verifier::opaque]
    pub open spec fn spec_read_topic_id(s: Seq<u8>, version: i16) -> ReadOutcome<KafkaUuid> {
        spec_read_uuid(s)
    }

    /// The `partitions` field, read from the front of `s`.
    #[verifier::opaque]
    pub open spec fn spec_read_partitions(s: Seq<u8>, version: i16) -> ReadOutcome<Seq<DescribeShareGroupOffsetsResponsePartitionView>> {
        spec_read_array::<DescribeShareGroupOffsetsResponsePartition>(s, version, true)
    }

    /// The tagged fields, read from the front of `s`.
    #[verifier::opaque]
    pub open spec fn spec_read_tags(s: Seq<u8>, version: i16) -> ReadOutcome<Seq<(u32, Seq<u8>)>> {
        spec_read_tagged_fields(s)
    }

    pub open spec fn spec_read(s: Seq<u8>, version: i16) -> ReadOutcome<DescribeShareGroupOffsetsResponseTopicView> {
        match (Self::spec_read_topic_name(s, version)) {
            Err(e) => Err(e),
            Ok((topic_name, s)) => match (Self::spec_read_topic_id(s, version)) {
                Err(e) => Err(e),
                Ok((topic_id, s)) => match (Self::spec_read_partitions(s, version)) {
                    Err(e) => Err(e),
                    Ok((partitions, s)) => match (Self::spec_read_tags(s, version)) {
                        Err(e) => Err(e),
                        Ok((unknown_tagged_fields, s)) => Ok((DescribeShareGroupOffsetsResponseTopicView {
                                    topic_name: topic_name,
                                    topic_id: topic_id,
                                    partitions: partitions,
                                    unknown_tagged_fields: unknown_tagged_fields,
                                }, s)),
                    },
                },
            },
        }
    }

    /// What writing the `topic_name` field of `m` appends.
    #[verifier::opaque]
    pub open spec fn spec_write_topic_name(m: DescribeShareGroupOffsetsResponseTopicView, version: i16) -> WriteOutcome {
        spec_write_compact_string(m.topic_name)
    }

    /// What writing the `topic_id` field of `m` appends.
    #[verifier::opaque]
    pub open spec fn spec_write_topic_id(m: DescribeShareGroupOffsetsResponseTopicView, version: i16) -> WriteOutcome {
        spec_write_uuid(m.topic_id)
    }

    /// What writing the `partitions` field of `m` appends.
    #[verifier::opaque]
    pub open spec fn spec_write_partitions(m: DescribeShareGroupOffsetsResponseTopicView, version: i16) -> WriteOutcome {
        spec_write_array::<DescribeShareGroupOffsetsResponsePartition>(m.partitions, version, true)
    }

    /// What writing the tagged fields of `m` appends.
    #[verifier::opaque]
    pub open spec fn spec_write_tags(m: DescribeShareGroupOffsetsResponseTopicView, version: i16) -> WriteOutcome {
        spec_write_tagged_fields(sorted_by_tag(m.unknown_tagged_fields))
    }

    pub open spec fn spec_write(m: DescribeShareGroupOffsetsResponseTopicView, version: i16) -> WriteOutcome {
        chain(
            chain(
                chain(
                    Self::spec_write_topic_name(m, version),
                    Self::spec_write_topic_id(m, version),
                ),
                Self::spec_write_partitions(m, version),
            ),
            Self::spec_write_tags(m, version),
        )
    }

    /// Whether reading back what writing `m` in `version` appends gives `m`:
    /// fields that the version does not carry hold their default values, and
    /// tagged fields come in the order in which they are written.
    pub open spec fn canonical(m: DescribeShareGroupOffsetsResponseTopicView, version: i16) -> bool {
        &&& all_canonical::<DescribeShareGroupOffsetsResponsePartition>(m.partitions, version)
        &&& tags_in_order(m.unknown_tagged_fields)
    }

    proof fn lemma_round_trip_topic_name(m: DescribeShareGroupOffsetsResponseTopicView, version: i16, rest: Seq<u8>)
        requires
            Self::canonical(m, version),
            Self::spec_write_topic_name(m, version) is Ok,
        ensures
            Self::spec_read_topic_name(written(Self::spec_write_topic_name(m, version)) + rest, version) == Ok::<(Seq<u8>, Seq<u8>), Error>((m.topic_name, rest)),
    {
        reveal(DescribeShareGroupOffsetsResponseTopic::spec_read_topic_name);
        reveal(DescribeShareGroupOffsetsResponseTopic::spec_write_topic_name);
        lemma_compact_string_round_trip(m.topic_name, rest);
    }

    proof fn lemma_round_trip_topic_id(m: DescribeShareGroupOffsetsResponseTopicView, version: i16, rest: Seq<u8>)
        requires
            Self::canonical(m, version),
            Self::spec_write_topic_id(m, version) is Ok,
        ensures
            Self::spec_read_topic_id(written(Self::spec_write_topic_id(m, version)) + rest, version) == Ok::<(KafkaUuid, Seq<u8>), Error>((m.topic_id, rest)),
    {
        reveal(DescribeShareGroupOffsetsResponseTopic::spec_read_topic_id);
        reveal(DescribeShareGroupOffsetsResponseTopic::spec_write_topic_id);
        lemma_uuid_round_trip(m.topic_id, rest);
    }

    proof fn lemma_round_trip_partitions(m: DescribeShareGroupOffsetsResponseTopicView, version: i16, rest: Seq<u8>)
        requires
            Self::canonical(m, version),
            Self::spec_write_partitions(m, version) is Ok,
        ensures
            Self::spec_read_partitions(written(Self::spec_write_partitions(m, version)) + rest, version) == Ok::<(Seq<DescribeShareGroupOffsetsResponsePartitionView>, Seq<u8>), Error>((m.partitions, rest)),
    {
        reveal(DescribeShareGroupOffsetsResponseTopic::spec_read_partitions);
        reveal(DescribeShareGroupOffsetsResponseTopic::spec_write_partitions);
        lemma_array_round_trip::<DescribeShareGroupOffsetsResponsePartition>(m.partitions, version, true, rest);
    }

    proof fn lemma_round_trip_tags(m: DescribeShareGroupOffsetsResponseTopicView, version: i16, rest: Seq<u8>)
        requires
            Self::canonical(m, version),
            Self::spec_write_tags(m, version) is Ok,
        ensures
            Self::spec_read_tags(written(Self::spec_write_tags(m, version)) + rest, version) == Ok::<(Seq<(u32, Seq<u8>)>, Seq<u8>), Error>((m.unknown_tagged_fields, rest)),
    {
        reveal(DescribeShareGroupOffsetsResponseTopic::spec_read_tags);
        reveal(DescribeShareGroupOffsetsResponseTopic::spec_write_tags);
        lemma_sorted_by_tag_in_order(m.unknown_tagged_fields);
        lemma_tagged_fields_round_trip(m.unknown_tagged_fields, rest);
    }

    /// Reading back what writing `m` in `version` appends gives `m` again, and
    /// leaves what follows, for every canonical message whose write succeeds.
    #[verifier::rlimit(80)]
    #[verifier::spinoff_prover]
    pub proof fn lemma_round_trip(m: DescribeShareGroupOffsetsResponseTopicView, version: i16, rest: Seq<u8>)
        requires
            Self::canonical(m, version),
            Self::spec_write(m, version) is Ok,
        ensures
            Self::spec_read(written(Self::spec_write(m, version)) + rest, version) == Ok::<(DescribeShareGroupOffsetsResponseTopicView, Seq<u8>), Error>((m, rest)),
    {
        let b0 = written(Self::spec_write_topic_name(m, version));
        let b1 = written(Self::spec_write_topic_id(m, version));
        let b2 = written(Self::spec_write_partitions(m, version));
        let b3 = written(Self::spec_write_tags(m, version));
        let t4 = rest;
        let t3 = b3 + t4;
        let t2 = b2 + t3;
        let t1 = b1 + t2;
        let t0 = b0 + t1;
        let w0 = Self::spec_write_topic_name(m, version);
        let w1 = chain(w0, Self::spec_write_topic_id(m, version));
        let w2 = chain(w1, Self::spec_write_partitions(m, version));
        let w3 = chain(w2, Self::spec_write_tags(m, version));
        assert(Self::spec_write(m, version) == w3);
        assert(written(w3) + t4 =~= written(w2) + t3);
        assert(written(w2) + t3 =~= written(w1) + t2);
        assert(written(w1) + t2 =~= written(w0) + t1);
        Self::lemma_round_trip_topic_name(m, version, t1);
        Self::lemma_round_trip_topic_id(m, version, t2);
        Self::lemma_round_trip_partitions(m, version, t3);
        Self::lemma_round_trip_tags(m, version, t4);
    }

    /// The default message holds the default value of each field of the schema.
    pub proof fn lemma_default_values()
        ensures
            Self::default_view().topic_name.len() == 0,
            Self::default_view().topic_id == (KafkaUuid { most_significant_bits: 0, least_significant_bits: 0 }),
            Self::default_view().partitions.len() == 0,
            Self::default_view().unknown_tagged_fields.len() == 0,
    {
    }

    /// Each integer, boolean and identifier field is written as its standard
    /// big-endian bytes (a boolean as `1` or `0`) in the versions that carry
    /// it, and as nothing in the others; reading it takes those bytes back (any
    /// byte other than `0` reads as `true`), or gives its default value.
    pub proof fn lemma_field_encodings(m: DescribeShareGroupOffsetsResponseTopicView, s: Seq<u8>, version: i16)
        ensures
            true ==> Self::spec_write_topic_id(m, version) == Ok::<Seq<u8>, (Error, Seq<u8>)>((u64_bytes(m.topic_id.most_significant_bits) + u64_bytes(m.topic_id.least_significant_bits))),
            true ==> Self::spec_read_topic_id(s, version) == spec_read_uuid(s),
    {
        reveal(DescribeShareGroupOffsetsResponseTopic::spec_write_topic_id);
        reveal(DescribeShareGroupOffsetsResponseTopic::spec_read_topic_id);
    }

    /// Whether writing `m` in `version` succeeds, said over its parts: the
    /// version is one the schema covers, every field that the version cannot
    /// carry holds its default value, and every string, byte string, array and
    /// tagged field fits its length prefix.
    pub open spec fn writable(m: DescribeShareGroupOffsetsResponseTopicView, version: i16) -> bool {
        &&& m.topic_name.len() <= 0x7fff
        &&& (m.partitions.len() <= i32::MAX && all_writable::<DescribeShareGroupOffsetsResponsePartition>(m.partitions, version))
        &&& m.unknown_tagged_fields.len() <= u32::MAX && tags_fit(m.unknown_tagged_fields)
    }

    proof fn lemma_writable_topic_name(m: DescribeShareGroupOffsetsResponseTopicView, version: i16)
        ensures
            Self::spec_write_topic_name(m, version) is Ok <==> m.topic_name.len() <= 0x7fff,
    {
        reveal(DescribeShareGroupOffsetsResponseTopic::spec_write_topic_name);
    }

    proof fn lemma_writable_topic_id(m: DescribeShareGroupOffsetsResponseTopicView, version: i16)
        ensures
            Self::spec_write_topic_id(m, version) is Ok <==> true,
    {
        reveal(DescribeShareGroupOffsetsResponseTopic::spec_write_topic_id);
    }

    proof fn lemma_writable_partitions(m: DescribeShareGroupOffsetsResponseTopicView, version: i16)
        ensures
            Self::spec_write_partitions(m, version) is Ok <==> (m.partitions.len() <= i32::MAX && all_writable::<DescribeShareGroupOffsetsResponsePartition>(m.partitions, version)),
    {
        reveal(DescribeShareGroupOffsetsResponseTopic::spec_write_partitions);
        lemma_array_writable::<DescribeShareGroupOffsetsResponsePartition>(m.partitions, version, true);
    }

    proof fn lemma_writable_tags(m: DescribeShareGroupOffsetsResponseTopicView, version: i16)
        ensures
            Self::spec_write_tags(m, version) is Ok <==> m.unknown_tagged_fields.len() <= u32::MAX && tags_fit(m.unknown_tagged_fields),
    {
        reveal(DescribeShareGroupOffsetsResponseTopic::spec_write_tags);
        lemma_sorted_tags_fit(m.unknown_tagged_fields);
        lemma_tagged_fields_writable(sorted_by_tag(m.unknown_tagged_fields));
    }

    /// Writing `m` in `version` succeeds exactly when `m` is writable in it;
    /// so do `write` and `encoded_len`, whose results follow `spec_write`.
    #[verifier::rlimit(54)]
    pub proof fn lemma_writable(m: DescribeShareGroupOffsetsResponseTopicView, version: i16)
        ensures
            Self::spec_write(m, version) is Ok <==> Self::writable(m, version),
    {
        Self::lemma_writable_topic_name(m, version);
        Self::lemma_writable_topic_id(m, version);
        Self::lemma_writable_partitions(m, version);
        Self::lemma_writable_tags(m, version);
    }

    fn read_topic_name(buf: &mut Bytes, version: i16) -> (r: Result<KafkaString, Error>)
        ensures
            read_as(Self::spec_read_topic_name(bytes_seq(*old(buf)), version), *final(buf), r),
            took_front(*old(buf), *final(buf)),
    {
        proof {
            reveal(DescribeShareGroupOffsetsResponseTopic::spec_read_topic_name);
        }
        Ok(read_compact_string(buf)?)
    }

    fn read_topic_id(buf: &mut Bytes, version: i16) -> (r: Result<KafkaUuid, Error>)
        ensures
            read_as(Self::spec_read_topic_id(bytes_seq(*old(buf)), version), *final(buf), r),
            took_front(*old(buf), *final(buf)),
    {
        proof {
            reveal(DescribeShareGroupOffsetsResponseTopic::spec_read_topic_id);
        }
        Ok(read_uuid(buf)?)
    }

    fn read_partitions(buf: &mut Bytes, version: i16) -> (r: Result<Vec<DescribeShareGroupOffsetsResponsePartition>, Error>)
        ensures
            read_vec_as(Self::spec_read_partitions(bytes_seq(*old(buf)), version), *final(buf), r),
            took_front(*old(buf), *final(buf)),
    {
        proof {
            reveal(DescribeShareGroupOffsetsResponseTopic::spec_read_partitions);
        }
        Ok(read_array::<DescribeShareGroupOffsetsResponsePartition>(buf, version, true)?)
    }

    fn read_tags(buf: &mut Bytes, version: i16) -> (r: Result<Vec<RawTaggedField>, Error>)
        ensures
            read_vec_as(Self::spec_read_tags(bytes_seq(*old(buf)), version), *final(buf), r),
            took_front(*old(buf), *final(buf)),
    {
        proof {
            reveal(DescribeShareGroupOffsetsResponseTopic::spec_read_tags);
        }
        Ok(read_tagged_fields(buf)?)
    }

    pub fn read(buf: &mut Bytes, version: i16) -> (r: Result<Self, Error>)
        ensures
            read_as(Self::spec_read(bytes_seq(*old(buf)), version), *final(buf), r),
            took_front(*old(buf), *final(buf)),
    {
        let topic_name = Self::read_topic_name(buf, version)?;
        let topic_id = Self::read_topic_id(buf, version)?;
        let partitions = Self::read_partitions(buf, version)?;
        let _unknown_tagged_fields = Self::read_tags(buf, version)?;
        Ok(DescribeShareGroupOffsetsResponseTopic {
                topic_name: topic_name,
                topic_id: topic_id,
                partitions: partitions,
                _unknown_tagged_fields: _unknown_tagged_fields,
        })
    }

    #[verifier::rlimit(70)]
    pub fn write(&self, buf: &mut BytesMut, version: i16) -> (r: Result<(), Error>)
        requires
            has_room(Self::spec_write(self@, version), *old(buf)),
        ensures
            wrote(Self::spec_write(self@, version), *old(buf), *final(buf), r),
    {
        let ghost m = self@;
        proof {
            reveal(DescribeShareGroupOffsetsResponseTopic::spec_write_topic_name);
            reveal(DescribeShareGroupOffsetsResponseTopic::spec_write_topic_id);
            reveal(DescribeShareGroupOffsetsResponseTopic::spec_write_partitions);
            reveal(DescribeShareGroupOffsetsResponseTopic::spec_write_tags);
        }
        let ghost s0 = Self::spec_write_topic_name(m, version);
        let ghost w0 = s0;
        let ghost s1 = Self::spec_write_topic_id(m, version);
        let ghost w1 = chain(w0, s1);
        let ghost s2 = Self::spec_write_partitions(m, version);
        let ghost w2 = chain(w1, s2);
        let ghost s3 = Self::spec_write_tags(m, version);
        let ghost w3 = chain(w2, s3);
        assert(Self::spec_write(m, version) == w3);
        assert(written(w2).len() <= written(w3).len() && (w2 is Err ==> w3 == w2));
        assert(written(w1).len() <= written(w3).len() && (w1 is Err ==> w3 == w1));
        assert(written(w0).len() <= written(w3).len() && (w0 is Err ==> w3 == w0));
        let ghost mid = bytes_mut_seq(*buf);
        proof {
            lemma_append_empty(mid);
        }
        let r0 = write_compact_string(buf, &self.topic_name);
        assert(bytes_mut_seq(*buf) == mid + written(s0));
        if r0.is_err() {
            return r0;
        }
        let ghost mid = bytes_mut_seq(*buf);
        proof {
            lemma_append_empty(mid);
        }
        let r1 = {
            write_uuid(buf, self.topic_id);
            Ok(())
        };
        assert(bytes_mut_seq(*buf) == mid + written(s1));
        proof {
            lemma_step(bytes_mut_seq(*old(buf)), w0, s1);
        }
        if r1.is_err() {
            return r1;
        }
        let ghost mid = bytes_mut_seq(*buf);
        proof {
            lemma_append_empty(mid);
        }
        let r2 = write_array::<DescribeShareGroupOffsetsResponsePartition>(buf, &self.partitions, version, true);
        assert(bytes_mut_seq(*buf) == mid + written(s2));
        proof {
            lemma_step(bytes_mut_seq(*old(buf)), w1, s2);
        }
        if r2.is_err() {
            return r2;
        }
        let ghost mid = bytes_mut_seq(*buf);
        proof {
            lemma_append_empty(mid);
        }
        let r3 = write_tagged_fields(buf, &sort_by_tag(&self._unknown_tagged_fields));
        assert(bytes_mut_seq(*buf) == mid + written(s3));
        proof {
            lemma_step(bytes_mut_seq(*old(buf)), w2, s3);
        }
        if r3.is_err() {
            return r3;
        }
        Ok(())
    }
}

#[derive(Debug, PartialEq)]
pub struct DescribeShareGroupOffsetsResponsePartition {
    /// The partition index.
    pub partition_index: i32,
    /// The share-partition start offset.
    pub start_offset: i64,
    /// The leader epoch of the partition.
    pub leader_epoch: i32,
    /// The share-partition lag.
    pub lag: i64,
    /// The partition-level error code, or 0 if there was no error.
    pub error_code: i16,
    /// The partition-level error message, or null if there was no error.
    pub error_message: Option<KafkaString>,
    pub _unknown_tagged_fields: Vec<RawTaggedField>,
}

/// What a `DescribeShareGroupOffsetsResponsePartition` holds, as the specification sees it.
#[verifier::ext_equal]
pub struct DescribeShareGroupOffsetsResponsePartitionView {
    pub partition_index: i32,
    pub start_offset: i64,
    pub leader_epoch: i32,
    pub lag: i64,
    pub error_code: i16,
    pub error_message: Option<Seq<u8>>,
    pub unknown_tagged_fields: Seq<(u32, Seq<u8>)>,
}

impl View for DescribeShareGroupOffsetsResponsePartition {
    type V = DescribeShareGroupOffsetsResponsePartitionView;

    open spec fn view(&self) -> DescribeShareGroupOffsetsResponsePartitionView {
        DescribeShareGroupOffsetsResponsePartitionView {
            partition_index: self.partition_index,
            start_offset: self.start_offset,
            leader_epoch: self.leader_epoch,
            lag: self.lag,
            error_code: self.error_code,
            error_message: opt_view(self.error_message),
            unknown_tagged_fields: views(self._unknown_tagged_fields@),
        }
    }
}

impl Clone for DescribeShareGroupOffsetsResponsePartition {
    fn clone(&self) -> (r: Self)
        ensures
            r@ == self@,
    {
        let r = DescribeShareGroupOffsetsResponsePartition {
            partition_index: self.partition_index,
            start_offset: self.start_offset,
            leader_epoch: self.leader_epoch,
            lag: self.lag,
            error_code: self.error_code,
            error_message: match &self.error_message {
                Some(x) => Some(x.clone()),
                None => None,
            },
            _unknown_tagged_fields: clone_vec(&self._unknown_tagged_fields),
        };
        assert(r@ =~= self@);
        r
    }
}

impl ViewClone for DescribeShareGroupOffsetsResponsePartition {
    fn clone_view(&self) -> (r: Self) {
        self.clone()
    }
}

impl Default for DescribeShareGroupOffsetsResponsePartition {
    fn default() -> (r: Self)
        ensures
            r@ == Self::default_view(),
    {
        let r = DescribeShareGroupOffsetsResponsePartition {
            partition_index: 0_i32,
            start_offset: 0_i64,
            leader_epoch: 0_i32,
            lag: -1i64,
            error_code: 0_i16,
            error_message: None,
            _unknown_tagged_fields: empty_vec(),
        };
        assert(r@ =~= Self::default_view());
        r
    }
}

impl DescribeShareGroupOffsetsResponsePartition {
    pub open spec fn default_view() -> DescribeShareGroupOffsetsResponsePartitionView {
        DescribeShareGroupOffsetsResponsePartitionView {
            partition_index: 0_i32,
            start_offset: 0_i64,
            leader_epoch: 0_i32,
            lag: -1i64,
            error_code: 0_i16,
            error_message: None,
            unknown_tagged_fields: Seq::empty(),
        }
    }

    /// The `partition_index` field, read from the front of `s`.
    #[verifier::opaque]
    pub open spec fn spec_read_partition_index(s: Seq<u8>, version: i16) -> ReadOutcome<i32> {
        spec_read_i32(s)
    }

    /// The `start_offset` field, read from the front of `s`.
    #[verifier::opaque]
    pub open spec fn spec_read_start_offset(s: Seq<u8>, version: i16) -> ReadOutcome<i64> {
        spec_read_i64(s)
    }

    /// The `leader_epoch` field, read from the front of `s`.
    #[verifier::opaque]
    pub open spec fn spec_read_leader_epoch(s: Seq<u8>, version: i16) -> ReadOutcome<i32> {
        spec_read_i32(s)
    }

    /// The `lag` field, read from the front of `s`.
    #[verifier::opaque]
    pub open spec fn spec_read_lag(s: Seq<u8>, version: i16) -> ReadOutcome<i64> {
        if version >= 1 {
            spec_read_i64(s)
        } else {
            Ok((-1i64, s))
        }
    }

    /// The `error_code` field, read from the front of `s`.
    #[verifier::opaque]
    pub open spec fn spec_read_error_code(s: Seq<u8>, version: i16) -> ReadOutcome<i16> {
        spec_read_i16(s)
    }

    /// The `error_message` field, read from the front of `s`.
    #[verifier::opaque]
    pub open spec fn spec_read_error_message(s: Seq<u8>, version: i16) -> ReadOutcome<Option<Seq<u8>>> {
        spec_read_compact_nullable_string(s)
    }

    /// The tagged fields, read from the front of `s`.
    #[verifier::opaque]
    pub open spec fn spec_read_tags(s: Seq<u8>, version: i16) -> ReadOutcome<Seq<(u32, Seq<u8>)>> {
        spec_read_tagged_fields(s)
    }

    pub open spec fn spec_read(s: Seq<u8>, version: i16) -> ReadOutcome<DescribeShareGroupOffsetsResponsePartitionView> {
        match (Self::spec_read_partition_index(s, version)) {
            Err(e) => Err(e),
            Ok((partition_index, s)) => match (Self::spec_read_start_offset(s, version)) {
                Err(e) => Err(e),
                Ok((start_offset, s)) => match (Self::spec_read_leader_epoch(s, version)) {
                    Err(e) => Err(e),
                    Ok((leader_epoch, s)) => match (Self::spec_read_lag(s, version)) {
                        Err(e) => Err(e),
                        Ok((lag, s)) => match (Self::spec_read_error_code(s, version)) {
                            Err(e) => Err(e),
                            Ok((error_code, s)) => match (Self::spec_read_error_message(s, version)) {
                                Err(e) => Err(e),
                                Ok((error_message, s)) => match (Self::spec_read_tags(s, version)) {
                                    Err(e) => Err(e),
                                    Ok((unknown_tagged_fields, s)) => Ok((DescribeShareGroupOffsetsResponsePartitionView {
                                                partition_index: partition_index,
                                                start_offset: start_offset,
                                                leader_epoch: leader_epoch,
                                                lag: lag,
                                                error_code: error_code,
                                                error_message: error_message,
                                                unknown_tagged_fields: unknown_tagged_fields,
                                            }, s)),
                                },
                            },
                        },
                    },
                },
            },
        }
    }

    /// What writing the `partition_index` field of `m` appends.
    #[verifier::opaque]
    pub open spec fn spec_write_partition_index(m: DescribeShareGroupOffsetsResponsePartitionView, version: i16) -> WriteOutcome {
        spec_write_i32(m.partition_index)
    }

    /// What writing the `start_offset` field of `m` appends.
    #[verifier::opaque]
    pub open spec fn spec_write_start_offset(m: DescribeShareGroupOffsetsResponsePartitionView, version: i16) -> WriteOutcome {
        spec_write_i64(m.start_offset)
    }

    /// What writing the `leader_epoch` field of `m` appends.
    #[verifier::opaque]
    pub open spec fn spec_write_leader_epoch(m: DescribeShareGroupOffsetsResponsePartitionView, version: i16) -> WriteOutcome {
        spec_write_i32(m.leader_epoch)
    }

    /// What writing the `lag` field of `m` appends.
    #[verifier::opaque]
    pub open spec fn spec_write_lag(m: DescribeShareGroupOffsetsResponsePartitionView, version: i16) -> WriteOutcome {
        if version >= 1 {
            spec_write_i64(m.lag)
        } else {
            emit(Seq::empty())
        }
    }

    /// What writing the `error_code` field of `m` appends.
    #[verifier::opaque]
    pub open spec fn spec_write_error_code(m: DescribeShareGroupOffsetsResponsePartitionView, version: i16) -> WriteOutcome {
        spec_write_i16(m.error_code)
    }

    /// What writing the `error_message` field of `m` appends.
    #[verifier::opaque]
    pub open spec fn spec_write_error_message(m: DescribeShareGroupOffsetsResponsePartitionView, version: i16) -> WriteOutcome {
        spec_write_compact_nullable_string(m.error_message)
    }

    /// What writing the tagged fields of `m` appends.
    #[verifier::opaque]
    pub open spec fn spec_write_tags(m: DescribeShareGroupOffsetsResponsePartitionView, version: i16) -> WriteOutcome {
        spec_write_tagged_fields(sorted_by_tag(m.unknown_tagged_fields))
    }

    pub open spec fn spec_write(m: DescribeShareGroupOffsetsResponsePartitionView, version: i16) -> WriteOutcome {
        chain(
            chain(
                chain(
                    chain(
                        chain(
                            chain(
                                Self::spec_write_partition_index(m, version),
                                Self::spec_write_start_offset(m, version),
                            ),
                            Self::spec_write_leader_epoch(m, version),
                        ),
                        Self::spec_write_lag(m, version),
                    ),
                    Self::spec_write_error_code(m, version),
                ),
                Self::spec_write_error_message(m, version),
            ),
            Self::spec_write_tags(m, version),
        )
    }

    /// Whether reading back what writing `m` in `version` appends gives `m`:
    /// fields that the version does not carry hold their default values, and
    /// tagged fields come in the order in which they are written.
    pub open spec fn canonical(m: DescribeShareGroupOffsetsResponsePartitionView, version: i16) -> bool {
        &&& (if version >= 1 {
                true
            } else {
                m.lag == -1i64
        })
        &&& tags_in_order(m.unknown_tagged_fields)
    }

    proof fn lemma_round_trip_partition_index(m: DescribeShareGroupOffsetsResponsePartitionView, version: i16, rest: Seq<u8>)
        requires
            Self::canonical(m, version),
            Self::spec_write_partition_index(m, version) is Ok,
        ensures
            Self::spec_read_partition_index(written(Self::spec_write_partition_index(m, version)) + rest, version) == Ok::<(i32, Seq<u8>), Error>((m.partition_index, rest)),
    {
        reveal(DescribeShareGroupOffsetsResponsePartition::spec_read_partition_index);
        reveal(DescribeShareGroupOffsetsResponsePartition::spec_write_partition_index);
        lemma_i32_roundtrip(m.partition_index, rest);
    }

    proof fn lemma_round_trip_start_offset(m: DescribeShareGroupOffsetsResponsePartitionView, version: i16, rest: Seq<u8>)
        requires
            Self::canonical(m, version),
            Self::spec_write_start_offset(m, version) is Ok,
        ensures
            Self::spec_read_start_offset(written(Self::spec_write_start_offset(m, version)) + rest, version) == Ok::<(i64, Seq<u8>), Error>((m.start_offset, rest)),
    {
        reveal(DescribeShareGroupOffsetsResponsePartition::spec_read_start_offset);
        reveal(DescribeShareGroupOffsetsResponsePartition::spec_write_start_offset);
        lemma_i64_roundtrip(m.start_offset, rest);
    }

    proof fn lemma_round_trip_leader_epoch(m: DescribeShareGroupOffsetsResponsePartitionView, version: i16, rest: Seq<u8>)
        requires
            Self::canonical(m, version),
            Self::spec_write_leader_epoch(m, version) is Ok,
        ensures
            Self::spec_read_leader_epoch(written(Self::spec_write_leader_epoch(m, version)) + rest, version) == Ok::<(i32, Seq<u8>), Error>((m.leader_epoch, rest)),
    {
        reveal(DescribeShareGroupOffsetsResponsePartition::spec_read_leader_epoch);
        reveal(DescribeShareGroupOffsetsResponsePartition::spec_write_leader_epoch);
        lemma_i32_roundtrip(m.leader_epoch, rest);
    }

    proof fn lemma_round_trip_lag(m: DescribeShareGroupOffsetsResponsePartitionView, version: i16, rest: Seq<u8>)
        requires
            Self::canonical(m, version),
            Self::spec_write_lag(m, version) is Ok,
        ensures
            Self::spec_read_lag(written(Self::spec_write_lag(m, version)) + rest, version) == Ok::<(i64, Seq<u8>), Error>((m.lag, rest)),
    {
        reveal(DescribeShareGroupOffsetsResponsePartition::spec_read_lag);
        reveal(DescribeShareGroupOffsetsResponsePartition::spec_write_lag);
        if version >= 1 {
            lemma_i64_roundtrip(m.lag, rest);
        } else {
            assert(Seq::<u8>::empty() + rest =~= rest);
        }
    }

    proof fn lemma_round_trip_error_code(m: DescribeShareGroupOffsetsResponsePartitionView, version: i16, rest: Seq<u8>)
        requires
            Self::canonical(m, version),
            Self::spec_write_error_code(m, version) is Ok,
        ensures
            Self::spec_read_error_code(written(Self::spec_write_error_code(m, version)) + rest, version) == Ok::<(i16, Seq<u8>), Error>((m.error_code, rest)),
    {
        reveal(DescribeShareGroupOffsetsResponsePartition::spec_read_error_code);
        reveal(DescribeShareGroupOffsetsResponsePartition::spec_write_error_code);
        lemma_i16_roundtrip(m.error_code, rest);
    }

    proof fn lemma_round_trip_error_message(m: DescribeShareGroupOffsetsResponsePartitionView, version: i16, rest: Seq<u8>)
        requires
            Self::canonical(m, version),
            Self::spec_write_error_message(m, version) is Ok,
        ensures
            Self::spec_read_error_message(written(Self::spec_write_error_message(m, version)) + rest, version) == Ok::<(Option<Seq<u8>>, Seq<u8>), Error>((m.error_message, rest)),
    {
        reveal(DescribeShareGroupOffsetsResponsePartition::spec_read_error_message);
        reveal(DescribeShareGroupOffsetsResponsePartition::spec_write_error_message);
        lemma_compact_nullable_string_round_trip(m.error_message, rest);
    }

    proof fn lemma_round_trip_tags(m: DescribeShareGroupOffsetsResponsePartitionView, version: i16, rest: Seq<u8>)
        requires
            Self::canonical(m, version),
            Self::spec_write_tags(m, version) is Ok,
        ensures
            Self::spec_read_tags(written(Self::spec_write_tags(m, version)) + rest, version) == Ok::<(Seq<(u32, Seq<u8>)>, Seq<u8>), Error>((m.unknown_tagged_fields, rest)),
    {
        reveal(DescribeShareGroupOffsetsResponsePartition::spec_read_tags);
        reveal(DescribeShareGroupOffsetsResponsePartition::spec_write_tags);
        lemma_sorted_by_tag_in_order(m.unknown_tagged_fields);
        lemma_tagged_fields_round_trip(m.unknown_tagged_fields, rest);
    }

    /// Reading back what writing `m` in `version` appends gives `m` again, and
    /// leaves what follows, for every canonical message whose write succeeds.
    #[verifier::rlimit(100)]
    #[verifier::spinoff_prover]
    pub proof fn lemma_round_trip(m: DescribeShareGroupOffsetsResponsePartitionView, version: i16, rest: Seq<u8>)
        requires
            Self::canonical(m, version),
            Self::spec_write(m, version) is Ok,
        ensures
            Self::spec_read(written(Self::spec_write(m, version)) + rest, version) == Ok::<(DescribeShareGroupOffsetsResponsePartitionView, Seq<u8>), Error>((m, rest)),
    {
        let b0 = written(Self::spec_write_partition_index(m, version));
        let b1 = written(Self::spec_write_start_offset(m, version));
        let b2 = written(Self::spec_write_leader_epoch(m, version));
        let b3 = written(Self::spec_write_lag(m, version));
        let b4 = written(Self::spec_write_error_code(m, version));
        let b5 = written(Self::spec_write_error_message(m, version));
        let b6 = written(Self::spec_write_tags(m, version));
        let t7 = rest;
        let t6 = b6 + t7;
        let t5 = b5 + t6;
        let t4 = b4 + t5;
        let t3 = b3 + t4;
        let t2 = b2 + t3;
        let t1 = b1 + t2;
        let t0 = b0 + t1;
        let w0 = Self::spec_write_partition_index(m, version);
        let w1 = chain(w0, Self::spec_write_start_offset(m, version));
        let w2 = chain(w1, Self::spec_write_leader_epoch(m, version));
        let w3 = chain(w2, Self::spec_write_lag(m, version));
        let w4 = chain(w3, Self::spec_write_error_code(m, version));
        let w5 = chain(w4, Self::spec_write_error_message(m, version));
        let w6 = chain(w5, Self::spec_write_tags(m, version));
        assert(Self::spec_write(m, version) == w6);
        assert(written(w6) + t7 =~= written(w5) + t6);
        assert(written(w5) + t6 =~= written(w4) + t5);
        assert(written(w4) + t5 =~= written(w3) + t4);
        assert(written(w3) + t4 =~= written(w2) + t3);
        assert(written(w2) + t3 =~= written(w1) + t2);
        assert(written(w1) + t2 =~= written(w0) + t1);
        Self::lemma_round_trip_partition_index(m, version, t1);
        Self::lemma_round_trip_start_offset(m, version, t2);
        Self::lemma_round_trip_leader_epoch(m, version, t3);
        Self::lemma_round_trip_lag(m, version, t4);
        Self::lemma_round_trip_error_code(m, version, t5);
        Self::lemma_round_trip_error_message(m, version, t6);
        Self::lemma_round_trip_tags(m, version, t7);
    }

    /// In a version that does not carry `lag`, writing ignores its value.
    pub proof fn lemma_write_ignores_lag(m: DescribeShareGroupOffsetsResponsePartitionView, value: i64, version: i16)
        requires
            !(version >= 1),
        ensures
            Self::spec_write((DescribeShareGroupOffsetsResponsePartitionView { lag: value, ..m }), version) == Self::spec_write(m, version),
    {
        reveal(DescribeShareGroupOffsetsResponsePartition::spec_write_partition_index);
        reveal(DescribeShareGroupOffsetsResponsePartition::spec_write_start_offset);
        reveal(DescribeShareGroupOffsetsResponsePartition::spec_write_leader_epoch);
        reveal(DescribeShareGroupOffsetsResponsePartition::spec_write_lag);
        reveal(DescribeShareGroupOffsetsResponsePartition::spec_write_error_code);
        reveal(DescribeShareGroupOffsetsResponsePartition::spec_write_error_message);
        reveal(DescribeShareGroupOffsetsResponsePartition::spec_write_tags);
    }

    /// The default message holds the default value of each field of the schema.
    pub proof fn lemma_default_values()
        ensures
            Self::default_view().partition_index == (0_i32),
            Self::default_view().start_offset == (0_i64),
            Self::default_view().leader_epoch == (0_i32),
            Self::default_view().lag == (-1i64),
            Self::default_view().error_code == (0_i16),
            (Self::default_view().error_message is None),
            Self::default_view().unknown_tagged_fields.len() == 0,
    {
    }

    /// Each integer, boolean and identifier field is written as its standard
    /// big-endian bytes (a boolean as `1` or `0`) in the versions that carry
    /// it, and as nothing in the others; reading it takes those bytes back (any
    /// byte other than `0` reads as `true`), or gives its default value.
    pub proof fn lemma_field_encodings(m: DescribeShareGroupOffsetsResponsePartitionView, s: Seq<u8>, version: i16)
        ensures
            true ==> Self::spec_write_partition_index(m, version) == Ok::<Seq<u8>, (Error, Seq<u8>)>(u32_bytes(m.partition_index as u32)),
            true ==> Self::spec_write_start_offset(m, version) == Ok::<Seq<u8>, (Error, Seq<u8>)>(u64_bytes(m.start_offset as u64)),
            true ==> Self::spec_write_leader_epoch(m, version) == Ok::<Seq<u8>, (Error, Seq<u8>)>(u32_bytes(m.leader_epoch as u32)),
            version >= 1 ==> Self::spec_write_lag(m, version) == Ok::<Seq<u8>, (Error, Seq<u8>)>(u64_bytes(m.lag as u64)),
            !(version >= 1) ==> Self::spec_write_lag(m, version) == Ok::<Seq<u8>, (Error, Seq<u8>)>(Seq::empty()),
            true ==> Self::spec_write_error_code(m, version) == Ok::<Seq<u8>, (Error, Seq<u8>)>(u16_bytes(m.error_code as u16)),
            true ==> Self::spec_read_partition_index(s, version) == spec_read_i32(s),
            true ==> Self::spec_read_start_offset(s, version) == spec_read_i64(s),
            true ==> Self::spec_read_leader_epoch(s, version) == spec_read_i32(s),
            version >= 1 ==> Self::spec_read_lag(s, version) == spec_read_i64(s),
            !(version >= 1) ==> Self::spec_read_lag(s, version) == Ok::<(i64, Seq<u8>), Error>((-1i64, s)),
            true ==> Self::spec_read_error_code(s, version) == spec_read_i16(s),
    {
        reveal(DescribeShareGroupOffsetsResponsePartition::spec_write_partition_index);
        reveal(DescribeShareGroupOffsetsResponsePartition::spec_read_partition_index);
        reveal(DescribeShareGroupOffsetsResponsePartition::spec_write_start_offset);
        reveal(DescribeShareGroupOffsetsResponsePartition::spec_read_start_offset);
        reveal(DescribeShareGroupOffsetsResponsePartition::spec_write_leader_epoch);
        reveal(DescribeShareGroupOffsetsResponsePartition::spec_read_leader_epoch);
        reveal(DescribeShareGroupOffsetsResponsePartition::spec_write_lag);
        reveal(DescribeShareGroupOffsetsResponsePartition::spec_read_lag);
        reveal(DescribeShareGroupOffsetsResponsePartition::spec_write_error_code);
        reveal(DescribeShareGroupOffsetsResponsePartition::spec_read_error_code);
    }

    /// Whether writing `m` in `version` succeeds, said over its parts: the
    /// version is one the schema covers, every field that the version cannot
    /// carry holds its default value, and every string, byte string, array and
    /// tagged field fits its length prefix.
    pub open spec fn writable(m: DescribeShareGroupOffsetsResponsePartitionView, version: i16) -> bool {
        &&& (m.error_message matches Some(b) ==> b.len() <= 0x7fff)
        &&& m.unknown_tagged_fields.len() <= u32::MAX && tags_fit(m.unknown_tagged_fields)
    }

    proof fn lemma_writable_partition_index(m: DescribeShareGroupOffsetsResponsePartitionView, version: i16)
        ensures
            Self::spec_write_partition_index(m, version) is Ok <==> true,
    {
        reveal(DescribeShareGroupOffsetsResponsePartition::spec_write_partition_index);
    }

    proof fn lemma_writable_start_offset(m: DescribeShareGroupOffsetsResponsePartitionView, version: i16)
        ensures
            Self::spec_write_start_offset(m, version) is Ok <==> true,
    {
        reveal(DescribeShareGroupOffsetsResponsePartition::spec_write_start_offset);
    }

    proof fn lemma_writable_leader_epoch(m: DescribeShareGroupOffsetsResponsePartitionView, version: i16)
        ensures
            Self::spec_write_leader_epoch(m, version) is Ok <==> true,
    {
        reveal(DescribeShareGroupOffsetsResponsePartition::spec_write_leader_epoch);
    }

    proof fn lemma_writable_lag(m: DescribeShareGroupOffsetsResponsePartitionView, version: i16)
        ensures
            Self::spec_write_lag(m, version) is Ok <==> true,
    {
        reveal(DescribeShareGroupOffsetsResponsePartition::spec_write_lag);
    }

    proof fn lemma_writable_error_code(m: DescribeShareGroupOffsetsResponsePartitionView, version: i16)
        ensures
            Self::spec_write_error_code(m, version) is Ok <==> true,
    {
        reveal(DescribeShareGroupOffsetsResponsePartition::spec_write_error_code);
    }

    proof fn lemma_writable_error_message(m: DescribeShareGroupOffsetsResponsePartitionView, version: i16)
        ensures
            Self::spec_write_error_message(m, version) is Ok <==> (m.error_message matches Some(b) ==> b.len() <= 0x7fff),
    {
        reveal(DescribeShareGroupOffsetsResponsePartition::spec_write_error_message);
    }

    proof fn lemma_writable_tags(m: DescribeShareGroupOffsetsResponsePartitionView, version: i16)
        ensures
            Self::spec_write_tags(m, version) is Ok <==> m.unknown_tagged_fields.len() <= u32::MAX && tags_fit(m.unknown_tagged_fields),
    {
        reveal(DescribeShareGroupOffsetsResponsePartition::spec_write_tags);
        lemma_sorted_tags_fit(m.unknown_tagged_fields);
        lemma_tagged_fields_writable(sorted_by_tag(m.unknown_tagged_fields));
    }

    /// Writing `m` in `version` succeeds exactly when `m` is writable in it;
    /// so do `write` and `encoded_len`, whose results follow `spec_write`.
    #[verifier::rlimit(72)]
    pub proof fn lemma_writable(m: DescribeShareGroupOffsetsResponsePartitionView, version: i16)
        ensures
            Self::spec_write(m, version) is Ok <==> Self::writable(m, version),
    {
        Self::lemma_writable_partition_index(m, version);
        Self::lemma_writable_start_offset(m, version);
        Self::lemma_writable_leader_epoch(m, version);
        Self::lemma_writable_lag(m, version);
        Self::lemma_writable_error_code(m, version);
        Self::lemma_writable_error_message(m, version);
        Self::lemma_writable_tags(m, version);
    }

    fn read_partition_index(buf: &mut Bytes, version: i16) -> (r: Result<i32, Error>)
        ensures
            read_as(Self::spec_read_partition_index(bytes_seq(*old(buf)), version), *final(buf), r),
            took_front(*old(buf), *final(buf)),
    {
        proof {
            reveal(DescribeShareGroupOffsetsResponsePartition::spec_read_partition_index);
        }
        Ok(read_i32(buf)?)
    }

    fn read_start_offset(buf: &mut Bytes, version: i16) -> (r: Result<i64, Error>)
        ensures
            read_as(Self::spec_read_start_offset(bytes_seq(*old(buf)), version), *final(buf), r),
            took_front(*old(buf), *final(buf)),
    {
        proof {
            reveal(DescribeShareGroupOffsetsResponsePartition::spec_read_start_offset);
        }
        Ok(read_i64(buf)?)
    }

    fn read_leader_epoch(buf: &mut Bytes, version: i16) -> (r: Result<i32, Error>)
        ensures
            read_as(Self::spec_read_leader_epoch(bytes_seq(*old(buf)), version), *final(buf), r),
            took_front(*old(buf), *final(buf)),
    {
        proof {
            reveal(DescribeShareGroupOffsetsResponsePartition::spec_read_leader_epoch);
        }
        Ok(read_i32(buf)?)
    }

    fn read_lag(buf: &mut Bytes, version: i16) -> (r: Result<i64, Error>)
        ensures
            read_as(Self::spec_read_lag(bytes_seq(*old(buf)), version), *final(buf), r),
            took_front(*old(buf), *final(buf)),
    {
        proof {
            reveal(DescribeShareGroupOffsetsResponsePartition::spec_read_lag);
        }
        Ok(if version >= 1 {
                read_i64(buf)?
            } else {
                -1i64
        })
    }

    fn read_error_code(buf: &mut Bytes, version: i16) -> (r: Result<i16, Error>)
        ensures
            read_as(Self::spec_read_error_code(bytes_seq(*old(buf)), version), *final(buf), r),
            took_front(*old(buf), *final(buf)),
    {
        proof {
            reveal(DescribeShareGroupOffsetsResponsePartition::spec_read_error_code);
        }
        Ok(read_i16(buf)?)
    }

    fn read_error_message(buf: &mut Bytes, version: i16) -> (r: Result<Option<KafkaString>, Error>)
        ensures
            read_opt_as(Self::spec_read_error_message(bytes_seq(*old(buf)), version), *final(buf), r),
            took_front(*old(buf), *final(buf)),
    {
        proof {
            reveal(DescribeShareGroupOffsetsResponsePartition::spec_read_error_message);
        }
        Ok(read_compact_nullable_string(buf)?)
    }

    fn read_tags(buf: &mut Bytes, version: i16) -> (r: Result<Vec<RawTaggedField>, Error>)
        ensures
            read_vec_as(Self::spec_read_tags(bytes_seq(*old(buf)), version), *final(buf), r),
            took_front(*old(buf), *final(buf)),
    {
        proof {
            reveal(DescribeShareGroupOffsetsResponsePartition::spec_read_tags);
        }
        Ok(read_tagged_fields(buf)?)
    }

    #[verifier::rlimit(62)]
    #[verifier::spinoff_prover]
    pub fn read(buf: &mut Bytes, version: i16) -> (r: Result<Self, Error>)
        ensures
            read_as(Self::spec_read(bytes_seq(*old(buf)), version), *final(buf), r),
            took_front(*old(buf), *final(buf)),
    {
        let partition_index = Self::read_partition_index(buf, version)?;
        let start_offset = Self::read_start_offset(buf, version)?;
        let leader_epoch = Self::read_leader_epoch(buf, version)?;
        let lag = Self::read_lag(buf, version)?;
        let error_code = Self::read_error_code(buf, version)?;
        let error_message = Self::read_error_message(buf, version)?;
        let _unknown_tagged_fields = Self::read_tags(buf, version)?;
        Ok(DescribeShareGroupOffsetsResponsePartition {
                partition_index: partition_index,
                start_offset: start_offset,
                leader_epoch: leader_epoch,
                lag: lag,
                error_code: error_code,
                error_message: error_message,
                _unknown_tagged_fields: _unknown_tagged_fields,
        })
    }

    #[verifier::rlimit(100)]
    #[verifier::spinoff_prover]
    pub fn write(&self, buf: &mut BytesMut, version: i16) -> (r: Result<(), Error>)
        requires
            has_room(Self::spec_write(self@, version), *old(buf)),
        ensures
            wrote(Self::spec_write(self@, version), *old(buf), *final(buf), r),
    {
        let ghost m = self@;
        proof {
            reveal(DescribeShareGroupOffsetsResponsePartition::spec_write_partition_index);
            reveal(DescribeShareGroupOffsetsResponsePartition::spec_write_start_offset);
            reveal(DescribeShareGroupOffsetsResponsePartition::spec_write_leader_epoch);
            reveal(DescribeShareGroupOffsetsResponsePartition::spec_write_lag);
            reveal(DescribeShareGroupOffsetsResponsePartition::spec_write_error_code);
            reveal(DescribeShareGroupOffsetsResponsePartition::spec_write_error_message);
            reveal(DescribeShareGroupOffsetsResponsePartition::spec_write_tags);
        }
        let ghost s0 = Self::spec_write_partition_index(m, version);
        let ghost w0 = s0;
        let ghost s1 = Self::spec_write_start_offset(m, version);
        let ghost w1 = chain(w0, s1);
        let ghost s2 = Self::spec_write_leader_epoch(m, version);
        let ghost w2 = chain(w1, s2);
        let ghost s3 = Self::spec_write_lag(m, version);
        let ghost w3 = chain(w2, s3);
        let ghost s4 = Self::spec_write_error_code(m, version);
        let ghost w4 = chain(w3, s4);
        let ghost s5 = Self::spec_write_error_message(m, version);
        let ghost w5 = chain(w4, s5);
        let ghost s6 = Self::spec_write_tags(m, version);
        let ghost w6 = chain(w5, s6);
        assert(Self::spec_write(m, version) == w6);
        assert(written(w5).len() <= written(w6).len() && (w5 is Err ==> w6 == w5));
        assert(written(w4).len() <= written(w6).len() && (w4 is Err ==> w6 == w4));
        assert(written(w3).len() <= written(w6).len() && (w3 is Err ==> w6 == w3));
        assert(written(w2).len() <= written(w6).len() && (w2 is Err ==> w6 == w2));
        assert(written(w1).len() <= written(w6).len() && (w1 is Err ==> w6 == w1));
        assert(written(w0).len() <= written(w6).len() && (w0 is Err ==> w6 == w0));
        let ghost mid = bytes_mut_seq(*buf);
        proof {
            lemma_append_empty(mid);
        }
        let r0 = {
            write_i32(buf, self.partition_index);
            Ok(())
        };
        assert(bytes_mut_seq(*buf) == mid + written(s0));
        if r0.is_err() {
            return r0;
        }
        let ghost mid = bytes_mut_seq(*buf);
        proof {
            lemma_append_empty(mid);
        }
        let r1 = {
            write_i64(buf, self.start_offset);
            Ok(())
        };
        assert(bytes_mut_seq(*buf) == mid + written(s1));
        proof {
            lemma_step(bytes_mut_seq(*old(buf)), w0, s1);
        }
        if r1.is_err() {
            return r1;
        }
        let ghost mid = bytes_mut_seq(*buf);
        proof {
            lemma_append_empty(mid);
        }
        let r2 = {
            write_i32(buf, self.leader_epoch);
            Ok(())
        };
        assert(bytes_mut_seq(*buf) == mid + written(s2));
        proof {
            lemma_step(bytes_mut_seq(*old(buf)), w1, s2);
        }
        if r2.is_err() {
            return r2;
        }
        let ghost mid = bytes_mut_seq(*buf);
        proof {
            lemma_append_empty(mid);
        }
        let r3 = if version >= 1 {
            {
                write_i64(buf, self.lag);
                Ok(())
            }
        } else {
            Ok(())
        };
        assert(bytes_mut_seq(*buf) == mid + written(s3));
        proof {
            lemma_step(bytes_mut_seq(*old(buf)), w2, s3);
        }
        if r3.is_err() {
            return r3;
        }
        let ghost mid = bytes_mut_seq(*buf);
        proof {
            lemma_append_empty(mid);
        }
        let r4 = {
            write_i16(buf, self.error_code);
            Ok(())
        };
        assert(bytes_mut_seq(*buf) == mid + written(s4));
        proof {
            lemma_step(bytes_mut_seq(*old(buf)), w3, s4);
        }
        if r4.is_err() {
            return r4;
        }
        let ghost mid = bytes_mut_seq(*buf);
        proof {
            lemma_append_empty(mid);
        }
        let r5 = write_compact_nullable_string(buf, &self.error_message);
        assert(bytes_mut_seq(*buf) == mid + written(s5));
        proof {
            lemma_step(bytes_mut_seq(*old(buf)), w4, s5);
        }
        if r5.is_err() {
            return r5;
        }
        let ghost mid = bytes_mut_seq(*buf);
        proof {
            lemma_append_empty(mid);
        }
        let r6 = write_tagged_fields(buf, &sort_by_tag(&self._unknown_tagged_fields));
        assert(bytes_mut_seq(*buf) == mid + written(s6));
        proof {
            lemma_step(bytes_mut_seq(*old(buf)), w5, s6);
        }
        if r6.is_err() {
            return r6;
        }
        Ok(())
    }
}

impl Codec for DescribeShareGroupOffsetsResponseGroup {
    type Item = DescribeShareGroupOffsetsResponseGroup;

    open spec fn spec_read_item(s: Seq<u8>, version: i16) -> ReadOutcome<DescribeShareGroupOffsetsResponseGroupView> {
        DescribeShareGroupOffsetsResponseGroup::spec_read(s, version)
    }

    open spec fn spec_write_item(v: DescribeShareGroupOffsetsResponseGroupView, version: i16) -> WriteOutcome {
        DescribeShareGroupOffsetsResponseGroup::spec_write(v, version)
    }

    open spec fn canonical_item(v: DescribeShareGroupOffsetsResponseGroupView, version: i16) -> bool {
        DescribeShareGroupOffsetsResponseGroup::canonical(v, version)
    }

    proof fn lemma_item_round_trip(v: DescribeShareGroupOffsetsResponseGroupView, version: i16, rest: Seq<u8>) {
        DescribeShareGroupOffsetsResponseGroup::lemma_round_trip(v, version, rest);
    }

    open spec fn writable_item(v: DescribeShareGroupOffsetsResponseGroupView, version: i16) -> bool {
        DescribeShareGroupOffsetsResponseGroup::writable(v, version)
    }

    proof fn lemma_item_writable(v: DescribeShareGroupOffsetsResponseGroupView, version: i16) {
        DescribeShareGroupOffsetsResponseGroup::lemma_writable(v, version);
    }

    fn read_item(buf: &mut Bytes, version: i16) -> (r: Result<DescribeShareGroupOffsetsResponseGroup, Error>) {
        DescribeShareGroupOffsetsResponseGroup::read(buf, version)
    }

    fn write_item(item: &DescribeShareGroupOffsetsResponseGroup, buf: &mut BytesMut, version: i16) -> (r: Result<(), Error>) {
        item.write(buf, version)
    }
}

impl Codec for DescribeShareGroupOffsetsResponseTopic {
    type Item = DescribeShareGroupOffsetsResponseTopic;

    open spec fn spec_read_item(s: Seq<u8>, version: i16) -> ReadOutcome<DescribeShareGroupOffsetsResponseTopicView> {
        DescribeShareGroupOffsetsResponseTopic::spec_read(s, version)
    }

    open spec fn spec_write_item(v: DescribeShareGroupOffsetsResponseTopicView, version: i16) -> WriteOutcome {
        DescribeShareGroupOffsetsResponseTopic::spec_write(v, version)
    }

    open spec fn canonical_item(v: DescribeShareGroupOffsetsResponseTopicView, version: i16) -> bool {
        DescribeShareGroupOffsetsResponseTopic::canonical(v, version)
    }

    proof fn lemma_item_round_trip(v: DescribeShareGroupOffsetsResponseTopicView, version: i16, rest: Seq<u8>) {
        DescribeShareGroupOffsetsResponseTopic::lemma_round_trip(v, version, rest);
    }

    open spec fn writable_item(v: DescribeShareGroupOffsetsResponseTopicView, version: i16) -> bool {
        DescribeShareGroupOffsetsResponseTopic::writable(v, version)
    }

    proof fn lemma_item_writable(v: DescribeShareGroupOffsetsResponseTopicView, version: i16) {
        DescribeShareGroupOffsetsResponseTopic::lemma_writable(v, version);
    }

    fn read_item(buf: &mut Bytes, version: i16) -> (r: Result<DescribeShareGroupOffsetsResponseTopic, Error>) {
        DescribeShareGroupOffsetsResponseTopic::read(buf, version)
    }

    fn write_item(item: &DescribeShareGroupOffsetsResponseTopic, buf: &mut BytesMut, version: i16) -> (r: Result<(), Error>) {
        item.write(buf, version)
    }
}

impl Codec for DescribeShareGroupOffsetsResponsePartition {
    type Item = DescribeShareGroupOffsetsResponsePartition;

    open spec fn spec_read_item(s: Seq<u8>, version: i16) -> ReadOutcome<DescribeShareGroupOffsetsResponsePartitionView> {
        DescribeShareGroupOffsetsResponsePartition::spec_read(s, version)
    }

    open spec fn spec_write_item(v: DescribeShareGroupOffsetsResponsePartitionView, version: i16) -> WriteOutcome {
        DescribeShareGroupOffsetsResponsePartition::spec_write(v, version)
    }

    open spec fn canonical_item(v: DescribeShareGroupOffsetsResponsePartitionView, version: i16) -> bool {
        DescribeShareGroupOffsetsResponsePartition::canonical(v, version)
    }

    proof fn lemma_item_round_trip(v: DescribeShareGroupOffsetsResponsePartitionView, version: i16, rest: Seq<u8>) {
        DescribeShareGroupOffsetsResponsePartition::lemma_round_trip(v, version, rest);
    }

    open spec fn writable_item(v: DescribeShareGroupOffsetsResponsePartitionView, version: i16) -> bool {
        DescribeShareGroupOffsetsResponsePartition::writable(v, version)
    }

    proof fn lemma_item_writable(v: DescribeShareGroupOffsetsResponsePartitionView, version: i16) {
        DescribeShareGroupOffsetsResponsePartition::lemma_writable(v, version);
    }

    fn read_item(buf: &mut Bytes, version: i16) -> (r: Result<DescribeShareGroupOffsetsResponsePartition, Error>) {
        DescribeShareGroupOffsetsResponsePartition::read(buf, version)
    }

    fn write_item(item: &DescribeShareGroupOffsetsResponsePartition, buf: &mut BytesMut, version: i16) -> (r: Result<(), Error>) {
        item.write(buf, version)
    }
}

} // verus!
