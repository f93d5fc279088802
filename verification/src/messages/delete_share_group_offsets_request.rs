//! The delete share group offsets request message.
use crate::buffer::{bytes_mut_seq, bytes_seq};
use crate::codec::{Codec, MeasuredCodec, all_canonical, all_writable, array_len, lemma_array_round_trip, lemma_array_writable, read_array, saturating_sum, spec_read_array, spec_write_array, write_array};
use crate::error::{Error, UnsupportedVersion};
use crate::strings::{compact_string_len, lemma_compact_string_round_trip, read_compact_string, spec_read_compact_string, spec_write_compact_string, write_compact_string};
use crate::tagged::{lemma_sorted_by_tag_in_order, lemma_sorted_tags_fit, lemma_tagged_fields_round_trip, lemma_tagged_fields_writable, read_tagged_fields, sort_by_tag, sorted_by_tag, spec_read_tagged_fields, spec_write_tagged_fields, tagged_fields_len, tags_fit, tags_in_order, write_tagged_fields};
use crate::types::{KafkaString, RawTaggedField};
use crate::wire::{ReadOutcome, ViewClone, WriteOutcome, chain, clone_vec, empty_vec, fail, has_room, lemma_append_empty, lemma_chain_written, lemma_len_step, lemma_step, len_result, read_as, read_vec_as, saturate, took_front, views, written, wrote};
use bytes::{Bytes, BytesMut};
use vstd::prelude::*;

verus! {

broadcast use {crate::wire::lemma_chain_written, crate::wire::lemma_took_front_nothing, crate::wire::lemma_took_front_twice};

#[derive(Debug, PartialEq)]
pub struct DeleteShareGroupOffsetsRequestData {
    /// The group identifier.
    pub group_id: KafkaString,
    /// The topics to delete offsets for.
    pub topics: Vec<DeleteShareGroupOffsetsRequestTopic>,
    pub _unknown_tagged_fields: Vec<RawTaggedField>,
}

/// What a `DeleteShareGroupOffsetsRequestData` holds, as the specification sees it.
#[verifier::ext_equal]
pub struct DeleteShareGroupOffsetsRequestDataView {
    pub group_id: Seq<u8>,
    pub topics: Seq<DeleteShareGroupOffsetsRequestTopicView>,
    pub unknown_tagged_fields: Seq<(u32, Seq<u8>)>,
}

impl View for DeleteShareGroupOffsetsRequestData {
    type V = DeleteShareGroupOffsetsRequestDataView;

    open spec fn view(&self) -> DeleteShareGroupOffsetsRequestDataView {
        DeleteShareGroupOffsetsRequestDataView {
            group_id: self.group_id@,
            topics: views(self.topics@),
            unknown_tagged_fields: views(self._unknown_tagged_fields@),
        }
    }
}

impl Clone for DeleteShareGroupOffsetsRequestData {
    fn clone(&self) -> (r: Self)
        ensures
            r@ == self@,
    {
        let r = DeleteShareGroupOffsetsRequestData {
            group_id: self.group_id.clone(),
            topics: clone_vec(&self.topics),
            _unknown_tagged_fields: clone_vec(&self._unknown_tagged_fields),
        };
        assert(r@ =~= self@);
        r
    }
}

impl ViewClone for DeleteShareGroupOffsetsRequestData {
    fn clone_view(&self) -> (r: Self) {
        self.clone()
    }
}

impl Default for DeleteShareGroupOffsetsRequestData {
    fn default() -> (r: Self)
        ensures
            r@ == Self::default_view(),
    {
        let r = DeleteShareGroupOffsetsRequestData {
            group_id: KafkaString::default(),
            topics: empty_vec(),
            _unknown_tagged_fields: empty_vec(),
        };
        assert(r@ =~= Self::default_view());
        r
    }
}

impl DeleteShareGroupOffsetsRequestData {
    pub open spec fn default_view() -> DeleteShareGroupOffsetsRequestDataView {
        DeleteShareGroupOffsetsRequestDataView {
            group_id: Seq::empty(),
            topics: Seq::empty(),
            unknown_tagged_fields: Seq::empty(),
        }
    }

    /// The `group_id` field, read from the front of `s`.
    #[verifier::opaque]
    pub open spec fn spec_read_group_id(s: Seq<u8>, version: i16) -> ReadOutcome<Seq<u8>> {
        spec_read_compact_string(s)
    }

    /// The `topics` field, read from the front of `s`.
    #[verifier::opaque]
    pub open spec fn spec_read_topics(s: Seq<u8>, version: i16) -> ReadOutcome<Seq<DeleteShareGroupOffsetsRequestTopicView>> {
        spec_read_array::<DeleteShareGroupOffsetsRequestTopic>(s, version, true)
    }

    /// The tagged fields, read from the front of `s`.
    #[verifier::opaque]
    pub open spec fn spec_read_tags(s: Seq<u8>, version: i16) -> ReadOutcome<Seq<(u32, Seq<u8>)>> {
        spec_read_tagged_fields(s)
    }

    pub open spec fn spec_read(s: Seq<u8>, version: i16) -> ReadOutcome<DeleteShareGroupOffsetsRequestDataView> {
        if version < 0 || version > 0 {
            Err(Error::UnsupportedVersion(UnsupportedVersion { api_key: 92, version }))
        } else {
            match (Self::spec_read_group_id(s, version)) {
                Err(e) => Err(e),
                Ok((group_id, s)) => match (Self::spec_read_topics(s, version)) {
                    Err(e) => Err(e),
                    Ok((topics, s)) => match (Self::spec_read_tags(s, version)) {
                        Err(e) => Err(e),
                        Ok((unknown_tagged_fields, s)) => Ok((DeleteShareGroupOffsetsRequestDataView {
                                    group_id: group_id,
                                    topics: topics,
                                    unknown_tagged_fields: unknown_tagged_fields,
                                }, s)),
                    },
                },
            }
        }
    }

    /// What writing the `group_id` field of `m` appends.
    #[verifier::opaque]
    pub open spec fn spec_write_group_id(m: DeleteShareGroupOffsetsRequestDataView, version: i16) -> WriteOutcome {
        spec_write_compact_string(m.group_id)
    }

    /// What writing the `topics` field of `m` appends.
    #[verifier::opaque]
    pub open spec fn spec_write_topics(m: DeleteShareGroupOffsetsRequestDataView, version: i16) -> WriteOutcome {
        spec_write_array::<DeleteShareGroupOffsetsRequestTopic>(m.topics, version, true)
    }

    /// What writing the tagged fields of `m` appends.
    #[verifier::opaque]
    pub open spec fn spec_write_tags(m: DeleteShareGroupOffsetsRequestDataView, version: i16) -> WriteOutcome {
        spec_write_tagged_fields(sorted_by_tag(m.unknown_tagged_fields))
    }

    pub open spec fn spec_write(m: DeleteShareGroupOffsetsRequestDataView, version: i16) -> WriteOutcome {
        if version < 0 || version > 0 {
            fail(Error::UnsupportedVersion(UnsupportedVersion { api_key: 92, version }))
        } else {
            chain(
                chain(
                    Self::spec_write_group_id(m, version),
                    Self::spec_write_topics(m, version),
                ),
                Self::spec_write_tags(m, version),
            )
        }
    }

    /// Whether reading back what writing `m` in `version` appends gives `m`:
    /// fields that the version does not carry hold their default values, and
    /// tagged fields come in the order in which they are written.
    pub open spec fn canonical(m: DeleteShareGroupOffsetsRequestDataView, version: i16) -> bool {
        &&& all_canonical::<DeleteShareGroupOffsetsRequestTopic>(m.topics, version)
        &&& tags_in_order(m.unknown_tagged_fields)
    }

    proof fn lemma_round_trip_group_id(m: DeleteShareGroupOffsetsRequestDataView, version: i16, rest: Seq<u8>)
        requires
            Self::canonical(m, version),
            Self::spec_write_group_id(m, version) is Ok,
        ensures
            Self::spec_read_group_id(written(Self::spec_write_group_id(m, version)) + rest, version) == Ok::<(Seq<u8>, Seq<u8>), Error>((m.group_id, rest)),
    {
        reveal(DeleteShareGroupOffsetsRequestData::spec_read_group_id);
        reveal(DeleteShareGroupOffsetsRequestData::spec_write_group_id);
        lemma_compact_string_round_trip(m.group_id, rest);
    }

    proof fn lemma_round_trip_topics(m: DeleteShareGroupOffsetsRequestDataView, version: i16, rest: Seq<u8>)
        requires
            Self::canonical(m, version),
            Self::spec_write_topics(m, version) is Ok,
        ensures
            Self::spec_read_topics(written(Self::spec_write_topics(m, version)) + rest, version) == Ok::<(Seq<DeleteShareGroupOffsetsRequestTopicView>, Seq<u8>), Error>((m.topics, rest)),
    {
        reveal(DeleteShareGroupOffsetsRequestData::spec_read_topics);
        reveal(DeleteShareGroupOffsetsRequestData::spec_write_topics);
        lemma_array_round_trip::<DeleteShareGroupOffsetsRequestTopic>(m.topics, version, true, rest);
    }

    proof fn lemma_round_trip_tags(m: DeleteShareGroupOffsetsRequestDataView, version: i16, rest: Seq<u8>)
        requires
            Self::canonical(m, version),
            Self::spec_write_tags(m, version) is Ok,
        ensures
            Self::spec_read_tags(written(Self::spec_write_tags(m, version)) + rest, version) == Ok::<(Seq<(u32, Seq<u8>)>, Seq<u8>), Error>((m.unknown_tagged_fields, rest)),
    {
        reveal(DeleteShareGroupOffsetsRequestData::spec_read_tags);
        reveal(DeleteShareGroupOffsetsRequestData::spec_write_tags);
        lemma_sorted_by_tag_in_order(m.unknown_tagged_fields);
        lemma_tagged_fields_round_trip(m.unknown_tagged_fields, rest);
    }

    /// Reading back what writing `m` in `version` appends gives `m` again, and
    /// leaves what follows, for every canonical message whose write succeeds.
    #[verifier::rlimit(70)]
    #[verifier::spinoff_prover]
    pub proof fn lemma_round_trip(m: DeleteShareGroupOffsetsRequestDataView, version: i16, rest: Seq<u8>)
        requires
            Self::canonical(m, version),
            Self::spec_write(m, version) is Ok,
        ensures
            Self::spec_read(written(Self::spec_write(m, version)) + rest, version) == Ok::<(DeleteShareGroupOffsetsRequestDataView, Seq<u8>), Error>((m, rest)),
    {
        let b0 = written(Self::spec_write_group_id(m, version));
        let b1 = written(Self::spec_write_topics(m, version));
        let b2 = written(Self::spec_write_tags(m, version));
        let t3 = rest;
        let t2 = b2 + t3;
        let t1 = b1 + t2;
        let t0 = b0 + t1;
        let w0 = Self::spec_write_group_id(m, version);
        let w1 = chain(w0, Self::spec_write_topics(m, version));
        let w2 = chain(w1, Self::spec_write_tags(m, version));
        assert(Self::spec_write(m, version) == w2);
        assert(written(w2) + t3 =~= written(w1) + t2);
        assert(written(w1) + t2 =~= written(w0) + t1);
        Self::lemma_round_trip_group_id(m, version, t1);
        Self::lemma_round_trip_topics(m, version, t2);
        Self::lemma_round_trip_tags(m, version, t3);
    }

    /// The default message holds the default value of each field of the schema.
    pub proof fn lemma_default_values()
        ensures
            Self::default_view().group_id.len() == 0,
            Self::default_view().topics.len() == 0,
            Self::default_view().unknown_tagged_fields.len() == 0,
    {
    }

    /// Whether writing `m` in `version` succeeds, said over its parts: the
    /// version is one the schema covers, every field that the version cannot
    /// carry holds its default value, and every string, byte string, array and
    /// tagged field fits its length prefix.
    pub open spec fn writable(m: DeleteShareGroupOffsetsRequestDataView, version: i16) -> bool {
        &&& 0 <= version <= 0
        &&& m.group_id.len() <= 0x7fff
        &&& (m.topics.len() <= i32::MAX && all_writable::<DeleteShareGroupOffsetsRequestTopic>(m.topics, version))
        &&& m.unknown_tagged_fields.len() <= u32::MAX && tags_fit(m.unknown_tagged_fields)
    }

    proof fn lemma_writable_group_id(m: DeleteShareGroupOffsetsRequestDataView, version: i16)
        ensures
            Self::spec_write_group_id(m, version) is Ok <==> m.group_id.len() <= 0x7fff,
    {
        reveal(DeleteShareGroupOffsetsRequestData::spec_write_group_id);
    }

    proof fn lemma_writable_topics(m: DeleteShareGroupOffsetsRequestDataView, version: i16)
        ensures
            Self::spec_write_topics(m, version) is Ok <==> (m.topics.len() <= i32::MAX && all_writable::<DeleteShareGroupOffsetsRequestTopic>(m.topics, version)),
    {
        reveal(DeleteShareGroupOffsetsRequestData::spec_write_topics);
        lemma_array_writable::<DeleteShareGroupOffsetsRequestTopic>(m.topics, version, true);
    }

    proof fn lemma_writable_tags(m: DeleteShareGroupOffsetsRequestDataView, version: i16)
        ensures
            Self::spec_write_tags(m, version) is Ok <==> m.unknown_tagged_fields.len() <= u32::MAX && tags_fit(m.unknown_tagged_fields),
    {
        reveal(DeleteShareGroupOffsetsRequestData::spec_write_tags);
        lemma_sorted_tags_fit(m.unknown_tagged_fields);
        lemma_tagged_fields_writable(sorted_by_tag(m.unknown_tagged_fields));
    }

    /// Writing `m` in `version` succeeds exactly when `m` is writable in it;
    /// so do `write` and `encoded_len`, whose results follow `spec_write`.
    #[verifier::rlimit(48)]
    pub proof fn lemma_writable(m: DeleteShareGroupOffsetsRequestDataView, version: i16)
        ensures
            Self::spec_write(m, version) is Ok <==> Self::writable(m, version),
    {
        Self::lemma_writable_group_id(m, version);
        Self::lemma_writable_topics(m, version);
        Self::lemma_writable_tags(m, version);
    }

    /// A version outside the range that the schema covers is refused, by
    /// reads and by writes alike, before anything is read or written.
    pub proof fn lemma_refused_version(m: DeleteShareGroupOffsetsRequestDataView, s: Seq<u8>, version: i16)
        requires
            version < 0 || version > 0,
        ensures
            Self::spec_read(s, version) == Err::<(DeleteShareGroupOffsetsRequestDataView, Seq<u8>), Error>(Error::UnsupportedVersion(UnsupportedVersion { api_key: 92, version })),
            Self::spec_write(m, version) == fail(Error::UnsupportedVersion(UnsupportedVersion { api_key: 92, version })),
    {
    }

    pub fn with_group_id(self, value: KafkaString) -> (r: Self)
        ensures
            r@ == (DeleteShareGroupOffsetsRequestDataView { group_id: value@, ..self@ }),
    {
        let mut r = self;
        r.group_id = value;
        r
    }

    pub fn with_topics(self, value: Vec<DeleteShareGroupOffsetsRequestTopic>) -> (r: Self)
        ensures
            r@ == (DeleteShareGroupOffsetsRequestDataView { topics: views(value@), ..self@ }),
    {
        let mut r = self;
        r.topics = value;
        r
    }

    fn read_group_id(buf: &mut Bytes, version: i16) -> (r: Result<KafkaString, Error>)
        ensures
            read_as(Self::spec_read_group_id(bytes_seq(*old(buf)), version), *final(buf), r),
            took_front(*old(buf), *final(buf)),
    {
        proof {
            reveal(DeleteShareGroupOffsetsRequestData::spec_read_group_id);
        }
        Ok(read_compact_string(buf)?)
    }

    fn read_topics(buf: &mut Bytes, version: i16) -> (r: Result<Vec<DeleteShareGroupOffsetsRequestTopic>, Error>)
        ensures
            read_vec_as(Self::spec_read_topics(bytes_seq(*old(buf)), version), *final(buf), r),
            took_front(*old(buf), *final(buf)),
    {
        proof {
            reveal(DeleteShareGroupOffsetsRequestData::spec_read_topics);
        }
        Ok(read_array::<DeleteShareGroupOffsetsRequestTopic>(buf, version, true)?)
    }

    fn read_tags(buf: &mut Bytes, version: i16) -> (r: Result<Vec<RawTaggedField>, Error>)
        ensures
            read_vec_as(Self::spec_read_tags(bytes_seq(*old(buf)), version), *final(buf), r),
            took_front(*old(buf), *final(buf)),
    {
        proof {
            reveal(DeleteShareGroupOffsetsRequestData::spec_read_tags);
        }
        Ok(read_tagged_fields(buf)?)
    }

    pub fn read(buf: &mut Bytes, version: i16) -> (r: Result<Self, Error>)
        ensures
            read_as(Self::spec_read(bytes_seq(*old(buf)), version), *final(buf), r),
            took_front(*old(buf), *final(buf)),
            (version < 0 || version > 0) ==> bytes_seq(*final(buf)) == bytes_seq(*old(buf)),
    {
        if version < 0 || version > 0 {
            return Err(Error::UnsupportedVersion(UnsupportedVersion::new(92, version)));
        }
        let group_id = Self::read_group_id(buf, version)?;
        let topics = Self::read_topics(buf, version)?;
        let _unknown_tagged_fields = Self::read_tags(buf, version)?;
        Ok(DeleteShareGroupOffsetsRequestData {
                group_id: group_id,
                topics: topics,
                _unknown_tagged_fields: _unknown_tagged_fields,
        })
    }

    #[verifier::rlimit(60)]
    pub fn write(&self, buf: &mut BytesMut, version: i16) -> (r: Result<(), Error>)
        requires
            has_room(Self::spec_write(self@, version), *old(buf)),
        ensures
            wrote(Self::spec_write(self@, version), *old(buf), *final(buf), r),
    {
        if version < 0 || version > 0 {
            return Err(Error::UnsupportedVersion(UnsupportedVersion::new(92, version)));
        }
        let ghost m = self@;
        proof {
            reveal(DeleteShareGroupOffsetsRequestData::spec_write_group_id);
            reveal(DeleteShareGroupOffsetsRequestData::spec_write_topics);
            reveal(DeleteShareGroupOffsetsRequestData::spec_write_tags);
        }
        let ghost s0 = Self::spec_write_group_id(m, version);
        let ghost w0 = s0;
        let ghost s1 = Self::spec_write_topics(m, version);
        let ghost w1 = chain(w0, s1);
        let ghost s2 = Self::spec_write_tags(m, version);
        let ghost w2 = chain(w1, s2);
        assert(Self::spec_write(m, version) == w2);
        assert(written(w1).len() <= written(w2).len() && (w1 is Err ==> w2 == w1));
        assert(written(w0).len() <= written(w2).len() && (w0 is Err ==> w2 == w0));
        let ghost mid = bytes_mut_seq(*buf);
        proof {
            lemma_append_empty(mid);
        }
        let r0 = write_compact_string(buf, &self.group_id);
        assert(bytes_mut_seq(*buf) == mid + written(s0));
        if r0.is_err() {
            return r0;
        }
        let ghost mid = bytes_mut_seq(*buf);
        proof {
            lemma_append_empty(mid);
        }
        let r1 = write_array::<DeleteShareGroupOffsetsRequestTopic>(buf, &self.topics, version, true);
        assert(bytes_mut_seq(*buf) == mid + written(s1));
        proof {
            lemma_step(bytes_mut_seq(*old(buf)), w0, s1);
        }
        if r1.is_err() {
            return r1;
        }
        let ghost mid = bytes_mut_seq(*buf);
        proof {
            lemma_append_empty(mid);
        }
        let r2 = write_tagged_fields(buf, &sort_by_tag(&self._unknown_tagged_fields));
        assert(bytes_mut_seq(*buf) == mid + written(s2));
        proof {
            lemma_step(bytes_mut_seq(*old(buf)), w1, s2);
        }
        if r2.is_err() {
            return r2;
        }
        Ok(())
    }

    #[verifier::rlimit(60)]
    pub fn encoded_len(&self, version: i16) -> (r: Result<usize, Error>)
        ensures
            r == len_result(Self::spec_write(self@, version)),
    {
        if version < 0 || version > 0 {
            return Err(Error::UnsupportedVersion(UnsupportedVersion::new(92, version)));
        }
        let ghost m = self@;
        proof {
            reveal(DeleteShareGroupOffsetsRequestData::spec_write_group_id);
            reveal(DeleteShareGroupOffsetsRequestData::spec_write_topics);
            reveal(DeleteShareGroupOffsetsRequestData::spec_write_tags);
        }
        let ghost s0 = Self::spec_write_group_id(m, version);
        let ghost w0 = s0;
        let ghost s1 = Self::spec_write_topics(m, version);
        let ghost w1 = chain(w0, s1);
        let ghost s2 = Self::spec_write_tags(m, version);
        let ghost w2 = chain(w1, s2);
        assert(Self::spec_write(m, version) == w2);
        assert(w1 is Err ==> w2 == w1);
        assert(w0 is Err ==> w2 == w0);
        let mut len: usize = 0;
        let l0 = compact_string_len(&self.group_id);
        assert(l0 == len_result(s0));
        let n0 = match l0 {
            Ok(n) => n,
            Err(e) => {
                return Err(e);
            },
        };
        len = saturating_sum(len, n0);
        assert(w0 is Ok && len == saturate(written(w0).len() as int));
        let l1 = array_len::<DeleteShareGroupOffsetsRequestTopic>(&self.topics, version, true);
        assert(l1 == len_result(s1));
        let n1 = match l1 {
            Ok(n) => n,
            Err(e) => {
                return Err(e);
            },
        };
        proof {
            lemma_len_step(w0, s1, n1);
        }
        len = saturating_sum(len, n1);
        assert(w1 is Ok && len == saturate(written(w1).len() as int));
        let l2 = tagged_fields_len(&sort_by_tag(&self._unknown_tagged_fields));
        assert(l2 == len_result(s2));
        let n2 = match l2 {
            Ok(n) => n,
            Err(e) => {
                return Err(e);
            },
        };
        proof {
            lemma_len_step(w1, s2, n2);
        }
        len = saturating_sum(len, n2);
        assert(w2 is Ok && len == saturate(written(w2).len() as int));
        Ok(len)
    }
}

#[derive(Debug, PartialEq)]
pub struct DeleteShareGroupOffsetsRequestTopic {
    /// The topic name.
    pub topic_name: KafkaString,
    pub _unknown_tagged_fields: Vec<RawTaggedField>,
}

/// What a `DeleteShareGroupOffsetsRequestTopic` holds, as the specification sees it.
#[verifier::ext_equal]
pub struct DeleteShareGroupOffsetsRequestTopicView {
    pub topic_name: Seq<u8>,
    pub unknown_tagged_fields: Seq<(u32, Seq<u8>)>,
}

impl View for DeleteShareGroupOffsetsRequestTopic {
    type V = DeleteShareGroupOffsetsRequestTopicView;

    open spec fn view(&self) -> DeleteShareGroupOffsetsRequestTopicView {
        DeleteShareGroupOffsetsRequestTopicView {
            topic_name: self.topic_name@,
            unknown_tagged_fields: views(self._unknown_tagged_fields@),
        }
    }
}

impl Clone for DeleteShareGroupOffsetsRequestTopic {
    fn clone(&self) -> (r: Self)
        ensures
            r@ == self@,
    {
        let r = DeleteShareGroupOffsetsRequestTopic {
            topic_name: self.topic_name.clone(),
            _unknown_tagged_fields: clone_vec(&self._unknown_tagged_fields),
        };
        assert(r@ =~= self@);
        r
    }
}

impl ViewClone for DeleteShareGroupOffsetsRequestTopic {
    fn clone_view(&self) -> (r: Self) {
        self.clone()
    }
}

impl Default for DeleteShareGroupOffsetsRequestTopic {
    fn default() -> (r: Self)
        ensures
            r@ == Self::default_view(),
    {
        let r = DeleteShareGroupOffsetsRequestTopic {
            topic_name: KafkaString::default(),
            _unknown_tagged_fields: empty_vec(),
        };
        assert(r@ =~= Self::default_view());
        r
    }
}

impl DeleteShareGroupOffsetsRequestTopic {
    pub open spec fn default_view() -> DeleteShareGroupOffsetsRequestTopicView {
        DeleteShareGroupOffsetsRequestTopicView {
            topic_name: Seq::empty(),
            unknown_tagged_fields: Seq::empty(),
        }
    }

    /// The `topic_name` field, read from the front of `s`.
    #[verifier::opaque]
    pub open spec fn spec_read_topic_name(s: Seq<u8>, version: i16) -> ReadOutcome<Seq<u8>> {
        spec_read_compact_string(s)
    }

    /// The tagged fields, read from the front of `s`.
    #[verifier::opaque]
    pub open spec fn spec_read_tags(s: Seq<u8>, version: i16) -> ReadOutcome<Seq<(u32, Seq<u8>)>> {
        spec_read_tagged_fields(s)
    }

    pub open spec fn spec_read(s: Seq<u8>, version: i16) -> ReadOutcome<DeleteShareGroupOffsetsRequestTopicView> {
        match (Self::spec_read_topic_name(s, version)) {
            Err(e) => Err(e),
            Ok((topic_name, s)) => match (Self::spec_read_tags(s, version)) {
                Err(e) => Err(e),
                Ok((unknown_tagged_fields, s)) => Ok((DeleteShareGroupOffsetsRequestTopicView {
                            topic_name: topic_name,
                            unknown_tagged_fields: unknown_tagged_fields,
                        }, s)),
            },
        }
    }

    /// What writing the `topic_name` field of `m` appends.
    #[verifier::opaque]
    pub open spec fn spec_write_topic_name(m: DeleteShareGroupOffsetsRequestTopicView, version: i16) -> WriteOutcome {
        spec_write_compact_string(m.topic_name)
    }

    /// What writing the tagged fields of `m` appends.
    #[verifier::opaque]
    pub open spec fn spec_write_tags(m: DeleteShareGroupOffsetsRequestTopicView, version: i16) -> WriteOutcome {
        spec_write_tagged_fields(sorted_by_tag(m.unknown_tagged_fields))
    }

    pub open spec fn spec_write(m: DeleteShareGroupOffsetsRequestTopicView, version: i16) -> WriteOutcome {
        chain(
            Self::spec_write_topic_name(m, version),
            Self::spec_write_tags(m, version),
        )
    }

    /// Whether reading back what writing `m` in `version` appends gives `m`:
    /// fields that the version does not carry hold their default values, and
    /// tagged fields come in the order in which they are written.
    pub open spec fn canonical(m: DeleteShareGroupOffsetsRequestTopicView, version: i16) -> bool {
        &&& tags_in_order(m.unknown_tagged_fields)
    }

    proof fn lemma_round_trip_topic_name(m: DeleteShareGroupOffsetsRequestTopicView, version: i16, rest: Seq<u8>)
        requires
            Self::canonical(m, version),
            Self::spec_write_topic_name(m, version) is Ok,
        ensures
            Self::spec_read_topic_name(written(Self::spec_write_topic_name(m, version)) + rest, version) == Ok::<(Seq<u8>, Seq<u8>), Error>((m.topic_name, rest)),
    {
        reveal(DeleteShareGroupOffsetsRequestTopic::spec_read_topic_name);
        reveal(DeleteShareGroupOffsetsRequestTopic::spec_write_topic_name);
        lemma_compact_string_round_trip(m.topic_name, rest);
    }

    proof fn lemma_round_trip_tags(m: DeleteShareGroupOffsetsRequestTopicView, version: i16, rest: Seq<u8>)
        requires
            Self::canonical(m, version),
            Self::spec_write_tags(m, version) is Ok,
        ensures
            Self::spec_read_tags(written(Self::spec_write_tags(m, version)) + rest, version) == Ok::<(Seq<(u32, Seq<u8>)>, Seq<u8>), Error>((m.unknown_tagged_fields, rest)),
    {
        reveal(DeleteShareGroupOffsetsRequestTopic::spec_read_tags);
        reveal(DeleteShareGroupOffsetsRequestTopic::spec_write_tags);
        lemma_sorted_by_tag_in_order(m.unknown_tagged_fields);
        lemma_tagged_fields_round_trip(m.unknown_tagged_fields, rest);
    }

    /// Reading back what writing `m` in `version` appends gives `m` again, and
    /// leaves what follows, for every canonical message whose write succeeds.
    #[verifier::rlimit(60)]
    #[verifier::spinoff_prover]
    pub proof fn lemma_round_trip(m: DeleteShareGroupOffsetsRequestTopicView, version: i16, rest: Seq<u8>)
        requires
            Self::canonical(m, version),
            Self::spec_write(m, version) is Ok,
        ensures
            Self::spec_read(written(Self::spec_write(m, version)) + rest, version) == Ok::<(DeleteShareGroupOffsetsRequestTopicView, Seq<u8>), Error>((m, rest)),
    {
        let b0 = written(Self::spec_write_topic_name(m, version));
        let b1 = written(Self::spec_write_tags(m, version));
        let t2 = rest;
        let t1 = b1 + t2;
        let t0 = b0 + t1;
        let w0 = Self::spec_write_topic_name(m, version);
        let w1 = chain(w0, Self::spec_write_tags(m, version));
        assert(Self::spec_write(m, version) == w1);
        assert(written(w1) + t2 =~= written(w0) + t1);
        Self::lemma_round_trip_topic_name(m, version, t1);
        Self::lemma_round_trip_tags(m, version, t2);
    }

    /// The default message holds the default value of each field of the schema.
    pub proof fn lemma_default_values()
        ensures
            Self::default_view().topic_name.len() == 0,
            Self::default_view().unknown_tagged_fields.len() == 0,
    {
    }

    /// Whether writing `m` in `version` succeeds, said over its parts: the
    /// version is one the schema covers, every field that the version cannot
    /// carry holds its default value, and every string, byte string, array and
    /// tagged field fits its length prefix.
    pub open spec fn writable(m: DeleteShareGroupOffsetsRequestTopicView, version: i16) -> bool {
        &&& m.topic_name.len() <= 0x7fff
        &&& m.unknown_tagged_fields.len() <= u32::MAX && tags_fit(m.unknown_tagged_fields)
    }

    proof fn lemma_writable_topic_name(m: DeleteShareGroupOffsetsRequestTopicView, version: i16)
        ensures
            Self::spec_write_topic_name(m, version) is Ok <==> m.topic_name.len() <= 0x7fff,
    {
        reveal(DeleteShareGroupOffsetsRequestTopic::spec_write_topic_name);
    }

    proof fn lemma_writable_tags(m: DeleteShareGroupOffsetsRequestTopicView, version: i16)
        ensures
            Self::spec_write_tags(m, version) is Ok <==> m.unknown_tagged_fields.len() <= u32::MAX && tags_fit(m.unknown_tagged_fields),
    {
        reveal(DeleteShareGroupOffsetsRequestTopic::spec_write_tags);
        lemma_sorted_tags_fit(m.unknown_tagged_fields);
        lemma_tagged_fields_writable(sorted_by_tag(m.unknown_tagged_fields));
    }

    /// Writing `m` in `version` succeeds exactly when `m` is writable in it;
    /// so do `write` and `encoded_len`, whose results follow `spec_write`.
    #[verifier::rlimit(42)]
    pub proof fn lemma_writable(m: DeleteShareGroupOffsetsRequestTopicView, version: i16)
        ensures
            Self::spec_write(m, version) is Ok <==> Self::writable(m, version),
    {
        Self::lemma_writable_topic_name(m, version);
        Self::lemma_writable_tags(m, version);
    }

    pub fn with_topic_name(self, value: KafkaString) -> (r: Self)
        ensures
            r@ == (DeleteShareGroupOffsetsRequestTopicView { topic_name: value@, ..self@ }),
    {
        let mut r = self;
        r.topic_name = value;
        r
    }

    fn read_topic_name(buf: &mut Bytes, version: i16) -> (r: Result<KafkaString, Error>)
        ensures
            read_as(Self::spec_read_topic_name(bytes_seq(*old(buf)), version), *final(buf), r),
            took_front(*old(buf), *final(buf)),
    {
        proof {
            reveal(DeleteShareGroupOffsetsRequestTopic::spec_read_topic_name);
        }
        Ok(read_compact_string(buf)?)
    }

    fn read_tags(buf: &mut Bytes, version: i16) -> (r: Result<Vec<RawTaggedField>, Error>)
        ensures
            read_vec_as(Self::spec_read_tags(bytes_seq(*old(buf)), version), *final(buf), r),
            took_front(*old(buf), *final(buf)),
    {
        proof {
            reveal(DeleteShareGroupOffsetsRequestTopic::spec_read_tags);
        }
        Ok(read_tagged_fields(buf)?)
    }

    pub fn read(buf: &mut Bytes, version: i16) -> (r: Result<Self, Error>)
        ensures
            read_as(Self::spec_read(bytes_seq(*old(buf)), version), *final(buf), r),
            took_front(*old(buf), *final(buf)),
    {
        let topic_name = Self::read_topic_name(buf, version)?;
        let _unknown_tagged_fields = Self::read_tags(buf, version)?;
        Ok(DeleteShareGroupOffsetsRequestTopic {
                topic_name: topic_name,
                _unknown_tagged_fields: _unknown_tagged_fields,
        })
    }

    #[verifier::rlimit(50)]
    pub fn write(&self, buf: &mut BytesMut, version: i16) -> (r: Result<(), Error>)
        requires
            has_room(Self::spec_write(self@, version), *old(buf)),
        ensures
            wrote(Self::spec_write(self@, version), *old(buf), *final(buf), r),
    {
        let ghost m = self@;
        proof {
            reveal(DeleteShareGroupOffsetsRequestTopic::spec_write_topic_name);
            reveal(DeleteShareGroupOffsetsRequestTopic::spec_write_tags);
        }
        let ghost s0 = Self::spec_write_topic_name(m, version);
        let ghost w0 = s0;
        let ghost s1 = Self::spec_write_tags(m, version);
        let ghost w1 = chain(w0, s1);
        assert(Self::spec_write(m, version) == w1);
        assert(written(w0).len() <= written(w1).len() && (w0 is Err ==> w1 == w0));
        let ghost mid = bytes_mut_seq(*buf);
        proof {
            lemma_append_empty(mid);
        }
        let r0 = write_compact_string(buf, &self.topic_name);
        assert(bytes_mut_seq(*buf) == mid + written(s0));
        if r0.is_err() {
            return r0;
        }
        let ghost mid = bytes_mut_seq(*buf);
        proof {
            lemma_append_empty(mid);
        }
        let r1 = write_tagged_fields(buf, &sort_by_tag(&self._unknown_tagged_fields));
        assert(bytes_mut_seq(*buf) == mid + written(s1));
        proof {
            lemma_step(bytes_mut_seq(*old(buf)), w0, s1);
        }
        if r1.is_err() {
            return r1;
        }
        Ok(())
    }

    #[verifier::rlimit(50)]
    pub fn encoded_len(&self, version: i16) -> (r: Result<usize, Error>)
        ensures
            r == len_result(Self::spec_write(self@, version)),
    {
        let ghost m = self@;
        proof {
            reveal(DeleteShareGroupOffsetsRequestTopic::spec_write_topic_name);
            reveal(DeleteShareGroupOffsetsRequestTopic::spec_write_tags);
        }
        let ghost s0 = Self::spec_write_topic_name(m, version);
        let ghost w0 = s0;
        let ghost s1 = Self::spec_write_tags(m, version);
        let ghost w1 = chain(w0, s1);
        assert(Self::spec_write(m, version) == w1);
        assert(w0 is Err ==> w1 == w0);
        let mut len: usize = 0;
        let l0 = compact_string_len(&self.topic_name);
        assert(l0 == len_result(s0));
        let n0 = match l0 {
            Ok(n) => n,
            Err(e) => {
                return Err(e);
            },
        };
        len = saturating_sum(len, n0);
        assert(w0 is Ok && len == saturate(written(w0).len() as int));
        let l1 = tagged_fields_len(&sort_by_tag(&self._unknown_tagged_fields));
        assert(l1 == len_result(s1));
        let n1 = match l1 {
            Ok(n) => n,
            Err(e) => {
                return Err(e);
            },
        };
        proof {
            lemma_len_step(w0, s1, n1);
        }
        len = saturating_sum(len, n1);
        assert(w1 is Ok && len == saturate(written(w1).len() as int));
        Ok(len)
    }
}

impl Codec for DeleteShareGroupOffsetsRequestTopic {
    type Item = DeleteShareGroupOffsetsRequestTopic;

    open spec fn spec_read_item(s: Seq<u8>, version: i16) -> ReadOutcome<DeleteShareGroupOffsetsRequestTopicView> {
        DeleteShareGroupOffsetsRequestTopic::spec_read(s, version)
    }

    open spec fn spec_write_item(v: DeleteShareGroupOffsetsRequestTopicView, version: i16) -> WriteOutcome {
        DeleteShareGroupOffsetsRequestTopic::spec_write(v, version)
    }

    open spec fn canonical_item(v: DeleteShareGroupOffsetsRequestTopicView, version: i16) -> bool {
        DeleteShareGroupOffsetsRequestTopic::canonical(v, version)
    }

    proof fn lemma_item_round_trip(v: DeleteShareGroupOffsetsRequestTopicView, version: i16, rest: Seq<u8>) {
        DeleteShareGroupOffsetsRequestTopic::lemma_round_trip(v, version, rest);
    }

    open spec fn writable_item(v: DeleteShareGroupOffsetsRequestTopicView, version: i16) -> bool {
        DeleteShareGroupOffsetsRequestTopic::writable(v, version)
    }

    proof fn lemma_item_writable(v: DeleteShareGroupOffsetsRequestTopicView, version: i16) {
        DeleteShareGroupOffsetsRequestTopic::lemma_writable(v, version);
    }

    fn read_item(buf: &mut Bytes, version: i16) -> (r: Result<DeleteShareGroupOffsetsRequestTopic, Error>) {
        DeleteShareGroupOffsetsRequestTopic::read(buf, version)
    }

    fn write_item(item: &DeleteShareGroupOffsetsRequestTopic, buf: &mut BytesMut, version: i16) -> (r: Result<(), Error>) {
        item.write(buf, version)
    }
}

impl MeasuredCodec for DeleteShareGroupOffsetsRequestTopic {
    fn item_len(item: &DeleteShareGroupOffsetsRequestTopic, version: i16) -> (r: Result<usize, Error>) {
        item.encoded_len(version)
    }
}

} // verus!
