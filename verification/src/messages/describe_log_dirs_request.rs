//! The describe log dirs request message.
use crate::buffer::{bytes_mut_seq, bytes_seq};
use crate::codec::{Codec, Int32Item, MeasuredCodec, all_canonical, all_writable, array_len, lemma_array_round_trip, lemma_array_writable, lemma_nullable_array_round_trip, lemma_nullable_array_writable, nullable_array_len, opt_views, read_array, read_nullable_array, saturating_sum, spec_read_array, spec_read_nullable_array, spec_write_array, spec_write_nullable_array, write_array, write_nullable_array};
use crate::error::{Error, UnsupportedVersion};
use crate::strings::{compact_string_len, lemma_compact_string_round_trip, lemma_string_round_trip, read_compact_string, read_string, spec_read_compact_string, spec_read_string, spec_write_compact_string, spec_write_string, string_len, write_compact_string, write_string};
use crate::tagged::{lemma_sorted_by_tag_in_order, lemma_sorted_tags_fit, lemma_tagged_fields_round_trip, lemma_tagged_fields_writable, read_tagged_fields, sort_by_tag, sorted_by_tag, spec_read_tagged_fields, spec_write_tagged_fields, tagged_fields_len, tags_fit, tags_in_order, write_tagged_fields};
use crate::types::{KafkaString, RawTaggedField};
use crate::wire::{ReadOutcome, ViewClone, WriteOutcome, chain, clone_vec, emit, empty_vec, fail, has_room, lemma_append_empty, lemma_chain_written, lemma_len_step, lemma_step, len_result, read_as, read_opt_vec_as, read_vec_as, saturate, took_front, views, written, wrote};
use bytes::{Bytes, BytesMut};
use vstd::prelude::*;

verus! {

broadcast use {crate::wire::lemma_chain_written, crate::wire::lemma_took_front_nothing, crate::wire::lemma_took_front_twice};

#[derive(Debug, PartialEq)]
pub struct DescribeLogDirsRequestData {
    /// Each topic that we want to describe log directories for, or null for all topics.
    pub topics: Option<Vec<DescribableLogDirTopic>>,
    pub _unknown_tagged_fields: Vec<RawTaggedField>,
}

/// What a `DescribeLogDirsRequestData` holds, as the specification sees it.
#[verifier::ext_equal]
pub struct DescribeLogDirsRequestDataView {
    pub topics: Option<Seq<DescribableLogDirTopicView>>,
    pub unknown_tagged_fields: Seq<(u32, Seq<u8>)>,
}

impl View for DescribeLogDirsRequestData {
    type V = DescribeLogDirsRequestDataView;

    open spec fn view(&self) -> DescribeLogDirsRequestDataView {
        DescribeLogDirsRequestDataView {
            topics: opt_views(self.topics),
            unknown_tagged_fields: views(self._unknown_tagged_fields@),
        }
    }
}

impl Clone for DescribeLogDirsRequestData {
    fn clone(&self) -> (r: Self)
        ensures
            r@ == self@,
    {
        let r = DescribeLogDirsRequestData {
            topics: match &self.topics {
                Some(x) => Some(clone_vec(x)),
                None => None,
            },
            _unknown_tagged_fields: clone_vec(&self._unknown_tagged_fields),
        };
        assert(r@ =~= self@);
        r
    }
}

impl ViewClone for DescribeLogDirsRequestData {
    fn clone_view(&self) -> (r: Self) {
        self.clone()
    }
}

impl Default for DescribeLogDirsRequestData {
    fn default() -> (r: Self)
        ensures
            r@ == Self::default_view(),
    {
        let r = DescribeLogDirsRequestData {
            topics: None,
            _unknown_tagged_fields: empty_vec(),
        };
        assert(r@ =~= Self::default_view());
        r
    }
}

impl DescribeLogDirsRequestData {
    pub open spec fn default_view() -> DescribeLogDirsRequestDataView {
        DescribeLogDirsRequestDataView {
            topics: None,
            unknown_tagged_fields: Seq::empty(),
        }
    }

    /// The `topics` field, read from the front of `s`.
    #[verifier::opaque]
    pub open spec fn spec_read_topics(s: Seq<u8>, version: i16) -> ReadOutcome<Option<Seq<DescribableLogDirTopicView>>> {
        if version >= 2 {
            spec_read_nullable_array::<DescribableLogDirTopic>(s, version, true)
        } else {
            spec_read_nullable_array::<DescribableLogDirTopic>(s, version, false)
        }
    }

    /// The tagged fields, read from the front of `s`.
    #[verifier::opaque]
    pub open spec fn spec_read_tags(s: Seq<u8>, version: i16) -> ReadOutcome<Seq<(u32, Seq<u8>)>> {
        if version >= 2 {
            spec_read_tagged_fields(s)
        } else {
            Ok((Seq::empty(), s))
        }
    }

    pub open spec fn spec_read(s: Seq<u8>, version: i16) -> ReadOutcome<DescribeLogDirsRequestDataView> {
        if version < 1 || version > 5 {
            Err(Error::UnsupportedVersion(UnsupportedVersion { api_key: 35, version }))
        } else {
            match (Self::spec_read_topics(s, version)) {
                Err(e) => Err(e),
                Ok((topics, s)) => match (Self::spec_read_tags(s, version)) {
                    Err(e) => Err(e),
                    Ok((unknown_tagged_fields, s)) => Ok((DescribeLogDirsRequestDataView {
                                topics: topics,
                                unknown_tagged_fields: unknown_tagged_fields,
                            }, s)),
                },
            }
        }
    }

    /// What writing the `topics` field of `m` appends.
    #[verifier::opaque]
    pub open spec fn spec_write_topics(m: DescribeLogDirsRequestDataView, version: i16) -> WriteOutcome {
        if version >= 2 {
            spec_write_nullable_array::<DescribableLogDirTopic>(m.topics, version, true, -1i32)
        } else {
            spec_write_nullable_array::<DescribableLogDirTopic>(m.topics, version, false, -1i32)
        }
    }

    /// What writing the tagged fields of `m` appends.
    #[verifier::opaque]
    pub open spec fn spec_write_tags(m: DescribeLogDirsRequestDataView, version: i16) -> WriteOutcome {
        if version >= 2 {
            spec_write_tagged_fields(sorted_by_tag(m.unknown_tagged_fields))
        } else {
            emit(Seq::empty())
        }
    }

    pub open spec fn spec_write(m: DescribeLogDirsRequestDataView, version: i16) -> WriteOutcome {
        if version < 1 || version > 5 {
            fail(Error::UnsupportedVersion(UnsupportedVersion { api_key: 35, version }))
        } else {
            chain(
                Self::spec_write_topics(m, version),
                Self::spec_write_tags(m, version),
            )
        }
    }

    /// Whether reading back what writing `m` in `version` appends gives `m`:
    /// fields that the version does not carry hold their default values, and
    /// tagged fields come in the order in which they are written.
    pub open spec fn canonical(m: DescribeLogDirsRequestDataView, version: i16) -> bool {
        &&& (m.topics matches Some(xs) ==> all_canonical::<DescribableLogDirTopic>(xs, version))
        &&& (if version >= 2 {
                tags_in_order(m.unknown_tagged_fields)
            } else {
                m.unknown_tagged_fields.len() == 0
        })
    }

    proof fn lemma_round_trip_topics(m: DescribeLogDirsRequestDataView, version: i16, rest: Seq<u8>)
        requires
            Self::canonical(m, version),
            Self::spec_write_topics(m, version) is Ok,
        ensures
            Self::spec_read_topics(written(Self::spec_write_topics(m, version)) + rest, version) == Ok::<(Option<Seq<DescribableLogDirTopicView>>, Seq<u8>), Error>((m.topics, rest)),
    {
        reveal(DescribeLogDirsRequestData::spec_read_topics);
        reveal(DescribeLogDirsRequestData::spec_write_topics);
        if version >= 2 {
            lemma_nullable_array_round_trip::<DescribableLogDirTopic>(m.topics, version, true, -1i32, rest);
        } else {
            lemma_nullable_array_round_trip::<DescribableLogDirTopic>(m.topics, version, false, -1i32, rest);
        }
    }

    proof fn lemma_round_trip_tags(m: DescribeLogDirsRequestDataView, version: i16, rest: Seq<u8>)
        requires
            Self::canonical(m, version),
            Self::spec_write_tags(m, version) is Ok,
        ensures
            Self::spec_read_tags(written(Self::spec_write_tags(m, version)) + rest, version) == Ok::<(Seq<(u32, Seq<u8>)>, Seq<u8>), Error>((m.unknown_tagged_fields, rest)),
    {
        reveal(DescribeLogDirsRequestData::spec_read_tags);
        reveal(DescribeLogDirsRequestData::spec_write_tags);
        if version >= 2 {
            lemma_sorted_by_tag_in_order(m.unknown_tagged_fields);
            lemma_tagged_fields_round_trip(m.unknown_tagged_fields, rest);
        } else {
            assert(Seq::<u8>::empty() + rest =~= rest);
            assert(m.unknown_tagged_fields =~= Seq::empty());
        }
    }

    /// Reading back what writing `m` in `version` appends gives `m` again, and
    /// leaves what follows, for every canonical message whose write succeeds.
    #[verifier::rlimit(60)]
    #[verifier::spinoff_prover]
    pub proof fn lemma_round_trip(m: DescribeLogDirsRequestDataView, version: i16, rest: Seq<u8>)
        requires
            Self::canonical(m, version),
            Self::spec_write(m, version) is Ok,
        ensures
            Self::spec_read(written(Self::spec_write(m, version)) + rest, version) == Ok::<(DescribeLogDirsRequestDataView, Seq<u8>), Error>((m, rest)),
    {
        let b0 = written(Self::spec_write_topics(m, version));
        let b1 = written(Self::spec_write_tags(m, version));
        let t2 = rest;
        let t1 = b1 + t2;
        let t0 = b0 + t1;
        let w0 = Self::spec_write_topics(m, version);
        let w1 = chain(w0, Self::spec_write_tags(m, version));
        assert(Self::spec_write(m, version) == w1);
        assert(written(w1) + t2 =~= written(w0) + t1);
        Self::lemma_round_trip_topics(m, version, t1);
        Self::lemma_round_trip_tags(m, version, t2);
    }

    /// In a version that does not carry `unknown_tagged_fields`, writing ignores its value.
    pub proof fn lemma_write_ignores_unknown_tagged_fields(m: DescribeLogDirsRequestDataView, value: Seq<(u32, Seq<u8>)>, version: i16)
        requires
            !(version >= 2),
        ensures
            Self::spec_write((DescribeLogDirsRequestDataView { unknown_tagged_fields: value, ..m }), version) == Self::spec_write(m, version),
    {
        reveal(DescribeLogDirsRequestData::spec_write_topics);
        reveal(DescribeLogDirsRequestData::spec_write_tags);
    }

    /// The default message holds the default value of each field of the schema.
    pub proof fn lemma_default_values()
        ensures
            (Self::default_view().topics is None),
            Self::default_view().unknown_tagged_fields.len() == 0,
    {
    }

    /// Whether writing `m` in `version` succeeds, said over its parts: the
    /// version is one the schema covers, every field that the version cannot
    /// carry holds its default value, and every string, byte string, array and
    /// tagged field fits its length prefix.
    pub open spec fn writable(m: DescribeLogDirsRequestDataView, version: i16) -> bool {
        &&& 1 <= version <= 5
        &&& (m.topics matches Some(xs) ==> xs.len() <= i32::MAX && all_writable::<DescribableLogDirTopic>(xs, version))
        &&& (if version >= 2 {
                m.unknown_tagged_fields.len() <= u32::MAX && tags_fit(m.unknown_tagged_fields)
            } else {
                true
        })
    }

    proof fn lemma_writable_topics(m: DescribeLogDirsRequestDataView, version: i16)
        ensures
            Self::spec_write_topics(m, version) is Ok <==> (m.topics matches Some(xs) ==> xs.len() <= i32::MAX && all_writable::<DescribableLogDirTopic>(xs, version)),
    {
        reveal(DescribeLogDirsRequestData::spec_write_topics);
        if version >= 2 {
            lemma_nullable_array_writable::<DescribableLogDirTopic>(m.topics, version, true, -1i32);
        } else {
            lemma_nullable_array_writable::<DescribableLogDirTopic>(m.topics, version, false, -1i32);
        }
    }

    proof fn lemma_writable_tags(m: DescribeLogDirsRequestDataView, version: i16)
        ensures
            Self::spec_write_tags(m, version) is Ok <==> (if version >= 2 { m.unknown_tagged_fields.len() <= u32::MAX && tags_fit(m.unknown_tagged_fields) } else { true }),
    {
        reveal(DescribeLogDirsRequestData::spec_write_tags);
        if version >= 2 {
            lemma_sorted_tags_fit(m.unknown_tagged_fields);
            lemma_tagged_fields_writable(sorted_by_tag(m.unknown_tagged_fields));
        }
    }

    /// Writing `m` in `version` succeeds exactly when `m` is writable in it;
    /// so do `write` and `encoded_len`, whose results follow `spec_write`.
    #[verifier::rlimit(42)]
    pub proof fn lemma_writable(m: DescribeLogDirsRequestDataView, version: i16)
        ensures
            Self::spec_write(m, version) is Ok <==> Self::writable(m, version),
    {
        Self::lemma_writable_topics(m, version);
        Self::lemma_writable_tags(m, version);
    }

    /// A version outside the range that the schema covers is refused, by
    /// reads and by writes alike, before anything is read or written.
    pub proof fn lemma_refused_version(m: DescribeLogDirsRequestDataView, s: Seq<u8>, version: i16)
        requires
            version < 1 || version > 5,
        ensures
            Self::spec_read(s, version) == Err::<(DescribeLogDirsRequestDataView, Seq<u8>), Error>(Error::UnsupportedVersion(UnsupportedVersion { api_key: 35, version })),
            Self::spec_write(m, version) == fail(Error::UnsupportedVersion(UnsupportedVersion { api_key: 35, version })),
    {
    }

    pub fn with_topics(self, value: Option<Vec<DescribableLogDirTopic>>) -> (r: Self)
        ensures
            r@ == (DescribeLogDirsRequestDataView { topics: opt_views(value), ..self@ }),
    {
        let mut r = self;
        r.topics = value;
        r
    }

    fn read_topics(buf: &mut Bytes, version: i16) -> (r: Result<Option<Vec<DescribableLogDirTopic>>, Error>)
        ensures
            read_opt_vec_as(Self::spec_read_topics(bytes_seq(*old(buf)), version), *final(buf), r),
            took_front(*old(buf), *final(buf)),
    {
        proof {
            reveal(DescribeLogDirsRequestData::spec_read_topics);
        }
        Ok(if version >= 2 {
                read_nullable_array::<DescribableLogDirTopic>(buf, version, true)?
            } else {
                read_nullable_array::<DescribableLogDirTopic>(buf, version, false)?
        })
    }

    fn read_tags(buf: &mut Bytes, version: i16) -> (r: Result<Vec<RawTaggedField>, Error>)
        ensures
            read_vec_as(Self::spec_read_tags(bytes_seq(*old(buf)), version), *final(buf), r),
            took_front(*old(buf), *final(buf)),
    {
        proof {
            reveal(DescribeLogDirsRequestData::spec_read_tags);
        }
        Ok(if version >= 2 {
                read_tagged_fields(buf)?
            } else {
                empty_vec()
        })
    }

    pub fn read(buf: &mut Bytes, version: i16) -> (r: Result<Self, Error>)
        ensures
            read_as(Self::spec_read(bytes_seq(*old(buf)), version), *final(buf), r),
            took_front(*old(buf), *final(buf)),
            (version < 1 || version > 5) ==> bytes_seq(*final(buf)) == bytes_seq(*old(buf)),
    {
        if version < 1 || version > 5 {
            return Err(Error::UnsupportedVersion(UnsupportedVersion::new(35, version)));
        }
        let topics = Self::read_topics(buf, version)?;
        let _unknown_tagged_fields = Self::read_tags(buf, version)?;
        Ok(DescribeLogDirsRequestData {
                topics: topics,
                _unknown_tagged_fields: _unknown_tagged_fields,
        })
    }

    #[verifier::rlimit(50)]
    pub fn write(&self, buf: &mut BytesMut, version: i16) -> (r: Result<(), Error>)
        requires
            has_room(Self::spec_write(self@, version), *old(buf)),
        ensures
            wrote(Self::spec_write(self@, version), *old(buf), *final(buf), r),
    {
        if version < 1 || version > 5 {
            return Err(Error::UnsupportedVersion(UnsupportedVersion::new(35, version)));
        }
        let ghost m = self@;
        proof {
            reveal(DescribeLogDirsRequestData::spec_write_topics);
            reveal(DescribeLogDirsRequestData::spec_write_tags);
        }
        let ghost s0 = Self::spec_write_topics(m, version);
        let ghost w0 = s0;
        let ghost s1 = Self::spec_write_tags(m, version);
        let ghost w1 = chain(w0, s1);
        assert(Self::spec_write(m, version) == w1);
        assert(written(w0).len() <= written(w1).len() && (w0 is Err ==> w1 == w0));
        let ghost mid = bytes_mut_seq(*buf);
        proof {
            lemma_append_empty(mid);
        }
        let r0 = if version >= 2 {
            write_nullable_array::<DescribableLogDirTopic>(buf, &self.topics, version, true, -1)
        } else {
            write_nullable_array::<DescribableLogDirTopic>(buf, &self.topics, version, false, -1)
        };
        assert(bytes_mut_seq(*buf) == mid + written(s0));
        if r0.is_err() {
            return r0;
        }
        let ghost mid = bytes_mut_seq(*buf);
        proof {
            lemma_append_empty(mid);
        }
        let r1 = if version >= 2 {
            write_tagged_fields(buf, &sort_by_tag(&self._unknown_tagged_fields))
        } else {
            Ok(())
        };
        assert(bytes_mut_seq(*buf) == mid + written(s1));
        proof {
            lemma_step(bytes_mut_seq(*old(buf)), w0, s1);
        }
        if r1.is_err() {
            return r1;
        }
        Ok(())
    }

    #[verifier::rlimit(50)]
    pub fn encoded_len(&self, version: i16) -> (r: Result<usize, Error>)
        ensures
            r == len_result(Self::spec_write(self@, version)),
    {
        if version < 1 || version > 5 {
            return Err(Error::UnsupportedVersion(UnsupportedVersion::new(35, version)));
        }
        let ghost m = self@;
        proof {
            reveal(DescribeLogDirsRequestData::spec_write_topics);
            reveal(DescribeLogDirsRequestData::spec_write_tags);
        }
        let ghost s0 = Self::spec_write_topics(m, version);
        let ghost w0 = s0;
        let ghost s1 = Self::spec_write_tags(m, version);
        let ghost w1 = chain(w0, s1);
        assert(Self::spec_write(m, version) == w1);
        assert(w0 is Err ==> w1 == w0);
        let mut len: usize = 0;
        let l0 = if version >= 2 {
            nullable_array_len::<DescribableLogDirTopic>(&self.topics, version, true, -1)
        } else {
            nullable_array_len::<DescribableLogDirTopic>(&self.topics, version, false, -1)
        };
        assert(l0 == len_result(s0));
        let n0 = match l0 {
            Ok(n) => n,
            Err(e) => {
                return Err(e);
            },
        };
        len = saturating_sum(len, n0);
        assert(w0 is Ok && len == saturate(written(w0).len() as int));
        let l1 = if version >= 2 {
            tagged_fields_len(&sort_by_tag(&self._unknown_tagged_fields))
        } else {
            Ok(0)
        };
        assert(l1 == len_result(s1));
        let n1 = match l1 {
            Ok(n) => n,
            Err(e) => {
                return Err(e);
            },
        };
        proof {
            lemma_len_step(w0, s1, n1);
        }
        len = saturating_sum(len, n1);
        assert(w1 is Ok && len == saturate(written(w1).len() as int));
        Ok(len)
    }
}

#[derive(Debug, PartialEq)]
pub struct DescribableLogDirTopic {
    /// The topic name.
    pub topic: KafkaString,
    /// The partition indexes.
    pub partitions: Vec<i32>,
    pub _unknown_tagged_fields: Vec<RawTaggedField>,
}

/// What a `DescribableLogDirTopic` holds, as the specification sees it.
#[verifier::ext_equal]
pub struct DescribableLogDirTopicView {
    pub topic: Seq<u8>,
    pub partitions: Seq<i32>,
    pub unknown_tagged_fields: Seq<(u32, Seq<u8>)>,
}

impl View for DescribableLogDirTopic {
    type V = DescribableLogDirTopicView;

    open spec fn view(&self) -> DescribableLogDirTopicView {
        DescribableLogDirTopicView {
            topic: self.topic@,
            partitions: views(self.partitions@),
            unknown_tagged_fields: views(self._unknown_tagged_fields@),
        }
    }
}

impl Clone for DescribableLogDirTopic {
    fn clone(&self) -> (r: Self)
        ensures
            r@ == self@,
    {
        let r = DescribableLogDirTopic {
            topic: self.topic.clone(),
            partitions: clone_vec(&self.partitions),
            _unknown_tagged_fields: clone_vec(&self._unknown_tagged_fields),
        };
        assert(r@ =~= self@);
        r
    }
}

impl ViewClone for DescribableLogDirTopic {
    fn clone_view(&self) -> (r: Self) {
        self.clone()
    }
}

impl Default for DescribableLogDirTopic {
    fn default() -> (r: Self)
        ensures
            r@ == Self::default_view(),
    {
        let r = DescribableLogDirTopic {
            topic: KafkaString::default(),
            partitions: empty_vec(),
            _unknown_tagged_fields: empty_vec(),
        };
        assert(r@ =~= Self::default_view());
        r
    }
}

impl DescribableLogDirTopic {
    pub open spec fn default_view() -> DescribableLogDirTopicView {
        DescribableLogDirTopicView {
            topic: Seq::empty(),
            partitions: Seq::empty(),
            unknown_tagged_fields: Seq::empty(),
        }
    }

    /// The `topic` field, read from the front of `s`.
    #[verifier::opaque]
    pub open spec fn spec_read_topic(s: Seq<u8>, version: i16) -> ReadOutcome<Seq<u8>> {
        if version >= 2 {
            spec_read_compact_string(s)
        } else {
            spec_read_string(s)
        }
    }

    /// The `partitions` field, read from the front of `s`.
    #[verifier::opaque]
    pub open spec fn spec_read_partitions(s: Seq<u8>, version: i16) -> ReadOutcome<Seq<i32>> {
        if version >= 2 {
            spec_read_array::<Int32Item>(s, version, true)
        } else {
            spec_read_array::<Int32Item>(s, version, false)
        }
    }

    /// The tagged fields, read from the front of `s`.
    #[verifier::opaque]
    pub open spec fn spec_read_tags(s: Seq<u8>, version: i16) -> ReadOutcome<Seq<(u32, Seq<u8>)>> {
        if version >= 2 {
            spec_read_tagged_fields(s)
        } else {
            Ok((Seq::empty(), s))
        }
    }

    pub open spec fn spec_read(s: Seq<u8>, version: i16) -> ReadOutcome<DescribableLogDirTopicView> {
        match (Self::spec_read_topic(s, version)) {
            Err(e) => Err(e),
            Ok((topic, s)) => match (Self::spec_read_partitions(s, version)) {
                Err(e) => Err(e),
                Ok((partitions, s)) => match (Self::spec_read_tags(s, version)) {
                    Err(e) => Err(e),
                    Ok((unknown_tagged_fields, s)) => Ok((DescribableLogDirTopicView {
                                topic: topic,
                                partitions: partitions,
                                unknown_tagged_fields: unknown_tagged_fields,
                            }, s)),
                },
            },
        }
    }

    /// What writing the `topic` field of `m` appends.
    #[verifier::opaque]
    pub open spec fn spec_write_topic(m: DescribableLogDirTopicView, version: i16) -> WriteOutcome {
        if version >= 2 {
            spec_write_compact_string(m.topic)
        } else {
            spec_write_string(m.topic)
        }
    }

    /// What writing the `partitions` field of `m` appends.
    #[verifier::opaque]
    pub open spec fn spec_write_partitions(m: DescribableLogDirTopicView, version: i16) -> WriteOutcome {
        if version >= 2 {
            spec_write_array::<Int32Item>(m.partitions, version, true)
        } else {
            spec_write_array::<Int32Item>(m.partitions, version, false)
        }
    }

    /// What writing the tagged fields of `m` appends.
    #[verifier::opaque]
    pub open spec fn spec_write_tags(m: DescribableLogDirTopicView, version: i16) -> WriteOutcome {
        if version >= 2 {
            spec_write_tagged_fields(sorted_by_tag(m.unknown_tagged_fields))
        } else {
            emit(Seq::empty())
        }
    }

    pub open spec fn spec_write(m: DescribableLogDirTopicView, version: i16) -> WriteOutcome {
        chain(
            chain(
                Self::spec_write_topic(m, version),
                Self::spec_write_partitions(m, version),
            ),
            Self::spec_write_tags(m, version),
        )
    }

    /// Whether reading back what writing `m` in `version` appends gives `m`:
    /// fields that the version does not carry hold their default values, and
    /// tagged fields come in the order in which they are written.
    pub open spec fn canonical(m: DescribableLogDirTopicView, version: i16) -> bool {
        &&& (if version >= 2 {
                tags_in_order(m.unknown_tagged_fields)
            } else {
                m.unknown_tagged_fields.len() == 0
        })
    }

    proof fn lemma_round_trip_topic(m: DescribableLogDirTopicView, version: i16, rest: Seq<u8>)
        requires
            Self::canonical(m, version),
            Self::spec_write_topic(m, version) is Ok,
        ensures
            Self::spec_read_topic(written(Self::spec_write_topic(m, version)) + rest, version) == Ok::<(Seq<u8>, Seq<u8>), Error>((m.topic, rest)),
    {
        reveal(DescribableLogDirTopic::spec_read_topic);
        reveal(DescribableLogDirTopic::spec_write_topic);
        if version >= 2 {
            lemma_compact_string_round_trip(m.topic, rest);
        } else {
            lemma_string_round_trip(m.topic, rest);
        }
    }

    proof fn lemma_round_trip_partitions(m: DescribableLogDirTopicView, version: i16, rest: Seq<u8>)
        requires
            Self::canonical(m, version),
            Self::spec_write_partitions(m, version) is Ok,
        ensures
            Self::spec_read_partitions(written(Self::spec_write_partitions(m, version)) + rest, version) == Ok::<(Seq<i32>, Seq<u8>), Error>((m.partitions, rest)),
    {
        reveal(DescribableLogDirTopic::spec_read_partitions);
        reveal(DescribableLogDirTopic::spec_write_partitions);
        if version >= 2 {
            lemma_array_round_trip::<Int32Item>(m.partitions, version, true, rest);
        } else {
            lemma_array_round_trip::<Int32Item>(m.partitions, version, false, rest);
        }
    }

    proof fn lemma_round_trip_tags(m: DescribableLogDirTopicView, version: i16, rest: Seq<u8>)
        requires
            Self::canonical(m, version),
            Self::spec_write_tags(m, version) is Ok,
        ensures
            Self::spec_read_tags(written(Self::spec_write_tags(m, version)) + rest, version) == Ok::<(Seq<(u32, Seq<u8>)>, Seq<u8>), Error>((m.unknown_tagged_fields, rest)),
    {
        reveal(DescribableLogDirTopic::spec_read_tags);
        reveal(DescribableLogDirTopic::spec_write_tags);
        if version >= 2 {
            lemma_sorted_by_tag_in_order(m.unknown_tagged_fields);
            lemma_tagged_fields_round_trip(m.unknown_tagged_fields, rest);
        } else {
            assert(Seq::<u8>::empty() + rest =~= rest);
            assert(m.unknown_tagged_fields =~= Seq::empty());
        }
    }

    /// Reading back what writing `m` in `version` appends gives `m` again, and
    /// leaves what follows, for every canonical message whose write succeeds.
    #[verifier::rlimit(70)]
    #[verifier::spinoff_prover]
    pub proof fn lemma_round_trip(m: DescribableLogDirTopicView, version: i16, rest: Seq<u8>)
        requires
            Self::canonical(m, version),
            Self::spec_write(m, version) is Ok,
        ensures
            Self::spec_read(written(Self::spec_write(m, version)) + rest, version) == Ok::<(DescribableLogDirTopicView, Seq<u8>), Error>((m, rest)),
    {
        let b0 = written(Self::spec_write_topic(m, version));
        let b1 = written(Self::spec_write_partitions(m, version));
        let b2 = written(Self::spec_write_tags(m, version));
        let t3 = rest;
        let t2 = b2 + t3;
        let t1 = b1 + t2;
        let t0 = b0 + t1;
        let w0 = Self::spec_write_topic(m, version);
        let w1 = chain(w0, Self::spec_write_partitions(m, version));
        let w2 = chain(w1, Self::spec_write_tags(m, version));
        assert(Self::spec_write(m, version) == w2);
        assert(written(w2) + t3 =~= written(w1) + t2);
        assert(written(w1) + t2 =~= written(w0) + t1);
        Self::lemma_round_trip_topic(m, version, t1);
        Self::lemma_round_trip_partitions(m, version, t2);
        Self::lemma_round_trip_tags(m, version, t3);
    }

    /// In a version that does not carry `unknown_tagged_fields`, writing ignores its value.
    pub proof fn lemma_write_ignores_unknown_tagged_fields(m: DescribableLogDirTopicView, value: Seq<(u32, Seq<u8>)>, version: i16)
        requires
            !(version >= 2),
        ensures
            Self::spec_write((DescribableLogDirTopicView { unknown_tagged_fields: value, ..m }), version) == Self::spec_write(m, version),
    {
        reveal(DescribableLogDirTopic::spec_write_topic);
        reveal(DescribableLogDirTopic::spec_write_partitions);
        reveal(DescribableLogDirTopic::spec_write_tags);
    }

    /// The default message holds the default value of each field of the schema.
    pub proof fn lemma_default_values()
        ensures
            Self::default_view().topic.len() == 0,
            Self::default_view().partitions.len() == 0,
            Self::default_view().unknown_tagged_fields.len() == 0,
    {
    }

    /// Whether writing `m` in `version` succeeds, said over its parts: the
    /// version is one the schema covers, every field that the version cannot
    /// carry holds its default value, and every string, byte string, array and
    /// tagged field fits its length prefix.
    pub open spec fn writable(m: DescribableLogDirTopicView, version: i16) -> bool {
        &&& m.topic.len() <= 0x7fff
        &&& (m.partitions.len() <= i32::MAX && all_writable::<Int32Item>(m.partitions, version))
        &&& (if version >= 2 {
                m.unknown_tagged_fields.len() <= u32::MAX && tags_fit(m.unknown_tagged_fields)
            } else {
                true
        })
    }

    proof fn lemma_writable_topic(m: DescribableLogDirTopicView, version: i16)
        ensures
            Self::spec_write_topic(m, version) is Ok <==> m.topic.len() <= 0x7fff,
    {
        reveal(DescribableLogDirTopic::spec_write_topic);
    }

    proof fn lemma_writable_partitions(m: DescribableLogDirTopicView, version: i16)
        ensures
            Self::spec_write_partitions(m, version) is Ok <==> (m.partitions.len() <= i32::MAX && all_writable::<Int32Item>(m.partitions, version)),
    {
        reveal(DescribableLogDirTopic::spec_write_partitions);
        if version >= 2 {
            lemma_array_writable::<Int32Item>(m.partitions, version, true);
        } else {
            lemma_array_writable::<Int32Item>(m.partitions, version, false);
        }
    }

    proof fn lemma_writable_tags(m: DescribableLogDirTopicView, version: i16)
        ensures
            Self::spec_write_tags(m, version) is Ok <==> (if version >= 2 { m.unknown_tagged_fields.len() <= u32::MAX && tags_fit(m.unknown_tagged_fields) } else { true }),
    {
        reveal(DescribableLogDirTopic::spec_write_tags);
        if version >= 2 {
            lemma_sorted_tags_fit(m.unknown_tagged_fields);
            lemma_tagged_fields_writable(sorted_by_tag(m.unknown_tagged_fields));
        }
    }

    /// Writing `m` in `version` succeeds exactly when `m` is writable in it;
    /// so do `write` and `encoded_len`, whose results follow `spec_write`.
    #[verifier::rlimit(48)]
    pub proof fn lemma_writable(m: DescribableLogDirTopicView, version: i16)
        ensures
            Self::spec_write(m, version) is Ok <==> Self::writable(m, version),
    {
        Self::lemma_writable_topic(m, version);
        Self::lemma_writable_partitions(m, version);
        Self::lemma_writable_tags(m, version);
    }

    pub fn with_topic(self, value: KafkaString) -> (r: Self)
        ensures
            r@ == (DescribableLogDirTopicView { topic: value@, ..self@ }),
    {
        let mut r = self;
        r.topic = value;
        r
    }

    pub fn with_partitions(self, value: Vec<i32>) -> (r: Self)
        ensures
            r@ == (DescribableLogDirTopicView { partitions: views(value@), ..self@ }),
    {
        let mut r = self;
        r.partitions = value;
        r
    }

    fn read_topic(buf: &mut Bytes, version: i16) -> (r: Result<KafkaString, Error>)
        ensures
            read_as(Self::spec_read_topic(bytes_seq(*old(buf)), version), *final(buf), r),
            took_front(*old(buf), *final(buf)),
    {
        proof {
            reveal(DescribableLogDirTopic::spec_read_topic);
        }
        Ok(if version >= 2 {
                read_compact_string(buf)?
            } else {
                read_string(buf)?
        })
    }

    fn read_partitions(buf: &mut Bytes, version: i16) -> (r: Result<Vec<i32>, Error>)
        ensures
            read_vec_as(Self::spec_read_partitions(bytes_seq(*old(buf)), version), *final(buf), r),
            took_front(*old(buf), *final(buf)),
    {
        proof {
            reveal(DescribableLogDirTopic::spec_read_partitions);
        }
        Ok(if version >= 2 {
                read_array::<Int32Item>(buf, version, true)?
            } else {
                read_array::<Int32Item>(buf, version, false)?
        })
    }

    fn read_tags(buf: &mut Bytes, version: i16) -> (r: Result<Vec<RawTaggedField>, Error>)
        ensures
            read_vec_as(Self::spec_read_tags(bytes_seq(*old(buf)), version), *final(buf), r),
            took_front(*old(buf), *final(buf)),
    {
        proof {
            reveal(DescribableLogDirTopic::spec_read_tags);
        }
        Ok(if version >= 2 {
                read_tagged_fields(buf)?
            } else {
                empty_vec()
        })
    }

    pub fn read(buf: &mut Bytes, version: i16) -> (r: Result<Self, Error>)
        ensures
            read_as(Self::spec_read(bytes_seq(*old(buf)), version), *final(buf), r),
            took_front(*old(buf), *final(buf)),
    {
        let topic = Self::read_topic(buf, version)?;
        let partitions = Self::read_partitions(buf, version)?;
        let _unknown_tagged_fields = Self::read_tags(buf, version)?;
        Ok(DescribableLogDirTopic {
                topic: topic,
                partitions: partitions,
                _unknown_tagged_fields: _unknown_tagged_fields,
        })
    }

    #[verifier::rlimit(60)]
    pub fn write(&self, buf: &mut BytesMut, version: i16) -> (r: Result<(), Error>)
        requires
            has_room(Self::spec_write(self@, version), *old(buf)),
        ensures
            wrote(Self::spec_write(self@, version), *old(buf), *final(buf), r),
    {
        let ghost m = self@;
        proof {
            reveal(DescribableLogDirTopic::spec_write_topic);
            reveal(DescribableLogDirTopic::spec_write_partitions);
            reveal(DescribableLogDirTopic::spec_write_tags);
        }
        let ghost s0 = Self::spec_write_topic(m, version);
        let ghost w0 = s0;
        let ghost s1 = Self::spec_write_partitions(m, version);
        let ghost w1 = chain(w0, s1);
        let ghost s2 = Self::spec_write_tags(m, version);
        let ghost w2 = chain(w1, s2);
        assert(Self::spec_write(m, version) == w2);
        assert(written(w1).len() <= written(w2).len() && (w1 is Err ==> w2 == w1));
        assert(written(w0).len() <= written(w2).len() && (w0 is Err ==> w2 == w0));
        let ghost mid = bytes_mut_seq(*buf);
        proof {
            lemma_append_empty(mid);
        }
        let r0 = if version >= 2 {
            write_compact_string(buf, &self.topic)
        } else {
            write_string(buf, &self.topic)
        };
        assert(bytes_mut_seq(*buf) == mid + written(s0));
        if r0.is_err() {
            return r0;
        }
        let ghost mid = bytes_mut_seq(*buf);
        proof {
            lemma_append_empty(mid);
        }
        let r1 = if version >= 2 {
            write_array::<Int32Item>(buf, &self.partitions, version, true)
        } else {
            write_array::<Int32Item>(buf, &self.partitions, version, false)
        };
        assert(bytes_mut_seq(*buf) == mid + written(s1));
        proof {
            lemma_step(bytes_mut_seq(*old(buf)), w0, s1);
        }
        if r1.is_err() {
            return r1;
        }
        let ghost mid = bytes_mut_seq(*buf);
        proof {
            lemma_append_empty(mid);
        }
        let r2 = if version >= 2 {
            write_tagged_fields(buf, &sort_by_tag(&self._unknown_tagged_fields))
        } else {
            Ok(())
        };
        assert(bytes_mut_seq(*buf) == mid + written(s2));
        proof {
            lemma_step(bytes_mut_seq(*old(buf)), w1, s2);
        }
        if r2.is_err() {
            return r2;
        }
        Ok(())
    }

    #[verifier::rlimit(60)]
    pub fn encoded_len(&self, version: i16) -> (r: Result<usize, Error>)
        ensures
            r == len_result(Self::spec_write(self@, version)),
    {
        let ghost m = self@;
        proof {
            reveal(DescribableLogDirTopic::spec_write_topic);
            reveal(DescribableLogDirTopic::spec_write_partitions);
            reveal(DescribableLogDirTopic::spec_write_tags);
        }
        let ghost s0 = Self::spec_write_topic(m, version);
        let ghost w0 = s0;
        let ghost s1 = Self::spec_write_partitions(m, version);
        let ghost w1 = chain(w0, s1);
        let ghost s2 = Self::spec_write_tags(m, version);
        let ghost w2 = chain(w1, s2);
        assert(Self::spec_write(m, version) == w2);
        assert(w1 is Err ==> w2 == w1);
        assert(w0 is Err ==> w2 == w0);
        let mut len: usize = 0;
        let l0 = if version >= 2 {
            compact_string_len(&self.topic)
        } else {
            string_len(&self.topic)
        };
        assert(l0 == len_result(s0));
        let n0 = match l0 {
            Ok(n) => n,
            Err(e) => {
                return Err(e);
            },
        };
        len = saturating_sum(len, n0);
        assert(w0 is Ok && len == saturate(written(w0).len() as int));
        let l1 = if version >= 2 {
            array_len::<Int32Item>(&self.partitions, version, true)
        } else {
            array_len::<Int32Item>(&self.partitions, version, false)
        };
        assert(l1 == len_result(s1));
        let n1 = match l1 {
            Ok(n) => n,
            Err(e) => {
                return Err(e);
            },
        };
        proof {
            lemma_len_step(w0, s1, n1);
        }
        len = saturating_sum(len, n1);
        assert(w1 is Ok && len == saturate(written(w1).len() as int));
        let l2 = if version >= 2 {
            tagged_fields_len(&sort_by_tag(&self._unknown_tagged_fields))
        } else {
            Ok(0)
        };
        assert(l2 == len_result(s2));
        let n2 = match l2 {
            Ok(n) => n,
            Err(e) => {
                return Err(e);
            },
        };
        proof {
            lemma_len_step(w1, s2, n2);
        }
        len = saturating_sum(len, n2);
        assert(w2 is Ok && len == saturate(written(w2).len() as int));
        Ok(len)
    }
}

impl Codec for DescribableLogDirTopic {
    type Item = DescribableLogDirTopic;

    open spec fn spec_read_item(s: Seq<u8>, version: i16) -> ReadOutcome<DescribableLogDirTopicView> {
        DescribableLogDirTopic::spec_read(s, version)
    }

    open spec fn spec_write_item(v: DescribableLogDirTopicView, version: i16) -> WriteOutcome {
        DescribableLogDirTopic::spec_write(v, version)
    }

    open spec fn canonical_item(v: DescribableLogDirTopicView, version: i16) -> bool {
        DescribableLogDirTopic::canonical(v, version)
    }

    proof fn lemma_item_round_trip(v: DescribableLogDirTopicView, version: i16, rest: Seq<u8>) {
        DescribableLogDirTopic::lemma_round_trip(v, version, rest);
    }

    open spec fn writable_item(v: DescribableLogDirTopicView, version: i16) -> bool {
        DescribableLogDirTopic::writable(v, version)
    }

    proof fn lemma_item_writable(v: DescribableLogDirTopicView, version: i16) {
        DescribableLogDirTopic::lemma_writable(v, version);
    }

    fn read_item(buf: &mut Bytes, version: i16) -> (r: Result<DescribableLogDirTopic, Error>) {
        DescribableLogDirTopic::read(buf, version)
    }

    fn write_item(item: &DescribableLogDirTopic, buf: &mut BytesMut, version: i16) -> (r: Result<(), Error>) {
        item.write(buf, version)
    }
}

impl MeasuredCodec for DescribableLogDirTopic {
    fn item_len(item: &DescribableLogDirTopic, version: i16) -> (r: Result<usize, Error>) {
        item.encoded_len(version)
    }
}

} // verus!
