//! The delete topics request message.
use crate::buffer::{bytes_mut_seq, bytes_seq};
use crate::codec::{Codec, CompactStringItem, MeasuredCodec, StringItem, all_canonical, all_writable, array_len, lemma_array_round_trip, lemma_array_writable, read_array, saturating_sum, spec_read_array, spec_write_array, write_array};
use crate::error::{Error, UnsupportedFieldVersion, UnsupportedVersion};
use crate::ints::{lemma_i32_roundtrip, read_i32, spec_read_i32, spec_write_i32, u32_bytes, u64_bytes, write_i32};
use crate::strings::{compact_nullable_string_len, lemma_compact_nullable_string_round_trip, lemma_uuid_round_trip, read_compact_nullable_string, read_uuid, spec_read_compact_nullable_string, spec_read_uuid, spec_write_compact_nullable_string, spec_write_uuid, write_compact_nullable_string, write_uuid};
use crate::tagged::{lemma_sorted_by_tag_in_order, lemma_sorted_tags_fit, lemma_tagged_fields_round_trip, lemma_tagged_fields_writable, read_tagged_fields, sort_by_tag, sorted_by_tag, spec_read_tagged_fields, spec_write_tagged_fields, tagged_fields_len, tags_fit, tags_in_order, write_tagged_fields};
use crate::types::{KafkaString, KafkaUuid, RawTaggedField};
use crate::wire::{ReadOutcome, ViewClone, WriteOutcome, chain, clone_vec, emit, empty_vec, fail, has_room, lemma_append_empty, lemma_chain_written, lemma_len_step, lemma_step, len_result, opt_view, read_as, read_opt_as, read_vec_as, saturate, took_front, views, written, wrote};
use bytes::{Bytes, BytesMut};
use vstd::prelude::*;

verus! {

broadcast use {crate::wire::lemma_chain_written, crate::wire::lemma_took_front_nothing, crate::wire::lemma_took_front_twice};

#[derive(Debug, PartialEq)]
pub struct DeleteTopicsRequestData {
    /// The name or topic ID of the topic.
    pub topics: Vec<DeleteTopicState>,
    /// The names of the topics to delete.
    pub topic_names: Vec<KafkaString>,
    /// The length of time in milliseconds to wait for the deletions to complete.
    pub timeout_ms: i32,
    pub _unknown_tagged_fields: Vec<RawTaggedField>,
}

/// What a `DeleteTopicsRequestData` holds, as the specification sees it.
#[verifier::ext_equal]
pub struct DeleteTopicsRequestDataView {
    pub topics: Seq<DeleteTopicStateView>,
    pub topic_names: Seq<Seq<u8>>,
    pub timeout_ms: i32,
    pub unknown_tagged_fields: Seq<(u32, Seq<u8>)>,
}

impl View for DeleteTopicsRequestData {
    type V = DeleteTopicsRequestDataView;

    open spec fn view(&self) -> DeleteTopicsRequestDataView {
        DeleteTopicsRequestDataView {
            topics: views(self.topics@),
            topic_names: views(self.topic_names@),
            timeout_ms: self.timeout_ms,
            unknown_tagged_fields: views(self._unknown_tagged_fields@),
        }
    }
}

impl Clone for DeleteTopicsRequestData {
    fn clone(&self) -> (r: Self)
        ensures
            r@ == self@,
    {
        let r = DeleteTopicsRequestData {
            topics: clone_vec(&self.topics),
            topic_names: clone_vec(&self.topic_names),
            timeout_ms: self.timeout_ms,
            _unknown_tagged_fields: clone_vec(&self._unknown_tagged_fields),
        };
        assert(r@ =~= self@);
        r
    }
}

impl ViewClone for DeleteTopicsRequestData {
    fn clone_view(&self) -> (r: Self) {
        self.clone()
    }
}

impl Default for DeleteTopicsRequestData {
    fn default() -> (r: Self)
        ensures
            r@ == Self::default_view(),
    {
        let r = DeleteTopicsRequestData {
            topics: empty_vec(),
            topic_names: empty_vec(),
            timeout_ms: 0_i32,
            _unknown_tagged_fields: empty_vec(),
        };
        assert(r@ =~= Self::default_view());
        r
    }
}

impl DeleteTopicsRequestData {
    pub open spec fn default_view() -> DeleteTopicsRequestDataView {
        DeleteTopicsRequestDataView {
            topics: Seq::empty(),
            topic_names: Seq::empty(),
            timeout_ms: 0_i32,
            unknown_tagged_fields: Seq::empty(),
        }
    }

    /// The `topics` field, read from the front of `s`.
    #[verifier::opaque]
    pub open spec fn spec_read_topics(s: Seq<u8>, version: i16) -> ReadOutcome<Seq<DeleteTopicStateView>> {
        if version >= 6 {
            spec_read_array::<DeleteTopicState>(s, version, true)
        } else {
            Ok((Seq::empty(), s))
        }
    }

    /// The `topic_names` field, read from the front of `s`.
    #[verifier::opaque]
    pub open spec fn spec_read_topic_names(s: Seq<u8>, version: i16) -> ReadOutcome<Seq<Seq<u8>>> {
        if version <= 5 {
            if version >= 4 {
                spec_read_array::<CompactStringItem>(s, version, true)
            } else {
                spec_read_array::<StringItem>(s, version, false)
            }
        } else {
            Ok((Seq::empty(), s))
        }
    }

    /// The `timeout_ms` field, read from the front of `s`.
    #[verifier::opaque]
    pub open spec fn spec_read_timeout_ms(s: Seq<u8>, version: i16) -> ReadOutcome<i32> {
        spec_read_i32(s)
    }

    /// The tagged fields, read from the front of `s`.
    #[verifier::opaque]
    pub open spec fn spec_read_tags(s: Seq<u8>, version: i16) -> ReadOutcome<Seq<(u32, Seq<u8>)>> {
        if version >= 4 {
            spec_read_tagged_fields(s)
        } else {
            Ok((Seq::empty(), s))
        }
    }

    pub open spec fn spec_read(s: Seq<u8>, version: i16) -> ReadOutcome<DeleteTopicsRequestDataView> {
        if version < 1 || version > 6 {
            Err(Error::UnsupportedVersion(UnsupportedVersion { api_key: 20, version }))
        } else {
            match (Self::spec_read_topics(s, version)) {
                Err(e) => Err(e),
                Ok((topics, s)) => match (Self::spec_read_topic_names(s, version)) {
                    Err(e) => Err(e),
                    Ok((topic_names, s)) => match (Self::spec_read_timeout_ms(s, version)) {
                        Err(e) => Err(e),
                        Ok((timeout_ms, s)) => match (Self::spec_read_tags(s, version)) {
                            Err(e) => Err(e),
                            Ok((unknown_tagged_fields, s)) => Ok((DeleteTopicsRequestDataView {
                                        topics: topics,
                                        topic_names: topic_names,
                                        timeout_ms: timeout_ms,
                                        unknown_tagged_fields: unknown_tagged_fields,
                                    }, s)),
                        },
                    },
                },
            }
        }
    }

    /// What writing the `topics` field of `m` appends.
    #[verifier::opaque]
    pub open spec fn spec_write_topics(m: DeleteTopicsRequestDataView, version: i16) -> WriteOutcome {
        if version >= 6 {
            spec_write_array::<DeleteTopicState>(m.topics, version, true)
        } else {
            if m.topics.len() != 0 {
                fail(Error::UnsupportedFieldVersion(UnsupportedFieldVersion { api_key: 20, field: "topics", version }))
            } else {
                emit(Seq::empty())
            }
        }
    }

    /// What writing the `topic_names` field of `m` appends.
    #[verifier::opaque]
    pub open spec fn spec_write_topic_names(m: DeleteTopicsRequestDataView, version: i16) -> WriteOutcome {
        if version <= 5 {
            if version >= 4 {
                spec_write_array::<CompactStringItem>(m.topic_names, version, true)
            } else {
                spec_write_array::<StringItem>(m.topic_names, version, false)
            }
        } else {
            if m.topic_names.len() != 0 {
                fail(Error::UnsupportedFieldVersion(UnsupportedFieldVersion { api_key: 20, field: "topic_names", version }))
            } else {
                emit(Seq::empty())
            }
        }
    }

    /// What writing the `timeout_ms` field of `m` appends.
    #[verifier::opaque]
    pub open spec fn spec_write_timeout_ms(m: DeleteTopicsRequestDataView, version: i16) -> WriteOutcome {
        spec_write_i32(m.timeout_ms)
    }

    /// What writing the tagged fields of `m` appends.
    #[verifier::opaque]
    pub open spec fn spec_write_tags(m: DeleteTopicsRequestDataView, version: i16) -> WriteOutcome {
        if version >= 4 {
            spec_write_tagged_fields(sorted_by_tag(m.unknown_tagged_fields))
        } else {
            emit(Seq::empty())
        }
    }

    pub open spec fn spec_write(m: DeleteTopicsRequestDataView, version: i16) -> WriteOutcome {
        if version < 1 || version > 6 {
            fail(Error::UnsupportedVersion(UnsupportedVersion { api_key: 20, version }))
        } else {
            chain(
                chain(
                    chain(
                        Self::spec_write_topics(m, version),
                        Self::spec_write_topic_names(m, version),
                    ),
                    Self::spec_write_timeout_ms(m, version),
                ),
                Self::spec_write_tags(m, version),
            )
        }
    }

    /// Whether reading back what writing `m` in `version` appends gives `m`:
    /// fields that the version does not carry hold their default values, and
    /// tagged fields come in the order in which they are written.
    pub open spec fn canonical(m: DeleteTopicsRequestDataView, version: i16) -> bool {
        &&& (if version >= 6 {
                all_canonical::<DeleteTopicState>(m.topics, version)
            } else {
                true
        })
        &&& (if version >= 4 {
                tags_in_order(m.unknown_tagged_fields)
            } else {
                m.unknown_tagged_fields.len() == 0
        })
    }

    proof fn lemma_round_trip_topics(m: DeleteTopicsRequestDataView, version: i16, rest: Seq<u8>)
        requires
            Self::canonical(m, version),
            Self::spec_write_topics(m, version) is Ok,
        ensures
            Self::spec_read_topics(written(Self::spec_write_topics(m, version)) + rest, version) == Ok::<(Seq<DeleteTopicStateView>, Seq<u8>), Error>((m.topics, rest)),
    {
        reveal(DeleteTopicsRequestData::spec_read_topics);
        reveal(DeleteTopicsRequestData::spec_write_topics);
        if version >= 6 {
            lemma_array_round_trip::<DeleteTopicState>(m.topics, version, true, rest);
        } else {
            assert(Seq::<u8>::empty() + rest =~= rest);
            assert(m.topics =~= Seq::empty());
            assert(m.topics =~= Seq::empty());
        }
    }

    proof fn lemma_round_trip_topic_names(m: DeleteTopicsRequestDataView, version: i16, rest: Seq<u8>)
        requires
            Self::canonical(m, version),
            Self::spec_write_topic_names(m, version) is Ok,
        ensures
            Self::spec_read_topic_names(written(Self::spec_write_topic_names(m, version)) + rest, version) == Ok::<(Seq<Seq<u8>>, Seq<u8>), Error>((m.topic_names, rest)),
    {
        reveal(DeleteTopicsRequestData::spec_read_topic_names);
        reveal(DeleteTopicsRequestData::spec_write_topic_names);
        if version <= 5 {
            if version >= 4 {
                lemma_array_round_trip::<CompactStringItem>(m.topic_names, version, true, rest);
            } else {
                lemma_array_round_trip::<StringItem>(m.topic_names, version, false, rest);
            }
        } else {
            assert(Seq::<u8>::empty() + rest =~= rest);
            assert(m.topic_names =~= Seq::empty());
            assert(m.topic_names =~= Seq::empty());
        }
    }

    proof fn lemma_round_trip_timeout_ms(m: DeleteTopicsRequestDataView, version: i16, rest: Seq<u8>)
        requires
            Self::canonical(m, version),
            Self::spec_write_timeout_ms(m, version) is Ok,
        ensures
            Self::spec_read_timeout_ms(written(Self::spec_write_timeout_ms(m, version)) + rest, version) == Ok::<(i32, Seq<u8>), Error>((m.timeout_ms, rest)),
    {
        reveal(DeleteTopicsRequestData::spec_read_timeout_ms);
        reveal(DeleteTopicsRequestData::spec_write_timeout_ms);
        lemma_i32_roundtrip(m.timeout_ms, rest);
    }

    proof fn lemma_round_trip_tags(m: DeleteTopicsRequestDataView, version: i16, rest: Seq<u8>)
        requires
            Self::canonical(m, version),
            Self::spec_write_tags(m, version) is Ok,
        ensures
            Self::spec_read_tags(written(Self::spec_write_tags(m, version)) + rest, version) == Ok::<(Seq<(u32, Seq<u8>)>, Seq<u8>), Error>((m.unknown_tagged_fields, rest)),
    {
        reveal(DeleteTopicsRequestData::spec_read_tags);
        reveal(DeleteTopicsRequestData::spec_write_tags);
        if version >= 4 {
            lemma_sorted_by_tag_in_order(m.unknown_tagged_fields);
            lemma_tagged_fields_round_trip(m.unknown_tagged_fields, rest);
        } else {
            assert(Seq::<u8>::empty() + rest =~= rest);
            assert(m.unknown_tagged_fields =~= Seq::empty());
        }
    }

    /// Reading back what writing `m` in `version` appends gives `m` again, and
    /// leaves what follows, for every canonical message whose write succeeds.
    #[verifier::rlimit(80)]
    #[verifier::spinoff_prover]
    pub proof fn lemma_round_trip(m: DeleteTopicsRequestDataView, version: i16, rest: Seq<u8>)
        requires
            Self::canonical(m, version),
            Self::spec_write(m, version) is Ok,
        ensures
            Self::spec_read(written(Self::spec_write(m, version)) + rest, version) == Ok::<(DeleteTopicsRequestDataView, Seq<u8>), Error>((m, rest)),
    {
        let b0 = written(Self::spec_write_topics(m, version));
        let b1 = written(Self::spec_write_topic_names(m, version));
        let b2 = written(Self::spec_write_timeout_ms(m, version));
        let b3 = written(Self::spec_write_tags(m, version));
        let t4 = rest;
        let t3 = b3 + t4;
        let t2 = b2 + t3;
        let t1 = b1 + t2;
        let t0 = b0 + t1;
        let w0 = Self::spec_write_topics(m, version);
        let w1 = chain(w0, Self::spec_write_topic_names(m, version));
        let w2 = chain(w1, Self::spec_write_timeout_ms(m, version));
        let w3 = chain(w2, Self::spec_write_tags(m, version));
        assert(Self::spec_write(m, version) == w3);
        assert(written(w3) + t4 =~= written(w2) + t3);
        assert(written(w2) + t3 =~= written(w1) + t2);
        assert(written(w1) + t2 =~= written(w0) + t1);
        Self::lemma_round_trip_topics(m, version, t1);
        Self::lemma_round_trip_topic_names(m, version, t2);
        Self::lemma_round_trip_timeout_ms(m, version, t3);
        Self::lemma_round_trip_tags(m, version, t4);
    }

    /// In a version that does not carry `unknown_tagged_fields`, writing ignores its value.
    pub proof fn lemma_write_ignores_unknown_tagged_fields(m: DeleteTopicsRequestDataView, value: Seq<(u32, Seq<u8>)>, version: i16)
        requires
            !(version >= 4),
        ensures
            Self::spec_write((DeleteTopicsRequestDataView { unknown_tagged_fields: value, ..m }), version) == Self::spec_write(m, version),
    {
        reveal(DeleteTopicsRequestData::spec_write_topics);
        reveal(DeleteTopicsRequestData::spec_write_topic_names);
        reveal(DeleteTopicsRequestData::spec_write_timeout_ms);
        reveal(DeleteTopicsRequestData::spec_write_tags);
    }

    /// The default message holds the default value of each field of the schema.
    pub proof fn lemma_default_values()
        ensures
            Self::default_view().topics.len() == 0,
            Self::default_view().topic_names.len() == 0,
            Self::default_view().timeout_ms == (0_i32),
            Self::default_view().unknown_tagged_fields.len() == 0,
    {
    }

    /// Each integer, boolean and identifier field is written as its standard
    /// big-endian bytes (a boolean as `1` or `0`) in the versions that carry
    /// it, and as nothing in the others; reading it takes those bytes back (any
    /// byte other than `0` reads as `true`), or gives its default value.
    pub proof fn lemma_field_encodings(m: DeleteTopicsRequestDataView, s: Seq<u8>, version: i16)
        ensures
            true ==> Self::spec_write_timeout_ms(m, version) == Ok::<Seq<u8>, (Error, Seq<u8>)>(u32_bytes(m.timeout_ms as u32)),
            true ==> Self::spec_read_timeout_ms(s, version) == spec_read_i32(s),
    {
        reveal(DeleteTopicsRequestData::spec_write_timeout_ms);
        reveal(DeleteTopicsRequestData::spec_read_timeout_ms);
    }

    /// Whether writing `m` in `version` succeeds, said over its parts: the
    /// version is one the schema covers, every field that the version cannot
    /// carry holds its default value, and every string, byte string, array and
    /// tagged field fits its length prefix.
    pub open spec fn writable(m: DeleteTopicsRequestDataView, version: i16) -> bool {
        &&& 1 <= version <= 6
        &&& (if version >= 6 {
                (m.topics.len() <= i32::MAX && all_writable::<DeleteTopicState>(m.topics, version))
            } else {
                !(m.topics.len() != 0)
        })
        &&& (if version <= 5 {
                (if version >= 4 {
                        (m.topic_names.len() <= i32::MAX && all_writable::<CompactStringItem>(m.topic_names, version))
                    } else {
                        (m.topic_names.len() <= i32::MAX && all_writable::<StringItem>(m.topic_names, version))
                })
            } else {
                !(m.topic_names.len() != 0)
        })
        &&& (if version >= 4 {
                m.unknown_tagged_fields.len() <= u32::MAX && tags_fit(m.unknown_tagged_fields)
            } else {
                true
        })
    }

    proof fn lemma_writable_topics(m: DeleteTopicsRequestDataView, version: i16)
        ensures
            Self::spec_write_topics(m, version) is Ok <==> (if version >= 6 { (m.topics.len() <= i32::MAX && all_writable::<DeleteTopicState>(m.topics, version)) } else { !(m.topics.len() != 0) }),
    {
        reveal(DeleteTopicsRequestData::spec_write_topics);
        if version >= 6 {
            lemma_array_writable::<DeleteTopicState>(m.topics, version, true);
        } else {
        }
    }

    proof fn lemma_writable_topic_names(m: DeleteTopicsRequestDataView, version: i16)
        ensures
            Self::spec_write_topic_names(m, version) is Ok <==> (if version <= 5 { (if version >= 4 { (m.topic_names.len() <= i32::MAX && all_writable::<CompactStringItem>(m.topic_names, version)) } else { (m.topic_names.len() <= i32::MAX && all_writable::<StringItem>(m.topic_names, version)) }) } else { !(m.topic_names.len() != 0) }),
    {
        reveal(DeleteTopicsRequestData::spec_write_topic_names);
        if version <= 5 {
            if version >= 4 {
                lemma_array_writable::<CompactStringItem>(m.topic_names, version, true);
            } else {
                lemma_array_writable::<StringItem>(m.topic_names, version, false);
            }
        } else {
        }
    }

    proof fn lemma_writable_timeout_ms(m: DeleteTopicsRequestDataView, version: i16)
        ensures
            Self::spec_write_timeout_ms(m, version) is Ok <==> true,
    {
        reveal(DeleteTopicsRequestData::spec_write_timeout_ms);
    }

    proof fn lemma_writable_tags(m: DeleteTopicsRequestDataView, version: i16)
        ensures
            Self::spec_write_tags(m, version) is Ok <==> (if version >= 4 { m.unknown_tagged_fields.len() <= u32::MAX && tags_fit(m.unknown_tagged_fields) } else { true }),
    {
        reveal(DeleteTopicsRequestData::spec_write_tags);
        if version >= 4 {
            lemma_sorted_tags_fit(m.unknown_tagged_fields);
            lemma_tagged_fields_writable(sorted_by_tag(m.unknown_tagged_fields));
        }
    }

    /// Writing `m` in `version` succeeds exactly when `m` is writable in it;
    /// so do `write` and `encoded_len`, whose results follow `spec_write`.
    #[verifier::rlimit(54)]
    pub proof fn lemma_writable(m: DeleteTopicsRequestDataView, version: i16)
        ensures
            Self::spec_write(m, version) is Ok <==> Self::writable(m, version),
    {
        Self::lemma_writable_topics(m, version);
        Self::lemma_writable_topic_names(m, version);
        Self::lemma_writable_timeout_ms(m, version);
        Self::lemma_writable_tags(m, version);
    }

    /// A version outside the range that the schema covers is refused, by
    /// reads and by writes alike, before anything is read or written.
    pub proof fn lemma_refused_version(m: DeleteTopicsRequestDataView, s: Seq<u8>, version: i16)
        requires
            version < 1 || version > 6,
        ensures
            Self::spec_read(s, version) == Err::<(DeleteTopicsRequestDataView, Seq<u8>), Error>(Error::UnsupportedVersion(UnsupportedVersion { api_key: 20, version })),
            Self::spec_write(m, version) == fail(Error::UnsupportedVersion(UnsupportedVersion { api_key: 20, version })),
    {
    }

    pub fn with_topics(self, value: Vec<DeleteTopicState>) -> (r: Self)
        ensures
            r@ == (DeleteTopicsRequestDataView { topics: views(value@), ..self@ }),
    {
        let mut r = self;
        r.topics = value;
        r
    }

    pub fn with_topic_names(self, value: Vec<KafkaString>) -> (r: Self)
        ensures
            r@ == (DeleteTopicsRequestDataView { topic_names: views(value@), ..self@ }),
    {
        let mut r = self;
        r.topic_names = value;
        r
    }

    pub fn with_timeout_ms(self, value: i32) -> (r: Self)
        ensures
            r@ == (DeleteTopicsRequestDataView { timeout_ms: value, ..self@ }),
    {
        let mut r = self;
        r.timeout_ms = value;
        r
    }

    fn read_topics(buf: &mut Bytes, version: i16) -> (r: Result<Vec<DeleteTopicState>, Error>)
        ensures
            read_vec_as(Self::spec_read_topics(bytes_seq(*old(buf)), version), *final(buf), r),
            took_front(*old(buf), *final(buf)),
    {
        proof {
            reveal(DeleteTopicsRequestData::spec_read_topics);
        }
        Ok(if version >= 6 {
                read_array::<DeleteTopicState>(buf, version, true)?
            } else {
                empty_vec()
        })
    }

    fn read_topic_names(buf: &mut Bytes, version: i16) -> (r: Result<Vec<KafkaString>, Error>)
        ensures
            read_vec_as(Self::spec_read_topic_names(bytes_seq(*old(buf)), version), *final(buf), r),
            took_front(*old(buf), *final(buf)),
    {
        proof {
            reveal(DeleteTopicsRequestData::spec_read_topic_names);
        }
        Ok(if version <= 5 {
                if version >= 4 {
                    read_array::<CompactStringItem>(buf, version, true)?
                } else {
                    read_array::<StringItem>(buf, version, false)?
                }
            } else {
                empty_vec()
        })
    }

    fn read_timeout_ms(buf: &mut Bytes, version: i16) -> (r: Result<i32, Error>)
        ensures
            read_as(Self::spec_read_timeout_ms(bytes_seq(*old(buf)), version), *final(buf), r),
            took_front(*old(buf), *final(buf)),
    {
        proof {
            reveal(DeleteTopicsRequestData::spec_read_timeout_ms);
        }
        Ok(read_i32(buf)?)
    }

    fn read_tags(buf: &mut Bytes, version: i16) -> (r: Result<Vec<RawTaggedField>, Error>)
        ensures
            read_vec_as(Self::spec_read_tags(bytes_seq(*old(buf)), version), *final(buf), r),
            took_front(*old(buf), *final(buf)),
    {
        proof {
            reveal(DeleteTopicsRequestData::spec_read_tags);
        }
        Ok(if version >= 4 {
                read_tagged_fields(buf)?
            } else {
                empty_vec()
        })
    }

    pub fn read(buf: &mut Bytes, version: i16) -> (r: Result<Self, Error>)
        ensures
            read_as(Self::spec_read(bytes_seq(*old(buf)), version), *final(buf), r),
            took_front(*old(buf), *final(buf)),
            (version < 1 || version > 6) ==> bytes_seq(*final(buf)) == bytes_seq(*old(buf)),
    {
        if version < 1 || version > 6 {
            return Err(Error::UnsupportedVersion(UnsupportedVersion::new(20, version)));
        }
        let topics = Self::read_topics(buf, version)?;
        let topic_names = Self::read_topic_names(buf, version)?;
        let timeout_ms = Self::read_timeout_ms(buf, version)?;
        let _unknown_tagged_fields = Self::read_tags(buf, version)?;
        Ok(DeleteTopicsRequestData {
                topics: topics,
                topic_names: topic_names,
                timeout_ms: timeout_ms,
                _unknown_tagged_fields: _unknown_tagged_fields,
        })
    }

    #[verifier::rlimit(70)]
    pub fn write(&self, buf: &mut BytesMut, version: i16) -> (r: Result<(), Error>)
        requires
            has_room(Self::spec_write(self@, version), *old(buf)),
        ensures
            wrote(Self::spec_write(self@, version), *old(buf), *final(buf), r),
    {
        if version < 1 || version > 6 {
            return Err(Error::UnsupportedVersion(UnsupportedVersion::new(20, version)));
        }
        let ghost m = self@;
        proof {
            reveal(DeleteTopicsRequestData::spec_write_topics);
            reveal(DeleteTopicsRequestData::spec_write_topic_names);
            reveal(DeleteTopicsRequestData::spec_write_timeout_ms);
            reveal(DeleteTopicsRequestData::spec_write_tags);
        }
        let ghost s0 = Self::spec_write_topics(m, version);
        let ghost w0 = s0;
        let ghost s1 = Self::spec_write_topic_names(m, version);
        let ghost w1 = chain(w0, s1);
        let ghost s2 = Self::spec_write_timeout_ms(m, version);
        let ghost w2 = chain(w1, s2);
        let ghost s3 = Self::spec_write_tags(m, version);
        let ghost w3 = chain(w2, s3);
        assert(Self::spec_write(m, version) == w3);
        assert(written(w2).len() <= written(w3).len() && (w2 is Err ==> w3 == w2));
        assert(written(w1).len() <= written(w3).len() && (w1 is Err ==> w3 == w1));
        assert(written(w0).len() <= written(w3).len() && (w0 is Err ==> w3 == w0));
        let ghost mid = bytes_mut_seq(*buf);
        proof {
            lemma_append_empty(mid);
        }
        let r0 = if version >= 6 {
            write_array::<DeleteTopicState>(buf, &self.topics, version, true)
        } else {
            if self.topics.len() != 0 {
                Err(Error::UnsupportedFieldVersion(UnsupportedFieldVersion::new(20, "topics", version)))
            } else {
                Ok(())
            }
        };
        assert(bytes_mut_seq(*buf) == mid + written(s0));
        if r0.is_err() {
            return r0;
        }
        let ghost mid = bytes_mut_seq(*buf);
        proof {
            lemma_append_empty(mid);
        }
        let r1 = if version <= 5 {
            if version >= 4 {
                write_array::<CompactStringItem>(buf, &self.topic_names, version, true)
            } else {
                write_array::<StringItem>(buf, &self.topic_names, version, false)
            }
        } else {
            if self.topic_names.len() != 0 {
                Err(Error::UnsupportedFieldVersion(UnsupportedFieldVersion::new(20, "topic_names", version)))
            } else {
                Ok(())
            }
        };
        assert(bytes_mut_seq(*buf) == mid + written(s1));
        proof {
            lemma_step(bytes_mut_seq(*old(buf)), w0, s1);
        }
        if r1.is_err() {
            return r1;
        }
        let ghost mid = bytes_mut_seq(*buf);
        proof {
            lemma_append_empty(mid);
        }
        let r2 = {
            write_i32(buf, self.timeout_ms);
            Ok(())
        };
        assert(bytes_mut_seq(*buf) == mid + written(s2));
        proof {
            lemma_step(bytes_mut_seq(*old(buf)), w1, s2);
        }
        if r2.is_err() {
            return r2;
        }
        let ghost mid = bytes_mut_seq(*buf);
        proof {
            lemma_append_empty(mid);
        }
        let r3 = if version >= 4 {
            write_tagged_fields(buf, &sort_by_tag(&self._unknown_tagged_fields))
        } else {
            Ok(())
        };
        assert(bytes_mut_seq(*buf) == mid + written(s3));
        proof {
            lemma_step(bytes_mut_seq(*old(buf)), w2, s3);
        }
        if r3.is_err() {
            return r3;
        }
        Ok(())
    }

    #[verifier::rlimit(70)]
    pub fn encoded_len(&self, version: i16) -> (r: Result<usize, Error>)
        ensures
            r == len_result(Self::spec_write(self@, version)),
    {
        if version < 1 || version > 6 {
            return Err(Error::UnsupportedVersion(UnsupportedVersion::new(20, version)));
        }
        let ghost m = self@;
        proof {
            reveal(DeleteTopicsRequestData::spec_write_topics);
            reveal(DeleteTopicsRequestData::spec_write_topic_names);
            reveal(DeleteTopicsRequestData::spec_write_timeout_ms);
            reveal(DeleteTopicsRequestData::spec_write_tags);
        }
        let ghost s0 = Self::spec_write_topics(m, version);
        let ghost w0 = s0;
        let ghost s1 = Self::spec_write_topic_names(m, version);
        let ghost w1 = chain(w0, s1);
        let ghost s2 = Self::spec_write_timeout_ms(m, version);
        let ghost w2 = chain(w1, s2);
        let ghost s3 = Self::spec_write_tags(m, version);
        let ghost w3 = chain(w2, s3);
        assert(Self::spec_write(m, version) == w3);
        assert(w2 is Err ==> w3 == w2);
        assert(w1 is Err ==> w3 == w1);
        assert(w0 is Err ==> w3 == w0);
        let mut len: usize = 0;
        let l0 = if version >= 6 {
            array_len::<DeleteTopicState>(&self.topics, version, true)
        } else {
            if self.topics.len() != 0 {
                Err(Error::UnsupportedFieldVersion(UnsupportedFieldVersion::new(20, "topics", version)))
            } else {
                Ok(0)
            }
        };
        assert(l0 == len_result(s0));
        let n0 = match l0 {
            Ok(n) => n,
            Err(e) => {
                return Err(e);
            },
        };
        len = saturating_sum(len, n0);
        assert(w0 is Ok && len == saturate(written(w0).len() as int));
        let l1 = if version <= 5 {
            if version >= 4 {
                array_len::<CompactStringItem>(&self.topic_names, version, true)
            } else {
                array_len::<StringItem>(&self.topic_names, version, false)
            }
        } else {
            if self.topic_names.len() != 0 {
                Err(Error::UnsupportedFieldVersion(UnsupportedFieldVersion::new(20, "topic_names", version)))
            } else {
                Ok(0)
            }
        };
        assert(l1 == len_result(s1));
        let n1 = match l1 {
            Ok(n) => n,
            Err(e) => {
                return Err(e);
            },
        };
        proof {
            lemma_len_step(w0, s1, n1);
        }
        len = saturating_sum(len, n1);
        assert(w1 is Ok && len == saturate(written(w1).len() as int));
        let l2 = Ok(4);
        assert(l2 == len_result(s2));
        let n2 = match l2 {
            Ok(n) => n,
            Err(e) => {
                return Err(e);
            },
        };
        proof {
            lemma_len_step(w1, s2, n2);
        }
        len = saturating_sum(len, n2);
        assert(w2 is Ok && len == saturate(written(w2).len() as int));
        let l3 = if version >= 4 {
            tagged_fields_len(&sort_by_tag(&self._unknown_tagged_fields))
        } else {
            Ok(0)
        };
        assert(l3 == len_result(s3));
        let n3 = match l3 {
            Ok(n) => n,
            Err(e) => {
                return Err(e);
            },
        };
        proof {
            lemma_len_step(w2, s3, n3);
        }
        len = saturating_sum(len, n3);
        assert(w3 is Ok && len == saturate(written(w3).len() as int));
        Ok(len)
    }
}

#[derive(Debug, PartialEq)]
pub struct DeleteTopicState {
    /// The topic name.
    pub name: Option<KafkaString>,
    /// The unique topic ID.
    pub topic_id: KafkaUuid,
    pub _unknown_tagged_fields: Vec<RawTaggedField>,
}

/// What a `DeleteTopicState` holds, as the specification sees it.
#[verifier::ext_equal]
pub struct DeleteTopicStateView {
    pub name: Option<Seq<u8>>,
    pub topic_id: KafkaUuid,
    pub unknown_tagged_fields: Seq<(u32, Seq<u8>)>,
}

impl View for DeleteTopicState {
    type V = DeleteTopicStateView;

    open spec fn view(&self) -> DeleteTopicStateView {
        DeleteTopicStateView {
            name: opt_view(self.name),
            topic_id: self.topic_id,
            unknown_tagged_fields: views(self._unknown_tagged_fields@),
        }
    }
}

impl Clone for DeleteTopicState {
    fn clone(&self) -> (r: Self)
        ensures
            r@ == self@,
    {
        let r = DeleteTopicState {
            name: match &self.name {
                Some(x) => Some(x.clone()),
                None => None,
            },
            topic_id: self.topic_id,
            _unknown_tagged_fields: clone_vec(&self._unknown_tagged_fields),
        };
        assert(r@ =~= self@);
        r
    }
}

impl ViewClone for DeleteTopicState {
    fn clone_view(&self) -> (r: Self) {
        self.clone()
    }
}

impl Default for DeleteTopicState {
    fn default() -> (r: Self)
        ensures
            r@ == Self::default_view(),
    {
        let r = DeleteTopicState {
            name: None,
            topic_id: KafkaUuid::zero(),
            _unknown_tagged_fields: empty_vec(),
        };
        assert(r@ =~= Self::default_view());
        r
    }
}

impl DeleteTopicState {
    pub open spec fn default_view() -> DeleteTopicStateView {
        DeleteTopicStateView {
            name: None,
            topic_id: KafkaUuid { most_significant_bits: 0, least_significant_bits: 0 },
            unknown_tagged_fields: Seq::empty(),
        }
    }

    /// The `name` field, read from the front of `s`.
    #[verifier::opaque]
    pub open spec fn spec_read_name(s: Seq<u8>, version: i16) -> ReadOutcome<Option<Seq<u8>>> {
        spec_read_compact_nullable_string(s)
    }

    /// The `topic_id` field, read from the front of `s`.
    #[verifier::opaque]
    pub open spec fn spec_read_topic_id(s: Seq<u8>, version: i16) -> ReadOutcome<KafkaUuid> {
        spec_read_uuid(s)
    }

    /// The tagged fields, read from the front of `s`.
    #[verifier::opaque]
    pub open spec fn spec_read_tags(s: Seq<u8>, version: i16) -> ReadOutcome<Seq<(u32, Seq<u8>)>> {
        spec_read_tagged_fields(s)
    }

    pub open spec fn spec_read(s: Seq<u8>, version: i16) -> ReadOutcome<DeleteTopicStateView> {
        match (Self::spec_read_name(s, version)) {
            Err(e) => Err(e),
            Ok((name, s)) => match (Self::spec_read_topic_id(s, version)) {
                Err(e) => Err(e),
                Ok((topic_id, s)) => match (Self::spec_read_tags(s, version)) {
                    Err(e) => Err(e),
                    Ok((unknown_tagged_fields, s)) => Ok((DeleteTopicStateView {
                                name: name,
                                topic_id: topic_id,
                                unknown_tagged_fields: unknown_tagged_fields,
                            }, s)),
                },
            },
        }
    }

    /// What writing the `name` field of `m` appends.
    #[verifier::opaque]
    pub open spec fn spec_write_name(m: DeleteTopicStateView, version: i16) -> WriteOutcome {
        spec_write_compact_nullable_string(m.name)
    }

    /// What writing the `topic_id` field of `m` appends.
    #[verifier::opaque]
    pub open spec fn spec_write_topic_id(m: DeleteTopicStateView, version: i16) -> WriteOutcome {
        spec_write_uuid(m.topic_id)
    }

    /// What writing the tagged fields of `m` appends.
    #[verifier::opaque]
    pub open spec fn spec_write_tags(m: DeleteTopicStateView, version: i16) -> WriteOutcome {
        spec_write_tagged_fields(sorted_by_tag(m.unknown_tagged_fields))
    }

    pub open spec fn spec_write(m: DeleteTopicStateView, version: i16) -> WriteOutcome {
        chain(
            chain(
                Self::spec_write_name(m, version),
                Self::spec_write_topic_id(m, version),
            ),
            Self::spec_write_tags(m, version),
        )
    }

    /// Whether reading back what writing `m` in `version` appends gives `m`:
    /// fields that the version does not carry hold their default values, and
    /// tagged fields come in the order in which they are written.
    pub open spec fn canonical(m: DeleteTopicStateView, version: i16) -> bool {
        &&& tags_in_order(m.unknown_tagged_fields)
    }

    proof fn lemma_round_trip_name(m: DeleteTopicStateView, version: i16, rest: Seq<u8>)
        requires
            Self::canonical(m, version),
            Self::spec_write_name(m, version) is Ok,
        ensures
            Self::spec_read_name(written(Self::spec_write_name(m, version)) + rest, version) == Ok::<(Option<Seq<u8>>, Seq<u8>), Error>((m.name, rest)),
    {
        reveal(DeleteTopicState::spec_read_name);
        reveal(DeleteTopicState::spec_write_name);
        lemma_compact_nullable_string_round_trip(m.name, rest);
    }

    proof fn lemma_round_trip_topic_id(m: DeleteTopicStateView, version: i16, rest: Seq<u8>)
        requires
            Self::canonical(m, version),
            Self::spec_write_topic_id(m, version) is Ok,
        ensures
            Self::spec_read_topic_id(written(Self::spec_write_topic_id(m, version)) + rest, version) == Ok::<(KafkaUuid, Seq<u8>), Error>((m.topic_id, rest)),
    {
        reveal(DeleteTopicState::spec_read_topic_id);
        reveal(DeleteTopicState::spec_write_topic_id);
        lemma_uuid_round_trip(m.topic_id, rest);
    }

    proof fn lemma_round_trip_tags(m: DeleteTopicStateView, version: i16, rest: Seq<u8>)
        requires
            Self::canonical(m, version),
            Self::spec_write_tags(m, version) is Ok,
        ensures
            Self::spec_read_tags(written(Self::spec_write_tags(m, version)) + rest, version) == Ok::<(Seq<(u32, Seq<u8>)>, Seq<u8>), Error>((m.unknown_tagged_fields, rest)),
    {
        reveal(DeleteTopicState::spec_read_tags);
        reveal(DeleteTopicState::spec_write_tags);
        lemma_sorted_by_tag_in_order(m.unknown_tagged_fields);
        lemma_tagged_fields_round_trip(m.unknown_tagged_fields, rest);
    }

    /// Reading back what writing `m` in `version` appends gives `m` again, and
    /// leaves what follows, for every canonical message whose write succeeds.
    #[verifier::rlimit(70)]
    #[verifier::spinoff_prover]
    pub proof fn lemma_round_trip(m: DeleteTopicStateView, version: i16, rest: Seq<u8>)
        requires
            Self::canonical(m, version),
            Self::spec_write(m, version) is Ok,
        ensures
            Self::spec_read(written(Self::spec_write(m, version)) + rest, version) == Ok::<(DeleteTopicStateView, Seq<u8>), Error>((m, rest)),
    {
        let b0 = written(Self::spec_write_name(m, version));
        let b1 = written(Self::spec_write_topic_id(m, version));
        let b2 = written(Self::spec_write_tags(m, version));
        let t3 = rest;
        let t2 = b2 + t3;
        let t1 = b1 + t2;
        let t0 = b0 + t1;
        let w0 = Self::spec_write_name(m, version);
        let w1 = chain(w0, Self::spec_write_topic_id(m, version));
        let w2 = chain(w1, Self::spec_write_tags(m, version));
        assert(Self::spec_write(m, version) == w2);
        assert(written(w2) + t3 =~= written(w1) + t2);
        assert(written(w1) + t2 =~= written(w0) + t1);
        Self::lemma_round_trip_name(m, version, t1);
        Self::lemma_round_trip_topic_id(m, version, t2);
        Self::lemma_round_trip_tags(m, version, t3);
    }

    /// The default message holds the default value of each field of the schema.
    pub proof fn lemma_default_values()
        ensures
            (Self::default_view().name is None),
            Self::default_view().topic_id == (KafkaUuid { most_significant_bits: 0, least_significant_bits: 0 }),
            Self::default_view().unknown_tagged_fields.len() == 0,
    {
    }

    /// Each integer, boolean and identifier field is written as its standard
    /// big-endian bytes (a boolean as `1` or `0`) in the versions that carry
    /// it, and as nothing in the others; reading it takes those bytes back (any
    /// byte other than `0` reads as `true`), or gives its default value.
    pub proof fn lemma_field_encodings(m: DeleteTopicStateView, s: Seq<u8>, version: i16)
        ensures
            true ==> Self::spec_write_topic_id(m, version) == Ok::<Seq<u8>, (Error, Seq<u8>)>((u64_bytes(m.topic_id.most_significant_bits) + u64_bytes(m.topic_id.least_significant_bits))),
            true ==> Self::spec_read_topic_id(s, version) == spec_read_uuid(s),
    {
        reveal(DeleteTopicState::spec_write_topic_id);
        reveal(DeleteTopicState::spec_read_topic_id);
    }

    /// Whether writing `m` in `version` succeeds, said over its parts: the
    /// version is one the schema covers, every field that the version cannot
    /// carry holds its default value, and every string, byte string, array and
    /// tagged field fits its length prefix.
    pub open spec fn writable(m: DeleteTopicStateView, version: i16) -> bool {
        &&& (m.name matches Some(b) ==> b.len() <= 0x7fff)
        &&& m.unknown_tagged_fields.len() <= u32::MAX && tags_fit(m.unknown_tagged_fields)
    }

    proof fn lemma_writable_name(m: DeleteTopicStateView, version: i16)
        ensures
            Self::spec_write_name(m, version) is Ok <==> (m.name matches Some(b) ==> b.len() <= 0x7fff),
    {
        reveal(DeleteTopicState::spec_write_name);
    }

    proof fn lemma_writable_topic_id(m: DeleteTopicStateView, version: i16)
        ensures
            Self::spec_write_topic_id(m, version) is Ok <==> true,
    {
        reveal(DeleteTopicState::spec_write_topic_id);
    }

    proof fn lemma_writable_tags(m: DeleteTopicStateView, version: i16)
        ensures
            Self::spec_write_tags(m, version) is Ok <==> m.unknown_tagged_fields.len() <= u32::MAX && tags_fit(m.unknown_tagged_fields),
    {
        reveal(DeleteTopicState::spec_write_tags);
        lemma_sorted_tags_fit(m.unknown_tagged_fields);
        lemma_tagged_fields_writable(sorted_by_tag(m.unknown_tagged_fields));
    }

    /// Writing `m` in `version` succeeds exactly when `m` is writable in it;
    /// so do `write` and `encoded_len`, whose results follow `spec_write`.
    #[verifier::rlimit(48)]
    pub proof fn lemma_writable(m: DeleteTopicStateView, version: i16)
        ensures
            Self::spec_write(m, version) is Ok <==> Self::writable(m, version),
    {
        Self::lemma_writable_name(m, version);
        Self::lemma_writable_topic_id(m, version);
        Self::lemma_writable_tags(m, version);
    }

    pub fn with_name(self, value: Option<KafkaString>) -> (r: Self)
        ensures
            r@ == (DeleteTopicStateView { name: opt_view(value), ..self@ }),
    {
        let mut r = self;
        r.name = value;
        r
    }

    pub fn with_topic_id(self, value: KafkaUuid) -> (r: Self)
        ensures
            r@ == (DeleteTopicStateView { topic_id: value, ..self@ }),
    {
        let mut r = self;
        r.topic_id = value;
        r
    }

    fn read_name(buf: &mut Bytes, version: i16) -> (r: Result<Option<KafkaString>, Error>)
        ensures
            read_opt_as(Self::spec_read_name(bytes_seq(*old(buf)), version), *final(buf), r),
            took_front(*old(buf), *final(buf)),
    {
        proof {
            reveal(DeleteTopicState::spec_read_name);
        }
        Ok(read_compact_nullable_string(buf)?)
    }

    fn read_topic_id(buf: &mut Bytes, version: i16) -> (r: Result<KafkaUuid, Error>)
        ensures
            read_as(Self::spec_read_topic_id(bytes_seq(*old(buf)), version), *final(buf), r),
            took_front(*old(buf), *final(buf)),
    {
        proof {
            reveal(DeleteTopicState::spec_read_topic_id);
        }
        Ok(read_uuid(buf)?)
    }

    fn read_tags(buf: &mut Bytes, version: i16) -> (r: Result<Vec<RawTaggedField>, Error>)
        ensures
            read_vec_as(Self::spec_read_tags(bytes_seq(*old(buf)), version), *final(buf), r),
            took_front(*old(buf), *final(buf)),
    {
        proof {
            reveal(DeleteTopicState::spec_read_tags);
        }
        Ok(read_tagged_fields(buf)?)
    }

    pub fn read(buf: &mut Bytes, version: i16) -> (r: Result<Self, Error>)
        ensures
            read_as(Self::spec_read(bytes_seq(*old(buf)), version), *final(buf), r),
            took_front(*old(buf), *final(buf)),
    {
        let name = Self::read_name(buf, version)?;
        let topic_id = Self::read_topic_id(buf, version)?;
        let _unknown_tagged_fields = Self::read_tags(buf, version)?;
        Ok(DeleteTopicState {
                name: name,
                topic_id: topic_id,
                _unknown_tagged_fields: _unknown_tagged_fields,
        })
    }

    #[verifier::rlimit(60)]
    pub fn write(&self, buf: &mut BytesMut, version: i16) -> (r: Result<(), Error>)
        requires
            has_room(Self::spec_write(self@, version), *old(buf)),
        ensures
            wrote(Self::spec_write(self@, version), *old(buf), *final(buf), r),
    {
        let ghost m = self@;
        proof {
            reveal(DeleteTopicState::spec_write_name);
            reveal(DeleteTopicState::spec_write_topic_id);
            reveal(DeleteTopicState::spec_write_tags);
        }
        let ghost s0 = Self::spec_write_name(m, version);
        let ghost w0 = s0;
        let ghost s1 = Self::spec_write_topic_id(m, version);
        let ghost w1 = chain(w0, s1);
        let ghost s2 = Self::spec_write_tags(m, version);
        let ghost w2 = chain(w1, s2);
        assert(Self::spec_write(m, version) == w2);
        assert(written(w1).len() <= written(w2).len() && (w1 is Err ==> w2 == w1));
        assert(written(w0).len() <= written(w2).len() && (w0 is Err ==> w2 == w0));
        let ghost mid = bytes_mut_seq(*buf);
        proof {
            lemma_append_empty(mid);
        }
        let r0 = write_compact_nullable_string(buf, &self.name);
        assert(bytes_mut_seq(*buf) == mid + written(s0));
        if r0.is_err() {
            return r0;
        }
        let ghost mid = bytes_mut_seq(*buf);
        proof {
            lemma_append_empty(mid);
        }
        let r1 = {
            write_uuid(buf, self.topic_id);
            Ok(())
        };
        assert(bytes_mut_seq(*buf) == mid + written(s1));
        proof {
            lemma_step(bytes_mut_seq(*old(buf)), w0, s1);
        }
        if r1.is_err() {
            return r1;
        }
        let ghost mid = bytes_mut_seq(*buf);
        proof {
            lemma_append_empty(mid);
        }
        let r2 = write_tagged_fields(buf, &sort_by_tag(&self._unknown_tagged_fields));
        assert(bytes_mut_seq(*buf) == mid + written(s2));
        proof {
            lemma_step(bytes_mut_seq(*old(buf)), w1, s2);
        }
        if r2.is_err() {
            return r2;
        }
        Ok(())
    }

    #[verifier::rlimit(60)]
    pub fn encoded_len(&self, version: i16) -> (r: Result<usize, Error>)
        ensures
            r == len_result(Self::spec_write(self@, version)),
    {
        let ghost m = self@;
        proof {
            reveal(DeleteTopicState::spec_write_name);
            reveal(DeleteTopicState::spec_write_topic_id);
            reveal(DeleteTopicState::spec_write_tags);
        }
        let ghost s0 = Self::spec_write_name(m, version);
        let ghost w0 = s0;
        let ghost s1 = Self::spec_write_topic_id(m, version);
        let ghost w1 = chain(w0, s1);
        let ghost s2 = Self::spec_write_tags(m, version);
        let ghost w2 = chain(w1, s2);
        assert(Self::spec_write(m, version) == w2);
        assert(w1 is Err ==> w2 == w1);
        assert(w0 is Err ==> w2 == w0);
        let mut len: usize = 0;
        let l0 = compact_nullable_string_len(&self.name);
        assert(l0 == len_result(s0));
        let n0 = match l0 {
            Ok(n) => n,
            Err(e) => {
                return Err(e);
            },
        };
        len = saturating_sum(len, n0);
        assert(w0 is Ok && len == saturate(written(w0).len() as int));
        let l1 = Ok(16);
        assert(l1 == len_result(s1));
        let n1 = match l1 {
            Ok(n) => n,
            Err(e) => {
                return Err(e);
            },
        };
        proof {
            lemma_len_step(w0, s1, n1);
        }
        len = saturating_sum(len, n1);
        assert(w1 is Ok && len == saturate(written(w1).len() as int));
        let l2 = tagged_fields_len(&sort_by_tag(&self._unknown_tagged_fields));
        assert(l2 == len_result(s2));
        let n2 = match l2 {
            Ok(n) => n,
            Err(e) => {
                return Err(e);
            },
        };
        proof {
            lemma_len_step(w1, s2, n2);
        }
        len = saturating_sum(len, n2);
        assert(w2 is Ok && len == saturate(written(w2).len() as int));
        Ok(len)
    }
}

impl Codec for DeleteTopicState {
    type Item = DeleteTopicState;

    open spec fn spec_read_item(s: Seq<u8>, version: i16) -> ReadOutcome<DeleteTopicStateView> {
        DeleteTopicState::spec_read(s, version)
    }

    open spec fn spec_write_item(v: DeleteTopicStateView, version: i16) -> WriteOutcome {
        DeleteTopicState::spec_write(v, version)
    }

    open spec fn canonical_item(v: DeleteTopicStateView, version: i16) -> bool {
        DeleteTopicState::canonical(v, version)
    }

    proof fn lemma_item_round_trip(v: DeleteTopicStateView, version: i16, rest: Seq<u8>) {
        DeleteTopicState::lemma_round_trip(v, version, rest);
    }

    open spec fn writable_item(v: DeleteTopicStateView, version: i16) -> bool {
        DeleteTopicState::writable(v, version)
    }

    proof fn lemma_item_writable(v: DeleteTopicStateView, version: i16) {
        DeleteTopicState::lemma_writable(v, version);
    }

    fn read_item(buf: &mut Bytes, version: i16) -> (r: Result<DeleteTopicState, Error>) {
        DeleteTopicState::read(buf, version)
    }

    fn write_item(item: &DeleteTopicState, buf: &mut BytesMut, version: i16) -> (r: Result<(), Error>) {
        item.write(buf, version)
    }
}

impl MeasuredCodec for DeleteTopicState {
    fn item_len(item: &DeleteTopicState, version: i16) -> (r: Result<usize, Error>) {
        item.encoded_len(version)
    }
}

} // verus!
