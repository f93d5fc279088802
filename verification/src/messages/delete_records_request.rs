//! The delete records request message.
use crate::buffer::{bytes_mut_seq, bytes_seq};
use crate::codec::{Codec, MeasuredCodec, all_canonical, all_writable, array_len, lemma_array_round_trip, lemma_array_writable, read_array, saturating_sum, spec_read_array, spec_write_array, write_array};
use crate::error::{Error, UnsupportedVersion};
use crate::ints::{lemma_i32_roundtrip, lemma_i64_roundtrip, read_i32, read_i64, spec_read_i32, spec_read_i64, spec_write_i32, spec_write_i64, u32_bytes, u64_bytes, write_i32, write_i64};
use crate::strings::{compact_string_len, lemma_compact_string_round_trip, lemma_string_round_trip, read_compact_string, read_string, spec_read_compact_string, spec_read_string, spec_write_compact_string, spec_write_string, string_len, write_compact_string, write_string};
use crate::tagged::{lemma_sorted_by_tag_in_order, lemma_sorted_tags_fit, lemma_tagged_fields_round_trip, lemma_tagged_fields_writable, read_tagged_fields, sort_by_tag, sorted_by_tag, spec_read_tagged_fields, spec_write_tagged_fields, tagged_fields_len, tags_fit, tags_in_order, write_tagged_fields};
use crate::types::{KafkaString, RawTaggedField};
use crate::wire::{ReadOutcome, ViewClone, WriteOutcome, chain, clone_vec, emit, empty_vec, fail, has_room, lemma_append_empty, lemma_chain_written, lemma_len_step, lemma_step, len_result, read_as, read_vec_as, saturate, took_front, views, written, wrote};
use bytes::{Bytes, BytesMut};
use vstd::prelude::*;

verus! {

broadcast use {crate::wire::lemma_chain_written, crate::wire::lemma_took_front_nothing, crate::wire::lemma_took_front_twice};

#[derive(Debug, PartialEq)]
pub struct DeleteRecordsRequestData {
    /// Each topic that we want to delete records from.
    pub topics: Vec<DeleteRecordsTopic>,
    /// How long to wait for the deletion to complete, in milliseconds.
    pub timeout_ms: i32,
    pub _unknown_tagged_fields: Vec<RawTaggedField>,
}

/// What a `DeleteRecordsRequestData` holds, as the specification sees it.
#[verifier::ext_equal]
pub struct DeleteRecordsRequestDataView {
    pub topics: Seq<DeleteRecordsTopicView>,
    pub timeout_ms: i32,
    pub unknown_tagged_fields: Seq<(u32, Seq<u8>)>,
}

impl View for DeleteRecordsRequestData {
    type V = DeleteRecordsRequestDataView;

    open spec fn view(&self) -> DeleteRecordsRequestDataView {
        DeleteRecordsRequestDataView {
            topics: views(self.topics@),
            timeout_ms: self.timeout_ms,
            unknown_tagged_fields: views(self._unknown_tagged_fields@),
        }
    }
}

impl Clone for DeleteRecordsRequestData {
    fn clone(&self) -> (r: Self)
        ensures
            r@ == self@,
    {
        let r = DeleteRecordsRequestData {
            topics: clone_vec(&self.topics),
            timeout_ms: self.timeout_ms,
            _unknown_tagged_fields: clone_vec(&self._unknown_tagged_fields),
        };
        assert(r@ =~= self@);
        r
    }
}

impl ViewClone for DeleteRecordsRequestData {
    fn clone_view(&self) -> (r: Self) {
        self.clone()
    }
}

impl Default for DeleteRecordsRequestData {
    fn default() -> (r: Self)
        ensures
            r@ == Self::default_view(),
    {
        let r = DeleteRecordsRequestData {
            topics: empty_vec(),
            timeout_ms: 0_i32,
            _unknown_tagged_fields: empty_vec(),
        };
        assert(r@ =~= Self::default_view());
        r
    }
}

impl DeleteRecordsRequestData {
    pub open spec fn default_view() -> DeleteRecordsRequestDataView {
        DeleteRecordsRequestDataView {
            topics: Seq::empty(),
            timeout_ms: 0_i32,
            unknown_tagged_fields: Seq::empty(),
        }
    }

    /// The `topics` field, read from the front of `s`.
    #[verifier::opaque]
    pub open spec fn spec_read_topics(s: Seq<u8>, version: i16) -> ReadOutcome<Seq<DeleteRecordsTopicView>> {
        if version >= 2 {
            spec_read_array::<DeleteRecordsTopic>(s, version, true)
        } else {
            spec_read_array::<DeleteRecordsTopic>(s, version, false)
        }
    }

    /// The `timeout_ms` field, read from the front of `s`.
    #[verifier::opaque]
    pub open spec fn spec_read_timeout_ms(s: Seq<u8>, version: i16) -> ReadOutcome<i32> {
        spec_read_i32(s)
    }

    /// The tagged fields, read from the front of `s`.
    #[verifier::opaque]
    pub open spec fn spec_read_tags(s: Seq<u8>, version: i16) -> ReadOutcome<Seq<(u32, Seq<u8>)>> {
        if version >= 2 {
            spec_read_tagged_fields(s)
        } else {
            Ok((Seq::empty(), s))
        }
    }

    pub open spec fn spec_read(s: Seq<u8>, version: i16) -> ReadOutcome<DeleteRecordsRequestDataView> {
        if version < 0 || version > 2 {
            Err(Error::UnsupportedVersion(UnsupportedVersion { api_key: 21, version }))
        } else {
            match (Self::spec_read_topics(s, version)) {
                Err(e) => Err(e),
                Ok((topics, s)) => match (Self::spec_read_timeout_ms(s, version)) {
                    Err(e) => Err(e),
                    Ok((timeout_ms, s)) => match (Self::spec_read_tags(s, version)) {
                        Err(e) => Err(e),
                        Ok((unknown_tagged_fields, s)) => Ok((DeleteRecordsRequestDataView {
                                    topics: topics,
                                    timeout_ms: timeout_ms,
                                    unknown_tagged_fields: unknown_tagged_fields,
                                }, s)),
                    },
                },
            }
        }
    }

    /// What writing the `topics` field of `m` appends.
    #[verifier::opaque]
    pub open spec fn spec_write_topics(m: DeleteRecordsRequestDataView, version: i16) -> WriteOutcome {
        if version >= 2 {
            spec_write_array::<DeleteRecordsTopic>(m.topics, version, true)
        } else {
            spec_write_array::<DeleteRecordsTopic>(m.topics, version, false)
        }
    }

    /// What writing the `timeout_ms` field of `m` appends.
    #[verifier::opaque]
    pub open spec fn spec_write_timeout_ms(m: DeleteRecordsRequestDataView, version: i16) -> WriteOutcome {
        spec_write_i32(m.timeout_ms)
    }

    /// What writing the tagged fields of `m` appends.
    #[verifier::opaque]
    pub open spec fn spec_write_tags(m: DeleteRecordsRequestDataView, version: i16) -> WriteOutcome {
        if version >= 2 {
            spec_write_tagged_fields(sorted_by_tag(m.unknown_tagged_fields))
        } else {
            emit(Seq::empty())
        }
    }

    pub open spec fn spec_write(m: DeleteRecordsRequestDataView, version: i16) -> WriteOutcome {
        if version < 0 || version > 2 {
            fail(Error::UnsupportedVersion(UnsupportedVersion { api_key: 21, version }))
        } else {
            chain(
                chain(
                    Self::spec_write_topics(m, version),
                    Self::spec_write_timeout_ms(m, version),
                ),
                Self::spec_write_tags(m, version),
            )
        }
    }

    /// Whether reading back what writing `m` in `version` appends gives `m`:
    /// fields that the version does not carry hold their default values, and
    /// tagged fields come in the order in which they are written.
    pub open spec fn canonical(m: DeleteRecordsRequestDataView, version: i16) -> bool {
        &&& all_canonical::<DeleteRecordsTopic>(m.topics, version)
        &&& (if version >= 2 {
                tags_in_order(m.unknown_tagged_fields)
            } else {
                m.unknown_tagged_fields.len() == 0
        })
    }

    proof fn lemma_round_trip_topics(m: DeleteRecordsRequestDataView, version: i16, rest: Seq<u8>)
        requires
            Self::canonical(m, version),
            Self::spec_write_topics(m, version) is Ok,
        ensures
            Self::spec_read_topics(written(Self::spec_write_topics(m, version)) + rest, version) == Ok::<(Seq<DeleteRecordsTopicView>, Seq<u8>), Error>((m.topics, rest)),
    {
        reveal(DeleteRecordsRequestData::spec_read_topics);
        reveal(DeleteRecordsRequestData::spec_write_topics);
        if version >= 2 {
            lemma_array_round_trip::<DeleteRecordsTopic>(m.topics, version, true, rest);
        } else {
            lemma_array_round_trip::<DeleteRecordsTopic>(m.topics, version, false, rest);
        }
    }

    proof fn lemma_round_trip_timeout_ms(m: DeleteRecordsRequestDataView, version: i16, rest: Seq<u8>)
        requires
            Self::canonical(m, version),
            Self::spec_write_timeout_ms(m, version) is Ok,
        ensures
            Self::spec_read_timeout_ms(written(Self::spec_write_timeout_ms(m, version)) + rest, version) == Ok::<(i32, Seq<u8>), Error>((m.timeout_ms, rest)),
    {
        reveal(DeleteRecordsRequestData::spec_read_timeout_ms);
        reveal(DeleteRecordsRequestData::spec_write_timeout_ms);
        lemma_i32_roundtrip(m.timeout_ms, rest);
    }

    proof fn lemma_round_trip_tags(m: DeleteRecordsRequestDataView, version: i16, rest: Seq<u8>)
        requires
            Self::canonical(m, version),
            Self::spec_write_tags(m, version) is Ok,
        ensures
            Self::spec_read_tags(written(Self::spec_write_tags(m, version)) + rest, version) == Ok::<(Seq<(u32, Seq<u8>)>, Seq<u8>), Error>((m.unknown_tagged_fields, rest)),
    {
        reveal(DeleteRecordsRequestData::spec_read_tags);
        reveal(DeleteRecordsRequestData::spec_write_tags);
        if version >= 2 {
            lemma_sorted_by_tag_in_order(m.unknown_tagged_fields);
            lemma_tagged_fields_round_trip(m.unknown_tagged_fields, rest);
        } else {
            assert(Seq::<u8>::empty() + rest =~= rest);
            assert(m.unknown_tagged_fields =~= Seq::empty());
        }
    }

    /// Reading back what writing `m` in `version` appends gives `m` again, and
    /// leaves what follows, for every canonical message whose write succeeds.
    #[verifier::rlimit(70)]
    #[verifier::spinoff_prover]
    pub proof fn lemma_round_trip(m: DeleteRecordsRequestDataView, version: i16, rest: Seq<u8>)
        requires
            Self::canonical(m, version),
            Self::spec_write(m, version) is Ok,
        ensures
            Self::spec_read(written(Self::spec_write(m, version)) + rest, version) == Ok::<(DeleteRecordsRequestDataView, Seq<u8>), Error>((m, rest)),
    {
        let b0 = written(Self::spec_write_topics(m, version));
        let b1 = written(Self::spec_write_timeout_ms(m, version));
        let b2 = written(Self::spec_write_tags(m, version));
        let t3 = rest;
        let t2 = b2 + t3;
        let t1 = b1 + t2;
        let t0 = b0 + t1;
        let w0 = Self::spec_write_topics(m, version);
        let w1 = chain(w0, Self::spec_write_timeout_ms(m, version));
        let w2 = chain(w1, Self::spec_write_tags(m, version));
        assert(Self::spec_write(m, version) == w2);
        assert(written(w2) + t3 =~= written(w1) + t2);
        assert(written(w1) + t2 =~= written(w0) + t1);
        Self::lemma_round_trip_topics(m, version, t1);
        Self::lemma_round_trip_timeout_ms(m, version, t2);
        Self::lemma_round_trip_tags(m, version, t3);
    }

    /// In a version that does not carry `unknown_tagged_fields`, writing ignores its value.
    pub proof fn lemma_write_ignores_unknown_tagged_fields(m: DeleteRecordsRequestDataView, value: Seq<(u32, Seq<u8>)>, version: i16)
        requires
            !(version >= 2),
        ensures
            Self::spec_write((DeleteRecordsRequestDataView { unknown_tagged_fields: value, ..m }), version) == Self::spec_write(m, version),
    {
        reveal(DeleteRecordsRequestData::spec_write_topics);
        reveal(DeleteRecordsRequestData::spec_write_timeout_ms);
        reveal(DeleteRecordsRequestData::spec_write_tags);
    }

    /// The default message holds the default value of each field of the schema.
    pub proof fn lemma_default_values()
        ensures
            Self::default_view().topics.len() == 0,
            Self::default_view().timeout_ms == (0_i32),
            Self::default_view().unknown_tagged_fields.len() == 0,
    {
    }

    /// Each integer, boolean and identifier field is written as its standard
    /// big-endian bytes (a boolean as `1` or `0`) in the versions that carry
    /// it, and as nothing in the others; reading it takes those bytes back (any
    /// byte other than `0` reads as `true`), or gives its default value.
    pub proof fn lemma_field_encodings(m: DeleteRecordsRequestDataView, s: Seq<u8>, version: i16)
        ensures
            true ==> Self::spec_write_timeout_ms(m, version) == Ok::<Seq<u8>, (Error, Seq<u8>)>(u32_bytes(m.timeout_ms as u32)),
            true ==> Self::spec_read_timeout_ms(s, version) == spec_read_i32(s),
    {
        reveal(DeleteRecordsRequestData::spec_write_timeout_ms);
        reveal(DeleteRecordsRequestData::spec_read_timeout_ms);
    }

    /// Whether writing `m` in `version` succeeds, said over its parts: the
    /// version is one the schema covers, every field that the version cannot
    /// carry holds its default value, and every string, byte string, array and
    /// tagged field fits its length prefix.
    pub open spec fn writable(m: DeleteRecordsRequestDataView, version: i16) -> bool {
        &&& 0 <= version <= 2
        &&& (m.topics.len() <= i32::MAX && all_writable::<DeleteRecordsTopic>(m.topics, version))
        &&& (if version >= 2 {
                m.unknown_tagged_fields.len() <= u32::MAX && tags_fit(m.unknown_tagged_fields)
            } else {
                true
        })
    }

    proof fn lemma_writable_topics(m: DeleteRecordsRequestDataView, version: i16)
        ensures
            Self::spec_write_topics(m, version) is Ok <==> (m.topics.len() <= i32::MAX && all_writable::<DeleteRecordsTopic>(m.topics, version)),
    {
        reveal(DeleteRecordsRequestData::spec_write_topics);
        if version >= 2 {
            lemma_array_writable::<DeleteRecordsTopic>(m.topics, version, true);
        } else {
            lemma_array_writable::<DeleteRecordsTopic>(m.topics, version, false);
        }
    }

    proof fn lemma_writable_timeout_ms(m: DeleteRecordsRequestDataView, version: i16)
        ensures
            Self::spec_write_timeout_ms(m, version) is Ok <==> true,
    {
        reveal(DeleteRecordsRequestData::spec_write_timeout_ms);
    }

    proof fn lemma_writable_tags(m: DeleteRecordsRequestDataView, version: i16)
        ensures
            Self::spec_write_tags(m, version) is Ok <==> (if version >= 2 { m.unknown_tagged_fields.len() <= u32::MAX && tags_fit(m.unknown_tagged_fields) } else { true }),
    {
        reveal(DeleteRecordsRequestData::spec_write_tags);
        if version >= 2 {
            lemma_sorted_tags_fit(m.unknown_tagged_fields);
            lemma_tagged_fields_writable(sorted_by_tag(m.unknown_tagged_fields));
        }
    }

    /// Writing `m` in `version` succeeds exactly when `m` is writable in it;
    /// so do `write` and `encoded_len`, whose results follow `spec_write`.
    #[verifier::rlimit(48)]
    pub proof fn lemma_writable(m: DeleteRecordsRequestDataView, version: i16)
        ensures
            Self::spec_write(m, version) is Ok <==> Self::writable(m, version),
    {
        Self::lemma_writable_topics(m, version);
        Self::lemma_writable_timeout_ms(m, version);
        Self::lemma_writable_tags(m, version);
    }

    /// A version outside the range that the schema covers is refused, by
    /// reads and by writes alike, before anything is read or written.
    pub proof fn lemma_refused_version(m: DeleteRecordsRequestDataView, s: Seq<u8>, version: i16)
        requires
            version < 0 || version > 2,
        ensures
            Self::spec_read(s, version) == Err::<(DeleteRecordsRequestDataView, Seq<u8>), Error>(Error::UnsupportedVersion(UnsupportedVersion { api_key: 21, version })),
            Self::spec_write(m, version) == fail(Error::UnsupportedVersion(UnsupportedVersion { api_key: 21, version })),
    {
    }

    pub fn with_topics(self, value: Vec<DeleteRecordsTopic>) -> (r: Self)
        ensures
            r@ == (DeleteRecordsRequestDataView { topics: views(value@), ..self@ }),
    {
        let mut r = self;
        r.topics = value;
        r
    }

    pub fn with_timeout_ms(self, value: i32) -> (r: Self)
        ensures
            r@ == (DeleteRecordsRequestDataView { timeout_ms: value, ..self@ }),
    {
        let mut r = self;
        r.timeout_ms = value;
        r
    }

    fn read_topics(buf: &mut Bytes, version: i16) -> (r: Result<Vec<DeleteRecordsTopic>, Error>)
        ensures
            read_vec_as(Self::spec_read_topics(bytes_seq(*old(buf)), version), *final(buf), r),
            took_front(*old(buf), *final(buf)),
    {
        proof {
            reveal(DeleteRecordsRequestData::spec_read_topics);
        }
        Ok(if version >= 2 {
                read_array::<DeleteRecordsTopic>(buf, version, true)?
            } else {
                read_array::<DeleteRecordsTopic>(buf, version, false)?
        })
    }

    fn read_timeout_ms(buf: &mut Bytes, version: i16) -> (r: Result<i32, Error>)
        ensures
            read_as(Self::spec_read_timeout_ms(bytes_seq(*old(buf)), version), *final(buf), r),
            took_front(*old(buf), *final(buf)),
    {
        proof {
            reveal(DeleteRecordsRequestData::spec_read_timeout_ms);
        }
        Ok(read_i32(buf)?)
    }

    fn read_tags(buf: &mut Bytes, version: i16) -> (r: Result<Vec<RawTaggedField>, Error>)
        ensures
            read_vec_as(Self::spec_read_tags(bytes_seq(*old(buf)), version), *final(buf), r),
            took_front(*old(buf), *final(buf)),
    {
        proof {
            reveal(DeleteRecordsRequestData::spec_read_tags);
        }
        Ok(if version >= 2 {
                read_tagged_fields(buf)?
            } else {
                empty_vec()
        })
    }

    pub fn read(buf: &mut Bytes, version: i16) -> (r: Result<Self, Error>)
        ensures
            read_as(Self::spec_read(bytes_seq(*old(buf)), version), *final(buf), r),
            took_front(*old(buf), *final(buf)),
            (version < 0 || version > 2) ==> bytes_seq(*final(buf)) == bytes_seq(*old(buf)),
    {
        if version < 0 || version > 2 {
            return Err(Error::UnsupportedVersion(UnsupportedVersion::new(21, version)));
        }
        let topics = Self::read_topics(buf, version)?;
        let timeout_ms = Self::read_timeout_ms(buf, version)?;
        let _unknown_tagged_fields = Self::read_tags(buf, version)?;
        Ok(DeleteRecordsRequestData {
                topics: topics,
                timeout_ms: timeout_ms,
                _unknown_tagged_fields: _unknown_tagged_fields,
        })
    }

    #[verifier::rlimit(60)]
    pub fn write(&self, buf: &mut BytesMut, version: i16) -> (r: Result<(), Error>)
        requires
            has_room(Self::spec_write(self@, version), *old(buf)),
        ensures
            wrote(Self::spec_write(self@, version), *old(buf), *final(buf), r),
    {
        if version < 0 || version > 2 {
            return Err(Error::UnsupportedVersion(UnsupportedVersion::new(21, version)));
        }
        let ghost m = self@;
        proof {
            reveal(DeleteRecordsRequestData::spec_write_topics);
            reveal(DeleteRecordsRequestData::spec_write_timeout_ms);
            reveal(DeleteRecordsRequestData::spec_write_tags);
        }
        let ghost s0 = Self::spec_write_topics(m, version);
        let ghost w0 = s0;
        let ghost s1 = Self::spec_write_timeout_ms(m, version);
        let ghost w1 = chain(w0, s1);
        let ghost s2 = Self::spec_write_tags(m, version);
        let ghost w2 = chain(w1, s2);
        assert(Self::spec_write(m, version) == w2);
        assert(written(w1).len() <= written(w2).len() && (w1 is Err ==> w2 == w1));
        assert(written(w0).len() <= written(w2).len() && (w0 is Err ==> w2 == w0));
        let ghost mid = bytes_mut_seq(*buf);
        proof {
            lemma_append_empty(mid);
        }
        let r0 = if version >= 2 {
            write_array::<DeleteRecordsTopic>(buf, &self.topics, version, true)
        } else {
            write_array::<DeleteRecordsTopic>(buf, &self.topics, version, false)
        };
        assert(bytes_mut_seq(*buf) == mid + written(s0));
        if r0.is_err() {
            return r0;
        }
        let ghost mid = bytes_mut_seq(*buf);
        proof {
            lemma_append_empty(mid);
        }
        let r1 = {
            write_i32(buf, self.timeout_ms);
            Ok(())
        };
        assert(bytes_mut_seq(*buf) == mid + written(s1));
        proof {
            lemma_step(bytes_mut_seq(*old(buf)), w0, s1);
        }
        if r1.is_err() {
            return r1;
        }
        let ghost mid = bytes_mut_seq(*buf);
        proof {
            lemma_append_empty(mid);
        }
        let r2 = if version >= 2 {
            write_tagged_fields(buf, &sort_by_tag(&self._unknown_tagged_fields))
        } else {
            Ok(())
        };
        assert(bytes_mut_seq(*buf) == mid + written(s2));
        proof {
            lemma_step(bytes_mut_seq(*old(buf)), w1, s2);
        }
        if r2.is_err() {
            return r2;
        }
        Ok(())
    }

    #[verifier::rlimit(60)]
    pub fn encoded_len(&self, version: i16) -> (r: Result<usize, Error>)
        ensures
            r == len_result(Self::spec_write(self@, version)),
    {
        if version < 0 || version > 2 {
            return Err(Error::UnsupportedVersion(UnsupportedVersion::new(21, version)));
        }
        let ghost m = self@;
        proof {
            reveal(DeleteRecordsRequestData::spec_write_topics);
            reveal(DeleteRecordsRequestData::spec_write_timeout_ms);
            reveal(DeleteRecordsRequestData::spec_write_tags);
        }
        let ghost s0 = Self::spec_write_topics(m, version);
        let ghost w0 = s0;
        let ghost s1 = Self::spec_write_timeout_ms(m, version);
        let ghost w1 = chain(w0, s1);
        let ghost s2 = Self::spec_write_tags(m, version);
        let ghost w2 = chain(w1, s2);
        assert(Self::spec_write(m, version) == w2);
        assert(w1 is Err ==> w2 == w1);
        assert(w0 is Err ==> w2 == w0);
        let mut len: usize = 0;
        let l0 = if version >= 2 {
            array_len::<DeleteRecordsTopic>(&self.topics, version, true)
        } else {
            array_len::<DeleteRecordsTopic>(&self.topics, version, false)
        };
        assert(l0 == len_result(s0));
        let n0 = match l0 {
            Ok(n) => n,
            Err(e) => {
                return Err(e);
            },
        };
        len = saturating_sum(len, n0);
        assert(w0 is Ok && len == saturate(written(w0).len() as int));
        let l1 = Ok(4);
        assert(l1 == len_result(s1));
        let n1 = match l1 {
            Ok(n) => n,
            Err(e) => {
                return Err(e);
            },
        };
        proof {
            lemma_len_step(w0, s1, n1);
        }
        len = saturating_sum(len, n1);
        assert(w1 is Ok && len == saturate(written(w1).len() as int));
        let l2 = if version >= 2 {
            tagged_fields_len(&sort_by_tag(&self._unknown_tagged_fields))
        } else {
            Ok(0)
        };
        assert(l2 == len_result(s2));
        let n2 = match l2 {
            Ok(n) => n,
            Err(e) => {
                return Err(e);
            },
        };
        proof {
            lemma_len_step(w1, s2, n2);
        }
        len = saturating_sum(len, n2);
        assert(w2 is Ok && len == saturate(written(w2).len() as int));
        Ok(len)
    }
}

#[derive(Debug, PartialEq)]
pub struct DeleteRecordsTopic {
    /// The topic name.
    pub name: KafkaString,
    /// Each partition that we want to delete records from.
    pub partitions: Vec<DeleteRecordsPartition>,
    pub _unknown_tagged_fields: Vec<RawTaggedField>,
}

/// What a `DeleteRecordsTopic` holds, as the specification sees it.
#[verifier::ext_equal]
pub struct DeleteRecordsTopicView {
    pub name: Seq<u8>,
    pub partitions: Seq<DeleteRecordsPartitionView>,
    pub unknown_tagged_fields: Seq<(u32, Seq<u8>)>,
}

impl View for DeleteRecordsTopic {
    type V = DeleteRecordsTopicView;

    open spec fn view(&self) -> DeleteRecordsTopicView {
        DeleteRecordsTopicView {
            name: self.name@,
            partitions: views(self.partitions@),
            unknown_tagged_fields: views(self._unknown_tagged_fields@),
        }
    }
}

impl Clone for DeleteRecordsTopic {
    fn clone(&self) -> (r: Self)
        ensures
            r@ == self@,
    {
        let r = DeleteRecordsTopic {
            name: self.name.clone(),
            partitions: clone_vec(&self.partitions),
            _unknown_tagged_fields: clone_vec(&self._unknown_tagged_fields),
        };
        assert(r@ =~= self@);
        r
    }
}

impl ViewClone for DeleteRecordsTopic {
    fn clone_view(&self) -> (r: Self) {
        self.clone()
    }
}

impl Default for DeleteRecordsTopic {
    fn default() -> (r: Self)
        ensures
            r@ == Self::default_view(),
    {
        let r = DeleteRecordsTopic {
            name: KafkaString::default(),
            partitions: empty_vec(),
            _unknown_tagged_fields: empty_vec(),
        };
        assert(r@ =~= Self::default_view());
        r
    }
}

impl DeleteRecordsTopic {
    pub open spec fn default_view() -> DeleteRecordsTopicView {
        DeleteRecordsTopicView {
            name: Seq::empty(),
            partitions: Seq::empty(),
            unknown_tagged_fields: Seq::empty(),
        }
    }

    /// The `name` field, read from the front of `s`.
    #[verifier::opaque]
    pub open spec fn spec_read_name(s: Seq<u8>, version: i16) -> ReadOutcome<Seq<u8>> {
        if version >= 2 {
            spec_read_compact_string(s)
        } else {
            spec_read_string(s)
        }
    }

    /// The `partitions` field, read from the front of `s`.
    #[verifier::opaque]
    pub open spec fn spec_read_partitions(s: Seq<u8>, version: i16) -> ReadOutcome<Seq<DeleteRecordsPartitionView>> {
        if version >= 2 {
            spec_read_array::<DeleteRecordsPartition>(s, version, true)
        } else {
            spec_read_array::<DeleteRecordsPartition>(s, version, false)
        }
    }

    /// The tagged fields, read from the front of `s`.
    #[verifier::opaque]
    pub open spec fn spec_read_tags(s: Seq<u8>, version: i16) -> ReadOutcome<Seq<(u32, Seq<u8>)>> {
        if version >= 2 {
            spec_read_tagged_fields(s)
        } else {
            Ok((Seq::empty(), s))
        }
    }

    pub open spec fn spec_read(s: Seq<u8>, version: i16) -> ReadOutcome<DeleteRecordsTopicView> {
        match (Self::spec_read_name(s, version)) {
            Err(e) => Err(e),
            Ok((name, s)) => match (Self::spec_read_partitions(s, version)) {
                Err(e) => Err(e),
                Ok((partitions, s)) => match (Self::spec_read_tags(s, version)) {
                    Err(e) => Err(e),
                    Ok((unknown_tagged_fields, s)) => Ok((DeleteRecordsTopicView {
                                name: name,
                                partitions: partitions,
                                unknown_tagged_fields: unknown_tagged_fields,
                            }, s)),
                },
            },
        }
    }

    /// What writing the `name` field of `m` appends.
    #[verifier::opaque]
    pub open spec fn spec_write_name(m: DeleteRecordsTopicView, version: i16) -> WriteOutcome {
        if version >= 2 {
            spec_write_compact_string(m.name)
        } else {
            spec_write_string(m.name)
        }
    }

    /// What writing the `partitions` field of `m` appends.
    #[verifier::opaque]
    pub open spec fn spec_write_partitions(m: DeleteRecordsTopicView, version: i16) -> WriteOutcome {
        if version >= 2 {
            spec_write_array::<DeleteRecordsPartition>(m.partitions, version, true)
        } else {
            spec_write_array::<DeleteRecordsPartition>(m.partitions, version, false)
        }
    }

    /// What writing the tagged fields of `m` appends.
    #[verifier::opaque]
    pub open spec fn spec_write_tags(m: DeleteRecordsTopicView, version: i16) -> WriteOutcome {
        if version >= 2 {
            spec_write_tagged_fields(sorted_by_tag(m.unknown_tagged_fields))
        } else {
            emit(Seq::empty())
        }
    }

    pub open spec fn spec_write(m: DeleteRecordsTopicView, version: i16) -> WriteOutcome {
        chain(
            chain(
                Self::spec_write_name(m, version),
                Self::spec_write_partitions(m, version),
            ),
            Self::spec_write_tags(m, version),
        )
    }

    /// Whether reading back what writing `m` in `version` appends gives `m`:
    /// fields that the version does not carry hold their default values, and
    /// tagged fields come in the order in which they are written.
    pub open spec fn canonical(m: DeleteRecordsTopicView, version: i16) -> bool {
        &&& all_canonical::<DeleteRecordsPartition>(m.partitions, version)
        &&& (if version >= 2 {
                tags_in_order(m.unknown_tagged_fields)
            } else {
                m.unknown_tagged_fields.len() == 0
        })
    }

    proof fn lemma_round_trip_name(m: DeleteRecordsTopicView, version: i16, rest: Seq<u8>)
        requires
            Self::canonical(m, version),
            Self::spec_write_name(m, version) is Ok,
        ensures
            Self::spec_read_name(written(Self::spec_write_name(m, version)) + rest, version) == Ok::<(Seq<u8>, Seq<u8>), Error>((m.name, rest)),
    {
        reveal(DeleteRecordsTopic::spec_read_name);
        reveal(DeleteRecordsTopic::spec_write_name);
        if version >= 2 {
            lemma_compact_string_round_trip(m.name, rest);
        } else {
            lemma_string_round_trip(m.name, rest);
        }
    }

    proof fn lemma_round_trip_partitions(m: DeleteRecordsTopicView, version: i16, rest: Seq<u8>)
        requires
            Self::canonical(m, version),
            Self::spec_write_partitions(m, version) is Ok,
        ensures
            Self::spec_read_partitions(written(Self::spec_write_partitions(m, version)) + rest, version) == Ok::<(Seq<DeleteRecordsPartitionView>, Seq<u8>), Error>((m.partitions, rest)),
    {
        reveal(DeleteRecordsTopic::spec_read_partitions);
        reveal(DeleteRecordsTopic::spec_write_partitions);
        if version >= 2 {
            lemma_array_round_trip::<DeleteRecordsPartition>(m.partitions, version, true, rest);
        } else {
            lemma_array_round_trip::<DeleteRecordsPartition>(m.partitions, version, false, rest);
        }
    }

    proof fn lemma_round_trip_tags(m: DeleteRecordsTopicView, version: i16, rest: Seq<u8>)
        requires
            Self::canonical(m, version),
            Self::spec_write_tags(m, version) is Ok,
        ensures
            Self::spec_read_tags(written(Self::spec_write_tags(m, version)) + rest, version) == Ok::<(Seq<(u32, Seq<u8>)>, Seq<u8>), Error>((m.unknown_tagged_fields, rest)),
    {
        reveal(DeleteRecordsTopic::spec_read_tags);
        reveal(DeleteRecordsTopic::spec_write_tags);
        if version >= 2 {
            lemma_sorted_by_tag_in_order(m.unknown_tagged_fields);
            lemma_tagged_fields_round_trip(m.unknown_tagged_fields, rest);
        } else {
            assert(Seq::<u8>::empty() + rest =~= rest);
            assert(m.unknown_tagged_fields =~= Seq::empty());
        }
    }

    /// Reading back what writing `m` in `version` appends gives `m` again, and
    /// leaves what follows, for every canonical message whose write succeeds.
    #[verifier::rlimit(70)]
    #[verifier::spinoff_prover]
    pub proof fn lemma_round_trip(m: DeleteRecordsTopicView, version: i16, rest: Seq<u8>)
        requires
            Self::canonical(m, version),
            Self::spec_write(m, version) is Ok,
        ensures
            Self::spec_read(written(Self::spec_write(m, version)) + rest, version) == Ok::<(DeleteRecordsTopicView, Seq<u8>), Error>((m, rest)),
    {
        let b0 = written(Self::spec_write_name(m, version));
        let b1 = written(Self::spec_write_partitions(m, version));
        let b2 = written(Self::spec_write_tags(m, version));
        let t3 = rest;
        let t2 = b2 + t3;
        let t1 = b1 + t2;
        let t0 = b0 + t1;
        let w0 = Self::spec_write_name(m, version);
        let w1 = chain(w0, Self::spec_write_partitions(m, version));
        let w2 = chain(w1, Self::spec_write_tags(m, version));
        assert(Self::spec_write(m, version) == w2);
        assert(written(w2) + t3 =~= written(w1) + t2);
        assert(written(w1) + t2 =~= written(w0) + t1);
        Self::lemma_round_trip_name(m, version, t1);
        Self::lemma_round_trip_partitions(m, version, t2);
        Self::lemma_round_trip_tags(m, version, t3);
    }

    /// In a version that does not carry `unknown_tagged_fields`, writing ignores its value.
    pub proof fn lemma_write_ignores_unknown_tagged_fields(m: DeleteRecordsTopicView, value: Seq<(u32, Seq<u8>)>, version: i16)
        requires
            !(version >= 2),
        ensures
            Self::spec_write((DeleteRecordsTopicView { unknown_tagged_fields: value, ..m }), version) == Self::spec_write(m, version),
    {
        reveal(DeleteRecordsTopic::spec_write_name);
        reveal(DeleteRecordsTopic::spec_write_partitions);
        reveal(DeleteRecordsTopic::spec_write_tags);
    }

    /// The default message holds the default value of each field of the schema.
    pub proof fn lemma_default_values()
        ensures
            Self::default_view().name.len() == 0,
            Self::default_view().partitions.len() == 0,
            Self::default_view().unknown_tagged_fields.len() == 0,
    {
    }

    /// Whether writing `m` in `version` succeeds, said over its parts: the
    /// version is one the schema covers, every field that the version cannot
    /// carry holds its default value, and every string, byte string, array and
    /// tagged field fits its length prefix.
    pub open spec fn writable(m: DeleteRecordsTopicView, version: i16) -> bool {
        &&& m.name.len() <= 0x7fff
        &&& (m.partitions.len() <= i32::MAX && all_writable::<DeleteRecordsPartition>(m.partitions, version))
        &&& (if version >= 2 {
                m.unknown_tagged_fields.len() <= u32::MAX && tags_fit(m.unknown_tagged_fields)
            } else {
                true
        })
    }

    proof fn lemma_writable_name(m: DeleteRecordsTopicView, version: i16)
        ensures
            Self::spec_write_name(m, version) is Ok <==> m.name.len() <= 0x7fff,
    {
        reveal(DeleteRecordsTopic::spec_write_name);
    }

    proof fn lemma_writable_partitions(m: DeleteRecordsTopicView, version: i16)
        ensures
            Self::spec_write_partitions(m, version) is Ok <==> (m.partitions.len() <= i32::MAX && all_writable::<DeleteRecordsPartition>(m.partitions, version)),
    {
        reveal(DeleteRecordsTopic::spec_write_partitions);
        if version >= 2 {
            lemma_array_writable::<DeleteRecordsPartition>(m.partitions, version, true);
        } else {
            lemma_array_writable::<DeleteRecordsPartition>(m.partitions, version, false);
        }
    }

    proof fn lemma_writable_tags(m: DeleteRecordsTopicView, version: i16)
        ensures
            Self::spec_write_tags(m, version) is Ok <==> (if version >= 2 { m.unknown_tagged_fields.len() <= u32::MAX && tags_fit(m.unknown_tagged_fields) } else { true }),
    {
        reveal(DeleteRecordsTopic::spec_write_tags);
        if version >= 2 {
            lemma_sorted_tags_fit(m.unknown_tagged_fields);
            lemma_tagged_fields_writable(sorted_by_tag(m.unknown_tagged_fields));
        }
    }

    /// Writing `m` in `version` succeeds exactly when `m` is writable in it;
    /// so do `write` and `encoded_len`, whose results follow `spec_write`.
    #[verifier::rlimit(48)]
    pub proof fn lemma_writable(m: DeleteRecordsTopicView, version: i16)
        ensures
            Self::spec_write(m, version) is Ok <==> Self::writable(m, version),
    {
        Self::lemma_writable_name(m, version);
        Self::lemma_writable_partitions(m, version);
        Self::lemma_writable_tags(m, version);
    }

    pub fn with_name(self, value: KafkaString) -> (r: Self)
        ensures
            r@ == (DeleteRecordsTopicView { name: value@, ..self@ }),
    {
        let mut r = self;
        r.name = value;
        r
    }

    pub fn with_partitions(self, value: Vec<DeleteRecordsPartition>) -> (r: Self)
        ensures
            r@ == (DeleteRecordsTopicView { partitions: views(value@), ..self@ }),
    {
        let mut r = self;
        r.partitions = value;
        r
    }

    fn read_name(buf: &mut Bytes, version: i16) -> (r: Result<KafkaString, Error>)
        ensures
            read_as(Self::spec_read_name(bytes_seq(*old(buf)), version), *final(buf), r),
            took_front(*old(buf), *final(buf)),
    {
        proof {
            reveal(DeleteRecordsTopic::spec_read_name);
        }
        Ok(if version >= 2 {
                read_compact_string(buf)?
            } else {
                read_string(buf)?
        })
    }

    fn read_partitions(buf: &mut Bytes, version: i16) -> (r: Result<Vec<DeleteRecordsPartition>, Error>)
        ensures
            read_vec_as(Self::spec_read_partitions(bytes_seq(*old(buf)), version), *final(buf), r),
            took_front(*old(buf), *final(buf)),
    {
        proof {
            reveal(DeleteRecordsTopic::spec_read_partitions);
        }
        Ok(if version >= 2 {
                read_array::<DeleteRecordsPartition>(buf, version, true)?
            } else {
                read_array::<DeleteRecordsPartition>(buf, version, false)?
        })
    }

    fn read_tags(buf: &mut Bytes, version: i16) -> (r: Result<Vec<RawTaggedField>, Error>)
        ensures
            read_vec_as(Self::spec_read_tags(bytes_seq(*old(buf)), version), *final(buf), r),
            took_front(*old(buf), *final(buf)),
    {
        proof {
            reveal(DeleteRecordsTopic::spec_read_tags);
        }
        Ok(if version >= 2 {
                read_tagged_fields(buf)?
            } else {
                empty_vec()
        })
    }

    pub fn read(buf: &mut Bytes, version: i16) -> (r: Result<Self, Error>)
        ensures
            read_as(Self::spec_read(bytes_seq(*old(buf)), version), *final(buf), r),
            took_front(*old(buf), *final(buf)),
    {
        let name = Self::read_name(buf, version)?;
        let partitions = Self::read_partitions(buf, version)?;
        let _unknown_tagged_fields = Self::read_tags(buf, version)?;
        Ok(DeleteRecordsTopic {
                name: name,
                partitions: partitions,
                _unknown_tagged_fields: _unknown_tagged_fields,
        })
    }

    #[verifier::rlimit(60)]
    pub fn write(&self, buf: &mut BytesMut, version: i16) -> (r: Result<(), Error>)
        requires
            has_room(Self::spec_write(self@, version), *old(buf)),
        ensures
            wrote(Self::spec_write(self@, version), *old(buf), *final(buf), r),
    {
        let ghost m = self@;
        proof {
            reveal(DeleteRecordsTopic::spec_write_name);
            reveal(DeleteRecordsTopic::spec_write_partitions);
            reveal(DeleteRecordsTopic::spec_write_tags);
        }
        let ghost s0 = Self::spec_write_name(m, version);
        let ghost w0 = s0;
        let ghost s1 = Self::spec_write_partitions(m, version);
        let ghost w1 = chain(w0, s1);
        let ghost s2 = Self::spec_write_tags(m, version);
        let ghost w2 = chain(w1, s2);
        assert(Self::spec_write(m, version) == w2);
        assert(written(w1).len() <= written(w2).len() && (w1 is Err ==> w2 == w1));
        assert(written(w0).len() <= written(w2).len() && (w0 is Err ==> w2 == w0));
        let ghost mid = bytes_mut_seq(*buf);
        proof {
            lemma_append_empty(mid);
        }
        let r0 = if version >= 2 {
            write_compact_string(buf, &self.name)
        } else {
            write_string(buf, &self.name)
        };
        assert(bytes_mut_seq(*buf) == mid + written(s0));
        if r0.is_err() {
            return r0;
        }
        let ghost mid = bytes_mut_seq(*buf);
        proof {
            lemma_append_empty(mid);
        }
        let r1 = if version >= 2 {
            write_array::<DeleteRecordsPartition>(buf, &self.partitions, version, true)
        } else {
            write_array::<DeleteRecordsPartition>(buf, &self.partitions, version, false)
        };
        assert(bytes_mut_seq(*buf) == mid + written(s1));
        proof {
            lemma_step(bytes_mut_seq(*old(buf)), w0, s1);
        }
        if r1.is_err() {
            return r1;
        }
        let ghost mid = bytes_mut_seq(*buf);
        proof {
            lemma_append_empty(mid);
        }
        let r2 = if version >= 2 {
            write_tagged_fields(buf, &sort_by_tag(&self._unknown_tagged_fields))
        } else {
            Ok(())
        };
        assert(bytes_mut_seq(*buf) == mid + written(s2));
        proof {
            lemma_step(bytes_mut_seq(*old(buf)), w1, s2);
        }
        if r2.is_err() {
            return r2;
        }
        Ok(())
    }

    #[verifier::rlimit(60)]
    pub fn encoded_len(&self, version: i16) -> (r: Result<usize, Error>)
        ensures
            r == len_result(Self::spec_write(self@, version)),
    {
        let ghost m = self@;
        proof {
            reveal(DeleteRecordsTopic::spec_write_name);
            reveal(DeleteRecordsTopic::spec_write_partitions);
            reveal(DeleteRecordsTopic::spec_write_tags);
        }
        let ghost s0 = Self::spec_write_name(m, version);
        let ghost w0 = s0;
        let ghost s1 = Self::spec_write_partitions(m, version);
        let ghost w1 = chain(w0, s1);
        let ghost s2 = Self::spec_write_tags(m, version);
        let ghost w2 = chain(w1, s2);
        assert(Self::spec_write(m, version) == w2);
        assert(w1 is Err ==> w2 == w1);
        assert(w0 is Err ==> w2 == w0);
        let mut len: usize = 0;
        let l0 = if version >= 2 {
            compact_string_len(&self.name)
        } else {
            string_len(&self.name)
        };
        assert(l0 == len_result(s0));
        let n0 = match l0 {
            Ok(n) => n,
            Err(e) => {
                return Err(e);
            },
        };
        len = saturating_sum(len, n0);
        assert(w0 is Ok && len == saturate(written(w0).len() as int));
        let l1 = if version >= 2 {
            array_len::<DeleteRecordsPartition>(&self.partitions, version, true)
        } else {
            array_len::<DeleteRecordsPartition>(&self.partitions, version, false)
        };
        assert(l1 == len_result(s1));
        let n1 = match l1 {
            Ok(n) => n,
            Err(e) => {
                return Err(e);
            },
        };
        proof {
            lemma_len_step(w0, s1, n1);
        }
        len = saturating_sum(len, n1);
        assert(w1 is Ok && len == saturate(written(w1).len() as int));
        let l2 = if version >= 2 {
            tagged_fields_len(&sort_by_tag(&self._unknown_tagged_fields))
        } else {
            Ok(0)
        };
        assert(l2 == len_result(s2));
        let n2 = match l2 {
            Ok(n) => n,
            Err(e) => {
                return Err(e);
            },
        };
        proof {
            lemma_len_step(w1, s2, n2);
        }
        len = saturating_sum(len, n2);
        assert(w2 is Ok && len == saturate(written(w2).len() as int));
        Ok(len)
    }
}

#[derive(Debug, PartialEq)]
pub struct DeleteRecordsPartition {
    /// The partition index.
    pub partition_index: i32,
    /// The deletion offset. -1 means that records should be truncated to the high watermark.
    pub offset: i64,
    pub _unknown_tagged_fields: Vec<RawTaggedField>,
}

/// What a `DeleteRecordsPartition` holds, as the specification sees it.
#[verifier::ext_equal]
pub struct DeleteRecordsPartitionView {
    pub partition_index: i32,
    pub offset: i64,
    pub unknown_tagged_fields: Seq<(u32, Seq<u8>)>,
}

impl View for DeleteRecordsPartition {
    type V = DeleteRecordsPartitionView;

    open spec fn view(&self) -> DeleteRecordsPartitionView {
        DeleteRecordsPartitionView {
            partition_index: self.partition_index,
            offset: self.offset,
            unknown_tagged_fields: views(self._unknown_tagged_fields@),
        }
    }
}

impl Clone for DeleteRecordsPartition {
    fn clone(&self) -> (r: Self)
        ensures
            r@ == self@,
    {
        let r = DeleteRecordsPartition {
            partition_index: self.partition_index,
            offset: self.offset,
            _unknown_tagged_fields: clone_vec(&self._unknown_tagged_fields),
        };
        assert(r@ =~= self@);
        r
    }
}

impl ViewClone for DeleteRecordsPartition {
    fn clone_view(&self) -> (r: Self) {
        self.clone()
    }
}

impl Default for DeleteRecordsPartition {
    fn default() -> (r: Self)
        ensures
            r@ == Self::default_view(),
    {
        let r = DeleteRecordsPartition {
            partition_index: 0_i32,
            offset: 0_i64,
            _unknown_tagged_fields: empty_vec(),
        };
        assert(r@ =~= Self::default_view());
        r
    }
}

impl DeleteRecordsPartition {
    pub open spec fn default_view() -> DeleteRecordsPartitionView {
        DeleteRecordsPartitionView {
            partition_index: 0_i32,
            offset: 0_i64,
            unknown_tagged_fields: Seq::empty(),
        }
    }

    /// The `partition_index` field, read from the front of `s`.
    #[verifier::opaque]
    pub open spec fn spec_read_partition_index(s: Seq<u8>, version: i16) -> ReadOutcome<i32> {
        spec_read_i32(s)
    }

    /// The `offset` field, read from the front of `s`.
    #[verifier::opaque]
    pub open spec fn spec_read_offset(s: Seq<u8>, version: i16) -> ReadOutcome<i64> {
        spec_read_i64(s)
    }

    /// The tagged fields, read from the front of `s`.
    #[verifier::opaque]
    pub open spec fn spec_read_tags(s: Seq<u8>, version: i16) -> ReadOutcome<Seq<(u32, Seq<u8>)>> {
        if version >= 2 {
            spec_read_tagged_fields(s)
        } else {
            Ok((Seq::empty(), s))
        }
    }

    pub open spec fn spec_read(s: Seq<u8>, version: i16) -> ReadOutcome<DeleteRecordsPartitionView> {
        match (Self::spec_read_partition_index(s, version)) {
            Err(e) => Err(e),
            Ok((partition_index, s)) => match (Self::spec_read_offset(s, version)) {
                Err(e) => Err(e),
                Ok((offset, s)) => match (Self::spec_read_tags(s, version)) {
                    Err(e) => Err(e),
                    Ok((unknown_tagged_fields, s)) => Ok((DeleteRecordsPartitionView {
                                partition_index: partition_index,
                                offset: offset,
                                unknown_tagged_fields: unknown_tagged_fields,
                            }, s)),
                },
            },
        }
    }

    /// What writing the `partition_index` field of `m` appends.
    #[verifier::opaque]
    pub open spec fn spec_write_partition_index(m: DeleteRecordsPartitionView, version: i16) -> WriteOutcome {
        spec_write_i32(m.partition_index)
    }

    /// What writing the `offset` field of `m` appends.
    #[verifier::opaque]
    pub open spec fn spec_write_offset(m: DeleteRecordsPartitionView, version: i16) -> WriteOutcome {
        spec_write_i64(m.offset)
    }

    /// What writing the tagged fields of `m` appends.
    #[verifier::opaque]
    pub open spec fn spec_write_tags(m: DeleteRecordsPartitionView, version: i16) -> WriteOutcome {
        if version >= 2 {
            spec_write_tagged_fields(sorted_by_tag(m.unknown_tagged_fields))
        } else {
            emit(Seq::empty())
        }
    }

    pub open spec fn spec_write(m: DeleteRecordsPartitionView, version: i16) -> WriteOutcome {
        chain(
            chain(
                Self::spec_write_partition_index(m, version),
                Self::spec_write_offset(m, version),
            ),
            Self::spec_write_tags(m, version),
        )
    }

    /// Whether reading back what writing `m` in `version` appends gives `m`:
    /// fields that the version does not carry hold their default values, and
    /// tagged fields come in the order in which they are written.
    pub open spec fn canonical(m: DeleteRecordsPartitionView, version: i16) -> bool {
        &&& (if version >= 2 {
                tags_in_order(m.unknown_tagged_fields)
            } else {
                m.unknown_tagged_fields.len() == 0
        })
    }

    proof fn lemma_round_trip_partition_index(m: DeleteRecordsPartitionView, version: i16, rest: Seq<u8>)
        requires
            Self::canonical(m, version),
            Self::spec_write_partition_index(m, version) is Ok,
        ensures
            Self::spec_read_partition_index(written(Self::spec_write_partition_index(m, version)) + rest, version) == Ok::<(i32, Seq<u8>), Error>((m.partition_index, rest)),
    {
        reveal(DeleteRecordsPartition::spec_read_partition_index);
        reveal(DeleteRecordsPartition::spec_write_partition_index);
        lemma_i32_roundtrip(m.partition_index, rest);
    }

    proof fn lemma_round_trip_offset(m: DeleteRecordsPartitionView, version: i16, rest: Seq<u8>)
        requires
            Self::canonical(m, version),
            Self::spec_write_offset(m, version) is Ok,
        ensures
            Self::spec_read_offset(written(Self::spec_write_offset(m, version)) + rest, version) == Ok::<(i64, Seq<u8>), Error>((m.offset, rest)),
    {
        reveal(DeleteRecordsPartition::spec_read_offset);
        reveal(DeleteRecordsPartition::spec_write_offset);
        lemma_i64_roundtrip(m.offset, rest);
    }

    proof fn lemma_round_trip_tags(m: DeleteRecordsPartitionView, version: i16, rest: Seq<u8>)
        requires
            Self::canonical(m, version),
            Self::spec_write_tags(m, version) is Ok,
        ensures
            Self::spec_read_tags(written(Self::spec_write_tags(m, version)) + rest, version) == Ok::<(Seq<(u32, Seq<u8>)>, Seq<u8>), Error>((m.unknown_tagged_fields, rest)),
    {
        reveal(DeleteRecordsPartition::spec_read_tags);
        reveal(DeleteRecordsPartition::spec_write_tags);
        if version >= 2 {
            lemma_sorted_by_tag_in_order(m.unknown_tagged_fields);
            lemma_tagged_fields_round_trip(m.unknown_tagged_fields, rest);
        } else {
            assert(Seq::<u8>::empty() + rest =~= rest);
            assert(m.unknown_tagged_fields =~= Seq::empty());
        }
    }

    /// Reading back what writing `m` in `version` appends gives `m` again, and
    /// leaves what follows, for every canonical message whose write succeeds.
    #[verifier::rlimit(70)]
    #[verifier::spinoff_prover]
    pub proof fn lemma_round_trip(m: DeleteRecordsPartitionView, version: i16, rest: Seq<u8>)
        requires
            Self::canonical(m, version),
            Self::spec_write(m, version) is Ok,
        ensures
            Self::spec_read(written(Self::spec_write(m, version)) + rest, version) == Ok::<(DeleteRecordsPartitionView, Seq<u8>), Error>((m, rest)),
    {
        let b0 = written(Self::spec_write_partition_index(m, version));
        let b1 = written(Self::spec_write_offset(m, version));
        let b2 = written(Self::spec_write_tags(m, version));
        let t3 = rest;
        let t2 = b2 + t3;
        let t1 = b1 + t2;
        let t0 = b0 + t1;
        let w0 = Self::spec_write_partition_index(m, version);
        let w1 = chain(w0, Self::spec_write_offset(m, version));
        let w2 = chain(w1, Self::spec_write_tags(m, version));
        assert(Self::spec_write(m, version) == w2);
        assert(written(w2) + t3 =~= written(w1) + t2);
        assert(written(w1) + t2 =~= written(w0) + t1);
        Self::lemma_round_trip_partition_index(m, version, t1);
        Self::lemma_round_trip_offset(m, version, t2);
        Self::lemma_round_trip_tags(m, version, t3);
    }

    /// In a version that does not carry `unknown_tagged_fields`, writing ignores its value.
    pub proof fn lemma_write_ignores_unknown_tagged_fields(m: DeleteRecordsPartitionView, value: Seq<(u32, Seq<u8>)>, version: i16)
        requires
            !(version >= 2),
        ensures
            Self::spec_write((DeleteRecordsPartitionView { unknown_tagged_fields: value, ..m }), version) == Self::spec_write(m, version),
    {
        reveal(DeleteRecordsPartition::spec_write_partition_index);
        reveal(DeleteRecordsPartition::spec_write_offset);
        reveal(DeleteRecordsPartition::spec_write_tags);
    }

    /// The default message holds the default value of each field of the schema.
    pub proof fn lemma_default_values()
        ensures
            Self::default_view().partition_index == (0_i32),
            Self::default_view().offset == (0_i64),
            Self::default_view().unknown_tagged_fields.len() == 0,
    {
    }

    /// Each integer, boolean and identifier field is written as its standard
    /// big-endian bytes (a boolean as `1` or `0`) in the versions that carry
    /// it, and as nothing in the others; reading it takes those bytes back (any
    /// byte other than `0` reads as `true`), or gives its default value.
    pub proof fn lemma_field_encodings(m: DeleteRecordsPartitionView, s: Seq<u8>, version: i16)
        ensures
            true ==> Self::spec_write_partition_index(m, version) == Ok::<Seq<u8>, (Error, Seq<u8>)>(u32_bytes(m.partition_index as u32)),
            true ==> Self::spec_write_offset(m, version) == Ok::<Seq<u8>, (Error, Seq<u8>)>(u64_bytes(m.offset as u64)),
            true ==> Self::spec_read_partition_index(s, version) == spec_read_i32(s),
            true ==> Self::spec_read_offset(s, version) == spec_read_i64(s),
    {
        reveal(DeleteRecordsPartition::spec_write_partition_index);
        reveal(DeleteRecordsPartition::spec_read_partition_index);
        reveal(DeleteRecordsPartition::spec_write_offset);
        reveal(DeleteRecordsPartition::spec_read_offset);
    }

    /// Whether writing `m` in `version` succeeds, said over its parts: the
    /// version is one the schema covers, every field that the version cannot
    /// carry holds its default value, and every string, byte string, array and
    /// tagged field fits its length prefix.
    pub open spec fn writable(m: DeleteRecordsPartitionView, version: i16) -> bool {
        &&& (if version >= 2 {
                m.unknown_tagged_fields.len() <= u32::MAX && tags_fit(m.unknown_tagged_fields)
            } else {
                true
        })
    }

    proof fn lemma_writable_partition_index(m: DeleteRecordsPartitionView, version: i16)
        ensures
            Self::spec_write_partition_index(m, version) is Ok <==> true,
    {
        reveal(DeleteRecordsPartition::spec_write_partition_index);
    }

    proof fn lemma_writable_offset(m: DeleteRecordsPartitionView, version: i16)
        ensures
            Self::spec_write_offset(m, version) is Ok <==> true,
    {
        reveal(DeleteRecordsPartition::spec_write_offset);
    }

    proof fn lemma_writable_tags(m: DeleteRecordsPartitionView, version: i16)
        ensures
            Self::spec_write_tags(m, version) is Ok <==> (if version >= 2 { m.unknown_tagged_fields.len() <= u32::MAX && tags_fit(m.unknown_tagged_fields) } else { true }),
    {
        reveal(DeleteRecordsPartition::spec_write_tags);
        if version >= 2 {
            lemma_sorted_tags_fit(m.unknown_tagged_fields);
            lemma_tagged_fields_writable(sorted_by_tag(m.unknown_tagged_fields));
        }
    }

    /// Writing `m` in `version` succeeds exactly when `m` is writable in it;
    /// so do `write` and `encoded_len`, whose results follow `spec_write`.
    #[verifier::rlimit(48)]
    pub proof fn lemma_writable(m: DeleteRecordsPartitionView, version: i16)
        ensures
            Self::spec_write(m, version) is Ok <==> Self::writable(m, version),
    {
        Self::lemma_writable_partition_index(m, version);
        Self::lemma_writable_offset(m, version);
        Self::lemma_writable_tags(m, version);
    }

    pub fn with_partition_index(self, value: i32) -> (r: Self)
        ensures
            r@ == (DeleteRecordsPartitionView { partition_index: value, ..self@ }),
    {
        let mut r = self;
        r.partition_index = value;
        r
    }

    pub fn with_offset(self, value: i64) -> (r: Self)
        ensures
            r@ == (DeleteRecordsPartitionView { offset: value, ..self@ }),
    {
        let mut r = self;
        r.offset = value;
        r
    }

    fn read_partition_index(buf: &mut Bytes, version: i16) -> (r: Result<i32, Error>)
        ensures
            read_as(Self::spec_read_partition_index(bytes_seq(*old(buf)), version), *final(buf), r),
            took_front(*old(buf), *final(buf)),
    {
        proof {
            reveal(DeleteRecordsPartition::spec_read_partition_index);
        }
        Ok(read_i32(buf)?)
    }

    fn read_offset(buf: &mut Bytes, version: i16) -> (r: Result<i64, Error>)
        ensures
            read_as(Self::spec_read_offset(bytes_seq(*old(buf)), version), *final(buf), r),
            took_front(*old(buf), *final(buf)),
    {
        proof {
            reveal(DeleteRecordsPartition::spec_read_offset);
        }
        Ok(read_i64(buf)?)
    }

    fn read_tags(buf: &mut Bytes, version: i16) -> (r: Result<Vec<RawTaggedField>, Error>)
        ensures
            read_vec_as(Self::spec_read_tags(bytes_seq(*old(buf)), version), *final(buf), r),
            took_front(*old(buf), *final(buf)),
    {
        proof {
            reveal(DeleteRecordsPartition::spec_read_tags);
        }
        Ok(if version >= 2 {
                read_tagged_fields(buf)?
            } else {
                empty_vec()
        })
    }

    pub fn read(buf: &mut Bytes, version: i16) -> (r: Result<Self, Error>)
        ensures
            read_as(Self::spec_read(bytes_seq(*old(buf)), version), *final(buf), r),
            took_front(*old(buf), *final(buf)),
    {
        let partition_index = Self::read_partition_index(buf, version)?;
        let offset = Self::read_offset(buf, version)?;
        let _unknown_tagged_fields = Self::read_tags(buf, version)?;
        Ok(DeleteRecordsPartition {
                partition_index: partition_index,
                offset: offset,
                _unknown_tagged_fields: _unknown_tagged_fields,
        })
    }

    #[verifier::rlimit(60)]
    pub fn write(&self, buf: &mut BytesMut, version: i16) -> (r: Result<(), Error>)
        requires
            has_room(Self::spec_write(self@, version), *old(buf)),
        ensures
            wrote(Self::spec_write(self@, version), *old(buf), *final(buf), r),
    {
        let ghost m = self@;
        proof {
            reveal(DeleteRecordsPartition::spec_write_partition_index);
            reveal(DeleteRecordsPartition::spec_write_offset);
            reveal(DeleteRecordsPartition::spec_write_tags);
        }
        let ghost s0 = Self::spec_write_partition_index(m, version);
        let ghost w0 = s0;
        let ghost s1 = Self::spec_write_offset(m, version);
        let ghost w1 = chain(w0, s1);
        let ghost s2 = Self::spec_write_tags(m, version);
        let ghost w2 = chain(w1, s2);
        assert(Self::spec_write(m, version) == w2);
        assert(written(w1).len() <= written(w2).len() && (w1 is Err ==> w2 == w1));
        assert(written(w0).len() <= written(w2).len() && (w0 is Err ==> w2 == w0));
        let ghost mid = bytes_mut_seq(*buf);
        proof {
            lemma_append_empty(mid);
        }
        let r0 = {
            write_i32(buf, self.partition_index);
            Ok(())
        };
        assert(bytes_mut_seq(*buf) == mid + written(s0));
        if r0.is_err() {
            return r0;
        }
        let ghost mid = bytes_mut_seq(*buf);
        proof {
            lemma_append_empty(mid);
        }
        let r1 = {
            write_i64(buf, self.offset);
            Ok(())
        };
        assert(bytes_mut_seq(*buf) == mid + written(s1));
        proof {
            lemma_step(bytes_mut_seq(*old(buf)), w0, s1);
        }
        if r1.is_err() {
            return r1;
        }
        let ghost mid = bytes_mut_seq(*buf);
        proof {
            lemma_append_empty(mid);
        }
        let r2 = if version >= 2 {
            write_tagged_fields(buf, &sort_by_tag(&self._unknown_tagged_fields))
        } else {
            Ok(())
        };
        assert(bytes_mut_seq(*buf) == mid + written(s2));
        proof {
            lemma_step(bytes_mut_seq(*old(buf)), w1, s2);
        }
        if r2.is_err() {
            return r2;
        }
        Ok(())
    }

    #[verifier::rlimit(60)]
    pub fn encoded_len(&self, version: i16) -> (r: Result<usize, Error>)
        ensures
            r == len_result(Self::spec_write(self@, version)),
    {
        let ghost m = self@;
        proof {
            reveal(DeleteRecordsPartition::spec_write_partition_index);
            reveal(DeleteRecordsPartition::spec_write_offset);
            reveal(DeleteRecordsPartition::spec_write_tags);
        }
        let ghost s0 = Self::spec_write_partition_index(m, version);
        let ghost w0 = s0;
        let ghost s1 = Self::spec_write_offset(m, version);
        let ghost w1 = chain(w0, s1);
        let ghost s2 = Self::spec_write_tags(m, version);
        let ghost w2 = chain(w1, s2);
        assert(Self::spec_write(m, version) == w2);
        assert(w1 is Err ==> w2 == w1);
        assert(w0 is Err ==> w2 == w0);
        let mut len: usize = 0;
        let l0 = Ok(4);
        assert(l0 == len_result(s0));
        let n0 = match l0 {
            Ok(n) => n,
            Err(e) => {
                return Err(e);
            },
        };
        len = saturating_sum(len, n0);
        assert(w0 is Ok && len == saturate(written(w0).len() as int));
        let l1 = Ok(8);
        assert(l1 == len_result(s1));
        let n1 = match l1 {
            Ok(n) => n,
            Err(e) => {
                return Err(e);
            },
        };
        proof {
            lemma_len_step(w0, s1, n1);
        }
        len = saturating_sum(len, n1);
        assert(w1 is Ok && len == saturate(written(w1).len() as int));
        let l2 = if version >= 2 {
            tagged_fields_len(&sort_by_tag(&self._unknown_tagged_fields))
        } else {
            Ok(0)
        };
        assert(l2 == len_result(s2));
        let n2 = match l2 {
            Ok(n) => n,
            Err(e) => {
                return Err(e);
            },
        };
        proof {
            lemma_len_step(w1, s2, n2);
        }
        len = saturating_sum(len, n2);
        assert(w2 is Ok && len == saturate(written(w2).len() as int));
        Ok(len)
    }
}

impl Codec for DeleteRecordsTopic {
    type Item = DeleteRecordsTopic;

    open spec fn spec_read_item(s: Seq<u8>, version: i16) -> ReadOutcome<DeleteRecordsTopicView> {
        DeleteRecordsTopic::spec_read(s, version)
    }

    open spec fn spec_write_item(v: DeleteRecordsTopicView, version: i16) -> WriteOutcome {
        DeleteRecordsTopic::spec_write(v, version)
    }

    open spec fn canonical_item(v: DeleteRecordsTopicView, version: i16) -> bool {
        DeleteRecordsTopic::canonical(v, version)
    }

    proof fn lemma_item_round_trip(v: DeleteRecordsTopicView, version: i16, rest: Seq<u8>) {
        DeleteRecordsTopic::lemma_round_trip(v, version, rest);
    }

    open spec fn writable_item(v: DeleteRecordsTopicView, version: i16) -> bool {
        DeleteRecordsTopic::writable(v, version)
    }

    proof fn lemma_item_writable(v: DeleteRecordsTopicView, version: i16) {
        DeleteRecordsTopic::lemma_writable(v, version);
    }

    fn read_item(buf: &mut Bytes, version: i16) -> (r: Result<DeleteRecordsTopic, Error>) {
        DeleteRecordsTopic::read(buf, version)
    }

    fn write_item(item: &DeleteRecordsTopic, buf: &mut BytesMut, version: i16) -> (r: Result<(), Error>) {
        item.write(buf, version)
    }
}

impl MeasuredCodec for DeleteRecordsTopic {
    fn item_len(item: &DeleteRecordsTopic, version: i16) -> (r: Result<usize, Error>) {
        item.encoded_len(version)
    }
}

impl Codec for DeleteRecordsPartition {
    type Item = DeleteRecordsPartition;

    open spec fn spec_read_item(s: Seq<u8>, version: i16) -> ReadOutcome<DeleteRecordsPartitionView> {
        DeleteRecordsPartition::spec_read(s, version)
    }

    open spec fn spec_write_item(v: DeleteRecordsPartitionView, version: i16) -> WriteOutcome {
        DeleteRecordsPartition::spec_write(v, version)
    }

    open spec fn canonical_item(v: DeleteRecordsPartitionView, version: i16) -> bool {
        DeleteRecordsPartition::canonical(v, version)
    }

    proof fn lemma_item_round_trip(v: DeleteRecordsPartitionView, version: i16, rest: Seq<u8>) {
        DeleteRecordsPartition::lemma_round_trip(v, version, rest);
    }

    open spec fn writable_item(v: DeleteRecordsPartitionView, version: i16) -> bool {
        DeleteRecordsPartition::writable(v, version)
    }

    proof fn lemma_item_writable(v: DeleteRecordsPartitionView, version: i16) {
        DeleteRecordsPartition::lemma_writable(v, version);
    }

    fn read_item(buf: &mut Bytes, version: i16) -> (r: Result<DeleteRecordsPartition, Error>) {
        DeleteRecordsPartition::read(buf, version)
    }

    fn write_item(item: &DeleteRecordsPartition, buf: &mut BytesMut, version: i16) -> (r: Result<(), Error>) {
        item.write(buf, version)
    }
}

impl MeasuredCodec for DeleteRecordsPartition {
    fn item_len(item: &DeleteRecordsPartition, version: i16) -> (r: Result<usize, Error>) {
        item.encoded_len(version)
    }
}

} // verus!
