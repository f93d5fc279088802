//! The elect leaders request message.
use crate::buffer::{bytes_mut_seq, bytes_seq};
use crate::codec::{Codec, Int32Item, MeasuredCodec, all_canonical, all_writable, array_len, lemma_array_round_trip, lemma_array_writable, lemma_nullable_array_round_trip, lemma_nullable_array_writable, nullable_array_len, opt_views, read_array, read_nullable_array, saturating_sum, spec_read_array, spec_read_nullable_array, spec_write_array, spec_write_nullable_array, write_array, write_nullable_array};
use crate::error::{Error, UnsupportedFieldVersion, UnsupportedVersion};
use crate::ints::{lemma_i32_roundtrip, lemma_i8_roundtrip, read_i32, read_i8, spec_read_i32, spec_read_i8, spec_write_i32, spec_write_i8, u32_bytes, write_i32, write_i8};
use crate::strings::{compact_string_len, lemma_compact_string_round_trip, lemma_string_round_trip, read_compact_string, read_string, spec_read_compact_string, spec_read_string, spec_write_compact_string, spec_write_string, string_len, write_compact_string, write_string};
use crate::tagged::{lemma_sorted_by_tag_in_order, lemma_sorted_tags_fit, lemma_tagged_fields_round_trip, lemma_tagged_fields_writable, read_tagged_fields, sort_by_tag, sorted_by_tag, spec_read_tagged_fields, spec_write_tagged_fields, tagged_fields_len, tags_fit, tags_in_order, write_tagged_fields};
use crate::types::{KafkaString, RawTaggedField};
use crate::wire::{ReadOutcome, ViewClone, WriteOutcome, chain, clone_vec, emit, empty_vec, fail, has_room, lemma_append_empty, lemma_chain_written, lemma_len_step, lemma_step, len_result, read_as, read_opt_vec_as, read_vec_as, saturate, took_front, views, written, wrote};
use bytes::{Bytes, BytesMut};
use vstd::prelude::*;

verus! {

broadcast use {crate::wire::lemma_chain_written, crate::wire::lemma_took_front_nothing, crate::wire::lemma_took_front_twice};

#[derive(Debug, PartialEq)]
pub struct ElectLeadersRequestData {
    /// Type of elections to conduct for the partition. A value of '0' elects the preferred
    /// replica. A value of '1' elects the first live replica if there are no in-sync replica.
    pub election_type: i8,
    /// The topic partitions to elect leaders.
    pub topic_partitions: Option<Vec<TopicPartitions>>,
    /// The time in ms to wait for the election to complete.
    pub timeout_ms: i32,
    pub _unknown_tagged_fields: Vec<RawTaggedField>,
}

/// What a `ElectLeadersRequestData` holds, as the specification sees it.
#[verifier::ext_equal]
pub struct ElectLeadersRequestDataView {
    pub election_type: i8,
    pub topic_partitions: Option<Seq<TopicPartitionsView>>,
    pub timeout_ms: i32,
    pub unknown_tagged_fields: Seq<(u32, Seq<u8>)>,
}

impl View for ElectLeadersRequestData {
    type V = ElectLeadersRequestDataView;

    open spec fn view(&self) -> ElectLeadersRequestDataView {
        ElectLeadersRequestDataView {
            election_type: self.election_type,
            topic_partitions: opt_views(self.topic_partitions),
            timeout_ms: self.timeout_ms,
            unknown_tagged_fields: views(self._unknown_tagged_fields@),
        }
    }
}

impl Clone for ElectLeadersRequestData {
    fn clone(&self) -> (r: Self)
        ensures
            r@ == self@,
    {
        let r = ElectLeadersRequestData {
            election_type: self.election_type,
            topic_partitions: match &self.topic_partitions {
                Some(x) => Some(clone_vec(x)),
                None => None,
            },
            timeout_ms: self.timeout_ms,
            _unknown_tagged_fields: clone_vec(&self._unknown_tagged_fields),
        };
        assert(r@ =~= self@);
        r
    }
}

impl ViewClone for ElectLeadersRequestData {
    fn clone_view(&self) -> (r: Self) {
        self.clone()
    }
}

impl Default for ElectLeadersRequestData {
    fn default() -> (r: Self)
        ensures
            r@ == Self::default_view(),
    {
        let r = ElectLeadersRequestData {
            election_type: 0_i8,
            topic_partitions: None,
            timeout_ms: 60000i32,
            _unknown_tagged_fields: empty_vec(),
        };
        assert(r@ =~= Self::default_view());
        r
    }
}

impl ElectLeadersRequestData {
    pub open spec fn default_view() -> ElectLeadersRequestDataView {
        ElectLeadersRequestDataView {
            election_type: 0_i8,
            topic_partitions: None,
            timeout_ms: 60000i32,
            unknown_tagged_fields: Seq::empty(),
        }
    }

    /// The `election_type` field, read from the front of `s`.
    #[verifier::opaque]
    pub open spec fn spec_read_election_type(s: Seq<u8>, version: i16) -> ReadOutcome<i8> {
        if version >= 1 {
            spec_read_i8(s)
        } else {
            Ok((0_i8, s))
        }
    }

    /// The `topic_partitions` field, read from the front of `s`.
    #[verifier::opaque]
    pub open spec fn spec_read_topic_partitions(s: Seq<u8>, version: i16) -> ReadOutcome<Option<Seq<TopicPartitionsView>>> {
        if version >= 2 {
            spec_read_nullable_array::<TopicPartitions>(s, version, true)
        } else {
            spec_read_nullable_array::<TopicPartitions>(s, version, false)
        }
    }

    /// The `timeout_ms` field, read from the front of `s`.
    #[verifier::opaque]
    pub open spec fn spec_read_timeout_ms(s: Seq<u8>, version: i16) -> ReadOutcome<i32> {
        spec_read_i32(s)
    }

    /// The tagged fields, read from the front of `s`.
    #[verifier::opaque]
    pub open spec fn spec_read_tags(s: Seq<u8>, version: i16) -> ReadOutcome<Seq<(u32, Seq<u8>)>> {
        if version >= 2 {
            spec_read_tagged_fields(s)
        } else {
            Ok((Seq::empty(), s))
        }
    }

    pub open spec fn spec_read(s: Seq<u8>, version: i16) -> ReadOutcome<ElectLeadersRequestDataView> {
        if version < 0 || version > 2 {
            Err(Error::UnsupportedVersion(UnsupportedVersion { api_key: 43, version }))
        } else {
            match (Self::spec_read_election_type(s, version)) {
                Err(e) => Err(e),
                Ok((election_type, s)) => match (Self::spec_read_topic_partitions(s, version)) {
                    Err(e) => Err(e),
                    Ok((topic_partitions, s)) => match (Self::spec_read_timeout_ms(s, version)) {
                        Err(e) => Err(e),
                        Ok((timeout_ms, s)) => match (Self::spec_read_tags(s, version)) {
                            Err(e) => Err(e),
                            Ok((unknown_tagged_fields, s)) => Ok((ElectLeadersRequestDataView {
                                        election_type: election_type,
                                        topic_partitions: topic_partitions,
                                        timeout_ms: timeout_ms,
                                        unknown_tagged_fields: unknown_tagged_fields,
                                    }, s)),
                        },
                    },
                },
            }
        }
    }

    /// What writing the `election_type` field of `m` appends.
    #[verifier::opaque]
    pub open spec fn spec_write_election_type(m: ElectLeadersRequestDataView, version: i16) -> WriteOutcome {
        if version >= 1 {
            spec_write_i8(m.election_type)
        } else {
            if m.election_type != 0_i8 {
                fail(Error::UnsupportedFieldVersion(UnsupportedFieldVersion { api_key: 43, field: "election_type", version }))
            } else {
                emit(Seq::empty())
            }
        }
    }

    /// What writing the `topic_partitions` field of `m` appends.
    #[verifier::opaque]
    pub open spec fn spec_write_topic_partitions(m: ElectLeadersRequestDataView, version: i16) -> WriteOutcome {
        if version >= 2 {
            spec_write_nullable_array::<TopicPartitions>(m.topic_partitions, version, true, -1i32)
        } else {
            spec_write_nullable_array::<TopicPartitions>(m.topic_partitions, version, false, -1i32)
        }
    }

    /// What writing the `timeout_ms` field of `m` appends.
    #[verifier::opaque]
    pub open spec fn spec_write_timeout_ms(m: ElectLeadersRequestDataView, version: i16) -> WriteOutcome {
        spec_write_i32(m.timeout_ms)
    }

    /// What writing the tagged fields of `m` appends.
    #[verifier::opaque]
    pub open spec fn spec_write_tags(m: ElectLeadersRequestDataView, version: i16) -> WriteOutcome {
        if version >= 2 {
            spec_write_tagged_fields(sorted_by_tag(m.unknown_tagged_fields))
        } else {
            emit(Seq::empty())
        }
    }

    pub open spec fn spec_write(m: ElectLeadersRequestDataView, version: i16) -> WriteOutcome {
        if version < 0 || version > 2 {
            fail(Error::UnsupportedVersion(UnsupportedVersion { api_key: 43, version }))
        } else {
            chain(
                chain(
                    chain(
                        Self::spec_write_election_type(m, version),
                        Self::spec_write_topic_partitions(m, version),
                    ),
                    Self::spec_write_timeout_ms(m, version),
                ),
                Self::spec_write_tags(m, version),
            )
        }
    }

    /// Whether reading back what writing `m` in `version` appends gives `m`:
    /// fields that the version does not carry hold their default values, and
    /// tagged fields come in the order in which they are written.
    pub open spec fn canonical(m: ElectLeadersRequestDataView, version: i16) -> bool {
        &&& (m.topic_partitions matches Some(xs) ==> all_canonical::<TopicPartitions>(xs, version))
        &&& (if version >= 2 {
                tags_in_order(m.unknown_tagged_fields)
            } else {
                m.unknown_tagged_fields.len() == 0
        })
    }

    proof fn lemma_round_trip_election_type(m: ElectLeadersRequestDataView, version: i16, rest: Seq<u8>)
        requires
            Self::canonical(m, version),
            Self::spec_write_election_type(m, version) is Ok,
        ensures
            Self::spec_read_election_type(written(Self::spec_write_election_type(m, version)) + rest, version) == Ok::<(i8, Seq<u8>), Error>((m.election_type, rest)),
    {
        reveal(ElectLeadersRequestData::spec_read_election_type);
        reveal(ElectLeadersRequestData::spec_write_election_type);
        if version >= 1 {
            lemma_i8_roundtrip(m.election_type, rest);
        } else {
            assert(Seq::<u8>::empty() + rest =~= rest);
        }
    }

    proof fn lemma_round_trip_topic_partitions(m: ElectLeadersRequestDataView, version: i16, rest: Seq<u8>)
        requires
            Self::canonical(m, version),
            Self::spec_write_topic_partitions(m, version) is Ok,
        ensures
            Self::spec_read_topic_partitions(written(Self::spec_write_topic_partitions(m, version)) + rest, version) == Ok::<(Option<Seq<TopicPartitionsView>>, Seq<u8>), Error>((m.topic_partitions, rest)),
    {
        reveal(ElectLeadersRequestData::spec_read_topic_partitions);
        reveal(ElectLeadersRequestData::spec_write_topic_partitions);
        if version >= 2 {
            lemma_nullable_array_round_trip::<TopicPartitions>(m.topic_partitions, version, true, -1i32, rest);
        } else {
            lemma_nullable_array_round_trip::<TopicPartitions>(m.topic_partitions, version, false, -1i32, rest);
        }
    }

    proof fn lemma_round_trip_timeout_ms(m: ElectLeadersRequestDataView, version: i16, rest: Seq<u8>)
        requires
            Self::canonical(m, version),
            Self::spec_write_timeout_ms(m, version) is Ok,
        ensures
            Self::spec_read_timeout_ms(written(Self::spec_write_timeout_ms(m, version)) + rest, version) == Ok::<(i32, Seq<u8>), Error>((m.timeout_ms, rest)),
    {
        reveal(ElectLeadersRequestData::spec_read_timeout_ms);
        reveal(ElectLeadersRequestData::spec_write_timeout_ms);
        lemma_i32_roundtrip(m.timeout_ms, rest);
    }

    proof fn lemma_round_trip_tags(m: ElectLeadersRequestDataView, version: i16, rest: Seq<u8>)
        requires
            Self::canonical(m, version),
            Self::spec_write_tags(m, version) is Ok,
        ensures
            Self::spec_read_tags(written(Self::spec_write_tags(m, version)) + rest, version) == Ok::<(Seq<(u32, Seq<u8>)>, Seq<u8>), Error>((m.unknown_tagged_fields, rest)),
    {
        reveal(ElectLeadersRequestData::spec_read_tags);
        reveal(ElectLeadersRequestData::spec_write_tags);
        if version >= 2 {
            lemma_sorted_by_tag_in_order(m.unknown_tagged_fields);
            lemma_tagged_fields_round_trip(m.unknown_tagged_fields, rest);
        } else {
            assert(Seq::<u8>::empty() + rest =~= rest);
            assert(m.unknown_tagged_fields =~= Seq::empty());
        }
    }

    /// Reading back what writing `m` in `version` appends gives `m` again, and
    /// leaves what follows, for every canonical message whose write succeeds.
    #[verifier::rlimit(80)]
    #[verifier::spinoff_prover]
    pub proof fn lemma_round_trip(m: ElectLeadersRequestDataView, version: i16, rest: Seq<u8>)
        requires
            Self::canonical(m, version),
            Self::spec_write(m, version) is Ok,
        ensures
            Self::spec_read(written(Self::spec_write(m, version)) + rest, version) == Ok::<(ElectLeadersRequestDataView, Seq<u8>), Error>((m, rest)),
    {
        let b0 = written(Self::spec_write_election_type(m, version));
        let b1 = written(Self::spec_write_topic_partitions(m, version));
        let b2 = written(Self::spec_write_timeout_ms(m, version));
        let b3 = written(Self::spec_write_tags(m, version));
        let t4 = rest;
        let t3 = b3 + t4;
        let t2 = b2 + t3;
        let t1 = b1 + t2;
        let t0 = b0 + t1;
        let w0 = Self::spec_write_election_type(m, version);
        let w1 = chain(w0, Self::spec_write_topic_partitions(m, version));
        let w2 = chain(w1, Self::spec_write_timeout_ms(m, version));
        let w3 = chain(w2, Self::spec_write_tags(m, version));
        assert(Self::spec_write(m, version) == w3);
        assert(written(w3) + t4 =~= written(w2) + t3);
        assert(written(w2) + t3 =~= written(w1) + t2);
        assert(written(w1) + t2 =~= written(w0) + t1);
        Self::lemma_round_trip_election_type(m, version, t1);
        Self::lemma_round_trip_topic_partitions(m, version, t2);
        Self::lemma_round_trip_timeout_ms(m, version, t3);
        Self::lemma_round_trip_tags(m, version, t4);
    }

    /// In a version that does not carry `unknown_tagged_fields`, writing ignores its value.
    pub proof fn lemma_write_ignores_unknown_tagged_fields(m: ElectLeadersRequestDataView, value: Seq<(u32, Seq<u8>)>, version: i16)
        requires
            !(version >= 2),
        ensures
            Self::spec_write((ElectLeadersRequestDataView { unknown_tagged_fields: value, ..m }), version) == Self::spec_write(m, version),
    {
        reveal(ElectLeadersRequestData::spec_write_election_type);
        reveal(ElectLeadersRequestData::spec_write_topic_partitions);
        reveal(ElectLeadersRequestData::spec_write_timeout_ms);
        reveal(ElectLeadersRequestData::spec_write_tags);
    }

    /// The default message holds the default value of each field of the schema.
    pub proof fn lemma_default_values()
        ensures
            Self::default_view().election_type == (0_i8),
            (Self::default_view().topic_partitions is None),
            Self::default_view().timeout_ms == (60000i32),
            Self::default_view().unknown_tagged_fields.len() == 0,
    {
    }

    /// Each integer, boolean and identifier field is written as its standard
    /// big-endian bytes (a boolean as `1` or `0`) in the versions that carry
    /// it, and as nothing in the others; reading it takes those bytes back (any
    /// byte other than `0` reads as `true`), or gives its default value.
    pub proof fn lemma_field_encodings(m: ElectLeadersRequestDataView, s: Seq<u8>, version: i16)
        ensures
            version >= 1 ==> Self::spec_write_election_type(m, version) == Ok::<Seq<u8>, (Error, Seq<u8>)>(seq![m.election_type as u8]),
            true ==> Self::spec_write_timeout_ms(m, version) == Ok::<Seq<u8>, (Error, Seq<u8>)>(u32_bytes(m.timeout_ms as u32)),
            version >= 1 ==> Self::spec_read_election_type(s, version) == (if s.len() < 1 { Err(Error::UnexpectedEof) } else { Ok((s[0] as i8, s.drop_first())) }),
            !(version >= 1) ==> Self::spec_read_election_type(s, version) == Ok::<(i8, Seq<u8>), Error>((0_i8, s)),
            true ==> Self::spec_read_timeout_ms(s, version) == spec_read_i32(s),
    {
        reveal(ElectLeadersRequestData::spec_write_election_type);
        reveal(ElectLeadersRequestData::spec_read_election_type);
        reveal(ElectLeadersRequestData::spec_write_timeout_ms);
        reveal(ElectLeadersRequestData::spec_read_timeout_ms);
    }

    /// Whether writing `m` in `version` succeeds, said over its parts: the
    /// version is one the schema covers, every field that the version cannot
    /// carry holds its default value, and every string, byte string, array and
    /// tagged field fits its length prefix.
    pub open spec fn writable(m: ElectLeadersRequestDataView, version: i16) -> bool {
        &&& 0 <= version <= 2
        &&& (if version >= 1 {
                true
            } else {
                !(m.election_type != 0_i8)
        })
        &&& (m.topic_partitions matches Some(xs) ==> xs.len() <= i32::MAX && all_writable::<TopicPartitions>(xs, version))
        &&& (if version >= 2 {
                m.unknown_tagged_fields.len() <= u32::MAX && tags_fit(m.unknown_tagged_fields)
            } else {
                true
        })
    }

    proof fn lemma_writable_election_type(m: ElectLeadersRequestDataView, version: i16)
        ensures
            Self::spec_write_election_type(m, version) is Ok <==> (if version >= 1 { true } else { !(m.election_type != 0_i8) }),
    {
        reveal(ElectLeadersRequestData::spec_write_election_type);
    }

    proof fn lemma_writable_topic_partitions(m: ElectLeadersRequestDataView, version: i16)
        ensures
            Self::spec_write_topic_partitions(m, version) is Ok <==> (m.topic_partitions matches Some(xs) ==> xs.len() <= i32::MAX && all_writable::<TopicPartitions>(xs, version)),
    {
        reveal(ElectLeadersRequestData::spec_write_topic_partitions);
        if version >= 2 {
            lemma_nullable_array_writable::<TopicPartitions>(m.topic_partitions, version, true, -1i32);
        } else {
            lemma_nullable_array_writable::<TopicPartitions>(m.topic_partitions, version, false, -1i32);
        }
    }

    proof fn lemma_writable_timeout_ms(m: ElectLeadersRequestDataView, version: i16)
        ensures
            Self::spec_write_timeout_ms(m, version) is Ok <==> true,
    {
        reveal(ElectLeadersRequestData::spec_write_timeout_ms);
    }

    proof fn lemma_writable_tags(m: ElectLeadersRequestDataView, version: i16)
        ensures
            Self::spec_write_tags(m, version) is Ok <==> (if version >= 2 { m.unknown_tagged_fields.len() <= u32::MAX && tags_fit(m.unknown_tagged_fields) } else { true }),
    {
        reveal(ElectLeadersRequestData::spec_write_tags);
        if version >= 2 {
            lemma_sorted_tags_fit(m.unknown_tagged_fields);
            lemma_tagged_fields_writable(sorted_by_tag(m.unknown_tagged_fields));
        }
    }

    /// Writing `m` in `version` succeeds exactly when `m` is writable in it;
    /// so do `write` and `encoded_len`, whose results follow `spec_write`.
    #[verifier::rlimit(54)]
    pub proof fn lemma_writable(m: ElectLeadersRequestDataView, version: i16)
        ensures
            Self::spec_write(m, version) is Ok <==> Self::writable(m, version),
    {
        Self::lemma_writable_election_type(m, version);
        Self::lemma_writable_topic_partitions(m, version);
        Self::lemma_writable_timeout_ms(m, version);
        Self::lemma_writable_tags(m, version);
    }

    /// A version outside the range that the schema covers is refused, by
    /// reads and by writes alike, before anything is read or written.
    pub proof fn lemma_refused_version(m: ElectLeadersRequestDataView, s: Seq<u8>, version: i16)
        requires
            version < 0 || version > 2,
        ensures
            Self::spec_read(s, version) == Err::<(ElectLeadersRequestDataView, Seq<u8>), Error>(Error::UnsupportedVersion(UnsupportedVersion { api_key: 43, version })),
            Self::spec_write(m, version) == fail(Error::UnsupportedVersion(UnsupportedVersion { api_key: 43, version })),
    {
    }

    pub fn with_election_type(self, value: i8) -> (r: Self)
        ensures
            r@ == (ElectLeadersRequestDataView { election_type: value, ..self@ }),
    {
        let mut r = self;
        r.election_type = value;
        r
    }

    pub fn with_topic_partitions(self, value: Option<Vec<TopicPartitions>>) -> (r: Self)
        ensures
            r@ == (ElectLeadersRequestDataView { topic_partitions: opt_views(value), ..self@ }),
    {
        let mut r = self;
        r.topic_partitions = value;
        r
    }

    pub fn with_timeout_ms(self, value: i32) -> (r: Self)
        ensures
            r@ == (ElectLeadersRequestDataView { timeout_ms: value, ..self@ }),
    {
        let mut r = self;
        r.timeout_ms = value;
        r
    }

    fn read_election_type(buf: &mut Bytes, version: i16) -> (r: Result<i8, Error>)
        ensures
            read_as(Self::spec_read_election_type(bytes_seq(*old(buf)), version), *final(buf), r),
            took_front(*old(buf), *final(buf)),
    {
        proof {
            reveal(ElectLeadersRequestData::spec_read_election_type);
        }
        Ok(if version >= 1 {
                read_i8(buf)?
            } else {
                0_i8
        })
    }

    fn read_topic_partitions(buf: &mut Bytes, version: i16) -> (r: Result<Option<Vec<TopicPartitions>>, Error>)
        ensures
            read_opt_vec_as(Self::spec_read_topic_partitions(bytes_seq(*old(buf)), version), *final(buf), r),
            took_front(*old(buf), *final(buf)),
    {
        proof {
            reveal(ElectLeadersRequestData::spec_read_topic_partitions);
        }
        Ok(if version >= 2 {
                read_nullable_array::<TopicPartitions>(buf, version, true)?
            } else {
                read_nullable_array::<TopicPartitions>(buf, version, false)?
        })
    }

    fn read_timeout_ms(buf: &mut Bytes, version: i16) -> (r: Result<i32, Error>)
        ensures
            read_as(Self::spec_read_timeout_ms(bytes_seq(*old(buf)), version), *final(buf), r),
            took_front(*old(buf), *final(buf)),
    {
        proof {
            reveal(ElectLeadersRequestData::spec_read_timeout_ms);
        }
        Ok(read_i32(buf)?)
    }

    fn read_tags(buf: &mut Bytes, version: i16) -> (r: Result<Vec<RawTaggedField>, Error>)
        ensures
            read_vec_as(Self::spec_read_tags(bytes_seq(*old(buf)), version), *final(buf), r),
            took_front(*old(buf), *final(buf)),
    {
        proof {
            reveal(ElectLeadersRequestData::spec_read_tags);
        }
        Ok(if version >= 2 {
                read_tagged_fields(buf)?
            } else {
                empty_vec()
        })
    }

    pub fn read(buf: &mut Bytes, version: i16) -> (r: Result<Self, Error>)
        ensures
            read_as(Self::spec_read(bytes_seq(*old(buf)), version), *final(buf), r),
            took_front(*old(buf), *final(buf)),
            (version < 0 || version > 2) ==> bytes_seq(*final(buf)) == bytes_seq(*old(buf)),
    {
        if version < 0 || version > 2 {
            return Err(Error::UnsupportedVersion(UnsupportedVersion::new(43, version)));
        }
        let election_type = Self::read_election_type(buf, version)?;
        let topic_partitions = Self::read_topic_partitions(buf, version)?;
        let timeout_ms = Self::read_timeout_ms(buf, version)?;
        let _unknown_tagged_fields = Self::read_tags(buf, version)?;
        Ok(ElectLeadersRequestData {
                election_type: election_type,
                topic_partitions: topic_partitions,
                timeout_ms: timeout_ms,
                _unknown_tagged_fields: _unknown_tagged_fields,
        })
    }

    #[verifier::rlimit(70)]
    pub fn write(&self, buf: &mut BytesMut, version: i16) -> (r: Result<(), Error>)
        requires
            has_room(Self::spec_write(self@, version), *old(buf)),
        ensures
            wrote(Self::spec_write(self@, version), *old(buf), *final(buf), r),
    {
        if version < 0 || version > 2 {
            return Err(Error::UnsupportedVersion(UnsupportedVersion::new(43, version)));
        }
        let ghost m = self@;
        proof {
            reveal(ElectLeadersRequestData::spec_write_election_type);
            reveal(ElectLeadersRequestData::spec_write_topic_partitions);
            reveal(ElectLeadersRequestData::spec_write_timeout_ms);
            reveal(ElectLeadersRequestData::spec_write_tags);
        }
        let ghost s0 = Self::spec_write_election_type(m, version);
        let ghost w0 = s0;
        let ghost s1 = Self::spec_write_topic_partitions(m, version);
        let ghost w1 = chain(w0, s1);
        let ghost s2 = Self::spec_write_timeout_ms(m, version);
        let ghost w2 = chain(w1, s2);
        let ghost s3 = Self::spec_write_tags(m, version);
        let ghost w3 = chain(w2, s3);
        assert(Self::spec_write(m, version) == w3);
        assert(written(w2).len() <= written(w3).len() && (w2 is Err ==> w3 == w2));
        assert(written(w1).len() <= written(w3).len() && (w1 is Err ==> w3 == w1));
        assert(written(w0).len() <= written(w3).len() && (w0 is Err ==> w3 == w0));
        let ghost mid = bytes_mut_seq(*buf);
        proof {
            lemma_append_empty(mid);
        }
        let r0 = if version >= 1 {
            {
                write_i8(buf, self.election_type);
                Ok(())
            }
        } else {
            if self.election_type != 0_i8 {
                Err(Error::UnsupportedFieldVersion(UnsupportedFieldVersion::new(43, "election_type", version)))
            } else {
                Ok(())
            }
        };
        assert(bytes_mut_seq(*buf) == mid + written(s0));
        if r0.is_err() {
            return r0;
        }
        let ghost mid = bytes_mut_seq(*buf);
        proof {
            lemma_append_empty(mid);
        }
        let r1 = if version >= 2 {
            write_nullable_array::<TopicPartitions>(buf, &self.topic_partitions, version, true, -1)
        } else {
            write_nullable_array::<TopicPartitions>(buf, &self.topic_partitions, version, false, -1)
        };
        assert(bytes_mut_seq(*buf) == mid + written(s1));
        proof {
            lemma_step(bytes_mut_seq(*old(buf)), w0, s1);
        }
        if r1.is_err() {
            return r1;
        }
        let ghost mid = bytes_mut_seq(*buf);
        proof {
            lemma_append_empty(mid);
        }
        let r2 = {
            write_i32(buf, self.timeout_ms);
            Ok(())
        };
        assert(bytes_mut_seq(*buf) == mid + written(s2));
        proof {
            lemma_step(bytes_mut_seq(*old(buf)), w1, s2);
        }
        if r2.is_err() {
            return r2;
        }
        let ghost mid = bytes_mut_seq(*buf);
        proof {
            lemma_append_empty(mid);
        }
        let r3 = if version >= 2 {
            write_tagged_fields(buf, &sort_by_tag(&self._unknown_tagged_fields))
        } else {
            Ok(())
        };
        assert(bytes_mut_seq(*buf) == mid + written(s3));
        proof {
            lemma_step(bytes_mut_seq(*old(buf)), w2, s3);
        }
        if r3.is_err() {
            return r3;
        }
        Ok(())
    }

    #[verifier::rlimit(70)]
    pub fn encoded_len(&self, version: i16) -> (r: Result<usize, Error>)
        ensures
            r == len_result(Self::spec_write(self@, version)),
    {
        if version < 0 || version > 2 {
            return Err(Error::UnsupportedVersion(UnsupportedVersion::new(43, version)));
        }
        let ghost m = self@;
        proof {
            reveal(ElectLeadersRequestData::spec_write_election_type);
            reveal(ElectLeadersRequestData::spec_write_topic_partitions);
            reveal(ElectLeadersRequestData::spec_write_timeout_ms);
            reveal(ElectLeadersRequestData::spec_write_tags);
        }
        let ghost s0 = Self::spec_write_election_type(m, version);
        let ghost w0 = s0;
        let ghost s1 = Self::spec_write_topic_partitions(m, version);
        let ghost w1 = chain(w0, s1);
        let ghost s2 = Self::spec_write_timeout_ms(m, version);
        let ghost w2 = chain(w1, s2);
        let ghost s3 = Self::spec_write_tags(m, version);
        let ghost w3 = chain(w2, s3);
        assert(Self::spec_write(m, version) == w3);
        assert(w2 is Err ==> w3 == w2);
        assert(w1 is Err ==> w3 == w1);
        assert(w0 is Err ==> w3 == w0);
        let mut len: usize = 0;
        let l0 = if version >= 1 {
            Ok(1)
        } else {
            if self.election_type != 0_i8 {
                Err(Error::UnsupportedFieldVersion(UnsupportedFieldVersion::new(43, "election_type", version)))
            } else {
                Ok(0)
            }
        };
        assert(l0 == len_result(s0));
        let n0 = match l0 {
            Ok(n) => n,
            Err(e) => {
                return Err(e);
            },
        };
        len = saturating_sum(len, n0);
        assert(w0 is Ok && len == saturate(written(w0).len() as int));
        let l1 = if version >= 2 {
            nullable_array_len::<TopicPartitions>(&self.topic_partitions, version, true, -1)
        } else {
            nullable_array_len::<TopicPartitions>(&self.topic_partitions, version, false, -1)
        };
        assert(l1 == len_result(s1));
        let n1 = match l1 {
            Ok(n) => n,
            Err(e) => {
                return Err(e);
            },
        };
        proof {
            lemma_len_step(w0, s1, n1);
        }
        len = saturating_sum(len, n1);
        assert(w1 is Ok && len == saturate(written(w1).len() as int));
        let l2 = Ok(4);
        assert(l2 == len_result(s2));
        let n2 = match l2 {
            Ok(n) => n,
            Err(e) => {
                return Err(e);
            },
        };
        proof {
            lemma_len_step(w1, s2, n2);
        }
        len = saturating_sum(len, n2);
        assert(w2 is Ok && len == saturate(written(w2).len() as int));
        let l3 = if version >= 2 {
            tagged_fields_len(&sort_by_tag(&self._unknown_tagged_fields))
        } else {
            Ok(0)
        };
        assert(l3 == len_result(s3));
        let n3 = match l3 {
            Ok(n) => n,
            Err(e) => {
                return Err(e);
            },
        };
        proof {
            lemma_len_step(w2, s3, n3);
        }
        len = saturating_sum(len, n3);
        assert(w3 is Ok && len == saturate(written(w3).len() as int));
        Ok(len)
    }
}

#[derive(Debug, PartialEq)]
pub struct TopicPartitions {
    /// The name of a topic.
    pub topic: KafkaString,
    /// The partitions of this topic whose leader should be elected.
    pub partitions: Vec<i32>,
    pub _unknown_tagged_fields: Vec<RawTaggedField>,
}

/// What a `TopicPartitions` holds, as the specification sees it.
#[verifier::ext_equal]
pub struct TopicPartitionsView {
    pub topic: Seq<u8>,
    pub partitions: Seq<i32>,
    pub unknown_tagged_fields: Seq<(u32, Seq<u8>)>,
}

impl View for TopicPartitions {
    type V = TopicPartitionsView;

    open spec fn view(&self) -> TopicPartitionsView {
        TopicPartitionsView {
            topic: self.topic@,
            partitions: views(self.partitions@),
            unknown_tagged_fields: views(self._unknown_tagged_fields@),
        }
    }
}

impl Clone for TopicPartitions {
    fn clone(&self) -> (r: Self)
        ensures
            r@ == self@,
    {
        let r = TopicPartitions {
            topic: self.topic.clone(),
            partitions: clone_vec(&self.partitions),
            _unknown_tagged_fields: clone_vec(&self._unknown_tagged_fields),
        };
        assert(r@ =~= self@);
        r
    }
}

impl ViewClone for TopicPartitions {
    fn clone_view(&self) -> (r: Self) {
        self.clone()
    }
}

impl Default for TopicPartitions {
    fn default() -> (r: Self)
        ensures
            r@ == Self::default_view(),
    {
        let r = TopicPartitions {
            topic: KafkaString::default(),
            partitions: empty_vec(),
            _unknown_tagged_fields: empty_vec(),
        };
        assert(r@ =~= Self::default_view());
        r
    }
}

impl TopicPartitions {
    pub open spec fn default_view() -> TopicPartitionsView {
        TopicPartitionsView {
            topic: Seq::empty(),
            partitions: Seq::empty(),
            unknown_tagged_fields: Seq::empty(),
        }
    }

    /// The `topic` field, read from the front of `s`.
    #[verifier::opaque]
    pub open spec fn spec_read_topic(s: Seq<u8>, version: i16) -> ReadOutcome<Seq<u8>> {
        if version >= 2 {
            spec_read_compact_string(s)
        } else {
            spec_read_string(s)
        }
    }

    /// The `partitions` field, read from the front of `s`.
    #[verifier::opaque]
    pub open spec fn spec_read_partitions(s: Seq<u8>, version: i16) -> ReadOutcome<Seq<i32>> {
        if version >= 2 {
            spec_read_array::<Int32Item>(s, version, true)
        } else {
            spec_read_array::<Int32Item>(s, version, false)
        }
    }

    /// The tagged fields, read from the front of `s`.
    #[verifier::opaque]
    pub open spec fn spec_read_tags(s: Seq<u8>, version: i16) -> ReadOutcome<Seq<(u32, Seq<u8>)>> {
        if version >= 2 {
            spec_read_tagged_fields(s)
        } else {
            Ok((Seq::empty(), s))
        }
    }

    pub open spec fn spec_read(s: Seq<u8>, version: i16) -> ReadOutcome<TopicPartitionsView> {
        match (Self::spec_read_topic(s, version)) {
            Err(e) => Err(e),
            Ok((topic, s)) => match (Self::spec_read_partitions(s, version)) {
                Err(e) => Err(e),
                Ok((partitions, s)) => match (Self::spec_read_tags(s, version)) {
                    Err(e) => Err(e),
                    Ok((unknown_tagged_fields, s)) => Ok((TopicPartitionsView {
                                topic: topic,
                                partitions: partitions,
                                unknown_tagged_fields: unknown_tagged_fields,
                            }, s)),
                },
            },
        }
    }

    /// What writing the `topic` field of `m` appends.
    #[verifier::opaque]
    pub open spec fn spec_write_topic(m: TopicPartitionsView, version: i16) -> WriteOutcome {
        if version >= 2 {
            spec_write_compact_string(m.topic)
        } else {
            spec_write_string(m.topic)
        }
    }

    /// What writing the `partitions` field of `m` appends.
    #[verifier::opaque]
    pub open spec fn spec_write_partitions(m: TopicPartitionsView, version: i16) -> WriteOutcome {
        if version >= 2 {
            spec_write_array::<Int32Item>(m.partitions, version, true)
        } else {
            spec_write_array::<Int32Item>(m.partitions, version, false)
        }
    }

    /// What writing the tagged fields of `m` appends.
    #[verifier::opaque]
    pub open spec fn spec_write_tags(m: TopicPartitionsView, version: i16) -> WriteOutcome {
        if version >= 2 {
            spec_write_tagged_fields(sorted_by_tag(m.unknown_tagged_fields))
        } else {
            emit(Seq::empty())
        }
    }

    pub open spec fn spec_write(m: TopicPartitionsView, version: i16) -> WriteOutcome {
        chain(
            chain(
                Self::spec_write_topic(m, version),
                Self::spec_write_partitions(m, version),
            ),
            Self::spec_write_tags(m, version),
        )
    }

    /// Whether reading back what writing `m` in `version` appends gives `m`:
    /// fields that the version does not carry hold their default values, and
    /// tagged fields come in the order in which they are written.
    pub open spec fn canonical(m: TopicPartitionsView, version: i16) -> bool {
        &&& (if version >= 2 {
                tags_in_order(m.unknown_tagged_fields)
            } else {
                m.unknown_tagged_fields.len() == 0
        })
    }

    proof fn lemma_round_trip_topic(m: TopicPartitionsView, version: i16, rest: Seq<u8>)
        requires
            Self::canonical(m, version),
            Self::spec_write_topic(m, version) is Ok,
        ensures
            Self::spec_read_topic(written(Self::spec_write_topic(m, version)) + rest, version) == Ok::<(Seq<u8>, Seq<u8>), Error>((m.topic, rest)),
    {
        reveal(TopicPartitions::spec_read_topic);
        reveal(TopicPartitions::spec_write_topic);
        if version >= 2 {
            lemma_compact_string_round_trip(m.topic, rest);
        } else {
            lemma_string_round_trip(m.topic, rest);
        }
    }

    proof fn lemma_round_trip_partitions(m: TopicPartitionsView, version: i16, rest: Seq<u8>)
        requires
            Self::canonical(m, version),
            Self::spec_write_partitions(m, version) is Ok,
        ensures
            Self::spec_read_partitions(written(Self::spec_write_partitions(m, version)) + rest, version) == Ok::<(Seq<i32>, Seq<u8>), Error>((m.partitions, rest)),
    {
        reveal(TopicPartitions::spec_read_partitions);
        reveal(TopicPartitions::spec_write_partitions);
        if version >= 2 {
            lemma_array_round_trip::<Int32Item>(m.partitions, version, true, rest);
        } else {
            lemma_array_round_trip::<Int32Item>(m.partitions, version, false, rest);
        }
    }

    proof fn lemma_round_trip_tags(m: TopicPartitionsView, version: i16, rest: Seq<u8>)
        requires
            Self::canonical(m, version),
            Self::spec_write_tags(m, version) is Ok,
        ensures
            Self::spec_read_tags(written(Self::spec_write_tags(m, version)) + rest, version) == Ok::<(Seq<(u32, Seq<u8>)>, Seq<u8>), Error>((m.unknown_tagged_fields, rest)),
    {
        reveal(TopicPartitions::spec_read_tags);
        reveal(TopicPartitions::spec_write_tags);
        if version >= 2 {
            lemma_sorted_by_tag_in_order(m.unknown_tagged_fields);
            lemma_tagged_fields_round_trip(m.unknown_tagged_fields, rest);
        } else {
            assert(Seq::<u8>::empty() + rest =~= rest);
            assert(m.unknown_tagged_fields =~= Seq::empty());
        }
    }

    /// Reading back what writing `m` in `version` appends gives `m` again, and
    /// leaves what follows, for every canonical message whose write succeeds.
    #[verifier::rlimit(70)]
    #[verifier::spinoff_prover]
    pub proof fn lemma_round_trip(m: TopicPartitionsView, version: i16, rest: Seq<u8>)
        requires
            Self::canonical(m, version),
            Self::spec_write(m, version) is Ok,
        ensures
            Self::spec_read(written(Self::spec_write(m, version)) + rest, version) == Ok::<(TopicPartitionsView, Seq<u8>), Error>((m, rest)),
    {
        let b0 = written(Self::spec_write_topic(m, version));
        let b1 = written(Self::spec_write_partitions(m, version));
        let b2 = written(Self::spec_write_tags(m, version));
        let t3 = rest;
        let t2 = b2 + t3;
        let t1 = b1 + t2;
        let t0 = b0 + t1;
        let w0 = Self::spec_write_topic(m, version);
        let w1 = chain(w0, Self::spec_write_partitions(m, version));
        let w2 = chain(w1, Self::spec_write_tags(m, version));
        assert(Self::spec_write(m, version) == w2);
        assert(written(w2) + t3 =~= written(w1) + t2);
        assert(written(w1) + t2 =~= written(w0) + t1);
        Self::lemma_round_trip_topic(m, version, t1);
        Self::lemma_round_trip_partitions(m, version, t2);
        Self::lemma_round_trip_tags(m, version, t3);
    }

    /// In a version that does not carry `unknown_tagged_fields`, writing ignores its value.
    pub proof fn lemma_write_ignores_unknown_tagged_fields(m: TopicPartitionsView, value: Seq<(u32, Seq<u8>)>, version: i16)
        requires
            !(version >= 2),
        ensures
            Self::spec_write((TopicPartitionsView { unknown_tagged_fields: value, ..m }), version) == Self::spec_write(m, version),
    {
        reveal(TopicPartitions::spec_write_topic);
        reveal(TopicPartitions::spec_write_partitions);
        reveal(TopicPartitions::spec_write_tags);
    }

    /// The default message holds the default value of each field of the schema.
    pub proof fn lemma_default_values()
        ensures
            Self::default_view().topic.len() == 0,
            Self::default_view().partitions.len() == 0,
            Self::default_view().unknown_tagged_fields.len() == 0,
    {
    }

    /// Whether writing `m` in `version` succeeds, said over its parts: the
    /// version is one the schema covers, every field that the version cannot
    /// carry holds its default value, and every string, byte string, array and
    /// tagged field fits its length prefix.
    pub open spec fn writable(m: TopicPartitionsView, version: i16) -> bool {
        &&& m.topic.len() <= 0x7fff
        &&& (m.partitions.len() <= i32::MAX && all_writable::<Int32Item>(m.partitions, version))
        &&& (if version >= 2 {
                m.unknown_tagged_fields.len() <= u32::MAX && tags_fit(m.unknown_tagged_fields)
            } else {
                true
        })
    }

    proof fn lemma_writable_topic(m: TopicPartitionsView, version: i16)
        ensures
            Self::spec_write_topic(m, version) is Ok <==> m.topic.len() <= 0x7fff,
    {
        reveal(TopicPartitions::spec_write_topic);
    }

    proof fn lemma_writable_partitions(m: TopicPartitionsView, version: i16)
        ensures
            Self::spec_write_partitions(m, version) is Ok <==> (m.partitions.len() <= i32::MAX && all_writable::<Int32Item>(m.partitions, version)),
    {
        reveal(TopicPartitions::spec_write_partitions);
        if version >= 2 {
            lemma_array_writable::<Int32Item>(m.partitions, version, true);
        } else {
            lemma_array_writable::<Int32Item>(m.partitions, version, false);
        }
    }

    proof fn lemma_writable_tags(m: TopicPartitionsView, version: i16)
        ensures
            Self::spec_write_tags(m, version) is Ok <==> (if version >= 2 { m.unknown_tagged_fields.len() <= u32::MAX && tags_fit(m.unknown_tagged_fields) } else { true }),
    {
        reveal(TopicPartitions::spec_write_tags);
        if version >= 2 {
            lemma_sorted_tags_fit(m.unknown_tagged_fields);
            lemma_tagged_fields_writable(sorted_by_tag(m.unknown_tagged_fields));
        }
    }

    /// Writing `m` in `version` succeeds exactly when `m` is writable in it;
    /// so do `write` and `encoded_len`, whose results follow `spec_write`.
    #[verifier::rlimit(48)]
    pub proof fn lemma_writable(m: TopicPartitionsView, version: i16)
        ensures
            Self::spec_write(m, version) is Ok <==> Self::writable(m, version),
    {
        Self::lemma_writable_topic(m, version);
        Self::lemma_writable_partitions(m, version);
        Self::lemma_writable_tags(m, version);
    }

    pub fn with_topic(self, value: KafkaString) -> (r: Self)
        ensures
            r@ == (TopicPartitionsView { topic: value@, ..self@ }),
    {
        let mut r = self;
        r.topic = value;
        r
    }

    pub fn with_partitions(self, value: Vec<i32>) -> (r: Self)
        ensures
            r@ == (TopicPartitionsView { partitions: views(value@), ..self@ }),
    {
        let mut r = self;
        r.partitions = value;
        r
    }

    fn read_topic(buf: &mut Bytes, version: i16) -> (r: Result<KafkaString, Error>)
        ensures
            read_as(Self::spec_read_topic(bytes_seq(*old(buf)), version), *final(buf), r),
            took_front(*old(buf), *final(buf)),
    {
        proof {
            reveal(TopicPartitions::spec_read_topic);
        }
        Ok(if version >= 2 {
                read_compact_string(buf)?
            } else {
                read_string(buf)?
        })
    }

    fn read_partitions(buf: &mut Bytes, version: i16) -> (r: Result<Vec<i32>, Error>)
        ensures
            read_vec_as(Self::spec_read_partitions(bytes_seq(*old(buf)), version), *final(buf), r),
            took_front(*old(buf), *final(buf)),
    {
        proof {
            reveal(TopicPartitions::spec_read_partitions);
        }
        Ok(if version >= 2 {
                read_array::<Int32Item>(buf, version, true)?
            } else {
                read_array::<Int32Item>(buf, version, false)?
        })
    }

    fn read_tags(buf: &mut Bytes, version: i16) -> (r: Result<Vec<RawTaggedField>, Error>)
        ensures
            read_vec_as(Self::spec_read_tags(bytes_seq(*old(buf)), version), *final(buf), r),
            took_front(*old(buf), *final(buf)),
    {
        proof {
            reveal(TopicPartitions::spec_read_tags);
        }
        Ok(if version >= 2 {
                read_tagged_fields(buf)?
            } else {
                empty_vec()
        })
    }

    pub fn read(buf: &mut Bytes, version: i16) -> (r: Result<Self, Error>)
        ensures
            read_as(Self::spec_read(bytes_seq(*old(buf)), version), *final(buf), r),
            took_front(*old(buf), *final(buf)),
    {
        let topic = Self::read_topic(buf, version)?;
        let partitions = Self::read_partitions(buf, version)?;
        let _unknown_tagged_fields = Self::read_tags(buf, version)?;
        Ok(TopicPartitions {
                topic: topic,
                partitions: partitions,
                _unknown_tagged_fields: _unknown_tagged_fields,
        })
    }

    #[verifier::rlimit(60)]
    pub fn write(&self, buf: &mut BytesMut, version: i16) -> (r: Result<(), Error>)
        requires
            has_room(Self::spec_write(self@, version), *old(buf)),
        ensures
            wrote(Self::spec_write(self@, version), *old(buf), *final(buf), r),
    {
        let ghost m = self@;
        proof {
            reveal(TopicPartitions::spec_write_topic);
            reveal(TopicPartitions::spec_write_partitions);
            reveal(TopicPartitions::spec_write_tags);
        }
        let ghost s0 = Self::spec_write_topic(m, version);
        let ghost w0 = s0;
        let ghost s1 = Self::spec_write_partitions(m, version);
        let ghost w1 = chain(w0, s1);
        let ghost s2 = Self::spec_write_tags(m, version);
        let ghost w2 = chain(w1, s2);
        assert(Self::spec_write(m, version) == w2);
        assert(written(w1).len() <= written(w2).len() && (w1 is Err ==> w2 == w1));
        assert(written(w0).len() <= written(w2).len() && (w0 is Err ==> w2 == w0));
        let ghost mid = bytes_mut_seq(*buf);
        proof {
            lemma_append_empty(mid);
        }
        let r0 = if version >= 2 {
            write_compact_string(buf, &self.topic)
        } else {
            write_string(buf, &self.topic)
        };
        assert(bytes_mut_seq(*buf) == mid + written(s0));
        if r0.is_err() {
            return r0;
        }
        let ghost mid = bytes_mut_seq(*buf);
        proof {
            lemma_append_empty(mid);
        }
        let r1 = if version >= 2 {
            write_array::<Int32Item>(buf, &self.partitions, version, true)
        } else {
            write_array::<Int32Item>(buf, &self.partitions, version, false)
        };
        assert(bytes_mut_seq(*buf) == mid + written(s1));
        proof {
            lemma_step(bytes_mut_seq(*old(buf)), w0, s1);
        }
        if r1.is_err() {
            return r1;
        }
        let ghost mid = bytes_mut_seq(*buf);
        proof {
            lemma_append_empty(mid);
        }
        let r2 = if version >= 2 {
            write_tagged_fields(buf, &sort_by_tag(&self._unknown_tagged_fields))
        } else {
            Ok(())
        };
        assert(bytes_mut_seq(*buf) == mid + written(s2));
        proof {
            lemma_step(bytes_mut_seq(*old(buf)), w1, s2);
        }
        if r2.is_err() {
            return r2;
        }
        Ok(())
    }

    #[verifier::rlimit(60)]
    pub fn encoded_len(&self, version: i16) -> (r: Result<usize, Error>)
        ensures
            r == len_result(Self::spec_write(self@, version)),
    {
        let ghost m = self@;
        proof {
            reveal(TopicPartitions::spec_write_topic);
            reveal(TopicPartitions::spec_write_partitions);
            reveal(TopicPartitions::spec_write_tags);
        }
        let ghost s0 = Self::spec_write_topic(m, version);
        let ghost w0 = s0;
        let ghost s1 = Self::spec_write_partitions(m, version);
        let ghost w1 = chain(w0, s1);
        let ghost s2 = Self::spec_write_tags(m, version);
        let ghost w2 = chain(w1, s2);
        assert(Self::spec_write(m, version) == w2);
        assert(w1 is Err ==> w2 == w1);
        assert(w0 is Err ==> w2 == w0);
        let mut len: usize = 0;
        let l0 = if version >= 2 {
            compact_string_len(&self.topic)
        } else {
            string_len(&self.topic)
        };
        assert(l0 == len_result(s0));
        let n0 = match l0 {
            Ok(n) => n,
            Err(e) => {
                return Err(e);
            },
        };
        len = saturating_sum(len, n0);
        assert(w0 is Ok && len == saturate(written(w0).len() as int));
        let l1 = if version >= 2 {
            array_len::<Int32Item>(&self.partitions, version, true)
        } else {
            array_len::<Int32Item>(&self.partitions, version, false)
        };
        assert(l1 == len_result(s1));
        let n1 = match l1 {
            Ok(n) => n,
            Err(e) => {
                return Err(e);
            },
        };
        proof {
            lemma_len_step(w0, s1, n1);
        }
        len = saturating_sum(len, n1);
        assert(w1 is Ok && len == saturate(written(w1).len() as int));
        let l2 = if version >= 2 {
            tagged_fields_len(&sort_by_tag(&self._unknown_tagged_fields))
        } else {
            Ok(0)
        };
        assert(l2 == len_result(s2));
        let n2 = match l2 {
            Ok(n) => n,
            Err(e) => {
                return Err(e);
            },
        };
        proof {
            lemma_len_step(w1, s2, n2);
        }
        len = saturating_sum(len, n2);
        assert(w2 is Ok && len == saturate(written(w2).len() as int));
        Ok(len)
    }
}

impl Codec for TopicPartitions {
    type Item = TopicPartitions;

    open spec fn spec_read_item(s: Seq<u8>, version: i16) -> ReadOutcome<TopicPartitionsView> {
        TopicPartitions::spec_read(s, version)
    }

    open spec fn spec_write_item(v: TopicPartitionsView, version: i16) -> WriteOutcome {
        TopicPartitions::spec_write(v, version)
    }

    open spec fn canonical_item(v: TopicPartitionsView, version: i16) -> bool {
        TopicPartitions::canonical(v, version)
    }

    proof fn lemma_item_round_trip(v: TopicPartitionsView, version: i16, rest: Seq<u8>) {
        TopicPartitions::lemma_round_trip(v, version, rest);
    }

    open spec fn writable_item(v: TopicPartitionsView, version: i16) -> bool {
        TopicPartitions::writable(v, version)
    }

    proof fn lemma_item_writable(v: TopicPartitionsView, version: i16) {
        TopicPartitions::lemma_writable(v, version);
    }

    fn read_item(buf: &mut Bytes, version: i16) -> (r: Result<TopicPartitions, Error>) {
        TopicPartitions::read(buf, version)
    }

    fn write_item(item: &TopicPartitions, buf: &mut BytesMut, version: i16) -> (r: Result<(), Error>) {
        item.write(buf, version)
    }
}

impl MeasuredCodec for TopicPartitions {
    fn item_len(item: &TopicPartitions, version: i16) -> (r: Result<usize, Error>) {
        item.encoded_len(version)
    }
}

} // verus!
