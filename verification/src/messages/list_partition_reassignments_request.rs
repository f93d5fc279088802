//! The list partition reassignments request message.
use crate::buffer::{bytes_mut_seq, bytes_seq};
use crate::codec::{Codec, Int32Item, MeasuredCodec, all_canonical, all_writable, array_len, lemma_array_round_trip, lemma_array_writable, lemma_nullable_array_round_trip, lemma_nullable_array_writable, nullable_array_len, opt_views, read_array, read_nullable_array, saturating_sum, spec_read_array, spec_read_nullable_array, spec_write_array, spec_write_nullable_array, write_array, write_nullable_array};
use crate::error::{Error, UnsupportedVersion};
use crate::ints::{lemma_i32_roundtrip, read_i32, spec_read_i32, spec_write_i32, u32_bytes, write_i32};
use crate::strings::{compact_string_len, lemma_compact_string_round_trip, read_compact_string, spec_read_compact_string, spec_write_compact_string, write_compact_string};
use crate::tagged::{lemma_sorted_by_tag_in_order, lemma_sorted_tags_fit, lemma_tagged_fields_round_trip, lemma_tagged_fields_writable, read_tagged_fields, sort_by_tag, sorted_by_tag, spec_read_tagged_fields, spec_write_tagged_fields, tagged_fields_len, tags_fit, tags_in_order, write_tagged_fields};
use crate::types::{KafkaString, RawTaggedField};
use crate::wire::{ReadOutcome, ViewClone, WriteOutcome, chain, clone_vec, empty_vec, fail, has_room, lemma_append_empty, lemma_chain_written, lemma_len_step, lemma_step, len_result, read_as, read_opt_vec_as, read_vec_as, saturate, took_front, views, written, wrote};
use bytes::{Bytes, BytesMut};
use vstd::prelude::*;

verus! {

broadcast use {crate::wire::lemma_chain_written, crate::wire::lemma_took_front_nothing, crate::wire::lemma_took_front_twice};

#[derive(Debug, PartialEq)]
pub struct ListPartitionReassignmentsRequestData {
    /// The time in ms to wait for the request to complete.
    pub timeout_ms: i32,
    /// The topics to list partition reassignments for, or null to list everything.
    pub topics: Option<Vec<ListPartitionReassignmentsTopics>>,
    pub _unknown_tagged_fields: Vec<RawTaggedField>,
}

/// What a `ListPartitionReassignmentsRequestData` holds, as the specification sees it.
#[verifier::ext_equal]
pub struct ListPartitionReassignmentsRequestDataView {
    pub timeout_ms: i32,
    pub topics: Option<Seq<ListPartitionReassignmentsTopicsView>>,
    pub unknown_tagged_fields: Seq<(u32, Seq<u8>)>,
}

impl View for ListPartitionReassignmentsRequestData {
    type V = ListPartitionReassignmentsRequestDataView;

    open spec fn view(&self) -> ListPartitionReassignmentsRequestDataView {
        ListPartitionReassignmentsRequestDataView {
            timeout_ms: self.timeout_ms,
            topics: opt_views(self.topics),
            unknown_tagged_fields: views(self._unknown_tagged_fields@),
        }
    }
}

impl Clone for ListPartitionReassignmentsRequestData {
    fn clone(&self) -> (r: Self)
        ensures
            r@ == self@,
    {
        let r = ListPartitionReassignmentsRequestData {
            timeout_ms: self.timeout_ms,
            topics: match &self.topics {
                Some(x) => Some(clone_vec(x)),
                None => None,
            },
            _unknown_tagged_fields: clone_vec(&self._unknown_tagged_fields),
        };
        assert(r@ =~= self@);
        r
    }
}

impl ViewClone for ListPartitionReassignmentsRequestData {
    fn clone_view(&self) -> (r: Self) {
        self.clone()
    }
}

impl Default for ListPartitionReassignmentsRequestData {
    fn default() -> (r: Self)
        ensures
            r@ == Self::default_view(),
    {
        let r = ListPartitionReassignmentsRequestData {
            timeout_ms: 60000i32,
            topics: None,
            _unknown_tagged_fields: empty_vec(),
        };
        assert(r@ =~= Self::default_view());
        r
    }
}

impl ListPartitionReassignmentsRequestData {
    pub open spec fn default_view() -> ListPartitionReassignmentsRequestDataView {
        ListPartitionReassignmentsRequestDataView {
            timeout_ms: 60000i32,
            topics: None,
            unknown_tagged_fields: Seq::empty(),
        }
    }

    /// The `timeout_ms` field, read from the front of `s`.
    #[verifier::opaque]
    pub open spec fn spec_read_timeout_ms(s: Seq<u8>, version: i16) -> ReadOutcome<i32> {
        spec_read_i32(s)
    }

    /// The `topics` field, read from the front of `s`.
    #[verifier::opaque]
    pub open spec fn spec_read_topics(s: Seq<u8>, version: i16) -> ReadOutcome<Option<Seq<ListPartitionReassignmentsTopicsView>>> {
        spec_read_nullable_array::<ListPartitionReassignmentsTopics>(s, version, true)
    }

    /// The tagged fields, read from the front of `s`.
    #[verifier::opaque]
    pub open spec fn spec_read_tags(s: Seq<u8>, version: i16) -> ReadOutcome<Seq<(u32, Seq<u8>)>> {
        spec_read_tagged_fields(s)
    }

    pub open spec fn spec_read(s: Seq<u8>, version: i16) -> ReadOutcome<ListPartitionReassignmentsRequestDataView> {
        if version < 0 || version > 0 {
            Err(Error::UnsupportedVersion(UnsupportedVersion { api_key: 46, version }))
        } else {
            match (Self::spec_read_timeout_ms(s, version)) {
                Err(e) => Err(e),
                Ok((timeout_ms, s)) => match (Self::spec_read_topics(s, version)) {
                    Err(e) => Err(e),
                    Ok((topics, s)) => match (Self::spec_read_tags(s, version)) {
                        Err(e) => Err(e),
                        Ok((unknown_tagged_fields, s)) => Ok((ListPartitionReassignmentsRequestDataView {
                                    timeout_ms: timeout_ms,
                                    topics: topics,
                                    unknown_tagged_fields: unknown_tagged_fields,
                                }, s)),
                    },
                },
            }
        }
    }

    /// What writing the `timeout_ms` field of `m` appends.
    #[verifier::opaque]
    pub open spec fn spec_write_timeout_ms(m: ListPartitionReassignmentsRequestDataView, version: i16) -> WriteOutcome {
        spec_write_i32(m.timeout_ms)
    }

    /// What writing the `topics` field of `m` appends.
    #[verifier::opaque]
    pub open spec fn spec_write_topics(m: ListPartitionReassignmentsRequestDataView, version: i16) -> WriteOutcome {
        spec_write_nullable_array::<ListPartitionReassignmentsTopics>(m.topics, version, true, -1i32)
    }

    /// What writing the tagged fields of `m` appends.
    #[verifier::opaque]
    pub open spec fn spec_write_tags(m: ListPartitionReassignmentsRequestDataView, version: i16) -> WriteOutcome {
        spec_write_tagged_fields(sorted_by_tag(m.unknown_tagged_fields))
    }

    pub open spec fn spec_write(m: ListPartitionReassignmentsRequestDataView, version: i16) -> WriteOutcome {
        if version < 0 || version > 0 {
            fail(Error::UnsupportedVersion(UnsupportedVersion { api_key: 46, version }))
        } else {
            chain(
                chain(
                    Self::spec_write_timeout_ms(m, version),
                    Self::spec_write_topics(m, version),
                ),
                Self::spec_write_tags(m, version),
            )
        }
    }

    /// Whether reading back what writing `m` in `version` appends gives `m`:
    /// fields that the version does not carry hold their default values, and
    /// tagged fields come in the order in which they are written.
    pub open spec fn canonical(m: ListPartitionReassignmentsRequestDataView, version: i16) -> bool {
        &&& (m.topics matches Some(xs) ==> all_canonical::<ListPartitionReassignmentsTopics>(xs, version))
        &&& tags_in_order(m.unknown_tagged_fields)
    }

    proof fn lemma_round_trip_timeout_ms(m: ListPartitionReassignmentsRequestDataView, version: i16, rest: Seq<u8>)
        requires
            Self::canonical(m, version),
            Self::spec_write_timeout_ms(m, version) is Ok,
        ensures
            Self::spec_read_timeout_ms(written(Self::spec_write_timeout_ms(m, version)) + rest, version) == Ok::<(i32, Seq<u8>), Error>((m.timeout_ms, rest)),
    {
        reveal(ListPartitionReassignmentsRequestData::spec_read_timeout_ms);
        reveal(ListPartitionReassignmentsRequestData::spec_write_timeout_ms);
        lemma_i32_roundtrip(m.timeout_ms, rest);
    }

    proof fn lemma_round_trip_topics(m: ListPartitionReassignmentsRequestDataView, version: i16, rest: Seq<u8>)
        requires
            Self::canonical(m, version),
            Self::spec_write_topics(m, version) is Ok,
        ensures
            Self::spec_read_topics(written(Self::spec_write_topics(m, version)) + rest, version) == Ok::<(Option<Seq<ListPartitionReassignmentsTopicsView>>, Seq<u8>), Error>((m.topics, rest)),
    {
        reveal(ListPartitionReassignmentsRequestData::spec_read_topics);
        reveal(ListPartitionReassignmentsRequestData::spec_write_topics);
        lemma_nullable_array_round_trip::<ListPartitionReassignmentsTopics>(m.topics, version, true, -1i32, rest);
    }

    proof fn lemma_round_trip_tags(m: ListPartitionReassignmentsRequestDataView, version: i16, rest: Seq<u8>)
        requires
            Self::canonical(m, version),
            Self::spec_write_tags(m, version) is Ok,
        ensures
            Self::spec_read_tags(written(Self::spec_write_tags(m, version)) + rest, version) == Ok::<(Seq<(u32, Seq<u8>)>, Seq<u8>), Error>((m.unknown_tagged_fields, rest)),
    {
        reveal(ListPartitionReassignmentsRequestData::spec_read_tags);
        reveal(ListPartitionReassignmentsRequestData::spec_write_tags);
        lemma_sorted_by_tag_in_order(m.unknown_tagged_fields);
        lemma_tagged_fields_round_trip(m.unknown_tagged_fields, rest);
    }

    /// Reading back what writing `m` in `version` appends gives `m` again, and
    /// leaves what follows, for every canonical message whose write succeeds.
    #[verifier::rlimit(70)]
    #[verifier::spinoff_prover]
    pub proof fn lemma_round_trip(m: ListPartitionReassignmentsRequestDataView, version: i16, rest: Seq<u8>)
        requires
            Self::canonical(m, version),
            Self::spec_write(m, version) is Ok,
        ensures
            Self::spec_read(written(Self::spec_write(m, version)) + rest, version) == Ok::<(ListPartitionReassignmentsRequestDataView, Seq<u8>), Error>((m, rest)),
    {
        let b0 = written(Self::spec_write_timeout_ms(m, version));
        let b1 = written(Self::spec_write_topics(m, version));
        let b2 = written(Self::spec_write_tags(m, version));
        let t3 = rest;
        let t2 = b2 + t3;
        let t1 = b1 + t2;
        let t0 = b0 + t1;
        let w0 = Self::spec_write_timeout_ms(m, version);
        let w1 = chain(w0, Self::spec_write_topics(m, version));
        let w2 = chain(w1, Self::spec_write_tags(m, version));
        assert(Self::spec_write(m, version) == w2);
        assert(written(w2) + t3 =~= written(w1) + t2);
        assert(written(w1) + t2 =~= written(w0) + t1);
        Self::lemma_round_trip_timeout_ms(m, version, t1);
        Self::lemma_round_trip_topics(m, version, t2);
        Self::lemma_round_trip_tags(m, version, t3);
    }

    /// The default message holds the default value of each field of the schema.
    pub proof fn lemma_default_values()
        ensures
            Self::default_view().timeout_ms == (60000i32),
            (Self::default_view().topics is None),
            Self::default_view().unknown_tagged_fields.len() == 0,
    {
    }

    /// Each integer, boolean and identifier field is written as its standard
    /// big-endian bytes (a boolean as `1` or `0`) in the versions that carry
    /// it, and as nothing in the others; reading it takes those bytes back (any
    /// byte other than `0` reads as `true`), or gives its default value.
    pub proof fn lemma_field_encodings(m: ListPartitionReassignmentsRequestDataView, s: Seq<u8>, version: i16)
        ensures
            true ==> Self::spec_write_timeout_ms(m, version) == Ok::<Seq<u8>, (Error, Seq<u8>)>(u32_bytes(m.timeout_ms as u32)),
            true ==> Self::spec_read_timeout_ms(s, version) == spec_read_i32(s),
    {
        reveal(ListPartitionReassignmentsRequestData::spec_write_timeout_ms);
        reveal(ListPartitionReassignmentsRequestData::spec_read_timeout_ms);
    }

    /// Whether writing `m` in `version` succeeds, said over its parts: the
    /// version is one the schema covers, every field that the version cannot
    /// carry holds its default value, and every string, byte string, array and
    /// tagged field fits its length prefix.
    pub open spec fn writable(m: ListPartitionReassignmentsRequestDataView, version: i16) -> bool {
        &&& 0 <= version <= 0
        &&& (m.topics matches Some(xs) ==> xs.len() <= i32::MAX && all_writable::<ListPartitionReassignmentsTopics>(xs, version))
        &&& m.unknown_tagged_fields.len() <= u32::MAX && tags_fit(m.unknown_tagged_fields)
    }

    proof fn lemma_writable_timeout_ms(m: ListPartitionReassignmentsRequestDataView, version: i16)
        ensures
            Self::spec_write_timeout_ms(m, version) is Ok <==> true,
    {
        reveal(ListPartitionReassignmentsRequestData::spec_write_timeout_ms);
    }

    proof fn lemma_writable_topics(m: ListPartitionReassignmentsRequestDataView, version: i16)
        ensures
            Self::spec_write_topics(m, version) is Ok <==> (m.topics matches Some(xs) ==> xs.len() <= i32::MAX && all_writable::<ListPartitionReassignmentsTopics>(xs, version)),
    {
        reveal(ListPartitionReassignmentsRequestData::spec_write_topics);
        lemma_nullable_array_writable::<ListPartitionReassignmentsTopics>(m.topics, version, true, -1i32);
    }

    proof fn lemma_writable_tags(m: ListPartitionReassignmentsRequestDataView, version: i16)
        ensures
            Self::spec_write_tags(m, version) is Ok <==> m.unknown_tagged_fields.len() <= u32::MAX && tags_fit(m.unknown_tagged_fields),
    {
        reveal(ListPartitionReassignmentsRequestData::spec_write_tags);
        lemma_sorted_tags_fit(m.unknown_tagged_fields);
        lemma_tagged_fields_writable(sorted_by_tag(m.unknown_tagged_fields));
    }

    /// Writing `m` in `version` succeeds exactly when `m` is writable in it;
    /// so do `write` and `encoded_len`, whose results follow `spec_write`.
    #[verifier::rlimit(48)]
    pub proof fn lemma_writable(m: ListPartitionReassignmentsRequestDataView, version: i16)
        ensures
            Self::spec_write(m, version) is Ok <==> Self::writable(m, version),
    {
        Self::lemma_writable_timeout_ms(m, version);
        Self::lemma_writable_topics(m, version);
        Self::lemma_writable_tags(m, version);
    }

    /// A version outside the range that the schema covers is refused, by
    /// reads and by writes alike, before anything is read or written.
    pub proof fn lemma_refused_version(m: ListPartitionReassignmentsRequestDataView, s: Seq<u8>, version: i16)
        requires
            version < 0 || version > 0,
        ensures
            Self::spec_read(s, version) == Err::<(ListPartitionReassignmentsRequestDataView, Seq<u8>), Error>(Error::UnsupportedVersion(UnsupportedVersion { api_key: 46, version })),
            Self::spec_write(m, version) == fail(Error::UnsupportedVersion(UnsupportedVersion { api_key: 46, version })),
    {
    }

    pub fn with_timeout_ms(self, value: i32) -> (r: Self)
        ensures
            r@ == (ListPartitionReassignmentsRequestDataView { timeout_ms: value, ..self@ }),
    {
        let mut r = self;
        r.timeout_ms = value;
        r
    }

    pub fn with_topics(self, value: Option<Vec<ListPartitionReassignmentsTopics>>) -> (r: Self)
        ensures
            r@ == (ListPartitionReassignmentsRequestDataView { topics: opt_views(value), ..self@ }),
    {
        let mut r = self;
        r.topics = value;
        r
    }

    fn read_timeout_ms(buf: &mut Bytes, version: i16) -> (r: Result<i32, Error>)
        ensures
            read_as(Self::spec_read_timeout_ms(bytes_seq(*old(buf)), version), *final(buf), r),
            took_front(*old(buf), *final(buf)),
    {
        proof {
            reveal(ListPartitionReassignmentsRequestData::spec_read_timeout_ms);
        }
        Ok(read_i32(buf)?)
    }

    fn read_topics(buf: &mut Bytes, version: i16) -> (r: Result<Option<Vec<ListPartitionReassignmentsTopics>>, Error>)
        ensures
            read_opt_vec_as(Self::spec_read_topics(bytes_seq(*old(buf)), version), *final(buf), r),
            took_front(*old(buf), *final(buf)),
    {
        proof {
            reveal(ListPartitionReassignmentsRequestData::spec_read_topics);
        }
        Ok(read_nullable_array::<ListPartitionReassignmentsTopics>(buf, version, true)?)
    }

    fn read_tags(buf: &mut Bytes, version: i16) -> (r: Result<Vec<RawTaggedField>, Error>)
        ensures
            read_vec_as(Self::spec_read_tags(bytes_seq(*old(buf)), version), *final(buf), r),
            took_front(*old(buf), *final(buf)),
    {
        proof {
            reveal(ListPartitionReassignmentsRequestData::spec_read_tags);
        }
        Ok(read_tagged_fields(buf)?)
    }

    pub fn read(buf: &mut Bytes, version: i16) -> (r: Result<Self, Error>)
        ensures
            read_as(Self::spec_read(bytes_seq(*old(buf)), version), *final(buf), r),
            took_front(*old(buf), *final(buf)),
            (version < 0 || version > 0) ==> bytes_seq(*final(buf)) == bytes_seq(*old(buf)),
    {
        if version < 0 || version > 0 {
            return Err(Error::UnsupportedVersion(UnsupportedVersion::new(46, version)));
        }
        let timeout_ms = Self::read_timeout_ms(buf, version)?;
        let topics = Self::read_topics(buf, version)?;
        let _unknown_tagged_fields = Self::read_tags(buf, version)?;
        Ok(ListPartitionReassignmentsRequestData {
                timeout_ms: timeout_ms,
                topics: topics,
                _unknown_tagged_fields: _unknown_tagged_fields,
        })
    }

    #[verifier::rlimit(60)]
    pub fn write(&self, buf: &mut BytesMut, version: i16) -> (r: Result<(), Error>)
        requires
            has_room(Self::spec_write(self@, version), *old(buf)),
        ensures
            wrote(Self::spec_write(self@, version), *old(buf), *final(buf), r),
    {
        if version < 0 || version > 0 {
            return Err(Error::UnsupportedVersion(UnsupportedVersion::new(46, version)));
        }
        let ghost m = self@;
        proof {
            reveal(ListPartitionReassignmentsRequestData::spec_write_timeout_ms);
            reveal(ListPartitionReassignmentsRequestData::spec_write_topics);
            reveal(ListPartitionReassignmentsRequestData::spec_write_tags);
        }
        let ghost s0 = Self::spec_write_timeout_ms(m, version);
        let ghost w0 = s0;
        let ghost s1 = Self::spec_write_topics(m, version);
        let ghost w1 = chain(w0, s1);
        let ghost s2 = Self::spec_write_tags(m, version);
        let ghost w2 = chain(w1, s2);
        assert(Self::spec_write(m, version) == w2);
        assert(written(w1).len() <= written(w2).len() && (w1 is Err ==> w2 == w1));
        assert(written(w0).len() <= written(w2).len() && (w0 is Err ==> w2 == w0));
        let ghost mid = bytes_mut_seq(*buf);
        proof {
            lemma_append_empty(mid);
        }
        let r0 = {
            write_i32(buf, self.timeout_ms);
            Ok(())
        };
        assert(bytes_mut_seq(*buf) == mid + written(s0));
        if r0.is_err() {
            return r0;
        }
        let ghost mid = bytes_mut_seq(*buf);
        proof {
            lemma_append_empty(mid);
        }
        let r1 = write_nullable_array::<ListPartitionReassignmentsTopics>(buf, &self.topics, version, true, -1);
        assert(bytes_mut_seq(*buf) == mid + written(s1));
        proof {
            lemma_step(bytes_mut_seq(*old(buf)), w0, s1);
        }
        if r1.is_err() {
            return r1;
        }
        let ghost mid = bytes_mut_seq(*buf);
        proof {
            lemma_append_empty(mid);
        }
        let r2 = write_tagged_fields(buf, &sort_by_tag(&self._unknown_tagged_fields));
        assert(bytes_mut_seq(*buf) == mid + written(s2));
        proof {
            lemma_step(bytes_mut_seq(*old(buf)), w1, s2);
        }
        if r2.is_err() {
            return r2;
        }
        Ok(())
    }

    #[verifier::rlimit(60)]
    pub fn encoded_len(&self, version: i16) -> (r: Result<usize, Error>)
        ensures
            r == len_result(Self::spec_write(self@, version)),
    {
        if version < 0 || version > 0 {
            return Err(Error::UnsupportedVersion(UnsupportedVersion::new(46, version)));
        }
        let ghost m = self@;
        proof {
            reveal(ListPartitionReassignmentsRequestData::spec_write_timeout_ms);
            reveal(ListPartitionReassignmentsRequestData::spec_write_topics);
            reveal(ListPartitionReassignmentsRequestData::spec_write_tags);
        }
        let ghost s0 = Self::spec_write_timeout_ms(m, version);
        let ghost w0 = s0;
        let ghost s1 = Self::spec_write_topics(m, version);
        let ghost w1 = chain(w0, s1);
        let ghost s2 = Self::spec_write_tags(m, version);
        let ghost w2 = chain(w1, s2);
        assert(Self::spec_write(m, version) == w2);
        assert(w1 is Err ==> w2 == w1);
        assert(w0 is Err ==> w2 == w0);
        let mut len: usize = 0;
        let l0 = Ok(4);
        assert(l0 == len_result(s0));
        let n0 = match l0 {
            Ok(n) => n,
            Err(e) => {
                return Err(e);
            },
        };
        len = saturating_sum(len, n0);
        assert(w0 is Ok && len == saturate(written(w0).len() as int));
        let l1 = nullable_array_len::<ListPartitionReassignmentsTopics>(&self.topics, version, true, -1);
        assert(l1 == len_result(s1));
        let n1 = match l1 {
            Ok(n) => n,
            Err(e) => {
                return Err(e);
            },
        };
        proof {
            lemma_len_step(w0, s1, n1);
        }
        len = saturating_sum(len, n1);
        assert(w1 is Ok && len == saturate(written(w1).len() as int));
        let l2 = tagged_fields_len(&sort_by_tag(&self._unknown_tagged_fields));
        assert(l2 == len_result(s2));
        let n2 = match l2 {
            Ok(n) => n,
            Err(e) => {
                return Err(e);
            },
        };
        proof {
            lemma_len_step(w1, s2, n2);
        }
        len = saturating_sum(len, n2);
        assert(w2 is Ok && len == saturate(written(w2).len() as int));
        Ok(len)
    }
}

#[derive(Debug, PartialEq)]
pub struct ListPartitionReassignmentsTopics {
    /// The topic name.
    pub name: KafkaString,
    /// The partitions to list partition reassignments for.
    pub partition_indexes: Vec<i32>,
    pub _unknown_tagged_fields: Vec<RawTaggedField>,
}

/// What a `ListPartitionReassignmentsTopics` holds, as the specification sees it.
#[verifier::ext_equal]
pub struct ListPartitionReassignmentsTopicsView {
    pub name: Seq<u8>,
    pub partition_indexes: Seq<i32>,
    pub unknown_tagged_fields: Seq<(u32, Seq<u8>)>,
}

impl View for ListPartitionReassignmentsTopics {
    type V = ListPartitionReassignmentsTopicsView;

    open spec fn view(&self) -> ListPartitionReassignmentsTopicsView {
        ListPartitionReassignmentsTopicsView {
            name: self.name@,
            partition_indexes: views(self.partition_indexes@),
            unknown_tagged_fields: views(self._unknown_tagged_fields@),
        }
    }
}

impl Clone for ListPartitionReassignmentsTopics {
    fn clone(&self) -> (r: Self)
        ensures
            r@ == self@,
    {
        let r = ListPartitionReassignmentsTopics {
            name: self.name.clone(),
            partition_indexes: clone_vec(&self.partition_indexes),
            _unknown_tagged_fields: clone_vec(&self._unknown_tagged_fields),
        };
        assert(r@ =~= self@);
        r
    }
}

impl ViewClone for ListPartitionReassignmentsTopics {
    fn clone_view(&self) -> (r: Self) {
        self.clone()
    }
}

impl Default for ListPartitionReassignmentsTopics {
    fn default() -> (r: Self)
        ensures
            r@ == Self::default_view(),
    {
        let r = ListPartitionReassignmentsTopics {
            name: KafkaString::default(),
            partition_indexes: empty_vec(),
            _unknown_tagged_fields: empty_vec(),
        };
        assert(r@ =~= Self::default_view());
        r
    }
}

impl ListPartitionReassignmentsTopics {
    pub open spec fn default_view() -> ListPartitionReassignmentsTopicsView {
        ListPartitionReassignmentsTopicsView {
            name: Seq::empty(),
            partition_indexes: Seq::empty(),
            unknown_tagged_fields: Seq::empty(),
        }
    }

    /// The `name` field, read from the front of `s`.
    #[verifier::opaque]
    pub open spec fn spec_read_name(s: Seq<u8>, version: i16) -> ReadOutcome<Seq<u8>> {
        spec_read_compact_string(s)
    }

    /// The `partition_indexes` field, read from the front of `s`.
    #[verifier::opaque]
    pub open spec fn spec_read_partition_indexes(s: Seq<u8>, version: i16) -> ReadOutcome<Seq<i32>> {
        spec_read_array::<Int32Item>(s, version, true)
    }

    /// The tagged fields, read from the front of `s`.
    #[verifier::opaque]
    pub open spec fn spec_read_tags(s: Seq<u8>, version: i16) -> ReadOutcome<Seq<(u32, Seq<u8>)>> {
        spec_read_tagged_fields(s)
    }

    pub open spec fn spec_read(s: Seq<u8>, version: i16) -> ReadOutcome<ListPartitionReassignmentsTopicsView> {
        match (Self::spec_read_name(s, version)) {
            Err(e) => Err(e),
            Ok((name, s)) => match (Self::spec_read_partition_indexes(s, version)) {
                Err(e) => Err(e),
                Ok((partition_indexes, s)) => match (Self::spec_read_tags(s, version)) {
                    Err(e) => Err(e),
                    Ok((unknown_tagged_fields, s)) => Ok((ListPartitionReassignmentsTopicsView {
                                name: name,
                                partition_indexes: partition_indexes,
                                unknown_tagged_fields: unknown_tagged_fields,
                            }, s)),
                },
            },
        }
    }

    /// What writing the `name` field of `m` appends.
    #[verifier::opaque]
    pub open spec fn spec_write_name(m: ListPartitionReassignmentsTopicsView, version: i16) -> WriteOutcome {
        spec_write_compact_string(m.name)
    }

    /// What writing the `partition_indexes` field of `m` appends.
    #[verifier::opaque]
    pub open spec fn spec_write_partition_indexes(m: ListPartitionReassignmentsTopicsView, version: i16) -> WriteOutcome {
        spec_write_array::<Int32Item>(m.partition_indexes, version, true)
    }

    /// What writing the tagged fields of `m` appends.
    #[verifier::opaque]
    pub open spec fn spec_write_tags(m: ListPartitionReassignmentsTopicsView, version: i16) -> WriteOutcome {
        spec_write_tagged_fields(sorted_by_tag(m.unknown_tagged_fields))
    }

    pub open spec fn spec_write(m: ListPartitionReassignmentsTopicsView, version: i16) -> WriteOutcome {
        chain(
            chain(
                Self::spec_write_name(m, version),
                Self::spec_write_partition_indexes(m, version),
            ),
            Self::spec_write_tags(m, version),
        )
    }

    /// Whether reading back what writing `m` in `version` appends gives `m`:
    /// fields that the version does not carry hold their default values, and
    /// tagged fields come in the order in which they are written.
    pub open spec fn canonical(m: ListPartitionReassignmentsTopicsView, version: i16) -> bool {
        &&& tags_in_order(m.unknown_tagged_fields)
    }

    proof fn lemma_round_trip_name(m: ListPartitionReassignmentsTopicsView, version: i16, rest: Seq<u8>)
        requires
            Self::canonical(m, version),
            Self::spec_write_name(m, version) is Ok,
        ensures
            Self::spec_read_name(written(Self::spec_write_name(m, version)) + rest, version) == Ok::<(Seq<u8>, Seq<u8>), Error>((m.name, rest)),
    {
        reveal(ListPartitionReassignmentsTopics::spec_read_name);
        reveal(ListPartitionReassignmentsTopics::spec_write_name);
        lemma_compact_string_round_trip(m.name, rest);
    }

    proof fn lemma_round_trip_partition_indexes(m: ListPartitionReassignmentsTopicsView, version: i16, rest: Seq<u8>)
        requires
            Self::canonical(m, version),
            Self::spec_write_partition_indexes(m, version) is Ok,
        ensures
            Self::spec_read_partition_indexes(written(Self::spec_write_partition_indexes(m, version)) + rest, version) == Ok::<(Seq<i32>, Seq<u8>), Error>((m.partition_indexes, rest)),
    {
        reveal(ListPartitionReassignmentsTopics::spec_read_partition_indexes);
        reveal(ListPartitionReassignmentsTopics::spec_write_partition_indexes);
        lemma_array_round_trip::<Int32Item>(m.partition_indexes, version, true, rest);
    }

    proof fn lemma_round_trip_tags(m: ListPartitionReassignmentsTopicsView, version: i16, rest: Seq<u8>)
        requires
            Self::canonical(m, version),
            Self::spec_write_tags(m, version) is Ok,
        ensures
            Self::spec_read_tags(written(Self::spec_write_tags(m, version)) + rest, version) == Ok::<(Seq<(u32, Seq<u8>)>, Seq<u8>), Error>((m.unknown_tagged_fields, rest)),
    {
        reveal(ListPartitionReassignmentsTopics::spec_read_tags);
        reveal(ListPartitionReassignmentsTopics::spec_write_tags);
        lemma_sorted_by_tag_in_order(m.unknown_tagged_fields);
        lemma_tagged_fields_round_trip(m.unknown_tagged_fields, rest);
    }

    /// Reading back what writing `m` in `version` appends gives `m` again, and
    /// leaves what follows, for every canonical message whose write succeeds.
    #[verifier::rlimit(70)]
    #[verifier::spinoff_prover]
    pub proof fn lemma_round_trip(m: ListPartitionReassignmentsTopicsView, version: i16, rest: Seq<u8>)
        requires
            Self::canonical(m, version),
            Self::spec_write(m, version) is Ok,
        ensures
            Self::spec_read(written(Self::spec_write(m, version)) + rest, version) == Ok::<(ListPartitionReassignmentsTopicsView, Seq<u8>), Error>((m, rest)),
    {
        let b0 = written(Self::spec_write_name(m, version));
        let b1 = written(Self::spec_write_partition_indexes(m, version));
        let b2 = written(Self::spec_write_tags(m, version));
        let t3 = rest;
        let t2 = b2 + t3;
        let t1 = b1 + t2;
        let t0 = b0 + t1;
        let w0 = Self::spec_write_name(m, version);
        let w1 = chain(w0, Self::spec_write_partition_indexes(m, version));
        let w2 = chain(w1, Self::spec_write_tags(m, version));
        assert(Self::spec_write(m, version) == w2);
        assert(written(w2) + t3 =~= written(w1) + t2);
        assert(written(w1) + t2 =~= written(w0) + t1);
        Self::lemma_round_trip_name(m, version, t1);
        Self::lemma_round_trip_partition_indexes(m, version, t2);
        Self::lemma_round_trip_tags(m, version, t3);
    }

    /// The default message holds the default value of each field of the schema.
    pub proof fn lemma_default_values()
        ensures
            Self::default_view().name.len() == 0,
            Self::default_view().partition_indexes.len() == 0,
            Self::default_view().unknown_tagged_fields.len() == 0,
    {
    }

    /// Whether writing `m` in `version` succeeds, said over its parts: the
    /// version is one the schema covers, every field that the version cannot
    /// carry holds its default value, and every string, byte string, array and
    /// tagged field fits its length prefix.
    pub open spec fn writable(m: ListPartitionReassignmentsTopicsView, version: i16) -> bool {
        &&& m.name.len() <= 0x7fff
        &&& (m.partition_indexes.len() <= i32::MAX && all_writable::<Int32Item>(m.partition_indexes, version))
        &&& m.unknown_tagged_fields.len() <= u32::MAX && tags_fit(m.unknown_tagged_fields)
    }

    proof fn lemma_writable_name(m: ListPartitionReassignmentsTopicsView, version: i16)
        ensures
            Self::spec_write_name(m, version) is Ok <==> m.name.len() <= 0x7fff,
    {
        reveal(ListPartitionReassignmentsTopics::spec_write_name);
    }

    proof fn lemma_writable_partition_indexes(m: ListPartitionReassignmentsTopicsView, version: i16)
        ensures
            Self::spec_write_partition_indexes(m, version) is Ok <==> (m.partition_indexes.len() <= i32::MAX && all_writable::<Int32Item>(m.partition_indexes, version)),
    {
        reveal(ListPartitionReassignmentsTopics::spec_write_partition_indexes);
        lemma_array_writable::<Int32Item>(m.partition_indexes, version, true);
    }

    proof fn lemma_writable_tags(m: ListPartitionReassignmentsTopicsView, version: i16)
        ensures
            Self::spec_write_tags(m, version) is Ok <==> m.unknown_tagged_fields.len() <= u32::MAX && tags_fit(m.unknown_tagged_fields),
    {
        reveal(ListPartitionReassignmentsTopics::spec_write_tags);
        lemma_sorted_tags_fit(m.unknown_tagged_fields);
        lemma_tagged_fields_writable(sorted_by_tag(m.unknown_tagged_fields));
    }

    /// Writing `m` in `version` succeeds exactly when `m` is writable in it;
    /// so do `write` and `encoded_len`, whose results follow `spec_write`.
    #[verifier::rlimit(48)]
    pub proof fn lemma_writable(m: ListPartitionReassignmentsTopicsView, version: i16)
        ensures
            Self::spec_write(m, version) is Ok <==> Self::writable(m, version),
    {
        Self::lemma_writable_name(m, version);
        Self::lemma_writable_partition_indexes(m, version);
        Self::lemma_writable_tags(m, version);
    }

    pub fn with_name(self, value: KafkaString) -> (r: Self)
        ensures
            r@ == (ListPartitionReassignmentsTopicsView { name: value@, ..self@ }),
    {
        let mut r = self;
        r.name = value;
        r
    }

    pub fn with_partition_indexes(self, value: Vec<i32>) -> (r: Self)
        ensures
            r@ == (ListPartitionReassignmentsTopicsView { partition_indexes: views(value@), ..self@ }),
    {
        let mut r = self;
        r.partition_indexes = value;
        r
    }

    fn read_name(buf: &mut Bytes, version: i16) -> (r: Result<KafkaString, Error>)
        ensures
            read_as(Self::spec_read_name(bytes_seq(*old(buf)), version), *final(buf), r),
            took_front(*old(buf), *final(buf)),
    {
        proof {
            reveal(ListPartitionReassignmentsTopics::spec_read_name);
        }
        Ok(read_compact_string(buf)?)
    }

    fn read_partition_indexes(buf: &mut Bytes, version: i16) -> (r: Result<Vec<i32>, Error>)
        ensures
            read_vec_as(Self::spec_read_partition_indexes(bytes_seq(*old(buf)), version), *final(buf), r),
            took_front(*old(buf), *final(buf)),
    {
        proof {
            reveal(ListPartitionReassignmentsTopics::spec_read_partition_indexes);
        }
        Ok(read_array::<Int32Item>(buf, version, true)?)
    }

    fn read_tags(buf: &mut Bytes, version: i16) -> (r: Result<Vec<RawTaggedField>, Error>)
        ensures
            read_vec_as(Self::spec_read_tags(bytes_seq(*old(buf)), version), *final(buf), r),
            took_front(*old(buf), *final(buf)),
    {
        proof {
            reveal(ListPartitionReassignmentsTopics::spec_read_tags);
        }
        Ok(read_tagged_fields(buf)?)
    }

    pub fn read(buf: &mut Bytes, version: i16) -> (r: Result<Self, Error>)
        ensures
            read_as(Self::spec_read(bytes_seq(*old(buf)), version), *final(buf), r),
            took_front(*old(buf), *final(buf)),
    {
        let name = Self::read_name(buf, version)?;
        let partition_indexes = Self::read_partition_indexes(buf, version)?;
        let _unknown_tagged_fields = Self::read_tags(buf, version)?;
        Ok(ListPartitionReassignmentsTopics {
                name: name,
                partition_indexes: partition_indexes,
                _unknown_tagged_fields: _unknown_tagged_fields,
        })
    }

    #[verifier::rlimit(60)]
    pub fn write(&self, buf: &mut BytesMut, version: i16) -> (r: Result<(), Error>)
        requires
            has_room(Self::spec_write(self@, version), *old(buf)),
        ensures
            wrote(Self::spec_write(self@, version), *old(buf), *final(buf), r),
    {
        let ghost m = self@;
        proof {
            reveal(ListPartitionReassignmentsTopics::spec_write_name);
            reveal(ListPartitionReassignmentsTopics::spec_write_partition_indexes);
            reveal(ListPartitionReassignmentsTopics::spec_write_tags);
        }
        let ghost s0 = Self::spec_write_name(m, version);
        let ghost w0 = s0;
        let ghost s1 = Self::spec_write_partition_indexes(m, version);
        let ghost w1 = chain(w0, s1);
        let ghost s2 = Self::spec_write_tags(m, version);
        let ghost w2 = chain(w1, s2);
        assert(Self::spec_write(m, version) == w2);
        assert(written(w1).len() <= written(w2).len() && (w1 is Err ==> w2 == w1));
        assert(written(w0).len() <= written(w2).len() && (w0 is Err ==> w2 == w0));
        let ghost mid = bytes_mut_seq(*buf);
        proof {
            lemma_append_empty(mid);
        }
        let r0 = write_compact_string(buf, &self.name);
        assert(bytes_mut_seq(*buf) == mid + written(s0));
        if r0.is_err() {
            return r0;
        }
        let ghost mid = bytes_mut_seq(*buf);
        proof {
            lemma_append_empty(mid);
        }
        let r1 = write_array::<Int32Item>(buf, &self.partition_indexes, version, true);
        assert(bytes_mut_seq(*buf) == mid + written(s1));
        proof {
            lemma_step(bytes_mut_seq(*old(buf)), w0, s1);
        }
        if r1.is_err() {
            return r1;
        }
        let ghost mid = bytes_mut_seq(*buf);
        proof {
            lemma_append_empty(mid);
        }
        let r2 = write_tagged_fields(buf, &sort_by_tag(&self._unknown_tagged_fields));
        assert(bytes_mut_seq(*buf) == mid + written(s2));
        proof {
            lemma_step(bytes_mut_seq(*old(buf)), w1, s2);
        }
        if r2.is_err() {
            return r2;
        }
        Ok(())
    }

    #[verifier::rlimit(60)]
    pub fn encoded_len(&self, version: i16) -> (r: Result<usize, Error>)
        ensures
            r == len_result(Self::spec_write(self@, version)),
    {
        let ghost m = self@;
        proof {
            reveal(ListPartitionReassignmentsTopics::spec_write_name);
            reveal(ListPartitionReassignmentsTopics::spec_write_partition_indexes);
            reveal(ListPartitionReassignmentsTopics::spec_write_tags);
        }
        let ghost s0 = Self::spec_write_name(m, version);
        let ghost w0 = s0;
        let ghost s1 = Self::spec_write_partition_indexes(m, version);
        let ghost w1 = chain(w0, s1);
        let ghost s2 = Self::spec_write_tags(m, version);
        let ghost w2 = chain(w1, s2);
        assert(Self::spec_write(m, version) == w2);
        assert(w1 is Err ==> w2 == w1);
        assert(w0 is Err ==> w2 == w0);
        let mut len: usize = 0;
        let l0 = compact_string_len(&self.name);
        assert(l0 == len_result(s0));
        let n0 = match l0 {
            Ok(n) => n,
            Err(e) => {
                return Err(e);
            },
        };
        len = saturating_sum(len, n0);
        assert(w0 is Ok && len == saturate(written(w0).len() as int));
        let l1 = array_len::<Int32Item>(&self.partition_indexes, version, true);
        assert(l1 == len_result(s1));
        let n1 = match l1 {
            Ok(n) => n,
            Err(e) => {
                return Err(e);
            },
        };
        proof {
            lemma_len_step(w0, s1, n1);
        }
        len = saturating_sum(len, n1);
        assert(w1 is Ok && len == saturate(written(w1).len() as int));
        let l2 = tagged_fields_len(&sort_by_tag(&self._unknown_tagged_fields));
        assert(l2 == len_result(s2));
        let n2 = match l2 {
            Ok(n) => n,
            Err(e) => {
                return Err(e);
            },
        };
        proof {
            lemma_len_step(w1, s2, n2);
        }
        len = saturating_sum(len, n2);
        assert(w2 is Ok && len == saturate(written(w2).len() as int));
        Ok(len)
    }
}

impl Codec for ListPartitionReassignmentsTopics {
    type Item = ListPartitionReassignmentsTopics;

    open spec fn spec_read_item(s: Seq<u8>, version: i16) -> ReadOutcome<ListPartitionReassignmentsTopicsView> {
        ListPartitionReassignmentsTopics::spec_read(s, version)
    }

    open spec fn spec_write_item(v: ListPartitionReassignmentsTopicsView, version: i16) -> WriteOutcome {
        ListPartitionReassignmentsTopics::spec_write(v, version)
    }

    open spec fn canonical_item(v: ListPartitionReassignmentsTopicsView, version: i16) -> bool {
        ListPartitionReassignmentsTopics::canonical(v, version)
    }

    proof fn lemma_item_round_trip(v: ListPartitionReassignmentsTopicsView, version: i16, rest: Seq<u8>) {
        ListPartitionReassignmentsTopics::lemma_round_trip(v, version, rest);
    }

    open spec fn writable_item(v: ListPartitionReassignmentsTopicsView, version: i16) -> bool {
        ListPartitionReassignmentsTopics::writable(v, version)
    }

    proof fn lemma_item_writable(v: ListPartitionReassignmentsTopicsView, version: i16) {
        ListPartitionReassignmentsTopics::lemma_writable(v, version);
    }

    fn read_item(buf: &mut Bytes, version: i16) -> (r: Result<ListPartitionReassignmentsTopics, Error>) {
        ListPartitionReassignmentsTopics::read(buf, version)
    }

    fn write_item(item: &ListPartitionReassignmentsTopics, buf: &mut BytesMut, version: i16) -> (r: Result<(), Error>) {
        item.write(buf, version)
    }
}

impl MeasuredCodec for ListPartitionReassignmentsTopics {
    fn item_len(item: &ListPartitionReassignmentsTopics, version: i16) -> (r: Result<usize, Error>) {
        item.encoded_len(version)
    }
}

} // verus!
