//! The list transactions request message.
use crate::buffer::{bytes_mut_seq, bytes_seq};
use crate::codec::{CompactStringItem, Int64Item, all_writable, lemma_array_round_trip, lemma_array_writable, read_array, spec_read_array, spec_write_array, write_array};
use crate::error::{Error, UnsupportedVersion};
use crate::ints::{lemma_i64_roundtrip, read_i64, spec_read_i64, spec_write_i64, u64_bytes, write_i64};
use crate::strings::{lemma_compact_nullable_string_round_trip, read_compact_nullable_string, spec_read_compact_nullable_string, spec_write_compact_nullable_string, write_compact_nullable_string};
use crate::tagged::{lemma_sorted_by_tag_in_order, lemma_sorted_tags_fit, lemma_tagged_fields_round_trip, lemma_tagged_fields_writable, read_tagged_fields, sort_by_tag, sorted_by_tag, spec_read_tagged_fields, spec_write_tagged_fields, tags_fit, tags_in_order, write_tagged_fields};
use crate::types::{KafkaString, RawTaggedField};
use crate::wire::{ReadOutcome, ViewClone, WriteOutcome, chain, clone_vec, emit, empty_vec, fail, has_room, lemma_append_empty, lemma_chain_written, lemma_step, opt_view, read_as, read_opt_as, read_vec_as, took_front, views, written, wrote};
use bytes::{Bytes, BytesMut};
use vstd::prelude::*;

verus! {

broadcast use {crate::wire::lemma_chain_written, crate::wire::lemma_took_front_nothing, crate::wire::lemma_took_front_twice};

#[derive(Debug, PartialEq)]
pub struct ListTransactionsRequestData {
    /// The transaction states to filter by: if empty, all transactions are returned; if non-empty,
    /// then only transactions matching one of the filtered states will be returned.
    pub state_filters: Vec<KafkaString>,
    /// The producerIds to filter by: if empty, all transactions will be returned; if non-empty,
    /// only transactions which match one of the filtered producerIds will be returned.
    pub producer_id_filters: Vec<i64>,
    /// Duration (in millis) to filter by: if < 0, all transactions will be returned; otherwise,
    /// only transactions running longer than this duration will be returned.
    pub duration_filter: i64,
    /// The transactional ID regular expression pattern to filter by: if it is empty or null, all
    /// transactions are returned; Otherwise then only the transactions matching the given regular
    /// expression will be returned.
    pub transactional_id_pattern: Option<KafkaString>,
    pub _unknown_tagged_fields: Vec<RawTaggedField>,
}

/// What a `ListTransactionsRequestData` holds, as the specification sees it.
#[verifier::ext_equal]
pub struct ListTransactionsRequestDataView {
    pub state_filters: Seq<Seq<u8>>,
    pub producer_id_filters: Seq<i64>,
    pub duration_filter: i64,
    pub transactional_id_pattern: Option<Seq<u8>>,
    pub unknown_tagged_fields: Seq<(u32, Seq<u8>)>,
}

impl View for ListTransactionsRequestData {
    type V = ListTransactionsRequestDataView;

    open spec fn view(&self) -> ListTransactionsRequestDataView {
        ListTransactionsRequestDataView {
            state_filters: views(self.state_filters@),
            producer_id_filters: views(self.producer_id_filters@),
            duration_filter: self.duration_filter,
            transactional_id_pattern: opt_view(self.transactional_id_pattern),
            unknown_tagged_fields: views(self._unknown_tagged_fields@),
        }
    }
}

impl Clone for ListTransactionsRequestData {
    fn clone(&self) -> (r: Self)
        ensures
            r@ == self@,
    {
        let r = ListTransactionsRequestData {
            state_filters: clone_vec(&self.state_filters),
            producer_id_filters: clone_vec(&self.producer_id_filters),
            duration_filter: self.duration_filter,
            transactional_id_pattern: match &self.transactional_id_pattern {
                Some(x) => Some(x.clone()),
                None => None,
            },
            _unknown_tagged_fields: clone_vec(&self._unknown_tagged_fields),
        };
        assert(r@ =~= self@);
        r
    }
}

impl ViewClone for ListTransactionsRequestData {
    fn clone_view(&self) -> (r: Self) {
        self.clone()
    }
}

impl Default for ListTransactionsRequestData {
    fn default() -> (r: Self)
        ensures
            r@ == Self::default_view(),
    {
        let r = ListTransactionsRequestData {
            state_filters: empty_vec(),
            producer_id_filters: empty_vec(),
            duration_filter: -1i64,
            transactional_id_pattern: None,
            _unknown_tagged_fields: empty_vec(),
        };
        assert(r@ =~= Self::default_view());
        r
    }
}

impl ListTransactionsRequestData {
    pub open spec fn default_view() -> ListTransactionsRequestDataView {
        ListTransactionsRequestDataView {
            state_filters: Seq::empty(),
            producer_id_filters: Seq::empty(),
            duration_filter: -1i64,
            transactional_id_pattern: None,
            unknown_tagged_fields: Seq::empty(),
        }
    }

    /// The `state_filters` field, read from the front of `s`.
    #[verifier::opaque]
    pub open spec fn spec_read_state_filters(s: Seq<u8>, version: i16) -> ReadOutcome<Seq<Seq<u8>>> {
        spec_read_array::<CompactStringItem>(s, version, true)
    }

    /// The `producer_id_filters` field, read from the front of `s`.
    #[verifier::opaque]
    pub open spec fn spec_read_producer_id_filters(s: Seq<u8>, version: i16) -> ReadOutcome<Seq<i64>> {
        spec_read_array::<Int64Item>(s, version, true)
    }

    /// The `duration_filter` field, read from the front of `s`.
    #[verifier::opaque]
    pub open spec fn spec_read_duration_filter(s: Seq<u8>, version: i16) -> ReadOutcome<i64> {
        if version >= 1 {
            spec_read_i64(s)
        } else {
            Ok((-1i64, s))
        }
    }

    /// The `transactional_id_pattern` field, read from the front of `s`.
    #[verifier::opaque]
    pub open spec fn spec_read_transactional_id_pattern(s: Seq<u8>, version: i16) -> ReadOutcome<Option<Seq<u8>>> {
        if version >= 2 {
            spec_read_compact_nullable_string(s)
        } else {
            Ok((None, s))
        }
    }

    /// The tagged fields, read from the front of `s`.
    #[verifier::opaque]
    pub open spec fn spec_read_tags(s: Seq<u8>, version: i16) -> ReadOutcome<Seq<(u32, Seq<u8>)>> {
        spec_read_tagged_fields(s)
    }

    pub open spec fn spec_read(s: Seq<u8>, version: i16) -> ReadOutcome<ListTransactionsRequestDataView> {
        if version < 0 || version > 2 {
            Err(Error::UnsupportedVersion(UnsupportedVersion { api_key: 66, version }))
        } else {
            match (Self::spec_read_state_filters(s, version)) {
                Err(e) => Err(e),
                Ok((state_filters, s)) => match (Self::spec_read_producer_id_filters(s, version)) {
                    Err(e) => Err(e),
                    Ok((producer_id_filters, s)) => match (Self::spec_read_duration_filter(s, version)) {
                        Err(e) => Err(e),
                        Ok((duration_filter, s)) => match (Self::spec_read_transactional_id_pattern(s, version)) {
                            Err(e) => Err(e),
                            Ok((transactional_id_pattern, s)) => match (Self::spec_read_tags(s, version)) {
                                Err(e) => Err(e),
                                Ok((unknown_tagged_fields, s)) => Ok((ListTransactionsRequestDataView {
                                            state_filters: state_filters,
                                            producer_id_filters: producer_id_filters,
                                            duration_filter: duration_filter,
                                            transactional_id_pattern: transactional_id_pattern,
                                            unknown_tagged_fields: unknown_tagged_fields,
                                        }, s)),
                            },
                        },
                    },
                },
            }
        }
    }

    /// What writing the `state_filters` field of `m` appends.
    #[verifier::opaque]
    pub open spec fn spec_write_state_filters(m: ListTransactionsRequestDataView, version: i16) -> WriteOutcome {
        spec_write_array::<CompactStringItem>(m.state_filters, version, true)
    }

    /// What writing the `producer_id_filters` field of `m` appends.
    #[verifier::opaque]
    pub open spec fn spec_write_producer_id_filters(m: ListTransactionsRequestDataView, version: i16) -> WriteOutcome {
        spec_write_array::<Int64Item>(m.producer_id_filters, version, true)
    }

    /// What writing the `duration_filter` field of `m` appends.
    #[verifier::opaque]
    pub open spec fn spec_write_duration_filter(m: ListTransactionsRequestDataView, version: i16) -> WriteOutcome {
        if version >= 1 {
            spec_write_i64(m.duration_filter)
        } else {
            emit(Seq::empty())
        }
    }

    /// What writing the `transactional_id_pattern` field of `m` appends.
    #[verifier::opaque]
    pub open spec fn spec_write_transactional_id_pattern(m: ListTransactionsRequestDataView, version: i16) -> WriteOutcome {
        if version >= 2 {
            spec_write_compact_nullable_string(m.transactional_id_pattern)
        } else {
            emit(Seq::empty())
        }
    }

    /// What writing the tagged fields of `m` appends.
    #[verifier::opaque]
    pub open spec fn spec_write_tags(m: ListTransactionsRequestDataView, version: i16) -> WriteOutcome {
        spec_write_tagged_fields(sorted_by_tag(m.unknown_tagged_fields))
    }

    pub open spec fn spec_write(m: ListTransactionsRequestDataView, version: i16) -> WriteOutcome {
        if version < 0 || version > 2 {
            fail(Error::UnsupportedVersion(UnsupportedVersion { api_key: 66, version }))
        } else {
            chain(
                chain(
                    chain(
                        chain(
                            Self::spec_write_state_filters(m, version),
                            Self::spec_write_producer_id_filters(m, version),
                        ),
                        Self::spec_write_duration_filter(m, version),
                    ),
                    Self::spec_write_transactional_id_pattern(m, version),
                ),
                Self::spec_write_tags(m, version),
            )
        }
    }

    /// Whether reading back what writing `m` in `version` appends gives `m`:
    /// fields that the version does not carry hold their default values, and
    /// tagged fields come in the order in which they are written.
    pub open spec fn canonical(m: ListTransactionsRequestDataView, version: i16) -> bool {
        &&& (if version >= 1 {
                true
            } else {
                m.duration_filter == -1i64
        })
        &&& (if version >= 2 {
                true
            } else {
                m.transactional_id_pattern is None
        })
        &&& tags_in_order(m.unknown_tagged_fields)
    }

    proof fn lemma_round_trip_state_filters(m: ListTransactionsRequestDataView, version: i16, rest: Seq<u8>)
        requires
            Self::canonical(m, version),
            Self::spec_write_state_filters(m, version) is Ok,
        ensures
            Self::spec_read_state_filters(written(Self::spec_write_state_filters(m, version)) + rest, version) == Ok::<(Seq<Seq<u8>>, Seq<u8>), Error>((m.state_filters, rest)),
    {
        reveal(ListTransactionsRequestData::spec_read_state_filters);
        reveal(ListTransactionsRequestData::spec_write_state_filters);
        lemma_array_round_trip::<CompactStringItem>(m.state_filters, version, true, rest);
    }

    proof fn lemma_round_trip_producer_id_filters(m: ListTransactionsRequestDataView, version: i16, rest: Seq<u8>)
        requires
            Self::canonical(m, version),
            Self::spec_write_producer_id_filters(m, version) is Ok,
        ensures
            Self::spec_read_producer_id_filters(written(Self::spec_write_producer_id_filters(m, version)) + rest, version) == Ok::<(Seq<i64>, Seq<u8>), Error>((m.producer_id_filters, rest)),
    {
        reveal(ListTransactionsRequestData::spec_read_producer_id_filters);
        reveal(ListTransactionsRequestData::spec_write_producer_id_filters);
        lemma_array_round_trip::<Int64Item>(m.producer_id_filters, version, true, rest);
    }

    proof fn lemma_round_trip_duration_filter(m: ListTransactionsRequestDataView, version: i16, rest: Seq<u8>)
        requires
            Self::canonical(m, version),
            Self::spec_write_duration_filter(m, version) is Ok,
        ensures
            Self::spec_read_duration_filter(written(Self::spec_write_duration_filter(m, version)) + rest, version) == Ok::<(i64, Seq<u8>), Error>((m.duration_filter, rest)),
    {
        reveal(ListTransactionsRequestData::spec_read_duration_filter);
        reveal(ListTransactionsRequestData::spec_write_duration_filter);
        if version >= 1 {
            lemma_i64_roundtrip(m.duration_filter, rest);
        } else {
            assert(Seq::<u8>::empty() + rest =~= rest);
        }
    }

    proof fn lemma_round_trip_transactional_id_pattern(m: ListTransactionsRequestDataView, version: i16, rest: Seq<u8>)
        requires
            Self::canonical(m, version),
            Self::spec_write_transactional_id_pattern(m, version) is Ok,
        ensures
            Self::spec_read_transactional_id_pattern(written(Self::spec_write_transactional_id_pattern(m, version)) + rest, version) == Ok::<(Option<Seq<u8>>, Seq<u8>), Error>((m.transactional_id_pattern, rest)),
    {
        reveal(ListTransactionsRequestData::spec_read_transactional_id_pattern);
        reveal(ListTransactionsRequestData::spec_write_transactional_id_pattern);
        if version >= 2 {
            lemma_compact_nullable_string_round_trip(m.transactional_id_pattern, rest);
        } else {
            assert(Seq::<u8>::empty() + rest =~= rest);
        }
    }

    proof fn lemma_round_trip_tags(m: ListTransactionsRequestDataView, version: i16, rest: Seq<u8>)
        requires
            Self::canonical(m, version),
            Self::spec_write_tags(m, version) is Ok,
        ensures
            Self::spec_read_tags(written(Self::spec_write_tags(m, version)) + rest, version) == Ok::<(Seq<(u32, Seq<u8>)>, Seq<u8>), Error>((m.unknown_tagged_fields, rest)),
    {
        reveal(ListTransactionsRequestData::spec_read_tags);
        reveal(ListTransactionsRequestData::spec_write_tags);
        lemma_sorted_by_tag_in_order(m.unknown_tagged_fields);
        lemma_tagged_fields_round_trip(m.unknown_tagged_fields, rest);
    }

    /// Reading back what writing `m` in `version` appends gives `m` again, and
    /// leaves what follows, for every canonical message whose write succeeds.
    #[verifier::rlimit(90)]
    #[verifier::spinoff_prover]
    pub proof fn lemma_round_trip(m: ListTransactionsRequestDataView, version: i16, rest: Seq<u8>)
        requires
            Self::canonical(m, version),
            Self::spec_write(m, version) is Ok,
        ensures
            Self::spec_read(written(Self::spec_write(m, version)) + rest, version) == Ok::<(ListTransactionsRequestDataView, Seq<u8>), Error>((m, rest)),
    {
        let b0 = written(Self::spec_write_state_filters(m, version));
        let b1 = written(Self::spec_write_producer_id_filters(m, version));
        let b2 = written(Self::spec_write_duration_filter(m, version));
        let b3 = written(Self::spec_write_transactional_id_pattern(m, version));
        let b4 = written(Self::spec_write_tags(m, version));
        let t5 = rest;
        let t4 = b4 + t5;
        let t3 = b3 + t4;
        let t2 = b2 + t3;
        let t1 = b1 + t2;
        let t0 = b0 + t1;
        let w0 = Self::spec_write_state_filters(m, version);
        let w1 = chain(w0, Self::spec_write_producer_id_filters(m, version));
        let w2 = chain(w1, Self::spec_write_duration_filter(m, version));
        let w3 = chain(w2, Self::spec_write_transactional_id_pattern(m, version));
        let w4 = chain(w3, Self::spec_write_tags(m, version));
        assert(Self::spec_write(m, version) == w4);
        assert(written(w4) + t5 =~= written(w3) + t4);
        assert(written(w3) + t4 =~= written(w2) + t3);
        assert(written(w2) + t3 =~= written(w1) + t2);
        assert(written(w1) + t2 =~= written(w0) + t1);
        Self::lemma_round_trip_state_filters(m, version, t1);
        Self::lemma_round_trip_producer_id_filters(m, version, t2);
        Self::lemma_round_trip_duration_filter(m, version, t3);
        Self::lemma_round_trip_transactional_id_pattern(m, version, t4);
        Self::lemma_round_trip_tags(m, version, t5);
    }

    /// In a version that does not carry `duration_filter`, writing ignores its value.
    pub proof fn lemma_write_ignores_duration_filter(m: ListTransactionsRequestDataView, value: i64, version: i16)
        requires
            !(version >= 1),
        ensures
            Self::spec_write((ListTransactionsRequestDataView { duration_filter: value, ..m }), version) == Self::spec_write(m, version),
    {
        reveal(ListTransactionsRequestData::spec_write_state_filters);
        reveal(ListTransactionsRequestData::spec_write_producer_id_filters);
        reveal(ListTransactionsRequestData::spec_write_duration_filter);
        reveal(ListTransactionsRequestData::spec_write_transactional_id_pattern);
        reveal(ListTransactionsRequestData::spec_write_tags);
    }

    /// In a version that does not carry `transactional_id_pattern`, writing ignores its value.
    pub proof fn lemma_write_ignores_transactional_id_pattern(m: ListTransactionsRequestDataView, value: Option<Seq<u8>>, version: i16)
        requires
            !(version >= 2),
        ensures
            Self::spec_write((ListTransactionsRequestDataView { transactional_id_pattern: value, ..m }), version) == Self::spec_write(m, version),
    {
        reveal(ListTransactionsRequestData::spec_write_state_filters);
        reveal(ListTransactionsRequestData::spec_write_producer_id_filters);
        reveal(ListTransactionsRequestData::spec_write_duration_filter);
        reveal(ListTransactionsRequestData::spec_write_transactional_id_pattern);
        reveal(ListTransactionsRequestData::spec_write_tags);
    }

    /// The default message holds the default value of each field of the schema.
    pub proof fn lemma_default_values()
        ensures
            Self::default_view().state_filters.len() == 0,
            Self::default_view().producer_id_filters.len() == 0,
            Self::default_view().duration_filter == (-1i64),
            (Self::default_view().transactional_id_pattern is None),
            Self::default_view().unknown_tagged_fields.len() == 0,
    {
    }

    /// Each integer, boolean and identifier field is written as its standard
    /// big-endian bytes (a boolean as `1` or `0`) in the versions that carry
    /// it, and as nothing in the others; reading it takes those bytes back (any
    /// byte other than `0` reads as `true`), or gives its default value.
    pub proof fn lemma_field_encodings(m: ListTransactionsRequestDataView, s: Seq<u8>, version: i16)
        ensures
            version >= 1 ==> Self::spec_write_duration_filter(m, version) == Ok::<Seq<u8>, (Error, Seq<u8>)>(u64_bytes(m.duration_filter as u64)),
            !(version >= 1) ==> Self::spec_write_duration_filter(m, version) == Ok::<Seq<u8>, (Error, Seq<u8>)>(Seq::empty()),
            !(version >= 2) ==> Self::spec_write_transactional_id_pattern(m, version) == Ok::<Seq<u8>, (Error, Seq<u8>)>(Seq::empty()),
            version >= 1 ==> Self::spec_read_duration_filter(s, version) == spec_read_i64(s),
            !(version >= 1) ==> Self::spec_read_duration_filter(s, version) == Ok::<(i64, Seq<u8>), Error>((-1i64, s)),
    {
        reveal(ListTransactionsRequestData::spec_write_duration_filter);
        reveal(ListTransactionsRequestData::spec_read_duration_filter);
        reveal(ListTransactionsRequestData::spec_write_transactional_id_pattern);
        reveal(ListTransactionsRequestData::spec_read_transactional_id_pattern);
    }

    /// Whether writing `m` in `version` succeeds, said over its parts: the
    /// version is one the schema covers, every field that the version cannot
    /// carry holds its default value, and every string, byte string, array and
    /// tagged field fits its length prefix.
    pub open spec fn writable(m: ListTransactionsRequestDataView, version: i16) -> bool {
        &&& 0 <= version <= 2
        &&& (m.state_filters.len() <= i32::MAX && all_writable::<CompactStringItem>(m.state_filters, version))
        &&& (m.producer_id_filters.len() <= i32::MAX && all_writable::<Int64Item>(m.producer_id_filters, version))
        &&& (if version >= 2 {
                (m.transactional_id_pattern matches Some(b) ==> b.len() <= 0x7fff)
            } else {
                true
        })
        &&& m.unknown_tagged_fields.len() <= u32::MAX && tags_fit(m.unknown_tagged_fields)
    }

    proof fn lemma_writable_state_filters(m: ListTransactionsRequestDataView, version: i16)
        ensures
            Self::spec_write_state_filters(m, version) is Ok <==> (m.state_filters.len() <= i32::MAX && all_writable::<CompactStringItem>(m.state_filters, version)),
    {
        reveal(ListTransactionsRequestData::spec_write_state_filters);
        lemma_array_writable::<CompactStringItem>(m.state_filters, version, true);
    }

    proof fn lemma_writable_producer_id_filters(m: ListTransactionsRequestDataView, version: i16)
        ensures
            Self::spec_write_producer_id_filters(m, version) is Ok <==> (m.producer_id_filters.len() <= i32::MAX && all_writable::<Int64Item>(m.producer_id_filters, version)),
    {
        reveal(ListTransactionsRequestData::spec_write_producer_id_filters);
        lemma_array_writable::<Int64Item>(m.producer_id_filters, version, true);
    }

    proof fn lemma_writable_duration_filter(m: ListTransactionsRequestDataView, version: i16)
        ensures
            Self::spec_write_duration_filter(m, version) is Ok <==> true,
    {
        reveal(ListTransactionsRequestData::spec_write_duration_filter);
    }

    proof fn lemma_writable_transactional_id_pattern(m: ListTransactionsRequestDataView, version: i16)
        ensures
            Self::spec_write_transactional_id_pattern(m, version) is Ok <==> (if version >= 2 { (m.transactional_id_pattern matches Some(b) ==> b.len() <= 0x7fff) } else { true }),
    {
        reveal(ListTransactionsRequestData::spec_write_transactional_id_pattern);
    }

    proof fn lemma_writable_tags(m: ListTransactionsRequestDataView, version: i16)
        ensures
            Self::spec_write_tags(m, version) is Ok <==> m.unknown_tagged_fields.len() <= u32::MAX && tags_fit(m.unknown_tagged_fields),
    {
        reveal(ListTransactionsRequestData::spec_write_tags);
        lemma_sorted_tags_fit(m.unknown_tagged_fields);
        lemma_tagged_fields_writable(sorted_by_tag(m.unknown_tagged_fields));
    }

    /// Writing `m` in `version` succeeds exactly when `m` is writable in it;
    /// so do `write` and `encoded_len`, whose results follow `spec_write`.
    #[verifier::rlimit(60)]
    pub proof fn lemma_writable(m: ListTransactionsRequestDataView, version: i16)
        ensures
            Self::spec_write(m, version) is Ok <==> Self::writable(m, version),
    {
        Self::lemma_writable_state_filters(m, version);
        Self::lemma_writable_producer_id_filters(m, version);
        Self::lemma_writable_duration_filter(m, version);
        Self::lemma_writable_transactional_id_pattern(m, version);
        Self::lemma_writable_tags(m, version);
    }

    /// A version outside the range that the schema covers is refused, by
    /// reads and by writes alike, before anything is read or written.
    pub proof fn lemma_refused_version(m: ListTransactionsRequestDataView, s: Seq<u8>, version: i16)
        requires
            version < 0 || version > 2,
        ensures
            Self::spec_read(s, version) == Err::<(ListTransactionsRequestDataView, Seq<u8>), Error>(Error::UnsupportedVersion(UnsupportedVersion { api_key: 66, version })),
            Self::spec_write(m, version) == fail(Error::UnsupportedVersion(UnsupportedVersion { api_key: 66, version })),
    {
    }

    fn read_state_filters(buf: &mut Bytes, version: i16) -> (r: Result<Vec<KafkaString>, Error>)
        ensures
            read_vec_as(Self::spec_read_state_filters(bytes_seq(*old(buf)), version), *final(buf), r),
            took_front(*old(buf), *final(buf)),
    {
        proof {
            reveal(ListTransactionsRequestData::spec_read_state_filters);
        }
        Ok(read_array::<CompactStringItem>(buf, version, true)?)
    }

    fn read_producer_id_filters(buf: &mut Bytes, version: i16) -> (r: Result<Vec<i64>, Error>)
        ensures
            read_vec_as(Self::spec_read_producer_id_filters(bytes_seq(*old(buf)), version), *final(buf), r),
            took_front(*old(buf), *final(buf)),
    {
        proof {
            reveal(ListTransactionsRequestData::spec_read_producer_id_filters);
        }
        Ok(read_array::<Int64Item>(buf, version, true)?)
    }

    fn read_duration_filter(buf: &mut Bytes, version: i16) -> (r: Result<i64, Error>)
        ensures
            read_as(Self::spec_read_duration_filter(bytes_seq(*old(buf)), version), *final(buf), r),
            took_front(*old(buf), *final(buf)),
    {
        proof {
            reveal(ListTransactionsRequestData::spec_read_duration_filter);
        }
        Ok(if version >= 1 {
                read_i64(buf)?
            } else {
                -1i64
        })
    }

    fn read_transactional_id_pattern(buf: &mut Bytes, version: i16) -> (r: Result<Option<KafkaString>, Error>)
        ensures
            read_opt_as(Self::spec_read_transactional_id_pattern(bytes_seq(*old(buf)), version), *final(buf), r),
            took_front(*old(buf), *final(buf)),
    {
        proof {
            reveal(ListTransactionsRequestData::spec_read_transactional_id_pattern);
        }
        Ok(if version >= 2 {
                read_compact_nullable_string(buf)?
            } else {
                None
        })
    }

    fn read_tags(buf: &mut Bytes, version: i16) -> (r: Result<Vec<RawTaggedField>, Error>)
        ensures
            read_vec_as(Self::spec_read_tags(bytes_seq(*old(buf)), version), *final(buf), r),
            took_front(*old(buf), *final(buf)),
    {
        proof {
            reveal(ListTransactionsRequestData::spec_read_tags);
        }
        Ok(read_tagged_fields(buf)?)
    }

    pub fn read(buf: &mut Bytes, version: i16) -> (r: Result<Self, Error>)
        ensures
            read_as(Self::spec_read(bytes_seq(*old(buf)), version), *final(buf), r),
            took_front(*old(buf), *final(buf)),
            (version < 0 || version > 2) ==> bytes_seq(*final(buf)) == bytes_seq(*old(buf)),
    {
        if version < 0 || version > 2 {
            return Err(Error::UnsupportedVersion(UnsupportedVersion::new(66, version)));
        }
        let state_filters = Self::read_state_filters(buf, version)?;
        let producer_id_filters = Self::read_producer_id_filters(buf, version)?;
        let duration_filter = Self::read_duration_filter(buf, version)?;
        let transactional_id_pattern = Self::read_transactional_id_pattern(buf, version)?;
        let _unknown_tagged_fields = Self::read_tags(buf, version)?;
        Ok(ListTransactionsRequestData {
                state_filters: state_filters,
                producer_id_filters: producer_id_filters,
                duration_filter: duration_filter,
                transactional_id_pattern: transactional_id_pattern,
                _unknown_tagged_fields: _unknown_tagged_fields,
        })
    }

    #[verifier::rlimit(80)]
    pub fn write(&self, buf: &mut BytesMut, version: i16) -> (r: Result<(), Error>)
        requires
            has_room(Self::spec_write(self@, version), *old(buf)),
        ensures
            wrote(Self::spec_write(self@, version), *old(buf), *final(buf), r),
    {
        if version < 0 || version > 2 {
            return Err(Error::UnsupportedVersion(UnsupportedVersion::new(66, version)));
        }
        let ghost m = self@;
        proof {
            reveal(ListTransactionsRequestData::spec_write_state_filters);
            reveal(ListTransactionsRequestData::spec_write_producer_id_filters);
            reveal(ListTransactionsRequestData::spec_write_duration_filter);
            reveal(ListTransactionsRequestData::spec_write_transactional_id_pattern);
            reveal(ListTransactionsRequestData::spec_write_tags);
        }
        let ghost s0 = Self::spec_write_state_filters(m, version);
        let ghost w0 = s0;
        let ghost s1 = Self::spec_write_producer_id_filters(m, version);
        let ghost w1 = chain(w0, s1);
        let ghost s2 = Self::spec_write_duration_filter(m, version);
        let ghost w2 = chain(w1, s2);
        let ghost s3 = Self::spec_write_transactional_id_pattern(m, version);
        let ghost w3 = chain(w2, s3);
        let ghost s4 = Self::spec_write_tags(m, version);
        let ghost w4 = chain(w3, s4);
        assert(Self::spec_write(m, version) == w4);
        assert(written(w3).len() <= written(w4).len() && (w3 is Err ==> w4 == w3));
        assert(written(w2).len() <= written(w4).len() && (w2 is Err ==> w4 == w2));
        assert(written(w1).len() <= written(w4).len() && (w1 is Err ==> w4 == w1));
        assert(written(w0).len() <= written(w4).len() && (w0 is Err ==> w4 == w0));
        let ghost mid = bytes_mut_seq(*buf);
        proof {
            lemma_append_empty(mid);
        }
        let r0 = write_array::<CompactStringItem>(buf, &self.state_filters, version, true);
        assert(bytes_mut_seq(*buf) == mid + written(s0));
        if r0.is_err() {
            return r0;
        }
        let ghost mid = bytes_mut_seq(*buf);
        proof {
            lemma_append_empty(mid);
        }
        let r1 = write_array::<Int64Item>(buf, &self.producer_id_filters, version, true);
        assert(bytes_mut_seq(*buf) == mid + written(s1));
        proof {
            lemma_step(bytes_mut_seq(*old(buf)), w0, s1);
        }
        if r1.is_err() {
            return r1;
        }
        let ghost mid = bytes_mut_seq(*buf);
        proof {
            lemma_append_empty(mid);
        }
        let r2 = if version >= 1 {
            {
                write_i64(buf, self.duration_filter);
                Ok(())
            }
        } else {
            Ok(())
        };
        assert(bytes_mut_seq(*buf) == mid + written(s2));
        proof {
            lemma_step(bytes_mut_seq(*old(buf)), w1, s2);
        }
        if r2.is_err() {
            return r2;
        }
        let ghost mid = bytes_mut_seq(*buf);
        proof {
            lemma_append_empty(mid);
        }
        let r3 = if version >= 2 {
            write_compact_nullable_string(buf, &self.transactional_id_pattern)
        } else {
            Ok(())
        };
        assert(bytes_mut_seq(*buf) == mid + written(s3));
        proof {
            lemma_step(bytes_mut_seq(*old(buf)), w2, s3);
        }
        if r3.is_err() {
            return r3;
        }
        let ghost mid = bytes_mut_seq(*buf);
        proof {
            lemma_append_empty(mid);
        }
        let r4 = write_tagged_fields(buf, &sort_by_tag(&self._unknown_tagged_fields));
        assert(bytes_mut_seq(*buf) == mid + written(s4));
        proof {
            lemma_step(bytes_mut_seq(*old(buf)), w3, s4);
        }
        if r4.is_err() {
            return r4;
        }
        Ok(())
    }
}

} // verus!
