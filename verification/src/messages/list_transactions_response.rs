//! The list transactions response message.
use crate::buffer::{bytes_mut_seq, bytes_seq};
use crate::codec::{Codec, CompactStringItem, MeasuredCodec, all_canonical, all_writable, array_len, lemma_array_round_trip, lemma_array_writable, read_array, saturating_sum, spec_read_array, spec_write_array, write_array};
use crate::error::{Error, UnsupportedVersion};
use crate::ints::{lemma_i16_roundtrip, lemma_i32_roundtrip, lemma_i64_roundtrip, read_i16, read_i32, read_i64, spec_read_i16, spec_read_i32, spec_read_i64, spec_write_i16, spec_write_i32, spec_write_i64, u16_bytes, u32_bytes, u64_bytes, write_i16, write_i32, write_i64};
use crate::strings::{compact_string_len, lemma_compact_string_round_trip, read_compact_string, spec_read_compact_string, spec_write_compact_string, write_compact_string};
use crate::tagged::{lemma_sorted_by_tag_in_order, lemma_sorted_tags_fit, lemma_tagged_fields_round_trip, lemma_tagged_fields_writable, read_tagged_fields, sort_by_tag, sorted_by_tag, spec_read_tagged_fields, spec_write_tagged_fields, tagged_fields_len, tags_fit, tags_in_order, write_tagged_fields};
use crate::types::{KafkaString, RawTaggedField};
use crate::wire::{ReadOutcome, ViewClone, WriteOutcome, chain, clone_vec, empty_vec, fail, has_room, lemma_append_empty, lemma_chain_written, lemma_len_step, lemma_step, len_result, read_as, read_vec_as, saturate, took_front, views, written, wrote};
use bytes::{Bytes, BytesMut};
use vstd::prelude::*;

verus! {

broadcast use {crate::wire::lemma_chain_written, crate::wire::lemma_took_front_nothing, crate::wire::lemma_took_front_twice};

#[derive(Debug, PartialEq)]
pub struct ListTransactionsResponseData {
    /// The duration in milliseconds for which the request was throttled due to a quota violation,
    /// or zero if the request did not violate any quota.
    pub throttle_time_ms: i32,
    /// The error code, or 0 if there was no error.
    pub error_code: i16,
    /// Set of state filters provided in the request which were unknown to the transaction
    /// coordinator.
    pub unknown_state_filters: Vec<KafkaString>,
    /// The current state of the transaction for the transactional id.
    pub transaction_states: Vec<TransactionState>,
    pub _unknown_tagged_fields: Vec<RawTaggedField>,
}

/// What a `ListTransactionsResponseData` holds, as the specification sees it.
#[verifier::ext_equal]
pub struct ListTransactionsResponseDataView {
    pub throttle_time_ms: i32,
    pub error_code: i16,
    pub unknown_state_filters: Seq<Seq<u8>>,
    pub transaction_states: Seq<TransactionStateView>,
    pub unknown_tagged_fields: Seq<(u32, Seq<u8>)>,
}

impl View for ListTransactionsResponseData {
    type V = ListTransactionsResponseDataView;

    open spec fn view(&self) -> ListTransactionsResponseDataView {
        ListTransactionsResponseDataView {
            throttle_time_ms: self.throttle_time_ms,
            error_code: self.error_code,
            unknown_state_filters: views(self.unknown_state_filters@),
            transaction_states: views(self.transaction_states@),
            unknown_tagged_fields: views(self._unknown_tagged_fields@),
        }
    }
}

impl Clone for ListTransactionsResponseData {
    fn clone(&self) -> (r: Self)
        ensures
            r@ == self@,
    {
        let r = ListTransactionsResponseData {
            throttle_time_ms: self.throttle_time_ms,
            error_code: self.error_code,
            unknown_state_filters: clone_vec(&self.unknown_state_filters),
            transaction_states: clone_vec(&self.transaction_states),
            _unknown_tagged_fields: clone_vec(&self._unknown_tagged_fields),
        };
        assert(r@ =~= self@);
        r
    }
}

impl ViewClone for ListTransactionsResponseData {
    fn clone_view(&self) -> (r: Self) {
        self.clone()
    }
}

impl Default for ListTransactionsResponseData {
    fn default() -> (r: Self)
        ensures
            r@ == Self::default_view(),
    {
        let r = ListTransactionsResponseData {
            throttle_time_ms: 0_i32,
            error_code: 0_i16,
            unknown_state_filters: empty_vec(),
            transaction_states: empty_vec(),
            _unknown_tagged_fields: empty_vec(),
        };
        assert(r@ =~= Self::default_view());
        r
    }
}

impl ListTransactionsResponseData {
    pub open spec fn default_view() -> ListTransactionsResponseDataView {
        ListTransactionsResponseDataView {
            throttle_time_ms: 0_i32,
            error_code: 0_i16,
            unknown_state_filters: Seq::empty(),
            transaction_states: Seq::empty(),
            unknown_tagged_fields: Seq::empty(),
        }
    }

    /// The `throttle_time_ms` field, read from the front of `s`.
    #[verifier::opaque]
    pub open spec fn spec_read_throttle_time_ms(s: Seq<u8>, version: i16) -> ReadOutcome<i32> {
        spec_read_i32(s)
    }

    /// The `error_code` field, read from the front of `s`.
    #[verifier::opaque]
    pub open spec fn spec_read_error_code(s: Seq<u8>, version: i16) -> ReadOutcome<i16> {
        spec_read_i16(s)
    }

    /// The `unknown_state_filters` field, read from the front of `s`.
    #[verifier::opaque]
    pub open spec fn spec_read_unknown_state_filters(s: Seq<u8>, version: i16) -> ReadOutcome<Seq<Seq<u8>>> {
        spec_read_array::<CompactStringItem>(s, version, true)
    }

    /// The `transaction_states` field, read from the front of `s`.
    #[verifier::opaque]
    pub open spec fn spec_read_transaction_states(s: Seq<u8>, version: i16) -> ReadOutcome<Seq<TransactionStateView>> {
        spec_read_array::<TransactionState>(s, version, true)
    }

    /// The tagged fields, read from the front of `s`.
    #[verifier::opaque]
    pub open spec fn spec_read_tags(s: Seq<u8>, version: i16) -> ReadOutcome<Seq<(u32, Seq<u8>)>> {
        spec_read_tagged_fields(s)
    }

    pub open spec fn spec_read(s: Seq<u8>, version: i16) -> ReadOutcome<ListTransactionsResponseDataView> {
        if version < 0 || version > 2 {
            Err(Error::UnsupportedVersion(UnsupportedVersion { api_key: 66, version }))
        } else {
            match (Self::spec_read_throttle_time_ms(s, version)) {
                Err(e) => Err(e),
                Ok((throttle_time_ms, s)) => match (Self::spec_read_error_code(s, version)) {
                    Err(e) => Err(e),
                    Ok((error_code, s)) => match (Self::spec_read_unknown_state_filters(s, version)) {
                        Err(e) => Err(e),
                        Ok((unknown_state_filters, s)) => match (Self::spec_read_transaction_states(s, version)) {
                            Err(e) => Err(e),
                            Ok((transaction_states, s)) => match (Self::spec_read_tags(s, version)) {
                                Err(e) => Err(e),
                                Ok((unknown_tagged_fields, s)) => Ok((ListTransactionsResponseDataView {
                                            throttle_time_ms: throttle_time_ms,
                                            error_code: error_code,
                                            unknown_state_filters: unknown_state_filters,
                                            transaction_states: transaction_states,
                                            unknown_tagged_fields: unknown_tagged_fields,
                                        }, s)),
                            },
                        },
                    },
                },
            }
        }
    }

    /// What writing the `throttle_time_ms` field of `m` appends.
    #[verifier::opaque]
    pub open spec fn spec_write_throttle_time_ms(m: ListTransactionsResponseDataView, version: i16) -> WriteOutcome {
        spec_write_i32(m.throttle_time_ms)
    }

    /// What writing the `error_code` field of `m` appends.
    #[verifier::opaque]
    pub open spec fn spec_write_error_code(m: ListTransactionsResponseDataView, version: i16) -> WriteOutcome {
        spec_write_i16(m.error_code)
    }

    /// What writing the `unknown_state_filters` field of `m` appends.
    #[verifier::opaque]
    pub open spec fn spec_write_unknown_state_filters(m: ListTransactionsResponseDataView, version: i16) -> WriteOutcome {
        spec_write_array::<CompactStringItem>(m.unknown_state_filters, version, true)
    }

    /// What writing the `transaction_states` field of `m` appends.
    #[verifier::opaque]
    pub open spec fn spec_write_transaction_states(m: ListTransactionsResponseDataView, version: i16) -> WriteOutcome {
        spec_write_array::<TransactionState>(m.transaction_states, version, true)
    }

    /// What writing the tagged fields of `m` appends.
    #[verifier::opaque]
    pub open spec fn spec_write_tags(m: ListTransactionsResponseDataView, version: i16) -> WriteOutcome {
        spec_write_tagged_fields(sorted_by_tag(m.unknown_tagged_fields))
    }

    pub open spec fn spec_write(m: ListTransactionsResponseDataView, version: i16) -> WriteOutcome {
        if version < 0 || version > 2 {
            fail(Error::UnsupportedVersion(UnsupportedVersion { api_key: 66, version }))
        } else {
            chain(
                chain(
                    chain(
                        chain(
                            Self::spec_write_throttle_time_ms(m, version),
                            Self::spec_write_error_code(m, version),
                        ),
                        Self::spec_write_unknown_state_filters(m, version),
                    ),
                    Self::spec_write_transaction_states(m, version),
                ),
                Self::spec_write_tags(m, version),
            )
        }
    }

    /// Whether reading back what writing `m` in `version` appends gives `m`:
    /// fields that the version does not carry hold their default values, and
    /// tagged fields come in the order in which they are written.
    pub open spec fn canonical(m: ListTransactionsResponseDataView, version: i16) -> bool {
        &&& all_canonical::<TransactionState>(m.transaction_states, version)
        &&& tags_in_order(m.unknown_tagged_fields)
    }

    proof fn lemma_round_trip_throttle_time_ms(m: ListTransactionsResponseDataView, version: i16, rest: Seq<u8>)
        requires
            Self::canonical(m, version),
            Self::spec_write_throttle_time_ms(m, version) is Ok,
        ensures
            Self::spec_read_throttle_time_ms(written(Self::spec_write_throttle_time_ms(m, version)) + rest, version) == Ok::<(i32, Seq<u8>), Error>((m.throttle_time_ms, rest)),
    {
        reveal(ListTransactionsResponseData::spec_read_throttle_time_ms);
        reveal(ListTransactionsResponseData::spec_write_throttle_time_ms);
        lemma_i32_roundtrip(m.throttle_time_ms, rest);
    }

    proof fn lemma_round_trip_error_code(m: ListTransactionsResponseDataView, version: i16, rest: Seq<u8>)
        requires
            Self::canonical(m, version),
            Self::spec_write_error_code(m, version) is Ok,
        ensures
            Self::spec_read_error_code(written(Self::spec_write_error_code(m, version)) + rest, version) == Ok::<(i16, Seq<u8>), Error>((m.error_code, rest)),
    {
        reveal(ListTransactionsResponseData::spec_read_error_code);
        reveal(ListTransactionsResponseData::spec_write_error_code);
        lemma_i16_roundtrip(m.error_code, rest);
    }

    proof fn lemma_round_trip_unknown_state_filters(m: ListTransactionsResponseDataView, version: i16, rest: Seq<u8>)
        requires
            Self::canonical(m, version),
            Self::spec_write_unknown_state_filters(m, version) is Ok,
        ensures
            Self::spec_read_unknown_state_filters(written(Self::spec_write_unknown_state_filters(m, version)) + rest, version) == Ok::<(Seq<Seq<u8>>, Seq<u8>), Error>((m.unknown_state_filters, rest)),
    {
        reveal(ListTransactionsResponseData::spec_read_unknown_state_filters);
        reveal(ListTransactionsResponseData::spec_write_unknown_state_filters);
        lemma_array_round_trip::<CompactStringItem>(m.unknown_state_filters, version, true, rest);
    }

    proof fn lemma_round_trip_transaction_states(m: ListTransactionsResponseDataView, version: i16, rest: Seq<u8>)
        requires
            Self::canonical(m, version),
            Self::spec_write_transaction_states(m, version) is Ok,
        ensures
            Self::spec_read_transaction_states(written(Self::spec_write_transaction_states(m, version)) + rest, version) == Ok::<(Seq<TransactionStateView>, Seq<u8>), Error>((m.transaction_states, rest)),
    {
        reveal(ListTransactionsResponseData::spec_read_transaction_states);
        reveal(ListTransactionsResponseData::spec_write_transaction_states);
        lemma_array_round_trip::<TransactionState>(m.transaction_states, version, true, rest);
    }

    proof fn lemma_round_trip_tags(m: ListTransactionsResponseDataView, version: i16, rest: Seq<u8>)
        requires
            Self::canonical(m, version),
            Self::spec_write_tags(m, version) is Ok,
        ensures
            Self::spec_read_tags(written(Self::spec_write_tags(m, version)) + rest, version) == Ok::<(Seq<(u32, Seq<u8>)>, Seq<u8>), Error>((m.unknown_tagged_fields, rest)),
    {
        reveal(ListTransactionsResponseData::spec_read_tags);
        reveal(ListTransactionsResponseData::spec_write_tags);
        lemma_sorted_by_tag_in_order(m.unknown_tagged_fields);
        lemma_tagged_fields_round_trip(m.unknown_tagged_fields, rest);
    }

    /// Reading back what writing `m` in `version` appends gives `m` again, and
    /// leaves what follows, for every canonical message whose write succeeds.
    #[verifier::rlimit(90)]
    #[verifier::spinoff_prover]
    pub proof fn lemma_round_trip(m: ListTransactionsResponseDataView, version: i16, rest: Seq<u8>)
        requires
            Self::canonical(m, version),
            Self::spec_write(m, version) is Ok,
        ensures
            Self::spec_read(written(Self::spec_write(m, version)) + rest, version) == Ok::<(ListTransactionsResponseDataView, Seq<u8>), Error>((m, rest)),
    {
        let b0 = written(Self::spec_write_throttle_time_ms(m, version));
        let b1 = written(Self::spec_write_error_code(m, version));
        let b2 = written(Self::spec_write_unknown_state_filters(m, version));
        let b3 = written(Self::spec_write_transaction_states(m, version));
        let b4 = written(Self::spec_write_tags(m, version));
        let t5 = rest;
        let t4 = b4 + t5;
        let t3 = b3 + t4;
        let t2 = b2 + t3;
        let t1 = b1 + t2;
        let t0 = b0 + t1;
        let w0 = Self::spec_write_throttle_time_ms(m, version);
        let w1 = chain(w0, Self::spec_write_error_code(m, version));
        let w2 = chain(w1, Self::spec_write_unknown_state_filters(m, version));
        let w3 = chain(w2, Self::spec_write_transaction_states(m, version));
        let w4 = chain(w3, Self::spec_write_tags(m, version));
        assert(Self::spec_write(m, version) == w4);
        assert(written(w4) + t5 =~= written(w3) + t4);
        assert(written(w3) + t4 =~= written(w2) + t3);
        assert(written(w2) + t3 =~= written(w1) + t2);
        assert(written(w1) + t2 =~= written(w0) + t1);
        Self::lemma_round_trip_throttle_time_ms(m, version, t1);
        Self::lemma_round_trip_error_code(m, version, t2);
        Self::lemma_round_trip_unknown_state_filters(m, version, t3);
        Self::lemma_round_trip_transaction_states(m, version, t4);
        Self::lemma_round_trip_tags(m, version, t5);
    }

    /// The default message holds the default value of each field of the schema.
    pub proof fn lemma_default_values()
        ensures
            Self::default_view().throttle_time_ms == (0_i32),
            Self::default_view().error_code == (0_i16),
            Self::default_view().unknown_state_filters.len() == 0,
            Self::default_view().transaction_states.len() == 0,
            Self::default_view().unknown_tagged_fields.len() == 0,
    {
    }

    /// Each integer, boolean and identifier field is written as its standard
    /// big-endian bytes (a boolean as `1` or `0`) in the versions that carry
    /// it, and as nothing in the others; reading it takes those bytes back (any
    /// byte other than `0` reads as `true`), or gives its default value.
    pub proof fn lemma_field_encodings(m: ListTransactionsResponseDataView, s: Seq<u8>, version: i16)
        ensures
            true ==> Self::spec_write_throttle_time_ms(m, version) == Ok::<Seq<u8>, (Error, Seq<u8>)>(u32_bytes(m.throttle_time_ms as u32)),
            true ==> Self::spec_write_error_code(m, version) == Ok::<Seq<u8>, (Error, Seq<u8>)>(u16_bytes(m.error_code as u16)),
            true ==> Self::spec_read_throttle_time_ms(s, version) == spec_read_i32(s),
            true ==> Self::spec_read_error_code(s, version) == spec_read_i16(s),
    {
        reveal(ListTransactionsResponseData::spec_write_throttle_time_ms);
        reveal(ListTransactionsResponseData::spec_read_throttle_time_ms);
        reveal(ListTransactionsResponseData::spec_write_error_code);
        reveal(ListTransactionsResponseData::spec_read_error_code);
    }

    /// Whether writing `m` in `version` succeeds, said over its parts: the
    /// version is one the schema covers, every field that the version cannot
    /// carry holds its default value, and every string, byte string, array and
    /// tagged field fits its length prefix.
    pub open spec fn writable(m: ListTransactionsResponseDataView, version: i16) -> bool {
        &&& 0 <= version <= 2
        &&& (m.unknown_state_filters.len() <= i32::MAX && all_writable::<CompactStringItem>(m.unknown_state_filters, version))
        &&& (m.transaction_states.len() <= i32::MAX && all_writable::<TransactionState>(m.transaction_states, version))
        &&& m.unknown_tagged_fields.len() <= u32::MAX && tags_fit(m.unknown_tagged_fields)
    }

    proof fn lemma_writable_throttle_time_ms(m: ListTransactionsResponseDataView, version: i16)
        ensures
            Self::spec_write_throttle_time_ms(m, version) is Ok <==> true,
    {
        reveal(ListTransactionsResponseData::spec_write_throttle_time_ms);
    }

    proof fn lemma_writable_error_code(m: ListTransactionsResponseDataView, version: i16)
        ensures
            Self::spec_write_error_code(m, version) is Ok <==> true,
    {
        reveal(ListTransactionsResponseData::spec_write_error_code);
    }

    proof fn lemma_writable_unknown_state_filters(m: ListTransactionsResponseDataView, version: i16)
        ensures
            Self::spec_write_unknown_state_filters(m, version) is Ok <==> (m.unknown_state_filters.len() <= i32::MAX && all_writable::<CompactStringItem>(m.unknown_state_filters, version)),
    {
        reveal(ListTransactionsResponseData::spec_write_unknown_state_filters);
        lemma_array_writable::<CompactStringItem>(m.unknown_state_filters, version, true);
    }

    proof fn lemma_writable_transaction_states(m: ListTransactionsResponseDataView, version: i16)
        ensures
            Self::spec_write_transaction_states(m, version) is Ok <==> (m.transaction_states.len() <= i32::MAX && all_writable::<TransactionState>(m.transaction_states, version)),
    {
        reveal(ListTransactionsResponseData::spec_write_transaction_states);
        lemma_array_writable::<TransactionState>(m.transaction_states, version, true);
    }

    proof fn lemma_writable_tags(m: ListTransactionsResponseDataView, version: i16)
        ensures
            Self::spec_write_tags(m, version) is Ok <==> m.unknown_tagged_fields.len() <= u32::MAX && tags_fit(m.unknown_tagged_fields),
    {
        reveal(ListTransactionsResponseData::spec_write_tags);
        lemma_sorted_tags_fit(m.unknown_tagged_fields);
        lemma_tagged_fields_writable(sorted_by_tag(m.unknown_tagged_fields));
    }

    /// Writing `m` in `version` succeeds exactly when `m` is writable in it;
    /// so do `write` and `encoded_len`, whose results follow `spec_write`.
    #[verifier::rlimit(60)]
    pub proof fn lemma_writable(m: ListTransactionsResponseDataView, version: i16)
        ensures
            Self::spec_write(m, version) is Ok <==> Self::writable(m, version),
    {
        Self::lemma_writable_throttle_time_ms(m, version);
        Self::lemma_writable_error_code(m, version);
        Self::lemma_writable_unknown_state_filters(m, version);
        Self::lemma_writable_transaction_states(m, version);
        Self::lemma_writable_tags(m, version);
    }

    /// A version outside the range that the schema covers is refused, by
    /// reads and by writes alike, before anything is read or written.
    pub proof fn lemma_refused_version(m: ListTransactionsResponseDataView, s: Seq<u8>, version: i16)
        requires
            version < 0 || version > 2,
        ensures
            Self::spec_read(s, version) == Err::<(ListTransactionsResponseDataView, Seq<u8>), Error>(Error::UnsupportedVersion(UnsupportedVersion { api_key: 66, version })),
            Self::spec_write(m, version) == fail(Error::UnsupportedVersion(UnsupportedVersion { api_key: 66, version })),
    {
    }

    pub fn with_throttle_time_ms(self, value: i32) -> (r: Self)
        ensures
            r@ == (ListTransactionsResponseDataView { throttle_time_ms: value, ..self@ }),
    {
        let mut r = self;
        r.throttle_time_ms = value;
        r
    }

    pub fn with_error_code(self, value: i16) -> (r: Self)
        ensures
            r@ == (ListTransactionsResponseDataView { error_code: value, ..self@ }),
    {
        let mut r = self;
        r.error_code = value;
        r
    }

    pub fn with_unknown_state_filters(self, value: Vec<KafkaString>) -> (r: Self)
        ensures
            r@ == (ListTransactionsResponseDataView { unknown_state_filters: views(value@), ..self@ }),
    {
        let mut r = self;
        r.unknown_state_filters = value;
        r
    }

    pub fn with_transaction_states(self, value: Vec<TransactionState>) -> (r: Self)
        ensures
            r@ == (ListTransactionsResponseDataView { transaction_states: views(value@), ..self@ }),
    {
        let mut r = self;
        r.transaction_states = value;
        r
    }

    fn read_throttle_time_ms(buf: &mut Bytes, version: i16) -> (r: Result<i32, Error>)
        ensures
            read_as(Self::spec_read_throttle_time_ms(bytes_seq(*old(buf)), version), *final(buf), r),
            took_front(*old(buf), *final(buf)),
    {
        proof {
            reveal(ListTransactionsResponseData::spec_read_throttle_time_ms);
        }
        Ok(read_i32(buf)?)
    }

    fn read_error_code(buf: &mut Bytes, version: i16) -> (r: Result<i16, Error>)
        ensures
            read_as(Self::spec_read_error_code(bytes_seq(*old(buf)), version), *final(buf), r),
            took_front(*old(buf), *final(buf)),
    {
        proof {
            reveal(ListTransactionsResponseData::spec_read_error_code);
        }
        Ok(read_i16(buf)?)
    }

    fn read_unknown_state_filters(buf: &mut Bytes, version: i16) -> (r: Result<Vec<KafkaString>, Error>)
        ensures
            read_vec_as(Self::spec_read_unknown_state_filters(bytes_seq(*old(buf)), version), *final(buf), r),
            took_front(*old(buf), *final(buf)),
    {
        proof {
            reveal(ListTransactionsResponseData::spec_read_unknown_state_filters);
        }
        Ok(read_array::<CompactStringItem>(buf, version, true)?)
    }

    fn read_transaction_states(buf: &mut Bytes, version: i16) -> (r: Result<Vec<TransactionState>, Error>)
        ensures
            read_vec_as(Self::spec_read_transaction_states(bytes_seq(*old(buf)), version), *final(buf), r),
            took_front(*old(buf), *final(buf)),
    {
        proof {
            reveal(ListTransactionsResponseData::spec_read_transaction_states);
        }
        Ok(read_array::<TransactionState>(buf, version, true)?)
    }

    fn read_tags(buf: &mut Bytes, version: i16) -> (r: Result<Vec<RawTaggedField>, Error>)
        ensures
            read_vec_as(Self::spec_read_tags(bytes_seq(*old(buf)), version), *final(buf), r),
            took_front(*old(buf), *final(buf)),
    {
        proof {
            reveal(ListTransactionsResponseData::spec_read_tags);
        }
        Ok(read_tagged_fields(buf)?)
    }

    pub fn read(buf: &mut Bytes, version: i16) -> (r: Result<Self, Error>)
        ensures
            read_as(Self::spec_read(bytes_seq(*old(buf)), version), *final(buf), r),
            took_front(*old(buf), *final(buf)),
            (version < 0 || version > 2) ==> bytes_seq(*final(buf)) == bytes_seq(*old(buf)),
    {
        if version < 0 || version > 2 {
            return Err(Error::UnsupportedVersion(UnsupportedVersion::new(66, version)));
        }
        let throttle_time_ms = Self::read_throttle_time_ms(buf, version)?;
        let error_code = Self::read_error_code(buf, version)?;
        let unknown_state_filters = Self::read_unknown_state_filters(buf, version)?;
        let transaction_states = Self::read_transaction_states(buf, version)?;
        let _unknown_tagged_fields = Self::read_tags(buf, version)?;
        Ok(ListTransactionsResponseData {
                throttle_time_ms: throttle_time_ms,
                error_code: error_code,
                unknown_state_filters: unknown_state_filters,
                transaction_states: transaction_states,
                _unknown_tagged_fields: _unknown_tagged_fields,
        })
    }

    #[verifier::rlimit(80)]
    pub fn write(&self, buf: &mut BytesMut, version: i16) -> (r: Result<(), Error>)
        requires
            has_room(Self::spec_write(self@, version), *old(buf)),
        ensures
            wrote(Self::spec_write(self@, version), *old(buf), *final(buf), r),
    {
        if version < 0 || version > 2 {
            return Err(Error::UnsupportedVersion(UnsupportedVersion::new(66, version)));
        }
        let ghost m = self@;
        proof {
            reveal(ListTransactionsResponseData::spec_write_throttle_time_ms);
            reveal(ListTransactionsResponseData::spec_write_error_code);
            reveal(ListTransactionsResponseData::spec_write_unknown_state_filters);
            reveal(ListTransactionsResponseData::spec_write_transaction_states);
            reveal(ListTransactionsResponseData::spec_write_tags);
        }
        let ghost s0 = Self::spec_write_throttle_time_ms(m, version);
        let ghost w0 = s0;
        let ghost s1 = Self::spec_write_error_code(m, version);
        let ghost w1 = chain(w0, s1);
        let ghost s2 = Self::spec_write_unknown_state_filters(m, version);
        let ghost w2 = chain(w1, s2);
        let ghost s3 = Self::spec_write_transaction_states(m, version);
        let ghost w3 = chain(w2, s3);
        let ghost s4 = Self::spec_write_tags(m, version);
        let ghost w4 = chain(w3, s4);
        assert(Self::spec_write(m, version) == w4);
        assert(written(w3).len() <= written(w4).len() && (w3 is Err ==> w4 == w3));
        assert(written(w2).len() <= written(w4).len() && (w2 is Err ==> w4 == w2));
        assert(written(w1).len() <= written(w4).len() && (w1 is Err ==> w4 == w1));
        assert(written(w0).len() <= written(w4).len() && (w0 is Err ==> w4 == w0));
        let ghost mid = bytes_mut_seq(*buf);
        proof {
            lemma_append_empty(mid);
        }
        let r0 = {
            write_i32(buf, self.throttle_time_ms);
            Ok(())
        };
        assert(bytes_mut_seq(*buf) == mid + written(s0));
        if r0.is_err() {
            return r0;
        }
        let ghost mid = bytes_mut_seq(*buf);
        proof {
            lemma_append_empty(mid);
        }
        let r1 = {
            write_i16(buf, self.error_code);
            Ok(())
        };
        assert(bytes_mut_seq(*buf) == mid + written(s1));
        proof {
            lemma_step(bytes_mut_seq(*old(buf)), w0, s1);
        }
        if r1.is_err() {
            return r1;
        }
        let ghost mid = bytes_mut_seq(*buf);
        proof {
            lemma_append_empty(mid);
        }
        let r2 = write_array::<CompactStringItem>(buf, &self.unknown_state_filters, version, true);
        assert(bytes_mut_seq(*buf) == mid + written(s2));
        proof {
            lemma_step(bytes_mut_seq(*old(buf)), w1, s2);
        }
        if r2.is_err() {
            return r2;
        }
        let ghost mid = bytes_mut_seq(*buf);
        proof {
            lemma_append_empty(mid);
        }
        let r3 = write_array::<TransactionState>(buf, &self.transaction_states, version, true);
        assert(bytes_mut_seq(*buf) == mid + written(s3));
        proof {
            lemma_step(bytes_mut_seq(*old(buf)), w2, s3);
        }
        if r3.is_err() {
            return r3;
        }
        let ghost mid = bytes_mut_seq(*buf);
        proof {
            lemma_append_empty(mid);
        }
        let r4 = write_tagged_fields(buf, &sort_by_tag(&self._unknown_tagged_fields));
        assert(bytes_mut_seq(*buf) == mid + written(s4));
        proof {
            lemma_step(bytes_mut_seq(*old(buf)), w3, s4);
        }
        if r4.is_err() {
            return r4;
        }
        Ok(())
    }

    #[verifier::rlimit(80)]
    pub fn encoded_len(&self, version: i16) -> (r: Result<usize, Error>)
        ensures
            r == len_result(Self::spec_write(self@, version)),
    {
        if version < 0 || version > 2 {
            return Err(Error::UnsupportedVersion(UnsupportedVersion::new(66, version)));
        }
        let ghost m = self@;
        proof {
            reveal(ListTransactionsResponseData::spec_write_throttle_time_ms);
            reveal(ListTransactionsResponseData::spec_write_error_code);
            reveal(ListTransactionsResponseData::spec_write_unknown_state_filters);
            reveal(ListTransactionsResponseData::spec_write_transaction_states);
            reveal(ListTransactionsResponseData::spec_write_tags);
        }
        let ghost s0 = Self::spec_write_throttle_time_ms(m, version);
        let ghost w0 = s0;
        let ghost s1 = Self::spec_write_error_code(m, version);
        let ghost w1 = chain(w0, s1);
        let ghost s2 = Self::spec_write_unknown_state_filters(m, version);
        let ghost w2 = chain(w1, s2);
        let ghost s3 = Self::spec_write_transaction_states(m, version);
        let ghost w3 = chain(w2, s3);
        let ghost s4 = Self::spec_write_tags(m, version);
        let ghost w4 = chain(w3, s4);
        assert(Self::spec_write(m, version) == w4);
        assert(w3 is Err ==> w4 == w3);
        assert(w2 is Err ==> w4 == w2);
        assert(w1 is Err ==> w4 == w1);
        assert(w0 is Err ==> w4 == w0);
        let mut len: usize = 0;
        let l0 = Ok(4);
        assert(l0 == len_result(s0));
        let n0 = match l0 {
            Ok(n) => n,
            Err(e) => {
                return Err(e);
            },
        };
        len = saturating_sum(len, n0);
        assert(w0 is Ok && len == saturate(written(w0).len() as int));
        let l1 = Ok(2);
        assert(l1 == len_result(s1));
        let n1 = match l1 {
            Ok(n) => n,
            Err(e) => {
                return Err(e);
            },
        };
        proof {
            lemma_len_step(w0, s1, n1);
        }
        len = saturating_sum(len, n1);
        assert(w1 is Ok && len == saturate(written(w1).len() as int));
        let l2 = array_len::<CompactStringItem>(&self.unknown_state_filters, version, true);
        assert(l2 == len_result(s2));
        let n2 = match l2 {
            Ok(n) => n,
            Err(e) => {
                return Err(e);
            },
        };
        proof {
            lemma_len_step(w1, s2, n2);
        }
        len = saturating_sum(len, n2);
        assert(w2 is Ok && len == saturate(written(w2).len() as int));
        let l3 = array_len::<TransactionState>(&self.transaction_states, version, true);
        assert(l3 == len_result(s3));
        let n3 = match l3 {
            Ok(n) => n,
            Err(e) => {
                return Err(e);
            },
        };
        proof {
            lemma_len_step(w2, s3, n3);
        }
        len = saturating_sum(len, n3);
        assert(w3 is Ok && len == saturate(written(w3).len() as int));
        let l4 = tagged_fields_len(&sort_by_tag(&self._unknown_tagged_fields));
        assert(l4 == len_result(s4));
        let n4 = match l4 {
            Ok(n) => n,
            Err(e) => {
                return Err(e);
            },
        };
        proof {
            lemma_len_step(w3, s4, n4);
        }
        len = saturating_sum(len, n4);
        assert(w4 is Ok && len == saturate(written(w4).len() as int));
        Ok(len)
    }
}

#[derive(Debug, PartialEq)]
pub struct TransactionState {
    /// The transactional id.
    pub transactional_id: KafkaString,
    /// The producer id.
    pub producer_id: i64,
    /// The current transaction state of the producer.
    pub transaction_state: KafkaString,
    pub _unknown_tagged_fields: Vec<RawTaggedField>,
}

/// What a `TransactionState` holds, as the specification sees it.
#[verifier::ext_equal]
pub struct TransactionStateView {
    pub transactional_id: Seq<u8>,
    pub producer_id: i64,
    pub transaction_state: Seq<u8>,
    pub unknown_tagged_fields: Seq<(u32, Seq<u8>)>,
}

impl View for TransactionState {
    type V = TransactionStateView;

    open spec fn view(&self) -> TransactionStateView {
        TransactionStateView {
            transactional_id: self.transactional_id@,
            producer_id: self.producer_id,
            transaction_state: self.transaction_state@,
            unknown_tagged_fields: views(self._unknown_tagged_fields@),
        }
    }
}

impl Clone for TransactionState {
    fn clone(&self) -> (r: Self)
        ensures
            r@ == self@,
    {
        let r = TransactionState {
            transactional_id: self.transactional_id.clone(),
            producer_id: self.producer_id,
            transaction_state: self.transaction_state.clone(),
            _unknown_tagged_fields: clone_vec(&self._unknown_tagged_fields),
        };
        assert(r@ =~= self@);
        r
    }
}

impl ViewClone for TransactionState {
    fn clone_view(&self) -> (r: Self) {
        self.clone()
    }
}

impl Default for TransactionState {
    fn default() -> (r: Self)
        ensures
            r@ == Self::default_view(),
    {
        let r = TransactionState {
            transactional_id: KafkaString::default(),
            producer_id: 0_i64,
            transaction_state: KafkaString::default(),
            _unknown_tagged_fields: empty_vec(),
        };
        assert(r@ =~= Self::default_view());
        r
    }
}

impl TransactionState {
    pub open spec fn default_view() -> TransactionStateView {
        TransactionStateView {
            transactional_id: Seq::empty(),
            producer_id: 0_i64,
            transaction_state: Seq::empty(),
            unknown_tagged_fields: Seq::empty(),
        }
    }

    /// The `transactional_id` field, read from the front of `s`.
    #[verifier::opaque]
    pub open spec fn spec_read_transactional_id(s: Seq<u8>, version: i16) -> ReadOutcome<Seq<u8>> {
        spec_read_compact_string(s)
    }

    /// The `producer_id` field, read from the front of `s`.
    #[verifier::opaque]
    pub open spec fn spec_read_producer_id(s: Seq<u8>, version: i16) -> ReadOutcome<i64> {
        spec_read_i64(s)
    }

    /// The `transaction_state` field, read from the front of `s`.
    #[verifier::opaque]
    pub open spec fn spec_read_transaction_state(s: Seq<u8>, version: i16) -> ReadOutcome<Seq<u8>> {
        spec_read_compact_string(s)
    }

    /// The tagged fields, read from the front of `s`.
    #[verifier::opaque]
    pub open spec fn spec_read_tags(s: Seq<u8>, version: i16) -> ReadOutcome<Seq<(u32, Seq<u8>)>> {
        spec_read_tagged_fields(s)
    }

    pub open spec fn spec_read(s: Seq<u8>, version: i16) -> ReadOutcome<TransactionStateView> {
        match (Self::spec_read_transactional_id(s, version)) {
            Err(e) => Err(e),
            Ok((transactional_id, s)) => match (Self::spec_read_producer_id(s, version)) {
                Err(e) => Err(e),
                Ok((producer_id, s)) => match (Self::spec_read_transaction_state(s, version)) {
                    Err(e) => Err(e),
                    Ok((transaction_state, s)) => match (Self::spec_read_tags(s, version)) {
                        Err(e) => Err(e),
                        Ok((unknown_tagged_fields, s)) => Ok((TransactionStateView {
                                    transactional_id: transactional_id,
                                    producer_id: producer_id,
                                    transaction_state: transaction_state,
                                    unknown_tagged_fields: unknown_tagged_fields,
                                }, s)),
                    },
                },
            },
        }
    }

    /// What writing the `transactional_id` field of `m` appends.
    #[verifier::opaque]
    pub open spec fn spec_write_transactional_id(m: TransactionStateView, version: i16) -> WriteOutcome {
        spec_write_compact_string(m.transactional_id)
    }

    /// What writing the `producer_id` field of `m` appends.
    #[verifier::opaque]
    pub open spec fn spec_write_producer_id(m: TransactionStateView, version: i16) -> WriteOutcome {
        spec_write_i64(m.producer_id)
    }

    /// What writing the `transaction_state` field of `m` appends.
    #[verifier::opaque]
    pub open spec fn spec_write_transaction_state(m: TransactionStateView, version: i16) -> WriteOutcome {
        spec_write_compact_string(m.transaction_state)
    }

    /// What writing the tagged fields of `m` appends.
    #[verifier::opaque]
    pub open spec fn spec_write_tags(m: TransactionStateView, version: i16) -> WriteOutcome {
        spec_write_tagged_fields(sorted_by_tag(m.unknown_tagged_fields))
    }

    pub open spec fn spec_write(m: TransactionStateView, version: i16) -> WriteOutcome {
        chain(
            chain(
                chain(
                    Self::spec_write_transactional_id(m, version),
                    Self::spec_write_producer_id(m, version),
                ),
                Self::spec_write_transaction_state(m, version),
            ),
            Self::spec_write_tags(m, version),
        )
    }

    /// Whether reading back what writing `m` in `version` appends gives `m`:
    /// fields that the version does not carry hold their default values, and
    /// tagged fields come in the order in which they are written.
    pub open spec fn canonical(m: TransactionStateView, version: i16) -> bool {
        &&& tags_in_order(m.unknown_tagged_fields)
    }

    proof fn lemma_round_trip_transactional_id(m: TransactionStateView, version: i16, rest: Seq<u8>)
        requires
            Self::canonical(m, version),
            Self::spec_write_transactional_id(m, version) is Ok,
        ensures
            Self::spec_read_transactional_id(written(Self::spec_write_transactional_id(m, version)) + rest, version) == Ok::<(Seq<u8>, Seq<u8>), Error>((m.transactional_id, rest)),
    {
        reveal(TransactionState::spec_read_transactional_id);
        reveal(TransactionState::spec_write_transactional_id);
        lemma_compact_string_round_trip(m.transactional_id, rest);
    }

    proof fn lemma_round_trip_producer_id(m: TransactionStateView, version: i16, rest: Seq<u8>)
        requires
            Self::canonical(m, version),
            Self::spec_write_producer_id(m, version) is Ok,
        ensures
            Self::spec_read_producer_id(written(Self::spec_write_producer_id(m, version)) + rest, version) == Ok::<(i64, Seq<u8>), Error>((m.producer_id, rest)),
    {
        reveal(TransactionState::spec_read_producer_id);
        reveal(TransactionState::spec_write_producer_id);
        lemma_i64_roundtrip(m.producer_id, rest);
    }

    proof fn lemma_round_trip_transaction_state(m: TransactionStateView, version: i16, rest: Seq<u8>)
        requires
            Self::canonical(m, version),
            Self::spec_write_transaction_state(m, version) is Ok,
        ensures
            Self::spec_read_transaction_state(written(Self::spec_write_transaction_state(m, version)) + rest, version) == Ok::<(Seq<u8>, Seq<u8>), Error>((m.transaction_state, rest)),
    {
        reveal(TransactionState::spec_read_transaction_state);
        reveal(TransactionState::spec_write_transaction_state);
        lemma_compact_string_round_trip(m.transaction_state, rest);
    }

    proof fn lemma_round_trip_tags(m: TransactionStateView, version: i16, rest: Seq<u8>)
        requires
            Self::canonical(m, version),
            Self::spec_write_tags(m, version) is Ok,
        ensures
            Self::spec_read_tags(written(Self::spec_write_tags(m, version)) + rest, version) == Ok::<(Seq<(u32, Seq<u8>)>, Seq<u8>), Error>((m.unknown_tagged_fields, rest)),
    {
        reveal(TransactionState::spec_read_tags);
        reveal(TransactionState::spec_write_tags);
        lemma_sorted_by_tag_in_order(m.unknown_tagged_fields);
        lemma_tagged_fields_round_trip(m.unknown_tagged_fields, rest);
    }

    /// Reading back what writing `m` in `version` appends gives `m` again, and
    /// leaves what follows, for every canonical message whose write succeeds.
    #[verifier::rlimit(80)]
    #[verifier::spinoff_prover]
    pub proof fn lemma_round_trip(m: TransactionStateView, version: i16, rest: Seq<u8>)
        requires
            Self::canonical(m, version),
            Self::spec_write(m, version) is Ok,
        ensures
            Self::spec_read(written(Self::spec_write(m, version)) + rest, version) == Ok::<(TransactionStateView, Seq<u8>), Error>((m, rest)),
    {
        let b0 = written(Self::spec_write_transactional_id(m, version));
        let b1 = written(Self::spec_write_producer_id(m, version));
        let b2 = written(Self::spec_write_transaction_state(m, version));
        let b3 = written(Self::spec_write_tags(m, version));
        let t4 = rest;
        let t3 = b3 + t4;
        let t2 = b2 + t3;
        let t1 = b1 + t2;
        let t0 = b0 + t1;
        let w0 = Self::spec_write_transactional_id(m, version);
        let w1 = chain(w0, Self::spec_write_producer_id(m, version));
        let w2 = chain(w1, Self::spec_write_transaction_state(m, version));
        let w3 = chain(w2, Self::spec_write_tags(m, version));
        assert(Self::spec_write(m, version) == w3);
        assert(written(w3) + t4 =~= written(w2) + t3);
        assert(written(w2) + t3 =~= written(w1) + t2);
        assert(written(w1) + t2 =~= written(w0) + t1);
        Self::lemma_round_trip_transactional_id(m, version, t1);
        Self::lemma_round_trip_producer_id(m, version, t2);
        Self::lemma_round_trip_transaction_state(m, version, t3);
        Self::lemma_round_trip_tags(m, version, t4);
    }

    /// The default message holds the default value of each field of the schema.
    pub proof fn lemma_default_values()
        ensures
            Self::default_view().transactional_id.len() == 0,
            Self::default_view().producer_id == (0_i64),
            Self::default_view().transaction_state.len() == 0,
            Self::default_view().unknown_tagged_fields.len() == 0,
    {
    }

    /// Each integer, boolean and identifier field is written as its standard
    /// big-endian bytes (a boolean as `1` or `0`) in the versions that carry
    /// it, and as nothing in the others; reading it takes those bytes back (any
    /// byte other than `0` reads as `true`), or gives its default value.
    pub proof fn lemma_field_encodings(m: TransactionStateView, s: Seq<u8>, version: i16)
        ensures
            true ==> Self::spec_write_producer_id(m, version) == Ok::<Seq<u8>, (Error, Seq<u8>)>(u64_bytes(m.producer_id as u64)),
            true ==> Self::spec_read_producer_id(s, version) == spec_read_i64(s),
    {
        reveal(TransactionState::spec_write_producer_id);
        reveal(TransactionState::spec_read_producer_id);
    }

    /// Whether writing `m` in `version` succeeds, said over its parts: the
    /// version is one the schema covers, every field that the version cannot
    /// carry holds its default value, and every string, byte string, array and
    /// tagged field fits its length prefix.
    pub open spec fn writable(m: TransactionStateView, version: i16) -> bool {
        &&& m.transactional_id.len() <= 0x7fff
        &&& m.transaction_state.len() <= 0x7fff
        &&& m.unknown_tagged_fields.len() <= u32::MAX && tags_fit(m.unknown_tagged_fields)
    }

    proof fn lemma_writable_transactional_id(m: TransactionStateView, version: i16)
        ensures
            Self::spec_write_transactional_id(m, version) is Ok <==> m.transactional_id.len() <= 0x7fff,
    {
        reveal(TransactionState::spec_write_transactional_id);
    }

    proof fn lemma_writable_producer_id(m: TransactionStateView, version: i16)
        ensures
            Self::spec_write_producer_id(m, version) is Ok <==> true,
    {
        reveal(TransactionState::spec_write_producer_id);
    }

    proof fn lemma_writable_transaction_state(m: TransactionStateView, version: i16)
        ensures
            Self::spec_write_transaction_state(m, version) is Ok <==> m.transaction_state.len() <= 0x7fff,
    {
        reveal(TransactionState::spec_write_transaction_state);
    }

    proof fn lemma_writable_tags(m: TransactionStateView, version: i16)
        ensures
            Self::spec_write_tags(m, version) is Ok <==> m.unknown_tagged_fields.len() <= u32::MAX && tags_fit(m.unknown_tagged_fields),
    {
        reveal(TransactionState::spec_write_tags);
        lemma_sorted_tags_fit(m.unknown_tagged_fields);
        lemma_tagged_fields_writable(sorted_by_tag(m.unknown_tagged_fields));
    }

    /// Writing `m` in `version` succeeds exactly when `m` is writable in it;
    /// so do `write` and `encoded_len`, whose results follow `spec_write`.
    #[verifier::rlimit(54)]
    pub proof fn lemma_writable(m: TransactionStateView, version: i16)
        ensures
            Self::spec_write(m, version) is Ok <==> Self::writable(m, version),
    {
        Self::lemma_writable_transactional_id(m, version);
        Self::lemma_writable_producer_id(m, version);
        Self::lemma_writable_transaction_state(m, version);
        Self::lemma_writable_tags(m, version);
    }

    pub fn with_transactional_id(self, value: KafkaString) -> (r: Self)
        ensures
            r@ == (TransactionStateView { transactional_id: value@, ..self@ }),
    {
        let mut r = self;
        r.transactional_id = value;
        r
    }

    pub fn with_producer_id(self, value: i64) -> (r: Self)
        ensures
            r@ == (TransactionStateView { producer_id: value, ..self@ }),
    {
        let mut r = self;
        r.producer_id = value;
        r
    }

    pub fn with_transaction_state(self, value: KafkaString) -> (r: Self)
        ensures
            r@ == (TransactionStateView { transaction_state: value@, ..self@ }),
    {
        let mut r = self;
        r.transaction_state = value;
        r
    }

    fn read_transactional_id(buf: &mut Bytes, version: i16) -> (r: Result<KafkaString, Error>)
        ensures
            read_as(Self::spec_read_transactional_id(bytes_seq(*old(buf)), version), *final(buf), r),
            took_front(*old(buf), *final(buf)),
    {
        proof {
            reveal(TransactionState::spec_read_transactional_id);
        }
        Ok(read_compact_string(buf)?)
    }

    fn read_producer_id(buf: &mut Bytes, version: i16) -> (r: Result<i64, Error>)
        ensures
            read_as(Self::spec_read_producer_id(bytes_seq(*old(buf)), version), *final(buf), r),
            took_front(*old(buf), *final(buf)),
    {
        proof {
            reveal(TransactionState::spec_read_producer_id);
        }
        Ok(read_i64(buf)?)
    }

    fn read_transaction_state(buf: &mut Bytes, version: i16) -> (r: Result<KafkaString, Error>)
        ensures
            read_as(Self::spec_read_transaction_state(bytes_seq(*old(buf)), version), *final(buf), r),
            took_front(*old(buf), *final(buf)),
    {
        proof {
            reveal(TransactionState::spec_read_transaction_state);
        }
        Ok(read_compact_string(buf)?)
    }

    fn read_tags(buf: &mut Bytes, version: i16) -> (r: Result<Vec<RawTaggedField>, Error>)
        ensures
            read_vec_as(Self::spec_read_tags(bytes_seq(*old(buf)), version), *final(buf), r),
            took_front(*old(buf), *final(buf)),
    {
        proof {
            reveal(TransactionState::spec_read_tags);
        }
        Ok(read_tagged_fields(buf)?)
    }

    pub fn read(buf: &mut Bytes, version: i16) -> (r: Result<Self, Error>)
        ensures
            read_as(Self::spec_read(bytes_seq(*old(buf)), version), *final(buf), r),
            took_front(*old(buf), *final(buf)),
    {
        let transactional_id = Self::read_transactional_id(buf, version)?;
        let producer_id = Self::read_producer_id(buf, version)?;
        let transaction_state = Self::read_transaction_state(buf, version)?;
        let _unknown_tagged_fields = Self::read_tags(buf, version)?;
        Ok(TransactionState {
                transactional_id: transactional_id,
                producer_id: producer_id,
                transaction_state: transaction_state,
                _unknown_tagged_fields: _unknown_tagged_fields,
        })
    }

    #[verifier::rlimit(70)]
    pub fn write(&self, buf: &mut BytesMut, version: i16) -> (r: Result<(), Error>)
        requires
            has_room(Self::spec_write(self@, version), *old(buf)),
        ensures
            wrote(Self::spec_write(self@, version), *old(buf), *final(buf), r),
    {
        let ghost m = self@;
        proof {
            reveal(TransactionState::spec_write_transactional_id);
            reveal(TransactionState::spec_write_producer_id);
            reveal(TransactionState::spec_write_transaction_state);
            reveal(TransactionState::spec_write_tags);
        }
        let ghost s0 = Self::spec_write_transactional_id(m, version);
        let ghost w0 = s0;
        let ghost s1 = Self::spec_write_producer_id(m, version);
        let ghost w1 = chain(w0, s1);
        let ghost s2 = Self::spec_write_transaction_state(m, version);
        let ghost w2 = chain(w1, s2);
        let ghost s3 = Self::spec_write_tags(m, version);
        let ghost w3 = chain(w2, s3);
        assert(Self::spec_write(m, version) == w3);
        assert(written(w2).len() <= written(w3).len() && (w2 is Err ==> w3 == w2));
        assert(written(w1).len() <= written(w3).len() && (w1 is Err ==> w3 == w1));
        assert(written(w0).len() <= written(w3).len() && (w0 is Err ==> w3 == w0));
        let ghost mid = bytes_mut_seq(*buf);
        proof {
            lemma_append_empty(mid);
        }
        let r0 = write_compact_string(buf, &self.transactional_id);
        assert(bytes_mut_seq(*buf) == mid + written(s0));
        if r0.is_err() {
            return r0;
        }
        let ghost mid = bytes_mut_seq(*buf);
        proof {
            lemma_append_empty(mid);
        }
        let r1 = {
            write_i64(buf, self.producer_id);
            Ok(())
        };
        assert(bytes_mut_seq(*buf) == mid + written(s1));
        proof {
            lemma_step(bytes_mut_seq(*old(buf)), w0, s1);
        }
        if r1.is_err() {
            return r1;
        }
        let ghost mid = bytes_mut_seq(*buf);
        proof {
            lemma_append_empty(mid);
        }
        let r2 = write_compact_string(buf, &self.transaction_state);
        assert(bytes_mut_seq(*buf) == mid + written(s2));
        proof {
            lemma_step(bytes_mut_seq(*old(buf)), w1, s2);
        }
        if r2.is_err() {
            return r2;
        }
        let ghost mid = bytes_mut_seq(*buf);
        proof {
            lemma_append_empty(mid);
        }
        let r3 = write_tagged_fields(buf, &sort_by_tag(&self._unknown_tagged_fields));
        assert(bytes_mut_seq(*buf) == mid + written(s3));
        proof {
            lemma_step(bytes_mut_seq(*old(buf)), w2, s3);
        }
        if r3.is_err() {
            return r3;
        }
        Ok(())
    }

    #[verifier::rlimit(70)]
    pub fn encoded_len(&self, version: i16) -> (r: Result<usize, Error>)
        ensures
            r == len_result(Self::spec_write(self@, version)),
    {
        let ghost m = self@;
        proof {
            reveal(TransactionState::spec_write_transactional_id);
            reveal(TransactionState::spec_write_producer_id);
            reveal(TransactionState::spec_write_transaction_state);
            reveal(TransactionState::spec_write_tags);
        }
        let ghost s0 = Self::spec_write_transactional_id(m, version);
        let ghost w0 = s0;
        let ghost s1 = Self::spec_write_producer_id(m, version);
        let ghost w1 = chain(w0, s1);
        let ghost s2 = Self::spec_write_transaction_state(m, version);
        let ghost w2 = chain(w1, s2);
        let ghost s3 = Self::spec_write_tags(m, version);
        let ghost w3 = chain(w2, s3);
        assert(Self::spec_write(m, version) == w3);
        assert(w2 is Err ==> w3 == w2);
        assert(w1 is Err ==> w3 == w1);
        assert(w0 is Err ==> w3 == w0);
        let mut len: usize = 0;
        let l0 = compact_string_len(&self.transactional_id);
        assert(l0 == len_result(s0));
        let n0 = match l0 {
            Ok(n) => n,
            Err(e) => {
                return Err(e);
            },
        };
        len = saturating_sum(len, n0);
        assert(w0 is Ok && len == saturate(written(w0).len() as int));
        let l1 = Ok(8);
        assert(l1 == len_result(s1));
        let n1 = match l1 {
            Ok(n) => n,
            Err(e) => {
                return Err(e);
            },
        };
        proof {
            lemma_len_step(w0, s1, n1);
        }
        len = saturating_sum(len, n1);
        assert(w1 is Ok && len == saturate(written(w1).len() as int));
        let l2 = compact_string_len(&self.transaction_state);
        assert(l2 == len_result(s2));
        let n2 = match l2 {
            Ok(n) => n,
            Err(e) => {
                return Err(e);
            },
        };
        proof {
            lemma_len_step(w1, s2, n2);
        }
        len = saturating_sum(len, n2);
        assert(w2 is Ok && len == saturate(written(w2).len() as int));
        let l3 = tagged_fields_len(&sort_by_tag(&self._unknown_tagged_fields));
        assert(l3 == len_result(s3));
        let n3 = match l3 {
            Ok(n) => n,
            Err(e) => {
                return Err(e);
            },
        };
        proof {
            lemma_len_step(w2, s3, n3);
        }
        len = saturating_sum(len, n3);
        assert(w3 is Ok && len == saturate(written(w3).len() as int));
        Ok(len)
    }
}

impl Codec for TransactionState {
    type Item = TransactionState;

    open spec fn spec_read_item(s: Seq<u8>, version: i16) -> ReadOutcome<TransactionStateView> {
        TransactionState::spec_read(s, version)
    }

    open spec fn spec_write_item(v: TransactionStateView, version: i16) -> WriteOutcome {
        TransactionState::spec_write(v, version)
    }

    open spec fn canonical_item(v: TransactionStateView, version: i16) -> bool {
        TransactionState::canonical(v, version)
    }

    proof fn lemma_item_round_trip(v: TransactionStateView, version: i16, rest: Seq<u8>) {
        TransactionState::lemma_round_trip(v, version, rest);
    }

    open spec fn writable_item(v: TransactionStateView, version: i16) -> bool {
        TransactionState::writable(v, version)
    }

    proof fn lemma_item_writable(v: TransactionStateView, version: i16) {
        TransactionState::lemma_writable(v, version);
    }

    fn read_item(buf: &mut Bytes, version: i16) -> (r: Result<TransactionState, Error>) {
        TransactionState::read(buf, version)
    }

    fn write_item(item: &TransactionState, buf: &mut BytesMut, version: i16) -> (r: Result<(), Error>) {
        item.write(buf, version)
    }
}

impl MeasuredCodec for TransactionState {
    fn item_len(item: &TransactionState, version: i16) -> (r: Result<usize, Error>) {
        item.encoded_len(version)
    }
}

} // verus!
