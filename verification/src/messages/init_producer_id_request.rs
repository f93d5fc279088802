//! The init producer id request message.
use crate::buffer::{bytes_mut_seq, bytes_seq};
use crate::codec::{saturating_sum};
use crate::error::{Error, UnsupportedFieldVersion, UnsupportedVersion};
use crate::ints::{lemma_bool_roundtrip, lemma_i16_roundtrip, lemma_i32_roundtrip, lemma_i64_roundtrip, read_bool, read_i16, read_i32, read_i64, spec_read_bool, spec_read_i16, spec_read_i32, spec_read_i64, spec_write_bool, spec_write_i16, spec_write_i32, spec_write_i64, u16_bytes, u32_bytes, u64_bytes, write_bool, write_i16, write_i32, write_i64};
use crate::strings::{compact_nullable_string_len, lemma_compact_nullable_string_round_trip, lemma_nullable_string_round_trip, nullable_string_len, read_compact_nullable_string, read_nullable_string, spec_read_compact_nullable_string, spec_read_nullable_string, spec_write_compact_nullable_string, spec_write_nullable_string, write_compact_nullable_string, write_nullable_string};
use crate::tagged::{lemma_sorted_by_tag_in_order, lemma_sorted_tags_fit, lemma_tagged_fields_round_trip, lemma_tagged_fields_writable, read_tagged_fields, sort_by_tag, sorted_by_tag, spec_read_tagged_fields, spec_write_tagged_fields, tagged_fields_len, tags_fit, tags_in_order, write_tagged_fields};
use crate::types::{KafkaString, RawTaggedField};
use crate::wire::{ReadOutcome, ViewClone, WriteOutcome, chain, clone_vec, emit, empty_vec, fail, has_room, lemma_append_empty, lemma_chain_written, lemma_len_step, lemma_step, len_result, opt_view, read_as, read_opt_as, read_vec_as, saturate, took_front, views, written, wrote};
use bytes::{Bytes, BytesMut};
use vstd::prelude::*;

verus! {

broadcast use {crate::wire::lemma_chain_written, crate::wire::lemma_took_front_nothing, crate::wire::lemma_took_front_twice};

#[derive(Debug, PartialEq)]
pub struct InitProducerIdRequestData {
    /// The transactional id, or null if the producer is not transactional.
    pub transactional_id: Option<KafkaString>,
    /// The time in ms to wait before aborting idle transactions sent by this producer. This is
    /// only relevant if a TransactionalId has been defined.
    pub transaction_timeout_ms: i32,
    /// The producer id. This is used to disambiguate requests if a transactional id is reused
    /// following its expiration.
    pub producer_id: i64,
    /// The producer's current epoch. This will be checked against the producer epoch on the
    /// broker, and the request will return an error if they do not match.
    pub producer_epoch: i16,
    /// True if the client wants to enable two-phase commit (2PC) protocol for transactions.
    pub enable2_pc: bool,
    /// True if the client wants to keep the currently ongoing transaction instead of aborting it.
    pub keep_prepared_txn: bool,
    pub _unknown_tagged_fields: Vec<RawTaggedField>,
}

/// What a `InitProducerIdRequestData` holds, as the specification sees it.
#[verifier::ext_equal]
pub struct InitProducerIdRequestDataView {
    pub transactional_id: Option<Seq<u8>>,
    pub transaction_timeout_ms: i32,
    pub producer_id: i64,
    pub producer_epoch: i16,
    pub enable2_pc: bool,
    pub keep_prepared_txn: bool,
    pub unknown_tagged_fields: Seq<(u32, Seq<u8>)>,
}

impl View for InitProducerIdRequestData {
    type V = InitProducerIdRequestDataView;

    open spec fn view(&self) -> InitProducerIdRequestDataView {
        InitProducerIdRequestDataView {
            transactional_id: opt_view(self.transactional_id),
            transaction_timeout_ms: self.transaction_timeout_ms,
            producer_id: self.producer_id,
            producer_epoch: self.producer_epoch,
            enable2_pc: self.enable2_pc,
            keep_prepared_txn: self.keep_prepared_txn,
            unknown_tagged_fields: views(self._unknown_tagged_fields@),
        }
    }
}

impl Clone for InitProducerIdRequestData {
    fn clone(&self) -> (r: Self)
        ensures
            r@ == self@,
    {
        let r = InitProducerIdRequestData {
            transactional_id: match &self.transactional_id {
                Some(x) => Some(x.clone()),
                None => None,
            },
            transaction_timeout_ms: self.transaction_timeout_ms,
            producer_id: self.producer_id,
            producer_epoch: self.producer_epoch,
            enable2_pc: self.enable2_pc,
            keep_prepared_txn: self.keep_prepared_txn,
            _unknown_tagged_fields: clone_vec(&self._unknown_tagged_fields),
        };
        assert(r@ =~= self@);
        r
    }
}

impl ViewClone for InitProducerIdRequestData {
    fn clone_view(&self) -> (r: Self) {
        self.clone()
    }
}

impl Default for InitProducerIdRequestData {
    fn default() -> (r: Self)
        ensures
            r@ == Self::default_view(),
    {
        let r = InitProducerIdRequestData {
            transactional_id: None,
            transaction_timeout_ms: 0_i32,
            producer_id: -1i64,
            producer_epoch: -1i16,
            enable2_pc: false,
            keep_prepared_txn: false,
            _unknown_tagged_fields: empty_vec(),
        };
        assert(r@ =~= Self::default_view());
        r
    }
}

impl InitProducerIdRequestData {
    pub open spec fn default_view() -> InitProducerIdRequestDataView {
        InitProducerIdRequestDataView {
            transactional_id: None,
            transaction_timeout_ms: 0_i32,
            producer_id: -1i64,
            producer_epoch: -1i16,
            enable2_pc: false,
            keep_prepared_txn: false,
            unknown_tagged_fields: Seq::empty(),
        }
    }

    /// The `transactional_id` field, read from the front of `s`.
    #[verifier::opaque]
    pub open spec fn spec_read_transactional_id(s: Seq<u8>, version: i16) -> ReadOutcome<Option<Seq<u8>>> {
        if version >= 2 {
            spec_read_compact_nullable_string(s)
        } else {
            spec_read_nullable_string(s)
        }
    }

    /// The `transaction_timeout_ms` field, read from the front of `s`.
    #[verifier::opaque]
    pub open spec fn spec_read_transaction_timeout_ms(s: Seq<u8>, version: i16) -> ReadOutcome<i32> {
        spec_read_i32(s)
    }

    /// The `producer_id` field, read from the front of `s`.
    #[verifier::opaque]
    pub open spec fn spec_read_producer_id(s: Seq<u8>, version: i16) -> ReadOutcome<i64> {
        if version >= 3 {
            spec_read_i64(s)
        } else {
            Ok((-1i64, s))
        }
    }

    /// The `producer_epoch` field, read from the front of `s`.
    #[verifier::opaque]
    pub open spec fn spec_read_producer_epoch(s: Seq<u8>, version: i16) -> ReadOutcome<i16> {
        if version >= 3 {
            spec_read_i16(s)
        } else {
            Ok((-1i16, s))
        }
    }

    /// The `enable2_pc` field, read from the front of `s`.
    #[verifier::opaque]
    pub open spec fn spec_read_enable2_pc(s: Seq<u8>, version: i16) -> ReadOutcome<bool> {
        if version >= 6 {
            spec_read_bool(s)
        } else {
            Ok((false, s))
        }
    }

    /// The `keep_prepared_txn` field, read from the front of `s`.
    #[verifier::opaque]
    pub open spec fn spec_read_keep_prepared_txn(s: Seq<u8>, version: i16) -> ReadOutcome<bool> {
        if version >= 6 {
            spec_read_bool(s)
        } else {
            Ok((false, s))
        }
    }

    /// The tagged fields, read from the front of `s`.
    #[verifier::opaque]
    pub open spec fn spec_read_tags(s: Seq<u8>, version: i16) -> ReadOutcome<Seq<(u32, Seq<u8>)>> {
        if version >= 2 {
            spec_read_tagged_fields(s)
        } else {
            Ok((Seq::empty(), s))
        }
    }

    pub open spec fn spec_read(s: Seq<u8>, version: i16) -> ReadOutcome<InitProducerIdRequestDataView> {
        if version < 0 || version > 6 {
            Err(Error::UnsupportedVersion(UnsupportedVersion { api_key: 22, version }))
        } else {
            match (Self::spec_read_transactional_id(s, version)) {
                Err(e) => Err(e),
                Ok((transactional_id, s)) => match (Self::spec_read_transaction_timeout_ms(s, version)) {
                    Err(e) => Err(e),
                    Ok((transaction_timeout_ms, s)) => match (Self::spec_read_producer_id(s, version)) {
                        Err(e) => Err(e),
                        Ok((producer_id, s)) => match (Self::spec_read_producer_epoch(s, version)) {
                            Err(e) => Err(e),
                            Ok((producer_epoch, s)) => match (Self::spec_read_enable2_pc(s, version)) {
                                Err(e) => Err(e),
                                Ok((enable2_pc, s)) => match (Self::spec_read_keep_prepared_txn(s, version)) {
                                    Err(e) => Err(e),
                                    Ok((keep_prepared_txn, s)) => match (Self::spec_read_tags(s, version)) {
                                        Err(e) => Err(e),
                                        Ok((unknown_tagged_fields, s)) => Ok((InitProducerIdRequestDataView {
                                                    transactional_id: transactional_id,
                                                    transaction_timeout_ms: transaction_timeout_ms,
                                                    producer_id: producer_id,
                                                    producer_epoch: producer_epoch,
                                                    enable2_pc: enable2_pc,
                                                    keep_prepared_txn: keep_prepared_txn,
                                                    unknown_tagged_fields: unknown_tagged_fields,
                                                }, s)),
                                    },
                                },
                            },
                        },
                    },
                },
            }
        }
    }

    /// What writing the `transactional_id` field of `m` appends.
    #[verifier::opaque]
    pub open spec fn spec_write_transactional_id(m: InitProducerIdRequestDataView, version: i16) -> WriteOutcome {
        if version >= 2 {
            spec_write_compact_nullable_string(m.transactional_id)
        } else {
            spec_write_nullable_string(m.transactional_id)
        }
    }

    /// What writing the `transaction_timeout_ms` field of `m` appends.
    #[verifier::opaque]
    pub open spec fn spec_write_transaction_timeout_ms(m: InitProducerIdRequestDataView, version: i16) -> WriteOutcome {
        spec_write_i32(m.transaction_timeout_ms)
    }

    /// What writing the `producer_id` field of `m` appends.
    #[verifier::opaque]
    pub open spec fn spec_write_producer_id(m: InitProducerIdRequestDataView, version: i16) -> WriteOutcome {
        if version >= 3 {
            spec_write_i64(m.producer_id)
        } else {
            if m.producer_id != -1i64 {
                fail(Error::UnsupportedFieldVersion(UnsupportedFieldVersion { api_key: 22, field: "producer_id", version }))
            } else {
                emit(Seq::empty())
            }
        }
    }

    /// What writing the `producer_epoch` field of `m` appends.
    #[verifier::opaque]
    pub open spec fn spec_write_producer_epoch(m: InitProducerIdRequestDataView, version: i16) -> WriteOutcome {
        if version >= 3 {
            spec_write_i16(m.producer_epoch)
        } else {
            if m.producer_epoch != -1i16 {
                fail(Error::UnsupportedFieldVersion(UnsupportedFieldVersion { api_key: 22, field: "producer_epoch", version }))
            } else {
                emit(Seq::empty())
            }
        }
    }

    /// What writing the `enable2_pc` field of `m` appends.
    #[verifier::opaque]
    pub open spec fn spec_write_enable2_pc(m: InitProducerIdRequestDataView, version: i16) -> WriteOutcome {
        if version >= 6 {
            spec_write_bool(m.enable2_pc)
        } else {
            if m.enable2_pc != false {
                fail(Error::UnsupportedFieldVersion(UnsupportedFieldVersion { api_key: 22, field: "enable2_pc", version }))
            } else {
                emit(Seq::empty())
            }
        }
    }

    /// What writing the `keep_prepared_txn` field of `m` appends.
    #[verifier::opaque]
    pub open spec fn spec_write_keep_prepared_txn(m: InitProducerIdRequestDataView, version: i16) -> WriteOutcome {
        if version >= 6 {
            spec_write_bool(m.keep_prepared_txn)
        } else {
            if m.keep_prepared_txn != false {
                fail(Error::UnsupportedFieldVersion(UnsupportedFieldVersion { api_key: 22, field: "keep_prepared_txn", version }))
            } else {
                emit(Seq::empty())
            }
        }
    }

    /// What writing the tagged fields of `m` appends.
    #[verifier::opaque]
    pub open spec fn spec_write_tags(m: InitProducerIdRequestDataView, version: i16) -> WriteOutcome {
        if version >= 2 {
            spec_write_tagged_fields(sorted_by_tag(m.unknown_tagged_fields))
        } else {
            emit(Seq::empty())
        }
    }

    pub open spec fn spec_write(m: InitProducerIdRequestDataView, version: i16) -> WriteOutcome {
        if version < 0 || version > 6 {
            fail(Error::UnsupportedVersion(UnsupportedVersion { api_key: 22, version }))
        } else {
            chain(
                chain(
                    chain(
                        chain(
                            chain(
                                chain(
                                    Self::spec_write_transactional_id(m, version),
                                    Self::spec_write_transaction_timeout_ms(m, version),
                                ),
                                Self::spec_write_producer_id(m, version),
                            ),
                            Self::spec_write_producer_epoch(m, version),
                        ),
                        Self::spec_write_enable2_pc(m, version),
                    ),
                    Self::spec_write_keep_prepared_txn(m, version),
                ),
                Self::spec_write_tags(m, version),
            )
        }
    }

    /// Whether reading back what writing `m` in `version` appends gives `m`:
    /// fields that the version does not carry hold their default values, and
    /// tagged fields come in the order in which they are written.
    pub open spec fn canonical(m: InitProducerIdRequestDataView, version: i16) -> bool {
        &&& (if version >= 2 {
                tags_in_order(m.unknown_tagged_fields)
            } else {
                m.unknown_tagged_fields.len() == 0
        })
    }

    proof fn lemma_round_trip_transactional_id(m: InitProducerIdRequestDataView, version: i16, rest: Seq<u8>)
        requires
            Self::canonical(m, version),
            Self::spec_write_transactional_id(m, version) is Ok,
        ensures
            Self::spec_read_transactional_id(written(Self::spec_write_transactional_id(m, version)) + rest, version) == Ok::<(Option<Seq<u8>>, Seq<u8>), Error>((m.transactional_id, rest)),
    {
        reveal(InitProducerIdRequestData::spec_read_transactional_id);
        reveal(InitProducerIdRequestData::spec_write_transactional_id);
        if version >= 2 {
            lemma_compact_nullable_string_round_trip(m.transactional_id, rest);
        } else {
            lemma_nullable_string_round_trip(m.transactional_id, rest);
        }
    }

    proof fn lemma_round_trip_transaction_timeout_ms(m: InitProducerIdRequestDataView, version: i16, rest: Seq<u8>)
        requires
            Self::canonical(m, version),
            Self::spec_write_transaction_timeout_ms(m, version) is Ok,
        ensures
            Self::spec_read_transaction_timeout_ms(written(Self::spec_write_transaction_timeout_ms(m, version)) + rest, version) == Ok::<(i32, Seq<u8>), Error>((m.transaction_timeout_ms, rest)),
    {
        reveal(InitProducerIdRequestData::spec_read_transaction_timeout_ms);
        reveal(InitProducerIdRequestData::spec_write_transaction_timeout_ms);
        lemma_i32_roundtrip(m.transaction_timeout_ms, rest);
    }

    proof fn lemma_round_trip_producer_id(m: InitProducerIdRequestDataView, version: i16, rest: Seq<u8>)
        requires
            Self::canonical(m, version),
            Self::spec_write_producer_id(m, version) is Ok,
        ensures
            Self::spec_read_producer_id(written(Self::spec_write_producer_id(m, version)) + rest, version) == Ok::<(i64, Seq<u8>), Error>((m.producer_id, rest)),
    {
        reveal(InitProducerIdRequestData::spec_read_producer_id);
        reveal(InitProducerIdRequestData::spec_write_producer_id);
        if version >= 3 {
            lemma_i64_roundtrip(m.producer_id, rest);
        } else {
            assert(Seq::<u8>::empty() + rest =~= rest);
        }
    }

    proof fn lemma_round_trip_producer_epoch(m: InitProducerIdRequestDataView, version: i16, rest: Seq<u8>)
        requires
            Self::canonical(m, version),
            Self::spec_write_producer_epoch(m, version) is Ok,
        ensures
            Self::spec_read_producer_epoch(written(Self::spec_write_producer_epoch(m, version)) + rest, version) == Ok::<(i16, Seq<u8>), Error>((m.producer_epoch, rest)),
    {
        reveal(InitProducerIdRequestData::spec_read_producer_epoch);
        reveal(InitProducerIdRequestData::spec_write_producer_epoch);
        if version >= 3 {
            lemma_i16_roundtrip(m.producer_epoch, rest);
        } else {
            assert(Seq::<u8>::empty() + rest =~= rest);
        }
    }

    proof fn lemma_round_trip_enable2_pc(m: InitProducerIdRequestDataView, version: i16, rest: Seq<u8>)
        requires
            Self::canonical(m, version),
            Self::spec_write_enable2_pc(m, version) is Ok,
        ensures
            Self::spec_read_enable2_pc(written(Self::spec_write_enable2_pc(m, version)) + rest, version) == Ok::<(bool, Seq<u8>), Error>((m.enable2_pc, rest)),
    {
        reveal(InitProducerIdRequestData::spec_read_enable2_pc);
        reveal(InitProducerIdRequestData::spec_write_enable2_pc);
        if version >= 6 {
            lemma_bool_roundtrip(m.enable2_pc, rest);
        } else {
            assert(Seq::<u8>::empty() + rest =~= rest);
        }
    }

    proof fn lemma_round_trip_keep_prepared_txn(m: InitProducerIdRequestDataView, version: i16, rest: Seq<u8>)
        requires
            Self::canonical(m, version),
            Self::spec_write_keep_prepared_txn(m, version) is Ok,
        ensures
            Self::spec_read_keep_prepared_txn(written(Self::spec_write_keep_prepared_txn(m, version)) + rest, version) == Ok::<(bool, Seq<u8>), Error>((m.keep_prepared_txn, rest)),
    {
        reveal(InitProducerIdRequestData::spec_read_keep_prepared_txn);
        reveal(InitProducerIdRequestData::spec_write_keep_prepared_txn);
        if version >= 6 {
            lemma_bool_roundtrip(m.keep_prepared_txn, rest);
        } else {
            assert(Seq::<u8>::empty() + rest =~= rest);
        }
    }

    proof fn lemma_round_trip_tags(m: InitProducerIdRequestDataView, version: i16, rest: Seq<u8>)
        requires
            Self::canonical(m, version),
            Self::spec_write_tags(m, version) is Ok,
        ensures
            Self::spec_read_tags(written(Self::spec_write_tags(m, version)) + rest, version) == Ok::<(Seq<(u32, Seq<u8>)>, Seq<u8>), Error>((m.unknown_tagged_fields, rest)),
    {
        reveal(InitProducerIdRequestData::spec_read_tags);
        reveal(InitProducerIdRequestData::spec_write_tags);
        if version >= 2 {
            lemma_sorted_by_tag_in_order(m.unknown_tagged_fields);
            lemma_tagged_fields_round_trip(m.unknown_tagged_fields, rest);
        } else {
            assert(Seq::<u8>::empty() + rest =~= rest);
            assert(m.unknown_tagged_fields =~= Seq::empty());
        }
    }

    /// Reading back what writing `m` in `version` appends gives `m` again, and
    /// leaves what follows, for every canonical message whose write succeeds.
    #[verifier::rlimit(100)]
    #[verifier::spinoff_prover]
    pub proof fn lemma_round_trip(m: InitProducerIdRequestDataView, version: i16, rest: Seq<u8>)
        requires
            Self::canonical(m, version),
            Self::spec_write(m, version) is Ok,
        ensures
            Self::spec_read(written(Self::spec_write(m, version)) + rest, version) == Ok::<(InitProducerIdRequestDataView, Seq<u8>), Error>((m, rest)),
    {
        let b0 = written(Self::spec_write_transactional_id(m, version));
        let b1 = written(Self::spec_write_transaction_timeout_ms(m, version));
        let b2 = written(Self::spec_write_producer_id(m, version));
        let b3 = written(Self::spec_write_producer_epoch(m, version));
        let b4 = written(Self::spec_write_enable2_pc(m, version));
        let b5 = written(Self::spec_write_keep_prepared_txn(m, version));
        let b6 = written(Self::spec_write_tags(m, version));
        let t7 = rest;
        let t6 = b6 + t7;
        let t5 = b5 + t6;
        let t4 = b4 + t5;
        let t3 = b3 + t4;
        let t2 = b2 + t3;
        let t1 = b1 + t2;
        let t0 = b0 + t1;
        let w0 = Self::spec_write_transactional_id(m, version);
        let w1 = chain(w0, Self::spec_write_transaction_timeout_ms(m, version));
        let w2 = chain(w1, Self::spec_write_producer_id(m, version));
        let w3 = chain(w2, Self::spec_write_producer_epoch(m, version));
        let w4 = chain(w3, Self::spec_write_enable2_pc(m, version));
        let w5 = chain(w4, Self::spec_write_keep_prepared_txn(m, version));
        let w6 = chain(w5, Self::spec_write_tags(m, version));
        assert(Self::spec_write(m, version) == w6);
        assert(written(w6) + t7 =~= written(w5) + t6);
        assert(written(w5) + t6 =~= written(w4) + t5);
        assert(written(w4) + t5 =~= written(w3) + t4);
        assert(written(w3) + t4 =~= written(w2) + t3);
        assert(written(w2) + t3 =~= written(w1) + t2);
        assert(written(w1) + t2 =~= written(w0) + t1);
        Self::lemma_round_trip_transactional_id(m, version, t1);
        Self::lemma_round_trip_transaction_timeout_ms(m, version, t2);
        Self::lemma_round_trip_producer_id(m, version, t3);
        Self::lemma_round_trip_producer_epoch(m, version, t4);
        Self::lemma_round_trip_enable2_pc(m, version, t5);
        Self::lemma_round_trip_keep_prepared_txn(m, version, t6);
        Self::lemma_round_trip_tags(m, version, t7);
    }

    /// In a version that does not carry `unknown_tagged_fields`, writing ignores its value.
    pub proof fn lemma_write_ignores_unknown_tagged_fields(m: InitProducerIdRequestDataView, value: Seq<(u32, Seq<u8>)>, version: i16)
        requires
            !(version >= 2),
        ensures
            Self::spec_write((InitProducerIdRequestDataView { unknown_tagged_fields: value, ..m }), version) == Self::spec_write(m, version),
    {
        reveal(InitProducerIdRequestData::spec_write_transactional_id);
        reveal(InitProducerIdRequestData::spec_write_transaction_timeout_ms);
        reveal(InitProducerIdRequestData::spec_write_producer_id);
        reveal(InitProducerIdRequestData::spec_write_producer_epoch);
        reveal(InitProducerIdRequestData::spec_write_enable2_pc);
        reveal(InitProducerIdRequestData::spec_write_keep_prepared_txn);
        reveal(InitProducerIdRequestData::spec_write_tags);
    }

    /// The default message holds the default value of each field of the schema.
    pub proof fn lemma_default_values()
        ensures
            (Self::default_view().transactional_id is None),
            Self::default_view().transaction_timeout_ms == (0_i32),
            Self::default_view().producer_id == (-1i64),
            Self::default_view().producer_epoch == (-1i16),
            Self::default_view().enable2_pc == (false),
            Self::default_view().keep_prepared_txn == (false),
            Self::default_view().unknown_tagged_fields.len() == 0,
    {
    }

    /// Each integer, boolean and identifier field is written as its standard
    /// big-endian bytes (a boolean as `1` or `0`) in the versions that carry
    /// it, and as nothing in the others; reading it takes those bytes back (any
    /// byte other than `0` reads as `true`), or gives its default value.
    pub proof fn lemma_field_encodings(m: InitProducerIdRequestDataView, s: Seq<u8>, version: i16)
        ensures
            true ==> Self::spec_write_transaction_timeout_ms(m, version) == Ok::<Seq<u8>, (Error, Seq<u8>)>(u32_bytes(m.transaction_timeout_ms as u32)),
            version >= 3 ==> Self::spec_write_producer_id(m, version) == Ok::<Seq<u8>, (Error, Seq<u8>)>(u64_bytes(m.producer_id as u64)),
            version >= 3 ==> Self::spec_write_producer_epoch(m, version) == Ok::<Seq<u8>, (Error, Seq<u8>)>(u16_bytes(m.producer_epoch as u16)),
            version >= 6 ==> Self::spec_write_enable2_pc(m, version) == Ok::<Seq<u8>, (Error, Seq<u8>)>(seq![if m.enable2_pc { 1u8 } else { 0u8 }]),
            version >= 6 ==> Self::spec_write_keep_prepared_txn(m, version) == Ok::<Seq<u8>, (Error, Seq<u8>)>(seq![if m.keep_prepared_txn { 1u8 } else { 0u8 }]),
            true ==> Self::spec_read_transaction_timeout_ms(s, version) == spec_read_i32(s),
            version >= 3 ==> Self::spec_read_producer_id(s, version) == spec_read_i64(s),
            !(version >= 3) ==> Self::spec_read_producer_id(s, version) == Ok::<(i64, Seq<u8>), Error>((-1i64, s)),
            version >= 3 ==> Self::spec_read_producer_epoch(s, version) == spec_read_i16(s),
            !(version >= 3) ==> Self::spec_read_producer_epoch(s, version) == Ok::<(i16, Seq<u8>), Error>((-1i16, s)),
            version >= 6 ==> Self::spec_read_enable2_pc(s, version) == (if s.len() < 1 { Err(Error::UnexpectedEof) } else { Ok((s[0] != 0, s.drop_first())) }),
            !(version >= 6) ==> Self::spec_read_enable2_pc(s, version) == Ok::<(bool, Seq<u8>), Error>((false, s)),
            version >= 6 ==> Self::spec_read_keep_prepared_txn(s, version) == (if s.len() < 1 { Err(Error::UnexpectedEof) } else { Ok((s[0] != 0, s.drop_first())) }),
            !(version >= 6) ==> Self::spec_read_keep_prepared_txn(s, version) == Ok::<(bool, Seq<u8>), Error>((false, s)),
    {
        reveal(InitProducerIdRequestData::spec_write_transaction_timeout_ms);
        reveal(InitProducerIdRequestData::spec_read_transaction_timeout_ms);
        reveal(InitProducerIdRequestData::spec_write_producer_id);
        reveal(InitProducerIdRequestData::spec_read_producer_id);
        reveal(InitProducerIdRequestData::spec_write_producer_epoch);
        reveal(InitProducerIdRequestData::spec_read_producer_epoch);
        reveal(InitProducerIdRequestData::spec_write_enable2_pc);
        reveal(InitProducerIdRequestData::spec_read_enable2_pc);
        reveal(InitProducerIdRequestData::spec_write_keep_prepared_txn);
        reveal(InitProducerIdRequestData::spec_read_keep_prepared_txn);
    }

    /// Whether writing `m` in `version` succeeds, said over its parts: the
    /// version is one the schema covers, every field that the version cannot
    /// carry holds its default value, and every string, byte string, array and
    /// tagged field fits its length prefix.
    pub open spec fn writable(m: InitProducerIdRequestDataView, version: i16) -> bool {
        &&& 0 <= version <= 6
        &&& (m.transactional_id matches Some(b) ==> b.len() <= 0x7fff)
        &&& (if version >= 3 {
                true
            } else {
                !(m.producer_id != -1i64)
        })
        &&& (if version >= 3 {
                true
            } else {
                !(m.producer_epoch != -1i16)
        })
        &&& (if version >= 6 {
                true
            } else {
                !(m.enable2_pc != false)
        })
        &&& (if version >= 6 {
                true
            } else {
                !(m.keep_prepared_txn != false)
        })
        &&& (if version >= 2 {
                m.unknown_tagged_fields.len() <= u32::MAX && tags_fit(m.unknown_tagged_fields)
            } else {
                true
        })
    }

    proof fn lemma_writable_transactional_id(m: InitProducerIdRequestDataView, version: i16)
        ensures
            Self::spec_write_transactional_id(m, version) is Ok <==> (m.transactional_id matches Some(b) ==> b.len() <= 0x7fff),
    {
        reveal(InitProducerIdRequestData::spec_write_transactional_id);
    }

    proof fn lemma_writable_transaction_timeout_ms(m: InitProducerIdRequestDataView, version: i16)
        ensures
            Self::spec_write_transaction_timeout_ms(m, version) is Ok <==> true,
    {
        reveal(InitProducerIdRequestData::spec_write_transaction_timeout_ms);
    }

    proof fn lemma_writable_producer_id(m: InitProducerIdRequestDataView, version: i16)
        ensures
            Self::spec_write_producer_id(m, version) is Ok <==> (if version >= 3 { true } else { !(m.producer_id != -1i64) }),
    {
        reveal(InitProducerIdRequestData::spec_write_producer_id);
    }

    proof fn lemma_writable_producer_epoch(m: InitProducerIdRequestDataView, version: i16)
        ensures
            Self::spec_write_producer_epoch(m, version) is Ok <==> (if version >= 3 { true } else { !(m.producer_epoch != -1i16) }),
    {
        reveal(InitProducerIdRequestData::spec_write_producer_epoch);
    }

    proof fn lemma_writable_enable2_pc(m: InitProducerIdRequestDataView, version: i16)
        ensures
            Self::spec_write_enable2_pc(m, version) is Ok <==> (if version >= 6 { true } else { !(m.enable2_pc != false) }),
    {
        reveal(InitProducerIdRequestData::spec_write_enable2_pc);
    }

    proof fn lemma_writable_keep_prepared_txn(m: InitProducerIdRequestDataView, version: i16)
        ensures
            Self::spec_write_keep_prepared_txn(m, version) is Ok <==> (if version >= 6 { true } else { !(m.keep_prepared_txn != false) }),
    {
        reveal(InitProducerIdRequestData::spec_write_keep_prepared_txn);
    }

    proof fn lemma_writable_tags(m: InitProducerIdRequestDataView, version: i16)
        ensures
            Self::spec_write_tags(m, version) is Ok <==> (if version >= 2 { m.unknown_tagged_fields.len() <= u32::MAX && tags_fit(m.unknown_tagged_fields) } else { true }),
    {
        reveal(InitProducerIdRequestData::spec_write_tags);
        if version >= 2 {
            lemma_sorted_tags_fit(m.unknown_tagged_fields);
            lemma_tagged_fields_writable(sorted_by_tag(m.unknown_tagged_fields));
        }
    }

    /// Writing `m` in `version` succeeds exactly when `m` is writable in it;
    /// so do `write` and `encoded_len`, whose results follow `spec_write`.
    #[verifier::rlimit(72)]
    pub proof fn lemma_writable(m: InitProducerIdRequestDataView, version: i16)
        ensures
            Self::spec_write(m, version) is Ok <==> Self::writable(m, version),
    {
        Self::lemma_writable_transactional_id(m, version);
        Self::lemma_writable_transaction_timeout_ms(m, version);
        Self::lemma_writable_producer_id(m, version);
        Self::lemma_writable_producer_epoch(m, version);
        Self::lemma_writable_enable2_pc(m, version);
        Self::lemma_writable_keep_prepared_txn(m, version);
        Self::lemma_writable_tags(m, version);
    }

    /// A version outside the range that the schema covers is refused, by
    /// reads and by writes alike, before anything is read or written.
    pub proof fn lemma_refused_version(m: InitProducerIdRequestDataView, s: Seq<u8>, version: i16)
        requires
            version < 0 || version > 6,
        ensures
            Self::spec_read(s, version) == Err::<(InitProducerIdRequestDataView, Seq<u8>), Error>(Error::UnsupportedVersion(UnsupportedVersion { api_key: 22, version })),
            Self::spec_write(m, version) == fail(Error::UnsupportedVersion(UnsupportedVersion { api_key: 22, version })),
    {
    }

    pub fn with_transactional_id(self, value: Option<KafkaString>) -> (r: Self)
        ensures
            r@ == (InitProducerIdRequestDataView { transactional_id: opt_view(value), ..self@ }),
    {
        let mut r = self;
        r.transactional_id = value;
        r
    }

    pub fn with_transaction_timeout_ms(self, value: i32) -> (r: Self)
        ensures
            r@ == (InitProducerIdRequestDataView { transaction_timeout_ms: value, ..self@ }),
    {
        let mut r = self;
        r.transaction_timeout_ms = value;
        r
    }

    pub fn with_producer_id(self, value: i64) -> (r: Self)
        ensures
            r@ == (InitProducerIdRequestDataView { producer_id: value, ..self@ }),
    {
        let mut r = self;
        r.producer_id = value;
        r
    }

    pub fn with_producer_epoch(self, value: i16) -> (r: Self)
        ensures
            r@ == (InitProducerIdRequestDataView { producer_epoch: value, ..self@ }),
    {
        let mut r = self;
        r.producer_epoch = value;
        r
    }

    pub fn with_enable2_pc(self, value: bool) -> (r: Self)
        ensures
            r@ == (InitProducerIdRequestDataView { enable2_pc: value, ..self@ }),
    {
        let mut r = self;
        r.enable2_pc = value;
        r
    }

    pub fn with_keep_prepared_txn(self, value: bool) -> (r: Self)
        ensures
            r@ == (InitProducerIdRequestDataView { keep_prepared_txn: value, ..self@ }),
    {
        let mut r = self;
        r.keep_prepared_txn = value;
        r
    }

    fn read_transactional_id(buf: &mut Bytes, version: i16) -> (r: Result<Option<KafkaString>, Error>)
        ensures
            read_opt_as(Self::spec_read_transactional_id(bytes_seq(*old(buf)), version), *final(buf), r),
            took_front(*old(buf), *final(buf)),
    {
        proof {
            reveal(InitProducerIdRequestData::spec_read_transactional_id);
        }
        Ok(if version >= 2 {
                read_compact_nullable_string(buf)?
            } else {
                read_nullable_string(buf)?
        })
    }

    fn read_transaction_timeout_ms(buf: &mut Bytes, version: i16) -> (r: Result<i32, Error>)
        ensures
            read_as(Self::spec_read_transaction_timeout_ms(bytes_seq(*old(buf)), version), *final(buf), r),
            took_front(*old(buf), *final(buf)),
    {
        proof {
            reveal(InitProducerIdRequestData::spec_read_transaction_timeout_ms);
        }
        Ok(read_i32(buf)?)
    }

    fn read_producer_id(buf: &mut Bytes, version: i16) -> (r: Result<i64, Error>)
        ensures
            read_as(Self::spec_read_producer_id(bytes_seq(*old(buf)), version), *final(buf), r),
            took_front(*old(buf), *final(buf)),
    {
        proof {
            reveal(InitProducerIdRequestData::spec_read_producer_id);
        }
        Ok(if version >= 3 {
                read_i64(buf)?
            } else {
                -1i64
        })
    }

    fn read_producer_epoch(buf: &mut Bytes, version: i16) -> (r: Result<i16, Error>)
        ensures
            read_as(Self::spec_read_producer_epoch(bytes_seq(*old(buf)), version), *final(buf), r),
            took_front(*old(buf), *final(buf)),
    {
        proof {
            reveal(InitProducerIdRequestData::spec_read_producer_epoch);
        }
        Ok(if version >= 3 {
                read_i16(buf)?
            } else {
                -1i16
        })
    }

    fn read_enable2_pc(buf: &mut Bytes, version: i16) -> (r: Result<bool, Error>)
        ensures
            read_as(Self::spec_read_enable2_pc(bytes_seq(*old(buf)), version), *final(buf), r),
            took_front(*old(buf), *final(buf)),
    {
        proof {
            reveal(InitProducerIdRequestData::spec_read_enable2_pc);
        }
        Ok(if version >= 6 {
                read_bool(buf)?
            } else {
                false
        })
    }

    fn read_keep_prepared_txn(buf: &mut Bytes, version: i16) -> (r: Result<bool, Error>)
        ensures
            read_as(Self::spec_read_keep_prepared_txn(bytes_seq(*old(buf)), version), *final(buf), r),
            took_front(*old(buf), *final(buf)),
    {
        proof {
            reveal(InitProducerIdRequestData::spec_read_keep_prepared_txn);
        }
        Ok(if version >= 6 {
                read_bool(buf)?
            } else {
                false
        })
    }

    fn read_tags(buf: &mut Bytes, version: i16) -> (r: Result<Vec<RawTaggedField>, Error>)
        ensures
            read_vec_as(Self::spec_read_tags(bytes_seq(*old(buf)), version), *final(buf), r),
            took_front(*old(buf), *final(buf)),
    {
        proof {
            reveal(InitProducerIdRequestData::spec_read_tags);
        }
        Ok(if version >= 2 {
                read_tagged_fields(buf)?
            } else {
                empty_vec()
        })
    }

    #[verifier::rlimit(62)]
    #[verifier::spinoff_prover]
    pub fn read(buf: &mut Bytes, version: i16) -> (r: Result<Self, Error>)
        ensures
            read_as(Self::spec_read(bytes_seq(*old(buf)), version), *final(buf), r),
            took_front(*old(buf), *final(buf)),
            (version < 0 || version > 6) ==> bytes_seq(*final(buf)) == bytes_seq(*old(buf)),
    {
        if version < 0 || version > 6 {
            return Err(Error::UnsupportedVersion(UnsupportedVersion::new(22, version)));
        }
        let transactional_id = Self::read_transactional_id(buf, version)?;
        let transaction_timeout_ms = Self::read_transaction_timeout_ms(buf, version)?;
        let producer_id = Self::read_producer_id(buf, version)?;
        let producer_epoch = Self::read_producer_epoch(buf, version)?;
        let enable2_pc = Self::read_enable2_pc(buf, version)?;
        let keep_prepared_txn = Self::read_keep_prepared_txn(buf, version)?;
        let _unknown_tagged_fields = Self::read_tags(buf, version)?;
        Ok(InitProducerIdRequestData {
                transactional_id: transactional_id,
                transaction_timeout_ms: transaction_timeout_ms,
                producer_id: producer_id,
                producer_epoch: producer_epoch,
                enable2_pc: enable2_pc,
                keep_prepared_txn: keep_prepared_txn,
                _unknown_tagged_fields: _unknown_tagged_fields,
        })
    }

    #[verifier::rlimit(100)]
    #[verifier::spinoff_prover]
    pub fn write(&self, buf: &mut BytesMut, version: i16) -> (r: Result<(), Error>)
        requires
            has_room(Self::spec_write(self@, version), *old(buf)),
        ensures
            wrote(Self::spec_write(self@, version), *old(buf), *final(buf), r),
    {
        if version < 0 || version > 6 {
            return Err(Error::UnsupportedVersion(UnsupportedVersion::new(22, version)));
        }
        let ghost m = self@;
        proof {
            reveal(InitProducerIdRequestData::spec_write_transactional_id);
            reveal(InitProducerIdRequestData::spec_write_transaction_timeout_ms);
            reveal(InitProducerIdRequestData::spec_write_producer_id);
            reveal(InitProducerIdRequestData::spec_write_producer_epoch);
            reveal(InitProducerIdRequestData::spec_write_enable2_pc);
            reveal(InitProducerIdRequestData::spec_write_keep_prepared_txn);
            reveal(InitProducerIdRequestData::spec_write_tags);
        }
        let ghost s0 = Self::spec_write_transactional_id(m, version);
        let ghost w0 = s0;
        let ghost s1 = Self::spec_write_transaction_timeout_ms(m, version);
        let ghost w1 = chain(w0, s1);
        let ghost s2 = Self::spec_write_producer_id(m, version);
        let ghost w2 = chain(w1, s2);
        let ghost s3 = Self::spec_write_producer_epoch(m, version);
        let ghost w3 = chain(w2, s3);
        let ghost s4 = Self::spec_write_enable2_pc(m, version);
        let ghost w4 = chain(w3, s4);
        let ghost s5 = Self::spec_write_keep_prepared_txn(m, version);
        let ghost w5 = chain(w4, s5);
        let ghost s6 = Self::spec_write_tags(m, version);
        let ghost w6 = chain(w5, s6);
        assert(Self::spec_write(m, version) == w6);
        assert(written(w5).len() <= written(w6).len() && (w5 is Err ==> w6 == w5));
        assert(written(w4).len() <= written(w6).len() && (w4 is Err ==> w6 == w4));
        assert(written(w3).len() <= written(w6).len() && (w3 is Err ==> w6 == w3));
        assert(written(w2).len() <= written(w6).len() && (w2 is Err ==> w6 == w2));
        assert(written(w1).len() <= written(w6).len() && (w1 is Err ==> w6 == w1));
        assert(written(w0).len() <= written(w6).len() && (w0 is Err ==> w6 == w0));
        let ghost mid = bytes_mut_seq(*buf);
        proof {
            lemma_append_empty(mid);
        }
        let r0 = if version >= 2 {
            write_compact_nullable_string(buf, &self.transactional_id)
        } else {
            write_nullable_string(buf, &self.transactional_id)
        };
        assert(bytes_mut_seq(*buf) == mid + written(s0));
        if r0.is_err() {
            return r0;
        }
        let ghost mid = bytes_mut_seq(*buf);
        proof {
            lemma_append_empty(mid);
        }
        let r1 = {
            write_i32(buf, self.transaction_timeout_ms);
            Ok(())
        };
        assert(bytes_mut_seq(*buf) == mid + written(s1));
        proof {
            lemma_step(bytes_mut_seq(*old(buf)), w0, s1);
        }
        if r1.is_err() {
            return r1;
        }
        let ghost mid = bytes_mut_seq(*buf);
        proof {
            lemma_append_empty(mid);
        }
        let r2 = if version >= 3 {
            {
                write_i64(buf, self.producer_id);
                Ok(())
            }
        } else {
            if self.producer_id != -1i64 {
                Err(Error::UnsupportedFieldVersion(UnsupportedFieldVersion::new(22, "producer_id", version)))
            } else {
                Ok(())
            }
        };
        assert(bytes_mut_seq(*buf) == mid + written(s2));
        proof {
            lemma_step(bytes_mut_seq(*old(buf)), w1, s2);
        }
        if r2.is_err() {
            return r2;
        }
        let ghost mid = bytes_mut_seq(*buf);
        proof {
            lemma_append_empty(mid);
        }
        let r3 = if version >= 3 {
            {
                write_i16(buf, self.producer_epoch);
                Ok(())
            }
        } else {
            if self.producer_epoch != -1i16 {
                Err(Error::UnsupportedFieldVersion(UnsupportedFieldVersion::new(22, "producer_epoch", version)))
            } else {
                Ok(())
            }
        };
        assert(bytes_mut_seq(*buf) == mid + written(s3));
        proof {
            lemma_step(bytes_mut_seq(*old(buf)), w2, s3);
        }
        if r3.is_err() {
            return r3;
        }
        let ghost mid = bytes_mut_seq(*buf);
        proof {
            lemma_append_empty(mid);
        }
        let r4 = if version >= 6 {
            {
                write_bool(buf, self.enable2_pc);
                Ok(())
            }
        } else {
            if self.enable2_pc != false {
                Err(Error::UnsupportedFieldVersion(UnsupportedFieldVersion::new(22, "enable2_pc", version)))
            } else {
                Ok(())
            }
        };
        assert(bytes_mut_seq(*buf) == mid + written(s4));
        proof {
            lemma_step(bytes_mut_seq(*old(buf)), w3, s4);
        }
        if r4.is_err() {
            return r4;
        }
        let ghost mid = bytes_mut_seq(*buf);
        proof {
            lemma_append_empty(mid);
        }
        let r5 = if version >= 6 {
            {
                write_bool(buf, self.keep_prepared_txn);
                Ok(())
            }
        } else {
            if self.keep_prepared_txn != false {
                Err(Error::UnsupportedFieldVersion(UnsupportedFieldVersion::new(22, "keep_prepared_txn", version)))
            } else {
                Ok(())
            }
        };
        assert(bytes_mut_seq(*buf) == mid + written(s5));
        proof {
            lemma_step(bytes_mut_seq(*old(buf)), w4, s5);
        }
        if r5.is_err() {
            return r5;
        }
        let ghost mid = bytes_mut_seq(*buf);
        proof {
            lemma_append_empty(mid);
        }
        let r6 = if version >= 2 {
            write_tagged_fields(buf, &sort_by_tag(&self._unknown_tagged_fields))
        } else {
            Ok(())
        };
        assert(bytes_mut_seq(*buf) == mid + written(s6));
        proof {
            lemma_step(bytes_mut_seq(*old(buf)), w5, s6);
        }
        if r6.is_err() {
            return r6;
        }
        Ok(())
    }

    #[verifier::rlimit(100)]
    #[verifier::spinoff_prover]
    pub fn encoded_len(&self, version: i16) -> (r: Result<usize, Error>)
        ensures
            r == len_result(Self::spec_write(self@, version)),
    {
        if version < 0 || version > 6 {
            return Err(Error::UnsupportedVersion(UnsupportedVersion::new(22, version)));
        }
        let ghost m = self@;
        proof {
            reveal(InitProducerIdRequestData::spec_write_transactional_id);
            reveal(InitProducerIdRequestData::spec_write_transaction_timeout_ms);
            reveal(InitProducerIdRequestData::spec_write_producer_id);
            reveal(InitProducerIdRequestData::spec_write_producer_epoch);
            reveal(InitProducerIdRequestData::spec_write_enable2_pc);
            reveal(InitProducerIdRequestData::spec_write_keep_prepared_txn);
            reveal(InitProducerIdRequestData::spec_write_tags);
        }
        let ghost s0 = Self::spec_write_transactional_id(m, version);
        let ghost w0 = s0;
        let ghost s1 = Self::spec_write_transaction_timeout_ms(m, version);
        let ghost w1 = chain(w0, s1);
        let ghost s2 = Self::spec_write_producer_id(m, version);
        let ghost w2 = chain(w1, s2);
        let ghost s3 = Self::spec_write_producer_epoch(m, version);
        let ghost w3 = chain(w2, s3);
        let ghost s4 = Self::spec_write_enable2_pc(m, version);
        let ghost w4 = chain(w3, s4);
        let ghost s5 = Self::spec_write_keep_prepared_txn(m, version);
        let ghost w5 = chain(w4, s5);
        let ghost s6 = Self::spec_write_tags(m, version);
        let ghost w6 = chain(w5, s6);
        assert(Self::spec_write(m, version) == w6);
        assert(w5 is Err ==> w6 == w5);
        assert(w4 is Err ==> w6 == w4);
        assert(w3 is Err ==> w6 == w3);
        assert(w2 is Err ==> w6 == w2);
        assert(w1 is Err ==> w6 == w1);
        assert(w0 is Err ==> w6 == w0);
        let mut len: usize = 0;
        let l0 = if version >= 2 {
            compact_nullable_string_len(&self.transactional_id)
        } else {
            nullable_string_len(&self.transactional_id)
        };
        assert(l0 == len_result(s0));
        let n0 = match l0 {
            Ok(n) => n,
            Err(e) => {
                return Err(e);
            },
        };
        len = saturating_sum(len, n0);
        assert(w0 is Ok && len == saturate(written(w0).len() as int));
        let l1 = Ok(4);
        assert(l1 == len_result(s1));
        let n1 = match l1 {
            Ok(n) => n,
            Err(e) => {
                return Err(e);
            },
        };
        proof {
            lemma_len_step(w0, s1, n1);
        }
        len = saturating_sum(len, n1);
        assert(w1 is Ok && len == saturate(written(w1).len() as int));
        let l2 = if version >= 3 {
            Ok(8)
        } else {
            if self.producer_id != -1i64 {
                Err(Error::UnsupportedFieldVersion(UnsupportedFieldVersion::new(22, "producer_id", version)))
            } else {
                Ok(0)
            }
        };
        assert(l2 == len_result(s2));
        let n2 = match l2 {
            Ok(n) => n,
            Err(e) => {
                return Err(e);
            },
        };
        proof {
            lemma_len_step(w1, s2, n2);
        }
        len = saturating_sum(len, n2);
        assert(w2 is Ok && len == saturate(written(w2).len() as int));
        let l3 = if version >= 3 {
            Ok(2)
        } else {
            if self.producer_epoch != -1i16 {
                Err(Error::UnsupportedFieldVersion(UnsupportedFieldVersion::new(22, "producer_epoch", version)))
            } else {
                Ok(0)
            }
        };
        assert(l3 == len_result(s3));
        let n3 = match l3 {
            Ok(n) => n,
            Err(e) => {
                return Err(e);
            },
        };
        proof {
            lemma_len_step(w2, s3, n3);
        }
        len = saturating_sum(len, n3);
        assert(w3 is Ok && len == saturate(written(w3).len() as int));
        let l4 = if version >= 6 {
            Ok(1)
        } else {
            if self.enable2_pc != false {
                Err(Error::UnsupportedFieldVersion(UnsupportedFieldVersion::new(22, "enable2_pc", version)))
            } else {
                Ok(0)
            }
        };
        assert(l4 == len_result(s4));
        let n4 = match l4 {
            Ok(n) => n,
            Err(e) => {
                return Err(e);
            },
        };
        proof {
            lemma_len_step(w3, s4, n4);
        }
        len = saturating_sum(len, n4);
        assert(w4 is Ok && len == saturate(written(w4).len() as int));
        let l5 = if version >= 6 {
            Ok(1)
        } else {
            if self.keep_prepared_txn != false {
                Err(Error::UnsupportedFieldVersion(UnsupportedFieldVersion::new(22, "keep_prepared_txn", version)))
            } else {
                Ok(0)
            }
        };
        assert(l5 == len_result(s5));
        let n5 = match l5 {
            Ok(n) => n,
            Err(e) => {
                return Err(e);
            },
        };
        proof {
            lemma_len_step(w4, s5, n5);
        }
        len = saturating_sum(len, n5);
        assert(w5 is Ok && len == saturate(written(w5).len() as int));
        let l6 = if version >= 2 {
            tagged_fields_len(&sort_by_tag(&self._unknown_tagged_fields))
        } else {
            Ok(0)
        };
        assert(l6 == len_result(s6));
        let n6 = match l6 {
            Ok(n) => n,
            Err(e) => {
                return Err(e);
            },
        };
        proof {
            lemma_len_step(w5, s6, n6);
        }
        len = saturating_sum(len, n6);
        assert(w6 is Ok && len == saturate(written(w6).len() as int));
        Ok(len)
    }
}

} // verus!
