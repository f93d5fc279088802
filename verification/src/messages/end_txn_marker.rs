//! The end txn marker message.
use crate::buffer::{bytes_mut_seq, bytes_seq};
use crate::error::{Error};
use crate::ints::{lemma_i32_roundtrip, read_i32, spec_read_i32, spec_write_i32, u32_bytes, write_i32};
use crate::types::{RawTaggedField};
use crate::wire::{ReadOutcome, ViewClone, WriteOutcome, clone_vec, empty_vec, has_room, lemma_append_empty, lemma_chain_written, read_as, took_front, views, written, wrote};
use bytes::{Bytes, BytesMut};
use vstd::prelude::*;

verus! {

broadcast use {crate::wire::lemma_chain_written, crate::wire::lemma_took_front_nothing, crate::wire::lemma_took_front_twice};

#[derive(Debug, PartialEq)]
pub struct EndTxnMarkerData {
    /// The coordinator epoch when appending the record
    pub coordinator_epoch: i32,
    pub _unknown_tagged_fields: Vec<RawTaggedField>,
}

/// What a `EndTxnMarkerData` holds, as the specification sees it.
#[verifier::ext_equal]
pub struct EndTxnMarkerDataView {
    pub coordinator_epoch: i32,
    pub unknown_tagged_fields: Seq<(u32, Seq<u8>)>,
}

impl View for EndTxnMarkerData {
    type V = EndTxnMarkerDataView;

    open spec fn view(&self) -> EndTxnMarkerDataView {
        EndTxnMarkerDataView {
            coordinator_epoch: self.coordinator_epoch,
            unknown_tagged_fields: views(self._unknown_tagged_fields@),
        }
    }
}

impl Clone for EndTxnMarkerData {
    fn clone(&self) -> (r: Self)
        ensures
            r@ == self@,
    {
        let r = EndTxnMarkerData {
            coordinator_epoch: self.coordinator_epoch,
            _unknown_tagged_fields: clone_vec(&self._unknown_tagged_fields),
        };
        assert(r@ =~= self@);
        r
    }
}

impl ViewClone for EndTxnMarkerData {
    fn clone_view(&self) -> (r: Self) {
        self.clone()
    }
}

impl Default for EndTxnMarkerData {
    fn default() -> (r: Self)
        ensures
            r@ == Self::default_view(),
    {
        let r = EndTxnMarkerData {
            coordinator_epoch: 0_i32,
            _unknown_tagged_fields: empty_vec(),
        };
        assert(r@ =~= Self::default_view());
        r
    }
}

impl EndTxnMarkerData {
    pub open spec fn default_view() -> EndTxnMarkerDataView {
        EndTxnMarkerDataView {
            coordinator_epoch: 0_i32,
            unknown_tagged_fields: Seq::empty(),
        }
    }

    /// The `coordinator_epoch` field, read from the front of `s`.
    #[verifier::opaque]
    pub open spec fn spec_read_coordinator_epoch(s: Seq<u8>, version: i16) -> ReadOutcome<i32> {
        spec_read_i32(s)
    }

    pub open spec fn spec_read(s: Seq<u8>, version: i16) -> ReadOutcome<EndTxnMarkerDataView> {
        match (Self::spec_read_coordinator_epoch(s, version)) {
            Err(e) => Err(e),
            Ok((coordinator_epoch, s)) => match (Ok((Seq::empty(), s))) {
                Err(e) => Err(e),
                Ok((unknown_tagged_fields, s)) => Ok((EndTxnMarkerDataView {
                            coordinator_epoch: coordinator_epoch,
                            unknown_tagged_fields: unknown_tagged_fields,
                        }, s)),
            },
        }
    }

    /// What writing the `coordinator_epoch` field of `m` appends.
    #[verifier::opaque]
    pub open spec fn spec_write_coordinator_epoch(m: EndTxnMarkerDataView, version: i16) -> WriteOutcome {
        spec_write_i32(m.coordinator_epoch)
    }

    pub open spec fn spec_write(m: EndTxnMarkerDataView, version: i16) -> WriteOutcome {
        Self::spec_write_coordinator_epoch(m, version)
    }

    /// Whether reading back what writing `m` in `version` appends gives `m`:
    /// fields that the version does not carry hold their default values, and
    /// tagged fields come in the order in which they are written.
    pub open spec fn canonical(m: EndTxnMarkerDataView, version: i16) -> bool {
        &&& m.unknown_tagged_fields.len() == 0
    }

    proof fn lemma_round_trip_coordinator_epoch(m: EndTxnMarkerDataView, version: i16, rest: Seq<u8>)
        requires
            Self::canonical(m, version),
            Self::spec_write_coordinator_epoch(m, version) is Ok,
        ensures
            Self::spec_read_coordinator_epoch(written(Self::spec_write_coordinator_epoch(m, version)) + rest, version) == Ok::<(i32, Seq<u8>), Error>((m.coordinator_epoch, rest)),
    {
        reveal(EndTxnMarkerData::spec_read_coordinator_epoch);
        reveal(EndTxnMarkerData::spec_write_coordinator_epoch);
        lemma_i32_roundtrip(m.coordinator_epoch, rest);
    }

    /// Reading back what writing `m` in `version` appends gives `m` again, and
    /// leaves what follows, for every canonical message whose write succeeds.
    #[verifier::rlimit(50)]
    #[verifier::spinoff_prover]
    pub proof fn lemma_round_trip(m: EndTxnMarkerDataView, version: i16, rest: Seq<u8>)
        requires
            Self::canonical(m, version),
            Self::spec_write(m, version) is Ok,
        ensures
            Self::spec_read(written(Self::spec_write(m, version)) + rest, version) == Ok::<(EndTxnMarkerDataView, Seq<u8>), Error>((m, rest)),
    {
        let b0 = written(Self::spec_write_coordinator_epoch(m, version));
        let t1 = rest;
        let t0 = b0 + t1;
        let w0 = Self::spec_write_coordinator_epoch(m, version);
        assert(Self::spec_write(m, version) == w0);
        Self::lemma_round_trip_coordinator_epoch(m, version, t1);
        assert(m.unknown_tagged_fields =~= Seq::empty());
    }

    /// In a version that does not carry `unknown_tagged_fields`, writing ignores its value.
    pub proof fn lemma_write_ignores_unknown_tagged_fields(m: EndTxnMarkerDataView, value: Seq<(u32, Seq<u8>)>, version: i16)
        ensures
            Self::spec_write((EndTxnMarkerDataView { unknown_tagged_fields: value, ..m }), version) == Self::spec_write(m, version),
    {
        reveal(EndTxnMarkerData::spec_write_coordinator_epoch);
    }

    /// The default message holds the default value of each field of the schema.
    pub proof fn lemma_default_values()
        ensures
            Self::default_view().coordinator_epoch == (0_i32),
            Self::default_view().unknown_tagged_fields.len() == 0,
    {
    }

    /// Each integer, boolean and identifier field is written as its standard
    /// big-endian bytes (a boolean as `1` or `0`) in the versions that carry
    /// it, and as nothing in the others; reading it takes those bytes back (any
    /// byte other than `0` reads as `true`), or gives its default value.
    pub proof fn lemma_field_encodings(m: EndTxnMarkerDataView, s: Seq<u8>, version: i16)
        ensures
            true ==> Self::spec_write_coordinator_epoch(m, version) == Ok::<Seq<u8>, (Error, Seq<u8>)>(u32_bytes(m.coordinator_epoch as u32)),
            true ==> Self::spec_read_coordinator_epoch(s, version) == spec_read_i32(s),
    {
        reveal(EndTxnMarkerData::spec_write_coordinator_epoch);
        reveal(EndTxnMarkerData::spec_read_coordinator_epoch);
    }

    /// Whether writing `m` in `version` succeeds, said over its parts: the
    /// version is one the schema covers, every field that the version cannot
    /// carry holds its default value, and every string, byte string, array and
    /// tagged field fits its length prefix.
    pub open spec fn writable(m: EndTxnMarkerDataView, version: i16) -> bool {
        true
    }

    proof fn lemma_writable_coordinator_epoch(m: EndTxnMarkerDataView, version: i16)
        ensures
            Self::spec_write_coordinator_epoch(m, version) is Ok <==> true,
    {
        reveal(EndTxnMarkerData::spec_write_coordinator_epoch);
    }

    /// Writing `m` in `version` succeeds exactly when `m` is writable in it;
    /// so do `write` and `encoded_len`, whose results follow `spec_write`.
    #[verifier::rlimit(36)]
    pub proof fn lemma_writable(m: EndTxnMarkerDataView, version: i16)
        ensures
            Self::spec_write(m, version) is Ok <==> Self::writable(m, version),
    {
        Self::lemma_writable_coordinator_epoch(m, version);
    }

    fn read_coordinator_epoch(buf: &mut Bytes, version: i16) -> (r: Result<i32, Error>)
        ensures
            read_as(Self::spec_read_coordinator_epoch(bytes_seq(*old(buf)), version), *final(buf), r),
            took_front(*old(buf), *final(buf)),
    {
        proof {
            reveal(EndTxnMarkerData::spec_read_coordinator_epoch);
        }
        Ok(read_i32(buf)?)
    }

    pub fn read(buf: &mut Bytes, version: i16) -> (r: Result<Self, Error>)
        ensures
            read_as(Self::spec_read(bytes_seq(*old(buf)), version), *final(buf), r),
            took_front(*old(buf), *final(buf)),
    {
        let coordinator_epoch = Self::read_coordinator_epoch(buf, version)?;
        let _unknown_tagged_fields = empty_vec();
        Ok(EndTxnMarkerData {
                coordinator_epoch: coordinator_epoch,
                _unknown_tagged_fields: _unknown_tagged_fields,
        })
    }

    pub fn write(&self, buf: &mut BytesMut, version: i16) -> (r: Result<(), Error>)
        requires
            has_room(Self::spec_write(self@, version), *old(buf)),
        ensures
            wrote(Self::spec_write(self@, version), *old(buf), *final(buf), r),
    {
        let ghost m = self@;
        proof {
            reveal(EndTxnMarkerData::spec_write_coordinator_epoch);
        }
        let ghost s0 = Self::spec_write_coordinator_epoch(m, version);
        let ghost w0 = s0;
        assert(Self::spec_write(m, version) == w0);
        let ghost mid = bytes_mut_seq(*buf);
        proof {
            lemma_append_empty(mid);
        }
        let r0 = {
            write_i32(buf, self.coordinator_epoch);
            Ok(())
        };
        assert(bytes_mut_seq(*buf) == mid + written(s0));
        if r0.is_err() {
            return r0;
        }
        Ok(())
    }
}

} // verus!
