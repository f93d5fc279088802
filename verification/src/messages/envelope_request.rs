//! The envelope request message.
use crate::buffer::{bytes_empty, bytes_mut_seq, bytes_seq};
use crate::error::{Error, UnsupportedVersion};
use crate::strings::{lemma_compact_bytes_round_trip, lemma_compact_nullable_bytes_round_trip, read_compact_bytes, read_compact_nullable_bytes, spec_read_compact_bytes, spec_read_compact_nullable_bytes, spec_write_compact_bytes, spec_write_compact_nullable_bytes, write_compact_bytes, write_compact_nullable_bytes};
use crate::tagged::{lemma_sorted_by_tag_in_order, lemma_sorted_tags_fit, lemma_tagged_fields_round_trip, lemma_tagged_fields_writable, read_tagged_fields, sort_by_tag, sorted_by_tag, spec_read_tagged_fields, spec_write_tagged_fields, tags_fit, tags_in_order, write_tagged_fields};
use crate::types::{RawTaggedField};
use crate::wire::{ReadOutcome, ViewClone, WriteOutcome, chain, clone_vec, empty_vec, fail, has_room, lemma_append_empty, lemma_chain_written, lemma_step, opt_bytes_view, read_as, read_bytes_as, read_opt_bytes_as, read_vec_as, took_front, views, written, wrote};
use bytes::{Bytes, BytesMut};
use vstd::prelude::*;

verus! {

broadcast use {crate::wire::lemma_chain_written, crate::wire::lemma_took_front_nothing, crate::wire::lemma_took_front_twice};

#[derive(Debug, PartialEq)]
pub struct EnvelopeRequestData {
    /// The embedded request header and data.
    pub request_data: Bytes,
    /// Value of the initial client principal when the request is redirected by a broker.
    pub request_principal: Option<Bytes>,
    /// The original client's address in bytes.
    pub client_host_address: Bytes,
    pub _unknown_tagged_fields: Vec<RawTaggedField>,
}

/// What a `EnvelopeRequestData` holds, as the specification sees it.
#[verifier::ext_equal]
pub struct EnvelopeRequestDataView {
    pub request_data: Seq<u8>,
    pub request_principal: Option<Seq<u8>>,
    pub client_host_address: Seq<u8>,
    pub unknown_tagged_fields: Seq<(u32, Seq<u8>)>,
}

impl View for EnvelopeRequestData {
    type V = EnvelopeRequestDataView;

    open spec fn view(&self) -> EnvelopeRequestDataView {
        EnvelopeRequestDataView {
            request_data: bytes_seq(self.request_data),
            request_principal: opt_bytes_view(self.request_principal),
            client_host_address: bytes_seq(self.client_host_address),
            unknown_tagged_fields: views(self._unknown_tagged_fields@),
        }
    }
}

impl Clone for EnvelopeRequestData {
    fn clone(&self) -> (r: Self)
        ensures
            r@ == self@,
    {
        let r = EnvelopeRequestData {
            request_data: self.request_data.clone(),
            request_principal: match &self.request_principal {
                Some(x) => Some(x.clone()),
                None => None,
            },
            client_host_address: self.client_host_address.clone(),
            _unknown_tagged_fields: clone_vec(&self._unknown_tagged_fields),
        };
        assert(r@ =~= self@);
        r
    }
}

impl ViewClone for EnvelopeRequestData {
    fn clone_view(&self) -> (r: Self) {
        self.clone()
    }
}

impl Default for EnvelopeRequestData {
    fn default() -> (r: Self)
        ensures
            r@ == Self::default_view(),
    {
        let r = EnvelopeRequestData {
            request_data: bytes_empty(),
            request_principal: None,
            client_host_address: bytes_empty(),
            _unknown_tagged_fields: empty_vec(),
        };
        assert(r@ =~= Self::default_view());
        r
    }
}

impl EnvelopeRequestData {
    pub open spec fn default_view() -> EnvelopeRequestDataView {
        EnvelopeRequestDataView {
            request_data: Seq::empty(),
            request_principal: None,
            client_host_address: Seq::empty(),
            unknown_tagged_fields: Seq::empty(),
        }
    }

    /// The `request_data` field, read from the front of `s`.
    #[verifier::opaque]
    pub open spec fn spec_read_request_data(s: Seq<u8>, version: i16) -> ReadOutcome<Seq<u8>> {
        spec_read_compact_bytes(s)
    }

    /// The `request_principal` field, read from the front of `s`.
    #[verifier::opaque]
    pub open spec fn spec_read_request_principal(s: Seq<u8>, version: i16) -> ReadOutcome<Option<Seq<u8>>> {
        spec_read_compact_nullable_bytes(s)
    }

    /// The `client_host_address` field, read from the front of `s`.
    #[verifier::opaque]
    pub open spec fn spec_read_client_host_address(s: Seq<u8>, version: i16) -> ReadOutcome<Seq<u8>> {
        spec_read_compact_bytes(s)
    }

    /// The tagged fields, read from the front of `s`.
    #[verifier::opaque]
    pub open spec fn spec_read_tags(s: Seq<u8>, version: i16) -> ReadOutcome<Seq<(u32, Seq<u8>)>> {
        spec_read_tagged_fields(s)
    }

    pub open spec fn spec_read(s: Seq<u8>, version: i16) -> ReadOutcome<EnvelopeRequestDataView> {
        if version < 0 || version > 0 {
            Err(Error::UnsupportedVersion(UnsupportedVersion { api_key: 58, version }))
        } else {
            match (Self::spec_read_request_data(s, version)) {
                Err(e) => Err(e),
                Ok((request_data, s)) => match (Self::spec_read_request_principal(s, version)) {
                    Err(e) => Err(e),
                    Ok((request_principal, s)) => match (Self::spec_read_client_host_address(s, version)) {
                        Err(e) => Err(e),
                        Ok((client_host_address, s)) => match (Self::spec_read_tags(s, version)) {
                            Err(e) => Err(e),
                            Ok((unknown_tagged_fields, s)) => Ok((EnvelopeRequestDataView {
                                        request_data: request_data,
                                        request_principal: request_principal,
                                        client_host_address: client_host_address,
                                        unknown_tagged_fields: unknown_tagged_fields,
                                    }, s)),
                        },
                    },
                },
            }
        }
    }

    /// What writing the `request_data` field of `m` appends.
    #[verifier::opaque]
    pub open spec fn spec_write_request_data(m: EnvelopeRequestDataView, version: i16) -> WriteOutcome {
        spec_write_compact_bytes(m.request_data)
    }

    /// What writing the `request_principal` field of `m` appends.
    #[verifier::opaque]
    pub open spec fn spec_write_request_principal(m: EnvelopeRequestDataView, version: i16) -> WriteOutcome {
        spec_write_compact_nullable_bytes(m.request_principal)
    }

    /// What writing the `client_host_address` field of `m` appends.
    #[verifier::opaque]
    pub open spec fn spec_write_client_host_address(m: EnvelopeRequestDataView, version: i16) -> WriteOutcome {
        spec_write_compact_bytes(m.client_host_address)
    }

    /// What writing the tagged fields of `m` appends.
    #[verifier::opaque]
    pub open spec fn spec_write_tags(m: EnvelopeRequestDataView, version: i16) -> WriteOutcome {
        spec_write_tagged_fields(sorted_by_tag(m.unknown_tagged_fields))
    }

    pub open spec fn spec_write(m: EnvelopeRequestDataView, version: i16) -> WriteOutcome {
        if version < 0 || version > 0 {
            fail(Error::UnsupportedVersion(UnsupportedVersion { api_key: 58, version }))
        } else {
            chain(
                chain(
                    chain(
                        Self::spec_write_request_data(m, version),
                        Self::spec_write_request_principal(m, version),
                    ),
                    Self::spec_write_client_host_address(m, version),
                ),
                Self::spec_write_tags(m, version),
            )
        }
    }

    /// Whether reading back what writing `m` in `version` appends gives `m`:
    /// fields that the version does not carry hold their default values, and
    /// tagged fields come in the order in which they are written.
    pub open spec fn canonical(m: EnvelopeRequestDataView, version: i16) -> bool {
        &&& tags_in_order(m.unknown_tagged_fields)
    }

    proof fn lemma_round_trip_request_data(m: EnvelopeRequestDataView, version: i16, rest: Seq<u8>)
        requires
            Self::canonical(m, version),
            Self::spec_write_request_data(m, version) is Ok,
        ensures
            Self::spec_read_request_data(written(Self::spec_write_request_data(m, version)) + rest, version) == Ok::<(Seq<u8>, Seq<u8>), Error>((m.request_data, rest)),
    {
        reveal(EnvelopeRequestData::spec_read_request_data);
        reveal(EnvelopeRequestData::spec_write_request_data);
        lemma_compact_bytes_round_trip(m.request_data, rest);
    }

    proof fn lemma_round_trip_request_principal(m: EnvelopeRequestDataView, version: i16, rest: Seq<u8>)
        requires
            Self::canonical(m, version),
            Self::spec_write_request_principal(m, version) is Ok,
        ensures
            Self::spec_read_request_principal(written(Self::spec_write_request_principal(m, version)) + rest, version) == Ok::<(Option<Seq<u8>>, Seq<u8>), Error>((m.request_principal, rest)),
    {
        reveal(EnvelopeRequestData::spec_read_request_principal);
        reveal(EnvelopeRequestData::spec_write_request_principal);
        lemma_compact_nullable_bytes_round_trip(m.request_principal, rest);
    }

    proof fn lemma_round_trip_client_host_address(m: EnvelopeRequestDataView, version: i16, rest: Seq<u8>)
        requires
            Self::canonical(m, version),
            Self::spec_write_client_host_address(m, version) is Ok,
        ensures
            Self::spec_read_client_host_address(written(Self::spec_write_client_host_address(m, version)) + rest, version) == Ok::<(Seq<u8>, Seq<u8>), Error>((m.client_host_address, rest)),
    {
        reveal(EnvelopeRequestData::spec_read_client_host_address);
        reveal(EnvelopeRequestData::spec_write_client_host_address);
        lemma_compact_bytes_round_trip(m.client_host_address, rest);
    }

    proof fn lemma_round_trip_tags(m: EnvelopeRequestDataView, version: i16, rest: Seq<u8>)
        requires
            Self::canonical(m, version),
            Self::spec_write_tags(m, version) is Ok,
        ensures
            Self::spec_read_tags(written(Self::spec_write_tags(m, version)) + rest, version) == Ok::<(Seq<(u32, Seq<u8>)>, Seq<u8>), Error>((m.unknown_tagged_fields, rest)),
    {
        reveal(EnvelopeRequestData::spec_read_tags);
        reveal(EnvelopeRequestData::spec_write_tags);
        lemma_sorted_by_tag_in_order(m.unknown_tagged_fields);
        lemma_tagged_fields_round_trip(m.unknown_tagged_fields, rest);
    }

    /// Reading back what writing `m` in `version` appends gives `m` again, and
    /// leaves what follows, for every canonical message whose write succeeds.
    #[verifier::rlimit(80)]
    #[verifier::spinoff_prover]
    pub proof fn lemma_round_trip(m: EnvelopeRequestDataView, version: i16, rest: Seq<u8>)
        requires
            Self::canonical(m, version),
            Self::spec_write(m, version) is Ok,
        ensures
            Self::spec_read(written(Self::spec_write(m, version)) + rest, version) == Ok::<(EnvelopeRequestDataView, Seq<u8>), Error>((m, rest)),
    {
        let b0 = written(Self::spec_write_request_data(m, version));
        let b1 = written(Self::spec_write_request_principal(m, version));
        let b2 = written(Self::spec_write_client_host_address(m, version));
        let b3 = written(Self::spec_write_tags(m, version));
        let t4 = rest;
        let t3 = b3 + t4;
        let t2 = b2 + t3;
        let t1 = b1 + t2;
        let t0 = b0 + t1;
        let w0 = Self::spec_write_request_data(m, version);
        let w1 = chain(w0, Self::spec_write_request_principal(m, version));
        let w2 = chain(w1, Self::spec_write_client_host_address(m, version));
        let w3 = chain(w2, Self::spec_write_tags(m, version));
        assert(Self::spec_write(m, version) == w3);
        assert(written(w3) + t4 =~= written(w2) + t3);
        assert(written(w2) + t3 =~= written(w1) + t2);
        assert(written(w1) + t2 =~= written(w0) + t1);
        Self::lemma_round_trip_request_data(m, version, t1);
        Self::lemma_round_trip_request_principal(m, version, t2);
        Self::lemma_round_trip_client_host_address(m, version, t3);
        Self::lemma_round_trip_tags(m, version, t4);
    }

    /// The default message holds the default value of each field of the schema.
    pub proof fn lemma_default_values()
        ensures
            Self::default_view().request_data.len() == 0,
            (Self::default_view().request_principal is None),
            Self::default_view().client_host_address.len() == 0,
            Self::default_view().unknown_tagged_fields.len() == 0,
    {
    }

    /// Whether writing `m` in `version` succeeds, said over its parts: the
    /// version is one the schema covers, every field that the version cannot
    /// carry holds its default value, and every string, byte string, array and
    /// tagged field fits its length prefix.
    pub open spec fn writable(m: EnvelopeRequestDataView, version: i16) -> bool {
        &&& 0 <= version <= 0
        &&& m.request_data.len() < u32::MAX
        &&& (m.request_principal matches Some(b) ==> b.len() < u32::MAX)
        &&& m.client_host_address.len() < u32::MAX
        &&& m.unknown_tagged_fields.len() <= u32::MAX && tags_fit(m.unknown_tagged_fields)
    }

    proof fn lemma_writable_request_data(m: EnvelopeRequestDataView, version: i16)
        ensures
            Self::spec_write_request_data(m, version) is Ok <==> m.request_data.len() < u32::MAX,
    {
        reveal(EnvelopeRequestData::spec_write_request_data);
    }

    proof fn lemma_writable_request_principal(m: EnvelopeRequestDataView, version: i16)
        ensures
            Self::spec_write_request_principal(m, version) is Ok <==> (m.request_principal matches Some(b) ==> b.len() < u32::MAX),
    {
        reveal(EnvelopeRequestData::spec_write_request_principal);
    }

    proof fn lemma_writable_client_host_address(m: EnvelopeRequestDataView, version: i16)
        ensures
            Self::spec_write_client_host_address(m, version) is Ok <==> m.client_host_address.len() < u32::MAX,
    {
        reveal(EnvelopeRequestData::spec_write_client_host_address);
    }

    proof fn lemma_writable_tags(m: EnvelopeRequestDataView, version: i16)
        ensures
            Self::spec_write_tags(m, version) is Ok <==> m.unknown_tagged_fields.len() <= u32::MAX && tags_fit(m.unknown_tagged_fields),
    {
        reveal(EnvelopeRequestData::spec_write_tags);
        lemma_sorted_tags_fit(m.unknown_tagged_fields);
        lemma_tagged_fields_writable(sorted_by_tag(m.unknown_tagged_fields));
    }

    /// Writing `m` in `version` succeeds exactly when `m` is writable in it;
    /// so do `write` and `encoded_len`, whose results follow `spec_write`.
    #[verifier::rlimit(54)]
    pub proof fn lemma_writable(m: EnvelopeRequestDataView, version: i16)
        ensures
            Self::spec_write(m, version) is Ok <==> Self::writable(m, version),
    {
        Self::lemma_writable_request_data(m, version);
        Self::lemma_writable_request_principal(m, version);
        Self::lemma_writable_client_host_address(m, version);
        Self::lemma_writable_tags(m, version);
    }

    /// A version outside the range that the schema covers is refused, by
    /// reads and by writes alike, before anything is read or written.
    pub proof fn lemma_refused_version(m: EnvelopeRequestDataView, s: Seq<u8>, version: i16)
        requires
            version < 0 || version > 0,
        ensures
            Self::spec_read(s, version) == Err::<(EnvelopeRequestDataView, Seq<u8>), Error>(Error::UnsupportedVersion(UnsupportedVersion { api_key: 58, version })),
            Self::spec_write(m, version) == fail(Error::UnsupportedVersion(UnsupportedVersion { api_key: 58, version })),
    {
    }

    fn read_request_data(buf: &mut Bytes, version: i16) -> (r: Result<Bytes, Error>)
        ensures
            read_bytes_as(Self::spec_read_request_data(bytes_seq(*old(buf)), version), *final(buf), r),
            took_front(*old(buf), *final(buf)),
    {
        proof {
            reveal(EnvelopeRequestData::spec_read_request_data);
        }
        Ok(read_compact_bytes(buf)?)
    }

    fn read_request_principal(buf: &mut Bytes, version: i16) -> (r: Result<Option<Bytes>, Error>)
        ensures
            read_opt_bytes_as(Self::spec_read_request_principal(bytes_seq(*old(buf)), version), *final(buf), r),
            took_front(*old(buf), *final(buf)),
    {
        proof {
            reveal(EnvelopeRequestData::spec_read_request_principal);
        }
        Ok(read_compact_nullable_bytes(buf)?)
    }

    fn read_client_host_address(buf: &mut Bytes, version: i16) -> (r: Result<Bytes, Error>)
        ensures
            read_bytes_as(Self::spec_read_client_host_address(bytes_seq(*old(buf)), version), *final(buf), r),
            took_front(*old(buf), *final(buf)),
    {
        proof {
            reveal(EnvelopeRequestData::spec_read_client_host_address);
        }
        Ok(read_compact_bytes(buf)?)
    }

    fn read_tags(buf: &mut Bytes, version: i16) -> (r: Result<Vec<RawTaggedField>, Error>)
        ensures
            read_vec_as(Self::spec_read_tags(bytes_seq(*old(buf)), version), *final(buf), r),
            took_front(*old(buf), *final(buf)),
    {
        proof {
            reveal(EnvelopeRequestData::spec_read_tags);
        }
        Ok(read_tagged_fields(buf)?)
    }

    pub fn read(buf: &mut Bytes, version: i16) -> (r: Result<Self, Error>)
        ensures
            read_as(Self::spec_read(bytes_seq(*old(buf)), version), *final(buf), r),
            took_front(*old(buf), *final(buf)),
            (version < 0 || version > 0) ==> bytes_seq(*final(buf)) == bytes_seq(*old(buf)),
    {
        if version < 0 || version > 0 {
            return Err(Error::UnsupportedVersion(UnsupportedVersion::new(58, version)));
        }
        let request_data = Self::read_request_data(buf, version)?;
        let request_principal = Self::read_request_principal(buf, version)?;
        let client_host_address = Self::read_client_host_address(buf, version)?;
        let _unknown_tagged_fields = Self::read_tags(buf, version)?;
        Ok(EnvelopeRequestData {
                request_data: request_data,
                request_principal: request_principal,
                client_host_address: client_host_address,
                _unknown_tagged_fields: _unknown_tagged_fields,
        })
    }

    #[verifier::rlimit(70)]
    pub fn write(&self, buf: &mut BytesMut, version: i16) -> (r: Result<(), Error>)
        requires
            has_room(Self::spec_write(self@, version), *old(buf)),
        ensures
            wrote(Self::spec_write(self@, version), *old(buf), *final(buf), r),
    {
        if version < 0 || version > 0 {
            return Err(Error::UnsupportedVersion(UnsupportedVersion::new(58, version)));
        }
        let ghost m = self@;
        proof {
            reveal(EnvelopeRequestData::spec_write_request_data);
            reveal(EnvelopeRequestData::spec_write_request_principal);
            reveal(EnvelopeRequestData::spec_write_client_host_address);
            reveal(EnvelopeRequestData::spec_write_tags);
        }
        let ghost s0 = Self::spec_write_request_data(m, version);
        let ghost w0 = s0;
        let ghost s1 = Self::spec_write_request_principal(m, version);
        let ghost w1 = chain(w0, s1);
        let ghost s2 = Self::spec_write_client_host_address(m, version);
        let ghost w2 = chain(w1, s2);
        let ghost s3 = Self::spec_write_tags(m, version);
        let ghost w3 = chain(w2, s3);
        assert(Self::spec_write(m, version) == w3);
        assert(written(w2).len() <= written(w3).len() && (w2 is Err ==> w3 == w2));
        assert(written(w1).len() <= written(w3).len() && (w1 is Err ==> w3 == w1));
        assert(written(w0).len() <= written(w3).len() && (w0 is Err ==> w3 == w0));
        let ghost mid = bytes_mut_seq(*buf);
        proof {
            lemma_append_empty(mid);
        }
        let r0 = write_compact_bytes(buf, &self.request_data);
        assert(bytes_mut_seq(*buf) == mid + written(s0));
        if r0.is_err() {
            return r0;
        }
        let ghost mid = bytes_mut_seq(*buf);
        proof {
            lemma_append_empty(mid);
        }
        let r1 = write_compact_nullable_bytes(buf, &self.request_principal);
        assert(bytes_mut_seq(*buf) == mid + written(s1));
        proof {
            lemma_step(bytes_mut_seq(*old(buf)), w0, s1);
        }
        if r1.is_err() {
            return r1;
        }
        let ghost mid = bytes_mut_seq(*buf);
        proof {
            lemma_append_empty(mid);
        }
        let r2 = write_compact_bytes(buf, &self.client_host_address);
        assert(bytes_mut_seq(*buf) == mid + written(s2));
        proof {
            lemma_step(bytes_mut_seq(*old(buf)), w1, s2);
        }
        if r2.is_err() {
            return r2;
        }
        let ghost mid = bytes_mut_seq(*buf);
        proof {
            lemma_append_empty(mid);
        }
        let r3 = write_tagged_fields(buf, &sort_by_tag(&self._unknown_tagged_fields));
        assert(bytes_mut_seq(*buf) == mid + written(s3));
        proof {
            lemma_step(bytes_mut_seq(*old(buf)), w2, s3);
        }
        if r3.is_err() {
            return r3;
        }
        Ok(())
    }
}

} // verus!
