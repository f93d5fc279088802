//! The list config resources response message.
use crate::buffer::{bytes_mut_seq, bytes_seq};
use crate::codec::{Codec, all_canonical, all_writable, lemma_array_round_trip, lemma_array_writable, read_array, spec_read_array, spec_write_array, write_array};
use crate::error::{Error, UnsupportedVersion};
use crate::ints::{lemma_i16_roundtrip, lemma_i32_roundtrip, lemma_i8_roundtrip, read_i16, read_i32, read_i8, spec_read_i16, spec_read_i32, spec_read_i8, spec_write_i16, spec_write_i32, spec_write_i8, u16_bytes, u32_bytes, write_i16, write_i32, write_i8};
use crate::strings::{lemma_compact_string_round_trip, read_compact_string, spec_read_compact_string, spec_write_compact_string, write_compact_string};
use crate::tagged::{lemma_sorted_by_tag_in_order, lemma_sorted_tags_fit, lemma_tagged_fields_round_trip, lemma_tagged_fields_writable, read_tagged_fields, sort_by_tag, sorted_by_tag, spec_read_tagged_fields, spec_write_tagged_fields, tags_fit, tags_in_order, write_tagged_fields};
use crate::types::{KafkaString, RawTaggedField};
use crate::wire::{ReadOutcome, ViewClone, WriteOutcome, chain, clone_vec, emit, empty_vec, fail, has_room, lemma_append_empty, lemma_chain_written, lemma_step, read_as, read_vec_as, took_front, views, written, wrote};
use bytes::{Bytes, BytesMut};
use vstd::prelude::*;

verus! {

broadcast use {crate::wire::lemma_chain_written, crate::wire::lemma_took_front_nothing, crate::wire::lemma_took_front_twice};

#[derive(Debug, PartialEq)]
pub struct ListConfigResourcesResponseData {
    /// The duration in milliseconds for which the request was throttled due to a quota violation,
    /// or zero if the request did not violate any quota.
    pub throttle_time_ms: i32,
    /// The error code, or 0 if there was no error.
    pub error_code: i16,
    /// Each config resource in the response.
    pub config_resources: Vec<ConfigResource>,
    pub _unknown_tagged_fields: Vec<RawTaggedField>,
}

/// What a `ListConfigResourcesResponseData` holds, as the specification sees it.
#[verifier::ext_equal]
pub struct ListConfigResourcesResponseDataView {
    pub throttle_time_ms: i32,
    pub error_code: i16,
    pub config_resources: Seq<ConfigResourceView>,
    pub unknown_tagged_fields: Seq<(u32, Seq<u8>)>,
}

impl View for ListConfigResourcesResponseData {
    type V = ListConfigResourcesResponseDataView;

    open spec fn view(&self) -> ListConfigResourcesResponseDataView {
        ListConfigResourcesResponseDataView {
            throttle_time_ms: self.throttle_time_ms,
            error_code: self.error_code,
            config_resources: views(self.config_resources@),
            unknown_tagged_fields: views(self._unknown_tagged_fields@),
        }
    }
}

impl Clone for ListConfigResourcesResponseData {
    fn clone(&self) -> (r: Self)
        ensures
            r@ == self@,
    {
        let r = ListConfigResourcesResponseData {
            throttle_time_ms: self.throttle_time_ms,
            error_code: self.error_code,
            config_resources: clone_vec(&self.config_resources),
            _unknown_tagged_fields: clone_vec(&self._unknown_tagged_fields),
        };
        assert(r@ =~= self@);
        r
    }
}

impl ViewClone for ListConfigResourcesResponseData {
    fn clone_view(&self) -> (r: Self) {
        self.clone()
    }
}

impl Default for ListConfigResourcesResponseData {
    fn default() -> (r: Self)
        ensures
            r@ == Self::default_view(),
    {
        let r = ListConfigResourcesResponseData {
            throttle_time_ms: 0_i32,
            error_code: 0_i16,
            config_resources: empty_vec(),
            _unknown_tagged_fields: empty_vec(),
        };
        assert(r@ =~= Self::default_view());
        r
    }
}

impl ListConfigResourcesResponseData {
    pub open spec fn default_view() -> ListConfigResourcesResponseDataView {
        ListConfigResourcesResponseDataView {
            throttle_time_ms: 0_i32,
            error_code: 0_i16,
            config_resources: Seq::empty(),
            unknown_tagged_fields: Seq::empty(),
        }
    }

    /// The `throttle_time_ms` field, read from the front of `s`.
    #[verifier::opaque]
    pub open spec fn spec_read_throttle_time_ms(s: Seq<u8>, version: i16) -> ReadOutcome<i32> {
        spec_read_i32(s)
    }

    /// The `error_code` field, read from the front of `s`.
    #[verifier::opaque]
    pub open spec fn spec_read_error_code(s: Seq<u8>, version: i16) -> ReadOutcome<i16> {
        spec_read_i16(s)
    }

    /// The `config_resources` field, read from the front of `s`.
    #[verifier::opaque]
    pub open spec fn spec_read_config_resources(s: Seq<u8>, version: i16) -> ReadOutcome<Seq<ConfigResourceView>> {
        spec_read_array::<ConfigResource>(s, version, true)
    }

    /// The tagged fields, read from the front of `s`.
    #[verifier::opaque]
    pub open spec fn spec_read_tags(s: Seq<u8>, version: i16) -> ReadOutcome<Seq<(u32, Seq<u8>)>> {
        spec_read_tagged_fields(s)
    }

    pub open spec fn spec_read(s: Seq<u8>, version: i16) -> ReadOutcome<ListConfigResourcesResponseDataView> {
        if version < 0 || version > 1 {
            Err(Error::UnsupportedVersion(UnsupportedVersion { api_key: 74, version }))
        } else {
            match (Self::spec_read_throttle_time_ms(s, version)) {
                Err(e) => Err(e),
                Ok((throttle_time_ms, s)) => match (Self::spec_read_error_code(s, version)) {
                    Err(e) => Err(e),
                    Ok((error_code, s)) => match (Self::spec_read_config_resources(s, version)) {
                        Err(e) => Err(e),
                        Ok((config_resources, s)) => match (Self::spec_read_tags(s, version)) {
                            Err(e) => Err(e),
                            Ok((unknown_tagged_fields, s)) => Ok((ListConfigResourcesResponseDataView {
                                        throttle_time_ms: throttle_time_ms,
                                        error_code: error_code,
                                        config_resources: config_resources,
                                        unknown_tagged_fields: unknown_tagged_fields,
                                    }, s)),
                        },
                    },
                },
            }
        }
    }

    /// What writing the `throttle_time_ms` field of `m` appends.
    #[verifier::opaque]
    pub open spec fn spec_write_throttle_time_ms(m: ListConfigResourcesResponseDataView, version: i16) -> WriteOutcome {
        spec_write_i32(m.throttle_time_ms)
    }

    /// What writing the `error_code` field of `m` appends.
    #[verifier::opaque]
    pub open spec fn spec_write_error_code(m: ListConfigResourcesResponseDataView, version: i16) -> WriteOutcome {
        spec_write_i16(m.error_code)
    }

    /// What writing the `config_resources` field of `m` appends.
    #[verifier::opaque]
    pub open spec fn spec_write_config_resources(m: ListConfigResourcesResponseDataView, version: i16) -> WriteOutcome {
        spec_write_array::<ConfigResource>(m.config_resources, version, true)
    }

    /// What writing the tagged fields of `m` appends.
    #[verifier::opaque]
    pub open spec fn spec_write_tags(m: ListConfigResourcesResponseDataView, version: i16) -> WriteOutcome {
        spec_write_tagged_fields(sorted_by_tag(m.unknown_tagged_fields))
    }

    pub open spec fn spec_write(m: ListConfigResourcesResponseDataView, version: i16) -> WriteOutcome {
        if version < 0 || version > 1 {
            fail(Error::UnsupportedVersion(UnsupportedVersion { api_key: 74, version }))
        } else {
            chain(
                chain(
                    chain(
                        Self::spec_write_throttle_time_ms(m, version),
                        Self::spec_write_error_code(m, version),
                    ),
                    Self::spec_write_config_resources(m, version),
                ),
                Self::spec_write_tags(m, version),
            )
        }
    }

    /// Whether reading back what writing `m` in `version` appends gives `m`:
    /// fields that the version does not carry hold their default values, and
    /// tagged fields come in the order in which they are written.
    pub open spec fn canonical(m: ListConfigResourcesResponseDataView, version: i16) -> bool {
        &&& all_canonical::<ConfigResource>(m.config_resources, version)
        &&& tags_in_order(m.unknown_tagged_fields)
    }

    proof fn lemma_round_trip_throttle_time_ms(m: ListConfigResourcesResponseDataView, version: i16, rest: Seq<u8>)
        requires
            Self::canonical(m, version),
            Self::spec_write_throttle_time_ms(m, version) is Ok,
        ensures
            Self::spec_read_throttle_time_ms(written(Self::spec_write_throttle_time_ms(m, version)) + rest, version) == Ok::<(i32, Seq<u8>), Error>((m.throttle_time_ms, rest)),
    {
        reveal(ListConfigResourcesResponseData::spec_read_throttle_time_ms);
        reveal(ListConfigResourcesResponseData::spec_write_throttle_time_ms);
        lemma_i32_roundtrip(m.throttle_time_ms, rest);
    }

    proof fn lemma_round_trip_error_code(m: ListConfigResourcesResponseDataView, version: i16, rest: Seq<u8>)
        requires
            Self::canonical(m, version),
            Self::spec_write_error_code(m, version) is Ok,
        ensures
            Self::spec_read_error_code(written(Self::spec_write_error_code(m, version)) + rest, version) == Ok::<(i16, Seq<u8>), Error>((m.error_code, rest)),
    {
        reveal(ListConfigResourcesResponseData::spec_read_error_code);
        reveal(ListConfigResourcesResponseData::spec_write_error_code);
        lemma_i16_roundtrip(m.error_code, rest);
    }

    proof fn lemma_round_trip_config_resources(m: ListConfigResourcesResponseDataView, version: i16, rest: Seq<u8>)
        requires
            Self::canonical(m, version),
            Self::spec_write_config_resources(m, version) is Ok,
        ensures
            Self::spec_read_config_resources(written(Self::spec_write_config_resources(m, version)) + rest, version) == Ok::<(Seq<ConfigResourceView>, Seq<u8>), Error>((m.config_resources, rest)),
    {
        reveal(ListConfigResourcesResponseData::spec_read_config_resources);
        reveal(ListConfigResourcesResponseData::spec_write_config_resources);
        lemma_array_round_trip::<ConfigResource>(m.config_resources, version, true, rest);
    }

    proof fn lemma_round_trip_tags(m: ListConfigResourcesResponseDataView, version: i16, rest: Seq<u8>)
        requires
            Self::canonical(m, version),
            Self::spec_write_tags(m, version) is Ok,
        ensures
            Self::spec_read_tags(written(Self::spec_write_tags(m, version)) + rest, version) == Ok::<(Seq<(u32, Seq<u8>)>, Seq<u8>), Error>((m.unknown_tagged_fields, rest)),
    {
        reveal(ListConfigResourcesResponseData::spec_read_tags);
        reveal(ListConfigResourcesResponseData::spec_write_tags);
        lemma_sorted_by_tag_in_order(m.unknown_tagged_fields);
        lemma_tagged_fields_round_trip(m.unknown_tagged_fields, rest);
    }

    /// Reading back what writing `m` in `version` appends gives `m` again, and
    /// leaves what follows, for every canonical message whose write succeeds.
    #[verifier::rlimit(80)]
    #[verifier::spinoff_prover]
    pub proof fn lemma_round_trip(m: ListConfigResourcesResponseDataView, version: i16, rest: Seq<u8>)
        requires
            Self::canonical(m, version),
            Self::spec_write(m, version) is Ok,
        ensures
            Self::spec_read(written(Self::spec_write(m, version)) + rest, version) == Ok::<(ListConfigResourcesResponseDataView, Seq<u8>), Error>((m, rest)),
    {
        let b0 = written(Self::spec_write_throttle_time_ms(m, version));
        let b1 = written(Self::spec_write_error_code(m, version));
        let b2 = written(Self::spec_write_config_resources(m, version));
        let b3 = written(Self::spec_write_tags(m, version));
        let t4 = rest;
        let t3 = b3 + t4;
        let t2 = b2 + t3;
        let t1 = b1 + t2;
        let t0 = b0 + t1;
        let w0 = Self::spec_write_throttle_time_ms(m, version);
        let w1 = chain(w0, Self::spec_write_error_code(m, version));
        let w2 = chain(w1, Self::spec_write_config_resources(m, version));
        let w3 = chain(w2, Self::spec_write_tags(m, version));
        assert(Self::spec_write(m, version) == w3);
        assert(written(w3) + t4 =~= written(w2) + t3);
        assert(written(w2) + t3 =~= written(w1) + t2);
        assert(written(w1) + t2 =~= written(w0) + t1);
        Self::lemma_round_trip_throttle_time_ms(m, version, t1);
        Self::lemma_round_trip_error_code(m, version, t2);
        Self::lemma_round_trip_config_resources(m, version, t3);
        Self::lemma_round_trip_tags(m, version, t4);
    }

    /// The default message holds the default value of each field of the schema.
    pub proof fn lemma_default_values()
        ensures
            Self::default_view().throttle_time_ms == (0_i32),
            Self::default_view().error_code == (0_i16),
            Self::default_view().config_resources.len() == 0,
            Self::default_view().unknown_tagged_fields.len() == 0,
    {
    }

    /// Each integer, boolean and identifier field is written as its standard
    /// big-endian bytes (a boolean as `1` or `0`) in the versions that carry
    /// it, and as nothing in the others; reading it takes those bytes back (any
    /// byte other than `0` reads as `true`), or gives its default value.
    pub proof fn lemma_field_encodings(m: ListConfigResourcesResponseDataView, s: Seq<u8>, version: i16)
        ensures
            true ==> Self::spec_write_throttle_time_ms(m, version) == Ok::<Seq<u8>, (Error, Seq<u8>)>(u32_bytes(m.throttle_time_ms as u32)),
            true ==> Self::spec_write_error_code(m, version) == Ok::<Seq<u8>, (Error, Seq<u8>)>(u16_bytes(m.error_code as u16)),
            true ==> Self::spec_read_throttle_time_ms(s, version) == spec_read_i32(s),
            true ==> Self::spec_read_error_code(s, version) == spec_read_i16(s),
    {
        reveal(ListConfigResourcesResponseData::spec_write_throttle_time_ms);
        reveal(ListConfigResourcesResponseData::spec_read_throttle_time_ms);
        reveal(ListConfigResourcesResponseData::spec_write_error_code);
        reveal(ListConfigResourcesResponseData::spec_read_error_code);
    }

    /// Whether writing `m` in `version` succeeds, said over its parts: the
    /// version is one the schema covers, every field that the version cannot
    /// carry holds its default value, and every string, byte string, array and
    /// tagged field fits its length prefix.
    pub open spec fn writable(m: ListConfigResourcesResponseDataView, version: i16) -> bool {
        &&& 0 <= version <= 1
        &&& (m.config_resources.len() <= i32::MAX && all_writable::<ConfigResource>(m.config_resources, version))
        &&& m.unknown_tagged_fields.len() <= u32::MAX && tags_fit(m.unknown_tagged_fields)
    }

    proof fn lemma_writable_throttle_time_ms(m: ListConfigResourcesResponseDataView, version: i16)
        ensures
            Self::spec_write_throttle_time_ms(m, version) is Ok <==> true,
    {
        reveal(ListConfigResourcesResponseData::spec_write_throttle_time_ms);
    }

    proof fn lemma_writable_error_code(m: ListConfigResourcesResponseDataView, version: i16)
        ensures
            Self::spec_write_error_code(m, version) is Ok <==> true,
    {
        reveal(ListConfigResourcesResponseData::spec_write_error_code);
    }

    proof fn lemma_writable_config_resources(m: ListConfigResourcesResponseDataView, version: i16)
        ensures
            Self::spec_write_config_resources(m, version) is Ok <==> (m.config_resources.len() <= i32::MAX && all_writable::<ConfigResource>(m.config_resources, version)),
    {
        reveal(ListConfigResourcesResponseData::spec_write_config_resources);
        lemma_array_writable::<ConfigResource>(m.config_resources, version, true);
    }

    proof fn lemma_writable_tags(m: ListConfigResourcesResponseDataView, version: i16)
        ensures
            Self::spec_write_tags(m, version) is Ok <==> m.unknown_tagged_fields.len() <= u32::MAX && tags_fit(m.unknown_tagged_fields),
    {
        reveal(ListConfigResourcesResponseData::spec_write_tags);
        lemma_sorted_tags_fit(m.unknown_tagged_fields);
        lemma_tagged_fields_writable(sorted_by_tag(m.unknown_tagged_fields));
    }

    /// Writing `m` in `version` succeeds exactly when `m` is writable in it;
    /// so do `write` and `encoded_len`, whose results follow `spec_write`.
    #[verifier::rlimit(54)]
    pub proof fn lemma_writable(m: ListConfigResourcesResponseDataView, version: i16)
        ensures
            Self::spec_write(m, version) is Ok <==> Self::writable(m, version),
    {
        Self::lemma_writable_throttle_time_ms(m, version);
        Self::lemma_writable_error_code(m, version);
        Self::lemma_writable_config_resources(m, version);
        Self::lemma_writable_tags(m, version);
    }

    /// A version outside the range that the schema covers is refused, by
    /// reads and by writes alike, before anything is read or written.
    pub proof fn lemma_refused_version(m: ListConfigResourcesResponseDataView, s: Seq<u8>, version: i16)
        requires
            version < 0 || version > 1,
        ensures
            Self::spec_read(s, version) == Err::<(ListConfigResourcesResponseDataView, Seq<u8>), Error>(Error::UnsupportedVersion(UnsupportedVersion { api_key: 74, version })),
            Self::spec_write(m, version) == fail(Error::UnsupportedVersion(UnsupportedVersion { api_key: 74, version })),
    {
    }

    fn read_throttle_time_ms(buf: &mut Bytes, version: i16) -> (r: Result<i32, Error>)
        ensures
            read_as(Self::spec_read_throttle_time_ms(bytes_seq(*old(buf)), version), *final(buf), r),
            took_front(*old(buf), *final(buf)),
    {
        proof {
            reveal(ListConfigResourcesResponseData::spec_read_throttle_time_ms);
        }
        Ok(read_i32(buf)?)
    }

    fn read_error_code(buf: &mut Bytes, version: i16) -> (r: Result<i16, Error>)
        ensures
            read_as(Self::spec_read_error_code(bytes_seq(*old(buf)), version), *final(buf), r),
            took_front(*old(buf), *final(buf)),
    {
        proof {
            reveal(ListConfigResourcesResponseData::spec_read_error_code);
        }
        Ok(read_i16(buf)?)
    }

    fn read_config_resources(buf: &mut Bytes, version: i16) -> (r: Result<Vec<ConfigResource>, Error>)
        ensures
            read_vec_as(Self::spec_read_config_resources(bytes_seq(*old(buf)), version), *final(buf), r),
            took_front(*old(buf), *final(buf)),
    {
        proof {
            reveal(ListConfigResourcesResponseData::spec_read_config_resources);
        }
        Ok(read_array::<ConfigResource>(buf, version, true)?)
    }

    fn read_tags(buf: &mut Bytes, version: i16) -> (r: Result<Vec<RawTaggedField>, Error>)
        ensures
            read_vec_as(Self::spec_read_tags(bytes_seq(*old(buf)), version), *final(buf), r),
            took_front(*old(buf), *final(buf)),
    {
        proof {
            reveal(ListConfigResourcesResponseData::spec_read_tags);
        }
        Ok(read_tagged_fields(buf)?)
    }

    pub fn read(buf: &mut Bytes, version: i16) -> (r: Result<Self, Error>)
        ensures
            read_as(Self::spec_read(bytes_seq(*old(buf)), version), *final(buf), r),
            took_front(*old(buf), *final(buf)),
            (version < 0 || version > 1) ==> bytes_seq(*final(buf)) == bytes_seq(*old(buf)),
    {
        if version < 0 || version > 1 {
            return Err(Error::UnsupportedVersion(UnsupportedVersion::new(74, version)));
        }
        let throttle_time_ms = Self::read_throttle_time_ms(buf, version)?;
        let error_code = Self::read_error_code(buf, version)?;
        let config_resources = Self::read_config_resources(buf, version)?;
        let _unknown_tagged_fields = Self::read_tags(buf, version)?;
        Ok(ListConfigResourcesResponseData {
                throttle_time_ms: throttle_time_ms,
                error_code: error_code,
                config_resources: config_resources,
                _unknown_tagged_fields: _unknown_tagged_fields,
        })
    }

    #[verifier::rlimit(70)]
    pub fn write(&self, buf: &mut BytesMut, version: i16) -> (r: Result<(), Error>)
        requires
            has_room(Self::spec_write(self@, version), *old(buf)),
        ensures
            wrote(Self::spec_write(self@, version), *old(buf), *final(buf), r),
    {
        if version < 0 || version > 1 {
            return Err(Error::UnsupportedVersion(UnsupportedVersion::new(74, version)));
        }
        let ghost m = self@;
        proof {
            reveal(ListConfigResourcesResponseData::spec_write_throttle_time_ms);
            reveal(ListConfigResourcesResponseData::spec_write_error_code);
            reveal(ListConfigResourcesResponseData::spec_write_config_resources);
            reveal(ListConfigResourcesResponseData::spec_write_tags);
        }
        let ghost s0 = Self::spec_write_throttle_time_ms(m, version);
        let ghost w0 = s0;
        let ghost s1 = Self::spec_write_error_code(m, version);
        let ghost w1 = chain(w0, s1);
        let ghost s2 = Self::spec_write_config_resources(m, version);
        let ghost w2 = chain(w1, s2);
        let ghost s3 = Self::spec_write_tags(m, version);
        let ghost w3 = chain(w2, s3);
        assert(Self::spec_write(m, version) == w3);
        assert(written(w2).len() <= written(w3).len() && (w2 is Err ==> w3 == w2));
        assert(written(w1).len() <= written(w3).len() && (w1 is Err ==> w3 == w1));
        assert(written(w0).len() <= written(w3).len() && (w0 is Err ==> w3 == w0));
        let ghost mid = bytes_mut_seq(*buf);
        proof {
            lemma_append_empty(mid);
        }
        let r0 = {
            write_i32(buf, self.throttle_time_ms);
            Ok(())
        };
        assert(bytes_mut_seq(*buf) == mid + written(s0));
        if r0.is_err() {
            return r0;
        }
        let ghost mid = bytes_mut_seq(*buf);
        proof {
            lemma_append_empty(mid);
        }
        let r1 = {
            write_i16(buf, self.error_code);
            Ok(())
        };
        assert(bytes_mut_seq(*buf) == mid + written(s1));
        proof {
            lemma_step(bytes_mut_seq(*old(buf)), w0, s1);
        }
        if r1.is_err() {
            return r1;
        }
        let ghost mid = bytes_mut_seq(*buf);
        proof {
            lemma_append_empty(mid);
        }
        let r2 = write_array::<ConfigResource>(buf, &self.config_resources, version, true);
        assert(bytes_mut_seq(*buf) == mid + written(s2));
        proof {
            lemma_step(bytes_mut_seq(*old(buf)), w1, s2);
        }
        if r2.is_err() {
            return r2;
        }
        let ghost mid = bytes_mut_seq(*buf);
        proof {
            lemma_append_empty(mid);
        }
        let r3 = write_tagged_fields(buf, &sort_by_tag(&self._unknown_tagged_fields));
        assert(bytes_mut_seq(*buf) == mid + written(s3));
        proof {
            lemma_step(bytes_mut_seq(*old(buf)), w2, s3);
        }
        if r3.is_err() {
            return r3;
        }
        Ok(())
    }
}

#[derive(Debug, PartialEq)]
pub struct ConfigResource {
    /// The resource name.
    pub resource_name: KafkaString,
    /// The resource type.
    pub resource_type: i8,
    pub _unknown_tagged_fields: Vec<RawTaggedField>,
}

/// What a `ConfigResource` holds, as the specification sees it.
#[verifier::ext_equal]
pub struct ConfigResourceView {
    pub resource_name: Seq<u8>,
    pub resource_type: i8,
    pub unknown_tagged_fields: Seq<(u32, Seq<u8>)>,
}

impl View for ConfigResource {
    type V = ConfigResourceView;

    open spec fn view(&self) -> ConfigResourceView {
        ConfigResourceView {
            resource_name: self.resource_name@,
            resource_type: self.resource_type,
            unknown_tagged_fields: views(self._unknown_tagged_fields@),
        }
    }
}

impl Clone for ConfigResource {
    fn clone(&self) -> (r: Self)
        ensures
            r@ == self@,
    {
        let r = ConfigResource {
            resource_name: self.resource_name.clone(),
            resource_type: self.resource_type,
            _unknown_tagged_fields: clone_vec(&self._unknown_tagged_fields),
        };
        assert(r@ =~= self@);
        r
    }
}

impl ViewClone for ConfigResource {
    fn clone_view(&self) -> (r: Self) {
        self.clone()
    }
}

impl Default for ConfigResource {
    fn default() -> (r: Self)
        ensures
            r@ == Self::default_view(),
    {
        let r = ConfigResource {
            resource_name: KafkaString::default(),
            resource_type: 16i8,
            _unknown_tagged_fields: empty_vec(),
        };
        assert(r@ =~= Self::default_view());
        r
    }
}

impl ConfigResource {
    pub open spec fn default_view() -> ConfigResourceView {
        ConfigResourceView {
            resource_name: Seq::empty(),
            resource_type: 16i8,
            unknown_tagged_fields: Seq::empty(),
        }
    }

    /// The `resource_name` field, read from the front of `s`.
    #[verifier::opaque]
    pub open spec fn spec_read_resource_name(s: Seq<u8>, version: i16) -> ReadOutcome<Seq<u8>> {
        spec_read_compact_string(s)
    }

    /// The `resource_type` field, read from the front of `s`.
    #[verifier::opaque]
    pub open spec fn spec_read_resource_type(s: Seq<u8>, version: i16) -> ReadOutcome<i8> {
        if version >= 1 {
            spec_read_i8(s)
        } else {
            Ok((16i8, s))
        }
    }

    /// The tagged fields, read from the front of `s`.
    #[verifier::opaque]
    pub open spec fn spec_read_tags(s: Seq<u8>, version: i16) -> ReadOutcome<Seq<(u32, Seq<u8>)>> {
        spec_read_tagged_fields(s)
    }

    pub open spec fn spec_read(s: Seq<u8>, version: i16) -> ReadOutcome<ConfigResourceView> {
        match (Self::spec_read_resource_name(s, version)) {
            Err(e) => Err(e),
            Ok((resource_name, s)) => match (Self::spec_read_resource_type(s, version)) {
                Err(e) => Err(e),
                Ok((resource_type, s)) => match (Self::spec_read_tags(s, version)) {
                    Err(e) => Err(e),
                    Ok((unknown_tagged_fields, s)) => Ok((ConfigResourceView {
                                resource_name: resource_name,
                                resource_type: resource_type,
                                unknown_tagged_fields: unknown_tagged_fields,
                            }, s)),
                },
            },
        }
    }

    /// What writing the `resource_name` field of `m` appends.
    #[verifier::opaque]
    pub open spec fn spec_write_resource_name(m: ConfigResourceView, version: i16) -> WriteOutcome {
        spec_write_compact_string(m.resource_name)
    }

    /// What writing the `resource_type` field of `m` appends.
    #[verifier::opaque]
    pub open spec fn spec_write_resource_type(m: ConfigResourceView, version: i16) -> WriteOutcome {
        if version >= 1 {
            spec_write_i8(m.resource_type)
        } else {
            emit(Seq::empty())
        }
    }

    /// What writing the tagged fields of `m` appends.
    #[verifier::opaque]
    pub open spec fn spec_write_tags(m: ConfigResourceView, version: i16) -> WriteOutcome {
        spec_write_tagged_fields(sorted_by_tag(m.unknown_tagged_fields))
    }

    pub open spec fn spec_write(m: ConfigResourceView, version: i16) -> WriteOutcome {
        chain(
            chain(
                Self::spec_write_resource_name(m, version),
                Self::spec_write_resource_type(m, version),
            ),
            Self::spec_write_tags(m, version),
        )
    }

    /// Whether reading back what writing `m` in `version` appends gives `m`:
    /// fields that the version does not carry hold their default values, and
    /// tagged fields come in the order in which they are written.
    pub open spec fn canonical(m: ConfigResourceView, version: i16) -> bool {
        &&& (if version >= 1 {
                true
            } else {
                m.resource_type == 16i8
        })
        &&& tags_in_order(m.unknown_tagged_fields)
    }

    proof fn lemma_round_trip_resource_name(m: ConfigResourceView, version: i16, rest: Seq<u8>)
        requires
            Self::canonical(m, version),
            Self::spec_write_resource_name(m, version) is Ok,
        ensures
            Self::spec_read_resource_name(written(Self::spec_write_resource_name(m, version)) + rest, version) == Ok::<(Seq<u8>, Seq<u8>), Error>((m.resource_name, rest)),
    {
        reveal(ConfigResource::spec_read_resource_name);
        reveal(ConfigResource::spec_write_resource_name);
        lemma_compact_string_round_trip(m.resource_name, rest);
    }

    proof fn lemma_round_trip_resource_type(m: ConfigResourceView, version: i16, rest: Seq<u8>)
        requires
            Self::canonical(m, version),
            Self::spec_write_resource_type(m, version) is Ok,
        ensures
            Self::spec_read_resource_type(written(Self::spec_write_resource_type(m, version)) + rest, version) == Ok::<(i8, Seq<u8>), Error>((m.resource_type, rest)),
    {
        reveal(ConfigResource::spec_read_resource_type);
        reveal(ConfigResource::spec_write_resource_type);
        if version >= 1 {
            lemma_i8_roundtrip(m.resource_type, rest);
        } else {
            assert(Seq::<u8>::empty() + rest =~= rest);
        }
    }

    proof fn lemma_round_trip_tags(m: ConfigResourceView, version: i16, rest: Seq<u8>)
        requires
            Self::canonical(m, version),
            Self::spec_write_tags(m, version) is Ok,
        ensures
            Self::spec_read_tags(written(Self::spec_write_tags(m, version)) + rest, version) == Ok::<(Seq<(u32, Seq<u8>)>, Seq<u8>), Error>((m.unknown_tagged_fields, rest)),
    {
        reveal(ConfigResource::spec_read_tags);
        reveal(ConfigResource::spec_write_tags);
        lemma_sorted_by_tag_in_order(m.unknown_tagged_fields);
        lemma_tagged_fields_round_trip(m.unknown_tagged_fields, rest);
    }

    /// Reading back what writing `m` in `version` appends gives `m` again, and
    /// leaves what follows, for every canonical message whose write succeeds.
    #[verifier::rlimit(70)]
    #[verifier::spinoff_prover]
    pub proof fn lemma_round_trip(m: ConfigResourceView, version: i16, rest: Seq<u8>)
        requires
            Self::canonical(m, version),
            Self::spec_write(m, version) is Ok,
        ensures
            Self::spec_read(written(Self::spec_write(m, version)) + rest, version) == Ok::<(ConfigResourceView, Seq<u8>), Error>((m, rest)),
    {
        let b0 = written(Self::spec_write_resource_name(m, version));
        let b1 = written(Self::spec_write_resource_type(m, version));
        let b2 = written(Self::spec_write_tags(m, version));
        let t3 = rest;
        let t2 = b2 + t3;
        let t1 = b1 + t2;
        let t0 = b0 + t1;
        let w0 = Self::spec_write_resource_name(m, version);
        let w1 = chain(w0, Self::spec_write_resource_type(m, version));
        let w2 = chain(w1, Self::spec_write_tags(m, version));
        assert(Self::spec_write(m, version) == w2);
        assert(written(w2) + t3 =~= written(w1) + t2);
        assert(written(w1) + t2 =~= written(w0) + t1);
        Self::lemma_round_trip_resource_name(m, version, t1);
        Self::lemma_round_trip_resource_type(m, version, t2);
        Self::lemma_round_trip_tags(m, version, t3);
    }

    /// In a version that does not carry `resource_type`, writing ignores its value.
    pub proof fn lemma_write_ignores_resource_type(m: ConfigResourceView, value: i8, version: i16)
        requires
            !(version >= 1),
        ensures
            Self::spec_write((ConfigResourceView { resource_type: value, ..m }), version) == Self::spec_write(m, version),
    {
        reveal(ConfigResource::spec_write_resource_name);
        reveal(ConfigResource::spec_write_resource_type);
        reveal(ConfigResource::spec_write_tags);
    }

    /// The default message holds the default value of each field of the schema.
    pub proof fn lemma_default_values()
        ensures
            Self::default_view().resource_name.len() == 0,
            Self::default_view().resource_type == (16i8),
            Self::default_view().unknown_tagged_fields.len() == 0,
    {
    }

    /// Each integer, boolean and identifier field is written as its standard
    /// big-endian bytes (a boolean as `1` or `0`) in the versions that carry
    /// it, and as nothing in the others; reading it takes those bytes back (any
    /// byte other than `0` reads as `true`), or gives its default value.
    pub proof fn lemma_field_encodings(m: ConfigResourceView, s: Seq<u8>, version: i16)
        ensures
            version >= 1 ==> Self::spec_write_resource_type(m, version) == Ok::<Seq<u8>, (Error, Seq<u8>)>(seq![m.resource_type as u8]),
            !(version >= 1) ==> Self::spec_write_resource_type(m, version) == Ok::<Seq<u8>, (Error, Seq<u8>)>(Seq::empty()),
            version >= 1 ==> Self::spec_read_resource_type(s, version) == (if s.len() < 1 { Err(Error::UnexpectedEof) } else { Ok((s[0] as i8, s.drop_first())) }),
            !(version >= 1) ==> Self::spec_read_resource_type(s, version) == Ok::<(i8, Seq<u8>), Error>((16i8, s)),
    {
        reveal(ConfigResource::spec_write_resource_type);
        reveal(ConfigResource::spec_read_resource_type);
    }

    /// Whether writing `m` in `version` succeeds, said over its parts: the
    /// version is one the schema covers, every field that the version cannot
    /// carry holds its default value, and every string, byte string, array and
    /// tagged field fits its length prefix.
    pub open spec fn writable(m: ConfigResourceView, version: i16) -> bool {
        &&& m.resource_name.len() <= 0x7fff
        &&& m.unknown_tagged_fields.len() <= u32::MAX && tags_fit(m.unknown_tagged_fields)
    }

    proof fn lemma_writable_resource_name(m: ConfigResourceView, version: i16)
        ensures
            Self::spec_write_resource_name(m, version) is Ok <==> m.resource_name.len() <= 0x7fff,
    {
        reveal(ConfigResource::spec_write_resource_name);
    }

    proof fn lemma_writable_resource_type(m: ConfigResourceView, version: i16)
        ensures
            Self::spec_write_resource_type(m, version) is Ok <==> true,
    {
        reveal(ConfigResource::spec_write_resource_type);
    }

    proof fn lemma_writable_tags(m: ConfigResourceView, version: i16)
        ensures
            Self::spec_write_tags(m, version) is Ok <==> m.unknown_tagged_fields.len() <= u32::MAX && tags_fit(m.unknown_tagged_fields),
    {
        reveal(ConfigResource::spec_write_tags);
        lemma_sorted_tags_fit(m.unknown_tagged_fields);
        lemma_tagged_fields_writable(sorted_by_tag(m.unknown_tagged_fields));
    }

    /// Writing `m` in `version` succeeds exactly when `m` is writable in it;
    /// so do `write` and `encoded_len`, whose results follow `spec_write`.
    #[verifier::rlimit(48)]
    pub proof fn lemma_writable(m: ConfigResourceView, version: i16)
        ensures
            Self::spec_write(m, version) is Ok <==> Self::writable(m, version),
    {
        Self::lemma_writable_resource_name(m, version);
        Self::lemma_writable_resource_type(m, version);
        Self::lemma_writable_tags(m, version);
    }

    fn read_resource_name(buf: &mut Bytes, version: i16) -> (r: Result<KafkaString, Error>)
        ensures
            read_as(Self::spec_read_resource_name(bytes_seq(*old(buf)), version), *final(buf), r),
            took_front(*old(buf), *final(buf)),
    {
        proof {
            reveal(ConfigResource::spec_read_resource_name);
        }
        Ok(read_compact_string(buf)?)
    }

    fn read_resource_type(buf: &mut Bytes, version: i16) -> (r: Result<i8, Error>)
        ensures
            read_as(Self::spec_read_resource_type(bytes_seq(*old(buf)), version), *final(buf), r),
            took_front(*old(buf), *final(buf)),
    {
        proof {
            reveal(ConfigResource::spec_read_resource_type);
        }
        Ok(if version >= 1 {
                read_i8(buf)?
            } else {
                16i8
        })
    }

    fn read_tags(buf: &mut Bytes, version: i16) -> (r: Result<Vec<RawTaggedField>, Error>)
        ensures
            read_vec_as(Self::spec_read_tags(bytes_seq(*old(buf)), version), *final(buf), r),
            took_front(*old(buf), *final(buf)),
    {
        proof {
            reveal(ConfigResource::spec_read_tags);
        }
        Ok(read_tagged_fields(buf)?)
    }

    pub fn read(buf: &mut Bytes, version: i16) -> (r: Result<Self, Error>)
        ensures
            read_as(Self::spec_read(bytes_seq(*old(buf)), version), *final(buf), r),
            took_front(*old(buf), *final(buf)),
    {
        let resource_name = Self::read_resource_name(buf, version)?;
        let resource_type = Self::read_resource_type(buf, version)?;
        let _unknown_tagged_fields = Self::read_tags(buf, version)?;
        Ok(ConfigResource {
                resource_name: resource_name,
                resource_type: resource_type,
                _unknown_tagged_fields: _unknown_tagged_fields,
        })
    }

    #[verifier::rlimit(60)]
    pub fn write(&self, buf: &mut BytesMut, version: i16) -> (r: Result<(), Error>)
        requires
            has_room(Self::spec_write(self@, version), *old(buf)),
        ensures
            wrote(Self::spec_write(self@, version), *old(buf), *final(buf), r),
    {
        let ghost m = self@;
        proof {
            reveal(ConfigResource::spec_write_resource_name);
            reveal(ConfigResource::spec_write_resource_type);
            reveal(ConfigResource::spec_write_tags);
        }
        let ghost s0 = Self::spec_write_resource_name(m, version);
        let ghost w0 = s0;
        let ghost s1 = Self::spec_write_resource_type(m, version);
        let ghost w1 = chain(w0, s1);
        let ghost s2 = Self::spec_write_tags(m, version);
        let ghost w2 = chain(w1, s2);
        assert(Self::spec_write(m, version) == w2);
        assert(written(w1).len() <= written(w2).len() && (w1 is Err ==> w2 == w1));
        assert(written(w0).len() <= written(w2).len() && (w0 is Err ==> w2 == w0));
        let ghost mid = bytes_mut_seq(*buf);
        proof {
            lemma_append_empty(mid);
        }
        let r0 = write_compact_string(buf, &self.resource_name);
        assert(bytes_mut_seq(*buf) == mid + written(s0));
        if r0.is_err() {
            return r0;
        }
        let ghost mid = bytes_mut_seq(*buf);
        proof {
            lemma_append_empty(mid);
        }
        let r1 = if version >= 1 {
            {
                write_i8(buf, self.resource_type);
                Ok(())
            }
        } else {
            Ok(())
        };
        assert(bytes_mut_seq(*buf) == mid + written(s1));
        proof {
            lemma_step(bytes_mut_seq(*old(buf)), w0, s1);
        }
        if r1.is_err() {
            return r1;
        }
        let ghost mid = bytes_mut_seq(*buf);
        proof {
            lemma_append_empty(mid);
        }
        let r2 = write_tagged_fields(buf, &sort_by_tag(&self._unknown_tagged_fields));
        assert(bytes_mut_seq(*buf) == mid + written(s2));
        proof {
            lemma_step(bytes_mut_seq(*old(buf)), w1, s2);
        }
        if r2.is_err() {
            return r2;
        }
        Ok(())
    }
}

impl Codec for ConfigResource {
    type Item = ConfigResource;

    open spec fn spec_read_item(s: Seq<u8>, version: i16) -> ReadOutcome<ConfigResourceView> {
        ConfigResource::spec_read(s, version)
    }

    open spec fn spec_write_item(v: ConfigResourceView, version: i16) -> WriteOutcome {
        ConfigResource::spec_write(v, version)
    }

    open spec fn canonical_item(v: ConfigResourceView, version: i16) -> bool {
        ConfigResource::canonical(v, version)
    }

    proof fn lemma_item_round_trip(v: ConfigResourceView, version: i16, rest: Seq<u8>) {
        ConfigResource::lemma_round_trip(v, version, rest);
    }

    open spec fn writable_item(v: ConfigResourceView, version: i16) -> bool {
        ConfigResource::writable(v, version)
    }

    proof fn lemma_item_writable(v: ConfigResourceView, version: i16) {
        ConfigResource::lemma_writable(v, version);
    }

    fn read_item(buf: &mut Bytes, version: i16) -> (r: Result<ConfigResource, Error>) {
        ConfigResource::read(buf, version)
    }

    fn write_item(item: &ConfigResource, buf: &mut BytesMut, version: i16) -> (r: Result<(), Error>) {
        item.write(buf, version)
    }
}

} // verus!
