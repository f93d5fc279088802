//! The find coordinator request message.
use crate::buffer::{bytes_mut_seq, bytes_seq};
use crate::codec::{CompactStringItem, all_writable, lemma_array_round_trip, lemma_array_writable, read_array, spec_read_array, spec_write_array, write_array};
use crate::error::{Error, UnsupportedVersion};
use crate::ints::{lemma_i8_roundtrip, read_i8, spec_read_i8, spec_write_i8, write_i8};
use crate::strings::{lemma_compact_string_round_trip, lemma_string_round_trip, read_compact_string, read_string, spec_read_compact_string, spec_read_string, spec_write_compact_string, spec_write_string, write_compact_string, write_string};
use crate::tagged::{lemma_sorted_by_tag_in_order, lemma_sorted_tags_fit, lemma_tagged_fields_round_trip, lemma_tagged_fields_writable, read_tagged_fields, sort_by_tag, sorted_by_tag, spec_read_tagged_fields, spec_write_tagged_fields, tags_fit, tags_in_order, write_tagged_fields};
use crate::types::{KafkaString, RawTaggedField};
use crate::wire::{ReadOutcome, ViewClone, WriteOutcome, chain, clone_vec, emit, empty_vec, fail, has_room, lemma_append_empty, lemma_chain_written, lemma_step, read_as, read_vec_as, took_front, views, written, wrote};
use bytes::{Bytes, BytesMut};
use vstd::prelude::*;

verus! {

broadcast use {crate::wire::lemma_chain_written, crate::wire::lemma_took_front_nothing, crate::wire::lemma_took_front_twice};

#[derive(Debug, PartialEq)]
pub struct FindCoordinatorRequestData {
    /// The coordinator key.
    pub key: KafkaString,
    /// The coordinator key type. (group, transaction, share).
    pub key_type: i8,
    /// The coordinator keys.
    pub coordinator_keys: Vec<KafkaString>,
    pub _unknown_tagged_fields: Vec<RawTaggedField>,
}

/// What a `FindCoordinatorRequestData` holds, as the specification sees it.
#[verifier::ext_equal]
pub struct FindCoordinatorRequestDataView {
    pub key: Seq<u8>,
    pub key_type: i8,
    pub coordinator_keys: Seq<Seq<u8>>,
    pub unknown_tagged_fields: Seq<(u32, Seq<u8>)>,
}

impl View for FindCoordinatorRequestData {
    type V = FindCoordinatorRequestDataView;

    open spec fn view(&self) -> FindCoordinatorRequestDataView {
        FindCoordinatorRequestDataView {
            key: self.key@,
            key_type: self.key_type,
            coordinator_keys: views(self.coordinator_keys@),
            unknown_tagged_fields: views(self._unknown_tagged_fields@),
        }
    }
}

impl Clone for FindCoordinatorRequestData {
    fn clone(&self) -> (r: Self)
        ensures
            r@ == self@,
    {
        let r = FindCoordinatorRequestData {
            key: self.key.clone(),
            key_type: self.key_type,
            coordinator_keys: clone_vec(&self.coordinator_keys),
            _unknown_tagged_fields: clone_vec(&self._unknown_tagged_fields),
        };
        assert(r@ =~= self@);
        r
    }
}

impl ViewClone for FindCoordinatorRequestData {
    fn clone_view(&self) -> (r: Self) {
        self.clone()
    }
}

impl Default for FindCoordinatorRequestData {
    fn default() -> (r: Self)
        ensures
            r@ == Self::default_view(),
    {
        let r = FindCoordinatorRequestData {
            key: KafkaString::default(),
            key_type: 0i8,
            coordinator_keys: empty_vec(),
            _unknown_tagged_fields: empty_vec(),
        };
        assert(r@ =~= Self::default_view());
        r
    }
}

impl FindCoordinatorRequestData {
    pub open spec fn default_view() -> FindCoordinatorRequestDataView {
        FindCoordinatorRequestDataView {
            key: Seq::empty(),
            key_type: 0i8,
            coordinator_keys: Seq::empty(),
            unknown_tagged_fields: Seq::empty(),
        }
    }

    /// The `key` field, read from the front of `s`.
    #[verifier::opaque]
    pub open spec fn spec_read_key(s: Seq<u8>, version: i16) -> ReadOutcome<Seq<u8>> {
        if version <= 3 {
            if version >= 3 {
                spec_read_compact_string(s)
            } else {
                spec_read_string(s)
            }
        } else {
            Ok((Seq::empty(), s))
        }
    }

    /// The `key_type` field, read from the front of `s`.
    #[verifier::opaque]
    pub open spec fn spec_read_key_type(s: Seq<u8>, version: i16) -> ReadOutcome<i8> {
        if version >= 1 {
            spec_read_i8(s)
        } else {
            Ok((0i8, s))
        }
    }

    /// The `coordinator_keys` field, read from the front of `s`.
    #[verifier::opaque]
    pub open spec fn spec_read_coordinator_keys(s: Seq<u8>, version: i16) -> ReadOutcome<Seq<Seq<u8>>> {
        if version >= 4 {
            spec_read_array::<CompactStringItem>(s, version, true)
        } else {
            Ok((Seq::empty(), s))
        }
    }

    /// The tagged fields, read from the front of `s`.
    #[verifier::opaque]
    pub open spec fn spec_read_tags(s: Seq<u8>, version: i16) -> ReadOutcome<Seq<(u32, Seq<u8>)>> {
        if version >= 3 {
            spec_read_tagged_fields(s)
        } else {
            Ok((Seq::empty(), s))
        }
    }

    pub open spec fn spec_read(s: Seq<u8>, version: i16) -> ReadOutcome<FindCoordinatorRequestDataView> {
        if version < 0 || version > 6 {
            Err(Error::UnsupportedVersion(UnsupportedVersion { api_key: 10, version }))
        } else {
            match (Self::spec_read_key(s, version)) {
                Err(e) => Err(e),
                Ok((key, s)) => match (Self::spec_read_key_type(s, version)) {
                    Err(e) => Err(e),
                    Ok((key_type, s)) => match (Self::spec_read_coordinator_keys(s, version)) {
                        Err(e) => Err(e),
                        Ok((coordinator_keys, s)) => match (Self::spec_read_tags(s, version)) {
                            Err(e) => Err(e),
                            Ok((unknown_tagged_fields, s)) => Ok((FindCoordinatorRequestDataView {
                                        key: key,
                                        key_type: key_type,
                                        coordinator_keys: coordinator_keys,
                                        unknown_tagged_fields: unknown_tagged_fields,
                                    }, s)),
                        },
                    },
                },
            }
        }
    }

    /// What writing the `key` field of `m` appends.
    #[verifier::opaque]
    pub open spec fn spec_write_key(m: FindCoordinatorRequestDataView, version: i16) -> WriteOutcome {
        if version <= 3 {
            if version >= 3 {
                spec_write_compact_string(m.key)
            } else {
                spec_write_string(m.key)
            }
        } else {
            emit(Seq::empty())
        }
    }

    /// What writing the `key_type` field of `m` appends.
    #[verifier::opaque]
    pub open spec fn spec_write_key_type(m: FindCoordinatorRequestDataView, version: i16) -> WriteOutcome {
        if version >= 1 {
            spec_write_i8(m.key_type)
        } else {
            emit(Seq::empty())
        }
    }

    /// What writing the `coordinator_keys` field of `m` appends.
    #[verifier::opaque]
    pub open spec fn spec_write_coordinator_keys(m: FindCoordinatorRequestDataView, version: i16) -> WriteOutcome {
        if version >= 4 {
            spec_write_array::<CompactStringItem>(m.coordinator_keys, version, true)
        } else {
            emit(Seq::empty())
        }
    }

    /// What writing the tagged fields of `m` appends.
    #[verifier::opaque]
    pub open spec fn spec_write_tags(m: FindCoordinatorRequestDataView, version: i16) -> WriteOutcome {
        if version >= 3 {
            spec_write_tagged_fields(sorted_by_tag(m.unknown_tagged_fields))
        } else {
            emit(Seq::empty())
        }
    }

    pub open spec fn spec_write(m: FindCoordinatorRequestDataView, version: i16) -> WriteOutcome {
        if version < 0 || version > 6 {
            fail(Error::UnsupportedVersion(UnsupportedVersion { api_key: 10, version }))
        } else {
            chain(
                chain(
                    chain(
                        Self::spec_write_key(m, version),
                        Self::spec_write_key_type(m, version),
                    ),
                    Self::spec_write_coordinator_keys(m, version),
                ),
                Self::spec_write_tags(m, version),
            )
        }
    }

    /// Whether reading back what writing `m` in `version` appends gives `m`:
    /// fields that the version does not carry hold their default values, and
    /// tagged fields come in the order in which they are written.
    pub open spec fn canonical(m: FindCoordinatorRequestDataView, version: i16) -> bool {
        &&& (if version <= 3 {
                true
            } else {
                m.key.len() == 0
        })
        &&& (if version >= 1 {
                true
            } else {
                m.key_type == 0i8
        })
        &&& (if version >= 4 {
                true
            } else {
                m.coordinator_keys.len() == 0
        })
        &&& (if version >= 3 {
                tags_in_order(m.unknown_tagged_fields)
            } else {
                m.unknown_tagged_fields.len() == 0
        })
    }

    proof fn lemma_round_trip_key(m: FindCoordinatorRequestDataView, version: i16, rest: Seq<u8>)
        requires
            Self::canonical(m, version),
            Self::spec_write_key(m, version) is Ok,
        ensures
            Self::spec_read_key(written(Self::spec_write_key(m, version)) + rest, version) == Ok::<(Seq<u8>, Seq<u8>), Error>((m.key, rest)),
    {
        reveal(FindCoordinatorRequestData::spec_read_key);
        reveal(FindCoordinatorRequestData::spec_write_key);
        if version <= 3 {
            if version >= 3 {
                lemma_compact_string_round_trip(m.key, rest);
            } else {
                lemma_string_round_trip(m.key, rest);
            }
        } else {
            assert(Seq::<u8>::empty() + rest =~= rest);
            assert(m.key =~= Seq::empty());
        }
    }

    proof fn lemma_round_trip_key_type(m: FindCoordinatorRequestDataView, version: i16, rest: Seq<u8>)
        requires
            Self::canonical(m, version),
            Self::spec_write_key_type(m, version) is Ok,
        ensures
            Self::spec_read_key_type(written(Self::spec_write_key_type(m, version)) + rest, version) == Ok::<(i8, Seq<u8>), Error>((m.key_type, rest)),
    {
        reveal(FindCoordinatorRequestData::spec_read_key_type);
        reveal(FindCoordinatorRequestData::spec_write_key_type);
        if version >= 1 {
            lemma_i8_roundtrip(m.key_type, rest);
        } else {
            assert(Seq::<u8>::empty() + rest =~= rest);
        }
    }

    proof fn lemma_round_trip_coordinator_keys(m: FindCoordinatorRequestDataView, version: i16, rest: Seq<u8>)
        requires
            Self::canonical(m, version),
            Self::spec_write_coordinator_keys(m, version) is Ok,
        ensures
            Self::spec_read_coordinator_keys(written(Self::spec_write_coordinator_keys(m, version)) + rest, version) == Ok::<(Seq<Seq<u8>>, Seq<u8>), Error>((m.coordinator_keys, rest)),
    {
        reveal(FindCoordinatorRequestData::spec_read_coordinator_keys);
        reveal(FindCoordinatorRequestData::spec_write_coordinator_keys);
        if version >= 4 {
            lemma_array_round_trip::<CompactStringItem>(m.coordinator_keys, version, true, rest);
        } else {
            assert(Seq::<u8>::empty() + rest =~= rest);
            assert(m.coordinator_keys =~= Seq::empty());
        }
    }

    proof fn lemma_round_trip_tags(m: FindCoordinatorRequestDataView, version: i16, rest: Seq<u8>)
        requires
            Self::canonical(m, version),
            Self::spec_write_tags(m, version) is Ok,
        ensures
            Self::spec_read_tags(written(Self::spec_write_tags(m, version)) + rest, version) == Ok::<(Seq<(u32, Seq<u8>)>, Seq<u8>), Error>((m.unknown_tagged_fields, rest)),
    {
        reveal(FindCoordinatorRequestData::spec_read_tags);
        reveal(FindCoordinatorRequestData::spec_write_tags);
        if version >= 3 {
            lemma_sorted_by_tag_in_order(m.unknown_tagged_fields);
            lemma_tagged_fields_round_trip(m.unknown_tagged_fields, rest);
        } else {
            assert(Seq::<u8>::empty() + rest =~= rest);
            assert(m.unknown_tagged_fields =~= Seq::empty());
        }
    }

    /// Reading back what writing `m` in `version` appends gives `m` again, and
    /// leaves what follows, for every canonical message whose write succeeds.
    #[verifier::rlimit(80)]
    #[verifier::spinoff_prover]
    pub proof fn lemma_round_trip(m: FindCoordinatorRequestDataView, version: i16, rest: Seq<u8>)
        requires
            Self::canonical(m, version),
            Self::spec_write(m, version) is Ok,
        ensures
            Self::spec_read(written(Self::spec_write(m, version)) + rest, version) == Ok::<(FindCoordinatorRequestDataView, Seq<u8>), Error>((m, rest)),
    {
        let b0 = written(Self::spec_write_key(m, version));
        let b1 = written(Self::spec_write_key_type(m, version));
        let b2 = written(Self::spec_write_coordinator_keys(m, version));
        let b3 = written(Self::spec_write_tags(m, version));
        let t4 = rest;
        let t3 = b3 + t4;
        let t2 = b2 + t3;
        let t1 = b1 + t2;
        let t0 = b0 + t1;
        let w0 = Self::spec_write_key(m, version);
        let w1 = chain(w0, Self::spec_write_key_type(m, version));
        let w2 = chain(w1, Self::spec_write_coordinator_keys(m, version));
        let w3 = chain(w2, Self::spec_write_tags(m, version));
        assert(Self::spec_write(m, version) == w3);
        assert(written(w3) + t4 =~= written(w2) + t3);
        assert(written(w2) + t3 =~= written(w1) + t2);
        assert(written(w1) + t2 =~= written(w0) + t1);
        Self::lemma_round_trip_key(m, version, t1);
        Self::lemma_round_trip_key_type(m, version, t2);
        Self::lemma_round_trip_coordinator_keys(m, version, t3);
        Self::lemma_round_trip_tags(m, version, t4);
    }

    /// In a version that does not carry `key`, writing ignores its value.
    pub proof fn lemma_write_ignores_key(m: FindCoordinatorRequestDataView, value: Seq<u8>, version: i16)
        requires
            !(version <= 3),
        ensures
            Self::spec_write((FindCoordinatorRequestDataView { key: value, ..m }), version) == Self::spec_write(m, version),
    {
        reveal(FindCoordinatorRequestData::spec_write_key);
        reveal(FindCoordinatorRequestData::spec_write_key_type);
        reveal(FindCoordinatorRequestData::spec_write_coordinator_keys);
        reveal(FindCoordinatorRequestData::spec_write_tags);
    }

    /// In a version that does not carry `key_type`, writing ignores its value.
    pub proof fn lemma_write_ignores_key_type(m: FindCoordinatorRequestDataView, value: i8, version: i16)
        requires
            !(version >= 1),
        ensures
            Self::spec_write((FindCoordinatorRequestDataView { key_type: value, ..m }), version) == Self::spec_write(m, version),
    {
        reveal(FindCoordinatorRequestData::spec_write_key);
        reveal(FindCoordinatorRequestData::spec_write_key_type);
        reveal(FindCoordinatorRequestData::spec_write_coordinator_keys);
        reveal(FindCoordinatorRequestData::spec_write_tags);
    }

    /// In a version that does not carry `coordinator_keys`, writing ignores its value.
    pub proof fn lemma_write_ignores_coordinator_keys(m: FindCoordinatorRequestDataView, value: Seq<Seq<u8>>, version: i16)
        requires
            !(version >= 4),
        ensures
            Self::spec_write((FindCoordinatorRequestDataView { coordinator_keys: value, ..m }), version) == Self::spec_write(m, version),
    {
        reveal(FindCoordinatorRequestData::spec_write_key);
        reveal(FindCoordinatorRequestData::spec_write_key_type);
        reveal(FindCoordinatorRequestData::spec_write_coordinator_keys);
        reveal(FindCoordinatorRequestData::spec_write_tags);
    }

    /// In a version that does not carry `unknown_tagged_fields`, writing ignores its value.
    pub proof fn lemma_write_ignores_unknown_tagged_fields(m: FindCoordinatorRequestDataView, value: Seq<(u32, Seq<u8>)>, version: i16)
        requires
            !(version >= 3),
        ensures
            Self::spec_write((FindCoordinatorRequestDataView { unknown_tagged_fields: value, ..m }), version) == Self::spec_write(m, version),
    {
        reveal(FindCoordinatorRequestData::spec_write_key);
        reveal(FindCoordinatorRequestData::spec_write_key_type);
        reveal(FindCoordinatorRequestData::spec_write_coordinator_keys);
        reveal(FindCoordinatorRequestData::spec_write_tags);
    }

    /// The default message holds the default value of each field of the schema.
    pub proof fn lemma_default_values()
        ensures
            Self::default_view().key.len() == 0,
            Self::default_view().key_type == (0i8),
            Self::default_view().coordinator_keys.len() == 0,
            Self::default_view().unknown_tagged_fields.len() == 0,
    {
    }

    /// Each integer, boolean and identifier field is written as its standard
    /// big-endian bytes (a boolean as `1` or `0`) in the versions that carry
    /// it, and as nothing in the others; reading it takes those bytes back (any
    /// byte other than `0` reads as `true`), or gives its default value.
    pub proof fn lemma_field_encodings(m: FindCoordinatorRequestDataView, s: Seq<u8>, version: i16)
        ensures
            !(version <= 3) ==> Self::spec_write_key(m, version) == Ok::<Seq<u8>, (Error, Seq<u8>)>(Seq::empty()),
            version >= 1 ==> Self::spec_write_key_type(m, version) == Ok::<Seq<u8>, (Error, Seq<u8>)>(seq![m.key_type as u8]),
            !(version >= 1) ==> Self::spec_write_key_type(m, version) == Ok::<Seq<u8>, (Error, Seq<u8>)>(Seq::empty()),
            !(version >= 4) ==> Self::spec_write_coordinator_keys(m, version) == Ok::<Seq<u8>, (Error, Seq<u8>)>(Seq::empty()),
            version >= 1 ==> Self::spec_read_key_type(s, version) == (if s.len() < 1 { Err(Error::UnexpectedEof) } else { Ok((s[0] as i8, s.drop_first())) }),
            !(version >= 1) ==> Self::spec_read_key_type(s, version) == Ok::<(i8, Seq<u8>), Error>((0i8, s)),
    {
        reveal(FindCoordinatorRequestData::spec_write_key);
        reveal(FindCoordinatorRequestData::spec_read_key);
        reveal(FindCoordinatorRequestData::spec_write_key_type);
        reveal(FindCoordinatorRequestData::spec_read_key_type);
        reveal(FindCoordinatorRequestData::spec_write_coordinator_keys);
        reveal(FindCoordinatorRequestData::spec_read_coordinator_keys);
    }

    /// Whether writing `m` in `version` succeeds, said over its parts: the
    /// version is one the schema covers, every field that the version cannot
    /// carry holds its default value, and every string, byte string, array and
    /// tagged field fits its length prefix.
    pub open spec fn writable(m: FindCoordinatorRequestDataView, version: i16) -> bool {
        &&& 0 <= version <= 6
        &&& (if version <= 3 {
                m.key.len() <= 0x7fff
            } else {
                true
        })
        &&& (if version >= 4 {
                (m.coordinator_keys.len() <= i32::MAX && all_writable::<CompactStringItem>(m.coordinator_keys, version))
            } else {
                true
        })
        &&& (if version >= 3 {
                m.unknown_tagged_fields.len() <= u32::MAX && tags_fit(m.unknown_tagged_fields)
            } else {
                true
        })
    }

    proof fn lemma_writable_key(m: FindCoordinatorRequestDataView, version: i16)
        ensures
            Self::spec_write_key(m, version) is Ok <==> (if version <= 3 { m.key.len() <= 0x7fff } else { true }),
    {
        reveal(FindCoordinatorRequestData::spec_write_key);
    }

    proof fn lemma_writable_key_type(m: FindCoordinatorRequestDataView, version: i16)
        ensures
            Self::spec_write_key_type(m, version) is Ok <==> true,
    {
        reveal(FindCoordinatorRequestData::spec_write_key_type);
    }

    proof fn lemma_writable_coordinator_keys(m: FindCoordinatorRequestDataView, version: i16)
        ensures
            Self::spec_write_coordinator_keys(m, version) is Ok <==> (if version >= 4 { (m.coordinator_keys.len() <= i32::MAX && all_writable::<CompactStringItem>(m.coordinator_keys, version)) } else { true }),
    {
        reveal(FindCoordinatorRequestData::spec_write_coordinator_keys);
        if version >= 4 {
            lemma_array_writable::<CompactStringItem>(m.coordinator_keys, version, true);
        } else {
        }
    }

    proof fn lemma_writable_tags(m: FindCoordinatorRequestDataView, version: i16)
        ensures
            Self::spec_write_tags(m, version) is Ok <==> (if version >= 3 { m.unknown_tagged_fields.len() <= u32::MAX && tags_fit(m.unknown_tagged_fields) } else { true }),
    {
        reveal(FindCoordinatorRequestData::spec_write_tags);
        if version >= 3 {
            lemma_sorted_tags_fit(m.unknown_tagged_fields);
            lemma_tagged_fields_writable(sorted_by_tag(m.unknown_tagged_fields));
        }
    }

    /// Writing `m` in `version` succeeds exactly when `m` is writable in it;
    /// so do `write` and `encoded_len`, whose results follow `spec_write`.
    #[verifier::rlimit(54)]
    pub proof fn lemma_writable(m: FindCoordinatorRequestDataView, version: i16)
        ensures
            Self::spec_write(m, version) is Ok <==> Self::writable(m, version),
    {
        Self::lemma_writable_key(m, version);
        Self::lemma_writable_key_type(m, version);
        Self::lemma_writable_coordinator_keys(m, version);
        Self::lemma_writable_tags(m, version);
    }

    /// A version outside the range that the schema covers is refused, by
    /// reads and by writes alike, before anything is read or written.
    pub proof fn lemma_refused_version(m: FindCoordinatorRequestDataView, s: Seq<u8>, version: i16)
        requires
            version < 0 || version > 6,
        ensures
            Self::spec_read(s, version) == Err::<(FindCoordinatorRequestDataView, Seq<u8>), Error>(Error::UnsupportedVersion(UnsupportedVersion { api_key: 10, version })),
            Self::spec_write(m, version) == fail(Error::UnsupportedVersion(UnsupportedVersion { api_key: 10, version })),
    {
    }

    fn read_key(buf: &mut Bytes, version: i16) -> (r: Result<KafkaString, Error>)
        ensures
            read_as(Self::spec_read_key(bytes_seq(*old(buf)), version), *final(buf), r),
            took_front(*old(buf), *final(buf)),
    {
        proof {
            reveal(FindCoordinatorRequestData::spec_read_key);
        }
        Ok(if version <= 3 {
                if version >= 3 {
                    read_compact_string(buf)?
                } else {
                    read_string(buf)?
                }
            } else {
                KafkaString::default()
        })
    }

    fn read_key_type(buf: &mut Bytes, version: i16) -> (r: Result<i8, Error>)
        ensures
            read_as(Self::spec_read_key_type(bytes_seq(*old(buf)), version), *final(buf), r),
            took_front(*old(buf), *final(buf)),
    {
        proof {
            reveal(FindCoordinatorRequestData::spec_read_key_type);
        }
        Ok(if version >= 1 {
                read_i8(buf)?
            } else {
                0i8
        })
    }

    fn read_coordinator_keys(buf: &mut Bytes, version: i16) -> (r: Result<Vec<KafkaString>, Error>)
        ensures
            read_vec_as(Self::spec_read_coordinator_keys(bytes_seq(*old(buf)), version), *final(buf), r),
            took_front(*old(buf), *final(buf)),
    {
        proof {
            reveal(FindCoordinatorRequestData::spec_read_coordinator_keys);
        }
        Ok(if version >= 4 {
                read_array::<CompactStringItem>(buf, version, true)?
            } else {
                empty_vec()
        })
    }

    fn read_tags(buf: &mut Bytes, version: i16) -> (r: Result<Vec<RawTaggedField>, Error>)
        ensures
            read_vec_as(Self::spec_read_tags(bytes_seq(*old(buf)), version), *final(buf), r),
            took_front(*old(buf), *final(buf)),
    {
        proof {
            reveal(FindCoordinatorRequestData::spec_read_tags);
        }
        Ok(if version >= 3 {
                read_tagged_fields(buf)?
            } else {
                empty_vec()
        })
    }

    pub fn read(buf: &mut Bytes, version: i16) -> (r: Result<Self, Error>)
        ensures
            read_as(Self::spec_read(bytes_seq(*old(buf)), version), *final(buf), r),
            took_front(*old(buf), *final(buf)),
            (version < 0 || version > 6) ==> bytes_seq(*final(buf)) == bytes_seq(*old(buf)),
    {
        if version < 0 || version > 6 {
            return Err(Error::UnsupportedVersion(UnsupportedVersion::new(10, version)));
        }
        let key = Self::read_key(buf, version)?;
        let key_type = Self::read_key_type(buf, version)?;
        let coordinator_keys = Self::read_coordinator_keys(buf, version)?;
        let _unknown_tagged_fields = Self::read_tags(buf, version)?;
        Ok(FindCoordinatorRequestData {
                key: key,
                key_type: key_type,
                coordinator_keys: coordinator_keys,
                _unknown_tagged_fields: _unknown_tagged_fields,
        })
    }

    #[verifier::rlimit(70)]
    pub fn write(&self, buf: &mut BytesMut, version: i16) -> (r: Result<(), Error>)
        requires
            has_room(Self::spec_write(self@, version), *old(buf)),
        ensures
            wrote(Self::spec_write(self@, version), *old(buf), *final(buf), r),
    {
        if version < 0 || version > 6 {
            return Err(Error::UnsupportedVersion(UnsupportedVersion::new(10, version)));
        }
        let ghost m = self@;
        proof {
            reveal(FindCoordinatorRequestData::spec_write_key);
            reveal(FindCoordinatorRequestData::spec_write_key_type);
            reveal(FindCoordinatorRequestData::spec_write_coordinator_keys);
            reveal(FindCoordinatorRequestData::spec_write_tags);
        }
        let ghost s0 = Self::spec_write_key(m, version);
        let ghost w0 = s0;
        let ghost s1 = Self::spec_write_key_type(m, version);
        let ghost w1 = chain(w0, s1);
        let ghost s2 = Self::spec_write_coordinator_keys(m, version);
        let ghost w2 = chain(w1, s2);
        let ghost s3 = Self::spec_write_tags(m, version);
        let ghost w3 = chain(w2, s3);
        assert(Self::spec_write(m, version) == w3);
        assert(written(w2).len() <= written(w3).len() && (w2 is Err ==> w3 == w2));
        assert(written(w1).len() <= written(w3).len() && (w1 is Err ==> w3 == w1));
        assert(written(w0).len() <= written(w3).len() && (w0 is Err ==> w3 == w0));
        let ghost mid = bytes_mut_seq(*buf);
        proof {
            lemma_append_empty(mid);
        }
        let r0 = if version <= 3 {
            if version >= 3 {
                write_compact_string(buf, &self.key)
            } else {
                write_string(buf, &self.key)
            }
        } else {
            Ok(())
        };
        assert(bytes_mut_seq(*buf) == mid + written(s0));
        if r0.is_err() {
            return r0;
        }
        let ghost mid = bytes_mut_seq(*buf);
        proof {
            lemma_append_empty(mid);
        }
        let r1 = if version >= 1 {
            {
                write_i8(buf, self.key_type);
                Ok(())
            }
        } else {
            Ok(())
        };
        assert(bytes_mut_seq(*buf) == mid + written(s1));
        proof {
            lemma_step(bytes_mut_seq(*old(buf)), w0, s1);
        }
        if r1.is_err() {
            return r1;
        }
        let ghost mid = bytes_mut_seq(*buf);
        proof {
            lemma_append_empty(mid);
        }
        let r2 = if version >= 4 {
            write_array::<CompactStringItem>(buf, &self.coordinator_keys, version, true)
        } else {
            Ok(())
        };
        assert(bytes_mut_seq(*buf) == mid + written(s2));
        proof {
            lemma_step(bytes_mut_seq(*old(buf)), w1, s2);
        }
        if r2.is_err() {
            return r2;
        }
        let ghost mid = bytes_mut_seq(*buf);
        proof {
            lemma_append_empty(mid);
        }
        let r3 = if version >= 3 {
            write_tagged_fields(buf, &sort_by_tag(&self._unknown_tagged_fields))
        } else {
            Ok(())
        };
        assert(bytes_mut_seq(*buf) == mid + written(s3));
        proof {
            lemma_step(bytes_mut_seq(*old(buf)), w2, s3);
        }
        if r3.is_err() {
            return r3;
        }
        Ok(())
    }
}

} // verus!
