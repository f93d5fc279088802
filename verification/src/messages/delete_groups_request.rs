//! The delete groups request message.
use crate::buffer::{bytes_mut_seq, bytes_seq};
use crate::codec::{CompactStringItem, StringItem, all_writable, array_len, lemma_array_round_trip, lemma_array_writable, read_array, saturating_sum, spec_read_array, spec_write_array, write_array};
use crate::error::{Error, UnsupportedVersion};
use crate::tagged::{lemma_sorted_by_tag_in_order, lemma_sorted_tags_fit, lemma_tagged_fields_round_trip, lemma_tagged_fields_writable, read_tagged_fields, sort_by_tag, sorted_by_tag, spec_read_tagged_fields, spec_write_tagged_fields, tagged_fields_len, tags_fit, tags_in_order, write_tagged_fields};
use crate::types::{KafkaString, RawTaggedField};
use crate::wire::{ReadOutcome, ViewClone, WriteOutcome, chain, clone_vec, emit, empty_vec, fail, has_room, lemma_append_empty, lemma_chain_written, lemma_len_step, lemma_step, len_result, read_as, read_vec_as, saturate, took_front, views, written, wrote};
use bytes::{Bytes, BytesMut};
use vstd::prelude::*;

verus! {

broadcast use {crate::wire::lemma_chain_written, crate::wire::lemma_took_front_nothing, crate::wire::lemma_took_front_twice};

#[derive(Debug, PartialEq)]
pub struct DeleteGroupsRequestData {
    /// The group names to delete.
    pub groups_names: Vec<KafkaString>,
    pub _unknown_tagged_fields: Vec<RawTaggedField>,
}

/// What a `DeleteGroupsRequestData` holds, as the specification sees it.
#[verifier::ext_equal]
pub struct DeleteGroupsRequestDataView {
    pub groups_names: Seq<Seq<u8>>,
    pub unknown_tagged_fields: Seq<(u32, Seq<u8>)>,
}

impl View for DeleteGroupsRequestData {
    type V = DeleteGroupsRequestDataView;

    open spec fn view(&self) -> DeleteGroupsRequestDataView {
        DeleteGroupsRequestDataView {
            groups_names: views(self.groups_names@),
            unknown_tagged_fields: views(self._unknown_tagged_fields@),
        }
    }
}

impl Clone for DeleteGroupsRequestData {
    fn clone(&self) -> (r: Self)
        ensures
            r@ == self@,
    {
        let r = DeleteGroupsRequestData {
            groups_names: clone_vec(&self.groups_names),
            _unknown_tagged_fields: clone_vec(&self._unknown_tagged_fields),
        };
        assert(r@ =~= self@);
        r
    }
}

impl ViewClone for DeleteGroupsRequestData {
    fn clone_view(&self) -> (r: Self) {
        self.clone()
    }
}

impl Default for DeleteGroupsRequestData {
    fn default() -> (r: Self)
        ensures
            r@ == Self::default_view(),
    {
        let r = DeleteGroupsRequestData {
            groups_names: empty_vec(),
            _unknown_tagged_fields: empty_vec(),
        };
        assert(r@ =~= Self::default_view());
        r
    }
}

impl DeleteGroupsRequestData {
    pub open spec fn default_view() -> DeleteGroupsRequestDataView {
        DeleteGroupsRequestDataView {
            groups_names: Seq::empty(),
            unknown_tagged_fields: Seq::empty(),
        }
    }

    /// The `groups_names` field, read from the front of `s`.
    #[verifier::opaque]
    pub open spec fn spec_read_groups_names(s: Seq<u8>, version: i16) -> ReadOutcome<Seq<Seq<u8>>> {
        if version >= 2 {
            spec_read_array::<CompactStringItem>(s, version, true)
        } else {
            spec_read_array::<StringItem>(s, version, false)
        }
    }

    /// The tagged fields, read from the front of `s`.
    #[verifier::opaque]
    pub open spec fn spec_read_tags(s: Seq<u8>, version: i16) -> ReadOutcome<Seq<(u32, Seq<u8>)>> {
        if version >= 2 {
            spec_read_tagged_fields(s)
        } else {
            Ok((Seq::empty(), s))
        }
    }

    pub open spec fn spec_read(s: Seq<u8>, version: i16) -> ReadOutcome<DeleteGroupsRequestDataView> {
        if version < 0 || version > 2 {
            Err(Error::UnsupportedVersion(UnsupportedVersion { api_key: 42, version }))
        } else {
            match (Self::spec_read_groups_names(s, version)) {
                Err(e) => Err(e),
                Ok((groups_names, s)) => match (Self::spec_read_tags(s, version)) {
                    Err(e) => Err(e),
                    Ok((unknown_tagged_fields, s)) => Ok((DeleteGroupsRequestDataView {
                                groups_names: groups_names,
                                unknown_tagged_fields: unknown_tagged_fields,
                            }, s)),
                },
            }
        }
    }

    /// What writing the `groups_names` field of `m` appends.
    #[verifier::opaque]
    pub open spec fn spec_write_groups_names(m: DeleteGroupsRequestDataView, version: i16) -> WriteOutcome {
        if version >= 2 {
            spec_write_array::<CompactStringItem>(m.groups_names, version, true)
        } else {
            spec_write_array::<StringItem>(m.groups_names, version, false)
        }
    }

    /// What writing the tagged fields of `m` appends.
    #[verifier::opaque]
    pub open spec fn spec_write_tags(m: DeleteGroupsRequestDataView, version: i16) -> WriteOutcome {
        if version >= 2 {
            spec_write_tagged_fields(sorted_by_tag(m.unknown_tagged_fields))
        } else {
            emit(Seq::empty())
        }
    }

    pub open spec fn spec_write(m: DeleteGroupsRequestDataView, version: i16) -> WriteOutcome {
        if version < 0 || version > 2 {
            fail(Error::UnsupportedVersion(UnsupportedVersion { api_key: 42, version }))
        } else {
            chain(
                Self::spec_write_groups_names(m, version),
                Self::spec_write_tags(m, version),
            )
        }
    }

    /// Whether reading back what writing `m` in `version` appends gives `m`:
    /// fields that the version does not carry hold their default values, and
    /// tagged fields come in the order in which they are written.
    pub open spec fn canonical(m: DeleteGroupsRequestDataView, version: i16) -> bool {
        &&& (if version >= 2 {
                tags_in_order(m.unknown_tagged_fields)
            } else {
                m.unknown_tagged_fields.len() == 0
        })
    }

    proof fn lemma_round_trip_groups_names(m: DeleteGroupsRequestDataView, version: i16, rest: Seq<u8>)
        requires
            Self::canonical(m, version),
            Self::spec_write_groups_names(m, version) is Ok,
        ensures
            Self::spec_read_groups_names(written(Self::spec_write_groups_names(m, version)) + rest, version) == Ok::<(Seq<Seq<u8>>, Seq<u8>), Error>((m.groups_names, rest)),
    {
        reveal(DeleteGroupsRequestData::spec_read_groups_names);
        reveal(DeleteGroupsRequestData::spec_write_groups_names);
        if version >= 2 {
            lemma_array_round_trip::<CompactStringItem>(m.groups_names, version, true, rest);
        } else {
            lemma_array_round_trip::<StringItem>(m.groups_names, version, false, rest);
        }
    }

    proof fn lemma_round_trip_tags(m: DeleteGroupsRequestDataView, version: i16, rest: Seq<u8>)
        requires
            Self::canonical(m, version),
            Self::spec_write_tags(m, version) is Ok,
        ensures
            Self::spec_read_tags(written(Self::spec_write_tags(m, version)) + rest, version) == Ok::<(Seq<(u32, Seq<u8>)>, Seq<u8>), Error>((m.unknown_tagged_fields, rest)),
    {
        reveal(DeleteGroupsRequestData::spec_read_tags);
        reveal(DeleteGroupsRequestData::spec_write_tags);
        if version >= 2 {
            lemma_sorted_by_tag_in_order(m.unknown_tagged_fields);
            lemma_tagged_fields_round_trip(m.unknown_tagged_fields, rest);
        } else {
            assert(Seq::<u8>::empty() + rest =~= rest);
            assert(m.unknown_tagged_fields =~= Seq::empty());
        }
    }

    /// Reading back what writing `m` in `version` appends gives `m` again, and
    /// leaves what follows, for every canonical message whose write succeeds.
    #[verifier::rlimit(60)]
    #[verifier::spinoff_prover]
    pub proof fn lemma_round_trip(m: DeleteGroupsRequestDataView, version: i16, rest: Seq<u8>)
        requires
            Self::canonical(m, version),
            Self::spec_write(m, version) is Ok,
        ensures
            Self::spec_read(written(Self::spec_write(m, version)) + rest, version) == Ok::<(DeleteGroupsRequestDataView, Seq<u8>), Error>((m, rest)),
    {
        let b0 = written(Self::spec_write_groups_names(m, version));
        let b1 = written(Self::spec_write_tags(m, version));
        let t2 = rest;
        let t1 = b1 + t2;
        let t0 = b0 + t1;
        let w0 = Self::spec_write_groups_names(m, version);
        let w1 = chain(w0, Self::spec_write_tags(m, version));
        assert(Self::spec_write(m, version) == w1);
        assert(written(w1) + t2 =~= written(w0) + t1);
        Self::lemma_round_trip_groups_names(m, version, t1);
        Self::lemma_round_trip_tags(m, version, t2);
    }

    /// In a version that does not carry `unknown_tagged_fields`, writing ignores its value.
    pub proof fn lemma_write_ignores_unknown_tagged_fields(m: DeleteGroupsRequestDataView, value: Seq<(u32, Seq<u8>)>, version: i16)
        requires
            !(version >= 2),
        ensures
            Self::spec_write((DeleteGroupsRequestDataView { unknown_tagged_fields: value, ..m }), version) == Self::spec_write(m, version),
    {
        reveal(DeleteGroupsRequestData::spec_write_groups_names);
        reveal(DeleteGroupsRequestData::spec_write_tags);
    }

    /// The default message holds the default value of each field of the schema.
    pub proof fn lemma_default_values()
        ensures
            Self::default_view().groups_names.len() == 0,
            Self::default_view().unknown_tagged_fields.len() == 0,
    {
    }

    /// Whether writing `m` in `version` succeeds, said over its parts: the
    /// version is one the schema covers, every field that the version cannot
    /// carry holds its default value, and every string, byte string, array and
    /// tagged field fits its length prefix.
    pub open spec fn writable(m: DeleteGroupsRequestDataView, version: i16) -> bool {
        &&& 0 <= version <= 2
        &&& (if version >= 2 {
                (m.groups_names.len() <= i32::MAX && all_writable::<CompactStringItem>(m.groups_names, version))
            } else {
                (m.groups_names.len() <= i32::MAX && all_writable::<StringItem>(m.groups_names, version))
        })
        &&& (if version >= 2 {
                m.unknown_tagged_fields.len() <= u32::MAX && tags_fit(m.unknown_tagged_fields)
            } else {
                true
        })
    }

    proof fn lemma_writable_groups_names(m: DeleteGroupsRequestDataView, version: i16)
        ensures
            Self::spec_write_groups_names(m, version) is Ok <==> (if version >= 2 { (m.groups_names.len() <= i32::MAX && all_writable::<CompactStringItem>(m.groups_names, version)) } else { (m.groups_names.len() <= i32::MAX && all_writable::<StringItem>(m.groups_names, version)) }),
    {
        reveal(DeleteGroupsRequestData::spec_write_groups_names);
        if version >= 2 {
            lemma_array_writable::<CompactStringItem>(m.groups_names, version, true);
        } else {
            lemma_array_writable::<StringItem>(m.groups_names, version, false);
        }
    }

    proof fn lemma_writable_tags(m: DeleteGroupsRequestDataView, version: i16)
        ensures
            Self::spec_write_tags(m, version) is Ok <==> (if version >= 2 { m.unknown_tagged_fields.len() <= u32::MAX && tags_fit(m.unknown_tagged_fields) } else { true }),
    {
        reveal(DeleteGroupsRequestData::spec_write_tags);
        if version >= 2 {
            lemma_sorted_tags_fit(m.unknown_tagged_fields);
            lemma_tagged_fields_writable(sorted_by_tag(m.unknown_tagged_fields));
        }
    }

    /// Writing `m` in `version` succeeds exactly when `m` is writable in it;
    /// so do `write` and `encoded_len`, whose results follow `spec_write`.
    #[verifier::rlimit(42)]
    pub proof fn lemma_writable(m: DeleteGroupsRequestDataView, version: i16)
        ensures
            Self::spec_write(m, version) is Ok <==> Self::writable(m, version),
    {
        Self::lemma_writable_groups_names(m, version);
        Self::lemma_writable_tags(m, version);
    }

    /// A version outside the range that the schema covers is refused, by
    /// reads and by writes alike, before anything is read or written.
    pub proof fn lemma_refused_version(m: DeleteGroupsRequestDataView, s: Seq<u8>, version: i16)
        requires
            version < 0 || version > 2,
        ensures
            Self::spec_read(s, version) == Err::<(DeleteGroupsRequestDataView, Seq<u8>), Error>(Error::UnsupportedVersion(UnsupportedVersion { api_key: 42, version })),
            Self::spec_write(m, version) == fail(Error::UnsupportedVersion(UnsupportedVersion { api_key: 42, version })),
    {
    }

    pub fn with_groups_names(self, value: Vec<KafkaString>) -> (r: Self)
        ensures
            r@ == (DeleteGroupsRequestDataView { groups_names: views(value@), ..self@ }),
    {
        let mut r = self;
        r.groups_names = value;
        r
    }

    fn read_groups_names(buf: &mut Bytes, version: i16) -> (r: Result<Vec<KafkaString>, Error>)
        ensures
            read_vec_as(Self::spec_read_groups_names(bytes_seq(*old(buf)), version), *final(buf), r),
            took_front(*old(buf), *final(buf)),
    {
        proof {
            reveal(DeleteGroupsRequestData::spec_read_groups_names);
        }
        Ok(if version >= 2 {
                read_array::<CompactStringItem>(buf, version, true)?
            } else {
                read_array::<StringItem>(buf, version, false)?
        })
    }

    fn read_tags(buf: &mut Bytes, version: i16) -> (r: Result<Vec<RawTaggedField>, Error>)
        ensures
            read_vec_as(Self::spec_read_tags(bytes_seq(*old(buf)), version), *final(buf), r),
            took_front(*old(buf), *final(buf)),
    {
        proof {
            reveal(DeleteGroupsRequestData::spec_read_tags);
        }
        Ok(if version >= 2 {
                read_tagged_fields(buf)?
            } else {
                empty_vec()
        })
    }

    pub fn read(buf: &mut Bytes, version: i16) -> (r: Result<Self, Error>)
        ensures
            read_as(Self::spec_read(bytes_seq(*old(buf)), version), *final(buf), r),
            took_front(*old(buf), *final(buf)),
            (version < 0 || version > 2) ==> bytes_seq(*final(buf)) == bytes_seq(*old(buf)),
    {
        if version < 0 || version > 2 {
            return Err(Error::UnsupportedVersion(UnsupportedVersion::new(42, version)));
        }
        let groups_names = Self::read_groups_names(buf, version)?;
        let _unknown_tagged_fields = Self::read_tags(buf, version)?;
        Ok(DeleteGroupsRequestData {
                groups_names: groups_names,
                _unknown_tagged_fields: _unknown_tagged_fields,
        })
    }

    #[verifier::rlimit(50)]
    pub fn write(&self, buf: &mut BytesMut, version: i16) -> (r: Result<(), Error>)
        requires
            has_room(Self::spec_write(self@, version), *old(buf)),
        ensures
            wrote(Self::spec_write(self@, version), *old(buf), *final(buf), r),
    {
        if version < 0 || version > 2 {
            return Err(Error::UnsupportedVersion(UnsupportedVersion::new(42, version)));
        }
        let ghost m = self@;
        proof {
            reveal(DeleteGroupsRequestData::spec_write_groups_names);
            reveal(DeleteGroupsRequestData::spec_write_tags);
        }
        let ghost s0 = Self::spec_write_groups_names(m, version);
        let ghost w0 = s0;
        let ghost s1 = Self::spec_write_tags(m, version);
        let ghost w1 = chain(w0, s1);
        assert(Self::spec_write(m, version) == w1);
        assert(written(w0).len() <= written(w1).len() && (w0 is Err ==> w1 == w0));
        let ghost mid = bytes_mut_seq(*buf);
        proof {
            lemma_append_empty(mid);
        }
        let r0 = if version >= 2 {
            write_array::<CompactStringItem>(buf, &self.groups_names, version, true)
        } else {
            write_array::<StringItem>(buf, &self.groups_names, version, false)
        };
        assert(bytes_mut_seq(*buf) == mid + written(s0));
        if r0.is_err() {
            return r0;
        }
        let ghost mid = bytes_mut_seq(*buf);
        proof {
            lemma_append_empty(mid);
        }
        let r1 = if version >= 2 {
            write_tagged_fields(buf, &sort_by_tag(&self._unknown_tagged_fields))
        } else {
            Ok(())
        };
        assert(bytes_mut_seq(*buf) == mid + written(s1));
        proof {
            lemma_step(bytes_mut_seq(*old(buf)), w0, s1);
        }
        if r1.is_err() {
            return r1;
        }
        Ok(())
    }

    #[verifier::rlimit(50)]
    pub fn encoded_len(&self, version: i16) -> (r: Result<usize, Error>)
        ensures
            r == len_result(Self::spec_write(self@, version)),
    {
        if version < 0 || version > 2 {
            return Err(Error::UnsupportedVersion(UnsupportedVersion::new(42, version)));
        }
        let ghost m = self@;
        proof {
            reveal(DeleteGroupsRequestData::spec_write_groups_names);
            reveal(DeleteGroupsRequestData::spec_write_tags);
        }
        let ghost s0 = Self::spec_write_groups_names(m, version);
        let ghost w0 = s0;
        let ghost s1 = Self::spec_write_tags(m, version);
        let ghost w1 = chain(w0, s1);
        assert(Self::spec_write(m, version) == w1);
        assert(w0 is Err ==> w1 == w0);
        let mut len: usize = 0;
        let l0 = if version >= 2 {
            array_len::<CompactStringItem>(&self.groups_names, version, true)
        } else {
            array_len::<StringItem>(&self.groups_names, version, false)
        };
        assert(l0 == len_result(s0));
        let n0 = match l0 {
            Ok(n) => n,
            Err(e) => {
                return Err(e);
            },
        };
        len = saturating_sum(len, n0);
        assert(w0 is Ok && len == saturate(written(w0).len() as int));
        let l1 = if version >= 2 {
            tagged_fields_len(&sort_by_tag(&self._unknown_tagged_fields))
        } else {
            Ok(0)
        };
        assert(l1 == len_result(s1));
        let n1 = match l1 {
            Ok(n) => n,
            Err(e) => {
                return Err(e);
            },
        };
        proof {
            lemma_len_step(w0, s1, n1);
        }
        len = saturating_sum(len, n1);
        assert(w1 is Ok && len == saturate(written(w1).len() as int));
        Ok(len)
    }
}

} // verus!
