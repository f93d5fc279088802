//! The list groups request message.
use crate::buffer::{bytes_mut_seq, bytes_seq};
use crate::codec::{CompactStringItem, all_writable, array_len, lemma_array_round_trip, lemma_array_writable, read_array, saturating_sum, spec_read_array, spec_write_array, write_array};
use crate::error::{Error, UnsupportedFieldVersion, UnsupportedVersion};
use crate::tagged::{lemma_sorted_by_tag_in_order, lemma_sorted_tags_fit, lemma_tagged_fields_round_trip, lemma_tagged_fields_writable, read_tagged_fields, sort_by_tag, sorted_by_tag, spec_read_tagged_fields, spec_write_tagged_fields, tagged_fields_len, tags_fit, tags_in_order, write_tagged_fields};
use crate::types::{KafkaString, RawTaggedField};
use crate::wire::{ReadOutcome, ViewClone, WriteOutcome, chain, clone_vec, emit, empty_vec, fail, has_room, lemma_append_empty, lemma_chain_written, lemma_len_step, lemma_step, len_result, read_as, read_vec_as, saturate, took_front, views, written, wrote};
use bytes::{Bytes, BytesMut};
use vstd::prelude::*;

verus! {

broadcast use {crate::wire::lemma_chain_written, crate::wire::lemma_took_front_nothing, crate::wire::lemma_took_front_twice};

#[derive(Debug, PartialEq)]
pub struct ListGroupsRequestData {
    /// The states of the groups we want to list. If empty, all groups are returned with their
    /// state.
    pub states_filter: Vec<KafkaString>,
    /// The types of the groups we want to list. If empty, all groups are returned with their type.
    pub types_filter: Vec<KafkaString>,
    pub _unknown_tagged_fields: Vec<RawTaggedField>,
}

/// What a `ListGroupsRequestData` holds, as the specification sees it.
#[verifier::ext_equal]
pub struct ListGroupsRequestDataView {
    pub states_filter: Seq<Seq<u8>>,
    pub types_filter: Seq<Seq<u8>>,
    pub unknown_tagged_fields: Seq<(u32, Seq<u8>)>,
}

impl View for ListGroupsRequestData {
    type V = ListGroupsRequestDataView;

    open spec fn view(&self) -> ListGroupsRequestDataView {
        ListGroupsRequestDataView {
            states_filter: views(self.states_filter@),
            types_filter: views(self.types_filter@),
            unknown_tagged_fields: views(self._unknown_tagged_fields@),
        }
    }
}

impl Clone for ListGroupsRequestData {
    fn clone(&self) -> (r: Self)
        ensures
            r@ == self@,
    {
        let r = ListGroupsRequestData {
            states_filter: clone_vec(&self.states_filter),
            types_filter: clone_vec(&self.types_filter),
            _unknown_tagged_fields: clone_vec(&self._unknown_tagged_fields),
        };
        assert(r@ =~= self@);
        r
    }
}

impl ViewClone for ListGroupsRequestData {
    fn clone_view(&self) -> (r: Self) {
        self.clone()
    }
}

impl Default for ListGroupsRequestData {
    fn default() -> (r: Self)
        ensures
            r@ == Self::default_view(),
    {
        let r = ListGroupsRequestData {
            states_filter: empty_vec(),
            types_filter: empty_vec(),
            _unknown_tagged_fields: empty_vec(),
        };
        assert(r@ =~= Self::default_view());
        r
    }
}

impl ListGroupsRequestData {
    pub open spec fn default_view() -> ListGroupsRequestDataView {
        ListGroupsRequestDataView {
            states_filter: Seq::empty(),
            types_filter: Seq::empty(),
            unknown_tagged_fields: Seq::empty(),
        }
    }

    /// The `states_filter` field, read from the front of `s`.
    #[verifier::opaque]
    pub open spec fn spec_read_states_filter(s: Seq<u8>, version: i16) -> ReadOutcome<Seq<Seq<u8>>> {
        if version >= 4 {
            spec_read_array::<CompactStringItem>(s, version, true)
        } else {
            Ok((Seq::empty(), s))
        }
    }

    /// The `types_filter` field, read from the front of `s`.
    #[verifier::opaque]
    pub open spec fn spec_read_types_filter(s: Seq<u8>, version: i16) -> ReadOutcome<Seq<Seq<u8>>> {
        if version >= 5 {
            spec_read_array::<CompactStringItem>(s, version, true)
        } else {
            Ok((Seq::empty(), s))
        }
    }

    /// The tagged fields, read from the front of `s`.
    #[verifier::opaque]
    pub open spec fn spec_read_tags(s: Seq<u8>, version: i16) -> ReadOutcome<Seq<(u32, Seq<u8>)>> {
        if version >= 3 {
            spec_read_tagged_fields(s)
        } else {
            Ok((Seq::empty(), s))
        }
    }

    pub open spec fn spec_read(s: Seq<u8>, version: i16) -> ReadOutcome<ListGroupsRequestDataView> {
        if version < 0 || version > 5 {
            Err(Error::UnsupportedVersion(UnsupportedVersion { api_key: 16, version }))
        } else {
            match (Self::spec_read_states_filter(s, version)) {
                Err(e) => Err(e),
                Ok((states_filter, s)) => match (Self::spec_read_types_filter(s, version)) {
                    Err(e) => Err(e),
                    Ok((types_filter, s)) => match (Self::spec_read_tags(s, version)) {
                        Err(e) => Err(e),
                        Ok((unknown_tagged_fields, s)) => Ok((ListGroupsRequestDataView {
                                    states_filter: states_filter,
                                    types_filter: types_filter,
                                    unknown_tagged_fields: unknown_tagged_fields,
                                }, s)),
                    },
                },
            }
        }
    }

    /// What writing the `states_filter` field of `m` appends.
    #[verifier::opaque]
    pub open spec fn spec_write_states_filter(m: ListGroupsRequestDataView, version: i16) -> WriteOutcome {
        if version >= 4 {
            spec_write_array::<CompactStringItem>(m.states_filter, version, true)
        } else {
            if m.states_filter.len() != 0 {
                fail(Error::UnsupportedFieldVersion(UnsupportedFieldVersion { api_key: 16, field: "states_filter", version }))
            } else {
                emit(Seq::empty())
            }
        }
    }

    /// What writing the `types_filter` field of `m` appends.
    #[verifier::opaque]
    pub open spec fn spec_write_types_filter(m: ListGroupsRequestDataView, version: i16) -> WriteOutcome {
        if version >= 5 {
            spec_write_array::<CompactStringItem>(m.types_filter, version, true)
        } else {
            if m.types_filter.len() != 0 {
                fail(Error::UnsupportedFieldVersion(UnsupportedFieldVersion { api_key: 16, field: "types_filter", version }))
            } else {
                emit(Seq::empty())
            }
        }
    }

    /// What writing the tagged fields of `m` appends.
    #[verifier::opaque]
    pub open spec fn spec_write_tags(m: ListGroupsRequestDataView, version: i16) -> WriteOutcome {
        if version >= 3 {
            spec_write_tagged_fields(sorted_by_tag(m.unknown_tagged_fields))
        } else {
            emit(Seq::empty())
        }
    }

    pub open spec fn spec_write(m: ListGroupsRequestDataView, version: i16) -> WriteOutcome {
        if version < 0 || version > 5 {
            fail(Error::UnsupportedVersion(UnsupportedVersion { api_key: 16, version }))
        } else {
            chain(
                chain(
                    Self::spec_write_states_filter(m, version),
                    Self::spec_write_types_filter(m, version),
                ),
                Self::spec_write_tags(m, version),
            )
        }
    }

    /// Whether reading back what writing `m` in `version` appends gives `m`:
    /// fields that the version does not carry hold their default values, and
    /// tagged fields come in the order in which they are written.
    pub open spec fn canonical(m: ListGroupsRequestDataView, version: i16) -> bool {
        &&& (if version >= 3 {
                tags_in_order(m.unknown_tagged_fields)
            } else {
                m.unknown_tagged_fields.len() == 0
        })
    }

    proof fn lemma_round_trip_states_filter(m: ListGroupsRequestDataView, version: i16, rest: Seq<u8>)
        requires
            Self::canonical(m, version),
            Self::spec_write_states_filter(m, version) is Ok,
        ensures
            Self::spec_read_states_filter(written(Self::spec_write_states_filter(m, version)) + rest, version) == Ok::<(Seq<Seq<u8>>, Seq<u8>), Error>((m.states_filter, rest)),
    {
        reveal(ListGroupsRequestData::spec_read_states_filter);
        reveal(ListGroupsRequestData::spec_write_states_filter);
        if version >= 4 {
            lemma_array_round_trip::<CompactStringItem>(m.states_filter, version, true, rest);
        } else {
            assert(Seq::<u8>::empty() + rest =~= rest);
            assert(m.states_filter =~= Seq::empty());
            assert(m.states_filter =~= Seq::empty());
        }
    }

    proof fn lemma_round_trip_types_filter(m: ListGroupsRequestDataView, version: i16, rest: Seq<u8>)
        requires
            Self::canonical(m, version),
            Self::spec_write_types_filter(m, version) is Ok,
        ensures
            Self::spec_read_types_filter(written(Self::spec_write_types_filter(m, version)) + rest, version) == Ok::<(Seq<Seq<u8>>, Seq<u8>), Error>((m.types_filter, rest)),
    {
        reveal(ListGroupsRequestData::spec_read_types_filter);
        reveal(ListGroupsRequestData::spec_write_types_filter);
        if version >= 5 {
            lemma_array_round_trip::<CompactStringItem>(m.types_filter, version, true, rest);
        } else {
            assert(Seq::<u8>::empty() + rest =~= rest);
            assert(m.types_filter =~= Seq::empty());
            assert(m.types_filter =~= Seq::empty());
        }
    }

    proof fn lemma_round_trip_tags(m: ListGroupsRequestDataView, version: i16, rest: Seq<u8>)
        requires
            Self::canonical(m, version),
            Self::spec_write_tags(m, version) is Ok,
        ensures
            Self::spec_read_tags(written(Self::spec_write_tags(m, version)) + rest, version) == Ok::<(Seq<(u32, Seq<u8>)>, Seq<u8>), Error>((m.unknown_tagged_fields, rest)),
    {
        reveal(ListGroupsRequestData::spec_read_tags);
        reveal(ListGroupsRequestData::spec_write_tags);
        if version >= 3 {
            lemma_sorted_by_tag_in_order(m.unknown_tagged_fields);
            lemma_tagged_fields_round_trip(m.unknown_tagged_fields, rest);
        } else {
            assert(Seq::<u8>::empty() + rest =~= rest);
            assert(m.unknown_tagged_fields =~= Seq::empty());
        }
    }

    /// Reading back what writing `m` in `version` appends gives `m` again, and
    /// leaves what follows, for every canonical message whose write succeeds.
    #[verifier::rlimit(70)]
    #[verifier::spinoff_prover]
    pub proof fn lemma_round_trip(m: ListGroupsRequestDataView, version: i16, rest: Seq<u8>)
        requires
            Self::canonical(m, version),
            Self::spec_write(m, version) is Ok,
        ensures
            Self::spec_read(written(Self::spec_write(m, version)) + rest, version) == Ok::<(ListGroupsRequestDataView, Seq<u8>), Error>((m, rest)),
    {
        let b0 = written(Self::spec_write_states_filter(m, version));
        let b1 = written(Self::spec_write_types_filter(m, version));
        let b2 = written(Self::spec_write_tags(m, version));
        let t3 = rest;
        let t2 = b2 + t3;
        let t1 = b1 + t2;
        let t0 = b0 + t1;
        let w0 = Self::spec_write_states_filter(m, version);
        let w1 = chain(w0, Self::spec_write_types_filter(m, version));
        let w2 = chain(w1, Self::spec_write_tags(m, version));
        assert(Self::spec_write(m, version) == w2);
        assert(written(w2) + t3 =~= written(w1) + t2);
        assert(written(w1) + t2 =~= written(w0) + t1);
        Self::lemma_round_trip_states_filter(m, version, t1);
        Self::lemma_round_trip_types_filter(m, version, t2);
        Self::lemma_round_trip_tags(m, version, t3);
    }

    /// In a version that does not carry `unknown_tagged_fields`, writing ignores its value.
    pub proof fn lemma_write_ignores_unknown_tagged_fields(m: ListGroupsRequestDataView, value: Seq<(u32, Seq<u8>)>, version: i16)
        requires
            !(version >= 3),
        ensures
            Self::spec_write((ListGroupsRequestDataView { unknown_tagged_fields: value, ..m }), version) == Self::spec_write(m, version),
    {
        reveal(ListGroupsRequestData::spec_write_states_filter);
        reveal(ListGroupsRequestData::spec_write_types_filter);
        reveal(ListGroupsRequestData::spec_write_tags);
    }

    /// The default message holds the default value of each field of the schema.
    pub proof fn lemma_default_values()
        ensures
            Self::default_view().states_filter.len() == 0,
            Self::default_view().types_filter.len() == 0,
            Self::default_view().unknown_tagged_fields.len() == 0,
    {
    }

    /// Whether writing `m` in `version` succeeds, said over its parts: the
    /// version is one the schema covers, every field that the version cannot
    /// carry holds its default value, and every string, byte string, array and
    /// tagged field fits its length prefix.
    pub open spec fn writable(m: ListGroupsRequestDataView, version: i16) -> bool {
        &&& 0 <= version <= 5
        &&& (if version >= 4 {
                (m.states_filter.len() <= i32::MAX && all_writable::<CompactStringItem>(m.states_filter, version))
            } else {
                !(m.states_filter.len() != 0)
        })
        &&& (if version >= 5 {
                (m.types_filter.len() <= i32::MAX && all_writable::<CompactStringItem>(m.types_filter, version))
            } else {
                !(m.types_filter.len() != 0)
        })
        &&& (if version >= 3 {
                m.unknown_tagged_fields.len() <= u32::MAX && tags_fit(m.unknown_tagged_fields)
            } else {
                true
        })
    }

    proof fn lemma_writable_states_filter(m: ListGroupsRequestDataView, version: i16)
        ensures
            Self::spec_write_states_filter(m, version) is Ok <==> (if version >= 4 { (m.states_filter.len() <= i32::MAX && all_writable::<CompactStringItem>(m.states_filter, version)) } else { !(m.states_filter.len() != 0) }),
    {
        reveal(ListGroupsRequestData::spec_write_states_filter);
        if version >= 4 {
            lemma_array_writable::<CompactStringItem>(m.states_filter, version, true);
        } else {
        }
    }

    proof fn lemma_writable_types_filter(m: ListGroupsRequestDataView, version: i16)
        ensures
            Self::spec_write_types_filter(m, version) is Ok <==> (if version >= 5 { (m.types_filter.len() <= i32::MAX && all_writable::<CompactStringItem>(m.types_filter, version)) } else { !(m.types_filter.len() != 0) }),
    {
        reveal(ListGroupsRequestData::spec_write_types_filter);
        if version >= 5 {
            lemma_array_writable::<CompactStringItem>(m.types_filter, version, true);
        } else {
        }
    }

    proof fn lemma_writable_tags(m: ListGroupsRequestDataView, version: i16)
        ensures
            Self::spec_write_tags(m, version) is Ok <==> (if version >= 3 { m.unknown_tagged_fields.len() <= u32::MAX && tags_fit(m.unknown_tagged_fields) } else { true }),
    {
        reveal(ListGroupsRequestData::spec_write_tags);
        if version >= 3 {
            lemma_sorted_tags_fit(m.unknown_tagged_fields);
            lemma_tagged_fields_writable(sorted_by_tag(m.unknown_tagged_fields));
        }
    }

    /// Writing `m` in `version` succeeds exactly when `m` is writable in it;
    /// so do `write` and `encoded_len`, whose results follow `spec_write`.
    #[verifier::rlimit(48)]
    pub proof fn lemma_writable(m: ListGroupsRequestDataView, version: i16)
        ensures
            Self::spec_write(m, version) is Ok <==> Self::writable(m, version),
    {
        Self::lemma_writable_states_filter(m, version);
        Self::lemma_writable_types_filter(m, version);
        Self::lemma_writable_tags(m, version);
    }

    /// A version outside the range that the schema covers is refused, by
    /// reads and by writes alike, before anything is read or written.
    pub proof fn lemma_refused_version(m: ListGroupsRequestDataView, s: Seq<u8>, version: i16)
        requires
            version < 0 || version > 5,
        ensures
            Self::spec_read(s, version) == Err::<(ListGroupsRequestDataView, Seq<u8>), Error>(Error::UnsupportedVersion(UnsupportedVersion { api_key: 16, version })),
            Self::spec_write(m, version) == fail(Error::UnsupportedVersion(UnsupportedVersion { api_key: 16, version })),
    {
    }

    pub fn with_states_filter(self, value: Vec<KafkaString>) -> (r: Self)
        ensures
            r@ == (ListGroupsRequestDataView { states_filter: views(value@), ..self@ }),
    {
        let mut r = self;
        r.states_filter = value;
        r
    }

    pub fn with_types_filter(self, value: Vec<KafkaString>) -> (r: Self)
        ensures
            r@ == (ListGroupsRequestDataView { types_filter: views(value@), ..self@ }),
    {
        let mut r = self;
        r.types_filter = value;
        r
    }

    fn read_states_filter(buf: &mut Bytes, version: i16) -> (r: Result<Vec<KafkaString>, Error>)
        ensures
            read_vec_as(Self::spec_read_states_filter(bytes_seq(*old(buf)), version), *final(buf), r),
            took_front(*old(buf), *final(buf)),
    {
        proof {
            reveal(ListGroupsRequestData::spec_read_states_filter);
        }
        Ok(if version >= 4 {
                read_array::<CompactStringItem>(buf, version, true)?
            } else {
                empty_vec()
        })
    }

    fn read_types_filter(buf: &mut Bytes, version: i16) -> (r: Result<Vec<KafkaString>, Error>)
        ensures
            read_vec_as(Self::spec_read_types_filter(bytes_seq(*old(buf)), version), *final(buf), r),
            took_front(*old(buf), *final(buf)),
    {
        proof {
            reveal(ListGroupsRequestData::spec_read_types_filter);
        }
        Ok(if version >= 5 {
                read_array::<CompactStringItem>(buf, version, true)?
            } else {
                empty_vec()
        })
    }

    fn read_tags(buf: &mut Bytes, version: i16) -> (r: Result<Vec<RawTaggedField>, Error>)
        ensures
            read_vec_as(Self::spec_read_tags(bytes_seq(*old(buf)), version), *final(buf), r),
            took_front(*old(buf), *final(buf)),
    {
        proof {
            reveal(ListGroupsRequestData::spec_read_tags);
        }
        Ok(if version >= 3 {
                read_tagged_fields(buf)?
            } else {
                empty_vec()
        })
    }

    pub fn read(buf: &mut Bytes, version: i16) -> (r: Result<Self, Error>)
        ensures
            read_as(Self::spec_read(bytes_seq(*old(buf)), version), *final(buf), r),
            took_front(*old(buf), *final(buf)),
            (version < 0 || version > 5) ==> bytes_seq(*final(buf)) == bytes_seq(*old(buf)),
    {
        if version < 0 || version > 5 {
            return Err(Error::UnsupportedVersion(UnsupportedVersion::new(16, version)));
        }
        let states_filter = Self::read_states_filter(buf, version)?;
        let types_filter = Self::read_types_filter(buf, version)?;
        let _unknown_tagged_fields = Self::read_tags(buf, version)?;
        Ok(ListGroupsRequestData {
                states_filter: states_filter,
                types_filter: types_filter,
                _unknown_tagged_fields: _unknown_tagged_fields,
        })
    }

    #[verifier::rlimit(60)]
    pub fn write(&self, buf: &mut BytesMut, version: i16) -> (r: Result<(), Error>)
        requires
            has_room(Self::spec_write(self@, version), *old(buf)),
        ensures
            wrote(Self::spec_write(self@, version), *old(buf), *final(buf), r),
    {
        if version < 0 || version > 5 {
            return Err(Error::UnsupportedVersion(UnsupportedVersion::new(16, version)));
        }
        let ghost m = self@;
        proof {
            reveal(ListGroupsRequestData::spec_write_states_filter);
            reveal(ListGroupsRequestData::spec_write_types_filter);
            reveal(ListGroupsRequestData::spec_write_tags);
        }
        let ghost s0 = Self::spec_write_states_filter(m, version);
        let ghost w0 = s0;
        let ghost s1 = Self::spec_write_types_filter(m, version);
        let ghost w1 = chain(w0, s1);
        let ghost s2 = Self::spec_write_tags(m, version);
        let ghost w2 = chain(w1, s2);
        assert(Self::spec_write(m, version) == w2);
        assert(written(w1).len() <= written(w2).len() && (w1 is Err ==> w2 == w1));
        assert(written(w0).len() <= written(w2).len() && (w0 is Err ==> w2 == w0));
        let ghost mid = bytes_mut_seq(*buf);
        proof {
            lemma_append_empty(mid);
        }
        let r0 = if version >= 4 {
            write_array::<CompactStringItem>(buf, &self.states_filter, version, true)
        } else {
            if self.states_filter.len() != 0 {
                Err(Error::UnsupportedFieldVersion(UnsupportedFieldVersion::new(16, "states_filter", version)))
            } else {
                Ok(())
            }
        };
        assert(bytes_mut_seq(*buf) == mid + written(s0));
        if r0.is_err() {
            return r0;
        }
        let ghost mid = bytes_mut_seq(*buf);
        proof {
            lemma_append_empty(mid);
        }
        let r1 = if version >= 5 {
            write_array::<CompactStringItem>(buf, &self.types_filter, version, true)
        } else {
            if self.types_filter.len() != 0 {
                Err(Error::UnsupportedFieldVersion(UnsupportedFieldVersion::new(16, "types_filter", version)))
            } else {
                Ok(())
            }
        };
        assert(bytes_mut_seq(*buf) == mid + written(s1));
        proof {
            lemma_step(bytes_mut_seq(*old(buf)), w0, s1);
        }
        if r1.is_err() {
            return r1;
        }
        let ghost mid = bytes_mut_seq(*buf);
        proof {
            lemma_append_empty(mid);
        }
        let r2 = if version >= 3 {
            write_tagged_fields(buf, &sort_by_tag(&self._unknown_tagged_fields))
        } else {
            Ok(())
        };
        assert(bytes_mut_seq(*buf) == mid + written(s2));
        proof {
            lemma_step(bytes_mut_seq(*old(buf)), w1, s2);
        }
        if r2.is_err() {
            return r2;
        }
        Ok(())
    }

    #[verifier::rlimit(60)]
    pub fn encoded_len(&self, version: i16) -> (r: Result<usize, Error>)
        ensures
            r == len_result(Self::spec_write(self@, version)),
    {
        if version < 0 || version > 5 {
            return Err(Error::UnsupportedVersion(UnsupportedVersion::new(16, version)));
        }
        let ghost m = self@;
        proof {
            reveal(ListGroupsRequestData::spec_write_states_filter);
            reveal(ListGroupsRequestData::spec_write_types_filter);
            reveal(ListGroupsRequestData::spec_write_tags);
        }
        let ghost s0 = Self::spec_write_states_filter(m, version);
        let ghost w0 = s0;
        let ghost s1 = Self::spec_write_types_filter(m, version);
        let ghost w1 = chain(w0, s1);
        let ghost s2 = Self::spec_write_tags(m, version);
        let ghost w2 = chain(w1, s2);
        assert(Self::spec_write(m, version) == w2);
        assert(w1 is Err ==> w2 == w1);
        assert(w0 is Err ==> w2 == w0);
        let mut len: usize = 0;
        let l0 = if version >= 4 {
            array_len::<CompactStringItem>(&self.states_filter, version, true)
        } else {
            if self.states_filter.len() != 0 {
                Err(Error::UnsupportedFieldVersion(UnsupportedFieldVersion::new(16, "states_filter", version)))
            } else {
                Ok(0)
            }
        };
        assert(l0 == len_result(s0));
        let n0 = match l0 {
            Ok(n) => n,
            Err(e) => {
                return Err(e);
            },
        };
        len = saturating_sum(len, n0);
        assert(w0 is Ok && len == saturate(written(w0).len() as int));
        let l1 = if version >= 5 {
            array_len::<CompactStringItem>(&self.types_filter, version, true)
        } else {
            if self.types_filter.len() != 0 {
                Err(Error::UnsupportedFieldVersion(UnsupportedFieldVersion::new(16, "types_filter", version)))
            } else {
                Ok(0)
            }
        };
        assert(l1 == len_result(s1));
        let n1 = match l1 {
            Ok(n) => n,
            Err(e) => {
                return Err(e);
            },
        };
        proof {
            lemma_len_step(w0, s1, n1);
        }
        len = saturating_sum(len, n1);
        assert(w1 is Ok && len == saturate(written(w1).len() as int));
        let l2 = if version >= 3 {
            tagged_fields_len(&sort_by_tag(&self._unknown_tagged_fields))
        } else {
            Ok(0)
        };
        assert(l2 == len_result(s2));
        let n2 = match l2 {
            Ok(n) => n,
            Err(e) => {
                return Err(e);
            },
        };
        proof {
            lemma_len_step(w1, s2, n2);
        }
        len = saturating_sum(len, n2);
        assert(w2 is Ok && len == saturate(written(w2).len() as int));
        Ok(len)
    }
}

} // verus!
