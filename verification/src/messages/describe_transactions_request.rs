//! The describe transactions request message.
use crate::buffer::{bytes_mut_seq, bytes_seq};
use crate::codec::{CompactStringItem, all_writable, array_len, lemma_array_round_trip, lemma_array_writable, read_array, saturating_sum, spec_read_array, spec_write_array, write_array};
use crate::error::{Error, UnsupportedVersion};
use crate::tagged::{lemma_sorted_by_tag_in_order, lemma_sorted_tags_fit, lemma_tagged_fields_round_trip, lemma_tagged_fields_writable, read_tagged_fields, sort_by_tag, sorted_by_tag, spec_read_tagged_fields, spec_write_tagged_fields, tagged_fields_len, tags_fit, tags_in_order, write_tagged_fields};
use crate::types::{KafkaString, RawTaggedField};
use crate::wire::{ReadOutcome, ViewClone, WriteOutcome, chain, clone_vec, empty_vec, fail, has_room, lemma_append_empty, lemma_chain_written, lemma_len_step, lemma_step, len_result, read_as, read_vec_as, saturate, took_front, views, written, wrote};
use bytes::{Bytes, BytesMut};
use vstd::prelude::*;

verus! {

broadcast use {crate::wire::lemma_chain_written, crate::wire::lemma_took_front_nothing, crate::wire::lemma_took_front_twice};

#[derive(Debug, PartialEq)]
pub struct DescribeTransactionsRequestData {
    /// Array of transactionalIds to include in describe results. If empty, then no results will be
    /// returned.
    pub transactional_ids: Vec<KafkaString>,
    pub _unknown_tagged_fields: Vec<RawTaggedField>,
}

/// What a `DescribeTransactionsRequestData` holds, as the specification sees it.
#[verifier::ext_equal]
pub struct DescribeTransactionsRequestDataView {
    pub transactional_ids: Seq<Seq<u8>>,
    pub unknown_tagged_fields: Seq<(u32, Seq<u8>)>,
}

impl View for DescribeTransactionsRequestData {
    type V = DescribeTransactionsRequestDataView;

    open spec fn view(&self) -> DescribeTransactionsRequestDataView {
        DescribeTransactionsRequestDataView {
            transactional_ids: views(self.transactional_ids@),
            unknown_tagged_fields: views(self._unknown_tagged_fields@),
        }
    }
}

impl Clone for DescribeTransactionsRequestData {
    fn clone(&self) -> (r: Self)
        ensures
            r@ == self@,
    {
        let r = DescribeTransactionsRequestData {
            transactional_ids: clone_vec(&self.transactional_ids),
            _unknown_tagged_fields: clone_vec(&self._unknown_tagged_fields),
        };
        assert(r@ =~= self@);
        r
    }
}

impl ViewClone for DescribeTransactionsRequestData {
    fn clone_view(&self) -> (r: Self) {
        self.clone()
    }
}

impl Default for DescribeTransactionsRequestData {
    fn default() -> (r: Self)
        ensures
            r@ == Self::default_view(),
    {
        let r = DescribeTransactionsRequestData {
            transactional_ids: empty_vec(),
            _unknown_tagged_fields: empty_vec(),
        };
        assert(r@ =~= Self::default_view());
        r
    }
}

impl DescribeTransactionsRequestData {
    pub open spec fn default_view() -> DescribeTransactionsRequestDataView {
        DescribeTransactionsRequestDataView {
            transactional_ids: Seq::empty(),
            unknown_tagged_fields: Seq::empty(),
        }
    }

    /// The `transactional_ids` field, read from the front of `s`.
    #[verifier::opaque]
    pub open spec fn spec_read_transactional_ids(s: Seq<u8>, version: i16) -> ReadOutcome<Seq<Seq<u8>>> {
        spec_read_array::<CompactStringItem>(s, version, true)
    }

    /// The tagged fields, read from the front of `s`.
    #[verifier::opaque]
    pub open spec fn spec_read_tags(s: Seq<u8>, version: i16) -> ReadOutcome<Seq<(u32, Seq<u8>)>> {
        spec_read_tagged_fields(s)
    }

    pub open spec fn spec_read(s: Seq<u8>, version: i16) -> ReadOutcome<DescribeTransactionsRequestDataView> {
        if version < 0 || version > 0 {
            Err(Error::UnsupportedVersion(UnsupportedVersion { api_key: 65, version }))
        } else {
            match (Self::spec_read_transactional_ids(s, version)) {
                Err(e) => Err(e),
                Ok((transactional_ids, s)) => match (Self::spec_read_tags(s, version)) {
                    Err(e) => Err(e),
                    Ok((unknown_tagged_fields, s)) => Ok((DescribeTransactionsRequestDataView {
                                transactional_ids: transactional_ids,
                                unknown_tagged_fields: unknown_tagged_fields,
                            }, s)),
                },
            }
        }
    }

    /// What writing the `transactional_ids` field of `m` appends.
    #[verifier::opaque]
    pub open spec fn spec_write_transactional_ids(m: DescribeTransactionsRequestDataView, version: i16) -> WriteOutcome {
        spec_write_array::<CompactStringItem>(m.transactional_ids, version, true)
    }

    /// What writing the tagged fields of `m` appends.
    #[verifier::opaque]
    pub open spec fn spec_write_tags(m: DescribeTransactionsRequestDataView, version: i16) -> WriteOutcome {
        spec_write_tagged_fields(sorted_by_tag(m.unknown_tagged_fields))
    }

    pub open spec fn spec_write(m: DescribeTransactionsRequestDataView, version: i16) -> WriteOutcome {
        if version < 0 || version > 0 {
            fail(Error::UnsupportedVersion(UnsupportedVersion { api_key: 65, version }))
        } else {
            chain(
                Self::spec_write_transactional_ids(m, version),
                Self::spec_write_tags(m, version),
            )
        }
    }

    /// Whether reading back what writing `m` in `version` appends gives `m`:
    /// fields that the version does not carry hold their default values, and
    /// tagged fields come in the order in which they are written.
    pub open spec fn canonical(m: DescribeTransactionsRequestDataView, version: i16) -> bool {
        &&& tags_in_order(m.unknown_tagged_fields)
    }

    proof fn lemma_round_trip_transactional_ids(m: DescribeTransactionsRequestDataView, version: i16, rest: Seq<u8>)
        requires
            Self::canonical(m, version),
            Self::spec_write_transactional_ids(m, version) is Ok,
        ensures
            Self::spec_read_transactional_ids(written(Self::spec_write_transactional_ids(m, version)) + rest, version) == Ok::<(Seq<Seq<u8>>, Seq<u8>), Error>((m.transactional_ids, rest)),
    {
        reveal(DescribeTransactionsRequestData::spec_read_transactional_ids);
        reveal(DescribeTransactionsRequestData::spec_write_transactional_ids);
        lemma_array_round_trip::<CompactStringItem>(m.transactional_ids, version, true, rest);
    }

    proof fn lemma_round_trip_tags(m: DescribeTransactionsRequestDataView, version: i16, rest: Seq<u8>)
        requires
            Self::canonical(m, version),
            Self::spec_write_tags(m, version) is Ok,
        ensures
            Self::spec_read_tags(written(Self::spec_write_tags(m, version)) + rest, version) == Ok::<(Seq<(u32, Seq<u8>)>, Seq<u8>), Error>((m.unknown_tagged_fields, rest)),
    {
        reveal(DescribeTransactionsRequestData::spec_read_tags);
        reveal(DescribeTransactionsRequestData::spec_write_tags);
        lemma_sorted_by_tag_in_order(m.unknown_tagged_fields);
        lemma_tagged_fields_round_trip(m.unknown_tagged_fields, rest);
    }

    /// Reading back what writing `m` in `version` appends gives `m` again, and
    /// leaves what follows, for every canonical message whose write succeeds.
    #[verifier::rlimit(60)]
    #[verifier::spinoff_prover]
    pub proof fn lemma_round_trip(m: DescribeTransactionsRequestDataView, version: i16, rest: Seq<u8>)
        requires
            Self::canonical(m, version),
            Self::spec_write(m, version) is Ok,
        ensures
            Self::spec_read(written(Self::spec_write(m, version)) + rest, version) == Ok::<(DescribeTransactionsRequestDataView, Seq<u8>), Error>((m, rest)),
    {
        let b0 = written(Self::spec_write_transactional_ids(m, version));
        let b1 = written(Self::spec_write_tags(m, version));
        let t2 = rest;
        let t1 = b1 + t2;
        let t0 = b0 + t1;
        let w0 = Self::spec_write_transactional_ids(m, version);
        let w1 = chain(w0, Self::spec_write_tags(m, version));
        assert(Self::spec_write(m, version) == w1);
        assert(written(w1) + t2 =~= written(w0) + t1);
        Self::lemma_round_trip_transactional_ids(m, version, t1);
        Self::lemma_round_trip_tags(m, version, t2);
    }

    /// The default message holds the default value of each field of the schema.
    pub proof fn lemma_default_values()
        ensures
            Self::default_view().transactional_ids.len() == 0,
            Self::default_view().unknown_tagged_fields.len() == 0,
    {
    }

    /// Whether writing `m` in `version` succeeds, said over its parts: the
    /// version is one the schema covers, every field that the version cannot
    /// carry holds its default value, and every string, byte string, array and
    /// tagged field fits its length prefix.
    pub open spec fn writable(m: DescribeTransactionsRequestDataView, version: i16) -> bool {
        &&& 0 <= version <= 0
        &&& (m.transactional_ids.len() <= i32::MAX && all_writable::<CompactStringItem>(m.transactional_ids, version))
        &&& m.unknown_tagged_fields.len() <= u32::MAX && tags_fit(m.unknown_tagged_fields)
    }

    proof fn lemma_writable_transactional_ids(m: DescribeTransactionsRequestDataView, version: i16)
        ensures
            Self::spec_write_transactional_ids(m, version) is Ok <==> (m.transactional_ids.len() <= i32::MAX && all_writable::<CompactStringItem>(m.transactional_ids, version)),
    {
        reveal(DescribeTransactionsRequestData::spec_write_transactional_ids);
        lemma_array_writable::<CompactStringItem>(m.transactional_ids, version, true);
    }

    proof fn lemma_writable_tags(m: DescribeTransactionsRequestDataView, version: i16)
        ensures
            Self::spec_write_tags(m, version) is Ok <==> m.unknown_tagged_fields.len() <= u32::MAX && tags_fit(m.unknown_tagged_fields),
    {
        reveal(DescribeTransactionsRequestData::spec_write_tags);
        lemma_sorted_tags_fit(m.unknown_tagged_fields);
        lemma_tagged_fields_writable(sorted_by_tag(m.unknown_tagged_fields));
    }

    /// Writing `m` in `version` succeeds exactly when `m` is writable in it;
    /// so do `write` and `encoded_len`, whose results follow `spec_write`.
    #[verifier::rlimit(42)]
    pub proof fn lemma_writable(m: DescribeTransactionsRequestDataView, version: i16)
        ensures
            Self::spec_write(m, version) is Ok <==> Self::writable(m, version),
    {
        Self::lemma_writable_transactional_ids(m, version);
        Self::lemma_writable_tags(m, version);
    }

    /// A version outside the range that the schema covers is refused, by
    /// reads and by writes alike, before anything is read or written.
    pub proof fn lemma_refused_version(m: DescribeTransactionsRequestDataView, s: Seq<u8>, version: i16)
        requires
            version < 0 || version > 0,
        ensures
            Self::spec_read(s, version) == Err::<(DescribeTransactionsRequestDataView, Seq<u8>), Error>(Error::UnsupportedVersion(UnsupportedVersion { api_key: 65, version })),
            Self::spec_write(m, version) == fail(Error::UnsupportedVersion(UnsupportedVersion { api_key: 65, version })),
    {
    }

    pub fn with_transactional_ids(self, value: Vec<KafkaString>) -> (r: Self)
        ensures
            r@ == (DescribeTransactionsRequestDataView { transactional_ids: views(value@), ..self@ }),
    {
        let mut r = self;
        r.transactional_ids = value;
        r
    }

    fn read_transactional_ids(buf: &mut Bytes, version: i16) -> (r: Result<Vec<KafkaString>, Error>)
        ensures
            read_vec_as(Self::spec_read_transactional_ids(bytes_seq(*old(buf)), version), *final(buf), r),
            took_front(*old(buf), *final(buf)),
    {
        proof {
            reveal(DescribeTransactionsRequestData::spec_read_transactional_ids);
        }
        Ok(read_array::<CompactStringItem>(buf, version, true)?)
    }

    fn read_tags(buf: &mut Bytes, version: i16) -> (r: Result<Vec<RawTaggedField>, Error>)
        ensures
            read_vec_as(Self::spec_read_tags(bytes_seq(*old(buf)), version), *final(buf), r),
            took_front(*old(buf), *final(buf)),
    {
        proof {
            reveal(DescribeTransactionsRequestData::spec_read_tags);
        }
        Ok(read_tagged_fields(buf)?)
    }

    pub fn read(buf: &mut Bytes, version: i16) -> (r: Result<Self, Error>)
        ensures
            read_as(Self::spec_read(bytes_seq(*old(buf)), version), *final(buf), r),
            took_front(*old(buf), *final(buf)),
            (version < 0 || version > 0) ==> bytes_seq(*final(buf)) == bytes_seq(*old(buf)),
    {
        if version < 0 || version > 0 {
            return Err(Error::UnsupportedVersion(UnsupportedVersion::new(65, version)));
        }
        let transactional_ids = Self::read_transactional_ids(buf, version)?;
        let _unknown_tagged_fields = Self::read_tags(buf, version)?;
        Ok(DescribeTransactionsRequestData {
                transactional_ids: transactional_ids,
                _unknown_tagged_fields: _unknown_tagged_fields,
        })
    }

    #[verifier::rlimit(50)]
    pub fn write(&self, buf: &mut BytesMut, version: i16) -> (r: Result<(), Error>)
        requires
            has_room(Self::spec_write(self@, version), *old(buf)),
        ensures
            wrote(Self::spec_write(self@, version), *old(buf), *final(buf), r),
    {
        if version < 0 || version > 0 {
            return Err(Error::UnsupportedVersion(UnsupportedVersion::new(65, version)));
        }
        let ghost m = self@;
        proof {
            reveal(DescribeTransactionsRequestData::spec_write_transactional_ids);
            reveal(DescribeTransactionsRequestData::spec_write_tags);
        }
        let ghost s0 = Self::spec_write_transactional_ids(m, version);
        let ghost w0 = s0;
        let ghost s1 = Self::spec_write_tags(m, version);
        let ghost w1 = chain(w0, s1);
        assert(Self::spec_write(m, version) == w1);
        assert(written(w0).len() <= written(w1).len() && (w0 is Err ==> w1 == w0));
        let ghost mid = bytes_mut_seq(*buf);
        proof {
            lemma_append_empty(mid);
        }
        let r0 = write_array::<CompactStringItem>(buf, &self.transactional_ids, version, true);
        assert(bytes_mut_seq(*buf) == mid + written(s0));
        if r0.is_err() {
            return r0;
        }
        let ghost mid = bytes_mut_seq(*buf);
        proof {
            lemma_append_empty(mid);
        }
        let r1 = write_tagged_fields(buf, &sort_by_tag(&self._unknown_tagged_fields));
        assert(bytes_mut_seq(*buf) == mid + written(s1));
        proof {
            lemma_step(bytes_mut_seq(*old(buf)), w0, s1);
        }
        if r1.is_err() {
            return r1;
        }
        Ok(())
    }

    #[verifier::rlimit(50)]
    pub fn encoded_len(&self, version: i16) -> (r: Result<usize, Error>)
        ensures
            r == len_result(Self::spec_write(self@, version)),
    {
        if version < 0 || version > 0 {
            return Err(Error::UnsupportedVersion(UnsupportedVersion::new(65, version)));
        }
        let ghost m = self@;
        proof {
            reveal(DescribeTransactionsRequestData::spec_write_transactional_ids);
            reveal(DescribeTransactionsRequestData::spec_write_tags);
        }
        let ghost s0 = Self::spec_write_transactional_ids(m, version);
        let ghost w0 = s0;
        let ghost s1 = Self::spec_write_tags(m, version);
        let ghost w1 = chain(w0, s1);
        assert(Self::spec_write(m, version) == w1);
        assert(w0 is Err ==> w1 == w0);
        let mut len: usize = 0;
        let l0 = array_len::<CompactStringItem>(&self.transactional_ids, version, true);
        assert(l0 == len_result(s0));
        let n0 = match l0 {
            Ok(n) => n,
            Err(e) => {
                return Err(e);
            },
        };
        len = saturating_sum(len, n0);
        assert(w0 is Ok && len == saturate(written(w0).len() as int));
        let l1 = tagged_fields_len(&sort_by_tag(&self._unknown_tagged_fields));
        assert(l1 == len_result(s1));
        let n1 = match l1 {
            Ok(n) => n,
            Err(e) => {
                return Err(e);
            },
        };
        proof {
            lemma_len_step(w0, s1, n1);
        }
        len = saturating_sum(len, n1);
        assert(w1 is Ok && len == saturate(written(w1).len() as int));
        Ok(len)
    }
}

} // verus!
