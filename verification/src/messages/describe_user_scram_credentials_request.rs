//! The describe user scram credentials request message.
use crate::buffer::{bytes_mut_seq, bytes_seq};
use crate::codec::{Codec, MeasuredCodec, all_canonical, all_writable, lemma_nullable_array_round_trip, lemma_nullable_array_writable, nullable_array_len, opt_views, read_nullable_array, saturating_sum, spec_read_nullable_array, spec_write_nullable_array, write_nullable_array};
use crate::error::{Error, UnsupportedVersion};
use crate::strings::{compact_string_len, lemma_compact_string_round_trip, read_compact_string, spec_read_compact_string, spec_write_compact_string, write_compact_string};
use crate::tagged::{lemma_sorted_by_tag_in_order, lemma_sorted_tags_fit, lemma_tagged_fields_round_trip, lemma_tagged_fields_writable, read_tagged_fields, sort_by_tag, sorted_by_tag, spec_read_tagged_fields, spec_write_tagged_fields, tagged_fields_len, tags_fit, tags_in_order, write_tagged_fields};
use crate::types::{KafkaString, RawTaggedField};
use crate::wire::{ReadOutcome, ViewClone, WriteOutcome, chain, clone_vec, empty_vec, fail, has_room, lemma_append_empty, lemma_chain_written, lemma_len_step, lemma_step, len_result, read_as, read_opt_vec_as, read_vec_as, saturate, took_front, views, written, wrote};
use bytes::{Bytes, BytesMut};
use vstd::prelude::*;

verus! {

broadcast use {crate::wire::lemma_chain_written, crate::wire::lemma_took_front_nothing, crate::wire::lemma_took_front_twice};

#[derive(Debug, PartialEq)]
pub struct DescribeUserScramCredentialsRequestData {
    /// The users to describe, or null/empty to describe all users.
    pub users: Option<Vec<UserName>>,
    pub _unknown_tagged_fields: Vec<RawTaggedField>,
}

/// What a `DescribeUserScramCredentialsRequestData` holds, as the specification sees it.
#[verifier::ext_equal]
pub struct DescribeUserScramCredentialsRequestDataView {
    pub users: Option<Seq<UserNameView>>,
    pub unknown_tagged_fields: Seq<(u32, Seq<u8>)>,
}

impl View for DescribeUserScramCredentialsRequestData {
    type V = DescribeUserScramCredentialsRequestDataView;

    open spec fn view(&self) -> DescribeUserScramCredentialsRequestDataView {
        DescribeUserScramCredentialsRequestDataView {
            users: opt_views(self.users),
            unknown_tagged_fields: views(self._unknown_tagged_fields@),
        }
    }
}

impl Clone for DescribeUserScramCredentialsRequestData {
    fn clone(&self) -> (r: Self)
        ensures
            r@ == self@,
    {
        let r = DescribeUserScramCredentialsRequestData {
            users: match &self.users {
                Some(x) => Some(clone_vec(x)),
                None => None,
            },
            _unknown_tagged_fields: clone_vec(&self._unknown_tagged_fields),
        };
        assert(r@ =~= self@);
        r
    }
}

impl ViewClone for DescribeUserScramCredentialsRequestData {
    fn clone_view(&self) -> (r: Self) {
        self.clone()
    }
}

impl Default for DescribeUserScramCredentialsRequestData {
    fn default() -> (r: Self)
        ensures
            r@ == Self::default_view(),
    {
        let r = DescribeUserScramCredentialsRequestData {
            users: None,
            _unknown_tagged_fields: empty_vec(),
        };
        assert(r@ =~= Self::default_view());
        r
    }
}

impl DescribeUserScramCredentialsRequestData {
    pub open spec fn default_view() -> DescribeUserScramCredentialsRequestDataView {
        DescribeUserScramCredentialsRequestDataView {
            users: None,
            unknown_tagged_fields: Seq::empty(),
        }
    }

    /// The `users` field, read from the front of `s`.
    #[verifier::opaque]
    pub open spec fn spec_read_users(s: Seq<u8>, version: i16) -> ReadOutcome<Option<Seq<UserNameView>>> {
        spec_read_nullable_array::<UserName>(s, version, true)
    }

    /// The tagged fields, read from the front of `s`.
    #[verifier::opaque]
    pub open spec fn spec_read_tags(s: Seq<u8>, version: i16) -> ReadOutcome<Seq<(u32, Seq<u8>)>> {
        spec_read_tagged_fields(s)
    }

    pub open spec fn spec_read(s: Seq<u8>, version: i16) -> ReadOutcome<DescribeUserScramCredentialsRequestDataView> {
        if version < 0 || version > 0 {
            Err(Error::UnsupportedVersion(UnsupportedVersion { api_key: 50, version }))
        } else {
            match (Self::spec_read_users(s, version)) {
                Err(e) => Err(e),
                Ok((users, s)) => match (Self::spec_read_tags(s, version)) {
                    Err(e) => Err(e),
                    Ok((unknown_tagged_fields, s)) => Ok((DescribeUserScramCredentialsRequestDataView {
                                users: users,
                                unknown_tagged_fields: unknown_tagged_fields,
                            }, s)),
                },
            }
        }
    }

    /// What writing the `users` field of `m` appends.
    #[verifier::opaque]
    pub open spec fn spec_write_users(m: DescribeUserScramCredentialsRequestDataView, version: i16) -> WriteOutcome {
        spec_write_nullable_array::<UserName>(m.users, version, true, -1i32)
    }

    /// What writing the tagged fields of `m` appends.
    #[verifier::opaque]
    pub open spec fn spec_write_tags(m: DescribeUserScramCredentialsRequestDataView, version: i16) -> WriteOutcome {
        spec_write_tagged_fields(sorted_by_tag(m.unknown_tagged_fields))
    }

    pub open spec fn spec_write(m: DescribeUserScramCredentialsRequestDataView, version: i16) -> WriteOutcome {
        if version < 0 || version > 0 {
            fail(Error::UnsupportedVersion(UnsupportedVersion { api_key: 50, version }))
        } else {
            chain(
                Self::spec_write_users(m, version),
                Self::spec_write_tags(m, version),
            )
        }
    }

    /// Whether reading back what writing `m` in `version` appends gives `m`:
    /// fields that the version does not carry hold their default values, and
    /// tagged fields come in the order in which they are written.
    pub open spec fn canonical(m: DescribeUserScramCredentialsRequestDataView, version: i16) -> bool {
        &&& (m.users matches Some(xs) ==> all_canonical::<UserName>(xs, version))
        &&& tags_in_order(m.unknown_tagged_fields)
    }

    proof fn lemma_round_trip_users(m: DescribeUserScramCredentialsRequestDataView, version: i16, rest: Seq<u8>)
        requires
            Self::canonical(m, version),
            Self::spec_write_users(m, version) is Ok,
        ensures
            Self::spec_read_users(written(Self::spec_write_users(m, version)) + rest, version) == Ok::<(Option<Seq<UserNameView>>, Seq<u8>), Error>((m.users, rest)),
    {
        reveal(DescribeUserScramCredentialsRequestData::spec_read_users);
        reveal(DescribeUserScramCredentialsRequestData::spec_write_users);
        lemma_nullable_array_round_trip::<UserName>(m.users, version, true, -1i32, rest);
    }

    proof fn lemma_round_trip_tags(m: DescribeUserScramCredentialsRequestDataView, version: i16, rest: Seq<u8>)
        requires
            Self::canonical(m, version),
            Self::spec_write_tags(m, version) is Ok,
        ensures
            Self::spec_read_tags(written(Self::spec_write_tags(m, version)) + rest, version) == Ok::<(Seq<(u32, Seq<u8>)>, Seq<u8>), Error>((m.unknown_tagged_fields, rest)),
    {
        reveal(DescribeUserScramCredentialsRequestData::spec_read_tags);
        reveal(DescribeUserScramCredentialsRequestData::spec_write_tags);
        lemma_sorted_by_tag_in_order(m.unknown_tagged_fields);
        lemma_tagged_fields_round_trip(m.unknown_tagged_fields, rest);
    }

    /// Reading back what writing `m` in `version` appends gives `m` again, and
    /// leaves what follows, for every canonical message whose write succeeds.
    #[verifier::rlimit(60)]
    #[verifier::spinoff_prover]
    pub proof fn lemma_round_trip(m: DescribeUserScramCredentialsRequestDataView, version: i16, rest: Seq<u8>)
        requires
            Self::canonical(m, version),
            Self::spec_write(m, version) is Ok,
        ensures
            Self::spec_read(written(Self::spec_write(m, version)) + rest, version) == Ok::<(DescribeUserScramCredentialsRequestDataView, Seq<u8>), Error>((m, rest)),
    {
        let b0 = written(Self::spec_write_users(m, version));
        let b1 = written(Self::spec_write_tags(m, version));
        let t2 = rest;
        let t1 = b1 + t2;
        let t0 = b0 + t1;
        let w0 = Self::spec_write_users(m, version);
        let w1 = chain(w0, Self::spec_write_tags(m, version));
        assert(Self::spec_write(m, version) == w1);
        assert(written(w1) + t2 =~= written(w0) + t1);
        Self::lemma_round_trip_users(m, version, t1);
        Self::lemma_round_trip_tags(m, version, t2);
    }

    /// The default message holds the default value of each field of the schema.
    pub proof fn lemma_default_values()
        ensures
            (Self::default_view().users is None),
            Self::default_view().unknown_tagged_fields.len() == 0,
    {
    }

    /// Whether writing `m` in `version` succeeds, said over its parts: the
    /// version is one the schema covers, every field that the version cannot
    /// carry holds its default value, and every string, byte string, array and
    /// tagged field fits its length prefix.
    pub open spec fn writable(m: DescribeUserScramCredentialsRequestDataView, version: i16) -> bool {
        &&& 0 <= version <= 0
        &&& (m.users matches Some(xs) ==> xs.len() <= i32::MAX && all_writable::<UserName>(xs, version))
        &&& m.unknown_tagged_fields.len() <= u32::MAX && tags_fit(m.unknown_tagged_fields)
    }

    proof fn lemma_writable_users(m: DescribeUserScramCredentialsRequestDataView, version: i16)
        ensures
            Self::spec_write_users(m, version) is Ok <==> (m.users matches Some(xs) ==> xs.len() <= i32::MAX && all_writable::<UserName>(xs, version)),
    {
        reveal(DescribeUserScramCredentialsRequestData::spec_write_users);
        lemma_nullable_array_writable::<UserName>(m.users, version, true, -1i32);
    }

    proof fn lemma_writable_tags(m: DescribeUserScramCredentialsRequestDataView, version: i16)
        ensures
            Self::spec_write_tags(m, version) is Ok <==> m.unknown_tagged_fields.len() <= u32::MAX && tags_fit(m.unknown_tagged_fields),
    {
        reveal(DescribeUserScramCredentialsRequestData::spec_write_tags);
        lemma_sorted_tags_fit(m.unknown_tagged_fields);
        lemma_tagged_fields_writable(sorted_by_tag(m.unknown_tagged_fields));
    }

    /// Writing `m` in `version` succeeds exactly when `m` is writable in it;
    /// so do `write` and `encoded_len`, whose results follow `spec_write`.
    #[verifier::rlimit(42)]
    pub proof fn lemma_writable(m: DescribeUserScramCredentialsRequestDataView, version: i16)
        ensures
            Self::spec_write(m, version) is Ok <==> Self::writable(m, version),
    {
        Self::lemma_writable_users(m, version);
        Self::lemma_writable_tags(m, version);
    }

    /// A version outside the range that the schema covers is refused, by
    /// reads and by writes alike, before anything is read or written.
    pub proof fn lemma_refused_version(m: DescribeUserScramCredentialsRequestDataView, s: Seq<u8>, version: i16)
        requires
            version < 0 || version > 0,
        ensures
            Self::spec_read(s, version) == Err::<(DescribeUserScramCredentialsRequestDataView, Seq<u8>), Error>(Error::UnsupportedVersion(UnsupportedVersion { api_key: 50, version })),
            Self::spec_write(m, version) == fail(Error::UnsupportedVersion(UnsupportedVersion { api_key: 50, version })),
    {
    }

    pub fn with_users(self, value: Option<Vec<UserName>>) -> (r: Self)
        ensures
            r@ == (DescribeUserScramCredentialsRequestDataView { users: opt_views(value), ..self@ }),
    {
        let mut r = self;
        r.users = value;
        r
    }

    fn read_users(buf: &mut Bytes, version: i16) -> (r: Result<Option<Vec<UserName>>, Error>)
        ensures
            read_opt_vec_as(Self::spec_read_users(bytes_seq(*old(buf)), version), *final(buf), r),
            took_front(*old(buf), *final(buf)),
    {
        proof {
            reveal(DescribeUserScramCredentialsRequestData::spec_read_users);
        }
        Ok(read_nullable_array::<UserName>(buf, version, true)?)
    }

    fn read_tags(buf: &mut Bytes, version: i16) -> (r: Result<Vec<RawTaggedField>, Error>)
        ensures
            read_vec_as(Self::spec_read_tags(bytes_seq(*old(buf)), version), *final(buf), r),
            took_front(*old(buf), *final(buf)),
    {
        proof {
            reveal(DescribeUserScramCredentialsRequestData::spec_read_tags);
        }
        Ok(read_tagged_fields(buf)?)
    }

    pub fn read(buf: &mut Bytes, version: i16) -> (r: Result<Self, Error>)
        ensures
            read_as(Self::spec_read(bytes_seq(*old(buf)), version), *final(buf), r),
            took_front(*old(buf), *final(buf)),
            (version < 0 || version > 0) ==> bytes_seq(*final(buf)) == bytes_seq(*old(buf)),
    {
        if version < 0 || version > 0 {
            return Err(Error::UnsupportedVersion(UnsupportedVersion::new(50, version)));
        }
        let users = Self::read_users(buf, version)?;
        let _unknown_tagged_fields = Self::read_tags(buf, version)?;
        Ok(DescribeUserScramCredentialsRequestData {
                users: users,
                _unknown_tagged_fields: _unknown_tagged_fields,
        })
    }

    #[verifier::rlimit(50)]
    pub fn write(&self, buf: &mut BytesMut, version: i16) -> (r: Result<(), Error>)
        requires
            has_room(Self::spec_write(self@, version), *old(buf)),
        ensures
            wrote(Self::spec_write(self@, version), *old(buf), *final(buf), r),
    {
        if version < 0 || version > 0 {
            return Err(Error::UnsupportedVersion(UnsupportedVersion::new(50, version)));
        }
        let ghost m = self@;
        proof {
            reveal(DescribeUserScramCredentialsRequestData::spec_write_users);
            reveal(DescribeUserScramCredentialsRequestData::spec_write_tags);
        }
        let ghost s0 = Self::spec_write_users(m, version);
        let ghost w0 = s0;
        let ghost s1 = Self::spec_write_tags(m, version);
        let ghost w1 = chain(w0, s1);
        assert(Self::spec_write(m, version) == w1);
        assert(written(w0).len() <= written(w1).len() && (w0 is Err ==> w1 == w0));
        let ghost mid = bytes_mut_seq(*buf);
        proof {
            lemma_append_empty(mid);
        }
        let r0 = write_nullable_array::<UserName>(buf, &self.users, version, true, -1);
        assert(bytes_mut_seq(*buf) == mid + written(s0));
        if r0.is_err() {
            return r0;
        }
        let ghost mid = bytes_mut_seq(*buf);
        proof {
            lemma_append_empty(mid);
        }
        let r1 = write_tagged_fields(buf, &sort_by_tag(&self._unknown_tagged_fields));
        assert(bytes_mut_seq(*buf) == mid + written(s1));
        proof {
            lemma_step(bytes_mut_seq(*old(buf)), w0, s1);
        }
        if r1.is_err() {
            return r1;
        }
        Ok(())
    }

    #[verifier::rlimit(50)]
    pub fn encoded_len(&self, version: i16) -> (r: Result<usize, Error>)
        ensures
            r == len_result(Self::spec_write(self@, version)),
    {
        if version < 0 || version > 0 {
            return Err(Error::UnsupportedVersion(UnsupportedVersion::new(50, version)));
        }
        let ghost m = self@;
        proof {
            reveal(DescribeUserScramCredentialsRequestData::spec_write_users);
            reveal(DescribeUserScramCredentialsRequestData::spec_write_tags);
        }
        let ghost s0 = Self::spec_write_users(m, version);
        let ghost w0 = s0;
        let ghost s1 = Self::spec_write_tags(m, version);
        let ghost w1 = chain(w0, s1);
        assert(Self::spec_write(m, version) == w1);
        assert(w0 is Err ==> w1 == w0);
        let mut len: usize = 0;
        let l0 = nullable_array_len::<UserName>(&self.users, version, true, -1);
        assert(l0 == len_result(s0));
        let n0 = match l0 {
            Ok(n) => n,
            Err(e) => {
                return Err(e);
            },
        };
        len = saturating_sum(len, n0);
        assert(w0 is Ok && len == saturate(written(w0).len() as int));
        let l1 = tagged_fields_len(&sort_by_tag(&self._unknown_tagged_fields));
        assert(l1 == len_result(s1));
        let n1 = match l1 {
            Ok(n) => n,
            Err(e) => {
                return Err(e);
            },
        };
        proof {
            lemma_len_step(w0, s1, n1);
        }
        len = saturating_sum(len, n1);
        assert(w1 is Ok && len == saturate(written(w1).len() as int));
        Ok(len)
    }
}

#[derive(Debug, PartialEq)]
pub struct UserName {
    /// The user name.
    pub name: KafkaString,
    pub _unknown_tagged_fields: Vec<RawTaggedField>,
}

/// What a `UserName` holds, as the specification sees it.
#[verifier::ext_equal]
pub struct UserNameView {
    pub name: Seq<u8>,
    pub unknown_tagged_fields: Seq<(u32, Seq<u8>)>,
}

impl View for UserName {
    type V = UserNameView;

    open spec fn view(&self) -> UserNameView {
        UserNameView {
            name: self.name@,
            unknown_tagged_fields: views(self._unknown_tagged_fields@),
        }
    }
}

impl Clone for UserName {
    fn clone(&self) -> (r: Self)
        ensures
            r@ == self@,
    {
        let r = UserName {
            name: self.name.clone(),
            _unknown_tagged_fields: clone_vec(&self._unknown_tagged_fields),
        };
        assert(r@ =~= self@);
        r
    }
}

impl ViewClone for UserName {
    fn clone_view(&self) -> (r: Self) {
        self.clone()
    }
}

impl Default for UserName {
    fn default() -> (r: Self)
        ensures
            r@ == Self::default_view(),
    {
        let r = UserName {
            name: KafkaString::default(),
            _unknown_tagged_fields: empty_vec(),
        };
        assert(r@ =~= Self::default_view());
        r
    }
}

impl UserName {
    pub open spec fn default_view() -> UserNameView {
        UserNameView {
            name: Seq::empty(),
            unknown_tagged_fields: Seq::empty(),
        }
    }

    /// The `name` field, read from the front of `s`.
    #[verifier::opaque]
    pub open spec fn spec_read_name(s: Seq<u8>, version: i16) -> ReadOutcome<Seq<u8>> {
        spec_read_compact_string(s)
    }

    /// The tagged fields, read from the front of `s`.
    #[verifier::opaque]
    pub open spec fn spec_read_tags(s: Seq<u8>, version: i16) -> ReadOutcome<Seq<(u32, Seq<u8>)>> {
        spec_read_tagged_fields(s)
    }

    pub open spec fn spec_read(s: Seq<u8>, version: i16) -> ReadOutcome<UserNameView> {
        match (Self::spec_read_name(s, version)) {
            Err(e) => Err(e),
            Ok((name, s)) => match (Self::spec_read_tags(s, version)) {
                Err(e) => Err(e),
                Ok((unknown_tagged_fields, s)) => Ok((UserNameView {
                            name: name,
                            unknown_tagged_fields: unknown_tagged_fields,
                        }, s)),
            },
        }
    }

    /// What writing the `name` field of `m` appends.
    #[verifier::opaque]
    pub open spec fn spec_write_name(m: UserNameView, version: i16) -> WriteOutcome {
        spec_write_compact_string(m.name)
    }

    /// What writing the tagged fields of `m` appends.
    #[verifier::opaque]
    pub open spec fn spec_write_tags(m: UserNameView, version: i16) -> WriteOutcome {
        spec_write_tagged_fields(sorted_by_tag(m.unknown_tagged_fields))
    }

    pub open spec fn spec_write(m: UserNameView, version: i16) -> WriteOutcome {
        chain(
            Self::spec_write_name(m, version),
            Self::spec_write_tags(m, version),
        )
    }

    /// Whether reading back what writing `m` in `version` appends gives `m`:
    /// fields that the version does not carry hold their default values, and
    /// tagged fields come in the order in which they are written.
    pub open spec fn canonical(m: UserNameView, version: i16) -> bool {
        &&& tags_in_order(m.unknown_tagged_fields)
    }

    proof fn lemma_round_trip_name(m: UserNameView, version: i16, rest: Seq<u8>)
        requires
            Self::canonical(m, version),
            Self::spec_write_name(m, version) is Ok,
        ensures
            Self::spec_read_name(written(Self::spec_write_name(m, version)) + rest, version) == Ok::<(Seq<u8>, Seq<u8>), Error>((m.name, rest)),
    {
        reveal(UserName::spec_read_name);
        reveal(UserName::spec_write_name);
        lemma_compact_string_round_trip(m.name, rest);
    }

    proof fn lemma_round_trip_tags(m: UserNameView, version: i16, rest: Seq<u8>)
        requires
            Self::canonical(m, version),
            Self::spec_write_tags(m, version) is Ok,
        ensures
            Self::spec_read_tags(written(Self::spec_write_tags(m, version)) + rest, version) == Ok::<(Seq<(u32, Seq<u8>)>, Seq<u8>), Error>((m.unknown_tagged_fields, rest)),
    {
        reveal(UserName::spec_read_tags);
        reveal(UserName::spec_write_tags);
        lemma_sorted_by_tag_in_order(m.unknown_tagged_fields);
        lemma_tagged_fields_round_trip(m.unknown_tagged_fields, rest);
    }

    /// Reading back what writing `m` in `version` appends gives `m` again, and
    /// leaves what follows, for every canonical message whose write succeeds.
    #[verifier::rlimit(60)]
    #[verifier::spinoff_prover]
    pub proof fn lemma_round_trip(m: UserNameView, version: i16, rest: Seq<u8>)
        requires
            Self::canonical(m, version),
            Self::spec_write(m, version) is Ok,
        ensures
            Self::spec_read(written(Self::spec_write(m, version)) + rest, version) == Ok::<(UserNameView, Seq<u8>), Error>((m, rest)),
    {
        let b0 = written(Self::spec_write_name(m, version));
        let b1 = written(Self::spec_write_tags(m, version));
        let t2 = rest;
        let t1 = b1 + t2;
        let t0 = b0 + t1;
        let w0 = Self::spec_write_name(m, version);
        let w1 = chain(w0, Self::spec_write_tags(m, version));
        assert(Self::spec_write(m, version) == w1);
        assert(written(w1) + t2 =~= written(w0) + t1);
        Self::lemma_round_trip_name(m, version, t1);
        Self::lemma_round_trip_tags(m, version, t2);
    }

    /// The default message holds the default value of each field of the schema.
    pub proof fn lemma_default_values()
        ensures
            Self::default_view().name.len() == 0,
            Self::default_view().unknown_tagged_fields.len() == 0,
    {
    }

    /// Whether writing `m` in `version` succeeds, said over its parts: the
    /// version is one the schema covers, every field that the version cannot
    /// carry holds its default value, and every string, byte string, array and
    /// tagged field fits its length prefix.
    pub open spec fn writable(m: UserNameView, version: i16) -> bool {
        &&& m.name.len() <= 0x7fff
        &&& m.unknown_tagged_fields.len() <= u32::MAX && tags_fit(m.unknown_tagged_fields)
    }

    proof fn lemma_writable_name(m: UserNameView, version: i16)
        ensures
            Self::spec_write_name(m, version) is Ok <==> m.name.len() <= 0x7fff,
    {
        reveal(UserName::spec_write_name);
    }

    proof fn lemma_writable_tags(m: UserNameView, version: i16)
        ensures
            Self::spec_write_tags(m, version) is Ok <==> m.unknown_tagged_fields.len() <= u32::MAX && tags_fit(m.unknown_tagged_fields),
    {
        reveal(UserName::spec_write_tags);
        lemma_sorted_tags_fit(m.unknown_tagged_fields);
        lemma_tagged_fields_writable(sorted_by_tag(m.unknown_tagged_fields));
    }

    /// Writing `m` in `version` succeeds exactly when `m` is writable in it;
    /// so do `write` and `encoded_len`, whose results follow `spec_write`.
    #[verifier::rlimit(42)]
    pub proof fn lemma_writable(m: UserNameView, version: i16)
        ensures
            Self::spec_write(m, version) is Ok <==> Self::writable(m, version),
    {
        Self::lemma_writable_name(m, version);
        Self::lemma_writable_tags(m, version);
    }

    pub fn with_name(self, value: KafkaString) -> (r: Self)
        ensures
            r@ == (UserNameView { name: value@, ..self@ }),
    {
        let mut r = self;
        r.name = value;
        r
    }

    fn read_name(buf: &mut Bytes, version: i16) -> (r: Result<KafkaString, Error>)
        ensures
            read_as(Self::spec_read_name(bytes_seq(*old(buf)), version), *final(buf), r),
            took_front(*old(buf), *final(buf)),
    {
        proof {
            reveal(UserName::spec_read_name);
        }
        Ok(read_compact_string(buf)?)
    }

    fn read_tags(buf: &mut Bytes, version: i16) -> (r: Result<Vec<RawTaggedField>, Error>)
        ensures
            read_vec_as(Self::spec_read_tags(bytes_seq(*old(buf)), version), *final(buf), r),
            took_front(*old(buf), *final(buf)),
    {
        proof {
            reveal(UserName::spec_read_tags);
        }
        Ok(read_tagged_fields(buf)?)
    }

    pub fn read(buf: &mut Bytes, version: i16) -> (r: Result<Self, Error>)
        ensures
            read_as(Self::spec_read(bytes_seq(*old(buf)), version), *final(buf), r),
            took_front(*old(buf), *final(buf)),
    {
        let name = Self::read_name(buf, version)?;
        let _unknown_tagged_fields = Self::read_tags(buf, version)?;
        Ok(UserName {
                name: name,
                _unknown_tagged_fields: _unknown_tagged_fields,
        })
    }

    #[verifier::rlimit(50)]
    pub fn write(&self, buf: &mut BytesMut, version: i16) -> (r: Result<(), Error>)
        requires
            has_room(Self::spec_write(self@, version), *old(buf)),
        ensures
            wrote(Self::spec_write(self@, version), *old(buf), *final(buf), r),
    {
        let ghost m = self@;
        proof {
            reveal(UserName::spec_write_name);
            reveal(UserName::spec_write_tags);
        }
        let ghost s0 = Self::spec_write_name(m, version);
        let ghost w0 = s0;
        let ghost s1 = Self::spec_write_tags(m, version);
        let ghost w1 = chain(w0, s1);
        assert(Self::spec_write(m, version) == w1);
        assert(written(w0).len() <= written(w1).len() && (w0 is Err ==> w1 == w0));
        let ghost mid = bytes_mut_seq(*buf);
        proof {
            lemma_append_empty(mid);
        }
        let r0 = write_compact_string(buf, &self.name);
        assert(bytes_mut_seq(*buf) == mid + written(s0));
        if r0.is_err() {
            return r0;
        }
        let ghost mid = bytes_mut_seq(*buf);
        proof {
            lemma_append_empty(mid);
        }
        let r1 = write_tagged_fields(buf, &sort_by_tag(&self._unknown_tagged_fields));
        assert(bytes_mut_seq(*buf) == mid + written(s1));
        proof {
            lemma_step(bytes_mut_seq(*old(buf)), w0, s1);
        }
        if r1.is_err() {
            return r1;
        }
        Ok(())
    }

    #[verifier::rlimit(50)]
    pub fn encoded_len(&self, version: i16) -> (r: Result<usize, Error>)
        ensures
            r == len_result(Self::spec_write(self@, version)),
    {
        let ghost m = self@;
        proof {
            reveal(UserName::spec_write_name);
            reveal(UserName::spec_write_tags);
        }
        let ghost s0 = Self::spec_write_name(m, version);
        let ghost w0 = s0;
        let ghost s1 = Self::spec_write_tags(m, version);
        let ghost w1 = chain(w0, s1);
        assert(Self::spec_write(m, version) == w1);
        assert(w0 is Err ==> w1 == w0);
        let mut len: usize = 0;
        let l0 = compact_string_len(&self.name);
        assert(l0 == len_result(s0));
        let n0 = match l0 {
            Ok(n) => n,
            Err(e) => {
                return Err(e);
            },
        };
        len = saturating_sum(len, n0);
        assert(w0 is Ok && len == saturate(written(w0).len() as int));
        let l1 = tagged_fields_len(&sort_by_tag(&self._unknown_tagged_fields));
        assert(l1 == len_result(s1));
        let n1 = match l1 {
            Ok(n) => n,
            Err(e) => {
                return Err(e);
            },
        };
        proof {
            lemma_len_step(w0, s1, n1);
        }
        len = saturating_sum(len, n1);
        assert(w1 is Ok && len == saturate(written(w1).len() as int));
        Ok(len)
    }
}

impl Codec for UserName {
    type Item = UserName;

    open spec fn spec_read_item(s: Seq<u8>, version: i16) -> ReadOutcome<UserNameView> {
        UserName::spec_read(s, version)
    }

    open spec fn spec_write_item(v: UserNameView, version: i16) -> WriteOutcome {
        UserName::spec_write(v, version)
    }

    open spec fn canonical_item(v: UserNameView, version: i16) -> bool {
        UserName::canonical(v, version)
    }

    proof fn lemma_item_round_trip(v: UserNameView, version: i16, rest: Seq<u8>) {
        UserName::lemma_round_trip(v, version, rest);
    }

    open spec fn writable_item(v: UserNameView, version: i16) -> bool {
        UserName::writable(v, version)
    }

    proof fn lemma_item_writable(v: UserNameView, version: i16) {
        UserName::lemma_writable(v, version);
    }

    fn read_item(buf: &mut Bytes, version: i16) -> (r: Result<UserName, Error>) {
        UserName::read(buf, version)
    }

    fn write_item(item: &UserName, buf: &mut BytesMut, version: i16) -> (r: Result<(), Error>) {
        item.write(buf, version)
    }
}

impl MeasuredCodec for UserName {
    fn item_len(item: &UserName, version: i16) -> (r: Result<usize, Error>) {
        item.encoded_len(version)
    }
}

} // verus!
