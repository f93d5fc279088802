//! The vocabulary in which the wire format is specified.
//!
//! A write is specified by a `WriteOutcome`: the bytes it appends, and, when
//! it fails, the error together with the bytes it appended before failing.
//! A read is specified by a `ReadOutcome`: the value and the input that is
//! left after it, or the error.
use crate::buffer::{bytes_mut_seq, bytes_seq};
use crate::error::Error;
use bytes::{Bytes, BytesMut};
use vstd::prelude::*;

verus! {

pub type WriteOutcome = Result<Seq<u8>, (Error, Seq<u8>)>;

pub type ReadOutcome<T> = Result<(T, Seq<u8>), Error>;

/// The bytes that a write appends, whether or not it succeeds.
pub open spec fn written(o: WriteOutcome) -> Seq<u8> {
    match o {
        Ok(b) => b,
        Err((_, b)) => b,
    }
}

/// What a write returns.
pub open spec fn write_result(o: WriteOutcome) -> Result<(), Error> {
    match o {
        Ok(_) => Ok(()),
        Err((e, _)) => Err(e),
    }
}

/// What a length computation returns: the length of the encoding (at most
/// `usize::MAX`), or the error that the write would report.
pub open spec fn len_result(o: WriteOutcome) -> Result<usize, Error> {
    match o {
        Ok(b) => Ok(saturate(b.len() as int)),
        Err((e, _)) => Err(e),
    }
}

/// `n`, or `usize::MAX` if `n` is larger.
pub open spec fn saturate(n: int) -> usize {
    if n <= usize::MAX {
        n as usize
    } else {
        usize::MAX
    }
}

pub proof fn lemma_saturate_add(x: int, y: int)
    requires
        x >= 0,
        y >= 0,
    ensures
        saturate(saturate(x) + saturate(y)) == saturate(x + y),
{
}

/// The length of a chain of writes, taken one step further.
pub proof fn lemma_len_step(so_far: WriteOutcome, step: WriteOutcome, n: usize)
    requires
        so_far is Ok,
        len_result(step) == Ok::<usize, Error>(n),
    ensures
        saturate(saturate(written(so_far).len() as int) + n) == saturate(
            written(chain(so_far, step)).len() as int,
        ),
{
    lemma_saturate_add(written(so_far).len() as int, written(step).len() as int);
}

/// A write that appends `b`.
pub open spec fn emit(b: Seq<u8>) -> WriteOutcome {
    Ok(b)
}

/// A write that fails before appending anything.
pub open spec fn fail(e: Error) -> WriteOutcome {
    Err((e, Seq::empty()))
}

/// Two writes, one after the other; the second happens only if the first
/// succeeds.
pub open spec fn chain(a: WriteOutcome, b: WriteOutcome) -> WriteOutcome {
    match a {
        Err(e) => Err(e),
        Ok(x) => match b {
            Ok(y) => Ok(x + y),
            Err((e, y)) => Err((e, x + y)),
        },
    }
}

/// What a chain of two writes appends: at least what the first appends; all
/// that both append when the first succeeds; and, when the first fails,
/// just that failure.
pub broadcast proof fn lemma_chain_written(a: WriteOutcome, b: WriteOutcome)
    ensures
        #![trigger chain(a, b)]
        written(chain(a, b)).len() >= written(a).len(),
        a is Ok ==> written(chain(a, b)) == written(a) + written(b),
        a is Ok ==> write_result(chain(a, b)) == write_result(b),
        a is Err ==> chain(a, b) == a,
        a is Ok ==> (chain(a, b) is Ok <==> b is Ok),
        len_result(chain(a, b)) is Ok ==> len_result(a) is Ok,
{
}

/// A buffer that has grown by a step of a chain of writes holds what the
/// chain so far wrote.
pub proof fn lemma_step(before: Seq<u8>, so_far: WriteOutcome, step: WriteOutcome)
    requires
        so_far is Ok,
    ensures
        (before + written(so_far)) + written(step) == before + written(chain(so_far, step)),
{
    assert((before + written(so_far)) + written(step) =~= before + written(chain(so_far, step)));
}

/// Appending nothing leaves a sequence as it is.
pub proof fn lemma_append_empty(s: Seq<u8>)
    ensures
        s + Seq::<u8>::empty() == s,
{
    assert(s + Seq::<u8>::empty() =~= s);
}

/// How a write function's buffer and result follow from its specification.
pub open spec fn wrote(o: WriteOutcome, before: BytesMut, after: BytesMut, r: Result<(), Error>) -> bool {
    &&& bytes_mut_seq(after) == bytes_mut_seq(before) + written(o)
    &&& r == write_result(o)
}

/// Room in a write buffer for what a write appends.
pub open spec fn has_room(o: WriteOutcome, buf: BytesMut) -> bool {
    bytes_mut_seq(buf).len() + written(o).len() <= isize::MAX
}

/// How a read function's result and buffer follow from its specification.
pub open spec fn read_as<T: View>(o: ReadOutcome<T::V>, after: Bytes, r: Result<T, Error>) -> bool {
    match o {
        Ok((v, rest)) => r matches Ok(x) && x@ == v && bytes_seq(after) == rest,
        Err(e) => r == Err::<T, Error>(e),
    }
}

pub open spec fn opt_view<T: View>(o: Option<T>) -> Option<T::V> {
    match o {
        Some(x) => Some(x@),
        None => None,
    }
}

/// The views of the items of `s`.
pub open spec fn views<T: View>(s: Seq<T>) -> Seq<T::V> {
    s.map_values(|x: T| x@)
}

/// `read_as` for a read that gives an optional value.
pub open spec fn read_opt_as<T: View>(o: ReadOutcome<Option<T::V>>, after: Bytes, r: Result<Option<T>, Error>) -> bool {
    match o {
        Ok((v, rest)) => r matches Ok(x) && opt_view(x) == v && bytes_seq(after) == rest,
        Err(e) => r == Err::<Option<T>, Error>(e),
    }
}

/// `read_as` for a read that gives a vector.
pub open spec fn read_vec_as<T: View>(o: ReadOutcome<Seq<T::V>>, after: Bytes, r: Result<Vec<T>, Error>) -> bool {
    match o {
        Ok((v, rest)) => r matches Ok(x) && views(x@) == v && bytes_seq(after) == rest,
        Err(e) => r == Err::<Vec<T>, Error>(e),
    }
}

/// `read_as` for a read that gives an optional vector.
pub open spec fn read_opt_vec_as<T: View>(o: ReadOutcome<Option<Seq<T::V>>>, after: Bytes, r: Result<Option<Vec<T>>, Error>) -> bool {
    match o {
        Ok((v, rest)) => r matches Ok(x) && (match x {
            Some(xs) => v == Some(views(xs@)),
            None => v is None,
        }) && bytes_seq(after) == rest,
        Err(e) => r == Err::<Option<Vec<T>>, Error>(e),
    }
}

/// `read_as` for a read that gives a buffer of bytes.
pub open spec fn read_bytes_as(o: ReadOutcome<Seq<u8>>, after: Bytes, r: Result<Bytes, Error>) -> bool {
    match o {
        Ok((v, rest)) => r matches Ok(x) && bytes_seq(x) == v && bytes_seq(after) == rest,
        Err(e) => r == Err::<Bytes, Error>(e),
    }
}

/// `read_as` for a read that gives an optional buffer of bytes.
pub open spec fn read_opt_bytes_as(o: ReadOutcome<Option<Seq<u8>>>, after: Bytes, r: Result<Option<Bytes>, Error>) -> bool {
    match o {
        Ok((v, rest)) => r matches Ok(x) && opt_bytes_view(x) == v && bytes_seq(after) == rest,
        Err(e) => r == Err::<Option<Bytes>, Error>(e),
    }
}

/// What a buffer of bytes holds, if there is one.
pub open spec fn opt_bytes_view(o: Option<Bytes>) -> Option<Seq<u8>> {
    match o {
        Some(b) => Some(bytes_seq(b)),
        None => None,
    }
}

/// What a borrowed buffer of bytes holds, if there is one.
pub open spec fn opt_ref_bytes_view(o: Option<&Bytes>) -> Option<Seq<u8>> {
    match o {
        Some(b) => Some(bytes_seq(*b)),
        None => None,
    }
}

/// A read of a value that cannot be null, giving it as present.
pub open spec fn some_of<T>(o: ReadOutcome<T>) -> ReadOutcome<Option<T>> {
    match o {
        Ok((v, rest)) => Ok((Some(v), rest)),
        Err(e) => Err(e),
    }
}

/// The bytes of an optional string, or none if it is absent.
pub open spec fn unwrap_or_empty(o: Option<Seq<u8>>) -> Seq<u8> {
    match o {
        Some(v) => v,
        None => Seq::empty(),
    }
}

/// An empty vector, whose items' views are the empty sequence.
pub fn empty_vec<T: View>() -> (r: Vec<T>)
    ensures
        r@.len() == 0,
        views(r@) == Seq::<T::V>::empty(),
{
    let r = Vec::new();
    assert(views(r@) =~= Seq::<T::V>::empty());
    r
}

/// A value whose copy has the same view.
pub trait ViewClone: View + Sized {
    fn clone_view(&self) -> (r: Self)
        ensures
            r@ == self@,
    ;
}

impl ViewClone for i8 {
    fn clone_view(&self) -> (r: i8) {
        *self
    }
}

impl ViewClone for i32 {
    fn clone_view(&self) -> (r: i32) {
        *self
    }
}

impl ViewClone for i64 {
    fn clone_view(&self) -> (r: i64) {
        *self
    }
}

/// A copy of `v` whose items have the views of those of `v`.
pub fn clone_vec<T: ViewClone>(v: &Vec<T>) -> (r: Vec<T>)
    ensures
        views(r@) == views(v@),
{
    let mut r: Vec<T> = Vec::new();
    let mut i: usize = 0;
    while i < v.len()
        invariant
            0 <= i <= v.len(),
            views(r@) == views(v@).take(i as int),
        decreases v.len() - i,
    {
        let ghost before = views(r@);
        r.push(v[i].clone_view());
        proof {
            assert(views(r@) =~= before.push(v@[i as int]@));
            assert(views(v@).take(i + 1) =~= views(v@).take(i as int).push(v@[i as int]@));
        }
        i = i + 1;
    }
    assert(views(v@).take(v.len() as int) =~= views(v@));
    r
}

/// What a write appends and what measuring it gives agree: the length is
/// there exactly when the write succeeds, and it is the number of bytes
/// the write appends (or `usize::MAX`, if that is more).
pub proof fn lemma_len_agrees_with_write(o: WriteOutcome)
    ensures
        len_result(o) is Ok <==> write_result(o) is Ok,
        len_result(o) is Ok ==> len_result(o)->Ok_0 == saturate(written(o).len() as int),
        len_result(o) is Err ==> len_result(o)->Err_0 == write_result(o)->Err_0,
{
}

/// Whether `after` is what is left of `before` once some bytes have been
/// taken from its front.
pub open spec fn took_front(before: Bytes, after: Bytes) -> bool {
    let b = bytes_seq(before);
    let a = bytes_seq(after);
    a.len() <= b.len() && a == b.subrange(b.len() - a.len(), b.len() as int)
}

/// Taking nothing leaves a buffer as it is.
pub broadcast proof fn lemma_took_front_nothing(x: Bytes)
    ensures
        #[trigger] took_front(x, x),
{
    assert(bytes_seq(x) =~= bytes_seq(x).subrange(0, bytes_seq(x).len() as int));
}

/// Taking from the front twice is taking from the front.
pub broadcast proof fn lemma_took_front_twice(x: Bytes, y: Bytes, z: Bytes)
    requires
        took_front(x, y),
        took_front(y, z),
    ensures
        #![trigger took_front(x, y), took_front(y, z)]
        took_front(x, z),
{
    let b = bytes_seq(x);
    assert(bytes_seq(z) =~= b.subrange(b.len() - bytes_seq(z).len(), b.len() as int));
}

/// A buffer that holds what follows the first `k` bytes of another took
/// them from its front.
pub proof fn lemma_took_front_skip(x: Bytes, y: Bytes, k: int)
    requires
        0 <= k <= bytes_seq(x).len(),
        bytes_seq(y) == bytes_seq(x).subrange(k, bytes_seq(x).len() as int),
    ensures
        took_front(x, y),
{
}

} // verus!
