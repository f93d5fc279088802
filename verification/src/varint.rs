//! Unsigned varints: seven bits per byte, least significant group first,
//! the high bit set on every byte but the last; at most five bytes.
use crate::buffer::{bytes_mut_put_u8, bytes_mut_seq, bytes_seq};
use crate::error::Error;
use crate::ints::read_u8;
use crate::wire::{emit, has_room, read_as, ReadOutcome, WriteOutcome};
use bytes::{Bytes, BytesMut};
use crate::wire::{lemma_took_front_skip, took_front};
use vstd::prelude::*;

verus! {

broadcast use {crate::wire::lemma_took_front_nothing, crate::wire::lemma_took_front_twice};

/// `128` to the power `k`.
pub open spec fn pow128(k: nat) -> int
    decreases k,
{
    if k == 0 {
        1
    } else {
        128 * pow128((k - 1) as nat)
    }
}

/// The encoding of `v`.
pub open spec fn uvarint_bytes(v: u32) -> Seq<u8>
    decreases v,
{
    if v < 128 {
        seq![v as u8]
    } else {
        seq![(v % 128 + 128) as u8] + uvarint_bytes(v / 128)
    }
}

/// Reading a varint whose first `k` bytes (all with the high bit set) gave
/// `acc`, with `s` the input that follows them. The byte that ends the
/// varint adds its value times `128^k`, kept to 32 bits; a fifth byte with
/// the high bit set is an error.
pub open spec fn uvarint_from(s: Seq<u8>, k: nat, acc: int) -> ReadOutcome<u32>
    decreases s.len(),
{
    if s.len() == 0 {
        Err(Error::UnexpectedEof)
    } else if s[0] < 128 {
        Ok((((acc + s[0] * pow128(k)) % 0x1_0000_0000) as u32, s.drop_first()))
    } else if k >= 4 {
        Err(Error::InvalidVarint)
    } else {
        uvarint_from(s.drop_first(), k + 1, acc + (s[0] - 128) * pow128(k))
    }
}

pub open spec fn spec_read_uvarint(s: Seq<u8>) -> ReadOutcome<u32> {
    uvarint_from(s, 0, 0)
}

pub open spec fn spec_write_uvarint(v: u32) -> WriteOutcome {
    emit(uvarint_bytes(v))
}

pub fn read_unsigned_varint(buf: &mut Bytes) -> (r: Result<u32, Error>)
    ensures
        read_as(spec_read_uvarint(bytes_seq(*old(buf))), *final(buf), r),
        took_front(*old(buf), *final(buf)),
{
    let ghost s0 = bytes_seq(*buf);
    let mut k: u32 = 0;
    let mut acc: u32 = 0;
    let mut mult: u32 = 1;
    loop
        invariant
            0 <= k <= 4,
            s0 == bytes_seq(*old(buf)),
            mult == pow128(k as nat),
            0 <= acc < mult,
            uvarint_from(s0, 0, 0) == uvarint_from(bytes_seq(*buf), k as nat, acc as int),
            took_front(*old(buf), *buf),
        decreases 4 - k,
    {
        let ghost s = bytes_seq(*buf);
        let b = read_u8(buf)?;
        proof {
            lemma_pow128_values();
        }
        assert(mult <= 0x1000_0000);
        if b < 128 {
            assert((b as u64) * (mult as u64) <= 127 * 0x1000_0000) by (nonlinear_arith)
                requires
                    b < 128,
                    mult <= 0x1000_0000,
            ;
            let total: u64 = acc as u64 + (b as u64) * (mult as u64);
            return Ok((total % 0x1_0000_0000) as u32);
        }
        if k >= 4 {
            return Err(Error::InvalidVarint);
        }
        assert(mult <= 0x20_0000);
        let d: u32 = (b - 128) as u32;
        assert(d * mult <= 127 * 0x20_0000) by (nonlinear_arith)
            requires
                d <= 127,
                mult <= 0x20_0000,
        ;
        acc = acc + d * mult;
        mult = mult * 128;
        k = k + 1;
    }
}

pub fn write_unsigned_varint(buf: &mut BytesMut, v: u32)
    requires
        has_room(spec_write_uvarint(v), *old(buf)),
    ensures
        bytes_mut_seq(*final(buf)) == bytes_mut_seq(*old(buf)) + uvarint_bytes(v),
{
    let mut w = v;
    while w >= 128
        invariant
            bytes_mut_seq(*buf) + uvarint_bytes(w) == bytes_mut_seq(*old(buf)) + uvarint_bytes(v),
            bytes_mut_seq(*buf).len() + uvarint_bytes(w).len() <= isize::MAX,
        decreases w,
    {
        let ghost before = bytes_mut_seq(*buf);
        let b = (w % 128 + 128) as u8;
        bytes_mut_put_u8(buf, b);
        assert(uvarint_bytes(w) == seq![b] + uvarint_bytes(w / 128));
        assert(bytes_mut_seq(*buf) + uvarint_bytes(w / 128) =~= before + uvarint_bytes(w));
        w = w / 128;
    }
    bytes_mut_put_u8(buf, w as u8);
    assert(bytes_mut_seq(*buf) =~= bytes_mut_seq(*old(buf)) + uvarint_bytes(v));
}

/// The number of bytes in the encoding of `v`.
pub fn unsigned_varint_len(v: u32) -> (r: usize)
    ensures
        r == uvarint_bytes(v).len(),
        1 <= r <= 5,
{
    proof {
        lemma_uvarint_len(v);
    }
    let mut w = v;
    let mut n: usize = 1;
    while w >= 128
        invariant
            n + uvarint_bytes(w).len() == 1 + uvarint_bytes(v).len(),
            uvarint_bytes(v).len() <= 5,
            1 <= n,
        decreases w,
    {
        w = w / 128;
        n = n + 1;
    }
    n
}

pub proof fn lemma_pow128_values()
    ensures
        pow128(0) == 1,
        pow128(1) == 128,
        pow128(2) == 16384,
        pow128(3) == 2097152,
        pow128(4) == 268435456,
{
    reveal_with_fuel(pow128, 5);
}

pub proof fn lemma_uvarint_len(v: u32)
    ensures
        1 <= uvarint_bytes(v).len() <= 5,
        v < 128 ==> uvarint_bytes(v).len() == 1,
{
    reveal_with_fuel(uvarint_bytes, 6);
    if v >= 128 {
        let w1 = v / 128;
        if w1 >= 128 {
            let w2 = w1 / 128;
            if w2 >= 128 {
                let w3 = w2 / 128;
                if w3 >= 128 {
                    let w4 = w3 / 128;
                    assert(w4 < 128);
                }
            }
        }
    }
}

proof fn lemma_uvarint_from_bytes(w: u32, k: nat, acc: int, rest: Seq<u8>)
    requires
        k <= 4,
        0 <= acc < pow128(k),
        acc + w * pow128(k) < 0x1_0000_0000,
    ensures
        uvarint_from(uvarint_bytes(w) + rest, k, acc) == Ok::<(u32, Seq<u8>), Error>(
            ((acc + w * pow128(k)) as u32, rest),
        ),
    decreases w,
{
    lemma_pow128_values();
    let s = uvarint_bytes(w) + rest;
    let p = pow128(k);
    if w < 128 {
        assert(s[0] == w as u8);
        assert(s.drop_first() =~= rest);
        assert(s[0] * p == w * p);
    } else {
        let b = (w % 128 + 128) as u8;
        assert(uvarint_bytes(w) == seq![b] + uvarint_bytes(w / 128));
        assert(s[0] == b);
        assert(s.drop_first() =~= uvarint_bytes(w / 128) + rest);
        assert(w == 128 * (w / 128) + w % 128);
        if k == 0 {
            assert(p == 1);
            lemma_uvarint_from_bytes(w / 128, k + 1, acc + (w % 128), rest);
        } else if k == 1 {
            assert(p == 128);
            assert(w * p == w * 128);
            lemma_uvarint_from_bytes(w / 128, k + 1, acc + (w % 128) * 128, rest);
        } else if k == 2 {
            assert(p == 16384);
            assert(w * p == w * 16384);
            assert(pow128(k + 1) == 2097152);
            assert((w / 128) * pow128(k + 1) == (w / 128) * 2097152);
            lemma_uvarint_from_bytes(w / 128, k + 1, acc + (w % 128) * 16384, rest);
        } else if k == 3 {
            assert(p == 2097152);
            assert(w * p == w * 2097152);
            assert(pow128(k + 1) == 268435456);
            assert((w / 128) * pow128(k + 1) == (w / 128) * 268435456);
            lemma_uvarint_from_bytes(w / 128, k + 1, acc + (w % 128) * 2097152, rest);
        } else {
            assert(p == 268435456);
            assert(w * p == w * 268435456);
            assert(false);
        }
    }
}

/// Reading back what `write_unsigned_varint` wrote gives the value, and
/// leaves what follows.
pub proof fn lemma_uvarint_roundtrip(v: u32, rest: Seq<u8>)
    ensures
        spec_read_uvarint(uvarint_bytes(v) + rest) == Ok::<(u32, Seq<u8>), Error>((v, rest)),
{
    lemma_uvarint_from_bytes(v, 0, 0, rest);
}

} // verus!
