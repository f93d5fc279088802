//! The value types that messages are built from.
use crate::buffer::{bytes_empty, bytes_from_vec, bytes_remaining, bytes_seq};
use crate::wire::ViewClone;
use bytes::Bytes;
use vstd::prelude::*;

verus! {

/// A protocol string: its bytes as they stand on the wire.
#[derive(Debug, PartialEq, Eq)]
pub struct KafkaString {
    bytes: Bytes,
}

impl View for KafkaString {
    type V = Seq<u8>;

    closed spec fn view(&self) -> Seq<u8> {
        bytes_seq(self.bytes)
    }
}

impl KafkaString {
    pub fn from_bytes(bytes: Bytes) -> (r: Self)
        ensures
            r@ == bytes_seq(bytes),
    {
        KafkaString { bytes }
    }

    pub fn from_vec(v: Vec<u8>) -> (r: Self)
        ensures
            r@ == v@,
    {
        KafkaString { bytes: bytes_from_vec(v) }
    }

    pub fn as_bytes(&self) -> (r: &Bytes)
        ensures
            bytes_seq(*r) == self@,
    {
        &self.bytes
    }

    pub fn len(&self) -> (r: usize)
        ensures
            r == self@.len(),
    {
        bytes_remaining(&self.bytes)
    }

    pub fn is_empty(&self) -> (r: bool)
        ensures
            r == (self@.len() == 0),
    {
        bytes_remaining(&self.bytes) == 0
    }
}

impl Clone for KafkaString {
    fn clone(&self) -> (r: Self)
        ensures
            r@ == self@,
    {
        KafkaString { bytes: self.bytes.clone() }
    }
}

impl Default for KafkaString {
    fn default() -> (r: Self)
        ensures
            r@ == Seq::<u8>::empty(),
    {
        KafkaString { bytes: bytes_empty() }
    }
}

/// A 128-bit identifier, sent as its most significant 64 bits followed by
/// its least significant 64 bits.
#[derive(Debug, Clone, Copy, PartialEq, Eq, Hash)]
pub struct KafkaUuid {
    pub most_significant_bits: u64,
    pub least_significant_bits: u64,
}

impl View for KafkaUuid {
    type V = KafkaUuid;

    open spec fn view(&self) -> KafkaUuid {
        *self
    }
}

/// Whether `u` is the all-zero identifier.
pub open spec fn uuid_is_nil(u: KafkaUuid) -> bool {
    u.most_significant_bits == 0 && u.least_significant_bits == 0
}

impl KafkaUuid {
    /// The all-zero identifier, which stands for "no identifier".
    pub fn zero() -> (r: Self)
        ensures
            r == (KafkaUuid { most_significant_bits: 0, least_significant_bits: 0 }),
    {
        KafkaUuid { most_significant_bits: 0, least_significant_bits: 0 }
    }

    pub fn is_nil(&self) -> (r: bool)
        ensures
            r == uuid_is_nil(*self),
    {
        self.most_significant_bits == 0 && self.least_significant_bits == 0
    }
}

/// A tagged field as it stands on the wire: its tag and its payload.
#[derive(Debug, PartialEq, Eq)]
pub struct RawTaggedField {
    pub tag: u32,
    pub data: Bytes,
}

impl View for RawTaggedField {
    type V = (u32, Seq<u8>);

    open spec fn view(&self) -> (u32, Seq<u8>) {
        (self.tag, bytes_seq(self.data))
    }
}

impl Clone for RawTaggedField {
    fn clone(&self) -> (r: Self)
        ensures
            r@ == self@,
    {
        RawTaggedField { tag: self.tag, data: self.data.clone() }
    }
}

impl ViewClone for KafkaString {
    fn clone_view(&self) -> (r: Self) {
        self.clone()
    }
}

impl ViewClone for RawTaggedField {
    fn clone_view(&self) -> (r: Self) {
        self.clone()
    }
}

} // verus!
