//! Why a message could not be read or written.
use vstd::prelude::*;

verus! {

/// A message version that the schema of an API does not cover.
#[derive(Debug, Clone, Copy, PartialEq, Eq)]
pub struct UnsupportedVersion {
    pub api_key: i16,
    pub version: i16,
}

impl UnsupportedVersion {
    pub fn new(api_key: i16, version: i16) -> (r: Self)
        ensures
            r == (UnsupportedVersion { api_key, version }),
    {
        UnsupportedVersion { api_key, version }
    }
}

/// A field that holds a value other than its default in a version that
/// cannot carry it.
#[derive(Debug, Clone, Copy, PartialEq, Eq)]
pub struct UnsupportedFieldVersion {
    pub api_key: i16,
    pub field: &'static str,
    pub version: i16,
}

impl UnsupportedFieldVersion {
    pub fn new(api_key: i16, field: &'static str, version: i16) -> (r: Self)
        ensures
            r == (UnsupportedFieldVersion { api_key, field, version }),
    {
        UnsupportedFieldVersion { api_key, field, version }
    }
}

/// Why a message could not be read or written.
#[derive(Debug, Clone, Copy, PartialEq, Eq)]
pub enum Error {
    /// The input ended before the value did.
    UnexpectedEof,
    /// An unsigned varint ran past five bytes.
    InvalidVarint,
    /// A length prefix that is negative where no null is allowed, or too large.
    InvalidLength,
    /// A null in a field that cannot hold one.
    NullNotAllowed,
    /// A value too long for its length prefix.
    ValueTooLong,
    /// A version outside the range that the message's schema covers.
    UnsupportedVersion(UnsupportedVersion),
    /// A field that holds a value other than its default in a version that
    /// cannot carry it.
    UnsupportedFieldVersion(UnsupportedFieldVersion),
}

} // verus!
