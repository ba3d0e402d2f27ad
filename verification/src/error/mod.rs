//! What can go wrong when a prefix is read.

use vstd::prelude::*;

pub mod serializer_error;

verus! {

/// The ways in which a text fails to be a prefix.
#[derive(Debug, Clone, Copy, PartialEq, Eq, Structural, Hash)]
pub enum Error {
    /// The text is empty or its first character starts no code of the table.
    UnknownPrefixCode,
    /// The text starts with the marker of the four-character codes, and the
    /// three characters behind the marker select nothing.
    UnknownDerivationCode,
    /// The text is not as long as its code demands.
    LengthMismatch,
    /// The body is not URL-safe base64.
    Base64DecodeError,
    /// The body is no timestamp.
    TimestampParseError,
}

} // verus!
