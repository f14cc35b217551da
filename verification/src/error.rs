//! The ways a decode can fail.

use vstd::prelude::*;

verus! {

/// Why a buffer could not be decoded.
///
/// Every error ends the decode call in which it arises; no partial value is
/// handed out.
#[derive(Clone, Copy, Debug, PartialEq, Eq, Structural)]
pub enum DecodeError {
    /// The cursor ran out of input in the middle of a read.
    Truncated,
    /// A compressed payload inflated to a length other than the declared
    /// one.
    CompressionSizeMismatch,
    /// Objects are nested deeper than the recursion budget allows.
    RecursionLimitExceeded,
    /// The compressed payload is not a well-formed zlib stream.
    ZlibError,
}

impl DecodeError {
    /// The text of [`DecodeError::message`], as a sequence of characters.
    pub open spec fn message_text(self) -> Seq<char> {
        match self {
            DecodeError::Truncated => "unexpected end of input"@,
            DecodeError::CompressionSizeMismatch => "compression size mismatch"@,
            DecodeError::RecursionLimitExceeded => "deserializer recursion limit exceeded"@,
            DecodeError::ZlibError => "corrupt zlib stream"@,
        }
    }

    /// A short human-readable description of the error.
    pub fn message(&self) -> (text: &'static str)
        ensures
            text@ == self.message_text(),
    {
        match self {
            DecodeError::Truncated => "unexpected end of input",
            DecodeError::CompressionSizeMismatch => "compression size mismatch",
            DecodeError::RecursionLimitExceeded => "deserializer recursion limit exceeded",
            DecodeError::ZlibError => "corrupt zlib stream",
        }
    }
}

} // verus!
