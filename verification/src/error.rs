//! Errors of the library.
use vstd::prelude::*;

verus! {

/// Why a request could not be serialized.
#[derive(Debug, Clone, Copy, PartialEq, Eq, Structural)]
pub enum Error {
    /// A string, a byte string or a whole packet would be longer than
    /// `u32::MAX` bytes, which its 4-byte length cannot express.
    TooLong,
    /// The data of a write request is longer than `u32::MAX` bytes.
    BufferTooLong,
}

impl Error {
    /// A description of the error.
    pub fn message(&self) -> (r: &'static str)
        ensures
            r@ == match self {
                Error::TooLong => "Bytes must not be larger than u32::MAX"@,
                Error::BufferTooLong => "Buffer is longer than u32::MAX"@,
            },
    {
        match self {
            Error::TooLong => "Bytes must not be larger than u32::MAX",
            Error::BufferTooLong => "Buffer is longer than u32::MAX",
        }
    }
}

} // verus!
