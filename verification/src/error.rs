//! The errors that every operation of this crate reports.

use vstd::prelude::*;

verus! {

/// The bytes at hand do not follow the format.
#[derive(Debug, Clone, Copy, PartialEq, Eq, Structural)]
pub enum FormatError {
    /// The input does not begin with the eight signature bytes.
    BadSignature,
    /// Fewer than four bytes were left for a chunk's length field.
    TruncatedLength { available: usize },
    /// After the length field, fewer bytes were left than the type, the
    /// declared amount of data and the checksum take together.
    TruncatedBody { declared: u32, available: usize },
    /// Four bytes offered as a chunk type are not all ASCII letters.
    InvalidTagBytes,
    /// A text offered as a chunk type is not four bytes long.
    InvalidTagLength { actual: usize },
    /// The type field of a chunk read from bytes is not four ASCII letters.
    BadTagBytes,
    /// The checksum stored in a chunk is not the one its type and data give.
    ChecksumMismatch { stored: u32, computed: u32 },
    /// A chunk's data was asked for as text and is not UTF-8.
    NonUtf8Payload,
}

/// The container is well formed, and the request cannot be met on it.
#[derive(Debug, Clone, Copy, PartialEq, Eq, Structural)]
pub enum ContainerError {
    /// No chunk of the container has the type that was asked for.
    TagNotFound,
}

/// Any failure of this crate.
#[derive(Debug, Clone, Copy, PartialEq, Eq, Structural)]
pub enum Error {
    Format(FormatError),
    Container(ContainerError),
}

} // verus!
