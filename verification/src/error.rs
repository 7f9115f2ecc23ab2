//! The closed set of decode failure kinds. Every failure of the codec, the
//! frame layer or the packet layer is one of these; none of them panics the
//! process.

use vstd::prelude::*;

verus! {

/// A failure while decoding bytes into a value.
///
/// Each variant carries enough context for diagnostics: attempted and
/// available byte counts for truncated reads, declared and maximum lengths
/// for size-limit violations, the offending raw bytes for encoding errors,
/// and the offending numeric id for unknown discriminants.
#[derive(Debug, Clone, PartialEq, Eq)]
pub enum BufReadError {
    /// A variable-length 32-bit integer could not be read.
    InvalidVarInt,
    /// A variable-length 64-bit integer could not be read.
    InvalidVarLong,
    /// A raw byte read failed.
    CouldNotReadBytes,
    /// A string's declared byte length exceeds the allowed maximum.
    StringLengthTooLong { length: u32, max_length: u32 },
    /// A sequence's declared element count exceeds the allowed maximum.
    VecLengthTooLong { length: u32, max_length: u32 },
    /// The decoded bytes are not valid UTF-8; carries the raw bytes and a
    /// lossy preview for diagnostics.
    InvalidUtf8 { bytes: Vec<u8>, lossy: String },
    /// A closed enumeration was sent a numeric id outside its range.
    UnexpectedEnumVariant { id: i32 },
    /// A closed enumeration was sent a textual id outside its range.
    UnexpectedStringEnumVariant { id: String },
    /// More bytes were requested than the buffer still holds.
    UnexpectedEof { attempted_read: usize, actual_read: usize },
    /// A failure with a free-form description.
    Custom(String),
    /// A nested self-describing tag structure could not be read.
    Nbt,
}

} // verus!
