//! The error kinds that parsing, lookup and decoding can report.

use vstd::prelude::*;

verus! {

/// Everything that can go wrong while parsing a container or a chunk,
/// looking a chunk up, or decoding a chunk's payload as text.
#[derive(Clone, Copy, Debug, PartialEq, Eq, Structural)]
pub enum PngError {
    /// The buffer does not begin with the fixed 8-byte signature.
    BadSignature,
    /// A chunk record ends before its declared length is reached.
    Truncated,
    /// A chunk type byte is not ASCII alphabetic.
    InvalidChunkType,
    /// A chunk type string is not exactly 4 bytes long.
    InvalidLength,
    /// The stored checksum does not match the one recomputed over type and data.
    CrcMismatch,
    /// A chunk's payload is not valid UTF-8.
    NotUtf8,
    /// No chunk with the requested type exists in the container.
    ChunkNotFound,
}

} // verus!
