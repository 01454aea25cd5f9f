//! The error kinds a decoding step can report.

use vstd::prelude::*;

verus! {

/// Why a decoding step failed. Every failure is fatal to the current frame.
#[derive(Debug, Clone, Copy, PartialEq, Eq, Structural)]
pub enum DecodeError {
    /// The input slice held fewer bytes than the format requires here.
    InputTruncated,
    /// A block, literals, or sequences header violates its schema.
    MalformedHeader,
    /// An FSE or Huffman table could not be built, or a table to reuse is absent.
    EntropyBuildError,
    /// A reversed bit stream is inconsistent: bad padding or leftover bits.
    BitstreamCorruption,
    /// A back-reference offset is zero or reaches outside the window.
    OffsetOutOfRange,
    /// The decoded literals length differs from the declared regenerated size.
    LiteralCountMismatch,
    /// The frame checksum does not match the decoded content.
    ChecksumMismatch,
}

} // verus!
