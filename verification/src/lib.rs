//! A verified block-level decoder for the Zstandard frame format.
//!
//! The crate decodes zstd frames from in-memory byte slices: block headers,
//! literals (raw, RLE, Huffman over one or four reversed bit streams),
//! sequences (three coupled FSE decoders), and sequence execution against a
//! sliding-window output buffer with three rotating repeat offsets.

pub mod bits;
pub mod block_decoder;
pub mod decodebuffer;
pub mod errors;
pub mod frame;
pub mod frame_decoder;
pub mod fse;
pub mod huff0;
pub mod literals_section;
pub mod literals_section_decoder;
pub mod scratch;
pub mod sequence_execution;
pub mod sequence_section;
pub mod sequence_section_decoder;
