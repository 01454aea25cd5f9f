//! The per-block state machine: header, then Raw, RLE or Compressed body.

use vstd::prelude::*;

verus! {

use crate::errors::DecodeError;
use crate::literals_section::LiteralsSection;
use crate::literals_section::LiteralsSectionType;
use crate::literals_section::spec_header_len;
use crate::literals_section::spec_ls_type;
use crate::literals_section::spec_regenerated_size;
use crate::literals_section_decoder::byte_repeat;
use crate::literals_section_decoder::decode_literals;
use crate::scratch::DecoderScratch;
use crate::sequence_execution::execute_sequences;
use crate::sequence_section::SequencesHeader;
use crate::sequence_section_decoder::decode_sequences;

/// The four block types of the frame format.
#[derive(Clone, Copy, Debug, PartialEq, Eq, Structural)]
pub enum BlockType {
    Raw,
    RLE,
    Compressed,
    Reserved,
}

/// A parsed block header. `content_size` is the bytes the block body takes in
/// the input; `decompressed_size` the bytes it regenerates, 0 for Compressed
/// where it is only discovered during decoding.
#[derive(Clone, Copy, Debug, PartialEq, Eq, Structural)]
pub struct BlockHeader {
    pub last_block: bool,
    pub block_type: BlockType,
    pub content_size: u32,
    pub decompressed_size: u32,
}

/// The state machine: headers and bodies strictly alternate; any error is
/// terminal.
#[derive(Clone, Copy, Debug, PartialEq, Eq, Structural)]
enum DecoderState {
    ReadyToDecodeNextHeader,
    ReadyToDecodeNextBody,
    Failed,
}

/// Decodes one block at a time against a borrowed scratch.
pub struct BlockDecoder {
    header_buffer: [u8; 3],
    internal_state: DecoderState,
}

/// The largest block content size the format allows.
pub const ABSOLUTE_MAXIMUM_BLOCK_SIZE: u32 = 0x20000;

pub fn new() -> (r: BlockDecoder)
    ensures
        r.ready_for_header(),
{
    BlockDecoder {
        internal_state: DecoderState::ReadyToDecodeNextHeader,
        header_buffer: [0, 0, 0],
    }
}

/// The block type encoded in a header's first byte, bits 2:1.
pub open spec fn spec_block_type(b0: u8) -> BlockType {
    let t = (b0 >> 1) & 3;
    if t == 0 {
        BlockType::Raw
    } else if t == 1 {
        BlockType::RLE
    } else if t == 2 {
        BlockType::Compressed
    } else {
        BlockType::Reserved
    }
}

/// The block size encoded in a header: bits 23:3 of the three bytes,
/// little-endian.
pub open spec fn spec_block_size(b0: u8, b1: u8, b2: u8) -> int {
    (b0 >> 3) + b1 * 0x20 + b2 * 0x2000
}

/// Whether a block header is acceptable: not reserved, size within the cap.
pub open spec fn spec_header_ok(b0: u8, b1: u8, b2: u8) -> bool {
    &&& spec_block_type(b0) != BlockType::Reserved
    &&& spec_block_size(b0, b1, b2) <= ABSOLUTE_MAXIMUM_BLOCK_SIZE
}

/// The header a valid 3-byte block header parses to.
pub open spec fn spec_parsed_header(b0: u8, b1: u8, b2: u8) -> BlockHeader {
    let t = spec_block_type(b0);
    let size = spec_block_size(b0, b1, b2) as u32;
    BlockHeader {
        last_block: b0 & 1 == 1,
        block_type: t,
        content_size: if t == BlockType::RLE {
            1u32
        } else {
            size
        },
        decompressed_size: if t == BlockType::Compressed {
            0u32
        } else {
            size
        },
    }
}

impl BlockDecoder {
    pub closed spec fn ready_for_header(&self) -> bool {
        self.internal_state == DecoderState::ReadyToDecodeNextHeader
    }

    pub closed spec fn ready_for_body(&self) -> bool {
        self.internal_state == DecoderState::ReadyToDecodeNextBody
    }

    /// Parses the 3-byte block header at the start of `source`. On success
    /// the decoder expects the block body next; any failure is terminal.
    pub fn read_block_header(&mut self, source: &[u8]) -> (r: Result<BlockHeader, DecodeError>)
        requires
            old(self).ready_for_header(),
        ensures
            source@.len() >= 3 && spec_header_ok(source@[0], source@[1], source@[2]) ==> r == Ok::<
                BlockHeader,
                DecodeError,
            >(spec_parsed_header(source@[0], source@[1], source@[2])) && final(self).ready_for_body(),
            source@.len() < 3 ==> r == Err::<BlockHeader, DecodeError>(DecodeError::InputTruncated),
            source@.len() >= 3 && spec_block_type(source@[0]) == BlockType::Reserved ==> r == Err::<
                BlockHeader,
                DecodeError,
            >(DecodeError::MalformedHeader),
            source@.len() >= 3 && spec_block_type(source@[0]) != BlockType::Reserved
                && spec_block_size(source@[0], source@[1], source@[2])
                > ABSOLUTE_MAXIMUM_BLOCK_SIZE ==> r == Err::<BlockHeader, DecodeError>(
                DecodeError::MalformedHeader,
            ),
            r matches Ok(h) ==> h.content_size <= ABSOLUTE_MAXIMUM_BLOCK_SIZE
                && h.decompressed_size <= ABSOLUTE_MAXIMUM_BLOCK_SIZE,
    {
        if source.len() < 3 {
            self.internal_state = DecoderState::Failed;
            return Err(DecodeError::InputTruncated);
        }
        self.header_buffer = [source[0], source[1], source[2]];
        let b0 = source[0];

        let t = (b0 >> 1) & 3;
        proof {
            assert((b0 >> 1) & 3 <= 3) by (bit_vector);
            assert(b0 >> 3 < 32) by (bit_vector);
        }
        let btype = if t == 0 {
            BlockType::Raw
        } else if t == 1 {
            BlockType::RLE
        } else if t == 2 {
            BlockType::Compressed
        } else {
            self.internal_state = DecoderState::Failed;
            return Err(DecodeError::MalformedHeader);
        };

        let block_size = self.block_content_size_unchecked();
        if block_size > ABSOLUTE_MAXIMUM_BLOCK_SIZE {
            self.internal_state = DecoderState::Failed;
            return Err(DecodeError::MalformedHeader);
        }

        let decompressed_size = match btype {
            BlockType::Raw => block_size,
            BlockType::RLE => block_size,
            BlockType::Reserved => 0,
            BlockType::Compressed => 0,
        };
        let content_size = match btype {
            BlockType::Raw => block_size,
            BlockType::Compressed => block_size,
            BlockType::RLE => 1,
            BlockType::Reserved => 0,
        };
        let last_block = self.is_last();

        self.reset_buffer();
        self.internal_state = DecoderState::ReadyToDecodeNextBody;

        Ok(BlockHeader { last_block, block_type: btype, decompressed_size, content_size })
    }

    fn reset_buffer(&mut self)
        ensures
            final(self).header_buffer@ =~= seq![0u8, 0u8, 0u8],
            final(self).internal_state == old(self).internal_state,
    {
        self.header_buffer = [0, 0, 0];
    }

    fn is_last(&self) -> (r: bool)
        requires
            self.header_buffer@.len() == 3,
        ensures
            r == (self.header_buffer@[0] & 1 == 1),
    {
        self.header_buffer[0] & 0x1 == 1
    }

    fn block_content_size_unchecked(&self) -> (r: u32)
        requires
            self.header_buffer@.len() == 3,
        ensures
            r == spec_block_size(self.header_buffer@[0], self.header_buffer@[1], self.header_buffer@[2]),
    {
        let b0 = self.header_buffer[0];
        proof {
            assert(b0 >> 3 < 32) by (bit_vector);
        }
        ((b0 >> 3) as u32) + (self.header_buffer[1] as u32) * 0x20 + (self.header_buffer[2] as u32)
            * 0x2000
    }

    /// Decodes one block body from the start of `source`, appending its
    /// output to the scratch's buffer. Returns the bytes consumed: the
    /// header's content size, or 1 for an RLE block. The block's output never
    /// exceeds the window size capped at 128 KiB.
    pub fn decode_block_content(
        &mut self,
        header: &BlockHeader,
        workspace: &mut DecoderScratch,
        source: &[u8],
    ) -> (r: Result<usize, DecodeError>)
        requires
            old(self).ready_for_body(),
            old(workspace).hist_positive(),
            old(workspace).fse.tables_ok(),
            old(workspace).huf.table.is_empty_spec() || old(workspace).huf.table.wf(),
            old(workspace).buffer.view().len() + 0x500000 < usize::MAX,
            header.content_size <= ABSOLUTE_MAXIMUM_BLOCK_SIZE,
            header.decompressed_size <= ABSOLUTE_MAXIMUM_BLOCK_SIZE,
        ensures
            final(workspace).hist_positive(),
            final(workspace).fse.tables_ok(),
            final(workspace).huf.table.is_empty_spec() || final(workspace).huf.table.wf(),
            final(workspace).buffer.window() == old(workspace).buffer.window(),
            old(workspace).buffer.window_holds() ==> final(workspace).buffer.window_holds(),
            final(workspace).buffer.view().len() >= old(workspace).buffer.view().len(),
            // output is append-only: bytes already present stay in place
            final(workspace).buffer.view().subrange(0, old(workspace).buffer.view().len() as int)
                =~= old(workspace).buffer.view(),
            r matches Ok(n) ==> final(self).ready_for_header() && n <= source@.len(),
            // a block's output is bounded by the window, capped at 128 KiB
            r is Ok ==> final(workspace).buffer.view().len() <= old(workspace).buffer.view().len()
                + crate::sequence_execution::spec_block_output_cap(old(workspace).buffer.window()),
            r is Ok && header.block_type == BlockType::Raw ==> final(workspace).buffer.view()
                =~= old(workspace).buffer.view() + source@.subrange(
                0,
                header.content_size as int,
            ) && r == Ok::<usize, DecodeError>(header.content_size as usize),
            r is Ok && header.block_type == BlockType::RLE ==> final(workspace).buffer.view()
                =~= old(workspace).buffer.view() + byte_repeat(
                source@[0],
                header.decompressed_size as nat,
            ) && r == Ok::<usize, DecodeError>(1usize),
            // a whole raw block that fits the window always decodes
            (header.block_type == BlockType::Raw && source@.len() >= header.content_size
                && header.content_size <= crate::sequence_execution::spec_block_output_cap(
                old(workspace).buffer.window(),
            )) ==> r is Ok,
            // an RLE block whose byte is present and whose size fits decodes
            (header.block_type == BlockType::RLE && source@.len() >= 1
                && header.decompressed_size <= crate::sequence_execution::spec_block_output_cap(
                old(workspace).buffer.window(),
            )) ==> r is Ok,
            // a compressed block of raw literals and no sequences appends them
            (r is Ok && header.block_type == BlockType::Compressed && header.content_size
                <= source@.len() && spec_ls_type(source@[0]) == LiteralsSectionType::Raw
                && header.content_size == spec_header_len(source@[0]) + spec_regenerated_size(
                source@.subrange(0, header.content_size as int),
            ) + 1 && source@[header.content_size - 1] == 0) ==> final(workspace).buffer.view()
                =~= old(workspace).buffer.view() + source@.subrange(
                spec_header_len(source@[0]),
                header.content_size - 1,
            ),
            // ... and such a block, fitting the output cap, always decodes
            (header.block_type == BlockType::Compressed && header.content_size <= source@.len()
                && spec_ls_type(source@[0]) == LiteralsSectionType::Raw && header.content_size
                == spec_header_len(source@[0]) + spec_regenerated_size(
                source@.subrange(0, header.content_size as int),
            ) + 1 && source@[header.content_size - 1] == 0 && spec_regenerated_size(
                source@.subrange(0, header.content_size as int),
            ) <= crate::sequence_execution::spec_block_output_cap(old(workspace).buffer.window()))
                ==> r is Ok,
    {
        match self.internal_state {
            DecoderState::ReadyToDecodeNextBody => {},
            _ => {
                return Err(DecodeError::MalformedHeader);
            },
        }

        let window = workspace.buffer.get_window_size();
        let cap: usize = if window < 0x20000 {
            window
        } else {
            0x20000
        };

        match header.block_type {
            BlockType::RLE => {
                if source.len() < 1 {
                    self.internal_state = DecoderState::Failed;
                    return Err(DecodeError::InputTruncated);
                }
                let n = header.decompressed_size as usize;
                if n > cap {
                    self.internal_state = DecoderState::Failed;
                    return Err(DecodeError::MalformedHeader);
                }
                let b = source[0];
                let mut i: usize = 0;
                while i < n
                    invariant
                        i <= n,
                        old(workspace).buffer.view().len() + n < usize::MAX,
                        workspace.buffer.view() =~= old(workspace).buffer.view() + byte_repeat(
                            b,
                            i as nat,
                        ),
                        workspace.buffer.window() == old(workspace).buffer.window(),
                        old(workspace).buffer.window_holds()
                            ==> workspace.buffer.window_holds(),
                        workspace.hist_positive(),
                        workspace.fse == old(workspace).fse,
                        workspace.huf == old(workspace).huf,
                    decreases n - i,
                {
                    workspace.buffer.push_byte(b);
                    i = i + 1;
                }
                self.internal_state = DecoderState::ReadyToDecodeNextHeader;
                Ok(1)
            },
            BlockType::Raw => {
                let n = header.content_size as usize;
                if source.len() < n {
                    self.internal_state = DecoderState::Failed;
                    return Err(DecodeError::InputTruncated);
                }
                if n > cap {
                    self.internal_state = DecoderState::Failed;
                    return Err(DecodeError::MalformedHeader);
                }
                let data = vstd::slice::slice_subrange(source, 0, n);
                workspace.buffer.push(data);
                self.internal_state = DecoderState::ReadyToDecodeNextHeader;
                Ok(n)
            },
            BlockType::Reserved => {
                self.internal_state = DecoderState::Failed;
                Err(DecodeError::MalformedHeader)
            },
            BlockType::Compressed => {
                let n = match self.decompress_block(header, workspace, source) {
                    Ok(n) => n,
                    Err(e) => {
                        self.internal_state = DecoderState::Failed;
                        return Err(e);
                    },
                };
                self.internal_state = DecoderState::ReadyToDecodeNextHeader;
                Ok(n)
            },
        }
    }

    /// Decodes a Compressed block: literals section, sequences section, then
    /// sequence execution against the output buffer.
    fn decompress_block(
        &mut self,
        header: &BlockHeader,
        workspace: &mut DecoderScratch,
        source: &[u8],
    ) -> (r: Result<usize, DecodeError>)
        requires
            old(workspace).hist_positive(),
            old(workspace).fse.tables_ok(),
            old(workspace).huf.table.is_empty_spec() || old(workspace).huf.table.wf(),
            old(workspace).buffer.view().len() + 0x500000 < usize::MAX,
            header.content_size <= ABSOLUTE_MAXIMUM_BLOCK_SIZE,
        ensures
            final(workspace).hist_positive(),
            final(workspace).fse.tables_ok(),
            final(workspace).huf.table.is_empty_spec() || final(workspace).huf.table.wf(),
            final(workspace).buffer.window() == old(workspace).buffer.window(),
            old(workspace).buffer.window_holds() ==> final(workspace).buffer.window_holds(),
            final(workspace).buffer.view().len() >= old(workspace).buffer.view().len(),
            // output is append-only: bytes already present stay in place
            final(workspace).buffer.view().subrange(0, old(workspace).buffer.view().len() as int)
                =~= old(workspace).buffer.view(),
            r matches Ok(n) ==> n == header.content_size && n <= source@.len(),
            r is Ok ==> final(workspace).buffer.view().len() <= old(workspace).buffer.view().len()
                + crate::sequence_execution::spec_block_output_cap(old(workspace).buffer.window()),
            // a block of raw literals and no sequences appends those bytes
            (r is Ok && header.content_size <= source@.len() && spec_ls_type(source@[0])
                == LiteralsSectionType::Raw && header.content_size == spec_header_len(source@[0])
                + spec_regenerated_size(source@.subrange(0, header.content_size as int)) + 1
                && source@[header.content_size - 1] == 0) ==> final(workspace).buffer.view()
                =~= old(workspace).buffer.view() + source@.subrange(
                spec_header_len(source@[0]),
                header.content_size - 1,
            ),
            // ... and such a block, fitting the output cap, always decodes
            (header.content_size <= source@.len() && spec_ls_type(source@[0])
                == LiteralsSectionType::Raw && header.content_size == spec_header_len(source@[0])
                + spec_regenerated_size(source@.subrange(0, header.content_size as int)) + 1
                && source@[header.content_size - 1] == 0 && spec_regenerated_size(
                source@.subrange(0, header.content_size as int),
            ) <= crate::sequence_execution::spec_block_output_cap(old(workspace).buffer.window()))
                ==> r is Ok,
    {
        let content_size = header.content_size as usize;
        if source.len() < content_size {
            return Err(DecodeError::InputTruncated);
        }
        let raw = vstd::slice::slice_subrange(source, 0, content_size);

        let window = workspace.buffer.get_window_size();
        let cap: usize = if window < 0x20000 {
            window
        } else {
            0x20000
        };
        let buffer_start = workspace.buffer.len();

        // literals section
        let mut section = LiteralsSection::new();
        let bytes_in_literals_header = match section.parse_from_header(raw) {
            Ok(n) => n as usize,
            Err(e) => { return Err(e) },
        };
        if bytes_in_literals_header > raw.len() {
            return Err(DecodeError::InputTruncated);
        }
        let raw = vstd::slice::slice_subrange(raw, bytes_in_literals_header, raw.len());

        let upper_limit_for_literals: usize = match section.compressed_size {
            Some(x) => x as usize,
            None => {
                match section.ls_type {
                    LiteralsSectionType::RLE => 1,
                    LiteralsSectionType::Raw => section.regenerated_size as usize,
                    _ => { return Err(DecodeError::MalformedHeader) },
                }
            },
        };
        if raw.len() < upper_limit_for_literals {
            return Err(DecodeError::InputTruncated);
        }
        if section.regenerated_size > 0x100000 {
            return Err(DecodeError::MalformedHeader);
        }
        let raw_literals = vstd::slice::slice_subrange(raw, 0, upper_limit_for_literals);

        workspace.literals_buffer.clear();
        let bytes_used_in_literals_section = match decode_literals(
            &section,
            &mut workspace.huf,
            raw_literals,
            &mut workspace.literals_buffer,
        ) {
            Ok(n) => n as usize,
            Err(e) => { return Err(e) },
        };
        if bytes_used_in_literals_section != upper_limit_for_literals {
            return Err(DecodeError::MalformedHeader);
        }
        let raw = vstd::slice::slice_subrange(raw, upper_limit_for_literals, raw.len());

        // sequences section
        let mut seq_section = SequencesHeader::new();
        let bytes_in_sequence_header = match seq_section.parse_from_header(raw) {
            Ok(n) => n as usize,
            Err(e) => { return Err(e) },
        };
        if bytes_in_sequence_header > raw.len() {
            return Err(DecodeError::InputTruncated);
        }
        let raw = vstd::slice::slice_subrange(raw, bytes_in_sequence_header, raw.len());

        if seq_section.num_sequences != 0 {
            match decode_sequences(&seq_section, raw, &mut workspace.fse, &mut workspace.sequences)
            {
                Ok(()) => {},
                Err(e) => { return Err(e) },
            }
            match execute_sequences(workspace) {
                Ok(()) => {},
                Err(e) => { return Err(e) },
            }
        } else {
            let lits = workspace.literals_buffer.as_slice();
            workspace.buffer.push(lits);
            workspace.sequences.clear();
            proof {
                if spec_ls_type(source@[0]) == LiteralsSectionType::Raw && content_size
                    == spec_header_len(source@[0]) + spec_regenerated_size(
                    source@.subrange(0, content_size as int),
                ) + 1 && source@[content_size - 1] == 0 {
                    let hl = spec_header_len(source@[0]);
                    let regen = spec_regenerated_size(source@.subrange(0, content_size as int));
                    assert(workspace.literals_buffer@ =~= source@.subrange(hl, hl + regen));
                    assert(workspace.buffer.view() =~= old(workspace).buffer.view()
                        + source@.subrange(hl, content_size - 1));
                }
            }
        }

        // the regenerated block may not exceed the window, capped at 128 KiB
        if workspace.buffer.len() < buffer_start {
            return Err(DecodeError::MalformedHeader);
        }
        if workspace.buffer.len() - buffer_start > cap {
            return Err(DecodeError::MalformedHeader);
        }

        Ok(content_size)
    }
}

} // verus!
