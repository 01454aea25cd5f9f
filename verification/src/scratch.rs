//! The per-frame scratch: entropy tables, offset history, reusable buffers,
//! and the sliding-window output buffer.

use vstd::prelude::*;

verus! {

use crate::decodebuffer::Decodebuffer;
use crate::fse::FSETable;
use crate::huff0::HuffmanTable;
use crate::sequence_section::Sequence;

/// The Huffman table kept across blocks for Treeless literals sections.
pub struct HuffmanScratch {
    pub table: HuffmanTable,
}

/// The three FSE tables kept across blocks for Repeat mode, each with an
/// optional RLE fallback byte.
pub struct FSEScratch {
    pub offsets: FSETable,
    pub of_rle: Option<u8>,
    pub literal_lengths: FSETable,
    pub ll_rle: Option<u8>,
    pub match_lengths: FSETable,
    pub ml_rle: Option<u8>,
}

impl FSEScratch {
    /// Every table is either not yet built or properly built.
    pub open spec fn tables_ok(&self) -> bool {
        &&& (self.offsets.is_empty_spec() || self.offsets.wf())
        &&& (self.literal_lengths.is_empty_spec() || self.literal_lengths.wf())
        &&& (self.match_lengths.is_empty_spec() || self.match_lengths.wf())
    }
}

/// Everything a frame's block decoding mutates: owned by the frame decoder,
/// borrowed by the block decoder for one block at a time.
pub struct DecoderScratch {
    pub huf: HuffmanScratch,
    pub fse: FSEScratch,
    pub buffer: Decodebuffer,
    pub offset_hist: [u32; 3],
    pub literals_buffer: Vec<u8>,
    pub sequences: Vec<Sequence>,
    pub block_content_buffer: Vec<u8>,
}

impl DecoderScratch {
    /// The state a scratch is in right after `new(window_size)` or
    /// `reset(window_size)`: no entropy tables, the initial offset history,
    /// empty buffers, an empty window of the given size.
    pub open spec fn is_fresh(&self, window_size: int) -> bool {
        &&& self.huf.table.is_empty_spec()
        &&& self.fse.offsets.is_empty_spec()
        &&& self.fse.literal_lengths.is_empty_spec()
        &&& self.fse.match_lengths.is_empty_spec()
        &&& self.fse.of_rle is None
        &&& self.fse.ll_rle is None
        &&& self.fse.ml_rle is None
        &&& self.buffer.view() =~= Seq::<u8>::empty()
        &&& self.buffer.window() == window_size
        &&& self.buffer.emitted() == 0
        &&& self.offset_hist@ =~= seq![1u32, 4u32, 8u32]
        &&& self.literals_buffer@ =~= Seq::<u8>::empty()
        &&& self.sequences@ =~= Seq::<Sequence>::empty()
        &&& self.block_content_buffer@ =~= Seq::<u8>::empty()
    }

    /// The offset history never holds a zero: resolved offsets are positive.
    pub open spec fn hist_positive(&self) -> bool {
        &&& self.offset_hist@.len() == 3
        &&& self.offset_hist@[0] >= 1
        &&& self.offset_hist@[1] >= 1
        &&& self.offset_hist@[2] >= 1
    }

    pub fn new(window_size: usize) -> (r: DecoderScratch)
        ensures
            r.is_fresh(window_size as int),
            r.hist_positive(),
    {
        let r = DecoderScratch {
            huf: HuffmanScratch { table: HuffmanTable::new() },
            fse: FSEScratch {
                offsets: FSETable::new(),
                of_rle: None,
                literal_lengths: FSETable::new(),
                ll_rle: None,
                match_lengths: FSETable::new(),
                ml_rle: None,
            },
            buffer: Decodebuffer::new(window_size),
            offset_hist: [1, 4, 8],
            block_content_buffer: Vec::new(),
            literals_buffer: Vec::new(),
            sequences: Vec::new(),
        };
        r
    }

    /// Returns the scratch to the state of a fresh one: decoding two frames
    /// with a reset between them behaves as two fresh decoders would.
    pub fn reset(&mut self, window_size: usize)
        ensures
            final(self).is_fresh(window_size as int),
            final(self).hist_positive(),
    {
        self.offset_hist = [1, 4, 8];
        self.literals_buffer = Vec::new();
        self.sequences = Vec::new();
        self.block_content_buffer = Vec::new();

        self.buffer.reset(window_size);

        self.fse.literal_lengths.reset();
        self.fse.match_lengths.reset();
        self.fse.offsets.reset();
        self.fse.ll_rle = None;
        self.fse.ml_rle = None;
        self.fse.of_rle = None;

        self.huf.table.reset();
    }
}

/// Scratch reset is equivalent to starting fresh: any two scratches in the
/// fresh state for the same window agree on every component that decoding
/// reads, so the same input decodes identically through both.
pub proof fn lemma_fresh_scratches_agree(a: &DecoderScratch, b: &DecoderScratch, window_size: int)
    requires
        a.is_fresh(window_size),
        b.is_fresh(window_size),
    ensures
        a.offset_hist@ == b.offset_hist@,
        a.buffer.view() == b.buffer.view(),
        a.buffer.window() == b.buffer.window(),
        a.buffer.emitted() == b.buffer.emitted(),
        a.literals_buffer@ == b.literals_buffer@,
        a.sequences@ == b.sequences@,
        a.block_content_buffer@ == b.block_content_buffer@,
        a.huf.table.is_empty_spec() && b.huf.table.is_empty_spec(),
        a.fse.of_rle == b.fse.of_rle,
        a.fse.ll_rle == b.fse.ll_rle,
        a.fse.ml_rle == b.fse.ml_rle,
{
}

} // verus!
