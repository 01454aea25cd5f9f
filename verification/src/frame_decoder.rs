//! The frame decoder: drives blocks to completion over an in-memory byte
//! stream and owns the per-frame scratch.

use vstd::prelude::*;

verus! {

use crate::block_decoder;
use crate::block_decoder::BlockType;
use crate::errors::DecodeError;
use crate::frame::Frame;
use crate::frame::read_frame_header;
use crate::scratch::DecoderScratch;

/// The body length of the block whose 3-byte header starts the slice: one
/// byte for RLE, the announced content size otherwise.
pub open spec fn spec_first_body_len(s: Seq<u8>) -> int {
    if crate::block_decoder::spec_block_type(s[0]) == BlockType::RLE {
        1
    } else {
        crate::block_decoder::spec_block_size(s[0], s[1], s[2])
    }
}

/// Whether the slice starts with a whole, valid raw block that fits the
/// window, final or not.
pub open spec fn spec_starts_with_raw_block(s: Seq<u8>, window: int) -> bool {
    &&& s.len() >= 3
    &&& crate::block_decoder::spec_header_ok(s[0], s[1], s[2])
    &&& crate::block_decoder::spec_block_type(s[0]) == crate::block_decoder::BlockType::Raw
    &&& 3 + crate::block_decoder::spec_block_size(s[0], s[1], s[2]) <= s.len()
    &&& crate::block_decoder::spec_block_size(s[0], s[1], s[2]) <= window
}

/// Whether the slice starts with a whole, valid, final raw block that fits
/// the window: the simplest input a frame can end with.
pub open spec fn spec_starts_with_last_raw_block(s: Seq<u8>, window: int) -> bool {
    &&& spec_starts_with_raw_block(s, window)
    &&& s[0] & 1 == 1
}

/// How many blocks one `decode_blocks` call decodes before returning.
pub enum BlockDecodingStrategy {
    /// Until the frame's last block.
    All,
    /// At most this many blocks in this call.
    UptoBlocks(usize),
    /// Until at least this many new output bytes, or the last block.
    UptoBytes(usize),
}

/// Decodes one frame from byte slices handed in incrementally. Whole blocks
/// only: input a call does not consume is handed in again on the next call.
pub struct FrameDecoder {
    pub frame: Frame,
    decoder_scratch: DecoderScratch,
    frame_finished: bool,
    block_counter: usize,
    checksum_pending: bool,
    failed: Option<DecodeError>,
}

impl FrameDecoder {
    /// The internal consistency every method keeps: sane entropy tables, a
    /// strictly positive offset history, a bounded window.
    pub closed spec fn wf(&self) -> bool {
        &&& self.decoder_scratch.fse.tables_ok()
        &&& (self.decoder_scratch.huf.table.is_empty_spec() || self.decoder_scratch.huf.table.wf())
        &&& self.decoder_scratch.hist_positive()
        &&& self.frame.wf()
        &&& self.decoder_scratch.buffer.window() == self.frame.window_size
    }

    /// Whether the frame's last block (and its checksum, if any) is done.
    pub closed spec fn finished_spec(&self) -> bool {
        self.frame_finished
    }

    /// Whether the last block is decoded but its checksum bytes still owed.
    pub closed spec fn awaiting_checksum(&self) -> bool {
        self.checksum_pending
    }

    /// The error that ended this frame, if one did: errors are fatal, and
    /// later calls report the same error without advancing.
    pub closed spec fn failure(&self) -> Option<DecodeError> {
        self.failed
    }

    /// Whether the frame header asked for a content checksum.
    pub closed spec fn checksum_flag(&self) -> bool {
        self.frame.content_checksum
    }

    /// How many blocks this decoder has decoded so far.
    pub closed spec fn blocks_count(&self) -> int {
        self.block_counter as int
    }

    /// The decoded bytes not yet drained.
    pub closed spec fn buffered(&self) -> Seq<u8> {
        self.decoder_scratch.buffer.view()
    }

    /// The frame's window size.
    pub closed spec fn window(&self) -> int {
        self.frame.window_size as int
    }

    /// The buffer keeps at least a window of history while the frame runs.
    pub closed spec fn window_holds(&self) -> bool {
        self.decoder_scratch.buffer.window_holds()
    }

    /// Reads and validates the frame header at the start of `source` and sets
    /// up a fresh scratch for the frame's window size. Returns the decoder
    /// and the bytes consumed.
    pub fn new(source: &[u8]) -> (r: Result<(FrameDecoder, usize), DecodeError>)
        ensures
            r matches Ok(p) ==> {
                &&& p.1 <= source@.len()
                &&& p.0.wf()
                &&& !p.0.finished_spec()
                &&& p.0.failure() is None
                &&& p.0.blocks_count() == 0
                &&& p.0.buffered() =~= Seq::<u8>::empty()
                &&& p.0.window_holds()
            },
            // a plain header (zero descriptor) pins the decoder's setup
            (source@.len() >= 6 && crate::frame::spec_le32(source@, 0) == crate::frame::ZSTD_MAGIC
                && source@[4] == 0) ==> (if crate::frame::spec_window_size(source@[5])
                > crate::frame::MAX_WINDOW_SIZE {
                r is Err
            } else {
                r matches Ok(p) && p.1 == 6 && p.0.window() == crate::frame::spec_window_size(
                    source@[5],
                ) && !p.0.checksum_flag()
            }),
            // the same with the content-checksum flag set
            (source@.len() >= 6 && crate::frame::spec_le32(source@, 0) == crate::frame::ZSTD_MAGIC
                && source@[4] == 4) ==> (if crate::frame::spec_window_size(source@[5])
                > crate::frame::MAX_WINDOW_SIZE {
                r is Err
            } else {
                r matches Ok(p) && p.1 == 6 && p.0.window() == crate::frame::spec_window_size(
                    source@[5],
                ) && p.0.checksum_flag()
            }),
    {
        let (frame, consumed) = match read_frame_header(source) {
            Ok(p) => p,
            Err(e) => { return Err(e) },
        };
        let window_size = frame.window_size as usize;
        let decoder = FrameDecoder {
            frame,
            frame_finished: false,
            block_counter: 0,
            checksum_pending: false,
            failed: None,
            decoder_scratch: DecoderScratch::new(window_size),
        };
        Ok((decoder, consumed))
    }

    pub fn is_finished(&self) -> (r: bool)
        ensures
            r == self.finished_spec(),
    {
        self.frame_finished
    }

    pub fn blocks_decoded(&self) -> (r: usize)
        ensures
            r == self.blocks_count(),
    {
        self.block_counter
    }

    /// Decodes whole blocks from the start of `source` until the strategy is
    /// satisfied, the frame ends, or the next block does not fit in `source`.
    /// Returns whether the frame is finished and how many bytes were
    /// consumed; unconsumed bytes must be handed in again.
    pub fn decode_blocks(&mut self, source: &[u8], strat: BlockDecodingStrategy) -> (r: Result<
        (bool, usize),
        DecodeError,
    >)
        requires
            old(self).wf(),
        ensures
            final(self).wf(),
            old(self).window_holds() ==> final(self).window_holds(),
            r matches Ok(p) ==> p.1 <= source@.len() && p.0 == final(self).finished_spec(),
            old(self).finished_spec() ==> final(self).finished_spec(),
            final(self).buffered().len() >= old(self).buffered().len(),
            // output is append-only: bytes already buffered stay in place
            final(self).buffered().subrange(0, old(self).buffered().len() as int) =~= old(
                self,
            ).buffered(),
            final(self).blocks_count() >= old(self).blocks_count(),
            // progress: when a whole valid block stands ready, it is consumed
            r matches Ok(p) ==> ((old(self).failure() is None && !old(self).finished_spec()
                && !old(self).awaiting_checksum()
                && old(self).buffered().len() < usize::MAX - 0x600000 && source@.len() >= 3
                && crate::block_decoder::spec_header_ok(source@[0], source@[1], source@[2]) && 3
                + spec_first_body_len(source@) <= source@.len()) ==> p.1 > 0),
            // any leading whole raw block is consumed and its payload lands
            // in the buffer, wherever the call stops afterwards
            r matches Ok(p) ==> ((old(self).failure() is None && !old(self).finished_spec()
                && !old(self).awaiting_checksum()
                && old(self).buffered().len() < usize::MAX - 0x700000
                && spec_starts_with_raw_block(source@, old(self).window())) ==> (p.1 >= 3
                + spec_first_body_len(source@) && final(self).buffered().len()
                >= old(self).buffered().len() + spec_first_body_len(source@) && final(self).buffered().subrange(
                old(self).buffered().len() as int,
                old(self).buffered().len() + spec_first_body_len(source@),
            ) =~= source@.subrange(3, 3 + spec_first_body_len(source@)))),
            // success is owed on a whole, valid, final raw block: the frame
            // finishes and the block's bytes land in the buffer
            ((old(self).failure() is None && !old(self).finished_spec()
                && !old(self).awaiting_checksum() && !old(self).checksum_flag()
                && old(self).buffered().len() < usize::MAX - 0x700000
                && spec_starts_with_last_raw_block(source@, old(self).window()))
                ==> (r matches Ok(p) && p.0 == true && p.1 == 3 + spec_first_body_len(source@)
                && final(self).buffered() =~= old(self).buffered() + source@.subrange(
                3,
                3 + spec_first_body_len(source@),
            ))),
            // finishing in this call means its last block was decoded here
            r matches Ok(p) ==> ((!old(self).finished_spec() && !old(self).awaiting_checksum()
                && old(self).blocks_count() < usize::MAX && p.0) ==> final(self).blocks_count()
                > old(self).blocks_count()),
            // a block-count strategy caps the blocks decoded in one call
            strat matches BlockDecodingStrategy::UptoBlocks(n) ==> (r is Ok
                ==> final(self).blocks_count() <= old(self).blocks_count() + vstd::math::max(
                n as int,
                1,
            )),
            // errors are fatal to the frame: they are latched and repeated
            old(self).failure() matches Some(e) ==> r == Err::<(bool, usize), DecodeError>(e)
                && *final(self) == *old(self),
            r matches Err(e) ==> final(self).failure() == Some(e),
            r is Ok ==> final(self).failure() == old(self).failure(),
    {
        // a failed frame stays failed
        match self.failed {
            Some(e) => { return Err(e) },
            None => {},
        }
        let mut consumed: usize = 0;
        let buffer_size_before = self.decoder_scratch.buffer.len();
        let block_counter_before = self.block_counter;

        loop
            invariant
                self.wf(),
                old(self).window_holds() ==> self.window_holds(),
                consumed <= source@.len(),
                old(self).finished_spec() ==> self.finished_spec(),
                self.block_counter >= block_counter_before,
                block_counter_before == old(self).block_counter,
                buffer_size_before == old(self).buffered().len(),
                self.decoder_scratch.buffer.view().len() >= buffer_size_before,
                self.decoder_scratch.buffer.view().subrange(
                    0,
                    old(self).buffered().len() as int,
                ) =~= old(self).buffered(),
                self.failed is None,
                old(self).failure() is None,
                (!old(self).finished_spec() && !old(self).awaiting_checksum()
                    && old(self).blocks_count() < usize::MAX) ==> ((self.frame_finished
                    || self.checksum_pending) ==> self.block_counter > block_counter_before),
                strat matches BlockDecodingStrategy::UptoBlocks(n) ==> self.block_counter
                    - block_counter_before <= vstd::math::max(n as int, 1) && (self.frame_finished
                    || self.checksum_pending || self.block_counter - block_counter_before
                    < vstd::math::max(n as int, 1)),
                self.frame.content_checksum == old(self).checksum_flag(),
                self.frame.window_size == old(self).frame.window_size,
                consumed == 0 ==> self.frame_finished == old(self).frame_finished
                    && self.checksum_pending == old(self).checksum_pending
                    && self.decoder_scratch.buffer.view() == old(self).buffered(),
                (!old(self).finished_spec() && !old(self).awaiting_checksum()
                    && !old(self).checksum_flag() && old(self).buffered().len() < usize::MAX
                    - 0x700000 && spec_starts_with_last_raw_block(source@, old(self).window()))
                    ==> (consumed == 0 || (consumed == 3 + spec_first_body_len(source@)
                    && self.frame_finished && self.decoder_scratch.buffer.view()
                    =~= old(self).buffered() + source@.subrange(
                    3,
                    3 + spec_first_body_len(source@),
                ))),
                (!old(self).finished_spec() && !old(self).awaiting_checksum()
                    && old(self).buffered().len() < usize::MAX - 0x700000
                    && spec_starts_with_raw_block(source@, old(self).window())) ==> (consumed == 0
                    || (consumed >= 3 + spec_first_body_len(source@)
                    && self.decoder_scratch.buffer.view().len() >= old(self).buffered().len()
                    + spec_first_body_len(source@) && self.decoder_scratch.buffer.view().subrange(
                    old(self).buffered().len() as int,
                    old(self).buffered().len() + spec_first_body_len(source@),
                ) =~= source@.subrange(3, 3 + spec_first_body_len(source@)))),
            decreases source@.len() - consumed,
        {
            if self.frame_finished {
                return Ok((true, consumed));
            }
            // a pending checksum is consumed, not verified
            if self.checksum_pending {
                if source.len() - consumed < 4 {
                    return Ok((false, consumed));
                }
                consumed = consumed + 4;
                self.checksum_pending = false;
                self.frame_finished = true;
                return Ok((true, consumed));
            }
            // guard against address-space exhaustion when nothing is drained
            if self.decoder_scratch.buffer.len() >= usize::MAX - 0x600000 {
                return Ok((false, consumed));
            }

            let remaining = vstd::slice::slice_subrange(source, consumed, source.len());
            if remaining.len() < 3 {
                return Ok((false, consumed));
            }
            let mut block_dec = block_decoder::new();
            let block_header = match block_dec.read_block_header(remaining) {
                Ok(h) => h,
                Err(e) => {
                    self.failed = Some(e);
                    return Err(e);
                },
            };

            // a block is consumed only when its whole body is present
            let body_len: usize = match block_header.block_type {
                BlockType::RLE => 1,
                _ => block_header.content_size as usize,
            };
            if remaining.len() - 3 < body_len {
                return Ok((false, consumed));
            }
            let body = vstd::slice::slice_subrange(remaining, 3, 3 + body_len);
            let n = match block_dec.decode_block_content(
                &block_header,
                &mut self.decoder_scratch,
                body,
            ) {
                Ok(n) => n,
                Err(e) => {
                    self.failed = Some(e);
                    proof {
                        assert(self.decoder_scratch.buffer.view().subrange(
                            0,
                            old(self).buffered().len() as int,
                        ) =~= old(self).buffered());
                    }
                    return Err(e);
                },
            };
            proof {
                assert(self.decoder_scratch.buffer.view().subrange(
                    0,
                    old(self).buffered().len() as int,
                ) =~= old(self).buffered());
            }
            if n != body_len {
                self.failed = Some(DecodeError::MalformedHeader);
                return Err(DecodeError::MalformedHeader);
            }
            consumed = consumed + 3 + body_len;
            if self.block_counter < usize::MAX {
                self.block_counter = self.block_counter + 1;
            }

            if block_header.last_block {
                if self.frame.content_checksum {
                    self.checksum_pending = true;
                } else {
                    self.frame_finished = true;
                }
                continue ;
            }

            match strat {
                BlockDecodingStrategy::All => {},
                BlockDecodingStrategy::UptoBlocks(n_blocks) => {
                    if self.block_counter - block_counter_before >= n_blocks {
                        return Ok((false, consumed));
                    }
                },
                BlockDecodingStrategy::UptoBytes(n_bytes) => {
                    if self.decoder_scratch.buffer.len() - buffer_size_before >= n_bytes {
                        return Ok((false, consumed));
                    }
                },
            }
        }
    }

    /// Drains and returns the bytes in excess of the window, oldest first.
    pub fn collect(&mut self) -> (r: Option<Vec<u8>>)
        requires
            old(self).wf(),
        ensures
            final(self).wf(),
            old(self).window_holds() ==> final(self).window_holds(),
            final(self).finished_spec() == old(self).finished_spec(),
            old(self).buffered().len() <= old(self).window() ==> r is None
                && final(self).buffered() == old(self).buffered(),
            old(self).buffered().len() > old(self).window() ==> (match r {
                Some(v) => v@ =~= old(self).buffered().subrange(
                    0,
                    old(self).buffered().len() - old(self).window(),
                ) && final(self).buffered() =~= old(self).buffered().subrange(
                    old(self).buffered().len() - old(self).window(),
                    old(self).buffered().len() as int,
                ),
                None => false,
            }),
    {
        self.decoder_scratch.buffer.drain_to_window_size()
    }

    /// Drains and returns everything, oldest first. Meant for the end of the
    /// frame: afterwards the window no longer holds.
    pub fn drain_buffer(&mut self) -> (r: Vec<u8>)
        requires
            old(self).wf(),
        ensures
            final(self).wf(),
            final(self).finished_spec() == old(self).finished_spec(),
            r@ =~= old(self).buffered(),
            final(self).buffered() =~= Seq::<u8>::empty(),
    {
        self.decoder_scratch.buffer.drain()
    }

    /// How many bytes `collect` would return.
    pub fn can_collect(&self) -> (r: usize)
        requires
            self.wf(),
        ensures
            self.buffered().len() > self.window() ==> r == self.buffered().len() - self.window(),
            self.buffered().len() <= self.window() ==> r == 0,
    {
        let l = self.decoder_scratch.buffer.len();
        let w = self.decoder_scratch.buffer.get_window_size();
        if l > w {
            l - w
        } else {
            0
        }
    }

    /// How many bytes `drain_buffer` would return.
    pub fn can_drain(&self) -> (r: usize)
        ensures
            r == self.buffered().len(),
    {
        self.decoder_scratch.buffer.can_drain()
    }
}

} // verus!
