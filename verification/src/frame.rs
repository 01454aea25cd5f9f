//! Frame header parsing: magic number, descriptor, window size, skippable
//! frames.

use vstd::prelude::*;

verus! {

use crate::errors::DecodeError;

/// The magic number of a standard zstd frame, little-endian.
pub const ZSTD_MAGIC: u32 = 0xFD2FB528;

/// The smallest window the format allows.
pub const MIN_WINDOW_SIZE: u64 = 1024;

/// The largest window this decoder accepts (2 GiB).
pub const MAX_WINDOW_SIZE: u64 = 0x80000000;

/// What a frame header announces: the window the decoder must keep, whether
/// a 4-byte content checksum follows the last block, and the declared
/// content size, if any.
pub struct Frame {
    pub window_size: u64,
    pub content_checksum: bool,
    pub frame_content_size: Option<u64>,
}

/// The 32-bit little-endian value of four bytes of `s` starting at `i`.
pub open spec fn spec_le32(s: Seq<u8>, i: int) -> int {
    s[i] + s[i + 1] * 0x100 + s[i + 2] * 0x10000 + s[i + 3] * 0x1000000
}

/// The window size a window descriptor byte encodes: two raised to ten plus
/// the exponent field, plus that many eighths of it as the mantissa says.
pub open spec fn spec_window_size(wd: u8) -> int {
    vstd::arithmetic::power2::pow2((10 + (wd >> 3)) as nat) + (vstd::arithmetic::power2::pow2(
        (10 + (wd >> 3)) as nat,
    ) / 8) * ((wd & 7) as int)
}

impl Frame {
    /// The window size fits the bounds the format and this decoder set.
    pub open spec fn wf(&self) -> bool {
        MIN_WINDOW_SIZE <= self.window_size <= MAX_WINDOW_SIZE
    }
}

/// Reads the 4-byte little-endian word at `i`.
fn read_le32(source: &[u8], i: usize) -> (r: u32)
    requires
        i + 4 <= source@.len(),
    ensures
        r == spec_le32(source@, i as int),
{
    (source[i] as u32) + (source[i + 1] as u32) * 0x100 + (source[i + 2] as u32) * 0x10000 + (
    source[i + 3] as u32) * 0x1000000
}

/// Parses the frame header at the start of `source`, skipping any skippable
/// frames before it. Returns the frame and the bytes consumed. The returned
/// window size is clamped to at least 1 KiB; larger than 2 GiB is refused.
pub fn read_frame_header(source: &[u8]) -> (r: Result<(Frame, usize), DecodeError>)
    ensures
        r matches Ok(p) ==> p.1 <= source@.len() && p.0.wf(),
        // a plain header (zero descriptor) pins the result exactly
        (source@.len() >= 6 && spec_le32(source@, 0) == ZSTD_MAGIC && source@[4] == 0) ==> (if
            spec_window_size(source@[5]) > MAX_WINDOW_SIZE {
            r is Err
        } else {
            r matches Ok(p) && p.1 == 6 && !p.0.content_checksum && p.0.frame_content_size is None
                && p.0.window_size == spec_window_size(source@[5])
        }),
        // the same with the content-checksum flag set
        (source@.len() >= 6 && spec_le32(source@, 0) == ZSTD_MAGIC && source@[4] == 4) ==> (if
            spec_window_size(source@[5]) > MAX_WINDOW_SIZE {
            r is Err
        } else {
            r matches Ok(p) && p.1 == 6 && p.0.content_checksum && p.0.frame_content_size is None
                && p.0.window_size == spec_window_size(source@[5])
        }),
{
    let mut cursor: usize = 0;
    // discard leading skippable frames
    loop
        invariant_except_break
            spec_le32(source@, 0) == ZSTD_MAGIC ==> cursor == 0,
        invariant
            cursor <= source@.len(),
        ensures
            cursor <= source@.len(),
            spec_le32(source@, 0) == ZSTD_MAGIC ==> cursor == 4,
        decreases source@.len() - cursor,
    {
        if source.len() - cursor < 4 {
            return Err(DecodeError::InputTruncated);
        }
        let magic = read_le32(source, cursor);
        if magic & 0xFFFFFFF0 == 0x184D2A50 {
            proof {
                // a skippable magic is never the standard magic
                assert(magic != 0xFD2FB528u32) by (bit_vector)
                    requires
                        magic & 0xFFFFFFF0u32 == 0x184D2A50u32,
                ;
            }
            // skippable frame: 4-byte size, then that many bytes of content
            if source.len() - cursor < 8 {
                return Err(DecodeError::InputTruncated);
            }
            let skip_size = read_le32(source, cursor + 4) as usize;
            if source.len() - cursor - 8 < skip_size {
                return Err(DecodeError::InputTruncated);
            }
            cursor = cursor + 8 + skip_size;
        } else if magic == ZSTD_MAGIC {
            cursor = cursor + 4;
            break ;
        } else {
            return Err(DecodeError::MalformedHeader);
        }
    }

    // frame header descriptor
    if source.len() - cursor < 1 {
        return Err(DecodeError::InputTruncated);
    }
    let descriptor = source[cursor];
    cursor = cursor + 1;
    let fcs_flag = descriptor >> 6;
    let single_segment = (descriptor >> 5) & 1 == 1;
    let checksum = (descriptor >> 2) & 1 == 1;
    let reserved = (descriptor >> 3) & 1;
    let dict_flag = descriptor & 3;
    proof {
        assert(descriptor >> 6 <= 3) by (bit_vector);
        assert(descriptor & 3 <= 3) by (bit_vector);
        assert(descriptor == 0 ==> descriptor >> 6 == 0 && (descriptor >> 5) & 1 == 0 && (
        descriptor >> 2) & 1 == 0 && (descriptor >> 3) & 1 == 0 && descriptor & 3 == 0)
            by (bit_vector);
        assert(descriptor == 4 ==> descriptor >> 6 == 0 && (descriptor >> 5) & 1 == 0 && (
        descriptor >> 2) & 1 == 1 && (descriptor >> 3) & 1 == 0 && descriptor & 3 == 0)
            by (bit_vector);
    }
    if reserved != 0 {
        return Err(DecodeError::MalformedHeader);
    }

    // window descriptor
    let mut window_size: u64 = 0;
    if !single_segment {
        if source.len() - cursor < 1 {
            return Err(DecodeError::InputTruncated);
        }
        let wd = source[cursor];
        cursor = cursor + 1;
        let exponent = wd >> 3;
        let mantissa = wd & 7;
        proof {
            assert(wd >> 3 < 32) by (bit_vector);
            assert(wd & 7 < 8) by (bit_vector);
        }
        let shift: u64 = 10 + (exponent as u64);
        proof {
            assert(1u64 << shift <= 0x20000000000u64) by (bit_vector)
                requires
                    shift <= 41u64,
            ;
            vstd::arithmetic::power2::lemma2_to64();
            vstd::arithmetic::power2::lemma2_to64_rest();
            crate::bits::lemma_pow2_le(shift as nat, 41);
            vstd::bits::lemma_u64_shl_is_mul(1u64, shift);
            crate::bits::lemma_pow2_le(10, shift as nat);
        }
        let window_base: u64 = 1u64 << shift;
        let eighth: u64 = window_base / 8;
        let m64: u64 = mantissa as u64;
        proof {
            assert(eighth * m64 <= 0x20000000000u64 * 7) by (nonlinear_arith)
                requires
                    eighth <= 0x4000000000u64,
                    m64 <= 7u64,
            ;
        }
        let window_add: u64 = eighth * m64;
        window_size = window_base + window_add;
    }

    // dictionary id: recognized and skipped
    let dict_bytes: usize = if dict_flag == 0 {
        0
    } else if dict_flag == 1 {
        1
    } else if dict_flag == 2 {
        2
    } else {
        4
    };
    if source.len() - cursor < dict_bytes {
        return Err(DecodeError::InputTruncated);
    }
    cursor = cursor + dict_bytes;

    // frame content size
    let fcs_bytes: usize = if fcs_flag == 0 {
        if single_segment {
            1
        } else {
            0
        }
    } else if fcs_flag == 1 {
        2
    } else if fcs_flag == 2 {
        4
    } else {
        8
    };
    if source.len() - cursor < fcs_bytes {
        return Err(DecodeError::InputTruncated);
    }
    let mut content_size: Option<u64> = None;
    if fcs_bytes == 1 {
        content_size = Some(source[cursor] as u64);
    } else if fcs_bytes == 2 {
        content_size = Some((source[cursor] as u64) + (source[cursor + 1] as u64) * 0x100 + 256);
    } else if fcs_bytes == 4 {
        content_size = Some(read_le32(source, cursor) as u64);
    } else if fcs_bytes == 8 {
        let lo = read_le32(source, cursor) as u64;
        let hi = read_le32(source, cursor + 4) as u64;
        content_size = Some(lo + hi * 0x100000000);
    }
    cursor = cursor + fcs_bytes;

    if single_segment {
        // the whole frame is one segment: the window covers the content
        window_size = match content_size {
            Some(s) => s,
            None => { return Err(DecodeError::MalformedHeader) },
        };
    }
    if window_size > MAX_WINDOW_SIZE {
        return Err(DecodeError::MalformedHeader);
    }
    if window_size < MIN_WINDOW_SIZE {
        window_size = MIN_WINDOW_SIZE;
    }

    Ok(
        (
            Frame { window_size, content_checksum: checksum, frame_content_size: content_size },
            cursor,
        ),
    )
}

} // verus!
