//! Decoding a literals section into the literals buffer.

use vstd::prelude::*;

verus! {

use crate::bits::BitReaderReversed;
use crate::errors::DecodeError;
use crate::huff0::HuffmanDecoder;
use crate::huff0::skip_padding;
use crate::literals_section::LiteralsSection;
use crate::literals_section::LiteralsSectionType;
use crate::scratch::HuffmanScratch;

/// `n` copies of one byte.
pub open spec fn byte_repeat(b: u8, n: nat) -> Seq<u8> {
    Seq::new(n, |i: int| b)
}

/// Decodes one literals section into `target` and returns the bytes it
/// consumed from `source`: the regenerated size for Raw, one byte for RLE,
/// the compressed size for the entropy-coded types. In every case exactly
/// `regenerated_size` bytes are appended.
pub fn decode_literals(
    section: &LiteralsSection,
    scratch: &mut HuffmanScratch,
    source: &[u8],
    target: &mut Vec<u8>,
) -> (r: Result<u32, DecodeError>)
    requires
        old(target)@.len() + section.regenerated_size < usize::MAX,
        source@.len() * 8 <= i64::MAX,
        old(scratch).table.is_empty_spec() || old(scratch).table.wf(),
    ensures
        final(scratch).table.is_empty_spec() || final(scratch).table.wf(),
        r matches Ok(n) ==> final(target)@.len() == old(target)@.len() + section.regenerated_size,
        section.ls_type == LiteralsSectionType::Raw ==> (match r {
            Ok(n) => n == section.regenerated_size && final(target)@ =~= old(target)@ + source@.subrange(
                0,
                section.regenerated_size as int,
            ),
            Err(e) => e == DecodeError::InputTruncated && source@.len() < section.regenerated_size,
        }),
        section.ls_type == LiteralsSectionType::RLE ==> (match r {
            Ok(n) => n == 1 && source@.len() >= 1 && final(target)@ =~= old(target)@ + byte_repeat(
                source@[0],
                section.regenerated_size as nat,
            ),
            Err(e) => e == DecodeError::InputTruncated && source@.len() == 0,
        }),
        (section.ls_type == LiteralsSectionType::Compressed || section.ls_type
            == LiteralsSectionType::Treeless) ==> (match r {
            Ok(n) => Some(n) == section.compressed_size && final(scratch).table.wf(),
            Err(e) => true,
        }),
        // a Treeless section reuses the table unchanged, and fails without one
        section.ls_type == LiteralsSectionType::Treeless ==> final(scratch).table == old(
            scratch,
        ).table,
        (section.ls_type == LiteralsSectionType::Treeless && section.compressed_size is Some
            && section.compressed_size.unwrap() <= source@.len() && section.num_streams is Some
            && old(scratch).table.is_empty_spec()) ==> r == Err::<u32, DecodeError>(
            DecodeError::EntropyBuildError,
        ),
        // for a Treeless single-stream section the decoded bytes are a
        // function of the kept table and the section's bytes
        (section.ls_type == LiteralsSectionType::Treeless && section.compressed_size is Some
            && section.compressed_size.unwrap() <= source@.len() && section.num_streams == Some(
            1u8,
        ) && !old(scratch).table.is_empty_spec()) ==> (match crate::huff0::spec_decode_stream(
            &old(scratch).table,
            source@.subrange(0, section.compressed_size.unwrap() as int),
        ) {
            None => r == Err::<u32, DecodeError>(DecodeError::BitstreamCorruption),
            Some(out) => {
                &&& (r is Ok <==> out.len() == section.regenerated_size)
                &&& (r is Ok ==> final(target)@ =~= old(target)@ + out)
                &&& (out.len() != section.regenerated_size ==> r == Err::<u32, DecodeError>(
                    DecodeError::LiteralCountMismatch,
                ))
            },
        }),
        // a single stream whose top eight bits are all zero has no padding
        // marker within reach: corruption
        (section.ls_type == LiteralsSectionType::Treeless && section.compressed_size is Some
            && section.compressed_size.unwrap() <= source@.len() && section.num_streams == Some(
            1u8,
        ) && !old(scratch).table.is_empty_spec() && crate::bits::bits_below(
            source@.subrange(0, section.compressed_size.unwrap() as int),
            section.compressed_size.unwrap() * 8 as int,
            8,
        ) == 0) ==> r == Err::<u32, DecodeError>(DecodeError::BitstreamCorruption),
{
    match section.ls_type {
        LiteralsSectionType::Raw => {
            let n = section.regenerated_size as usize;
            if source.len() < n {
                return Err(DecodeError::InputTruncated);
            }
            let mut i: usize = 0;
            while i < n
                invariant
                    i <= n <= source@.len(),
                    old(target)@.len() + n < usize::MAX,
                    target@ =~= old(target)@ + source@.subrange(0, i as int),
                decreases n - i,
            {
                target.push(source[i]);
                i = i + 1;
            }
            Ok(section.regenerated_size)
        },
        LiteralsSectionType::RLE => {
            if source.len() < 1 {
                return Err(DecodeError::InputTruncated);
            }
            let b = source[0];
            let n = section.regenerated_size as usize;
            let mut i: usize = 0;
            while i < n
                invariant
                    i <= n,
                    old(target)@.len() + n < usize::MAX,
                    target@ =~= old(target)@ + byte_repeat(b, i as nat),
                decreases n - i,
            {
                target.push(b);
                i = i + 1;
            }
            Ok(1)
        },
        LiteralsSectionType::Compressed | LiteralsSectionType::Treeless => {
            decompress_literals(section, scratch, source, target)
        },
    }
}

/// Decodes Huffman-compressed literals: builds or reuses the table, then runs
/// one or four reversed bit streams through it.
fn decompress_literals(
    section: &LiteralsSection,
    scratch: &mut HuffmanScratch,
    source: &[u8],
    target: &mut Vec<u8>,
) -> (r: Result<u32, DecodeError>)
    requires
        old(target)@.len() + section.regenerated_size < usize::MAX,
        source@.len() * 8 <= i64::MAX,
        section.ls_type == LiteralsSectionType::Compressed || section.ls_type
            == LiteralsSectionType::Treeless,
        old(scratch).table.is_empty_spec() || old(scratch).table.wf(),
    ensures
        final(scratch).table.is_empty_spec() || final(scratch).table.wf(),
        r matches Ok(n) ==> {
            &&& final(target)@.len() == old(target)@.len() + section.regenerated_size
            &&& Some(n) == section.compressed_size
            &&& final(scratch).table.wf()
        },
        // a Treeless section reuses the table unchanged, and fails without one
        section.ls_type == LiteralsSectionType::Treeless ==> final(scratch).table == old(
            scratch,
        ).table,
        (section.ls_type == LiteralsSectionType::Treeless && section.compressed_size is Some
            && section.compressed_size.unwrap() <= source@.len() && section.num_streams is Some
            && old(scratch).table.is_empty_spec()) ==> r == Err::<u32, DecodeError>(
            DecodeError::EntropyBuildError,
        ),
        // for a Treeless single-stream section the decoded bytes are a
        // function of the kept table and the section's bytes
        (section.ls_type == LiteralsSectionType::Treeless && section.compressed_size is Some
            && section.compressed_size.unwrap() <= source@.len() && section.num_streams == Some(
            1u8,
        ) && !old(scratch).table.is_empty_spec()) ==> (match crate::huff0::spec_decode_stream(
            &old(scratch).table,
            source@.subrange(0, section.compressed_size.unwrap() as int),
        ) {
            None => r == Err::<u32, DecodeError>(DecodeError::BitstreamCorruption),
            Some(out) => {
                &&& (r is Ok <==> out.len() == section.regenerated_size)
                &&& (r is Ok ==> final(target)@ =~= old(target)@ + out)
                &&& (out.len() != section.regenerated_size ==> r == Err::<u32, DecodeError>(
                    DecodeError::LiteralCountMismatch,
                ))
            },
        }),
        // a single stream whose top eight bits are all zero has no padding
        // marker within reach: corruption
        (section.ls_type == LiteralsSectionType::Treeless && section.compressed_size is Some
            && section.compressed_size.unwrap() <= source@.len() && section.num_streams == Some(
            1u8,
        ) && !old(scratch).table.is_empty_spec() && crate::bits::bits_below(
            source@.subrange(0, section.compressed_size.unwrap() as int),
            section.compressed_size.unwrap() * 8 as int,
            8,
        ) == 0) ==> r == Err::<u32, DecodeError>(DecodeError::BitstreamCorruption),
{
    let compressed_size = match section.compressed_size {
        Some(s) => s as usize,
        None => { return Err(DecodeError::MalformedHeader) },
    };
    let num_streams = match section.num_streams {
        Some(n) => n,
        None => { return Err(DecodeError::MalformedHeader) },
    };
    if source.len() < compressed_size {
        return Err(DecodeError::InputTruncated);
    }
    let ghost source_full = source@;
    let source = vstd::slice::slice_subrange(source, 0, compressed_size);
    let regen = section.regenerated_size as usize;

    let mut bytes_used: usize = 0;
    match section.ls_type {
        LiteralsSectionType::Compressed => {
            let table_bytes = match scratch.table.build_decoder(source) {
                Ok(n) => n,
                Err(e) => { return Err(e) },
            };
            bytes_used = table_bytes as usize;
        },
        _ => {
            // Treeless: reuse the table a previous block built
            if !scratch.table.is_built() {
                return Err(DecodeError::EntropyBuildError);
            }
        },
    }
    if bytes_used > source.len() {
        return Err(DecodeError::InputTruncated);
    }
    let streams_source = vstd::slice::slice_subrange(source, bytes_used, compressed_size);
    proof {
        // without a table to build, the streams start at the section's start
        if bytes_used == 0 {
            assert(streams_source@ =~= source_full.subrange(0, compressed_size as int));
        }
    }
    let start: usize = target.len();
    let limit: usize = start + regen;

    if num_streams == 4 {
        if streams_source.len() < 6 {
            return Err(DecodeError::InputTruncated);
        }
        // the jump table gives the sizes of the first three streams
        let jump1: usize = streams_source[0] as usize + (streams_source[1] as usize) * 256;
        let jump2: usize = jump1 + streams_source[2] as usize + (streams_source[3] as usize) * 256;
        let jump3: usize = jump2 + streams_source[4] as usize + (streams_source[5] as usize) * 256;
        let data = vstd::slice::slice_subrange(streams_source, 6, streams_source.len());
        if jump3 > data.len() {
            return Err(DecodeError::MalformedHeader);
        }
        let mut k: u8 = 0;
        while k < 4
            invariant
                k <= 4,
                jump1 <= jump2 <= jump3 <= data@.len(),
                data@.len() * 8 <= i64::MAX,
                scratch.table.wf(),
                num_streams == 4,
                section.num_streams == Some(num_streams),
                section.ls_type == LiteralsSectionType::Treeless ==> scratch.table == old(
                    scratch,
                ).table,
                section.ls_type == LiteralsSectionType::Treeless ==> !old(
                    scratch,
                ).table.is_empty_spec(),
                start <= target@.len() <= limit,
                limit == start + regen,
                limit < usize::MAX,
                start == old(target)@.len(),
                regen == section.regenerated_size,
                section.compressed_size == Some(compressed_size as u32),
            decreases 4 - k,
        {
            let lo: usize = if k == 0 {
                0
            } else if k == 1 {
                jump1
            } else if k == 2 {
                jump2
            } else {
                jump3
            };
            let hi: usize = if k == 0 {
                jump1
            } else if k == 1 {
                jump2
            } else if k == 2 {
                jump3
            } else {
                data.len()
            };
            if lo > hi {
                return Err(DecodeError::MalformedHeader);
            }
            let stream = vstd::slice::slice_subrange(data, lo, hi);
            match decode_one_stream(&scratch.table, stream, target, limit) {
                Ok(()) => {},
                Err(e) => { return Err(e) },
            }
            k = k + 1;
        }
    } else {
        if num_streams != 1 {
            return Err(DecodeError::MalformedHeader);
        }
        match decode_one_stream(&scratch.table, streams_source, target, limit) {
            Ok(()) => {},
            Err(e) => { return Err(e) },
        }
    }

    // the streams must regenerate the announced size exactly
    if target.len() != limit {
        return Err(DecodeError::LiteralCountMismatch);
    }
    Ok(compressed_size as u32)
}

/// Decodes one reversed Huffman bit stream, appending symbols to `target`
/// until the stream's bits are exhausted; producing more than `limit` total
/// bytes is a corruption of the announced size.
fn decode_one_stream(
    table: &crate::huff0::HuffmanTable,
    stream: &[u8],
    target: &mut Vec<u8>,
    limit: usize,
) -> (r: Result<(), DecodeError>)
    requires
        table.wf(),
        stream@.len() * 8 <= i64::MAX,
        old(target)@.len() <= limit,
        limit < usize::MAX,
    ensures
        old(target)@.len() <= final(target)@.len() <= limit,
        crate::bits::bits_below(stream@, stream@.len() * 8 as int, 8) == 0 ==> r == Err::<
            (),
            DecodeError,
        >(DecodeError::BitstreamCorruption),
        // the decoded bytes are a function of the table and the stream
        crate::huff0::spec_decode_stream(table, stream@) is None ==> r == Err::<
            (),
            DecodeError,
        >(DecodeError::BitstreamCorruption),
        crate::huff0::spec_decode_stream(table, stream@) matches Some(out) ==> {
            &&& (r is Ok <==> old(target)@.len() + out.len() <= limit)
            &&& (r is Ok ==> final(target)@ =~= old(target)@ + out)
            &&& (r is Err ==> r == Err::<(), DecodeError>(DecodeError::LiteralCountMismatch))
        },
{
    let mut br = BitReaderReversed::new(stream);
    proof {
        crate::huff0::lemma_padding_vs_top_bits(stream@);
    }
    match skip_padding(&mut br) {
        Ok(()) => {},
        Err(e) => { return Err(e) },
    }
    let ghost pad = crate::huff0::spec_padding_len(stream@, 1);
    let ghost b0 = stream@.len() * 8 - pad;
    let mut decoder = HuffmanDecoder::new(table);
    decoder.init_state(&mut br);
    let ghost out = crate::huff0::spec_decode_stream(table, stream@).unwrap();
    proof {
        assert(br.bits() == b0 - table.max_num_bits);
        assert(out =~= crate::huff0::spec_huff_symbols(
            table,
            stream@,
            decoder.state as int,
            br.bits(),
        ));
    }
    let max_bits: i64 = table.max_num_bits as i64;
    while br.bits_remaining() > -max_bits
        invariant
            br.wf(),
            br.stream() == stream@,
            decoder.wf(),
            decoder.table == table,
            table.wf(),
            max_bits == table.max_num_bits as i64,
            1 <= max_bits <= 11,
            old(target)@.len() <= target@.len() <= limit,
            limit < usize::MAX,
            br.bits() >= -30,
            crate::bits::bits_below(stream@, stream@.len() * 8 as int, 8) != 0,
            crate::huff0::spec_decode_stream(table, stream@) == Some(out),
            old(target)@ + out =~= target@ + crate::huff0::spec_huff_symbols(
                table,
                stream@,
                decoder.state as int,
                br.bits(),
            ),
        decreases br.bits() + 128,
    {
        let ghost pre_state = decoder.state as int;
        let ghost pre_bits = br.bits();
        proof {
            // one symbol peels off the spec's sequence
            let e = table.decode@[pre_state];
            vstd::arithmetic::power2::lemma_pow2_pos(table.max_num_bits as nat);
            assert(crate::huff0::spec_huff_symbols(table, stream@, pre_state, pre_bits)
                =~= seq![e.symbol] + crate::huff0::spec_huff_symbols(
                table,
                stream@,
                (((pre_state as nat) * vstd::arithmetic::power2::pow2(e.num_bits as nat)
                    + crate::bits::bits_below(stream@, pre_bits, e.num_bits as nat)) % (
                vstd::arithmetic::power2::pow2(table.max_num_bits as nat))) as int,
                pre_bits - e.num_bits,
            ));
        }
        if target.len() >= limit {
            proof {
                let rem = crate::huff0::spec_huff_symbols(table, stream@, pre_state, pre_bits);
                assert(rem.len() >= 1);
                assert(old(target)@ + out =~= target@ + rem);
                assert((old(target)@ + out).len() == old(target)@.len() + out.len());
                assert((target@ + rem).len() == target@.len() + rem.len());
                assert(old(target)@.len() + out.len() == target@.len() + rem.len());
            }
            return Err(DecodeError::LiteralCountMismatch);
        }
        target.push(decoder.decode_symbol());
        decoder.next_state(&mut br);
        proof {
            assert(old(target)@ + out =~= target@ + crate::huff0::spec_huff_symbols(
                table,
                stream@,
                decoder.state as int,
                br.bits(),
            ));
        }
    }
    proof {
        assert(crate::huff0::spec_huff_symbols(table, stream@, decoder.state as int, br.bits())
            =~= Seq::<u8>::empty());
        assert(target@ =~= old(target)@ + out);
    }
    Ok(())
}

} // verus!
