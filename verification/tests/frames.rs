use zstd_decoder::block_decoder;
use zstd_decoder::block_decoder::BlockType;
use zstd_decoder::errors::DecodeError;
use zstd_decoder::frame_decoder::BlockDecodingStrategy;
use zstd_decoder::frame_decoder::FrameDecoder;
use zstd_decoder::literals_section::LiteralsSection;
use zstd_decoder::literals_section::LiteralsSectionType;
use zstd_decoder::literals_section_decoder::decode_literals;
use zstd_decoder::scratch::DecoderScratch;
use zstd_decoder::scratch::HuffmanScratch;

// frame header: standard magic, window descriptor 0 (1 KiB), no checksum
const FRAME_HEADER: [u8; 6] = [0x28, 0xB5, 0x2F, 0xFD, 0x00, 0x00];

fn frame_with_blocks(blocks: &[&[u8]]) -> Vec<u8> {
    let mut v = FRAME_HEADER.to_vec();
    for b in blocks {
        v.extend_from_slice(b);
    }
    v
}

fn decode_all(data: &[u8]) -> Result<(Vec<u8>, usize), DecodeError> {
    let (mut dec, header_len) = FrameDecoder::new(data)?;
    let (finished, consumed) = dec.decode_blocks(&data[header_len..], BlockDecodingStrategy::All)?;
    assert!(finished);
    Ok((dec.drain_buffer(), header_len + consumed))
}

#[test]
fn raw_block_frame_decodes_to_its_bytes() {
    // one raw last block holding "foobar": size 6, type raw, last set
    let data = frame_with_blocks(&[&[0x31, 0x00, 0x00, 0x66, 0x6F, 0x6F, 0x62, 0x61, 0x72]]);
    let (out, consumed) = decode_all(&data).unwrap();
    assert_eq!(out, b"foobar".to_vec());
    assert_eq!(consumed, data.len());
}

#[test]
fn empty_raw_last_block_gives_empty_output() {
    let data = frame_with_blocks(&[&[0x01, 0x00, 0x00]]);
    let (out, consumed) = decode_all(&data).unwrap();
    assert_eq!(out, Vec::<u8>::new());
    assert_eq!(consumed, data.len());
}

#[test]
fn rle_block_repeats_its_byte() {
    // RLE last block, size 5, byte 0x41
    let data = frame_with_blocks(&[&[0x2B, 0x00, 0x00, 0x41]]);
    let (out, _) = decode_all(&data).unwrap();
    assert_eq!(out, b"AAAAA".to_vec());
}

#[test]
fn rle_block_of_maximum_size() {
    // window descriptor 0x38 gives a 128 KiB window; RLE size 128 KiB
    let mut data = vec![0x28, 0xB5, 0x2F, 0xFD, 0x00, 0x38];
    data.extend_from_slice(&[0x03, 0x00, 0x10, 0x7A]);
    let (out, _) = decode_all(&data).unwrap();
    assert_eq!(out.len(), 128 * 1024);
    assert!(out.iter().all(|b| *b == 0x7A));
}

#[test]
fn two_raw_blocks_concatenate() {
    let data = frame_with_blocks(&[&[0x10, 0x00, 0x00, 0x61, 0x62], &[0x11, 0x00, 0x00, 0x63, 0x64]]);
    let (out, _) = decode_all(&data).unwrap();
    assert_eq!(out, b"abcd".to_vec());
}

#[test]
fn up_to_blocks_stops_after_one_block() {
    let data = frame_with_blocks(&[&[0x10, 0x00, 0x00, 0x61, 0x62], &[0x11, 0x00, 0x00, 0x63, 0x64]]);
    let (mut dec, header_len) = FrameDecoder::new(&data).unwrap();
    let (finished, consumed) = dec
        .decode_blocks(&data[header_len..], BlockDecodingStrategy::UptoBlocks(1))
        .unwrap();
    assert!(!finished);
    assert!(!dec.is_finished());
    assert_eq!(dec.blocks_decoded(), 1);
    assert_eq!(consumed, 5);
    assert_eq!(dec.can_drain(), 2);
    assert_eq!(dec.drain_buffer(), b"ab".to_vec());
}

#[test]
fn compressed_block_with_raw_literals_and_no_sequences() {
    // block content: raw literals header for "hi", then a zero sequence count
    let data = frame_with_blocks(&[&[0x25, 0x00, 0x00, 0x10, 0x68, 0x69, 0x00]]);
    let (out, consumed) = decode_all(&data).unwrap();
    assert_eq!(out, b"hi".to_vec());
    assert_eq!(consumed, data.len());
}

#[test]
fn streaming_any_split_gives_the_same_output() {
    let data = frame_with_blocks(&[&[0x10, 0x00, 0x00, 0x61, 0x62], &[0x11, 0x00, 0x00, 0x63, 0x64]]);
    let (whole, consumed_whole) = decode_all(&data).unwrap();
    assert_eq!(consumed_whole, data.len());

    for split in 1..data.len() {
        let (mut dec, header_len) = FrameDecoder::new(&data[..split.max(6)]).unwrap();
        // feed the remainder in two chunks, re-offering unconsumed bytes
        let mut cursor = header_len;
        let mut first_end = split.max(header_len);
        if first_end < cursor {
            first_end = cursor;
        }
        let (_, used1) = dec
            .decode_blocks(&data[cursor..first_end], BlockDecodingStrategy::All)
            .unwrap();
        cursor += used1;
        let (finished, used2) = dec
            .decode_blocks(&data[cursor..], BlockDecodingStrategy::All)
            .unwrap();
        cursor += used2;
        assert!(finished, "split at {split}");
        assert_eq!(cursor, data.len(), "split at {split}");
        assert_eq!(dec.drain_buffer(), whole, "split at {split}");
    }
}

#[test]
fn four_stream_huffman_with_single_byte_streams() {
    // two one-bit codes; each 1-byte stream decodes to seven symbols
    let section_bytes = [0xC6u8, 0x01, 0x03];
    let mut section = LiteralsSection::new();
    assert_eq!(section.parse_from_header(&section_bytes).unwrap(), 3);
    assert!(matches!(section.ls_type, LiteralsSectionType::Compressed));
    assert_eq!(section.regenerated_size, 28);
    assert_eq!(section.compressed_size, Some(12));
    assert_eq!(section.num_streams, Some(4));

    let payload = [
        0x80, 0x10, // huffman table: one explicit weight
        0x01, 0x00, 0x01, 0x00, 0x01, 0x00, // jump table: three 1-byte streams
        0xC0, 0xC0, 0xC0, 0xC0, // four streams of one byte each
    ];
    let mut scratch = HuffmanScratch { table: zstd_decoder::huff0::HuffmanTable::new() };
    let mut out = Vec::new();
    let n = decode_literals(&section, &mut scratch, &payload, &mut out).unwrap();
    assert_eq!(n, 12);
    let one_stream = [1u8, 0, 0, 0, 0, 0, 0];
    let mut expected = Vec::new();
    for _ in 0..4 {
        expected.extend_from_slice(&one_stream);
    }
    assert_eq!(out, expected);
}

#[test]
fn treeless_section_reuses_previous_table() {
    // build the table through a compressed section, then reuse it treeless
    let mut scratch = HuffmanScratch { table: zstd_decoder::huff0::HuffmanTable::new() };

    let mut section = LiteralsSection::new();
    // compressed, one stream: regenerated 7, compressed 3 (table + stream)
    assert_eq!(section.parse_from_header(&[0x72, 0xC0, 0x00]).unwrap(), 3);
    assert_eq!(section.regenerated_size, 7);
    assert_eq!(section.compressed_size, Some(3));
    assert_eq!(section.num_streams, Some(1));
    let mut out = Vec::new();
    decode_literals(&section, &mut scratch, &[0x80, 0x10, 0xC0], &mut out).unwrap();
    assert_eq!(out, vec![1, 0, 0, 0, 0, 0, 0]);

    // treeless, one stream: regenerated 7, compressed 1 (just the stream)
    let mut section2 = LiteralsSection::new();
    assert_eq!(section2.parse_from_header(&[0x73, 0x40, 0x00]).unwrap(), 3);
    assert!(matches!(section2.ls_type, LiteralsSectionType::Treeless));
    assert_eq!(section2.compressed_size, Some(1));
    let mut out2 = Vec::new();
    let n = decode_literals(&section2, &mut scratch, &[0xC0], &mut out2).unwrap();
    assert_eq!(n, 1);
    assert_eq!(out2, vec![1, 0, 0, 0, 0, 0, 0]);
}

#[test]
fn treeless_without_previous_table_fails() {
    let mut scratch = HuffmanScratch { table: zstd_decoder::huff0::HuffmanTable::new() };
    let mut section = LiteralsSection::new();
    section.parse_from_header(&[0x73, 0x40, 0x00]).unwrap();
    let mut out = Vec::new();
    assert_eq!(
        decode_literals(&section, &mut scratch, &[0xC0], &mut out),
        Err(DecodeError::EntropyBuildError)
    );
}

#[test]
fn nine_zero_padding_bits_are_corruption() {
    // a valid table followed by a stream whose padding marker never comes
    let mut scratch = HuffmanScratch { table: zstd_decoder::huff0::HuffmanTable::new() };
    let mut section = LiteralsSection::new();
    // compressed, one stream: regenerated 4, compressed 4
    assert_eq!(section.parse_from_header(&[0x42, 0x00, 0x01]).unwrap(), 3);
    let mut out = Vec::new();
    assert_eq!(
        decode_literals(&section, &mut scratch, &[0x80, 0x10, 0x00, 0x00], &mut out),
        Err(DecodeError::BitstreamCorruption)
    );
}

#[test]
fn wrong_regenerated_size_is_a_literal_count_mismatch() {
    // the single stream yields seven symbols but the header claims six
    let mut scratch = HuffmanScratch { table: zstd_decoder::huff0::HuffmanTable::new() };
    let mut section = LiteralsSection::new();
    assert_eq!(section.parse_from_header(&[0x62, 0xC0, 0x00]).unwrap(), 3);
    assert_eq!(section.regenerated_size, 6);
    let mut out = Vec::new();
    assert_eq!(
        decode_literals(&section, &mut scratch, &[0x80, 0x10, 0xC0], &mut out),
        Err(DecodeError::LiteralCountMismatch)
    );
}

#[test]
fn bad_magic_is_malformed() {
    let data = [0x00u8, 0x11, 0x22, 0x33, 0x00, 0x00];
    assert!(matches!(FrameDecoder::new(&data), Err(DecodeError::MalformedHeader)));
}

#[test]
fn truncated_frame_header_is_input_truncated() {
    let data = [0x28u8, 0xB5];
    assert!(matches!(FrameDecoder::new(&data), Err(DecodeError::InputTruncated)));
}

#[test]
fn reserved_block_type_is_malformed() {
    // type bits set to 3
    let data = frame_with_blocks(&[&[0x07, 0x00, 0x00]]);
    let (mut dec, header_len) = FrameDecoder::new(&data).unwrap();
    assert_eq!(
        dec.decode_blocks(&data[header_len..], BlockDecodingStrategy::All),
        Err(DecodeError::MalformedHeader)
    );
}

#[test]
fn skippable_frame_is_discarded() {
    let mut data = vec![0x50, 0x2A, 0x4D, 0x18, 0x02, 0x00, 0x00, 0x00, 0xAA, 0xBB];
    data.extend_from_slice(&frame_with_blocks(&[&[0x2B, 0x00, 0x00, 0x41]]));
    let (out, consumed) = decode_all(&data).unwrap();
    assert_eq!(out, b"AAAAA".to_vec());
    assert_eq!(consumed, data.len());
}

#[test]
fn checksum_bytes_are_consumed() {
    // descriptor 0x04 sets the content-checksum flag
    let mut data = vec![0x28, 0xB5, 0x2F, 0xFD, 0x04, 0x00];
    data.extend_from_slice(&[0x11, 0x00, 0x00, 0x68, 0x69]);
    data.extend_from_slice(&[0x01, 0x02, 0x03, 0x04]);
    let (out, consumed) = decode_all(&data).unwrap();
    assert_eq!(out, b"hi".to_vec());
    assert_eq!(consumed, data.len());
}

#[test]
fn block_decoder_parses_header_fields() {
    let mut dec = block_decoder::new();
    let h = dec.read_block_header(&[0x31, 0x00, 0x00]).unwrap();
    assert!(h.last_block);
    assert!(matches!(h.block_type, BlockType::Raw));
    assert_eq!(h.content_size, 6);
    assert_eq!(h.decompressed_size, 6);

    let mut dec2 = block_decoder::new();
    let h2 = dec2.read_block_header(&[0x2A, 0x01, 0x00]).unwrap();
    assert!(!h2.last_block);
    assert!(matches!(h2.block_type, BlockType::RLE));
    assert_eq!(h2.content_size, 1);
    assert_eq!(h2.decompressed_size, 5 + 32);

    // a block size beyond 128 KiB is refused
    let mut dec3 = block_decoder::new();
    assert_eq!(
        dec3.read_block_header(&[0x08, 0x00, 0xFF]),
        Err(DecodeError::MalformedHeader)
    );
}

#[test]
fn reset_scratch_decodes_like_a_fresh_one() {
    let block = [0x25u8, 0x00, 0x00, 0x10, 0x68, 0x69, 0x00];

    let mut fresh = DecoderScratch::new(1024);
    let mut dec1 = block_decoder::new();
    let h1 = dec1.read_block_header(&block).unwrap();
    dec1.decode_block_content(&h1, &mut fresh, &block[3..]).unwrap();

    let mut reused = DecoderScratch::new(1024);
    reused.buffer.push(b"leftover");
    reused.offset_hist = [3, 2, 1];
    reused.reset(1024);
    let mut dec2 = block_decoder::new();
    let h2 = dec2.read_block_header(&block).unwrap();
    dec2.decode_block_content(&h2, &mut reused, &block[3..]).unwrap();

    assert_eq!(fresh.buffer.drain(), reused.buffer.drain());
    assert_eq!(fresh.offset_hist, reused.offset_hist);
}

#[test]
fn compressed_block_with_rle_mode_sequence() {
    // literals "hello"; one sequence {ll 5, ml 5, offset code 4} built from
    // RLE-mode symbol bytes; the bit stream holds only the two offset bits
    let content = [
        0x28, 0x68, 0x65, 0x6C, 0x6C, 0x6F, // raw literals "hello"
        0x01, 0x54, // one sequence, all three tables in RLE mode
        0x05, 0x02, 0x02, // symbol bytes: ll 5, of 2, ml 2
        0x04, // padding marker, then two zero offset bits
    ];
    let mut data = frame_with_blocks(&[&[0x65, 0x00, 0x00]]);
    data.extend_from_slice(&content);
    let (out, consumed) = decode_all(&data).unwrap();
    assert_eq!(out, b"helloooooo".to_vec());
    assert_eq!(consumed, data.len());
}

#[test]
fn compressed_block_with_fse_mode_sequence() {
    // a raw block "abcd", then a compressed block whose three FSE tables are
    // read from the input; the one sequence has no literals, so offset code 1
    // shifts to the history's second entry (4) and copies "abc"
    let raw_block = [0x20u8, 0x00, 0x00, 0x61, 0x62, 0x63, 0x64];
    let compressed = [
        0x5D, 0x00, 0x00, // block header: compressed, last, 11 bytes
        0x00, // raw literals of size 0
        0x01, 0xA8, // one sequence, all three tables FSE-compressed
        0xF0, 0x03, // literal-lengths table: one symbol over 32 slots
        0xF0, 0x03, // offsets table
        0xF0, 0x03, // match-lengths table
        0x00, 0x80, // bit stream: marker, then three zeroed initial states
    ];
    let mut data = FRAME_HEADER.to_vec();
    data.extend_from_slice(&raw_block);
    data.extend_from_slice(&compressed);
    let (out, consumed) = decode_all(&data).unwrap();
    assert_eq!(out, b"abcdabc".to_vec());
    assert_eq!(consumed, data.len());
}

#[test]
fn errors_are_latched_across_calls() {
    // a reserved block fails the frame; the next call repeats the error
    let data = frame_with_blocks(&[&[0x07, 0x00, 0x00]]);
    let (mut dec, header_len) = FrameDecoder::new(&data).unwrap();
    assert_eq!(
        dec.decode_blocks(&data[header_len..], BlockDecodingStrategy::All),
        Err(DecodeError::MalformedHeader)
    );
    // even with a now-valid block on offer, the frame stays failed
    let good = [0x01u8, 0x00, 0x00];
    assert_eq!(
        dec.decode_blocks(&good, BlockDecodingStrategy::All),
        Err(DecodeError::MalformedHeader)
    );
}

#[test]
fn collect_keeps_a_window_of_history() {
    // two full-window raw blocks: the excess over one window is collectable
    let mut block1 = vec![0x00u8, 0x20, 0x00]; // raw, not last, 1024 bytes
    block1.extend(std::iter::repeat(0x61).take(1024));
    let mut block2 = vec![0x01u8, 0x20, 0x00]; // raw, last, 1024 bytes
    block2.extend(std::iter::repeat(0x62).take(1024));
    let data = frame_with_blocks(&[&block1, &block2]);

    let (mut dec, header_len) = FrameDecoder::new(&data).unwrap();
    let (finished, _) = dec
        .decode_blocks(&data[header_len..], BlockDecodingStrategy::All)
        .unwrap();
    assert!(finished);
    assert_eq!(dec.can_collect(), 1024);
    let first = dec.collect().unwrap();
    assert_eq!(first, vec![0x61u8; 1024]);
    assert_eq!(dec.can_collect(), 0);
    assert_eq!(dec.can_drain(), 1024);
    assert_eq!(dec.drain_buffer(), vec![0x62u8; 1024]);
}
