use zstd_decoder::bits::BitReaderLsb;
use zstd_decoder::bits::BitReaderReversed;
use zstd_decoder::decodebuffer::Decodebuffer;
use zstd_decoder::errors::DecodeError;
use zstd_decoder::fse::FSETable;
use zstd_decoder::huff0::HuffmanTable;
use zstd_decoder::scratch::DecoderScratch;
use zstd_decoder::sequence_execution::execute_sequences;
use zstd_decoder::sequence_execution::resolve_offset;
use zstd_decoder::sequence_section::CompressionModes;
use zstd_decoder::sequence_section::ModeType;
use zstd_decoder::sequence_section::Sequence;
use zstd_decoder::sequence_section::SequencesHeader;

#[test]
fn test_ll_default() {
    const LL_DEFAULT_ACC_LOG: u8 = 6;
    const LITERALS_LENGTH_DEFAULT_DISTRIBUTION: [i32; 36] = [
        4, 3, 2, 2, 2, 2, 2, 2, 2, 2, 2, 2, 2, 1, 1, 1, 2, 2, 2, 2, 2, 2, 2, 2, 2, 3, 2, 1, 1, 1,
        1, 1, -1, -1, -1, -1,
    ];

    let mut table = FSETable::new();
    table
        .build_from_probabilities(
            LL_DEFAULT_ACC_LOG,
            &Vec::from(&LITERALS_LENGTH_DEFAULT_DISTRIBUTION[..]),
        )
        .unwrap();

    assert!(table.decode.len() == 64);

    assert!(table.decode[0].symbol == 0);
    assert!(table.decode[0].num_bits == 4);
    assert!(table.decode[0].base_line == 0);

    assert!(table.decode[19].symbol == 27);
    assert!(table.decode[19].num_bits == 6);
    assert!(table.decode[19].base_line == 0);

    assert!(table.decode[39].symbol == 25);
    assert!(table.decode[39].num_bits == 4);
    assert!(table.decode[39].base_line == 16);

    assert!(table.decode[60].symbol == 35);
    assert!(table.decode[60].num_bits == 6);
    assert!(table.decode[60].base_line == 0);

    assert!(table.decode[59].symbol == 24);
    assert!(table.decode[59].num_bits == 5);
    assert!(table.decode[59].base_line == 32);
}

#[test]
fn reversed_reader_reads_from_top_of_last_byte() {
    // one byte 0b1011_0001: bits come out high-first
    let data = [0xB1u8];
    let mut br = BitReaderReversed::new(&data);
    assert_eq!(br.bits_remaining(), 8);
    assert_eq!(br.get_bits(3), 0b101);
    assert_eq!(br.get_bits(5), 0b10001);
    assert_eq!(br.bits_remaining(), 0);
    // exhausted reads pad with zeros and go negative
    assert_eq!(br.get_bits(4), 0);
    assert_eq!(br.bits_remaining(), -4);
}

#[test]
fn reversed_reader_crosses_bytes_backward() {
    // last byte first: 0xF0 gives 1111, then 0000, then 0x0F's high bits
    let data = [0x0Fu8, 0xF0u8];
    let mut br = BitReaderReversed::new(&data);
    assert_eq!(br.get_bits(4), 0xF);
    assert_eq!(br.get_bits(4), 0x0);
    assert_eq!(br.get_bits(4), 0x0);
    assert_eq!(br.get_bits(4), 0xF);
}

#[test]
fn forward_reader_reads_low_bits_first() {
    let data = [0b0011_0101u8, 0xFFu8];
    let mut br = BitReaderLsb::new(&data);
    assert_eq!(br.get_bits(3), 0b101);
    assert_eq!(br.get_bits(5), 0b00110);
    assert_eq!(br.get_bits(4), 0xF);
    br.rewind(4);
    assert_eq!(br.get_bits(8), 0xFF);
}

#[test]
fn decodebuffer_repeat_handles_overlap() {
    let mut buf = Decodebuffer::new(1024);
    buf.push(b"ab");
    buf.repeat(1, 4).unwrap();
    buf.repeat(3, 3).unwrap();
    // "ab" + "bbbb" + copy of "bbb" from 3 back
    assert_eq!(buf.drain(), b"abbbbbbbb".to_vec());
}

#[test]
fn decodebuffer_rejects_bad_offsets() {
    let mut buf = Decodebuffer::new(4);
    buf.push(b"abcdef");
    assert_eq!(buf.repeat(0, 1), Err(DecodeError::OffsetOutOfRange));
    assert_eq!(buf.repeat(7, 1), Err(DecodeError::OffsetOutOfRange));
    // within the held bytes but beyond the window
    assert_eq!(buf.repeat(5, 1), Err(DecodeError::OffsetOutOfRange));
    assert_eq!(buf.repeat(4, 1), Ok(()));
}

#[test]
fn decodebuffer_drain_to_window_keeps_window() {
    let mut buf = Decodebuffer::new(4);
    buf.push(b"abcdef");
    assert_eq!(buf.can_drain_to_window_size(), Some(2));
    assert_eq!(buf.drain_to_window_size(), Some(b"ab".to_vec()));
    assert_eq!(buf.can_drain_to_window_size(), None);
    assert_eq!(buf.can_drain(), 4);
    assert_eq!(buf.drain(), b"cdef".to_vec());
}

#[test]
fn offset_history_front_is_code_minus_three() {
    // a code above 3 resolves to itself minus 3 and pushes onto the history
    let hist = [1u32, 4, 8];
    let (actual, new_hist) = resolve_offset(10, 1, &hist).unwrap();
    assert_eq!(actual, 7);
    assert_eq!(new_hist, [7, 1, 4]);
}

#[test]
fn offset_history_repeat_codes() {
    let hist = [5u32, 6, 7];
    // code 1 with literals: the front entry, history unchanged
    assert_eq!(resolve_offset(1, 2, &hist).unwrap(), (5, [5, 6, 7]));
    // code 2 with literals: the second entry swaps to the front
    assert_eq!(resolve_offset(2, 2, &hist).unwrap(), (6, [6, 5, 7]));
    // code 3 with literals: the third entry rotates to the front
    assert_eq!(resolve_offset(3, 2, &hist).unwrap(), (7, [7, 5, 6]));
    // no literals shifts the codes by one
    assert_eq!(resolve_offset(1, 0, &hist).unwrap(), (6, [6, 5, 7]));
    assert_eq!(resolve_offset(2, 0, &hist).unwrap(), (7, [7, 5, 6]));
    // code 3 without literals: front minus one
    assert_eq!(resolve_offset(3, 0, &hist).unwrap(), (4, [4, 5, 6]));
    // a zero code is corruption
    assert_eq!(resolve_offset(0, 1, &hist), Err(DecodeError::OffsetOutOfRange));
}

#[test]
fn offset_underflow_is_corruption() {
    // no literals, code 3, front entry 1: the shifted offset would be 0
    let hist = [1u32, 4, 8];
    assert_eq!(resolve_offset(3, 0, &hist), Err(DecodeError::OffsetOutOfRange));
}

#[test]
fn execute_one_sequence_with_self_reference() {
    // literals "hello", then copy five bytes from one byte back: the copy
    // re-reads what it just wrote
    let mut scratch = DecoderScratch::new(1024);
    scratch.literals_buffer = b"hello".to_vec();
    scratch.sequences = vec![Sequence { ll: 5, ml: 5, of: 4 }];
    execute_sequences(&mut scratch).unwrap();
    assert_eq!(scratch.offset_hist, [1, 1, 4]);
    assert_eq!(scratch.buffer.drain(), b"helloooooo".to_vec());
}

#[test]
fn execute_reuses_pushed_offset() {
    let mut scratch = DecoderScratch::new(1024);
    scratch.literals_buffer = b"abcdefghij".to_vec();
    scratch.sequences = vec![
        Sequence { ll: 8, ml: 3, of: 10 },
        Sequence { ll: 2, ml: 2, of: 1 },
    ];
    execute_sequences(&mut scratch).unwrap();
    // of 10 resolves to 7 ("bcd" copied), then of 1 with literals reuses 7
    assert_eq!(scratch.offset_hist, [7, 1, 4]);
    assert_eq!(scratch.buffer.drain(), b"abcdefghbcdijgh".to_vec());
}

#[test]
fn execute_without_sequences_emits_literals() {
    let mut scratch = DecoderScratch::new(1024);
    scratch.literals_buffer = b"plain".to_vec();
    execute_sequences(&mut scratch).unwrap();
    assert_eq!(scratch.buffer.drain(), b"plain".to_vec());
}

#[test]
fn scratch_reset_restores_fresh_state() {
    let mut scratch = DecoderScratch::new(1024);
    scratch.buffer.push(b"junk");
    scratch.offset_hist = [9, 9, 9];
    scratch.literals_buffer.push(1);
    scratch.reset(2048);
    let fresh = DecoderScratch::new(2048);
    assert_eq!(scratch.offset_hist, fresh.offset_hist);
    assert_eq!(scratch.buffer.len(), fresh.buffer.len());
    assert_eq!(scratch.buffer.get_window_size(), fresh.buffer.get_window_size());
    assert_eq!(scratch.literals_buffer, fresh.literals_buffer);
    assert!(scratch.fse.ll_rle.is_none() && scratch.fse.of_rle.is_none());
    assert!(scratch.huf.table.decode.is_empty());
}

#[test]
fn sequences_header_counts() {
    let mut h = SequencesHeader::new();
    assert_eq!(h.parse_from_header(&[0]).unwrap(), 1);
    assert_eq!(h.num_sequences, 0);

    assert_eq!(h.parse_from_header(&[5, 0x00]).unwrap(), 2);
    assert_eq!(h.num_sequences, 5);

    assert_eq!(h.parse_from_header(&[130, 7, 0x00]).unwrap(), 3);
    assert_eq!(h.num_sequences, (130 - 128) * 256 + 7);

    assert_eq!(h.parse_from_header(&[255, 1, 2, 0x00]).unwrap(), 4);
    assert_eq!(h.num_sequences, 1 + 2 * 256 + 0x7F00);

    // the two lowest mode bits are reserved
    assert_eq!(h.parse_from_header(&[5, 0x01]), Err(DecodeError::MalformedHeader));
    assert_eq!(h.parse_from_header(&[]), Err(DecodeError::InputTruncated));
}

#[test]
fn compression_modes_fields() {
    let m = CompressionModes(0b10_01_11_00);
    assert!(matches!(m.ll_mode(), ModeType::FSECompressed));
    assert!(matches!(m.of_mode(), ModeType::RLE));
    assert!(matches!(m.ml_mode(), ModeType::Repeat));
    assert!(matches!(CompressionModes::decode_mode(0), ModeType::Predefined));
}

#[test]
fn huffman_direct_weights_builds_expanded_table() {
    // one explicit weight (symbol 0, weight 1); the implied last weight makes
    // two one-bit codes
    let mut table = HuffmanTable::new();
    let n = table.build_decoder(&[0x80, 0x10]).unwrap();
    assert_eq!(n, 2);
    assert_eq!(table.max_num_bits, 1);
    assert_eq!(table.decode.len(), 2);
    assert_eq!(table.decode[0].symbol, 0);
    assert_eq!(table.decode[1].symbol, 1);
    assert_eq!(table.decode[0].num_bits, 1);
}

#[test]
fn fse_table_description_parses_and_builds() {
    // accuracy log 5 (low nibble 0), one symbol taking all 32 slots:
    // the value 33 is written as six one-bits
    let mut table = FSETable::new();
    let n = table.build_decoder(&[0xF0, 0x03], 9).unwrap();
    assert_eq!(n, 2);
    assert_eq!(table.accuracy_log, 5);
    assert_eq!(table.decode.len(), 32);
    assert_eq!(table.decode[0].symbol, 0);
    assert_eq!(table.decode[0].num_bits, 0);
    assert_eq!(table.decode[0].base_line, 0);
    assert_eq!(table.decode[31].base_line, 31);
}

#[test]
fn fse_rejects_wrong_probability_sum() {
    let mut table = FSETable::new();
    // 5 slots announced for a 64-slot table
    assert_eq!(
        table.build_from_probabilities(6, &vec![5]),
        Err(DecodeError::EntropyBuildError)
    );
}

#[test]
fn huffman_weights_from_fse_compressed_stream() {
    // header byte 4: a four-byte weight stream follows. Its FSE table splits
    // 32 slots between weights 0 and 1; the reversed bit stream starts both
    // decoders on a self-looping weight-1 state and yields seven weights of
    // one, so the implied last weight completes eight three-bit codes.
    let mut table = HuffmanTable::new();
    let n = table.build_decoder(&[0x04, 0x10, 0x3F, 0xBF, 0xB5]).unwrap();
    assert_eq!(n, 5);
    assert_eq!(table.max_num_bits, 3);
    assert_eq!(table.decode.len(), 8);
    for i in 0..8 {
        assert_eq!(table.decode[i].symbol as usize, i);
        assert_eq!(table.decode[i].num_bits, 3);
    }
}

fn empty_fse_scratch() -> zstd_decoder::scratch::FSEScratch {
    zstd_decoder::scratch::FSEScratch {
        offsets: FSETable::new(),
        of_rle: None,
        literal_lengths: FSETable::new(),
        ll_rle: None,
        match_lengths: FSETable::new(),
        ml_rle: None,
    }
}

#[test]
fn sequences_repeat_mode_without_tables_fails() {
    let mut header = SequencesHeader::new();
    // one sequence, all three tables in Repeat mode
    assert_eq!(header.parse_from_header(&[0x01, 0xFC]).unwrap(), 2);
    let mut scratch = empty_fse_scratch();
    let mut seqs = Vec::new();
    assert_eq!(
        zstd_decoder::sequence_section_decoder::decode_sequences(
            &header,
            &[0x04],
            &mut scratch,
            &mut seqs
        ),
        Err(DecodeError::EntropyBuildError)
    );
}

#[test]
fn leftover_bits_after_sequences_are_corruption() {
    let mut header = SequencesHeader::new();
    // one sequence, all three tables in RLE mode
    assert_eq!(header.parse_from_header(&[0x01, 0x54]).unwrap(), 2);
    let mut scratch = empty_fse_scratch();
    let mut seqs = Vec::new();
    // the marker sits one bit too high: one unread bit remains at the end
    assert_eq!(
        zstd_decoder::sequence_section_decoder::decode_sequences(
            &header,
            &[0x05, 0x02, 0x02, 0x08],
            &mut scratch,
            &mut seqs
        ),
        Err(DecodeError::BitstreamCorruption)
    );
    // with the marker in place the same input decodes
    let mut scratch2 = empty_fse_scratch();
    assert_eq!(
        zstd_decoder::sequence_section_decoder::decode_sequences(
            &header,
            &[0x05, 0x02, 0x02, 0x04],
            &mut scratch2,
            &mut seqs
        ),
        Ok(())
    );
    assert_eq!(seqs.len(), 1);
    assert_eq!(seqs[0], Sequence { ll: 5, ml: 5, of: 4 });
}
