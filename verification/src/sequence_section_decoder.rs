//! Decoding the sequences section: per-block FSE table setup and the
//! three-decoder loop that emits sequence triples.

use vstd::prelude::*;

verus! {

use crate::bits::BitReaderReversed;
use crate::bits::lemma_pow2_le;
use crate::errors::DecodeError;
use crate::fse::FSEDecoder;
use crate::fse::FSETable;
use crate::huff0::skip_padding;
use crate::scratch::FSEScratch;
use crate::sequence_section::CompressionModes;
use crate::sequence_section::ModeType;
use crate::sequence_section::Sequence;
use crate::sequence_section::SequencesHeader;
use crate::sequence_section::spec_decode_mode;
use vstd::arithmetic::power2::pow2;
use crate::bits::bits_below;

/// Whether a modes byte puts all three tables in RLE mode.
pub open spec fn spec_all_rle_modes(m: u8) -> bool {
    &&& spec_decode_mode((m >> 6) as u8) == ModeType::RLE
    &&& spec_decode_mode(((m >> 4) & 3) as u8) == ModeType::RLE
    &&& spec_decode_mode(((m >> 2) & 3) as u8) == ModeType::RLE
}

/// With all tables in RLE mode the bits one sequence consumes are fixed:
/// the offset symbol's own count plus the extra bits of the two length codes.
pub open spec fn spec_rle_step(src: Seq<u8>) -> int {
    src[1] + spec_ml_lookup(src[2]).1 + spec_ll_lookup(src[0]).1
}

/// The triple the `i`-th sequence decodes to (as mathematical integers) when
/// all tables are in RLE mode: `src` holds the three symbol bytes and then
/// the bit stream, read downward from `top`, in the order offset extra,
/// match-length extra, literal-length extra.
pub open spec fn spec_rle_sequence_at(src: Seq<u8>, top: int) -> (int, int, int) {
    let stream = src.skip(3);
    let of_sym = src[1];
    let ml = spec_ml_lookup(src[2]);
    let ll = spec_ll_lookup(src[0]);
    let of_v = pow2(of_sym as nat) + bits_below(stream, top, of_sym as nat) as int;
    let ml_v = ml.0 + bits_below(stream, top - of_sym, ml.1 as nat) as int;
    let ll_v = ll.0 + bits_below(stream, top - of_sym - ml.1, ll.1 as nat) as int;
    (ll_v as int, ml_v as int, of_v as int)
}

/// The literal-length code table: baseline and extra bits for a symbol.
pub open spec fn spec_ll_lookup(sym: u8) -> (u32, u8) {
    if sym <= 15 {
        (sym as u32, 0u8)
    } else if sym == 16 {
        (16u32, 1u8)
    } else if sym == 17 {
        (18u32, 1u8)
    } else if sym == 18 {
        (20u32, 1u8)
    } else if sym == 19 {
        (22u32, 1u8)
    } else if sym == 20 {
        (24u32, 2u8)
    } else if sym == 21 {
        (28u32, 2u8)
    } else if sym == 22 {
        (32u32, 3u8)
    } else if sym == 23 {
        (40u32, 3u8)
    } else if sym == 24 {
        (48u32, 4u8)
    } else if sym == 25 {
        (64u32, 6u8)
    } else if sym == 26 {
        (128u32, 7u8)
    } else if sym == 27 {
        (256u32, 8u8)
    } else if sym == 28 {
        (512u32, 9u8)
    } else if sym == 29 {
        (1024u32, 10u8)
    } else if sym == 30 {
        (2048u32, 11u8)
    } else if sym == 31 {
        (4096u32, 12u8)
    } else if sym == 32 {
        (8192u32, 13u8)
    } else if sym == 33 {
        (16384u32, 14u8)
    } else if sym == 34 {
        (32768u32, 15u8)
    } else {
        (65536u32, 16u8)
    }
}

/// The match-length code table: baseline and extra bits for a symbol.
pub open spec fn spec_ml_lookup(sym: u8) -> (u32, u8) {
    if sym <= 31 {
        ((sym + 3) as u32, 0u8)
    } else if sym == 32 {
        (35u32, 1u8)
    } else if sym == 33 {
        (37u32, 1u8)
    } else if sym == 34 {
        (39u32, 1u8)
    } else if sym == 35 {
        (41u32, 1u8)
    } else if sym == 36 {
        (43u32, 2u8)
    } else if sym == 37 {
        (47u32, 2u8)
    } else if sym == 38 {
        (51u32, 3u8)
    } else if sym == 39 {
        (59u32, 3u8)
    } else if sym == 40 {
        (67u32, 4u8)
    } else if sym == 41 {
        (83u32, 4u8)
    } else if sym == 42 {
        (99u32, 5u8)
    } else if sym == 43 {
        (131u32, 7u8)
    } else if sym == 44 {
        (259u32, 8u8)
    } else if sym == 45 {
        (515u32, 9u8)
    } else if sym == 46 {
        (1027u32, 10u8)
    } else if sym == 47 {
        (2051u32, 11u8)
    } else if sym == 48 {
        (4099u32, 12u8)
    } else if sym == 49 {
        (8195u32, 13u8)
    } else if sym == 50 {
        (16387u32, 14u8)
    } else if sym == 51 {
        (32771u32, 15u8)
    } else {
        (65539u32, 16u8)
    }
}

/// Baseline and extra bits for a literal-length code.
pub fn lookup_ll_code(sym: u8) -> (r: (u32, u8))
    requires
        sym <= 35,
    ensures
        r == spec_ll_lookup(sym),
        r.1 <= 16,
        r.0 <= 65536,
{
    if sym <= 15 {
        (sym as u32, 0)
    } else {
        match sym {
            16 => (16, 1),
            17 => (18, 1),
            18 => (20, 1),
            19 => (22, 1),
            20 => (24, 2),
            21 => (28, 2),
            22 => (32, 3),
            23 => (40, 3),
            24 => (48, 4),
            25 => (64, 6),
            26 => (128, 7),
            27 => (256, 8),
            28 => (512, 9),
            29 => (1024, 10),
            30 => (2048, 11),
            31 => (4096, 12),
            32 => (8192, 13),
            33 => (16384, 14),
            34 => (32768, 15),
            _ => (65536, 16),
        }
    }
}

/// Baseline and extra bits for a match-length code.
pub fn lookup_ml_code(sym: u8) -> (r: (u32, u8))
    requires
        sym <= 52,
    ensures
        r == spec_ml_lookup(sym),
        r.1 <= 16,
        r.0 <= 65539,
{
    if sym <= 31 {
        ((sym as u32) + 3, 0)
    } else {
        match sym {
            32 => (35, 1),
            33 => (37, 1),
            34 => (39, 1),
            35 => (41, 1),
            36 => (43, 2),
            37 => (47, 2),
            38 => (51, 3),
            39 => (59, 3),
            40 => (67, 4),
            41 => (83, 4),
            42 => (99, 5),
            43 => (131, 7),
            44 => (259, 8),
            45 => (515, 9),
            46 => (1027, 10),
            47 => (2051, 11),
            48 => (4099, 12),
            49 => (8195, 13),
            50 => (16387, 14),
            51 => (32771, 15),
            _ => (65539, 16),
        }
    }
}

/// The default literal-lengths distribution (accuracy log 6).
pub fn ll_default_probs() -> (r: Vec<i32>)
    ensures
        r@ =~= seq![
            4i32, 3, 2, 2, 2, 2, 2, 2, 2, 2, 2, 2, 2, 1, 1, 1, 2, 2, 2, 2, 2, 2, 2, 2, 2, 3, 2,
            1, 1, 1, 1, 1, -1i32, -1i32, -1i32, -1i32,
        ],
{
    vec![
        4, 3, 2, 2, 2, 2, 2, 2, 2, 2, 2, 2, 2, 1, 1, 1, 2, 2, 2, 2, 2, 2, 2, 2, 2, 3, 2, 1, 1, 1,
        1, 1, -1, -1, -1, -1,
    ]
}

/// The default match-lengths distribution (accuracy log 6).
pub fn ml_default_probs() -> (r: Vec<i32>)
    ensures
        r@ =~= seq![
            1i32, 4, 3, 2, 2, 2, 2, 2, 2, 1, 1, 1, 1, 1, 1, 1, 1, 1, 1, 1, 1, 1, 1, 1, 1, 1, 1,
            1, 1, 1, 1, 1, 1, 1, 1, 1, 1, 1, 1, 1, 1, 1, 1, 1, 1, 1, -1i32, -1i32, -1i32, -1i32, -1i32, -1i32, -1i32,
        ],
{
    vec![
        1, 4, 3, 2, 2, 2, 2, 2, 2, 1, 1, 1, 1, 1, 1, 1, 1, 1, 1, 1, 1, 1, 1, 1, 1, 1, 1, 1, 1, 1,
        1, 1, 1, 1, 1, 1, 1, 1, 1, 1, 1, 1, 1, 1, 1, 1, -1, -1, -1, -1, -1, -1, -1,
    ]
}

/// The default offset-codes distribution (accuracy log 5).
pub fn of_default_probs() -> (r: Vec<i32>)
    ensures
        r@ =~= seq![
            1i32, 1, 1, 1, 1, 1, 2, 2, 2, 1, 1, 1, 1, 1, 1, 1, 1, 1, 1, 1, 1, 1, 1, 1, -1i32, -1i32,
            -1i32, -1i32, -1i32,
        ],
{
    vec![
        1, 1, 1, 1, 1, 1, 2, 2, 2, 1, 1, 1, 1, 1, 1, 1, 1, 1, 1, 1, 1, 1, 1, 1, -1, -1, -1, -1,
        -1,
    ]
}

/// Sets up one of the three FSE tables according to its mode. Returns the
/// bytes consumed from `source`. `kind` selects the accuracy-log cap and the
/// default distribution: 0 literal lengths, 1 offsets, 2 match lengths.
fn setup_table(
    table: &mut FSETable,
    rle: &mut Option<u8>,
    mode: ModeType,
    source: &[u8],
    kind: u8,
) -> (r: Result<usize, DecodeError>)
    requires
        old(table).is_empty_spec() || old(table).wf(),
        kind <= 2,
    ensures
        final(table).is_empty_spec() || final(table).wf(),
        r matches Ok(n) ==> n <= source@.len(),
        r is Ok && (mode == ModeType::Predefined || mode == ModeType::FSECompressed) ==> (*final(rle)) is None,
        r is Ok && (mode == ModeType::Predefined || mode == ModeType::FSECompressed)
            ==> final(table).wf(),
        r is Ok && mode == ModeType::RLE ==> source@.len() >= 1 && *final(rle) == Some(
            source@[0],
        ) && r == Ok::<usize, DecodeError>(1usize),
        r is Ok && mode == ModeType::Repeat ==> (final(table).wf() || (*final(rle)) is Some),
        mode == ModeType::Repeat ==> *final(table) == *old(table) && *final(rle) == *old(rle),
    {
    match mode {
        ModeType::Predefined => {
            let probs: Vec<i32> = if kind == 0 {
                ll_default_probs()
            } else if kind == 1 {
                of_default_probs()
            } else {
                ml_default_probs()
            };
            let acc: u8 = if kind == 1 {
                5
            } else {
                6
            };
            match table.build_from_probabilities(acc, &probs) {
                Ok(()) => {},
                Err(e) => { return Err(e) },
            }
            *rle = None;
            Ok(0)
        },
        ModeType::RLE => {
            if source.len() < 1 {
                return Err(DecodeError::InputTruncated);
            }
            *rle = Some(source[0]);
            Ok(1)
        },
        ModeType::FSECompressed => {
            let max_log: u8 = if kind == 1 {
                8
            } else {
                9
            };
            let n = match table.build_decoder(source, max_log) {
                Ok(n) => n,
                Err(e) => { return Err(e) },
            };
            *rle = None;
            Ok(n)
        },
        ModeType::Repeat => {
            if table.is_built() {
                Ok(0)
            } else {
                match rle {
                    Some(_) => Ok(0),
                    None => Err(DecodeError::EntropyBuildError),
                }
            }
        },
    }
}

/// Decodes `num_sequences` sequence triples from the section's bit stream,
/// after setting up the three FSE tables per the modes byte. On success the
/// stream's bits are consumed exactly and every emitted offset code is
/// positive.
pub fn decode_sequences(
    section: &SequencesHeader,
    source: &[u8],
    scratch: &mut FSEScratch,
    target: &mut Vec<Sequence>,
) -> (r: Result<(), DecodeError>)
    requires
        source@.len() * 8 <= i64::MAX,
        old(scratch).tables_ok(),
    ensures
        final(scratch).tables_ok(),
        r is Ok ==> final(target)@.len() == section.num_sequences,
        r is Ok ==> forall|i: int|
            0 <= i < final(target)@.len() ==> (#[trigger] final(target)@[i]).of >= 1,
        // with all three tables in RLE mode, every triple is pinned: the
        // stream holds exactly num_sequences * step bits after its padding,
        // and sequence i reads its extras at bit position (n - i) * step
        section.modes matches Some(mm) ==> ((spec_all_rle_modes(mm.0) && source@.len() >= 3
            && source@[0] <= 35 && source@[1] <= 31 && source@[2] <= 52 && r is Ok) ==> forall|
            i: int,
        |
            0 <= i < section.num_sequences ==> {
                let t = spec_rle_sequence_at(
                    source@,
                    (section.num_sequences - i) * spec_rle_step(source@),
                );
                &&& (#[trigger] final(target)@[i]).ll == t.0
                &&& final(target)@[i].ml == t.1
                &&& final(target)@[i].of == t.2
            }),
{
    let modes = match section.modes {
        Some(m) => m,
        None => { return Err(DecodeError::MalformedHeader) },
    };
    let mut cursor: usize = 0;

    let ll_n = match setup_table(
        &mut scratch.literal_lengths,
        &mut scratch.ll_rle,
        modes.ll_mode(),
        source,
        0,
    ) {
        Ok(n) => n,
        Err(e) => { return Err(e) },
    };
    cursor = cursor + ll_n;
    let of_rest = vstd::slice::slice_subrange(source, cursor, source.len());
    let of_n = match setup_table(
        &mut scratch.offsets,
        &mut scratch.of_rle,
        modes.of_mode(),
        of_rest,
        1,
    ) {
        Ok(n) => n,
        Err(e) => { return Err(e) },
    };
    cursor = cursor + of_n;
    let ml_rest = vstd::slice::slice_subrange(source, cursor, source.len());
    let ml_n = match setup_table(
        &mut scratch.match_lengths,
        &mut scratch.ml_rle,
        modes.ml_mode(),
        ml_rest,
        2,
    ) {
        Ok(n) => n,
        Err(e) => { return Err(e) },
    };
    cursor = cursor + ml_n;

    // the tables or RLE fallbacks the loop will read must now exist
    let ll_uses_rle = scratch.ll_rle.is_some();
    let of_uses_rle = scratch.of_rle.is_some();
    let ml_uses_rle = scratch.ml_rle.is_some();
    let ll_rle_byte = match scratch.ll_rle {
        Some(b) => b,
        None => 0,
    };
    let of_rle_byte = match scratch.of_rle {
        Some(b) => b,
        None => 0,
    };
    let ml_rle_byte = match scratch.ml_rle {
        Some(b) => b,
        None => 0,
    };
    if !ll_uses_rle && !scratch.literal_lengths.is_built() {
        return Err(DecodeError::EntropyBuildError);
    }
    if !of_uses_rle && !scratch.offsets.is_built() {
        return Err(DecodeError::EntropyBuildError);
    }
    if !ml_uses_rle && !scratch.match_lengths.is_built() {
        return Err(DecodeError::EntropyBuildError);
    }

    let ghost rle_hyp = (match section.modes {
        Some(mm) => spec_all_rle_modes(mm.0),
        None => false,
    }) && source@.len() >= 3 && source@[0] <= 35 && source@[1] <= 31 && source@[2] <= 52;
    proof {
        if rle_hyp {
            assert(cursor == 3);
            assert(scratch.ll_rle == Some(source@[0]));
            assert(scratch.of_rle == Some(source@[1]));
            assert(scratch.ml_rle == Some(source@[2]));
        }
    }

    let stream = vstd::slice::slice_subrange(source, cursor, source.len());
    proof {
        if rle_hyp {
            assert(stream@ =~= source@.skip(3));
        }
    }
    let mut br = BitReaderReversed::new(stream);
    match skip_padding(&mut br) {
        Ok(()) => {},
        Err(e) => { return Err(e) },
    }

    // initial states are read in the order LL, OF, ML
    let mut ll_dec = FSEDecoder::new(&scratch.literal_lengths);
    let mut of_dec = FSEDecoder::new(&scratch.offsets);
    let mut ml_dec = FSEDecoder::new(&scratch.match_lengths);
    if !ll_uses_rle {
        ll_dec.init_state(&mut br);
    }
    if !of_uses_rle {
        of_dec.init_state(&mut br);
    }
    if !ml_uses_rle {
        ml_dec.init_state(&mut br);
    }

    target.clear();
    let ghost b_start = br.bits();
    let n_seq = section.num_sequences as usize;
    let mut i: usize = 0;
    while i < n_seq
        invariant
            i <= n_seq,
            target@.len() == i,
            scratch.tables_ok(),
            br.wf(),
            ll_dec.wf() || ll_uses_rle,
            of_dec.wf() || of_uses_rle,
            ml_dec.wf() || ml_uses_rle,
            br.bits() >= -256,
            br.stream() == stream@,
            forall|j: int| 0 <= j < target@.len() ==> (#[trigger] target@[j]).of >= 1,
            n_seq == section.num_sequences,
            rle_hyp ==> {
                &&& ll_uses_rle && of_uses_rle && ml_uses_rle
                &&& ll_rle_byte == source@[0] && of_rle_byte == source@[1] && ml_rle_byte
                    == source@[2]
                &&& stream@ == source@.skip(3)
                &&& br.bits() == b_start - i * spec_rle_step(source@)
                &&& forall|j: int|
                    0 <= j < i ==> {
                        let t = spec_rle_sequence_at(
                            source@,
                            b_start - j * spec_rle_step(source@),
                        );
                        &&& (#[trigger] target@[j]).ll == t.0
                        &&& target@[j].ml == t.1
                        &&& target@[j].of == t.2
                    }
            },
        decreases n_seq - i,
    {
        if br.bits_remaining() < 0 {
            return Err(DecodeError::BitstreamCorruption);
        }
        proof {
            vstd::arithmetic::power2::lemma2_to64();
            vstd::arithmetic::power2::lemma2_to64_rest();
        }

        // offset: the symbol gives the extra-bit count and the power of two
        let of_sym: u8 = if of_uses_rle {
            of_rle_byte
        } else {
            of_dec.decode_symbol()
        };
        if of_sym > 31 {
            return Err(DecodeError::BitstreamCorruption);
        }
        let of_bits = br.get_bits(of_sym);
        proof {
            assert((1u64 << of_sym) >= 1 && (1u64 << of_sym) <= 0x8000_0000u64) by (bit_vector)
                requires
                    of_sym <= 31u8,
            ;
            lemma_pow2_le(of_sym as nat, 31);
        }
        let of_value: u64 = (1u64 << of_sym) + of_bits;
        if of_value > 0xFFFF_FFFF {
            return Err(DecodeError::OffsetOutOfRange);
        }
        let of: u32 = of_value as u32;

        // match length, then literal length
        let ml_sym: u8 = if ml_uses_rle {
            ml_rle_byte
        } else {
            ml_dec.decode_symbol()
        };
        if ml_sym > 52 {
            return Err(DecodeError::BitstreamCorruption);
        }
        let (ml_base, ml_extra) = lookup_ml_code(ml_sym);
        let ml_bits = br.get_bits(ml_extra);
        proof {
            lemma_pow2_le(ml_extra as nat, 16);
        }
        let ml: u32 = ml_base + (ml_bits as u32);

        let ll_sym: u8 = if ll_uses_rle {
            ll_rle_byte
        } else {
            ll_dec.decode_symbol()
        };
        if ll_sym > 35 {
            return Err(DecodeError::BitstreamCorruption);
        }
        let (ll_base, ll_extra) = lookup_ll_code(ll_sym);
        let ll_bits = br.get_bits(ll_extra);
        proof {
            lemma_pow2_le(ll_extra as nat, 16);
        }
        let ll: u32 = ll_base + (ll_bits as u32);

        proof {
            if rle_hyp {
                assert(1u64 << of_sym == pow2(of_sym as nat)) by {
                    vstd::bits::lemma_u64_shl_is_mul(1u64, of_sym as u64);
                }
                let step = spec_rle_step(source@);
                let t = spec_rle_sequence_at(source@, b_start - i * step);
                assert(of == t.2 && ml == t.1 && ll == t.0);
                assert((i + 1) * step == i * step + step) by (nonlinear_arith);
            }
        }
        target.push(Sequence { ll, ml, of });

        // state updates, in the order LL, ML, OF, skipped after the last
        if i + 1 < n_seq {
            if !ll_uses_rle {
                ll_dec.update_state(&mut br);
            }
            if !ml_uses_rle {
                ml_dec.update_state(&mut br);
            }
            if !of_uses_rle {
                of_dec.update_state(&mut br);
            }
        }
        i = i + 1;
    }

    if br.bits_remaining() != 0 {
        return Err(DecodeError::BitstreamCorruption);
    }
    proof {
        if rle_hyp {
            let step = spec_rle_step(source@);
            assert(b_start == n_seq * step);
            assert forall|j: int| 0 <= j < n_seq implies #[trigger] ((n_seq - j) * step)
                == b_start - j * step by {
                assert((n_seq - j) * step == n_seq * step - j * step) by (nonlinear_arith);
            }
        }
    }
    Ok(())
}

} // verus!
