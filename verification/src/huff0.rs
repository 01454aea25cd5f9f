//! Huff0 Huffman decoding tables and the stateful Huffman decoder.

use vstd::prelude::*;

verus! {

use vstd::arithmetic::power2::pow2;
use vstd::pervasive::VecAdditionalExecFns;
use crate::bits::BitReaderReversed;
use crate::bits::bits_below;
use crate::bits::pow2_u64;
use crate::bits::lemma_pow2_le;
use crate::errors::DecodeError;
use crate::fse::FSEDecoder;
use crate::fse::FSETable;

/// One row of a Huffman decoding table.
#[derive(Clone, Copy, Debug, PartialEq, Eq, Structural)]
pub struct HuffEntry {
    pub symbol: u8,
    pub num_bits: u8,
}

/// A Huff0 decoding table: `2^max_num_bits` rows, one per possible prefix.
pub struct HuffmanTable {
    pub decode: Vec<HuffEntry>,
    pub max_num_bits: u8,
}

/// The largest code length Huff0 allows.
pub const MAX_HUFF_BITS: u8 = 11;

/// The number of bits the padding takes: the position (counted from 1, from
/// the stream's top bit down) of the first set bit at or below bit `k`; 9
/// when none of the top eight bits is set.
pub open spec fn spec_padding_len(s: Seq<u8>, k: int) -> int
    decreases 9 - k,
{
    if k > 8 {
        9
    } else if crate::bits::stream_bit(s, s.len() * 8 - k) == 1 {
        k
    } else {
        spec_padding_len(s, k + 1)
    }
}

/// Where the padding scan lands: a marker within eight bits, or none at all,
/// in which case every scanned top bit is zero.
pub proof fn lemma_padding_len_bits(s: Seq<u8>, k: int)
    requires
        1 <= k <= 9,
    ensures
        k <= spec_padding_len(s, k) <= 9,
        spec_padding_len(s, k) <= 8 ==> crate::bits::stream_bit(
            s,
            (s.len() * 8) as int - spec_padding_len(s, k),
        ) == 1,
        spec_padding_len(s, k) > 8 ==> forall|j: int|
            k <= j <= 8 ==> #[trigger] crate::bits::stream_bit(s, (s.len() * 8) as int - j) == 0,
    decreases 9 - k,
{
    if k <= 8 && crate::bits::stream_bit(s, (s.len() * 8) as int - k) != 1 {
        crate::bits::lemma_stream_bit_le_one(s, (s.len() * 8) as int - k);
        lemma_padding_len_bits(s, k + 1);
    }
}

/// The top eight bits are all zero exactly when no padding marker is found.
pub proof fn lemma_padding_vs_top_bits(s: Seq<u8>)
    ensures
        spec_padding_len(s, 1) > 8 <==> bits_below(s, (s.len() * 8) as int, 8) == 0,
{
    lemma_padding_len_bits(s, 1);
    if spec_padding_len(s, 1) > 8 {
        lemma_all_top_bits_zero(s, (s.len() * 8) as int, 8);
    } else {
        let pad = spec_padding_len(s, 1);
        assert(bits_below(s, (s.len() * 8) as int, pad as nat) >= 1) by {
            crate::bits::lemma_stream_bit_le_one(s, (s.len() * 8) as int - pad);
        }
        if bits_below(s, (s.len() * 8) as int, 8) == 0 {
            crate::bits::lemma_bits_below_zero_prefix(s, (s.len() * 8) as int, pad as nat, 8);
        }
    }
}

/// Zero in each of the top `n` bits means a zero `n`-bit prefix value.
proof fn lemma_all_top_bits_zero(s: Seq<u8>, top: int, n: nat)
    requires
        forall|j: int| 1 <= j <= n ==> #[trigger] crate::bits::stream_bit(s, top - j) == 0,
    ensures
        bits_below(s, top, n) == 0,
    decreases n,
{
    if n > 0 {
        lemma_all_top_bits_zero(s, top, (n - 1) as nat);
    }
}

/// Discards the reversed-stream padding: zero bits down from the top of the
/// stream until the single marker 1 bit, which is consumed too. More than 7
/// zero bits mean corruption.
pub fn skip_padding(br: &mut BitReaderReversed<'_>) -> (r: Result<(), DecodeError>)
    requires
        old(br).wf(),
        old(br).bits() >= i64::MIN + 64,
    ensures
        final(br).wf(),
        final(br).stream() == old(br).stream(),
        // the marker is found exactly when the top eight bits are not all zero
        r is Ok <==> bits_below(old(br).stream(), old(br).bits(), 8) != 0,
        r is Ok ==> {
            &&& 1 <= old(br).bits() - final(br).bits() <= 8
            &&& bits_below(
                old(br).stream(),
                old(br).bits(),
                (old(br).bits() - final(br).bits()) as nat,
            ) == 1
            &&& (old(br).bits() == old(br).stream().len() * 8 ==> old(br).bits() - final(br).bits() == spec_padding_len(old(br).stream(), 1))
        },
        r is Err ==> r == Err::<(), DecodeError>(DecodeError::BitstreamCorruption)
            && final(br).bits() == old(br).bits() - 8,
{
    let mut skipped: u8 = 0;
    while skipped < 8
        invariant
            br.wf(),
            br.stream() == old(br).stream(),
            skipped <= 8,
            br.bits() == old(br).bits() - skipped,
            old(br).bits() >= i64::MIN + 64,
            bits_below(old(br).stream(), old(br).bits(), skipped as nat) == 0,
            old(br).bits() == old(br).stream().len() * 8 ==> spec_padding_len(
                old(br).stream(),
                1,
            ) == spec_padding_len(old(br).stream(), skipped + 1),
        decreases 8 - skipped,
    {
        let bit = br.get_bits(1);
        proof {
            vstd::arithmetic::power2::lemma2_to64();
        }
        if bit == 1 {
            proof {
                // a found marker contradicts an all-zero 8-bit prefix
                if bits_below(old(br).stream(), old(br).bits(), 8) == 0 {
                    crate::bits::lemma_bits_below_zero_prefix(
                        old(br).stream(),
                        old(br).bits(),
                        (skipped + 1) as nat,
                        8,
                    );
                }
                if old(br).bits() == old(br).stream().len() * 8 {
                    assert(crate::bits::stream_bit(
                        old(br).stream(),
                        old(br).stream().len() * 8 - (skipped + 1),
                    ) == 1);
                    assert(spec_padding_len(old(br).stream(), skipped + 1) == skipped + 1);
                }
            }
            return Ok(());
        }
        skipped = skipped + 1;
    }
    proof {
        assert(bits_below(old(br).stream(), old(br).bits(), 8) == 0);
    }
    Err(DecodeError::BitstreamCorruption)
}

impl HuffmanTable {
    /// A built table: the row count matches the longest code, and every row
    /// consumes at least one bit.
    pub open spec fn wf(&self) -> bool {
        &&& 1 <= self.max_num_bits <= MAX_HUFF_BITS
        &&& self.decode@.len() == pow2(self.max_num_bits as nat)
        &&& forall|i: int|
            0 <= i < self.decode@.len() ==> 1 <= (#[trigger] self.decode@[i]).num_bits
                <= self.max_num_bits
    }

    /// Empty, not yet built.
    pub open spec fn is_empty_spec(&self) -> bool {
        self.decode@.len() == 0
    }

    pub fn new() -> (r: Self)
        ensures
            r.is_empty_spec(),
    {
        HuffmanTable { decode: Vec::new(), max_num_bits: 0 }
    }

    pub fn reset(&mut self)
        ensures
            final(self).is_empty_spec(),
    {
        self.decode = Vec::new();
        self.max_num_bits = 0;
    }

    pub fn is_built(&self) -> (r: bool)
        ensures
            r == !self.is_empty_spec(),
    {
        self.decode.len() > 0
    }

    /// Builds the table from a weights header: a header byte below 128 means
    /// the weights are FSE-compressed (the byte is their compressed size), 128
    /// or more means `header - 127` direct 4-bit weights. Returns the bytes
    /// consumed from `source`.
    pub fn build_decoder(&mut self, source: &[u8]) -> (r: Result<u32, DecodeError>)
        ensures
            r matches Ok(n) ==> final(self).wf() && 1 <= n <= source@.len(),
            r is Err ==> *final(self) == *old(self) || final(self).wf(),
    {
        if source.len() == 0 {
            return Err(DecodeError::InputTruncated);
        }
        if source.len() > 0x0010_0000 {
            return Err(DecodeError::MalformedHeader);
        }
        let header = source[0];
        let mut weights: Vec<u8> = Vec::new();
        let bytes_read: usize;
        if header >= 128 {
            // direct weights, two 4-bit values per byte
            let n_sym: usize = (header - 127) as usize;
            let n_bytes: usize = (n_sym + 1) / 2;
            if source.len() < 1 + n_bytes {
                return Err(DecodeError::InputTruncated);
            }
            let mut i: usize = 0;
            while i < n_sym
                invariant
                    i <= n_sym <= 128,
                    weights@.len() == i,
                    n_bytes == (n_sym + 1) / 2,
                    1 + n_bytes <= source@.len(),
                decreases n_sym - i,
            {
                let byte = source[1 + i / 2];
                let w: u8 = if i % 2 == 0 {
                    byte >> 4
                } else {
                    byte & 0xF
                };
                proof {
                    assert(byte & 0xF < 16) by (bit_vector);
                    assert(byte >> 4 < 16) by (bit_vector);
                }
                weights.push(w);
                i = i + 1;
            }
            bytes_read = 1 + n_bytes;
        } else {
            // FSE-compressed weights over a reversed bit stream
            let size: usize = header as usize;
            if size == 0 {
                return Err(DecodeError::MalformedHeader);
            }
            if source.len() < 1 + size {
                return Err(DecodeError::InputTruncated);
            }
            let weight_source = vstd::slice::slice_subrange(source, 1, 1 + size);
            let mut wtable = FSETable::new();
            let fse_bytes = match wtable.build_decoder(weight_source, 6) {
                Ok(n) => n,
                Err(e) => { return Err(e) },
            };
            if fse_bytes >= weight_source.len() {
                return Err(DecodeError::InputTruncated);
            }
            let stream = vstd::slice::slice_subrange(weight_source, fse_bytes, size);
            let mut br = BitReaderReversed::new(stream);
            match skip_padding(&mut br) {
                Ok(()) => {},
                Err(e) => { return Err(e) },
            }
            let mut dec1 = FSEDecoder::new(&wtable);
            let mut dec2 = FSEDecoder::new(&wtable);
            dec1.init_state(&mut br);
            dec2.init_state(&mut br);
            loop
                invariant_except_break
                    br.bits() >= -12,
                invariant
                    br.wf(),
                    dec1.wf(),
                    dec2.wf(),
                    dec1.table.wf(),
                    dec2.table.wf(),
                    weights@.len() <= 255,
                    dec1.table.accuracy_log <= 6,
                    dec2.table.accuracy_log <= 6,
                decreases 255 - weights@.len(),
            {
                if weights.len() >= 255 {
                    return Err(DecodeError::EntropyBuildError);
                }
                weights.push(dec1.decode_symbol());
                dec1.update_state(&mut br);
                if br.bits_remaining() <= -1 {
                    if weights.len() >= 255 {
                        return Err(DecodeError::EntropyBuildError);
                    }
                    weights.push(dec2.decode_symbol());
                    break ;
                }
                if weights.len() >= 255 {
                    return Err(DecodeError::EntropyBuildError);
                }
                weights.push(dec2.decode_symbol());
                dec2.update_state(&mut br);
                if br.bits_remaining() <= -1 {
                    if weights.len() >= 255 {
                        return Err(DecodeError::EntropyBuildError);
                    }
                    weights.push(dec1.decode_symbol());
                    break ;
                }
            }
            bytes_read = 1 + size;
        }

        match self.build_from_weights(&weights) {
            Ok(()) => {},
            Err(e) => { return Err(e) },
        }
        if bytes_read > source.len() {
            return Err(DecodeError::InputTruncated);
        }
        Ok(bytes_read as u32)
    }

    /// Builds the expanded decoding table from explicit weights; the final
    /// symbol's weight is implied so the code space fills a power of two.
    pub fn build_from_weights(&mut self, weights: &Vec<u8>) -> (r: Result<(), DecodeError>)
        ensures
            r is Ok ==> final(self).wf(),
            r is Err ==> *final(self) == *old(self),
    {
        if weights.len() < 1 || weights.len() > 255 {
            return Err(DecodeError::EntropyBuildError);
        }
        // code space used by the explicit weights
        let mut weight_sum: u64 = 0;
        let mut s: usize = 0;
        while s < weights.len()
            invariant
                s <= weights@.len() <= 255,
                weight_sum <= s * 0x400,
            decreases weights@.len() - s,
        {
            let w = weights[s];
            if w > MAX_HUFF_BITS {
                return Err(DecodeError::EntropyBuildError);
            }
            if w > 0 {
                let add_span = pow2_u64(w - 1);
                proof {
                    vstd::arithmetic::power2::lemma2_to64();
                    lemma_pow2_le((w - 1) as nat, 10);
                }
                weight_sum = weight_sum + add_span;
            }
            s = s + 1;
        }
        if weight_sum == 0 {
            return Err(DecodeError::EntropyBuildError);
        }

        // the implied last weight tops the code space up to a power of two
        let max_bits = crate::fse::highest_bit(weight_sum as u32) + 1;
        if max_bits > MAX_HUFF_BITS {
            return Err(DecodeError::EntropyBuildError);
        }
        let table_size: u64 = pow2_u64(max_bits);
        proof {
            vstd::arithmetic::power2::lemma2_to64();
            lemma_pow2_le(max_bits as nat, 11);
        }
        if table_size < weight_sum {
            return Err(DecodeError::EntropyBuildError);
        }
        let left_over = table_size - weight_sum;
        if left_over == 0 || (left_over & (left_over - 1)) != 0 {
            // the remaining code space must be exactly one symbol's worth
            return Err(DecodeError::BitstreamCorruption);
        }
        let last_weight = crate::fse::highest_bit(left_over as u32) + 1;
        if last_weight > MAX_HUFF_BITS || last_weight > max_bits {
            return Err(DecodeError::EntropyBuildError);
        }

        // fill the table: weights ascending (longest codes first), symbols in
        // natural order within a weight, each symbol spanning 2^(weight-1) rows
        let tsize = table_size as usize;
        let mut decode: Vec<HuffEntry> = Vec::new();
        let mut f: usize = 0;
        while f < tsize
            invariant
                decode@.len() == f,
                f <= tsize,
            decreases tsize - f,
        {
            decode.push(HuffEntry { symbol: 0, num_bits: 0 });
            f = f + 1;
        }

        let n_total = weights.len() + 1;
        let mut pos: usize = 0;
        let mut w: u8 = 1;
        while w <= max_bits
            invariant
                1 <= w <= max_bits + 1,
                max_bits <= MAX_HUFF_BITS,
                1 <= max_bits,
                pos <= tsize,
                tsize == pow2(max_bits as nat),
                tsize <= 2048,
                decode@.len() == tsize,
                n_total == weights@.len() + 1,
                n_total <= 256,
                last_weight <= max_bits,
                forall|j: int|
                    0 <= j < pos ==> 1 <= (#[trigger] decode@[j]).num_bits <= max_bits,
            decreases max_bits + 1 - w,
        {
            let mut sym: usize = 0;
            while sym < n_total
                invariant
                    sym <= n_total,
                    1 <= w <= max_bits,
                    max_bits <= MAX_HUFF_BITS,
                    pos <= tsize,
                    tsize == pow2(max_bits as nat),
                    tsize <= 2048,
                    decode@.len() == tsize,
                    n_total == weights@.len() + 1,
                    n_total <= 256,
                    last_weight <= max_bits,
                    forall|j: int|
                        0 <= j < pos ==> 1 <= (#[trigger] decode@[j]).num_bits <= max_bits,
                decreases n_total - sym,
            {
                let sym_weight: u8 = if sym < weights.len() {
                    weights[sym]
                } else {
                    last_weight
                };
                if sym_weight == w {
                    let num_bits = max_bits + 1 - w;
                    let span = pow2_u64(w - 1) as usize;
                    proof {
                        vstd::arithmetic::power2::lemma2_to64();
                        lemma_pow2_le((w - 1) as nat, 10);
                    }
                    if pos + span > tsize {
                        return Err(DecodeError::EntropyBuildError);
                    }
                    let mut z: usize = 0;
                    while z < span
                        invariant
                            z <= span,
                            pos + span <= tsize,
                            decode@.len() == tsize,
                            1 <= num_bits <= max_bits,
                            forall|j: int|
                                0 <= j < pos + z ==> 1 <= (#[trigger] decode@[j]).num_bits
                                    <= max_bits,
                        decreases span - z,
                    {
                        decode.set(pos + z, HuffEntry { symbol: sym as u8, num_bits });
                        z = z + 1;
                    }
                    pos = pos + span;
                }
                sym = sym + 1;
            }
            w = w + 1;
        }
        if pos != tsize {
            return Err(DecodeError::EntropyBuildError);
        }

        self.decode = decode;
        self.max_num_bits = max_bits;
        Ok(())
    }
}

/// The symbols a built table emits from a reversed bit stream, starting at
/// table row `state` with `bits` unread bits: one symbol per step, each step
/// shifting in its row's bits, until fewer than a full code's worth of real
/// bits remains.
pub open spec fn spec_huff_symbols(t: &HuffmanTable, stream: Seq<u8>, state: int, bits: int) -> Seq<
    u8,
>
    decreases bits + 64,
    when t.wf() && 0 <= state < t.decode@.len() && bits >= -64
{
    if bits <= -(t.max_num_bits as int) {
        Seq::empty()
    } else {
        let e = t.decode@[state];
        let next = ((state as nat) * pow2(e.num_bits as nat) + bits_below(
            stream,
            bits,
            e.num_bits as nat,
        )) % pow2(t.max_num_bits as nat);
        seq![e.symbol] + spec_huff_symbols(t, stream, next as int, bits - e.num_bits)
    }
}

/// What one whole reversed Huffman stream decodes to: `None` when the padding
/// marker is missing; otherwise the symbols from the initial state the stream
/// opens with.
pub open spec fn spec_decode_stream(t: &HuffmanTable, stream: Seq<u8>) -> Option<Seq<u8>> {
    let pad = spec_padding_len(stream, 1);
    if pad > 8 {
        None
    } else {
        let b0 = stream.len() * 8 - pad;
        let init = bits_below(stream, b0, t.max_num_bits as nat);
        Some(spec_huff_symbols(t, stream, init as int, b0 - t.max_num_bits))
    }
}

/// A stateful Huffman decoder over a built table and a reversed bit stream.
pub struct HuffmanDecoder<'t> {
    pub state: usize,
    pub table: &'t HuffmanTable,
}

impl<'t> HuffmanDecoder<'t> {
    /// The decoder state stays inside its table.
    pub open spec fn wf(&self) -> bool {
        &&& self.table.wf()
        &&& self.state < self.table.decode@.len()
    }

    pub fn new(table: &'t HuffmanTable) -> (r: Self)
        requires
            table.wf(),
        ensures
            r.wf(),
            r.table == table,
            r.state == 0,
    {
        proof {
            vstd::arithmetic::power2::lemma_pow2_pos(table.max_num_bits as nat);
        }
        HuffmanDecoder { state: 0, table }
    }

    /// Reads the initial state: `max_num_bits` bits from the stream.
    pub fn init_state(&mut self, br: &mut BitReaderReversed<'_>)
        requires
            old(self).table.wf(),
            old(br).wf(),
            old(br).bits() - 64 >= i64::MIN,
        ensures
            final(self).wf(),
            final(self).table == old(self).table,
            final(br).wf(),
            final(br).stream() == old(br).stream(),
            final(br).bits() == old(br).bits() - old(self).table.max_num_bits,
            final(self).state == bits_below(
                old(br).stream(),
                old(br).bits(),
                old(self).table.max_num_bits as nat,
            ),
    {
        proof {
            vstd::arithmetic::power2::lemma2_to64();
            lemma_pow2_le(old(self).table.max_num_bits as nat, 11);
        }
        let bits = br.get_bits(self.table.max_num_bits);
        self.state = bits as usize;
    }

    /// The symbol the current row emits.
    pub fn decode_symbol(&self) -> (r: u8)
        requires
            self.wf(),
        ensures
            r == self.table.decode@[self.state as int].symbol,
    {
        self.table.decode[self.state].symbol
    }

    /// Advances the state: shifts in the current row's `num_bits` fresh bits,
    /// keeping the lowest `max_num_bits` bits as the new table index.
    pub fn next_state(&mut self, br: &mut BitReaderReversed<'_>)
        requires
            old(self).wf(),
            old(br).wf(),
            old(br).bits() - 64 >= i64::MIN,
        ensures
            final(self).wf(),
            final(self).table == old(self).table,
            final(br).wf(),
            final(br).stream() == old(br).stream(),
            final(br).bits() == old(br).bits()
                - old(self).table.decode@[old(self).state as int].num_bits,
            final(self).state == ((old(self).state as nat) * pow2(
                old(self).table.decode@[old(self).state as int].num_bits as nat,
            ) + bits_below(
                old(br).stream(),
                old(br).bits(),
                old(self).table.decode@[old(self).state as int].num_bits as nat,
            )) % pow2(old(self).table.max_num_bits as nat),
    {
        proof {
            vstd::arithmetic::power2::lemma2_to64();
            lemma_pow2_le(old(self).table.max_num_bits as nat, 11);
        }
        let e = self.table.decode[self.state];
        proof {
            lemma_pow2_le(e.num_bits as nat, old(self).table.max_num_bits as nat);
            assert((self.state as u64) * pow2(e.num_bits as nat) <= 2048 * 2048)
                by (nonlinear_arith)
                requires
                    (self.state as u64) < 2048,
                    pow2(e.num_bits as nat) <= 2048,
            ;
            vstd::bits::lemma_u64_shl_is_mul(self.state as u64, e.num_bits as u64);
        }
        let bits = br.get_bits(e.num_bits);
        let shifted: u64 = (self.state as u64) << e.num_bits;
        let raw: u64 = shifted + bits;
        let mask: u64 = pow2_u64(self.table.max_num_bits) - 1;
        let new_state: u64 = raw & mask;
        proof {
            let m = self.table.max_num_bits as nat;
            vstd::arithmetic::power2::lemma_pow2_pos(m);
            assert(mask == vstd::bits::low_bits_mask(m));
            vstd::bits::lemma_u64_low_bits_mask_is_mod(raw, m);
            vstd::arithmetic::power2::lemma_pow2_pos(m);
            assert(new_state == raw % (pow2(m) as u64));
            assert(raw == (old(self).state as nat) * pow2(e.num_bits as nat) + bits);
            vstd::arithmetic::div_mod::lemma_mod_bound(raw as int, pow2(m) as int);
        }
        self.state = new_state as usize;
    }
}

} // verus!
