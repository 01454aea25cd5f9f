//! Finite State Entropy decoding tables and the stateful FSE decoder.

use vstd::prelude::*;

verus! {

use vstd::arithmetic::power2::pow2;
use vstd::pervasive::VecAdditionalExecFns;
use crate::bits::BitReaderLsb;
use crate::bits::BitReaderReversed;
use crate::bits::bits_below;
use crate::bits::pow2_u64;
use crate::errors::DecodeError;

/// One row of an FSE decoding table.
#[derive(Clone, Copy, Debug, PartialEq, Eq, Structural)]
pub struct Entry {
    pub symbol: u8,
    pub num_bits: u8,
    pub base_line: u32,
}

/// An FSE decoding table: `2^accuracy_log` rows, each carrying the symbol it
/// emits and the transition to the next state.
pub struct FSETable {
    pub decode: Vec<Entry>,
    pub accuracy_log: u8,
}

/// The largest accuracy log any zstd FSE table may use.
pub const MAX_ACCURACY_LOG: u8 = 9;

impl FSETable {
    /// A built table: the row count matches the accuracy log, and every
    /// transition lands inside the table.
    pub open spec fn wf(&self) -> bool {
        &&& 1 <= self.accuracy_log <= MAX_ACCURACY_LOG
        &&& self.decode@.len() == pow2(self.accuracy_log as nat)
        &&& forall|i: int|
            0 <= i < self.decode@.len() ==> {
                &&& (#[trigger] self.decode@[i]).num_bits <= self.accuracy_log
                &&& self.decode@[i].base_line + pow2(self.decode@[i].num_bits as nat)
                    <= self.decode@.len()
            }
    }

    /// Empty, not yet built.
    pub open spec fn is_empty_spec(&self) -> bool {
        self.decode@.len() == 0
    }

    pub fn new() -> (r: Self)
        ensures
            r.is_empty_spec(),
    {
        FSETable { decode: Vec::new(), accuracy_log: 0 }
    }

    pub fn reset(&mut self)
        ensures
            final(self).is_empty_spec(),
    {
        self.decode = Vec::new();
        self.accuracy_log = 0;
    }

    pub fn is_built(&self) -> (r: bool)
        ensures
            r == !self.is_empty_spec(),
    {
        self.decode.len() > 0
    }

    /// Builds the decoding table from a normalized probability distribution:
    /// `probs[s]` is the slot count of symbol `s`, `-1` marks a
    /// low-probability symbol with one slot at the table's end, `0` an absent
    /// symbol. The counts must fill the table exactly.
    pub fn build_from_probabilities(&mut self, acc_log: u8, probs: &Vec<i32>) -> (r: Result<
        (),
        DecodeError,
    >)
        ensures
            r is Ok ==> final(self).wf() && final(self).accuracy_log == acc_log,
            r is Err ==> *final(self) == *old(self) && r == Err::<(), DecodeError>(
                DecodeError::EntropyBuildError,
            ),
    {
        if acc_log < 1 || acc_log > MAX_ACCURACY_LOG {
            return Err(DecodeError::EntropyBuildError);
        }
        if probs.len() > 256 {
            return Err(DecodeError::EntropyBuildError);
        }
        let table_size: usize = pow2_u64(acc_log) as usize;
        proof {
            vstd::arithmetic::power2::lemma2_to64();
            if (acc_log as nat) < 9 {
                vstd::arithmetic::power2::lemma_pow2_strictly_increases(acc_log as nat, 9);
            }
            assert(table_size == pow2(acc_log as nat));
            assert(2 <= table_size <= 512);
        }

        // Validate: the non-negative counts plus one slot per low-probability
        // symbol must sum to the table size.
        let mut slots: u64 = 0;
        let mut s: usize = 0;
        while s < probs.len()
            invariant
                s <= probs@.len() <= 256,
                slots <= s * 0x8000_0000,
            decreases probs@.len() - s,
        {
            let p = probs[s];
            if p < -1 {
                return Err(DecodeError::EntropyBuildError);
            }
            if p == -1 {
                slots = slots + 1;
            } else {
                slots = slots + (p as u64);
            }
            s = s + 1;
        }
        if slots != table_size as u64 {
            return Err(DecodeError::EntropyBuildError);
        }

        let mut decode: Vec<Entry> = Vec::new();
        let mut f: usize = 0;
        while f < table_size
            invariant
                decode@.len() == f,
                f <= table_size,
            decreases table_size - f,
        {
            decode.push(Entry { symbol: 0, num_bits: 0, base_line: 0 });
            f = f + 1;
        }

        // Low-probability symbols take the last slots, in descending order.
        let mut negative_idx: usize = table_size;
        let mut s: usize = 0;
        while s < probs.len()
            invariant
                s <= probs@.len() <= 256,
                negative_idx <= table_size,
                decode@.len() == table_size,
            decreases probs@.len() - s,
        {
            if probs[s] == -1 {
                if negative_idx == 0 {
                    return Err(DecodeError::EntropyBuildError);
                }
                negative_idx = negative_idx - 1;
                decode.set(
                    negative_idx,
                    Entry { symbol: s as u8, num_bits: acc_log, base_line: 0 },
                );
            }
            s = s + 1;
        }

        // Spread the remaining symbols over the table with the canonical
        // stride, skipping the low-probability region.
        let step: usize = table_size / 2 + table_size / 8 + 3;
        let mask: usize = table_size - 1;
        let mut position: usize = 0;
        let mut s: usize = 0;
        while s < probs.len()
            invariant
                s <= probs@.len() <= 256,
                position < table_size,
                decode@.len() == table_size,
                2 <= table_size <= 512,
                mask == table_size - 1,
                step <= table_size + 3,
                negative_idx <= table_size,
            decreases probs@.len() - s,
        {
            let p = probs[s];
            if p > 0 {
                let mut c: i32 = 0;
                while c < p
                    invariant
                        0 <= c <= p,
                        position < table_size,
                        decode@.len() == table_size,
                        2 <= table_size <= 512,
                        mask == table_size - 1,
                        step <= table_size + 3,
                        negative_idx <= table_size,
                        s < probs@.len() <= 256,
                    decreases p - c,
                {
                    let e = decode[position];
                    decode.set(position, Entry { symbol: s as u8, ..e });
                    let stepped: usize = (position + step) & mask;
                    proof {
                        assert(stepped <= mask) by (bit_vector)
                            requires
                                stepped == (((position + step) as usize) & mask),
                        ;
                    }
                    position = stepped;
                    // leave the low-probability region to the -1 symbols
                    let mut guard: usize = 0;
                    while position >= negative_idx && guard < table_size
                        invariant
                            position < table_size,
                            2 <= table_size <= 512,
                            mask == table_size - 1,
                            step <= table_size + 3,
                            guard <= table_size,
                        decreases table_size - guard,
                    {
                        let stepped2: usize = (position + step) & mask;
                        proof {
                            assert(stepped2 <= mask) by (bit_vector)
                                requires
                                    stepped2 == (((position + step) as usize) & mask),
                            ;
                        }
                        position = stepped2;
                        guard = guard + 1;
                    }
                    if position >= negative_idx {
                        return Err(DecodeError::EntropyBuildError);
                    }
                    c = c + 1;
                }
            }
            s = s + 1;
        }

        // Assign transition bits and baselines: the n-th occurrence of a
        // symbol in table order gets state number (count + n), whose bit
        // length against the accuracy log fixes num_bits and base_line.
        let mut symbol_next: Vec<u32> = Vec::new();
        let mut s: usize = 0;
        while s < probs.len()
            invariant
                symbol_next@.len() == s,
                s <= probs@.len(),
                forall|j: int| 0 <= j < s ==> #[trigger] symbol_next@[j] <= 0x8000_0000u32,
            decreases probs@.len() - s,
        {
            let p = probs[s];
            let init: u32 = if p == -1 {
                1u32
            } else if p > 0 {
                p as u32
            } else {
                0u32
            };
            symbol_next.push(init);
            s = s + 1;
        }

        let mut i: usize = 0;
        while i < table_size
            invariant
                i <= table_size,
                decode@.len() == table_size,
                table_size == pow2(acc_log as nat),
                2 <= table_size <= 512,
                1 <= acc_log <= MAX_ACCURACY_LOG,
                forall|j: int|
                    0 <= j < symbol_next@.len() ==> #[trigger] symbol_next@[j] <= 0xF000_0000u32,
                forall|j: int|
                    0 <= j < i ==> {
                        &&& (#[trigger] decode@[j]).num_bits <= acc_log
                        &&& decode@[j].base_line + pow2(decode@[j].num_bits as nat) <= table_size
                    },
            decreases table_size - i,
        {
            let sym = decode[i].symbol as usize;
            if sym >= symbol_next.len() {
                return Err(DecodeError::EntropyBuildError);
            }
            let next = symbol_next[sym];
            if next == 0 || next >= 0x4000_0000 {
                return Err(DecodeError::EntropyBuildError);
            }
            symbol_next.set(sym, next + 1);
            let hb = highest_bit(next);
            if hb > acc_log {
                return Err(DecodeError::EntropyBuildError);
            }
            let num_bits = acc_log - hb;
            let shifted: u64 = (next as u64) << num_bits;
            proof {
                assert(shifted <= 0x8000_0000_0000u64) by (bit_vector)
                    requires
                        shifted == (next as u64) << num_bits,
                        next < 0x4000_0000u32,
                        num_bits <= 9u8,
                ;
            }
            if shifted < table_size as u64 {
                return Err(DecodeError::EntropyBuildError);
            }
            let base_line64: u64 = shifted - table_size as u64;
            let width = pow2_u64(num_bits);
            if base_line64 > table_size as u64 || width > table_size as u64 {
                return Err(DecodeError::EntropyBuildError);
            }
            if base_line64 + width > table_size as u64 {
                return Err(DecodeError::EntropyBuildError);
            }
            let e = decode[i];
            decode.set(i, Entry { symbol: e.symbol, num_bits, base_line: base_line64 as u32 });
            i = i + 1;
        }

        self.decode = decode;
        self.accuracy_log = acc_log;
        Ok(())
    }

    /// Parses an FSE table description (accuracy log, then the normalized
    /// distribution in prefix-variable-length codes, byte-aligned at the end)
    /// and builds the table. Returns the bytes consumed.
    pub fn build_decoder(&mut self, source: &[u8], max_log: u8) -> (r: Result<usize, DecodeError>)
        requires
            max_log <= MAX_ACCURACY_LOG,
        ensures
            r matches Ok(n) ==> final(self).wf() && final(self).accuracy_log <= max_log && 1 <= n
                <= source@.len(),
            r is Err ==> *final(self) == *old(self),
    {
        if source.len() == 0 {
            return Err(DecodeError::InputTruncated);
        }
        if source.len() > 0x0010_0000 {
            return Err(DecodeError::MalformedHeader);
        }
        let total_bits: u64 = (source.len() as u64) * 8;
        let mut br = BitReaderLsb::new(source);
        proof {
            vstd::arithmetic::power2::lemma2_to64();
        }
        let low4 = br.get_bits(4);
        let acc_log = (low4 as u8) + 5;
        if acc_log > max_log {
            return Err(DecodeError::EntropyBuildError);
        }
        let table_size: u32 = pow2_u64(acc_log) as u32;
        proof {
            vstd::arithmetic::power2::lemma2_to64();
            crate::bits::lemma_pow2_le(acc_log as nat, 9);
        }

        let mut probs: Vec<i32> = Vec::new();
        let mut remaining: i32 = table_size as i32;
        while remaining > 0 && probs.len() < 256
            invariant
                br.wf(),
                br.stream() == source@,
                probs@.len() <= 256,
                remaining <= 512i32,
                4 <= br.pos() <= total_bits,
                total_bits == source@.len() * 8,
                total_bits <= 0x0080_0000u64,
            decreases 256 - probs@.len(),
        {
            // peek-read a value in [0, remaining + 1]
            let bits_to_read = highest_bit((remaining + 1) as u32) + 1;
            if bits_to_read > 16 {
                return Err(DecodeError::EntropyBuildError);
            }
            let raw: u64 = br.get_bits(bits_to_read);
            let lower_mask: u64 = pow2_u64(bits_to_read - 1) - 1;
            let full: u64 = pow2_u64(bits_to_read) - 1;
            if full < (remaining + 1) as u64 {
                return Err(DecodeError::EntropyBuildError);
            }
            let threshold: u64 = full - (remaining + 1) as u64;
            let value: u64 = if (raw & lower_mask) < threshold {
                br.rewind(1);
                raw & lower_mask
            } else if raw > lower_mask {
                if raw < threshold {
                    return Err(DecodeError::EntropyBuildError);
                }
                raw - threshold
            } else {
                raw
            };
            if value > (remaining + 1) as u64 {
                return Err(DecodeError::EntropyBuildError);
            }
            let proba: i32 = (value as i32) - 1;
            probs.push(proba);
            remaining = remaining - (if proba < 0 { 1i32 } else { proba });
            if br.bits_consumed() > total_bits {
                return Err(DecodeError::InputTruncated);
            }
            if proba == 0 {
                // zero-probability run: 2-bit repeat flags
                let ghost len_before_run = probs@.len();
                let mut repeat = br.get_bits(2);
                proof {
                    vstd::arithmetic::power2::lemma2_to64();
                }
                if br.bits_consumed() > total_bits {
                    return Err(DecodeError::InputTruncated);
                }
                loop
                    invariant
                        br.wf(),
                        br.stream() == source@,
                        len_before_run <= probs@.len() <= 256,
                        repeat <= 3,
                        4 <= br.pos() <= total_bits,
                        total_bits == source@.len() * 8,
                        total_bits <= 0x0080_0000u64,
                    decreases total_bits - br.pos(),
                {
                    let burst: usize = if repeat == 3 {
                        3
                    } else {
                        repeat as usize
                    };
                    let mut z: usize = 0;
                    while z < burst
                        invariant
                            z <= burst <= 3,
                            len_before_run <= probs@.len() <= 256,
                        decreases burst - z,
                    {
                        if probs.len() >= 256 {
                            return Err(DecodeError::EntropyBuildError);
                        }
                        probs.push(0);
                        z = z + 1;
                    }
                    if repeat != 3 {
                        break ;
                    }
                    repeat = br.get_bits(2);
                    proof {
                        vstd::arithmetic::power2::lemma2_to64();
                    }
                    if br.bits_consumed() > total_bits {
                        return Err(DecodeError::InputTruncated);
                    }
                }
                if probs.len() >= 256 {
                    return Err(DecodeError::EntropyBuildError);
                }
            }
        }
        if remaining != 0 {
            return Err(DecodeError::EntropyBuildError);
        }

        // the description is byte-aligned at its end
        let consumed_bits = br.bits_consumed();
        let bytes_read = ((consumed_bits + 7) / 8) as usize;
        if bytes_read == 0 || bytes_read > source.len() {
            return Err(DecodeError::InputTruncated);
        }

        match self.build_from_probabilities(acc_log, &probs) {
            Ok(()) => Ok(bytes_read),
            Err(e) => Err(e),
        }
    }
}

/// The position of the highest set bit (the floor of the base-2 logarithm).
pub fn highest_bit(x: u32) -> (r: u8)
    requires
        x >= 1,
    ensures
        r <= 31,
        pow2(r as nat) <= x < pow2((r + 1) as nat),
{
    let mut v: u32 = x;
    let mut h: u8 = 0;
    proof {
        vstd::arithmetic::power2::lemma2_to64();
    }
    while v > 1
        invariant
            1 <= v,
            h <= 31,
            v == x as int / (pow2(h as nat) as int),
        decreases v,
    {
        proof {
            let p = pow2(h as nat) as int;
            vstd::arithmetic::power2::lemma_pow2_pos(h as nat);
            vstd::arithmetic::power2::lemma_pow2_unfold((h + 1) as nat);
            vstd::arithmetic::div_mod::lemma_div_denominator(x as int, p, 2);
            // v >= 2 here, so x >= 2 * pow2(h) = pow2(h + 1) < pow2(32)
            vstd::arithmetic::div_mod::lemma_fundamental_div_mod(x as int, p);
            assert(x as int >= p * 2) by (nonlinear_arith)
                requires
                    x as int == p * (x as int / p) + (x as int % p),
                    x as int % p >= 0,
                    x as int / p >= 2,
                    p >= 1,
            ;
            vstd::arithmetic::power2::lemma2_to64();
            if h + 1 >= 32 {
                crate::bits::lemma_pow2_le(32, (h + 1) as nat);
                assert(false);
            }
        }
        v = v / 2;
        h = h + 1;
    }
    proof {
        let p = pow2(h as nat) as int;
        vstd::arithmetic::power2::lemma_pow2_pos(h as nat);
        vstd::arithmetic::power2::lemma_pow2_unfold((h + 1) as nat);
        vstd::arithmetic::div_mod::lemma_fundamental_div_mod(x as int, p);
        // x / pow2(h) == 1 pins x into [pow2(h), pow2(h + 1))
        assert(p <= x as int && (x as int) < 2 * p) by (nonlinear_arith)
            requires
                x as int == p * (x as int / p) + (x as int % p),
                0 <= x as int % p < p,
                x as int / p == 1,
                p >= 1,
        ;
    }
    h
}

/// A stateful FSE decoder over a built table and a reversed bit stream.
pub struct FSEDecoder<'t> {
    pub state: usize,
    pub table: &'t FSETable,
}

impl<'t> FSEDecoder<'t> {
    /// The decoder state stays inside its table.
    pub open spec fn wf(&self) -> bool {
        &&& self.table.wf()
        &&& self.state < self.table.decode@.len()
    }

    pub fn new(table: &'t FSETable) -> (r: Self)
        ensures
            r.table == table,
            r.state == 0,
            table.wf() ==> r.wf(),
    {
        proof {
            vstd::arithmetic::power2::lemma_pow2_pos(table.accuracy_log as nat);
        }
        FSEDecoder { state: 0, table }
    }

    /// The symbol the current state emits.
    pub fn decode_symbol(&self) -> (r: u8)
        requires
            self.wf(),
        ensures
            r == self.table.decode@[self.state as int].symbol,
    {
        self.table.decode[self.state].symbol
    }

    /// Reads the initial state: `accuracy_log` bits from the stream.
    pub fn init_state(&mut self, br: &mut BitReaderReversed<'_>)
        requires
            old(self).table.wf(),
            old(br).wf(),
            old(br).bits() - old(self).table.accuracy_log >= i64::MIN,
        ensures
            final(self).wf(),
            final(self).table == old(self).table,
            final(br).wf(),
            final(br).stream() == old(br).stream(),
            final(br).bits() == old(br).bits() - old(self).table.accuracy_log,
            final(self).state == bits_below(
                old(br).stream(),
                old(br).bits(),
                old(self).table.accuracy_log as nat,
            ),
    {
        proof {
            vstd::arithmetic::power2::lemma2_to64();
            crate::bits::lemma_pow2_le(old(self).table.accuracy_log as nat, 9);
        }
        let bits = br.get_bits(self.table.accuracy_log);
        self.state = bits as usize;
    }

    /// Advances the state: reads the current row's `num_bits` bits and moves
    /// to `base_line + bits`.
    pub fn update_state(&mut self, br: &mut BitReaderReversed<'_>)
        requires
            old(self).wf(),
            old(br).wf(),
            old(br).bits() - 64 >= i64::MIN,
        ensures
            final(self).wf(),
            final(self).table == old(self).table,
            final(br).wf(),
            final(br).stream() == old(br).stream(),
            final(br).bits() == old(br).bits()
                - old(self).table.decode@[old(self).state as int].num_bits,
            final(self).state == old(self).table.decode@[old(self).state as int].base_line
                + bits_below(
                old(br).stream(),
                old(br).bits(),
                old(self).table.decode@[old(self).state as int].num_bits as nat,
            ),
    {
        proof {
            vstd::arithmetic::power2::lemma2_to64();
            crate::bits::lemma_pow2_le(old(self).table.accuracy_log as nat, 9);
        }
        let e = self.table.decode[self.state];
        proof {
            crate::bits::lemma_pow2_le(e.num_bits as nat, old(self).table.accuracy_log as nat);
        }
        let bits = br.get_bits(e.num_bits);
        self.state = (e.base_line as usize) + (bits as usize);
    }
}

} // verus!
