//! Bit-level readers over byte slices.
//!
//! `BitReaderReversed` consumes bits starting at the most-significant bit of
//! the last byte, moving backward; it is how zstd entropy-coded payloads are
//! read. `BitReaderLsb` consumes bits forward, least-significant bit of byte 0
//! first; it is how FSE table descriptions are read.

use vstd::prelude::*;

verus! {

use vstd::arithmetic::power2::pow2;
use vstd::arithmetic::power2::lemma2_to64;
use vstd::arithmetic::power2::lemma2_to64_rest;

/// Bit number `k` of the byte sequence: bit `k % 8` of byte `k / 8`.
/// Out-of-range positions read as zero.
pub open spec fn stream_bit(bytes: Seq<u8>, k: int) -> u64 {
    if 0 <= k < bytes.len() * 8 {
        ((bytes[k / 8] as u64) >> ((k % 8) as u64)) & 1
    } else {
        0
    }
}

/// The value of the `n` bits just below position `top`, read downward:
/// bit `top - 1` is the most significant of the result.
pub open spec fn bits_below(bytes: Seq<u8>, top: int, n: nat) -> nat
    decreases n,
{
    if n == 0 {
        0
    } else {
        bits_below(bytes, top, (n - 1) as nat) * 2 + (stream_bit(bytes, top - n) as nat)
    }
}

/// The value of the `n` bits at positions `pos .. pos + n`, read forward:
/// bit `pos` is the least significant of the result.
pub open spec fn bits_forward(bytes: Seq<u8>, pos: int, n: nat) -> nat
    decreases n,
{
    if n == 0 {
        0
    } else {
        (stream_bit(bytes, pos) as nat) + 2 * bits_forward(bytes, pos + 1, (n - 1) as nat)
    }
}

pub proof fn lemma_stream_bit_le_one(bytes: Seq<u8>, k: int)
    ensures
        stream_bit(bytes, k) <= 1,
{
    if 0 <= k < bytes.len() * 8 {
        let b = bytes[k / 8] as u64;
        let s = (k % 8) as u64;
        assert((b >> s) & 1 <= 1) by (bit_vector);
    }
}

pub proof fn lemma_bits_below_bound(bytes: Seq<u8>, top: int, n: nat)
    ensures
        bits_below(bytes, top, n) < pow2(n),
    decreases n,
{
    vstd::arithmetic::power2::lemma_pow2_pos(n);
    if n == 0 {
        lemma2_to64();
    } else {
        lemma_bits_below_bound(bytes, top, (n - 1) as nat);
        lemma_stream_bit_le_one(bytes, top - n);
        vstd::arithmetic::power2::lemma_pow2_unfold(n);
    }
}

pub proof fn lemma_bits_forward_bound(bytes: Seq<u8>, pos: int, n: nat)
    ensures
        bits_forward(bytes, pos, n) < pow2(n),
    decreases n,
{
    vstd::arithmetic::power2::lemma_pow2_pos(n);
    if n == 0 {
        lemma2_to64();
    } else {
        lemma_bits_forward_bound(bytes, pos + 1, (n - 1) as nat);
        lemma_stream_bit_le_one(bytes, pos);
        vstd::arithmetic::power2::lemma_pow2_unfold(n);
    }
}

/// Reads bits from the most-significant bit of the last byte backward.
///
/// `bits_left` counts the bits not yet read; it goes negative once reads
/// continue past the start of the slice, in which case zero bits are handed
/// out (peek semantics, per the zstd bitstream rules).
pub struct BitReaderReversed<'a> {
    source: &'a [u8],
    bits_left: i64,
}

impl<'a> BitReaderReversed<'a> {
    /// The bytes the reader was built over.
    pub closed spec fn stream(&self) -> Seq<u8> {
        self.source@
    }

    /// The signed count of bits not yet read.
    pub closed spec fn bits(&self) -> int {
        self.bits_left as int
    }

    /// Structural soundness: the cursor never exceeds the stream length.
    pub closed spec fn wf(&self) -> bool {
        &&& self.bits_left <= self.stream().len() * 8
        &&& self.stream().len() * 8 <= i64::MAX
    }

    pub fn new(source: &'a [u8]) -> (r: Self)
        requires
            source@.len() * 8 <= i64::MAX,
        ensures
            r.wf(),
            r.stream() == source@,
            r.bits() == source@.len() * 8,
    {
        BitReaderReversed { source, bits_left: (source.len() as i64) * 8 }
    }

    pub fn bits_remaining(&self) -> (r: i64)
        ensures
            r == self.bits(),
    {
        self.bits_left
    }

    /// Reads `n` bits downward from the current position, most significant
    /// first; positions past the start of the stream read as zero.
    pub fn get_bits(&mut self, n: u8) -> (r: u64)
        requires
            old(self).wf(),
            n <= 64,
            old(self).bits() - n >= i64::MIN,
        ensures
            final(self).wf(),
            final(self).stream() == old(self).stream(),
            final(self).bits() == old(self).bits() - n,
            r == bits_below(old(self).stream(), old(self).bits(), n as nat),
            r < pow2(n as nat),
    {
        proof {
            lemma_bits_below_bound(self.stream(), self.bits(), n as nat);
            lemma2_to64();
            lemma2_to64_rest();
        }
        let ghost top = self.bits();
        let mut val: u64 = 0;
        let mut i: u8 = 0;
        while i < n
            invariant
                self.wf(),
                self.stream() == old(self).stream(),
                i <= n <= 64,
                top == old(self).bits(),
                top - n >= i64::MIN,
                self.bits() == top - i,
                val == bits_below(self.stream(), top, i as nat),
                val < pow2(i as nat),
            decreases n - i,
        {
            proof {
                lemma_stream_bit_le_one(self.stream(), top - i - 1);
                vstd::arithmetic::power2::lemma_pow2_unfold((i + 1) as nat);
                lemma_bits_below_bound(self.stream(), top, (i + 1) as nat);
                lemma2_to64();
                lemma2_to64_rest();
                if ((i + 1) as nat) < 64 {
                    vstd::arithmetic::power2::lemma_pow2_strictly_increases((i + 1) as nat, 64);
                }
            }
            let k: i64 = self.bits_left - 1;
            let bit: u64 = if k >= 0 {
                let ku: u64 = k as u64;
                let byte: u64 = self.source[(ku / 8) as usize] as u64;
                (byte >> (ku % 8)) & 1
            } else {
                0
            };
            proof {
                if k >= 0 {
                    assert(stream_bit(self.stream(), top - i - 1) == bit);
                } else {
                    assert(stream_bit(self.stream(), top - i - 1) == 0);
                }
                assert(bits_below(self.stream(), top, (i + 1) as nat) == bits_below(
                    self.stream(),
                    top,
                    i as nat,
                ) * 2 + stream_bit(self.stream(), top - (i + 1)));
            }
            val = val * 2 + bit;
            self.bits_left = self.bits_left - 1;
            i = i + 1;
        }
        val
    }
}

/// Reads bits forward, least-significant bit of byte 0 first, as FSE table
/// descriptions are laid out.
pub struct BitReaderLsb<'a> {
    source: &'a [u8],
    position: u64,
}

impl<'a> BitReaderLsb<'a> {
    pub closed spec fn stream(&self) -> Seq<u8> {
        self.source@
    }

    /// The number of bits already consumed.
    pub closed spec fn pos(&self) -> int {
        self.position as int
    }

    pub closed spec fn wf(&self) -> bool {
        &&& self.stream().len() * 8 <= u64::MAX - 64
    }

    pub fn new(source: &'a [u8]) -> (r: Self)
        requires
            source@.len() * 8 <= u64::MAX - 64,
        ensures
            r.wf(),
            r.stream() == source@,
            r.pos() == 0,
    {
        BitReaderLsb { source, position: 0 }
    }

    /// The number of bits consumed so far.
    pub fn bits_consumed(&self) -> (r: u64)
        ensures
            r == self.pos(),
    {
        self.position
    }

    /// Steps the cursor back by `n` bits.
    pub fn rewind(&mut self, n: u64)
        requires
            old(self).wf(),
            n <= old(self).pos(),
        ensures
            final(self).wf(),
            final(self).stream() == old(self).stream(),
            final(self).pos() == old(self).pos() - n,
    {
        self.position = self.position - n;
    }

    /// Reads `n` bits forward from the cursor, least significant first;
    /// positions past the end of the stream read as zero.
    pub fn get_bits(&mut self, n: u8) -> (r: u64)
        requires
            old(self).wf(),
            n <= 64,
            old(self).pos() + n <= old(self).stream().len() * 8 + 64,
        ensures
            final(self).wf(),
            final(self).stream() == old(self).stream(),
            final(self).pos() == old(self).pos() + n,
            r == bits_forward(old(self).stream(), old(self).pos(), n as nat),
            r < pow2(n as nat),
    {
        proof {
            lemma_bits_forward_bound(self.stream(), self.pos(), n as nat);
            lemma2_to64();
            lemma2_to64_rest();
        }
        let ghost start = self.pos();
        let mut val: u64 = 0;
        let mut i: u8 = 0;
        while i < n
            invariant
                self.wf(),
                self.stream() == old(self).stream(),
                i <= n <= 64,
                start == old(self).pos(),
                start + n <= self.stream().len() * 8 + 64,
                self.pos() == start + i,
                // the bits read so far are the low bits of the final value
                val + bits_forward(self.stream(), start + i, (n - i) as nat) * pow2(i as nat)
                    == bits_forward(self.stream(), start, n as nat),
                val < pow2(i as nat),
            decreases n - i,
        {
            proof {
                lemma_stream_bit_le_one(self.stream(), start + i);
                vstd::arithmetic::power2::lemma_pow2_unfold((i + 1) as nat);
                lemma_bits_forward_bound(self.stream(), start, n as nat);
                lemma_bits_forward_bound(self.stream(), start + i + 1, (n - i - 1) as nat);
                lemma2_to64();
                lemma2_to64_rest();
            }
            let k: u64 = self.position;
            let bit: u64 = if k < (self.source.len() as u64) * 8 {
                let byte: u64 = self.source[(k / 8) as usize] as u64;
                (byte >> (k % 8)) & 1
            } else {
                0
            };
            proof {
                assert(stream_bit(self.stream(), start + i) == bit);
                assert(bits_forward(self.stream(), start + i, (n - i) as nat) == stream_bit(
                    self.stream(),
                    start + i,
                ) + 2 * bits_forward(self.stream(), start + i + 1, (n - i - 1) as nat));
                // val' = val + bit * 2^i keeps the partial-sum invariant
                assert(bits_forward(self.stream(), start + i, (n - i) as nat) * pow2(i as nat) == (
                stream_bit(self.stream(), start + i) + 2 * bits_forward(
                    self.stream(),
                    start + i + 1,
                    (n - i - 1) as nat,
                )) * pow2(i as nat));
                assert((stream_bit(self.stream(), start + i) + 2 * bits_forward(
                    self.stream(),
                    start + i + 1,
                    (n - i - 1) as nat,
                )) * pow2(i as nat) == stream_bit(self.stream(), start + i) * pow2(i as nat) + 2
                    * pow2(i as nat) * bits_forward(
                    self.stream(),
                    start + i + 1,
                    (n - i - 1) as nat,
                )) by (nonlinear_arith);
                assert(2 * pow2(i as nat) == pow2((i + 1) as nat));
            }
            let ghost old_val = val;
            val = val + bit * pow2_u64(i);
            proof {
                assert(old_val + bit * pow2(i as nat) + bits_forward(
                    self.stream(),
                    start + i + 1,
                    (n - i - 1) as nat,
                ) * pow2((i + 1) as nat) == bits_forward(self.stream(), start, n as nat))
                    by (nonlinear_arith)
                    requires
                        old_val + bits_forward(self.stream(), start + i, (n - i) as nat) * pow2(
                            i as nat,
                        ) == bits_forward(self.stream(), start, n as nat),
                        bits_forward(self.stream(), start + i, (n - i) as nat) == bit + 2
                            * bits_forward(self.stream(), start + i + 1, (n - i - 1) as nat),
                        pow2((i + 1) as nat) == 2 * pow2(i as nat),
                ;
                if bit == 1 {
                    assert(val == old_val + pow2(i as nat));
                    assert(val < pow2((i + 1) as nat));
                } else {
                    assert(val < pow2((i + 1) as nat));
                }
            }
            self.position = self.position + 1;
            i = i + 1;
        }
        proof {
            assert(i == n);
            assert(val + bits_forward(self.stream(), start + i, (n - i) as nat) * pow2(i as nat)
                == bits_forward(self.stream(), start, n as nat));
            assert(bits_forward(self.stream(), start + i, (n - i) as nat) == 0);
            assert(val == bits_forward(self.stream(), start, n as nat));
        }
        val
    }
}

/// `2^e` as a machine word, for exponents below 64.
pub fn pow2_u64(e: u8) -> (r: u64)
    requires
        e < 64,
    ensures
        r == pow2(e as nat),
        r >= 1,
{
    proof {
        lemma2_to64();
        lemma2_to64_rest();
        assert(1u64 << e == pow2(e as nat)) by {
            vstd::bits::lemma_u64_shl_is_mul(1u64, e as u64);
        }
        vstd::arithmetic::power2::lemma_pow2_pos(e as nat);
    }
    1u64 << e
}

/// A value whose `n` top bits are zero has zero in every shorter prefix.
pub proof fn lemma_bits_below_zero_prefix(bytes: Seq<u8>, top: int, m: nat, n: nat)
    requires
        m <= n,
        bits_below(bytes, top, n) == 0,
    ensures
        bits_below(bytes, top, m) == 0,
    decreases n,
{
    if m < n {
        lemma_stream_bit_le_one(bytes, top - n);
        assert(bits_below(bytes, top, (n - 1) as nat) == 0);
        lemma_bits_below_zero_prefix(bytes, top, m, (n - 1) as nat);
    }
}

/// Powers of two are monotone in the exponent.
pub proof fn lemma_pow2_le(a: nat, b: nat)
    requires
        a <= b,
    ensures
        pow2(a) <= pow2(b),
{
    if a < b {
        vstd::arithmetic::power2::lemma_pow2_strictly_increases(a, b);
    }
}

} // verus!
