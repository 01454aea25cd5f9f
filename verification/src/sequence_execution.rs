//! Executing decoded sequences against the output buffer: emit literals,
//! copy the back-reference, rotate the repeat-offset history.

use vstd::prelude::*;

verus! {

use vstd::math::min;
use crate::decodebuffer::offset_copy;
use crate::decodebuffer::lemma_offset_copy_len;
use crate::errors::DecodeError;
use crate::scratch::DecoderScratch;
use crate::sequence_section::Sequence;

/// Resolves an offset code against the repeat-offset history `h` (three
/// strictly positive entries): codes above 3 stand for `code - 3` itself and
/// push onto the history; codes 1 to 3 select a history slot, shifted by one
/// when the sequence has no literals; the shifted fourth slot is `h[0] - 1`.
/// `None` is corruption: a zero code, or a resolved offset of zero.
pub open spec fn spec_resolve(of: u32, ll: u32, h: Seq<u32>) -> Option<(int, Seq<u32>)> {
    if of == 0 {
        None
    } else if of > 3 {
        Some(((of - 3) as int, seq![(of - 3) as u32, h[0], h[1]]))
    } else {
        let idx: int = if ll == 0 {
            of + 1
        } else {
            of as int
        };
        if idx == 1 {
            Some((h[0] as int, h))
        } else if idx == 2 {
            Some((h[1] as int, seq![h[1], h[0], h[2]]))
        } else if idx == 3 {
            Some((h[2] as int, seq![h[2], h[0], h[1]]))
        } else {
            if h[0] > 1 {
                Some(((h[0] - 1) as int, seq![(h[0] - 1) as u32, h[0], h[1]]))
            } else {
                None
            }
        }
    }
}

/// What executing `seqs` against buffer `buf`, literals `lits` and history
/// `h` produces: the new buffer contents and the new history. Each step
/// emits the sequence's literals, then copies its match from the resolved
/// offset; the leftover literals follow after the last sequence. `None` is
/// corruption: an unresolvable offset, literals overrun, a back-reference
/// past the window or the held bytes, or output beyond `limit`.
pub open spec fn spec_execute(
    buf: Seq<u8>,
    window: int,
    lits: Seq<u8>,
    seqs: Seq<Sequence>,
    h: Seq<u32>,
    limit: int,
) -> Option<(Seq<u8>, Seq<u32>)>
    decreases seqs.len(),
{
    if seqs.len() == 0 {
        if buf.len() + lits.len() > limit {
            None
        } else {
            Some((buf + lits, h))
        }
    } else {
        let s = seqs[0];
        match spec_resolve(s.of, s.ll, h) {
            None => None,
            Some((actual, nh)) => {
                if s.ll > lits.len() {
                    None
                } else {
                    let buf1 = buf + lits.take(s.ll as int);
                    if actual < 1 || actual > buf1.len() || actual > window {
                        None
                    } else {
                        let buf2 = offset_copy(buf1, actual, s.ml as nat);
                        if buf2.len() > limit {
                            None
                        } else {
                            spec_execute(buf2, window, lits.skip(s.ll as int), seqs.skip(1), nh, limit)
                        }
                    }
                }
            },
        }
    }
}

/// Sequence execution only appends: whatever the buffer held stays in place.
pub proof fn lemma_spec_execute_prefix(
    buf: Seq<u8>,
    window: int,
    lits: Seq<u8>,
    seqs: Seq<Sequence>,
    h: Seq<u32>,
    limit: int,
)
    ensures
        spec_execute(buf, window, lits, seqs, h, limit) matches Some(p) ==> p.0.len() >= buf.len()
            && p.0.subrange(0, buf.len() as int) =~= buf,
    decreases seqs.len(),
{
    if seqs.len() == 0 {
        if buf.len() + lits.len() <= limit {
            assert((buf + lits).subrange(0, buf.len() as int) =~= buf);
        }
    } else {
        let s = seqs[0];
        match spec_resolve(s.of, s.ll, h) {
            None => {},
            Some((actual, nh)) => {
                if s.ll <= lits.len() {
                    let buf1 = buf + lits.take(s.ll as int);
                    if 1 <= actual && actual <= buf1.len() && actual <= window {
                        let buf2 = offset_copy(buf1, actual, s.ml as nat);
                        crate::decodebuffer::lemma_offset_copy_prefix(buf1, actual, s.ml as nat);
                        if buf2.len() <= limit {
                            lemma_spec_execute_prefix(
                                buf2,
                                window,
                                lits.skip(s.ll as int),
                                seqs.skip(1),
                                nh,
                                limit,
                            );
                            let rest = spec_execute(
                                buf2,
                                window,
                                lits.skip(s.ll as int),
                                seqs.skip(1),
                                nh,
                                limit,
                            );
                            if rest is Some {
                                let out = rest.unwrap().0;
                                assert forall|i: int| 0 <= i < buf.len() implies out[i] == buf[i] by {
                                    assert(out.subrange(0, buf2.len() as int) =~= buf2);
                                    assert(out[i] == buf2[i]);
                                    assert(buf2.subrange(0, buf1.len() as int) =~= buf1);
                                    assert(buf2[i] == buf1[i]);
                                }
                                assert(out.subrange(0, buf.len() as int) =~= buf);
                            }
                        }
                    }
                }
            },
        }
    }
}

/// The largest number of bytes one block may regenerate: the window size,
/// capped at 128 KiB.
pub open spec fn spec_block_output_cap(window: int) -> int {
    min(window, 0x20000)
}

/// Where `spec_execute` is cut off for a scratch: the bytes already in the
/// buffer plus one block's output cap.
pub open spec fn spec_exec_limit(s: &DecoderScratch) -> int {
    s.buffer.view().len() + spec_block_output_cap(s.buffer.window())
}

/// The offset-history law: resolving any offset code against a strictly
/// positive three-entry history either fails or yields a strictly positive
/// offset and a strictly positive three-entry history, and after a code above
/// 3 the history's front entry is exactly that code minus 3.
pub proof fn lemma_offset_history(of: u32, ll: u32, h: Seq<u32>)
    requires
        h.len() == 3,
        h[0] >= 1,
        h[1] >= 1,
        h[2] >= 1,
    ensures
        spec_resolve(of, ll, h) matches Some(p) ==> {
            &&& p.0 >= 1
            &&& p.1.len() == 3
            &&& p.1[0] >= 1 && p.1[1] >= 1 && p.1[2] >= 1
        },
        of > 3 ==> (spec_resolve(of, ll, h) matches Some(p) && p.0 == of - 3 && p.1[0] == of
            - 3),
{
}

/// Resolves one offset code, returning the actual offset and the new
/// history. After a code above 3 the history's front is exactly `code - 3`,
/// and every entry handed back is strictly positive.
pub fn resolve_offset(of: u32, ll: u32, hist: &[u32; 3]) -> (r: Result<(u32, [u32; 3]), DecodeError>)
    requires
        hist@[0] >= 1,
        hist@[1] >= 1,
        hist@[2] >= 1,
    ensures
        r matches Ok(p) ==> {
            &&& spec_resolve(of, ll, hist@) == Some((p.0 as int, p.1@))
            &&& p.0 >= 1
            &&& p.1@.len() == 3
            &&& p.1@[0] >= 1 && p.1@[1] >= 1 && p.1@[2] >= 1
            &&& (of > 3 ==> p.1@[0] == of - 3)
        },
        r is Err ==> spec_resolve(of, ll, hist@) is None && r == Err::<(u32, [u32; 3]), DecodeError>(
            DecodeError::OffsetOutOfRange,
        ),
{
    let h0 = hist[0];
    let h1 = hist[1];
    let h2 = hist[2];
    if of == 0 {
        return Err(DecodeError::OffsetOutOfRange);
    }
    if of > 3 {
        let actual = of - 3;
        return Ok((actual, [actual, h0, h1]));
    }
    let idx: u32 = if ll == 0 {
        of + 1
    } else {
        of
    };
    if idx == 1 {
        Ok((h0, [h0, h1, h2]))
    } else if idx == 2 {
        Ok((h1, [h1, h0, h2]))
    } else if idx == 3 {
        Ok((h2, [h2, h0, h1]))
    } else {
        if h0 > 1 {
            let actual = h0 - 1;
            Ok((actual, [actual, h0, h1]))
        } else {
            Err(DecodeError::OffsetOutOfRange)
        }
    }
}

/// Executes the scratch's decoded sequences against its output buffer,
/// consuming its literals buffer. On success the buffer and offset history
/// are exactly what `spec_execute` gives; the window invariant is kept, and
/// the history stays strictly positive.
pub fn execute_sequences(scratch: &mut DecoderScratch) -> (r: Result<(), DecodeError>)
    requires
        old(scratch).hist_positive(),
        old(scratch).buffer.view().len() + 0x100000 + old(scratch).literals_buffer@.len()
            < usize::MAX,
    ensures
        final(scratch).literals_buffer@ == old(scratch).literals_buffer@,
        final(scratch).sequences@ == old(scratch).sequences@,
        final(scratch).block_content_buffer@ == old(scratch).block_content_buffer@,
        final(scratch).huf == old(scratch).huf,
        final(scratch).fse == old(scratch).fse,
        final(scratch).buffer.window() == old(scratch).buffer.window(),
        final(scratch).hist_positive(),
        old(scratch).buffer.window_holds() ==> final(scratch).buffer.window_holds(),
        final(scratch).buffer.view().len() >= old(scratch).buffer.view().len(),
        // output is append-only: the bytes already present stay in place
        final(scratch).buffer.view().subrange(0, old(scratch).buffer.view().len() as int)
            =~= old(scratch).buffer.view(),
        r is Ok <==> spec_execute(
            old(scratch).buffer.view(),
            old(scratch).buffer.window(),
            old(scratch).literals_buffer@,
            old(scratch).sequences@,
            old(scratch).offset_hist@,
            spec_exec_limit(old(scratch)),
        ) is Some,
        r is Ok ==> {
            let out = spec_execute(
                old(scratch).buffer.view(),
                old(scratch).buffer.window(),
                old(scratch).literals_buffer@,
                old(scratch).sequences@,
                old(scratch).offset_hist@,
                spec_exec_limit(old(scratch)),
            );
            &&& final(scratch).buffer.view() == out.unwrap().0
            &&& final(scratch).offset_hist@ == out.unwrap().1
        },
{
    let window = scratch.buffer.get_window_size();
    let cap: usize = if window < 0x20000 {
        window
    } else {
        0x20000
    };
    let start = scratch.buffer.len();
    let limit: usize = start + cap;
    let ghost g_limit = spec_exec_limit(old(scratch));
    proof {
        assert(limit == g_limit);
    }

    let n_seqs = scratch.sequences.len();
    let n_lits = scratch.literals_buffer.len();
    proof {
        assert(scratch.literals_buffer@.skip(0) =~= scratch.literals_buffer@);
        assert(scratch.sequences@.skip(0) =~= scratch.sequences@);
    }
    let mut i: usize = 0;
    let mut p: usize = 0;
    while i < n_seqs
        invariant
            i <= n_seqs,
            p <= n_lits,
            n_seqs == scratch.sequences@.len(),
            n_lits == scratch.literals_buffer@.len(),
            scratch.literals_buffer@ == old(scratch).literals_buffer@,
            scratch.sequences@ == old(scratch).sequences@,
            scratch.block_content_buffer@ == old(scratch).block_content_buffer@,
            scratch.huf == old(scratch).huf,
            scratch.fse == old(scratch).fse,
            scratch.buffer.window() == old(scratch).buffer.window(),
            scratch.hist_positive(),
            old(scratch).buffer.window_holds() ==> scratch.buffer.window_holds(),
            scratch.buffer.view().len() <= limit,
            scratch.buffer.view().len() >= old(scratch).buffer.view().len(),
            scratch.buffer.view().subrange(0, old(scratch).buffer.view().len() as int)
                =~= old(scratch).buffer.view(),
            limit == g_limit,
            g_limit == spec_exec_limit(old(scratch)),
            old(scratch).buffer.view().len() + 0x100000 + n_lits < usize::MAX,
            spec_execute(
                scratch.buffer.view(),
                scratch.buffer.window(),
                scratch.literals_buffer@.skip(p as int),
                scratch.sequences@.skip(i as int),
                scratch.offset_hist@,
                g_limit,
            ) == spec_execute(
                old(scratch).buffer.view(),
                old(scratch).buffer.window(),
                old(scratch).literals_buffer@,
                old(scratch).sequences@,
                old(scratch).offset_hist@,
                g_limit,
            ),
        decreases n_seqs - i,
    {
        let s: Sequence = scratch.sequences[i];
        let ghost pre_buf = scratch.buffer.view();
        let ghost pre_h = scratch.offset_hist@;
        let ghost rest = scratch.literals_buffer@.skip(p as int);
        proof {
            assert(scratch.sequences@.skip(i as int)[0] == s);
            assert(scratch.sequences@.skip(i as int).len() > 0);
        }

        let resolved = match resolve_offset(s.of, s.ll, &scratch.offset_hist) {
            Ok(x) => x,
            Err(e) => { return Err(e) },
        };
        let actual: u32 = resolved.0;
        let new_hist: [u32; 3] = resolved.1;

        // the sequence's literals
        let ll = s.ll as usize;
        if ll > n_lits - p {
            proof {
                assert(s.ll > rest.len());
            }
            return Err(DecodeError::LiteralCountMismatch);
        }
        let lit_slice = vstd::slice::slice_subrange(
            scratch.literals_buffer.as_slice(),
            p,
            p + ll,
        );
        proof {
            assert(lit_slice@ =~= rest.take(s.ll as int));
        }
        scratch.buffer.push(lit_slice);
        let ghost buf1 = scratch.buffer.view();
        proof {
            assert(buf1 =~= pre_buf + rest.take(s.ll as int));
            assert(buf1.subrange(0, old(scratch).buffer.view().len() as int) =~= old(
                scratch,
            ).buffer.view());
        }

        // the output cap: the match may not push the block past its limit
        let ml = s.ml as usize;
        if scratch.buffer.len() > limit || ml > limit - scratch.buffer.len() {
            proof {
                let w = scratch.buffer.window();
                if 1 <= actual as int && actual as int <= buf1.len() && actual as int <= w {
                    lemma_offset_copy_len(buf1, actual as int, s.ml as nat);
                }
            }
            return Err(DecodeError::MalformedHeader);
        }

        // the back-reference
        match scratch.buffer.repeat(actual as usize, ml) {
            Ok(()) => {},
            Err(_) => {
                proof {
                    assert(actual > buf1.len() || actual > scratch.buffer.window());
                }
                return Err(DecodeError::OffsetOutOfRange);
            },
        }
        proof {
            lemma_offset_copy_len(buf1, actual as int, s.ml as nat);
            crate::decodebuffer::lemma_offset_copy_prefix(buf1, actual as int, s.ml as nat);
            assert forall|i: int|
                0 <= i < old(scratch).buffer.view().len() implies scratch.buffer.view()[i] == old(
                scratch,
            ).buffer.view()[i] by {
                assert(scratch.buffer.view()[i] == buf1[i]);
            }
            assert(scratch.buffer.view().subrange(0, old(scratch).buffer.view().len() as int)
                =~= old(scratch).buffer.view());
        }
        scratch.offset_hist = new_hist;

        proof {
            assert(scratch.literals_buffer@.skip((p + ll) as int) =~= rest.skip(s.ll as int));
            assert(scratch.sequences@.skip(i as int).skip(1) =~= scratch.sequences@.skip(
                i as int + 1,
            ));
        }
        p = p + ll;
        i = i + 1;
    }

    // the leftover literals follow the last sequence
    let tail = vstd::slice::slice_subrange(scratch.literals_buffer.as_slice(), p, n_lits);
    proof {
        assert(tail@ =~= scratch.literals_buffer@.skip(p as int));
        assert(scratch.sequences@.skip(i as int) =~= Seq::<Sequence>::empty());
    }
    scratch.buffer.push(tail);
    proof {
        assert(scratch.buffer.view().subrange(0, old(scratch).buffer.view().len() as int) =~= old(
            scratch,
        ).buffer.view());
    }
    if scratch.buffer.len() > limit {
        return Err(DecodeError::MalformedHeader);
    }
    Ok(())
}

} // verus!
