//! The sliding-window output buffer.
//!
//! Decoded bytes are appended here; back-references copy from up to
//! `window_size` bytes behind the write cursor, and the caller drains bytes
//! that are no longer needed as back-reference history.

use vstd::prelude::*;

verus! {

use crate::errors::DecodeError;

/// The result of appending `n` bytes copied one at a time from `offset` bytes
/// behind the end of `s` (the copy may overlap the bytes it just wrote).
pub open spec fn offset_copy(s: Seq<u8>, offset: int, n: nat) -> Seq<u8>
    decreases n,
{
    if n == 0 {
        s
    } else {
        offset_copy(s.push(s[s.len() - offset]), offset, (n - 1) as nat)
    }
}

pub proof fn lemma_offset_copy_len(s: Seq<u8>, offset: int, n: nat)
    requires
        1 <= offset <= s.len(),
    ensures
        offset_copy(s, offset, n).len() == s.len() + n,
    decreases n,
{
    if n > 0 {
        lemma_offset_copy_len(s.push(s[s.len() - offset]), offset, (n - 1) as nat);
    }
}

/// A back-reference copy only appends: the original bytes stay in place.
pub proof fn lemma_offset_copy_prefix(s: Seq<u8>, offset: int, n: nat)
    requires
        1 <= offset <= s.len(),
    ensures
        offset_copy(s, offset, n).len() == s.len() + n,
        offset_copy(s, offset, n).subrange(0, s.len() as int) =~= s,
    decreases n,
{
    lemma_offset_copy_len(s, offset, n);
    if n > 0 {
        let s2 = s.push(s[s.len() - offset]);
        lemma_offset_copy_prefix(s2, offset, (n - 1) as nat);
        assert forall|i: int| 0 <= i < s.len() implies offset_copy(s, offset, n)[i] == s[i] by {
            assert(offset_copy(s, offset, n) == offset_copy(s2, offset, (n - 1) as nat));
            assert(offset_copy(s2, offset, (n - 1) as nat).subrange(0, s2.len() as int) =~= s2);
            assert(offset_copy(s2, offset, (n - 1) as nat)[i] == s2[i]);
        }
    }
}

/// Peeling one step off the other end: the copy of `n + 1` bytes is the copy
/// of `n` bytes with one more byte, taken `offset` back, pushed on.
pub proof fn lemma_offset_copy_step(s: Seq<u8>, offset: int, n: nat)
    requires
        1 <= offset <= s.len(),
    ensures
        offset_copy(s, offset, n).len() == s.len() + n,
        offset_copy(s, offset, (n + 1) as nat) == offset_copy(s, offset, n).push(
            offset_copy(s, offset, n)[s.len() + n - offset],
        ),
    decreases n,
{
    lemma_offset_copy_len(s, offset, n);
    if n == 0 {
        assert(offset_copy(s, offset, 1) == offset_copy(s.push(s[s.len() - offset]), offset, 0));
    } else {
        let s2 = s.push(s[s.len() - offset]);
        lemma_offset_copy_step(s2, offset, (n - 1) as nat);
        assert(offset_copy(s, offset, (n + 1) as nat) == offset_copy(s2, offset, n));
        assert(offset_copy(s, offset, n) == offset_copy(s2, offset, (n - 1) as nat));
    }
}

/// Sliding-window output buffer: the undrained decoded bytes, the window
/// size, and (as ghost state) the total bytes emitted since the last reset.
pub struct Decodebuffer {
    buffer: Vec<u8>,
    window_size: usize,
    emitted_count: Ghost<nat>,
}

impl Decodebuffer {
    /// The undrained bytes, oldest first.
    pub closed spec fn view(&self) -> Seq<u8> {
        self.buffer@
    }

    /// The window size this buffer was configured with.
    pub closed spec fn window(&self) -> int {
        self.window_size as int
    }

    /// Total bytes appended since the last reset (drains do not lower it).
    pub closed spec fn emitted(&self) -> nat {
        self.emitted_count@
    }

    /// The window invariant: the buffer retains at least `min(window,
    /// emitted)` bytes, so every back-reference within the window can be
    /// served. Holds after every operation except a full drain.
    pub open spec fn window_holds(&self) -> bool {
        self.view().len() >= vstd::math::min(self.window(), self.emitted() as int)
    }

    pub fn new(window_size: usize) -> (r: Self)
        ensures
            r.view() =~= Seq::<u8>::empty(),
            r.window() == window_size,
            r.emitted() == 0,
            r.window_holds(),
    {
        Decodebuffer { buffer: Vec::new(), window_size, emitted_count: Ghost(0) }
    }

    pub fn reset(&mut self, window_size: usize)
        ensures
            final(self).view() =~= Seq::<u8>::empty(),
            final(self).window() == window_size,
            final(self).emitted() == 0,
            final(self).window_holds(),
    {
        self.buffer = Vec::new();
        self.window_size = window_size;
        self.emitted_count = Ghost(0);
    }

    pub fn len(&self) -> (r: usize)
        ensures
            r == self.view().len(),
    {
        self.buffer.len()
    }

    pub fn get_window_size(&self) -> (r: usize)
        ensures
            r == self.window(),
    {
        self.window_size
    }

    /// Appends a slice of bytes.
    pub fn push(&mut self, data: &[u8])
        requires
            old(self).view().len() + data@.len() <= usize::MAX,
        ensures
            final(self).view() =~= old(self).view() + data@,
            final(self).window() == old(self).window(),
            final(self).emitted() == old(self).emitted() + data@.len(),
            old(self).window_holds() ==> final(self).window_holds(),
    {
        let mut i: usize = 0;
        let ghost start = self.buffer@;
        while i < data.len()
            invariant
                i <= data@.len(),
                start.len() + data@.len() <= usize::MAX,
                self.buffer@ =~= start + data@.subrange(0, i as int),
                self.window_size == old(self).window_size,
                self.emitted_count == old(self).emitted_count,
                start == old(self).view(),
            decreases data@.len() - i,
        {
            let b = data[i];
            self.buffer.push(b);
            i = i + 1;
        }
        proof {
            self.emitted_count@ = self.emitted_count@ + data@.len();
        }
    }

    /// Appends one byte.
    pub fn push_byte(&mut self, b: u8)
        requires
            old(self).view().len() + 1 <= usize::MAX,
        ensures
            final(self).view() =~= old(self).view().push(b),
            final(self).window() == old(self).window(),
            final(self).emitted() == old(self).emitted() + 1,
            old(self).window_holds() ==> final(self).window_holds(),
    {
        self.buffer.push(b);
        proof {
            self.emitted_count@ = self.emitted_count@ + 1;
        }
    }

    /// Appends `match_length` bytes copied byte-by-byte from `offset` bytes
    /// behind the end of the buffer. Fails, changing nothing, when the offset
    /// is zero, reaches outside the window, or reaches back past the bytes
    /// the buffer holds.
    pub fn repeat(&mut self, offset: usize, match_length: usize) -> (r: Result<(), DecodeError>)
        requires
            old(self).view().len() + match_length <= usize::MAX,
        ensures
            final(self).window() == old(self).window(),
            r is Ok <==> (1 <= offset && offset <= old(self).view().len() && offset
                <= old(self).window()),
            r is Ok ==> final(self).view() =~= offset_copy(
                old(self).view(),
                offset as int,
                match_length as nat,
            ) && final(self).emitted() == old(self).emitted() + match_length,
            r is Err ==> *final(self) == *old(self) && r == Err::<(), DecodeError>(
                DecodeError::OffsetOutOfRange,
            ),
            old(self).window_holds() ==> final(self).window_holds(),
    {
        if offset == 0 || offset > self.buffer.len() || offset > self.window_size {
            return Err(DecodeError::OffsetOutOfRange);
        }
        let ghost start = self.buffer@;
        let mut i: usize = 0;
        while i < match_length
            invariant
                1 <= offset <= start.len(),
                start.len() + match_length <= usize::MAX,
                i <= match_length,
                self.buffer@ =~= offset_copy(start, offset as int, i as nat),
                self.buffer@.len() == start.len() + i,
                self.window_size == old(self).window_size,
                self.emitted_count == old(self).emitted_count,
                start == old(self).view(),
            decreases match_length - i,
        {
            proof {
                lemma_offset_copy_step(start, offset as int, i as nat);
            }
            let b = self.buffer[self.buffer.len() - offset];
            self.buffer.push(b);
            i = i + 1;
        }
        proof {
            lemma_offset_copy_len(start, offset as int, match_length as nat);
            self.emitted_count@ = self.emitted_count@ + match_length as nat;
        }
        Ok(())
    }

    /// How many bytes a window-preserving drain would return.
    pub fn can_drain_to_window_size(&self) -> (r: Option<usize>)
        ensures
            self.view().len() > self.window() ==> r == Some((self.view().len() - self.window())
                as usize),
            self.view().len() <= self.window() ==> r is None,
    {
        if self.buffer.len() > self.window_size {
            Some(self.buffer.len() - self.window_size)
        } else {
            None
        }
    }

    /// How many bytes a full drain would return.
    pub fn can_drain(&self) -> (r: usize)
        ensures
            r == self.view().len(),
    {
        self.buffer.len()
    }

    /// Removes and returns the bytes in excess of the window, oldest first;
    /// `None` when the buffer does not exceed the window.
    pub fn drain_to_window_size(&mut self) -> (r: Option<Vec<u8>>)
        ensures
            final(self).window() == old(self).window(),
            final(self).emitted() == old(self).emitted(),
            old(self).view().len() <= old(self).window() ==> r is None && *final(self) == *old(self),
            old(self).view().len() > old(self).window() ==> (match r {
                Some(v) => v@ =~= old(self).view().subrange(
                    0,
                    old(self).view().len() - old(self).window(),
                ) && final(self).view() =~= old(self).view().subrange(
                    old(self).view().len() - old(self).window(),
                    old(self).view().len() as int,
                ),
                None => false,
            }),
            old(self).window_holds() ==> final(self).window_holds(),
    {
        if self.buffer.len() <= self.window_size {
            return None;
        }
        let k = self.buffer.len() - self.window_size;
        Some(self.split_off_front(k))
    }

    /// Removes and returns everything, oldest first. Meant for the end of a
    /// frame: afterwards the buffer no longer covers the window.
    pub fn drain(&mut self) -> (r: Vec<u8>)
        ensures
            final(self).window() == old(self).window(),
            final(self).emitted() == old(self).emitted(),
            r@ =~= old(self).view(),
            final(self).view() =~= Seq::<u8>::empty(),
    {
        let len = self.buffer.len();
        self.split_off_front(len)
    }

    /// Removes the first `k` bytes and returns them in order.
    fn split_off_front(&mut self, k: usize) -> (r: Vec<u8>)
        requires
            k <= old(self).view().len(),
        ensures
            final(self).window() == old(self).window(),
            final(self).emitted() == old(self).emitted(),
            r@ =~= old(self).view().subrange(0, k as int),
            final(self).view() =~= old(self).view().subrange(k as int, old(self).view().len() as int),
    {
        let ghost start = self.buffer@;
        let mut out: Vec<u8> = Vec::new();
        let mut i: usize = 0;
        while i < k
            invariant
                i <= k <= start.len(),
                self.buffer@ == start,
                out@ =~= start.subrange(0, i as int),
            decreases k - i,
        {
            out.push(self.buffer[i]);
            i = i + 1;
        }
        let mut rest: Vec<u8> = Vec::new();
        let mut j: usize = k;
        while j < self.buffer.len()
            invariant
                k <= j <= start.len(),
                self.buffer@ == start,
                rest@ =~= start.subrange(k as int, j as int),
            decreases start.len() - j,
        {
            rest.push(self.buffer[j]);
            j = j + 1;
        }
        self.buffer = rest;
        out
    }
}

} // verus!
