//! Per-connection read buffer.
//!
//! The buffer accumulates bytes taken off a stream and preserves partial
//! frames across read boundaries.  Its view is the sequence of unconsumed
//! bytes.  Filling compacts the storage, so consumed bytes never pile up,
//! and the buffer grows on demand: no hard ceiling on a frame's size.

use vstd::prelude::*;

verus! {

/// A byte accumulator tracking which of its bytes are not yet consumed.
pub struct ReadBuffer {
    data: Vec<u8>,
    start: usize,
}

impl View for ReadBuffer {
    type V = Seq<u8>;

    closed spec fn view(&self) -> Seq<u8> {
        self.data@.skip(self.start as int)
    }
}

impl ReadBuffer {
    /// The storage never marks more bytes consumed than it holds.
    pub closed spec fn wf(&self) -> bool {
        self.start <= self.data@.len()
    }

    /// An empty buffer.
    pub fn new() -> (r: ReadBuffer)
        ensures
            r.wf(),
            r@ == Seq::<u8>::empty(),
    {
        let r = ReadBuffer { data: Vec::new(), start: 0 };
        assert(r@ =~= Seq::<u8>::empty());
        r
    }

    /// How many unconsumed bytes are buffered.
    pub fn readable(&self) -> (n: usize)
        requires
            self.wf(),
        ensures
            n == self@.len(),
    {
        self.data.len() - self.start
    }

    /// The unconsumed byte at position `i`.
    pub fn peek(&self, i: usize) -> (b: u8)
        requires
            self.wf(),
            i < self@.len(),
        ensures
            b == self@[i as int],
    {
        let _total: usize = self.data.len();
        self.data[self.start + i]
    }

    /// Appends freshly read bytes behind the unconsumed ones, compacting
    /// the storage first so that consumed bytes are reclaimed.
    pub fn fill(&mut self, chunk: &[u8])
        requires
            old(self).wf(),
        ensures
            final(self).wf(),
            final(self)@ == old(self)@ + chunk@,
    {
        let ghost pre = self@;
        let total = self.data.len();
        let n = total - self.start;
        let mut i: usize = 0;
        while i < n
            invariant
                self.start + n == total,
                total == self.data@.len(),
                i <= n,
                pre.len() == n,
                forall|j: int| 0 <= j < i ==> self.data@[j] == pre[j],
                forall|j: int| i <= j < n ==> self.data@[self.start + j] == pre[j],
            decreases n - i,
        {
            let b = self.data[self.start + i];
            self.data.set(i, b);
            i += 1;
        }
        self.data.truncate(n);
        self.start = 0;
        assert(self@ =~= pre);
        let ghost compacted = self@;
        self.data.extend_from_slice(chunk);
        assert(self@ =~= compacted + chunk@);
    }

    /// Marks the first `k` unconsumed bytes as consumed.
    pub fn consume(&mut self, k: usize)
        requires
            old(self).wf(),
            k <= old(self)@.len(),
        ensures
            final(self).wf(),
            final(self)@ == old(self)@.skip(k as int),
    {
        let _total: usize = self.data.len();
        self.start = self.start + k;
        assert(self@ =~= old(self)@.skip(k as int));
    }

    /// Removes and returns the first `k` unconsumed bytes.
    pub fn take(&mut self, k: usize) -> (r: Vec<u8>)
        requires
            old(self).wf(),
            k <= old(self)@.len(),
        ensures
            final(self).wf(),
            r@ == old(self)@.take(k as int),
            final(self)@ == old(self)@.skip(k as int),
    {
        let mut r: Vec<u8> = Vec::new();
        let mut i: usize = 0;
        while i < k
            invariant
                self == old(self),
                i <= k,
                k <= self@.len(),
                self.wf(),
                r@.len() == i,
                forall|j: int| 0 <= j < i ==> r@[j] == self@[j],
            decreases k - i,
        {
            let b = self.peek(i);
            r.push(b);
            i += 1;
        }
        assert(r@ =~= old(self)@.take(k as int));
        self.consume(k);
        r
    }
}

} // verus!
