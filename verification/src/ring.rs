//! Cross-side ring buffer: a bounded byte FIFO between the filler task's
//! 20 ms clock and the voice driver's pull clock.  The writer appends one
//! serialized frame per tick and drops from the head in frame-sized chunks
//! when the capacity would be exceeded; the reader always receives exactly
//! the requested number of bytes, zero-padded on underflow, and never sees
//! an end of stream.
use vstd::prelude::*;

use crate::{FRAME_BYTES, RING_CAP};

verus! {

/// Bounded byte FIFO.
pub struct CrossRing {
    buf: Vec<u8>,
}

impl View for CrossRing {
    type V = Seq<u8>;

    closed spec fn view(&self) -> Seq<u8> {
        self.buf@
    }
}

/// The ring never holds more than its capacity.
pub open spec fn ring_wf(v: Seq<u8>) -> bool {
    v.len() <= RING_CAP
}

/// Contents after one frame is appended: the frame goes to the tail, and
/// when the capacity would be exceeded one frame-sized chunk leaves the
/// head first.
pub open spec fn ring_after_push(v: Seq<u8>, chunk: Seq<u8>) -> Seq<u8> {
    if v.len() + FRAME_BYTES <= RING_CAP {
        v + chunk
    } else {
        v.skip(FRAME_BYTES as int) + chunk
    }
}

impl CrossRing {
    /// An empty ring.
    pub fn new() -> (r: CrossRing)
        ensures
            r@ == Seq::<u8>::empty(),
            ring_wf(r@),
    {
        let r = CrossRing { buf: Vec::new() };
        proof {
            assert(r@ =~= Seq::<u8>::empty());
        }
        r
    }

    /// Bytes currently buffered.
    pub fn len(&self) -> (n: usize)
        ensures
            n == self@.len(),
    {
        self.buf.len()
    }

    /// Discards everything buffered.
    pub fn clear(&mut self)
        ensures
            final(self)@ == Seq::<u8>::empty(),
    {
        self.buf.clear();
    }

    /// Appends one serialized 20 ms frame, dropping one frame-sized chunk
    /// from the head first when the ring would otherwise exceed its
    /// capacity.
    pub fn push_frame(&mut self, chunk: &[u8])
        requires
            ring_wf(old(self)@),
            chunk@.len() == FRAME_BYTES,
        ensures
            ring_wf(final(self)@),
            final(self)@ == ring_after_push(old(self)@, chunk@),
    {
        let ghost pre = self@;
        if self.buf.len() + FRAME_BYTES > RING_CAP {
            let mut rest: Vec<u8> = Vec::new();
            let mut i: usize = FRAME_BYTES;
            let n = self.buf.len();
            while i < n
                invariant
                    FRAME_BYTES <= i <= n,
                    n == self@.len(),
                    self@ == pre,
                    rest@ == pre.subrange(FRAME_BYTES as int, i as int),
                decreases n - i,
            {
                let b = self.buf[i];
                rest.push(b);
                proof {
                    assert(rest@ =~= pre.subrange(FRAME_BYTES as int, i + 1 as int));
                }
                i = i + 1;
            }
            self.buf = rest;
            proof {
                assert(self@ =~= pre.skip(FRAME_BYTES as int));
            }
        }
        let ghost mid = self@;
        let mut i: usize = 0;
        while i < FRAME_BYTES
            invariant
                0 <= i <= FRAME_BYTES,
                chunk@.len() == FRAME_BYTES,
                self@ == mid + chunk@.take(i as int),
            decreases FRAME_BYTES - i,
        {
            let b = chunk[i];
            self.buf.push(b);
            proof {
                assert(mid + chunk@.take(i as int) + seq![chunk@[i as int]]
                    =~= mid + chunk@.take(i + 1 as int));
            }
            i = i + 1;
        }
        proof {
            assert(self@ =~= mid + chunk@);
        }
    }

    /// Serves one driver pull: returns exactly `n` bytes, the buffered ones
    /// first and zeroes for the rest.  Never fails, never returns fewer
    /// bytes, never signals an end of stream.
    pub fn read_exact(&mut self, n: usize) -> (r: Vec<u8>)
        ensures
            r@.len() == n,
            ({
                let served = if n <= old(self)@.len() { n as int } else { old(self)@.len() as int };
                &&& forall|i: int| 0 <= i < served ==> r@[i] == old(self)@[i]
                &&& forall|i: int| served <= i < n ==> r@[i] == 0u8
                &&& final(self)@ == old(self)@.skip(served)
            }),
    {
        let ghost pre = self@;
        let avail = self.buf.len();
        let served: usize = if n <= avail { n } else { avail };
        let mut out: Vec<u8> = Vec::new();
        let mut i: usize = 0;
        while i < served
            invariant
                0 <= i <= served,
                served <= self@.len(),
                self@ == pre,
                out@.len() == i,
                forall|m: int| 0 <= m < i ==> out@[m] == pre[m],
            decreases served - i,
        {
            let b = self.buf[i];
            out.push(b);
            i = i + 1;
        }
        while i < n
            invariant
                served <= i <= n,
                self@ == pre,
                out@.len() == i,
                forall|m: int| 0 <= m < served && m < i ==> out@[m] == pre[m],
                forall|m: int| served <= m < i ==> out@[m] == 0u8,
            decreases n - i,
        {
            out.push(0u8);
            i = i + 1;
        }
        let mut rest: Vec<u8> = Vec::new();
        let mut j: usize = served;
        while j < avail
            invariant
                served <= j <= avail,
                avail == self@.len(),
                self@ == pre,
                rest@ == pre.subrange(served as int, j as int),
            decreases avail - j,
        {
            let b = self.buf[j];
            rest.push(b);
            proof {
                assert(rest@ =~= pre.subrange(served as int, j + 1 as int));
            }
            j = j + 1;
        }
        self.buf = rest;
        proof {
            assert(self@ =~= pre.skip(served as int));
        }
        out
    }
}

} // verus!
