use vstd::prelude::*;

use crate::config::PPN_LIMIT;

verus! {

/// Hands out physical page frames from a bounded pool and takes freed ones
/// back, reusing recycled frames before fresh ones.
pub struct FrameAllocator {
    /// Next fresh frame, not yet handed out.
    pub current: usize,
    /// Exclusive end of the pool of fresh frames.
    pub end: usize,
    /// Frames given back by an unmap, reused first.
    pub recycled: Vec<usize>,
}

impl FrameAllocator {
    /// Whether a frame sits on the recycled list.
    pub open spec fn in_recycled(&self, ppn: usize) -> bool {
        exists|i: int| 0 <= i < self.recycled@.len() && self.recycled@[i] == ppn
    }

    /// The pool's invariant: the fresh range is within bounds, and the
    /// recycled list holds pairwise distinct frames, each from the part of
    /// the pool already handed out once.
    pub open spec fn wf(&self) -> bool {
        &&& self.current <= self.end
        &&& self.end <= PPN_LIMIT
        &&& forall|i: int| 0 <= i < self.recycled@.len() ==> #[trigger] self.recycled@[i] < self.current
        &&& forall|i: int, j: int|
            0 <= i < self.recycled@.len() && 0 <= j < self.recycled@.len() && i != j
                ==> #[trigger] self.recycled@[i] != #[trigger] self.recycled@[j]
    }

    /// Frames still available: the fresh ones plus the recycled ones.
    pub open spec fn avail(&self) -> int {
        self.end - self.current + self.recycled@.len()
    }

    /// A fresh allocator over the physical page numbers `[current, end)`.
    pub fn new(current: usize, end: usize) -> (fa: FrameAllocator)
        requires
            current <= end,
            end <= PPN_LIMIT,
        ensures
            fa.wf(),
            fa.current == current,
            fa.end == end,
            fa.recycled@.len() == 0,
            fa.avail() == end - current,
    {
        FrameAllocator { current, end, recycled: Vec::new() }
    }

    /// Takes one frame out of the pool, the last recycled one first, else
    /// the next fresh one; `None` once the pool is exhausted. A frame handed
    /// out leaves the pool: it is neither on the recycled list nor in the
    /// fresh range afterwards, so no later call returns it again before it
    /// is given back.
    pub fn alloc_frame(&mut self) -> (r: Option<usize>)
        requires
            old(self).wf(),
        ensures
            final(self).wf(),
            final(self).end == old(self).end,
            old(self).recycled@.len() > 0 ==> (r == Some(old(self).recycled@.last())
                && final(self).recycled@ == old(self).recycled@.drop_last()
                && final(self).current == old(self).current),
            old(self).recycled@.len() == 0 && old(self).current < old(self).end
                ==> (r == Some(old(self).current)
                && final(self).recycled@ == old(self).recycled@
                && final(self).current == old(self).current + 1),
            old(self).avail() == 0 ==> r is None && final(self).current == old(self).current
                && final(self).recycled@ == old(self).recycled@,
            old(self).avail() > 0 ==> (r matches Some(p) && p < PPN_LIMIT
                && p < final(self).current && !final(self).in_recycled(p)
                && final(self).avail() == old(self).avail() - 1),
    {
        match self.recycled.pop() {
            Some(p) => Some(p),
            None => {
                if self.current < self.end {
                    let p = self.current;
                    self.current = self.current + 1;
                    Some(p)
                } else {
                    None
                }
            },
        }
    }

    /// Returns a freed frame to the pool. The caller shows the frame was
    /// once handed out and is not already back, which keeps the recycled
    /// list duplicate-free.
    pub fn dealloc_frame(&mut self, ppn: usize)
        requires
            old(self).wf(),
            ppn < old(self).current,
            !old(self).in_recycled(ppn),
        ensures
            final(self).wf(),
            final(self).recycled@ == old(self).recycled@.push(ppn),
            final(self).avail() == old(self).avail() + 1,
            final(self).current == old(self).current,
            final(self).end == old(self).end,
    {
        self.recycled.push(ppn);
    }
}

} // verus!
