use vstd::prelude::*;

use std::collections::VecDeque;

use crate::geometry::Rect;

verus! {

/// A FIFO queue of predicted rectangles.
///
/// Each entry corresponds to exactly one upcoming frame: the queue is filled
/// only by a successful forward scan that spans a run of missed frames, and
/// it is drained one entry per frame advance.  The tracker that owns the
/// cache keeps its length bounded by the maximum miss tolerance.
pub struct DetectionCache {
    pub entries: VecDeque<Rect>,
}

impl View for DetectionCache {
    type V = Seq<Rect>;

    open spec fn view(&self) -> Seq<Rect> {
        self.entries@
    }
}

impl DetectionCache {
    /// An empty cache.
    pub fn new() -> (c: DetectionCache)
        ensures
            c@ == Seq::<Rect>::empty(),
    {
        DetectionCache { entries: VecDeque::new() }
    }

    /// How many predicted rectangles are queued.
    pub fn len(&self) -> (n: usize)
        ensures
            n == self@.len(),
    {
        self.entries.len()
    }

    /// Queues one more predicted rectangle at the back.
    pub fn push(&mut self, r: Rect)
        ensures
            final(self)@ == old(self)@.push(r),
    {
        self.entries.push_back(r);
    }

    /// Takes the front entry, the prediction for the frame now being served.
    pub fn pop_front(&mut self) -> (r: Rect)
        requires
            old(self)@.len() > 0,
        ensures
            r == old(self)@[0],
            final(self)@ == old(self)@.drop_first(),
    {
        let r = self.entries.pop_front().unwrap();
        assert(self@ =~= old(self)@.drop_first());
        r
    }
}

} // verus!
