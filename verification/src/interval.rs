use vstd::prelude::*;

use vstd::math::min;

use crate::geometry::Rect;
use crate::tracker::first_hit;
use crate::tracker::lemma_first_hit;
use crate::tracker::lemma_first_hit_at;
use crate::tracker::lemma_first_hit_none;

verus! {

/// The latency margin applied to the located interval, derived from the
/// frame rate: it absorbs the recognizer's response lag at the transition
/// edges of the region's visible window.
pub fn margin_for_fps(fps: u32) -> (m: u32)
    ensures
        m == fps / 5,
{
    fps / 5
}

/// The index of the last successful detection in a sequence of per-frame
/// detection outcomes, if any.
pub open spec fn last_hit(scan: Seq<Option<Rect>>) -> Option<int>
    decreases scan.len(),
{
    if scan.len() == 0 {
        None
    } else if scan[scan.len() - 1] is Some {
        Some(scan.len() - 1)
    } else {
        last_hit(scan.drop_last())
    }
}

/// What `last_hit` means: it is the greatest index holding a detection, and
/// it is `None` exactly when the sequence holds no detection at all.
pub proof fn lemma_last_hit(scan: Seq<Option<Rect>>)
    ensures
        match last_hit(scan) {
            None => forall|k: int| 0 <= k < scan.len() ==> (#[trigger] scan[k]) is None,
            Some(j) => {
                &&& 0 <= j < scan.len()
                &&& scan[j] is Some
                &&& forall|k: int| j < k < scan.len() ==> (#[trigger] scan[k]) is None
            },
        },
    decreases scan.len(),
{
    if scan.len() == 0 {
    } else if scan[scan.len() - 1] is Some {
    } else {
        lemma_last_hit(scan.drop_last());
        assert forall|k: int| 0 <= k < scan.len() - 1 implies scan.drop_last()[k] == scan[k] by {}
    }
}

/// Pinning `last_hit` down from local knowledge: a detection at `j` with
/// only misses after it makes `j` the last hit.
pub proof fn lemma_last_hit_at(scan: Seq<Option<Rect>>, j: int)
    requires
        0 <= j < scan.len(),
        scan[j] is Some,
        forall|k: int| j < k < scan.len() ==> (#[trigger] scan[k]) is None,
    ensures
        last_hit(scan) == Some(j),
    decreases scan.len(),
{
    if j == scan.len() - 1 {
    } else {
        assert(scan.drop_last()[j] == scan[j]);
        assert forall|k: int| j < k < scan.len() - 1 implies (#[trigger] scan.drop_last()[k]) is None by {
            assert(scan.drop_last()[k] == scan[k]);
        }
        lemma_last_hit_at(scan.drop_last(), j);
    }
}

/// The closed frame range `[start, end]` inside which the region is treated
/// as visible; frames outside it are never modified.
#[derive(Clone, Copy, PartialEq, Eq, Structural, Debug)]
pub struct ReplacementInterval {
    pub start: usize,
    pub end: usize,
}

impl ReplacementInterval {
    /// The bounds are in order (the interval is non-empty).
    pub open spec fn wf(self) -> bool {
        self.start <= self.end
    }

    /// Is frame `i` inside the closed range?
    pub open spec fn spec_contains(self, i: int) -> bool {
        self.start <= i <= self.end
    }

    /// Runtime check for [`ReplacementInterval::spec_contains`].
    pub fn contains(&self, i: usize) -> (b: bool)
        ensures
            b == self.spec_contains(i as int),
    {
        self.start <= i && i <= self.end
    }
}

/// Finds the first and last frame indices where the region is detectable and
/// widens the range by a latency margin, for whole-interval replacement.
pub struct IntervalLocator;

impl IntervalLocator {
    /// Forward sweep: the index of the first detection, scanning from frame 0.
    pub fn first_detection(dets: &Vec<Option<Rect>>) -> (res: Option<usize>)
        ensures
            match res {
                None => first_hit(dets@) is None,
                Some(a) => first_hit(dets@) == Some(a as int),
            },
    {
        let mut i: usize = 0;
        while i < dets.len()
            invariant
                i <= dets@.len(),
                forall|k: int| 0 <= k < i ==> (#[trigger] dets@[k]) is None,
            decreases dets@.len() - i,
        {
            if dets[i].is_some() {
                proof {
                    lemma_first_hit_at(dets@, i as int);
                }
                return Some(i);
            }
            i = i + 1;
        }
        proof {
            lemma_first_hit_none(dets@);
        }
        None
    }

    /// Reverse sweep: the index of the last detection, scanning backward from
    /// the final frame.
    pub fn last_detection(dets: &Vec<Option<Rect>>) -> (res: Option<usize>)
        ensures
            match res {
                None => last_hit(dets@) is None,
                Some(b) => last_hit(dets@) == Some(b as int),
            },
    {
        let mut i: usize = dets.len();
        while i > 0
            invariant
                i <= dets@.len(),
                forall|k: int| i <= k < dets@.len() ==> (#[trigger] dets@[k]) is None,
            decreases i,
        {
            i = i - 1;
            if dets[i].is_some() {
                proof {
                    lemma_last_hit_at(dets@, i as int);
                }
                return Some(i);
            }
        }
        proof {
            if last_hit(dets@) is Some {
                lemma_last_hit(dets@);
            }
        }
        None
    }

    /// Locates the replacement interval for the whole sequence.
    ///
    /// The interval runs from the first detection minus the margin (clamped
    /// at frame 0) to the last detection plus the margin (clamped at the
    /// last frame), together with the first detected rectangle, which
    /// whole-interval replacement then uses for every frame of the interval.
    /// `None` means the region was never detected and the run degrades to
    /// pure passthrough.
    pub fn locate(dets: &Vec<Option<Rect>>, margin: usize) -> (res: Option<
        (ReplacementInterval, Rect),
    >)
        ensures
            (res is Some) <==> (first_hit(dets@) is Some),
            res matches Some(p) ==> {
                let a = first_hit(dets@).unwrap();
                let b = last_hit(dets@).unwrap();
                &&& last_hit(dets@) is Some
                &&& p.0.start == if a >= margin {
                    a - margin
                } else {
                    0
                }
                &&& p.0.end == min(dets@.len() - 1, b + margin)
                &&& p.0.wf()
                &&& dets@[a] == Some(p.1)
            },
    {
        let n = dets.len();
        match Self::first_detection(dets) {
            None => None,
            Some(a) => {
                proof {
                    lemma_first_hit(dets@);
                }
                let ob = Self::last_detection(dets);
                proof {
                    if ob is None {
                        lemma_last_hit(dets@);
                        assert(dets@[a as int] is None);
                    }
                }
                let b = ob.unwrap();
                proof {
                    lemma_last_hit(dets@);
                }
                let rect = dets[a].unwrap();
                let start: usize = if a >= margin {
                    a - margin
                } else {
                    0
                };
                let end: usize = if margin >= n - 1 - b {
                    n - 1
                } else {
                    b + margin
                };
                Some((ReplacementInterval { start, end }, rect))
            },
        }
    }
}

/// When detections are confined to the frame range `[a, b]`, the forward
/// sweep finds `a` and the reverse sweep finds `b`; together with
/// [`IntervalLocator::locate`]'s contract this pins the located interval to
/// `[max(0, a - margin), min(frame_count - 1, b + margin)]`.
pub proof fn lemma_confined_detections_hits(dets: Seq<Option<Rect>>, a: int, b: int)
    requires
        0 <= a <= b < dets.len(),
        dets[a] is Some,
        dets[b] is Some,
        forall|k: int| 0 <= k < dets.len() && (k < a || k > b) ==> (#[trigger] dets[k]) is None,
    ensures
        first_hit(dets) == Some(a),
        last_hit(dets) == Some(b),
{
    lemma_first_hit_at(dets, a);
    lemma_last_hit_at(dets, b);
}

} // verus!
