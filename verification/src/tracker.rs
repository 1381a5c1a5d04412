use vstd::prelude::*;

use vstd::math::min;

use crate::cache::DetectionCache;
use crate::geometry::Rect;

verus! {

/// The index of the first successful detection in a scan, if any.
pub open spec fn first_hit(scan: Seq<Option<Rect>>) -> Option<int>
    decreases scan.len(),
{
    if scan.len() == 0 {
        None
    } else if scan[0] is Some {
        Some(0)
    } else {
        match first_hit(scan.drop_first()) {
            None => None,
            Some(j) => Some(j + 1),
        }
    }
}

/// What `first_hit` means: it is the least index holding a detection, and it
/// is `None` exactly when the scan holds no detection at all.
pub proof fn lemma_first_hit(scan: Seq<Option<Rect>>)
    ensures
        match first_hit(scan) {
            None => forall|k: int| 0 <= k < scan.len() ==> (#[trigger] scan[k]) is None,
            Some(j) => {
                &&& 0 <= j < scan.len()
                &&& scan[j] is Some
                &&& forall|k: int| 0 <= k < j ==> (#[trigger] scan[k]) is None
            },
        },
    decreases scan.len(),
{
    if scan.len() == 0 {
    } else if scan[0] is Some {
    } else {
        lemma_first_hit(scan.drop_first());
        assert forall|k: int| 1 <= k < scan.len() implies scan[k] == scan.drop_first()[k - 1] by {}
    }
}

/// Pinning `first_hit` down from local knowledge: a detection at `j` with
/// only misses before it makes `j` the first hit.
pub proof fn lemma_first_hit_at(scan: Seq<Option<Rect>>, j: int)
    requires
        0 <= j < scan.len(),
        scan[j] is Some,
        forall|k: int| 0 <= k < j ==> (#[trigger] scan[k]) is None,
    ensures
        first_hit(scan) == Some(j),
    decreases j,
{
    if j == 0 {
    } else {
        assert(scan.drop_first()[j - 1] == scan[j]);
        assert forall|k: int| 0 <= k < j - 1 implies (#[trigger] scan.drop_first()[k]) is None by {
            assert(scan.drop_first()[k] == scan[k + 1]);
        }
        lemma_first_hit_at(scan.drop_first(), j - 1);
    }
}

/// A scan of nothing but misses has no first hit.
pub proof fn lemma_first_hit_none(scan: Seq<Option<Rect>>)
    requires
        forall|k: int| 0 <= k < scan.len() ==> (#[trigger] scan[k]) is None,
    ensures
        first_hit(scan) is None,
    decreases scan.len(),
{
    if scan.len() > 0 {
        assert forall|k: int| 0 <= k < scan.len() - 1 implies (#[trigger] scan.drop_first()[k]) is None by {
            assert(scan.drop_first()[k] == scan[k + 1]);
        }
        lemma_first_hit_none(scan.drop_first());
    }
}

/// The part of a handed-over scan that the tracker actually looks at: at most
/// `max_miss` entries, starting at the current frame.
pub open spec fn scan_window(scan: Seq<Option<Rect>>, max_miss: nat) -> Seq<Option<Rect>> {
    scan.take(min(scan.len() as int, max_miss as int))
}

/// The rectangle one call of [`RegionTracker::next`] returns, as a function
/// of the cache contents and the (already windowed) scan outcomes.
pub open spec fn step_result(cache: Seq<Rect>, scan: Seq<Option<Rect>>) -> Option<Rect> {
    if cache.len() > 0 {
        Some(cache[0])
    } else {
        match first_hit(scan) {
            None => None,
            Some(j) => scan[j],
        }
    }
}

/// The cache contents after one call of [`RegionTracker::next`]: the front
/// entry is consumed, or a successful scan at offset `j` leaves one predicted
/// entry per skipped frame.
pub open spec fn step_cache(cache: Seq<Rect>, scan: Seq<Option<Rect>>) -> Seq<Rect> {
    if cache.len() > 0 {
        cache.drop_first()
    } else {
        match first_hit(scan) {
            None => Seq::<Rect>::empty(),
            Some(j) => Seq::new(j as nat, |k: int| scan[j].unwrap()),
        }
    }
}

/// The remembered rectangle after one call of [`RegionTracker::next`]: a
/// sticky tracker locks onto each directly detected rectangle.
pub open spec fn step_last(
    cache: Seq<Rect>,
    scan: Seq<Option<Rect>>,
    last: Option<Rect>,
    sticky: bool,
) -> Option<Rect> {
    if cache.len() > 0 {
        last
    } else {
        match first_hit(scan) {
            None => last,
            Some(j) => if sticky {
                scan[j]
            } else {
                last
            },
        }
    }
}

/// The machine state after one call of [`RegionTracker::next`].
pub open spec fn step_mode(cache: Seq<Rect>, scan: Seq<Option<Rect>>) -> TrackerMode {
    if cache.len() > 1 {
        TrackerMode::Cached
    } else if cache.len() == 1 {
        TrackerMode::Searching
    } else {
        match first_hit(scan) {
            None => TrackerMode::Lost,
            Some(j) => if j > 0 {
                TrackerMode::Cached
            } else {
                TrackerMode::Searching
            },
        }
    }
}

/// The scan the tracker sees at frame `i` when the whole sequence of
/// per-frame detection outcomes is `dets`: the outcomes of the next
/// `max_miss` frames, clipped at the end of the sequence.
pub open spec fn detection_window(dets: Seq<Option<Rect>>, max_miss: nat, i: int) -> Seq<
    Option<Rect>,
> {
    dets.subrange(i, min(i + max_miss as int, dets.len() as int))
}

/// The cache contents a fresh tracker holds when it reaches frame `i`, after
/// being stepped once per frame in increasing frame order.
pub open spec fn cache_after(dets: Seq<Option<Rect>>, max_miss: nat, i: int) -> Seq<Rect>
    decreases i,
{
    if i <= 0 {
        Seq::<Rect>::empty()
    } else {
        step_cache(
            cache_after(dets, max_miss, i - 1),
            detection_window(dets, max_miss, i - 1),
        )
    }
}

/// The rectangle a fresh tracker returns for frame `i`.
pub open spec fn tracked_at(dets: Seq<Option<Rect>>, max_miss: nat, i: int) -> Option<Rect> {
    step_result(cache_after(dets, max_miss, i), detection_window(dets, max_miss, i))
}

/// All per-frame tracking decisions for the sequence, in frame order.
pub open spec fn tracked_rects(dets: Seq<Option<Rect>>, max_miss: nat) -> Seq<Option<Rect>> {
    Seq::new(dets.len(), |i: int| tracked_at(dets, max_miss, i))
}

/// The tracker's bounded miss tolerance, derived from the frame rate.
pub fn max_miss_for_fps(fps: u32) -> (m: u32)
    ensures
        m == fps / 2,
{
    fps / 2
}

/// The three states of the tracking machine: scanning for a detection,
/// serving cached predictions, or passing frames through after an exhausted
/// scan.
#[derive(Clone, Copy, PartialEq, Eq, Structural, Debug)]
pub enum TrackerMode {
    Searching,
    Cached,
    Lost,
}

/// Per-run tracking state: the bounded prediction cache, the last directly
/// detected rectangle (in sticky mode), and the machine state.  One tracker
/// is created per run, stepped exactly once per frame index, in increasing
/// order, and discarded at run end.
pub struct RegionTracker {
    pub cache: DetectionCache,
    pub last_known: Option<Rect>,
    pub mode: TrackerMode,
    pub max_miss_count: usize,
    pub sticky: bool,
}

impl RegionTracker {
    /// The cache never outgrows the miss tolerance, and the machine is in
    /// `Cached` state exactly while predictions are queued.
    pub open spec fn wf(self) -> bool {
        &&& self.cache@.len() <= self.max_miss_count
        &&& (self.mode == TrackerMode::Cached <==> self.cache@.len() > 0)
    }

    /// A fresh tracker in `Searching` state with an empty cache.
    pub fn new(max_miss_count: usize, sticky: bool) -> (t: RegionTracker)
        ensures
            t.wf(),
            t.cache@ == Seq::<Rect>::empty(),
            t.last_known is None,
            t.mode == TrackerMode::Searching,
            t.max_miss_count == max_miss_count,
            t.sticky == sticky,
    {
        RegionTracker {
            cache: DetectionCache::new(),
            last_known: None,
            mode: TrackerMode::Searching,
            max_miss_count,
            sticky,
        }
    }

    /// One tracking step, for one frame, in frame order.
    ///
    /// `scan` holds the detection outcomes of the current frame and the
    /// frames after it, as far as the caller cared to probe; the tracker
    /// looks at no more than `max_miss_count` of them, and at none at all
    /// while cached predictions are queued.  A caller may therefore stop
    /// probing at the first successful detection and may hand an empty scan
    /// whenever the cache is non-empty.
    ///
    /// The returned rectangle is the front cached prediction if one is
    /// queued; otherwise the first detection in the scan window, which also
    /// leaves one cached prediction per skipped frame; otherwise `None`, and
    /// the frame is to be passed through.
    pub fn next(&mut self, scan: &[Option<Rect>]) -> (r: Option<Rect>)
        requires
            old(self).wf(),
        ensures
            final(self).wf(),
            final(self).max_miss_count == old(self).max_miss_count,
            final(self).sticky == old(self).sticky,
            ({
                let win = scan_window(scan@, old(self).max_miss_count as nat);
                &&& r == step_result(old(self).cache@, win)
                &&& final(self).cache@ == step_cache(old(self).cache@, win)
                &&& final(self).last_known == step_last(
                    old(self).cache@,
                    win,
                    old(self).last_known,
                    old(self).sticky,
                )
                &&& final(self).mode == step_mode(old(self).cache@, win)
            }),
    {
        let ghost win = scan_window(scan@, self.max_miss_count as nat);
        if self.cache.len() > 0 {
            let front = self.cache.pop_front();
            self.mode = if self.cache.len() > 0 {
                TrackerMode::Cached
            } else {
                TrackerMode::Searching
            };
            return Some(front);
        }
        let limit: usize = if scan.len() < self.max_miss_count {
            scan.len()
        } else {
            self.max_miss_count
        };
        proof {
            assert(win =~= scan@.take(limit as int));
        }
        let mut j: usize = 0;
        while j < limit
            invariant
                old(self).wf(),
                *self == *old(self),
                self.cache@.len() == 0,
                j <= limit,
                limit == min(scan@.len() as int, self.max_miss_count as int),
                win == scan_window(scan@, self.max_miss_count as nat),
                win =~= scan@.take(limit as int),
                forall|k: int| 0 <= k < j ==> (#[trigger] scan@[k]) is None,
            decreases limit - j,
        {
            match scan[j] {
                Some(rect) => {
                    proof {
                        assert(win[j as int] == scan@[j as int]);
                        assert forall|k: int| 0 <= k < j implies (#[trigger] win[k]) is None by {
                            assert(win[k] == scan@[k]);
                        }
                        lemma_first_hit_at(win, j as int);
                    }
                    let mut fresh = DetectionCache::new();
                    let mut k: usize = 0;
                    while k < j
                        invariant
                            k <= j,
                            fresh@.len() == k,
                            forall|m: int| 0 <= m < k ==> (#[trigger] fresh@[m]) == rect,
                        decreases j - k,
                    {
                        fresh.push(rect);
                        k = k + 1;
                    }
                    proof {
                        assert(fresh@ =~= Seq::new(j as nat, |m: int| win[j as int].unwrap()));
                    }
                    self.cache = fresh;
                    self.mode = if j > 0 {
                        TrackerMode::Cached
                    } else {
                        TrackerMode::Searching
                    };
                    if self.sticky {
                        self.last_known = Some(rect);
                    }
                    return Some(rect);
                },
                None => {
                    j = j + 1;
                },
            }
        }
        proof {
            assert forall|k: int| 0 <= k < win.len() implies (#[trigger] win[k]) is None by {
                assert(win[k] == scan@[k]);
            }
            lemma_first_hit_none(win);
        }
        self.mode = TrackerMode::Lost;
        None
    }

    /// The rectangle a sticky tracker has locked onto, if any.
    pub fn last_known_rectangle(&self) -> (r: Option<Rect>)
        ensures
            r == self.last_known,
    {
        self.last_known
    }
}

/// While the cache holds `c` predicted copies of `rect`, the next `c` frames
/// are served exactly those predictions, after which the cache is empty.
pub proof fn lemma_cache_drain(dets: Seq<Option<Rect>>, max_miss: nat, i: int, rect: Rect, c: nat)
    requires
        0 <= i,
        cache_after(dets, max_miss, i) == Seq::new(c, |m: int| rect),
    ensures
        forall|t: int| 0 <= t < c ==> #[trigger] tracked_at(dets, max_miss, i + t) == Some(rect),
        cache_after(dets, max_miss, i + c) == Seq::<Rect>::empty(),
    decreases c,
{
    if c == 0 {
        assert(cache_after(dets, max_miss, i) =~= Seq::<Rect>::empty());
    } else {
        assert(cache_after(dets, max_miss, i).len() == c);
        assert(tracked_at(dets, max_miss, i) == Some(rect));
        assert(cache_after(dets, max_miss, i + 1) == cache_after(dets, max_miss, i).drop_first());
        assert(cache_after(dets, max_miss, i + 1) =~= Seq::new((c - 1) as nat, |m: int| rect));
        lemma_cache_drain(dets, max_miss, i + 1, rect, (c - 1) as nat);
        assert forall|t: int| 0 <= t < c implies #[trigger] tracked_at(dets, max_miss, i + t) == Some(rect) by {
            if t > 0 {
                assert(tracked_at(dets, max_miss, (i + 1) + (t - 1)) == Some(rect));
            }
        }
    }
}

/// Gap bridging: a detection at frame `i` followed by the next detection at
/// frame `i + k` with `k` within the miss tolerance leaves no passthrough
/// frame in between — every frame `i + 1 ..= i + k` receives frame `i + k`'s
/// rectangle, filled in by the bounded forward scan, and the tracker comes
/// out of the gap with an empty cache again.
pub proof fn lemma_gap_bridged(dets: Seq<Option<Rect>>, max_miss: nat, i: int, k: int)
    requires
        1 <= k <= max_miss,
        0 <= i,
        i + k < dets.len(),
        cache_after(dets, max_miss, i) == Seq::<Rect>::empty(),
        dets[i] is Some,
        dets[i + k] is Some,
        forall|m: int| i < m < i + k ==> (#[trigger] dets[m]) is None,
    ensures
        tracked_at(dets, max_miss, i) == dets[i],
        forall|t: int| i < t <= i + k ==> tracked_at(dets, max_miss, t) == dets[i + k],
        cache_after(dets, max_miss, i + k + 1) == Seq::<Rect>::empty(),
{
    let n = dets.len() as int;
    let win_i = detection_window(dets, max_miss, i);
    assert(win_i[0] == dets[i]);
    lemma_first_hit_at(win_i, 0);
    assert(tracked_at(dets, max_miss, i) == dets[i]);
    assert(cache_after(dets, max_miss, i + 1) =~= Seq::<Rect>::empty());

    let win1 = detection_window(dets, max_miss, i + 1);
    assert(win1.len() == min(max_miss as int, n - (i + 1)));
    assert(k - 1 < win1.len());
    assert(win1[k - 1] == dets[i + k]);
    assert forall|t: int| 0 <= t < k - 1 implies (#[trigger] win1[t]) is None by {
        assert(win1[t] == dets[i + 1 + t]);
    }
    lemma_first_hit_at(win1, k - 1);
    assert(tracked_at(dets, max_miss, i + 1) == dets[i + k]);

    let rect = dets[i + k].unwrap();
    assert(cache_after(dets, max_miss, i + 2) =~= Seq::new((k - 1) as nat, |m: int| rect));
    lemma_cache_drain(dets, max_miss, i + 2, rect, (k - 1) as nat);
    assert forall|t: int| i < t <= i + k implies tracked_at(dets, max_miss, t) == dets[i + k] by {
        if t > i + 1 {
            assert(tracked_at(dets, max_miss, (i + 2) + (t - i - 2)) == Some(rect));
        }
    }
    assert(cache_after(dets, max_miss, (i + 2) + (k - 1)) == Seq::<Rect>::empty());
    assert((i + 2) + (k - 1) == i + k + 1);
}

proof fn lemma_all_missed_helper(dets: Seq<Option<Rect>>, max_miss: nat, base: int, i: int, w: int)
    requires
        0 <= base <= i <= w <= dets.len(),
        w <= base + max_miss,
        cache_after(dets, max_miss, i) == Seq::<Rect>::empty(),
        forall|m: int|
            base <= m < dets.len() && m < base + 2 * max_miss ==> (#[trigger] dets[m]) is None,
    ensures
        forall|t: int| i <= t < w ==> tracked_at(dets, max_miss, t) is None,
        cache_after(dets, max_miss, w) == Seq::<Rect>::empty(),
    decreases w - i,
{
    if i < w {
        let win = detection_window(dets, max_miss, i);
        assert forall|idx: int| 0 <= idx < win.len() implies (#[trigger] win[idx]) is None by {
            assert(win[idx] == dets[i + idx]);
            assert(i + idx < i + max_miss);
            assert(i + idx < base + 2 * max_miss);
        }
        lemma_first_hit_none(win);
        assert(tracked_at(dets, max_miss, i) is None);
        assert(cache_after(dets, max_miss, i + 1) == Seq::<Rect>::empty());
        lemma_all_missed_helper(dets, max_miss, base, i + 1, w);
    }
}

/// Window exhaustion: when the tracker reaches frame `i` with no queued
/// predictions and the recognizer finds nothing in reach of the scan windows
/// of the following frames, every frame of `i`'s scan window is a
/// passthrough — the tracker answers `None` for each of them rather than
/// guessing a rectangle.
pub proof fn lemma_missed_window_passthrough(dets: Seq<Option<Rect>>, max_miss: nat, i: int)
    requires
        0 <= i < dets.len(),
        cache_after(dets, max_miss, i) == Seq::<Rect>::empty(),
        forall|m: int|
            i <= m < dets.len() && m < i + 2 * max_miss ==> (#[trigger] dets[m]) is None,
    ensures
        forall|t: int|
            i <= t < min(i + max_miss as int, dets.len() as int) ==> tracked_at(
                dets,
                max_miss,
                t,
            ) is None,
{
    lemma_all_missed_helper(dets, max_miss, i, i, min(i + max_miss as int, dets.len() as int));
}

} // verus!
