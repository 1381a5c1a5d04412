use vstd::prelude::*;

use vstd::slice::slice_subrange;

use crate::compositor::MultiVariantCompositor;
use crate::compositor::composited;
use crate::error::EngineError;
use crate::frame::Frame;
use crate::frame::Variant;
use crate::geometry::Rect;
use crate::interval::ReplacementInterval;
use crate::tracker::RegionTracker;
use crate::tracker::cache_after;
use crate::tracker::detection_window;
use crate::tracker::scan_window;
use crate::tracker::tracked_at;
use crate::tracker::tracked_rects;

verus! {

/// One output stream: the name of its content variant and one output frame
/// per input frame, in frame index order.
#[derive(PartialEq, Eq, Debug)]
pub struct VariantStream {
    pub name: String,
    pub frames: Vec<Frame>,
}

/// The pixel grid owed to an output stream for one frame: the input frame
/// untouched when no rectangle is available, otherwise the input frame with
/// the variant's content composited over the rectangle.
pub open spec fn replaced_frame(f: Seq<Seq<u32>>, r: Option<Rect>, c: Seq<Seq<u32>>) -> Seq<
    Seq<u32>,
> {
    match r {
        None => f,
        Some(rect) => composited(f, rect, c),
    }
}

/// Passthrough is pixel-identical: a frame with no planned rectangle owes
/// every output stream exactly the input pixels, whatever the variant's
/// content.
pub proof fn lemma_passthrough_identity(f: Seq<Seq<u32>>, c: Seq<Seq<u32>>)
    ensures
        replaced_frame(f, None, c) == f,
{
}

/// Can this frame's planned rectangle actually be replaced: the rectangle
/// lies inside the frame and every variant's content is sized exactly to it.
pub open spec fn frame_compatible(f: Frame, r: Option<Rect>, variants: Seq<Variant>) -> bool {
    match r {
        None => true,
        Some(rect) => {
            &&& rect.spec_fits(f.width as int, f.height as int)
            &&& forall|v: int|
                0 <= v < variants.len() ==> {
                    &&& (#[trigger] variants[v]).content.width == rect.width
                    &&& variants[v].content.height == rect.height
                }
        },
    }
}

/// Every frame of the plan can be replaced as planned.
pub open spec fn all_compatible(
    frames: Seq<Frame>,
    plan: Seq<Option<Rect>>,
    variants: Seq<Variant>,
) -> bool {
    forall|i: int|
        0 <= i < frames.len() ==> #[trigger] frame_compatible(frames[i], plan[i], variants)
}

/// The rectangle whole-interval replacement uses at frame `i`: the fixed
/// located rectangle inside the interval, nothing outside it.
pub open spec fn interval_rect_at(
    located: Option<(ReplacementInterval, Rect)>,
    i: int,
) -> Option<Rect> {
    match located {
        None => None,
        Some(p) => if p.0.spec_contains(i) {
            Some(p.1)
        } else {
            None
        },
    }
}

/// Runs a fresh tracker over the whole sequence of per-frame detection
/// outcomes, one step per frame in increasing frame order, and returns every
/// step's decision.
pub fn track_all(dets: &Vec<Option<Rect>>, max_miss: usize) -> (rects: Vec<Option<Rect>>)
    ensures
        rects@.len() == dets@.len(),
        forall|i: int|
            0 <= i < dets@.len() ==> rects@[i] == tracked_at(dets@, max_miss as nat, i),
        rects@ == tracked_rects(dets@, max_miss as nat),
{
    let n = dets.len();
    let mut tracker = RegionTracker::new(max_miss, false);
    let mut rects: Vec<Option<Rect>> = Vec::new();
    let mut i: usize = 0;
    while i < n
        invariant
            n == dets@.len(),
            i <= n,
            tracker.wf(),
            tracker.max_miss_count == max_miss,
            tracker.cache@ == cache_after(dets@, max_miss as nat, i as int),
            rects@.len() == i,
            forall|k: int| 0 <= k < i ==> rects@[k] == tracked_at(dets@, max_miss as nat, k),
        decreases n - i,
    {
        let end: usize = if max_miss < n - i {
            i + max_miss
        } else {
            n
        };
        let scan = slice_subrange(dets.as_slice(), i, end);
        proof {
            assert(scan@ =~= detection_window(dets@, max_miss as nat, i as int));
            assert(scan_window(scan@, max_miss as nat) =~= scan@);
        }
        let r = tracker.next(scan);
        proof {
            assert(cache_after(dets@, max_miss as nat, i + 1) == tracker.cache@);
        }
        rects.push(r);
        i = i + 1;
    }
    proof {
        assert(rects@ =~= tracked_rects(dets@, max_miss as nat));
    }
    rects
}

/// Checks that every variant's content is sized exactly to the rectangle.
fn variants_sized(variants: &Vec<Variant>, rect: Rect) -> (b: bool)
    ensures
        b == forall|v: int|
            0 <= v < variants@.len() ==> {
                &&& (#[trigger] variants@[v]).content.width == rect.width
                &&& variants@[v].content.height == rect.height
            },
{
    let mut v: usize = 0;
    while v < variants.len()
        invariant
            v <= variants@.len(),
            forall|k: int|
                0 <= k < v ==> {
                    &&& (#[trigger] variants@[k]).content.width == rect.width
                    &&& variants@[k].content.height == rect.height
                },
        decreases variants@.len() - v,
    {
        let same_w = rect.width >= 0 && variants[v].content.width == rect.width as usize;
        let same_h = rect.height >= 0 && variants[v].content.height == rect.height as usize;
        if !(same_w && same_h) {
            proof {
                assert(!((variants@[v as int].content.width == rect.width) && (variants@[v as int].content.height
                    == rect.height)));
            }
            return false;
        }
        v = v + 1;
    }
    true
}

/// Drives one full replacement pass over an in-memory frame sequence with a
/// per-frame rectangle plan.
///
/// On success every variant receives one output stream holding exactly one
/// frame per input frame, in frame index order: planned frames composited,
/// unplanned frames passed through untouched.  The pass fails — before any
/// output frame is produced — exactly when some planned rectangle cannot be
/// replaced (it falls outside its frame, or some variant's content is not
/// sized to it): that is a broken promise of the upstream detection or
/// generation capability, and the run aborts rather than guessing.
pub fn run_with_plan(frames: &Vec<Frame>, plan: &Vec<Option<Rect>>, variants: &Vec<Variant>) -> (res:
    Result<Vec<VariantStream>, EngineError>)
    requires
        frames@.len() == plan@.len(),
        forall|i: int| 0 <= i < frames@.len() ==> (#[trigger] frames@[i]).wf(),
        forall|v: int| 0 <= v < variants@.len() ==> (#[trigger] variants@[v]).wf(),
    ensures
        match res {
            Ok(streams) => {
                &&& all_compatible(frames@, plan@, variants@)
                &&& streams@.len() == variants@.len()
                &&& forall|v: int|
                    0 <= v < streams@.len() ==> (#[trigger] streams@[v]).name@
                        == variants@[v].name@
                &&& forall|v: int|
                    0 <= v < streams@.len() ==> (#[trigger] streams@[v]).frames@.len()
                        == frames@.len()
                &&& forall|v: int, i: int|
                    0 <= v < streams@.len() && 0 <= i < frames@.len() ==> {
                        &&& (#[trigger] streams@[v].frames@[i]).wf()
                        &&& streams@[v].frames@[i].width == frames@[i].width
                        &&& streams@[v].frames@[i].height == frames@[i].height
                        &&& streams@[v].frames@[i]@ == replaced_frame(
                            frames@[i]@,
                            plan@[i],
                            variants@[v].content@,
                        )
                    }
            },
            Err(e) => {
                &&& e == EngineError::UpstreamCapabilityFailure
                &&& !all_compatible(frames@, plan@, variants@)
            },
        },
{
    let n = frames.len();
    let mut i: usize = 0;
    while i < n
        invariant
            n == frames@.len(),
            frames@.len() == plan@.len(),
            i <= n,
            forall|k: int| 0 <= k < frames@.len() ==> (#[trigger] frames@[k]).wf(),
            forall|k: int|
                0 <= k < i ==> #[trigger] frame_compatible(frames@[k], plan@[k], variants@),
        decreases n - i,
    {
        match plan[i] {
            None => {},
            Some(rect) => {
                let frame = &frames[i];
                if !(rect.fits(frame.width, frame.height) && variants_sized(variants, rect)) {
                    proof {
                        assert(!frame_compatible(frames@[i as int], plan@[i as int], variants@));
                    }
                    return Err(EngineError::UpstreamCapabilityFailure);
                }
            },
        }
        i = i + 1;
    }
    let mut streams: Vec<VariantStream> = Vec::new();
    let mut v: usize = 0;
    while v < variants.len()
        invariant
            n == frames@.len(),
            frames@.len() == plan@.len(),
            forall|k: int| 0 <= k < frames@.len() ==> (#[trigger] frames@[k]).wf(),
            forall|k: int| 0 <= k < variants@.len() ==> (#[trigger] variants@[k]).wf(),
            all_compatible(frames@, plan@, variants@),
            v <= variants@.len(),
            streams@.len() == v,
            forall|w: int|
                0 <= w < v ==> (#[trigger] streams@[w]).name@ == variants@[w].name@,
            forall|w: int|
                0 <= w < v ==> (#[trigger] streams@[w]).frames@.len() == frames@.len(),
            forall|w: int, i2: int|
                0 <= w < v && 0 <= i2 < frames@.len() ==> {
                    &&& (#[trigger] streams@[w].frames@[i2]).wf()
                    &&& streams@[w].frames@[i2].width == frames@[i2].width
                    &&& streams@[w].frames@[i2].height == frames@[i2].height
                    &&& streams@[w].frames@[i2]@ == replaced_frame(
                        frames@[i2]@,
                        plan@[i2],
                        variants@[w].content@,
                    )
                },
        decreases variants@.len() - v,
    {
        let variant = &variants[v];
        let mut outs: Vec<Frame> = Vec::new();
        let mut j: usize = 0;
        while j < n
            invariant
                n == frames@.len(),
                frames@.len() == plan@.len(),
                forall|k: int| 0 <= k < frames@.len() ==> (#[trigger] frames@[k]).wf(),
                all_compatible(frames@, plan@, variants@),
                v < variants@.len(),
                variant == &variants@[v as int],
                variant.wf(),
                j <= n,
                outs@.len() == j,
                forall|i2: int|
                    0 <= i2 < j ==> {
                        &&& (#[trigger] outs@[i2]).wf()
                        &&& outs@[i2].width == frames@[i2].width
                        &&& outs@[i2].height == frames@[i2].height
                        &&& outs@[i2]@ == replaced_frame(
                            frames@[i2]@,
                            plan@[i2],
                            variant.content@,
                        )
                    },
            decreases n - j,
        {
            proof {
                assert(frame_compatible(frames@[j as int], plan@[j as int], variants@));
            }
            let out = match plan[j] {
                None => frames[j].duplicate(),
                Some(rect) => MultiVariantCompositor::composite(&frames[j], rect, &variant.content),
            };
            outs.push(out);
            j = j + 1;
        }
        streams.push(VariantStream { name: variant.name.clone(), frames: outs });
        v = v + 1;
    }
    Ok(streams)
}

/// Streaming mode: track the region across the sequence with the bounded
/// forward-scanning tracker, then replace each frame with its tracked
/// rectangle.  Success is owed exactly when every tracked rectangle can be
/// replaced; every output stream then holds one frame per input frame, in
/// frame index order.
pub fn run_streaming(
    frames: &Vec<Frame>,
    dets: &Vec<Option<Rect>>,
    variants: &Vec<Variant>,
    max_miss: usize,
) -> (res: Result<Vec<VariantStream>, EngineError>)
    requires
        frames@.len() == dets@.len(),
        forall|i: int| 0 <= i < frames@.len() ==> (#[trigger] frames@[i]).wf(),
        forall|v: int| 0 <= v < variants@.len() ==> (#[trigger] variants@[v]).wf(),
    ensures
        match res {
            Ok(streams) => {
                &&& all_compatible(frames@, tracked_rects(dets@, max_miss as nat), variants@)
                &&& streams@.len() == variants@.len()
                &&& forall|v: int|
                    0 <= v < streams@.len() ==> (#[trigger] streams@[v]).name@
                        == variants@[v].name@
                &&& forall|v: int|
                    0 <= v < streams@.len() ==> (#[trigger] streams@[v]).frames@.len()
                        == frames@.len()
                &&& forall|v: int, i: int|
                    0 <= v < streams@.len() && 0 <= i < frames@.len() ==> {
                        &&& (#[trigger] streams@[v].frames@[i]).wf()
                        &&& streams@[v].frames@[i].width == frames@[i].width
                        &&& streams@[v].frames@[i].height == frames@[i].height
                        &&& streams@[v].frames@[i]@ == replaced_frame(
                            frames@[i]@,
                            tracked_at(dets@, max_miss as nat, i),
                            variants@[v].content@,
                        )
                    }
            },
            Err(e) => {
                &&& e == EngineError::UpstreamCapabilityFailure
                &&& !all_compatible(frames@, tracked_rects(dets@, max_miss as nat), variants@)
            },
        },
{
    let plan = track_all(dets, max_miss);
    run_with_plan(frames, &plan, variants)
}

/// Builds the per-frame rectangle plan of whole-interval replacement: the
/// located rectangle on every frame inside the interval, `None` outside it.
pub fn interval_plan(frame_count: usize, located: Option<(ReplacementInterval, Rect)>) -> (plan:
    Vec<Option<Rect>>)
    ensures
        plan@.len() == frame_count,
        forall|i: int| 0 <= i < frame_count ==> plan@[i] == interval_rect_at(located, i),
{
    let mut plan: Vec<Option<Rect>> = Vec::new();
    let mut i: usize = 0;
    while i < frame_count
        invariant
            i <= frame_count,
            plan@.len() == i,
            forall|k: int| 0 <= k < i ==> plan@[k] == interval_rect_at(located, k),
        decreases frame_count - i,
    {
        let entry = match located {
            None => None,
            Some(p) => if p.0.contains(i) {
                Some(p.1)
            } else {
                None
            },
        };
        plan.push(entry);
        i = i + 1;
    }
    plan
}

/// Interval mode: replace every frame inside the located interval with the
/// one fixed rectangle, pass every frame outside it through untouched.  With
/// no located interval the whole run is pure passthrough.
pub fn run_interval(
    frames: &Vec<Frame>,
    located: Option<(ReplacementInterval, Rect)>,
    variants: &Vec<Variant>,
) -> (res: Result<Vec<VariantStream>, EngineError>)
    requires
        forall|i: int| 0 <= i < frames@.len() ==> (#[trigger] frames@[i]).wf(),
        forall|v: int| 0 <= v < variants@.len() ==> (#[trigger] variants@[v]).wf(),
    ensures
        match res {
            Ok(streams) => {
                &&& streams@.len() == variants@.len()
                &&& forall|v: int|
                    0 <= v < streams@.len() ==> (#[trigger] streams@[v]).name@
                        == variants@[v].name@
                &&& forall|v: int|
                    0 <= v < streams@.len() ==> (#[trigger] streams@[v]).frames@.len()
                        == frames@.len()
                &&& forall|v: int, i: int|
                    0 <= v < streams@.len() && 0 <= i < frames@.len() ==> {
                        &&& (#[trigger] streams@[v].frames@[i]).wf()
                        &&& streams@[v].frames@[i].width == frames@[i].width
                        &&& streams@[v].frames@[i].height == frames@[i].height
                        &&& streams@[v].frames@[i]@ == replaced_frame(
                            frames@[i]@,
                            interval_rect_at(located, i),
                            variants@[v].content@,
                        )
                    }
            },
            Err(e) => {
                &&& e == EngineError::UpstreamCapabilityFailure
                &&& exists|i: int|
                    0 <= i < frames@.len() && !frame_compatible(
                        frames@[i],
                        #[trigger] interval_rect_at(located, i),
                        variants@,
                    )
            },
        },
{
    let plan = interval_plan(frames.len(), located);
    let res = run_with_plan(frames, &plan, variants);
    match res {
        Ok(streams) => {
            proof {
                assert forall|i: int| 0 <= i < frames@.len() implies plan@[i] == interval_rect_at(
                    located,
                    i,
                ) by {}
            }
            Ok(streams)
        },
        Err(e) => {
            proof {
                assert(!all_compatible(frames@, plan@, variants@));
                assert(exists|i: int|
                    0 <= i < frames@.len() && !#[trigger] frame_compatible(
                        frames@[i],
                        plan@[i],
                        variants@,
                    ));
                let i = choose|i: int|
                    0 <= i < frames@.len() && !#[trigger] frame_compatible(
                        frames@[i],
                        plan@[i],
                        variants@,
                    );
                assert(plan@[i] == interval_rect_at(located, i));
                assert(0 <= i < frames@.len() && !frame_compatible(
                    frames@[i],
                    interval_rect_at(located, i),
                    variants@,
                ));
            }
            Err(e)
        },
    }
}

/// Single-image mode: one frame, one detection attempt, one composite.
///
/// With no detection the run fails terminally — there is no frame sequence
/// to scan forward in — and produces no output.  With a detection that the
/// upstream capabilities did not honor (a rectangle outside the frame, or
/// content not sized to it) the run also fails, before producing output.
/// Otherwise every variant yields one named output frame.
pub fn single_image_replace(
    frame: &Frame,
    detection: Option<Rect>,
    variants: &Vec<Variant>,
) -> (res: Result<Vec<(String, Frame)>, EngineError>)
    requires
        frame.wf(),
        forall|v: int| 0 <= v < variants@.len() ==> (#[trigger] variants@[v]).wf(),
    ensures
        detection is None <==> (res matches Err(e) && e == EngineError::DetectionNotFound),
        match res {
            Ok(outs) => {
                &&& detection matches Some(rect) && frame_compatible(
                    *frame,
                    Some(rect),
                    variants@,
                )
                &&& outs@.len() == variants@.len()
                &&& forall|v: int|
                    0 <= v < outs@.len() ==> (#[trigger] outs@[v]).0@ == variants@[v].name@
                &&& forall|v: int|
                    0 <= v < outs@.len() ==> (#[trigger] outs@[v]).1@ == composited(
                        frame@,
                        detection.unwrap(),
                        variants@[v].content@,
                    )
            },
            Err(e) => {
                &&& (e == EngineError::DetectionNotFound || e
                    == EngineError::UpstreamCapabilityFailure)
                &&& (e == EngineError::UpstreamCapabilityFailure <==> (detection matches Some(rect)
                    && !frame_compatible(*frame, Some(rect), variants@)))
            },
        },
        detection matches Some(rect) && frame_compatible(*frame, Some(rect), variants@)
            ==> res is Ok,
{
    match detection {
        None => Err(EngineError::DetectionNotFound),
        Some(rect) => {
            if !(rect.fits(frame.width, frame.height) && variants_sized(variants, rect)) {
                return Err(EngineError::UpstreamCapabilityFailure);
            }
            Ok(MultiVariantCompositor::replace(frame, Some(rect), variants))
        },
    }
}

} // verus!
