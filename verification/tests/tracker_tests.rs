use qrswap::geometry::Rect;
use qrswap::run::track_all;
use qrswap::tracker::RegionTracker;
use qrswap::tracker::TrackerMode;
use qrswap::tracker::max_miss_for_fps;

fn rect(x: i32, y: i32, w: i32, h: i32) -> Rect {
    Rect { x, y, width: w, height: h }
}

#[test]
fn tracker_returns_direct_detection() {
    let mut t = RegionTracker::new(5, false);
    let r = rect(1, 2, 3, 4);
    let out = t.next(&[Some(r)]);
    assert_eq!(out, Some(r));
    assert_eq!(t.mode, TrackerMode::Searching);
}

#[test]
fn tracker_bridges_short_gap() {
    // A miss at the current frame, the next detection two frames ahead:
    // the scan fills the cache so the skipped frames get the same rectangle.
    let r = rect(10, 10, 20, 20);
    let mut t = RegionTracker::new(5, false);
    let out0 = t.next(&[None, None, Some(r)]);
    assert_eq!(out0, Some(r));
    assert_eq!(t.mode, TrackerMode::Cached);
    // The two cached predictions serve the next two frames with no scanning.
    let out1 = t.next(&[]);
    assert_eq!(out1, Some(r));
    let out2 = t.next(&[]);
    assert_eq!(out2, Some(r));
    assert_eq!(t.mode, TrackerMode::Searching);
}

#[test]
fn tracker_exhausted_scan_is_lost() {
    let mut t = RegionTracker::new(3, false);
    let out = t.next(&[None, None, None]);
    assert_eq!(out, None);
    assert_eq!(t.mode, TrackerMode::Lost);
}

#[test]
fn tracker_ignores_scan_beyond_window() {
    // The detection sits past the miss tolerance: the bounded scan must not
    // reach it.
    let r = rect(0, 0, 5, 5);
    let mut t = RegionTracker::new(2, false);
    let out = t.next(&[None, None, Some(r)]);
    assert_eq!(out, None);
    assert_eq!(t.mode, TrackerMode::Lost);
}

#[test]
fn tracker_sticky_remembers_rectangle() {
    let r = rect(7, 8, 9, 10);
    let mut t = RegionTracker::new(4, true);
    assert_eq!(t.last_known_rectangle(), None);
    t.next(&[Some(r)]);
    assert_eq!(t.last_known_rectangle(), Some(r));
    // A lost frame does not clear the lock.
    t.next(&[None, None, None, None]);
    assert_eq!(t.last_known_rectangle(), Some(r));
}

#[test]
fn track_all_gap_within_tolerance() {
    // Detections at frames 0 and 3, misses in between, tolerance 3:
    // frames 1 and 2 receive frame 3's rectangle, and so does frame 3.
    let r0 = rect(0, 0, 4, 4);
    let r3 = rect(1, 1, 4, 4);
    let dets = vec![Some(r0), None, None, Some(r3), None];
    let out = track_all(&dets, 3);
    assert_eq!(out, vec![Some(r0), Some(r3), Some(r3), Some(r3), None]);
}

#[test]
fn track_all_gap_beyond_tolerance_passes_through() {
    // The next detection is farther away than the miss tolerance: the
    // frames in the exhausted windows are passed through, not guessed.
    let r0 = rect(0, 0, 4, 4);
    let r4 = rect(2, 2, 4, 4);
    let dets = vec![Some(r0), None, None, None, Some(r4)];
    let out = track_all(&dets, 2);
    assert_eq!(out, vec![Some(r0), None, None, Some(r4), Some(r4)]);
}

#[test]
fn track_all_no_detections_is_all_passthrough() {
    let dets: Vec<Option<Rect>> = vec![None; 6];
    let out = track_all(&dets, 3);
    assert_eq!(out, vec![None; 6]);
}

#[test]
fn track_all_zero_tolerance_never_detects() {
    let r = rect(0, 0, 1, 1);
    let dets = vec![Some(r), Some(r)];
    let out = track_all(&dets, 0);
    assert_eq!(out, vec![None, None]);
}

#[test]
fn max_miss_count_is_half_the_frame_rate() {
    assert_eq!(max_miss_for_fps(30), 15);
    assert_eq!(max_miss_for_fps(25), 12);
    assert_eq!(max_miss_for_fps(1), 0);
}
