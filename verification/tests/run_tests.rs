use qrswap::error::EngineError;
use qrswap::frame::Frame;
use qrswap::frame::Variant;
use qrswap::geometry::Rect;
use qrswap::interval::ReplacementInterval;
use qrswap::run::run_interval;
use qrswap::run::run_streaming;
use qrswap::run::single_image_replace;

fn plain_frame(fill: u32) -> Frame {
    Frame::new(4, 4, fill)
}

fn variants_2x2() -> Vec<Variant> {
    vec![
        Variant { name: "a".to_string(), content: Frame::new(2, 2, 100) },
        Variant { name: "b".to_string(), content: Frame::new(2, 2, 200) },
    ]
}

#[test]
fn interval_run_keeps_streams_frame_aligned() {
    // Every output sink receives exactly one frame per input frame, in
    // index order, replaced inside the interval and untouched outside it.
    let frames = vec![plain_frame(1), plain_frame(2), plain_frame(3), plain_frame(4)];
    let rect = Rect { x: 1, y: 1, width: 2, height: 2 };
    let located = Some((ReplacementInterval { start: 1, end: 2 }, rect));
    let variants = variants_2x2();
    let streams = run_interval(&frames, located, &variants).unwrap();
    assert_eq!(streams.len(), 2);
    for (v, stream) in streams.iter().enumerate() {
        assert_eq!(stream.name, variants[v].name);
        assert_eq!(stream.frames.len(), frames.len());
        for (i, out) in stream.frames.iter().enumerate() {
            if i == 1 || i == 2 {
                assert_eq!(out.get(1, 1), variants[v].content.get(0, 0));
                assert_eq!(out.get(0, 0), frames[i].get(0, 0));
            } else {
                assert_eq!(out, &frames[i]);
            }
        }
    }
}

#[test]
fn interval_run_without_interval_is_pure_passthrough() {
    let frames = vec![plain_frame(5), plain_frame(6)];
    let variants = variants_2x2();
    let streams = run_interval(&frames, None, &variants).unwrap();
    assert_eq!(streams.len(), 2);
    for stream in &streams {
        assert_eq!(stream.frames.len(), 2);
        assert_eq!(stream.frames[0], frames[0]);
        assert_eq!(stream.frames[1], frames[1]);
    }
}

#[test]
fn interval_run_rejects_misfitting_rectangle() {
    let frames = vec![plain_frame(1)];
    let rect = Rect { x: 3, y: 3, width: 2, height: 2 };
    let located = Some((ReplacementInterval { start: 0, end: 0 }, rect));
    let res = run_interval(&frames, located, &variants_2x2());
    assert_eq!(res.unwrap_err(), EngineError::UpstreamCapabilityFailure);
}

#[test]
fn interval_run_rejects_missized_content() {
    let frames = vec![plain_frame(1)];
    let rect = Rect { x: 0, y: 0, width: 3, height: 3 };
    let located = Some((ReplacementInterval { start: 0, end: 0 }, rect));
    let res = run_interval(&frames, located, &variants_2x2());
    assert_eq!(res.unwrap_err(), EngineError::UpstreamCapabilityFailure);
}

#[test]
fn streaming_run_bridges_misses_and_stays_aligned() {
    let frames = vec![plain_frame(1), plain_frame(2), plain_frame(3), plain_frame(4)];
    let rect = Rect { x: 0, y: 0, width: 2, height: 2 };
    // Detections at frames 0 and 2; the gap at frame 1 is bridged.
    let dets = vec![Some(rect), None, Some(rect), None];
    let variants = variants_2x2();
    let streams = run_streaming(&frames, &dets, &variants, 2).unwrap();
    assert_eq!(streams.len(), 2);
    for (v, stream) in streams.iter().enumerate() {
        assert_eq!(stream.frames.len(), 4);
        // Frames 0..=2 replaced (frame 1 via the scan cache), frame 3 lost.
        for i in 0..3 {
            assert_eq!(stream.frames[i].get(0, 0), variants[v].content.get(0, 0));
        }
        assert_eq!(stream.frames[3], frames[3]);
    }
}

#[test]
fn streaming_run_passthrough_frames_are_pixel_identical() {
    // No detection at all: every variant's stream equals the input.
    let frames = vec![plain_frame(7), plain_frame(8)];
    let dets = vec![None, None];
    let streams = run_streaming(&frames, &dets, &variants_2x2(), 3).unwrap();
    for stream in &streams {
        assert_eq!(stream.frames[0], frames[0]);
        assert_eq!(stream.frames[1], frames[1]);
    }
}

#[test]
fn streaming_run_rejects_missized_content() {
    let frames = vec![plain_frame(1)];
    let rect = Rect { x: 0, y: 0, width: 4, height: 4 };
    let dets = vec![Some(rect)];
    let res = run_streaming(&frames, &dets, &variants_2x2(), 2);
    assert_eq!(res.unwrap_err(), EngineError::UpstreamCapabilityFailure);
}

#[test]
fn single_image_without_detection_fails_without_output() {
    let frame = plain_frame(1);
    let res = single_image_replace(&frame, None, &variants_2x2());
    assert_eq!(res.unwrap_err(), EngineError::DetectionNotFound);
}

#[test]
fn single_image_with_detection_replaces_once_per_variant() {
    let frame = plain_frame(1);
    let rect = Rect { x: 2, y: 2, width: 2, height: 2 };
    let variants = variants_2x2();
    let outs = single_image_replace(&frame, Some(rect), &variants).unwrap();
    assert_eq!(outs.len(), 2);
    assert_eq!(outs[0].0, "a");
    assert_eq!(outs[1].0, "b");
    assert_eq!(outs[0].1.get(2, 2), 100);
    assert_eq!(outs[1].1.get(2, 2), 200);
    assert_eq!(outs[0].1.get(0, 0), 1);
}

#[test]
fn single_image_with_bad_rectangle_fails() {
    let frame = plain_frame(1);
    let rect = Rect { x: 0, y: 0, width: 5, height: 5 };
    let res = single_image_replace(&frame, Some(rect), &variants_2x2());
    assert_eq!(res.unwrap_err(), EngineError::UpstreamCapabilityFailure);
}
