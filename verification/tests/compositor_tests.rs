use qrswap::compositor::MultiVariantCompositor;
use qrswap::frame::Frame;
use qrswap::frame::Variant;
use qrswap::geometry::Rect;

fn frame_from_rows(rows: Vec<Vec<u32>>) -> Frame {
    let height = rows.len();
    let width = if height == 0 { 0 } else { rows[0].len() };
    Frame { width, height, rows }
}

fn checker(width: usize, height: usize) -> Frame {
    let mut rows = Vec::new();
    for y in 0..height {
        let mut row = Vec::new();
        for x in 0..width {
            row.push((y * 100 + x) as u32);
        }
        rows.push(row);
    }
    frame_from_rows(rows)
}

#[test]
fn replace_without_rectangle_is_pixel_identical_passthrough() {
    let frame = checker(4, 3);
    let variants = vec![
        Variant { name: "a".to_string(), content: Frame::new(2, 2, 7) },
        Variant { name: "b".to_string(), content: Frame::new(2, 2, 9) },
    ];
    let outs = MultiVariantCompositor::replace(&frame, None, &variants);
    assert_eq!(outs.len(), 2);
    assert_eq!(outs[0].0, "a");
    assert_eq!(outs[1].0, "b");
    for (_, out) in &outs {
        assert_eq!(out, &frame);
    }
}

#[test]
fn replace_modifies_only_the_rectangle() {
    let frame = checker(4, 4);
    let rect = Rect { x: 1, y: 1, width: 2, height: 2 };
    let variants = vec![Variant { name: "a".to_string(), content: Frame::new(2, 2, 555) }];
    let outs = MultiVariantCompositor::replace(&frame, Some(rect), &variants);
    assert_eq!(outs.len(), 1);
    let out = &outs[0].1;
    for y in 0..4usize {
        for x in 0..4usize {
            let inside = (1..3).contains(&x) && (1..3).contains(&y);
            if inside {
                assert_eq!(out.get(x, y), 555);
            } else {
                assert_eq!(out.get(x, y), frame.get(x, y));
            }
        }
    }
}

#[test]
fn replace_keeps_every_variant_independent() {
    let frame = checker(3, 3);
    let rect = Rect { x: 0, y: 0, width: 1, height: 1 };
    let variants = vec![
        Variant { name: "a".to_string(), content: Frame::new(1, 1, 11) },
        Variant { name: "b".to_string(), content: Frame::new(1, 1, 22) },
    ];
    let outs = MultiVariantCompositor::replace(&frame, Some(rect), &variants);
    assert_eq!(outs[0].1.get(0, 0), 11);
    assert_eq!(outs[1].1.get(0, 0), 22);
    // Both still carry the untouched source pixels outside the rectangle.
    assert_eq!(outs[0].1.get(2, 2), frame.get(2, 2));
    assert_eq!(outs[1].1.get(2, 2), frame.get(2, 2));
}

#[test]
fn composite_then_extract_round_trips_the_content() {
    let frame = checker(6, 5);
    let rect = Rect { x: 2, y: 1, width: 3, height: 2 };
    let content = frame_from_rows(vec![vec![70, 71, 72], vec![80, 81, 82]]);
    let composed = MultiVariantCompositor::composite(&frame, rect, &content);
    let back = MultiVariantCompositor::extract(&composed, rect);
    assert_eq!(back, content);
}

#[test]
fn composite_covering_whole_frame() {
    let frame = checker(2, 2);
    let rect = Rect { x: 0, y: 0, width: 2, height: 2 };
    let content = frame_from_rows(vec![vec![1, 2], vec![3, 4]]);
    let composed = MultiVariantCompositor::composite(&frame, rect, &content);
    assert_eq!(composed, content);
}

#[test]
fn extract_crops_the_rectangle() {
    let frame = checker(4, 4);
    let rect = Rect { x: 1, y: 2, width: 2, height: 1 };
    let cropped = MultiVariantCompositor::extract(&frame, rect);
    assert_eq!(cropped.width, 2);
    assert_eq!(cropped.height, 1);
    assert_eq!(cropped.get(0, 0), frame.get(1, 2));
    assert_eq!(cropped.get(1, 0), frame.get(2, 2));
}
