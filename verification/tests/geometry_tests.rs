use qrswap::geometry::Rect;
use qrswap::geometry::padded_rect;

#[test]
fn padded_rect_expands_symmetrically() {
    // Corners (10,10) and (30,40), padding 5: box (5,5) sized 30x40.
    let r = padded_rect(10, 10, 30, 40, 5).unwrap();
    assert_eq!(r, Rect { x: 5, y: 5, width: 30, height: 40 });
}

#[test]
fn padded_rect_without_padding_is_the_raw_box() {
    let r = padded_rect(3, 4, 9, 8, 0).unwrap();
    assert_eq!(r, Rect { x: 3, y: 4, width: 6, height: 4 });
}

#[test]
fn padded_rect_normalizes_negative_extent_to_none() {
    // A degenerate detection whose corners are swapped must become a miss,
    // not a clamped rectangle.
    assert_eq!(padded_rect(30, 10, 10, 40, 0), None);
    assert_eq!(padded_rect(10, 40, 30, 10, 0), None);
    // Negative padding can also shrink the box below nothing.
    assert_eq!(padded_rect(10, 10, 12, 12, -2), None);
}

#[test]
fn padded_rect_may_reach_past_the_frame_origin() {
    // Padding larger than the corner offset gives negative coordinates;
    // they are kept, and `fits` later decides whether the box is usable.
    let r = padded_rect(2, 2, 10, 10, 5).unwrap();
    assert_eq!(r, Rect { x: -3, y: -3, width: 18, height: 18 });
    assert!(!r.fits(100, 100));
}

#[test]
fn fits_checks_all_four_bounds() {
    let r = Rect { x: 2, y: 3, width: 4, height: 5 };
    assert!(r.fits(6, 8));
    assert!(!r.fits(5, 8));
    assert!(!r.fits(6, 7));
    let zero = Rect { x: 0, y: 0, width: 0, height: 0 };
    assert!(zero.fits(0, 0));
}
