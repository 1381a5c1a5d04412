use vstd::prelude::*;

verus! {

/// An axis-aligned rectangle in frame coordinates: `(x, y)` is the top-left
/// corner, `width` and `height` its extent in pixels.
///
/// Coordinates are kept signed because a padded detection box may reach past
/// the frame edge; whether a rectangle actually lies inside a given frame is
/// a separate question, answered by [`Rect::fits`].
#[derive(Clone, Copy, PartialEq, Eq, Structural, Debug)]
pub struct Rect {
    pub x: i32,
    pub y: i32,
    pub width: i32,
    pub height: i32,
}

impl Rect {
    /// A rectangle is well formed when its extent is non-negative.  One with
    /// a negative width or height carries no meaning for the engine and is
    /// normalized away at the detection boundary (see [`padded_rect`]).
    pub open spec fn wf(self) -> bool {
        self.width >= 0 && self.height >= 0
    }

    /// Does the rectangle lie fully inside a `w × h` pixel grid?
    pub open spec fn spec_fits(self, w: int, h: int) -> bool {
        &&& 0 <= self.x
        &&& 0 <= self.y
        &&& 0 <= self.width
        &&& 0 <= self.height
        &&& self.x + self.width <= w
        &&& self.y + self.height <= h
    }

    /// Runtime check for [`Rect::spec_fits`].
    pub fn fits(&self, w: usize, h: usize) -> (b: bool)
        ensures
            b == self.spec_fits(w as int, h as int),
    {
        self.x >= 0 && self.y >= 0 && self.width >= 0 && self.height >= 0
            && (self.x as u64) + (self.width as u64) <= (w as u64)
            && (self.y as u64) + (self.height as u64) <= (h as u64)
    }
}

/// Builds the padded bounding rectangle for a detection reported by its
/// top-left corner `(tlx, tly)` and bottom-right corner `(brx, bry)`.
///
/// The raw box is expanded by `padding` pixels symmetrically on every side.
/// A result with negative width or height (a degenerate detection) is
/// normalized to `None` rather than clamped: the engine treats it as a miss.
pub fn padded_rect(tlx: i32, tly: i32, brx: i32, bry: i32, padding: i32) -> (r: Option<Rect>)
    requires
        i32::MIN <= tlx - padding <= i32::MAX,
        i32::MIN <= tly - padding <= i32::MAX,
        i32::MIN <= brx - tlx + 2 * padding <= i32::MAX,
        i32::MIN <= bry - tly + 2 * padding <= i32::MAX,
    ensures
        (r is Some) <==> (brx - tlx + 2 * padding >= 0 && bry - tly + 2 * padding >= 0),
        r matches Some(rect) ==> {
            &&& rect.x == tlx - padding
            &&& rect.y == tly - padding
            &&& rect.width == brx - tlx + 2 * padding
            &&& rect.height == bry - tly + 2 * padding
            &&& rect.wf()
        },
{
    let x: i64 = tlx as i64 - padding as i64;
    let y: i64 = tly as i64 - padding as i64;
    let width: i64 = brx as i64 - tlx as i64 + 2 * (padding as i64);
    let height: i64 = bry as i64 - tly as i64 + 2 * (padding as i64);
    if width < 0 || height < 0 {
        None
    } else {
        Some(Rect { x: x as i32, y: y as i32, width: width as i32, height: height as i32 })
    }
}

} // verus!
