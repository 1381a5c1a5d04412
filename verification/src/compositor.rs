use vstd::prelude::*;

use crate::frame::Frame;
use crate::frame::Variant;
use crate::geometry::Rect;

verus! {

/// The pixel grid produced by overwriting the sub-region `r` of `f` with the
/// content grid `c` (whose origin is mapped to `r`'s top-left corner).
/// Pixels outside `r` are taken from `f` unchanged.
pub open spec fn composited(f: Seq<Seq<u32>>, r: Rect, c: Seq<Seq<u32>>) -> Seq<Seq<u32>> {
    Seq::new(
        f.len(),
        |y: int|
            Seq::new(
                f[y].len(),
                |x: int|
                    if r.y <= y < r.y + r.height && r.x <= x < r.x + r.width {
                        c[y - r.y][x - r.x]
                    } else {
                        f[y][x]
                    },
            ),
    )
}

/// The cropped `r`-sized sub-grid of `f`.
pub open spec fn extracted(f: Seq<Seq<u32>>, r: Rect) -> Seq<Seq<u32>> {
    Seq::new(
        r.height as nat,
        |dy: int| Seq::new(r.width as nat, |dx: int| f[r.y + dy][r.x + dx]),
    )
}

/// Replacement touches nothing outside the rectangle: any in-frame pixel not
/// covered by `r` is unchanged by compositing.
pub proof fn lemma_composited_outside_unchanged(
    f: Seq<Seq<u32>>,
    r: Rect,
    c: Seq<Seq<u32>>,
    y: int,
    x: int,
)
    requires
        0 <= y < f.len(),
        0 <= x < f[y].len(),
        !(r.y <= y < r.y + r.height && r.x <= x < r.x + r.width),
    ensures
        composited(f, r, c)[y][x] == f[y][x],
{
}

/// Every pixel covered by the rectangle comes from the content grid, at the
/// offset of that pixel from the rectangle's top-left corner.
pub proof fn lemma_composited_inside(f: Seq<Seq<u32>>, r: Rect, c: Seq<Seq<u32>>, y: int, x: int)
    requires
        0 <= y < f.len(),
        0 <= x < f[y].len(),
        r.y <= y < r.y + r.height,
        r.x <= x < r.x + r.width,
    ensures
        composited(f, r, c)[y][x] == c[y - r.y][x - r.x],
{
}

/// Round trip: compositing content sized exactly to the rectangle and then
/// cropping that rectangle back out returns the content, pixel for pixel.
pub proof fn lemma_composite_extract_roundtrip(f: Seq<Seq<u32>>, r: Rect, c: Seq<Seq<u32>>)
    requires
        0 <= r.x,
        0 <= r.y,
        0 <= r.width,
        0 <= r.height,
        r.y + r.height <= f.len(),
        forall|y: int| 0 <= y < f.len() ==> r.x + r.width <= (#[trigger] f[y]).len(),
        c.len() == r.height,
        forall|dy: int| 0 <= dy < c.len() ==> (#[trigger] c[dy]).len() == r.width,
    ensures
        extracted(composited(f, r, c), r) == c,
{
    let e = extracted(composited(f, r, c), r);
    assert forall|dy: int| 0 <= dy < e.len() implies e[dy] =~= c[dy] by {
        assert forall|dx: int| 0 <= dx < r.width implies e[dy][dx] == c[dy][dx] by {
            lemma_composited_inside(f, r, c, r.y + dy, r.x + dx);
        }
    }
    assert(e =~~= c);
}

/// Produces the per-variant output frames for one input frame.
///
/// When no rectangle is available every variant receives an untouched copy of
/// the input frame, so all output streams stay frame-aligned; when a
/// rectangle is available each variant receives a copy with the rectangle's
/// pixels overwritten by that variant's content.
pub struct MultiVariantCompositor;

impl MultiVariantCompositor {
    /// Overwrites the sub-region `rect` of a copy of `frame` with `content`.
    pub fn composite(frame: &Frame, rect: Rect, content: &Frame) -> (out: Frame)
        requires
            frame.wf(),
            content.wf(),
            rect.spec_fits(frame.width as int, frame.height as int),
            content.width == rect.width,
            content.height == rect.height,
        ensures
            out.wf(),
            out.width == frame.width,
            out.height == frame.height,
            out@ == composited(frame@, rect, content@),
    {
        let rx: usize = rect.x as usize;
        let ry: usize = rect.y as usize;
        let rw: usize = rect.width as usize;
        let rh: usize = rect.height as usize;
        let ghost target = composited(frame@, rect, content@);
        let mut rows: Vec<Vec<u32>> = Vec::new();
        let mut y: usize = 0;
        while y < frame.height
            invariant
                frame.wf(),
                content.wf(),
                rect.spec_fits(frame.width as int, frame.height as int),
                content.width == rect.width,
                content.height == rect.height,
                rx == rect.x,
                ry == rect.y,
                rw == rect.width,
                rh == rect.height,
                target == composited(frame@, rect, content@),
                y <= frame.height,
                rows@.len() == y,
                forall|j: int| 0 <= j < y ==> (#[trigger] rows@[j])@ == target[j],
            decreases frame.height - y,
        {
            let src = &frame.rows[y];
            let mut row: Vec<u32> = Vec::new();
            let mut x: usize = 0;
            while x < frame.width
                invariant
                    frame.wf(),
                    content.wf(),
                    rect.spec_fits(frame.width as int, frame.height as int),
                    content.width == rect.width,
                    content.height == rect.height,
                    rx == rect.x,
                    ry == rect.y,
                    rw == rect.width,
                    rh == rect.height,
                    target == composited(frame@, rect, content@),
                    y < frame.height,
                    src == &frame.rows[y as int],
                    x <= frame.width,
                    row@.len() == x,
                    forall|i: int| 0 <= i < x ==> row@[i] == target[y as int][i],
                decreases frame.width - x,
            {
                let inside = ry <= y && y < ry + rh && rx <= x && x < rx + rw;
                let pixel: u32 = if inside {
                    content.rows[y - ry][x - rx]
                } else {
                    src[x]
                };
                row.push(pixel);
                x = x + 1;
            }
            assert(row@ =~= target[y as int]);
            rows.push(row);
            y = y + 1;
        }
        let out = Frame { width: frame.width, height: frame.height, rows };
        assert(out@ =~= target);
        out
    }

    /// Crops the sub-region `rect` out of `frame` into a frame of its own.
    pub fn extract(frame: &Frame, rect: Rect) -> (out: Frame)
        requires
            frame.wf(),
            rect.spec_fits(frame.width as int, frame.height as int),
        ensures
            out.wf(),
            out.width == rect.width,
            out.height == rect.height,
            out@ == extracted(frame@, rect),
    {
        let rx: usize = rect.x as usize;
        let ry: usize = rect.y as usize;
        let rw: usize = rect.width as usize;
        let rh: usize = rect.height as usize;
        let ghost target = extracted(frame@, rect);
        let mut rows: Vec<Vec<u32>> = Vec::new();
        let mut dy: usize = 0;
        while dy < rh
            invariant
                frame.wf(),
                rect.spec_fits(frame.width as int, frame.height as int),
                rx == rect.x,
                ry == rect.y,
                rw == rect.width,
                rh == rect.height,
                target == extracted(frame@, rect),
                dy <= rh,
                rows@.len() == dy,
                forall|j: int| 0 <= j < dy ==> (#[trigger] rows@[j])@ == target[j],
            decreases rh - dy,
        {
            let mut row: Vec<u32> = Vec::new();
            let mut dx: usize = 0;
            while dx < rw
                invariant
                    frame.wf(),
                    rect.spec_fits(frame.width as int, frame.height as int),
                    rx == rect.x,
                    ry == rect.y,
                    rw == rect.width,
                    rh == rect.height,
                    target == extracted(frame@, rect),
                    dy < rh,
                    dx <= rw,
                    row@.len() == dx,
                    forall|i: int| 0 <= i < dx ==> row@[i] == target[dy as int][i],
                decreases rw - dx,
            {
                row.push(frame.rows[ry + dy][rx + dx]);
                dx = dx + 1;
            }
            assert(row@ =~= target[dy as int]);
            rows.push(row);
            dy = dy + 1;
        }
        let out = Frame { width: rect.width as usize, height: rect.height as usize, rows };
        assert(out@ =~= target);
        out
    }

    /// One output frame per variant, in the variants' order, names preserved.
    ///
    /// With no rectangle every output is pixel-identical to the input frame;
    /// with a rectangle every output equals the input frame composited with
    /// that variant's content over the rectangle.
    pub fn replace(frame: &Frame, rect: Option<Rect>, variants: &Vec<Variant>) -> (outs: Vec<
        (String, Frame),
    >)
        requires
            frame.wf(),
            forall|i: int| 0 <= i < variants@.len() ==> (#[trigger] variants@[i]).wf(),
            rect matches Some(r) ==> {
                &&& r.spec_fits(frame.width as int, frame.height as int)
                &&& forall|i: int|
                    0 <= i < variants@.len() ==> {
                        &&& (#[trigger] variants@[i]).content.width == r.width
                        &&& variants@[i].content.height == r.height
                    }
            },
        ensures
            outs@.len() == variants@.len(),
            forall|i: int|
                0 <= i < outs@.len() ==> (#[trigger] outs@[i]).0@ == variants@[i].name@,
            forall|i: int|
                0 <= i < outs@.len() ==> {
                    &&& (#[trigger] outs@[i]).1.wf()
                    &&& outs@[i].1.width == frame.width
                    &&& outs@[i].1.height == frame.height
                },
            rect is None ==> forall|i: int|
                0 <= i < outs@.len() ==> (#[trigger] outs@[i]).1@ == frame@,
            rect matches Some(r) ==> forall|i: int|
                0 <= i < outs@.len() ==> (#[trigger] outs@[i]).1@ == composited(
                    frame@,
                    r,
                    variants@[i].content@,
                ),
    {
        let mut outs: Vec<(String, Frame)> = Vec::new();
        let mut i: usize = 0;
        while i < variants.len()
            invariant
                frame.wf(),
                forall|k: int| 0 <= k < variants@.len() ==> (#[trigger] variants@[k]).wf(),
                rect matches Some(r) ==> {
                    &&& r.spec_fits(frame.width as int, frame.height as int)
                    &&& forall|k: int|
                        0 <= k < variants@.len() ==> {
                            &&& (#[trigger] variants@[k]).content.width == r.width
                            &&& variants@[k].content.height == r.height
                        }
                },
                i <= variants@.len(),
                outs@.len() == i,
                forall|k: int|
                    0 <= k < i ==> (#[trigger] outs@[k]).0@ == variants@[k].name@,
                forall|k: int|
                    0 <= k < i ==> {
                        &&& (#[trigger] outs@[k]).1.wf()
                        &&& outs@[k].1.width == frame.width
                        &&& outs@[k].1.height == frame.height
                    },
                rect is None ==> forall|k: int|
                    0 <= k < i ==> (#[trigger] outs@[k]).1@ == frame@,
                rect matches Some(r) ==> forall|k: int|
                    0 <= k < i ==> (#[trigger] outs@[k]).1@ == composited(
                        frame@,
                        r,
                        variants@[k].content@,
                    ),
            decreases variants@.len() - i,
        {
            let variant = &variants[i];
            let name = variant.name.clone();
            let out_frame = match rect {
                None => frame.duplicate(),
                Some(r) => Self::composite(frame, r, &variant.content),
            };
            outs.push((name, out_frame));
            i = i + 1;
        }
        outs
    }
}

} // verus!
