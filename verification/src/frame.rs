use vstd::prelude::*;

verus! {

/// A 2D pixel buffer with a fixed width and height.
///
/// Pixels are plain packed color values; the engine never interprets them,
/// it only moves them around.  A frame is value-like: it is copied, never
/// shared mutably, so every output variant sees the original source pixels.
#[derive(Clone, PartialEq, Eq, Debug)]
pub struct Frame {
    pub width: usize,
    pub height: usize,
    pub rows: Vec<Vec<u32>>,
}

impl View for Frame {
    type V = Seq<Seq<u32>>;

    open spec fn view(&self) -> Seq<Seq<u32>> {
        Seq::new(self.rows@.len() as nat, |y: int| self.rows@[y]@)
    }
}

impl Frame {
    /// Well-formedness: the row count matches `height` and every row holds
    /// exactly `width` pixels.
    pub open spec fn wf(self) -> bool {
        &&& self.rows@.len() == self.height
        &&& forall|y: int| 0 <= y < self.rows@.len() ==> (#[trigger] self.rows@[y])@.len() == self.width
    }

    /// A frame filled with one color.
    pub fn new(width: usize, height: usize, fill: u32) -> (f: Frame)
        ensures
            f.wf(),
            f.width == width,
            f.height == height,
            forall|y: int, x: int|
                0 <= y < height && 0 <= x < width ==> f@[y][x] == fill,
    {
        let mut rows: Vec<Vec<u32>> = Vec::new();
        let mut y: usize = 0;
        while y < height
            invariant
                y <= height,
                rows@.len() == y,
                forall|j: int| 0 <= j < y ==> (#[trigger] rows@[j])@.len() == width,
                forall|j: int, x: int|
                    0 <= j < y && 0 <= x < width ==> #[trigger] rows@[j]@[x] == fill,
            decreases height - y,
        {
            let mut row: Vec<u32> = Vec::new();
            let mut x: usize = 0;
            while x < width
                invariant
                    x <= width,
                    row@.len() == x,
                    forall|i: int| 0 <= i < x ==> row@[i] == fill,
                decreases width - x,
            {
                row.push(fill);
                x = x + 1;
            }
            rows.push(row);
            y = y + 1;
        }
        Frame { width, height, rows }
    }

    /// Reads one pixel.
    pub fn get(&self, x: usize, y: usize) -> (p: u32)
        requires
            self.wf(),
            x < self.width,
            y < self.height,
        ensures
            p == self@[y as int][x as int],
    {
        self.rows[y][x]
    }

    /// An exact copy of the frame, pixel for pixel.
    pub fn duplicate(&self) -> (f: Frame)
        requires
            self.wf(),
        ensures
            f.wf(),
            f.width == self.width,
            f.height == self.height,
            f@ == self@,
    {
        let mut rows: Vec<Vec<u32>> = Vec::new();
        let mut y: usize = 0;
        while y < self.rows.len()
            invariant
                self.wf(),
                y <= self.rows@.len(),
                rows@.len() == y,
                forall|j: int| 0 <= j < y ==> (#[trigger] rows@[j])@ == self.rows@[j]@,
            decreases self.rows@.len() - y,
        {
            let src = &self.rows[y];
            let mut row: Vec<u32> = Vec::new();
            let mut x: usize = 0;
            while x < src.len()
                invariant
                    x <= src@.len(),
                    row@.len() == x,
                    forall|i: int| 0 <= i < x ==> row@[i] == src@[i],
                decreases src@.len() - x,
            {
                row.push(src[x]);
                x = x + 1;
            }
            assert(row@ =~= src@);
            rows.push(row);
            y = y + 1;
        }
        let out = Frame { width: self.width, height: self.height, rows };
        assert(out@ =~= self@);
        out
    }
}

/// One named replacement content image, already sized and color-normalized
/// for the rectangle it will cover.
#[derive(Clone, PartialEq, Eq, Debug)]
pub struct Variant {
    pub name: String,
    pub content: Frame,
}

impl Variant {
    /// The content frame must itself be well formed.
    pub open spec fn wf(self) -> bool {
        self.content.wf()
    }
}

} // verus!
