use vstd::prelude::*;
use crate::geometry::Vec2;

verus! {

/// `x * w + y` stays below `w * h` for a position inside a `w` by `h` grid.
pub proof fn lemma_grid_index(x: int, y: int, w: int, h: int)
    requires
        0 <= x < w,
        0 <= y < h,
    ensures
        0 <= y * w + x < w * h,
{
    assert(0 <= y * w + x < w * h) by (nonlinear_arith)
        requires
            0 <= x < w,
            0 <= y < h,
    {}
}

/// Whether pixel `(x, y)` lies in the half-open rectangle `[start, start + size)`.
pub open spec fn in_rect(x: int, y: int, start: Vec2, size: Vec2) -> bool {
    &&& start.x <= x < start.x + size.x
    &&& start.y <= y < start.y + size.y
}

/// A display-sized buffer of packed 0x00RRGGBB values, row by row.
pub struct PixelBuffer {
    size: Vec2,
    pixels: Vec<u32>,
}

impl PixelBuffer {
    pub closed spec fn width(&self) -> int {
        self.size.x as int
    }

    pub closed spec fn height(&self) -> int {
        self.size.y as int
    }

    /// The buffer's contents, row by row.
    pub closed spec fn view(&self) -> Seq<u32> {
        self.pixels@
    }

    pub open spec fn wf(&self) -> bool {
        self@.len() == self.width() * self.height()
    }

    /// The value of pixel `(x, y)`.
    pub open spec fn pixel(&self, x: int, y: int) -> u32 {
        self@[y * self.width() + x]
    }

    /// A buffer of `size.x` by `size.y` pixels, all 0 (black).
    pub fn new(size: Vec2) -> (r: PixelBuffer)
        requires
            size.x * size.y <= usize::MAX,
        ensures
            r.wf(),
            r.width() == size.x,
            r.height() == size.y,
            forall|i: int| 0 <= i < r@.len() ==> r@[i] == 0,
    {
        let n: usize = size.x * size.y;
        let mut pixels: Vec<u32> = Vec::with_capacity(n);
        let mut i: usize = 0;
        while i < n
            invariant
                i <= n,
                pixels@.len() == i,
                forall|k: int| 0 <= k < i ==> pixels@[k] == 0,
            decreases n - i,
        {
            pixels.push(0);
            i = i + 1;
        }
        PixelBuffer { size, pixels }
    }

    /// Width and height in pixels.
    pub fn size(&self) -> (r: Vec2)
        ensures
            r.x == self.width(),
            r.y == self.height(),
    {
        self.size
    }

    /// Sets every pixel of the half-open rectangle `[start, start + size)` to
    /// `color` and leaves every other pixel as it was.
    pub fn rectangle(&mut self, start: Vec2, size: Vec2, color: u32)
        requires
            old(self).wf(),
            start.x + size.x <= old(self).width(),
            start.y + size.y <= old(self).height(),
        ensures
            final(self).wf(),
            final(self).width() == old(self).width(),
            final(self).height() == old(self).height(),
            forall|x: int, y: int|
                0 <= x < final(self).width() && 0 <= y < final(self).height()
                    ==> #[trigger] final(self).pixel(x, y) == if in_rect(x, y, start, size) {
                    color
                } else {
                    old(self).pixel(x, y)
                },
    {
        let w: usize = self.size.x;
        let h: usize = self.size.y;
        let end_x: usize = start.x + size.x;
        let end_y: usize = start.y + size.y;
        let total: usize = self.pixels.len();
        let ghost before = self.pixels@;
        let mut y: usize = start.y;
        while y < end_y
            invariant
                start.y <= y <= end_y,
                end_x == start.x + size.x,
                end_y == start.y + size.y,
                end_x <= w,
                end_y <= h,
                w == self.size.x,
                h == self.size.y,
                self.pixels@.len() == w * h,
                total == w * h,
                before.len() == w * h,
                forall|px: int, py: int|
                    0 <= px < w && 0 <= py < h ==> #[trigger] self.pixels@[py * w + px] == if start.x
                        <= px < end_x && start.y <= py < y {
                        color
                    } else {
                        before[py * w + px]
                    },
            decreases end_y - y,
        {
            let mut x: usize = start.x;
            while x < end_x
                invariant
                    start.x <= x <= end_x,
                    start.y <= y < end_y,
                    end_x <= w,
                    end_y <= h,
                    w == self.size.x,
                    h == self.size.y,
                    self.pixels@.len() == w * h,
                    total == w * h,
                    before.len() == w * h,
                    forall|px: int, py: int|
                        0 <= px < w && 0 <= py < h ==> #[trigger] self.pixels@[py * w + px] == if (
                        start.x <= px < end_x && start.y <= py < y) || (py == y && start.x <= px
                            < x) {
                            color
                        } else {
                            before[py * w + px]
                        },
                decreases end_x - x,
            {
                proof {
                    lemma_grid_index(x as int, y as int, w as int, h as int);
                }
                let idx: usize = y * w + x;
                let ghost mid = self.pixels@;
                self.pixels.set(idx, color);
                assert forall|px: int, py: int| 0 <= px < w && 0 <= py < h implies #[trigger] self.pixels@[py * w + px] == if px == x && py == y {
                    color
                } else {
                    mid[py * w + px]
                } by {
                    lemma_grid_index(px, py, w as int, h as int);
                    lemma_index_unique(px, py, x as int, y as int, w as int);
                }
                x = x + 1;
            }
            y = y + 1;
        }
    }

    /// The buffer's contents, row by row, for handing to the display.
    pub fn get_buffer(&self) -> (r: &Vec<u32>)
        ensures
            r@ == self@,
    {
        &self.pixels
    }
}

/// Two positions inside a row of width `w` share a row-major index only when equal.
pub proof fn lemma_index_unique(x1: int, y1: int, x2: int, y2: int, w: int)
    requires
        0 <= x1 < w,
        0 <= x2 < w,
        0 <= y1,
        0 <= y2,
    ensures
        (y1 * w + x1 == y2 * w + x2) == (x1 == x2 && y1 == y2),
{
    if y1 * w + x1 == y2 * w + x2 {
        assert(x1 == x2 && y1 == y2) by (nonlinear_arith)
            requires
                0 <= x1 < w,
                0 <= x2 < w,
                0 <= y1,
                0 <= y2,
                y1 * w + x1 == y2 * w + x2,
        {}
    }
}

} // verus!
