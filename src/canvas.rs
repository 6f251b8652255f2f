use vstd::prelude::*;
use crate::bitmap::{image_pixels, image_size, new_image, set_pixel, MAX_IMAGE_SIDE};
use crate::color::Color;
use crate::framebuffer::{lemma_grid_index, lemma_index_unique};

verus! {

/// What an export of `cells`, a `w` by `h` grid stored row by row, holds: at
/// each `(x, y)` the (red, green, blue) bytes of that cell.
pub open spec fn image_of(cells: Seq<Color>, w: int, h: int) -> Map<(int, int), (u8, u8, u8)> {
    Map::new(
        |p: (int, int)| 0 <= p.0 < w && 0 <= p.1 < h,
        |p: (int, int)| cells[p.1 * w + p.0].rgb(),
    )
}

/// The drawing: a fixed-size grid of colored cells, row by row.
pub struct Canvas {
    width: usize,
    height: usize,
    cells: Vec<Color>,
}

impl Canvas {
    pub closed spec fn width(&self) -> int {
        self.width as int
    }

    pub closed spec fn height(&self) -> int {
        self.height as int
    }

    /// The cells, row by row.
    pub closed spec fn view(&self) -> Seq<Color> {
        self.cells@
    }

    pub open spec fn wf(&self) -> bool {
        &&& self@.len() == self.width() * self.height()
        &&& 0 <= self.width() <= MAX_IMAGE_SIDE
        &&& 0 <= self.height() <= MAX_IMAGE_SIDE
    }

    /// The color of cell `(x, y)`.
    pub open spec fn cell(&self, x: int, y: int) -> Color {
        self@[y * self.width() + x]
    }

    /// A `width` by `height` canvas with every cell black. Each side is bounded
    /// so that the canvas can always be exported as a bitmap.
    pub fn new(width: usize, height: usize) -> (r: Canvas)
        requires
            width <= MAX_IMAGE_SIDE,
            height <= MAX_IMAGE_SIDE,
        ensures
            r.wf(),
            r.width() == width,
            r.height() == height,
            forall|i: int| 0 <= i < r@.len() ==> r@[i] == Color::Black,
    {
        assert(width * height <= MAX_IMAGE_SIDE * MAX_IMAGE_SIDE) by (nonlinear_arith)
            requires
                width <= MAX_IMAGE_SIDE,
                height <= MAX_IMAGE_SIDE,
        {}
        let n: usize = width * height;
        let mut cells: Vec<Color> = Vec::with_capacity(n);
        let mut i: usize = 0;
        while i < n
            invariant
                i <= n,
                cells@.len() == i,
                forall|k: int| 0 <= k < i ==> cells@[k] == Color::Black,
            decreases n - i,
        {
            cells.push(Color::Black);
            i = i + 1;
        }
        Canvas { width, height, cells }
    }

    pub fn get_width(&self) -> (r: usize)
        ensures
            r == self.width(),
    {
        self.width
    }

    pub fn get_height(&self) -> (r: usize)
        ensures
            r == self.height(),
    {
        self.height
    }

    /// The color of cell `(x, y)`.
    proof fn lemma_area(&self)
        requires
            self.wf(),
        ensures
            self.width() * self.height() <= MAX_IMAGE_SIDE * MAX_IMAGE_SIDE,
    {
        assert(self.width() * self.height() <= MAX_IMAGE_SIDE * MAX_IMAGE_SIDE) by (nonlinear_arith)
            requires
                0 <= self.width() <= MAX_IMAGE_SIDE,
                0 <= self.height() <= MAX_IMAGE_SIDE,
        {}
    }

    pub fn get(&self, x: usize, y: usize) -> (r: Color)
        requires
            self.wf(),
            x < self.width(),
            y < self.height(),
        ensures
            r == self.cell(x as int, y as int),
    {
        proof {
            lemma_grid_index(x as int, y as int, self.width(), self.height());
            self.lemma_area();
        }
        self.cells[y * self.width + x]
    }

    /// Overwrites cell `(x, y)` with `color`. A position off the canvas changes
    /// nothing; the result tells whether the cell was painted.
    pub fn paint(&mut self, x: usize, y: usize, color: Color) -> (painted: bool)
        requires
            old(self).wf(),
        ensures
            final(self).wf(),
            final(self).width() == old(self).width(),
            final(self).height() == old(self).height(),
            painted == (x < old(self).width() && y < old(self).height()),
            painted ==> final(self)@ == old(self)@.update(y * old(self).width() + x, color),
            !painted ==> final(self)@ == old(self)@,
    {
        if x < self.width && y < self.height {
            proof {
                lemma_grid_index(x as int, y as int, self.width(), self.height());
                self.lemma_area();
            }
            let idx: usize = y * self.width + x;
            self.cells.set(idx, color);
            true
        } else {
            false
        }
    }

    /// A bitmap of the canvas, one pixel per cell, with each cell's
    /// (red, green, blue) bytes.
    pub fn export(&self) -> (r: bmp::Image)
        requires
            self.wf(),
        ensures
            image_size(r) == (self.width(), self.height()),
            forall|x: int, y: int|
                0 <= x < self.width() && 0 <= y < self.height() ==> #[trigger] image_pixels(
                    r,
                ).contains_key((x, y)),
            forall|x: int, y: int|
                0 <= x < self.width() && 0 <= y < self.height() ==> #[trigger] image_pixels(r)[(
                x,
                y,
            )] == image_of(self@, self.width(), self.height())[(x, y)],
    {
        let w: usize = self.width;
        let h: usize = self.height;
        let mut img = new_image(w as u32, h as u32);
        let mut y: usize = 0;
        while y < h
            invariant
                self.wf(),
                w == self.width(),
                h == self.height(),
                y <= h,
                image_size(img) == (w as int, h as int),
                forall|px: int, py: int|
                    0 <= px < w && 0 <= py < h ==> #[trigger] image_pixels(img).contains_key(
                        (px, py),
                    ),
                forall|px: int, py: int|
                    0 <= px < w && 0 <= py < h ==> #[trigger] image_pixels(img)[(px, py)] == if py < y {
                        self.cell(px, py).rgb()
                    } else {
                        (0u8, 0u8, 0u8)
                    },
            decreases h - y,
        {
            let mut x: usize = 0;
            while x < w
                invariant
                    self.wf(),
                    w == self.width(),
                    h == self.height(),
                    y < h,
                    x <= w,
                    image_size(img) == (w as int, h as int),
                    forall|px: int, py: int|
                        0 <= px < w && 0 <= py < h ==> #[trigger] image_pixels(img).contains_key(
                            (px, py),
                        ),
                    forall|px: int, py: int|
                        0 <= px < w && 0 <= py < h ==> #[trigger] image_pixels(img)[(px, py)] == if py < y || (py == y && px < x) {
                            self.cell(px, py).rgb()
                        } else {
                            (0u8, 0u8, 0u8)
                        },
                decreases w - x,
            {
                let rgb = self.get(x, y).get_rgb();
                set_pixel(&mut img, x as u32, y as u32, rgb);
                x = x + 1;
            }
            y = y + 1;
        }
        img
    }
}

/// Painting a cell and then exporting gives that cell's pixel the brush's
/// (red, green, blue) bytes and leaves every other pixel as the export before
/// the paint had it.
pub proof fn lemma_paint_then_export(cells: Seq<Color>, w: int, h: int, x: int, y: int, color: Color)
    requires
        cells.len() == w * h,
        0 <= x < w,
        0 <= y < h,
    ensures
        image_of(cells.update(y * w + x, color), w, h)[(x, y)] == color.rgb(),
        forall|px: int, py: int|
            0 <= px < w && 0 <= py < h && (px, py) != (x, y) ==> #[trigger] image_of(
                cells.update(y * w + x, color),
                w,
                h,
            )[(px, py)] == image_of(cells, w, h)[(px, py)],
{
    lemma_grid_index(x, y, w, h);
    assert forall|px: int, py: int|
        0 <= px < w && 0 <= py < h && (px, py) != (x, y) implies #[trigger] image_of(
        cells.update(y * w + x, color),
        w,
        h,
    )[(px, py)] == image_of(cells, w, h)[(px, py)] by {
        lemma_grid_index(px, py, w, h);
        lemma_index_unique(px, py, x, y, w);
    }
}

} // verus!
