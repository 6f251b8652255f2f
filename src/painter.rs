use vstd::prelude::*;
use crate::bitmap::{image_pixels, image_size, MAX_IMAGE_SIDE};
use crate::canvas::{image_of, Canvas};
use crate::color::Color;
use crate::framebuffer::{in_rect, PixelBuffer};
use crate::framebuffer::{lemma_grid_index, lemma_index_unique};
use crate::geometry::{cell_at, lemma_block_end, lemma_cell_block, lemma_cell_in_range, map_pointer, Vec2};

verus! {

/// The brush steps taken for a combined scroll delta: half of it, rounded
/// toward zero, since one wheel notch reports two units.
pub open spec fn scroll_steps(delta: int) -> int {
    if delta >= 0 {
        delta / 2
    } else {
        -((-delta) / 2)
    }
}

/// What the loop does at the end of a frame.
#[derive(Clone, Copy, Debug, PartialEq, Eq, Structural)]
pub struct FrameAction {
    /// Nanoseconds to sleep before going on.
    pub sleep_ns: u64,
    /// Whether the framebuffer is pushed to the display after the sleep; when
    /// false the display only has its event queue serviced.
    pub push: bool,
}

/// The end-of-frame decision: sleep out what is left of the frame interval,
/// and push pixels only when something changed.
pub open spec fn frame_plan(dirty: bool, elapsed_ns: u64, target_ns: u64) -> FrameAction {
    FrameAction {
        sleep_ns: if elapsed_ns < target_ns {
            (target_ns - elapsed_ns) as u64
        } else {
            0
        },
        push: dirty,
    }
}

/// Decides how a frame that took `elapsed_ns` ends, for a frame interval of
/// `target_ns` and whether anything was drawn during it.
pub fn plan_frame(dirty: bool, elapsed_ns: u64, target_ns: u64) -> (r: FrameAction)
    ensures
        r == frame_plan(dirty, elapsed_ns, target_ns),
{
    let sleep_ns: u64 = if elapsed_ns < target_ns {
        target_ns - elapsed_ns
    } else {
        0
    };
    FrameAction { sleep_ns, push: dirty }
}

/// Frame pacing: pixels are pushed only in a frame where something changed, and
/// a frame that pushes never ends before the frame interval has passed (unless
/// its work alone took longer); an idle frame waits out the interval too.
pub proof fn lemma_frame_pacing(dirty: bool, elapsed_ns: u64, target_ns: u64)
    ensures
        frame_plan(dirty, elapsed_ns, target_ns).push == dirty,
        elapsed_ns < target_ns ==> elapsed_ns + frame_plan(dirty, elapsed_ns, target_ns).sleep_ns
            == target_ns,
        elapsed_ns >= target_ns ==> frame_plan(dirty, elapsed_ns, target_ns).sleep_ns == 0,
{
}

/// The whole drawing state of one session: the canvas, the framebuffer shown
/// on the display, the brush and whether the display needs a push.
///
/// The display is the canvas, each cell drawn `magnification.x` by
/// `magnification.y` pixels, followed on the right by a strip
/// `indicator_width` pixels wide in the brush color.
pub struct Painter {
    canvas: Canvas,
    buffer: PixelBuffer,
    brush: Color,
    dirty: bool,
    magnification: Vec2,
    indicator_width: usize,
}

impl Painter {
    pub closed spec fn drawing(&self) -> Canvas {
        self.canvas
    }

    pub closed spec fn frame(&self) -> PixelBuffer {
        self.buffer
    }

    pub closed spec fn brush_color(&self) -> Color {
        self.brush
    }

    pub closed spec fn pending(&self) -> bool {
        self.dirty
    }

    pub closed spec fn magnification(&self) -> Vec2 {
        self.magnification
    }

    pub closed spec fn indicator_width(&self) -> int {
        self.indicator_width as int
    }

    /// Width in pixels of the part of the display that shows the canvas.
    pub open spec fn canvas_pixel_width(&self) -> int {
        self.magnification().x * self.drawing().width()
    }

    /// What the display shows at pixel `(px, py)`: the color of the cell under
    /// it, or the brush color on the indicator strip.
    pub open spec fn expected_pixel(&self, px: int, py: int) -> u32 {
        if px < self.canvas_pixel_width() {
            let c = cell_at(px, py, self.magnification());
            self.drawing().cell(c.0, c.1).hex()
        } else {
            self.brush_color().hex()
        }
    }

    pub open spec fn wf(&self) -> bool {
        &&& self.drawing().wf()
        &&& self.frame().wf()
        &&& self.magnification().x > 0
        &&& self.magnification().y > 0
        &&& self.frame().width() == self.canvas_pixel_width() + self.indicator_width()
        &&& self.frame().height() == self.magnification().y * self.drawing().height()
        &&& forall|px: int, py: int|
            0 <= px < self.frame().width() && 0 <= py < self.frame().height()
                ==> #[trigger] self.frame().pixel(px, py) == self.expected_pixel(px, py)
    }

    /// Every display pixel left of the strip lies over a cell of the canvas.
    proof fn lemma_pixel_over_cell(&self, px: int, py: int)
        requires
            self.wf(),
            0 <= px < self.canvas_pixel_width(),
            0 <= py < self.frame().height(),
        ensures
            0 <= cell_at(px, py, self.magnification()).0 < self.drawing().width(),
            0 <= cell_at(px, py, self.magnification()).1 < self.drawing().height(),
    {
        lemma_cell_in_range(px, self.magnification().x as int, self.drawing().width());
        lemma_cell_in_range(py, self.magnification().y as int, self.drawing().height());
    }

    /// A painter for a canvas of `image_size` cells, each shown `magnification`
    /// pixels large, beside an indicator strip `indicator_width` pixels wide.
    /// The canvas starts black, the brush white, and the display needs a push.
    pub fn new(image_size: Vec2, magnification: Vec2, indicator_width: usize) -> (r: Painter)
        requires
            image_size.x <= MAX_IMAGE_SIDE,
            image_size.y <= MAX_IMAGE_SIDE,
            magnification.x > 0,
            magnification.y > 0,
            magnification.x * image_size.x + indicator_width <= usize::MAX,
            magnification.y * image_size.y <= usize::MAX,
            (magnification.x * image_size.x + indicator_width) * (magnification.y * image_size.y)
                <= usize::MAX,
        ensures
            r.wf(),
            r.drawing().width() == image_size.x,
            r.drawing().height() == image_size.y,
            forall|i: int| 0 <= i < r.drawing()@.len() ==> r.drawing()@[i] == Color::Black,
            r.magnification() == magnification,
            r.indicator_width() == indicator_width,
            r.brush_color() == Color::White,
            r.pending(),
    {
        let canvas = Canvas::new(image_size.x, image_size.y);
        let canvas_px_width: usize = magnification.x * image_size.x;
        let height: usize = magnification.y * image_size.y;
        let window = Vec2::new(canvas_px_width + indicator_width, height);
        let mut buffer = PixelBuffer::new(window);
        let brush = Color::White;
        let hex = brush.get_hex();
        buffer.rectangle(Vec2::new(canvas_px_width, 0), Vec2::new(indicator_width, height), hex);
        let r = Painter { canvas, buffer, brush, dirty: true, magnification, indicator_width };
        proof {
            assert forall|px: int, py: int|
                0 <= px < r.frame().width() && 0 <= py < r.frame().height()
                    implies #[trigger] r.frame().pixel(px, py) == r.expected_pixel(px, py) by {
                lemma_grid_index(px, py, r.frame().width(), r.frame().height());
                if px < r.canvas_pixel_width() {
                    let c = cell_at(px, py, magnification);
                    lemma_cell_in_range(px, magnification.x as int, image_size.x as int);
                    lemma_cell_in_range(py, magnification.y as int, image_size.y as int);
                    lemma_grid_index(c.0, c.1, image_size.x as int, image_size.y as int);
                }
            }
        }
        r
    }

    /// The display's size in pixels: the canvas area and the strip beside it.
    /// A press of the pointer at display pixel `pointer`: the cell under it, if
    /// it is on the canvas, takes the brush color, its block on the display is
    /// redrawn and the display is marked for a push. Off the canvas (on the
    /// strip or beyond) nothing changes.
    pub fn click(&mut self, pointer: Vec2) -> (painted: bool)
        requires
            old(self).wf(),
        ensures
            final(self).wf(),
            final(self).magnification() == old(self).magnification(),
            final(self).indicator_width() == old(self).indicator_width(),
            final(self).brush_color() == old(self).brush_color(),
            final(self).drawing().width() == old(self).drawing().width(),
            final(self).drawing().height() == old(self).drawing().height(),
            painted == ({
                let c = cell_at(pointer.x as int, pointer.y as int, old(self).magnification());
                c.0 < old(self).drawing().width() && c.1 < old(self).drawing().height()
            }),
            painted ==> ({
                let c = cell_at(pointer.x as int, pointer.y as int, old(self).magnification());
                final(self).drawing()@ == old(self).drawing()@.update(
                    c.1 * old(self).drawing().width() + c.0,
                    old(self).brush_color(),
                )
            }),
            !painted ==> final(self).drawing() == old(self).drawing() && final(self).frame()
                == old(self).frame(),
            final(self).pending() == (old(self).pending() || painted),
    {
        let cell = map_pointer(pointer, self.magnification);
        if cell.x < self.canvas.get_width() && cell.y < self.canvas.get_height() {
            let ghost before = *self;
            let mx: usize = self.magnification.x;
            let my: usize = self.magnification.y;
            let window = self.buffer.size();
            proof {
                lemma_block_end(cell.x as int, mx as int, before.drawing().width());
                lemma_block_end(cell.y as int, my as int, before.drawing().height());
            }
            let start = Vec2::new(cell.x * mx, cell.y * my);
            let hex = self.brush.get_hex();
            self.canvas.paint(cell.x, cell.y, self.brush);
            self.buffer.rectangle(start, self.magnification, hex);
            self.dirty = true;
            proof {
                let w = before.drawing().width();
                assert forall|px: int, py: int|
                    0 <= px < self.frame().width() && 0 <= py < self.frame().height()
                        implies #[trigger] self.frame().pixel(px, py) == self.expected_pixel(
                        px,
                        py,
                    ) by {
                    assert(before.frame().pixel(px, py) == before.expected_pixel(px, py));
                    lemma_cell_block(px, cell.x as int, mx as int);
                    lemma_cell_block(py, cell.y as int, my as int);
                    lemma_grid_index(cell.x as int, cell.y as int, w, before.drawing().height());
                    if in_rect(px, py, start, self.magnification()) {
                        assert(px / (mx as int) == cell.x);
                        assert(py / (my as int) == cell.y);
                        assert(px < self.canvas_pixel_width());
                        assert(self.drawing().cell(cell.x as int, cell.y as int) == before.brush_color());
                    } else if px < self.canvas_pixel_width() {
                        let c = cell_at(px, py, self.magnification());
                        before.lemma_pixel_over_cell(px, py);
                        lemma_grid_index(c.0, c.1, w, before.drawing().height());
                        lemma_index_unique(c.0, c.1, cell.x as int, cell.y as int, w);
                        assert(c != (cell.x as int, cell.y as int));
                        assert(self.drawing().cell(c.0, c.1) == before.drawing().cell(c.0, c.1));
                    }
                }
            }
            true
        } else {
            false
        }
    }

    /// A turn of the scroll wheel by `(dx, dy)`: both axes count alike. A
    /// non-zero combined delta rotates the brush by half of it (rounded toward
    /// zero), repaints the strip and marks the display for a push.
    pub fn scroll(&mut self, dx: i32, dy: i32)
        requires
            old(self).wf(),
        ensures
            final(self).wf(),
            final(self).drawing() == old(self).drawing(),
            final(self).magnification() == old(self).magnification(),
            final(self).indicator_width() == old(self).indicator_width(),
            dx + dy != 0 ==> final(self).brush_color() == old(self).brush_color().rotated(
                scroll_steps(dx + dy),
            ) && final(self).pending(),
            dx + dy == 0 ==> final(self).brush_color() == old(self).brush_color()
                && final(self).pending() == old(self).pending()
                && final(self).frame() == old(self).frame(),
    {
        let delta: i64 = dx as i64 + dy as i64;
        if delta != 0 {
            let ghost before = *self;
            let half: i64 = if delta >= 0 {
                delta / 2
            } else {
                -((-delta) / 2)
            };
            let window = self.buffer.size();
            let strip_x: usize = window.x - self.indicator_width;
            let height: usize = window.y;
            self.brush.rotate_color(half as i32);
            let hex = self.brush.get_hex();
            self.buffer.rectangle(Vec2::new(strip_x, 0), Vec2::new(self.indicator_width, height), hex);
            self.dirty = true;
            proof {
                assert forall|px: int, py: int|
                    0 <= px < self.frame().width() && 0 <= py < self.frame().height()
                        implies #[trigger] self.frame().pixel(px, py) == self.expected_pixel(
                        px,
                        py,
                    ) by {
                    assert(before.frame().pixel(px, py) == before.expected_pixel(px, py));
                }
            }
        }
    }

    /// Ends a frame that took `elapsed_ns`, for a frame interval of `target_ns`:
    /// says how long to sleep and whether to push the framebuffer, and clears the
    /// pending push.
    pub fn end_frame(&mut self, elapsed_ns: u64, target_ns: u64) -> (r: FrameAction)
        requires
            old(self).wf(),
        ensures
            final(self).wf(),
            r == frame_plan(old(self).pending(), elapsed_ns, target_ns),
            !final(self).pending(),
            final(self).drawing() == old(self).drawing(),
            final(self).frame() == old(self).frame(),
            final(self).brush_color() == old(self).brush_color(),
            final(self).magnification() == old(self).magnification(),
            final(self).indicator_width() == old(self).indicator_width(),
    {
        let r = plan_frame(self.dirty, elapsed_ns, target_ns);
        self.dirty = false;
        r
    }

    /// A bitmap of the canvas, one pixel per cell.
    pub fn export(&self) -> (r: bmp::Image)
        requires
            self.wf(),
        ensures
            image_size(r) == (self.drawing().width(), self.drawing().height()),
            forall|x: int, y: int|
                0 <= x < self.drawing().width() && 0 <= y < self.drawing().height()
                    ==> #[trigger] image_pixels(r).contains_key((x, y)),
            forall|x: int, y: int|
                0 <= x < self.drawing().width() && 0 <= y < self.drawing().height()
                    ==> #[trigger] image_pixels(r)[(x, y)] == image_of(
                    self.drawing()@,
                    self.drawing().width(),
                    self.drawing().height(),
                )[(x, y)],
    {
        self.canvas.export()
    }

    pub fn window_size(&self) -> (r: Vec2)
        ensures
            r.x == self.frame().width(),
            r.y == self.frame().height(),
    {
        self.buffer.size()
    }

    pub fn canvas(&self) -> (r: &Canvas)
        ensures
            *r == self.drawing(),
    {
        &self.canvas
    }

    pub fn buffer(&self) -> (r: &PixelBuffer)
        ensures
            *r == self.frame(),
    {
        &self.buffer
    }

    pub fn brush(&self) -> (r: Color)
        ensures
            r == self.brush_color(),
    {
        self.brush
    }

    pub fn is_dirty(&self) -> (r: bool)
        ensures
            r == self.pending(),
    {
        self.dirty
    }
}

} // verus!
