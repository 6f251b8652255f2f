use vstd::prelude::*;

verus! {

/// A pair of non-negative integers: a position or an extent, in pixels or in cells.
#[derive(Clone, Copy, Debug, PartialEq, Eq, Structural)]
pub struct Vec2 {
    pub x: usize,
    pub y: usize,
}

impl Vec2 {
    pub fn new(x: usize, y: usize) -> (r: Vec2)
        ensures
            r.x == x,
            r.y == y,
    {
        Vec2 { x, y }
    }
}

/// The cell under display pixel `(px, py)` when each cell is drawn `mag.x` by
/// `mag.y` pixels: floor division on each axis.
pub open spec fn cell_at(px: int, py: int, mag: Vec2) -> (int, int) {
    (px / (mag.x as int), py / (mag.y as int))
}

/// Maps a pointer position in display pixels to canvas cell coordinates.
/// No clamping happens here: the caller decides whether the cell is on the canvas.
pub fn map_pointer(pointer: Vec2, magnification: Vec2) -> (r: Vec2)
    requires
        magnification.x > 0,
        magnification.y > 0,
    ensures
        (r.x as int, r.y as int) == cell_at(pointer.x as int, pointer.y as int, magnification),
{
    Vec2 { x: pointer.x / magnification.x, y: pointer.y / magnification.y }
}

/// A pixel lies in the block of cell `c` exactly when the mapping sends it to `c`.
pub proof fn lemma_cell_block(p: int, c: int, m: int)
    requires
        m > 0,
        p >= 0,
        c >= 0,
    ensures
        (c * m <= p < c * m + m) <==> p / m == c,
{
    if c * m <= p < c * m + m {
        assert(p / m == c) by (nonlinear_arith)
            requires
                m > 0,
                c * m <= p < c * m + m,
        {}
    }
    if p / m == c {
        assert(c * m <= p < c * m + m) by (nonlinear_arith)
            requires
                m > 0,
                p >= 0,
                p / m == c,
        {}
    }
}

/// Pointer mapping depends on the pointer and the magnification alone, and the
/// top-left pixel of the block of cell `(x, y)` maps back to `(x, y)`.
pub proof fn lemma_map_inverts_scaling(x: int, y: int, mag: Vec2)
    requires
        mag.x > 0,
        mag.y > 0,
        x >= 0,
        y >= 0,
    ensures
        cell_at(mag.x * x, mag.y * y, mag) == (x, y),
{
    assert((mag.x as int) * x / (mag.x as int) == x) by (nonlinear_arith)
        requires
            mag.x > 0,
    {}
    assert((mag.y as int) * y / (mag.y as int) == y) by (nonlinear_arith)
        requires
            mag.y > 0,
    {}
}


/// A pixel inside `n` blocks of `m` pixels lies in one of those blocks.
pub proof fn lemma_cell_in_range(p: int, m: int, n: int)
    requires
        m > 0,
        0 <= p < m * n,
    ensures
        0 <= p / m < n,
{
    assert(0 <= p / m < n) by (nonlinear_arith)
        requires
            m > 0,
            0 <= p < m * n,
    {}
}

/// The block of cell `c`, the last one at most being `n - 1`, ends within `n` blocks.
pub proof fn lemma_block_end(c: int, m: int, n: int)
    requires
        m > 0,
        0 <= c < n,
    ensures
        c * m + m <= m * n,
        0 <= c * m,
{
    assert(c * m + m <= m * n && 0 <= c * m) by (nonlinear_arith)
        requires
            m > 0,
            0 <= c < n,
    {}
}

} // verus!
