use vstd::prelude::*;
use crate::color::Color;

verus! {

/// A rectangle of cells: its top-left corner and its size.
#[derive(Clone, Copy, Debug, PartialEq, Eq, Structural)]
pub struct Region {
    pub x: i32,
    pub y: i32,
    pub width: u32,
    pub height: u32,
}

/// One coloured cell to draw.
#[derive(Clone, Copy, Debug, PartialEq, Eq, Structural)]
pub struct Pixel {
    pub x: i32,
    pub y: i32,
    pub color: Color,
}

/// Cell `(x, y)` lies on a surface of `w` by `h` cells.
pub open spec fn in_bounds(x: int, y: int, w: int, h: int) -> bool {
    0 <= x < w && 0 <= y < h
}

/// Region `r` lies wholly on a surface of `w` by `h` cells.
pub open spec fn region_within(r: Region, w: int, h: int) -> bool {
    0 <= r.x && 0 <= r.y && r.x + r.width <= w && r.y + r.height <= h
}

/// Cell `(x, y)` belongs to region `r`.
pub open spec fn region_contains(r: Region, x: int, y: int) -> bool {
    r.x <= x < r.x + r.width && r.y <= y < r.y + r.height
}

/// The whole of a surface of `w` by `h` cells, as a region.
pub open spec fn full_region(w: u32, h: u32) -> Region {
    Region { x: 0, y: 0, width: w, height: h }
}

/// Row-major position of cell `(x, y)` in a frame `w` cells wide.
pub open spec fn index_of(x: int, y: int, w: int) -> int {
    y * w + x
}

impl Region {
    pub fn new(x: i32, y: i32, width: u32, height: u32) -> (r: Region)
        ensures
            r == (Region { x, y, width, height }),
    {
        Region { x, y, width, height }
    }

    /// Whether the region lies wholly on a surface of `w` by `h` cells.
    pub fn is_within(&self, w: u32, h: u32) -> (b: bool)
        ensures
            b == region_within(*self, w as int, h as int),
    {
        self.x >= 0 && self.y >= 0 && (self.x as u64) + (self.width as u64) <= w as u64
            && (self.y as u64) + (self.height as u64) <= h as u64
    }
}

/// Whether cell `(x, y)` lies on a surface of `w` by `h` cells.
pub fn point_in_bounds(x: i32, y: i32, w: u32, h: u32) -> (b: bool)
    ensures
        b == in_bounds(x as int, y as int, w as int, h as int),
{
    x >= 0 && y >= 0 && (x as u64) < (w as u64) && (y as u64) < (h as u64)
}

/// A cell on the surface has its row-major position inside the frame.
pub proof fn lemma_index_in_frame(x: int, y: int, w: int, h: int)
    requires
        in_bounds(x, y, w, h),
    ensures
        0 <= index_of(x, y, w) < w * h,
{
    assert(0 <= y * w + x < w * h) by (nonlinear_arith)
        requires
            0 <= x < w,
            0 <= y < h,
    ;
}

} // verus!
