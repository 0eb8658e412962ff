use vstd::prelude::*;
use crate::color::{color_of, native_of, Color, NativePixel};
use crate::error::AdapterError;
use crate::geometry::{full_region, in_bounds, point_in_bounds, region_contains, region_within, Region};
use crate::shadow::{cell, lemma_fill_solid_cells, solid_fill};

verus! {

/// A device command that paints one pixel over a rectangle of the screen.
#[derive(Clone, Copy, Debug, PartialEq, Eq)]
pub struct VideoFill {
    pub pixel: NativePixel,
    /// Top-left cell of the rectangle.
    pub dest: (usize, usize),
    /// Width and height of the rectangle.
    pub dims: (usize, usize),
}

/// A device command that copies a buffer of pixels, row by row, onto a
/// rectangle of the screen.
#[derive(Debug, PartialEq, Eq)]
pub struct BufferTransfer {
    pub buffer: Vec<NativePixel>,
    /// Top-left cell of the rectangle.
    pub dest: (usize, usize),
    /// Width and height of the rectangle.
    pub dims: (usize, usize),
}

/// The fill command that paints region `r` with pixel `p`.
pub open spec fn fill_of(r: Region, p: NativePixel) -> VideoFill {
    VideoFill { pixel: p, dest: (r.x as usize, r.y as usize), dims: (r.width as usize, r.height as usize) }
}

/// Screen `frame`, `w` cells wide, after the device carries out fill `f`.
pub open spec fn painted(frame: Seq<NativePixel>, w: int, f: VideoFill) -> Seq<NativePixel> {
    Seq::new(
        frame.len(),
        |k: int|
            if f.dest.0 <= k % w < f.dest.0 + f.dims.0 && f.dest.1 <= k / w < f.dest.1 + f.dims.1 {
                f.pixel
            } else {
                frame[k]
            },
    )
}

/// On a region that lies on the screen, the fill command of the direct
/// adapter leaves the screen as the shadow adapter's solid fill leaves its
/// frame.
pub proof fn lemma_fill_command_matches_frame_fill(
    frame: Seq<NativePixel>,
    w: int,
    h: int,
    r: Region,
    p: NativePixel,
)
    requires
        region_within(r, w, h),
    ensures
        painted(frame, w, fill_of(r, p)) == solid_fill(frame, w, r, p),
{
    assert(painted(frame, w, fill_of(r, p)) =~= solid_fill(frame, w, r, p));
}

/// Carrying out the command that draws a colour on a cell of the screen, and
/// reading that cell back, gives the same colour; every other cell is left
/// as it was.
pub proof fn lemma_direct_draw_then_read(frame: Seq<NativePixel>, w: int, h: int, x: i32, y: i32, c: Color)
    requires
        frame.len() == w * h,
        in_bounds(x as int, y as int, w, h),
    ensures
        color_of(cell(painted(frame, w, fill_of(Region { x, y, width: 1, height: 1 }, native_of(c))), w, x as int, y as int)) == c,
        forall|cx: int, cy: int|
            in_bounds(cx, cy, w, h) && (cx != x || cy != y) ==> #[trigger] cell(
                painted(frame, w, fill_of(Region { x, y, width: 1, height: 1 }, native_of(c))),
                w,
                cx,
                cy,
            ) == cell(frame, w, cx, cy),
{
    let r = Region { x, y, width: 1, height: 1 };
    lemma_fill_command_matches_frame_fill(frame, w, h, r, native_of(c));
    lemma_fill_solid_cells(frame, w, h, r, native_of(c));
    assert(region_contains(r, x as int, y as int));
}

/// A surface with no memory of its own: each operation becomes one device
/// command that touches exactly the cells of that operation.
#[derive(Clone, Copy, Debug)]
pub struct DirectAdapter {
    width: u32,
    height: u32,
}

impl DirectAdapter {
    pub closed spec fn surface_width(&self) -> int {
        self.width as int
    }

    pub closed spec fn surface_height(&self) -> int {
        self.height as int
    }

    /// An adapter for a screen of `width` by `height` cells.
    pub fn new(width: u32, height: u32) -> (d: DirectAdapter)
        ensures
            d.surface_width() == width,
            d.surface_height() == height,
    {
        DirectAdapter { width, height }
    }

    /// Width and height of the surface.
    pub fn size(&self) -> (r: (u32, u32))
        ensures
            r.0 == self.surface_width(),
            r.1 == self.surface_height(),
    {
        (self.width, self.height)
    }

    /// The whole surface as a region.
    pub fn bounds(&self) -> (r: Region)
        ensures
            r == full_region(self.surface_width() as u32, self.surface_height() as u32),
    {
        Region { x: 0, y: 0, width: self.width, height: self.height }
    }

    /// The command that sets cell `(x, y)` to colour `c`: a fill of that one
    /// cell. Fails with `OutOfBounds` where the cell is off the surface.
    pub fn draw_pixel(&self, x: i32, y: i32, c: Color) -> (r: Result<VideoFill, AdapterError>)
        ensures
            r is Ok <==> in_bounds(x as int, y as int, self.surface_width(), self.surface_height()),
            r is Err ==> r == Err::<VideoFill, AdapterError>(AdapterError::OutOfBounds),
            r is Ok ==> r == Ok::<VideoFill, AdapterError>(
                fill_of(Region { x, y, width: 1, height: 1 }, native_of(c)),
            ),
    {
        if !point_in_bounds(x, y, self.width, self.height) {
            return Err(AdapterError::OutOfBounds);
        }
        Ok(VideoFill { pixel: c.to_native(), dest: (x as usize, y as usize), dims: (1, 1) })
    }

    /// The command that paints every cell of `area` with colour `c`. Fails
    /// with `OutOfBounds` where `area` is not wholly on the surface.
    pub fn fill_solid(&self, area: Region, c: Color) -> (r: Result<VideoFill, AdapterError>)
        ensures
            r is Ok <==> region_within(area, self.surface_width(), self.surface_height()),
            r is Err ==> r == Err::<VideoFill, AdapterError>(AdapterError::OutOfBounds),
            r is Ok ==> r == Ok::<VideoFill, AdapterError>(fill_of(area, native_of(c))),
    {
        if !area.is_within(self.width, self.height) {
            return Err(AdapterError::OutOfBounds);
        }
        Ok(
            VideoFill {
                pixel: c.to_native(),
                dest: (area.x as usize, area.y as usize),
                dims: (area.width as usize, area.height as usize),
            },
        )
    }

    /// The command that copies `colors`, row by row, onto `area`. Fails with
    /// `OutOfBounds` where `area` is not wholly on the surface, and otherwise
    /// with `InputMismatch` where `colors` does not hold exactly one colour
    /// per cell of `area`.
    pub fn fill_contiguous(&self, area: Region, colors: &[Color]) -> (r: Result<
        BufferTransfer,
        AdapterError,
    >)
        ensures
            r is Ok <==> region_within(area, self.surface_width(), self.surface_height())
                && colors@.len() == area.width * area.height,
            !region_within(area, self.surface_width(), self.surface_height()) ==> r
                == Err::<BufferTransfer, AdapterError>(AdapterError::OutOfBounds),
            region_within(area, self.surface_width(), self.surface_height()) && colors@.len()
                != area.width * area.height ==> r == Err::<BufferTransfer, AdapterError>(
                AdapterError::InputMismatch,
            ),
            r matches Ok(t) ==> t.buffer@ == colors@.map_values(|c: Color| native_of(c))
                && t.dest == (area.x as usize, area.y as usize)
                && t.dims == (area.width as usize, area.height as usize),
    {
        if !area.is_within(self.width, self.height) {
            return Err(AdapterError::OutOfBounds);
        }
        let n: usize = colors.len();
        proof {
            let aw = area.width as int;
            let ah = area.height as int;
            assert(aw * ah <= 0xffff_ffff * 0xffff_ffff) by (nonlinear_arith)
                requires
                    0 <= aw <= 0xffff_ffff,
                    0 <= ah <= 0xffff_ffff,
            ;
        }
        if n as u64 != (area.width as u64) * (area.height as u64) {
            return Err(AdapterError::InputMismatch);
        }
        let mut buffer: Vec<NativePixel> = Vec::with_capacity(n);
        let mut i: usize = 0;
        while i < n
            invariant
                n == colors@.len(),
                i <= n,
                buffer@ == colors@.take(i as int).map_values(|c: Color| native_of(c)),
            decreases n - i,
        {
            buffer.push(colors[i].to_native());
            i += 1;
            assert(buffer@ =~= colors@.take(i as int).map_values(|c: Color| native_of(c)));
        }
        assert(colors@.take(n as int) =~= colors@);
        Ok(
            BufferTransfer {
                buffer,
                dest: (area.x as usize, area.y as usize),
                dims: (area.width as usize, area.height as usize),
            },
        )
    }

    /// The command that paints the whole surface with colour `c`: the solid
    /// fill of the surface's bounds.
    pub fn clear(&self, c: Color) -> (f: VideoFill)
        ensures
            f == fill_of(full_region(self.surface_width() as u32, self.surface_height() as u32), native_of(c)),
    {
        let full = self.bounds();
        self.fill_solid(full, c).unwrap()
    }
}

} // verus!
