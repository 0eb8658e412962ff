use vstd::prelude::*;
use vstd::arithmetic::div_mod::{lemma_fundamental_div_mod, lemma_fundamental_div_mod_converse};
use crate::color::{color_of, native_of, Color, NativePixel};
use crate::error::AdapterError;
use crate::geometry::{
    full_region, in_bounds, index_of, lemma_index_in_frame, point_in_bounds, region_contains, region_within,
    Pixel, Region,
};

verus! {

/// Cell `(x, y)` of a row-major frame `w` cells wide.
pub open spec fn cell(frame: Seq<NativePixel>, w: int, x: int, y: int) -> NativePixel {
    frame[index_of(x, y, w)]
}

/// Frame `frame`, `w` cells wide, with every cell of region `r` set to `p`.
pub open spec fn solid_fill(frame: Seq<NativePixel>, w: int, r: Region, p: NativePixel) -> Seq<
    NativePixel,
> {
    Seq::new(
        frame.len(),
        |k: int|
            if region_contains(r, k % w, k / w) {
                p
            } else {
                frame[k]
            },
    )
}

/// Frame `frame`, `w` cells wide, with the cells of region `r` taking the
/// colours of `colors` in row-major order.
pub open spec fn contiguous_fill(frame: Seq<NativePixel>, w: int, r: Region, colors: Seq<Color>) -> Seq<
    NativePixel,
> {
    Seq::new(
        frame.len(),
        |k: int|
            if region_contains(r, k % w, k / w) {
                native_of(colors[(k / w - r.y) * r.width + (k % w - r.x)])
            } else {
                frame[k]
            },
    )
}

/// Frame `frame`, `w` cells wide, after drawing `pixels` one after another.
pub open spec fn drawn(frame: Seq<NativePixel>, w: int, pixels: Seq<Pixel>) -> Seq<
    NativePixel,
>
    decreases pixels.len(),
{
    if pixels.len() == 0 {
        frame
    } else {
        let last = pixels.last();
        drawn(frame, w, pixels.drop_last()).update(
            index_of(last.x as int, last.y as int, w),
            native_of(last.color),
        )
    }
}

/// Cell `(x, y)` of region `r` has been reached by a row-by-row sweep that
/// stands at row `row`, column `col` of the region.
spec fn swept(r: Region, row: int, col: int, x: int, y: int) -> bool {
    region_contains(r, x, y) && (y - r.y < row || (y - r.y == row && x - r.x < col))
}

/// A position inside a frame of `w` by `h` cells names the cell
/// `(k % w, k / w)`.
pub proof fn lemma_cell_of_index(k: int, w: int, h: int)
    requires
        0 <= k < w * h,
        w > 0,
    ensures
        in_bounds(k % w, k / w, w, h),
        index_of(k % w, k / w, w) == k,
{
    lemma_fundamental_div_mod(k, w);
    let q = k / w;
    let m = k % w;
    assert(q < h) by (nonlinear_arith)
        requires
            k == w * q + m,
            0 <= m,
            k < w * h,
            w > 0,
    ;
    assert(q >= 0) by (nonlinear_arith)
        requires
            k == w * q + m,
            m < w,
            k >= 0,
            w > 0,
    ;
    assert(q * w == w * q) by (nonlinear_arith);
}

/// The cell at row-major position `index_of(x, y, w)` is `(x, y)`.
pub proof fn lemma_index_of_cell(x: int, y: int, w: int)
    requires
        0 <= x < w,
        0 <= y,
    ensures
        index_of(x, y, w) % w == x,
        index_of(x, y, w) / w == y,
{
    assert(y * w == w * y) by (nonlinear_arith);
    lemma_fundamental_div_mod_converse(index_of(x, y, w), w, y, x);
}

/// Drawing a colour on a cell of the surface and reading that cell back
/// gives the same colour: the device pixel keeps each channel in its place.
pub proof fn lemma_draw_then_read(frame: Seq<NativePixel>, w: int, h: int, x: int, y: int, c: Color)
    requires
        frame.len() == w * h,
        in_bounds(x, y, w, h),
    ensures
        color_of(cell(frame.update(index_of(x, y, w), native_of(c)), w, x, y)) == c,
{
    lemma_index_in_frame(x, y, w, h);
}

/// A solid fill of a region gives every cell of the region the fill's pixel
/// and leaves every other cell of the surface as it was.
pub proof fn lemma_fill_solid_cells(frame: Seq<NativePixel>, w: int, h: int, r: Region, p: NativePixel)
    requires
        frame.len() == w * h,
    ensures
        forall|x: int, y: int|
            in_bounds(x, y, w, h) ==> #[trigger] cell(solid_fill(frame, w, r, p), w, x, y) == if region_contains(r, x, y) {
                p
            } else {
                cell(frame, w, x, y)
            },
{
    assert forall|x: int, y: int| in_bounds(x, y, w, h) implies #[trigger] cell(solid_fill(frame, w, r, p), w, x, y) == if region_contains(r, x, y) {
        p
    } else {
        cell(frame, w, x, y)
    } by {
        lemma_index_in_frame(x, y, w, h);
        lemma_index_of_cell(x, y, w);
    }
}

/// A contiguous fill of a region that lies on the surface, with one colour
/// per cell, puts colour `i` on the cell `i % width` columns right of and
/// `i / width` rows below the region's top-left cell, and leaves every cell
/// outside the region as it was.
pub proof fn lemma_fill_contiguous_cells(
    frame: Seq<NativePixel>,
    w: int,
    h: int,
    r: Region,
    colors: Seq<Color>,
)
    requires
        frame.len() == w * h,
        region_within(r, w, h),
        colors.len() == r.width * r.height,
    ensures
        forall|i: int|
            0 <= i < colors.len() ==> cell(
                contiguous_fill(frame, w, r, colors),
                w,
                r.x + i % (r.width as int),
                r.y + i / (r.width as int),
            ) == native_of(#[trigger] colors[i]),
        forall|x: int, y: int|
            in_bounds(x, y, w, h) && !region_contains(r, x, y) ==> #[trigger] cell(
                contiguous_fill(frame, w, r, colors),
                w,
                x,
                y,
            ) == cell(frame, w, x, y),
{
    let aw = r.width as int;
    let ah = r.height as int;
    assert forall|i: int| 0 <= i < colors.len() implies cell(
        contiguous_fill(frame, w, r, colors),
        w,
        r.x + i % aw,
        r.y + i / aw,
    ) == native_of(#[trigger] colors[i]) by {
        assert(aw > 0) by (nonlinear_arith)
            requires
                0 <= i < aw * ah,
                aw >= 0,
        ;
        lemma_cell_of_index(i, aw, ah);
        let x = r.x + i % aw;
        let y = r.y + i / aw;
        lemma_index_in_frame(x, y, w, h);
        lemma_index_of_cell(x, y, w);
    }
    assert forall|x: int, y: int| in_bounds(x, y, w, h) && !region_contains(r, x, y) implies #[trigger] cell(
        contiguous_fill(frame, w, r, colors),
        w,
        x,
        y,
    ) == cell(frame, w, x, y) by {
        lemma_index_in_frame(x, y, w, h);
        lemma_index_of_cell(x, y, w);
    }
}

/// Clearing the surface to a pixel gives the same frame as a solid fill of
/// the surface's whole bounds with that pixel.
pub proof fn lemma_clear_is_full_fill(frame: Seq<NativePixel>, w: u32, h: u32, p: NativePixel)
    requires
        frame.len() == w * h,
    ensures
        Seq::new(frame.len(), |k: int| p) == solid_fill(frame, w as int, full_region(w, h), p),
{
    assert forall|k: int| 0 <= k < frame.len() implies #[trigger] solid_fill(frame, w as int, full_region(w, h), p)[k] == p by {
        lemma_cell_of_index(k, w as int, h as int);
    }
    assert(Seq::new(frame.len(), |k: int| p) =~= solid_fill(frame, w as int, full_region(w, h), p));
}

/// A surface whose cells live in memory; drawing changes only that memory,
/// and the whole frame goes to the device in one transfer.
pub struct ShadowAdapter {
    buffer: Vec<NativePixel>,
    width: u32,
    height: u32,
}

/// A transfer of a whole frame from memory to the device.
pub struct FrameTransfer<'a> {
    /// The pixels, row by row.
    pub buffer: &'a [NativePixel],
    /// Where the frame's top-left cell goes on the device.
    pub dest: (usize, usize),
    /// Width and height of the frame.
    pub dims: (usize, usize),
}

/// Transfer `t` shows the whole frame of `s` at the device's top-left
/// corner.
pub open spec fn transfers_frame(t: FrameTransfer<'_>, s: ShadowAdapter) -> bool {
    &&& t.buffer@ == s.frame()
    &&& t.dest == (0usize, 0usize)
    &&& t.dims.0 == s.surface_width()
    &&& t.dims.1 == s.surface_height()
}

/// Two flushes of one frame, with no drawing between them, hand the device
/// identical transfers.
pub proof fn lemma_flush_repeats(s: ShadowAdapter, t1: FrameTransfer<'_>, t2: FrameTransfer<'_>)
    requires
        transfers_frame(t1, s),
        transfers_frame(t2, s),
    ensures
        t1.buffer@ == t2.buffer@,
        t1.dest == t2.dest,
        t1.dims == t2.dims,
{
}

impl ShadowAdapter {
    /// The frame's cells in row-major order.
    pub closed spec fn frame(&self) -> Seq<NativePixel> {
        self.buffer@
    }

    pub closed spec fn surface_width(&self) -> int {
        self.width as int
    }

    pub closed spec fn surface_height(&self) -> int {
        self.height as int
    }

    /// The frame holds one pixel per cell and its size fits in memory.
    pub closed spec fn wf(&self) -> bool {
        &&& self.buffer@.len() == self.width * self.height
        &&& self.width * self.height <= usize::MAX
    }

    /// A black surface of `width` by `height` cells.
    pub fn new(width: u32, height: u32) -> (s: ShadowAdapter)
        requires
            width * height <= usize::MAX,
        ensures
            s.wf(),
            s.surface_width() == width,
            s.surface_height() == height,
            s.frame() == Seq::new((width * height) as nat, |k: int| native_of(Color { r: 0, g: 0, b: 0 })),
    {
        let len: usize = (width as usize) * (height as usize);
        let black = NativePixel::new(0, 0, 0);
        let mut buffer: Vec<NativePixel> = Vec::with_capacity(len);
        let mut i: usize = 0;
        while i < len
            invariant
                i <= len,
                buffer@ == Seq::new(i as nat, |k: int| black),
            decreases len - i,
        {
            buffer.push(black);
            i += 1;
            assert(buffer@ =~= Seq::new(i as nat, |k: int| black));
        }
        assert(buffer@ =~= Seq::new((width * height) as nat, |k: int| native_of(Color { r: 0, g: 0, b: 0 })));
        ShadowAdapter { buffer, width, height }
    }

    /// Width and height of the surface.
    pub fn size(&self) -> (r: (u32, u32))
        ensures
            r.0 == self.surface_width(),
            r.1 == self.surface_height(),
    {
        (self.width, self.height)
    }

    /// Sets every cell of `area` to colour `c` and leaves the others as they
    /// were. Fails with `OutOfBounds`, changing nothing, where `area` is not
    /// wholly on the surface.
    pub fn fill_solid(&mut self, area: Region, c: Color) -> (r: Result<(), AdapterError>)
        requires
            old(self).wf(),
        ensures
            final(self).wf(),
            final(self).surface_width() == old(self).surface_width(),
            final(self).surface_height() == old(self).surface_height(),
            r is Ok <==> region_within(area, old(self).surface_width(), old(self).surface_height()),
            r is Err ==> r == Err::<(), AdapterError>(AdapterError::OutOfBounds) && final(self).frame()
                == old(self).frame(),
            r is Ok ==> final(self).frame() == solid_fill(
                old(self).frame(),
                old(self).surface_width(),
                area,
                native_of(c),
            ),
    {
        if !area.is_within(self.width, self.height) {
            return Err(AdapterError::OutOfBounds);
        }
        let px = c.to_native();
        let ghost before = self.buffer@;
        let ghost w = self.width as int;
        let ghost h = self.height as int;
        let mut row: u32 = 0;
        while row < area.height
            invariant
                self.wf(),
                self.width == w,
                self.height == h,
                region_within(area, w, h),
                row <= area.height,
                self.buffer@.len() == before.len(),
                forall|k: int|
                    0 <= k < before.len() ==> #[trigger] self.buffer@[k] == if swept(
                        area,
                        row as int,
                        0,
                        k % w,
                        k / w,
                    ) {
                        px
                    } else {
                        before[k]
                    },
            decreases area.height - row,
        {
            let mut col: u32 = 0;
            while col < area.width
                invariant
                    self.wf(),
                    self.width == w,
                    self.height == h,
                    region_within(area, w, h),
                    row < area.height,
                    col <= area.width,
                    self.buffer@.len() == before.len(),
                    forall|k: int|
                        0 <= k < before.len() ==> #[trigger] self.buffer@[k] == if swept(
                            area,
                            row as int,
                            col as int,
                            k % w,
                            k / w,
                        ) {
                            px
                        } else {
                            before[k]
                        },
                decreases area.width - col,
            {
                let cx: usize = area.x as usize + col as usize;
                let cy: usize = area.y as usize + row as usize;
                proof {
                    lemma_index_in_frame(cx as int, cy as int, w, h);
                    lemma_index_of_cell(cx as int, cy as int, w);
                }
                let idx: usize = cy * (self.width as usize) + cx;
                self.buffer.set(idx, px);
                proof {
                    assert forall|k: int| 0 <= k < before.len() implies #[trigger] self.buffer@[k]
                        == if swept(area, row as int, col + 1, k % w, k / w) {
                        px
                    } else {
                        before[k]
                    } by {
                        if k != idx {
                            lemma_cell_of_index(k, w, h);
                            if k % w == cx && k / w == cy {
                                assert(k == idx);
                            }
                        }
                    }
                }
                col += 1;
            }
            row += 1;
        }
        assert(self.buffer@ =~= solid_fill(before, w, area, px));
        Ok(())
    }

    /// Gives the cells of `area`, row by row, the colours of `colors` in
    /// order, and leaves the other cells as they were. Fails, changing
    /// nothing, with `OutOfBounds` where `area` is not wholly on the surface,
    /// and otherwise with `InputMismatch` where `colors` does not hold exactly
    /// one colour per cell of `area`.
    pub fn fill_contiguous(&mut self, area: Region, colors: &[Color]) -> (r: Result<(), AdapterError>)
        requires
            old(self).wf(),
        ensures
            final(self).wf(),
            final(self).surface_width() == old(self).surface_width(),
            final(self).surface_height() == old(self).surface_height(),
            r is Ok <==> region_within(area, old(self).surface_width(), old(self).surface_height())
                && colors@.len() == area.width * area.height,
            !region_within(area, old(self).surface_width(), old(self).surface_height()) ==> r
                == Err::<(), AdapterError>(AdapterError::OutOfBounds),
            region_within(area, old(self).surface_width(), old(self).surface_height())
                && colors@.len() != area.width * area.height ==> r == Err::<(), AdapterError>(
                AdapterError::InputMismatch,
            ),
            r is Err ==> final(self).frame() == old(self).frame(),
            r is Ok ==> final(self).frame() == contiguous_fill(
                old(self).frame(),
                old(self).surface_width(),
                area,
                colors@,
            ),
    {
        if !area.is_within(self.width, self.height) {
            return Err(AdapterError::OutOfBounds);
        }
        proof {
            let aw = area.width as int;
            let ah = area.height as int;
            assert(aw * ah <= 0xffff_ffff * 0xffff_ffff) by (nonlinear_arith)
                requires
                    0 <= aw <= 0xffff_ffff,
                    0 <= ah <= 0xffff_ffff,
            ;
        }
        let n: usize = colors.len();
        if n as u64 != (area.width as u64) * (area.height as u64) {
            return Err(AdapterError::InputMismatch);
        }
        let ghost before = self.buffer@;
        let ghost w = self.width as int;
        let ghost h = self.height as int;
        let mut row: u32 = 0;
        while row < area.height
            invariant
                self.wf(),
                self.width == w,
                self.height == h,
                region_within(area, w, h),
                colors@.len() == area.width * area.height,
                n == colors@.len(),
                row <= area.height,
                self.buffer@.len() == before.len(),
                forall|k: int|
                    0 <= k < before.len() ==> #[trigger] self.buffer@[k] == if swept(
                        area,
                        row as int,
                        0,
                        k % w,
                        k / w,
                    ) {
                        native_of(colors@[(k / w - area.y) * area.width + (k % w - area.x)])
                    } else {
                        before[k]
                    },
            decreases area.height - row,
        {
            let mut col: u32 = 0;
            while col < area.width
                invariant
                    self.wf(),
                    self.width == w,
                    self.height == h,
                    region_within(area, w, h),
                    colors@.len() == area.width * area.height,
                    n == colors@.len(),
                    row < area.height,
                    col <= area.width,
                    self.buffer@.len() == before.len(),
                    forall|k: int|
                        0 <= k < before.len() ==> #[trigger] self.buffer@[k] == if swept(
                            area,
                            row as int,
                            col as int,
                            k % w,
                            k / w,
                        ) {
                            native_of(colors@[(k / w - area.y) * area.width + (k % w - area.x)])
                        } else {
                            before[k]
                        },
                decreases area.width - col,
            {
                let cx: usize = area.x as usize + col as usize;
                let cy: usize = area.y as usize + row as usize;
                proof {
                    lemma_index_in_frame(cx as int, cy as int, w, h);
                    lemma_index_of_cell(cx as int, cy as int, w);
                    lemma_index_in_frame(col as int, row as int, area.width as int, area.height as int);
                }
                let src: usize = (row as usize) * (area.width as usize) + (col as usize);
                let idx: usize = cy * (self.width as usize) + cx;
                self.buffer.set(idx, colors[src].to_native());
                proof {
                    assert forall|k: int| 0 <= k < before.len() implies #[trigger] self.buffer@[k]
                        == if swept(area, row as int, col + 1, k % w, k / w) {
                        native_of(colors@[(k / w - area.y) * area.width + (k % w - area.x)])
                    } else {
                        before[k]
                    } by {
                        if k != idx {
                            lemma_cell_of_index(k, w, h);
                            if k % w == cx && k / w == cy {
                                assert(k == idx);
                            }
                        }
                    }
                }
                col += 1;
            }
            row += 1;
        }
        assert(self.buffer@ =~= contiguous_fill(before, w, area, colors@));
        Ok(())
    }

    /// Sets cell `(x, y)` to colour `c`. Fails with `OutOfBounds`, changing
    /// nothing, where the cell is off the surface.
    pub fn draw_pixel(&mut self, x: i32, y: i32, c: Color) -> (r: Result<(), AdapterError>)
        requires
            old(self).wf(),
        ensures
            final(self).wf(),
            final(self).surface_width() == old(self).surface_width(),
            final(self).surface_height() == old(self).surface_height(),
            r is Ok <==> in_bounds(
                x as int,
                y as int,
                old(self).surface_width(),
                old(self).surface_height(),
            ),
            r is Err ==> r == Err::<(), AdapterError>(AdapterError::OutOfBounds) && final(self).frame()
                == old(self).frame(),
            r is Ok ==> final(self).frame() == old(self).frame().update(
                index_of(x as int, y as int, old(self).surface_width()),
                native_of(c),
            ),
    {
        if !point_in_bounds(x, y, self.width, self.height) {
            return Err(AdapterError::OutOfBounds);
        }
        proof {
            lemma_index_in_frame(x as int, y as int, self.width as int, self.height as int);
        }
        let idx: usize = (y as usize) * (self.width as usize) + (x as usize);
        self.buffer.set(idx, c.to_native());
        Ok(())
    }

    /// Draws `pixels` one after another, a later one winning over an earlier
    /// one on the same cell. Fails with `OutOfBounds`, changing nothing, where
    /// any of them is off the surface.
    pub fn draw_iter(&mut self, pixels: &[Pixel]) -> (r: Result<(), AdapterError>)
        requires
            old(self).wf(),
        ensures
            final(self).wf(),
            final(self).surface_width() == old(self).surface_width(),
            final(self).surface_height() == old(self).surface_height(),
            r is Ok <==> forall|i: int|
                0 <= i < pixels@.len() ==> in_bounds(
                    #[trigger] pixels@[i].x as int,
                    pixels@[i].y as int,
                    old(self).surface_width(),
                    old(self).surface_height(),
                ),
            r is Err ==> r == Err::<(), AdapterError>(AdapterError::OutOfBounds) && final(self).frame()
                == old(self).frame(),
            r is Ok ==> final(self).frame() == drawn(
                old(self).frame(),
                old(self).surface_width(),
                pixels@,
            ),
    {
        let n: usize = pixels.len();
        let mut i: usize = 0;
        while i < n
            invariant
                n == pixels@.len(),
                i <= n,
                *self == *old(self),
                self.wf(),
                forall|j: int|
                    0 <= j < i ==> in_bounds(
                        #[trigger] pixels@[j].x as int,
                        pixels@[j].y as int,
                        self.width as int,
                        self.height as int,
                    ),
            decreases n - i,
        {
            if !point_in_bounds(pixels[i].x, pixels[i].y, self.width, self.height) {
                return Err(AdapterError::OutOfBounds);
            }
            i += 1;
        }
        let ghost before = self.buffer@;
        let ghost w = self.width as int;
        let mut i: usize = 0;
        while i < n
            invariant
                n == pixels@.len(),
                i <= n,
                self.wf(),
                self.width == w,
                self.width == old(self).width,
                self.height == old(self).height,
                forall|j: int|
                    0 <= j < n ==> in_bounds(
                        #[trigger] pixels@[j].x as int,
                        pixels@[j].y as int,
                        self.width as int,
                        self.height as int,
                    ),
                self.buffer@ == drawn(before, w, pixels@.take(i as int)),
            decreases n - i,
        {
            let p = pixels[i];
            proof {
                assert(in_bounds(pixels@[i as int].x as int, pixels@[i as int].y as int, w, self.height as int));
                lemma_index_in_frame(p.x as int, p.y as int, w, self.height as int);
                assert(pixels@.take(i + 1).drop_last() =~= pixels@.take(i as int));
            }
            let idx: usize = (p.y as usize) * (self.width as usize) + (p.x as usize);
            self.buffer.set(idx, p.color.to_native());
            i += 1;
        }
        assert(pixels@.take(n as int) =~= pixels@);
        Ok(())
    }

    /// Sets every cell of the surface to colour `c`.
    pub fn clear(&mut self, c: Color)
        requires
            old(self).wf(),
        ensures
            final(self).wf(),
            final(self).surface_width() == old(self).surface_width(),
            final(self).surface_height() == old(self).surface_height(),
            final(self).frame() == Seq::new(old(self).frame().len(), |k: int| native_of(c)),
    {
        let px = c.to_native();
        let n: usize = self.buffer.len();
        let ghost before = self.buffer@;
        let mut i: usize = 0;
        while i < n
            invariant
                self.wf(),
                self.width == old(self).width,
                self.height == old(self).height,
                n == before.len(),
                self.buffer@.len() == n,
                i <= n,
                forall|k: int| 0 <= k < i ==> #[trigger] self.buffer@[k] == px,
            decreases n - i,
        {
            self.buffer.set(i, px);
            i += 1;
        }
        assert(self.buffer@ =~= Seq::new(before.len(), |k: int| native_of(c)));
    }

    /// The transfer that shows the frame on the device: all of it, row by
    /// row, at the device's top-left corner. It reads the frame and does not
    /// change it, so two flushes with no drawing between them hand the device
    /// the same transfer.
    pub fn flush(&self) -> (t: FrameTransfer<'_>)
        requires
            self.wf(),
        ensures
            transfers_frame(t, *self),
    {
        FrameTransfer {
            buffer: self.buffer.as_slice(),
            dest: (0, 0),
            dims: (self.width as usize, self.height as usize),
        }
    }

    /// The whole surface as a region.
    pub fn bounds(&self) -> (r: Region)
        ensures
            r == full_region(self.surface_width() as u32, self.surface_height() as u32),
    {
        Region { x: 0, y: 0, width: self.width, height: self.height }
    }

    /// The colour of cell `(x, y)`, or `None` where the cell is off the
    /// surface.
    pub fn pixel(&self, x: i32, y: i32) -> (r: Option<Color>)
        requires
            self.wf(),
        ensures
            r is Some <==> in_bounds(x as int, y as int, self.surface_width(), self.surface_height()),
            r is Some ==> r == Some(
                color_of(cell(self.frame(), self.surface_width(), x as int, y as int)),
            ),
    {
        if !point_in_bounds(x, y, self.width, self.height) {
            return None;
        }
        proof {
            lemma_index_in_frame(x as int, y as int, self.width as int, self.height as int);
        }
        let idx: usize = (y as usize) * (self.width as usize) + (x as usize);
        Some(self.buffer[idx].to_color())
    }
}

} // verus!
