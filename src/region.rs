//! The pixel window of a raster that a bounding box covers, and the pixels
//! visited when processing it.
use vstd::prelude::*;

verus! {

/// `v` held within `[0, hi]`.
pub open spec fn clamp_to(v: int, hi: int) -> int {
    if v < 0 {
        0
    } else if v > hi {
        hi
    } else {
        v
    }
}

/// The part of the pixel range `[pixel_min, pixel_max)` on an axis of `size`
/// pixels that lies in the raster, as its first pixel and its length. The
/// first pixel is `pixel_min` held at 0 from below; the range ends at
/// `pixel_max` held within `[0, size]`; a range that ends before it starts is
/// empty.
pub fn pixel_window(pixel_min: i32, pixel_max: i32, size: u32) -> (r: (u32, u32))
    ensures
        r.0 as int == (if pixel_min < 0 {
            0
        } else {
            pixel_min as int
        }),
        r.1 as int == (if clamp_to(pixel_max as int, size as int) > r.0 as int {
            clamp_to(pixel_max as int, size as int) - r.0 as int
        } else {
            0
        }),
{
    let start: u32 = if pixel_min < 0 {
        0
    } else {
        pixel_min as u32
    };
    let end: u32 = if pixel_max < 0 {
        0
    } else if pixel_max as u32 > size {
        size
    } else {
        pixel_max as u32
    };
    let len: u32 = if end > start {
        end - start
    } else {
        0
    };
    (start, len)
}

/// The pixels `(x, y)` with `x0 <= x < x1` and `y0 <= y < y1`, row by row.
pub open spec fn spec_region_pixels(x0: int, x1: int, y0: int, y1: int) -> Seq<(u32, u32)>
    decreases y1 - y0,
{
    if y1 <= y0 {
        Seq::empty()
    } else {
        spec_region_pixels(x0, x1, y0, y1 - 1) + spec_row(x0, x1, y1 - 1)
    }
}

/// The pixels `(x, y)` with `x0 <= x < x1`, left to right.
pub open spec fn spec_row(x0: int, x1: int, y: int) -> Seq<(u32, u32)> {
    Seq::new(if x1 > x0 { (x1 - x0) as nat } else { 0 }, |i: int| ((x0 + i) as u32, y as u32))
}

/// The end of a range of `len` pixels from `start`, cut at `limit`.
pub open spec fn range_end(start: int, len: int, limit: int) -> int {
    if start + len < limit {
        start + len
    } else {
        limit
    }
}

/// The pixels of the window of `width` by `height` pixels from
/// `(x_start, y_start)`, cut at the raster's `raster_width` and
/// `raster_height`, row by row.
pub fn region_pixels(
    x_start: u32,
    y_start: u32,
    width: u32,
    height: u32,
    raster_width: u32,
    raster_height: u32,
) -> (r: Vec<(u32, u32)>)
    ensures
        r@ == spec_region_pixels(
            x_start as int,
            range_end(x_start as int, width as int, raster_width as int),
            y_start as int,
            range_end(y_start as int, height as int, raster_height as int),
        ),
{
    let x_end: u32 = if (x_start as u64) + (width as u64) < raster_width as u64 {
        x_start + width
    } else {
        raster_width
    };
    let y_end: u32 = if (y_start as u64) + (height as u64) < raster_height as u64 {
        y_start + height
    } else {
        raster_height
    };
    let mut out: Vec<(u32, u32)> = Vec::new();
    let mut y: u32 = y_start;
    if y_end <= y_start {
        return out;
    }
    while y < y_end
        invariant
            y_start <= y <= y_end,
            out@ == spec_region_pixels(x_start as int, x_end as int, y_start as int, y as int),
        decreases y_end - y,
    {
        let ghost base = out@;
        let mut x: u32 = x_start;
        if x < x_end {
            while x < x_end
                invariant
                    x_start <= x <= x_end,
                    y < y_end,
                    out@ == base + spec_row(x_start as int, x as int, y as int),
                decreases x_end - x,
            {
                out.push((x, y));
                assert(spec_row(x_start as int, x as int + 1, y as int) =~= spec_row(
                    x_start as int,
                    x as int,
                    y as int,
                ).push((x, y)));
                x = x + 1;
            }
        } else {
            assert(spec_row(x_start as int, x_end as int, y as int) =~= Seq::<(u32, u32)>::empty());
            assert(out@ =~= base + spec_row(x_start as int, x_end as int, y as int));
        }
        assert(out@ == spec_region_pixels(x_start as int, x_end as int, y_start as int, y as int + 1));
        y = y + 1;
    }
    out
}

} // verus!
