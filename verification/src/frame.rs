//! The frame handed to a presentation layer: the pixel grid as one run of
//! bytes, row after row, four bytes (red, green, blue, alpha) per pixel.

use vstd::prelude::*;
use crate::color::Pixel;
use crate::scanline::{grid_view, has_extent};

verus! {

/// Offset in the frame of the first byte of the pixel in row `h`, column
/// `w`, for an image `width` pixels wide.
pub open spec fn frame_offset(width: nat, h: int, w: int) -> int {
    h * width * 4 + w * 4
}

/// Whether `frame` holds at `frame_offset(width, h, w)` the four channel
/// bytes of `p`.
pub open spec fn holds_pixel(frame: Seq<u8>, width: nat, h: int, w: int, p: Pixel) -> bool {
    let at = frame_offset(width, h, w);
    &&& 0 <= at
    &&& at + 4 <= frame.len()
    &&& frame[at] == p.r
    &&& frame[at + 1] == p.g
    &&& frame[at + 2] == p.b
    &&& frame[at + 3] == p.a
}

/// The pixel at `(i, j)` lies wholly before the pixel at `(h, w)` in the
/// frame when `(i, j)` comes before `(h, w)` in row-major order.
proof fn lemma_offset_order(width: nat, i: int, j: int, h: int, w: int)
    requires
        0 <= i,
        0 <= j < width,
        0 <= w <= width,
        i < h || (i == h && j < w),
    ensures
        0 <= frame_offset(width, i, j),
        frame_offset(width, i, j) + 4 <= frame_offset(width, h, w),
{
    let wd = width as int;
    assert(0 <= i * wd) by (nonlinear_arith)
        requires
            0 <= i,
            0 <= wd,
    ;
    if i < h {
        assert((i + 1) * wd <= h * wd) by (nonlinear_arith)
            requires
                i + 1 <= h,
                0 <= wd,
        ;
        assert((i + 1) * wd == i * wd + wd) by (nonlinear_arith);
    }
}

/// Lays the grid out as a frame.
pub fn frame_bytes(width: u32, height: u32, pixels: &Vec<Vec<Pixel>>) -> (frame: Vec<u8>)
    requires
        has_extent(grid_view(pixels@), width as nat, height as nat),
    ensures
        frame@.len() == height * width * 4,
        forall|h: int, w: int|
            0 <= h < height && 0 <= w < width ==> holds_pixel(
                frame@,
                width as nat,
                h,
                w,
                #[trigger] pixels@[h]@[w],
            ),
{
    let ghost wd: nat = width as nat;
    let rows: usize = pixels.len();
    assert forall|i: int| 0 <= i < height implies (#[trigger] pixels@[i])@.len() == width by {
        assert(grid_view(pixels@)[i].len() == width);
    }
    let mut frame: Vec<u8> = Vec::new();
    let mut h: usize = 0;
    while h < rows
        invariant
            h <= rows,
            rows == height,
            wd == width,
            pixels@.len() == height,
            forall|i: int| 0 <= i < height ==> (#[trigger] pixels@[i])@.len() == width,
            frame@.len() == frame_offset(wd, h as int, 0),
            forall|i: int, j: int|
                0 <= i < h && 0 <= j < width ==> holds_pixel(
                    frame@,
                    wd,
                    i,
                    j,
                    #[trigger] pixels@[i]@[j],
                ),
        decreases rows - h,
    {
        let row: &Vec<Pixel> = &pixels[h];
        let columns: usize = row.len();
        let mut w: usize = 0;
        while w < columns
            invariant
                h < rows,
                w <= columns,
                rows == height,
                columns == width,
                wd == width,
                row@ == pixels@[h as int]@,
                pixels@.len() == height,
            forall|i: int| 0 <= i < height ==> (#[trigger] pixels@[i])@.len() == width,
                frame@.len() == frame_offset(wd, h as int, w as int),
                forall|i: int, j: int|
                    (0 <= i < h && 0 <= j < width) || (i == h && 0 <= j < w) ==> holds_pixel(
                        frame@,
                        wd,
                        i,
                        j,
                        #[trigger] pixels@[i]@[j],
                    ),
            decreases columns - w,
        {
            let p: Pixel = row[w];
            let ghost before = frame@;
            frame.push(p.r);
            frame.push(p.g);
            frame.push(p.b);
            frame.push(p.a);
            proof {
                assert forall|i: int, j: int|
                    (0 <= i < h && 0 <= j < width) || (i == h && 0 <= j < w + 1) implies holds_pixel(
                    frame@,
                    wd,
                    i,
                    j,
                    #[trigger] pixels@[i]@[j],
                ) by {
                    if i == h && j == w {
                        assert(0 <= h * wd) by (nonlinear_arith)
                            requires
                                0 <= h,
                                0 <= wd,
                        ;
                    } else {
                        lemma_offset_order(wd, i, j, h as int, w as int);
                        assert(holds_pixel(before, wd, i, j, pixels@[i]@[j]));
                    }
                }
            }
            w = w + 1;
        }
        proof {
            assert((h + 1) * wd * 4 == h * wd * 4 + wd * 4) by (nonlinear_arith);
        }
        h = h + 1;
    }
    frame
}

} // verus!
