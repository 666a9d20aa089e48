//! The scanline reconstructor: from the inflated image data, one filter
//! byte and `width` pixels worth of channel bytes per row, to the grid of
//! RGBA pixels.

use vstd::prelude::*;
use crate::color::{
    channel_spec, channels_per_pixel, channels_spec, lemma_channel_of_resolved, raw_channel,
    resolvable, resolve_pixel, resolve_spec, Pixel,
};
use crate::error::DecodeError;
use crate::filter::{remove_filter, remove_filter_spec, valid_filter};

verus! {

/// Number of bytes that one row occupies in the image data: the filter byte
/// and the channel bytes of `width` pixels.
pub open spec fn row_stride(width: nat, channels: nat) -> nat {
    width * channels + 1
}

/// The filter code of row `h`.
pub open spec fn row_filter(data: Seq<u8>, width: nat, channels: nat, h: int) -> u8 {
    data[h * row_stride(width, channels)]
}

/// The filtered byte of channel `k` of the pixel in row `h`, column `w`.
pub open spec fn filtered_byte(
    data: Seq<u8>,
    width: nat,
    channels: nat,
    h: int,
    w: int,
    k: int,
) -> u8 {
    data[h * row_stride(width, channels) + 1 + w * channels + k]
}

/// The reconstructed byte of channel `k` of the pixel in row `h`, column
/// `w`: the filter of row `h` removed from the filtered byte, with the same
/// channel of the pixels to the left, above and above left as neighbors.
pub open spec fn reconstructed(
    data: Seq<u8>,
    width: nat,
    channels: nat,
    h: nat,
    w: nat,
    k: nat,
) -> u8
    decreases h, w, 1nat,
{
    remove_filter_spec(
        row_filter(data, width, channels, h as int),
        filtered_byte(data, width, channels, h as int, w as int, k as int),
        left_neighbor(data, width, channels, h, w, k),
        upper_neighbor(data, width, channels, h, w, k),
        upper_left_neighbor(data, width, channels, h, w, k),
    )
}

/// The left neighbor of a byte: the same channel of the pixel one column to
/// the left, or zero in column 0.
pub open spec fn left_neighbor(
    data: Seq<u8>,
    width: nat,
    channels: nat,
    h: nat,
    w: nat,
    k: nat,
) -> u8
    decreases h, w, 0nat,
{
    if w == 0 {
        0
    } else {
        reconstructed(data, width, channels, h, (w - 1) as nat, k)
    }
}

/// The upper neighbor of a byte: the same channel of the pixel one row up,
/// or zero in row 0.
pub open spec fn upper_neighbor(
    data: Seq<u8>,
    width: nat,
    channels: nat,
    h: nat,
    w: nat,
    k: nat,
) -> u8
    decreases h, w, 0nat,
{
    if h == 0 {
        0
    } else {
        reconstructed(data, width, channels, (h - 1) as nat, w, k)
    }
}

/// The upper-left neighbor of a byte: the same channel of the pixel one row
/// up and one column to the left, or zero in row 0 and in column 0.
pub open spec fn upper_left_neighbor(
    data: Seq<u8>,
    width: nat,
    channels: nat,
    h: nat,
    w: nat,
    k: nat,
) -> u8
    decreases h, w, 0nat,
{
    if w == 0 || h == 0 {
        0
    } else {
        reconstructed(data, width, channels, (h - 1) as nat, (w - 1) as nat, k)
    }
}

/// A neighbor that would lie outside the image is zero: the left one in
/// column 0, the upper one in row 0, the upper-left one in both. So the
/// first byte of each channel is reconstructed from zeros alone.
pub proof fn lemma_boundary_neighbors(
    data: Seq<u8>,
    width: nat,
    channels: nat,
    h: nat,
    w: nat,
    k: nat,
)
    ensures
        w == 0 ==> left_neighbor(data, width, channels, h, w, k) == 0,
        h == 0 ==> upper_neighbor(data, width, channels, h, w, k) == 0,
        (w == 0 || h == 0) ==> upper_left_neighbor(data, width, channels, h, w, k) == 0,
        reconstructed(data, width, channels, 0, 0, k) == remove_filter_spec(
            row_filter(data, width, channels, 0),
            filtered_byte(data, width, channels, 0, 0, k as int),
            0,
            0,
            0,
        ),
{
}

/// In a row with filter code zero the bytes stand as they are.
pub proof fn lemma_unfiltered_row(
    data: Seq<u8>,
    width: nat,
    channels: nat,
    h: nat,
    w: nat,
    k: nat,
)
    requires
        row_filter(data, width, channels, h as int) == crate::filter::FILTER_NONE,
    ensures
        reconstructed(data, width, channels, h, w, k) == filtered_byte(
            data,
            width,
            channels,
            h as int,
            w as int,
            k as int,
        ),
{
}

/// The reconstructed channel bytes of the pixel in row `h`, column `w`.
pub open spec fn pixel_channels(data: Seq<u8>, width: nat, channels: nat, h: int, w: int) -> Seq<
    u8,
> {
    Seq::new(channels, |k: int| reconstructed(data, width, channels, h as nat, w as nat, k as nat))
}

/// The pixel in row `h`, column `w` of the image that `data` encodes.
pub open spec fn pixel_at(data: Seq<u8>, width: nat, color_type: u8, h: int, w: int) -> Pixel {
    resolve_spec(
        color_type,
        pixel_channels(data, width, channels_spec(color_type).unwrap(), h, w),
    )
}

/// The rows of a pixel grid as sequences.
pub open spec fn grid_view(grid: Seq<Vec<Pixel>>) -> Seq<Seq<Pixel>> {
    Seq::new(grid.len(), |i: int| grid[i]@)
}

/// Whether a grid has `height` rows of `width` pixels each.
pub open spec fn has_extent(rows: Seq<Seq<Pixel>>, width: nat, height: nat) -> bool {
    &&& rows.len() == height
    &&& forall|i: int| 0 <= i < height ==> (#[trigger] rows[i]).len() == width
}

/// The image that `data` encodes for the given dimensions and color type,
/// or the reason why there is none:
/// `UnsupportedColorType` unless the color type can be resolved to RGBA;
/// else `DecompressionFailed` if `data` is shorter than `height` rows;
/// else `InvalidFilterType` if one of the rows has a filter code above four.
pub open spec fn reconstruct_spec(width: u32, height: u32, color_type: u8, data: Seq<u8>) -> Result<
    Seq<Seq<Pixel>>,
    DecodeError,
> {
    if !resolvable(color_type) {
        Err(DecodeError::UnsupportedColorType)
    } else {
        let channels = channels_spec(color_type).unwrap();
        if data.len() < height * row_stride(width as nat, channels) {
            Err(DecodeError::DecompressionFailed)
        } else if exists|h: int|
            0 <= h < height && !valid_filter(#[trigger] row_filter(data, width as nat, channels, h)) {
            Err(DecodeError::InvalidFilterType)
        } else {
            Ok(
                Seq::new(
                    height as nat,
                    |h: int|
                        Seq::new(
                            width as nat,
                            |w: int| pixel_at(data, width as nat, color_type, h, w),
                        ),
                ),
            )
        }
    }
}

/// Offsets of the bytes of one row stay inside the rows before `height`.
proof fn lemma_offset_in_rows(
    width: nat,
    channels: nat,
    height: nat,
    h: int,
    w: int,
    k: int,
)
    requires
        0 <= h < height,
        0 <= w <= width,
        0 <= k <= channels,
        w < width || k == 0,
    ensures
        0 <= h * row_stride(width, channels),
        0 <= w * channels,
        w * channels + k <= width * channels,
        (w < width && k < channels) ==> w * channels + k < width * channels,
        h * row_stride(width, channels) + row_stride(width, channels) <= height * row_stride(
            width,
            channels,
        ),
        (w + 1) * channels == w * channels + channels,
        (h + 1) * row_stride(width, channels) == h * row_stride(width, channels) + row_stride(
            width,
            channels,
        ),
{
    let s = row_stride(width, channels) as int;
    let c = channels as int;
    let wd = width as int;
    let ht = height as int;
    assert(0 <= h * s) by (nonlinear_arith)
        requires
            0 <= h,
            0 <= s,
    ;
    assert(0 <= w * c) by (nonlinear_arith)
        requires
            0 <= w,
            0 <= c,
    ;
    assert((w + 1) * c == w * c + c) by (nonlinear_arith);
    assert((h + 1) * s == h * s + s) by (nonlinear_arith);
    assert((h + 1) * s <= ht * s) by (nonlinear_arith)
        requires
            h + 1 <= ht,
            0 <= s,
    ;
    if w < wd {
        assert((w + 1) * c <= wd * c) by (nonlinear_arith)
            requires
                w + 1 <= wd,
                0 <= c,
        ;
    } else {
        assert(w * c == wd * c);
    }
}

/// Reconstructs the pixel grid from inflated image data. Bytes of `data`
/// beyond the last row are ignored.
pub fn reconstruct(width: u32, height: u32, color_type: u8, data: &[u8]) -> (r: Result<
    Vec<Vec<Pixel>>,
    DecodeError,
>)
    ensures
        match reconstruct_spec(width, height, color_type, data@) {
            Ok(image) => r matches Ok(grid) && grid_view(grid@) == image,
            Err(e) => r == Err::<Vec<Vec<Pixel>>, DecodeError>(e),
        },
        r matches Ok(grid) ==> has_extent(grid_view(grid@), width as nat, height as nat),
{
    let channels: usize = match channels_per_pixel(color_type) {
        Some(n) => n,
        None => {
            return Err(DecodeError::UnsupportedColorType);
        },
    };
    if color_type == crate::color::INDEXED {
        return Err(DecodeError::UnsupportedColorType);
    }
    let ghost wd: nat = width as nat;
    let ghost ch: nat = channels as nat;
    let ghost stride: nat = row_stride(wd, ch);
    assert(width * channels <= 0xffff_ffff * 4) by (nonlinear_arith)
        requires
            width <= 0xffff_ffff,
            channels <= 4,
    ;
    let row_len: u128 = width as u128 * channels as u128 + 1;
    assert(height * row_len <= 0xffff_ffff * 0x4_0000_0000) by (nonlinear_arith)
        requires
            height <= 0xffff_ffff,
            row_len <= 0x4_0000_0000,
    ;
    let needed: u128 = height as u128 * row_len;
    if (data.len() as u128) < needed {
        return Err(DecodeError::DecompressionFailed);
    }
    let columns: usize = width as usize;
    let rows: usize = height as usize;
    let mut grid: Vec<Vec<Pixel>> = Vec::new();
    let mut raw: Vec<u8> = Vec::new();
    let mut idx: usize = 0;
    let mut h: usize = 0;
    while h < rows
        invariant
            h <= rows,
            rows == height,
            columns == width,
            wd == width,
            ch == channels,
            stride == row_stride(wd, ch),
            resolvable(color_type),
            channels_spec(color_type) == Some(ch),
            data@.len() >= height * stride,
            idx == h * stride,
            grid@.len() == h,
            forall|i: int| 0 <= i < h ==> valid_filter(#[trigger] row_filter(data@, wd, ch, i)),
            forall|i: int| 0 <= i < h ==> (#[trigger] grid@[i])@.len() == width,
            forall|i: int, j: int|
                0 <= i < h && 0 <= j < width ==> #[trigger] grid@[i]@[j] == pixel_at(
                    data@,
                    wd,
                    color_type,
                    i,
                    j,
                ),
        decreases rows - h,
    {
        proof {
            lemma_offset_in_rows(wd, ch, height as nat, h as int, 0, 0);
        }
        let filter_type: u8 = data[idx];
        assert(filter_type == row_filter(data@, wd, ch, h as int));
        if filter_type > crate::filter::FILTER_PAETH {
            return Err(DecodeError::InvalidFilterType);
        }
        idx = idx + 1;
        let mut row: Vec<Pixel> = Vec::new();
        let mut w: usize = 0;
        while w < columns
            invariant
                h < rows,
                w <= columns,
                rows == height,
                columns == width,
                wd == width,
                ch == channels,
                stride == row_stride(wd, ch),
                resolvable(color_type),
                channels_spec(color_type) == Some(ch),
                data@.len() >= height * stride,
                idx == h * stride + 1 + w * ch,
                grid@.len() == h,
                filter_type == row_filter(data@, wd, ch, h as int),
                valid_filter(filter_type),
                forall|i: int| 0 <= i < h ==> (#[trigger] grid@[i])@.len() == width,
                forall|i: int, j: int|
                    0 <= i < h && 0 <= j < width ==> #[trigger] grid@[i]@[j] == pixel_at(
                        data@,
                        wd,
                        color_type,
                        i,
                        j,
                    ),
                row@.len() == w,
                forall|j: int|
                    0 <= j < w ==> #[trigger] row@[j] == pixel_at(data@, wd, color_type, h as int, j),
            decreases columns - w,
        {
            let left: Pixel = if w == 0 {
                Pixel::default()
            } else {
                row[w - 1]
            };
            let up: Pixel = if h == 0 {
                Pixel::default()
            } else {
                grid[h - 1][w]
            };
            let diagonal: Pixel = if w == 0 || h == 0 {
                Pixel::default()
            } else {
                grid[h - 1][w - 1]
            };
            raw.clear();
            let mut k: usize = 0;
            while k < channels
                invariant
                    h < rows,
                    w < columns,
                    k <= channels,
                    rows == height,
                    columns == width,
                    wd == width,
                    ch == channels,
                    stride == row_stride(wd, ch),
                    resolvable(color_type),
                    channels_spec(color_type) == Some(ch),
                    data@.len() >= height * stride,
                    idx == h * stride + 1 + w * ch + k,
                    filter_type == row_filter(data@, wd, ch, h as int),
                    valid_filter(filter_type),
                    left == if w == 0 {
                        Pixel::zero()
                    } else {
                        pixel_at(data@, wd, color_type, h as int, w - 1)
                    },
                    up == if h == 0 {
                        Pixel::zero()
                    } else {
                        pixel_at(data@, wd, color_type, h - 1, w as int)
                    },
                    diagonal == if w == 0 || h == 0 {
                        Pixel::zero()
                    } else {
                        pixel_at(data@, wd, color_type, h - 1, w - 1)
                    },
                    raw@.len() == k,
                    forall|m: int|
                        0 <= m < k ==> #[trigger] raw@[m] == reconstructed(
                            data@,
                            wd,
                            ch,
                            h as nat,
                            w as nat,
                            m as nat,
                        ),
                decreases channels - k,
            {
                proof {
                    lemma_offset_in_rows(wd, ch, height as nat, h as int, w as int, k as int);
                    lemma_neighbor_channel(data@, wd, color_type, h as int, w as int, k as nat);
                }
                let a: u8 = raw_channel(left, color_type, k);
                let b: u8 = raw_channel(up, color_type, k);
                let c: u8 = raw_channel(diagonal, color_type, k);
                let x: u8 = data[idx];
                assert(x == filtered_byte(data@, wd, ch, h as int, w as int, k as int));
                // No error comes from here: the filter code of the row is valid.
                let v: u8 = match remove_filter(filter_type, x, a, b, c) {
                    Ok(v) => v,
                    Err(e) => {
                        return Err(e);
                    },
                };
                assert(v == reconstructed(data@, wd, ch, h as nat, w as nat, k as nat));
                raw.push(v);
                idx = idx + 1;
                k = k + 1;
            }
            assert(raw@ =~= pixel_channels(data@, wd, ch, h as int, w as int));
            // Nor from here: the color type is one that resolves.
            let pixel: Pixel = match resolve_pixel(color_type, raw.as_slice()) {
                Ok(p) => p,
                Err(e) => {
                    return Err(e);
                },
            };
            row.push(pixel);
            proof {
                lemma_offset_in_rows(wd, ch, height as nat, h as int, w as int, ch as int);
            }
            w = w + 1;
        }
        proof {
            lemma_offset_in_rows(wd, ch, height as nat, h as int, wd as int, 0);
        }
        grid.push(row);
        h = h + 1;
    }
    proof {
        let image = Seq::new(
            height as nat,
            |h: int|
                Seq::new(width as nat, |w: int| pixel_at(data@, width as nat, color_type, h, w)),
        );
        assert forall|i: int| 0 <= i < height implies #[trigger] grid_view(grid@)[i] == image[i] by {
            assert(grid@[i]@ =~= image[i]);
        }
        assert(grid_view(grid@) =~= image);
    }
    Ok(grid)
}

/// The neighbors that the reconstruction of a byte reads are the same
/// channel of the neighboring pixels, and zero where there is no such
/// pixel.
proof fn lemma_neighbor_channel(
    data: Seq<u8>,
    width: nat,
    color_type: u8,
    h: int,
    w: int,
    k: nat,
)
    requires
        resolvable(color_type),
        0 <= h,
        0 <= w,
        k < channels_spec(color_type).unwrap(),
    ensures
        channel_spec(Pixel::zero(), color_type, k) == 0,
        w > 0 ==> channel_spec(pixel_at(data, width, color_type, h, w - 1), color_type, k)
            == reconstructed(
            data,
            width,
            channels_spec(color_type).unwrap(),
            h as nat,
            (w - 1) as nat,
            k,
        ),
        h > 0 ==> channel_spec(pixel_at(data, width, color_type, h - 1, w), color_type, k)
            == reconstructed(
            data,
            width,
            channels_spec(color_type).unwrap(),
            (h - 1) as nat,
            w as nat,
            k,
        ),
        (h > 0 && w > 0) ==> channel_spec(
            pixel_at(data, width, color_type, h - 1, w - 1),
            color_type,
            k,
        ) == reconstructed(
            data,
            width,
            channels_spec(color_type).unwrap(),
            (h - 1) as nat,
            (w - 1) as nat,
            k,
        ),
{
    let ch = channels_spec(color_type).unwrap();
    if w > 0 {
        lemma_channel_of_resolved(color_type, pixel_channels(data, width, ch, h, w - 1), k);
    }
    if h > 0 {
        lemma_channel_of_resolved(color_type, pixel_channels(data, width, ch, h - 1, w), k);
    }
    if h > 0 && w > 0 {
        lemma_channel_of_resolved(color_type, pixel_channels(data, width, ch, h - 1, w - 1), k);
    }
}

} // verus!
