//! The color model: pixels, the channel count of each color type, and the
//! mapping from the raw channel bytes of one pixel to its RGBA value.

use vstd::prelude::*;
use crate::error::DecodeError;

verus! {

/// One RGBA pixel, eight bits per channel.
#[derive(Clone, Copy, Debug, PartialEq, Eq, Structural)]
pub struct Pixel {
    pub r: u8,
    pub g: u8,
    pub b: u8,
    pub a: u8,
}

impl Pixel {
    /// The pixel with all four channels zero.
    pub open spec fn zero() -> Pixel {
        Pixel { r: 0, g: 0, b: 0, a: 0 }
    }
}

impl Default for Pixel {
    fn default() -> (p: Pixel)
        ensures
            p == Pixel::zero(),
    {
        Pixel { r: 0, g: 0, b: 0, a: 0 }
    }
}

/// Color type code of a grayscale image.
pub const GRAYSCALE: u8 = 0;

/// Color type code of a truecolor (red, green, blue) image.
pub const TRUECOLOR: u8 = 2;

/// Color type code of a palette-indexed image.
pub const INDEXED: u8 = 3;

/// Color type code of a grayscale image with an alpha channel.
pub const GRAYSCALE_ALPHA: u8 = 4;

/// Color type code of a truecolor image with an alpha channel.
pub const TRUECOLOR_ALPHA: u8 = 6;

/// Number of channel bytes that one pixel of the given color type occupies
/// in a scanline; `None` for a code that names no color type.
pub open spec fn channels_spec(color_type: u8) -> Option<nat> {
    if color_type == GRAYSCALE {
        Some(1nat)
    } else if color_type == TRUECOLOR {
        Some(3nat)
    } else if color_type == INDEXED {
        Some(1nat)
    } else if color_type == GRAYSCALE_ALPHA {
        Some(2nat)
    } else if color_type == TRUECOLOR_ALPHA {
        Some(4nat)
    } else {
        None
    }
}

/// Whether pixels of this color type can be resolved to RGBA: every known
/// color type but the indexed one.
pub open spec fn resolvable(color_type: u8) -> bool {
    color_type == GRAYSCALE || color_type == TRUECOLOR || color_type == GRAYSCALE_ALPHA
        || color_type == TRUECOLOR_ALPHA
}

/// The RGBA pixel that the channel bytes `c` of one pixel stand for.
/// Grayscale spreads its one sample over red, green and blue; where the
/// color type has no alpha channel the pixel is fully opaque.
pub open spec fn resolve_spec(color_type: u8, c: Seq<u8>) -> Pixel {
    if color_type == GRAYSCALE {
        Pixel { r: c[0], g: c[0], b: c[0], a: 255 }
    } else if color_type == GRAYSCALE_ALPHA {
        Pixel { r: c[0], g: c[0], b: c[0], a: c[1] }
    } else if color_type == TRUECOLOR {
        Pixel { r: c[0], g: c[1], b: c[2], a: 255 }
    } else {
        Pixel { r: c[0], g: c[1], b: c[2], a: c[3] }
    }
}

/// The `k`-th channel byte from which a pixel of the given color type was
/// resolved.
pub open spec fn channel_spec(p: Pixel, color_type: u8, k: nat) -> u8 {
    if color_type == GRAYSCALE || color_type == GRAYSCALE_ALPHA {
        if k == 0 {
            p.r
        } else {
            p.a
        }
    } else {
        if k == 0 {
            p.r
        } else if k == 1 {
            p.g
        } else if k == 2 {
            p.b
        } else {
            p.a
        }
    }
}

/// Looks up the number of channel bytes per pixel of a color type.
pub fn channels_per_pixel(color_type: u8) -> (n: Option<usize>)
    ensures
        match n {
            Some(k) => channels_spec(color_type) == Some(k as nat),
            None => channels_spec(color_type).is_none(),
        },
{
    if color_type == GRAYSCALE {
        Some(1)
    } else if color_type == TRUECOLOR {
        Some(3)
    } else if color_type == INDEXED {
        Some(1)
    } else if color_type == GRAYSCALE_ALPHA {
        Some(2)
    } else if color_type == TRUECOLOR_ALPHA {
        Some(4)
    } else {
        None
    }
}

/// Resolves the channel bytes of one pixel to RGBA. Fails with
/// `UnsupportedColorType` for the indexed color type and for a code that
/// names no color type.
pub fn resolve_pixel(color_type: u8, channels: &[u8]) -> (r: Result<Pixel, DecodeError>)
    requires
        resolvable(color_type) ==> channels_spec(color_type) == Some(channels@.len()),
    ensures
        resolvable(color_type) ==> r == Ok::<Pixel, DecodeError>(
            resolve_spec(color_type, channels@),
        ),
        !resolvable(color_type) ==> r == Err::<Pixel, DecodeError>(
            DecodeError::UnsupportedColorType,
        ),
{
    if color_type == GRAYSCALE {
        let g: u8 = channels[0];
        Ok(Pixel { r: g, g: g, b: g, a: 255 })
    } else if color_type == GRAYSCALE_ALPHA {
        let g: u8 = channels[0];
        Ok(Pixel { r: g, g: g, b: g, a: channels[1] })
    } else if color_type == TRUECOLOR {
        Ok(Pixel { r: channels[0], g: channels[1], b: channels[2], a: 255 })
    } else if color_type == TRUECOLOR_ALPHA {
        Ok(Pixel { r: channels[0], g: channels[1], b: channels[2], a: channels[3] })
    } else {
        Err(DecodeError::UnsupportedColorType)
    }
}

/// Reads back the `k`-th channel byte of a resolved pixel.
pub fn raw_channel(p: Pixel, color_type: u8, k: usize) -> (v: u8)
    ensures
        v == channel_spec(p, color_type, k as nat),
{
    if color_type == GRAYSCALE || color_type == GRAYSCALE_ALPHA {
        if k == 0 {
            p.r
        } else {
            p.a
        }
    } else if k == 0 {
        p.r
    } else if k == 1 {
        p.g
    } else if k == 2 {
        p.b
    } else {
        p.a
    }
}

/// Resolving channel bytes and reading them back gives the same bytes.
pub proof fn lemma_channel_of_resolved(color_type: u8, c: Seq<u8>, k: nat)
    requires
        resolvable(color_type),
        channels_spec(color_type) == Some(c.len()),
        k < c.len(),
    ensures
        channel_spec(resolve_spec(color_type, c), color_type, k) == c[k as int],
{
}

} // verus!
