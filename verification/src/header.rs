//! The image header: the thirteen bytes of the header chunk and the images
//! that this decoder takes on.

use vstd::prelude::*;
use crate::chunk::{be_u32, read_be_u32};
use crate::color::{channels_per_pixel, channels_spec};
use crate::error::DecodeError;
use crate::reader::PngReader;

verus! {

/// Number of bytes of a header chunk's payload.
pub const HEADER_LEN: usize = 13;

/// The only bit depth that is decoded: eight bits per channel.
pub const BIT_DEPTH: u8 = 8;

/// What the header chunk says of the image.
#[derive(Clone, Copy, Debug, PartialEq, Eq, Structural)]
pub struct ImageHeader {
    pub width: u32,
    pub height: u32,
    pub bit_depth: u8,
    pub color_type: u8,
    pub compression_method: u8,
    pub filter_method: u8,
    pub interlace_method: u8,
}

/// The header fields as they stand in a payload of at least thirteen bytes:
/// width and height as big-endian numbers, then one byte for each of the
/// other fields.
pub open spec fn header_fields(payload: Seq<u8>) -> ImageHeader {
    ImageHeader {
        width: be_u32(payload, 0) as u32,
        height: be_u32(payload, 4) as u32,
        bit_depth: payload[8],
        color_type: payload[9],
        compression_method: payload[10],
        filter_method: payload[11],
        interlace_method: payload[12],
    }
}

/// Whether an image with this header is decoded: it has at least one row
/// and one column, eight bits per channel, one of the five color types, and
/// its rows are not interlaced.
pub open spec fn supported_header(header: ImageHeader) -> bool {
    &&& header.width > 0
    &&& header.height > 0
    &&& header.bit_depth == BIT_DEPTH
    &&& channels_spec(header.color_type) is Some
    &&& header.interlace_method == 0
}

/// The header that a header chunk's payload holds, or `InvalidHeader` if
/// the payload is shorter than thirteen bytes or the image is not one that
/// is decoded.
pub open spec fn header_spec(payload: Seq<u8>) -> Result<ImageHeader, DecodeError> {
    if payload.len() >= HEADER_LEN && supported_header(header_fields(payload)) {
        Ok(header_fields(payload))
    } else {
        Err(DecodeError::InvalidHeader)
    }
}

impl PngReader {
    /// Parses the payload of a header chunk.
    pub fn read_chunk_ihdr(data: &[u8]) -> (r: Result<ImageHeader, DecodeError>)
        ensures
            r == header_spec(data@),
    {
        if data.len() < HEADER_LEN {
            return Err(DecodeError::InvalidHeader);
        }
        let header = ImageHeader {
            width: read_be_u32(data, 0),
            height: read_be_u32(data, 4),
            bit_depth: data[8],
            color_type: data[9],
            compression_method: data[10],
            filter_method: data[11],
            interlace_method: data[12],
        };
        if header.width == 0 || header.height == 0 || header.bit_depth != BIT_DEPTH
            || header.interlace_method != 0 {
            return Err(DecodeError::InvalidHeader);
        }
        match channels_per_pixel(header.color_type) {
            Some(_) => Ok(header),
            None => Err(DecodeError::InvalidHeader),
        }
    }
}

} // verus!
