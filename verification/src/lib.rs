//! Decoder for PNG still images: chunk stream parsing, scanline
//! reconstruction and color resolution into an RGBA pixel grid.

pub mod ancillary;
pub mod chunk;
pub mod color;
pub mod error;
pub mod filter;
pub mod frame;
pub mod header;
pub mod inflate;
pub mod reader;
pub mod scanline;
