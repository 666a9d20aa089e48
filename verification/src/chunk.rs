//! The chunk stream: the fixed signature, and after it chunks of a four
//! byte big-endian length, a four byte type tag, the payload and four check
//! bytes, which are skipped without being checked.

use vstd::prelude::*;
use vstd::slice::{slice_subrange, slice_to_vec};
use crate::error::DecodeError;

verus! {

/// The eight bytes with which every image starts.
pub const SIGNATURE: [u8; 8] = [0x89, 0x50, 0x4E, 0x47, 0x0D, 0x0A, 0x1A, 0x0A];

/// Type tag of the image header chunk, `IHDR`.
pub const TAG_HEADER: [u8; 4] = [73, 72, 68, 82];

/// Type tag of an image data chunk, `IDAT`.
pub const TAG_DATA: [u8; 4] = [73, 68, 65, 84];

/// Type tag of a text chunk, `tEXt`.
pub const TAG_TEXT: [u8; 4] = [116, 69, 88, 116];

/// Type tag of the timestamp chunk, `tIME`.
pub const TAG_TIME: [u8; 4] = [116, 73, 77, 69];

/// Number of bytes of a chunk besides its payload: length, type tag and
/// check value.
pub const CHUNK_OVERHEAD: usize = 12;

/// One chunk of the stream. It lives for one step of the parse.
#[derive(Debug)]
pub struct RawChunk {
    /// The four bytes that name the type of the chunk.
    pub type_tag: [u8; 4],
    /// The bytes that the chunk carries.
    pub payload: Vec<u8>,
}

/// Whether `bytes` starts with the signature.
pub open spec fn has_signature(bytes: Seq<u8>) -> bool {
    bytes.len() >= 8 && bytes.subrange(0, 8) == SIGNATURE@
}

/// The big-endian number in the two bytes from `at` on.
pub open spec fn be_u16(bytes: Seq<u8>, at: int) -> nat {
    (bytes[at] * 0x100 + bytes[at + 1]) as nat
}

/// The big-endian number in the four bytes from `at` on.
pub open spec fn be_u32(bytes: Seq<u8>, at: int) -> nat {
    (bytes[at] * 0x100_0000 + bytes[at + 1] * 0x1_0000 + bytes[at + 2] * 0x100 + bytes[at
        + 3]) as nat
}

/// Whether the input holds a whole chunk from `idx` on: the length and the
/// type tag, as many payload bytes as the length says, and the check value.
pub open spec fn chunk_fits(bytes: Seq<u8>, idx: int) -> bool {
    &&& 0 <= idx
    &&& idx + CHUNK_OVERHEAD <= bytes.len()
    &&& idx + CHUNK_OVERHEAD + be_u32(bytes, idx) <= bytes.len()
}

/// The type tag of the chunk that starts at `idx`.
pub open spec fn chunk_tag(bytes: Seq<u8>, idx: int) -> Seq<u8> {
    bytes.subrange(idx + 4, idx + 8)
}

/// The payload of the chunk that starts at `idx`.
pub open spec fn chunk_payload(bytes: Seq<u8>, idx: int) -> Seq<u8> {
    bytes.subrange(idx + 8, idx + 8 + be_u32(bytes, idx))
}

/// The offset just behind the chunk that starts at `idx`.
pub open spec fn chunk_end(bytes: Seq<u8>, idx: int) -> int {
    idx + CHUNK_OVERHEAD + be_u32(bytes, idx)
}

/// Reads the big-endian number in the two bytes from `at` on.
pub(crate) fn read_be_u16(bytes: &[u8], at: usize) -> (v: u16)
    requires
        at + 2 <= bytes@.len(),
    ensures
        v == be_u16(bytes@, at as int),
{
    let hi: u16 = bytes[at] as u16;
    let lo: u16 = bytes[at + 1] as u16;
    hi * 0x100 + lo
}

/// Reads the big-endian number in the four bytes from `at` on.
pub(crate) fn read_be_u32(bytes: &[u8], at: usize) -> (v: u32)
    requires
        at + 4 <= bytes@.len(),
    ensures
        v == be_u32(bytes@, at as int),
{
    let b0: u32 = bytes[at] as u32;
    let b1: u32 = bytes[at + 1] as u32;
    let b2: u32 = bytes[at + 2] as u32;
    let b3: u32 = bytes[at + 3] as u32;
    b0 * 0x100_0000 + b1 * 0x1_0000 + b2 * 0x100 + b3
}

/// Whether two type tags are the same four bytes.
pub fn same_tag(x: &[u8; 4], y: &[u8; 4]) -> (same: bool)
    ensures
        same == (x@ == y@),
{
    let same: bool = x[0] == y[0] && x[1] == y[1] && x[2] == y[2] && x[3] == y[3];
    assert(same == (x@ =~= y@));
    same
}

/// Parses the chunk that starts at `idx` and returns it together with the
/// offset just behind it. Fails with `TruncatedChunk` if the input ends
/// before the chunk does.
pub fn parse_chunk(bytes: &[u8], idx: usize) -> (r: Result<(RawChunk, usize), DecodeError>)
    ensures
        chunk_fits(bytes@, idx as int) ==> (r matches Ok((chunk, next)) && chunk.type_tag@
            == chunk_tag(bytes@, idx as int) && chunk.payload@ == chunk_payload(
            bytes@,
            idx as int,
        ) && next == chunk_end(bytes@, idx as int)),
        !chunk_fits(bytes@, idx as int) ==> (r matches Err(e) && e == DecodeError::TruncatedChunk),
{
    let len: usize = bytes.len();
    if len < CHUNK_OVERHEAD || idx > len - CHUNK_OVERHEAD {
        return Err(DecodeError::TruncatedChunk);
    }
    let length: usize = read_be_u32(bytes, idx) as usize;
    if length > len - CHUNK_OVERHEAD - idx {
        return Err(DecodeError::TruncatedChunk);
    }
    let type_tag: [u8; 4] = [bytes[idx + 4], bytes[idx + 5], bytes[idx + 6], bytes[idx + 7]];
    assert(type_tag@ =~= chunk_tag(bytes@, idx as int));
    let payload: Vec<u8> = slice_to_vec(slice_subrange(bytes, idx + 8, idx + 8 + length));
    Ok((RawChunk { type_tag, payload }, idx + CHUNK_OVERHEAD + length))
}

} // verus!
