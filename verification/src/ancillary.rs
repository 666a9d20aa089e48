//! The informational chunks: text and timestamp. They are parsed and
//! checked, and have no part in the pixels.

use vstd::prelude::*;
use vstd::slice::slice_subrange;
use vstd::string::StringSliceAdditionalSpecFns;
use vstd::utf8::{decode_utf8, valid_utf8};
use crate::chunk::{be_u16, read_be_u16};
use crate::error::DecodeError;
use crate::reader::PngReader;

verus! {

/// Number of bytes of a timestamp.
pub const TIMESTAMP_LEN: usize = 7;

/// A keyword and the text that goes with it.
#[derive(Debug)]
pub struct TextChunk {
    /// What the text is about.
    pub keyword: String,
    /// The text itself.
    pub text: String,
}

/// The time of the last change to the image.
#[derive(Clone, Copy, Debug, PartialEq, Eq, Structural)]
pub struct Timestamp {
    pub year: u16,
    pub month: u8,
    pub day: u8,
    pub hour: u8,
    pub minute: u8,
    pub second: u8,
}

/// Whether the first zero byte of `payload` is at `i`.
pub open spec fn is_separator(payload: Seq<u8>, i: int) -> bool {
    &&& 0 <= i < payload.len()
    &&& payload[i] == 0
    &&& forall|j: int| 0 <= j < i ==> payload[j] != 0
}

/// Whether `payload` holds a zero byte.
pub open spec fn has_separator(payload: Seq<u8>) -> bool {
    exists|i: int| is_separator(payload, i)
}

/// The index of the first zero byte of a payload that has one.
pub open spec fn separator(payload: Seq<u8>) -> int {
    choose|i: int| is_separator(payload, i)
}

/// The bytes of a text payload before its first zero byte.
pub open spec fn keyword_bytes(payload: Seq<u8>) -> Seq<u8> {
    payload.subrange(0, separator(payload))
}

/// The bytes of a text payload behind its first zero byte.
pub open spec fn text_bytes(payload: Seq<u8>) -> Seq<u8> {
    payload.subrange(separator(payload) + 1, payload.len() as int)
}

/// Whether `payload` is a text chunk's payload: a keyword and a text, both
/// UTF-8, with a zero byte between them.
pub open spec fn valid_text(payload: Seq<u8>) -> bool {
    &&& has_separator(payload)
    &&& valid_utf8(keyword_bytes(payload))
    &&& valid_utf8(text_bytes(payload))
}

/// The timestamp in a payload of at least seven bytes: the year as a
/// big-endian number, then one byte for each of the other fields.
pub open spec fn timestamp_fields(payload: Seq<u8>) -> Timestamp {
    Timestamp {
        year: be_u16(payload, 0) as u16,
        month: payload[2],
        day: payload[3],
        hour: payload[4],
        minute: payload[5],
        second: payload[6],
    }
}

/// The timestamp that a payload holds, or `InvalidTimestamp` if it is
/// shorter than seven bytes.
pub open spec fn timestamp_spec(payload: Seq<u8>) -> Result<Timestamp, DecodeError> {
    if payload.len() >= TIMESTAMP_LEN {
        Ok(timestamp_fields(payload))
    } else {
        Err(DecodeError::InvalidTimestamp)
    }
}

/// A payload has at most one first zero byte.
pub proof fn lemma_separator_unique(payload: Seq<u8>, i: int)
    requires
        is_separator(payload, i),
    ensures
        has_separator(payload),
        separator(payload) == i,
{
    let j = separator(payload);
    assert(is_separator(payload, j));
    if j < i {
        assert(payload[j] != 0);
    } else if i < j {
        assert(payload[i] != 0);
    }
}

/// Checks with `std::str::from_utf8` that `bytes` is UTF-8 and hands it
/// back as a string slice. Nothing is proved of that function: the contract
/// states what its documentation says, that it succeeds on valid UTF-8 and
/// on nothing else, and that the string slice is made of the bytes given.
#[verifier::external_body]
fn utf8_str<'a>(bytes: &'a [u8]) -> (text: Option<&'a str>)
    ensures
        text is Some <==> valid_utf8(bytes@),
        text matches Some(s) ==> s.spec_bytes() == bytes@,
{
    match std::str::from_utf8(bytes) {
        Ok(s) => Some(s),
        Err(_) => None,
    }
}

/// Decodes UTF-8 bytes into an owned string.
fn utf8_string(bytes: &[u8]) -> (text: Option<String>)
    ensures
        text is Some <==> valid_utf8(bytes@),
        text matches Some(s) ==> s@ == decode_utf8(bytes@),
{
    match utf8_str(bytes) {
        Some(s) => {
            proof {
                vstd::utf8::encode_utf8_decode_utf8(s@);
            }
            Some(s.to_owned())
        },
        None => None,
    }
}

impl PngReader {
    /// Parses the payload of a text chunk: the keyword up to the first zero
    /// byte and the text behind it. Fails with `InvalidText` if there is no
    /// zero byte or if one of the two parts is not UTF-8.
    pub fn read_chunk_text(data: &[u8]) -> (r: Result<TextChunk, DecodeError>)
        ensures
            valid_text(data@) ==> (r matches Ok(chunk) && chunk.keyword@ == decode_utf8(
                keyword_bytes(data@),
            ) && chunk.text@ == decode_utf8(text_bytes(data@))),
            !valid_text(data@) ==> (r matches Err(e) && e == DecodeError::InvalidText),
    {
        let len: usize = data.len();
        let mut i: usize = 0;
        while i < len && data[i] != 0
            invariant
                i <= len,
                len == data@.len(),
                forall|j: int| 0 <= j < i ==> data@[j] != 0,
            decreases len - i,
        {
            i = i + 1;
        }
        if i == len {
            proof {
                if has_separator(data@) {
                    let j = separator(data@);
                    assert(is_separator(data@, j));
                    assert(data@[j] != 0);
                }
            }
            return Err(DecodeError::InvalidText);
        }
        proof {
            lemma_separator_unique(data@, i as int);
        }
        let keyword: String = match utf8_string(slice_subrange(data, 0, i)) {
            Some(s) => s,
            None => {
                return Err(DecodeError::InvalidText);
            },
        };
        let text: String = match utf8_string(slice_subrange(data, i + 1, len)) {
            Some(s) => s,
            None => {
                return Err(DecodeError::InvalidText);
            },
        };
        Ok(TextChunk { keyword, text })
    }

    /// Parses the payload of a timestamp chunk.
    pub fn read_chunk_time(data: &[u8]) -> (r: Result<Timestamp, DecodeError>)
        ensures
            r == timestamp_spec(data@),
    {
        if data.len() < TIMESTAMP_LEN {
            return Err(DecodeError::InvalidTimestamp);
        }
        Ok(
            Timestamp {
                year: read_be_u16(data, 0),
                month: data[2],
                day: data[3],
                hour: data[4],
                minute: data[5],
                second: data[6],
            },
        )
    }
}

} // verus!
