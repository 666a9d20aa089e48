use png_viewer::chunk::{
    parse_chunk, same_tag, SIGNATURE, TAG_DATA, TAG_HEADER, TAG_TEXT, TAG_TIME,
};
use png_viewer::error::DecodeError;

#[test]
fn signature_and_tags_are_the_known_bytes() {
    assert_eq!(SIGNATURE, [137, 80, 78, 71, 13, 10, 26, 10]);
    assert_eq!(&TAG_HEADER, b"IHDR");
    assert_eq!(&TAG_DATA, b"IDAT");
    assert_eq!(&TAG_TEXT, b"tEXt");
    assert_eq!(&TAG_TIME, b"tIME");
}

#[test]
fn same_tag_compares_all_four_bytes() {
    assert!(same_tag(b"IHDR", &TAG_HEADER));
    assert!(!same_tag(b"IHDr", &TAG_HEADER));
    assert!(!same_tag(b"iHDR", &TAG_HEADER));
    assert!(!same_tag(b"IDAT", &TAG_HEADER));
    assert!(same_tag(&[0, 255, 128, 1], &[0, 255, 128, 1]));
}

#[test]
fn chunk_is_length_tag_payload_and_check() {
    let bytes = [0, 0, 0, 3, b'a', b'b', b'c', b'd', 7, 8, 9, 0xde, 0xad, 0xbe, 0xef, 42];
    let (chunk, next) = parse_chunk(&bytes, 0).unwrap();
    assert_eq!(&chunk.type_tag, b"abcd");
    assert_eq!(chunk.payload, vec![7, 8, 9]);
    assert_eq!(next, 15);
}

#[test]
fn chunk_is_parsed_at_the_offset_given() {
    let bytes = [1, 2, 3, 0, 0, 0, 1, b'w', b'x', b'y', b'z', 200, 0, 0, 0, 0];
    let (chunk, next) = parse_chunk(&bytes, 3).unwrap();
    assert_eq!(&chunk.type_tag, b"wxyz");
    assert_eq!(chunk.payload, vec![200]);
    assert_eq!(next, 16);
}

#[test]
fn chunk_without_payload() {
    let bytes = [0, 0, 0, 0, b'I', b'E', b'N', b'D', 1, 2, 3, 4];
    let (chunk, next) = parse_chunk(&bytes, 0).unwrap();
    assert_eq!(&chunk.type_tag, b"IEND");
    assert_eq!(chunk.payload, Vec::<u8>::new());
    assert_eq!(next, 12);
}

#[test]
fn length_is_big_endian() {
    let mut bytes: Vec<u8> = vec![0, 0, 1, 2, b'b', b'i', b'g', b'!'];
    bytes.extend(std::iter::repeat(5u8).take(258));
    bytes.extend([0u8; 4]);
    let (chunk, next) = parse_chunk(&bytes, 0).unwrap();
    assert_eq!(chunk.payload.len(), 258);
    assert_eq!(next, 270);
}

#[test]
fn tag_need_not_be_text() {
    let bytes = [0, 0, 0, 0, 0xff, 0x00, 0x80, 0xc3, 0, 0, 0, 0];
    let (chunk, next) = parse_chunk(&bytes, 0).unwrap();
    assert_eq!(chunk.type_tag, [0xff, 0x00, 0x80, 0xc3]);
    assert_eq!(next, 12);
}

#[test]
fn chunk_that_ends_behind_the_input_is_truncated() {
    // One payload byte is missing.
    let bytes = [0, 0, 0, 4, b'a', b'b', b'c', b'd', 7, 8, 9, 0, 0, 0, 0];
    assert_eq!(parse_chunk(&bytes, 0).unwrap_err(), DecodeError::TruncatedChunk);
    // The check value is cut short.
    let bytes = [0, 0, 0, 1, b'a', b'b', b'c', b'd', 7, 0, 0, 0];
    assert_eq!(parse_chunk(&bytes, 0).unwrap_err(), DecodeError::TruncatedChunk);
    // The length says four gigabytes.
    let bytes = [255, 255, 255, 255, b'a', b'b', b'c', b'd', 0, 0, 0, 0];
    assert_eq!(parse_chunk(&bytes, 0).unwrap_err(), DecodeError::TruncatedChunk);
}

#[test]
fn fewer_than_twelve_bytes_are_truncated() {
    assert_eq!(parse_chunk(&[], 0).unwrap_err(), DecodeError::TruncatedChunk);
    assert_eq!(parse_chunk(&[0, 0, 0], 0).unwrap_err(), DecodeError::TruncatedChunk);
    assert_eq!(parse_chunk(&[0u8; 11], 0).unwrap_err(), DecodeError::TruncatedChunk);
    assert_eq!(parse_chunk(&[0u8; 12], 1).unwrap_err(), DecodeError::TruncatedChunk);
    assert_eq!(parse_chunk(&[0u8; 12], 12).unwrap_err(), DecodeError::TruncatedChunk);
    assert_eq!(parse_chunk(&[0u8; 12], 13).unwrap_err(), DecodeError::TruncatedChunk);
    assert_eq!(parse_chunk(&[0u8; 12], usize::MAX).unwrap_err(), DecodeError::TruncatedChunk);
}
