use png_viewer::ancillary::Timestamp;
use png_viewer::error::DecodeError;
use png_viewer::reader::PngReader;

#[test]
fn text_is_split_at_the_first_zero() {
    let chunk = PngReader::read_chunk_text(b"Title\0A small image").unwrap();
    assert_eq!(chunk.keyword, "Title");
    assert_eq!(chunk.text, "A small image");
}

#[test]
fn later_zeros_belong_to_the_text() {
    let chunk = PngReader::read_chunk_text(b"key\0a\0b").unwrap();
    assert_eq!(chunk.keyword, "key");
    assert_eq!(chunk.text, "a\0b");
}

#[test]
fn keyword_and_text_may_be_empty() {
    let chunk = PngReader::read_chunk_text(b"\0").unwrap();
    assert_eq!(chunk.keyword, "");
    assert_eq!(chunk.text, "");
    let chunk = PngReader::read_chunk_text(b"\0text").unwrap();
    assert_eq!(chunk.keyword, "");
    assert_eq!(chunk.text, "text");
    let chunk = PngReader::read_chunk_text(b"key\0").unwrap();
    assert_eq!(chunk.keyword, "key");
    assert_eq!(chunk.text, "");
}

#[test]
fn text_is_decoded_as_utf8() {
    let payload = [0xc3, 0xa9, 0x00, 0xe2, 0x82, 0xac, 0xf0, 0x9f, 0x98, 0x80];
    let chunk = PngReader::read_chunk_text(&payload).unwrap();
    assert_eq!(chunk.keyword, "\u{e9}");
    assert_eq!(chunk.text, "\u{20ac}\u{1f600}");
    assert_eq!(chunk.keyword.chars().count(), 1);
    assert_eq!(chunk.text.chars().count(), 2);
}

#[test]
fn text_without_zero_is_invalid() {
    assert_eq!(PngReader::read_chunk_text(b"Title").unwrap_err(), DecodeError::InvalidText);
    assert_eq!(PngReader::read_chunk_text(b"").unwrap_err(), DecodeError::InvalidText);
}

#[test]
fn keyword_that_is_not_utf8_is_invalid() {
    let payload = [0xff, 0x00, b'a'];
    assert_eq!(PngReader::read_chunk_text(&payload).unwrap_err(), DecodeError::InvalidText);
    // A lone continuation byte.
    let payload = [0x80, 0x00];
    assert_eq!(PngReader::read_chunk_text(&payload).unwrap_err(), DecodeError::InvalidText);
}

#[test]
fn text_that_is_not_utf8_is_invalid() {
    let payload = [b'k', 0x00, 0xc3];
    assert_eq!(PngReader::read_chunk_text(&payload).unwrap_err(), DecodeError::InvalidText);
    // An overlong encoding of '/'.
    let payload = [b'k', 0x00, 0xc0, 0xaf];
    assert_eq!(PngReader::read_chunk_text(&payload).unwrap_err(), DecodeError::InvalidText);
    // A surrogate.
    let payload = [b'k', 0x00, 0xed, 0xa0, 0x80];
    assert_eq!(PngReader::read_chunk_text(&payload).unwrap_err(), DecodeError::InvalidText);
}

#[test]
fn timestamp_fields_are_read_in_order() {
    let payload = [0x07, 0xe8, 2, 29, 23, 59, 60];
    assert_eq!(
        PngReader::read_chunk_time(&payload),
        Ok(Timestamp { year: 2024, month: 2, day: 29, hour: 23, minute: 59, second: 60 })
    );
}

#[test]
fn year_is_big_endian() {
    let payload = [0xff, 0xfe, 0, 0, 0, 0, 0];
    assert_eq!(PngReader::read_chunk_time(&payload).unwrap().year, 0xfffe);
    let payload = [0x00, 0x01, 0, 0, 0, 0, 0];
    assert_eq!(PngReader::read_chunk_time(&payload).unwrap().year, 1);
}

#[test]
fn short_timestamp_is_invalid() {
    assert_eq!(PngReader::read_chunk_time(&[]), Err(DecodeError::InvalidTimestamp));
    assert_eq!(
        PngReader::read_chunk_time(&[0x07, 0xe8, 2, 29, 23, 59]),
        Err(DecodeError::InvalidTimestamp)
    );
}

#[test]
fn bytes_behind_the_timestamp_are_ignored() {
    let payload = [0x07, 0xe8, 1, 2, 3, 4, 5, 6, 7];
    assert_eq!(
        PngReader::read_chunk_time(&payload),
        Ok(Timestamp { year: 2024, month: 1, day: 2, hour: 3, minute: 4, second: 5 })
    );
}
