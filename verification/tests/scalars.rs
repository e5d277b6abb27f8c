use sprity_aseprite::binary::errors::ParseError;
use sprity_aseprite::binary::scalars::{
    byte, dword, long, parse_color, parse_string, short, take, word, Color,
};

#[test]
fn word_is_little_endian() {
    let bytes = [0x34u8, 0x12, 0xff];
    let (rest, value) = word(&bytes).unwrap();
    assert_eq!(value, 0x1234);
    assert_eq!(rest, &[0xffu8][..]);
}

#[test]
fn dword_is_little_endian() {
    let bytes = [0x78u8, 0x56, 0x34, 0x12];
    let (rest, value) = dword(&bytes).unwrap();
    assert_eq!(value, 0x12345678);
    assert!(rest.is_empty());
}

#[test]
fn short_and_long_are_signed() {
    let (_, value) = short(&[0xffu8, 0xff]).unwrap();
    assert_eq!(value, -1);
    let (_, value) = short(&[0x00u8, 0x80]).unwrap();
    assert_eq!(value, i16::MIN);
    let (_, value) = long(&[0xfeu8, 0xff, 0xff, 0xff]).unwrap();
    assert_eq!(value, -2);
    let (_, value) = long(&[0x00u8, 0x00, 0x00, 0x80]).unwrap();
    assert_eq!(value, i32::MIN);
}

#[test]
fn scalars_fail_on_short_input() {
    assert_eq!(byte(&[]).unwrap_err(), ParseError::UnexpectedEof);
    assert_eq!(word(&[1]).unwrap_err(), ParseError::UnexpectedEof);
    assert_eq!(dword(&[1, 2, 3]).unwrap_err(), ParseError::UnexpectedEof);
    assert_eq!(take(&[1, 2, 3], 4).unwrap_err(), ParseError::UnexpectedEof);
    assert_eq!(parse_color(&[1, 2, 3]).unwrap_err(), ParseError::UnexpectedEof);
}

#[test]
fn take_splits_the_input() {
    let bytes = [1u8, 2, 3, 4, 5];
    let (rest, taken) = take(&bytes, 2).unwrap();
    assert_eq!(taken, &[1u8, 2][..]);
    assert_eq!(rest, &[3u8, 4, 5][..]);
}

#[test]
fn string_has_its_length_in_front() {
    let bytes = [5u8, 0, b'T', b'a', b'g', b' ', b'1', 9];
    let (rest, text) = parse_string(&bytes).unwrap();
    assert_eq!(text, "Tag 1");
    assert_eq!(rest, &[9u8][..]);
}

#[test]
fn string_reads_utf8() {
    let text = "héllo ☃";
    let mut bytes = vec![text.len() as u8, 0];
    bytes.extend_from_slice(text.as_bytes());
    let (rest, read) = parse_string(&bytes).unwrap();
    assert_eq!(read, text);
    assert!(rest.is_empty());
}

#[test]
fn string_refuses_bad_utf8() {
    let bytes = [2u8, 0, 0xc3, 0x28];
    assert_eq!(parse_string(&bytes).unwrap_err(), ParseError::InvalidUtf8);
}

#[test]
fn string_refuses_short_input() {
    let bytes = [3u8, 0, b'a', b'b'];
    assert_eq!(parse_string(&bytes).unwrap_err(), ParseError::UnexpectedEof);
}

#[test]
fn color_is_red_green_blue_alpha() {
    let (rest, color) = parse_color(&[1, 2, 3, 4, 5]).unwrap();
    assert_eq!(color, Color { red: 1, green: 2, blue: 3, alpha: 4 });
    assert_eq!(rest, &[5u8][..]);
}
