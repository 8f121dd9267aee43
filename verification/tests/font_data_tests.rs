//! Extraction of packed font data from octal-escaped C string literals.

use u8g2_fonts::{consume_font_data, write_byte, FontDataError};

#[test]
fn consumes_plain_string_data() {
    let mut out = Vec::new();
    let n = consume_font_data(b"\"abc\";", &mut out).unwrap();

    // three bytes plus the implicit zero terminator
    assert_eq!(n, 4);
    assert_eq!(out, b"abc\\0");
}

#[test]
fn consumes_octal_escapes() {
    let mut out = Vec::new();
    let n = consume_font_data(b"\"\\101\\102\";", &mut out).unwrap();

    assert_eq!(n, 3);
    assert_eq!(out, b"AB\\0");
}

#[test]
fn consumes_short_octal_escapes() {
    // a one-digit escape ends at the first non-octal byte, which is consumed
    // as ordinary data afterwards
    let mut out = Vec::new();
    let n = consume_font_data(b"\"\\7x\";", &mut out).unwrap();

    assert_eq!(n, 3);
    assert_eq!(out, b"\\x07x\\0");
}

#[test]
fn concatenates_multiple_literals() {
    let mut out = Vec::new();
    let n = consume_font_data(b"\"ab\"\n  \"cd\";", &mut out).unwrap();

    assert_eq!(n, 5);
    assert_eq!(out, b"abcd\\0");
}

#[test]
fn reports_unexpected_end_of_file() {
    let mut out = Vec::new();
    let r = consume_font_data(b"\"abc\"", &mut out);

    assert_eq!(r, Err(FontDataError::UnexpectedEndOfFile));
}

#[test]
fn reports_unexpected_character() {
    let mut out = Vec::new();
    let r = consume_font_data(b"x\"abc\";", &mut out);

    assert_eq!(r, Err(FontDataError::UnexpectedCharacter));
}

#[test]
fn reports_bad_escape() {
    let mut out = Vec::new();
    let r = consume_font_data(b"\"\\x\";", &mut out);

    assert_eq!(r, Err(FontDataError::UnexpectedCharacter));
}

#[test]
fn escapes_every_byte_class() {
    let mut out = Vec::new();
    write_byte(&mut out, 0);
    write_byte(&mut out, b'\n');
    write_byte(&mut out, b'\r');
    write_byte(&mut out, b'\t');
    write_byte(&mut out, b'"');
    write_byte(&mut out, b'\\');
    write_byte(&mut out, b'A');
    write_byte(&mut out, 0x07);
    write_byte(&mut out, 0xAB);

    assert_eq!(out, b"\\0\\n\\r\\t\\\"\\\\A\\x07\\xab");
}
