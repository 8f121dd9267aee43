//! The content abstraction over characters and strings, and per-line
//! metrics, exercised on a small font built bit by bit.

use u8g2_fonts::{compute_horizontal_line_dimensions, get_newline_count, Content, FontReader,
    HorizontalRenderedDimensions, LookupError};

fn push_bits(bytes: &mut Vec<u8>, bitpos: &mut usize, value: u32, width: usize) {
    for k in 0..width {
        let bit = (value >> k) & 1;
        let byte_index = *bitpos / 8;
        if byte_index >= bytes.len() {
            bytes.push(0);
        }
        bytes[byte_index] |= (bit as u8) << (*bitpos % 8);
        *bitpos += 1;
    }
}

fn glyph_record(code: u8, w: u32, h: u32, x: i32, y: i32, d: i32, bitmap: &[u8]) -> Vec<u8> {
    let mut payload = Vec::new();
    let mut bit = 0usize;
    push_bits(&mut payload, &mut bit, w, 3);
    push_bits(&mut payload, &mut bit, h, 3);
    push_bits(&mut payload, &mut bit, (x + 2) as u32, 2);
    push_bits(&mut payload, &mut bit, (y + 2) as u32, 2);
    push_bits(&mut payload, &mut bit, (d + 8) as u32, 4);
    for &b in bitmap {
        push_bits(&mut payload, &mut bit, b as u32, 1);
    }
    let mut record = vec![code, (2 + payload.len()) as u8];
    record.extend(payload);
    record
}

/// A font holding `'a'..='e'`: 3x3 solid squares with advances 4, 3, 4, a
/// 3x2 pattern glyph, and an invisible advance-only glyph.
fn abc_font_data(supports_bg: bool) -> &'static [u8] {
    let mut table: Vec<u8> = Vec::new();
    table.extend(glyph_record(97, 3, 3, 0, 0, 4, &[0, 0, 1, 1, 1, 1]));
    table.extend(glyph_record(98, 3, 3, 0, 0, 3, &[0, 0, 1, 1, 1, 1]));
    table.extend(glyph_record(99, 3, 3, 0, 0, 4, &[0, 0, 1, 1, 1, 1]));
    table.extend(glyph_record(100, 3, 2, 0, 0, 4, &[0, 1, 1, 0, 1]));
    table.extend(glyph_record(101, 0, 0, 0, 0, 2, &[]));
    table.extend([0u8, 0u8]);
    let table_len = table.len() as u16;
    let mut data = vec![
        5,
        if supports_bg { 1 } else { 0 },
        2, 2, 3, 3, 2, 2, 4, // run-length and field bit widths
        4, 4, 0, 0xFF, // font bounding box
        3, 0xFF, 0, 0, // ascent, descent, parentheses metrics
        0, 0, 0, 0, // letter fast-forward offsets
        (table_len >> 8) as u8,
        (table_len & 0xff) as u8,
    ];
    data.extend(table);
    Box::leak(data.into_boxed_slice())
}

fn abc_font() -> FontReader {
    reader_for(abc_font_data(false))
}

fn reader_for(data: &'static [u8]) -> FontReader {
    FontReader {
        data,
        glyph_count: data[0],
        supports_background_color: data[1] != 0,
        m0: data[2],
        m1: data[3],
        bitcnt_w: data[4],
        bitcnt_h: data[5],
        bitcnt_x: data[6],
        bitcnt_y: data[7],
        bitcnt_d: data[8],
        font_bounding_box_width: data[9] as i8,
        font_bounding_box_height: data[10] as i8,
        font_bounding_box_x_offset: data[11] as i8,
        font_bounding_box_y_offset: data[12] as i8,
        ascent: data[13] as i8,
        descent: data[14] as i8,
        ascent_of_parentheses: data[15] as i8,
        descent_of_parentheses: data[16] as i8,
        array_offset_upper_a: u16::from_be_bytes([data[17], data[18]]),
        array_offset_lower_a: u16::from_be_bytes([data[19], data[20]]),
        array_offset_0x0100: u16::from_be_bytes([data[21], data[22]]),
        ignore_unknown_glyphs: false,
        line_height: data[10] as u32 + 1,
    }
}

fn collect_chars<C: Content>(content: &C) -> Vec<char> {
    let mut out = Vec::new();
    let n = content.length();
    for i in 0..n {
        out.push(content.char_at(i));
    }
    out
}

#[test]
fn character_for_each_char_produces_correct_values() {
    assert_eq!(collect_chars(&'a'), ['a']);
}

#[test]
fn character_for_each_char_infallible_produces_correct_values() {
    assert_eq!(collect_chars(&'a'), ['a']);
}

#[test]
fn character_get_newline_count_provides_correct_value() {
    assert_eq!(get_newline_count(&'a'), 0);
}

#[test]
fn character_line_dimensions_iter_provides_correct_values() {
    let font = abc_font();
    let ch = 'a';

    assert_eq!(
        compute_horizontal_line_dimensions(&ch, 0, &font).unwrap(),
        HorizontalRenderedDimensions {
            advance: 4,
            bounding_box_width: 3,
            bounding_box_offset: 0,
        }
    );
    assert_eq!(
        compute_horizontal_line_dimensions(&ch, 1, &font).unwrap(),
        HorizontalRenderedDimensions::empty()
    );
}

#[test]
fn character_line_dimensions_iter_errors_on_glyph_not_found() {
    let font = abc_font();
    let ch = '☃';

    assert!(matches!(
        compute_horizontal_line_dimensions(&ch, 0, &font),
        Err(LookupError::GlyphNotFound('☃'))
    ));
}

#[test]
fn text_for_each_char_produces_correct_values() {
    assert_eq!(collect_chars(&"abc"), ['a', 'b', 'c']);
}

#[test]
fn text_for_each_char_infallible_produces_correct_values() {
    assert_eq!(collect_chars(&"abc"), ['a', 'b', 'c']);
}

#[test]
fn text_get_newline_count_provides_correct_value() {
    assert_eq!(get_newline_count(&"a\nbc\n"), 2);
    assert_eq!(get_newline_count(&"a\nbc"), 1);
    assert_eq!(get_newline_count(&""), 0);
}

#[test]
fn text_line_dimensions_iter_provides_correct_values() {
    let font = abc_font();
    let text = "a\nbc\n";

    assert_eq!(
        compute_horizontal_line_dimensions(&text, 0, &font).unwrap(),
        HorizontalRenderedDimensions {
            advance: 4,
            bounding_box_width: 3,
            bounding_box_offset: 0,
        }
    );
    assert_eq!(
        compute_horizontal_line_dimensions(&text, 2, &font).unwrap(),
        HorizontalRenderedDimensions {
            advance: 7,
            bounding_box_width: 6,
            bounding_box_offset: 0,
        }
    );
    assert_eq!(
        compute_horizontal_line_dimensions(&text, 5, &font).unwrap(),
        HorizontalRenderedDimensions::empty()
    );
}

#[test]
fn text_line_dimensions_iter_errors_on_glyph_not_found() {
    let font = abc_font();
    let text = "a\n☃";

    assert_eq!(
        compute_horizontal_line_dimensions(&text, 0, &font).unwrap(),
        HorizontalRenderedDimensions {
            advance: 4,
            bounding_box_width: 3,
            bounding_box_offset: 0,
        }
    );
    assert!(matches!(
        compute_horizontal_line_dimensions(&text, 2, &font),
        Err(LookupError::GlyphNotFound('☃'))
    ));
}

#[test]
fn whitespace_glyph_contributes_advance_but_no_box() {
    let font = abc_font();

    assert_eq!(
        compute_horizontal_line_dimensions(&'e', 0, &font).unwrap(),
        HorizontalRenderedDimensions {
            advance: 2,
            bounding_box_width: 0,
            bounding_box_offset: 0,
        }
    );
}
