//! End-to-end rendering onto a recording pixel surface: pixel output,
//! bounding boxes, alignment, anchoring and failure behavior.

use u8g2_fonts::{DrawTarget, Error, FontColor, FontReader, FontRenderer, HorizontalAlignment,
    LookupError, Point, Rectangle, RenderedDimensions, Size, VerticalPosition};

fn pack_bits(bytes: &mut Vec<u8>, bitpos: &mut usize, value: u32, width: usize) {
    for k in 0..width {
        let bit = (value >> k) & 1;
        let byte_index = *bitpos / 8;
        if byte_index >= bytes.len() {
            bytes.push(0);
        }
        bytes[byte_index] |= (bit as u8) << (*bitpos % 8);
        *bitpos += 1;
    }
}

fn glyph_rec(code: u8, w: u32, h: u32, x: i32, y: i32, d: i32, bitmap: &[u8]) -> Vec<u8> {
    let mut payload = Vec::new();
    let mut bit = 0usize;
    pack_bits(&mut payload, &mut bit, w, 3);
    pack_bits(&mut payload, &mut bit, h, 3);
    pack_bits(&mut payload, &mut bit, (x + 2) as u32, 2);
    pack_bits(&mut payload, &mut bit, (y + 2) as u32, 2);
    pack_bits(&mut payload, &mut bit, (d + 8) as u32, 4);
    for &b in bitmap {
        pack_bits(&mut payload, &mut bit, b as u32, 1);
    }
    let mut record = vec![code, (2 + payload.len()) as u8];
    record.extend(payload);
    record
}

fn small_font_data(supports_bg: bool) -> &'static [u8] {
    let mut table: Vec<u8> = Vec::new();
    table.extend(glyph_rec(97, 3, 3, 0, 0, 4, &[0, 0, 1, 1, 1, 1]));
    table.extend(glyph_rec(98, 3, 3, 0, 0, 3, &[0, 0, 1, 1, 1, 1]));
    table.extend(glyph_rec(99, 3, 3, 0, 0, 4, &[0, 0, 1, 1, 1, 1]));
    table.extend(glyph_rec(100, 3, 2, 0, 0, 4, &[0, 1, 1, 0, 1]));
    table.extend(glyph_rec(101, 0, 0, 0, 0, 2, &[]));
    // a glyph that promises pixels and then runs out of bitmap bits
    table.extend(glyph_rec(102, 3, 3, 0, 0, 4, &[]));
    table.extend([0u8, 0u8]);
    let table_len = table.len() as u16;
    let mut data = vec![
        6,
        if supports_bg { 1 } else { 0 },
        2, 2, 3, 3, 2, 2, 4, // run-length and field bit widths
        4, 4, 0, 0xFF, // font bounding box
        3, 0xFF, 0, 0, // ascent, descent, parentheses metrics
        0, 0, 0, 0, // letter fast-forward offsets
        (table_len >> 8) as u8,
        (table_len & 0xff) as u8,
    ];
    data.extend(table);
    Box::leak(data.into_boxed_slice())
}

fn small_font(supports_bg: bool) -> FontRenderer {
    let data = small_font_data(supports_bg);
    FontRenderer {
        font: FontReader {
            data,
            glyph_count: data[0],
            supports_background_color: data[1] != 0,
            m0: data[2],
            m1: data[3],
            bitcnt_w: data[4],
            bitcnt_h: data[5],
            bitcnt_x: data[6],
            bitcnt_y: data[7],
            bitcnt_d: data[8],
            font_bounding_box_width: data[9] as i8,
            font_bounding_box_height: data[10] as i8,
            font_bounding_box_x_offset: data[11] as i8,
            font_bounding_box_y_offset: data[12] as i8,
            ascent: data[13] as i8,
            descent: data[14] as i8,
            ascent_of_parentheses: data[15] as i8,
            descent_of_parentheses: data[16] as i8,
            array_offset_upper_a: u16::from_be_bytes([data[17], data[18]]),
            array_offset_lower_a: u16::from_be_bytes([data[19], data[20]]),
            array_offset_0x0100: u16::from_be_bytes([data[21], data[22]]),
            ignore_unknown_glyphs: false,
            line_height: data[10] as u32 + 1,
        },
    }
}

/// A surface that records every pixel and fill it receives.
struct RecordingDisplay {
    pixels: Vec<(i32, i32, u32)>,
    fills: Vec<(Rectangle, Vec<u32>)>,
}

impl RecordingDisplay {
    fn new() -> Self {
        RecordingDisplay { pixels: Vec::new(), fills: Vec::new() }
    }
}

impl DrawTarget for RecordingDisplay {
    type Color = u32;
    type Error = &'static str;

    fn draw_pixel(&mut self, position: Point, color: u32) -> Result<(), &'static str> {
        self.pixels.push((position.x, position.y, color));
        Ok(())
    }

    fn fill_contiguous(&mut self, area: &Rectangle, colors: &Vec<u32>) -> Result<
        (),
        &'static str,
    > {
        self.fills.push((*area, colors.clone()));
        Ok(())
    }
}

/// A surface whose writes always fail.
struct FailingDisplay;

impl DrawTarget for FailingDisplay {
    type Color = u32;
    type Error = &'static str;

    fn draw_pixel(&mut self, _position: Point, _color: u32) -> Result<(), &'static str> {
        Err("write failed")
    }

    fn fill_contiguous(&mut self, _area: &Rectangle, _colors: &Vec<u32>) -> Result<
        (),
        &'static str,
    > {
        Err("write failed")
    }
}

#[test]
fn render_glyph() {
    let font = small_font(false);
    let mut display = RecordingDisplay::new();

    let dims = font
        .render('a', Point::new(10, 10), VerticalPosition::Baseline, FontColor::Transparent(5u32),
            &mut display)
        .unwrap();

    assert_eq!(dims.advance, Point::new(4, 0));
    assert_eq!(
        dims.bounding_box,
        Some(Rectangle::new(Point::new(10, 7), Size::new(3, 3)))
    );
    let mut expected = Vec::new();
    for y in 7..10 {
        for x in 10..13 {
            expected.push((x, y, 5u32));
        }
    }
    assert_eq!(display.pixels, expected);
    assert!(display.fills.is_empty());
}

#[test]
fn render_glyph_with_background_color() {
    let font = small_font(true);
    let mut display = RecordingDisplay::new();

    let dims = font
        .render(
            'a',
            Point::new(10, 10),
            VerticalPosition::Baseline,
            FontColor::WithBackground { fg: 7u32, bg: 2u32 },
            &mut display,
        )
        .unwrap();

    assert_eq!(dims.advance, Point::new(4, 0));
    assert!(display.pixels.is_empty());
    assert_eq!(display.fills.len(), 1);
    let (area, colors) = &display.fills[0];
    assert_eq!(*area, Rectangle::new(Point::new(10, 7), Size::new(3, 3)));
    assert_eq!(*colors, vec![7u32; 9]);
}

#[test]
fn run_length_repeat_round_trip() {
    // the pattern glyph encodes runs [zeros=2, ones=1, repeat]: its two rows
    // decode to the same three pixels, foreground only in the last column
    let font = small_font(false);
    let mut display = RecordingDisplay::new();

    let dims = font
        .render('d', Point::new(0, 10), VerticalPosition::Baseline, FontColor::Transparent(1u32),
            &mut display)
        .unwrap();

    assert_eq!(dims.advance, Point::new(4, 0));
    assert_eq!(
        dims.bounding_box,
        Some(Rectangle::new(Point::new(0, 8), Size::new(3, 2)))
    );
    assert_eq!(display.pixels, vec![(2, 8, 1u32), (2, 9, 1u32)]);
}

#[test]
fn background_color_not_supported() {
    let font = small_font(false);
    let mut display = RecordingDisplay::new();

    let color = FontColor::WithBackground { fg: 7u32, bg: 2u32 };
    let result1 = font.render('a', Point::new(0, 0), VerticalPosition::Baseline, color,
        &mut display);
    let result2 = font.render_aligned(
        'a',
        Point::new(0, 0),
        VerticalPosition::Baseline,
        HorizontalAlignment::Center,
        color,
        &mut display,
    );

    assert!(matches!(result1, Err(Error::BackgroundColorNotSupported)));
    assert!(matches!(result2, Err(Error::BackgroundColorNotSupported)));
    // no surface writes happened
    assert!(display.pixels.is_empty());
    assert!(display.fills.is_empty());
}

#[test]
fn render_text() {
    let font = small_font(false);
    let mut display = RecordingDisplay::new();

    let dims = font
        .render("abc", Point::new(0, 10), VerticalPosition::Baseline,
            FontColor::Transparent(1u32), &mut display)
        .unwrap();

    assert_eq!(dims.advance, Point::new(11, 0));
    assert_eq!(
        dims.bounding_box,
        Some(Rectangle::new(Point::new(0, 7), Size::new(10, 3)))
    );
}

#[test]
fn render_text_with_newline() {
    let font = small_font(false);
    let mut display = RecordingDisplay::new();

    let dims = font
        .render("a\nb", Point::new(0, 10), VerticalPosition::Baseline,
            FontColor::Transparent(1u32), &mut display)
        .unwrap();

    // the default line height is the bounding box height plus one
    assert_eq!(dims.advance, Point::new(3, 5));
    assert_eq!(
        dims.bounding_box,
        Some(Rectangle::new(Point::new(0, 7), Size::new(3, 8)))
    );
}

#[test]
fn render_text_with_custom_line_height() {
    let font = small_font(false).with_line_height(10);
    let mut display = RecordingDisplay::new();

    let dims = font
        .render("a\nb", Point::new(0, 10), VerticalPosition::Baseline,
            FontColor::Transparent(1u32), &mut display)
        .unwrap();

    assert_eq!(dims.advance, Point::new(3, 10));
}

#[test]
fn render_text_with_vertical_pos() {
    let font = small_font(false);

    let top = font
        .get_rendered_dimensions("a", Point::new(0, 10), VerticalPosition::Top)
        .unwrap();
    let center = font
        .get_rendered_dimensions("a", Point::new(0, 10), VerticalPosition::Center)
        .unwrap();
    let bottom = font
        .get_rendered_dimensions("a", Point::new(0, 10), VerticalPosition::Bottom)
        .unwrap();

    // ascent 3, descent -1: top shifts by 4, center by 1, bottom by -1
    assert_eq!(top.bounding_box.unwrap().top_left.y, 11);
    assert_eq!(center.bounding_box.unwrap().top_left.y, 8);
    assert_eq!(bottom.bounding_box.unwrap().top_left.y, 6);
}

#[test]
fn get_text_dimensions() {
    // measuring and rendering agree, for plain and for aligned calls
    let font = small_font(false);
    let mut display = RecordingDisplay::new();

    let rendered = font
        .render("a\nbc", Point::new(3, 9), VerticalPosition::Center,
            FontColor::Transparent(1u32), &mut display)
        .unwrap();
    let measured = font
        .get_rendered_dimensions("a\nbc", Point::new(3, 9), VerticalPosition::Center)
        .unwrap();
    assert_eq!(rendered, measured);

    let rendered_aligned = font
        .render_aligned(
            "a\nbc",
            Point::new(3, 9),
            VerticalPosition::Center,
            HorizontalAlignment::Center,
            FontColor::Transparent(1u32),
            &mut display,
        )
        .unwrap();
    let measured_aligned = font
        .get_rendered_dimensions_aligned(
            "a\nbc",
            Point::new(3, 9),
            VerticalPosition::Center,
            HorizontalAlignment::Center,
        )
        .unwrap();
    assert_eq!(rendered_aligned, measured_aligned);
}

#[test]
fn aligned_text() {
    // one line under the three alignments: the boxes only differ in their
    // horizontal position, ordered right, center, left
    let font = small_font(false);

    let left = font
        .get_rendered_dimensions_aligned(
            "ab",
            Point::new(20, 10),
            VerticalPosition::Baseline,
            HorizontalAlignment::Left,
        )
        .unwrap()
        .unwrap();
    let center = font
        .get_rendered_dimensions_aligned(
            "ab",
            Point::new(20, 10),
            VerticalPosition::Baseline,
            HorizontalAlignment::Center,
        )
        .unwrap()
        .unwrap();
    let right = font
        .get_rendered_dimensions_aligned(
            "ab",
            Point::new(20, 10),
            VerticalPosition::Baseline,
            HorizontalAlignment::Right,
        )
        .unwrap()
        .unwrap();

    assert_eq!(left.size, center.size);
    assert_eq!(center.size, right.size);
    assert_eq!(left.top_left.y, center.top_left.y);
    assert_eq!(center.top_left.y, right.top_left.y);
    assert!(right.top_left.x <= center.top_left.x);
    assert!(center.top_left.x <= left.top_left.x);
    // line advance 7, line box width 7 at offset 0
    assert_eq!(left.top_left.x, 21);
    assert_eq!(center.top_left.x, 17);
    assert_eq!(right.top_left.x, 14);
}

#[test]
fn aligned_text_with_ignore_unknown() {
    let font = small_font(false).with_ignore_unknown_chars(true);

    let boxes = font
        .get_rendered_dimensions_aligned(
            "aXb",
            Point::new(0, 10),
            VerticalPosition::Baseline,
            HorizontalAlignment::Left,
        )
        .unwrap();

    // the unknown character contributes neither advance nor box
    let boxes_without = font
        .get_rendered_dimensions_aligned(
            "ab",
            Point::new(0, 10),
            VerticalPosition::Baseline,
            HorizontalAlignment::Left,
        )
        .unwrap();
    assert_eq!(boxes, boxes_without);
}

#[test]
fn render_glyph_with_ignore_unknown() {
    let font = small_font(false).with_ignore_unknown_chars(true);
    let mut display = RecordingDisplay::new();

    let dims = font
        .render('X', Point::new(0, 0), VerticalPosition::Baseline, FontColor::Transparent(1u32),
            &mut display)
        .unwrap();

    assert_eq!(dims, RenderedDimensions::empty());
    assert!(display.pixels.is_empty());
}

#[test]
fn unknown_glyph_fails_with_the_offending_character() {
    let font = small_font(false);
    let mut display = RecordingDisplay::new();

    let result = font.render('X', Point::new(0, 0), VerticalPosition::Baseline,
        FontColor::Transparent(1u32), &mut display);

    assert!(matches!(result, Err(Error::GlyphNotFound('X'))));
}

#[test]
fn whitespace_glyph_does_not_crash() {
    let font = small_font(false);
    let mut display = RecordingDisplay::new();

    let dims = font
        .render('e', Point::new(0, 0), VerticalPosition::Baseline, FontColor::Transparent(1u32),
            &mut display)
        .unwrap();

    assert_eq!(dims.advance, Point::new(2, 0));
    assert_eq!(dims.bounding_box, None);
    assert!(display.pixels.is_empty());
}

#[test]
fn passes_on_error() {
    let font = small_font(false);
    let mut display = FailingDisplay;

    let result = font.render('a', Point::new(0, 0), VerticalPosition::Baseline,
        FontColor::Transparent(1u32), &mut display);

    assert!(matches!(result, Err(Error::DisplayError("write failed"))));
}

#[test]
fn truncated_bitmap_fails_to_render_but_measures() {
    let font = small_font(false);
    let mut display = RecordingDisplay::new();

    let rendered = font.render('f', Point::new(0, 0), VerticalPosition::Baseline,
        FontColor::Transparent(1u32), &mut display);
    assert!(matches!(rendered, Err(Error::InternalError)));

    // measurement reads only the glyph header and succeeds
    let measured = font
        .get_rendered_dimensions('f', Point::new(0, 0), VerticalPosition::Baseline)
        .unwrap();
    assert_eq!(measured.advance, Point::new(4, 0));
}

fn unicode_font() -> FontRenderer {
    // ASCII chain terminates immediately; one jump-table entry covers all
    // codepoints and lands on a single two-byte-code record
    let mut table: Vec<u8> = Vec::new();
    table.extend([0u8, 0u8]); // ASCII chain terminator
    table.extend([0u8, 4u8, 0xFFu8, 0xFFu8]); // jump table: distance 4, covers everything
    let mut payload = Vec::new();
    let mut bit = 0usize;
    pack_bits(&mut payload, &mut bit, 3, 3); // width
    pack_bits(&mut payload, &mut bit, 3, 3); // height
    pack_bits(&mut payload, &mut bit, 2, 2); // x offset 0
    pack_bits(&mut payload, &mut bit, 2, 2); // y offset 0
    pack_bits(&mut payload, &mut bit, 12, 4); // advance 4
    for b in [0u8, 0, 1, 1, 1, 1] {
        pack_bits(&mut payload, &mut bit, b as u32, 1);
    }
    table.extend([0x01u8, 0x00u8, (3 + payload.len()) as u8]);
    table.extend(payload);
    table.extend([0u8, 0u8]); // Unicode chain terminator
    let mut data = vec![
        1, 0, 2, 2, 3, 3, 2, 2, 4, // run-length and field bit widths
        4, 4, 0, 0xFF, // font bounding box
        3, 0xFF, 0, 0, // ascent, descent, parentheses metrics
        0, 0, 0, 0, // letter fast-forward offsets
        0, 2, // jump table offset
    ];
    data.extend(table);
    let data: &'static [u8] = Box::leak(data.into_boxed_slice());
    FontRenderer {
        font: FontReader {
            data,
            glyph_count: data[0],
            supports_background_color: data[1] != 0,
            m0: data[2],
            m1: data[3],
            bitcnt_w: data[4],
            bitcnt_h: data[5],
            bitcnt_x: data[6],
            bitcnt_y: data[7],
            bitcnt_d: data[8],
            font_bounding_box_width: data[9] as i8,
            font_bounding_box_height: data[10] as i8,
            font_bounding_box_x_offset: data[11] as i8,
            font_bounding_box_y_offset: data[12] as i8,
            ascent: data[13] as i8,
            descent: data[14] as i8,
            ascent_of_parentheses: data[15] as i8,
            descent_of_parentheses: data[16] as i8,
            array_offset_upper_a: u16::from_be_bytes([data[17], data[18]]),
            array_offset_lower_a: u16::from_be_bytes([data[19], data[20]]),
            array_offset_0x0100: u16::from_be_bytes([data[21], data[22]]),
            ignore_unknown_glyphs: false,
            line_height: data[10] as u32 + 1,
        },
    }
}

#[test]
fn render_text_unicode() {
    let font = unicode_font();
    let mut display = RecordingDisplay::new();

    let dims = font
        .render('Ā', Point::new(10, 10), VerticalPosition::Baseline, FontColor::Transparent(5u32),
            &mut display)
        .unwrap();

    assert_eq!(dims.advance, Point::new(4, 0));
    assert_eq!(
        dims.bounding_box,
        Some(Rectangle::new(Point::new(10, 7), Size::new(3, 3)))
    );
    assert_eq!(display.pixels.len(), 9);

    // a codepoint past the record is still reported as missing
    let missing = font.get_rendered_dimensions('☃', Point::new(0, 0), VerticalPosition::Baseline);
    assert!(matches!(missing, Err(LookupError::GlyphNotFound('☃'))));
}

#[test]
fn measure_and_draw_glyph_agree() {
    let font = small_font(false);
    let mut display = RecordingDisplay::new();

    let drawn = font
        .render('b', Point::new(-3, 2), VerticalPosition::Baseline, FontColor::Transparent(1u32),
            &mut display)
        .unwrap();
    let measured = font
        .get_rendered_dimensions('b', Point::new(-3, 2), VerticalPosition::Baseline)
        .unwrap();

    assert_eq!(drawn, measured);
}

#[test]
fn text_empty_lines() {
    let font = small_font(false);

    let dims = font
        .get_rendered_dimensions("a\n\nb", Point::new(0, 10), VerticalPosition::Baseline)
        .unwrap();

    // two newlines, each one line height of five
    assert_eq!(dims.advance, Point::new(3, 10));
    assert_eq!(
        dims.bounding_box,
        Some(Rectangle::new(Point::new(0, 7), Size::new(3, 13)))
    );
}

#[test]
fn aligned_text_empty_lines() {
    let font = small_font(false);

    // an all-empty line has no bounding box; centering shifts it by nothing
    let boxes = font
        .get_rendered_dimensions_aligned(
            "a\n\na",
            Point::new(0, 10),
            VerticalPosition::Baseline,
            HorizontalAlignment::Center,
        )
        .unwrap()
        .unwrap();

    // both visible lines are centered identically
    assert_eq!(boxes.size, Size::new(3, 13));
    assert_eq!(boxes.top_left.x, -1);
}

#[test]
fn aligned_glyph() {
    let font = small_font(false);
    let mut display = RecordingDisplay::new();

    let rendered = font
        .render_aligned(
            'a',
            Point::new(8, 10),
            VerticalPosition::Baseline,
            HorizontalAlignment::Center,
            FontColor::Transparent(1u32),
            &mut display,
        )
        .unwrap();

    // glyph box width 3 at offset 0: centering shifts by -1
    assert_eq!(rendered, Some(Rectangle::new(Point::new(7, 7), Size::new(3, 3))));
}

#[test]
fn render_text_with_line_height_reset_to_default() {
    let font = small_font(false);
    let default_height = font.get_default_line_height();
    let font = font.with_line_height(9);
    let font = font.with_line_height(default_height);
    let mut display = RecordingDisplay::new();

    let dims = font
        .render("a\nb", Point::new(0, 10), VerticalPosition::Baseline,
            FontColor::Transparent(1u32), &mut display)
        .unwrap();

    assert_eq!(dims.advance, Point::new(3, 5));
}

#[test]
fn large_content_text() {
    let font = small_font(false);
    let mut display = RecordingDisplay::new();
    let text: String = "abc".repeat(200);

    let dims = font
        .render(text.as_str(), Point::new(0, 0), VerticalPosition::Baseline,
            FontColor::Transparent(1u32), &mut display)
        .unwrap();

    assert_eq!(dims.advance, Point::new(200 * 11, 0));
    // each character draws a solid three-by-three square
    assert_eq!(display.pixels.len(), 600 * 9);
}

#[test]
fn decoded_box_colors_match_the_pattern() {
    // the handoff producers report exactly what rendering would pass on
    let font = small_font(false);
    let glyph = font.font.retrieve_glyph_data('d').unwrap();

    let colors = glyph.create_renderer().unwrap().decode_box_colors(9u32, 4u32).unwrap();
    assert_eq!(colors, vec![4, 4, 9, 4, 4, 9]);

    let points = glyph
        .create_renderer()
        .unwrap()
        .decode_foreground_pixels(Point::new(0, 10))
        .unwrap();
    assert_eq!(points, vec![Point::new(2, 8), Point::new(2, 9)]);
}

#[test]
fn truncated_bitmap_fails_to_decode() {
    let font = small_font(false);
    let glyph = font.font.retrieve_glyph_data('f').unwrap();

    let colors = glyph.create_renderer().and_then(|r| r.decode_box_colors(1u32, 0u32));
    assert!(matches!(colors, Err(LookupError::InternalError)));
}
