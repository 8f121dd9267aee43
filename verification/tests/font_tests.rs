//! Font metadata decoding and glyph lookup.

use u8g2_fonts::{Font, FontReader, FontRenderer, LookupError, Point, Rectangle, Size,
    VerticalPosition};

/// A tiny font: an ASCII table holding only a newline sentinel, and a
/// one-entry Unicode jump table.
struct TestFont;

impl Font for TestFont {
    fn data() -> &'static [u8] {
        &[
            0, 0, 4, 4, 8, 8, 8, 8, 8, 1, 2, 3, 4, 5, 6, 7, 8, 0, 0, 0, 0, 0, 2, // header
            b'\n', 0, // first glyph
            0, 4, 255, 255, // unicode jump table
            0, b'\n', 0, // unicode entry
        ]
    }
}

/// A font with the metrics of a large serif face and an empty glyph table.
struct LargeMetricsFont;

impl Font for LargeMetricsFont {
    fn data() -> &'static [u8] {
        &[
            0, 0, 4, 4, 8, 8, 8, 8, 8, 31, 36, 0xFF, 0xF8, 21, 0xF9, 0, 0, 0, 0, 0, 0, 0,
            0, // header
            0, 0, // empty glyph chain
        ]
    }
}

#[test]
fn can_read_font_properties() {
    let font = FontReader::new::<TestFont>();

    assert_eq!(font.supports_background_color, false);
    assert_eq!(font.glyph_count, 0);
    assert_eq!(font.m0, 4);
    assert_eq!(font.m1, 4);
    assert_eq!(font.bitcnt_w, 8);
    assert_eq!(font.bitcnt_h, 8);
    assert_eq!(font.bitcnt_x, 8);
    assert_eq!(font.bitcnt_y, 8);
    assert_eq!(font.bitcnt_d, 8);
    assert_eq!(font.font_bounding_box_width, 1);
    assert_eq!(font.font_bounding_box_height, 2);
    assert_eq!(font.font_bounding_box_x_offset, 3);
    assert_eq!(font.font_bounding_box_y_offset, 4);
    assert_eq!(font.ascent, 5);
    assert_eq!(font.descent, 6);
    assert_eq!(font.ascent_of_parentheses, 7);
    assert_eq!(font.descent_of_parentheses, 8);
    assert_eq!(font.array_offset_upper_a, 0);
    assert_eq!(font.array_offset_lower_a, 0);
    assert_eq!(font.array_offset_0x0100, 2);
    assert_eq!(font.ignore_unknown_glyphs, false);
    assert_eq!(font.line_height, 3);
}

#[test]
fn can_handle_unicode_next_is_zero() {
    // This error path does not happen in normal, correct fonts; it is
    // triggered manually here. The jump table covers the codepoint, but the
    // record it lands on terminates the chain.
    let font = FontReader::new::<TestFont>();
    let glyph = font.retrieve_glyph_data('☃');

    assert!(matches!(glyph, Err(LookupError::GlyphNotFound('☃'))));
}

#[test]
fn implements_debug() {
    println!("{:?}", FontRenderer::new::<TestFont>());
}

#[test]
fn errors_are_display_and_debug() {
    let lookup = LookupError::GlyphNotFound('a');
    assert_eq!(lookup.message(), "This font does not support the character 'a'.");
    println!("{:?}", lookup);

    let not_found = u8g2_fonts::Error::<&'static str>::GlyphNotFound('b');
    assert_eq!(not_found.message(), "This font does not support the character 'b'.");
    println!("{:?}", not_found);

    let background = u8g2_fonts::Error::<&'static str>::BackgroundColorNotSupported;
    assert_eq!(background.message(), "This font does not support a background color.");
    println!("{:?}", background);

    let display = u8g2_fonts::Error::<&'static str>::DisplayError("This is a display error!");
    assert_eq!(display.message(), "Writing to display failed.");
    println!("{:?}", display);
}

#[test]
fn get_ascent_and_descent() {
    let font = FontRenderer::new::<LargeMetricsFont>();

    assert_eq!(font.get_ascent(), 21);
    assert_eq!(font.get_descent(), -7);
}

#[test]
fn get_line_height() {
    let font = FontRenderer::new::<LargeMetricsFont>();

    assert_eq!(font.get_default_line_height(), 37);
}

#[test]
fn get_glyph_bounding_box() {
    let font = FontRenderer::new::<LargeMetricsFont>();

    assert_eq!(
        font.get_font_bounding_box(VerticalPosition::Baseline),
        Rectangle::new(Point::new(-1, -28), Size::new(31, 36))
    );
    assert_eq!(
        font.get_font_bounding_box(VerticalPosition::Top),
        Rectangle::new(Point::new(-1, -6), Size::new(31, 36))
    );
    assert_eq!(
        font.get_font_bounding_box(VerticalPosition::Center),
        Rectangle::new(Point::new(-1, -21), Size::new(31, 36))
    );
    assert_eq!(
        font.get_font_bounding_box(VerticalPosition::Bottom),
        Rectangle::new(Point::new(-1, -35), Size::new(31, 36))
    );
}

#[test]
fn unicode_not_supported() {
    // The jump table region is empty, so the codepoint is out of the font's
    // declared coverage.
    let font = FontRenderer::new::<LargeMetricsFont>();
    let result = font.get_rendered_dimensions('☃', Point::new(2, 15), VerticalPosition::Baseline);

    assert!(matches!(result, Err(LookupError::GlyphNotFound('☃'))));
}

#[test]
fn letters_not_supported() {
    // The glyph chain terminates immediately, so no letter is mapped.
    let font = FontRenderer::new::<LargeMetricsFont>();
    let result = font.get_rendered_dimensions('a', Point::new(2, 15), VerticalPosition::Baseline);

    assert!(matches!(result, Err(LookupError::GlyphNotFound('a'))));
}

#[test]
fn codepoint_above_sixteen_bits_is_not_found() {
    let font = FontReader::new::<TestFont>();
    let glyph = font.retrieve_glyph_data('🙂');

    assert!(matches!(glyph, Err(LookupError::GlyphNotFound('🙂'))));
}

#[test]
fn truncated_glyph_chain_is_an_internal_error() {
    // A record length byte that jumps past the end of the blob is a corrupt
    // font, not an endless walk.
    struct BrokenFont;
    impl Font for BrokenFont {
        fn data() -> &'static [u8] {
            &[
                0, 0, 4, 4, 8, 8, 8, 8, 8, 1, 2, 3, 4, 5, 6, 7, 8, 0, 0, 0, 0, 0, 2, // header
                b'x', 200, // record that jumps far past the end
            ]
        }
    }
    let font = FontReader::new::<BrokenFont>();
    let glyph = font.retrieve_glyph_data('a');

    assert!(matches!(glyph, Err(LookupError::InternalError)));
}

#[test]
fn ignore_unknown_glyphs_skips_missing_characters() {
    let font = FontReader::new::<LargeMetricsFont>().with_ignore_unknown_glyphs(true);
    let glyph = font.try_retrieve_glyph_data('a');

    assert!(matches!(glyph, Ok(None)));
}
