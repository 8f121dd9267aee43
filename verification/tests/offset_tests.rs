//! Alignment offsets, horizontal dimension accumulation, and the vertical
//! anchoring formulas.

use u8g2_fonts::{compute_horizontal_offset, compute_vertical_offset_from_static_newlines, Font,
    FontReader, HorizontalAlignment, HorizontalRenderedDimensions, VerticalPosition};

struct MetricsFont;

impl Font for MetricsFont {
    fn data() -> &'static [u8] {
        // ascent 21, descent -7, bounding box height 36
        &[
            0, 0, 4, 4, 8, 8, 8, 8, 8, 31, 36, 0xFF, 0xF8, 21, 0xF9, 0, 0, 0, 0, 0, 0, 0, 0, 0, 0,
        ]
    }
}

#[allow(non_snake_case)]
#[test]
fn HorizontalOffset_Left() {
    let mut a = HorizontalRenderedDimensions::empty();

    a.advance = 5;
    a.bounding_box_offset = 10;
    a.bounding_box_width = 3;

    let offset = compute_horizontal_offset(HorizontalAlignment::Left, a);

    // the deliberate one-pixel shift that balances the three alignments
    assert_eq!(offset, 1);
}

#[allow(non_snake_case)]
#[test]
fn HorizontalOffset_Center_Odd() {
    let mut a = HorizontalRenderedDimensions::empty();

    a.advance = 5;
    a.bounding_box_offset = 10;
    a.bounding_box_width = 3;

    let offset = compute_horizontal_offset(HorizontalAlignment::Center, a);

    assert_eq!(offset, -11);
}

#[allow(non_snake_case)]
#[test]
fn HorizontalOffset_Center_Even() {
    let mut a = HorizontalRenderedDimensions::empty();

    a.advance = 5;
    a.bounding_box_offset = 10;
    a.bounding_box_width = 4;

    let offset = compute_horizontal_offset(HorizontalAlignment::Center, a);

    assert_eq!(offset, -12);
}

#[allow(non_snake_case)]
#[test]
fn HorizontalOffset_Right() {
    let mut a = HorizontalRenderedDimensions::empty();

    a.advance = 5;
    a.bounding_box_offset = 10;
    a.bounding_box_width = 6;

    let offset = compute_horizontal_offset(HorizontalAlignment::Right, a);

    assert_eq!(offset, -4);
}

#[allow(non_snake_case)]
#[test]
fn Add_SumsAdvance() {
    let mut a = HorizontalRenderedDimensions::empty();
    let mut b = HorizontalRenderedDimensions::empty();

    a.advance = 5;
    b.advance = 7;

    a.add(b);

    assert_eq!(a.advance, 12);
}

#[allow(non_snake_case)]
#[test]
fn Add_BothNone_ReturnsNone() {
    let mut a = HorizontalRenderedDimensions::empty();
    let mut b = HorizontalRenderedDimensions::empty();

    a.bounding_box_offset = 0;
    a.bounding_box_width = 0;
    b.bounding_box_offset = 0;
    b.bounding_box_width = 0;

    a.add(b);

    assert_eq!(a.bounding_box_offset, 0);
    assert_eq!(a.bounding_box_width, 0);
}

#[allow(non_snake_case)]
#[test]
fn Add_SelfNone_ReturnsOther() {
    let mut a = HorizontalRenderedDimensions::empty();
    let mut b = HorizontalRenderedDimensions::empty();

    a.bounding_box_offset = 0;
    a.bounding_box_width = 0;
    b.bounding_box_offset = 42;
    b.bounding_box_width = 69;

    a.add(b);

    assert_eq!(a.bounding_box_offset, 42);
    assert_eq!(a.bounding_box_width, 69);
}

#[allow(non_snake_case)]
#[test]
fn Add_OtherNone_ReturnsSelf() {
    let mut a = HorizontalRenderedDimensions::empty();
    let mut b = HorizontalRenderedDimensions::empty();

    a.bounding_box_offset = 42;
    a.bounding_box_width = 69;
    b.bounding_box_offset = 0;
    b.bounding_box_width = 0;

    a.add(b);

    assert_eq!(a.bounding_box_offset, 42);
    assert_eq!(a.bounding_box_width, 69);
}

#[allow(non_snake_case)]
#[test]
fn Add_NonOverlapping_ReturnsJoinedBox() {
    let mut a = HorizontalRenderedDimensions::empty();
    let mut b = HorizontalRenderedDimensions::empty();

    a.bounding_box_offset = 42;
    a.bounding_box_width = 3;
    b.bounding_box_offset = 12;
    b.bounding_box_width = 5;

    a.add(b);

    assert_eq!(a.bounding_box_offset, 12);
    assert_eq!(a.bounding_box_width, 33);
}

#[allow(non_snake_case)]
#[test]
fn Add_Overlapping_ReturnsJoinedBox() {
    let mut a = HorizontalRenderedDimensions::empty();
    let mut b = HorizontalRenderedDimensions::empty();

    a.bounding_box_offset = 5;
    a.bounding_box_width = 7;
    b.bounding_box_offset = 9;
    b.bounding_box_width = 6;

    a.add(b);

    assert_eq!(a.bounding_box_offset, 5);
    assert_eq!(a.bounding_box_width, 10);
}

#[test]
fn vertical_offsets_match_documented_formula() {
    let font = FontReader::new::<MetricsFont>();

    assert_eq!(
        compute_vertical_offset_from_static_newlines(&font, VerticalPosition::Baseline, 0),
        0
    );
    assert_eq!(
        compute_vertical_offset_from_static_newlines(&font, VerticalPosition::Top, 0),
        22
    );
    // (0 + 21 - (-7) + 1) / 2 + (-7) - 0 == 7
    assert_eq!(
        compute_vertical_offset_from_static_newlines(&font, VerticalPosition::Center, 0),
        7
    );
    assert_eq!(
        compute_vertical_offset_from_static_newlines(&font, VerticalPosition::Bottom, 0),
        -7
    );
    // two extra lines at the default line height of 37
    // (74 + 21 - (-7) + 1) / 2 + (-7) - 74 == -30
    assert_eq!(
        compute_vertical_offset_from_static_newlines(&font, VerticalPosition::Center, 2),
        -30
    );
    assert_eq!(
        compute_vertical_offset_from_static_newlines(&font, VerticalPosition::Bottom, 2),
        -81
    );
}

#[test]
fn vertical_centering_is_symmetric_for_one_line() {
    let font = FontReader::new::<MetricsFont>();
    let top = compute_vertical_offset_from_static_newlines(&font, VerticalPosition::Top, 0);
    let center = compute_vertical_offset_from_static_newlines(&font, VerticalPosition::Center, 0);
    let bottom = compute_vertical_offset_from_static_newlines(&font, VerticalPosition::Bottom, 0);

    let above = top - center;
    let below = center - bottom;
    assert!(above == below || above == below + 1);
}

#[test]
fn newline_count_of_strings() {
    assert_eq!(u8g2_fonts::get_newline_count(&"a\nbc\n"), 2);
    assert_eq!(u8g2_fonts::get_newline_count(&"a\nbc"), 1);
    assert_eq!(u8g2_fonts::get_newline_count(&""), 0);
    assert_eq!(u8g2_fonts::get_newline_count(&'\n'), 1);
}
