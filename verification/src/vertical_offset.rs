//! The vertical anchoring arithmetic: how far below the anchor point the
//! first baseline lies, for each vertical position.

use crate::font_reader::FontReader;
use crate::layout::{div2_trunc, vertical_offset_spec};
use crate::types::VerticalPosition;
use vstd::prelude::*;

verus! {

/// Computes the vertical offset for content with the given number of
/// newlines. The centering formula truncates its division toward zero; its
/// exact shape is observable and deliberately kept.
pub fn compute_vertical_offset_from_static_newlines(
    font: &FontReader,
    vertical_pos: VerticalPosition,
    newline_count: i32,
) -> (r: i32)
    requires
        font.wf(),
        0 <= newline_count,
        newline_count * font.line_height < 0x4000_0000,
    ensures
        r == vertical_offset_spec(*font, vertical_pos, newline_count as int),
{
    let newline_advance = font.line_height as i32;
    let ascent = font.ascent as i32;
    let descent = font.descent as i32;

    match vertical_pos {
        VerticalPosition::Baseline => 0,
        VerticalPosition::Top => ascent + 1,
        VerticalPosition::Center => {
            let total_newline_advance = newline_count * newline_advance;
            let num = total_newline_advance + ascent - descent + 1;
            let half = if num >= 0 {
                ((num as u32) / 2) as i32
            } else {
                -((((-num) as u32) / 2) as i32)
            };
            assert(half == div2_trunc(num as int));
            half + descent - total_newline_advance
        },
        VerticalPosition::Bottom => descent - newline_count * newline_advance,
    }
}

} // verus!
