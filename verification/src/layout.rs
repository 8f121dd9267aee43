//! The mathematical model of text layout: what looking up a glyph yields,
//! how a glyph moves the pen and grows the bounding box, and how a whole
//! character sequence lays out, with and without horizontal alignment.

use crate::bitstream::blob_bits;
use crate::font_reader::FontReader;
use crate::glyph_reader::{
    glyph_header_bits, spec_advance, spec_glyph_height, spec_glyph_width, spec_offset_x,
    spec_offset_y,
};
use crate::glyph_searcher::GlyphSearchResult;
use crate::types::{HorizontalAlignment, VerticalPosition};
use vstd::prelude::*;

verus! {

/// Coordinates handed to the layout engine stay within this bound, so that
/// every intermediate pen position and box corner fits an `i32`.
pub open spec fn coord_ok(x: int) -> bool {
    -0x2000_0000 <= x <= 0x2000_0000
}

/// A rectangle of the layout model, with exact integer corners.
#[verifier::ext_equal]
pub struct LayoutRect {
    /// Leftmost column.
    pub x: int,
    /// Topmost row.
    pub y: int,
    /// Width in pixels.
    pub w: int,
    /// Height in pixels.
    pub h: int,
}

/// The running state of a layout pass: the pen displacement and the union of
/// the glyph bounding boxes so far.
#[verifier::ext_equal]
pub struct LayoutState {
    /// Horizontal pen displacement.
    pub adv_x: int,
    /// Vertical pen displacement; changes only on newlines.
    pub adv_y: int,
    /// The union of the bounding boxes of the glyphs laid out so far.
    pub bbox: Option<LayoutRect>,
}

/// What a layout pass over a character sequence ends in.
pub enum LayoutOutcome {
    /// Every character was laid out.
    Done(LayoutState),
    /// A character is not mapped by the font (and the font does not ignore
    /// unknown characters).
    NotFound(char),
    /// The font blob is malformed.
    Corrupt,
}

/// What decoding the glyph of one character yields.
pub enum GlyphOutcome {
    /// The decoded glyph header.
    Glyph {
        /// Bitmap width in pixels.
        width: nat,
        /// Bitmap height in pixels.
        height: nat,
        /// Horizontal offset of the bitmap relative to the pen.
        off_x: int,
        /// Vertical offset of the bitmap relative to the pen.
        off_y: int,
        /// Pen advance of the glyph.
        adv: int,
    },
    /// The font does not map the character.
    Missing,
    /// The font blob is malformed.
    Corrupt,
}

/// The glyph the font maps `ch` to, decoded.
pub open spec fn glyph_of(font: FontReader, ch: char) -> GlyphOutcome {
    if ch as nat > 0xffff {
        GlyphOutcome::Missing
    } else {
        match font.lookup(ch as nat) {
            GlyphSearchResult::Found { payload } => {
                if font.glyph_decodable(payload) {
                    let bits = blob_bits(payload);
                    GlyphOutcome::Glyph {
                        width: spec_glyph_width(font, bits),
                        height: spec_glyph_height(font, bits),
                        off_x: spec_offset_x(font, bits),
                        off_y: spec_offset_y(font, bits),
                        adv: spec_advance(font, bits),
                    }
                } else {
                    GlyphOutcome::Corrupt
                }
            },
            GlyphSearchResult::NotFound => GlyphOutcome::Missing,
            GlyphSearchResult::Corrupt => GlyphOutcome::Corrupt,
        }
    }
}

/// The bounding box of a glyph drawn with its bitmap anchored at the pen
/// position `(pen_x, pen_y)` on the baseline. A glyph without visible pixels
/// has no bounding box.
pub open spec fn glyph_box(
    width: nat,
    height: nat,
    off_x: int,
    off_y: int,
    pen_x: int,
    pen_y: int,
) -> Option<LayoutRect> {
    if width > 0 && height > 0 {
        Some(
            LayoutRect {
                x: pen_x + off_x,
                y: pen_y - (height + off_y),
                w: width as int,
                h: height as int,
            },
        )
    } else {
        None
    }
}

/// The union of two optional rectangles.
pub open spec fn combine_rects(a: Option<LayoutRect>, b: Option<LayoutRect>) -> Option<
    LayoutRect,
> {
    match (a, b) {
        (Some(ra), Some(rb)) => {
            let x = if ra.x <= rb.x {
                ra.x
            } else {
                rb.x
            };
            let y = if ra.y <= rb.y {
                ra.y
            } else {
                rb.y
            };
            let xr = if ra.x + ra.w >= rb.x + rb.w {
                ra.x + ra.w
            } else {
                rb.x + rb.w
            };
            let yb = if ra.y + ra.h >= rb.y + rb.h {
                ra.y + ra.h
            } else {
                rb.y + rb.h
            };
            Some(LayoutRect { x, y, w: xr - x, h: yb - y })
        },
        (Some(ra), None) => Some(ra),
        (None, b) => b,
    }
}

/// How one character changes the layout state, for content anchored at
/// `(pos_x, pos_y)`: a newline returns the pen to the line start and moves it
/// down one line height; any other character advances the pen by the glyph's
/// advance and grows the bounding box by the glyph's box.
pub open spec fn layout_step(
    font: FontReader,
    st: LayoutState,
    ch: char,
    pos_x: int,
    pos_y: int,
) -> LayoutOutcome {
    if ch == '\n' {
        LayoutOutcome::Done(
            LayoutState { adv_x: 0, adv_y: st.adv_y + font.line_height, bbox: st.bbox },
        )
    } else {
        match glyph_of(font, ch) {
            GlyphOutcome::Glyph { width, height, off_x, off_y, adv } => LayoutOutcome::Done(
                LayoutState {
                    adv_x: st.adv_x + adv,
                    adv_y: st.adv_y,
                    bbox: combine_rects(
                        st.bbox,
                        glyph_box(width, height, off_x, off_y, pos_x + st.adv_x, pos_y + st.adv_y),
                    ),
                },
            ),
            GlyphOutcome::Missing => {
                if font.ignore_unknown_glyphs {
                    LayoutOutcome::Done(st)
                } else {
                    LayoutOutcome::NotFound(ch)
                }
            },
            GlyphOutcome::Corrupt => LayoutOutcome::Corrupt,
        }
    }
}

/// The layout state after the first `n` characters of `chars`, for content
/// anchored at `(pos_x, pos_y)`.
pub open spec fn layout_prefix(
    font: FontReader,
    chars: Seq<char>,
    pos_x: int,
    pos_y: int,
    n: int,
) -> LayoutOutcome
    decreases n,
{
    if n <= 0 {
        LayoutOutcome::Done(LayoutState { adv_x: 0, adv_y: 0, bbox: None })
    } else {
        match layout_prefix(font, chars, pos_x, pos_y, n - 1) {
            LayoutOutcome::Done(st) => layout_step(font, st, chars[n - 1], pos_x, pos_y),
            e => e,
        }
    }
}

/// The outcome of laying out all of `chars` at `(pos_x, pos_y)`.
pub open spec fn layout_of(font: FontReader, chars: Seq<char>, pos_x: int, pos_y: int)
    -> LayoutOutcome {
    layout_prefix(font, chars, pos_x, pos_y, chars.len() as int)
}

/// A rectangle of the layout model that fits layout arithmetic: its corners
/// stay within a fixed band around the coordinate bound.
pub open spec fn rect_ok(r: LayoutRect) -> bool {
    &&& -0x4000_0800 <= r.x
    &&& r.x + r.w <= 0x4000_0800
    &&& -0x4000_0800 <= r.y
    &&& r.y + r.h <= 0x4000_0800
    &&& r.w >= 1
    &&& r.h >= 1
}

/// A layout state that fits layout arithmetic.
pub open spec fn state_ok(st: LayoutState) -> bool {
    &&& coord_ok(st.adv_x)
    &&& coord_ok(st.adv_y)
    &&& match st.bbox {
        Some(r) => rect_ok(r),
        None => true,
    }
}

/// A layout pass that stays within arithmetic range: every prefix state fits.
pub open spec fn layout_in_range(
    font: FontReader,
    chars: Seq<char>,
    pos_x: int,
    pos_y: int,
) -> bool {
    forall|n: int|
        0 <= n <= chars.len() ==> match #[trigger] layout_prefix(font, chars, pos_x, pos_y, n) {
            LayoutOutcome::Done(st) => state_ok(st),
            _ => true,
        }
}

/// An error outcome of a layout prefix persists through every longer prefix.
pub proof fn lemma_layout_error_sticks(
    font: FontReader,
    chars: Seq<char>,
    pos_x: int,
    pos_y: int,
    n: int,
    m: int,
)
    requires
        0 <= n <= m,
        !(layout_prefix(font, chars, pos_x, pos_y, n) is Done),
    ensures
        layout_prefix(font, chars, pos_x, pos_y, m) == layout_prefix(
            font,
            chars,
            pos_x,
            pos_y,
            n,
        ),
    decreases m - n,
{
    if m > n {
        lemma_layout_error_sticks(font, chars, pos_x, pos_y, n, m - 1);
    }
}

/// The index right after the line that starts at `start`: the index of the
/// next newline, or the end of the content.
pub open spec fn line_end(chars: Seq<char>, start: int) -> int
    decreases chars.len() - start,
{
    if start < 0 {
        start
    } else if start >= chars.len() || chars[start] == '\n' {
        start
    } else {
        line_end(chars, start + 1)
    }
}

/// The horizontal metrics of the line that starts at index `start`: its
/// total advance and its bounding box reduced to left offset and width,
/// as laid out at the origin.
pub open spec fn line_metrics(font: FontReader, chars: Seq<char>, start: int) -> LayoutOutcome {
    let line = chars.subrange(start, line_end(chars, start));
    layout_of(font, line, 0, 0)
}

/// The horizontal shift a line is drawn with, for each alignment.
///
/// The one-pixel shifts of `Left` and `Right` are deliberate: they make the
/// three alignments look symmetric around the anchor point.
pub open spec fn horizontal_offset_spec(
    align: HorizontalAlignment,
    adv: int,
    bbox: Option<LayoutRect>,
) -> int {
    match align {
        HorizontalAlignment::Left => 1,
        HorizontalAlignment::Center => match bbox {
            Some(r) => -(r.w / 2 + r.x),
            None => 0,
        },
        HorizontalAlignment::Right => 1 - adv,
    }
}

/// The vertical offset added to the anchor position before the first
/// character, for each vertical anchoring. `newline_count` is the number of
/// newlines in the content; the centering formula truncates its division
/// toward zero.
pub open spec fn vertical_offset_spec(
    font: FontReader,
    vertical_pos: VerticalPosition,
    newline_count: int,
) -> int {
    let t = newline_count * font.line_height;
    match vertical_pos {
        VerticalPosition::Baseline => 0,
        VerticalPosition::Top => font.ascent + 1,
        VerticalPosition::Center => div2_trunc(t + font.ascent - font.descent + 1) + font.descent
            - t,
        VerticalPosition::Bottom => font.descent - t,
    }
}

/// Division by two that truncates toward zero, as machine division does.
pub open spec fn div2_trunc(x: int) -> int {
    if x >= 0 {
        x / 2
    } else {
        -((-x) / 2)
    }
}

/// How one character changes the state of an aligned layout pass: like
/// [`layout_step`], except that a newline measures the following line and
/// starts the pen at that line's alignment shift.
pub open spec fn aligned_step(
    font: FontReader,
    chars: Seq<char>,
    i: int,
    st: LayoutState,
    pos_x: int,
    pos_y: int,
    align: HorizontalAlignment,
) -> LayoutOutcome {
    if chars[i] == '\n' {
        match line_metrics(font, chars, i + 1) {
            LayoutOutcome::Done(l) => LayoutOutcome::Done(
                LayoutState {
                    adv_x: horizontal_offset_spec(align, l.adv_x, l.bbox),
                    adv_y: st.adv_y + font.line_height,
                    bbox: st.bbox,
                },
            ),
            e => e,
        }
    } else {
        layout_step(font, st, chars[i], pos_x, pos_y)
    }
}

/// The state of an aligned layout pass after the first `n` characters. The
/// pass starts each line, the first included, at that line's alignment
/// shift, which requires measuring the line first.
pub open spec fn aligned_prefix(
    font: FontReader,
    chars: Seq<char>,
    pos_x: int,
    pos_y: int,
    align: HorizontalAlignment,
    n: int,
) -> LayoutOutcome
    decreases n, 0int,
{
    if n <= 0 {
        match line_metrics(font, chars, 0) {
            LayoutOutcome::Done(l) => LayoutOutcome::Done(
                LayoutState {
                    adv_x: horizontal_offset_spec(align, l.adv_x, l.bbox),
                    adv_y: 0,
                    bbox: None,
                },
            ),
            e => e,
        }
    } else {
        match aligned_prefix(font, chars, pos_x, pos_y, align, n - 1) {
            LayoutOutcome::Done(st) => aligned_step(font, chars, n - 1, st, pos_x, pos_y, align),
            e => e,
        }
    }
}

/// The outcome of the aligned layout of all of `chars`.
pub open spec fn aligned_layout_of(
    font: FontReader,
    chars: Seq<char>,
    pos_x: int,
    pos_y: int,
    align: HorizontalAlignment,
) -> LayoutOutcome {
    aligned_prefix(font, chars, pos_x, pos_y, align, chars.len() as int)
}

/// An aligned layout pass that stays within arithmetic range.
pub open spec fn aligned_in_range(
    font: FontReader,
    chars: Seq<char>,
    pos_x: int,
    pos_y: int,
    align: HorizontalAlignment,
) -> bool {
    forall|n: int|
        0 <= n <= chars.len() ==> match #[trigger] aligned_prefix(
            font,
            chars,
            pos_x,
            pos_y,
            align,
            n,
        ) {
            LayoutOutcome::Done(st) => state_ok(st),
            _ => true,
        }
}

/// Every line of `chars`, measured at the origin, stays within arithmetic
/// range.
pub open spec fn lines_in_range(font: FontReader, chars: Seq<char>) -> bool {
    forall|s: int|
        0 <= s <= chars.len() ==> layout_in_range(
            font,
            #[trigger] chars.subrange(s, line_end(chars, s)),
            0,
            0,
        )
}

/// An error outcome of an aligned layout prefix persists through every
/// longer prefix.
pub proof fn lemma_aligned_error_sticks(
    font: FontReader,
    chars: Seq<char>,
    pos_x: int,
    pos_y: int,
    align: HorizontalAlignment,
    n: int,
    m: int,
)
    requires
        0 <= n <= m,
        !(aligned_prefix(font, chars, pos_x, pos_y, align, n) is Done),
    ensures
        aligned_prefix(font, chars, pos_x, pos_y, align, m) == aligned_prefix(
            font,
            chars,
            pos_x,
            pos_y,
            align,
            n,
        ),
    decreases m - n,
{
    if m > n {
        lemma_aligned_error_sticks(font, chars, pos_x, pos_y, align, n, m - 1);
    }
}

/// The number of newline characters in `chars`.
pub open spec fn newline_count(chars: Seq<char>) -> nat
    decreases chars.len(),
{
    if chars.len() == 0 {
        0
    } else {
        newline_count(chars.drop_last()) + (if chars.last() == '\n' {
            1nat
        } else {
            0nat
        })
    }
}

} // verus!
