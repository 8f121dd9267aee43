//! The per-glyph and per-line actions of the layout engine: computing glyph
//! dimensions, line metrics and alignment offsets.

use crate::content::Content;
use crate::error::LookupError;
use crate::font_reader::FontReader;
use crate::horizontal_rendered_dimensions::HorizontalRenderedDimensions;
use crate::layout::{
    glyph_box, glyph_of, horizontal_offset_spec, layout_of, layout_prefix, layout_step, line_end,
    GlyphOutcome, LayoutOutcome, LayoutRect, LayoutState,
};
use crate::types::{HorizontalAlignment, Point, Rectangle, RenderedDimensions, Size};
use vstd::prelude::*;

verus! {

/// The optional-box model of horizontal dimensions: width zero means no box.
pub open spec fn hrd_box_model(d: HorizontalRenderedDimensions) -> Option<LayoutRect> {
    if d.bounding_box_width == 0 {
        None
    } else {
        Some(
            LayoutRect {
                x: d.bounding_box_offset as int,
                y: 0,
                w: d.bounding_box_width as int,
                h: 1,
            },
        )
    }
}

/// Whether the horizontal dimensions `d` agree with the layout state `st` on
/// the horizontal axis: same advance, and the same bounding-box offset and
/// width.
pub open spec fn hrd_matches(d: HorizontalRenderedDimensions, st: LayoutState) -> bool {
    &&& d.advance == st.adv_x
    &&& match st.bbox {
        Some(r) => d.bounding_box_width == r.w && d.bounding_box_offset == r.x,
        None => d.bounding_box_width == 0 && d.bounding_box_offset == 0,
    }
}

/// Whether `d` is exactly what measuring or drawing the glyph of `ch` at
/// `(pos_x, pos_y)` yields: the glyph's advance and its bounding box, or
/// empty dimensions for an ignored unknown character. No dimensions satisfy
/// this for a corrupt blob.
pub open spec fn glyph_dims_spec(
    font: FontReader,
    ch: char,
    pos_x: int,
    pos_y: int,
    d: RenderedDimensions,
) -> bool {
    match glyph_of(font, ch) {
        GlyphOutcome::Glyph { width, height, off_x, off_y, adv } => {
            &&& d.advance.x == adv
            &&& d.advance.y == 0
            &&& crate::combine_bounding_boxes::opt_rect_model(d.bounding_box) == glyph_box(
                width,
                height,
                off_x,
                off_y,
                pos_x,
                pos_y,
            )
        },
        GlyphOutcome::Missing => {
            &&& font.ignore_unknown_glyphs
            &&& d.advance.x == 0
            &&& d.advance.y == 0
            &&& d.bounding_box is None
        },
        GlyphOutcome::Corrupt => false,
    }
}

/// Whether the rendered dimensions `d` agree with the layout state `st`.
pub open spec fn dims_match(d: RenderedDimensions, st: LayoutState) -> bool {
    &&& d.advance.x == st.adv_x
    &&& d.advance.y == st.adv_y
    &&& match (d.bounding_box, st.bbox) {
        (Some(b), Some(r)) => b.top_left.x == r.x && b.top_left.y == r.y && b.size.width == r.w
            && b.size.height == r.h,
        (None, None) => true,
        _ => false,
    }
}

/// Computes the horizontal shift for drawing a line with the given metrics
/// under the given alignment.
pub fn compute_horizontal_offset(
    horizontal_align: HorizontalAlignment,
    line_dimensions: HorizontalRenderedDimensions,
) -> (r: i32)
    requires
        line_dimensions.wf(),
    ensures
        r == horizontal_offset_spec(
            horizontal_align,
            line_dimensions.advance as int,
            hrd_box_model(line_dimensions),
        ),
{
    match horizontal_align {
        HorizontalAlignment::Left => {
            // shifting everything by one looks more symmetric around the
            // anchor point
            1
        },
        HorizontalAlignment::Center => {
            if line_dimensions.bounding_box_width == 0 {
                0
            } else {
                let width = line_dimensions.bounding_box_width;
                let left = line_dimensions.bounding_box_offset;
                let shift: i64 = (width as i64) / 2 + left as i64;
                (-shift) as i32
            }
        },
        HorizontalAlignment::Right => {
            // one less, so that the last pixel column lands on the anchor
            1 - line_dimensions.advance
        },
    }
}

/// Computes the dimensions that rendering the glyph of `ch` at `position`
/// would produce, without rendering anything. An unmapped character counts
/// as empty when the font ignores unknown glyphs.
pub fn compute_glyph_dimensions(ch: char, position: Point, font: &FontReader) -> (r: Result<
    RenderedDimensions,
    LookupError,
>)
    requires
        font.wf(),
        -0x4000_0300 <= position.x <= 0x4000_0300,
        -0x4000_0300 <= position.y <= 0x4000_0300,
    ensures
        match r {
            Ok(d) => glyph_dims_spec(*font, ch, position.x as int, position.y as int, d)
                && crate::combine_bounding_boxes::opt_rect_ok(d.bounding_box),
            Err(LookupError::GlyphNotFound(c)) => {
                &&& c == ch
                &&& !font.ignore_unknown_glyphs
                &&& glyph_of(*font, ch) is Missing
            },
            Err(LookupError::InternalError) => glyph_of(*font, ch) is Corrupt,
        },
{
    let glyph = match font.try_retrieve_glyph_data(ch) {
        Ok(Some(g)) => g,
        Ok(None) => {
            return Ok(RenderedDimensions::empty());
        },
        Err(e) => {
            return Err(e);
        },
    };

    let advance = glyph.advance();
    let width = glyph.glyph_width;
    let height = glyph.glyph_height;

    let bounding_box = if width > 0 && height > 0 {
        Some(
            Rectangle {
                top_left: Point {
                    x: position.x + glyph.offset_x as i32,
                    y: position.y - (height as i32 + glyph.offset_y as i32),
                },
                size: Size { width: width as u32, height: height as u32 },
            },
        )
    } else {
        None
    };

    Ok(
        RenderedDimensions {
            advance: Point { x: advance as i32, y: 0 },
            bounding_box,
        },
    )
}

/// Computes the horizontal dimensions of the glyph of `ch` for a pen at
/// `position_x` on the baseline.
pub fn compute_horizontal_glyph_dimensions(ch: char, position_x: i32, font: &FontReader) -> (r:
    Result<HorizontalRenderedDimensions, LookupError>)
    requires
        font.wf(),
        -0x4000_0300 <= position_x <= 0x4000_0300,
    ensures
        match r {
            Ok(d) => match glyph_of(*font, ch) {
                GlyphOutcome::Glyph { width, height, off_x, off_y, adv } => {
                    &&& d.advance == adv
                    &&& match glyph_box(width, height, off_x, off_y, position_x as int, 0) {
                        Some(r) => d.bounding_box_width == r.w && d.bounding_box_offset == r.x,
                        None => d.bounding_box_width == 0 && d.bounding_box_offset == 0,
                    }
                },
                GlyphOutcome::Missing => {
                    &&& font.ignore_unknown_glyphs
                    &&& d.advance == 0
                    &&& d.bounding_box_width == 0
                    &&& d.bounding_box_offset == 0
                },
                GlyphOutcome::Corrupt => false,
            },
            Err(LookupError::GlyphNotFound(c)) => {
                &&& c == ch
                &&& !font.ignore_unknown_glyphs
                &&& glyph_of(*font, ch) is Missing
            },
            Err(LookupError::InternalError) => glyph_of(*font, ch) is Corrupt,
        },
{
    let glyph = match font.try_retrieve_glyph_data(ch) {
        Ok(Some(g)) => g,
        Ok(None) => {
            return Ok(HorizontalRenderedDimensions::empty());
        },
        Err(e) => {
            return Err(e);
        },
    };

    let advance = glyph.advance() as i32;
    let width = glyph.glyph_width;
    let height = glyph.glyph_height;

    if width > 0 && height > 0 {
        Ok(
            HorizontalRenderedDimensions {
                advance,
                bounding_box_offset: position_x + glyph.offset_x as i32,
                bounding_box_width: width as u32,
            },
        )
    } else {
        Ok(
            HorizontalRenderedDimensions {
                advance,
                bounding_box_offset: 0,
                bounding_box_width: 0,
            },
        )
    }
}

/// Computes the horizontal metrics of the line of `content` that starts at
/// character index `start`: its total advance and its bounding box, as laid
/// out at the origin.
pub fn compute_horizontal_line_dimensions<C: Content>(
    content: &C,
    start: usize,
    font: &FontReader,
) -> (r: Result<HorizontalRenderedDimensions, LookupError>)
    requires
        font.wf(),
        start <= content.chars().len(),
        crate::layout::layout_in_range(
            *font,
            content.chars().subrange(start as int, line_end(content.chars(), start as int)),
            0,
            0,
        ),
    ensures
        ({
            let line = content.chars().subrange(
                start as int,
                line_end(content.chars(), start as int),
            );
            match r {
                Ok(d) => layout_of(*font, line, 0, 0) matches LayoutOutcome::Done(st)
                    && hrd_matches(d, st) && d.wf(),
                Err(LookupError::GlyphNotFound(c)) => layout_of(*font, line, 0, 0)
                    == LayoutOutcome::NotFound(c),
                Err(LookupError::InternalError) => layout_of(*font, line, 0, 0)
                    is Corrupt,
            }
        }),
{
    let ghost chars = content.chars();
    let ghost lend = line_end(chars, start as int);
    let ghost line = chars.subrange(start as int, lend);
    proof {
        lemma_line_end(chars, start as int);
    }

    let len = content.length();
    let mut dims = HorizontalRenderedDimensions::empty();
    let mut i = start;

    loop
        invariant
            font.wf(),
            chars == content.chars(),
            lend == line_end(chars, start as int),
            line == chars.subrange(start as int, lend),
            start <= i <= lend <= len,
            len == chars.len(),
            forall|j: int| start <= j < lend ==> chars[j] != '\n',
            lend == len || chars[lend] == '\n',
            crate::layout::layout_in_range(*font, line, 0, 0),
            layout_prefix(*font, line, 0, 0, i - start) matches LayoutOutcome::Done(st)
                && hrd_matches(dims, st),
            dims.wf(),
        decreases len - i,
    {
        if i >= len {
            proof {
                assert(lend == len);
                assert(line.len() == lend - start);
            }
            return Ok(dims);
        }
        let ch = content.char_at(i);
        if ch == '\n' {
            proof {
                assert(i == lend);
                assert(line.len() == lend - start);
            }
            return Ok(dims);
        }
        proof {
            assert(i < lend);
            assert(line[i - start] == chars[i as int]);
        }

        let ghost pre = layout_prefix(*font, line, 0, 0, i - start)->Done_0;
        let d = match compute_horizontal_glyph_dimensions(ch, dims.advance, font) {
            Ok(d) => d,
            Err(e) => {
                proof {
                    assert(layout_prefix(*font, line, 0, 0, i - start + 1) == layout_step(
                        *font,
                        pre,
                        line[i - start],
                        0,
                        0,
                    ));
                    crate::layout::lemma_layout_error_sticks(
                        *font,
                        line,
                        0,
                        0,
                        i - start + 1,
                        line.len() as int,
                    );
                }
                return Err(e);
            },
        };
        proof {
            assert(layout_prefix(*font, line, 0, 0, i - start + 1) == layout_step(
                *font,
                pre,
                line[i - start],
                0,
                0,
            ));
            assert(layout_prefix(*font, line, 0, 0, i - start + 1) is Done);
            assert(crate::layout::state_ok(
                layout_prefix(*font, line, 0, 0, i - start + 1)->Done_0,
            ));
        }
        dims.add(d);
        i = i + 1;
    }
}

/// Renders the glyph of `ch` at `position` and returns its dimensions: drawn
/// transparently for a plain color, as a filled box for a color with
/// background. An unmapped character renders as nothing when the font
/// ignores unknown glyphs.
pub fn render_glyph<D: crate::draw_target::DrawTarget>(
    ch: char,
    position: Point,
    color: crate::types::FontColor<D::Color>,
    font: &FontReader,
    display: &mut D,
) -> (r: Result<RenderedDimensions, crate::error::Error<D::Error>>)
    requires
        font.wf(),
        -0x4000_0300 <= position.x <= 0x4000_0300,
        -0x4000_0300 <= position.y <= 0x4000_0300,
    ensures
        match r {
            Ok(d) => glyph_dims_spec(*font, ch, position.x as int, position.y as int, d)
                && crate::combine_bounding_boxes::opt_rect_ok(d.bounding_box)
                && crate::glyph_renderer::bitmap_decodes(*font, ch),
            Err(crate::error::Error::GlyphNotFound(c)) => {
                &&& c == ch
                &&& !font.ignore_unknown_glyphs
                &&& glyph_of(*font, ch) is Missing
            },
            Err(crate::error::Error::InternalError) => glyph_of(*font, ch) is Corrupt
                || !crate::glyph_renderer::bitmap_decodes(*font, ch),
            Err(crate::error::Error::DisplayError(_)) => true,
            Err(crate::error::Error::BackgroundColorNotSupported) => false,
        },
{
    let glyph = match font.try_retrieve_glyph_data(ch) {
        Ok(Some(g)) => g,
        Ok(None) => {
            return Ok(RenderedDimensions::empty());
        },
        Err(e) => {
            return Err(crate::error::Error::from_lookup(e));
        },
    };

    let advance = glyph.advance();
    let width = glyph.glyph_width;
    let height = glyph.glyph_height;

    let bounding_box = if width > 0 && height > 0 {
        proof {
            assert(crate::glyph_renderer::bitmap_bits(*font, ch) == glyph.stream());
        }
        let renderer = match crate::glyph_renderer::GlyphRenderer::new(&glyph) {
            Ok(r) => r,
            Err(_) => {
                proof {
                    assert(!crate::glyph_renderer::bitmap_decodes(*font, ch));
                }
                return Err(crate::error::Error::InternalError);
            },
        };
        proof {
            let bits = crate::glyph_renderer::bitmap_bits(*font, ch);
            let m0 = font.m0 as nat;
            let m1 = font.m1 as nat;
            let z = crate::bitstream::bits_value(bits.subrange(0, m0 as int));
            let o = crate::bitstream::bits_value(bits.subrange(m0 as int, (m0 + m1) as int));
            assert(renderer.state() =~= (crate::glyph_renderer::RleState {
                bits: bits.skip((m0 + m1) as int),
                z,
                o,
                zl: z,
                ol: o,
            }));
        }
        let rect = match color {
            crate::types::FontColor::Transparent(c) => renderer.render_transparent(
                position,
                display,
                c,
            ),
            crate::types::FontColor::WithBackground { fg, bg } => renderer.render_as_box_fill(
                position,
                display,
                fg,
                bg,
            ),
        };
        match rect {
            Ok(rect) => Some(rect),
            Err(crate::error::Error::DisplayError(e)) => {
                return Err(crate::error::Error::DisplayError(e));
            },
            Err(_) => {
                proof {
                    assert(!crate::glyph_renderer::bitmap_decodes(*font, ch));
                }
                return Err(crate::error::Error::InternalError);
            },
        }
    } else {
        None
    };

    Ok(RenderedDimensions { advance: Point { x: advance as i32, y: 0 }, bounding_box })
}

/// The alignment shift of a line does not depend on how its metrics are
/// carried: horizontal dimensions that agree with a layout state give the
/// same shift as the state itself.
pub proof fn lemma_horizontal_offset_agrees(
    align: HorizontalAlignment,
    d: HorizontalRenderedDimensions,
    st: LayoutState,
)
    requires
        hrd_matches(d, st),
        match st.bbox {
            Some(r) => r.w >= 1,
            None => true,
        },
    ensures
        horizontal_offset_spec(align, d.advance as int, hrd_box_model(d)) == horizontal_offset_spec(
            align,
            st.adv_x,
            st.bbox,
        ),
{
}

/// The index right after the line that starts at `start` is no smaller than
/// `start`, no larger than the content, holds no newline before it, and is
/// either the end of the content or a newline.
pub proof fn lemma_line_end(chars: Seq<char>, start: int)
    requires
        0 <= start <= chars.len(),
    ensures
        start <= line_end(chars, start) <= chars.len(),
        forall|j: int| start <= j < line_end(chars, start) ==> chars[j] != '\n',
        line_end(chars, start) == chars.len() || chars[line_end(chars, start)] == '\n',
    decreases chars.len() - start,
{
    if start < chars.len() && chars[start] != '\n' {
        lemma_line_end(chars, start + 1);
    }
}

} // verus!
