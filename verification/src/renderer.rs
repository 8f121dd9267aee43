//! The font renderer: lays out characters, strings and multi-line text,
//! draws them onto a [`DrawTarget`](crate::DrawTarget), and measures them
//! without drawing.

use crate::content::{compute_vertical_offset_from_dynamic_newlines, Content};
use crate::combine_bounding_boxes::{combine_bounding_boxes, opt_rect_model, opt_rect_ok};
use crate::draw_target::DrawTarget;
use crate::error::{Error, LookupError};
use crate::font::{valid_font_blob, Font};
use crate::font_reader::FontReader;
use crate::layout::{
    aligned_in_range, aligned_layout_of, aligned_prefix, aligned_step, coord_ok, layout_in_range,
    layout_of, layout_prefix, layout_step, lemma_aligned_error_sticks, lemma_layout_error_sticks,
    lines_in_range, newline_count, vertical_offset_spec, LayoutOutcome,
};
use crate::glyph_renderer::content_renderable;
use crate::render_actions::{
    compute_glyph_dimensions, compute_horizontal_line_dimensions, compute_horizontal_offset,
    dims_match, lemma_horizontal_offset_agrees, render_glyph,
};
use crate::types::{
    FontColor, HorizontalAlignment, Point, Rectangle, RenderedDimensions, Size, VerticalPosition,
};
use vstd::prelude::*;

verus! {

/// Renders text of a specific [`Font`] to a [`DrawTarget`].
#[derive(Debug, Clone)]
pub struct FontRenderer {
    /// The decoded font metadata and the renderer configuration.
    pub font: FontReader,
}

/// What a renderer asks of every layout call: content that a `u32` can
/// count, newline arithmetic that stays in range, an anchor position within
/// the coordinate band, and a layout whose every intermediate state stays in
/// range.
pub open spec fn render_call_ok(
    font: FontReader,
    chars: Seq<char>,
    position: Point,
    vertical_pos: VerticalPosition,
) -> bool {
    let pos_y = position.y + vertical_offset_spec(font, vertical_pos, newline_count(chars) as int);
    &&& chars.len() <= u32::MAX
    &&& newline_count(chars) < 0x4000_0000
    &&& newline_count(chars) * font.line_height < 0x4000_0000
    &&& coord_ok(position.x as int)
    &&& coord_ok(pos_y)
    &&& layout_in_range(font, chars, position.x as int, pos_y)
}

/// What an aligned renderer call additionally asks: every line's own metrics
/// and every aligned intermediate state stay in range.
pub open spec fn aligned_call_ok(
    font: FontReader,
    chars: Seq<char>,
    position: Point,
    vertical_pos: VerticalPosition,
    align: HorizontalAlignment,
) -> bool {
    let pos_y = position.y + vertical_offset_spec(font, vertical_pos, newline_count(chars) as int);
    &&& chars.len() <= u32::MAX
    &&& newline_count(chars) < 0x4000_0000
    &&& newline_count(chars) * font.line_height < 0x4000_0000
    &&& coord_ok(position.x as int)
    &&& coord_ok(pos_y)
    &&& lines_in_range(font, chars)
    &&& aligned_in_range(font, chars, position.x as int, pos_y, align)
}

impl FontRenderer {
    /// The structural invariant of the renderer.
    pub open spec fn wf(&self) -> bool {
        self.font.wf()
    }

    /// Creates a new renderer for the given font.
    pub fn new<F: Font>() -> (r: Self)
        ensures
            r.wf(),
            r.font.matches_header(),
            valid_font_blob(r.font.data@),
            !r.font.ignore_unknown_glyphs,
            r.font.line_height == r.font.font_bounding_box_height + 1,
    {
        FontRenderer { font: FontReader::new::<F>() }
    }

    /// Switches the renderer to skip unrenderable characters instead of
    /// reporting an error.
    pub fn with_ignore_unknown_chars(self, ignore: bool) -> (r: Self)
        ensures
            r.font == (FontReader { ignore_unknown_glyphs: ignore, ..self.font }),
    {
        FontRenderer { font: self.font.with_ignore_unknown_glyphs(ignore) }
    }

    /// Overrides the line height: the vertical distance between the
    /// baselines of two adjacent lines, in pixels.
    pub fn with_line_height(self, line_height: u32) -> (r: Self)
        requires
            line_height < 0x8000_0000,
        ensures
            r.font == (FontReader { line_height, ..self.font }),
    {
        FontRenderer { font: self.font.with_line_height(line_height) }
    }

    /// Renders the content at `position` with the given vertical anchoring
    /// and color, and returns the dimensions of what was rendered.
    ///
    /// A background color is only legal for fonts that support one; that is
    /// checked before anything is drawn. Rendering aborts on the first
    /// failure; pixels drawn before it remain.
    pub fn render<C: Content, D: DrawTarget>(
        &self,
        content: C,
        position: Point,
        vertical_pos: VerticalPosition,
        color: FontColor<D::Color>,
        display: &mut D,
    ) -> (r: Result<RenderedDimensions, Error<D::Error>>)
        requires
            self.wf(),
            render_call_ok(self.font, content.chars(), position, vertical_pos),
        ensures
            ({
                let chars = content.chars();
                let pos_y = position.y + vertical_offset_spec(
                    self.font,
                    vertical_pos,
                    newline_count(chars) as int,
                );
                let bad_bg = color is WithBackground && !self.font.supports_background_color;
                &&& (bad_bg <==> r == Err::<RenderedDimensions, Error<D::Error>>(
                    Error::BackgroundColorNotSupported,
                ))
                &&& match r {
                    Ok(d) => layout_of(self.font, chars, position.x as int, pos_y)
                        matches LayoutOutcome::Done(st) && dims_match(d, st),
                    Err(Error::GlyphNotFound(c)) => layout_of(
                        self.font,
                        chars,
                        position.x as int,
                        pos_y,
                    ) == LayoutOutcome::NotFound(c),
                    Err(Error::InternalError) => layout_of(
                        self.font,
                        chars,
                        position.x as int,
                        pos_y,
                    ) is Corrupt || !content_renderable(self.font, chars),
                    Err(Error::BackgroundColorNotSupported) => true,
                    Err(Error::DisplayError(_)) => true,
                }
            }),
    {
        let ghost chars = content.chars();
        if color.has_background() && !self.font.supports_background_color {
            return Err(Error::BackgroundColorNotSupported);
        }

        let voffset = compute_vertical_offset_from_dynamic_newlines(
            &self.font,
            vertical_pos,
            &content,
        );
        let pos_x = position.x;
        let pos_y = position.y + voffset;

        let n = content.length();
        let mut advance = Point { x: 0, y: 0 };
        let mut bounding_box: Option<Rectangle> = None;
        let mut i: usize = 0;

        loop
            invariant
                self.wf(),
                !(color is WithBackground) || self.font.supports_background_color,
                chars == content.chars(),
                i <= n == chars.len(),
                pos_x == position.x,
                pos_y == position.y + vertical_offset_spec(
                    self.font,
                    vertical_pos,
                    newline_count(chars) as int,
                ),
                coord_ok(pos_x as int),
                coord_ok(pos_y as int),
                layout_in_range(self.font, chars, pos_x as int, pos_y as int),
                layout_prefix(self.font, chars, pos_x as int, pos_y as int, i as int)
                    matches LayoutOutcome::Done(st) && advance.x == st.adv_x && advance.y
                    == st.adv_y && opt_rect_model(bounding_box) == st.bbox,
                opt_rect_ok(bounding_box),
            decreases n - i,
        {
            if i >= n {
                return Ok(RenderedDimensions { advance, bounding_box });
            }
            let ch = content.char_at(i);
            let ghost st = layout_prefix(
                self.font,
                chars,
                pos_x as int,
                pos_y as int,
                i as int,
            )->Done_0;
            proof {
                assert(layout_prefix(self.font, chars, pos_x as int, pos_y as int, i + 1)
                    == layout_step(self.font, st, chars[i as int], pos_x as int, pos_y as int));
            }
            if ch == '\n' {
                advance.x = 0;
                advance.y = advance.y + self.font.line_height as i32;
            } else {
                let d = match render_glyph(
                    ch,
                    Point { x: pos_x + advance.x, y: pos_y + advance.y },
                    color,
                    &self.font,
                    display,
                ) {
                    Ok(d) => d,
                    Err(Error::DisplayError(e)) => {
                        return Err(Error::DisplayError(e));
                    },
                    Err(Error::GlyphNotFound(c)) => {
                        proof {
                            lemma_layout_error_sticks(
                                self.font,
                                chars,
                                pos_x as int,
                                pos_y as int,
                                i + 1,
                                chars.len() as int,
                            );
                        }
                        return Err(Error::GlyphNotFound(c));
                    },
                    Err(_) => {
                        proof {
                            if crate::layout::glyph_of(self.font, ch) is Corrupt {
                                lemma_layout_error_sticks(
                                    self.font,
                                    chars,
                                    pos_x as int,
                                    pos_y as int,
                                    i + 1,
                                    chars.len() as int,
                                );
                            }
                        }
                        return Err(Error::InternalError);
                    },
                };
                advance.x = advance.x + d.advance.x;
                bounding_box = combine_bounding_boxes(bounding_box, d.bounding_box);
            }
            i = i + 1;
        }
    }

    /// Computes the dimensions that [`render`](Self::render) with the same
    /// arguments would produce, without drawing anything.
    pub fn get_rendered_dimensions<C: Content>(
        &self,
        content: C,
        position: Point,
        vertical_pos: VerticalPosition,
    ) -> (r: Result<RenderedDimensions, LookupError>)
        requires
            self.wf(),
            render_call_ok(self.font, content.chars(), position, vertical_pos),
        ensures
            ({
                let chars = content.chars();
                let pos_y = position.y + vertical_offset_spec(
                    self.font,
                    vertical_pos,
                    newline_count(chars) as int,
                );
                match r {
                    Ok(d) => layout_of(self.font, chars, position.x as int, pos_y)
                        matches LayoutOutcome::Done(st) && dims_match(d, st),
                    Err(LookupError::GlyphNotFound(c)) => layout_of(
                        self.font,
                        chars,
                        position.x as int,
                        pos_y,
                    ) == LayoutOutcome::NotFound(c),
                    Err(LookupError::InternalError) => layout_of(
                        self.font,
                        chars,
                        position.x as int,
                        pos_y,
                    ) is Corrupt,
                }
            }),
    {
        let ghost chars = content.chars();
        let voffset = compute_vertical_offset_from_dynamic_newlines(
            &self.font,
            vertical_pos,
            &content,
        );
        let pos_x = position.x;
        let pos_y = position.y + voffset;

        let n = content.length();
        let mut advance = Point { x: 0, y: 0 };
        let mut bounding_box: Option<Rectangle> = None;
        let mut i: usize = 0;

        loop
            invariant
                self.wf(),
                chars == content.chars(),
                i <= n == chars.len(),
                pos_x == position.x,
                pos_y == position.y + vertical_offset_spec(
                    self.font,
                    vertical_pos,
                    newline_count(chars) as int,
                ),
                coord_ok(pos_x as int),
                coord_ok(pos_y as int),
                layout_in_range(self.font, chars, pos_x as int, pos_y as int),
                layout_prefix(self.font, chars, pos_x as int, pos_y as int, i as int)
                    matches LayoutOutcome::Done(st) && advance.x == st.adv_x && advance.y
                    == st.adv_y && opt_rect_model(bounding_box) == st.bbox,
                opt_rect_ok(bounding_box),
            decreases n - i,
        {
            if i >= n {
                return Ok(RenderedDimensions { advance, bounding_box });
            }
            let ch = content.char_at(i);
            let ghost st = layout_prefix(
                self.font,
                chars,
                pos_x as int,
                pos_y as int,
                i as int,
            )->Done_0;
            proof {
                assert(layout_prefix(self.font, chars, pos_x as int, pos_y as int, i + 1)
                    == layout_step(self.font, st, chars[i as int], pos_x as int, pos_y as int));
            }
            if ch == '\n' {
                advance.x = 0;
                advance.y = advance.y + self.font.line_height as i32;
            } else {
                let d = match compute_glyph_dimensions(
                    ch,
                    Point { x: pos_x + advance.x, y: pos_y + advance.y },
                    &self.font,
                ) {
                    Ok(d) => d,
                    Err(e) => {
                        proof {
                            lemma_layout_error_sticks(
                                self.font,
                                chars,
                                pos_x as int,
                                pos_y as int,
                                i + 1,
                                chars.len() as int,
                            );
                        }
                        return Err(e);
                    },
                };
                advance.x = advance.x + d.advance.x;
                bounding_box = combine_bounding_boxes(bounding_box, d.bounding_box);
            }
            i = i + 1;
        }
    }

    /// Renders the content with both vertical anchoring and horizontal
    /// alignment. Each line is measured before it is drawn, so that its
    /// alignment shift is known; the first failure aborts the call.
    ///
    /// Returns the bounding box of what was rendered; an advance would be
    /// meaningless under alignment.
    pub fn render_aligned<C: Content, D: DrawTarget>(
        &self,
        content: C,
        position: Point,
        vertical_pos: VerticalPosition,
        horizontal_align: HorizontalAlignment,
        color: FontColor<D::Color>,
        display: &mut D,
    ) -> (r: Result<Option<Rectangle>, Error<D::Error>>)
        requires
            self.wf(),
            aligned_call_ok(
                self.font,
                content.chars(),
                position,
                vertical_pos,
                horizontal_align,
            ),
        ensures
            ({
                let chars = content.chars();
                let pos_y = position.y + vertical_offset_spec(
                    self.font,
                    vertical_pos,
                    newline_count(chars) as int,
                );
                let bad_bg = color is WithBackground && !self.font.supports_background_color;
                &&& (bad_bg <==> r == Err::<Option<Rectangle>, Error<D::Error>>(
                    Error::BackgroundColorNotSupported,
                ))
                &&& match r {
                    Ok(b) => aligned_layout_of(
                        self.font,
                        chars,
                        position.x as int,
                        pos_y,
                        horizontal_align,
                    ) matches LayoutOutcome::Done(st) && opt_rect_model(b) == st.bbox,
                    Err(Error::GlyphNotFound(c)) => aligned_layout_of(
                        self.font,
                        chars,
                        position.x as int,
                        pos_y,
                        horizontal_align,
                    ) == LayoutOutcome::NotFound(c),
                    Err(Error::InternalError) => aligned_layout_of(
                        self.font,
                        chars,
                        position.x as int,
                        pos_y,
                        horizontal_align,
                    ) is Corrupt || !content_renderable(self.font, chars),
                    Err(Error::BackgroundColorNotSupported) => true,
                    Err(Error::DisplayError(_)) => true,
                }
            }),
    {
        let ghost chars = content.chars();
        if color.has_background() && !self.font.supports_background_color {
            return Err(Error::BackgroundColorNotSupported);
        }

        let voffset = compute_vertical_offset_from_dynamic_newlines(
            &self.font,
            vertical_pos,
            &content,
        );
        let pos_x = position.x;
        let pos_y = position.y + voffset;
        let ghost align = horizontal_align;

        let n = content.length();

        let first_line = match compute_horizontal_line_dimensions(&content, 0, &self.font) {
            Ok(d) => d,
            Err(e) => {
                proof {
                    lemma_aligned_error_sticks(
                        self.font,
                        chars,
                        pos_x as int,
                        pos_y as int,
                        align,
                        0,
                        chars.len() as int,
                    );
                }
                return Err(Error::from_lookup(e));
            },
        };
        proof {
            let l = crate::layout::line_metrics(self.font, chars, 0)->Done_0;
            lemma_horizontal_offset_agrees(align, first_line, l);
            assert(aligned_prefix(self.font, chars, pos_x as int, pos_y as int, align, 0)
                is Done);
        }
        let mut advance = Point {
            x: compute_horizontal_offset(horizontal_align, first_line),
            y: 0,
        };
        let mut bounding_box: Option<Rectangle> = None;
        let mut i: usize = 0;

        loop
            invariant
                self.wf(),
                !(color is WithBackground) || self.font.supports_background_color,
                chars == content.chars(),
                align == horizontal_align,
                i <= n == chars.len(),
                pos_x == position.x,
                pos_y == position.y + vertical_offset_spec(
                    self.font,
                    vertical_pos,
                    newline_count(chars) as int,
                ),
                coord_ok(pos_x as int),
                coord_ok(pos_y as int),
                lines_in_range(self.font, chars),
                aligned_in_range(self.font, chars, pos_x as int, pos_y as int, align),
                aligned_prefix(self.font, chars, pos_x as int, pos_y as int, align, i as int)
                    matches LayoutOutcome::Done(st) && advance.x == st.adv_x && advance.y
                    == st.adv_y && opt_rect_model(bounding_box) == st.bbox,
                opt_rect_ok(bounding_box),
            decreases n - i,
        {
            if i >= n {
                return Ok(bounding_box);
            }
            let ch = content.char_at(i);
            let ghost st = aligned_prefix(
                self.font,
                chars,
                pos_x as int,
                pos_y as int,
                align,
                i as int,
            )->Done_0;
            proof {
                assert(aligned_prefix(self.font, chars, pos_x as int, pos_y as int, align, i + 1)
                    == aligned_step(
                    self.font,
                    chars,
                    i as int,
                    st,
                    pos_x as int,
                    pos_y as int,
                    align,
                ));
            }
            if ch == '\n' {
                let line = match compute_horizontal_line_dimensions(&content, i + 1, &self.font) {
                    Ok(d) => d,
                    Err(e) => {
                        proof {
                            lemma_aligned_error_sticks(
                                self.font,
                                chars,
                                pos_x as int,
                                pos_y as int,
                                align,
                                i + 1,
                                chars.len() as int,
                            );
                        }
                        return Err(Error::from_lookup(e));
                    },
                };
                proof {
                    let l = crate::layout::line_metrics(self.font, chars, i + 1)->Done_0;
                    lemma_horizontal_offset_agrees(align, line, l);
                }
                advance.x = compute_horizontal_offset(horizontal_align, line);
                advance.y = advance.y + self.font.line_height as i32;
            } else {
                let d = match render_glyph(
                    ch,
                    Point { x: pos_x + advance.x, y: pos_y + advance.y },
                    color,
                    &self.font,
                    display,
                ) {
                    Ok(d) => d,
                    Err(Error::DisplayError(e)) => {
                        return Err(Error::DisplayError(e));
                    },
                    Err(Error::GlyphNotFound(c)) => {
                        proof {
                            lemma_aligned_error_sticks(
                                self.font,
                                chars,
                                pos_x as int,
                                pos_y as int,
                                align,
                                i + 1,
                                chars.len() as int,
                            );
                        }
                        return Err(Error::GlyphNotFound(c));
                    },
                    Err(_) => {
                        proof {
                            if crate::layout::glyph_of(self.font, ch) is Corrupt {
                                lemma_aligned_error_sticks(
                                    self.font,
                                    chars,
                                    pos_x as int,
                                    pos_y as int,
                                    align,
                                    i + 1,
                                    chars.len() as int,
                                );
                            }
                        }
                        return Err(Error::InternalError);
                    },
                };
                advance.x = advance.x + d.advance.x;
                bounding_box = combine_bounding_boxes(bounding_box, d.bounding_box);
            }
            i = i + 1;
        }
    }

    /// Computes the bounding box that [`render_aligned`](Self::render_aligned)
    /// with the same arguments would produce, without drawing anything.
    pub fn get_rendered_dimensions_aligned<C: Content>(
        &self,
        content: C,
        position: Point,
        vertical_pos: VerticalPosition,
        horizontal_align: HorizontalAlignment,
    ) -> (r: Result<Option<Rectangle>, LookupError>)
        requires
            self.wf(),
            aligned_call_ok(
                self.font,
                content.chars(),
                position,
                vertical_pos,
                horizontal_align,
            ),
        ensures
            ({
                let chars = content.chars();
                let pos_y = position.y + vertical_offset_spec(
                    self.font,
                    vertical_pos,
                    newline_count(chars) as int,
                );
                match r {
                    Ok(b) => aligned_layout_of(
                        self.font,
                        chars,
                        position.x as int,
                        pos_y,
                        horizontal_align,
                    ) matches LayoutOutcome::Done(st) && opt_rect_model(b) == st.bbox,
                    Err(LookupError::GlyphNotFound(c)) => aligned_layout_of(
                        self.font,
                        chars,
                        position.x as int,
                        pos_y,
                        horizontal_align,
                    ) == LayoutOutcome::NotFound(c),
                    Err(LookupError::InternalError) => aligned_layout_of(
                        self.font,
                        chars,
                        position.x as int,
                        pos_y,
                        horizontal_align,
                    ) is Corrupt,
                }
            }),
    {
        let ghost chars = content.chars();
        let voffset = compute_vertical_offset_from_dynamic_newlines(
            &self.font,
            vertical_pos,
            &content,
        );
        let pos_x = position.x;
        let pos_y = position.y + voffset;
        let ghost align = horizontal_align;

        let n = content.length();

        let first_line = match compute_horizontal_line_dimensions(&content, 0, &self.font) {
            Ok(d) => d,
            Err(e) => {
                proof {
                    lemma_aligned_error_sticks(
                        self.font,
                        chars,
                        pos_x as int,
                        pos_y as int,
                        align,
                        0,
                        chars.len() as int,
                    );
                }
                return Err(e);
            },
        };
        proof {
            let l = crate::layout::line_metrics(self.font, chars, 0)->Done_0;
            lemma_horizontal_offset_agrees(align, first_line, l);
        }
        let mut advance = Point {
            x: compute_horizontal_offset(horizontal_align, first_line),
            y: 0,
        };
        let mut bounding_box: Option<Rectangle> = None;
        let mut i: usize = 0;

        loop
            invariant
                self.wf(),
                chars == content.chars(),
                align == horizontal_align,
                i <= n == chars.len(),
                pos_x == position.x,
                pos_y == position.y + vertical_offset_spec(
                    self.font,
                    vertical_pos,
                    newline_count(chars) as int,
                ),
                coord_ok(pos_x as int),
                coord_ok(pos_y as int),
                lines_in_range(self.font, chars),
                aligned_in_range(self.font, chars, pos_x as int, pos_y as int, align),
                aligned_prefix(self.font, chars, pos_x as int, pos_y as int, align, i as int)
                    matches LayoutOutcome::Done(st) && advance.x == st.adv_x && advance.y
                    == st.adv_y && opt_rect_model(bounding_box) == st.bbox,
                opt_rect_ok(bounding_box),
            decreases n - i,
        {
            if i >= n {
                return Ok(bounding_box);
            }
            let ch = content.char_at(i);
            let ghost st = aligned_prefix(
                self.font,
                chars,
                pos_x as int,
                pos_y as int,
                align,
                i as int,
            )->Done_0;
            proof {
                assert(aligned_prefix(self.font, chars, pos_x as int, pos_y as int, align, i + 1)
                    == aligned_step(
                    self.font,
                    chars,
                    i as int,
                    st,
                    pos_x as int,
                    pos_y as int,
                    align,
                ));
            }
            if ch == '\n' {
                let line = match compute_horizontal_line_dimensions(&content, i + 1, &self.font) {
                    Ok(d) => d,
                    Err(e) => {
                        proof {
                            lemma_aligned_error_sticks(
                                self.font,
                                chars,
                                pos_x as int,
                                pos_y as int,
                                align,
                                i + 1,
                                chars.len() as int,
                            );
                        }
                        return Err(e);
                    },
                };
                proof {
                    let l = crate::layout::line_metrics(self.font, chars, i + 1)->Done_0;
                    lemma_horizontal_offset_agrees(align, line, l);
                }
                advance.x = compute_horizontal_offset(horizontal_align, line);
                advance.y = advance.y + self.font.line_height as i32;
            } else {
                let d = match compute_glyph_dimensions(
                    ch,
                    Point { x: pos_x + advance.x, y: pos_y + advance.y },
                    &self.font,
                ) {
                    Ok(d) => d,
                    Err(e) => {
                        proof {
                            lemma_aligned_error_sticks(
                                self.font,
                                chars,
                                pos_x as int,
                                pos_y as int,
                                align,
                                i + 1,
                                chars.len() as int,
                            );
                        }
                        return Err(e);
                    },
                };
                advance.x = advance.x + d.advance.x;
                bounding_box = combine_bounding_boxes(bounding_box, d.bounding_box);
            }
            i = i + 1;
        }
    }

    /// The ascent of the font: usually a positive number.
    pub fn get_ascent(&self) -> (r: i8)
        ensures
            r == self.font.ascent,
    {
        self.font.ascent
    }

    /// The descent of the font: usually a negative number.
    pub fn get_descent(&self) -> (r: i8)
        ensures
            r == self.font.descent,
    {
        self.font.descent
    }

    /// The maximum possible bounding box of all glyphs of the font, rendered
    /// at the origin with the given vertical anchoring.
    pub fn get_font_bounding_box(&self, vertical_pos: VerticalPosition) -> (r: Rectangle)
        requires
            self.wf(),
        ensures
            r.top_left.x == self.font.font_bounding_box_x_offset,
            r.top_left.y == vertical_offset_spec(self.font, vertical_pos, 0) - (
            self.font.font_bounding_box_height + self.font.font_bounding_box_y_offset),
            r.size.width == self.font.font_bounding_box_width as u32,
            r.size.height == self.font.font_bounding_box_height as u32,
    {
        let y_offset = crate::vertical_offset::compute_vertical_offset_from_static_newlines(
            &self.font,
            vertical_pos,
            0,
        );
        Rectangle {
            top_left: Point {
                x: self.font.font_bounding_box_x_offset as i32,
                y: y_offset - (self.font.font_bounding_box_height as i32
                    + self.font.font_bounding_box_y_offset as i32),
            },
            size: Size {
                width: self.font.font_bounding_box_width as u32,
                height: self.font.font_bounding_box_height as u32,
            },
        }
    }

    /// The default line height of the font: the height of the font bounding
    /// box plus one pixel.
    pub fn get_default_line_height(&self) -> (r: u32)
        requires
            self.wf(),
        ensures
            r == self.font.font_bounding_box_height + 1,
    {
        self.font.get_default_line_height() as u32
    }
}

} // verus!
