//! A decoder and text-layout engine for a compact, bit-packed bitmap font
//! format, aimed at memory-constrained pixel displays.
//!
//! The central type is [`FontRenderer`]: it decodes glyphs out of a packed
//! font blob and renders single characters or multi-line text onto any
//! [`DrawTarget`], with vertical anchoring and optional horizontal alignment.
//! The measurement twins of the render calls compute the same layout without
//! touching the surface.

mod bitstream;
mod combine_bounding_boxes;
mod content;
mod draw_target;
mod error;
mod font;
mod font_data;
mod font_reader;
mod glyph_reader;
mod glyph_renderer;
mod glyph_searcher;
mod horizontal_rendered_dimensions;
mod laws;
mod layout;
mod render_actions;
mod renderer;
mod types;
mod unicode_jumptable_reader;
mod vertical_offset;

pub use combine_bounding_boxes::combine_bounding_boxes;
pub use combine_bounding_boxes::opt_rect_model;
pub use combine_bounding_boxes::opt_rect_ok;
pub use combine_bounding_boxes::rect_model;
pub use content::compute_vertical_offset_from_dynamic_newlines;
pub use content::get_newline_count;
pub use content::Content;
pub use draw_target::DrawTarget;
pub use error::Error;
pub use error::LookupError;
pub use font::valid_font_blob;
pub use font::Font;
pub use font::FONT_HEADER_SIZE;
pub use font_data::consume_font_data;
pub use font_data::write_byte;
pub use font_data::DecodeState;
pub use font_data::FontDataError;
pub use font_reader::be16;
pub use font_reader::FontReader;
pub use glyph_reader::GlyphReader;
pub use glyph_renderer::bitmap_decodes;
pub use glyph_renderer::box_fill_colors;
pub use glyph_renderer::content_renderable;
pub use glyph_renderer::foreground_points;
pub use glyph_renderer::rle_decode;
pub use glyph_renderer::rle_step;
pub use glyph_renderer::GlyphRenderer;
pub use glyph_renderer::RleState;
pub use glyph_searcher::GlyphSearcher;
pub use laws::alignment_delta;
pub use laws::lemma_aligned_boxes_differ_only_in_x;
pub use laws::lemma_aligned_prefix_parallel;
pub use laws::lemma_aligned_render_measure_parity;
pub use laws::lemma_combine_rects_shift;
pub use laws::shifted_boxes;
pub use laws::lemma_alignment_offsets_ordered;
pub use laws::lemma_glyph_measure_draw_parity;
pub use laws::lemma_render_measure_parity;
pub use laws::lemma_rle_round_trip;
pub use laws::lemma_vertical_centering_single_line;
pub use laws::lemma_vertical_centering_symmetry;
pub use laws::run_seq;
pub use render_actions::compute_glyph_dimensions;
pub use render_actions::compute_horizontal_glyph_dimensions;
pub use render_actions::compute_horizontal_line_dimensions;
pub use render_actions::compute_horizontal_offset;
pub use render_actions::render_glyph;
pub use renderer::aligned_call_ok;
pub use renderer::render_call_ok;
pub use renderer::FontRenderer;
pub use horizontal_rendered_dimensions::HorizontalRenderedDimensions;
pub use types::FontColor;
pub use types::HorizontalAlignment;
pub use types::Point;
pub use types::Rectangle;
pub use types::RenderedDimensions;
pub use types::Size;
pub use types::VerticalPosition;
pub use unicode_jumptable_reader::UnicodeJumptableEntry;
pub use unicode_jumptable_reader::UnicodeJumptableReader;
pub use vertical_offset::compute_vertical_offset_from_static_newlines;
