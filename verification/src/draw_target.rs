//! The pixel surface the renderer draws to.

use crate::types::{Point, Rectangle};
use vstd::prelude::*;

verus! {

/// A pixel surface: something that accepts single pixels and rectangular
/// fills.
///
/// Everything the renderer hands to a surface is produced by a verified
/// function with an exact contract —
/// [`GlyphRenderer::decode_foreground_pixels`](crate::GlyphRenderer::decode_foreground_pixels)
/// for single pixels,
/// [`GlyphRenderer::decode_box_colors`](crate::GlyphRenderer::decode_box_colors)
/// for fills — and forwarded unchanged.
///
/// The renderer may hand out coordinates outside the surface's own bounds;
/// clipping is the surface's responsibility. A failure reported by the
/// surface aborts the rendering call that caused it; pixels drawn before the
/// failure remain.
pub trait DrawTarget {
    /// The surface's pixel color type.
    type Color: Copy;

    /// The surface's own error type.
    type Error;

    /// Draws one pixel.
    fn draw_pixel(&mut self, position: Point, color: Self::Color) -> Result<(), Self::Error>;

    /// Fills the rectangle `area` with the given colors, row-major from the
    /// top-left corner. Exactly one color per pixel of the area is handed in.
    fn fill_contiguous(&mut self, area: &Rectangle, colors: &Vec<Self::Color>) -> Result<
        (),
        Self::Error,
    >
        requires
            colors@.len() == area.size.width * area.size.height,
    ;
}

} // verus!
