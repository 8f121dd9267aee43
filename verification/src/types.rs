//! Data types used in common API functions: 2-D geometry, anchoring choices,
//! colors and rendered dimensions.

use vstd::prelude::*;

verus! {

/// A position or displacement on the pixel grid.
#[derive(Debug, Clone, Copy, PartialEq, Eq, Structural)]
pub struct Point {
    /// Horizontal coordinate, growing to the right.
    pub x: i32,
    /// Vertical coordinate, growing downwards.
    pub y: i32,
}

impl Point {
    /// Creates a new point.
    pub fn new(x: i32, y: i32) -> (p: Point)
        ensures
            p.x == x,
            p.y == y,
    {
        Point { x, y }
    }
}

/// The extent of a rectangle.
#[derive(Debug, Clone, Copy, PartialEq, Eq, Structural)]
pub struct Size {
    /// Horizontal extent in pixels.
    pub width: u32,
    /// Vertical extent in pixels.
    pub height: u32,
}

impl Size {
    /// Creates a new size.
    pub fn new(width: u32, height: u32) -> (s: Size)
        ensures
            s.width == width,
            s.height == height,
    {
        Size { width, height }
    }
}

/// An axis-aligned rectangle, given by its top-left corner and its size.
#[derive(Debug, Clone, Copy, PartialEq, Eq, Structural)]
pub struct Rectangle {
    /// The corner with the smallest coordinates.
    pub top_left: Point,
    /// The extent of the rectangle.
    pub size: Size,
}

impl Rectangle {
    /// Creates a new rectangle.
    pub fn new(top_left: Point, size: Size) -> (r: Rectangle)
        ensures
            r.top_left == top_left,
            r.size == size,
    {
        Rectangle { top_left, size }
    }
}

/// The vertical anchoring of rendered text, relative to the given position.
///
/// All metrics of this crate, like ascent and descent, are relative to
/// [`VerticalPosition::Baseline`].
#[derive(Debug, Clone, Copy, PartialEq, Eq, Structural)]
pub enum VerticalPosition {
    /// Anchored at the font baseline.
    Baseline,
    /// Anchored at the top.
    Top,
    /// Anchored at the center.
    Center,
    /// Anchored at the bottom.
    Bottom,
}

impl Default for VerticalPosition {
    /// The default vertical anchoring is the baseline.
    fn default() -> (v: Self)
        ensures
            v == VerticalPosition::Baseline,
    {
        VerticalPosition::Baseline
    }
}

/// The horizontal anchoring of rendered text, relative to the given position.
#[derive(Debug, Clone, Copy, PartialEq, Eq, Structural)]
pub enum HorizontalAlignment {
    /// Anchored at the left side.
    Left,
    /// Anchored at the center.
    Center,
    /// Anchored at the right side.
    Right,
}

/// The dimensions of a rendered glyph or text.
#[derive(Debug, Clone, PartialEq, Eq, Structural)]
pub struct RenderedDimensions {
    /// The relative offset where a following glyph would have to be rendered.
    pub advance: Point,
    /// The bounding box of the rendered text or glyph.
    ///
    /// `None` if nothing visible was rendered, like for a whitespace
    /// character.
    pub bounding_box: Option<Rectangle>,
}

impl RenderedDimensions {
    /// Creates an empty dimensions object: zero advance and no bounding box.
    pub fn empty() -> (d: Self)
        ensures
            d.advance.x == 0,
            d.advance.y == 0,
            d.bounding_box is None,
    {
        RenderedDimensions { advance: Point { x: 0, y: 0 }, bounding_box: None }
    }
}

/// The color of rendered text.
#[derive(Debug, Clone, Copy, PartialEq, Eq)]
pub enum FontColor<Color> {
    /// Only draw the glyph's own pixels, do not touch the background.
    Transparent(Color),
    /// Draw the glyph's pixels and fill its background.
    ///
    /// Not all fonts support rendering with a background color.
    WithBackground {
        /// The foreground color.
        fg: Color,
        /// The background color.
        bg: Color,
    },
}

impl<Color> FontColor<Color> {
    /// Whether this color requests the background to be filled.
    pub fn has_background(&self) -> (r: bool)
        ensures
            r == (self is WithBackground),
    {
        matches!(self, FontColor::WithBackground { .. })
    }
}

} // verus!
