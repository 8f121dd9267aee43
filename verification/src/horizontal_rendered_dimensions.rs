//! Rendered dimensions reduced to the horizontal axis: what per-line
//! alignment needs, and nothing more.

use vstd::prelude::*;

verus! {

/// The horizontal part of rendered dimensions: the advance, and the bounding
/// box reduced to its left offset and width. A width of zero means that the
/// line produced no bounding box; its offset is zero then.
#[derive(Debug, Clone, PartialEq, Eq, Structural)]
pub struct HorizontalRenderedDimensions {
    /// The advance in x direction.
    pub advance: i32,
    /// The width of the bounding box; 0 when there is no bounding box.
    pub bounding_box_width: u32,
    /// The left offset of the bounding box; 0 when there is no bounding box.
    pub bounding_box_offset: i32,
}

impl HorizontalRenderedDimensions {
    /// Whether the fields fit layout arithmetic: a missing box is all zeros,
    /// a present box stays within the layout band.
    pub open spec fn wf(&self) -> bool {
        &&& -0x4000_0800 <= self.advance <= 0x4000_0800
        &&& if self.bounding_box_width == 0 {
            self.bounding_box_offset == 0
        } else {
            -0x4000_0800 <= self.bounding_box_offset && self.bounding_box_offset
                + self.bounding_box_width <= 0x4000_0800
        }
    }

    /// Dimensions of nothing: zero advance and no bounding box.
    pub fn empty() -> (d: Self)
        ensures
            d.advance == 0,
            d.bounding_box_width == 0,
            d.bounding_box_offset == 0,
            d.wf(),
    {
        HorizontalRenderedDimensions { advance: 0, bounding_box_width: 0, bounding_box_offset: 0 }
    }

    /// Appends the dimensions of something rendered after `self`: advances
    /// add up, and the bounding boxes are united. A missing box (width zero)
    /// unites to the other box.
    pub fn add(&mut self, other: HorizontalRenderedDimensions)
        requires
            old(self).wf(),
            other.wf(),
            -0x4000_0800 <= old(self).advance + other.advance <= 0x4000_0800,
        ensures
            final(self).wf(),
            final(self).advance == old(self).advance + other.advance,
            other.bounding_box_width == 0 ==> {
                &&& final(self).bounding_box_width == old(self).bounding_box_width
                &&& final(self).bounding_box_offset == old(self).bounding_box_offset
            },
            other.bounding_box_width != 0 && old(self).bounding_box_width == 0 ==> {
                &&& final(self).bounding_box_width == other.bounding_box_width
                &&& final(self).bounding_box_offset == other.bounding_box_offset
            },
            other.bounding_box_width != 0 && old(self).bounding_box_width != 0 ==> {
                &&& final(self).bounding_box_offset == vstd::math::min(
                    old(self).bounding_box_offset as int,
                    other.bounding_box_offset as int,
                )
                &&& final(self).bounding_box_offset + final(self).bounding_box_width
                    == vstd::math::max(
                    old(self).bounding_box_offset + old(self).bounding_box_width,
                    other.bounding_box_offset + other.bounding_box_width,
                )
            },
    {
        self.advance = self.advance + other.advance;

        if other.bounding_box_width != 0 {
            if self.bounding_box_width == 0 {
                self.bounding_box_width = other.bounding_box_width;
                self.bounding_box_offset = other.bounding_box_offset;
            } else {
                let self_right: i64 = self.bounding_box_offset as i64
                    + self.bounding_box_width as i64;
                let other_right: i64 = other.bounding_box_offset as i64
                    + other.bounding_box_width as i64;
                let right = if self_right >= other_right {
                    self_right
                } else {
                    other_right
                };
                let left = if self.bounding_box_offset <= other.bounding_box_offset {
                    self.bounding_box_offset
                } else {
                    other.bounding_box_offset
                };
                self.bounding_box_offset = left;
                self.bounding_box_width = (right - left as i64) as u32;
            }
        }
    }
}

} // verus!
