//! The union of two optional bounding boxes.

use crate::layout::{combine_rects, rect_ok, LayoutRect};
use crate::types::{Point, Rectangle, Size};
use vstd::prelude::*;

verus! {

/// The exact-integer model of a pixel rectangle.
pub open spec fn rect_model(r: Rectangle) -> LayoutRect {
    LayoutRect {
        x: r.top_left.x as int,
        y: r.top_left.y as int,
        w: r.size.width as int,
        h: r.size.height as int,
    }
}

/// The exact-integer model of an optional pixel rectangle.
pub open spec fn opt_rect_model(r: Option<Rectangle>) -> Option<LayoutRect> {
    match r {
        Some(r) => Some(rect_model(r)),
        None => None,
    }
}

/// Whether an optional rectangle fits layout arithmetic.
pub open spec fn opt_rect_ok(r: Option<Rectangle>) -> bool {
    match r {
        Some(r) => rect_ok(rect_model(r)),
        None => true,
    }
}

/// Unites two optional bounding boxes: `None` is the box of nothing, two
/// boxes unite to the smallest rectangle that contains both.
pub fn combine_bounding_boxes(bb1: Option<Rectangle>, bb2: Option<Rectangle>) -> (r: Option<
    Rectangle,
>)
    requires
        opt_rect_ok(bb1),
        opt_rect_ok(bb2),
    ensures
        opt_rect_model(r) == combine_rects(opt_rect_model(bb1), opt_rect_model(bb2)),
        opt_rect_ok(r),
{
    match (bb1, bb2) {
        (Some(b1), Some(b2)) => {
            let left = if b1.top_left.x <= b2.top_left.x {
                b1.top_left.x
            } else {
                b2.top_left.x
            };
            let top = if b1.top_left.y <= b2.top_left.y {
                b1.top_left.y
            } else {
                b2.top_left.y
            };
            let right1: i64 = b1.top_left.x as i64 + b1.size.width as i64;
            let right2: i64 = b2.top_left.x as i64 + b2.size.width as i64;
            let bottom1: i64 = b1.top_left.y as i64 + b1.size.height as i64;
            let bottom2: i64 = b2.top_left.y as i64 + b2.size.height as i64;
            let right = if right1 >= right2 {
                right1
            } else {
                right2
            };
            let bottom = if bottom1 >= bottom2 {
                bottom1
            } else {
                bottom2
            };
            Some(
                Rectangle {
                    top_left: Point { x: left, y: top },
                    size: Size {
                        width: (right - left as i64) as u32,
                        height: (bottom - top as i64) as u32,
                    },
                },
            )
        },
        (Some(b1), None) => Some(b1),
        (None, b2) => b2,
    }
}

} // verus!
