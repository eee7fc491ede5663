//! Turning a drag over the preview into a crop rectangle in image pixels.

use vstd::prelude::*;
use crate::editor::CropRect;
use crate::text_tool::{clamp_to_image, last_index, min_u};

verus! {

/// Length from `from` to `to` clamped at `limit`, and at least one.
pub open spec fn span(from: int, to: int, limit: int) -> int {
    let end = if to < limit { to } else { limit };
    if end - from >= 1 {
        end - from
    } else {
        1
    }
}

/// The crop rectangle spanned by a drag whose corners, already scaled to image
/// pixels and ordered, are `start` (top-left) and `end` (bottom-right). The
/// near corner is moved onto the image (at most the last column and row), the
/// far corner is clamped to the image, and the rectangle is at least one pixel
/// wide and high.
pub fn crop_rect_from_pixels(start: (u32, u32), end: (u32, u32), image_pixel_size: (u32, u32)) -> (r:
    CropRect)
    ensures
        r.x == min_u(start.0 as int, last_index(image_pixel_size.0 as int)),
        r.y == min_u(start.1 as int, last_index(image_pixel_size.1 as int)),
        r.width == span(r.x as int, end.0 as int, image_pixel_size.0 as int),
        r.height == span(r.y as int, end.1 as int, image_pixel_size.1 as int),
{
    let (x, y) = clamp_to_image(start, image_pixel_size);
    let x1 = if end.0 < image_pixel_size.0 { end.0 } else { image_pixel_size.0 };
    let y1 = if end.1 < image_pixel_size.1 { end.1 } else { image_pixel_size.1 };
    let w = if x1 > x { x1 - x } else { 0 };
    let h = if y1 > y { y1 - y } else { 0 };
    CropRect { x, y, width: if w < 1 { 1 } else { w }, height: if h < 1 { 1 } else { h } }
}

/// On a non-empty image the crop rectangle of any drag is non-empty and lies
/// inside the image, so cropping every frame of that size with it succeeds.
pub proof fn lemma_crop_rect_inside(start: (u32, u32), end: (u32, u32), size: (u32, u32))
    requires
        size.0 > 0,
        size.1 > 0,
    ensures
        ({
            let x = min_u(start.0 as int, last_index(size.0 as int));
            let y = min_u(start.1 as int, last_index(size.1 as int));
            &&& 1 <= span(x, end.0 as int, size.0 as int)
            &&& x + span(x, end.0 as int, size.0 as int) <= size.0
            &&& 1 <= span(y, end.1 as int, size.1 as int)
            &&& y + span(y, end.1 as int, size.1 as int) <= size.1
        }),
{
}

} // verus!
