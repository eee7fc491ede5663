//! Turning a click on the preview into a text position in image pixels.

use vstd::prelude::*;

verus! {

/// A click position, already scaled to image pixels, moved onto the image:
/// each coordinate is at most the last column or row (zero for an empty
/// image).
pub fn clamp_to_image(position: (u32, u32), image_pixel_size: (u32, u32)) -> (r: (u32, u32))
    ensures
        r.0 == min_u(position.0 as int, last_index(image_pixel_size.0 as int)),
        r.1 == min_u(position.1 as int, last_index(image_pixel_size.1 as int)),
{
    let last_x = if image_pixel_size.0 > 0 { image_pixel_size.0 - 1 } else { 0 };
    let last_y = if image_pixel_size.1 > 0 { image_pixel_size.1 - 1 } else { 0 };
    (
        if position.0 < last_x { position.0 } else { last_x },
        if position.1 < last_y { position.1 } else { last_y },
    )
}

pub open spec fn min_u(a: int, b: int) -> int {
    if a <= b {
        a
    } else {
        b
    }
}

/// The index of the last pixel along a side of `len` pixels; zero when empty.
pub open spec fn last_index(len: int) -> int {
    if len > 0 {
        len - 1
    } else {
        0
    }
}

/// On a non-empty image the clamped position is a pixel of the image.
pub proof fn lemma_clamped_inside(position: (u32, u32), size: (u32, u32))
    requires
        size.0 > 0,
        size.1 > 0,
    ensures
        min_u(position.0 as int, last_index(size.0 as int)) < size.0,
        min_u(position.1 as int, last_index(size.1 as int)) < size.1,
{
}

} // verus!
