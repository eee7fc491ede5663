//! Preparing the frames for the editor: applying an edit to every frame and
//! then building the filmstrip thumbnails of the edited frames.

use vstd::prelude::*;
use crate::editor::{
    blurred_all, cropped_all, rect_fits_all, texted_all, views, CropRect, FrameList, FrameView,
};
use crate::editor_screen::{thumbnail, thumbnail_dimensions_spec, THUMBNAIL_MAX_DIM};
use crate::raster::{resized_triangle, Image, ImageView};

verus! {

/// An edit applied to every frame before the thumbnails are rebuilt. The blur
/// itself and the text drawing are the functions handed to
/// [`prepare_frames`].
pub enum Edit {
    Crop(CropRect),
    Blur(CropRect),
    AddText { position: (u32, u32), text: String, color: [u8; 4] },
}

/// `edit` is accepted by the frame list: a rectangle that is non-empty and
/// fits every frame, or text that is not empty.
pub open spec fn edit_allowed(edit: Option<Edit>, frames: Seq<FrameView>) -> bool {
    match edit {
        None => true,
        Some(Edit::Crop(rect)) => rect_fits_all(rect, frames),
        Some(Edit::Blur(rect)) => rect_fits_all(rect, frames),
        Some(Edit::AddText { text, .. }) => text@.len() > 0,
    }
}

/// A thumbnail can be made of `img` within what memory can address (its
/// resampling keeps a buffer of `f32` samples).
pub open spec fn thumbnail_fits(img: ImageView) -> bool {
    img.width * img.height * 16 <= isize::MAX && img.width * 16 <= isize::MAX
}

/// `t` is the filmstrip thumbnail of `img`.
pub open spec fn is_thumbnail_of(t: ImageView, img: ImageView) -> bool {
    &&& (t.width as int, t.height as int) == thumbnail_dimensions_spec(
        (img.width, img.height),
        THUMBNAIL_MAX_DIM,
    )
    &&& t == resized_triangle(img, t.width, t.height)
}

proof fn lemma_smaller_fits(big: ImageView, small: ImageView)
    requires
        thumbnail_fits(big),
        small.width <= big.width,
        small.height <= big.height,
    ensures
        thumbnail_fits(small),
{
    assert(small.width * small.height * 16 <= big.width * big.height * 16) by (nonlinear_arith)
        requires
            small.width <= big.width,
            small.height <= big.height,
    ;
}

/// Applies `edit` to every frame (a crop, a blur of a window with
/// `blur_window`, or text drawn with `draw_text`), then builds the thumbnail of
/// every edited frame in order, reporting `(done, total)` to `progress` after
/// each one. Gives the edited frames and their thumbnails.
pub fn prepare_frames<B, D, P>(
    frames: FrameList,
    edit: Option<Edit>,
    blur_window: B,
    draw_text: D,
    progress: P,
) -> (r: (FrameList, Vec<Image>)) where
    B: Fn(&Image) -> Image,
    D: Fn(&Image, (u32, u32), &str, [u8; 4]) -> Image,
    P: Fn(usize, usize),

    requires
        edit_allowed(edit, frames@),
        forall|i: int| 0 <= i < frames@.len() ==> thumbnail_fits(#[trigger] frames@[i].image),
        forall|img: &Image| blur_window.requires((img,)),
        forall|img: &Image, out: Image|
            blur_window.ensures((img,), out) ==> out@.width == img@.width && out@.height
                == img@.height,
        forall|img: &Image, at: (u32, u32), s: &str, c: [u8; 4]| draw_text.requires((img, at, s, c)),
        forall|img: &Image, at: (u32, u32), s: &str, c: [u8; 4], out: Image|
            draw_text.ensures((img, at, s, c), out) ==> out@.width == img@.width && out@.height
                == img@.height,
        forall|done: usize, total: usize| progress.requires((done, total)),
    ensures
        edit is None ==> r.0.frame_values() == frames.frame_values(),
        edit matches Some(Edit::Crop(rect)) ==> cropped_all(r.0@, frames@, rect),
        edit matches Some(Edit::Blur(rect)) ==> blurred_all(r.0@, frames@, rect, blur_window),
        edit matches Some(Edit::AddText { position, text, color }) ==> r.0@.len() == frames@.len()
            && texted_all(
            r.0.frame_values(),
            frames.frame_values(),
            position,
            text@,
            color,
            draw_text,
        ),
        r.1@.len() == r.0@.len(),
        forall|i: int| 0 <= i < r.0@.len() ==> is_thumbnail_of((#[trigger] r.1@[i])@, r.0@[i].image),
{
    let mut list = frames;
    let ghost before = list@;
    let ghost before_values = list.frame_values();
    match edit {
        None => {},
        Some(Edit::Crop(rect)) => {
            let _ = list.crop(rect);
        },
        Some(Edit::Blur(rect)) => {
            let _ = list.blur(rect, blur_window);
        },
        Some(Edit::AddText { position, text, color }) => {
            let _ = list.add_text(position, text, color, draw_text);
        },
    }
    proof {
        list.lemma_view();
        frames.lemma_view();
    }
    assert forall|i: int| 0 <= i < list@.len() implies thumbnail_fits(#[trigger] list@[i].image) by {
        assert(thumbnail_fits(before[i].image));
        match edit {
            Some(Edit::AddText { .. }) => {
                assert(views(list.frame_values())[i] == list.frame_values()[i]@);
                assert(views(before_values)[i] == before_values[i]@);
            },
            _ => {},
        }
        lemma_smaller_fits(before[i].image, list@[i].image);
    }
    let n = list.len();
    let all = list.frames();
    let mut thumbnails: Vec<Image> = Vec::new();
    for i in 0..n
        invariant
            n == list@.len(),
            views(all@) == list@,
            forall|k: int| 0 <= k < n ==> thumbnail_fits(#[trigger] list@[k].image),
            forall|done: usize, total: usize| progress.requires((done, total)),
            thumbnails@.len() == i,
            forall|k: int| 0 <= k < i ==> is_thumbnail_of((#[trigger] thumbnails@[k])@, list@[k].image),
    {
        assert(views(all@)[i as int] == all@[i as int]@);
        assert(thumbnail_fits(list@[i as int].image));
        let t = thumbnail(&all[i].image, THUMBNAIL_MAX_DIM);
        thumbnails.push(t);
        progress(i + 1, n);
    }
    (list, thumbnails)
}

} // verus!
