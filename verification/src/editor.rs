//! The list of recorded frames and the edits applied to it.

use vstd::prelude::*;
use crate::raster::{Image, ImageView};

verus! {

/// One captured frame and the time, in milliseconds since the recording
/// started, at which it was taken.
pub struct Frame {
    pub image: Image,
    pub timestamp_ms: u64,
}

/// The mathematical content of a [`Frame`].
pub struct FrameView {
    pub image: ImageView,
    pub timestamp_ms: u64,
}

impl Clone for Frame {
    fn clone(&self) -> (r: Frame)
        ensures
            r@ == self@,
    {
        Frame { image: self.image.copy(), timestamp_ms: self.timestamp_ms }
    }
}

impl View for Frame {
    type V = FrameView;

    open spec fn view(&self) -> FrameView {
        FrameView { image: self.image@, timestamp_ms: self.timestamp_ms }
    }
}

/// Why an edit of a [`FrameList`] was refused.
#[derive(Debug, PartialEq, Eq, Structural, Clone, Copy)]
pub enum EditorError {
    IndexOutOfBounds,
    InvalidCropRect,
    EmptyText,
}

impl EditorError {
    /// A sentence describing the error.
    pub fn message(&self) -> (r: &'static str)
        ensures
            r@ == match self {
                EditorError::IndexOutOfBounds => "frame index out of bounds"@,
                EditorError::InvalidCropRect => "crop rect is invalid for this frame"@,
                EditorError::EmptyText => "text must not be empty"@,
            },
    {
        match self {
            EditorError::IndexOutOfBounds => "frame index out of bounds",
            EditorError::InvalidCropRect => "crop rect is invalid for this frame",
            EditorError::EmptyText => "text must not be empty",
        }
    }
}

/// A rectangle in pixel coordinates: top-left corner and size.
#[derive(Clone, Copy, Debug, PartialEq, Eq, Structural)]
pub struct CropRect {
    pub x: u32,
    pub y: u32,
    pub width: u32,
    pub height: u32,
}

/// `rect` is non-empty and lies inside an image of the given size.
pub open spec fn rect_fits(rect: CropRect, img: ImageView) -> bool {
    &&& rect.width > 0
    &&& rect.height > 0
    &&& rect.x + rect.width <= img.width
    &&& rect.y + rect.height <= img.height
}

/// `rect` is non-empty and lies inside every frame of `frames`.
pub open spec fn rect_fits_all(rect: CropRect, frames: Seq<FrameView>) -> bool {
    &&& rect.width > 0
    &&& rect.height > 0
    &&& forall|i: int| 0 <= i < frames.len() ==> rect_fits(rect, #[trigger] frames[i].image)
}

/// The frames' contents.
pub open spec fn views(frames: Seq<Frame>) -> Seq<FrameView> {
    frames.map_values(|f: Frame| f@)
}

/// The list after moving the frame at `from` so that it ends up at `to`.
pub open spec fn moved(frames: Seq<FrameView>, from: int, to: int) -> Seq<FrameView> {
    frames.remove(from).insert(to, frames[from])
}

/// The list after inserting a copy of the frame at `index` right after it.
pub open spec fn with_copy(frames: Seq<FrameView>, index: int) -> Seq<FrameView> {
    frames.insert(index + 1, frames[index])
}

/// `after` has the size of `before` and the same samples outside `rect`.
pub open spec fn same_outside(after: ImageView, before: ImageView, rect: CropRect) -> bool {
    &&& after.width == before.width
    &&& after.height == before.height
    &&& after.wf()
    &&& forall|i: int, j: int, c: int|
        0 <= i < after.width && 0 <= j < after.height && 0 <= c < 4 && !ImageView::in_window(
            i,
            j,
            rect.x as int,
            rect.y as int,
            rect.width as int,
            rect.height as int,
        ) ==> #[trigger] after.sample(i, j, c) == before.sample(i, j, c)
}

/// One frame of a blur: `region` is the window `rect` of `before`,
/// `blur_window` made `blurred` of it (of the same size), and `after` is
/// `before` with `blurred` laid over it at the window.
pub open spec fn blur_step<F: Fn(&Image) -> Image>(
    blur_window: F,
    before: ImageView,
    after: ImageView,
    rect: CropRect,
    region: Image,
    blurred: Image,
) -> bool {
    &&& region@.is_crop_of(
        before,
        rect.x as int,
        rect.y as int,
        rect.width as int,
        rect.height as int,
    )
    &&& blur_window.ensures((&region,), blurred)
    &&& blurred@.width == rect.width
    &&& blurred@.height == rect.height
    &&& after.is_overlay_of(before, blurred@, rect.x as int, rect.y as int)
}

/// `after` is `before` with the window `rect` of every frame blurred by
/// `blur_window` and laid back: same length, timestamps and sizes, nothing
/// outside the window changed.
pub open spec fn blurred_all<F: Fn(&Image) -> Image>(
    after: Seq<FrameView>,
    before: Seq<FrameView>,
    rect: CropRect,
    blur_window: F,
) -> bool {
    &&& after.len() == before.len()
    &&& forall|i: int|
        0 <= i < before.len() ==> {
            &&& (#[trigger] after[i]).timestamp_ms == before[i].timestamp_ms
            &&& same_outside(after[i].image, before[i].image, rect)
            &&& exists|region: Image, blurred: Image|
                blur_step(blur_window, before[i].image, after[i].image, rect, region, blurred)
        }
}

/// `after` is `before` with `text` drawn on every frame by `draw_text` at
/// `position` in `color`: same length, timestamps and sizes.
pub open spec fn texted_all<F: Fn(&Image, (u32, u32), &str, [u8; 4]) -> Image>(
    after: Seq<Frame>,
    before: Seq<Frame>,
    position: (u32, u32),
    text: Seq<char>,
    color: [u8; 4],
    draw_text: F,
) -> bool {
    &&& after.len() == before.len()
    &&& forall|i: int|
        0 <= i < before.len() ==> {
            &&& (#[trigger] after[i]).timestamp_ms == before[i].timestamp_ms
            &&& after[i].image@.width == before[i].image@.width
            &&& after[i].image@.height == before[i].image@.height
            &&& exists|s: &str|
                s@ == text && draw_text.ensures((&before[i].image, position, s, color), after[i].image)
        }
}

/// `after` is `before` with every frame cut down to `rect`, timestamps kept.
pub open spec fn cropped_all(after: Seq<FrameView>, before: Seq<FrameView>, rect: CropRect) -> bool {
    &&& after.len() == before.len()
    &&& forall|i: int|
        0 <= i < before.len() ==> {
            &&& (#[trigger] after[i]).timestamp_ms == before[i].timestamp_ms
            &&& after[i].image.is_crop_of(
                before[i].image,
                rect.x as int,
                rect.y as int,
                rect.width as int,
                rect.height as int,
            )
        }
}

/// Cropping twice is cropping once: cutting every frame down to `first` and
/// then to `second` (which fits the result) gives the frames cut down to
/// `second` moved by the corner of `first`.
pub proof fn lemma_crop_twice(
    initial: Seq<FrameView>,
    middle: Seq<FrameView>,
    last: Seq<FrameView>,
    first: CropRect,
    second: CropRect,
)
    requires
        cropped_all(middle, initial, first),
        cropped_all(last, middle, second),
        rect_fits_all(second, middle),
        first.x + second.x <= u32::MAX,
        first.y + second.y <= u32::MAX,
    ensures
        cropped_all(
            last,
            initial,
            CropRect {
                x: (first.x + second.x) as u32,
                y: (first.y + second.y) as u32,
                width: second.width,
                height: second.height,
            },
        ),
{
    assert forall|i: int| 0 <= i < initial.len() implies last[i].image.is_crop_of(
        initial[i].image,
        first.x + second.x,
        first.y + second.y,
        second.width as int,
        second.height as int,
    ) by {
        assert(rect_fits(second, middle[i].image));
        crate::raster::lemma_crop_of_crop(
            initial[i].image,
            middle[i].image,
            last[i].image,
            first.x as int,
            first.y as int,
            first.width as int,
            first.height as int,
            second.x as int,
            second.y as int,
            second.width as int,
            second.height as int,
        );
    }
}

/// Moving a frame from `from` to `to` and then from `to` back to `from`
/// restores the list.
pub proof fn lemma_reorder_undone(frames: Seq<FrameView>, from: int, to: int)
    requires
        0 <= from < frames.len(),
        0 <= to < frames.len(),
    ensures
        moved(moved(frames, from, to), to, from) == frames,
{
    let once = moved(frames, from, to);
    assert(once[to] == frames[from]);
    assert(once.remove(to) =~= frames.remove(from));
    assert(moved(once, to, from) =~= frames);
}

/// Moving a frame neither adds nor loses frames: the list after the move holds
/// the same frames, each as often as before.
pub proof fn lemma_reorder_permutes(frames: Seq<FrameView>, from: int, to: int)
    requires
        0 <= from < frames.len(),
        0 <= to < frames.len(),
    ensures
        moved(frames, from, to).to_multiset() == frames.to_multiset(),
{
    broadcast use vstd::seq_lib::to_multiset_remove, vstd::seq_lib::to_multiset_insert;
    broadcast use vstd::multiset::group_multiset_axioms;

    let rest = frames.remove(from);
    assert(rest.to_multiset() == frames.to_multiset().remove(frames[from]));
    assert(rest.insert(to, frames[from]).to_multiset() == rest.to_multiset().insert(frames[from]));
    assert(frames.to_multiset().contains(frames[from])) by {
        vstd::seq_lib::to_multiset_contains(frames, frames[from]);
    }
    assert(frames.to_multiset().remove(frames[from]).insert(frames[from]) =~= frames.to_multiset());
}

/// Deleting the copy that duplicating the frame at `index` inserted restores
/// the list as it was.
pub proof fn lemma_duplicate_then_delete(frames: Seq<FrameView>, index: int)
    requires
        0 <= index < frames.len(),
    ensures
        with_copy(frames, index).remove(index + 1) == frames,
        with_copy(frames, index).len() == frames.len() + 1,
        with_copy(frames, index)[index + 1] == frames[index],
{
    assert(with_copy(frames, index).remove(index + 1) =~= frames);
}

/// Deleting the frame at `index` keeps every other frame, in order: frames
/// before `index` keep their position, later ones move up by one.
pub proof fn lemma_delete_keeps_order(frames: Seq<FrameView>, index: int)
    requires
        0 <= index < frames.len(),
    ensures
        frames.remove(index).len() == frames.len() - 1,
        forall|k: int| 0 <= k < index ==> #[trigger] frames.remove(index)[k] == frames[k],
        forall|k: int| index <= k < frames.len() - 1 ==> #[trigger] frames.remove(index)[k] == frames[k + 1],
{
}

/// An ordered list of frames, edited in place.
pub struct FrameList {
    frames: Vec<Frame>,
}

impl View for FrameList {
    type V = Seq<FrameView>;

    closed spec fn view(&self) -> Seq<FrameView> {
        views(self.frames@)
    }
}

impl FrameList {
    /// The frames themselves, in order.
    pub closed spec fn frame_values(&self) -> Seq<Frame> {
        self.frames@
    }

    /// The list's content is the content of its frames, in order.
    pub proof fn lemma_view(&self)
        ensures
            self@ == views(self.frame_values()),
    {
    }

    pub fn new(frames: Vec<Frame>) -> (r: Self)
        ensures
            r.frame_values() == frames@,
            r@ == views(frames@),
    {
        FrameList { frames }
    }

    pub fn len(&self) -> (r: usize)
        ensures
            r == self@.len(),
    {
        self.frames.len()
    }

    pub fn is_empty(&self) -> (r: bool)
        ensures
            r <==> self@.len() == 0,
    {
        self.frames.len() == 0
    }

    pub fn frames(&self) -> (r: &[Frame])
        ensures
            r@ == self.frame_values(),
            views(r@) == self@,
    {
        self.frames.as_slice()
    }

    /// Removes the frame at `index`.
    pub fn delete(&mut self, index: usize) -> (r: Result<(), EditorError>)
        ensures
            index < old(self)@.len() ==> r is Ok && final(self)@ == old(self)@.remove(index as int),
            index >= old(self)@.len() ==> r == Err::<(), EditorError>(EditorError::IndexOutOfBounds)
                && final(self)@ == old(self)@,
    {
        if index >= self.frames.len() {
            return Err(EditorError::IndexOutOfBounds);
        }
        let ghost before = self.frames@;
        self.frames.remove(index);
        assert(views(self.frames@) =~= views(before).remove(index as int));
        Ok(())
    }

    /// Moves the frame at `from` so that it ends up at position `to`.
    pub fn reorder(&mut self, from: usize, to: usize) -> (r: Result<(), EditorError>)
        ensures
            from < old(self)@.len() && to < old(self)@.len() ==> r is Ok && final(self)@ == moved(
                old(self)@,
                from as int,
                to as int,
            ),
            !(from < old(self)@.len() && to < old(self)@.len()) ==> r == Err::<(), EditorError>(
                EditorError::IndexOutOfBounds,
            ) && final(self)@ == old(self)@,
    {
        if from >= self.frames.len() || to >= self.frames.len() {
            return Err(EditorError::IndexOutOfBounds);
        }
        let ghost before = self.frames@;
        let frame = self.frames.remove(from);
        self.frames.insert(to, frame);
        assert(views(self.frames@) =~= moved(views(before), from as int, to as int));
        Ok(())
    }

    /// Checks that `rect` is non-empty and lies inside every frame.
    pub fn validate_rect(&self, rect: &CropRect) -> (r: Result<(), EditorError>)
        ensures
            rect_fits_all(*rect, self@) ==> r is Ok,
            !rect_fits_all(*rect, self@) ==> r == Err::<(), EditorError>(
                EditorError::InvalidCropRect,
            ),
    {
        if rect.width == 0 || rect.height == 0 {
            return Err(EditorError::InvalidCropRect);
        }
        let n = self.frames.len();
        for i in 0..n
            invariant
                n == self.frames@.len(),
                rect.width > 0,
                rect.height > 0,
                forall|k: int| 0 <= k < i ==> rect_fits(*rect, #[trigger] views(self.frames@)[k].image),
        {
            let image = &self.frames[i].image;
            if rect.x as u64 + rect.width as u64 > image.width() as u64 || rect.y as u64
                + rect.height as u64 > image.height() as u64 {
                assert(!rect_fits(*rect, views(self.frames@)[i as int].image));
                return Err(EditorError::InvalidCropRect);
            }
        }
        Ok(())
    }

    /// Cuts every frame down to `rect`.
    pub fn crop(&mut self, rect: CropRect) -> (r: Result<(), EditorError>)
        ensures
            !rect_fits_all(rect, old(self)@) ==> r == Err::<(), EditorError>(
                EditorError::InvalidCropRect,
            ) && final(self)@ == old(self)@,
            rect_fits_all(rect, old(self)@) ==> r is Ok && cropped_all(final(self)@, old(self)@, rect),
    {
        match self.validate_rect(&rect) {
            Err(e) => return Err(e),
            Ok(()) => {},
        }
        let ghost before = self.frames@;
        let n = self.frames.len();
        let mut cropped: Vec<Frame> = Vec::new();
        for i in 0..n
            invariant
                n == self.frames@.len(),
                rect_fits_all(rect, views(self.frames@)),
                cropped@.len() == i,
                forall|k: int|
                    0 <= k < i ==> {
                        &&& (#[trigger] cropped@[k]).timestamp_ms == self.frames@[k].timestamp_ms
                        &&& cropped@[k].image@.is_crop_of(
                            self.frames@[k].image@,
                            rect.x as int,
                            rect.y as int,
                            rect.width as int,
                            rect.height as int,
                        )
                    },
        {
            let frame = &self.frames[i];
            assert(rect_fits(rect, views(self.frames@)[i as int].image));
            let image = frame.image.crop(rect.x, rect.y, rect.width, rect.height);
            cropped.push(Frame { image, timestamp_ms: frame.timestamp_ms });
        }
        self.frames = cropped;
        assert(cropped_all(views(self.frames@), views(before), rect));
        Ok(())
    }

    /// Inserts a copy of the frame at `index` right after it.
    pub fn duplicate(&mut self, index: usize) -> (r: Result<(), EditorError>)
        ensures
            index < old(self)@.len() ==> r is Ok && final(self)@ == with_copy(
                old(self)@,
                index as int,
            ),
            index >= old(self)@.len() ==> r == Err::<(), EditorError>(EditorError::IndexOutOfBounds)
                && final(self)@ == old(self)@,
    {
        if index >= self.frames.len() {
            return Err(EditorError::IndexOutOfBounds);
        }
        let ghost before = self.frames@;
        let copy = self.frames[index].clone();
        self.frames.insert(index + 1, copy);
        assert(views(self.frames@) =~= with_copy(views(before), index as int));
        Ok(())
    }

    /// Blurs the region `rect` of every frame in place: checks `rect` as
    /// [`FrameList::crop`] does, then for each frame cuts the window out,
    /// hands it to `blur_window` (which keeps its size) and lays the result
    /// back over the frame at the same place. Timestamps and sizes stay, and
    /// nothing outside the window changes.
    pub fn blur<F: Fn(&Image) -> Image>(&mut self, rect: CropRect, blur_window: F) -> (r: Result<
        (),
        EditorError,
    >)
        requires
            forall|img: &Image| blur_window.requires((img,)),
            forall|img: &Image, out: Image|
                blur_window.ensures((img,), out) ==> out@.width == img@.width && out@.height
                    == img@.height,
        ensures
            !rect_fits_all(rect, old(self)@) ==> r == Err::<(), EditorError>(
                EditorError::InvalidCropRect,
            ) && final(self)@ == old(self)@,
            rect_fits_all(rect, old(self)@) ==> r is Ok && blurred_all(final(self)@, old(self)@, rect, blur_window),
    {
        match self.validate_rect(&rect) {
            Err(e) => return Err(e),
            Ok(()) => {},
        }
        let n = self.frames.len();
        let mut blurred_frames: Vec<Frame> = Vec::new();
        let ghost mut regions: Seq<Image> = Seq::empty();
        let ghost mut windows: Seq<Image> = Seq::empty();
        for i in 0..n
            invariant
                n == self.frames@.len(),
                rect_fits_all(rect, views(self.frames@)),
                forall|img: &Image| blur_window.requires((img,)),
                forall|img: &Image, out: Image|
                    blur_window.ensures((img,), out) ==> out@.width == img@.width && out@.height
                        == img@.height,
                blurred_frames@.len() == i,
                regions.len() == i,
                windows.len() == i,
                forall|k: int|
                    0 <= k < i ==> {
                        &&& (#[trigger] blurred_frames@[k]).timestamp_ms == self.frames@[k].timestamp_ms
                        &&& same_outside(blurred_frames@[k].image@, self.frames@[k].image@, rect)
                        &&& blur_step(
                            blur_window,
                            self.frames@[k].image@,
                            blurred_frames@[k].image@,
                            rect,
                            regions[k],
                            windows[k],
                        )
                    },
        {
            let frame = &self.frames[i];
            assert(rect_fits(rect, views(self.frames@)[i as int].image));
            let region = frame.image.crop(rect.x, rect.y, rect.width, rect.height);
            let blurred = blur_window(&region);
            let image = frame.image.overlay(&blurred, rect.x, rect.y);
            assert(same_outside(image@, frame.image@, rect));
            blurred_frames.push(Frame { image, timestamp_ms: frame.timestamp_ms });
            proof {
                regions = regions.push(region);
                windows = windows.push(blurred);
            }
        }
        let ghost old_frames = self.frames@;
        self.frames = blurred_frames;
        assert forall|i: int| 0 <= i < old_frames.len() implies exists|region: Image, blurred: Image|
            blur_step(
                blur_window,
                views(old_frames)[i].image,
                #[trigger] views(self.frames@)[i].image,
                rect,
                region,
                blurred,
            ) by {
            assert(views(old_frames)[i] == old_frames[i]@);
            assert(views(self.frames@)[i] == self.frames@[i]@);
            assert(blur_step(
                blur_window,
                views(old_frames)[i].image,
                views(self.frames@)[i].image,
                rect,
                regions[i],
                windows[i],
            ));
        }
        Ok(())
    }

    /// Refuses empty `text`; otherwise replaces every frame's image with what
    /// `draw_text` (which keeps the size of the image) makes of it, `position`,
    /// `text` and `color`. Any position is accepted: text beyond the frame is
    /// clipped. Timestamps and sizes stay.
    pub fn add_text<F: Fn(&Image, (u32, u32), &str, [u8; 4]) -> Image>(
        &mut self,
        position: (u32, u32),
        text: String,
        color: [u8; 4],
        draw_text: F,
    ) -> (r: Result<(), EditorError>)
        requires
            forall|img: &Image, at: (u32, u32), s: &str, c: [u8; 4]|
                draw_text.requires((img, at, s, c)),
            forall|img: &Image, at: (u32, u32), s: &str, c: [u8; 4], out: Image|
                draw_text.ensures((img, at, s, c), out) ==> out@.width == img@.width && out@.height
                    == img@.height,
        ensures
            text@.len() == 0 ==> r == Err::<(), EditorError>(EditorError::EmptyText)
                && final(self)@ == old(self)@,
            text@.len() > 0 ==> r is Ok && final(self)@.len() == old(self)@.len() && texted_all(
                final(self).frame_values(),
                old(self).frame_values(),
                position,
                text@,
                color,
                draw_text,
            ),
    {
        let t: &str = text.as_str();
        if t.is_empty() {
            return Err(EditorError::EmptyText);
        }
        let n = self.frames.len();
        let mut drawn: Vec<Frame> = Vec::new();
        for i in 0..n
            invariant
                n == self.frames@.len(),
                t@ == text@,
                forall|img: &Image, at: (u32, u32), s: &str, c: [u8; 4]|
                    draw_text.requires((img, at, s, c)),
                forall|img: &Image, at: (u32, u32), s: &str, c: [u8; 4], out: Image|
                    draw_text.ensures((img, at, s, c), out) ==> out@.width == img@.width
                        && out@.height == img@.height,
                drawn@.len() == i,
                forall|k: int|
                    0 <= k < i ==> {
                        &&& (#[trigger] drawn@[k]).timestamp_ms == self.frames@[k].timestamp_ms
                        &&& drawn@[k].image@.width == self.frames@[k].image@.width
                        &&& drawn@[k].image@.height == self.frames@[k].image@.height
                        &&& draw_text.ensures(
                            (&self.frames@[k].image, position, t, color),
                            drawn@[k].image,
                        )
                    },
        {
            let frame = &self.frames[i];
            let image = draw_text(&frame.image, position, t, color);
            drawn.push(Frame { image, timestamp_ms: frame.timestamp_ms });
        }
        self.frames = drawn;
        Ok(())
    }
}

} // verus!
