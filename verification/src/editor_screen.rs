//! Selection, thumbnail sizing and playback timing of the frame editor.

use vstd::prelude::*;
use crate::editor::{FrameView, moved, with_copy};
use crate::raster::{Image, resized_triangle};

verus! {

/// The editing tool picked in the toolbar.
#[derive(Clone, Copy, PartialEq, Eq, Structural, Debug)]
pub enum Tool {
    Selecionar,
    Recortar,
    Blur,
    Texto,
}

/// Thumbnails are shrunk to at most this many pixels on their longer side.
pub const THUMBNAIL_MAX_DIM: u32 = 160;

/// Which thumbnail stays selected after deleting the frame at `deleted`, given
/// the previously `selected` index and the number of frames left.
pub fn selection_after_delete(selected: usize, deleted: usize, remaining_len: usize) -> (r: usize)
    ensures
        remaining_len == 0 ==> r == 0,
        remaining_len > 0 && deleted < selected ==> r == selected - 1,
        remaining_len > 0 && deleted >= selected ==> r == (if selected < remaining_len {
            selected as int
        } else {
            remaining_len - 1
        }),
{
    if remaining_len == 0 {
        0
    } else if deleted < selected {
        selected - 1
    } else if selected < remaining_len - 1 {
        selected
    } else {
        remaining_len - 1
    }
}

/// The thumbnail to select right after duplicating the frame at
/// `duplicated_at`: the new copy, just after it.
pub fn selection_after_duplicate(duplicated_at: usize) -> (r: usize)
    requires
        duplicated_at < usize::MAX,
    ensures
        r == duplicated_at + 1,
{
    duplicated_at + 1
}

/// The frame edits the Select tool offers for the frame at `selected` of a
/// list of `len` frames, each with the indices it acts on; `None` where the
/// edit does not apply.
#[derive(Debug, Clone, Copy)]
pub struct SelectActions {
    pub duplicate: Option<usize>,
    pub move_left: Option<(usize, usize)>,
    pub move_right: Option<(usize, usize)>,
    pub delete: Option<usize>,
}

/// The Select tool's edits for the frame at `selected`: duplicating and
/// deleting it when it exists, moving it one place left when it is not the
/// first, one place right when it is not the last.
pub fn select_actions(selected: usize, len: usize) -> (r: SelectActions)
    ensures
        r.duplicate == (if selected < len { Some(selected) } else { None::<usize> }),
        r.delete == (if selected < len { Some(selected) } else { None::<usize> }),
        r.move_left == (if 0 < selected < len {
            Some((selected, (selected - 1) as usize))
        } else {
            None::<(usize, usize)>
        }),
        r.move_right == (if selected + 1 < len {
            Some((selected, (selected + 1) as usize))
        } else {
            None::<(usize, usize)>
        }),
{
    let exists = selected < len;
    SelectActions {
        duplicate: if exists { Some(selected) } else { None },
        delete: if exists { Some(selected) } else { None },
        move_left: if exists && selected > 0 { Some((selected, selected - 1)) } else { None },
        move_right: if exists && selected < len - 1 { Some((selected, selected + 1)) } else { None },
    }
}

/// Every edit the Select tool offers acts on frames that exist, so the frame
/// list accepts it: `duplicate`, `delete` and `reorder` return `Ok` on it.
pub proof fn lemma_offered_actions_are_valid(selected: usize, len: usize, r: SelectActions)
    requires
        r.duplicate == (if selected < len { Some(selected) } else { None::<usize> }),
        r.delete == (if selected < len { Some(selected) } else { None::<usize> }),
        r.move_left == (if 0 < selected < len {
            Some((selected, (selected - 1) as usize))
        } else {
            None::<(usize, usize)>
        }),
        r.move_right == (if selected + 1 < len {
            Some((selected, (selected + 1) as usize))
        } else {
            None::<(usize, usize)>
        }),
    ensures
        r.duplicate matches Some(i) ==> i < len,
        r.delete matches Some(i) ==> i < len,
        r.move_left matches Some((a, b)) ==> a < len && b < len,
        r.move_right matches Some((a, b)) ==> a < len && b < len,
        len == 0 ==> r.duplicate is None && r.delete is None && r.move_left is None
            && r.move_right is None,
{
}

/// `part * scale / whole`, rounded to the nearest integer, halves up.
pub open spec fn scaled_rounded(part: int, scale: int, whole: int) -> int {
    (2 * part * scale + whole) / (2 * whole)
}

/// Size of the thumbnail for a `source` image: the longer side becomes
/// `max_dim` (or stays, when already no longer), the other side keeps the
/// aspect ratio, and neither is below one pixel.
pub open spec fn thumbnail_dimensions_spec(source: (u32, u32), max_dim: u32) -> (int, int) {
    let (w, h) = source;
    if w == 0 || h == 0 {
        (1, 1)
    } else if w >= h {
        let new_w = if max_dim < w { max_dim as int } else { w as int };
        let new_w = if new_w < 1 { 1 } else { new_w };
        let new_h = scaled_rounded(h as int, new_w, w as int);
        (new_w, if new_h < 1 { 1 } else { new_h })
    } else {
        let new_h = if max_dim < h { max_dim as int } else { h as int };
        let new_h = if new_h < 1 { 1 } else { new_h };
        let new_w = scaled_rounded(w as int, new_h, h as int);
        (if new_w < 1 { 1 } else { new_w }, new_h)
    }
}

proof fn lemma_scaled_fits(part: int, scale: int, whole: int)
    requires
        0 <= part,
        1 <= scale <= whole,
    ensures
        0 <= scaled_rounded(part, scale, whole) <= part,
{
    assert(0 <= 2 * part * scale + whole) by (nonlinear_arith)
        requires
            0 <= part,
            1 <= scale,
            1 <= whole,
    ;
    assert(2 * part * scale + whole < 2 * whole * (part + 1)) by (nonlinear_arith)
        requires
            0 <= part,
            1 <= scale <= whole,
    ;
    assert((2 * part * scale + whole) / (2 * whole) < part + 1) by (nonlinear_arith)
        requires
            2 * part * scale + whole < 2 * whole * (part + 1),
            1 <= whole,
    ;
    assert(0 <= (2 * part * scale + whole) / (2 * whole)) by (nonlinear_arith)
        requires
            0 <= 2 * part * scale + whole,
            1 <= whole,
    ;
}

fn scale_side(part: u32, scale: u32, whole: u32) -> (r: u32)
    requires
        1 <= scale <= whole,
    ensures
        r == scaled_rounded(part as int, scale as int, whole as int),
{
    proof {
        lemma_scaled_fits(part as int, scale as int, whole as int);
    }
    let p = part as u128;
    let s = scale as u128;
    let w = whole as u128;
    assert(p * s <= 0xffff_ffffu128 * 0xffff_ffffu128) by (nonlinear_arith)
        requires
            p <= 0xffff_ffff,
            s <= 0xffff_ffff,
    ;
    assert(2 * (p * s) == 2 * p * s) by (nonlinear_arith);
    let q = (2 * (p * s) + w) / (2 * w);
    assert(q == scaled_rounded(part as int, scale as int, whole as int));
    q as u32
}

/// Scales `source` down so its longer side is at most `max_dim`, preserving
/// the aspect ratio.
pub fn thumbnail_dimensions(source: (u32, u32), max_dim: u32) -> (r: (u32, u32))
    ensures
        (r.0 as int, r.1 as int) == thumbnail_dimensions_spec(source, max_dim),
        0 < source.0 <= max_dim && 0 < source.1 <= max_dim ==> r == source,
{
    proof {
        if 0 < source.0 <= max_dim && 0 < source.1 <= max_dim {
            lemma_thumbnail_keeps_small_images(source, max_dim);
        }
    }
    let (w, h) = source;
    if w == 0 || h == 0 {
        return (1, 1);
    }
    if w >= h {
        let mut new_w = if max_dim < w { max_dim } else { w };
        if new_w < 1 {
            new_w = 1;
        }
        let new_h = scale_side(h, new_w, w);
        (new_w, if new_h < 1 { 1 } else { new_h })
    } else {
        let mut new_h = if max_dim < h { max_dim } else { h };
        if new_h < 1 {
            new_h = 1;
        }
        let new_w = scale_side(w, new_h, h);
        (if new_w < 1 { 1 } else { new_w }, new_h)
    }
}

/// A thumbnail is never empty, never larger than its source, and its longer
/// side is at most `max_dim` (for `max_dim` of at least one).
pub proof fn lemma_thumbnail_bounds(source: (u32, u32), max_dim: u32)
    requires
        source.0 > 0,
        source.1 > 0,
        max_dim > 0,
    ensures
        ({
            let (w, h) = thumbnail_dimensions_spec(source, max_dim);
            &&& 1 <= w <= source.0
            &&& 1 <= h <= source.1
            &&& w <= max_dim || h <= max_dim
            &&& source.0 >= source.1 ==> w <= max_dim
            &&& source.0 < source.1 ==> h <= max_dim
        }),
{
    let (w, h) = source;
    if w >= h {
        let nw = if max_dim < w { max_dim as int } else { w as int };
        lemma_scaled_fits(h as int, nw, w as int);
    } else {
        let nh = if max_dim < h { max_dim as int } else { h as int };
        lemma_scaled_fits(w as int, nh, h as int);
    }
}

proof fn lemma_scaled_identity(part: int, whole: int)
    requires
        0 <= part,
        1 <= whole,
    ensures
        scaled_rounded(part, whole, whole) == part,
{
    assert((2 * part * whole + whole) / (2 * whole) == part) by (nonlinear_arith)
        requires
            0 <= part,
            1 <= whole,
    ;
}

proof fn lemma_scaled_within_half(part: int, scale: int, whole: int)
    requires
        0 <= part,
        0 <= scale,
        1 <= whole,
    ensures
        -whole < 2 * scaled_rounded(part, scale, whole) * whole - 2 * part * scale <= whole,
{
    let q = scaled_rounded(part, scale, whole);
    assert(2 * whole * q <= 2 * part * scale + whole < 2 * whole * q + 2 * whole) by (nonlinear_arith)
        requires
            q == (2 * part * scale + whole) / (2 * whole),
            1 <= whole,
    ;
    assert(2 * q * whole == 2 * whole * q) by (nonlinear_arith);
}

/// An image whose sides are both within `max_dim` gets a thumbnail of its own
/// size: nothing is shrunk that needs no shrinking.
pub proof fn lemma_thumbnail_keeps_small_images(source: (u32, u32), max_dim: u32)
    requires
        0 < source.0 <= max_dim,
        0 < source.1 <= max_dim,
    ensures
        thumbnail_dimensions_spec(source, max_dim) == (source.0 as int, source.1 as int),
{
    let (w, h) = source;
    if w >= h {
        lemma_scaled_identity(h as int, w as int);
    } else {
        lemma_scaled_identity(w as int, h as int);
    }
}

/// The thumbnail's longer side (the width when the source is at least as wide
/// as tall, the height otherwise) is the source's longer side capped at
/// `max_dim`, and at least one pixel; its other side is the source's shorter
/// side scaled by the same factor, to within half a pixel, unless that would
/// leave less than one pixel, when it is one.
pub proof fn lemma_thumbnail_longer_side_and_ratio(source: (u32, u32), max_dim: u32)
    requires
        source.0 > 0,
        source.1 > 0,
    ensures
        ({
            let (w, h) = (source.0 as int, source.1 as int);
            let (tw, th) = thumbnail_dimensions_spec(source, max_dim);
            let cap = |side: int| if max_dim == 0 { 1 } else if max_dim < side { max_dim as int } else { side };
            &&& w >= h ==> tw == cap(w)
            &&& w < h ==> th == cap(h)
            &&& w >= h ==> th == 1 || -w < 2 * th * w - 2 * h * tw <= w
            &&& w < h ==> tw == 1 || -h < 2 * tw * h - 2 * w * th <= h
        }),
{
    let (w, h) = source;
    if w >= h {
        let nw = if max_dim < w { max_dim as int } else { w as int };
        let nw = if nw < 1 { 1 } else { nw };
        lemma_scaled_within_half(h as int, nw, w as int);
    } else {
        let nh = if max_dim < h { max_dim as int } else { h as int };
        let nh = if nh < 1 { 1 } else { nh };
        lemma_scaled_within_half(w as int, nh, h as int);
    }
}

/// The filmstrip thumbnail of a frame's image: the image resampled (triangle
/// filter) to the size [`thumbnail_dimensions`] gives for it.
pub fn thumbnail(image: &Image, max_dim: u32) -> (r: Image)
    requires
        image@.width * image@.height * 16 <= isize::MAX,
        image@.width * 16 <= isize::MAX,
    ensures
        (r@.width as int, r@.height as int) == thumbnail_dimensions_spec(
            (image@.width, image@.height),
            max_dim,
        ),
        r@ == resized_triangle(image@, r@.width, r@.height),
{
    let w = image.width();
    let h = image.height();
    let (tw, th) = thumbnail_dimensions((w, h), max_dim);
    proof {
        if w > 0 && h > 0 {
            let (sw, sh) = (w as int, h as int);
            if w >= h {
                let nw = if max_dim < w { max_dim as int } else { sw };
                let nw = if nw < 1 { 1 } else { nw };
                lemma_scaled_fits(sh, nw, sw);
            } else {
                let nh = if max_dim < h { max_dim as int } else { sh };
                let nh = if nh < 1 { 1 } else { nh };
                lemma_scaled_fits(sw, nh, sh);
            }
            assert(1 <= tw <= w && 1 <= th <= h);
            assert(w * th * 16 <= w * h * 16) by (nonlinear_arith)
                requires
                    th <= h,
            ;
            assert(tw * th * 4 <= w * h * 16) by (nonlinear_arith)
                requires
                    tw <= w,
                    th <= h,
            ;
        } else {
            assert(tw == 1 && th == 1);
            assert(w * th * 16 == w * 16);
            assert(tw * th * 4 == 4);
        }
    }
    image.resize(tw, th)
}

/// Playback position: `elapsed_ms` wrapped around once it passes the last
/// timestamp, i.e. taken modulo one more than the last timestamp.
pub open spec fn looped_elapsed(timestamps: Seq<u64>, elapsed_ms: u64) -> int {
    elapsed_ms as int % (timestamps[timestamps.len() - 1] as int + 1)
}

/// Given frame timestamps and the time since playback started, the frame
/// to show: the last one whose timestamp is not after the playback position,
/// which loops back to the start once it passes the last timestamp; the first
/// frame when none is.
pub fn frame_index_at(timestamps_ms: &[u64], elapsed_ms: u64) -> (r: usize)
    ensures
        timestamps_ms@.len() == 0 ==> r == 0,
        timestamps_ms@.len() > 0 ==> {
            let pos = looped_elapsed(timestamps_ms@, elapsed_ms);
            &&& r < timestamps_ms@.len()
            &&& forall|j: int| r < j < timestamps_ms@.len() ==> timestamps_ms@[j] > pos
            &&& timestamps_ms@[r as int] <= pos || (r == 0 && forall|j: int|
                0 <= j < timestamps_ms@.len() ==> timestamps_ms@[j] > pos)
        },
{
    let n = timestamps_ms.len();
    if n == 0 {
        return 0;
    }
    let last = timestamps_ms[n - 1];
    let looped = if last == u64::MAX {
        elapsed_ms
    } else {
        elapsed_ms % (last + 1)
    };
    assert(looped == looped_elapsed(timestamps_ms@, elapsed_ms)) by {
        if last == u64::MAX {
            vstd::arithmetic::div_mod::lemma_small_mod(elapsed_ms as nat, (last as int + 1) as nat);
        }
    }
    let mut i = n;
    while i > 0
        invariant
            i <= n,
            n == timestamps_ms@.len(),
            n > 0,
            looped == looped_elapsed(timestamps_ms@, elapsed_ms),
            forall|j: int| i <= j < n ==> timestamps_ms@[j] > looped,
        decreases i,
    {
        if timestamps_ms[i - 1] <= looped {
            return i - 1;
        }
        i = i - 1;
    }
    0
}

/// For timestamps that start at zero and never decrease, the frame shown is
/// the one whose time slot holds the playback position: its timestamp is not
/// after the position, and the next frame's (if any) is after it. The position
/// runs from zero up to and including the last timestamp, so the last frame is
/// shown when the elapsed time reaches its timestamp.
pub proof fn lemma_frame_index_in_slot(timestamps: Seq<u64>, elapsed_ms: u64, r: int)
    requires
        timestamps.len() > 0,
        timestamps[0] == 0,
        forall|a: int, b: int| 0 <= a <= b < timestamps.len() ==> timestamps[a] <= timestamps[b],
        0 <= r < timestamps.len(),
        forall|j: int| r < j < timestamps.len() ==> timestamps[j] > looped_elapsed(timestamps, elapsed_ms),
        timestamps[r] <= looped_elapsed(timestamps, elapsed_ms) || (r == 0 && forall|j: int|
            0 <= j < timestamps.len() ==> timestamps[j] > looped_elapsed(timestamps, elapsed_ms)),
    ensures
        timestamps[r] <= looped_elapsed(timestamps, elapsed_ms),
        r + 1 < timestamps.len() ==> looped_elapsed(timestamps, elapsed_ms) < timestamps[r + 1],
        0 <= looped_elapsed(timestamps, elapsed_ms) <= timestamps[timestamps.len() - 1],
        elapsed_ms <= timestamps[timestamps.len() - 1] ==> looped_elapsed(timestamps, elapsed_ms)
            == elapsed_ms,
{
    let pos = looped_elapsed(timestamps, elapsed_ms);
    assert(pos >= 0);
    assert(timestamps[0] <= pos);
    if elapsed_ms <= timestamps[timestamps.len() - 1] {
        vstd::arithmetic::div_mod::lemma_small_mod(
            elapsed_ms as nat,
            (timestamps[timestamps.len() - 1] as int + 1) as nat,
        );
    }
}

/// The editor's filmstrip: one thumbnail per frame and the selected index.
pub struct Filmstrip<T> {
    thumbnails: Vec<T>,
    selected: usize,
}

impl<T: Clone> Filmstrip<T> {
    /// The thumbnails, in frame order.
    pub closed spec fn items(&self) -> Seq<T> {
        self.thumbnails@
    }

    /// The selected index.
    pub closed spec fn selection(&self) -> usize {
        self.selected
    }

    pub fn selected(&self) -> (r: usize)
        ensures
            r == self.selection(),
    {
        self.selected
    }

    /// Selects the thumbnail at `index`.
    pub fn select(&mut self, index: usize)
        ensures
            final(self).items() == old(self).items(),
            final(self).selection() == index,
    {
        self.selected = index;
    }

    /// A filmstrip over `thumbnails` with the first one selected.
    pub fn new(thumbnails: Vec<T>) -> (r: Self)
        ensures
            r.items() == thumbnails@,
            r.selection() == 0,
    {
        Filmstrip { thumbnails, selected: 0 }
    }

    pub fn len(&self) -> (r: usize)
        ensures
            r == self.items().len(),
    {
        self.thumbnails.len()
    }

    pub fn thumbnails(&self) -> (r: &[T])
        ensures
            r@ == self.items(),
    {
        self.thumbnails.as_slice()
    }

    /// Drops the thumbnail of the deleted frame at `index` and moves the
    /// selection as [`selection_after_delete`] says.
    pub fn apply_delete(&mut self, index: usize)
        requires
            index < old(self).items().len(),
        ensures
            final(self).items() == old(self).items().remove(index as int),
            final(self).selection() == selection_after_delete_spec(
                old(self).selection() as int,
                index as int,
                old(self).items().len() - 1,
            ),
            old(self).selection() < old(self).items().len() && index != old(self).selection()
                ==> final(self).items()[final(self).selection() as int] == old(self).items()[old(
                self).selection() as int],
    {
        proof {
            if old(self).selection() < old(self).items().len() && index != old(self).selection() {
                lemma_delete_keeps_selected_item(
                    old(self).items(),
                    old(self).selection() as int,
                    index as int,
                );
            }
        }
        self.thumbnails.remove(index);
        let remaining = self.thumbnails.len();
        self.selected = selection_after_delete(self.selected, index, remaining);
    }

    /// Moves the thumbnail at `from` to `to` and selects it there.
    pub fn apply_reorder(&mut self, from: usize, to: usize)
        requires
            from < old(self).items().len(),
            to < old(self).items().len(),
        ensures
            final(self).items() == old(self).items().remove(from as int).insert(
                to as int,
                old(self).items()[from as int],
            ),
            final(self).selection() == to,
    {
        let thumbnail = self.thumbnails.remove(from);
        self.thumbnails.insert(to, thumbnail);
        self.selected = to;
    }

    /// Inserts a copy of the thumbnail at `index` right after it and selects
    /// the copy.
    pub fn apply_duplicate(&mut self, index: usize)
        requires
            index < old(self).items().len(),
        ensures
            final(self).items().len() == old(self).items().len() + 1,
            forall|k: int| 0 <= k <= index ==> #[trigger] final(self).items()[k] == old(self).items()[k],
            forall|k: int|
                index + 1 < k < final(self).items().len() ==> #[trigger] final(self).items()[k]
                    == old(self).items()[k - 1],
            cloned(old(self).items()[index as int], final(self).items()[index + 1]),
            final(self).selection() == index + 1,
    {
        proof {
            assert(self.thumbnails.len() == self.thumbnails@.len());
        }
        let copy = self.thumbnails[index].clone();
        self.thumbnails.insert(index + 1, copy);
        self.selected = selection_after_duplicate(index);
    }
}

/// [`selection_after_delete`] as a formula.
pub open spec fn selection_after_delete_spec(selected: int, deleted: int, remaining_len: int) -> int {
    if remaining_len == 0 {
        0
    } else if deleted < selected {
        selected - 1
    } else if selected < remaining_len {
        selected
    } else {
        remaining_len - 1
    }
}

/// Deleting a frame before the selected one shifts the selection one place
/// left, and deleting any frame other than the selected one leaves the same
/// item selected: the selected item of what is left is the item that was
/// selected before.
pub proof fn lemma_delete_keeps_selected_item<T>(items: Seq<T>, selected: int, deleted: int)
    requires
        0 <= selected < items.len(),
        0 <= deleted < items.len(),
        deleted != selected,
    ensures
        deleted < selected ==> selection_after_delete_spec(selected, deleted, items.len() - 1)
            == selected - 1,
        deleted > selected ==> selection_after_delete_spec(selected, deleted, items.len() - 1)
            == selected,
        items.remove(deleted)[selection_after_delete_spec(selected, deleted, items.len() - 1)]
            == items[selected],
{
}

/// Deleting the selected frame selects the frame that followed it, now in its
/// place, or the new last frame when the deleted one was the last.
pub proof fn lemma_delete_selected_moves_on<T>(items: Seq<T>, selected: int)
    requires
        0 <= selected < items.len(),
        items.len() > 1,
    ensures
        selected + 1 < items.len() ==> items.remove(selected)[selection_after_delete_spec(
            selected,
            selected,
            items.len() - 1,
        )] == items[selected + 1],
        selected + 1 == items.len() ==> selection_after_delete_spec(
            selected,
            selected,
            items.len() - 1,
        ) == items.len() - 2,
{
}

/// After a deletion the selection points at a frame that is still there, as
/// long as one is left.
pub proof fn lemma_selection_stays_in_range(selected: int, deleted: int, remaining_len: int)
    requires
        0 <= selected <= remaining_len,
        0 <= deleted <= remaining_len,
    ensures
        remaining_len > 0 ==> 0 <= selection_after_delete_spec(selected, deleted, remaining_len)
            < remaining_len,
        remaining_len == 0 ==> selection_after_delete_spec(selected, deleted, remaining_len) == 0,
{
}

/// Applying the same edit to the frame list and to the filmstrip keeps each
/// thumbnail next to its own frame: if thumbnail `k` shows frame `k` for every
/// `k` before a delete, a move or a duplication (whose copied thumbnail shows
/// the same frame as the original), the same holds after it.
pub proof fn lemma_filmstrip_follows_frames<T>(
    frames: Seq<FrameView>,
    thumbs: Seq<T>,
    shows: spec_fn(FrameView, T) -> bool,
    a: int,
    b: int,
    copy: T,
)
    requires
        frames.len() == thumbs.len(),
        forall|k: int| 0 <= k < frames.len() ==> shows(#[trigger] frames[k], thumbs[k]),
        0 <= a < frames.len(),
        0 <= b < frames.len(),
        shows(frames[a], copy),
    ensures
        ({
            let f = frames.remove(a);
            let t = thumbs.remove(a);
            f.len() == t.len() && forall|k: int| 0 <= k < f.len() ==> shows(#[trigger] f[k], t[k])
        }),
        ({
            let f = moved(frames, a, b);
            let t = thumbs.remove(a).insert(b, thumbs[a]);
            f.len() == t.len() && forall|k: int| 0 <= k < f.len() ==> shows(#[trigger] f[k], t[k])
        }),
        ({
            let f = with_copy(frames, a);
            let t = thumbs.insert(a + 1, copy);
            f.len() == t.len() && forall|k: int| 0 <= k < f.len() ==> shows(#[trigger] f[k], t[k])
        }),
{
    let f = moved(frames, a, b);
    let t = thumbs.remove(a).insert(b, thumbs[a]);
    assert forall|k: int| 0 <= k < f.len() implies shows(#[trigger] f[k], t[k]) by {
        if k < b {
            if k < a {
                assert(f[k] == frames[k] && t[k] == thumbs[k]);
            } else {
                assert(f[k] == frames[k + 1] && t[k] == thumbs[k + 1]);
            }
        } else if k == b {
            assert(f[k] == frames[a] && t[k] == thumbs[a]);
        } else {
            if k - 1 < a {
                assert(f[k] == frames[k - 1] && t[k] == thumbs[k - 1]);
            } else {
                assert(f[k] == frames[k] && t[k] == thumbs[k]);
            }
        }
    }
    let f2 = frames.remove(a);
    let t2 = thumbs.remove(a);
    assert forall|k: int| 0 <= k < f2.len() implies shows(#[trigger] f2[k], t2[k]) by {
        if k < a {
            assert(f2[k] == frames[k] && t2[k] == thumbs[k]);
        } else {
            assert(f2[k] == frames[k + 1] && t2[k] == thumbs[k + 1]);
        }
    }
    let f3 = with_copy(frames, a);
    let t3 = thumbs.insert(a + 1, copy);
    assert forall|k: int| 0 <= k < f3.len() implies shows(#[trigger] f3[k], t3[k]) by {
        if k <= a {
            assert(f3[k] == frames[k] && t3[k] == thumbs[k]);
        } else if k == a + 1 {
            assert(f3[k] == frames[a] && t3[k] == copy);
        } else {
            assert(f3[k] == frames[k - 1] && t3[k] == thumbs[k - 1]);
        }
    }
}

} // verus!
