use ayeaye::editor::{CropRect, EditorError, Frame, FrameList};
use ayeaye::raster::Image;

fn solid(width: u32, height: u32, tag: u8) -> Image {
    let mut bytes = Vec::new();
    for y in 0..height {
        for x in 0..width {
            bytes.extend_from_slice(&[tag, x as u8, y as u8, 255]);
        }
    }
    Image::from_raw(width, height, bytes).unwrap()
}

fn list_of(tags: &[u8]) -> FrameList {
    FrameList::new(tags.iter().map(|&t| Frame { image: solid(1, 1, t), timestamp_ms: t as u64 }).collect())
}

fn tags(list: &FrameList) -> Vec<u8> {
    list.frames().iter().map(|f| f.image.pixel(0, 0)[0]).collect()
}

#[test]
fn reorder_back_restores_the_order() {
    let mut list = list_of(&[1, 2, 3, 4, 5]);
    list.reorder(1, 3).unwrap();
    assert_eq!(tags(&list), vec![1, 3, 4, 2, 5]);
    list.reorder(3, 1).unwrap();
    assert_eq!(tags(&list), vec![1, 2, 3, 4, 5]);
}

#[test]
fn reorder_to_the_same_place_changes_nothing() {
    let mut list = list_of(&[1, 2, 3]);
    list.reorder(1, 1).unwrap();
    assert_eq!(tags(&list), vec![1, 2, 3]);
}

#[test]
fn deleting_the_copy_undoes_a_duplicate() {
    let mut list = list_of(&[7, 8, 9]);
    list.duplicate(1).unwrap();
    assert_eq!(tags(&list), vec![7, 8, 8, 9]);
    list.delete(2).unwrap();
    assert_eq!(tags(&list), vec![7, 8, 9]);
}

#[test]
fn duplicate_copies_timestamp_and_pixels() {
    let mut list = FrameList::new(vec![Frame { image: solid(3, 2, 4), timestamp_ms: 40 }]);
    list.duplicate(0).unwrap();
    let frames = list.frames();
    assert_eq!(frames[1].timestamp_ms, 40);
    assert_eq!(frames[1].image.pixels(), frames[0].image.pixels());
}

#[test]
fn refused_edits_leave_the_list_unchanged() {
    let mut list = list_of(&[1, 2]);
    assert_eq!(list.delete(2), Err(EditorError::IndexOutOfBounds));
    assert_eq!(list.reorder(2, 0), Err(EditorError::IndexOutOfBounds));
    assert_eq!(list.duplicate(9), Err(EditorError::IndexOutOfBounds));
    assert_eq!(list.crop(CropRect { x: 0, y: 0, width: 2, height: 1 }), Err(EditorError::InvalidCropRect));
    assert_eq!(tags(&list), vec![1, 2]);
    assert_eq!(list.frames()[0].image.width(), 1);
}

#[test]
fn cropping_twice_is_one_crop_moved_by_the_first_corner() {
    let make = || FrameList::new(vec![Frame { image: solid(6, 5, 0), timestamp_ms: 10 }]);
    let mut twice = make();
    twice.crop(CropRect { x: 1, y: 1, width: 4, height: 3 }).unwrap();
    twice.crop(CropRect { x: 2, y: 1, width: 2, height: 2 }).unwrap();
    let mut once = make();
    once.crop(CropRect { x: 3, y: 2, width: 2, height: 2 }).unwrap();
    assert_eq!(twice.frames()[0].image.pixels(), once.frames()[0].image.pixels());
    assert_eq!(twice.frames()[0].image.pixel(0, 0), [0, 3, 2, 255]);
    assert_eq!(twice.frames()[0].timestamp_ms, 10);
}

#[test]
fn crop_must_fit_every_frame() {
    let mut list = FrameList::new(vec![
        Frame { image: solid(4, 4, 1), timestamp_ms: 0 },
        Frame { image: solid(2, 4, 2), timestamp_ms: 1 },
    ]);
    assert_eq!(list.validate_rect(&CropRect { x: 0, y: 0, width: 3, height: 1 }), Err(EditorError::InvalidCropRect));
    assert_eq!(list.validate_rect(&CropRect { x: 1, y: 3, width: 1, height: 1 }), Ok(()));
    assert_eq!(list.crop(CropRect { x: 0, y: 0, width: 3, height: 1 }), Err(EditorError::InvalidCropRect));
    assert_eq!(list.frames()[0].image.width(), 4);
}

#[test]
fn crop_with_an_overflowing_corner_is_refused() {
    let mut list = list_of(&[1]);
    let rect = CropRect { x: u32::MAX, y: 0, width: 2, height: 1 };
    assert_eq!(list.crop(rect), Err(EditorError::InvalidCropRect));
}

#[test]
fn crop_of_an_empty_list_succeeds_for_any_non_empty_rect() {
    let mut list = FrameList::new(vec![]);
    assert_eq!(list.crop(CropRect { x: 9, y: 9, width: 1, height: 1 }), Ok(()));
    assert!(list.is_empty());
}

#[test]
fn blur_and_text_keep_timestamps_and_call_the_renderer_per_frame() {
    let mut list = list_of(&[1, 2, 3]);
    list.blur(CropRect { x: 0, y: 0, width: 1, height: 1 }, |img: &Image| solid(1, 1, img.pixel(0, 0)[0] + 10))
        .unwrap();
    assert_eq!(tags(&list), vec![11, 12, 13]);
    list.add_text((0, 0), "x".to_string(), [1, 2, 3, 4], |img: &Image, _p: (u32, u32), t: &str, c: [u8; 4]| {
        assert_eq!(t, "x");
        solid(1, 1, img.pixel(0, 0)[0] + c[0])
    })
    .unwrap();
    assert_eq!(tags(&list), vec![12, 13, 14]);
    let stamps: Vec<u64> = list.frames().iter().map(|f| f.timestamp_ms).collect();
    assert_eq!(stamps, vec![1, 2, 3]);
}

#[test]
fn editor_error_messages() {
    assert_eq!(EditorError::IndexOutOfBounds.message(), "frame index out of bounds");
    assert_eq!(EditorError::InvalidCropRect.message(), "crop rect is invalid for this frame");
    assert_eq!(EditorError::EmptyText.message(), "text must not be empty");
}

#[test]
fn image_from_raw_checks_the_length() {
    assert!(Image::from_raw(2, 2, vec![0; 15]).is_none());
    assert!(Image::from_raw(2, 2, vec![0; 17]).is_none());
    let img = Image::from_raw(2, 1, vec![1, 2, 3, 4, 5, 6, 7, 8]).unwrap();
    assert_eq!(img.pixel(1, 0), [5, 6, 7, 8]);
    assert_eq!(img.clone().into_raw(), vec![1, 2, 3, 4, 5, 6, 7, 8]);
}

#[test]
fn image_crop_takes_the_window() {
    let img = solid(4, 3, 9);
    let window = img.crop(1, 1, 2, 2);
    assert_eq!((window.width(), window.height()), (2, 2));
    assert_eq!(window.pixel(1, 1), [9, 2, 2, 255]);
    assert_eq!(window.pixels().len(), 16);
}

#[test]
fn blur_changes_only_the_window_and_lays_the_blurred_window_back() {
    let mut list = FrameList::new(vec![Frame { image: solid(5, 4, 7), timestamp_ms: 3 }]);
    let before = list.frames()[0].image.clone();
    // The window function sees exactly the cut-out window.
    list.blur(CropRect { x: 1, y: 2, width: 3, height: 2 }, |w: &Image| {
        assert_eq!((w.width(), w.height()), (3, 2));
        assert_eq!(w.pixel(0, 0), [7, 1, 2, 255]);
        solid(3, 2, 99)
    })
    .unwrap();
    let after = &list.frames()[0].image;
    assert_eq!((after.width(), after.height()), (5, 4));
    for y in 0..4 {
        for x in 0..5 {
            let inside = (1..4).contains(&x) && (2..4).contains(&y);
            if inside {
                assert_eq!(after.pixel(x, y), [99, (x - 1) as u8, (y - 2) as u8, 255]);
            } else {
                assert_eq!(after.pixel(x, y), before.pixel(x, y));
            }
        }
    }
    assert_eq!(list.frames()[0].timestamp_ms, 3);
}

#[test]
fn overlay_with_transparent_top_keeps_the_bottom() {
    let bottom = solid(3, 3, 5);
    let top = Image::from_raw(1, 1, vec![200, 200, 200, 0]).unwrap();
    let out = bottom.overlay(&top, 1, 1);
    assert_eq!(out.pixels(), bottom.pixels());
}

#[test]
fn resize_to_the_same_size_copies_and_thumbnails_shrink() {
    let img = solid(4, 2, 8);
    assert_eq!(img.resize(4, 2).pixels(), img.pixels());
    let big = solid(320, 160, 1);
    let thumb = ayeaye::editor_screen::thumbnail(&big, 160);
    assert_eq!((thumb.width(), thumb.height()), (160, 80));
    let empty = Image::from_raw(0, 3, vec![]).unwrap();
    let t = ayeaye::editor_screen::thumbnail(&empty, 160);
    assert_eq!((t.width(), t.height()), (1, 1));
    assert_eq!(t.pixels(), &[0, 0, 0, 0]);
}
