use ayeaye::editor::{CropRect, EditorError, Frame, FrameList};
use ayeaye::raster::Image;
use image::RgbaImage;

fn to_image(img: RgbaImage) -> Image {
    let (w, h) = img.dimensions();
    Image::from_raw(w, h, img.into_raw()).unwrap()
}

fn to_rgba(img: &Image) -> RgbaImage {
    RgbaImage::from_raw(img.width(), img.height(), img.pixels().to_vec()).unwrap()
}

fn make_frame(tag: u8) -> Frame {
    Frame {
        image: to_image(RgbaImage::from_pixel(1, 1, image::Rgba([tag, 0, 0, 255]))),
        timestamp_ms: tag as u64 * 100,
    }
}

fn tags(list: &FrameList) -> Vec<u8> {
    list.frames().iter().map(|f| f.image.pixel(0, 0)[0]).collect()
}

fn blur_window(window: &Image) -> Image {
    to_image(image::imageops::blur(&to_rgba(window), 2.0))
}

fn draw_text(img: &Image, position: (u32, u32), text: &str, color: [u8; 4]) -> Image {
    let definitions = eframe::egui::FontDefinitions::default();
    let data = definitions.font_data.get("Ubuntu-Light").unwrap().clone();
    let bytes: &[u8] = (*data.font).as_ref();
    let font = ab_glyph::FontRef::try_from_slice(bytes).unwrap();
    let mut full = to_rgba(img);
    imageproc::drawing::draw_text_mut(
        &mut full,
        image::Rgba(color),
        position.0 as i32,
        position.1 as i32,
        ab_glyph::PxScale::from(20.0),
        &font,
        text,
    );
    to_image(full)
}

#[test]
fn new_list_reports_correct_len() {
    let list = FrameList::new(vec![make_frame(1), make_frame(2), make_frame(3)]);
    assert_eq!(list.len(), 3);
    assert!(!list.is_empty());
}

#[test]
fn empty_list_is_empty() {
    let list = FrameList::new(vec![]);
    assert_eq!(list.len(), 0);
    assert!(list.is_empty());
}

#[test]
fn delete_removes_the_frame_at_index() {
    let mut list = FrameList::new(vec![make_frame(1), make_frame(2), make_frame(3)]);
    list.delete(1).unwrap();
    assert_eq!(tags(&list), vec![1, 3]);
}

#[test]
fn delete_out_of_bounds_returns_error() {
    let mut list = FrameList::new(vec![make_frame(1)]);
    assert_eq!(list.delete(5), Err(EditorError::IndexOutOfBounds));
}

#[test]
fn reorder_moves_frame_to_new_position() {
    let mut list = FrameList::new(vec![make_frame(1), make_frame(2), make_frame(3)]);
    list.reorder(0, 2).unwrap();
    assert_eq!(tags(&list), vec![2, 3, 1]);
}

#[test]
fn reorder_out_of_bounds_returns_error() {
    let mut list = FrameList::new(vec![make_frame(1), make_frame(2)]);
    assert_eq!(list.reorder(0, 9), Err(EditorError::IndexOutOfBounds));
}

#[test]
fn crop_shrinks_every_frame_to_the_requested_rect() {
    let mut list = FrameList::new(vec![
        Frame {
            image: to_image(RgbaImage::from_fn(4, 4, |x, y| image::Rgba([x as u8, y as u8, 0, 255]))),
            timestamp_ms: 0,
        },
        Frame {
            image: to_image(RgbaImage::from_fn(4, 4, |x, y| image::Rgba([x as u8, y as u8, 0, 255]))),
            timestamp_ms: 100,
        },
    ]);
    list.crop(CropRect { x: 1, y: 1, width: 2, height: 2 }).unwrap();
    for frame in list.frames() {
        assert_eq!((frame.image.width(), frame.image.height()), (2, 2));
        // pixel (0,0) of the cropped image is pixel (1,1) of the original
        assert_eq!(frame.image.pixel(0, 0), [1, 1, 0, 255]);
    }
}

#[test]
fn crop_rect_outside_frame_bounds_returns_error() {
    let mut list = FrameList::new(vec![Frame {
        image: to_image(RgbaImage::from_pixel(4, 4, image::Rgba([0, 0, 0, 255]))),
        timestamp_ms: 0,
    }]);
    let err = list.crop(CropRect { x: 3, y: 3, width: 4, height: 4 }).unwrap_err();
    assert_eq!(err, EditorError::InvalidCropRect);
}

#[test]
fn crop_with_zero_size_returns_error() {
    let mut list = FrameList::new(vec![Frame {
        image: to_image(RgbaImage::from_pixel(4, 4, image::Rgba([0, 0, 0, 255]))),
        timestamp_ms: 0,
    }]);
    let err = list.crop(CropRect { x: 0, y: 0, width: 0, height: 2 }).unwrap_err();
    assert_eq!(err, EditorError::InvalidCropRect);
}

#[test]
fn duplicate_inserts_a_copy_right_after_the_source() {
    let mut list = FrameList::new(vec![make_frame(1), make_frame(2), make_frame(3)]);
    list.duplicate(0).unwrap();
    assert_eq!(tags(&list), vec![1, 1, 2, 3]);
    assert_eq!(list.len(), 4);
}

#[test]
fn duplicate_out_of_bounds_returns_error() {
    let mut list = FrameList::new(vec![make_frame(1)]);
    assert_eq!(list.duplicate(5), Err(EditorError::IndexOutOfBounds));
}

#[test]
fn blur_smooths_pixels_only_inside_the_region_across_all_frames() {
    let make = || {
        to_image(RgbaImage::from_fn(4, 4, |x, _y| {
            if x < 2 { image::Rgba([0, 0, 0, 255]) } else { image::Rgba([255, 255, 255, 255]) }
        }))
    };
    let mut list = FrameList::new(vec![
        Frame { image: make(), timestamp_ms: 0 },
        Frame { image: make(), timestamp_ms: 100 },
    ]);
    list.blur(CropRect { x: 1, y: 0, width: 2, height: 4 }, blur_window).unwrap();
    for frame in list.frames() {
        assert_eq!(frame.image.pixel(0, 0), [0, 0, 0, 255]);
        assert_eq!(frame.image.pixel(3, 0), [255, 255, 255, 255]);
        let mixed = frame.image.pixel(1, 0);
        assert_ne!(mixed, [0, 0, 0, 255]);
        assert_ne!(mixed, [255, 255, 255, 255]);
    }
}

#[test]
fn blur_rect_outside_frame_bounds_returns_error() {
    let mut list = FrameList::new(vec![Frame {
        image: to_image(RgbaImage::from_pixel(4, 4, image::Rgba([0, 0, 0, 255]))),
        timestamp_ms: 0,
    }]);
    let err = list.blur(CropRect { x: 3, y: 3, width: 4, height: 4 }, blur_window).unwrap_err();
    assert_eq!(err, EditorError::InvalidCropRect);
}

#[test]
fn blur_with_zero_size_rect_returns_error() {
    let mut list = FrameList::new(vec![Frame {
        image: to_image(RgbaImage::from_pixel(4, 4, image::Rgba([0, 0, 0, 255]))),
        timestamp_ms: 0,
    }]);
    let err = list.blur(CropRect { x: 0, y: 0, width: 0, height: 2 }, blur_window).unwrap_err();
    assert_eq!(err, EditorError::InvalidCropRect);
}

#[test]
fn add_text_changes_pixels_in_its_area_across_all_frames() {
    let mut list = FrameList::new(vec![
        Frame { image: to_image(RgbaImage::from_pixel(60, 30, image::Rgba([0, 0, 0, 255]))), timestamp_ms: 0 },
        Frame { image: to_image(RgbaImage::from_pixel(60, 30, image::Rgba([0, 0, 0, 255]))), timestamp_ms: 100 },
    ]);
    list.add_text((5, 2), "Hi".to_string(), [255, 255, 255, 255], draw_text).unwrap();
    for frame in list.frames() {
        let changed = frame.image.pixels().chunks(4).filter(|p| *p != [0, 0, 0, 255]).count();
        assert!(changed > 0, "expected at least one pixel changed by the drawn text");
    }
}

#[test]
fn add_text_rejects_empty_text() {
    let mut list = FrameList::new(vec![Frame {
        image: to_image(RgbaImage::from_pixel(10, 10, image::Rgba([0, 0, 0, 255]))),
        timestamp_ms: 0,
    }]);
    let err = list.add_text((0, 0), String::new(), [255, 255, 255, 255], draw_text).unwrap_err();
    assert_eq!(err, EditorError::EmptyText);
}
