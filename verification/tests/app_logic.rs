use ayeaye::capture::{
    frame_interval_ms, monitor_local_origin, pause_after_capture, session_type_from_env, CaptureError, Region,
    SessionType,
};
use ayeaye::crop_tool::crop_rect_from_pixels;
use ayeaye::editor::{CropRect, Frame};
use ayeaye::editor_screen::{frame_index_at, thumbnail_dimensions, Filmstrip};
use ayeaye::encoder::{check_frames, rgba_pixels, EncodeError, ProgressCounter};
use ayeaye::flow::{clears_last_error, hides_main_window, next_phase, Event, Phase};
use ayeaye::raster::Image;
use ayeaye::recording_indicator::recording_status;
use ayeaye::strings::{lang_from_env, Lang};
use ayeaye::text_tool::clamp_to_image;

#[test]
fn crop_rect_from_pixels_clamps_to_the_image() {
    assert_eq!(crop_rect_from_pixels((10, 20), (50, 60), (100, 100)), CropRect { x: 10, y: 20, width: 40, height: 40 });
    assert_eq!(crop_rect_from_pixels((90, 90), (150, 150), (100, 100)), CropRect { x: 90, y: 90, width: 10, height: 10 });
    assert_eq!(crop_rect_from_pixels((5, 5), (5, 3), (100, 100)), CropRect { x: 5, y: 5, width: 1, height: 1 });
    // A drag that starts on the last column still gives a rectangle inside the image.
    assert_eq!(crop_rect_from_pixels((100, 40), (100, 60), (100, 100)), CropRect { x: 99, y: 40, width: 1, height: 20 });
}

#[test]
fn clamp_to_image_keeps_the_position_on_the_image() {
    assert_eq!(clamp_to_image((10, 20), (100, 100)), (10, 20));
    assert_eq!(clamp_to_image((150, 150), (100, 100)), (99, 99));
    assert_eq!(clamp_to_image((3, 3), (0, 0)), (0, 0));
}

#[test]
fn capture_interval_and_local_origin() {
    assert_eq!(frame_interval_ms(0), 1000);
    assert_eq!(frame_interval_ms(12), 83);
    assert_eq!(frame_interval_ms(20), 50);
    let region = Region { x: 1930, y: -5, width: 10, height: 10 };
    assert_eq!(monitor_local_origin(&region, 1920, 0), (10, 0));
    assert_eq!(pause_after_capture(50, 20), 30);
    assert_eq!(pause_after_capture(50, 70), 0);
}

#[test]
fn capture_error_messages() {
    assert_eq!(CaptureError::MonitorNotFound("x".to_string()).message(), "could not find monitor for region: x");
    assert_eq!(CaptureError::CaptureFailed("y".to_string()).message(), "screen capture failed: y");
}

#[test]
fn encoder_refuses_no_frames_and_splits_pixels() {
    assert!(matches!(check_frames(&[]), Err(EncodeError::NoFrames)));
    let img = Image::from_raw(2, 1, vec![1, 2, 3, 4, 5, 6, 7, 8]).unwrap();
    assert_eq!(rgba_pixels(&img), vec![[1, 2, 3, 4], [5, 6, 7, 8]]);
    assert!(check_frames(&[Frame { image: img, timestamp_ms: 0 }]).is_ok());
}

#[test]
fn encode_error_messages() {
    assert_eq!(EncodeError::NoFrames.message(), "cannot encode an empty frame list");
    assert_eq!(EncodeError::Encoding("bad".to_string()).message(), "gif encoding failed: bad");
    let io = EncodeError::Io(std::io::Error::new(std::io::ErrorKind::Other, "disk"));
    assert_eq!(io.message(), "could not write gif file: disk");
}

#[test]
fn progress_counter_counts_up_to_the_total() {
    let mut counter = ProgressCounter::new(2);
    assert_eq!(counter.increase(), (1, 2));
    assert_eq!(counter.increase(), (2, 2));
    assert_eq!(counter.current(), 2);
    assert_eq!(counter.total(), 2);
}

#[test]
fn recording_status_pads_minutes_and_seconds() {
    assert_eq!(recording_status(65, 3), "01:05 · 3 frames");
    assert_eq!(recording_status(0, 0), "00:00 · 0 frames");
    assert_eq!(recording_status(6000, 120), "100:00 · 120 frames");
}

#[test]
fn screens_follow_the_recording_workflow() {
    assert_eq!(next_phase(Phase::Project, Event::FullScreenChosen), Phase::Recording);
    assert_eq!(next_phase(Phase::Project, Event::AreaSelectionChosen), Phase::SelectingArea);
    assert_eq!(next_phase(Phase::SelectingArea, Event::AreaSelected), Phase::Recording);
    assert_eq!(next_phase(Phase::Recording, Event::StopRequested), Phase::Processing);
    assert_eq!(next_phase(Phase::Editing, Event::StopRequested), Phase::Editing);
    assert_eq!(next_phase(Phase::Processing, Event::ProcessingFinished), Phase::Editing);
    assert_eq!(next_phase(Phase::Editing, Event::HeavyEditChosen), Phase::Processing);
    assert_eq!(next_phase(Phase::Editing, Event::ExportChosen), Phase::Exporting);
    assert_eq!(next_phase(Phase::Exporting, Event::ExportFinished { succeeded: true }), Phase::Done);
    assert_eq!(next_phase(Phase::Exporting, Event::ExportFinished { succeeded: false }), Phase::Editing);
    assert_eq!(next_phase(Phase::Editing, Event::NewRecordingChosen), Phase::Project);
    assert!(hides_main_window(Phase::Recording));
    assert!(hides_main_window(Phase::SelectingArea));
    assert!(!hides_main_window(Phase::Editing));
    assert!(clears_last_error(Phase::Editing, Event::ExportChosen));
    assert!(!clears_last_error(Phase::Exporting, Event::ExportFinished { succeeded: false }));
}

#[test]
fn filmstrip_follows_the_edits() {
    let mut strip = Filmstrip::new(vec!['a', 'b', 'c']);
    assert_eq!(strip.selected(), 0);
    strip.apply_duplicate(1);
    assert_eq!(strip.thumbnails(), &['a', 'b', 'b', 'c']);
    assert_eq!(strip.selected(), 2);
    strip.apply_reorder(0, 3);
    assert_eq!(strip.thumbnails(), &['b', 'b', 'c', 'a']);
    assert_eq!(strip.selected(), 3);
    strip.apply_delete(3);
    assert_eq!(strip.thumbnails(), &['b', 'b', 'c']);
    assert_eq!(strip.selected(), 2);
    strip.select(0);
    strip.apply_delete(2);
    assert_eq!(strip.selected(), 0);
    assert_eq!(strip.len(), 2);
}

#[test]
fn thumbnail_dimensions_edge_cases() {
    assert_eq!(thumbnail_dimensions((0, 5), 160), (1, 1));
    assert_eq!(thumbnail_dimensions((3, 2), 1), (1, 1));
    assert_eq!(thumbnail_dimensions((4000, 1), 160), (160, 1));
    assert_eq!(thumbnail_dimensions((300, 100), 160), (160, 53));
}

#[test]
fn frame_index_at_shows_the_last_frame_until_elapsed_passes_it() {
    assert_eq!(frame_index_at(&[0, 100, 200], 200), 2);
    assert_eq!(frame_index_at(&[0, 100, 200], 201), 0);
    assert_eq!(frame_index_at(&[0, 100, u64::MAX], u64::MAX), 2);
}

#[test]
fn frame_index_at_with_a_single_zero_timestamp() {
    assert_eq!(frame_index_at(&[0], 12345), 0);
    assert_eq!(frame_index_at(&[0, 0, 50], 10), 1);
    assert_eq!(frame_index_at(&[10, 20], 5), 0);
}

#[test]
fn lang_detection_edge_cases() {
    assert_eq!(lang_from_env(Some(""), None, Some("pt_BR")), Lang::En);
    assert_eq!(lang_from_env(None, Some("PT"), None), Lang::PtBr);
    assert_eq!(lang_from_env(None, Some("p"), Some("pt")), Lang::En);
}

#[test]
fn strings_hold_each_language() {
    assert_eq!(Lang::En.strings().stop_button, "Stop");
    assert_eq!(Lang::PtBr.strings().stop_button, "Parar");
    assert_eq!(Lang::PtBr.strings().lang(), Lang::PtBr);
    assert_eq!(Lang::En.strings().frame_x_of_n(12, 340), "Frame 12 of 340");
}

#[test]
fn session_type_is_case_sensitive() {
    assert_eq!(session_type_from_env(Some("Wayland")), SessionType::X11);
    assert_eq!(session_type_from_env(Some("")), SessionType::X11);
}
