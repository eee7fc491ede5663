use ayeaye::capture::{bounding_box, session_type_from_env, Region, SessionType};

#[test]
fn bounding_box_of_single_monitor_is_itself() {
    let r = Region { x: 0, y: 0, width: 1920, height: 1080 };
    assert_eq!(bounding_box(&[r]), r);
}

#[test]
fn bounding_box_spans_two_side_by_side_monitors() {
    let a = Region { x: 0, y: 0, width: 1920, height: 1080 };
    let b = Region { x: 1920, y: 0, width: 1280, height: 1024 };
    let bounds = bounding_box(&[a, b]);
    assert_eq!((bounds.x, bounds.y, bounds.width, bounds.height), (0, 0, 3200, 1080));
}

#[test]
fn bounding_box_handles_a_monitor_with_negative_origin() {
    let a = Region { x: -1920, y: 0, width: 1920, height: 1080 };
    let b = Region { x: 0, y: 0, width: 1920, height: 1080 };
    let bounds = bounding_box(&[a, b]);
    assert_eq!((bounds.x, bounds.y, bounds.width, bounds.height), (-1920, 0, 3840, 1080));
}

#[test]
fn bounding_box_of_empty_slice_is_zero_sized() {
    let bounds = bounding_box(&[]);
    assert_eq!((bounds.x, bounds.y, bounds.width, bounds.height), (0, 0, 0, 0));
}

#[test]
fn session_type_from_env_wayland_is_wayland() {
    assert_eq!(session_type_from_env(Some("wayland")), SessionType::Wayland);
}

#[test]
fn session_type_from_env_x11_is_x11() {
    assert_eq!(session_type_from_env(Some("x11")), SessionType::X11);
}

#[test]
fn session_type_from_env_missing_defaults_to_x11() {
    assert_eq!(session_type_from_env(None), SessionType::X11);
}

#[test]
fn session_type_from_env_unknown_value_defaults_to_x11() {
    assert_eq!(session_type_from_env(Some("mir")), SessionType::X11);
}
