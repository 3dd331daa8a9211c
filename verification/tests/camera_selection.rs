use vision_lab::camera::{
    connect_sim_camera, default_device_id, ensure_active_selection, real_camera_unavailable_message,
    refresh_sim_devices, select_device, select_format, sim_initial_control, sim_tick,
    start_sim_stream, stop_sim_stream, validate_active_selection, CameraLifecycle,
    CameraPermissionStatus, CameraSelection, DeviceChoice,
};
use vision_lab::comm::{error_message, ApiError};

fn test_device(id: &str) -> DeviceChoice {
    DeviceChoice {
        id: id.to_string(),
        is_default: false,
        format_ids: vec![format!("{id}:640x480")],
    }
}

fn selection(devices: Vec<DeviceChoice>) -> CameraSelection {
    CameraSelection { devices, active_device_id: None, active_format_id: None }
}

#[test]
fn select_device_picks_first_format() {
    let mut state = selection(vec![test_device("a"), test_device("b")]);
    select_device(&mut state, "b").expect("device should be selectable");
    assert_eq!(state.active_device_id.as_deref(), Some("b"));
    assert_eq!(state.active_format_id.as_deref(), Some("b:640x480"));
}

#[test]
fn select_format_rejects_inactive_device_format() {
    let mut state = selection(vec![test_device("a"), test_device("b")]);
    state.active_device_id = Some("a".to_string());
    let error = select_format(&mut state, "b:640x480").expect_err("format should reject");
    assert!(error_message(error).contains("not available"));
}

#[test]
fn unknown_device_is_refused_without_change() {
    let mut state = selection(vec![test_device("a")]);
    let error = select_device(&mut state, "zzz").unwrap_err();
    assert_eq!(error_message(error), "invalid request: camera device not found: zzz");
    assert_eq!(state.active_device_id, None);
}

#[test]
fn format_needs_an_active_device() {
    let mut state = selection(vec![test_device("a")]);
    let error = select_format(&mut state, "a:640x480").unwrap_err();
    assert_eq!(
        error_message(error),
        "invalid request: select a camera device before selecting a format"
    );
}

#[test]
fn default_device_prefers_marked_default() {
    let mut b = test_device("b");
    b.is_default = true;
    assert_eq!(default_device_id(&vec![test_device("a"), b]).as_deref(), Some("b"));
    assert_eq!(default_device_id(&vec![test_device("a"), test_device("c")]).as_deref(), Some("a"));
    assert_eq!(default_device_id(&vec![]), None);
}

#[test]
fn ensure_fills_in_default_selection() {
    let mut state = selection(vec![test_device("a"), test_device("b")]);
    ensure_active_selection(&mut state).unwrap();
    assert_eq!(state.active_device_id.as_deref(), Some("a"));
    assert_eq!(state.active_format_id.as_deref(), Some("a:640x480"));
    let mut empty = selection(vec![]);
    let error = ensure_active_selection(&mut empty).unwrap_err();
    assert_eq!(error_message(error), "invalid request: no camera device is available");
}

#[test]
fn validation_reports_missing_and_foreign_formats() {
    let mut state = selection(vec![test_device("a")]);
    state.active_device_id = Some("a".to_string());
    let error = validate_active_selection(&state).unwrap_err();
    assert_eq!(error_message(error), "invalid request: no camera format is selected");
    state.active_format_id = Some("x".to_string());
    let error = validate_active_selection(&state).unwrap_err();
    assert_eq!(
        error_message(error),
        "invalid request: camera format not available on active device: x"
    );
    let no_formats = DeviceChoice { id: "n".to_string(), is_default: false, format_ids: vec![] };
    let mut bare = selection(vec![no_formats]);
    bare.active_device_id = Some("n".to_string());
    assert!(validate_active_selection(&bare).is_ok());
}

#[test]
fn simulated_camera_connects_streams_and_stops() {
    let mut ctl = sim_initial_control();
    assert_eq!(ctl.lifecycle, CameraLifecycle::Disconnected);
    assert_eq!(ctl.selection.active_device_id.as_deref(), Some("simulated-camera"));
    assert_eq!(
        ctl.selection.active_format_id.as_deref(),
        Some("simulated-camera:320x240-gray8")
    );
    let error = start_sim_stream(&mut ctl).unwrap_err();
    assert!(matches!(&error, ApiError::Rejected(m) if m == "camera must be connected before streaming"));
    assert_eq!(sim_tick(&mut ctl), None);
    connect_sim_camera(&mut ctl).unwrap();
    assert_eq!(ctl.lifecycle, CameraLifecycle::Ready);
    assert_eq!(ctl.permission_status, CameraPermissionStatus::Authorized);
    assert_eq!((ctl.frame_width, ctl.frame_height), (320, 240));
    start_sim_stream(&mut ctl).unwrap();
    assert_eq!(ctl.lifecycle, CameraLifecycle::Streaming);
    assert_eq!(sim_tick(&mut ctl), Some(1));
    assert_eq!(sim_tick(&mut ctl), Some(2));
    assert_eq!(refresh_sim_devices(&mut ctl).unwrap(), 1);
    stop_sim_stream(&mut ctl);
    assert_eq!(ctl.lifecycle, CameraLifecycle::Ready);
    assert_eq!(sim_tick(&mut ctl), None);
    assert_eq!(ctl.frame_id, 2);
}

#[test]
fn fallback_message_names_the_simulator() {
    assert_eq!(
        real_camera_unavailable_message(),
        "real macOS camera bridge is unavailable; using the simulator fallback"
    );
}
