use vision_lab::camera::{
    sim_initial_control, CameraControl, CameraLifecycle, CameraPermissionStatus, CameraPosition,
    CameraSelection, CameraTransport, DeviceChoice,
};
use vision_lab::comm::{error_message, ApiError};
use vision_lab::frame::PixelFormat;
use vision_lab::native_camera::{
    begin_connect, capture_device_id, check_stream_start, connected, device_position,
    device_transport, devices_refreshed, drops_reported, find_native_format, frame_reported,
    native_format_id, native_gray_frame, non_empty_text, permission_denied,
    requested_format_index, restart_needed, stream_started, stream_stopped,
};
use vision_lab::pixel_convert::{
    convert_packed_rows_to_gray, PIXEL_FORMAT_32_BGRA, PIXEL_FORMAT_422_YPCBCR8,
};

fn native_device(id: &str, formats: usize) -> DeviceChoice {
    DeviceChoice {
        id: id.to_string(),
        is_default: false,
        format_ids: (0..formats).map(|index| native_format_id(id, index)).collect(),
    }
}

fn disconnected() -> CameraControl {
    let mut ctl = sim_initial_control();
    ctl.selection = CameraSelection {
        devices: Vec::new(),
        active_device_id: None,
        active_format_id: None,
    };
    ctl.permission_status = CameraPermissionStatus::Unknown;
    ctl
}

#[test]
fn denied_permission_fails_the_connection() {
    let mut ctl = disconnected();
    let error = begin_connect(&mut ctl, CameraPermissionStatus::Denied).unwrap_err();
    assert_eq!(ctl.lifecycle, CameraLifecycle::Error);
    assert_eq!(ctl.permission_status, CameraPermissionStatus::Denied);
    assert_eq!(ctl.error.as_deref(), Some("camera permission is not authorized"));
    assert_eq!(error_message(error), "command rejected: camera permission is not authorized");
}

#[test]
fn authorized_connection_discovers_devices_and_becomes_ready() {
    let mut ctl = disconnected();
    begin_connect(&mut ctl, CameraPermissionStatus::Authorized).unwrap();
    assert_eq!(ctl.lifecycle, CameraLifecycle::Connecting);
    let devices = vec![native_device("cam-a", 2), native_device("cam-b", 1)];
    devices_refreshed(&mut ctl, devices, CameraPermissionStatus::Authorized).unwrap();
    assert_eq!(ctl.selection.devices.len(), 2);
    assert_eq!(ctl.selection.active_device_id.as_deref(), Some("cam-a"));
    assert_eq!(ctl.selection.active_format_id.as_deref(), Some("cam-a:format:0"));
    connected(&mut ctl);
    assert_eq!(ctl.lifecycle, CameraLifecycle::Ready);
    assert!(ctl.error.is_none());
}

#[test]
fn discovering_no_device_is_refused() {
    let mut ctl = disconnected();
    let error = devices_refreshed(&mut ctl, Vec::new(), CameraPermissionStatus::Authorized)
        .unwrap_err();
    assert!(matches!(error, ApiError::InvalidRequest(ref m) if m == "no camera device is available"));
    assert_eq!(ctl.permission_status, CameraPermissionStatus::Authorized);
}

#[test]
fn stream_start_needs_permission_then_a_connection() {
    let mut ctl = disconnected();
    ctl.selection.devices = vec![native_device("cam", 1)];
    let error = check_stream_start(&mut ctl).unwrap_err();
    assert!(matches!(error, ApiError::Rejected(ref m) if m == "camera permission is not authorized"));
    assert_eq!(ctl.lifecycle, CameraLifecycle::Error);

    let mut ctl = disconnected();
    ctl.selection.devices = vec![native_device("cam", 1)];
    ctl.permission_status = CameraPermissionStatus::Authorized;
    let error = check_stream_start(&mut ctl).unwrap_err();
    assert!(matches!(error, ApiError::Rejected(ref m) if m == "camera must be connected before streaming"));
    assert_eq!(ctl.lifecycle, CameraLifecycle::Disconnected);

    ctl.lifecycle = CameraLifecycle::Ready;
    check_stream_start(&mut ctl).unwrap();
    assert_eq!(ctl.selection.active_format_id.as_deref(), Some("cam:format:0"));
    assert!(!restart_needed(&ctl));
    stream_started(&mut ctl);
    assert_eq!(ctl.lifecycle, CameraLifecycle::Streaming);
    assert!(restart_needed(&ctl));
    stream_stopped(&mut ctl);
    assert_eq!(ctl.lifecycle, CameraLifecycle::Ready);
}

#[test]
fn stream_start_with_an_invalid_selection_is_refused() {
    let mut ctl = disconnected();
    ctl.permission_status = CameraPermissionStatus::Authorized;
    ctl.lifecycle = CameraLifecycle::Ready;
    ctl.selection.devices = vec![native_device("cam", 1)];
    ctl.selection.active_format_id = Some("other:format:3".to_string());
    let error = check_stream_start(&mut ctl).unwrap_err();
    assert!(matches!(
        error,
        ApiError::InvalidRequest(ref m)
            if m == "camera format not available on active device: other:format:3"
    ));
    assert_eq!(ctl.lifecycle, CameraLifecycle::Ready);
}

#[test]
fn permission_denied_keeps_the_selection() {
    let mut ctl = sim_initial_control();
    let before = ctl.selection.active_device_id.clone();
    assert!(permission_denied(&mut ctl).is_err());
    assert_eq!(ctl.selection.active_device_id, before);
    assert_eq!(ctl.lifecycle, CameraLifecycle::Error);
}

#[test]
fn format_ids_name_the_device_and_position() {
    assert_eq!(native_format_id("0x1420000005ac8600", 12), "0x1420000005ac8600:format:12");
    assert_eq!(find_native_format("dev", 3, "dev:format:2"), Some(2));
    assert_eq!(find_native_format("dev", 2, "dev:format:2"), None);
    assert_eq!(find_native_format("dev", 3, "other:format:0"), None);
}

#[test]
fn requested_format_follows_the_active_format() {
    let mut sel = CameraSelection {
        devices: vec![native_device("dev", 3)],
        active_device_id: Some("dev".to_string()),
        active_format_id: None,
    };
    assert_eq!(requested_format_index(&sel, "dev", 3).unwrap(), None);
    sel.active_format_id = Some("dev:format:1".to_string());
    assert_eq!(requested_format_index(&sel, "dev", 3).unwrap(), Some(1));
    let error = requested_format_index(&sel, "dev", 1).unwrap_err();
    assert_eq!(
        error_message(error),
        "invalid request: camera format not available on active device: dev:format:1"
    );
}

#[test]
fn capture_needs_an_active_device() {
    let mut sel = CameraSelection { devices: Vec::new(), active_device_id: None, active_format_id: None };
    let error = capture_device_id(&sel).unwrap_err();
    assert_eq!(error_message(error), "invalid request: no active camera device");
    sel.active_device_id = Some("dev".to_string());
    assert_eq!(capture_device_id(&sel).unwrap(), "dev");
}

#[test]
fn device_position_and_transport_follow_the_platform() {
    assert_eq!(device_position(true, false, true), CameraPosition::Front);
    assert_eq!(device_position(false, true, false), CameraPosition::Back);
    assert_eq!(device_position(false, false, true), CameraPosition::External);
    assert_eq!(device_position(false, false, false), CameraPosition::Unknown);
    assert_eq!(device_transport(true, true), CameraTransport::Continuity);
    assert_eq!(device_transport(false, true), CameraTransport::Usb);
    assert_eq!(device_transport(false, false), CameraTransport::BuiltIn);
}

#[test]
fn empty_platform_text_reads_as_missing() {
    assert_eq!(non_empty_text(String::new()), None);
    assert_eq!(non_empty_text("Apple Inc.".to_string()).as_deref(), Some("Apple Inc."));
}

#[test]
fn captured_and_dropped_frames_are_reported() {
    let mut ctl = sim_initial_control();
    frame_reported(&mut ctl, 41, 1920, 1080);
    drops_reported(&mut ctl, 3);
    assert_eq!((ctl.frame_id, ctl.frame_width, ctl.frame_height), (41, 1920, 1080));
    assert_eq!(ctl.dropped_frames, 3);
}

#[test]
fn captured_plane_becomes_a_gray_frame() {
    let frame = native_gray_frame(vec![1, 2, 3, 4, 5, 6], 3, 2, 9);
    assert_eq!(frame.meta.frame_id, 9);
    assert_eq!((frame.meta.width, frame.meta.height, frame.meta.stride), (3, 2, 3));
    assert_eq!(frame.meta.pixel_format, PixelFormat::Gray8);
    assert_eq!(&frame.bytes[..], &[1, 2, 3, 4, 5, 6]);
}

#[test]
fn packed_rows_convert_with_stride_padding() {
    let source = [
        0, 0, 255, 255, 99, 99, // red, padding
        255, 0, 0, 255, 99, 99, // blue, padding
    ];
    let gray = convert_packed_rows_to_gray(&source, 1, 2, 6, PIXEL_FORMAT_32_BGRA).unwrap();
    assert_eq!(gray, vec![76, 28]);
}

#[test]
fn packed_yuv_rows_keep_their_y_samples() {
    let source = [128, 10, 64, 20, 128, 30, 64, 40];
    let gray = convert_packed_rows_to_gray(&source, 2, 2, 4, PIXEL_FORMAT_422_YPCBCR8).unwrap();
    assert_eq!(gray, vec![10, 20, 30, 40]);
}

#[test]
fn packed_rows_need_the_whole_buffer() {
    let source = [0_u8; 7];
    assert_eq!(convert_packed_rows_to_gray(&source, 1, 2, 4, PIXEL_FORMAT_32_BGRA), None);
}
