//! Decisions of the native camera runtime, between the platform's capture
//! calls: permission and connection, stream start and stop, the lookup of the
//! capture format to apply, the description of devices, and the bookkeeping
//! of captured and dropped frames.

use vstd::prelude::*;
use crate::camera::{
    CameraControl, CameraLifecycle, CameraPermissionStatus, CameraPosition, CameraSelection,
    CameraTransport, DeviceChoice, ensure_active_selection, selection_checked, selection_fault,
    selection_filled,
};
use crate::comm::{ApiError, is_clock_stamp, now, unix_millis};
use crate::frame::{Frame, FrameMeta, PixelFormat, bytes_contents, bytes_from_vec};
use crate::text::{decimal_text, u64_text};

verus! {

/// The message a camera without permission is refused with.
pub open spec fn permission_message() -> Seq<char> {
    "camera permission is not authorized"@
}

/// The frame counters and frame size of two camera states agree.
pub open spec fn same_capture(a: CameraControl, b: CameraControl) -> bool {
    &&& a.frame_id == b.frame_id
    &&& a.dropped_frames == b.dropped_frames
    &&& a.frame_width == b.frame_width
    &&& a.frame_height == b.frame_height
}

/// The camera lacks permission: it enters the error state with the
/// permission message, and the request is refused with it.
pub fn permission_denied(ctl: &mut CameraControl) -> (r: Result<(), ApiError>)
    ensures
        final(ctl).lifecycle == CameraLifecycle::Error,
        final(ctl).error matches Some(m) && m@ == permission_message(),
        r matches Err(ApiError::Rejected(m)) && m@ == permission_message(),
        final(ctl).selection == old(ctl).selection,
        final(ctl).permission_status == old(ctl).permission_status,
        same_capture(*final(ctl), *old(ctl)),
{
    ctl.lifecycle = CameraLifecycle::Error;
    ctl.error = Some(String::from_str("camera permission is not authorized"));
    Err(ApiError::Rejected(String::from_str("camera permission is not authorized")))
}

/// First step of a connection, once the platform has answered the permission
/// request with `status`: the camera is connecting with that status, and
/// without permission it fails as `permission_denied` says.
pub fn begin_connect(ctl: &mut CameraControl, status: CameraPermissionStatus) -> (r: Result<
    (),
    ApiError,
>)
    ensures
        final(ctl).permission_status == status,
        final(ctl).selection == old(ctl).selection,
        same_capture(*final(ctl), *old(ctl)),
        status == CameraPermissionStatus::Authorized ==> {
            &&& r is Ok
            &&& final(ctl).lifecycle == CameraLifecycle::Connecting
            &&& final(ctl).error == old(ctl).error
        },
        status != CameraPermissionStatus::Authorized ==> {
            &&& r matches Err(ApiError::Rejected(m)) && m@ == permission_message()
            &&& final(ctl).lifecycle == CameraLifecycle::Error
            &&& final(ctl).error matches Some(m) && m@ == permission_message()
        },
{
    ctl.lifecycle = CameraLifecycle::Connecting;
    ctl.permission_status = status;
    if status != CameraPermissionStatus::Authorized {
        return permission_denied(ctl);
    }
    Ok(())
}

/// The platform's devices were discovered, with the permission status read
/// alongside: they become the available devices, a missing selection is
/// filled in, and the selection is checked.
pub fn devices_refreshed(
    ctl: &mut CameraControl,
    devices: Vec<DeviceChoice>,
    status: CameraPermissionStatus,
) -> (r: Result<(), ApiError>)
    ensures
        final(ctl).selection.devices@ == devices@,
        final(ctl).permission_status == status,
        selection_filled(
            (CameraSelection {
                devices,
                active_device_id: old(ctl).selection.active_device_id,
                active_format_id: old(ctl).selection.active_format_id,
            }),
            final(ctl).selection,
        ),
        selection_checked(final(ctl).selection, r),
        final(ctl).lifecycle == old(ctl).lifecycle,
        final(ctl).error == old(ctl).error,
        same_capture(*final(ctl), *old(ctl)),
{
    ctl.selection.devices = devices;
    ctl.permission_status = status;
    ensure_active_selection(&mut ctl.selection)
}

/// Last step of a connection: the camera is ready and error-free.
pub fn connected(ctl: &mut CameraControl)
    ensures
        final(ctl).lifecycle == CameraLifecycle::Ready,
        final(ctl).error is None,
        final(ctl).selection == old(ctl).selection,
        final(ctl).permission_status == old(ctl).permission_status,
        same_capture(*final(ctl), *old(ctl)),
{
    ctl.lifecycle = CameraLifecycle::Ready;
    ctl.error = None;
}

/// Whether a capture session may be started, in the order the checks run:
/// the selection is filled in and must be valid, permission must be granted
/// (else the camera fails as `permission_denied` says), and the camera must
/// have been connected.
pub fn check_stream_start(ctl: &mut CameraControl) -> (r: Result<(), ApiError>)
    ensures
        selection_filled(old(ctl).selection, final(ctl).selection),
        final(ctl).permission_status == old(ctl).permission_status,
        same_capture(*final(ctl), *old(ctl)),
        selection_fault(final(ctl).selection) is Some ==> {
            &&& selection_checked(final(ctl).selection, r)
            &&& final(ctl).lifecycle == old(ctl).lifecycle
            &&& final(ctl).error == old(ctl).error
        },
        selection_fault(final(ctl).selection) is None ==> if old(ctl).permission_status
            != CameraPermissionStatus::Authorized {
            &&& r matches Err(ApiError::Rejected(m)) && m@ == permission_message()
            &&& final(ctl).lifecycle == CameraLifecycle::Error
            &&& final(ctl).error matches Some(m) && m@ == permission_message()
        } else if old(ctl).lifecycle == CameraLifecycle::Disconnected {
            &&& r matches Err(ApiError::Rejected(m)) && m@
                == "camera must be connected before streaming"@
            &&& final(ctl).lifecycle == old(ctl).lifecycle
            &&& final(ctl).error == old(ctl).error
        } else {
            &&& r is Ok
            &&& final(ctl).lifecycle == old(ctl).lifecycle
            &&& final(ctl).error == old(ctl).error
        },
{
    match ensure_active_selection(&mut ctl.selection) {
        Ok(()) => {},
        Err(e) => return Err(e),
    }
    if ctl.permission_status != CameraPermissionStatus::Authorized {
        return permission_denied(ctl);
    }
    if ctl.lifecycle == CameraLifecycle::Disconnected {
        return Err(
            ApiError::Rejected(String::from_str("camera must be connected before streaming")),
        );
    }
    Ok(())
}

/// The capture session runs: the camera is streaming and error-free.
pub fn stream_started(ctl: &mut CameraControl)
    ensures
        final(ctl).lifecycle == CameraLifecycle::Streaming,
        final(ctl).error is None,
        final(ctl).selection == old(ctl).selection,
        final(ctl).permission_status == old(ctl).permission_status,
        same_capture(*final(ctl), *old(ctl)),
{
    ctl.lifecycle = CameraLifecycle::Streaming;
    ctl.error = None;
}

/// The capture session was stopped: the camera is ready again.
pub fn stream_stopped(ctl: &mut CameraControl)
    ensures
        final(ctl).lifecycle == CameraLifecycle::Ready,
        final(ctl).error == old(ctl).error,
        final(ctl).selection == old(ctl).selection,
        final(ctl).permission_status == old(ctl).permission_status,
        same_capture(*final(ctl), *old(ctl)),
{
    ctl.lifecycle = CameraLifecycle::Ready;
}

/// A change of device, format or frame rate restarts the capture session
/// only while streaming.
pub fn restart_needed(ctl: &CameraControl) -> (r: bool)
    ensures
        r == (ctl.lifecycle == CameraLifecycle::Streaming),
{
    ctl.lifecycle == CameraLifecycle::Streaming
}

/// The id of a device's format by its position: `{device}:format:{index}`.
pub open spec fn native_format_id_text(device_id: Seq<char>, index: nat) -> Seq<char> {
    device_id + ":format:"@ + decimal_text(index)
}

/// The id of the format at `index` in a device's format list.
pub fn native_format_id(device_id: &str, index: usize) -> (id: String)
    ensures
        id@ == native_format_id_text(device_id@, index as nat),
{
    proof {
        reveal_strlit(":format:");
    }
    String::from_str(device_id).concat(":format:").concat(u64_text(index as u64).as_str())
}

/// Position of the first of a device's `format_count` formats whose id is
/// `format_id`.
pub fn find_native_format(device_id: &str, format_count: usize, format_id: &str) -> (r: Option<
    usize,
>)
    ensures
        match r {
            Some(i) => i < format_count && native_format_id_text(device_id@, i as nat)
                == format_id@ && forall|j: nat|
                j < i ==> #[trigger] native_format_id_text(device_id@, j) != format_id@,
            None => forall|j: nat|
                j < format_count ==> #[trigger] native_format_id_text(device_id@, j)
                    != format_id@,
        },
{
    let wanted = String::from_str(format_id);
    let mut i: usize = 0;
    while i < format_count
        invariant
            i <= format_count,
            wanted@ == format_id@,
            forall|j: nat|
                j < i ==> #[trigger] native_format_id_text(device_id@, j) != format_id@,
        decreases format_count - i,
    {
        let candidate = native_format_id(device_id, i);
        if candidate.eq(&wanted) {
            return Some(i);
        }
        i = i + 1;
    }
    None
}

/// The format to configure before capturing from the device `device_id`,
/// which has `format_count` formats: none when no format is active, else the
/// position of the active one, which the device must offer.
pub fn requested_format_index(
    sel: &CameraSelection,
    device_id: &str,
    format_count: usize,
) -> (r: Result<Option<usize>, ApiError>)
    ensures
        match sel.active_format_id {
            None => r == Ok::<Option<usize>, ApiError>(None),
            Some(f) => match r {
                Ok(Some(i)) => i < format_count && native_format_id_text(device_id@, i as nat)
                    == f@ && forall|j: nat|
                    j < i ==> #[trigger] native_format_id_text(device_id@, j) != f@,
                Ok(None) => false,
                Err(e) => (e matches ApiError::InvalidRequest(m) && m@
                    == "camera format not available on active device: "@ + f@) && forall|j: nat|
                    j < format_count ==> #[trigger] native_format_id_text(device_id@, j) != f@,
            },
        },
{
    match &sel.active_format_id {
        None => Ok(None),
        Some(format_id) => match find_native_format(device_id, format_count, format_id.as_str()) {
            Some(i) => Ok(Some(i)),
            None => Err(
                ApiError::InvalidRequest(
                    String::from_str("camera format not available on active device: ").concat(
                        format_id.as_str(),
                    ),
                ),
            ),
        },
    }
}

/// The device to capture from: the active one, which must be set.
pub fn capture_device_id(sel: &CameraSelection) -> (r: Result<String, ApiError>)
    ensures
        match sel.active_device_id {
            Some(id) => r matches Ok(d) && d@ == id@,
            None => r matches Err(ApiError::InvalidRequest(m)) && m@ == "no active camera device"@,
        },
{
    match &sel.active_device_id {
        Some(id) => Ok(id.clone()),
        None => Err(ApiError::InvalidRequest(String::from_str("no active camera device"))),
    }
}

/// Where a device sits: front or back as the platform reports it, else
/// external for an external device type, else unknown.
pub fn device_position(front: bool, back: bool, external: bool) -> (p: CameraPosition)
    ensures
        p == (if front {
            CameraPosition::Front
        } else if back {
            CameraPosition::Back
        } else if external {
            CameraPosition::External
        } else {
            CameraPosition::Unknown
        }),
{
    if front {
        CameraPosition::Front
    } else if back {
        CameraPosition::Back
    } else if external {
        CameraPosition::External
    } else {
        CameraPosition::Unknown
    }
}

/// How a device is attached: continuity camera, USB for an external device
/// type, else built in.
pub fn device_transport(continuity: bool, external: bool) -> (t: CameraTransport)
    ensures
        t == (if continuity {
            CameraTransport::Continuity
        } else if external {
            CameraTransport::Usb
        } else {
            CameraTransport::BuiltIn
        }),
{
    if continuity {
        CameraTransport::Continuity
    } else if external {
        CameraTransport::Usb
    } else {
        CameraTransport::BuiltIn
    }
}

/// A text the platform reports, or nothing when it is empty.
pub fn non_empty_text(text: String) -> (r: Option<String>)
    ensures
        match r {
            Some(t) => t@ == text@ && text@.len() > 0,
            None => text@.len() == 0,
        },
{
    if text.as_str().unicode_len() == 0 {
        None
    } else {
        Some(text)
    }
}

/// A captured frame was published: the camera reports its id and size.
pub fn frame_reported(ctl: &mut CameraControl, frame_id: u64, width: u32, height: u32)
    ensures
        final(ctl).frame_id == frame_id,
        final(ctl).frame_width == width,
        final(ctl).frame_height == height,
        final(ctl).dropped_frames == old(ctl).dropped_frames,
        final(ctl).lifecycle == old(ctl).lifecycle,
        final(ctl).error == old(ctl).error,
        final(ctl).selection == old(ctl).selection,
        final(ctl).permission_status == old(ctl).permission_status,
{
    ctl.frame_id = frame_id;
    ctl.frame_width = width;
    ctl.frame_height = height;
}

/// The capture output dropped frames: the camera reports the running count.
pub fn drops_reported(ctl: &mut CameraControl, dropped_frames: u64)
    ensures
        final(ctl).dropped_frames == dropped_frames,
        final(ctl).frame_id == old(ctl).frame_id,
        final(ctl).frame_width == old(ctl).frame_width,
        final(ctl).frame_height == old(ctl).frame_height,
        final(ctl).lifecycle == old(ctl).lifecycle,
        final(ctl).error == old(ctl).error,
        final(ctl).selection == old(ctl).selection,
        final(ctl).permission_status == old(ctl).permission_status,
{
    ctl.dropped_frames = dropped_frames;
}

/// A captured grayscale plane as a frame: Gray8, rows without padding,
/// stamped with the current time.
pub fn native_gray_frame(bytes: Vec<u8>, width: u32, height: u32, frame_id: u64) -> (frame: Frame)
    ensures
        frame.meta.frame_id == frame_id,
        frame.meta.width == width,
        frame.meta.height == height,
        frame.meta.stride == width,
        frame.meta.pixel_format == PixelFormat::Gray8,
        bytes_contents(frame.bytes) == bytes@,
        is_clock_stamp(frame.meta.timestamp_ms),
{
    Frame {
        meta: FrameMeta {
            frame_id,
            timestamp_ms: unix_millis(now()),
            width,
            height,
            stride: width,
            pixel_format: PixelFormat::Gray8,
        },
        bytes: bytes_from_vec(bytes),
    }
}

} // verus!
