//! Camera device and format selection, and the simulated camera's lifecycle.

use vstd::prelude::*;
use crate::comm::ApiError;

verus! {

#[derive(Debug, Clone, Copy, PartialEq, Eq, Structural)]
pub enum CameraLifecycle {
    Disconnected,
    Connecting,
    Ready,
    Streaming,
    Error,
}

#[derive(Debug, Clone, Copy, PartialEq, Eq, Structural)]
pub enum CameraPermissionStatus {
    Unknown,
    NotDetermined,
    Authorized,
    Denied,
    Restricted,
}

#[derive(Debug, Clone, PartialEq, Eq, Structural)]
pub enum CameraPosition {
    Unknown,
    Front,
    Back,
    External,
}

#[derive(Debug, Clone, PartialEq, Eq, Structural)]
pub enum CameraTransport {
    Unknown,
    BuiltIn,
    Continuity,
    Usb,
    Virtual,
}

/// What selection reads of an available camera device: its id, whether the
/// system marks it as default, and the ids of its formats in order.
#[derive(Debug, Clone)]
pub struct DeviceChoice {
    pub id: String,
    pub is_default: bool,
    pub format_ids: Vec<String>,
}

/// The available devices and the active device and format.
#[derive(Debug, Clone)]
pub struct CameraSelection {
    pub devices: Vec<DeviceChoice>,
    pub active_device_id: Option<String>,
    pub active_format_id: Option<String>,
}

/// Index of the first device at or after `from` with the given id.
pub open spec fn device_index_from(devices: Seq<DeviceChoice>, id: Seq<char>, from: int) -> Option<
    int,
>
    decreases devices.len() - from,
{
    if from < 0 || from >= devices.len() {
        None
    } else if devices[from].id@ == id {
        Some(from)
    } else {
        device_index_from(devices, id, from + 1)
    }
}

/// Index of the first device with the given id.
pub open spec fn device_index(devices: Seq<DeviceChoice>, id: Seq<char>) -> Option<int> {
    device_index_from(devices, id, 0)
}

/// Index of the first device marked as default at or after `from`.
pub open spec fn default_index_from(devices: Seq<DeviceChoice>, from: int) -> Option<int>
    decreases devices.len() - from,
{
    if from < 0 || from >= devices.len() {
        None
    } else if devices[from].is_default {
        Some(from)
    } else {
        default_index_from(devices, from + 1)
    }
}

/// The device chosen when none is active: the first one marked as default,
/// else the first one.
pub open spec fn default_device_index(devices: Seq<DeviceChoice>) -> Option<int> {
    match default_index_from(devices, 0) {
        Some(i) => Some(i),
        None => if devices.len() > 0 {
            Some(0)
        } else {
            None
        },
    }
}

/// Index of the active device, if the active id names an available device.
pub open spec fn active_index(sel: CameraSelection) -> Option<int> {
    match sel.active_device_id {
        Some(id) => device_index(sel.devices@, id@),
        None => None,
    }
}

/// Whether a device offers a format with the given id.
pub open spec fn offers_format(device: DeviceChoice, format_id: Seq<char>) -> bool {
    exists|k: int| 0 <= k < device.format_ids@.len() && (#[trigger] device.format_ids@[k])@ == format_id
}

/// The id of a device's first format.
pub open spec fn first_format(device: DeviceChoice) -> Option<Seq<char>> {
    if device.format_ids@.len() > 0 {
        Some(device.format_ids@[0]@)
    } else {
        None
    }
}

/// The message of the `InvalidRequest` that a selection is refused with.
pub open spec fn selection_fault(sel: CameraSelection) -> Option<Seq<char>> {
    match active_index(sel) {
        None => Some("no camera device is available"@),
        Some(i) => {
            let device = sel.devices@[i];
            match sel.active_format_id {
                None => if device.format_ids@.len() > 0 {
                    Some("no camera format is selected"@)
                } else {
                    None
                },
                Some(f) => if offers_format(device, f@) {
                    None
                } else {
                    Some("camera format not available on active device: "@ + f@)
                },
            }
        },
    }
}

/// The result of checking a selection: `Ok`, or `InvalidRequest` with the
/// fault's message.
pub open spec fn selection_checked<T>(sel: CameraSelection, r: Result<T, ApiError>) -> bool {
    match selection_fault(sel) {
        None => r is Ok,
        Some(msg) => r matches Err(ApiError::InvalidRequest(m)) && m@ == msg,
    }
}

proof fn lemma_device_index_from(devices: Seq<DeviceChoice>, id: Seq<char>, from: int)
    requires
        0 <= from <= devices.len(),
    ensures
        match device_index_from(devices, id, from) {
            Some(i) => from <= i < devices.len() && devices[i].id@ == id && forall|j: int|
                from <= j < i ==> (#[trigger] devices[j]).id@ != id,
            None => forall|j: int| from <= j < devices.len() ==> (#[trigger] devices[j]).id@ != id,
        },
    decreases devices.len() - from,
{
    if from < devices.len() && devices[from].id@ != id {
        lemma_device_index_from(devices, id, from + 1);
    }
}

/// Finds the first device with the given id.
fn find_device(devices: &Vec<DeviceChoice>, id: &String) -> (r: Option<usize>)
    ensures
        match r {
            Some(i) => device_index(devices@, id@) == Some(i as int) && i < devices@.len()
                && devices@[i as int].id@ == id@,
            None => device_index(devices@, id@) is None,
        },
{
    proof {
        lemma_device_index_from(devices@, id@, 0);
    }
    let mut i: usize = 0;
    while i < devices.len()
        invariant
            i <= devices@.len(),
            device_index(devices@, id@) == device_index_from(devices@, id@, i as int),
        decreases devices@.len() - i,
    {
        if devices[i].id.eq(id) {
            return Some(i);
        }
        i = i + 1;
    }
    None
}

/// Whether a device offers a format with the given id.
fn device_offers(device: &DeviceChoice, format_id: &String) -> (r: bool)
    ensures
        r == offers_format(*device, format_id@),
{
    let mut k: usize = 0;
    while k < device.format_ids.len()
        invariant
            k <= device.format_ids@.len(),
            forall|j: int| 0 <= j < k ==> (#[trigger] device.format_ids@[j])@ != format_id@,
        decreases device.format_ids@.len() - k,
    {
        if device.format_ids[k].eq(format_id) {
            return true;
        }
        k = k + 1;
    }
    false
}

fn first_format_id(device: &DeviceChoice) -> (r: Option<String>)
    ensures
        match r {
            Some(f) => first_format(*device) == Some(f@),
            None => first_format(*device) is None,
        },
{
    if device.format_ids.len() > 0 {
        Some(device.format_ids[0].clone())
    } else {
        None
    }
}

/// The active device, if the active id names an available device.
pub fn active_device(sel: &CameraSelection) -> (r: Option<&DeviceChoice>)
    ensures
        match active_index(*sel) {
            Some(i) => r == Some(&sel.devices@[i]),
            None => r is None,
        },
{
    match &sel.active_device_id {
        None => None,
        Some(id) => match find_device(&sel.devices, id) {
            Some(i) => Some(&sel.devices[i]),
            None => None,
        },
    }
}

/// The id of the device to activate when none is: the first device marked
/// as default, else the first device.
pub fn default_device_id(devices: &Vec<DeviceChoice>) -> (r: Option<String>)
    ensures
        match default_device_index(devices@) {
            Some(i) => r matches Some(id) && id@ == devices@[i].id@,
            None => r is None,
        },
{
    let mut i: usize = 0;
    while i < devices.len()
        invariant
            i <= devices@.len(),
            default_index_from(devices@, 0) == default_index_from(devices@, i as int),
        decreases devices@.len() - i,
    {
        if devices[i].is_default {
            return Some(devices[i].id.clone());
        }
        i = i + 1;
    }
    if devices.len() > 0 {
        Some(devices[0].id.clone())
    } else {
        None
    }
}

/// The id of the active device's first format.
pub fn default_format_id(sel: &CameraSelection) -> (r: Option<String>)
    ensures
        match active_index(*sel) {
            Some(i) => match first_format(sel.devices@[i]) {
                Some(f) => r matches Some(id) && id@ == f,
                None => r is None,
            },
            None => r is None,
        },
{
    match active_device(sel) {
        Some(device) => first_format_id(device),
        None => None,
    }
}

/// Checks that the active device is available and the active format is one
/// it offers (a device without formats needs none).
pub fn validate_active_selection(sel: &CameraSelection) -> (r: Result<(), ApiError>)
    ensures
        selection_checked(*sel, r),
{
    let device = match active_device(sel) {
        None => return Err(ApiError::InvalidRequest(String::from_str("no camera device is available"))),
        Some(d) => d,
    };
    match &sel.active_format_id {
        None => {
            if device.format_ids.len() > 0 {
                return Err(ApiError::InvalidRequest(String::from_str("no camera format is selected")));
            }
            Ok(())
        },
        Some(format_id) => {
            if !device_offers(device, format_id) {
                return Err(
                    ApiError::InvalidRequest(
                        String::from_str("camera format not available on active device: ").concat(
                            format_id.as_str(),
                        ),
                    ),
                );
            }
            Ok(())
        },
    }
}

/// `after` is `before` with a missing active device filled in with the
/// default device, and a missing active format with the first format of the
/// (new) active device.
pub open spec fn selection_filled(before: CameraSelection, after: CameraSelection) -> bool {
    &&& after.devices@ == before.devices@
    &&& match before.active_device_id {
        Some(id) => after.active_device_id == Some(id),
        None => match default_device_index(before.devices@) {
            Some(i) => after.active_device_id matches Some(id) && id@ == before.devices@[i].id@,
            None => after.active_device_id is None,
        },
    }
    &&& match before.active_format_id {
        Some(f) => after.active_format_id == Some(f),
        None => match active_index(after) {
            Some(i) => match first_format(after.devices@[i]) {
                Some(f) => after.active_format_id matches Some(id) && id@ == f,
                None => after.active_format_id is None,
            },
            None => after.active_format_id is None,
        },
    }
}

/// Fills in a missing active device with the default device and a missing
/// active format with that device's first format, then checks the selection.
pub fn ensure_active_selection(sel: &mut CameraSelection) -> (r: Result<(), ApiError>)
    ensures
        selection_filled(*old(sel), *final(sel)),
        selection_checked(*final(sel), r),
        old(sel).active_device_id is Some && old(sel).active_format_id is Some ==> *final(sel)
            == *old(sel),
{
    if sel.active_device_id.is_none() {
        sel.active_device_id = default_device_id(&sel.devices);
    }
    if sel.active_format_id.is_none() {
        sel.active_format_id = default_format_id(sel);
    }
    validate_active_selection(sel)
}

/// Activates the first device with the given id and its first format.
/// Unknown ids are refused and leave the selection unchanged.
pub fn select_device(sel: &mut CameraSelection, device_id: &str) -> (r: Result<(), ApiError>)
    ensures
        final(sel).devices@ == old(sel).devices@,
        match device_index(old(sel).devices@, device_id@) {
            None => {
                &&& *final(sel) == *old(sel)
                &&& r matches Err(ApiError::InvalidRequest(m)) && m@ == "camera device not found: "@
                    + device_id@
            },
            Some(i) => {
                &&& r is Ok
                &&& final(sel).active_device_id matches Some(id) && id@ == device_id@
                &&& match first_format(old(sel).devices@[i]) {
                    Some(f) => final(sel).active_format_id matches Some(id) && id@ == f,
                    None => final(sel).active_format_id is None,
                }
            },
        },
{
    let wanted = String::from_str(device_id);
    let index = match find_device(&sel.devices, &wanted) {
        None => {
            return Err(
                ApiError::InvalidRequest(
                    String::from_str("camera device not found: ").concat(device_id),
                ),
            );
        },
        Some(i) => i,
    };
    proof {
        lemma_device_index_from(sel.devices@, device_id@, 0);
    }
    let id = sel.devices[index].id.clone();
    let format = first_format_id(&sel.devices[index]);
    sel.active_device_id = Some(id);
    sel.active_format_id = format;
    proof {
        assert(active_index(*sel) == Some(index as int));
        if sel.active_format_id is Some {
            assert((sel.devices@[index as int].format_ids@[0])@ == sel.active_format_id->0@);
        }
    }
    validate_active_selection(sel)
}

/// Activates a format of the active device. Refused, leaving the selection
/// unchanged, when no device is active or the active device lacks it.
pub fn select_format(sel: &mut CameraSelection, format_id: &str) -> (r: Result<(), ApiError>)
    ensures
        final(sel).devices@ == old(sel).devices@,
        final(sel).active_device_id == old(sel).active_device_id,
        match active_index(*old(sel)) {
            None => {
                &&& *final(sel) == *old(sel)
                &&& r matches Err(ApiError::InvalidRequest(m)) && m@
                    == "select a camera device before selecting a format"@
            },
            Some(i) => if offers_format(old(sel).devices@[i], format_id@) {
                &&& r is Ok
                &&& final(sel).active_format_id matches Some(f) && f@ == format_id@
            } else {
                &&& *final(sel) == *old(sel)
                &&& r matches Err(ApiError::InvalidRequest(m)) && m@
                    == "camera format not available on active device: "@ + format_id@
            },
        },
{
    let wanted = String::from_str(format_id);
    let offered = match active_device(sel) {
        None => {
            return Err(
                ApiError::InvalidRequest(
                    String::from_str("select a camera device before selecting a format"),
                ),
            );
        },
        Some(device) => device_offers(device, &wanted),
    };
    if !offered {
        return Err(
            ApiError::InvalidRequest(
                String::from_str("camera format not available on active device: ").concat(
                    format_id,
                ),
            ),
        );
    }
    sel.active_format_id = Some(wanted);
    Ok(())
}

/// The lifecycle and selection state of a camera, without its frame rates.
#[derive(Debug, Clone)]
pub struct CameraControl {
    pub lifecycle: CameraLifecycle,
    pub permission_status: CameraPermissionStatus,
    pub selection: CameraSelection,
    pub frame_width: u32,
    pub frame_height: u32,
    pub frame_id: u64,
    pub dropped_frames: u64,
    pub error: Option<String>,
}

/// Width of the simulated camera's frames.
pub const SIM_WIDTH: u32 = 320;

/// Height of the simulated camera's frames.
pub const SIM_HEIGHT: u32 = 240;

pub open spec fn sim_device_id() -> Seq<char> {
    "simulated-camera"@
}

pub open spec fn sim_format_id() -> Seq<char> {
    "simulated-camera:320x240-gray8"@
}

/// The simulator's single device, marked as default, with its single format.
pub open spec fn is_sim_device(device: DeviceChoice) -> bool {
    &&& device.id@ == sim_device_id()
    &&& device.is_default
    &&& device.format_ids@.len() == 1
    &&& device.format_ids@[0]@ == sim_format_id()
}

/// The simulated camera as a selectable device.
pub fn sim_device_choice() -> (device: DeviceChoice)
    ensures
        is_sim_device(device),
{
    let mut format_ids: Vec<String> = Vec::new();
    format_ids.push(String::from_str("simulated-camera:320x240-gray8"));
    DeviceChoice { id: String::from_str("simulated-camera"), is_default: true, format_ids }
}

/// The simulated camera before any command: disconnected, authorized, and
/// with its device and format active.
pub fn sim_initial_control() -> (ctl: CameraControl)
    ensures
        ctl.lifecycle == CameraLifecycle::Disconnected,
        ctl.permission_status == CameraPermissionStatus::Authorized,
        ctl.selection.devices@.len() == 1,
        is_sim_device(ctl.selection.devices@[0]),
        ctl.selection.active_device_id matches Some(d) && d@ == sim_device_id(),
        ctl.selection.active_format_id matches Some(f) && f@ == sim_format_id(),
        ctl.frame_width == 0,
        ctl.frame_height == 0,
        ctl.frame_id == 0,
        ctl.dropped_frames == 0,
        ctl.error is None,
{
    let mut devices: Vec<DeviceChoice> = Vec::new();
    devices.push(sim_device_choice());
    let mut ctl = CameraControl {
        lifecycle: CameraLifecycle::Disconnected,
        permission_status: CameraPermissionStatus::Authorized,
        selection: CameraSelection { devices, active_device_id: None, active_format_id: None },
        frame_width: 0,
        frame_height: 0,
        frame_id: 0,
        dropped_frames: 0,
        error: None,
    };
    assert(default_index_from(ctl.selection.devices@, 0) == Some(0int));
    let _ = ensure_active_selection(&mut ctl.selection);
    proof {
        assert(device_index_from(ctl.selection.devices@, sim_device_id(), 0) == Some(0int));
    }
    ctl
}

/// Fields of a camera control other than its lifecycle, error and frame size.
pub open spec fn same_frames(a: CameraControl, b: CameraControl) -> bool {
    &&& a.frame_id == b.frame_id
    &&& a.dropped_frames == b.dropped_frames
}

/// Rescans the simulator's devices: the simulated device is the only one, and
/// a missing selection is filled in. Returns the number of devices.
pub fn refresh_sim_devices(ctl: &mut CameraControl) -> (r: Result<usize, ApiError>)
    ensures
        final(ctl).selection.devices@.len() == 1,
        is_sim_device(final(ctl).selection.devices@[0]),
        final(ctl).lifecycle == old(ctl).lifecycle,
        final(ctl).permission_status == old(ctl).permission_status,
        final(ctl).error == old(ctl).error,
        same_frames(*final(ctl), *old(ctl)),
        final(ctl).frame_width == old(ctl).frame_width,
        final(ctl).frame_height == old(ctl).frame_height,
        selection_checked(final(ctl).selection, r),
        r matches Ok(n) ==> n == 1,
{
    let mut devices: Vec<DeviceChoice> = Vec::new();
    devices.push(sim_device_choice());
    ctl.selection.devices = devices;
    match ensure_active_selection(&mut ctl.selection) {
        Ok(()) => Ok(ctl.selection.devices.len()),
        Err(e) => Err(e),
    }
}

/// Connects the simulated camera: ready, authorized, no error, frames of the
/// simulator's size, and a selection filled in and checked.
pub fn connect_sim_camera(ctl: &mut CameraControl) -> (r: Result<(), ApiError>)
    ensures
        final(ctl).lifecycle == CameraLifecycle::Ready,
        final(ctl).permission_status == CameraPermissionStatus::Authorized,
        final(ctl).error is None,
        final(ctl).frame_width == SIM_WIDTH,
        final(ctl).frame_height == SIM_HEIGHT,
        same_frames(*final(ctl), *old(ctl)),
        final(ctl).selection.devices@ == old(ctl).selection.devices@,
        selection_checked(final(ctl).selection, r),
        old(ctl).selection.active_device_id is Some && old(ctl).selection.active_format_id is Some
            ==> final(ctl).selection == old(ctl).selection,
{
    ctl.lifecycle = CameraLifecycle::Ready;
    ctl.permission_status = CameraPermissionStatus::Authorized;
    ctl.error = None;
    ctl.frame_width = SIM_WIDTH;
    ctl.frame_height = SIM_HEIGHT;
    ensure_active_selection(&mut ctl.selection)
}

/// The refusal of a stream start on a camera that is not connected.
pub open spec fn not_connected(r: Result<(), ApiError>) -> bool {
    r matches Err(ApiError::Rejected(m)) && m@ == "camera must be connected before streaming"@
}

/// Starts streaming: the selection must be valid and the camera connected
/// (ready or already streaming).
pub fn start_sim_stream(ctl: &mut CameraControl) -> (r: Result<(), ApiError>)
    ensures
        final(ctl).selection.devices@ == old(ctl).selection.devices@,
        same_frames(*final(ctl), *old(ctl)),
        final(ctl).permission_status == old(ctl).permission_status,
        final(ctl).frame_width == old(ctl).frame_width,
        final(ctl).frame_height == old(ctl).frame_height,
        old(ctl).selection.active_device_id is Some && old(ctl).selection.active_format_id is Some
            ==> final(ctl).selection == old(ctl).selection,
        selection_fault(final(ctl).selection) is Some ==> selection_checked(
            final(ctl).selection,
            r,
        ) && final(ctl).lifecycle == old(ctl).lifecycle,
        selection_fault(final(ctl).selection) is None ==> if old(ctl).lifecycle
            == CameraLifecycle::Ready || old(ctl).lifecycle == CameraLifecycle::Streaming {
            &&& r is Ok
            &&& final(ctl).lifecycle == CameraLifecycle::Streaming
            &&& final(ctl).error is None
        } else {
            &&& not_connected(r)
            &&& final(ctl).lifecycle == old(ctl).lifecycle
        },
{
    match ensure_active_selection(&mut ctl.selection) {
        Ok(()) => {},
        Err(e) => return Err(e),
    }
    match ctl.lifecycle {
        CameraLifecycle::Ready | CameraLifecycle::Streaming => {},
        _ => {
            return Err(
                ApiError::Rejected(String::from_str("camera must be connected before streaming")),
            );
        },
    }
    ctl.lifecycle = CameraLifecycle::Streaming;
    ctl.error = None;
    Ok(())
}

/// Stops streaming: the camera is ready again.
pub fn stop_sim_stream(ctl: &mut CameraControl)
    ensures
        final(ctl).lifecycle == CameraLifecycle::Ready,
        final(ctl).selection == old(ctl).selection,
        final(ctl).error == old(ctl).error,
        same_frames(*final(ctl), *old(ctl)),
        final(ctl).permission_status == old(ctl).permission_status,
        final(ctl).frame_width == old(ctl).frame_width,
        final(ctl).frame_height == old(ctl).frame_height,
{
    ctl.lifecycle = CameraLifecycle::Ready;
}

/// One tick of the simulator's clock: while streaming, the next frame is
/// produced (its id is returned) at the simulator's size; otherwise nothing.
pub fn sim_tick(ctl: &mut CameraControl) -> (produced: Option<u64>)
    ensures
        old(ctl).lifecycle == CameraLifecycle::Streaming ==> {
            &&& produced == Some(old(ctl).frame_id.saturating_add(1))
            &&& final(ctl).frame_id == old(ctl).frame_id.saturating_add(1)
            &&& final(ctl).dropped_frames == old(ctl).dropped_frames
            &&& final(ctl).permission_status == old(ctl).permission_status
            &&& final(ctl).frame_width == SIM_WIDTH
            &&& final(ctl).frame_height == SIM_HEIGHT
            &&& final(ctl).lifecycle == old(ctl).lifecycle
            &&& final(ctl).selection == old(ctl).selection
            &&& final(ctl).error == old(ctl).error
        },
        old(ctl).lifecycle != CameraLifecycle::Streaming ==> produced is None && *final(ctl)
            == *old(ctl),
{
    if ctl.lifecycle != CameraLifecycle::Streaming {
        return None;
    }
    ctl.frame_id = ctl.frame_id.saturating_add(1);
    ctl.frame_width = SIM_WIDTH;
    ctl.frame_height = SIM_HEIGHT;
    Some(ctl.frame_id)
}

/// A selection holding the simulated device with its format active is valid:
/// connecting and starting the simulated camera are never refused for their
/// selection (they keep a selection whose device and format are both set).
pub proof fn lemma_sim_selection_valid(sel: CameraSelection)
    requires
        sel.devices@.len() == 1,
        is_sim_device(sel.devices@[0]),
        sel.active_device_id matches Some(d) && d@ == sim_device_id(),
        sel.active_format_id matches Some(f) && f@ == sim_format_id(),
    ensures
        selection_fault(sel) is None,
{
    assert(device_index_from(sel.devices@, sim_device_id(), 0) == Some(0int));
    assert(offers_format(sel.devices@[0], sim_format_id())) by {
        assert((sel.devices@[0].format_ids@[0])@ == sim_format_id());
    }
}

/// The message shown when the native camera bridge cannot be used.
pub fn real_camera_unavailable_message() -> (message: &'static str)
    ensures
        message@ == "real macOS camera bridge is unavailable; using the simulator fallback"@,
{
    "real macOS camera bridge is unavailable; using the simulator fallback"
}

} // verus!
