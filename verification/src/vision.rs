//! The vision component's control state: algorithm selection, template and
//! target configuration, the processing lifecycle and input-frame accounting.

use vstd::prelude::*;
use crate::comm::{ApiError, rejected_with};

verus! {

#[derive(Debug, Clone, Copy, PartialEq, Eq, Structural)]
pub enum AlgorithmId {
    TemplateNcc,
    EdgeModelMatch,
    RadialSymmetry,
    RingGridTarget,
    ChessCorners,
    CalibrationTarget,
}

#[derive(Debug, Clone, Copy, PartialEq, Eq, Structural)]
pub enum VisionLifecycle {
    Idle,
    WaitingForTemplate,
    Processing,
    Error,
}

/// Faults a development build can inject into the vision runtime.
#[derive(Debug, Clone, PartialEq, Eq, Structural)]
pub enum VisionFault {
    DelayProcessingMs(u64),
    DropEveryNthEvent(u64),
    RestartRuntime,
}

/// The detector a vision runtime has loaded.
#[derive(Debug, Clone, Copy, PartialEq, Eq, Structural)]
pub enum DetectorKind {
    TemplateNcc,
    RadialSymmetry,
    ChessCorners,
    CalibrationTarget,
    RingGrid,
}

/// The vision runtime's control state (its metrics, ROI, target geometry and
/// detections are kept beside it).
#[derive(Debug, Clone)]
pub struct VisionControl {
    pub lifecycle: VisionLifecycle,
    pub selected_algorithm: AlgorithmId,
    pub has_template: bool,
    pub detector: Option<DetectorKind>,
    pub dropped_input_frames: u64,
    pub last_processed_frame_id: u64,
    pub processed_frames: u64,
    pub error: Option<String>,
}

pub open spec fn spec_lifecycle_for_algorithm(algorithm: AlgorithmId) -> VisionLifecycle {
    if algorithm == AlgorithmId::TemplateNcc {
        VisionLifecycle::WaitingForTemplate
    } else {
        VisionLifecycle::Idle
    }
}

/// The lifecycle an algorithm starts in: template matching waits for a
/// template, the others are idle.
pub fn lifecycle_for_algorithm(algorithm: AlgorithmId) -> (lifecycle: VisionLifecycle)
    ensures
        lifecycle == spec_lifecycle_for_algorithm(algorithm),
{
    if algorithm == AlgorithmId::TemplateNcc {
        VisionLifecycle::WaitingForTemplate
    } else {
        VisionLifecycle::Idle
    }
}

/// The initial control state: idle, with ChESS corners selected.
pub fn initial_vision_control() -> (ctl: VisionControl)
    ensures
        ctl.lifecycle == VisionLifecycle::Idle,
        ctl.selected_algorithm == AlgorithmId::ChessCorners,
        !ctl.has_template,
        ctl.detector is None,
        ctl.dropped_input_frames == 0,
        ctl.last_processed_frame_id == 0,
        ctl.processed_frames == 0,
        ctl.error is None,
{
    VisionControl {
        lifecycle: VisionLifecycle::Idle,
        selected_algorithm: AlgorithmId::ChessCorners,
        has_template: false,
        detector: None,
        dropped_input_frames: 0,
        last_processed_frame_id: 0,
        processed_frames: 0,
        error: None,
    }
}

/// Counters and error that configuration changes leave alone.
pub open spec fn same_accounting(a: VisionControl, b: VisionControl) -> bool {
    &&& a.dropped_input_frames == b.dropped_input_frames
    &&& a.last_processed_frame_id == b.last_processed_frame_id
    &&& a.processed_frames == b.processed_frames
}

/// Selects an algorithm: any loaded detector and template are discarded and
/// the lifecycle restarts from the algorithm's initial one.
pub fn select_algorithm(ctl: &mut VisionControl, algorithm: AlgorithmId)
    ensures
        final(ctl).selected_algorithm == algorithm,
        final(ctl).detector is None,
        !final(ctl).has_template,
        final(ctl).lifecycle == spec_lifecycle_for_algorithm(algorithm),
        final(ctl).error == old(ctl).error,
        same_accounting(*final(ctl), *old(ctl)),
{
    ctl.selected_algorithm = algorithm;
    ctl.detector = None;
    ctl.has_template = false;
    ctl.lifecycle = lifecycle_for_algorithm(algorithm);
}

/// A new region of interest invalidates the detector and the template.
pub fn roi_changed(ctl: &mut VisionControl)
    ensures
        final(ctl).selected_algorithm == old(ctl).selected_algorithm,
        final(ctl).detector is None,
        !final(ctl).has_template,
        final(ctl).lifecycle == spec_lifecycle_for_algorithm(old(ctl).selected_algorithm),
        final(ctl).error == old(ctl).error,
        same_accounting(*final(ctl), *old(ctl)),
{
    ctl.detector = None;
    ctl.has_template = false;
    ctl.lifecycle = lifecycle_for_algorithm(ctl.selected_algorithm);
}

/// Whether the target geometry may be changed now: not while processing.
pub fn check_ringgrid_target_change(ctl: &VisionControl) -> (r: Result<(), ApiError>)
    ensures
        r is Ok <==> ctl.lifecycle != VisionLifecycle::Processing,
        r matches Err(e) ==> e matches ApiError::Rejected(m) && m@
            == "stop processing before changing the RingGrid target configuration"@,
{
    if ctl.lifecycle == VisionLifecycle::Processing {
        return Err(
            ApiError::Rejected(
                String::from_str(
                    "stop processing before changing the RingGrid target configuration",
                ),
            ),
        );
    }
    Ok(())
}

/// A validated new target geometry: the detector built for the old one is
/// discarded and any error is cleared.
pub fn ringgrid_target_changed(ctl: &mut VisionControl)
    ensures
        final(ctl).detector is None,
        final(ctl).error is None,
        final(ctl).lifecycle == old(ctl).lifecycle,
        final(ctl).selected_algorithm == old(ctl).selected_algorithm,
        final(ctl).has_template == old(ctl).has_template,
        same_accounting(*final(ctl), *old(ctl)),
{
    ctl.detector = None;
    ctl.error = None;
}

/// Preconditions of a template capture, in order: template matching is the
/// selected algorithm, a camera frame is available and an ROI is set.
pub fn check_template_capture(ctl: &VisionControl, has_frame: bool, has_roi: bool) -> (r: Result<
    (),
    ApiError,
>)
    ensures
        ctl.selected_algorithm != AlgorithmId::TemplateNcc ==> rejected_with(
            r,
            "template capture is only implemented for TemplateNcc in v1"@,
        ),
        ctl.selected_algorithm == AlgorithmId::TemplateNcc && !has_frame ==> rejected_with(
            r,
            "no camera frame available"@,
        ),
        ctl.selected_algorithm == AlgorithmId::TemplateNcc && has_frame && !has_roi
            ==> rejected_with(r, "set an ROI before capturing a template"@),
        ctl.selected_algorithm == AlgorithmId::TemplateNcc && has_frame && has_roi ==> r is Ok,
{
    if ctl.selected_algorithm != AlgorithmId::TemplateNcc {
        return Err(
            ApiError::Rejected(
                String::from_str("template capture is only implemented for TemplateNcc in v1"),
            ),
        );
    }
    if !has_frame {
        return Err(ApiError::Rejected(String::from_str("no camera frame available")));
    }
    if !has_roi {
        return Err(ApiError::Rejected(String::from_str("set an ROI before capturing a template")));
    }
    Ok(())
}

/// A captured template: the template detector is loaded and the runtime is
/// idle and error-free.
pub fn template_captured(ctl: &mut VisionControl)
    ensures
        final(ctl).detector == Some(DetectorKind::TemplateNcc),
        final(ctl).has_template,
        final(ctl).lifecycle == VisionLifecycle::Idle,
        final(ctl).error is None,
        final(ctl).selected_algorithm == old(ctl).selected_algorithm,
        same_accounting(*final(ctl), *old(ctl)),
{
    ctl.detector = Some(DetectorKind::TemplateNcc);
    ctl.has_template = true;
    ctl.lifecycle = VisionLifecycle::Idle;
    ctl.error = None;
}

pub open spec fn spec_needs_template(ctl: VisionControl) -> bool {
    ctl.selected_algorithm == AlgorithmId::TemplateNcc && ctl.detector != Some(
        DetectorKind::TemplateNcc,
    )
}

/// Template matching cannot process before a template is captured.
pub fn needs_template_before_processing(ctl: &VisionControl) -> (r: bool)
    ensures
        r == spec_needs_template(*ctl),
{
    ctl.selected_algorithm == AlgorithmId::TemplateNcc && !matches!(
        ctl.detector,
        Some(DetectorKind::TemplateNcc)
    )
}

/// The detector an algorithm runs with, or why it cannot be started:
/// template matching needs a captured template and edge-model matching is not
/// available.
pub fn detector_for_algorithm(algorithm: AlgorithmId) -> (r: Result<DetectorKind, ApiError>)
    ensures
        match algorithm {
            AlgorithmId::TemplateNcc => r matches Err(ApiError::Rejected(m)) && m@
                == "capture a template before starting TemplateNcc"@,
            AlgorithmId::EdgeModelMatch => r matches Err(ApiError::Rejected(m)) && m@
                == "EdgeModelMatch is deferred until vision-metrology is published"@,
            AlgorithmId::RadialSymmetry => r == Ok::<DetectorKind, ApiError>(
                DetectorKind::RadialSymmetry,
            ),
            AlgorithmId::RingGridTarget => r == Ok::<DetectorKind, ApiError>(
                DetectorKind::RingGrid,
            ),
            AlgorithmId::ChessCorners => r == Ok::<DetectorKind, ApiError>(
                DetectorKind::ChessCorners,
            ),
            AlgorithmId::CalibrationTarget => r == Ok::<DetectorKind, ApiError>(
                DetectorKind::CalibrationTarget,
            ),
        },
{
    match algorithm {
        AlgorithmId::TemplateNcc => Err(
            ApiError::Rejected(String::from_str("capture a template before starting TemplateNcc")),
        ),
        AlgorithmId::RadialSymmetry => Ok(DetectorKind::RadialSymmetry),
        AlgorithmId::ChessCorners => Ok(DetectorKind::ChessCorners),
        AlgorithmId::CalibrationTarget => Ok(DetectorKind::CalibrationTarget),
        AlgorithmId::RingGridTarget => Ok(DetectorKind::RingGrid),
        AlgorithmId::EdgeModelMatch => Err(
            ApiError::Rejected(
                String::from_str("EdgeModelMatch is deferred until vision-metrology is published"),
            ),
        ),
    }
}

/// First step of a start request. A template-matching runtime without a
/// template moves to waiting for one and is refused; otherwise the detector to
/// build is returned (`None` when one is already loaded), or the refusal of
/// the selected algorithm.
pub fn plan_start_processing(ctl: &mut VisionControl) -> (r: Result<Option<DetectorKind>, ApiError>)
    ensures
        spec_needs_template(*old(ctl)) ==> {
            &&& final(ctl).lifecycle == VisionLifecycle::WaitingForTemplate
            &&& r matches Err(ApiError::Rejected(m)) && m@
                == "capture a template before starting processing"@
        },
        !spec_needs_template(*old(ctl)) ==> {
            &&& *final(ctl) == *old(ctl)
            &&& match old(ctl).detector {
                Some(_) => r == Ok::<Option<DetectorKind>, ApiError>(None),
                None => match old(ctl).selected_algorithm {
                    AlgorithmId::EdgeModelMatch => r matches Err(ApiError::Rejected(m)) && m@
                        == "EdgeModelMatch is deferred until vision-metrology is published"@,
                    AlgorithmId::TemplateNcc => r matches Err(ApiError::Rejected(m)) && m@
                        == "capture a template before starting TemplateNcc"@,
                    AlgorithmId::RadialSymmetry => r == Ok::<Option<DetectorKind>, ApiError>(
                        Some(DetectorKind::RadialSymmetry),
                    ),
                    AlgorithmId::RingGridTarget => r == Ok::<Option<DetectorKind>, ApiError>(
                        Some(DetectorKind::RingGrid),
                    ),
                    AlgorithmId::ChessCorners => r == Ok::<Option<DetectorKind>, ApiError>(
                        Some(DetectorKind::ChessCorners),
                    ),
                    AlgorithmId::CalibrationTarget => r == Ok::<Option<DetectorKind>, ApiError>(
                        Some(DetectorKind::CalibrationTarget),
                    ),
                },
            }
        },
        final(ctl).selected_algorithm == old(ctl).selected_algorithm,
        final(ctl).detector == old(ctl).detector,
        same_accounting(*final(ctl), *old(ctl)),
{
    if needs_template_before_processing(ctl) {
        ctl.lifecycle = VisionLifecycle::WaitingForTemplate;
        return Err(
            ApiError::Rejected(String::from_str("capture a template before starting processing")),
        );
    }
    if ctl.detector.is_some() {
        return Ok(None);
    }
    match detector_for_algorithm(ctl.selected_algorithm) {
        Ok(kind) => Ok(Some(kind)),
        Err(e) => Err(e),
    }
}

/// Processing starts: the newly built detector (if any) is loaded, the
/// runtime processes with no error and its processed-frame count restarts.
pub fn processing_started(ctl: &mut VisionControl, built: Option<DetectorKind>)
    ensures
        final(ctl).lifecycle == VisionLifecycle::Processing,
        final(ctl).error is None,
        final(ctl).processed_frames == 0,
        final(ctl).detector == (match built {
            Some(k) => Some(k),
            None => old(ctl).detector,
        }),
        final(ctl).selected_algorithm == old(ctl).selected_algorithm,
        final(ctl).has_template == old(ctl).has_template,
        final(ctl).dropped_input_frames == old(ctl).dropped_input_frames,
        final(ctl).last_processed_frame_id == old(ctl).last_processed_frame_id,
{
    if let Some(kind) = built {
        ctl.detector = Some(kind);
    }
    ctl.lifecycle = VisionLifecycle::Processing;
    ctl.error = None;
    ctl.processed_frames = 0;
}

/// Processing stops: the runtime is idle and keeps its detector.
pub fn stop_processing(ctl: &mut VisionControl)
    ensures
        final(ctl).lifecycle == VisionLifecycle::Idle,
        final(ctl).detector == old(ctl).detector,
        final(ctl).selected_algorithm == old(ctl).selected_algorithm,
        final(ctl).has_template == old(ctl).has_template,
        final(ctl).error == old(ctl).error,
        same_accounting(*final(ctl), *old(ctl)),
{
    ctl.lifecycle = VisionLifecycle::Idle;
}

/// What the runtime does with the newest camera frame.
#[derive(Debug, Clone, Copy, PartialEq, Eq, Structural)]
pub enum FrameStep {
    /// Not processing, or the frame was already processed.
    Skip,
    /// Processing, but no detector is loaded: the runtime waits for a template.
    AwaitTemplate,
    /// Run the loaded detector on the frame.
    Detect(DetectorKind),
}

/// Frames between the last processed one and `frame_id` that were never
/// processed (none before the first processed frame or after a restart).
pub open spec fn skipped_frames(last: u64, frame_id: u64) -> int {
    if last != 0 && frame_id > last + 1 {
        frame_id - last - 1
    } else {
        0
    }
}

/// Accounts for the newest frame while processing: a frame seen before is
/// skipped, frames jumped over are counted as dropped input, and the frame is
/// handed to the loaded detector (without one, the runtime waits for a
/// template).
pub fn frame_arrived(ctl: &mut VisionControl, frame_id: u64) -> (step: FrameStep)
    requires
        old(ctl).lifecycle == VisionLifecycle::Processing && frame_id
            != old(ctl).last_processed_frame_id ==> old(ctl).last_processed_frame_id < u64::MAX
            && old(ctl).dropped_input_frames + skipped_frames(
            old(ctl).last_processed_frame_id,
            frame_id,
        ) <= u64::MAX,
    ensures
        (old(ctl).lifecycle != VisionLifecycle::Processing || frame_id
            == old(ctl).last_processed_frame_id) ==> step == FrameStep::Skip && *final(ctl)
            == *old(ctl),
        (old(ctl).lifecycle == VisionLifecycle::Processing && frame_id
            != old(ctl).last_processed_frame_id) ==> {
            &&& final(ctl).dropped_input_frames == old(ctl).dropped_input_frames + skipped_frames(
                old(ctl).last_processed_frame_id,
                frame_id,
            )
            &&& final(ctl).last_processed_frame_id == frame_id
            &&& final(ctl).detector == old(ctl).detector
            &&& final(ctl).processed_frames == old(ctl).processed_frames
            &&& final(ctl).error == old(ctl).error
            &&& match old(ctl).detector {
                Some(k) => step == FrameStep::Detect(k) && final(ctl).lifecycle
                    == old(ctl).lifecycle,
                None => step == FrameStep::AwaitTemplate && final(ctl).lifecycle
                    == VisionLifecycle::WaitingForTemplate,
            }
        },
{
    if ctl.lifecycle != VisionLifecycle::Processing {
        return FrameStep::Skip;
    }
    if frame_id == ctl.last_processed_frame_id {
        return FrameStep::Skip;
    }
    if frame_id > ctl.last_processed_frame_id + 1 && ctl.last_processed_frame_id != 0 {
        ctl.dropped_input_frames = ctl.dropped_input_frames + (frame_id
            - ctl.last_processed_frame_id - 1);
    }
    ctl.last_processed_frame_id = frame_id;
    match ctl.detector {
        Some(kind) => FrameStep::Detect(kind),
        None => {
            ctl.lifecycle = VisionLifecycle::WaitingForTemplate;
            FrameStep::AwaitTemplate
        },
    }
}

/// A frame went through the detector (with or without a detection).
pub fn frame_processed(ctl: &mut VisionControl) -> (count: u64)
    ensures
        final(ctl).processed_frames == old(ctl).processed_frames.saturating_add(1),
        count == final(ctl).processed_frames,
        final(ctl).lifecycle == old(ctl).lifecycle,
        final(ctl).detector == old(ctl).detector,
        final(ctl).error == old(ctl).error,
        final(ctl).dropped_input_frames == old(ctl).dropped_input_frames,
        final(ctl).last_processed_frame_id == old(ctl).last_processed_frame_id,
{
    ctl.processed_frames = ctl.processed_frames.saturating_add(1);
    ctl.processed_frames
}

/// A failure puts the runtime in the error state with the message.
pub fn vision_failed(ctl: &mut VisionControl, message: &str)
    ensures
        final(ctl).lifecycle == VisionLifecycle::Error,
        final(ctl).error matches Some(m) && m@ == message@,
        final(ctl).detector == old(ctl).detector,
        final(ctl).selected_algorithm == old(ctl).selected_algorithm,
        same_accounting(*final(ctl), *old(ctl)),
{
    ctl.lifecycle = VisionLifecycle::Error;
    ctl.error = Some(String::from_str(message));
}

/// Every input frame is either handed to the detector or counted as dropped:
/// if, since frame `first`, `handed` frames were handed on and `dropped` were
/// counted, covering every id up to `last`, then after a later frame arrives
/// (as `frame_arrived` accounts for it) every id up to that frame is covered.
pub proof fn lemma_frame_accounting(first: u64, last: u64, frame_id: u64, dropped: int, handed: int)
    requires
        0 < first <= last < frame_id,
        dropped + handed == last - first + 1,
    ensures
        (dropped + skipped_frames(last, frame_id)) + (handed + 1) == frame_id - first + 1,
{
}

/// Only template matching waits for a template: the lifecycle an algorithm
/// starts in (after it is selected, or the ROI changes under it) is waiting
/// for a template exactly for template matching, and idle for every other
/// algorithm.
pub proof fn lemma_only_template_matching_waits(algorithm: AlgorithmId)
    ensures
        (spec_lifecycle_for_algorithm(algorithm) == VisionLifecycle::WaitingForTemplate) <==> (
        algorithm == AlgorithmId::TemplateNcc),
        algorithm != AlgorithmId::TemplateNcc ==> spec_lifecycle_for_algorithm(algorithm)
            == VisionLifecycle::Idle,
{
}

} // verus!
