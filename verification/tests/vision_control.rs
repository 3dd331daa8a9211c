use bytes::Bytes;
use vision_lab::comm::{error_message, ApiError};
use vision_lab::frame::{frame_to_gray_image, Frame, FrameMeta, PixelFormat};
use vision_lab::vision::{
    check_ringgrid_target_change, check_template_capture, detector_for_algorithm,
    frame_arrived, frame_processed, initial_vision_control, lifecycle_for_algorithm,
    needs_template_before_processing, plan_start_processing, processing_started, roi_changed,
    ringgrid_target_changed, select_algorithm, stop_processing, template_captured,
    vision_failed, AlgorithmId, DetectorKind, FrameStep, VisionLifecycle,
};

#[test]
fn ringgrid_frame_conversion_removes_stride_padding_and_converts_rgb() {
    let gray = Frame {
        meta: FrameMeta {
            frame_id: 1,
            timestamp_ms: 1_700_000_000_000,
            width: 3,
            height: 2,
            stride: 4,
            pixel_format: PixelFormat::Gray8,
        },
        bytes: Bytes::from_static(&[1, 2, 3, 99, 4, 5, 6, 99]),
    };
    assert_eq!(
        frame_to_gray_image(&gray).unwrap().image.as_raw(),
        &[1, 2, 3, 4, 5, 6]
    );

    let rgb = Frame {
        meta: FrameMeta {
            frame_id: 2,
            timestamp_ms: 1_700_000_000_000,
            width: 2,
            height: 1,
            stride: 7,
            pixel_format: PixelFormat::Rgb8,
        },
        bytes: Bytes::from_static(&[255, 0, 0, 0, 255, 0, 99]),
    };
    assert_eq!(frame_to_gray_image(&rgb).unwrap().image.as_raw(), &[77, 149]);
}

#[test]
fn gray_image_conversion_reports_layout_faults() {
    let frame = |width, height, stride, format, bytes: Vec<u8>| Frame {
        meta: FrameMeta { frame_id: 1, timestamp_ms: 1_700_000_000_000, width, height, stride, pixel_format: format },
        bytes: Bytes::from(bytes),
    };
    let narrow = frame(3, 1, 2, PixelFormat::Gray8, vec![0; 4]);
    assert_eq!(
        frame_to_gray_image(&narrow).err().unwrap(),
        "frame stride is smaller than its pixel row"
    );
    let short = frame(2, 2, 2, PixelFormat::Gray8, vec![0; 3]);
    assert_eq!(
        frame_to_gray_image(&short).err().unwrap(),
        "frame data is shorter than its declared stride"
    );
    let image = frame_to_gray_image(&frame(2, 2, 2, PixelFormat::Gray8, vec![5, 6, 7, 8])).unwrap();
    assert_eq!((image.image.width(), image.image.height()), (2, 2));
}

#[test]
fn template_matching_requires_a_template() {
    let mut ctl = initial_vision_control();
    assert_eq!(ctl.selected_algorithm, AlgorithmId::ChessCorners);
    select_algorithm(&mut ctl, AlgorithmId::TemplateNcc);
    assert_eq!(ctl.lifecycle, VisionLifecycle::WaitingForTemplate);
    assert!(needs_template_before_processing(&ctl));
    ctl.lifecycle = VisionLifecycle::Idle;
    let error = plan_start_processing(&mut ctl).unwrap_err();
    assert_eq!(error_message(error), "command rejected: capture a template before starting processing");
    assert_eq!(ctl.lifecycle, VisionLifecycle::WaitingForTemplate);
    let error = check_template_capture(&ctl, false, true).unwrap_err();
    assert_eq!(error_message(error), "command rejected: no camera frame available");
    let error = check_template_capture(&ctl, true, false).unwrap_err();
    assert_eq!(error_message(error), "command rejected: set an ROI before capturing a template");
    check_template_capture(&ctl, true, true).unwrap();
    template_captured(&mut ctl);
    assert!(ctl.has_template);
    assert_eq!(plan_start_processing(&mut ctl).unwrap(), None);
    processing_started(&mut ctl, None);
    assert_eq!(ctl.detector, Some(DetectorKind::TemplateNcc));
    assert_eq!(ctl.lifecycle, VisionLifecycle::Processing);
    roi_changed(&mut ctl);
    assert_eq!(ctl.detector, None);
    assert!(!ctl.has_template);
}

#[test]
fn template_capture_needs_template_matching_selected() {
    let ctl = initial_vision_control();
    let error = check_template_capture(&ctl, true, true).unwrap_err();
    assert!(matches!(error, ApiError::Rejected(m) if m == "template capture is only implemented for TemplateNcc in v1"));
}

#[test]
fn detectors_follow_the_selected_algorithm() {
    assert_eq!(detector_for_algorithm(AlgorithmId::ChessCorners).unwrap(), DetectorKind::ChessCorners);
    assert_eq!(detector_for_algorithm(AlgorithmId::RingGridTarget).unwrap(), DetectorKind::RingGrid);
    assert_eq!(detector_for_algorithm(AlgorithmId::RadialSymmetry).unwrap(), DetectorKind::RadialSymmetry);
    assert_eq!(
        detector_for_algorithm(AlgorithmId::CalibrationTarget).unwrap(),
        DetectorKind::CalibrationTarget
    );
    let error = detector_for_algorithm(AlgorithmId::EdgeModelMatch).unwrap_err();
    assert_eq!(
        error_message(error),
        "command rejected: EdgeModelMatch is deferred until vision-metrology is published"
    );
    assert_eq!(lifecycle_for_algorithm(AlgorithmId::TemplateNcc), VisionLifecycle::WaitingForTemplate);
    assert_eq!(lifecycle_for_algorithm(AlgorithmId::RadialSymmetry), VisionLifecycle::Idle);
}

#[test]
fn target_changes_are_refused_while_processing() {
    let mut ctl = initial_vision_control();
    let planned = plan_start_processing(&mut ctl).unwrap();
    assert_eq!(planned, Some(DetectorKind::ChessCorners));
    processing_started(&mut ctl, planned);
    let before = ctl.clone();
    let error = check_ringgrid_target_change(&ctl).unwrap_err();
    assert_eq!(
        error_message(error),
        "command rejected: stop processing before changing the RingGrid target configuration"
    );
    assert_eq!(ctl.detector, before.detector);
    stop_processing(&mut ctl);
    check_ringgrid_target_change(&ctl).unwrap();
    ringgrid_target_changed(&mut ctl);
    assert_eq!(ctl.detector, None);
}

#[test]
fn input_frames_are_processed_or_counted_as_dropped() {
    let mut ctl = initial_vision_control();
    assert_eq!(frame_arrived(&mut ctl, 1), FrameStep::Skip);
    processing_started(&mut ctl, Some(DetectorKind::ChessCorners));
    assert_eq!(frame_arrived(&mut ctl, 5), FrameStep::Detect(DetectorKind::ChessCorners));
    assert_eq!(ctl.dropped_input_frames, 0);
    assert_eq!(frame_arrived(&mut ctl, 5), FrameStep::Skip);
    assert_eq!(frame_arrived(&mut ctl, 9), FrameStep::Detect(DetectorKind::ChessCorners));
    assert_eq!(ctl.dropped_input_frames, 3);
    assert_eq!(frame_arrived(&mut ctl, 2), FrameStep::Detect(DetectorKind::ChessCorners));
    assert_eq!(ctl.dropped_input_frames, 3);
    assert_eq!(frame_processed(&mut ctl), 1);
    select_algorithm(&mut ctl, AlgorithmId::RadialSymmetry);
    ctl.lifecycle = VisionLifecycle::Processing;
    assert_eq!(frame_arrived(&mut ctl, 3), FrameStep::AwaitTemplate);
    assert_eq!(ctl.lifecycle, VisionLifecycle::WaitingForTemplate);
    vision_failed(&mut ctl, "detector crashed");
    assert_eq!(ctl.lifecycle, VisionLifecycle::Error);
    assert_eq!(ctl.error.as_deref(), Some("detector crashed"));
}
