use vision_lab::comm::{error_message, ApiError};
use vision_lab::frame::{FrameMeta, PixelFormat};
use vision_lab::recorder::{
    begin_session, check_session_id, check_start_recording, detection_stored, events_skipped,
    find_frame_record, frame_arrived, frame_file_name, frame_stored, is_session_id,
    recorder_failed, session_created_at_ms, session_dir_name, sort_frame_records,
    sort_sessions_newest_first, stop_session, vision_event_target, FrameAction, FrameRecord,
    RecordedSession, RecorderEvent, RecorderLifecycle, RecorderState,
};

fn record(frame_id: u64, path: &str) -> FrameRecord {
    FrameRecord {
        frame_id,
        timestamp_ms: 1_000,
        width: 4,
        height: 2,
        stride: 0,
        pixel_format: None,
        path: path.to_string(),
    }
}

fn session(id: &str, created_at_ms: u64) -> RecordedSession {
    RecordedSession { id: id.to_string(), created_at_ms, frame_count: 0, detection_count: 0 }
}

#[test]
fn session_lifecycle_counts_frames_and_detections() {
    let mut state = RecorderState::default();
    assert_eq!(frame_arrived(&mut state, true), FrameAction::Ignore);
    assert!(vision_event_target(&state).is_none());
    assert!(stop_session(&mut state).is_none());
    check_start_recording(&state).unwrap();
    let started = begin_session(&mut state, "/tmp/session-5".to_string());
    assert!(matches!(started, RecorderEvent::SessionStarted { ref path } if path == "/tmp/session-5"));
    let error = check_start_recording(&state).unwrap_err();
    assert_eq!(error_message(error), "command rejected: recorder is already running");
    assert_eq!(frame_arrived(&mut state, false), FrameAction::Drop);
    assert_eq!(state.dropped_frames, 1);
    assert_eq!(
        frame_arrived(&mut state, true),
        FrameAction::Store { session_path: "/tmp/session-5".to_string() }
    );
    assert!(matches!(frame_stored(&mut state, 9), RecorderEvent::FrameRecorded { frame_id: 9 }));
    assert!(matches!(
        detection_stored(&mut state, 9),
        RecorderEvent::DetectionRecorded { frame_id: 9 }
    ));
    events_skipped(&mut state, 4);
    assert_eq!((state.recorded_frames, state.recorded_detections, state.dropped_frames), (1, 1, 5));
    assert_eq!(vision_event_target(&state).as_deref(), Some("/tmp/session-5"));
    let stopped = stop_session(&mut state).unwrap();
    assert!(matches!(stopped, RecorderEvent::SessionStopped { ref path } if path == "/tmp/session-5"));
    assert_eq!(state.lifecycle, RecorderLifecycle::Idle);
    assert_eq!(state.recorded_frames, 1);
}

#[test]
fn failures_put_the_recorder_in_error() {
    let mut state = RecorderState::default();
    let event = recorder_failed(&mut state, "disk full");
    assert!(matches!(event, RecorderEvent::Error { ref message } if message == "disk full"));
    assert_eq!(state.lifecycle, RecorderLifecycle::Error);
    assert_eq!(state.error.as_deref(), Some("disk full"));
    state.dropped_frames = u64::MAX;
    events_skipped(&mut state, 3);
    assert_eq!(state.dropped_frames, u64::MAX);
}

#[test]
fn session_names_round_trip() {
    let name = session_dir_name(1_700_000_000_123);
    assert_eq!(name, "session-1700000000123");
    assert!(is_session_id(&name));
    assert_eq!(session_created_at_ms(&name), 1_700_000_000_123);
    assert!(!is_session_id("session-"));
    assert!(!is_session_id("session-12a"));
    assert!(!is_session_id("sessions-12"));
    assert!(!is_session_id("../session-1"));
    assert_eq!(session_created_at_ms("session-99999999999999999999"), 0);
    assert_eq!(session_created_at_ms("other"), 0);
    assert!(check_session_id("session-42").is_ok());
    let error = check_session_id("..").unwrap_err();
    assert!(matches!(error, ApiError::InvalidRequest(m) if m == "invalid recorded session id"));
}

#[test]
fn frame_files_are_zero_padded() {
    assert_eq!(frame_file_name(7), "frame_00000007.pgm");
    assert_eq!(frame_file_name(0), "frame_00000000.pgm");
    assert_eq!(frame_file_name(123456789), "frame_123456789.pgm");
}

#[test]
fn frame_records_describe_their_frames() {
    let meta = record(4, "a").meta();
    assert_eq!((meta.frame_id, meta.width, meta.height, meta.stride), (4, 4, 2, 4));
    assert_eq!(meta.pixel_format, PixelFormat::Gray8);
    let mut rgb = record(5, "b");
    rgb.stride = 16;
    rgb.pixel_format = Some(PixelFormat::Rgb8);
    let meta = rgb.recorded_frame().unwrap().meta;
    assert_eq!((meta.stride, meta.pixel_format), (16, PixelFormat::Rgb8));
    let source = FrameMeta {
        frame_id: 11,
        timestamp_ms: 2_500,
        width: 8,
        height: 6,
        stride: 24,
        pixel_format: PixelFormat::Rgb8,
    };
    let stored = FrameRecord::for_stored_frame(&source, "f.pgm".to_string());
    assert_eq!((stored.frame_id, stored.stride, stored.timestamp_ms), (11, 8, 2_500));
    assert_eq!(stored.pixel_format, Some(PixelFormat::Gray8));
}

#[test]
fn records_are_found_by_frame_id() {
    let records = vec![record(3, "x"), record(5, "first"), record(5, "second")];
    assert_eq!(find_frame_record(records.clone(), 5).unwrap().path, "first");
    let error = find_frame_record(records, 6).unwrap_err();
    assert_eq!(error_message(error), "invalid request: recorded frame was not found");
}

#[test]
fn listings_are_sorted_stably() {
    let sorted = sort_frame_records(vec![
        record(9, "a"),
        record(2, "b"),
        record(9, "c"),
        record(1, "d"),
    ]);
    let order: Vec<&str> = sorted.iter().map(|r| r.path.as_str()).collect();
    assert_eq!(order, vec!["d", "b", "a", "c"]);
    let sessions = sort_sessions_newest_first(vec![
        session("session-1", 1),
        session("session-3", 3),
        session("session-01", 1),
        session("session-2", 2),
    ]);
    let ids: Vec<&str> = sessions.iter().map(|s| s.id.as_str()).collect();
    assert_eq!(ids, vec!["session-3", "session-2", "session-1", "session-01"]);
}

#[test]
fn record_metadata_keeps_the_capture_time() {
    let mut r = record(5, "f");
    r.timestamp_ms = 1_500;
    let meta = r.meta();
    assert_eq!(meta.frame_id, 5);
    assert_eq!(meta.timestamp_ms, 1_500);
    assert_eq!((meta.width, meta.height, meta.stride), (4, 2, 4));
    assert_eq!(meta.pixel_format, PixelFormat::Gray8);
}
