use vision_lab::frame::PixelFormat;
use vision_lab::sim_frame::{fill_rect, sim_frame};

#[test]
fn sim_frames_show_a_moving_checkerboard() {
    let frame = sim_frame(1);
    assert_eq!((frame.meta.width, frame.meta.height, frame.meta.stride), (320, 240, 320));
    assert_eq!(frame.meta.pixel_format, PixelFormat::Gray8);
    let bytes = &frame.bytes;
    assert_eq!(bytes.len(), 320 * 240);
    let at = |x: usize, y: usize| bytes[y * 320 + x];
    // frame 1: target corner at (29, 31)
    assert_eq!(at(0, 0), 12);
    assert_eq!(at(28, 31), 12);
    assert_eq!(at(29, 31), 232);
    assert_eq!(at(35, 31), 28);
    assert_eq!(at(29, 37), 28);
    assert_eq!(at(35, 37), 232);
    assert_eq!(at(29 + 47, 31 + 35), 232);
    assert_eq!(at(29 + 48, 31), 12);
    let later = sim_frame(2);
    assert_eq!(later.bytes[31 * 320 + 29], 12);
    assert_eq!(later.bytes[34 * 320 + 34], 232);
}

#[test]
fn fill_rect_clips_to_the_image() {
    let mut bytes = vec![0_u8; 320 * 240];
    fill_rect(&mut bytes, -2, 238, 4, 9);
    assert_eq!(bytes[238 * 320], 9);
    assert_eq!(bytes[239 * 320 + 1], 9);
    assert_eq!(bytes[239 * 320 + 2], 0);
    assert_eq!(bytes.iter().filter(|b| **b == 9).count(), 4);
}

#[test]
fn sim_frame_ids_wrap_like_i32() {
    let first = sim_frame(1);
    let wrapped = sim_frame((1_u64 << 32) + 1);
    assert_eq!(wrapped.meta.frame_id, (1_u64 << 32) + 1);
    assert_eq!(&first.bytes[..], &wrapped.bytes[..]);
}

#[test]
fn sim_frame_with_negative_wrapped_id_shifts_the_target_left() {
    // frame id 2^32 - 1 is -1 as an i32: the corner moves to (19, 25)
    let frame = sim_frame((1_u64 << 32) - 1);
    let at = |x: usize, y: usize| frame.bytes[y * 320 + x];
    assert_eq!(at(18, 25), 12);
    assert_eq!(at(19, 25), 232);
    assert_eq!(at(25, 25), 28);
}

#[test]
fn fill_rect_with_no_size_changes_nothing() {
    let mut bytes = vec![0_u8; 320 * 240];
    fill_rect(&mut bytes, 10, 10, 0, 9);
    fill_rect(&mut bytes, 10, 10, -3, 9);
    assert!(bytes.iter().all(|b| *b == 0));
}
