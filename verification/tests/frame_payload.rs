use bytes::Bytes;
use vision_lab::frame::{Frame, FrameMeta, PixelFormat};
use vision_lab::payload::frame_payload;

fn frame_of(bytes: &'static [u8]) -> Frame {
    Frame {
        meta: FrameMeta {
            frame_id: 4,
            timestamp_ms: 1_234,
            width: bytes.len() as u32,
            height: 1,
            stride: bytes.len() as u32,
            pixel_format: PixelFormat::Gray8,
        },
        bytes: Bytes::from_static(bytes),
    }
}

#[test]
fn payload_encodes_bytes_in_standard_base64() {
    assert_eq!(frame_payload(&frame_of(b"Man")).data_base64, "TWFu");
    assert_eq!(frame_payload(&frame_of(b"Ma")).data_base64, "TWE=");
    assert_eq!(frame_payload(&frame_of(b"M")).data_base64, "TQ==");
    assert_eq!(frame_payload(&frame_of(b"")).data_base64, "");
    assert_eq!(frame_payload(&frame_of(&[0xfb, 0xff, 0x00, 0x3e])).data_base64, "+/8APg==");
}

#[test]
fn payload_keeps_the_frame_metadata() {
    let payload = frame_payload(&frame_of(b"abc"));
    assert_eq!(payload.meta.frame_id, 4);
    assert_eq!(payload.meta.timestamp_ms, 1_234);
    assert_eq!((payload.meta.width, payload.meta.height, payload.meta.stride), (3, 1, 3));
}
