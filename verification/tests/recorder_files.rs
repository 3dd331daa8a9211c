use bytes::Bytes;
use vision_lab::comm::{error_message, ApiError};
use vision_lab::frame::{frame_as_gray, Frame, FrameMeta, PixelFormat};
use vision_lab::pgm::{
    decode_pgm, encode_pgm_header, next_pgm_token, parse_decimal_u32, parse_pgm_u32,
    read_pgm_pixels, PgmFault, PgmField,
};
use vision_lab::recorder::pgm_frame_file;

fn frame(width: u32, height: u32, stride: u32, format: PixelFormat, bytes: Vec<u8>) -> Frame {
    Frame {
        meta: FrameMeta {
            frame_id: 3,
            timestamp_ms: 1_700_000_000_000,
            width,
            height,
            stride,
            pixel_format: format,
        },
        bytes: Bytes::from(bytes),
    }
}

#[test]
fn header_tokens_skip_whitespace_and_comments() {
    let data = b"P5\n# made by a scanner\n  12 #x\n7\n255 rest";
    let mut offset = 0;
    assert_eq!(next_pgm_token(data, &mut offset), Some(&b"P5"[..]));
    assert_eq!(next_pgm_token(data, &mut offset), Some(&b"12"[..]));
    assert_eq!(next_pgm_token(data, &mut offset), Some(&b"7"[..]));
    assert_eq!(next_pgm_token(data, &mut offset), Some(&b"255"[..]));
    assert_eq!(next_pgm_token(data, &mut offset), Some(&b"rest"[..]));
    assert_eq!(next_pgm_token(data, &mut offset), None);
    assert_eq!(offset, data.len());
}

#[test]
fn decimal_fields_follow_u32_parsing() {
    assert_eq!(parse_decimal_u32(b"4294967295"), Some(u32::MAX));
    assert_eq!(parse_decimal_u32(b"4294967296"), None);
    assert_eq!(parse_decimal_u32(b"+17"), Some(17));
    assert_eq!(parse_decimal_u32(b"007"), Some(7));
    assert_eq!(parse_decimal_u32(b"+"), None);
    assert_eq!(parse_decimal_u32(b"-1"), None);
    assert_eq!(parse_decimal_u32(b""), None);
    assert_eq!(parse_decimal_u32(b"1a"), None);
    assert_eq!(parse_pgm_u32(None, PgmField::Width), Err(PgmFault::MissingField(PgmField::Width)));
    assert_eq!(
        parse_pgm_u32(Some(b"x"), PgmField::Height),
        Err(PgmFault::InvalidField(PgmField::Height))
    );
}

#[test]
fn header_encoding_is_plain_decimal() {
    assert_eq!(encode_pgm_header(320, 240), b"P5\n320 240\n255\n".to_vec());
    assert_eq!(encode_pgm_header(0, 7), b"P5\n0 7\n255\n".to_vec());
}

#[test]
fn decoding_checks_header_and_size() {
    let mut good = encode_pgm_header(2, 2);
    good.extend_from_slice(&[1, 2, 3, 4]);
    assert_eq!(decode_pgm(&good, 2, 2), Ok(vec![1, 2, 3, 4]));
    assert_eq!(decode_pgm(&good, 2, 3), Err(PgmFault::Mismatch));
    assert_eq!(decode_pgm(b"", 1, 1), Err(PgmFault::NoHeader));
    assert_eq!(decode_pgm(b"P6\n1 1\n255\n\0", 1, 1), Err(PgmFault::NotBinary));
    assert_eq!(decode_pgm(b"P5\n1", 1, 1), Err(PgmFault::MissingField(PgmField::Height)));
    assert_eq!(decode_pgm(b"P5\n1 1 9x9\n", 1, 1), Err(PgmFault::InvalidField(PgmField::MaxValue)));
    assert_eq!(decode_pgm(b"P5\n1 1\n255", 1, 1), Err(PgmFault::NoSeparator));
    assert_eq!(decode_pgm(b"P5\n1 1\n255\n", 1, 1), Err(PgmFault::BadLength));
    assert_eq!(decode_pgm(b"P5\n1 1\n254\n\0", 1, 1), Err(PgmFault::Mismatch));
    assert_eq!(decode_pgm(b"P5 1 1 255 \x07", 1, 1), Ok(vec![7]));
}

#[test]
fn decode_errors_carry_their_messages() {
    let error = read_pgm_pixels(b"P5\n1", 1, 1).unwrap_err();
    assert_eq!(error_message(error), "operation failed: recorded PGM has no height");
    let error = read_pgm_pixels(b"P5\n1 1\n255\n", 1, 1).unwrap_err();
    assert!(matches!(error, ApiError::Failed(m) if m == "recorded PGM pixel data has an invalid length"));
    assert_eq!(read_pgm_pixels(b"P5 1 1 255 \x09", 1, 1).unwrap(), vec![9]);
}

#[test]
fn stored_frames_read_back_as_written() {
    let rgb = frame(2, 2, 7, PixelFormat::Rgb8, vec![
        255, 0, 0, 0, 255, 0, 99, //
        0, 0, 255, 10, 20, 30, 99,
    ]);
    let file = pgm_frame_file(&rgb).unwrap();
    assert_eq!(&file[..11], b"P5\n2 2\n255\n");
    let gray = frame_as_gray(&rgb).unwrap();
    assert_eq!(gray, vec![77, 149, 29, 18]);
    assert_eq!(read_pgm_pixels(&file, 2, 2).unwrap(), gray);
}

#[test]
fn frames_that_do_not_fit_their_layout_are_refused() {
    let short = frame(3, 2, 3, PixelFormat::Gray8, vec![1, 2, 3, 4, 5]);
    assert_eq!(
        frame_as_gray(&short).unwrap_err(),
        "frame data does not match its declared layout"
    );
    let narrow = frame(2, 1, 5, PixelFormat::Rgb8, vec![0; 10]);
    assert!(pgm_frame_file(&narrow).is_err());
    let gray = frame(2, 2, 3, PixelFormat::Gray8, vec![1, 2, 0, 3, 4, 0]);
    assert_eq!(frame_as_gray(&gray).unwrap(), vec![1, 2, 3, 4]);
}

#[test]
fn huge_declared_frames_are_refused_as_layout_errors() {
    let huge = frame(u32::MAX, u32::MAX, u32::MAX, PixelFormat::Gray8, vec![0; 16]);
    assert_eq!(
        frame_as_gray(&huge).unwrap_err(),
        "frame data does not match its declared layout"
    );
    assert!(pgm_frame_file(&huge).is_err());
}
