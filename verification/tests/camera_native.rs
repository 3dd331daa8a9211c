use vision_lab::pixel_convert::{
    convert_row_to_gray, copy_padded_gray_rows, luminance, pixel_format,
    preferred_output_format, rgb_triplet, PIXEL_FORMAT_24_BGR, PIXEL_FORMAT_24_RGB,
    PIXEL_FORMAT_32_ABGR, PIXEL_FORMAT_32_ARGB, PIXEL_FORMAT_32_BGRA,
    PIXEL_FORMAT_422_YPCBCR8, PIXEL_FORMAT_422_YPCBCR8_FULL_RANGE,
    PIXEL_FORMAT_422_YPCBCR8_YUVS, PIXEL_FORMAT_ONE_COMPONENT_8,
};
use vision_lab::frame::PixelFormat;

#[test]
fn copy_padded_gray_rows_removes_stride_padding() {
    let source = [1, 2, 3, 99, 4, 5, 6, 88];
    let gray = copy_padded_gray_rows(&source, 3, 2, 4).unwrap();
    assert_eq!(gray, vec![1, 2, 3, 4, 5, 6]);
}

#[test]
fn bgra_row_converts_to_luma() {
    let mut gray = vec![0; 2];
    let source = [
        0, 0, 255, 255, // red
        255, 0, 0, 255, // blue
    ];
    convert_row_to_gray(&source, &mut gray, 0, 2, PIXEL_FORMAT_32_BGRA);
    assert_eq!(gray, vec![76, 28]);
}

#[test]
fn rgb_and_bgr_rows_use_channel_order() {
    let mut rgb_gray = vec![0; 1];
    let mut bgr_gray = vec![0; 1];
    convert_row_to_gray(&[255, 0, 0], &mut rgb_gray, 0, 1, PIXEL_FORMAT_24_RGB);
    convert_row_to_gray(&[0, 0, 255], &mut bgr_gray, 0, 1, PIXEL_FORMAT_24_BGR);
    assert_eq!(rgb_gray, vec![76]);
    assert_eq!(bgr_gray, vec![76]);
}

#[test]
fn planar_luma_copy_matches_packed_gray_contract() {
    let source = [10, 11, 12, 0, 20, 21, 22, 0];
    let gray = copy_padded_gray_rows(&source, 3, 2, 4).unwrap();
    assert_eq!(gray, vec![10, 11, 12, 20, 21, 22]);
}

#[test]
fn packed_2vuy_extracts_y_samples() {
    let mut gray = vec![0; 4];
    let source = [
        128, 10, 64, 20, // Cb Y0 Cr Y1
        128, 30, 64, 40,
    ];
    convert_row_to_gray(&source, &mut gray, 0, 4, PIXEL_FORMAT_422_YPCBCR8);
    assert_eq!(gray, vec![10, 20, 30, 40]);
}

#[test]
fn packed_yuvs_extracts_y_samples() {
    let mut gray = vec![0; 4];
    let source = [
        10, 128, 20, 64, // Y0 Cb Y1 Cr
        30, 128, 40, 64,
    ];
    convert_row_to_gray(&source, &mut gray, 0, 4, PIXEL_FORMAT_422_YPCBCR8_YUVS);
    assert_eq!(gray, vec![10, 20, 30, 40]);
}

#[test]
fn full_range_yuv_uses_leading_luma() {
    let mut gray = vec![0; 6];
    let source = [1, 2, 3, 4, 5, 6, 7, 8];
    convert_row_to_gray(&source, &mut gray, 1, 3, PIXEL_FORMAT_422_YPCBCR8_FULL_RANGE);
    assert_eq!(gray, vec![0, 0, 0, 1, 3, 5]);
}

#[test]
fn argb_and_abgr_channel_orders() {
    assert_eq!(rgb_triplet(&[9, 1, 2, 3], 0, PIXEL_FORMAT_32_ARGB), (1, 2, 3));
    assert_eq!(rgb_triplet(&[9, 1, 2, 3], 0, PIXEL_FORMAT_32_ABGR), (3, 2, 1));
    assert_eq!(rgb_triplet(&[1, 2], 0, PIXEL_FORMAT_24_RGB), (1, 2, 0));
}

#[test]
fn luminance_truncates_weighted_sum() {
    assert_eq!(luminance(255, 255, 255), 255);
    assert_eq!(luminance(0, 255, 0), 149);
    assert_eq!(luminance(10, 20, 30), 18);
}

#[test]
fn short_rows_read_missing_bytes_as_zero() {
    let mut gray = vec![7; 2];
    convert_row_to_gray(&[255, 255, 255], &mut gray, 0, 2, PIXEL_FORMAT_32_BGRA);
    assert_eq!(gray, vec![255, 0]);
}

#[test]
fn padded_copy_refuses_inconsistent_layouts() {
    assert_eq!(copy_padded_gray_rows(&[1, 2, 3], 3, 2, 2), None);
    assert_eq!(copy_padded_gray_rows(&[1, 2, 3, 4, 5], 2, 2, 3), None);
    assert_eq!(copy_padded_gray_rows(&[], 0, 0, 0), Some(vec![]));
}

#[test]
fn preferred_output_prefers_one_component() {
    assert_eq!(
        preferred_output_format(&[PIXEL_FORMAT_32_BGRA, PIXEL_FORMAT_ONE_COMPONENT_8]),
        Some(PIXEL_FORMAT_ONE_COMPONENT_8)
    );
    assert_eq!(
        preferred_output_format(&[PIXEL_FORMAT_422_YPCBCR8, PIXEL_FORMAT_32_BGRA]),
        Some(PIXEL_FORMAT_32_BGRA)
    );
    assert_eq!(preferred_output_format(&[PIXEL_FORMAT_422_YPCBCR8]), None);
    assert_eq!(pixel_format(PIXEL_FORMAT_ONE_COMPONENT_8), PixelFormat::Gray8);
    assert_eq!(pixel_format(PIXEL_FORMAT_32_BGRA), PixelFormat::Rgb8);
}
