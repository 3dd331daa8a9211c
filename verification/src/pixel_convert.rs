//! Conversion of native camera pixel buffers to the 8-bit grayscale frames
//! the rest of the system consumes: stride removal for one-component buffers,
//! luma for packed RGB-like buffers and Y extraction for packed 4:2:2 buffers.

use vstd::prelude::*;
use crate::frame::{PixelFormat, gray_rows};

verus! {

/// CoreVideo pixel format codes (`kCVPixelFormatType_*`), four-character codes
/// read big-endian, or small integers for the classic formats.
pub const PIXEL_FORMAT_ONE_COMPONENT_8: u32 = 0x4c30_3038;

/// `kCVPixelFormatType_32BGRA` ('BGRA').
pub const PIXEL_FORMAT_32_BGRA: u32 = 0x4247_5241;

/// `kCVPixelFormatType_32ARGB` (32).
pub const PIXEL_FORMAT_32_ARGB: u32 = 0x0000_0020;

/// `kCVPixelFormatType_32ABGR` ('ABGR').
pub const PIXEL_FORMAT_32_ABGR: u32 = 0x4142_4752;

/// `kCVPixelFormatType_24RGB` (24).
pub const PIXEL_FORMAT_24_RGB: u32 = 0x0000_0018;

/// `kCVPixelFormatType_24BGR` ('24BG').
pub const PIXEL_FORMAT_24_BGR: u32 = 0x3234_4247;

/// `kCVPixelFormatType_422YpCbCr8` ('2vuy'): Cb Y0 Cr Y1.
pub const PIXEL_FORMAT_422_YPCBCR8: u32 = 0x3276_7579;

/// `kCVPixelFormatType_422YpCbCr8_yuvs` ('yuvs'): Y0 Cb Y1 Cr.
pub const PIXEL_FORMAT_422_YPCBCR8_YUVS: u32 = 0x7975_7673;

/// `kCVPixelFormatType_422YpCbCr8FullRange` ('yuvf'): Y0 Cb Y1 Cr.
pub const PIXEL_FORMAT_422_YPCBCR8_FULL_RANGE: u32 = 0x7975_7666;

/// Luma with BT.601 weights scaled by 256, truncated.
pub open spec fn luma_of(r: u8, g: u8, b: u8) -> u8 {
    ((r * 77 + g * 150 + b * 29) / 256) as u8
}

pub open spec fn byte_or_zero(source: Seq<u8>, i: int) -> u8 {
    if 0 <= i < source.len() {
        source[i]
    } else {
        0
    }
}

pub open spec fn spec_pixel_stride(format: u32) -> nat {
    if format == PIXEL_FORMAT_24_RGB || format == PIXEL_FORMAT_24_BGR {
        3
    } else {
        4
    }
}

/// The (red, green, blue) bytes of the pixel at `offset`, by channel order;
/// bytes past the end of the row read as 0.
pub open spec fn spec_rgb_triplet(source: Seq<u8>, offset: int, format: u32) -> (u8, u8, u8) {
    let first = byte_or_zero(source, offset);
    let second = byte_or_zero(source, offset + 1);
    let third = byte_or_zero(source, offset + 2);
    let fourth = byte_or_zero(source, offset + 3);
    if format == PIXEL_FORMAT_32_BGRA || format == PIXEL_FORMAT_24_BGR {
        (third, second, first)
    } else if format == PIXEL_FORMAT_32_ARGB {
        (second, third, fourth)
    } else if format == PIXEL_FORMAT_32_ABGR {
        (fourth, third, second)
    } else {
        (first, second, third)
    }
}

pub open spec fn spec_is_packed_yuv_422(format: u32) -> bool {
    format == PIXEL_FORMAT_422_YPCBCR8 || format == PIXEL_FORMAT_422_YPCBCR8_YUVS || format
        == PIXEL_FORMAT_422_YPCBCR8_FULL_RANGE
}

/// Offset of the Y sample of column `col` inside its 4-byte pixel pair.
pub open spec fn y_offset(col: int, format: u32) -> int {
    if format == PIXEL_FORMAT_422_YPCBCR8 {
        if col % 2 == 0 {
            1
        } else {
            3
        }
    } else if col % 2 == 0 {
        0
    } else {
        2
    }
}

/// Gray value of column `col` of a native row in `format`.
pub open spec fn native_gray(source: Seq<u8>, col: int, format: u32) -> u8 {
    if spec_is_packed_yuv_422(format) {
        byte_or_zero(source, (col / 2) * 4 + y_offset(col, format))
    } else {
        let (r, g, b) = spec_rgb_triplet(source, col * spec_pixel_stride(format), format);
        luma_of(r, g, b)
    }
}

/// Bytes per pixel of a packed RGB-like format.
pub fn pixel_stride(format: u32) -> (stride: usize)
    ensures
        stride == spec_pixel_stride(format),
{
    if format == PIXEL_FORMAT_24_RGB || format == PIXEL_FORMAT_24_BGR {
        3
    } else {
        4
    }
}

fn byte_at(source: &[u8], i: usize) -> (b: u8)
    ensures
        b == byte_or_zero(source@, i as int),
{
    if i < source.len() {
        source[i]
    } else {
        0
    }
}

/// Reads the (red, green, blue) bytes of the pixel at `offset` in channel
/// order; missing bytes read as 0.
pub fn rgb_triplet(source: &[u8], offset: usize, format: u32) -> (rgb: (u8, u8, u8))
    requires
        offset + 3 <= usize::MAX,
    ensures
        rgb == spec_rgb_triplet(source@, offset as int, format),
{
    let first = byte_at(source, offset);
    let second = byte_at(source, offset + 1);
    let third = byte_at(source, offset + 2);
    let fourth = byte_at(source, offset + 3);
    if format == PIXEL_FORMAT_32_BGRA || format == PIXEL_FORMAT_24_BGR {
        (third, second, first)
    } else if format == PIXEL_FORMAT_32_ARGB {
        (second, third, fourth)
    } else if format == PIXEL_FORMAT_32_ABGR {
        (fourth, third, second)
    } else {
        (first, second, third)
    }
}

/// Luma of an RGB pixel: `(77 r + 150 g + 29 b) >> 8`.
pub fn luminance(r: u8, g: u8, b: u8) -> (y: u8)
    ensures
        y == luma_of(r, g, b),
{
    let sum: u32 = (r as u32) * 77 + (g as u32) * 150 + (b as u32) * 29;
    assert(sum >> 8u32 == sum / 256) by (bit_vector);
    (sum >> 8u32) as u8
}

pub fn is_packed_yuv_422(format: u32) -> (r: bool)
    ensures
        r == spec_is_packed_yuv_422(format),
{
    format == PIXEL_FORMAT_422_YPCBCR8 || format == PIXEL_FORMAT_422_YPCBCR8_YUVS || format
        == PIXEL_FORMAT_422_YPCBCR8_FULL_RANGE
}

/// The gray plane after writing gray values for `cols` columns of row `row`.
pub open spec fn with_row_written(
    gray: Seq<u8>,
    source: Seq<u8>,
    row: int,
    width: int,
    cols: int,
    format: u32,
) -> Seq<u8> {
    Seq::new(
        gray.len(),
        |i: int|
            if row * width <= i < row * width + cols {
                native_gray(source, i - row * width, format)
            } else {
                gray[i]
            },
    )
}

/// Writes the Y samples of one packed 4:2:2 row into row `row` of `gray`.
pub fn convert_packed_yuv_422_row_to_gray(
    source: &[u8],
    gray: &mut [u8],
    row: usize,
    width: usize,
    format: u32,
)
    requires
        spec_is_packed_yuv_422(format),
        row * width + width <= old(gray)@.len(),
        width * 4 + 4 <= usize::MAX,
    ensures
        final(gray)@ == with_row_written(
            old(gray)@,
            source@,
            row as int,
            width as int,
            width as int,
            format,
        ),
{
    let ghost start = old(gray)@;
    let len = gray.len();
    assert(len == gray@.len());
    let base = row * width;
    let mut col: usize = 0;
    while col < width
        invariant
            col <= width,
            base == row * width,
            len == gray@.len(),
            spec_is_packed_yuv_422(format),
            width * 4 + 4 <= usize::MAX,
            row * width + width <= gray@.len(),
            gray@ == with_row_written(start, source@, row as int, width as int, col as int, format),
        decreases width - col,
    {
        let pair_offset = (col / 2) * 4;
        let y_off: usize = if format == PIXEL_FORMAT_422_YPCBCR8 {
            if col % 2 == 0 {
                1
            } else {
                3
            }
        } else if col % 2 == 0 {
            0
        } else {
            2
        };
        let value = byte_at(source, pair_offset + y_off);
        gray[base + col] = value;
        col = col + 1;
        assert(gray@ =~= with_row_written(
            start,
            source@,
            row as int,
            width as int,
            col as int,
            format,
        ));
    }
}

/// Converts one native row to gray into row `row` of `gray`: Y samples for
/// packed 4:2:2 formats, luma of each pixel for RGB-like formats.
pub fn convert_row_to_gray(source: &[u8], gray: &mut [u8], row: usize, width: usize, format: u32)
    requires
        row * width + width <= old(gray)@.len(),
        width * 4 + 4 <= usize::MAX,
    ensures
        final(gray)@ == with_row_written(
            old(gray)@,
            source@,
            row as int,
            width as int,
            width as int,
            format,
        ),
{
    if is_packed_yuv_422(format) {
        convert_packed_yuv_422_row_to_gray(source, gray, row, width, format);
        return;
    }
    let ghost start = old(gray)@;
    let len = gray.len();
    assert(len == gray@.len());
    let base = row * width;
    let mut col: usize = 0;
    while col < width
        invariant
            col <= width,
            base == row * width,
            len == gray@.len(),
            !spec_is_packed_yuv_422(format),
            row * width + width <= gray@.len(),
            width * 4 + 4 <= usize::MAX,
            gray@ == with_row_written(start, source@, row as int, width as int, col as int, format),
        decreases width - col,
    {
        let offset = col * pixel_stride(format);
        let (r, g, b) = rgb_triplet(source, offset, format);
        gray[base + col] = luminance(r, g, b);
        col = col + 1;
        assert(gray@ =~= with_row_written(
            start,
            source@,
            row as int,
            width as int,
            col as int,
            format,
        ));
    }
}

/// Copies a one-component buffer whose rows are `stride` bytes apart into a
/// packed `width * height` plane, or `None` when the stride is narrower than
/// a row, the sizes overflow or the buffer is shorter than its rows.
pub fn copy_padded_gray_rows(source: &[u8], width: usize, height: usize, stride: usize) -> (r:
    Option<Vec<u8>>)
    ensures
        match r {
            Some(gray) => {
                &&& stride >= width
                &&& stride * height <= source@.len()
                &&& width * height <= usize::MAX
                &&& gray@ == gray_rows(
                    source@,
                    width as nat,
                    stride as nat,
                    PixelFormat::Gray8,
                    height as nat,
                )
            },
            None => !(stride >= width && stride * height <= usize::MAX && stride * height
                <= source@.len() && width * height <= usize::MAX),
        },
{
    let total = match stride.checked_mul(height) {
        Some(n) => n,
        None => return None,
    };
    if stride < width || source.len() < total {
        return None;
    }
    let pixels = match width.checked_mul(height) {
        Some(n) => n,
        None => return None,
    };
    let mut bytes: Vec<u8> = Vec::with_capacity(pixels);
    let mut row: usize = 0;
    while row < height
        invariant
            row <= height,
            stride >= width,
            stride * height <= source@.len(),
            total == stride * height,
            bytes@ == gray_rows(source@, width as nat, stride as nat, PixelFormat::Gray8, row as nat),
        decreases height - row,
    {
        proof {
            assert(row * stride + stride <= height * stride) by (nonlinear_arith)
                requires
                    row < height,
            ;
            assert(stride * height == height * stride) by (nonlinear_arith);
        }
        let source_start = row * stride;
        let row_bytes = vstd::slice::slice_subrange(source, source_start, source_start + width);
        bytes.extend_from_slice(row_bytes);
        proof {
            assert(row_bytes@ =~= crate::frame::gray_row(
                source@,
                source_start as int,
                width as nat,
                PixelFormat::Gray8,
            ));
        }
        row = row + 1;
    }
    Some(bytes)
}

/// The gray values of one native row of `width` pixels.
pub open spec fn native_row_gray(row: Seq<u8>, width: nat, format: u32) -> Seq<u8> {
    Seq::new(width, |col: int| native_gray(row, col, format))
}

/// The gray plane of the first `rows` rows of a packed native buffer whose
/// rows start `stride` bytes apart (each row read as its `stride` bytes).
pub open spec fn native_gray_rows(
    source: Seq<u8>,
    width: nat,
    stride: nat,
    format: u32,
    rows: nat,
) -> Seq<u8>
    decreases rows,
{
    if rows == 0 {
        Seq::empty()
    } else {
        let start = (rows - 1) * stride;
        native_gray_rows(source, width, stride, format, (rows - 1) as nat) + native_row_gray(
            source.subrange(start, start + stride),
            width,
            format,
        )
    }
}

/// Converts a packed native buffer of `height` rows, `stride` bytes apart, to
/// a packed `width * height` gray plane (Y samples of 4:2:2 formats, luma of
/// RGB-like ones), or `None` when the buffer is shorter than its rows.
pub fn convert_packed_rows_to_gray(
    source: &[u8],
    width: u32,
    height: u32,
    stride: usize,
    format: u32,
) -> (r: Option<Vec<u8>>)
    requires
        width * height <= u32::MAX,
        width * 4 + 4 <= usize::MAX,
    ensures
        match r {
            Some(gray) => stride * height <= source@.len() && gray@ == native_gray_rows(
                source@,
                width as nat,
                stride as nat,
                format,
                height as nat,
            ),
            None => stride * height > source@.len(),
        },
{
    let w = width as usize;
    let rows = height as usize;
    let len = source.len();
    let total = match stride.checked_mul(rows) {
        Some(n) => n,
        None => return None,
    };
    if len < total {
        return None;
    }
    let mut gray: Vec<u8> = Vec::new();
    let mut row: usize = 0;
    while row < rows
        invariant
            row <= rows,
            rows == height,
            w == width,
            total == stride * rows,
            total <= source@.len(),
            w * 4 + 4 <= usize::MAX,
            gray@ == native_gray_rows(source@, w as nat, stride as nat, format, row as nat),
        decreases rows - row,
    {
        proof {
            assert(row * stride + stride <= rows * stride) by (nonlinear_arith)
                requires
                    row < rows,
            ;
            assert(stride * rows == rows * stride) by (nonlinear_arith);
        }
        let start = row * stride;
        let line = vstd::slice::slice_subrange(source, start, start + stride);
        let mut buf: Vec<u8> = vec![0u8; w];
        assert(buf@.len() == w);
        convert_row_to_gray(line, buf.as_mut_slice(), 0, w, format);
        proof {
            assert(buf@ =~= native_row_gray(line@, w as nat, format));
            assert(line@ =~= source@.subrange(start as int, start + stride));
        }
        gray.extend_from_slice(buf.as_slice());
        row = row + 1;
    }
    Some(gray)
}

/// The output format to ask a capture output for: one-component 8-bit when
/// offered, else 32-bit BGRA when offered, else none (keep the default).
pub fn preferred_output_format(available: &[u32]) -> (r: Option<u32>)
    ensures
        r == (if available@.contains(PIXEL_FORMAT_ONE_COMPONENT_8) {
            Some(PIXEL_FORMAT_ONE_COMPONENT_8)
        } else if available@.contains(PIXEL_FORMAT_32_BGRA) {
            Some(PIXEL_FORMAT_32_BGRA)
        } else {
            None
        }),
{
    if slice_contains(available, PIXEL_FORMAT_ONE_COMPONENT_8) {
        Some(PIXEL_FORMAT_ONE_COMPONENT_8)
    } else if slice_contains(available, PIXEL_FORMAT_32_BGRA) {
        Some(PIXEL_FORMAT_32_BGRA)
    } else {
        None
    }
}

fn slice_contains(items: &[u32], wanted: u32) -> (r: bool)
    ensures
        r == items@.contains(wanted),
{
    let mut i: usize = 0;
    while i < items.len()
        invariant
            i <= items@.len(),
            forall|k: int| 0 <= k < i ==> items@[k] != wanted,
        decreases items@.len() - i,
    {
        if items[i] == wanted {
            return true;
        }
        i = i + 1;
    }
    false
}

/// The frame pixel format a native capture subtype is published as.
pub fn pixel_format(subtype: u32) -> (f: PixelFormat)
    ensures
        f == (if subtype == PIXEL_FORMAT_ONE_COMPONENT_8 {
            PixelFormat::Gray8
        } else {
            PixelFormat::Rgb8
        }),
{
    if subtype == PIXEL_FORMAT_ONE_COMPONENT_8 {
        PixelFormat::Gray8
    } else {
        PixelFormat::Rgb8
    }
}

/// How each native pixel becomes gray, for every column `col` whose bytes lie
/// in the row: the 24-bit formats hold a pixel every 3 bytes and the 32-bit
/// formats every 4, each in its own channel order, and the gray value is the
/// luma `(77 R + 150 G + 29 B) / 256`; packed 4:2:2 rows hold two pixels in 4
/// bytes and give each pixel's Y sample (`2vuy` stores `Cb Y0 Cr Y1`, `yuvs`
/// and the full-range format `Y0 Cb Y1 Cr`).
pub proof fn lemma_native_gray_reads_each_pixel(source: Seq<u8>, col: int)
    requires
        0 <= col,
    ensures
        3 * col + 2 < source.len() ==> {
            &&& native_gray(source, col, PIXEL_FORMAT_24_RGB) == ((source[3 * col] * 77
                + source[3 * col + 1] * 150 + source[3 * col + 2] * 29) / 256) as u8
            &&& native_gray(source, col, PIXEL_FORMAT_24_BGR) == ((source[3 * col + 2] * 77
                + source[3 * col + 1] * 150 + source[3 * col] * 29) / 256) as u8
        },
        4 * col + 3 < source.len() ==> {
            &&& native_gray(source, col, PIXEL_FORMAT_32_BGRA) == ((source[4 * col + 2] * 77
                + source[4 * col + 1] * 150 + source[4 * col] * 29) / 256) as u8
            &&& native_gray(source, col, PIXEL_FORMAT_32_ARGB) == ((source[4 * col + 1] * 77
                + source[4 * col + 2] * 150 + source[4 * col + 3] * 29) / 256) as u8
            &&& native_gray(source, col, PIXEL_FORMAT_32_ABGR) == ((source[4 * col + 3] * 77
                + source[4 * col + 2] * 150 + source[4 * col + 1] * 29) / 256) as u8
        },
        (col / 2) * 4 + 3 < source.len() ==> {
            &&& native_gray(source, col, PIXEL_FORMAT_422_YPCBCR8) == (if col % 2 == 0 {
                source[(col / 2) * 4 + 1]
            } else {
                source[(col / 2) * 4 + 3]
            })
            &&& native_gray(source, col, PIXEL_FORMAT_422_YPCBCR8_YUVS) == (if col % 2 == 0 {
                source[(col / 2) * 4]
            } else {
                source[(col / 2) * 4 + 2]
            })
            &&& native_gray(source, col, PIXEL_FORMAT_422_YPCBCR8_FULL_RANGE) == (if col % 2
                == 0 {
                source[(col / 2) * 4]
            } else {
                source[(col / 2) * 4 + 2]
            })
        },
{
}

} // verus!
