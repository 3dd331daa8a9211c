//! Frames: their metadata, their byte payload, and conversion of a frame's
//! declared layout to a tightly packed grayscale plane.

use vstd::prelude::*;

verus! {

#[verifier::external_type_specification]
#[verifier::external_body]
pub struct ExBytes(bytes::Bytes);

/// The bytes a `bytes::Bytes` buffer holds.
pub uninterp spec fn bytes_contents(b: bytes::Bytes) -> Seq<u8>;

/// `Bytes::clone` shares the same buffer, so the contents are unchanged.
pub assume_specification[ <bytes::Bytes as Clone>::clone ](b: &bytes::Bytes) -> (res: bytes::Bytes)
    ensures
        bytes_contents(res) == bytes_contents(*b),
;

/// `Bytes::from(Vec<u8>)`: a buffer holding exactly the vector's bytes.
#[verifier::external_body]
pub(crate) fn bytes_from_vec(v: Vec<u8>) -> (b: bytes::Bytes)
    ensures
        bytes_contents(b) == v@,
{
    bytes::Bytes::from(v)
}

/// `Bytes::as_ref`: the buffer's bytes as a slice (which, like every Rust
/// allocation, spans at most `isize::MAX` bytes).
#[verifier::external_body]
pub(crate) fn bytes_as_slice(b: &bytes::Bytes) -> (s: &[u8])
    ensures
        s@ == bytes_contents(*b),
        s@.len() <= isize::MAX,
{
    b.as_ref()
}

#[derive(Debug, Clone, Copy, PartialEq, Eq, Structural)]
pub enum PixelFormat {
    Gray8,
    Rgb8,
}

#[derive(Debug, Clone, Copy)]
pub struct FrameMeta {
    pub frame_id: u64,
    /// Capture time, in milliseconds since the Unix epoch.
    pub timestamp_ms: u64,
    pub width: u32,
    pub height: u32,
    pub stride: u32,
    pub pixel_format: PixelFormat,
}

#[derive(Debug, Clone)]
pub struct Frame {
    pub meta: FrameMeta,
    pub bytes: bytes::Bytes,
}

/// Luma of an RGB pixel with BT.601 weights scaled by 256, rounded.
pub open spec fn rounded_luma(r: u8, g: u8, b: u8) -> u8 {
    ((77 * r + 150 * g + 29 * b + 128) / 256) as u8
}

/// Number of bytes one row of pixels occupies.
pub open spec fn row_len(width: nat, format: PixelFormat) -> nat {
    match format {
        PixelFormat::Gray8 => width,
        PixelFormat::Rgb8 => width * 3,
    }
}

/// Gray value of column `col` of the row that starts at `start`.
pub open spec fn gray_at(bytes: Seq<u8>, start: int, col: int, format: PixelFormat) -> u8 {
    match format {
        PixelFormat::Gray8 => bytes[start + col],
        PixelFormat::Rgb8 => rounded_luma(
            bytes[start + 3 * col],
            bytes[start + 3 * col + 1],
            bytes[start + 3 * col + 2],
        ),
    }
}

pub open spec fn gray_row(bytes: Seq<u8>, start: int, width: nat, format: PixelFormat) -> Seq<u8> {
    Seq::new(width, |col: int| gray_at(bytes, start, col, format))
}

/// The first `rows` rows of a frame as packed gray bytes, `width` per row.
pub open spec fn gray_rows(
    bytes: Seq<u8>,
    width: nat,
    stride: nat,
    format: PixelFormat,
    rows: nat,
) -> Seq<u8>
    decreases rows,
{
    if rows == 0 {
        Seq::empty()
    } else {
        gray_rows(bytes, width, stride, format, (rows - 1) as nat) + gray_row(
            bytes,
            (rows - 1) * stride,
            width,
            format,
        )
    }
}

/// A frame's declared layout fits its bytes: each row holds its pixels and
/// every row lies inside the payload.
pub open spec fn layout_fits(meta: FrameMeta, len: nat) -> bool {
    &&& row_len(meta.width as nat, meta.pixel_format) <= meta.stride
    &&& meta.stride * meta.height <= len
}

/// The byte length of a frame's pixel row is addressable (always so where
/// `usize` has 64 bits).
pub open spec fn fits_in_usize(meta: FrameMeta) -> bool {
    row_len(meta.width as nat, meta.pixel_format) <= usize::MAX
}

/// A layout that fits an addressable payload has an addressable pixel count.
pub proof fn lemma_pixels_fit(meta: FrameMeta, len: nat)
    requires
        layout_fits(meta, len),
        len <= usize::MAX,
    ensures
        meta.width * meta.height <= usize::MAX,
{
    assert(meta.width <= row_len(meta.width as nat, meta.pixel_format));
    assert(meta.width * meta.height <= meta.stride * meta.height) by (nonlinear_arith)
        requires
            meta.width <= meta.stride,
    ;
}

/// The frame's pixels as a packed grayscale plane.
pub open spec fn frame_gray(frame: Frame) -> Seq<u8> {
    gray_rows(
        bytes_contents(frame.bytes),
        frame.meta.width as nat,
        frame.meta.stride as nat,
        frame.meta.pixel_format,
        frame.meta.height as nat,
    )
}

pub proof fn lemma_gray_rows_len(bytes: Seq<u8>, width: nat, stride: nat, format: PixelFormat, rows: nat)
    ensures
        gray_rows(bytes, width, stride, format, rows).len() == width * rows,
    decreases rows,
{
    if rows > 0 {
        lemma_gray_rows_len(bytes, width, stride, format, (rows - 1) as nat);
        assert(width * rows == width * (rows - 1) + width) by (nonlinear_arith);
    } else {
        assert(width * rows == 0) by (nonlinear_arith)
            requires
                rows == 0,
        ;
    }
}

proof fn lemma_row_in_bounds(row: nat, stride: nat, height: nat, row_bytes: nat, len: nat)
    requires
        row < height,
        row_bytes <= stride,
        stride * height <= len,
    ensures
        row * stride + row_bytes <= len,
{
    assert(row * stride + stride <= height * stride) by (nonlinear_arith)
        requires
            row < height,
    ;
    assert(stride * height == height * stride) by (nonlinear_arith);
}

/// Appends the gray values of one row: a copy of a Gray8 row, or the rounded
/// luma of each RGB triple of an Rgb8 row.
fn push_gray_row(
    gray: &mut Vec<u8>,
    bytes: &[u8],
    start: usize,
    width: usize,
    format: PixelFormat,
)
    requires
        start + row_len(width as nat, format) <= bytes@.len(),
    ensures
        final(gray)@ == old(gray)@ + gray_row(bytes@, start as int, width as nat, format),
{
    let ghost before = gray@;
    let len = bytes.len();
    let mut col: usize = 0;
    while col < width
        invariant
            col <= width,
            len == bytes@.len(),
            start + row_len(width as nat, format) <= bytes@.len(),
            gray@ == before + gray_row(bytes@, start as int, width as nat, format).subrange(
                0,
                col as int,
            ),
        decreases width - col,
    {
        let value = match format {
            PixelFormat::Gray8 => bytes[start + col],
            PixelFormat::Rgb8 => {
                let r = bytes[start + 3 * col] as u16;
                let g = bytes[start + 3 * col + 1] as u16;
                let b = bytes[start + 3 * col + 2] as u16;
                let sum: u16 = 77 * r + 150 * g + 29 * b + 128;
                assert(sum >> 8u16 == sum / 256) by (bit_vector);
                (sum >> 8u16) as u8
            },
        };
        gray.push(value);
        col = col + 1;
        assert(gray_row(bytes@, start as int, width as nat, format).subrange(0, col as int)
            =~= gray_row(bytes@, start as int, width as nat, format).subrange(
            0,
            (col - 1) as int,
        ).push(value));
    }
    assert(gray_row(bytes@, start as int, width as nat, format).subrange(0, width as int)
        =~= gray_row(bytes@, start as int, width as nat, format));
}

/// Packs the rows of a frame laid out as `stride` bytes per row into a
/// grayscale plane of `width * height` bytes.
fn pack_gray_rows(bytes: &[u8], meta: &FrameMeta) -> (gray: Vec<u8>)
    requires
        layout_fits(*meta, bytes@.len()),
        fits_in_usize(*meta),
        meta.width * meta.height <= usize::MAX,
    ensures
        gray@ == gray_rows(
            bytes@,
            meta.width as nat,
            meta.stride as nat,
            meta.pixel_format,
            meta.height as nat,
        ),
        gray@.len() == meta.width * meta.height,
{
    let width = meta.width as usize;
    let height = meta.height as usize;
    let stride = meta.stride as usize;
    let len = bytes.len();
    let mut gray: Vec<u8> = Vec::with_capacity(width * height);
    let mut row_index: usize = 0;
    while row_index < height
        invariant
            row_index <= height,
            width == meta.width,
            height == meta.height,
            stride == meta.stride,
            len == bytes@.len(),
            layout_fits(*meta, bytes@.len()),
            fits_in_usize(*meta),
            meta.width * meta.height <= usize::MAX,
            gray@ == gray_rows(bytes@, width as nat, stride as nat, meta.pixel_format, row_index as nat),
        decreases height - row_index,
    {
        proof {
            lemma_row_in_bounds(
                row_index as nat,
                stride as nat,
                height as nat,
                row_len(width as nat, meta.pixel_format),
                bytes@.len(),
            );
        }
        let row_start = row_index * stride;
        push_gray_row(&mut gray, bytes, row_start, width, meta.pixel_format);
        row_index = row_index + 1;
    }
    proof {
        lemma_gray_rows_len(bytes@, width as nat, stride as nat, meta.pixel_format, height as nat);
    }
    gray
}

/// Converts a frame to packed grayscale for storage: rows are cut to their
/// pixels and Rgb8 pixels are reduced to rounded luma. A layout that does not
/// fit the payload is refused with a message.
pub fn frame_as_gray(frame: &Frame) -> (r: Result<Vec<u8>, String>)
    requires
        fits_in_usize(frame.meta),
    ensures
        match r {
            Ok(gray) => layout_fits(frame.meta, bytes_contents(frame.bytes).len())
                && gray@ == frame_gray(*frame),
            Err(msg) => !layout_fits(frame.meta, bytes_contents(frame.bytes).len())
                && msg@ == "frame data does not match its declared layout"@,
        },
{
    let bytes = bytes_as_slice(&frame.bytes);
    let width = frame.meta.width as usize;
    let height = frame.meta.height as usize;
    let stride = frame.meta.stride as usize;
    let row_bytes = match frame.meta.pixel_format {
        PixelFormat::Gray8 => width,
        PixelFormat::Rgb8 => width * 3,
    };
    let required = match stride.checked_mul(height) {
        Some(n) => n,
        None => usize::MAX,
    };
    if stride < row_bytes || bytes.len() < required {
        return Err(String::from_str("frame data does not match its declared layout"));
    }
    proof {
        lemma_pixels_fit(frame.meta, bytes@.len());
    }
    Ok(pack_gray_rows(bytes, &frame.meta))
}

/// A grayscale image of the `image` crate (`ImageBuffer<Luma<u8>, Vec<u8>>`),
/// which the detectors read: one byte per pixel, row by row. Its pixel type is
/// bound by a trait of that crate, so the image is kept opaque here and read
/// through `gray_image_raw`, `gray_image_width` and `gray_image_height`.
#[verifier::external_body]
pub struct GrayImage {
    pub image: image::GrayImage,
}

/// The raw pixel buffer of a grayscale image.
pub uninterp spec fn gray_image_raw(image: GrayImage) -> Seq<u8>;

/// The width of a grayscale image.
pub uninterp spec fn gray_image_width(image: GrayImage) -> u32;

/// The height of a grayscale image.
pub uninterp spec fn gray_image_height(image: GrayImage) -> u32;

/// `ImageBuffer::<Luma<u8>, Vec<u8>>::from_raw`: an image over `buf` when
/// `width * height` one-byte pixels are addressable and fit in `buf`, else
/// `None`; the image keeps `buf` as its raw data.
#[verifier::external_body]
fn gray_image_from_raw(width: u32, height: u32, buf: Vec<u8>) -> (r: Option<GrayImage>)
    ensures
        r is Some <==> (width * height <= usize::MAX && width * height <= buf@.len()),
        r matches Some(img) ==> gray_image_raw(img) == buf@ && gray_image_width(img) == width
            && gray_image_height(img) == height,
{
    image::GrayImage::from_raw(width, height, buf).map(|image| GrayImage { image })
}

/// Why a frame cannot become a grayscale image, in the order the checks run.
pub open spec fn gray_image_fault(meta: FrameMeta, len: nat) -> Option<Seq<char>> {
    if meta.pixel_format == PixelFormat::Rgb8 && meta.width * 3 > usize::MAX {
        Some("RGB frame row is too wide"@)
    } else if meta.stride < row_len(meta.width as nat, meta.pixel_format) {
        Some("frame stride is smaller than its pixel row"@)
    } else if meta.stride * meta.height > usize::MAX {
        Some("frame is too large"@)
    } else if len < meta.stride * meta.height {
        Some("frame data is shorter than its declared stride"@)
    } else if meta.width * meta.height > usize::MAX {
        Some("frame is too large"@)
    } else {
        None
    }
}

/// Converts a frame to a grayscale image for the detectors: rows are cut to
/// their pixels and Rgb8 pixels are reduced to rounded luma. The image has the
/// frame's size.
pub fn frame_to_gray_image(frame: &Frame) -> (r: Result<GrayImage, String>)
    ensures
        match gray_image_fault(frame.meta, bytes_contents(frame.bytes).len()) {
            Some(msg) => r matches Err(m) && m@ == msg,
            None => r matches Ok(img) && gray_image_raw(img) == frame_gray(*frame)
                && gray_image_width(img) == frame.meta.width && gray_image_height(img)
                == frame.meta.height,
        },
{
    let bytes = bytes_as_slice(&frame.bytes);
    let width = frame.meta.width as usize;
    let height = frame.meta.height as usize;
    let stride = frame.meta.stride as usize;
    let row_bytes = match frame.meta.pixel_format {
        PixelFormat::Gray8 => width,
        PixelFormat::Rgb8 => match width.checked_mul(3) {
            Some(n) => n,
            None => return Err(String::from_str("RGB frame row is too wide")),
        },
    };
    if stride < row_bytes {
        return Err(String::from_str("frame stride is smaller than its pixel row"));
    }
    let required = match stride.checked_mul(height) {
        Some(n) => n,
        None => return Err(String::from_str("frame is too large")),
    };
    if bytes.len() < required {
        return Err(String::from_str("frame data is shorter than its declared stride"));
    }
    let pixels = match width.checked_mul(height) {
        Some(n) => n,
        None => return Err(String::from_str("frame is too large")),
    };
    let gray = pack_gray_rows(bytes, &frame.meta);
    assert(gray@.len() == pixels);
    match gray_image_from_raw(frame.meta.width, frame.meta.height, gray) {
        Some(image) => Ok(image),
        None => Err(String::from_str("failed to construct grayscale image")),
    }
}

} // verus!
