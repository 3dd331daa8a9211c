//! The simulated camera's frames: a checkerboard target on a dark
//! background that moves with the frame id.

use vstd::prelude::*;
use crate::camera::{SIM_WIDTH, SIM_HEIGHT};
use crate::comm::{is_clock_stamp, now, unix_millis};
use crate::frame::{Frame, FrameMeta, PixelFormat, bytes_contents, bytes_from_vec};

verus! {

/// The gray value at column `x`, row `y` of a `SIM_WIDTH`-wide plane.
pub open spec fn pixel_at(plane: Seq<u8>, x: int, y: int) -> u8 {
    plane[y * 320 + x]
}

pub open spec fn in_image(x: int, y: int) -> bool {
    0 <= x < 320 && 0 <= y < 240
}

pub open spec fn in_square(x: int, y: int, x0: int, y0: int, size: int) -> bool {
    x0 <= x < x0 + size && y0 <= y < y0 + size
}

/// Sets the pixels of the square of side `size` at (`x0`, `y0`) that lie in
/// the image to `value`.
pub fn fill_rect(bytes: &mut [u8], x0: i32, y0: i32, size: i32, value: u8)
    requires
        old(bytes)@.len() == 320 * 240,
        i32::MIN <= x0 + size <= i32::MAX,
        i32::MIN <= y0 + size <= i32::MAX,
    ensures
        final(bytes)@.len() == 320 * 240,
        forall|x: int, y: int|
            in_image(x, y) ==> #[trigger] pixel_at(final(bytes)@, x, y) == if in_square(
                x,
                y,
                x0 as int,
                y0 as int,
                size as int,
            ) {
                value
            } else {
                pixel_at(old(bytes)@, x, y)
            },
{
    let ghost start = old(bytes)@;
    let len = bytes.len();
    if size <= 0 {
        return;
    }
    let mut y = y0;
    while y < y0 + size
        invariant
            y0 <= y <= y0 + size,
            len == bytes@.len(),
            bytes@.len() == 320 * 240,
            0 < size,
            x0 + size <= i32::MAX,
            y0 + size <= i32::MAX,
            forall|px: int, py: int|
                in_image(px, py) ==> #[trigger] pixel_at(bytes@, px, py) == if in_square(
                    px,
                    py,
                    x0 as int,
                    y0 as int,
                    size as int,
                ) && py < y {
                    value
                } else {
                    pixel_at(start, px, py)
                },
        decreases y0 + size - y,
    {
        let mut x = x0;
        while x < x0 + size
            invariant
                y0 <= y < y0 + size,
                x0 <= x <= x0 + size,
                len == bytes@.len(),
                bytes@.len() == 320 * 240,
                0 < size,
                x0 + size <= i32::MAX,
                y0 + size <= i32::MAX,
                forall|px: int, py: int|
                    in_image(px, py) ==> #[trigger] pixel_at(bytes@, px, py) == if in_square(
                        px,
                        py,
                        x0 as int,
                        y0 as int,
                        size as int,
                    ) && (py < y || (py == y && px < x)) {
                        value
                    } else {
                        pixel_at(start, px, py)
                    },
            decreases x0 + size - x,
        {
            if x >= 0 && y >= 0 && x < 320 && y < 240 {
                let ghost before = bytes@;
                let index = (y as u32 * 320 + x as u32) as usize;
                bytes[index] = value;
                assert forall|px: int, py: int| in_image(px, py) implies #[trigger] pixel_at(
                    bytes@,
                    px,
                    py,
                ) == if px == x && py == y {
                    value
                } else {
                    pixel_at(before, px, py)
                } by {
                    if px != x || py != y {
                        assert(py * 320 + px != y * 320 + x);
                    }
                }
            }
            x = x + 1;
        }
        y = y + 1;
    }
}

/// The remainder of Rust's `%` on signed integers: it has the sign of `a`.
pub open spec fn signed_rem(a: int, b: int) -> int {
    if a >= 0 {
        a % b
    } else {
        -((-a) % b)
    }
}

/// Column of the target's left edge in frame `frame_id` (the id is taken as
/// an `i32`, wrapping).
pub open spec fn target_x(frame_id: u64) -> int {
    24 + signed_rem((frame_id as i32) * 5, 224)
}

/// Row of the target's top edge in frame `frame_id` (the id is taken as an
/// `i32`, wrapping).
pub open spec fn target_y(frame_id: u64) -> int {
    28 + signed_rem((frame_id as i32) * 3, 148)
}

/// The simulated image: an 8 x 6 checkerboard of 6-pixel cells (232 on even
/// cells, 28 on odd ones) on a background of 12, its corner moving 5 columns
/// and 3 rows per frame.
pub open spec fn sim_pixel(frame_id: u64, x: int, y: int) -> u8 {
    let x0 = target_x(frame_id);
    let y0 = target_y(frame_id);
    if x0 <= x < x0 + 48 && y0 <= y < y0 + 36 {
        if ((x - x0) / 6 + (y - y0) / 6) % 2 == 0 {
            232
        } else {
            28
        }
    } else {
        12
    }
}

/// Cells (`row`, `col`) painted before cell (`r`, `c`) in row-major order.
pub open spec fn cell_done(r: int, c: int, row: int, col: int) -> bool {
    r < row || (r == row && c < col)
}

/// The plane after painting the cells before (`row`, `col`).
pub open spec fn painted(frame_id: u64, x: int, y: int, row: int, col: int) -> u8 {
    let x0 = target_x(frame_id);
    let y0 = target_y(frame_id);
    if x0 <= x < x0 + 48 && y0 <= y < y0 + 36 && cell_done((y - y0) / 6, (x - x0) / 6, row, col) {
        sim_pixel(frame_id, x, y)
    } else {
        12
    }
}

/// The simulated camera's frame `frame_id`: a Gray8 frame of the simulator's
/// size, without row padding, showing the checkerboard target.
pub fn sim_frame(frame_id: u64) -> (frame: Frame)
    requires
        i32::MIN <= (frame_id as i32) * 5 <= i32::MAX,
    ensures
        frame.meta.frame_id == frame_id,
        frame.meta.width == SIM_WIDTH,
        frame.meta.height == SIM_HEIGHT,
        frame.meta.stride == SIM_WIDTH,
        frame.meta.pixel_format == PixelFormat::Gray8,
        bytes_contents(frame.bytes).len() == 320 * 240,
        forall|x: int, y: int|
            in_image(x, y) ==> #[trigger] pixel_at(bytes_contents(frame.bytes), x, y) == sim_pixel(
                frame_id,
                x,
                y,
            ),
        is_clock_stamp(frame.meta.timestamp_ms),
{
    let mut bytes: Vec<u8> = vec![12u8; 76800];
    let cell: i32 = 6;
    let cols: i32 = 8;
    let rows: i32 = 6;
    let target_w = cols * cell;
    let target_h = rows * cell;
    let id = frame_id as i32;
    let x0 = 24i32 + ((id * 5) % (320 - target_w - 48));
    let y0 = 28i32 + ((id * 3) % (240 - target_h - 56));
    assert(x0 == target_x(frame_id) && y0 == target_y(frame_id));
    let mut row: i32 = 0;
    while row < rows
        invariant
            0 <= row <= rows,
            rows == 6,
            cols == 8,
            cell == 6,
            x0 == target_x(frame_id),
            y0 == target_y(frame_id),
            -200 < x0 < 248,
            -120 < y0 < 176,
            bytes@.len() == 320 * 240,
            forall|x: int, y: int|
                in_image(x, y) ==> #[trigger] pixel_at(bytes@, x, y) == painted(
                    frame_id,
                    x,
                    y,
                    row as int,
                    0,
                ),
        decreases rows - row,
    {
        let mut col: i32 = 0;
        while col < cols
            invariant
                0 <= row < rows,
                0 <= col <= cols,
                rows == 6,
                cols == 8,
                cell == 6,
                x0 == target_x(frame_id),
                y0 == target_y(frame_id),
                -200 < x0 < 248,
                -120 < y0 < 176,
                bytes@.len() == 320 * 240,
                forall|x: int, y: int|
                    in_image(x, y) ==> #[trigger] pixel_at(bytes@, x, y) == painted(
                        frame_id,
                        x,
                        y,
                        row as int,
                        col as int,
                    ),
            decreases cols - col,
        {
            let value: u8 = if (row + col) % 2 == 0 {
                232
            } else {
                28
            };
            let ghost before = bytes@;
            fill_rect(bytes.as_mut_slice(), x0 + col * cell, y0 + row * cell, cell, value);
            assert forall|x: int, y: int| in_image(x, y) implies #[trigger] pixel_at(bytes@, x, y)
                == painted(frame_id, x, y, row as int, col + 1) by {
                let sx = x0 + col * cell;
                let sy = y0 + row * cell;
                if in_square(x, y, sx as int, sy as int, 6) {
                    assert((y - y0) / 6 == row && (x - x0) / 6 == col);
                } else if x0 <= x < x0 + 48 && y0 <= y < y0 + 36 {
                    assert((y - y0) / 6 != row || (x - x0) / 6 != col);
                }
            }
            col = col + 1;
        }
        assert forall|x: int, y: int| in_image(x, y) implies #[trigger] pixel_at(bytes@, x, y)
            == painted(frame_id, x, y, row + 1, 0) by {
            if x0 <= x < x0 + 48 && y0 <= y < y0 + 36 {
                assert(0 <= (x - x0) / 6 < 8);
            }
        }
        row = row + 1;
    }
    assert forall|x: int, y: int| in_image(x, y) implies #[trigger] pixel_at(bytes@, x, y)
        == sim_pixel(frame_id, x, y) by {
        if x0 <= x < x0 + 48 && y0 <= y < y0 + 36 {
            assert(0 <= (y - y0) / 6 < 6);
        }
    }
    Frame {
        meta: FrameMeta {
            frame_id,
            timestamp_ms: unix_millis(now()),
            width: SIM_WIDTH,
            height: SIM_HEIGHT,
            stride: SIM_WIDTH,
            pixel_format: PixelFormat::Gray8,
        },
        bytes: bytes_from_vec(bytes),
    }
}

/// The target sweeps the image: for a frame id `n` with `5 n` in `i32`
/// range, the target's corner is at column `24 + (5 n mod 224)` and row
/// `28 + (3 n mod 148)`, so it moves 5 columns and 3 rows per frame until it
/// wraps; the whole 48 x 36 target lies inside the image; its first cell is
/// bright and the cell to its right dark.
pub proof fn lemma_target_sweeps_the_image(n: u64)
    requires
        n * 5 <= i32::MAX,
    ensures
        target_x(n) == 24 + (n * 5) % 224,
        target_y(n) == 28 + (n * 3) % 148,
        n * 5 < 224 ==> target_x(n) == 24 + 5 * n,
        n * 3 < 148 ==> target_y(n) == 28 + 3 * n,
        24 <= target_x(n) && target_x(n) + 48 <= 320,
        28 <= target_y(n) && target_y(n) + 36 <= 240,
        sim_pixel(n, target_x(n), target_y(n)) == 232,
        sim_pixel(n, target_x(n) + 6, target_y(n)) == 28,
        sim_pixel(n, target_x(n) - 1, target_y(n)) == 12,
{
    assert((n as i32) as int == n as int) by (bit_vector)
        requires
            n * 5 <= 0x7fff_ffff,
    ;
}

} // verus!
