//! The centred square crop applied to every published frame.

use vstd::prelude::*;

verus! {

/// The side of the largest square that fits a `width` x `height` frame.
pub open spec fn square_side(width: int, height: int) -> int {
    if width <= height {
        width
    } else {
        height
    }
}

/// The centred square crop of a `width` x `height` frame, as
/// `(left, top, crop_width, crop_height)`.
///
/// The longer dimension loses `|width - height|` pixels, half of them
/// (rounded down) before the crop; the shorter dimension is kept whole.
pub open spec fn crop_rect(width: int, height: int) -> (int, int, int, int) {
    if width > height {
        ((width - height) / 2, 0, height, height)
    } else if height > width {
        (0, (height - width) / 2, width, width)
    } else {
        (0, 0, width, height)
    }
}

/// Computes the centred square crop of an `x` x `y` frame, as
/// `(left, top, width, height)`.
pub fn get_crop_pixels(x: u32, y: u32) -> (r: (u32, u32, u32, u32))
    ensures
        (r.0 as int, r.1 as int, r.2 as int, r.3 as int) == crop_rect(x as int, y as int),
{
    if x > y {
        let diff: u32 = x - y;
        (diff / 2, 0, x - diff, y)
    } else if x < y {
        let diff: u32 = y - x;
        (0, diff / 2, x, y - diff)
    } else {
        (0, 0, x, y)
    }
}

/// The crop is a square whose side is the shorter dimension, it lies inside
/// the frame, and the margins cut off on either side of it differ by at most
/// one pixel.
pub proof fn lemma_crop_is_centered_square(width: int, height: int)
    requires
        0 <= width,
        0 <= height,
    ensures
        ({
            let (left, top, w, h) = crop_rect(width, height);
            &&& w == square_side(width, height)
            &&& h == square_side(width, height)
            &&& 0 <= left && left + w <= width
            &&& 0 <= top && top + h <= height
            &&& 0 <= (width - (left + w)) - left <= 1
            &&& 0 <= (height - (top + h)) - top <= 1
            &&& left == 0 || top == 0
        }),
{
}

} // verus!
