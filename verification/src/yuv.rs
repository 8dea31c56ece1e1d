//! The BT.601 full-range RGB to YUV color transform.
//!
//! The transform is carried out in exact fixed-point integer arithmetic.
//! With channels kept in 0..=255 (instead of normalizing to the unit
//! interval and scaling back), the matrix rows become, scaled by 100000:
//!   Y: ( 29900*R + 58700*G + 11400*B) / 100000
//!   U: (-14713*R - 28886*G + 43600*B) / 100000 + 127.5
//!   V: ( 61500*R - 51499*G - 10001*B) / 100000 + 127.5
//! The chroma bias of half the range, 127.5, folds into the numerator as
//! 12750000. Each quotient is clamped to 0..=255 and truncated, so every
//! sample is the floor of the clamped exact value.

use vstd::prelude::*;

verus! {

/// `n` forced into the sample range 0..=255.
pub open spec fn clamp_255(n: int) -> int {
    if n < 0 {
        0
    } else if n > 255 {
        255
    } else {
        n
    }
}

/// The luma sample for a pixel with channels `r`, `g`, `b`.
pub open spec fn y_value(r: u8, g: u8, b: u8) -> int {
    clamp_255((299 * r + 587 * g + 114 * b) / 1000)
}

/// The U chroma sample (blue-difference, biased by half the range).
pub open spec fn u_value(r: u8, g: u8, b: u8) -> int {
    clamp_255((43600 * b + 12750000 - 14713 * r - 28886 * g) / 100000)
}

/// The V chroma sample (red-difference, biased by half the range).
pub open spec fn v_value(r: u8, g: u8, b: u8) -> int {
    clamp_255((61500 * r + 12750000 - 51499 * g - 10001 * b) / 100000)
}

/// Convert one RGB pixel to its (Y, U, V) samples.
pub fn rgb_to_yuv(r: u8, g: u8, b: u8) -> (yuv: (u8, u8, u8))
    ensures
        yuv.0 == y_value(r, g, b),
        yuv.1 == u_value(r, g, b),
        yuv.2 == v_value(r, g, b),
{
    let y_num: u32 = 299 * (r as u32) + 587 * (g as u32) + 114 * (b as u32);
    let y_q: u32 = y_num / 1000;
    let y: u8 = if y_q > 255 {
        255
    } else {
        y_q as u8
    };

    // The U numerator is positive for every input: the positive part is at
    // least 12750000 while the negative part is at most 43599 * 255.
    let u_pos: u32 = 43600 * (b as u32) + 12750000;
    let u_neg: u32 = 14713 * (r as u32) + 28886 * (g as u32);
    let u_q: u32 = (u_pos - u_neg) / 100000;
    let u: u8 = if u_q > 255 {
        255
    } else {
        u_q as u8
    };

    // The V numerator can be negative (it clamps to 0) or exceed the range
    // (it clamps to 255), so the sign is decided before subtracting.
    let v_pos: u32 = 61500 * (r as u32) + 12750000;
    let v_neg: u32 = 51499 * (g as u32) + 10001 * (b as u32);
    let v: u8 = if v_pos <= v_neg {
        0
    } else {
        let v_q: u32 = (v_pos - v_neg) / 100000;
        if v_q > 255 {
            255
        } else {
            v_q as u8
        }
    };

    (y, u, v)
}

} // verus!
