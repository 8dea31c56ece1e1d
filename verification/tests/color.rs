//! Color transform and row-stride checks on concrete values.

use bmp2yuv::convert::row_stride;
use bmp2yuv::yuv::rgb_to_yuv;

#[test]
fn white_maps_to_peak_luma_centered_chroma() {
    // Within truncation tolerance of the exact (255, 127.5, 127.5).
    assert_eq!(rgb_to_yuv(255, 255, 255), (255, 127, 127));
}

#[test]
fn black_maps_to_zero_luma_centered_chroma() {
    assert_eq!(rgb_to_yuv(0, 0, 0), (0, 127, 127));
}

#[test]
fn pure_red_saturates_v() {
    // Exact values are Y = 76.245, U = 89.98, V = 284.3 clamped to 255.
    assert_eq!(rgb_to_yuv(255, 0, 0), (76, 89, 255));
}

#[test]
fn pure_green_clamps_v_to_zero() {
    assert_eq!(rgb_to_yuv(0, 255, 0), (149, 53, 0));
}

#[test]
fn pure_blue_peaks_u() {
    assert_eq!(rgb_to_yuv(0, 0, 255), (29, 238, 101));
}

#[test]
fn mid_gray_keeps_luma_and_centers_chroma() {
    assert_eq!(rgb_to_yuv(128, 128, 128), (128, 127, 127));
}

#[test]
fn stride_width_1_is_4() {
    assert_eq!(row_stride(1, 24), 4);
}

#[test]
fn stride_width_2_rounds_6_up_to_8() {
    assert_eq!(row_stride(2, 24), 8);
}

#[test]
fn stride_width_3_rounds_9_up_to_12() {
    assert_eq!(row_stride(3, 24), 12);
}

#[test]
fn stride_width_4_is_already_aligned_at_12() {
    // 4 pixels occupy 12 bytes, a whole number of 32-bit words, so no
    // padding is added.
    assert_eq!(row_stride(4, 24), 12);
}
