//! The pixel converter: walks a decoded bitmap's pixel array and emits
//! the packed YUV 4:4:4 byte stream, plus the whole-file conversion that
//! ties header decoding, validation and pixel conversion together.
//!
//! Stored rows are padded to a 4-byte boundary and ordered bottom-up.
//! Within a row, pixels are the standard 24-bit packing: consecutive
//! 3-byte BGR triples with no per-pixel alignment, so only the row end
//! carries padding. Output samples run top-to-bottom, left-to-right.

use vstd::prelude::*;
use vstd::slice::slice_subrange;
use vstd::arithmetic::div_mod::{
    lemma_div_is_ordered,
    lemma_fundamental_div_mod,
    lemma_fundamental_div_mod_converse,
};
use vstd::arithmetic::mul::lemma_mul_inequality;
use crate::error::BmpError;
use crate::header::{read_bmp_header, spec_file_header, spec_info_header};
use crate::yuv::{rgb_to_yuv, u_value, v_value, y_value};

verus! {

/// Bytes occupied by one stored image row: the row's bits, rounded up to
/// a whole number of 32-bit words.
pub open spec fn spec_row_stride(width: int, bit_count: int) -> int {
    ((width * bit_count + 31) / 32) * 4
}

/// Compute the stored row stride in bytes for a row of `width` pixels at
/// `bit_count` bits per pixel.
pub fn row_stride(width: u32, bit_count: u16) -> (r: u64)
    ensures
        r == spec_row_stride(width as int, bit_count as int),
{
    proof {
        assert((width as int) * (bit_count as int) <= 0xFFFF_FFFF * 0xFFFF) by (nonlinear_arith)
            requires
                0 <= width as int <= 0xFFFF_FFFF,
                0 <= bit_count as int <= 0xFFFF,
        ;
        assert(0 <= (width as int) * (bit_count as int)) by (nonlinear_arith)
            requires
                0 <= width as int,
                0 <= bit_count as int,
        ;
        lemma_div_is_ordered(
            (width as int) * (bit_count as int) + 31,
            0xFFFF_FFFFint * 0xFFFF + 31,
            32,
        );
    }
    let bits: u64 = (width as u64) * (bit_count as u64);
    ((bits + 31) / 32) * 4
}

/// A row stride is at least the 3 bytes each of the row's pixels occupies.
proof fn lemma_stride_lower_bound(w: int)
    requires
        0 <= w,
    ensures
        spec_row_stride(w, 24) >= 3 * w,
{
    let n: int = w * 24 + 31;
    lemma_fundamental_div_mod(n, 32);
    assert(32 * (n / 32) >= 24 * w);
}

/// For widths that fit an `i32`, the 24-bit row stride stays below 2^33.
proof fn lemma_stride_upper_bound(w: int)
    requires
        0 <= w <= 0x7FFF_FFFF,
    ensures
        0 <= spec_row_stride(w, 24) <= 6442450944,
{
    lemma_div_is_ordered(w * 24 + 31, 0x7FFF_FFFFint * 24 + 31, 32);
    lemma_fundamental_div_mod(w * 24 + 31, 32);
    assert(32 * ((w * 24 + 31) / 32) >= 24 * w);
}

/// Byte offset, within the pixel buffer, of the stored BGR triple for the
/// display pixel at row `yy`, column `xx`: rows are stored bottom-up, so
/// display row `yy` lives in stored row `h - 1 - yy`.
pub open spec fn src_pixel_base(w: int, h: int, yy: int, xx: int) -> int {
    (h - 1 - yy) * spec_row_stride(w, 24) + 3 * xx
}

/// Output byte `i` of the converted stream: byte `i % 3` of the (Y, U, V)
/// triple of display pixel `i / 3`, pixels numbered row-major
/// top-to-bottom, left-to-right.
pub open spec fn yuv_byte(p: Seq<u8>, w: int, h: int, i: int) -> u8 {
    let pix = i / 3;
    let chan = i % 3;
    let yy = pix / w;
    let xx = pix % w;
    let base = src_pixel_base(w, h, yy, xx);
    let r = p[base + 2];
    let g = p[base + 1];
    let b = p[base];
    if chan == 0 {
        y_value(r, g, b) as u8
    } else if chan == 1 {
        u_value(r, g, b) as u8
    } else {
        v_value(r, g, b) as u8
    }
}

/// The full converted stream for a pixel buffer `p` of `h` stored rows of
/// `w` pixels: 3 output bytes per pixel.
pub open spec fn spec_convert_pixels(p: Seq<u8>, w: int, h: int) -> Seq<u8> {
    Seq::new((3 * (w * h)) as nat, |i: int| yuv_byte(p, w, h, i))
}

/// Convert a bottom-up pixel buffer to the packed YUV stream.
#[verifier::loop_isolation(false)]
pub fn convert_pixels(pixels: &[u8], width: u32, height: u32) -> (out: Vec<u8>)
    requires
        0 < width,
        0 < height,
        spec_row_stride(width as int, 24) * (height as int) <= pixels@.len(),
    ensures
        out@ == spec_convert_pixels(pixels@, width as int, height as int),
{
    let buf_len: usize = pixels.len();
    proof {
        lemma_stride_lower_bound(width as int);
        lemma_mul_inequality(1, height as int, spec_row_stride(width as int, 24));
        assert((height as int) * spec_row_stride(width as int, 24) == spec_row_stride(
            width as int,
            24,
        ) * (height as int)) by (nonlinear_arith);
        assert(spec_row_stride(width as int, 24) <= buf_len);
    }
    let stride64: u64 = row_stride(width, 24);
    let su: usize = stride64 as usize;
    let wu: usize = width as usize;
    let hu: usize = height as usize;
    let mut out: Vec<u8> = Vec::new();
    let mut yy: usize = 0;
    while yy < hu
        invariant
            yy <= hu,
            out@.len() == 3 * ((width as int) * (yy as int)),
            forall|i: int|
                0 <= i < out@.len() ==> out@[i] == yuv_byte(
                    pixels@,
                    width as int,
                    height as int,
                    i,
                ),
        decreases hu - yy,
    {
        proof {
            lemma_mul_inequality((hu - 1 - yy) as int, (hu - 1) as int, su as int);
            assert(((hu - 1) as int) * (su as int) + su as int == (hu as int) * (su as int))
                by (nonlinear_arith);
            assert((hu as int) * (su as int) == spec_row_stride(width as int, 24) * (
            height as int)) by (nonlinear_arith)
                requires
                    hu as int == height as int,
                    su as int == spec_row_stride(width as int, 24),
            ;
            assert(((hu - 1 - yy) as int) * (su as int) + (su as int) <= buf_len);
        }
        let row_base: usize = (hu - 1 - yy) * su;
        let mut xx: usize = 0;
        while xx < wu
            invariant
                xx <= wu,
                out@.len() == 3 * ((width as int) * (yy as int) + xx as int),
                forall|i: int|
                    0 <= i < out@.len() ==> out@[i] == yuv_byte(
                        pixels@,
                        width as int,
                        height as int,
                        i,
                    ),
            decreases wu - xx,
        {
            proof {
                assert(3 * (xx as int) + 3 <= 3 * (width as int));
                assert(row_base as int + 3 * (xx as int) + 2 < buf_len);
            }
            let idx: usize = row_base + 3 * xx;
            let bch = pixels[idx];
            let gch = pixels[idx + 1];
            let rch = pixels[idx + 2];
            let (ys, us, vs) = rgb_to_yuv(rch, gch, bch);
            out.push(ys);
            out.push(us);
            out.push(vs);
            proof {
                let wi: int = width as int;
                let hi: int = height as int;
                let pix: int = wi * (yy as int) + (xx as int);
                let k: int = 3 * pix;
                lemma_fundamental_div_mod_converse(k, 3, pix, 0);
                lemma_fundamental_div_mod_converse(k + 1, 3, pix, 1);
                lemma_fundamental_div_mod_converse(k + 2, 3, pix, 2);
                assert(pix == (yy as int) * wi + (xx as int)) by (nonlinear_arith)
                    requires
                        pix == wi * (yy as int) + (xx as int),
                ;
                lemma_fundamental_div_mod_converse(pix, wi, yy as int, xx as int);
                assert(out@[k] == yuv_byte(pixels@, wi, hi, k));
                assert(out@[k + 1] == yuv_byte(pixels@, wi, hi, k + 1));
                assert(out@[k + 2] == yuv_byte(pixels@, wi, hi, k + 2));
            }
            xx += 1;
        }
        proof {
            assert(3 * ((width as int) * (yy as int) + width as int) == 3 * ((width as int) * ((
            yy + 1) as int))) by (nonlinear_arith);
        }
        yy += 1;
    }
    proof {
        assert(out@ =~= spec_convert_pixels(pixels@, width as int, height as int));
    }
    out
}

/// The outcome of converting a whole bitmap file held in `input`.
///
/// Validation order: the 54 header bytes must be present; the file must
/// be a bottom-up, uncompressed, 24-bit `BM` bitmap (a negative height
/// would mean unsupported top-down storage); width must be positive and
/// height nonzero; and the pixel array must lie within the file. The
/// pixel array starts at the header's data offset and is converted with
/// [`spec_convert_pixels`].
pub open spec fn spec_convert(input: Seq<u8>) -> Result<Seq<u8>, BmpError> {
    if input.len() < 54 {
        Err(BmpError::TruncatedHeader)
    } else {
        let fh = spec_file_header(input);
        let ih = spec_info_header(input);
        if fh.file_type != 0x4D42 || ih.bit_count != 24 || ih.compression != 0 || ih.height < 0 {
            Err(BmpError::UnsupportedFormat)
        } else if ih.width <= 0 || ih.height == 0 {
            Err(BmpError::InvalidGeometry)
        } else if fh.offset_data + spec_row_stride(ih.width as int, 24) * ih.height > input.len() {
            Err(BmpError::TruncatedPixelData)
        } else {
            Ok(
                spec_convert_pixels(
                    input.subrange(fh.offset_data as int, input.len() as int),
                    ih.width as int,
                    ih.height as int,
                ),
            )
        }
    }
}

/// `r` is the outcome that [`spec_convert`] assigns to `input`.
pub open spec fn convert_matches(input: Seq<u8>, r: Result<Vec<u8>, BmpError>) -> bool {
    match r {
        Ok(out) => spec_convert(input) == Ok::<Seq<u8>, BmpError>(out@),
        Err(e) => spec_convert(input) == Err::<Seq<u8>, BmpError>(e),
    }
}

/// Convert one complete bitmap file to its packed YUV byte stream.
///
/// Pure: the result is determined by `input` alone, as pinned down by
/// [`spec_convert`].
pub fn convert_bmp_to_yuv(input: &[u8]) -> (r: Result<Vec<u8>, BmpError>)
    ensures
        convert_matches(input@, r),
{
    let headers = match read_bmp_header(input) {
        Ok(h) => h,
        Err(e) => {
            return Err(e);
        },
    };
    let (file_header, info_header) = headers;
    if file_header.file_type != 0x4D42 || info_header.bit_count != 24 || info_header.compression
        != 0 || info_header.height < 0 {
        return Err(BmpError::UnsupportedFormat);
    }
    if info_header.width <= 0 || info_header.height == 0 {
        return Err(BmpError::InvalidGeometry);
    }
    let width: u32 = info_header.width as u32;
    let height: u32 = info_header.height as u32;
    proof {
        lemma_stride_upper_bound(width as int);
        assert(spec_row_stride(width as int, 24) * (height as int) <= 6442450944 * 0x7FFF_FFFF)
            by (nonlinear_arith)
            requires
                0 <= spec_row_stride(width as int, 24) <= 6442450944,
                0 <= height as int <= 0x7FFF_FFFF,
        ;
    }
    let stride: u64 = row_stride(width, 24);
    let needed: u64 = stride * (height as u64);
    let offset: u32 = file_header.offset_data;
    if (offset as u64) + needed > (input.len() as u64) {
        return Err(BmpError::TruncatedPixelData);
    }
    let pixels: &[u8] = slice_subrange(input, offset as usize, input.len());
    let out = convert_pixels(pixels, width, height);
    Ok(out)
}

/// Every successful conversion yields exactly 3 output bytes per pixel:
/// width times height times 3, by the decoded geometry.
pub proof fn lemma_output_length(input: Seq<u8>)
    requires
        spec_convert(input) is Ok,
    ensures
        spec_convert(input)->Ok_0.len() == 3 * (spec_info_header(input).width as int) * (
        spec_info_header(input).height as int),
{
    let w = spec_info_header(input).width as int;
    let h = spec_info_header(input).height as int;
    assert(0 <= 3 * (w * h) && 3 * (w * h) == 3 * w * h) by (nonlinear_arith)
        requires
            0 < w,
            0 < h,
    ;
}

/// The first three output bytes are the (Y, U, V) samples of the top-left
/// display pixel, even though bottom-up storage places that pixel's BGR
/// triple at the start of the last stored row of the buffer.
pub proof fn lemma_first_sample_is_top_left(p: Seq<u8>, w: int, h: int)
    requires
        0 < w,
        0 < h,
    ensures
        ({
            let out = spec_convert_pixels(p, w, h);
            let base = (h - 1) * spec_row_stride(w, 24);
            &&& out.len() >= 3
            &&& out[0] == y_value(p[base + 2], p[base + 1], p[base])
            &&& out[1] == u_value(p[base + 2], p[base + 1], p[base])
            &&& out[2] == v_value(p[base + 2], p[base + 1], p[base])
        }),
{
    assert(w * h >= 1) by (nonlinear_arith)
        requires
            0 < w,
            0 < h,
    ;
    lemma_fundamental_div_mod_converse(0, 3, 0, 0);
    lemma_fundamental_div_mod_converse(1, 3, 0, 1);
    lemma_fundamental_div_mod_converse(2, 3, 0, 2);
    lemma_fundamental_div_mod_converse(0, w, 0, 0);
}

/// Conversion is deterministic: two outcomes of converting the same
/// input bytes are identical, so converting a file twice produces
/// byte-identical output (or the same error).
pub proof fn lemma_convert_deterministic(
    input: Seq<u8>,
    r1: Result<Vec<u8>, BmpError>,
    r2: Result<Vec<u8>, BmpError>,
)
    requires
        convert_matches(input, r1),
        convert_matches(input, r2),
    ensures
        r1 is Ok <==> r2 is Ok,
        r1 is Ok ==> r1->Ok_0@ == r2->Ok_0@,
        r1 is Err ==> r1->Err_0 == r2->Err_0,
{
}

} // verus!
