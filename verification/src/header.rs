//! Decoding of the fixed 54-byte BMP header block: the 14-byte file
//! header followed by the 40-byte info header, all fields little-endian
//! integers at fixed offsets.

use vstd::prelude::*;
use crate::error::BmpError;

verus! {

/// The 14-byte BMP file header.
#[derive(Debug, Clone, Copy, PartialEq, Eq, Structural)]
pub struct BMPFileHeader {
    /// File signature; `0x4D42` is ASCII "BM" read little-endian.
    pub file_type: u16,
    pub file_size: u32,
    pub reserved1: u16,
    pub reserved2: u16,
    /// Byte offset of the pixel array within the file.
    pub offset_data: u32,
}

/// The 40-byte BMP info header that follows the file header.
#[derive(Debug, Clone, Copy, PartialEq, Eq, Structural)]
pub struct BMPInfoHeader {
    pub size: u32,
    pub width: i32,
    /// Positive height means bottom-up row storage; negative means
    /// top-down, which this decoder rejects.
    pub height: i32,
    pub planes: u16,
    pub bit_count: u16,
    pub compression: u32,
    pub size_image: u32,
    pub x_pixels_per_meter: i32,
    pub y_pixels_per_meter: i32,
    pub colors_used: u32,
    pub colors_important: u32,
}

/// The unsigned 16-bit value stored little-endian at byte offset `i`.
pub open spec fn le_u16(s: Seq<u8>, i: int) -> u16 {
    (s[i] + 0x100 * s[i + 1]) as u16
}

/// The unsigned 32-bit value stored little-endian at byte offset `i`.
pub open spec fn le_u32(s: Seq<u8>, i: int) -> u32 {
    (s[i] + 0x100 * s[i + 1] + 0x1_0000 * s[i + 2] + 0x100_0000 * s[i + 3]) as u32
}

/// The signed 32-bit value stored little-endian at byte offset `i`,
/// in two's complement.
pub open spec fn le_i32(s: Seq<u8>, i: int) -> i32 {
    let n = le_u32(s, i) as int;
    if n < 0x8000_0000 {
        n as i32
    } else {
        (n - 0x1_0000_0000) as i32
    }
}

/// The file header encoded in the first 14 bytes of `s`.
pub open spec fn spec_file_header(s: Seq<u8>) -> BMPFileHeader {
    BMPFileHeader {
        file_type: le_u16(s, 0),
        file_size: le_u32(s, 2),
        reserved1: le_u16(s, 6),
        reserved2: le_u16(s, 8),
        offset_data: le_u32(s, 10),
    }
}

/// The info header encoded in bytes 14..54 of `s`.
pub open spec fn spec_info_header(s: Seq<u8>) -> BMPInfoHeader {
    BMPInfoHeader {
        size: le_u32(s, 14),
        width: le_i32(s, 18),
        height: le_i32(s, 22),
        planes: le_u16(s, 26),
        bit_count: le_u16(s, 28),
        compression: le_u32(s, 30),
        size_image: le_u32(s, 34),
        x_pixels_per_meter: le_i32(s, 38),
        y_pixels_per_meter: le_i32(s, 42),
        colors_used: le_u32(s, 46),
        colors_important: le_u32(s, 50),
    }
}

fn read_u16(data: &[u8], i: usize) -> (r: u16)
    requires
        i + 2 <= data@.len(),
    ensures
        r == le_u16(data@, i as int),
{
    (data[i] as u16) + 0x100 * (data[i + 1] as u16)
}

fn read_u32(data: &[u8], i: usize) -> (r: u32)
    requires
        i + 4 <= data@.len(),
    ensures
        r == le_u32(data@, i as int),
{
    (data[i] as u32) + 0x100 * (data[i + 1] as u32) + 0x1_0000 * (data[i + 2] as u32)
        + 0x100_0000 * (data[i + 3] as u32)
}

fn read_i32(data: &[u8], i: usize) -> (r: i32)
    requires
        i + 4 <= data@.len(),
    ensures
        r == le_i32(data@, i as int),
{
    let n = read_u32(data, i);
    if n < 0x8000_0000 {
        n as i32
    } else {
        ((n as i64) - 0x1_0000_0000i64) as i32
    }
}

/// Decode the file header and info header from the start of `data`.
///
/// Fails exactly when fewer than 54 bytes are available; it performs no
/// validation of the fields themselves, which is the caller's task.
pub fn read_bmp_header(data: &[u8]) -> (r: Result<(BMPFileHeader, BMPInfoHeader), BmpError>)
    ensures
        data@.len() < 54 ==> r == Err::<(BMPFileHeader, BMPInfoHeader), BmpError>(
            BmpError::TruncatedHeader,
        ),
        data@.len() >= 54 ==> r == Ok::<(BMPFileHeader, BMPInfoHeader), BmpError>(
            (spec_file_header(data@), spec_info_header(data@)),
        ),
{
    if data.len() < 54 {
        return Err(BmpError::TruncatedHeader);
    }
    let file_header = BMPFileHeader {
        file_type: read_u16(data, 0),
        file_size: read_u32(data, 2),
        reserved1: read_u16(data, 6),
        reserved2: read_u16(data, 8),
        offset_data: read_u32(data, 10),
    };
    let info_header = BMPInfoHeader {
        size: read_u32(data, 14),
        width: read_i32(data, 18),
        height: read_i32(data, 22),
        planes: read_u16(data, 26),
        bit_count: read_u16(data, 28),
        compression: read_u32(data, 30),
        size_image: read_u32(data, 34),
        x_pixels_per_meter: read_i32(data, 38),
        y_pixels_per_meter: read_i32(data, 42),
        colors_used: read_u32(data, 46),
        colors_important: read_u32(data, 50),
    };
    Ok((file_header, info_header))
}

} // verus!
