//! The error kinds a conversion can report.

use vstd::prelude::*;

verus! {

/// Why a bitmap could not be converted.
#[derive(Debug, Clone, Copy, PartialEq, Eq, Structural)]
pub enum BmpError {
    /// Fewer than the 54 header bytes were available.
    TruncatedHeader,
    /// Not a `BM` file, not 24 bits per pixel, compressed, or stored
    /// top-down (negative height), none of which this decoder supports.
    UnsupportedFormat,
    /// Width was zero or negative, or height was zero.
    InvalidGeometry,
    /// The pixel array extends past the end of the file.
    TruncatedPixelData,
    /// The storage layer failed; reported by callers that perform I/O,
    /// never by the pure conversion itself.
    IOFailure,
}

} // verus!
