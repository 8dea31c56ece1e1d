//! A verified decoder for uncompressed 24-bit BMP images that converts
//! their pixels to a raw packed YUV 4:4:4 byte stream.
//!
//! The library is pure: it maps input bytes to output bytes (or a typed
//! error) and performs no I/O itself.

pub mod error;
pub mod header;
pub mod yuv;
pub mod convert;
