//! A verified core for a disk-resident, two-tier thumbnail cache.
//!
//! Cached previews are PNG files addressed by the MD5 digest of the source
//! file's URI, with the source's modification time embedded in the PNG's
//! textual metadata so that stale entries can be detected and regenerated.
//! All decisions (addressing, staleness, scaling geometry, metadata embedding)
//! are verified; pixel codecs and the surrounding file I/O are supplied by the
//! caller or by thin trusted wrappers over the `image`, `md-5` and `url`
//! crates.
use vstd::prelude::*;

pub mod address;
pub mod crc;
pub mod geometry;
pub mod numeric;
pub mod pipeline;
pub mod pixmap;
pub mod png_text;
pub mod shell_types;
pub mod staleness;
pub mod video;

verus! {

/// Why a thumbnail request failed. Mirrors the error taxonomy of the cache:
/// configuration (no usable cache location), access, decoding and encoding.
/// I/O errors on the cache files themselves arise outside this library and
/// are reported by the caller.
#[derive(Clone, Copy, Debug, PartialEq, Eq, Structural)]
pub enum ThumbError {
    /// Neither the cache-home nor the home directory is known.
    CacheDirUnavailable,
    /// The source path has no file-URI form (it is not absolute).
    InvalidSourcePath,
    /// The source file is not readable by the caller.
    SourceNotReadable,
    /// The source image or video frame could not be decoded.
    DecodeFailed,
    /// A produced image could not be encoded as PNG.
    EncodeFailed,
}

} // verus!
