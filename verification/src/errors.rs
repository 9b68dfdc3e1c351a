//! Error kinds surfaced by the image-processing core. Every transform is a
//! pure function that reports failure through these values; each carries the
//! data a caller needs to build a diagnostic (coordinates, bounds, format
//! names). Rendering them as text is left to the caller.

use vstd::prelude::*;

verus! {

/// The coordinates and bounds behind an out-of-bounds failure: the attempted
/// region (for a single coordinate, both corners name the same point) and the
/// grid's actual size.
#[derive(Debug, Clone)]
pub struct CoordReport {
    /// x of the first attempted point.
    pub x: u64,
    /// y of the first attempted point.
    pub y: u64,
    /// x of the second attempted point.
    pub x2: u64,
    /// y of the second attempted point.
    pub y2: u64,
    /// The grid's actual width.
    pub width: u32,
    /// The grid's actual height.
    pub height: u32,
}

/// The source and target format names behind a conversion that is undefined
/// for its source format.
#[derive(Debug, Clone)]
pub struct ColorReport {
    /// Name of the format the value holds.
    pub source: String,
    /// Name of the format that was asked for.
    pub target: String,
}

/// The kinds of failure the core can report.
#[derive(Debug, Clone)]
pub enum VisionXErrorKind {
    /// A coordinate or crop rectangle lies outside the grid's bounds.
    IndexOutofBound(CoordReport),
    /// An image's frame size is invalid for the requested operation.
    InvalidSize(String),
    /// The requested conversion is undefined for the source format.
    InvalidColorType(ColorReport),
    /// The color depth of an image is invalid for an operation at the decode
    /// boundary.
    InvalidImageDepthSize(String),
    /// An output buffer could not accommodate the flattened samples at the
    /// encode boundary.
    InsufficientBufferSize(String),
}

/// Result alias used throughout the core.
pub type VisionXResult<T> = Result<T, VisionXErrorKind>;

/// The failure classes of the file boundary: locating a file and
/// recognising its format.
#[derive(Debug, Clone, Copy, PartialEq, Eq, Structural)]
pub enum ErrorCode {
    /// The file's extension names no recognised image format.
    InvalidExtension,
    /// The file is not there.
    FileNotFound,
    /// The path points nowhere.
    PathNotFound,
    /// The operating system reported a failure.
    IOError,
    /// A failure inside a collaborator that should not surface.
    InternalError,
    /// The file's color layout names no recognised combination.
    InvalidColorExtension,
}

/// A failure of the file boundary: its class together with a diagnostic
/// message.
#[derive(Debug, Clone)]
pub struct Error {
    /// The failure's class.
    pub code: ErrorCode,
    /// A diagnostic message for the caller.
    pub message: String,
}

impl Error {
    /// Wraps a failure as the `Err` case of any result.
    pub fn custom_error<T>(err: Error) -> (r: Result<T, Error>)
        ensures
            r is Err && r->Err_0 == err,
    {
        Err(err)
    }
}

} // verus!
