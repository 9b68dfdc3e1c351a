//! File-format markers for the decode and encode collaborators. The core
//! itself never touches a file: these types only name the formats that the
//! boundary recognises.

use vstd::prelude::*;

verus! {

/// A recognised image file format.
#[derive(Debug, Clone, PartialEq)]
pub enum ImageExtension {
    /// The PNG file format.
    PNG,
    /// The JPEG file format.
    JPEG,
}

/// Marker for the PNG file format.
#[derive(Debug, Clone)]
pub struct PNGImage;

/// Marker for the JPEG file format.
#[derive(Debug, Clone)]
pub struct JPEGImage;

} // verus!
