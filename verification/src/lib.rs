//! An image-processing core: a typed in-memory pixel grid together with
//! colorspace conversions (grayscale, RGB, HSV), nearest-neighbor resizing
//! and rectangular cropping. Decoding and encoding of image files is left
//! to collaborators outside this crate; the core works on decoded pixel
//! buffers alone.

pub mod errors;
pub mod grid;
pub mod color;
pub mod extensions;
pub mod frame;
pub mod image;
pub mod utils;

use vstd::prelude::*;

verus! {

/// Rounds `a / b` to the nearest integer, halves rounding up.
pub open spec fn div_round(a: int, b: int) -> int
    recommends
        b > 0,
{
    (2 * a + b) / (2 * b)
}

/// Rounded division on machine integers: the nearest integer to `a / b`,
/// halves rounding up.
pub fn div_round_u64(a: u64, b: u64) -> (r: u64)
    requires
        b > 0,
        2 * a + b <= u64::MAX,
        2 * b <= u64::MAX,
    ensures
        r == div_round(a as int, b as int),
{
    (2 * a + b) / (2 * b)
}

} // verus!
