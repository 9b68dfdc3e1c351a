//! Colorspace conversion: pure, total, element-wise mappings between the
//! supported pixel formats.
//!
//! All arithmetic is exact integer arithmetic. A 16-bit sample `s` becomes
//! 8-bit as `round(s / 65535 * 255)` — one canonical formula, used uniformly.
//! Luma is `round(0.299 R + 0.587 G + 0.114 B)`, computed as a rounded
//! division by 1000 of the weighted integer sum.
//!
//! HSV pixels hold exact fixed-point components: hue in hundredths of a
//! degree (`0..36000`), saturation and value in ten-thousandths
//! (`0..=10000`). RGB to HSV follows the standard formula (hue from the
//! dominant channel's sextant, scaled to degrees; saturation `delta/cmax`;
//! value `cmax`), with the hue's sextant taken modulo a full turn so the
//! result always lies in `[0°, 360°)`. HSV to RGB follows the standard
//! six-sector table; a hue at or beyond a full turn — expressible only in
//! hand-built values — falls into a documented fallback bucket (every
//! component takes the sector table's zero entry), and saturation or value
//! beyond the fixed-point one is read as one.

use crate::div_round;
use crate::div_round_u64;
use crate::errors::{ColorReport, VisionXErrorKind, VisionXResult};
use crate::grid::{cell_mapped, map_pixels, GridView, Image, ImageData, ImageView};
use vstd::prelude::*;

verus! {

broadcast use vstd::array::group_array_axioms;

/// The luma of an RGB triple: `round((299 r + 587 g + 114 b) / 1000)`.
pub open spec fn luma(r: int, g: int, b: int) -> int {
    div_round(299 * r + 587 * g + 114 * b, 1000)
}

/// The canonical 16-to-8-bit downcast: `round(s / 65535 * 255)`.
pub open spec fn d8(s: int) -> int {
    div_round(255 * s, 65535)
}

/// The hue of an RGB triple in hundredths of a degree, in `[0, 36000)`:
/// `60°` times the dominant channel's sextant, the red sextant taken modulo
/// a full turn.
pub open spec fn hue_cd(r: int, g: int, b: int) -> int {
    let cmax = max3(r, g, b);
    let cmin = min3(r, g, b);
    let delta = cmax - cmin;
    if delta == 0 {
        0
    } else if cmax == r {
        div_round(6000 * (g + 6 * delta - b), delta) % 36000
    } else if cmax == g {
        div_round(6000 * (b + 2 * delta - r), delta) % 36000
    } else {
        div_round(6000 * (r + 4 * delta - g), delta) % 36000
    }
}

/// The saturation of an RGB triple in ten-thousandths: `round(delta / cmax
/// * 10000)`, `0` for black. The cap at one is a formality: `delta <= cmax`
/// keeps the quotient there already.
pub open spec fn sat_q(r: int, g: int, b: int) -> int {
    let cmax = max3(r, g, b);
    let delta = cmax - min3(r, g, b);
    if cmax == 0 {
        0
    } else {
        let s = div_round(10000 * delta, cmax);
        if s > 10000 {
            10000
        } else {
            s
        }
    }
}

/// The value of an RGB triple in ten-thousandths: `round(cmax / 255 *
/// 10000)`.
pub open spec fn val_q(r: int, g: int, b: int) -> int {
    div_round(10000 * max3(r, g, b), 255)
}

/// The larger of three values.
pub open spec fn max3(a: int, b: int, c: int) -> int {
    if a >= b && a >= c {
        a
    } else if b >= c {
        b
    } else {
        c
    }
}

/// The smaller of three values.
pub open spec fn min3(a: int, b: int, c: int) -> int {
    if a <= b && a <= c {
        a
    } else if b <= c {
        b
    } else {
        c
    }
}

/// A saturation or value component read back from storage: a component
/// beyond the fixed-point one is read as one.
pub open spec fn cap_q(v: int) -> int {
    if v > 10000 {
        10000
    } else {
        v
    }
}

/// The triangle-wave factor of the HSV-to-RGB formula, in `[0, 6000]`:
/// `6000 * (1 - |h' mod 2 - 1|)` for `h' = h / 60°`.
pub open spec fn tri_q(h: int) -> int {
    let u = h % 12000;
    if u >= 6000 {
        6000 - (u - 6000)
    } else {
        u
    }
}

/// The channel value shared by a sector's `chroma` entry: `round((chroma +
/// m) * 255) == round(v * 255)` in the fixed-point scale.
pub open spec fn hsv_full(v: int) -> int {
    div_round(255 * v, 10000)
}

/// The channel value of a sector's `x` entry: `round((x + m) * 255)` in the
/// fixed-point scale, with the triangle factor `t`.
pub open spec fn hsv_mid(s: int, v: int, t: int) -> int {
    div_round(255 * v * (s * t + (10000 - s) * 6000), 600000000000)
}

/// The channel value of a sector's zero entry: `round(m * 255)` in the
/// fixed-point scale.
pub open spec fn hsv_low(s: int, v: int) -> int {
    div_round(255 * v * (10000 - s), 100000000)
}

/// The RGB triple of a fixed-point HSV pixel, by the standard six-sector
/// table; hue at or beyond a full turn falls into the fallback bucket.
pub open spec fn rgb_of_hsv(p: Seq<u16>) -> Seq<u8> {
    let h = p[0] as int;
    let s = cap_q(p[1] as int);
    let v = cap_q(p[2] as int);
    let full = hsv_full(v) as u8;
    let mid = hsv_mid(s, v, tri_q(h)) as u8;
    let low = hsv_low(s, v) as u8;
    let k = h / 6000;
    if h >= 36000 {
        seq![low, low, low]
    } else if k == 0 {
        seq![full, mid, low]
    } else if k == 1 {
        seq![mid, full, low]
    } else if k == 2 {
        seq![low, full, mid]
    } else if k == 3 {
        seq![low, mid, full]
    } else if k == 4 {
        seq![mid, low, full]
    } else {
        seq![full, low, mid]
    }
}

/// The fixed-point HSV triple of an RGB pixel.
pub open spec fn hsv_of_rgb(p: Seq<u8>) -> Seq<u16> {
    seq![
        hue_cd(p[0] as int, p[1] as int, p[2] as int) as u16,
        sat_q(p[0] as int, p[1] as int, p[2] as int) as u16,
        val_q(p[0] as int, p[1] as int, p[2] as int) as u16,
    ]
}

/// The luma of an HSV pixel read as three pre-scaled 16-bit channels, as
/// the grayscale conversion computes it: each component rescaled to 8 bits
/// and fed to the luma weights, rounded once at the end.
pub open spec fn hsv_luma(h: int, s: int, v: int) -> int {
    div_round(255 * (299 * h + 587 * s + 114 * v), 65535000)
}

// Pixel-level conversions, one per (source shape, target shape) pair that
// the image-level conversions use.
/// Grayscale+alpha to grayscale: keep the luma channel, drop alpha.
pub open spec fn gray_of_ga(p: Seq<u8>) -> Seq<u8> {
    seq![p[0]]
}

/// 16-bit grayscale (with or without alpha) to 8-bit grayscale.
pub open spec fn gray_of_g16(p: Seq<u16>) -> Seq<u8> {
    seq![d8(p[0] as int) as u8]
}

/// RGB (or RGBA, alpha ignored) to grayscale by the luma weights.
pub open spec fn gray_of_rgb(p: Seq<u8>) -> Seq<u8> {
    seq![luma(p[0] as int, p[1] as int, p[2] as int) as u8]
}

/// 16-bit RGB (or RGBA) to grayscale: downcast each channel, then luma.
pub open spec fn gray_of_rgb16(p: Seq<u16>) -> Seq<u8> {
    seq![luma(d8(p[0] as int), d8(p[1] as int), d8(p[2] as int)) as u8]
}

/// HSV to grayscale by the rescale-then-luma shortcut.
pub open spec fn gray_of_hsv(p: Seq<u16>) -> Seq<u8> {
    seq![hsv_luma(p[0] as int, p[1] as int, p[2] as int) as u8]
}

/// RGBA to RGB: drop alpha.
pub open spec fn rgb_of_rgba(p: Seq<u8>) -> Seq<u8> {
    seq![p[0], p[1], p[2]]
}

/// 16-bit RGB to 8-bit RGB: downcast each channel.
pub open spec fn rgb_of_rgb16(p: Seq<u16>) -> Seq<u8> {
    seq![d8(p[0] as int) as u8, d8(p[1] as int) as u8, d8(p[2] as int) as u8]
}

/// 16-bit RGB (or RGBA) to fixed-point HSV: downcast, then convert.
pub open spec fn hsv_of_rgb16(p: Seq<u16>) -> Seq<u16> {
    hsv_of_rgb(seq![d8(p[0] as int) as u8, d8(p[1] as int) as u8, d8(p[2] as int) as u8])
}

/// A pixel copied unchanged, for the identity conversions.
fn px_copy<T: Copy, const N: usize>(p: [T; N]) -> (r: [T; N])
    ensures
        r == p,
        r@ == p@,
{
    p
}

/// Keeps the luma channel of a grayscale+alpha pixel.
fn px_gray_of_ga(p: [u8; 2]) -> (r: [u8; 1])
    ensures
        r@ == gray_of_ga(p@),
{
    [p[0]]
}

/// Downcasts a 16-bit grayscale pixel, with or without alpha, to 8 bits.
fn px_gray_of_g16<const N: usize>(p: [u16; N]) -> (r: [u8; 1])
    requires
        N >= 1,
    ensures
        r@ == gray_of_g16(p@),
{
    [Image::downcast_8bit(p[0])]
}

/// Projects an RGB pixel to its luma.
fn px_gray_of_rgb(p: [u8; 3]) -> (r: [u8; 1])
    ensures
        r@ == gray_of_rgb(p@),
{
    Image::rgb_to_gray(p)
}

/// Projects an RGBA pixel to its luma, ignoring alpha.
fn px_gray_of_rgba(p: [u8; 4]) -> (r: [u8; 1])
    ensures
        r@ == gray_of_rgb(p@),
{
    Image::rgb_to_gray([p[0], p[1], p[2]])
}

/// Downcasts a 16-bit RGB (or RGBA) pixel and projects it to its luma.
fn px_gray_of_rgb16<const N: usize>(p: [u16; N]) -> (r: [u8; 1])
    requires
        N >= 3,
    ensures
        r@ == gray_of_rgb16(p@),
{
    Image::rgb_to_gray(
        [
            Image::downcast_8bit(p[0]),
            Image::downcast_8bit(p[1]),
            Image::downcast_8bit(p[2]),
        ],
    )
}

/// Projects an HSV pixel to a luma by the rescale-then-luma shortcut.
fn px_gray_of_hsv(p: [u16; 3]) -> (r: [u8; 1])
    ensures
        r@ == gray_of_hsv(p@),
{
    let h = p[0] as u64;
    let s = p[1] as u64;
    let v = p[2] as u64;
    let l = div_round_u64(255 * (299 * h + 587 * s + 114 * v), 65535000);
    [l as u8]
}

/// Drops the alpha channel of an RGBA pixel.
fn px_rgb_of_rgba(p: [u8; 4]) -> (r: [u8; 3])
    ensures
        r@ == rgb_of_rgba(p@),
{
    [p[0], p[1], p[2]]
}

/// Downcasts the color channels of a 16-bit RGB (or RGBA) pixel.
fn px_rgb_of_rgb16<const N: usize>(p: [u16; N]) -> (r: [u8; 3])
    requires
        N >= 3,
    ensures
        r@ == rgb_of_rgb16(p@),
{
    [
        Image::downcast_8bit(p[0]),
        Image::downcast_8bit(p[1]),
        Image::downcast_8bit(p[2]),
    ]
}

/// Converts a fixed-point HSV pixel to RGB.
fn px_rgb_of_hsv(p: [u16; 3]) -> (r: [u8; 3])
    ensures
        r@ == rgb_of_hsv(p@),
{
    Image::hsv_to_rgb(p)
}

/// Converts an RGB pixel to fixed-point HSV.
fn px_hsv_of_rgb(p: [u8; 3]) -> (r: [u16; 3])
    ensures
        r@ == hsv_of_rgb(p@),
{
    Image::rgb_to_hsv(p)
}

/// Converts an RGBA pixel to fixed-point HSV, ignoring alpha.
fn px_hsv_of_rgba(p: [u8; 4]) -> (r: [u16; 3])
    ensures
        r@ == hsv_of_rgb(rgb_of_rgba(p@)),
{
    Image::rgb_to_hsv([p[0], p[1], p[2]])
}

/// Downcasts a 16-bit RGB (or RGBA) pixel and converts it to fixed-point
/// HSV.
fn px_hsv_of_rgb16<const N: usize>(p: [u16; N]) -> (r: [u16; 3])
    requires
        N >= 3,
    ensures
        r@ == hsv_of_rgb16(p@),
{
    Image::rgb_to_hsv(
        [
            Image::downcast_8bit(p[0]),
            Image::downcast_8bit(p[1]),
            Image::downcast_8bit(p[2]),
        ],
    )
}

impl Image {
    /// Downcasts a sample's color depth from 16 bit to 8 bit by the
    /// canonical rounding formula.
    pub fn downcast_8bit(pixel: u16) -> (r: u8)
        ensures
            r as int == d8(pixel as int),
    {
        div_round_u64(255 * pixel as u64, 65535) as u8
    }

    /// Casts a pixel's value from RGB to the grayscale colorspace by the
    /// weighted luma sum.
    pub fn rgb_to_gray(rgb: [u8; 3]) -> (r: [u8; 1])
        ensures
            r@ == gray_of_rgb(rgb@),
    {
        let l = div_round_u64(
            299 * rgb[0] as u64 + 587 * rgb[1] as u64 + 114 * rgb[2] as u64,
            1000,
        );
        let r = [l as u8];
        proof {
            assert(r@ =~= gray_of_rgb(rgb@));
        }
        r
    }

    /// Casts a pixel's value from RGB to the fixed-point HSV colorspace.
    pub fn rgb_to_hsv(rgb: [u8; 3]) -> (r: [u16; 3])
        ensures
            r@ == hsv_of_rgb(rgb@),
    {
        let rr = rgb[0] as u64;
        let gg = rgb[1] as u64;
        let bb = rgb[2] as u64;
        let cmax = if rr >= gg && rr >= bb {
            rr
        } else if gg >= bb {
            gg
        } else {
            bb
        };
        let cmin = if rr <= gg && rr <= bb {
            rr
        } else if gg <= bb {
            gg
        } else {
            bb
        };
        let delta = cmax - cmin;
        let h: u64 = if delta == 0 {
            0
        } else if cmax == rr {
            div_round_u64(6000 * (gg + 6 * delta - bb), delta) % 36000
        } else if cmax == gg {
            div_round_u64(6000 * (bb + 2 * delta - rr), delta) % 36000
        } else {
            div_round_u64(6000 * (rr + 4 * delta - gg), delta) % 36000
        };
        let s: u64 = if cmax == 0 {
            0
        } else {
            let s0 = div_round_u64(10000 * delta, cmax);
            if s0 > 10000 {
                10000
            } else {
                s0
            }
        };
        let v = div_round_u64(10000 * cmax, 255);
        let r = [h as u16, s as u16, v as u16];
        proof {
            assert(r@ =~= hsv_of_rgb(rgb@));
        }
        r
    }

    /// Casts a pixel's value from the fixed-point HSV colorspace to RGB by
    /// the standard six-sector table. A hue at or beyond a full turn falls
    /// into the fallback bucket; saturation or value beyond the fixed-point
    /// one is read as one.
    pub fn hsv_to_rgb(hsv: [u16; 3]) -> (r: [u8; 3])
        ensures
            r@ == rgb_of_hsv(hsv@),
    {
        let h = hsv[0] as u64;
        let s: u64 = if hsv[1] > 10000 {
            10000
        } else {
            hsv[1] as u64
        };
        let v: u64 = if hsv[2] > 10000 {
            10000
        } else {
            hsv[2] as u64
        };
        let u = h % 12000;
        let t: u64 = if u >= 6000 {
            6000 - (u - 6000)
        } else {
            u
        };
        proof {
            assert(s * t <= 60000000 && s * t + (10000 - s) * 6000 <= 60000000) by (
            nonlinear_arith)
                requires
                    s <= 10000,
                    0 <= t <= 6000,
            ;
        }
        let inner = s * t + (10000 - s) * 6000;
        proof {
            assert(255 * v * inner <= 2550000 * 60000000) by (nonlinear_arith)
                requires
                    0 <= 255 * v <= 2550000,
                    0 <= inner <= 60000000,
            ;
            assert(255 * v * (10000 - s) <= 2550000 * 10000) by (nonlinear_arith)
                requires
                    0 <= 255 * v <= 2550000,
                    0 <= 10000 - s <= 10000,
            ;
        }
        let full = div_round_u64(255 * v, 10000);
        let mid = div_round_u64(255 * v * inner, 600000000000);
        let low = div_round_u64(255 * v * (10000 - s), 100000000);
        proof {
            assert(mid <= 255);
            assert(low <= 255);
            assert(full <= 255);
        }
        let k = h / 6000;
        let r = if h >= 36000 {
            [low as u8, low as u8, low as u8]
        } else if k == 0 {
            [full as u8, mid as u8, low as u8]
        } else if k == 1 {
            [mid as u8, full as u8, low as u8]
        } else if k == 2 {
            [low as u8, full as u8, mid as u8]
        } else if k == 3 {
            [low as u8, mid as u8, full as u8]
        } else if k == 4 {
            [mid as u8, low as u8, full as u8]
        } else {
            [full as u8, low as u8, mid as u8]
        };
        proof {
            assert(r@ =~= rgb_of_hsv(hsv@));
        }
        r
    }
}

/// A grid mapped cell by cell through the spec-level pixel function `fs`.
pub open spec fn map_grid<T, U>(g: GridView<T>, fs: spec_fn(Seq<T>) -> Seq<U>) -> GridView<U> {
    GridView {
        width: g.width,
        height: g.height,
        cells: Seq::new(
            g.cells.len(),
            |y: int| Seq::new(g.cells[y].len(), |x: int| fs(g.cells[y][x])),
        ),
    }
}

/// From the shape facts and cell relation that `map_pixels` establishes,
/// together with a pixel function whose contract pins its output to the
/// spec-level `fs`, concludes that the destination grid is exactly the
/// source grid mapped through `fs`.
pub proof fn lemma_map_pixels_view<T: Copy, U, const N: usize, const M: usize, F: Fn(
    [T; N],
) -> [U; M]>(f: F, src: GridView<T>, dst: GridView<U>, fs: spec_fn(Seq<T>) -> Seq<U>)
    requires
        dst.width == src.width,
        dst.height == src.height,
        dst.cells.len() == src.cells.len(),
        forall|y: int|
            0 <= y < src.cells.len() ==> (#[trigger] dst.cells[y]).len() == src.cells[y].len(),
        forall|y: int, x: int|
            #![trigger dst.cells[y][x]]
            0 <= y < src.cells.len() && 0 <= x < src.cells[y].len() ==> cell_mapped(
                f,
                src.cells[y][x],
                dst.cells[y][x],
            ),
        forall|p: [T; N], q: [U; M]| #[trigger] call_ensures(f, (p,), q) ==> q@ == fs(p@),
    ensures
        dst == map_grid(src, fs),
{
    assert forall|y: int, x: int|
        #![trigger dst.cells[y][x]]
        0 <= y < src.cells.len() && 0 <= x < src.cells[y].len() implies dst.cells[y][x] == fs(
        src.cells[y][x],
    ) by {
        let (p, q) = choose|p: [T; N], q: [U; M]|
            p@ == src.cells[y][x] && q@ == dst.cells[y][x] && #[trigger] call_ensures(f, (p,), q);
        assert(q@ == fs(p@));
    }
    assert(dst.cells =~~= map_grid(src, fs).cells);
    assert(dst =~~= map_grid(src, fs));
}

/// The grayscale grid every format projects to: the single-channel 8-bit
/// luma grid, cell by cell.
pub open spec fn grayscale_view(iv: ImageView) -> GridView<u8> {
    match iv {
        ImageView::Grayscale(g) => g,
        ImageView::GrayscaleAlpha(g) => map_grid(g, |p: Seq<u8>| gray_of_ga(p)),
        ImageView::Grayscale16(g) => map_grid(g, |p: Seq<u16>| gray_of_g16(p)),
        ImageView::GrayscaleAlpha16(g) => map_grid(g, |p: Seq<u16>| gray_of_g16(p)),
        ImageView::Rgb(g) => map_grid(g, |p: Seq<u8>| gray_of_rgb(p)),
        ImageView::Rgba(g) => map_grid(g, |p: Seq<u8>| gray_of_rgb(p)),
        ImageView::Rgb16(g) => map_grid(g, |p: Seq<u16>| gray_of_rgb16(p)),
        ImageView::Rgba16(g) => map_grid(g, |p: Seq<u16>| gray_of_rgb16(p)),
        ImageView::Hsv(g) => map_grid(g, |p: Seq<u16>| gray_of_hsv(p)),
    }
}

/// The formats the RGB conversion is defined for.
pub open spec fn rgb_ok(iv: ImageView) -> bool {
    match iv {
        ImageView::Rgb(_) => true,
        ImageView::Rgba(_) => true,
        ImageView::Rgb16(_) => true,
        ImageView::Rgba16(_) => true,
        ImageView::Hsv(_) => true,
        _ => false,
    }
}

/// The RGB grid a valid source converts to.
pub open spec fn rgb_view(iv: ImageView) -> GridView<u8> {
    match iv {
        ImageView::Rgb(g) => g,
        ImageView::Rgba(g) => map_grid(g, |p: Seq<u8>| rgb_of_rgba(p)),
        ImageView::Rgb16(g) => map_grid(g, |p: Seq<u16>| rgb_of_rgb16(p)),
        ImageView::Rgba16(g) => map_grid(g, |p: Seq<u16>| rgb_of_rgb16(p)),
        ImageView::Hsv(g) => map_grid(g, |p: Seq<u16>| rgb_of_hsv(p)),
        _ => arbitrary(),
    }
}

/// The formats the HSV conversion is defined for.
pub open spec fn hsv_ok(iv: ImageView) -> bool {
    rgb_ok(iv)
}

/// The fixed-point HSV grid a valid source converts to.
pub open spec fn hsv_view(iv: ImageView) -> GridView<u16> {
    match iv {
        ImageView::Rgb(g) => map_grid(g, |p: Seq<u8>| hsv_of_rgb(p)),
        ImageView::Rgba(g) => map_grid(g, |p: Seq<u8>| hsv_of_rgb(rgb_of_rgba(p))),
        ImageView::Rgb16(g) => map_grid(g, |p: Seq<u16>| hsv_of_rgb16(p)),
        ImageView::Rgba16(g) => map_grid(g, |p: Seq<u16>| hsv_of_rgb16(p)),
        ImageView::Hsv(g) => g,
        _ => arbitrary(),
    }
}

impl Image {
    /// Converts an image to the grayscale colorspace. Every source format is
    /// supported: the result is always the single-channel 8-bit luma image
    /// [`grayscale_view`] describes, with the source's declared dimensions.
    pub fn grayscale(&self) -> (result: Self)
        ensures
            result@ == ImageView::Grayscale(grayscale_view(self@)),
    {
        let grayscale_image: ImageData<u8, 1> = match self {
            Image::ImageGrayscale(grayscale) => {
                let out = map_pixels(grayscale, px_copy::<u8, 1>);
                proof {
                    lemma_map_pixels_view(px_copy::<u8, 1>, grayscale@, out@, |p: Seq<u8>| p);
                    assert(out@ =~~= grayscale_view(self@));
                }
                out
            },
            Image::ImageGrayscaleAlpha(grayscale_alpha) => {
                let out = map_pixels(grayscale_alpha, px_gray_of_ga);
                proof {
                    lemma_map_pixels_view(
                        px_gray_of_ga,
                        grayscale_alpha@,
                        out@,
                        |p: Seq<u8>| gray_of_ga(p),
                    );
                    assert(out@ =~~= grayscale_view(self@));
                }
                out
            },
            Image::ImageGrayscale16(grayscale16) => {
                let out = map_pixels(grayscale16, px_gray_of_g16::<1>);
                proof {
                    lemma_map_pixels_view(
                        px_gray_of_g16::<1>,
                        grayscale16@,
                        out@,
                        |p: Seq<u16>| gray_of_g16(p),
                    );
                    assert(out@ =~~= grayscale_view(self@));
                }
                out
            },
            Image::ImageGrayscaleAlpha16(grayscale_alpha16) => {
                let out = map_pixels(grayscale_alpha16, px_gray_of_g16::<2>);
                proof {
                    lemma_map_pixels_view(
                        px_gray_of_g16::<2>,
                        grayscale_alpha16@,
                        out@,
                        |p: Seq<u16>| gray_of_g16(p),
                    );
                    assert(out@ =~~= grayscale_view(self@));
                }
                out
            },
            Image::ImageRgb(rgb) => {
                let out = map_pixels(rgb, px_gray_of_rgb);
                proof {
                    lemma_map_pixels_view(px_gray_of_rgb, rgb@, out@, |p: Seq<u8>| gray_of_rgb(p));
                    assert(out@ =~~= grayscale_view(self@));
                }
                out
            },
            Image::ImageRgba(rgba) => {
                let out = map_pixels(rgba, px_gray_of_rgba);
                proof {
                    lemma_map_pixels_view(
                        px_gray_of_rgba,
                        rgba@,
                        out@,
                        |p: Seq<u8>| gray_of_rgb(p),
                    );
                    assert(out@ =~~= grayscale_view(self@));
                }
                out
            },
            Image::ImageRgb16(rgb16) => {
                let out = map_pixels(rgb16, px_gray_of_rgb16::<3>);
                proof {
                    lemma_map_pixels_view(
                        px_gray_of_rgb16::<3>,
                        rgb16@,
                        out@,
                        |p: Seq<u16>| gray_of_rgb16(p),
                    );
                    assert(out@ =~~= grayscale_view(self@));
                }
                out
            },
            Image::ImageRgba16(rgba16) => {
                let out = map_pixels(rgba16, px_gray_of_rgb16::<4>);
                proof {
                    lemma_map_pixels_view(
                        px_gray_of_rgb16::<4>,
                        rgba16@,
                        out@,
                        |p: Seq<u16>| gray_of_rgb16(p),
                    );
                    assert(out@ =~~= grayscale_view(self@));
                }
                out
            },
            Image::ImageHsv(hsv) => {
                let out = map_pixels(hsv, px_gray_of_hsv);
                proof {
                    lemma_map_pixels_view(px_gray_of_hsv, hsv@, out@, |p: Seq<u16>| gray_of_hsv(p));
                    assert(out@ =~~= grayscale_view(self@));
                }
                out
            },
        };
        Image::ImageGrayscale(grayscale_image)
    }

    /// Converts an image to the RGB colorspace. Valid sources are RGB (an
    /// identity copy), RGBA (alpha dropped), their 16-bit forms (each
    /// channel downcast) and HSV; a grayscale-family source fails with
    /// `InvalidColorType` naming the source format.
    pub fn rgb(&self) -> (result: VisionXResult<Self>)
        ensures
            rgb_ok(self@) <==> result is Ok,
            result is Ok ==> result->Ok_0@ == ImageView::Rgb(rgb_view(self@)),
            result is Err ==> (result->Err_0 matches VisionXErrorKind::InvalidColorType(c)
                && c.source@ == self@.format_name() && c.target@ == "rgb"@),
    {
        match self {
            Image::ImageRgb(rgb) => {
                let out = map_pixels(rgb, px_copy::<u8, 3>);
                proof {
                    lemma_map_pixels_view(px_copy::<u8, 3>, rgb@, out@, |p: Seq<u8>| p);
                    assert(out@ =~~= rgb_view(self@));
                }
                Ok(Image::ImageRgb(out))
            },
            Image::ImageRgba(rgba) => {
                let out = map_pixels(rgba, px_rgb_of_rgba);
                proof {
                    lemma_map_pixels_view(px_rgb_of_rgba, rgba@, out@, |p: Seq<u8>| rgb_of_rgba(p));
                    assert(out@ =~~= rgb_view(self@));
                }
                Ok(Image::ImageRgb(out))
            },
            Image::ImageRgb16(rgb16) => {
                let out = map_pixels(rgb16, px_rgb_of_rgb16::<3>);
                proof {
                    lemma_map_pixels_view(
                        px_rgb_of_rgb16::<3>,
                        rgb16@,
                        out@,
                        |p: Seq<u16>| rgb_of_rgb16(p),
                    );
                    assert(out@ =~~= rgb_view(self@));
                }
                Ok(Image::ImageRgb(out))
            },
            Image::ImageRgba16(rgba16) => {
                let out = map_pixels(rgba16, px_rgb_of_rgb16::<4>);
                proof {
                    lemma_map_pixels_view(
                        px_rgb_of_rgb16::<4>,
                        rgba16@,
                        out@,
                        |p: Seq<u16>| rgb_of_rgb16(p),
                    );
                    assert(out@ =~~= rgb_view(self@));
                }
                Ok(Image::ImageRgb(out))
            },
            Image::ImageHsv(hsv) => {
                let out = map_pixels(hsv, px_rgb_of_hsv);
                proof {
                    lemma_map_pixels_view(px_rgb_of_hsv, hsv@, out@, |p: Seq<u16>| rgb_of_hsv(p));
                    assert(out@ =~~= rgb_view(self@));
                }
                Ok(Image::ImageRgb(out))
            },
            value => {
                let report = ColorReport {
                    source: value.to_str().to_owned(),
                    target: "rgb".to_owned(),
                };
                Err(VisionXErrorKind::InvalidColorType(report))
            },
        }
    }

    /// Converts an image to the HSV colorspace, in the fixed-point encoding.
    /// Valid sources are RGB, RGBA (alpha dropped), their 16-bit forms (each
    /// channel downcast first) and HSV (an identity copy); a
    /// grayscale-family source fails with `InvalidColorType` naming the
    /// source format.
    pub fn hsv(&self) -> (result: VisionXResult<Self>)
        ensures
            hsv_ok(self@) <==> result is Ok,
            result is Ok ==> result->Ok_0@ == ImageView::Hsv(hsv_view(self@)),
            result is Err ==> (result->Err_0 matches VisionXErrorKind::InvalidColorType(c)
                && c.source@ == self@.format_name() && c.target@ == "hsv"@),
    {
        match self {
            Image::ImageRgb(rgb) => {
                let out = map_pixels(rgb, px_hsv_of_rgb);
                proof {
                    lemma_map_pixels_view(px_hsv_of_rgb, rgb@, out@, |p: Seq<u8>| hsv_of_rgb(p));
                    assert(out@ =~~= hsv_view(self@));
                }
                Ok(Image::ImageHsv(out))
            },
            Image::ImageRgba(rgba) => {
                let out = map_pixels(rgba, px_hsv_of_rgba);
                proof {
                    lemma_map_pixels_view(
                        px_hsv_of_rgba,
                        rgba@,
                        out@,
                        |p: Seq<u8>| hsv_of_rgb(rgb_of_rgba(p)),
                    );
                    assert(out@ =~~= hsv_view(self@));
                }
                Ok(Image::ImageHsv(out))
            },
            Image::ImageRgb16(rgb16) => {
                let out = map_pixels(rgb16, px_hsv_of_rgb16::<3>);
                proof {
                    lemma_map_pixels_view(
                        px_hsv_of_rgb16::<3>,
                        rgb16@,
                        out@,
                        |p: Seq<u16>| hsv_of_rgb16(p),
                    );
                    assert(out@ =~~= hsv_view(self@));
                }
                Ok(Image::ImageHsv(out))
            },
            Image::ImageRgba16(rgba16) => {
                let out = map_pixels(rgba16, px_hsv_of_rgb16::<4>);
                proof {
                    lemma_map_pixels_view(
                        px_hsv_of_rgb16::<4>,
                        rgba16@,
                        out@,
                        |p: Seq<u16>| hsv_of_rgb16(p),
                    );
                    assert(out@ =~~= hsv_view(self@));
                }
                Ok(Image::ImageHsv(out))
            },
            Image::ImageHsv(hsv) => {
                let out = map_pixels(hsv, px_copy::<u16, 3>);
                proof {
                    lemma_map_pixels_view(px_copy::<u16, 3>, hsv@, out@, |p: Seq<u16>| p);
                    assert(out@ =~~= hsv_view(self@));
                }
                Ok(Image::ImageHsv(out))
            },
            value => {
                let report = ColorReport {
                    source: value.to_str().to_owned(),
                    target: "hsv".to_owned(),
                };
                Err(VisionXErrorKind::InvalidColorType(report))
            },
        }
    }
}

/// A grayscale conversion preserves well-formedness: the luma grid of a
/// well-formed image is itself well-formed, with one channel per cell.
pub proof fn lemma_grayscale_wf(iv: ImageView)
    requires
        iv.wf(),
    ensures
        grayscale_view(iv).wf(1),
{
    let out = grayscale_view(iv);
    assert forall|y: int, x: int|
        0 <= y < out.cells.len() && 0 <= x < out.cells[y].len() implies (
    #[trigger] out.cells[y][x]).len() == 1 by {
        match iv {
            ImageView::Grayscale(g) => {
                assert(g.cells[y][x].len() == 1);
            },
            _ => {},
        }
    }
}

/// An RGB conversion preserves well-formedness: the RGB grid of a
/// well-formed valid source is itself well-formed, with three channels per
/// cell.
pub proof fn lemma_rgb_wf(iv: ImageView)
    requires
        iv.wf(),
        rgb_ok(iv),
    ensures
        rgb_view(iv).wf(3),
{
    let out = rgb_view(iv);
    assert forall|y: int, x: int|
        0 <= y < out.cells.len() && 0 <= x < out.cells[y].len() implies (
    #[trigger] out.cells[y][x]).len() == 3 by {
        match iv {
            ImageView::Rgb(g) => {
                assert(g.cells[y][x].len() == 3);
            },
            _ => {},
        }
    }
}

/// An HSV conversion preserves well-formedness: the fixed-point HSV grid of
/// a well-formed valid source is itself well-formed, with three channels
/// per cell.
pub proof fn lemma_hsv_wf(iv: ImageView)
    requires
        iv.wf(),
        hsv_ok(iv),
    ensures
        hsv_view(iv).wf(3),
{
    let out = hsv_view(iv);
    assert forall|y: int, x: int|
        0 <= y < out.cells.len() && 0 <= x < out.cells[y].len() implies (
    #[trigger] out.cells[y][x]).len() == 3 by {
        match iv {
            ImageView::Hsv(g) => {
                assert(g.cells[y][x].len() == 3);
            },
            _ => {},
        }
    }
}

/// Converting an RGB image to RGB is the identity: the conversion is
/// defined for it and returns the same grid, losslessly.
pub proof fn lemma_rgb_identity(g: GridView<u8>)
    ensures
        rgb_ok(ImageView::Rgb(g)),
        rgb_view(ImageView::Rgb(g)) == g,
{
}

/// Converting an HSV image to HSV is the identity: the conversion is
/// defined for it and returns the same grid, losslessly.
pub proof fn lemma_hsv_identity(g: GridView<u16>)
    ensures
        hsv_ok(ImageView::Hsv(g)),
        hsv_view(ImageView::Hsv(g)) == g,
{
}

/// A canonical fixed-point HSV cell: three components, the hue below a
/// full turn, saturation and value at most one.
pub open spec fn hsv_cell_valid(p: Seq<u16>) -> bool {
    p.len() == 3 && p[0] < 36000 && p[1] <= 10000 && p[2] <= 10000
}

/// Every pixel the RGB-to-HSV conversion produces is canonical: the
/// documented fallback and cap branches of the way back are never taken
/// for values this library computed itself.
pub proof fn lemma_hsv_of_rgb_valid(p: Seq<u8>)
    ensures
        hsv_cell_valid(hsv_of_rgb(p)),
{
    let r = p[0] as int;
    let g = p[1] as int;
    let b = p[2] as int;
    let cmax = max3(r, g, b);
    let cmin = min3(r, g, b);
    let delta = cmax - cmin;
    if delta != 0 {
        if cmax == r {
            lemma_div_round_bounds(6000 * (g + 6 * delta - b), delta);
            vstd::arithmetic::div_mod::lemma_mod_pos_bound(
                div_round(6000 * (g + 6 * delta - b), delta),
                36000,
            );
        } else if cmax == g {
            lemma_div_round_bounds(6000 * (b + 2 * delta - r), delta);
            vstd::arithmetic::div_mod::lemma_mod_pos_bound(
                div_round(6000 * (b + 2 * delta - r), delta),
                36000,
            );
        } else {
            lemma_div_round_bounds(6000 * (r + 4 * delta - g), delta);
            vstd::arithmetic::div_mod::lemma_mod_pos_bound(
                div_round(6000 * (r + 4 * delta - g), delta),
                36000,
            );
        }
    }
    lemma_div_round_bounds(10000 * cmax, 255);
}

/// Every cell of an HSV image converted from an RGB-family source is
/// canonical, so the way back to RGB never takes the fallback or cap
/// branches on it.
pub proof fn lemma_hsv_view_valid(iv: ImageView)
    requires
        hsv_ok(iv),
        !(iv is Hsv),
    ensures
        forall|y: int, x: int|
            #![trigger hsv_view(iv).cells[y][x]]
            0 <= y < hsv_view(iv).cells.len() && 0 <= x < hsv_view(iv).cells[y].len()
                ==> hsv_cell_valid(hsv_view(iv).cells[y][x]),
{
    let out = hsv_view(iv);
    assert forall|y: int, x: int|
        #![trigger out.cells[y][x]]
        0 <= y < out.cells.len() && 0 <= x < out.cells[y].len() implies hsv_cell_valid(
        out.cells[y][x],
    ) by {
        match iv {
            ImageView::Rgb(g) => {
                lemma_hsv_of_rgb_valid(g.cells[y][x]);
            },
            ImageView::Rgba(g) => {
                lemma_hsv_of_rgb_valid(rgb_of_rgba(g.cells[y][x]));
            },
            ImageView::Rgb16(g) => {
                let q = g.cells[y][x];
                lemma_hsv_of_rgb_valid(
                    seq![d8(q[0] as int) as u8, d8(q[1] as int) as u8, d8(q[2] as int) as u8],
                );
            },
            ImageView::Rgba16(g) => {
                let q = g.cells[y][x];
                lemma_hsv_of_rgb_valid(
                    seq![d8(q[0] as int) as u8, d8(q[1] as int) as u8, d8(q[2] as int) as u8],
                );
            },
            _ => {},
        }
    }
}

/// The rounded division misses the exact quotient by at most a half,
/// stated without fractions as two linear bounds.
proof fn lemma_div_round_bounds(a: int, b: int)
    requires
        0 <= a,
        0 < b,
    ensures
        2 * b * div_round(a, b) <= 2 * a + b,
        2 * b * div_round(a, b) > 2 * a - b,
        div_round(a, b) >= 0,
{
    vstd::arithmetic::div_mod::lemma_fundamental_div_mod(2 * a + b, 2 * b);
    vstd::arithmetic::div_mod::lemma_mod_pos_bound(2 * a + b, 2 * b);
}

/// Scaling the numerator and denominator of a rounded division by one
/// positive factor leaves it unchanged.
proof fn lemma_div_round_scale(a: int, b: int, k: int)
    requires
        0 <= a,
        0 < b,
        0 < k,
    ensures
        div_round(a * k, b * k) == div_round(a, b),
{
    let q = (2 * a + b) / (2 * b);
    let r = (2 * a + b) % (2 * b);
    vstd::arithmetic::div_mod::lemma_fundamental_div_mod(2 * a + b, 2 * b);
    vstd::arithmetic::div_mod::lemma_mod_pos_bound(2 * a + b, 2 * b);
    assert(2 * (a * k) + b * k == q * (2 * (b * k)) + r * k) by (nonlinear_arith)
        requires
            2 * a + b == 2 * b * q + r,
    ;
    assert(0 <= r * k < 2 * (b * k)) by (nonlinear_arith)
        requires
            0 <= r < 2 * b,
            0 < k,
    ;
    vstd::arithmetic::div_mod::lemma_fundamental_div_mod_converse(
        2 * (a * k) + b * k,
        2 * (b * k),
        q,
        r * k,
    );
}

/// For an achromatic pixel the HSV round trip is exact: a gray RGB triple
/// converted to fixed-point HSV and back comes out unchanged, channel for
/// channel.
pub proof fn lemma_gray_round_trip(c: u8)
    ensures
        rgb_of_hsv(hsv_of_rgb(seq![c, c, c])) == seq![c, c, c],
{
    let ci = c as int;
    assert(hue_cd(ci, ci, ci) == 0);
    if ci > 0 {
        vstd::arithmetic::div_mod::lemma_basic_div(ci, 2 * ci);
    }
    assert(sat_q(ci, ci, ci) == 0);
    let v = val_q(ci, ci, ci);
    lemma_div_round_bounds(10000 * ci, 255);
    assert(0 <= v <= 10000);
    let hp = hsv_of_rgb(seq![c, c, c]);
    assert(hp =~= seq![0u16, 0u16, v as u16]);
    let full = hsv_full(v);
    lemma_div_round_scale(255 * v, 10000, 60000000);
    assert(hsv_mid(0, v, 0) == full);
    lemma_div_round_scale(255 * v, 10000, 10000);
    assert(hsv_low(0, v) == full);
    lemma_div_round_bounds(255 * v, 10000);
    assert(full == ci);
    assert(rgb_of_hsv(hp) =~= seq![c, c, c]);
}

/// Grayscale conversion is idempotent: converting the grayscale image that
/// any source produced yields that image again.
pub proof fn lemma_grayscale_idempotent(iv: ImageView)
    ensures
        grayscale_view(ImageView::Grayscale(grayscale_view(iv))) == grayscale_view(iv),
{
}

} // verus!
