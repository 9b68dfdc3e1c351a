//! The pixel-grid data model: a dense, row-major 2D grid of fixed-size pixel
//! tuples (`N` channels of sample type `T`), together with the closed set of
//! pixel formats an image can take.
//!
//! A grid is modeled in specifications by [`GridView`]: its declared width and
//! height together with the stored cells as a sequence (rows) of sequences
//! (pixels) of sequences (channels). The declared dimensions and the storage
//! are kept consistent by every operation of this crate, but setters allow a
//! caller to break that consistency; operations that index the storage
//! therefore require [`ImageData::wf`] as a documented precondition.

use crate::errors::{CoordReport, VisionXErrorKind, VisionXResult};
use vstd::prelude::*;

verus! {

broadcast use vstd::array::group_array_axioms;

/// A sample type a pixel channel can hold: it is copyable and has a zero
/// value, used to fill cells that no source pixel maps to.
pub trait Channel: Copy {
    /// The zero sample in specifications.
    spec fn zero_spec() -> Self;

    /// The zero sample.
    fn zero() -> (r: Self)
        ensures
            r == Self::zero_spec(),
    ;
}

impl Channel for u8 {
    open spec fn zero_spec() -> u8 {
        0
    }

    fn zero() -> (r: u8) {
        0
    }
}

impl Channel for u16 {
    open spec fn zero_spec() -> u16 {
        0
    }

    fn zero() -> (r: u16) {
        0
    }
}

/// The mathematical model of a pixel grid: the declared dimensions and the
/// stored cells, row-major, each cell a sequence of channel samples.
#[verifier::ext_equal]
pub struct GridView<T> {
    /// The declared width.
    pub width: nat,
    /// The declared height.
    pub height: nat,
    /// The stored cells: `cells[y][x][c]` is channel `c` of the pixel in row
    /// `y`, column `x`.
    pub cells: Seq<Seq<Seq<T>>>,
}

impl<T> GridView<T> {
    /// The declared dimensions agree with the storage and every cell holds
    /// `n` channels.
    pub open spec fn wf(self, n: nat) -> bool {
        &&& self.cells.len() == self.height
        &&& forall|y: int|
            0 <= y < self.cells.len() ==> (#[trigger] self.cells[y]).len() == self.width
        &&& forall|y: int, x: int|
            0 <= y < self.cells.len() && 0 <= x < self.cells[y].len() ==> (
            #[trigger] self.cells[y][x]).len() == n
    }

    /// The cell at row `y`, column `x`.
    pub open spec fn px(self, y: int, x: int) -> Seq<T> {
        self.cells[y][x]
    }
}

/// The channel sequences stored in a grid's backing vector, row-major.
pub open spec fn cells_of<T, const N: usize>(pixels: Seq<Vec<[T; N]>>) -> Seq<Seq<Seq<T>>> {
    Seq::new(pixels.len(), |y: int| Seq::new(pixels[y]@.len(), |x: int| pixels[y]@[x]@))
}

/// The height, width and pixel values of an image: a row-major grid of
/// `height` rows of `width` pixels, each pixel `N` samples of type `T`.
///
/// The width and height fields are set independently of the pixel storage;
/// keeping them consistent (see [`ImageData::wf`]) is the caller's
/// responsibility, and the operations that index the storage state it as a
/// precondition.
#[derive(Debug, Clone)]
pub struct ImageData<T, const N: usize> {
    height: u32,
    width: u32,
    pixels: Vec<Vec<[T; N]>>,
}

impl<T, const N: usize> View for ImageData<T, N> {
    type V = GridView<T>;

    closed spec fn view(&self) -> GridView<T> {
        GridView {
            width: self.width as nat,
            height: self.height as nat,
            cells: cells_of(self.pixels@),
        }
    }
}

impl<T: Copy, const N: usize> ImageData<T, N> {
    /// The declared dimensions agree with the backing storage.
    pub open spec fn wf(self) -> bool {
        self@.wf(N as nat)
    }

    /// Creates a grid from a pre-built pixel vector. The given dimensions are
    /// recorded as they are: nothing validates that they match the vector's
    /// shape, which is the caller's responsibility.
    pub fn new(width: u32, height: u32, pixels: Vec<Vec<[T; N]>>) -> (r: Self)
        ensures
            r@.width == width,
            r@.height == height,
            r@.cells == cells_of(pixels@),
    {
        Self { width, height, pixels }
    }

    /// The declared height.
    pub fn height(&self) -> (r: &u32)
        ensures
            *r == self@.height,
    {
        &self.height
    }

    /// The declared width.
    pub fn width(&self) -> (r: &u32)
        ensures
            *r == self@.width,
    {
        &self.width
    }

    /// The backing pixel vector.
    pub fn pixels(&self) -> (r: &Vec<Vec<[T; N]>>)
        ensures
            cells_of(r@) == self@.cells,
    {
        &self.pixels
    }

    /// Sets the declared height, leaving the storage as it is.
    pub fn set_height(&mut self, height: u32)
        ensures
            final(self)@ == (GridView { height: height as nat, ..old(self)@ }),
    {
        self.height = height;
    }

    /// Sets the declared width, leaving the storage as it is.
    pub fn set_width(&mut self, width: u32)
        ensures
            final(self)@ == (GridView { width: width as nat, ..old(self)@ }),
    {
        self.width = width;
    }

    /// Replaces the pixel storage, leaving the declared dimensions as they
    /// are.
    pub fn set_pixels(&mut self, pixels: Vec<Vec<[T; N]>>)
        ensures
            final(self)@ == (GridView { cells: cells_of(pixels@), ..old(self)@ }),
    {
        self.pixels = pixels;
    }

    /// Flattens the stored pixel values to a one-dimensional buffer in
    /// row-major order — every channel of every pixel, rows first, then
    /// columns, then channels — as the encode boundary consumes it. The
    /// traversal is stable and deterministic.
    pub fn flatten_pixels(&self) -> (r: Vec<T>)
        ensures
            r@ == flat_cells(self@.cells),
    {
        let mut values: Vec<T> = Vec::new();
        let height = self.pixels.len();
        proof {
            assert(self@.cells.take(0) =~= Seq::<Seq<Seq<T>>>::empty());
        }
        for y in 0..height
            invariant
                height == self.pixels@.len(),
                height == self@.cells.len(),
                values@ == flat_cells(self@.cells.take(y as int)),
        {
            let width = self.pixels[y].len();
            proof {
                assert(self@.cells[y as int].len() == self.pixels@[y as int]@.len());
                assert(self@.cells[y as int].take(0) =~= Seq::<Seq<T>>::empty());
                assert(values@ =~= flat_cells(self@.cells.take(y as int)) + flat_row(
                    self@.cells[y as int].take(0),
                ));
            }
            for x in 0..width
                invariant
                    height == self.pixels@.len(),
                    height == self@.cells.len(),
                    y < height,
                    width == self.pixels@[y as int]@.len(),
                    width == self@.cells[y as int].len(),
                    values@ == flat_cells(self@.cells.take(y as int)) + flat_row(
                        self@.cells[y as int].take(x as int),
                    ),
            {
                let px = self.pixels[y][x];
                proof {
                    assert(px@ == self@.cells[y as int][x as int]);
                    assert(px@.take(0) =~= Seq::<T>::empty());
                    assert(values@ =~= flat_cells(self@.cells.take(y as int)) + flat_row(
                        self@.cells[y as int].take(x as int),
                    ) + px@.take(0));
                }
                for c in 0..N
                    invariant
                        px@ == self@.cells[y as int][x as int],
                        values@ == flat_cells(self@.cells.take(y as int)) + flat_row(
                            self@.cells[y as int].take(x as int),
                        ) + px@.take(c as int),
                {
                    values.push(px[c]);
                    proof {
                        assert(px@.take(c as int + 1) =~= px@.take(c as int).push(px@[c as int]));
                        assert(values@ =~= flat_cells(self@.cells.take(y as int)) + flat_row(
                            self@.cells[y as int].take(x as int),
                        ) + px@.take(c as int + 1));
                    }
                }
                proof {
                    let row = self@.cells[y as int];
                    assert(px@.take(N as int) =~= px@);
                    assert(row.take(x as int + 1) =~= row.take(x as int).push(row[x as int]));
                    lemma_flat_row_snoc(row.take(x as int), row[x as int]);
                    assert(values@ =~= flat_cells(self@.cells.take(y as int)) + flat_row(
                        row.take(x as int + 1),
                    ));
                }
            }
            proof {
                let cells = self@.cells;
                assert(cells[y as int].take(width as int) =~= cells[y as int]);
                assert(cells.take(y as int + 1) =~= cells.take(y as int).push(cells[y as int]));
                lemma_flat_cells_snoc(cells.take(y as int), cells[y as int]);
                assert(values@ =~= flat_cells(cells.take(y as int + 1)));
            }
        }
        proof {
            assert(self@.cells.take(height as int) =~= self@.cells);
        }
        values
    }

    /// The pixel at column `x`, row `y`, or `None` when the coordinate lies
    /// outside the declared dimensions. Never panics under the grid's
    /// well-formedness precondition.
    pub fn get_pixel_at(&self, x: usize, y: usize) -> (r: Option<&[T; N]>)
        requires
            self.wf(),
        ensures
            (x < self@.width && y < self@.height) <==> r is Some,
            r is Some ==> r->0@ == self@.px(y as int, x as int),
    {
        if x < self.width as usize && y < self.height as usize {
            proof {
                assert(self@.cells[y as int].len() == self.pixels@[y as int]@.len());
            }
            return Some(&self.pixels[y][x]);
        }
        None
    }

    /// Writes the pixel at column `x`, row `y` in place, or fails with
    /// `IndexOutofBound` — reporting the attempted coordinate and the grid's
    /// size — when the coordinate lies outside the declared dimensions,
    /// leaving the grid unmodified.
    pub fn set_pixel_at(&mut self, x: usize, y: usize, value: [T; N]) -> (r: VisionXResult<()>)
        requires
            old(self).wf(),
        ensures
            final(self).wf(),
            (x < old(self)@.width && y < old(self)@.height) <==> r is Ok,
            final(self)@.width == old(self)@.width,
            final(self)@.height == old(self)@.height,
            r is Ok ==> final(self)@.cells == old(self)@.cells.update(
                y as int,
                old(self)@.cells[y as int].update(x as int, value@),
            ),
            r is Err ==> final(self)@ == old(self)@ && r == Err::<(), VisionXErrorKind>(
                VisionXErrorKind::IndexOutofBound(
                    CoordReport {
                        x: x as u64,
                        y: y as u64,
                        x2: x as u64,
                        y2: y as u64,
                        width: old(self)@.width as u32,
                        height: old(self)@.height as u32,
                    },
                ),
            ),
    {
        if x < self.width as usize && y < self.height as usize {
            proof {
                assert(self@.cells[y as int].len() == self.pixels@[y as int]@.len());
            }
            self.pixels[y][x] = value;
            proof {
                assert(final(self)@.cells =~~= old(self)@.cells.update(
                    y as int,
                    old(self)@.cells[y as int].update(x as int, value@),
                ));
            }
            return Ok(());
        }
        let err = CoordReport {
            x: x as u64,
            y: y as u64,
            x2: x as u64,
            y2: y as u64,
            width: self.width,
            height: self.height,
        };
        Err(VisionXErrorKind::IndexOutofBound(err))
    }
}

/// A row's samples in order: each pixel's channels, pixel by pixel.
pub open spec fn flat_row<T>(row: Seq<Seq<T>>) -> Seq<T>
    decreases row.len(),
{
    if row.len() == 0 {
        Seq::empty()
    } else {
        row[0] + flat_row(row.skip(1))
    }
}

/// A grid's samples in row-major order: every channel of every pixel, rows
/// first, then columns, then channels.
pub open spec fn flat_cells<T>(cells: Seq<Seq<Seq<T>>>) -> Seq<T>
    decreases cells.len(),
{
    if cells.len() == 0 {
        Seq::empty()
    } else {
        flat_row(cells[0]) + flat_cells(cells.skip(1))
    }
}

/// Flattening a row extended by one pixel appends that pixel's channels.
proof fn lemma_flat_row_snoc<T>(row: Seq<Seq<T>>, p: Seq<T>)
    ensures
        flat_row(row.push(p)) == flat_row(row) + p,
    decreases row.len(),
{
    if row.len() == 0 {
        assert(row.push(p)[0] == p);
        assert(row.push(p).skip(1) =~= Seq::<Seq<T>>::empty());
        assert(flat_row(Seq::<Seq<T>>::empty()) == Seq::<T>::empty());
        assert(flat_row(row.push(p)) == p + flat_row(Seq::<Seq<T>>::empty()));
        assert(flat_row(row.push(p)) =~= flat_row(row) + p);
    } else {
        lemma_flat_row_snoc(row.skip(1), p);
        assert(row.push(p).skip(1) =~= row.skip(1).push(p));
        assert(flat_row(row.push(p)) =~= flat_row(row) + p);
    }
}

/// Flattening a grid extended by one row appends that row's samples.
proof fn lemma_flat_cells_snoc<T>(cells: Seq<Seq<Seq<T>>>, row: Seq<Seq<T>>)
    ensures
        flat_cells(cells.push(row)) == flat_cells(cells) + flat_row(row),
    decreases cells.len(),
{
    if cells.len() == 0 {
        assert(cells.push(row)[0] == row);
        assert(cells.push(row).skip(1) =~= Seq::<Seq<Seq<T>>>::empty());
        assert(flat_cells(Seq::<Seq<Seq<T>>>::empty()) == Seq::<T>::empty());
        assert(flat_cells(cells.push(row)) == flat_row(row) + flat_cells(
            Seq::<Seq<Seq<T>>>::empty(),
        ));
        assert(flat_cells(cells.push(row)) =~= flat_cells(cells) + flat_row(row));
    } else {
        lemma_flat_cells_snoc(cells.skip(1), row);
        assert(cells.push(row).skip(1) =~= cells.skip(1).push(row));
        assert(flat_cells(cells.push(row)) =~= flat_cells(cells) + flat_row(row));
    }
}

/// Pixel values of an image in HSV colorspace, held in exact fixed-point
/// integers: hue in hundredths of a degree (`0..36000`), saturation and value
/// in ten-thousandths (`0..=10000`).
pub type Hsv = ImageData<u16, 3>;

/// Pixel values of a grayscale image with an 8bit color depth.
pub type Grayscale = ImageData<u8, 1>;

/// Pixel values of a grayscale + alpha channel image with an 8bit color depth.
pub type GrayscaleAlpha = ImageData<u8, 2>;

/// Pixel values of an image in RGB colorspace with an 8bit color depth.
pub type Rgb = ImageData<u8, 3>;

/// Pixel values of an image in RGBA colorspace with an 8bit color depth.
pub type Rgba = ImageData<u8, 4>;

/// Pixel values of a grayscale image with 16bit color depth.
pub type Grayscale16 = ImageData<u16, 1>;

/// Pixel values of a grayscale + alpha channel image with 16bit color depth.
pub type GrayscaleAlpha16 = ImageData<u16, 2>;

/// Pixel values of an image in RGB colorspace with 16bit color depth.
pub type Rgb16 = ImageData<u16, 3>;

/// Pixel values of an image in RGBA colorspace with 16bit color depth.
pub type Rgba16 = ImageData<u16, 4>;

/// An image in one of the supported pixel formats, each wrapping the pixel
/// grid of the matching shape. This enum is the fundamental block to
/// represent an image: it holds the data required to perform any operation
/// on the image.
#[derive(Debug, Clone)]
pub enum Image {
    /// A grayscale image with an 8bit color depth.
    ImageGrayscale(Grayscale),
    /// A grayscale + alpha channel image with an 8bit color depth.
    ImageGrayscaleAlpha(GrayscaleAlpha),
    /// An image in RGB colorspace with an 8bit color depth.
    ImageRgb(Rgb),
    /// An image in RGBA colorspace with an 8bit color depth.
    ImageRgba(Rgba),
    /// A grayscale image with a 16bit color depth.
    ImageGrayscale16(Grayscale16),
    /// A grayscale + alpha channel image with a 16bit color depth.
    ImageGrayscaleAlpha16(GrayscaleAlpha16),
    /// An image in RGB colorspace with 16bit color depth.
    ImageRgb16(Rgb16),
    /// An image in RGBA colorspace with 16bit color depth.
    ImageRgba16(Rgba16),
    /// An image in the HSV colorspace (see [`Hsv`] for the fixed-point
    /// encoding). It cannot be written by the encode boundary.
    ImageHsv(Hsv),
}

/// The mathematical model of an [`Image`]: which format it holds, with the
/// grid's model.
#[verifier::ext_equal]
pub enum ImageView {
    /// Model of an 8bit grayscale image.
    Grayscale(GridView<u8>),
    /// Model of an 8bit grayscale + alpha image.
    GrayscaleAlpha(GridView<u8>),
    /// Model of an 8bit RGB image.
    Rgb(GridView<u8>),
    /// Model of an 8bit RGBA image.
    Rgba(GridView<u8>),
    /// Model of a 16bit grayscale image.
    Grayscale16(GridView<u16>),
    /// Model of a 16bit grayscale + alpha image.
    GrayscaleAlpha16(GridView<u16>),
    /// Model of a 16bit RGB image.
    Rgb16(GridView<u16>),
    /// Model of a 16bit RGBA image.
    Rgba16(GridView<u16>),
    /// Model of an HSV image in the fixed-point encoding.
    Hsv(GridView<u16>),
}

impl ImageView {
    /// Every format's grid is well-formed with its channel count.
    pub open spec fn wf(self) -> bool {
        match self {
            ImageView::Grayscale(g) => g.wf(1),
            ImageView::GrayscaleAlpha(g) => g.wf(2),
            ImageView::Rgb(g) => g.wf(3),
            ImageView::Rgba(g) => g.wf(4),
            ImageView::Grayscale16(g) => g.wf(1),
            ImageView::GrayscaleAlpha16(g) => g.wf(2),
            ImageView::Rgb16(g) => g.wf(3),
            ImageView::Rgba16(g) => g.wf(4),
            ImageView::Hsv(g) => g.wf(3),
        }
    }

    /// The name of the format, as `to_str` returns it.
    pub open spec fn format_name(self) -> Seq<char> {
        match self {
            ImageView::Grayscale(_) => "grayscale"@,
            ImageView::GrayscaleAlpha(_) => "grayscale_alpha"@,
            ImageView::Grayscale16(_) => "grayscale16"@,
            ImageView::GrayscaleAlpha16(_) => "grayscale_alpha16"@,
            ImageView::Rgb(_) => "rgb"@,
            ImageView::Rgb16(_) => "rgb16"@,
            ImageView::Rgba(_) => "rgba"@,
            ImageView::Rgba16(_) => "rgba16"@,
            ImageView::Hsv(_) => "hsv"@,
        }
    }
}

impl View for Image {
    type V = ImageView;

    open spec fn view(&self) -> ImageView {
        match self {
            Image::ImageGrayscale(g) => ImageView::Grayscale(g@),
            Image::ImageGrayscaleAlpha(g) => ImageView::GrayscaleAlpha(g@),
            Image::ImageRgb(g) => ImageView::Rgb(g@),
            Image::ImageRgba(g) => ImageView::Rgba(g@),
            Image::ImageGrayscale16(g) => ImageView::Grayscale16(g@),
            Image::ImageGrayscaleAlpha16(g) => ImageView::GrayscaleAlpha16(g@),
            Image::ImageRgb16(g) => ImageView::Rgb16(g@),
            Image::ImageRgba16(g) => ImageView::Rgba16(g@),
            Image::ImageHsv(g) => ImageView::Hsv(g@),
        }
    }
}

impl Image {
    /// The image's format, well-formed for its channel count.
    pub open spec fn wf(self) -> bool {
        self@.wf()
    }

    /// The name of the format the image holds.
    pub fn to_str(&self) -> (r: &'static str)
        ensures
            r@ == self@.format_name(),
    {
        match self {
            Image::ImageGrayscale(_) => "grayscale",
            Image::ImageGrayscaleAlpha(_) => "grayscale_alpha",
            Image::ImageGrayscale16(_) => "grayscale16",
            Image::ImageGrayscaleAlpha16(_) => "grayscale_alpha16",
            Image::ImageRgb(_) => "rgb",
            Image::ImageRgb16(_) => "rgb16",
            Image::ImageRgba(_) => "rgba",
            Image::ImageRgba16(_) => "rgba16",
            Image::ImageHsv(_) => "hsv",
        }
    }
}

/// Holds when the cell `b` can be an output of `f` on a pixel whose view is
/// the cell `a`: the relation a mapped grid's cells bear to its source's.
pub open spec fn cell_mapped<T, U, const N: usize, const M: usize, F: Fn([T; N]) -> [U; M]>(
    f: F,
    a: Seq<T>,
    b: Seq<U>,
) -> bool {
    exists|p: [T; N], q: [U; M]| p@ == a && q@ == b && #[trigger] call_ensures(f, (p,), q)
}

/// Applies `f` to every stored pixel, keeping the declared dimensions and
/// the storage's shape. Every output cell is an output of `f` on the
/// corresponding input cell: the result's cell views are pinned down by
/// whatever `f`'s contract pins down.
pub fn map_pixels<T: Copy, U, const N: usize, const M: usize, F: Fn([T; N]) -> [U; M]>(
    src: &ImageData<T, N>,
    f: F,
) -> (r: ImageData<U, M>)
    requires
        forall|p: [T; N]| #[trigger] call_requires(f, (p,)),
    ensures
        r@.width == src@.width,
        r@.height == src@.height,
        r@.cells.len() == src@.cells.len(),
        forall|y: int|
            0 <= y < src@.cells.len() ==> (#[trigger] r@.cells[y]).len() == src@.cells[y].len(),
        forall|y: int, x: int|
            #![trigger r@.cells[y][x]]
            0 <= y < src@.cells.len() && 0 <= x < src@.cells[y].len() ==> cell_mapped(
                f,
                src@.cells[y][x],
                r@.cells[y][x],
            ),
{
    let mut rows: Vec<Vec<[U; M]>> = Vec::new();
    let height = src.pixels.len();
    for y in 0..height
        invariant
            height == src.pixels@.len(),
            rows@.len() == y,
            forall|p: [T; N]| #[trigger] call_requires(f, (p,)),
            forall|yy: int|
                0 <= yy < y ==> (#[trigger] rows@[yy])@.len() == src.pixels@[yy]@.len(),
            forall|yy: int, xx: int|
                0 <= yy < y && 0 <= xx < src.pixels@[yy]@.len() ==> call_ensures(
                    f,
                    (src.pixels@[yy]@[xx],),
                    #[trigger] rows@[yy]@[xx],
                ),
    {
        let mut row: Vec<[U; M]> = Vec::new();
        let width = src.pixels[y].len();
        for x in 0..width
            invariant
                height == src.pixels@.len(),
                y < height,
                width == src.pixels@[y as int]@.len(),
                row@.len() == x,
                forall|p: [T; N]| #[trigger] call_requires(f, (p,)),
                forall|xx: int|
                    0 <= xx < x ==> call_ensures(
                        f,
                        (src.pixels@[y as int]@[xx],),
                        #[trigger] row@[xx],
                    ),
        {
            row.push(f(src.pixels[y][x]));
        }
        rows.push(row);
    }
    let r = ImageData { height: src.height, width: src.width, pixels: rows };
    proof {
        assert(src@.cells.len() == src.pixels@.len());
        assert forall|y: int, x: int|
            #![trigger r@.cells[y][x]]
            0 <= y < src@.cells.len() && 0 <= x < src@.cells[y].len() implies cell_mapped(
            f,
            src@.cells[y][x],
            r@.cells[y][x],
        ) by {
            assert(src@.cells[y].len() == src.pixels@[y]@.len());
            let p = src.pixels@[y]@[x];
            let q = r.pixels@[y]@[x];
            assert(p@ == src@.cells[y][x]);
            assert(q@ == r@.cells[y][x]);
            assert(call_ensures(f, (p,), q));
        }
    }
    r
}

} // verus!
