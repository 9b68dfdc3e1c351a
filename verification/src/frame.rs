//! Frame-size manipulation: nearest-neighbor resizing and rectangular
//! cropping, generic over any pixel shape.

use crate::errors::{CoordReport, VisionXErrorKind, VisionXResult};
use crate::grid::{cells_of, Channel, GridView, ImageData};
use vstd::prelude::*;

verus! {

broadcast use vstd::array::group_array_axioms;

/// The cell a resized grid holds at `(y, x)`: the source cell the
/// nearest-neighbor map `(x * old_width / new_width, y * old_height /
/// new_height)` picks, or the all-zero cell when the map leaves the source
/// (possible only for a source with a zero dimension).
pub open spec fn resize_cell<T: Channel>(
    g: GridView<T>,
    n: nat,
    w: int,
    h: int,
    y: int,
    x: int,
) -> Seq<T> {
    let ox = x * g.width / w;
    let oy = y * g.height / h;
    if ox < g.width && oy < g.height {
        g.cells[oy][ox]
    } else {
        Seq::new(n, |i: int| T::zero_spec())
    }
}

/// Bounds for the nearest-neighbor coordinate map: scaling a coordinate
/// `x < w` into a source span `sw` by `x * sw / w` never leaves the span,
/// and the product stays within machine range for 32-bit inputs.
proof fn lemma_scale_bound(x: int, sw: int, w: int)
    requires
        0 <= x < w,
        0 <= sw,
        x <= 0xFFFF_FFFF,
        sw <= 0xFFFF_FFFF,
    ensures
        0 <= x * sw <= 0xFFFF_FFFF * 0xFFFF_FFFF,
        x * sw / w <= sw,
{
    assert(0 <= x * sw && x * sw <= 0xFFFF_FFFF * 0xFFFF_FFFF) by (nonlinear_arith)
        requires
            0 <= x <= 0xFFFF_FFFF,
            0 <= sw <= 0xFFFF_FFFF,
    ;
    if sw > 0 {
        assert(x * sw < w * sw) by (nonlinear_arith)
            requires
                x < w,
                sw > 0,
        ;
        vstd::arithmetic::div_mod::lemma_multiply_divide_lt(x * sw, w, sw);
    } else {
        assert(x * sw == 0) by (nonlinear_arith)
            requires
                sw == 0,
        ;
        vstd::arithmetic::div_mod::lemma_div_pos_is_pos(x * sw, w);
        vstd::arithmetic::div_mod::lemma_div_nonincreasing(x * sw, w);
    }
}

impl<T: Channel, const N: usize> ImageData<T, N> {
    /// Creates a copy of the image resized to the given dimensions by
    /// nearest-neighbor resampling: each destination pixel copies the source
    /// pixel at `(x * old_width / width, y * old_height / height)`.
    /// Upscaling repeats pixels blockily and downscaling drops samples; both
    /// are the documented behavior of this resampler.
    pub fn resize(&self, width: u32, height: u32) -> (r: Self)
        requires
            self.wf(),
        ensures
            r.wf(),
            r@.width == width,
            r@.height == height,
            forall|y: int, x: int|
                #![trigger r@.cells[y][x]]
                0 <= y < height && 0 <= x < width ==> r@.cells[y][x] == resize_cell(
                    self@,
                    N as nat,
                    width as int,
                    height as int,
                    y,
                    x,
                ),
    {
        let sw = *self.width();
        let sh = *self.height();
        let zero_px: [T; N] = [T::zero();N];
        proof {
            assert(zero_px@ =~= Seq::new(N as nat, |i: int| T::zero_spec()));
        }
        let mut rows: Vec<Vec<[T; N]>> = Vec::new();
        for y in 0..height
            invariant
                self.wf(),
                sw == self@.width,
                sh == self@.height,
                zero_px@ == Seq::new(N as nat, |i: int| T::zero_spec()),
                rows@.len() == y,
                forall|yy: int| 0 <= yy < y ==> (#[trigger] rows@[yy])@.len() == width,
                forall|yy: int, xx: int|
                    #![trigger rows@[yy]@[xx]]
                    0 <= yy < y && 0 <= xx < width ==> rows@[yy]@[xx]@ == resize_cell(
                        self@,
                        N as nat,
                        width as int,
                        height as int,
                        yy,
                        xx,
                    ),
        {
            let mut row: Vec<[T; N]> = Vec::new();
            proof {
                lemma_scale_bound(y as int, sh as int, height as int);
            }
            let oy = (y as u64 * sh as u64 / height as u64) as usize;
            for x in 0..width
                invariant
                    self.wf(),
                    sw == self@.width,
                    sh == self@.height,
                    zero_px@ == Seq::new(N as nat, |i: int| T::zero_spec()),
                    y < height,
                    oy == y as int * sh as int / height as int,
                    row@.len() == x,
                    forall|xx: int|
                        #![trigger row@[xx]]
                        0 <= xx < x ==> row@[xx]@ == resize_cell(
                            self@,
                            N as nat,
                            width as int,
                            height as int,
                            y as int,
                            xx,
                        ),
            {
                proof {
                    lemma_scale_bound(x as int, sw as int, width as int);
                }
                let ox = (x as u64 * sw as u64 / width as u64) as usize;
                match self.get_pixel_at(ox, oy) {
                    Some(pixel) => row.push(*pixel),
                    None => row.push(zero_px),
                }
            }
            rows.push(row);
        }
        let r = ImageData::new(width, height, rows);
        proof {
            assert forall|y: int, x: int|
                #![trigger r@.cells[y][x]]
                0 <= y < height && 0 <= x < width implies r@.cells[y][x] == resize_cell(
                self@,
                N as nat,
                width as int,
                height as int,
                y,
                x,
            ) by {
                assert(r@.cells[y] == cells_of(rows@)[y]);
                assert(r@.cells[y][x] == rows@[y]@[x]@);
            }
        }
        r
    }

    /// Extracts the sub-rectangle from the inclusive top-left `point1` to
    /// the exclusive bottom-right `point2` as a new grid, all-or-nothing:
    /// when the rectangle is empty or reaches outside the image, the crop
    /// fails with `IndexOutofBound` reporting both points and the image's
    /// size, and nothing is extracted.
    pub fn crop(&self, point1: (u32, u32), point2: (u32, u32)) -> (r: VisionXResult<Self>)
        requires
            self.wf(),
        ensures
            (point1.0 < point2.0 && point1.1 < point2.1 && point2.0 <= self@.width && point2.1
                <= self@.height) <==> r is Ok,
            r is Ok ==> r->Ok_0.wf() && r->Ok_0@.width == point2.0 - point1.0 && r->Ok_0@.height
                == point2.1 - point1.1,
            r is Ok ==> forall|y: int, x: int|
                #![trigger r->Ok_0@.cells[y][x]]
                0 <= y < point2.1 - point1.1 && 0 <= x < point2.0 - point1.0
                    ==> r->Ok_0@.cells[y][x] == self@.cells[point1.1 + y][point1.0 + x],
            r is Err ==> r == Err::<Self, VisionXErrorKind>(
                VisionXErrorKind::IndexOutofBound(
                    CoordReport {
                        x: point1.0 as u64,
                        y: point1.1 as u64,
                        x2: point2.0 as u64,
                        y2: point2.1 as u64,
                        width: self@.width as u32,
                        height: self@.height as u32,
                    },
                ),
            ),
    {
        let w = *self.width();
        let h = *self.height();
        if point1.0 < point2.0 && point1.1 < point2.1 && point2.0 <= w && point2.1 <= h {
            let new_width = point2.0 - point1.0;
            let new_height = point2.1 - point1.1;
            let mut rows: Vec<Vec<[T; N]>> = Vec::new();
            for y in point1.1..point2.1
                invariant
                    self.wf(),
                    w == self@.width,
                    h == self@.height,
                    point1.0 < point2.0 && point1.1 < point2.1,
                    point2.0 <= w && point2.1 <= h,
                    new_width == point2.0 - point1.0,
                    new_height == point2.1 - point1.1,
                    rows@.len() == y - point1.1,
                    forall|yy: int| 0 <= yy < rows@.len() ==> (#[trigger] rows@[yy])@.len()
                        == new_width,
                    forall|yy: int, xx: int|
                        #![trigger rows@[yy]@[xx]]
                        0 <= yy < rows@.len() && 0 <= xx < new_width ==> rows@[yy]@[xx]@
                            == self@.cells[point1.1 + yy][point1.0 + xx],
            {
                let mut row: Vec<[T; N]> = Vec::new();
                for x in point1.0..point2.0
                    invariant
                        self.wf(),
                        w == self@.width,
                        h == self@.height,
                        point1.1 <= y < point2.1 && point2.1 <= h,
                        point1.0 < point2.0 && point2.0 <= w,
                        row@.len() == x - point1.0,
                        forall|xx: int|
                            #![trigger row@[xx]]
                            0 <= xx < row@.len() ==> row@[xx]@ == self@.cells[y as int][point1.0
                                + xx],
                {
                    match self.get_pixel_at(x as usize, y as usize) {
                        Some(pixel) => row.push(*pixel),
                        None => {
                            proof {
                                assert(false);
                            }
                        },
                    }
                }
                rows.push(row);
            }
            let cropped = ImageData::new(new_width, new_height, rows);
            proof {
                assert forall|y: int, x: int|
                    #![trigger cropped@.cells[y][x]]
                    0 <= y < new_height && 0 <= x < new_width implies cropped@.cells[y][x]
                    == self@.cells[point1.1 + y][point1.0 + x] by {
                    assert(cropped@.cells[y] == cells_of(rows@)[y]);
                    assert(cropped@.cells[y][x] == rows@[y]@[x]@);
                }
            }
            Ok(cropped)
        } else {
            let err = CoordReport {
                x: point1.0 as u64,
                y: point1.1 as u64,
                x2: point2.0 as u64,
                y2: point2.1 as u64,
                width: w,
                height: h,
            };
            Err(VisionXErrorKind::IndexOutofBound(err))
        }
    }
}

} // verus!
