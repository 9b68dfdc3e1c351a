//! Tests of the geometry transforms: resize dimensions and sampling, crop
//! size, content and rejection.

use vision_x::errors::VisionXErrorKind;
use vision_x::grid::ImageData;

fn numbered(width: u32, height: u32) -> ImageData<u8, 1> {
    let mut rows: Vec<Vec<[u8; 1]>> = Vec::new();
    for y in 0..height {
        let mut row: Vec<[u8; 1]> = Vec::new();
        for x in 0..width {
            row.push([(y * width + x) as u8]);
        }
        rows.push(row);
    }
    ImageData::new(width, height, rows)
}

// Resize dimension law: the result takes exactly the requested dimensions,
// whatever the source size.
#[test]
fn resize_dimensions() {
    let img = numbered(3, 2);
    let up = img.resize(2000, 1000);
    assert_eq!(*up.width(), 2000);
    assert_eq!(*up.height(), 1000);
    let down = img.resize(1, 1);
    assert_eq!(*down.width(), 1);
    assert_eq!(*down.height(), 1);
    let same = img.resize(3, 2);
    assert_eq!(*same.width(), 3);
    assert_eq!(*same.height(), 2);
    assert_eq!(same.flatten_pixels(), img.flatten_pixels());
}

#[test]
fn resize_upscale_repeats_blocks() {
    let img = numbered(2, 2);
    // each source pixel covers a 2x2 block of the destination
    let up = img.resize(4, 4);
    assert_eq!(
        up.flatten_pixels(),
        vec![
            0, 0, 1, 1,
            0, 0, 1, 1,
            2, 2, 3, 3,
            2, 2, 3, 3,
        ]
    );
}

#[test]
fn resize_downscale_drops_samples() {
    let img = numbered(4, 4);
    // the map x * 4 / 2 keeps columns and rows 0 and 2
    let down = img.resize(2, 2);
    assert_eq!(down.flatten_pixels(), vec![0, 2, 8, 10]);
}

#[test]
fn resize_from_empty_fills_zero() {
    let img: ImageData<u16, 3> = ImageData::new(0, 0, Vec::new());
    let up = img.resize(2, 1);
    assert_eq!(*up.width(), 2);
    assert_eq!(*up.height(), 1);
    assert_eq!(up.flatten_pixels(), vec![0, 0, 0, 0, 0, 0]);
}

#[test]
fn resize_and_crop_other_shapes() {
    // the transforms are generic over the pixel shape
    let rgba16: ImageData<u16, 4> = ImageData::new(
        2,
        1,
        vec![vec![[1, 2, 3, 4], [5, 6, 7, 8]]],
    );
    let up = rgba16.resize(4, 2);
    assert_eq!(*up.width(), 4);
    assert_eq!(*up.height(), 2);
    assert_eq!(up.get_pixel_at(0, 1), Some(&[1, 2, 3, 4]));
    assert_eq!(up.get_pixel_at(3, 0), Some(&[5, 6, 7, 8]));
    let cut = rgba16.crop((1, 0), (2, 1)).unwrap();
    assert_eq!(*cut.width(), 1);
    assert_eq!(*cut.height(), 1);
    assert_eq!(cut.get_pixel_at(0, 0), Some(&[5, 6, 7, 8]));
}

// Crop size law: a successful crop has the rectangle's dimensions and every
// cell of it equals the source cell the points name.
#[test]
fn crop_size_and_content() {
    let img = numbered(5, 5);
    let out = img.crop((1, 2), (4, 5)).unwrap();
    assert_eq!(*out.width(), 3);
    assert_eq!(*out.height(), 3);
    for j in 0..3usize {
        for i in 0..3usize {
            assert_eq!(out.get_pixel_at(i, j), img.get_pixel_at(1 + i, 2 + j));
        }
    }
}

#[test]
fn crop_full_frame() {
    let img = numbered(4, 3);
    let out = img.crop((0, 0), (4, 3)).unwrap();
    assert_eq!(*out.width(), 4);
    assert_eq!(*out.height(), 3);
    assert_eq!(out.flatten_pixels(), img.flatten_pixels());
}

// Crop boundary rejection: an empty rectangle, and one reaching outside the
// image, both fail with IndexOutofBound, reporting the points and the size.
#[test]
fn crop_rejects_bad_rectangles() {
    let img = numbered(8, 12);
    match img.crop((5, 5), (5, 10)) {
        Err(VisionXErrorKind::IndexOutofBound(report)) => {
            assert_eq!(report.x, 5);
            assert_eq!(report.y, 5);
            assert_eq!(report.x2, 5);
            assert_eq!(report.y2, 10);
            assert_eq!(report.width, 8);
            assert_eq!(report.height, 12);
        }
        other => panic!("expected IndexOutofBound, got {:?}", other.is_ok()),
    }
    match img.crop((0, 0), (9, 12)) {
        Err(VisionXErrorKind::IndexOutofBound(report)) => {
            assert_eq!(report.x2, 9);
            assert_eq!(report.width, 8);
        }
        other => panic!("expected IndexOutofBound, got {:?}", other.is_ok()),
    }
    match img.crop((0, 0), (8, 13)) {
        Err(VisionXErrorKind::IndexOutofBound(_)) => {}
        other => panic!("expected IndexOutofBound, got {:?}", other.is_ok()),
    }
    assert!(img.crop((0, 0), (8, 12)).is_ok());
}
