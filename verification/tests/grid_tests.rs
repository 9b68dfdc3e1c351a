//! Tests of the pixel grid: accessors, bounds checking and flattening.

use vision_x::errors::VisionXErrorKind;
use vision_x::grid::{Image, ImageData};

#[test]
fn new_and_getters() {
    let pixels: Vec<Vec<[u8; 3]>> = vec![
        vec![[1, 2, 3], [4, 5, 6]],
        vec![[7, 8, 9], [10, 11, 12]],
    ];
    let img: ImageData<u8, 3> = ImageData::new(2, 2, pixels.clone());
    assert_eq!(*img.width(), 2);
    assert_eq!(*img.height(), 2);
    assert_eq!(*img.pixels(), pixels);
}

#[test]
fn setters_update_fields() {
    let pixels: Vec<Vec<[u8; 1]>> = vec![vec![[9]]];
    let mut img: ImageData<u8, 1> = ImageData::new(1, 1, pixels);
    img.set_width(120);
    img.set_height(80);
    assert_eq!(*img.width(), 120);
    assert_eq!(*img.height(), 80);
    img.set_pixels(vec![vec![[1], [2]], vec![[3], [4]]]);
    img.set_width(2);
    img.set_height(2);
    assert_eq!(img.get_pixel_at(1, 1), Some(&[4u8]));
}

// Index accessors: get returns None outside the declared dimensions; set
// fails with IndexOutofBound there and leaves the grid unmodified.
#[test]
fn pixel_get_set_bounds() {
    let pixels: Vec<Vec<[u8; 1]>> = vec![
        vec![[0], [1], [2]],
        vec![[3], [4], [5]],
    ];
    let mut img: ImageData<u8, 1> = ImageData::new(3, 2, pixels);

    assert_eq!(img.get_pixel_at(0, 0), Some(&[0u8]));
    assert_eq!(img.get_pixel_at(2, 1), Some(&[5u8]));
    assert_eq!(img.get_pixel_at(3, 0), None);
    assert_eq!(img.get_pixel_at(0, 2), None);
    assert_eq!(img.get_pixel_at(3, 2), None);

    assert!(img.set_pixel_at(1, 1, [128]).is_ok());
    assert_eq!(img.get_pixel_at(1, 1), Some(&[128u8]));

    let err = img.set_pixel_at(3, 1, [255]).unwrap_err();
    match err {
        VisionXErrorKind::IndexOutofBound(report) => {
            assert_eq!(report.x, 3);
            assert_eq!(report.y, 1);
            assert_eq!(report.width, 3);
            assert_eq!(report.height, 2);
        }
        other => panic!("wrong error kind: {:?}", other),
    }
    // the failed write left every pixel as it was
    assert_eq!(img.get_pixel_at(0, 0), Some(&[0u8]));
    assert_eq!(img.get_pixel_at(1, 1), Some(&[128u8]));
    assert_eq!(img.get_pixel_at(2, 1), Some(&[5u8]));
}

#[test]
fn flatten_row_major() {
    let pixels: Vec<Vec<[u8; 3]>> = vec![
        vec![[1, 2, 3], [4, 5, 6]],
        vec![[7, 8, 9], [10, 11, 12]],
    ];
    let img: ImageData<u8, 3> = ImageData::new(2, 2, pixels);
    assert_eq!(img.flatten_pixels(), vec![1, 2, 3, 4, 5, 6, 7, 8, 9, 10, 11, 12]);
}

#[test]
fn flatten_empty() {
    let img: ImageData<u8, 1> = ImageData::new(0, 0, Vec::new());
    assert_eq!(img.flatten_pixels(), Vec::<u8>::new());
}

#[test]
fn to_str_names() {
    let g8: ImageData<u8, 1> = ImageData::new(0, 0, Vec::new());
    let ga8: ImageData<u8, 2> = ImageData::new(0, 0, Vec::new());
    let rgb8: ImageData<u8, 3> = ImageData::new(0, 0, Vec::new());
    let rgba8: ImageData<u8, 4> = ImageData::new(0, 0, Vec::new());
    let g16: ImageData<u16, 1> = ImageData::new(0, 0, Vec::new());
    let ga16: ImageData<u16, 2> = ImageData::new(0, 0, Vec::new());
    let rgb16: ImageData<u16, 3> = ImageData::new(0, 0, Vec::new());
    let rgba16: ImageData<u16, 4> = ImageData::new(0, 0, Vec::new());
    let hsv: ImageData<u16, 3> = ImageData::new(0, 0, Vec::new());
    assert_eq!(Image::ImageGrayscale(g8).to_str(), "grayscale");
    assert_eq!(Image::ImageGrayscaleAlpha(ga8).to_str(), "grayscale_alpha");
    assert_eq!(Image::ImageRgb(rgb8).to_str(), "rgb");
    assert_eq!(Image::ImageRgba(rgba8).to_str(), "rgba");
    assert_eq!(Image::ImageGrayscale16(g16).to_str(), "grayscale16");
    assert_eq!(Image::ImageGrayscaleAlpha16(ga16).to_str(), "grayscale_alpha16");
    assert_eq!(Image::ImageRgb16(rgb16).to_str(), "rgb16");
    assert_eq!(Image::ImageRgba16(rgba16).to_str(), "rgba16");
    assert_eq!(Image::ImageHsv(hsv).to_str(), "hsv");
}
