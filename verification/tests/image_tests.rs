//! Tests of the header sniffers: extension guessing and the PNG/JPEG
//! dimension scans, on hand-built buffers.

use vision_x::image::{dimension, extension, ColorType, ImageExt};

#[test]
fn extension_guesses() {
    assert_eq!(extension("images/png/lenna.png"), Some(ImageExt::PNG));
    assert_eq!(extension("a/b/photo.jpg"), Some(ImageExt::JPG));
    assert_eq!(extension("x.jpeg"), Some(ImageExt::JPG));
    assert_eq!(extension("x.jif"), Some(ImageExt::JPG));
    assert_eq!(extension("x.jpe"), Some(ImageExt::JPG));
    assert_eq!(extension("x.jfif"), Some(ImageExt::JPG));
    assert_eq!(extension("x.jfi"), Some(ImageExt::JPG));
    // the extension is trimmed and matched without regard to ASCII case
    assert_eq!(extension("x.PNG "), Some(ImageExt::PNG));
    assert_eq!(extension("x.JpG"), Some(ImageExt::JPG));
    assert_eq!(extension("x.txt"), None);
    assert_eq!(extension("noext"), None);
    assert_eq!(extension("dir/"), None);
}

#[test]
fn dimension_png_header() {
    // signature, then an IHDR chunk declaring 48 x 48
    let data: Vec<u8> = vec![
        137, 80, 78, 71, 13, 10, 26, 10, // signature
        0, 0, 0, 13, // chunk length
        73, 72, 68, 82, // IHDR
        0, 0, 0, 48, // width
        0, 0, 0, 48, // height
    ];
    let size = data.len();
    assert_eq!(dimension(&size, &data, &ImageExt::PNG), Some((48, 48)));
}

#[test]
fn dimension_png_skips_other_chunks() {
    // an empty chunk of another type stands before the IHDR
    let data: Vec<u8> = vec![
        137, 80, 78, 71, 13, 10, 26, 10, // signature
        0, 0, 0, 0, // first chunk: empty
        65, 66, 67, 68, // some other type
        0, 0, 0, 0, // its checksum
        0, 0, 0, 13, // second chunk length
        73, 72, 68, 82, // IHDR
        0, 0, 1, 44, // width 300
        0, 0, 0, 200, // height 200
    ];
    let size = data.len();
    assert_eq!(dimension(&size, &data, &ImageExt::PNG), Some((300, 200)));
}

#[test]
fn dimension_png_rejects_bad_buffers() {
    // wrong signature
    let bad_sig: Vec<u8> = vec![0, 80, 78, 71, 13, 10, 26, 10, 0, 0, 0, 0];
    let size = bad_sig.len();
    assert_eq!(dimension(&size, &bad_sig, &ImageExt::PNG), None);
    // too short for the signature
    let short: Vec<u8> = vec![137, 80];
    let size = short.len();
    assert_eq!(dimension(&size, &short, &ImageExt::PNG), None);
    // signature only: no IHDR found before the end
    let sig_only: Vec<u8> = vec![137, 80, 78, 71, 13, 10, 26, 10];
    let size = sig_only.len();
    assert_eq!(dimension(&size, &sig_only, &ImageExt::PNG), None);
}

#[test]
fn dimension_jpg_header() {
    // start marker, an application segment, then a start-of-frame
    // declaring 225 x 225
    let data: Vec<u8> = vec![
        255, 216, // start of image
        255, 224, 0, 4, 0, 0, // application segment, length 4
        255, 192, 0, 17, 8, // start of frame, precision 8
        0, 225, // height
        0, 225, // width
    ];
    let size = data.len();
    assert_eq!(dimension(&size, &data, &ImageExt::JPG), Some((225, 225)));
}

#[test]
fn dimension_jpg_rejects_bad_buffers() {
    // a byte that opens no segment
    let data: Vec<u8> = vec![255, 216, 0, 192, 0, 4, 0, 0];
    let size = data.len();
    assert_eq!(dimension(&size, &data, &ImageExt::JPG), None);
    // runs past the declared size without a start-of-frame
    let data: Vec<u8> = vec![255, 216, 255, 224, 0, 4, 0, 0];
    let size = data.len();
    assert_eq!(dimension(&size, &data, &ImageExt::JPG), None);
}

#[test]
fn color_type_tags_compare() {
    assert_eq!(ColorType::PNGRgb, ColorType::PNGRgb);
    assert_ne!(ColorType::PNGRgb, ColorType::JPEGRgb);
    assert_ne!(ColorType::PNGIndexed, ColorType::PNGGrayscale);
}
