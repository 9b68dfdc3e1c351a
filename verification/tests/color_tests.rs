//! Tests of the colorspace conversions: the downcast and luma formulas,
//! RGB/HSV round trips, identity conversions, idempotence, and the
//! rejected sources.

use vision_x::errors::VisionXErrorKind;
use vision_x::grid::{Image, ImageData};

fn rgb_image(pixels: Vec<Vec<[u8; 3]>>) -> Image {
    let h = pixels.len() as u32;
    let w = if h > 0 { pixels[0].len() as u32 } else { 0 };
    Image::ImageRgb(ImageData::new(w, h, pixels))
}

// 16-to-8 downcast: round(sample / 65535 * 255), uniformly.
#[test]
fn downcast_formula() {
    assert_eq!(Image::downcast_8bit(65535), 255);
    assert_eq!(Image::downcast_8bit(0), 0);
    assert_eq!(Image::downcast_8bit(32768), 128);
    assert_eq!(Image::downcast_8bit(256), 1);
    assert_eq!(Image::downcast_8bit(128), 0);
}

#[test]
fn luma_formula() {
    assert_eq!(Image::rgb_to_gray([255, 0, 0]), [76]);
    assert_eq!(Image::rgb_to_gray([0, 255, 0]), [150]);
    assert_eq!(Image::rgb_to_gray([0, 0, 255]), [29]);
    assert_eq!(Image::rgb_to_gray([10, 20, 30]), [18]);
    assert_eq!(Image::rgb_to_gray([255, 255, 255]), [255]);
    assert_eq!(Image::rgb_to_gray([0, 0, 0]), [0]);
}

#[test]
fn rgb_to_hsv_formula() {
    assert_eq!(Image::rgb_to_hsv([255, 0, 0]), [0, 10000, 10000]);
    assert_eq!(Image::rgb_to_hsv([0, 255, 0]), [12000, 10000, 10000]);
    assert_eq!(Image::rgb_to_hsv([0, 0, 255]), [24000, 10000, 10000]);
    assert_eq!(Image::rgb_to_hsv([128, 128, 128]), [0, 0, 5020]);
    assert_eq!(Image::rgb_to_hsv([0, 0, 0]), [0, 0, 0]);
    assert_eq!(Image::rgb_to_hsv([10, 82, 38]), [14333, 8780, 3216]);
}

#[test]
fn hsv_to_rgb_formula() {
    assert_eq!(Image::hsv_to_rgb([0, 10000, 10000]), [255, 0, 0]);
    assert_eq!(Image::hsv_to_rgb([12000, 10000, 10000]), [0, 255, 0]);
    assert_eq!(Image::hsv_to_rgb([24000, 10000, 10000]), [0, 0, 255]);
    assert_eq!(Image::hsv_to_rgb([0, 0, 5020]), [128, 128, 128]);
    assert_eq!(Image::hsv_to_rgb([0, 0, 0]), [0, 0, 0]);
}

// Hue at or beyond a full turn falls into the documented fallback bucket;
// saturation and value beyond the fixed-point one are read as one.
#[test]
fn hsv_to_rgb_out_of_range() {
    assert_eq!(Image::hsv_to_rgb([36000, 10000, 10000]), [0, 0, 0]);
    assert_eq!(Image::hsv_to_rgb([65535, 10000, 10000]), [0, 0, 0]);
    assert_eq!(Image::hsv_to_rgb([0, 65535, 65535]), [255, 0, 0]);
}

// HSV round trip with the corrected formula: triples across the color cube
// come back within one per channel.
#[test]
fn hsv_rgb_round_trip() {
    let samples: [[u8; 3]; 10] = [
        [255, 0, 0],
        [0, 255, 0],
        [0, 0, 255],
        [128, 128, 128],
        [0, 0, 0],
        [255, 255, 255],
        [10, 82, 38],
        [200, 150, 100],
        [1, 2, 3],
        [254, 1, 128],
    ];
    for rgb in samples.iter() {
        let back = Image::hsv_to_rgb(Image::rgb_to_hsv(*rgb));
        for c in 0..3 {
            let want = rgb[c] as i32;
            let got = back[c] as i32;
            assert!(
                (want - got).abs() <= 1,
                "channel {} of {:?} came back as {:?}",
                c,
                rgb,
                back
            );
        }
    }
    // and a sweep across the whole cube on a coarse lattice
    let lattice: [u8; 8] = [0, 1, 63, 127, 128, 201, 254, 255];
    for &r in lattice.iter() {
        for &g in lattice.iter() {
            for &b in lattice.iter() {
                let back = Image::hsv_to_rgb(Image::rgb_to_hsv([r, g, b]));
                let orig = [r, g, b];
                for c in 0..3 {
                    let want = orig[c] as i32;
                    let got = back[c] as i32;
                    assert!(
                        (want - got).abs() <= 1,
                        "channel {} of {:?} came back as {:?}",
                        c,
                        orig,
                        back
                    );
                }
            }
        }
    }
}

// Round-trip identity: converting an RGB image to RGB copies it losslessly.
#[test]
fn rgb_identity_round_trip() {
    let img = rgb_image(vec![
        vec![[1, 2, 3], [4, 5, 6]],
        vec![[250, 251, 252], [7, 8, 9]],
    ]);
    let out = img.rgb().unwrap();
    match (&img, &out) {
        (Image::ImageRgb(a), Image::ImageRgb(b)) => {
            assert_eq!(*a.width(), *b.width());
            assert_eq!(*a.height(), *b.height());
            assert_eq!(a.flatten_pixels(), b.flatten_pixels());
        }
        _ => panic!("rgb of an RGB image must stay RGB"),
    }
}

// Round-trip identity: converting an HSV image to HSV copies it losslessly.
#[test]
fn hsv_identity_round_trip() {
    let grid: ImageData<u16, 3> = ImageData::new(
        2,
        1,
        vec![vec![[12000, 5000, 5000], [35999, 10000, 1]]],
    );
    let img = Image::ImageHsv(grid);
    let out = img.hsv().unwrap();
    match (&img, &out) {
        (Image::ImageHsv(a), Image::ImageHsv(b)) => {
            assert_eq!(*a.width(), *b.width());
            assert_eq!(*a.height(), *b.height());
            assert_eq!(a.flatten_pixels(), b.flatten_pixels());
        }
        _ => panic!("hsv of an HSV image must stay HSV"),
    }
}

#[test]
fn grayscale_every_source() {
    // identity copy
    let g = Image::ImageGrayscale(ImageData::new(1, 1, vec![vec![[42]]]));
    match g.grayscale() {
        Image::ImageGrayscale(out) => assert_eq!(out.flatten_pixels(), vec![42]),
        _ => panic!("grayscale must produce a grayscale image"),
    }
    // alpha dropped
    let ga = Image::ImageGrayscaleAlpha(ImageData::new(1, 1, vec![vec![[7, 200]]]));
    match ga.grayscale() {
        Image::ImageGrayscale(out) => assert_eq!(out.flatten_pixels(), vec![7]),
        _ => panic!("grayscale must produce a grayscale image"),
    }
    // 16-bit samples rescaled by the canonical formula
    let g16 = Image::ImageGrayscale16(ImageData::new(1, 1, vec![vec![[32768]]]));
    match g16.grayscale() {
        Image::ImageGrayscale(out) => assert_eq!(out.flatten_pixels(), vec![128]),
        _ => panic!("grayscale must produce a grayscale image"),
    }
    let ga16 = Image::ImageGrayscaleAlpha16(ImageData::new(1, 1, vec![vec![[65535, 1]]]));
    match ga16.grayscale() {
        Image::ImageGrayscale(out) => assert_eq!(out.flatten_pixels(), vec![255]),
        _ => panic!("grayscale must produce a grayscale image"),
    }
    // luma of RGB, alpha ignored
    let rgb = rgb_image(vec![vec![[255, 0, 0], [10, 20, 30]]]);
    match rgb.grayscale() {
        Image::ImageGrayscale(out) => assert_eq!(out.flatten_pixels(), vec![76, 18]),
        _ => panic!("grayscale must produce a grayscale image"),
    }
    let rgba = Image::ImageRgba(ImageData::new(1, 1, vec![vec![[255, 0, 0, 9]]]));
    match rgba.grayscale() {
        Image::ImageGrayscale(out) => assert_eq!(out.flatten_pixels(), vec![76]),
        _ => panic!("grayscale must produce a grayscale image"),
    }
    // 16-bit RGB: downcast first, then luma
    let rgb16 = Image::ImageRgb16(ImageData::new(1, 1, vec![vec![[65535, 0, 0]]]));
    match rgb16.grayscale() {
        Image::ImageGrayscale(out) => assert_eq!(out.flatten_pixels(), vec![76]),
        _ => panic!("grayscale must produce a grayscale image"),
    }
    let rgba16 = Image::ImageRgba16(ImageData::new(1, 1, vec![vec![[0, 65535, 0, 3]]]));
    match rgba16.grayscale() {
        Image::ImageGrayscale(out) => assert_eq!(out.flatten_pixels(), vec![150]),
        _ => panic!("grayscale must produce a grayscale image"),
    }
    // HSV components read as pre-scaled 16-bit channels
    let hsv = Image::ImageHsv(ImageData::new(1, 1, vec![vec![[65535, 65535, 65535]]]));
    match hsv.grayscale() {
        Image::ImageGrayscale(out) => assert_eq!(out.flatten_pixels(), vec![255]),
        _ => panic!("grayscale must produce a grayscale image"),
    }
}

// Grayscale idempotence: a second conversion changes nothing, whatever the
// source format was.
#[test]
fn grayscale_idempotent() {
    let sources = vec![
        rgb_image(vec![vec![[255, 0, 0], [10, 82, 38]], vec![[1, 2, 3], [9, 9, 9]]]),
        Image::ImageGrayscaleAlpha16(ImageData::new(2, 1, vec![vec![[32768, 1], [65535, 2]]])),
        Image::ImageHsv(ImageData::new(1, 1, vec![vec![[36000, 10000, 10000]]])),
    ];
    for img in sources {
        let once = img.grayscale();
        let twice = once.grayscale();
        match (&once, &twice) {
            (Image::ImageGrayscale(a), Image::ImageGrayscale(b)) => {
                assert_eq!(*a.width(), *b.width());
                assert_eq!(*a.height(), *b.height());
                assert_eq!(a.flatten_pixels(), b.flatten_pixels());
            }
            _ => panic!("grayscale must produce a grayscale image"),
        }
    }
}

#[test]
fn rgb_conversions() {
    // alpha dropped
    let rgba = Image::ImageRgba(ImageData::new(1, 1, vec![vec![[1, 2, 3, 200]]]));
    match rgba.rgb().unwrap() {
        Image::ImageRgb(out) => assert_eq!(out.flatten_pixels(), vec![1, 2, 3]),
        _ => panic!("rgb must produce an RGB image"),
    }
    // 16-bit channels downcast
    let rgb16 = Image::ImageRgb16(ImageData::new(1, 1, vec![vec![[65535, 0, 32768]]]));
    match rgb16.rgb().unwrap() {
        Image::ImageRgb(out) => assert_eq!(out.flatten_pixels(), vec![255, 0, 128]),
        _ => panic!("rgb must produce an RGB image"),
    }
    let rgba16 = Image::ImageRgba16(ImageData::new(1, 1, vec![vec![[65535, 0, 32768, 77]]]));
    match rgba16.rgb().unwrap() {
        Image::ImageRgb(out) => assert_eq!(out.flatten_pixels(), vec![255, 0, 128]),
        _ => panic!("rgb must produce an RGB image"),
    }
    // HSV converted back by the six-sector table
    let hsv = Image::ImageHsv(ImageData::new(1, 1, vec![vec![[12000, 10000, 10000]]]));
    match hsv.rgb().unwrap() {
        Image::ImageRgb(out) => assert_eq!(out.flatten_pixels(), vec![0, 255, 0]),
        _ => panic!("rgb must produce an RGB image"),
    }
}

#[test]
fn rgb_rejects_grayscale_sources() {
    let g = Image::ImageGrayscale(ImageData::new(1, 1, vec![vec![[1]]]));
    match g.rgb() {
        Err(VisionXErrorKind::InvalidColorType(report)) => {
            assert_eq!(report.source, "grayscale");
            assert_eq!(report.target, "rgb");
        }
        other => panic!("expected InvalidColorType, got {:?}", other.map(|i| i.to_str())),
    }
    let ga16 = Image::ImageGrayscaleAlpha16(ImageData::new(1, 1, vec![vec![[1, 2]]]));
    match ga16.rgb() {
        Err(VisionXErrorKind::InvalidColorType(report)) => {
            assert_eq!(report.source, "grayscale_alpha16");
            assert_eq!(report.target, "rgb");
        }
        other => panic!("expected InvalidColorType, got {:?}", other.map(|i| i.to_str())),
    }
}

#[test]
fn hsv_conversions_and_rejections() {
    let rgb = rgb_image(vec![vec![[255, 0, 0]]]);
    match rgb.hsv().unwrap() {
        Image::ImageHsv(out) => assert_eq!(out.flatten_pixels(), vec![0, 10000, 10000]),
        _ => panic!("hsv must produce an HSV image"),
    }
    let rgba = Image::ImageRgba(ImageData::new(1, 1, vec![vec![[0, 255, 0, 9]]]));
    match rgba.hsv().unwrap() {
        Image::ImageHsv(out) => assert_eq!(out.flatten_pixels(), vec![12000, 10000, 10000]),
        _ => panic!("hsv must produce an HSV image"),
    }
    let rgb16 = Image::ImageRgb16(ImageData::new(1, 1, vec![vec![[65535, 0, 0]]]));
    match rgb16.hsv().unwrap() {
        Image::ImageHsv(out) => assert_eq!(out.flatten_pixels(), vec![0, 10000, 10000]),
        _ => panic!("hsv must produce an HSV image"),
    }
    let g = Image::ImageGrayscale(ImageData::new(1, 1, vec![vec![[1]]]));
    match g.hsv() {
        Err(VisionXErrorKind::InvalidColorType(report)) => {
            assert_eq!(report.source, "grayscale");
            assert_eq!(report.target, "hsv");
        }
        other => panic!("expected InvalidColorType, got {:?}", other.map(|i| i.to_str())),
    }
}
