use std::io::Cursor;

use wplace_core::color::Color;
use wplace_core::color::Rgba;
use wplace_core::image_data::ImageData;
use wplace_core::image_data::ImageDataError;

fn rgba(r: u8, g: u8, b: u8, a: u8) -> Rgba {
    Rgba { r, g, b, a }
}

fn transparent() -> Rgba {
    rgba(0, 0, 0, 0)
}

fn png_bytes(width: u32, height: u32, pixels: &[Rgba]) -> Vec<u8> {
    let mut raw: Vec<u8> = Vec::new();
    for p in pixels {
        raw.extend_from_slice(&[p.r, p.g, p.b, p.a]);
    }
    let img = image::RgbaImage::from_raw(width, height, raw).unwrap();
    let mut out: Vec<u8> = Vec::new();
    image::DynamicImage::ImageRgba8(img)
        .write_to(&mut Cursor::new(&mut out), image::ImageFormat::Png)
        .unwrap();
    out
}

#[test]
fn all_transparent_image_loads_with_empty_histogram() {
    let pixels = vec![transparent(); 6];
    let img = ImageData::new(3, 2, pixels).unwrap();
    assert_eq!(img.get_width(), 3);
    assert_eq!(img.get_height(), 2);
    assert_eq!(img.get_total_px(), 0);
    assert!(img.get_color_counts().iter().all(|&c| c == 0));
    assert!(img.get_colors().is_empty());
}

#[test]
fn off_palette_pixel_is_reported_with_position_and_bytes() {
    // a 5x5 image with one bad pixel at (3, 4)
    let mut pixels = vec![transparent(); 25];
    pixels[4 * 5 + 3] = rgba(1, 2, 3, 255);
    let err = ImageData::new(5, 5, pixels).unwrap_err();
    match err {
        ImageDataError::InvalidColor { x, y, rgba: bad } => {
            assert_eq!((x, y), (3, 4));
            assert_eq!((bad.r, bad.g, bad.b, bad.a), (1, 2, 3, 255));
        }
        other => panic!("expected InvalidColor, got {:?}", other),
    }
}

#[test]
fn first_offending_pixel_wins() {
    let mut pixels = vec![transparent(); 4];
    pixels[1] = rgba(9, 9, 9, 255);
    pixels[3] = rgba(7, 7, 7, 255);
    let err = ImageData::new(2, 2, pixels).unwrap_err();
    match err {
        ImageDataError::InvalidColor { x, y, .. } => assert_eq!((x, y), (1, 0)),
        other => panic!("expected InvalidColor, got {:?}", other),
    }
}

#[test]
fn zero_dimensions_are_rejected_in_order() {
    let err = ImageData::new(0, 5, Vec::new()).unwrap_err();
    assert!(matches!(err, ImageDataError::InvalidWidth));
    let err = ImageData::new(5, 0, Vec::new()).unwrap_err();
    assert!(matches!(err, ImageDataError::InvalidHeight));
    let err = ImageData::new(0, 0, Vec::new()).unwrap_err();
    assert!(matches!(err, ImageDataError::InvalidWidth));
}

#[test]
fn histogram_counts_opaque_pixels_per_color() {
    let red = Color::Red.encode();
    let black = Color::Black.encode();
    let pixels = vec![red, black, red, transparent(), red, black];
    let img = ImageData::new(3, 2, pixels).unwrap();
    assert_eq!(img.get_color_count(Color::Red), 3);
    assert_eq!(img.get_color_count(Color::Black), 2);
    assert_eq!(img.get_color_count(Color::White), 0);
    assert_eq!(img.get_total_px(), 5);
    let colors = img.get_colors();
    assert_eq!(colors, vec![Color::Black, Color::Red]);
}

#[test]
fn png_round_trip_decodes_to_the_same_pixels() {
    let red = Color::Red.encode();
    let white = Color::White.encode();
    let pixels = vec![red, white, transparent(), red];
    let bytes = png_bytes(2, 2, &pixels);
    let img = ImageData::from_png_bytes(&bytes).unwrap();
    assert_eq!(img.get_width(), 2);
    assert_eq!(img.get_height(), 2);
    assert_eq!(img.get_pixels().as_slice(), pixels.as_slice());
    assert_eq!(img.get_total_px(), 3);
}

#[test]
fn png_with_transparent_pixels_only_is_empty() {
    let pixels = vec![transparent(); 4];
    let bytes = png_bytes(2, 2, &pixels);
    let img = ImageData::from_png_bytes(&bytes).unwrap();
    assert_eq!(img.get_total_px(), 0);
}

#[test]
fn png_with_off_palette_pixel_fails_at_that_pixel() {
    let mut pixels = vec![transparent(); 25];
    pixels[4 * 5 + 3] = rgba(1, 2, 3, 255);
    let bytes = png_bytes(5, 5, &pixels);
    let err = ImageData::from_png_bytes(&bytes).unwrap_err();
    match err {
        ImageDataError::InvalidColor { x, y, rgba: bad } => {
            assert_eq!((x, y), (3, 4));
            assert_eq!((bad.r, bad.g, bad.b, bad.a), (1, 2, 3, 255));
        }
        other => panic!("expected InvalidColor, got {:?}", other),
    }
}

#[test]
fn garbage_bytes_fail_with_an_image_error() {
    let err = ImageData::from_png_bytes(&[1, 2, 3, 4, 5]).unwrap_err();
    assert!(matches!(err, ImageDataError::ImageError(_)));
}

#[test]
fn get_pixel_reads_row_major() {
    let red = Color::Red.encode();
    let black = Color::Black.encode();
    let pixels = vec![red, black, black, red, red, red];
    let img = ImageData::new(3, 2, pixels).unwrap();
    assert_eq!(img.get_pixel(0, 0), red);
    assert_eq!(img.get_pixel(1, 0), black);
    assert_eq!(img.get_pixel(0, 1), red);
    assert_eq!(img.get_pixel(2, 1), red);
}
