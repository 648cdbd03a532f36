use std::io::Cursor;

use wplace_core::color::Color;
use wplace_core::color::Rgba;
use wplace_core::image_data::ImageDataError;
use wplace_core::mosaic::MosaicTile;
use wplace_core::mosaic::TileImage;
use wplace_core::mosaic::TileImageError;
use wplace_core::mosaic::from_tiles;
use wplace_core::mosaic::stitch_region;
use wplace_core::tile_coords::TileCoords;

/// A tile whose every pixel records its own tile and local position.
fn marked_tile(tile_x: u16, tile_y: u16) -> MosaicTile {
    let mut pixels = Vec::with_capacity(1_000_000);
    for ly in 0u32..1000 {
        for lx in 0u32..1000 {
            pixels.push(Rgba {
                r: tile_x as u8,
                g: tile_y as u8,
                b: (lx % 256) as u8,
                a: (ly % 256) as u8,
            });
        }
    }
    MosaicTile { tile_x, tile_y, image: TileImage::new(pixels).unwrap() }
}

#[test]
fn rectangle_inside_one_tile_matches_that_slice() {
    let tiles = vec![marked_tile(5, 9)];
    let top_left = TileCoords::new(5, 9, 100, 200);
    let buf = stitch_region(&top_left, 4, 3, &tiles).unwrap();
    assert_eq!(buf.len(), 12);
    for j in 0u32..3 {
        for i in 0u32..4 {
            let p = buf[(j * 4 + i) as usize];
            assert_eq!(p.r, 5);
            assert_eq!(p.g, 9);
            assert_eq!(p.b, ((100 + i) % 256) as u8);
            assert_eq!(p.a, ((200 + j) % 256) as u8);
        }
    }
}

#[test]
fn rectangle_spanning_two_by_two_tiles_has_no_seams() {
    let tiles = vec![
        marked_tile(5, 5),
        marked_tile(6, 5),
        marked_tile(5, 6),
        marked_tile(6, 6),
    ];
    let top_left = TileCoords::new(5, 5, 990, 995);
    let width = 20u16;
    let height = 10u16;
    let buf = stitch_region(&top_left, width, height, &tiles).unwrap();
    assert_eq!(buf.len(), 200);
    for j in 0u32..height as u32 {
        for i in 0u32..width as u32 {
            let gx = 5 * 1000 + 990 + i;
            let gy = 5 * 1000 + 995 + j;
            let p = buf[(j * width as u32 + i) as usize];
            assert_eq!(p.r as u32, gx / 1000, "tile x at ({}, {})", i, j);
            assert_eq!(p.g as u32, gy / 1000, "tile y at ({}, {})", i, j);
            assert_eq!(p.b as u32, (gx % 1000) % 256, "local x at ({}, {})", i, j);
            assert_eq!(p.a as u32, (gy % 1000) % 256, "local y at ({}, {})", i, j);
        }
    }
}

#[test]
fn missing_tile_is_named() {
    let tiles = vec![marked_tile(5, 5)];
    let top_left = TileCoords::new(5, 5, 990, 0);
    let err = stitch_region(&top_left, 20, 5, &tiles).unwrap_err();
    match err {
        ImageDataError::MissingTile { tile_x, tile_y } => {
            assert_eq!((tile_x, tile_y), (6, 5));
        }
        other => panic!("expected MissingTile, got {:?}", other),
    }
}

/// A full tile of one palette color.
fn solid_tile(tile_x: u16, tile_y: u16, c: Color) -> MosaicTile {
    let px = c.encode();
    MosaicTile { tile_x, tile_y, image: TileImage::new(vec![px; 1_000_000]).unwrap() }
}

#[test]
fn from_tiles_validates_the_stitched_image() {
    let tiles = vec![solid_tile(0, 0, Color::Teal)];
    let top_left = TileCoords::new(0, 0, 10, 10);
    let img = from_tiles(&top_left, 8, 4, &tiles).unwrap();
    assert_eq!(img.get_width(), 8);
    assert_eq!(img.get_height(), 4);
    assert_eq!(img.get_total_px(), 32);
    assert_eq!(img.get_color_count(Color::Teal), 32);
}

#[test]
fn from_tiles_rejects_zero_width() {
    let tiles: Vec<MosaicTile> = Vec::new();
    let top_left = TileCoords::new(0, 0, 0, 0);
    let err = from_tiles(&top_left, 0, 4, &tiles).unwrap_err();
    assert!(matches!(err, ImageDataError::InvalidWidth));
}

#[test]
fn tile_image_rejects_wrong_pixel_counts() {
    assert!(TileImage::new(vec![Rgba { r: 0, g: 0, b: 0, a: 0 }; 999_999]).is_none());
    assert!(TileImage::new(vec![Rgba { r: 0, g: 0, b: 0, a: 0 }; 1_000_000]).is_some());
}

#[test]
fn tile_png_decode_round_trip() {
    let px = Color::Gold.encode();
    let raw: Vec<u8> = std::iter::repeat([px.r, px.g, px.b, px.a])
        .take(1_000_000)
        .flatten()
        .collect();
    let img = image::RgbaImage::from_raw(1000, 1000, raw).unwrap();
    let mut bytes: Vec<u8> = Vec::new();
    image::DynamicImage::ImageRgba8(img)
        .write_to(&mut Cursor::new(&mut bytes), image::ImageFormat::Png)
        .unwrap();
    let tile = TileImage::from_png_bytes(&bytes).unwrap();
    assert_eq!(tile.pixels.len(), 1_000_000);
    assert_eq!(tile.pixels[0], px);
    assert_eq!(tile.pixels[999_999], px);
}

#[test]
fn tile_png_with_wrong_dimensions_is_rejected() {
    let raw = vec![0u8; 4 * 10 * 10];
    let img = image::RgbaImage::from_raw(10, 10, raw).unwrap();
    let mut bytes: Vec<u8> = Vec::new();
    image::DynamicImage::ImageRgba8(img)
        .write_to(&mut Cursor::new(&mut bytes), image::ImageFormat::Png)
        .unwrap();
    let err = TileImage::from_png_bytes(&bytes).unwrap_err();
    match err {
        TileImageError::WrongDimensions { width, height } => {
            assert_eq!((width, height), (10, 10));
        }
        other => panic!("expected WrongDimensions, got {:?}", other),
    }
}

#[test]
fn tile_garbage_bytes_fail_decode() {
    let err = TileImage::from_png_bytes(&[0, 1, 2]).unwrap_err();
    assert!(matches!(err, TileImageError::Image(_)));
}
