//! Core logic for tracking a pixel-art template on a large tiled canvas:
//! the fixed 64-color palette codec, template image ingestion and
//! validation, the pixel diff engine, the tile mosaic cache and stitcher,
//! and the reverse-geocode polygon cache with its request rate limiter.

use vstd::prelude::*;

pub mod color;
pub mod image_comparison;
pub mod image_data;
pub mod map_position;
pub mod mosaic;
pub mod nominatim_data;
pub mod tile_coords;
pub mod tile_downloader;

verus! {

/// Width and height, in pixels, of one canvas tile.
pub const TILE_SIZE: u32 = 1000;

} // verus!
