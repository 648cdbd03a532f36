//! The integer core of the map projection: the absolute pixel position of
//! a tile coordinate on the canvas grid, and the zoom step chosen from the
//! template's larger extent. Turning the absolute position into latitude
//! and longitude takes the inverse-Mercator transform over floating point,
//! which is the caller's job; zoom is kept in tenths so that the halves
//! stay exact.

use vstd::prelude::*;

use crate::tile_coords::TileCoords;

verus! {

/// How many tiles the canvas spans in each axis.
pub const CANVAS_TILES: u32 = 2048;

/// The zoom level, in tenths, for a template whose larger extent in
/// pixels is given: a monotonic step function, finer zoom for smaller
/// extents.
pub open spec fn spec_zoom_tenths(extent: u32) -> u16 {
    if extent < 1 {
        220
    } else if extent < 10 {
        200
    } else if extent < 60 {
        170
    } else if extent < 100 {
        140
    } else if extent < 300 {
        130
    } else if extent < 500 {
        125
    } else if extent < 1000 {
        120
    } else {
        110
    }
}

/// A position on the canvas ready for projection: absolute pixel column
/// and row, and the display zoom in tenths.
#[derive(Clone, Copy, PartialEq, Eq, Structural, Debug)]
pub struct MapPosition {
    /// The absolute pixel column: tile index times the tile size plus
    /// the offset within the tile.
    pub abs_x: u32,
    /// The absolute pixel row, likewise.
    pub abs_y: u32,
    /// The display zoom, in tenths of a level.
    pub zoom_tenths: u16,
}

impl MapPosition {
    /// Computes the absolute pixel position of a tile coordinate and the
    /// zoom for a template of the given pixel extent.
    pub fn from_tile_coords(tile_coords: &TileCoords, width: u32, height: u32) -> (r: MapPosition)
        ensures
            r.abs_x == tile_coords.tile_x * 1000 + tile_coords.x,
            r.abs_y == tile_coords.tile_y * 1000 + tile_coords.y,
            r.zoom_tenths == spec_zoom_tenths(
                if width >= height {
                    width
                } else {
                    height
                },
            ),
    {
        let ext: u32 = if width >= height {
            width
        } else {
            height
        };
        let zoom_tenths: u16 = if ext < 1 {
            220
        } else if ext < 10 {
            200
        } else if ext < 60 {
            170
        } else if ext < 100 {
            140
        } else if ext < 300 {
            130
        } else if ext < 500 {
            125
        } else if ext < 1000 {
            120
        } else {
            110
        };
        MapPosition {
            abs_x: (tile_coords.get_tile_x() as u32) * 1000 + (tile_coords.get_x() as u32),
            abs_y: (tile_coords.get_tile_y() as u32) * 1000 + (tile_coords.get_y() as u32),
            zoom_tenths,
        }
    }

    /// The absolute pixel column.
    pub fn get_abs_x(&self) -> (r: u32)
        ensures
            r == self.abs_x,
    {
        self.abs_x
    }

    /// The absolute pixel row.
    pub fn get_abs_y(&self) -> (r: u32)
        ensures
            r == self.abs_y,
    {
        self.abs_y
    }

    /// The display zoom, in tenths of a level.
    pub fn get_zoom_tenths(&self) -> (r: u16)
        ensures
            r == self.zoom_tenths,
    {
        self.zoom_tenths
    }
}

/// The zoom step function is monotonic: a smaller extent never gets a
/// coarser (lower) zoom than a larger one.
pub proof fn lemma_zoom_monotonic(e1: u32, e2: u32)
    ensures
        e1 <= e2 ==> spec_zoom_tenths(e1) >= spec_zoom_tenths(e2),
{
}

} // verus!
