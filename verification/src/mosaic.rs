//! Stitching an arbitrary pixel rectangle of the canvas out of 1000x1000
//! tiles. The caller hands in the tiles it fetched; every output pixel is
//! copied from the tile containing its global position, filled exactly
//! once, so a rectangle spanning several tiles has no gaps or duplicated
//! pixels at the seams.

use vstd::arithmetic::div_mod::lemma_div_pos_is_pos;
use vstd::arithmetic::div_mod::lemma_fundamental_div_mod;
use vstd::arithmetic::div_mod::lemma_mod_division_less_than_divisor;
use vstd::arithmetic::div_mod::lemma_multiply_divide_lt;
use vstd::prelude::*;

use crate::color::Rgba;
use crate::image_data::ImageData;
use crate::image_data::ImageDataError;
use crate::image_data::all_pixels_ok;
use crate::image_data::group_rgba;
use crate::image_data::pixel_ok;
use crate::image_data::png_decode_of;
use crate::tile_coords::TileCoords;

verus! {

/// One downloaded canvas tile: exactly 1000x1000 RGBA pixels, row-major.
#[derive(Debug)]
pub struct TileImage {
    /// The tile's pixels; always exactly a million of them.
    pub pixels: Vec<Rgba>,
}

/// Why a byte stream was not accepted as a tile.
#[derive(Debug)]
pub enum TileImageError {
    /// The PNG byte stream did not decode.
    Image(image::ImageError),
    /// The decoded bitmap is not 1000x1000.
    WrongDimensions { width: u32, height: u32 },
}

impl TileImage {
    /// The invariant of a tile bitmap: a full 1000x1000 pixel buffer.
    pub open spec fn wf(self) -> bool {
        self.pixels@.len() == 1_000_000
    }

    /// Accepts a raw pixel buffer as a tile when it holds exactly
    /// 1000x1000 pixels.
    pub fn new(pixels: Vec<Rgba>) -> (r: Option<TileImage>)
        ensures
            r matches Some(t) ==> t.wf() && t.pixels@ == pixels@,
            r is Some <==> pixels@.len() == 1_000_000,
    {
        if pixels.len() == 1_000_000 {
            Some(TileImage { pixels })
        } else {
            None
        }
    }

    /// Decodes a PNG byte stream as a canvas tile: the bitmap must be
    /// exactly 1000x1000; its pixels are kept as they are, palette-valid
    /// or not.
    pub fn from_png_bytes(bytes: &[u8]) -> (r: Result<TileImage, TileImageError>)
        ensures
            png_decode_of(bytes@) is None ==> (r matches Err(e) && e is Image),
            png_decode_of(bytes@) matches Some(d) ==> {
                &&& (!(d.0 == 1000 && d.1 == 1000) ==> (r matches Err(e) && e == (
                TileImageError::WrongDimensions { width: d.0, height: d.1 })))
                &&& (d.0 == 1000 && d.1 == 1000 ==> (r matches Ok(t) && t.wf() && t.pixels@
                    == group_rgba(d.2)))
            },
    {
        let (w, h, raw) = match crate::image_data::decode_png_rgba(bytes) {
            Err(e) => {
                return Err(TileImageError::Image(e));
            },
            Ok(d) => d,
        };
        if !(w == 1000 && h == 1000) {
            return Err(TileImageError::WrongDimensions { width: w, height: h });
        }
        let count: usize = raw.len() / 4;
        let pixels = crate::image_data::rgba_from_raw(&raw, count);
        match TileImage::new(pixels) {
            Some(t) => Ok(t),
            None => {
                proof {
                    assert(false);
                }
                Err(TileImageError::WrongDimensions { width: w, height: h })
            },
        }
    }
}

/// A tile handed to the stitcher: its grid position and its bitmap.
pub struct MosaicTile {
    /// The horizontal tile index.
    pub tile_x: u16,
    /// The vertical tile index.
    pub tile_y: u16,
    /// The tile's bitmap.
    pub image: TileImage,
}

/// The first provided tile with the given grid position, if any.
pub open spec fn find_tile(tiles: Seq<MosaicTile>, tx: int, ty: int) -> Option<MosaicTile>
    decreases tiles.len(),
{
    if tiles.len() == 0 {
        None
    } else if tiles[0].tile_x == tx && tiles[0].tile_y == ty {
        Some(tiles[0])
    } else {
        find_tile(tiles.drop_first(), tx, ty)
    }
}

/// The canvas pixel that output position (i, j) should be copied from:
/// the pixel of the provided tile containing the global position
/// (top_left + (i, j)), or nothing when that tile was not provided.
pub open spec fn src_pixel(top_left: TileCoords, tiles: Seq<MosaicTile>, i: int, j: int) -> Option<
    Rgba,
> {
    let gx = top_left.tile_x * 1000 + top_left.x + i;
    let gy = top_left.tile_y * 1000 + top_left.y + j;
    match find_tile(tiles, gx / 1000, gy / 1000) {
        None => None,
        Some(t) => Some(t.image.pixels@[(gy % 1000) * 1000 + gx % 1000]),
    }
}

/// Whether every output position of a width-by-height rectangle has its
/// tile among the provided ones.
pub open spec fn all_tiles_present(
    top_left: TileCoords,
    tiles: Seq<MosaicTile>,
    width: int,
    height: int,
) -> bool {
    forall|i: int, j: int|
        0 <= i < width && 0 <= j < height ==> #[trigger] src_pixel(top_left, tiles, i, j) is Some
}

/// Finds the first provided tile with the given grid position.
fn find_tile_in(tiles: &Vec<MosaicTile>, tx: u16, ty: u16) -> (r: Option<usize>)
    ensures
        r matches Some(idx) ==> idx < tiles@.len() && find_tile(tiles@, tx as int, ty as int)
            == Some(tiles@[idx as int]),
        r is None <==> find_tile(tiles@, tx as int, ty as int) is None,
{
    let n = tiles.len();
    let mut i: usize = 0;
    proof {
        assert(tiles@.skip(0) =~= tiles@);
    }
    while i < n
        invariant
            0 <= i <= n == tiles@.len(),
            find_tile(tiles@, tx as int, ty as int) == find_tile(
                tiles@.skip(i as int),
                tx as int,
                ty as int,
            ),
        decreases n - i,
    {
        proof {
            assert(tiles@.skip(i as int)[0] == tiles@[i as int]);
            assert(tiles@.skip(i as int).drop_first() =~= tiles@.skip(i + 1));
        }
        if tiles[i].tile_x == tx && tiles[i].tile_y == ty {
            return Some(i);
        }
        i += 1;
    }
    proof {
        assert(tiles@.skip(n as int) =~= Seq::<MosaicTile>::empty());
    }
    None
}

/// Looks up the source pixel for output position (i, j), or the grid
/// position of the missing tile.
fn src_pixel_at(top_left: &TileCoords, tiles: &Vec<MosaicTile>, i: u32, j: u32) -> (r: Result<
    Rgba,
    (u16, u16),
>)
    requires
        forall|q: int| 0 <= q < tiles@.len() ==> (#[trigger] tiles@[q]).image.wf(),
        top_left.tile_x * 1000 + top_left.x + i < 65_536_000,
        top_left.tile_y * 1000 + top_left.y + j < 65_536_000,
    ensures
        r matches Ok(p) ==> src_pixel(*top_left, tiles@, i as int, j as int) == Some(p),
        r matches Err(t) ==> src_pixel(*top_left, tiles@, i as int, j as int) is None && t.0 as int
            == (top_left.tile_x * 1000 + top_left.x + i) / 1000 && t.1 as int == (top_left.tile_y
            * 1000 + top_left.y + j) / 1000,
{
    let gx: u32 = (top_left.get_tile_x() as u32) * 1000 + (top_left.get_x() as u32) + i;
    let gy: u32 = (top_left.get_tile_y() as u32) * 1000 + (top_left.get_y() as u32) + j;
    proof {
        lemma_div_pos_is_pos(gx as int, 1000);
        lemma_div_pos_is_pos(gy as int, 1000);
        lemma_multiply_divide_lt(gx as int, 1000, 65536);
        lemma_multiply_divide_lt(gy as int, 1000, 65536);
        lemma_mod_division_less_than_divisor(gx as int, 1000);
        lemma_mod_division_less_than_divisor(gy as int, 1000);
    }
    let tx: u16 = (gx / 1000) as u16;
    let ty: u16 = (gy / 1000) as u16;
    match find_tile_in(tiles, tx, ty) {
        None => Err((tx, ty)),
        Some(idx) => {
            let lx: u32 = gx % 1000;
            let ly: u32 = gy % 1000;
            let p = tiles[idx].image.pixels[(ly * 1000 + lx) as usize];
            Ok(p)
        },
    }
}

/// Copies the requested rectangle out of the provided tiles, row-major.
/// Every output pixel comes from the tile containing its global position;
/// a missing tile fails the stitch and is named in the error.
pub fn stitch_region(
    top_left: &TileCoords,
    width: u16,
    height: u16,
    tiles: &Vec<MosaicTile>,
) -> (r: Result<Vec<Rgba>, ImageDataError>)
    requires
        forall|q: int| 0 <= q < tiles@.len() ==> (#[trigger] tiles@[q]).image.wf(),
        top_left.tile_x * 1000 + top_left.x + width <= 65_536_000,
        top_left.tile_y * 1000 + top_left.y + height <= 65_536_000,
    ensures
        r is Ok <==> all_tiles_present(*top_left, tiles@, width as int, height as int),
        r matches Ok(buf) ==> buf@.len() == width * height && forall|i: int, j: int|
            0 <= i < width && 0 <= j < height ==> Some(#[trigger] buf@[j * width + i])
                == src_pixel(*top_left, tiles@, i, j),
        r matches Err(e) ==> e matches ImageDataError::MissingTile { tile_x, tile_y } && exists|
            i: int,
            j: int,
        |
            {
                &&& 0 <= i < width && 0 <= j < height
                &&& #[trigger] src_pixel(*top_left, tiles@, i, j) is None
                &&& tile_x == (top_left.tile_x * 1000 + top_left.x + i) / 1000
                &&& tile_y == (top_left.tile_y * 1000 + top_left.y + j) / 1000
            },
{
    let mut buf: Vec<Rgba> = Vec::new();
    let mut j: u32 = 0;
    while j < height as u32
        invariant
            0 <= j <= height,
            forall|q: int| 0 <= q < tiles@.len() ==> (#[trigger] tiles@[q]).image.wf(),
            top_left.tile_x * 1000 + top_left.x + width <= 65_536_000,
            top_left.tile_y * 1000 + top_left.y + height <= 65_536_000,
            buf@.len() == j * width,
            forall|i2: int, j2: int|
                0 <= i2 < width && 0 <= j2 < j ==> Some(#[trigger] buf@[j2 * width + i2])
                    == src_pixel(*top_left, tiles@, i2, j2),
        decreases height - j,
    {
        let mut i: u32 = 0;
        while i < width as u32
            invariant
                0 <= i <= width,
                0 <= j < height,
                forall|q: int| 0 <= q < tiles@.len() ==> (#[trigger] tiles@[q]).image.wf(),
                top_left.tile_x * 1000 + top_left.x + width <= 65_536_000,
                top_left.tile_y * 1000 + top_left.y + height <= 65_536_000,
                buf@.len() == j * width + i,
                forall|i2: int, j2: int|
                    0 <= i2 < width && 0 <= j2 < j ==> Some(#[trigger] buf@[j2 * width + i2])
                        == src_pixel(*top_left, tiles@, i2, j2),
                forall|i2: int|
                    0 <= i2 < i ==> Some(#[trigger] buf@[j * width + i2]) == src_pixel(
                        *top_left,
                        tiles@,
                        i2,
                        j as int,
                    ),
            decreases width - i,
        {
            match src_pixel_at(top_left, tiles, i, j) {
                Err(t) => {
                    return Err(ImageDataError::MissingTile { tile_x: t.0, tile_y: t.1 });
                },
                Ok(p) => {
                    let ghost buf0: Seq<Rgba> = buf@;
                    buf.push(p);
                    proof {
                        assert forall|i2: int, j2: int|
                            0 <= i2 < width && 0 <= j2 < j implies Some(
                            #[trigger] buf@[j2 * width + i2],
                        ) == src_pixel(*top_left, tiles@, i2, j2) by {
                            assert(0 <= j2 * width + i2 < j * width) by (nonlinear_arith)
                                requires
                                    0 <= i2 < width as int,
                                    0 <= j2 < j as int,
                            ;
                            assert(buf@[j2 * width + i2] == buf0[j2 * width + i2]);
                        }
                    }
                },
            }
            i += 1;
        }
        proof {
            assert((j + 1) * (width as int) == j * (width as int) + width) by (nonlinear_arith);
        }
        j += 1;
    }
    proof {
        assert((height as int) * (width as int) == (width as int) * (height as int))
            by (nonlinear_arith);
        assert forall|i2: int, j2: int|
            0 <= i2 < width && 0 <= j2 < height implies #[trigger] src_pixel(
            *top_left,
            tiles@,
            i2,
            j2,
        ) is Some by {
            assert(Some(buf@[j2 * (width as int) + i2]) == src_pixel(*top_left, tiles@, i2, j2));
        }
    }
    Ok(buf)
}

/// Bridges row-major indexing and grid positions: a buffer whose cell at
/// each row-major position (i, j) is the source pixel there is
/// palette-valid exactly when every source pixel is.
proof fn lemma_grid_pixels_ok(
    top_left: TileCoords,
    tiles: Seq<MosaicTile>,
    width: int,
    height: int,
    buf: Seq<Rgba>,
)
    requires
        width > 0,
        height > 0,
        buf.len() == width * height,
        forall|i: int, j: int|
            0 <= i < width && 0 <= j < height ==> Some(#[trigger] buf[j * width + i]) == src_pixel(
                top_left,
                tiles,
                i,
                j,
            ),
    ensures
        all_pixels_ok(buf) <==> (forall|i: int, j: int|
            0 <= i < width && 0 <= j < height ==> pixel_ok(
                #[trigger] src_pixel(top_left, tiles, i, j)->Some_0,
            )),
{
    if all_pixels_ok(buf) {
        assert forall|i: int, j: int| 0 <= i < width && 0 <= j < height implies pixel_ok(
            #[trigger] src_pixel(top_left, tiles, i, j)->Some_0,
        ) by {
            assert(0 <= j * width + i < width * height) by (nonlinear_arith)
                requires
                    0 <= i < width,
                    0 <= j < height,
            ;
            assert(pixel_ok(buf[j * width + i]));
        }
    }
    if forall|i: int, j: int|
        0 <= i < width && 0 <= j < height ==> pixel_ok(
            #[trigger] src_pixel(top_left, tiles, i, j)->Some_0,
        ) {
        assert forall|k: int| 0 <= k < buf.len() implies pixel_ok(#[trigger] buf[k]) by {
            let i = k % width;
            let j = k / width;
            lemma_fundamental_div_mod(k, width);
            lemma_mod_division_less_than_divisor(k, width);
            lemma_multiply_divide_lt(k, width, height);
            assert(j * width == width * j) by (nonlinear_arith);
            assert(buf[k] == src_pixel(top_left, tiles, i, j)->Some_0);
            assert(pixel_ok(src_pixel(top_left, tiles, i, j)->Some_0));
        }
    }
}

/// Stitches the requested rectangle and validates it as a template image:
/// a missing tile fails first, then the stitched bitmap goes through the
/// same dimension, palette, and histogram checks as any other image.
pub fn from_tiles(
    top_left: &TileCoords,
    width: u16,
    height: u16,
    tiles: &Vec<MosaicTile>,
) -> (r: Result<ImageData, ImageDataError>)
    requires
        forall|q: int| 0 <= q < tiles@.len() ==> (#[trigger] tiles@[q]).image.wf(),
        top_left.tile_x * 1000 + top_left.x + width <= 65_536_000,
        top_left.tile_y * 1000 + top_left.y + height <= 65_536_000,
    ensures
        r matches Ok(img) ==> img.wf() && img.width == width && img.height == height && forall|
            i: int,
            j: int,
        |
            0 <= i < width && 0 <= j < height ==> Some(#[trigger] img.pixels@[j * width + i])
                == src_pixel(*top_left, tiles@, i, j),
        r is Ok <==> width > 0 && height > 0 && (forall|i: int, j: int|
            0 <= i < width && 0 <= j < height ==> #[trigger] src_pixel(*top_left, tiles@, i, j)
                is Some && pixel_ok(src_pixel(*top_left, tiles@, i, j)->Some_0)),
        !all_tiles_present(*top_left, tiles@, width as int, height as int) ==> (r matches Err(e)
            && e is MissingTile),
        all_tiles_present(*top_left, tiles@, width as int, height as int) && width == 0 ==> (r
            matches Err(e) && e is InvalidWidth),
        all_tiles_present(*top_left, tiles@, width as int, height as int) && width > 0 && height
            == 0 ==> (r matches Err(e) && e is InvalidHeight),
{
    let buf = match stitch_region(top_left, width, height, tiles) {
        Err(e) => {
            return Err(e);
        },
        Ok(buf) => buf,
    };
    proof {
        if width > 0 && height > 0 {
            lemma_grid_pixels_ok(*top_left, tiles@, width as int, height as int, buf@);
        }
    }
    ImageData::new(width as u32, height as u32, buf)
}

} // verus!
