use wplace_core::map_position::MapPosition;
use wplace_core::tile_coords::TileCoords;

#[test]
fn absolute_position_combines_tile_and_offset() {
    let tc = TileCoords::new(12, 7, 34, 999);
    let pos = MapPosition::from_tile_coords(&tc, 10, 20);
    assert_eq!(pos.get_abs_x(), 12 * 1000 + 34);
    assert_eq!(pos.get_abs_y(), 7 * 1000 + 999);
}

#[test]
fn zoom_steps_follow_the_larger_extent() {
    let tc = TileCoords::new(0, 0, 0, 0);
    let cases: &[(u32, u32, u16)] = &[
        (0, 0, 220),
        (1, 0, 200),
        (9, 3, 200),
        (10, 2, 170),
        (59, 59, 170),
        (60, 1, 140),
        (99, 0, 140),
        (100, 1, 130),
        (299, 1, 130),
        (300, 1, 125),
        (499, 1, 125),
        (500, 1, 120),
        (999, 1, 120),
        (1000, 1, 110),
        (5000, 5000, 110),
    ];
    for &(w, h, zoom) in cases {
        let pos = MapPosition::from_tile_coords(&tc, w, h);
        assert_eq!(pos.get_zoom_tenths(), zoom, "extent {}x{}", w, h);
        let flipped = MapPosition::from_tile_coords(&tc, h, w);
        assert_eq!(flipped.get_zoom_tenths(), zoom, "extent {}x{}", h, w);
    }
}
