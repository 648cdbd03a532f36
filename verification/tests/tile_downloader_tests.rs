use wplace_core::color::Rgba;
use wplace_core::mosaic::TileImage;
use wplace_core::tile_downloader::Tile;
use wplace_core::tile_downloader::TileDownloader;

fn solid_image(v: u8) -> TileImage {
    TileImage::new(vec![Rgba { r: v, g: v, b: v, a: 255 }; 1_000_000]).unwrap()
}

#[test]
fn hit_within_ttl_and_eviction_after() {
    let mut cache = TileDownloader::new();
    let tile = Tile::new(5, 9);
    cache.insert_tile(tile, solid_image(7), 1000);

    // 300 seconds later: still cached, no fetch needed
    cache.clean_cache(1300);
    let hit = cache.get_from_cache(tile).expect("entry should still be fresh");
    assert_eq!(hit.pixels[0].r, 7);

    // exactly 360 seconds after the download: swept
    cache.clean_cache(1360);
    assert!(cache.get_from_cache(tile).is_none());
}

#[test]
fn entries_are_never_refreshed_in_place() {
    let mut cache = TileDownloader::new();
    let tile = Tile::new(1, 2);
    cache.insert_tile(tile, solid_image(1), 100);
    cache.insert_tile(tile, solid_image(2), 200);
    let hit = cache.get_from_cache(tile).unwrap();
    assert_eq!(hit.pixels[0].r, 1);
}

#[test]
fn lookup_misses_unknown_tiles() {
    let mut cache = TileDownloader::new();
    cache.insert_tile(Tile::new(1, 1), solid_image(1), 100);
    assert!(cache.get_from_cache(Tile::new(1, 2)).is_none());
    assert!(cache.get_from_cache(Tile::new(2, 1)).is_none());
    assert!(cache.contains_tile(Tile::new(1, 1)));
    assert!(!cache.contains_tile(Tile::new(2, 1)));
}

#[test]
fn sweep_keeps_fresh_entries_and_drops_stale_ones() {
    let mut cache = TileDownloader::new();
    cache.insert_tile(Tile::new(1, 0), solid_image(1), 100);
    cache.insert_tile(Tile::new(2, 0), solid_image(2), 400);
    cache.clean_cache(460);
    assert!(cache.get_from_cache(Tile::new(1, 0)).is_none());
    assert!(cache.get_from_cache(Tile::new(2, 0)).is_some());
}

#[test]
fn future_stamped_entries_count_as_stale() {
    let mut cache = TileDownloader::new();
    cache.insert_tile(Tile::new(3, 3), solid_image(3), 500);
    cache.clean_cache(400);
    assert!(cache.get_from_cache(Tile::new(3, 3)).is_none());
}
