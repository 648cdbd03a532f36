use wplace_core::nominatim_data::GeoPoint;
use wplace_core::nominatim_data::LocationData;
use wplace_core::nominatim_data::NominatimCache;
use wplace_core::nominatim_data::NominatimData;
use wplace_core::nominatim_data::response_indicates_unknown;
use wplace_core::nominatim_data::ring_contains;

fn pt(lng: i32, lat: i32) -> GeoPoint {
    GeoPoint { lng, lat }
}

/// A triangle with no vertical edges on its slanted sides.
fn triangle() -> Vec<Vec<GeoPoint>> {
    vec![vec![pt(0, 0), pt(10, 0), pt(5, 10), pt(0, 0)]]
}

#[test]
fn ray_cast_classifies_triangle_points() {
    let ring = &triangle()[0];
    assert!(ring_contains(ring, pt(5, 3)));
    assert!(!ring_contains(ring, pt(9, 8)));
    assert!(!ring_contains(ring, pt(20, 3)));
    assert!(!ring_contains(ring, pt(5, 20)));
}

#[test]
fn empty_ring_contains_nothing() {
    let ring: Vec<GeoPoint> = Vec::new();
    assert!(!ring_contains(&ring, pt(0, 0)));
    let single = vec![pt(0, 0)];
    assert!(!ring_contains(&single, pt(0, 0)));
}

#[test]
fn point_inside_cached_polygon_is_served_from_the_cache() {
    let mut cache = NominatimCache::new();
    let data = NominatimData::new(String::from("Somewhere"));
    cache.store_response("administrative", &data, vec![triangle()], 100);

    let hit = cache.probe(pt(5, 3), 200).expect("point is inside the cached polygon");
    assert_eq!(hit.get_display_name(), "Somewhere");

    assert!(cache.probe(pt(20, 3), 200).is_none());
}

#[test]
fn cached_polygons_expire_after_the_ttl() {
    let mut cache = NominatimCache::new();
    let data = NominatimData::new(String::from("Somewhere"));
    cache.store_response("administrative", &data, vec![triangle()], 100);

    assert!(cache.probe(pt(5, 3), 100 + 1199).is_some());
    assert!(cache.probe(pt(5, 3), 100 + 1200).is_none());
}

#[test]
fn country_records_are_not_cached() {
    let mut cache = NominatimCache::new();
    let data = NominatimData::new(String::from("Countryland"));
    cache.store_response("country", &data, vec![triangle()], 100);
    assert!(cache.probe(pt(5, 3), 101).is_none());
}

#[test]
fn multi_polygon_entries_share_one_record() {
    let mut cache = NominatimCache::new();
    let data = NominatimData::new(String::from("Archipelago"));
    let far_triangle = vec![vec![pt(100, 100), pt(110, 100), pt(105, 110), pt(100, 100)]];
    cache.store_response("administrative", &data, vec![triangle(), far_triangle], 50);
    assert_eq!(cache.probe(pt(5, 3), 60).unwrap().get_display_name(), "Archipelago");
    assert_eq!(cache.probe(pt(105, 103), 60).unwrap().get_display_name(), "Archipelago");
}

#[test]
fn requests_are_spaced_at_least_one_second() {
    let mut cache = NominatimCache::new();
    // never requested: allowed at once
    assert_eq!(cache.seconds_until_ready(5), 0);
    cache.note_request(5);
    assert_eq!(cache.seconds_until_ready(5), 1);
    assert_eq!(cache.seconds_until_ready(6), 0);
    cache.note_request(6);
    assert_eq!(cache.seconds_until_ready(6), 1);
    assert_eq!(cache.seconds_until_ready(7), 0);
}

#[test]
fn unable_to_geocode_bodies_are_recognized() {
    let body = br#"{"error":"Unable to geocode"}"#;
    assert!(response_indicates_unknown(body));
    let ok_body = br#"{"display_name":"Rome"}"#;
    assert!(!response_indicates_unknown(ok_body));
    assert!(!response_indicates_unknown(b""));
    assert!(!response_indicates_unknown(b"Unable to geocod"));
}

#[test]
fn location_names_come_from_either_source() {
    let given = LocationData::Name(String::from("My Spot"));
    assert_eq!(given.get_name(), "My Spot");
    let resolved = LocationData::Nominatim(NominatimData::new(String::from("Rome, Italy")));
    assert_eq!(resolved.get_name(), "Rome, Italy");
}

#[test]
fn duplicate_copies_the_record() {
    let data = NominatimData::new(String::from("First"));
    let copy = data.duplicate();
    assert_eq!(copy.get_display_name(), data.get_display_name());
}
