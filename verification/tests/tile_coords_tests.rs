use wplace_core::tile_coords::TileCoords;
use wplace_core::tile_coords::TileCoordsError;
use wplace_core::tile_coords::TileField;

#[test]
fn parses_labeled_tuple() {
    let tc = TileCoords::parse_tile_coords_string("(tile_x: 12, tile_y: 7, x: 0, y: 999)").unwrap();
    assert_eq!(tc.get_tile_x(), 12);
    assert_eq!(tc.get_tile_y(), 7);
    assert_eq!(tc.get_x(), 0);
    assert_eq!(tc.get_y(), 999);
}

#[test]
fn missing_field_is_reported_before_brackets() {
    let r = TileCoords::parse_tile_coords_string("12,7,0");
    assert_eq!(r, Err(TileCoordsError::MissingField(TileField::Y)));
}

#[test]
fn arbitrary_labels_are_ignored() {
    let tc = TileCoords::parse_tile_coords_string("(a:1,b:2,c:3,d:4)").unwrap();
    assert_eq!(
        (tc.get_tile_x(), tc.get_tile_y(), tc.get_x(), tc.get_y()),
        (1, 2, 3, 4)
    );
}

#[test]
fn unlabeled_fields_parse() {
    let tc = TileCoords::parse_tile_coords_string("(1, 2, 3, 4)").unwrap();
    assert_eq!(
        (tc.get_tile_x(), tc.get_tile_y(), tc.get_x(), tc.get_y()),
        (1, 2, 3, 4)
    );
}

#[test]
fn surrounding_whitespace_is_trimmed() {
    let tc = TileCoords::parse_tile_coords_string("   ( tile_x : 5 , tile_y : 6 , x : 7 , y : 8 )  ").unwrap();
    assert_eq!(
        (tc.get_tile_x(), tc.get_tile_y(), tc.get_x(), tc.get_y()),
        (5, 6, 7, 8)
    );
}

#[test]
fn missing_brackets_with_four_fields() {
    let r = TileCoords::parse_tile_coords_string("1,2,3,4");
    assert_eq!(r, Err(TileCoordsError::MissingBrackets));
    let r = TileCoords::parse_tile_coords_string("(1,2,3,4");
    assert_eq!(r, Err(TileCoordsError::MissingBrackets));
    let r = TileCoords::parse_tile_coords_string("1,2,3,4)");
    assert_eq!(r, Err(TileCoordsError::MissingBrackets));
}

#[test]
fn missing_fields_name_the_first_one_missing() {
    assert_eq!(
        TileCoords::parse_tile_coords_string("(1)"),
        Err(TileCoordsError::MissingField(TileField::TileY))
    );
    assert_eq!(
        TileCoords::parse_tile_coords_string("(1,2)"),
        Err(TileCoordsError::MissingField(TileField::X))
    );
    assert_eq!(
        TileCoords::parse_tile_coords_string("(1,2,3)"),
        Err(TileCoordsError::MissingField(TileField::Y))
    );
    assert_eq!(
        TileCoords::parse_tile_coords_string(""),
        Err(TileCoordsError::MissingField(TileField::TileY))
    );
}

#[test]
fn malformed_fields_name_the_field() {
    assert_eq!(
        TileCoords::parse_tile_coords_string("(a,2,3,4)"),
        Err(TileCoordsError::MalformedField(TileField::TileX))
    );
    assert_eq!(
        TileCoords::parse_tile_coords_string("(1,2,x:,4)"),
        Err(TileCoordsError::MalformedField(TileField::X))
    );
    assert_eq!(
        TileCoords::parse_tile_coords_string("(1,2,3,9 9)"),
        Err(TileCoordsError::MalformedField(TileField::Y))
    );
}

#[test]
fn values_over_u16_max_are_malformed() {
    assert_eq!(
        TileCoords::parse_tile_coords_string("(65536,2,3,4)"),
        Err(TileCoordsError::MalformedField(TileField::TileX))
    );
    let tc = TileCoords::parse_tile_coords_string("(65535,2,3,4)").unwrap();
    assert_eq!(tc.get_tile_x(), 65535);
}

#[test]
fn new_keeps_components() {
    let tc = TileCoords::new(10, 20, 30, 40);
    assert_eq!(tc.get_tile_x(), 10);
    assert_eq!(tc.get_tile_y(), 20);
    assert_eq!(tc.get_x(), 30);
    assert_eq!(tc.get_y(), 40);
}
