use wplace_core::color::Color;
use wplace_core::color::InvalidColor;
use wplace_core::color::InvalidIndex;
use wplace_core::color::Rgba;

fn rgba(r: u8, g: u8, b: u8, a: u8) -> Rgba {
    Rgba { r, g, b, a }
}

#[test]
fn decode_encode_round_trip_all_64() {
    for idx in 0u8..64 {
        let c = Color::decode_index(idx).unwrap();
        let e = c.encode();
        assert_eq!(e.a, 255);
        let back = Color::decode(e).unwrap();
        assert_eq!(back, c);
        assert_eq!(back.palette_index(), idx);
    }
}

#[test]
fn encode_decode_round_trip_canonical_values() {
    for idx in 0u8..64 {
        let c = Color::decode_index(idx).unwrap();
        let e = c.encode();
        let decoded = Color::decode(e).unwrap();
        assert_eq!(decoded.encode(), e);
    }
}

#[test]
fn decode_rejects_any_alpha_but_255() {
    assert_eq!(Color::decode(rgba(0, 0, 0, 0)), Err(InvalidColor));
    assert_eq!(Color::decode(rgba(0, 0, 0, 254)), Err(InvalidColor));
    assert_eq!(Color::decode(rgba(0xED, 0x1C, 0x24, 1)), Err(InvalidColor));
    assert_eq!(Color::decode(rgba(0xFF, 0xFF, 0xFF, 128)), Err(InvalidColor));
}

#[test]
fn decode_rejects_off_palette_rgb() {
    assert_eq!(Color::decode(rgba(1, 2, 3, 255)), Err(InvalidColor));
    assert_eq!(Color::decode(rgba(0xED, 0x1C, 0x25, 255)), Err(InvalidColor));
    assert_eq!(Color::decode(rgba(200, 200, 200, 255)), Err(InvalidColor));
}

#[test]
fn decode_known_values() {
    assert_eq!(Color::decode(rgba(0x00, 0x00, 0x00, 255)).unwrap(), Color::Black);
    assert_eq!(Color::decode(rgba(0xED, 0x1C, 0x24, 255)).unwrap(), Color::Red);
    assert_eq!(Color::decode(rgba(0xFF, 0xFF, 0xFF, 255)).unwrap(), Color::White);
    assert_eq!(Color::decode(rgba(0xB3, 0xB9, 0xD1, 255)).unwrap(), Color::LightSlate);
}

#[test]
fn decode_index_bounds() {
    assert_eq!(Color::decode_index(0).unwrap(), Color::Black);
    assert_eq!(Color::decode_index(6).unwrap(), Color::Red);
    assert_eq!(Color::decode_index(63).unwrap(), Color::LightSlate);
    assert_eq!(Color::decode_index(64), Err(InvalidIndex));
    assert_eq!(Color::decode_index(255), Err(InvalidIndex));
}

#[test]
fn premium_is_the_upper_half() {
    for idx in 0u8..64 {
        let c = Color::decode_index(idx).unwrap();
        assert_eq!(c.is_premium(), idx >= 32);
    }
    assert!(!Color::Black.is_premium());
    assert!(!Color::Transparent.is_premium());
    assert!(Color::MediumGray.is_premium());
    assert!(Color::LightSlate.is_premium());
}

#[test]
fn palette_indices_and_encodings_are_distinct() {
    let mut seen_idx = [false; 64];
    let mut encodings: Vec<(u8, u8, u8)> = Vec::new();
    for idx in 0u8..64 {
        let c = Color::decode_index(idx).unwrap();
        let i = c.palette_index() as usize;
        assert!(!seen_idx[i]);
        seen_idx[i] = true;
        let e = c.encode();
        assert!(!encodings.contains(&(e.r, e.g, e.b)));
        encodings.push((e.r, e.g, e.b));
    }
}

#[test]
fn display_names_are_human_readable() {
    assert_eq!(Color::Black.display_name(), "Black");
    assert_eq!(Color::DarkGray.display_name(), "Dark Gray");
    assert_eq!(Color::LightSlateBlue.display_name(), "Light Slate Blue");
    assert_eq!(Color::Transparent.display_name(), "Transparent");
    for idx in 0u8..64 {
        let c = Color::decode_index(idx).unwrap();
        assert!(!c.display_name().is_empty());
    }
}
