//! The fixed 64-entry palette: a closed set of opaque colors, each with a
//! canonical RGBA value (alpha always 255) and a palette index in 0..64.
//! The mapping between colors, RGBA values, and indices is a bijection;
//! nothing here ever snaps an off-palette value to a nearby color.

use vstd::prelude::*;

verus! {

/// One RGBA pixel value, alpha included.
#[derive(Clone, Copy, PartialEq, Eq, Structural, Debug)]
pub struct Rgba {
    pub r: u8,
    pub g: u8,
    pub b: u8,
    pub a: u8,
}

/// Error of `Color::decode`: the RGBA value is not one of the 64 canonical
/// palette entries.
#[derive(Clone, Copy, PartialEq, Eq, Structural, Debug)]
pub struct InvalidColor;

/// Error of `Color::decode_index`: the index is not in 0..64.
#[derive(Clone, Copy, PartialEq, Eq, Structural, Debug)]
pub struct InvalidIndex;

/// The closed enumeration of the 64 palette colors.
#[derive(Clone, Copy, PartialEq, Eq, Structural, Debug)]
pub enum Color {
    Black,
    DarkGray,
    Gray,
    LightGray,
    White,
    DeepRed,
    Red,
    Orange,
    Gold,
    Yellow,
    LightYellow,
    DarkGreen,
    Green,
    LightGreen,
    DarkTeal,
    Teal,
    LightTeal,
    DarkBlue,
    Blue,
    Cyan,
    Indigo,
    LightIndigo,
    DarkPurple,
    Purple,
    LightPurple,
    DarkPink,
    Pink,
    LightPink,
    DarkBrown,
    Brown,
    Beige,
    Transparent,
    MediumGray,
    DarkRed,
    LightRed,
    DarkOrange,
    DarkGoldenrod,
    Goldenrod,
    LightGoldenrod,
    DarkOlive,
    Olive,
    LightOlive,
    DarkCyan,
    LightCyan,
    LightBlue,
    DarkIndigo,
    DarkSlateBlue,
    SlateBlue,
    LightSlateBlue,
    DarkPeach,
    Peach,
    LightPeach,
    LightBrown,
    DarkTan,
    Tan,
    LightTan,
    DarkBeige,
    LightBeige,
    DarkStone,
    Stone,
    LightStone,
    DarkSlate,
    Slate,
    LightSlate,
}

/// The palette index of a color, in 0..64.
pub open spec fn spec_index(c: Color) -> int {
    match c {
        Color::Black => 0,
        Color::DarkGray => 1,
        Color::Gray => 2,
        Color::LightGray => 3,
        Color::White => 4,
        Color::DeepRed => 5,
        Color::Red => 6,
        Color::Orange => 7,
        Color::Gold => 8,
        Color::Yellow => 9,
        Color::LightYellow => 10,
        Color::DarkGreen => 11,
        Color::Green => 12,
        Color::LightGreen => 13,
        Color::DarkTeal => 14,
        Color::Teal => 15,
        Color::LightTeal => 16,
        Color::DarkBlue => 17,
        Color::Blue => 18,
        Color::Cyan => 19,
        Color::Indigo => 20,
        Color::LightIndigo => 21,
        Color::DarkPurple => 22,
        Color::Purple => 23,
        Color::LightPurple => 24,
        Color::DarkPink => 25,
        Color::Pink => 26,
        Color::LightPink => 27,
        Color::DarkBrown => 28,
        Color::Brown => 29,
        Color::Beige => 30,
        Color::Transparent => 31,
        Color::MediumGray => 32,
        Color::DarkRed => 33,
        Color::LightRed => 34,
        Color::DarkOrange => 35,
        Color::DarkGoldenrod => 36,
        Color::Goldenrod => 37,
        Color::LightGoldenrod => 38,
        Color::DarkOlive => 39,
        Color::Olive => 40,
        Color::LightOlive => 41,
        Color::DarkCyan => 42,
        Color::LightCyan => 43,
        Color::LightBlue => 44,
        Color::DarkIndigo => 45,
        Color::DarkSlateBlue => 46,
        Color::SlateBlue => 47,
        Color::LightSlateBlue => 48,
        Color::DarkPeach => 49,
        Color::Peach => 50,
        Color::LightPeach => 51,
        Color::LightBrown => 52,
        Color::DarkTan => 53,
        Color::Tan => 54,
        Color::LightTan => 55,
        Color::DarkBeige => 56,
        Color::LightBeige => 57,
        Color::DarkStone => 58,
        Color::Stone => 59,
        Color::LightStone => 60,
        Color::DarkSlate => 61,
        Color::Slate => 62,
        Color::LightSlate => 63,
    }
}

/// The canonical RGBA value of a color; alpha is always 255.
pub open spec fn spec_encode(c: Color) -> Rgba {
    match c {
        Color::Black => Rgba { r: 0x00, g: 0x00, b: 0x00, a: 255 },
        Color::DarkGray => Rgba { r: 0x3C, g: 0x3C, b: 0x3C, a: 255 },
        Color::Gray => Rgba { r: 0x78, g: 0x78, b: 0x78, a: 255 },
        Color::LightGray => Rgba { r: 0xD2, g: 0xD2, b: 0xD2, a: 255 },
        Color::White => Rgba { r: 0xFF, g: 0xFF, b: 0xFF, a: 255 },
        Color::DeepRed => Rgba { r: 0x60, g: 0x00, b: 0x18, a: 255 },
        Color::Red => Rgba { r: 0xED, g: 0x1C, b: 0x24, a: 255 },
        Color::Orange => Rgba { r: 0xFF, g: 0x7F, b: 0x27, a: 255 },
        Color::Gold => Rgba { r: 0xF6, g: 0xAA, b: 0x09, a: 255 },
        Color::Yellow => Rgba { r: 0xF9, g: 0xDD, b: 0x3B, a: 255 },
        Color::LightYellow => Rgba { r: 0xFF, g: 0xFA, b: 0xBC, a: 255 },
        Color::DarkGreen => Rgba { r: 0x0E, g: 0xB9, b: 0x68, a: 255 },
        Color::Green => Rgba { r: 0x13, g: 0xE6, b: 0x7B, a: 255 },
        Color::LightGreen => Rgba { r: 0x87, g: 0xFF, b: 0x5E, a: 255 },
        Color::DarkTeal => Rgba { r: 0x0C, g: 0x81, b: 0x6E, a: 255 },
        Color::Teal => Rgba { r: 0x10, g: 0xAE, b: 0xA6, a: 255 },
        Color::LightTeal => Rgba { r: 0x13, g: 0xE1, b: 0xBE, a: 255 },
        Color::DarkBlue => Rgba { r: 0x60, g: 0xF7, b: 0xF2, a: 255 },
        Color::Blue => Rgba { r: 0x28, g: 0x50, b: 0x9E, a: 255 },
        Color::Cyan => Rgba { r: 0x40, g: 0x93, b: 0xE4, a: 255 },
        Color::Indigo => Rgba { r: 0x6B, g: 0x50, b: 0xF6, a: 255 },
        Color::LightIndigo => Rgba { r: 0x99, g: 0xB1, b: 0xFB, a: 255 },
        Color::DarkPurple => Rgba { r: 0x78, g: 0x0C, b: 0x99, a: 255 },
        Color::Purple => Rgba { r: 0xAA, g: 0x38, b: 0xB9, a: 255 },
        Color::LightPurple => Rgba { r: 0xE0, g: 0x9F, b: 0xF9, a: 255 },
        Color::DarkPink => Rgba { r: 0xCB, g: 0x00, b: 0x7A, a: 255 },
        Color::Pink => Rgba { r: 0xEC, g: 0x1F, b: 0x80, a: 255 },
        Color::LightPink => Rgba { r: 0xF3, g: 0x8D, b: 0xA9, a: 255 },
        Color::DarkBrown => Rgba { r: 0x68, g: 0x46, b: 0x34, a: 255 },
        Color::Brown => Rgba { r: 0x95, g: 0x68, b: 0x2A, a: 255 },
        Color::Beige => Rgba { r: 0xF8, g: 0xB2, b: 0x77, a: 255 },
        Color::Transparent => Rgba { r: 0xDE, g: 0xFA, b: 0xCE, a: 255 },
        Color::MediumGray => Rgba { r: 0xAA, g: 0xAA, b: 0xAA, a: 255 },
        Color::DarkRed => Rgba { r: 0xA5, g: 0x0E, b: 0x1E, a: 255 },
        Color::LightRed => Rgba { r: 0xFA, g: 0x80, b: 0x72, a: 255 },
        Color::DarkOrange => Rgba { r: 0xE4, g: 0x5C, b: 0x1A, a: 255 },
        Color::DarkGoldenrod => Rgba { r: 0x9C, g: 0x84, b: 0x31, a: 255 },
        Color::Goldenrod => Rgba { r: 0xC5, g: 0xAD, b: 0x31, a: 255 },
        Color::LightGoldenrod => Rgba { r: 0xE8, g: 0xD4, b: 0x5F, a: 255 },
        Color::DarkOlive => Rgba { r: 0x4A, g: 0x6B, b: 0x3A, a: 255 },
        Color::Olive => Rgba { r: 0x5A, g: 0x94, b: 0x4A, a: 255 },
        Color::LightOlive => Rgba { r: 0x84, g: 0xC5, b: 0x73, a: 255 },
        Color::DarkCyan => Rgba { r: 0x0F, g: 0x79, b: 0x9F, a: 255 },
        Color::LightCyan => Rgba { r: 0xBB, g: 0xFA, b: 0xF2, a: 255 },
        Color::LightBlue => Rgba { r: 0x7D, g: 0xC7, b: 0xFF, a: 255 },
        Color::DarkIndigo => Rgba { r: 0x4D, g: 0x31, b: 0xB8, a: 255 },
        Color::DarkSlateBlue => Rgba { r: 0x4A, g: 0x42, b: 0x84, a: 255 },
        Color::SlateBlue => Rgba { r: 0x7A, g: 0x71, b: 0xC4, a: 255 },
        Color::LightSlateBlue => Rgba { r: 0xB5, g: 0xAE, b: 0xF1, a: 255 },
        Color::DarkPeach => Rgba { r: 0x9B, g: 0x52, b: 0x49, a: 255 },
        Color::Peach => Rgba { r: 0xD1, g: 0x80, b: 0x78, a: 255 },
        Color::LightPeach => Rgba { r: 0xFA, g: 0xB6, b: 0xA4, a: 255 },
        Color::LightBrown => Rgba { r: 0xDB, g: 0xA4, b: 0x63, a: 255 },
        Color::DarkTan => Rgba { r: 0x7B, g: 0x63, b: 0x52, a: 255 },
        Color::Tan => Rgba { r: 0x9C, g: 0x84, b: 0x6B, a: 255 },
        Color::LightTan => Rgba { r: 0xD6, g: 0xB5, b: 0x94, a: 255 },
        Color::DarkBeige => Rgba { r: 0xD1, g: 0x80, b: 0x51, a: 255 },
        Color::LightBeige => Rgba { r: 0xFF, g: 0xC5, b: 0xA5, a: 255 },
        Color::DarkStone => Rgba { r: 0x6D, g: 0x64, b: 0x3F, a: 255 },
        Color::Stone => Rgba { r: 0x94, g: 0x8C, b: 0x6B, a: 255 },
        Color::LightStone => Rgba { r: 0xCD, g: 0xC5, b: 0x9E, a: 255 },
        Color::DarkSlate => Rgba { r: 0x33, g: 0x39, b: 0x41, a: 255 },
        Color::Slate => Rgba { r: 0x6D, g: 0x75, b: 0x8D, a: 255 },
        Color::LightSlate => Rgba { r: 0xB3, g: 0xB9, b: 0xD1, a: 255 },
    }
}

/// The palette color with the given canonical RGBA value, if any.
/// Any value whose alpha is not 255 decodes to nothing.
pub open spec fn spec_decode(p: Rgba) -> Option<Color> {
    if p.a != 255 {
        None
    } else if p.r == 0x00 && p.g == 0x00 && p.b == 0x00 {
        Some(Color::Black)
    } else if p.r == 0x3C && p.g == 0x3C && p.b == 0x3C {
        Some(Color::DarkGray)
    } else if p.r == 0x78 && p.g == 0x78 && p.b == 0x78 {
        Some(Color::Gray)
    } else if p.r == 0xD2 && p.g == 0xD2 && p.b == 0xD2 {
        Some(Color::LightGray)
    } else if p.r == 0xFF && p.g == 0xFF && p.b == 0xFF {
        Some(Color::White)
    } else if p.r == 0x60 && p.g == 0x00 && p.b == 0x18 {
        Some(Color::DeepRed)
    } else if p.r == 0xED && p.g == 0x1C && p.b == 0x24 {
        Some(Color::Red)
    } else if p.r == 0xFF && p.g == 0x7F && p.b == 0x27 {
        Some(Color::Orange)
    } else if p.r == 0xF6 && p.g == 0xAA && p.b == 0x09 {
        Some(Color::Gold)
    } else if p.r == 0xF9 && p.g == 0xDD && p.b == 0x3B {
        Some(Color::Yellow)
    } else if p.r == 0xFF && p.g == 0xFA && p.b == 0xBC {
        Some(Color::LightYellow)
    } else if p.r == 0x0E && p.g == 0xB9 && p.b == 0x68 {
        Some(Color::DarkGreen)
    } else if p.r == 0x13 && p.g == 0xE6 && p.b == 0x7B {
        Some(Color::Green)
    } else if p.r == 0x87 && p.g == 0xFF && p.b == 0x5E {
        Some(Color::LightGreen)
    } else if p.r == 0x0C && p.g == 0x81 && p.b == 0x6E {
        Some(Color::DarkTeal)
    } else if p.r == 0x10 && p.g == 0xAE && p.b == 0xA6 {
        Some(Color::Teal)
    } else if p.r == 0x13 && p.g == 0xE1 && p.b == 0xBE {
        Some(Color::LightTeal)
    } else if p.r == 0x60 && p.g == 0xF7 && p.b == 0xF2 {
        Some(Color::DarkBlue)
    } else if p.r == 0x28 && p.g == 0x50 && p.b == 0x9E {
        Some(Color::Blue)
    } else if p.r == 0x40 && p.g == 0x93 && p.b == 0xE4 {
        Some(Color::Cyan)
    } else if p.r == 0x6B && p.g == 0x50 && p.b == 0xF6 {
        Some(Color::Indigo)
    } else if p.r == 0x99 && p.g == 0xB1 && p.b == 0xFB {
        Some(Color::LightIndigo)
    } else if p.r == 0x78 && p.g == 0x0C && p.b == 0x99 {
        Some(Color::DarkPurple)
    } else if p.r == 0xAA && p.g == 0x38 && p.b == 0xB9 {
        Some(Color::Purple)
    } else if p.r == 0xE0 && p.g == 0x9F && p.b == 0xF9 {
        Some(Color::LightPurple)
    } else if p.r == 0xCB && p.g == 0x00 && p.b == 0x7A {
        Some(Color::DarkPink)
    } else if p.r == 0xEC && p.g == 0x1F && p.b == 0x80 {
        Some(Color::Pink)
    } else if p.r == 0xF3 && p.g == 0x8D && p.b == 0xA9 {
        Some(Color::LightPink)
    } else if p.r == 0x68 && p.g == 0x46 && p.b == 0x34 {
        Some(Color::DarkBrown)
    } else if p.r == 0x95 && p.g == 0x68 && p.b == 0x2A {
        Some(Color::Brown)
    } else if p.r == 0xF8 && p.g == 0xB2 && p.b == 0x77 {
        Some(Color::Beige)
    } else if p.r == 0xDE && p.g == 0xFA && p.b == 0xCE {
        Some(Color::Transparent)
    } else if p.r == 0xAA && p.g == 0xAA && p.b == 0xAA {
        Some(Color::MediumGray)
    } else if p.r == 0xA5 && p.g == 0x0E && p.b == 0x1E {
        Some(Color::DarkRed)
    } else if p.r == 0xFA && p.g == 0x80 && p.b == 0x72 {
        Some(Color::LightRed)
    } else if p.r == 0xE4 && p.g == 0x5C && p.b == 0x1A {
        Some(Color::DarkOrange)
    } else if p.r == 0x9C && p.g == 0x84 && p.b == 0x31 {
        Some(Color::DarkGoldenrod)
    } else if p.r == 0xC5 && p.g == 0xAD && p.b == 0x31 {
        Some(Color::Goldenrod)
    } else if p.r == 0xE8 && p.g == 0xD4 && p.b == 0x5F {
        Some(Color::LightGoldenrod)
    } else if p.r == 0x4A && p.g == 0x6B && p.b == 0x3A {
        Some(Color::DarkOlive)
    } else if p.r == 0x5A && p.g == 0x94 && p.b == 0x4A {
        Some(Color::Olive)
    } else if p.r == 0x84 && p.g == 0xC5 && p.b == 0x73 {
        Some(Color::LightOlive)
    } else if p.r == 0x0F && p.g == 0x79 && p.b == 0x9F {
        Some(Color::DarkCyan)
    } else if p.r == 0xBB && p.g == 0xFA && p.b == 0xF2 {
        Some(Color::LightCyan)
    } else if p.r == 0x7D && p.g == 0xC7 && p.b == 0xFF {
        Some(Color::LightBlue)
    } else if p.r == 0x4D && p.g == 0x31 && p.b == 0xB8 {
        Some(Color::DarkIndigo)
    } else if p.r == 0x4A && p.g == 0x42 && p.b == 0x84 {
        Some(Color::DarkSlateBlue)
    } else if p.r == 0x7A && p.g == 0x71 && p.b == 0xC4 {
        Some(Color::SlateBlue)
    } else if p.r == 0xB5 && p.g == 0xAE && p.b == 0xF1 {
        Some(Color::LightSlateBlue)
    } else if p.r == 0x9B && p.g == 0x52 && p.b == 0x49 {
        Some(Color::DarkPeach)
    } else if p.r == 0xD1 && p.g == 0x80 && p.b == 0x78 {
        Some(Color::Peach)
    } else if p.r == 0xFA && p.g == 0xB6 && p.b == 0xA4 {
        Some(Color::LightPeach)
    } else if p.r == 0xDB && p.g == 0xA4 && p.b == 0x63 {
        Some(Color::LightBrown)
    } else if p.r == 0x7B && p.g == 0x63 && p.b == 0x52 {
        Some(Color::DarkTan)
    } else if p.r == 0x9C && p.g == 0x84 && p.b == 0x6B {
        Some(Color::Tan)
    } else if p.r == 0xD6 && p.g == 0xB5 && p.b == 0x94 {
        Some(Color::LightTan)
    } else if p.r == 0xD1 && p.g == 0x80 && p.b == 0x51 {
        Some(Color::DarkBeige)
    } else if p.r == 0xFF && p.g == 0xC5 && p.b == 0xA5 {
        Some(Color::LightBeige)
    } else if p.r == 0x6D && p.g == 0x64 && p.b == 0x3F {
        Some(Color::DarkStone)
    } else if p.r == 0x94 && p.g == 0x8C && p.b == 0x6B {
        Some(Color::Stone)
    } else if p.r == 0xCD && p.g == 0xC5 && p.b == 0x9E {
        Some(Color::LightStone)
    } else if p.r == 0x33 && p.g == 0x39 && p.b == 0x41 {
        Some(Color::DarkSlate)
    } else if p.r == 0x6D && p.g == 0x75 && p.b == 0x8D {
        Some(Color::Slate)
    } else if p.r == 0xB3 && p.g == 0xB9 && p.b == 0xD1 {
        Some(Color::LightSlate)
    } else {
        None
    }
}

/// The "premium" half of the palette: the colors that are harder to obtain.
pub open spec fn spec_is_premium(c: Color) -> bool {
    spec_index(c) >= 32
}

impl Color {
    /// The canonical RGBA value of this color; alpha is always 255.
    pub fn encode(&self) -> (r: Rgba)
        ensures
            r == spec_encode(*self),
    {
        match self {
            Color::Black => Rgba { r: 0x00, g: 0x00, b: 0x00, a: 255 },
            Color::DarkGray => Rgba { r: 0x3C, g: 0x3C, b: 0x3C, a: 255 },
            Color::Gray => Rgba { r: 0x78, g: 0x78, b: 0x78, a: 255 },
            Color::LightGray => Rgba { r: 0xD2, g: 0xD2, b: 0xD2, a: 255 },
            Color::White => Rgba { r: 0xFF, g: 0xFF, b: 0xFF, a: 255 },
            Color::DeepRed => Rgba { r: 0x60, g: 0x00, b: 0x18, a: 255 },
            Color::Red => Rgba { r: 0xED, g: 0x1C, b: 0x24, a: 255 },
            Color::Orange => Rgba { r: 0xFF, g: 0x7F, b: 0x27, a: 255 },
            Color::Gold => Rgba { r: 0xF6, g: 0xAA, b: 0x09, a: 255 },
            Color::Yellow => Rgba { r: 0xF9, g: 0xDD, b: 0x3B, a: 255 },
            Color::LightYellow => Rgba { r: 0xFF, g: 0xFA, b: 0xBC, a: 255 },
            Color::DarkGreen => Rgba { r: 0x0E, g: 0xB9, b: 0x68, a: 255 },
            Color::Green => Rgba { r: 0x13, g: 0xE6, b: 0x7B, a: 255 },
            Color::LightGreen => Rgba { r: 0x87, g: 0xFF, b: 0x5E, a: 255 },
            Color::DarkTeal => Rgba { r: 0x0C, g: 0x81, b: 0x6E, a: 255 },
            Color::Teal => Rgba { r: 0x10, g: 0xAE, b: 0xA6, a: 255 },
            Color::LightTeal => Rgba { r: 0x13, g: 0xE1, b: 0xBE, a: 255 },
            Color::DarkBlue => Rgba { r: 0x60, g: 0xF7, b: 0xF2, a: 255 },
            Color::Blue => Rgba { r: 0x28, g: 0x50, b: 0x9E, a: 255 },
            Color::Cyan => Rgba { r: 0x40, g: 0x93, b: 0xE4, a: 255 },
            Color::Indigo => Rgba { r: 0x6B, g: 0x50, b: 0xF6, a: 255 },
            Color::LightIndigo => Rgba { r: 0x99, g: 0xB1, b: 0xFB, a: 255 },
            Color::DarkPurple => Rgba { r: 0x78, g: 0x0C, b: 0x99, a: 255 },
            Color::Purple => Rgba { r: 0xAA, g: 0x38, b: 0xB9, a: 255 },
            Color::LightPurple => Rgba { r: 0xE0, g: 0x9F, b: 0xF9, a: 255 },
            Color::DarkPink => Rgba { r: 0xCB, g: 0x00, b: 0x7A, a: 255 },
            Color::Pink => Rgba { r: 0xEC, g: 0x1F, b: 0x80, a: 255 },
            Color::LightPink => Rgba { r: 0xF3, g: 0x8D, b: 0xA9, a: 255 },
            Color::DarkBrown => Rgba { r: 0x68, g: 0x46, b: 0x34, a: 255 },
            Color::Brown => Rgba { r: 0x95, g: 0x68, b: 0x2A, a: 255 },
            Color::Beige => Rgba { r: 0xF8, g: 0xB2, b: 0x77, a: 255 },
            Color::Transparent => Rgba { r: 0xDE, g: 0xFA, b: 0xCE, a: 255 },
            Color::MediumGray => Rgba { r: 0xAA, g: 0xAA, b: 0xAA, a: 255 },
            Color::DarkRed => Rgba { r: 0xA5, g: 0x0E, b: 0x1E, a: 255 },
            Color::LightRed => Rgba { r: 0xFA, g: 0x80, b: 0x72, a: 255 },
            Color::DarkOrange => Rgba { r: 0xE4, g: 0x5C, b: 0x1A, a: 255 },
            Color::DarkGoldenrod => Rgba { r: 0x9C, g: 0x84, b: 0x31, a: 255 },
            Color::Goldenrod => Rgba { r: 0xC5, g: 0xAD, b: 0x31, a: 255 },
            Color::LightGoldenrod => Rgba { r: 0xE8, g: 0xD4, b: 0x5F, a: 255 },
            Color::DarkOlive => Rgba { r: 0x4A, g: 0x6B, b: 0x3A, a: 255 },
            Color::Olive => Rgba { r: 0x5A, g: 0x94, b: 0x4A, a: 255 },
            Color::LightOlive => Rgba { r: 0x84, g: 0xC5, b: 0x73, a: 255 },
            Color::DarkCyan => Rgba { r: 0x0F, g: 0x79, b: 0x9F, a: 255 },
            Color::LightCyan => Rgba { r: 0xBB, g: 0xFA, b: 0xF2, a: 255 },
            Color::LightBlue => Rgba { r: 0x7D, g: 0xC7, b: 0xFF, a: 255 },
            Color::DarkIndigo => Rgba { r: 0x4D, g: 0x31, b: 0xB8, a: 255 },
            Color::DarkSlateBlue => Rgba { r: 0x4A, g: 0x42, b: 0x84, a: 255 },
            Color::SlateBlue => Rgba { r: 0x7A, g: 0x71, b: 0xC4, a: 255 },
            Color::LightSlateBlue => Rgba { r: 0xB5, g: 0xAE, b: 0xF1, a: 255 },
            Color::DarkPeach => Rgba { r: 0x9B, g: 0x52, b: 0x49, a: 255 },
            Color::Peach => Rgba { r: 0xD1, g: 0x80, b: 0x78, a: 255 },
            Color::LightPeach => Rgba { r: 0xFA, g: 0xB6, b: 0xA4, a: 255 },
            Color::LightBrown => Rgba { r: 0xDB, g: 0xA4, b: 0x63, a: 255 },
            Color::DarkTan => Rgba { r: 0x7B, g: 0x63, b: 0x52, a: 255 },
            Color::Tan => Rgba { r: 0x9C, g: 0x84, b: 0x6B, a: 255 },
            Color::LightTan => Rgba { r: 0xD6, g: 0xB5, b: 0x94, a: 255 },
            Color::DarkBeige => Rgba { r: 0xD1, g: 0x80, b: 0x51, a: 255 },
            Color::LightBeige => Rgba { r: 0xFF, g: 0xC5, b: 0xA5, a: 255 },
            Color::DarkStone => Rgba { r: 0x6D, g: 0x64, b: 0x3F, a: 255 },
            Color::Stone => Rgba { r: 0x94, g: 0x8C, b: 0x6B, a: 255 },
            Color::LightStone => Rgba { r: 0xCD, g: 0xC5, b: 0x9E, a: 255 },
            Color::DarkSlate => Rgba { r: 0x33, g: 0x39, b: 0x41, a: 255 },
            Color::Slate => Rgba { r: 0x6D, g: 0x75, b: 0x8D, a: 255 },
            Color::LightSlate => Rgba { r: 0xB3, g: 0xB9, b: 0xD1, a: 255 },
        }
    }

    /// The palette index of this color, in 0..64.
    pub fn palette_index(&self) -> (r: u8)
        ensures
            r as int == spec_index(*self),
    {
        match self {
            Color::Black => 0,
            Color::DarkGray => 1,
            Color::Gray => 2,
            Color::LightGray => 3,
            Color::White => 4,
            Color::DeepRed => 5,
            Color::Red => 6,
            Color::Orange => 7,
            Color::Gold => 8,
            Color::Yellow => 9,
            Color::LightYellow => 10,
            Color::DarkGreen => 11,
            Color::Green => 12,
            Color::LightGreen => 13,
            Color::DarkTeal => 14,
            Color::Teal => 15,
            Color::LightTeal => 16,
            Color::DarkBlue => 17,
            Color::Blue => 18,
            Color::Cyan => 19,
            Color::Indigo => 20,
            Color::LightIndigo => 21,
            Color::DarkPurple => 22,
            Color::Purple => 23,
            Color::LightPurple => 24,
            Color::DarkPink => 25,
            Color::Pink => 26,
            Color::LightPink => 27,
            Color::DarkBrown => 28,
            Color::Brown => 29,
            Color::Beige => 30,
            Color::Transparent => 31,
            Color::MediumGray => 32,
            Color::DarkRed => 33,
            Color::LightRed => 34,
            Color::DarkOrange => 35,
            Color::DarkGoldenrod => 36,
            Color::Goldenrod => 37,
            Color::LightGoldenrod => 38,
            Color::DarkOlive => 39,
            Color::Olive => 40,
            Color::LightOlive => 41,
            Color::DarkCyan => 42,
            Color::LightCyan => 43,
            Color::LightBlue => 44,
            Color::DarkIndigo => 45,
            Color::DarkSlateBlue => 46,
            Color::SlateBlue => 47,
            Color::LightSlateBlue => 48,
            Color::DarkPeach => 49,
            Color::Peach => 50,
            Color::LightPeach => 51,
            Color::LightBrown => 52,
            Color::DarkTan => 53,
            Color::Tan => 54,
            Color::LightTan => 55,
            Color::DarkBeige => 56,
            Color::LightBeige => 57,
            Color::DarkStone => 58,
            Color::Stone => 59,
            Color::LightStone => 60,
            Color::DarkSlate => 61,
            Color::Slate => 62,
            Color::LightSlate => 63,
        }
    }

    /// Decodes an exact canonical RGBA value into its palette color.
    /// Fails for every value whose alpha is not 255 and for every RGB
    /// triple outside the 64-entry table.
    pub fn decode(rgba: Rgba) -> (r: Result<Color, InvalidColor>)
        ensures
            r matches Ok(c) ==> spec_decode(rgba) == Some(c),
            r is Err <==> spec_decode(rgba) is None,
    {
        if rgba.a != 255 {
            return Err(InvalidColor);
        }
        match (rgba.r, rgba.g, rgba.b) {
            (0x00, 0x00, 0x00) => Ok(Color::Black),
            (0x3C, 0x3C, 0x3C) => Ok(Color::DarkGray),
            (0x78, 0x78, 0x78) => Ok(Color::Gray),
            (0xD2, 0xD2, 0xD2) => Ok(Color::LightGray),
            (0xFF, 0xFF, 0xFF) => Ok(Color::White),
            (0x60, 0x00, 0x18) => Ok(Color::DeepRed),
            (0xED, 0x1C, 0x24) => Ok(Color::Red),
            (0xFF, 0x7F, 0x27) => Ok(Color::Orange),
            (0xF6, 0xAA, 0x09) => Ok(Color::Gold),
            (0xF9, 0xDD, 0x3B) => Ok(Color::Yellow),
            (0xFF, 0xFA, 0xBC) => Ok(Color::LightYellow),
            (0x0E, 0xB9, 0x68) => Ok(Color::DarkGreen),
            (0x13, 0xE6, 0x7B) => Ok(Color::Green),
            (0x87, 0xFF, 0x5E) => Ok(Color::LightGreen),
            (0x0C, 0x81, 0x6E) => Ok(Color::DarkTeal),
            (0x10, 0xAE, 0xA6) => Ok(Color::Teal),
            (0x13, 0xE1, 0xBE) => Ok(Color::LightTeal),
            (0x60, 0xF7, 0xF2) => Ok(Color::DarkBlue),
            (0x28, 0x50, 0x9E) => Ok(Color::Blue),
            (0x40, 0x93, 0xE4) => Ok(Color::Cyan),
            (0x6B, 0x50, 0xF6) => Ok(Color::Indigo),
            (0x99, 0xB1, 0xFB) => Ok(Color::LightIndigo),
            (0x78, 0x0C, 0x99) => Ok(Color::DarkPurple),
            (0xAA, 0x38, 0xB9) => Ok(Color::Purple),
            (0xE0, 0x9F, 0xF9) => Ok(Color::LightPurple),
            (0xCB, 0x00, 0x7A) => Ok(Color::DarkPink),
            (0xEC, 0x1F, 0x80) => Ok(Color::Pink),
            (0xF3, 0x8D, 0xA9) => Ok(Color::LightPink),
            (0x68, 0x46, 0x34) => Ok(Color::DarkBrown),
            (0x95, 0x68, 0x2A) => Ok(Color::Brown),
            (0xF8, 0xB2, 0x77) => Ok(Color::Beige),
            (0xDE, 0xFA, 0xCE) => Ok(Color::Transparent),
            (0xAA, 0xAA, 0xAA) => Ok(Color::MediumGray),
            (0xA5, 0x0E, 0x1E) => Ok(Color::DarkRed),
            (0xFA, 0x80, 0x72) => Ok(Color::LightRed),
            (0xE4, 0x5C, 0x1A) => Ok(Color::DarkOrange),
            (0x9C, 0x84, 0x31) => Ok(Color::DarkGoldenrod),
            (0xC5, 0xAD, 0x31) => Ok(Color::Goldenrod),
            (0xE8, 0xD4, 0x5F) => Ok(Color::LightGoldenrod),
            (0x4A, 0x6B, 0x3A) => Ok(Color::DarkOlive),
            (0x5A, 0x94, 0x4A) => Ok(Color::Olive),
            (0x84, 0xC5, 0x73) => Ok(Color::LightOlive),
            (0x0F, 0x79, 0x9F) => Ok(Color::DarkCyan),
            (0xBB, 0xFA, 0xF2) => Ok(Color::LightCyan),
            (0x7D, 0xC7, 0xFF) => Ok(Color::LightBlue),
            (0x4D, 0x31, 0xB8) => Ok(Color::DarkIndigo),
            (0x4A, 0x42, 0x84) => Ok(Color::DarkSlateBlue),
            (0x7A, 0x71, 0xC4) => Ok(Color::SlateBlue),
            (0xB5, 0xAE, 0xF1) => Ok(Color::LightSlateBlue),
            (0x9B, 0x52, 0x49) => Ok(Color::DarkPeach),
            (0xD1, 0x80, 0x78) => Ok(Color::Peach),
            (0xFA, 0xB6, 0xA4) => Ok(Color::LightPeach),
            (0xDB, 0xA4, 0x63) => Ok(Color::LightBrown),
            (0x7B, 0x63, 0x52) => Ok(Color::DarkTan),
            (0x9C, 0x84, 0x6B) => Ok(Color::Tan),
            (0xD6, 0xB5, 0x94) => Ok(Color::LightTan),
            (0xD1, 0x80, 0x51) => Ok(Color::DarkBeige),
            (0xFF, 0xC5, 0xA5) => Ok(Color::LightBeige),
            (0x6D, 0x64, 0x3F) => Ok(Color::DarkStone),
            (0x94, 0x8C, 0x6B) => Ok(Color::Stone),
            (0xCD, 0xC5, 0x9E) => Ok(Color::LightStone),
            (0x33, 0x39, 0x41) => Ok(Color::DarkSlate),
            (0x6D, 0x75, 0x8D) => Ok(Color::Slate),
            (0xB3, 0xB9, 0xD1) => Ok(Color::LightSlate),
            _ => Err(InvalidColor),
        }
    }

    /// Decodes a palette index in 0..64 into its color; fails otherwise.
    pub fn decode_index(v: u8) -> (r: Result<Color, InvalidIndex>)
        ensures
            r matches Ok(c) ==> spec_index(c) == v as int,
            r is Ok <==> v < 64,
    {
        match v {
            0 => Ok(Color::Black),
            1 => Ok(Color::DarkGray),
            2 => Ok(Color::Gray),
            3 => Ok(Color::LightGray),
            4 => Ok(Color::White),
            5 => Ok(Color::DeepRed),
            6 => Ok(Color::Red),
            7 => Ok(Color::Orange),
            8 => Ok(Color::Gold),
            9 => Ok(Color::Yellow),
            10 => Ok(Color::LightYellow),
            11 => Ok(Color::DarkGreen),
            12 => Ok(Color::Green),
            13 => Ok(Color::LightGreen),
            14 => Ok(Color::DarkTeal),
            15 => Ok(Color::Teal),
            16 => Ok(Color::LightTeal),
            17 => Ok(Color::DarkBlue),
            18 => Ok(Color::Blue),
            19 => Ok(Color::Cyan),
            20 => Ok(Color::Indigo),
            21 => Ok(Color::LightIndigo),
            22 => Ok(Color::DarkPurple),
            23 => Ok(Color::Purple),
            24 => Ok(Color::LightPurple),
            25 => Ok(Color::DarkPink),
            26 => Ok(Color::Pink),
            27 => Ok(Color::LightPink),
            28 => Ok(Color::DarkBrown),
            29 => Ok(Color::Brown),
            30 => Ok(Color::Beige),
            31 => Ok(Color::Transparent),
            32 => Ok(Color::MediumGray),
            33 => Ok(Color::DarkRed),
            34 => Ok(Color::LightRed),
            35 => Ok(Color::DarkOrange),
            36 => Ok(Color::DarkGoldenrod),
            37 => Ok(Color::Goldenrod),
            38 => Ok(Color::LightGoldenrod),
            39 => Ok(Color::DarkOlive),
            40 => Ok(Color::Olive),
            41 => Ok(Color::LightOlive),
            42 => Ok(Color::DarkCyan),
            43 => Ok(Color::LightCyan),
            44 => Ok(Color::LightBlue),
            45 => Ok(Color::DarkIndigo),
            46 => Ok(Color::DarkSlateBlue),
            47 => Ok(Color::SlateBlue),
            48 => Ok(Color::LightSlateBlue),
            49 => Ok(Color::DarkPeach),
            50 => Ok(Color::Peach),
            51 => Ok(Color::LightPeach),
            52 => Ok(Color::LightBrown),
            53 => Ok(Color::DarkTan),
            54 => Ok(Color::Tan),
            55 => Ok(Color::LightTan),
            56 => Ok(Color::DarkBeige),
            57 => Ok(Color::LightBeige),
            58 => Ok(Color::DarkStone),
            59 => Ok(Color::Stone),
            60 => Ok(Color::LightStone),
            61 => Ok(Color::DarkSlate),
            62 => Ok(Color::Slate),
            63 => Ok(Color::LightSlate),
            _ => Err(InvalidIndex),
        }
    }

    /// Whether this color belongs to the "premium" (harder to obtain)
    /// half of the palette. A static classification; no behavior in this
    /// crate depends on it.
    pub fn is_premium(&self) -> (r: bool)
        ensures
            r == spec_is_premium(*self),
    {
        self.palette_index() >= 32
    }
}

/// Every palette index is in 0..64.
pub proof fn lemma_index_range(c: Color)
    ensures
        0 <= spec_index(c) < 64,
{
}

/// Distinct colors have distinct palette indices and distinct canonical
/// RGBA values: the palette tables are injective.
pub proof fn lemma_palette_injective(c1: Color, c2: Color)
    ensures
        c1 != c2 ==> spec_index(c1) != spec_index(c2),
        c1 != c2 ==> spec_encode(c1) != spec_encode(c2),
{
}

/// Decoding the canonical RGBA value of a color gives that color back.
pub proof fn lemma_decode_encode(c: Color)
    ensures
        spec_decode(spec_encode(c)) == Some(c),
{
}

/// When an RGBA value decodes at all, re-encoding the color gives the
/// exact bytes back; in particular its alpha was 255.
pub proof fn lemma_encode_decode(p: Rgba)
    ensures
        spec_decode(p) matches Some(c) ==> spec_encode(c) == p,
        spec_decode(p) is Some ==> p.a == 255,
{
}


/// The human-readable name of a color.
pub open spec fn spec_display_name(c: Color) -> Seq<char> {
    match c {
        Color::Black => "Black"@,
        Color::DarkGray => "Dark Gray"@,
        Color::Gray => "Gray"@,
        Color::LightGray => "Light Gray"@,
        Color::White => "White"@,
        Color::DeepRed => "Deep Red"@,
        Color::Red => "Red"@,
        Color::Orange => "Orange"@,
        Color::Gold => "Gold"@,
        Color::Yellow => "Yellow"@,
        Color::LightYellow => "Light Yellow"@,
        Color::DarkGreen => "Dark Green"@,
        Color::Green => "Green"@,
        Color::LightGreen => "Light Green"@,
        Color::DarkTeal => "Dark Teal"@,
        Color::Teal => "Teal"@,
        Color::LightTeal => "Light Teal"@,
        Color::DarkBlue => "Dark Blue"@,
        Color::Blue => "Blue"@,
        Color::Cyan => "Cyan"@,
        Color::Indigo => "Indigo"@,
        Color::LightIndigo => "Light Indigo"@,
        Color::DarkPurple => "Dark Purple"@,
        Color::Purple => "Purple"@,
        Color::LightPurple => "Light Purple"@,
        Color::DarkPink => "Dark Pink"@,
        Color::Pink => "Pink"@,
        Color::LightPink => "Light Pink"@,
        Color::DarkBrown => "Dark Brown"@,
        Color::Brown => "Brown"@,
        Color::Beige => "Beige"@,
        Color::Transparent => "Transparent"@,
        Color::MediumGray => "Medium Gray"@,
        Color::DarkRed => "Dark Red"@,
        Color::LightRed => "Light Red"@,
        Color::DarkOrange => "Dark Orange"@,
        Color::DarkGoldenrod => "Dark Goldenrod"@,
        Color::Goldenrod => "Goldenrod"@,
        Color::LightGoldenrod => "Light Goldenrod"@,
        Color::DarkOlive => "Dark Olive"@,
        Color::Olive => "Olive"@,
        Color::LightOlive => "Light Olive"@,
        Color::DarkCyan => "Dark Cyan"@,
        Color::LightCyan => "Light Cyan"@,
        Color::LightBlue => "Light Blue"@,
        Color::DarkIndigo => "Dark Indigo"@,
        Color::DarkSlateBlue => "Dark Slate Blue"@,
        Color::SlateBlue => "Slate Blue"@,
        Color::LightSlateBlue => "Light Slate Blue"@,
        Color::DarkPeach => "Dark Peach"@,
        Color::Peach => "Peach"@,
        Color::LightPeach => "Light Peach"@,
        Color::LightBrown => "Light Brown"@,
        Color::DarkTan => "Dark Tan"@,
        Color::Tan => "Tan"@,
        Color::LightTan => "Light Tan"@,
        Color::DarkBeige => "Dark Beige"@,
        Color::LightBeige => "Light Beige"@,
        Color::DarkStone => "Dark Stone"@,
        Color::Stone => "Stone"@,
        Color::LightStone => "Light Stone"@,
        Color::DarkSlate => "Dark Slate"@,
        Color::Slate => "Slate"@,
        Color::LightSlate => "Light Slate"@,
    }
}

impl Color {
    /// The color's human-readable name.
    pub fn display_name(&self) -> (r: &'static str)
        ensures
            r@ == spec_display_name(*self),
    {
        match self {
            Color::Black => "Black",
            Color::DarkGray => "Dark Gray",
            Color::Gray => "Gray",
            Color::LightGray => "Light Gray",
            Color::White => "White",
            Color::DeepRed => "Deep Red",
            Color::Red => "Red",
            Color::Orange => "Orange",
            Color::Gold => "Gold",
            Color::Yellow => "Yellow",
            Color::LightYellow => "Light Yellow",
            Color::DarkGreen => "Dark Green",
            Color::Green => "Green",
            Color::LightGreen => "Light Green",
            Color::DarkTeal => "Dark Teal",
            Color::Teal => "Teal",
            Color::LightTeal => "Light Teal",
            Color::DarkBlue => "Dark Blue",
            Color::Blue => "Blue",
            Color::Cyan => "Cyan",
            Color::Indigo => "Indigo",
            Color::LightIndigo => "Light Indigo",
            Color::DarkPurple => "Dark Purple",
            Color::Purple => "Purple",
            Color::LightPurple => "Light Purple",
            Color::DarkPink => "Dark Pink",
            Color::Pink => "Pink",
            Color::LightPink => "Light Pink",
            Color::DarkBrown => "Dark Brown",
            Color::Brown => "Brown",
            Color::Beige => "Beige",
            Color::Transparent => "Transparent",
            Color::MediumGray => "Medium Gray",
            Color::DarkRed => "Dark Red",
            Color::LightRed => "Light Red",
            Color::DarkOrange => "Dark Orange",
            Color::DarkGoldenrod => "Dark Goldenrod",
            Color::Goldenrod => "Goldenrod",
            Color::LightGoldenrod => "Light Goldenrod",
            Color::DarkOlive => "Dark Olive",
            Color::Olive => "Olive",
            Color::LightOlive => "Light Olive",
            Color::DarkCyan => "Dark Cyan",
            Color::LightCyan => "Light Cyan",
            Color::LightBlue => "Light Blue",
            Color::DarkIndigo => "Dark Indigo",
            Color::DarkSlateBlue => "Dark Slate Blue",
            Color::SlateBlue => "Slate Blue",
            Color::LightSlateBlue => "Light Slate Blue",
            Color::DarkPeach => "Dark Peach",
            Color::Peach => "Peach",
            Color::LightPeach => "Light Peach",
            Color::LightBrown => "Light Brown",
            Color::DarkTan => "Dark Tan",
            Color::Tan => "Tan",
            Color::LightTan => "Light Tan",
            Color::DarkBeige => "Dark Beige",
            Color::LightBeige => "Light Beige",
            Color::DarkStone => "Dark Stone",
            Color::Stone => "Stone",
            Color::LightStone => "Light Stone",
            Color::DarkSlate => "Dark Slate",
            Color::Slate => "Slate",
            Color::LightSlate => "Light Slate",
        }
    }
}

} // verus!
