use wplace_core::color::Color;
use wplace_core::color::Rgba;
use wplace_core::image_comparison::ImageComparison;
use wplace_core::image_comparison::ImageComparisonError;
use wplace_core::image_data::ImageData;

fn transparent() -> Rgba {
    Rgba { r: 0, g: 0, b: 0, a: 0 }
}

#[test]
fn identical_images_have_no_differences() {
    let red = Color::Red.encode();
    let black = Color::Black.encode();
    let pixels = vec![red, black, transparent(), red, red, black];
    let a = ImageData::new(3, 2, pixels.clone()).unwrap();
    let b = ImageData::new(3, 2, pixels).unwrap();
    let cmp = ImageComparison::compare_images(&a, &b).unwrap();
    assert!(cmp.get_different_px().is_empty());
    assert!(cmp.get_difference_color_count().iter().all(|&c| c == 0));
    assert_eq!(cmp.get_total_different_px(), 0);
}

#[test]
fn single_difference_at_origin_counts_the_template_color() {
    let red = Color::Red.encode();
    let black = Color::Black.encode();
    let white = Color::White.encode();
    let template = ImageData::new(2, 1, vec![red, black]).unwrap();
    let current = ImageData::new(2, 1, vec![white, black]).unwrap();
    let cmp = ImageComparison::compare_images(&template, &current).unwrap();
    assert_eq!(cmp.get_different_px().as_slice(), &[(0u32, 0u32)]);
    let red_idx = Color::Red.palette_index() as usize;
    assert_eq!(cmp.get_difference_color_count()[red_idx], 1);
    let sum: u64 = cmp.get_difference_color_count().iter().sum();
    assert_eq!(sum, 1);
    assert_eq!(cmp.get_total_different_px(), 1);
}

#[test]
fn width_mismatch_wins_whatever_the_heights() {
    let red = Color::Red.encode();
    let a = ImageData::new(2, 1, vec![red, red]).unwrap();
    let b = ImageData::new(1, 1, vec![red]).unwrap();
    assert!(matches!(
        ImageComparison::compare_images(&a, &b),
        Err(ImageComparisonError::IncongruentWidth)
    ));
    // unequal heights as well: still the width error
    let c = ImageData::new(1, 2, vec![red, red]).unwrap();
    assert!(matches!(
        ImageComparison::compare_images(&a, &c),
        Err(ImageComparisonError::IncongruentWidth)
    ));
}

#[test]
fn height_mismatch_when_widths_agree() {
    let red = Color::Red.encode();
    let a = ImageData::new(1, 2, vec![red, red]).unwrap();
    let b = ImageData::new(1, 1, vec![red]).unwrap();
    assert!(matches!(
        ImageComparison::compare_images(&a, &b),
        Err(ImageComparisonError::IncongruentHeight)
    ));
}

#[test]
fn differing_pixels_are_listed_in_scan_order() {
    let red = Color::Red.encode();
    let black = Color::Black.encode();
    let white = Color::White.encode();
    let template = ImageData::new(2, 2, vec![red, black, white, red]).unwrap();
    let current = ImageData::new(2, 2, vec![red, white, white, black]).unwrap();
    let cmp = ImageComparison::compare_images(&template, &current).unwrap();
    assert_eq!(cmp.get_different_px().as_slice(), &[(1u32, 0u32), (1u32, 1u32)]);
    let black_idx = Color::Black.palette_index() as usize;
    let red_idx = Color::Red.palette_index() as usize;
    assert_eq!(cmp.get_difference_color_count()[black_idx], 1);
    assert_eq!(cmp.get_difference_color_count()[red_idx], 1);
    assert_eq!(cmp.get_total_different_px(), 2);
}

#[test]
fn highlight_image_marks_differing_cells_only() {
    let red = Color::Red.encode();
    let black = Color::Black.encode();
    let template = ImageData::new(2, 1, vec![red, black]).unwrap();
    let current = ImageData::new(2, 1, vec![black, black]).unwrap();
    let cmp = ImageComparison::compare_images(&template, &current).unwrap();
    let hi = cmp.get_difference_image();
    assert_eq!(hi.len(), 2);
    assert_eq!((hi[0].r, hi[0].g, hi[0].b, hi[0].a), (255, 0, 255, 255));
    assert_eq!((hi[1].r, hi[1].g, hi[1].b, hi[1].a), (0, 0, 0, 0));
}

#[test]
fn transparent_template_pixel_differs_without_a_color_count() {
    let black = Color::Black.encode();
    let template = ImageData::new(1, 1, vec![transparent()]).unwrap();
    let current = ImageData::new(1, 1, vec![black]).unwrap();
    let cmp = ImageComparison::compare_images(&template, &current).unwrap();
    assert_eq!(cmp.get_different_px().as_slice(), &[(0u32, 0u32)]);
    assert_eq!(cmp.get_total_different_px(), 0);
}
