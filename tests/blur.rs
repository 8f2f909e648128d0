use takumi::blur::{blur_is_visible, fast_div_255, premultiply_alpha, unpremultiply_alpha, BlurType};
use takumi::numeric::UNIT;

#[test]
fn opaque_pixels_survive_premultiplication() {
    let opaque = vec![10, 20, 30, 255, 200, 100, 0, 255];
    let mut image = opaque.clone();
    premultiply_alpha(&mut image);
    assert_eq!(image, opaque);
    unpremultiply_alpha(&mut image);
    assert_eq!(image, opaque);
}

#[test]
fn translucent_pixels_are_scaled_by_alpha() {
    let mut image = vec![200, 100, 0, 128, 50, 60, 70, 0];
    premultiply_alpha(&mut image);
    assert_eq!(image, vec![100, 50, 0, 128, 0, 0, 0, 0]);
    unpremultiply_alpha(&mut image);
    assert_eq!(image, vec![199, 100, 0, 128, 0, 0, 0, 0]);
}

#[test]
fn empty_image_is_left_alone() {
    let mut image: Vec<u8> = Vec::new();
    premultiply_alpha(&mut image);
    unpremultiply_alpha(&mut image);
    assert!(image.is_empty());
    assert!(!blur_is_visible(0, 0, 5 * UNIT, BlurType::Filter));
    assert!(!blur_is_visible(10, 0, 5 * UNIT, BlurType::Filter));
}

#[test]
fn small_sigma_is_invisible() {
    assert!(blur_is_visible(10, 10, UNIT, BlurType::Filter));
    assert!(!blur_is_visible(10, 10, UNIT, BlurType::Shadow));
    assert!(blur_is_visible(10, 10, 2 * UNIT, BlurType::Shadow));
    assert!(!blur_is_visible(10, 10, UNIT / 2, BlurType::Filter));
}

#[test]
fn sigma_and_extent_follow_blur_type() {
    assert_eq!(BlurType::Filter.to_sigma(3 * UNIT), 3 * UNIT);
    assert_eq!(BlurType::Shadow.to_sigma(3 * UNIT), 1_500_000);
    assert_eq!(BlurType::Filter.extent_multiplier(), (3, 1));
    assert_eq!(BlurType::Shadow.extent_multiplier(), (3, 2));
}

#[test]
fn fast_division_by_255() {
    assert_eq!(fast_div_255(0), 0);
    assert_eq!(fast_div_255(255 * 255), 255);
    assert_eq!(fast_div_255(128 * 255), 128);
    assert_eq!(fast_div_255(200 * 128), 100);
}
