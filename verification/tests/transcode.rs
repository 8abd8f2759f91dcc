use photo_gallery::transcode::calculate_dimensions;

#[test]
fn small_pictures_keep_their_size() {
    assert_eq!(calculate_dimensions(800, 600, 1920), (800, 600));
    assert_eq!(calculate_dimensions(1920, 1920, 1920), (1920, 1920));
    assert_eq!(calculate_dimensions(0, 0, 400), (0, 0));
}

#[test]
fn landscape_is_scaled_to_the_longest_edge() {
    assert_eq!(calculate_dimensions(3840, 2160, 1920), (1920, 1080));
    assert_eq!(calculate_dimensions(4000, 3000, 400), (400, 300));
    assert_eq!(calculate_dimensions(4000, 1, 1920), (1920, 0));
}

#[test]
fn portrait_is_scaled_to_the_longest_edge() {
    assert_eq!(calculate_dimensions(2160, 3840, 1920), (1080, 1920));
    assert_eq!(calculate_dimensions(3000, 3000, 400), (400, 400));
    assert_eq!(calculate_dimensions(1000, 3001, 400), (133, 400));
}

#[test]
fn scaling_keeps_the_aspect_ratio_within_a_pixel() {
    let (w, h) = calculate_dimensions(6000, 4001, 1920);
    assert_eq!(w, 1920);
    assert_eq!(h, 1280);
    assert!((h as u64) * 6000 <= 1920 * 4001);
    assert!(1920 * 4001 < (h as u64 + 1) * 6000);
}

#[test]
fn zero_width_or_height_is_kept_or_scaled_to_zero() {
    assert_eq!(calculate_dimensions(0, 5000, 400), (0, 400));
    assert_eq!(calculate_dimensions(5000, 0, 400), (400, 0));
    assert_eq!(calculate_dimensions(u32::MAX, u32::MAX, 1920), (1920, 1920));
    assert_eq!(calculate_dimensions(u32::MAX, 1, 0), (0, 0));
}
