use photo_gallery::layout::{
    album_directories, album_directory, image_files, image_path, quality_directory, thumbnail_url,
};
use photo_gallery::quality::ImageQuality;
use photo_gallery::text::i64_text;

#[test]
fn quality_names() {
    assert_eq!(ImageQuality::Full.as_str(), "full");
    assert_eq!(ImageQuality::Optimized.as_str(), "optimized");
    assert_eq!(ImageQuality::Thumbnail.as_str(), "thumbnail");
}

#[test]
fn numbers_are_written_in_decimal() {
    assert_eq!(i64_text(0), "0");
    assert_eq!(i64_text(7), "7");
    assert_eq!(i64_text(10), "10");
    assert_eq!(i64_text(1234567890), "1234567890");
    assert_eq!(i64_text(-1), "-1");
    assert_eq!(i64_text(-905), "-905");
    assert_eq!(i64_text(i64::MAX), "9223372036854775807");
    assert_eq!(i64_text(i64::MIN), "-9223372036854775808");
    for n in [-1000i64, -99, -10, -9, 9, 99, 100, 101, 65535, 4294967296] {
        assert_eq!(i64_text(n), n.to_string());
    }
}

#[test]
fn directories_of_an_album() {
    assert_eq!(album_directory(42), "uploads/42");
    assert_eq!(quality_directory(42, ImageQuality::Optimized), "uploads/42/optimized");
    assert_eq!(
        album_directories(7),
        vec![
            "uploads/7/full".to_string(),
            "uploads/7/optimized".to_string(),
            "uploads/7/thumbnail".to_string(),
        ]
    );
}

#[test]
fn asking_for_the_directories_twice_gives_the_same_directories() {
    assert_eq!(album_directories(3), album_directories(3));
}

#[test]
fn files_of_an_image() {
    assert_eq!(image_path(5, "a.jpg", ImageQuality::Full), "uploads/5/full/a.jpg");
    assert_eq!(image_path(5, "a.jpg", ImageQuality::Thumbnail), "uploads/5/thumbnail/a.jpg");
    let files = image_files(12, "x.png");
    assert_eq!(
        files,
        vec![
            "uploads/12/full/x.png".to_string(),
            "uploads/12/optimized/x.png".to_string(),
            "uploads/12/thumbnail/x.png".to_string(),
        ]
    );
    assert_ne!(files[0], files[1]);
    assert_ne!(files[1], files[2]);
    assert_ne!(files[0], files[2]);
}

#[test]
fn files_of_different_images_differ() {
    let a = image_files(1, "a.jpg");
    let b = image_files(1, "b.jpg");
    let c = image_files(11, "a.jpg");
    for x in &a {
        assert!(!b.contains(x));
        assert!(!c.contains(x));
        assert!(x.starts_with("uploads/1/"));
        assert!(!x.starts_with("uploads/11/"));
    }
}

#[test]
fn address_of_a_thumbnail() {
    assert_eq!(thumbnail_url(9, "p.jpg"), "/uploads/9/thumbnail/p.jpg");
}
