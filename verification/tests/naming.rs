use photo_gallery::naming::{file_extension, filename_with_token, generate_unique_filename};

fn ext(path: &str) -> Option<String> {
    file_extension(path)
}

#[test]
fn extension_of_plain_names() {
    assert_eq!(ext("photo.jpg"), Some("jpg".to_string()));
    assert_eq!(ext("photo.tar.gz"), Some("gz".to_string()));
    assert_eq!(ext("photo.PNG"), Some("PNG".to_string()));
    assert_eq!(ext("photo"), None);
    assert_eq!(ext(""), None);
    assert_eq!(ext("photo."), Some("".to_string()));
}

#[test]
fn extension_of_hidden_and_dotted_names() {
    assert_eq!(ext(".hidden"), None);
    assert_eq!(ext(".hidden.png"), Some("png".to_string()));
    assert_eq!(ext("."), None);
    assert_eq!(ext(".."), None);
    assert_eq!(ext("..."), Some("".to_string()));
    assert_eq!(ext("..a"), Some("a".to_string()));
}

#[test]
fn extension_is_taken_from_the_final_component() {
    assert_eq!(ext("dir.d/photo"), None);
    assert_eq!(ext("dir.d/photo.jpeg"), Some("jpeg".to_string()));
    assert_eq!(ext("/abs/file.webp"), Some("webp".to_string()));
    assert_eq!(ext("a.b/"), Some("b".to_string()));
    assert_eq!(ext("a.b/."), Some("b".to_string()));
    assert_eq!(ext("a.b/.//"), Some("b".to_string()));
    assert_eq!(ext("a.b/.."), None);
    assert_eq!(ext("/"), None);
    assert_eq!(ext("./"), None);
    assert_eq!(ext("x/./y.z"), Some("z".to_string()));
}

#[test]
fn extension_agrees_with_the_standard_library() {
    let cases = [
        "", ".", "..", "...", "a", "a.", ".a", "a.b", "a.b.c", "/", "//", "a/", "a/b.c", "a.b/c",
        "a.b/", "a.b/.", "a.b/..", "./a.b", "../a.b", "a/../b.c", "a//b.c//", "é.ü", "a.b/./.",
        ".a.", "..a.", "a..", "a/.b", "a/.b.c",
    ];
    for case in cases {
        let expected = std::path::Path::new(case)
            .extension()
            .and_then(|e| e.to_str())
            .map(|e| e.to_string());
        assert_eq!(ext(case), expected, "for {:?}", case);
    }
}

#[test]
fn stored_name_is_token_dot_extension() {
    assert_eq!(filename_with_token("tok", "IMG_1.JPG"), "tok.JPG");
    assert_eq!(filename_with_token("tok", "noext"), "tok.jpg");
    assert_eq!(filename_with_token("tok", ""), "tok.jpg");
    assert_eq!(filename_with_token("tok", "a/b.png"), "tok.png");
    assert_eq!(filename_with_token("tok", "trailing."), "tok.");
    assert_eq!(filename_with_token("tok", "unknown.jpg"), "tok.jpg");
}

#[test]
fn generated_names_have_the_shape_of_a_token_and_an_extension() {
    let name = generate_unique_filename("holiday.png");
    assert_eq!(name.len(), 36 + 1 + 3);
    assert!(name.ends_with(".png"));
    for (i, c) in name.chars().take(36).enumerate() {
        if i == 8 || i == 13 || i == 18 || i == 23 {
            assert_eq!(c, '-');
        } else {
            assert!(c.is_ascii_digit() || ('a'..='f').contains(&c));
        }
    }
    assert!(!name.contains('/'));
    assert_ne!(name, "holiday.png");
}

#[test]
fn generated_names_default_to_jpg_and_differ() {
    let a = generate_unique_filename("scan");
    let b = generate_unique_filename("scan");
    assert!(a.ends_with(".jpg"));
    assert!(b.ends_with(".jpg"));
    assert_eq!(a.len(), 40);
    assert_ne!(a, b);
}
