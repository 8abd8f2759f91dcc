use photo_gallery::catalog::{
    clone_text, Album, AlbumFields, Catalog, CreateAlbumRequest, ModeMetadata,
};
use photo_gallery::exif::{summarize_tags, ExifFields, TagValue, TAG_F_NUMBER, TAG_LENS_MODEL, TAG_MODEL};

fn request(name: &str) -> CreateAlbumRequest {
    CreateAlbumRequest {
        name: name.to_string(),
        description: Some(format!("about {}", name)),
        date: "2024-05-01".to_string(),
    }
}

fn camera(model: &str, lens: &str, aperture: &str) -> ExifFields {
    summarize_tags(&vec![
        TagValue { code: TAG_MODEL, text: model.to_string() },
        TagValue { code: TAG_LENS_MODEL, text: lens.to_string() },
        TagValue { code: TAG_F_NUMBER, text: aperture.to_string() },
    ])
}

fn count(catalog: &Catalog, album: i64) -> i32 {
    catalog.get_album(album).unwrap().num_images
}

#[test]
fn a_new_album_has_no_images_and_no_modes() {
    let mut catalog = Catalog::new();
    let id = catalog.create_album(&request("trip")).unwrap();
    assert_eq!(id, 1);
    let album = catalog.get_album(id).unwrap();
    assert_eq!(album.name, "trip");
    assert_eq!(album.description, Some("about trip".to_string()));
    assert_eq!(album.date, "2024-05-01");
    assert_eq!(album.num_images, 0);
    assert_eq!(album.camera_model, None);
    assert_eq!(album.lens_model, None);
    assert_eq!(album.aperture, None);
    assert_eq!(catalog.create_album(&request("next")), Some(2));
    assert!(catalog.get_album(3).is_none());
}

#[test]
fn an_album_counts_its_images_after_every_change() {
    let mut catalog = Catalog::new();
    let a = catalog.create_album(&request("a")).unwrap();
    let b = catalog.create_album(&request("b")).unwrap();
    let i1 = catalog.insert_image(a, "1.jpg".to_string(), 10, ExifFields::unknown()).unwrap();
    assert_eq!((count(&catalog, a), count(&catalog, b)), (1, 0));
    let i2 = catalog.insert_image(b, "2.jpg".to_string(), 20, ExifFields::unknown()).unwrap();
    let i3 = catalog.insert_image(a, "3.jpg".to_string(), 30, ExifFields::unknown()).unwrap();
    assert_eq!((i1, i2, i3), (1, 2, 3));
    assert_eq!((count(&catalog, a), count(&catalog, b)), (2, 1));
    assert!(catalog.delete_image(i1).is_some());
    assert_eq!((count(&catalog, a), count(&catalog, b)), (1, 1));
    assert!(catalog.delete_image(i1).is_none());
    assert_eq!((count(&catalog, a), count(&catalog, b)), (1, 1));
    assert!(catalog.delete_album(b));
    assert_eq!(count(&catalog, a), 1);
    assert!(catalog.get_album(b).is_none());
}

#[test]
fn an_image_is_recorded_with_its_metadata() {
    let mut catalog = Catalog::new();
    let a = catalog.create_album(&request("a")).unwrap();
    let id = catalog.insert_image(a, "x.jpg".to_string(), 1234, camera("R5", "50mm", "f/2")).unwrap();
    let image = catalog.get_image(id).unwrap();
    assert_eq!(image.id, id);
    assert_eq!(image.album_id, a);
    assert_eq!(image.filename, "x.jpg");
    assert_eq!(image.file_size, 1234);
    assert_eq!(image.camera_model, Some("R5".to_string()));
    assert_eq!(image.lens_model, Some("50mm".to_string()));
    assert_eq!(image.aperture, Some("f/2".to_string()));
    assert_eq!(image.camera_make, Some("Unknown".to_string()));
    assert_eq!(image.date_created, Some("Unknown".to_string()));
    assert!(catalog.get_image(id + 1).is_none());
}

#[test]
fn an_image_of_an_album_that_does_not_exist_is_refused() {
    let mut catalog = Catalog::new();
    assert_eq!(catalog.insert_image(1, "x.jpg".to_string(), 1, ExifFields::unknown()), None);
    let a = catalog.create_album(&request("a")).unwrap();
    assert_eq!(catalog.insert_image(a + 1, "x.jpg".to_string(), 1, ExifFields::unknown()), None);
    assert_eq!(count(&catalog, a), 0);
    assert_eq!(catalog.insert_image(a, "x.jpg".to_string(), 1, ExifFields::unknown()), Some(1));
}

#[test]
fn the_modes_of_an_album_follow_its_images() {
    let mut catalog = Catalog::new();
    let a = catalog.create_album(&request("a")).unwrap();
    let b = catalog.create_album(&request("b")).unwrap();
    catalog.insert_image(a, "1.jpg".to_string(), 1, camera("A", "wide", "f/8"));
    catalog.insert_image(b, "2.jpg".to_string(), 1, camera("B", "tele", "f/4"));
    catalog.insert_image(a, "3.jpg".to_string(), 1, camera("A", "tele", "f/4"));
    catalog.insert_image(b, "4.jpg".to_string(), 1, camera("B", "tele", "f/4"));
    catalog.insert_image(a, "5.jpg".to_string(), 1, camera("B", "tele", "f/8"));
    let modes = catalog.get_album_mode_metadata(a);
    assert_eq!(modes.camera_model, Some("A".to_string()));
    assert_eq!(modes.lens_model, Some("tele".to_string()));
    assert_eq!(modes.aperture, Some("f/8".to_string()));
    assert_eq!(catalog.get_album(a).unwrap().camera_model, None);
    assert!(catalog.update_album_metadata(a));
    let album = catalog.get_album(a).unwrap();
    assert_eq!(album.camera_model, Some("A".to_string()));
    assert_eq!(album.lens_model, Some("tele".to_string()));
    assert_eq!(album.aperture, Some("f/8".to_string()));
    assert_eq!(album.num_images, 3);
    assert_eq!(album.name, "a");
    assert_eq!(catalog.get_album(b).unwrap().camera_model, None);
    assert!(!catalog.update_album_metadata(99));
}

#[test]
fn an_album_without_images_has_no_modes() {
    let mut catalog = Catalog::new();
    let a = catalog.create_album(&request("a")).unwrap();
    let id = catalog.insert_image(a, "1.jpg".to_string(), 1, camera("A", "l", "f/1")).unwrap();
    assert!(catalog.update_album_metadata(a));
    assert_eq!(catalog.get_album(a).unwrap().camera_model, Some("A".to_string()));
    catalog.delete_image(id);
    assert_eq!(catalog.get_album(a).unwrap().camera_model, Some("A".to_string()));
    assert!(catalog.update_album_metadata(a));
    let album = catalog.get_album(a).unwrap();
    assert_eq!(album.camera_model, None);
    assert_eq!(album.lens_model, None);
    assert_eq!(album.aperture, None);
    let modes = catalog.get_album_mode_metadata(12345);
    assert_eq!(modes.camera_model, None);
}

#[test]
fn deleting_an_image_leaves_its_siblings_and_its_album() {
    let mut catalog = Catalog::new();
    let a = catalog.create_album(&request("a")).unwrap();
    let i1 = catalog.insert_image(a, "1.jpg".to_string(), 1, ExifFields::unknown()).unwrap();
    let i2 = catalog.insert_image(a, "2.jpg".to_string(), 2, ExifFields::unknown()).unwrap();
    let i3 = catalog.insert_image(a, "3.jpg".to_string(), 3, ExifFields::unknown()).unwrap();
    let removed = catalog.delete_image(i2).unwrap();
    assert_eq!(removed.id, i2);
    assert_eq!(removed.filename, "2.jpg");
    assert_eq!(removed.album_id, a);
    assert!(catalog.get_image(i2).is_none());
    assert_eq!(catalog.get_image(i1).unwrap().filename, "1.jpg");
    assert_eq!(catalog.get_image(i3).unwrap().filename, "3.jpg");
    assert_eq!(count(&catalog, a), 2);
    assert_eq!(catalog.get_album(a).unwrap().name, "a");
}

#[test]
fn deleting_an_album_removes_all_its_images_and_no_others() {
    let mut catalog = Catalog::new();
    let a = catalog.create_album(&request("a")).unwrap();
    let b = catalog.create_album(&request("b")).unwrap();
    let i1 = catalog.insert_image(a, "1.jpg".to_string(), 1, ExifFields::unknown()).unwrap();
    let i2 = catalog.insert_image(b, "2.jpg".to_string(), 2, ExifFields::unknown()).unwrap();
    let i3 = catalog.insert_image(a, "3.jpg".to_string(), 3, ExifFields::unknown()).unwrap();
    assert!(catalog.delete_album(a));
    assert!(catalog.get_album(a).is_none());
    assert!(catalog.get_image(i1).is_none());
    assert!(catalog.get_image(i3).is_none());
    assert_eq!(catalog.get_image(i2).unwrap().album_id, b);
    assert_eq!(count(&catalog, b), 1);
    assert!(!catalog.delete_album(a));
    assert_eq!(catalog.insert_image(a, "4.jpg".to_string(), 4, ExifFields::unknown()), None);
    assert_eq!(catalog.create_album(&request("c")), Some(3));
    assert_eq!(catalog.insert_image(b, "5.jpg".to_string(), 5, ExifFields::unknown()), Some(4));
}

#[test]
fn details_of_an_album_can_be_changed() {
    let mut catalog = Catalog::new();
    let a = catalog.create_album(&request("a")).unwrap();
    catalog.insert_image(a, "1.jpg".to_string(), 1, ExifFields::unknown());
    let change = CreateAlbumRequest { name: "new".to_string(), description: None, date: "2025".to_string() };
    assert!(catalog.update_album_details(a, &change));
    let album = catalog.get_album(a).unwrap();
    assert_eq!(album.name, "new");
    assert_eq!(album.description, None);
    assert_eq!(album.date, "2025");
    assert_eq!(album.num_images, 1);
    assert!(!catalog.update_album_details(a + 5, &change));
}

#[test]
fn fields_that_were_sent_replace_those_of_the_album() {
    let album = Album {
        id: 1,
        name: "old".to_string(),
        description: Some("d".to_string()),
        date: "2020".to_string(),
        num_images: 0,
        camera_model: None,
        lens_model: None,
        aperture: None,
    };
    let sent = AlbumFields { name: Some("new".to_string()), description: None, date: None };
    let r = sent.applied_to(&album);
    assert_eq!(r.name, "new");
    assert_eq!(r.description, Some("d".to_string()));
    assert_eq!(r.date, "2020");
    let all = AlbumFields {
        name: None,
        description: Some("x".to_string()),
        date: Some("2021".to_string()),
    };
    let r = all.applied_to(&album);
    assert_eq!((r.name.as_str(), r.description, r.date.as_str()), ("old", Some("x".to_string()), "2021"));
    let empty = AlbumFields::default().into_request();
    assert_eq!((empty.name.as_str(), empty.description, empty.date.as_str()), ("", None, ""));
    let named = AlbumFields { name: Some("n".to_string()), description: None, date: None }.into_request();
    assert_eq!(named.name, "n");
}

#[test]
fn defaults_and_copies() {
    let m = ModeMetadata::default();
    assert_eq!((m.camera_model, m.lens_model, m.aperture), (None, None, None));
    assert_eq!(clone_text(&Some("a".to_string())), Some("a".to_string()));
    assert_eq!(clone_text(&None), None);
}
