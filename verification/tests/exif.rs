use photo_gallery::exif::{
    extract_exif_metadata, metadata_or_unknown, summarize_tags, ExifFields, TagValue,
    TAG_DATE_TIME_ORIGINAL, TAG_EXPOSURE_TIME, TAG_FOCAL_LENGTH, TAG_F_NUMBER, TAG_ISO,
    TAG_LENS_MODEL, TAG_LIGHT_SOURCE, TAG_MAKE, TAG_MODEL,
};

fn tag(code: u32, text: &str) -> TagValue {
    TagValue { code, text: text.to_string() }
}

fn as_list(f: &ExifFields) -> Vec<&str> {
    vec![
        f.camera_make.as_str(),
        f.camera_model.as_str(),
        f.lens_model.as_str(),
        f.iso.as_str(),
        f.aperture.as_str(),
        f.shutter_speed.as_str(),
        f.focal_length.as_str(),
        f.light_source.as_str(),
        f.date_created.as_str(),
    ]
}

/// A TIFF file, little endian, whose only directory holds the given ASCII
/// tags.
fn tiff_with(tags: &[(u16, &str)]) -> Vec<u8> {
    let mut out = vec![0x49, 0x49, 0x2a, 0x00, 8, 0, 0, 0];
    out.extend_from_slice(&(tags.len() as u16).to_le_bytes());
    let mut data_at = 8 + 2 + 12 * tags.len() as u32 + 4;
    let mut data: Vec<u8> = Vec::new();
    for (code, text) in tags {
        let mut value = text.as_bytes().to_vec();
        value.push(0);
        while value.len() < 5 {
            value.push(0);
        }
        out.extend_from_slice(&code.to_le_bytes());
        out.extend_from_slice(&2u16.to_le_bytes());
        out.extend_from_slice(&(value.len() as u32).to_le_bytes());
        out.extend_from_slice(&data_at.to_le_bytes());
        data_at += value.len() as u32;
        data.extend_from_slice(&value);
    }
    out.extend_from_slice(&[0, 0, 0, 0]);
    out.extend_from_slice(&data);
    out
}

#[test]
fn every_field_is_picked_by_its_tag() {
    let tags = vec![
        tag(TAG_DATE_TIME_ORIGINAL, "2024:01:02 03:04:05"),
        tag(TAG_LIGHT_SOURCE, "Daylight"),
        tag(TAG_FOCAL_LENGTH, "50 mm"),
        tag(TAG_EXPOSURE_TIME, "1/200 s"),
        tag(TAG_F_NUMBER, "f/2.8"),
        tag(TAG_ISO, "ISO 100"),
        tag(TAG_LENS_MODEL, "EF50mm"),
        tag(TAG_MODEL, "EOS R5"),
        tag(TAG_MAKE, "Canon"),
    ];
    let f = summarize_tags(&tags);
    assert_eq!(
        as_list(&f),
        vec![
            "Canon",
            "EOS R5",
            "EF50mm",
            "ISO 100",
            "f/2.8",
            "1/200 s",
            "50 mm",
            "Daylight",
            "2024:01:02 03:04:05"
        ]
    );
}

#[test]
fn tag_codes() {
    assert_eq!(TAG_MAKE, 0x010f);
    assert_eq!(TAG_MODEL, 0x0110);
    assert_eq!(TAG_LENS_MODEL, 0xa434);
    assert_eq!(TAG_ISO, 0x8827);
    assert_eq!(TAG_F_NUMBER, 0x829d);
    assert_eq!(TAG_EXPOSURE_TIME, 0x829a);
    assert_eq!(TAG_FOCAL_LENGTH, 0x920a);
    assert_eq!(TAG_LIGHT_SOURCE, 0x9208);
    assert_eq!(TAG_DATE_TIME_ORIGINAL, 0x9003);
}

#[test]
fn missing_tags_read_unknown_and_present_ones_are_kept() {
    let tags = vec![tag(TAG_MODEL, "X100"), tag(0x0112, "Straight")];
    let f = summarize_tags(&tags);
    assert_eq!(f.camera_model, "X100");
    assert_eq!(f.camera_make, "Unknown");
    assert_eq!(f.lens_model, "Unknown");
    assert_eq!(f.date_created, "Unknown");
    let none = summarize_tags(&Vec::new());
    assert_eq!(as_list(&none), vec!["Unknown"; 9]);
}

#[test]
fn the_last_of_repeated_tags_counts() {
    let tags = vec![tag(TAG_MAKE, "first"), tag(TAG_MODEL, "m"), tag(TAG_MAKE, "second")];
    let f = summarize_tags(&tags);
    assert_eq!(f.camera_make, "second");
    assert_eq!(f.camera_model, "m");
}

#[test]
fn bytes_without_metadata_give_nothing() {
    assert!(extract_exif_metadata(&[]).is_none());
    assert!(extract_exif_metadata(b"not an image at all, just text").is_none());
    assert!(extract_exif_metadata(&[0xff, 0xd8, 0xff, 0xe0, 0, 16, b'J', b'F', b'I', b'F', 0]).is_none());
}

#[test]
fn metadata_is_read_from_the_bytes_of_an_image() {
    let file = tiff_with(&[(0x010f, "Canon"), (0x0110, "EOS R5")]);
    let f = extract_exif_metadata(&file).unwrap();
    assert_eq!(f.camera_make, "Canon");
    assert_eq!(f.camera_model, "EOS R5");
    assert_eq!(f.lens_model, "Unknown");
    assert_eq!(f.iso, "Unknown");
    let other = tiff_with(&[(0x010f, "Nikon")]);
    let g = extract_exif_metadata(&other).unwrap();
    assert_eq!(g.camera_make, "Nikon");
    assert_eq!(g.camera_model, "Unknown");
}

#[test]
fn unreadable_metadata_is_recorded_as_unknown() {
    let f = metadata_or_unknown(extract_exif_metadata(b"garbage garbage"));
    assert_eq!(as_list(&f), vec!["Unknown"; 9]);
    let g = metadata_or_unknown(None);
    assert_eq!(as_list(&g), vec!["Unknown"; 9]);
    let kept = metadata_or_unknown(Some(summarize_tags(&vec![tag(TAG_MAKE, "Leica")])));
    assert_eq!(kept.camera_make, "Leica");
    assert_eq!(as_list(&ExifFields::unknown()), vec!["Unknown"; 9]);
    assert_eq!(as_list(&kept.duplicate()), as_list(&kept));
}
