//! Camera metadata embedded in an image.
//!
//! Nine fields are kept for every image. Reading them never fails: a field
//! whose tag is missing reads `Unknown`, and so does every field of an image
//! whose metadata cannot be parsed at all.

use vstd::prelude::*;
use vstd::string::StringExecFns;

verus! {

/// Tag code of the camera manufacturer.
pub const TAG_MAKE: u32 = 0x010f;

/// Tag code of the camera model.
pub const TAG_MODEL: u32 = 0x0110;

/// Tag code of the lens model.
pub const TAG_LENS_MODEL: u32 = 0xa434;

/// Tag code of the ISO speed rating.
pub const TAG_ISO: u32 = 0x8827;

/// Tag code of the aperture (F number).
pub const TAG_F_NUMBER: u32 = 0x829d;

/// Tag code of the exposure time.
pub const TAG_EXPOSURE_TIME: u32 = 0x829a;

/// Tag code of the focal length.
pub const TAG_FOCAL_LENGTH: u32 = 0x920a;

/// Tag code of the light source.
pub const TAG_LIGHT_SOURCE: u32 = 0x9208;

/// Tag code of the date the picture was taken.
pub const TAG_DATE_TIME_ORIGINAL: u32 = 0x9003;

/// One parsed tag: its code and its value in readable form.
pub struct TagValue {
    /// Namespace in the upper half, tag number in the lower half.
    pub code: u32,
    /// The value as text.
    pub text: String,
}

/// The nine fields kept for an image.
pub struct ExifFields {
    pub camera_make: String,
    pub camera_model: String,
    pub lens_model: String,
    pub iso: String,
    pub aperture: String,
    pub shutter_speed: String,
    pub focal_length: String,
    pub light_source: String,
    pub date_created: String,
}

/// The nine fields as sequences of characters.
pub struct ExifText {
    pub camera_make: Seq<char>,
    pub camera_model: Seq<char>,
    pub lens_model: Seq<char>,
    pub iso: Seq<char>,
    pub aperture: Seq<char>,
    pub shutter_speed: Seq<char>,
    pub focal_length: Seq<char>,
    pub light_source: Seq<char>,
    pub date_created: Seq<char>,
}

impl View for ExifFields {
    type V = ExifText;

    open spec fn view(&self) -> ExifText {
        ExifText {
            camera_make: self.camera_make@,
            camera_model: self.camera_model@,
            lens_model: self.lens_model@,
            iso: self.iso@,
            aperture: self.aperture@,
            shutter_speed: self.shutter_speed@,
            focal_length: self.focal_length@,
            light_source: self.light_source@,
            date_created: self.date_created@,
        }
    }
}

/// What a field reads where the image does not say.
pub open spec fn unknown() -> Seq<char> {
    "Unknown"@
}

/// A list of parsed tags as codes and texts.
pub open spec fn tag_list(tags: Seq<TagValue>) -> Seq<(u32, Seq<char>)> {
    Seq::new(tags.len(), |i: int| (tags[i].code, tags[i].text@))
}

/// The text of the last tag with the given code, if there is one.
pub open spec fn last_value(tags: Seq<(u32, Seq<char>)>, code: u32) -> Option<Seq<char>>
    decreases tags.len(),
{
    if tags.len() == 0 {
        None
    } else if tags.last().0 == code {
        Some(tags.last().1)
    } else {
        last_value(tags.drop_last(), code)
    }
}

/// The text of the last tag with the given code, or `Unknown`.
pub open spec fn value_or_unknown(tags: Seq<(u32, Seq<char>)>, code: u32) -> Seq<char> {
    match last_value(tags, code) {
        Some(text) => text,
        None => unknown(),
    }
}

/// The nine fields that a list of tags gives. Each field is taken on its own:
/// a tag that is present is kept whatever else is missing.
pub open spec fn summary(tags: Seq<(u32, Seq<char>)>) -> ExifText {
    ExifText {
        camera_make: value_or_unknown(tags, TAG_MAKE),
        camera_model: value_or_unknown(tags, TAG_MODEL),
        lens_model: value_or_unknown(tags, TAG_LENS_MODEL),
        iso: value_or_unknown(tags, TAG_ISO),
        aperture: value_or_unknown(tags, TAG_F_NUMBER),
        shutter_speed: value_or_unknown(tags, TAG_EXPOSURE_TIME),
        focal_length: value_or_unknown(tags, TAG_FOCAL_LENGTH),
        light_source: value_or_unknown(tags, TAG_LIGHT_SOURCE),
        date_created: value_or_unknown(tags, TAG_DATE_TIME_ORIGINAL),
    }
}

/// The fields of an image without readable metadata: all `Unknown`.
pub open spec fn all_unknown() -> ExifText {
    ExifText {
        camera_make: unknown(),
        camera_model: unknown(),
        lens_model: unknown(),
        iso: unknown(),
        aperture: unknown(),
        shutter_speed: unknown(),
        focal_length: unknown(),
        light_source: unknown(),
        date_created: unknown(),
    }
}

/// The text of the last tag of `tags` with the given code, or `Unknown`.
fn field_text(tags: &Vec<TagValue>, code: u32) -> (text: String)
    ensures
        text@ == value_or_unknown(tag_list(tags@), code),
{
    let mut i: usize = tags.len();
    assert(tag_list(tags@).take(i as int) == tag_list(tags@));
    while i > 0
        invariant
            i <= tags.len(),
            last_value(tag_list(tags@), code) == last_value(tag_list(tags@).take(i as int), code),
        decreases i,
    {
        if tags[i - 1].code == code {
            return tags[i - 1].text.clone();
        }
        assert(tag_list(tags@).take(i as int).drop_last() == tag_list(tags@).take(i - 1));
        i -= 1;
    }
    String::from_str("Unknown")
}

/// Picks the nine fields out of a list of parsed tags. Where a tag occurs
/// more than once its last occurrence counts; a field with no tag reads
/// `Unknown`.
pub fn summarize_tags(tags: &Vec<TagValue>) -> (fields: ExifFields)
    ensures
        fields@ == summary(tag_list(tags@)),
{
    ExifFields {
        camera_make: field_text(tags, TAG_MAKE),
        camera_model: field_text(tags, TAG_MODEL),
        lens_model: field_text(tags, TAG_LENS_MODEL),
        iso: field_text(tags, TAG_ISO),
        aperture: field_text(tags, TAG_F_NUMBER),
        shutter_speed: field_text(tags, TAG_EXPOSURE_TIME),
        focal_length: field_text(tags, TAG_FOCAL_LENGTH),
        light_source: field_text(tags, TAG_LIGHT_SOURCE),
        date_created: field_text(tags, TAG_DATE_TIME_ORIGINAL),
    }
}

impl ExifFields {
    /// A copy of the fields.
    pub fn duplicate(&self) -> (copy: ExifFields)
        ensures
            copy == *self,
    {
        ExifFields {
            camera_make: self.camera_make.clone(),
            camera_model: self.camera_model.clone(),
            lens_model: self.lens_model.clone(),
            iso: self.iso.clone(),
            aperture: self.aperture.clone(),
            shutter_speed: self.shutter_speed.clone(),
            focal_length: self.focal_length.clone(),
            light_source: self.light_source.clone(),
            date_created: self.date_created.clone(),
        }
    }

    /// The fields of an image without readable metadata.
    pub fn unknown() -> (fields: ExifFields)
        ensures
            fields@ == all_unknown(),
    {
        ExifFields {
            camera_make: String::from_str("Unknown"),
            camera_model: String::from_str("Unknown"),
            lens_model: String::from_str("Unknown"),
            iso: String::from_str("Unknown"),
            aperture: String::from_str("Unknown"),
            shutter_speed: String::from_str("Unknown"),
            focal_length: String::from_str("Unknown"),
            light_source: String::from_str("Unknown"),
            date_created: String::from_str("Unknown"),
        }
    }
}

/// The tags that the metadata parser finds in an encoded image, in the order
/// in which it reports them; `None` where it finds no metadata it can read.
pub uninterp spec fn parsed_tags(data: Seq<u8>) -> Option<Seq<(u32, Seq<char>)>>;

/// `rexif::parse_buffer`: looks for EXIF metadata in a JPEG or TIFF file held
/// in memory. Of each entry that it reports, the tag (as the number that the
/// tag stands for) and the readable form of the value are handed on. The
/// parser reads nothing but the bytes, so its result is given a name; what
/// the result is for given bytes is not stated.
#[verifier::external_body]
fn parse_tags(data: &[u8]) -> (tags: Option<Vec<TagValue>>)
    ensures
        match tags {
            Some(list) => parsed_tags(data@) == Some(tag_list(list@)),
            None => parsed_tags(data@) is None,
        },
{
    match rexif::parse_buffer(data) {
        Ok(exif) => Some(
            exif.entries.iter().map(
                |e| TagValue { code: e.tag as u32, text: e.value_more_readable.to_string() },
            ).collect(),
        ),
        Err(_) => None,
    }
}

/// Reads the nine fields from an encoded image.
///
/// Returns `None` exactly where the image holds no metadata that can be
/// parsed. Otherwise every field is present: one whose tag is missing reads
/// `Unknown`.
pub fn extract_exif_metadata(data: &[u8]) -> (fields: Option<ExifFields>)
    ensures
        match fields {
            Some(found) => parsed_tags(data@) matches Some(tags) && found@ == summary(tags),
            None => parsed_tags(data@) is None,
        },
{
    match parse_tags(data) {
        Some(tags) => Some(summarize_tags(&tags)),
        None => None,
    }
}

/// The fields to record for an image: those that were read, or all `Unknown`
/// where nothing could be read.
pub fn metadata_or_unknown(found: Option<ExifFields>) -> (fields: ExifFields)
    ensures
        fields@ == match found {
            Some(f) => f@,
            None => all_unknown(),
        },
{
    match found {
        Some(f) => f,
        None => ExifFields::unknown(),
    }
}

} // verus!
