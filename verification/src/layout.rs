//! Where the files of an album live.
//!
//! Every image is stored three times, once per quality, under
//! `uploads/<album id>/<quality>/<file name>`. Other parts of the system read
//! these files directly, so the layout is fixed here and nowhere else.

use vstd::prelude::*;
use vstd::string::StringExecFns;
use crate::quality::ImageQuality;
use crate::text::{
    free_of, i64_text, lemma_cut_at_first, lemma_signed_decimal_injective,
    lemma_signed_decimal_plain, signed_decimal,
};

verus! {

/// The directory that holds everything stored for one album.
pub open spec fn album_dir(album_id: int) -> Seq<char> {
    "uploads/"@ + signed_decimal(album_id)
}

/// The directory that holds one quality of an album's images.
pub open spec fn quality_dir(album_id: int, quality: ImageQuality) -> Seq<char> {
    album_dir(album_id) + "/"@ + quality.name()
}

/// The path of one stored variant of an image.
pub open spec fn image_file(album_id: int, quality: ImageQuality, filename: Seq<char>) -> Seq<char> {
    quality_dir(album_id, quality) + "/"@ + filename
}

/// The path of the directory of album `album_id`.
pub fn album_directory(album_id: i64) -> (path: String)
    ensures
        path@ == album_dir(album_id as int),
{
    let mut path = String::from_str("uploads/");
    let id = i64_text(album_id);
    path.append(id.as_str());
    path
}

/// The path of the directory that holds the `quality` variants of album
/// `album_id`.
pub fn quality_directory(album_id: i64, quality: ImageQuality) -> (path: String)
    ensures
        path@ == quality_dir(album_id as int, quality),
{
    let mut path = album_directory(album_id);
    path.append("/");
    path.append(quality.as_str());
    path
}

/// The path at which the `quality` variant of image `filename` of album
/// `album_id` is stored.
pub fn image_path(album_id: i64, filename: &str, quality: ImageQuality) -> (path: String)
    ensures
        path@ == image_file(album_id as int, quality, filename@),
{
    let mut path = quality_directory(album_id, quality);
    path.append("/");
    path.append(filename);
    path
}

/// The address under which the thumbnail of image `filename` of album
/// `album_id` is served: the path of the file below the site's root.
pub fn thumbnail_url(album_id: i64, filename: &str) -> (url: String)
    ensures
        url@ == "/"@ + image_file(album_id as int, ImageQuality::Thumbnail, filename@),
{
    let mut url = String::from_str("/");
    let path = image_path(album_id, filename, ImageQuality::Thumbnail);
    url.append(path.as_str());
    url
}

/// The directories that must exist before any image of album `album_id` is
/// written: one per quality, in the order full, optimized, thumbnail.
pub fn album_directories(album_id: i64) -> (dirs: Vec<String>)
    ensures
        dirs.len() == 3,
        dirs[0]@ == quality_dir(album_id as int, ImageQuality::Full),
        dirs[1]@ == quality_dir(album_id as int, ImageQuality::Optimized),
        dirs[2]@ == quality_dir(album_id as int, ImageQuality::Thumbnail),
{
    let mut dirs: Vec<String> = Vec::new();
    dirs.push(quality_directory(album_id, ImageQuality::Full));
    dirs.push(quality_directory(album_id, ImageQuality::Optimized));
    dirs.push(quality_directory(album_id, ImageQuality::Thumbnail));
    dirs
}

/// The three files of image `filename` of album `album_id`, in the order
/// full, optimized, thumbnail. These are the files that ingestion writes and
/// that deleting the image removes.
pub fn image_files(album_id: i64, filename: &str) -> (files: Vec<String>)
    ensures
        files.len() == 3,
        files[0]@ == image_file(album_id as int, ImageQuality::Full, filename@),
        files[1]@ == image_file(album_id as int, ImageQuality::Optimized, filename@),
        files[2]@ == image_file(album_id as int, ImageQuality::Thumbnail, filename@),
{
    let mut files: Vec<String> = Vec::new();
    files.push(image_path(album_id, filename, ImageQuality::Full));
    files.push(image_path(album_id, filename, ImageQuality::Optimized));
    files.push(image_path(album_id, filename, ImageQuality::Thumbnail));
    files
}

/// The names of the three qualities differ, and none holds a `/`.
pub proof fn lemma_quality_names(a: ImageQuality, b: ImageQuality)
    ensures
        free_of(a.name(), '/'),
        a.name().len() > 0,
        a.name() == b.name() ==> a == b,
{
    reveal_strlit("full");
    reveal_strlit("optimized");
    reveal_strlit("thumbnail");
    assert(ImageQuality::Full.name()[0] == 'f');
    assert(ImageQuality::Optimized.name()[0] == 'o');
    assert(ImageQuality::Thumbnail.name()[0] == 't');
}

/// A stored file is named by its path: files of different albums, of
/// different qualities or with different names have different paths. So the
/// three files of an image are three files, and no image shares a file with
/// another.
pub proof fn lemma_image_file_injective(
    album_a: int,
    quality_a: ImageQuality,
    filename_a: Seq<char>,
    album_b: int,
    quality_b: ImageQuality,
    filename_b: Seq<char>,
)
    requires
        image_file(album_a, quality_a, filename_a) == image_file(album_b, quality_b, filename_b),
    ensures
        album_a == album_b,
        quality_a == quality_b,
        filename_a == filename_b,
{
    reveal_strlit("/");
    let root = "uploads/"@;
    let slash = seq!['/'];
    assert("/"@ =~= slash);
    let da = signed_decimal(album_a);
    let db = signed_decimal(album_b);
    let na = quality_a.name();
    let nb = quality_b.name();
    let rest_a = na + slash + filename_a;
    let rest_b = nb + slash + filename_b;
    let tail_a = da + slash + rest_a;
    let tail_b = db + slash + rest_b;
    assert(image_file(album_a, quality_a, filename_a) =~= root + tail_a);
    assert(image_file(album_b, quality_b, filename_b) =~= root + tail_b);
    assert(tail_a =~= (root + tail_a).skip(root.len() as int));
    assert(tail_b =~= (root + tail_b).skip(root.len() as int));
    lemma_signed_decimal_plain(album_a);
    lemma_signed_decimal_plain(album_b);
    lemma_cut_at_first(da, rest_a, db, rest_b, '/');
    lemma_signed_decimal_injective(album_a, album_b);
    lemma_quality_names(quality_a, quality_b);
    lemma_quality_names(quality_b, quality_a);
    lemma_cut_at_first(na, filename_a, nb, filename_b, '/');
}

/// Every stored file of an album lies under the directory of the album, and
/// under the directory of no other album.
pub proof fn lemma_image_file_in_album(
    album_id: int,
    quality: ImageQuality,
    filename: Seq<char>,
    other: int,
)
    ensures
        (album_dir(other) + "/"@).is_prefix_of(image_file(album_id, quality, filename)) <==> other
            == album_id,
{
    reveal_strlit("/");
    let root = "uploads/"@;
    let slash = seq!['/'];
    assert("/"@ =~= slash);
    let path = image_file(album_id, quality, filename);
    let rest = quality.name() + slash + filename;
    let tail = signed_decimal(album_id) + slash + rest;
    assert(path =~= root + tail);
    let dir = album_dir(other) + slash;
    if other == album_id {
        assert(path =~= dir + rest);
        assert(path.subrange(0, dir.len() as int) =~= dir);
    }
    if dir.is_prefix_of(path) {
        let after = path.skip(dir.len() as int);
        assert(path =~= dir + after);
        assert(dir + after =~= root + (signed_decimal(other) + slash + after));
        assert(tail =~= (root + tail).skip(root.len() as int));
        assert(signed_decimal(other) + slash + after =~= (root + (signed_decimal(other) + slash
            + after)).skip(root.len() as int));
        lemma_signed_decimal_plain(album_id);
        lemma_signed_decimal_plain(other);
        lemma_cut_at_first(signed_decimal(album_id), rest, signed_decimal(other), after, '/');
        lemma_signed_decimal_injective(album_id, other);
    }
}

} // verus!
