//! Albums and the images that belong to them.
//!
//! The catalog is the record of what the gallery holds: one row per album,
//! one row per image. Every image belongs to exactly one album, and an album
//! always knows how many images it has.

use vstd::prelude::*;
use crate::exif::ExifFields;
use crate::mode::{is_mode, mode_of, texts};

verus! {

/// What a client sends to create an album or to change its details.
#[derive(Debug)]
pub struct CreateAlbumRequest {
    pub name: String,
    pub description: Option<String>,
    pub date: String,
}

/// The details of an album as they arrive field by field; each may be
/// missing.
#[derive(Debug)]
pub struct AlbumFields {
    pub name: Option<String>,
    pub description: Option<String>,
    pub date: Option<String>,
}

/// One album.
#[derive(Debug)]
pub struct Album {
    pub id: i64,
    pub name: String,
    pub description: Option<String>,
    /// Albums are ordered by this text.
    pub date: String,
    /// How many images belong to the album.
    pub num_images: i32,
    /// The camera model that most images of the album share.
    pub camera_model: Option<String>,
    /// The lens model that most images of the album share.
    pub lens_model: Option<String>,
    /// The aperture that most images of the album share.
    pub aperture: Option<String>,
}

/// One image of an album.
#[derive(Debug)]
pub struct Image {
    pub id: i64,
    /// The album that the image belongs to.
    pub album_id: i64,
    /// The name under which its three files are stored.
    pub filename: String,
    pub camera_make: Option<String>,
    pub camera_model: Option<String>,
    pub lens_model: Option<String>,
    pub iso: Option<String>,
    pub aperture: Option<String>,
    pub shutter_speed: Option<String>,
    pub focal_length: Option<String>,
    pub light_source: Option<String>,
    pub date_created: Option<String>,
    /// Size in bytes of the full-resolution file.
    pub file_size: i64,
}

/// The three values that an album shows for its images.
#[derive(Debug)]
pub struct ModeMetadata {
    pub camera_model: Option<String>,
    pub lens_model: Option<String>,
    pub aperture: Option<String>,
}

impl Default for ModeMetadata {
    fn default() -> (m: ModeMetadata)
        ensures
            m.camera_model is None,
            m.lens_model is None,
            m.aperture is None,
    {
        ModeMetadata { camera_model: None, lens_model: None, aperture: None }
    }
}

impl Default for AlbumFields {
    fn default() -> (fields: AlbumFields)
        ensures
            fields.name is None,
            fields.description is None,
            fields.date is None,
    {
        AlbumFields { name: None, description: None, date: None }
    }
}

/// The text of an optional string, or no text where it is missing.
pub open spec fn text_or_empty(value: Option<String>) -> Seq<char> {
    match value {
        Some(s) => s@,
        None => Seq::empty(),
    }
}

/// A copy of an optional text, or an empty text where it is missing.
fn clone_or_empty(value: &Option<String>) -> (text: String)
    ensures
        text@ == text_or_empty(*value),
{
    match value {
        Some(s) => s.clone(),
        None => String::new(),
    }
}

impl AlbumFields {
    /// The details of a new album sent with these fields. A name or a date
    /// that was not sent is empty.
    pub fn into_request(self) -> (request: CreateAlbumRequest)
        ensures
            request.name@ == text_or_empty(self.name),
            request.description == self.description,
            request.date@ == text_or_empty(self.date),
    {
        let name = clone_or_empty(&self.name);
        let date = clone_or_empty(&self.date);
        CreateAlbumRequest { name, description: self.description, date }
    }

    /// The details of `album` after a change sent with these fields: every
    /// field that was sent replaces the album's, every other stays.
    pub fn applied_to(self, album: &Album) -> (request: CreateAlbumRequest)
        ensures
            request.name == match self.name {
                Some(n) => n,
                None => album.name,
            },
            request.description == match self.description {
                Some(d) => Some(d),
                None => album.description,
            },
            request.date == match self.date {
                Some(d) => d,
                None => album.date,
            },
    {
        let name = match self.name {
            Some(n) => n,
            None => album.name.clone(),
        };
        let description = match self.description {
            Some(d) => Some(d),
            None => clone_text(&album.description),
        };
        let date = match self.date {
            Some(d) => d,
            None => album.date.clone(),
        };
        CreateAlbumRequest { name, description, date }
    }
}

/// The columns of an image of which an album shows the mode.
#[derive(Clone, Copy, Debug, PartialEq, Eq, Structural)]
pub enum ModeColumn {
    CameraModel,
    LensModel,
    Aperture,
}

impl Image {
    /// The value of this image in `column`.
    pub open spec fn attribute(self, column: ModeColumn) -> Option<String> {
        match column {
            ModeColumn::CameraModel => self.camera_model,
            ModeColumn::LensModel => self.lens_model,
            ModeColumn::Aperture => self.aperture,
        }
    }
}

/// A copy of an optional text.
pub fn clone_text(text: &Option<String>) -> (copy: Option<String>)
    ensures
        copy == *text,
{
    match text {
        Some(s) => Some(s.clone()),
        None => None,
    }
}

/// How many of `images` belong to album `album_id`.
pub open spec fn count_images(images: Seq<Image>, album_id: i64) -> nat
    decreases images.len(),
{
    if images.len() == 0 {
        0
    } else {
        count_images(images.drop_last(), album_id) + if images.last().album_id == album_id {
            1nat
        } else {
            0nat
        }
    }
}

/// The values in `column` of the images of album `album_id`, in the order of
/// the rows.
pub open spec fn album_column(images: Seq<Image>, album_id: i64, column: ModeColumn) -> Seq<
    Option<String>,
>
    decreases images.len(),
{
    if images.len() == 0 {
        Seq::empty()
    } else if images.last().album_id == album_id {
        album_column(images.drop_last(), album_id, column).push(images.last().attribute(column))
    } else {
        album_column(images.drop_last(), album_id, column)
    }
}

/// The rows of `images` that do not belong to album `album_id`, in order.
pub open spec fn without_album(images: Seq<Image>, album_id: i64) -> Seq<Image>
    decreases images.len(),
{
    if images.len() == 0 {
        Seq::empty()
    } else if images.last().album_id == album_id {
        without_album(images.drop_last(), album_id)
    } else {
        without_album(images.drop_last(), album_id).push(images.last())
    }
}

/// Whether an album with this id is among `albums`.
pub open spec fn has_album(albums: Seq<Album>, album_id: i64) -> bool {
    exists|k: int| 0 <= k < albums.len() && (#[trigger] albums[k]).id == album_id
}

/// Whether an image with this id is among `images`.
pub open spec fn has_image(images: Seq<Image>, image_id: i64) -> bool {
    exists|k: int| 0 <= k < images.len() && (#[trigger] images[k]).id == image_id
}

/// Every album counts exactly the images that refer to it.
pub open spec fn counts_agree(albums: Seq<Album>, images: Seq<Image>) -> bool {
    forall|k: int|
        0 <= k < albums.len() ==> (#[trigger] albums[k]).num_images == count_images(
            images,
            albums[k].id,
        )
}

/// Albums stand in the order of their ids, so no two share an id.
pub open spec fn album_ids_increase(albums: Seq<Album>) -> bool {
    forall|i: int, j: int|
        0 <= i < j < albums.len() ==> (#[trigger] albums[i]).id < (#[trigger] albums[j]).id
}

/// Images stand in the order of their ids, so no two share an id.
pub open spec fn image_ids_increase(images: Seq<Image>) -> bool {
    forall|i: int, j: int|
        0 <= i < j < images.len() ==> (#[trigger] images[i]).id < (#[trigger] images[j]).id
}

/// Every image has an id below `bound`.
pub open spec fn image_ids_below(images: Seq<Image>, bound: int) -> bool {
    forall|k: int| 0 <= k < images.len() ==> (#[trigger] images[k]).id < bound
}

/// Every image belongs to an album that exists.
pub open spec fn images_owned(albums: Seq<Album>, images: Seq<Image>) -> bool {
    forall|k: int| 0 <= k < images.len() ==> has_album(albums, (#[trigger] images[k]).album_id)
}

/// Counting over a list with one more row.
pub proof fn lemma_count_push(images: Seq<Image>, image: Image, album_id: i64)
    ensures
        count_images(images.push(image), album_id) == count_images(images, album_id) + if image.album_id
            == album_id {
            1nat
        } else {
            0nat
        },
{
    assert(images.push(image).drop_last() == images);
}

/// Counting over a list with one row taken out.
pub proof fn lemma_count_remove(images: Seq<Image>, at: int, album_id: i64)
    requires
        0 <= at < images.len(),
    ensures
        count_images(images.remove(at), album_id) + if images[at].album_id == album_id {
            1nat
        } else {
            0nat
        } == count_images(images, album_id),
    decreases images.len(),
{
    if at == images.len() - 1 {
        assert(images.remove(at) == images.drop_last());
    } else {
        lemma_count_remove(images.drop_last(), at, album_id);
        assert(images.remove(at).drop_last() == images.drop_last().remove(at));
        assert(images.remove(at).last() == images.last());
    }
}

/// An album to which a row belongs has at least one row.
pub proof fn lemma_count_positive(images: Seq<Image>, at: int)
    requires
        0 <= at < images.len(),
    ensures
        count_images(images, images[at].album_id) >= 1,
    decreases images.len(),
{
    if at < images.len() - 1 {
        lemma_count_positive(images.drop_last(), at);
    }
}

/// Taking the rows of one album away leaves that album without rows and
/// leaves every other album its rows.
pub proof fn lemma_without_album_counts(images: Seq<Image>, album_id: i64, other: i64)
    ensures
        count_images(without_album(images, album_id), album_id) == 0,
        other != album_id ==> count_images(without_album(images, album_id), other) == count_images(
            images,
            other,
        ),
    decreases images.len(),
{
    if images.len() > 0 {
        let rest = images.drop_last();
        lemma_without_album_counts(rest, album_id, other);
        if images.last().album_id != album_id {
            lemma_count_push(without_album(rest, album_id), images.last(), album_id);
            lemma_count_push(without_album(rest, album_id), images.last(), other);
        }
    }
}

/// The rows that are left when one album's rows are taken away belong to
/// other albums, and to albums among `albums` if all rows did; their ids stay
/// below any bound that held of all rows, and stay in order.
pub proof fn lemma_without_album_rows(
    albums: Seq<Album>,
    images: Seq<Image>,
    album_id: i64,
    bound: int,
)
    requires
        images_owned(albums, images),
        image_ids_below(images, bound),
        image_ids_increase(images),
    ensures
        without_album(images, album_id).len() <= images.len(),
        images_owned(albums, without_album(images, album_id)),
        image_ids_below(without_album(images, album_id), bound),
        image_ids_increase(without_album(images, album_id)),
        forall|k: int|
            0 <= k < without_album(images, album_id).len() ==> (#[trigger] without_album(
                images,
                album_id,
            )[k]).album_id != album_id,
    decreases images.len(),
{
    if images.len() > 0 {
        let rest = images.drop_last();
        let last = images.last();
        assert forall|k: int| 0 <= k < rest.len() implies has_album(
            albums,
            (#[trigger] rest[k]).album_id,
        ) && rest[k].id < bound && rest[k].id < last.id by {
            assert(rest[k] == images[k]);
        }
        assert forall|i: int, j: int| 0 <= i < j < rest.len() implies (#[trigger] rest[i]).id < (
        #[trigger] rest[j]).id by {
            assert(rest[i] == images[i] && rest[j] == images[j]);
        }
        lemma_without_album_rows(albums, rest, album_id, bound);
        lemma_without_album_rows(albums, rest, album_id, last.id as int);
        let kept = without_album(rest, album_id);
        if last.album_id != album_id {
            let all = kept.push(last);
            assert forall|k: int| 0 <= k < all.len() implies has_album(
                albums,
                (#[trigger] all[k]).album_id,
            ) && all[k].id < bound && all[k].album_id != album_id by {
                if k < kept.len() {
                    assert(all[k] == kept[k]);
                }
            }
            assert forall|i: int, j: int| 0 <= i < j < all.len() implies (#[trigger] all[i]).id < (
            #[trigger] all[j]).id by {
                assert(all[i] == kept[i]);
                if j < kept.len() {
                    assert(all[j] == kept[j]);
                }
            }
        }
    }
}

/// No row belongs to an album that no row refers to.
pub proof fn lemma_count_zero(images: Seq<Image>, album_id: i64)
    requires
        forall|k: int| 0 <= k < images.len() ==> (#[trigger] images[k]).album_id != album_id,
    ensures
        count_images(images, album_id) == 0,
    decreases images.len(),
{
    if images.len() > 0 {
        let rest = images.drop_last();
        assert forall|k: int| 0 <= k < rest.len() implies (#[trigger] rest[k]).album_id
            != album_id by {
            assert(rest[k] == images[k]);
        }
        lemma_count_zero(rest, album_id);
    }
}

/// The row of a new image: every field of its metadata is present.
pub open spec fn image_row(
    id: i64,
    album_id: i64,
    filename: String,
    file_size: i64,
    fields: ExifFields,
) -> Image {
    Image {
        id,
        album_id,
        filename,
        camera_make: Some(fields.camera_make),
        camera_model: Some(fields.camera_model),
        lens_model: Some(fields.lens_model),
        iso: Some(fields.iso),
        aperture: Some(fields.aperture),
        shutter_speed: Some(fields.shutter_speed),
        focal_length: Some(fields.focal_length),
        light_source: Some(fields.light_source),
        date_created: Some(fields.date_created),
        file_size,
    }
}

/// The row of a new album: it has no images and shows no modes.
pub open spec fn album_row(id: i64, request: CreateAlbumRequest) -> Album {
    Album {
        id,
        name: request.name,
        description: request.description,
        date: request.date,
        num_images: 0,
        camera_model: None,
        lens_model: None,
        aperture: None,
    }
}

/// `album` with the details of `request`.
pub open spec fn with_details(album: Album, request: CreateAlbumRequest) -> Album {
    Album { name: request.name, description: request.description, date: request.date, ..album }
}

/// `album` with another number of images.
pub open spec fn with_count(album: Album, num_images: i32) -> Album {
    Album { num_images, ..album }
}

/// `albums` with `delta` added to the number of images of album `album_id`.
pub open spec fn adjust_count(albums: Seq<Album>, album_id: i64, delta: int) -> Seq<Album> {
    Seq::new(
        albums.len(),
        |k: int|
            if albums[k].id == album_id {
                with_count(albums[k], (albums[k].num_images + delta) as i32)
            } else {
                albums[k]
            },
    )
}

/// The text of an optional string.
pub open spec fn text_of(value: Option<String>) -> Option<Seq<char>> {
    match value {
        Some(s) => Some(s@),
        None => None,
    }
}

/// Whether `after` is `before` with its three modes brought up to date from
/// the rows `images`, and nothing else changed.
pub open spec fn modes_refreshed(before: Album, after: Album, images: Seq<Image>) -> bool {
    &&& after.id == before.id
    &&& after.name == before.name
    &&& after.description == before.description
    &&& after.date == before.date
    &&& after.num_images == before.num_images
    &&& is_mode(
        texts(album_column(images, before.id, ModeColumn::CameraModel)),
        text_of(after.camera_model),
    )
    &&& is_mode(
        texts(album_column(images, before.id, ModeColumn::LensModel)),
        text_of(after.lens_model),
    )
    &&& is_mode(
        texts(album_column(images, before.id, ModeColumn::Aperture)),
        text_of(after.aperture),
    )
}

/// The albums and images of a gallery.
pub struct Catalog {
    albums: Vec<Album>,
    images: Vec<Image>,
    next_album_id: i64,
    next_image_id: i64,
}

impl Catalog {
    /// The album rows, oldest first.
    pub closed spec fn albums(&self) -> Seq<Album> {
        self.albums@
    }

    /// The image rows, oldest first.
    pub closed spec fn images(&self) -> Seq<Image> {
        self.images@
    }

    /// The id that the next album gets.
    pub closed spec fn next_album_id(&self) -> i64 {
        self.next_album_id
    }

    /// The id that the next image gets.
    pub closed spec fn next_image_id(&self) -> i64 {
        self.next_image_id
    }

    /// What holds of every catalog: ids are handed out in increasing order
    /// and never twice, every image belongs to an album that exists, and
    /// every album counts exactly its images.
    pub open spec fn wf(&self) -> bool {
        &&& album_ids_increase(self.albums())
        &&& forall|k: int|
            0 <= k < self.albums().len() ==> (#[trigger] self.albums()[k]).id
                < self.next_album_id()
        &&& image_ids_increase(self.images())
        &&& image_ids_below(self.images(), self.next_image_id() as int)
        &&& images_owned(self.albums(), self.images())
        &&& counts_agree(self.albums(), self.images())
    }

    /// A catalog without albums. Ids start at 1.
    pub fn new() -> (catalog: Catalog)
        ensures
            catalog.wf(),
            catalog.albums().len() == 0,
            catalog.images().len() == 0,
            catalog.next_album_id() == 1,
            catalog.next_image_id() == 1,
    {
        Catalog { albums: Vec::new(), images: Vec::new(), next_album_id: 1, next_image_id: 1 }
    }

    /// The position of album `album_id` among the rows.
    fn album_index(&self, album_id: i64) -> (at: Option<usize>)
        ensures
            match at {
                Some(k) => k < self.albums().len() && self.albums()[k as int].id == album_id,
                None => !has_album(self.albums(), album_id),
            },
    {
        let mut k: usize = 0;
        while k < self.albums.len()
            invariant
                k <= self.albums.len(),
                forall|j: int| 0 <= j < k ==> (#[trigger] self.albums@[j]).id != album_id,
            decreases self.albums.len() - k,
        {
            if self.albums[k].id == album_id {
                return Some(k);
            }
            k += 1;
        }
        None
    }

    /// The position of image `image_id` among the rows.
    fn image_index(&self, image_id: i64) -> (at: Option<usize>)
        ensures
            match at {
                Some(k) => k < self.images().len() && self.images()[k as int].id == image_id,
                None => !has_image(self.images(), image_id),
            },
    {
        let mut k: usize = 0;
        while k < self.images.len()
            invariant
                k <= self.images.len(),
                forall|j: int| 0 <= j < k ==> (#[trigger] self.images@[j]).id != image_id,
            decreases self.images.len() - k,
        {
            if self.images[k].id == image_id {
                return Some(k);
            }
            k += 1;
        }
        None
    }

    /// Looks up an album. The number of images it reports is the number of
    /// image rows that refer to it.
    pub fn get_album(&self, album_id: i64) -> (album: Option<&Album>)
        requires
            self.wf(),
        ensures
            match album {
                Some(a) => a.id == album_id && a.num_images == count_images(
                    self.images(),
                    album_id,
                ) && exists|k: int|
                    0 <= k < self.albums().len() && #[trigger] self.albums()[k] == *a,
                None => !has_album(self.albums(), album_id),
            },
    {
        match self.album_index(album_id) {
            Some(k) => Some(&self.albums[k]),
            None => None,
        }
    }

    /// Looks up an image.
    pub fn get_image(&self, image_id: i64) -> (image: Option<&Image>)
        ensures
            match image {
                Some(i) => i.id == image_id && exists|k: int|
                    0 <= k < self.images().len() && #[trigger] self.images()[k] == *i,
                None => !has_image(self.images(), image_id),
            },
    {
        match self.image_index(image_id) {
            Some(k) => Some(&self.images[k]),
            None => None,
        }
    }

    /// Adds an album without images and returns its id.
    ///
    /// Fails, and changes nothing, only where no id is left to give.
    pub fn create_album(&mut self, request: &CreateAlbumRequest) -> (id: Option<i64>)
        requires
            old(self).wf(),
        ensures
            final(self).wf(),
            final(self).images() == old(self).images(),
            final(self).next_image_id() == old(self).next_image_id(),
            match id {
                Some(new_id) => {
                    &&& new_id == old(self).next_album_id()
                    &&& final(self).next_album_id() == new_id + 1
                    &&& final(self).albums() == old(self).albums().push(album_row(new_id, *request))
                    &&& has_album(final(self).albums(), new_id)
                },
                None => {
                    &&& old(self).next_album_id() == i64::MAX
                    &&& final(self).albums() == old(self).albums()
                    &&& final(self).next_album_id() == old(self).next_album_id()
                },
            },
    {
        if self.next_album_id == i64::MAX {
            return None;
        }
        let id = self.next_album_id;
        let album = Album {
            id,
            name: request.name.clone(),
            description: clone_text(&request.description),
            date: request.date.clone(),
            num_images: 0,
            camera_model: None,
            lens_model: None,
            aperture: None,
        };
        proof {
            assert forall|k: int| 0 <= k < self.images@.len() implies (
            #[trigger] self.images@[k]).album_id != id by {
                let j = choose|j: int|
                    0 <= j < self.albums@.len() && (#[trigger] self.albums@[j]).id
                        == self.images@[k].album_id;
            }
            lemma_count_zero(self.images@, id);
        }
        self.albums.push(album);
        self.next_album_id = id + 1;
        proof {
            let before = old(self).albums();
            let after = self.albums@;
            assert(after[before.len() as int].id == id);
            assert forall|k: int| 0 <= k < self.images@.len() implies has_album(
                after,
                (#[trigger] self.images@[k]).album_id,
            ) by {
                let j = choose|j: int|
                    0 <= j < before.len() && (#[trigger] before[j]).id
                        == self.images@[k].album_id;
                assert(after[j].id == self.images@[k].album_id);
            }
            assert forall|k: int| 0 <= k < after.len() implies (#[trigger] after[k]).num_images
                == count_images(self.images@, after[k].id) by {
                if k < before.len() {
                    assert(after[k] == before[k]);
                }
            }
        }
        Some(id)
    }

    /// Sets the number of images of the album at position `at`.
    fn set_count(&mut self, at: usize, num_images: i32)
        requires
            at < old(self).albums().len(),
        ensures
            final(self).albums() == old(self).albums().update(
                at as int,
                with_count(old(self).albums()[at as int], num_images),
            ),
            final(self).images() == old(self).images(),
            final(self).next_album_id() == old(self).next_album_id(),
            final(self).next_image_id() == old(self).next_image_id(),
    {
        let mut album = self.albums.remove(at);
        album.num_images = num_images;
        self.albums.insert(at, album);
        assert(self.albums@ =~= old(self).albums().update(
            at as int,
            with_count(old(self).albums()[at as int], num_images),
        ));
    }

    /// Records a new image of album `album_id` and returns its id. The album
    /// then counts one image more.
    ///
    /// Fails, and changes nothing, where the album does not exist, where no
    /// id is left to give, or where the album cannot count one image more.
    pub fn insert_image(
        &mut self,
        album_id: i64,
        filename: String,
        file_size: i64,
        fields: ExifFields,
    ) -> (id: Option<i64>)
        requires
            old(self).wf(),
        ensures
            final(self).wf(),
            final(self).next_album_id() == old(self).next_album_id(),
            id is Some <==> has_album(old(self).albums(), album_id) && old(self).next_image_id()
                < i64::MAX && count_images(old(self).images(), album_id) < i32::MAX,
            match id {
                Some(new_id) => {
                    &&& new_id == old(self).next_image_id()
                    &&& final(self).next_image_id() == new_id + 1
                    &&& final(self).images() == old(self).images().push(
                        image_row(new_id, album_id, filename, file_size, fields),
                    )
                    &&& final(self).albums() == adjust_count(old(self).albums(), album_id, 1)
                    &&& has_image(final(self).images(), new_id)
                },
                None => {
                    &&& final(self).images() == old(self).images()
                    &&& final(self).albums() == old(self).albums()
                    &&& final(self).next_image_id() == old(self).next_image_id()
                },
            },
    {
        let at = match self.album_index(album_id) {
            Some(k) => k,
            None => {
                return None;
            },
        };
        let count = self.albums[at].num_images;
        if self.next_image_id == i64::MAX || count == i32::MAX {
            return None;
        }
        let id = self.next_image_id;
        let image = Image {
            id,
            album_id,
            filename,
            camera_make: Some(fields.camera_make),
            camera_model: Some(fields.camera_model),
            lens_model: Some(fields.lens_model),
            iso: Some(fields.iso),
            aperture: Some(fields.aperture),
            shutter_speed: Some(fields.shutter_speed),
            focal_length: Some(fields.focal_length),
            light_source: Some(fields.light_source),
            date_created: Some(fields.date_created),
            file_size,
        };
        self.images.push(image);
        self.next_image_id = id + 1;
        self.set_count(at, count + 1);
        proof {
            let before = old(self).albums();
            let after = self.albums@;
            let rows = old(self).images();
            assert(self.images@[rows.len() as int].id == id);
            assert(after =~= adjust_count(before, album_id, 1)) by {
                assert forall|k: int| 0 <= k < before.len() && k != at implies (
                #[trigger] before[k]).id != album_id by {
                    if k < at {
                        assert(before[k].id < before[at as int].id);
                    } else {
                        assert(before[at as int].id < before[k].id);
                    }
                }
            }
            assert forall|k: int| 0 <= k < after.len() implies (#[trigger] after[k]).num_images
                == count_images(self.images@, after[k].id) by {
                lemma_count_push(rows, image, after[k].id);
                assert(before[k].num_images == count_images(rows, before[k].id));
            }
            assert forall|k: int| 0 <= k < self.images@.len() implies has_album(
                after,
                (#[trigger] self.images@[k]).album_id,
            ) by {
                if k < rows.len() {
                    assert(self.images@[k] == rows[k]);
                    let j = choose|j: int|
                        0 <= j < before.len() && (#[trigger] before[j]).id == rows[k].album_id;
                    assert(after[j].id == rows[k].album_id);
                } else {
                    assert(after[at as int].id == album_id);
                }
            }
            assert forall|i: int, j: int| 0 <= i < j < after.len() implies (#[trigger] after[i]).id
                < (#[trigger] after[j]).id by {
                assert(after[i].id == before[i].id && after[j].id == before[j].id);
            }
            assert forall|k: int| 0 <= k < after.len() implies (#[trigger] after[k]).id
                < self.next_album_id by {
                assert(after[k].id == before[k].id);
            }
        }
        Some(id)
    }

    /// Removes an image and returns its row. The album it belonged to then
    /// counts one image less; every other row stays as it is.
    ///
    /// Returns `None`, and changes nothing, where there is no such image.
    pub fn delete_image(&mut self, image_id: i64) -> (removed: Option<Image>)
        requires
            old(self).wf(),
        ensures
            final(self).wf(),
            final(self).next_album_id() == old(self).next_album_id(),
            final(self).next_image_id() == old(self).next_image_id(),
            match removed {
                Some(row) => {
                    &&& row.id == image_id
                    &&& exists|at: int|
                        0 <= at < old(self).images().len() && #[trigger] old(self).images()[at]
                            == row && final(self).images() == old(self).images().remove(at)
                    &&& final(self).albums() == adjust_count(old(self).albums(), row.album_id, -1)
                },
                None => {
                    &&& !has_image(old(self).images(), image_id)
                    &&& final(self).images() == old(self).images()
                    &&& final(self).albums() == old(self).albums()
                },
            },
    {
        let at = match self.image_index(image_id) {
            Some(k) => k,
            None => {
                return None;
            },
        };
        let album_id = self.images[at].album_id;
        let album_at = match self.album_index(album_id) {
            Some(k) => k,
            None => {
                proof {
                    assert(has_album(self.albums@, self.images@[at as int].album_id));
                }
                return None;
            },
        };
        let count = self.albums[album_at].num_images;
        proof {
            lemma_count_positive(self.images@, at as int);
        }
        let row = self.images.remove(at);
        self.set_count(album_at, count - 1);
        proof {
            let before = old(self).albums();
            let after = self.albums@;
            let rows = old(self).images();
            let left = self.images@;
            assert(left == rows.remove(at as int));
            assert(rows[at as int] == row);
            assert(after =~= adjust_count(before, album_id, -1)) by {
                assert forall|k: int| 0 <= k < before.len() && k != album_at implies (
                #[trigger] before[k]).id != album_id by {
                    if k < album_at {
                        assert(before[k].id < before[album_at as int].id);
                    } else {
                        assert(before[album_at as int].id < before[k].id);
                    }
                }
            }
            assert forall|k: int| 0 <= k < after.len() implies (#[trigger] after[k]).num_images
                == count_images(left, after[k].id) by {
                lemma_count_remove(rows, at as int, after[k].id);
                assert(before[k].num_images == count_images(rows, before[k].id));
            }
            assert forall|k: int| 0 <= k < left.len() implies has_album(
                after,
                (#[trigger] left[k]).album_id,
            ) && left[k].id < self.next_image_id by {
                let from = if k < at { k } else { k + 1 };
                assert(left[k] == rows[from]);
                let j = choose|j: int|
                    0 <= j < before.len() && (#[trigger] before[j]).id == rows[from].album_id;
                assert(after[j].id == rows[from].album_id);
            }
            assert forall|i: int, j: int| 0 <= i < j < left.len() implies (#[trigger] left[i]).id
                < (#[trigger] left[j]).id by {
                let from_i = if i < at { i } else { i + 1 };
                let from_j = if j < at { j } else { j + 1 };
                assert(left[i] == rows[from_i] && left[j] == rows[from_j]);
            }
            assert forall|i: int, j: int| 0 <= i < j < after.len() implies (#[trigger] after[i]).id
                < (#[trigger] after[j]).id by {
                assert(after[i].id == before[i].id && after[j].id == before[j].id);
            }
            assert forall|k: int| 0 <= k < after.len() implies (#[trigger] after[k]).id
                < self.next_album_id by {
                assert(after[k].id == before[k].id);
            }
        }
        Some(row)
    }

    /// Removes an album together with all its images.
    ///
    /// Returns `false`, and changes nothing, where there is no such album.
    pub fn delete_album(&mut self, album_id: i64) -> (removed: bool)
        requires
            old(self).wf(),
        ensures
            final(self).wf(),
            final(self).next_album_id() == old(self).next_album_id(),
            final(self).next_image_id() == old(self).next_image_id(),
            removed == has_album(old(self).albums(), album_id),
            !has_album(final(self).albums(), album_id),
            count_images(final(self).images(), album_id) == 0,
            final(self).images() == without_album(old(self).images(), album_id),
            if removed {
                exists|at: int|
                    0 <= at < old(self).albums().len() && (#[trigger] old(self).albums()[at]).id
                        == album_id && final(self).albums() == old(self).albums().remove(at)
            } else {
                final(self).albums() == old(self).albums()
            },
    {
        let ghost rows = self.images@;
        let ghost before = self.albums@;
        let at = match self.album_index(album_id) {
            Some(k) => k,
            None => {
                proof {
                    assert forall|k: int| 0 <= k < rows.len() implies (#[trigger] rows[k]).album_id
                        != album_id by {
                        assert(has_album(before, rows[k].album_id));
                    }
                    lemma_count_zero(rows, album_id);
                    lemma_unreferenced_album(rows, album_id);
                }
                return false;
            },
        };
        self.remove_images_of(album_id);
        self.albums.remove(at);
        proof {
            let after = self.albums@;
            let left = self.images@;
            lemma_without_album_rows(before, rows, album_id, self.next_image_id as int);
            assert forall|k: int| 0 <= k < after.len() implies (#[trigger] after[k]).id != album_id
                && after[k].id < self.next_album_id && after[k].num_images == count_images(
                left,
                after[k].id,
            ) by {
                let from = if k < at { k } else { k + 1 };
                assert(after[k] == before[from]);
                if from < at {
                    assert(before[from].id < before[at as int].id);
                } else {
                    assert(before[at as int].id < before[from].id);
                }
                lemma_without_album_counts(rows, album_id, before[from].id);
            }
            assert forall|i: int, j: int| 0 <= i < j < after.len() implies (#[trigger] after[i]).id
                < (#[trigger] after[j]).id by {
                let from_i = if i < at { i } else { i + 1 };
                let from_j = if j < at { j } else { j + 1 };
                assert(after[i] == before[from_i] && after[j] == before[from_j]);
            }
            assert forall|k: int| 0 <= k < left.len() implies has_album(
                after,
                (#[trigger] left[k]).album_id,
            ) by {
                let j = choose|j: int|
                    0 <= j < before.len() && (#[trigger] before[j]).id == left[k].album_id;
                let to = if j < at { j } else { j - 1 };
                assert(after[to] == before[j]);
            }
            lemma_without_album_counts(rows, album_id, album_id);
        }
        true
    }

    /// Removes every image of album `album_id`, and nothing else.
    fn remove_images_of(&mut self, album_id: i64)
        ensures
            final(self).images() == without_album(old(self).images(), album_id),
            final(self).albums() == old(self).albums(),
            final(self).next_album_id() == old(self).next_album_id(),
            final(self).next_image_id() == old(self).next_image_id(),
    {
        let ghost rows = self.images@;
        let ghost mut seen: int = 0;
        let mut i: usize = 0;
        assert(rows.take(0) == Seq::<Image>::empty());
        assert(rows.skip(0) == rows);
        while i < self.images.len()
            invariant
                0 <= seen <= rows.len(),
                i == without_album(rows.take(seen), album_id).len(),
                self.images@ == without_album(rows.take(seen), album_id) + rows.skip(seen),
                self.albums == old(self).albums,
                self.next_album_id == old(self).next_album_id,
                self.next_image_id == old(self).next_image_id,
            decreases rows.len() - seen,
        {
            proof {
                assert(seen < rows.len());
                assert(self.images@[i as int] == rows.skip(seen)[0]);
                assert(rows.take(seen + 1).drop_last() == rows.take(seen));
                assert(rows.take(seen + 1).last() == rows[seen]);
            }
            if self.images[i].album_id == album_id {
                self.images.remove(i);
                assert(self.images@ == without_album(rows.take(seen + 1), album_id) + rows.skip(
                    seen + 1,
                ));
            } else {
                i += 1;
                assert(self.images@ == without_album(rows.take(seen + 1), album_id) + rows.skip(
                    seen + 1,
                ));
            }
            proof {
                seen = seen + 1;
            }
        }
        proof {
            assert(seen == rows.len());
            assert(rows.take(seen) == rows);
            assert(self.images@ == without_album(rows, album_id));
        }
    }

    /// The values in `column` of the images of album `album_id`.
    fn column_values(&self, album_id: i64, column: ModeColumn) -> (values: Vec<Option<String>>)
        ensures
            values@ == album_column(self.images(), album_id, column),
    {
        let mut values: Vec<Option<String>> = Vec::new();
        let mut i: usize = 0;
        assert(self.images@.take(0) == Seq::<Image>::empty());
        while i < self.images.len()
            invariant
                i <= self.images.len(),
                values@ == album_column(self.images@.take(i as int), album_id, column),
            decreases self.images.len() - i,
        {
            proof {
                assert(self.images@.take(i + 1).drop_last() == self.images@.take(i as int));
                assert(self.images@.take(i + 1).last() == self.images@[i as int]);
            }
            let image = &self.images[i];
            if image.album_id == album_id {
                let value = match column {
                    ModeColumn::CameraModel => clone_text(&image.camera_model),
                    ModeColumn::LensModel => clone_text(&image.lens_model),
                    ModeColumn::Aperture => clone_text(&image.aperture),
                };
                values.push(value);
            }
            i += 1;
        }
        assert(self.images@.take(i as int) == self.images@);
        values
    }

    /// Gives album `album_id` the name, description and date of `request`.
    /// Nothing else changes.
    ///
    /// Returns `false`, and changes nothing, where there is no such album.
    pub fn update_album_details(
        &mut self,
        album_id: i64,
        request: &CreateAlbumRequest,
    ) -> (found: bool)
        requires
            old(self).wf(),
        ensures
            final(self).wf(),
            final(self).images() == old(self).images(),
            final(self).next_album_id() == old(self).next_album_id(),
            final(self).next_image_id() == old(self).next_image_id(),
            found == has_album(old(self).albums(), album_id),
            final(self).albums().len() == old(self).albums().len(),
            forall|k: int|
                0 <= k < old(self).albums().len() ==> (#[trigger] final(self).albums()[k]) == if old(
                    self,
                ).albums()[k].id == album_id {
                    with_details(old(self).albums()[k], *request)
                } else {
                    old(self).albums()[k]
                },
    {
        let at = match self.album_index(album_id) {
            Some(k) => k,
            None => {
                return false;
            },
        };
        let ghost before = self.albums@;
        let mut album = self.albums.remove(at);
        album.name = request.name.clone();
        album.description = clone_text(&request.description);
        album.date = request.date.clone();
        self.albums.insert(at, album);
        proof {
            let after = self.albums@;
            assert(after =~= before.update(at as int, album));
            assert forall|k: int| 0 <= k < before.len() && k != at implies (
            #[trigger] before[k]).id != album_id by {
                if k < at {
                    assert(before[k].id < before[at as int].id);
                } else {
                    assert(before[at as int].id < before[k].id);
                }
            }
            assert forall|k: int| 0 <= k < after.len() implies (#[trigger] after[k]).id
                == before[k].id && after[k].num_images == before[k].num_images by {}
            assert forall|k: int| 0 <= k < self.images@.len() implies has_album(
                after,
                (#[trigger] self.images@[k]).album_id,
            ) by {
                let j = choose|j: int|
                    0 <= j < before.len() && (#[trigger] before[j]).id
                        == self.images@[k].album_id;
                assert(after[j].id == self.images@[k].album_id);
            }
        }
        true
    }

    /// The modes of album `album_id`, worked out from the rows of its images.
    /// An album without images, or one that does not exist, has none.
    pub fn get_album_mode_metadata(&self, album_id: i64) -> (modes: ModeMetadata)
        ensures
            is_mode(
                texts(album_column(self.images(), album_id, ModeColumn::CameraModel)),
                text_of(modes.camera_model),
            ),
            is_mode(
                texts(album_column(self.images(), album_id, ModeColumn::LensModel)),
                text_of(modes.lens_model),
            ),
            is_mode(
                texts(album_column(self.images(), album_id, ModeColumn::Aperture)),
                text_of(modes.aperture),
            ),
    {
        let camera_model = mode_of(&self.column_values(album_id, ModeColumn::CameraModel));
        let lens_model = mode_of(&self.column_values(album_id, ModeColumn::LensModel));
        let aperture = mode_of(&self.column_values(album_id, ModeColumn::Aperture));
        ModeMetadata { camera_model, lens_model, aperture }
    }

    /// Brings the three modes that album `album_id` shows up to date with the
    /// rows of its images. Nothing else changes.
    ///
    /// Returns `false`, and changes nothing, where there is no such album.
    pub fn update_album_metadata(&mut self, album_id: i64) -> (found: bool)
        requires
            old(self).wf(),
        ensures
            final(self).wf(),
            final(self).images() == old(self).images(),
            final(self).next_album_id() == old(self).next_album_id(),
            final(self).next_image_id() == old(self).next_image_id(),
            found == has_album(old(self).albums(), album_id),
            final(self).albums().len() == old(self).albums().len(),
            forall|k: int|
                0 <= k < old(self).albums().len() ==> if (#[trigger] old(self).albums()[k]).id
                    == album_id {
                    modes_refreshed(
                        old(self).albums()[k],
                        final(self).albums()[k],
                        old(self).images(),
                    )
                } else {
                    final(self).albums()[k] == old(self).albums()[k]
                },
    {
        let at = match self.album_index(album_id) {
            Some(k) => k,
            None => {
                return false;
            },
        };
        let modes = self.get_album_mode_metadata(album_id);
        let ghost before = self.albums@;
        let mut album = self.albums.remove(at);
        album.camera_model = modes.camera_model;
        album.lens_model = modes.lens_model;
        album.aperture = modes.aperture;
        self.albums.insert(at, album);
        proof {
            let after = self.albums@;
            assert(after =~= before.update(at as int, album));
            assert forall|k: int| 0 <= k < before.len() && k != at implies (
            #[trigger] before[k]).id != album_id by {
                if k < at {
                    assert(before[k].id < before[at as int].id);
                } else {
                    assert(before[at as int].id < before[k].id);
                }
            }
            assert forall|k: int| 0 <= k < after.len() implies (#[trigger] after[k]).id
                == before[k].id && after[k].num_images == before[k].num_images by {}
            assert forall|k: int| 0 <= k < self.images@.len() implies has_album(
                after,
                (#[trigger] self.images@[k]).album_id,
            ) by {
                let j = choose|j: int|
                    0 <= j < before.len() && (#[trigger] before[j]).id
                        == self.images@[k].album_id;
                assert(after[j].id == self.images@[k].album_id);
            }
        }
        true
    }
}

/// Where no row refers to an album, taking its rows away changes nothing.
pub proof fn lemma_unreferenced_album(images: Seq<Image>, album_id: i64)
    requires
        forall|k: int| 0 <= k < images.len() ==> (#[trigger] images[k]).album_id != album_id,
    ensures
        without_album(images, album_id) == images,
    decreases images.len(),
{
    if images.len() > 0 {
        let rest = images.drop_last();
        assert forall|k: int| 0 <= k < rest.len() implies (#[trigger] rest[k]).album_id
            != album_id by {
            assert(rest[k] == images[k]);
        }
        lemma_unreferenced_album(rest, album_id);
        assert(rest.push(images.last()) == images);
    }
}

/// Taking one row out leaves every other row in.
pub proof fn lemma_remove_keeps_others(images: Seq<Image>, at: int, other: int)
    requires
        0 <= at < images.len(),
        0 <= other < images.len(),
        other != at,
    ensures
        images.remove(at).contains(images[other]),
{
    let left = images.remove(at);
    if other < at {
        assert(left[other] == images[other]);
    } else {
        assert(left[other - 1] == images[other]);
    }
}

/// Taking the rows of one album away leaves every row of every other album
/// in.
pub proof fn lemma_without_album_keeps_others(images: Seq<Image>, album_id: i64, other: int)
    requires
        0 <= other < images.len(),
        images[other].album_id != album_id,
    ensures
        without_album(images, album_id).contains(images[other]),
    decreases images.len(),
{
    let rest = images.drop_last();
    let kept = without_album(rest, album_id);
    if other < images.len() - 1 {
        lemma_without_album_keeps_others(rest, album_id, other);
        assert(rest[other] == images[other]);
        let j = choose|j: int| 0 <= j < kept.len() && kept[j] == images[other];
        if images.last().album_id != album_id {
            assert(kept.push(images.last())[j] == images[other]);
        }
    } else {
        assert(kept.push(images.last())[kept.len() as int] == images[other]);
    }
}

} // verus!
