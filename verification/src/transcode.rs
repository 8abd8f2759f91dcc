//! The derived variants of an image: their sizes and their pixels.
//!
//! A derived variant is never larger than the picture it is made from: a
//! picture that already fits under the variant's longest edge keeps its size,
//! any other is scaled so that its longer edge is exactly that long.
//!
//! Decoding and encoding happen outside this module. It takes decoded pixels
//! and hands back the pixels of both derived variants.

use vstd::prelude::*;

verus! {

/// Longest edge of the display variant, in pixels.
pub const OPTIMIZED_MAX_SIZE: u32 = 1920;

/// Longest edge of the thumbnail, in pixels.
pub const THUMBNAIL_MAX_SIZE: u32 = 400;

/// Encoder quality of the display variant, in percent.
pub const OPTIMIZED_QUALITY: i32 = 85;

/// Encoder quality of the thumbnail, in percent. Thumbnails are small, so the
/// higher setting costs little.
pub const THUMBNAIL_QUALITY: i32 = 95;

/// Whether a picture of the given size needs no scaling for a variant whose
/// longest edge is `max_size`.
pub open spec fn fits_within(width: int, height: int, max_size: int) -> bool {
    width <= max_size && height <= max_size
}

/// The size of a variant with longest edge `max_size`, made from a picture of
/// `width` by `height` pixels. The shorter edge is rounded down.
pub open spec fn scaled_dimensions(width: int, height: int, max_size: int) -> (int, int) {
    if fits_within(width, height, max_size) {
        (width, height)
    } else if width > height {
        (max_size, (max_size * height) / width)
    } else {
        ((max_size * width) / height, max_size)
    }
}

/// The quotient `q` of `a` by a positive `b` is the one number with
/// `q * b <= a < (q + 1) * b`.
proof fn lemma_quotient_bounds(a: int, b: int)
    requires
        0 <= a,
        0 < b,
    ensures
        0 <= a / b,
        (a / b) * b <= a < (a / b + 1) * b,
{
    vstd::arithmetic::div_mod::lemma_fundamental_div_mod(a, b);
    vstd::arithmetic::div_mod::lemma_mod_pos_bound(a, b);
    vstd::arithmetic::div_mod::lemma_div_pos_is_pos(a, b);
    assert(b * (a / b) == (a / b) * b) by (nonlinear_arith);
    assert((a / b + 1) * b == (a / b) * b + b) by (nonlinear_arith);
}

/// Scaling a shorter edge `s` of a picture whose longer edge is `l` to the
/// longest edge `m < l` gives at most `m`, and less than `s` unless `s` is 0.
proof fn lemma_scaled_edge(m: int, s: int, l: int)
    requires
        0 <= m < l,
        0 <= s <= l,
    ensures
        0 <= (m * s) / l <= m,
        (m * s) / l <= s,
{
    assert(0 <= m * s) by (nonlinear_arith)
        requires
            0 <= m,
            0 <= s,
    ;
    lemma_quotient_bounds(m * s, l);
    let q = (m * s) / l;
    assert(q <= m) by (nonlinear_arith)
        requires
            q * l <= m * s,
            0 <= s <= l,
            0 <= m,
            0 < l,
    ;
    assert(q <= s) by (nonlinear_arith)
        requires
            q * l <= m * s,
            0 <= m < l,
            0 <= s,
    ;
}

/// Computes the size of a variant with longest edge `max_size`.
///
/// A picture that fits keeps its size. Any other is scaled down: its longer
/// edge becomes `max_size` and the other edge is the largest whole number of
/// pixels that does not stretch the picture along that edge.
pub fn calculate_dimensions(width: u32, height: u32, max_size: u32) -> (r: (u32, u32))
    ensures
        (r.0 as int, r.1 as int) == scaled_dimensions(width as int, height as int, max_size as int),
        fits_within(width as int, height as int, max_size as int) ==> r == (width, height),
        r.0 <= width && r.1 <= height,
        r.0 <= max_size && r.1 <= max_size,
        !fits_within(width as int, height as int, max_size as int) && width > height ==> {
            &&& r.0 == max_size
            &&& r.1 * width <= max_size * height < (r.1 + 1) * width
        },
        !fits_within(width as int, height as int, max_size as int) && width <= height ==> {
            &&& r.1 == max_size
            &&& r.0 * height <= max_size * width < (r.0 + 1) * height
        },
{
    if width <= max_size && height <= max_size {
        return (width, height);
    }
    let m: u64 = max_size as u64;
    if width > height {
        proof {
            lemma_scaled_edge(max_size as int, height as int, width as int);
            lemma_quotient_bounds(max_size as int * height as int, width as int);
        }
        assert(m * (height as u64) <= u64::MAX) by (nonlinear_arith)
            requires
                m <= u32::MAX,
                height <= u32::MAX,
        ;
        let new_height: u64 = m * (height as u64) / (width as u64);
        (max_size, new_height as u32)
    } else {
        proof {
            lemma_scaled_edge(max_size as int, width as int, height as int);
            lemma_quotient_bounds(max_size as int * width as int, height as int);
        }
        assert(m * (width as u64) <= u64::MAX) by (nonlinear_arith)
            requires
                m <= u32::MAX,
                width <= u32::MAX,
        ;
        let new_width: u64 = m * (width as u64) / (height as u64);
        (new_width as u32, max_size)
    }
}

/// The result of transcoding one image, as long as its ingestion runs.
pub struct ProcessedImage {
    /// The encoded display variant.
    pub optimized: Vec<u8>,
    /// The encoded thumbnail.
    pub thumbnail: Vec<u8>,
    /// Length in bytes of the file as it was uploaded.
    pub original_size: usize,
}

impl ProcessedImage {
    /// Puts together the result of transcoding an upload of `original_size`
    /// bytes.
    pub fn new(optimized: Vec<u8>, thumbnail: Vec<u8>, original_size: usize) -> (p: ProcessedImage)
        ensures
            p.optimized == optimized,
            p.thumbnail == thumbnail,
            p.original_size == original_size,
    {
        ProcessedImage { optimized, thumbnail, original_size }
    }
}

/// A decoded picture: rows of pixels from top to bottom, three bytes (red,
/// green, blue) per pixel.
pub struct RawImage {
    width: u32,
    height: u32,
    pixels: Vec<u8>,
}

impl RawImage {
    /// The buffer holds exactly the pixels of a `width` by `height` picture.
    #[verifier::type_invariant]
    pub closed spec fn well_formed(&self) -> bool {
        self.pixels@.len() == 3 * self.width * self.height
    }

    /// Width in pixels.
    pub closed spec fn spec_width(&self) -> u32 {
        self.width
    }

    /// Height in pixels.
    pub closed spec fn spec_height(&self) -> u32 {
        self.height
    }

    /// The bytes of the pixels.
    pub closed spec fn spec_pixels(&self) -> Seq<u8> {
        self.pixels@
    }

    /// Makes a picture of `width` by `height` pixels from their bytes.
    /// Returns `None` unless there are exactly three bytes per pixel.
    pub fn new(width: u32, height: u32, pixels: Vec<u8>) -> (image: Option<RawImage>)
        ensures
            image is Some <==> pixels@.len() == 3 * width * height,
            image matches Some(i) ==> i.spec_width() == width && i.spec_height() == height
                && i.spec_pixels() == pixels@,
    {
        let w: u128 = width as u128;
        let h: u128 = height as u128;
        assert(3 * w * h <= 3 * 0xffff_ffff * 0xffff_ffff) by (nonlinear_arith)
            requires
                w <= 0xffff_ffff,
                h <= 0xffff_ffff,
        ;
        let expected: u128 = 3 * w * h;
        if pixels.len() as u128 == expected {
            Some(RawImage { width, height, pixels })
        } else {
            None
        }
    }

    /// Width in pixels.
    #[verifier::when_used_as_spec(spec_width)]
    pub fn width(&self) -> (w: u32)
        ensures
            w == self.spec_width(),
    {
        self.width
    }

    /// Height in pixels.
    #[verifier::when_used_as_spec(spec_height)]
    pub fn height(&self) -> (h: u32)
        ensures
            h == self.spec_height(),
    {
        self.height
    }

    /// The bytes of the pixels: three for each pixel.
    pub fn pixels(&self) -> (p: &Vec<u8>)
        ensures
            p@ == self.spec_pixels(),
            p@.len() == 3 * self.spec_width() * self.spec_height(),
    {
        proof {
            use_type_invariant(self);
        }
        &self.pixels
    }

    /// Gives up the picture for the bytes of its pixels.
    pub fn into_pixels(self) -> (p: Vec<u8>)
        ensures
            p@ == self.spec_pixels(),
            p@.len() == 3 * self.spec_width() * self.spec_height(),
    {
        proof {
            use_type_invariant(&self);
        }
        self.pixels
    }
}

/// Why a picture could not be scaled.
#[derive(Clone, Copy, Debug, PartialEq, Eq, Structural)]
pub enum ResizeError {
    /// The scaler did not accept the pixel buffer.
    Buffer,
    /// The scaler gave up.
    Scaling,
}

/// `fast_image_resize::Resizer`: the scaler with its buffers. Nothing inside
/// it is looked at.
#[verifier::external_type_specification]
#[verifier::external_body]
pub struct ExResizer(fast_image_resize::Resizer);

/// `fast_image_resize::Resizer::new`: a scaler that uses the best instruction
/// set of the processor it runs on. Nothing is claimed of it.
pub assume_specification[ fast_image_resize::Resizer::new ]() -> fast_image_resize::Resizer;

/// `fast_image_resize::Resizer::resize`, with its default options, from a
/// view of `src` into a fresh picture of `width` by `height` pixels of the
/// same pixel type. On success the bytes of that picture are handed back as
/// the scaler left them. Nothing is claimed of them, not even how many there
/// are. The destination is allocated before the call with three bytes per
/// pixel, hence the bound on its size.
#[verifier::external_body]
fn scale_pixels(
    resizer: &mut fast_image_resize::Resizer,
    src: &RawImage,
    width: u32,
    height: u32,
) -> (scaled: Result<Vec<u8>, ResizeError>)
    requires
        3 * width * height <= isize::MAX,
{
    let pixel_type = fast_image_resize::PixelType::U8x3;
    let view = fast_image_resize::images::ImageRef::new(src.width, src.height, &src.pixels, pixel_type)
        .map_err(|_| ResizeError::Buffer)?;
    let mut target = fast_image_resize::images::Image::new(width, height, pixel_type);
    resizer.resize(&view, &mut target, None).map_err(|_| ResizeError::Scaling)?;
    Ok(target.into_vec())
}

/// What becomes of the answer of a scaler that was asked for a picture of
/// `width` by `height` pixels: bytes that make such a picture, three for each
/// pixel, become that picture; any other number of bytes is refused as a bad
/// buffer; a failure of the scaler is handed on.
pub open spec fn variant_of(
    width: u32,
    height: u32,
    scaled: Result<Vec<u8>, ResizeError>,
    variant: Result<RawImage, ResizeError>,
) -> bool {
    match scaled {
        Ok(pixels) => if pixels@.len() == 3 * width * height {
            variant matches Ok(image) && image.spec_width() == width && image.spec_height()
                == height && image.spec_pixels() == pixels@
        } else {
            variant == Err::<RawImage, ResizeError>(ResizeError::Buffer)
        },
        Err(e) => variant == Err::<RawImage, ResizeError>(e),
    }
}

/// Makes the picture of a variant from the answer of a scaler that was asked
/// for `width` by `height` pixels. The bytes are not taken on trust: they are
/// counted.
pub fn variant_from(
    width: u32,
    height: u32,
    scaled: Result<Vec<u8>, ResizeError>,
) -> (variant: Result<RawImage, ResizeError>)
    ensures
        variant_of(width, height, scaled, variant),
{
    match scaled {
        Ok(pixels) => match RawImage::new(width, height, pixels) {
            Some(image) => Ok(image),
            None => Err(ResizeError::Buffer),
        },
        Err(e) => Err(e),
    }
}

/// Scales a decoded picture to both derived variants, the display variant
/// first, with one scaler for both.
///
/// The scaler is asked for each variant in the size that
/// `calculate_dimensions` gives for its longest edge, and what it answers is
/// made into a picture by `variant_from`. So on success each variant has that
/// size and three bytes for each of its pixels. Whether the scaler succeeds
/// is up to the scaler; where it fails for the display variant it is not
/// asked for the thumbnail.
pub fn resize_variants(src: &RawImage) -> (variants: Result<(RawImage, RawImage), ResizeError>)
    ensures
        variants matches Ok((optimized, thumbnail)) ==> {
            &&& (optimized.spec_width() as int, optimized.spec_height() as int)
                == scaled_dimensions(
                src.spec_width() as int,
                src.spec_height() as int,
                OPTIMIZED_MAX_SIZE as int,
            )
            &&& optimized.spec_pixels().len() == 3 * optimized.spec_width()
                * optimized.spec_height()
            &&& (thumbnail.spec_width() as int, thumbnail.spec_height() as int)
                == scaled_dimensions(
                src.spec_width() as int,
                src.spec_height() as int,
                THUMBNAIL_MAX_SIZE as int,
            )
            &&& thumbnail.spec_pixels().len() == 3 * thumbnail.spec_width()
                * thumbnail.spec_height()
        },
{
    let mut resizer = fast_image_resize::Resizer::new();
    let (width, height) = calculate_dimensions(src.width(), src.height(), OPTIMIZED_MAX_SIZE);
    assert(3 * width * height <= isize::MAX) by (nonlinear_arith)
        requires
            width <= 1920,
            height <= 1920,
            isize::MAX >= 0x7fff_ffff,
    ;
    let scaled = scale_pixels(&mut resizer, src, width, height);
    let optimized = match variant_from(width, height, scaled) {
        Ok(image) => image,
        Err(e) => {
            return Err(e);
        },
    };
    let (width, height) = calculate_dimensions(src.width(), src.height(), THUMBNAIL_MAX_SIZE);
    assert(3 * width * height <= isize::MAX) by (nonlinear_arith)
        requires
            width <= 400,
            height <= 400,
            isize::MAX >= 0x7fff_ffff,
    ;
    let scaled = scale_pixels(&mut resizer, src, width, height);
    let thumbnail = match variant_from(width, height, scaled) {
        Ok(image) => image,
        Err(e) => {
            return Err(e);
        },
    };
    Ok((optimized, thumbnail))
}

} // verus!
