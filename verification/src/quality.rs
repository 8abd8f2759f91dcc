//! The three stored resolutions of every image.

use vstd::prelude::*;

verus! {

/// One of the three variants in which an image is stored.
#[derive(Clone, Copy, Debug, PartialEq, Eq, Structural)]
pub enum ImageQuality {
    /// The bytes exactly as they were uploaded.
    Full,
    /// The display size.
    Optimized,
    /// The small preview.
    Thumbnail,
}

impl ImageQuality {
    /// The directory name of this variant, as a sequence of characters.
    pub open spec fn name(self) -> Seq<char> {
        match self {
            ImageQuality::Full => "full"@,
            ImageQuality::Optimized => "optimized"@,
            ImageQuality::Thumbnail => "thumbnail"@,
        }
    }

    /// The directory name of this variant.
    pub fn as_str(&self) -> (s: &'static str)
        ensures
            s@ == self.name(),
    {
        match self {
            ImageQuality::Full => "full",
            ImageQuality::Optimized => "optimized",
            ImageQuality::Thumbnail => "thumbnail",
        }
    }
}

} // verus!
