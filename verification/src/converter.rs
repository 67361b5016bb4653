//! The image encodings the pipeline accepts and the choice of the converter
//! that handles each of them.

use vstd::prelude::*;
use crate::text::str_eq;

verus! {

/// An encoding that can be turned into WebP.
#[derive(Debug, Copy, Clone, PartialEq, Eq, Structural)]
pub enum ImageFormat {
    Heif,
    Jpeg,
    Png,
    Webp,
}

impl ImageFormat {
    /// The media type of the encoding.
    pub open spec fn mime(self) -> Seq<char> {
        match self {
            ImageFormat::Heif => "image/heif"@,
            ImageFormat::Jpeg => "image/jpeg"@,
            ImageFormat::Png => "image/png"@,
            ImageFormat::Webp => "image/webp"@,
        }
    }

    /// The encoding with the given media type, if it is a supported one.
    pub open spec fn of_mime(m: Seq<char>) -> Option<ImageFormat> {
        if m == "image/heif"@ {
            Some(ImageFormat::Heif)
        } else if m == "image/jpeg"@ {
            Some(ImageFormat::Jpeg)
        } else if m == "image/png"@ {
            Some(ImageFormat::Png)
        } else if m == "image/webp"@ {
            Some(ImageFormat::Webp)
        } else {
            None
        }
    }

    pub fn from_mime(m: &str) -> (r: Option<Self>)
        ensures
            r == Self::of_mime(m@),
    {
        if str_eq(m, "image/heif") {
            Some(ImageFormat::Heif)
        } else if str_eq(m, "image/jpeg") {
            Some(ImageFormat::Jpeg)
        } else if str_eq(m, "image/png") {
            Some(ImageFormat::Png)
        } else if str_eq(m, "image/webp") {
            Some(ImageFormat::Webp)
        } else {
            None
        }
    }

    pub fn as_str(&self) -> (r: &'static str)
        ensures
            r@ == self.mime(),
    {
        match self {
            ImageFormat::Heif => "image/heif",
            ImageFormat::Jpeg => "image/jpeg",
            ImageFormat::Png => "image/png",
            ImageFormat::Webp => "image/webp",
        }
    }

    /// A media type is supported exactly when it names one of the encodings,
    /// and every encoding is found again from its own media type.
    pub proof fn lemma_mime_round_trip(self)
        ensures
            Self::of_mime(self.mime()) == Some(self),
            forall|m: Seq<char>| Self::of_mime(m) == Some(self) <==> m == self.mime(),
    {
        reveal_strlit("image/heif");
        reveal_strlit("image/jpeg");
        reveal_strlit("image/png");
        reveal_strlit("image/webp");
        assert("image/heif"@[6] == 'h');
        assert("image/jpeg"@[6] == 'j');
        assert("image/png"@[6] == 'p');
        assert("image/webp"@[6] == 'w');
    }
}

/// The two converters: one for HEIF containers, one for everything the
/// general decoder reads.
#[derive(Debug, Copy, Clone, PartialEq, Eq, Structural)]
pub enum Backend {
    Heif,
    General,
}

/// Width of the preview in pixels; its height follows from the picture's
/// proportions.
pub const SMALL_WIDTH: u32 = 600;

/// Quality of both renditions, out of 100.
pub const WEBP_QUALITY: u8 = 75;

/// The two WebP renditions made of one picture.
#[derive(Debug, Clone, PartialEq, Eq)]
pub struct WebpOutput {
    /// Preview, `SMALL_WIDTH` pixels wide.
    pub small: Vec<u8>,
    /// Full size.
    pub large: Vec<u8>,
}

/// Picks the converter for a picture by its encoding.
#[derive(Debug, Copy, Clone, PartialEq, Eq, Structural)]
pub struct ImageConverter {}

impl ImageConverter {
    pub fn new() -> (r: Self)
        ensures
            r == (ImageConverter {}),
    {
        ImageConverter {}
    }

    /// The converter that handles `format`.
    pub open spec fn backend_of(format: ImageFormat) -> Backend {
        match format {
            ImageFormat::Heif => Backend::Heif,
            ImageFormat::Jpeg | ImageFormat::Png | ImageFormat::Webp => Backend::General,
        }
    }

    pub fn backend(&self, format: ImageFormat) -> (r: Backend)
        ensures
            r == Self::backend_of(format),
    {
        match format {
            ImageFormat::Heif => Backend::Heif,
            ImageFormat::Jpeg | ImageFormat::Png | ImageFormat::Webp => Backend::General,
        }
    }
}

} // verus!
