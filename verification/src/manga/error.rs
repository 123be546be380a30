//! Errors of the PDF to comic book conversion.
use vstd::prelude::*;

verus! {

/// Why the images of a PDF could not be extracted.
#[derive(Debug)]
pub enum MangaError {
    /// The PDF could not be read, or an object or entry that the extraction needs is
    /// missing or of the wrong type.
    Lopdf(lopdf::Error),
    /// A zlib stream could not be inflated.
    Io(std::io::Error),
    /// An image could not be encoded as PNG.
    Image(image::ImageError),
    /// The pixel data is too short for the image's size.
    ImageConvert,
}

/// The variant of a [`MangaError`].
#[derive(Clone, Copy, Debug, PartialEq, Eq, Structural)]
pub enum ErrorKind {
    Lopdf,
    Io,
    Image,
    ImageConvert,
}

impl MangaError {
    pub open spec fn kind(&self) -> ErrorKind {
        match self {
            MangaError::Lopdf(_) => ErrorKind::Lopdf,
            MangaError::Io(_) => ErrorKind::Io,
            MangaError::Image(_) => ErrorKind::Image,
            MangaError::ImageConvert => ErrorKind::ImageConvert,
        }
    }
}

pub type Result<T> = core::result::Result<T, MangaError>;

} // verus!
