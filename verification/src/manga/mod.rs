//! Turning the images of a PDF into a comic book archive.
pub mod archive;
pub mod cbz;
pub mod codec;
pub mod error;
pub mod extract;
pub mod names;
pub mod outside;
pub mod pdf;
