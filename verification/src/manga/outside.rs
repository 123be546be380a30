//! Outside types that the conversion carries through.
use vstd::prelude::*;

verus! {

/// lopdf's error type, carried through as it is.
#[verifier::external_type_specification]
#[verifier::external_body]
pub struct ExLopdfError(lopdf::Error);

/// std's I/O error type, carried through as it is.
#[verifier::external_type_specification]
#[verifier::external_body]
pub struct ExIoError(std::io::Error);

/// The image crate's error type, carried through as it is.
#[verifier::external_type_specification]
#[verifier::external_body]
pub struct ExImageError(image::ImageError);

} // verus!
