//! Inflating zlib streams and encoding raw pixels as PNG.
use vstd::prelude::*;
use image::{DynamicImage, GrayImage, ImageFormat, RgbImage, RgbaImage};
use std::io::{BufWriter, Cursor};

verus! {

/// The bytes that a zlib stream inflates to, where it is a valid stream.
pub uninterp spec fn zlib_inflate(data: Seq<u8>) -> Option<Seq<u8>>;

/// Inflates a zlib stream: calls `flate2::bufread::ZlibDecoder::new` and reads it to the
/// end. The contract claims that this succeeds exactly where `zlib_inflate` gives bytes,
/// and gives them.
#[verifier::external_body]
pub fn zlib_decode(data: &[u8]) -> (r: Result<Vec<u8>, std::io::Error>)
    ensures
        r is Ok <==> zlib_inflate(data@) is Some,
        r matches Ok(v) ==> zlib_inflate(data@) == Some(v@),
{
    let mut decoder = flate2::bufread::ZlibDecoder::new(data);
    let mut content = Vec::new();
    match std::io::Read::read_to_end(&mut decoder, &mut content) {
        Ok(_) => Ok(content),
        Err(e) => Err(e),
    }
}

/// The pixel layout of raw image data: one, three or four bytes per pixel.
#[derive(Clone, Copy, Debug, PartialEq, Eq, Structural)]
pub enum ColorKind {
    Gray,
    Rgb,
    Rgba,
}

pub open spec fn channels(color: ColorKind) -> nat {
    match color {
        ColorKind::Gray => 1,
        ColorKind::Rgb => 3,
        ColorKind::Rgba => 4,
    }
}

/// Whether `len` bytes hold a `width` by `height` image: the image crate's `from_raw`
/// computes channels times width times height with checked multiplication in `usize`.
pub open spec fn buffer_fits(color: ColorKind, width: u32, height: u32, len: nat) -> bool {
    &&& channels(color) * width <= usize::MAX
    &&& channels(color) * width * height <= usize::MAX
    &&& channels(color) * width * height <= len
}

/// The number of bytes of a `width` by `height` image, where it fits in `usize`, computed
/// as `from_raw` computes it.
pub fn image_bytes(color: ColorKind, width: u32, height: u32) -> (n: Option<usize>)
    ensures
        match n {
            Some(n) => channels(color) * width <= usize::MAX && channels(color) * width * height <= usize::MAX
                && n == channels(color) * width * height,
            None => !(channels(color) * width <= usize::MAX && channels(color) * width * height <= usize::MAX),
        },
{
    let c: usize = match color {
        ColorKind::Gray => 1,
        ColorKind::Rgb => 3,
        ColorKind::Rgba => 4,
    };
    let cw = match c.checked_mul(width as usize) {
        Some(v) => v,
        None => return None,
    };
    match cw.checked_mul(height as usize) {
        Some(v) => Some(v),
        None => {
            assert(channels(color) * width * height > usize::MAX) by (nonlinear_arith)
                requires cw as int == channels(color) * width, cw * height > usize::MAX;
            None
        },
    }
}

/// What writing an image as PNG into memory gives.
pub ghost enum PngWrite {
    Encoded(Seq<u8>),
    EncodeFailed,
}

/// The outcome of writing the `width` by `height` image with the given pixels as PNG.
pub uninterp spec fn png_write(color: ColorKind, width: u32, height: u32, pixels: Seq<u8>) -> PngWrite;

/// The outcome of encoding raw pixels as PNG.
#[derive(Debug)]
pub enum PngOutcome {
    /// The pixels are too few for the image's size.
    TooSmall,
    Encoded(Vec<u8>),
    EncodeFailed(image::ImageError),
    /// The buffered writer could not hand its output back. `encode_png` never gives it:
    /// the writer's inner writer is a `Cursor` over a `Vec`, which takes every write.
    FlushFailed,
}

pub open spec fn png_outcome_view(o: PngOutcome) -> PngWrite {
    match o {
        PngOutcome::Encoded(v) => PngWrite::Encoded(v@),
        _ => PngWrite::EncodeFailed,
    }
}

/// Builds an image with `GrayImage`, `RgbImage` or `RgbaImage::from_raw`, then calls
/// `DynamicImage::write_to` with `ImageFormat::Png` into a `BufWriter` over a `Cursor`.
/// The contract claims that `from_raw` fails exactly where the buffer does not fit, as its
/// source shows, that otherwise the outcome is `png_write` of the arguments, and that the
/// `BufWriter` always hands its output back: `into_inner` fails only where flushing into
/// the inner writer fails, and that writer is a `Cursor` over a `Vec` in memory, which
/// grows to take every write. The PNG encoder asserts that the buffer holds exactly the
/// image's bytes, so a buffer that fits but is longer is left out.
#[verifier::external_body]
pub fn encode_png(color: ColorKind, width: u32, height: u32, pixels: Vec<u8>) -> (r: PngOutcome)
    requires
        buffer_fits(color, width, height, pixels@.len()) ==> pixels@.len() == channels(color) * width * height,
    ensures
        r is TooSmall <==> !buffer_fits(color, width, height, pixels@.len()),
        !(r is TooSmall) ==> png_outcome_view(r) == png_write(color, width, height, pixels@),
        !(r is FlushFailed),
{
    let img = match color {
        ColorKind::Gray => GrayImage::from_raw(width, height, pixels).map(DynamicImage::ImageLuma8),
        ColorKind::Rgb => RgbImage::from_raw(width, height, pixels).map(DynamicImage::ImageRgb8),
        ColorKind::Rgba => RgbaImage::from_raw(width, height, pixels).map(DynamicImage::ImageRgba8),
    };
    let Some(img) = img else { return PngOutcome::TooSmall };
    let mut out = BufWriter::new(Cursor::new(Vec::new()));
    if let Err(e) = img.write_to(&mut out, ImageFormat::Png) {
        return PngOutcome::EncodeFailed(e);
    }
    match out.into_inner() {
        Ok(cursor) => PngOutcome::Encoded(cursor.into_inner()),
        Err(_) => PngOutcome::FlushFailed,
    }
}

} // verus!
