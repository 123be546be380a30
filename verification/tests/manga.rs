use std::io::{Read, Write};

use lopdf::{Dictionary, Document, Object, Stream};
use shutup_bot::manga::archive::Compression;
use shutup_bot::manga::cbz::{cbz_from_images, pdf_to_cbz_archive, write_images_to_archive};
use shutup_bot::manga::error::MangaError;
use shutup_bot::manga::extract::{compose_rgba_png, extract_images, scan_images, try_extract_images, ImageExt};

fn zlib(data: &[u8]) -> Vec<u8> {
    let mut e = flate2::write::ZlibEncoder::new(Vec::new(), flate2::Compression::default());
    e.write_all(data).unwrap();
    e.finish().unwrap()
}

fn image_dict(filter: &str) -> Dictionary {
    let mut d = Dictionary::new();
    d.set("Type", Object::Name(b"XObject".to_vec()));
    d.set("Subtype", Object::Name(b"Image".to_vec()));
    d.set("Filter", Object::Name(filter.as_bytes().to_vec()));
    d
}

fn flate_image(width: i64, height: i64, color_space: Option<&str>, pixels: &[u8]) -> Stream {
    let mut d = image_dict("FlateDecode");
    d.set("Width", Object::Integer(width));
    d.set("Height", Object::Integer(height));
    if let Some(cs) = color_space {
        d.set("ColorSpace", Object::Name(cs.as_bytes().to_vec()));
    }
    Stream::new(d, zlib(pixels))
}

fn decode_png(bytes: &[u8]) -> image::DynamicImage {
    image::load_from_memory_with_format(bytes, image::ImageFormat::Png).unwrap()
}

#[test]
fn compose_interleaves_alpha() {
    assert_eq!(compose_rgba_png(&[1, 2, 3, 4, 5, 6, 7], &[9, 8, 7], 2, 1), vec![1, 2, 3, 9, 4, 5, 6, 8]);
    assert_eq!(compose_rgba_png(&[], &[], 0, 0), Vec::<u8>::new());
}

#[test]
fn jpeg_jp2_and_unknown_streams_are_taken_as_they_are() {
    let mut doc = Document::with_version("1.5");
    doc.add_object(Stream::new(image_dict("DCTDecode"), vec![0xFF, 0xD8, 1, 2]));
    doc.add_object(Stream::new(image_dict("JPXDecode"), vec![5, 6]));
    doc.add_object(Stream::new(image_dict("RunLengthDecode"), vec![7]));
    doc.add_object(Stream::new(Dictionary::new(), vec![9, 9]));
    doc.add_object(Object::Integer(3));
    let images = extract_images(&doc).unwrap();
    assert_eq!(
        images,
        vec![
            (vec![0xFF, 0xD8, 1, 2], ImageExt::Jpg),
            (vec![5, 6], ImageExt::Jp2),
            (vec![7], ImageExt::Bin),
        ]
    );
    assert_eq!(images[2].1.extension(), "bin");
}

#[test]
fn flate_rgb_image_becomes_a_png() {
    let mut doc = Document::with_version("1.5");
    doc.add_object(flate_image(2, 1, Some("DeviceRGB"), &[10, 20, 30, 40, 50, 60]));
    let images = extract_images(&doc).unwrap();
    assert_eq!(images.len(), 1);
    assert_eq!(images[0].1, ImageExt::Png);
    let img = decode_png(&images[0].0).to_rgb8();
    assert_eq!(img.dimensions(), (2, 1));
    assert_eq!(img.into_raw(), vec![10, 20, 30, 40, 50, 60]);
}

#[test]
fn gray_image_keeps_its_layout() {
    let mut doc = Document::with_version("1.5");
    doc.add_object(flate_image(2, 2, Some("DeviceGray"), &[0, 64, 128, 255]));
    let images = extract_images(&doc).unwrap();
    let img = decode_png(&images[0].0);
    assert_eq!(img.color(), image::ColorType::L8);
    assert_eq!(img.to_luma8().into_raw(), vec![0, 64, 128, 255]);
}

#[test]
fn soft_mask_becomes_alpha_and_is_left_out() {
    let mut doc = Document::with_version("1.5");
    let mask_id = doc.new_object_id();
    let mut image = flate_image(2, 1, None, &[1, 2, 3, 4, 5, 6]);
    image.dict.set("SMask", Object::Reference(mask_id));
    doc.add_object(image);
    let mut mask_dict = image_dict("FlateDecode");
    mask_dict.set("Width", Object::Integer(2));
    mask_dict.set("Height", Object::Integer(1));
    doc.objects.insert(mask_id, Object::Stream(Stream::new(mask_dict, zlib(&[200, 100]))));
    let images = extract_images(&doc).unwrap();
    assert_eq!(images.len(), 1);
    let img = decode_png(&images[0].0).to_rgba8();
    assert_eq!(img.into_raw(), vec![1, 2, 3, 200, 4, 5, 6, 100]);
}

#[test]
fn rgb_image_with_soft_mask_is_reported_before_encoding() {
    let mut doc = Document::with_version("1.5");
    let mask_id = doc.new_object_id();
    let mut image = flate_image(2, 1, Some("DeviceRGB"), &[1, 2, 3, 4, 5, 6]);
    image.dict.set("SMask", Object::Reference(mask_id));
    doc.add_object(image);
    doc.objects.insert(mask_id, Object::Stream(Stream::new(Dictionary::new(), zlib(&[200, 100]))));
    assert!(try_extract_images(&doc).is_none());
}

#[test]
fn short_soft_mask_is_reported_before_it_is_read() {
    let mut doc = Document::with_version("1.5");
    let mask_id = doc.new_object_id();
    let mut image = flate_image(2, 1, Some("DeviceRGB"), &[1, 2, 3, 4, 5, 6]);
    image.dict.set("SMask", Object::Reference(mask_id));
    doc.add_object(image);
    doc.objects.insert(mask_id, Object::Stream(Stream::new(Dictionary::new(), zlib(&[200]))));
    assert!(try_extract_images(&doc).is_none());
}

#[test]
fn image_without_filter_is_a_lopdf_error() {
    let mut doc = Document::with_version("1.5");
    let mut d = Dictionary::new();
    d.set("Subtype", Object::Name(b"Image".to_vec()));
    doc.add_object(Stream::new(d, vec![1]));
    assert!(matches!(scan_images(&doc), Err(MangaError::Lopdf(_))));
    assert!(matches!(extract_images(&doc), Err(MangaError::Lopdf(_))));
}

#[test]
fn flate_image_without_width_is_a_lopdf_error() {
    let mut doc = Document::with_version("1.5");
    doc.add_object(Stream::new(image_dict("FlateDecode"), zlib(&[1, 2, 3])));
    assert!(matches!(extract_images(&doc), Err(MangaError::Lopdf(_))));
}

#[test]
fn broken_zlib_is_an_io_error() {
    let mut doc = Document::with_version("1.5");
    let mut s = flate_image(1, 1, Some("DeviceRGB"), &[1, 2, 3]);
    s.content = vec![1, 2, 3, 4];
    doc.add_object(s);
    assert!(matches!(extract_images(&doc), Err(MangaError::Io(_))));
}

#[test]
fn too_few_pixels_is_an_image_convert_error() {
    let mut doc = Document::with_version("1.5");
    doc.add_object(flate_image(4, 4, Some("DeviceRGB"), &[1, 2, 3]));
    assert!(matches!(extract_images(&doc), Err(MangaError::ImageConvert)));
}

#[test]
fn images_come_in_object_id_order() {
    let mut doc = Document::with_version("1.5");
    doc.objects.insert((9, 0), Object::Stream(Stream::new(image_dict("DCTDecode"), vec![9])));
    doc.objects.insert((2, 0), Object::Stream(Stream::new(image_dict("DCTDecode"), vec![2])));
    doc.objects.insert((2, 1), Object::Stream(Stream::new(image_dict("JPXDecode"), vec![3])));
    let ids: Vec<_> = scan_images(&doc).unwrap().into_iter().map(|(id, _)| id).collect();
    assert_eq!(ids, vec![(2, 0), (2, 1), (9, 0)]);
}

fn read_zip(bytes: &[u8]) -> Vec<(String, zip::CompressionMethod, Vec<u8>)> {
    let mut archive = zip::ZipArchive::new(std::io::Cursor::new(bytes.to_vec())).unwrap();
    let mut out = Vec::new();
    for i in 0..archive.len() {
        let mut f = archive.by_index(i).unwrap();
        let mut data = Vec::new();
        f.read_to_end(&mut data).unwrap();
        out.push((f.name().unwrap().to_string(), f.compression(), data));
    }
    out
}

#[test]
fn archive_names_pages_in_order() {
    let bytes = write_images_to_archive(
        vec![(vec![1, 2], ImageExt::Jpg), (vec![3], ImageExt::Png), (vec![], ImageExt::Bin)],
        Compression::Stored,
    )
    .unwrap();
    let entries = read_zip(&bytes);
    assert_eq!(
        entries,
        vec![
            ("pg-1.jpg".to_string(), zip::CompressionMethod::Stored, vec![1, 2]),
            ("pg-2.png".to_string(), zip::CompressionMethod::Stored, vec![3]),
            ("pg-3.bin".to_string(), zip::CompressionMethod::Stored, vec![]),
        ]
    );
}

#[test]
fn png_pages_are_deflated() {
    let bytes = cbz_from_images(vec![(vec![7; 100], ImageExt::Png), (vec![8], ImageExt::Jpg)]).unwrap();
    let entries = read_zip(&bytes);
    assert_eq!(entries[0].1, zip::CompressionMethod::Deflated);
    assert_eq!(entries[0].2, vec![7; 100]);
    let bytes = cbz_from_images(vec![(vec![8], ImageExt::Jpg)]).unwrap();
    assert_eq!(read_zip(&bytes)[0].1, zip::CompressionMethod::Stored);
}

fn pdf_bytes(doc: &mut Document) -> Vec<u8> {
    let pages_id = doc.new_object_id();
    let mut pages = Dictionary::new();
    pages.set("Type", Object::Name(b"Pages".to_vec()));
    pages.set("Kids", Object::Array(vec![]));
    pages.set("Count", Object::Integer(0));
    doc.objects.insert(pages_id, Object::Dictionary(pages));
    let mut catalog = Dictionary::new();
    catalog.set("Type", Object::Name(b"Catalog".to_vec()));
    catalog.set("Pages", Object::Reference(pages_id));
    let catalog_id = doc.add_object(catalog);
    doc.trailer.set("Root", Object::Reference(catalog_id));
    let mut out = Vec::new();
    doc.save_to(&mut out).unwrap();
    out
}

#[test]
fn pdf_becomes_a_comic_book() {
    let mut doc = Document::with_version("1.5");
    doc.add_object(Stream::new(image_dict("DCTDecode"), vec![0xFF, 0xD8, 0xFF]));
    let bytes = pdf_bytes(&mut doc);
    let archive = pdf_to_cbz_archive(&bytes).unwrap().unwrap().unwrap();
    let entries = read_zip(&archive);
    assert_eq!(entries, vec![("pg-1.jpg".to_string(), zip::CompressionMethod::Stored, vec![0xFF, 0xD8, 0xFF])]);
}

#[test]
fn pdf_without_images_gives_nothing() {
    let mut doc = Document::with_version("1.5");
    let bytes = pdf_bytes(&mut doc);
    assert!(pdf_to_cbz_archive(&bytes).is_none());
}

#[test]
fn bytes_that_are_no_pdf_are_a_lopdf_error() {
    assert!(matches!(pdf_to_cbz_archive(b"hello"), Some(Err(MangaError::Lopdf(_)))));
}

#[test]
fn empty_image_fails_to_encode() {
    let mut doc = Document::with_version("1.5");
    doc.add_object(flate_image(0, 0, Some("DeviceRGB"), &[]));
    assert!(matches!(extract_images(&doc), Err(MangaError::Image(_))));
}

#[test]
fn every_image_gives_one_file_of_its_kind() {
    let mut doc = Document::with_version("1.5");
    doc.add_object(flate_image(1, 1, Some("DeviceGray"), &[200]));
    doc.add_object(Stream::new(image_dict("DCTDecode"), vec![1]));
    doc.add_object(flate_image(1, 1, Some("DeviceRGB"), &[1, 2, 3]));
    doc.add_object(Stream::new(image_dict("JPXDecode"), vec![2]));
    let ids = scan_images(&doc).unwrap();
    let images = extract_images(&doc).unwrap();
    assert_eq!(images.len(), ids.len());
    let kinds: Vec<ImageExt> = images.iter().map(|(_, e)| *e).collect();
    assert_eq!(kinds, vec![ImageExt::Png, ImageExt::Jpg, ImageExt::Png, ImageExt::Jp2]);
    assert_eq!(images[1].0, vec![1]);
    assert_eq!(images[3].0, vec![2]);
    assert_eq!(decode_png(&images[2].0).to_rgb8().into_raw(), vec![1, 2, 3]);
}
