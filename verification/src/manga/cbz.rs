//! Packing extracted images into a comic book (zip) archive.
use vstd::prelude::*;
use crate::manga::archive::{
    entries_within_bound, entry_names, size_bound, zip_archive, zip_entries, zip_finish, zip_intact,
    zip_new, zip_start_file, zip_write_all, Compression, EntryView,
};
use crate::manga::error::{ErrorKind, MangaError};
use crate::manga::extract::{
    ext_name, extraction, image_views, try_extract_images, Extraction, ImageExt,
};
use crate::manga::pdf::{pdf_load, pdf_parse};
use crate::text::{decimal, decimal_digits};

verus! {

/// The file name of the page at position `page` (counted from one): `pg-<page>.<ext>`.
pub open spec fn page_name(page: nat, ext: ImageExt) -> Seq<char> {
    "pg-"@ + decimal_digits(page) + "."@ + ext_name(ext)
}

/// The archive entries for the images, in order, each stored as `method` says.
pub open spec fn archive_entries(images: Seq<(Seq<u8>, ImageExt)>, method: Compression) -> Seq<EntryView> {
    Seq::new(images.len(), |i: int| (page_name((i + 1) as nat, images[i].1), method, images[i].0))
}

/// Pages at different positions get different file names.
pub proof fn law_page_names_distinct(p: nat, q: nat, e: ImageExt, f: ImageExt)
    requires
        p != q,
    ensures
        page_name(p, e) != page_name(q, f),
{
    if page_name(p, e) == page_name(q, f) {
        let x = decimal_digits(p);
        let y = decimal_digits(q);
        let ea = ext_name(e);
        let fa = ext_name(f);
        assert(ea.len() == 3 && fa.len() == 3) by {
            reveal_strlit("jpg");
            reveal_strlit("jp2");
            reveal_strlit("png");
            reveal_strlit("bin");
        }
        reveal_strlit("pg-");
        reveal_strlit(".");
        let whole = page_name(p, e);
        assert(whole.len() == 3 + x.len() + 1 + 3);
        assert(whole.len() == 3 + y.len() + 1 + 3);
        assert(x =~= whole.subrange(3, 3 + x.len() as int));
        assert(y =~= page_name(q, f).subrange(3, 3 + y.len() as int));
        crate::text::law_decimal_injective(p, q);
    }
}

/// Whether each image holds fewer than `size_bound` bytes.
pub open spec fn images_within_bound(images: Seq<(Seq<u8>, ImageExt)>) -> bool {
    forall|i: int| 0 <= i < images.len() ==> (#[trigger] images[i]).0.len() < size_bound()
}

proof fn lemma_page_name_len(page: u64, ext: ImageExt)
    ensures
        page_name(page as nat, ext).len() <= 1024,
{
    crate::text::lemma_u64_decimal_len(page);
    reveal_strlit("pg-");
    reveal_strlit(".");
    reveal_strlit("jpg");
    reveal_strlit("jp2");
    reveal_strlit("png");
    reveal_strlit("bin");
}

fn page_file_name(page: usize, ext: ImageExt) -> (name: String)
    ensures
        name@ == page_name(page as nat, ext),
{
    let mut name = String::from_str("pg-");
    let n = decimal(page as u64);
    name.append(n.as_str());
    name.append(".");
    name.append(ext.extension());
    name
}

/// Writes the images into a zip archive in memory, as `pg-1.<ext>`, `pg-2.<ext>`, ... in
/// order, each stored with the given method. It succeeds where each image holds fewer than
/// `size_bound` bytes, and the bytes are then the archive of those entries; where zip
/// fails, its error is returned.
pub fn write_images_to_archive(
    images: Vec<(Vec<u8>, ImageExt)>,
    compression_method: Compression,
) -> (r: Result<Vec<u8>, zip::result::ZipError>)
    ensures
        r matches Ok(bytes) ==> bytes@ == zip_archive(archive_entries(image_views(images@), compression_method)),
        images_within_bound(image_views(images@)) ==> r is Ok,
{
    let ghost views = image_views(images@);
    let mut zip = zip_new();
    let mut i: usize = 0;
    while i < images.len()
        invariant
            i <= images.len(),
            views == image_views(images@),
            zip_entries(zip) == archive_entries(views.take(i as int), compression_method),
            images_within_bound(views) ==> zip_intact(zip),
        decreases images.len() - i,
    {
        let name = page_file_name(i + 1, images[i].1);
        let ghost before = zip_entries(zip);
        proof {
            lemma_page_name_len((i + 1) as u64, images@[i as int].1);
            assert(views[i as int] == (images@[i as int].0@, images@[i as int].1));
            assert(views.take(i + 1).drop_last() =~= views.take(i as int));
            if images_within_bound(views) {
                assert forall|k: int| 0 <= k < before.len() implies (#[trigger] before[k]).2.len() < size_bound() by {
                    assert(before[k].2 == views[k].0);
                }
            }
            assert forall|k: int| 0 <= k < entry_names(before).len() implies entry_names(before)[k] != name@ by {
                assert(entry_names(before)[k] == page_name((k + 1) as nat, views.take(i as int)[k].1));
                law_page_names_distinct((k + 1) as nat, (i + 1) as nat, views.take(i as int)[k].1, images@[i as int].1);
            }
        }
        match zip_start_file(&mut zip, name, compression_method) {
            Ok(()) => {},
            Err(e) => return Err(e),
        }
        let ghost started = zip_entries(zip);
        assert(started.drop_last() =~= before);
        assert(images_within_bound(views) ==> views[i as int].0.len() < size_bound());
        match zip_write_all(&mut zip, images[i].0.as_slice()) {
            Ok(()) => {},
            Err(e) => return Err(e),
        }
        assert(views[i as int] == (images@[i as int].0@, images@[i as int].1));
        assert(started.last().2 + images@[i as int].0@ =~= images@[i as int].0@);
        assert(zip_entries(zip) =~= archive_entries(views.take(i + 1), compression_method));
        i = i + 1;
    }
    assert(views.take(images.len() as int) =~= views);
    proof {
        let entries = zip_entries(zip);
        if images_within_bound(views) {
            assert forall|k: int| 0 <= k < entries.len() implies (#[trigger] entries[k]).2.len() < size_bound() by {
                assert(entries[k].2 == views[k].0);
            }
        }
    }
    zip_finish(zip)
}

/// The compression of a comic book archive: deflate where the first image is a PNG,
/// stored otherwise.
pub open spec fn cbz_method(first: ImageExt) -> Compression {
    if first == ImageExt::Png { Compression::Deflated } else { Compression::Stored }
}

/// Packs extracted images into a comic book archive, compressed as `cbz_method` of the
/// first image says; it succeeds where each image holds fewer than `size_bound` bytes.
pub fn cbz_from_images(images: Vec<(Vec<u8>, ImageExt)>) -> (r: Result<Vec<u8>, zip::result::ZipError>)
    requires
        images@.len() > 0,
    ensures
        r matches Ok(bytes) ==> bytes@ == zip_archive(
            archive_entries(image_views(images@), cbz_method(images@[0].1)),
        ),
        images_within_bound(image_views(images@)) ==> r is Ok,
{
    let method = if images[0].1 == ImageExt::Png { Compression::Deflated } else { Compression::Stored };
    write_images_to_archive(images, method)
}

/// Turns the bytes of a PDF into a comic book archive of its images: `Some(Err(..))` where
/// the PDF cannot be read or an image cannot be extracted, `Some(Ok(..))` with the outcome
/// of writing the archive otherwise, which succeeds where each image holds fewer than
/// `size_bound` bytes; `None` where the PDF holds no image, or where the conversion
/// would panic.
pub fn pdf_to_cbz_archive(pdf: &[u8]) -> (r: Option<Result<Result<Vec<u8>, zip::result::ZipError>, MangaError>>)
    ensures
        match pdf_parse(pdf@) {
            None => r is Some && r->Some_0 is Err && r->Some_0->Err_0.kind() == ErrorKind::Lopdf,
            Some(objects) => match extraction(objects) {
                Extraction::Panic => r is None,
                Extraction::Failed(k) => r is Some && r->Some_0 is Err && r->Some_0->Err_0.kind() == k,
                Extraction::Done(out) => if out.len() == 0 {
                    r is None
                } else {
                    r is Some && r->Some_0 is Ok && (r->Some_0->Ok_0 matches Ok(bytes)
                        ==> bytes@ == zip_archive(archive_entries(out, cbz_method(out[0].1))))
                    && (images_within_bound(out) ==> r->Some_0->Ok_0 is Ok)
                },
            },
        },
{
    let doc = match pdf_load(pdf) {
        Ok(d) => d,
        Err(e) => return Some(Err(MangaError::Lopdf(e))),
    };
    let images = match try_extract_images(&doc) {
        None => return None,
        Some(Err(e)) => return Some(Err(e)),
        Some(Ok(images)) => images,
    };
    if images.len() == 0 {
        return None;
    }
    assert(image_views(images@)[0].1 == images@[0].1);
    Some(Ok(cbz_from_images(images)))
}

} // verus!
