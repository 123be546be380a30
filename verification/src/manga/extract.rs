//! Finding the images of a PDF document and turning each into the bytes of an image file.
use vstd::prelude::*;
use crate::manga::codec::{
    buffer_fits, channels, encode_png, image_bytes, png_write, zlib_decode, zlib_inflate, ColorKind,
    PngOutcome, PngWrite,
};
use crate::manga::error::{ErrorKind, MangaError};
use crate::manga::names::{
    bytes_equal, key_color_space, key_filter, key_height, key_smask, key_subtype, key_width,
    name_dct_decode, name_device_gray, name_device_rgb, name_flate_decode, name_image,
    name_jpx_decode,
};
use crate::manga::pdf::{
    id_less, ids_increasing, integer_entry, is_stream, name_entry, pdf_get_stream_content,
    pdf_is_stream, pdf_object_ids, pdf_objects, pdf_stream_content, pdf_stream_integer,
    pdf_stream_name, pdf_stream_reference, reference_entry, ObjectId, PdfObject,
};

verus! {

/// The kind of file an extracted image is, by the filter of its stream.
#[derive(Clone, Copy, Debug, PartialEq, Eq, Structural)]
pub enum ImageExt {
    Jpg,
    Jp2,
    Png,
    Bin,
}

pub open spec fn ext_name(e: ImageExt) -> Seq<char> {
    match e {
        ImageExt::Jpg => "jpg"@,
        ImageExt::Jp2 => "jp2"@,
        ImageExt::Png => "png"@,
        ImageExt::Bin => "bin"@,
    }
}

impl ImageExt {
    /// The file extension: `jpg`, `jp2`, `png` or `bin`.
    pub fn extension(&self) -> (s: &'static str)
        ensures
            s@ == ext_name(*self),
    {
        match self {
            ImageExt::Jpg => "jpg",
            ImageExt::Jp2 => "jp2",
            ImageExt::Png => "png",
            ImageExt::Bin => "bin",
        }
    }
}

/// The kind of file that a stream with filter `filter` holds: a JPEG for `DCTDecode`, a
/// JPEG 2000 for `JPXDecode`, zlib-compressed pixels to be made a PNG for `FlateDecode`,
/// raw bytes for any other filter.
pub open spec fn ext_for_filter(filter: Seq<u8>) -> ImageExt {
    if filter == name_dct_decode() {
        ImageExt::Jpg
    } else if filter == name_jpx_decode() {
        ImageExt::Jp2
    } else if filter == name_flate_decode() {
        ImageExt::Png
    } else {
        ImageExt::Bin
    }
}

/// Whether object `id` is an image stream: a stream whose `Subtype` is the name `Image`.
pub open spec fn is_image(objects: Map<ObjectId, PdfObject>, id: ObjectId) -> bool {
    is_stream(objects, id) && name_entry(objects, id, key_subtype()) == Some(name_image())
}

/// The images without the one with id `r`.
pub open spec fn remove_image(images: Seq<(ObjectId, ImageExt)>, r: ObjectId) -> Seq<(ObjectId, ImageExt)>
    decreases images.len(),
{
    if images.len() == 0 {
        images
    } else {
        let rest = remove_image(images.drop_last(), r);
        if images.last().0 == r { rest } else { rest.push(images.last()) }
    }
}

/// The first pass over the objects in the order of `ids`: the image streams found so far,
/// by id, each with its kind, and the ids that some image names as its soft mask. An image
/// that an earlier image names as its soft mask is left out, and an image named as a soft
/// mask is taken out again. `None` where an image stream has no `Filter` name.
pub open spec fn scan(objects: Map<ObjectId, PdfObject>, ids: Seq<ObjectId>) -> Option<(Seq<(ObjectId, ImageExt)>, Seq<ObjectId>)>
    decreases ids.len(),
{
    if ids.len() == 0 {
        Some((seq![], seq![]))
    } else {
        match scan(objects, ids.drop_last()) {
            None => None,
            Some((images, smasks)) => {
                let id = ids.last();
                if !is_image(objects, id) {
                    Some((images, smasks))
                } else {
                    match name_entry(objects, id, key_filter()) {
                        None => None,
                        Some(f) => {
                            let images1 = if smasks.contains(id) { images } else { images.push((id, ext_for_filter(f))) };
                            match reference_entry(objects, id, key_smask()) {
                                Some(r) => Some((remove_image(images1, r), smasks.push(r))),
                                None => Some((images1, smasks)),
                            }
                        },
                    }
                }
            },
        }
    }
}

/// The ids of the objects in increasing order.
pub open spec fn object_order(objects: Map<ObjectId, PdfObject>) -> Seq<ObjectId> {
    choose|s: Seq<ObjectId>| ids_increasing(s) && forall|id: ObjectId| s.contains(id) <==> objects.contains_key(id)
}

proof fn lemma_increasing_unique(s: Seq<ObjectId>, t: Seq<ObjectId>)
    requires
        ids_increasing(s),
        ids_increasing(t),
        forall|id: ObjectId| s.contains(id) <==> t.contains(id),
    ensures
        s == t,
    decreases s.len(),
{
    if s.len() == 0 {
        if t.len() > 0 {
            assert(t.contains(t[0]));
        }
        assert(s =~= t);
    } else {
        assert(s.contains(s.last()));
        assert(t.len() > 0) by {
            assert(t.contains(s.last()));
        }
        let a = s.last();
        let b = t.last();
        assert(t.contains(a));
        assert(s.contains(b)) by {
            assert(t.contains(b));
        }
        let ka = choose|k: int| 0 <= k < t.len() && t[k] == a;
        let kb = choose|k: int| 0 <= k < s.len() && s[k] == b;
        if a != b {
            assert(ka < t.len() - 1);
            assert(id_less(a, b));
            assert(kb < s.len() - 1);
            assert(id_less(b, a));
            assert(false);
        }
        let s2 = s.drop_last();
        let t2 = t.drop_last();
        assert forall|id: ObjectId| s2.contains(id) <==> t2.contains(id) by {
            if s2.contains(id) {
                let k = choose|k: int| 0 <= k < s2.len() && s2[k] == id;
                assert(s[k] == id);
                assert(id_less(id, a));
                assert(t.contains(id));
                let j = choose|j: int| 0 <= j < t.len() && t[j] == id;
                if j == t.len() - 1 {
                    assert(id == b);
                }
                assert(t2[j] == id);
            }
            if t2.contains(id) {
                let k = choose|k: int| 0 <= k < t2.len() && t2[k] == id;
                assert(t[k] == id);
                assert(id_less(id, b));
                assert(s.contains(id));
                let j = choose|j: int| 0 <= j < s.len() && s[j] == id;
                if j == s.len() - 1 {
                    assert(id == a);
                }
                assert(s2[j] == id);
            }
        }
        lemma_increasing_unique(s2, t2);
        assert(s =~= s2.push(a));
        assert(t =~= t2.push(b));
    }
}

/// The ids that `pdf_object_ids` gives are the objects' increasing order.
proof fn lemma_object_order(objects: Map<ObjectId, PdfObject>, ids: Seq<ObjectId>)
    requires
        ids_increasing(ids),
        forall|id: ObjectId| ids.contains(id) <==> objects.contains_key(id),
    ensures
        object_order(objects) == ids,
{
    let s = object_order(objects);
    lemma_increasing_unique(s, ids);
}

fn ext_for(filter: &[u8]) -> (e: ImageExt)
    ensures
        e == ext_for_filter(filter@),
{
    if bytes_equal(filter, crate::manga::names::dct_decode().as_slice()) {
        ImageExt::Jpg
    } else if bytes_equal(filter, crate::manga::names::jpx_decode().as_slice()) {
        ImageExt::Jp2
    } else if bytes_equal(filter, crate::manga::names::flate_decode().as_slice()) {
        ImageExt::Png
    } else {
        ImageExt::Bin
    }
}

fn contains_id(v: &Vec<ObjectId>, id: ObjectId) -> (res: bool)
    ensures
        res == v@.contains(id),
{
    let mut i: usize = 0;
    while i < v.len()
        invariant
            i <= v.len(),
            forall|j: int| 0 <= j < i ==> v@[j] != id,
        decreases v.len() - i,
    {
        if v[i].0 == id.0 && v[i].1 == id.1 {
            return true;
        }
        i = i + 1;
    }
    false
}

fn remove_image_exec(images: &Vec<(ObjectId, ImageExt)>, r: ObjectId) -> (out: Vec<(ObjectId, ImageExt)>)
    ensures
        out@ == remove_image(images@, r),
{
    let mut out: Vec<(ObjectId, ImageExt)> = Vec::new();
    let mut i: usize = 0;
    while i < images.len()
        invariant
            i <= images.len(),
            out@ == remove_image(images@.take(i as int), r),
        decreases images.len() - i,
    {
        assert(images@.take(i + 1).drop_last() =~= images@.take(i as int));
        let item = images[i];
        if !(item.0.0 == r.0 && item.0.1 == r.1) {
            out.push(item);
        }
        i = i + 1;
    }
    assert(images@.take(images.len() as int) =~= images@);
    out
}

/// The first pass: the image streams of the document, by increasing id, each with its
/// kind, as `scan` finds them; a lopdf error where an image stream has no `Filter` name.
pub fn scan_images(doc: &lopdf::Document) -> (r: Result<Vec<(ObjectId, ImageExt)>, MangaError>)
    ensures
        match scan(pdf_objects(*doc), object_order(pdf_objects(*doc))) {
            None => r is Err && r->Err_0.kind() == ErrorKind::Lopdf,
            Some((images, _)) => r is Ok && r->Ok_0@ == images,
        },
{
    let ghost objects = pdf_objects(*doc);
    let ids = pdf_object_ids(doc);
    proof { lemma_object_order(objects, ids@); }
    let subtype = crate::manga::names::subtype();
    let image = crate::manga::names::image();
    let filter = crate::manga::names::filter();
    let smask = crate::manga::names::smask();
    let mut images: Vec<(ObjectId, ImageExt)> = Vec::new();
    let mut smasks: Vec<ObjectId> = Vec::new();
    let mut i: usize = 0;
    while i < ids.len()
        invariant
            i <= ids.len(),
            objects == pdf_objects(*doc),
            object_order(objects) == ids@,
            subtype@ == key_subtype(),
            image@ == name_image(),
            filter@ == key_filter(),
            smask@ == key_smask(),
            scan(objects, ids@.take(i as int)) == Some((images@, smasks@)),
        decreases ids.len() - i,
    {
        let id = ids[i];
        assert(ids@.take(i + 1).drop_last() =~= ids@.take(i as int));
        assert(ids@.take(i + 1).last() == id);
        if pdf_is_stream(doc, id) {
            let is_img = match pdf_stream_name(doc, id, subtype.as_slice()) {
                Ok(name) => bytes_equal(name.as_slice(), image.as_slice()),
                Err(_) => false,
            };
            if is_img {
                let f = match pdf_stream_name(doc, id, filter.as_slice()) {
                    Ok(f) => f,
                    Err(e) => {
                        proof { lemma_scan_failure_stays(objects, ids@, i + 1); }
                        return Err(MangaError::Lopdf(e));
                    },
                };
                let ext = ext_for(f.as_slice());
                if !contains_id(&smasks, id) {
                    images.push((id, ext));
                }
                match pdf_stream_reference(doc, id, smask.as_slice()) {
                    Ok(r) => {
                        smasks.push(r);
                        images = remove_image_exec(&images, r);
                    },
                    Err(_) => {},
                }
            }
        }
        i = i + 1;
    }
    assert(ids@.take(ids.len() as int) =~= ids@);
    Ok(images)
}


proof fn lemma_remove_image_subset(images: Seq<(ObjectId, ImageExt)>, r: ObjectId)
    ensures
        forall|k: int| 0 <= k < remove_image(images, r).len() ==> images.contains(#[trigger] remove_image(images, r)[k]),
    decreases images.len(),
{
    if images.len() > 0 {
        let prefix = images.drop_last();
        lemma_remove_image_subset(prefix, r);
        let rest = remove_image(prefix, r);
        assert forall|k: int| 0 <= k < remove_image(images, r).len() implies images.contains(#[trigger] remove_image(images, r)[k]) by {
            if k < rest.len() {
                let x = rest[k];
                assert(prefix.contains(x));
                let j = choose|j: int| 0 <= j < prefix.len() && prefix[j] == x;
                assert(images[j] == x);
            } else {
                assert(images[images.len() - 1] == images.last());
            }
        }
    }
}

/// Every image that the first pass finds is an image stream.
proof fn lemma_scan_finds_images(objects: Map<ObjectId, PdfObject>, ids: Seq<ObjectId>)
    ensures
        scan(objects, ids) matches Some((images, _)) ==> forall|k: int| 0 <= k < images.len() ==> is_image(objects, #[trigger] images[k].0),
    decreases ids.len(),
{
    if ids.len() > 0 {
        lemma_scan_finds_images(objects, ids.drop_last());
        if let Some((images, smasks)) = scan(objects, ids.drop_last()) {
            let id = ids.last();
            if is_image(objects, id) {
                if let Some(f) = name_entry(objects, id, key_filter()) {
                    let images1 = if smasks.contains(id) { images } else { images.push((id, ext_for_filter(f))) };
                    assert forall|k: int| 0 <= k < images1.len() implies is_image(objects, #[trigger] images1[k].0) by {
                        if k < images.len() {
                            assert(images1[k] == images[k]);
                        }
                    }
                    if let Some(r) = reference_entry(objects, id, key_smask()) {
                        lemma_remove_image_subset(images1, r);
                        let out = remove_image(images1, r);
                        assert forall|k: int| 0 <= k < out.len() implies is_image(objects, #[trigger] out[k].0) by {
                            assert(images1.contains(out[k]));
                            let j = choose|j: int| 0 <= j < images1.len() && images1[j] == out[k];
                            assert(is_image(objects, images1[j].0));
                        }
                    }
                }
            }
        }
    }
}

/// The first `n` pixels of RGB data, each followed by its alpha byte.
pub open spec fn rgba_prefix(rgb: Seq<u8>, alpha: Seq<u8>, n: nat) -> Seq<u8>
    decreases n,
{
    if n == 0 {
        seq![]
    } else {
        let p = (n - 1) as nat;
        let q: int = 3 * (p as int);
        rgba_prefix(rgb, alpha, p) + seq![rgb[q], rgb[q + 1], rgb[q + 2], alpha[p as int]]
    }
}

/// RGBA pixels from RGB pixels and an alpha channel: each whole group of three RGB bytes,
/// followed by the alpha byte of the same pixel; a trailing partial group is dropped.
pub open spec fn rgba_compose(rgb: Seq<u8>, alpha: Seq<u8>) -> Seq<u8> {
    rgba_prefix(rgb, alpha, rgb.len() / 3)
}

/// Interleaves RGB pixels with an alpha channel. `width` and `height` are not read.
pub fn compose_rgba_png(rgb_data: &[u8], alpha_data: &[u8], width: u32, height: u32) -> (res: Vec<u8>)
    requires
        alpha_data@.len() >= rgb_data@.len() / 3,
    ensures
        res@ == rgba_compose(rgb_data@, alpha_data@),
{
    let n = rgb_data.len() / 3;
    let mut res: Vec<u8> = Vec::new();
    let mut i: usize = 0;
    let mut j: usize = 0;
    while i < n
        invariant
            n == rgb_data@.len() / 3,
            alpha_data@.len() >= n,
            i <= n,
            j == 3 * i,
            res@ == rgba_prefix(rgb_data@, alpha_data@, i as nat),
        decreases n - i,
    {
        assert(j + 2 < rgb_data@.len());
        res.push(rgb_data[j]);
        res.push(rgb_data[j + 1]);
        res.push(rgb_data[j + 2]);
        res.push(alpha_data[i]);
        assert(res@ =~= rgba_prefix(rgb_data@, alpha_data@, (i + 1) as nat));
        i = i + 1;
        j = j + 3;
    }
    res
}

/// What the second pass makes of one image.
pub ghost enum ImageStep {
    Fail(ErrorKind),
    Keep(Seq<u8>, ImageExt),
    /// The conversion would panic: the soft mask holds fewer alpha bytes than the image
    /// has pixels, where it would index past its end, or the pixel data is longer than the
    /// image, where the PNG encoder asserts.
    Panic,
}

/// The color layout of an image stream by its `ColorSpace` name: one gray byte per pixel,
/// three RGB bytes, or four RGBA bytes for any other name or none.
pub open spec fn color_of(objects: Map<ObjectId, PdfObject>, id: ObjectId) -> ColorKind {
    match name_entry(objects, id, key_color_space()) {
        Some(n) => if n == name_device_gray() {
            ColorKind::Gray
        } else if n == name_device_rgb() {
            ColorKind::Rgb
        } else {
            ColorKind::Rgba
        },
        None => ColorKind::Rgba,
    }
}

/// The pixels of a PNG image stream, `decoded` being its inflated content: with a soft
/// mask, the RGB pixels composed with the mask's inflated content as alpha.
pub open spec fn pixels_with_mask(objects: Map<ObjectId, PdfObject>, id: ObjectId, decoded: Seq<u8>) -> ImageStep {
    match reference_entry(objects, id, key_smask()) {
        None => ImageStep::Keep(decoded, ImageExt::Png),
        Some(r) => match pdf_stream_content(objects, r) {
            None => ImageStep::Fail(ErrorKind::Lopdf),
            Some(mask) => match zlib_inflate(mask) {
                None => ImageStep::Fail(ErrorKind::Io),
                Some(alpha) => if alpha.len() < decoded.len() / 3 {
                    ImageStep::Panic
                } else {
                    ImageStep::Keep(rgba_compose(decoded, alpha), ImageExt::Png)
                },
            },
        },
    }
}

/// The second pass on one image: a JPEG, JPEG 2000 or raw stream is taken as it is; a
/// zlib stream is inflated, given its soft mask's alpha, and written as a PNG of its
/// `Width` by `Height` (each cut to 32 bits), in the layout of its `ColorSpace`.
pub open spec fn convert_one(objects: Map<ObjectId, PdfObject>, id: ObjectId, ext: ImageExt) -> ImageStep {
    match pdf_stream_content(objects, id) {
        None => ImageStep::Fail(ErrorKind::Lopdf),
        Some(content) => if ext != ImageExt::Png {
            ImageStep::Keep(content, ext)
        } else {
            match (integer_entry(objects, id, key_width()), integer_entry(objects, id, key_height())) {
                (None, _) => ImageStep::Fail(ErrorKind::Lopdf),
                (_, None) => ImageStep::Fail(ErrorKind::Lopdf),
                (Some(w), Some(h)) => match zlib_inflate(content) {
                    None => ImageStep::Fail(ErrorKind::Io),
                    Some(decoded) => match pixels_with_mask(objects, id, decoded) {
                        ImageStep::Keep(pixels, _) => {
                            let color = color_of(objects, id);
                            if !buffer_fits(color, w as u32, h as u32, pixels.len()) {
                                ImageStep::Fail(ErrorKind::ImageConvert)
                            } else if pixels.len() != channels(color) * (w as u32) * (h as u32) {
                                ImageStep::Panic
                            } else {
                                match png_write(color, w as u32, h as u32, pixels) {
                                    PngWrite::Encoded(bytes) => ImageStep::Keep(bytes, ImageExt::Png),
                                    PngWrite::EncodeFailed => ImageStep::Fail(ErrorKind::Image),
                                }
                            }
                        },
                        other => other,
                    },
                },
            }
        },
    }
}

/// What the extraction gives.
pub ghost enum Extraction {
    Failed(ErrorKind),
    Done(Seq<(Seq<u8>, ImageExt)>),
    /// The conversion would panic (see `ImageStep::Panic`).
    Panic,
}

/// The second pass over the images, in order, stopping at the first failure.
pub open spec fn convert_all(objects: Map<ObjectId, PdfObject>, images: Seq<(ObjectId, ImageExt)>) -> Extraction
    decreases images.len(),
{
    if images.len() == 0 {
        Extraction::Done(seq![])
    } else {
        match convert_all(objects, images.drop_last()) {
            Extraction::Done(out) => match convert_one(objects, images.last().0, images.last().1) {
                ImageStep::Fail(k) => Extraction::Failed(k),
                ImageStep::Keep(bytes, ext) => Extraction::Done(out.push((bytes, ext))),
                ImageStep::Panic => Extraction::Panic,
            },
            other => other,
        }
    }
}

/// The images of a document, as files, in the order of their object ids.
pub open spec fn extraction(objects: Map<ObjectId, PdfObject>) -> Extraction {
    match scan(objects, object_order(objects)) {
        None => Extraction::Failed(ErrorKind::Lopdf),
        Some((images, _)) => convert_all(objects, images),
    }
}

enum Converted {
    Fail(MangaError),
    Keep(Vec<u8>, ImageExt),
    Panic,
}

spec fn converted_view(c: Converted) -> ImageStep {
    match c {
        Converted::Fail(e) => ImageStep::Fail(e.kind()),
        Converted::Keep(b, e) => ImageStep::Keep(b@, e),
        Converted::Panic => ImageStep::Panic,
    }
}

fn convert_image(doc: &lopdf::Document, id: ObjectId, ext: ImageExt) -> (c: Converted)
    requires
        is_image(pdf_objects(*doc), id),
    ensures
        converted_view(c) == convert_one(pdf_objects(*doc), id, ext),
{
    let content = match pdf_get_stream_content(doc, id) {
        Ok(c) => c,
        Err(e) => return Converted::Fail(MangaError::Lopdf(e)),
    };
    if ext != ImageExt::Png {
        return Converted::Keep(content, ext);
    }
    let w = match pdf_stream_integer(doc, id, crate::manga::names::width().as_slice()) {
        Ok(w) => w,
        Err(e) => return Converted::Fail(MangaError::Lopdf(e)),
    };
    let h = match pdf_stream_integer(doc, id, crate::manga::names::height().as_slice()) {
        Ok(h) => h,
        Err(e) => return Converted::Fail(MangaError::Lopdf(e)),
    };
    let width = w as u32;
    let height = h as u32;
    let decoded = match zlib_decode(content.as_slice()) {
        Ok(d) => d,
        Err(e) => return Converted::Fail(MangaError::Io(e)),
    };
    let pixels = match pdf_stream_reference(doc, id, crate::manga::names::smask().as_slice()) {
        Ok(r) => {
            let mask = match pdf_get_stream_content(doc, r) {
                Ok(m) => m,
                Err(e) => return Converted::Fail(MangaError::Lopdf(e)),
            };
            let alpha = match zlib_decode(mask.as_slice()) {
                Ok(a) => a,
                Err(e) => return Converted::Fail(MangaError::Io(e)),
            };
            if alpha.len() < decoded.len() / 3 {
                return Converted::Panic;
            }
            compose_rgba_png(decoded.as_slice(), alpha.as_slice(), width, height)
        },
        Err(_) => decoded,
    };
    let color = match pdf_stream_name(doc, id, crate::manga::names::color_space().as_slice()) {
        Ok(n) => if bytes_equal(n.as_slice(), crate::manga::names::device_gray().as_slice()) {
            ColorKind::Gray
        } else if bytes_equal(n.as_slice(), crate::manga::names::device_rgb().as_slice()) {
            ColorKind::Rgb
        } else {
            ColorKind::Rgba
        },
        Err(_) => ColorKind::Rgba,
    };
    match image_bytes(color, width, height) {
        Some(n) => if n < pixels.len() {
            return Converted::Panic;
        },
        None => {},
    }
    match encode_png(color, width, height, pixels) {
        PngOutcome::Encoded(bytes) => Converted::Keep(bytes, ImageExt::Png),
        PngOutcome::EncodeFailed(e) => Converted::Fail(MangaError::Image(e)),
        // The pixels do not fill the image; `encode_png` never reports a failed flush.
        _ => Converted::Fail(MangaError::ImageConvert),
    }
}


/// Once the first pass fails on the first `n` ids, it fails on all of them.
proof fn lemma_scan_failure_stays(objects: Map<ObjectId, PdfObject>, ids: Seq<ObjectId>, n: int)
    requires
        0 <= n <= ids.len(),
        scan(objects, ids.take(n)) is None,
    ensures
        scan(objects, ids) is None,
    decreases ids.len() - n,
{
    if n < ids.len() {
        assert(ids.take(n + 1).drop_last() =~= ids.take(n));
        lemma_scan_failure_stays(objects, ids, n + 1);
    } else {
        assert(ids.take(n) =~= ids);
    }
}

/// Once the second pass stops on the first `n` images, its outcome on all of them is that
/// of the first `n`.
proof fn lemma_conversion_stop_stays(objects: Map<ObjectId, PdfObject>, images: Seq<(ObjectId, ImageExt)>, n: int)
    requires
        0 <= n <= images.len(),
        !(convert_all(objects, images.take(n)) is Done),
    ensures
        convert_all(objects, images) == convert_all(objects, images.take(n)),
    decreases images.len() - n,
{
    if n < images.len() {
        assert(images.take(n + 1).drop_last() =~= images.take(n));
        lemma_conversion_stop_stays(objects, images, n + 1);
    } else {
        assert(images.take(n) =~= images);
    }
}

/// The images as byte sequences with their kinds.
pub open spec fn image_views(images: Seq<(Vec<u8>, ImageExt)>) -> Seq<(Seq<u8>, ImageExt)> {
    images.map_values(|p: (Vec<u8>, ImageExt)| (p.0@, p.1))
}

/// The extraction with its outcome, `None` where the conversion would panic.
pub fn try_extract_images(doc: &lopdf::Document) -> (r: Option<Result<Vec<(Vec<u8>, ImageExt)>, MangaError>>)
    ensures
        match extraction(pdf_objects(*doc)) {
            Extraction::Panic => r is None,
            Extraction::Failed(k) => r is Some && r->Some_0 is Err && r->Some_0->Err_0.kind() == k,
            Extraction::Done(out) => r is Some && r->Some_0 is Ok && image_views(r->Some_0->Ok_0@) == out,
        },
{
    let ghost objects = pdf_objects(*doc);
    let images = match scan_images(doc) {
        Ok(images) => images,
        Err(e) => return Some(Err(e)),
    };
    proof { lemma_scan_finds_images(objects, object_order(objects)); }
    assert(extraction(objects) == convert_all(objects, images@));
    let mut out: Vec<(Vec<u8>, ImageExt)> = Vec::new();
    assert(images@.take(0) =~= Seq::<(ObjectId, ImageExt)>::empty());
    assert(image_views(out@) =~= Seq::<(Seq<u8>, ImageExt)>::empty());
    let mut i: usize = 0;
    while i < images.len()
        invariant
            i <= images.len(),
            objects == pdf_objects(*doc),
            extraction(objects) == convert_all(objects, images@),
            forall|k: int| 0 <= k < images@.len() ==> is_image(objects, #[trigger] images@[k].0),
            convert_all(objects, images@.take(i as int)) == Extraction::Done(image_views(out@)),
        decreases images.len() - i,
    {
        assert(images@.take(i + 1).drop_last() =~= images@.take(i as int));
        let (id, ext) = images[i];
        assert(images@[i as int].0 == id);
        match convert_image(doc, id, ext) {
            Converted::Fail(e) => {
                proof { lemma_conversion_stop_stays(objects, images@, i + 1); }
                return Some(Err(e));
            },
            Converted::Panic => {
                proof { lemma_conversion_stop_stays(objects, images@, i + 1); }
                return None;
            },
            Converted::Keep(bytes, e) => {
                let ghost before = image_views(out@);
                out.push((bytes, e));
                assert(image_views(out@) =~= before.push((bytes@, e)));
            },
        }
        i = i + 1;
    }
    assert(images@.take(images.len() as int) =~= images@);
    Some(Ok(out))
}

/// Extracts the images of a PDF document, as image files, in the order of their object
/// ids: JPEG and JPEG 2000 streams as they are, zlib streams as PNG (with the alpha of
/// their soft mask, if any), raw bytes for other filters; images that serve as another
/// image's soft mask are left out.
pub fn extract_images(doc: &lopdf::Document) -> (r: Result<Vec<(Vec<u8>, ImageExt)>, MangaError>)
    requires
        !(extraction(pdf_objects(*doc)) is Panic),
    ensures
        match extraction(pdf_objects(*doc)) {
            Extraction::Failed(k) => r is Err && r->Err_0.kind() == k,
            Extraction::Done(out) => r is Ok && image_views(r->Ok_0@) == out,
            Extraction::Panic => false,
        },
{
    match try_extract_images(doc) {
        Some(r) => r,
        None => Err(MangaError::ImageConvert),
    }
}


/// The ids of the images, in order.
pub open spec fn image_ids(images: Seq<(ObjectId, ImageExt)>) -> Seq<ObjectId> {
    images.map_values(|p: (ObjectId, ImageExt)| p.0)
}

proof fn lemma_remove_image_increasing(images: Seq<(ObjectId, ImageExt)>, r: ObjectId)
    requires
        ids_increasing(image_ids(images)),
    ensures
        ids_increasing(image_ids(remove_image(images, r))),
    decreases images.len(),
{
    if images.len() > 0 {
        let prefix = images.drop_last();
        assert(image_ids(prefix) =~= image_ids(images).drop_last());
        lemma_remove_image_increasing(prefix, r);
        lemma_remove_image_subset(prefix, r);
        let rest = remove_image(prefix, r);
        if images.last().0 != r {
            let out = rest.push(images.last());
            assert forall|i: int, j: int| 0 <= i < j < image_ids(out).len() implies id_less(image_ids(out)[i], image_ids(out)[j]) by {
                if j == rest.len() {
                    assert(prefix.contains(rest[i]));
                    let k = choose|k: int| 0 <= k < prefix.len() && prefix[k] == rest[i];
                    assert(image_ids(images)[k] == rest[i].0);
                    assert(image_ids(images)[images.len() - 1] == images.last().0);
                } else {
                    assert(image_ids(out)[i] == image_ids(rest)[i]);
                    assert(image_ids(out)[j] == image_ids(rest)[j]);
                }
            }
        }
    }
}

/// The first pass finds images in increasing id order, each once, as a map keyed by id
/// gives them back, and only among the ids it was given.
pub proof fn law_images_in_id_order(objects: Map<ObjectId, PdfObject>, ids: Seq<ObjectId>)
    requires
        ids_increasing(ids),
    ensures
        scan(objects, ids) matches Some((images, _)) ==> {
            &&& ids_increasing(image_ids(images))
            &&& forall|k: int| 0 <= k < images.len() ==> ids.contains(#[trigger] images[k].0)
        },
    decreases ids.len(),
{
    if ids.len() > 0 {
        let prefix = ids.drop_last();
        law_images_in_id_order(objects, prefix);
        if let Some((images, smasks)) = scan(objects, prefix) {
            let id = ids.last();
            assert forall|k: int| 0 <= k < images.len() implies ids.contains(#[trigger] images[k].0) by {
                let j = choose|j: int| 0 <= j < prefix.len() && prefix[j] == images[k].0;
                assert(ids[j] == images[k].0);
            }
            if is_image(objects, id) {
                if let Some(f) = name_entry(objects, id, key_filter()) {
                    let images1 = if smasks.contains(id) { images } else { images.push((id, ext_for_filter(f))) };
                    assert forall|k: int| 0 <= k < images1.len() implies ids.contains(#[trigger] images1[k].0) by {
                        if k < images.len() {
                            assert(images1[k] == images[k]);
                        } else {
                            assert(ids[ids.len() - 1] == id);
                        }
                    }
                    assert(ids_increasing(image_ids(images1))) by {
                        if !smasks.contains(id) {
                            assert forall|i: int, j: int| 0 <= i < j < image_ids(images1).len() implies id_less(image_ids(images1)[i], image_ids(images1)[j]) by {
                                if j == images.len() {
                                    let p = choose|p: int| 0 <= p < prefix.len() && prefix[p] == images[i].0;
                                    assert(ids[p] == images[i].0);
                                    assert(ids[ids.len() - 1] == id);
                                } else {
                                    assert(image_ids(images1)[i] == image_ids(images)[i]);
                                    assert(image_ids(images1)[j] == image_ids(images)[j]);
                                }
                            }
                        }
                    }
                    if let Some(r) = reference_entry(objects, id, key_smask()) {
                        lemma_remove_image_increasing(images1, r);
                        lemma_remove_image_subset(images1, r);
                        let out = remove_image(images1, r);
                        assert forall|k: int| 0 <= k < out.len() implies ids.contains(#[trigger] out[k].0) by {
                            assert(images1.contains(out[k]));
                            let j = choose|j: int| 0 <= j < images1.len() && images1[j] == out[k];
                            assert(ids.contains(images1[j].0));
                        }
                    }
                }
            }
        }
    }
}

/// The second pass keeps the kind of each image and, for an image taken as it is, the
/// content of its stream; when it succeeds it gives one file per image, in their order.
proof fn lemma_conversion_keeps_images(objects: Map<ObjectId, PdfObject>, images: Seq<(ObjectId, ImageExt)>)
    ensures
        convert_all(objects, images) matches Extraction::Done(out) ==> {
            &&& out.len() == images.len()
            &&& forall|k: int| 0 <= k < images.len() ==> (#[trigger] out[k]).1 == images[k].1
            &&& forall|k: int| 0 <= k < images.len() && images[k].1 != ImageExt::Png
                    ==> pdf_stream_content(objects, images[k].0) == Some((#[trigger] out[k]).0)
        },
    decreases images.len(),
{
    if images.len() > 0 {
        let prefix = images.drop_last();
        lemma_conversion_keeps_images(objects, prefix);
        if let Extraction::Done(out) = convert_all(objects, images) {
            let out0 = convert_all(objects, prefix)->Done_0;
            assert(out == out0.push(out.last()));
            assert forall|k: int| 0 <= k < images.len() implies (#[trigger] out[k]).1 == images[k].1 by {
                if k < prefix.len() {
                    assert(out[k] == out0[k]);
                    assert(images[k] == prefix[k]);
                }
            }
            assert forall|k: int| 0 <= k < images.len() && images[k].1 != ImageExt::Png
                implies pdf_stream_content(objects, images[k].0) == Some((#[trigger] out[k]).0) by {
                if k < prefix.len() {
                    assert(out[k] == out0[k]);
                    assert(images[k] == prefix[k]);
                }
            }
        }
    }
}

/// Every image that the first pass finds gives exactly one file when the extraction
/// succeeds: the files come in the order of the images, each of the image's kind, and an
/// image that is not a zlib stream gives its stream's content unchanged.
pub proof fn law_one_file_per_image(objects: Map<ObjectId, PdfObject>)
    ensures
        extraction(objects) matches Extraction::Done(out) ==> {
            scan(objects, object_order(objects)) matches Some((images, _)) && {
                &&& out.len() == images.len()
                &&& forall|k: int| 0 <= k < images.len() ==> (#[trigger] out[k]).1 == images[k].1
                &&& forall|k: int| 0 <= k < images.len() && images[k].1 != ImageExt::Png
                        ==> pdf_stream_content(objects, images[k].0) == Some((#[trigger] out[k]).0)
            }
        },
{
    if let Some((images, _)) = scan(objects, object_order(objects)) {
        lemma_conversion_keeps_images(objects, images);
    }
}

/// Taking the images with id `r` out leaves none with that id.
proof fn lemma_remove_image_drops(images: Seq<(ObjectId, ImageExt)>, r: ObjectId)
    ensures
        forall|k: int| 0 <= k < remove_image(images, r).len() ==> (#[trigger] remove_image(images, r)[k]).0 != r,
    decreases images.len(),
{
    if images.len() > 0 {
        let rest = remove_image(images.drop_last(), r);
        lemma_remove_image_drops(images.drop_last(), r);
        if images.last().0 != r {
            assert forall|k: int| 0 <= k < rest.push(images.last()).len() implies (#[trigger] rest.push(images.last())[k]).0 != r by {
                if k < rest.len() {
                    assert(rest.push(images.last())[k] == rest[k]);
                }
            }
        }
    }
}

/// Whether image stream `j` of `objects` names `r` as its soft mask.
pub open spec fn names_soft_mask(objects: Map<ObjectId, PdfObject>, j: ObjectId, r: ObjectId) -> bool {
    is_image(objects, j) && reference_entry(objects, j, key_smask()) == Some(r)
}

proof fn lemma_scan_soft_masks(objects: Map<ObjectId, PdfObject>, ids: Seq<ObjectId>)
    ensures
        scan(objects, ids) matches Some((images, smasks)) ==> {
            &&& forall|j: ObjectId, r: ObjectId| ids.contains(j) && #[trigger] names_soft_mask(objects, j, r) ==> smasks.contains(r)
            &&& forall|k: int| 0 <= k < images.len() ==> !smasks.contains((#[trigger] images[k]).0)
        },
    decreases ids.len(),
{
    if ids.len() > 0 {
        let prefix = ids.drop_last();
        let id = ids.last();
        lemma_scan_soft_masks(objects, prefix);
        if let Some((images, smasks)) = scan(objects, prefix) {
            assert forall|j: ObjectId| ids.contains(j) implies prefix.contains(j) || j == id by {
                let p = choose|p: int| 0 <= p < ids.len() && ids[p] == j;
                if p < ids.len() - 1 {
                    assert(prefix[p] == j);
                }
            }
            if is_image(objects, id) {
                if let Some(f) = name_entry(objects, id, key_filter()) {
                    let images1 = if smasks.contains(id) { images } else { images.push((id, ext_for_filter(f))) };
                    assert forall|k: int| 0 <= k < images1.len() implies !smasks.contains((#[trigger] images1[k]).0) by {
                        if k < images.len() {
                            assert(images1[k] == images[k]);
                        }
                    }
                    if let Some(r) = reference_entry(objects, id, key_smask()) {
                        let out = remove_image(images1, r);
                        let smasks2 = smasks.push(r);
                        lemma_remove_image_subset(images1, r);
                        lemma_remove_image_drops(images1, r);
                        assert forall|k: int| 0 <= k < out.len() implies !smasks2.contains((#[trigger] out[k]).0) by {
                            assert(images1.contains(out[k]));
                            let q = choose|q: int| 0 <= q < images1.len() && images1[q] == out[k];
                            assert(!smasks.contains(images1[q].0));
                            if smasks2.contains(out[k].0) {
                                let w = choose|w: int| 0 <= w < smasks2.len() && smasks2[w] == out[k].0;
                                if w < smasks.len() {
                                    assert(smasks[w] == smasks2[w]);
                                }
                            }
                        }
                        assert forall|j: ObjectId, r2: ObjectId| ids.contains(j) && #[trigger] names_soft_mask(objects, j, r2)
                            implies smasks2.contains(r2) by {
                            if j == id {
                                assert(smasks2[smasks.len() as int] == r2);
                            } else {
                                assert(smasks.contains(r2));
                                let w = choose|w: int| 0 <= w < smasks.len() && smasks[w] == r2;
                                assert(smasks2[w] == r2);
                            }
                        }
                    }
                }
            }
        }
    }
}

/// An object that some image stream among `ids` names as its soft mask is never among the
/// images that the first pass finds over `ids`, whether it comes before or after that
/// image; so no soft mask becomes a file of its own.
pub proof fn law_soft_masks_left_out(objects: Map<ObjectId, PdfObject>, ids: Seq<ObjectId>)
    ensures
        scan(objects, ids) matches Some((images, _)) ==> forall|k: int, j: ObjectId|
            0 <= k < images.len() && ids.contains(j) ==> !(#[trigger] names_soft_mask(objects, j, images[k].0)),
{
    lemma_scan_soft_masks(objects, ids);
}

/// For the document's own object ids, in increasing order: no object that an image stream
/// of the document names as its soft mask is among the images to extract.
pub proof fn law_document_soft_masks_left_out(objects: Map<ObjectId, PdfObject>, ids: Seq<ObjectId>)
    requires
        ids_increasing(ids),
        forall|id: ObjectId| ids.contains(id) <==> objects.contains_key(id),
    ensures
        scan(objects, object_order(objects)) matches Some((images, _)) ==> forall|k: int, j: ObjectId|
            0 <= k < images.len() ==> !(#[trigger] names_soft_mask(objects, j, images[k].0)),
{
    lemma_object_order(objects, ids);
    lemma_scan_soft_masks(objects, ids);
    if let Some((images, smasks)) = scan(objects, ids) {
        assert forall|k: int, j: ObjectId| 0 <= k < images.len() implies !(#[trigger] names_soft_mask(objects, j, images[k].0)) by {
            if names_soft_mask(objects, j, images[k].0) {
                assert(objects.contains_key(j));
                assert(ids.contains(j));
            }
        }
    }
}

} // verus!
