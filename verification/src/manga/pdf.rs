//! The objects of a PDF document as lopdf reads them, seen as values.
use vstd::prelude::*;

verus! {

/// A lopdf document, carried through as it is.
#[verifier::external_type_specification]
#[verifier::external_body]
pub struct ExDocument(lopdf::Document);

/// An object id: object number and generation number.
pub type ObjectId = (u32, u16);

/// A value in a stream's dictionary, as far as the extraction reads it.
pub ghost enum PdfValue {
    Name(Seq<u8>),
    Integer(i64),
    Reference(ObjectId),
    Other,
}

/// An object of the document: a stream with its dictionary and its (still encoded)
/// content, a reference to another object, or anything else.
pub ghost enum PdfObject {
    Stream { dict: Map<Seq<u8>, PdfValue>, content: Seq<u8> },
    Reference(ObjectId),
    Other,
}

/// The objects of a lopdf document by their ids.
pub uninterp spec fn pdf_objects(doc: lopdf::Document) -> Map<ObjectId, PdfObject>;

/// The objects that lopdf, reading the cross-reference entries in order, finds in the
/// bytes of a PDF file, where it can read them.
pub uninterp spec fn pdf_parse(bytes: Seq<u8>) -> Option<Map<ObjectId, PdfObject>>;

/// The content of the stream that lopdf's `get_object` reaches from `id`, following
/// references, where it reaches a stream.
pub uninterp spec fn pdf_stream_content(objects: Map<ObjectId, PdfObject>, id: ObjectId) -> Option<Seq<u8>>;

/// `a` comes before `b`: by object number, then by generation number.
pub open spec fn id_less(a: ObjectId, b: ObjectId) -> bool {
    a.0 < b.0 || (a.0 == b.0 && a.1 < b.1)
}

/// Whether the ids are in increasing order.
pub open spec fn ids_increasing(ids: Seq<ObjectId>) -> bool {
    forall|i: int, j: int| 0 <= i < j < ids.len() ==> id_less(ids[i], ids[j])
}

/// Whether object `id` of `objects` is a stream.
pub open spec fn is_stream(objects: Map<ObjectId, PdfObject>, id: ObjectId) -> bool {
    objects.contains_key(id) && objects[id] is Stream
}

/// Entry `key` of the dictionary of stream `id`, where it has one.
pub open spec fn dict_entry(objects: Map<ObjectId, PdfObject>, id: ObjectId, key: Seq<u8>) -> Option<PdfValue> {
    if is_stream(objects, id) && objects[id]->Stream_dict.contains_key(key) {
        Some(objects[id]->Stream_dict[key])
    } else {
        None
    }
}

/// Entry `key` of stream `id` where it is a name.
pub open spec fn name_entry(objects: Map<ObjectId, PdfObject>, id: ObjectId, key: Seq<u8>) -> Option<Seq<u8>> {
    match dict_entry(objects, id, key) {
        Some(PdfValue::Name(n)) => Some(n),
        _ => None,
    }
}

/// Entry `key` of stream `id` where it is an integer.
pub open spec fn integer_entry(objects: Map<ObjectId, PdfObject>, id: ObjectId, key: Seq<u8>) -> Option<i64> {
    match dict_entry(objects, id, key) {
        Some(PdfValue::Integer(n)) => Some(n),
        _ => None,
    }
}

/// Entry `key` of stream `id` where it is a reference.
pub open spec fn reference_entry(objects: Map<ObjectId, PdfObject>, id: ObjectId, key: Seq<u8>) -> Option<ObjectId> {
    match dict_entry(objects, id, key) {
        Some(PdfValue::Reference(r)) => Some(r),
        _ => None,
    }
}

/// Calls `lopdf::Document::load_mem`. The contract claims that it succeeds exactly where
/// `pdf_parse` gives objects, and that the document then holds those objects. lopdf is
/// built without its `rayon` feature, so `load_objects_raw` reads the cross-reference
/// entries one after another in the order of their `BTreeMap`, and which copy of an object
/// it keeps depends on the bytes alone. The contract makes no claim that the call returns
/// on every input: lopdf's parser unwraps and indexes in many places.
#[verifier::external_body]
pub fn pdf_load(bytes: &[u8]) -> (r: Result<lopdf::Document, lopdf::Error>)
    ensures
        r is Ok <==> pdf_parse(bytes@) is Some,
        r matches Ok(doc) ==> pdf_parse(bytes@) == Some(pdf_objects(doc)),
{
    lopdf::Document::load_mem(bytes)
}

/// Reads the keys of `Document::objects`, a `BTreeMap`, in the map's order. The contract
/// claims that these are the ids of the document's objects, each once, in increasing order.
#[verifier::external_body]
pub fn pdf_object_ids(doc: &lopdf::Document) -> (ids: Vec<ObjectId>)
    ensures
        ids_increasing(ids@),
        forall|id: ObjectId| ids@.contains(id) <==> pdf_objects(*doc).contains_key(id),
{
    doc.objects.keys().copied().collect()
}

/// Calls `Object::as_stream` on object `id` of `Document::objects`. The contract claims
/// that it succeeds exactly where the object is a stream.
#[verifier::external_body]
pub fn pdf_is_stream(doc: &lopdf::Document, id: ObjectId) -> (r: bool)
    ensures
        r == is_stream(pdf_objects(*doc), id),
{
    match doc.objects.get(&id) {
        Some(object) => object.as_stream().is_ok(),
        None => false,
    }
}

/// Calls `Dictionary::get` with `key`, then `Object::as_name`, on the dictionary of stream
/// `id`. The contract claims that this succeeds exactly where the entry is there and is a
/// name, and gives the name's bytes.
#[verifier::external_body]
pub fn pdf_stream_name(doc: &lopdf::Document, id: ObjectId, key: &[u8]) -> (r: Result<Vec<u8>, lopdf::Error>)
    requires
        is_stream(pdf_objects(*doc), id),
    ensures
        r is Ok <==> name_entry(pdf_objects(*doc), id, key@) is Some,
        r matches Ok(n) ==> name_entry(pdf_objects(*doc), id, key@) == Some(n@),
{
    match doc.objects.get(&id) {
        Some(lopdf::Object::Stream(stream)) => match stream.dict.get(key) {
            Ok(value) => match value.as_name() {
                Ok(name) => Ok(name.to_vec()),
                Err(e) => Err(e),
            },
            Err(e) => Err(e),
        },
        _ => Err(lopdf::Error::ObjectNotFound(id)),
    }
}

/// Calls `Dictionary::get` with `key`, then `Object::as_i64`, on the dictionary of stream
/// `id`. The contract claims that this succeeds exactly where the entry is there and is an
/// integer, and gives the integer.
#[verifier::external_body]
pub fn pdf_stream_integer(doc: &lopdf::Document, id: ObjectId, key: &[u8]) -> (r: Result<i64, lopdf::Error>)
    requires
        is_stream(pdf_objects(*doc), id),
    ensures
        r is Ok <==> integer_entry(pdf_objects(*doc), id, key@) is Some,
        r matches Ok(n) ==> integer_entry(pdf_objects(*doc), id, key@) == Some(n),
{
    match doc.objects.get(&id) {
        Some(lopdf::Object::Stream(stream)) => match stream.dict.get(key) {
            Ok(value) => value.as_i64(),
            Err(e) => Err(e),
        },
        _ => Err(lopdf::Error::ObjectNotFound(id)),
    }
}

/// Calls `Dictionary::get` with `key`, then `Object::as_reference`, on the dictionary of
/// stream `id`. The contract claims that this succeeds exactly where the entry is there
/// and is a reference, and gives the referenced id.
#[verifier::external_body]
pub fn pdf_stream_reference(doc: &lopdf::Document, id: ObjectId, key: &[u8]) -> (r: Result<ObjectId, lopdf::Error>)
    requires
        is_stream(pdf_objects(*doc), id),
    ensures
        r is Ok <==> reference_entry(pdf_objects(*doc), id, key@) is Some,
        r matches Ok(target) ==> reference_entry(pdf_objects(*doc), id, key@) == Some(target),
{
    match doc.objects.get(&id) {
        Some(lopdf::Object::Stream(stream)) => match stream.dict.get(key) {
            Ok(value) => value.as_reference(),
            Err(e) => Err(e),
        },
        _ => Err(lopdf::Error::ObjectNotFound(id)),
    }
}

/// Calls `Document::get_object`, which follows references, then `Object::as_stream`, and
/// copies the stream's content. The contract claims that this succeeds exactly where
/// `pdf_stream_content` gives a content, and gives it; and, as `get_object` returns an
/// object that is no reference as it stands, that for a stream `id` it succeeds with that
/// stream's own content.
#[verifier::external_body]
pub fn pdf_get_stream_content(doc: &lopdf::Document, id: ObjectId) -> (r: Result<Vec<u8>, lopdf::Error>)
    ensures
        r is Ok <==> pdf_stream_content(pdf_objects(*doc), id) is Some,
        r matches Ok(c) ==> pdf_stream_content(pdf_objects(*doc), id) == Some(c@),
        is_stream(pdf_objects(*doc), id) ==> r is Ok && r->Ok_0@ == pdf_objects(*doc)[id]->Stream_content,
{
    match doc.get_object(id) {
        Ok(object) => match object.as_stream() {
            Ok(stream) => Ok(stream.content.clone()),
            Err(e) => Err(e),
        },
        Err(e) => Err(e),
    }
}

} // verus!
