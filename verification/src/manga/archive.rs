//! Writing a zip archive in memory, entry by entry.
use vstd::prelude::*;

verus! {

/// A zip archive being written into memory. Verus refuses to declare zip's `ZipWriter`
/// (its type parameter is bound by std's `Write` and `Seek`), so it is held here out of
/// Verus's sight and reached only through the functions below.
#[verifier::external_body]
pub struct ArchiveWriter {
    inner: zip::ZipWriter<std::io::Cursor<Vec<u8>>>,
}

/// zip's error type, carried through as it is.
#[verifier::external_type_specification]
#[verifier::external_body]
pub struct ExZipError(zip::result::ZipError);

/// How an archive entry is stored.
#[derive(Clone, Copy, Debug, PartialEq, Eq, Structural)]
pub enum Compression {
    Stored,
    Deflated,
}

/// An entry of an archive: its file name, how it is stored and its bytes.
pub type EntryView = (Seq<char>, Compression, Seq<u8>);

/// The entries that a writer holds so far, in the order in which they were started.
pub uninterp spec fn zip_entries(w: ArchiveWriter) -> Seq<EntryView>;

/// Whether every call on the writer so far succeeded.
pub uninterp spec fn zip_intact(w: ArchiveWriter) -> bool;

/// Whether every entry holds fewer than `size_bound` bytes.
pub open spec fn entries_within_bound(entries: Seq<EntryView>) -> bool {
    forall|i: int| 0 <= i < entries.len() ==> (#[trigger] entries[i]).2.len() < size_bound()
}

/// The names of the entries, in order.
pub open spec fn entry_names(entries: Seq<EntryView>) -> Seq<Seq<char>> {
    entries.map_values(|e: EntryView| e.0)
}

/// Two GiB: an entry that holds fewer bytes stays clear of zip's 4 GiB limit on an entry
/// without its large file option, stored or deflated (deflate adds a few bytes per block
/// at worst). An archive past 4 GiB in all needs no option: zip writes the zip64 records
/// for the offsets and the central directory by itself.
pub open spec fn size_bound() -> nat {
    0x8000_0000
}

/// The bytes of the archive that holds the given entries, in order.
pub uninterp spec fn zip_archive(entries: Seq<EntryView>) -> Seq<u8>;

/// Calls `ZipWriter::new` over an empty `Cursor`. The contract claims that the writer
/// holds no entry and has seen no failure.
#[verifier::external_body]
pub fn zip_new() -> (w: ArchiveWriter)
    ensures
        zip_entries(w) == Seq::<EntryView>::empty(),
        zip_intact(w),
{
    ArchiveWriter { inner: zip::ZipWriter::new(std::io::Cursor::new(Vec::new())) }
}

/// Calls `ZipWriter::start_file` with `SimpleFileOptions::default()` and the given
/// compression method. The contract claims that on success the writer holds one entry
/// more, named `name`, stored as asked, still empty. It claims success for an intact writer,
/// a name not used before (zip refuses a repeated name) of at most 1024 characters (zip
/// refuses a local header of 64 KiB), and entries each under `size_bound` (finishing the
/// previous entry fails where it reached 4 GiB, compressed or not); writes into the
/// in-memory cursor cannot fail.
#[verifier::external_body]
pub fn zip_start_file(
    w: &mut ArchiveWriter,
    name: String,
    method: Compression,
) -> (r: Result<(), zip::result::ZipError>)
    ensures
        r is Ok ==> zip_entries(*final(w)) == zip_entries(*old(w)).push((name@, method, Seq::<u8>::empty())),
        r is Ok ==> zip_intact(*final(w)),
        zip_intact(*old(w)) && !entry_names(zip_entries(*old(w))).contains(name@) && name@.len() <= 1024
            && entries_within_bound(zip_entries(*old(w))) ==> r is Ok,
{
    let method = match method {
        Compression::Stored => zip::CompressionMethod::Stored,
        Compression::Deflated => zip::CompressionMethod::Deflated,
    };
    w.inner.start_file(name, zip::write::SimpleFileOptions::default().compression_method(method))
}

/// Calls `Write::write_all` on the writer, turning an I/O error into a `ZipError`. The
/// contract claims that on success, when an entry was started, the bytes were appended to
/// the last entry. It claims success for an intact writer with an entry started, while that
/// entry stays under `size_bound` (zip refuses an entry of 4 GiB without its large file
/// option); writes into the in-memory cursor cannot fail.
#[verifier::external_body]
pub fn zip_write_all(w: &mut ArchiveWriter, data: &[u8]) -> (r: Result<(), zip::result::ZipError>)
    ensures
        r is Ok && zip_entries(*old(w)).len() > 0 ==> zip_entries(*final(w)) == zip_entries(*old(w)).update(
            zip_entries(*old(w)).len() - 1,
            (
                zip_entries(*old(w)).last().0,
                zip_entries(*old(w)).last().1,
                zip_entries(*old(w)).last().2 + data@,
            ),
        ),
        r is Ok ==> zip_intact(*final(w)),
        zip_intact(*old(w)) && zip_entries(*old(w)).len() > 0
            && zip_entries(*old(w)).last().2.len() + data@.len() < size_bound() ==> r is Ok,
{
    std::io::Write::write_all(&mut w.inner, data).map_err(zip::result::ZipError::from)
}

/// Calls `ZipWriter::finish` and takes the bytes out of the cursor. The contract claims
/// that on success these are the archive of the writer's entries, and success for an intact
/// writer whose entries are each under `size_bound`.
#[verifier::external_body]
pub fn zip_finish(w: ArchiveWriter) -> (r: Result<Vec<u8>, zip::result::ZipError>)
    ensures
        r matches Ok(bytes) ==> bytes@ == zip_archive(zip_entries(w)),
        zip_intact(w) && entries_within_bound(zip_entries(w)) ==> r is Ok,
{
    match w.inner.finish() {
        Ok(cursor) => Ok(cursor.into_inner()),
        Err(e) => Err(e),
    }
}

} // verus!
