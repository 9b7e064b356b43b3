//! Trusted boundary to the `zip` crate. Archives are built and read in
//! memory, over a cursor into a byte buffer; putting those bytes on disk, or
//! fetching them from disk, is the caller's business. The names below tie
//! the boundary together: what a writer holds so far and whether an entry is
//! open on it, what a reader holds and whether it fully decodes, and what an
//! archive's bytes decode to. The success clauses hold for the fixed options
//! used here (DEFLATE, no encryption, default alignment) over an in-memory
//! buffer, where writes cannot fail for I/O reasons.

use vstd::prelude::*;

verus! {

#[verifier::external_type_specification]
#[verifier::external_body]
pub struct ExZipError(zip::result::ZipError);

/// An archive being written into an in-memory buffer.
#[verifier::external_body]
pub struct MemZipWriter {
    inner: zip::ZipWriter<std::io::Cursor<Vec<u8>>>,
}

/// An archive opened for reading from an in-memory buffer.
#[verifier::external_body]
pub struct MemZipArchive {
    inner: zip::ZipArchive<std::io::Cursor<Vec<u8>>>,
}

/// The entries an in-memory archive writer holds so far: the name and the
/// uncompressed data of each, in the order they were started.
pub uninterp spec fn zw_entries(w: MemZipWriter) -> Seq<(Seq<char>, Seq<u8>)>;

/// Whether the writer has an entry open for writing (a successful
/// start_file not yet followed by closing the archive).
pub uninterp spec fn zw_file_open(w: MemZipWriter) -> bool;

/// What a finished archive's bytes decode to: its entries in order, or
/// nothing when the bytes are not a readable archive. The entry list is a
/// function of the bytes alone.
pub uninterp spec fn zip_archive_entries(bytes: Seq<u8>) -> Option<Seq<(Seq<char>, Seq<u8>)>>;

/// Bytes that are not just readable but fully decodable: opening the archive
/// and decoding every entry succeeds. A function of the bytes alone.
pub uninterp spec fn zip_archive_decodable(bytes: Seq<u8>) -> bool;

/// The entries of an open archive reader, in index order.
pub uninterp spec fn za_entries(a: MemZipArchive) -> Seq<(Seq<char>, Seq<u8>)>;

/// Whether every entry of the open reader decodes.
pub uninterp spec fn za_decodable(a: MemZipArchive) -> bool;

/// An entry name the writer accepts beside the entries already written:
/// fresh, and short enough that its UTF-8 form fits the format's length
/// field.
pub open spec fn spec_name_addable(entries: Seq<(Seq<char>, Seq<u8>)>, name: Seq<char>) -> bool {
    &&& name.len() <= 0x3fff
    &&& forall|q: int| 0 <= q < entries.len() ==> (#[trigger] entries[q]).0 != name
}

/// Entry data comfortably below the plain (non-ZIP64) entry size limit.
pub open spec fn spec_data_small(data: Seq<u8>) -> bool {
    data.len() < 0x8000_0000
}

/// Every entry's data is comfortably below the plain entry size limit.
pub open spec fn spec_all_data_small(entries: Seq<(Seq<char>, Seq<u8>)>) -> bool {
    forall|q: int| 0 <= q < entries.len() ==> spec_data_small((#[trigger] entries[q]).1)
}

/// Relies on zip::ZipWriter::new: a writer over a fresh buffer holds no
/// entries and no open entry.
#[verifier::external_body]
pub(crate) fn zw_new() -> (w: MemZipWriter)
    ensures
        zw_entries(w) == Seq::<(Seq<char>, Seq<u8>)>::empty(),
        !zw_file_open(w),
{
    MemZipWriter { inner: zip::ZipWriter::new(std::io::Cursor::new(Vec::new())) }
}

/// Relies on zip::ZipWriter::start_file: on success a new, empty entry with
/// the given name (stored with DEFLATE compression) is appended after the
/// entries already written and left open for writing. With these fixed
/// options, over an in-memory buffer, the call fails only on a duplicate
/// name, a name whose encoding overflows the format's length field, or while
/// closing an oversized previous entry; so a fresh, short name beside small
/// entries is accepted.
#[verifier::external_body]
pub(crate) fn zw_start_file(w: &mut MemZipWriter, name: &str) -> (r:
    Result<(), zip::result::ZipError>)
    ensures
        r is Ok ==> zw_entries(*final(w)) == zw_entries(*old(w)).push(
            (name@, Seq::<u8>::empty()),
        ) && zw_file_open(*final(w)),
        spec_name_addable(zw_entries(*old(w)), name@) && spec_all_data_small(
            zw_entries(*old(w)),
        ) ==> r is Ok,
{
    let options = zip::write::SimpleFileOptions::default().compression_method(
        zip::CompressionMethod::Deflated,
    );
    w.inner.start_file(name, options)
}

/// Relies on zip's io::Write impl for ZipWriter: written bytes extend the
/// entry opened by the last start_file. Over an in-memory buffer the write
/// fails only when the entry outgrows the plain format's size limit, so a
/// write that keeps the entry small is accepted.
#[verifier::external_body]
pub(crate) fn zw_write_all(w: &mut MemZipWriter, data: &[u8]) -> (r:
    Result<(), zip::result::ZipError>)
    requires
        zw_entries(*old(w)).len() > 0,
        zw_file_open(*old(w)),
    ensures
        r is Ok ==> zw_entries(*final(w)) == zw_entries(*old(w)).update(
            zw_entries(*old(w)).len() - 1,
            (zw_entries(*old(w)).last().0, zw_entries(*old(w)).last().1 + data@),
        ) && zw_file_open(*final(w)),
        spec_data_small(zw_entries(*old(w)).last().1 + data@) ==> r is Ok,
{
    match std::io::Write::write_all(&mut w.inner, data) {
        Ok(()) => Ok(()),
        Err(e) => Err(zip::result::ZipError::Io(e)),
    }
}

/// Relies on zip::ZipWriter::finish, together with zip::ZipArchive::new: the
/// finished bytes form a readable archive whose entries decode back exactly
/// as they were written (names stored raw, DEFLATE lossless, checksums
/// written correctly, order kept). Over an in-memory buffer, finishing fails
/// only while closing an oversized entry, so an archive of small entries is
/// always finished.
#[verifier::external_body]
pub(crate) fn zw_finish(w: MemZipWriter) -> (r: Result<Vec<u8>, zip::result::ZipError>)
    ensures
        r is Ok ==> zip_archive_entries(r.unwrap()@) == Some(zw_entries(w))
            && zip_archive_decodable(r.unwrap()@),
        spec_all_data_small(zw_entries(w)) ==> r is Ok,
{
    match w.inner.finish() {
        Ok(cursor) => Ok(cursor.into_inner()),
        Err(e) => Err(e),
    }
}

/// Relies on zip::ZipArchive::new: reading over a cursor cannot fail for I/O
/// reasons, so it succeeds exactly on bytes that form a readable archive, and
/// the reader then holds their entries.
#[verifier::external_body]
pub(crate) fn za_new(bytes: &Vec<u8>) -> (r: Result<MemZipArchive, zip::result::ZipError>)
    ensures
        r is Ok ==> zip_archive_entries(bytes@) == Some(za_entries(r.unwrap()))
            && za_decodable(r.unwrap()) == zip_archive_decodable(bytes@),
        r is Err ==> zip_archive_entries(bytes@) is None,
        zip_archive_decodable(bytes@) ==> r is Ok,
{
    match zip::ZipArchive::new(std::io::Cursor::new(bytes.clone())) {
        Ok(a) => Ok(MemZipArchive { inner: a }),
        Err(e) => Err(e),
    }
}

/// Relies on zip::ZipArchive::len: the number of entries in the archive.
#[verifier::external_body]
pub(crate) fn za_len(a: &MemZipArchive) -> (n: usize)
    ensures
        n == za_entries(*a).len(),
{
    a.inner.len()
}

/// Relies on zip::ZipArchive::by_index (and the entry's io::Read impl): on
/// success it yields the stored name and the decompressed data of the entry
/// at the index, and the archive's entry list is unchanged. On a fully
/// decodable archive every such read succeeds.
#[verifier::external_body]
pub(crate) fn za_entry(a: &mut MemZipArchive, i: usize) -> (r: Result<
    (String, Vec<u8>),
    zip::result::ZipError,
>)
    requires
        i < za_entries(*old(a)).len(),
    ensures
        za_entries(*final(a)) == za_entries(*old(a)),
        za_decodable(*final(a)) == za_decodable(*old(a)),
        r is Ok ==> (r.unwrap().0@, r.unwrap().1@) == za_entries(*old(a))[i as int],
        za_decodable(*old(a)) ==> r is Ok,
{
    match a.inner.by_index(i) {
        Ok(mut entry) => {
            let name = entry.name().to_string();
            let mut data = Vec::new();
            match std::io::Read::read_to_end(&mut entry, &mut data) {
                Ok(_) => Ok((name, data)),
                Err(e) => Err(zip::result::ZipError::Io(e)),
            }
        },
        Err(e) => Err(e),
    }
}

/// Relies on ZipError's Display impl, for diagnostic text only.
#[verifier::external_body]
pub(crate) fn zip_error_text(e: &zip::result::ZipError) -> String {
    e.to_string()
}

} // verus!
