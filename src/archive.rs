//! Writing a zip archive in memory: the outside calls, and a model of what the archive
//! holds so far.
use vstd::prelude::*;
use vstd::utf8::encode_utf8;

verus! {

#[verifier::external_type_specification]
#[verifier::external_body]
pub struct ExZipError(zip::result::ZipError);

#[verifier::external_type_specification]
#[verifier::external_body]
pub struct ExIoError(std::io::Error);

/// A zip archive being written to memory, entry after entry.
#[verifier::external_body]
pub struct Archive {
    writer: zip::ZipWriter<std::io::Cursor<Vec<u8>>>,
}

/// The entries written so far, in order: each entry's name and the bytes written into it.
pub uninterp spec fn archive_entries(a: Archive) -> Seq<(Seq<char>, Seq<u8>)>;

/// Whether an entry is open for data: one was started and nothing has ended it since.
pub uninterp spec fn archive_open(a: Archive) -> bool;

/// The bytes of a finished archive holding `entries`, in order, each written with deflate
/// compression and ZIP64 sizes allowed (without zip's `time` feature, every entry carries the
/// same fixed timestamp, so the bytes depend on the entries alone).
pub uninterp spec fn zip_bytes_of(entries: Seq<(Seq<char>, Seq<u8>)>) -> Seq<u8>;

/// The names of the entries written so far.
pub open spec fn entry_names(entries: Seq<(Seq<char>, Seq<u8>)>) -> Seq<Seq<char>> {
    entries.map_values(|e: (Seq<char>, Seq<u8>)| e.0)
}

/// Relies on `zip::ZipWriter::new` over an empty `std::io::Cursor<Vec<u8>>`: an archive with
/// no entries, written to memory.
#[verifier::external_body]
pub(crate) fn new_archive() -> (r: Archive)
    ensures
        archive_entries(r) == Seq::<(Seq<char>, Seq<u8>)>::empty(),
        !archive_open(r),
{
    Archive { writer: zip::ZipWriter::new(std::io::Cursor::new(Vec::new())) }
}

/// Relies on `zip::ZipWriter::start_file` (with `SimpleFileOptions`: deflate compression,
/// `large_file` set so that an entry may pass 4 GiB). Writing to memory, it fails only on a
/// name already in the archive (`insert_file_data`, "Duplicate filename"); then the earlier
/// entries stay and none is open. On success a new, empty, open entry named `name` follows
/// the earlier ones. A name over 65535 bytes makes it panic (`local_block`), so it is left out.
#[verifier::external_body]
pub(crate) fn start_entry(a: &mut Archive, name: &String) -> (r: Result<(), zip::result::ZipError>)
    requires
        encode_utf8(name@).len() <= 0xFFFF,
    ensures
        r is Ok <==> !entry_names(archive_entries(*old(a))).contains(name@),
        r is Ok ==> archive_entries(*final(a)) == archive_entries(*old(a)).push((name@, Seq::<u8>::empty()))
            && archive_open(*final(a)),
        r is Err ==> archive_entries(*final(a)) == archive_entries(*old(a)) && !archive_open(*final(a)),
{
    let options = zip::write::SimpleFileOptions::default()
        .compression_method(zip::CompressionMethod::Deflated)
        .large_file(true);
    a.writer.start_file(name.as_str(), options)
}

/// Relies on `std::io::Write::write_all` for `zip::ZipWriter`: with an entry open, writing
/// to memory succeeds (`large_file` is set, so no size limit applies) and appends `data` to
/// that entry, which stays open.
#[verifier::external_body]
pub(crate) fn write_entry_data(a: &mut Archive, data: &Vec<u8>) -> (r: Result<(), std::io::Error>)
    ensures
        archive_open(*old(a)) ==> r is Ok,
        r is Ok && archive_open(*old(a)) ==> archive_open(*final(a)) && archive_entries(*final(a))
            == archive_entries(*old(a)).update(
            archive_entries(*old(a)).len() - 1,
            (archive_entries(*old(a)).last().0, archive_entries(*old(a)).last().1 + data@),
        ),
{
    std::io::Write::write_all(&mut a.writer, data.as_slice())
}

/// Relies on `zip::ZipWriter::finish` and `std::io::Cursor::into_inner`: finishing an archive
/// in memory writes the central directory and cannot fail on I/O; the bytes are those of
/// the entries written.
#[verifier::external_body]
pub(crate) fn finish_archive(a: Archive) -> (r: Result<Vec<u8>, zip::result::ZipError>)
    ensures
        r is Ok,
        r->Ok_0@ == zip_bytes_of(archive_entries(a)),
{
    a.writer.finish().map(|c| c.into_inner())
}

/// Relies on `Display for zip::result::ZipError`: its message.
#[verifier::external_body]
pub(crate) fn zip_error_text(e: &zip::result::ZipError) -> (r: String) {
    e.to_string()
}

/// Relies on `Display for std::io::Error`: its message.
#[verifier::external_body]
pub(crate) fn io_error_text(e: &std::io::Error) -> (r: String) {
    e.to_string()
}

} // verus!
