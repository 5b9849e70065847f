//! The container reader: ZIP archives held in memory, opened and read
//! through the `zip` crate.
//!
//! The contracts of this module are taken on trust. What the `zip` crate
//! makes of given bytes is known to the rest of the library by name only:
//! whether they open as an archive, which entries the archive lists,
//! whether an entry can be fetched, what it holds, and in which words the
//! crate says what went wrong.

use std::io::Cursor;
use std::io::Read;
use vstd::prelude::*;
use zip::ZipArchive;

verus! {

/// `std::io::Cursor`, the reader over bytes in memory that an archive is
/// opened on.
#[verifier::external_type_specification]
#[verifier::external_body]
#[verifier::reject_recursive_types(T)]
pub struct ExCursor<T>(std::io::Cursor<T>);

/// `zip::ZipArchive`, an open archive: a reader and the index of the
/// entries read from it.
#[verifier::external_type_specification]
#[verifier::external_body]
#[verifier::reject_recursive_types(R)]
pub struct ExZipArchive<R>(zip::ZipArchive<R>);

/// The bytes that an open archive reads from.
pub uninterp spec fn archive_source(archive: ZipArchive<Cursor<&Vec<u8>>>) -> Seq<u8>;

/// The words of the error that `ZipArchive::new` fails with on the bytes;
/// `None` where it accepts them as an archive.
pub uninterp spec fn zip_open_error(bytes: Seq<u8>) -> Option<Seq<char>>;

/// The entry names that `ZipArchive::file_names` lists, in its order, for
/// the archive made of `bytes`.
pub uninterp spec fn zip_names(bytes: Seq<u8>) -> Seq<Seq<char>>;

/// The words of the error that `ZipArchive::by_name` fails with when asked
/// for the entry called `name` of the archive made of `bytes`; `None` where
/// it hands the entry out.
pub uninterp spec fn zip_entry_error(bytes: Seq<u8>, name: Seq<char>) -> Option<Seq<char>>;

/// The content of the entry called `name` of the archive made of `bytes`, as
/// `ZipArchive::by_name` and then `read_to_end` give it, or the words of the
/// error that the first of them to fail fails with.
pub uninterp spec fn zip_entry_content(bytes: Seq<u8>, name: Seq<char>) -> Result<
    Seq<u8>,
    Seq<char>,
>;

/// Whether the bytes open as an archive.
pub open spec fn zip_opens(bytes: Seq<u8>) -> bool {
    zip_open_error(bytes) is None
}

/// Whether the archive made of `bytes` hands out the entry called `name`.
pub open spec fn zip_entry_found(bytes: Seq<u8>, name: Seq<char>) -> bool {
    zip_entry_error(bytes, name) is None
}

/// Whether a name ends in a slash or a backslash, which is how an archive
/// marks a directory.
pub open spec fn ends_in_separator(name: Seq<char>) -> bool {
    name.len() > 0 && crate::names::is_separator(name.last())
}

/// Opens the bytes as an archive with `ZipArchive::new`, which looks for a
/// central directory from the end of the bytes and reads the index of the
/// entries from it. Whether it succeeds, and the words of its error where
/// it does not, depend on the bytes alone; the archive it hands out reads
/// from these bytes.
#[verifier::external_body]
pub(crate) fn open_archive<'a>(data: &'a Vec<u8>) -> (opened: Result<
    ZipArchive<Cursor<&'a Vec<u8>>>,
    String,
>)
    ensures
        match opened {
            Ok(archive) => zip_open_error(data@) is None && archive_source(archive) == data@,
            Err(cause) => zip_open_error(data@) == Some(cause@),
        },
{
    ZipArchive::new(Cursor::new(data)).map_err(|error| error.to_string())
}

/// Collects what `ZipArchive::file_names` yields: the keys of the archive's
/// index, which keeps the order in which the entries were read from the
/// central directory. The list depends on the archive's bytes alone.
#[verifier::external_body]
pub(crate) fn archive_names(archive: &ZipArchive<Cursor<&Vec<u8>>>) -> (names: Vec<String>)
    ensures
        names.deep_view() == zip_names(archive_source(*archive)),
{
    archive.file_names().map(|name| name.to_owned()).collect()
}

/// Fetches an entry with `ZipArchive::by_name` and asks it `is_dir`.
/// Whether the entry is handed out, and the words of the error where it is
/// not, depend on the archive's bytes and the name alone. The entry handed
/// out is the one indexed under `name`, whose own name is that text, and
/// `is_dir` says whether the last character of that name is a slash or a
/// backslash. The archive goes on reading from the same bytes.
#[verifier::external_body]
pub(crate) fn entry_is_directory(archive: &mut ZipArchive<Cursor<&Vec<u8>>>, name: &str) -> (found:
    Result<bool, String>)
    ensures
        archive_source(*final(archive)) == archive_source(*old(archive)),
        match found {
            Ok(directory) => zip_entry_error(archive_source(*old(archive)), name@) is None
                && directory == ends_in_separator(name@),
            Err(cause) => zip_entry_error(archive_source(*old(archive)), name@) == Some(cause@),
        },
{
    let entry = archive.by_name(name).map_err(|error| error.to_string())?;
    Ok(entry.is_dir())
}

/// Fetches an entry with `ZipArchive::by_name` and reads all of it with
/// `read_to_end`, which decompresses the content and fails where its
/// checksum is wrong. What comes of it depends on the archive's bytes and
/// the name alone. The archive goes on reading from the same bytes.
#[verifier::external_body]
pub(crate) fn entry_bytes(archive: &mut ZipArchive<Cursor<&Vec<u8>>>, name: &str) -> (read: Result<
    Vec<u8>,
    String,
>)
    ensures
        archive_source(*final(archive)) == archive_source(*old(archive)),
        match (read, zip_entry_content(archive_source(*old(archive)), name@)) {
            (Ok(bytes), Ok(content)) => bytes@ == content,
            (Err(cause), Err(words)) => cause@ == words,
            _ => false,
        },
{
    let mut entry = archive.by_name(name).map_err(|error| error.to_string())?;
    let mut bytes = Vec::new();
    entry.read_to_end(&mut bytes).map_err(|error| error.to_string())?;
    Ok(bytes)
}

} // verus!
