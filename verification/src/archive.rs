//! Version archives: a zip archive that holds the one save file of an upload.
//!
//! The server packs the uploaded file into an archive and stores its bytes; the desktop
//! client reads the save file back out of a downloaded archive when it installs a version.

use vstd::prelude::*;
use std::io::{Read, Write};
use crate::server::opt_view;

verus! {

/// The content of the first file stored in the zip archive `archive`, or `None` where the
/// bytes are no zip archive, the archive holds no file, or that file cannot be read back.
pub uninterp spec fn archive_first_entry(archive: Seq<u8>) -> Option<Seq<u8>>;

/// The name under which the first file of the zip archive `archive` is stored, as the
/// reader decodes it, or `None` where the bytes are no zip archive or hold no file.
pub uninterp spec fn archive_first_entry_name(archive: Seq<u8>) -> Option<Seq<char>>;

/// The longest file name, in characters, that an archive is sure to accept: its UTF-8
/// form (at most four bytes a character) fits the 64 KiB local header with room to spare.
pub open spec fn max_entry_name_chars() -> int {
    16000
}

/// The largest file an archive without the large-file option is sure to accept, with
/// room for the deflated form to exceed the input a little (the format's limit is
/// 4 GiB for the stored size and for the original size).
pub open spec fn max_entry_bytes() -> int {
    0xF000_0000
}

/// The view of optional bytes.
pub open spec fn bytes_view(b: Option<Vec<u8>>) -> Option<Seq<u8>> {
    match b {
        Some(v) => Some(v@),
        None => None,
    }
}

/// Writes a new zip archive into memory with `zip::ZipWriter`: `start_file(file_name, ..)`
/// with `SimpleFileOptions` set to `Deflated`, `write_all(data)`, then `finish`. Returns
/// `None` where the writer reports an error.
/// Claimed: when the writer succeeds, the first file of the archive reads back as `data`,
/// stored under `file_name` (the writer keeps the name's UTF-8 bytes, and the reader's
/// `name` gives valid UTF-8 back unchanged). On an in-memory buffer the writer fails only
/// when the local header (about 30 bytes plus the name) reaches 64 KiB, or when the
/// original or deflated size reaches 4 GiB without the large-file option; so it succeeds
/// for names of at most `max_entry_name_chars()` characters and data under
/// `max_entry_bytes()` bytes.
/// Not stated: the archive's bytes (the crate may stamp the entry with the current time).
#[verifier::external_body]
fn zip_single_file(file_name: &str, data: &[u8]) -> (r: Option<Vec<u8>>)
    ensures
        r matches Some(a) ==> archive_first_entry(a@) == Some(data@)
            && archive_first_entry_name(a@) == Some(file_name@),
        file_name@.len() <= max_entry_name_chars() && data@.len() < max_entry_bytes() ==> r is Some,
{
    let mut zip = zip::ZipWriter::new(std::io::Cursor::new(Vec::new()));
    let options = zip::write::SimpleFileOptions::default()
        .compression_method(zip::CompressionMethod::Deflated);
    zip.start_file(file_name, options).ok()?;
    zip.write_all(data).ok()?;
    zip.finish().ok().map(|cursor| cursor.into_inner())
}

/// Opens the bytes with `zip::ZipArchive::new`, takes the file at index 0 with `by_index`
/// and reads it to the end. Claimed: the result is `archive_first_entry` of the bytes.
#[verifier::external_body]
fn zip_first_entry(archive: &[u8]) -> (r: Option<Vec<u8>>)
    ensures
        bytes_view(r) == archive_first_entry(archive@),
{
    let mut zip = zip::ZipArchive::new(std::io::Cursor::new(archive)).ok()?;
    let mut entry = zip.by_index(0).ok()?;
    let mut content = Vec::new();
    entry.read_to_end(&mut content).ok()?;
    Some(content)
}

/// Opens the bytes with `zip::ZipArchive::new`, takes the file at index 0 with `by_index`
/// and asks for its `name`. Claimed: the result is `archive_first_entry_name` of the bytes.
#[verifier::external_body]
fn zip_first_entry_name(archive: &[u8]) -> (r: Option<String>)
    ensures
        opt_view(r) == archive_first_entry_name(archive@),
{
    let mut zip = zip::ZipArchive::new(std::io::Cursor::new(archive)).ok()?;
    let entry = zip.by_index(0).ok()?;
    entry.name().ok().map(|name| name.into_owned())
}

/// The archive the server stores for an uploaded version: the uploaded file, deflated,
/// under its own name. `None` where the archive could not be written, which happens only
/// for a name longer than `max_entry_name_chars()` or data of `max_entry_bytes()` or more.
pub fn pack_save_file(file_name: &str, data: &Vec<u8>) -> (r: Option<Vec<u8>>)
    ensures
        r matches Some(a) ==> archive_first_entry(a@) == Some(data@)
            && archive_first_entry_name(a@) == Some(file_name@),
        file_name@.len() <= max_entry_name_chars() && data@.len() < max_entry_bytes() ==> r is Some,
{
    zip_single_file(file_name, data.as_slice())
}

/// The save file that installing a version writes into the game's slot: the first file
/// of the version's archive. `None` where the archive is unreadable.
pub fn version_save_file(archive: &Vec<u8>) -> (r: Option<Vec<u8>>)
    ensures
        bytes_view(r) == archive_first_entry(archive@),
{
    zip_first_entry(archive.as_slice())
}

/// The name under which the save file of a version's archive was uploaded. `None` where
/// the archive is unreadable.
pub fn stored_file_name(archive: &Vec<u8>) -> (r: Option<String>)
    ensures
        opt_view(r) == archive_first_entry_name(archive@),
{
    zip_first_entry_name(archive.as_slice())
}

} // verus!
