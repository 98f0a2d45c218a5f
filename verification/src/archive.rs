//! Reading ZIP archives held in memory, through the `zip` crate.
//!
//! An archive is opened from bytes; everything the crate reports about it is
//! determined by those bytes, so the contracts speak of the bytes an archive
//! was opened from.

use vstd::prelude::*;
use std::io::{Cursor, Read};
use zip::result::ZipError;
use zip::ZipArchive;

verus! {

/// The archive type of the `zip` crate.
#[verifier::external_type_specification]
#[verifier::external_body]
#[verifier::reject_recursive_types(R)]
pub struct ExZipArchive<R>(ZipArchive<R>);

/// The error type of the `zip` crate.
#[verifier::external_type_specification]
#[verifier::external_body]
pub struct ExZipError(ZipError);

/// std's in-memory reader.
#[verifier::external_type_specification]
#[verifier::external_body]
#[verifier::reject_recursive_types(T)]
pub struct ExCursor<T>(Cursor<T>);

/// std's I/O error.
#[verifier::external_type_specification]
#[verifier::external_body]
pub struct ExIoError(std::io::Error);

/// An archive read from bytes in memory.
pub type MemoryZip = ZipArchive<Cursor<Vec<u8>>>;

/// The bytes an archive was opened from.
pub uninterp spec fn zip_source(archive: ZipArchive<Cursor<Vec<u8>>>) -> Seq<u8>;

/// Whether `ZipArchive::new` accepts `bytes` (finds a central directory).
pub uninterp spec fn zip_opens(bytes: Seq<u8>) -> bool;

/// How many files `ZipArchive::len` reports for the archive in `bytes`.
pub uninterp spec fn zip_file_count(bytes: Seq<u8>) -> nat;

/// What `ZipArchive::by_index` gives for the file at `index` of the archive
/// in `bytes`: its name, whether it is a directory and its uncompressed size,
/// or nothing when the file cannot be opened.
pub uninterp spec fn zip_entry(bytes: Seq<u8>, index: int) -> Option<(Seq<char>, bool, u64)>;

/// What reading at most `limit` bytes of the file at `index` of the archive
/// in `bytes` gives, or nothing when reading fails.
pub uninterp spec fn zip_entry_data(bytes: Seq<u8>, index: int, limit: u64) -> Option<Seq<u8>>;

/// The metadata of one file of an archive.
#[derive(Debug)]
pub struct ZipEntryHeader {
    pub name: String,
    pub is_dir: bool,
    pub size: u64,
}

/// Why reading a file of an archive failed.
#[derive(Debug)]
pub enum ZipReadError {
    /// The file could not be opened.
    Archive(ZipError),
    /// Its contents could not be read.
    Io(std::io::Error),
}

/// `ZipArchive::new` from the `zip` crate, on a copy of `bytes`. The contract
/// names whether it succeeds and records the bytes the archive reads.
#[verifier::external_body]
pub(crate) fn open_zip(bytes: &[u8]) -> (r: Result<MemoryZip, ZipError>)
    ensures
        r is Ok <==> zip_opens(bytes@),
        r matches Ok(a) ==> zip_source(a) == bytes@,
{
    ZipArchive::new(Cursor::new(bytes.to_vec()))
}

/// `ZipArchive::len` from the `zip` crate: the number of files.
#[verifier::external_body]
pub(crate) fn zip_len(archive: &MemoryZip) -> (n: usize)
    ensures
        n == zip_file_count(zip_source(*archive)),
{
    archive.len()
}

/// `ZipArchive::by_index` from the `zip` crate, giving the opened file's
/// name, `is_dir` and `size`. As its source shows, an index past the last
/// file fails, and a name ending in `/` or `\` is a directory.
#[verifier::external_body]
pub(crate) fn zip_entry_header(archive: &mut MemoryZip, index: usize) -> (r: Result<ZipEntryHeader, ZipError>)
    ensures
        zip_source(*final(archive)) == zip_source(*old(archive)),
        r is Ok <==> zip_entry(zip_source(*old(archive)), index as int) is Some,
        r matches Ok(h) ==> zip_entry(zip_source(*old(archive)), index as int) == Some(
            (h.name@, h.is_dir, h.size),
        ),
        r matches Ok(h) ==> h.is_dir == (h.name@.len() > 0 && (h.name@.last() == '/'
            || h.name@.last() == '\\')),
        index >= zip_file_count(zip_source(*old(archive))) ==> r is Err,
{
    let file = archive.by_index(index)?;
    Ok(ZipEntryHeader { name: file.name().to_string(), is_dir: file.is_dir(), size: file.size() })
}

/// `ZipArchive::by_index` from the `zip` crate followed by reading at most
/// `limit` bytes of the file (std's `Read::take` and `read_to_end`; the file
/// type cannot be named in verified code, so both steps stand here). Opening
/// the file succeeds exactly when `zip_entry_header` does for the same
/// index; at most `limit` bytes come back.
#[verifier::external_body]
pub(crate) fn zip_entry_read(archive: &mut MemoryZip, index: usize, limit: u64) -> (r: Result<
    Vec<u8>,
    ZipReadError,
>)
    ensures
        zip_source(*final(archive)) == zip_source(*old(archive)),
        r matches Err(ZipReadError::Archive(_)) ==> zip_entry(
            zip_source(*old(archive)),
            index as int,
        ) is None,
        r matches Err(ZipReadError::Io(_)) ==> zip_entry(zip_source(*old(archive)), index as int)
            is Some && zip_entry_data(zip_source(*old(archive)), index as int, limit) is None,
        r matches Ok(data) ==> zip_entry(zip_source(*old(archive)), index as int) is Some
            && zip_entry_data(zip_source(*old(archive)), index as int, limit) == Some(data@),
        r matches Ok(data) ==> data@.len() <= limit,
{
    let file = archive.by_index(index).map_err(ZipReadError::Archive)?;
    let mut data = Vec::new();
    file.take(limit).read_to_end(&mut data).map_err(ZipReadError::Io)?;
    Ok(data)
}

} // verus!
