//! Reading the directory of a zip archive that is held in memory.

use crate::error::AnalysisError;
use crate::scan::ArchiveEntry;
use crate::scan::ArchiveEntryView;
use std::io::Cursor;
use vstd::prelude::*;
use vstd::string::StringExecFns;
use zip::result::ZipError;
use zip::ZipArchive;

verus! {

/// `zip::ZipArchive`: an archive that was opened. Nothing of what it holds
/// is seen but through `archive_listing`.
#[verifier::external_type_specification]
#[verifier::external_body]
#[verifier::reject_recursive_types(R)]
pub struct ExZipArchive<R>(ZipArchive<R>);

/// `std::io::Cursor`: bytes in memory with a reading position.
#[verifier::external_type_specification]
#[verifier::external_body]
#[verifier::reject_recursive_types(T)]
pub struct ExCursor<T>(Cursor<T>);

/// `zip::result::ZipError`: why an archive or an entry could not be read.
#[verifier::external_type_specification]
#[verifier::external_body]
pub struct ExZipError(ZipError);

/// What reading each entry of an archive's directory gives, in the order of
/// the directory: the entry, or nothing where the entry cannot be read.
pub uninterp spec fn archive_listing(archive: ZipArchive<Cursor<Vec<u8>>>) -> Seq<
    Option<ArchiveEntryView>,
>;

/// The listing of the archive that `bytes` hold, or nothing where they hold
/// no archive whose directory can be found and read.
pub uninterp spec fn parsed_listing(bytes: Seq<u8>) -> Option<Seq<Option<ArchiveEntryView>>>;

/// Opens the archive that `bytes` hold, with `ZipArchive::new` over a
/// `Cursor`. Trusted: the outcome depends on the bytes alone; it is an
/// archive whose listing is the one that the bytes hold, or a failure where
/// they hold none.
#[verifier::external_body]
fn open_bytes(bytes: Vec<u8>) -> (opened: Result<ZipArchive<Cursor<Vec<u8>>>, ZipError>)
    ensures
        match opened {
            Ok(archive) => parsed_listing(bytes@) == Some(archive_listing(archive)),
            Err(_) => parsed_listing(bytes@) is None,
        },
{
    ZipArchive::new(Cursor::new(bytes))
}

/// The number of entries in the archive's directory, from `ZipArchive::len`.
/// Trusted: it is the length of the listing.
#[verifier::external_body]
fn entry_count(archive: &ZipArchive<Cursor<Vec<u8>>>) -> (count: usize)
    ensures
        count == archive_listing(*archive).len(),
{
    archive.len()
}

/// Reads the entry at `index` with `ZipArchive::by_index` and takes its name,
/// its unpacked size and whether it is a file. Trusted: reading leaves the
/// listing as it was, and succeeds with the listed entry exactly where the
/// listing holds one at `index`.
#[verifier::external_body]
fn read_entry(archive: &mut ZipArchive<Cursor<Vec<u8>>>, index: usize) -> (entry: Result<
    ArchiveEntry,
    ZipError,
>)
    ensures
        archive_listing(*final(archive)) == archive_listing(*old(archive)),
        match entry {
            Ok(found) => index < archive_listing(*old(archive)).len() && archive_listing(
                *old(archive),
            )[index as int] == Some(found@),
            Err(_) => index >= archive_listing(*old(archive)).len() || archive_listing(
                *old(archive),
            )[index as int] is None,
        },
{
    let file = archive.by_index(index)?;
    let path = file.name()?.into_owned();
    Ok(ArchiveEntry { path, size: file.size(), is_file: file.is_file() })
}

/// The text of a zip failure, from its `Display`. Trusted; nothing is
/// claimed of the text.
#[verifier::external_body]
fn failure_text(failure: &ZipError) -> (text: String) {
    failure.to_string()
}

/// `error` says that an archive could not be read: it is an `ArchiveFormat`
/// failure whose text is `Zip error: ` and then what the archive reader said.
pub open spec fn is_archive_failure(error: AnalysisError) -> bool {
    error matches AnalysisError::ArchiveFormat(text) && exists|detail: Seq<char>|
        text@ == "Zip error: "@ + detail
}

/// The failure of an analysis that a zip failure amounts to.
fn archive_failure(failure: &ZipError) -> (error: AnalysisError)
    ensures
        is_archive_failure(error),
{
    let detail = failure_text(failure);
    let text = String::from_str("Zip error: ").concat(detail.as_str());
    AnalysisError::ArchiveFormat(text)
}

/// Every entry of the listing can be read.
pub open spec fn all_readable(listing: Seq<Option<ArchiveEntryView>>) -> bool {
    forall|index: int| 0 <= index < listing.len() ==> (#[trigger] listing[index]) is Some
}

/// The entries of a listing; meaningful where all of them can be read.
pub open spec fn entries_of(listing: Seq<Option<ArchiveEntryView>>) -> Seq<ArchiveEntryView> {
    Seq::new(listing.len(), |index: int| listing[index]->0)
}

/// Opens the archive that `bytes` hold. Fails with `ArchiveFormat` where they
/// hold no archive whose directory can be read.
pub fn open_archive(bytes: Vec<u8>) -> (opened: Result<ZipArchive<Cursor<Vec<u8>>>, AnalysisError>)
    ensures
        match opened {
            Ok(archive) => parsed_listing(bytes@) == Some(archive_listing(archive)),
            Err(error) => parsed_listing(bytes@) is None && is_archive_failure(error),
        },
{
    match open_bytes(bytes) {
        Ok(archive) => Ok(archive),
        Err(failure) => Err(archive_failure(&failure)),
    }
}

/// The number of entries in the archive's directory.
pub fn archive_len(archive: &ZipArchive<Cursor<Vec<u8>>>) -> (count: usize)
    ensures
        count == archive_listing(*archive).len(),
{
    entry_count(archive)
}

/// Reads the entry at `index` of the archive's directory. Fails with
/// `ArchiveFormat` where there is no such entry or it cannot be read.
pub fn archive_entry(archive: &mut ZipArchive<Cursor<Vec<u8>>>, index: usize) -> (entry: Result<
    ArchiveEntry,
    AnalysisError,
>)
    ensures
        archive_listing(*final(archive)) == archive_listing(*old(archive)),
        match entry {
            Ok(found) => index < archive_listing(*old(archive)).len() && archive_listing(
                *old(archive),
            )[index as int] == Some(found@),
            Err(error) => is_archive_failure(error) && (index >= archive_listing(
                *old(archive),
            ).len() || archive_listing(*old(archive))[index as int] is None),
        },
{
    match read_entry(archive, index) {
        Ok(found) => Ok(found),
        Err(failure) => Err(archive_failure(&failure)),
    }
}

} // verus!
