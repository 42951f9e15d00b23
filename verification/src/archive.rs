//! Archives: the snapshot of a store, compressed, under a name that holds
//! the time at which it was taken.

use crate::snapshot::json_text;
use crate::snapshot::to_json;
use crate::store::records;
use crate::store::Store;
use flate2::write::GzEncoder;
use flate2::Compression;
use std::io::Write;
use vstd::prelude::*;
use vstd::utf8::encode_utf8;

verus! {

/// How the time of an archive is written into its name: year, month, day,
/// hour, minute and second, without separators.
pub const TIMESTAMP_FORMAT: &'static str = "%Y%m%d%H%M%S";

/// What stands before the time in the name of an archive.
pub const ARCHIVE_PREFIX: &'static str = "n2o_data_backup_";

/// What stands behind the time in the name of an archive.
pub const ARCHIVE_SUFFIX: &'static str = ".json.gz";

/// std's `io::Error`, of which nothing is read: the library only tells
/// success from failure.
#[verifier::external_type_specification]
#[verifier::external_body]
pub struct ExIoError(std::io::Error);

/// The gzip stream that flate2 makes of `data` at its default level, with
/// the header that it writes by default. `None` where it reports an error.
pub uninterp spec fn gzip_stream(data: Seq<u8>) -> Option<Seq<u8>>;

/// flate2's `GzEncoder`, made by `new` at the default level over an empty
/// buffer, fed all of `data` and finished: the buffer then holds
/// `gzip_stream` of the data.
#[verifier::external_body]
fn gzip(data: &[u8]) -> (packed: Result<Vec<u8>, std::io::Error>)
    ensures
        match packed {
            Ok(bytes) => gzip_stream(data@) == Some(bytes@),
            Err(_) => gzip_stream(data@) is None,
        },
{
    let mut encoder = GzEncoder::new(Vec::new(), Compression::default());
    encoder.write_all(data)?;
    encoder.finish()
}

/// chrono's `Local::now`, printed by `format`: the local time of the call,
/// written as `format` says. Which text comes back depends on the clock and
/// the time zone, so nothing is said of it. The one format admitted is one
/// that chrono can print; it stops the process where the clock stands before
/// 1970.
#[verifier::external_body]
fn local_time(format: &str) -> (text: String)
    requires
        format@ == TIMESTAMP_FORMAT@,
{
    chrono::Local::now().format(format).to_string()
}

/// Why no archive could be made.
#[derive(Clone, Copy, Debug, PartialEq, Eq, Structural)]
pub enum ArchiveError {
    /// The snapshot could not be printed.
    Encode,
    /// The snapshot could not be compressed.
    Compress,
}

/// A file to write before a store is cleared.
#[derive(Debug)]
pub struct Archive {
    /// The name of the file.
    pub file_name: String,
    /// What the file holds.
    pub contents: Vec<u8>,
}

/// The name of the archive taken at `timestamp`.
pub open spec fn archive_name(timestamp: Seq<char>) -> Seq<char> {
    ARCHIVE_PREFIX@ + timestamp + ARCHIVE_SUFFIX@
}

/// The contents of the archive of `rows`: their snapshot, compressed.
pub open spec fn archive_contents(rows: Seq<(Seq<char>, Seq<Seq<char>>)>) -> Result<
    Seq<u8>,
    ArchiveError,
> {
    match json_text(rows) {
        None => Err(ArchiveError::Encode),
        Some(text) => match gzip_stream(encode_utf8(text)) {
            None => Err(ArchiveError::Compress),
            Some(bytes) => Ok(bytes),
        },
    }
}

/// The name of the archive taken at `timestamp`.
pub fn archive_file_name(timestamp: &str) -> (name: String)
    ensures
        name@ == archive_name(timestamp@),
{
    let mut name = ARCHIVE_PREFIX.to_owned();
    name.append(timestamp);
    name.append(ARCHIVE_SUFFIX);
    name
}

/// The snapshot of `rows`, compressed.
pub fn pack_rows(rows: &Vec<(String, Vec<String>)>) -> (packed: Result<Vec<u8>, ArchiveError>)
    ensures
        match packed {
            Ok(bytes) => archive_contents(rows.deep_view()) == Ok::<Seq<u8>, ArchiveError>(bytes@),
            Err(e) => archive_contents(rows.deep_view()) == Err::<Seq<u8>, ArchiveError>(e),
        },
{
    let text = match to_json(rows) {
        Ok(text) => text,
        Err(_) => {
            return Err(ArchiveError::Encode);
        },
    };
    match gzip(text.as_str().as_bytes()) {
        Ok(bytes) => Ok(bytes),
        Err(_) => Err(ArchiveError::Compress),
    }
}

/// Whether `plan` is what archiving `rows` at `timestamp` comes to: nothing
/// to write where there are no rows; otherwise the file with the name of
/// that time and the compressed snapshot, or the error of the step that
/// failed.
pub open spec fn is_archive_of(
    plan: Result<Option<Archive>, ArchiveError>,
    rows: Seq<(Seq<char>, Seq<Seq<char>>)>,
    timestamp: Seq<char>,
) -> bool {
    if rows.len() == 0 {
        plan == Ok::<Option<Archive>, ArchiveError>(None)
    } else {
        match archive_contents(rows) {
            Ok(bytes) => {
                &&& plan matches Ok(Some(archive))
                &&& archive.file_name@ == archive_name(timestamp)
                &&& archive.contents@ == bytes
            },
            Err(e) => plan == Err::<Option<Archive>, ArchiveError>(e),
        }
    }
}

/// An archive is made of contents only: where there are no rows there is
/// nothing to write, and where there are rows the plan is never to write
/// nothing, it is one file or an error.
pub proof fn lemma_archive_only_of_contents(
    plan: Result<Option<Archive>, ArchiveError>,
    rows: Seq<(Seq<char>, Seq<Seq<char>>)>,
    timestamp: Seq<char>,
)
    requires
        is_archive_of(plan, rows, timestamp),
    ensures
        rows.len() == 0 <==> plan == Ok::<Option<Archive>, ArchiveError>(None),
        plan matches Ok(Some(archive)) ==> {
            &&& archive.file_name@ == archive_name(timestamp)
            &&& archive_contents(rows) == Ok::<Seq<u8>, ArchiveError>(archive.contents@)
        },
{
}

/// The archive of `store` as of `timestamp`: `Ok(None)` where the store is
/// empty and there is nothing to write, else the file to write, or the
/// error of the step that failed.
pub fn build_archive(store: &Store, timestamp: &str) -> (plan: Result<
    Option<Archive>,
    ArchiveError,
>)
    ensures
        is_archive_of(plan, records(store.keys(), store@), timestamp@),
{
    if store.is_empty() {
        return Ok(None);
    }
    let rows = store.dump();
    let contents = match pack_rows(&rows) {
        Ok(bytes) => bytes,
        Err(e) => {
            return Err(e);
        },
    };
    Ok(Some(Archive { file_name: archive_file_name(timestamp), contents }))
}

/// The archive of `store` as of now, by the local clock: as `build_archive`
/// gives it for the time that was read.
pub fn archive_data(store: &Store) -> (plan: Result<Option<Archive>, ArchiveError>)
    ensures
        exists|timestamp: Seq<char>|
            is_archive_of(plan, records(store.keys(), store@), timestamp),
{
    if store.is_empty() {
        let plan = Ok(None);
        assert(is_archive_of(plan, records(store.keys(), store@), Seq::empty()));
        return plan;
    }
    let timestamp = local_time(TIMESTAMP_FORMAT);
    let plan = build_archive(store, timestamp.as_str());
    assert(is_archive_of(plan, records(store.keys(), store@), timestamp@));
    plan
}

} // verus!
