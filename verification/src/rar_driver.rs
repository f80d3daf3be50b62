//! Driver for the sequential header-stream container kind: the rar library
//! walks headers through a cursor that is consumed and returned by every
//! call, and it can only open archives from the filesystem. The input bytes
//! are therefore staged to a uniquely named temporary file first; entry
//! payloads are read straight into memory. The staging file is removed on
//! every exit path: explicitly on the success path, and by its owner's drop
//! when an error leaves the function early.

use crate::archive::ExtractError;
use crate::file_map::FileMap;
use crate::filter::is_wanted;
use crate::select::{selected, selected_upto};
use vstd::prelude::*;

verus! {

/// Whether the rar library opens a file holding `data` for processing.
pub uninterp spec fn rar_wf(data: Seq<u8>) -> bool;

/// The entry names of an archive holding `data`, in header order, as the
/// rar library reports them.
pub uninterp spec fn rar_names(data: Seq<u8>) -> Seq<Seq<char>>;

/// The unpacked bytes of each entry of `data`, indexed as `rar_names`.
pub uninterp spec fn rar_contents(data: Seq<u8>) -> Seq<Seq<u8>>;

/// A temporary file holding one extraction call's input bytes. The file is
/// created with a collision-resistant random name and is deleted when this
/// value is dropped, so an early exit cannot leak it.
#[verifier::external_body]
pub struct StagedFile {
    file: tempfile::NamedTempFile,
}

/// The bytes the staging file holds.
pub uninterp spec fn staged_bytes(f: StagedFile) -> Seq<u8>;

/// A cursor standing before the header of entry `rar_cursor_pos` of an open
/// archive.
#[verifier::external_body]
pub struct RarCursor {
    inner: unrar::OpenArchive<unrar::Process, unrar::CursorBeforeHeader>,
}

/// The staged bytes the cursor's archive was opened over.
pub uninterp spec fn rar_cursor_bytes(c: RarCursor) -> Seq<u8>;

/// The number of headers already consumed by the cursor.
pub uninterp spec fn rar_cursor_pos(c: RarCursor) -> nat;

/// A cursor standing on an entry whose header was just read and whose
/// payload must be read or skipped next.
#[verifier::external_body]
pub struct RarEntry {
    inner: unrar::OpenArchive<unrar::Process, unrar::CursorBeforeFile>,
}

/// The staged bytes the entry's archive was opened over.
pub uninterp spec fn rar_entry_bytes(e: RarEntry) -> Seq<u8>;

/// The index of the entry the cursor stands on.
pub uninterp spec fn rar_entry_pos(e: RarEntry) -> nat;

/// Relies on tempfile::Builder::tempfile_in and std::io::Write::write_all:
/// creates a uniquely named file in `dir` holding exactly `data`; the file
/// is removed when the returned value is dropped.
#[verifier::external_body]
fn stage_to_temp(data: &[u8], dir: &str) -> (r: Result<StagedFile, ExtractError>)
    ensures
        r is Ok ==> staged_bytes(r->Ok_0) == data@,
        r is Err ==> r->Err_0 == ExtractError::IoFailure,
{
    let mut file = match tempfile::Builder::new().prefix("skindl-").suffix(".tmp").tempfile_in(dir)
    {
        Ok(f) => f,
        Err(_) => return Err(ExtractError::IoFailure),
    };
    match std::io::Write::write_all(file.as_file_mut(), data) {
        Ok(()) => Ok(StagedFile { file }),
        Err(_) => Err(ExtractError::IoFailure),
    }
}

/// Relies on tempfile::NamedTempFile::close: removes the staging file and
/// reports a filesystem failure to do so.
#[verifier::external_body]
fn close_staged(staged: StagedFile) -> (r: Result<(), ExtractError>)
    ensures
        r is Err ==> r->Err_0 == ExtractError::IoFailure,
{
    match staged.file.close() {
        Ok(()) => Ok(()),
        Err(_) => Err(ExtractError::IoFailure),
    }
}

/// Relies on unrar::Archive::new and unrar::Archive::open_for_processing:
/// opens the staged file. The library's file-open error code is reported
/// as an I/O failure, any other failure as a malformed container; success
/// is owed to nobody, since opening goes through the filesystem. The
/// staged file's path comes from the temp-file builder and so holds no
/// interior nul, which open_for_processing would refuse.
#[verifier::external_body]
fn rar_open(staged: &StagedFile) -> (r: Result<RarCursor, ExtractError>)
    ensures
        r is Ok ==> rar_wf(staged_bytes(*staged)),
        r is Ok ==> rar_cursor_bytes(r->Ok_0) == staged_bytes(*staged) && rar_cursor_pos(r->Ok_0)
            == 0,
        r is Err ==> (r->Err_0 == ExtractError::MalformedContainer || r->Err_0
            == ExtractError::IoFailure),
{
    match unrar::Archive::new(staged.file.path()).open_for_processing() {
        Ok(a) => Ok(RarCursor { inner: a }),
        Err(e) => Err(match e.code {
            unrar::error::Code::EOpen | unrar::error::Code::ERead => ExtractError::IoFailure,
            _ => ExtractError::MalformedContainer,
        }),
    }
}

/// Relies on unrar::OpenArchive::read_header and the header's filename
/// field: consumes the cursor and either ends the walk or yields the next
/// entry's name (its in-archive path, decoded lossily) with the cursor
/// standing on that entry.
#[verifier::external_body]
fn rar_read_header(cur: RarCursor) -> (r: Result<Option<(String, RarEntry)>, ExtractError>)
    ensures
        r is Ok && r->Ok_0 is Some ==> {
            let pair = r->Ok_0->0;
            &&& rar_cursor_pos(cur) < rar_names(rar_cursor_bytes(cur)).len()
            &&& pair.0@ == rar_names(rar_cursor_bytes(cur))[rar_cursor_pos(cur) as int]
            &&& rar_entry_bytes(pair.1) == rar_cursor_bytes(cur)
            &&& rar_entry_pos(pair.1) == rar_cursor_pos(cur)
        },
        r is Ok && r->Ok_0 is None ==> rar_cursor_pos(cur) == rar_names(
            rar_cursor_bytes(cur),
        ).len(),
        r is Err ==> r->Err_0 == ExtractError::MalformedContainer,
{
    match cur.inner.read_header() {
        Ok(Some(a)) => {
            let name = a.entry().filename.to_string_lossy().to_string();
            Ok(Some((name, RarEntry { inner: a })))
        },
        Ok(None) => Ok(None),
        Err(_) => Err(ExtractError::MalformedContainer),
    }
}

/// Relies on unrar::OpenArchive::skip: passes over the entry's payload
/// without unpacking it and stands before the next header.
#[verifier::external_body]
fn rar_skip(entry: RarEntry) -> (r: Result<RarCursor, ExtractError>)
    ensures
        r is Ok ==> rar_cursor_bytes(r->Ok_0) == rar_entry_bytes(entry) && rar_cursor_pos(r->Ok_0)
            == rar_entry_pos(entry) + 1,
        r is Err ==> r->Err_0 == ExtractError::DecodeFailure,
{
    match entry.inner.skip() {
        Ok(a) => Ok(RarCursor { inner: a }),
        Err(_) => Err(ExtractError::DecodeFailure),
    }
}

/// Relies on unrar::OpenArchive::read: unpacks the entry's payload into
/// memory and stands before the next header.
#[verifier::external_body]
fn rar_read_data(entry: RarEntry) -> (r: Result<(Vec<u8>, RarCursor), ExtractError>)
    ensures
        r is Ok ==> {
            let pair = r->Ok_0;
            &&& pair.0@ == rar_contents(rar_entry_bytes(entry))[rar_entry_pos(entry) as int]
            &&& rar_cursor_bytes(pair.1) == rar_entry_bytes(entry)
            &&& rar_cursor_pos(pair.1) == rar_entry_pos(entry) + 1
        },
        r is Err ==> r->Err_0 == ExtractError::DecodeFailure,
{
    match entry.inner.read() {
        Ok((bytes, a)) => Ok((bytes, RarCursor { inner: a })),
        Err(_) => Err(ExtractError::DecodeFailure),
    }
}

/// Extract the wanted entries of a rar archive held in memory, staging the
/// bytes to a temporary file in `temp_dir` because the rar library reads
/// only from the filesystem. Headers are walked strictly in archive order;
/// the staging file is removed on every exit path.
pub fn extract_rar(data: &[u8], temp_dir: &str) -> (r: Result<FileMap, ExtractError>)
    ensures
        r is Ok ==> rar_wf(data@) && r->Ok_0.wf() && r->Ok_0@ == selected(
            rar_names(data@),
            rar_contents(data@),
        ),
        !rar_wf(data@) ==> r is Err,
{
    let staged = match stage_to_temp(data, temp_dir) {
        Ok(f) => f,
        Err(e) => return Err(e),
    };
    let mut cur = match rar_open(&staged) {
        Ok(c) => c,
        Err(e) => return Err(e),
    };
    let mut out = FileMap::new();
    loop
        invariant
            rar_wf(data@),
            rar_cursor_bytes(cur) == data@,
            rar_cursor_pos(cur) <= rar_names(data@).len(),
            out.wf(),
            out@ == selected_upto(rar_names(data@), rar_contents(data@), rar_cursor_pos(cur) as int),
        ensures
            out.wf(),
            out@ == selected(rar_names(data@), rar_contents(data@)),
        decreases rar_names(data@).len() - rar_cursor_pos(cur),
    {
        let step = match rar_read_header(cur) {
            Ok(s) => s,
            Err(e) => return Err(e),
        };
        match step {
            None => {
                break;
            },
            Some((name, entry)) => {
                if is_wanted(name.as_str()) {
                    let (bytes, next) = match rar_read_data(entry) {
                        Ok(p) => p,
                        Err(e) => return Err(e),
                    };
                    out.insert(name, bytes);
                    cur = next;
                } else {
                    cur = match rar_skip(entry) {
                        Ok(c) => c,
                        Err(e) => return Err(e),
                    };
                }
            },
        }
    }
    match close_staged(staged) {
        Ok(()) => Ok(out),
        Err(e) => Err(e),
    }
}

} // verus!
