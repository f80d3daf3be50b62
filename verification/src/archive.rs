//! The extraction coordinator: dispatches the declared container format to
//! its driver and returns one result mapping for the whole archive.

use crate::file_map::FileMap;
use crate::rar_driver::{extract_rar, rar_contents, rar_names, rar_wf};
use crate::select::selected;
use crate::sevenz_driver::{extract_sevenz, sevenz_contents, sevenz_names, sevenz_wf};
use crate::zip_driver::{extract_zip, zip_contents, zip_names, zip_wf};
use vstd::prelude::*;

verus! {

/// The container formats the engine knows how to open. The caller declares
/// the format; the engine performs no content sniffing.
#[derive(Clone, Copy, Debug, PartialEq, Eq, Structural)]
pub enum ArchiveType {
    Zip,
    Rar,
    SevenZ,
}

/// Failure taxonomy of one extraction call. An entry name that merely fails
/// the filter is not an error: such entries are absent from the result. No
/// unsupported-format error exists, because a format tag outside the three
/// kinds of [`ArchiveType`] cannot be written.
#[derive(Clone, Copy, Debug, PartialEq, Eq, Structural)]
pub enum ExtractError {
    /// The declared format's structural parse failed (bad header, magic or
    /// directory).
    MalformedContainer,
    /// A filesystem operation while staging or removing a temporary file
    /// failed.
    IoFailure,
    /// A matched entry's payload could not be decompressed or read to
    /// completion.
    DecodeFailure,
}

/// Whether `data` is a structurally well-formed container of format `t`.
pub open spec fn archive_wf(t: ArchiveType, data: Seq<u8>) -> bool {
    match t {
        ArchiveType::Zip => zip_wf(data),
        ArchiveType::Rar => rar_wf(data),
        ArchiveType::SevenZ => sevenz_wf(data),
    }
}

/// The entry names of `data` read as format `t`, in the order the format's
/// driver visits them.
pub open spec fn entry_names(t: ArchiveType, data: Seq<u8>) -> Seq<Seq<char>> {
    match t {
        ArchiveType::Zip => zip_names(data),
        ArchiveType::Rar => rar_names(data),
        ArchiveType::SevenZ => sevenz_names(data),
    }
}

/// The entry bytes of `data` read as format `t`, indexed as `entry_names`.
pub open spec fn entry_contents(t: ArchiveType, data: Seq<u8>) -> Seq<Seq<u8>> {
    match t {
        ArchiveType::Zip => zip_contents(data),
        ArchiveType::Rar => rar_contents(data),
        ArchiveType::SevenZ => sevenz_contents(data),
    }
}

/// Extract the wanted entries of `data`, declared to be a container of
/// format `archive_type`, into one mapping from in-archive name to entry
/// bytes. On success the mapping holds exactly the entries whose name
/// passes the filter, keyed by their archive-supplied names, a later entry
/// overriding an earlier one with the same name. Temporary files, needed
/// only by the rar driver, are created in `temp_dir` and removed on every
/// exit path. A malformed container is always reported as an error, never
/// as an empty result; for the in-memory formats success is owed whenever
/// parsing and decoding go through. For the rar format no clause owes
/// success, because its driver reaches the bytes through the filesystem,
/// whose failures cannot be excluded here.
pub fn extract_archive(data: &[u8], archive_type: ArchiveType, temp_dir: &str) -> (r: Result<
    FileMap,
    ExtractError,
>)
    ensures
        r is Ok ==> archive_wf(archive_type, data@) && r->Ok_0.wf() && r->Ok_0@ == selected(
            entry_names(archive_type, data@),
            entry_contents(archive_type, data@),
        ),
        !archive_wf(archive_type, data@) ==> r is Err,
        archive_type is Zip && crate::zip_driver::zip_extract_ok(data@) ==> r is Ok,
        archive_type is SevenZ && crate::sevenz_driver::sevenz_extract_ok(data@) ==> r is Ok,
{
    match archive_type {
        ArchiveType::Zip => extract_zip(data),
        ArchiveType::Rar => extract_rar(data, temp_dir),
        ArchiveType::SevenZ => extract_sevenz(data),
    }
}

/// For every archive and the fixed suffix set: a mapping returned by a
/// successful extraction holds a name exactly when some entry of the source
/// archive carries that name and the name ends with a wanted suffix.
pub proof fn lemma_extract_membership(
    t: ArchiveType,
    data: Seq<u8>,
    m: Map<Seq<char>, Seq<u8>>,
    name: Seq<char>,
)
    requires
        m == selected(entry_names(t, data), entry_contents(t, data)),
    ensures
        m.dom().contains(name) <==> (crate::filter::spec_wanted(name) && entry_names(
            t,
            data,
        ).contains(name)),
{
    crate::select::lemma_selected_membership(entry_names(t, data), entry_contents(t, data), name);
}

/// Of two same-named entries the later one observed during iteration wins:
/// when entry `i` of the archive passes the filter and no later entry
/// carries the same name, a successful extraction maps that name to entry
/// `i`'s bytes.
pub proof fn lemma_extract_last_wins(
    t: ArchiveType,
    data: Seq<u8>,
    m: Map<Seq<char>, Seq<u8>>,
    i: int,
)
    requires
        m == selected(entry_names(t, data), entry_contents(t, data)),
        0 <= i < entry_names(t, data).len(),
        crate::filter::spec_wanted(entry_names(t, data)[i]),
        forall|j: int|
            i < j < entry_names(t, data).len() ==> entry_names(t, data)[j] != entry_names(
                t,
                data,
            )[i],
    ensures
        m.dom().contains(entry_names(t, data)[i]),
        m[entry_names(t, data)[i]] == entry_contents(t, data)[i],
{
    crate::select::lemma_selected_last_wins(entry_names(t, data), entry_contents(t, data), i);
}

/// Extracting the same bytes as the same format twice yields equal
/// mappings whenever both calls succeed: the randomness of temporary-file
/// naming cannot show in the result.
pub proof fn lemma_extract_deterministic(
    t: ArchiveType,
    data: Seq<u8>,
    m1: Map<Seq<char>, Seq<u8>>,
    m2: Map<Seq<char>, Seq<u8>>,
)
    requires
        m1 == selected(entry_names(t, data), entry_contents(t, data)),
        m2 == selected(entry_names(t, data), entry_contents(t, data)),
    ensures
        m1 == m2,
{
}

} // verus!
