//! Driver for the indexed, random-access container kind: the zip central
//! directory gives direct access to every entry by position, so unwanted
//! entries are passed over without decompression and no temporary files are
//! needed.

use crate::archive::ExtractError;
use crate::file_map::FileMap;
use crate::filter::{is_wanted, spec_wanted};
use crate::select::{selected, selected_upto};
use vstd::prelude::*;

verus! {

/// Whether the zip central directory of `data` parses.
pub uninterp spec fn zip_wf(data: Seq<u8>) -> bool;

/// The entry names of `data` in directory order, as the zip reader reports
/// them (one per distinct name; the reader collapses a repeated name onto
/// the later of its entries).
pub uninterp spec fn zip_names(data: Seq<u8>) -> Seq<Seq<char>>;

/// The decompressed bytes of each entry of `data`, indexed as `zip_names`.
pub uninterp spec fn zip_contents(data: Seq<u8>) -> Seq<Seq<u8>>;

/// Whether the reader yields entry `i`'s record from the directory of
/// `data`. The whole parse runs over an in-memory copy of the bytes, so
/// this is a function of the bytes and the index alone.
pub uninterp spec fn zip_entry_meta_ok(data: Seq<u8>, i: int) -> bool;

/// Whether entry `i` of `data` decompresses to completion, checksum
/// included; a function of the bytes and the index alone.
pub uninterp spec fn zip_entry_read_ok(data: Seq<u8>, i: int) -> bool;

/// The conditions under which extraction is owed success: the directory
/// parses, every entry's record reads, and every wanted entry decompresses.
pub open spec fn zip_extract_ok(data: Seq<u8>) -> bool {
    &&& zip_wf(data)
    &&& forall|i: int| 0 <= i < zip_names(data).len() ==> #[trigger] zip_entry_meta_ok(data, i)
    &&& forall|i: int|
        0 <= i < zip_names(data).len() && spec_wanted(zip_names(data)[i])
            ==> #[trigger] zip_entry_read_ok(data, i)
}

/// An opened zip archive over an in-memory copy of the input bytes.
#[verifier::external_body]
pub struct ZipIndex {
    inner: zip::ZipArchive<std::io::Cursor<Vec<u8>>>,
}

/// The bytes the index was opened over.
pub uninterp spec fn zip_index_bytes(z: ZipIndex) -> Seq<u8>;

/// Relies on zip::ZipArchive::new: parses the central directory of the given
/// bytes and succeeds exactly on structurally well-formed input.
#[verifier::external_body]
fn zip_open(data: &[u8]) -> (r: Result<ZipIndex, ExtractError>)
    ensures
        r is Ok <==> zip_wf(data@),
        r is Ok ==> zip_index_bytes(r->Ok_0) == data@,
        r is Err ==> r->Err_0 == ExtractError::MalformedContainer,
{
    match zip::ZipArchive::new(std::io::Cursor::new(data.to_vec())) {
        Ok(a) => Ok(ZipIndex { inner: a }),
        Err(_) => Err(ExtractError::MalformedContainer),
    }
}

/// Relies on zip::ZipArchive::len: the number of entries in the directory.
#[verifier::external_body]
fn zip_len(z: &ZipIndex) -> (n: usize)
    ensures
        n == zip_names(zip_index_bytes(*z)).len(),
{
    z.inner.len()
}

/// Relies on zip::ZipArchive::by_index and zip::read::ZipFile::name: yields
/// entry `i`'s name without reading its payload.
#[verifier::external_body]
fn zip_entry_name(z: &mut ZipIndex, i: usize) -> (r: Result<String, ExtractError>)
    requires
        i < zip_names(zip_index_bytes(*old(z))).len(),
    ensures
        zip_index_bytes(*final(z)) == zip_index_bytes(*old(z)),
        r is Ok <==> zip_entry_meta_ok(zip_index_bytes(*old(z)), i as int),
        r is Ok ==> r->Ok_0@ == zip_names(zip_index_bytes(*old(z)))[i as int],
        r is Err ==> r->Err_0 == ExtractError::MalformedContainer,
{
    match z.inner.by_index(i) {
        Ok(f) => Ok(f.name().to_string()),
        Err(_) => Err(ExtractError::MalformedContainer),
    }
}

/// Relies on zip::ZipArchive::by_index and the zip entry reader's
/// std::io::Read implementation: decompresses entry `i` fully into memory.
#[verifier::external_body]
fn zip_read_entry(z: &mut ZipIndex, i: usize) -> (r: Result<Vec<u8>, ExtractError>)
    requires
        i < zip_names(zip_index_bytes(*old(z))).len(),
    ensures
        zip_index_bytes(*final(z)) == zip_index_bytes(*old(z)),
        r is Ok <==> zip_entry_read_ok(zip_index_bytes(*old(z)), i as int),
        r is Ok ==> r->Ok_0@ == zip_contents(zip_index_bytes(*old(z)))[i as int],
        r is Err ==> (r->Err_0 == ExtractError::MalformedContainer || r->Err_0
            == ExtractError::DecodeFailure),
{
    let mut f = match z.inner.by_index(i) {
        Ok(f) => f,
        Err(_) => return Err(ExtractError::MalformedContainer),
    };
    let mut buf: Vec<u8> = Vec::new();
    match std::io::Read::read_to_end(&mut f, &mut buf) {
        Ok(_) => Ok(buf),
        Err(_) => Err(ExtractError::DecodeFailure),
    }
}

/// Extract the wanted entries of a zip archive held in memory. Success is
/// owed whenever the directory parses, every record reads and every wanted
/// entry decompresses; errors come only from those failures.
pub fn extract_zip(data: &[u8]) -> (r: Result<FileMap, ExtractError>)
    ensures
        r is Ok ==> zip_wf(data@) && r->Ok_0.wf() && r->Ok_0@ == selected(
            zip_names(data@),
            zip_contents(data@),
        ),
        !zip_wf(data@) ==> r is Err,
        zip_extract_ok(data@) ==> r is Ok,
{
    let mut z = match zip_open(data) {
        Ok(z) => z,
        Err(e) => return Err(e),
    };
    let n = zip_len(&z);
    let mut out = FileMap::new();
    let mut i: usize = 0;
    while i < n
        invariant
            zip_wf(data@),
            zip_index_bytes(z) == data@,
            n == zip_names(data@).len(),
            i <= n,
            out.wf(),
            out@ == selected_upto(zip_names(data@), zip_contents(data@), i as int),
        decreases n - i,
    {
        let name = match zip_entry_name(&mut z, i) {
            Ok(s) => s,
            Err(e) => {
                proof {
                    assert(!zip_entry_meta_ok(data@, i as int));
                }
                return Err(e);
            },
        };
        if is_wanted(name.as_str()) {
            let bytes = match zip_read_entry(&mut z, i) {
                Ok(b) => b,
                Err(e) => {
                    proof {
                        assert(spec_wanted(zip_names(data@)[i as int]));
                        assert(!zip_entry_read_ok(data@, i as int));
                    }
                    return Err(e);
                },
            };
            out.insert(name, bytes);
        }
        i = i + 1;
    }
    Ok(out)
}

} // verus!
