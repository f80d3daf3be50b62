//! Driver for the in-memory sequential-entries container kind: a 7z archive
//! is read in one whole-archive decode pass that visits every entry once.
//! The visit cannot be resumed or reordered from outside, so one trusted
//! pass yields each entry's name together with the bytes of the wanted
//! entries, and the verified code folds that listing into the result
//! mapping. A single decode failure anywhere aborts the whole pass.

use crate::archive::ExtractError;
use crate::file_map::FileMap;
use crate::filter::{is_wanted, spec_wanted};
use crate::select::{selected, selected_upto};
use std::io::Read;
use vstd::prelude::*;

verus! {

/// Whether the 7z header tables of `data` parse with an empty password.
pub uninterp spec fn sevenz_wf(data: Seq<u8>) -> bool;

/// The entry names of `data` in visit order: the decode pass walks the
/// entries with payload block by block and the payloadless entries after
/// them.
pub uninterp spec fn sevenz_names(data: Seq<u8>) -> Seq<Seq<char>>;

/// The bytes the decode pass yields for each entry of `data`, indexed as
/// `sevenz_names`.
pub uninterp spec fn sevenz_contents(data: Seq<u8>) -> Seq<Seq<u8>>;

/// Whether the fixed-filter decode pass over `data` runs to completion.
/// The pass reads an in-memory copy with the one filter the library has,
/// so this is a function of the bytes alone.
pub uninterp spec fn sevenz_decode_ok(data: Seq<u8>) -> bool;

/// The conditions under which extraction is owed success: the header
/// tables parse and the decode pass completes.
pub open spec fn sevenz_extract_ok(data: Seq<u8>) -> bool {
    sevenz_wf(data) && sevenz_decode_ok(data)
}

/// Relies on sevenz_rust::SevenZReader::new and
/// sevenz_rust::SevenZReader::for_each_entries: one decode pass over the
/// archive. The visitor closure decides with the library's own filter
/// predicate `is_wanted` and reads at most the entry's declared size from
/// the per-entry bounded reader, so an unwanted entry is never copied; it
/// returns `true` after every entry to keep the pass going. The pass is a
/// function of the input bytes alone.
#[verifier::external_body]
fn sevenz_walk(data: &[u8]) -> (r: Result<Vec<(String, Option<Vec<u8>>)>, ExtractError>)
    ensures
        r is Ok <==> (sevenz_wf(data@) && sevenz_decode_ok(data@)),
        !sevenz_wf(data@) ==> r is Err && r->Err_0 == ExtractError::MalformedContainer,
        sevenz_wf(data@) && r is Err ==> r->Err_0 == ExtractError::DecodeFailure,
        r is Ok ==> r->Ok_0@.len() == sevenz_names(data@).len(),
        r is Ok ==> forall|i: int|
            0 <= i < r->Ok_0@.len() ==> (#[trigger] r->Ok_0@[i]).0@ == sevenz_names(data@)[i],
        r is Ok ==> forall|i: int|
            0 <= i < r->Ok_0@.len() ==> (((#[trigger] r->Ok_0@[i]).1 is Some) <==> spec_wanted(
                sevenz_names(data@)[i],
            )),
        r is Ok ==> forall|i: int|
            0 <= i < r->Ok_0@.len() ==> ((#[trigger] r->Ok_0@[i]).1 is Some ==> r->Ok_0@[i].1->0@
                == sevenz_contents(data@)[i]),
{
    let pw = sevenz_rust::Password::empty();
    let mut rd = sevenz_rust::SevenZReader::new(std::io::Cursor::new(data), data.len() as u64, pw)
        .map_err(|_| ExtractError::MalformedContainer)?;
    let mut out: Vec<(String, Option<Vec<u8>>)> = Vec::new();
    rd.for_each_entries(|entry, reader| {
        let mut picked = None;
        if crate::filter::is_wanted(&entry.name) {
            let mut buf: Vec<u8> = Vec::new();
            reader.take(entry.size()).read_to_end(&mut buf).map_err(sevenz_rust::Error::io)?;
            picked = Some(buf);
        }
        out.push((entry.name.clone(), picked));
        Ok(true)
    }).map_err(|_| ExtractError::DecodeFailure)?;
    Ok(out)
}

/// Extract the wanted entries of a 7z archive held in memory. The pass is
/// all-or-nothing: a decode failure discards entries already visited.
/// Success is owed whenever the header tables parse and the decode pass
/// completes; errors come only from those failures.
pub fn extract_sevenz(data: &[u8]) -> (r: Result<FileMap, ExtractError>)
    ensures
        r is Ok ==> sevenz_wf(data@) && r->Ok_0.wf() && r->Ok_0@ == selected(
            sevenz_names(data@),
            sevenz_contents(data@),
        ),
        !sevenz_wf(data@) ==> r is Err,
        sevenz_extract_ok(data@) ==> r is Ok,
{
    let mut rest = match sevenz_walk(data) {
        Ok(v) => v,
        Err(e) => return Err(e),
    };
    let ghost all = rest@;
    let n = rest.len();
    let mut out = FileMap::new();
    let mut i: usize = 0;
    while rest.len() > 0
        invariant
            sevenz_wf(data@),
            all.len() == n,
            all.len() == sevenz_names(data@).len(),
            i + rest@.len() == all.len(),
            rest@ == all.subrange(i as int, all.len() as int),
            out.wf(),
            out@ == selected_upto(sevenz_names(data@), sevenz_contents(data@), i as int),
            forall|k: int|
                0 <= k < all.len() ==> (#[trigger] all[k]).0@ == sevenz_names(data@)[k],
            forall|k: int|
                0 <= k < all.len() ==> (((#[trigger] all[k]).1 is Some) <==> spec_wanted(
                    sevenz_names(data@)[k],
                )),
            forall|k: int|
                0 <= k < all.len() ==> ((#[trigger] all[k]).1 is Some ==> all[k].1->0@
                    == sevenz_contents(data@)[k]),
        decreases rest@.len(),
    {
        let ghost prev = rest@;
        let pair = rest.remove(0);
        proof {
            assert(pair == all[i as int]);
            assert(rest@ =~= all.subrange(i as int + 1, all.len() as int)) by {
                prev.remove_ensures(0);
            };
        }
        let (name, picked) = pair;
        match picked {
            Some(bytes) => {
                out.insert(name, bytes);
            },
            None => {},
        }
        i = i + 1;
    }
    Ok(out)
}

} // verus!
