//! The abstract meaning of one extraction pass: walk the archive's entries in
//! order, keep the entries whose name passes the filter, and let a later
//! entry override an earlier one with the same name.

use crate::filter::spec_wanted;
use vstd::prelude::*;

verus! {

/// The mapping produced by the first `n` entries of an archive whose entry
/// names are `names` and whose entry bytes are `contents`.
pub open spec fn selected_upto(
    names: Seq<Seq<char>>,
    contents: Seq<Seq<u8>>,
    n: int,
) -> Map<Seq<char>, Seq<u8>>
    decreases n,
{
    if n <= 0 {
        Map::empty()
    } else {
        let prev = selected_upto(names, contents, n - 1);
        if spec_wanted(names[n - 1]) {
            prev.insert(names[n - 1], contents[n - 1])
        } else {
            prev
        }
    }
}

/// The mapping produced by a whole extraction pass.
pub open spec fn selected(names: Seq<Seq<char>>, contents: Seq<Seq<u8>>) -> Map<
    Seq<char>,
    Seq<u8>,
> {
    selected_upto(names, contents, names.len() as int)
}

proof fn lemma_selected_upto_membership(
    names: Seq<Seq<char>>,
    contents: Seq<Seq<u8>>,
    n: int,
    name: Seq<char>,
)
    requires
        0 <= n <= names.len(),
    ensures
        selected_upto(names, contents, n).dom().contains(name) <==> (spec_wanted(name) && exists|
            i: int,
        | 0 <= i < n && names[i] == name),
    decreases n,
{
    if n == 0 {
    } else {
        lemma_selected_upto_membership(names, contents, n - 1, name);
        if names[n - 1] == name && spec_wanted(name) {
            assert(0 <= n - 1 < n && names[n - 1] == name);
            assert(selected_upto(names, contents, n).dom().contains(name));
        } else {
            if spec_wanted(name) && exists|i: int| 0 <= i < n && names[i] == name {
                let i = choose|i: int| 0 <= i < n && names[i] == name;
                assert(i != n - 1);
                assert(0 <= i < n - 1 && names[i] == name);
            }
        }
    }
}

/// The selection holds a name exactly when the name passes the filter and
/// some entry of the archive carries it: no wanted entry is dropped and no
/// unwanted or absent name appears.
pub proof fn lemma_selected_membership(
    names: Seq<Seq<char>>,
    contents: Seq<Seq<u8>>,
    name: Seq<char>,
)
    ensures
        selected(names, contents).dom().contains(name) <==> (spec_wanted(name) && names.contains(
            name,
        )),
{
    lemma_selected_upto_membership(names, contents, names.len() as int, name);
}

proof fn lemma_selected_upto_last_wins(
    names: Seq<Seq<char>>,
    contents: Seq<Seq<u8>>,
    i: int,
    n: int,
)
    requires
        0 <= i < n <= names.len(),
        spec_wanted(names[i]),
        forall|j: int| i < j < n ==> names[j] != names[i],
    ensures
        selected_upto(names, contents, n).dom().contains(names[i]),
        selected_upto(names, contents, n)[names[i]] == contents[i],
    decreases n,
{
    if n == i + 1 {
    } else {
        assert(names[n - 1] != names[i]);
        lemma_selected_upto_last_wins(names, contents, i, n - 1);
    }
}

/// Of two same-named wanted entries the later one wins: if entry `i` is
/// wanted and no later entry carries the same name, the selection sends that
/// name to the bytes of entry `i`.
pub proof fn lemma_selected_last_wins(names: Seq<Seq<char>>, contents: Seq<Seq<u8>>, i: int)
    requires
        0 <= i < names.len(),
        spec_wanted(names[i]),
        forall|j: int| i < j < names.len() ==> names[j] != names[i],
    ensures
        selected(names, contents).dom().contains(names[i]),
        selected(names, contents)[names[i]] == contents[i],
{
    lemma_selected_upto_last_wins(names, contents, i, names.len() as int);
}

} // verus!
