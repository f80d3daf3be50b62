//! The extraction result: a mapping from in-archive entry name to entry
//! bytes. Names are archive-supplied path strings used verbatim; inserting a
//! name that is already present replaces its bytes, so of two same-named
//! entries the one inserted later wins.

use vstd::prelude::*;

verus! {

broadcast use vstd::set::axiom_set_insert_len;

/// The finite map described by a sequence of name/bytes pairs; a later pair
/// overrides an earlier one with the same name.
pub open spec fn pairs_to_map(s: Seq<(String, Vec<u8>)>) -> Map<Seq<char>, Seq<u8>>
    decreases s.len(),
{
    if s.len() == 0 {
        Map::empty()
    } else {
        pairs_to_map(s.drop_last()).insert(s.last().0@, s.last().1@)
    }
}

/// A name is in the map exactly when some pair carries it.
pub proof fn lemma_pairs_to_map_dom(s: Seq<(String, Vec<u8>)>, k: Seq<char>)
    ensures
        pairs_to_map(s).dom().contains(k) <==> (exists|i: int|
            0 <= i < s.len() && (#[trigger] s[i]).0@ == k),
    decreases s.len(),
{
    if s.len() == 0 {
    } else {
        let t = s.drop_last();
        lemma_pairs_to_map_dom(t, k);
        if s.last().0@ == k {
            assert(s[s.len() - 1].0@ == k);
        } else {
            if exists|i: int| 0 <= i < s.len() && (#[trigger] s[i]).0@ == k {
                let i = choose|i: int| 0 <= i < s.len() && (#[trigger] s[i]).0@ == k;
                assert(i < s.len() - 1);
                assert(t[i].0@ == k);
            }
            if exists|i: int| 0 <= i < t.len() && (#[trigger] t[i]).0@ == k {
                let i = choose|i: int| 0 <= i < t.len() && (#[trigger] t[i]).0@ == k;
                assert(s[i].0@ == k);
            }
        }
    }
}

/// The map sends a name to the bytes of its last pair.
pub proof fn lemma_pairs_to_map_get(s: Seq<(String, Vec<u8>)>, j: int)
    requires
        0 <= j < s.len(),
        forall|l: int| j < l < s.len() ==> (#[trigger] s[l]).0@ != s[j].0@,
    ensures
        pairs_to_map(s).dom().contains(s[j].0@),
        pairs_to_map(s)[s[j].0@] == s[j].1@,
    decreases s.len(),
{
    if j == s.len() - 1 {
    } else {
        let t = s.drop_last();
        assert(t[j] == s[j]);
        assert(forall|l: int| j < l < t.len() ==> (#[trigger] t[l]).0@ != t[j].0@);
        lemma_pairs_to_map_get(t, j);
        assert(s.last().0@ != s[j].0@);
    }
}

/// Removing the only pair that carries a name removes that name from the map.
pub proof fn lemma_pairs_to_map_remove(s: Seq<(String, Vec<u8>)>, j: int)
    requires
        0 <= j < s.len(),
        forall|l: int| 0 <= l < s.len() && l != j ==> (#[trigger] s[l]).0@ != s[j].0@,
    ensures
        pairs_to_map(s.remove(j)) == pairs_to_map(s).remove(s[j].0@),
    decreases s.len(),
{
    let k = s[j].0@;
    if j == s.len() - 1 {
        assert(s.remove(j) =~= s.drop_last());
        lemma_pairs_to_map_dom(s.drop_last(), k);
        assert(!pairs_to_map(s.drop_last()).dom().contains(k)) by {
            if pairs_to_map(s.drop_last()).dom().contains(k) {
                let i = choose|i: int|
                    0 <= i < s.drop_last().len() && (#[trigger] s.drop_last()[i]).0@ == k;
                assert(s[i].0@ == k);
            }
        };
        assert(pairs_to_map(s.remove(j)) =~= pairs_to_map(s).remove(k));
    } else {
        let t = s.drop_last();
        let u = s.remove(j);
        assert(u.last() == s.last());
        assert(u.drop_last() =~= t.remove(j));
        assert(forall|l: int| 0 <= l < t.len() && l != j ==> (#[trigger] t[l]).0@ != t[j].0@);
        lemma_pairs_to_map_remove(t, j);
        assert(s.last().0@ != k);
        assert(pairs_to_map(u) =~= pairs_to_map(s).remove(k));
    }
}

/// With pairwise distinct names, the map has exactly one name per pair.
pub proof fn lemma_pairs_to_map_len(s: Seq<(String, Vec<u8>)>)
    requires
        forall|i: int, j: int|
            0 <= i < j < s.len() ==> (#[trigger] s[i]).0@ != (#[trigger] s[j]).0@,
    ensures
        pairs_to_map(s).dom().finite(),
        pairs_to_map(s).dom().len() == s.len(),
    decreases s.len(),
{
    if s.len() == 0 {
        assert(pairs_to_map(s).dom() =~= Set::<Seq<char>>::empty());
    } else {
        let t = s.drop_last();
        let k = s.last().0@;
        assert(forall|i: int, j: int|
            0 <= i < j < t.len() ==> (#[trigger] t[i]).0@ != (#[trigger] t[j]).0@);
        lemma_pairs_to_map_len(t);
        lemma_pairs_to_map_dom(t, k);
        assert(!pairs_to_map(t).dom().contains(k)) by {
            if pairs_to_map(t).dom().contains(k) {
                let i = choose|i: int| 0 <= i < t.len() && (#[trigger] t[i]).0@ == k;
                assert(s[i].0@ == k);
                assert(s[s.len() - 1].0@ == k);
            }
        };
        assert(pairs_to_map(s).dom() =~= pairs_to_map(t).dom().insert(k));
    }
}

/// Mapping from entry name to entry bytes, the library's extraction result.
#[derive(Debug)]
pub struct FileMap {
    entries: Vec<(String, Vec<u8>)>,
}

impl View for FileMap {
    type V = Map<Seq<char>, Seq<u8>>;

    closed spec fn view(&self) -> Map<Seq<char>, Seq<u8>> {
        pairs_to_map(self.entries@)
    }
}

impl FileMap {
    /// The underlying name/bytes pairs, in insertion order.
    pub closed spec fn pairs(&self) -> Seq<(String, Vec<u8>)> {
        self.entries@
    }

    /// Names are pairwise distinct.
    pub closed spec fn wf(&self) -> bool {
        forall|i: int, j: int|
            0 <= i < j < self.entries@.len() ==> (#[trigger] self.entries@[i]).0@ != (
            #[trigger] self.entries@[j]).0@
    }

    /// An empty mapping.
    pub fn new() -> (r: FileMap)
        ensures
            r.wf(),
            r@ == Map::<Seq<char>, Seq<u8>>::empty(),
            r.pairs().len() == 0,
    {
        FileMap { entries: Vec::new() }
    }

    /// Number of names in the mapping.
    pub fn len(&self) -> (r: usize)
        requires
            self.wf(),
        ensures
            r == self@.dom().len(),
            r == self.pairs().len(),
    {
        proof {
            lemma_pairs_to_map_len(self.entries@);
        }
        self.entries.len()
    }

    /// The name of the pair at position `i`.
    pub fn name_at(&self, i: usize) -> (r: &String)
        requires
            i < self.pairs().len(),
        ensures
            r@ == self.pairs()[i as int].0@,
    {
        &self.entries[i].0
    }

    /// Insert a name with its bytes; an existing pair with the same name is
    /// replaced, so the later insertion wins.
    pub fn insert(&mut self, name: String, data: Vec<u8>)
        requires
            old(self).wf(),
        ensures
            final(self).wf(),
            final(self)@ == old(self)@.insert(name@, data@),
    {
        let n = self.entries.len();
        let mut i: usize = 0;
        let mut found: Option<usize> = None;
        while i < n
            invariant
                n == self.entries@.len(),
                i <= n,
                match found {
                    Some(j) => j < i && self.entries@[j as int].0@ == name@,
                    None => forall|l: int|
                        0 <= l < i ==> (#[trigger] self.entries@[l]).0@ != name@,
                },
            decreases n - i,
        {
            if found.is_none() && self.entries[i].0 == name {
                found = Some(i);
            }
            i = i + 1;
        }
        let ghost s0 = self.entries@;
        match found {
            Some(j) => {
                proof {
                    assert forall|l: int|
                        0 <= l < s0.len() && l != j implies (#[trigger] s0[l]).0@ != s0[
                        j as int].0@ by {
                        if l < j {
                            assert(s0[l].0@ != s0[j as int].0@);
                        } else {
                            assert(s0[j as int].0@ != s0[l].0@);
                        }
                    };
                    lemma_pairs_to_map_remove(s0, j as int);
                    s0.remove_ensures(j as int);
                }
                self.entries.remove(j);
                let ghost s1 = self.entries@;
                self.entries.push((name, data));
                proof {
                    assert(self.entries@.drop_last() =~= s1);
                    assert(self.entries@.last() == (name, data));
                    assert(pairs_to_map(self.entries@) =~= pairs_to_map(s0).insert(name@, data@));
                    assert forall|a: int, b: int|
                        0 <= a < b < self.entries@.len() implies (#[trigger] self.entries@[a]).0@
                        != (#[trigger] self.entries@[b]).0@ by {
                        let a0 = if a < j { a } else { a + 1 };
                        assert(self.entries@[a] == s1[a]);
                        assert(s1[a] == s0[a0]);
                        if b < self.entries@.len() - 1 {
                            let b0 = if b < j { b } else { b + 1 };
                            assert(self.entries@[b] == s1[b]);
                            assert(s1[b] == s0[b0]);
                            assert(s0[a0].0@ != s0[b0].0@);
                        } else {
                            assert(self.entries@[b].0@ == name@);
                            assert(a0 != j);
                            assert(s0[a0].0@ != s0[j as int].0@);
                        }
                    };
                }
            },
            None => {
                self.entries.push((name, data));
                proof {
                    assert(self.entries@.drop_last() =~= s0);
                    assert(self.entries@.last() == (name, data));
                    assert(pairs_to_map(self.entries@) =~= pairs_to_map(s0).insert(name@, data@));
                    assert forall|a: int, b: int|
                        0 <= a < b < self.entries@.len() implies (#[trigger] self.entries@[a]).0@
                        != (#[trigger] self.entries@[b]).0@ by {
                        assert(self.entries@[a] == s0[a]);
                        if b < self.entries@.len() - 1 {
                            assert(self.entries@[b] == s0[b]);
                        }
                    };
                }
            },
        }
    }

    /// Look a name up; `Some` exactly when the name is in the mapping.
    pub fn get(&self, name: &str) -> (r: Option<&Vec<u8>>)
        requires
            self.wf(),
        ensures
            match r {
                Some(v) => self@.dom().contains(name@) && v@ == self@[name@],
                None => !self@.dom().contains(name@),
            },
    {
        let key: String = name.to_owned();
        let n = self.entries.len();
        let mut i: usize = 0;
        while i < n
            invariant
                self.wf(),
                key@ == name@,
                n == self.entries@.len(),
                i <= n,
                forall|l: int| 0 <= l < i ==> (#[trigger] self.entries@[l]).0@ != name@,
            decreases n - i,
        {
            if self.entries[i].0 == key {
                proof {
                    lemma_pairs_to_map_get(self.entries@, i as int);
                }
                return Some(&self.entries[i].1);
            }
            i = i + 1;
        }
        proof {
            lemma_pairs_to_map_dom(self.entries@, name@);
        }
        None
    }
}

} // verus!
