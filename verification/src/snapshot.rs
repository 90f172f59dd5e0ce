//! Source snapshot store.
//!
//! The last-known text of each watched file, keyed by its canonical path.
//! The store is populated lazily: a path with no entry is first-seen, and a
//! first-seen file is never diffed against nothing. Entries are overwritten
//! whole, and only after classification, never speculatively.
use vstd::prelude::*;

use crate::text::bytes_eq;
use crate::text::copy_range;

verus! {

/// The store's entries as a map from path to text.
pub open spec fn entries_map(s: Seq<(Vec<u8>, Vec<u8>)>) -> Map<Seq<u8>, Seq<u8>>
    decreases s.len(),
{
    if s.len() == 0 {
        Map::empty()
    } else {
        entries_map(s.drop_last()).insert(s.last().0@, s.last().1@)
    }
}

/// No two entries share a path.
pub open spec fn keys_unique(s: Seq<(Vec<u8>, Vec<u8>)>) -> bool {
    forall|i: int, j: int| 0 <= i < j < s.len() ==> (#[trigger] s[i]).0@ != (#[trigger] s[j]).0@
}

/// An entry's text is what the map holds for its path.
proof fn lemma_map_found(s: Seq<(Vec<u8>, Vec<u8>)>, i: int)
    requires
        keys_unique(s),
        0 <= i < s.len(),
    ensures
        entries_map(s).contains_key(s[i].0@),
        entries_map(s)[s[i].0@] == s[i].1@,
    decreases s.len(),
{
    if i < s.len() - 1 {
        assert(keys_unique(s.drop_last())) by {
            assert(forall|a: int, b: int|
                0 <= a < b < s.len() - 1 ==> (#[trigger] s.drop_last()[a]) == s[a]
                    && (#[trigger] s.drop_last()[b]) == s[b]);
        }
        lemma_map_found(s.drop_last(), i);
        assert(s.drop_last()[i] == s[i]);
        assert(s[i].0@ != s.last().0@);
    }
}

/// A path no entry holds is not in the map.
proof fn lemma_map_not_found(s: Seq<(Vec<u8>, Vec<u8>)>, key: Seq<u8>)
    requires
        forall|i: int| 0 <= i < s.len() ==> (#[trigger] s[i]).0@ != key,
    ensures
        !entries_map(s).contains_key(key),
    decreases s.len(),
{
    if s.len() > 0 {
        assert(forall|i: int|
            0 <= i < s.len() - 1 ==> (#[trigger] s.drop_last()[i]) == s[i]);
        lemma_map_not_found(s.drop_last(), key);
        assert(s.last() == s[s.len() - 1]);
    }
}

/// Overwriting the text of entry `i` inserts its path anew in the map.
proof fn lemma_map_update(s: Seq<(Vec<u8>, Vec<u8>)>, i: int, p: (Vec<u8>, Vec<u8>))
    requires
        keys_unique(s),
        0 <= i < s.len(),
        p.0@ == s[i].0@,
    ensures
        entries_map(s.update(i, p)) == entries_map(s).insert(p.0@, p.1@),
    decreases s.len(),
{
    let t = s.update(i, p);
    if i == s.len() - 1 {
        assert(t.drop_last() =~= s.drop_last());
        assert(t.last() == p);
        assert(entries_map(s.drop_last()).insert(p.0@, p.1@) =~= entries_map(
            s.drop_last(),
        ).insert(s.last().0@, s.last().1@).insert(p.0@, p.1@));
    } else {
        assert(keys_unique(s.drop_last())) by {
            assert(forall|a: int, b: int|
                0 <= a < b < s.len() - 1 ==> (#[trigger] s.drop_last()[a]) == s[a]
                    && (#[trigger] s.drop_last()[b]) == s[b]);
        }
        assert(s.drop_last()[i] == s[i]);
        lemma_map_update(s.drop_last(), i, p);
        assert(t.drop_last() =~= s.drop_last().update(i, p));
        assert(t.last() == s.last());
        assert(s[i].0@ != s.last().0@);
        assert(entries_map(s.drop_last()).insert(p.0@, p.1@).insert(s.last().0@, s.last().1@)
            =~= entries_map(s.drop_last()).insert(s.last().0@, s.last().1@).insert(p.0@, p.1@));
    }
}

/// Appending an entry with a fresh path inserts it in the map.
proof fn lemma_map_push(s: Seq<(Vec<u8>, Vec<u8>)>, p: (Vec<u8>, Vec<u8>))
    requires
        forall|i: int| 0 <= i < s.len() ==> (#[trigger] s[i]).0@ != p.0@,
    ensures
        entries_map(s.push(p)) == entries_map(s).insert(p.0@, p.1@),
{
    assert(s.push(p).drop_last() =~= s);
    assert(s.push(p).last() == p);
}

/// The last-known text of each watched file, keyed by path.
pub struct SnapshotStore {
    entries: Vec<(Vec<u8>, Vec<u8>)>,
}

impl View for SnapshotStore {
    type V = Map<Seq<u8>, Seq<u8>>;

    closed spec fn view(&self) -> Map<Seq<u8>, Seq<u8>> {
        entries_map(self.entries@)
    }
}

impl SnapshotStore {
    /// No two entries share a path.
    pub closed spec fn wf(&self) -> bool {
        keys_unique(self.entries@)
    }

    /// An empty store: every file is first-seen.
    pub fn new() -> (r: SnapshotStore)
        ensures
            r.wf(),
            r@ == Map::<Seq<u8>, Seq<u8>>::empty(),
    {
        SnapshotStore { entries: Vec::new() }
    }

    /// The index of the entry for `path`, if one exists.
    fn find(&self, path: &[u8]) -> (r: Option<usize>)
        ensures
            match r {
                Some(i) => i < self.entries@.len() && self.entries@[i as int].0@ == path@,
                None => forall|i: int|
                    0 <= i < self.entries@.len() ==> (#[trigger] self.entries@[i]).0@ != path@,
            },
    {
        let mut i: usize = 0;
        let n = self.entries.len();
        while i < n
            invariant
                0 <= i <= n == self.entries@.len(),
                forall|j: int| 0 <= j < i ==> (#[trigger] self.entries@[j]).0@ != path@,
            decreases n - i,
        {
            if bytes_eq(self.entries[i].0.as_slice(), path) {
                return Some(i);
            }
            i += 1;
        }
        None
    }

    /// The last-known text of `path`, or `None` where the file is
    /// first-seen.
    pub fn get(&self, path: &[u8]) -> (r: Option<&Vec<u8>>)
        requires
            self.wf(),
        ensures
            match r {
                Some(t) => self@.contains_key(path@) && self@[path@] == t@,
                None => !self@.contains_key(path@),
            },
    {
        match self.find(path) {
            Some(i) => {
                proof {
                    lemma_map_found(self.entries@, i as int);
                }
                Some(&self.entries[i].1)
            },
            None => {
                proof {
                    lemma_map_not_found(self.entries@, path@);
                }
                None
            },
        }
    }

    /// Overwrites the stored text of `path` whole, or makes the first entry
    /// for it.
    pub fn set(&mut self, path: &[u8], text: Vec<u8>)
        requires
            old(self).wf(),
        ensures
            final(self).wf(),
            final(self)@ == old(self)@.insert(path@, text@),
    {
        let key = copy_range(path, 0, path.len());
        proof {
            assert(key@ =~= path@);
        }
        match self.find(path) {
            Some(i) => {
                let ghost s = self.entries@;
                let pair = (key, text);
                proof {
                    lemma_map_update(s, i as int, pair);
                }
                self.entries.remove(i);
                self.entries.insert(i, pair);
                proof {
                    assert(self.entries@ =~= s.update(i as int, pair));
                    assert(keys_unique(self.entries@)) by {
                        assert(forall|a: int|
                            0 <= a < s.len() && a != i ==> (#[trigger] self.entries@[a]) == s[a]);
                    }
                }
            },
            None => {
                let ghost s = self.entries@;
                let pair = (key, text);
                proof {
                    lemma_map_push(s, pair);
                }
                self.entries.push(pair);
                proof {
                    assert(keys_unique(self.entries@)) by {
                        assert(forall|a: int|
                            0 <= a < s.len() ==> (#[trigger] self.entries@[a]) == s[a]);
                        assert(self.entries@[s.len() as int] == pair);
                    }
                }
            },
        }
    }
}

} // verus!
