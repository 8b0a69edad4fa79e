//! The keyed store: an unordered map from string keys to entries, with
//! insert-or-overwrite and a destructive drain as its only operations.

use vstd::prelude::*;

verus! {

/// A single keyed record: a string key together with an application payload.
#[derive(Clone, Debug, PartialEq)]
pub struct Entry<T> {
    pub key: String,
    pub value: T,
}

/// The map that a window of writes leaves behind when laid over `m`:
/// each entry of `s` is inserted in order, so a later entry overrides an
/// earlier one that shares its key (last-write-wins).
pub open spec fn saved<T>(m: Map<Seq<char>, T>, s: Seq<Entry<T>>) -> Map<Seq<char>, T>
    decreases s.len(),
{
    if s.len() == 0 {
        m
    } else {
        saved(m, s.drop_last()).insert(s.last().key@, s.last().value)
    }
}

/// The map that a window of writes holds on its own: last write per key wins.
pub open spec fn entries_map<T>(s: Seq<Entry<T>>) -> Map<Seq<char>, T> {
    saved(Map::empty(), s)
}

/// No two entries of `s` share a key.
pub open spec fn distinct_keys<T>(s: Seq<Entry<T>>) -> bool {
    forall|i: int, j: int| 0 <= i < j < s.len() ==> s[i].key@ != s[j].key@
}

impl<T> Entry<T> {
    /// Builds an entry from a borrowed key and an owned payload.
    pub fn new(key: &str, value: T) -> (r: Entry<T>)
        ensures
            r.key@ == key@,
            r.value == value,
    {
        Entry { key: key.to_string(), value }
    }
}

/// An unordered keyed store. At most one entry is present per key: inserting
/// a key already present replaces the prior entry. The only read is `clear`,
/// a destructive drain that returns everything and empties the store.
#[derive(Clone)]
pub struct Cache<T> {
    entries: Vec<Entry<T>>,
}

impl<T> View for Cache<T> {
    type V = Map<Seq<char>, T>;

    /// A store is, abstractly, the map from each present key to the payload
    /// last written for it.
    closed spec fn view(&self) -> Map<Seq<char>, T> {
        entries_map(self.entries@)
    }
}

impl<T> Cache<T> {
    /// The store's internal invariant: stored entries have pairwise distinct
    /// keys, so each key owns at most one slot.
    pub closed spec fn wf(&self) -> bool {
        distinct_keys(self.entries@)
    }

    /// Creates an empty store.
    pub fn new() -> (r: Cache<T>)
        ensures
            r.wf(),
            r@ == Map::<Seq<char>, T>::empty(),
    {
        Cache { entries: Vec::new() }
    }

    /// Stores `entry` under its key, replacing any entry already held for
    /// that key. Always succeeds; the store grows without bound by design.
    pub fn insert(&mut self, entry: Entry<T>)
        requires
            old(self).wf(),
        ensures
            final(self).wf(),
            final(self)@ == old(self)@.insert(entry.key@, entry.value),
    {
        let ghost before = self.entries@;
        let mut i: usize = 0;
        while i < self.entries.len()
            invariant
                i <= self.entries.len(),
                before == old(self).entries@,
                self.entries@ == before,
                distinct_keys(before),
                forall|j: int| 0 <= j < i ==> before[j].key@ != entry.key@,
            decreases self.entries.len() - i,
        {
            if self.entries[i].key == entry.key {
                proof {
                    lemma_saved_update(Map::empty(), before, i as int, entry);
                }
                self.entries.set(i, entry);
                return ;
            }
            i += 1;
        }
        proof {
            assert(before.push(entry).drop_last() =~= before);
        }
        self.entries.push(entry);
    }

    /// Drains the store: returns every entry present, in unspecified order,
    /// and leaves the store empty. On an empty store it returns an empty
    /// batch and changes nothing.
    pub fn clear(&mut self) -> (r: Vec<Entry<T>>)
        requires
            old(self).wf(),
        ensures
            final(self).wf(),
            final(self)@ == Map::<Seq<char>, T>::empty(),
            distinct_keys(r@),
            entries_map(r@) == old(self)@,
    {
        let mut taken: Vec<Entry<T>> = Vec::new();
        std::mem::swap(&mut self.entries, &mut taken);
        taken
    }
}

/// Replacing the one entry that holds a key rewrites the stored window's
/// map exactly as an insert for that key does, whatever base map `m` the
/// window is laid on.
proof fn lemma_saved_update<T>(m: Map<Seq<char>, T>, s: Seq<Entry<T>>, i: int, e: Entry<T>)
    requires
        distinct_keys(s),
        0 <= i < s.len(),
        s[i].key@ == e.key@,
    ensures
        distinct_keys(s.update(i, e)),
        saved(m, s.update(i, e)) == saved(m, s).insert(e.key@, e.value),
    decreases s.len(),
{
    let t = s.update(i, e);
    assert(distinct_keys(t)) by {
        assert forall|p: int, q: int| 0 <= p < q < t.len() implies t[p].key@ != t[q].key@ by {
            assert(t[p].key@ == s[p].key@);
            assert(t[q].key@ == s[q].key@);
        }
    }
    if i == s.len() - 1 {
        assert(t.drop_last() =~= s.drop_last());
        assert(saved(m, s).insert(e.key@, e.value) =~= saved(m, s.drop_last()).insert(
            e.key@,
            e.value,
        ));
    } else {
        assert(t.drop_last() =~= s.drop_last().update(i, e));
        lemma_saved_update(m, s.drop_last(), i, e);
        // the last entry's key differs from e's, so the two inserts commute
        assert(s.last().key@ != e.key@);
        assert(saved(m, s.drop_last()).insert(e.key@, e.value).insert(
            s.last().key@,
            s.last().value,
        ) =~= saved(m, s.drop_last()).insert(s.last().key@, s.last().value).insert(
            e.key@,
            e.value,
        ));
    }
}

} // verus!
