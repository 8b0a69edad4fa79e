//! Laws of the drain windows: what a sequence of writes leaves behind, how
//! windows compose, and why nothing is lost or duplicated.

use vstd::prelude::*;

use crate::cache::{Entry, distinct_keys, entries_map, saved};

verus! {

/// Some entry of `s` carries the key `k`.
pub open spec fn has_key<T>(s: Seq<Entry<T>>, k: Seq<char>) -> bool {
    exists|i: int| 0 <= i < s.len() && s[i].key@ == k
}

/// The position of the last entry of `s` that carries the key `k`
/// (meaningful only when `has_key(s, k)` holds).
pub open spec fn last_index_of<T>(s: Seq<Entry<T>>, k: Seq<char>) -> int
    decreases s.len(),
{
    if s.len() == 0 {
        0
    } else if s.last().key@ == k {
        s.len() - 1
    } else {
        last_index_of(s.drop_last(), k)
    }
}

/// Completeness and last-write-wins: for every key written somewhere in the
/// window `s`, the window's map holds exactly the value of the last write
/// for that key; a key never written keeps whatever the base map `m` held.
pub proof fn lemma_saved_last_write<T>(m: Map<Seq<char>, T>, s: Seq<Entry<T>>, k: Seq<char>)
    ensures
        has_key(s, k) ==> {
            let i = last_index_of(s, k);
            &&& 0 <= i < s.len()
            &&& s[i].key@ == k
            &&& (forall|j: int| i < j < s.len() ==> s[j].key@ != k)
            &&& saved(m, s).contains_key(k)
            &&& saved(m, s)[k] == s[i].value
        },
        !has_key(s, k) ==> {
            &&& (saved(m, s).contains_key(k) <==> m.contains_key(k))
            &&& (m.contains_key(k) ==> saved(m, s)[k] == m[k])
        },
    decreases s.len(),
{
    if s.len() == 0 {
        assert(!has_key(s, k));
    } else {
        let d = s.drop_last();
        lemma_saved_last_write(m, d, k);
        assert(forall|j: int| 0 <= j < d.len() ==> d[j] == s[j]);
        if s.last().key@ == k {
            assert(has_key(s, k)) by {
                assert(s[s.len() - 1].key@ == k);
            }
        } else {
            if has_key(s, k) {
                let w = choose|i: int| 0 <= i < s.len() && s[i].key@ == k;
                assert(w < s.len() - 1);
                assert(has_key(d, k)) by {
                    assert(d[w].key@ == k);
                }
            }
            if has_key(d, k) {
                let w = choose|i: int| 0 <= i < d.len() && d[i].key@ == k;
                assert(has_key(s, k)) by {
                    assert(s[w].key@ == k);
                }
            }
        }
    }
}

/// A window laid over a base map changes exactly the keys the window
/// writes: the result is the base map overridden by the window's own map.
pub proof fn lemma_saved_is_union<T>(m: Map<Seq<char>, T>, s: Seq<Entry<T>>)
    ensures
        saved(m, s) == m.union_prefer_right(entries_map(s)),
    decreases s.len(),
{
    if s.len() == 0 {
        assert(saved(m, s) =~= m.union_prefer_right(entries_map(s)));
    } else {
        let d = s.drop_last();
        lemma_saved_is_union(m, d);
        assert(saved(m, s) =~= m.union_prefer_right(entries_map(s)));
    }
}

/// Splitting a window in two and laying the parts on in turn gives the same
/// map as laying on the whole window at once.
pub proof fn lemma_saved_append<T>(m: Map<Seq<char>, T>, s1: Seq<Entry<T>>, s2: Seq<Entry<T>>)
    ensures
        saved(m, s1 + s2) == saved(saved(m, s1), s2),
    decreases s2.len(),
{
    if s2.len() == 0 {
        assert(s1 + s2 =~= s1);
    } else {
        let d = s2.drop_last();
        lemma_saved_append(m, s1, d);
        assert((s1 + s2).drop_last() =~= s1 + d);
        assert((s1 + s2).last() == s2.last());
    }
}

/// No loss and no duplication across reads: what one combined window would
/// hold is exactly the second window's drain laid over the first window's
/// drain — the two non-overlapping drains together account for every write,
/// and each key's surviving value comes from exactly one of them.
pub proof fn lemma_windows_union<T>(s1: Seq<Entry<T>>, s2: Seq<Entry<T>>)
    ensures
        entries_map(s1 + s2) == entries_map(s1).union_prefer_right(entries_map(s2)),
{
    lemma_saved_append(Map::empty(), s1, s2);
    lemma_saved_is_union(entries_map(s1), s2);
}

/// Drain-empties: a drained batch whose window holds nothing is itself
/// empty, so a `read` right after a `read` returns no entries.
pub proof fn lemma_empty_window_empty_batch<T>(s: Seq<Entry<T>>)
    requires
        entries_map(s) == Map::<Seq<char>, T>::empty(),
    ensures
        s == Seq::<Entry<T>>::empty(),
{
    if s.len() > 0 {
        assert(entries_map(s).contains_key(s.last().key@));
        assert(false);
    }
    assert(s =~= Seq::<Entry<T>>::empty());
}

/// Overwrite collapse: two writes to one key, in one window, leave exactly
/// what the second write alone would leave — one binding, the later value.
pub proof fn lemma_overwrite_collapse<T>(m: Map<Seq<char>, T>, e1: Entry<T>, e2: Entry<T>)
    requires
        e1.key@ == e2.key@,
    ensures
        saved(m, seq![e1, e2]) == saved(m, seq![e2]),
{
    let s = seq![e1, e2];
    assert(s.drop_last() =~= seq![e1]);
    assert(seq![e1].drop_last() =~= Seq::<Entry<T>>::empty());
    assert(seq![e2].drop_last() =~= Seq::<Entry<T>>::empty());
    assert(saved(m, Seq::<Entry<T>>::empty()) == m);
    assert(saved(m, seq![e1]) == m.insert(e1.key@, e1.value));
    assert(saved(m, seq![e2]) == m.insert(e2.key@, e2.value));
    assert(saved(m, s) == m.insert(e1.key@, e1.value).insert(e2.key@, e2.value));
    assert(m.insert(e1.key@, e1.value).insert(e2.key@, e2.value) =~= m.insert(
        e2.key@,
        e2.value,
    ));
}

/// Entries with pairwise distinct keys are neither lost nor merged: the
/// window's map binds exactly one key per entry written.
pub proof fn lemma_distinct_keys_count<T>(s: Seq<Entry<T>>)
    requires
        distinct_keys(s),
    ensures
        entries_map(s).dom().finite(),
        entries_map(s).dom().len() == s.len(),
    decreases s.len(),
{
    if s.len() > 0 {
        let d = s.drop_last();
        assert(distinct_keys(d)) by {
            assert(forall|j: int| 0 <= j < d.len() ==> d[j] == s[j]);
        }
        lemma_distinct_keys_count(d);
        let k = s.last().key@;
        assert(!entries_map(d).contains_key(k)) by {
            lemma_saved_last_write(Map::<Seq<char>, T>::empty(), d, k);
            if has_key(d, k) {
                let w = choose|i: int| 0 <= i < d.len() && d[i].key@ == k;
                assert(s[w].key@ == s[s.len() - 1].key@);
                assert(false);
            }
        }
        assert(entries_map(s).dom() =~= entries_map(d).dom().insert(k));
    }
}

} // verus!
