//! The double buffer: two keyed stores whose write-target and drain-target
//! roles are swapped on every read.

use vstd::prelude::*;

use crate::cache::{Cache, Entry, distinct_keys, entries_map, saved};

verus! {

/// A double buffer over two keyed stores. One store is the write target
/// (`head`), the other the drain target (`tail`); `read` exchanges the two
/// roles and drains the store that writers had been filling. The roles are
/// exchanged, never the data: the swap moves the stores, not their entries.
pub struct DoubleBuffer<T> {
    head: Cache<T>,
    tail: Cache<T>,
}

impl<T> View for DoubleBuffer<T> {
    type V = Map<Seq<char>, T>;

    /// A buffer is, abstractly, the map of entries accumulated since the
    /// previous drain: the write target's contents, last write per key.
    closed spec fn view(&self) -> Map<Seq<char>, T> {
        self.head@
    }
}

impl<T> DoubleBuffer<T> {
    /// The buffer's invariant: both stores are well formed, and the drain
    /// target is empty between calls — every drain empties it and writes
    /// never reach it.
    pub closed spec fn wf(&self) -> bool {
        &&& self.head.wf()
        &&& self.tail.wf()
        &&& self.tail@ == Map::<Seq<char>, T>::empty()
    }

    /// Creates a buffer with two empty stores.
    pub fn new() -> (r: DoubleBuffer<T>)
        ensures
            r.wf(),
            r@ == Map::<Seq<char>, T>::empty(),
    {
        DoubleBuffer { head: Cache::new(), tail: Cache::new() }
    }

    /// Records `entries` in the write target, in the given order: a later
    /// entry overrides an earlier one of the same call that shares its key,
    /// and any entry overrides what an earlier call left for its key.
    pub fn save(&mut self, entries: Vec<Entry<T>>)
        requires
            old(self).wf(),
        ensures
            final(self).wf(),
            final(self)@ == saved(old(self)@, entries@),
    {
        let ghost all = entries@;
        let ghost done: int = 0;
        let mut rest = entries;
        while rest.len() > 0
            invariant
                old(self).wf(),
                0 <= done <= all.len(),
                rest@ == all.skip(done),
                self.head.wf(),
                self.head@ == saved(old(self)@, all.take(done)),
                self.tail == old(self).tail,
            decreases rest.len(),
        {
            let entry = rest.remove(0);
            proof {
                assert(entry == all[done]);
                assert(rest@ =~= all.skip(done + 1));
                assert(all.take(done + 1).drop_last() =~= all.take(done));
            }
            self.head.insert(entry);
            proof {
                done = done + 1;
            }
        }
        proof {
            assert(all.take(done) =~= all);
        }
    }

    /// Drains everything accumulated since the previous `read` (or since
    /// creation): swaps the two stores' roles, then empties the store that
    /// writers had been filling and returns its entries, one per surviving
    /// key, in unspecified order. Afterwards the buffer is empty.
    pub fn read(&mut self) -> (r: Vec<Entry<T>>)
        requires
            old(self).wf(),
        ensures
            final(self).wf(),
            final(self)@ == Map::<Seq<char>, T>::empty(),
            distinct_keys(r@),
            entries_map(r@) == old(self)@,
    {
        self.swap();
        self.tail.clear()
    }

    /// Exchanges the write-target and drain-target roles by exchanging the
    /// two stores' positions.
    fn swap(&mut self)
        ensures
            final(self).head == old(self).tail,
            final(self).tail == old(self).head,
    {
        std::mem::swap(&mut self.head, &mut self.tail);
    }
}

} // verus!
