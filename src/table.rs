//! A map from `u64` ids to values.

use std::collections::HashMap;
use vstd::prelude::*;

verus! {

broadcast use vstd::std_specs::hash::group_hash_axioms;

pub struct IdTable<V> {
    entries: HashMap<u64, V>,
}

impl<V> IdTable<V> {
    pub closed spec fn view(&self) -> Map<u64, V> {
        self.entries@
    }

    pub closed spec fn wf(&self) -> bool {
        self.entries@.dom().finite()
    }

    pub fn new() -> (r: Self)
        ensures
            r.wf(),
            r@ == Map::<u64, V>::empty(),
    {
        IdTable { entries: HashMap::new() }
    }

    pub fn len(&self) -> (r: usize)
        requires
            self.wf(),
        ensures
            r == self@.len(),
            self@.dom().finite(),
    {
        self.entries.len()
    }

    pub fn contains(&self, id: u64) -> (r: bool)
        requires
            self.wf(),
        ensures
            r == self@.contains_key(id),
    {
        self.entries.contains_key(&id)
    }

    pub fn get(&self, id: u64) -> (r: Option<&V>)
        requires
            self.wf(),
        ensures
            match r {
                Some(v) => self@.contains_key(id) && *v == self@[id],
                None => !self@.contains_key(id),
            },
    {
        self.entries.get(&id)
    }

    /// Adds an entry under an id that is not in use.
    pub fn insert_new(&mut self, id: u64, value: V)
        requires
            old(self).wf(),
            !old(self)@.contains_key(id),
        ensures
            final(self).wf(),
            final(self)@ == old(self)@.insert(id, value),
    {
        self.entries.insert(id, value);
    }

    /// Removes the entry under `id`, if any, and returns its value.
    pub fn remove(&mut self, id: u64) -> (r: Option<V>)
        requires
            old(self).wf(),
        ensures
            final(self).wf(),
            final(self)@ == old(self)@.remove(id),
            match r {
                Some(v) => old(self)@.contains_key(id) && v == old(self)@[id],
                None => !old(self)@.contains_key(id),
            },
    {
        self.entries.remove(&id)
    }

    /// An id that is not in use: the smallest one not taken among the first
    /// `len + 1`, of which at least one is free.
    pub fn first_free_id(&self) -> (r: u64)
        requires
            self.wf(),
        ensures
            !self@.contains_key(r),
    {
        let n = self.entries.len() as u64;
        let mut c: u64 = 0;
        let ghost mut seen: Set<u64> = Set::empty();
        while c < n
            invariant
                self.wf(),
                c <= n,
                self@.dom().finite(),
                self@.len() == n,
                seen.finite(),
                seen.len() == c,
                seen.subset_of(self@.dom()),
                forall|k: u64| #[trigger] seen.contains(k) ==> k < c,
            decreases n - c,
        {
            if !self.contains(c) {
                return c;
            }
            proof {
                assert(!seen.contains(c));
                seen = seen.insert(c);
            }
            c = c + 1;
        }
        if !self.contains(n) {
            return n;
        }
        proof {
            assert(!seen.contains(n));
            seen = seen.insert(n);
            vstd::set_lib::lemma_len_subset(seen, self@.dom());
            assert(false);
        }
        0
    }
}

} // verus!
