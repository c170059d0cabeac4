//! The cached object registry: small integer ids for retained engine
//! objects, so that host-side values can name them without holding engine
//! pointers.

use crate::table::IdTable;
use vstd::prelude::*;

verus! {

/// Maps ids to persistent handles. Ids are issued in increasing order from 1
/// and never reused, so an id names at most one handle for the registry's
/// life.
pub struct CachedObjectRegistry<H> {
    table: IdTable<H>,
    next_id: i32,
}

impl<H> CachedObjectRegistry<H> {
    /// The live entries.
    pub closed spec fn view(&self) -> Map<i32, H> {
        Map::new(
            |id: i32| 1 <= id && self.table@.contains_key(id as u64),
            |id: i32| self.table@[id as u64],
        )
    }

    /// The id the next registration gets; every id issued so far is below it.
    pub closed spec fn next(&self) -> int {
        self.next_id as int
    }

    pub closed spec fn wf(&self) -> bool {
        &&& self.table.wf()
        &&& 1 <= self.next_id
        &&& forall|k: u64| #[trigger]
            self.table@.contains_key(k) ==> 1 <= k && k < self.next_id as u64
    }

    /// Every live id lies in `1 .. next()`, and `next()` is at most
    /// `i32::MAX`.
    pub proof fn lemma_ids_below_next(&self)
        requires
            self.wf(),
        ensures
            forall|id: i32| #[trigger] self@.contains_key(id) ==> 1 <= id < self.next(),
            self.next() <= i32::MAX,
    {
        assert forall|id: i32| #[trigger] self@.contains_key(id) implies 1 <= id < self.next() by {
            assert(self.table@.contains_key(id as u64));
        }
    }

    /// An empty registry.
    pub fn new() -> (r: Self)
        ensures
            r.wf(),
            r@ == Map::<i32, H>::empty(),
            r.next() == 1,
    {
        let r = CachedObjectRegistry { table: IdTable::new(), next_id: 1 };
        assert(r@ =~= Map::<i32, H>::empty());
        r
    }

    /// Number of live entries.
    pub fn len(&self) -> (r: usize)
        requires
            self.wf(),
        ensures
            r == self@.len(),
    {
        let r = self.table.len();
        proof {
            let f = |k: u64| k as i32;
            let keys = self.table@.dom();
            assert(vstd::relations::injective_on(f, keys)) by {
                assert forall|a: u64, b: u64| keys.contains(a) && keys.contains(b) && #[trigger] f(a)
                    == #[trigger] f(b) implies a == b by {}
            }
            assert(keys.map(f) =~= self@.dom()) by {
                assert forall|id: i32| #[trigger] self@.dom().contains(id) implies keys.map(f).contains(id) by {
                    assert(keys.contains(id as u64) && f(id as u64) == id);
                }
            }
            vstd::set_lib::lemma_map_size(keys, self@.dom(), f);
        }
        r
    }

    /// Stores `handle` under a fresh id. When the ids are exhausted the
    /// handle is handed back.
    pub fn register(&mut self, handle: H) -> (r: Result<i32, H>)
        requires
            old(self).wf(),
        ensures
            final(self).wf(),
            match r {
                Ok(id) => {
                    &&& !old(self)@.contains_key(id)
                    &&& id == old(self).next() < i32::MAX
                    &&& final(self)@ == old(self)@.insert(id, handle)
                    &&& final(self).next() == id + 1
                },
                Err(h) => {
                    &&& h == handle
                    &&& old(self).next() == i32::MAX
                    &&& *final(self) == *old(self)
                },
            },
    {
        if self.next_id == i32::MAX {
            return Err(handle);
        }
        let id = self.next_id;
        self.table.insert_new(id as u64, handle);
        self.next_id = id + 1;
        proof {
            assert(self@ =~= old(self)@.insert(id, handle));
        }
        Ok(id)
    }

    /// Whether `id` names a live entry.
    pub fn contains(&self, id: i32) -> (r: bool)
        requires
            self.wf(),
        ensures
            r == self@.contains_key(id),
    {
        1 <= id && self.table.contains(id as u64)
    }

    /// Borrows the handle stored under `id`, leaving it in place.
    pub fn get(&self, id: i32) -> (r: Option<&H>)
        requires
            self.wf(),
        ensures
            match r {
                Some(h) => self@.contains_key(id) && *h == self@[id],
                None => !self@.contains_key(id),
            },
    {
        if id < 1 {
            return None;
        }
        self.table.get(id as u64)
    }

    /// Removes the entry under `id` and hands its handle to the caller.
    pub fn consume(&mut self, id: i32) -> (r: Option<H>)
        requires
            old(self).wf(),
        ensures
            final(self).wf(),
            final(self).next() == old(self).next(),
            final(self)@ == old(self)@.remove(id),
            match r {
                Some(h) => old(self)@.contains_key(id) && h == old(self)@[id],
                None => !old(self)@.contains_key(id),
            },
    {
        if id < 1 {
            proof {
                assert(self@ =~= old(self)@.remove(id));
            }
            return None;
        }
        let r = self.table.remove(id as u64);
        proof {
            assert(self@ =~= old(self)@.remove(id));
        }
        r
    }
}

/// A retained object stays reachable under its id until that id is
/// consumed: registering other objects and consuming other ids leave its
/// entry as it was.
pub proof fn lemma_retained_until_consumed<H>(m: Map<i32, H>, id: i32, other: i32, h: H)
    requires
        m.contains_key(id),
        other != id,
    ensures
        m.insert(other, h).contains_key(id) && m.insert(other, h)[id] == m[id],
        m.remove(other).contains_key(id) && m.remove(other)[id] == m[id],
{
}

} // verus!
