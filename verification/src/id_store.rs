//! A generic keyed container mapping a small integer handle to an owned
//! object. Handles are allocated by recycling a freed handle when one is
//! available, else by minting the next counter value; no two live handles
//! are ever equal.

use vstd::prelude::*;

use std::collections::HashMap;

verus! {

pub struct SequentialIDStore<T> {
    max_id: u32,
    store: HashMap<u32, T>,
    freed: Vec<u32>,
}

impl<T> SequentialIDStore<T> {
    /// The mapping from live handles to the objects they name.
    pub closed spec fn live(&self) -> Map<u32, T> {
        self.store@
    }

    /// The high-water mark: every handle ever issued is below it.
    pub closed spec fn next_id(&self) -> u32 {
        self.max_id
    }

    /// The handles freed by `remove_obj` and not yet reissued, oldest first.
    pub closed spec fn free_list(&self) -> Seq<u32> {
        self.freed@
    }

    /// Well-formedness: live handles and freed handles all lie below the
    /// counter, the freed handles are pairwise distinct, and no freed handle
    /// is live.
    pub open spec fn wf(&self) -> bool {
        &&& forall|id: u32| self.live().dom().contains(id) ==> id < self.next_id()
        &&& forall|j: int|
            0 <= j < self.free_list().len() ==> (#[trigger] self.free_list()[j]) < self.next_id()
                && !self.live().dom().contains(self.free_list()[j])
        &&& forall|j: int, k: int|
            0 <= j < k < self.free_list().len() ==> self.free_list()[j] != self.free_list()[k]
    }

    /// The observable state agrees: the same live mapping, the same free
    /// list, the same counter.
    pub open spec fn same_state(self, other: Self) -> bool {
        &&& self.live() == other.live()
        &&& self.free_list() == other.free_list()
        &&& self.next_id() == other.next_id()
    }

    /// No handle that `add_obj` can return is live: the recycled candidate,
    /// the head of the free list, is not live by well-formedness, and
    /// neither is the counter's next value. Together with `add_obj`'s
    /// contract this is handle uniqueness: a handle is never issued while an
    /// equal one is live.
    pub proof fn lemma_next_handle_fresh(&self)
        requires
            self.wf(),
        ensures
            self.free_list().len() > 0 ==> !self.live().dom().contains(self.free_list().last()),
            !self.live().dom().contains(self.next_id()),
    {
        if self.free_list().len() > 0 {
            assert(self.free_list()[self.free_list().len() - 1] == self.free_list().last());
        }
    }

    /// Handle reuse law: when `mid` is a store that `remove_obj(id)` just
    /// produced, the free list is nonempty and ends in `id`, so by
    /// `add_obj`'s contract the next allocation reissues exactly that
    /// previously freed, no-longer-live handle.
    pub proof fn lemma_reuse_after_remove(pre: Self, mid: Self, id: u32)
        requires
            pre.wf(),
            pre.live().dom().contains(id),
            mid.live() == pre.live().remove(id),
            mid.free_list() == pre.free_list().push(id),
            mid.next_id() == pre.next_id(),
        ensures
            mid.free_list().len() > 0,
            mid.free_list().last() == id,
            !mid.live().dom().contains(id),
    {
    }

    /// No free handle is left and the counter is saturated: the next
    /// `add_obj` is the one call that fails.
    pub open spec fn exhausted(&self) -> bool {
        self.free_list().len() == 0 && self.next_id() == u32::MAX
    }

    pub fn new(capacity: u32) -> (r: Self)
        ensures
            r.wf(),
            r.live() == Map::<u32, T>::empty(),
            r.free_list() == Seq::<u32>::empty(),
            r.next_id() == 0,
    {
        Self { max_id: 0, store: HashMap::new(), freed: Vec::with_capacity(capacity as usize) }
    }

    /// Issues a handle for `obj`: a recycled one if any handle is free, else
    /// the next counter value. Fails only when the counter is saturated and
    /// nothing is free; the handle returned is never one that is live.
    pub fn add_obj(&mut self, obj: T) -> (r: Result<u32, &'static str>)
        requires
            old(self).wf(),
        ensures
            final(self).wf(),
            match r {
                Ok(id) => {
                    &&& !old(self).live().dom().contains(id)
                    &&& final(self).live() == old(self).live().insert(id, obj)
                    &&& if old(self).free_list().len() > 0 {
                        &&& id == old(self).free_list().last()
                        &&& final(self).free_list() == old(self).free_list().drop_last()
                        &&& final(self).next_id() == old(self).next_id()
                    } else {
                        &&& id == old(self).next_id()
                        &&& final(self).next_id() == old(self).next_id() + 1
                        &&& final(self).free_list() == old(self).free_list()
                    }
                },
                Err(_) => {
                    &&& final(self).live() == old(self).live()
                    &&& final(self).free_list() == old(self).free_list()
                    &&& final(self).next_id() == old(self).next_id()
                },
            },
            (r is Err) <==> (old(self).free_list().len() == 0 && old(self).next_id()
                == u32::MAX),
    {
        match self.freed.pop() {
            Some(id) => {
                self.store.insert(id, obj);
                proof {
                    let pre = *old(self);
                    assert(id == pre.free_list()[pre.free_list().len() - 1]);
                    assert(self.live() =~= pre.live().insert(id, obj));
                    assert forall|x: u32| self.live().dom().contains(x) implies x
                        < self.next_id() by {
                        if x != id {
                            assert(pre.live().dom().contains(x));
                        }
                    };
                    assert forall|j: int|
                        0 <= j < self.free_list().len() implies (#[trigger] self.free_list()[j])
                        < self.next_id() && !self.live().dom().contains(self.free_list()[j]) by {
                        assert(self.free_list()[j] == pre.free_list()[j]);
                        assert(pre.free_list()[j] != id);
                    };
                }
                Ok(id)
            },
            None => {
                if self.max_id == u32::MAX {
                    proof {
                        assert(self.free_list() == old(self).free_list());
                        assert(self.live() == old(self).live());
                    }
                    Err("max items reached")
                } else {
                    self.max_id = self.max_id + 1;
                    self.store.insert(self.max_id - 1, obj);
                    proof {
                        let pre = *old(self);
                        assert(self.live() =~= pre.live().insert(pre.next_id(), obj));
                        assert forall|x: u32| self.live().dom().contains(x) implies x
                            < self.next_id() by {
                            if x != pre.next_id() {
                                assert(pre.live().dom().contains(x));
                            }
                        };
                    }
                    Ok(self.max_id - 1)
                }
            },
        }
    }

    /// Moves the object for `id` out to the caller and marks `id` freed, so a
    /// later `add_obj` may reissue it. The only way a handle stops being live.
    pub fn remove_obj(&mut self, id: u32) -> (r: Result<T, &'static str>)
        requires
            old(self).wf(),
        ensures
            final(self).wf(),
            match r {
                Ok(obj) => {
                    &&& old(self).live().dom().contains(id)
                    &&& obj == old(self).live()[id]
                    &&& final(self).live() == old(self).live().remove(id)
                    &&& final(self).free_list() == old(self).free_list().push(id)
                    &&& final(self).next_id() == old(self).next_id()
                },
                Err(_) => {
                    &&& final(self).live() == old(self).live()
                    &&& final(self).free_list() == old(self).free_list()
                    &&& final(self).next_id() == old(self).next_id()
                },
            },
            (r is Ok) <==> old(self).live().dom().contains(id),
    {
        match self.store.remove(&id) {
            Some(obj) => {
                self.freed.push(id);
                proof {
                    let pre = *old(self);
                    assert(pre.live().dom().contains(id));
                    assert(self.live() =~= pre.live().remove(id));
                    assert(self.free_list() =~= pre.free_list().push(id));
                    assert forall|x: u32| self.live().dom().contains(x) implies x
                        < self.next_id() by {
                        assert(pre.live().dom().contains(x));
                    };
                    assert forall|j: int|
                        0 <= j < self.free_list().len() implies (#[trigger] self.free_list()[j])
                        < self.next_id() && !self.live().dom().contains(self.free_list()[j]) by {
                        if j < pre.free_list().len() {
                            assert(self.free_list()[j] == pre.free_list()[j]);
                        } else {
                            assert(self.free_list()[j] == id);
                        }
                    };
                    assert forall|j: int, k: int|
                        0 <= j < k < self.free_list().len() implies self.free_list()[j]
                        != self.free_list()[k] by {
                        assert(self.free_list()[j] == pre.free_list()[j]);
                        if k < pre.free_list().len() {
                            assert(self.free_list()[k] == pre.free_list()[k]);
                        } else {
                            assert(self.free_list()[k] == id);
                        }
                    };
                }
                Ok(obj)
            },
            None => {
                proof {
                    assert(self.live() =~= old(self).live());
                    assert(self.free_list() == old(self).free_list());
                }
                Err("item not found")
            },
        }
    }

    pub fn get_obj(&self, id: u32) -> (r: Result<&T, &'static str>)
        ensures
            match r {
                Ok(obj) => self.live().dom().contains(id) && *obj == self.live()[id],
                Err(_) => !self.live().dom().contains(id),
            },
            (r is Ok) <==> self.live().dom().contains(id),
    {
        match self.store.get(&id) {
            Some(obj) => Ok(obj),
            None => Err("item not found"),
        }
    }

    pub fn get_obj_mut(&mut self, id: u32) -> (r: Result<&mut T, &'static str>)
        requires
            old(self).wf(),
        ensures
            (r is Ok) <==> old(self).live().dom().contains(id),
            r is Ok ==> {
                &&& *r.unwrap() == old(self).live()[id]
                &&& final(self).live() == old(self).live().insert(id, *final(r.unwrap()))
            },
            r is Err ==> final(self).live() == old(self).live(),
            final(self).free_list() == old(self).free_list(),
            final(self).next_id() == old(self).next_id(),
            final(self).wf(),
    {
        if !self.store.contains_key(&id) {
            return Err("item not found");
        }
        match self.store.entry(id) {
            std::collections::hash_map::Entry::Occupied(e) => Ok(e.into_mut()),
            std::collections::hash_map::Entry::Vacant(_) => Err("item not found"),
        }
    }
}

} // verus!
