//! The connection registry: a fixed number of slots, each under a handle of
//! its own, with the free ones kept in a list so that a handle is found,
//! given out and taken back in constant time.

use vstd::prelude::*;
use crate::connection::Connection;
use crate::slots::{
    slots_entries, slots_free, slots_get, slots_index_mut, slots_insert_with, slots_new,
    slots_remove, Slots,
};
use crate::state::StateView;

verus! {

/// The error of an insertion into a registry that has no free handle.
#[derive(Clone, Copy, Debug, PartialEq, Eq, Structural)]
pub struct CapacityExceeded;

/// A registry as plain mathematics.
pub struct Handles {
    /// The live handles, each with the state of its connection.
    pub live: Map<int, StateView>,
    /// The free handles, in the order in which they will be given out.
    pub free: Seq<int>,
    /// The lowest handle of the registry.
    pub first: int,
    /// The number of handles, live and free together.
    pub capacity: int,
}

impl Handles {
    /// `t` is one of the registry's handles.
    pub open spec fn is_slot(self, t: int) -> bool {
        self.first <= t < self.first + self.capacity
    }

    /// Every handle of the registry is either live or on the free list, and
    /// on the free list once.
    pub open spec fn wf(self) -> bool {
        &&& 0 <= self.first
        &&& 0 <= self.capacity
        &&& self.first + self.capacity <= usize::MAX
        &&& self.live.dom().finite()
        &&& self.live.dom().len() + self.free.len() == self.capacity
        &&& self.free.no_duplicates()
        &&& forall|i: int|
            0 <= i < self.free.len() ==> self.is_slot(#[trigger] self.free[i])
                && !self.live.contains_key(self.free[i])
        &&& forall|t: int| #[trigger]
            self.live.contains_key(t) ==> self.is_slot(t) && self.live[t].wf()
        &&& forall|t: int| #[trigger]
            self.is_slot(t) ==> self.live.contains_key(t) || self.free.contains(t)
    }

    /// No handle is free.
    pub open spec fn is_full(self) -> bool {
        self.free.len() == 0
    }

    /// A registry of `capacity` handles from `first` up, none of them live.
    pub open spec fn fresh(first: int, capacity: int) -> Handles {
        Handles {
            live: Map::empty(),
            free: Seq::new(capacity as nat, |i: int| first + i),
            first,
            capacity,
        }
    }

    /// The registry after an insertion: the handle at the head of the free
    /// list has become live, with a connection that has read nothing. A full
    /// registry stays as it is.
    pub open spec fn insert(self) -> Handles {
        if self.is_full() {
            self
        } else {
            Handles {
                live: self.live.insert(self.free[0], StateView::Reading(Seq::empty())),
                free: self.free.drop_first(),
                ..self
            }
        }
    }

    /// The registry after the connection under `token` has moved to `state`.
    pub open spec fn update(self, token: int, state: StateView) -> Handles {
        Handles { live: self.live.insert(token, state), ..self }
    }

    /// The registry after `token` was released: it is live no more, and it
    /// is the handle that the next insertion gives out.
    pub open spec fn remove(self, token: int) -> Handles {
        Handles { live: self.live.remove(token), free: seq![token] + self.free, ..self }
    }

    /// A registry without connections is well formed.
    pub proof fn lemma_fresh_wf(first: int, capacity: int)
        requires
            0 <= first,
            0 <= capacity,
            first + capacity <= usize::MAX,
        ensures
            Handles::fresh(first, capacity).wf(),
    {
        let fresh = Handles::fresh(first, capacity);
        assert forall|t: int| #[trigger] fresh.is_slot(t) implies fresh.free.contains(t) by {
            assert(fresh.free[t - first] == t);
        }
    }

    /// An insertion keeps a registry well formed. Into one that is not full
    /// it brings one more live handle, which was not live before, and leaves
    /// the other connections as they were.
    pub proof fn lemma_insert_wf(self)
        requires
            self.wf(),
        ensures
            self.insert().wf(),
            self.is_full() <==> self.live.dom().len() == self.capacity,
            !self.is_full() ==> self.is_slot(self.free[0]) && !self.live.contains_key(
                self.free[0],
            ),
            !self.is_full() ==> self.insert().live.dom().len() == self.live.dom().len() + 1,
    {
        if !self.is_full() {
            let after = self.insert();
            let t = self.free[0];
            assert forall|u: int| #[trigger] after.is_slot(u) implies after.live.contains_key(u)
                || after.free.contains(u) by {
                assert(self.is_slot(u));
                if !self.live.contains_key(u) && u != t {
                    let i = choose|i: int| 0 <= i < self.free.len() && self.free[i] == u;
                    assert(after.free[i - 1] == u);
                }
            }
        }
    }

    /// A live connection that moves to a well-formed state leaves the
    /// registry well formed.
    pub proof fn lemma_update_wf(self, token: int, state: StateView)
        requires
            self.wf(),
            self.live.contains_key(token),
            state.wf(),
        ensures
            self.update(token, state).wf(),
    {
        let after = self.update(token, state);
        assert forall|u: int| #[trigger] after.is_slot(u) implies after.live.contains_key(u)
            || after.free.contains(u) by {
            assert(self.is_slot(u));
        }
    }

    /// The release of a live handle keeps a registry well formed.
    pub proof fn lemma_remove_wf(self, token: int)
        requires
            self.wf(),
            self.live.contains_key(token),
        ensures
            self.remove(token).wf(),
    {
        let after = self.remove(token);
        assert forall|u: int| #[trigger] after.is_slot(u) implies after.live.contains_key(u)
            || after.free.contains(u) by {
            assert(self.is_slot(u));
            if u == token {
                assert(after.free[0] == u);
            } else if !self.live.contains_key(u) {
                let i = choose|i: int| 0 <= i < self.free.len() && self.free[i] == u;
                assert(after.free[i + 1] == u);
            }
        }
    }
}

/// The connections of a server, each under its handle.
pub struct Registry {
    slots: Slots,
    first: usize,
    capacity: usize,
}

impl View for Registry {
    type V = Handles;

    closed spec fn view(&self) -> Handles {
        Handles {
            live: slots_entries(self.slots).map_values(|conn: Connection| conn.state@),
            free: slots_free(self.slots),
            first: self.first as int,
            capacity: self.capacity as int,
        }
    }
}

impl Registry {
    /// The registry's invariant: that of its handles, and each connection
    /// knows the handle that it is stored under.
    pub closed spec fn wf(&self) -> bool {
        &&& self@.wf()
        &&& forall|t: int| #[trigger]
            slots_entries(self.slots).contains_key(t) ==> slots_entries(self.slots)[t].token == t
    }

    /// What `wf` says of the handles.
    pub proof fn lemma_wf(&self)
        requires
            self.wf(),
        ensures
            self@.wf(),
    {
    }

    /// A registry of `capacity` handles from `first` up, with no connection
    /// in it. All slots are allocated here, so `capacity` is bounded by what
    /// one allocation can hold, at no more than 64 bytes a slot.
    pub fn new(first: usize, capacity: usize) -> (registry: Registry)
        requires
            first + capacity <= usize::MAX,
            capacity * 64 <= isize::MAX,
        ensures
            registry.wf(),
            registry@ == Handles::fresh(first as int, capacity as int),
    {
        let slots = slots_new(first, capacity);
        let registry = Registry { slots, first, capacity };
        proof {
            assert(registry@.live =~= Map::empty());
            Handles::lemma_fresh_wf(first as int, capacity as int);
        }
        registry
    }

    /// Stores a new connection under the next free handle and returns the
    /// handle; fails, and changes nothing, where no handle is free.
    pub fn insert(&mut self) -> (inserted: Result<usize, CapacityExceeded>)
        requires
            old(self).wf(),
        ensures
            final(self).wf(),
            final(self)@ == old(self)@.insert(),
            inserted is Err <==> old(self)@.is_full(),
            inserted matches Ok(token) ==> token == old(self)@.free[0],
    {
        let ghost before = self@;
        proof {
            before.lemma_insert_wf();
        }
        match slots_insert_with(&mut self.slots) {
            Some(token) => {
                assert(self@.live =~= before.insert().live);
                Ok(token)
            },
            None => Err(CapacityExceeded),
        }
    }

    /// Whether `token` is live.
    pub fn contains(&self, token: usize) -> (live: bool)
        requires
            self.wf(),
        ensures
            live == self@.live.contains_key(token as int),
    {
        if token < self.first || token - self.first >= self.capacity {
            false
        } else {
            assert(self@.is_slot(token as int));
            slots_get(&self.slots, token).is_some()
        }
    }

    /// The connection under the live handle `token`.
    pub fn get(&self, token: usize) -> (conn: &Connection)
        requires
            self.wf(),
            self@.live.contains_key(token as int),
        ensures
            conn.token == token,
            conn.state@ == self@.live[token as int],
            conn.wf(),
    {
        slots_get(&self.slots, token).unwrap()
    }

    /// The connection under the live handle `token`, to be driven on. The
    /// registry stays well formed as long as the connection is left well
    /// formed and under its handle.
    pub fn get_mut(&mut self, token: usize) -> (conn: &mut Connection)
        requires
            old(self).wf(),
            old(self)@.live.contains_key(token as int),
        ensures
            conn.token == token,
            conn.state@ == old(self)@.live[token as int],
            conn.wf(),
            final(self)@ == old(self)@.update(token as int, final(conn).state@),
            final(conn).token == token && final(conn).wf() ==> final(self).wf(),
    {
        proof {
            let entries = slots_entries(self.slots);
            let state_of = |conn: Connection| conn.state@;
            assert forall|left: Connection| #[trigger]
                entries.insert(token as int, left).map_values(state_of) == entries.map_values(
                    state_of,
                ).insert(token as int, left.state@) by {
                assert(entries.insert(token as int, left).map_values(state_of)
                    =~= entries.map_values(state_of).insert(token as int, left.state@));
            }
            let before = *self;
            assert forall|after: Registry, left: Connection|
                slots_entries(after.slots) == entries.insert(token as int, left) && slots_free(
                    after.slots,
                ) == slots_free(before.slots) && after.first == before.first && after.capacity
                    == before.capacity && left.token == token && #[trigger] left.wf()
                    implies #[trigger] after.wf() by {
                before@.lemma_update_wf(token as int, left.state@);
            }
        }
        slots_index_mut(&mut self.slots, token)
    }

    /// Releases the live handle `token` for reuse and returns the connection
    /// that was stored under it.
    pub fn remove(&mut self, token: usize) -> (conn: Connection)
        requires
            old(self).wf(),
            old(self)@.live.contains_key(token as int),
        ensures
            final(self).wf(),
            final(self)@ == old(self)@.remove(token as int),
            conn.token == token,
            conn.state@ == old(self)@.live[token as int],
    {
        let ghost before = self@;
        let removed = slots_remove(&mut self.slots, token);
        proof {
            assert(self@.live =~= before.live.remove(token as int));
            before.lemma_remove_wf(token as int);
        }
        removed.unwrap()
    }
}

} // verus!
