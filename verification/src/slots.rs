//! The slab that stores the connections, and what is taken on trust about
//! it. `mio::util::Slab` is a fixed array of slots with a free list threaded
//! through the empty ones; Verus cannot look inside, so its contents are
//! named here and each call is given a contract read off the slab's source.

use vstd::prelude::*;
use crate::connection::Connection;
use crate::state::StateView;

verus! {

/// A `mio::util::Slab` of connections, indexed by `mio::Token`. Opaque to
/// Verus: the library reaches it through the functions below alone.
#[verifier::external_body]
pub struct Slots {
    slab: mio::util::Slab<Connection>,
}

/// The occupied slots of the slab: each handle with the connection stored
/// under it.
pub uninterp spec fn slots_entries(slots: Slots) -> Map<int, Connection>;

/// The free list of the slab, as handles: the empty slots in the order in
/// which insertions will fill them.
pub uninterp spec fn slots_free(slots: Slots) -> Seq<int>;

/// `Slab::new_starting_at`. Claims that the new slab has no occupied slot and
/// that its free list runs through all `capacity` slots in rising order, the
/// first of them under the handle `first`. The slab allocates its slots up
/// front, 64 bytes being an upper bound on the size of one.
#[verifier::external_body]
pub(crate) fn slots_new(first: usize, capacity: usize) -> (slots: Slots)
    requires
        first + capacity <= usize::MAX,
        capacity * 64 <= isize::MAX,
    ensures
        slots_entries(slots).dom() == Set::<int>::empty(),
        slots_free(slots) == Seq::new(capacity as nat, |i: int| first + i),
{
    Slots { slab: mio::util::Slab::new_starting_at(mio::Token(first), capacity) }
}

/// `Slab::insert_with`, with `Connection::new` as the constructor. Claims
/// that a slab with an empty free list is left alone and gives `None`; that
/// otherwise the slot at the head of the free list is taken off the list and
/// filled with the connection made for its handle, which is returned, while
/// every other slot stays as it was. The head of the free list must be an
/// empty slot: the slab panics on an occupied one.
#[verifier::external_body]
pub(crate) fn slots_insert_with(slots: &mut Slots) -> (token: Option<usize>)
    requires
        slots_free(*old(slots)).len() > 0 ==> 0 <= slots_free(*old(slots))[0] <= usize::MAX,
        slots_free(*old(slots)).len() > 0 ==> !slots_entries(*old(slots)).contains_key(
            slots_free(*old(slots))[0],
        ),
    ensures
        slots_free(*old(slots)).len() == 0 ==> token.is_none() && *final(slots) == *old(slots),
        slots_free(*old(slots)).len() > 0 ==> token == Some(slots_free(*old(slots))[0] as usize),
        token.is_some() ==> slots_free(*final(slots)) == slots_free(*old(slots)).drop_first(),
        token.is_some() ==> slots_entries(*final(slots)).dom() == slots_entries(
            *old(slots),
        ).dom().insert(token.unwrap() as int),
        token.is_some() ==> slots_entries(*final(slots))[token.unwrap() as int].token
            == token.unwrap(),
        token.is_some() ==> slots_entries(*final(slots))[token.unwrap() as int].state@
            == StateView::Reading(Seq::empty()),
        token.is_some() ==> (forall|t: int|
            slots_entries(*old(slots)).contains_key(t) ==> #[trigger] slots_entries(
                *final(slots),
            )[t] == slots_entries(*old(slots))[t]),
{
    slots.slab.insert_with(|token| Connection::new(token.as_usize())).map(|token| token.as_usize())
}

/// `Slab::get`. Claims that it gives the connection stored under `token`
/// where that slot is occupied and `None` where it is empty. The handle must
/// be one of the slab's slots, occupied or on the free list.
#[verifier::external_body]
pub(crate) fn slots_get(slots: &Slots, token: usize) -> (found: Option<&Connection>)
    requires
        slots_entries(*slots).contains_key(token as int) || slots_free(*slots).contains(
            token as int,
        ),
    ensures
        found.is_some() == slots_entries(*slots).contains_key(token as int),
        found.is_some() ==> *found.unwrap() == slots_entries(*slots)[token as int],
{
    slots.slab.get(mio::Token(token))
}

/// `Slab::index_mut`, the slab's `[]` for writing. Claims that it lends the
/// connection stored under `token`, that whatever the borrower leaves there
/// is what the slot holds afterwards, and that no other slot nor the free
/// list changes. The slot must be occupied: the slab panics on an empty one.
#[verifier::external_body]
pub(crate) fn slots_index_mut(slots: &mut Slots, token: usize) -> (conn: &mut Connection)
    requires
        slots_entries(*old(slots)).contains_key(token as int),
    ensures
        *conn == slots_entries(*old(slots))[token as int],
        slots_entries(*final(slots)) == slots_entries(*old(slots)).insert(
            token as int,
            *final(conn),
        ),
        slots_free(*final(slots)) == slots_free(*old(slots)),
{
    &mut slots.slab[mio::Token(token)]
}

/// `Slab::remove`. Claims that it empties the occupied slot under `token`,
/// returns the connection that was stored there, and puts the slot at the
/// head of the free list, so that the next insertion fills it again; no other
/// slot changes. The slot must be occupied: on an empty one the slab would
/// break its free list.
#[verifier::external_body]
pub(crate) fn slots_remove(slots: &mut Slots, token: usize) -> (removed: Option<Connection>)
    requires
        slots_entries(*old(slots)).contains_key(token as int),
    ensures
        removed == Some(slots_entries(*old(slots))[token as int]),
        slots_entries(*final(slots)) == slots_entries(*old(slots)).remove(token as int),
        slots_free(*final(slots)) == seq![token as int] + slots_free(*old(slots)),
{
    slots.slab.remove(mio::Token(token))
}

} // verus!
