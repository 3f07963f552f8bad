//! What an agent holds in its hands.

use std::collections::HashSet;
use vstd::prelude::*;
use vstd::std_specs::iter::IteratorSpec;

use crate::carriableitem::{CarriableItemHandle, CarriableItems};
use crate::creatures::PsOffsetProvider;
use crate::entity::Entity;
use crate::position::{Offset, Ps};

verus! {

broadcast use vstd::std_specs::hash::group_hash_axioms;

/// The set of items that one agent carries.
#[derive(Debug)]
pub struct Carrier {
    items_carried: HashSet<Entity>,
}

impl View for Carrier {
    type V = Set<Entity>;

    closed spec fn view(&self) -> Set<Entity> {
        self.items_carried@
    }
}

/// Picking an item up and dropping it again leaves it available, if it was
/// before, and leaves it out of the holdings.
pub proof fn lemma_pick_up_then_drop(
    holdings: Set<Entity>,
    handle: CarriableItemHandle,
    myself: Entity,
)
    requires
        handle.is_available(),
    ensures
        handle.taken(myself).released().is_available(),
        handle.taken(myself).released() == handle,
        !holdings.insert(handle.item_id).remove(handle.item_id).contains(handle.item_id),
{
}

/// Consuming a carried item leaves it unavailable, carried by nobody and out
/// of the holdings; and since it is then no longer held, a second attempt to
/// consume it finds nothing to do.
pub proof fn lemma_consume_carried_is_final(
    holdings: Set<Entity>,
    handle: CarriableItemHandle,
    myself: Entity,
)
    ensures
        !handle.released().used_up().is_available(),
        handle.released().used_up().carried_by is None,
        handle.released().used_up().consumed,
        !holdings.remove(handle.item_id).contains(handle.item_id),
{
}

impl Carrier {
    pub fn new() -> (r: Carrier)
        ensures
            r@ == Set::<Entity>::empty(),
    {
        Carrier { items_carried: HashSet::new() }
    }

    /// Takes the item: `myself` becomes its holder and it joins the
    /// holdings.
    pub fn pick_up(&mut self, myself: Entity, handle: &mut CarriableItemHandle)
        ensures
            final(self)@ == old(self)@.insert(old(handle).item_id),
            *final(handle) == old(handle).taken(myself),
    {
        handle.take(myself);
        self.items_carried.insert(handle.item_id);
    }

    /// Whether the agent carries anything at all.
    pub fn has_anything(&self) -> (r: bool)
        ensures
            r == !self@.is_empty(),
            r <==> exists|e: Entity| self@.contains(e),
    {
        let r = !self.items_carried.is_empty();
        proof {
            if r {
                assert(exists|e: Entity| self@.contains(e)) by {
                    if forall|e: Entity| !self@.contains(e) {
                        assert(self@ =~= Set::<Entity>::empty());
                    }
                }
            }
        }
        r
    }

    /// Whether the agent carries the item `entity`.
    pub fn has_item(&self, entity: &Entity) -> (r: bool)
        ensures
            r == self@.contains(*entity),
    {
        self.items_carried.contains(entity)
    }

    /// The identifiers of the items that the agent carries, each once, in no
    /// particular order.
    pub fn carried_ids(&self) -> (r: Vec<Entity>)
        ensures
            r@.to_set() == self@,
            r@.no_duplicates(),
    {
        let mut ids: Vec<Entity> = Vec::new();
        let ghost keys = vstd::std_specs::hash::spec_hash_keys_iter(&self.items_carried).remaining();
        for id in it: self.items_carried.iter()
            invariant
                it.seq() == keys,
                ids@ == keys.take(it.index()).unref(),
        {
            ids.push(*id);
            assert(keys.take(it.index() + 1).unref() =~= keys.take(it.index()).unref().push(*id));
        }
        proof {
            vstd::std_specs::hash::axiom_spec_hash_keys_iter(&self.items_carried);
            assert(keys.take(keys.len() as int) =~= keys);
        }
        ids
    }

    /// Lets the item go: it has no holder any more and leaves the holdings.
    pub fn drop(&mut self, handle: &mut CarriableItemHandle)
        ensures
            final(self)@ == old(self)@.remove(old(handle).item_id),
            *final(handle) == old(handle).released(),
    {
        handle.release();
        self.items_carried.remove(&handle.item_id);
    }

    /// Drops the item if the agent carries it. Returns whether it did.
    pub fn try_drop(&mut self, handle: &mut CarriableItemHandle) -> (r: bool)
        ensures
            r == old(self)@.contains(old(handle).item_id),
            r ==> final(self)@ == old(self)@.remove(old(handle).item_id)
                && *final(handle) == old(handle).released(),
            !r ==> final(self)@ == old(self)@ && *final(handle) == *old(handle),
    {
        if !self.has_item(&handle.item_id) {
            false
        } else {
            self.drop(handle);
            true
        }
    }

    /// Consumes the item if the agent carries it: the item leaves the
    /// holdings, has no holder any more and is used up for good. Returns
    /// whether it did.
    pub fn try_consume(&mut self, handle: &mut CarriableItemHandle) -> (r: bool)
        ensures
            r == old(self)@.contains(old(handle).item_id),
            r ==> final(self)@ == old(self)@.remove(old(handle).item_id)
                && *final(handle) == old(handle).released().used_up(),
            !r ==> final(self)@ == old(self)@ && *final(handle) == *old(handle),
    {
        if !self.has_item(&handle.item_id) {
            false
        } else {
            self.drop(handle);
            handle.consume();
            true
        }
    }

    /// Moves every carried item to where the holder `me` is. An identifier
    /// among the holdings that the registry no longer knows is forgotten.
    pub fn update_positions<P: PsOffsetProvider>(&mut self, items: &mut CarriableItems, me: &P)
        requires
            old(items).wf(),
        ensures
            final(items).wf(),
            final(items).same_ids(old(items)),
            forall|e: Entity|
                #[trigger] final(self)@.contains(e) <==> old(self)@.contains(e)
                    && old(items).has(e),
            forall|i: int|
                0 <= i < old(items).items.len()
                    ==> #[trigger] final(items).items[i]
                        == if old(self)@.contains(old(items).items[i].item_id) {
                    old(items).items[i].carried_to(me.ps(), me.offset_in_cell())
                } else {
                    old(items).items[i]
                },
    {
        let ps: Ps = me.get_ps();
        let offset: Offset = me.get_offset();
        let mut kept: HashSet<Entity> = HashSet::new();
        let mut n: usize = 0;
        while n < items.items.len()
            invariant
                n <= items.items.len(),
                self.items_carried == old(self).items_carried,
                ps == me.ps(),
                offset == me.offset_in_cell(),
                items.wf(),
                items.same_ids(old(items)),
                forall|e: Entity|
                    #[trigger] kept@.contains(e) <==> self@.contains(e) && exists|j: int|
                        0 <= j < n && (#[trigger] old(items).items[j]).item_id == e,
                forall|i: int|
                    0 <= i < n ==> #[trigger] items.items[i] == if self@.contains(
                        old(items).items[i].item_id,
                    ) {
                        old(items).items[i].carried_to(ps, offset)
                    } else {
                        old(items).items[i]
                    },
                forall|i: int|
                    n <= i < items.items.len() ==> #[trigger] items.items[i] == old(items).items[i],
            decreases items.items.len() - n,
        {
            let mut handle = items.items[n];
            let ghost kept_before = kept@;
            if self.items_carried.contains(&handle.item_id) {
                handle.position = ps;
                handle.offset = offset.plus(handle.personal_offset);
                items.items.set(n, handle);
                kept.insert(handle.item_id);
            }
            proof {
                let id = old(items).items[n as int].item_id;
                assert forall|e: Entity|
                    #[trigger] kept@.contains(e) <==> self@.contains(e) && exists|j: int|
                        0 <= j < n + 1 && (#[trigger] old(items).items[j]).item_id == e by {
                    if kept_before.contains(e) {
                        let j = choose|j: int|
                            0 <= j < n && (#[trigger] old(items).items[j]).item_id == e;
                        assert(0 <= j < n + 1 && old(items).items[j].item_id == e);
                    }
                    if self@.contains(e) && exists|j: int|
                        0 <= j < n + 1 && (#[trigger] old(items).items[j]).item_id == e {
                        let j = choose|j: int|
                            0 <= j < n + 1 && (#[trigger] old(items).items[j]).item_id == e;
                        if j < n {
                            assert(kept_before.contains(e));
                        }
                    }
                }
                assert forall|a: int, b: int|
                    0 <= a < items.items.len() && 0 <= b < items.items.len() && a != b implies (
                #[trigger] items.items[a]).item_id != (#[trigger] items.items[b]).item_id by {
                    assert(items.items[a].item_id == old(items).items[a].item_id);
                    assert(items.items[b].item_id == old(items).items[b].item_id);
                }
            }
            n += 1;
        }
        self.items_carried = kept;
    }
}

} // verus!
