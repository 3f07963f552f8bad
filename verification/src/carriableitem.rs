//! Items that agents can pick up, carry, drop and consume, and the registry
//! that holds them.

use vstd::prelude::*;

use crate::creatures::PsOffsetProvider;
use crate::entity::Entity;
use crate::position::{Offset, Ps};
use crate::random::random_below;

verus! {

/// The handle of one item: who it is, what it is, where it lies, who carries
/// it and whether it has been consumed.
///
/// `personal_offset` is drawn once per item, so that several items carried
/// by the same agent do not cover one another.
#[derive(Debug, Clone, Copy)]
pub struct CarriableItemHandle {
    pub item_id: Entity,
    pub item_type: &'static str,
    pub carried_by: Option<Entity>,
    pub position: Ps,
    pub offset: Offset,
    pub personal_offset: Offset,
    pub consumed: bool,
}

impl CarriableItemHandle {
    /// An item can be taken when it has not been consumed and nobody
    /// carries it.
    pub open spec fn is_available(self) -> bool {
        !self.consumed && self.carried_by is None
    }

    /// The item once `entity` has taken it.
    pub open spec fn taken(self, entity: Entity) -> CarriableItemHandle {
        CarriableItemHandle { carried_by: Some(entity), ..self }
    }

    /// The item once it was let go.
    pub open spec fn released(self) -> CarriableItemHandle {
        CarriableItemHandle { carried_by: None, ..self }
    }

    /// The item once it was consumed.
    pub open spec fn used_up(self) -> CarriableItemHandle {
        CarriableItemHandle { consumed: true, ..self }
    }

    /// The item once it was moved along with a holder at `ps` whose own
    /// offset is `holder_offset`.
    pub open spec fn carried_to(self, ps: Ps, holder_offset: Offset) -> CarriableItemHandle {
        CarriableItemHandle {
            position: ps,
            offset: holder_offset.sum(self.personal_offset),
            ..self
        }
    }

    /// An item picked up and then dropped can be taken again, if it could be
    /// taken before.
    pub proof fn lemma_take_release_round_trip(self, entity: Entity)
        requires
            self.is_available(),
        ensures
            self.taken(entity).released() == self,
            self.taken(entity).released().is_available(),
            !self.taken(entity).is_available(),
    {
    }

    /// Nothing that can happen to a consumed item makes it available again:
    /// not taking it, not letting it go, not consuming it once more, not
    /// carrying it about.
    pub proof fn lemma_consumed_stays_unavailable(
        self,
        entity: Entity,
        ps: Ps,
        holder_offset: Offset,
    )
        requires
            self.consumed,
        ensures
            !self.is_available(),
            !self.taken(entity).is_available(),
            !self.released().is_available(),
            !self.used_up().is_available(),
            !self.carried_to(ps, holder_offset).is_available(),
            self.used_up() == self,
    {
    }

    /// A fresh item of type `item_type` lying on `position`, with a small
    /// random personal offset.
    pub fn new(item_type: &'static str, entity: Entity, position: Ps) -> (r: CarriableItemHandle)
        ensures
            r.item_id == entity,
            r.item_type == item_type,
            r.position == position,
            r.carried_by is None,
            !r.consumed,
            r.is_available(),
            r.offset == r.personal_offset,
            -200 <= r.personal_offset.x < 200,
            10 <= r.personal_offset.y < 200,
    {
        let x: i32 = random_below(400) as i32 - 200;
        let y: i32 = random_below(190) as i32 + 10;
        let off = Offset { x, y };
        CarriableItemHandle {
            item_id: entity,
            carried_by: None,
            position,
            consumed: false,
            offset: off,
            personal_offset: off,
            item_type,
        }
    }

    /// Moves the item to where `from` is: onto its cell, at its offset plus
    /// the item's personal offset.
    pub fn copy_position<P: PsOffsetProvider>(&mut self, from: &P)
        ensures
            *final(self) == old(self).carried_to(from.ps(), from.offset_in_cell()),
    {
        self.position = from.get_ps();
        self.offset = from.get_offset().plus(self.personal_offset);
    }

    pub fn available(&self) -> (r: bool)
        ensures
            r == self.is_available(),
    {
        !self.consumed && self.carried_by.is_none()
    }

    pub fn take(&mut self, entity: Entity)
        ensures
            *final(self) == old(self).taken(entity),
    {
        self.carried_by = Some(entity)
    }

    pub fn release(&mut self)
        ensures
            *final(self) == old(self).released(),
    {
        self.carried_by = None
    }

    pub fn consume(&mut self)
        ensures
            *final(self) == old(self).used_up(),
    {
        self.consumed = true
    }
}

impl PsOffsetProvider for CarriableItemHandle {
    open spec fn ps(&self) -> Ps {
        self.position
    }

    open spec fn offset_in_cell(&self) -> Offset {
        self.offset
    }

    fn get_ps(&self) -> (r: Ps) {
        self.position
    }

    fn get_offset(&self) -> (r: Offset) {
        self.offset
    }
}

/// No identifier occurs twice among `items`.
pub open spec fn distinct_ids(items: Seq<CarriableItemHandle>) -> bool {
    forall|i: int, j: int|
        0 <= i < items.len() && 0 <= j < items.len() && i != j
            ==> (#[trigger] items[i]).item_id != (
        #[trigger] items[j]).item_id
}

/// The registry of all items of the world, in the order in which they were
/// registered. Every search goes through it in that order.
#[derive(Debug)]
pub struct CarriableItems {
    pub items: Vec<CarriableItemHandle>,
}

impl CarriableItems {
    /// The registry's invariant: every item has an identifier of its own.
    pub open spec fn wf(&self) -> bool {
        distinct_ids(self.items@)
    }

    /// An item with identifier `id` is registered.
    pub open spec fn has(&self, id: Entity) -> bool {
        exists|i: int| 0 <= i < self.items.len() && (#[trigger] self.items[i]).item_id == id
    }

    /// Both registries hold items with the same identifiers, in the same
    /// order.
    pub open spec fn same_ids(&self, other: &CarriableItems) -> bool {
        &&& self.items.len() == other.items.len()
        &&& forall|i: int|
            0 <= i < self.items.len() ==> (#[trigger] self.items[i]).item_id
                == other.items[i].item_id
    }

    pub fn new() -> (r: CarriableItems)
        ensures
            r.items@.len() == 0,
            r.wf(),
    {
        CarriableItems { items: Vec::new() }
    }

    pub fn len(&self) -> (r: usize)
        ensures
            r == self.items.len(),
    {
        self.items.len()
    }

    /// Where the item with identifier `id` is stored.
    pub fn index_of(&self, id: Entity) -> (r: Option<usize>)
        ensures
            r is Some <==> self.has(id),
            r matches Some(i) ==> i < self.items.len() && self.items[i as int].item_id == id,
    {
        let mut i: usize = 0;
        while i < self.items.len()
            invariant
                i <= self.items.len(),
                forall|j: int| 0 <= j < i ==> (#[trigger] self.items[j]).item_id != id,
            decreases self.items.len() - i,
        {
            if self.items[i].item_id == id {
                return Some(i);
            }
            i += 1;
        }
        None
    }

    /// The item with identifier `id`.
    pub fn get(&self, id: Entity) -> (r: Option<CarriableItemHandle>)
        ensures
            r is Some <==> self.has(id),
            r matches Some(item) ==> item.item_id == id && self.items@.contains(item),
    {
        match self.index_of(id) {
            Some(i) => Some(self.items[i]),
            None => None,
        }
    }

    /// Registers `handle`. An item that is registered under the same
    /// identifier is replaced, in its place, and returned.
    pub fn insert(&mut self, handle: CarriableItemHandle) -> (r: Option<CarriableItemHandle>)
        requires
            old(self).wf(),
        ensures
            final(self).wf(),
            final(self).has(handle.item_id),
            r is Some <==> old(self).has(handle.item_id),
            match r {
                Some(replaced) => exists|i: int|
                    0 <= i < old(self).items.len() && old(self).items[i] == replaced
                        && replaced.item_id == handle.item_id
                            && final(self).items@ == old(self).items@.update(i, handle),
                None => final(self).items@ == old(self).items@.push(handle),
            },
    {
        match self.index_of(handle.item_id) {
            Some(i) => {
                let replaced = self.items[i];
                self.items.set(i, handle);
                assert(self.items[i as int].item_id == handle.item_id);
                Some(replaced)
            },
            None => {
                self.items.push(handle);
                assert(self.items[self.items.len() - 1].item_id == handle.item_id);
                None
            },
        }
    }

    /// Takes the item with identifier `id` out of the registry.
    pub fn remove(&mut self, id: Entity) -> (r: Option<CarriableItemHandle>)
        requires
            old(self).wf(),
        ensures
            final(self).wf(),
            !final(self).has(id),
            r is Some <==> old(self).has(id),
            match r {
                Some(removed) => exists|i: int|
                    0 <= i < old(self).items.len() && old(self).items[i] == removed
                        && removed.item_id == id && final(self).items@ == old(self).items@.remove(
                        i,
                    ),
                None => final(self).items@ == old(self).items@,
            },
    {
        match self.index_of(id) {
            Some(i) => {
                let removed = self.items.remove(i);
                assert forall|j: int| 0 <= j < self.items.len() implies (
                #[trigger] self.items[j]).item_id != id by {
                    if j < i {
                        assert(self.items[j] == old(self).items[j]);
                    } else {
                        assert(self.items[j] == old(self).items[j + 1]);
                    }
                }
                assert forall|a: int, b: int|
                    0 <= a < self.items.len() && 0 <= b < self.items.len() && a != b implies (
                #[trigger] self.items[a]).item_id != (#[trigger] self.items[b]).item_id by {
                    let a0 = if a < i {
                        a
                    } else {
                        a + 1
                    };
                    let b0 = if b < i {
                        b
                    } else {
                        b + 1
                    };
                    assert(self.items[a] == old(self).items[a0]);
                    assert(self.items[b] == old(self).items[b0]);
                }
                Some(removed)
            },
            None => None,
        }
    }
}

} // verus!
