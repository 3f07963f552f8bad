//! Objects that stand still and can be used by one agent at a time, such as
//! a bed or a desk, and the registry that holds them.

use vstd::prelude::*;

use crate::creatures::PsOffsetProvider;
use crate::entity::{passes_type_filter, type_passes, Entity};
use crate::position::{Offset, Ps, PsSigned};

verus! {

/// The handle of one interactive object.
///
/// An agent uses the object from the cell `position - interaction_ps_offset`
/// (from `position` itself where there is no offset).
#[derive(Debug, Clone, Copy)]
pub struct InteractiveObjectHandle {
    pub item_id: Entity,
    pub item_type: &'static str,
    pub used_by: Option<Entity>,
    pub position: Ps,
    pub interaction_ps_offset: Option<PsSigned>,
    pub assigned: bool,
}

impl InteractiveObjectHandle {
    /// An object is available when it is assigned to nobody and nobody uses
    /// it.
    pub open spec fn is_available(self) -> bool {
        !self.assigned && self.used_by is None
    }

    /// The cell from which the object is used, where there is one.
    pub open spec fn interactive_ps(self) -> Option<Ps> {
        match self.interaction_ps_offset {
            Some(offset) => self.position.back_by(offset),
            None => Some(self.position),
        }
    }

    /// The object once `entity` has claimed it.
    pub open spec fn claimed(self, entity: Entity) -> InteractiveObjectHandle {
        InteractiveObjectHandle { used_by: Some(entity), ..self }
    }

    /// The object once the claim on it was given up.
    pub open spec fn unclaimed(self) -> InteractiveObjectHandle {
        InteractiveObjectHandle { used_by: None, ..self }
    }

    /// The object once it was assigned.
    pub open spec fn assigned_now(self) -> InteractiveObjectHandle {
        InteractiveObjectHandle { assigned: true, ..self }
    }

    pub fn new(
        item_type: &'static str,
        entity: Entity,
        position: Ps,
        interaction_offset: Option<PsSigned>,
    ) -> (r: InteractiveObjectHandle)
        ensures
            r.item_id == entity,
            r.item_type == item_type,
            r.position == position,
            r.interaction_ps_offset == interaction_offset,
            r.used_by is None,
            !r.assigned,
            r.is_available(),
    {
        InteractiveObjectHandle {
            item_id: entity,
            used_by: None,
            position,
            assigned: false,
            item_type,
            interaction_ps_offset: interaction_offset,
        }
    }

    pub fn available(&self) -> (r: bool)
        ensures
            r == self.is_available(),
    {
        !self.assigned && self.used_by.is_none()
    }

    /// The cell from which the object is used; `None` where the offset
    /// leads to a cell that coordinates cannot name.
    pub fn get_interactive_ps(&self) -> (r: Option<Ps>)
        ensures
            r == self.interactive_ps(),
    {
        match self.interaction_ps_offset {
            Some(offset) => self.position.minus(offset),
            None => Some(self.position),
        }
    }

    /// Whether the object is used from the cell `ps`.
    pub fn is_used_from(&self, ps: Ps) -> (r: bool)
        ensures
            r == (self.interactive_ps() == Some(ps)),
    {
        match self.get_interactive_ps() {
            Some(from) => from.x == ps.x && from.y == ps.y,
            None => false,
        }
    }

    /// Claims the object for `entity`.
    pub fn take(&mut self, entity: Entity)
        ensures
            *final(self) == old(self).claimed(entity),
    {
        self.used_by = Some(entity)
    }

    /// Gives up the claim on the object.
    pub fn release(&mut self)
        ensures
            *final(self) == old(self).unclaimed(),
    {
        self.used_by = None
    }

    /// Assigns the object, for good.
    pub fn assign(&mut self)
        ensures
            *final(self) == old(self).assigned_now(),
    {
        self.assigned = true
    }
}

impl PsOffsetProvider for InteractiveObjectHandle {
    open spec fn ps(&self) -> Ps {
        self.position
    }

    open spec fn offset_in_cell(&self) -> Offset {
        Offset { x: 0, y: 0 }
    }

    fn get_ps(&self) -> (r: Ps) {
        self.position
    }

    fn get_offset(&self) -> (r: Offset) {
        Offset { x: 0, y: 0 }
    }
}

/// The registry of all interactive objects of the world, in the order in
/// which they were registered. Every search goes through it in that order.
#[derive(Debug)]
pub struct InteractiveObjects {
    pub items: Vec<InteractiveObjectHandle>,
}

impl InteractiveObjects {
    /// The first object, in registry order, that is used from `ps`.
    pub open spec fn first_used_from(&self, ps: Ps, i: int) -> bool {
        &&& 0 <= i < self.items.len()
        &&& self.items[i].interactive_ps() == Some(ps)
        &&& forall|j: int| 0 <= j < i ==> (#[trigger] self.items[j]).interactive_ps() != Some(ps)
    }

    /// No object is used from `ps`.
    pub open spec fn none_used_from(&self, ps: Ps) -> bool {
        forall|j: int|
            0 <= j < self.items.len() ==> (#[trigger] self.items[j]).interactive_ps() != Some(ps)
    }

    /// The object at index `i` is free to be assigned and passes `filter`.
    pub open spec fn assignable(&self, i: int, filter: Option<&'static str>) -> bool {
        &&& 0 <= i < self.items.len()
        &&& self.items[i].is_available()
        &&& type_passes(self.items[i].item_type, filter)
    }

    pub fn new() -> (r: InteractiveObjects)
        ensures
            r.items@.len() == 0,
    {
        InteractiveObjects { items: Vec::new() }
    }

    /// Registers `handle` behind the objects that are registered already.
    pub fn insert(&mut self, handle: InteractiveObjectHandle)
        ensures
            final(self).items@ == old(self).items@.push(handle),
    {
        self.items.push(handle);
    }

    /// The index of the first object that is used from `ps`.
    pub fn find_used_from(&self, ps: Ps) -> (r: Option<usize>)
        ensures
            r matches Some(i) ==> self.first_used_from(ps, i as int),
            r is None ==> self.none_used_from(ps),
    {
        let mut i: usize = 0;
        while i < self.items.len()
            invariant
                i <= self.items.len(),
                forall|j: int| 0 <= j < i
                    ==> (#[trigger] self.items[j]).interactive_ps() != Some(ps),
            decreases self.items.len() - i,
        {
            if self.items[i].is_used_from(ps) {
                return Some(i);
            }
            i += 1;
        }
        None
    }

    /// The indices of the objects that are free to be assigned and pass
    /// `filter`, in registry order.
    pub fn find_assignable(&self, filter: Option<&'static str>) -> (r: Vec<usize>)
        ensures
            forall|k: int| 0 <= k < r.len() ==> self.assignable(#[trigger] r[k] as int, filter),
            forall|i: int| self.assignable(i, filter) ==> r@.contains(i as usize),
            forall|a: int, b: int| 0 <= a < b < r.len() ==> r[a] < r[b],
    {
        let mut found: Vec<usize> = Vec::new();
        let mut i: usize = 0;
        while i < self.items.len()
            invariant
                i <= self.items.len(),
                forall|k: int|
                    0 <= k < found.len() ==> self.assignable(#[trigger] found[k] as int, filter),
                forall|j: int| 0 <= j < i && self.assignable(j, filter)
                    ==> found@.contains(j as usize),
                forall|k: int| 0 <= k < found.len() ==> found[k] < i,
                forall|a: int, b: int| 0 <= a < b < found.len() ==> found[a] < found[b],
            decreases self.items.len() - i,
        {
            let ghost before = found@;
            if self.items[i].available() && passes_type_filter(self.items[i].item_type, filter) {
                found.push(i);
                assert(found@[before.len() as int] == i);
            }
            proof {
                assert forall|j: int| 0 <= j < i + 1 && self.assignable(j, filter) implies
                    found@.contains(
                    j as usize,
                ) by {
                    if j < i {
                        let k = choose|k: int| 0 <= k < before.len() && before[k] == j as usize;
                        assert(found@[k] == j as usize);
                    }
                }
            }
            i += 1;
        }
        found
    }
}

} // verus!
