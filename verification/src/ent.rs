//! The things that are placed on the map, and how each of them enters the
//! world's registries once it has been spawned.

use vstd::prelude::*;

use crate::carriableitem::CarriableItemHandle;
use crate::entity::Entity;
use crate::interactive::InteractiveObjectHandle;
use crate::item_types::{BED, BONE, CONPUTER, TRASHCAN};
use crate::position::{Ps, PsSigned};
use crate::state::Reality;

verus! {

/// Something that has to enter the world's registries before it takes part
/// in the simulation. The world calls `initialize` once for each thing it
/// has spawned, with the thing's identifier and the cell it was spawned on.
pub trait Initializable {
    /// The thing has entered the registries.
    spec fn ready(&self) -> bool;

    fn initialize(&mut self, entity: Entity, position: Ps, reality: &mut Reality)
        requires
            old(reality).wf(),
        ensures
            final(reality).wf(),
            final(reality).cellmap == old(reality).cellmap,
            final(reality).time == old(reality).time,
            final(reality).comm_map == old(reality).comm_map,
    ;

    fn is_initialized(&self) -> (r: bool)
        ensures
            r == self.ready(),
    ;
}

/// The mark of the things that are part of the map itself.
pub trait MapEntityObject {

}

/// A tile of grass, or of anything else that just lies there.
#[derive(Debug, Copy, Clone)]
pub struct Grass;

impl MapEntityObject for Grass {

}

/// A bed. It is used from the cell it stands on.
#[derive(Debug, Copy, Clone)]
pub struct Bed {
    pub initialized: bool,
}

impl Bed {
    pub fn new() -> (r: Bed)
        ensures
            !r.initialized,
    {
        Bed { initialized: false }
    }
}

impl Initializable for Bed {
    open spec fn ready(&self) -> bool {
        self.initialized
    }

    fn initialize(&mut self, entity: Entity, position: Ps, reality: &mut Reality)
        ensures
            final(self).initialized,
            final(reality).carriables == old(reality).carriables,
            final(reality).interactive.items@ == old(reality).interactive.items@.push(
                InteractiveObjectHandle {
                    item_id: entity,
                    item_type: BED,
                    used_by: None,
                    position,
                    interaction_ps_offset: None,
                    assigned: false,
                },
            ),
    {
        self.initialized = true;
        reality.interactive.insert(InteractiveObjectHandle::new(BED, entity, position, None));
    }

    fn is_initialized(&self) -> (r: bool) {
        self.initialized
    }
}

impl MapEntityObject for Bed {

}

/// A desk with a machine on it. It is used from the cell that lies
/// `workplace` back from the cell it stands on.
#[derive(Debug, Copy, Clone)]
pub struct Conputer {
    pub workplace: PsSigned,
    pub initialized: bool,
    pub use_animation_playing: bool,
    /// The cell from which the desk is used, once that is known.
    pub handle_position: Option<Ps>,
}

impl Conputer {
    pub fn new(workplace: PsSigned) -> (r: Conputer)
        ensures
            r.workplace == workplace,
            !r.initialized,
            r.use_animation_playing,
            r.handle_position is None,
    {
        Conputer {
            workplace,
            initialized: false,
            use_animation_playing: true,
            handle_position: None,
        }
    }
}

impl Initializable for Conputer {
    open spec fn ready(&self) -> bool {
        self.initialized
    }

    fn initialize(&mut self, entity: Entity, position: Ps, reality: &mut Reality)
        ensures
            final(self).initialized,
            final(self).workplace == old(self).workplace,
            final(self).use_animation_playing == old(self).use_animation_playing,
            final(self).handle_position == position.back_by(old(self).workplace),
            final(reality).carriables == old(reality).carriables,
            final(reality).interactive.items@ == old(reality).interactive.items@.push(
                InteractiveObjectHandle {
                    item_id: entity,
                    item_type: CONPUTER,
                    used_by: None,
                    position,
                    interaction_ps_offset: Some(old(self).workplace),
                    assigned: false,
                },
            ),
    {
        self.initialized = true;
        let handle = InteractiveObjectHandle::new(CONPUTER, entity, position, Some(self.workplace));
        self.handle_position = handle.get_interactive_ps();
        reality.interactive.insert(handle);
    }

    fn is_initialized(&self) -> (r: bool) {
        self.initialized
    }
}

impl MapEntityObject for Conputer {

}

/// A bone: an item for dogs to pick up.
#[derive(Debug)]
pub struct Bone {
    pub initialized: bool,
}

/// A trash can: where dogs bring what they carry.
#[derive(Debug)]
pub struct TrashCan {
    pub initialized: bool,
}

/// The registry `after` is `before` with a fresh item of type `item_type`
/// registered under `entity`, lying on `position`.
pub open spec fn item_registered(
    before: Seq<CarriableItemHandle>,
    after: Seq<CarriableItemHandle>,
    item_type: &'static str,
    entity: Entity,
    position: Ps,
) -> bool {
    exists|i: int|
        {
            &&& 0 <= i < after.len()
            &&& (#[trigger] after[i]).item_id == entity
            &&& after[i].item_type == item_type
            &&& after[i].position == position
            &&& after[i].is_available()
            &&& (after == before.push(after[i]) || (i < before.len() && before[i].item_id == entity
                && after == before.update(i, after[i])))
        }
}

/// Registers a fresh item of type `item_type` for `entity`.
fn register_item(item_type: &'static str, entity: Entity, position: Ps, reality: &mut Reality)
    requires
        old(reality).wf(),
    ensures
        final(reality).wf(),
        final(reality).cellmap == old(reality).cellmap,
        final(reality).time == old(reality).time,
        final(reality).comm_map == old(reality).comm_map,
        final(reality).interactive == old(reality).interactive,
        item_registered(
            old(reality).carriables.items@,
            final(reality).carriables.items@,
            item_type,
            entity,
            position,
        ),
{
    let handle = CarriableItemHandle::new(item_type, entity, position);
    let replaced = reality.carriables.insert(handle);
    proof {
        let before = old(reality).carriables.items@;
        let after = reality.carriables.items@;
        match replaced {
            Some(gone) => {
                let i = choose|i: int|
                    0 <= i < before.len() && before[i] == gone && gone.item_id == handle.item_id
                        && after == before.update(i, handle);
                assert(after[i] == handle);
            },
            None => {
                assert(after[before.len() as int] == handle);
            },
        }
    }
}

impl Initializable for Bone {
    open spec fn ready(&self) -> bool {
        self.initialized
    }

    fn initialize(&mut self, entity: Entity, position: Ps, reality: &mut Reality)
        ensures
            final(self).initialized,
            final(reality).interactive == old(reality).interactive,
            item_registered(
                old(reality).carriables.items@,
                final(reality).carriables.items@,
                BONE,
                entity,
                position,
            ),
    {
        register_item(BONE, entity, position, reality);
        self.initialized = true;
    }

    fn is_initialized(&self) -> (r: bool) {
        self.initialized
    }
}

impl Initializable for TrashCan {
    open spec fn ready(&self) -> bool {
        self.initialized
    }

    fn initialize(&mut self, entity: Entity, position: Ps, reality: &mut Reality)
        ensures
            final(self).initialized,
            final(reality).interactive == old(reality).interactive,
            item_registered(
                old(reality).carriables.items@,
                final(reality).carriables.items@,
                TRASHCAN,
                entity,
                position,
            ),
    {
        register_item(TRASHCAN, entity, position, reality);
        self.initialized = true;
    }

    fn is_initialized(&self) -> (r: bool) {
        self.initialized
    }
}

} // verus!
