//! Dogs: they hunt bones, and carry what they have to the nearest trash
//! can.

use vstd::prelude::*;

use crate::carriablesearch::{find_closest_available_with_type, is_closest};
use crate::creatures::PsOffsetProvider;
use crate::ent::Initializable;
use crate::entity::Entity;
use crate::item_types::{BONE, TRASHCAN};
use crate::mental::{Brains, Intention, IntentionClass, IntentionCompleted};
use crate::messaging::Communicator;
use crate::position::{Offset, Ps, PsProvider};
use crate::routine::{announced, is_hunter_policy, EntityTypeHunter, Routine};
use crate::sanity::Sanity;
use crate::selfaware::SelfAware;
use crate::state::Reality;

verus! {

/// How long a dog with something to get rid of, but with no trash can in
/// sight, is to wait, in think ticks.
pub const NO_TRASHCAN_WAIT: isize = 100;

/// The policy of a dog.
#[derive(Debug, Clone, Copy)]
pub struct DogRoutine {
    pub hunter: EntityTypeHunter,
}

/// The goals of a dog that brings what it carries to the trash can on
/// `can`: walk there, then consume what it carries, then walk off to the
/// free cell `away`, if there is one.
pub open spec fn is_delivery(before: Brains, after: Brains, can: Ps, away: Option<Ps>) -> bool {
    let walk = before.intentions@.intended(
        Intention { priority: 0, value: IntentionClass::MoveToPs(can) },
    );
    let consume = walk.intended(
        Intention { priority: -1i32, value: IntentionClass::ConsumeAnyCarriedItem },
    );
    &&& after.intentions@ == match away {
        Some(cell) => consume.intended(
            Intention { priority: -2i32, value: IntentionClass::MoveToDestination(cell) },
        ),
        None => consume,
    }
    &&& after.mem == before.mem
    &&& after.cycles_counter == before.cycles_counter
    &&& after.time_reference == before.time_reference
}

/// What `DogRoutine` does with the mind of a dog on `at`.
///
/// Nothing while the goal phase ends `Pending`, and nothing while the dog
/// has a goal. A dog without a goal that carries something brings it to the
/// nearest trash can, or waits if there is none; a dog without a goal that
/// carries nothing hunts.
pub open spec fn is_dog_policy(
    before: Brains,
    after: Brains,
    result: IntentionCompleted,
    at: Ps,
    carries: bool,
    hunter: EntityTypeHunter,
    map: &Reality,
) -> bool {
    let items = map.carriables.items@;
    if result == IntentionCompleted::Pending || before.intentions@.count() != 0 {
        after == before
    } else if carries {
        if exists|i: int| is_closest(items, Some(TRASHCAN), at, i) {
            exists|i: int, away: Option<Ps>|
                {
                    &&& #[trigger] is_closest(items, Some(TRASHCAN), at, i)
                    &&& #[trigger] is_delivery(before, after, items[i].position, away)
                    &&& match away {
                        Some(cell) => map.cellmap.free(cell, true),
                        None => forall|p: Ps| !map.cellmap.free(p, true),
                    }
                }
        } else {
            announced(before, after, 0, IntentionClass::WaitCycles(NO_TRASHCAN_WAIT))
        }
    } else {
        is_hunter_policy(before, after, result, at, hunter.item_type, hunter.pick, map)
    }
}

impl Routine for DogRoutine {
    /// The dog stays the hunter it is.
    open spec fn decides(
        &self,
        after: &Self,
        mind: Brains,
        decided: Brains,
        result: IntentionCompleted,
        at: Ps,
        holdings: Set<Entity>,
        map: &Reality,
        communication: &Communicator,
    ) -> bool {
        &&& *after == *self
        &&& is_dog_policy(
            mind,
            decided,
            result,
            at,
            exists|e: Entity| holdings.contains(e),
            self.hunter,
            map,
        )
    }

    fn get_processing_fn(
        &mut self,
        sane: &mut Sanity,
        result: IntentionCompleted,
        map: &Reality,
        entity: Entity,
        communication: &Communicator,
        dt: u32,
    )
        ensures
            *final(self) == *old(self),
            is_dog_policy(
                old(sane).mind,
                final(sane).mind,
                result,
                old(sane).mv@.pos(),
                exists|e: Entity| old(sane).carrier@.contains(e),
                old(self).hunter,
                map,
            ),
    {
        match result {
            IntentionCompleted::Success
            | IntentionCompleted::Failure
            | IntentionCompleted::Undefined => {
                if sane.carrier.has_anything() && sane.no_intentions_left() {
                    let target_opt = find_closest_available_with_type(
                        &map.carriables,
                        Some(TRASHCAN),
                        sane.get_current_ps(),
                    );
                    match target_opt {
                        Some(target) => {
                            sane.intend_go_to(target.position);
                            sane.intend_with_priority(-1, IntentionClass::ConsumeAnyCarriedItem);
                            let away = map.cellmap.pick_random_passable_ps();
                            match away {
                                Some(cell) => {
                                    sane.intend_with_priority(
                                        -2,
                                        IntentionClass::MoveToDestination(cell),
                                    );
                                },
                                None => {},
                            }
                            assert(is_delivery(old(sane).mind, sane.mind, target.position, away));
                        },
                        None => {
                            proof {
                                assert forall|i: int|
                                    !is_closest(
                                        map.carriables.items@,
                                        Some(TRASHCAN),
                                        sane.mv@.pos(),
                                        i,
                                    ) by {}
                            }
                            sane.intend(IntentionClass::WaitCycles(NO_TRASHCAN_WAIT))
                        },
                    }
                } else if sane.no_intentions_left() {
                    self.hunter.get_processing_fn(sane, result, map, entity, communication, dt)
                }
            },
            IntentionCompleted::Pending => (),
        }
    }
}

/// A dog.
#[derive(Debug)]
pub struct Dog {
    pub name: String,
    pub initialized: bool,
    pub sa: SelfAware<DogRoutine>,
}

impl Dog {
    /// A dog at rest on `pos` that hunts bones to pick them up. `speed` is
    /// in thousandths of a cell per second.
    pub fn new(name: String, speed: u32, pos: Ps) -> (r: Dog)
        ensures
            r.name == name,
            !r.initialized,
            r.sa.sanity.wf(),
            r.sa.sanity.fresh(speed, pos),
            r.sa.last_result == IntentionCompleted::Undefined,
            r.sa.routine.hunter.item_type == BONE,
            r.sa.routine.hunter.pick,
    {
        Dog {
            name,
            initialized: false,
            sa: SelfAware::new(
                speed,
                pos,
                DogRoutine { hunter: EntityTypeHunter::new(BONE, true) },
            ),
        }
    }
}

impl Initializable for Dog {
    open spec fn ready(&self) -> bool {
        self.initialized
    }

    fn initialize(&mut self, entity: Entity, position: Ps, reality: &mut Reality)
        ensures
            final(self).initialized,
            final(self).name == old(self).name,
            final(self).sa == old(self).sa,
            *final(reality) == *old(reality),
    {
        self.initialized = true;
    }

    fn is_initialized(&self) -> (r: bool) {
        self.initialized
    }
}

impl PsOffsetProvider for Dog {
    open spec fn ps(&self) -> Ps {
        self.sa.sanity.mv@.pos()
    }

    open spec fn offset_in_cell(&self) -> Offset {
        self.sa.sanity.mv@.movement.loc.offset
    }

    fn get_ps(&self) -> (r: Ps) {
        self.sa.get_ps()
    }

    fn get_offset(&self) -> (r: Offset) {
        self.sa.get_offset()
    }
}

} // verus!
