//! Office workers: they work at their desk by day, sleep in their bed by
//! night, and stroll about in between.

use vstd::prelude::*;

use crate::ent::Initializable;
use crate::entity::Entity;
use crate::gametime::Time;
use crate::interactive::InteractiveObjects;
use crate::item_types::{BED, CONPUTER};
use crate::mental::{
    Brains, CortexView, Intention, IntentionClass, IntentionCompleted, PRIORITY_BASE,
};
use crate::messaging::{seen_by, Communicator};
use crate::position::{Ps, PsProvider};
use crate::random::{choose_one, random_below};
use crate::routine::{
    is_go_to_policy, is_random_step_policy, GoToRoutine, RandomStepRoutine, Routine,
};
use crate::sanity::Sanity;
use crate::selfaware::SelfAware;
use crate::state::Reality;

verus! {

/// A stretch of work lasts at least this many simulated minutes ...
pub const WORK_CHUNK_LOW: usize = 5;

/// ... and fewer than this many more.
pub const WORK_CHUNK_SPREAD: usize = 10;

/// A stretch of sleep lasts this many simulated hours.
pub const SLEEP_CHUNK_HOURS: isize = 1;

/// The hours of the day at which a worker works: from nine to five.
pub open spec fn work_time(time: &Time) -> bool {
    time.hours > 8 && time.hours < 18
}

/// The hours of the day at which a worker sleeps: from eleven at night to
/// seven in the morning.
pub open spec fn sleep_time(time: &Time) -> bool {
    time.hours > 22 || time.hours < 7
}

pub fn is_time_to_work(time: &Time) -> (r: bool)
    ensures
        r == work_time(time),
{
    time.hours > 8 && time.hours < 18
}

pub fn is_time_to_sleep(time: &Time) -> (r: bool)
    ensures
        r == sleep_time(time),
{
    time.hours > 22 || time.hours < 7
}

/// The policy of an office worker.
#[derive(Debug)]
pub struct OfficeWorkerRoutine {
    pub walker_routine: GoToRoutine,
    pub assigned_bed: Option<Ps>,
    pub assigned_office: Option<Ps>,
    pub visible_entities: Vec<Entity>,
}

/// The mind `after` is `before` with every goal forgotten.
pub open spec fn forgot_goals(before: Brains, after: Brains) -> bool {
    &&& after.intentions@ == (CortexView { current: None, backlog: Seq::empty() })
    &&& after.mem == before.mem
    &&& after.cycles_counter == before.cycles_counter
    &&& after.time_reference == before.time_reference
}

/// What a worker standing on `at` does about the place `place` that it is
/// to use for a while, at the clock reading `now`.
///
/// Without an interactive object that is used from `place`, nothing. With
/// one, the worker forgets its goals. Standing on `place`, it takes up the
/// goal of using the object for a number of minutes between `low` and `low +
/// spread`, counted from `now`. Elsewhere it does what an agent does whose
/// policy is to go to `place`.
pub open spec fn is_stay_policy(
    before: Brains,
    after: Brains,
    result: IntentionCompleted,
    at: Ps,
    place: Ps,
    low: int,
    spread: int,
    map: &Reality,
) -> bool {
    if map.interactive.none_used_from(place) {
        after == before
    } else if at == place {
        exists|minutes: isize|
            {
                &&& low <= minutes < low + spread
                &&& #[trigger] after.intentions@ == (CortexView {
                    current: Some(
                        Intention {
                            priority: PRIORITY_BASE,
                            value: IntentionClass::UseInteractiveMinutes(minutes),
                        },
                    ),
                    backlog: Seq::empty(),
                })
                &&& after.mem == before.mem
                &&& after.cycles_counter == before.cycles_counter
                &&& after.time_reference == map.time.snapshot_value()
            }
    } else {
        exists|cleared: Brains|
            #[trigger] forgot_goals(before, cleared) && cleared.wf() && is_go_to_policy(
                cleared,
                after,
                result,
                at,
                place,
                &map.cellmap,
            )
    }
}

/// What `OfficeWorkerRoutine` does with the mind of a worker on `at`.
///
/// Nothing while the goal phase ends `Pending`. Else, at sleeping time the
/// worker heads for its bed and sleeps there, at working time it heads for
/// its desk and works there, and at any other time it takes random steps. A
/// worker without a bed does nothing at sleeping time, one without a desk
/// nothing at working time.
pub open spec fn is_office_policy(
    before: Brains,
    after: Brains,
    result: IntentionCompleted,
    at: Ps,
    bed: Option<Ps>,
    office: Option<Ps>,
    map: &Reality,
) -> bool {
    if result == IntentionCompleted::Pending {
        after == before
    } else if sleep_time(&map.time) {
        match bed {
            Some(place) => is_stay_policy(
                before,
                after,
                result,
                at,
                place,
                SLEEP_CHUNK_HOURS * 60,
                1,
                map,
            ),
            None => after == before,
        }
    } else if work_time(&map.time) {
        match office {
            Some(place) => is_stay_policy(
                before,
                after,
                result,
                at,
                place,
                WORK_CHUNK_LOW as int,
                WORK_CHUNK_SPREAD as int,
                map,
            ),
            None => after == before,
        }
    } else {
        is_random_step_policy(before, after, result, at, &map.cellmap)
    }
}

/// The cell that a worker's walks lead to once it was sent to `place`, if
/// they led to `target` before: `place`, if there is one and an interactive
/// object is used from it; `target` otherwise.
pub open spec fn settles_on(target: Ps, place: Option<Ps>, map: &Reality) -> Ps {
    match place {
        Some(cell) if !map.interactive.none_used_from(cell) => cell,
        _ => target,
    }
}

/// The cell that a worker's walks lead to after one turn of its policy, if
/// they led to `target` before: the worker is sent to its bed at sleeping
/// time and to its desk at working time, unless the goal phase ended
/// `Pending`.
pub open spec fn heads_for(
    target: Ps,
    result: IntentionCompleted,
    bed: Option<Ps>,
    office: Option<Ps>,
    map: &Reality,
) -> Ps {
    if result == IntentionCompleted::Pending {
        target
    } else if sleep_time(&map.time) {
        settles_on(target, bed, map)
    } else if work_time(&map.time) {
        settles_on(target, office, map)
    } else {
        target
    }
}

/// Takes up the goal of working for `chunk_size_minutes` simulated
/// minutes, counted from the clock reading `now`.
pub fn do_chunk_of_work(sanity: &mut Sanity, chunk_size_minutes: isize, now: &Time)
    ensures
        final(sanity).mind.intentions@ == old(sanity).mind.intentions@.intended(
            Intention {
                priority: PRIORITY_BASE,
                value: IntentionClass::UseInteractiveMinutes(chunk_size_minutes),
            },
        ),
        final(sanity).mind.mem == old(sanity).mind.mem,
        final(sanity).mind.cycles_counter == old(sanity).mind.cycles_counter,
        final(sanity).mind.time_reference == now.snapshot_value(),
        final(sanity).mv == old(sanity).mv,
        final(sanity).carrier == old(sanity).carrier,
        old(sanity).wf() && now.wf() ==> final(sanity).wf(),
{
    sanity.intend_with_priority_timed(
        PRIORITY_BASE,
        IntentionClass::UseInteractiveMinutes(chunk_size_minutes),
        now,
    )
}

/// Takes up the goal of sleeping for `chunk_size_hours` simulated hours,
/// counted from the clock reading `now`.
pub fn do_chunk_of_sleep(sanity: &mut Sanity, chunk_size_hours: isize, now: &Time)
    requires
        isize::MIN <= chunk_size_hours * 60 <= isize::MAX,
    ensures
        final(sanity).mind.intentions@ == old(sanity).mind.intentions@.intended(
            Intention {
                priority: PRIORITY_BASE,
                value: IntentionClass::UseInteractiveMinutes((chunk_size_hours * 60) as isize),
            },
        ),
        final(sanity).mind.mem == old(sanity).mind.mem,
        final(sanity).mind.cycles_counter == old(sanity).mind.cycles_counter,
        final(sanity).mind.time_reference == now.snapshot_value(),
        final(sanity).mv == old(sanity).mv,
        final(sanity).carrier == old(sanity).carrier,
        old(sanity).wf() && now.wf() ==> final(sanity).wf(),
{
    sanity.intend_with_priority_timed(
        PRIORITY_BASE,
        IntentionClass::UseInteractiveMinutes(chunk_size_hours * 60),
        now,
    )
}

impl OfficeWorkerRoutine {
    /// Heads for `place` and, once there, uses the object there for a
    /// while: for `amount` hours of sleep if `asleep`, else for `amount`
    /// minutes of work.
    fn stay_at(
        &mut self,
        place: Ps,
        amount: isize,
        asleep: bool,
        sanity: &mut Sanity,
        map: &Reality,
        entity: Entity,
        result: IntentionCompleted,
        communication: &Communicator,
        dt: u32,
    )
        requires
            old(sanity).wf(),
            map.wf(),
            asleep ==> isize::MIN <= amount * 60 <= isize::MAX,
        ensures
            final(sanity).wf(),
            final(sanity).mv == old(sanity).mv,
            final(sanity).carrier == old(sanity).carrier,
            final(sanity).mind.mem == old(sanity).mind.mem,
            final(self).assigned_bed == old(self).assigned_bed,
            final(self).assigned_office == old(self).assigned_office,
            final(self).visible_entities == old(self).visible_entities,
            final(self).walker_routine.target == settles_on(
                old(self).walker_routine.target,
                Some(place),
                map,
            ),
            is_stay_policy(
                old(sanity).mind,
                final(sanity).mind,
                result,
                old(sanity).mv@.pos(),
                place,
                if asleep {
                    amount * 60
                } else {
                    amount as int
                },
                1,
                map,
            ),
    {
        match map.interactive.find_used_from(place) {
            Some(_) => {
                assert(!map.interactive.none_used_from(place)) by {
                    let i = choose|i: int| map.interactive.first_used_from(place, i);
                    assert(map.interactive.items[i].interactive_ps() == Some(place));
                }
                self.walker_routine.target = place;
                sanity.reset_intentions();
                let ghost cleared = sanity.mind;
                assert(forgot_goals(old(sanity).mind, cleared)) by {
                    assert(cleared.intentions@.backlog =~= Seq::empty());
                }
                let here: Ps = sanity.get_current_ps();
                if sanity.no_intentions_left() && here.x == place.x && here.y == place.y {
                    if asleep {
                        do_chunk_of_sleep(sanity, amount, &map.time);
                    } else {
                        do_chunk_of_work(sanity, amount, &map.time);
                    }
                    assert(sanity.mind.intentions@.backlog =~= Seq::empty());
                }
                self.walker_routine.get_processing_fn(sanity, result, map, entity, communication,
                    dt);
            },
            None => {},
        }
    }

    /// Sleeping time: the worker heads for its bed and sleeps there.
    pub fn sleep(
        &mut self,
        sanity: &mut Sanity,
        map: &Reality,
        entity: Entity,
        result: IntentionCompleted,
        communication: &Communicator,
        dt: u32,
    )
        requires
            old(sanity).wf(),
            map.wf(),
            result != IntentionCompleted::Pending,
        ensures
            final(sanity).wf(),
            final(sanity).mv == old(sanity).mv,
            final(sanity).carrier == old(sanity).carrier,
            final(sanity).mind.mem == old(sanity).mind.mem,
            final(self).assigned_bed == old(self).assigned_bed,
            final(self).assigned_office == old(self).assigned_office,
            final(self).visible_entities == old(self).visible_entities,
            final(self).walker_routine.target == settles_on(
                old(self).walker_routine.target,
                old(self).assigned_bed,
                map,
            ),
            match old(self).assigned_bed {
                Some(place) => is_stay_policy(
                    old(sanity).mind,
                    final(sanity).mind,
                    result,
                    old(sanity).mv@.pos(),
                    place,
                    SLEEP_CHUNK_HOURS * 60,
                    1,
                    map,
                ),
                None => final(sanity).mind == old(sanity).mind,
            },
    {
        match self.assigned_bed {
            Some(bed) => {
                self.stay_at(
                    bed,
                    SLEEP_CHUNK_HOURS,
                    true,
                    sanity,
                    map,
                    entity,
                    result,
                    communication,
                    dt,
                );
            },
            None => {},
        }
    }

    /// Working time: the worker heads for its desk and works there.
    pub fn work(
        &mut self,
        sanity: &mut Sanity,
        map: &Reality,
        entity: Entity,
        result: IntentionCompleted,
        communication: &Communicator,
        dt: u32,
    )
        requires
            old(sanity).wf(),
            map.wf(),
            result != IntentionCompleted::Pending,
        ensures
            final(sanity).wf(),
            final(sanity).mv == old(sanity).mv,
            final(sanity).carrier == old(sanity).carrier,
            final(sanity).mind.mem == old(sanity).mind.mem,
            final(self).assigned_bed == old(self).assigned_bed,
            final(self).assigned_office == old(self).assigned_office,
            final(self).visible_entities == old(self).visible_entities,
            final(self).walker_routine.target == settles_on(
                old(self).walker_routine.target,
                old(self).assigned_office,
                map,
            ),
            match old(self).assigned_office {
                Some(place) => is_stay_policy(
                    old(sanity).mind,
                    final(sanity).mind,
                    result,
                    old(sanity).mv@.pos(),
                    place,
                    WORK_CHUNK_LOW as int,
                    WORK_CHUNK_SPREAD as int,
                    map,
                ),
                None => final(sanity).mind == old(sanity).mind,
            },
    {
        match self.assigned_office {
            Some(office) => {
                let minutes: usize = WORK_CHUNK_LOW + random_below(WORK_CHUNK_SPREAD);
                self.stay_at(
                    office,
                    minutes as isize,
                    false,
                    sanity,
                    map,
                    entity,
                    result,
                    communication,
                    dt,
                );
            },
            None => {},
        }
    }
}

impl Routine for OfficeWorkerRoutine {
    /// The worker keeps its bed and its desk, notes whom it can see, and
    /// turns its walks to where it is sent.
    open spec fn decides(
        &self,
        after: &Self,
        mind: Brains,
        decided: Brains,
        result: IntentionCompleted,
        at: Ps,
        holdings: Set<Entity>,
        map: &Reality,
        communication: &Communicator,
    ) -> bool {
        &&& after.assigned_bed == self.assigned_bed
        &&& after.assigned_office == self.assigned_office
        &&& after.visible_entities@ == seen_by(*communication, map)
        &&& after.walker_routine.target == heads_for(
            self.walker_routine.target,
            result,
            self.assigned_bed,
            self.assigned_office,
            map,
        )
        &&& is_office_policy(
            mind,
            decided,
            result,
            at,
            self.assigned_bed,
            self.assigned_office,
            map,
        )
    }

    fn get_processing_fn(
        &mut self,
        sane: &mut Sanity,
        result: IntentionCompleted,
        map: &Reality,
        entity: Entity,
        communication: &Communicator,
        dt: u32,
    )
        ensures
            final(self).assigned_bed == old(self).assigned_bed,
            final(self).assigned_office == old(self).assigned_office,
            final(self).visible_entities@ == seen_by(*communication, map),
            is_office_policy(
                old(sane).mind,
                final(sane).mind,
                result,
                old(sane).mv@.pos(),
                old(self).assigned_bed,
                old(self).assigned_office,
                map,
            ),
    {
        self.visible_entities = communication.find_visible_entities(map);
        match result {
            IntentionCompleted::Success
            | IntentionCompleted::Failure
            | IntentionCompleted::Undefined => {
                if is_time_to_sleep(&map.time) {
                    self.sleep(sane, map, entity, result, communication, dt);
                    return ;
                }
                if is_time_to_work(&map.time) {
                    self.work(sane, map, entity, result, communication, dt);
                    return ;
                }
                let mut stroll = RandomStepRoutine;
                stroll.get_processing_fn(sane, result, map, entity, communication, dt);
            },
            IntentionCompleted::Pending => (),
        }
    }
}

/// An office worker.
#[derive(Debug)]
pub struct OfficeWorker {
    pub sa: SelfAware<OfficeWorkerRoutine>,
    pub initialized: bool,
    pub name: String,
}

/// The object at index `i` of `objects` is the one that `after` has
/// assigned, and the cell it is used from is `place`.
pub open spec fn took_object(
    objects: &InteractiveObjects,
    after: &InteractiveObjects,
    i: int,
    item_type: &'static str,
    place: Option<Ps>,
) -> bool {
    &&& objects.assignable(i, Some(item_type))
    &&& after.items[i] == objects.items[i].assigned_now()
    &&& place == objects.items[i].interactive_ps()
}

/// A desk and a bed are free to be assigned.
pub open spec fn can_settle(objects: &InteractiveObjects) -> bool {
    (exists|i: int| objects.assignable(i, Some(CONPUTER))) && (exists|i: int|
        objects.assignable(i, Some(BED)))
}

impl OfficeWorker {
    /// A worker at rest on `pos`, without a desk or a bed yet. `speed` is
    /// in thousandths of a cell per second.
    pub fn new(name: String, speed: u32, pos: Ps) -> (r: OfficeWorker)
        ensures
            r.name == name,
            !r.initialized,
            r.sa.sanity.wf(),
            r.sa.sanity.fresh(speed, pos),
            r.sa.last_result == IntentionCompleted::Undefined,
            r.sa.routine.walker_routine.target == pos,
            r.sa.routine.assigned_bed is None,
            r.sa.routine.assigned_office is None,
            r.sa.routine.visible_entities@.len() == 0,
    {
        OfficeWorker {
            name,
            initialized: false,
            sa: SelfAware::new(
                speed,
                pos,
                OfficeWorkerRoutine {
                    walker_routine: GoToRoutine { target: pos },
                    assigned_bed: None,
                    assigned_office: None,
                    visible_entities: Vec::new(),
                },
            ),
        }
    }

    pub fn assign_bed(&mut self, bed: Ps)
        ensures
            final(self).sa.routine.assigned_bed == Some(bed),
            final(self).sa.routine.assigned_office == old(self).sa.routine.assigned_office,
            final(self).sa.routine.walker_routine == old(self).sa.routine.walker_routine,
            final(self).sa.routine.visible_entities == old(self).sa.routine.visible_entities,
            final(self).sa.sanity == old(self).sa.sanity,
            final(self).sa.last_result == old(self).sa.last_result,
            final(self).initialized == old(self).initialized,
            final(self).name == old(self).name,
    {
        self.sa.routine.assigned_bed = Some(bed)
    }

    pub fn assign_office(&mut self, office: Ps)
        ensures
            final(self).sa.routine.assigned_office == Some(office),
            final(self).sa.routine.assigned_bed == old(self).sa.routine.assigned_bed,
            final(self).sa.routine.walker_routine == old(self).sa.routine.walker_routine,
            final(self).sa.routine.visible_entities == old(self).sa.routine.visible_entities,
            final(self).sa.sanity == old(self).sa.sanity,
            final(self).sa.last_result == old(self).sa.last_result,
            final(self).initialized == old(self).initialized,
            final(self).name == old(self).name,
    {
        self.sa.routine.assigned_office = Some(office)
    }
}

impl Initializable for OfficeWorker {
    open spec fn ready(&self) -> bool {
        self.initialized
    }

    /// Gives the worker a desk and a bed: one object of each type, picked at
    /// random among those that are free to be assigned, is assigned, and the
    /// worker notes the cells from which they are used. Where a desk or a
    /// bed cannot be had, nothing changes, and a worker that was not
    /// initialized stays so.
    fn initialize(&mut self, entity: Entity, position: Ps, reality: &mut Reality)
        ensures
            final(reality).carriables == old(reality).carriables,
            final(reality).interactive.items.len() == old(reality).interactive.items.len(),
            final(self).name == old(self).name,
            final(self).sa.sanity == old(self).sa.sanity,
            final(self).initialized == (old(self).initialized || can_settle(
                &old(reality).interactive,
            )),
            !can_settle(&old(reality).interactive) ==> *final(reality) == *old(reality)
                && final(self).sa == old(self).sa,
            can_settle(&old(reality).interactive) ==> exists|desk: int, bed: int|
                {
                    &&& #[trigger] took_object(
                        &old(reality).interactive,
                        &final(reality).interactive,
                        desk,
                        CONPUTER,
                        final(self).sa.routine.assigned_office,
                    )
                    &&& #[trigger] took_object(
                        &old(reality).interactive,
                        &final(reality).interactive,
                        bed,
                        BED,
                        final(self).sa.routine.assigned_bed,
                    )
                    &&& forall|k: int|
                        0 <= k < old(reality).interactive.items.len() && k != desk && k != bed
                            ==> final(reality).interactive.items[k]
                                == #[trigger] old(reality).interactive.items[k]
                },
    {
        let desks = reality.interactive.find_assignable(Some(CONPUTER));
        let beds = reality.interactive.find_assignable(Some(BED));
        let desk: usize = match choose_one(&desks) {
            Some(index) => *index,
            None => {
                assert forall|i: int| !reality.interactive.assignable(i, Some(CONPUTER)) by {
                    if reality.interactive.assignable(i, Some(CONPUTER)) {
                        assert(desks@.contains(i as usize));
                    }
                }
                return ;
            },
        };
        let bed: usize = match choose_one(&beds) {
            Some(index) => *index,
            None => {
                assert forall|i: int| !reality.interactive.assignable(i, Some(BED)) by {
                    if reality.interactive.assignable(i, Some(BED)) {
                        assert(beds@.contains(i as usize));
                    }
                }
                return ;
            },
        };
        assert(reality.interactive.assignable(desk as int, Some(CONPUTER)));
        assert(reality.interactive.assignable(bed as int, Some(BED)));
        proof {
            reveal_strlit("bed");
            reveal_strlit("conputer");
            assert(BED@.len() != CONPUTER@.len());
        }
        assert(bed != desk);
        let mut office_handle = reality.interactive.items[desk];
        self.sa.routine.assigned_office = office_handle.get_interactive_ps();
        office_handle.assign();
        let mut bed_handle = reality.interactive.items[bed];
        self.sa.routine.assigned_bed = bed_handle.get_interactive_ps();
        bed_handle.assign();
        reality.interactive.items.set(desk, office_handle);
        reality.interactive.items.set(bed, bed_handle);
        self.initialized = true;
        assert(took_object(
            &old(reality).interactive,
            &reality.interactive,
            desk as int,
            CONPUTER,
            self.sa.routine.assigned_office,
        ));
        assert(took_object(
            &old(reality).interactive,
            &reality.interactive,
            bed as int,
            BED,
            self.sa.routine.assigned_bed,
        ));
    }

    fn is_initialized(&self) -> (r: bool) {
        self.initialized
    }
}

} // verus!
