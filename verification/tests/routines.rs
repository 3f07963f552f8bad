use grid_agents::carriableitem::CarriableItemHandle;
use grid_agents::creatures::PsOffsetProvider;
use grid_agents::dog::{Dog, DogRoutine, NO_TRASHCAN_WAIT};
use grid_agents::ent::{Bed, Bone, Conputer, Grass, Initializable, TrashCan};
use grid_agents::gametime::Time;
use grid_agents::interactive::InteractiveObjectHandle;
use grid_agents::item_types::{BED, BONE, CONPUTER, TRASHCAN};
use grid_agents::mental::{Intention, IntentionClass, IntentionCompleted, PRIORITY_BASE};
use grid_agents::messaging::Communicator;
use grid_agents::officeworker::{
    do_chunk_of_sleep, do_chunk_of_work, is_time_to_sleep, is_time_to_work, OfficeWorker, OfficeWorkerRoutine,
};
use grid_agents::position::{Offset, Ps, PsProvider, PsSigned};
use grid_agents::routine::{
    EntityTypeHunter, GoToRandomFreePsRoutine, GoToRoutine, NoRoutine, RandomStepRoutine, RandomWalkRoutine,
    Routine, BLOCKED_STEP_WAIT,
};
use grid_agents::sanity::Sanity;
use grid_agents::selfaware::SelfAware;
use grid_agents::state::{Reality, START_MINUTES};
use grid_agents::worldmap::{Cell, Cellmap};

fn grid(w: usize, h: usize, blocked: &[(usize, usize)]) -> Cellmap {
    let mut cells = Vec::new();
    for y in 0..h {
        for x in 0..w {
            cells.push(Some(Cell::new(Ps { x, y }, !blocked.contains(&(x, y)))));
        }
    }
    Cellmap::new(cells, w as i32, h as i32).unwrap()
}

fn world(w: usize, h: usize, blocked: &[(usize, usize)]) -> Reality {
    Reality::new(grid(w, h, blocked))
}

fn item(item_type: &'static str, id: u64, x: usize, y: usize) -> CarriableItemHandle {
    CarriableItemHandle {
        item_id: id,
        item_type,
        carried_by: None,
        position: Ps { x, y },
        offset: Offset { x: 0, y: 0 },
        personal_offset: Offset { x: 0, y: 0 },
        consumed: false,
    }
}

fn goals(agent: &mut Sanity) -> Vec<Intention> {
    let mut out = Vec::new();
    while let Some(goal) = *agent.mind.intentions.get_current() {
        out.push(goal);
        agent.mind.intentions.finish_current();
    }
    out
}

fn ask<R: Routine>(routine: &mut R, agent: &mut Sanity, result: IntentionCompleted, world: &Reality) {
    let eyes = Communicator::new(agent.get_current_ps());
    routine.get_processing_fn(agent, result, world, 1, &eyes, 16);
}

const ALL: [IntentionCompleted; 4] = [
    IntentionCompleted::Success,
    IntentionCompleted::Failure,
    IntentionCompleted::Pending,
    IntentionCompleted::Undefined,
];

#[test]
fn a_new_world_is_empty() {
    let world = world(4, 3, &[]);
    assert_eq!(world.cellmap.wh_usize(), (4, 3));
    assert_eq!(world.comm_map.wh_usize(), (4, 3));
    assert_eq!(world.comm_map.map.len(), 12);
    assert!(world.comm_map.map.iter().all(|c| c.is_empty()));
    assert_eq!(world.carriables.len(), 0);
    assert!(world.interactive.items.is_empty());
    assert_eq!(world.time.total_minutes(), START_MINUTES);
    assert_eq!(world.time.hours, 16);
}

#[test]
fn no_routine_does_nothing() {
    let world = world(3, 3, &[]);
    for result in ALL {
        let mut agent = Sanity::new(1000, Ps { x: 1, y: 1 });
        ask(&mut NoRoutine, &mut agent, result, &world);
        assert!(agent.no_intentions_left());
    }
    let _mark = GoToRandomFreePsRoutine;
}

#[test]
fn a_random_step_goes_to_a_free_neighbour() {
    let world = world(3, 3, &[(1, 0)]);
    for result in [IntentionCompleted::Success, IntentionCompleted::Failure, IntentionCompleted::Undefined] {
        let mut walks = 0;
        let mut waits = 0;
        for _ in 0..200 {
            let mut agent = Sanity::new(1000, Ps { x: 1, y: 1 });
            ask(&mut RandomStepRoutine, &mut agent, result, &world);
            let announced = goals(&mut agent);
            assert_eq!(announced.len(), 1);
            match announced[0] {
                Intention { priority: 0, value: IntentionClass::MoveToPs(cell) } => {
                    assert!([Ps { x: 0, y: 1 }, Ps { x: 2, y: 1 }, Ps { x: 1, y: 2 }].contains(&cell));
                    walks += 1;
                }
                Intention { priority: PRIORITY_BASE, value: IntentionClass::WaitCycles(BLOCKED_STEP_WAIT) } => {
                    assert_eq!(agent.mind.cycles_counter, BLOCKED_STEP_WAIT);
                    waits += 1;
                }
                other => panic!("unexpected goal {:?}", other),
            }
        }
        assert!(walks > 0 && waits > 0);
    }
}

#[test]
fn a_random_step_is_only_taken_by_an_idle_agent() {
    let world = world(3, 3, &[]);
    let mut agent = Sanity::new(1000, Ps { x: 1, y: 1 });
    ask(&mut RandomStepRoutine, &mut agent, IntentionCompleted::Pending, &world);
    assert!(agent.no_intentions_left());
    agent.intend(IntentionClass::PickAnyItem);
    ask(&mut RandomStepRoutine, &mut agent, IntentionCompleted::Success, &world);
    assert_eq!(agent.mind.intentions.intentions_left(), 1);
    let mut corner = Sanity::new(1000, Ps { x: 0, y: 0 });
    let mut blocked = Reality::new(grid(2, 2, &[(1, 0), (0, 1)]));
    blocked.cellmap.occupy_xy(0, 0);
    ask(&mut RandomStepRoutine, &mut corner, IntentionCompleted::Undefined, &blocked);
    assert!(matches!(goals(&mut corner)[..], [Intention { priority: PRIORITY_BASE, value: IntentionClass::WaitCycles(10) }]));
}

#[test]
fn a_random_walk_heads_for_a_free_cell() {
    let mut world = world(4, 4, &[(1, 1), (2, 2)]);
    world.cellmap.occupy_xy(0, 0);
    for result in [IntentionCompleted::Success, IntentionCompleted::Undefined] {
        for _ in 0..50 {
            let mut agent = Sanity::new(1000, Ps { x: 0, y: 0 });
            ask(&mut RandomWalkRoutine, &mut agent, result, &world);
            match goals(&mut agent)[..] {
                [Intention { priority: 0, value: IntentionClass::MoveToPs(cell) }] => {
                    assert!(world.cellmap.is_free(&cell, true));
                }
                _ => panic!("a walk was expected"),
            }
        }
    }
    let mut agent = Sanity::new(1000, Ps { x: 0, y: 0 });
    ask(&mut RandomWalkRoutine, &mut agent, IntentionCompleted::Pending, &world);
    assert!(agent.no_intentions_left());
    ask(&mut RandomWalkRoutine, &mut agent, IntentionCompleted::Failure, &world);
    match goals(&mut agent)[..] {
        [Intention { priority: 0, value: IntentionClass::MoveToPs(cell) }] => {
            assert_eq!(cell.manhattan_distance(&Ps { x: 0, y: 0 }), 1);
        }
        [Intention { priority: PRIORITY_BASE, value: IntentionClass::WaitCycles(10) }] => {}
        _ => panic!("a step or a wait was expected"),
    }
    let full = Reality::new(grid(2, 1, &[(0, 0), (1, 0)]));
    ask(&mut RandomWalkRoutine, &mut agent, IntentionCompleted::Success, &full);
    assert!(agent.no_intentions_left());
}

#[test]
fn a_goer_heads_for_its_target() {
    let world = world(5, 5, &[]);
    let mut routine = GoToRoutine { target: Ps { x: 4, y: 4 } };
    for result in [IntentionCompleted::Success, IntentionCompleted::Undefined] {
        let mut agent = Sanity::new(1000, Ps { x: 0, y: 0 });
        ask(&mut routine, &mut agent, result, &world);
        assert!(matches!(
            goals(&mut agent)[..],
            [Intention { priority: 0, value: IntentionClass::MoveToPs(Ps { x: 4, y: 4 }) }]
        ));
    }
    let mut agent = Sanity::new(1000, Ps { x: 0, y: 0 });
    ask(&mut routine, &mut agent, IntentionCompleted::Pending, &world);
    assert!(agent.no_intentions_left());
    ask(&mut routine, &mut agent, IntentionCompleted::Failure, &world);
    match goals(&mut agent)[..] {
        [Intention { priority: 0, value: IntentionClass::MoveToPs(cell) }] => {
            assert_eq!(cell.manhattan_distance(&Ps { x: 0, y: 0 }), 1);
        }
        [Intention { priority: PRIORITY_BASE, value: IntentionClass::WaitCycles(10) }] => {}
        _ => panic!("a step or a wait was expected"),
    }
    assert_eq!(routine.target, Ps { x: 4, y: 4 });
}

#[test]
fn a_hunter_goes_for_the_nearest_item_of_its_type() {
    let mut world = world(9, 9, &[]);
    world.carriables.insert(item("stick", 1, 4, 5));
    world.carriables.insert(item("bone", 2, 8, 8));
    world.carriables.insert(item("bone", 3, 4, 7));
    let mut taken = item("bone", 4, 4, 4);
    taken.take(50);
    world.carriables.insert(taken);
    for (pick, result) in [(true, IntentionCompleted::Success), (false, IntentionCompleted::Failure), (true, IntentionCompleted::Undefined)] {
        let mut hunter = EntityTypeHunter::new("bone", pick);
        let mut agent = Sanity::new(1000, Ps { x: 4, y: 4 });
        ask(&mut hunter, &mut agent, result, &world);
        let announced = goals(&mut agent);
        assert_eq!(announced.len(), 2);
        assert!(matches!(announced[0], Intention { priority: 2, value: IntentionClass::MoveToPs(Ps { x: 4, y: 7 }) }));
        if pick {
            assert!(matches!(announced[1], Intention { priority: 1, value: IntentionClass::PickItemOfType("bone") }));
        } else {
            assert!(matches!(announced[1], Intention { priority: 1, value: IntentionClass::ConsumeItemOfType("bone") }));
        }
    }
    let mut hunter = EntityTypeHunter::new("bone", true);
    let mut busy = Sanity::new(1000, Ps { x: 4, y: 4 });
    busy.intend(IntentionClass::PickAnyItem);
    ask(&mut hunter, &mut busy, IntentionCompleted::Success, &world);
    assert_eq!(busy.mind.intentions.intentions_left(), 1);
    let mut idle = Sanity::new(1000, Ps { x: 4, y: 4 });
    ask(&mut hunter, &mut idle, IntentionCompleted::Pending, &world);
    assert!(idle.no_intentions_left());
}

#[test]
fn a_hunter_without_prey_walks_at_random() {
    let mut world = world(5, 5, &[]);
    world.carriables.insert(item("stick", 1, 4, 4));
    let mut hunter = EntityTypeHunter::new("bone", true);
    let mut agent = Sanity::new(1000, Ps { x: 2, y: 2 });
    ask(&mut hunter, &mut agent, IntentionCompleted::Success, &world);
    assert!(matches!(goals(&mut agent)[..], [Intention { priority: 0, value: IntentionClass::MoveToPs(_) }]));
    assert_eq!(hunter.item_type, "bone");
    assert!(hunter.pick);
}

#[test]
fn a_dog_with_a_bone_heads_for_the_trash_can() {
    let mut world = world(9, 9, &[]);
    world.carriables.insert(item(TRASHCAN, 1, 8, 8));
    world.carriables.insert(item(TRASHCAN, 2, 6, 5));
    let mut bone = item(BONE, 3, 4, 4);
    let mut dog = Dog::new(String::from("Rex"), 4000, Ps { x: 4, y: 4 });
    assert_eq!(dog.name, "Rex");
    assert!(!dog.is_initialized());
    dog.initialize(9, Ps { x: 4, y: 4 }, &mut world);
    assert!(dog.is_initialized());
    assert_eq!(dog.get_ps(), Ps { x: 4, y: 4 });
    assert_eq!(dog.get_offset(), Offset { x: 0, y: 500 });
    dog.sa.sanity.carrier.pick_up(9, &mut bone);
    world.carriables.insert(bone);
    let eyes = Communicator::new(Ps { x: 4, y: 4 });
    dog.sa.think_routine_level(IntentionCompleted::Success, &world, 9, &eyes, 16);
    let announced = goals(&mut dog.sa.sanity);
    assert_eq!(announced.len(), 3);
    assert!(matches!(announced[0], Intention { priority: 0, value: IntentionClass::MoveToPs(Ps { x: 6, y: 5 }) }));
    assert!(matches!(announced[1], Intention { priority: -1, value: IntentionClass::ConsumeAnyCarriedItem }));
    match announced[2] {
        Intention { priority: -2, value: IntentionClass::MoveToDestination(cell) } => {
            assert!(world.cellmap.is_free(&cell, true));
        }
        _ => panic!("a walk away was expected"),
    }
}

#[test]
fn a_dog_without_a_trash_can_waits() {
    let mut world = world(5, 5, &[]);
    let mut bone = item(BONE, 3, 2, 2);
    let mut agent = Sanity::new(1000, Ps { x: 2, y: 2 });
    agent.carrier.pick_up(9, &mut bone);
    world.carriables.insert(bone);
    let mut routine = DogRoutine { hunter: EntityTypeHunter::new(BONE, true) };
    ask(&mut routine, &mut agent, IntentionCompleted::Undefined, &world);
    assert!(matches!(
        goals(&mut agent)[..],
        [Intention { priority: 0, value: IntentionClass::WaitCycles(NO_TRASHCAN_WAIT) }]
    ));
    assert_eq!(agent.mind.cycles_counter, 0);
}

#[test]
fn a_dog_with_empty_jaws_hunts_bones() {
    let mut world = world(5, 5, &[]);
    world.carriables.insert(item(TRASHCAN, 1, 0, 0));
    world.carriables.insert(item(BONE, 2, 3, 2));
    let mut routine = DogRoutine { hunter: EntityTypeHunter::new(BONE, true) };
    let mut agent = Sanity::new(1000, Ps { x: 2, y: 2 });
    ask(&mut routine, &mut agent, IntentionCompleted::Failure, &world);
    let announced = goals(&mut agent);
    assert!(matches!(announced[0], Intention { priority: 2, value: IntentionClass::MoveToPs(Ps { x: 3, y: 2 }) }));
    assert!(matches!(announced[1], Intention { priority: 1, value: IntentionClass::PickItemOfType("bone") }));
    ask(&mut routine, &mut agent, IntentionCompleted::Pending, &world);
    assert!(agent.no_intentions_left());
    agent.intend(IntentionClass::PickAnyItem);
    ask(&mut routine, &mut agent, IntentionCompleted::Success, &world);
    assert_eq!(agent.mind.intentions.intentions_left(), 1);
}

#[test]
fn a_dog_fetches_a_bone_and_bins_it() {
    let mut world = world(6, 1, &[]);
    world.carriables.insert(item(BONE, 100, 2, 0));
    world.carriables.insert(item(TRASHCAN, 101, 5, 0));
    let mut dog = Dog::new(String::from("Rex"), 1000, Ps { x: 0, y: 0 });
    let mut binned = false;
    for _ in 0..60 {
        let eyes = Communicator::new(dog.get_ps());
        dog.sa.think(9, &mut world, &eyes, 1000);
        dog.sa.step(&mut world);
        let bone = world.carriables.get(100).unwrap();
        if bone.carried_by == Some(9) {
            assert!(dog.sa.sanity.carrier.has_item(&100));
        }
        if bone.consumed {
            assert_eq!(bone.carried_by, None);
            assert!(!dog.sa.sanity.carrier.has_anything());
            assert_eq!(bone.position, Ps { x: 5, y: 0 });
            binned = true;
            break;
        }
    }
    assert!(binned);
    assert!(world.carriables.get(101).unwrap().available());
}

#[test]
fn an_agent_with_a_policy_walks_to_its_target() {
    let mut world = world(4, 1, &[]);
    let mut agent = SelfAware::new(1000, Ps { x: 0, y: 0 }, GoToRoutine { target: Ps { x: 3, y: 0 } });
    assert_eq!(agent.last_result, IntentionCompleted::Undefined);
    let eyes = Communicator::new(Ps { x: 0, y: 0 });
    assert_eq!(agent.think(1, &mut world, &eyes, 1000), IntentionCompleted::Pending);
    assert!(!agent.step(&mut world));
    assert_eq!(agent.get_ps(), Ps { x: 1, y: 0 });
    assert_eq!(agent.get_offset(), Offset { x: -1000, y: 500 });
    assert_eq!(agent.think(1, &mut world, &eyes, 1000), IntentionCompleted::Pending);
    assert!(!agent.step(&mut world));
    assert_eq!(agent.think(1, &mut world, &eyes, 1000), IntentionCompleted::Pending);
    assert!(agent.step(&mut world));
    assert_eq!(agent.get_ps(), Ps { x: 3, y: 0 });
    assert_eq!(agent.think(1, &mut world, &eyes, 1000), IntentionCompleted::Success);
    assert_eq!(agent.last_result, IntentionCompleted::Success);
    assert!(!agent.step(&mut world));
    assert_eq!(agent.get_ps(), Ps { x: 3, y: 0 });
    assert_eq!(agent.get_offset(), Offset { x: 0, y: 0 });
    assert!(world.cellmap.get_xy(3, 0).status.occupied);
}

#[test]
fn three_ticks_walk_three_cells() {
    let mut world = world(4, 1, &[]);
    let mut agent = SelfAware::new(1000, Ps { x: 0, y: 0 }, NoRoutine);
    agent.sanity.intend_go_to(Ps { x: 3, y: 0 });
    let eyes = Communicator::new(Ps { x: 0, y: 0 });
    for n in 1..=3 {
        assert_eq!(agent.tick(1, &mut world, &eyes, 1000), IntentionCompleted::Pending);
        assert_eq!(agent.get_ps(), Ps { x: n, y: 0 });
        assert!(world.cellmap.get_xy(n, 0).status.occupied);
        assert!(!world.cellmap.get_xy(n - 1, 0).status.occupied);
    }
    assert_eq!(agent.tick(1, &mut world, &eyes, 1000), IntentionCompleted::Success);
    assert_eq!(agent.get_ps(), Ps { x: 3, y: 0 });
    assert_eq!(agent.get_offset(), Offset { x: 0, y: 0 });
    assert_eq!(agent.sanity.mv.movement.loc.direction, None);
    assert!(agent.sanity.no_intentions_left());
    assert_eq!(agent.tick(1, &mut world, &eyes, 1000), IntentionCompleted::Undefined);
    assert_eq!(agent.get_ps(), Ps { x: 3, y: 0 });
}

#[test]
fn agents_that_think_first_and_act_in_turn_stay_apart() {
    let mut world = world(5, 5, &[]);
    let starts = [(0usize, 2usize), (4, 2), (2, 0), (2, 4), (0, 0), (4, 4)];
    let mut agents: Vec<SelfAware<GoToRoutine>> = starts
        .iter()
        .map(|(x, y)| SelfAware::new(1000, Ps { x: *x, y: *y }, GoToRoutine { target: Ps { x: 2, y: 2 } }))
        .collect();
    for agent in agents.iter() {
        world.cellmap.occupy_ps(&agent.get_ps());
    }
    for _ in 0..40 {
        for (id, agent) in agents.iter_mut().enumerate() {
            let eyes = Communicator::new(agent.get_ps());
            agent.think(id as u64, &mut world, &eyes, 1000);
        }
        for agent in agents.iter_mut() {
            agent.step(&mut world);
        }
        let mut places: Vec<Ps> = agents.iter().map(|a| a.get_ps()).collect();
        for place in places.iter() {
            assert!(world.cellmap.get_pos(place).status.occupied);
        }
        places.sort_by_key(|p| (p.x, p.y));
        places.dedup();
        assert_eq!(places.len(), agents.len());
        assert_eq!(world.cellmap.map.iter().filter(|c| c.status.occupied).count(), agents.len());
    }
    assert_eq!(agents.iter().filter(|a| a.get_ps() == Ps { x: 2, y: 2 }).count(), 1);
}

#[test]
fn a_sliding_agent_only_slides() {
    let mut world = world(4, 1, &[]);
    let mut agent = SelfAware::new(250, Ps { x: 0, y: 0 }, GoToRoutine { target: Ps { x: 3, y: 0 } });
    let eyes = Communicator::new(Ps { x: 0, y: 0 });
    agent.think(1, &mut world, &eyes, 1000);
    agent.step(&mut world);
    for n in 1..4 {
        assert_eq!(agent.think(1, &mut world, &eyes, 1000), IntentionCompleted::Pending);
        assert!(!agent.step(&mut world));
        assert_eq!(agent.get_ps(), Ps { x: 1, y: 0 });
        assert_eq!(agent.get_offset().x, -1000 + 250 * n);
    }
    assert_eq!(agent.think(1, &mut world, &eyes, 1000), IntentionCompleted::Pending);
    assert_eq!(agent.get_offset(), Offset { x: 0, y: 0 });
    agent.step(&mut world);
    assert_eq!(agent.get_ps(), Ps { x: 2, y: 0 });
}

#[test]
fn working_and_sleeping_hours() {
    for (hour, work, sleep) in [(0, false, true), (6, false, true), (7, false, false), (8, false, false), (9, true, false), (17, true, false), (18, false, false), (22, false, false), (23, false, true)] {
        let time = Time { days: 3, hours: hour, minutes: 30, fraction: 0, speed: 10 };
        assert_eq!(is_time_to_work(&time), work);
        assert_eq!(is_time_to_sleep(&time), sleep);
    }
}

#[test]
fn chunks_of_work_and_sleep() {
    let now = Time { days: 1, hours: 9, minutes: 30, fraction: 400, speed: 10 };
    let mut agent = Sanity::new(1000, Ps { x: 0, y: 0 });
    do_chunk_of_work(&mut agent, 12, &now);
    assert_eq!(agent.mind.time_reference, Time { days: 1, hours: 9, minutes: 30, fraction: 0, speed: 10 });
    do_chunk_of_sleep(&mut agent, 2, &now);
    let announced = goals(&mut agent);
    assert!(matches!(announced[0], Intention { priority: PRIORITY_BASE, value: IntentionClass::UseInteractiveMinutes(12) }));
    assert!(matches!(announced[1], Intention { priority: PRIORITY_BASE, value: IntentionClass::UseInteractiveMinutes(120) }));
    assert_eq!(announced.len(), 2);
}

#[test]
fn things_enter_the_registries() {
    let mut world = world(6, 6, &[]);
    let mut bed = Bed::new();
    assert!(!bed.is_initialized());
    bed.initialize(1, Ps { x: 1, y: 1 }, &mut world);
    assert!(bed.is_initialized());
    let mut desk = Conputer::new(PsSigned { x: 0, y: 1 });
    assert!(desk.use_animation_playing);
    desk.initialize(2, Ps { x: 4, y: 4 }, &mut world);
    assert!(desk.is_initialized());
    assert_eq!(desk.handle_position, Some(Ps { x: 4, y: 3 }));
    let mut lost = Conputer::new(PsSigned { x: 0, y: 9 });
    lost.initialize(3, Ps { x: 4, y: 4 }, &mut world);
    assert_eq!(lost.handle_position, None);
    assert_eq!(world.interactive.items.len(), 3);
    assert_eq!(world.interactive.items[0].item_type, BED);
    assert_eq!(world.interactive.items[0].item_id, 1);
    assert_eq!(world.interactive.items[1].item_type, CONPUTER);
    assert_eq!(world.interactive.items[1].interaction_ps_offset, Some(PsSigned { x: 0, y: 1 }));
    assert!(world.interactive.items.iter().all(|o| o.available()));
    let mut bone = Bone { initialized: false };
    bone.initialize(10, Ps { x: 2, y: 2 }, &mut world);
    let mut can = TrashCan { initialized: false };
    can.initialize(11, Ps { x: 3, y: 3 }, &mut world);
    assert!(bone.is_initialized() && can.is_initialized());
    assert_eq!(world.carriables.get(10).unwrap().item_type, BONE);
    assert_eq!(world.carriables.get(10).unwrap().position, Ps { x: 2, y: 2 });
    assert_eq!(world.carriables.get(11).unwrap().item_type, TRASHCAN);
    bone.initialize(10, Ps { x: 5, y: 5 }, &mut world);
    assert_eq!(world.carriables.len(), 2);
    assert_eq!(world.carriables.get(10).unwrap().position, Ps { x: 5, y: 5 });
    let _grass = Grass;
}

fn office(world: &mut Reality) {
    world.interactive.insert(InteractiveObjectHandle::new(BED, 1, Ps { x: 0, y: 0 }, None));
    world.interactive.insert(InteractiveObjectHandle::new(CONPUTER, 2, Ps { x: 4, y: 4 }, Some(PsSigned { x: 0, y: 1 })));
}

#[test]
fn a_worker_is_given_a_desk_and_a_bed() {
    let mut world = world(6, 6, &[(4, 4)]);
    let mut worker = OfficeWorker::new(String::from("Ann"), 5000, Ps { x: 2, y: 2 });
    worker.initialize(7, Ps { x: 2, y: 2 }, &mut world);
    assert!(!worker.is_initialized());
    world.interactive.insert(InteractiveObjectHandle::new(BED, 1, Ps { x: 0, y: 0 }, None));
    worker.initialize(7, Ps { x: 2, y: 2 }, &mut world);
    assert!(!worker.is_initialized());
    assert!(world.interactive.items[0].available());
    assert!(worker.sa.routine.assigned_bed.is_none());
    world.interactive.insert(InteractiveObjectHandle::new(CONPUTER, 2, Ps { x: 4, y: 4 }, Some(PsSigned { x: 0, y: 1 })));
    world.interactive.insert(InteractiveObjectHandle::new(CONPUTER, 3, Ps { x: 5, y: 4 }, Some(PsSigned { x: 0, y: 1 })));
    world.interactive.insert(InteractiveObjectHandle::new(BED, 4, Ps { x: 0, y: 1 }, None));
    worker.initialize(7, Ps { x: 2, y: 2 }, &mut world);
    assert!(worker.is_initialized());
    let office = worker.sa.routine.assigned_office.unwrap();
    let bed = worker.sa.routine.assigned_bed.unwrap();
    assert!(office == Ps { x: 4, y: 3 } || office == Ps { x: 5, y: 3 });
    assert!(bed == Ps { x: 0, y: 0 } || bed == Ps { x: 0, y: 1 });
    assert_eq!(world.interactive.items.iter().filter(|o| o.assigned).count(), 2);
    let mut second = OfficeWorker::new(String::from("Bob"), 5000, Ps { x: 2, y: 2 });
    second.initialize(8, Ps { x: 2, y: 2 }, &mut world);
    assert!(second.is_initialized());
    assert_ne!(second.sa.routine.assigned_office, worker.sa.routine.assigned_office);
    assert_ne!(second.sa.routine.assigned_bed, worker.sa.routine.assigned_bed);
    let mut third = OfficeWorker::new(String::from("Cy"), 5000, Ps { x: 2, y: 2 });
    third.initialize(9, Ps { x: 2, y: 2 }, &mut world);
    assert!(!third.is_initialized());
    third.assign_bed(Ps { x: 1, y: 1 });
    third.assign_office(Ps { x: 2, y: 1 });
    assert_eq!(third.sa.routine.assigned_bed, Some(Ps { x: 1, y: 1 }));
    assert_eq!(third.sa.routine.assigned_office, Some(Ps { x: 2, y: 1 }));
}

fn worker_routine() -> OfficeWorkerRoutine {
    OfficeWorkerRoutine {
        walker_routine: GoToRoutine { target: Ps { x: 2, y: 2 } },
        assigned_bed: Some(Ps { x: 0, y: 0 }),
        assigned_office: Some(Ps { x: 4, y: 3 }),
        visible_entities: Vec::new(),
    }
}

#[test]
fn a_worker_heads_for_its_desk_by_day() {
    let mut world = world(6, 6, &[(4, 4)]);
    office(&mut world);
    world.time = Time::new(10 * 60);
    let mut routine = worker_routine();
    let mut agent = Sanity::new(1000, Ps { x: 2, y: 2 });
    agent.intend(IntentionClass::PickAnyItem);
    ask(&mut routine, &mut agent, IntentionCompleted::Success, &world);
    assert!(matches!(
        goals(&mut agent)[..],
        [Intention { priority: 0, value: IntentionClass::MoveToPs(Ps { x: 4, y: 3 }) }]
    ));
    assert_eq!(routine.walker_routine.target, Ps { x: 4, y: 3 });
    agent.intend(IntentionClass::PickAnyItem);
    ask(&mut routine, &mut agent, IntentionCompleted::Pending, &world);
    assert_eq!(agent.mind.intentions.intentions_left(), 1);
}

#[test]
fn a_worker_at_its_desk_works_for_a_while() {
    let mut world = world(6, 6, &[(4, 4)]);
    office(&mut world);
    world.time = Time::new(10 * 60 + 7);
    world.time.fraction = 500;
    let mut routine = worker_routine();
    for _ in 0..50 {
        let mut agent = Sanity::new(1000, Ps { x: 4, y: 3 });
        ask(&mut routine, &mut agent, IntentionCompleted::Undefined, &world);
        assert_eq!(agent.mind.time_reference, Time { days: 0, hours: 10, minutes: 7, fraction: 0, speed: 10 });
        match goals(&mut agent)[..] {
            [Intention { priority: PRIORITY_BASE, value: IntentionClass::UseInteractiveMinutes(minutes) }] => {
                assert!(minutes >= 5 && minutes < 15);
            }
            _ => panic!("work was expected"),
        }
    }
}

#[test]
fn a_worker_sleeps_at_night_and_strolls_in_between() {
    let mut world = world(6, 6, &[(4, 4)]);
    office(&mut world);
    world.time = Time::new(23 * 60);
    let mut routine = worker_routine();
    let mut agent = Sanity::new(1000, Ps { x: 0, y: 0 });
    ask(&mut routine, &mut agent, IntentionCompleted::Failure, &world);
    assert!(matches!(
        goals(&mut agent)[..],
        [Intention { priority: PRIORITY_BASE, value: IntentionClass::UseInteractiveMinutes(60) }]
    ));
    let mut away = Sanity::new(1000, Ps { x: 3, y: 3 });
    ask(&mut routine, &mut away, IntentionCompleted::Undefined, &world);
    assert!(matches!(
        goals(&mut away)[..],
        [Intention { priority: 0, value: IntentionClass::MoveToPs(Ps { x: 0, y: 0 }) }]
    ));
    world.time = Time::new(20 * 60);
    let mut stroller = Sanity::new(1000, Ps { x: 3, y: 3 });
    ask(&mut routine, &mut stroller, IntentionCompleted::Success, &world);
    match goals(&mut stroller)[..] {
        [Intention { priority: 0, value: IntentionClass::MoveToPs(cell) }] => {
            assert_eq!(cell.manhattan_distance(&Ps { x: 3, y: 3 }), 1);
        }
        [Intention { priority: PRIORITY_BASE, value: IntentionClass::WaitCycles(10) }] => {}
        _ => panic!("a step or a wait was expected"),
    }
    world.time = Time::new(10 * 60);
    let mut jobless = worker_routine();
    jobless.assigned_office = None;
    let mut idle = Sanity::new(1000, Ps { x: 3, y: 3 });
    ask(&mut jobless, &mut idle, IntentionCompleted::Success, &world);
    assert!(idle.no_intentions_left());
    let mut homeless = worker_routine();
    homeless.assigned_office = Some(Ps { x: 5, y: 5 });
    idle.intend(IntentionClass::PickAnyItem);
    ask(&mut homeless, &mut idle, IntentionCompleted::Success, &world);
    assert_eq!(idle.mind.intentions.intentions_left(), 1);
}

#[test]
fn a_worker_sees_who_is_in_sight() {
    let mut world = world(9, 3, &[(6, 0), (6, 1), (6, 2)]);
    office(&mut world);
    for (id, x, y) in [(1u64, 0usize, 1usize), (3, 8, 1), (4, 5, 0)] {
        Communicator::new(Ps { x, y }).mark_position_on_map(id, &mut world.comm_map);
    }
    let mut routine = worker_routine();
    let mut agent = Sanity::new(1000, Ps { x: 3, y: 1 });
    let eyes = Communicator::new(Ps { x: 3, y: 1 });
    routine.get_processing_fn(&mut agent, IntentionCompleted::Pending, &world, 1, &eyes, 16);
    let mut seen = routine.visible_entities.clone();
    seen.sort();
    assert_eq!(seen, vec![1, 4]);
}

#[test]
fn a_worker_turns_its_walks_only_to_a_place_it_can_use() {
    let mut world = world(6, 6, &[(4, 4)]);
    world.time = Time::new(10 * 60);
    let mut routine = worker_routine();
    let mut agent = Sanity::new(1000, Ps { x: 2, y: 2 });
    ask(&mut routine, &mut agent, IntentionCompleted::Success, &world);
    assert_eq!(routine.walker_routine.target, Ps { x: 2, y: 2 });
    assert!(agent.no_intentions_left());
    office(&mut world);
    ask(&mut routine, &mut agent, IntentionCompleted::Pending, &world);
    assert_eq!(routine.walker_routine.target, Ps { x: 2, y: 2 });
    world.time = Time::new(20 * 60);
    ask(&mut routine, &mut agent, IntentionCompleted::Success, &world);
    assert_eq!(routine.walker_routine.target, Ps { x: 2, y: 2 });
    world.time = Time::new(23 * 60 + 30);
    ask(&mut routine, &mut agent, IntentionCompleted::Success, &world);
    assert_eq!(routine.walker_routine.target, Ps { x: 0, y: 0 });
    assert_eq!(routine.assigned_bed, Some(Ps { x: 0, y: 0 }));
    assert_eq!(routine.assigned_office, Some(Ps { x: 4, y: 3 }));
}

#[test]
fn the_policy_phase_leaves_the_agent_where_it_is() {
    let world = world(5, 5, &[]);
    let eyes = Communicator::new(Ps { x: 1, y: 1 });
    let mut agent = SelfAware::new(1000, Ps { x: 1, y: 1 }, GoToRoutine { target: Ps { x: 3, y: 3 } });
    agent.think_routine_level(IntentionCompleted::Undefined, &world, 4, &eyes, 16);
    assert_eq!(agent.get_ps(), Ps { x: 1, y: 1 });
    assert_eq!(agent.routine.target, Ps { x: 3, y: 3 });
    assert_eq!(agent.last_result, IntentionCompleted::Undefined);
    assert!(!agent.sanity.carrier.has_anything());
    assert!(matches!(
        goals(&mut agent.sanity)[..],
        [Intention { priority: 0, value: IntentionClass::MoveToPs(Ps { x: 3, y: 3 }) }]
    ));
    agent.sanity.intend(IntentionClass::PickAnyItem);
    agent.think_routine_level(IntentionCompleted::Success, &world, 4, &eyes, 16);
    assert_eq!(agent.sanity.mind.intentions.intentions_left(), 1);
}
