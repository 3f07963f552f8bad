use grid_agents::carriableitem::CarriableItemHandle;
use grid_agents::creatures::{validate_path, Direction};
use grid_agents::gametime::Time;
use grid_agents::interactive::InteractiveObjectHandle;
use grid_agents::mental::{Intention, IntentionClass, IntentionCompleted};
use grid_agents::position::{Offset, Ps, PsProvider};
use grid_agents::pursuit::{DETOURS, UNSTUCK_PRIORITY};
use grid_agents::sanity::{PathfindRouter, Sanity};
use grid_agents::state::Reality;
use grid_agents::worldmap::{Cell, Cellmap};

fn grid(w: usize, h: usize, blocked: &[(usize, usize)]) -> Cellmap {
    let mut cells = Vec::new();
    for y in 0..h {
        for x in 0..w {
            cells.push(Some(Cell::new(Ps { x, y }, !blocked.contains(&(x, y)))));
        }
    }
    Cellmap::new(cells, w as i32, h as i32).unwrap()
}

fn world(w: usize, h: usize, blocked: &[(usize, usize)]) -> Reality {
    Reality::new(grid(w, h, blocked))
}

fn item(item_type: &'static str, id: u64, x: usize, y: usize) -> CarriableItemHandle {
    CarriableItemHandle {
        item_id: id,
        item_type,
        carried_by: None,
        position: Ps { x, y },
        offset: Offset { x: 0, y: 0 },
        personal_offset: Offset { x: 0, y: 0 },
        consumed: false,
    }
}

fn line(from: usize, to: usize) -> Vec<Ps> {
    (from..=to).map(|x| Ps { x, y: 0 }).collect()
}

/// One full tick of one agent: slide, think, step.
fn tick(agent: &mut Sanity, id: u64, world: &mut Reality) -> IntentionCompleted {
    agent.move_direction_if_can(1000);
    let result = agent.think_intention_level_if_not_moving(id, world);
    agent.think_movement_level_if_not_moving(&mut world.cellmap);
    result
}

fn current_goal(agent: &Sanity) -> Option<Intention> {
    *agent.mind.intentions.get_current()
}

#[test]
fn an_agent_without_a_goal_reports_undefined() {
    let mut world = world(3, 3, &[]);
    let mut agent = Sanity::new(1000, Ps { x: 1, y: 1 });
    assert!(agent.no_intentions_left());
    assert_eq!(agent.think_intentions_level(1, &mut world), IntentionCompleted::Undefined);
    assert_eq!(agent.get_current_ps(), Ps { x: 1, y: 1 });
    assert!(!agent.finish_current_intention(true));
    assert!(agent.mind.mem.last_intention_result.is_none());
}

#[test]
fn walking_a_straight_line() {
    let mut world = world(4, 1, &[]);
    let mut agent = Sanity::new(1000, Ps { x: 0, y: 0 });
    agent.intend_go_to(Ps { x: 3, y: 0 });
    assert_eq!(agent.think_intention_level_if_not_moving(1, &mut world), IntentionCompleted::Pending);
    assert_eq!(agent.mv.current_move_path.calculated_steps, vec![Ps { x: 1, y: 0 }, Ps { x: 2, y: 0 }, Ps { x: 3, y: 0 }]);
    assert_eq!(agent.mv.current_move_path.target, Some(Ps { x: 3, y: 0 }));
    assert!(!agent.think_movement_level_if_not_moving(&mut world.cellmap));
    assert_eq!(agent.get_current_ps(), Ps { x: 1, y: 0 });
    assert_eq!(tick(&mut agent, 1, &mut world), IntentionCompleted::Pending);
    assert_eq!(agent.get_current_ps(), Ps { x: 2, y: 0 });
    assert_eq!(tick(&mut agent, 1, &mut world), IntentionCompleted::Pending);
    assert_eq!(agent.get_current_ps(), Ps { x: 3, y: 0 });
    assert!(agent.mv.is_reached_cell_flag_set());
    assert_eq!(tick(&mut agent, 1, &mut world), IntentionCompleted::Success);
    assert_eq!(agent.get_current_ps(), Ps { x: 3, y: 0 });
    assert!(agent.no_intentions_left());
    assert_eq!(agent.mind.mem.last_intention_result, Some(true));
    assert!(matches!(agent.mind.mem.last_intention_success, Some(IntentionClass::MoveToPs(Ps { x: 3, y: 0 }))));
    assert!(world.cellmap.get_xy(3, 0).status.occupied);
    for x in 0..3 {
        assert!(!world.cellmap.get_xy(x, 0).status.occupied);
    }
    assert_eq!(agent.mv.movement.loc.direction, None);
    assert_eq!(agent.mv.movement.loc.offset, Offset { x: 0, y: 0 });
}

#[test]
fn an_agent_in_the_middle_of_a_step_does_not_think() {
    let mut world = world(4, 1, &[]);
    let mut agent = Sanity::new(100, Ps { x: 0, y: 0 });
    agent.intend_go_to(Ps { x: 3, y: 0 });
    tick(&mut agent, 1, &mut world);
    assert_eq!(agent.mv.movement.loc.direction, Some(Direction::Right));
    for _ in 0..9 {
        assert_eq!(tick(&mut agent, 1, &mut world), IntentionCompleted::Pending);
        assert_eq!(agent.get_current_ps(), Ps { x: 1, y: 0 });
        assert_eq!(agent.mv.movement.loc.direction, Some(Direction::Right));
    }
    assert!(agent.move_direction_if_can(1000));
    assert_eq!(agent.mv.movement.loc.direction, None);
    assert!(!agent.move_direction_if_can(1000));
    assert_eq!(agent.get_current_ps(), Ps { x: 1, y: 0 });
}

#[test]
fn an_unreachable_target_fails_the_goal() {
    let mut world = world(5, 1, &[(2, 0)]);
    let mut agent = Sanity::new(1000, Ps { x: 0, y: 0 });
    agent.intend_go_to(Ps { x: 4, y: 0 });
    assert_eq!(tick(&mut agent, 1, &mut world), IntentionCompleted::Failure);
    assert!(agent.no_intentions_left());
    assert_eq!(agent.mind.mem.last_intention_result, Some(false));
    assert_eq!(agent.mind.mem.cont_fail_counter, 1);
    assert_eq!(agent.get_current_ps(), Ps { x: 0, y: 0 });
    assert!(agent.mv.current_move_path.target.is_none());
    agent.intend_go_to(Ps { x: 2, y: 0 });
    assert_eq!(tick(&mut agent, 1, &mut world), IntentionCompleted::Failure);
    agent.intend_go_to(Ps { x: 50, y: 0 });
    assert_eq!(tick(&mut agent, 1, &mut world), IntentionCompleted::Failure);
    assert_eq!(agent.mind.mem.cont_fail_counter, 3);
}

#[test]
fn walking_next_to_a_wall_cell() {
    let mut world = world(5, 3, &[(4, 1)]);
    let mut agent = Sanity::new(1000, Ps { x: 0, y: 1 });
    agent.intend_go_to_around(Ps { x: 4, y: 1 });
    let mut result = IntentionCompleted::Pending;
    for _ in 0..20 {
        agent.move_direction_if_can(1000);
        result = agent.think_intention_level_if_not_moving(1, &mut world);
        if result != IntentionCompleted::Pending {
            break;
        }
        agent.think_movement_level_if_not_moving(&mut world.cellmap);
    }
    assert_eq!(result, IntentionCompleted::Success);
    assert_eq!(agent.get_current_ps().manhattan_distance(&Ps { x: 4, y: 1 }), 1);
    assert!(world.cellmap.get_pos(&agent.get_current_ps()).status.occupied);
    assert!(agent.no_intentions_left());
}

#[test]
fn walking_next_to_a_free_cell_goes_for_the_cell() {
    let mut world = world(5, 1, &[]);
    let mut agent = Sanity::new(1000, Ps { x: 0, y: 0 });
    agent.intend_go_to_around(Ps { x: 4, y: 0 });
    assert_eq!(tick(&mut agent, 1, &mut world), IntentionCompleted::Pending);
    assert_eq!(agent.mv.current_move_path.target, Some(Ps { x: 4, y: 0 }));
    let mut ticks = 1;
    loop {
        agent.move_direction_if_can(1000);
        if agent.think_intention_level_if_not_moving(1, &mut world) == IntentionCompleted::Success {
            break;
        }
        agent.think_movement_level_if_not_moving(&mut world.cellmap);
        ticks += 1;
        assert!(ticks < 10);
    }
    assert_eq!(agent.get_current_ps(), Ps { x: 3, y: 0 });
    assert_eq!(ticks, 3);
}

#[test]
fn a_plan_next_to_a_cell_ends_beside_it() {
    let world = world(5, 5, &[(2, 2)]);
    for _ in 0..30 {
        let mut agent = Sanity::new(1000, Ps { x: 0, y: 0 });
        assert!(!agent.move_to_ps(&world.cellmap, Ps { x: 2, y: 2 }));
        assert!(agent.move_around_ps(&world.cellmap, Ps { x: 2, y: 2 }));
        let steps = agent.mv.current_move_path.calculated_steps.clone();
        let end = *steps.last().unwrap();
        assert_eq!(end.manhattan_distance(&Ps { x: 2, y: 2 }), 1);
        assert_eq!(agent.mv.current_move_path.target, Some(end));
        assert_eq!(validate_path(&steps), None);
        assert_eq!(steps[0].manhattan_distance(&Ps { x: 0, y: 0 }), 1);
        assert_eq!(steps.len() as i32, end.manhattan_distance(&Ps { x: 0, y: 0 }));
        assert!(!steps.contains(&Ps { x: 0, y: 0 }));
        let mut other = Sanity::new(1000, Ps { x: 0, y: 0 });
        assert!(other.move_to_ps_or_around_1(&world.cellmap, Ps { x: 2, y: 2 }));
        assert_eq!(other.mv.current_move_path.calculated_steps.last().unwrap().manhattan_distance(&Ps { x: 2, y: 2 }), 1);
    }
}

#[test]
fn plans_around_a_cell_vary() {
    let world = world(5, 5, &[]);
    let mut ends = Vec::new();
    for _ in 0..200 {
        let mut agent = Sanity::new(1000, Ps { x: 2, y: 0 });
        assert!(agent.move_around_ps(&world.cellmap, Ps { x: 2, y: 3 }));
        let end = agent.mv.current_move_path.target.unwrap();
        if !ends.contains(&end) {
            ends.push(end);
        }
    }
    assert!(ends.len() > 1);
}

#[test]
fn no_plan_next_to_an_enclosed_cell() {
    let world = world(5, 5, &[(2, 1), (1, 2), (3, 2), (2, 3)]);
    let mut agent = Sanity::new(1000, Ps { x: 0, y: 0 });
    assert!(!agent.move_around_ps(&world.cellmap, Ps { x: 2, y: 2 }));
    assert!(!agent.move_to_ps_or_around_1(&world.cellmap, Ps { x: 2, y: 2 }));
    assert!(agent.mv.current_move_path.target.is_none());
    let mut goal = Sanity::new(1000, Ps { x: 0, y: 0 });
    let mut w = Reality::new(grid(5, 5, &[(2, 1), (1, 2), (3, 2), (2, 3), (2, 2)]));
    goal.intend_go_to_around(Ps { x: 2, y: 2 });
    assert_eq!(tick(&mut goal, 1, &mut w), IntentionCompleted::Failure);
}

#[test]
fn a_given_path_is_followed_as_it_is() {
    let mut agent = Sanity::new(1000, Ps { x: 0, y: 0 });
    assert_eq!(agent.follow_steps(Ps { x: 3, y: 0 }, line(1, 3)), None);
    assert_eq!(agent.mv.current_move_path.calculated_steps, line(1, 3));
    let broken = vec![Ps { x: 1, y: 0 }, Ps { x: 5, y: 0 }];
    assert_eq!(agent.follow_steps(Ps { x: 5, y: 0 }, broken.clone()), Some((Ps { x: 1, y: 0 }, Ps { x: 5, y: 0 }, 1)));
    assert_eq!(agent.mv.current_move_path.calculated_steps, broken);
    assert_eq!(agent.mv.current_move_path.target, Some(Ps { x: 5, y: 0 }));
}

#[test]
fn two_agents_do_not_enter_the_same_cell() {
    let mut world = world(3, 1, &[]);
    let mut left = Sanity::new(1000, Ps { x: 0, y: 0 });
    let mut right = Sanity::new(1000, Ps { x: 2, y: 0 });
    world.cellmap.occupy_xy(0, 0);
    world.cellmap.occupy_xy(2, 0);
    left.intend_go_to(Ps { x: 1, y: 0 });
    right.intend_go_to(Ps { x: 1, y: 0 });
    assert_eq!(left.think_intention_level_if_not_moving(1, &mut world), IntentionCompleted::Pending);
    assert_eq!(right.think_intention_level_if_not_moving(2, &mut world), IntentionCompleted::Pending);
    assert_eq!(left.mv.peek_next_loc(), Some(Ps { x: 1, y: 0 }));
    assert_eq!(right.mv.peek_next_loc(), Some(Ps { x: 1, y: 0 }));
    left.think_movement_level_if_not_moving(&mut world.cellmap);
    right.think_movement_level_if_not_moving(&mut world.cellmap);
    assert_eq!(left.get_current_ps(), Ps { x: 1, y: 0 });
    assert_eq!(right.get_current_ps(), Ps { x: 2, y: 0 });
    assert!(right.mv.is_stuck_flag());
    assert!(!world.cellmap.get_xy(0, 0).status.occupied);
    assert!(world.cellmap.get_xy(1, 0).status.occupied);
    assert!(world.cellmap.get_xy(2, 0).status.occupied);
    left.move_direction_if_can(1000);
    assert_eq!(left.think_intention_level_if_not_moving(1, &mut world), IntentionCompleted::Success);
    let second = right.think_intention_level_if_not_moving(2, &mut world);
    assert_eq!(second, IntentionCompleted::Pending);
    assert!(right.mv.current_move_path.target.is_none());
    assert!(matches!(
        current_goal(&right),
        Some(Intention { priority: UNSTUCK_PRIORITY, value: IntentionClass::WaitCycles(_) })
    ));
    assert_eq!(right.mind.intentions.intentions_left(), 2);
    assert_eq!(right.get_current_ps(), Ps { x: 2, y: 0 });
}

/// A corridor along the bottom, a corridor along the top, and a wall between
/// them with a gap at each end.
fn two_corridors() -> Reality {
    world(7, 3, &[(1, 1), (2, 1), (3, 1), (4, 1), (5, 1)])
}

/// The long way round from (0,0) to (6,0): up, along the top, and down.
fn the_long_way() -> Vec<Ps> {
    let mut path = vec![Ps { x: 0, y: 1 }];
    path.extend((0..=6).map(|x| Ps { x, y: 2 }));
    path.push(Ps { x: 6, y: 1 });
    path.push(Ps { x: 6, y: 0 });
    path
}

#[test]
fn a_blocked_step_with_little_trust_left_is_planned_anew() {
    let mut world = two_corridors();
    let mut agent = Sanity::new(1000, Ps { x: 0, y: 0 });
    agent.intend_go_to(Ps { x: 6, y: 0 });
    assert_eq!(the_long_way().len(), 10);
    assert_eq!(agent.follow_steps(Ps { x: 6, y: 0 }, the_long_way()), None);
    agent.mv.reliable_steps_left = 2;
    assert_eq!(tick(&mut agent, 1, &mut world), IntentionCompleted::Pending);
    assert_eq!(tick(&mut agent, 1, &mut world), IntentionCompleted::Pending);
    assert_eq!(agent.get_current_ps(), Ps { x: 0, y: 2 });
    assert_eq!(agent.mv.reliable_steps_left, 0);
    assert_eq!(agent.mv.current_move_path.calculated_steps, the_long_way()[2..]);
    world.cellmap.occupy_xy(1, 2);
    agent.move_direction_if_can(1000);
    assert_eq!(agent.think_intention_level_if_not_moving(1, &mut world), IntentionCompleted::Pending);
    // a new plan: back down and along the bottom; a repair would have led
    // round to the far end of the top corridor and on from there
    let mut expected = vec![Ps { x: 0, y: 1 }];
    expected.extend((0..=6).map(|x| Ps { x, y: 0 }));
    assert_eq!(agent.mv.current_move_path.calculated_steps, expected);
    assert_eq!(agent.mv.current_move_path.target, Some(Ps { x: 6, y: 0 }));
    assert!(agent.mv.reliable_steps_left >= 4 && agent.mv.reliable_steps_left < 8);
    assert!(matches!(current_goal(&agent), Some(Intention { priority: 0, value: IntentionClass::MoveToPs(_) })));
}

#[test]
fn the_same_blocked_step_with_trust_left_is_bypassed() {
    let mut world = two_corridors();
    let mut agent = Sanity::new(1000, Ps { x: 0, y: 0 });
    agent.intend_go_to(Ps { x: 6, y: 0 });
    agent.follow_steps(Ps { x: 6, y: 0 }, the_long_way());
    agent.mv.reliable_steps_left = 9;
    assert_eq!(tick(&mut agent, 1, &mut world), IntentionCompleted::Pending);
    assert_eq!(tick(&mut agent, 1, &mut world), IntentionCompleted::Pending);
    assert_eq!(agent.get_current_ps(), Ps { x: 0, y: 2 });
    assert_eq!(agent.mv.reliable_steps_left, 7);
    world.cellmap.occupy_xy(1, 2);
    agent.move_direction_if_can(1000);
    assert_eq!(agent.think_intention_level_if_not_moving(1, &mut world), IntentionCompleted::Pending);
    // the repair aims six steps ahead, at (6,2), and goes on from there
    let mut expected = vec![Ps { x: 0, y: 1 }];
    expected.extend((0..=6).map(|x| Ps { x, y: 0 }));
    expected.extend([Ps { x: 6, y: 1 }, Ps { x: 6, y: 2 }, Ps { x: 6, y: 1 }, Ps { x: 6, y: 0 }]);
    assert_eq!(agent.mv.current_move_path.calculated_steps, expected);
    assert_eq!(agent.mv.current_move_path.target, Some(Ps { x: 6, y: 0 }));
}

#[test]
fn a_blocked_step_with_trust_left_is_bypassed() {
    let mut world = world(40, 3, &[]);
    let mut agent = Sanity::new(1000, Ps { x: 0, y: 1 });
    agent.intend_go_to(Ps { x: 39, y: 1 });
    let path: Vec<Ps> = (1..=39).map(|x| Ps { x, y: 1 }).collect();
    agent.follow_steps(Ps { x: 39, y: 1 }, path.clone());
    agent.mv.reliable_steps_left = 30;
    world.cellmap.occupy_xy(1, 1);
    assert_eq!(agent.think_intention_level_if_not_moving(1, &mut world), IntentionCompleted::Pending);
    let steps = agent.mv.current_move_path.calculated_steps.clone();
    assert_eq!(steps.len(), 8 + 33);
    assert_eq!(steps[7], Ps { x: 6, y: 1 });
    assert_eq!(steps[8..], path[6..]);
    assert_eq!(validate_path(&steps), None);
    assert!(!steps.contains(&Ps { x: 1, y: 1 }));
    assert_eq!(agent.mv.current_move_path.target, Some(Ps { x: 39, y: 1 }));
    assert_eq!(DETOURS, [6, 8, 16, 32]);
}

#[test]
fn a_longer_reach_is_tried_when_the_short_one_fails() {
    let mut world = world(40, 3, &[]);
    let mut agent = Sanity::new(1000, Ps { x: 0, y: 1 });
    let path: Vec<Ps> = (1..=39).map(|x| Ps { x, y: 1 }).collect();
    agent.follow_steps(Ps { x: 39, y: 1 }, path.clone());
    agent.mv.reliable_steps_left = 30;
    world.cellmap.occupy_xy(1, 1);
    world.cellmap.occupy_xy(6, 1);
    assert!(!agent.try_small_detour(&world.cellmap, 6));
    assert_eq!(agent.mv.current_move_path.calculated_steps, path);
    assert!(agent.try_multiple_detours(&world.cellmap));
    let steps = agent.mv.current_move_path.calculated_steps.clone();
    assert_eq!(steps.len(), 10 + 31);
    assert_eq!(steps[9], Ps { x: 8, y: 1 });
    assert_eq!(steps[10..], path[8..]);
    assert_eq!(validate_path(&steps), None);
}

#[test]
fn no_detour_to_where_the_agent_stands_or_without_steps() {
    let world = world(5, 1, &[]);
    let mut agent = Sanity::new(1000, Ps { x: 0, y: 0 });
    assert!(!agent.try_small_detour(&world.cellmap, 6));
    assert!(!agent.try_multiple_detours(&world.cellmap));
    assert!(!agent.force_recalculate_path_to_target(&world.cellmap));
    agent.follow_steps(Ps { x: 0, y: 0 }, vec![Ps { x: 1, y: 0 }, Ps { x: 0, y: 0 }]);
    assert!(!agent.try_small_detour(&world.cellmap, 6));
    assert!(agent.try_small_detour(&world.cellmap, 1));
    assert!(agent.force_recalculate_path_to_target(&world.cellmap));
    assert!(agent.mv.current_move_path.calculated_steps.is_empty());
}

#[test]
fn a_failed_repair_ends_in_a_cooldown() {
    let mut world = world(12, 1, &[]);
    let mut agent = Sanity::new(1000, Ps { x: 0, y: 0 });
    agent.intend_go_to(Ps { x: 11, y: 0 });
    agent.follow_steps(Ps { x: 11, y: 0 }, line(1, 11));
    agent.mv.reliable_steps_left = 30;
    world.cellmap.occupy_xy(1, 0);
    for round in 0..2 {
        assert_eq!(agent.think_intention_level_if_not_moving(1, &mut world), IntentionCompleted::Pending);
        assert!(agent.mv.current_move_path.target.is_none());
        assert!(agent.mv.current_move_path.calculated_steps.is_empty());
        let wait = current_goal(&agent).unwrap();
        assert_eq!(wait.priority, UNSTUCK_PRIORITY);
        let cycles = match wait.value {
            IntentionClass::WaitCycles(cycles) => cycles,
            _ => panic!("a wait was expected"),
        };
        assert!(cycles >= 10 && cycles < 60);
        assert_eq!(agent.mind.cycles_counter, cycles);
        assert_eq!(agent.mind.intentions.intentions_left(), 2);
        for _ in 0..cycles {
            assert_eq!(agent.think_intention_level_if_not_moving(1, &mut world), IntentionCompleted::Undefined);
        }
        assert_eq!(agent.think_intention_level_if_not_moving(1, &mut world), IntentionCompleted::Success);
        assert!(matches!(current_goal(&agent), Some(Intention { priority: 0, value: IntentionClass::MoveToPs(_) })));
        if round == 0 {
            agent.follow_steps(Ps { x: 11, y: 0 }, line(1, 11));
            agent.mv.reliable_steps_left = 0;
        }
    }
    assert_eq!(agent.think_intention_level_if_not_moving(1, &mut world), IntentionCompleted::Failure);
    assert!(agent.no_intentions_left());
}

#[test]
fn steering_by_hand_stays_inside_the_grid() {
    let world = world(2, 2, &[]);
    let mut agent = Sanity::new(1000, Ps { x: 0, y: 0 });
    assert!(!agent.start_move_direction(Direction::Left, &world.cellmap));
    assert!(!agent.start_move_direction(Direction::Down, &world.cellmap));
    assert_eq!(agent.get_current_ps(), Ps { x: 0, y: 0 });
    assert_eq!(agent.mv.movement.loc.direction, None);
    assert!(agent.start_move_direction(Direction::Up, &world.cellmap));
    assert_eq!(agent.get_current_ps(), Ps { x: 0, y: 1 });
    assert_eq!(agent.mv.movement.loc.direction, Some(Direction::Up));
    assert!(!agent.start_move_direction(Direction::Up, &world.cellmap));
    assert!(agent.start_move_direction(Direction::Right, &world.cellmap));
    assert_eq!(agent.get_current_ps(), Ps { x: 1, y: 1 });
}

#[test]
fn picking_up_then_dropping_an_item() {
    let mut world = world(3, 3, &[]);
    world.carriables.insert(item("bone", 10, 0, 0));
    world.carriables.insert(item("stick", 11, 1, 1));
    world.carriables.insert(item("bone", 12, 1, 1));
    world.carriables.insert(item("bone", 13, 1, 1));
    let mut agent = Sanity::new(1000, Ps { x: 1, y: 1 });
    agent.intend(IntentionClass::PickItemOfType("bone"));
    assert_eq!(agent.think_intentions_level(5, &mut world), IntentionCompleted::Success);
    assert!(agent.carrier.has_item(&12));
    assert!(!agent.carrier.has_item(&13));
    assert_eq!(world.carriables.get(12).unwrap().carried_by, Some(5));
    assert!(!world.carriables.get(12).unwrap().available());
    assert!(world.carriables.get(13).unwrap().available());
    assert!(agent.no_intentions_left());
    assert_eq!(agent.mind.mem.last_intention_result, Some(true));
    agent.intend(IntentionClass::DropCarriedItemOfType("stick"));
    assert_eq!(agent.think_intentions_level(5, &mut world), IntentionCompleted::Failure);
    assert!(agent.carrier.has_item(&12));
    assert_eq!(agent.mind.mem.last_intention_result, Some(false));
    agent.intend(IntentionClass::DropAnyCarriedItem);
    assert_eq!(agent.think_intentions_level(5, &mut world), IntentionCompleted::Success);
    assert!(!agent.carrier.has_anything());
    assert!(world.carriables.get(12).unwrap().available());
    assert_eq!(world.carriables.get(12).unwrap().carried_by, None);
    agent.intend(IntentionClass::DropAnyCarriedItem);
    assert_eq!(agent.think_intentions_level(5, &mut world), IntentionCompleted::Failure);
}

#[test]
fn picking_needs_an_available_item_on_the_spot() {
    let mut world = world(3, 3, &[]);
    let mut taken = item("bone", 10, 1, 1);
    taken.take(99);
    let mut eaten = item("bone", 11, 1, 1);
    eaten.consume();
    world.carriables.insert(taken);
    world.carriables.insert(eaten);
    world.carriables.insert(item("bone", 12, 2, 1));
    let mut agent = Sanity::new(1000, Ps { x: 1, y: 1 });
    agent.intend(IntentionClass::PickAnyItem);
    assert_eq!(agent.think_intentions_level(5, &mut world), IntentionCompleted::Failure);
    assert!(!agent.carrier.has_anything());
    assert_eq!(world.carriables.get(10).unwrap().carried_by, Some(99));
    agent.intend(IntentionClass::ConsumeAnyItem);
    assert_eq!(agent.think_intentions_level(5, &mut world), IntentionCompleted::Failure);
    assert!(!world.carriables.get(12).unwrap().consumed);
}

#[test]
fn consuming_on_the_spot_and_from_the_hands() {
    let mut world = world(3, 3, &[]);
    world.carriables.insert(item("bone", 10, 1, 1));
    world.carriables.insert(item("bone", 11, 1, 1));
    let mut agent = Sanity::new(1000, Ps { x: 1, y: 1 });
    agent.intend(IntentionClass::ConsumeItemOfType("bone"));
    assert_eq!(agent.think_intentions_level(5, &mut world), IntentionCompleted::Success);
    assert!(world.carriables.get(10).unwrap().consumed);
    assert!(!world.carriables.get(11).unwrap().consumed);
    agent.intend(IntentionClass::PickAnyItem);
    assert_eq!(agent.think_intentions_level(5, &mut world), IntentionCompleted::Success);
    assert!(agent.carrier.has_item(&11));
    agent.intend(IntentionClass::ConsumeCarriedItemOfType("stick"));
    assert_eq!(agent.think_intentions_level(5, &mut world), IntentionCompleted::Failure);
    agent.intend(IntentionClass::ConsumeAnyCarriedItem);
    assert_eq!(agent.think_intentions_level(5, &mut world), IntentionCompleted::Success);
    let gone = world.carriables.get(11).unwrap();
    assert!(gone.consumed);
    assert_eq!(gone.carried_by, None);
    assert!(!gone.available());
    assert!(!agent.carrier.has_anything());
    agent.intend(IntentionClass::ConsumeAnyCarriedItem);
    assert_eq!(agent.think_intentions_level(5, &mut world), IntentionCompleted::Failure);
    agent.intend(IntentionClass::PickAnyItem);
    assert_eq!(agent.think_intentions_level(5, &mut world), IntentionCompleted::Failure);
    assert!(world.carriables.get(11).unwrap().consumed);
}

#[test]
fn using_an_object_for_five_minutes() {
    let mut world = world(3, 3, &[]);
    world.interactive.insert(InteractiveObjectHandle::new("bed", 20, Ps { x: 1, y: 1 }, None));
    world.time = Time::new(600);
    let mut agent = Sanity::new(1000, Ps { x: 1, y: 1 });
    let start = world.time;
    agent.intend_with_priority_timed(1, IntentionClass::UseInteractiveMinutes(5), &start);
    assert_eq!(agent.mind.time_reference, start);
    for minute in 0..5 {
        world.time = Time::new(600 + minute);
        world.time.fraction = 999;
        assert_eq!(agent.think_intentions_level(5, &mut world), IntentionCompleted::Pending);
        assert_eq!(world.interactive.items[0].used_by, Some(5));
        assert_eq!(agent.mind.intentions.intentions_left(), 1);
    }
    world.time = Time::new(605);
    assert_eq!(agent.think_intentions_level(5, &mut world), IntentionCompleted::Success);
    assert_eq!(world.interactive.items[0].used_by, None);
    assert!(agent.no_intentions_left());
    assert_eq!(agent.mind.mem.last_intention_result, Some(true));
}

#[test]
fn an_object_in_use_by_another_cannot_be_used() {
    let mut world = world(3, 3, &[]);
    let mut bed = InteractiveObjectHandle::new("bed", 20, Ps { x: 1, y: 1 }, None);
    bed.take(77);
    world.interactive.insert(bed);
    let mut agent = Sanity::new(1000, Ps { x: 1, y: 1 });
    assert_eq!(agent.try_use_interactive(5, &mut world.interactive), Some(IntentionCompleted::Failure));
    assert_eq!(agent.try_release_interactive(5, &mut world.interactive), IntentionCompleted::Failure);
    assert_eq!(world.interactive.items[0].used_by, Some(77));
    let now = world.time;
    agent.intend_with_priority_timed(1, IntentionClass::UseInteractiveMinutes(5), &now);
    assert_eq!(agent.think_intentions_level(5, &mut world), IntentionCompleted::Failure);
    assert_eq!(agent.mind.intentions.intentions_left(), 1);
    world.time = Time::new(16 * 60 + 5);
    assert_eq!(agent.think_intentions_level(5, &mut world), IntentionCompleted::Failure);
    assert!(agent.no_intentions_left());
    assert_eq!(world.interactive.items[0].used_by, Some(77));
}

#[test]
fn claims_on_objects() {
    let mut world = world(3, 3, &[]);
    world.interactive.insert(InteractiveObjectHandle::new("bed", 20, Ps { x: 0, y: 0 }, None));
    world.interactive.insert(InteractiveObjectHandle::new("bed", 21, Ps { x: 1, y: 1 }, None));
    let mut agent = Sanity::new(1000, Ps { x: 2, y: 2 });
    assert_eq!(agent.try_use_interactive(5, &mut world.interactive), Some(IntentionCompleted::Failure));
    assert_eq!(agent.try_release_interactive(5, &mut world.interactive), IntentionCompleted::Failure);
    let mut agent = Sanity::new(1000, Ps { x: 1, y: 1 });
    assert_eq!(agent.try_release_interactive(5, &mut world.interactive), IntentionCompleted::Failure);
    assert_eq!(agent.try_use_interactive(5, &mut world.interactive), None);
    assert_eq!(world.interactive.items[1].used_by, Some(5));
    assert_eq!(world.interactive.items[0].used_by, None);
    assert_eq!(agent.try_use_interactive(5, &mut world.interactive), None);
    assert_eq!(agent.try_release_interactive(5, &mut world.interactive), IntentionCompleted::Success);
    assert_eq!(world.interactive.items[1].used_by, None);
}

#[test]
fn goals_are_announced_with_their_priorities() {
    let mut agent = Sanity::new(1000, Ps { x: 0, y: 0 });
    agent.intend_go_to(Ps { x: 1, y: 1 });
    agent.intend_with_priority(5, IntentionClass::PickAnyItem);
    agent.intend_with_priority(-3, IntentionClass::ConsumeAnyItem);
    agent.intend_go_to_around(Ps { x: 2, y: 2 });
    assert!(matches!(current_goal(&agent), Some(Intention { priority: 5, value: IntentionClass::PickAnyItem })));
    assert_eq!(agent.mind.intentions.intentions_left(), 4);
    assert!(agent.finish_current_intention(false));
    assert!(matches!(current_goal(&agent), Some(Intention { priority: 0, value: IntentionClass::MoveToPs(_) })));
    assert_eq!(agent.finish_current_intention_with(IntentionCompleted::Pending), IntentionCompleted::Pending);
    assert_eq!(agent.mind.mem.last_intention_result, Some(false));
    assert!(matches!(current_goal(&agent), Some(Intention { priority: 0, value: IntentionClass::MoveToDestination(_) })));
    agent.reset_intentions_lower_than(0);
    assert_eq!(agent.mind.intentions.intentions_left(), 2);
    agent.reset_intentions_lower_than(1);
    assert!(agent.no_intentions_left());
    agent.intend(IntentionClass::PickAnyItem);
    agent.reset_intentions();
    assert!(agent.no_intentions_left());
}

#[test]
fn a_wait_takes_its_cycles() {
    let mut world = world(2, 2, &[]);
    let mut agent = Sanity::new(1000, Ps { x: 0, y: 0 });
    agent.mind.intend_cycles_count(2, 1);
    assert_eq!(agent.think_intentions_level(1, &mut world), IntentionCompleted::Undefined);
    assert_eq!(agent.think_intentions_level(1, &mut world), IntentionCompleted::Undefined);
    assert_eq!(agent.think_intentions_level(1, &mut world), IntentionCompleted::Success);
    assert!(agent.no_intentions_left());
}
