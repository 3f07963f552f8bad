use grid_agents::position::{Ps, PsSigned};
use grid_agents::worldmap::{Cell, CellStatus, Cellmap};

fn cells(w: usize, h: usize, blocked: &[(usize, usize)]) -> Vec<Option<Cell>> {
    let mut out = Vec::new();
    for y in 0..h {
        for x in 0..w {
            out.push(Some(Cell::new(Ps { x, y }, !blocked.contains(&(x, y)))));
        }
    }
    out
}

fn grid(w: usize, h: usize, blocked: &[(usize, usize)]) -> Cellmap {
    Cellmap::new(cells(w, h, blocked), w as i32, h as i32).unwrap()
}

#[test]
fn a_new_cell_is_not_occupied() {
    let cell = Cell::new(Ps { x: 1, y: 2 }, true);
    assert!(cell.passable);
    assert!(!cell.status.occupied);
    assert_eq!(cell.position, Ps { x: 1, y: 2 });
    assert!(!CellStatus::new().occupied);
}

#[test]
fn passability_heeds_occupancy_only_on_request() {
    let mut cell = Cell::new(Ps { x: 0, y: 0 }, true);
    assert!(cell.is_passable(true));
    assert!(cell.is_passable(false));
    cell.occupy();
    assert!(!cell.is_passable(true));
    assert!(cell.is_passable(false));
    cell.deoccupy();
    assert!(cell.is_passable(true));
    let mut wall = Cell::new(Ps { x: 0, y: 0 }, false);
    assert!(!wall.is_passable(true));
    assert!(!wall.is_passable(false));
    wall.occupy();
    assert!(!wall.is_passable(false));
}

#[test]
fn a_map_needs_all_its_cells_in_place() {
    assert!(Cellmap::new(cells(3, 2, &[]), 3, 2).is_some());
    assert!(Cellmap::new(cells(3, 2, &[]), 2, 3).is_none());
    assert!(Cellmap::new(cells(3, 2, &[]), 3, 3).is_none());
    assert!(Cellmap::new(cells(3, 2, &[]), -3, -2).is_none());
    assert!(Cellmap::new(cells(3, 2, &[]), -3, 2).is_none());
    let mut holed = cells(3, 2, &[]);
    holed[4] = None;
    assert!(Cellmap::new(holed, 3, 2).is_none());
    let mut misplaced = cells(3, 2, &[]);
    misplaced[1] = Some(Cell::new(Ps { x: 2, y: 0 }, true));
    assert!(Cellmap::new(misplaced, 3, 2).is_none());
    assert!(Cellmap::new(Vec::new(), 0, 0).is_some());
    assert!(Cellmap::new(Vec::new(), 0, 5).is_some());
}

#[test]
fn sizes_and_bounds() {
    let map = grid(3, 2, &[]);
    assert_eq!(map.wh_usize(), (3, 2));
    assert_eq!(map.wh_i32(), (3, 2));
    assert_eq!(map.wh_u32(), (3, 2));
    assert!(map.within_bounds(0, 0));
    assert!(map.within_bounds(2, 1));
    assert!(!map.within_bounds(3, 1));
    assert!(!map.within_bounds(2, 2));
    assert!(!map.within_bounds(-1, 0));
    assert!(!map.within_bounds(0, -1));
    assert!(map.pos_within_bounds(Ps { x: 2, y: 1 }));
    assert!(!map.pos_within_bounds(Ps { x: 3, y: 0 }));
    assert!(map.xy_within_bounds(&Ps { x: 2, y: 1 }));
    assert!(!map.xy_within_bounds(&Ps { x: usize::MAX, y: 1 }));
    assert!(map.xy_within_bounds(&PsSigned { x: 0, y: 1 }));
    assert!(!map.xy_within_bounds(&PsSigned { x: 0, y: -1 }));
}

#[test]
fn cells_are_found_by_coordinates() {
    let map = grid(3, 2, &[(2, 1)]);
    assert_eq!(map.get_xy(1, 1).position, Ps { x: 1, y: 1 });
    assert!(map.get_xy(1, 1).passable);
    assert!(!map.get_xy(2, 1).passable);
    assert_eq!(map.get_pos(&Ps { x: 2, y: 0 }).position, Ps { x: 2, y: 0 });
    assert!(map.is_free(&Ps { x: 0, y: 0 }, true));
    assert!(!map.is_free(&Ps { x: 2, y: 1 }, false));
    assert!(!map.is_free(&Ps { x: 3, y: 1 }, false));
}

#[test]
fn occupancy_follows_the_calls() {
    let mut map = grid(3, 2, &[]);
    let a = Ps { x: 0, y: 0 };
    let b = Ps { x: 1, y: 0 };
    map.occupy_ps(&a);
    assert!(map.get_pos(&a).status.occupied);
    assert!(!map.get_pos(&b).status.occupied);
    assert!(!map.is_free(&a, true));
    assert!(map.is_free(&a, false));
    map.move_occupy_ps(&a, &b);
    assert!(!map.get_pos(&a).status.occupied);
    assert!(map.get_pos(&b).status.occupied);
    map.move_occupy_ps(&b, &b);
    assert!(map.get_pos(&b).status.occupied);
    map.deoccupy_ps(&b);
    assert!(!map.get_pos(&b).status.occupied);
    map.occupy_xy(2, 1);
    assert!(map.get_xy(2, 1).status.occupied);
    map.move_occupy_xy(2, 1, 2, 0);
    assert!(!map.get_xy(2, 1).status.occupied);
    assert!(map.get_xy(2, 0).status.occupied);
    map.deoccupy_xy(2, 0);
    for cell in map.map.iter() {
        assert!(!cell.status.occupied);
    }
}

#[test]
fn a_cell_can_be_changed_in_place() {
    let mut map = grid(2, 2, &[]);
    map.get_xy_mut(1, 1).occupy();
    assert!(map.get_xy(1, 1).status.occupied);
    map.get_pos_mut(&Ps { x: 1, y: 1 }).deoccupy();
    assert!(!map.get_xy(1, 1).status.occupied);
    assert!(!map.get_xy(0, 1).status.occupied);
}

#[test]
fn the_scan_wraps_round() {
    let mut map = grid(3, 2, &[(0, 0), (1, 0), (0, 1), (1, 1), (2, 1)]);
    assert_eq!(map.first_free_from(0), Some(Ps { x: 2, y: 0 }));
    assert_eq!(map.first_free_from(2), Some(Ps { x: 2, y: 0 }));
    assert_eq!(map.first_free_from(3), Some(Ps { x: 2, y: 0 }));
    assert_eq!(map.first_free_from(6), Some(Ps { x: 2, y: 0 }));
    map.occupy_xy(2, 0);
    assert_eq!(map.first_free_from(0), None);
    assert_eq!(map.first_free_from(4), None);
}

#[test]
fn a_random_free_cell_is_free() {
    let mut map = grid(4, 4, &[(1, 1), (2, 2)]);
    map.occupy_xy(3, 3);
    for _ in 0..200 {
        let ps = map.pick_random_passable_ps().unwrap();
        assert!(map.pos_within_bounds(ps));
        assert!(map.get_pos(&ps).is_passable(true));
    }
}

#[test]
fn the_only_free_cell_is_picked() {
    let mut blocked = Vec::new();
    for y in 0..20 {
        for x in 0..20 {
            if (x, y) != (17, 3) {
                blocked.push((x, y));
            }
        }
    }
    let map = grid(20, 20, &blocked);
    for _ in 0..20 {
        assert_eq!(map.pick_random_passable_ps(), Some(Ps { x: 17, y: 3 }));
    }
}

#[test]
fn no_free_cell_means_none() {
    let map = grid(2, 2, &[(0, 0), (1, 0), (0, 1), (1, 1)]);
    assert_eq!(map.pick_random_passable_ps(), None);
    let empty = Cellmap::new(Vec::new(), 0, 0).unwrap();
    assert_eq!(empty.pick_random_passable_ps(), None);
    let mut full = grid(1, 1, &[]);
    full.occupy_xy(0, 0);
    assert_eq!(full.pick_random_passable_ps(), None);
}
