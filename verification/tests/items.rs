use grid_agents::carriableitem::{CarriableItemHandle, CarriableItems};
use grid_agents::carriablesearch::{
    find_all_available_with_type, find_all_by, find_all_with_type, find_closest_available_with_type,
    find_one_by,
};
use grid_agents::carrier::Carrier;
use grid_agents::creatures::{PsOffsetContainer, PsOffsetProvider};
use grid_agents::entity::passes_type_filter;
use grid_agents::interactive::{InteractiveObjectHandle, InteractiveObjects};
use grid_agents::position::{Offset, Ps, PsSigned};

fn item(item_type: &'static str, id: u64, x: usize, y: usize) -> CarriableItemHandle {
    CarriableItemHandle {
        item_id: id,
        item_type,
        carried_by: None,
        position: Ps { x, y },
        offset: Offset { x: 5, y: 50 },
        personal_offset: Offset { x: 5, y: 50 },
        consumed: false,
    }
}

fn registry(items: Vec<CarriableItemHandle>) -> CarriableItems {
    let mut out = CarriableItems::new();
    for i in items {
        assert!(out.insert(i).is_none());
    }
    out
}

fn ids(items: &[CarriableItemHandle]) -> Vec<u64> {
    items.iter().map(|i| i.item_id).collect()
}

#[test]
fn a_fresh_item_is_available() {
    for _ in 0..100 {
        let handle = CarriableItemHandle::new("bone", 7, Ps { x: 1, y: 2 });
        assert_eq!(handle.item_id, 7);
        assert_eq!(handle.item_type, "bone");
        assert_eq!(handle.position, Ps { x: 1, y: 2 });
        assert!(handle.available());
        assert!(handle.carried_by.is_none());
        assert!(!handle.consumed);
        assert_eq!(handle.offset, handle.personal_offset);
        assert!(handle.personal_offset.x >= -200 && handle.personal_offset.x < 200);
        assert!(handle.personal_offset.y >= 10 && handle.personal_offset.y < 200);
        assert_eq!(handle.get_ps(), Ps { x: 1, y: 2 });
        assert_eq!(handle.get_offset(), handle.offset);
    }
}

#[test]
fn personal_offsets_differ() {
    let first = CarriableItemHandle::new("bone", 1, Ps { x: 0, y: 0 }).personal_offset;
    let mut differs = false;
    for _ in 0..100 {
        if CarriableItemHandle::new("bone", 1, Ps { x: 0, y: 0 }).personal_offset != first {
            differs = true;
        }
    }
    assert!(differs);
}

#[test]
fn taking_and_releasing_an_item() {
    let mut handle = item("bone", 1, 0, 0);
    handle.take(9);
    assert_eq!(handle.carried_by, Some(9));
    assert!(!handle.available());
    handle.release();
    assert_eq!(handle.carried_by, None);
    assert!(handle.available());
    handle.consume();
    assert!(handle.consumed);
    assert!(!handle.available());
    handle.take(9);
    handle.release();
    assert!(!handle.available());
    handle.consume();
    assert!(handle.consumed);
}

#[test]
fn a_carried_item_follows_its_holder() {
    let mut handle = item("bone", 1, 0, 0);
    let holder = PsOffsetContainer { pos: Ps { x: 4, y: 5 }, offset: Offset { x: -300, y: 0 } };
    handle.copy_position(&holder);
    assert_eq!(handle.position, Ps { x: 4, y: 5 });
    assert_eq!(handle.offset, Offset { x: -295, y: 50 });
    assert_eq!(handle.personal_offset, Offset { x: 5, y: 50 });
    handle.copy_position(&holder);
    assert_eq!(handle.offset, Offset { x: -295, y: 50 });
}

#[test]
fn picking_up_and_dropping_is_a_round_trip() {
    let mut carrier = Carrier::new();
    let mut handle = item("bone", 3, 1, 1);
    assert!(!carrier.has_anything());
    assert!(!carrier.has_item(&3));
    carrier.pick_up(42, &mut handle);
    assert_eq!(handle.carried_by, Some(42));
    assert!(!handle.available());
    assert!(carrier.has_anything());
    assert!(carrier.has_item(&3));
    assert!(!carrier.has_item(&4));
    assert!(carrier.try_drop(&mut handle));
    assert!(handle.available());
    assert_eq!(handle.carried_by, None);
    assert!(!carrier.has_item(&3));
    assert!(!carrier.has_anything());
    assert!(!carrier.try_drop(&mut handle));
    assert!(handle.available());
}

#[test]
fn the_holdings_can_be_listed() {
    let mut carrier = Carrier::new();
    assert!(carrier.carried_ids().is_empty());
    for id in [5u64, 9, 2, 9] {
        let mut handle = item("bone", id, 0, 0);
        carrier.pick_up(1, &mut handle);
    }
    let mut ids = carrier.carried_ids();
    ids.sort();
    assert_eq!(ids, vec![2, 5, 9]);
    let mut nine = item("bone", 9, 0, 0);
    carrier.drop(&mut nine);
    let mut ids = carrier.carried_ids();
    ids.sort();
    assert_eq!(ids, vec![2, 5]);
}

#[test]
fn picking_up_twice_holds_once() {
    let mut carrier = Carrier::new();
    let mut handle = item("bone", 3, 1, 1);
    carrier.pick_up(42, &mut handle);
    carrier.pick_up(42, &mut handle);
    carrier.drop(&mut handle);
    assert!(!carrier.has_item(&3));
    assert!(!carrier.has_anything());
}

#[test]
fn consuming_a_carried_item_is_final() {
    let mut carrier = Carrier::new();
    let mut handle = item("bone", 3, 1, 1);
    let mut other = item("bone", 4, 1, 1);
    assert!(!carrier.try_consume(&mut handle));
    assert!(!handle.consumed);
    carrier.pick_up(42, &mut handle);
    carrier.pick_up(42, &mut other);
    assert!(carrier.try_consume(&mut handle));
    assert!(handle.consumed);
    assert_eq!(handle.carried_by, None);
    assert!(!handle.available());
    assert!(!carrier.has_item(&3));
    assert!(carrier.has_item(&4));
    assert!(!carrier.try_consume(&mut handle));
    assert!(handle.consumed);
    assert_eq!(handle.carried_by, None);
    assert!(!carrier.try_drop(&mut handle));
    assert!(!handle.available());
}

#[test]
fn carried_items_are_moved_and_dead_ones_forgotten() {
    let mut items = registry(vec![item("bone", 1, 0, 0), item("bone", 2, 0, 0), item("bone", 3, 0, 0)]);
    let mut carrier = Carrier::new();
    let mut first = items.get(1).unwrap();
    carrier.pick_up(42, &mut first);
    items.insert(first);
    let mut third = items.get(3).unwrap();
    carrier.pick_up(42, &mut third);
    items.insert(third);
    let mut ghost = item("bone", 77, 9, 9);
    carrier.pick_up(42, &mut ghost);
    assert!(carrier.has_item(&77));
    let holder = PsOffsetContainer { pos: Ps { x: 6, y: 7 }, offset: Offset { x: 100, y: -100 } };
    carrier.update_positions(&mut items, &holder);
    assert!(carrier.has_item(&1));
    assert!(carrier.has_item(&3));
    assert!(!carrier.has_item(&77));
    assert_eq!(items.get(1).unwrap().position, Ps { x: 6, y: 7 });
    assert_eq!(items.get(1).unwrap().offset, Offset { x: 105, y: -50 });
    assert_eq!(items.get(3).unwrap().position, Ps { x: 6, y: 7 });
    assert_eq!(items.get(2).unwrap().position, Ps { x: 0, y: 0 });
    assert_eq!(items.get(2).unwrap().offset, Offset { x: 5, y: 50 });
    assert_eq!(items.len(), 3);
    assert_eq!(ids(&items.items), vec![1, 2, 3]);
}

#[test]
fn the_registry_keeps_one_item_per_identifier() {
    let mut items = CarriableItems::new();
    assert_eq!(items.len(), 0);
    assert!(items.get(1).is_none());
    assert!(items.insert(item("bone", 1, 0, 0)).is_none());
    assert!(items.insert(item("bone", 2, 1, 0)).is_none());
    assert!(items.insert(item("bone", 3, 2, 0)).is_none());
    let replaced = items.insert(item("trashcan", 2, 5, 5)).unwrap();
    assert_eq!(replaced.position, Ps { x: 1, y: 0 });
    assert_eq!(items.len(), 3);
    assert_eq!(ids(&items.items), vec![1, 2, 3]);
    assert_eq!(items.get(2).unwrap().item_type, "trashcan");
    assert_eq!(items.index_of(3), Some(2));
    assert_eq!(items.index_of(9), None);
    assert_eq!(items.remove(1).unwrap().item_id, 1);
    assert!(items.remove(1).is_none());
    assert_eq!(ids(&items.items), vec![2, 3]);
    assert_eq!(items.index_of(3), Some(1));
}

#[test]
fn type_filters() {
    assert!(passes_type_filter("bone", None));
    assert!(passes_type_filter("bone", Some("bone")));
    assert!(!passes_type_filter("bone", Some("bones")));
    assert!(!passes_type_filter("bone", Some("")));
    assert!(passes_type_filter("", Some("")));
    let copy: &'static str = Box::leak(String::from("bone").into_boxed_str());
    assert!(passes_type_filter("bone", Some(copy)));
}

#[test]
fn searches_go_in_registry_order() {
    let mut taken = item("bone", 2, 1, 0);
    taken.take(9);
    let mut eaten = item("bone", 4, 3, 0);
    eaten.consume();
    let items = registry(vec![item("bone", 1, 0, 0), taken, item("trashcan", 3, 2, 0), eaten, item("bone", 5, 4, 0)]);
    assert_eq!(ids(&find_all_with_type(&items, Some("bone"))), vec![1, 2, 4, 5]);
    assert_eq!(ids(&find_all_with_type(&items, None)), vec![1, 2, 3, 4, 5]);
    assert_eq!(ids(&find_all_with_type(&items, Some("cat"))), Vec::<u64>::new());
    assert_eq!(ids(&find_all_available_with_type(&items, Some("bone"))), vec![1, 5]);
    assert_eq!(ids(&find_all_available_with_type(&items, None)), vec![1, 3, 5]);
    assert_eq!(ids(&find_all_by(&items, |i: &CarriableItemHandle| i.position.x >= 2)), vec![3, 4, 5]);
    assert_eq!(ids(&find_all_by(&items, |_: &CarriableItemHandle| false)), Vec::<u64>::new());
    assert_eq!(find_one_by(&items, |i: &CarriableItemHandle| i.position.x >= 2).unwrap().item_id, 3);
    assert!(find_one_by(&items, |i: &CarriableItemHandle| i.position.x >= 20).is_none());
}

#[test]
fn the_closest_available_item_wins() {
    let mut near_but_taken = item("bone", 1, 5, 5);
    near_but_taken.take(9);
    let items = registry(vec![
        near_but_taken,
        item("bone", 2, 9, 5),
        item("trashcan", 3, 5, 6),
        item("bone", 4, 5, 8),
        item("bone", 5, 8, 5),
        item("bone", 6, 2, 5),
    ]);
    let at = Ps { x: 5, y: 5 };
    assert_eq!(find_closest_available_with_type(&items, Some("bone"), at).unwrap().item_id, 4);
    assert_eq!(find_closest_available_with_type(&items, None, at).unwrap().item_id, 3);
    assert_eq!(find_closest_available_with_type(&items, Some("trashcan"), at).unwrap().item_id, 3);
    assert!(find_closest_available_with_type(&items, Some("cat"), at).is_none());
    assert_eq!(find_closest_available_with_type(&items, Some("bone"), Ps { x: 9, y: 9 }).unwrap().item_id, 2);
    assert!(find_closest_available_with_type(&CarriableItems::new(), None, at).is_none());
    let far = registry(vec![item("bone", 1, usize::MAX, usize::MAX), item("bone", 2, usize::MAX, 0)]);
    assert_eq!(find_closest_available_with_type(&far, None, Ps { x: 0, y: 0 }).unwrap().item_id, 2);
}

#[test]
fn interactive_objects_are_claimed_and_assigned() {
    let mut bed = InteractiveObjectHandle::new("bed", 1, Ps { x: 3, y: 3 }, None);
    assert!(bed.available());
    assert_eq!(bed.get_interactive_ps(), Some(Ps { x: 3, y: 3 }));
    assert!(bed.is_used_from(Ps { x: 3, y: 3 }));
    assert!(!bed.is_used_from(Ps { x: 3, y: 4 }));
    bed.take(7);
    assert_eq!(bed.used_by, Some(7));
    assert!(!bed.available());
    bed.release();
    assert!(bed.available());
    bed.assign();
    assert!(bed.assigned);
    assert!(!bed.available());
    bed.release();
    assert!(!bed.available());
    assert_eq!(bed.get_ps(), Ps { x: 3, y: 3 });
    assert_eq!(bed.get_offset(), Offset { x: 0, y: 0 });
}

#[test]
fn a_desk_is_used_from_beside_it() {
    let desk = InteractiveObjectHandle::new("conputer", 1, Ps { x: 3, y: 3 }, Some(PsSigned { x: 0, y: 1 }));
    assert_eq!(desk.get_interactive_ps(), Some(Ps { x: 3, y: 2 }));
    assert!(desk.is_used_from(Ps { x: 3, y: 2 }));
    assert!(!desk.is_used_from(Ps { x: 3, y: 3 }));
    let other = InteractiveObjectHandle::new("conputer", 2, Ps { x: 3, y: 3 }, Some(PsSigned { x: -2, y: -1 }));
    assert_eq!(other.get_interactive_ps(), Some(Ps { x: 5, y: 4 }));
    let lost = InteractiveObjectHandle::new("conputer", 3, Ps { x: 3, y: 3 }, Some(PsSigned { x: 4, y: 0 }));
    assert_eq!(lost.get_interactive_ps(), None);
    assert!(!lost.is_used_from(Ps { x: 3, y: 3 }));
}

#[test]
fn the_object_registry_is_searched_in_order() {
    let mut objects = InteractiveObjects::new();
    objects.insert(InteractiveObjectHandle::new("bed", 1, Ps { x: 1, y: 1 }, None));
    objects.insert(InteractiveObjectHandle::new("conputer", 2, Ps { x: 2, y: 2 }, Some(PsSigned { x: 1, y: 1 })));
    objects.insert(InteractiveObjectHandle::new("bed", 3, Ps { x: 5, y: 5 }, None));
    objects.insert(InteractiveObjectHandle::new("bed", 4, Ps { x: 6, y: 5 }, None));
    assert_eq!(objects.find_used_from(Ps { x: 1, y: 1 }), Some(0));
    assert_eq!(objects.find_used_from(Ps { x: 5, y: 5 }), Some(2));
    assert_eq!(objects.find_used_from(Ps { x: 2, y: 2 }), None);
    assert_eq!(objects.find_assignable(Some("bed")), vec![0, 2, 3]);
    assert_eq!(objects.find_assignable(Some("conputer")), vec![1]);
    assert_eq!(objects.find_assignable(None), vec![0, 1, 2, 3]);
    objects.items[2].assign();
    objects.items[3].take(9);
    assert_eq!(objects.find_assignable(Some("bed")), vec![0]);
    assert_eq!(objects.find_assignable(Some("sofa")), Vec::<usize>::new());
}
