//! Searches over the registry of items. All of them go through the registry
//! in its own order.

use vstd::prelude::*;

use crate::carriableitem::{CarriableItemHandle, CarriableItems};
use crate::entity::{passes_type_filter, type_passes};
use crate::position::Ps;

verus! {

/// The items of `items` that `keep` marks, in their order.
pub open spec fn selected(items: Seq<CarriableItemHandle>, keep: Seq<bool>) -> Seq<
    CarriableItemHandle,
>
    decreases items.len(),
{
    if items.len() == 0 || keep.len() != items.len() {
        Seq::empty()
    } else {
        let rest = selected(items.drop_last(), keep.drop_last());
        if keep.last() {
            rest.push(items.last())
        } else {
            rest
        }
    }
}

/// What a search by type looks for: an item that passes the type filter and,
/// where `only_available` is set, can be taken.
pub open spec fn wanted(
    item: CarriableItemHandle,
    item_type: Option<&'static str>,
    only_available: bool,
) -> bool {
    type_passes(item.item_type, item_type) && (only_available ==> item.is_available())
}

/// All items for which `predicate` returns `true`, in registry order.
pub fn find_all_by<F>(carriables: &CarriableItems, predicate: F) -> (r: Vec<CarriableItemHandle>)
    where F: Fn(&CarriableItemHandle) -> bool
    requires
        forall|i: int|
            0 <= i < carriables.items.len() ==> call_requires(
                predicate,
                (&#[trigger] carriables.items[i],),
            ),
    ensures
        exists|keep: Seq<bool>|
            {
                &&& keep.len() == carriables.items.len()
                &&& forall|i: int|
                    0 <= i < keep.len() ==> call_ensures(
                        predicate,
                        (&carriables.items[i],),
                        #[trigger] keep[i],
                    )
                &&& r@ == selected(carriables.items@, keep)
            },
{
    let mut found: Vec<CarriableItemHandle> = Vec::new();
    let ghost mut keep: Seq<bool> = Seq::empty();
    let mut i: usize = 0;
    while i < carriables.items.len()
        invariant
            i <= carriables.items.len(),
            keep.len() == i,
            forall|j: int|
                0 <= j < carriables.items.len() ==> call_requires(
                    predicate,
                    (&#[trigger] carriables.items[j],),
                ),
            forall|j: int|
                0 <= j < i ==> call_ensures(predicate, (&carriables.items[j],), #[trigger] keep[j]),
            found@ == selected(carriables.items@.take(i as int), keep),
        decreases carriables.items.len() - i,
    {
        let item = &carriables.items[i];
        let kept: bool = predicate(item);
        proof {
            let items_next = carriables.items@.take(i + 1);
            let keep_next = keep.push(kept);
            assert(items_next.drop_last() =~= carriables.items@.take(i as int));
            assert(keep_next.drop_last() =~= keep);
            keep = keep_next;
        }
        if kept {
            found.push(*item);
        }
        i += 1;
    }
    assert(carriables.items@.take(i as int) =~= carriables.items@);
    found
}

/// The first item, in registry order, for which `predicate` returns `true`.
pub fn find_one_by<F>(carriables: &CarriableItems, predicate: F) -> (r: Option<CarriableItemHandle>)
    where F: Fn(&CarriableItemHandle) -> bool
    requires
        forall|i: int|
            0 <= i < carriables.items.len() ==> call_requires(
                predicate,
                (&#[trigger] carriables.items[i],),
            ),
    ensures
        r matches Some(item) ==> exists|i: int|
            {
                &&& 0 <= i < carriables.items.len()
                &&& carriables.items[i] == item
                &&& call_ensures(predicate, (&carriables.items[i],), true)
                &&& forall|j: int|
                    0 <= j < i ==> call_ensures(
                        predicate,
                        (&#[trigger] carriables.items[j],),
                        false,
                    )
            },
        r is None ==> forall|j: int|
            0 <= j < carriables.items.len() ==> call_ensures(
                predicate,
                (&#[trigger] carriables.items[j],),
                false,
            ),
{
    let mut i: usize = 0;
    while i < carriables.items.len()
        invariant
            i <= carriables.items.len(),
            forall|j: int|
                0 <= j < carriables.items.len() ==> call_requires(
                    predicate,
                    (&#[trigger] carriables.items[j],),
                ),
            forall|j: int|
                0 <= j < i ==> call_ensures(predicate, (&#[trigger] carriables.items[j],), false),
        decreases carriables.items.len() - i,
    {
        let item = &carriables.items[i];
        if predicate(item) {
            return Some(*item);
        }
        i += 1;
    }
    None
}

/// Collects the wanted items, in registry order.
fn collect_wanted(
    carriables: &CarriableItems,
    item_type: Option<&'static str>,
    only_available: bool,
) -> (r: Vec<CarriableItemHandle>)
    ensures
        r@ == carriables.items@.filter(
            |item: CarriableItemHandle| wanted(item, item_type, only_available),
        ),
{
    let ghost pred = |item: CarriableItemHandle| wanted(item, item_type, only_available);
    let mut found: Vec<CarriableItemHandle> = Vec::new();
    let mut i: usize = 0;
    assert(carriables.items@.take(0).filter(pred) =~= Seq::empty());
    while i < carriables.items.len()
        invariant
            i <= carriables.items.len(),
            pred == |item: CarriableItemHandle| wanted(item, item_type, only_available),
            found@ == carriables.items@.take(i as int).filter(pred),
        decreases carriables.items.len() - i,
    {
        let item = carriables.items[i];
        proof {
            let next = carriables.items@.take(i + 1);
            assert(next.drop_last() =~= carriables.items@.take(i as int));
            assert(next.last() == item);
            reveal_with_fuel(Seq::filter, 2);
        }
        if passes_type_filter(item.item_type, item_type) && (!only_available || item.available()) {
            found.push(item);
        }
        i += 1;
    }
    assert(carriables.items@.take(i as int) =~= carriables.items@);
    found
}

/// All items that pass the type filter, in registry order.
pub fn find_all_with_type(carriables: &CarriableItems, item_type: Option<&'static str>) -> (r: Vec<
    CarriableItemHandle,
>)
    ensures
        r@ == carriables.items@.filter(|item: CarriableItemHandle| wanted(item, item_type, false)),
{
    collect_wanted(carriables, item_type, false)
}

/// All items that pass the type filter and can be taken, in registry order.
pub fn find_all_available_with_type(
    carriables: &CarriableItems,
    item_type: Option<&'static str>,
) -> (r: Vec<CarriableItemHandle>)
    ensures
        r@ == carriables.items@.filter(|item: CarriableItemHandle| wanted(item, item_type, true)),
{
    collect_wanted(carriables, item_type, true)
}

/// The item at index `i` is wanted, no wanted item lies nearer to
/// `close_to`, and no wanted item before it lies as near.
pub open spec fn is_closest(
    items: Seq<CarriableItemHandle>,
    item_type: Option<&'static str>,
    close_to: Ps,
    i: int,
) -> bool {
    &&& 0 <= i < items.len()
    &&& wanted(items[i], item_type, true)
    &&& forall|j: int|
        0 <= j < items.len() && wanted(#[trigger] items[j], item_type, true) ==> close_to.distance(
            items[i].position,
        ) <= close_to.distance(items[j].position)
    &&& forall|j: int|
        0 <= j < i && wanted(#[trigger] items[j], item_type, true) ==> close_to.distance(
            items[i].position,
        ) < close_to.distance(items[j].position)
}

/// The item nearest to `close_to`, by Manhattan distance, among those that
/// pass the type filter and can be taken; of several at the same distance,
/// the first in registry order. `None` where no item qualifies.
pub fn find_closest_available_with_type(
    carriables: &CarriableItems,
    item_type: Option<&'static str>,
    close_to: Ps,
) -> (r: Option<CarriableItemHandle>)
    ensures
        r matches Some(item) ==> exists|i: int|
            is_closest(carriables.items@, item_type, close_to, i) && carriables.items[i] == item,
        r is None <==> forall|j: int|
            0 <= j < carriables.items.len() ==> !wanted(
                #[trigger] carriables.items[j],
                item_type,
                true,
            ),
{
    let mut best: Option<usize> = None;
    let mut best_distance: u128 = 0;
    let mut i: usize = 0;
    while i < carriables.items.len()
        invariant
            i <= carriables.items.len(),
            best is None ==> forall|j: int|
                0 <= j < i ==> !wanted(#[trigger] carriables.items[j], item_type, true),
            best matches Some(b) ==> {
                &&& b < i
                &&& best_distance == close_to.distance(carriables.items[b as int].position)
                &&& is_closest(carriables.items@.take(i as int), item_type, close_to, b as int)
            },
        decreases carriables.items.len() - i,
    {
        let item = carriables.items[i];
        let ghost seen = carriables.items@.take(i as int);
        let ghost seen_next = carriables.items@.take(i + 1);
        if passes_type_filter(item.item_type, item_type) && item.available() {
            let distance: u128 = close_to.manhattan_wide(&item.position);
            let better: bool = match best {
                None => true,
                Some(_) => distance < best_distance,
            };
            if better {
                proof {
                    assert forall|j: int|
                        0 <= j < seen_next.len() && wanted(
                            #[trigger] seen_next[j],
                            item_type,
                            true,
                        ) implies close_to.distance(seen_next[i as int].position)
                        <= close_to.distance(seen_next[j].position) by {
                        if j < i {
                            assert(seen[j] == seen_next[j]);
                            if let Some(b) = best {
                                assert(seen[b as int] == carriables.items[b as int]);
                            }
                        }
                    }
                    assert forall|j: int|
                        0 <= j < i && wanted(#[trigger] seen_next[j], item_type, true) implies
                            close_to.distance(
                        seen_next[i as int].position,
                    ) < close_to.distance(seen_next[j].position) by {
                        assert(seen[j] == seen_next[j]);
                        if let Some(b) = best {
                            assert(seen[b as int] == carriables.items[b as int]);
                        }
                    }
                }
                best = Some(i);
                best_distance = distance;
            } else {
                proof {
                    let b = best.unwrap() as int;
                    assert(seen[b] == seen_next[b]);
                    assert forall|j: int|
                        0 <= j < seen_next.len() && wanted(
                            #[trigger] seen_next[j],
                            item_type,
                            true,
                        ) implies close_to.distance(seen_next[b].position) <= close_to.distance(
                        seen_next[j].position,
                    ) by {
                        if j < i {
                            assert(seen[j] == seen_next[j]);
                        }
                    }
                    assert forall|j: int|
                        0 <= j < b && wanted(#[trigger] seen_next[j], item_type, true) implies
                            close_to.distance(
                        seen_next[b].position,
                    ) < close_to.distance(seen_next[j].position) by {
                        assert(seen[j] == seen_next[j]);
                    }
                }
            }
        } else {
            proof {
                if let Some(b) = best {
                    let b = b as int;
                    assert(seen[b] == seen_next[b]);
                    assert forall|j: int|
                        0 <= j < seen_next.len() && wanted(
                            #[trigger] seen_next[j],
                            item_type,
                            true,
                        ) implies close_to.distance(seen_next[b].position) <= close_to.distance(
                        seen_next[j].position,
                    ) by {
                        if j < i {
                            assert(seen[j] == seen_next[j]);
                        }
                    }
                    assert forall|j: int|
                        0 <= j < b && wanted(#[trigger] seen_next[j], item_type, true) implies
                            close_to.distance(
                        seen_next[b].position,
                    ) < close_to.distance(seen_next[j].position) by {
                        assert(seen[j] == seen_next[j]);
                    }
                }
            }
        }
        i += 1;
    }
    assert(carriables.items@.take(i as int) =~= carriables.items@);
    match best {
        Some(b) => {
            assert(wanted(carriables.items[b as int], item_type, true));
            Some(carriables.items[b])
        },
        None => None,
    }
}

} // verus!
