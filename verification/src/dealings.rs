//! What it means to deal with the things of the world: to pick an item
//! up, to drop it, to consume it, and to claim an interactive object and
//! give it up again. These are the relations in which the contracts of the
//! agent speak.

use vstd::prelude::*;

use crate::carriableitem::{distinct_ids, CarriableItemHandle};
use crate::entity::{type_passes, Entity};
use crate::gametime::Time;
use crate::interactive::InteractiveObjectHandle;
use crate::mental::{Brains, IntentionCompleted};
use crate::position::Ps;
use crate::pursuit::goal_closed;

verus! {

/// The mind `after` is `before` with its current goal closed with `result`.
pub open spec fn goal_closed_with(
    before: Brains,
    after: Brains,
    result: IntentionCompleted,
) -> bool {
    match result {
        IntentionCompleted::Success => goal_closed(before, after, true),
        IntentionCompleted::Failure => goal_closed(before, after, false),
        _ => {
            &&& after.intentions@ == before.intentions@.finished()
            &&& after.mem == before.mem
            &&& after.cycles_counter == before.cycles_counter
            &&& after.time_reference == before.time_reference
        },
    }
}

/// An item that lies on `at`, can be taken and passes `filter`.
pub open spec fn lies_ready(
    item: CarriableItemHandle,
    at: Ps,
    filter: Option<&'static str>,
) -> bool {
    item.position == at && item.is_available() && type_passes(item.item_type, filter)
}

/// An item that passes `filter` and is among `holdings`.
pub open spec fn is_held(
    item: CarriableItemHandle,
    holdings: Set<Entity>,
    filter: Option<&'static str>,
) -> bool {
    type_passes(item.item_type, filter) && holdings.contains(item.item_id)
}

/// What an attempt to pick up an item on `at` leads to: the first item of
/// the registry that lies ready there is taken by `entity` and joins the
/// holdings; without such an item the attempt fails and nothing changes.
pub open spec fn is_pick(
    items: Seq<CarriableItemHandle>,
    holdings: Set<Entity>,
    items_after: Seq<CarriableItemHandle>,
    holdings_after: Set<Entity>,
    r: IntentionCompleted,
    at: Ps,
    entity: Entity,
    filter: Option<&'static str>,
) -> bool {
    if exists|i: int| 0 <= i < items.len() && lies_ready(#[trigger] items[i], at, filter) {
        exists|i: int|
            {
                &&& 0 <= i < items.len()
                &&& lies_ready(#[trigger] items[i], at, filter)
                &&& forall|j: int| 0 <= j < i ==> !lies_ready(#[trigger] items[j], at, filter)
                &&& items_after == items.update(i, items[i].taken(entity))
                &&& holdings_after == holdings.insert(items[i].item_id)
                &&& r == IntentionCompleted::Success
            }
    } else {
        r == IntentionCompleted::Failure && items_after == items && holdings_after == holdings
    }
}

/// What an attempt to consume an item on `at` leads to: the first item of
/// the registry that lies ready there is used up; without such an item the
/// attempt fails and nothing changes.
pub open spec fn is_consume(
    items: Seq<CarriableItemHandle>,
    items_after: Seq<CarriableItemHandle>,
    r: IntentionCompleted,
    at: Ps,
    filter: Option<&'static str>,
) -> bool {
    if exists|i: int| 0 <= i < items.len() && lies_ready(#[trigger] items[i], at, filter) {
        exists|i: int|
            {
                &&& 0 <= i < items.len()
                &&& lies_ready(#[trigger] items[i], at, filter)
                &&& forall|j: int| 0 <= j < i ==> !lies_ready(#[trigger] items[j], at, filter)
                &&& items_after == items.update(i, items[i].used_up())
                &&& r == IntentionCompleted::Success
            }
    } else {
        r == IntentionCompleted::Failure && items_after == items
    }
}

/// What an attempt to drop a carried item leads to (`consume` unset), or to
/// consume one (`consume` set): the first item of the registry that is held
/// and passes the filter is let go, and used up if it is to be consumed;
/// without such an item the attempt fails and nothing changes.
pub open spec fn is_let_go(
    items: Seq<CarriableItemHandle>,
    holdings: Set<Entity>,
    items_after: Seq<CarriableItemHandle>,
    holdings_after: Set<Entity>,
    r: IntentionCompleted,
    filter: Option<&'static str>,
    consume: bool,
) -> bool {
    if exists|i: int| 0 <= i < items.len() && is_held(#[trigger] items[i], holdings, filter) {
        exists|i: int|
            {
                &&& 0 <= i < items.len()
                &&& is_held(#[trigger] items[i], holdings, filter)
                &&& forall|j: int| 0 <= j < i ==> !is_held(#[trigger] items[j], holdings, filter)
                &&& items_after == items.update(
                    i,
                    if consume {
                        items[i].released().used_up()
                    } else {
                        items[i].released()
                    },
                )
                &&& holdings_after == holdings.remove(items[i].item_id)
                &&& r == IntentionCompleted::Success
            }
    } else {
        r == IntentionCompleted::Failure && items_after == items && holdings_after == holdings
    }
}

/// Replacing an item of a registry by one with the same identifier keeps
/// the identifiers distinct.
pub proof fn lemma_update_keeps_ids(
    items: Seq<CarriableItemHandle>,
    i: int,
    changed: CarriableItemHandle,
)
    requires
        distinct_ids(items),
        0 <= i < items.len(),
        changed.item_id == items[i].item_id,
    ensures
        distinct_ids(items.update(i, changed)),
{
    let after = items.update(i, changed);
    assert forall|a: int, b: int|
        0 <= a < after.len() && 0 <= b < after.len() && a != b implies (#[trigger] after[a]).item_id
        != (#[trigger] after[b]).item_id by {
        assert(after[a].item_id == items[a].item_id);
        assert(after[b].item_id == items[b].item_id);
    }
}

/// An agent with empty hands that picks up an item and then drops what it
/// carries has empty hands again, and the registry is as it was before: the
/// item is back, available, where it lay.
pub proof fn lemma_pick_then_drop_restores(
    items: Seq<CarriableItemHandle>,
    taken: Seq<CarriableItemHandle>,
    dropped: Seq<CarriableItemHandle>,
    holding: Set<Entity>,
    after: Set<Entity>,
    second: IntentionCompleted,
    at: Ps,
    entity: Entity,
    filter: Option<&'static str>,
)
    requires
        distinct_ids(items),
        is_pick(
            items,
            Set::<Entity>::empty(),
            taken,
            holding,
            IntentionCompleted::Success,
            at,
            entity,
            filter,
        ),
        is_let_go(taken, holding, dropped, after, second, None, false),
    ensures
        second == IntentionCompleted::Success,
        dropped == items,
        after == Set::<Entity>::empty(),
{
    let i = choose|i: int|
        {
            &&& 0 <= i < items.len()
            &&& lies_ready(#[trigger] items[i], at, filter)
            &&& forall|j: int| 0 <= j < i ==> !lies_ready(#[trigger] items[j], at, filter)
            &&& taken == items.update(i, items[i].taken(entity))
            &&& holding == Set::<Entity>::empty().insert(items[i].item_id)
        };
    assert(is_held(taken[i], holding, None));
    let j = choose|j: int|
        {
            &&& 0 <= j < taken.len()
            &&& is_held(#[trigger] taken[j], holding, None)
            &&& forall|k: int| 0 <= k < j ==> !is_held(#[trigger] taken[k], holding, None)
            &&& dropped == taken.update(j, taken[j].released())
            &&& after == holding.remove(taken[j].item_id)
            &&& second == IntentionCompleted::Success
        };
    if j != i {
        assert(taken[j] == items[j]);
        assert(items[j].item_id == items[i].item_id);
    }
    assert(items[i].taken(entity).released() == items[i]);
    assert(dropped =~= items);
    assert(after =~= Set::<Entity>::empty());
}

/// An agent that consumes an item it carries leaves the item used up and
/// carried by nobody, and a second attempt to consume what it carries does
/// not bring the item back: whatever that attempt does, the item stays used
/// up and unavailable.
pub proof fn lemma_consume_carried_is_final(
    items: Seq<CarriableItemHandle>,
    holdings: Set<Entity>,
    consumed: Seq<CarriableItemHandle>,
    left: Set<Entity>,
    again: Seq<CarriableItemHandle>,
    left_again: Set<Entity>,
    second: IntentionCompleted,
    filter: Option<&'static str>,
    second_filter: Option<&'static str>,
    i: int,
)
    requires
        distinct_ids(items),
        is_let_go(items, holdings, consumed, left, IntentionCompleted::Success, filter, true),
        0 <= i < items.len(),
        is_held(items[i], holdings, filter),
        forall|j: int| 0 <= j < i ==> !is_held(#[trigger] items[j], holdings, filter),
        is_let_go(consumed, left, again, left_again, second, second_filter, true),
    ensures
        consumed[i] == items[i].released().used_up(),
        !consumed[i].is_available(),
        consumed[i].carried_by is None,
        !left.contains(items[i].item_id),
        again.len() == items.len(),
        again[i] == consumed[i],
        !left_again.contains(items[i].item_id),
{
    let k = choose|k: int|
        {
            &&& 0 <= k < items.len()
            &&& is_held(#[trigger] items[k], holdings, filter)
            &&& forall|j: int| 0 <= j < k ==> !is_held(#[trigger] items[j], holdings, filter)
            &&& consumed == items.update(k, items[k].released().used_up())
            &&& left == holdings.remove(items[k].item_id)
        };
    assert(k == i) by {
        if k < i {
            assert(!is_held(items[k], holdings, filter));
        }
        if i < k {
            assert(!is_held(items[i], holdings, filter));
        }
    }
    assert(!is_held(consumed[i], left, second_filter));
    if exists|m: int| 0 <= m < consumed.len()
        && is_held(#[trigger] consumed[m], left, second_filter) {
        let m = choose|m: int|
            {
                &&& 0 <= m < consumed.len()
                &&& is_held(#[trigger] consumed[m], left, second_filter)
                &&& forall|j: int| 0 <= j < m
                    ==> !is_held(#[trigger] consumed[j], left, second_filter)
                &&& again == consumed.update(m, consumed[m].released().used_up())
                &&& left_again == left.remove(consumed[m].item_id)
            };
        assert(m != i);
    }
}

/// An object that is used from `at`.
pub open spec fn stands_at(object: InteractiveObjectHandle, at: Ps) -> bool {
    object.interactive_ps() == Some(at)
}

/// An object that is used from `at` and claimed by somebody.
pub open spec fn claimed_at(object: InteractiveObjectHandle, at: Ps) -> bool {
    object.interactive_ps() == Some(at) && object.used_by is Some
}

/// What an attempt of `entity` to use the object at `at` leads to. The
/// first object of the registry that is used from there counts. Claimed by
/// somebody else, it makes the attempt fail; claimed by `entity` itself, it
/// stays as it is; free, it is claimed. Without an object there the attempt
/// fails. A result of `None` means that `entity` holds the claim.
pub open spec fn is_claim(
    objects: Seq<InteractiveObjectHandle>,
    objects_after: Seq<InteractiveObjectHandle>,
    r: Option<IntentionCompleted>,
    at: Ps,
    entity: Entity,
) -> bool {
    if exists|i: int| 0 <= i < objects.len() && stands_at(#[trigger] objects[i], at) {
        exists|i: int|
            {
                &&& 0 <= i < objects.len()
                &&& stands_at(#[trigger] objects[i], at)
                &&& forall|j: int| 0 <= j < i ==> !stands_at(#[trigger] objects[j], at)
                &&& match objects[i].used_by {
                    Some(user) => objects_after == objects && r == if user != entity {
                        Some(IntentionCompleted::Failure)
                    } else {
                        None
                    },
                    None => objects_after == objects.update(i, objects[i].claimed(entity)) && r
                        is None,
                }
            }
    } else {
        r == Some(IntentionCompleted::Failure) && objects_after == objects
    }
}

/// What an attempt of `entity` to give up its claim on the object at `at`
/// leads to. The first object of the registry that is used from there and
/// claimed counts. Claimed by `entity`, it is released and the attempt
/// succeeds; claimed by somebody else, or without such an object, the
/// attempt fails and nothing changes.
pub open spec fn is_release(
    objects: Seq<InteractiveObjectHandle>,
    objects_after: Seq<InteractiveObjectHandle>,
    r: IntentionCompleted,
    at: Ps,
    entity: Entity,
) -> bool {
    if exists|i: int| 0 <= i < objects.len() && claimed_at(#[trigger] objects[i], at) {
        exists|i: int|
            {
                &&& 0 <= i < objects.len()
                &&& claimed_at(#[trigger] objects[i], at)
                &&& forall|j: int| 0 <= j < i ==> !claimed_at(#[trigger] objects[j], at)
                &&& if objects[i].used_by == Some(entity) {
                    objects_after == objects.update(i, objects[i].unclaimed()) && r
                        == IntentionCompleted::Success
                } else {
                    objects_after == objects && r == IntentionCompleted::Failure
                }
            }
    } else {
        r == IntentionCompleted::Failure && objects_after == objects
    }
}

/// What one tick of thinking about the goal of using the object at `at` for
/// `minutes` simulated minutes leads to, at the clock reading `now`.
///
/// Until `minutes` have passed since the reading that the mind saved, the
/// agent claims the object, or keeps its claim; the result is `Pending`
/// while it holds the claim. Once the minutes have passed, the claim is
/// given up and the goal is closed with the outcome of that.
pub open spec fn is_use_tick(
    mind: Brains,
    objects: Seq<InteractiveObjectHandle>,
    now: Time,
    mind_after: Brains,
    objects_after: Seq<InteractiveObjectHandle>,
    r: IntentionCompleted,
    at: Ps,
    entity: Entity,
    minutes: isize,
) -> bool {
    if now.minutes_since_zero() - mind.time_reference.minutes_since_zero() >= minutes {
        is_release(objects, objects_after, r, at, entity) && goal_closed_with(mind, mind_after, r)
    } else {
        &&& mind_after == mind
        &&& exists|claim: Option<IntentionCompleted>|
            {
                &&& #[trigger] is_claim(objects, objects_after, claim, at, entity)
                &&& r == match claim {
                    Some(outcome) => outcome,
                    None => IntentionCompleted::Pending,
                }
            }
    }
}

} // verus!
