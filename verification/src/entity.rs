//! Identifiers of the things that live in the world.

use vstd::prelude::*;

verus! {

/// The identifier of an agent, an item or an object. The world that spawns
/// them hands out one number for each; the library only compares them.
pub type Entity = u64;

/// Compares two type tags with `str`'s own `==`, which holds exactly when
/// both consist of the same characters.
pub assume_specification[ <str as PartialEq>::eq ](a: &str, b: &str) -> (r: bool)
    ensures
        r == (a@ == b@),
;

/// What a type filter lets through: everything where it is `None`, else the
/// things whose tag reads the same as the filter.
pub open spec fn type_passes(item_type: &'static str, filter: Option<&'static str>) -> bool {
    match filter {
        None => true,
        Some(wanted) => item_type@ == wanted@,
    }
}

/// Whether a thing of type `item_type` passes `filter`.
pub fn passes_type_filter(item_type: &'static str, filter: Option<&'static str>) -> (r: bool)
    ensures
        r == type_passes(item_type, filter),
{
    match filter {
        None => true,
        Some(wanted) => item_type.eq(wanted),
    }
}

} // verus!
