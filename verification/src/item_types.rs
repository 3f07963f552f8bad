//! The type tags of the items and objects that the agents know.

use vstd::prelude::*;

verus! {

pub const BONE: &'static str = "bone";

pub const TRASHCAN: &'static str = "trashcan";

pub const BED: &'static str = "bed";

pub const CONPUTER: &'static str = "conputer";

} // verus!
