//! The library's source of chance: thin contracts around the `quad_rand`
//! generator. Nothing here is proved; each contract states what holds of
//! every value the generator can hand back.

use quad_rand::ChooseRandom;
use vstd::prelude::*;

use crate::position::Ps;

verus! {

/// Draws a number below `bound` by calling `quad_rand::gen_range(0, bound)`.
///
/// The generator scales a 32-bit draw into `[0, 1)`, multiplies by `bound` and
/// truncates, so the result is always smaller than `bound`. Which number comes
/// back depends on the generator's hidden state.
#[verifier::external_body]
pub(crate) fn random_below(bound: usize) -> (r: usize)
    requires
        bound > 0,
    ensures
        r < bound,
{
    quad_rand::gen_range(0usize, bound)
}

/// Reorders `cells` in place by calling `quad_rand`'s `ChooseRandom::shuffle`
/// (a Fisher-Yates shuffle, which only ever swaps elements).
///
/// The cells afterwards are the cells before, each as often as before; their
/// order depends on the generator's hidden state.
#[verifier::external_body]
pub(crate) fn shuffle_cells(cells: &mut Vec<Ps>)
    ensures
        final(cells)@.to_multiset() == old(cells)@.to_multiset(),
{
    cells.as_mut_slice().shuffle();
}

/// Picks one element of `items` by calling `quad_rand`'s
/// `ChooseRandom::choose`, which draws an index below the length and looks it
/// up: `None` for an empty list, else a reference to one of its elements.
#[verifier::external_body]
pub(crate) fn choose_one<T>(items: &Vec<T>) -> (r: Option<&T>)
    ensures
        items.len() == 0 ==> r is None,
        items.len() > 0 ==> r is Some,
        r matches Some(picked) ==> exists|i: int| 0 <= i < items.len() && items[i] == *picked,
{
    items.as_slice().choose()
}

} // verus!
