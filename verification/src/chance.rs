//! The one place where the engine draws on randomness.

use rand::seq::SliceRandom;
use vstd::prelude::*;

verus! {

/// Draws one element of `cells` at random.
///
/// Calls `rand::seq::SliceRandom::choose` on the slice with the generator that
/// `rand::thread_rng` hands out. Not proved; the contract states what the source
/// of `choose` shows for every outcome of the draw: an empty slice gives `None`,
/// and any other slice gives one of its own elements. Which element comes out is
/// left open, and so is the distribution. `thread_rng` panics if the operating
/// system's entropy source cannot be read when the generator is first seeded.
#[verifier::external_body]
pub(crate) fn choose_cell(cells: &Vec<(usize, usize)>) -> (picked: Option<(usize, usize)>)
    ensures
        cells@.len() == 0 ==> picked is None,
        cells@.len() > 0 ==> picked is Some && cells@.contains(picked->0),
{
    cells.choose(&mut rand::thread_rng()).copied()
}

} // verus!
