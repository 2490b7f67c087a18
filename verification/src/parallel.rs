//! Data-parallel update of a sequence of cells.

use vstd::prelude::*;
use rayon::iter::{IndexedParallelIterator, IntoParallelRefMutIterator, ParallelIterator};

verus! {

/// Gives every cell the value that `f` returns for its place.
///
/// The work is done by rayon: `par_iter_mut().enumerate().for_each(..)` runs
/// the closure once for every place of the vector, paired with a mutable
/// reference to the cell at that place, on the threads of rayon's pool and in
/// no fixed order. The contract claims that of rayon: the length is
/// unchanged, and each cell ends as one of the values that `f` may return for
/// its place.
#[verifier::external_body]
pub(crate) fn par_update<F: Fn(usize) -> bool + Sync + Send>(cells: &mut Vec<bool>, f: F)
    requires
        forall|i: usize| i < old(cells)@.len() ==> call_requires(f, (i,)),
    ensures
        final(cells)@.len() == old(cells)@.len(),
        forall|i: int|
            0 <= i < final(cells)@.len() ==> call_ensures(
                f,
                (i as usize,),
                #[trigger] final(cells)@[i],
            ),
{
    cells.par_iter_mut().enumerate().for_each(|(i, cell)| *cell = f(i));
}

} // verus!
