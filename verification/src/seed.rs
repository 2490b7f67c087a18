//! The first generation: a board of cells that are alive or dead by chance.

use vstd::prelude::*;
use rand::Rng;
use crate::config::Gol;

verus! {

/// A random state for one cell.
///
/// The value comes from rand: `thread_rng()` hands out the generator of the
/// calling thread, which the operating system seeded, and `gen::<bool>()`
/// draws a `bool` from it. Nothing is claimed of the value. The call fails
/// only where the operating system has no entropy to seed the generator.
#[verifier::external_body]
fn random_cell() -> bool {
    rand::thread_rng().gen()
}

/// A board of the configured size whose cells are each alive or dead by
/// chance.
pub fn random_cells(gol: Gol) -> (cells: Vec<bool>)
    requires
        gol.wf(),
    ensures
        cells@.len() == gol.ncells,
{
    let mut cells: Vec<bool> = Vec::with_capacity(gol.ncells);
    let mut i: usize = 0;
    while i < gol.ncells
        invariant
            i <= gol.ncells,
            cells@.len() == i,
        decreases gol.ncells - i,
    {
        cells.push(random_cell());
        i += 1;
    }
    cells
}

} // verus!
