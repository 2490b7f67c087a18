//! The step from one generation to the next. Every cell of the next
//! generation is a function of a frozen snapshot of the current one, so the
//! cells can be computed in any order, one after another or side by side.

use vstd::prelude::*;
use crate::config::Gol;
use crate::neighbors::{count_neighbors, spec_count_neighbors};
use crate::parallel::par_update;

verus! {

/// The rule of the game: a live cell stays alive with two or three live
/// neighbours, a dead cell comes alive with exactly three.
pub open spec fn spec_next_state(alive: bool, neighbors: int) -> bool {
    if alive {
        neighbors == 2 || neighbors == 3
    } else {
        neighbors == 3
    }
}

/// The state in the next generation of the cell at place `i`.
pub open spec fn spec_next_cell(cells: Seq<bool>, i: int, gol: Gol) -> bool {
    spec_next_state(cells[i], spec_count_neighbors(cells, i, gol))
}

/// The generation that follows `cells`.
pub open spec fn spec_next_generation(cells: Seq<bool>, gol: Gol) -> Seq<bool> {
    Seq::new(cells.len(), |i: int| spec_next_cell(cells, i, gol))
}

/// The generation reached from `cells` after `n` steps.
pub open spec fn spec_generation(cells: Seq<bool>, n: nat, gol: Gol) -> Seq<bool>
    decreases n,
{
    if n == 0 {
        cells
    } else {
        spec_next_generation(spec_generation(cells, (n - 1) as nat, gol), gol)
    }
}

/// The next generation is fixed by the snapshot alone: two boards of the
/// snapshot's length whose every cell follows the rule are the same board,
/// however and in whatever order their cells were computed.
pub proof fn lemma_next_generation_unique(snapshot: Seq<bool>, gol: Gol, a: Seq<bool>, b: Seq<bool>)
    requires
        a.len() == snapshot.len(),
        b.len() == snapshot.len(),
        forall|i: int| 0 <= i < snapshot.len() ==> a[i] == spec_next_cell(snapshot, i, gol),
        forall|i: int| 0 <= i < snapshot.len() ==> b[i] == spec_next_cell(snapshot, i, gol),
    ensures
        a == b,
        a == spec_next_generation(snapshot, gol),
{
}

/// The board after the cells at the places in `order`, taken one after
/// another, were each given their state in the generation that follows
/// `snapshot`. A place may occur more than once.
pub open spec fn spec_write_cells(
    board: Seq<bool>,
    snapshot: Seq<bool>,
    order: Seq<int>,
    gol: Gol,
) -> Seq<bool>
    decreases order.len(),
{
    if order.len() == 0 {
        board
    } else {
        spec_write_cells(board, snapshot, order.drop_last(), gol).update(
            order.last(),
            spec_next_cell(snapshot, order.last(), gol),
        )
    }
}

/// Writing cells from a snapshot touches the written places only: a place
/// in `order` holds its next state, every other place what it held before.
pub proof fn lemma_write_cells(board: Seq<bool>, snapshot: Seq<bool>, order: Seq<int>, gol: Gol)
    requires
        forall|k: int| 0 <= k < order.len() ==> 0 <= #[trigger] order[k] < board.len(),
    ensures
        spec_write_cells(board, snapshot, order, gol).len() == board.len(),
        forall|i: int|
            0 <= i < board.len() ==> #[trigger] spec_write_cells(board, snapshot, order, gol)[i]
                == if order.contains(i) {
                spec_next_cell(snapshot, i, gol)
            } else {
                board[i]
            },
    decreases order.len(),
{
    if order.len() > 0 {
        let front = order.drop_last();
        lemma_write_cells(board, snapshot, front, gol);
        assert forall|i: int| 0 <= i < board.len() implies order.contains(i) == (front.contains(i)
            || i == order.last()) by {
            if order.contains(i) {
                let k = choose|k: int| 0 <= k < order.len() && order[k] == i;
                if k < order.len() - 1 {
                    assert(front[k] == i);
                }
            }
        }
    }
}

/// The order in which the cells are computed does not matter, nor what the
/// board held before: once every place was written from the snapshot, in
/// any order and however often, the board is the next generation.
pub proof fn lemma_any_order(board: Seq<bool>, snapshot: Seq<bool>, order: Seq<int>, gol: Gol)
    requires
        board.len() == snapshot.len(),
        forall|k: int| 0 <= k < order.len() ==> 0 <= #[trigger] order[k] < snapshot.len(),
        forall|i: int| 0 <= i < snapshot.len() ==> order.contains(i),
    ensures
        spec_write_cells(board, snapshot, order, gol) == spec_next_generation(snapshot, gol),
{
    lemma_write_cells(board, snapshot, order, gol);
}

/// A live cell without a live neighbour is dead in the next generation.
pub proof fn lemma_isolated_cell_dies(cells: Seq<bool>, i: int, gol: Gol)
    requires
        0 <= i < cells.len(),
        cells[i],
        spec_count_neighbors(cells, i, gol) == 0,
    ensures
        !spec_next_generation(cells, gol)[i],
{
}

/// A board on which no cell changes in one step never changes.
pub proof fn lemma_still_life(cells: Seq<bool>, n: nat, gol: Gol)
    requires
        spec_next_generation(cells, gol) == cells,
    ensures
        spec_generation(cells, n, gol) == cells,
    decreases n,
{
    if n > 0 {
        lemma_still_life(cells, (n - 1) as nat, gol);
    }
}

/// The state that a cell takes in the next generation, given its state and
/// the number of its live neighbours.
pub fn next_state(alive: bool, neighbors: i32) -> (r: bool)
    ensures
        r == spec_next_state(alive, neighbors as int),
{
    if alive {
        if neighbors < 2 || neighbors > 3 {
            false
        } else {
            true
        }
    } else if neighbors == 3 {
        true
    } else {
        false
    }
}

/// The state in the next generation of the cell at place `i` of the
/// snapshot.
pub fn next_cell(snapshot: &[bool], i: usize, gol: Gol) -> (r: bool)
    requires
        gol.wf(),
        snapshot@.len() == gol.ncells,
        i < gol.ncells,
    ensures
        r == spec_next_cell(snapshot@, i as int, gol),
{
    let neighbors: i32 = count_neighbors(snapshot, i, gol);
    next_state(snapshot[i], neighbors)
}

/// The generation that follows the snapshot, computed cell after cell.
pub fn next_generation(snapshot: &[bool], gol: Gol) -> (next: Vec<bool>)
    requires
        gol.wf(),
        snapshot@.len() == gol.ncells,
    ensures
        next@ == spec_next_generation(snapshot@, gol),
{
    let mut next: Vec<bool> = Vec::with_capacity(snapshot.len());
    let mut i: usize = 0;
    while i < snapshot.len()
        invariant
            gol.wf(),
            snapshot@.len() == gol.ncells,
            i <= snapshot@.len(),
            next@.len() == i,
            forall|k: int| 0 <= k < i ==> next@[k] == spec_next_cell(snapshot@, k, gol),
        decreases snapshot@.len() - i,
    {
        next.push(next_cell(snapshot, i, gol));
        i += 1;
    }
    next
}

/// Replaces the board by the generation that follows it. The cells are
/// computed side by side from a snapshot taken first, so no cell is read
/// after it was written.
pub fn advance(cells: &mut Vec<bool>, gol: Gol)
    requires
        gol.wf(),
        old(cells)@.len() == gol.ncells,
    ensures
        final(cells)@ == spec_next_generation(old(cells)@, gol),
{
    let old_cells: Vec<bool> = cells.clone();
    let snapshot: &Vec<bool> = &old_cells;
    let rule = |i: usize| -> (r: bool)
        requires
            i < gol.ncells,
        ensures
            r == spec_next_cell(snapshot@, i as int, gol),
        { next_cell(snapshot.as_slice(), i, gol) };
    par_update(cells, rule);
}

} // verus!
