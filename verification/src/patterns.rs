//! Boards given by a rule for their coordinates, and what the game does to
//! the simplest patterns on them.

use vstd::prelude::*;
use crate::config::Gol;
use crate::engine::{lemma_still_life, spec_generation, spec_next_generation, spec_next_state};
use crate::grid::{
    in_bounds, lemma_coords_of_index, lemma_index_in_range, lemma_index_of_coords, spec_coords,
};
use crate::neighbors::{live_around, live_at};

verus! {

/// The board whose cell at column `x`, row `y` is alive exactly where
/// `alive(x, y)` holds.
pub open spec fn spec_board(gol: Gol, alive: spec_fn(int, int) -> bool) -> Seq<bool> {
    Seq::new(gol.ncells as nat, |i: int| alive(spec_coords(i, gol).0, spec_coords(i, gol).1))
}

/// 1 where column `x`, row `y` lies on the board and `alive(x, y)` holds,
/// else 0.
pub open spec fn alive_at(gol: Gol, alive: spec_fn(int, int) -> bool, x: int, y: int) -> int {
    if in_bounds(x, y, gol) && alive(x, y) {
        1
    } else {
        0
    }
}

/// The number of coordinates around column `x`, row `y` that lie on the
/// board and at which `alive` holds.
pub open spec fn alive_around(gol: Gol, alive: spec_fn(int, int) -> bool, x: int, y: int) -> int {
    alive_at(gol, alive, x - 1, y - 1) + alive_at(gol, alive, x, y - 1) + alive_at(
        gol,
        alive,
        x + 1,
        y - 1,
    ) + alive_at(gol, alive, x - 1, y) + alive_at(gol, alive, x + 1, y) + alive_at(
        gol,
        alive,
        x - 1,
        y + 1,
    ) + alive_at(gol, alive, x, y + 1) + alive_at(gol, alive, x + 1, y + 1)
}

/// The rule of the game in coordinates: what `alive` turns into in one step.
pub open spec fn spec_next_alive(gol: Gol, alive: spec_fn(int, int) -> bool) -> spec_fn(
    int,
    int,
) -> bool {
    |x: int, y: int| spec_next_state(alive(x, y), alive_around(gol, alive, x, y))
}

/// The four cells of the square whose top left cell is at column `bx`, row
/// `by`.
pub open spec fn block(bx: int, by: int) -> spec_fn(int, int) -> bool {
    |x: int, y: int| bx <= x <= bx + 1 && by <= y <= by + 1
}

/// The three cells in a row around column `cx`, row `cy`.
pub open spec fn row_of_three(cx: int, cy: int) -> spec_fn(int, int) -> bool {
    |x: int, y: int| y == cy && cx - 1 <= x <= cx + 1
}

/// The three cells in a column around column `cx`, row `cy`.
pub open spec fn column_of_three(cx: int, cy: int) -> spec_fn(int, int) -> bool {
    |x: int, y: int| x == cx && cy - 1 <= y <= cy + 1
}

/// On a board given by `alive`, a coordinate counts as a live neighbour
/// exactly where it lies on the board and `alive` holds there.
pub proof fn lemma_live_at_board(gol: Gol, alive: spec_fn(int, int) -> bool, x: int, y: int)
    requires
        gol.wf(),
    ensures
        live_at(spec_board(gol, alive), x, y, gol) == alive_at(gol, alive, x, y),
{
    if in_bounds(x, y, gol) {
        lemma_coords_of_index(x, y, gol);
        lemma_index_in_range(x, y, gol);
    }
}

/// The step of the game in coordinates: the generation that follows the
/// board given by `alive` is the board given by the rule applied to `alive`.
pub proof fn lemma_next_generation_of_board(gol: Gol, alive: spec_fn(int, int) -> bool)
    requires
        gol.wf(),
    ensures
        spec_next_generation(spec_board(gol, alive), gol) == spec_board(
            gol,
            spec_next_alive(gol, alive),
        ),
{
    let cells = spec_board(gol, alive);
    let next = spec_board(gol, spec_next_alive(gol, alive));
    assert forall|i: int| 0 <= i < gol.ncells implies spec_next_generation(cells, gol)[i]
        == next[i] by {
        let (x, y) = spec_coords(i, gol);
        lemma_live_at_board(gol, alive, x - 1, y - 1);
        lemma_live_at_board(gol, alive, x, y - 1);
        lemma_live_at_board(gol, alive, x + 1, y - 1);
        lemma_live_at_board(gol, alive, x - 1, y);
        lemma_live_at_board(gol, alive, x + 1, y);
        lemma_live_at_board(gol, alive, x - 1, y + 1);
        lemma_live_at_board(gol, alive, x, y + 1);
        lemma_live_at_board(gol, alive, x + 1, y + 1);
    }
}

/// Two rules that agree on the board give the same board.
pub proof fn lemma_board_by_agreement(
    gol: Gol,
    a: spec_fn(int, int) -> bool,
    b: spec_fn(int, int) -> bool,
)
    requires
        gol.wf(),
        forall|x: int, y: int| in_bounds(x, y, gol) ==> a(x, y) == b(x, y),
    ensures
        spec_board(gol, a) == spec_board(gol, b),
{
    assert forall|i: int| 0 <= i < gol.ncells implies spec_board(gol, a)[i] == spec_board(
        gol,
        b,
    )[i] by {
        lemma_index_of_coords(i, gol);
    }
}

/// A block of four live cells on an otherwise dead board is a still life:
/// it is the same after any number of steps.
pub proof fn lemma_block_is_still_life(gol: Gol, bx: int, by: int, n: nat)
    requires
        gol.wf(),
        in_bounds(bx, by, gol),
        in_bounds(bx + 1, by + 1, gol),
    ensures
        spec_generation(spec_board(gol, block(bx, by)), n, gol) == spec_board(gol, block(bx, by)),
{
    let alive = block(bx, by);
    lemma_next_generation_of_board(gol, alive);
    lemma_board_by_agreement(gol, spec_next_alive(gol, alive), alive);
    lemma_still_life(spec_board(gol, alive), n, gol);
}

/// A row of three live cells with room above and below, on an otherwise
/// dead board, is a blinker: one step turns it into the column of three
/// around the same cell, the next step turns it back.
pub proof fn lemma_blinker_oscillates(gol: Gol, cx: int, cy: int)
    requires
        gol.wf(),
        in_bounds(cx - 1, cy - 1, gol),
        in_bounds(cx + 1, cy + 1, gol),
    ensures
        spec_next_generation(spec_board(gol, row_of_three(cx, cy)), gol) == spec_board(
            gol,
            column_of_three(cx, cy),
        ),
        spec_next_generation(spec_board(gol, column_of_three(cx, cy)), gol) == spec_board(
            gol,
            row_of_three(cx, cy),
        ),
        spec_generation(spec_board(gol, row_of_three(cx, cy)), 2, gol) == spec_board(
            gol,
            row_of_three(cx, cy),
        ),
{
    let row = row_of_three(cx, cy);
    let column = column_of_three(cx, cy);
    lemma_next_generation_of_board(gol, row);
    lemma_board_by_agreement(gol, spec_next_alive(gol, row), column);
    lemma_next_generation_of_board(gol, column);
    lemma_board_by_agreement(gol, spec_next_alive(gol, column), row);
    reveal_with_fuel(spec_generation, 3);
}

} // verus!
