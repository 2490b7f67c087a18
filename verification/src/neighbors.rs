//! Counting the live neighbours of a cell. The board does not wrap: a
//! neighbour that would lie off the board is absent and counts for nothing.

use vstd::prelude::*;
use crate::config::Gol;
use crate::grid::{get_cell, get_coords, get_index, in_bounds, spec_coords, spec_index};

verus! {

/// 1 where column `x`, row `y` lies on the board and its cell is alive, else 0.
pub open spec fn live_at(cells: Seq<bool>, x: int, y: int, gol: Gol) -> int {
    match spec_index(x, y, gol) {
        Some(j) => if cells[j] {
            1
        } else {
            0
        },
        None => 0,
    }
}

/// The number of live cells among the up to eight cells around column `x`,
/// row `y`.
pub open spec fn live_around(cells: Seq<bool>, x: int, y: int, gol: Gol) -> int {
    live_at(cells, x - 1, y - 1, gol) + live_at(cells, x, y - 1, gol) + live_at(
        cells,
        x + 1,
        y - 1,
        gol,
    ) + live_at(cells, x - 1, y, gol) + live_at(cells, x + 1, y, gol) + live_at(
        cells,
        x - 1,
        y + 1,
        gol,
    ) + live_at(cells, x, y + 1, gol) + live_at(cells, x + 1, y + 1, gol)
}

/// The number of live neighbours of the cell at place `i`.
pub open spec fn spec_count_neighbors(cells: Seq<bool>, i: int, gol: Gol) -> int {
    live_around(cells, spec_coords(i, gol).0, spec_coords(i, gol).1, gol)
}

/// Whether the cell at place `i` lies in the first or last column and in the
/// first or last row.
pub open spec fn is_corner(i: int, gol: Gol) -> bool {
    let (x, y) = spec_coords(i, gol);
    (x == 0 || x == gol.max_x) && (y == 0 || y == gol.max_y)
}

/// Whether the cell at place `i` lies in the first or last column or in the
/// first or last row (a corner does).
pub open spec fn is_edge(i: int, gol: Gol) -> bool {
    let (x, y) = spec_coords(i, gol);
    x == 0 || x == gol.max_x || y == 0 || y == gol.max_y
}

/// What the offset `(dx, dy)` adds to the count: nothing for the cell itself.
spec fn offset_term(cells: Seq<bool>, x: int, y: int, gol: Gol, dx: int, dy: int) -> int {
    if dx == 0 && dy == 0 {
        0
    } else {
        live_at(cells, x + dx, y + dy, gol)
    }
}

/// The part of the count that the offsets `(-1, dy)` up to, not including,
/// `(dx, dy)` add.
spec fn row_part(cells: Seq<bool>, x: int, y: int, gol: Gol, dy: int, dx: int) -> int {
    (if dx > -1 {
        offset_term(cells, x, y, gol, -1, dy)
    } else {
        0
    }) + (if dx > 0 {
        offset_term(cells, x, y, gol, 0, dy)
    } else {
        0
    }) + (if dx > 1 {
        offset_term(cells, x, y, gol, 1, dy)
    } else {
        0
    })
}

/// The part of the count that the rows of offsets above `dy` add.
spec fn rows_part(cells: Seq<bool>, x: int, y: int, gol: Gol, dy: int) -> int {
    (if dy > -1 {
        row_part(cells, x, y, gol, -1, 2)
    } else {
        0
    }) + (if dy > 0 {
        row_part(cells, x, y, gol, 0, 2)
    } else {
        0
    }) + (if dy > 1 {
        row_part(cells, x, y, gol, 1, 2)
    } else {
        0
    })
}

/// A cell has at most eight live neighbours.
pub proof fn lemma_count_range(cells: Seq<bool>, i: int, gol: Gol)
    ensures
        0 <= spec_count_neighbors(cells, i, gol) <= 8,
{
}

/// A corner cell has at most three live neighbours.
pub proof fn lemma_corner_count(cells: Seq<bool>, i: int, gol: Gol)
    requires
        is_corner(i, gol),
    ensures
        spec_count_neighbors(cells, i, gol) <= 3,
{
}

/// A cell on the edge of the board has at most five live neighbours.
pub proof fn lemma_edge_count(cells: Seq<bool>, i: int, gol: Gol)
    requires
        is_edge(i, gol),
    ensures
        spec_count_neighbors(cells, i, gol) <= 5,
{
}

/// On a board of at least two columns and two rows whose cells are all
/// alive, a corner cell has exactly three live neighbours.
pub proof fn lemma_corner_count_attained(cells: Seq<bool>, i: int, gol: Gol)
    requires
        gol.wf(),
        cells.len() == gol.ncells,
        forall|j: int| 0 <= j < cells.len() ==> cells[j],
        0 <= i < gol.ncells,
        is_corner(i, gol),
        gol.max_x >= 1,
        gol.max_y >= 1,
    ensures
        spec_count_neighbors(cells, i, gol) == 3,
{
    let (x, y) = spec_coords(i, gol);
    lemma_live_at_full(cells, x - 1, y - 1, gol);
    lemma_live_at_full(cells, x, y - 1, gol);
    lemma_live_at_full(cells, x + 1, y - 1, gol);
    lemma_live_at_full(cells, x - 1, y, gol);
    lemma_live_at_full(cells, x + 1, y, gol);
    lemma_live_at_full(cells, x - 1, y + 1, gol);
    lemma_live_at_full(cells, x, y + 1, gol);
    lemma_live_at_full(cells, x + 1, y + 1, gol);
}

/// On a board of at least two columns and two rows whose cells are all
/// alive, a cell on the edge that is no corner has exactly five live
/// neighbours.
pub proof fn lemma_edge_count_attained(cells: Seq<bool>, i: int, gol: Gol)
    requires
        gol.wf(),
        cells.len() == gol.ncells,
        forall|j: int| 0 <= j < cells.len() ==> cells[j],
        0 <= i < gol.ncells,
        is_edge(i, gol),
        !is_corner(i, gol),
        gol.max_x >= 1,
        gol.max_y >= 1,
    ensures
        spec_count_neighbors(cells, i, gol) == 5,
{
    let (x, y) = spec_coords(i, gol);
    crate::grid::lemma_index_of_coords(i, gol);
    lemma_live_at_full(cells, x - 1, y - 1, gol);
    lemma_live_at_full(cells, x, y - 1, gol);
    lemma_live_at_full(cells, x + 1, y - 1, gol);
    lemma_live_at_full(cells, x - 1, y, gol);
    lemma_live_at_full(cells, x + 1, y, gol);
    lemma_live_at_full(cells, x - 1, y + 1, gol);
    lemma_live_at_full(cells, x, y + 1, gol);
    lemma_live_at_full(cells, x + 1, y + 1, gol);
}

/// On a board whose cells are all alive, a coordinate counts exactly when it
/// lies on the board.
proof fn lemma_live_at_full(cells: Seq<bool>, x: int, y: int, gol: Gol)
    requires
        gol.wf(),
        cells.len() == gol.ncells,
        forall|j: int| 0 <= j < cells.len() ==> cells[j],
    ensures
        live_at(cells, x, y, gol) == if in_bounds(x, y, gol) {
            1int
        } else {
            0int
        },
{
    if in_bounds(x, y, gol) {
        crate::grid::lemma_index_in_range(x, y, gol);
    }
}

/// The number of live cells among the up to eight neighbours of the cell at
/// place `i`.
pub fn count_neighbors(cells: &[bool], i: usize, gol: Gol) -> (counter: i32)
    requires
        gol.wf(),
        cells@.len() == gol.ncells,
        i < gol.ncells,
    ensures
        counter == spec_count_neighbors(cells@, i as int, gol),
        0 <= counter <= 8,
{
    let mut counter: i32 = 0;
    let (origx, origy) = get_coords(i, gol);
    proof {
        gol.lemma_bounds();
    }
    for ty in -1isize..2isize
        invariant
            gol.wf(),
            cells@.len() == gol.ncells,
            in_bounds(origx as int, origy as int, gol),
            gol.max_x < isize::MAX,
            gol.max_y < isize::MAX,
            counter == rows_part(cells@, origx as int, origy as int, gol, ty as int),
    {
        for tx in -1isize..2isize
            invariant
                gol.wf(),
                cells@.len() == gol.ncells,
                in_bounds(origx as int, origy as int, gol),
                gol.max_x < isize::MAX,
                gol.max_y < isize::MAX,
                -1 <= ty < 2,
                counter == rows_part(cells@, origx as int, origy as int, gol, ty as int)
                    + row_part(cells@, origx as int, origy as int, gol, ty as int, tx as int),
        {
            if tx != 0 || ty != 0 {
                if let Some(j) = get_index(origx + tx, origy + ty, gol) {
                    if let Some(x) = get_cell(cells, j, gol) {
                        if x {
                            counter += 1;
                        }
                    }
                }
            }
        }
    }
    counter
}

} // verus!
