//! Coordinates of the board: the mapping between a cell's column and row and
//! its place in the row-major sequence of cells.

use vstd::prelude::*;
use vstd::arithmetic::div_mod::{lemma_fundamental_div_mod, lemma_fundamental_div_mod_converse};
use crate::config::Gol;

verus! {

/// Whether column `x`, row `y` lies on the board.
pub open spec fn in_bounds(x: int, y: int, gol: Gol) -> bool {
    0 <= x <= gol.max_x && 0 <= y <= gol.max_y
}

/// The place of the cell at column `x`, row `y` in the row-major sequence of
/// cells, or `None` where the coordinate lies off the board.
pub open spec fn spec_index(x: int, y: int, gol: Gol) -> Option<int> {
    if in_bounds(x, y, gol) {
        Some(x + y * gol.columns())
    } else {
        None
    }
}

/// Column and row of the cell at place `i`.
pub open spec fn spec_coords(i: int, gol: Gol) -> (int, int) {
    (i % gol.columns(), i / gol.columns())
}

/// The state of the cell at place `i`, or `None` where the board has no such
/// place.
pub open spec fn spec_cell(cells: Seq<bool>, i: int, gol: Gol) -> Option<bool> {
    if 0 <= i < gol.ncells {
        Some(cells[i])
    } else {
        None
    }
}

/// A coordinate with a negative component, or with a component beyond the
/// largest column or row, has no place on the board.
pub proof fn lemma_index_absent(x: int, y: int, gol: Gol)
    requires
        x < 0 || y < 0 || x > gol.max_x || y > gol.max_y,
    ensures
        spec_index(x, y, gol) is None,
{
}

/// Every coordinate on the board has a place below the number of cells.
pub proof fn lemma_index_in_range(x: int, y: int, gol: Gol)
    requires
        gol.wf(),
        in_bounds(x, y, gol),
    ensures
        spec_index(x, y, gol) matches Some(i) && 0 <= i < gol.ncells,
{
    let w = gol.columns();
    let h = gol.rows();
    assert(0 <= y * w && x + y * w < w * h) by (nonlinear_arith)
        requires
            0 <= x < w,
            0 <= y < h,
    ;
}

/// The coordinates of the place of a coordinate on the board are that
/// coordinate again.
pub proof fn lemma_coords_of_index(x: int, y: int, gol: Gol)
    requires
        gol.wf(),
        in_bounds(x, y, gol),
    ensures
        spec_index(x, y, gol) matches Some(i) && spec_coords(i, gol) == (x, y),
{
    lemma_fundamental_div_mod_converse(x + y * gol.columns(), gol.columns(), y, x);
}

/// The coordinates of a place on the board lie on the board, and their place
/// is that place again.
pub proof fn lemma_index_of_coords(i: int, gol: Gol)
    requires
        gol.wf(),
        0 <= i < gol.ncells,
    ensures
        in_bounds(spec_coords(i, gol).0, spec_coords(i, gol).1, gol),
        spec_index(spec_coords(i, gol).0, spec_coords(i, gol).1, gol) == Some(i),
{
    let w = gol.columns();
    let h = gol.rows();
    lemma_fundamental_div_mod(i, w);
    assert(0 <= i / w < h) by (nonlinear_arith)
        requires
            0 <= i < w * h,
            0 < w,
    ;
}

/// The place of the cell at column `x`, row `y`, or `None` where the
/// coordinate lies off the board.
pub fn get_index(x: isize, y: isize, gol: Gol) -> (r: Option<usize>)
    requires
        gol.wf(),
    ensures
        spec_index(x as int, y as int, gol) == match r {
            Some(i) => Some(i as int),
            None => None,
        },
        r matches Some(i) ==> i < gol.ncells,
{
    proof {
        gol.lemma_bounds();
    }
    if x < 0 || y < 0 || x > gol.max_x as isize || y > gol.max_y as isize {
        None
    } else {
        proof {
            lemma_index_in_range(x as int, y as int, gol);
            assert(0 <= y * (gol.max_x + 1) < gol.ncells) by (nonlinear_arith)
                requires
                    0 <= y <= gol.max_y,
                    0 <= gol.max_x,
                    gol.ncells == (gol.max_x + 1) * (gol.max_y + 1),
            ;
        }
        Some((x + (y * (gol.max_x + 1) as isize)) as usize)
    }
}

/// Column and row of the cell at place `i` of the board.
pub fn get_coords(i: usize, gol: Gol) -> (r: (isize, isize))
    requires
        gol.wf(),
        i < gol.ncells,
    ensures
        (r.0 as int, r.1 as int) == spec_coords(i as int, gol),
        in_bounds(r.0 as int, r.1 as int, gol),
{
    proof {
        gol.lemma_bounds();
        lemma_index_of_coords(i as int, gol);
    }
    ((i % (gol.max_x + 1)) as isize, (i / (gol.max_x + 1)) as isize)
}

/// The state of the cell at place `i`, or `None` where the board has no such
/// place.
pub fn get_cell(cells: &[bool], i: usize, gol: Gol) -> (r: Option<bool>)
    requires
        gol.wf(),
        cells@.len() == gol.ncells,
    ensures
        r == spec_cell(cells@, i as int, gol),
{
    if i >= gol.ncells {
        return None;
    }
    let (x, y) = get_coords(i, gol);
    proof {
        lemma_index_of_coords(i as int, gol);
    }
    if let Some(j) = get_index(x, y, gol) {
        Some(cells[j])
    } else {
        None
    }
}

} // verus!
