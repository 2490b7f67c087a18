//! What the display is asked to draw: a window that holds the whole board,
//! and one filled rectangle for every live cell.

use vstd::prelude::*;
use crate::config::Gol;
use crate::grid::{get_coords, lemma_index_of_coords, spec_coords};

verus! {

/// An axis-aligned rectangle of pixels: its top left corner and its size.
#[derive(Debug, Copy, Clone, PartialEq, Eq, Structural)]
pub struct CellRect {
    pub x: i32,
    pub y: i32,
    pub width: u32,
    pub height: u32,
}

/// Width and height in pixels of a window that holds the whole board, where
/// both are at most `i32::MAX`.
pub open spec fn spec_window_size(gol: Gol) -> Option<(int, int)> {
    let width = gol.columns() * gol.cell_width;
    let height = gol.rows() * gol.cell_height;
    if width <= i32::MAX && height <= i32::MAX {
        Some((width, height))
    } else {
        None
    }
}

/// The rectangle that the cell at place `i` covers: as large as a cell, with
/// its corner at the cell's column and row times that size.
pub open spec fn spec_cell_rect(i: int, gol: Gol) -> CellRect {
    CellRect {
        x: (spec_coords(i, gol).0 * gol.cell_width) as i32,
        y: (spec_coords(i, gol).1 * gol.cell_height) as i32,
        width: gol.cell_width as u32,
        height: gol.cell_height as u32,
    }
}

/// The rectangles of the live cells among the first `n` cells, in the order
/// of their places.
pub open spec fn spec_live_rects(cells: Seq<bool>, n: int, gol: Gol) -> Seq<CellRect>
    decreases n,
{
    if n <= 0 {
        Seq::empty()
    } else if cells[n - 1] {
        spec_live_rects(cells, n - 1, gol).push(spec_cell_rect(n - 1, gol))
    } else {
        spec_live_rects(cells, n - 1, gol)
    }
}

/// Where the window fits, the rectangle of a cell lies inside it, and its
/// fields hold the products exactly.
pub proof fn lemma_cell_rect_exact(i: int, gol: Gol)
    requires
        gol.wf(),
        0 <= i < gol.ncells,
        spec_window_size(gol) is Some,
    ensures
        spec_cell_rect(i, gol).x == spec_coords(i, gol).0 * gol.cell_width,
        spec_cell_rect(i, gol).y == spec_coords(i, gol).1 * gol.cell_height,
        spec_cell_rect(i, gol).width == gol.cell_width,
        spec_cell_rect(i, gol).height == gol.cell_height,
        0 <= spec_cell_rect(i, gol).x,
        0 <= spec_cell_rect(i, gol).y,
        spec_cell_rect(i, gol).x + spec_cell_rect(i, gol).width <= spec_window_size(gol).unwrap().0,
        spec_cell_rect(i, gol).y + spec_cell_rect(i, gol).height <= spec_window_size(gol).unwrap().1,
{
    lemma_index_of_coords(i, gol);
    let (x, y) = spec_coords(i, gol);
    lemma_scaled(x, gol.columns(), gol.cell_width as int);
    lemma_scaled(y, gol.rows(), gol.cell_height as int);
}

/// The pixel span of a cell lies within the span of all cells.
proof fn lemma_scaled(c: int, n: int, size: int)
    by (nonlinear_arith)
    requires
        0 <= c < n,
        1 <= size,
    ensures
        0 <= c * size,
        size <= n * size,
        c * size + size <= n * size,
{
}

/// Whether `rect` is the rectangle of a live cell among the first `n` cells.
pub open spec fn is_live_rect(rect: CellRect, cells: Seq<bool>, n: int, gol: Gol) -> bool {
    exists|i: int| 0 <= i < n && cells[i] && rect == #[trigger] spec_cell_rect(i, gol)
}

/// Every rectangle to draw belongs to a live cell, and every live cell has
/// its rectangle drawn.
pub proof fn lemma_live_rects(cells: Seq<bool>, n: int, gol: Gol)
    requires
        0 <= n <= cells.len(),
    ensures
        forall|k: int|
            0 <= k < spec_live_rects(cells, n, gol).len() ==> is_live_rect(
                #[trigger] spec_live_rects(cells, n, gol)[k],
                cells,
                n,
                gol,
            ),
        forall|i: int|
            0 <= i < n && cells[i] ==> spec_live_rects(cells, n, gol).contains(
                #[trigger] spec_cell_rect(i, gol),
            ),
        spec_live_rects(cells, n, gol).len() <= n,
    decreases n,
{
    if n > 0 {
        lemma_live_rects(cells, n - 1, gol);
        let rest = spec_live_rects(cells, n - 1, gol);
        let all = spec_live_rects(cells, n, gol);
        assert forall|i: int| 0 <= i < n && cells[i] implies all.contains(
            #[trigger] spec_cell_rect(i, gol),
        ) by {
            if i < n - 1 {
                let k = choose|k: int| 0 <= k < rest.len() && rest[k] == spec_cell_rect(i, gol);
                assert(all[k] == spec_cell_rect(i, gol));
            } else {
                assert(all[rest.len() as int] == spec_cell_rect(i, gol));
            }
        }
    }
}

/// Width and height in pixels of the window that holds the board, or `None`
/// where one of them would exceed `i32::MAX`.
pub fn window_size(gol: Gol) -> (r: Option<(u32, u32)>)
    requires
        gol.wf(),
    ensures
        spec_window_size(gol) == match r {
            Some((width, height)) => Some((width as int, height as int)),
            None => None,
        },
{
    proof {
        gol.lemma_bounds();
    }
    let width: Option<u32> = scaled_extent(gol.max_x, gol.cell_width);
    let height: Option<u32> = scaled_extent(gol.max_y, gol.cell_height);
    match (width, height) {
        (Some(w), Some(h)) => Some((w, h)),
        _ => None,
    }
}

/// The pixels that `max + 1` cells of the given size span, or `None` where
/// that is more than `i32::MAX`.
fn scaled_extent(max: usize, size: isize) -> (r: Option<u32>)
    requires
        max < isize::MAX,
        size >= 1,
    ensures
        r.is_some() == ((max + 1) * size <= i32::MAX),
        r matches Some(e) ==> e == (max + 1) * size,
{
    let limit: u64 = 0x7fff_ffff;
    if max as u64 >= limit || size as u64 > limit {
        proof {
            let n = max + 1;
            assert(n * size > i32::MAX) by (nonlinear_arith)
                requires
                    n >= 1,
                    size >= 1,
                    n > i32::MAX || size > i32::MAX,
            ;
        }
        return None;
    }
    let n: u64 = max as u64 + 1;
    let s: u64 = size as u64;
    assert(n * s <= 0x7fff_ffff * 0x7fff_ffff) by (nonlinear_arith)
        requires
            n <= 0x7fff_ffff,
            s <= 0x7fff_ffff,
    ;
    let extent: u64 = n * s;
    if extent <= limit {
        Some(extent as u32)
    } else {
        None
    }
}

/// The rectangle to fill for the cell at place `i`.
pub fn cell_rect(i: usize, gol: Gol) -> (r: CellRect)
    requires
        gol.wf(),
        i < gol.ncells,
        spec_window_size(gol) is Some,
    ensures
        r == spec_cell_rect(i as int, gol),
{
    let (x, y) = get_coords(i, gol);
    proof {
        lemma_cell_rect_exact(i as int, gol);
    }
    CellRect {
        x: (x * gol.cell_width) as i32,
        y: (y * gol.cell_height) as i32,
        width: gol.cell_width as u32,
        height: gol.cell_height as u32,
    }
}

/// The rectangles to fill for the board: one for every live cell, in the
/// order of their places.
pub fn live_rects(cells: &[bool], gol: Gol) -> (rects: Vec<CellRect>)
    requires
        gol.wf(),
        cells@.len() == gol.ncells,
        spec_window_size(gol) is Some,
    ensures
        rects@ == spec_live_rects(cells@, cells@.len() as int, gol),
{
    let mut rects: Vec<CellRect> = Vec::new();
    let mut i: usize = 0;
    while i < cells.len()
        invariant
            gol.wf(),
            cells@.len() == gol.ncells,
            spec_window_size(gol) is Some,
            i <= cells@.len(),
            rects@ == spec_live_rects(cells@, i as int, gol),
        decreases cells@.len() - i,
    {
        if cells[i] {
            rects.push(cell_rect(i, gol));
        }
        i += 1;
    }
    rects
}

} // verus!
