//! What the user does to the board: pausing, filling, clearing, and toggling
//! the cell under the pointer.

use vstd::prelude::*;
use crate::config::Gol;
use crate::engine::{advance, spec_next_generation};
use crate::grid::{get_index, in_bounds, lemma_index_in_range, spec_cell, spec_index};
use crate::parallel::par_update;

verus! {

/// One event of the input source.
#[derive(Debug, Copy, Clone, PartialEq, Eq, Structural)]
pub enum Event {
    /// The window was closed.
    Quit,
    /// The escape key went down.
    Escape,
    /// The key that pauses and resumes went down.
    TogglePause,
    /// The key that fills the board went down.
    FillAll,
    /// The key that clears the board went down.
    ClearAll,
    /// A pointer button went down at the given pixel of the window.
    PointerClick { x: i32, y: i32 },
    /// Anything else; it is ignored.
    Other,
}

/// The state of a simulation: the board, and whether stepping is paused.
#[derive(Debug)]
pub struct World {
    pub cells: Vec<bool>,
    pub paused: bool,
}

/// The mathematical model of a [`World`].
pub struct WorldView {
    pub cells: Seq<bool>,
    pub paused: bool,
}

impl View for World {
    type V = WorldView;

    open spec fn view(&self) -> WorldView {
        WorldView { cells: self.cells@, paused: self.paused }
    }
}

/// The quotient of `p` by `size`, rounded toward zero.
pub open spec fn spec_pixel_to_cell(p: int, size: int) -> int {
    if p >= 0 {
        p / size
    } else {
        -((-p) / size)
    }
}

/// The board after the state of the cell under the pixel `(x, y)` was
/// flipped: the same board where the pixel lies over no cell.
pub open spec fn spec_toggle_field(x: int, y: int, cells: Seq<bool>, gol: Gol) -> Seq<bool> {
    match spec_index(
        spec_pixel_to_cell(x, gol.cell_width as int),
        spec_pixel_to_cell(y, gol.cell_height as int),
        gol,
    ) {
        Some(i) => cells.update(i, !cells[i]),
        None => cells,
    }
}

/// A board of `n` cells that are all in the state `alive`.
pub open spec fn spec_uniform(n: nat, alive: bool) -> Seq<bool> {
    Seq::new(n, |i: int| alive)
}

/// Whether the event ends the run.
pub open spec fn is_quit(event: Event) -> bool {
    event is Quit || event is Escape
}

/// The state that follows `w` when `event` arrives. A click counts only
/// while the simulation is paused.
pub open spec fn spec_handle_event(w: WorldView, event: Event, gol: Gol) -> WorldView {
    match event {
        Event::TogglePause => WorldView { cells: w.cells, paused: !w.paused },
        Event::FillAll => WorldView { cells: spec_uniform(w.cells.len(), true), paused: w.paused },
        Event::ClearAll => WorldView {
            cells: spec_uniform(w.cells.len(), false),
            paused: w.paused,
        },
        Event::PointerClick { x, y } => if w.paused {
            WorldView { cells: spec_toggle_field(x as int, y as int, w.cells, gol), paused: true }
        } else {
            w
        },
        _ => w,
    }
}

/// The state reached from `w` by the events from place `from` on, taken in
/// order up to the first that ends the run, and whether one did.
pub open spec fn spec_handle_events(w: WorldView, events: Seq<Event>, from: int, gol: Gol) -> (
    WorldView,
    bool,
)
    decreases events.len() - from,
{
    if from < 0 || from >= events.len() {
        (w, false)
    } else if is_quit(events[from]) {
        (w, true)
    } else {
        spec_handle_events(spec_handle_event(w, events[from], gol), events, from + 1, gol)
    }
}

/// The state after one frame: the next generation, unless paused.
pub open spec fn spec_tick(w: WorldView, gol: Gol) -> WorldView {
    if w.paused {
        w
    } else {
        WorldView { cells: spec_next_generation(w.cells, gol), paused: false }
    }
}

/// The state after `n` frames without input.
pub open spec fn spec_ticks(w: WorldView, n: nat, gol: Gol) -> WorldView
    decreases n,
{
    if n == 0 {
        w
    } else {
        spec_tick(spec_ticks(w, (n - 1) as nat, gol), gol)
    }
}

/// A query of any cell of a board that was put into one state finds that
/// state.
pub proof fn lemma_uniform_cells(i: int, alive: bool, gol: Gol)
    requires
        0 <= i < gol.ncells,
    ensures
        spec_cell(spec_uniform(gol.ncells as nat, alive), i, gol) == Some(alive),
{
}

/// After the event that fills the board a query of any cell finds it alive,
/// and after the event that clears the board a query of any cell finds it
/// dead, whatever the board held before and whether or not it is paused.
pub proof fn lemma_fill_and_clear(w: WorldView, i: int, gol: Gol)
    requires
        w.cells.len() == gol.ncells,
        0 <= i < gol.ncells,
    ensures
        spec_cell(spec_handle_event(w, Event::FillAll, gol).cells, i, gol) == Some(true),
        spec_cell(spec_handle_event(w, Event::ClearAll, gol).cells, i, gol) == Some(false),
{
}

/// Toggling the cell under the same pixel twice gives the board back.
pub proof fn lemma_toggle_twice(x: int, y: int, cells: Seq<bool>, gol: Gol)
    requires
        gol.wf(),
        cells.len() == gol.ncells,
    ensures
        spec_toggle_field(x, y, spec_toggle_field(x, y, cells, gol), gol) == cells,
{
    let cx = spec_pixel_to_cell(x, gol.cell_width as int);
    let cy = spec_pixel_to_cell(y, gol.cell_height as int);
    if in_bounds(cx, cy, gol) {
        lemma_index_in_range(cx, cy, gol);
    }
}

/// While paused, two clicks on the same pixel give the state back.
pub proof fn lemma_click_twice(w: WorldView, x: i32, y: i32, gol: Gol)
    requires
        gol.wf(),
        w.cells.len() == gol.ncells,
        w.paused,
    ensures
        spec_handle_event(
            spec_handle_event(w, Event::PointerClick { x, y }, gol),
            Event::PointerClick { x, y },
            gol,
        ) == w,
{
    lemma_toggle_twice(x as int, y as int, w.cells, gol);
}

/// While paused, the state stays the same over any number of frames.
pub proof fn lemma_paused_frames(w: WorldView, n: nat, gol: Gol)
    requires
        w.paused,
    ensures
        spec_ticks(w, n, gol) == w,
    decreases n,
{
    if n > 0 {
        lemma_paused_frames(w, (n - 1) as nat, gol);
    }
}

/// The column (or row) of the cell that holds the pixel column (or row) `p`,
/// where a cell is `size` pixels wide (or high): the quotient rounded toward
/// zero.
pub fn pixel_to_cell(p: isize, size: isize) -> (c: isize)
    requires
        size >= 1,
    ensures
        c == spec_pixel_to_cell(p as int, size as int),
{
    p / size
}

/// Flips the state of the cell under the pixel `(x, y)`. A pixel that lies
/// over no cell of the board changes nothing.
pub fn toggle_field(x: isize, y: isize, cells: &mut Vec<bool>, gol: Gol)
    requires
        gol.wf(),
        old(cells)@.len() == gol.ncells,
    ensures
        final(cells)@ == spec_toggle_field(x as int, y as int, old(cells)@, gol),
        final(cells)@.len() == old(cells)@.len(),
{
    let cell_x: isize = pixel_to_cell(x, gol.cell_width);
    let cell_y: isize = pixel_to_cell(y, gol.cell_height);
    if let Some(i) = get_index(cell_x, cell_y, gol) {
        let alive: bool = cells[i];
        cells.set(i, !alive);
    }
}

/// Puts every cell of the board into the state `alive`, side by side.
pub fn set_all(cells: &mut Vec<bool>, alive: bool)
    ensures
        final(cells)@ == spec_uniform(old(cells)@.len(), alive),
{
    let constant = |i: usize| -> (r: bool)
        ensures
            r == alive,
        { alive };
    par_update(cells, constant);
}

impl World {
    /// A running simulation on the given board.
    pub fn new(cells: Vec<bool>) -> (world: World)
        ensures
            world@ == (WorldView { cells: cells@, paused: false }),
    {
        World { cells, paused: false }
    }

    /// Applies one event to the state, and says whether it ends the run.
    pub fn handle_event(&mut self, event: Event, gol: Gol) -> (quit: bool)
        requires
            gol.wf(),
            old(self)@.cells.len() == gol.ncells,
        ensures
            quit == is_quit(event),
            final(self)@ == spec_handle_event(old(self)@, event, gol),
            final(self)@.cells.len() == gol.ncells,
    {
        match event {
            Event::Quit | Event::Escape => true,
            Event::TogglePause => {
                self.paused = !self.paused;
                false
            },
            Event::FillAll => {
                set_all(&mut self.cells, true);
                false
            },
            Event::ClearAll => {
                set_all(&mut self.cells, false);
                false
            },
            Event::PointerClick { x, y } => {
                if self.paused {
                    toggle_field(x as isize, y as isize, &mut self.cells, gol);
                }
                false
            },
            Event::Other => false,
        }
    }

    /// Applies the events in order, up to the first that ends the run, and
    /// says whether one did.
    pub fn handle_events(&mut self, events: &[Event], gol: Gol) -> (quit: bool)
        requires
            gol.wf(),
            old(self)@.cells.len() == gol.ncells,
        ensures
            (final(self)@, quit) == spec_handle_events(old(self)@, events@, 0, gol),
            final(self)@.cells.len() == gol.ncells,
    {
        let mut i: usize = 0;
        while i < events.len()
            invariant
                gol.wf(),
                i <= events@.len(),
                self@.cells.len() == gol.ncells,
                spec_handle_events(old(self)@, events@, 0, gol) == spec_handle_events(
                    self@,
                    events@,
                    i as int,
                    gol,
                ),
            decreases events@.len() - i,
        {
            if self.handle_event(events[i], gol) {
                return true;
            }
            i += 1;
        }
        false
    }

    /// One frame of the simulation: the board steps to the next generation
    /// unless the simulation is paused.
    pub fn tick(&mut self, gol: Gol)
        requires
            gol.wf(),
            old(self)@.cells.len() == gol.ncells,
        ensures
            final(self)@ == spec_tick(old(self)@, gol),
            final(self)@.cells.len() == gol.ncells,
    {
        if !self.paused {
            advance(&mut self.cells, gol);
        }
    }
}

} // verus!
