//! The settings record that fixes the shape of the board and the pace of the
//! simulation.

use vstd::prelude::*;
use vstd::string::StringSliceAdditionalSpecFns;
use crate::parse::{parse_isize, parse_u64, parse_usize, spec_parse_signed, spec_parse_unsigned};

verus! {

/// Largest column of the board where no other is asked for.
pub const DEFAULT_MAX_X: usize = 199;

/// Largest row of the board where no other is asked for.
pub const DEFAULT_MAX_Y: usize = 199;

/// Width and height of a cell in pixels where no other is asked for.
pub const DEFAULT_CELL_SIZE: isize = 5;

/// Generations per second where no other rate is asked for.
pub const DEFAULT_FRAMERATE: u64 = 30;

/// Milliseconds in a second.
pub const MILLIS_PER_SECOND: u64 = 1000;

/// Settings of one run. `max_x` and `max_y` are the largest column and row
/// (the board has `max_x + 1` columns), `cell_width` and `cell_height` the
/// size of a cell in pixels, `ncells` the number of cells, `frametime` the
/// time of one generation in milliseconds (zero: as fast as possible), and
/// `verbose` asks for the achieved frame rate to be reported.
#[derive(Debug, Copy, Clone, PartialEq, Eq, Structural)]
pub struct Gol {
    pub max_x: usize,
    pub max_y: usize,
    pub cell_width: isize,
    pub cell_height: isize,
    pub ncells: usize,
    pub frametime: u64,
    pub verbose: bool,
}

/// Whether a board with these largest coordinates and cells of this size can
/// exist: its number of cells is at most `isize::MAX`, and a cell has a
/// positive width and height.
pub open spec fn valid_dimensions(max_x: int, max_y: int, cell_width: int, cell_height: int) -> bool {
    &&& 0 <= max_x
    &&& 0 <= max_y
    &&& (max_x + 1) * (max_y + 1) <= isize::MAX
    &&& cell_width >= 1
    &&& cell_height >= 1
}

impl Gol {
    /// Number of columns of the board.
    pub open spec fn columns(&self) -> int {
        self.max_x + 1
    }

    /// Number of rows of the board.
    pub open spec fn rows(&self) -> int {
        self.max_y + 1
    }

    /// The invariant of a settings record: the dimensions are valid and
    /// `ncells` is the product of the columns and the rows.
    pub open spec fn wf(&self) -> bool {
        &&& valid_dimensions(
            self.max_x as int,
            self.max_y as int,
            self.cell_width as int,
            self.cell_height as int,
        )
        &&& self.ncells == self.columns() * self.rows()
    }

    /// A well-formed record has at least one cell, and neither its columns
    /// nor its rows outnumber its cells.
    pub proof fn lemma_bounds(&self)
        requires
            self.wf(),
        ensures
            1 <= self.columns() <= self.ncells,
            1 <= self.rows() <= self.ncells,
            self.ncells <= isize::MAX,
    {
        let c = self.columns();
        let r = self.rows();
        assert(c <= c * r && r <= c * r) by (nonlinear_arith)
            requires
                1 <= c,
                1 <= r,
        ;
    }

    /// Builds a record from its parts. The result is `Some` exactly when the
    /// dimensions are valid, and then holds the parts as given.
    pub fn new(
        max_x: usize,
        max_y: usize,
        cell_width: isize,
        cell_height: isize,
        frametime: u64,
        verbose: bool,
    ) -> (r: Option<Gol>)
        ensures
            r.is_some() == valid_dimensions(
                max_x as int,
                max_y as int,
                cell_width as int,
                cell_height as int,
            ),
            r matches Some(g) ==> g.wf() && g.max_x == max_x && g.max_y == max_y && g.cell_width
                == cell_width && g.cell_height == cell_height && g.frametime == frametime
                && g.verbose == verbose,
    {
        if cell_width < 1 || cell_height < 1 {
            return None;
        }
        match cell_count(max_x, max_y) {
            Some(ncells) => Some(
                Gol { max_x, max_y, cell_width, cell_height, ncells, frametime, verbose },
            ),
            None => None,
        }
    }

    /// The record with `columns` columns, where the board can have that
    /// many; else the record as it is.
    pub open spec fn spec_with_columns(self, columns: int) -> Gol {
        if columns >= 1 && columns * self.rows() <= isize::MAX {
            Gol { max_x: (columns - 1) as usize, ncells: (columns * self.rows()) as usize, ..self }
        } else {
            self
        }
    }

    /// The record with `rows` rows, where the board can have that many; else
    /// the record as it is.
    pub open spec fn spec_with_rows(self, rows: int) -> Gol {
        if rows >= 1 && self.columns() * rows <= isize::MAX {
            Gol { max_y: (rows - 1) as usize, ncells: (self.columns() * rows) as usize, ..self }
        } else {
            self
        }
    }

    /// The record paced at `framerate` generations per second.
    pub open spec fn spec_with_framerate(self, framerate: int) -> Gol {
        Gol { frametime: spec_frametime(framerate) as u64, ..self }
    }

    /// The record with cells `width` pixels wide, where that is at least
    /// one; else the record as it is.
    pub open spec fn spec_with_cell_width(self, width: int) -> Gol {
        if width >= 1 {
            Gol { cell_width: width as isize, ..self }
        } else {
            self
        }
    }

    /// The record with cells `height` pixels high, where that is at least
    /// one; else the record as it is.
    pub open spec fn spec_with_cell_height(self, height: int) -> Gol {
        if height >= 1 {
            Gol { cell_height: height as isize, ..self }
        } else {
            self
        }
    }

    /// Sets the number of columns. A number that is zero, or that would give
    /// the board more than `isize::MAX` cells, is passed over.
    pub fn with_columns(self, columns: usize) -> (r: Gol)
        requires
            self.wf(),
        ensures
            r == self.spec_with_columns(columns as int),
            r.wf(),
    {
        if columns == 0 {
            return self;
        }
        match cell_count(columns - 1, self.max_y) {
            Some(ncells) => Gol { max_x: columns - 1, ncells, ..self },
            None => self,
        }
    }

    /// Sets the number of rows. A number that is zero, or that would give the
    /// board more than `isize::MAX` cells, is passed over.
    pub fn with_rows(self, rows: usize) -> (r: Gol)
        requires
            self.wf(),
        ensures
            r == self.spec_with_rows(rows as int),
            r.wf(),
    {
        if rows == 0 {
            return self;
        }
        match cell_count(self.max_x, rows - 1) {
            Some(ncells) => Gol { max_y: rows - 1, ncells, ..self },
            None => self,
        }
    }

    /// Sets the pace to `framerate` generations per second; a rate of zero
    /// switches pacing off.
    pub fn with_framerate(self, framerate: u64) -> (r: Gol)
        requires
            self.wf(),
        ensures
            r == self.spec_with_framerate(framerate as int),
            r.wf(),
    {
        let frametime: u64 = if framerate == 0 {
            0
        } else {
            MILLIS_PER_SECOND / framerate
        };
        Gol { frametime, ..self }
    }

    /// Sets the width of a cell in pixels. A width below one is passed over.
    pub fn with_cell_width(self, width: isize) -> (r: Gol)
        requires
            self.wf(),
        ensures
            r == self.spec_with_cell_width(width as int),
            r.wf(),
    {
        if width >= 1 {
            Gol { cell_width: width, ..self }
        } else {
            self
        }
    }

    /// Sets the height of a cell in pixels. A height below one is passed
    /// over.
    pub fn with_cell_height(self, height: isize) -> (r: Gol)
        requires
            self.wf(),
        ensures
            r == self.spec_with_cell_height(height as int),
            r.wf(),
    {
        if height >= 1 {
            Gol { cell_height: height, ..self }
        } else {
            self
        }
    }

    /// Sets whether the achieved frame rate is reported.
    pub fn with_verbose(self, verbose: bool) -> (r: Gol)
        requires
            self.wf(),
        ensures
            r == (Gol { verbose, ..self }),
            r.wf(),
    {
        Gol { verbose, ..self }
    }

    /// Whether the record satisfies its invariant.
    pub fn is_wf(&self) -> (r: bool)
        ensures
            r == self.wf(),
    {
        self.cell_width >= 1 && self.cell_height >= 1 && cell_count(self.max_x, self.max_y)
            == Some(self.ncells)
    }
}

/// The time of one generation in milliseconds at `framerate` generations per
/// second, rounded down; zero, which stands for no pacing, at a rate of zero.
pub open spec fn spec_frametime(framerate: int) -> int {
    if framerate == 0 {
        0
    } else {
        MILLIS_PER_SECOND as int / framerate
    }
}

/// The settings where nothing is asked for: 200 columns and rows of cells of
/// 5 by 5 pixels, 30 generations per second, no report of the frame rate.
pub open spec fn spec_default() -> Gol {
    Gol {
        max_x: DEFAULT_MAX_X,
        max_y: DEFAULT_MAX_Y,
        cell_width: DEFAULT_CELL_SIZE,
        cell_height: DEFAULT_CELL_SIZE,
        ncells: 40000,
        frametime: 33,
        verbose: false,
    }
}

/// The bytes of an option's value, where the option was given.
pub open spec fn arg_bytes(arg: Option<&str>) -> Option<Seq<u8>> {
    match arg {
        Some(s) => Some(s.spec_bytes()),
        None => None,
    }
}

/// The number that an option's value denotes, where the option was given and
/// its value is an unsigned numeral of a number up to `max`.
pub open spec fn arg_unsigned(arg: Option<Seq<u8>>, max: int) -> Option<int> {
    match arg {
        Some(s) => spec_parse_unsigned(s, max),
        None => None,
    }
}

/// The number that an option's value denotes, where the option was given and
/// its value is a signed numeral of a number that an `isize` can hold.
pub open spec fn arg_signed(arg: Option<Seq<u8>>) -> Option<int> {
    match arg {
        Some(s) => spec_parse_signed(s, isize::MIN as int, isize::MAX as int),
        None => None,
    }
}

/// The settings that the options of a command line ask for. Each option is
/// taken in turn: columns, rows, frame rate, cell width, cell height. An
/// option that was not given, whose value is no numeral of its type, or
/// whose number the settings cannot take, leaves the settings as they were.
pub open spec fn spec_from_args(
    max_x: Option<Seq<u8>>,
    max_y: Option<Seq<u8>>,
    cell_width: Option<Seq<u8>>,
    cell_height: Option<Seq<u8>>,
    framerate: Option<Seq<u8>>,
    verbose: bool,
) -> Gol {
    let g0 = spec_default();
    let g1 = match arg_unsigned(max_x, usize::MAX as int) {
        Some(n) => g0.spec_with_columns(n),
        None => g0,
    };
    let g2 = match arg_unsigned(max_y, usize::MAX as int) {
        Some(n) => g1.spec_with_rows(n),
        None => g1,
    };
    let g3 = match arg_unsigned(framerate, u64::MAX as int) {
        Some(n) => g2.spec_with_framerate(n),
        None => g2,
    };
    let g4 = match arg_signed(cell_width) {
        Some(n) => g3.spec_with_cell_width(n),
        None => g3,
    };
    let g5 = match arg_signed(cell_height) {
        Some(n) => g4.spec_with_cell_height(n),
        None => g4,
    };
    Gol { verbose, ..g5 }
}

/// The settings for the options of a command line, each given as the text of
/// its value where the option is present. An option that is absent, that
/// does not parse as a number of its type, or whose number the settings
/// cannot take, is passed over, and the setting keeps its value.
pub fn from_args(
    max_x: Option<&str>,
    max_y: Option<&str>,
    cell_width: Option<&str>,
    cell_height: Option<&str>,
    framerate: Option<&str>,
    verbose: bool,
) -> (gol: Gol)
    ensures
        gol == spec_from_args(
            arg_bytes(max_x),
            arg_bytes(max_y),
            arg_bytes(cell_width),
            arg_bytes(cell_height),
            arg_bytes(framerate),
            verbose,
        ),
        gol.wf(),
{
    let mut gol: Gol = Gol::default();
    if let Some(text) = max_x {
        if let Some(x) = parse_usize(text) {
            gol = gol.with_columns(x);
        }
    }
    if let Some(text) = max_y {
        if let Some(x) = parse_usize(text) {
            gol = gol.with_rows(x);
        }
    }
    if let Some(text) = framerate {
        if let Some(x) = parse_u64(text) {
            gol = gol.with_framerate(x);
        }
    }
    if let Some(text) = cell_width {
        if let Some(x) = parse_isize(text) {
            gol = gol.with_cell_width(x);
        }
    }
    if let Some(text) = cell_height {
        if let Some(x) = parse_isize(text) {
            gol = gol.with_cell_height(x);
        }
    }
    gol.with_verbose(verbose)
}

/// The number of cells of a board with the given largest column and row, if
/// that number is at most `isize::MAX`.
pub fn cell_count(max_x: usize, max_y: usize) -> (r: Option<usize>)
    ensures
        r.is_some() == ((max_x + 1) * (max_y + 1) <= isize::MAX),
        r matches Some(n) ==> n == (max_x + 1) * (max_y + 1),
{
    let limit: usize = isize::MAX as usize;
    if max_x >= limit || max_y >= limit {
        proof {
            let c = max_x + 1;
            let r = max_y + 1;
            assert(c * r > isize::MAX) by (nonlinear_arith)
                requires
                    1 <= c,
                    1 <= r,
                    c > isize::MAX || r > isize::MAX,
            ;
        }
        return None;
    }
    let columns: usize = max_x + 1;
    let rows: usize = max_y + 1;
    match columns.checked_mul(rows) {
        Some(n) => if n <= limit {
            Some(n)
        } else {
            None
        },
        None => None,
    }
}

impl Default for Gol {
    /// The settings where nothing is asked for.
    fn default() -> (gol: Gol)
        ensures
            gol == spec_default(),
            gol.wf(),
    {
        Gol {
            max_x: DEFAULT_MAX_X,
            max_y: DEFAULT_MAX_Y,
            cell_width: DEFAULT_CELL_SIZE,
            cell_height: DEFAULT_CELL_SIZE,
            ncells: (DEFAULT_MAX_X + 1) * (DEFAULT_MAX_Y + 1),
            frametime: MILLIS_PER_SECOND / DEFAULT_FRAMERATE,
            verbose: false,
        }
    }
}

} // verus!
