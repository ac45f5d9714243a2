//! A snapshot of a terminal session's character grid.
//!
//! Lines are numbered as the session numbers them: line `0` is the top of
//! the live screen, negative lines lie in the scrollback above it, and the
//! bottommost line is `screen_lines - 1`. The snapshot stores the
//! scrollback first, so line `l` is row `l + history` of `rows`.
use vstd::prelude::*;

verus! {

/// Largest number of columns, or of screen lines, a grid may have: the
/// largest window size a terminal can report.
pub const MAX_GRID_DIM: usize = 65535;

/// Largest number of rows, scrollback included, a grid may hold.
pub const MAX_GRID_ROWS: usize = 0x7fff_ffff;

/// A position in the grid. `line` may be negative (scrollback); `column`
/// may lie past the last column, meaning "to the end of the line".
#[derive(Clone, Copy, Debug, PartialEq, Eq, Structural)]
pub struct GridPoint {
    pub line: i64,
    pub column: usize,
}

/// A concrete paint color, already resolved from the theme or palette.
#[derive(Clone, Copy, Debug, PartialEq, Eq, Structural)]
pub struct Rgba {
    pub r: u8,
    pub g: u8,
    pub b: u8,
    pub a: u8,
}

/// Style flags of a cell.
#[derive(Clone, Copy, Debug, PartialEq, Eq, Structural)]
pub struct CellFlags {
    pub bold: bool,
    pub dim: bool,
    pub dim_bold: bool,
    pub inverse: bool,
}

/// One cell: its codepoint, its resolved colors and its style flags.
#[derive(Clone, Copy, Debug, PartialEq, Eq, Structural)]
pub struct Cell {
    pub c: char,
    pub fg: Rgba,
    pub bg: Rgba,
    pub flags: CellFlags,
}

/// Size in pixels of one character cell, as the current font gives it.
#[derive(Clone, Copy, Debug, PartialEq, Eq, Structural)]
pub struct CharMetrics {
    pub col_width: u32,
    pub row_height: u32,
}

/// The grid, cursor and scroll position of a session, copied out of the
/// session's lock for one read.
#[derive(Debug)]
pub struct Grid {
    /// Scrollback rows first, then the screen rows; each `columns` long.
    pub rows: Vec<Vec<Cell>>,
    pub columns: usize,
    pub screen_lines: usize,
    /// How many scrollback lines the visible window is shifted up.
    pub display_offset: usize,
    pub cursor: GridPoint,
}

impl GridPoint {
    /// `self` comes strictly before `o` in reading order.
    pub open spec fn before(self, o: GridPoint) -> bool {
        self.line < o.line || (self.line == o.line && self.column < o.column)
    }

    /// `self` comes before `o`, or is `o`.
    pub open spec fn at_or_before(self, o: GridPoint) -> bool {
        self.before(o) || self == o
    }

    pub fn precedes(&self, o: &GridPoint) -> (r: bool)
        ensures
            r == self.before(*o),
    {
        self.line < o.line || (self.line == o.line && self.column < o.column)
    }
}

impl Grid {
    /// Number of scrollback lines above the screen.
    pub open spec fn history(&self) -> int {
        self.rows@.len() - self.screen_lines
    }

    pub open spec fn topmost_line(&self) -> int {
        -self.history()
    }

    pub open spec fn bottommost_line(&self) -> int {
        self.screen_lines - 1
    }

    pub open spec fn wf(&self) -> bool {
        &&& 0 < self.columns <= MAX_GRID_DIM
        &&& 0 < self.screen_lines <= MAX_GRID_DIM
        &&& self.screen_lines <= self.rows@.len() <= MAX_GRID_ROWS
        &&& self.display_offset <= self.history()
        &&& forall|i: int| 0 <= i < self.rows@.len() ==> #[trigger] self.rows@[i]@.len()
            == self.columns
        &&& 0 <= self.cursor.line < self.screen_lines
        &&& self.cursor.column < self.columns
    }

    /// The grid holds line `l`.
    pub open spec fn has_line(&self, l: int) -> bool {
        self.topmost_line() <= l <= self.bottommost_line()
    }

    /// The cells of line `l`.
    pub open spec fn line_cells(&self, l: int) -> Seq<Cell> {
        self.rows@[l + self.history()]@
    }

    /// The cell at line `l`, column `c`.
    pub open spec fn cell_at(&self, l: int, c: int) -> Cell {
        self.line_cells(l)[c]
    }

    /// The topmost line of the visible window.
    pub open spec fn top_visible_line(&self) -> int {
        -(self.display_offset as int)
    }

    /// Whether the snapshot has the shape that the engine needs: a
    /// non-empty screen and a row count within the size limits, every row `columns` long,
    /// the window and the cursor inside the grid.
    pub fn is_well_formed(&self) -> (r: bool)
        ensures
            r == self.wf(),
    {
        if !(0 < self.columns && self.columns <= MAX_GRID_DIM && 0 < self.screen_lines
            && self.screen_lines <= MAX_GRID_DIM && self.screen_lines <= self.rows.len()
            && self.rows.len() <= MAX_GRID_ROWS) {
            return false;
        }
        if self.display_offset > self.rows.len() - self.screen_lines {
            return false;
        }
        if !(0 <= self.cursor.line && self.cursor.line < self.screen_lines as i64
            && self.cursor.column < self.columns) {
            return false;
        }
        let mut i: usize = 0;
        while i < self.rows.len()
            invariant
                i <= self.rows@.len(),
                forall|j: int| 0 <= j < i ==> #[trigger] self.rows@[j]@.len() == self.columns,
            decreases self.rows@.len() - i,
        {
            if self.rows[i].len() != self.columns {
                return false;
            }
            i = i + 1;
        }
        true
    }

    pub fn history_len(&self) -> (r: usize)
        requires
            self.wf(),
        ensures
            r == self.history(),
    {
        self.rows.len() - self.screen_lines
    }

    /// The cell at line `l`, column `c`.
    pub fn cell(&self, l: i64, c: usize) -> (r: Cell)
        requires
            self.wf(),
            self.has_line(l as int),
            c < self.columns,
        ensures
            r == self.cell_at(l as int, c as int),
    {
        let row = (l + self.history_len() as i64) as usize;
        self.rows[row][c]
    }
}

} // verus!
