//! Selections over the grid: how they are started and extended from
//! pointer input, how each kind snaps to the cells it covers, and the text
//! that a selection copies.
use crate::grid::{CharMetrics, Grid, GridPoint, MAX_GRID_DIM, MAX_GRID_ROWS};
use vstd::prelude::*;

verus! {

/// How a selection snaps to the grid.
#[derive(Clone, Copy, Debug, PartialEq, Eq, Structural)]
pub enum SelectionKind {
    /// Exactly the cells between the two ends.
    Cell,
    /// Each end widened to the word around it.
    Word,
    /// Whole lines.
    Line,
    /// The rectangle spanned by the two ends, one column range per line.
    Block,
}

/// Which side of the anchor cell a selection extends from.
#[derive(Clone, Copy, Debug, PartialEq, Eq, Structural)]
pub enum Side {
    Left,
    Right,
}

/// A selection as stored: the fixed anchor and the moving head.
#[derive(Clone, Copy, Debug, PartialEq, Eq, Structural)]
pub struct SelectionRange {
    pub kind: SelectionKind,
    pub anchor: GridPoint,
    pub head: GridPoint,
    /// Breaks the tie when `anchor == head`: `Left` selects nothing,
    /// `Right` selects the one cell.
    pub extend_direction: Side,
}

/// A selection snapped to the grid: the cells from `start` to `end`, both
/// included, either as one run in reading order or, when `is_block`, as the
/// same column range on every line.
#[derive(Clone, Copy, Debug, PartialEq, Eq, Structural)]
pub struct SelectionSpan {
    pub start: GridPoint,
    pub end: GridPoint,
    pub is_block: bool,
}

/// The columns `first..=last` of one line (none when `first > last`).
#[derive(Clone, Copy, Debug, PartialEq, Eq, Structural)]
pub struct LineRange {
    pub line: i64,
    pub first: usize,
    pub last: usize,
}

/// Characters that end a word.
pub open spec fn is_separator(c: char) -> bool {
    c == ' ' || c == '\t' || c == ',' || c == '\u{2502}' || c == '`' || c == '|' || c == ':'
        || c == '"' || c == '\'' || c == '(' || c == ')' || c == '[' || c == ']' || c == '{'
        || c == '}' || c == '<' || c == '>'
}

pub fn separator(c: char) -> (r: bool)
    ensures
        r == is_separator(c),
{
    c == ' ' || c == '\t' || c == ',' || c == '\u{2502}' || c == '`' || c == '|' || c == ':'
        || c == '"' || c == '\'' || c == '(' || c == ')' || c == '[' || c == ']' || c == '{'
        || c == '}' || c == '<' || c == '>'
}

/// First column of the word that covers column `c` of `row`; a separator
/// is a word of its own.
pub open spec fn word_start(row: Seq<char>, c: int) -> int
    decreases c,
{
    if c <= 0 || c >= row.len() || is_separator(row[c]) || is_separator(row[c - 1]) {
        c
    } else {
        word_start(row, c - 1)
    }
}

/// Last column of the word that covers column `c` of `row`.
pub open spec fn word_end(row: Seq<char>, c: int) -> int
    decreases row.len() - c,
{
    if c < 0 || c + 1 >= row.len() || is_separator(row[c]) || is_separator(row[c + 1]) {
        c
    } else {
        word_end(row, c + 1)
    }
}

/// The characters of line `l`.
pub open spec fn line_chars(g: Grid, l: int) -> Seq<char> {
    g.line_cells(l).map_values(|cell: crate::grid::Cell| cell.c)
}

/// Column `c`, or the last column when `c` lies past it.
pub open spec fn clamp_column(g: Grid, c: int) -> int {
    if c < g.columns { c } else { g.columns - 1 }
}

/// The earlier of the two ends of `s`.
pub open spec fn sel_start(s: SelectionRange) -> GridPoint {
    if s.head.before(s.anchor) { s.head } else { s.anchor }
}

/// The later of the two ends of `s`.
pub open spec fn sel_end(s: SelectionRange) -> GridPoint {
    if s.head.before(s.anchor) { s.anchor } else { s.head }
}

/// The cells that `s` covers on `g`: none when the selection is empty or an
/// end lies on a line that the grid does not hold.
pub open spec fn span_of(g: Grid, s: SelectionRange) -> Option<SelectionSpan> {
    let a = sel_start(s);
    let b = sel_end(s);
    if !g.has_line(a.line as int) || !g.has_line(b.line as int) {
        None
    } else {
        match s.kind {
            SelectionKind::Cell => if s.anchor == s.head && s.extend_direction == Side::Left {
                None
            } else {
                Some(SelectionSpan { start: a, end: b, is_block: false })
            },
            SelectionKind::Word => Some(
                SelectionSpan {
                    start: GridPoint {
                        line: a.line,
                        column: word_start(
                            line_chars(g, a.line as int),
                            clamp_column(g, a.column as int),
                        ) as usize,
                    },
                    end: GridPoint {
                        line: b.line,
                        column: word_end(
                            line_chars(g, b.line as int),
                            clamp_column(g, b.column as int),
                        ) as usize,
                    },
                    is_block: false,
                },
            ),
            SelectionKind::Line => Some(
                SelectionSpan {
                    start: GridPoint { line: a.line, column: 0 },
                    end: GridPoint { line: b.line, column: (g.columns - 1) as usize },
                    is_block: false,
                },
            ),
            SelectionKind::Block => Some(
                SelectionSpan {
                    start: GridPoint {
                        line: a.line,
                        column: if s.anchor.column <= s.head.column {
                            s.anchor.column
                        } else {
                            s.head.column
                        },
                    },
                    end: GridPoint {
                        line: b.line,
                        column: if s.anchor.column <= s.head.column {
                            s.head.column
                        } else {
                            s.anchor.column
                        },
                    },
                    is_block: true,
                },
            ),
        }
    }
}

/// The columns that `sp` covers on line `l` of a grid `columns` wide.
pub open spec fn range_on(sp: SelectionSpan, l: int, columns: int) -> LineRange {
    LineRange {
        line: l as i64,
        first: if sp.is_block || l == sp.start.line {
            sp.start.column
        } else {
            0
        },
        last: if sp.is_block || l == sp.end.line {
            if sp.end.column < columns {
                sp.end.column
            } else {
                (columns - 1) as usize
            }
        } else {
            (columns - 1) as usize
        },
    }
}

/// One column range for each line of `sp`, top to bottom.
pub open spec fn ranges_of(sp: SelectionSpan, columns: int) -> Seq<LineRange> {
    Seq::new(
        (sp.end.line - sp.start.line + 1) as nat,
        |i: int| range_on(sp, sp.start.line + i, columns),
    )
}

/// The characters of `r` on `g`.
pub open spec fn range_chars(g: Grid, r: LineRange) -> Seq<char> {
    if r.first > r.last {
        Seq::empty()
    } else {
        line_chars(g, r.line as int).subrange(r.first as int, r.last + 1)
    }
}

/// The text of the lines of `sp` from its first line down to line `l`,
/// one line of text per grid line, joined by newlines.
pub open spec fn text_through(g: Grid, sp: SelectionSpan, l: int) -> Seq<char>
    decreases l - sp.start.line,
{
    if l <= sp.start.line {
        range_chars(g, range_on(sp, sp.start.line as int, g.columns as int))
    } else {
        text_through(g, sp, l - 1) + seq!['\n'] + range_chars(g, range_on(sp, l, g.columns as int))
    }
}

/// The text that `s` copies from `g`.
pub open spec fn selection_text(g: Grid, s: SelectionRange) -> Option<Seq<char>> {
    match span_of(g, s) {
        None => None,
        Some(sp) => Some(text_through(g, sp, sp.end.line as int)),
    }
}

/// A new selection of `kind` anchored at `point`, or `current` with its
/// head moved to `point`.
pub open spec fn extended(current: Option<SelectionRange>, point: GridPoint, kind: SelectionKind) -> SelectionRange {
    match current {
        None => SelectionRange { kind, anchor: point, head: point, extend_direction: Side::Left },
        Some(s) => SelectionRange { head: point, ..s },
    }
}

/// The grid point under pixel `(x, y)`: the line counted from the top of
/// the window (capped at the largest grid size) minus the display offset,
/// and the column, which may lie past the last one.
pub open spec fn pixel_point(x: u32, y: u32, metrics: CharMetrics, display_offset: usize) -> GridPoint {
    GridPoint {
        line: ((if y / metrics.row_height <= MAX_GRID_DIM {
            (y / metrics.row_height) as int
        } else {
            MAX_GRID_DIM as int
        }) - display_offset) as i64,
        column: (x / metrics.col_width) as usize,
    }
}

/// Starts a selection at `point`, or moves the head of `current` there.
pub fn begin_or_extend(current: Option<SelectionRange>, point: GridPoint, kind: SelectionKind) -> (r:
    SelectionRange)
    ensures
        r == extended(current, point, kind),
{
    match current {
        None => SelectionRange { kind, anchor: point, head: point, extend_direction: Side::Left },
        Some(s) => SelectionRange { head: point, ..s },
    }
}

/// The grid point under the pointer at pixel `(x, y)` of a pane whose
/// window is scrolled `display_offset` lines up. The line is counted from
/// the top of the window, capped at the largest grid size; the column may
/// lie past the last column.
pub fn point_at_pixel(x: u32, y: u32, metrics: CharMetrics, display_offset: usize) -> (r: GridPoint)
    requires
        metrics.col_width > 0,
        metrics.row_height > 0,
        display_offset <= MAX_GRID_ROWS,
    ensures
        r == pixel_point(x, y, metrics, display_offset),
        r.line == (if y / metrics.row_height <= MAX_GRID_DIM {
            (y / metrics.row_height) as int
        } else {
            MAX_GRID_DIM as int
        }) - display_offset,
{
    let row = y / metrics.row_height;
    let row: u32 = if row as usize <= MAX_GRID_DIM { row } else { MAX_GRID_DIM as u32 };
    GridPoint { line: row as i64 - display_offset as i64, column: (x / metrics.col_width) as usize }
}


/// The grid holds line `l`.
pub fn grid_has_line(g: &Grid, l: i64) -> (r: bool)
    requires
        g.wf(),
    ensures
        r == g.has_line(l as int),
{
    -(g.history_len() as i64) <= l && l <= g.screen_lines as i64 - 1
}

/// First column of the word around column `c` of `row`.
fn word_start_in(row: &Vec<crate::grid::Cell>, c: usize) -> (r: usize)
    requires
        c < row@.len(),
    ensures
        r == word_start(row@.map_values(|cell: crate::grid::Cell| cell.c), c as int),
{
    let ghost chars = row@.map_values(|cell: crate::grid::Cell| cell.c);
    let mut s = c;
    while s > 0 && !separator(row[s].c) && !separator(row[s - 1].c)
        invariant
            s <= c < row@.len(),
            chars == row@.map_values(|cell: crate::grid::Cell| cell.c),
            word_start(chars, s as int) == word_start(chars, c as int),
        decreases s,
    {
        s = s - 1;
    }
    s
}

/// Last column of the word around column `c` of `row`.
fn word_end_in(row: &Vec<crate::grid::Cell>, c: usize) -> (r: usize)
    requires
        c < row@.len(),
    ensures
        r == word_end(row@.map_values(|cell: crate::grid::Cell| cell.c), c as int),
        c <= r < row@.len(),
{
    let ghost chars = row@.map_values(|cell: crate::grid::Cell| cell.c);
    let mut e = c;
    while e < row.len() - 1 && !separator(row[e].c) && !separator(row[e + 1].c)
        invariant
            c <= e < row@.len(),
            chars == row@.map_values(|cell: crate::grid::Cell| cell.c),
            word_end(chars, e as int) == word_end(chars, c as int),
        decreases row@.len() - e,
    {
        e = e + 1;
    }
    e
}

proof fn lemma_word_start_bounds(row: Seq<char>, c: int)
    requires
        0 <= c < row.len(),
    ensures
        0 <= word_start(row, c) <= c,
    decreases c,
{
    if !(c <= 0 || c >= row.len() || is_separator(row[c]) || is_separator(row[c - 1])) {
        lemma_word_start_bounds(row, c - 1);
    }
}

/// The cells that `s` covers on `g`, or `None` when it covers none.
pub fn span(g: &Grid, s: &SelectionRange) -> (r: Option<SelectionSpan>)
    requires
        g.wf(),
    ensures
        r == span_of(*g, *s),
        r matches Some(sp) ==> sp.start.line <= sp.end.line && g.has_line(sp.start.line as int)
            && g.has_line(sp.end.line as int),
{
    let (a, b) = if s.head.precedes(&s.anchor) {
        (s.head, s.anchor)
    } else {
        (s.anchor, s.head)
    };
    if !grid_has_line(g, a.line) || !grid_has_line(g, b.line) {
        return None;
    }
    match s.kind {
        SelectionKind::Cell => {
            if s.anchor == s.head && s.extend_direction == Side::Left {
                None
            } else {
                Some(SelectionSpan { start: a, end: b, is_block: false })
            }
        },
        SelectionKind::Word => {
            let ghost ga = *g;
            let ra = (a.line + g.history_len() as i64) as usize;
            let rb = (b.line + g.history_len() as i64) as usize;
            let ca = if a.column < g.columns { a.column } else { g.columns - 1 };
            let cb = if b.column < g.columns { b.column } else { g.columns - 1 };
            assert(g.rows@[ra as int]@.len() == g.columns);
            assert(g.rows@[rb as int]@.len() == g.columns);
            let ws = word_start_in(&g.rows[ra], ca);
            let we = word_end_in(&g.rows[rb], cb);
            proof {
                lemma_word_start_bounds(line_chars(ga, a.line as int), ca as int);
            }
            Some(
                SelectionSpan {
                    start: GridPoint { line: a.line, column: ws },
                    end: GridPoint { line: b.line, column: we },
                    is_block: false,
                },
            )
        },
        SelectionKind::Line => Some(
            SelectionSpan {
                start: GridPoint { line: a.line, column: 0 },
                end: GridPoint { line: b.line, column: g.columns - 1 },
                is_block: false,
            },
        ),
        SelectionKind::Block => {
            let (lo, hi) = if s.anchor.column <= s.head.column {
                (s.anchor.column, s.head.column)
            } else {
                (s.head.column, s.anchor.column)
            };
            Some(
                SelectionSpan {
                    start: GridPoint { line: a.line, column: lo },
                    end: GridPoint { line: b.line, column: hi },
                    is_block: true,
                },
            )
        },
    }
}

/// The columns that `sp` covers on line `l` of a grid `columns` wide.
pub fn range_on_line(sp: &SelectionSpan, l: i64, columns: usize) -> (r: LineRange)
    requires
        columns > 0,
    ensures
        r == range_on(*sp, l as int, columns as int),
{
    let first = if sp.is_block || l == sp.start.line {
        sp.start.column
    } else {
        0
    };
    let last = if sp.is_block || l == sp.end.line {
        if sp.end.column < columns {
            sp.end.column
        } else {
            columns - 1
        }
    } else {
        columns - 1
    };
    LineRange { line: l, first, last }
}

/// One column range for each line of `sp`, top to bottom.
pub fn line_ranges(sp: &SelectionSpan, columns: usize) -> (r: Vec<LineRange>)
    requires
        columns > 0,
        sp.start.line <= sp.end.line,
        -MAX_GRID_ROWS <= sp.start.line,
        sp.end.line <= MAX_GRID_DIM,
    ensures
        r@ == ranges_of(*sp, columns as int),
{
    let mut out: Vec<LineRange> = Vec::new();
    let mut l = sp.start.line;
    while l <= sp.end.line
        invariant
            columns > 0,
            sp.start.line <= l <= sp.end.line + 1,
            sp.end.line <= MAX_GRID_DIM,
            out@ =~= ranges_of(*sp, columns as int).take(l - sp.start.line),
        decreases sp.end.line + 1 - l,
    {
        out.push(range_on_line(sp, l, columns));
        l = l + 1;
    }
    out
}


/// Appends the characters of `r` on `g` to `out`.
fn push_range_chars(g: &Grid, r: &LineRange, out: &mut Vec<char>)
    requires
        g.wf(),
        g.has_line(r.line as int),
        r.last < g.columns,
    ensures
        final(out)@ == old(out)@ + range_chars(*g, *r),
{
    if r.first > r.last {
        assert(range_chars(*g, *r) =~= Seq::<char>::empty());
        assert(final(out)@ =~= old(out)@ + range_chars(*g, *r));
        return;
    }
    let row = (r.line + g.history_len() as i64) as usize;
    assert(g.rows@[row as int]@.len() == g.columns);
    let ghost start = out@;
    let ghost chars = line_chars(*g, r.line as int);
    let mut c = r.first;
    while c <= r.last
        invariant
            g.wf(),
            row == r.line + g.history(),
            0 <= row < g.rows@.len(),
            r.first <= c <= r.last + 1,
            r.last < g.columns,
            chars == line_chars(*g, r.line as int),
            out@ =~= start + chars.subrange(r.first as int, c as int),
        decreases r.last + 1 - c,
    {
        out.push(g.rows[row][c].c);
        c = c + 1;
    }
}

/// The text that `s` copies from `g`: for each line it covers, the
/// characters of its column range, lines joined by `'\n'`; `None` when the
/// selection covers nothing.
pub fn extract_text(g: &Grid, s: &SelectionRange) -> (r: Option<Vec<char>>)
    requires
        g.wf(),
    ensures
        match (r, selection_text(*g, *s)) {
            (None, None) => true,
            (Some(v), Some(t)) => v@ == t,
            _ => false,
        },
{
    let sp = match span(g, s) {
        None => return None,
        Some(sp) => sp,
    };
    let mut out: Vec<char> = Vec::new();
    let first = range_on_line(&sp, sp.start.line, g.columns);
    push_range_chars(g, &first, &mut out);
    assert(out@ =~= text_through(*g, sp, sp.start.line as int));
    let mut l = sp.start.line;
    while l < sp.end.line
        invariant
            g.wf(),
            sp.start.line <= l <= sp.end.line,
            g.has_line(sp.start.line as int),
            g.has_line(sp.end.line as int),
            out@ == text_through(*g, sp, l as int),
        decreases sp.end.line - l,
    {
        l = l + 1;
        out.push('\n');
        let rg = range_on_line(&sp, l, g.columns);
        push_range_chars(g, &rg, &mut out);
    }
    Some(out)
}

/// A block selection whose ends lie on the grid covers one column range on
/// each line from its top line to its bottom line, and every range is the
/// same: from the smaller to the larger of the two ends' columns, clipped
/// to the grid; not one run across the lines.
pub proof fn lemma_block_ranges(g: Grid, s: SelectionRange)
    requires
        g.wf(),
        s.kind == SelectionKind::Block,
        g.has_line(s.anchor.line as int),
        g.has_line(s.head.line as int),
    ensures
        span_of(g, s) is Some,
        ({
            let sp = span_of(g, s)->0;
            let top = if s.anchor.line <= s.head.line { s.anchor.line } else { s.head.line };
            let bottom = if s.anchor.line <= s.head.line { s.head.line } else { s.anchor.line };
            let lo = if s.anchor.column <= s.head.column { s.anchor.column } else { s.head.column };
            let hi = if s.anchor.column <= s.head.column { s.head.column } else { s.anchor.column };
            let rs = ranges_of(sp, g.columns as int);
            &&& rs.len() == bottom - top + 1
            &&& forall|i: int|
                0 <= i < rs.len() ==> #[trigger] rs[i] == (LineRange {
                    line: (top + i) as i64,
                    first: lo,
                    last: if hi < g.columns { hi } else { (g.columns - 1) as usize },
                })
        }),
{
}

} // verus!
