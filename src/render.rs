//! The paint pass of a pane: from a grid snapshot, the pane's state and the
//! theme, the ordered list of drawing operations in pixel space.
//!
//! Every position comes from `column * col_width` and
//! `(line + display_offset) * row_height`, so scrolling moves the picture
//! without touching grid coordinates.
use crate::grid::{Cell, CharMetrics, Grid, Rgba, MAX_GRID_DIM};
use crate::pane::{PaneMode, TerminalPane};
use crate::search::{search_visible, visible_matches, window_end_line, SearchMatch};
use crate::selection::{line_ranges, ranges_of, span, span_of, LineRange};
use crate::width::{cell_columns, columns_of};
use vstd::prelude::*;

verus! {

/// A rectangle in pixels, from `(x0, y0)` up to, not including, `(x1, y1)`.
#[derive(Clone, Copy, Debug, PartialEq, Eq, Structural)]
pub struct PixelRect {
    pub x0: u64,
    pub y0: u64,
    pub x1: u64,
    pub y1: u64,
}

impl PixelRect {
    /// The point `(x, y)` lies in the rectangle.
    pub open spec fn holds(self, x: u64, y: u64) -> bool {
        self.x0 <= x < self.x1 && self.y0 <= y < self.y1
    }

    pub fn contains(&self, x: u64, y: u64) -> (r: bool)
        ensures
            r == self.holds(x, y),
    {
        self.x0 <= x && x < self.x1 && self.y0 <= y && y < self.y1
    }
}

/// Index of the first of `icons` whose rectangle holds `(x, y)`: the icon a
/// pointer there hovers or clicks.
pub fn icon_at(icons: &Vec<PixelRect>, x: u64, y: u64) -> (r: Option<usize>)
    ensures
        match r {
            Some(i) => i < icons@.len() && icons@[i as int].holds(x, y) && forall|j: int|
                0 <= j < i ==> !(#[trigger] icons@[j]).holds(x, y),
            None => forall|j: int| 0 <= j < icons@.len() ==> !(#[trigger] icons@[j]).holds(x, y),
        },
{
    let mut i: usize = 0;
    while i < icons.len()
        invariant
            i <= icons@.len(),
            forall|j: int| 0 <= j < i ==> !(#[trigger] icons@[j]).holds(x, y),
        decreases icons@.len() - i,
    {
        if icons[i].contains(x, y) {
            return Some(i);
        }
        i = i + 1;
    }
    None
}

/// One drawing operation.
#[derive(Clone, Copy, Debug, PartialEq, Eq, Structural)]
pub enum DrawOp {
    Fill { rect: PixelRect, color: Rgba },
    Stroke { rect: PixelRect, color: Rgba },
    /// A character whose cell has its top left corner at `(x, y)`.
    Glyph { x: u64, y: u64, c: char, color: Rgba, bold: bool },
}

/// The theme colors that the paint pass uses.
#[derive(Clone, Copy, Debug, PartialEq, Eq, Structural)]
pub struct Theme {
    pub background: Rgba,
    pub foreground: Rgba,
    pub selection: Rgba,
    pub current_line: Rgba,
    pub cursor: Rgba,
    pub caret: Rgba,
}

/// The rectangle of `width` cells starting at column `col` of display line
/// `dl` (counted from the top of the window).
pub open spec fn cells_rect(m: CharMetrics, dl: int, col: int, width: int) -> PixelRect {
    PixelRect {
        x0: (col * m.col_width) as u64,
        y0: (dl * m.row_height) as u64,
        x1: ((col + width) * m.col_width) as u64,
        y1: ((dl + 1) * m.row_height) as u64,
    }
}

/// `c` with its opacity cut to 66 percent.
pub open spec fn dimmed(c: Rgba) -> Rgba {
    Rgba { a: (c.a * 66 / 100) as u8, ..c }
}

/// The foreground of a cell after dimming.
pub open spec fn cell_fg(cell: Cell) -> Rgba {
    if cell.flags.dim || cell.flags.dim_bold {
        dimmed(cell.fg)
    } else {
        cell.fg
    }
}

/// The (foreground, background) a cell is painted with.
pub open spec fn shown_colors(cell: Cell) -> (Rgba, Rgba) {
    if cell.flags.inverse {
        (cell.bg, cell_fg(cell))
    } else {
        (cell_fg(cell), cell.bg)
    }
}

/// Number of cells in the window.
pub open spec fn visible_cells(g: Grid) -> int {
    g.screen_lines * g.columns
}

/// The operations for the `k`-th visible cell in reading order: its
/// background when it differs from the theme's, the cursor when it stands
/// there (as wide as its character, clipped at the right edge of the
/// grid), and its glyph unless it is blank.
pub open spec fn cell_ops(g: Grid, pane: TerminalPane, focused: bool, theme: Theme, k: int) -> Seq<
    DrawOp,
> {
    let dl = k / (g.columns as int);
    let col = k % (g.columns as int);
    let line = dl - g.display_offset;
    let cell = g.cell_at(line, col);
    let fg = shown_colors(cell).0;
    let bg = shown_colors(cell).1;
    let m = pane.metrics;
    let at_cursor = g.cursor.line == line && g.cursor.column == col;
    let bg_ops = if bg != theme.background {
        seq![DrawOp::Fill { rect: cells_rect(m, dl, col, 1), color: bg }]
    } else {
        Seq::empty()
    };
    let cursor_color = if pane.mode == PaneMode::Interactive {
        theme.cursor
    } else {
        theme.caret
    };
    let cursor_width = if columns_of(cell.c) <= g.columns - col {
        columns_of(cell.c) as int
    } else {
        g.columns - col
    };
    let cursor_rect = cells_rect(m, dl, col, cursor_width);
    let cursor_ops = if !at_cursor {
        Seq::empty()
    } else if focused {
        seq![DrawOp::Fill { rect: cursor_rect, color: cursor_color }]
    } else {
        seq![DrawOp::Stroke { rect: cursor_rect, color: cursor_color }]
    };
    let glyph_color = if at_cursor && focused {
        theme.background
    } else {
        fg
    };
    let glyph_ops = if cell.c != ' ' && cell.c != '\t' {
        seq![
            DrawOp::Glyph {
                x: (col * m.col_width) as u64,
                y: (dl * m.row_height) as u64,
                c: cell.c,
                color: glyph_color,
                bold: cell.flags.bold || cell.flags.dim_bold,
            },
        ]
    } else {
        Seq::empty()
    };
    bg_ops + cursor_ops + glyph_ops
}

/// The operations of the first `n` visible cells.
pub open spec fn cells_ops(g: Grid, pane: TerminalPane, focused: bool, theme: Theme, n: int) -> Seq<
    DrawOp,
>
    decreases n,
{
    if n <= 0 {
        Seq::empty()
    } else {
        cells_ops(g, pane, focused, theme, n - 1) + cell_ops(g, pane, focused, theme, n - 1)
    }
}

/// A selected column range that shows: not empty, on a visible line.
pub open spec fn range_shows(g: Grid, r: LineRange) -> bool {
    r.first <= r.last && 0 <= r.line + g.display_offset < g.screen_lines
}

/// The highlight of a selected column range.
pub open spec fn range_fill(g: Grid, m: CharMetrics, theme: Theme, r: LineRange) -> DrawOp {
    DrawOp::Fill {
        rect: cells_rect(m, r.line + g.display_offset, r.first as int, r.last - r.first + 1),
        color: theme.selection,
    }
}

/// The highlights of the ranges in `rs` that show, in order.
pub open spec fn range_fills(g: Grid, m: CharMetrics, theme: Theme, rs: Seq<LineRange>) -> Seq<
    DrawOp,
>
    decreases rs.len(),
{
    if rs.len() == 0 {
        Seq::empty()
    } else {
        range_fills(g, m, theme, rs.drop_last()) + if range_shows(g, rs.last()) {
            seq![range_fill(g, m, theme, rs.last())]
        } else {
            Seq::empty()
        }
    }
}

/// The bar across the cursor's line that marks navigation mode, when that
/// line is visible.
pub open spec fn navigation_ops(g: Grid, pane: TerminalPane, theme: Theme) -> Seq<DrawOp> {
    let dl = g.cursor.line + g.display_offset;
    if pane.mode == PaneMode::Navigation && dl < g.screen_lines {
        seq![
            DrawOp::Fill {
                rect: PixelRect {
                    x0: 0,
                    y0: (dl * pane.metrics.row_height) as u64,
                    x1: pane.width_px as u64,
                    y1: ((dl + 1) * pane.metrics.row_height) as u64,
                },
                color: theme.current_line,
            },
        ]
    } else {
        Seq::empty()
    }
}

/// The selection highlight when the pane's selection covers cells, else
/// the navigation bar.
pub open spec fn selection_ops(g: Grid, pane: TerminalPane, theme: Theme) -> Seq<DrawOp> {
    match pane.selection {
        Some(s) => match span_of(g, s) {
            Some(sp) => range_fills(g, pane.metrics, theme, ranges_of(sp, g.columns as int)),
            None => navigation_ops(g, pane, theme),
        },
        None => navigation_ops(g, pane, theme),
    }
}

/// The outline of a search match.
pub open spec fn match_outline(g: Grid, m: CharMetrics, theme: Theme, sm: SearchMatch) -> DrawOp {
    DrawOp::Stroke {
        rect: cells_rect(
            m,
            sm.start.line + g.display_offset,
            sm.start.column as int,
            sm.end.column - sm.start.column,
        ),
        color: theme.foreground,
    }
}

/// The outlines of the search matches of `pattern`, if there is one.
pub open spec fn search_ops(g: Grid, m: CharMetrics, theme: Theme, pattern: Option<Seq<char>>) -> Seq<
    DrawOp,
> {
    match pattern {
        Some(p) => visible_matches(g, p).map_values(|sm: SearchMatch| match_outline(g, m, theme, sm)),
        None => Seq::empty(),
    }
}

/// Everything a paint pass draws, in order: the pane's background, the
/// selection (or navigation bar), the cells, the search outlines.
pub open spec fn paint_ops(
    g: Grid,
    pane: TerminalPane,
    focused: bool,
    theme: Theme,
    pattern: Option<Seq<char>>,
) -> Seq<DrawOp> {
    seq![
        DrawOp::Fill {
            rect: PixelRect { x0: 0, y0: 0, x1: pane.width_px as u64, y1: pane.height_px as u64 },
            color: theme.background,
        },
    ] + selection_ops(g, pane, theme) + cells_ops(g, pane, focused, theme, visible_cells(g))
        + search_ops(g, pane.metrics, theme, pattern)
}

/// `n` times `unit`.
fn scaled(n: usize, unit: u32) -> (r: u64)
    requires
        n <= MAX_GRID_DIM + 3,
    ensures
        r == n * unit,
{
    assert(n * unit <= (MAX_GRID_DIM + 3) * 0xffff_ffff) by (nonlinear_arith)
        requires
            n <= MAX_GRID_DIM + 3,
            unit <= 0xffff_ffff,
    ;
    (n as u64) * (unit as u64)
}


/// The rectangle of `width` cells from column `col` of display line `dl`.
fn rect_of(m: CharMetrics, dl: usize, col: usize, width: usize) -> (r: PixelRect)
    requires
        dl <= MAX_GRID_DIM,
        col + width <= MAX_GRID_DIM + 3,
    ensures
        r == cells_rect(m, dl as int, col as int, width as int),
{
    PixelRect {
        x0: scaled(col, m.col_width),
        y0: scaled(dl, m.row_height),
        x1: scaled(col + width, m.col_width),
        y1: scaled(dl + 1, m.row_height),
    }
}

fn shown(cell: &Cell) -> (r: (Rgba, Rgba))
    ensures
        r == shown_colors(*cell),
{
    let fg = if cell.flags.dim || cell.flags.dim_bold {
        Rgba { a: ((cell.fg.a as u32) * 66 / 100) as u8, ..cell.fg }
    } else {
        cell.fg
    };
    if cell.flags.inverse {
        (cell.bg, fg)
    } else {
        (fg, cell.bg)
    }
}

proof fn lemma_visible_cell(g: Grid, k: int)
    requires
        g.wf(),
        0 <= k < visible_cells(g),
    ensures
        0 <= k / (g.columns as int) < g.screen_lines,
        0 <= k % (g.columns as int) < g.columns,
{
    let c = g.columns as int;
    let n = g.screen_lines as int;
    assert(0 <= k / c < n && 0 <= k % c < c) by (nonlinear_arith)
        requires
            0 <= k < n * c,
            c > 0,
    ;
}

/// Appends the operations of the `k`-th visible cell.
fn push_cell_ops(
    g: &Grid,
    pane: &TerminalPane,
    focused: bool,
    theme: &Theme,
    k: usize,
    out: &mut Vec<DrawOp>,
)
    requires
        g.wf(),
        k < visible_cells(*g),
    ensures
        final(out)@ == old(out)@ + cell_ops(*g, *pane, focused, *theme, k as int),
{
    proof {
        lemma_visible_cell(*g, k as int);
    }
    let dl = k / g.columns;
    let col = k % g.columns;
    let line = dl as i64 - g.display_offset as i64;
    let cell = g.cell(line, col);
    let (fg, bg) = shown(&cell);
    let m = pane.metrics;
    let at_cursor = g.cursor.line == line && g.cursor.column == col;
    let ghost start = out@;
    if bg != theme.background {
        out.push(DrawOp::Fill { rect: rect_of(m, dl, col, 1), color: bg });
    }
    let ghost after_bg = out@;
    if at_cursor {
        let color = if pane.mode == PaneMode::Interactive {
            theme.cursor
        } else {
            theme.caret
        };
        let w = cell_columns(cell.c);
        let w = if w <= g.columns - col {
            w
        } else {
            g.columns - col
        };
        let rect = rect_of(m, dl, col, w);
        if focused {
            out.push(DrawOp::Fill { rect, color });
        } else {
            out.push(DrawOp::Stroke { rect, color });
        }
    }
    let ghost after_cursor = out@;
    let glyph_color = if at_cursor && focused {
        theme.background
    } else {
        fg
    };
    if cell.c != ' ' && cell.c != '\t' {
        out.push(
            DrawOp::Glyph {
                x: scaled(col, m.col_width),
                y: scaled(dl, m.row_height),
                c: cell.c,
                color: glyph_color,
                bold: cell.flags.bold || cell.flags.dim_bold,
            },
        );
    }
    assert(out@ =~= start + cell_ops(*g, *pane, focused, *theme, k as int));
}

/// Appends the highlights of the ranges in `rs` that show.
fn push_range_fills(g: &Grid, m: CharMetrics, theme: &Theme, rs: &Vec<LineRange>, out: &mut Vec<DrawOp>)
    requires
        g.wf(),
        forall|j: int| 0 <= j < rs@.len() ==> (#[trigger] rs@[j]).last < g.columns,
    ensures
        final(out)@ == old(out)@ + range_fills(*g, m, *theme, rs@),
{
    let ghost start = out@;
    let mut i: usize = 0;
    while i < rs.len()
        invariant
            g.wf(),
            forall|j: int| 0 <= j < rs@.len() ==> (#[trigger] rs@[j]).last < g.columns,
            i <= rs@.len(),
            out@ == start + range_fills(*g, m, *theme, rs@.take(i as int)),
        decreases rs@.len() - i,
    {
        let r = rs[i];
        assert(rs@.take(i + 1).drop_last() =~= rs@.take(i as int));
        let dl = r.line as i128 + g.display_offset as i128;
        if r.first <= r.last && 0 <= dl && dl < g.screen_lines as i128 {
            out.push(
                DrawOp::Fill {
                    rect: rect_of(m, dl as usize, r.first, r.last - r.first + 1),
                    color: theme.selection,
                },
            );
        }
        i = i + 1;
        assert(out@ =~= start + range_fills(*g, m, *theme, rs@.take(i as int)));
    }
    assert(rs@.take(rs@.len() as int) =~= rs@);
}


/// Appends the navigation bar, when it shows.
fn push_navigation_ops(g: &Grid, pane: &TerminalPane, theme: &Theme, out: &mut Vec<DrawOp>)
    requires
        g.wf(),
    ensures
        final(out)@ == old(out)@ + navigation_ops(*g, *pane, *theme),
{
    let dl = g.cursor.line + g.display_offset as i64;
    if pane.mode == PaneMode::Navigation && dl < g.screen_lines as i64 {
        out.push(
            DrawOp::Fill {
                rect: PixelRect {
                    x0: 0,
                    y0: scaled(dl as usize, pane.metrics.row_height),
                    x1: pane.width_px as u64,
                    y1: scaled(dl as usize + 1, pane.metrics.row_height),
                },
                color: theme.current_line,
            },
        );
    }
    assert(final(out)@ =~= old(out)@ + navigation_ops(*g, *pane, *theme));
}

/// Appends the selection highlight, or the navigation bar.
fn push_selection_ops(g: &Grid, pane: &TerminalPane, theme: &Theme, out: &mut Vec<DrawOp>)
    requires
        g.wf(),
    ensures
        final(out)@ == old(out)@ + selection_ops(*g, *pane, *theme),
{
    match pane.selection {
        Some(s) => match span(g, &s) {
            Some(sp) => {
                let rs = line_ranges(&sp, g.columns);
                assert forall|j: int| 0 <= j < rs@.len() implies (#[trigger] rs@[j]).last
                    < g.columns by {
                    assert(rs@[j] == crate::selection::range_on(sp, sp.start.line + j, g.columns as int));
                }
                push_range_fills(g, pane.metrics, theme, &rs, out);
            },
            None => push_navigation_ops(g, pane, theme, out),
        },
        None => push_navigation_ops(g, pane, theme, out),
    }
}

/// Appends the outlines of the search matches of `pattern`.
fn push_search_ops(g: &Grid, m: CharMetrics, theme: &Theme, pattern: &Vec<char>, out: &mut Vec<DrawOp>)
    requires
        g.wf(),
    ensures
        final(out)@ == old(out)@ + search_ops(*g, m, *theme, Some(pattern@)),
{
    let ms = search_visible(g, pattern);
    let ghost start = out@;
    let ghost f = |sm: SearchMatch| match_outline(*g, m, *theme, sm);
    let mut i: usize = 0;
    while i < ms.len()
        invariant
            g.wf(),
            i <= ms@.len(),
            ms@ == visible_matches(*g, pattern@),
            f == (|sm: SearchMatch| match_outline(*g, m, *theme, sm)),
            forall|j: int|
                0 <= j < ms@.len() ==> {
                    &&& g.top_visible_line() <= (#[trigger] ms@[j]).start.line <= window_end_line(*g)
                    &&& ms@[j].start.column <= ms@[j].end.column <= g.columns + 2
                    &&& ms@[j].end.line == ms@[j].start.line
                },
            out@ == start + ms@.take(i as int).map_values(f),
        decreases ms@.len() - i,
    {
        let sm = ms[i];
        let dl = (sm.start.line + g.display_offset as i64) as usize;
        out.push(
            DrawOp::Stroke {
                rect: rect_of(m, dl, sm.start.column, sm.end.column - sm.start.column),
                color: theme.foreground,
            },
        );
        i = i + 1;
        assert(ms@.take(i as int).map_values(f) =~= ms@.take(i - 1).map_values(f).push(f(sm)));
    }
    assert(ms@.take(ms@.len() as int) =~= ms@);
}

/// The drawing operations of one paint pass over `pane`, whose session's
/// snapshot is `g`: the pane's background, the selection highlight (or the
/// navigation bar when nothing is selected), each visible cell in reading
/// order, and an outline around each visible occurrence of `pattern`.
pub fn paint(g: &Grid, pane: &TerminalPane, focused: bool, theme: &Theme, pattern: &Option<Vec<char>>) -> (r: Vec<DrawOp>)
    requires
        g.wf(),
    ensures
        r@ == paint_ops(
            *g,
            *pane,
            focused,
            *theme,
            match pattern {
                Some(p) => Some(p@),
                None => None,
            },
        ),
{
    let mut out: Vec<DrawOp> = Vec::new();
    out.push(
        DrawOp::Fill {
            rect: PixelRect { x0: 0, y0: 0, x1: pane.width_px as u64, y1: pane.height_px as u64 },
            color: theme.background,
        },
    );
    push_selection_ops(g, pane, theme, &mut out);
    let ghost base = out@;
    assert(g.screen_lines * g.columns <= MAX_GRID_DIM * MAX_GRID_DIM) by (nonlinear_arith)
        requires
            g.screen_lines <= MAX_GRID_DIM,
            g.columns <= MAX_GRID_DIM,
    ;
    let total = g.screen_lines * g.columns;
    let mut k: usize = 0;
    while k < total
        invariant
            g.wf(),
            total == visible_cells(*g),
            k <= total,
            out@ == base + cells_ops(*g, *pane, focused, *theme, k as int),
        decreases total - k,
    {
        push_cell_ops(g, pane, focused, theme, k, &mut out);
        k = k + 1;
        assert(out@ =~= base + cells_ops(*g, *pane, focused, *theme, k as int));
    }
    match pattern {
        Some(p) => push_search_ops(g, pane.metrics, theme, p, &mut out),
        None => {},
    }
    out
}


/// `op` lies inside a pane of `width` by `height` pixels.
pub open spec fn op_inside(op: DrawOp, width: u32, height: u32) -> bool {
    match op {
        DrawOp::Fill { rect, .. } => rect.x0 <= rect.x1 <= width && rect.y0 <= rect.y1 <= height,
        DrawOp::Stroke { rect, .. } => rect.x0 <= rect.x1 <= width && rect.y0 <= rect.y1 <= height,
        DrawOp::Glyph { x, y, .. } => x < width && y < height,
    }
}

proof fn lemma_cell_rect_inside(m: CharMetrics, width: u32, height: u32, cols: int, lines: int, dl: int, col: int, w: int)
    requires
        m.col_width > 0,
        m.row_height > 0,
        cols == width / m.col_width,
        lines == height / m.row_height,
        0 <= dl < lines,
        0 <= col < cols,
        0 <= w,
        col + w <= cols,
    ensures
        cells_rect(m, dl, col, w).x0 <= cells_rect(m, dl, col, w).x1 <= width,
        cells_rect(m, dl, col, w).y0 <= cells_rect(m, dl, col, w).y1 <= height,
        col * m.col_width < width,
        dl * m.row_height < height,
        cells_rect(m, dl, col, w).x0 == col * m.col_width,
        cells_rect(m, dl, col, w).y0 == dl * m.row_height,
{
    let cw = m.col_width as int;
    let rh = m.row_height as int;
    let wd = width as int;
    let ht = height as int;
    vstd::arithmetic::div_mod::lemma_fundamental_div_mod(wd, cw);
    vstd::arithmetic::div_mod::lemma_fundamental_div_mod(ht, rh);
    vstd::arithmetic::div_mod::lemma_mod_bound(wd, cw);
    vstd::arithmetic::div_mod::lemma_mod_bound(ht, rh);
    assert(cols == wd / cw && lines == ht / rh);
    assert(0 <= col * cw <= (col + w) * cw <= cols * cw <= wd && col * cw < wd) by (nonlinear_arith)
        requires
            wd == cw * cols + wd % cw,
            0 <= wd % cw,
            0 <= col < cols,
            0 <= w,
            col + w <= cols,
            cw > 0,
    ;
    assert(0 <= dl * rh <= (dl + 1) * rh <= lines * rh <= ht && dl * rh < ht) by (nonlinear_arith)
        requires
            ht == rh * lines + ht % rh,
            0 <= ht % rh,
            0 <= dl < lines,
            rh > 0,
    ;
}

/// After a resize has set the pane's grid size and the session's grid has
/// followed it, every operation that a paint pass draws for a cell (its
/// background, the cursor, its glyph) lies inside the pane's pixel bounds.
pub proof fn lemma_cells_inside_pane(g: Grid, pane: TerminalPane, focused: bool, theme: Theme)
    requires
        g.wf(),
        pane.wf(),
        g.columns == pane.columns,
        g.screen_lines == pane.lines,
    ensures
        forall|i: int|
            0 <= i < cells_ops(g, pane, focused, theme, visible_cells(g)).len() ==> op_inside(
                #[trigger] cells_ops(g, pane, focused, theme, visible_cells(g))[i],
                pane.width_px,
                pane.height_px,
            ),
{
    lemma_cells_ops_inside(g, pane, focused, theme, visible_cells(g));
}

proof fn lemma_cells_ops_inside(g: Grid, pane: TerminalPane, focused: bool, theme: Theme, n: int)
    requires
        g.wf(),
        pane.wf(),
        g.columns == pane.columns,
        g.screen_lines == pane.lines,
        n <= visible_cells(g),
    ensures
        forall|i: int|
            0 <= i < cells_ops(g, pane, focused, theme, n).len() ==> op_inside(
                #[trigger] cells_ops(g, pane, focused, theme, n)[i],
                pane.width_px,
                pane.height_px,
            ),
    decreases n,
{
    if n > 0 {
        lemma_cells_ops_inside(g, pane, focused, theme, n - 1);
        let k = n - 1;
        lemma_visible_cell(g, k);
        let m = pane.metrics;
        let cols = g.columns as int;
        let dl = k / cols;
        let col = k % cols;
        let cell = g.cell_at(dl - g.display_offset, col);
        let cursor_width = if columns_of(cell.c) <= g.columns - col {
            columns_of(cell.c) as int
        } else {
            g.columns - col
        };
        lemma_cell_rect_inside(m, pane.width_px, pane.height_px, cols, g.screen_lines as int, dl, col, 1);
        lemma_cell_rect_inside(m, pane.width_px, pane.height_px, cols, g.screen_lines as int, dl, col, cursor_width);
        let ops = cell_ops(g, pane, focused, theme, k);
        assert forall|i: int| 0 <= i < ops.len() implies op_inside(#[trigger] ops[i], pane.width_px, pane.height_px) by {}
        let prev = cells_ops(g, pane, focused, theme, n - 1);
        let all = cells_ops(g, pane, focused, theme, n);
        assert(all == prev + ops);
        assert forall|i: int| 0 <= i < all.len() implies op_inside(#[trigger] all[i], pane.width_px, pane.height_px) by {
            if i < prev.len() {
                assert(all[i] == prev[i]);
            } else {
                assert(all[i] == ops[i - prev.len()]);
            }
        }
    }
}

} // verus!
