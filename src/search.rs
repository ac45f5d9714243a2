//! Highlighting the occurrences of a search string in the visible window
//! of the grid.
//!
//! The window is walked with a cursor that only moves forward: each query
//! finds the first occurrence at or after the cursor, and the cursor then
//! moves to the cell just past that occurrence, wrapping to the start of
//! the next line after the last column. Occurrences therefore come out in
//! reading order, never overlap, and the walk ends when the cursor leaves
//! the window.
use crate::grid::{Grid, GridPoint, MAX_GRID_DIM};
use crate::width::{cell_columns, columns_of};
use vstd::prelude::*;

verus! {

/// One occurrence: it starts at `start`, and on its line it covers the
/// columns from `start.column` up to, not including, `end.column` (the
/// last character counted with its display width).
#[derive(Clone, Copy, Debug, PartialEq, Eq, Structural)]
pub struct SearchMatch {
    pub start: GridPoint,
    pub end: GridPoint,
}

/// The last line that the search visits: the window's height below its
/// top line, but not past the bottom of the grid.
pub open spec fn window_end_line(g: Grid) -> int {
    let below = g.top_visible_line() + g.screen_lines;
    if below < g.bottommost_line() { below } else { g.bottommost_line() }
}

/// Number of lines the search visits.
pub open spec fn window_lines(g: Grid) -> int {
    window_end_line(g) - g.top_visible_line() + 1
}

/// Number of cursor positions in the searched window.
pub open spec fn window_cells(g: Grid) -> int {
    window_lines(g) * g.columns
}

/// The grid point of cursor position `k`, counted in reading order from
/// the top left cell of the window.
pub open spec fn cursor_point(g: Grid, k: int) -> GridPoint {
    GridPoint { line: (g.top_visible_line() + k / (g.columns as int)) as i64, column: (k % (g.columns as int)) as usize }
}

/// `pat` occurs on line `l` starting at column `c`.
pub open spec fn occurs_at(g: Grid, pat: Seq<char>, l: int, c: int) -> bool {
    &&& c + pat.len() <= g.columns
    &&& forall|i: int| 0 <= i < pat.len() ==> #[trigger] g.cell_at(l, c + i).c == pat[i]
}

/// `pat` occurs at cursor position `k`.
pub open spec fn occurs_at_cursor(g: Grid, pat: Seq<char>, k: int) -> bool {
    let p = cursor_point(g, k);
    occurs_at(g, pat, p.line as int, p.column as int)
}

/// The occurrence of `pat` that starts at cursor position `k`.
pub open spec fn match_at_cursor(g: Grid, pat: Seq<char>, k: int) -> SearchMatch {
    let p = cursor_point(g, k);
    SearchMatch {
        start: p,
        end: GridPoint {
            line: p.line,
            column: (p.column + pat.len() - 1 + columns_of(pat.last())) as usize,
        },
    }
}

/// The occurrences that the walk finds from cursor position `k` on.
pub open spec fn matches_from(g: Grid, pat: Seq<char>, k: int) -> Seq<SearchMatch>
    decreases window_cells(g) - k,
{
    if pat.len() == 0 || k < 0 || k >= window_cells(g) {
        Seq::empty()
    } else if occurs_at_cursor(g, pat, k) {
        let next = if k + pat.len() < window_cells(g) {
            k + pat.len()
        } else {
            window_cells(g)
        };
        seq![match_at_cursor(g, pat, k)] + matches_from(g, pat, next)
    } else {
        matches_from(g, pat, k + 1)
    }
}

/// The occurrences of `pat` highlighted in the visible window of `g`.
pub open spec fn visible_matches(g: Grid, pat: Seq<char>) -> Seq<SearchMatch> {
    matches_from(g, pat, 0)
}

proof fn lemma_window(g: Grid)
    requires
        g.wf(),
    ensures
        1 <= window_lines(g) <= g.screen_lines + 1,
        0 < window_cells(g) <= (MAX_GRID_DIM + 1) * MAX_GRID_DIM,
        g.top_visible_line() >= g.topmost_line(),
        window_end_line(g) <= g.bottommost_line(),
{
    let n = window_lines(g);
    let c = g.columns as int;
    assert(0 < n * c <= (MAX_GRID_DIM + 1) * MAX_GRID_DIM) by (nonlinear_arith)
        requires
            1 <= n <= MAX_GRID_DIM + 1,
            0 < c <= MAX_GRID_DIM,
    ;
}

proof fn lemma_cursor_point(g: Grid, k: int)
    requires
        g.wf(),
        0 <= k < window_cells(g),
    ensures
        g.has_line(cursor_point(g, k).line as int),
        cursor_point(g, k).line <= window_end_line(g),
        cursor_point(g, k).column < g.columns,
        0 <= k / (g.columns as int) < window_lines(g),
        0 <= k % (g.columns as int) < g.columns,
{
    lemma_window(g);
    let n = window_lines(g);
    let c = g.columns as int;
    assert(0 <= k / c < n && 0 <= k % c < c) by (nonlinear_arith)
        requires
            0 <= k < n * c,
            c > 0,
    ;
}

/// The top line of the window and the number of cursor positions in it.
fn window_size(g: &Grid) -> (r: (i64, u64))
    requires
        g.wf(),
    ensures
        r.0 == g.top_visible_line(),
        r.1 == window_cells(*g),
{
    proof {
        lemma_window(*g);
    }
    let top = -(g.display_offset as i64);
    let below = top + g.screen_lines as i64;
    let bottom = g.screen_lines as i64 - 1;
    let end_line = if below < bottom { below } else { bottom };
    let lines = (end_line - top + 1) as u64;
    (top, lines * g.columns as u64)
}

/// Whether `pat` occurs on line `l` starting at column `c`.
fn occurs(g: &Grid, pat: &Vec<char>, l: i64, c: usize) -> (r: bool)
    requires
        g.wf(),
        g.has_line(l as int),
        c < g.columns,
    ensures
        r == occurs_at(*g, pat@, l as int, c as int),
{
    if pat.len() > g.columns - c {
        return false;
    }
    let mut i: usize = 0;
    while i < pat.len()
        invariant
            g.wf(),
            g.has_line(l as int),
            c + pat@.len() <= g.columns,
            i <= pat@.len(),
            forall|j: int| 0 <= j < i ==> #[trigger] g.cell_at(l as int, c + j).c == pat@[j],
        decreases pat@.len() - i,
    {
        if g.cell(l, c + i).c != pat[i] {
            return false;
        }
        i = i + 1;
    }
    true
}

/// The first cursor position at or after `k` where `pat` occurs, or `None`
/// when it does not occur again in the window.
pub fn next_match_from(g: &Grid, pat: &Vec<char>, k: u64) -> (r: Option<u64>)
    requires
        g.wf(),
    ensures
        match r {
            Some(m) => k <= m < window_cells(*g) && occurs_at_cursor(*g, pat@, m as int)
                && forall|j: int| k <= j < m ==> !occurs_at_cursor(*g, pat@, j),
            None => forall|j: int| k <= j < window_cells(*g) ==> !occurs_at_cursor(*g, pat@, j),
        },
{
    let (top, total) = window_size(g);
    let cols = g.columns as u64;
    let mut j = k;
    while j < total
        invariant
            g.wf(),
            top == g.top_visible_line(),
            total == window_cells(*g),
            cols == g.columns,
            k <= j || total <= j,
            forall|i: int| k <= i < j && i < total ==> !occurs_at_cursor(*g, pat@, i),
        decreases total - j,
    {
        proof {
            lemma_cursor_point(*g, j as int);
        }
        let line = top + (j / cols) as i64;
        let column = (j % cols) as usize;
        assert(line == cursor_point(*g, j as int).line && column == cursor_point(*g, j as int).column);
        if occurs(g, pat, line, column) {
            return Some(j);
        }
        j = j + 1;
    }
    None
}

proof fn lemma_skip(g: Grid, pat: Seq<char>, k: int, m: int)
    requires
        0 <= k <= m,
        pat.len() > 0,
        forall|j: int| k <= j < m && j < window_cells(g) ==> !occurs_at_cursor(g, pat, j),
    ensures
        matches_from(g, pat, k) == matches_from(g, pat, m) || m > window_cells(g) && matches_from(g, pat, k) == Seq::<SearchMatch>::empty(),
    decreases m - k,
{
    if k < m {
        if k < window_cells(g) {
            lemma_skip(g, pat, k + 1, m);
        }
    }
}

/// The result of a highlight pass: the occurrences found, and how many
/// next-occurrence queries the walk made.
#[derive(Debug)]
pub struct SearchPass {
    pub matches: Vec<SearchMatch>,
    pub queries: usize,
}

/// The occurrences of `pat` in the visible window of `g`, in reading order.
pub fn search_visible(g: &Grid, pat: &Vec<char>) -> (r: Vec<SearchMatch>)
    requires
        g.wf(),
    ensures
        r@ == visible_matches(*g, pat@),
        forall|i: int|
            0 <= i < r@.len() ==> {
                &&& g.top_visible_line() <= (#[trigger] r@[i]).start.line <= window_end_line(*g)
                &&& r@[i].start.column <= r@[i].end.column <= g.columns + 2
                &&& r@[i].end.line == r@[i].start.line
            },
{
    search_visible_counted(g, pat).matches
}

/// The walk of `search_visible`, counting its queries: each query moves the
/// cursor at least one cell forward or ends the walk, so a pass makes at
/// most one query per cursor position of the window, and always ends.
pub fn search_visible_counted(g: &Grid, pat: &Vec<char>) -> (pass: SearchPass)
    requires
        g.wf(),
    ensures
        pass.queries <= window_cells(*g),
        pass.matches@ == visible_matches(*g, pat@),
        forall|i: int|
            0 <= i < pass.matches@.len() ==> {
                &&& g.top_visible_line() <= (#[trigger] pass.matches@[i]).start.line
                    <= window_end_line(*g)
                &&& pass.matches@[i].start.column <= pass.matches@[i].end.column <= g.columns + 2
                &&& pass.matches@[i].end.line == pass.matches@[i].start.line
            },
{
    let mut out: Vec<SearchMatch> = Vec::new();
    let mut queries: usize = 0;
    if pat.len() == 0 {
        return SearchPass { matches: out, queries };
    }
    let (top, total) = window_size(g);
    let cols = g.columns as u64;
    proof {
        lemma_window(*g);
    }
    let mut k: u64 = 0;
    while k < total
        invariant
            g.wf(),
            pat@.len() > 0,
            top == g.top_visible_line(),
            total == window_cells(*g),
            cols == g.columns,
            out@ + matches_from(*g, pat@, k as int) == visible_matches(*g, pat@),
            queries <= k <= total,
            total <= (MAX_GRID_DIM + 1) * MAX_GRID_DIM,
            forall|i: int|
                0 <= i < out@.len() ==> {
                    &&& g.top_visible_line() <= (#[trigger] out@[i]).start.line <= window_end_line(*g)
                    &&& out@[i].start.column <= out@[i].end.column <= g.columns + 2
                    &&& out@[i].end.line == out@[i].start.line
                },
        decreases total - k,
    {
        let found = next_match_from(g, pat, k);
        queries = queries + 1;
        match found {
            None => {
                proof {
                    lemma_skip(*g, pat@, k as int, total as int);
                }
                assert(out@ + matches_from(*g, pat@, k as int) =~= out@);
                return SearchPass { matches: out, queries };
            },
            Some(m) => {
                proof {
                    lemma_skip(*g, pat@, k as int, m as int);
                    lemma_cursor_point(*g, m as int);
                }
                let line = top + (m / cols) as i64;
                let column = (m % cols) as usize;
                assert(line == cursor_point(*g, m as int).line && column == cursor_point(*g, m as int).column);
                let last = g.cell(line, column + pat.len() - 1).c;
                assert(g.cell_at(line as int, column + (pat@.len() - 1)).c == pat@[pat@.len() - 1]);
                assert(last == pat@.last());
                let w = cell_columns(last);
                let found = SearchMatch {
                    start: GridPoint { line, column },
                    end: GridPoint { line, column: column + pat.len() - 1 + w },
                };
                assert(found == match_at_cursor(*g, pat@, m as int));
                assert(pat@.len() <= MAX_GRID_DIM);
                proof {
                    lemma_window(*g);
                }
                let next = if m + (pat.len() as u64) < total {
                    m + pat.len() as u64
                } else {
                    total
                };
                assert(out@.push(found) + matches_from(*g, pat@, next as int) =~= out@
                    + matches_from(*g, pat@, m as int));
                out.push(found);
                k = next;
            },
        }
    }
    assert(out@ + matches_from(*g, pat@, k as int) =~= out@);
    SearchPass { matches: out, queries }
}


proof fn lemma_cursor_order(g: Grid, a: int, b: int)
    requires
        g.wf(),
        0 <= a < b < window_cells(g),
    ensures
        cursor_point(g, a).before(cursor_point(g, b)),
{
    lemma_cursor_point(g, a);
    lemma_cursor_point(g, b);
    let c = g.columns as int;
    vstd::arithmetic::div_mod::lemma_fundamental_div_mod(a, c);
    vstd::arithmetic::div_mod::lemma_fundamental_div_mod(b, c);
    vstd::arithmetic::div_mod::lemma_mod_bound(a, c);
    vstd::arithmetic::div_mod::lemma_mod_bound(b, c);
    let (qa, ra, qb, rb) = (a / c, a % c, b / c, b % c);
    assert(qa < qb || (qa == qb && ra < rb)) by (nonlinear_arith)
        requires
            a == c * qa + ra,
            b == c * qb + rb,
            0 <= ra < c,
            0 <= rb < c,
            a < b,
    ;
    lemma_cursor_point_small(g, a);
    lemma_cursor_point_small(g, b);
}

proof fn lemma_cursor_point_small(g: Grid, k: int)
    requires
        g.wf(),
        0 <= k,
    ensures
        cursor_point(g, k).column == k % (g.columns as int),
        k < window_cells(g) ==> cursor_point(g, k).line == g.top_visible_line() + k / (
        g.columns as int),
{
    vstd::arithmetic::div_mod::lemma_mod_bound(k, g.columns as int);
    if k < window_cells(g) {
        lemma_cursor_point(g, k);
    }
}

proof fn lemma_matches_from_ordered(g: Grid, pat: Seq<char>, k: int)
    requires
        g.wf(),
        0 <= k,
    ensures
        forall|i: int|
            0 <= i < matches_from(g, pat, k).len() ==> {
                &&& cursor_point(g, k).at_or_before(#[trigger] matches_from(g, pat, k)[i].start)
                &&& matches_from(g, pat, k)[i].start.line <= window_end_line(g)
            },
        forall|i: int, j: int|
            0 <= i < j < matches_from(g, pat, k).len() ==> (#[trigger] matches_from(
                g,
                pat,
                k,
            )[i]).start.before((#[trigger] matches_from(g, pat, k)[j]).start),
    decreases window_cells(g) - k,
{
    if pat.len() == 0 || k >= window_cells(g) {
        return;
    }
    lemma_cursor_point(g, k);
    if occurs_at_cursor(g, pat, k) {
        let next = if k + pat.len() < window_cells(g) {
            k + pat.len()
        } else {
            window_cells(g)
        };
        lemma_matches_from_ordered(g, pat, next);
        if next < window_cells(g) {
            lemma_cursor_order(g, k, next);
        }
        let ms = matches_from(g, pat, k);
        let rest = matches_from(g, pat, next);
        assert(ms == seq![match_at_cursor(g, pat, k)] + rest);
        assert forall|i: int| 0 <= i < ms.len() implies cursor_point(g, k).at_or_before(
            #[trigger] ms[i].start,
        ) && ms[i].start.line <= window_end_line(g) by {
            if i > 0 {
                assert(ms[i] == rest[i - 1]);
            }
        }
        assert forall|i: int, j: int| 0 <= i < j < ms.len() implies (#[trigger] ms[i]).start.before(
            (#[trigger] ms[j]).start,
        ) by {
            assert(ms[j] == rest[j - 1]);
            if i > 0 {
                assert(ms[i] == rest[i - 1]);
            }
        }
    } else {
        lemma_matches_from_ordered(g, pat, k + 1);
        if k + 1 < window_cells(g) {
            lemma_cursor_order(g, k, k + 1);
        }
        let ms = matches_from(g, pat, k);
        assert(ms == matches_from(g, pat, k + 1));
    }
}

/// The highlighted occurrences come out in strictly increasing (line,
/// column) order of their starts, none before the top of the window and
/// none past the last line that the search visits.
pub proof fn lemma_visible_matches_ordered(g: Grid, pat: Seq<char>)
    requires
        g.wf(),
    ensures
        forall|i: int, j: int|
            0 <= i < j < visible_matches(g, pat).len() ==> (#[trigger] visible_matches(
                g,
                pat,
            )[i]).start.before((#[trigger] visible_matches(g, pat)[j]).start),
        forall|i: int|
            0 <= i < visible_matches(g, pat).len() ==> {
                &&& g.top_visible_line() <= (#[trigger] visible_matches(g, pat)[i]).start.line
                &&& visible_matches(g, pat)[i].start.line <= window_end_line(g)
            },
{
    lemma_matches_from_ordered(g, pat, 0);
    lemma_cursor_point_small(g, 0);
    lemma_window(g);
}

} // verus!
