use termview::collection::TerminalCollection;
use termview::grid::{Cell, CellFlags, CharMetrics, Grid, GridPoint, Rgba};
use termview::pane::{Button, PaneAction, PaneMode, PointerEvent, TerminalPane};
use termview::panel::{FocusArea, PanelIntent, TerminalPanel};
use termview::render::{icon_at, paint, DrawOp, PixelRect, Theme};
use termview::search::{next_match_from, search_visible, search_visible_counted, SearchMatch};
use termview::selection::{
    extract_text, line_ranges, point_at_pixel, span, LineRange, SelectionKind, SelectionRange,
    Side,
};
use termview::split::SplitGroup;
use termview::width::cell_columns;

const WHITE: Rgba = Rgba { r: 255, g: 255, b: 255, a: 255 };
const BLACK: Rgba = Rgba { r: 0, g: 0, b: 0, a: 255 };
const RED: Rgba = Rgba { r: 255, g: 0, b: 0, a: 255 };

fn plain() -> CellFlags {
    CellFlags { bold: false, dim: false, dim_bold: false, inverse: false }
}

fn cell(c: char) -> Cell {
    Cell { c, fg: WHITE, bg: BLACK, flags: plain() }
}

/// A grid whose screen shows `lines`, each padded with spaces to `columns`.
fn grid(lines: &[&str], columns: usize) -> Grid {
    let rows = lines
        .iter()
        .map(|l| {
            let mut row: Vec<Cell> = l.chars().map(cell).collect();
            row.resize(columns, cell(' '));
            row
        })
        .collect::<Vec<_>>();
    Grid {
        rows,
        columns,
        screen_lines: lines.len(),
        display_offset: 0,
        cursor: GridPoint { line: 0, column: 0 },
    }
}

fn text(v: Option<Vec<char>>) -> Option<String> {
    v.map(|v| v.into_iter().collect())
}

fn pt(line: i64, column: usize) -> GridPoint {
    GridPoint { line, column }
}

fn sel(kind: SelectionKind, anchor: GridPoint, head: GridPoint) -> SelectionRange {
    SelectionRange { kind, anchor, head, extend_direction: Side::Left }
}

fn theme() -> Theme {
    Theme {
        background: BLACK,
        foreground: WHITE,
        selection: Rgba { r: 0, g: 0, b: 128, a: 255 },
        current_line: Rgba { r: 40, g: 40, b: 40, a: 255 },
        cursor: Rgba { r: 0, g: 255, b: 0, a: 255 },
        caret: Rgba { r: 0, g: 0, b: 255, a: 255 },
    }
}

fn sized_pane(cols: u32, lines: u32) -> TerminalPane {
    let mut p = TerminalPane::new(7, 1);
    p.resize(cols * 10, lines * 20, CharMetrics { col_width: 10, row_height: 20 });
    p
}

// ---- selection ----

#[test]
fn cell_selection_round_trip() {
    let g = grid(&["hello"], 5);
    let s = sel(SelectionKind::Cell, pt(0, 0), pt(0, 3));
    assert_eq!(text(extract_text(&g, &s)), Some("hell".to_string()));
}

#[test]
fn cell_selection_backwards_is_the_same() {
    let g = grid(&["hello"], 5);
    let s = sel(SelectionKind::Cell, pt(0, 3), pt(0, 0));
    assert_eq!(text(extract_text(&g, &s)), Some("hell".to_string()));
}

#[test]
fn zero_width_selection_extracts_nothing() {
    let g = grid(&["hello"], 5);
    let s = sel(SelectionKind::Cell, pt(0, 2), pt(0, 2));
    assert_eq!(extract_text(&g, &s), None);
    let s = SelectionRange { extend_direction: Side::Right, ..s };
    assert_eq!(text(extract_text(&g, &s)), Some("l".to_string()));
}

#[test]
fn out_of_grid_selection_extracts_nothing() {
    let g = grid(&["hello"], 5);
    let s = sel(SelectionKind::Cell, pt(0, 0), pt(3, 1));
    assert_eq!(span(&g, &s), None);
    assert_eq!(extract_text(&g, &s), None);
}

#[test]
fn cell_selection_across_lines() {
    let g = grid(&["hello", "world"], 5);
    let s = sel(SelectionKind::Cell, pt(0, 3), pt(1, 1));
    assert_eq!(text(extract_text(&g, &s)), Some("lo\nwo".to_string()));
}

#[test]
fn cell_selection_past_last_column_reaches_end_of_line() {
    let g = grid(&["hello"], 5);
    let s = sel(SelectionKind::Cell, pt(0, 2), pt(0, 40));
    assert_eq!(text(extract_text(&g, &s)), Some("llo".to_string()));
}

#[test]
fn word_selection_snaps_to_word_at_any_offset() {
    let g = grid(&["hello world"], 11);
    // the `o` of `hello` is column 4, pixels 40..50
    for x in [40u32, 43, 45, 49] {
        let mut pane = sized_pane(11, 1);
        let action =
            pane.handle_pointer(&g, PointerEvent::Down { x, y: 5, button: Button::Left, count: 2 });
        assert!(matches!(action, PaneAction::Repaint));
        let s = pane.selection.unwrap();
        assert_eq!(s.kind, SelectionKind::Word);
        assert_eq!(text(extract_text(&g, &s)), Some("hello".to_string()));
    }
}

#[test]
fn word_selection_of_second_word() {
    let g = grid(&["hello world"], 11);
    let s = sel(SelectionKind::Word, pt(0, 8), pt(0, 8));
    assert_eq!(text(extract_text(&g, &s)), Some("world".to_string()));
    let sp = span(&g, &s).unwrap();
    assert_eq!(sp.start, pt(0, 6));
    assert_eq!(sp.end, pt(0, 10));
}

#[test]
fn word_selection_on_separator_is_that_cell() {
    let g = grid(&["a(b)c"], 5);
    let s = sel(SelectionKind::Word, pt(0, 1), pt(0, 1));
    assert_eq!(text(extract_text(&g, &s)), Some("(".to_string()));
}

#[test]
fn line_selection_takes_whole_lines() {
    let g = grid(&["ab", "cd", "ef"], 2);
    let s = sel(SelectionKind::Line, pt(0, 1), pt(1, 0));
    assert_eq!(text(extract_text(&g, &s)), Some("ab\ncd".to_string()));
}

#[test]
fn block_selection_gives_one_range_per_line() {
    let g = grid(&["abcdef", "ghijkl", "mnopqr"], 6);
    let s = sel(SelectionKind::Block, pt(0, 4), pt(2, 1));
    let sp = span(&g, &s).unwrap();
    assert!(sp.is_block);
    let rs = line_ranges(&sp, g.columns);
    assert_eq!(
        rs,
        vec![
            LineRange { line: 0, first: 1, last: 4 },
            LineRange { line: 1, first: 1, last: 4 },
            LineRange { line: 2, first: 1, last: 4 },
        ]
    );
    assert_eq!(text(extract_text(&g, &s)), Some("bcde\nhijk\nnopq".to_string()));
}

#[test]
fn contiguous_selection_ranges_span_full_middle_lines() {
    let g = grid(&["abcdef", "ghijkl", "mnopqr"], 6);
    let s = sel(SelectionKind::Cell, pt(0, 4), pt(2, 1));
    let sp = span(&g, &s).unwrap();
    let rs = line_ranges(&sp, g.columns);
    assert_eq!(
        rs,
        vec![
            LineRange { line: 0, first: 4, last: 5 },
            LineRange { line: 1, first: 0, last: 5 },
            LineRange { line: 2, first: 0, last: 1 },
        ]
    );
}

#[test]
fn pixel_to_grid_point() {
    let m = CharMetrics { col_width: 10, row_height: 20 };
    assert_eq!(point_at_pixel(35, 45, m, 0), pt(2, 3));
    assert_eq!(point_at_pixel(35, 45, m, 5), pt(-3, 3));
    assert_eq!(point_at_pixel(5000, 0, m, 0), pt(0, 500));
}

#[test]
fn drag_extends_selection_keeping_anchor() {
    let g = grid(&["hello world"], 11);
    let mut pane = sized_pane(11, 1);
    pane.handle_pointer(&g, PointerEvent::Move { x: 15, y: 5, left_held: true });
    pane.handle_pointer(&g, PointerEvent::Move { x: 75, y: 5, left_held: true });
    let s = pane.selection.unwrap();
    assert_eq!(s.kind, SelectionKind::Cell);
    assert_eq!(s.anchor, pt(0, 1));
    assert_eq!(s.head, pt(0, 7));
    assert_eq!(text(extract_text(&g, &s)), Some("ello wo".to_string()));
    let a = pane.handle_pointer(&g, PointerEvent::Move { x: 95, y: 5, left_held: false });
    assert!(matches!(a, PaneAction::Ignore));
    assert_eq!(pane.selection.unwrap().head, pt(0, 7));
}

#[test]
fn right_click_copies_then_pastes() {
    let g = grid(&["hello world"], 11);
    let mut pane = sized_pane(11, 1);
    pane.selection = Some(sel(SelectionKind::Cell, pt(0, 0), pt(0, 4)));
    let down = PointerEvent::Down { x: 0, y: 0, button: Button::Right, count: 1 };
    match pane.handle_pointer(&g, down) {
        PaneAction::Copy(v) => assert_eq!(v.into_iter().collect::<String>(), "hello"),
        other => panic!("unexpected {:?}", other),
    }
    assert_eq!(pane.selection, None);
    assert!(matches!(pane.handle_pointer(&g, down), PaneAction::Paste));
}

#[test]
fn single_click_clears_and_triple_click_selects_line() {
    let g = grid(&["hello", "world"], 5);
    let mut pane = sized_pane(5, 2);
    pane.selection = Some(sel(SelectionKind::Cell, pt(0, 0), pt(0, 4)));
    pane.handle_pointer(&g, PointerEvent::Down { x: 0, y: 0, button: Button::Left, count: 1 });
    assert_eq!(pane.selection, None);
    pane.handle_pointer(&g, PointerEvent::Down { x: 12, y: 25, button: Button::Left, count: 3 });
    let s = pane.selection.unwrap();
    assert_eq!(s.kind, SelectionKind::Line);
    assert_eq!(text(extract_text(&g, &s)), Some("world".to_string()));
}

// ---- search ----

#[test]
fn search_matches_come_in_order_and_end() {
    let g = grid(&["xaby", "abab"], 4);
    let ms = search_visible(&g, &vec!['a', 'b']);
    assert_eq!(
        ms,
        vec![
            SearchMatch { start: pt(0, 1), end: pt(0, 3) },
            SearchMatch { start: pt(1, 0), end: pt(1, 2) },
            SearchMatch { start: pt(1, 2), end: pt(1, 4) },
        ]
    );
    for w in ms.windows(2) {
        let (a, b) = (w[0].start, w[1].start);
        assert!(a.line < b.line || (a.line == b.line && a.column < b.column));
    }
}

#[test]
fn search_single_char_at_last_column_terminates() {
    let g = grid(&["aaaa", "aaaa"], 4);
    let ms = search_visible(&g, &vec!['a']);
    assert_eq!(ms.len(), 8);
    assert_eq!(ms[7], SearchMatch { start: pt(1, 3), end: pt(1, 4) });
}

#[test]
fn search_matches_do_not_overlap() {
    let g = grid(&["aaa"], 3);
    let ms = search_visible(&g, &vec!['a', 'a']);
    assert_eq!(ms, vec![SearchMatch { start: pt(0, 0), end: pt(0, 2) }]);
}

#[test]
fn search_empty_pattern_finds_nothing() {
    let g = grid(&["abc"], 3);
    assert!(search_visible(&g, &vec![]).is_empty());
}

#[test]
fn search_match_width_counts_wide_last_char() {
    let g = grid(&["a\u{4e2d} "], 4);
    let ms = search_visible(&g, &vec!['a', '\u{4e2d}']);
    assert_eq!(ms, vec![SearchMatch { start: pt(0, 0), end: pt(0, 3) }]);
}

#[test]
fn search_window_starts_in_scrollback() {
    let mut g = grid(&["ab..", "....", "..ab"], 4);
    g.screen_lines = 2;
    g.display_offset = 1;
    let ms = search_visible(&g, &vec!['a', 'b']);
    assert_eq!(
        ms,
        vec![
            SearchMatch { start: pt(-1, 0), end: pt(-1, 2) },
            SearchMatch { start: pt(1, 2), end: pt(1, 4) },
        ]
    );
}

#[test]
fn next_match_from_cursor() {
    let g = grid(&["xaby", "abab"], 4);
    let p = vec!['a', 'b'];
    assert_eq!(next_match_from(&g, &p, 0), Some(1));
    assert_eq!(next_match_from(&g, &p, 2), Some(4));
    assert_eq!(next_match_from(&g, &p, 7), None);
}

#[test]
fn unicode_widths() {
    assert_eq!(cell_columns('a'), 1);
    assert_eq!(cell_columns('\u{4e2d}'), 2);
    assert_eq!(cell_columns('\u{7}'), 1);
    assert_eq!(cell_columns('\u{301}'), 0);
}

// ---- pane ----

#[test]
fn resize_recomputes_grid_size() {
    let mut pane = sized_pane(80, 24);
    assert_eq!((pane.columns, pane.lines), (80, 24));
    let changed = pane.resize(400, 240, CharMetrics { col_width: 10, row_height: 20 });
    assert!(changed);
    assert_eq!((pane.columns, pane.lines), (40, 12));
    let changed = pane.resize(405, 250, CharMetrics { col_width: 10, row_height: 20 });
    assert!(!changed);
    let changed = pane.resize(405, 250, CharMetrics { col_width: 0, row_height: 20 });
    assert!(changed);
    assert_eq!((pane.columns, pane.lines), (0, 12));
}

#[test]
fn resize_then_paint_stays_inside() {
    let mut pane = sized_pane(80, 24);
    pane.resize(400, 240, CharMetrics { col_width: 10, row_height: 20 });
    let line = "\u{4e2d}".repeat(40);
    let lines: Vec<&str> = (0..12).map(|_| line.as_str()).collect();
    let mut g = grid(&lines, 40);
    g.cursor = pt(11, 39);
    let mut t = theme();
    t.background = RED;
    let ops = paint(&g, &pane, true, &t, &None);
    assert!(ops.len() > 40 * 12);
    for op in ops {
        match op {
            DrawOp::Fill { rect, .. } | DrawOp::Stroke { rect, .. } => {
                assert!(rect.x1 <= 400 && rect.y1 <= 240, "{:?}", rect)
            }
            DrawOp::Glyph { x, y, .. } => assert!(x < 400 && y < 240),
        }
    }
}

#[test]
fn session_is_told_to_end_once() {
    let mut pane = TerminalPane::new(3, 1);
    assert!(pane.close_session());
    assert!(!pane.close_session());
}

#[test]
fn navigation_mode_does_not_forward_keys() {
    let mut pane = TerminalPane::new(3, 1);
    assert!(pane.forwards_keys());
    pane.set_mode(PaneMode::Navigation);
    assert!(!pane.forwards_keys());
}

// ---- paint ----

#[test]
fn paint_cell_and_cursor_ops() {
    let pane = sized_pane(2, 1);
    let mut g = grid(&["a "], 2);
    g.rows[0][1].bg = RED;
    let ops = paint(&g, &pane, true, &theme(), &None);
    let t = theme();
    assert_eq!(
        ops,
        vec![
            DrawOp::Fill { rect: PixelRect { x0: 0, y0: 0, x1: 20, y1: 20 }, color: BLACK },
            DrawOp::Fill { rect: PixelRect { x0: 0, y0: 0, x1: 10, y1: 20 }, color: t.cursor },
            DrawOp::Glyph { x: 0, y: 0, c: 'a', color: BLACK, bold: false },
            DrawOp::Fill { rect: PixelRect { x0: 10, y0: 0, x1: 20, y1: 20 }, color: RED },
        ]
    );
    let ops = paint(&g, &pane, false, &theme(), &None);
    assert_eq!(
        ops[1],
        DrawOp::Stroke { rect: PixelRect { x0: 0, y0: 0, x1: 10, y1: 20 }, color: t.cursor }
    );
    assert_eq!(ops[2], DrawOp::Glyph { x: 0, y: 0, c: 'a', color: WHITE, bold: false });
}

#[test]
fn paint_dim_inverse_and_bold() {
    let pane = sized_pane(2, 1);
    let mut g = grid(&["ab"], 2);
    g.cursor = pt(0, 1);
    g.rows[0][0].flags = CellFlags { bold: false, dim: true, dim_bold: false, inverse: true };
    g.rows[0][1].flags = CellFlags { bold: false, dim: false, dim_bold: true, inverse: false };
    let ops = paint(&g, &pane, false, &theme(), &None);
    let dim_white = Rgba { a: 168, ..WHITE };
    assert_eq!(ops[1], DrawOp::Fill { rect: PixelRect { x0: 0, y0: 0, x1: 10, y1: 20 }, color: dim_white });
    assert_eq!(ops[2], DrawOp::Glyph { x: 0, y: 0, c: 'a', color: BLACK, bold: false });
    assert_eq!(ops[4], DrawOp::Glyph { x: 10, y: 0, c: 'b', color: dim_white, bold: true });
}

#[test]
fn paint_selection_and_navigation_bar() {
    let mut pane = sized_pane(3, 2);
    let g = grid(&["abc", "def"], 3);
    pane.set_mode(PaneMode::Navigation);
    let t = theme();
    let ops = paint(&g, &pane, false, &t, &None);
    assert_eq!(ops[1], DrawOp::Fill { rect: PixelRect { x0: 0, y0: 0, x1: 30, y1: 20 }, color: t.current_line });
    assert_eq!(ops[2], DrawOp::Stroke { rect: PixelRect { x0: 0, y0: 0, x1: 10, y1: 20 }, color: t.caret });
    pane.selection = Some(sel(SelectionKind::Cell, pt(0, 1), pt(1, 0)));
    let ops = paint(&g, &pane, false, &t, &None);
    assert_eq!(ops[1], DrawOp::Fill { rect: PixelRect { x0: 10, y0: 0, x1: 30, y1: 20 }, color: t.selection });
    assert_eq!(ops[2], DrawOp::Fill { rect: PixelRect { x0: 0, y0: 20, x1: 10, y1: 40 }, color: t.selection });
}

#[test]
fn paint_outlines_search_matches() {
    let pane = sized_pane(4, 2);
    let g = grid(&["xaby", "abab"], 4);
    let t = theme();
    let ops = paint(&g, &pane, false, &t, &Some(vec!['a', 'b']));
    let n = ops.len();
    assert_eq!(
        &ops[n - 3..],
        &[
            DrawOp::Stroke { rect: PixelRect { x0: 10, y0: 0, x1: 30, y1: 20 }, color: WHITE },
            DrawOp::Stroke { rect: PixelRect { x0: 0, y0: 20, x1: 20, y1: 40 }, color: WHITE },
            DrawOp::Stroke { rect: PixelRect { x0: 20, y0: 20, x1: 40, y1: 40 }, color: WHITE },
        ]
    );
}

// ---- split, collection, panel ----

#[test]
fn split_group_add_remove_and_active() {
    let mut s = SplitGroup::new(5);
    assert!(s.is_empty());
    assert!(s.add_pane(TerminalPane::new(1, 0)));
    assert!(s.add_pane(TerminalPane::new(2, 0)));
    assert!(!s.add_pane(TerminalPane::new(2, 0)));
    assert_eq!(s.active_pane().unwrap().pane_id, 2);
    assert_eq!(s.panes[0].split_id, 5);
    assert_eq!(s.remove_pane(9), None);
    assert_eq!(s.remove_pane(2), Some(true));
    assert_eq!(s.active_pane_id, 1);
    assert_eq!(s.close_all(), vec![1]);
    assert!(s.is_empty());
    assert!(s.active_pane().is_none());
}

#[test]
fn tab_keys_agree_after_open_close_prune() {
    let mut c = TerminalCollection::new();
    let ids: Vec<u64> = (0..5).map(|_| c.open_tab()).collect();
    for (n, id) in ids.iter().enumerate() {
        c.add_pane(*id, TerminalPane::new(100 + n as u64, 0));
    }
    c.close_tab(ids[1]);
    c.close_tab(ids[3]);
    c.close_tab(12345);
    c.prune_empty();
    let mut order = c.tab_order.clone();
    let mut keys: Vec<u64> = c.tabs.keys().copied().collect();
    order.sort();
    keys.sort();
    assert_eq!(order, keys);
    assert_eq!(c.tab_order, vec![ids[0], ids[2], ids[4]]);
}

#[test]
fn prune_cost_is_linear_in_tabs() {
    let n = 50usize;
    let mut c = TerminalCollection::new();
    let ids: Vec<u64> = (0..n).map(|_| c.open_tab()).collect();
    for id in &ids {
        c.add_pane(*id, TerminalPane::new(1000 + id, 0));
    }
    let cost = c.prune_empty();
    assert_eq!((cost.scanned, cost.rebuilt), (n, 0));
    for id in ids.iter().step_by(2) {
        c.close_tab(*id);
    }
    let cost = c.prune_empty();
    assert_eq!(cost.scanned, n);
    assert_eq!(cost.rebuilt, n);
    assert!(cost.scanned + cost.rebuilt <= 2 * n);
    assert_eq!(c.tab_count(), n / 2);
}

#[test]
fn active_index_clamps() {
    let mut c = TerminalCollection::new();
    let a = c.open_tab();
    let b = c.open_tab();
    c.add_pane(a, TerminalPane::new(1, 0));
    c.add_pane(b, TerminalPane::new(2, 0));
    c.select_tab(7);
    assert_eq!(c.active_tab_index, 1);
    c.close_tab(b);
    c.prune_empty();
    assert_eq!(c.active_tab_index, 0);
    assert_eq!(c.active_tab_id(), Some(a));
    assert_eq!(c.active_split().unwrap().split_id, a);
}

#[test]
fn closing_last_pane_returns_focus_to_main() {
    let mut panel = TerminalPanel::new(Some(99));
    panel.set_visible(true);
    let tab = match panel.handle_focus() {
        PanelIntent::NewTerminal(t) => t,
        other => panic!("unexpected {:?}", other),
    };
    assert!(panel.collection.add_pane(tab, TerminalPane::new(42, 0)));
    assert_eq!(panel.handle_focus(), PanelIntent::Focus(42));
    assert_eq!(panel.focus.owner, Some(42));
    assert_eq!(panel.focus.area, FocusArea::Terminal);
    assert_eq!(panel.close_pane(tab, 42), Some(true));
    assert_eq!(panel.close_pane(tab, 42), None);
    assert_eq!(panel.settle(), PanelIntent::Focus(99));
    assert!(panel.collection.is_empty());
    assert!(!panel.visible);
    assert_eq!(panel.focus.owner, Some(99));
    assert_eq!(panel.focus.area, FocusArea::Editor);
}

#[test]
fn closing_one_tab_of_two_focuses_remaining_pane() {
    let mut panel = TerminalPanel::new(None);
    let a = panel.collection.open_tab();
    let b = panel.collection.open_tab();
    panel.collection.add_pane(a, TerminalPane::new(1, 0));
    panel.collection.add_pane(b, TerminalPane::new(2, 0));
    assert!(panel.request_focus(b, 2));
    assert!(!panel.request_focus(b, 1));
    panel.collection.select_tab(1);
    assert_eq!(panel.close_tab(b), vec![2]);
    assert_eq!(panel.settle(), PanelIntent::Focus(1));
    assert_eq!(panel.focus.owner, Some(1));
    assert_eq!(panel.settle(), PanelIntent::Nothing);
}

#[test]
fn picker_closes_on_focus_loss() {
    let mut panel = TerminalPanel::new(None);
    panel.open_picker();
    panel.picker_focus_changed(true);
    assert!(panel.picker_open);
    panel.picker_focus_changed(false);
    assert!(!panel.picker_open);
}

#[test]
fn grid_shape_is_checked() {
    let mut g = grid(&["ab", "cd"], 2);
    assert!(g.is_well_formed());
    g.rows[1].pop();
    assert!(!g.is_well_formed());
    let mut g = grid(&["ab"], 2);
    g.display_offset = 1;
    assert!(!g.is_well_formed());
}

#[test]
fn select_tab_by_id() {
    let mut c = TerminalCollection::new();
    let a = c.open_tab();
    let b = c.open_tab();
    assert_eq!(c.active_tab_index, 0);
    assert!(c.select_tab_id(b));
    assert_eq!(c.active_tab_id(), Some(b));
    assert!(!c.select_tab_id(777));
    assert_eq!(c.active_tab_id(), Some(b));
    assert!(c.select_tab_id(a));
    assert_eq!(c.active_tab_index, 0);
}

#[test]
fn search_query_count_is_bounded() {
    let g = grid(&["aaay", "aaay"], 4);
    let pass = search_visible_counted(&g, &vec!['y']);
    assert_eq!(pass.matches.len(), 2);
    assert_eq!(pass.matches[1], SearchMatch { start: pt(1, 3), end: pt(1, 4) });
    assert!(pass.queries <= 8);
    assert_eq!(pass.queries, 2);
    let pass = search_visible_counted(&g, &vec!['a']);
    assert_eq!(pass.matches.len(), 6);
    assert!(pass.queries <= 8);
}

#[test]
fn icon_hit_test_picks_first_holding_rect() {
    let icons = vec![
        PixelRect { x0: 0, y0: 0, x1: 10, y1: 10 },
        PixelRect { x0: 5, y0: 0, x1: 20, y1: 10 },
    ];
    assert_eq!(icon_at(&icons, 7, 3), Some(0));
    assert_eq!(icon_at(&icons, 10, 3), Some(1));
    assert_eq!(icon_at(&icons, 20, 3), None);
    assert_eq!(icon_at(&icons, 7, 10), None);
}

#[test]
fn removing_a_closed_pane_does_not_signal_again() {
    let mut c = TerminalCollection::new();
    let t = c.open_tab();
    let mut p = TerminalPane::new(4, 0);
    p.close_session();
    c.add_pane(t, p);
    c.add_pane(t, TerminalPane::new(5, 0));
    assert_eq!(c.remove_pane(t, 4), Some(false));
    assert_eq!(c.remove_pane(t, 5), Some(true));
    assert_eq!(c.remove_pane(t, 5), None);
}

#[test]
fn deep_scrollback_grid_is_accepted() {
    let mut g = grid(&["ab"; 3], 2);
    let extra: Vec<Vec<Cell>> = (0..70_000).map(|_| vec![cell('x'); 2]).collect();
    let screen = std::mem::take(&mut g.rows);
    g.rows = extra;
    g.rows.extend(screen);
    g.display_offset = 69_999;
    assert!(g.is_well_formed());
    let s = sel(SelectionKind::Cell, pt(-69_999, 0), pt(-69_999, 1));
    assert_eq!(text(extract_text(&g, &s)), Some("xx".to_string()));
    let ms = search_visible(&g, &vec!['x', 'x']);
    // the window plus the extra line below it, all in scrollback
    assert_eq!(ms.len(), 4);
    assert_eq!(ms[0].start, pt(-69_999, 0));
}
