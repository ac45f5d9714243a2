//! One terminal session's view: its size in pixels and in cells, its input
//! mode, its selection, and whether its session has been told to end.
use crate::grid::{CharMetrics, Grid, GridPoint, MAX_GRID_ROWS};
use crate::selection::{
    begin_or_extend, extended, extract_text, pixel_point, point_at_pixel, selection_text, SelectionKind, SelectionRange,
};
use vstd::prelude::*;

verus! {

/// What keystrokes in a pane do.
#[derive(Clone, Copy, Debug, PartialEq, Eq, Structural)]
pub enum PaneMode {
    /// Keystrokes go to the shell.
    Interactive,
    /// Keystrokes are panel commands (selection, scrolling).
    Navigation,
}

/// A mouse button.
#[derive(Clone, Copy, Debug, PartialEq, Eq, Structural)]
pub enum Button {
    Left,
    Right,
    Middle,
}

/// Pointer input on a pane, in pixels relative to its top left corner.
#[derive(Clone, Copy, Debug, PartialEq, Eq, Structural)]
pub enum PointerEvent {
    /// A button went down; `count` is 1 for a single click, 2 for a double
    /// click, 3 for a triple click.
    Down { x: u32, y: u32, button: Button, count: u32 },
    /// The pointer moved; `left_held` tells whether the left button is down.
    Move { x: u32, y: u32, left_held: bool },
}

/// What the caller has to do after a pointer event.
#[derive(Debug)]
pub enum PaneAction {
    /// Nothing beyond a repaint.
    Repaint,
    /// Put this text on the clipboard.
    Copy(Vec<char>),
    /// Read the clipboard; if it holds text, write it to the session and
    /// scroll the session to the bottom.
    Paste,
    /// Nothing changed.
    Ignore,
}

/// A pane. Its grid size follows from its pixel size and the cell size of
/// the font; `session_open` is true until the session is told to end.
#[derive(Clone, Copy, Debug, PartialEq, Eq, Structural)]
pub struct TerminalPane {
    pub pane_id: u64,
    pub split_id: u64,
    pub width_px: u32,
    pub height_px: u32,
    pub metrics: CharMetrics,
    pub columns: usize,
    pub lines: usize,
    pub mode: PaneMode,
    pub selection: Option<SelectionRange>,
    pub session_open: bool,
}

/// Whole cells of `cell` pixels that fit in `px` pixels; none when the
/// cell size is unknown (zero).
pub open spec fn cells_in(px: u32, cell: u32) -> nat {
    if cell == 0 {
        0
    } else {
        (px / cell) as nat
    }
}

impl TerminalPane {
    pub open spec fn wf(&self) -> bool {
        &&& self.columns == cells_in(self.width_px, self.metrics.col_width)
        &&& self.lines == cells_in(self.height_px, self.metrics.row_height)
    }

    /// Keystrokes that the key map did not take go to the shell.
    pub open spec fn sends_keys(&self) -> bool {
        self.mode == PaneMode::Interactive
    }

    /// A pane of no size yet, in interactive mode, with no selection and an
    /// open session.
    pub fn new(pane_id: u64, split_id: u64) -> (r: TerminalPane)
        ensures
            r.wf(),
            r.pane_id == pane_id,
            r.split_id == split_id,
            r.width_px == 0 && r.height_px == 0,
            r.metrics == (CharMetrics { col_width: 0, row_height: 0 }),
            r.mode == PaneMode::Interactive,
            r.selection is None,
            r.session_open,
    {
        TerminalPane {
            pane_id,
            split_id,
            width_px: 0,
            height_px: 0,
            metrics: CharMetrics { col_width: 0, row_height: 0 },
            columns: 0,
            lines: 0,
            mode: PaneMode::Interactive,
            selection: None,
            session_open: true,
        }
    }

    /// Takes a new pixel size and cell size and recomputes the grid size.
    /// Returns whether the grid size changed, in which case the session must
    /// be resized to `columns` by `lines` before the next paint.
    pub fn resize(&mut self, width_px: u32, height_px: u32, metrics: CharMetrics) -> (changed:
        bool)
        ensures
            final(self).wf(),
            *final(self) == (TerminalPane {
                width_px,
                height_px,
                metrics,
                columns: cells_in(width_px, metrics.col_width) as usize,
                lines: cells_in(height_px, metrics.row_height) as usize,
                ..*old(self)
            }),
            changed == (old(self).columns != final(self).columns || old(self).lines
                != final(self).lines),
    {
        let columns: usize = if metrics.col_width == 0 {
            0
        } else {
            (width_px / metrics.col_width) as usize
        };
        let lines: usize = if metrics.row_height == 0 {
            0
        } else {
            (height_px / metrics.row_height) as usize
        };
        let changed = self.columns != columns || self.lines != lines;
        self.width_px = width_px;
        self.height_px = height_px;
        self.metrics = metrics;
        self.columns = columns;
        self.lines = lines;
        changed
    }

    /// Marks the session as told to end. Returns true exactly when this call
    /// is the one that must tell it, so that a session ends once.
    pub fn close_session(&mut self) -> (signal: bool)
        ensures
            signal == old(self).session_open,
            *final(self) == (TerminalPane { session_open: false, ..*old(self) }),
    {
        let signal = self.session_open;
        self.session_open = false;
        signal
    }

    pub fn set_mode(&mut self, mode: PaneMode)
        ensures
            *final(self) == (TerminalPane { mode, ..*old(self) }),
    {
        self.mode = mode;
    }

    pub fn clear_selection(&mut self)
        ensures
            *final(self) == (TerminalPane { selection: None, ..*old(self) }),
    {
        self.selection = None;
    }

    /// Starts or extends the selection at the cell under pixel `(x, y)`.
    pub fn select_at(&mut self, x: u32, y: u32, kind: SelectionKind, display_offset: usize)
        requires
            old(self).metrics.col_width > 0,
            old(self).metrics.row_height > 0,
            display_offset <= MAX_GRID_ROWS,
        ensures
            final(self).selection == Some(
                extended(old(self).selection, pixel_point(x, y, old(self).metrics, display_offset), kind),
            ),
            *final(self) == (TerminalPane { selection: final(self).selection, ..*old(self) }),
    {
        let p = point_at_pixel(x, y, self.metrics, display_offset);
        self.selection = Some(begin_or_extend(self.selection, p, kind));
    }

    /// Whether a selection can be placed from pixels: the cell size is known.
    pub open spec fn can_select(&self) -> bool {
        self.metrics.col_width > 0 && self.metrics.row_height > 0
    }

    /// Reacts to pointer input over `g`, the snapshot of this pane's session.
    /// A right click copies the selection and clears it, or asks for a paste
    /// when there is none; a double click starts a word selection; a triple
    /// click starts a line selection afresh; any other left click clears the
    /// selection; dragging with the left button extends a cell selection.
    /// Selections need a known cell size; without one they are left alone.
    pub fn handle_pointer(&mut self, g: &Grid, ev: PointerEvent) -> (r: PaneAction)
        requires
            g.wf(),
        ensures
            match ev {
                PointerEvent::Down { button: Button::Right, .. } => match old(self).selection {
                    Some(s) => match selection_text(*g, s) {
                        Some(t) => r matches PaneAction::Copy(v) && v@ == t && *final(self) == (
                        TerminalPane { selection: None, ..*old(self) }),
                        None => r is Paste && *final(self) == *old(self),
                    },
                    None => r is Paste && *final(self) == *old(self),
                },
                PointerEvent::Down { x, y, button: Button::Left, count } => {
                    &&& r is Repaint
                    &&& *final(self) == (TerminalPane { selection: final(self).selection, ..*old(self) })
                    &&& final(self).selection == if !old(self).can_select() {
                        if count == 2 { old(self).selection } else { None }
                    } else if count == 2 {
                        Some(extended(old(self).selection, pixel_point(x, y, old(self).metrics, g.display_offset), SelectionKind::Word))
                    } else if count == 3 {
                        Some(extended(None, pixel_point(x, y, old(self).metrics, g.display_offset), SelectionKind::Line))
                    } else {
                        None
                    }
                },
                PointerEvent::Down { button: Button::Middle, .. } => r is Ignore && *final(self) == *old(self),
                PointerEvent::Move { x, y, left_held } => if left_held && old(self).can_select() {
                    &&& r is Repaint
                    &&& *final(self) == (TerminalPane {
                        selection: Some(extended(old(self).selection, pixel_point(x, y, old(self).metrics, g.display_offset), SelectionKind::Cell)),
                        ..*old(self)
                    })
                } else {
                    r is Ignore && *final(self) == *old(self)
                },
            },
    {
        match ev {
            PointerEvent::Down { button: Button::Right, .. } => {
                match self.selection {
                    Some(s) => match extract_text(g, &s) {
                        Some(text) => {
                            self.selection = None;
                            PaneAction::Copy(text)
                        },
                        None => PaneAction::Paste,
                    },
                    None => PaneAction::Paste,
                }
            },
            PointerEvent::Down { x, y, button: Button::Left, count } => {
                let ready = self.metrics.col_width > 0 && self.metrics.row_height > 0;
                if count == 2 {
                    if ready {
                        self.select_at(x, y, SelectionKind::Word, g.display_offset);
                    }
                } else {
                    self.selection = None;
                    if count == 3 && ready {
                        self.select_at(x, y, SelectionKind::Line, g.display_offset);
                    }
                }
                PaneAction::Repaint
            },
            PointerEvent::Down { button: Button::Middle, .. } => PaneAction::Ignore,
            PointerEvent::Move { x, y, left_held } => {
                if left_held && self.metrics.col_width > 0 && self.metrics.row_height > 0 {
                    self.select_at(x, y, SelectionKind::Cell, g.display_offset);
                    PaneAction::Repaint
                } else {
                    PaneAction::Ignore
                }
            },
        }
    }

    /// Whether a keystroke that the key map did not take goes to the shell.
    pub fn forwards_keys(&self) -> (r: bool)
        ensures
            r == self.sends_keys(),
    {
        self.mode == PaneMode::Interactive
    }
}

} // verus!
