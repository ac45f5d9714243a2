//! The panel around the collection: who holds keyboard focus, whether the
//! panel shows, and the rules that move focus when panes are clicked, tabs
//! close or the panel is asked for focus.
use crate::collection::{has_empty_tab, pruned, TerminalCollection};
use crate::pane::TerminalPane;
use vstd::prelude::*;

verus! {

/// The part of the window that holds keyboard focus.
#[derive(Clone, Copy, Debug, PartialEq, Eq, Structural)]
pub enum FocusArea {
    /// The main editor area.
    Editor,
    /// The terminal panel.
    Terminal,
}

/// The one record of which widget owns keyboard focus, and where.
#[derive(Clone, Copy, Debug, PartialEq, Eq, Structural)]
pub struct FocusRouter {
    pub owner: Option<u64>,
    pub area: FocusArea,
}

/// What the caller has to do after a panel operation.
#[derive(Clone, Copy, Debug, PartialEq, Eq, Structural)]
pub enum PanelIntent {
    Nothing,
    /// Give keyboard focus to this widget.
    Focus(u64),
    /// This tab was opened empty: start a session and add its pane.
    NewTerminal(u64),
}

pub struct TerminalPanel {
    pub collection: TerminalCollection,
    pub focus: FocusRouter,
    pub visible: bool,
    /// The main editor widget that was active last, recorded from outside.
    pub previous_main: Option<u64>,
    /// The profile picker popover is shown.
    pub picker_open: bool,
}

/// Focus on pane `pane` of the terminal panel.
pub open spec fn pane_focus(pane: u64) -> FocusRouter {
    FocusRouter { owner: Some(pane), area: FocusArea::Terminal }
}

/// The active pane of the active tab, if there is one.
pub open spec fn active_pane_of(c: TerminalCollection) -> Option<u64> {
    match c.active_id() {
        Some(t) => if !c.tabs@[t].empty() {
            Some(c.tabs@[t].active_pane_id)
        } else {
            None
        },
        None => None,
    }
}

/// `after` is `before` once the emptied tabs have been removed and focus
/// has moved as they require, `r` telling the caller what to do.
pub open spec fn settled(before: TerminalPanel, after: TerminalPanel, r: PanelIntent) -> bool {
    &&& pruned(before.collection, after.collection)
    &&& after.previous_main == before.previous_main
    &&& if !has_empty_tab(before.collection) {
        &&& r == PanelIntent::Nothing
        &&& after.focus == before.focus
        &&& after.visible == before.visible
    } else if after.collection.tab_order@.len() == 0 {
        &&& !after.visible
        &&& after.focus == (FocusRouter { owner: before.previous_main, area: FocusArea::Editor })
        &&& r == match before.previous_main {
            Some(w) => PanelIntent::Focus(w),
            None => PanelIntent::Nothing,
        }
    } else {
        &&& active_pane_of(after.collection) is Some
        &&& after.focus == pane_focus(active_pane_of(after.collection)->0)
        &&& r == PanelIntent::Focus(active_pane_of(after.collection)->0)
        &&& after.visible == before.visible
    }
}

/// `after` is `before` with pane `pane` of tab `tab` removed (its session
/// told to end), and nothing else changed.
pub open spec fn pane_closed(
    before: TerminalPanel,
    after: TerminalPanel,
    tab: u64,
    pane: u64,
    r: Option<bool>,
) -> bool {
    &&& after.collection.wf()
    &&& after.collection.tab_order@ == before.collection.tab_order@
    &&& after.collection.active_tab_index == before.collection.active_tab_index
    &&& after.collection.next_id == before.collection.next_id
    &&& after.collection.tabs@.dom() == before.collection.tabs@.dom()
    &&& forall|x: u64|
        x != tab && #[trigger] before.collection.tabs@.contains_key(x) ==> after.collection.tabs@[x]
            == before.collection.tabs@[x]
    &&& r is Some <==> (before.collection.tabs@.contains_key(tab)
        && before.collection.tabs@[tab].holds(pane))
    &&& r matches Some(signal) ==> exists|i: int|
        0 <= i < before.collection.tabs@[tab].panes@.len()
            && before.collection.tabs@[tab].panes@[i].pane_id == pane
            && signal == before.collection.tabs@[tab].panes@[i].session_open
            && after.collection.tabs@[tab].panes@ == before.collection.tabs@[tab].panes@.remove(i)
    &&& before.collection.tabs@.contains_key(tab) ==> after.collection.tabs@[tab].pane_ids()
        == before.collection.tabs@[tab].pane_ids().remove(pane)
    &&& after.focus == before.focus
    &&& after.visible == before.visible
    &&& after.previous_main == before.previous_main
}

/// The active pane of the active tab.
fn active_pane_id(c: &TerminalCollection) -> (r: Option<u64>)
    requires
        c.wf(),
    ensures
        r == active_pane_of(*c),
{
    proof {
        if c.tab_order@.len() > 0 {
            let t = c.tab_order@[c.active_tab_index as int];
            assert(c.tab_order@.contains(t));
            assert(c.tabs@.contains_key(t));
        }
    }
    match c.active_split() {
        None => None,
        Some(group) => match group.active_pane() {
            Some(p) => Some(p.pane_id),
            None => None,
        },
    }
}

impl TerminalPanel {
    pub open spec fn wf(&self) -> bool {
        self.collection.wf()
    }

    /// A hidden panel with no tabs; focus stays with `previous_main`.
    pub fn new(previous_main: Option<u64>) -> (r: TerminalPanel)
        ensures
            r.wf(),
            r.collection.tab_order@.len() == 0,
            !r.visible,
            r.focus == (FocusRouter { owner: previous_main, area: FocusArea::Editor }),
            r.previous_main == previous_main,
            !r.picker_open,
    {
        TerminalPanel {
            collection: TerminalCollection::new(),
            focus: FocusRouter { owner: previous_main, area: FocusArea::Editor },
            visible: false,
            previous_main,
            picker_open: false,
        }
    }

    /// Records the main editor widget that focus returns to when the panel
    /// empties.
    pub fn set_previous_main(&mut self, widget: Option<u64>)
        ensures
            final(self).previous_main == widget,
            final(self).collection == old(self).collection,
            final(self).focus == old(self).focus,
            final(self).visible == old(self).visible,
    {
        self.previous_main = widget;
    }

    pub fn set_visible(&mut self, visible: bool)
        ensures
            final(self).visible == visible,
            final(self).collection == old(self).collection,
            final(self).focus == old(self).focus,
            final(self).previous_main == old(self).previous_main,
    {
        self.visible = visible;
    }

    /// Shows the profile picker popover.
    pub fn open_picker(&mut self)
        ensures
            final(self).picker_open,
            final(self).collection == old(self).collection,
            final(self).focus == old(self).focus,
            final(self).visible == old(self).visible,
            final(self).previous_main == old(self).previous_main,
    {
        self.picker_open = true;
    }

    /// The profile picker gained or lost focus; losing it dismisses it.
    pub fn picker_focus_changed(&mut self, has_focus: bool)
        ensures
            final(self).picker_open == (old(self).picker_open && has_focus),
            final(self).collection == old(self).collection,
            final(self).focus == old(self).focus,
            final(self).visible == old(self).visible,
            final(self).previous_main == old(self).previous_main,
    {
        if !has_focus {
            self.picker_open = false;
        }
    }

    /// A click on pane `pane` of tab `tab`, or a focus command for it: the
    /// pane becomes its tab's active pane and takes keyboard focus. False,
    /// with nothing changed, when the pane is gone.
    pub fn request_focus(&mut self, tab: u64, pane: u64) -> (found: bool)
        requires
            old(self).wf(),
        ensures
            final(self).wf(),
            found == (old(self).collection.tabs@.contains_key(tab)
                && old(self).collection.tabs@[tab].holds(pane)),
            found ==> final(self).focus == pane_focus(pane)
                && final(self).collection.tabs@[tab].active_pane_id == pane,
            !found ==> final(self).focus == old(self).focus && final(self).collection.tabs@
                == old(self).collection.tabs@,
            final(self).collection.tab_order@ == old(self).collection.tab_order@,
            final(self).collection.active_tab_index == old(self).collection.active_tab_index,
            final(self).visible == old(self).visible,
            final(self).previous_main == old(self).previous_main,
    {
        let found = self.collection.focus_pane(tab, pane);
        if found {
            self.focus = FocusRouter { owner: Some(pane), area: FocusArea::Terminal };
        }
        found
    }

    /// The panel is asked for focus: the active pane takes it; with no
    /// active pane, a new tab is opened and made active, and focus follows
    /// once its pane is added. When no id is left for a tab, nothing happens.
    pub fn handle_focus(&mut self) -> (r: PanelIntent)
        requires
            old(self).wf(),
        ensures
            final(self).wf(),
            final(self).visible == old(self).visible,
            final(self).previous_main == old(self).previous_main,
            match active_pane_of(old(self).collection) {
                Some(p) => r == PanelIntent::Focus(p) && final(self).focus == pane_focus(p)
                    && final(self).collection == old(self).collection,
                None => if old(self).collection.next_id < u64::MAX {
                    &&& r == PanelIntent::NewTerminal(old(self).collection.next_id)
                    &&& final(self).collection.tab_order@ == old(self).collection.tab_order@.push(
                        old(self).collection.next_id,
                    )
                    &&& final(self).collection.active_tab_index == old(self).collection.tab_order@.len()
                    &&& final(self).focus == old(self).focus
                } else {
                    r == PanelIntent::Nothing && final(self).collection == old(self).collection
                        && final(self).focus == old(self).focus
                },
            },
    {
        match active_pane_id(&self.collection) {
            Some(p) => {
                self.focus = FocusRouter { owner: Some(p), area: FocusArea::Terminal };
                PanelIntent::Focus(p)
            },
            None => {
                if self.collection.next_id == u64::MAX {
                    return PanelIntent::Nothing;
                }
                let id = self.collection.open_tab();
                let last = self.collection.tab_count() - 1;
                self.collection.select_tab(last);
                PanelIntent::NewTerminal(id)
            },
        }
    }

    /// Closes pane `pane` of tab `tab`, telling its session to end. `None`
    /// for a pane that is gone; else whether the session had to be told.
    pub fn close_pane(&mut self, tab: u64, pane: u64) -> (r: Option<bool>)
        requires
            old(self).wf(),
        ensures
            pane_closed(*old(self), *final(self), tab, pane, r),
    {
        self.collection.remove_pane(tab, pane)
    }

    /// Closes tab `tab`; see `TerminalCollection::close_tab`.
    pub fn close_tab(&mut self, tab: u64) -> (signalled: Vec<u64>)
        requires
            old(self).wf(),
        ensures
            final(self).wf(),
            final(self).collection.tab_order@ == old(self).collection.tab_order@,
            final(self).collection.tabs@.dom() == old(self).collection.tabs@.dom(),
            old(self).collection.tabs@.contains_key(tab) ==> final(self).collection.tabs@[tab].empty()
                && signalled@ == old(self).collection.tabs@[tab].panes@.filter(
                |p: TerminalPane| p.session_open,
            ).map_values(|p: TerminalPane| p.pane_id),
            !old(self).collection.tabs@.contains_key(tab) ==> signalled@.len() == 0
                && final(self).collection.tabs@ == old(self).collection.tabs@,
            forall|x: u64|
                x != tab && #[trigger] old(self).collection.tabs@.contains_key(x)
                    ==> final(self).collection.tabs@[x] == old(self).collection.tabs@[x],
            final(self).focus == old(self).focus,
            final(self).visible == old(self).visible,
            final(self).previous_main == old(self).previous_main,
    {
        self.collection.close_tab(tab)
    }

    /// The pass at the end of each update: removes the tabs whose groups
    /// emptied, then moves focus. When no tab is left, the panel hides and
    /// focus goes back to the recorded main editor widget; otherwise the
    /// active pane of the active tab takes it.
    pub fn settle(&mut self) -> (r: PanelIntent)
        requires
            old(self).wf(),
        ensures
            settled(*old(self), *final(self), r),
    {
        let cost = self.collection.prune_empty();
        if cost.rebuilt == 0 {
            return PanelIntent::Nothing;
        }
        if self.collection.is_empty() {
            self.visible = false;
            self.focus = FocusRouter { owner: self.previous_main, area: FocusArea::Editor };
            match self.previous_main {
                Some(w) => PanelIntent::Focus(w),
                None => PanelIntent::Nothing,
            }
        } else {
            proof {
                crate::collection::lemma_pruned_keys_agree(old(self).collection, self.collection);
                let t = self.collection.tab_order@[self.collection.active_tab_index as int];
                assert(self.collection.tab_order@.contains(t));
                assert(self.collection.tabs@.contains_key(t));
            }
            match active_pane_id(&self.collection) {
                Some(p) => {
                    self.focus = FocusRouter { owner: Some(p), area: FocusArea::Terminal };
                    PanelIntent::Focus(p)
                },
                None => PanelIntent::Nothing,
            }
        }
    }
}

/// Closing the only pane of the only tab and then settling leaves the panel
/// with no tab and hidden, with focus back on the main editor widget that
/// was recorded before.
pub proof fn lemma_last_pane_closed(
    before: TerminalPanel,
    mid: TerminalPanel,
    after: TerminalPanel,
    tab: u64,
    pane: u64,
    r1: Option<bool>,
    r2: PanelIntent,
)
    requires
        before.wf(),
        before.collection.tab_order@ == seq![tab],
        before.collection.tabs@[tab].panes@.len() == 1,
        before.collection.tabs@[tab].panes@[0].pane_id == pane,
        pane_closed(before, mid, tab, pane, r1),
        settled(mid, after, r2),
    ensures
        r1 is Some,
        after.collection.tab_order@.len() == 0,
        after.collection.tabs@.dom() == Set::<u64>::empty(),
        !after.visible,
        after.focus == (FocusRouter { owner: before.previous_main, area: FocusArea::Editor }),
        r2 == match before.previous_main {
            Some(w) => PanelIntent::Focus(w),
            None => PanelIntent::Nothing,
        },
{
    let c0 = before.collection;
    let c1 = mid.collection;
    assert(c0.tab_order@[0] == tab);
    assert(c0.tab_order@.contains(tab));
    assert(c0.tabs@.contains_key(tab));
    assert(c0.tabs@[tab].holds(pane));
    let g1 = c1.tabs@[tab];
    assert(g1.pane_ids() =~= Set::<u64>::empty()) by {
        assert(c0.tabs@[tab].pane_ids() =~= set![pane]);
    }
    if g1.panes@.len() > 0 {
        assert(g1.holds(g1.panes@[0].pane_id));
        assert(g1.pane_ids().contains(g1.panes@[0].pane_id));
    }
    assert(c1.tab_order@[0] == tab);
    assert(c1.tabs@[c1.tab_order@[0]].empty());
    assert(has_empty_tab(c1));
    reveal_with_fuel(Seq::filter, 2);
    assert(c1.tab_order@.drop_last() =~= Seq::<u64>::empty());
    assert(after.collection.tab_order@.len() == 0);
    assert forall|id: u64| !after.collection.tabs@.contains_key(id) by {
        if after.collection.tabs@.contains_key(id) {
            assert(after.collection.tab_order@.contains(id));
        }
    }
    assert(after.collection.tabs@.dom() =~= Set::<u64>::empty());
}

} // verus!
