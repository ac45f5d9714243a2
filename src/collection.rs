//! The tab registry of the panel: the tab strip's order, the split group of
//! each tab, and which tab is active.
use crate::pane::TerminalPane;
use crate::split::SplitGroup;
use std::collections::HashMap;
use vstd::prelude::*;

verus! {

broadcast use vstd::std_specs::hash::group_hash_axioms;

pub struct TerminalCollection {
    /// Tab ids, left to right.
    pub tab_order: Vec<u64>,
    /// The split group of each tab, keyed by tab id.
    pub tabs: HashMap<u64, SplitGroup>,
    /// Index of the active tab in `tab_order`.
    pub active_tab_index: usize,
    /// The id the next tab gets.
    pub next_id: u64,
}

/// How many slots of the tab order each pass of `prune_empty` visited.
#[derive(Clone, Copy, Debug, PartialEq, Eq, Structural)]
pub struct PruneCost {
    pub scanned: usize,
    pub rebuilt: usize,
}

/// The ids of `order` whose groups in `tabs` still hold panes, in order.
pub open spec fn surviving(order: Seq<u64>, tabs: Map<u64, SplitGroup>) -> Seq<u64> {
    order.filter(|id: u64| !tabs[id].empty())
}

/// `i` clamped to the indices of a sequence of length `len` (0 when empty).
pub open spec fn clamp_index(i: int, len: int) -> int {
    if len == 0 {
        0
    } else if i < len {
        i
    } else {
        len - 1
    }
}

/// Some tab of `c`'s order has an empty group.
pub open spec fn has_empty_tab(c: TerminalCollection) -> bool {
    exists|i: int| 0 <= i < c.tab_order@.len() && (#[trigger] c.tabs@[c.tab_order@[i]]).empty()
}

/// `after` is `before` with every tab whose group is empty removed: the
/// survivors keep their order and groups, the active index is clamped.
pub open spec fn pruned(before: TerminalCollection, after: TerminalCollection) -> bool {
    &&& after.wf()
    &&& after.tab_order@ == surviving(before.tab_order@, before.tabs@)
    &&& forall|id: u64| #[trigger] after.tabs@.contains_key(id) <==> (
        before.tabs@.contains_key(id) && !before.tabs@[id].empty())
    &&& forall|id: u64| #[trigger] after.tabs@.contains_key(id) ==> after.tabs@[id]
        == before.tabs@[id]
    &&& after.active_tab_index == clamp_index(
        before.active_tab_index as int,
        after.tab_order@.len() as int,
    )
    &&& after.next_id == before.next_id
}

impl TerminalCollection {
    /// Tab ids are unique and all below `next_id`; the map holds exactly the
    /// ids of the order, each with a well-formed group of the same id; the
    /// active index is clamped.
    pub open spec fn wf(&self) -> bool {
        &&& forall|i: int, j: int|
            0 <= i < j < self.tab_order@.len() ==> self.tab_order@[i] != self.tab_order@[j]
        &&& forall|id: u64| #[trigger]
            self.tabs@.contains_key(id) <==> self.tab_order@.contains(id)
        &&& forall|id: u64| #[trigger]
            self.tabs@.contains_key(id) ==> self.tabs@[id].wf() && self.tabs@[id].split_id == id
        &&& forall|i: int| 0 <= i < self.tab_order@.len() ==> self.tab_order@[i] < self.next_id
        &&& self.active_tab_index == clamp_index(self.active_tab_index as int, self.tab_order@.len() as int)
    }

    /// The id of the active tab, if there is a tab.
    pub open spec fn active_id(&self) -> Option<u64> {
        if self.tab_order@.len() == 0 {
            None
        } else {
            Some(self.tab_order@[self.active_tab_index as int])
        }
    }

    /// A collection with no tabs.
    pub fn new() -> (r: TerminalCollection)
        ensures
            r.wf(),
            r.tab_order@.len() == 0,
            r.tabs@.is_empty(),
    {
        let r = TerminalCollection { tab_order: Vec::new(), tabs: HashMap::new(), active_tab_index: 0, next_id: 1 };
        assert(r.tabs@ =~= Map::<u64, SplitGroup>::empty());
        r
    }

    pub fn tab_count(&self) -> (r: usize)
        ensures
            r == self.tab_order@.len(),
    {
        self.tab_order.len()
    }

    pub fn is_empty(&self) -> (r: bool)
        ensures
            r == (self.tab_order@.len() == 0),
    {
        self.tab_order.len() == 0
    }

    /// Appends a new tab with an empty group and returns its id. The active
    /// tab does not change (the first tab becomes active as the only one).
    pub fn open_tab(&mut self) -> (id: u64)
        requires
            old(self).wf(),
            old(self).next_id < u64::MAX,
        ensures
            final(self).wf(),
            id == old(self).next_id,
            !old(self).tab_order@.contains(id),
            final(self).tab_order@ == old(self).tab_order@.push(id),
            final(self).tabs@ == old(self).tabs@.insert(id, final(self).tabs@[id]),
            final(self).tabs@[id].empty() && final(self).tabs@[id].split_id == id,
            final(self).active_tab_index == old(self).active_tab_index,
            final(self).next_id == id + 1,
    {
        let id = self.next_id;
        assert(!self.tab_order@.contains(id));
        self.tab_order.push(id);
        self.tabs.insert(id, SplitGroup::new(id));
        self.next_id = id + 1;
        proof {
            assert forall|x: u64| #[trigger] self.tabs@.contains_key(x) <==> self.tab_order@.contains(x) by {
                if self.tab_order@.contains(x) && x != id {
                    let k = choose|k: int| 0 <= k < self.tab_order@.len() && self.tab_order@[k] == x;
                    assert(old(self).tab_order@[k] == x);
                }
                if old(self).tab_order@.contains(x) {
                    let k = choose|k: int| 0 <= k < old(self).tab_order@.len() && old(self).tab_order@[k] == x;
                    assert(self.tab_order@[k] == x);
                }
                assert(self.tab_order@[self.tab_order@.len() - 1] == id);
            }
        }
        id
    }

    /// Makes tab `index` active, clamped to the existing tabs.
    pub fn select_tab(&mut self, index: usize)
        requires
            old(self).wf(),
        ensures
            final(self).wf(),
            final(self).active_tab_index == clamp_index(index as int, old(self).tab_order@.len() as int),
            final(self).tab_order@ == old(self).tab_order@,
            final(self).tabs@ == old(self).tabs@,
            final(self).next_id == old(self).next_id,
    {
        let len = self.tab_order.len();
        self.active_tab_index = if len == 0 {
            0
        } else if index < len {
            index
        } else {
            len - 1
        };
    }

    /// Makes tab `id` active (a click on its entry in the tab strip).
    /// False, with nothing changed, for an id that is not there.
    pub fn select_tab_id(&mut self, id: u64) -> (found: bool)
        requires
            old(self).wf(),
        ensures
            final(self).wf(),
            found == old(self).tab_order@.contains(id),
            found ==> final(self).tab_order@[final(self).active_tab_index as int] == id,
            !found ==> final(self).active_tab_index == old(self).active_tab_index,
            final(self).tab_order@ == old(self).tab_order@,
            final(self).tabs@ == old(self).tabs@,
            final(self).next_id == old(self).next_id,
    {
        let mut i: usize = 0;
        while i < self.tab_order.len()
            invariant
                old(self).wf(),
                self.tab_order@ == old(self).tab_order@,
                self.tabs@ == old(self).tabs@,
                self.active_tab_index == old(self).active_tab_index,
                self.next_id == old(self).next_id,
                i <= self.tab_order@.len(),
                forall|j: int| 0 <= j < i ==> self.tab_order@[j] != id,
            decreases self.tab_order@.len() - i,
        {
            if self.tab_order[i] == id {
                assert(self.tab_order@[i as int] == id);
                self.active_tab_index = i;
                return true;
            }
            i = i + 1;
        }
        false
    }

    /// The id of the active tab.
    pub fn active_tab_id(&self) -> (r: Option<u64>)
        requires
            self.wf(),
        ensures
            r == self.active_id(),
    {
        if self.tab_order.len() == 0 {
            None
        } else {
            Some(self.tab_order[self.active_tab_index])
        }
    }

    /// The group of the active tab.
    pub fn active_split(&self) -> (r: Option<&SplitGroup>)
        requires
            self.wf(),
        ensures
            match self.active_id() {
                None => r is None,
                Some(id) => r == Some(&self.tabs@[id]),
            },
    {
        match self.active_tab_id() {
            None => None,
            Some(id) => {
                assert(self.tab_order@.contains(id));
                self.tabs.get(&id)
            },
        }
    }

    /// Closes tab `id`: every pane of its group is removed and each open
    /// session told to end; the emptied group is then removed by the next
    /// `prune_empty`. Returns the ids of the panes whose sessions had to be
    /// told; an unknown id changes nothing and returns none.
    pub fn close_tab(&mut self, id: u64) -> (signalled: Vec<u64>)
        requires
            old(self).wf(),
        ensures
            final(self).wf(),
            final(self).tab_order@ == old(self).tab_order@,
            final(self).active_tab_index == old(self).active_tab_index,
            final(self).next_id == old(self).next_id,
            final(self).tabs@.dom() == old(self).tabs@.dom(),
            forall|x: u64| x != id && #[trigger] old(self).tabs@.contains_key(x) ==> final(self).tabs@[x] == old(self).tabs@[x],
            old(self).tabs@.contains_key(id) ==> final(self).tabs@[id].empty()
                && signalled@ == old(self).tabs@[id].panes@.filter(|p: TerminalPane| p.session_open).map_values(|p: TerminalPane| p.pane_id),
            !old(self).tabs@.contains_key(id) ==> signalled@.len() == 0 && final(self).tabs@ == old(self).tabs@,
    {
        match self.tabs.remove(&id) {
            None => Vec::new(),
            Some(mut group) => {
                let signalled = group.close_all();
                self.tabs.insert(id, group);
                assert(self.tabs@.dom() =~= old(self).tabs@.dom());
                signalled
            },
        }
    }

    /// Adds `pane` to tab `tab` and makes it that tab's active pane. False,
    /// with nothing changed, when there is no such tab or the tab already
    /// has a pane of that id.
    pub fn add_pane(&mut self, tab: u64, pane: TerminalPane) -> (added: bool)
        requires
            old(self).wf(),
        ensures
            final(self).wf(),
            final(self).tab_order@ == old(self).tab_order@,
            final(self).active_tab_index == old(self).active_tab_index,
            final(self).next_id == old(self).next_id,
            final(self).tabs@.dom() == old(self).tabs@.dom(),
            forall|x: u64| x != tab && #[trigger] old(self).tabs@.contains_key(x) ==> final(self).tabs@[x] == old(self).tabs@[x],
            added == (old(self).tabs@.contains_key(tab) && !old(self).tabs@[tab].holds(pane.pane_id)),
            added ==> final(self).tabs@[tab].panes@ == old(self).tabs@[tab].panes@.push(TerminalPane { split_id: tab, ..pane })
                && final(self).tabs@[tab].active_pane_id == pane.pane_id,
            !added ==> final(self).tabs@ == old(self).tabs@,
    {
        match self.tabs.remove(&tab) {
            None => false,
            Some(mut group) => {
                let added = group.add_pane(pane);
                self.tabs.insert(tab, group);
                assert(self.tabs@.dom() =~= old(self).tabs@.dom());
                proof {
                    if !added {
                        assert(self.tabs@ =~= old(self).tabs@);
                    }
                }
                added
            },
        }
    }

    /// Removes pane `pane_id` from tab `tab`, telling its session to end
    /// first. `None`, with nothing changed, when either is unknown; else
    /// whether the session had to be told.
    pub fn remove_pane(&mut self, tab: u64, pane_id: u64) -> (r: Option<bool>)
        requires
            old(self).wf(),
        ensures
            final(self).wf(),
            final(self).tab_order@ == old(self).tab_order@,
            final(self).active_tab_index == old(self).active_tab_index,
            final(self).next_id == old(self).next_id,
            final(self).tabs@.dom() == old(self).tabs@.dom(),
            forall|x: u64| x != tab && #[trigger] old(self).tabs@.contains_key(x) ==> final(self).tabs@[x] == old(self).tabs@[x],
            r is Some <==> (old(self).tabs@.contains_key(tab) && old(self).tabs@[tab].holds(pane_id)),
            r matches Some(signal) ==> exists|i: int|
                0 <= i < old(self).tabs@[tab].panes@.len()
                    && old(self).tabs@[tab].panes@[i].pane_id == pane_id
                    && signal == old(self).tabs@[tab].panes@[i].session_open
                    && final(self).tabs@[tab].panes@ == old(self).tabs@[tab].panes@.remove(i),
            r is None ==> final(self).tabs@ == old(self).tabs@,
            old(self).tabs@.contains_key(tab) ==> final(self).tabs@[tab].pane_ids() == old(self).tabs@[tab].pane_ids().remove(pane_id),
    {
        match self.tabs.remove(&tab) {
            None => None,
            Some(mut group) => {
                let r = group.remove_pane(pane_id);
                self.tabs.insert(tab, group);
                assert(self.tabs@.dom() =~= old(self).tabs@.dom());
                proof {
                    if r is None {
                        assert(self.tabs@[tab].panes@ == old(self).tabs@[tab].panes@);
                        assert(self.tabs@ =~= old(self).tabs@);
                    } else {
                        let i = choose|i: int|
                            0 <= i < old(self).tabs@[tab].panes@.len() && old(self).tabs@[tab].panes@[i].pane_id == pane_id
                                && final(self).tabs@[tab].panes@ == old(self).tabs@[tab].panes@.remove(i);
                        assert(old(self).tabs@[tab].holds(pane_id));
                    }
                }
                r
            },
        }
    }

    /// Makes pane `pane_id` the active pane of tab `tab`; false, with
    /// nothing changed, when either is unknown.
    pub fn focus_pane(&mut self, tab: u64, pane_id: u64) -> (found: bool)
        requires
            old(self).wf(),
        ensures
            final(self).wf(),
            final(self).tab_order@ == old(self).tab_order@,
            final(self).active_tab_index == old(self).active_tab_index,
            final(self).next_id == old(self).next_id,
            final(self).tabs@.dom() == old(self).tabs@.dom(),
            forall|x: u64| x != tab && #[trigger] old(self).tabs@.contains_key(x) ==> final(self).tabs@[x] == old(self).tabs@[x],
            found == (old(self).tabs@.contains_key(tab) && old(self).tabs@[tab].holds(pane_id)),
            found ==> final(self).tabs@[tab].active_pane_id == pane_id && final(self).tabs@[tab].panes@ == old(self).tabs@[tab].panes@,
            !found ==> final(self).tabs@ == old(self).tabs@,
    {
        match self.tabs.remove(&tab) {
            None => false,
            Some(mut group) => {
                let found = group.focus_pane(pane_id);
                self.tabs.insert(tab, group);
                assert(self.tabs@.dom() =~= old(self).tabs@.dom());
                proof {
                    if !found {
                        assert(self.tabs@ =~= old(self).tabs@);
                    }
                }
                found
            },
        }
    }

    /// Removes every tab whose group has no panes, in one batch.
    ///
    /// One pass over the order looks each tab up; the first empty tab's id
    /// becomes a sentinel, every empty tab's slot is overwritten with it and
    /// its group dropped from the map. When anything was removed, a second
    /// pass rebuilds the order, sized to the surviving tabs, without the
    /// sentinel. Returns how many slots each pass visited: one per tab for
    /// the first, one per tab or none for the second, however many tabs go. Surviving tabs keep their order; the active
    /// index is clamped to what is left.
    pub fn prune_empty(&mut self) -> (cost: PruneCost)
        requires
            old(self).wf(),
        ensures
            pruned(*old(self), *final(self)),
            cost.scanned == old(self).tab_order@.len(),
            cost.rebuilt == if has_empty_tab(*old(self)) {
                old(self).tab_order@.len()
            } else {
                0
            },
    {
        let ghost order0 = self.tab_order@;
        let ghost tabs0 = self.tabs@;
        let ghost keep = |id: u64| !tabs0[id].empty();
        let n = self.tab_order.len();
        let mut sentinel: Option<u64> = None;
        let mut removed: usize = 0;
        let mut scanned: usize = 0;
        let mut i: usize = 0;
        while i < n
            invariant
                old(self).wf(),
                order0 == old(self).tab_order@,
                tabs0 == old(self).tabs@,
                keep == (|id: u64| !tabs0[id].empty()),
                self.tab_order@.len() == n == order0.len(),
                self.active_tab_index == old(self).active_tab_index,
                self.next_id == old(self).next_id,
                i <= n,
                scanned == i,
                removed <= i,
                forall|j: int| i <= j < n ==> self.tab_order@[j] == order0[j],
                forall|j: int|
                    0 <= j < i ==> if keep(order0[j]) {
                        self.tab_order@[j] == order0[j]
                    } else {
                        sentinel == Some(self.tab_order@[j])
                    },
                sentinel matches Some(s) ==> tabs0.contains_key(s) && !keep(s) && order0.take(i as int).contains(s),
                sentinel is None ==> forall|j: int| 0 <= j < i ==> keep(order0[j]),
                forall|id: u64| #[trigger]
                    self.tabs@.contains_key(id) <==> tabs0.contains_key(id) && (keep(id)
                        || !order0.take(i as int).contains(id)),
                forall|id: u64| #[trigger] self.tabs@.contains_key(id) ==> self.tabs@[id] == tabs0[id],
            decreases n - i,
        {
            let id = self.tab_order[i];
            assert(order0[i as int] == id);
            assert(order0.contains(id));
            assert(!order0.take(i as int).contains(id)) by {
                if order0.take(i as int).contains(id) {
                    let k = choose|k: int| 0 <= k < i && order0.take(i as int)[k] == id;
                    assert(order0[k] == order0[i as int]);
                }
            }
            let empty = match self.tabs.get(&id) {
                Some(group) => group.is_empty(),
                None => false,
            };
            assert(empty == !keep(id));
            if empty {
                if sentinel.is_none() {
                    sentinel = Some(id);
                }
                self.tabs.remove(&id);
                match sentinel {
                    Some(s) => {
                        self.tab_order[i] = s;
                    },
                    None => {},
                }
                removed = removed + 1;
            }
            assert forall|x: u64| order0.take(i + 1).contains(x) <==> (order0.take(i as int).contains(x)
                || x == id) by {
                let t0 = order0.take(i as int);
                let t1 = order0.take(i + 1);
                if t1.contains(x) {
                    let k = choose|k: int| 0 <= k < t1.len() && t1[k] == x;
                    if k < i {
                        assert(t0[k] == x);
                    }
                }
                if t0.contains(x) {
                    let k = choose|k: int| 0 <= k < t0.len() && t0[k] == x;
                    assert(t1[k] == x);
                }
                if x == id {
                    assert(t1[i as int] == x);
                }
            }
            scanned = scanned + 1;
            i = i + 1;
        }
        assert(order0.take(n as int) =~= order0);
        let mut rebuilt: usize = 0;
        match sentinel {
            None => {
                proof {
                    lemma_filter_all(order0, keep);
                    assert(self.tabs@ =~= tabs0);
                }
            },
            Some(s) => {
                let mut order: Vec<u64> = Vec::with_capacity(n - removed);
                let mut j: usize = 0;
                while j < n
                    invariant
                        order0 == old(self).tab_order@,
                        tabs0 == old(self).tabs@,
                        keep == (|id: u64| !tabs0[id].empty()),
                        self.tab_order@.len() == n == order0.len(),
                        j <= n,
                        rebuilt == j,
                        forall|k: int|
                            0 <= k < n ==> if keep(order0[k]) {
                                self.tab_order@[k] == order0[k]
                            } else {
                                s == self.tab_order@[k]
                            },
                        tabs0.contains_key(s) && !keep(s),
                        order@ == order0.take(j as int).filter(keep),
                    decreases n - j,
                {
                    let x = self.tab_order[j];
                    assert(order0.take(j + 1) =~= order0.take(j as int).push(order0[j as int]));
                    proof {
                        order0.take(j as int).lemma_filter_push(order0[j as int], keep);
                        if keep(order0[j as int]) {
                            assert(x != s);
                        }
                    }
                    if x != s {
                        order.push(x);
                    }
                    rebuilt = rebuilt + 1;
                    j = j + 1;
                }
                self.tab_order = order;
            },
        }
        proof {
            lemma_filter_unique(order0, keep);
            let fo = order0.filter(keep);
            assert(self.tab_order@ == fo);
            assert forall|id: u64| #[trigger] self.tabs@.contains_key(id) <==> self.tab_order@.contains(id) by {
                if fo.contains(id) {
                    order0.lemma_filter_contains_rev(keep, id);
                    let k = choose|k: int| 0 <= k < fo.len() && fo[k] == id;
                    order0.lemma_filter_pred(keep, k);
                }
                if self.tabs@.contains_key(id) {
                    assert(order0.contains(id));
                    let k = choose|k: int| 0 <= k < order0.len() && order0[k] == id;
                    order0.lemma_filter_contains(keep, k);
                }
            }
            assert forall|k: int| 0 <= k < fo.len() implies fo[k] < self.next_id by {
                order0.lemma_filter_contains_rev(keep, fo[k]);
            }
        }
        let len = self.tab_order.len();
        if len == 0 {
            self.active_tab_index = 0;
        } else if self.active_tab_index >= len {
            self.active_tab_index = len - 1;
        }
        PruneCost { scanned, rebuilt }
    }
}

/// After pruning, the ids of the tab order and the keys of the group map
/// are the same set, and no group left is empty.
pub proof fn lemma_pruned_keys_agree(before: TerminalCollection, after: TerminalCollection)
    requires
        before.wf(),
        pruned(before, after),
    ensures
        after.tab_order@.to_set() == after.tabs@.dom(),
        forall|id: u64| #[trigger] after.tabs@.contains_key(id) ==> !after.tabs@[id].empty(),
{
    assert(after.tab_order@.to_set() =~= after.tabs@.dom());
}

/// Filtering a sequence by a predicate that holds of every element leaves
/// it as it is.
proof fn lemma_filter_all(s: Seq<u64>, pred: spec_fn(u64) -> bool)
    requires
        forall|i: int| 0 <= i < s.len() ==> pred(s[i]),
    ensures
        s.filter(pred) == s,
    decreases s.len(),
{
    reveal(Seq::filter);
    if s.len() > 0 {
        lemma_filter_all(s.drop_last(), pred);
        assert(s.drop_last().push(s.last()) =~= s);
    }
}

/// Filtering a sequence without repeated elements yields one without
/// repeated elements.
proof fn lemma_filter_unique(s: Seq<u64>, pred: spec_fn(u64) -> bool)
    requires
        forall|i: int, j: int| 0 <= i < j < s.len() ==> s[i] != s[j],
    ensures
        forall|i: int, j: int|
            0 <= i < j < s.filter(pred).len() ==> s.filter(pred)[i] != s.filter(pred)[j],
    decreases s.len(),
{
    reveal(Seq::filter);
    if s.len() > 0 {
        let d = s.drop_last();
        lemma_filter_unique(d, pred);
        if pred(s.last()) {
            let fd = d.filter(pred);
            assert(!fd.contains(s.last())) by {
                if fd.contains(s.last()) {
                    d.lemma_filter_contains_rev(pred, s.last());
                }
            }
            assert(s.filter(pred) == fd.push(s.last()));
        }
    }
}

} // verus!
