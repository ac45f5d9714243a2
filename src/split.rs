//! A split group: the panes that share one tab's layout, and which of them
//! is active. Emptiness is computed from the panes, never stored.
use crate::pane::TerminalPane;
use vstd::prelude::*;

verus! {

#[derive(Debug)]
pub struct SplitGroup {
    pub split_id: u64,
    pub panes: Vec<TerminalPane>,
    pub active_pane_id: u64,
}

impl SplitGroup {
    /// Pane ids are unique, every pane points back at this group, and the
    /// active id names a pane whenever there is one.
    pub open spec fn wf(&self) -> bool {
        &&& forall|i: int, j: int|
            0 <= i < j < self.panes@.len() ==> (#[trigger] self.panes@[i]).pane_id
                != (#[trigger] self.panes@[j]).pane_id
        &&& forall|i: int| 0 <= i < self.panes@.len() ==> (#[trigger] self.panes@[i]).split_id == self.split_id
        &&& self.panes@.len() > 0 ==> self.holds(self.active_pane_id)
    }

    /// Some pane has id `id`.
    pub open spec fn holds(&self, id: u64) -> bool {
        exists|i: int| 0 <= i < self.panes@.len() && (#[trigger] self.panes@[i]).pane_id == id
    }

    /// The ids of the panes.
    pub open spec fn pane_ids(&self) -> Set<u64> {
        Set::new(|id: u64| self.holds(id))
    }

    pub open spec fn empty(&self) -> bool {
        self.panes@.len() == 0
    }

    /// A group with no panes yet.
    pub fn new(split_id: u64) -> (r: SplitGroup)
        ensures
            r.wf(),
            r.split_id == split_id,
            r.empty(),
    {
        SplitGroup { split_id, panes: Vec::new(), active_pane_id: 0 }
    }

    pub fn is_empty(&self) -> (r: bool)
        ensures
            r == self.empty(),
    {
        self.panes.len() == 0
    }

    /// Position of the pane with id `id`.
    fn index_of(&self, id: u64) -> (r: Option<usize>)
        ensures
            match r {
                Some(i) => i < self.panes@.len() && self.panes@[i as int].pane_id == id,
                None => !self.holds(id),
            },
    {
        let mut i: usize = 0;
        while i < self.panes.len()
            invariant
                i <= self.panes@.len(),
                forall|j: int| 0 <= j < i ==> (#[trigger] self.panes@[j]).pane_id != id,
            decreases self.panes@.len() - i,
        {
            if self.panes[i].pane_id == id {
                return Some(i);
            }
            i = i + 1;
        }
        None
    }

    /// Whether a pane has id `id`.
    pub fn has_pane(&self, id: u64) -> (r: bool)
        ensures
            r == self.holds(id),
    {
        self.index_of(id).is_some()
    }

    /// The active pane, if the group has any.
    pub fn active_pane(&self) -> (r: Option<&TerminalPane>)
        requires
            self.wf(),
        ensures
            match r {
                Some(p) => !self.empty() && p.pane_id == self.active_pane_id && self.holds(p.pane_id)
                    && exists|i: int| 0 <= i < self.panes@.len() && self.panes@[i] == *p,
                None => self.empty(),
            },
    {
        match self.index_of(self.active_pane_id) {
            Some(i) => Some(&self.panes[i]),
            None => None,
        }
    }

    /// Adds `pane` to the group and makes it the active pane. A pane whose
    /// id is already there is refused (returns false, nothing changes).
    pub fn add_pane(&mut self, pane: TerminalPane) -> (added: bool)
        requires
            old(self).wf(),
        ensures
            final(self).wf(),
            added == !old(self).holds(pane.pane_id),
            final(self).split_id == old(self).split_id,
            added ==> final(self).panes@ == old(self).panes@.push(
                TerminalPane { split_id: old(self).split_id, ..pane },
            ) && final(self).active_pane_id == pane.pane_id,
            !added ==> *final(self) == *old(self),
    {
        if self.has_pane(pane.pane_id) {
            return false;
        }
        let p = TerminalPane { split_id: self.split_id, ..pane };
        self.panes.push(p);
        self.active_pane_id = p.pane_id;
        assert(self.panes@[self.panes@.len() - 1].pane_id == p.pane_id);
        true
    }

    /// Makes the pane with id `id` the active one; false for an id that is
    /// not there, which changes nothing.
    pub fn focus_pane(&mut self, id: u64) -> (found: bool)
        requires
            old(self).wf(),
        ensures
            final(self).wf(),
            found == old(self).holds(id),
            !found ==> *final(self) == *old(self),
            final(self).panes@ == old(self).panes@,
            final(self).split_id == old(self).split_id,
            final(self).active_pane_id == if found {
                id
            } else {
                old(self).active_pane_id
            },
    {
        if self.has_pane(id) {
            self.active_pane_id = id;
            true
        } else {
            false
        }
    }

    /// Removes the pane with id `id`, telling its session to end first.
    /// Returns `None` for an id that is not there (nothing changes), else
    /// whether the session had to be told. When the active pane goes, the
    /// pane that took its place (or the new last one) becomes active.
    pub fn remove_pane(&mut self, id: u64) -> (r: Option<bool>)
        requires
            old(self).wf(),
        ensures
            final(self).wf(),
            final(self).split_id == old(self).split_id,
            match r {
                None => !old(self).holds(id) && *final(self) == *old(self),
                Some(signal) => exists|i: int|
                    0 <= i < old(self).panes@.len() && old(self).panes@[i].pane_id == id
                        && signal == old(self).panes@[i].session_open
                        && final(self).panes@ == old(self).panes@.remove(i)
                        && final(self).active_pane_id == if old(self).active_pane_id == id
                        && final(self).panes@.len() > 0 {
                        final(self).panes@[if i < final(self).panes@.len() {
                            i
                        } else {
                            final(self).panes@.len() - 1
                        }].pane_id
                    } else {
                        old(self).active_pane_id
                    },
            },
            !final(self).holds(id),
            final(self).pane_ids() == old(self).pane_ids().remove(id),
    {
        match self.index_of(id) {
            None => {
                assert(final(self).pane_ids() =~= old(self).pane_ids().remove(id));
                None
            },
            Some(i) => {
                let ghost before = self.panes@;
                let mut gone = self.panes.remove(i);
                let signal = gone.close_session();
                assert(forall|j: int| 0 <= j < self.panes@.len() ==> self.panes@[j] == if j < i {
                    before[j]
                } else {
                    before[j + 1]
                });
                if self.active_pane_id == id && self.panes.len() > 0 {
                    let next = if i < self.panes.len() {
                        i
                    } else {
                        self.panes.len() - 1
                    };
                    self.active_pane_id = self.panes[next].pane_id;
                }
                proof {
                    if self.panes@.len() > 0 && old(self).active_pane_id != id {
                        let k = choose|k: int|
                            0 <= k < before.len() && before[k].pane_id == old(self).active_pane_id;
                        let j = if k < i {
                            k
                        } else {
                            k - 1
                        };
                        assert(self.panes@[j].pane_id == self.active_pane_id);
                    }
                    assert(!self.holds(id));
                    assert forall|x: u64| self.holds(x) <==> old(self).holds(x) && x != id by {
                        if old(self).holds(x) && x != id {
                            let k = choose|k: int| 0 <= k < before.len() && before[k].pane_id == x;
                            let j = if k < i {
                                k
                            } else {
                                k - 1
                            };
                            assert(self.panes@[j].pane_id == x);
                        }
                    }
                    assert(final(self).pane_ids() =~= old(self).pane_ids().remove(id));
                }
                Some(signal)
            },
        }
    }

    /// Removes every pane, telling each open session to end. Returns the ids
    /// of the panes whose sessions had to be told, in pane order.
    pub fn close_all(&mut self) -> (signalled: Vec<u64>)
        requires
            old(self).wf(),
        ensures
            final(self).wf(),
            final(self).empty(),
            final(self).split_id == old(self).split_id,
            signalled@ == old(self).panes@.filter(|p: TerminalPane| p.session_open).map_values(
                |p: TerminalPane| p.pane_id,
            ),
    {
        let mut signalled: Vec<u64> = Vec::new();
        let mut i: usize = 0;
        let ghost ps = self.panes@;
        while i < self.panes.len()
            invariant
                self.panes@ == ps,
                i <= ps.len(),
                signalled@ == ps.take(i as int).filter(|p: TerminalPane| p.session_open).map_values(
                    |p: TerminalPane| p.pane_id,
                ),
            decreases ps.len() - i,
        {
            let p = self.panes[i];
            assert(ps.take(i + 1) == ps.take(i as int).push(p));
            proof {
                ps.take(i as int).lemma_filter_push(p, |p: TerminalPane| p.session_open);
            }
            if p.session_open {
                signalled.push(p.pane_id);
            }
            i = i + 1;
            assert(signalled@ =~= ps.take(i as int).filter(|p: TerminalPane| p.session_open).map_values(
                |p: TerminalPane| p.pane_id,
            ));
        }
        assert(ps.take(ps.len() as int) == ps);
        self.panes = Vec::new();
        signalled
    }
}

} // verus!
