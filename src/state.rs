//! Navigation state of the dashboard: focus, cursors and expanded entries.

use vstd::prelude::*;
use crate::model::{FocusedPanel, PoolStats, QueueResponse, SelectableItem};
use crate::sessions::{contains_id, listed, selectable_items, selectable_items_for};

verus! {

/// A navigation command, already decoded from the keyboard.
#[derive(Clone, Copy, Debug, PartialEq, Eq, Structural)]
pub enum NavKey {
    Quit,
    SwitchPanel,
    Up,
    Down,
    Toggle,
}

/// Cursor positions and expanded entries of the two navigable panels.
#[derive(Clone, Debug, PartialEq, Eq)]
pub struct AppState {
    pub focused_panel: FocusedPanel,
    /// Index into the selectable entries of the sessions panel.
    pub session_selected: usize,
    /// Expanded client ids.
    pub client_expanded: Vec<String>,
    /// Expanded session ids.
    pub session_expanded: Vec<String>,
    /// Index into the pools of the backends panel.
    pub backend_selected: usize,
    /// Expanded model names.
    pub backend_expanded: Vec<String>,
}

impl Default for AppState {
    fn default() -> (r: Self)
        ensures
            r.focused_panel == FocusedPanel::Backends,
            r.session_selected == 0,
            r.client_expanded@.len() == 0,
            r.session_expanded@.len() == 0,
            r.backend_selected == 0,
            r.backend_expanded@.len() == 0,
    {
        AppState {
            focused_panel: FocusedPanel::Backends,
            session_selected: 0,
            client_expanded: Vec::new(),
            session_expanded: Vec::new(),
            backend_selected: 0,
            backend_expanded: Vec::new(),
        }
    }
}

/// `ids` after toggling `id`: present afterwards exactly when absent before.
pub open spec fn toggled(before: Seq<String>, after: Seq<String>, id: Seq<char>) -> bool {
    forall|x: Seq<char>|
        #[trigger] listed(after, x) == if x == id {
            !listed(before, x)
        } else {
            listed(before, x)
        }
}

/// Adds `id` to `ids` if absent, else removes every copy of it.
pub fn toggle_id(ids: &mut Vec<String>, id: &String)
    ensures
        toggled(old(ids)@, final(ids)@, id@),
{
    if contains_id(ids, id) {
        let ghost before = ids@;
        let mut kept: Vec<String> = Vec::new();
        let mut i: usize = 0;
        while i < ids.len()
            invariant
                0 <= i <= ids@.len(),
                ids@ == before,
                forall|x: Seq<char>|
                    #[trigger] listed(kept@, x) == (x != id@ && exists|k: int|
                        0 <= k < i && before[k]@ == x),
            decreases ids@.len() - i,
        {
            if ids[i] != *id {
                let ghost old_kept = kept@;
                kept.push(ids[i].clone());
                proof {
                    assert forall|x: Seq<char>| #[trigger]
                        listed(kept@, x) == (x != id@ && exists|k: int|
                            0 <= k < i + 1 && before[k]@ == x) by {
                        if listed(kept@, x) {
                            let k0 = choose|k0: int| 0 <= k0 < kept@.len() && kept@[k0]@ == x;
                            if k0 < old_kept.len() {
                                assert(listed(old_kept, x));
                            }
                        }
                        if x != id@ && exists|k: int| 0 <= k < i + 1 && before[k]@ == x {
                            let k1 = choose|k1: int| 0 <= k1 < i + 1 && before[k1]@ == x;
                            if k1 < i {
                                assert(listed(old_kept, x));
                                let k0 = choose|k0: int|
                                    0 <= k0 < old_kept.len() && old_kept[k0]@ == x;
                                assert(kept@[k0] == old_kept[k0]);
                            } else {
                                assert(kept@[old_kept.len() as int]@ == x);
                            }
                        }
                    }
                }
            } else {
                proof {
                    assert forall|x: Seq<char>| #[trigger]
                        listed(kept@, x) == (x != id@ && exists|k: int|
                            0 <= k < i + 1 && before[k]@ == x) by {
                        if x != id@ && exists|k: int| 0 <= k < i + 1 && before[k]@ == x {
                            let k1 = choose|k1: int| 0 <= k1 < i + 1 && before[k1]@ == x;
                            assert(k1 < i);
                        }
                    }
                }
            }
            i += 1;
        }
        *ids = kept;
    } else {
        let ghost before = ids@;
        ids.push(id.clone());
        proof {
            assert forall|x: Seq<char>| #[trigger]
                listed(ids@, x) == if x == id@ {
                    !listed(before, x)
                } else {
                    listed(before, x)
                } by {
                if x == id@ {
                    assert(ids@[before.len() as int]@ == x);
                } else {
                    if listed(ids@, x) {
                        let k0 = choose|k0: int| 0 <= k0 < ids@.len() && ids@[k0]@ == x;
                        assert(k0 < before.len());
                        assert(before[k0]@ == x);
                    }
                    if listed(before, x) {
                        let k0 = choose|k0: int| 0 <= k0 < before.len() && before[k0]@ == x;
                        assert(ids@[k0] == before[k0]);
                    }
                }
            }
        }
    }
}

impl AppState {
    /// The flat list of entries of the sessions panel for `queue`.
    pub fn build_selectable_items(&self, queue: &QueueResponse) -> (r: Vec<SelectableItem>)
        ensures
            r@ == selectable_items(*queue, self.client_expanded@),
    {
        selectable_items_for(queue, &self.client_expanded)
    }

    /// The entry under the sessions cursor, if the cursor is on one.
    pub fn resolve_selected(&self, queue: &QueueResponse) -> (r: Option<SelectableItem>)
        ensures
            ({
                let items = selectable_items(*queue, self.client_expanded@);
                if self.session_selected < items.len() {
                    r == Some(items[self.session_selected as int])
                } else {
                    r is None
                }
            }),
    {
        let mut items = self.build_selectable_items(queue);
        if self.session_selected < items.len() {
            Some(items.remove(self.session_selected))
        } else {
            None
        }
    }

    /// Pulls both cursors back onto the last entry when their lists shrank.
    pub fn clamp_selection(&mut self, model_count: usize, selectable_count: usize)
        ensures
            final(self).backend_selected == if model_count > 0 && old(self).backend_selected
                >= model_count {
                (model_count - 1) as usize
            } else {
                old(self).backend_selected
            },
            final(self).session_selected == if selectable_count > 0 && old(self).session_selected
                >= selectable_count {
                (selectable_count - 1) as usize
            } else {
                old(self).session_selected
            },
            final(self).focused_panel == old(self).focused_panel,
            final(self).client_expanded == old(self).client_expanded,
            final(self).session_expanded == old(self).session_expanded,
            final(self).backend_expanded == old(self).backend_expanded,
    {
        if model_count > 0 && self.backend_selected >= model_count {
            self.backend_selected = model_count - 1;
        }
        if selectable_count > 0 && self.session_selected >= selectable_count {
            self.session_selected = selectable_count - 1;
        }
    }

    /// Applies one navigation command; returns whether the dashboard should quit.
    /// `pools` are the rows of the backends panel, `items` the entries of
    /// the sessions panel.
    pub fn handle_key(
        &mut self,
        key: NavKey,
        pools: &Vec<PoolStats>,
        items: &Vec<SelectableItem>,
    ) -> (quit: bool)
        ensures
            quit == (key == NavKey::Quit),
            key == NavKey::Quit ==> *final(self) == *old(self),
            key == NavKey::SwitchPanel ==> final(self).focused_panel != old(self).focused_panel
                && final(self).session_selected == old(self).session_selected
                && final(self).backend_selected == old(self).backend_selected,
            key == NavKey::Up ==> (if old(self).focused_panel == FocusedPanel::Backends {
                final(self).backend_selected == if old(self).backend_selected > 0 {
                    (old(self).backend_selected - 1) as usize
                } else {
                    0
                } && final(self).session_selected == old(self).session_selected
            } else {
                final(self).session_selected == if old(self).session_selected > 0 {
                    (old(self).session_selected - 1) as usize
                } else {
                    0
                } && final(self).backend_selected == old(self).backend_selected
            }),
            key == NavKey::Down ==> (if old(self).focused_panel == FocusedPanel::Backends {
                final(self).backend_selected == if old(self).backend_selected + 1
                    < pools@.len() {
                    (old(self).backend_selected + 1) as usize
                } else {
                    old(self).backend_selected
                } && final(self).session_selected == old(self).session_selected
            } else {
                final(self).session_selected == if old(self).session_selected + 1
                    < items@.len() {
                    (old(self).session_selected + 1) as usize
                } else {
                    old(self).session_selected
                } && final(self).backend_selected == old(self).backend_selected
            }),
            key != NavKey::Toggle ==> final(self).client_expanded == old(self).client_expanded
                && final(self).session_expanded == old(self).session_expanded
                && final(self).backend_expanded == old(self).backend_expanded,
            key != NavKey::SwitchPanel ==> final(self).focused_panel == old(self).focused_panel,
            key == NavKey::Toggle ==> final(self).session_selected == old(self).session_selected
                && final(self).backend_selected == old(self).backend_selected,
            key == NavKey::Toggle && old(self).focused_panel == FocusedPanel::Backends ==> {
                &&& final(self).client_expanded == old(self).client_expanded
                &&& final(self).session_expanded == old(self).session_expanded
                &&& if old(self).backend_selected < pools@.len() {
                    toggled(
                        old(self).backend_expanded@,
                        final(self).backend_expanded@,
                        pools@[old(self).backend_selected as int].model@,
                    )
                } else {
                    final(self).backend_expanded == old(self).backend_expanded
                }
            },
            key == NavKey::Toggle && old(self).focused_panel == FocusedPanel::Sessions ==> {
                &&& final(self).backend_expanded == old(self).backend_expanded
                &&& if old(self).session_selected < items@.len() {
                    match items@[old(self).session_selected as int] {
                        SelectableItem::Client(c) => toggled(
                            old(self).client_expanded@,
                            final(self).client_expanded@,
                            c@,
                        ) && final(self).session_expanded == old(self).session_expanded,
                        SelectableItem::Session(s) => toggled(
                            old(self).session_expanded@,
                            final(self).session_expanded@,
                            s@,
                        ) && final(self).client_expanded == old(self).client_expanded,
                    }
                } else {
                    final(self).client_expanded == old(self).client_expanded
                        && final(self).session_expanded == old(self).session_expanded
                }
            },
    {
        match key {
            NavKey::Quit => true,
            NavKey::SwitchPanel => {
                self.focused_panel = match self.focused_panel {
                    FocusedPanel::Backends => FocusedPanel::Sessions,
                    FocusedPanel::Sessions => FocusedPanel::Backends,
                };
                false
            },
            NavKey::Up => {
                match self.focused_panel {
                    FocusedPanel::Backends => {
                        if self.backend_selected > 0 {
                            self.backend_selected = self.backend_selected - 1;
                        }
                    },
                    FocusedPanel::Sessions => {
                        if self.session_selected > 0 {
                            self.session_selected = self.session_selected - 1;
                        }
                    },
                }
                false
            },
            NavKey::Down => {
                match self.focused_panel {
                    FocusedPanel::Backends => {
                        if pools.len() > 0 && self.backend_selected < pools.len() - 1 {
                            self.backend_selected = self.backend_selected + 1;
                        }
                    },
                    FocusedPanel::Sessions => {
                        if items.len() > 0 && self.session_selected < items.len() - 1 {
                            self.session_selected = self.session_selected + 1;
                        }
                    },
                }
                false
            },
            NavKey::Toggle => {
                match self.focused_panel {
                    FocusedPanel::Backends => {
                        if self.backend_selected < pools.len() {
                            toggle_id(&mut self.backend_expanded, &pools[self.backend_selected].model);
                        }
                    },
                    FocusedPanel::Sessions => {
                        if self.session_selected < items.len() {
                            match &items[self.session_selected] {
                                SelectableItem::Client(cid) => {
                                    toggle_id(&mut self.client_expanded, cid);
                                },
                                SelectableItem::Session(sid) => {
                                    toggle_id(&mut self.session_expanded, sid);
                                },
                            }
                        }
                    },
                }
                false
            },
        }
    }
}

} // verus!
