//! Closing a pane of a tab group, or the whole group with its last pane.
use vstd::prelude::*;

use crate::pane_layout::tree_of;

use crate::pane_layout::{layout_ids, remove_first, strs_contain, strs_view, PaneLayout};
use crate::seq_util::{lemma_filter_take_step, lemma_first_index_sound};
use crate::shell::{focus_outcome, opt_view, TinyShell};
use crate::terminal_workspace::{find_group_of_tab, group_of_tab, SystemInfoTab, TabGroup, TerminalTab, WorkspaceModel};

verus! {

/// What closing a pane asks of the backends: the terminals to shut down
/// (those that were open), and whether the group's SFTP connection closes.
#[derive(Debug)]
pub struct ClosedPanes {
    pub closed_tab_ids: Vec<String>,
    pub sftp_closed: bool,
}

/// Terminal tabs whose id is not among `ids`.
pub open spec fn not_among(ids: Seq<Seq<char>>) -> spec_fn(TerminalTab) -> bool {
    |t: TerminalTab| !ids.contains(t.id@)
}

/// Texts other than `x`.
pub open spec fn other_than(x: Seq<char>) -> spec_fn(String) -> bool {
    |s: String| s@ != x
}

/// System-information tabs that follow one of `tabs`.
pub open spec fn follows_one_of(tabs: Seq<TerminalTab>) -> spec_fn(SystemInfoTab) -> bool {
    |i: SystemInfoTab| tabs.map_values(|t: TerminalTab| t.id@).contains(i.source_tab_id@)
}

/// Two groups differ at most in their layout.
pub open spec fn same_but_layout(a: TabGroup, b: TabGroup) -> bool {
    &&& a.id == b.id
    &&& a.drag_id == b.drag_id
    &&& a.ordinal == b.ordinal
    &&& a.title == b.title
}

/// Workspace `a` is `b` once tab `id` left the layout shown: the shown
/// layout loses its first pane for `id` as `tree_without` says (so it holds
/// its ids less the first `id`), everything else is unchanged.
pub open spec fn shown_pane_removed(b: WorkspaceModel, a: WorkspaceModel, id: Seq<char>) -> bool {
    exists|root: PaneLayout|
        a == b.with_current_pane_root(root) && layout_ids(root) == remove_first(
            layout_ids(b.current_pane_root()),
            id,
        ) && tree_of(root) == crate::pane_layout::tree_without(tree_of(b.current_pane_root()), id)
}

/// Workspace `a` is `b` once tab `id` left the layout of group `j`: that
/// layout loses its first pane for `id` as `tree_without` says (so it holds
/// its ids less the first `id`), everything else is unchanged.
pub open spec fn group_pane_removed(b: WorkspaceModel, a: WorkspaceModel, j: int, id: Seq<char>) -> bool {
    &&& 0 <= j < b.tab_groups.len()
    &&& a == WorkspaceModel { tab_groups: b.tab_groups.update(j, a.tab_groups[j]), ..b }
    &&& same_but_layout(a.tab_groups[j], b.tab_groups[j])
    &&& layout_ids(a.tab_groups[j].pane_root) == remove_first(
        layout_ids(b.tab_groups[j].pane_root),
        id,
    )
    &&& tree_of(a.tab_groups[j].pane_root) == crate::pane_layout::tree_without(
        tree_of(b.tab_groups[j].pane_root),
        id,
    )
}

/// The terminals shut down when tab `id` closes: it, if it was open.
pub open spec fn closed_ids(tabs: Seq<TerminalTab>, id: Seq<char>) -> Seq<Seq<char>> {
    if tabs.map_values(|t: TerminalTab| t.id@).contains(id) {
        seq![id]
    } else {
        seq![]
    }
}

/// The workspace after the pane at `ti` of group `gi` of `b` closed. When it
/// was the group's only pane, the group closes with its terminal and the
/// pane leaves the shown layout; otherwise its terminal closes, the pane
/// leaves the first group showing it and then the shown layout. Either way
/// the system-information tabs of closed terminals go.
pub open spec fn pane_closed(b: WorkspaceModel, a: WorkspaceModel, gi: int, ti: int) -> bool {
    let ids = layout_ids(b.tab_groups[gi].pane_root);
    let id = ids[ti];
    if ids.len() <= 1 {
        exists|m: WorkspaceModel|
            shown_pane_removed(
                WorkspaceModel {
                    tabs: b.tabs.filter(not_among(ids)),
                    tab_groups: b.tab_groups.remove(gi),
                    ..b
                },
                m,
                id,
            ) && infos_pruned(m, a)
    } else {
        exists|m1: WorkspaceModel, m2: WorkspaceModel|
            group_pane_removed(
                WorkspaceModel { tabs: b.tabs.filter(not_among(seq![id])), ..b },
                m1,
                group_of_tab(b.tab_groups, id)->0,
                id,
            ) && shown_pane_removed(m1, m2, id) && infos_pruned(m2, a)
    }
}

/// The system-information tabs and their active one after tabs closed:
/// those that follow a remaining terminal stay, and the active one is
/// forgotten once no such tab is left.
pub open spec fn infos_pruned(b: WorkspaceModel, a: WorkspaceModel) -> bool {
    let kept = b.system_info_tabs.filter(follows_one_of(b.tabs));
    &&& a == WorkspaceModel {
        system_info_tabs: kept,
        active_system_info_tab: match b.active_system_info_tab {
            Some(x) => if kept.map_values(|i: SystemInfoTab| i.id@).contains(x@) {
                Some(x)
            } else {
                None
            },
            None => None,
        },
        ..b
    }
}

/// Window `b` is window `a` after the pane at `ti` of group `gi` closed as
/// `pane_closed` says, and `r` what the backends must shut: the closed
/// terminal, and the group's SFTP connection when the group closed with it
/// (its handle then leaves the window).
pub open spec fn panes_closed(a: TinyShell, b: TinyShell, gi: int, ti: int, r: ClosedPanes) -> bool {
    let m = a.workspace@;
    let g = m.tab_groups[gi];
    let ids = layout_ids(g.pane_root);
    &&& pane_closed(m, b.workspace@, gi, ti)
    &&& strs_view(r.closed_tab_ids@) == closed_ids(m.tabs, ids[ti])
    &&& if ids.len() <= 1 {
        &&& r.sftp_closed == strs_view(a.sftp_handle_ids@).contains(g.id@)
        &&& b.sftp_handle_ids@ == a.sftp_handle_ids@.filter(other_than(g.id@))
    } else {
        &&& !r.sftp_closed
        &&& b.sftp_handle_ids == a.sftp_handle_ids
    }
    &&& b == TinyShell { workspace: b.workspace, sftp_handle_ids: b.sftp_handle_ids, ..a }
}

/// A sequence extended by `x` holds `y` when it held it before or `x` is `y`.
pub proof fn lemma_contains_push<T>(s: Seq<T>, x: T, y: T)
    ensures
        s.push(x).contains(y) == (s.contains(y) || x == y),
{
    if s.push(x).contains(y) {
        let k = choose|k: int| 0 <= k < s.push(x).len() && s.push(x)[k] == y;
        if k < s.len() {
            assert(s[k] == y);
        }
    }
    if s.contains(y) {
        let k = choose|k: int| 0 <= k < s.len() && s[k] == y;
        assert(s.push(x)[k] == y);
    }
    if x == y {
        assert(s.push(x)[s.len() as int] == y);
    }
}

impl TinyShell {
    /// Removes every terminal tab with id `id`; returns whether one was open.
    fn close_terminal(&mut self, id: &String) -> (was_open: bool)
        ensures
            was_open == old(self).workspace@.tabs.map_values(|t: TerminalTab| t.id@).contains(
                id@,
            ),
            final(self).workspace@ == (WorkspaceModel {
                tabs: old(self).workspace@.tabs.filter(not_among(seq![id@])),
                ..old(self).workspace@
            }),
            *final(self) == (TinyShell { workspace: final(self).workspace, ..*old(self) }),
    {
        let ghost b = self.workspace@.tabs;
        let ghost p = not_among(seq![id@]);
        let ghost ids = b.map_values(|t: TerminalTab| t.id@);
        let mut kept: Vec<TerminalTab> = Vec::new();
        let mut found = false;
        let tabs = self.workspace.take_tabs();
        let mut rest = tabs;
        let n = rest.len();
        let mut i: usize = 0;
        let ghost all = rest@;
        assert(all == b);
        let mut out: Vec<TerminalTab> = Vec::new();
        while rest.len() > 0
            invariant
                all == b,
                p == not_among(seq![id@]),
                ids == b.map_values(|t: TerminalTab| t.id@),
                n == b.len(),
                i + rest@.len() == n,
                rest@ == b.skip(i as int),
                out@ == b.take(i as int).filter(p),
                found == b.take(i as int).map_values(|t: TerminalTab| t.id@).contains(id@),
            decreases rest@.len(),
        {
            proof {
                lemma_filter_take_step(b, p, i as int);
                assert(b.take(i + 1).map_values(|t: TerminalTab| t.id@) =~= b.take(
                    i as int,
                ).map_values(|t: TerminalTab| t.id@).push(b[i as int].id@));
            }
            let t = rest.remove(0);
            assert(t == b[i as int]);
            proof {
                lemma_contains_push(
                    b.take(i as int).map_values(|t: TerminalTab| t.id@),
                    b[i as int].id@,
                    id@,
                );
            }
            if crate::text::string_eq(&t.id, id) {
                assert(seq![id@][0] == id@);
                assert(!p(b[i as int]));
                found = true;
            } else {
                assert(!seq![id@].contains(t.id@)) by {
                    if seq![id@].contains(t.id@) {
                        assert(seq![id@][0] == id@);
                    }
                }
                assert(p(b[i as int]));
                out.push(t);
            }
            assert(rest@ =~= b.skip(i + 1));
            i = i + 1;
        }
        assert(b.take(b.len() as int) =~= b);
        self.workspace.replace_tabs(out);
        found
    }
}

impl TinyShell {
    /// Removes the SFTP handle registered under `key`; returns whether there
    /// was one.
    fn drop_sftp_handle(&mut self, key: &String) -> (was_open: bool)
        ensures
            was_open == strs_view(old(self).sftp_handle_ids@).contains(key@),
            final(self).sftp_handle_ids@ == old(self).sftp_handle_ids@.filter(other_than(key@)),
            *final(self) == (TinyShell { sftp_handle_ids: final(self).sftp_handle_ids, ..*old(self) }),
    {
        let ghost b = self.sftp_handle_ids@;
        let ghost p = other_than(key@);
        let mut handles: Vec<String> = Vec::new();
        std::mem::swap(&mut handles, &mut self.sftp_handle_ids);
        let mut kept: Vec<String> = Vec::new();
        let mut found = false;
        let mut i: usize = 0;
        while i < handles.len()
            invariant
                handles@ == b,
                p == other_than(key@),
                i <= b.len(),
                kept@ == b.take(i as int).filter(p),
                found == strs_view(b.take(i as int)).contains(key@),
            decreases b.len() - i,
        {
            proof {
                lemma_filter_take_step(b, p, i as int);
                assert(strs_view(b.take(i + 1)) =~= strs_view(b.take(i as int)).push(b[i as int]@));
                lemma_contains_push(strs_view(b.take(i as int)), b[i as int]@, key@);
            }
            if crate::text::string_eq(&handles[i], key) {
                found = true;
            } else {
                kept.push(handles[i].clone());
            }
            i = i + 1;
        }
        assert(b.take(b.len() as int) =~= b);
        self.sftp_handle_ids = kept;
        found
    }

    /// Drops the system-information tabs whose terminal is gone, and the
    /// active one when it went with them.
    fn prune_system_info_tabs(&mut self)
        ensures
            infos_pruned(old(self).workspace@, final(self).workspace@),
            *final(self) == (TinyShell { workspace: final(self).workspace, ..*old(self) }),
    {
        let ghost b = self.workspace@;
        let ghost p = follows_one_of(b.tabs);
        let ghost tab_ids = b.tabs.map_values(|t: TerminalTab| t.id@);
        let mut open_ids: Vec<String> = Vec::new();
        let mut k: usize = 0;
        while k < self.workspace.tabs().len()
            invariant
                self.workspace@ == b,
                k <= b.tabs.len(),
                tab_ids == b.tabs.map_values(|t: TerminalTab| t.id@),
                strs_view(open_ids@) == tab_ids.take(k as int),
            decreases b.tabs.len() - k,
        {
            let ghost before = open_ids@;
            let t_id = self.workspace.tabs()[k].id.clone();
            assert(t_id@ == tab_ids[k as int]);
            open_ids.push(t_id);
            assert(open_ids@ == before.push(t_id));
            assert(strs_view(open_ids@) =~= strs_view(before).push(t_id@));
            assert(tab_ids.take(k + 1) =~= tab_ids.take(k as int).push(tab_ids[k as int]));
            assert(strs_view(open_ids@) =~= tab_ids.take(k + 1));
            k = k + 1;
        }
        assert(tab_ids.take(tab_ids.len() as int) =~= tab_ids);
        let infos = self.workspace.system_info_tabs_mut();
        let mut old_infos: Vec<SystemInfoTab> = Vec::new();
        std::mem::swap(&mut old_infos, infos);
        let mut kept: Vec<SystemInfoTab> = Vec::new();
        let mut i: usize = 0;
        while i < old_infos.len()
            invariant
                old_infos@ == b.system_info_tabs,
                p == follows_one_of(b.tabs),
                strs_view(open_ids@) == b.tabs.map_values(|t: TerminalTab| t.id@),
                i <= old_infos@.len(),
                kept@ == b.system_info_tabs.take(i as int).filter(p),
            decreases old_infos@.len() - i,
        {
            proof {
                lemma_filter_take_step(b.system_info_tabs, p, i as int);
            }
            if strs_contain(&open_ids, old_infos[i].source_tab_id.as_str()) {
                kept.push(old_infos[i].duplicate());
            }
            i = i + 1;
        }
        assert(b.system_info_tabs.take(b.system_info_tabs.len() as int) =~= b.system_info_tabs);
        *infos = kept;
        let ghost mid = self.workspace@;
        let ghost kept_ids = mid.system_info_tabs.map_values(|t: SystemInfoTab| t.id@);
        let still_there = match self.workspace.active_system_info_tab_id() {
            Some(active) => {
                let mut found = false;
                let mut j: usize = 0;
                while j < self.workspace.system_info_tabs().len()
                    invariant
                        self.workspace@ == mid,
                        j <= mid.system_info_tabs.len(),
                        mid.active_system_info_tab matches Some(a) && a@ == active@,
                        kept_ids == mid.system_info_tabs.map_values(|t: SystemInfoTab| t.id@),
                        found == kept_ids.take(j as int).contains(active@),
                    decreases mid.system_info_tabs.len() - j,
                {
                    proof {
                        assert(kept_ids.take(j + 1) =~= kept_ids.take(j as int).push(
                            mid.system_info_tabs[j as int].id@,
                        ));
                        lemma_contains_push(
                            kept_ids.take(j as int),
                            mid.system_info_tabs[j as int].id@,
                            active@,
                        );
                    }
                    if crate::text::str_eq(self.workspace.system_info_tabs()[j].id.as_str(), active) {
                        found = true;
                    }
                    j = j + 1;
                }
                assert(kept_ids.take(kept_ids.len() as int) =~= kept_ids);
                found
            },
            None => true,
        };
        if !still_there {
            self.workspace.clear_active_system_info_tab();
        }
    }

    /// Closes the pane at `tab_index` of group `group_index`: the group
    /// closes with its only pane (and its SFTP connection), another pane
    /// leaves the group's layout; the closed terminals and their
    /// system-information tabs go. Returns what the backends must shut.
    pub fn close_tab_at(&mut self, group_index: usize, tab_index: usize) -> (r: ClosedPanes)
        requires
            group_index < old(self).workspace@.tab_groups.len(),
            tab_index < layout_ids(old(self).workspace@.tab_groups[group_index as int].pane_root).len(),
        ensures
            panes_closed(*old(self), *final(self), group_index as int, tab_index as int, r),
    {
        let ghost b = self.workspace@;
        let pane_ids = self.workspace.tab_groups()[group_index].pane_root.tab_ids();
        let group_id = self.workspace.tab_groups()[group_index].id.clone();
        let id = pane_ids[tab_index].clone();
        let ghost ids = layout_ids(b.tab_groups[group_index as int].pane_root);
        assert(strs_view(pane_ids@) == ids);
        assert(id@ == ids[tab_index as int]);
        let mut closed: Vec<String> = Vec::new();
        let was_open = self.close_terminal(&id);
        if was_open {
            closed.push(id.clone());
        }
        assert(strs_view(closed@) =~= closed_ids(b.tabs, id@));
        let mut sftp_closed = false;
        if pane_ids.len() <= 1 {
            assert(ids =~= seq![id@]);
            sftp_closed = self.drop_sftp_handle(&group_id);
            self.workspace.remove_group_at(group_index);
            let ghost before = self.workspace@;
            let root = self.workspace.pane_root_mut();
            root.remove_tab(id.as_str());
            proof {
                assert(shown_pane_removed(before, self.workspace@, id@));
            }
            self.prune_system_info_tabs();
            assert(pane_closed(b, self.workspace@, group_index as int, tab_index as int));
        } else {
            let ghost m0 = self.workspace@;
            let j = match self.workspace.group_position_of_tab(id.as_str()) {
                Some(j) => j,
                None => {
                    proof {
                        crate::seq_util::lemma_first_index_sound(
                            b.tab_groups,
                            |g: TabGroup| layout_ids(g.pane_root).contains(id@),
                        );
                        assert(ids[tab_index as int] == id@);
                        assert(layout_ids(b.tab_groups[group_index as int].pane_root).contains(id@));
                    }
                    0
                },
            };
            proof {
                crate::seq_util::lemma_first_index_sound(
                    b.tab_groups,
                    |g: TabGroup| layout_ids(g.pane_root).contains(id@),
                );
            }
            let groups = self.workspace.tab_groups_mut();
            groups[j].pane_root.remove_tab(id.as_str());
            let ghost m1 = self.workspace@;
            assert(group_pane_removed(m0, m1, j as int, id@));
            let root = self.workspace.pane_root_mut();
            root.remove_tab(id.as_str());
            let ghost m2 = self.workspace@;
            assert(shown_pane_removed(m1, m2, id@));
            self.prune_system_info_tabs();
            assert(pane_closed(b, self.workspace@, group_index as int, tab_index as int));
        }
        ClosedPanes { closed_tab_ids: closed, sftp_closed }
    }
}

/// After a close, a new active tab is needed when the closed pane was
/// active or the active tab no longer exists.
pub open spec fn needs_new_active(m: WorkspaceModel, was_active: bool) -> bool {
    was_active || match m.active_tab {
        Some(a) => !m.tabs.map_values(|t: TerminalTab| t.id@).contains(a@),
        None => false,
    }
}

/// The tab to activate when none was proposed: the first pane shown, else
/// the first terminal tab.
pub open spec fn fallback_active(m: WorkspaceModel) -> Option<Seq<char>> {
    let ids = layout_ids(m.current_pane_root());
    if ids.len() > 0 {
        Some(ids[0])
    } else if m.tabs.len() > 0 {
        Some(m.tabs[0].id@)
    } else {
        None
    }
}

/// The tab to activate: the proposed one, else the fallback.
pub open spec fn chosen_active(m: WorkspaceModel, proposed: Option<Seq<char>>) -> Option<Seq<char>> {
    match proposed {
        Some(n) => Some(n),
        None => fallback_active(m),
    }
}

/// Activating tab `n` makes another group active: the first group showing
/// it is not the active one.
pub open spec fn switches_group(m: WorkspaceModel, n: Seq<char>) -> bool {
    match group_of_tab(m.tab_groups, n) {
        Some(j) => opt_view(m.active_group) != Some(m.tab_groups[j].id@),
        None => false,
    }
}

/// Window `b` is window `a` with tab `n` made active and, when a group shows
/// it, the first such group made active and shown (its layout copied into
/// the shown layout).
pub open spec fn activated_toward(a: TinyShell, b: TinyShell, n: Seq<char>) -> bool {
    let m = a.workspace@;
    &&& b == TinyShell { workspace: b.workspace, ..a }
    &&& opt_view(b.workspace@.active_tab) == Some(n)
    &&& match group_of_tab(m.tab_groups, n) {
        Some(j) => exists|root: PaneLayout|
            tree_of(root) == tree_of(m.tab_groups[j].pane_root) && layout_ids(root) == layout_ids(
                m.tab_groups[j].pane_root,
            ) && b.workspace@ == (
            WorkspaceModel {
                active_tab: b.workspace@.active_tab,
                active_group: b.workspace@.active_group,
                ..m
            }).with_current_pane_root(root) && opt_view(b.workspace@.active_group) == Some(
                m.tab_groups[j].id@,
            ) && (WorkspaceModel {
                active_tab: b.workspace@.active_tab,
                active_group: b.workspace@.active_group,
                ..m
            }).active_group_index() is Some,
        None => b.workspace@ == (WorkspaceModel { active_tab: b.workspace@.active_tab, ..m }),
    }
}

/// Window `b` is window `a` once the active tab was chosen after a close,
/// `proposed` being the tab proposed and `switched` whether the active group
/// changed. When a new active tab is needed, the chosen tab (if any) is
/// activated as `activated_toward` says and focused; otherwise the active
/// pane (if any) is focused again.
pub open spec fn activated_after_close(
    a: TinyShell,
    b: TinyShell,
    was_active: bool,
    proposed: Option<Seq<char>>,
    switched: bool,
) -> bool {
    let m = a.workspace@;
    if needs_new_active(m, was_active) {
        match chosen_active(m, proposed) {
            None => b == a && !switched,
            Some(n) => {
                &&& exists|mid: TinyShell|
                    #![trigger activated_toward(a, mid, n)]
                    activated_toward(a, mid, n) && focus_outcome(mid, b, n)
                &&& switched == switches_group(m, n)
            },
        }
    } else {
        !switched && match m.active_tab {
            Some(t) => focus_outcome(a, b, t@),
            None => b == a,
        }
    }
}

impl TinyShell {
    /// Chooses the active tab after a pane closed: when one is needed, the
    /// proposed tab, else the first pane shown, else the first terminal; its
    /// group becomes active and its pane focused. Otherwise the active pane
    /// is focused again, as the layout may have changed. Returns whether the
    /// active group changed.
    #[verifier::spinoff_prover]
    pub fn activate_tab_after_close(&mut self, was_active: bool, next_active_id: Option<String>) -> (
        group_switched: bool)
        ensures
            activated_after_close(*old(self), *final(self), was_active, opt_view(next_active_id), group_switched),
    {
        let ghost m = self.workspace@;
        let mut needed = was_active;
        if !needed {
            if let Some(active) = self.workspace.active_tab_id() {
                let found = self.workspace.terminal_tab(active).is_some();
                proof {
                    let ids = m.tabs.map_values(|t: TerminalTab| t.id@);
                    crate::seq_util::lemma_first_index_sound(m.tabs, |t: TerminalTab| t.id@ == active@);
                    if found {
                        let i = crate::terminal_workspace::tab_index(m.tabs, active@)->0;
                        assert(ids[i] == active@);
                    } else if ids.contains(active@) {
                        let k = choose|k: int| 0 <= k < ids.len() && #[trigger] ids[k] == active@;
                        assert(m.tabs[k].id@ == active@);
                    }
                    assert(found == ids.contains(active@));
                }
                needed = !found;
            }
        }
        assert(needed == needs_new_active(m, was_active));
        if !needed {
            match self.workspace.active_tab_value() {
                Some(active) => {
                    self.focus_pane_with_id(active);
                },
                None => {},
            }
            return false;
        }
        let new_id = match next_active_id {
            Some(n) => Some(n),
            None => {
                let ids = self.workspace.pane_root().tab_ids();
                if ids.len() > 0 {
                    assert(strs_view(ids@)[0] == ids@[0]@);
                    Some(ids[0].clone())
                } else if self.workspace.tabs().len() > 0 {
                    Some(self.workspace.tabs()[0].id.clone())
                } else {
                    None
                }
            },
        };
        assert(opt_view(new_id) == chosen_active(m, opt_view(next_active_id)));
        let new_id = match new_id {
            Some(n) => n,
            None => {
                return false;
            },
        };
        let ghost before = *self;
        self.workspace.set_active_tab(Some(new_id.clone()));
        let mut switched = false;
        match self.workspace.group_position_of_tab(new_id.as_str()) {
            Some(j) => {
                proof {
                    crate::seq_util::lemma_first_index_sound(
                        m.tab_groups,
                        |g: TabGroup| layout_ids(g.pane_root).contains(new_id@),
                    );
                }
                let group_id = self.workspace.tab_groups()[j].id.clone();
                let root = self.workspace.tab_groups()[j].pane_root.duplicate();
                switched = match self.workspace.active_group_id() {
                    Some(g) => !crate::text::str_eq(g, group_id.as_str()),
                    None => true,
                };
                let ghost gid = group_id@;
                self.workspace.set_active_group(Some(group_id));
                proof {
                    let w = self.workspace@;
                    crate::seq_util::lemma_first_index_sound(m.tab_groups, |g: TabGroup| layout_ids(g.pane_root).contains(new_id@));
                    assert(w.tab_groups[j as int].id@ == gid);
                    crate::seq_util::lemma_first_index_sound(w.tab_groups, crate::terminal_workspace::has_id(gid));
                    if crate::seq_util::first_index(w.tab_groups, crate::terminal_workspace::has_id(gid)) is None {
                        assert(false);
                    }
                }
                let ghost w2 = self.workspace@;
                let ghost rv = root;
                self.workspace.set_pane_root(root);
                proof {
                    let b = self.workspace@;
                    assert(w2 == (WorkspaceModel {
                        active_tab: b.active_tab,
                        active_group: b.active_group,
                        ..m
                    }));
                    assert(b == w2.with_current_pane_root(rv));
                    assert(layout_ids(rv) == layout_ids(m.tab_groups[j as int].pane_root));
                    crate::terminal_workspace::lemma_group_index_found(w2.tab_groups, gid, j as int);
                    assert(w2.active_group_index() is Some);
                    assert(activated_toward(before, *self, new_id@));
                }
            },
            None => {
                assert(activated_toward(before, *self, new_id@));
            },
        }
        let ghost mid = *self;
        let ghost n = new_id@;
        self.focus_pane_with_id(new_id);
        assert(activated_toward(*old(self), mid, n) && focus_outcome(mid, *self, n));
        switched
    }
}

} // verus!
