//! Closing a terminal tab: what it takes with it, and which tab is active
//! afterwards.
use vstd::prelude::*;

use crate::pane_layout::{is_id, layout_ids, strs_contain, strs_view};
use crate::seq_util::{first_index, lemma_filter_take_step, lemma_first_index_found, lemma_first_index_none, lemma_first_index_sound};
use crate::shell::{group_ssh_tabs, next_active_after_close, opt_view, TinyShell};
use crate::shell_close::{activated_after_close, other_than, panes_closed, ClosedPanes};
use crate::shell_groups::system_tab_synced;
use crate::shell_info::follows;
use crate::terminal_workspace::{
    group_of_tab, info_index, tab_index, SystemInfoTab, TerminalTab, WorkspaceModel,
};
use crate::text::str_eq;

verus! {

/// What closing a tab leaves for the rest of the application to do.
#[derive(Debug)]
pub enum TabCloseOutcome {
    /// The tab was in no group: `removed` tells whether a terminal tab with
    /// its id was dropped (its terminal is to be shut), `now_empty` whether
    /// no terminal tab is left.
    Ungrouped { removed: bool, now_empty: bool },
    /// The pane closed and other tabs stay.
    Closed(ClosedPanes),
    /// The pane closed and nothing is left: the window is cleared and shows
    /// the home page.
    Emptied(ClosedPanes),
}

/// The ids of system-information tabs.
pub open spec fn info_ids(tabs: Seq<SystemInfoTab>) -> Seq<Seq<char>> {
    tabs.map_values(|t: SystemInfoTab| t.id@)
}

/// `tabs` less the first system-information tab with id `x`.
pub open spec fn without_info(tabs: Seq<SystemInfoTab>, x: Seq<char>) -> Seq<SystemInfoTab> {
    match info_index(tabs, x) {
        Some(i) => tabs.remove(i),
        None => tabs,
    }
}

/// `tabs` less, for each of `ids` in turn, the first tab with that id.
pub open spec fn without_infos(tabs: Seq<SystemInfoTab>, ids: Seq<Seq<char>>) -> Seq<SystemInfoTab>
    decreases ids.len(),
{
    if ids.len() == 0 {
        tabs
    } else {
        without_info(without_infos(tabs, ids.drop_last()), ids.last())
    }
}

/// `tabs` less the first terminal tab with id `id`.
pub open spec fn without_tab(tabs: Seq<TerminalTab>, id: Seq<char>) -> Seq<TerminalTab> {
    match tab_index(tabs, id) {
        Some(i) => tabs.remove(i),
        None => tabs,
    }
}

/// Window `b` is window `a` once the search stopped following tab `id`:
/// when it searched that tab, it is cleared.
pub open spec fn search_released(a: TinyShell, b: TinyShell, id: Seq<char>) -> bool {
    if opt_view(a.search_target_tab) == Some(id) {
        &&& b == TinyShell {
            search_target_tab: None,
            search_matches: b.search_matches,
            search_query: b.search_query,
            search_current: 0,
            ..a
        }
        &&& b.search_matches@.len() == 0
        &&& b.search_query@.len() == 0
    } else {
        b == a
    }
}

/// Window `b` is window `a` once the system-information tabs that follow tab
/// `id` closed (each of them by its id, in order); when the active one was
/// among them, none stays active.
pub open spec fn infos_of_tab_closed(a: TinyShell, b: TinyShell, id: Seq<char>) -> bool {
    let m = a.workspace@;
    let following = info_ids(m.system_info_tabs.filter(follows(id)));
    &&& b == TinyShell { workspace: b.workspace, ..a }
    &&& b.workspace@ == (WorkspaceModel {
        system_info_tabs: without_infos(m.system_info_tabs, following),
        active_system_info_tab: match m.active_system_info_tab {
            Some(x) => if following.contains(x@) {
                None
            } else {
                Some(x)
            },
            None => None,
        },
        ..m
    })
}

/// Window `b` is window `a` once cleared for the home page: no tabs, groups
/// or selections, no monitored tab and no SFTP handle.
pub open spec fn emptied(a: TinyShell, b: TinyShell) -> bool {
    &&& b == TinyShell {
        workspace: b.workspace,
        system_tab_id: None,
        sftp_handle_ids: b.sftp_handle_ids,
        home_page_open: true,
        ..a
    }
    &&& b.sftp_handle_ids@.len() == 0
    &&& b.workspace@ == (WorkspaceModel {
        tabs: seq![],
        active_tab: None,
        tab_groups: seq![],
        active_group: None,
        system_info_tabs: seq![],
        active_system_info_tab: None,
        pane_root: crate::pane_layout::PaneLayout::Empty,
        focused_pane_path: seq![],
        ..a.workspace@
    })
}

/// Window `b` is window `a` once tab `id` itself closed, `r` telling what is
/// left to do. A tab in no group is dropped from the terminal tabs. A pane
/// closes as `panes_closed` says; when no tab or no group is left the window
/// is emptied, otherwise the next tab is activated as
/// `activated_after_close` says (proposed by `next_active_after_close`) and
/// the monitored tab follows the active group.
pub open spec fn tab_itself_closed(a: TinyShell, b: TinyShell, id: Seq<char>, r: TabCloseOutcome) -> bool {
    let m = a.workspace@;
    match group_of_tab(m.tab_groups, id) {
        None => {
            let rest = without_tab(m.tabs, id);
            &&& r == TabCloseOutcome::Ungrouped {
                removed: tab_index(m.tabs, id) is Some,
                now_empty: rest.len() == 0,
            }
            &&& b == TinyShell { workspace: b.workspace, ..a }
            &&& b.workspace@ == (WorkspaceModel { tabs: rest, ..m })
        },
        Some(g) => {
            let ti = first_index(layout_ids(m.tab_groups[g].pane_root), is_id(id))->0;
            let next = next_active_after_close(m, g, ti);
            exists|closed: TinyShell, panes: ClosedPanes|
                #![trigger panes_closed(a, closed, g, ti, panes)]
                panes_closed(a, closed, g, ti, panes) && if closed.workspace@.tabs.len() == 0
                    || closed.workspace@.tab_groups.len() == 0 {
                    r == TabCloseOutcome::Emptied(panes) && emptied(closed, b)
                } else {
                    &&& r == TabCloseOutcome::Closed(panes)
                    &&& exists|activated: TinyShell, switched: bool|
                        #![trigger activated_after_close(closed, activated, next.0, next.1, switched)]
                        activated_after_close(closed, activated, next.0, next.1, switched)
                            && system_tab_synced(activated, b)
                }
        },
    }
}

/// Window `b` is window `a` after tab `id` closed: the search lets go of
/// it, its system-information tabs close, then the tab itself closes as
/// `tab_itself_closed` says.
pub open spec fn tab_close_handled(a: TinyShell, b: TinyShell, id: Seq<char>, r: TabCloseOutcome) -> bool {
    exists|released: TinyShell, pruned: TinyShell|
        #![trigger search_released(a, released, id), infos_of_tab_closed(released, pruned, id)]
        search_released(a, released, id) && infos_of_tab_closed(released, pruned, id)
            && tab_itself_closed(pruned, b, id, r)
}

/// The group of tab `id` when closing the tab closes that group's SFTP
/// connection: the first group showing the tab, when it has only that pane
/// and an open SFTP handle.
pub open spec fn sftp_group_closing(a: TinyShell, id: Seq<char>) -> Option<Seq<char>> {
    let m = a.workspace@;
    match group_of_tab(m.tab_groups, id) {
        Some(j) => if layout_ids(m.tab_groups[j].pane_root).len() <= 1 && strs_view(
            a.sftp_handle_ids@,
        ).contains(m.tab_groups[j].id@) {
            Some(m.tab_groups[j].id@)
        } else {
            None
        },
        None => None,
    }
}

/// The backend routes that closing tab `id` ends: in the first group
/// showing it, the tab's own route, or, when it is the group's only pane,
/// the routes of all its panes and of the group; the tab's own route when
/// no group shows it.
pub open spec fn close_routes(m: WorkspaceModel, id: Seq<char>) -> Seq<Seq<char>> {
    match group_of_tab(m.tab_groups, id) {
        Some(j) => {
            let ids = layout_ids(m.tab_groups[j].pane_root);
            if ids.len() <= 1 {
                ids.push(m.tab_groups[j].id@)
            } else {
                ids.filter(is_id(id))
            }
        },
        None => seq![id],
    }
}

impl TinyShell {
    /// The group whose SFTP connection closes with tab `tab_id`, as
    /// `sftp_group_closing` says; such a close must first be agreed to by the
    /// editors of that connection.
    pub fn closing_sftp_group(&self, tab_id: &str) -> (r: Option<String>)
        ensures
            opt_view(r) == sftp_group_closing(*self, tab_id@),
    {
        match self.workspace.group_position_of_tab(tab_id) {
            Some(j) => {
                proof {
                    lemma_first_index_sound(
                        self.workspace@.tab_groups,
                        |g: crate::terminal_workspace::TabGroup| layout_ids(g.pane_root).contains(
                            tab_id@,
                        ),
                    );
                }
                let group = &self.workspace.tab_groups()[j];
                let panes = group.pane_root.tab_ids();
                if panes.len() <= 1 && strs_contain(&self.sftp_handle_ids, group.id.as_str()) {
                    Some(group.id.clone())
                } else {
                    None
                }
            },
            None => None,
        }
    }

    /// The backend routes that closing tab `tab_id` ends, as `close_routes`
    /// says.
    pub fn close_route_ids(&self, tab_id: &str) -> (r: Vec<String>)
        ensures
            strs_view(r@) == close_routes(self.workspace@, tab_id@),
    {
        match self.workspace.group_position_of_tab(tab_id) {
            Some(j) => {
                proof {
                    lemma_first_index_sound(
                        self.workspace@.tab_groups,
                        |g: crate::terminal_workspace::TabGroup| layout_ids(g.pane_root).contains(
                            tab_id@,
                        ),
                    );
                }
                let group = &self.workspace.tab_groups()[j];
                let panes = group.pane_root.tab_ids();
                let ghost v = strs_view(panes@);
                if panes.len() <= 1 {
                    let mut ids = panes;
                    ids.push(group.id.clone());
                    assert(strs_view(ids@) =~= v.push(group.id@));
                    return ids;
                }
                let ghost p = is_id(tab_id@);
                let mut ids: Vec<String> = Vec::new();
                let mut i: usize = 0;
                while i < panes.len()
                    invariant
                        i <= panes@.len(),
                        v == strs_view(panes@),
                        p == is_id(tab_id@),
                        strs_view(ids@) == v.take(i as int).filter(p),
                    decreases panes@.len() - i,
                {
                    proof {
                        lemma_filter_take_step(v, p, i as int);
                    }
                    if str_eq(panes[i].as_str(), tab_id) {
                        let ghost before = strs_view(ids@);
                        ids.push(panes[i].clone());
                        assert(strs_view(ids@) =~= before.push(v[i as int]));
                    }
                    i = i + 1;
                }
                assert(v.take(v.len() as int) =~= v);
                ids
            },
            None => {
                let mut ids: Vec<String> = Vec::new();
                ids.push(crate::text::string_of(tab_id));
                assert(strs_view(ids@) =~= seq![tab_id@]);
                ids
            },
        }
    }

    /// Stops the search when it follows tab `id`.
    fn release_search(&mut self, id: &str)
        ensures
            search_released(*old(self), *final(self), id@),
    {
        let is_target = match &self.search_target_tab {
            Some(t) => str_eq(t.as_str(), id),
            None => false,
        };
        if is_target {
            self.search_target_tab = None;
            self.search_matches = Vec::new();
            self.search_query = String::new();
            self.search_current = 0;
        }
    }

    /// Closes the system-information tabs that follow tab `id`.
    fn close_infos_of(&mut self, id: &str)
        ensures
            infos_of_tab_closed(*old(self), *final(self), id@),
    {
        let ghost a = *self;
        let ghost m = self.workspace@;
        let ghost p = follows(id@);
        let mut following: Vec<String> = Vec::new();
        let mut i: usize = 0;
        while i < self.workspace.system_info_tabs().len()
            invariant
                *self == a,
                m == self.workspace@,
                p == follows(id@),
                i <= m.system_info_tabs.len(),
                strs_view(following@) == info_ids(m.system_info_tabs.take(i as int).filter(p)),
            decreases m.system_info_tabs.len() - i,
        {
            proof {
                lemma_filter_take_step(m.system_info_tabs, p, i as int);
            }
            let tab = &self.workspace.system_info_tabs()[i];
            if str_eq(tab.source_tab_id.as_str(), id) {
                let ghost before = strs_view(following@);
                following.push(tab.id.clone());
                assert(strs_view(following@) =~= before.push(tab.id@));
                assert(info_ids(m.system_info_tabs.take(i + 1).filter(p)) =~= info_ids(
                    m.system_info_tabs.take(i as int).filter(p),
                ).push(tab.id@));
            }
            i = i + 1;
        }
        assert(m.system_info_tabs.take(m.system_info_tabs.len() as int) =~= m.system_info_tabs);
        let ghost fv = strs_view(following@);
        let removed_active = match self.workspace.active_system_info_tab_id() {
            Some(active) => strs_contain(&following, active),
            None => false,
        };
        let mut k: usize = 0;
        while k < following.len()
            invariant
                k <= following@.len(),
                fv == strs_view(following@),
                *self == (TinyShell { workspace: self.workspace, ..a }),
                self.workspace@ == (WorkspaceModel {
                    system_info_tabs: without_infos(m.system_info_tabs, fv.take(k as int)),
                    ..m
                }),
            decreases following@.len() - k,
        {
            assert(fv.take(k + 1).drop_last() =~= fv.take(k as int));
            assert(fv.take(k + 1).last() == following@[k as int]@);
            self.workspace.remove_system_info_tab(following[k].as_str());
            k = k + 1;
        }
        assert(fv.take(fv.len() as int) =~= fv);
        if removed_active {
            self.workspace.clear_active_system_info_tab();
        }
    }

    /// Closes tab `id`, as `tab_close_handled` says: the search lets go of
    /// it, its system-information tabs close, then the tab or pane closes and
    /// another tab becomes active, or the window empties. Returns what is
    /// left to do: which terminals and SFTP connection to shut, and whether
    /// the window emptied.
    pub fn handle_tab_close(&mut self, id: String) -> (r: TabCloseOutcome)
        ensures
            tab_close_handled(*old(self), *final(self), id@, r),
    {
        let ghost a = *self;
        self.release_search(id.as_str());
        let ghost released = *self;
        self.close_infos_of(id.as_str());
        let ghost pruned = *self;
        let ghost m = self.workspace@;
        let r = match self.find_tab_and_group(id.as_str()) {
            None => {
                let mut tabs = self.workspace.take_tabs();
                let ghost p = |t: TerminalTab| t.id@ == id@;
                let mut i: usize = 0;
                while i < tabs.len() && !str_eq(tabs[i].id.as_str(), id.as_str())
                    invariant
                        i <= tabs@.len(),
                        tabs@ == m.tabs,
                        p == (|t: TerminalTab| t.id@ == id@),
                        forall|j: int| 0 <= j < i ==> !p(#[trigger] tabs@[j]),
                    decreases tabs@.len() - i,
                {
                    i = i + 1;
                }
                let removed = i < tabs.len();
                if removed {
                    proof {
                        lemma_first_index_found(tabs@, p, i as int);
                    }
                    tabs.remove(i);
                } else {
                    proof {
                        lemma_first_index_none(tabs@, p);
                    }
                }
                self.workspace.append_tabs(tabs);
                assert(self.workspace@.tabs =~= without_tab(m.tabs, id@));
                let now_empty = self.workspace.tab_count() == 0;
                TabCloseOutcome::Ungrouped { removed, now_empty }
            },
            Some((group_index, tab_index)) => {
                proof {
                    lemma_first_index_sound(
                        m.tab_groups,
                        |g: crate::terminal_workspace::TabGroup| layout_ids(g.pane_root).contains(
                            id@,
                        ),
                    );
                    lemma_first_index_sound(
                        layout_ids(m.tab_groups[group_index as int].pane_root),
                        is_id(id@),
                    );
                }
                let (was_active, next_active_id) = self.resolve_next_active(group_index, tab_index);
                let panes = self.close_tab_at(group_index, tab_index);
                let ghost closed = *self;
                if self.workspace.tab_count() == 0 || self.workspace.tab_groups().len() == 0 {
                    self.workspace.clear();
                    self.system_tab_id = None;
                    self.sftp_handle_ids = Vec::new();
                    self.home_page_open = true;
                    assert(emptied(closed, *self));
                    TabCloseOutcome::Emptied(panes)
                } else {
                    let switched = self.activate_tab_after_close(was_active, next_active_id);
                    let ghost activated = *self;
                    self.sync_system_tab_to_active_group();
                    assert(activated_after_close(
                        closed,
                        activated,
                        next_active_after_close(m, group_index as int, tab_index as int).0,
                        next_active_after_close(m, group_index as int, tab_index as int).1,
                        switched,
                    ));
                    assert(system_tab_synced(activated, *self));
                    TabCloseOutcome::Closed(panes)
                }
            },
        };
        assert(search_released(a, released, id@));
        assert(infos_of_tab_closed(released, pruned, id@));
        r
    }
}

} // verus!
