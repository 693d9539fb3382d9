//! The window-level state that the workspace actions of the client work on.
use vstd::prelude::*;

use crate::pane_layout::{is_id, layout_ids, strs_view, tab_at_path, PaneLayout};
use crate::seq_util::{first_index, lemma_filter_take_step, lemma_first_index_found, lemma_first_index_none, lemma_first_index_sound};
use crate::shell_panes::{adjacent, path_ok, path_to, PaneDirection};
use crate::tab_drag::{ordered_selection, TabDragState};
use crate::tab_transfer::TransferTargetManifest;
use crate::terminal_workspace::{
    clone_opt, group_index, group_of_tab, tab_index, TabKind, TerminalTab, TerminalWorkspaceState,
    WorkspaceModel,
};
use crate::text::{str_eq, string_of};

verus! {

/// What the workspace actions of a window read and change: the workspace,
/// the monitored SSH tab, the open SFTP handles (by id), the saved sessions
/// (by id), the tab drag state, the splitter being dragged, the terminal
/// search and the remote desktop surfaces (by tab id).
pub struct TinyShell {
    pub workspace: TerminalWorkspaceState,
    pub system_tab_id: Option<String>,
    pub home_page_open: bool,
    pub sftp_handle_ids: Vec<String>,
    pub session_ids: Vec<String>,
    pub tab_drag: TabDragState,
    pub dragging_splitter: Option<(Vec<usize>, usize)>,
    /// The pointer position a splitter drag started at, as `f32` bits.
    pub drag_split_origin: Option<(u32, u32)>,
    pub search_active: bool,
    pub search_query: String,
    pub search_matches: Vec<(i32, i32)>,
    pub search_current: usize,
    pub search_target_tab: Option<String>,
    /// The ids of the remote desktop tabs that have a drawing surface.
    pub remote_desktop_surfaces: Vec<String>,
}

/// An entry of the new-tab selector.
#[derive(Debug)]
pub enum SelectorEntry {
    Local,
    NewSsh,
    Saved(String),
}

/// The ids of the panes of the active group that show SSH tabs, in layout
/// order.
pub open spec fn group_ssh_tabs(m: WorkspaceModel) -> Seq<Seq<char>> {
    match m.active_group {
        Some(g) => match group_index(m.tab_groups, g@) {
            Some(i) => layout_ids(m.tab_groups[i].pane_root).filter(is_ssh_tab(m.tabs)),
            None => seq![],
        },
        None => seq![],
    }
}

/// A tab id names an SSH tab of `tabs` (the first tab with that id).
pub open spec fn is_ssh_tab(tabs: Seq<TerminalTab>) -> spec_fn(Seq<char>) -> bool {
    |id: Seq<char>| match tab_index(tabs, id) {
        Some(k) => tabs[k].kind == TabKind::Ssh,
        None => false,
    }
}

/// The tab whose system information is monitored, after following the
/// active group: the current one while it is an SSH pane of that group,
/// else the group's first SSH pane.
pub open spec fn synced_system_tab(current: Option<Seq<char>>, ssh: Seq<Seq<char>>) -> Option<
    Seq<char>,
> {
    if current is Some && ssh.contains(current->0) {
        current
    } else if ssh.len() > 0 {
        Some(ssh[0])
    } else {
        None
    }
}

/// The view of an optional string.
pub open spec fn opt_view(s: Option<String>) -> Option<Seq<char>> {
    match s {
        Some(x) => Some(x@),
        None => None,
    }
}

/// The first tab of group `g`, if it has panes.
pub open spec fn first_tab_of(m: WorkspaceModel, g: int) -> Option<Seq<char>> {
    if layout_ids(m.tab_groups[g].pane_root).len() > 0 {
        Some(layout_ids(m.tab_groups[g].pane_root)[0])
    } else {
        None
    }
}

/// Which tab becomes active when the pane at `tab_index` of group
/// `group_index` closes: the pane before it, else the pane after it, else
/// the first pane of the group before, else of the group after; nothing when
/// the closing pane was not active.
pub open spec fn next_active_after_close(m: WorkspaceModel, gi: int, ti: int) -> (bool, Option<Seq<char>>) {
    let ids = layout_ids(m.tab_groups[gi].pane_root);
    let was_active = m.active_tab is Some && m.active_tab->0@ == ids[ti];
    if !was_active {
        (false, None)
    } else if ti > 0 {
        (true, Some(ids[ti - 1]))
    } else if ti + 1 < ids.len() {
        (true, Some(ids[ti + 1]))
    } else {
        match group_index(m.tab_groups, m.tab_groups[gi].id@) {
            Some(pos) => if pos > 0 {
                (true, first_tab_of(m, pos - 1))
            } else if pos + 1 < m.tab_groups.len() {
                (true, first_tab_of(m, pos + 1))
            } else {
                (true, None)
            },
            None => (true, None),
        }
    }
}

impl TinyShell {
    /// The workspace, for changes that leave the rest alone.
    pub fn workspace_state_mut(&mut self) -> (r: &mut TerminalWorkspaceState)
        ensures
            *r == old(self).workspace,
            *final(self) == (TinyShell { workspace: *final(r), ..*old(self) }),
    {
        &mut self.workspace
    }

    /// The entries of the new-tab selector: a local terminal, a new SSH
    /// connection, then each saved session.
    pub fn selector_entries(&self) -> (r: Vec<SelectorEntry>)
        ensures
            r@.len() == self.session_ids@.len() + 2,
            r@[0] is Local,
            r@[1] is NewSsh,
            forall|i: int|
                0 <= i < self.session_ids@.len() ==> #[trigger] r@[i + 2] == SelectorEntry::Saved(
                    self.session_ids@[i],
                ),
    {
        let mut entries: Vec<SelectorEntry> = Vec::new();
        entries.push(SelectorEntry::Local);
        entries.push(SelectorEntry::NewSsh);
        let mut i: usize = 0;
        while i < self.session_ids.len()
            invariant
                i <= self.session_ids@.len(),
                entries@.len() == i + 2,
                entries@[0] is Local,
                entries@[1] is NewSsh,
                forall|k: int|
                    0 <= k < i ==> #[trigger] entries@[k + 2] == SelectorEntry::Saved(
                        self.session_ids@[k],
                    ),
            decreases self.session_ids@.len() - i,
        {
            entries.push(SelectorEntry::Saved(self.session_ids[i].clone()));
            i = i + 1;
        }
        entries
    }

    /// The selector entry chosen first: a saved session when there is one.
    pub fn default_selector_index(&self) -> (r: usize)
        ensures
            r == if self.session_ids@.len() == 0 {
                0usize
            } else {
                2usize
            },
    {
        if self.session_ids.len() == 0 {
            0
        } else {
            2
        }
    }

    /// The group holding pane `tab_id` and the pane's position in that
    /// group's layout.
    pub fn find_tab_and_group(&self, tab_id: &str) -> (r: Option<(usize, usize)>)
        ensures
            match group_of_tab(self.workspace@.tab_groups, tab_id@) {
                Some(g) => r matches Some((gi, ti)) && gi == g && first_index(
                    layout_ids(self.workspace@.tab_groups[g].pane_root),
                    is_id(tab_id@),
                ) == Some(ti as int),
                None => r is None,
            },
    {
        let group_index = match self.workspace.group_position_of_tab(tab_id) {
            Some(g) => g,
            None => {
                return None;
            },
        };
        let ghost groups = self.workspace@.tab_groups;
        proof {
            lemma_first_index_sound(groups, |g: crate::terminal_workspace::TabGroup| layout_ids(g.pane_root).contains(tab_id@));
        }
        let ids = self.workspace.tab_groups()[group_index].pane_root.tab_ids();
        let ghost v = strs_view(ids@);
        let ghost p = is_id(tab_id@);
        let mut i: usize = 0;
        while i < ids.len()
            invariant
                i <= ids@.len(),
                v == strs_view(ids@),
                v == layout_ids(self.workspace@.tab_groups[group_index as int].pane_root),
                group_of_tab(self.workspace@.tab_groups, tab_id@) == Some(group_index as int),
                p == is_id(tab_id@),
                v.contains(tab_id@),
                forall|k: int| 0 <= k < i ==> !p(#[trigger] v[k]),
            decreases ids@.len() - i,
        {
            assert(v[i as int] == ids@[i as int]@);
            if str_eq(ids[i].as_str(), tab_id) {
                proof {
                    lemma_first_index_found(v, p, i as int);
                }
                return Some((group_index, i));
            }
            i = i + 1;
        }
        assert(false) by {
            let k = choose|k: int| 0 <= k < v.len() && v[k] == tab_id@;
            assert(!p(v[k]));
        }
        None
    }

    /// Whether closing the pane at `tab_index` of group `group_index` closes
    /// the active tab, and which tab should become active then.
    pub fn resolve_next_active(&self, group_index: usize, tab_index: usize) -> (r: (bool, Option<String>))
        requires
            group_index < self.workspace@.tab_groups.len(),
            tab_index < layout_ids(self.workspace@.tab_groups[group_index as int].pane_root).len(),
        ensures
            r.0 == next_active_after_close(self.workspace@, group_index as int, tab_index as int).0,
            opt_view(r.1) == next_active_after_close(self.workspace@, group_index as int, tab_index as int).1,
    {
        let groups = self.workspace.tab_groups();
        let group = &groups[group_index];
        let tabs_in_group = group.pane_root.tab_ids();
        assert(strs_view(tabs_in_group@)[tab_index as int] == tabs_in_group@[tab_index as int]@);
        let was_active = match self.workspace.active_tab_id() {
            Some(a) => str_eq(a, tabs_in_group[tab_index].as_str()),
            None => false,
        };
        if !was_active {
            return (false, None);
        }
        if tab_index > 0 {
            assert(strs_view(tabs_in_group@)[tab_index - 1] == tabs_in_group@[tab_index - 1]@);
            return (true, Some(tabs_in_group[tab_index - 1].clone()));
        }
        if tab_index + 1 < tabs_in_group.len() {
            assert(strs_view(tabs_in_group@)[tab_index + 1] == tabs_in_group@[tab_index + 1]@);
            return (true, Some(tabs_in_group[tab_index + 1].clone()));
        }
        let pos = match self.workspace.tab_group_position(group.id.as_str()) {
            Some(p) => p,
            None => {
                return (true, None);
            },
        };
        proof {
            lemma_first_index_sound(
                self.workspace@.tab_groups,
                |g: crate::terminal_workspace::TabGroup| g.id@ == group.id@,
            );
        }
        if pos > 0 {
            return (true, first_tab(&groups[pos - 1].pane_root));
        }
        if pos + 1 < groups.len() {
            return (true, first_tab(&groups[pos + 1].pane_root));
        }
        (true, None)
    }

    /// The kind of the active tab.
    pub fn active_kind(&self) -> (r: Option<TabKind>)
        ensures
            r == match self.workspace@.active_tab {
                Some(a) => match tab_index(self.workspace@.tabs, a@) {
                    Some(i) => Some(self.workspace@.tabs[i].kind),
                    None => None,
                },
                None => None,
            },
    {
        match self.workspace.active_tab_id() {
            Some(id) => match self.workspace.terminal_tab(id) {
                Some(tab) => Some(tab.kind),
                None => None,
            },
            None => None,
        }
    }

    /// The saved session of the active tab.
    pub fn active_session_id(&self) -> (r: Option<&str>)
        ensures
            opt_str_view(r) == match self.workspace@.active_tab {
                Some(a) => match tab_index(self.workspace@.tabs, a@) {
                    Some(i) => opt_view(self.workspace@.tabs[i].session_id),
                    None => None,
                },
                None => None,
            },
    {
        match self.workspace.active_tab_id() {
            Some(id) => match self.workspace.terminal_tab(id) {
                Some(tab) => match &tab.session_id {
                    Some(s) => Some(s.as_str()),
                    None => None,
                },
                None => None,
            },
            None => None,
        }
    }

    /// Copies the pane layout into the active group: layouts live in the
    /// active group itself, so there is nothing to copy.
    pub fn sync_pane_root_to_group(&mut self)
        ensures
            *final(self) == *old(self),
    {
    }

    /// Ends a splitter drag.
    pub fn end_drag_split(&mut self)
        ensures
            *final(self) == (TinyShell {
                dragging_splitter: None,
                drag_split_origin: None,
                ..*old(self)
            }),
    {
        self.dragging_splitter = None;
        self.drag_split_origin = None;
    }

    /// The groups to drag when `anchor` is dragged: the selected groups in
    /// tab-bar order, or the anchor alone.
    pub fn selected_drag_group_ids(&self, anchor: &str) -> (r: Vec<String>)
        ensures
            strs_view(r@) == ordered_selection(
                self.tab_drag@.selected_groups,
                anchor@,
                self.workspace@.tab_groups.map_values(|g: crate::terminal_workspace::TabGroup| g.id@),
            ),
    {
        let groups = self.workspace.tab_groups();
        let mut ids: Vec<String> = Vec::new();
        let mut i: usize = 0;
        while i < groups.len()
            invariant
                i <= groups@.len(),
                groups@ == self.workspace@.tab_groups,
                strs_view(ids@) == groups@.map_values(|g: crate::terminal_workspace::TabGroup| g.id@).take(i as int),
            decreases groups@.len() - i,
        {
            let ghost before = strs_view(ids@);
            ids.push(groups[i].id.clone());
            assert(strs_view(ids@) =~= before.push(groups@[i as int].id@));
            assert(groups@.map_values(|g: crate::terminal_workspace::TabGroup| g.id@).take(i + 1) =~= before.push(groups@[i as int].id@));
            i = i + 1;
        }
        assert(groups@.map_values(|g: crate::terminal_workspace::TabGroup| g.id@).take(groups@.len() as int) =~= groups@.map_values(|g: crate::terminal_workspace::TabGroup| g.id@));
        self.tab_drag.ordered_drag_groups(anchor, ids)
    }

    /// The group, terminal and SFTP handle ids this window already holds.
    pub fn transfer_target_manifest(&self) -> (r: TransferTargetManifest)
        ensures
            strs_view(r.group_ids@) == self.workspace@.tab_groups.map_values(|g: crate::terminal_workspace::TabGroup| g.id@),
            strs_view(r.tab_ids@) == self.workspace@.tabs.map_values(|t: TerminalTab| t.id@),
            r.sftp_handle_ids@ == self.sftp_handle_ids@,
    {
        let groups = self.workspace.tab_groups();
        let mut group_ids: Vec<String> = Vec::new();
        let mut i: usize = 0;
        while i < groups.len()
            invariant
                i <= groups@.len(),
                groups@ == self.workspace@.tab_groups,
                strs_view(group_ids@) == groups@.map_values(|g: crate::terminal_workspace::TabGroup| g.id@).take(i as int),
            decreases groups@.len() - i,
        {
            let ghost before = strs_view(group_ids@);
            group_ids.push(groups[i].id.clone());
            assert(strs_view(group_ids@) =~= before.push(groups@[i as int].id@));
            assert(groups@.map_values(|g: crate::terminal_workspace::TabGroup| g.id@).take(i + 1) =~= before.push(groups@[i as int].id@));
            i = i + 1;
        }
        assert(groups@.map_values(|g: crate::terminal_workspace::TabGroup| g.id@).take(groups@.len() as int) =~= groups@.map_values(|g: crate::terminal_workspace::TabGroup| g.id@));
        let tabs = self.workspace.tabs();
        let mut tab_ids: Vec<String> = Vec::new();
        let mut k: usize = 0;
        while k < tabs.len()
            invariant
                k <= tabs@.len(),
                tabs@ == self.workspace@.tabs,
                strs_view(tab_ids@) == tabs@.map_values(|t: TerminalTab| t.id@).take(k as int),
            decreases tabs@.len() - k,
        {
            let ghost before = strs_view(tab_ids@);
            tab_ids.push(tabs[k].id.clone());
            assert(strs_view(tab_ids@) =~= before.push(tabs@[k as int].id@));
            assert(tabs@.map_values(|t: TerminalTab| t.id@).take(k + 1) =~= before.push(tabs@[k as int].id@));
            k = k + 1;
        }
        assert(tabs@.map_values(|t: TerminalTab| t.id@).take(tabs@.len() as int) =~= tabs@.map_values(|t: TerminalTab| t.id@));
        TransferTargetManifest {
            group_ids,
            tab_ids,
            sftp_handle_ids: crate::str_seq::strs_clone(&self.sftp_handle_ids),
        }
    }
}

/// The fields of a shell other than its workspace, monitored tab and search
/// are equal.
pub open spec fn same_shell_frame(a: TinyShell, b: TinyShell) -> bool {
    &&& a.home_page_open == b.home_page_open
    &&& a.sftp_handle_ids == b.sftp_handle_ids
    &&& a.session_ids == b.session_ids
    &&& a.tab_drag == b.tab_drag
    &&& a.dragging_splitter == b.dragging_splitter
    &&& a.drag_split_origin == b.drag_split_origin
    &&& a.search_active == b.search_active
    &&& a.remote_desktop_surfaces == b.remote_desktop_surfaces
}

/// Window `b` is window `a` after focusing the first pane of tab `id`: the
/// pane's path is focused and its tab active, a change of pane while
/// searching clears the search, and the rest stays; without such a pane
/// nothing changes.
pub open spec fn focus_outcome(a: TinyShell, b: TinyShell, id: Seq<char>) -> bool {
    match path_to(a.workspace@.current_pane_root(), id) {
        Some(path) => {
            &&& b.workspace@ == (WorkspaceModel {
                focused_pane_path: path,
                active_tab: b.workspace@.active_tab,
                ..a.workspace@
            })
            &&& opt_view(b.workspace@.active_tab) == Some(id)
            &&& same_shell_frame(a, b)
            &&& b.system_tab_id == a.system_tab_id
            &&& search_after_focus(a, b, opt_view(a.workspace@.active_tab) != Some(id))
        },
        None => b == a,
    }
}

/// The search of `new` after the active pane of `old` may have changed: a
/// switch to another pane while searching clears the search, otherwise it
/// is kept.
pub open spec fn search_after_focus(old: TinyShell, new: TinyShell, changed: bool) -> bool {
    if changed && old.search_active {
        &&& new.search_query@.len() == 0
        &&& new.search_matches@.len() == 0
        &&& new.search_current == 0
        &&& new.search_target_tab is None
    } else {
        &&& new.search_query == old.search_query
        &&& new.search_matches == old.search_matches
        &&& new.search_current == old.search_current
        &&& new.search_target_tab == old.search_target_tab
    }
}

/// The tab id and title of the focused pane.
pub open spec fn focused_tab(m: WorkspaceModel) -> Option<(Seq<char>, Seq<char>)> {
    match tab_at_path(m.current_pane_root(), m.focused_pane_path) {
        Some(id) => if id.len() == 0 {
            None
        } else {
            match tab_index(m.tabs, id) {
                Some(i) => Some((id, m.tabs[i].title@)),
                None => None,
            }
        },
        None => None,
    }
}

impl TinyShell {
    fn clear_search(&mut self)
        ensures
            same_shell_frame(*old(self), *final(self)),
            final(self).workspace == old(self).workspace,
            final(self).system_tab_id == old(self).system_tab_id,
            final(self).search_query@.len() == 0,
            final(self).search_matches@.len() == 0,
            final(self).search_current == 0,
            final(self).search_target_tab is None,
    {
        self.search_query = String::new();
        self.search_matches = Vec::new();
        self.search_current = 0;
        self.search_target_tab = None;
    }

    /// The tab id and title of the focused pane.
    pub fn find_focused_tab(&self) -> (r: Option<(String, String)>)
        ensures
            match focused_tab(self.workspace@) {
                Some((id, title)) => r matches Some((a, b)) && a@ == id && b@ == title,
                None => r is None,
            },
    {
        let id = match self.workspace.pane_root().focused_tab_id(self.workspace.focused_pane_path()) {
            Some(id) => id,
            None => {
                return None;
            },
        };
        let v = crate::text::chars_of(id.as_str());
        if v.len() == 0 {
            return None;
        }
        let title = match self.workspace.terminal_tab(id.as_str()) {
            Some(tab) => tab.title.clone(),
            None => {
                return None;
            },
        };
        Some((id, title))
    }

    /// Focuses the first pane showing `tab_id` and makes it the active tab;
    /// returns whether the current layout has such a pane. Switching panes
    /// while searching clears the search.
    pub fn focus_pane_with_id(&mut self, tab_id: String) -> (found: bool)
        ensures
            found == path_to(old(self).workspace@.current_pane_root(), tab_id@) is Some,
            found ==> final(self).workspace@.active_tab == Some(tab_id),
            focus_outcome(*old(self), *final(self), tab_id@),
    {
        let path = match TinyShell::find_pane_path(self.workspace.pane_root(), tab_id.as_str()) {
            Some(p) => p,
            None => {
                return false;
            },
        };
        let changed = match self.workspace.active_tab_id() {
            Some(a) => !str_eq(a, tab_id.as_str()),
            None => true,
        };
        self.workspace.set_focused_pane_path(path);
        self.workspace.set_active_tab(Some(tab_id));
        if changed && self.search_active {
            self.clear_search();
        }
        true
    }

    /// Moves the focus to the pane next to the focused one in `direction`,
    /// making its tab active; nothing happens without a focused pane or a
    /// pane that way. Switching panes while searching clears the search.
    pub fn focus_adjacent_pane(&mut self, direction: PaneDirection)
        requires
            path_ok(old(self).workspace@.current_pane_root(), old(self).workspace@.focused_pane_path),
            crate::shell_panes::adjacent_defined(
                old(self).workspace@.current_pane_root(),
                old(self).workspace@.focused_pane_path,
                direction,
            ),
        ensures
            ({
                let m = old(self).workspace@;
                let root = m.current_pane_root();
                match if m.focused_pane_path.len() == 0 {
                    None
                } else {
                    adjacent(root, m.focused_pane_path, direction)
                } {
                    None => *final(self) == *old(self),
                    Some(p) => {
                        &&& same_shell_frame(*old(self), *final(self))
                        &&& final(self).system_tab_id == old(self).system_tab_id
                        &&& match tab_at_path(root, p) {
                            Some(id) => {
                                &&& final(self).workspace@ == (WorkspaceModel {
                                    focused_pane_path: p,
                                    active_tab: final(self).workspace@.active_tab,
                                    ..m
                                })
                                &&& opt_view(final(self).workspace@.active_tab) == Some(id)
                                &&& search_after_focus(
                                    *old(self),
                                    *final(self),
                                    opt_view(m.active_tab) != Some(id),
                                )
                            },
                            None => {
                                &&& final(self).workspace@ == (WorkspaceModel {
                                    focused_pane_path: p,
                                    ..m
                                })
                                &&& search_after_focus(*old(self), *final(self), false)
                            },
                        }
                    },
                }
            }),
    {
        if self.workspace.focused_pane_path().len() == 0 {
            return;
        }
        let new_path = match TinyShell::find_adjacent_pane(
            self.workspace.pane_root(),
            self.workspace.focused_pane_path(),
            direction,
        ) {
            Some(p) => p,
            None => {
                return;
            },
        };
        self.workspace.set_focused_pane_path(new_path);
        assert(self.workspace@.current_pane_root() == old(self).workspace@.current_pane_root());
        let focused = self.workspace.pane_root().focused_tab_id(self.workspace.focused_pane_path());
        if let Some(id) = focused {
            let changed = match self.workspace.active_tab_id() {
                Some(a) => !str_eq(a, id.as_str()),
                None => true,
            };
            self.workspace.set_active_tab(Some(id));
            if changed && self.search_active {
                self.clear_search();
            }
        }
    }

    /// Follows the active group with the monitored system tab: it stays while
    /// it is an SSH pane of the active group, else it becomes the group's first
    /// SSH pane, or none. Returns whether it changed, in which case the
    /// monitoring history starts over.
    pub fn sync_system_tab_to_active_group(&mut self) -> (changed: bool)
        ensures
            opt_view(final(self).system_tab_id) == synced_system_tab(
                opt_view(old(self).system_tab_id),
                group_ssh_tabs(old(self).workspace@),
            ),
            changed == (opt_view(old(self).system_tab_id) != synced_system_tab(
                opt_view(old(self).system_tab_id),
                group_ssh_tabs(old(self).workspace@),
            )),
            !changed ==> *final(self) == *old(self),
            changed ==> *final(self) == (TinyShell {
                system_tab_id: final(self).system_tab_id,
                ..*old(self)
            }),
    {
        let ghost m = self.workspace@;
        let mut group_ssh: Vec<String> = Vec::new();
        let ghost target = group_ssh_tabs(m);
        if let Some(group_id) = self.workspace.active_group_id() {
            if let Some(group) = self.workspace.tab_group(group_id) {
                let ids = group.pane_root.tab_ids();
                let ghost v = strs_view(ids@);
                let ghost p = is_ssh_tab(m.tabs);
                let mut i: usize = 0;
                while i < ids.len()
                    invariant
                        i <= ids@.len(),
                        v == strs_view(ids@),
                        p == is_ssh_tab(m.tabs),
                        m == self.workspace@,
                        strs_view(group_ssh@) == v.take(i as int).filter(p),
                    decreases ids@.len() - i,
                {
                    proof {
                        lemma_filter_take_step(v, p, i as int);
                        assert(v[i as int] == ids@[i as int]@);
                    }
                    match self.workspace.terminal_tab(ids[i].as_str()) {
                        Some(tab) => {
                            if tab.kind == TabKind::Ssh {
                                let ghost before = strs_view(group_ssh@);
                                group_ssh.push(tab.id.clone());
                                proof {
                                    lemma_first_index_sound(m.tabs, |t: TerminalTab| t.id@ == v[i as int]);
                                }
                                assert(strs_view(group_ssh@) =~= before.push(v[i as int]));
                            }
                        },
                        None => {},
                    }
                    i = i + 1;
                }
                assert(v.take(v.len() as int) =~= v);
            }
        }
        assert(strs_view(group_ssh@) == target);
        let current_valid = match &self.system_tab_id {
            Some(id) => crate::pane_layout::strs_contain(&group_ssh, id.as_str()),
            None => false,
        };
        if current_valid {
            return false;
        }
        let new_id: Option<String> = if group_ssh.len() > 0 {
            assert(strs_view(group_ssh@)[0] == group_ssh@[0]@);
            Some(group_ssh[0].clone())
        } else {
            None
        };
        let same = match (&self.system_tab_id, &new_id) {
            (Some(a), Some(b)) => str_eq(a.as_str(), b.as_str()),
            (None, None) => true,
            _ => false,
        };
        if same {
            return false;
        }
        self.system_tab_id = new_id;
        true
    }
}

/// The first pane of a layout.
pub fn first_tab(l: &PaneLayout) -> (r: Option<String>)
    ensures
        opt_view(r) == if layout_ids(*l).len() > 0 {
            Some(layout_ids(*l)[0])
        } else {
            None
        },
{
    let ids = l.tab_ids();
    if ids.len() > 0 {
        assert(strs_view(ids@)[0] == ids@[0]@);
        Some(ids[0].clone())
    } else {
        None
    }
}

/// The view of an optional string slice.
pub open spec fn opt_str_view(s: Option<&str>) -> Option<Seq<char>> {
    match s {
        Some(x) => Some(x@),
        None => None,
    }
}


/// Closing a pane hands the focus to its neighbour within the same group:
/// when the closing pane at position `ti` of group `gi` is the active tab,
/// the pane just before it becomes active, or, for the first pane, the one
/// just after it; when it is not the active tab, the active tab stays.
pub proof fn closing_the_active_pane_activates_its_neighbour(m: WorkspaceModel, gi: int, ti: int)
    requires
        0 <= gi < m.tab_groups.len(),
        0 <= ti < layout_ids(m.tab_groups[gi].pane_root).len(),
    ensures
        ({
            let ids = layout_ids(m.tab_groups[gi].pane_root);
            let active = m.active_tab is Some && m.active_tab->0@ == ids[ti];
            &&& !active ==> next_active_after_close(m, gi, ti) == (false, None::<Seq<char>>)
            &&& active && ti > 0 ==> next_active_after_close(m, gi, ti) == (true, Some(ids[ti - 1]))
            &&& active && ti == 0 && ids.len() > 1 ==> next_active_after_close(m, gi, ti) == (
                true,
                Some(ids[1]),
            )
        }),
{
}


/// Closing the only pane of the active group hands the focus to the group
/// before it, else to the group after it (their first pane), when the
/// groups have distinct ids; with no other group nothing becomes active.
pub proof fn closing_a_group_s_last_pane_activates_a_neighbouring_group(m: WorkspaceModel, gi: int)
    requires
        0 <= gi < m.tab_groups.len(),
        layout_ids(m.tab_groups[gi].pane_root).len() == 1,
        m.active_tab is Some && m.active_tab->0@ == layout_ids(m.tab_groups[gi].pane_root)[0],
        crate::terminal_workspace::group_ids(m.tab_groups).no_duplicates(),
    ensures
        gi > 0 ==> next_active_after_close(m, gi, 0) == (true, first_tab_of(m, gi - 1)),
        gi == 0 && m.tab_groups.len() > 1 ==> next_active_after_close(m, gi, 0) == (
            true,
            first_tab_of(m, 1),
        ),
        gi == 0 && m.tab_groups.len() == 1 ==> next_active_after_close(m, gi, 0) == (
            true,
            None::<Seq<char>>,
        ),
{
    let gs = m.tab_groups;
    assert forall|j: int| 0 <= j < gi implies !crate::terminal_workspace::has_id(gs[gi].id@)(
        #[trigger] gs[j],
    ) by {
        assert(crate::terminal_workspace::group_ids(gs)[j] != crate::terminal_workspace::group_ids(
            gs,
        )[gi]);
    }
    lemma_first_index_found(gs, crate::terminal_workspace::has_id(gs[gi].id@), gi);
}

} // verus!
