//! Taking a tab group out of a window for a move to another window.
use vstd::prelude::*;

use crate::pane_layout::tree_of;
use crate::tab_transfer::merged_tree;

use crate::pane_layout::{layout_ids, strs_contain, strs_view};
use crate::seq_util::{lemma_filter_take_step, lemma_first_index_sound};
use crate::pane_layout::PaneLayout;
use crate::shell::{first_tab_of, group_ssh_tabs, opt_view, synced_system_tab, TinyShell};
use crate::shell_panes::path_to;
use crate::sorted_strs::{insert_sorted_unique, strictly_sorted};
use crate::str_seq::{same_elements, strs_have_duplicate};
use crate::tab_drag::DockZone;
use crate::tab_transfer::{
    batch_error, docked_ids, effective_batch_drop_zone, first_target_error, manifest_views,
    merge_pane_layout, same_group, transfer_view, validate_transfer_batch_for_target,
    GroupTransfer, TargetView, TransferManifest,
};
use crate::terminal_workspace::{
    extract_system_info_transfer, group_ids, group_index, info_index, tab_index, SystemInfoTab, TabGroup,
    TerminalTab, WorkspaceModel,
};
use crate::text::str_eq;

verus! {

pub open spec fn no_group_msg() -> Seq<char> {
    "cannot move: source group no longer exists"@
}

pub open spec fn no_panes_msg() -> Seq<char> {
    "cannot move: source group has no terminal panes"@
}

pub open spec fn duplicate_panes_msg() -> Seq<char> {
    "cannot move: source group contains duplicate terminal ids"@
}

pub open spec fn missing_terminal_msg() -> Seq<char> {
    "cannot move: a source terminal no longer exists"@
}

/// Why group `group_id` of workspace `m` cannot be moved, if it cannot: it
/// must exist, have panes, none with an empty or repeated id, and each pane
/// must have its terminal tab.
pub open spec fn transfer_refusal(m: WorkspaceModel, group_id: Seq<char>) -> Option<Seq<char>> {
    match group_index(m.tab_groups, group_id) {
        None => Some(no_group_msg()),
        Some(gi) => {
            let ids = layout_ids(m.tab_groups[gi].pane_root);
            if ids.len() == 0 || exists|k: int| 0 <= k < ids.len() && (#[trigger] ids[k]).len() == 0 {
                Some(no_panes_msg())
            } else if !ids.no_duplicates() {
                Some(duplicate_panes_msg())
            } else if exists|k: int| 0 <= k < ids.len() && tab_index(m.tabs, #[trigger] ids[k]) is None {
                Some(missing_terminal_msg())
            } else {
                None
            }
        },
    }
}

/// Each tab with its position.
pub open spec fn indexed(tabs: Seq<TerminalTab>) -> Seq<(usize, TerminalTab)> {
    Seq::new(tabs.len(), |i: int| (i as usize, tabs[i]))
}

/// A positioned tab whose id is among `ids`.
pub open spec fn moves_tab(ids: Seq<Seq<char>>) -> spec_fn((usize, TerminalTab)) -> bool {
    |p: (usize, TerminalTab)| ids.contains(p.1.id@)
}

/// A tab whose id is not among `ids`.
pub open spec fn keeps_tab(ids: Seq<Seq<char>>) -> spec_fn(TerminalTab) -> bool {
    |t: TerminalTab| !ids.contains(t.id@)
}

/// An SFTP handle that moves with group `group_id` and panes `ids`: the
/// group's own handle and those of its panes.
pub open spec fn moves_handle(group_id: Seq<char>, ids: Seq<Seq<char>>) -> spec_fn(String) -> bool {
    |h: String| h@ == group_id || ids.contains(h@)
}

/// An SFTP handle that stays.
pub open spec fn keeps_handle(group_id: Seq<char>, ids: Seq<Seq<char>>) -> spec_fn(String) -> bool {
    |h: String| !(h@ == group_id || ids.contains(h@))
}

/// A system-information tab that follows one of `ids`.
pub open spec fn follows_tab(ids: Seq<Seq<char>>) -> spec_fn(SystemInfoTab) -> bool {
    |t: SystemInfoTab| ids.contains(t.source_tab_id@)
}

/// What moving group `group_id` out of `old` yields.
pub open spec fn transfer_describes(old: TinyShell, group_id: Seq<char>, t: GroupTransfer) -> bool {
    let m = old.workspace@;
    let gi = group_index(m.tab_groups, group_id)->0;
    let g = m.tab_groups[gi];
    let ids = layout_ids(g.pane_root);
    let moved_handles = old.sftp_handle_ids@.filter(moves_handle(group_id, ids));
    &&& same_group(t.group, g)
    &&& t.group_index == gi
    &&& t.tabs@ == indexed(m.tabs).filter(moves_tab(ids))
    &&& t.sftp_handle_ids@ == moved_handles
    &&& strictly_sorted(strs_view(t.route_ids@))
    &&& same_elements(strs_view(t.route_ids@), ids + strs_view(moved_handles))
    &&& opt_view(t.active_tab) == if m.active_tab is Some && ids.contains(m.active_tab->0@) {
        Some(m.active_tab->0@)
    } else {
        None
    }
    &&& t.system_info_tabs@ == m.system_info_tabs.filter(follows_tab(ids))
    &&& (t.active_system_info_tab matches Some(a) ==> m.active_system_info_tab is Some
        && a@ == m.active_system_info_tab->0@ && info_index(t.system_info_tabs@, a@) is Some)
    &&& (t.active_system_info_tab is None ==> m.active_system_info_tab is None || info_index(
        t.system_info_tabs@,
        m.active_system_info_tab->0@,
    ) is None)
    &&& t.was_active_group == (opt_view(m.active_group) == Some(group_id))
}

/// The workspace once the terminal tabs of the panes `ids` left it.
pub open spec fn without_tabs(m: WorkspaceModel, ids: Seq<Seq<char>>) -> WorkspaceModel {
    WorkspaceModel { tabs: m.tabs.filter(keeps_tab(ids)), ..m }
}

/// The panes of group `group_id` of `m`.
pub open spec fn group_panes(m: WorkspaceModel, group_id: Seq<char>) -> Seq<Seq<char>> {
    layout_ids(m.tab_groups[group_index(m.tab_groups, group_id)->0].pane_root)
}

/// What moving group `group_id` out of `old` yields, and the shell it leaves.
pub open spec fn prepared_transfer(old: TinyShell, new: TinyShell, group_id: Seq<char>, t: GroupTransfer) -> bool {
    let m = old.workspace@;
    let ids = group_panes(m, group_id);
    &&& transfer_describes(old, group_id, t)
    &&& new.workspace@ == without_tabs(m, ids)
    &&& new.sftp_handle_ids@ == old.sftp_handle_ids@.filter(keeps_handle(group_id, ids))
    &&& new.system_tab_id == old.system_tab_id
    &&& new.home_page_open == old.home_page_open
    &&& new.session_ids == old.session_ids
    &&& new.tab_drag == old.tab_drag
    &&& new.dragging_splitter == old.dragging_splitter
    &&& new.drag_split_origin == old.drag_split_origin
    &&& new.search_active == old.search_active
    &&& new.search_query == old.search_query
    &&& new.search_matches == old.search_matches
    &&& new.search_current == old.search_current
    &&& new.search_target_tab == old.search_target_tab
}

/// Splits `all` into the positioned tabs whose ids are among `ids` and the
/// others, both in order.
fn split_tabs(all: Vec<TerminalTab>, ids: &Vec<String>) -> (r: (Vec<(usize, TerminalTab)>, Vec<TerminalTab>))
    ensures
        r.0@ == indexed(all@).filter(moves_tab(strs_view(ids@))),
        r.1@ == all@.filter(keeps_tab(strs_view(ids@))),
{
    let ghost orig = all@;
    let ghost v = strs_view(ids@);
    let n = all.len();
    assert(orig.len() == n);
    let mut rest = all;
    let mut moved: Vec<(usize, TerminalTab)> = Vec::new();
    let mut kept: Vec<TerminalTab> = Vec::new();
    let mut k: usize = 0;
    while rest.len() > 0
        invariant
            k <= orig.len(),
            orig.len() <= usize::MAX,
            rest@ == orig.skip(k as int),
            v == strs_view(ids@),
            moved@ == indexed(orig).take(k as int).filter(moves_tab(v)),
            kept@ == orig.take(k as int).filter(keeps_tab(v)),
        decreases rest@.len(),
    {
        let tab = rest.remove(0);
        assert(k < orig.len());
        proof {
            assert(orig.skip(k as int)[0] == orig[k as int]);
            assert(indexed(orig)[k as int] == (k, orig[k as int]));
            lemma_filter_take_step(indexed(orig), moves_tab(v), k as int);
            lemma_filter_take_step(orig, keeps_tab(v), k as int);
        }
        if strs_contain(ids, tab.id.as_str()) {
            moved.push((k, tab));
        } else {
            kept.push(tab);
        }
        proof {
            assert(rest@ =~= orig.skip(k + 1));
        }
        k = k + 1;
    }
    assert(k == orig.len());
    assert(indexed(orig).take(k as int) =~= indexed(orig));
    assert(orig.take(k as int) =~= orig);
    (moved, kept)
}

/// Splits the SFTP handle ids into those that move with a group and the rest.
fn split_handles(all: Vec<String>, group_id: &str, ids: &Vec<String>) -> (r: (Vec<String>, Vec<String>))
    ensures
        r.0@ == all@.filter(moves_handle(group_id@, strs_view(ids@))),
        r.1@ == all@.filter(keeps_handle(group_id@, strs_view(ids@))),
{
    let ghost orig = all@;
    let ghost v = strs_view(ids@);
    let mut moved: Vec<String> = Vec::new();
    let mut kept: Vec<String> = Vec::new();
    let mut i: usize = 0;
    while i < all.len()
        invariant
            i <= orig.len(),
            all@ == orig,
            v == strs_view(ids@),
            moved@ == orig.take(i as int).filter(moves_handle(group_id@, v)),
            kept@ == orig.take(i as int).filter(keeps_handle(group_id@, v)),
        decreases orig.len() - i,
    {
        proof {
            lemma_filter_take_step(orig, moves_handle(group_id@, v), i as int);
            lemma_filter_take_step(orig, keeps_handle(group_id@, v), i as int);
        }
        let h = all[i].clone();
        if str_eq(h.as_str(), group_id) || strs_contain(ids, h.as_str()) {
            moved.push(h);
        } else {
            kept.push(h);
        }
        i = i + 1;
    }
    assert(orig.take(i as int) =~= orig);
    (moved, kept)
}

impl TinyShell {
    /// Takes the terminal tabs and SFTP handles of group `group_id` out of
    /// the window and describes the group for a move; the group itself and
    /// its system-information tabs stay until `clear_transferred_group`.
    /// Fails, changing nothing, when `transfer_refusal` names a reason.
    pub fn prepare_group_for_transfer(&mut self, group_id: &str) -> (r: Result<GroupTransfer, String>)
        ensures
            match transfer_refusal(old(self).workspace@, group_id@) {
                Some(e) => r matches Err(x) && x@ == e && *final(self) == *old(self),
                None => r matches Ok(t) && prepared_transfer(*old(self), *final(self), group_id@, t),
            },
    {
        let ghost m = self.workspace@;
        let gi = match self.workspace.tab_group_position(group_id) {
            Some(i) => i,
            None => {
                return Err(crate::text::string_of("cannot move: source group no longer exists"));
            },
        };
        proof {
            lemma_first_index_sound(m.tab_groups, crate::terminal_workspace::has_id(group_id@));
        }
        let group = self.workspace.tab_groups()[gi].duplicate();
        let tab_ids = group.pane_root.tab_ids();
        let ghost ids = strs_view(tab_ids@);
        assert(ids == layout_ids(m.tab_groups[gi as int].pane_root));
        if tab_ids.len() == 0 {
            return Err(crate::text::string_of("cannot move: source group has no terminal panes"));
        }
        let mut i: usize = 0;
        while i < tab_ids.len()
            invariant
                i <= tab_ids@.len(),
                ids == strs_view(tab_ids@),
                m == old(self).workspace@,
                *self == *old(self),
                group_index(m.tab_groups, group_id@) == Some(gi as int),
                ids == layout_ids(m.tab_groups[gi as int].pane_root),
                ids.len() > 0,
                forall|k: int| 0 <= k < i ==> (#[trigger] ids[k]).len() > 0,
            decreases tab_ids@.len() - i,
        {
            assert(ids[i as int] == tab_ids@[i as int]@);
            if crate::text::chars_of(tab_ids[i].as_str()).len() == 0 {
                return Err(
                    crate::text::string_of("cannot move: source group has no terminal panes"),
                );
            }
            i = i + 1;
        }
        if strs_have_duplicate(&tab_ids) {
            return Err(
                crate::text::string_of("cannot move: source group contains duplicate terminal ids"),
            );
        }
        let mut i: usize = 0;
        while i < tab_ids.len()
            invariant
                i <= tab_ids@.len(),
                ids == strs_view(tab_ids@),
                m == self.workspace@,
                m == old(self).workspace@,
                *self == *old(self),
                group_index(m.tab_groups, group_id@) == Some(gi as int),
                ids == layout_ids(m.tab_groups[gi as int].pane_root),
                ids.len() > 0,
                forall|k: int| 0 <= k < ids.len() ==> (#[trigger] ids[k]).len() > 0,
                ids.no_duplicates(),
                forall|k: int| 0 <= k < i ==> tab_index(m.tabs, #[trigger] ids[k]) is Some,
            decreases tab_ids@.len() - i,
        {
            assert(ids[i as int] == tab_ids@[i as int]@);
            if self.workspace.terminal_tab(tab_ids[i].as_str()).is_none() {
                return Err(
                    crate::text::string_of("cannot move: a source terminal no longer exists"),
                );
            }
            i = i + 1;
        }
        assert(transfer_refusal(m, group_id@) is None);
        let was_active_group = match self.workspace.active_group_id() {
            Some(a) => str_eq(a, group_id),
            None => false,
        };
        let active_tab = match self.workspace.active_tab_id() {
            Some(a) => if strs_contain(&tab_ids, a) {
                Some(crate::text::string_of(a))
            } else {
                None
            },
            None => None,
        };
        let all_tabs = self.workspace.take_tabs();
        let (tabs, remaining_tabs) = split_tabs(all_tabs, &tab_ids);
        self.workspace.replace_tabs(remaining_tabs);
        let mut handles: Vec<String> = Vec::new();
        std::mem::swap(&mut handles, &mut self.sftp_handle_ids);
        let (sftp_handle_ids, kept_handles) = split_handles(handles, group_id, &tab_ids);
        self.sftp_handle_ids = kept_handles;
        let mut route_ids: Vec<String> = Vec::new();
        let mut k: usize = 0;
        while k < tab_ids.len()
            invariant
                k <= tab_ids@.len(),
                ids == strs_view(tab_ids@),
                strictly_sorted(strs_view(route_ids@)),
                same_elements(strs_view(route_ids@), ids.take(k as int)),
            decreases tab_ids@.len() - k,
        {
            let ghost before = strs_view(route_ids@);
            insert_sorted_unique(&mut route_ids, tab_ids[k].clone());
            proof {
                assert(ids.take(k + 1) =~= ids.take(k as int).push(ids[k as int]));
                lemma_same_elements_push(before, ids.take(k as int), strs_view(route_ids@), ids[k as int]);
            }
            k = k + 1;
        }
        assert(ids.take(ids.len() as int) =~= ids);
        let ghost hv = strs_view(sftp_handle_ids@);
        let mut k: usize = 0;
        while k < sftp_handle_ids.len()
            invariant
                k <= sftp_handle_ids@.len(),
                hv == strs_view(sftp_handle_ids@),
                strictly_sorted(strs_view(route_ids@)),
                same_elements(strs_view(route_ids@), ids + hv.take(k as int)),
            decreases sftp_handle_ids@.len() - k,
        {
            let ghost before = strs_view(route_ids@);
            insert_sorted_unique(&mut route_ids, sftp_handle_ids[k].clone());
            proof {
                assert(hv[k as int] == sftp_handle_ids@[k as int]@);
                assert(ids + hv.take(k + 1) =~= (ids + hv.take(k as int)).push(hv[k as int]));
                lemma_same_elements_push(before, ids + hv.take(k as int), strs_view(route_ids@), hv[k as int]);
            }
            k = k + 1;
        }
        assert(hv.take(hv.len() as int) =~= hv);
        let (system_info_tabs, active_system_info_tab) = extract_system_info_transfer(
            self.workspace.system_info_tabs(),
            self.workspace.active_system_info_tab_id(),
            tab_ids.as_slice(),
        );
        assert(m.system_info_tabs.filter(
            |t: SystemInfoTab| strs_view(tab_ids@).contains(t.source_tab_id@),
        ) =~= m.system_info_tabs.filter(follows_tab(ids)));
        Ok(GroupTransfer {
            group,
            group_index: gi,
            tabs,
            sftp_handle_ids,
            route_ids,
            active_tab,
            system_info_tabs,
            active_system_info_tab,
            was_active_group,
        })
    }
}

/// The fields of a shell other than its workspace, monitored tab and home
/// page flag are equal.
pub open spec fn same_except_workspace(a: TinyShell, b: TinyShell) -> bool {
    &&& a.sftp_handle_ids == b.sftp_handle_ids
    &&& a.session_ids == b.session_ids
    &&& a.tab_drag == b.tab_drag
    &&& a.dragging_splitter == b.dragging_splitter
    &&& a.drag_split_origin == b.drag_split_origin
    &&& a.search_active == b.search_active
    &&& a.search_query == b.search_query
    &&& a.search_matches == b.search_matches
    &&& a.search_current == b.search_current
    &&& a.search_target_tab == b.search_target_tab
    &&& a.remote_desktop_surfaces == b.remote_desktop_surfaces
}

/// The workspace `a` after the group at `removed` left workspace `b`: with
/// no group left, the window shows its empty home page; otherwise the group
/// now at that position (or the last one) becomes active with its first
/// pane focused. The monitored tab follows the new active group.
pub open spec fn extraction_activated(
    b: WorkspaceModel,
    b_sys: Option<Seq<char>>,
    b_home: bool,
    a: WorkspaceModel,
    a_sys: Option<Seq<char>>,
    a_home: bool,
    removed: int,
) -> bool {
    if b.tab_groups.len() == 0 {
        &&& a == (WorkspaceModel {
            pane_root: PaneLayout::Empty,
            focused_pane_path: seq![],
            active_tab: None,
            active_group: None,
            ..b
        })
        &&& a_home
        &&& a_sys == synced_system_tab(b_sys, seq![])
    } else {
        let next = if removed < b.tab_groups.len() - 1 {
            removed
        } else {
            b.tab_groups.len() - 1
        };
        let g = b.tab_groups[next];
        &&& a.active_group == Some(g.id)
        &&& group_ids(a.tab_groups) == group_ids(b.tab_groups)
        &&& opt_view(a.active_tab) == first_tab_of(b, next)
        &&& a_home == b_home
        &&& a.tabs == b.tabs
        &&& a.system_info_tabs == b.system_info_tabs
        &&& a.active_system_info_tab == b.active_system_info_tab
        &&& a.next_tab_group_ordinal == b.next_tab_group_ordinal
        &&& group_index(b.tab_groups, g.id@) == Some(next) ==> {
            &&& a.tab_groups == b.tab_groups
            &&& a.pane_root == b.pane_root
            &&& a.focused_pane_path == match first_tab_of(b, next) {
                Some(t) => match path_to(g.pane_root, t) {
                    Some(p) => p,
                    None => seq![],
                },
                None => seq![],
            }
        }
        &&& a_sys == synced_system_tab(b_sys, group_ssh_tabs(a))
    }
}

/// Whether a system-information tab with id `active` follows one of `ids`.
pub open spec fn active_info_follows(infos: Seq<SystemInfoTab>, active: Option<String>, ids: Seq<Seq<char>>) -> bool {
    active is Some && exists|k: int|
        0 <= k < infos.len() && (#[trigger] infos[k]).id@ == active->0@ && ids.contains(
            infos[k].source_tab_id@,
        )
}

/// The workspace once group `gi` and its system-information tabs are gone.
pub open spec fn without_group(m: WorkspaceModel, gi: int) -> WorkspaceModel {
    let ids = layout_ids(m.tab_groups[gi].pane_root);
    WorkspaceModel {
        system_info_tabs: m.system_info_tabs.filter(|t: SystemInfoTab| !ids.contains(t.source_tab_id@)),
        active_system_info_tab: if active_info_follows(m.system_info_tabs, m.active_system_info_tab, ids) {
            None
        } else {
            m.active_system_info_tab
        },
        tab_groups: m.tab_groups.remove(gi),
        ..m
    }
}

impl TinyShell {
    /// Chooses what the window shows after the group at `removed_index` was
    /// taken out; returns whether the monitored tab changed.
    pub fn activate_after_group_extraction(&mut self, removed_index: usize) -> (changed: bool)
        ensures
            extraction_activated(
                old(self).workspace@,
                opt_view(old(self).system_tab_id),
                old(self).home_page_open,
                final(self).workspace@,
                opt_view(final(self).system_tab_id),
                final(self).home_page_open,
                removed_index as int,
            ),
            changed == (opt_view(old(self).system_tab_id) != opt_view(final(self).system_tab_id)),
            same_except_workspace(*old(self), *final(self)),
    {
        let ghost b = self.workspace@;
        if self.workspace.tab_groups().len() == 0 {
            self.workspace.set_pane_root(PaneLayout::Empty);
            self.workspace.clear_focused_pane_path();
            self.workspace.set_active_tab(None);
            self.workspace.set_active_group(None);
            self.home_page_open = true;
            let changed = self.sync_system_tab_to_active_group();
            assert(group_ssh_tabs(self.workspace@) =~= seq![]);
            return changed;
        }
        let len = self.workspace.tab_groups().len();
        let next_index = if removed_index < len - 1 {
            removed_index
        } else {
            len - 1
        };
        let next_group_id = self.workspace.tab_groups()[next_index].id.clone();
        let next_tab = crate::shell::first_tab(&self.workspace.tab_groups()[next_index].pane_root);
        let first_of_its_id = match self.workspace.tab_group_position(next_group_id.as_str()) {
            Some(q) => q == next_index,
            None => false,
        };
        self.workspace.set_active_group(Some(next_group_id));
        if !first_of_its_id {
            // Another group carries the same id and is the one the active id
            // resolves to: it takes a copy of this group's layout.
            let layout = self.workspace.tab_groups()[next_index].pane_root.duplicate();
            let ghost before = self.workspace@;
            self.workspace.set_pane_root(layout);
            proof {
                crate::terminal_workspace::lemma_layout_change_keeps_group_ids(before, layout);
            }
        }
        self.workspace.clear_focused_pane_path();
        self.workspace.set_active_tab(crate::terminal_workspace::clone_opt(&next_tab));
        if let Some(tab_id) = next_tab {
            self.focus_pane_with_id(tab_id);
        }
        self.sync_system_tab_to_active_group()
    }
}

/// The workspace `a` after group `gi` left workspace `b` together with its
/// system-information tabs; when it was the active group, another group is
/// activated.
pub open spec fn group_cleared(
    b: WorkspaceModel,
    b_sys: Option<Seq<char>>,
    b_home: bool,
    a: WorkspaceModel,
    a_sys: Option<Seq<char>>,
    a_home: bool,
    gi: int,
) -> bool {
    let mid = without_group(b, gi);
    if opt_view(b.active_group) == Some(b.tab_groups[gi].id@) {
        extraction_activated(mid, b_sys, b_home, a, a_sys, a_home, gi)
    } else {
        &&& a == mid
        &&& a_home == b_home
        &&& a_sys == synced_system_tab(b_sys, group_ssh_tabs(mid))
    }
}

impl TinyShell {
    /// Removes group `group_index` and the system-information tabs of its
    /// panes; when it was active, activates another group. Returns whether
    /// the monitored tab changed.
    pub fn clear_transferred_group(&mut self, group_index: usize) -> (changed: bool)
        requires
            group_index < old(self).workspace@.tab_groups.len(),
        ensures
            group_cleared(
                old(self).workspace@,
                opt_view(old(self).system_tab_id),
                old(self).home_page_open,
                final(self).workspace@,
                opt_view(final(self).system_tab_id),
                final(self).home_page_open,
                group_index as int,
            ),
            changed == (opt_view(old(self).system_tab_id) != opt_view(final(self).system_tab_id)),
            same_except_workspace(*old(self), *final(self)),
    {
        let ghost m = self.workspace@;
        let was_active_group = match self.workspace.active_group_id() {
            Some(a) => str_eq(a, self.workspace.tab_groups()[group_index].id.as_str()),
            None => false,
        };
        let ids = self.workspace.tab_groups()[group_index].pane_root.tab_ids();
        let ghost v = strs_view(ids@);
        let ghost keep = |t: SystemInfoTab| !v.contains(t.source_tab_id@);
        let infos = self.workspace.system_info_tabs();
        let mut removed_active_info = false;
        if let Some(active_id) = self.workspace.active_system_info_tab_id() {
            let mut k: usize = 0;
            while k < infos.len()
                invariant
                    k <= infos@.len(),
                    infos@ == m.system_info_tabs,
                    v == strs_view(ids@),
                    m.active_system_info_tab is Some,
                    active_id@ == m.active_system_info_tab->0@,
                    removed_active_info == exists|j: int|
                        0 <= j < k && (#[trigger] infos@[j]).id@ == active_id@ && v.contains(
                            infos@[j].source_tab_id@,
                        ),
                decreases infos@.len() - k,
            {
                if str_eq(infos[k].id.as_str(), active_id) && strs_contain(
                    &ids,
                    infos[k].source_tab_id.as_str(),
                ) {
                    removed_active_info = true;
                }
                k = k + 1;
            }
        }
        assert(removed_active_info == active_info_follows(m.system_info_tabs, m.active_system_info_tab, v));
        let mut kept: Vec<SystemInfoTab> = Vec::new();
        let mut k: usize = 0;
        while k < infos.len()
            invariant
                k <= infos@.len(),
                infos@ == m.system_info_tabs,
                v == strs_view(ids@),
                keep == (|t: SystemInfoTab| !v.contains(t.source_tab_id@)),
                kept@ == infos@.take(k as int).filter(keep),
            decreases infos@.len() - k,
        {
            proof {
                lemma_filter_take_step(infos@, keep, k as int);
            }
            if !strs_contain(&ids, infos[k].source_tab_id.as_str()) {
                kept.push(infos[k].duplicate());
            }
            k = k + 1;
        }
        assert(infos@.take(infos@.len() as int) =~= infos@);
        let target = self.workspace.system_info_tabs_mut();
        *target = kept;
        if removed_active_info {
            self.workspace.clear_active_system_info_tab();
        }
        self.workspace.remove_group_at(group_index);
        assert(self.workspace@ == without_group(m, group_index as int));
        if was_active_group {
            self.activate_after_group_extraction(group_index)
        } else {
            self.sync_system_tab_to_active_group()
        }
    }

    /// Takes group `group_id` out of the window for a move: its terminal tabs,
    /// SFTP handles and system-information tabs leave with it, and another
    /// group becomes active if it was the active one. Fails, changing
    /// nothing, when `transfer_refusal` names a reason.
    pub fn take_group_transfer(&mut self, group_id: &str) -> (r: Result<GroupTransfer, String>)
        ensures
            transfer_taken(*old(self), *final(self), group_id@, r),
    {
        let transfer = match self.prepare_group_for_transfer(group_id) {
            Ok(t) => t,
            Err(e) => {
                return Err(e);
            },
        };
        proof {
            lemma_first_index_sound(
                old(self).workspace@.tab_groups,
                crate::terminal_workspace::has_id(group_id@),
            );
        }
        self.clear_transferred_group(transfer.group_index);
        Ok(transfer)
    }
}

proof fn lemma_same_elements_push(
    before: Seq<Seq<char>>,
    target: Seq<Seq<char>>,
    after: Seq<Seq<char>>,
    x: Seq<char>,
)
    requires
        same_elements(before, target),
        same_elements(after, before.push(x)),
    ensures
        same_elements(after, target.push(x)),
{
    assert forall|i: int| 0 <= i < after.len() implies target.push(x).contains(#[trigger] after[i]) by {
        let j = choose|j: int| 0 <= j < before.push(x).len() && before.push(x)[j] == after[i];
        if j < before.len() {
            assert(before[j] == before.push(x)[j]);
            let k = choose|k: int| 0 <= k < target.len() && target[k] == before[j];
            assert(target.push(x)[k] == target[k]);
        } else {
            assert(target.push(x)[target.len() as int] == x);
        }
    }
    assert forall|i: int| 0 <= i < target.push(x).len() implies after.contains(#[trigger] target.push(x)[i]) by {
        if i < target.len() {
            assert(target.push(x)[i] == target[i]);
            let k = choose|k: int| 0 <= k < before.len() && before[k] == target[i];
            assert(before.push(x)[k] == before[k]);
            assert(before.push(x).contains(target[i]));
        } else {
            assert(before.push(x)[before.len() as int] == x);
            assert(before.push(x).contains(x));
        }
    }
}

/// The surfaces left once those of `tab_ids` are dropped.
pub open spec fn surfaces_without(surfaces: Seq<Seq<char>>, tab_ids: Seq<Seq<char>>) -> Seq<
    Seq<char>,
> {
    surfaces.filter(|id: Seq<char>| !tab_ids.contains(id))
}

impl TinyShell {
    /// Drops the remote desktop surfaces of tabs that moved to another
    /// window.
    pub fn clear_transferred_remote_desktop_surfaces(&mut self, tab_ids: &[String])
        ensures
            strs_view(final(self).remote_desktop_surfaces@) == surfaces_without(
                strs_view(old(self).remote_desktop_surfaces@),
                strs_view(tab_ids@),
            ),
            final(self).workspace == old(self).workspace,
            final(self).system_tab_id == old(self).system_tab_id,
            final(self).home_page_open == old(self).home_page_open,
            same_except_workspace_and_surfaces(*old(self), *final(self)),
    {
        let ids = crate::terminal_workspace::slice_strings(tab_ids);
        let ghost keep = |id: Seq<char>| !strs_view(tab_ids@).contains(id);
        let ghost before = strs_view(self.remote_desktop_surfaces@);
        let mut kept: Vec<String> = Vec::new();
        let mut i: usize = 0;
        while i < self.remote_desktop_surfaces.len()
            invariant
                i <= self.remote_desktop_surfaces@.len(),
                ids@ == tab_ids@,
                before == strs_view(self.remote_desktop_surfaces@),
                keep == (|id: Seq<char>| !strs_view(tab_ids@).contains(id)),
                strs_view(kept@) == before.take(i as int).filter(keep),
            decreases self.remote_desktop_surfaces@.len() - i,
        {
            proof {
                crate::seq_util::lemma_filter_take_step(before, keep, i as int);
            }
            let id = self.remote_desktop_surfaces[i].clone();
            assert(before[i as int] == id@);
            if !crate::pane_layout::strs_contain(&ids, id.as_str()) {
                kept.push(id);
                assert(strs_view(kept@) =~= before.take(i as int).filter(keep).push(before[i as int]));
            }
            i = i + 1;
        }
        assert(before.take(before.len() as int) =~= before);
        self.remote_desktop_surfaces = kept;
    }
}

/// Window `b` is window `a` after asking to take group `group_id` out for
/// a move, `r` what was taken: refused, changing nothing, when
/// `transfer_refusal` names a reason; otherwise the transfer describes the
/// group, its tabs, handles and system-information tabs, which leave the
/// window, and another group becomes active if it was the active one.
pub open spec fn transfer_taken(a: TinyShell, b: TinyShell, group_id: Seq<char>, r: Result<GroupTransfer, String>) -> bool {
    match transfer_refusal(a.workspace@, group_id) {
        Some(e) => r matches Err(x) && x@ == e && b == a,
        None => r matches Ok(t) && {
            let m = a.workspace@;
            let ids = group_panes(m, group_id);
            &&& transfer_describes(a, group_id, t)
            &&& b.sftp_handle_ids@ == a.sftp_handle_ids@.filter(
                keeps_handle(group_id, ids),
            )
            &&& group_cleared(
                without_tabs(m, ids),
                opt_view(a.system_tab_id),
                a.home_page_open,
                b.workspace@,
                opt_view(b.system_tab_id),
                b.home_page_open,
                t.group_index as int,
            )
            &&& b.session_ids == a.session_ids
            &&& b.tab_drag == a.tab_drag
            &&& b.search_active == a.search_active
            &&& b.search_query == a.search_query
            &&& b.search_target_tab == a.search_target_tab
        },
    }
}

/// Two windows agree on everything but the workspace, the monitored tab,
/// the home page and the remote desktop surfaces.
pub open spec fn same_except_workspace_and_surfaces(a: TinyShell, b: TinyShell) -> bool {
    &&& a.sftp_handle_ids == b.sftp_handle_ids
    &&& a.session_ids == b.session_ids
    &&& a.tab_drag == b.tab_drag
    &&& a.dragging_splitter == b.dragging_splitter
    &&& a.drag_split_origin == b.drag_split_origin
    &&& a.search_active == b.search_active
    &&& a.search_query == b.search_query
    &&& a.search_matches == b.search_matches
    &&& a.search_current == b.search_current
    &&& a.search_target_tab == b.search_target_tab
}

/// The ids a window holds: its groups, its terminals and its SFTP handles.
pub open spec fn window_target(m: WorkspaceModel, sftp_handle_ids: Seq<String>) -> TargetView {
    TargetView {
        group_ids: m.tab_groups.map_values(|g: TabGroup| g.id@),
        tab_ids: m.tabs.map_values(|t: TerminalTab| t.id@),
        sftp_handle_ids: strs_view(sftp_handle_ids),
    }
}

/// How a window takes in moved groups.
#[derive(Debug)]
pub enum ReceiptPlan {
    /// The single moved group's panes dock into the active group, giving
    /// this layout.
    Docked(PaneLayout),
    /// Each moved group becomes a tab group of its own.
    Groups,
}

/// The drop zone in force for a batch: only a lone group dropped on an
/// active group may split it.
pub open spec fn receipt_zone(count: int, requested: DockZone, has_active_group: bool) -> DockZone {
    if !has_active_group || count != 1 {
        DockZone::Center
    } else {
        requested
    }
}

pub open spec fn empty_batch_msg() -> Seq<char> {
    "cannot receive an empty transfer batch"@
}

impl TinyShell {
    /// Decides how to take in `transfers` dropped at `requested_zone`:
    /// refused for an empty batch or when the batch conflicts with itself or
    /// with this window (checked as whole groups unless the zone splits);
    /// otherwise docked into the active group's layout for a splitting zone,
    /// else as new groups.
    pub fn plan_group_receipt(&self, transfers: &[GroupTransfer], requested_zone: DockZone) -> (r:
        Result<ReceiptPlan, &'static str>)
        ensures
            transfers@.len() == 0 ==> (r matches Err(e) && e@ == empty_batch_msg()),
            transfers@.len() > 0 ==> {
                let zone = receipt_zone(
                    transfers@.len() as int,
                    requested_zone,
                    self.workspace@.active_group is Some,
                );
                let ms = transfers@.map_values(|t: GroupTransfer| transfer_view(t));
                let target = window_target(self.workspace@, self.sftp_handle_ids@);
                let refusal = match batch_error(ms) {
                    Some(e) => Some(e),
                    None => first_target_error(ms, target, zone == DockZone::Center),
                };
                match refusal {
                    Some(e) => r matches Err(x) && x@ == e,
                    None => if zone != DockZone::Center {
                        r matches Ok(ReceiptPlan::Docked(m)) && layout_ids(m) == docked_ids(
                            layout_ids(transfers@[0].group.pane_root),
                            layout_ids(self.workspace@.current_pane_root()),
                            zone,
                        ) && tree_of(m) == merged_tree(
                            tree_of(transfers@[0].group.pane_root),
                            tree_of(self.workspace@.current_pane_root()),
                            zone,
                        )
                    } else {
                        r matches Ok(ReceiptPlan::Groups)
                    },
                }
            },
    {
        if transfers.len() == 0 {
            return Err("cannot receive an empty transfer batch");
        }
        let mut zone = effective_batch_drop_zone(transfers.len(), requested_zone);
        if self.workspace.active_group_id().is_none() {
            zone = DockZone::Center;
        }
        let mut manifests: Vec<TransferManifest> = Vec::new();
        let mut i: usize = 0;
        while i < transfers.len()
            invariant
                i <= transfers@.len(),
                manifests@.len() == i,
                forall|k: int|
                    0 <= k < i ==> (#[trigger] manifests@[k])@ == transfer_view(transfers@[k]),
            decreases transfers@.len() - i,
        {
            manifests.push(transfers[i].manifest());
            i = i + 1;
        }
        assert(manifest_views(manifests@) =~= transfers@.map_values(
            |t: GroupTransfer| transfer_view(t),
        ));
        let target = self.transfer_target_manifest();
        assert(target@ =~= window_target(self.workspace@, self.sftp_handle_ids@));
        match validate_transfer_batch_for_target(manifests.as_slice(), &target, !zone.is_split()) {
            Ok(()) => {},
            Err(e) => {
                return Err(e);
            },
        }
        if zone.is_split() {
            let incoming = transfers[0].group.pane_root.duplicate();
            let existing = self.workspace.pane_root().duplicate();
            match merge_pane_layout(incoming, existing, zone) {
                Some(m) => Ok(ReceiptPlan::Docked(m)),
                None => Err("cannot merge the transferred pane layout"),
            }
        } else {
            Ok(ReceiptPlan::Groups)
        }
    }
}

} // verus!
