//! Switching between tab groups and rearranging the panes of the active one.
use vstd::prelude::*;

use crate::pane_layout::tree_of;

use crate::pane_layout::{layout_ids, remove_first, strs_view, PaneLayout};
use crate::shell::{focus_outcome, group_ssh_tabs, opt_view, synced_system_tab, TinyShell};
use crate::tab_drag::DockZone;
use crate::tab_transfer::{
    dock_tab_layout, docked_ids, reordered, replace_first, same_groups, selected_in, unselected_in,
    ReorderedTabGroups,
};
use crate::terminal_workspace::{group_index, WorkspaceModel};

verus! {

/// Window `b` is window `a` once the monitored tab followed the active
/// group's SSH panes.
pub open spec fn system_tab_synced(a: TinyShell, b: TinyShell) -> bool {
    &&& opt_view(b.system_tab_id) == synced_system_tab(
        opt_view(a.system_tab_id),
        group_ssh_tabs(a.workspace@),
    )
    &&& b == TinyShell { system_tab_id: b.system_tab_id, ..a }
}

/// Window `b` is window `a` with group `j` made active, shown, and its first
/// pane (if any) made the active tab: the home page closes and no
/// system-information tab stays active.
pub open spec fn group_shown(a: TinyShell, b: TinyShell, j: int) -> bool {
    let m = a.workspace@;
    let g = m.tab_groups[j];
    let ids = layout_ids(g.pane_root);
    let base = WorkspaceModel {
        active_group: b.workspace@.active_group,
        active_tab: b.workspace@.active_tab,
        active_system_info_tab: None,
        ..m
    };
    &&& b == TinyShell { workspace: b.workspace, home_page_open: false, ..a }
    &&& opt_view(b.workspace@.active_group) == Some(g.id@)
    &&& opt_view(b.workspace@.active_tab) == if ids.len() > 0 {
        Some(ids[0])
    } else {
        opt_view(m.active_tab)
    }
    &&& exists|root: PaneLayout|
        tree_of(root) == tree_of(g.pane_root) && layout_ids(root) == ids && b.workspace@
            == base.with_current_pane_root(root)
}

/// The layout docking pane `source` next to pane `target` at `zone` gives
/// in the shown layout of `m`: the pane leaves its place (`tree_without`)
/// and the first pane for `target` is split to hold it (`tree_docked`).
pub open spec fn docked_tree(
    m: WorkspaceModel,
    source: Seq<char>,
    target: Seq<char>,
    zone: DockZone,
) -> crate::pane_layout::LayoutTree {
    crate::tab_transfer::tree_docked(
        crate::pane_layout::tree_without(tree_of(m.current_pane_root()), source),
        target,
        crate::pane_layout::LayoutTree::Single(source),
        zone,
    )
}

/// The layout docking pane `source` next to pane `target` at `zone` gives
/// in the shown layout of `m`, by its tab ids.
pub open spec fn docked_layout_ids(
    m: WorkspaceModel,
    source: Seq<char>,
    target: Seq<char>,
    zone: DockZone,
) -> Seq<Seq<char>> {
    replace_first(
        remove_first(layout_ids(m.current_pane_root()), source),
        target,
        docked_ids(seq![source], seq![target], zone),
    )
}

/// Window `b` is window `a` after activating group `gid`, and `switched`
/// tells whether another group was active. Without such a group only the
/// home page closes, the active system-information tab is dropped and the
/// monitored tab is resynchronised; otherwise the group is shown with its
/// first pane focused, then the monitored tab follows it.
pub open spec fn group_activated(a: TinyShell, b: TinyShell, gid: Seq<char>, switched: bool) -> bool {
    match group_index(a.workspace@.tab_groups, gid) {
        None => {
            &&& !switched
            &&& b.workspace@ == (WorkspaceModel { active_system_info_tab: None, ..a.workspace@ })
            &&& system_tab_synced((TinyShell { home_page_open: false, workspace: b.workspace, ..a }), b)
        },
        Some(j) => {
            let ids = layout_ids(a.workspace@.tab_groups[j].pane_root);
            &&& switched == (opt_view(a.workspace@.active_group) != Some(gid))
            &&& exists|shown: TinyShell, focused: TinyShell|
                #![trigger group_shown(a, shown, j), system_tab_synced(focused, b)]
                group_shown(a, shown, j) && (if ids.len() > 0 {
                    focus_outcome(shown, focused, ids[0])
                } else {
                    focused == shown
                }) && system_tab_synced(focused, b)
        },
    }
}

/// Window `b` is window `a` after asking to dock pane `source` next to pane
/// `target` of group `gid` at `zone`; `docked` tells whether it happened:
/// exactly when `gid` is the active group, the panes differ and are both
/// shown, and the zone splits. Then the shown layout changes as docking
/// describes and the moved pane becomes the active, focused one.
pub open spec fn pane_docked(
    a: TinyShell,
    b: TinyShell,
    gid: Seq<char>,
    source: Seq<char>,
    target: Seq<char>,
    zone: DockZone,
    docked: bool,
) -> bool {
    let m = a.workspace@;
    let ids = layout_ids(m.current_pane_root());
    &&& docked == (opt_view(m.active_group) == Some(gid) && source != target && zone
        != DockZone::Center && ids.contains(source) && ids.contains(target))
    &&& !docked ==> b == a
    &&& docked ==> exists|mid: TinyShell, root: PaneLayout|
        layout_ids(root) == docked_layout_ids(m, source, target, zone) && tree_of(root)
            == docked_tree(m, source, target, zone) && mid == (TinyShell {
            workspace: mid.workspace,
            ..a
        }) && mid.workspace@ == (WorkspaceModel {
            active_tab: mid.workspace@.active_tab,
            ..m.with_current_pane_root(root)
        }) && opt_view(mid.workspace@.active_tab) == Some(source) && focus_outcome(mid, b, source)
}

/// Window `b` is window `a` after asking to move the groups named in `sel`
/// to position `index` among the others. `r` is `None`, and nothing changed,
/// exactly when no name is given or no group matches; otherwise the groups
/// are reordered as `reordered` says (by copy), the first moved group is
/// activated as `group_activated` says, and `r` is where the moved groups
/// now start.
pub open spec fn groups_reordered(
    a: TinyShell,
    b: TinyShell,
    sel: Seq<Seq<char>>,
    index: usize,
    r: Option<usize>,
) -> bool {
    let groups = a.workspace@.tab_groups;
    let moving = groups.filter(selected_in(sel));
    let remaining = groups.filter(unselected_in(sel));
    match r {
        None => (sel.len() == 0 || moving.len() == 0) && b == a,
        Some(at) => {
            &&& sel.len() > 0
            &&& moving.len() > 0
            &&& at == if index < remaining.len() {
                index as int
            } else {
                remaining.len() as int
            }
            &&& exists|mid: TinyShell, switched: bool|
                #![trigger group_activated(mid, b, moving[0].id@, switched)]
                mid == (TinyShell { workspace: mid.workspace, ..a }) && mid.workspace@ == (
                WorkspaceModel { tab_groups: mid.workspace@.tab_groups, ..a.workspace@ })
                    && same_groups(mid.workspace@.tab_groups, reordered(groups, sel, at as int))
                    && group_activated(mid, b, moving[0].id@, switched)
        },
    }
}

impl TinyShell {
    /// Makes group `group_id` active and shows it with its first pane
    /// focused; the home page closes, the active system-information tab is
    /// dropped, and the monitored tab follows the group. Returns whether
    /// another group became active (its SFTP view then starts over).
    pub fn activate_group(&mut self, group_id: String) -> (switched: bool)
        ensures
            group_activated(*old(self), *final(self), group_id@, switched),
    {
        let ghost old_self = *self;
        let ghost m = self.workspace@;
        let is_switch = match self.workspace.active_group_id() {
            Some(g) => !crate::text::str_eq(g, group_id.as_str()),
            None => true,
        };
        self.home_page_open = false;
        self.workspace.clear_active_system_info_tab();
        let position = self.workspace.tab_group_position(group_id.as_str());
        match position {
            Some(j) => {
                proof {
                    crate::seq_util::lemma_first_index_sound(
                        m.tab_groups,
                        crate::terminal_workspace::has_id(group_id@),
                    );
                }
                let root = self.workspace.tab_groups()[j].pane_root.duplicate();
                let ids = self.workspace.tab_groups()[j].pane_root.tab_ids();
                let ghost rv = root;
                self.workspace.set_active_group(Some(group_id));
                proof {
                    crate::terminal_workspace::lemma_group_index_found(
                        self.workspace@.tab_groups,
                        m.tab_groups[j as int].id@,
                        j as int,
                    );
                }
                self.workspace.set_pane_root(root);
                if ids.len() > 0 {
                    assert(strs_view(ids@)[0] == ids@[0]@);
                    self.workspace.set_active_tab(Some(ids[0].clone()));
                }
                let ghost shown = *self;
                proof {
                    let base = WorkspaceModel {
                        active_group: shown.workspace@.active_group,
                        active_tab: shown.workspace@.active_tab,
                        active_system_info_tab: None,
                        ..m
                    };
                    assert(shown.workspace@ == base.with_current_pane_root(rv));
                    assert(group_shown(old_self, shown, j as int));
                }
                if ids.len() > 0 {
                    self.focus_pane_with_id(crate::text::string_of(ids[0].as_str()));
                }
                let ghost focused = *self;
                self.sync_system_tab_to_active_group();
                proof {
                    let lids = layout_ids(m.tab_groups[j as int].pane_root);
                    assert(lids == strs_view(ids@));
                    if ids.len() > 0 {
                        assert(lids[0] == ids@[0]@);
                        assert(focus_outcome(shown, focused, lids[0]));
                    } else {
                        assert(focused == shown);
                    }
                    assert(system_tab_synced(focused, *self));
                }
                is_switch
            },
            None => {
                self.sync_system_tab_to_active_group();
                false
            },
        }
    }

    /// Docks pane `source_tab_id` next to pane `target_tab_id` of the active
    /// group `group_id`, then makes the moved pane active and focused.
    /// Nothing happens unless that group is active and the docking is
    /// possible; returns whether it happened.
    pub fn dock_pane(&mut self, group_id: &str, source_tab_id: &str, target_tab_id: &str, zone: DockZone) -> (
        docked: bool)
        ensures
            pane_docked(*old(self), *final(self), group_id@, source_tab_id@, target_tab_id@, zone, docked),
    {
        let active_matches = match self.workspace.active_group_id() {
            Some(g) => crate::text::str_eq(g, group_id),
            None => false,
        };
        if !active_matches {
            return false;
        }
        let mut layout = self.workspace.pane_root().duplicate();
        assert(tree_of(layout) == tree_of(old(self).workspace@.current_pane_root()));
        if !dock_tab_layout(&mut layout, source_tab_id, target_tab_id, zone) {
            return false;
        }
        let ghost rv = layout;
        self.workspace.set_pane_root(layout);
        self.workspace.set_active_tab(Some(crate::text::string_of(source_tab_id)));
        let ghost mid = *self;
        assert(layout_ids(rv) == docked_layout_ids(
            old(self).workspace@,
            source_tab_id@,
            target_tab_id@,
            zone,
        ));
        self.focus_pane_with_id(crate::text::string_of(source_tab_id));
        true
    }
    /// Moves the groups named in `group_ids` to position `index` among the
    /// others, keeping their order, and activates the first of them. Returns
    /// where the moved groups now start, or `None` (changing nothing) when no
    /// name is given or no group matches.
    pub fn reorder_tab_groups(&mut self, group_ids: &[String], index: usize) -> (r: Option<usize>)
        ensures
            groups_reordered(*old(self), *final(self), strs_view(group_ids@), index, r),
    {
        let reordered = match crate::tab_transfer::reorder_tab_groups(
            self.workspace.tab_groups(),
            group_ids,
            index,
        ) {
            Some(x) => x,
            None => {
                return None;
            },
        };
        let ReorderedTabGroups { groups, active_group_id, insert_at } = reordered;
        let slot = self.workspace.tab_groups_mut();
        *slot = groups;
        let ghost mid = *self;
        let switched = self.activate_group(active_group_id);
        assert(group_activated(mid, *self, active_group_id@, switched));
        Some(insert_at)
    }
}

} // verus!
