//! Splitting a pane to open a new terminal beside it.
use vstd::prelude::*;

use crate::pane_layout::{
    ids_replaced_at, layout_ids, node_at, split_children, strs_view, tree_of, tree_replaced,
    LayoutTree, PaneLayout, EVEN_SPLIT_RATIO_BITS,
};
use crate::shell::TinyShell;
use crate::shell_panes::PaneDirection;
use crate::shell_receive::handles_joined;
use crate::terminal_workspace::{tab_index, TabKind, TerminalTab, WorkspaceModel};

verus! {

/// The panes, in order, of the split that takes the place of pane `current`
/// when pane `new` opens beside it in direction `d`.
pub open spec fn split_ids(current: Seq<char>, new: Seq<char>, d: PaneDirection) -> Seq<Seq<char>> {
    match d {
        PaneDirection::Left | PaneDirection::Up => seq![new, current],
        PaneDirection::Right | PaneDirection::Down => seq![current, new],
    }
}

/// The position of the new pane within the split.
pub open spec fn new_pane_index(d: PaneDirection) -> usize {
    match d {
        PaneDirection::Right | PaneDirection::Down => 1,
        PaneDirection::Left | PaneDirection::Up => 0,
    }
}

/// The split that takes the place of pane `current` when pane `new` opens
/// beside it in direction `d`: side by side (a vertical divider) for left
/// and right, stacked for up and down, halved evenly.
pub open spec fn is_split_for(l: PaneLayout, current: Seq<char>, new: Seq<char>, d: PaneDirection) -> bool {
    let pair = |c: Seq<PaneLayout>|
        c.len() == 2 && children_are(c, split_ids(current, new, d));
    match d {
        PaneDirection::Left | PaneDirection::Right => l matches PaneLayout::Vertical(c, r) && r
            == EVEN_SPLIT_RATIO_BITS && pair(c@),
        PaneDirection::Up | PaneDirection::Down => l matches PaneLayout::Horizontal(c, r) && r
            == EVEN_SPLIT_RATIO_BITS && pair(c@),
    }
}

/// The split that takes the place of pane `current` when pane `new` opens
/// beside it in direction `d`, as a tree (`is_split_for`).
pub open spec fn split_tree(current: Seq<char>, new: Seq<char>, d: PaneDirection) -> LayoutTree {
    let ids = split_ids(current, new, d);
    let panes = seq![LayoutTree::Single(ids[0]), LayoutTree::Single(ids[1])];
    match d {
        PaneDirection::Left | PaneDirection::Right => LayoutTree::Vertical(panes, EVEN_SPLIT_RATIO_BITS),
        PaneDirection::Up | PaneDirection::Down => LayoutTree::Horizontal(panes, EVEN_SPLIT_RATIO_BITS),
    }
}

/// Two layouts that are single panes showing `ids`, in order.
pub open spec fn children_are(c: Seq<PaneLayout>, ids: Seq<Seq<char>>) -> bool {
    &&& c[0] matches PaneLayout::Single(x) && x@ == ids[0]
    &&& c[1] matches PaneLayout::Single(y) && y@ == ids[1]
}

/// Window `b` is window `a` once pane `current`, at `path` of the shown
/// layout, was split to open `new_tab` beside it in direction `d`: the tab
/// is appended to the terminal tabs (its SFTP handle joined when
/// `with_sftp`), the node at `path` becomes the split `is_split_for`
/// describes (when `path` leads to a node) while every other split keeps
/// its orientation, ratio and children (`tree_replaced`), and the new pane
/// becomes the focused, active one.
pub open spec fn pane_split(
    a: TinyShell,
    b: TinyShell,
    path: Seq<usize>,
    current: Seq<char>,
    new_tab: TerminalTab,
    d: PaneDirection,
    with_sftp: bool,
) -> bool {
    let m = a.workspace@;
    let pushed = WorkspaceModel { tabs: m.tabs.push(new_tab), ..m };
    &&& b == TinyShell { workspace: b.workspace, sftp_handle_ids: b.sftp_handle_ids, ..a }
    &&& if with_sftp {
        strs_view(b.sftp_handle_ids@) == handles_joined(strs_view(a.sftp_handle_ids@), seq![new_tab.id@])
    } else {
        b.sftp_handle_ids == a.sftp_handle_ids
    }
    &&& exists|root: PaneLayout|
        #![trigger pushed.with_current_pane_root(root)]
        layout_ids(root) == ids_replaced_at(
            m.current_pane_root(),
            path,
            split_ids(current, new_tab.id@, d),
        ) && tree_of(root) == tree_replaced(
            tree_of(m.current_pane_root()),
            path,
            split_tree(current, new_tab.id@, d),
        ) && (node_at(root, path) matches Some(n) ==> is_split_for(n, current, new_tab.id@, d))
            && b.workspace@ == (WorkspaceModel {
            focused_pane_path: path.push(new_pane_index(d)),
            active_tab: Some(new_tab.id),
            ..pushed.with_current_pane_root(root)
        })
}

impl TinyShell {
    /// Opens terminal tab `new_tab` beside pane `tab_id`, which `path` leads
    /// to in the shown layout, in direction `direction`, as `pane_split`
    /// says; `with_sftp` tells whether the new terminal has its own SFTP
    /// handle.
    pub fn split_pane_layout(
        &mut self,
        path: &[usize],
        tab_id: String,
        new_tab: TerminalTab,
        direction: PaneDirection,
        with_sftp: bool,
    )
        ensures
            pane_split(*old(self), *final(self), path@, tab_id@, new_tab, direction, with_sftp),
    {
        let ghost a = *self;
        let ghost nt = new_tab;
        let new_id = new_tab.id.clone();
        if with_sftp {
            let mut ids: Vec<String> = Vec::new();
            ids.push(new_id.clone());
            assert(strs_view(ids@) =~= seq![new_id@]);
            self.join_sftp_handles(ids);
        }
        self.workspace.push_tab(new_tab);
        let ghost pushed = self.workspace@;
        let current = PaneLayout::Single(tab_id);
        let new_pane = PaneLayout::Single(new_id.clone());
        let split = match direction {
            PaneDirection::Left => PaneLayout::Vertical(vec![new_pane, current], EVEN_SPLIT_RATIO_BITS),
            PaneDirection::Right => PaneLayout::Vertical(vec![current, new_pane], EVEN_SPLIT_RATIO_BITS),
            PaneDirection::Up => PaneLayout::Horizontal(vec![new_pane, current], EVEN_SPLIT_RATIO_BITS),
            PaneDirection::Down => PaneLayout::Horizontal(vec![current, new_pane], EVEN_SPLIT_RATIO_BITS),
        };
        let ghost sv = split;
        proof {
            let c = split_children(sv);
            crate::pane_layout::lemma_children_ids_push(seq![c[0]], c[1]);
            crate::pane_layout::lemma_children_ids_single(c[0]);
            assert(c =~= seq![c[0]].push(c[1]));
            assert(layout_ids(sv) =~= split_ids(tab_id@, new_id@, direction));
            assert(is_split_for(sv, tab_id@, new_id@, direction));
            assert(c.drop_last() =~= seq![c[0]]);
            assert(seq![c[0]].drop_last() =~= Seq::<PaneLayout>::empty());
            assert(c.len() == 2 && c.last() == c[1]);
            assert(seq![c[0]].last() == c[0]);
            assert(crate::pane_layout::trees_of(Seq::<PaneLayout>::empty()) =~= Seq::<LayoutTree>::empty());
            assert(crate::pane_layout::trees_of(seq![c[0]]) =~= seq![tree_of(c[0])]);
            assert(crate::pane_layout::trees_of(c) =~= seq![tree_of(c[0]), tree_of(c[1])]);
            assert(tree_of(sv) == split_tree(tab_id@, new_id@, direction));
        }
        let root = self.workspace.pane_root_mut();
        root.replace_at(path, split);
        let ghost rv = *root;
        let mut new_full_path: Vec<usize> = Vec::new();
        let mut i: usize = 0;
        while i < path.len()
            invariant
                i <= path@.len(),
                new_full_path@ == path@.take(i as int),
            decreases path@.len() - i,
        {
            new_full_path.push(path[i]);
            assert(new_full_path@ =~= path@.take(i + 1));
            i = i + 1;
        }
        assert(path@.take(path@.len() as int) =~= path@);
        let index: usize = match direction {
            PaneDirection::Right | PaneDirection::Down => 1,
            PaneDirection::Left | PaneDirection::Up => 0,
        };
        new_full_path.push(index);
        self.workspace.set_focused_pane_path(new_full_path);
        self.workspace.set_active_tab(Some(new_id));
        assert(self.workspace@ == (WorkspaceModel {
            focused_pane_path: path@.push(new_pane_index(direction)),
            active_tab: Some(nt.id),
            ..pushed.with_current_pane_root(rv)
        }));
    }
}

/// What splitting the pane of a terminal tab opens beside it.
#[derive(Clone, Debug, PartialEq, Eq)]
pub enum SplitPlan {
    /// No terminal tab has that id: nothing happens.
    Ignore,
    /// A local shell.
    Local,
    /// A terminal, with its own SFTP handle, on the SSH session `session_id`.
    Ssh { session_id: String },
    /// An SSH tab that holds no session: refused, reported as
    /// `split_no_session`.
    NoSession,
    /// Remote desktop panes cannot be split: refused, reported as
    /// `rdp_split_not_supported`.
    RdpRefused,
}

/// The plan for splitting pane `tab_id` of workspace `m`, by the kind of
/// its terminal tab.
pub open spec fn split_plan_for(m: WorkspaceModel, tab_id: Seq<char>) -> SplitPlan {
    match tab_index(m.tabs, tab_id) {
        None => SplitPlan::Ignore,
        Some(k) => match m.tabs[k].kind {
            TabKind::Local => SplitPlan::Local,
            TabKind::Ssh => match m.tabs[k].session_id {
                Some(s) => SplitPlan::Ssh { session_id: s },
                None => SplitPlan::NoSession,
            },
            TabKind::Rdp => SplitPlan::RdpRefused,
        },
    }
}

impl TinyShell {
    /// Decides what splitting the pane of tab `tab_id` opens: a local shell
    /// beside a local one, an SSH terminal on the same session beside an SSH
    /// one; an SSH tab without a session and a remote desktop tab are
    /// refused, and an unknown tab is ignored.
    pub fn split_plan(&self, tab_id: &str) -> (r: SplitPlan)
        ensures
            r == split_plan_for(self.workspace@, tab_id@),
    {
        match self.workspace.terminal_tab(tab_id) {
            None => SplitPlan::Ignore,
            Some(tab) => match tab.kind {
                TabKind::Local => SplitPlan::Local,
                TabKind::Ssh => match &tab.session_id {
                    Some(s) => SplitPlan::Ssh { session_id: s.clone() },
                    None => SplitPlan::NoSession,
                },
                TabKind::Rdp => SplitPlan::RdpRefused,
            },
        }
    }
}

} // verus!
