//! The terminal tabs, tab groups and pane layout of one window.
use vstd::prelude::*;

use crate::pane_layout::{layout_ids, strs_contain, strs_view, PaneLayout};
use crate::seq_util::{
    first_index, lemma_filter_take_step, lemma_first_index_found, lemma_first_index_none,
    lemma_first_index_sound,
};
use crate::text::{str_eq, string_of};

verus! {

/// The backend behind a terminal tab.
#[derive(Clone, Copy, Debug, PartialEq, Eq, Structural)]
pub enum TabKind {
    Local,
    Ssh,
    Rdp,
}

/// What the workspace logic reads of a terminal tab.
#[derive(Debug)]
pub struct TerminalTab {
    pub id: String,
    pub title: String,
    pub kind: TabKind,
    /// The id of the saved session the tab was opened from.
    pub session_id: Option<String>,
}

/// A top-level tab: a group of panes sharing one layout.
#[derive(Debug)]
pub struct TabGroup {
    pub id: String,
    pub drag_id: u64,
    pub ordinal: u64,
    pub title: String,
    pub pane_root: PaneLayout,
}

/// A system-information tab that follows an SSH terminal tab.
#[derive(Clone, Debug)]
pub struct SystemInfoTab {
    pub id: String,
    pub source_tab_id: String,
    pub title: String,
}

impl SystemInfoTab {
    /// A copy of the tab.
    pub fn duplicate(&self) -> (r: SystemInfoTab)
        ensures
            r == *self,
    {
        SystemInfoTab {
            id: self.id.clone(),
            source_tab_id: self.source_tab_id.clone(),
            title: self.title.clone(),
        }
    }
}

impl TerminalTab {
    /// A copy of the tab.
    pub fn duplicate(&self) -> (r: TerminalTab)
        ensures
            r == *self,
    {
        TerminalTab {
            id: self.id.clone(),
            title: self.title.clone(),
            kind: self.kind,
            session_id: clone_opt(&self.session_id),
        }
    }
}

impl TabGroup {
    /// A copy of the group, with a copy of its layout.
    pub fn duplicate(&self) -> (r: TabGroup)
        ensures
            r.id == self.id,
            r.drag_id == self.drag_id,
            r.ordinal == self.ordinal,
            r.title == self.title,
            crate::pane_layout::tree_of(r.pane_root) == crate::pane_layout::tree_of(self.pane_root),
            layout_ids(r.pane_root) == layout_ids(self.pane_root),
            crate::pane_layout::well_formed(r.pane_root) == crate::pane_layout::well_formed(
                self.pane_root,
            ),
    {
        TabGroup {
            id: self.id.clone(),
            drag_id: self.drag_id,
            ordinal: self.ordinal,
            title: self.title.clone(),
            pane_root: self.pane_root.duplicate(),
        }
    }
}

/// The first tab with id `id`.
pub open spec fn tab_index(tabs: Seq<TerminalTab>, id: Seq<char>) -> Option<int> {
    first_index(tabs, |t: TerminalTab| t.id@ == id)
}

/// Groups with id `id`.
pub open spec fn has_id(id: Seq<char>) -> spec_fn(TabGroup) -> bool {
    |g: TabGroup| g.id@ == id
}

/// The ids of groups, in order.
pub open spec fn group_ids(groups: Seq<TabGroup>) -> Seq<Seq<char>> {
    groups.map_values(|g: TabGroup| g.id@)
}

/// Replacing the shown layout keeps the groups' ids.
pub proof fn lemma_layout_change_keeps_group_ids(m: WorkspaceModel, root: PaneLayout)
    ensures
        group_ids(m.with_current_pane_root(root).tab_groups) == group_ids(m.tab_groups),
{
    match m.active_group_index() {
        Some(i) => {
            lemma_first_index_sound(m.tab_groups, has_id(m.active_group->0@));
            let a = m.tab_groups.update(i, TabGroup { pane_root: root, ..m.tab_groups[i] });
            assert(m.with_current_pane_root(root).tab_groups == a);
            assert(a.len() == m.tab_groups.len());
            assert forall|k: int| 0 <= k < a.len() implies (#[trigger] group_ids(a)[k]) == group_ids(
                m.tab_groups,
            )[k] by {
                assert(a[k].id == m.tab_groups[k].id);
            }
            assert(group_ids(a) =~= group_ids(m.tab_groups));
        },
        None => {},
    }
}

/// The first group with id `id`.
pub open spec fn group_index(groups: Seq<TabGroup>, id: Seq<char>) -> Option<int> {
    first_index(groups, has_id(id))
}

/// A group with id `gid` makes `group_index` find one.
pub proof fn lemma_group_index_found(groups: Seq<TabGroup>, gid: Seq<char>, j: int)
    requires
        0 <= j < groups.len(),
        groups[j].id@ == gid,
    ensures
        group_index(groups, gid) is Some,
{
    lemma_first_index_sound(groups, has_id(gid));
}

/// The first group whose layout shows tab `tab_id`.
pub open spec fn group_of_tab(groups: Seq<TabGroup>, tab_id: Seq<char>) -> Option<int> {
    first_index(groups, |g: TabGroup| layout_ids(g.pane_root).contains(tab_id))
}

/// The first system-information tab with id `id`.
pub open spec fn info_index(tabs: Seq<SystemInfoTab>, id: Seq<char>) -> Option<int> {
    first_index(tabs, |t: SystemInfoTab| t.id@ == id)
}

/// The state of a window's workspace, as plain values.
pub struct WorkspaceModel {
    pub tabs: Seq<TerminalTab>,
    pub active_tab: Option<String>,
    pub tab_groups: Seq<TabGroup>,
    pub next_tab_group_ordinal: u64,
    pub active_group: Option<String>,
    pub system_info_tabs: Seq<SystemInfoTab>,
    pub active_system_info_tab: Option<String>,
    pub pane_root: PaneLayout,
    pub focused_pane_path: Seq<usize>,
}

impl WorkspaceModel {
    /// The index of the active group, if the active id names a group.
    pub open spec fn active_group_index(self) -> Option<int> {
        match self.active_group {
            Some(g) => group_index(self.tab_groups, g@),
            None => None,
        }
    }

    /// The layout shown: the active group's, else the window's own.
    pub open spec fn current_pane_root(self) -> PaneLayout {
        match self.active_group_index() {
            Some(i) => self.tab_groups[i].pane_root,
            None => self.pane_root,
        }
    }

    /// The model with the shown layout replaced by `root`.
    pub open spec fn with_current_pane_root(self, root: PaneLayout) -> WorkspaceModel {
        match self.active_group_index() {
            Some(i) => WorkspaceModel {
                tab_groups: self.tab_groups.update(
                    i,
                    TabGroup { pane_root: root, ..self.tab_groups[i] },
                ),
                ..self
            },
            None => WorkspaceModel { pane_root: root, ..self },
        }
    }
}

/// The tabs, groups, active selections and layout of one window.
pub struct TerminalWorkspaceState {
    tabs: Vec<TerminalTab>,
    active_tab: Option<String>,
    tab_groups: Vec<TabGroup>,
    next_tab_group_ordinal: u64,
    active_group: Option<String>,
    system_info_tabs: Vec<SystemInfoTab>,
    active_system_info_tab: Option<String>,
    pane_root: PaneLayout,
    focused_pane_path: Vec<usize>,
}

impl View for TerminalWorkspaceState {
    type V = WorkspaceModel;

    closed spec fn view(&self) -> WorkspaceModel {
        WorkspaceModel {
            tabs: self.tabs@,
            active_tab: self.active_tab,
            tab_groups: self.tab_groups@,
            next_tab_group_ordinal: self.next_tab_group_ordinal,
            active_group: self.active_group,
            system_info_tabs: self.system_info_tabs@,
            active_system_info_tab: self.active_system_info_tab,
            pane_root: self.pane_root,
            focused_pane_path: self.focused_pane_path@,
        }
    }
}

/// The first position of a tab with id `id`.
fn find_tab(tabs: &Vec<TerminalTab>, id: &str) -> (r: Option<usize>)
    ensures
        r matches Some(i) ==> tab_index(tabs@, id@) == Some(i as int),
        r is None ==> tab_index(tabs@, id@) is None,
{
    let ghost p = |t: TerminalTab| t.id@ == id@;
    let mut i: usize = 0;
    while i < tabs.len()
        invariant
            i <= tabs@.len(),
            p == (|t: TerminalTab| t.id@ == id@),
            forall|j: int| 0 <= j < i ==> !p(#[trigger] tabs@[j]),
        decreases tabs@.len() - i,
    {
        if str_eq(tabs[i].id.as_str(), id) {
            proof {
                lemma_first_index_found(tabs@, p, i as int);
            }
            return Some(i);
        }
        i = i + 1;
    }
    proof {
        lemma_first_index_none(tabs@, p);
    }
    None
}

/// The first position of a group with id `id`.
fn find_group(groups: &Vec<TabGroup>, id: &str) -> (r: Option<usize>)
    ensures
        r matches Some(i) ==> group_index(groups@, id@) == Some(i as int),
        r is None ==> group_index(groups@, id@) is None,
{
    let ghost p = has_id(id@);
    let mut i: usize = 0;
    while i < groups.len()
        invariant
            i <= groups@.len(),
            p == (has_id(id@)),
            forall|j: int| 0 <= j < i ==> !p(#[trigger] groups@[j]),
        decreases groups@.len() - i,
    {
        if str_eq(groups[i].id.as_str(), id) {
            proof {
                lemma_first_index_found(groups@, p, i as int);
            }
            return Some(i);
        }
        i = i + 1;
    }
    proof {
        lemma_first_index_none(groups@, p);
    }
    None
}

/// The first position of a group whose layout shows tab `tab_id`.
pub fn find_group_of_tab(groups: &Vec<TabGroup>, tab_id: &str) -> (r: Option<usize>)
    ensures
        r matches Some(i) ==> group_of_tab(groups@, tab_id@) == Some(i as int),
        r is None ==> group_of_tab(groups@, tab_id@) is None,
{
    let ghost p = |g: TabGroup| layout_ids(g.pane_root).contains(tab_id@);
    let mut i: usize = 0;
    while i < groups.len()
        invariant
            i <= groups@.len(),
            p == (|g: TabGroup| layout_ids(g.pane_root).contains(tab_id@)),
            forall|j: int| 0 <= j < i ==> !p(#[trigger] groups@[j]),
        decreases groups@.len() - i,
    {
        if groups[i].pane_root.contains(tab_id) {
            proof {
                lemma_first_index_found(groups@, p, i as int);
            }
            return Some(i);
        }
        i = i + 1;
    }
    proof {
        lemma_first_index_none(groups@, p);
    }
    None
}

/// The first position of a system-information tab with id `id`.
fn find_info(tabs: &Vec<SystemInfoTab>, id: &str) -> (r: Option<usize>)
    ensures
        r matches Some(i) ==> info_index(tabs@, id@) == Some(i as int),
        r is None ==> info_index(tabs@, id@) is None,
{
    let ghost p = |t: SystemInfoTab| t.id@ == id@;
    let mut i: usize = 0;
    while i < tabs.len()
        invariant
            i <= tabs@.len(),
            p == (|t: SystemInfoTab| t.id@ == id@),
            forall|j: int| 0 <= j < i ==> !p(#[trigger] tabs@[j]),
        decreases tabs@.len() - i,
    {
        if str_eq(tabs[i].id.as_str(), id) {
            proof {
                lemma_first_index_found(tabs@, p, i as int);
            }
            return Some(i);
        }
        i = i + 1;
    }
    proof {
        lemma_first_index_none(tabs@, p);
    }
    None
}

/// A copy of an optional string.
pub fn clone_opt(s: &Option<String>) -> (r: Option<String>)
    ensures
        r == *s,
{
    match s {
        Some(x) => Some(x.clone()),
        None => None,
    }
}

impl TerminalWorkspaceState {
    /// An empty workspace whose first group ordinal is 1.
    pub fn new() -> (r: Self)
        ensures
            r@.tabs.len() == 0,
            r@.active_tab is None,
            r@.tab_groups.len() == 0,
            r@.next_tab_group_ordinal == 1,
            r@.active_group is None,
            r@.system_info_tabs.len() == 0,
            r@.active_system_info_tab is None,
            r@.pane_root is Empty,
            r@.focused_pane_path.len() == 0,
    {
        TerminalWorkspaceState {
            tabs: Vec::new(),
            active_tab: None,
            tab_groups: Vec::new(),
            next_tab_group_ordinal: 1,
            active_group: None,
            system_info_tabs: Vec::new(),
            active_system_info_tab: None,
            pane_root: PaneLayout::Empty,
            focused_pane_path: Vec::new(),
        }
    }

    /// The terminal tabs, in tab order.
    pub fn tabs(&self) -> (r: &[TerminalTab])
        ensures
            r@ == self@.tabs,
    {
        self.tabs.as_slice()
    }

    /// The number of terminal tabs.
    pub fn tab_count(&self) -> (r: usize)
        ensures
            r == self@.tabs.len(),
    {
        self.tabs.len()
    }

    /// The id of the active terminal tab.
    pub fn active_tab_id(&self) -> (r: Option<&str>)
        ensures
            r matches Some(s) ==> self@.active_tab matches Some(a) && s@ == a@,
            r is None ==> self@.active_tab is None,
    {
        match &self.active_tab {
            Some(s) => Some(s.as_str()),
            None => None,
        }
    }

    /// A copy of the id of the active terminal tab.
    pub fn active_tab_value(&self) -> (r: Option<String>)
        ensures
            r == self@.active_tab,
    {
        clone_opt(&self.active_tab)
    }

    /// A copy of the id of the active group.
    pub fn active_group_value(&self) -> (r: Option<String>)
        ensures
            r == self@.active_group,
    {
        clone_opt(&self.active_group)
    }

    /// The index of the first group with id `group_id`.
    pub fn tab_group_position(&self, group_id: &str) -> (r: Option<usize>)
        ensures
            r matches Some(i) ==> group_index(self@.tab_groups, group_id@) == Some(i as int),
            r is None ==> group_index(self@.tab_groups, group_id@) is None,
    {
        find_group(&self.tab_groups, group_id)
    }

    /// The index of the first group whose layout shows tab `tab_id`.
    pub fn group_position_of_tab(&self, tab_id: &str) -> (r: Option<usize>)
        ensures
            r matches Some(i) ==> group_of_tab(self@.tab_groups, tab_id@) == Some(i as int),
            r is None ==> group_of_tab(self@.tab_groups, tab_id@) is None,
    {
        find_group_of_tab(&self.tab_groups, tab_id)
    }

    /// The index of the active group, when the active id names a group.
    fn active_group_position(&self) -> (r: Option<usize>)
        ensures
            r matches Some(i) ==> self@.active_group_index() == Some(i as int),
            r is None ==> self@.active_group_index() is None,
    {
        match &self.active_group {
            Some(g) => find_group(&self.tab_groups, g.as_str()),
            None => None,
        }
    }

    /// The layout shown: the active group's layout, or the window's own
    /// layout when no group is active.
    pub fn pane_root(&self) -> (r: &PaneLayout)
        ensures
            *r == self@.current_pane_root(),
    {
        match self.active_group_position() {
            Some(i) => {
                proof {
                    lemma_first_index_sound(
                        self.tab_groups@,
                        has_id(self.active_group->0@),
                    );
                }
                &self.tab_groups[i].pane_root
            },
            None => &self.pane_root,
        }
    }

    /// Replaces the layout shown: the active group's, or the window's own
    /// when no group is active.
    pub fn set_pane_root(&mut self, pane_root: PaneLayout)
        ensures
            final(self)@ == old(self)@.with_current_pane_root(pane_root),
    {
        match self.active_group_position() {
            Some(i) => {
                proof {
                    lemma_first_index_sound(
                        self.tab_groups@,
                        has_id(self.active_group->0@),
                    );
                }
                let mut group = self.tab_groups.remove(i);
                let ghost g0 = group;
                group.pane_root = pane_root;
                self.tab_groups.insert(i, group);
                assert(self.tab_groups@ =~= old(self).tab_groups@.update(
                    i as int,
                    TabGroup { pane_root: pane_root, ..g0 },
                ));
            },
            None => {
                self.pane_root = pane_root;
            },
        }
    }

    /// The system-information tabs, in order.
    pub fn system_info_tabs(&self) -> (r: &[SystemInfoTab])
        ensures
            r@ == self@.system_info_tabs,
    {
        self.system_info_tabs.as_slice()
    }

    /// The system-information tabs, for changes that leave the rest alone.
    pub fn system_info_tabs_mut(&mut self) -> (r: &mut Vec<SystemInfoTab>)
        ensures
            r@ == old(self)@.system_info_tabs,
            final(self)@ == (WorkspaceModel { system_info_tabs: final(r)@, ..old(self)@ }),
    {
        &mut self.system_info_tabs
    }

    /// The tab groups, in tab-bar order.
    pub fn tab_groups(&self) -> (r: &[TabGroup])
        ensures
            r@ == self@.tab_groups,
    {
        self.tab_groups.as_slice()
    }

    /// The id of the active group.
    pub fn active_group_id(&self) -> (r: Option<&str>)
        ensures
            r matches Some(s) ==> self@.active_group matches Some(a) && s@ == a@,
            r is None ==> self@.active_group is None,
    {
        match &self.active_group {
            Some(s) => Some(s.as_str()),
            None => None,
        }
    }

    /// The id of the active system-information tab.
    pub fn active_system_info_tab_id(&self) -> (r: Option<&str>)
        ensures
            r matches Some(s) ==> self@.active_system_info_tab matches Some(a) && s@ == a@,
            r is None ==> self@.active_system_info_tab is None,
    {
        match &self.active_system_info_tab {
            Some(s) => Some(s.as_str()),
            None => None,
        }
    }

    /// The path of child indices to the focused pane.
    pub fn focused_pane_path(&self) -> (r: &[usize])
        ensures
            r@ == self@.focused_pane_path,
    {
        self.focused_pane_path.as_slice()
    }

    /// The terminal tabs, for changes that leave the rest alone.
    pub fn tabs_mut(&mut self) -> (r: &mut Vec<TerminalTab>)
        ensures
            r@ == old(self)@.tabs,
            final(self)@ == (WorkspaceModel { tabs: final(r)@, ..old(self)@ }),
    {
        &mut self.tabs
    }

    /// The tab groups, for changes that leave the rest alone.
    pub fn tab_groups_mut(&mut self) -> (r: &mut Vec<TabGroup>)
        ensures
            r@ == old(self)@.tab_groups,
            final(self)@ == (WorkspaceModel { tab_groups: final(r)@, ..old(self)@ }),
    {
        &mut self.tab_groups
    }

    /// Empties the workspace; the next group ordinal is kept.
    pub fn clear(&mut self)
        ensures
            final(self)@ == (WorkspaceModel {
                tabs: seq![],
                active_tab: None,
                tab_groups: seq![],
                active_group: None,
                system_info_tabs: seq![],
                active_system_info_tab: None,
                pane_root: PaneLayout::Empty,
                focused_pane_path: seq![],
                ..old(self)@
            }),
    {
        self.tabs.clear();
        self.tab_groups.clear();
        self.system_info_tabs.clear();
        self.active_tab = None;
        self.active_group = None;
        self.active_system_info_tab = None;
        self.pane_root = PaneLayout::Empty;
        self.focused_pane_path.clear();
        assert(self.tabs@ =~= seq![]);
        assert(self.tab_groups@ =~= seq![]);
        assert(self.system_info_tabs@ =~= seq![]);
        assert(self.focused_pane_path@ =~= seq![]);
    }

    /// Appends a terminal tab.
    pub fn push_tab(&mut self, tab: TerminalTab)
        ensures
            final(self)@ == (WorkspaceModel { tabs: old(self)@.tabs.push(tab), ..old(self)@ }),
    {
        self.tabs.push(tab);
    }

    /// Removes and returns all terminal tabs.
    pub fn take_tabs(&mut self) -> (r: Vec<TerminalTab>)
        ensures
            r@ == old(self)@.tabs,
            final(self)@ == (WorkspaceModel { tabs: seq![], ..old(self)@ }),
    {
        let mut tabs: Vec<TerminalTab> = Vec::new();
        std::mem::swap(&mut tabs, &mut self.tabs);
        assert(self.tabs@ =~= seq![]);
        tabs
    }

    /// Replaces all terminal tabs.
    pub fn replace_tabs(&mut self, tabs: Vec<TerminalTab>)
        ensures
            final(self)@ == (WorkspaceModel { tabs: tabs@, ..old(self)@ }),
    {
        self.tabs = tabs;
    }

    /// Appends terminal tabs, in order.
    pub fn append_tabs(&mut self, tabs: Vec<TerminalTab>)
        ensures
            final(self)@ == (WorkspaceModel { tabs: old(self)@.tabs + tabs@, ..old(self)@ }),
    {
        let mut tabs = tabs;
        self.tabs.append(&mut tabs);
    }

    /// Inserts a terminal tab at `index`, or at the end when `index` is past it.
    pub fn insert_tab(&mut self, index: usize, tab: TerminalTab)
        ensures
            final(self)@ == (WorkspaceModel {
                tabs: old(self)@.tabs.insert(
                    if index < old(self)@.tabs.len() {
                        index as int
                    } else {
                        old(self)@.tabs.len() as int
                    },
                    tab,
                ),
                ..old(self)@
            }),
    {
        let at = if index < self.tabs.len() {
            index
        } else {
            self.tabs.len()
        };
        self.tabs.insert(at, tab);
    }

    /// Appends a tab group.
    pub fn push_group(&mut self, group: TabGroup)
        ensures
            final(self)@ == (WorkspaceModel {
                tab_groups: old(self)@.tab_groups.push(group),
                ..old(self)@
            }),
    {
        self.tab_groups.push(group);
    }

    /// Inserts a tab group at `index`, or at the end when `index` is past it.
    pub fn insert_group(&mut self, index: usize, group: TabGroup)
        ensures
            final(self)@ == (WorkspaceModel {
                tab_groups: old(self)@.tab_groups.insert(
                    if index < old(self)@.tab_groups.len() {
                        index as int
                    } else {
                        old(self)@.tab_groups.len() as int
                    },
                    group,
                ),
                ..old(self)@
            }),
    {
        let at = if index < self.tab_groups.len() {
            index
        } else {
            self.tab_groups.len()
        };
        self.tab_groups.insert(at, group);
    }

    /// Removes the group at `index`, if there is one.
    pub fn remove_group(&mut self, index: usize) -> (r: Option<TabGroup>)
        ensures
            index < old(self)@.tab_groups.len() ==> r == Some(old(self)@.tab_groups[index as int])
                && final(self)@ == (WorkspaceModel {
                tab_groups: old(self)@.tab_groups.remove(index as int),
                ..old(self)@
            }),
            index >= old(self)@.tab_groups.len() ==> r is None && final(self)@ == old(self)@,
    {
        if index < self.tab_groups.len() {
            Some(self.tab_groups.remove(index))
        } else {
            None
        }
    }

    /// Removes the group at `index`, if there is one.
    pub fn remove_group_at(&mut self, index: usize) -> (r: Option<TabGroup>)
        ensures
            index < old(self)@.tab_groups.len() ==> r == Some(old(self)@.tab_groups[index as int])
                && final(self)@ == (WorkspaceModel {
                tab_groups: old(self)@.tab_groups.remove(index as int),
                ..old(self)@
            }),
            index >= old(self)@.tab_groups.len() ==> r is None && final(self)@ == old(self)@,
    {
        self.remove_group(index)
    }

    /// Appends a system-information tab.
    pub fn push_system_info_tab(&mut self, tab: SystemInfoTab)
        ensures
            final(self)@ == (WorkspaceModel {
                system_info_tabs: old(self)@.system_info_tabs.push(tab),
                ..old(self)@
            }),
    {
        self.system_info_tabs.push(tab);
    }

    /// Removes the first system-information tab with id `id`.
    pub fn remove_system_info_tab(&mut self, id: &str) -> (r: Option<SystemInfoTab>)
        ensures
            match info_index(old(self)@.system_info_tabs, id@) {
                Some(i) => r == Some(old(self)@.system_info_tabs[i]) && final(self)@ == (
                WorkspaceModel {
                    system_info_tabs: old(self)@.system_info_tabs.remove(i),
                    ..old(self)@
                }),
                None => r is None && final(self)@ == old(self)@,
            },
    {
        match find_info(&self.system_info_tabs, id) {
            Some(i) => {
                proof {
                    lemma_first_index_sound(
                        self.system_info_tabs@,
                        |t: SystemInfoTab| t.id@ == id@,
                    );
                }
                Some(self.system_info_tabs.remove(i))
            },
            None => None,
        }
    }

    /// Sets the active terminal tab.
    pub fn set_active_tab(&mut self, tab_id: Option<String>)
        ensures
            final(self)@ == (WorkspaceModel { active_tab: tab_id, ..old(self)@ }),
    {
        self.active_tab = tab_id;
    }

    /// Sets the active group.
    pub fn set_active_group(&mut self, group_id: Option<String>)
        ensures
            final(self)@ == (WorkspaceModel { active_group: group_id, ..old(self)@ }),
    {
        self.active_group = group_id;
    }

    /// Sets the active system-information tab.
    pub fn set_active_system_info_tab(&mut self, tab_id: Option<String>)
        ensures
            final(self)@ == (WorkspaceModel { active_system_info_tab: tab_id, ..old(self)@ }),
    {
        self.active_system_info_tab = tab_id;
    }

    /// Clears the active system-information tab.
    pub fn clear_active_system_info_tab(&mut self)
        ensures
            final(self)@ == (WorkspaceModel { active_system_info_tab: None, ..old(self)@ }),
    {
        self.active_system_info_tab = None;
    }

    /// Sets the path to the focused pane.
    pub fn set_focused_pane_path(&mut self, path: Vec<usize>)
        ensures
            final(self)@ == (WorkspaceModel { focused_pane_path: path@, ..old(self)@ }),
    {
        self.focused_pane_path = path;
    }

    /// Clears the path to the focused pane.
    pub fn clear_focused_pane_path(&mut self)
        ensures
            final(self)@ == (WorkspaceModel { focused_pane_path: seq![], ..old(self)@ }),
    {
        self.focused_pane_path.clear();
        assert(self.focused_pane_path@ =~= seq![]);
    }

    /// Hands out the next group ordinal and advances the counter, which
    /// stops at `u64::MAX`.
    pub fn allocate_tab_group_ordinal(&mut self) -> (r: u64)
        ensures
            r == old(self)@.next_tab_group_ordinal,
            final(self)@ == (WorkspaceModel {
                next_tab_group_ordinal: ordinal_after(r),
                ..old(self)@
            }),
    {
        let ordinal = self.next_tab_group_ordinal;
        self.next_tab_group_ordinal = self.next_tab_group_ordinal.saturating_add(1);
        ordinal
    }

    /// Hands out the next group ordinal and advances the counter.
    pub fn reserve_tab_group_ordinal(&mut self) -> (r: u64)
        ensures
            r == old(self)@.next_tab_group_ordinal,
            final(self)@ == (WorkspaceModel {
                next_tab_group_ordinal: ordinal_after(r),
                ..old(self)@
            }),
    {
        self.allocate_tab_group_ordinal()
    }

    /// The ordinal the next group will get.
    pub fn next_tab_group_ordinal(&self) -> (r: u64)
        ensures
            r == self@.next_tab_group_ordinal,
    {
        self.next_tab_group_ordinal
    }

    /// Sets the ordinal the next group will get.
    pub fn set_next_tab_group_ordinal(&mut self, ordinal: u64)
        ensures
            final(self)@ == (WorkspaceModel { next_tab_group_ordinal: ordinal, ..old(self)@ }),
    {
        self.next_tab_group_ordinal = ordinal;
    }

    /// The first terminal tab with id `tab_id`.
    pub fn terminal_tab(&self, tab_id: &str) -> (r: Option<&TerminalTab>)
        ensures
            match tab_index(self@.tabs, tab_id@) {
                Some(i) => r == Some(&self@.tabs[i]),
                None => r is None,
            },
    {
        match find_tab(&self.tabs, tab_id) {
            Some(i) => {
                proof {
                    lemma_first_index_sound(self.tabs@, |t: TerminalTab| t.id@ == tab_id@);
                }
                Some(&self.tabs[i])
            },
            None => None,
        }
    }

    /// The first group with id `group_id`.
    pub fn tab_group(&self, group_id: &str) -> (r: Option<&TabGroup>)
        ensures
            match group_index(self@.tab_groups, group_id@) {
                Some(i) => r == Some(&self@.tab_groups[i]),
                None => r is None,
            },
    {
        match find_group(&self.tab_groups, group_id) {
            Some(i) => {
                proof {
                    lemma_first_index_sound(self.tab_groups@, has_id(group_id@));
                }
                Some(&self.tab_groups[i])
            },
            None => None,
        }
    }

    /// The first terminal tab with id `tab_id`, for changes that leave the
    /// rest alone.
    pub fn terminal_tab_mut(&mut self, tab_id: &str) -> (r: Option<&mut TerminalTab>)
        ensures
            match tab_index(old(self)@.tabs, tab_id@) {
                Some(i) => r matches Some(t) && *t == old(self)@.tabs[i] && final(self)@ == (
                WorkspaceModel { tabs: old(self)@.tabs.update(i, *final(t)), ..old(self)@ }),
                None => r is None && final(self)@ == old(self)@,
            },
    {
        match find_tab(&self.tabs, tab_id) {
            Some(i) => {
                proof {
                    lemma_first_index_sound(self.tabs@, |t: TerminalTab| t.id@ == tab_id@);
                }
                Some(&mut self.tabs[i])
            },
            None => None,
        }
    }

    /// The first group with id `group_id`, for changes that leave the rest
    /// alone.
    pub fn tab_group_mut(&mut self, group_id: &str) -> (r: Option<&mut TabGroup>)
        ensures
            match group_index(old(self)@.tab_groups, group_id@) {
                Some(i) => r matches Some(g) && *g == old(self)@.tab_groups[i] && final(self)@ == (
                WorkspaceModel {
                    tab_groups: old(self)@.tab_groups.update(i, *final(g)),
                    ..old(self)@
                }),
                None => r is None && final(self)@ == old(self)@,
            },
    {
        match find_group(&self.tab_groups, group_id) {
            Some(i) => {
                proof {
                    lemma_first_index_sound(self.tab_groups@, has_id(group_id@));
                }
                Some(&mut self.tab_groups[i])
            },
            None => None,
        }
    }

    /// The id of the first group whose layout shows tab `tab_id`.
    pub fn group_id_for_tab(&self, tab_id: &str) -> (r: Option<String>)
        ensures
            match group_of_tab(self@.tab_groups, tab_id@) {
                Some(i) => r == Some(self@.tab_groups[i].id),
                None => r is None,
            },
    {
        match find_group_of_tab(&self.tab_groups, tab_id) {
            Some(i) => {
                proof {
                    lemma_first_index_sound(
                        self.tab_groups@,
                        |g: TabGroup| layout_ids(g.pane_root).contains(tab_id@),
                    );
                }
                Some(self.tab_groups[i].id.clone())
            },
            None => None,
        }
    }

    /// Makes `tab_id` the active tab and its group the active group; does
    /// nothing and returns `false` when no tab has that id.
    pub fn activate_terminal_tab(&mut self, tab_id: &str) -> (b: bool)
        ensures
            b == tab_index(old(self)@.tabs, tab_id@) is Some,
            b ==> (final(self)@.active_tab matches Some(a) && a@ == tab_id@),
            b ==> final(self)@.active_group == match group_of_tab(
                old(self)@.tab_groups,
                tab_id@,
            ) {
                Some(i) => Some(old(self)@.tab_groups[i].id),
                None => None,
            },
            b ==> final(self)@ == (WorkspaceModel {
                active_tab: final(self)@.active_tab,
                active_group: final(self)@.active_group,
                ..old(self)@
            }),
            !b ==> final(self)@ == old(self)@,
    {
        if self.terminal_tab(tab_id).is_none() {
            return false;
        }
        self.active_tab = Some(string_of(tab_id));
        self.active_group = self.group_id_for_tab(tab_id);
        true
    }

    /// Adds a tab with its own group and makes both active; the window's own
    /// layout and the focus path are reset.
    pub fn install_terminal_tab(&mut self, tab: TerminalTab, group: TabGroup)
        ensures
            final(self)@ == (WorkspaceModel {
                tabs: old(self)@.tabs.push(tab),
                tab_groups: old(self)@.tab_groups.push(group),
                active_tab: Some(tab.id),
                active_group: Some(group.id),
                pane_root: PaneLayout::Empty,
                focused_pane_path: seq![],
                ..old(self)@
            }),
    {
        let tab_id = tab.id.clone();
        let group_id = group.id.clone();
        self.tabs.push(tab);
        self.tab_groups.push(group);
        self.active_tab = Some(tab_id);
        self.active_group = Some(group_id);
        self.pane_root = PaneLayout::Empty;
        self.focused_pane_path.clear();
        assert(self.focused_pane_path@ =~= seq![]);
    }
}

/// The tab a workspace prefers to show: the active tab if it exists, else the
/// first pane of the group named active, else the first tab.
pub open spec fn preferred_tab(m: WorkspaceModel) -> Option<Seq<char>> {
    if m.active_tab is Some && tab_index(m.tabs, m.active_tab->0@) is Some {
        Some(m.active_tab->0@)
    } else {
        let from_group = match m.active_group {
            Some(g) => match group_index(m.tab_groups, g@) {
                Some(i) => if layout_ids(m.tab_groups[i].pane_root).len() > 0 {
                    Some(layout_ids(m.tab_groups[i].pane_root)[0])
                } else {
                    None
                },
                None => None,
            },
            None => None,
        };
        match from_group {
            Some(x) => Some(x),
            None => if m.tabs.len() > 0 {
                Some(m.tabs[0].id@)
            } else {
                None
            },
        }
    }
}

impl TerminalWorkspaceState {
    /// The layout shown, for changes that leave the rest alone.
    pub fn pane_root_mut(&mut self) -> (r: &mut PaneLayout)
        ensures
            *r == old(self)@.current_pane_root(),
            final(self)@ == old(self)@.with_current_pane_root(*final(r)),
    {
        match self.active_group_position() {
            Some(i) => {
                proof {
                    lemma_first_index_sound(
                        self.tab_groups@,
                        has_id(self.active_group->0@),
                    );
                }
                &mut self.tab_groups[i].pane_root
            },
            None => &mut self.pane_root,
        }
    }

    /// The id of the tab to show: the active tab when it exists, else the
    /// first pane of the active group, else the first tab.
    pub fn preferred_terminal_tab_id(&self) -> (r: Option<String>)
        ensures
            r matches Some(x) ==> preferred_tab(self@) == Some(x@),
            r is None ==> preferred_tab(self@) is None,
    {
        if let Some(active_id) = &self.active_tab {
            if self.terminal_tab(active_id.as_str()).is_some() {
                return Some(active_id.clone());
            }
        }
        if let Some(group_id) = &self.active_group {
            if let Some(group) = self.tab_group(group_id.as_str()) {
                let ids = group.pane_root.tab_ids();
                if ids.len() > 0 {
                    assert(strs_view(ids@)[0] == ids@[0]@);
                    return Some(ids[0].clone());
                }
            }
        }
        if self.tabs.len() > 0 {
            Some(self.tabs[0].id.clone())
        } else {
            None
        }
    }
}

/// The system-information tabs that follow one of `valid_tab_ids`, and the
/// active one among them.
pub fn extract_system_info_transfer(
    tabs: &[SystemInfoTab],
    active_id: Option<&str>,
    valid_tab_ids: &[String],
) -> (r: (Vec<SystemInfoTab>, Option<String>))
    ensures
        r.0@ == tabs@.filter(|t: SystemInfoTab| strs_view(valid_tab_ids@).contains(t.source_tab_id@)),
        r.1 matches Some(a) ==> (active_id is Some && a@ == active_id->0@ && info_index(
            r.0@,
            a@,
        ) is Some),
        r.1 is None ==> active_id is None || info_index(r.0@, active_id->0@) is None,
{
    let ghost p = |t: SystemInfoTab| strs_view(valid_tab_ids@).contains(t.source_tab_id@);
    let valid = slice_strings(valid_tab_ids);
    let mut extracted: Vec<SystemInfoTab> = Vec::new();
    let mut i: usize = 0;
    while i < tabs.len()
        invariant
            i <= tabs@.len(),
            valid@ == valid_tab_ids@,
            p == (|t: SystemInfoTab| strs_view(valid_tab_ids@).contains(t.source_tab_id@)),
            extracted@ == tabs@.take(i as int).filter(p),
        decreases tabs@.len() - i,
    {
        proof {
            lemma_filter_take_step(tabs@, p, i as int);
        }
        if strs_contain(&valid, tabs[i].source_tab_id.as_str()) {
            extracted.push(tabs[i].duplicate());
        }
        i = i + 1;
    }
    assert(tabs@.take(tabs@.len() as int) =~= tabs@);
    let mut active: Option<String> = None;
    if let Some(id) = active_id {
        if find_info(&extracted, id).is_some() {
            active = Some(string_of(id));
        }
    }
    (extracted, active)
}

/// The strings of a slice, copied into a vector.
pub fn slice_strings(s: &[String]) -> (r: Vec<String>)
    ensures
        r@ == s@,
{
    let mut out: Vec<String> = Vec::new();
    let mut i: usize = 0;
    while i < s.len()
        invariant
            i <= s@.len(),
            out@ == s@.take(i as int),
        decreases s@.len() - i,
    {
        out.push(s[i].clone());
        assert(out@ =~= s@.take(i + 1));
        i = i + 1;
    }
    assert(s@.take(s@.len() as int) =~= s@);
    out
}

/// Appends transferred system-information tabs to `destination`; returns
/// `active_id` if a tab of the result has that id.
pub fn restore_system_info_transfer(
    destination: &mut Vec<SystemInfoTab>,
    transferred: Vec<SystemInfoTab>,
    active_id: Option<String>,
) -> (r: Option<String>)
    ensures
        final(destination)@ == old(destination)@ + transferred@,
        r matches Some(a) ==> active_id == Some(a) && info_index(final(destination)@, a@) is Some,
        r is None ==> active_id is None || info_index(final(destination)@, active_id->0@) is None,
{
    let mut transferred = transferred;
    destination.append(&mut transferred);
    match active_id {
        Some(id) => {
            if find_info(destination, id.as_str()).is_some() {
                Some(id)
            } else {
                None
            }
        },
        None => None,
    }
}

/// Membership in `valid`, as a predicate.
pub open spec fn member_of(valid: Seq<Seq<char>>) -> spec_fn(Seq<char>) -> bool {
    |id: Seq<char>| valid.contains(id)
}

/// The tab that should be active after moving a group whose panes are
/// `ids`: `active` if it is one of them and among `valid`, else the first of
/// them that is among `valid`.
pub open spec fn chosen_active_tab(
    active: Option<Seq<char>>,
    ids: Seq<Seq<char>>,
    valid: Seq<Seq<char>>,
) -> Option<Seq<char>> {
    if active is Some && ids.contains(active->0) && valid.contains(active->0) {
        active
    } else {
        match first_index(ids, member_of(valid)) {
            Some(i) => Some(ids[i]),
            None => None,
        }
    }
}

/// The tab that should be active after moving a group with layout
/// `pane_root`: `active_tab` if it is a pane of the layout and among
/// `valid_tabs`, else the first pane that is.
pub fn choose_transfer_active_tab(
    active_tab: Option<&str>,
    pane_root: &PaneLayout,
    valid_tabs: &[String],
) -> (r: Option<String>)
    ensures
        r matches Some(x) ==> chosen_active_tab(
            match active_tab {
                Some(a) => Some(a@),
                None => None,
            },
            layout_ids(*pane_root),
            strs_view(valid_tabs@),
        ) == Some(x@),
        r is None ==> chosen_active_tab(
            match active_tab {
                Some(a) => Some(a@),
                None => None,
            },
            layout_ids(*pane_root),
            strs_view(valid_tabs@),
        ) is None,
{
    let ghost act = match active_tab {
        Some(a) => Some(a@),
        None => None,
    };
    let valid = slice_strings(valid_tabs);
    if let Some(tab_id) = active_tab {
        if pane_root.contains(tab_id) && strs_contain(&valid, tab_id) {
            return Some(string_of(tab_id));
        }
    }
    assert(!(act is Some && layout_ids(*pane_root).contains(act->0) && strs_view(
        valid_tabs@,
    ).contains(act->0)));
    let ids = pane_root.tab_ids();
    let ghost v = strs_view(ids@);
    let ghost p = member_of(strs_view(valid_tabs@));
    let mut i: usize = 0;
    while i < ids.len()
        invariant
            i <= ids@.len(),
            valid@ == valid_tabs@,
            v == strs_view(ids@),
            v == layout_ids(*pane_root),
            p == member_of(strs_view(valid_tabs@)),
            forall|j: int| 0 <= j < i ==> !p(#[trigger] v[j]),
            act == match active_tab {
                Some(a) => Some(a@),
                None => None,
            },
            !(act is Some && layout_ids(*pane_root).contains(act->0) && strs_view(
                valid_tabs@,
            ).contains(act->0)),
        decreases ids@.len() - i,
    {
        if strs_contain(&valid, ids[i].as_str()) {
            proof {
                assert(v[i as int] == ids@[i as int]@);
                lemma_first_index_found(v, p, i as int);
                assert(chosen_active_tab(act, v, strs_view(valid_tabs@)) == Some(v[i as int]));
            }
            let chosen = ids[i].clone();
            assert(chosen@ == v[i as int]);
            return Some(chosen);
        }
        i = i + 1;
    }
    proof {
        lemma_first_index_none(v, p);
    }
    None
}

/// The counter after handing out `n`: one more, staying at `u64::MAX`.
pub open spec fn ordinal_after(n: u64) -> u64 {
    if n == u64::MAX {
        u64::MAX
    } else {
        (n + 1) as u64
    }
}

/// Reserved ordinals never go down, and each one is larger than the last
/// until the counter reaches its maximum.
pub proof fn ordinal_reservation_is_monotonic(n: u64)
    ensures
        ordinal_after(n) >= n,
        n < u64::MAX ==> ordinal_after(n) > n,
        ordinal_after(u64::MAX) == u64::MAX,
{
}

/// The tab made active after moving a group is always one of the group's
/// panes and one of the tabs that moved with it.
pub proof fn transfer_active_tab_is_a_moved_pane(
    active: Option<Seq<char>>,
    ids: Seq<Seq<char>>,
    valid: Seq<Seq<char>>,
)
    ensures
        chosen_active_tab(active, ids, valid) matches Some(t) ==> ids.contains(t) && valid.contains(
            t,
        ),
{
    lemma_first_index_sound(ids, member_of(valid));
    if !(active is Some && ids.contains(active->0) && valid.contains(active->0)) {
        match first_index(ids, member_of(valid)) {
            Some(i) => {
                assert(member_of(valid)(ids[i]));
            },
            None => {},
        }
    }
}

} // verus!
