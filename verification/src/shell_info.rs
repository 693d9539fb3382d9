//! Opening and closing the system-information tab of an SSH terminal.
use vstd::prelude::*;

use crate::ids::random_uuid;
use crate::seq_util::{
    first_index, lemma_first_index_found, lemma_first_index_none, lemma_first_index_sound,
};
use crate::shell::{opt_view, TinyShell};
use crate::terminal_workspace::{
    info_index, tab_index, SystemInfoTab, TabKind, TerminalTab, WorkspaceModel,
};
use crate::text::{str_eq, string_of};

verus! {

/// SSH tabs with id `id`.
pub open spec fn ssh_tab_with_id(id: Seq<char>) -> spec_fn(TerminalTab) -> bool {
    |t: TerminalTab| t.id@ == id && t.kind == TabKind::Ssh
}

/// System-information tabs that follow tab `source`.
pub open spec fn follows(source: Seq<char>) -> spec_fn(SystemInfoTab) -> bool {
    |t: SystemInfoTab| t.source_tab_id@ == source
}

/// The tab whose system information opens: the monitored tab, else the
/// active tab when it is an SSH tab.
pub open spec fn info_source(a: TinyShell) -> Option<Seq<char>> {
    match a.system_tab_id {
        Some(s) => Some(s@),
        None => match a.workspace@.active_tab {
            Some(t) => match first_index(a.workspace@.tabs, ssh_tab_with_id(t@)) {
                Some(k) => Some(a.workspace@.tabs[k].id@),
                None => None,
            },
            None => None,
        },
    }
}

/// The title of a new system-information tab for tab `source`: the tab's
/// title (or `label` when there is no such tab), a middle dot, and `label`.
pub open spec fn info_title(tabs: Seq<TerminalTab>, source: Seq<char>, label: Seq<char>) -> Seq<char> {
    let host = match tab_index(tabs, source) {
        Some(k) => tabs[k].title@,
        None => label,
    };
    host + " \u{b7} "@ + label
}

/// Window `b` is window `a` after asking to open the system-information
/// tab; `opened` tells whether there was a tab to open it for. Then the
/// existing system-information tab of that tab is reused, or a new one with
/// a fresh 36-character id and the title `info_title` gives is appended; the
/// source tab becomes the active and monitored tab, the information tab the
/// active one, and the home page closes.
pub open spec fn info_tab_opened(a: TinyShell, b: TinyShell, label: Seq<char>, opened: bool) -> bool {
    let m = a.workspace@;
    match info_source(a) {
        None => !opened && b == a,
        Some(src) => {
            &&& opened
            &&& b == TinyShell {
                workspace: b.workspace,
                system_tab_id: b.system_tab_id,
                home_page_open: false,
                ..a
            }
            &&& opt_view(b.system_tab_id) == Some(src)
            &&& opt_view(b.workspace@.active_tab) == Some(src)
            &&& b.workspace@ == (WorkspaceModel {
                system_info_tabs: b.workspace@.system_info_tabs,
                active_tab: b.workspace@.active_tab,
                active_system_info_tab: b.workspace@.active_system_info_tab,
                ..m
            })
            &&& match first_index(m.system_info_tabs, follows(src)) {
                Some(k) => {
                    &&& b.workspace@.system_info_tabs == m.system_info_tabs
                    &&& opt_view(b.workspace@.active_system_info_tab) == Some(
                        m.system_info_tabs[k].id@,
                    )
                },
                None => {
                    let infos = b.workspace@.system_info_tabs;
                    &&& infos.len() == m.system_info_tabs.len() + 1
                    &&& infos.drop_last() == m.system_info_tabs
                    &&& infos.last().source_tab_id@ == src
                    &&& infos.last().title@ == info_title(m.tabs, src, label)
                    &&& infos.last().id@.len() == 36
                    &&& opt_view(b.workspace@.active_system_info_tab) == Some(infos.last().id@)
                },
            }
        },
    }
}

/// The first tab satisfying `ssh_tab_with_id(id)`.
fn find_ssh_tab(tabs: &[TerminalTab], id: &str) -> (r: Option<usize>)
    ensures
        r matches Some(i) ==> first_index(tabs@, ssh_tab_with_id(id@)) == Some(i as int),
        r is None ==> first_index(tabs@, ssh_tab_with_id(id@)) is None,
{
    let ghost p = ssh_tab_with_id(id@);
    let mut i: usize = 0;
    while i < tabs.len()
        invariant
            i <= tabs@.len(),
            p == ssh_tab_with_id(id@),
            forall|j: int| 0 <= j < i ==> !p(#[trigger] tabs@[j]),
        decreases tabs@.len() - i,
    {
        if str_eq(tabs[i].id.as_str(), id) && tabs[i].kind == TabKind::Ssh {
            proof {
                lemma_first_index_found(tabs@, p, i as int);
            }
            return Some(i);
        }
        i = i + 1;
    }
    proof {
        lemma_first_index_none(tabs@, p);
    }
    None
}

/// The first system-information tab that follows tab `source`.
fn find_follower(tabs: &[SystemInfoTab], source: &str) -> (r: Option<usize>)
    ensures
        r matches Some(i) ==> first_index(tabs@, follows(source@)) == Some(i as int),
        r is None ==> first_index(tabs@, follows(source@)) is None,
{
    let ghost p = follows(source@);
    let mut i: usize = 0;
    while i < tabs.len()
        invariant
            i <= tabs@.len(),
            p == follows(source@),
            forall|j: int| 0 <= j < i ==> !p(#[trigger] tabs@[j]),
        decreases tabs@.len() - i,
    {
        if str_eq(tabs[i].source_tab_id.as_str(), source) {
            proof {
                lemma_first_index_found(tabs@, p, i as int);
            }
            return Some(i);
        }
        i = i + 1;
    }
    proof {
        lemma_first_index_none(tabs@, p);
    }
    None
}

impl TinyShell {
    /// The tab whose system information opens, as `info_source` says.
    fn system_info_source(&self) -> (r: Option<String>)
        ensures
            opt_view(r) == info_source(*self),
    {
        match &self.system_tab_id {
            Some(s) => Some(s.clone()),
            None => match self.workspace.active_tab_id() {
                Some(active) => match find_ssh_tab(self.workspace.tabs(), active) {
                    Some(k) => {
                        proof {
                            lemma_first_index_sound(self.workspace@.tabs, ssh_tab_with_id(active@));
                        }
                        Some(self.workspace.tabs()[k].id.clone())
                    },
                    None => None,
                },
                None => None,
            },
        }
    }

    /// Opens the system-information tab of the monitored tab, or of the
    /// active tab when it is an SSH tab: the existing one is reused, else one
    /// is added with a fresh id, titled after the tab and `label` (the
    /// localized "system information"). The source tab becomes the active
    /// and monitored tab and the home page closes. Returns whether there was
    /// a tab to open it for (its system information is then to be fetched).
    pub fn open_system_info_tab(&mut self, label: &str) -> (opened: bool)
        ensures
            info_tab_opened(*old(self), *final(self), label@, opened),
    {
        let ghost m = self.workspace@;
        let source = match self.system_info_source() {
            Some(s) => s,
            None => {
                return false;
            },
        };
        let info_id = match find_follower(self.workspace.system_info_tabs(), source.as_str()) {
            Some(k) => {
                proof {
                    lemma_first_index_sound(m.system_info_tabs, follows(source@));
                }
                self.workspace.system_info_tabs()[k].id.clone()
            },
            None => {
                let mut title = match self.workspace.terminal_tab(source.as_str()) {
                    Some(tab) => tab.title.clone(),
                    None => string_of(label),
                };
                title.append(" \u{b7} ");
                title.append(label);
                let id = random_uuid();
                self.workspace.push_system_info_tab(
                    SystemInfoTab { id: id.clone(), source_tab_id: source.clone(), title },
                );
                proof {
                    reveal_strlit(" \u{b7} ");
                }
                assert(self.workspace@.system_info_tabs.drop_last() =~= m.system_info_tabs);
                id
            },
        };
        self.workspace.set_active_tab(Some(source.clone()));
        self.system_tab_id = Some(source);
        self.workspace.set_active_system_info_tab(Some(info_id));
        self.home_page_open = false;
        true
    }

    /// Closes system-information tab `id`; when it was the active one, no
    /// system-information tab stays active.
    pub fn close_system_info_tab(&mut self, id: &str)
        ensures
            ({
                let m = old(self).workspace@;
                let was_active = opt_view(m.active_system_info_tab) == Some(id@);
                let removed = match info_index(m.system_info_tabs, id@) {
                    Some(i) => m.system_info_tabs.remove(i),
                    None => m.system_info_tabs,
                };
                &&& *final(self) == (TinyShell { workspace: final(self).workspace, ..*old(self) })
                &&& final(self).workspace@ == (WorkspaceModel {
                    system_info_tabs: removed,
                    active_system_info_tab: if was_active {
                        None
                    } else {
                        m.active_system_info_tab
                    },
                    ..m
                })
            }),
    {
        let was_active = match self.workspace.active_system_info_tab_id() {
            Some(a) => str_eq(a, id),
            None => false,
        };
        self.workspace.remove_system_info_tab(id);
        if was_active {
            self.workspace.clear_active_system_info_tab();
        }
    }
}

} // verus!
