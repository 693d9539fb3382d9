//! Moving through and choosing from the new-tab selector with the keyboard,
//! and the drag of a tab group between windows.
use vstd::prelude::*;

use crate::shell::{SelectorEntry, TinyShell};
use crate::tab_drag::DockZone;
use crate::terminal_workspace::group_index;
use crate::text::str_eq;
use crate::tool_panel::{ascii_lowercase, ascii_lowercase_string};

verus! {

/// What a key does in the new-tab selector.
#[derive(Clone, Copy, Debug, PartialEq, Eq, Structural)]
pub enum SelectorKey {
    Previous,
    Next,
    Activate,
}

/// The action of the key named `key` (lowercase).
pub open spec fn selector_key_of(key: Seq<char>) -> Option<SelectorKey> {
    if key == "up"@ || key == "arrowup"@ {
        Some(SelectorKey::Previous)
    } else if key == "down"@ || key == "arrowdown"@ {
        Some(SelectorKey::Next)
    } else if key == "enter"@ || key == "return"@ {
        Some(SelectorKey::Activate)
    } else {
        None
    }
}

/// The action of key `key` in the selector, its name read without regard
/// to ASCII case.
pub fn selector_key(key: &str) -> (r: Option<SelectorKey>)
    ensures
        r == selector_key_of(ascii_lowercase(key@)),
{
    let lower = ascii_lowercase_string(key);
    let k = lower.as_str();
    if str_eq(k, "up") || str_eq(k, "arrowup") {
        Some(SelectorKey::Previous)
    } else if str_eq(k, "down") || str_eq(k, "arrowdown") {
        Some(SelectorKey::Next)
    } else if str_eq(k, "enter") || str_eq(k, "return") {
        Some(SelectorKey::Activate)
    } else {
        None
    }
}

/// The selection after moving `delta` entries from `selection` among
/// `count` entries, staying within them (a selection past the end counts as
/// the last entry); `None` when it stays where it is or there is no entry.
pub open spec fn stepped_selection(selection: int, delta: int, count: int) -> Option<int> {
    if count <= 0 {
        None
    } else {
        let current = if selection < count - 1 {
            selection
        } else {
            count - 1
        };
        let target = current + delta;
        let next = if target < 0 {
            0
        } else if target > count - 1 {
            count - 1
        } else {
            target
        };
        if next != selection {
            Some(next)
        } else {
            None
        }
    }
}

/// Moves a selection by `delta` among `count` entries, as
/// `stepped_selection` says.
pub fn step_selection(selection: usize, delta: i32, count: usize) -> (r: Option<usize>)
    ensures
        match stepped_selection(selection as int, delta as int, count as int) {
            Some(n) => r == Some(n as usize),
            None => r is None,
        },
{
    if count == 0 {
        return None;
    }
    let last = count - 1;
    let current = if selection < last {
        selection
    } else {
        last
    };
    let target: i128 = current as i128 + delta as i128;
    let next: usize = if target < 0 {
        0
    } else if target > last as i128 {
        last
    } else {
        target as usize
    };
    if next != selection {
        Some(next)
    } else {
        None
    }
}

impl TinyShell {
    /// The selector entry to select after moving `delta` entries from
    /// `selection`; `None` when the selection stays.
    pub fn move_selector_selection(&self, selection: usize, delta: i32) -> (r: Option<usize>)
        ensures
            match stepped_selection(
                selection as int,
                delta as int,
                self.session_ids@.len() + 2int,
            ) {
                Some(n) => r == Some(n as usize),
                None => r is None,
            },
    {
        let entries = self.selector_entries();
        step_selection(selection, delta, entries.len())
    }

    /// The selector entry at `selection`, if there is one.
    pub fn selected_selector_entry(&self, selection: usize) -> (r: Option<SelectorEntry>)
        ensures
            selection == 0 ==> r matches Some(SelectorEntry::Local),
            selection == 1 ==> r matches Some(SelectorEntry::NewSsh),
            2 <= selection < self.session_ids@.len() + 2 ==> r == Some(
                SelectorEntry::Saved(self.session_ids@[selection - 2]),
            ),
            selection >= self.session_ids@.len() + 2 ==> r is None,
    {
        let mut entries = self.selector_entries();
        if selection < entries.len() {
            let ghost e = entries@;
            let entry = entries.remove(selection);
            assert(entry == e[selection as int]);
            proof {
                if selection >= 2 {
                    assert(e[(selection - 2) + 2] == SelectorEntry::Saved(
                        self.session_ids@[selection - 2],
                    ));
                }
            }
            Some(entry)
        } else {
            None
        }
    }

    /// The group being dragged out of this window, with its drag id, for a
    /// drag onto another window.
    pub fn native_tab_drag_payload(&self) -> (r: Option<(String, u64)>)
        ensures
            match self.tab_drag@.dragging_group {
                Some(g) => match group_index(self.workspace@.tab_groups, g@) {
                    Some(i) => r matches Some((id, drag_id)) && id@ == g@ && drag_id
                        == self.workspace@.tab_groups[i].drag_id,
                    None => r is None,
                },
                None => r is None,
            },
    {
        let group_id = match self.tab_drag.dragging_group() {
            Some(g) => g,
            None => {
                return None;
            },
        };
        match self.workspace.tab_group_position(group_id) {
            Some(i) => {
                proof {
                    crate::seq_util::lemma_first_index_sound(
                        self.workspace@.tab_groups,
                        crate::terminal_workspace::has_id(group_id@),
                    );
                }
                Some((crate::text::string_of(group_id), self.workspace.tab_groups()[i].drag_id))
            },
            None => None,
        }
    }
}

/// The drag of a tab group from another window that hovers this one: its
/// drag id and the zone it would drop into.
#[derive(Debug)]
pub struct IncomingTabHover {
    pub drag_id: Option<u64>,
    pub zone: Option<DockZone>,
}

impl IncomingTabHover {
    /// No drag hovers.
    pub fn new() -> (r: Self)
        ensures
            r.drag_id is None,
            r.zone is None,
    {
        IncomingTabHover { drag_id: None, zone: None }
    }

    /// Records that drag `drag_id` hovers, dropping into `zone`; returns
    /// whether that changed anything.
    pub fn set(&mut self, drag_id: u64, zone: DockZone) -> (changed: bool)
        ensures
            changed == !(old(self).drag_id == Some(drag_id) && old(self).zone == Some(zone)),
            final(self).drag_id == Some(drag_id),
            final(self).zone == Some(zone),
    {
        let same_drag = match self.drag_id {
            Some(d) => d == drag_id,
            None => false,
        };
        let same_zone = match self.zone {
            Some(z) => z == zone,
            None => false,
        };
        if same_drag && same_zone {
            return false;
        }
        self.drag_id = Some(drag_id);
        self.zone = Some(zone);
        true
    }

    /// Forgets drag `drag_id` when it is the one hovering; returns whether it
    /// was.
    pub fn clear(&mut self, drag_id: u64) -> (cleared: bool)
        ensures
            cleared == (old(self).drag_id == Some(drag_id)),
            cleared ==> final(self).drag_id is None && final(self).zone is None,
            !cleared ==> final(self).drag_id == old(self).drag_id && final(self).zone == old(
                self,
            ).zone,
    {
        let matches_drag = match self.drag_id {
            Some(d) => d == drag_id,
            None => false,
        };
        if !matches_drag {
            return false;
        }
        self.drag_id = None;
        self.zone = None;
        true
    }
}

} // verus!
