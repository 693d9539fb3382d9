//! Moving a tab group from one window into another: as a group of its own,
//! or docked beside the panes of the other window's active group.
use vstd::prelude::*;

use crate::pane_layout::{layout_ids, strs_contain, strs_view, PaneLayout};
use crate::shell::{opt_view, TinyShell};
use crate::shell_receive::{docked_with, group_received, group_restored};
use crate::shell_transfer::{transfer_taken, window_target};
use crate::tab_drag::DockZone;
use crate::tab_transfer::{
    batch_error, docked_ids, first_target_error, merge_pane_layout, transfer_tab_ids,
    transfer_view, GroupTransfer,
};
use crate::terminal_workspace::TerminalTab;
use crate::text::{str_eq, string_of};

verus! {

/// How a window takes in a group dropped on it.
#[derive(Debug)]
pub enum DockedReceipt {
    /// As a group of its own.
    WholeGroup,
    /// Docked beside the panes of its active group, giving this layout.
    Docked(PaneLayout),
}

pub open spec fn payload_mismatch_msg() -> Seq<char> {
    "transfer payload does not match the group layout"@
}

pub open spec fn terminal_clash_msg() -> Seq<char> {
    "target already contains one of the transferred terminals"@
}

pub open spec fn sftp_clash_msg() -> Seq<char> {
    "target already contains one of the transferred SFTP handles"@
}

/// A drop at `zone` docks into window `target`: the zone splits and the
/// window has an active group.
pub open spec fn docks(target: TinyShell, zone: DockZone) -> bool {
    zone != DockZone::Center && target.workspace@.active_group is Some
}

/// Why window `target` refuses to dock transfer `t`: its terminals repeat
/// an id or miss a pane of its layout, or the window already has one of its
/// terminals or SFTP handles.
pub open spec fn docking_refusal(target: TinyShell, t: GroupTransfer) -> Option<Seq<char>> {
    let ids = transfer_tab_ids(t.tabs@);
    let layout = layout_ids(t.group.pane_root);
    if !ids.no_duplicates() || exists|k: int| 0 <= k < layout.len() && !ids.contains(#[trigger] layout[k]) {
        Some(payload_mismatch_msg())
    } else if exists|k: int|
        0 <= k < target.workspace@.tabs.len() && ids.contains(
            (#[trigger] target.workspace@.tabs[k]).id@,
        ) {
        Some(terminal_clash_msg())
    } else if exists|k: int|
        0 <= k < t.sftp_handle_ids@.len() && strs_view(target.sftp_handle_ids@).contains(
            (#[trigger] t.sftp_handle_ids@[k])@,
        ) {
        Some(sftp_clash_msg())
    } else {
        None
    }
}

/// Why window `target` refuses transfer `t` as a group of its own, as
/// `plan_group_receipt` checks a batch of one.
pub open spec fn whole_group_refusal(target: TinyShell, t: GroupTransfer) -> Option<Seq<char>> {
    let ms = seq![transfer_view(t)];
    match batch_error(ms) {
        Some(e) => Some(e),
        None => first_target_error(ms, window_target(target.workspace@, target.sftp_handle_ids@), true),
    }
}

/// Why window `target` refuses transfer `t` dropped at `zone`.
pub open spec fn move_refusal(target: TinyShell, t: GroupTransfer, zone: DockZone) -> Option<Seq<char>> {
    if docks(target, zone) {
        docking_refusal(target, t)
    } else {
        whole_group_refusal(target, t)
    }
}

/// A move of a group, taken out of its window and accepted by the other
/// one: the transfer, the layout it docks into (none for a whole group), and
/// whether the source's search followed one of its tabs.
#[derive(Debug)]
pub struct PreparedMove {
    pub transfer: GroupTransfer,
    pub docking: Option<PaneLayout>,
    pub moved_search_target: bool,
}

/// The search of window `a` follows one of the tabs of transfer `t`.
pub open spec fn search_moves(a: TinyShell, t: GroupTransfer) -> bool {
    match a.search_target_tab {
        Some(s) => transfer_tab_ids(t.tabs@).contains(s@),
        None => false,
    }
}

/// Source window `b` is source window `a` after preparing the move of group
/// `group_id` to window `target` at `zone`, `r` what was prepared. The group
/// is taken out as `transfer_taken` says; when that is refused, that is the
/// error; when the target refuses the transfer, the group is put back
/// (`group_restored`) and the refusal is the error; otherwise the transfer is
/// ready, docking when `docks` says so into the layout `docked_ids`
/// describes.
pub open spec fn move_prepared(
    a: TinyShell,
    b: TinyShell,
    target: TinyShell,
    group_id: Seq<char>,
    zone: DockZone,
    r: Result<PreparedMove, String>,
) -> bool {
    exists|taken: TinyShell, took: Result<GroupTransfer, String>|
        #![trigger transfer_taken(a, taken, group_id, took)]
        transfer_taken(a, taken, group_id, took) && match took {
            Err(e) => r == Err::<PreparedMove, String>(e) && b == taken,
            Ok(t) => match move_refusal(target, t, zone) {
                Some(e) => r matches Err(x) && x@ == e && group_restored(taken, b, t),
                None => r matches Ok(p) && {
                    &&& p.transfer == t
                    &&& b == taken
                    &&& p.moved_search_target == search_moves(taken, t)
                    &&& if docks(target, zone) {
                        p.docking matches Some(m) && layout_ids(m) == docked_ids(
                            layout_ids(t.group.pane_root),
                            layout_ids(target.workspace@.current_pane_root()),
                            zone,
                        )
                    } else {
                        p.docking is None
                    }
                },
            },
        }
}

/// Window `b` is window `a` with its search cleared.
pub open spec fn search_cleared(a: TinyShell, b: TinyShell) -> bool {
    &&& b == TinyShell {
        search_target_tab: None,
        search_matches: b.search_matches,
        search_query: b.search_query,
        search_current: 0,
        ..a
    }
    &&& b.search_matches@.len() == 0
    &&& b.search_query@.len() == 0
}

/// Whether some transferred tab has id `id`.
fn transfer_has_tab(tabs: &Vec<(usize, TerminalTab)>, id: &str) -> (r: bool)
    ensures
        r == transfer_tab_ids(tabs@).contains(id@),
{
    let mut i: usize = 0;
    while i < tabs.len()
        invariant
            i <= tabs@.len(),
            forall|j: int| 0 <= j < i ==> tabs@[j].1.id@ != id@,
        decreases tabs@.len() - i,
    {
        if str_eq(tabs[i].1.id.as_str(), id) {
            assert(transfer_tab_ids(tabs@)[i as int] == id@);
            return true;
        }
        i = i + 1;
    }
    assert(!transfer_tab_ids(tabs@).contains(id@)) by {
        if transfer_tab_ids(tabs@).contains(id@) {
            let j = choose|j: int|
                0 <= j < transfer_tab_ids(tabs@).len() && transfer_tab_ids(tabs@)[j] == id@;
            assert(tabs@[j].1.id@ == id@);
        }
    }
    false
}

impl TinyShell {
    /// Why this window refuses to dock `transfer`, as `docking_refusal` says.
    fn docking_check(&self, transfer: &GroupTransfer) -> (r: Option<&'static str>)
        ensures
            match docking_refusal(*self, *transfer) {
                Some(e) => r matches Some(x) && x@ == e,
                None => r is None,
            },
    {
        let ids = transfer.tab_ids();
        let ghost v = strs_view(ids@);
        // Each transferred terminal appears once.
        let mut i: usize = 0;
        while i < ids.len()
            invariant
                i <= ids@.len(),
                v == strs_view(ids@),
                v == transfer_tab_ids(transfer.tabs@),
                forall|p: int, q: int| 0 <= p < q < i ==> v[p] != v[q],
            decreases ids@.len() - i,
        {
            let mut j: usize = 0;
            while j < i
                invariant
                    j <= i < ids@.len(),
                    v == strs_view(ids@),
                    v == transfer_tab_ids(transfer.tabs@),
                    forall|q: int| 0 <= q < j ==> v[q] != v[i as int],
                decreases i - j,
            {
                if str_eq(ids[j].as_str(), ids[i].as_str()) {
                    assert(!v.no_duplicates()) by {
                        assert(v[j as int] == v[i as int]);
                    }
                    return Some("transfer payload does not match the group layout");
                }
                j = j + 1;
            }
            i = i + 1;
        }
        assert(v.no_duplicates());
        // Each pane of the layout is a transferred terminal.
        let panes = transfer.group.pane_root.tab_ids();
        let ghost lv = strs_view(panes@);
        let mut k: usize = 0;
        while k < panes.len()
            invariant
                k <= panes@.len(),
                lv == strs_view(panes@),
                lv == layout_ids(transfer.group.pane_root),
                v == strs_view(ids@),
                v == transfer_tab_ids(transfer.tabs@),
                v.no_duplicates(),
                forall|p: int| 0 <= p < k ==> v.contains(#[trigger] lv[p]),
            decreases panes@.len() - k,
        {
            if !strs_contain(&ids, panes[k].as_str()) {
                assert(!v.contains(lv[k as int]));
                return Some("transfer payload does not match the group layout");
            }
            k = k + 1;
        }
        assert(forall|p: int| 0 <= p < lv.len() ==> v.contains(#[trigger] lv[p]));
        // No terminal of this window is among them.
        let tabs = self.workspace.tabs();
        let mut t: usize = 0;
        while t < tabs.len()
            invariant
                t <= tabs@.len(),
                tabs@ == self.workspace@.tabs,
                v == strs_view(ids@),
                v == transfer_tab_ids(transfer.tabs@),
                v.no_duplicates(),
                lv == layout_ids(transfer.group.pane_root),
                forall|p: int| 0 <= p < lv.len() ==> v.contains(#[trigger] lv[p]),
                forall|p: int| 0 <= p < t ==> !v.contains((#[trigger] tabs@[p]).id@),
            decreases tabs@.len() - t,
        {
            if strs_contain(&ids, tabs[t].id.as_str()) {
                assert(v.contains(self.workspace@.tabs[t as int].id@));
                return Some("target already contains one of the transferred terminals");
            }
            t = t + 1;
        }
        // No SFTP handle of this window is among theirs.
        let mut h: usize = 0;
        while h < transfer.sftp_handle_ids.len()
            invariant
                h <= transfer.sftp_handle_ids@.len(),
                v == transfer_tab_ids(transfer.tabs@),
                v.no_duplicates(),
                lv == layout_ids(transfer.group.pane_root),
                forall|p: int| 0 <= p < lv.len() ==> v.contains(#[trigger] lv[p]),
                forall|p: int|
                    0 <= p < self.workspace@.tabs.len() ==> !v.contains(
                        (#[trigger] self.workspace@.tabs[p]).id@,
                    ),
                forall|p: int|
                    0 <= p < h ==> !strs_view(self.sftp_handle_ids@).contains(
                        (#[trigger] transfer.sftp_handle_ids@[p])@,
                    ),
            decreases transfer.sftp_handle_ids@.len() - h,
        {
            if strs_contain(&self.sftp_handle_ids, transfer.sftp_handle_ids[h].as_str()) {
                assert(strs_view(self.sftp_handle_ids@).contains(transfer.sftp_handle_ids@[h as int]@));
                return Some("target already contains one of the transferred SFTP handles");
            }
            h = h + 1;
        }
        None
    }

    /// How this window takes in `transfer` dropped at `zone`: as a group of
    /// its own unless the zone splits and a group is active; then docked
    /// beside the active group's panes, unless `docking_refusal` names a
    /// reason.
    pub fn plan_docked_receipt(&self, transfer: &GroupTransfer, zone: DockZone) -> (r: Result<
        DockedReceipt,
        &'static str,
    >)
        ensures
            !docks(*self, zone) ==> r matches Ok(DockedReceipt::WholeGroup),
            docks(*self, zone) ==> match docking_refusal(*self, *transfer) {
                Some(e) => r matches Err(x) && x@ == e,
                None => r matches Ok(DockedReceipt::Docked(m)) && layout_ids(m) == docked_ids(
                    layout_ids(transfer.group.pane_root),
                    layout_ids(self.workspace@.current_pane_root()),
                    zone,
                ),
            },
    {
        if !zone.is_split() || self.workspace.active_group_id().is_none() {
            return Ok(DockedReceipt::WholeGroup);
        }
        match self.docking_check(transfer) {
            Some(e) => {
                return Err(e);
            },
            None => {},
        }
        match merge_pane_layout(
            transfer.group.pane_root.duplicate(),
            self.workspace.pane_root().duplicate(),
            zone,
        ) {
            Some(m) => Ok(DockedReceipt::Docked(m)),
            None => Ok(DockedReceipt::WholeGroup),
        }
    }

    /// Docks `transfer` beside the active group's panes with layout
    /// `merged`, as `docked_with` says, its own active tab becoming active.
    pub fn commit_docked_group(&mut self, transfer: GroupTransfer, merged: PaneLayout)
        ensures
            docked_with(*old(self), *final(self), transfer, merged, opt_view(transfer.active_tab)),
    {
        let active = crate::terminal_workspace::clone_opt(&transfer.active_tab);
        self.dock_transfer(transfer, merged, active);
    }
}

/// Prepares moving group `group_id` out of window `source` into window
/// `target` at `zone`, as `move_prepared` says: the group is taken out of the
/// source and checked against the target; a refused group goes back.
pub fn prepare_group_move(source: &mut TinyShell, target: &TinyShell, group_id: &str, zone: DockZone) -> (r:
    Result<PreparedMove, String>)
    ensures
        move_prepared(*old(source), *final(source), *target, group_id@, zone, r),
{
    let ghost a = *source;
    let took = source.take_group_transfer(group_id);
    let ghost taken = *source;
    let ghost tk = took;
    assert(transfer_taken(a, taken, group_id@, tk));
    let transfer = match took {
        Ok(t) => t,
        Err(e) => {
            return Err(e);
        },
    };
    let ghost t = transfer;
    let moved_search_target = match &source.search_target_tab {
        Some(s) => transfer_has_tab(&transfer.tabs, s.as_str()),
        None => false,
    };
    if zone.is_split() {
        match target.plan_docked_receipt(&transfer, zone) {
            Ok(DockedReceipt::Docked(m)) => {
                return Ok(PreparedMove { transfer, docking: Some(m), moved_search_target });
            },
            Ok(DockedReceipt::WholeGroup) => {},
            Err(e) => {
                source.restore_group_transfer(transfer);
                return Err(string_of(e));
            },
        }
    }
    let mut batch: Vec<GroupTransfer> = Vec::new();
    batch.push(transfer);
    assert(batch@.map_values(|x: GroupTransfer| transfer_view(x)) =~= seq![transfer_view(t)]);
    let plan = target.plan_group_receipt(batch.as_slice(), DockZone::Center);
    let transfer = batch.remove(0);
    match plan {
        Ok(_) => Ok(PreparedMove { transfer, docking: None, moved_search_target }),
        Err(e) => {
            source.restore_group_transfer(transfer);
            Err(string_of(e))
        },
    }
}

/// Completes a prepared move: the target takes the group in (docked with
/// the group's own active tab, or as a group of its own), and the source's
/// search stops when it followed one of the moved tabs.
pub fn finish_group_move(source: &mut TinyShell, target: &mut TinyShell, prepared: PreparedMove)
    requires
        prepared.docking is None ==> prepared.transfer.group.ordinal < u64::MAX,
    ensures
        match prepared.docking {
            Some(m) => docked_with(
                *old(target),
                *final(target),
                prepared.transfer,
                m,
                opt_view(prepared.transfer.active_tab),
            ),
            None => group_received(*old(target), *final(target), prepared.transfer),
        },
        if prepared.moved_search_target {
            search_cleared(*old(source), *final(source))
        } else {
            *final(source) == *old(source)
        },
{
    let PreparedMove { transfer, docking, moved_search_target } = prepared;
    match docking {
        Some(m) => target.commit_docked_group(transfer, m),
        None => target.commit_received_group(transfer),
    }
    if moved_search_target {
        source.search_target_tab = None;
        source.search_matches = Vec::new();
        source.search_query = String::new();
        source.search_current = 0;
    }
}

/// Gives up a prepared move (its backend routes could not be handed over):
/// the group goes back into the source window.
pub fn abandon_group_move(source: &mut TinyShell, prepared: PreparedMove)
    ensures
        group_restored(*old(source), *final(source), prepared.transfer),
{
    source.restore_group_transfer(prepared.transfer);
}

} // verus!
