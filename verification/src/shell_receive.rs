//! Receiving tab groups moved from another window, and putting a group back
//! where it was when a move fails.
use vstd::prelude::*;

use crate::pane_layout::tree_of;

use crate::pane_layout::{is_id, layout_ids, strs_contain, strs_view, PaneLayout};
use crate::seq_util::{first_index, lemma_filter_take_step, lemma_first_index_found, lemma_first_index_none};
use crate::shell::{focus_outcome, opt_view, TinyShell};
use crate::shell_groups::system_tab_synced;
use crate::shell_transfer::ReceiptPlan;
use crate::tab_transfer::{transfer_tab_ids, GroupTransfer};
use crate::terminal_workspace::{
    chosen_active_tab, info_index, restore_system_info_transfer, SystemInfoTab, TabGroup,
    TerminalTab, WorkspaceModel,
};

verus! {

/// Where tab `id` stands in `order`: its first position, or past the end
/// when it is missing.
pub open spec fn order_key(order: Seq<Seq<char>>, id: Seq<char>) -> int {
    match first_index(order, is_id(id)) {
        Some(i) => i,
        None => order.len() as int,
    }
}

/// Transferred tabs whose key in `order` is `k`.
pub open spec fn keyed(order: Seq<Seq<char>>, k: int) -> spec_fn((usize, TerminalTab)) -> bool {
    |p: (usize, TerminalTab)| order_key(order, p.1.id@) == k
}

/// The tabs of `tabs` whose key in `order` is below `k`, by key, and in
/// their own order among equal keys.
pub open spec fn keyed_below(
    tabs: Seq<(usize, TerminalTab)>,
    order: Seq<Seq<char>>,
    k: nat,
) -> Seq<(usize, TerminalTab)>
    decreases k,
{
    if k == 0 {
        seq![]
    } else {
        keyed_below(tabs, order, (k - 1) as nat) + tabs.filter(keyed(order, k - 1))
    }
}

/// `tabs` stably sorted by where their ids stand in `order`; tabs missing
/// from `order` come last.
pub open spec fn in_pane_order(tabs: Seq<(usize, TerminalTab)>, order: Seq<Seq<char>>) -> Seq<
    (usize, TerminalTab),
> {
    keyed_below(tabs, order, order.len() + 1)
}

/// The terminal tabs of transferred `(position, tab)` pairs.
pub open spec fn tab_values(tabs: Seq<(usize, TerminalTab)>) -> Seq<TerminalTab> {
    tabs.map_values(|p: (usize, TerminalTab)| p.1)
}

/// The SFTP handle ids after `incoming` join `ids`: each id not yet there is
/// added at the end, once, in order.
pub open spec fn handles_joined(ids: Seq<Seq<char>>, incoming: Seq<Seq<char>>) -> Seq<Seq<char>>
    decreases incoming.len(),
{
    if incoming.len() == 0 {
        ids
    } else {
        let before = handles_joined(ids, incoming.drop_last());
        if before.contains(incoming.last()) {
            before
        } else {
            before.push(incoming.last())
        }
    }
}

/// The active system-information tab after restoring: `active` when a tab
/// of `tabs` has that id.
pub open spec fn restored_info(tabs: Seq<SystemInfoTab>, active: Option<String>) -> Option<String> {
    match active {
        Some(a) => if info_index(tabs, a@) is Some {
            Some(a)
        } else {
            None
        },
        None => None,
    }
}

/// The group ordinal counter once a group with ordinal `o` arrived: past `o`.
pub open spec fn ordinal_past(next: u64, o: u64) -> u64 {
    if next > o + 1 {
        next
    } else {
        (o + 1) as u64
    }
}

/// Window `b` is window `a` once group `g` arrived: appended to the groups,
/// made active and shown with its own layout, the ordinal counter moved past
/// its ordinal, no system-information tab active, no pane focused, and the
/// home page closed.
pub open spec fn group_created(a: TinyShell, b: TinyShell, g: TabGroup) -> bool {
    let m = a.workspace@;
    let pushed = WorkspaceModel {
        next_tab_group_ordinal: ordinal_past(m.next_tab_group_ordinal, g.ordinal),
        tab_groups: m.tab_groups.push(g),
        active_system_info_tab: None,
        active_group: Some(g.id),
        ..m
    };
    &&& b == TinyShell { workspace: b.workspace, home_page_open: false, ..a }
    &&& exists|root: PaneLayout|
        #![trigger layout_ids(root)]
        tree_of(root) == tree_of(g.pane_root) && layout_ids(root) == layout_ids(g.pane_root)
            && b.workspace@ == (WorkspaceModel {
            focused_pane_path: seq![],
            ..pushed.with_current_pane_root(root)
        })
}

/// Window `b` is window `a` with transferred tabs added: `tabs` appended to
/// the terminal tabs, `handles` joined to the SFTP handles, `infos` appended
/// to the system-information tabs (the one named `active_info` active if it
/// is among them), and `active` made the active tab.
pub open spec fn tabs_landed(
    a: TinyShell,
    b: TinyShell,
    tabs: Seq<(usize, TerminalTab)>,
    handles: Seq<Seq<char>>,
    active: Option<String>,
    infos: Seq<SystemInfoTab>,
    active_info: Option<String>,
) -> bool {
    let m = a.workspace@;
    let all_infos = m.system_info_tabs + infos;
    &&& b == TinyShell { workspace: b.workspace, sftp_handle_ids: b.sftp_handle_ids, ..a }
    &&& strs_view(b.sftp_handle_ids@) == handles_joined(strs_view(a.sftp_handle_ids@), handles)
    &&& b.workspace@ == (WorkspaceModel {
        tabs: m.tabs + tab_values(tabs),
        system_info_tabs: all_infos,
        active_system_info_tab: restored_info(all_infos, active_info),
        active_tab: active,
        ..m
    })
}

/// Window `b` is window `a` once transferred tabs were adopted: they land
/// as `tabs_landed` says, the active tab (if any) is focused, and the
/// monitored tab follows the active group.
pub open spec fn tabs_adopted(
    a: TinyShell,
    b: TinyShell,
    tabs: Seq<(usize, TerminalTab)>,
    handles: Seq<Seq<char>>,
    active: Option<String>,
    infos: Seq<SystemInfoTab>,
    active_info: Option<String>,
) -> bool {
    exists|landed: TinyShell, focused: TinyShell|
        #![trigger tabs_landed(a, landed, tabs, handles, active, infos, active_info), system_tab_synced(focused, b)]
        tabs_landed(a, landed, tabs, handles, active, infos, active_info) && (match active {
            Some(id) => focus_outcome(landed, focused, id@),
            None => focused == landed,
        }) && system_tab_synced(focused, b)
}

/// Window `b` is window `a` once transfer `t` arrived as a group of its
/// own: the group is created, then its tabs, in the order of its layout,
/// are adopted with the tab chosen by `chosen_active_tab` active.
pub open spec fn group_received(a: TinyShell, b: TinyShell, t: GroupTransfer) -> bool {
    let order = layout_ids(t.group.pane_root);
    let chosen = chosen_active_tab(opt_view(t.active_tab), order, transfer_tab_ids(t.tabs@));
    exists|created: TinyShell, active: Option<String>|
        #![trigger group_created(a, created, t.group), opt_view(active)]
        group_created(a, created, t.group) && opt_view(active) == chosen && tabs_adopted(
            created,
            b,
            in_pane_order(t.tabs@, order),
            strs_view(t.sftp_handle_ids@),
            active,
            t.system_info_tabs@,
            t.active_system_info_tab,
        )
}

/// Window `b` is window `a` once transfer `t` was docked into the shown
/// group with tab `chosen` to activate: the shown layout becomes `merged`,
/// the tabs land with `chosen` active (the active tab stays when there is
/// none), `chosen` is focused, the home page closes and the monitored tab
/// follows the active group.
pub open spec fn docked_with(
    a: TinyShell,
    b: TinyShell,
    t: GroupTransfer,
    merged: PaneLayout,
    chosen: Option<Seq<char>>,
) -> bool {
    let m = a.workspace@;
    exists|shown: TinyShell, landed: TinyShell, focused: TinyShell, active: Option<String>|
        #![trigger tabs_landed(shown, landed, t.tabs@, strs_view(t.sftp_handle_ids@), active, t.system_info_tabs@, t.active_system_info_tab), system_tab_synced(TinyShell { home_page_open: false, ..focused }, b)]
        shown == (TinyShell { workspace: shown.workspace, ..a })
            && shown.workspace@ == m.with_current_pane_root(merged)
            && (match chosen {
            Some(c) => opt_view(active) == Some(c),
            None => active == m.active_tab,
        }) && tabs_landed(
            shown,
            landed,
            t.tabs@,
            strs_view(t.sftp_handle_ids@),
            active,
            t.system_info_tabs@,
            t.active_system_info_tab,
        ) && (match chosen {
            Some(c) => focus_outcome(landed, focused, c),
            None => focused == landed,
        }) && system_tab_synced(TinyShell { home_page_open: false, ..focused }, b)
}

/// Window `b` is window `a` once transfer `t` was docked into the shown
/// group as `docked_with` says, the tab to activate being the one
/// `chosen_active_tab` picks.
pub open spec fn docked_received(a: TinyShell, b: TinyShell, t: GroupTransfer, merged: PaneLayout) -> bool {
    docked_with(
        a,
        b,
        t,
        merged,
        chosen_active_tab(
            opt_view(t.active_tab),
            layout_ids(t.group.pane_root),
            transfer_tab_ids(t.tabs@),
        ),
    )
}

/// Entries placed after position `pos`.
pub open spec fn placed_after(pos: usize) -> spec_fn((usize, TerminalTab)) -> bool {
    |p: (usize, TerminalTab)| p.0 > pos
}

/// `sorted` with `x` inserted after every entry whose former position is
/// not past that of `x`.
pub open spec fn insert_by_position(
    sorted: Seq<(usize, TerminalTab)>,
    x: (usize, TerminalTab),
) -> Seq<(usize, TerminalTab)> {
    match first_index(sorted, placed_after(x.0)) {
        Some(j) => sorted.insert(j, x),
        None => sorted.push(x),
    }
}

/// `tabs` stably sorted by their former positions.
pub open spec fn by_position(tabs: Seq<(usize, TerminalTab)>) -> Seq<(usize, TerminalTab)>
    decreases tabs.len(),
{
    if tabs.len() == 0 {
        seq![]
    } else {
        insert_by_position(by_position(tabs.drop_last()), tabs.last())
    }
}

/// The terminal tabs `base` after inserting each tab of `s`, in order, at
/// its former position (or at the end when that is past the end).
pub open spec fn tabs_reinserted(base: Seq<TerminalTab>, s: Seq<(usize, TerminalTab)>) -> Seq<
    TerminalTab,
>
    decreases s.len(),
{
    if s.len() == 0 {
        base
    } else {
        let before = tabs_reinserted(base, s.drop_last());
        let at = if s.last().0 < before.len() {
            s.last().0 as int
        } else {
            before.len() as int
        };
        before.insert(at, s.last().1)
    }
}

/// The first of a sequence of ids, if any.
pub open spec fn first_id(ids: Seq<Seq<char>>) -> Option<Seq<char>> {
    if ids.len() > 0 {
        Some(ids[0])
    } else {
        None
    }
}

/// Window `b` is window `a` with the tabs of a moved group put back:
/// the group at its former position (or last), its tabs at their former
/// positions in the order of those positions, its SFTP handles joined and its
/// system-information tabs appended.
pub open spec fn transfer_put_back(a: TinyShell, b: TinyShell, t: GroupTransfer) -> bool {
    let m = a.workspace@;
    let at = if t.group_index < m.tab_groups.len() {
        t.group_index as int
    } else {
        m.tab_groups.len() as int
    };
    &&& b == TinyShell { workspace: b.workspace, sftp_handle_ids: b.sftp_handle_ids, ..a }
    &&& strs_view(b.sftp_handle_ids@) == handles_joined(
        strs_view(a.sftp_handle_ids@),
        strs_view(t.sftp_handle_ids@),
    )
    &&& b.workspace@ == (WorkspaceModel {
        tab_groups: m.tab_groups.insert(at, t.group),
        tabs: tabs_reinserted(m.tabs, by_position(t.tabs@)),
        system_info_tabs: m.system_info_tabs + t.system_info_tabs@,
        ..m
    })
}

/// Window `b` is window `a` with group `g` made active again: shown with
/// (a copy of) its layout, no pane focused, `info` as the active
/// system-information tab and `active` (else the group's first pane) as the
/// active tab.
pub open spec fn group_reactivated(
    a: TinyShell,
    b: TinyShell,
    g: TabGroup,
    info: Option<String>,
    active: Option<String>,
) -> bool {
    let m = a.workspace@;
    &&& b == TinyShell { workspace: b.workspace, ..a }
    &&& opt_view(b.workspace@.active_tab) == match active {
        Some(x) => Some(x@),
        None => first_id(layout_ids(g.pane_root)),
    }
    &&& exists|root: PaneLayout|
        #![trigger layout_ids(root)]
        tree_of(root) == tree_of(g.pane_root) && layout_ids(root) == layout_ids(g.pane_root)
            && b.workspace@ == (WorkspaceModel {
            active_tab: b.workspace@.active_tab,
            focused_pane_path: seq![],
            active_system_info_tab: info,
            ..(WorkspaceModel { active_group: Some(g.id), ..m }).with_current_pane_root(root)
        })
}

/// Windows `shown` and `focused` follow window `back` (a moved group put
/// back): when the group was active, `shown` is `back` with the group active
/// again as `group_reactivated` says and `focused` is `shown` with its active
/// tab focused; otherwise both are `back`.
pub open spec fn reactivation(back: TinyShell, shown: TinyShell, focused: TinyShell, t: GroupTransfer) -> bool {
    if t.was_active_group {
        &&& group_reactivated(
            back,
            shown,
            t.group,
            restored_info(back.workspace@.system_info_tabs, t.active_system_info_tab),
            t.active_tab,
        )
        &&& match shown.workspace@.active_tab {
            Some(id) => focus_outcome(shown, focused, id@),
            None => focused == shown,
        }
    } else {
        shown == back && focused == back
    }
}

/// Window `b` is window `a` once a moved group came back after the move
/// failed: it is put back as `transfer_put_back` says; if it was the active
/// group it becomes active again as `reactivation` says; then the monitored
/// tab follows the active group.
pub open spec fn group_restored(a: TinyShell, b: TinyShell, t: GroupTransfer) -> bool {
    exists|back: TinyShell, shown: TinyShell, focused: TinyShell|
        #![trigger transfer_put_back(a, back, t), reactivation(back, shown, focused, t), system_tab_synced(focused, b)]
        transfer_put_back(a, back, t) && reactivation(back, shown, focused, t) && system_tab_synced(
            focused,
            b,
        )
}

/// Window `b` is window `a` once the transfers `ts` arrived, in order, each
/// as a group of its own (`group_received`).
pub open spec fn groups_received(a: TinyShell, b: TinyShell, ts: Seq<GroupTransfer>) -> bool
    decreases ts.len(),
{
    if ts.len() == 0 {
        b == a
    } else {
        exists|mid: TinyShell|
            #![trigger group_received(mid, b, ts.last())]
            groups_received(a, mid, ts.drop_last()) && group_received(mid, b, ts.last())
    }
}

/// Window `b` is window `a` once transfers `ts` were taken in as `plan`
/// says: the first one docked into the shown group with the planned layout,
/// or each as a group of its own.
pub open spec fn receipt_committed(a: TinyShell, b: TinyShell, ts: Seq<GroupTransfer>, plan: ReceiptPlan) -> bool {
    match plan {
        ReceiptPlan::Docked(layout) => if ts.len() > 0 {
            docked_received(a, b, ts[0], layout)
        } else {
            b == a
        },
        ReceiptPlan::Groups => groups_received(a, b, ts),
    }
}

/// The position of tab `id` in `order`, or `order.len()` when missing.
fn position_in(order: &Vec<String>, id: &str) -> (r: usize)
    ensures
        r == order_key(strs_view(order@), id@),
{
    let ghost v = strs_view(order@);
    let ghost p = is_id(id@);
    let mut i: usize = 0;
    while i < order.len()
        invariant
            i <= order@.len(),
            v == strs_view(order@),
            p == is_id(id@),
            forall|j: int| 0 <= j < i ==> !p(#[trigger] v[j]),
        decreases order@.len() - i,
    {
        if crate::text::str_eq(order[i].as_str(), id) {
            proof {
                lemma_first_index_found(v, p, i as int);
            }
            return i;
        }
        i = i + 1;
    }
    proof {
        lemma_first_index_none(v, p);
    }
    order.len()
}

/// Appends copies of the tabs of `tabs` whose key is `k` to `out`.
fn push_keyed(
    tabs: &Vec<(usize, TerminalTab)>,
    keys: &Vec<usize>,
    order: Ghost<Seq<Seq<char>>>,
    k: usize,
    out: &mut Vec<(usize, TerminalTab)>,
)
    requires
        keys@.len() == tabs@.len(),
        forall|j: int| 0 <= j < tabs@.len() ==> keys@[j] == order_key(order@, (#[trigger] tabs@[j]).1.id@),
    ensures
        final(out)@ == old(out)@ + tabs@.filter(keyed(order@, k as int)),
{
    let ghost start = out@;
    let ghost p = keyed(order@, k as int);
    let mut i: usize = 0;
    while i < tabs.len()
        invariant
            i <= tabs@.len(),
            keys@.len() == tabs@.len(),
            forall|j: int| 0 <= j < tabs@.len() ==> keys@[j] == order_key(order@, (#[trigger] tabs@[j]).1.id@),
            p == keyed(order@, k as int),
            out@ == start + tabs@.take(i as int).filter(p),
        decreases tabs@.len() - i,
    {
        proof {
            lemma_filter_take_step(tabs@, p, i as int);
        }
        if keys[i] == k {
            let pair = (tabs[i].0, tabs[i].1.duplicate());
            assert(pair == tabs@[i as int]);
            out.push(pair);
            assert(out@ =~= start + tabs@.take(i + 1).filter(p));
        }
        i = i + 1;
    }
    assert(tabs@.take(tabs@.len() as int) =~= tabs@);
}

/// Copies of the transferred tabs, stably sorted by where their ids stand
/// in `order`; tabs missing from `order` come last.
pub fn tabs_in_pane_order(tabs: &Vec<(usize, TerminalTab)>, order: &Vec<String>) -> (r: Vec<
    (usize, TerminalTab),
>)
    ensures
        r@ == in_pane_order(tabs@, strs_view(order@)),
{
    let ghost v = strs_view(order@);
    let mut keys: Vec<usize> = Vec::new();
    let mut i: usize = 0;
    while i < tabs.len()
        invariant
            i <= tabs@.len(),
            v == strs_view(order@),
            keys@.len() == i,
            forall|j: int| 0 <= j < i ==> keys@[j] == order_key(v, (#[trigger] tabs@[j]).1.id@),
        decreases tabs@.len() - i,
    {
        keys.push(position_in(order, tabs[i].1.id.as_str()));
        i = i + 1;
    }
    let n: usize = order.len();
    let mut out: Vec<(usize, TerminalTab)> = Vec::new();
    let mut k: usize = 0;
    while k < n
        invariant
            k <= n,
            n == order@.len(),
            v == strs_view(order@),
            keys@.len() == tabs@.len(),
            forall|j: int| 0 <= j < tabs@.len() ==> keys@[j] == order_key(v, (#[trigger] tabs@[j]).1.id@),
            out@ == keyed_below(tabs@, v, k as nat),
        decreases n - k,
    {
        push_keyed(tabs, &keys, Ghost(v), k, &mut out);
        k = k + 1;
    }
    push_keyed(tabs, &keys, Ghost(v), n, &mut out);
    assert(keyed_below(tabs@, v, (n + 1) as nat) == keyed_below(tabs@, v, n as nat) + tabs@.filter(
        keyed(v, n as int),
    ));
    out
}

/// Copies of the transferred tabs, stably sorted by their former positions.
pub fn tabs_by_position(tabs: &Vec<(usize, TerminalTab)>) -> (r: Vec<(usize, TerminalTab)>)
    ensures
        r@ == by_position(tabs@),
{
    let mut out: Vec<(usize, TerminalTab)> = Vec::new();
    let mut i: usize = 0;
    while i < tabs.len()
        invariant
            i <= tabs@.len(),
            out@ == by_position(tabs@.take(i as int)),
        decreases tabs@.len() - i,
    {
        let x = (tabs[i].0, tabs[i].1.duplicate());
        assert(x == tabs@[i as int]);
        let ghost p = placed_after(x.0);
        let mut j: usize = 0;
        while j < out.len() && out[j].0 <= x.0
            invariant
                j <= out@.len(),
                p == placed_after(x.0),
                forall|k: int| 0 <= k < j ==> !p(#[trigger] out@[k]),
            decreases out@.len() - j,
        {
            j = j + 1;
        }
        proof {
            if j < out@.len() {
                lemma_first_index_found(out@, p, j as int);
            } else {
                lemma_first_index_none(out@, p);
            }
            assert(tabs@.take(i + 1).drop_last() =~= tabs@.take(i as int));
            assert(tabs@.take(i + 1).last() == x);
        }
        out.insert(j, x);
        i = i + 1;
    }
    assert(tabs@.take(tabs@.len() as int) =~= tabs@);
    out
}

impl TinyShell {
    /// Adds the SFTP handles `incoming` that are not open yet, in order.
    pub(crate) fn join_sftp_handles(&mut self, incoming: Vec<String>)
        ensures
            strs_view(final(self).sftp_handle_ids@) == handles_joined(
                strs_view(old(self).sftp_handle_ids@),
                strs_view(incoming@),
            ),
            *final(self) == (TinyShell { sftp_handle_ids: final(self).sftp_handle_ids, ..*old(self) }),
    {
        let ghost start = strs_view(self.sftp_handle_ids@);
        let ghost inc = strs_view(incoming@);
        let mut i: usize = 0;
        while i < incoming.len()
            invariant
                i <= incoming@.len(),
                inc == strs_view(incoming@),
                strs_view(self.sftp_handle_ids@) == handles_joined(start, inc.take(i as int)),
                *self == (TinyShell { sftp_handle_ids: self.sftp_handle_ids, ..*old(self) }),
            decreases incoming@.len() - i,
        {
            assert(inc.take(i + 1).drop_last() =~= inc.take(i as int));
            assert(inc.take(i + 1).last() == incoming@[i as int]@);
            if !strs_contain(&self.sftp_handle_ids, incoming[i].as_str()) {
                let ghost before = self.sftp_handle_ids@;
                self.sftp_handle_ids.push(incoming[i].clone());
                assert(strs_view(self.sftp_handle_ids@) =~= strs_view(before).push(
                    incoming@[i as int]@,
                ));
            }
            i = i + 1;
        }
        assert(inc.take(incoming@.len() as int) =~= inc);
    }

    /// Adds group `group`, moved from another window, after the others and
    /// shows it: it becomes active with its own layout, the ordinal counter
    /// moves past its ordinal, the home page closes and no
    /// system-information tab or pane stays focused. Returns the group's id.
    pub fn create_group_for_transfer(&mut self, group: TabGroup) -> (r: String)
        requires
            group.ordinal < u64::MAX,
        ensures
            r == group.id,
            group_created(*old(self), *final(self), group),
    {
        let ghost old_self = *self;
        let ghost g = group;
        let group_id = group.id.clone();
        let pane_root = group.pane_root.duplicate();
        let ghost rv = pane_root;
        let ordinal = group.ordinal;
        let current = self.workspace.next_tab_group_ordinal();
        let next_ordinal = if current > ordinal + 1 {
            current
        } else {
            ordinal + 1
        };
        self.workspace.set_next_tab_group_ordinal(next_ordinal);
        self.workspace.push_group(group);
        self.home_page_open = false;
        self.workspace.clear_active_system_info_tab();
        self.workspace.set_active_group(Some(group_id.clone()));
        self.workspace.set_pane_root(pane_root);
        self.workspace.clear_focused_pane_path();
        assert(layout_ids(rv) == layout_ids(g.pane_root));
        group_id
    }

    /// Adds the tabs of a transferred group: appends them, joins their SFTP
    /// handles, restores their system-information tabs, makes `active_tab`
    /// the active tab and focuses it, then lets the monitored tab follow the
    /// active group.
    pub fn adopt_transferred_tabs(
        &mut self,
        tabs: Vec<(usize, TerminalTab)>,
        sftp_handle_ids: Vec<String>,
        active_tab: Option<String>,
        system_info_tabs: Vec<SystemInfoTab>,
        active_system_info_tab: Option<String>,
    )
        ensures
            tabs_adopted(
                *old(self),
                *final(self),
                tabs@,
                strs_view(sftp_handle_ids@),
                active_tab,
                system_info_tabs@,
                active_system_info_tab,
            ),
    {
        let ghost a = *self;
        let ghost m = self.workspace@;
        let ghost tv = tabs@;
        let ghost infos = system_info_tabs@;
        let mut plain: Vec<TerminalTab> = Vec::new();
        let mut tabs = tabs;
        let mut i: usize = 0;
        while i < tabs.len()
            invariant
                i <= tabs@.len(),
                tabs@ == tv,
                plain@ == tab_values(tv).take(i as int),
            decreases tabs@.len() - i,
        {
            plain.push(tabs[i].1.duplicate());
            assert(plain@ =~= tab_values(tv).take(i + 1));
            i = i + 1;
        }
        assert(tab_values(tv).take(tv.len() as int) =~= tab_values(tv));
        self.workspace.append_tabs(plain);
        self.join_sftp_handles(sftp_handle_ids);
        let restored = restore_system_info_transfer(
            self.workspace.system_info_tabs_mut(),
            system_info_tabs,
            active_system_info_tab,
        );
        self.workspace.set_active_system_info_tab(restored);
        self.workspace.set_active_tab(active_tab);
        let ghost landed = *self;
        assert(tabs_landed(a, landed, tv, strs_view(sftp_handle_ids@), active_tab, infos, active_system_info_tab));
        match self.workspace.active_tab_value() {
            Some(tab_id) => {
                self.focus_pane_with_id(tab_id);
            },
            None => {},
        }
        let ghost focused = *self;
        self.sync_system_tab_to_active_group();
        assert(system_tab_synced(focused, *self));
    }

    /// Receives transfer `transfer` from another window as a group of its
    /// own: the group is added and shown, then its tabs, in the order of its
    /// layout, are adopted with the tab chosen by `chosen_active_tab` active.
    pub fn commit_received_group(&mut self, transfer: GroupTransfer)
        requires
            transfer.group.ordinal < u64::MAX,
        ensures
            group_received(*old(self), *final(self), transfer),
    {
        let ghost t = transfer;
        let ghost a0 = *self;
        let chosen = transfer.chosen_active_tab();
        let pane_order = transfer.group.pane_root.tab_ids();
        let sorted = tabs_in_pane_order(&transfer.tabs, &pane_order);
        let GroupTransfer { group, sftp_handle_ids, system_info_tabs, active_system_info_tab, .. } =
            transfer;
        self.create_group_for_transfer(group);
        let ghost created = *self;
        self.adopt_transferred_tabs(
            sorted,
            sftp_handle_ids,
            chosen,
            system_info_tabs,
            active_system_info_tab,
        );
        assert(group_created(a0, created, t.group));
        assert(opt_view(chosen) == chosen_active_tab(
            opt_view(t.active_tab),
            layout_ids(t.group.pane_root),
            transfer_tab_ids(t.tabs@),
        ));
    }
    /// Docks transfer `transfer` into the shown group: the shown layout
    /// becomes `merged_layout`, the tabs are appended, their SFTP handles
    /// joined and system-information tabs restored; the tab chosen by
    /// `chosen_active_tab`, if any, becomes active and focused; the home page
    /// closes and the monitored tab follows the active group.
    pub fn commit_received_docked(&mut self, transfer: GroupTransfer, merged_layout: PaneLayout)
        ensures
            docked_received(*old(self), *final(self), transfer, merged_layout),
    {
        let chosen = transfer.chosen_active_tab();
        self.dock_transfer(transfer, merged_layout, chosen);
    }

    /// Docks transfer `transfer` into the shown group as `docked_with` says,
    /// with `chosen` as the tab to activate.
    pub(crate) fn dock_transfer(&mut self, transfer: GroupTransfer, merged_layout: PaneLayout, chosen: Option<String>)
        ensures
            docked_with(*old(self), *final(self), transfer, merged_layout, opt_view(chosen)),
    {
        let ghost a = *self;
        let ghost t = transfer;
        self.workspace.set_pane_root(merged_layout);
        let ghost shown = *self;
        let GroupTransfer { tabs, sftp_handle_ids, system_info_tabs, active_system_info_tab, .. } =
            transfer;
        let ghost tv = tabs@;
        let mut plain: Vec<TerminalTab> = Vec::new();
        let mut i: usize = 0;
        while i < tabs.len()
            invariant
                i <= tabs@.len(),
                tabs@ == tv,
                plain@ == tab_values(tv).take(i as int),
            decreases tabs@.len() - i,
        {
            plain.push(tabs[i].1.duplicate());
            assert(plain@ =~= tab_values(tv).take(i + 1));
            i = i + 1;
        }
        assert(tab_values(tv).take(tv.len() as int) =~= tab_values(tv));
        self.workspace.append_tabs(plain);
        self.join_sftp_handles(sftp_handle_ids);
        let restored = restore_system_info_transfer(
            self.workspace.system_info_tabs_mut(),
            system_info_tabs,
            active_system_info_tab,
        );
        self.workspace.set_active_system_info_tab(restored);
        match chosen {
            Some(active) => {
                self.workspace.set_active_tab(Some(active.clone()));
                let ghost landed = *self;
                assert(tabs_landed(shown, landed, t.tabs@, strs_view(t.sftp_handle_ids@), Some(active), t.system_info_tabs@, t.active_system_info_tab));
                self.focus_pane_with_id(active);
            },
            None => {
                let ghost landed = *self;
                assert(tabs_landed(shown, landed, t.tabs@, strs_view(t.sftp_handle_ids@), a.workspace@.active_tab, t.system_info_tabs@, t.active_system_info_tab));
            },
        }
        let ghost focused = *self;
        self.home_page_open = false;
        let ghost closed = *self;
        self.sync_system_tab_to_active_group();
        assert(closed == TinyShell { home_page_open: false, ..focused });
        assert(system_tab_synced(closed, *self));
    }

    /// Puts a group whose move failed back into this window: the group at
    /// its former position, its tabs at their former positions, its SFTP
    /// handles and system-information tabs; if it was the active group it
    /// becomes active again with its active tab (else its first pane)
    /// focused. Then the monitored tab follows the active group.
    pub fn restore_group_transfer(&mut self, transfer: GroupTransfer)
        ensures
            group_restored(*old(self), *final(self), transfer),
    {
        let ghost a = *self;
        let ghost t = transfer;
        let ghost m = self.workspace@;
        let group_id = transfer.group.id.clone();
        let group_layout = transfer.group.pane_root.duplicate();
        let ghost rv = group_layout;
        let first_pane = crate::shell::first_tab(&group_layout);
        let sorted = tabs_by_position(&transfer.tabs);
        let GroupTransfer {
            group,
            group_index,
            sftp_handle_ids,
            active_tab,
            system_info_tabs,
            active_system_info_tab,
            was_active_group,
            ..
        } = transfer;
        self.workspace.insert_group(group_index, group);
        let ghost m1 = self.workspace@;
        let mut i: usize = 0;
        while i < sorted.len()
            invariant
                i <= sorted@.len(),
                self.workspace@ == (WorkspaceModel {
                    tabs: tabs_reinserted(m.tabs, sorted@.take(i as int)),
                    ..m1
                }),
                *self == (TinyShell { workspace: self.workspace, ..a }),
            decreases sorted@.len() - i,
        {
            assert(sorted@.take(i + 1).drop_last() =~= sorted@.take(i as int));
            assert(sorted@.take(i + 1).last() == sorted@[i as int]);
            self.workspace.insert_tab(sorted[i].0, sorted[i].1.duplicate());
            i = i + 1;
        }
        assert(sorted@.take(sorted@.len() as int) =~= sorted@);
        self.join_sftp_handles(sftp_handle_ids);
        let restored_active_info = restore_system_info_transfer(
            self.workspace.system_info_tabs_mut(),
            system_info_tabs,
            active_system_info_tab,
        );
        let ghost back = *self;
        assert(transfer_put_back(a, back, t));
        if was_active_group {
            self.workspace.set_active_group(Some(group_id));
            self.workspace.set_pane_root(group_layout);
            self.workspace.clear_focused_pane_path();
            self.workspace.set_active_system_info_tab(restored_active_info);
            let active = match active_tab {
                Some(x) => Some(x),
                None => first_pane,
            };
            self.workspace.set_active_tab(active);
            let ghost shown = *self;
            assert(layout_ids(rv) == layout_ids(t.group.pane_root));
            assert(group_reactivated(
                back,
                shown,
                t.group,
                restored_info(back.workspace@.system_info_tabs, t.active_system_info_tab),
                t.active_tab,
            ));
            match self.workspace.active_tab_value() {
                Some(tab_id) => {
                    self.focus_pane_with_id(tab_id);
                },
                None => {},
            }
            assert(reactivation(back, shown, *self, t));
        }
        let ghost focused = *self;
        proof {
            if !t.was_active_group {
                assert(reactivation(back, back, focused, t));
            }
        }
        self.sync_system_tab_to_active_group();
        assert(system_tab_synced(focused, *self));
    }
    /// Takes in transfers `transfers` as `plan` (from `plan_group_receipt`)
    /// says: the first one docked into the shown group with the planned
    /// layout, or each as a group of its own, in order.
    pub fn commit_group_receipt(&mut self, transfers: Vec<GroupTransfer>, plan: ReceiptPlan)
        requires
            forall|k: int| 0 <= k < transfers@.len() ==> (#[trigger] transfers@[k]).group.ordinal < u64::MAX,
        ensures
            receipt_committed(*old(self), *final(self), transfers@, plan),
    {
        let ghost a = *self;
        let ghost orig = transfers@;
        let mut rest = transfers;
        match plan {
            ReceiptPlan::Docked(layout) => {
                if rest.len() > 0 {
                    let t = rest.remove(0);
                    self.commit_received_docked(t, layout);
                }
            },
            ReceiptPlan::Groups => {
                let ghost mut k: int = 0;
                proof {
                    assert(orig.skip(0) =~= orig);
                    assert(orig.take(0) =~= Seq::<GroupTransfer>::empty());
                }
                while rest.len() > 0
                    invariant
                        0 <= k <= orig.len(),
                        rest@ == orig.skip(k),
                        forall|j: int| 0 <= j < orig.len() ==> (#[trigger] orig[j]).group.ordinal < u64::MAX,
                        groups_received(a, *self, orig.take(k)),
                    decreases rest@.len(),
                {
                    let t = rest.remove(0);
                    let ghost mid = *self;
                    proof {
                        assert(t == orig[k]);
                    }
                    self.commit_received_group(t);
                    proof {
                        assert(orig.take(k + 1).drop_last() =~= orig.take(k));
                        assert(orig.take(k + 1).last() == orig[k]);
                        assert(group_received(mid, *self, orig.take(k + 1).last()));
                        k = k + 1;
                        assert(rest@ =~= orig.skip(k));
                    }
                }
                assert(orig.take(orig.len() as int) =~= orig);
            },
        }
    }
}

} // verus!
