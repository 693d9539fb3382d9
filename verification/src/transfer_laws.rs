//! What putting back a group whose move failed gives back.
use vstd::prelude::*;

use crate::pane_layout::{layout_ids, strs_view, tree_of, LayoutTree};
use crate::seq_util::{first_index, lemma_filter_push};
use crate::shell::TinyShell;
use crate::shell_groups::system_tab_synced;
use crate::shell_receive::{
    by_position, group_restored, handles_joined, insert_by_position, placed_after, reactivation,
    tabs_reinserted, transfer_put_back,
};
use crate::shell_transfer::{
    follows_tab, group_panes, indexed, keeps_handle, keeps_tab, moves_handle, moves_tab, transfer_taken,
};
use crate::tab_transfer::GroupTransfer;
use crate::pane_layout::PaneLayout;
use crate::seq_util::lemma_first_index_sound;
use crate::shell::opt_view;
use crate::shell_receive::restored_info;
use crate::terminal_workspace::{
    group_ids, group_index, has_id, lemma_layout_change_keeps_group_ids, SystemInfoTab, TabGroup,
    TerminalTab,
    WorkspaceModel,
};
use crate::seq_util::lemma_first_index_found;

verus! {

/// Reinserting tabs makes the sequence as long as both together.
proof fn lemma_reinserted_len(base: Seq<TerminalTab>, m: Seq<(usize, TerminalTab)>)
    ensures
        tabs_reinserted(base, m).len() == base.len() + m.len(),
    decreases m.len(),
{
    if m.len() > 0 {
        lemma_reinserted_len(base, m.drop_last());
    }
}

/// A tab appended to the base stays last when every reinsertion lands
/// within what was there before it.
proof fn lemma_reinserted_push(base: Seq<TerminalTab>, m: Seq<(usize, TerminalTab)>, x: TerminalTab)
    requires
        forall|j: int| 0 <= j < m.len() ==> (#[trigger] m[j]).0 <= base.len() + j,
    ensures
        tabs_reinserted(base.push(x), m) == tabs_reinserted(base, m).push(x),
    decreases m.len(),
{
    if m.len() > 0 {
        let m0 = m.drop_last();
        assert forall|j: int| 0 <= j < m0.len() implies (#[trigger] m0[j]).0 <= base.len() + j by {
            assert(m0[j] == m[j]);
        }
        lemma_reinserted_push(base, m0, x);
        lemma_reinserted_len(base, m0);
        let a = tabs_reinserted(base, m0);
        let y = m.last();
        assert(m[m.len() - 1] == y);
        assert(y.0 <= a.len());
        assert(a.push(x).insert(y.0 as int, y.1) =~= a.insert(y.0 as int, y.1).push(x));
    }
}

/// Facts about the tabs of `s` that move (with their positions) and those
/// that stay, when the moving ones are those with ids among `ids`.
proof fn lemma_moved_and_kept(s: Seq<TerminalTab>, ids: Seq<Seq<char>>)
    requires
        s.len() <= usize::MAX,
    ensures
        ({
            let moved = indexed(s).filter(moves_tab(ids));
            let kept = s.filter(keeps_tab(ids));
            &&& kept.len() + moved.len() == s.len()
            &&& forall|j: int| 0 <= j < moved.len() ==> (#[trigger] moved[j]).0 < s.len()
            &&& forall|j: int| 0 <= j < moved.len() ==> (#[trigger] moved[j]).0 <= kept.len() + j
            &&& by_position(moved) == moved
            &&& tabs_reinserted(kept, moved) == s
        }),
    decreases s.len(),
{
    let moved = indexed(s).filter(moves_tab(ids));
    let kept = s.filter(keeps_tab(ids));
    if s.len() == 0 {
        reveal(Seq::filter);
        assert(indexed(s) =~= Seq::<(usize, TerminalTab)>::empty());
        assert(moved =~= Seq::<(usize, TerminalTab)>::empty());
        assert(kept =~= Seq::<TerminalTab>::empty());
    } else {
        let s0 = s.drop_last();
        let x = s.last();
        let n = s.len() - 1;
        lemma_moved_and_kept(s0, ids);
        let moved0 = indexed(s0).filter(moves_tab(ids));
        let kept0 = s0.filter(keeps_tab(ids));
        assert(indexed(s) =~= indexed(s0).push((n as usize, x)));
        assert(s =~= s0.push(x));
        lemma_filter_push(indexed(s0), moves_tab(ids), (n as usize, x));
        lemma_filter_push(s0, keeps_tab(ids), x);
        if ids.contains(x.id@) {
            assert(moved == moved0.push((n as usize, x)));
            assert(kept == kept0);
            assert forall|j: int| 0 <= j < moved.len() implies (#[trigger] moved[j]).0 < s.len() by {
                if j < moved0.len() {
                    assert(moved[j] == moved0[j]);
                }
            }
            assert forall|j: int| 0 <= j < moved.len() implies (#[trigger] moved[j]).0 <= kept.len()
                + j by {
                if j < moved0.len() {
                    assert(moved[j] == moved0[j]);
                }
            }
            // The new entry comes after every earlier one.
            assert(first_index(moved0, placed_after(n as usize)) is None) by {
                assert forall|j: int| 0 <= j < moved0.len() implies !placed_after(n as usize)(
                    #[trigger] moved0[j],
                ) by {}
                crate::seq_util::lemma_first_index_none(moved0, placed_after(n as usize));
            }
            assert(moved.drop_last() =~= moved0);
            assert(by_position(moved) == insert_by_position(by_position(moved0), moved.last()));
            lemma_reinserted_len(kept0, moved0);
            assert(tabs_reinserted(kept, moved) == s0.insert(n, x));
            assert(s0.insert(n, x) =~= s);
        } else {
            assert(moved == moved0);
            assert(kept == kept0.push(x));
            lemma_reinserted_push(kept0, moved0, x);
            assert forall|j: int| 0 <= j < moved.len() implies (#[trigger] moved[j]).0 <= kept.len()
                + j by {}
        }
    }
}

/// Putting back the tabs that moved with a group restores the terminal
/// tabs of the window as they were: the tabs whose ids are among `ids` leave
/// with their positions, and reinserting them by position gives back `s`.
pub proof fn moved_tabs_come_back_in_place(s: Seq<TerminalTab>, ids: Seq<Seq<char>>)
    requires
        s.len() <= usize::MAX,
    ensures
        tabs_reinserted(s.filter(keeps_tab(ids)), by_position(indexed(s).filter(moves_tab(ids))))
            == s,
{
    lemma_moved_and_kept(s, ids);
}

/// What a filtered sequence holds satisfies the filter and was in the
/// sequence.
proof fn lemma_filter_holds<T>(s: Seq<T>, p: spec_fn(T) -> bool, x: T)
    requires
        s.filter(p).contains(x),
    ensures
        s.contains(x),
        p(x),
    decreases s.len(),
{
    reveal(Seq::filter);
    if s.len() > 0 {
        let s0 = s.drop_last();
        assert(s =~= s0.push(s.last()));
        lemma_filter_push(s0, p, s.last());
        if s0.filter(p).contains(x) {
            lemma_filter_holds(s0, p, x);
            let k = choose|k: int| 0 <= k < s0.len() && s0[k] == x;
            assert(s[k] == x);
        } else {
            assert(x == s.last());
            assert(s[s.len() - 1] == x);
        }
    }
}

/// The ids after joining `incoming` to `ids` are those of either.
proof fn lemma_handles_joined_contains(ids: Seq<Seq<char>>, incoming: Seq<Seq<char>>, x: Seq<char>)
    ensures
        handles_joined(ids, incoming).contains(x) <==> (ids.contains(x) || incoming.contains(x)),
    decreases incoming.len(),
{
    if incoming.len() > 0 {
        let rest = incoming.drop_last();
        lemma_handles_joined_contains(ids, rest, x);
        let before = handles_joined(ids, rest);
        assert(incoming =~= rest.push(incoming.last()));
        crate::shell_close::lemma_contains_push(rest, incoming.last(), x);
        crate::shell_close::lemma_contains_push(before, incoming.last(), x);
    }
}

/// A handle id among `v` is among those `p` keeps or those it drops.
proof fn lemma_split_handles(v: Seq<String>, p: spec_fn(String) -> bool, q: spec_fn(String) -> bool, x: Seq<char>)
    requires
        forall|h: String| #[trigger] q(h) == !p(h),
    ensures
        strs_view(v).contains(x) <==> (strs_view(v.filter(p)).contains(x) || strs_view(
            v.filter(q),
        ).contains(x)),
{
    if strs_view(v).contains(x) {
        let k = choose|k: int| 0 <= k < strs_view(v).len() && strs_view(v)[k] == x;
        assert(v[k]@ == x);
        if p(v[k]) {
            v.lemma_filter_contains(p, k);
            assert(v.filter(p).contains(v[k]));
            let j = choose|j: int| 0 <= j < v.filter(p).len() && v.filter(p)[j] == v[k];
            assert(strs_view(v.filter(p))[j] == x);
        } else {
            v.lemma_filter_contains(q, k);
            assert(v.filter(q).contains(v[k]));
            let j = choose|j: int| 0 <= j < v.filter(q).len() && v.filter(q)[j] == v[k];
            assert(strs_view(v.filter(q))[j] == x);
        }
    }
    if strs_view(v.filter(p)).contains(x) {
        let j = choose|j: int| 0 <= j < strs_view(v.filter(p)).len() && strs_view(v.filter(p))[j] == x;
        assert(v.filter(p).contains(v.filter(p)[j]));
        lemma_filter_holds(v, p, v.filter(p)[j]);
        let k = choose|k: int| 0 <= k < v.len() && v[k] == v.filter(p)[j];
        assert(strs_view(v)[k] == x);
    }
    if strs_view(v.filter(q)).contains(x) {
        let j = choose|j: int| 0 <= j < strs_view(v.filter(q)).len() && strs_view(v.filter(q))[j] == x;
        assert(v.filter(q).contains(v.filter(q)[j]));
        lemma_filter_holds(v, q, v.filter(q)[j]);
        let k = choose|k: int| 0 <= k < v.len() && v[k] == v.filter(q)[j];
        assert(strs_view(v)[k] == x);
    }
}

/// A group whose move failed comes back with what it took: taking group
/// `group_id` out of window `a` (leaving window `b` and transfer `t`) and
/// putting `t` back into `b` (giving window `c`) gives back the terminal
/// tabs of `a`, in their order, the groups of `a`, in their order, the
/// active group of `a`, and the SFTP handles of `a`.
pub proof fn failed_move_gives_back_tabs_and_handles(
    a: TinyShell,
    b: TinyShell,
    c: TinyShell,
    group_id: Seq<char>,
    t: GroupTransfer,
)
    requires
        transfer_taken(a, b, group_id, Ok(t)),
        group_restored(b, c, t),
        a.workspace@.tabs.len() <= usize::MAX,
    ensures
        c.workspace@.tabs == a.workspace@.tabs,
        group_ids(c.workspace@.tab_groups) == group_ids(a.workspace@.tab_groups),
        opt_view(c.workspace@.active_group) == opt_view(a.workspace@.active_group),
        forall|h: Seq<char>|
            strs_view(c.sftp_handle_ids@).contains(h) <==> strs_view(a.sftp_handle_ids@).contains(h),
{
    let m = a.workspace@;
    let ids = group_panes(m, group_id);
    assert(b.workspace@.tabs == m.tabs.filter(keeps_tab(ids)));
    let (back, shown, focused) = choose|back: TinyShell, shown: TinyShell, focused: TinyShell|
        transfer_put_back(b, back, t) && reactivation(back, shown, focused, t) && system_tab_synced(
            focused,
            c,
        );
    moved_tabs_come_back_in_place(m.tabs, ids);
    assert(back.workspace@.tabs == m.tabs);
    assert(shown.workspace@.tabs == back.workspace@.tabs);
    assert(focused.workspace@.tabs == shown.workspace@.tabs);
    assert(c.sftp_handle_ids == back.sftp_handle_ids);
    // The groups.
    let gi = group_index(m.tab_groups, group_id)->0;
    lemma_first_index_sound(m.tab_groups, has_id(group_id));
    assert(group_ids(b.workspace@.tab_groups) =~= group_ids(m.tab_groups.remove(gi)));
    assert(group_ids(back.workspace@.tab_groups) =~= group_ids(m.tab_groups)) by {
        let bg = b.workspace@.tab_groups;
        assert(back.workspace@.tab_groups == bg.insert(gi, t.group));
        assert forall|k: int| 0 <= k < m.tab_groups.len() implies #[trigger] group_ids(
            back.workspace@.tab_groups,
        )[k] == group_ids(m.tab_groups)[k] by {
            if k < gi {
                assert(group_ids(bg)[k] == group_ids(m.tab_groups.remove(gi))[k]);
            } else if k > gi {
                assert(group_ids(bg)[k - 1] == group_ids(m.tab_groups.remove(gi))[k - 1]);
            }
        }
    }
    if t.was_active_group {
        let root = choose|root: PaneLayout|
            #![trigger layout_ids(root)]
            layout_ids(root) == layout_ids(t.group.pane_root) && shown.workspace@ == (WorkspaceModel {
                active_tab: shown.workspace@.active_tab,
                focused_pane_path: seq![],
                active_system_info_tab: restored_info(
                    back.workspace@.system_info_tabs,
                    t.active_system_info_tab,
                ),
                ..(WorkspaceModel { active_group: Some(t.group.id), ..back.workspace@ }).with_current_pane_root(root)
            });
        lemma_layout_change_keeps_group_ids(
            WorkspaceModel { active_group: Some(t.group.id), ..back.workspace@ },
            root,
        );
    }
    assert(group_ids(shown.workspace@.tab_groups) == group_ids(back.workspace@.tab_groups));
    assert(focused.workspace@.tab_groups == shown.workspace@.tab_groups);
    assert forall|h: Seq<char>|
        strs_view(c.sftp_handle_ids@).contains(h) <==> strs_view(a.sftp_handle_ids@).contains(h) by {
        lemma_handles_joined_contains(strs_view(b.sftp_handle_ids@), strs_view(t.sftp_handle_ids@), h);
        lemma_split_handles(a.sftp_handle_ids@, keeps_handle(group_id, ids), moves_handle(group_id, ids), h);
    }
}


/// The layouts of groups, in order, as trees.
pub open spec fn group_trees(groups: Seq<TabGroup>) -> Seq<LayoutTree> {
    groups.map_values(|g: TabGroup| tree_of(g.pane_root))
}

/// With distinct group ids, a group's id finds that very group.
proof fn lemma_unique_group_index(gs: Seq<TabGroup>, k: int)
    requires
        group_ids(gs).no_duplicates(),
        0 <= k < gs.len(),
    ensures
        group_index(gs, gs[k].id@) == Some(k),
{
    assert forall|j: int| 0 <= j < k implies !has_id(gs[k].id@)(#[trigger] gs[j]) by {
        assert(group_ids(gs)[j] != group_ids(gs)[k]);
    }
    lemma_first_index_found(gs, has_id(gs[k].id@), k);
}

/// Removing a group keeps the ids distinct.
proof fn lemma_unique_after_remove(gs: Seq<TabGroup>, gi: int)
    requires
        group_ids(gs).no_duplicates(),
        0 <= gi < gs.len(),
    ensures
        group_ids(gs.remove(gi)).no_duplicates(),
{
    let r = gs.remove(gi);
    assert forall|i: int, j: int| 0 <= i < j < group_ids(r).len() implies group_ids(r)[i]
        != group_ids(r)[j] by {
        let ii = if i < gi { i } else { i + 1 };
        let jj = if j < gi { j } else { j + 1 };
        assert(r[i] == gs[ii] && r[j] == gs[jj]);
        assert(group_ids(gs)[ii] != group_ids(gs)[jj]);
    }
}

/// A group whose move failed comes back with every layout as it was: taking
/// group `group_id` out of window `a` (leaving window `b` and transfer `t`)
/// and putting `t` back into `b` (giving window `c`) gives back the layouts
/// of all groups of `a` (splits, orientations, ratios and panes), in their
/// order, when the groups of `a` have distinct ids.
pub proof fn failed_move_gives_back_layouts(
    a: TinyShell,
    b: TinyShell,
    c: TinyShell,
    group_id: Seq<char>,
    t: GroupTransfer,
)
    requires
        transfer_taken(a, b, group_id, Ok(t)),
        group_restored(b, c, t),
        group_ids(a.workspace@.tab_groups).no_duplicates(),
    ensures
        group_trees(c.workspace@.tab_groups) == group_trees(a.workspace@.tab_groups),
{
    let m = a.workspace@;
    let ids = group_panes(m, group_id);
    let gi = group_index(m.tab_groups, group_id)->0;
    lemma_first_index_sound(m.tab_groups, has_id(group_id));
    let w = crate::shell_transfer::without_tabs(m, ids);
    let mid = crate::shell_transfer::without_group(w, gi);
    assert(mid.tab_groups == m.tab_groups.remove(gi));
    lemma_unique_after_remove(m.tab_groups, gi);
    // Taking the group leaves the other groups as they were.
    assert(b.workspace@.tab_groups == m.tab_groups.remove(gi)) by {
        if opt_view(w.active_group) == Some(w.tab_groups[gi].id@) && mid.tab_groups.len() > 0 {
            let next = if gi < mid.tab_groups.len() - 1 {
                gi
            } else {
                mid.tab_groups.len() - 1
            };
            lemma_unique_group_index(mid.tab_groups, next);
        }
    }
    let (back, shown, focused) = choose|back: TinyShell, shown: TinyShell, focused: TinyShell|
        transfer_put_back(b, back, t) && reactivation(back, shown, focused, t) && system_tab_synced(
            focused,
            c,
        );
    let bg = back.workspace@.tab_groups;
    assert(bg == m.tab_groups.remove(gi).insert(gi, t.group));
    assert(bg =~= m.tab_groups.update(gi, t.group));
    assert(group_trees(bg) =~= group_trees(m.tab_groups));
    if t.was_active_group {
        let root = choose|root: PaneLayout|
            #![trigger layout_ids(root)]
            tree_of(root) == tree_of(t.group.pane_root) && layout_ids(root) == layout_ids(
                t.group.pane_root,
            ) && shown.workspace@ == (WorkspaceModel {
                active_tab: shown.workspace@.active_tab,
                focused_pane_path: seq![],
                active_system_info_tab: restored_info(
                    back.workspace@.system_info_tabs,
                    t.active_system_info_tab,
                ),
                ..(WorkspaceModel { active_group: Some(t.group.id), ..back.workspace@ }).with_current_pane_root(root)
            });
        assert(group_ids(bg) =~= group_ids(m.tab_groups)) by {
            assert forall|k: int| 0 <= k < bg.len() implies group_ids(bg)[k] == group_ids(
                m.tab_groups,
            )[k] by {}
        }
        lemma_unique_group_index(bg, gi);
        assert(bg[gi] == t.group);
        assert(group_trees(shown.workspace@.tab_groups) =~= group_trees(m.tab_groups));
    }
    assert(group_trees(focused.workspace@.tab_groups) == group_trees(shown.workspace@.tab_groups));
}


/// Splitting a sequence by a predicate and its negation keeps every element,
/// as often as before.
proof fn lemma_filter_split_multiset<T>(s: Seq<T>, p: spec_fn(T) -> bool, q: spec_fn(T) -> bool)
    requires
        forall|x: T| #[trigger] q(x) == !p(x),
    ensures
        s.filter(p).to_multiset().add(s.filter(q).to_multiset()) =~= s.to_multiset(),
    decreases s.len(),
{
    broadcast use vstd::multiset::group_multiset_axioms;
    broadcast use vstd::seq_lib::to_multiset_build;
    if s.len() == 0 {
        assert(s.filter(p) =~= Seq::<T>::empty()) by {
            reveal(Seq::filter);
        }
        assert(s.filter(q) =~= Seq::<T>::empty()) by {
            reveal(Seq::filter);
        }
        vstd::seq_lib::to_multiset_len(s);
        vstd::seq_lib::to_multiset_len(s.filter(p));
        vstd::seq_lib::to_multiset_len(s.filter(q));
        vstd::multiset::lemma_multiset_empty_len(s.to_multiset());
        vstd::multiset::lemma_multiset_empty_len(s.filter(p).to_multiset());
        vstd::multiset::lemma_multiset_empty_len(s.filter(q).to_multiset());
    } else {
        let s0 = s.drop_last();
        let x = s.last();
        assert(s =~= s0.push(x));
        lemma_filter_split_multiset(s0, p, q);
        lemma_filter_push(s0, p, x);
        lemma_filter_push(s0, q, x);
    }
}

/// A group whose move failed gives back the system-information tabs: taking
/// group `group_id` out of window `a` (leaving window `b` and transfer `t`)
/// and putting `t` back into `b` (giving window `c`) leaves `c` with the
/// system-information tabs of `a`, each as often as before: those that do
/// not follow a moved pane in their order, then those that do.
pub proof fn failed_move_gives_back_system_info_tabs(
    a: TinyShell,
    b: TinyShell,
    c: TinyShell,
    group_id: Seq<char>,
    t: GroupTransfer,
)
    requires
        transfer_taken(a, b, group_id, Ok(t)),
        group_restored(b, c, t),
    ensures
        c.workspace@.system_info_tabs.to_multiset() =~= a.workspace@.system_info_tabs.to_multiset(),
        c.workspace@.system_info_tabs == a.workspace@.system_info_tabs.filter(
            |i: SystemInfoTab| !group_panes(a.workspace@, group_id).contains(i.source_tab_id@),
        ) + a.workspace@.system_info_tabs.filter(follows_tab(group_panes(a.workspace@, group_id))),
{
    broadcast use vstd::seq_lib::lemma_multiset_commutative;
    let m = a.workspace@;
    let ids = group_panes(m, group_id);
    let gi = group_index(m.tab_groups, group_id)->0;
    lemma_first_index_sound(m.tab_groups, has_id(group_id));
    let w = crate::shell_transfer::without_tabs(m, ids);
    let mid = crate::shell_transfer::without_group(w, gi);
    let kept = |i: SystemInfoTab| !ids.contains(i.source_tab_id@);
    assert(mid.system_info_tabs == m.system_info_tabs.filter(kept));
    assert(b.workspace@.system_info_tabs == mid.system_info_tabs);
    let (back, shown, focused) = choose|back: TinyShell, shown: TinyShell, focused: TinyShell|
        transfer_put_back(b, back, t) && reactivation(back, shown, focused, t) && system_tab_synced(
            focused,
            c,
        );
    assert(back.workspace@.system_info_tabs == mid.system_info_tabs + t.system_info_tabs@);
    if t.was_active_group {
        let root = choose|root: PaneLayout|
            #![trigger layout_ids(root)]
            tree_of(root) == tree_of(t.group.pane_root) && layout_ids(root) == layout_ids(
                t.group.pane_root,
            ) && shown.workspace@ == (WorkspaceModel {
                active_tab: shown.workspace@.active_tab,
                focused_pane_path: seq![],
                active_system_info_tab: restored_info(
                    back.workspace@.system_info_tabs,
                    t.active_system_info_tab,
                ),
                ..(WorkspaceModel { active_group: Some(t.group.id), ..back.workspace@ }).with_current_pane_root(root)
            });
        assert(shown.workspace@.system_info_tabs == back.workspace@.system_info_tabs);
    }
    assert(focused.workspace@.system_info_tabs == shown.workspace@.system_info_tabs);
    assert(c.workspace@.system_info_tabs == back.workspace@.system_info_tabs);
    lemma_filter_split_multiset(m.system_info_tabs, kept, follows_tab(ids));
}

} // verus!
