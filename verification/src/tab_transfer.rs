//! Moving tab groups and panes between windows and within a layout.
use vstd::prelude::*;

use crate::pane_layout::{
    children_ids, layout_ids, lemma_children_ids_cons, lemma_children_ids_push,
    lemma_children_ids_single, remove_first, PaneLayout, EVEN_SPLIT_RATIO_BITS,
};
use crate::pane_layout::{lemma_tree_of, shows, strs_view, tree_of, trees_of, LayoutTree};
use crate::str_seq::{
    all_in, any_in, lemma_no_duplicates_push, same_elements, strs_all_in, strs_any_in, strs_clone,
    strs_have_duplicate,
};
use crate::seq_util::lemma_filter_take_step;
use crate::tab_drag::DockZone;
use crate::terminal_workspace::{
    choose_transfer_active_tab, chosen_active_tab, SystemInfoTab, TabGroup, TerminalTab,
};
use crate::text::str_eq;

verus! {

/// The layout that docking `incoming` at `zone` of `existing` produces.
pub open spec fn merged_layout_ok(
    r: Option<PaneLayout>,
    incoming: PaneLayout,
    existing: PaneLayout,
    zone: DockZone,
) -> bool {
    match zone {
        DockZone::Center => r is None,
        DockZone::Left => r matches Some(PaneLayout::Vertical(c, q)) && c@ == seq![
            incoming,
            existing,
        ] && q == EVEN_SPLIT_RATIO_BITS,
        DockZone::Right => r matches Some(PaneLayout::Vertical(c, q)) && c@ == seq![
            existing,
            incoming,
        ] && q == EVEN_SPLIT_RATIO_BITS,
        DockZone::Up => r matches Some(PaneLayout::Horizontal(c, q)) && c@ == seq![
            incoming,
            existing,
        ] && q == EVEN_SPLIT_RATIO_BITS,
        DockZone::Down => r matches Some(PaneLayout::Horizontal(c, q)) && c@ == seq![
            existing,
            incoming,
        ] && q == EVEN_SPLIT_RATIO_BITS,
    }
}

/// The tree docking `incoming` at split zone `zone` of `existing` gives:
/// an even split, side by side for `Left` and `Right`, stacked for `Up` and
/// `Down`, the incoming layout first for `Left` and `Up`.
pub open spec fn merged_tree(incoming: LayoutTree, existing: LayoutTree, zone: DockZone) -> LayoutTree {
    match zone {
        DockZone::Left => LayoutTree::Vertical(seq![incoming, existing], EVEN_SPLIT_RATIO_BITS),
        DockZone::Right => LayoutTree::Vertical(seq![existing, incoming], EVEN_SPLIT_RATIO_BITS),
        DockZone::Up => LayoutTree::Horizontal(seq![incoming, existing], EVEN_SPLIT_RATIO_BITS),
        _ => LayoutTree::Horizontal(seq![existing, incoming], EVEN_SPLIT_RATIO_BITS),
    }
}

/// The tab ids after docking panes with ids `incoming` next to a pane with
/// ids `existing` at a split zone: the incoming panes come first for `Left`
/// and `Up`, last for `Right` and `Down`.
pub open spec fn docked_ids(incoming: Seq<Seq<char>>, existing: Seq<Seq<char>>, zone: DockZone) -> Seq<
    Seq<char>,
> {
    match zone {
        DockZone::Left | DockZone::Up => incoming + existing,
        _ => existing + incoming,
    }
}

/// Splits `existing` to place `incoming` at `zone`; `None` for `Center`,
/// which does not split.
pub fn merge_pane_layout(incoming: PaneLayout, existing: PaneLayout, zone: DockZone) -> (r: Option<
    PaneLayout,
>)
    ensures
        merged_layout_ok(r, incoming, existing, zone),
        zone != DockZone::Center ==> (r matches Some(m) && layout_ids(m) == docked_ids(
            layout_ids(incoming),
            layout_ids(existing),
            zone,
        ) && tree_of(m) == merged_tree(tree_of(incoming), tree_of(existing), zone)),
{
    let ghost gi = incoming;
    let ghost ge = existing;
    let r = match zone {
        DockZone::Left => Some(PaneLayout::Vertical(vec![incoming, existing], EVEN_SPLIT_RATIO_BITS)),
        DockZone::Right => Some(
            PaneLayout::Vertical(vec![existing, incoming], EVEN_SPLIT_RATIO_BITS),
        ),
        DockZone::Up => Some(
            PaneLayout::Horizontal(vec![incoming, existing], EVEN_SPLIT_RATIO_BITS),
        ),
        DockZone::Down => Some(
            PaneLayout::Horizontal(vec![existing, incoming], EVEN_SPLIT_RATIO_BITS),
        ),
        DockZone::Center => None,
    };
    proof {
        lemma_children_ids_pair(gi, ge);
        lemma_children_ids_pair(ge, gi);
        crate::pane_layout::lemma_trees_of_pair(gi, ge);
        crate::pane_layout::lemma_trees_of_pair(ge, gi);
    }
    r
}

pub proof fn lemma_children_ids_pair(a: PaneLayout, b: PaneLayout)
    ensures
        children_ids(seq![a, b]) == layout_ids(a) + layout_ids(b),
{
    assert(seq![a, b] =~= seq![a].push(b));
    lemma_children_ids_push(seq![a], b);
    lemma_children_ids_single(a);
}

/// `s` with its first occurrence of `x` replaced by the sequence `w`.
pub open spec fn replace_first(s: Seq<Seq<char>>, x: Seq<char>, w: Seq<Seq<char>>) -> Seq<
    Seq<char>,
>
    decreases s.len(),
{
    if s.len() == 0 {
        s
    } else if s[0] == x {
        w + s.drop_first()
    } else {
        seq![s[0]] + replace_first(s.drop_first(), x, w)
    }
}

proof fn lemma_contains_cons(s: Seq<Seq<char>>, x: Seq<char>)
    requires
        s.len() > 0,
    ensures
        s.contains(x) <==> (s[0] == x || s.drop_first().contains(x)),
{
    if s.contains(x) && s[0] != x {
        let j = choose|j: int| 0 <= j < s.len() && s[j] == x;
        assert(s.drop_first()[j - 1] == x);
    }
    if s.drop_first().contains(x) {
        let j = choose|j: int| 0 <= j < s.drop_first().len() && s.drop_first()[j] == x;
        assert(s[j + 1] == x);
    }
    if s[0] == x {
        assert(s.contains(s[0]));
    }
}

proof fn lemma_contains_concat(a: Seq<Seq<char>>, b: Seq<Seq<char>>, x: Seq<char>)
    ensures
        (a + b).contains(x) <==> (a.contains(x) || b.contains(x)),
{
    if (a + b).contains(x) {
        let j = choose|j: int| 0 <= j < (a + b).len() && (a + b)[j] == x;
        if j < a.len() {
            assert(a[j] == x);
        } else {
            assert(b[j - a.len()] == x);
        }
    }
    if a.contains(x) {
        let j = choose|j: int| 0 <= j < a.len() && a[j] == x;
        assert((a + b)[j] == x);
    }
    if b.contains(x) {
        let j = choose|j: int| 0 <= j < b.len() && b[j] == x;
        assert((a + b)[a.len() + j] == x);
    }
}

proof fn lemma_replace_first_concat(
    a: Seq<Seq<char>>,
    b: Seq<Seq<char>>,
    x: Seq<char>,
    w: Seq<Seq<char>>,
)
    ensures
        replace_first(a + b, x, w) == if a.contains(x) {
            replace_first(a, x, w) + b
        } else {
            a + replace_first(b, x, w)
        },
    decreases a.len(),
{
    if a.len() == 0 {
        assert(a + b =~= b);
        assert(!a.contains(x));
    } else {
        assert((a + b).drop_first() =~= a.drop_first() + b);
        assert((a + b)[0] == a[0]);
        lemma_replace_first_concat(a.drop_first(), b, x, w);
        lemma_contains_cons(a, x);
        if a[0] == x {
            assert(w + (a.drop_first() + b) =~= (w + a.drop_first()) + b);
        } else if a.drop_first().contains(x) {
            assert(seq![a[0]] + (replace_first(a.drop_first(), x, w) + b) =~= (seq![a[0]]
                + replace_first(a.drop_first(), x, w)) + b);
        } else {
            assert(seq![a[0]] + (a.drop_first() + replace_first(b, x, w)) =~= a + replace_first(
                b,
                x,
                w,
            ));
        }
    }
}

/// Tree `t` with its first pane for `target` split to place `source` at
/// `zone` (`merged_tree`); every other split and pane stays as it was.
pub open spec fn tree_docked(t: LayoutTree, target: Seq<char>, source: LayoutTree, zone: DockZone) -> LayoutTree
    decreases t,
{
    match t {
        LayoutTree::Single(id) => if id == target {
            merged_tree(source, t, zone)
        } else {
            t
        },
        LayoutTree::Horizontal(c, ratio) => match crate::seq_util::first_index(c, shows(target)) {
            Some(k) => {
                proof {
                    crate::seq_util::lemma_first_index_sound(c, shows(target));
                }
                LayoutTree::Horizontal(c.update(k, tree_docked(c[k], target, source, zone)), ratio)
            },
            None => t,
        },
        LayoutTree::Vertical(c, ratio) => match crate::seq_util::first_index(c, shows(target)) {
            Some(k) => {
                proof {
                    crate::seq_util::lemma_first_index_sound(c, shows(target));
                }
                LayoutTree::Vertical(c.update(k, tree_docked(c[k], target, source, zone)), ratio)
            },
            None => t,
        },
        LayoutTree::Empty => t,
    }
}

/// `l` with the first pane for `target` split to place `source` at `zone`.
fn docked_into(l: PaneLayout, target: &str, source: &PaneLayout, zone: DockZone) -> (r: PaneLayout)
    requires
        zone != DockZone::Center,
        layout_ids(l).contains(target@),
    ensures
        layout_ids(r) == replace_first(
            layout_ids(l),
            target@,
            docked_ids(layout_ids(*source), seq![target@], zone),
        ),
        tree_of(r) == tree_docked(tree_of(l), target@, tree_of(*source), zone),
    decreases l,
{
    match l {
        PaneLayout::Empty => {
            assert(false);
            PaneLayout::Empty
        },
        PaneLayout::Single(id) => {
            assert(seq![id@].contains(target@) ==> id@ == target@) by {
                if seq![id@].contains(target@) {
                    let j = choose|j: int| 0 <= j < 1 && seq![id@][j] == target@;
                }
            }
            let ghost idv = id@;
            let current = PaneLayout::Single(id);
            let incoming = source.duplicate();
            let merged = merge_pane_layout(incoming, current, zone);
            assert(seq![idv].drop_first() =~= Seq::<Seq<char>>::empty());
            assert(docked_ids(layout_ids(*source), seq![target@], zone) + Seq::<Seq<char>>::empty()
                =~= docked_ids(layout_ids(*source), seq![target@], zone));
            match merged {
                Some(m) => m,
                None => {
                    assert(false);
                    PaneLayout::Empty
                },
            }
        },
        PaneLayout::Horizontal(children, ratio) => {
            assert(forall|k: int|
                0 <= k < children@.len() ==> decreases_to!(l => #[trigger] children@[k]));
            let ghost orig = children@;
            let c = children_docked(children, target, source, zone, Ghost(l));
            assert(tree_of(l) == LayoutTree::Horizontal(crate::pane_layout::trees_of(orig), ratio));
            PaneLayout::Horizontal(c, ratio)
        },
        PaneLayout::Vertical(children, ratio) => {
            assert(forall|k: int|
                0 <= k < children@.len() ==> decreases_to!(l => #[trigger] children@[k]));
            let ghost orig = children@;
            let c = children_docked(children, target, source, zone, Ghost(l));
            assert(tree_of(l) == LayoutTree::Vertical(crate::pane_layout::trees_of(orig), ratio));
            PaneLayout::Vertical(c, ratio)
        },
    }
}

/// `children` with `source` docked at the first pane for `target`.
fn children_docked(
    children: Vec<PaneLayout>,
    target: &str,
    source: &PaneLayout,
    zone: DockZone,
    Ghost(parent): Ghost<PaneLayout>,
) -> (r: Vec<PaneLayout>)
    requires
        zone != DockZone::Center,
        children_ids(children@).contains(target@),
        forall|k: int|
            0 <= k < children@.len() ==> decreases_to!(parent => #[trigger] children@[k]),
    ensures
        children_ids(r@) == replace_first(
            children_ids(children@),
            target@,
            docked_ids(layout_ids(*source), seq![target@], zone),
        ),
        crate::seq_util::first_index(trees_of(children@), shows(target@)) matches Some(d)
            && trees_of(r@) == trees_of(children@).update(
            d,
            tree_docked(trees_of(children@)[d], target@, tree_of(*source), zone),
        ),
    decreases parent, 0nat,
{
    let ghost w = docked_ids(layout_ids(*source), seq![target@], zone);
    let ghost orig = children@;
    let ghost st = tree_of(*source);
    let mut rest = children;
    let mut out: Vec<PaneLayout> = Vec::new();
    let mut done = false;
    let ghost mut k: int = 0;
    let ghost mut dk: int = 0;
    proof {
        assert(orig.skip(0) =~= orig);
        assert(children_ids(out@) =~= Seq::<Seq<char>>::empty());
        assert(children_ids(out@) + children_ids(orig) =~= children_ids(orig));
    }
    while rest.len() > 0
        invariant
            zone != DockZone::Center,
            w == docked_ids(layout_ids(*source), seq![target@], zone),
            0 <= k <= orig.len(),
            rest@ == orig.skip(k),
            forall|j: int| 0 <= j < orig.len() ==> decreases_to!(parent => #[trigger] orig[j]),
            children_ids(orig).contains(target@),
            done ==> children_ids(out@) + children_ids(rest@) == replace_first(
                children_ids(orig),
                target@,
                w,
            ),
            !done ==> children_ids(out@) + children_ids(rest@) == children_ids(orig),
            !done ==> !children_ids(out@).contains(target@),
            out@.len() == k,
            st == tree_of(*source),
            !done ==> trees_of(out@) == trees_of(orig.take(k)),
            !done ==> forall|j: int| 0 <= j < k ==> !shows(target@)(#[trigger] tree_of(orig[j])),
            done ==> 0 <= dk < k,
            done ==> trees_of(out@) == trees_of(orig.take(k)).update(
                dk,
                tree_docked(tree_of(orig[dk]), target@, st, zone),
            ),
            done ==> forall|j: int| 0 <= j < dk ==> !shows(target@)(#[trigger] tree_of(orig[j])),
            done ==> shows(target@)(tree_of(orig[dk])),
        decreases rest@.len(),
    {
        let child = rest.remove(0);
        let ghost old_out = out@;
        let ghost old_done = done;
        proof {
            assert(orig.take(k + 1).drop_last() =~= orig.take(k));
            assert(orig.take(k + 1).last() == orig[k]);
            lemma_tree_of(orig[k]);
            crate::pane_layout::lemma_trees_of_len(orig.take(k));
        }
        proof {
            assert(orig.skip(k) =~= seq![child] + orig.skip(k + 1));
            lemma_children_ids_cons(child, orig.skip(k + 1));
            assert(child == orig[k]);
            assert(decreases_to!(parent => orig[k]));
            k = k + 1;
            assert(rest@ =~= orig.skip(k));
            lemma_children_ids_push(old_out, child);
        }
        let ghost a = children_ids(old_out);
        let ghost m = layout_ids(child);
        let ghost z = children_ids(rest@);
        if done {
            out.push(child);
            assert(a + (m + z) =~= (a + m) + z);
            proof {
                assert(out@.drop_last() =~= old_out);
                assert(trees_of(out@) =~= trees_of(orig.take(k)).update(
                    dk,
                    tree_docked(tree_of(orig[dk]), target@, st, zone),
                ));
            }
        } else {
            proof {
                assert(children_ids(orig) =~= a + (m + z));
                lemma_replace_first_concat(a, m + z, target@, w);
                lemma_replace_first_concat(m, z, target@, w);
                lemma_contains_concat(a, m + z, target@);
                lemma_contains_concat(m, z, target@);
                lemma_contains_concat(a, m, target@);
            }
            if children_contains(&child, target) {
                let c = docked_into(child, target, source, zone);
                out.push(c);
                proof {
                    assert(out@.drop_last() =~= old_out);
                    dk = k - 1;
                    assert(trees_of(out@) =~= trees_of(orig.take(k)).update(
                        dk,
                        tree_docked(tree_of(orig[dk]), target@, st, zone),
                    ));
                    lemma_children_ids_push(old_out, c);
                    assert(a + (replace_first(m, target@, w) + z) =~= (a + replace_first(
                        m,
                        target@,
                        w,
                    )) + z);
                }
                done = true;
            } else {
                out.push(child);
                assert(a + (m + z) =~= (a + m) + z);
                proof {
                    assert(out@.drop_last() =~= old_out);
                }
            }
        }
    }
    proof {
        assert(children_ids(rest@) =~= Seq::<Seq<char>>::empty());
        assert(children_ids(out@) + children_ids(rest@) =~= children_ids(out@));
        if !done {
            assert(children_ids(out@) == children_ids(orig));
        }
        assert(orig.take(orig.len() as int) =~= orig);
        crate::pane_layout::lemma_trees_of_len(orig);
        assert forall|j: int| 0 <= j < dk implies !shows(target@)(#[trigger] trees_of(orig)[j]) by {
            crate::pane_layout::lemma_trees_of_index(orig, j);
        }
        crate::pane_layout::lemma_trees_of_index(orig, dk);
        crate::seq_util::lemma_first_index_found(trees_of(orig), shows(target@), dk);
    }
    out
}

/// Whether some pane of `l` shows `id`.
fn children_contains(l: &PaneLayout, id: &str) -> (b: bool)
    ensures
        b == layout_ids(*l).contains(id@),
{
    l.contains(id)
}

/// Splits the first pane for `target_tab_id` to place `source` at `zone`;
/// returns whether the layout holds such a pane and `zone` splits. When it
/// returns `false`, the layout is left as it was.
pub fn dock_at(layout: &mut PaneLayout, target_tab_id: &str, source: PaneLayout, zone: DockZone) -> (b:
    bool)
    ensures
        b == (zone != DockZone::Center && layout_ids(*old(layout)).contains(target_tab_id@)),
        b ==> layout_ids(*final(layout)) == replace_first(
            layout_ids(*old(layout)),
            target_tab_id@,
            docked_ids(layout_ids(source), seq![target_tab_id@], zone),
        ),
        b ==> tree_of(*final(layout)) == tree_docked(
            tree_of(*old(layout)),
            target_tab_id@,
            tree_of(source),
            zone,
        ),
        !b ==> *final(layout) == *old(layout),
{
    if !zone.is_split() || !layout.contains(target_tab_id) {
        return false;
    }
    let mut current = PaneLayout::Empty;
    std::mem::swap(&mut current, layout);
    *layout = docked_into(current, target_tab_id, &source, zone);
    true
}

/// Moves the pane for `source_tab_id` next to the pane for `target_tab_id`,
/// at `zone`. Fails, leaving the layout as it was, when the two ids are equal,
/// `zone` does not split, or either pane is missing.
pub fn dock_tab_layout(
    layout: &mut PaneLayout,
    source_tab_id: &str,
    target_tab_id: &str,
    zone: DockZone,
) -> (b: bool)
    ensures
        b == (source_tab_id@ != target_tab_id@ && zone != DockZone::Center && layout_ids(
            *old(layout),
        ).contains(source_tab_id@) && layout_ids(*old(layout)).contains(target_tab_id@)),
        b ==> layout_ids(*final(layout)) == replace_first(
            remove_first(layout_ids(*old(layout)), source_tab_id@),
            target_tab_id@,
            docked_ids(seq![source_tab_id@], seq![target_tab_id@], zone),
        ),
        b ==> tree_of(*final(layout)) == tree_docked(
            crate::pane_layout::tree_without(tree_of(*old(layout)), source_tab_id@),
            target_tab_id@,
            LayoutTree::Single(source_tab_id@),
            zone,
        ),
        !b ==> *final(layout) == *old(layout),
{
    if str_eq(source_tab_id, target_tab_id) || !zone.is_split() {
        return false;
    }
    if !layout.contains(source_tab_id) || !layout.contains(target_tab_id) {
        return false;
    }
    let mut candidate = layout.duplicate();
    let removed = candidate.remove_tab(source_tab_id);
    proof {
        let s = layout_ids(*layout);
        crate::pane_layout::lemma_remove_first_keeps_other(s, source_tab_id@, target_tab_id@);
    }
    let source = PaneLayout::Single(crate::text::string_of(source_tab_id));
    let ghost source_ids = layout_ids(source);
    assert(source_ids =~= seq![source_tab_id@]);
    if !removed || !dock_at(&mut candidate, target_tab_id, source, zone) {
        return false;
    }
    *layout = candidate;
    true
}

/// The identities a moved tab group carries.
#[derive(Debug)]
pub struct TransferManifest {
    pub group_id: String,
    pub layout_tab_ids: Vec<String>,
    pub tab_ids: Vec<String>,
    pub sftp_handle_ids: Vec<String>,
    pub route_ids: Vec<String>,
}

/// The identities already present in the window receiving a transfer.
#[derive(Debug)]
pub struct TransferTargetManifest {
    pub group_ids: Vec<String>,
    pub tab_ids: Vec<String>,
    pub sftp_handle_ids: Vec<String>,
}

/// The ids a window already holds, by value.
pub struct TargetView {
    pub group_ids: Seq<Seq<char>>,
    pub tab_ids: Seq<Seq<char>>,
    pub sftp_handle_ids: Seq<Seq<char>>,
}

impl View for TransferTargetManifest {
    type V = TargetView;

    open spec fn view(&self) -> TargetView {
        TargetView {
            group_ids: strs_view(self.group_ids@),
            tab_ids: strs_view(self.tab_ids@),
            sftp_handle_ids: strs_view(self.sftp_handle_ids@),
        }
    }
}

/// The ids a transfer manifest holds.
pub struct ManifestView {
    pub group_id: Seq<char>,
    pub layout_tab_ids: Seq<Seq<char>>,
    pub tab_ids: Seq<Seq<char>>,
    pub sftp_handle_ids: Seq<Seq<char>>,
    pub route_ids: Seq<Seq<char>>,
}

impl View for TransferManifest {
    type V = ManifestView;

    open spec fn view(&self) -> ManifestView {
        ManifestView {
            group_id: self.group_id@,
            layout_tab_ids: strs_view(self.layout_tab_ids@),
            tab_ids: strs_view(self.tab_ids@),
            sftp_handle_ids: strs_view(self.sftp_handle_ids@),
            route_ids: strs_view(self.route_ids@),
        }
    }
}

/// The views of a sequence of manifests.
pub open spec fn manifest_views(ms: Seq<TransferManifest>) -> Seq<ManifestView> {
    ms.map_values(|m: TransferManifest| m@)
}

pub open spec fn layout_mismatch_msg() -> Seq<char> {
    "transfer payload does not match the group layout"@
}

pub open spec fn duplicate_groups_msg() -> Seq<char> {
    "transfer batch contains duplicate groups"@
}

pub open spec fn duplicate_terminals_msg() -> Seq<char> {
    "transfer batch contains duplicate terminals"@
}

pub open spec fn duplicate_sftp_msg() -> Seq<char> {
    "transfer batch contains duplicate SFTP handles"@
}

pub open spec fn duplicate_routes_msg() -> Seq<char> {
    "transfer batch contains duplicate backend routes"@
}

pub open spec fn target_has_group_msg() -> Seq<char> {
    "target already contains this group"@
}

pub open spec fn target_has_terminal_msg() -> Seq<char> {
    "target already contains one of the transferred terminals"@
}

pub open spec fn target_has_sftp_msg() -> Seq<char> {
    "target already contains one of the transferred SFTP handles"@
}

/// A group's tab list matches its layout: it is non-empty, neither list
/// repeats an id, and both hold the same ids.
pub open spec fn tab_set_matches(layout_ids: Seq<Seq<char>>, tab_ids: Seq<Seq<char>>) -> bool {
    &&& tab_ids.len() > 0
    &&& layout_ids.no_duplicates()
    &&& tab_ids.no_duplicates()
    &&& same_elements(layout_ids, tab_ids)
}

/// The manifest's tab list matches its layout.
pub open spec fn manifest_consistent(m: ManifestView) -> bool {
    tab_set_matches(m.layout_tab_ids, m.tab_ids)
}

/// All strings of the manifests in `ms`, as `f` picks them, in order.
pub open spec fn collected(ms: Seq<ManifestView>, f: spec_fn(ManifestView) -> Seq<Seq<char>>) -> Seq<
    Seq<char>,
>
    decreases ms.len(),
{
    if ms.len() == 0 {
        seq![]
    } else {
        collected(ms.drop_last(), f) + f(ms.last())
    }
}

pub open spec fn group_of(m: ManifestView) -> Seq<Seq<char>> {
    seq![m.group_id]
}

pub open spec fn tabs_of(m: ManifestView) -> Seq<Seq<char>> {
    m.tab_ids
}

pub open spec fn sftp_of(m: ManifestView) -> Seq<Seq<char>> {
    m.sftp_handle_ids
}

pub open spec fn routes_of(m: ManifestView) -> Seq<Seq<char>> {
    m.route_ids
}

/// What rejects manifest `m` after the manifests `prev` were accepted.
pub open spec fn manifest_step_error(prev: Seq<ManifestView>, m: ManifestView) -> Option<
    Seq<char>,
> {
    if !manifest_consistent(m) {
        Some(layout_mismatch_msg())
    } else if !(collected(prev, |x| group_of(x)) + group_of(m)).no_duplicates() {
        Some(duplicate_groups_msg())
    } else if !(collected(prev, |x| tabs_of(x)) + tabs_of(m)).no_duplicates() {
        Some(duplicate_terminals_msg())
    } else if !(collected(prev, |x| sftp_of(x)) + sftp_of(m)).no_duplicates() {
        Some(duplicate_sftp_msg())
    } else if !(collected(prev, |x| routes_of(x)) + routes_of(m)).no_duplicates() {
        Some(duplicate_routes_msg())
    } else {
        None
    }
}

/// The first rejection of a batch: each manifest must match its layout, and
/// no group, terminal, SFTP handle or backend route may occur twice across
/// the batch.
pub open spec fn batch_error(ms: Seq<ManifestView>) -> Option<Seq<char>>
    decreases ms.len(),
{
    if ms.len() == 0 {
        None
    } else {
        match batch_error(ms.drop_last()) {
            Some(e) => Some(e),
            None => manifest_step_error(ms.drop_last(), ms.last()),
        }
    }
}

/// What rejects manifest `t` for the window described by `target`.
pub open spec fn target_error(t: ManifestView, target: TargetView, preserve_group: bool) -> Option<
    Seq<char>,
> {
    if !manifest_consistent(t) {
        Some(layout_mismatch_msg())
    } else if preserve_group && target.group_ids.contains(t.group_id) {
        Some(target_has_group_msg())
    } else if any_in(tabs_of(t), target.tab_ids) {
        Some(target_has_terminal_msg())
    } else if any_in(sftp_of(t), target.sftp_handle_ids) {
        Some(target_has_sftp_msg())
    } else {
        None
    }
}

/// The first manifest of `ms` that `target` rejects, and why.
pub open spec fn first_target_error(
    ms: Seq<ManifestView>,
    target: TargetView,
    preserve: bool,
) -> Option<Seq<char>>
    decreases ms.len(),
{
    if ms.len() == 0 {
        None
    } else {
        match target_error(ms[0], target, preserve) {
            Some(e) => Some(e),
            None => first_target_error(ms.drop_first(), target, preserve),
        }
    }
}

/// Checks that a manifest's tab list matches its layout.
pub fn validate_transfer_manifest(manifest: &TransferManifest) -> (r: Result<(), &'static str>)
    ensures
        r is Ok <==> manifest_consistent(manifest@),
        r matches Err(e) ==> e@ == layout_mismatch_msg(),
{
    if manifest.tab_ids.len() == 0 || strs_have_duplicate(&manifest.layout_tab_ids)
        || strs_have_duplicate(&manifest.tab_ids) || !strs_all_in(
        &manifest.layout_tab_ids,
        &manifest.tab_ids,
    ) || !strs_all_in(&manifest.tab_ids, &manifest.layout_tab_ids) {
        return Err("transfer payload does not match the group layout");
    }
    Ok(())
}

/// Adds the strings of `items` to `seen`; returns `true`, leaving `seen` in
/// an unspecified state, as soon as one of them is already there.
fn insert_all(seen: &mut Vec<String>, items: &Vec<String>) -> (dup: bool)
    requires
        strs_view(old(seen)@).no_duplicates(),
    ensures
        dup == !(strs_view(old(seen)@) + strs_view(items@)).no_duplicates(),
        !dup ==> strs_view(final(seen)@) == strs_view(old(seen)@) + strs_view(items@),
{
    let ghost start = strs_view(seen@);
    let mut i: usize = 0;
    while i < items.len()
        invariant
            i <= items@.len(),
            start == strs_view(old(seen)@),
            strs_view(seen@) == start + strs_view(items@).take(i as int),
            strs_view(seen@).no_duplicates(),
        decreases items@.len() - i,
    {
        let ghost before = strs_view(seen@);
        proof {
            assert(strs_view(items@).take(i + 1) =~= strs_view(items@).take(i as int).push(
                items@[i as int]@,
            ));
            assert(start + strs_view(items@).take(i + 1) =~= before.push(items@[i as int]@));
            lemma_no_duplicates_push(before, items@[i as int]@);
        }
        if crate::pane_layout::strs_contain(seen, items[i].as_str()) {
            proof {
                assert((start + strs_view(items@)).take(start.len() + i + 1) =~= before.push(
                    items@[i as int]@,
                ));
                assert(before.contains(items@[i as int]@));
                assert(!before.push(items@[i as int]@).no_duplicates());
                if (start + strs_view(items@)).no_duplicates() {
                    lemma_no_dup_prefix(start + strs_view(items@), (start.len() + i + 1) as int);
                }
            }
            return true;
        }
        seen.push(items[i].clone());
        assert(strs_view(seen@) =~= before.push(items@[i as int]@));
        i = i + 1;
    }
    assert(strs_view(items@).take(items@.len() as int) =~= strs_view(items@));
    false
}

proof fn lemma_no_dup_prefix(s: Seq<Seq<char>>, n: int)
    requires
        0 <= n <= s.len(),
        s.no_duplicates(),
    ensures
        s.take(n).no_duplicates(),
{
    assert forall|i: int, j: int|
        0 <= i < s.take(n).len() && 0 <= j < s.take(n).len() && i != j implies s.take(n)[i]
        != s.take(n)[j] by {
        assert(s.take(n)[i] == s[i] && s.take(n)[j] == s[j]);
    }
}

proof fn lemma_collected_push(
    ms: Seq<ManifestView>,
    m: ManifestView,
    f: spec_fn(ManifestView) -> Seq<Seq<char>>,
)
    ensures
        collected(ms.push(m), f) == collected(ms, f) + f(m),
{
    assert(ms.push(m).drop_last() =~= ms);
}

/// Checks a batch of group transfers before any window is touched: each
/// manifest must match its layout, and no group, terminal, SFTP handle or
/// backend route may occur twice across the batch.
pub fn validate_transfer_manifests(manifests: &[TransferManifest]) -> (r: Result<(), &'static str>)
    ensures
        r is Ok <==> batch_error(manifest_views(manifests@)) is None,
        r matches Err(e) ==> batch_error(manifest_views(manifests@)) == Some(e@),
{
    let mut group_ids: Vec<String> = Vec::new();
    let mut tab_ids: Vec<String> = Vec::new();
    let mut sftp_ids: Vec<String> = Vec::new();
    let mut route_ids: Vec<String> = Vec::new();
    let mut i: usize = 0;
    while i < manifests.len()
        invariant
            i <= manifests@.len(),
            batch_error(manifest_views(manifests@).take(i as int)) is None,
            strs_view(group_ids@) == collected(manifest_views(manifests@).take(i as int), |x| group_of(x)),
            strs_view(tab_ids@) == collected(manifest_views(manifests@).take(i as int), |x| tabs_of(x)),
            strs_view(sftp_ids@) == collected(manifest_views(manifests@).take(i as int), |x| sftp_of(x)),
            strs_view(route_ids@) == collected(manifest_views(manifests@).take(i as int), |x| routes_of(x)),
            strs_view(group_ids@).no_duplicates(),
            strs_view(tab_ids@).no_duplicates(),
            strs_view(sftp_ids@).no_duplicates(),
            strs_view(route_ids@).no_duplicates(),
        decreases manifests@.len() - i,
    {
        let m = &manifests[i];
        let ghost prev = manifest_views(manifests@).take(i as int);
        proof {
            assert(manifest_views(manifests@).take(i + 1).drop_last() =~= prev);
            assert(manifest_views(manifests@).take(i + 1).last() == m@);
            lemma_collected_push(prev, m@, |x| group_of(x));
            lemma_collected_push(prev, m@, |x| tabs_of(x));
            lemma_collected_push(prev, m@, |x| sftp_of(x));
            lemma_collected_push(prev, m@, |x| routes_of(x));
            assert(manifest_views(manifests@).take(i + 1) =~= prev.push(m@));
        }
        let checked = validate_transfer_manifest(m);
        if checked.is_err() {
            proof {
                lemma_batch_error_prefix(manifest_views(manifests@), i as int + 1);
            }
            return Err("transfer payload does not match the group layout");
        }
        let mut one: Vec<String> = Vec::new();
        one.push(m.group_id.clone());
        assert(strs_view(one@) =~= group_of(m@));
        if insert_all(&mut group_ids, &one) {
            proof {
                lemma_batch_error_prefix(manifest_views(manifests@), i as int + 1);
            }
            return Err("transfer batch contains duplicate groups");
        }
        if insert_all(&mut tab_ids, &m.tab_ids) {
            proof {
                lemma_batch_error_prefix(manifest_views(manifests@), i as int + 1);
            }
            return Err("transfer batch contains duplicate terminals");
        }
        if insert_all(&mut sftp_ids, &m.sftp_handle_ids) {
            proof {
                lemma_batch_error_prefix(manifest_views(manifests@), i as int + 1);
            }
            return Err("transfer batch contains duplicate SFTP handles");
        }
        if insert_all(&mut route_ids, &m.route_ids) {
            proof {
                lemma_batch_error_prefix(manifest_views(manifests@), i as int + 1);
            }
            return Err("transfer batch contains duplicate backend routes");
        }
        i = i + 1;
    }
    assert(manifest_views(manifests@).take(manifests@.len() as int) =~= manifest_views(manifests@));
    Ok(())
}

/// A batch error in a prefix is the error of the whole batch.
proof fn lemma_batch_error_prefix(ms: Seq<ManifestView>, n: int)
    requires
        0 <= n <= ms.len(),
    ensures
        batch_error(ms.take(n)) is Some ==> batch_error(ms) == batch_error(ms.take(n)),
    decreases ms.len() - n,
{
    if n < ms.len() {
        lemma_batch_error_prefix(ms, n + 1);
        assert(ms.take(n + 1).drop_last() =~= ms.take(n));
    } else {
        assert(ms.take(n) =~= ms);
    }
}

/// Checks one manifest against the window receiving it: the manifest must
/// match its layout; when the group is kept as a group its id must be new to
/// the target; and none of its terminals or SFTP handles may already be there.
pub fn validate_transfer_target_manifest(
    transfer: &TransferManifest,
    target: &TransferTargetManifest,
    preserve_group: bool,
) -> (r: Result<(), &'static str>)
    ensures
        r is Ok <==> target_error(transfer@, target@, preserve_group) is None,
        r matches Err(e) ==> target_error(transfer@, target@, preserve_group) == Some(e@),
{
    match validate_transfer_manifest(transfer) {
        Ok(()) => {},
        Err(e) => {
            return Err(e);
        },
    }
    if preserve_group && crate::pane_layout::strs_contain(
        &target.group_ids,
        transfer.group_id.as_str(),
    ) {
        return Err("target already contains this group");
    }
    if strs_any_in(&transfer.tab_ids, &target.tab_ids) {
        return Err("target already contains one of the transferred terminals");
    }
    if strs_any_in(&transfer.sftp_handle_ids, &target.sftp_handle_ids) {
        return Err("target already contains one of the transferred SFTP handles");
    }
    Ok(())
}

/// Checks a batch for a target window: first the batch itself, then each
/// manifest in turn against the target.
pub fn validate_transfer_batch_for_target(
    manifests: &[TransferManifest],
    target: &TransferTargetManifest,
    preserve_groups: bool,
) -> (r: Result<(), &'static str>)
    ensures
        r is Ok <==> (batch_error(manifest_views(manifests@)) is None && first_target_error(
            manifest_views(manifests@),
            target@,
            preserve_groups,
        ) is None),
        r matches Err(e) ==> (batch_error(manifest_views(manifests@)) == Some(e@) || (batch_error(
            manifest_views(manifests@),
        ) is None && first_target_error(manifest_views(manifests@), target@, preserve_groups) == Some(e@))),
{
    match validate_transfer_manifests(manifests) {
        Ok(()) => {},
        Err(e) => {
            return Err(e);
        },
    }
    let mut i: usize = 0;
    assert(manifest_views(manifests@).skip(0) =~= manifest_views(manifests@));
    while i < manifests.len()
        invariant
            i <= manifests@.len(),
            batch_error(manifest_views(manifests@)) is None,
            first_target_error(manifest_views(manifests@), target@, preserve_groups) == first_target_error(
                manifest_views(manifests@).skip(i as int),
                target@,
                preserve_groups,
            ),
        decreases manifests@.len() - i,
    {
        let ghost rest = manifest_views(manifests@).skip(i as int);
        assert(rest[0] == manifests@[i as int]@);
        assert(rest.drop_first() =~= manifest_views(manifests@).skip(i + 1));
        match validate_transfer_target_manifest(&manifests[i], target, preserve_groups) {
            Ok(()) => {},
            Err(e) => {
                assert(first_target_error(rest, target@, preserve_groups) == Some(e@));
                return Err(e);
            },
        }
        i = i + 1;
    }
    Ok(())
}

/// A batch of more than one group always lands as whole groups: only a
/// single group may be docked into a split zone.
pub fn effective_batch_drop_zone(transfer_count: usize, requested: DockZone) -> (r: DockZone)
    ensures
        r == if transfer_count == 1 {
            requested
        } else {
            DockZone::Center
        },
{
    if transfer_count == 1 {
        requested
    } else {
        DockZone::Center
    }
}

/// Checks that `tab_ids` are exactly the panes of `layout`: non-empty, no
/// repeats in either, same ids.
pub fn validate_transfer_layout(layout: &PaneLayout, tab_ids: &[&str]) -> (r: Result<(), &'static str>)
    ensures
        r is Ok <==> tab_set_matches(layout_ids(*layout), tab_ids@.map_values(|s: &str| s@)),
        r matches Err(e) ==> e@ == layout_mismatch_msg(),
{
    let mut ids: Vec<String> = Vec::new();
    let mut i: usize = 0;
    while i < tab_ids.len()
        invariant
            i <= tab_ids@.len(),
            strs_view(ids@) == tab_ids@.map_values(|s: &str| s@).take(i as int),
        decreases tab_ids@.len() - i,
    {
        let ghost before = strs_view(ids@);
        ids.push(crate::text::string_of(tab_ids[i]));
        assert(tab_ids@.map_values(|s: &str| s@)[i as int] == tab_ids@[i as int]@);
        assert(strs_view(ids@) =~= before.push(tab_ids@[i as int]@));
        assert(strs_view(ids@) =~= tab_ids@.map_values(|s: &str| s@).take(i + 1));
        i = i + 1;
    }
    assert(tab_ids@.map_values(|s: &str| s@).take(tab_ids@.len() as int) =~= tab_ids@.map_values(
        |s: &str| s@,
    ));
    let layout_tab_ids = layout.tab_ids();
    if ids.len() == 0 || strs_have_duplicate(&ids) || strs_have_duplicate(&layout_tab_ids)
        || !strs_all_in(&ids, &layout_tab_ids) || !strs_all_in(&layout_tab_ids, &ids) {
        return Err("transfer payload does not match the group layout");
    }
    Ok(())
}

/// `a` is a copy of `b`: same identity, ordinal, title and layout (its
/// splits, orientations, ratios and panes).
pub open spec fn same_group(a: TabGroup, b: TabGroup) -> bool {
    &&& a.id == b.id
    &&& a.drag_id == b.drag_id
    &&& a.ordinal == b.ordinal
    &&& a.title == b.title
    &&& crate::pane_layout::tree_of(a.pane_root) == crate::pane_layout::tree_of(b.pane_root)
    &&& layout_ids(a.pane_root) == layout_ids(b.pane_root)
    &&& crate::pane_layout::well_formed(a.pane_root) == crate::pane_layout::well_formed(b.pane_root)
}

/// `a` is an element-wise copy of `b`.
pub open spec fn same_groups(a: Seq<TabGroup>, b: Seq<TabGroup>) -> bool {
    a.len() == b.len() && forall|i: int| 0 <= i < a.len() ==> same_group(#[trigger] a[i], b[i])
}

/// Groups whose id is in `sel`.
pub open spec fn selected_in(sel: Seq<Seq<char>>) -> spec_fn(TabGroup) -> bool {
    |g: TabGroup| sel.contains(g.id@)
}

/// Groups whose id is not in `sel`.
pub open spec fn unselected_in(sel: Seq<Seq<char>>) -> spec_fn(TabGroup) -> bool {
    |g: TabGroup| !sel.contains(g.id@)
}

/// The groups after moving the selected ones, kept in workspace order, to
/// position `at` among the others.
pub open spec fn reordered(groups: Seq<TabGroup>, sel: Seq<Seq<char>>, at: int) -> Seq<TabGroup> {
    let remaining = groups.filter(unselected_in(sel));
    remaining.take(at) + groups.filter(selected_in(sel)) + remaining.skip(at)
}

/// The result of moving selected tab groups within the tab bar.
pub struct ReorderedTabGroups {
    pub groups: Vec<TabGroup>,
    pub active_group_id: String,
    pub insert_at: usize,
}

/// Copies of the groups of `groups` that `p` accepts, in order.
fn copy_groups_where(groups: &[TabGroup], sel: &Vec<String>, keep_selected: bool) -> (r: Vec<TabGroup>)
    ensures
        same_groups(
            r@,
            groups@.filter(
                if keep_selected {
                    selected_in(strs_view(sel@))
                } else {
                    unselected_in(strs_view(sel@))
                },
            ),
        ),
{
    let ghost p = if keep_selected {
        selected_in(strs_view(sel@))
    } else {
        unselected_in(strs_view(sel@))
    };
    let mut out: Vec<TabGroup> = Vec::new();
    let mut i: usize = 0;
    while i < groups.len()
        invariant
            i <= groups@.len(),
            p == if keep_selected {
                selected_in(strs_view(sel@))
            } else {
                unselected_in(strs_view(sel@))
            },
            same_groups(out@, groups@.take(i as int).filter(p)),
        decreases groups@.len() - i,
    {
        proof {
            lemma_filter_take_step(groups@, p, i as int);
        }
        let is_sel = crate::pane_layout::strs_contain(sel, groups[i].id.as_str());
        if is_sel == keep_selected {
            let ghost before = out@;
            out.push(groups[i].duplicate());
            assert(same_groups(out@, groups@.take(i as int).filter(p).push(groups@[i as int]))) by {
                assert forall|k: int| 0 <= k < out@.len() implies same_group(
                    #[trigger] out@[k],
                    groups@.take(i as int).filter(p).push(groups@[i as int])[k],
                ) by {
                    if k < before.len() {
                        assert(out@[k] == before[k]);
                    }
                }
            }
        }
        i = i + 1;
    }
    assert(groups@.take(groups@.len() as int) =~= groups@);
    out
}

/// Moves the groups named in `selected_group_ids` to position `index` among
/// the remaining groups, keeping their workspace order; the first moved group
/// becomes active. `None` when nothing is selected or no group matches.
pub fn reorder_tab_groups(groups: &[TabGroup], selected_group_ids: &[String], index: usize) -> (r:
    Option<ReorderedTabGroups>)
    ensures
        ({
            let sel = strs_view(selected_group_ids@);
            let moving = groups@.filter(selected_in(sel));
            let remaining = groups@.filter(unselected_in(sel));
            &&& r is None <==> (sel.len() == 0 || moving.len() == 0)
            &&& r matches Some(x) ==> {
                &&& x.insert_at == if index < remaining.len() {
                    index as int
                } else {
                    remaining.len() as int
                }
                &&& x.active_group_id == moving[0].id
                &&& same_groups(x.groups@, reordered(groups@, sel, x.insert_at as int))
            }
        }),
{
    let sel = crate::terminal_workspace::slice_strings(selected_group_ids);
    if sel.len() == 0 {
        return None;
    }
    let mut moving = copy_groups_where(groups, &sel, true);
    if moving.len() == 0 {
        return None;
    }
    let active_group_id = moving[0].id.clone();
    let mut remaining = copy_groups_where(groups, &sel, false);
    let insert_at = if index < remaining.len() {
        index
    } else {
        remaining.len()
    };
    let ghost rem = remaining@;
    let ghost mov = moving@;
    let mut tail = remaining.split_off(insert_at);
    remaining.append(&mut moving);
    remaining.append(&mut tail);
    proof {
        let sv = strs_view(selected_group_ids@);
        let exp = reordered(groups@, sv, insert_at as int);
        let erem = groups@.filter(unselected_in(sv));
        let emov = groups@.filter(selected_in(sv));
        assert(remaining@ =~= rem.take(insert_at as int) + mov + rem.skip(insert_at as int));
        assert forall|k: int| 0 <= k < remaining@.len() implies same_group(
            #[trigger] remaining@[k],
            exp[k],
        ) by {
            if k < insert_at {
                assert(remaining@[k] == rem[k]);
                assert(exp[k] == erem[k]);
            } else if k < insert_at + mov.len() {
                assert(remaining@[k] == mov[k - insert_at]);
                assert(exp[k] == emov[k - insert_at]);
            } else {
                assert(remaining@[k] == rem[k - mov.len()]);
                assert(exp[k] == erem[k - mov.len()]);
            }
        }
    }
    Some(ReorderedTabGroups { groups: remaining, active_group_id, insert_at })
}

/// A tab group taken out of a window, with everything that moves with it.
///
/// The source keeps this value until the target commits; when validation or
/// window creation fails it is put back as it was. The SFTP handles travel
/// by id.
#[derive(Debug)]
pub struct GroupTransfer {
    pub group: TabGroup,
    pub group_index: usize,
    /// The group's terminal tabs, each with its former position in the tab list.
    pub tabs: Vec<(usize, TerminalTab)>,
    pub sftp_handle_ids: Vec<String>,
    pub route_ids: Vec<String>,
    pub active_tab: Option<String>,
    pub system_info_tabs: Vec<SystemInfoTab>,
    pub active_system_info_tab: Option<String>,
    pub was_active_group: bool,
}

/// The ids of the terminal tabs of a transfer, in order.
pub open spec fn transfer_tab_ids(tabs: Seq<(usize, TerminalTab)>) -> Seq<Seq<char>> {
    tabs.map_values(|p: (usize, TerminalTab)| p.1.id@)
}

impl GroupTransfer {
    /// The ids this transfer carries.
    pub fn manifest(&self) -> (r: TransferManifest)
        ensures
            r.group_id == self.group.id,
            strs_view(r.layout_tab_ids@) == layout_ids(self.group.pane_root),
            strs_view(r.tab_ids@) == transfer_tab_ids(self.tabs@),
            r.sftp_handle_ids@ == self.sftp_handle_ids@,
            r.route_ids@ == self.route_ids@,
    {
        TransferManifest {
            group_id: self.group.id.clone(),
            layout_tab_ids: self.group.pane_root.tab_ids(),
            tab_ids: self.tab_ids(),
            sftp_handle_ids: strs_clone(&self.sftp_handle_ids),
            route_ids: strs_clone(&self.route_ids),
        }
    }

    /// The ids of the transferred terminal tabs, in order.
    pub fn tab_ids(&self) -> (r: Vec<String>)
        ensures
            strs_view(r@) == transfer_tab_ids(self.tabs@),
    {
        let mut ids: Vec<String> = Vec::new();
        let mut i: usize = 0;
        while i < self.tabs.len()
            invariant
                i <= self.tabs@.len(),
                strs_view(ids@) == transfer_tab_ids(self.tabs@).take(i as int),
            decreases self.tabs@.len() - i,
        {
            let ghost before = strs_view(ids@);
            ids.push(self.tabs[i].1.id.clone());
            assert(transfer_tab_ids(self.tabs@)[i as int] == self.tabs@[i as int].1.id@);
            assert(strs_view(ids@) =~= before.push(self.tabs@[i as int].1.id@));
            assert(transfer_tab_ids(self.tabs@).take(i + 1) =~= before.push(
                self.tabs@[i as int].1.id@,
            ));
            i = i + 1;
        }
        assert(transfer_tab_ids(self.tabs@).take(self.tabs@.len() as int) =~= transfer_tab_ids(
            self.tabs@,
        ));
        ids
    }

    /// The tab to activate once the group lands: the tab that was active if
    /// it is a pane of the group and was moved, else the first such pane.
    pub fn chosen_active_tab(&self) -> (r: Option<String>)
        ensures
            r matches Some(x) ==> chosen_active_tab(
                match self.active_tab {
                    Some(a) => Some(a@),
                    None => None,
                },
                layout_ids(self.group.pane_root),
                transfer_tab_ids(self.tabs@),
            ) == Some(x@),
            r is None ==> chosen_active_tab(
                match self.active_tab {
                    Some(a) => Some(a@),
                    None => None,
                },
                layout_ids(self.group.pane_root),
                transfer_tab_ids(self.tabs@),
            ) is None,
    {
        let valid_tab_ids = self.tab_ids();
        let active = match &self.active_tab {
            Some(a) => Some(a.as_str()),
            None => None,
        };
        choose_transfer_active_tab(active, &self.group.pane_root, valid_tab_ids.as_slice())
    }
}

/// The ids a transfer carries, as its manifest lists them.
pub open spec fn transfer_view(t: GroupTransfer) -> ManifestView {
    ManifestView {
        group_id: t.group.id@,
        layout_tab_ids: layout_ids(t.group.pane_root),
        tab_ids: transfer_tab_ids(t.tabs@),
        sftp_handle_ids: strs_view(t.sftp_handle_ids@),
        route_ids: strs_view(t.route_ids@),
    }
}

/// Checks a batch of group transfers: see `validate_transfer_manifests`.
pub fn validate_transfer_batch(transfers: &[GroupTransfer]) -> (r: Result<(), &'static str>)
    ensures
        r is Ok <==> batch_error(transfers@.map_values(|t: GroupTransfer| transfer_view(t))) is None,
        r matches Err(e) ==> batch_error(transfers@.map_values(|t: GroupTransfer| transfer_view(t)))
            == Some(e@),
{
    let mut manifests: Vec<TransferManifest> = Vec::new();
    let mut i: usize = 0;
    while i < transfers.len()
        invariant
            i <= transfers@.len(),
            manifests@.len() == i,
            forall|k: int| 0 <= k < i ==> (#[trigger] manifests@[k])@ == transfer_view(transfers@[k]),
        decreases transfers@.len() - i,
    {
        let m = transfers[i].manifest();
        assert(m@ == transfer_view(transfers@[i as int]));
        manifests.push(m);
        i = i + 1;
    }
    assert(manifest_views(manifests@) =~= transfers@.map_values(|t: GroupTransfer| transfer_view(t)));
    validate_transfer_manifests(manifests.as_slice())
}

/// The selected and the other groups of a sequence together hold each group
/// as often as the sequence does.
proof fn lemma_partition_multiset(groups: Seq<TabGroup>, sel: Seq<Seq<char>>)
    ensures
        groups.filter(selected_in(sel)).to_multiset().add(
            groups.filter(unselected_in(sel)).to_multiset(),
        ) =~= groups.to_multiset(),
    decreases groups.len(),
{
    broadcast use vstd::multiset::group_multiset_axioms;

    if groups.len() == 0 {
        assert(groups.filter(selected_in(sel)) =~= seq![]);
        assert(groups.filter(unselected_in(sel)) =~= seq![]);
        groups.to_multiset_ensures();
        groups.filter(selected_in(sel)).to_multiset_ensures();
        groups.filter(unselected_in(sel)).to_multiset_ensures();
        vstd::multiset::lemma_multiset_empty_len(groups.to_multiset());
        vstd::multiset::lemma_multiset_empty_len(groups.filter(selected_in(sel)).to_multiset());
        vstd::multiset::lemma_multiset_empty_len(groups.filter(unselected_in(sel)).to_multiset());
    } else {
        let s = groups.drop_last();
        let x = groups.last();
        assert(s.push(x) =~= groups);
        lemma_partition_multiset(s, sel);
        crate::seq_util::lemma_filter_push(s, selected_in(sel), x);
        crate::seq_util::lemma_filter_push(s, unselected_in(sel), x);
        let a = s.filter(selected_in(sel));
        let b = s.filter(unselected_in(sel));
        s.to_multiset_ensures();
        a.to_multiset_ensures();
        b.to_multiset_ensures();
        assert(groups.to_multiset() =~= s.to_multiset().insert(x));
        if selected_in(sel)(x) {
            assert(groups.filter(selected_in(sel)) == a.push(x));
            assert(groups.filter(unselected_in(sel)) == b);
            assert(a.push(x).to_multiset() =~= a.to_multiset().insert(x));
            assert(a.to_multiset().insert(x).add(b.to_multiset()) =~= a.to_multiset().add(
                b.to_multiset(),
            ).insert(x));
        } else {
            assert(groups.filter(selected_in(sel)) == a);
            assert(groups.filter(unselected_in(sel)) == b.push(x));
            assert(b.push(x).to_multiset() =~= b.to_multiset().insert(x));
            assert(a.to_multiset().add(b.to_multiset().insert(x)) =~= a.to_multiset().add(
                b.to_multiset(),
            ).insert(x));
        }
    }
}

/// Reordering moves groups but never loses or repeats one: the reordered
/// groups are the groups given, each as often as before.
pub proof fn reorder_keeps_every_group(groups: Seq<TabGroup>, sel: Seq<Seq<char>>, at: int)
    requires
        0 <= at <= groups.filter(unselected_in(sel)).len(),
    ensures
        reordered(groups, sel, at).to_multiset() =~= groups.to_multiset(),
{
    broadcast use vstd::multiset::group_multiset_axioms;

    let remaining = groups.filter(unselected_in(sel));
    let moving = groups.filter(selected_in(sel));
    vstd::seq_lib::lemma_multiset_commutative(remaining.take(at) + moving, remaining.skip(at));
    vstd::seq_lib::lemma_multiset_commutative(remaining.take(at), moving);
    vstd::seq_lib::lemma_multiset_commutative(remaining.take(at), remaining.skip(at));
    assert(remaining.take(at) + remaining.skip(at) =~= remaining);
    lemma_partition_multiset(groups, sel);
}

/// A batch passes the target check exactly when every manifest of it does:
/// no conflict with the target is left for the commit to find.
pub proof fn target_check_covers_every_manifest(
    ms: Seq<ManifestView>,
    target: TargetView,
    preserve: bool,
)
    ensures
        first_target_error(ms, target, preserve) is None <==> forall|i: int|
            0 <= i < ms.len() ==> target_error(#[trigger] ms[i], target, preserve) is None,
    decreases ms.len(),
{
    if ms.len() > 0 {
        target_check_covers_every_manifest(ms.drop_first(), target, preserve);
        if first_target_error(ms, target, preserve) is None {
            assert forall|i: int| 0 <= i < ms.len() implies target_error(
                #[trigger] ms[i],
                target,
                preserve,
            ) is None by {
                if i > 0 {
                    assert(ms[i] == ms.drop_first()[i - 1]);
                }
            }
        } else if target_error(ms[0], target, preserve) is None {
            let rest = ms.drop_first();
            let k = choose|k: int| 0 <= k < rest.len() && target_error(#[trigger] rest[k], target, preserve) is Some;
            assert(ms[k + 1] == rest[k]);
        }
    }
}

/// Removing the first occurrence of a present id removes one copy of it.
proof fn lemma_remove_first_multiset(s: Seq<Seq<char>>, x: Seq<char>)
    requires
        s.contains(x),
    ensures
        remove_first(s, x).to_multiset() =~= s.to_multiset().remove(x),
    decreases s.len(),
{
    broadcast use vstd::multiset::group_multiset_axioms;
    broadcast use vstd::seq_lib::group_to_multiset_ensures;

    assert(seq![s[0]] + s.drop_first() =~= s);
    vstd::seq_lib::lemma_multiset_commutative(seq![s[0]], s.drop_first());
    assert(seq![s[0]] =~= Seq::<Seq<char>>::empty().push(s[0]));
    if s[0] == x {
    } else {
        let k = choose|k: int| 0 <= k < s.len() && s[k] == x;
        assert(s.drop_first()[k - 1] == x);
        lemma_remove_first_multiset(s.drop_first(), x);
        vstd::seq_lib::lemma_multiset_commutative(seq![s[0]], remove_first(s.drop_first(), x));
    }
}

/// Replacing the first occurrence of a present id by `w` swaps one copy of
/// it for the ids of `w`.
proof fn lemma_replace_first_multiset(s: Seq<Seq<char>>, x: Seq<char>, w: Seq<Seq<char>>)
    requires
        s.contains(x),
    ensures
        replace_first(s, x, w).to_multiset() =~= s.to_multiset().remove(x).add(w.to_multiset()),
    decreases s.len(),
{
    broadcast use vstd::multiset::group_multiset_axioms;
    broadcast use vstd::seq_lib::group_to_multiset_ensures;

    assert(seq![s[0]] + s.drop_first() =~= s);
    vstd::seq_lib::lemma_multiset_commutative(seq![s[0]], s.drop_first());
    assert(seq![s[0]] =~= Seq::<Seq<char>>::empty().push(s[0]));
    if s[0] == x {
        vstd::seq_lib::lemma_multiset_commutative(w, s.drop_first());
    } else {
        let k = choose|k: int| 0 <= k < s.len() && s[k] == x;
        assert(s.drop_first()[k - 1] == x);
        lemma_replace_first_multiset(s.drop_first(), x, w);
        vstd::seq_lib::lemma_multiset_commutative(seq![s[0]], replace_first(s.drop_first(), x, w));
    }
}

/// Docking a pane next to another moves it without losing or copying any
/// pane: the layout afterwards holds the same tab ids, each as often as
/// before.
pub proof fn docking_keeps_every_pane(
    ids: Seq<Seq<char>>,
    source: Seq<char>,
    target: Seq<char>,
    zone: DockZone,
)
    requires
        source != target,
        ids.contains(source),
        ids.contains(target),
    ensures
        replace_first(
            remove_first(ids, source),
            target,
            docked_ids(seq![source], seq![target], zone),
        ).to_multiset() =~= ids.to_multiset(),
{
    broadcast use vstd::multiset::group_multiset_axioms;
    broadcast use vstd::seq_lib::group_to_multiset_ensures;

    crate::pane_layout::lemma_remove_first_keeps_other(ids, source, target);
    lemma_remove_first_multiset(ids, source);
    let rest = remove_first(ids, source);
    let w = docked_ids(seq![source], seq![target], zone);
    lemma_replace_first_multiset(rest, target, w);
    vstd::seq_lib::lemma_multiset_commutative(seq![source], seq![target]);
    assert(seq![source] =~= Seq::<Seq<char>>::empty().push(source));
    assert(seq![target] =~= Seq::<Seq<char>>::empty().push(target));
    assert(w.to_multiset() =~= vstd::multiset::Multiset::empty().insert(source).insert(target)) by {
        vstd::seq_lib::lemma_multiset_commutative(seq![target], seq![source]);
    }
}

} // verus!
