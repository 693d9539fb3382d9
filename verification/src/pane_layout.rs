//! The split-pane tree of a tab group.
use vstd::prelude::*;

use crate::text::str_eq;

verus! {

/// The ratio `0.5` of a fresh split, as the bits of an `f32`.
pub const EVEN_SPLIT_RATIO_BITS: u32 = 0x3f00_0000u32;

/// The panes of a tab group: a tree whose leaves are terminal tab ids.
///
/// `Horizontal` stacks its children top to bottom, `Vertical` places them left
/// to right. The second field of a split is the size ratio of its first
/// child, kept as the bits of an `f32`; the logic here only carries it.
#[derive(Debug)]
pub enum PaneLayout {
    Empty,
    Single(String),
    Horizontal(Vec<PaneLayout>, u32),
    Vertical(Vec<PaneLayout>, u32),
}

/// The tab ids of a layout, left to right.
pub open spec fn layout_ids(l: PaneLayout) -> Seq<Seq<char>>
    decreases l,
{
    match l {
        PaneLayout::Empty => seq![],
        PaneLayout::Single(id) => seq![id@],
        PaneLayout::Horizontal(children, _) => children_ids(children@),
        PaneLayout::Vertical(children, _) => children_ids(children@),
    }
}

/// The tab ids of a sequence of layouts, in order.
pub open spec fn children_ids(c: Seq<PaneLayout>) -> Seq<Seq<char>>
    decreases c,
{
    if c.len() == 0 {
        seq![]
    } else {
        children_ids(c.drop_last()) + layout_ids(c.last())
    }
}

/// A pane layout as a plain value: its splits, orientations, ratios and
/// tab ids, in order.
pub enum LayoutTree {
    Empty,
    Single(Seq<char>),
    Horizontal(Seq<LayoutTree>, u32),
    Vertical(Seq<LayoutTree>, u32),
}

/// The whole of layout `l` as a plain value: two layouts with the same tree
/// have the same splits, orientations, ratios and panes.
pub open spec fn tree_of(l: PaneLayout) -> LayoutTree
    decreases l,
{
    match l {
        PaneLayout::Empty => LayoutTree::Empty,
        PaneLayout::Single(id) => LayoutTree::Single(id@),
        PaneLayout::Horizontal(children, ratio) => LayoutTree::Horizontal(trees_of(children@), ratio),
        PaneLayout::Vertical(children, ratio) => LayoutTree::Vertical(trees_of(children@), ratio),
    }
}

/// The trees of a sequence of layouts, in order.
pub open spec fn trees_of(c: Seq<PaneLayout>) -> Seq<LayoutTree>
    decreases c,
{
    if c.len() == 0 {
        seq![]
    } else {
        trees_of(c.drop_last()).push(tree_of(c.last()))
    }
}

/// The tab ids of a tree, left to right.
pub open spec fn tree_ids(t: LayoutTree) -> Seq<Seq<char>>
    decreases t,
{
    match t {
        LayoutTree::Empty => seq![],
        LayoutTree::Single(id) => seq![id],
        LayoutTree::Horizontal(children, _) => forest_ids(children),
        LayoutTree::Vertical(children, _) => forest_ids(children),
    }
}

/// The tab ids of a sequence of trees, in order.
pub open spec fn forest_ids(c: Seq<LayoutTree>) -> Seq<Seq<char>>
    decreases c,
{
    if c.len() == 0 {
        seq![]
    } else {
        forest_ids(c.drop_last()) + tree_ids(c.last())
    }
}

/// Trees showing pane `id`.
pub open spec fn shows(id: Seq<char>) -> spec_fn(LayoutTree) -> bool {
    |t: LayoutTree| tree_ids(t).contains(id)
}

/// Every split of the tree has at least one child.
pub open spec fn tree_wf(t: LayoutTree) -> bool
    decreases t,
{
    match t {
        LayoutTree::Horizontal(children, _) => children.len() > 0 && forest_wf(children),
        LayoutTree::Vertical(children, _) => children.len() > 0 && forest_wf(children),
        _ => true,
    }
}

/// Every tree of `c` is well formed.
pub open spec fn forest_wf(c: Seq<LayoutTree>) -> bool
    decreases c,
{
    if c.len() == 0 {
        true
    } else {
        forest_wf(c.drop_last()) && tree_wf(c.last())
    }
}

/// The tree of a layout has the layout's ids and is well formed exactly
/// when the layout is.
pub proof fn lemma_tree_of(l: PaneLayout)
    ensures
        tree_ids(tree_of(l)) == layout_ids(l),
        tree_wf(tree_of(l)) == well_formed(l),
    decreases l,
{
    match l {
        PaneLayout::Horizontal(children, _) => {
            lemma_trees_of(children@, l);
        },
        PaneLayout::Vertical(children, _) => {
            lemma_trees_of(children@, l);
        },
        _ => {},
    }
}

proof fn lemma_trees_of(c: Seq<PaneLayout>, parent: PaneLayout)
    requires
        forall|k: int| 0 <= k < c.len() ==> decreases_to!(parent => #[trigger] c[k]),
    ensures
        trees_of(c).len() == c.len(),
        forest_ids(trees_of(c)) == children_ids(c),
        forest_wf(trees_of(c)) == children_well_formed(c),
    decreases parent, c.len(),
{
    if c.len() > 0 {
        assert(decreases_to!(parent => c[c.len() - 1]));
        lemma_tree_of(c.last());
        lemma_trees_of(c.drop_last(), parent);
        assert(trees_of(c).drop_last() =~= trees_of(c.drop_last()));
    }
}

/// The trees of two layouts side by side.
pub proof fn lemma_trees_of_pair(a: PaneLayout, b: PaneLayout)
    ensures
        trees_of(seq![a, b]) == seq![tree_of(a), tree_of(b)],
{
    assert(seq![a, b].drop_last() =~= seq![a]);
    assert(seq![a].drop_last() =~= Seq::<PaneLayout>::empty());
    assert(seq![a].last() == a);
    assert(seq![a, b].last() == b);
    assert(trees_of(Seq::<PaneLayout>::empty()) =~= Seq::<LayoutTree>::empty());
    assert(trees_of(seq![a]) =~= seq![tree_of(a)]);
    assert(trees_of(seq![a, b]) =~= seq![tree_of(a), tree_of(b)]);
}

/// The views of a sequence of strings.
pub open spec fn strs_view(v: Seq<String>) -> Seq<Seq<char>> {
    v.map_values(|s: String| s@)
}

/// Ids equal to `id`.
pub open spec fn is_id(id: Seq<char>) -> spec_fn(Seq<char>) -> bool {
    |x: Seq<char>| x == id
}

impl PaneLayout {
    /// The tab ids of this layout, left to right.
    pub open spec fn ids(&self) -> Seq<Seq<char>> {
        layout_ids(*self)
    }

    /// The tab ids of this layout, left to right.
    pub fn tab_ids(&self) -> (r: Vec<String>)
        ensures
            strs_view(r@) == layout_ids(*self),
        decreases self,
    {
        match self {
            PaneLayout::Empty => Vec::new(),
            PaneLayout::Single(id) => {
                let mut v: Vec<String> = Vec::new();
                v.push(id.clone());
                assert(strs_view(v@) =~= seq![id@]);
                v
            },
            PaneLayout::Horizontal(children, _) => children_tab_ids(children),
            PaneLayout::Vertical(children, _) => children_tab_ids(children),
        }
    }
}

/// The tab ids of `children`, in order.
fn children_tab_ids(children: &Vec<PaneLayout>) -> (r: Vec<String>)
    ensures
        strs_view(r@) == children_ids(children@),
    decreases children,
{
    let mut out: Vec<String> = Vec::new();
    let mut i: usize = 0;
    while i < children.len()
        invariant
            i <= children@.len(),
            strs_view(out@) == children_ids(children@.take(i as int)),
        decreases children@.len() - i,
    {
        assert(decreases_to!(children => children@[i as int]));
        let mut sub = children[i].tab_ids();
        let ghost before = out@;
        out.append(&mut sub);
        assert(children@.take(i + 1).drop_last() =~= children@.take(i as int));
        assert(strs_view(out@) =~= strs_view(before) + layout_ids(children@[i as int]));
        i = i + 1;
    }
    assert(children@.take(children@.len() as int) =~= children@);
    out
}

/// `s` without the first occurrence of `x`.
pub open spec fn remove_first(s: Seq<Seq<char>>, x: Seq<char>) -> Seq<Seq<char>>
    decreases s.len(),
{
    if s.len() == 0 {
        s
    } else if s[0] == x {
        s.drop_first()
    } else {
        seq![s[0]] + remove_first(s.drop_first(), x)
    }
}

/// Removing a tab that the layout does not hold leaves its tabs as they
/// were; removing one it holds drops exactly one entry.
pub proof fn removing_missing_tab_keeps_ids(s: Seq<Seq<char>>, x: Seq<char>)
    ensures
        !s.contains(x) ==> remove_first(s, x) == s,
        s.contains(x) ==> remove_first(s, x).len() + 1 == s.len(),
    decreases s.len(),
{
    if s.len() > 0 {
        removing_missing_tab_keeps_ids(s.drop_first(), x);
        if s[0] != x {
            if !s.contains(x) {
                assert(!s.drop_first().contains(x)) by {
                    if s.drop_first().contains(x) {
                        let k = choose|k: int| 0 <= k < s.drop_first().len() && s.drop_first()[k] == x;
                        assert(s[k + 1] == x);
                    }
                }
                assert(seq![s[0]] + s.drop_first() =~= s);
            } else {
                let k = choose|k: int| 0 <= k < s.len() && s[k] == x;
                assert(s.drop_first()[k - 1] == x);
            }
        }
    }
}

pub proof fn lemma_remove_first_keeps_other(s: Seq<Seq<char>>, x: Seq<char>, y: Seq<char>)
    requires
        x != y,
        s.contains(y),
    ensures
        remove_first(s, x).contains(y),
    decreases s.len(),
{
    let j = choose|j: int| 0 <= j < s.len() && s[j] == y;
    if s[0] == x {
        assert(j > 0);
        assert(s.drop_first()[j - 1] == y);
    } else if s[0] == y {
        assert((seq![s[0]] + remove_first(s.drop_first(), x))[0] == y);
    } else {
        assert(s.drop_first()[j - 1] == y);
        lemma_remove_first_keeps_other(s.drop_first(), x, y);
        let i = choose|i: int|
            0 <= i < remove_first(s.drop_first(), x).len() && remove_first(s.drop_first(), x)[i]
                == y;
        assert((seq![s[0]] + remove_first(s.drop_first(), x))[i + 1] == y);
    }
}

pub proof fn lemma_remove_first_absent(s: Seq<Seq<char>>, x: Seq<char>)
    requires
        !s.contains(x),
    ensures
        remove_first(s, x) == s,
    decreases s.len(),
{
    if s.len() > 0 {
        assert(s[0] != x) by {
            assert(s.contains(s[0]));
        }
        assert forall|y: Seq<char>| s.drop_first().contains(y) implies s.contains(y) by {
            let j = choose|j: int| 0 <= j < s.drop_first().len() && s.drop_first()[j] == y;
            assert(s[j + 1] == y);
        }
        lemma_remove_first_absent(s.drop_first(), x);
        assert(seq![s[0]] + s.drop_first() =~= s);
    }
}

pub proof fn lemma_remove_first_concat(a: Seq<Seq<char>>, b: Seq<Seq<char>>, x: Seq<char>)
    ensures
        remove_first(a + b, x) == if a.contains(x) {
            remove_first(a, x) + b
        } else {
            a + remove_first(b, x)
        },
    decreases a.len(),
{
    if a.len() == 0 {
        assert(a + b =~= b);
        assert(!a.contains(x));
    } else {
        assert((a + b).drop_first() =~= a.drop_first() + b);
        assert((a + b)[0] == a[0]);
        lemma_remove_first_concat(a.drop_first(), b, x);
        assert(a.contains(x) <==> (a[0] == x || a.drop_first().contains(x))) by {
            if a.contains(x) && a[0] != x {
                let j = choose|j: int| 0 <= j < a.len() && a[j] == x;
                assert(a.drop_first()[j - 1] == x);
            }
            if a.drop_first().contains(x) {
                let j = choose|j: int| 0 <= j < a.drop_first().len() && a.drop_first()[j] == x;
                assert(a[j + 1] == x);
            }
            if a[0] == x {
                assert(a.contains(a[0]));
            }
        }
        if a[0] != x {
            if a.drop_first().contains(x) {
                assert(seq![a[0]] + (remove_first(a.drop_first(), x) + b) =~= (seq![a[0]]
                    + remove_first(a.drop_first(), x)) + b);
            } else {
                assert(seq![a[0]] + (a.drop_first() + remove_first(b, x)) =~= a + remove_first(
                    b,
                    x,
                ));
            }
        }
    }
}

pub proof fn lemma_children_ids_concat(a: Seq<PaneLayout>, b: Seq<PaneLayout>)
    ensures
        children_ids(a + b) == children_ids(a) + children_ids(b),
    decreases b.len(),
{
    if b.len() == 0 {
        assert(a + b =~= a);
        assert(children_ids(a) + children_ids(b) =~= children_ids(a));
    } else {
        assert((a + b).drop_last() =~= a + b.drop_last());
        lemma_children_ids_concat(a, b.drop_last());
        assert(children_ids(a) + children_ids(b.drop_last()) + layout_ids(b.last()) =~= children_ids(
            a,
        ) + (children_ids(b.drop_last()) + layout_ids(b.last())));
    }
}

pub proof fn lemma_children_ids_single(x: PaneLayout)
    ensures
        children_ids(seq![x]) == layout_ids(x),
{
    assert(seq![x].drop_last() =~= Seq::<PaneLayout>::empty());
    assert(children_ids(Seq::<PaneLayout>::empty()) + layout_ids(x) =~= layout_ids(x));
}

pub proof fn lemma_children_ids_push(s: Seq<PaneLayout>, x: PaneLayout)
    ensures
        children_ids(s.push(x)) == children_ids(s) + layout_ids(x),
{
    assert(s.push(x).drop_last() =~= s);
}

pub proof fn lemma_children_ids_cons(x: PaneLayout, s: Seq<PaneLayout>)
    ensures
        children_ids(seq![x] + s) == layout_ids(x) + children_ids(s),
{
    lemma_children_ids_concat(seq![x], s);
    lemma_children_ids_single(x);
}

/// Trees that are not empty.
pub open spec fn nonempty_tree() -> spec_fn(LayoutTree) -> bool {
    |t: LayoutTree| !(t is Empty)
}

/// A split of orientation `horizontal` and ratio `ratio` over `c` once a
/// pane left it: empty children are dropped, a split left with one child
/// becomes that child and one left with none becomes empty.
pub open spec fn collapsed(c: Seq<LayoutTree>, ratio: u32, horizontal: bool) -> LayoutTree {
    let kept = c.filter(nonempty_tree());
    if kept.len() == 0 {
        LayoutTree::Empty
    } else if kept.len() == 1 {
        kept[0]
    } else if horizontal {
        LayoutTree::Horizontal(kept, ratio)
    } else {
        LayoutTree::Vertical(kept, ratio)
    }
}

/// Tree `t` with its first pane for `id` removed: the splits on the way to
/// it collapse as `collapsed` says, everything else stays as it was; `t`
/// itself when no pane shows `id`.
pub open spec fn tree_without(t: LayoutTree, id: Seq<char>) -> LayoutTree
    decreases t,
{
    match t {
        LayoutTree::Single(x) => if x == id {
            LayoutTree::Empty
        } else {
            t
        },
        LayoutTree::Horizontal(c, ratio) => match crate::seq_util::first_index(c, shows(id)) {
            Some(k) => {
                proof {
                    crate::seq_util::lemma_first_index_sound(c, shows(id));
                }
                collapsed(c.update(k, tree_without(c[k], id)), ratio, true)
            },
            None => t,
        },
        LayoutTree::Vertical(c, ratio) => match crate::seq_util::first_index(c, shows(id)) {
            Some(k) => {
                proof {
                    crate::seq_util::lemma_first_index_sound(c, shows(id));
                }
                collapsed(c.update(k, tree_without(c[k], id)), ratio, false)
            },
            None => t,
        },
        LayoutTree::Empty => t,
    }
}

/// The layout with its first leaf for `id` removed, splits left with one
/// child collapsed into that child and splits left with none made empty.
fn without_tab(l: PaneLayout, id: &str) -> (r: (PaneLayout, bool))
    ensures
        r.1 == layout_ids(l).contains(id@),
        layout_ids(r.0) == remove_first(layout_ids(l), id@),
        well_formed(l) ==> well_formed(r.0),
        tree_of(r.0) == tree_without(tree_of(l), id@),
        !r.1 ==> tree_of(r.0) == tree_of(l),
    decreases l,
{
    match l {
        PaneLayout::Empty => {
            proof {
                lemma_remove_first_absent(seq![], id@);
            }
            (PaneLayout::Empty, false)
        },
        PaneLayout::Single(x) => {
            if str_eq(x.as_str(), id) {
                assert(seq![x@].contains(x@)) by {
                    assert(seq![x@][0] == x@);
                }
                assert(seq![x@].drop_first() =~= Seq::<Seq<char>>::empty());
                (PaneLayout::Empty, true)
            } else {
                assert(!seq![x@].contains(id@)) by {
                    if seq![x@].contains(id@) {
                        let j = choose|j: int| 0 <= j < 1 && seq![x@][j] == id@;
                        assert(seq![x@][j] == x@);
                    }
                }
                proof {
                    lemma_remove_first_absent(seq![x@], id@);
                }
                (PaneLayout::Single(x), false)
            }
        },
        PaneLayout::Horizontal(children, ratio) => {
            assert(forall|k: int|
                0 <= k < children@.len() ==> decreases_to!(l => #[trigger] children@[k]));
            let ghost orig = children@;
            let (kept, removed) = children_without_tab(children, id, Ghost(l));
            assert(tree_of(l) == LayoutTree::Horizontal(trees_of(orig), ratio));
            (finish_removal(kept, ratio, true, removed), removed)
        },
        PaneLayout::Vertical(children, ratio) => {
            assert(forall|k: int|
                0 <= k < children@.len() ==> decreases_to!(l => #[trigger] children@[k]));
            let ghost orig = children@;
            let (kept, removed) = children_without_tab(children, id, Ghost(l));
            assert(tree_of(l) == LayoutTree::Vertical(trees_of(orig), ratio));
            (finish_removal(kept, ratio, false, removed), removed)
        },
    }
}

/// `children` with the first leaf for `id` removed from the first child that
/// holds one.
fn children_without_tab(children: Vec<PaneLayout>, id: &str, Ghost(parent): Ghost<PaneLayout>) -> (r: (
    Vec<PaneLayout>,
    bool,
))
    requires
        forall|k: int|
            0 <= k < children@.len() ==> decreases_to!(parent => #[trigger] children@[k]),
    ensures
        r.1 == children_ids(children@).contains(id@),
        children_ids(r.0@) == remove_first(children_ids(children@), id@),
        r.0@.len() == children@.len(),
        children_well_formed(children@) ==> children_well_formed(r.0@),
        r.1 ==> (crate::seq_util::first_index(trees_of(children@), shows(id@)) matches Some(d)
            && trees_of(r.0@) == trees_of(children@).update(
            d,
            tree_without(trees_of(children@)[d], id@),
        )),
        !r.1 ==> crate::seq_util::first_index(trees_of(children@), shows(id@)) is None
            && trees_of(r.0@) == trees_of(children@),
    decreases parent, 0nat,
{
    let ghost orig = children@;
    let mut rest = children;
    let mut out: Vec<PaneLayout> = Vec::new();
    let mut removed = false;
    let ghost mut k: int = 0;
    let ghost mut dk: int = 0;
    proof {
        assert(orig.skip(0) =~= orig);
        assert(children_ids(out@) =~= Seq::<Seq<char>>::empty());
        assert(orig.take(0) =~= Seq::<PaneLayout>::empty());
        assert(trees_of(out@) =~= trees_of(orig.take(0)));
    }
    while rest.len() > 0
        invariant
            0 <= k <= orig.len(),
            rest@ == orig.skip(k),
            forall|j: int| 0 <= j < orig.len() ==> decreases_to!(parent => #[trigger] orig[j]),
            removed ==> children_ids(orig).contains(id@),
            removed ==> children_ids(out@) + children_ids(rest@) == remove_first(
                children_ids(orig),
                id@,
            ),
            !removed ==> children_ids(out@) + children_ids(rest@) == children_ids(orig),
            !removed ==> !children_ids(out@).contains(id@),
            out@.len() == k,
            children_well_formed(orig) ==> children_well_formed(out@),
            !removed ==> trees_of(out@) == trees_of(orig.take(k)),
            !removed ==> forall|j: int| 0 <= j < k ==> !shows(id@)(#[trigger] tree_of(orig[j])),
            removed ==> 0 <= dk < k,
            removed ==> trees_of(out@) == trees_of(orig.take(k)).update(
                dk,
                tree_without(tree_of(orig[dk]), id@),
            ),
            removed ==> forall|j: int| 0 <= j < dk ==> !shows(id@)(#[trigger] tree_of(orig[j])),
            removed ==> shows(id@)(tree_of(orig[dk])),
        decreases rest@.len(),
    {
        let child = rest.remove(0);
        let ghost old_out = out@;
        proof {
            assert(orig.take(k + 1).drop_last() =~= orig.take(k));
            assert(orig.take(k + 1).last() == orig[k]);
            lemma_tree_of(orig[k]);
            lemma_trees_of_len(orig.take(k));
        }
        proof {
            assert(orig.skip(k) =~= seq![child] + orig.skip(k + 1));
            lemma_children_ids_cons(child, orig.skip(k + 1));
            assert(child == orig[k]);
            assert(decreases_to!(parent => orig[k]));
            k = k + 1;
            assert(rest@ =~= orig.skip(k));
        }
        proof {
            if children_well_formed(orig) {
                lemma_children_well_formed_index(orig, k - 1);
            }
        }
        if removed {
            out.push(child);
            proof {
                assert(out@.drop_last() =~= old_out);
                assert(trees_of(out@) =~= trees_of(orig.take(k)).update(
                    dk,
                    tree_without(tree_of(orig[dk]), id@),
                ));
                lemma_children_ids_push(old_out, child);
                assert(children_ids(old_out) + (layout_ids(child) + children_ids(rest@)) =~= (
                children_ids(old_out) + layout_ids(child)) + children_ids(rest@));
            }
        } else {
            let (c, b) = without_tab(child, id);
            out.push(c);
            proof {
                assert(out@.drop_last() =~= old_out);
                if b {
                    dk = k - 1;
                    assert(trees_of(out@) =~= trees_of(orig.take(k)).update(
                        dk,
                        tree_without(tree_of(orig[dk]), id@),
                    ));
                } else {
                    assert(trees_of(out@) =~= trees_of(orig.take(k)));
                }
                lemma_children_ids_push(old_out, c);
                let a = children_ids(old_out);
                let m = layout_ids(child);
                let z = children_ids(rest@);
                assert(children_ids(orig) =~= a + m + z);
                lemma_remove_first_concat(a, m + z, id@);
                lemma_remove_first_concat(m, z, id@);
                if b {
                    assert(children_ids(orig).contains(id@)) by {
                        let j = choose|j: int| 0 <= j < m.len() && m[j] == id@;
                        assert((a + m + z)[a.len() + j] == id@);
                    }
                    assert(a + (remove_first(m, id@) + z) =~= (a + remove_first(m, id@)) + z);
                } else {
                    lemma_remove_first_absent(m, id@);
                    assert(a + m + z =~= (a + m) + z);
                    assert(!(a + m).contains(id@)) by {
                        if (a + m).contains(id@) {
                            let j = choose|j: int| 0 <= j < (a + m).len() && (a + m)[j] == id@;
                            if j < a.len() {
                                assert(a[j] == id@);
                            } else {
                                assert(m[j - a.len()] == id@);
                            }
                        }
                    }
                }
            }
            removed = b;
        }
    }
    proof {
        assert(children_ids(rest@) =~= Seq::<Seq<char>>::empty());
        assert(children_ids(out@) + children_ids(rest@) =~= children_ids(out@));
        if !removed {
            lemma_remove_first_absent(children_ids(orig), id@);
        }
        assert(orig.take(orig.len() as int) =~= orig);
        lemma_trees_of_len(orig);
        if removed {
            assert forall|j: int| 0 <= j < dk implies !shows(id@)(#[trigger] trees_of(orig)[j]) by {
                lemma_trees_of_index(orig, j);
            }
            lemma_trees_of_index(orig, dk);
            crate::seq_util::lemma_first_index_found(trees_of(orig), shows(id@), dk);
        } else {
            assert forall|j: int| 0 <= j < orig.len() implies !shows(id@)(#[trigger] trees_of(orig)[j]) by {
                lemma_trees_of_index(orig, j);
            }
            crate::seq_util::lemma_first_index_none(trees_of(orig), shows(id@));
        }
    }
    (out, removed)
}

/// After a removal, drops empty children and collapses a split that is left
/// with a single child into that child.
fn finish_removal(children: Vec<PaneLayout>, ratio: u32, horizontal: bool, removed: bool) -> (r:
    PaneLayout)
    ensures
        layout_ids(r) == children_ids(children@),
        children_well_formed(children@) && children@.len() > 0 ==> well_formed(r),
        removed ==> tree_of(r) == collapsed(trees_of(children@), ratio, horizontal),
        !removed ==> tree_of(r) == if horizontal {
            LayoutTree::Horizontal(trees_of(children@), ratio)
        } else {
            LayoutTree::Vertical(trees_of(children@), ratio)
        },
{
    if !removed {
        return if horizontal {
            PaneLayout::Horizontal(children, ratio)
        } else {
            PaneLayout::Vertical(children, ratio)
        };
    }
    let ghost orig = children@;
    let mut rest = children;
    let mut kept: Vec<PaneLayout> = Vec::new();
    let ghost mut k: int = 0;
    proof {
        assert(orig.skip(0) =~= orig);
        assert(children_ids(kept@) =~= Seq::<Seq<char>>::empty());
        assert(orig.take(0) =~= Seq::<PaneLayout>::empty());
        assert(trees_of(orig.take(0)).filter(nonempty_tree()) =~= Seq::<LayoutTree>::empty());
    }
    while rest.len() > 0
        invariant
            0 <= k <= orig.len(),
            rest@ == orig.skip(k),
            children_ids(kept@) + children_ids(rest@) == children_ids(orig),
            children_well_formed(orig) ==> children_well_formed(kept@),
            trees_of(kept@) == trees_of(orig.take(k)).filter(nonempty_tree()),
        decreases rest@.len(),
    {
        let child = rest.remove(0);
        let ghost old_kept = kept@;
        proof {
            assert(orig.take(k + 1).drop_last() =~= orig.take(k));
            assert(orig.take(k + 1).last() == orig[k]);
            crate::seq_util::lemma_filter_push(trees_of(orig.take(k)), nonempty_tree(), tree_of(orig[k]));
            assert(orig.skip(k) =~= seq![child] + orig.skip(k + 1));
            lemma_children_ids_cons(child, orig.skip(k + 1));
            k = k + 1;
            assert(rest@ =~= orig.skip(k));
        }
        if !matches!(child, PaneLayout::Empty) {
            kept.push(child);
            proof {
                assert(kept@.drop_last() =~= old_kept);
                assert(kept@.last() == child);
                if children_well_formed(orig) {
                    lemma_children_well_formed_index(orig, k - 1);
                }
                lemma_children_ids_push(old_kept, child);
            }
        }
        assert(children_ids(old_kept) + (layout_ids(child) + children_ids(rest@)) =~= (
        children_ids(old_kept) + layout_ids(child)) + children_ids(rest@));
    }
    assert(children_ids(kept@) + children_ids(rest@) =~= children_ids(kept@));
    proof {
        assert(orig.take(orig.len() as int) =~= orig);
        lemma_trees_of_len(kept@);
    }
    if kept.len() == 0 {
        PaneLayout::Empty
    } else if kept.len() == 1 {
        proof {
            lemma_trees_of_index(kept@, 0);
            assert(kept@ =~= seq![kept@[0]]);
            lemma_children_ids_single(kept@[0]);
            if children_well_formed(orig) {
                lemma_children_well_formed_index(kept@, 0);
            }
        }
        kept.remove(0)
    } else if horizontal {
        PaneLayout::Horizontal(kept, ratio)
    } else {
        PaneLayout::Vertical(kept, ratio)
    }
}

impl PaneLayout {
    /// Removes the first pane showing `tab_id`; returns whether one was found.
    /// A split left with one child is replaced by that child, one left with
    /// none by an empty layout.
    pub fn remove_tab(&mut self, tab_id: &str) -> (removed: bool)
        ensures
            removed == layout_ids(*old(self)).contains(tab_id@),
            layout_ids(*final(self)) == remove_first(layout_ids(*old(self)), tab_id@),
            well_formed(*old(self)) ==> well_formed(*final(self)),
            tree_of(*final(self)) == tree_without(tree_of(*old(self)), tab_id@),
    {
        let mut current = PaneLayout::Empty;
        std::mem::swap(&mut current, self);
        let (next, removed) = without_tab(current, tab_id);
        *self = next;
        removed
    }
}

/// Every split of the layout has at least one child.
pub open spec fn well_formed(l: PaneLayout) -> bool
    decreases l,
{
    match l {
        PaneLayout::Horizontal(children, _) => children@.len() > 0 && children_well_formed(
            children@,
        ),
        PaneLayout::Vertical(children, _) => children@.len() > 0 && children_well_formed(
            children@,
        ),
        _ => true,
    }
}

/// Every layout of `c` is well formed.
pub open spec fn children_well_formed(c: Seq<PaneLayout>) -> bool
    decreases c,
{
    if c.len() == 0 {
        true
    } else {
        children_well_formed(c.drop_last()) && well_formed(c.last())
    }
}

pub proof fn lemma_children_well_formed_index(c: Seq<PaneLayout>, i: int)
    requires
        children_well_formed(c),
        0 <= i < c.len(),
    ensures
        well_formed(c[i]),
    decreases c.len(),
{
    if i < c.len() - 1 {
        assert(c.drop_last()[i] == c[i]);
        lemma_children_well_formed_index(c.drop_last(), i);
    }
}

/// The children of a split, and no children for a leaf or an empty layout.
pub open spec fn split_children(l: PaneLayout) -> Seq<PaneLayout> {
    match l {
        PaneLayout::Horizontal(children, _) => children@,
        PaneLayout::Vertical(children, _) => children@,
        _ => seq![],
    }
}

/// The tab id of the pane that `path` leads to: child indices are followed
/// from the root until a leaf is reached.
pub open spec fn tab_at_path(l: PaneLayout, path: Seq<usize>) -> Option<Seq<char>>
    decreases l,
{
    match l {
        PaneLayout::Empty => None,
        PaneLayout::Single(id) => Some(id@),
        PaneLayout::Horizontal(children, _) => if path.len() > 0 && path[0] < children@.len() {
            tab_at_path(children@[path[0] as int], path.skip(1))
        } else {
            None
        },
        PaneLayout::Vertical(children, _) => if path.len() > 0 && path[0] < children@.len() {
            tab_at_path(children@[path[0] as int], path.skip(1))
        } else {
            None
        },
    }
}

/// Whether `s` holds `x`.
pub fn strs_contain(s: &Vec<String>, x: &str) -> (b: bool)
    ensures
        b == strs_view(s@).contains(x@),
{
    let mut i: usize = 0;
    while i < s.len()
        invariant
            i <= s@.len(),
            forall|j: int| 0 <= j < i ==> s@[j]@ != x@,
        decreases s@.len() - i,
    {
        if str_eq(s[i].as_str(), x) {
            assert(strs_view(s@)[i as int] == x@);
            return true;
        }
        i = i + 1;
    }
    assert(!strs_view(s@).contains(x@)) by {
        if strs_view(s@).contains(x@) {
            let j = choose|j: int| 0 <= j < strs_view(s@).len() && strs_view(s@)[j] == x@;
            assert(s@[j]@ == x@);
        }
    }
    false
}

impl PaneLayout {
    /// Whether some pane of the layout shows `tab_id`.
    pub fn contains(&self, tab_id: &str) -> (b: bool)
        ensures
            b == layout_ids(*self).contains(tab_id@),
    {
        let ids = self.tab_ids();
        strs_contain(&ids, tab_id)
    }

    /// A copy of the layout with the same panes and splits.
    pub fn duplicate(&self) -> (r: PaneLayout)
        ensures
            tree_of(r) == tree_of(*self),
            layout_ids(r) == layout_ids(*self),
            well_formed(r) == well_formed(*self),
            r is Empty <==> self is Empty,
            r is Single <==> self is Single,
            r is Horizontal <==> self is Horizontal,
            r is Vertical <==> self is Vertical,
        decreases self,
    {
        match self {
            PaneLayout::Empty => PaneLayout::Empty,
            PaneLayout::Single(id) => PaneLayout::Single(id.clone()),
            PaneLayout::Horizontal(children, ratio) => PaneLayout::Horizontal(
                duplicate_children(children),
                *ratio,
            ),
            PaneLayout::Vertical(children, ratio) => PaneLayout::Vertical(
                duplicate_children(children),
                *ratio,
            ),
        }
    }

    /// The tab id of the pane that `path` leads to.
    pub fn focused_tab_id(&self, path: &[usize]) -> (r: Option<String>)
        ensures
            r matches Some(id) ==> tab_at_path(*self, path@) == Some(id@),
            r is None ==> tab_at_path(*self, path@) is None,
        decreases self,
    {
        match self {
            PaneLayout::Empty => None,
            PaneLayout::Single(id) => Some(id.clone()),
            PaneLayout::Horizontal(children, _) | PaneLayout::Vertical(children, _) => {
                if path.len() == 0 || path[0] >= children.len() {
                    return None;
                }
                assert(decreases_to!(self => children@[path[0] as int]));
                let rest = &path[1..path.len()];
                assert(rest@ =~= path@.skip(1));
                children[path[0]].focused_tab_id(rest)
            },
        }
    }
}

/// Copies of `children`, in order.
fn duplicate_children(children: &Vec<PaneLayout>) -> (r: Vec<PaneLayout>)
    ensures
        r@.len() == children@.len(),
        trees_of(r@) == trees_of(children@),
        children_ids(r@) == children_ids(children@),
        children_well_formed(r@) == children_well_formed(children@),
    decreases children,
{
    let mut out: Vec<PaneLayout> = Vec::new();
    let mut i: usize = 0;
    while i < children.len()
        invariant
            i <= children@.len(),
            out@.len() == i,
            trees_of(out@) == trees_of(children@.take(i as int)),
            children_ids(out@) == children_ids(children@.take(i as int)),
            children_well_formed(out@) == children_well_formed(children@.take(i as int)),
        decreases children@.len() - i,
    {
        assert(decreases_to!(children => children@[i as int]));
        let c = children[i].duplicate();
        let ghost before = out@;
        out.push(c);
        assert(out@.drop_last() =~= before);
        assert(children@.take(i + 1).drop_last() =~= children@.take(i as int));
        i = i + 1;
    }
    assert(children@.take(children@.len() as int) =~= children@);
    out
}

/// Whether `path` leads to a node of `l`: child indices followed from the
/// root, each within its split.
pub open spec fn node_path(l: PaneLayout, path: Seq<usize>) -> bool
    decreases l,
{
    if path.len() == 0 {
        true
    } else {
        match l {
            PaneLayout::Horizontal(children, _) => path[0] < children@.len() && node_path(
                children@[path[0] as int],
                path.skip(1),
            ),
            PaneLayout::Vertical(children, _) => path[0] < children@.len() && node_path(
                children@[path[0] as int],
                path.skip(1),
            ),
            _ => false,
        }
    }
}

/// The node that `path` leads to in `l`, if any.
pub open spec fn node_at(l: PaneLayout, path: Seq<usize>) -> Option<PaneLayout>
    decreases l,
{
    if path.len() == 0 {
        Some(l)
    } else {
        match l {
            PaneLayout::Horizontal(children, _) => if path[0] < children@.len() {
                node_at(children@[path[0] as int], path.skip(1))
            } else {
                None
            },
            PaneLayout::Vertical(children, _) => if path[0] < children@.len() {
                node_at(children@[path[0] as int], path.skip(1))
            } else {
                None
            },
            _ => None,
        }
    }
}

/// The tab ids of `l` once the node that `path` leads to is replaced by a
/// layout with ids `x`; the ids of `l` when `path` leads nowhere.
pub open spec fn ids_replaced_at(l: PaneLayout, path: Seq<usize>, x: Seq<Seq<char>>) -> Seq<Seq<char>>
    decreases l,
{
    if path.len() == 0 {
        x
    } else {
        match l {
            PaneLayout::Horizontal(children, _) => if path[0] < children@.len() {
                children_ids(children@.take(path[0] as int)) + ids_replaced_at(
                    children@[path[0] as int],
                    path.skip(1),
                    x,
                ) + children_ids(children@.skip(path[0] + 1))
            } else {
                layout_ids(l)
            },
            PaneLayout::Vertical(children, _) => if path[0] < children@.len() {
                children_ids(children@.take(path[0] as int)) + ids_replaced_at(
                    children@[path[0] as int],
                    path.skip(1),
                    x,
                ) + children_ids(children@.skip(path[0] + 1))
            } else {
                layout_ids(l)
            },
            _ => layout_ids(l),
        }
    }
}

/// Tree `t` with the node that `path` leads to replaced by `x`; `t` itself
/// when `path` leads nowhere. Every split on the way keeps its orientation,
/// ratio and other children.
pub open spec fn tree_replaced(t: LayoutTree, path: Seq<usize>, x: LayoutTree) -> LayoutTree
    decreases t,
{
    if path.len() == 0 {
        x
    } else {
        match t {
            LayoutTree::Horizontal(c, ratio) => if path[0] < c.len() {
                LayoutTree::Horizontal(
                    c.update(path[0] as int, tree_replaced(c[path[0] as int], path.skip(1), x)),
                    ratio,
                )
            } else {
                t
            },
            LayoutTree::Vertical(c, ratio) => if path[0] < c.len() {
                LayoutTree::Vertical(
                    c.update(path[0] as int, tree_replaced(c[path[0] as int], path.skip(1), x)),
                    ratio,
                )
            } else {
                t
            },
            _ => t,
        }
    }
}

/// The tree of each layout is at its place among the trees.
pub proof fn lemma_trees_of_index(c: Seq<PaneLayout>, i: int)
    requires
        0 <= i < c.len(),
    ensures
        trees_of(c).len() == c.len(),
        trees_of(c)[i] == tree_of(c[i]),
    decreases c.len(),
{
    lemma_trees_of_len(c);
    if i < c.len() - 1 {
        lemma_trees_of_index(c.drop_last(), i);
    }
}

/// One tree per layout.
pub proof fn lemma_trees_of_len(c: Seq<PaneLayout>)
    ensures
        trees_of(c).len() == c.len(),
    decreases c.len(),
{
    if c.len() > 0 {
        lemma_trees_of_len(c.drop_last());
    }
}

/// Replacing one layout replaces its tree.
pub proof fn lemma_trees_of_update(c: Seq<PaneLayout>, i: int, y: PaneLayout)
    requires
        0 <= i < c.len(),
    ensures
        trees_of(c.update(i, y)) == trees_of(c).update(i, tree_of(y)),
    decreases c.len(),
{
    lemma_trees_of_len(c);
    lemma_trees_of_len(c.update(i, y));
    if i < c.len() - 1 {
        assert(c.update(i, y).drop_last() =~= c.drop_last().update(i, y));
        lemma_trees_of_update(c.drop_last(), i, y);
        assert(trees_of(c.update(i, y)) =~= trees_of(c).update(i, tree_of(y)));
    } else {
        assert(c.update(i, y).drop_last() =~= c.drop_last());
        assert(trees_of(c.update(i, y)) =~= trees_of(c).update(i, tree_of(y)));
    }
}

/// `l` with the node that `path` leads to replaced by `x`.
fn replaced_at(l: PaneLayout, path: &[usize], x: PaneLayout) -> (r: (PaneLayout, bool))
    ensures
        r.1 == node_path(l, path@),
        node_at(r.0, path@) == if r.1 {
            Some(x)
        } else {
            None
        },
        layout_ids(r.0) == ids_replaced_at(l, path@, layout_ids(x)),
        tree_of(r.0) == tree_replaced(tree_of(l), path@, tree_of(x)),
    decreases l,
{
    if path.len() == 0 {
        return (x, true);
    }
    let rest = &path[1..path.len()];
    assert(rest@ =~= path@.skip(1));
    match l {
        PaneLayout::Horizontal(children, ratio) => {
            assert(forall|k: int|
                0 <= k < children@.len() ==> decreases_to!(l => #[trigger] children@[k]));
            let ghost orig = children@;
            let (c, ok) = children_replaced_at(children, path[0], rest, x, Ghost(l));
            proof {
                lemma_trees_of_len(orig);
                if path[0] < orig.len() {
                    lemma_trees_of_index(orig, path[0] as int);
                }
                assert(tree_of(l) == LayoutTree::Horizontal(trees_of(orig), ratio));
                assert(tree_of(PaneLayout::Horizontal(c, ratio)) == LayoutTree::Horizontal(trees_of(c@), ratio));
            }
            (PaneLayout::Horizontal(c, ratio), ok)
        },
        PaneLayout::Vertical(children, ratio) => {
            assert(forall|k: int|
                0 <= k < children@.len() ==> decreases_to!(l => #[trigger] children@[k]));
            let ghost orig = children@;
            let (c, ok) = children_replaced_at(children, path[0], rest, x, Ghost(l));
            proof {
                lemma_trees_of_len(orig);
                if path[0] < orig.len() {
                    lemma_trees_of_index(orig, path[0] as int);
                }
                assert(tree_of(l) == LayoutTree::Vertical(trees_of(orig), ratio));
                assert(tree_of(PaneLayout::Vertical(c, ratio)) == LayoutTree::Vertical(trees_of(c@), ratio));
            }
            (PaneLayout::Vertical(c, ratio), ok)
        },
        other => (other, false),
    }
}

/// `children` with, in child `i`, the node that `rest` leads to replaced by
/// `x`.
fn children_replaced_at(
    children: Vec<PaneLayout>,
    i: usize,
    rest: &[usize],
    x: PaneLayout,
    Ghost(parent): Ghost<PaneLayout>,
) -> (r: (Vec<PaneLayout>, bool))
    requires
        forall|k: int|
            0 <= k < children@.len() ==> decreases_to!(parent => #[trigger] children@[k]),
    ensures
        r.1 == (i < children@.len() && node_path(children@[i as int], rest@)),
        r.0@.len() == children@.len(),
        i < children@.len() ==> node_at(r.0@[i as int], rest@) == if r.1 {
            Some(x)
        } else {
            None
        },
        children_ids(r.0@) == if i < children@.len() {
            children_ids(children@.take(i as int)) + ids_replaced_at(
                children@[i as int],
                rest@,
                layout_ids(x),
            ) + children_ids(children@.skip(i + 1))
        } else {
            children_ids(children@)
        },
        trees_of(r.0@) == if i < children@.len() {
            trees_of(children@).update(
                i as int,
                tree_replaced(tree_of(children@[i as int]), rest@, tree_of(x)),
            )
        } else {
            trees_of(children@)
        },
    decreases parent, 0nat,
{
    if i >= children.len() {
        return (children, false);
    }
    let ghost orig = children@;
    let mut children = children;
    let child = children.remove(i);
    assert(decreases_to!(parent => orig[i as int]));
    let (c, ok) = replaced_at(child, rest, x);
    children.insert(i, c);
    proof {
        assert(children@ =~= orig.take(i as int) + seq![c] + orig.skip(i + 1));
        lemma_children_ids_concat(orig.take(i as int) + seq![c], orig.skip(i + 1));
        lemma_children_ids_concat(orig.take(i as int), seq![c]);
        lemma_children_ids_single(c);
        assert(children@ =~= orig.update(i as int, c));
        lemma_trees_of_update(orig, i as int, c);
    }
    (children, ok)
}

impl PaneLayout {
    /// Replaces the node that `path` leads to by `layout`; returns whether
    /// `path` led to a node (nothing changes otherwise).
    pub fn replace_at(&mut self, path: &[usize], layout: PaneLayout) -> (replaced: bool)
        ensures
            replaced == node_path(*old(self), path@),
            node_at(*final(self), path@) == if replaced {
                Some(layout)
            } else {
                None
            },
            layout_ids(*final(self)) == ids_replaced_at(*old(self), path@, layout_ids(layout)),
            tree_of(*final(self)) == tree_replaced(tree_of(*old(self)), path@, tree_of(layout)),
    {
        let mut current = PaneLayout::Empty;
        std::mem::swap(&mut current, self);
        let (next, replaced) = replaced_at(current, path, layout);
        *self = next;
        replaced
    }
}

} // verus!
