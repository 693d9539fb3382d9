//! Moving the focus between panes, and finding panes by path.
use vstd::prelude::*;

use crate::pane_layout::{
    children_well_formed, layout_ids, split_children, lemma_children_well_formed_index, tab_at_path, well_formed,
    PaneLayout,
};
use crate::shell::TinyShell;
use crate::text::str_eq;

verus! {

/// A direction to move the pane focus in.
#[derive(Clone, Copy, Debug, PartialEq, Eq, Structural)]
pub enum PaneDirection {
    Left,
    Right,
    Up,
    Down,
}

/// The path to the leftmost, topmost pane below `l`.
pub open spec fn first_leaf(l: PaneLayout) -> Seq<usize>
    decreases l,
{
    match l {
        PaneLayout::Horizontal(c, _) => if c@.len() > 0 {
            seq![0usize] + first_leaf(c@[0])
        } else {
            seq![0usize]
        },
        PaneLayout::Vertical(c, _) => if c@.len() > 0 {
            seq![0usize] + first_leaf(c@[0])
        } else {
            seq![0usize]
        },
        _ => seq![],
    }
}

/// Whether every split met following first children down from `l` has a
/// child, so that its first pane can be found.
pub open spec fn first_leaf_defined(l: PaneLayout) -> bool
    decreases l,
{
    match l {
        PaneLayout::Horizontal(c, _) => c@.len() > 0 && first_leaf_defined(c@[0]),
        PaneLayout::Vertical(c, _) => c@.len() > 0 && first_leaf_defined(c@[0]),
        _ => true,
    }
}

/// Whether the first pane of child `index` of `l` (clamped to the last
/// child) can be found: `l` has no children there, or that child's first
/// pane can be found.
pub open spec fn leaf_at_defined(l: PaneLayout, index: int) -> bool {
    match l {
        PaneLayout::Horizontal(c, _) => c@.len() == 0 || first_leaf_defined(
            c@[if index < c@.len() - 1 {
                index
            } else {
                c@.len() - 1
            }],
        ),
        PaneLayout::Vertical(c, _) => c@.len() == 0 || first_leaf_defined(
            c@[if index < c@.len() - 1 {
                index
            } else {
                c@.len() - 1
            }],
        ),
        _ => true,
    }
}

/// Whether finding the pane next to the one at `path` in direction `d`
/// only ever looks for the first pane of layouts that have one.
pub open spec fn adjacent_defined(l: PaneLayout, path: Seq<usize>, d: PaneDirection) -> bool
    decreases l,
{
    match l {
        PaneLayout::Horizontal(c, _) => adjacent_defined_in_split(c@, true, path, d),
        PaneLayout::Vertical(c, _) => adjacent_defined_in_split(c@, false, path, d),
        _ => true,
    }
}

/// `adjacent_defined` for a split with children `c`.
pub open spec fn adjacent_defined_in_split(
    c: Seq<PaneLayout>,
    horizontal: bool,
    path: Seq<usize>,
    d: PaneDirection,
) -> bool
    decreases c,
{
    if path.len() == 0 {
        true
    } else {
        let idx = path[0] as int;
        let sibling = if moves_within(horizontal, d) {
            neighbour(idx, d, c.len() as int)
        } else {
            None
        };
        if path.len() == 1 {
            sibling matches Some(n) ==> first_leaf_defined(c[n])
        } else if idx < c.len() {
            &&& adjacent_defined(c[idx], path.skip(1), d)
            &&& (adjacent(c[idx], path.skip(1), d) is None && sibling is Some) ==> leaf_at_defined(
                c[sibling->0],
                path[1] as int,
            )
        } else {
            true
        }
    }
}

/// In a well-formed layout every first pane can be found.
pub proof fn lemma_well_formed_first_leaf(l: PaneLayout)
    requires
        well_formed(l),
    ensures
        first_leaf_defined(l),
    decreases l,
{
    match l {
        PaneLayout::Horizontal(c, _) => {
            lemma_children_well_formed_index(c@, 0);
            lemma_well_formed_first_leaf(c@[0]);
        },
        PaneLayout::Vertical(c, _) => {
            lemma_children_well_formed_index(c@, 0);
            lemma_well_formed_first_leaf(c@[0]);
        },
        _ => {},
    }
}

/// In a well-formed layout the first pane of every child can be found.
pub proof fn lemma_well_formed_leaf_at(l: PaneLayout, index: int)
    requires
        well_formed(l),
        0 <= index,
    ensures
        leaf_at_defined(l, index),
{
    match l {
        PaneLayout::Horizontal(c, _) => {
            if c@.len() > 0 {
                let i = if index < c@.len() - 1 { index } else { c@.len() - 1 };
                if 0 <= i {
                    lemma_children_well_formed_index(c@, i);
                    lemma_well_formed_first_leaf(c@[i]);
                }
            }
        },
        PaneLayout::Vertical(c, _) => {
            if c@.len() > 0 {
                let i = if index < c@.len() - 1 { index } else { c@.len() - 1 };
                if 0 <= i {
                    lemma_children_well_formed_index(c@, i);
                    lemma_well_formed_first_leaf(c@[i]);
                }
            }
        },
        _ => {},
    }
}

/// Moving the focus to a neighbouring pane never fails in a well-formed
/// layout (every split has a child): finding the neighbour never meets a
/// split without children.
pub proof fn focus_moves_in_well_formed_layouts(l: PaneLayout, path: Seq<usize>, d: PaneDirection)
    requires
        well_formed(l),
    ensures
        adjacent_defined(l, path, d),
    decreases l,
{
    match l {
        PaneLayout::Horizontal(c, _) => lemma_well_formed_adjacent_in_split(c@, true, path, d, l),
        PaneLayout::Vertical(c, _) => lemma_well_formed_adjacent_in_split(c@, false, path, d, l),
        _ => {},
    }
}

proof fn lemma_well_formed_adjacent_in_split(
    c: Seq<PaneLayout>,
    horizontal: bool,
    path: Seq<usize>,
    d: PaneDirection,
    parent: PaneLayout,
)
    requires
        children_well_formed(c),
        forall|k: int| 0 <= k < c.len() ==> decreases_to!(parent => #[trigger] c[k]),
    ensures
        adjacent_defined_in_split(c, horizontal, path, d),
    decreases parent, c.len(),
{
    if path.len() > 0 {
        let idx = path[0] as int;
        let sibling = if moves_within(horizontal, d) {
            neighbour(idx, d, c.len() as int)
        } else {
            None
        };
        if let Some(n) = sibling {
            lemma_children_well_formed_index(c, n);
            lemma_well_formed_first_leaf(c[n]);
            if path.len() > 1 {
                lemma_well_formed_leaf_at(c[n], path[1] as int);
            }
        }
        if path.len() > 1 && idx < c.len() {
            lemma_children_well_formed_index(c, idx);
            assert(decreases_to!(parent => c[idx]));
            focus_moves_in_well_formed_layouts(c[idx], path.skip(1), d);
        }
    }
}

/// The path to the first pane of child `index` (clamped to the last child).
pub open spec fn leaf_at(l: PaneLayout, index: int) -> Seq<usize> {
    match l {
        PaneLayout::Horizontal(c, _) => if c@.len() == 0 {
            seq![]
        } else {
            let i = if index < c@.len() - 1 {
                index
            } else {
                c@.len() - 1
            };
            seq![i as usize] + first_leaf(c@[i])
        },
        PaneLayout::Vertical(c, _) => if c@.len() == 0 {
            seq![]
        } else {
            let i = if index < c@.len() - 1 {
                index
            } else {
                c@.len() - 1
            };
            seq![i as usize] + first_leaf(c@[i])
        },
        _ => seq![],
    }
}

/// Whether moving in `d` moves between the children of a split: a
/// `Horizontal` split stacks its children, so up and down move within it; a
/// `Vertical` split places them side by side, so left and right do.
pub open spec fn moves_within(horizontal: bool, d: PaneDirection) -> bool {
    if horizontal {
        d == PaneDirection::Up || d == PaneDirection::Down
    } else {
        d == PaneDirection::Left || d == PaneDirection::Right
    }
}

/// The neighbouring child index in direction `d`, if there is one.
pub open spec fn neighbour(idx: int, d: PaneDirection, len: int) -> Option<int> {
    let n = if d == PaneDirection::Up || d == PaneDirection::Left {
        idx - 1
    } else {
        idx + 1
    };
    if 0 <= n < len {
        Some(n)
    } else {
        None
    }
}

/// The path to the pane next to the one at `path`, in direction `d`: the
/// innermost split on the path that moves in `d` decides, and the focus
/// lands on the first pane of the neighbouring child, keeping the index one
/// level further down where it can.
pub open spec fn adjacent(l: PaneLayout, path: Seq<usize>, d: PaneDirection) -> Option<Seq<usize>>
    decreases l,
{
    match l {
        PaneLayout::Horizontal(c, _) => adjacent_in_split(c@, true, path, d),
        PaneLayout::Vertical(c, _) => adjacent_in_split(c@, false, path, d),
        _ => None,
    }
}

/// `adjacent` for a split with children `c`.
pub open spec fn adjacent_in_split(
    c: Seq<PaneLayout>,
    horizontal: bool,
    path: Seq<usize>,
    d: PaneDirection,
) -> Option<Seq<usize>>
    decreases c,
{
    if path.len() == 0 {
        None
    } else {
        let idx = path[0] as int;
        let sibling = if moves_within(horizontal, d) {
            neighbour(idx, d, c.len() as int)
        } else {
            None
        };
        if path.len() == 1 {
            match sibling {
                Some(n) => Some(seq![n as usize] + first_leaf(c[n])),
                None => None,
            }
        } else if idx < c.len() {
            match adjacent(c[idx], path.skip(1), d) {
                Some(p) => Some(seq![idx as usize] + p),
                None => match sibling {
                    Some(n) => Some(seq![n as usize] + leaf_at(c[n], path[1] as int)),
                    None => None,
                },
            }
        } else {
            None
        }
    }
}

/// The path names a child at every split it passes through, except that
/// its last index may be out of range.
pub open spec fn path_ok(l: PaneLayout, path: Seq<usize>) -> bool
    decreases l,
{
    match l {
        PaneLayout::Horizontal(c, _) => path.len() >= 1 && (path.len() > 1 ==> path[0] < c@.len()
            && path_ok(c@[path[0] as int], path.skip(1))),
        PaneLayout::Vertical(c, _) => path.len() >= 1 && (path.len() > 1 ==> path[0] < c@.len()
            && path_ok(c@[path[0] as int], path.skip(1))),
        _ => true,
    }
}

/// Whether the node at `path` is a `Horizontal` split.
pub open spec fn horizontal_at(l: PaneLayout, path: Seq<usize>) -> bool
    decreases l,
{
    match l {
        PaneLayout::Horizontal(c, _) => if path.len() == 0 {
            true
        } else if path[0] < c@.len() {
            horizontal_at(c@[path[0] as int], path.skip(1))
        } else {
            false
        },
        PaneLayout::Vertical(c, _) => if path.len() == 0 {
            false
        } else if path[0] < c@.len() {
            horizontal_at(c@[path[0] as int], path.skip(1))
        } else {
            false
        },
        _ => false,
    }
}

/// The path to the first pane, in left-to-right order, that shows `id`.
pub open spec fn path_to(l: PaneLayout, id: Seq<char>) -> Option<Seq<usize>>
    decreases l,
{
    match l {
        PaneLayout::Empty => None,
        PaneLayout::Single(x) => if x@ == id {
            Some(seq![])
        } else {
            None
        },
        PaneLayout::Horizontal(c, _) => path_in_children(c@, id, 0),
        PaneLayout::Vertical(c, _) => path_in_children(c@, id, 0),
    }
}

/// `path_to` over the children `c` from index `i` on.
pub open spec fn path_in_children(c: Seq<PaneLayout>, id: Seq<char>, i: int) -> Option<Seq<usize>>
    decreases c, c.len() - i,
{
    if i < 0 || i >= c.len() {
        None
    } else {
        match path_to(c[i], id) {
            Some(p) => Some(seq![i as usize] + p),
            None => path_in_children(c, id, i + 1),
        }
    }
}

impl TinyShell {
    /// The path to the leftmost, topmost pane below `layout`.
    pub fn first_leaf_path(layout: &PaneLayout) -> (r: Vec<usize>)
        requires
            first_leaf_defined(*layout),
        ensures
            r@ == first_leaf(*layout),
        decreases layout,
    {
        match layout {
            PaneLayout::Empty => Vec::new(),
            PaneLayout::Single(_) => Vec::new(),
            PaneLayout::Horizontal(children, _) | PaneLayout::Vertical(children, _) => {
                assert(decreases_to!(layout => children@[0]));
                let mut path: Vec<usize> = Vec::new();
                path.push(0);
                let mut rest = Self::first_leaf_path(&children[0]);
                path.append(&mut rest);
                path
            },
        }
    }

    /// The path to the first pane of child `index` of `layout`, the index
    /// clamped to the last child.
    pub fn leaf_at_index(layout: &PaneLayout, index: usize) -> (r: Vec<usize>)
        requires
            leaf_at_defined(*layout, index as int),
        ensures
            r@ == leaf_at(*layout, index as int),
    {
        match layout {
            PaneLayout::Empty => Vec::new(),
            PaneLayout::Single(_) => Vec::new(),
            PaneLayout::Horizontal(children, _) | PaneLayout::Vertical(children, _) => {
                if children.len() == 0 {
                    return Vec::new();
                }
                let i = if index < children.len() - 1 {
                    index
                } else {
                    children.len() - 1
                };
                let mut path: Vec<usize> = Vec::new();
                path.push(i);
                let mut rest = Self::first_leaf_path(&children[i]);
                path.append(&mut rest);
                path
            },
        }
    }

    /// The path to the pane next to the one at `path` in `direction`; `None`
    /// for an empty path or when there is no pane that way.
    pub fn find_adjacent_pane(layout: &PaneLayout, path: &[usize], direction: PaneDirection) -> (r:
        Option<Vec<usize>>)
        requires
            path_ok(*layout, path@),
            adjacent_defined(*layout, path@, direction),
        ensures
            r matches Some(p) ==> path@.len() > 0 && adjacent(*layout, path@, direction) == Some(
                p@,
            ),
            r is None ==> path@.len() == 0 || adjacent(*layout, path@, direction) is None,
    {
        if path.len() == 0 {
            return None;
        }
        Self::adjacent_pane_in_layout(layout, path, direction)
    }

    /// The path to the pane next to the one at `path` in `direction`.
    pub fn adjacent_pane_in_layout(
        layout: &PaneLayout,
        path: &[usize],
        direction: PaneDirection,
    ) -> (r: Option<Vec<usize>>)
        requires
            path_ok(*layout, path@),
            adjacent_defined(*layout, path@, direction),
        ensures
            r matches Some(p) ==> adjacent(*layout, path@, direction) == Some(p@),
            r is None ==> adjacent(*layout, path@, direction) is None,
        decreases layout,
    {
        let (children, is_horizontal) = match layout {
            PaneLayout::Empty => {
                return None;
            },
            PaneLayout::Single(_) => {
                return None;
            },
            PaneLayout::Horizontal(children, _) => (children, true),
            PaneLayout::Vertical(children, _) => (children, false),
        };
        let idx = path[0];
        let vert = matches!(direction, PaneDirection::Up | PaneDirection::Down);
        let horiz = matches!(direction, PaneDirection::Left | PaneDirection::Right);
        let moves_in_this_split = (vert && is_horizontal) || (horiz && !is_horizontal);
        let back = matches!(direction, PaneDirection::Up | PaneDirection::Left);
        let sibling: Option<usize> = if !moves_in_this_split {
            None
        } else if back {
            if idx > 0 && idx - 1 < children.len() {
                Some(idx - 1)
            } else {
                None
            }
        } else if idx < children.len() && idx + 1 < children.len() {
            Some(idx + 1)
        } else {
            None
        };
        assert(sibling == match neighbour(idx as int, direction, children@.len() as int) {
            Some(n) => if moves_within(is_horizontal, direction) {
                Some(n as usize)
            } else {
                None::<usize>
            },
            None => None::<usize>,
        });
        if path.len() == 1 {
            match sibling {
                Some(n) => {
                    let mut p: Vec<usize> = Vec::new();
                    p.push(n);
                    let mut rest = Self::first_leaf_path(&children[n]);
                    p.append(&mut rest);
                    Some(p)
                },
                None => None,
            }
        } else {
            assert(decreases_to!(layout => children@[idx as int]));
            let rest = &path[1..path.len()];
            assert(rest@ =~= path@.skip(1));
            match Self::adjacent_pane_in_layout(&children[idx], rest, direction) {
                Some(child_path) => {
                    let mut p: Vec<usize> = Vec::new();
                    p.push(idx);
                    let mut child_path = child_path;
                    p.append(&mut child_path);
                    Some(p)
                },
                None => match sibling {
                    Some(n) => {
                        let inner_idx = path[1];
                        let mut p: Vec<usize> = Vec::new();
                        p.push(n);
                        let mut rest = Self::leaf_at_index(&children[n], inner_idx);
                        p.append(&mut rest);
                        Some(p)
                    },
                    None => None,
                },
            }
        }
    }

    /// Whether the node at `path` is a `Horizontal` split.
    pub fn is_layout_horizontal_at(layout: &PaneLayout, path: &[usize]) -> (b: bool)
        ensures
            b == horizontal_at(*layout, path@),
        decreases layout,
    {
        match layout {
            PaneLayout::Horizontal(children, _) | PaneLayout::Vertical(children, _) => {
                if path.len() == 0 {
                    return matches!(layout, PaneLayout::Horizontal(_, _));
                }
                if path[0] >= children.len() {
                    return false;
                }
                assert(decreases_to!(layout => children@[path[0] as int]));
                let rest = &path[1..path.len()];
                assert(rest@ =~= path@.skip(1));
                Self::is_layout_horizontal_at(&children[path[0]], rest)
            },
            _ => false,
        }
    }

    /// The path to the first pane showing `tab_id`.
    pub fn find_pane_path(layout: &PaneLayout, tab_id: &str) -> (r: Option<Vec<usize>>)
        ensures
            r matches Some(p) ==> path_to(*layout, tab_id@) == Some(p@),
            r is None ==> path_to(*layout, tab_id@) is None,
        decreases layout,
    {
        let children = match layout {
            PaneLayout::Empty => {
                return None;
            },
            PaneLayout::Single(id) => {
                if str_eq(id.as_str(), tab_id) {
                    return Some(Vec::new());
                } else {
                    return None;
                }
            },
            PaneLayout::Horizontal(children, _) => children,
            PaneLayout::Vertical(children, _) => children,
        };
        assert(path_to(*layout, tab_id@) == path_in_children(children@, tab_id@, 0));
        let mut i: usize = 0;
        while i < children.len()
            invariant
                i <= children@.len(),
                forall|k: int|
                    0 <= k < children@.len() ==> decreases_to!(layout => #[trigger] children@[k]),
                path_to(*layout, tab_id@) == path_in_children(children@, tab_id@, i as int),
            decreases children@.len() - i,
        {
            match Self::find_pane_path(&children[i], tab_id) {
                Some(sub) => {
                    let mut p: Vec<usize> = Vec::new();
                    p.push(i);
                    let ghost sv = sub@;
                    let mut sub = sub;
                    p.append(&mut sub);
                    assert(p@ =~= seq![i] + sv);
                    return Some(p);
                },
                None => {},
            }
            i = i + 1;
        }
        None
    }
}

/// A path found for a tab leads to that tab.
pub proof fn path_to_leads_to_tab(l: PaneLayout, id: Seq<char>)
    ensures
        path_to(l, id) matches Some(p) ==> tab_at_path(l, p) == Some(id),
    decreases l,
{
    match l {
        PaneLayout::Horizontal(c, _) => {
            assert forall|k: int| 0 <= k < c@.len() implies decreases_to!(l => #[trigger] c@[k]) by {}
            lemma_path_in_children_leads(c@, id, 0, l);
        },
        PaneLayout::Vertical(c, _) => {
            assert forall|k: int| 0 <= k < c@.len() implies decreases_to!(l => #[trigger] c@[k]) by {}
            lemma_path_in_children_leads(c@, id, 0, l);
        },
        _ => {},
    }
}

proof fn lemma_path_in_children_leads(c: Seq<PaneLayout>, id: Seq<char>, i: int, parent: PaneLayout)
    requires
        0 <= i,
        forall|k: int| 0 <= k < c.len() ==> decreases_to!(parent => #[trigger] c[k]),
        parent is Horizontal ==> c == split_of(parent),
        parent is Vertical ==> c == split_of(parent),
        parent is Horizontal || parent is Vertical,
        c.len() <= usize::MAX,
    ensures
        path_in_children(c, id, i) matches Some(p) ==> tab_at_path(parent, p) == Some(id),
    decreases parent, c.len() - i,
{
    if i < c.len() {
        path_to_leads_to_tab(c[i], id);
        if path_to(c[i], id) is Some {
            let p = seq![i as usize] + path_to(c[i], id)->0;
            assert(p.skip(1) =~= path_to(c[i], id)->0);
            assert(p[0] as int == i);
            assert(tab_at_path(parent, p) == tab_at_path(c[i], p.skip(1)));
        } else {
            lemma_path_in_children_leads(c, id, i + 1, parent);
        }
    }
}

/// The children of a split.
pub open spec fn split_of(l: PaneLayout) -> Seq<PaneLayout> {
    match l {
        PaneLayout::Horizontal(c, _) => c@,
        PaneLayout::Vertical(c, _) => c@,
        _ => seq![],
    }
}


/// Moving the focus within one split steps to the neighbouring child:
/// in a stacked (`Horizontal`) split up goes to the child above and down to
/// the child below; in a side-by-side (`Vertical`) split left goes to the
/// child on the left and right to the child on the right; the focus lands on
/// the first pane of that child. Moving across the split's direction, or
/// past its first or last child, finds nothing at this level.
pub proof fn focus_steps_to_the_neighbouring_child(l: PaneLayout, i: int)
    requires
        l is Horizontal || l is Vertical,
        0 <= i < split_children(l).len(),
        i <= usize::MAX,
    ensures
        ({
            let c = split_children(l);
            let n = c.len();
            let (back, forward) = if l is Horizontal {
                (PaneDirection::Up, PaneDirection::Down)
            } else {
                (PaneDirection::Left, PaneDirection::Right)
            };
            let (across1, across2) = if l is Horizontal {
                (PaneDirection::Left, PaneDirection::Right)
            } else {
                (PaneDirection::Up, PaneDirection::Down)
            };
            let path = seq![i as usize];
            &&& i > 0 ==> adjacent(l, path, back) == Some(seq![(i - 1) as usize] + first_leaf(c[i - 1]))
            &&& i == 0 ==> adjacent(l, path, back) is None
            &&& i + 1 < n ==> adjacent(l, path, forward) == Some(
                seq![(i + 1) as usize] + first_leaf(c[i + 1]),
            )
            &&& i + 1 == n ==> adjacent(l, path, forward) is None
            &&& adjacent(l, path, across1) is None
            &&& adjacent(l, path, across2) is None
        }),
{
}


} // verus!
