//! The connection groups of the sidebar, named by `/`-separated paths, and
//! which of them a dragged group can be dropped among.
use vstd::prelude::*;

use crate::pane_layout::strs_view;
use crate::seq_util::lemma_filter_take_step;
use crate::shell::opt_view;
use crate::text::{chars_of, find_last, last_occurrence, str_eq, substring};

verus! {

/// The parent of connection group `path`: what comes before its last `/`;
/// `None` for a top-level group.
pub open spec fn group_parent(path: Seq<char>) -> Option<Seq<char>> {
    match last_occurrence(path, seq!['/']) {
        Some(i) => Some(path.take(i)),
        None => None,
    }
}

/// Groups other than `source` with the same parent.
pub open spec fn sibling_of(source: Seq<char>) -> spec_fn(String) -> bool {
    |g: String| g@ != source && group_parent(g@) == group_parent(source)
}

/// The parent of connection group `path`, as `group_parent` says.
pub fn connection_group_parent(path: &str) -> (r: Option<String>)
    ensures
        opt_view(r) == group_parent(path@),
{
    let v = chars_of(path);
    let mut slash: Vec<char> = Vec::new();
    slash.push('/');
    assert(slash@ =~= seq!['/']);
    match find_last(&v, &slash) {
        Some(i) => {
            proof {
                crate::text::lemma_last_before_sound(v@, seq!['/'], v@.len() as int);
            }
            let parent = substring(path, 0, i);
            assert(parent@ =~= path@.take(i as int));
            Some(parent)
        },
        None => None,
    }
}

/// Whether two optional parents are the same.
fn same_parent(a: &Option<String>, b: &Option<String>) -> (r: bool)
    ensures
        r == (opt_view(*a) == opt_view(*b)),
{
    match (a, b) {
        (Some(x), Some(y)) => str_eq(x.as_str(), y.as_str()),
        (None, None) => true,
        _ => false,
    }
}

/// The groups among which group `source` can be dropped: the other groups
/// with its parent, in order.
pub fn sibling_connection_groups(groups: &[String], source: &str) -> (r: Vec<String>)
    ensures
        r@ == groups@.filter(sibling_of(source@)),
{
    let parent = connection_group_parent(source);
    let ghost p = sibling_of(source@);
    let mut out: Vec<String> = Vec::new();
    let mut i: usize = 0;
    while i < groups.len()
        invariant
            i <= groups@.len(),
            p == sibling_of(source@),
            opt_view(parent) == group_parent(source@),
            out@ == groups@.take(i as int).filter(p),
        decreases groups@.len() - i,
    {
        proof {
            lemma_filter_take_step(groups@, p, i as int);
        }
        let g = &groups[i];
        if !str_eq(g.as_str(), source) && same_parent(&connection_group_parent(g.as_str()), &parent) {
            out.push(g.clone());
        }
        i = i + 1;
    }
    assert(groups@.take(groups@.len() as int) =~= groups@);
    out
}

} // verus!
