//! Sequences of strings used as small sets.
use vstd::prelude::*;

use crate::pane_layout::{strs_contain, strs_view};

verus! {

/// Every element of `a` is in `b`.
pub open spec fn all_in(a: Seq<Seq<char>>, b: Seq<Seq<char>>) -> bool {
    forall|i: int| 0 <= i < a.len() ==> b.contains(#[trigger] a[i])
}

/// Some element of `a` is in `b`.
pub open spec fn any_in(a: Seq<Seq<char>>, b: Seq<Seq<char>>) -> bool {
    exists|i: int| 0 <= i < a.len() && b.contains(#[trigger] a[i])
}

/// `a` and `b` hold the same elements.
pub open spec fn same_elements(a: Seq<Seq<char>>, b: Seq<Seq<char>>) -> bool {
    all_in(a, b) && all_in(b, a)
}

pub proof fn lemma_no_duplicates_push(s: Seq<Seq<char>>, x: Seq<char>)
    ensures
        s.push(x).no_duplicates() <==> (s.no_duplicates() && !s.contains(x)),
{
    let t = s.push(x);
    if t.no_duplicates() {
        assert forall|i: int, j: int| 0 <= i < s.len() && 0 <= j < s.len() && i != j implies s[i]
            != s[j] by {
            assert(t[i] == s[i] && t[j] == s[j]);
        }
        if s.contains(x) {
            let k = choose|k: int| 0 <= k < s.len() && s[k] == x;
            assert(t[k] == t[s.len() as int]);
        }
    }
    if s.no_duplicates() && !s.contains(x) {
        assert forall|i: int, j: int| 0 <= i < t.len() && 0 <= j < t.len() && i != j implies t[i]
            != t[j] by {
            if i == s.len() {
                assert(s[j] == t[j]);
            } else if j == s.len() {
                assert(s[i] == t[i]);
            } else {
                assert(t[i] == s[i] && t[j] == s[j]);
            }
        }
    }
}

/// A copy of a vector of strings.
pub fn strs_clone(v: &Vec<String>) -> (r: Vec<String>)
    ensures
        r@ == v@,
{
    let mut out: Vec<String> = Vec::new();
    let mut i: usize = 0;
    while i < v.len()
        invariant
            i <= v@.len(),
            out@ == v@.take(i as int),
        decreases v@.len() - i,
    {
        out.push(v[i].clone());
        assert(out@ =~= v@.take(i + 1));
        i = i + 1;
    }
    assert(v@.take(v@.len() as int) =~= v@);
    out
}

/// Whether some string occurs twice in `v`.
pub fn strs_have_duplicate(v: &Vec<String>) -> (b: bool)
    ensures
        b == !strs_view(v@).no_duplicates(),
{
    let mut seen: Vec<String> = Vec::new();
    let mut i: usize = 0;
    while i < v.len()
        invariant
            i <= v@.len(),
            strs_view(seen@) == strs_view(v@).take(i as int),
            strs_view(seen@).no_duplicates(),
        decreases v@.len() - i,
    {
        proof {
            lemma_no_duplicates_push(strs_view(seen@), v@[i as int]@);
            assert(strs_view(v@).take(i + 1) =~= strs_view(v@).take(i as int).push(v@[i as int]@));
        }
        if strs_contain(&seen, v[i].as_str()) {
            proof {
                let sv = strs_view(seen@);
                let j = choose|j: int| 0 <= j < sv.len() && sv[j] == v@[i as int]@;
                assert(strs_view(v@)[j] == sv[j]);
                assert(strs_view(v@)[i as int] == v@[i as int]@);
            }
            return true;
        }
        seen.push(v[i].clone());
        assert(strs_view(seen@) =~= strs_view(v@).take(i + 1));
        i = i + 1;
    }
    assert(strs_view(v@).take(v@.len() as int) =~= strs_view(v@));
    false
}

/// Whether every string of `a` is in `b`.
pub fn strs_all_in(a: &Vec<String>, b: &Vec<String>) -> (r: bool)
    ensures
        r == all_in(strs_view(a@), strs_view(b@)),
{
    let mut i: usize = 0;
    while i < a.len()
        invariant
            i <= a@.len(),
            forall|j: int| 0 <= j < i ==> strs_view(b@).contains(#[trigger] strs_view(a@)[j]),
        decreases a@.len() - i,
    {
        if !strs_contain(b, a[i].as_str()) {
            assert(strs_view(a@)[i as int] == a@[i as int]@);
            return false;
        }
        assert(strs_view(a@)[i as int] == a@[i as int]@);
        i = i + 1;
    }
    true
}

/// Whether some string of `a` is in `b`.
pub fn strs_any_in(a: &Vec<String>, b: &Vec<String>) -> (r: bool)
    ensures
        r == any_in(strs_view(a@), strs_view(b@)),
{
    let mut i: usize = 0;
    while i < a.len()
        invariant
            i <= a@.len(),
            forall|j: int| 0 <= j < i ==> !strs_view(b@).contains(#[trigger] strs_view(a@)[j]),
        decreases a@.len() - i,
    {
        assert(strs_view(a@)[i as int] == a@[i as int]@);
        if strs_contain(b, a[i].as_str()) {
            return true;
        }
        i = i + 1;
    }
    false
}

} // verus!
