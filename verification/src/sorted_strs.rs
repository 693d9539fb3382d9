//! Strings kept in ascending order without repeats.
use vstd::prelude::*;

use crate::pane_layout::strs_view;
use crate::str_seq::same_elements;

verus! {

/// `a` sorts before `b`: the order of `str`, code point by code point.
pub open spec fn str_lt(a: Seq<char>, b: Seq<char>) -> bool
    decreases a.len(),
{
    if b.len() == 0 {
        false
    } else if a.len() == 0 {
        true
    } else if a[0] != b[0] {
        a[0] < b[0]
    } else {
        str_lt(a.drop_first(), b.drop_first())
    }
}

/// Each string sorts before every later one.
pub open spec fn strictly_sorted(s: Seq<Seq<char>>) -> bool {
    forall|i: int, j: int| 0 <= i < j < s.len() ==> str_lt(#[trigger] s[i], #[trigger] s[j])
}

pub proof fn lemma_str_lt_total(a: Seq<char>, b: Seq<char>)
    ensures
        a == b || str_lt(a, b) || str_lt(b, a),
    decreases a.len(),
{
    if a.len() > 0 && b.len() > 0 && a[0] == b[0] {
        lemma_str_lt_total(a.drop_first(), b.drop_first());
        if a.drop_first() == b.drop_first() {
            assert(a =~= seq![a[0]] + a.drop_first());
            assert(b =~= seq![b[0]] + b.drop_first());
        }
    } else if a.len() == 0 && b.len() == 0 {
        assert(a =~= b);
    } else if a.len() > 0 && b.len() > 0 {
        assert((a[0] as int) != (b[0] as int));
    }
}

pub proof fn lemma_str_lt_transitive(a: Seq<char>, b: Seq<char>, c: Seq<char>)
    requires
        str_lt(a, b),
        str_lt(b, c),
    ensures
        str_lt(a, c),
    decreases a.len(),
{
    if a.len() > 0 && a[0] == b[0] && b[0] == c[0] {
        lemma_str_lt_transitive(a.drop_first(), b.drop_first(), c.drop_first());
    }
}

/// Whether `a` sorts before `b`.
pub fn str_less(a: &str, b: &str) -> (r: bool)
    ensures
        r == str_lt(a@, b@),
{
    let va = crate::text::chars_of(a);
    let vb = crate::text::chars_of(b);
    let mut i: usize = 0;
    assert(a@.skip(0) =~= a@);
    assert(b@.skip(0) =~= b@);
    while i < va.len() && i < vb.len() && va[i] == vb[i]
        invariant
            va@ == a@,
            vb@ == b@,
            i <= va@.len(),
            i <= vb@.len(),
            str_lt(a@, b@) == str_lt(a@.skip(i as int), b@.skip(i as int)),
        decreases va@.len() - i,
    {
        assert(a@.skip(i as int).drop_first() =~= a@.skip(i + 1));
        assert(b@.skip(i as int).drop_first() =~= b@.skip(i + 1));
        i = i + 1;
    }
    if i == vb.len() {
        return false;
    }
    if i == va.len() {
        return true;
    }
    va[i] < vb[i]
}

/// Inserts `x` into the sorted strings `v`, unless it is there already.
pub fn insert_sorted_unique(v: &mut Vec<String>, x: String)
    requires
        strictly_sorted(strs_view(old(v)@)),
    ensures
        strictly_sorted(strs_view(final(v)@)),
        same_elements(strs_view(final(v)@), strs_view(old(v)@).push(x@)),
{
    let ghost s = strs_view(v@);
    let mut k: usize = 0;
    while k < v.len() && str_less(v[k].as_str(), x.as_str())
        invariant
            k <= v@.len(),
            s == strs_view(v@),
            forall|i: int| 0 <= i < k ==> str_lt(#[trigger] s[i], x@),
        decreases v@.len() - k,
    {
        assert(s[k as int] == v@[k as int]@);
        k = k + 1;
    }
    if k < v.len() && crate::text::str_eq(v[k].as_str(), x.as_str()) {
        assert(s[k as int] == v@[k as int]@);
        assert(same_elements(s, s.push(x@))) by {
            assert forall|i: int| 0 <= i < s.push(x@).len() implies s.contains(
                #[trigger] s.push(x@)[i],
            ) by {
                if i < s.len() {
                    assert(s.push(x@)[i] == s[i]);
                } else {
                    assert(s[k as int] == x@);
                }
            }
            assert forall|i: int| 0 <= i < s.len() implies s.push(x@).contains(#[trigger] s[i]) by {
                assert(s.push(x@)[i] == s[i]);
            }
        }
        return;
    }
    proof {
        if k < s.len() {
            assert(s[k as int] == v@[k as int]@);
            lemma_str_lt_total(s[k as int], x@);
        }
    }
    v.insert(k, x);
    let ghost t = strs_view(v@);
    proof {
        assert(t =~= s.insert(k as int, x@));
        assert forall|i: int, j: int| 0 <= i < j < t.len() implies str_lt(
            #[trigger] t[i],
            #[trigger] t[j],
        ) by {
            if j < k {
                assert(t[i] == s[i] && t[j] == s[j]);
            } else if j == k {
                assert(t[i] == s[i]);
            } else if i == k {
                assert(t[j] == s[j - 1]);
                if j - 1 > k {
                    lemma_str_lt_transitive(x@, s[k as int], s[j - 1]);
                }
            } else if i < k {
                assert(t[i] == s[i] && t[j] == s[j - 1]);
                lemma_str_lt_transitive(s[i], x@, s[k as int]);
                if j - 1 > k {
                    lemma_str_lt_transitive(s[i], s[k as int], s[j - 1]);
                }
            } else {
                assert(t[i] == s[i - 1] && t[j] == s[j - 1]);
            }
        }
        assert forall|i: int| 0 <= i < t.len() implies s.push(x@).contains(#[trigger] t[i]) by {
            if i < k {
                assert(t[i] == s[i] && s.push(x@)[i] == s[i]);
            } else if i == k {
                assert(s.push(x@)[s.len() as int] == x@);
            } else {
                assert(t[i] == s[i - 1] && s.push(x@)[i - 1] == s[i - 1]);
            }
        }
        assert forall|i: int| 0 <= i < s.push(x@).len() implies t.contains(#[trigger] s.push(x@)[i]) by {
            if i < k {
                assert(t[i] == s[i]);
            } else if i < s.len() {
                assert(t[i + 1] == s[i]);
            } else {
                assert(t[k as int] == x@);
            }
        }
    }
}

} // verus!
