//! Character-level string helpers shared by the parsers of this crate.
//!
//! Strings are modelled by their views, sequences of Unicode scalar values.
use vstd::prelude::*;

verus! {

/// Unicode `White_Space` characters, as `char::is_whitespace` defines them.
pub open spec fn is_ws(c: char) -> bool {
    let u = c as u32;
    ||| 0x09 <= u <= 0x0d
    ||| u == 0x20
    ||| u == 0x85
    ||| u == 0xa0
    ||| u == 0x1680
    ||| 0x2000 <= u <= 0x200a
    ||| u == 0x2028
    ||| u == 0x2029
    ||| u == 0x202f
    ||| u == 0x205f
    ||| u == 0x3000
}

/// Control characters (general category `Cc`), as `char::is_control` defines them.
pub open spec fn is_control(c: char) -> bool {
    let u = c as u32;
    u <= 0x1f || (0x7f <= u <= 0x9f)
}

/// `s` with its leading whitespace removed.
pub open spec fn trim_start(s: Seq<char>) -> Seq<char>
    decreases s.len(),
{
    if s.len() > 0 && is_ws(s[0]) {
        trim_start(s.drop_first())
    } else {
        s
    }
}

/// `s` with its trailing whitespace removed.
pub open spec fn trim_end(s: Seq<char>) -> Seq<char>
    decreases s.len(),
{
    if s.len() > 0 && is_ws(s.last()) {
        trim_end(s.drop_last())
    } else {
        s
    }
}

/// `s` with leading and trailing whitespace removed, as `str::trim` does.
pub open spec fn trim(s: Seq<char>) -> Seq<char> {
    trim_end(trim_start(s))
}

/// `s` with every trailing `c` removed, as `str::trim_end_matches(c)` does.
pub open spec fn trim_end_char(s: Seq<char>, c: char) -> Seq<char>
    decreases s.len(),
{
    if s.len() > 0 && s.last() == c {
        trim_end_char(s.drop_last(), c)
    } else {
        s
    }
}

/// `pat` occurs in `s` at position `i`.
pub open spec fn occurs_at(s: Seq<char>, pat: Seq<char>, i: int) -> bool {
    0 <= i && i + pat.len() <= s.len() && s.subrange(i, i + pat.len()) == pat
}

/// The first position at or after `i` where `pat` occurs in `s`.
pub open spec fn first_from(s: Seq<char>, pat: Seq<char>, i: int) -> Option<int>
    decreases s.len() + 1 - i,
{
    if i < 0 || i + pat.len() > s.len() {
        None
    } else if occurs_at(s, pat, i) {
        Some(i)
    } else {
        first_from(s, pat, i + 1)
    }
}

/// The first position where `pat` occurs in `s`.
pub open spec fn first_occurrence(s: Seq<char>, pat: Seq<char>) -> Option<int> {
    first_from(s, pat, 0)
}

/// The last position before `n` where `pat` occurs in `s`.
pub open spec fn last_before(s: Seq<char>, pat: Seq<char>, n: int) -> Option<int>
    decreases n,
{
    if n <= 0 {
        None
    } else if occurs_at(s, pat, n - 1) {
        Some(n - 1)
    } else {
        last_before(s, pat, n - 1)
    }
}

/// The last position where `pat` occurs in `s`.
pub open spec fn last_occurrence(s: Seq<char>, pat: Seq<char>) -> Option<int> {
    last_before(s, pat, s.len() as int)
}

/// `pat` occurs somewhere in `s`.
pub open spec fn contains_seq(s: Seq<char>, pat: Seq<char>) -> bool {
    exists|i: int| occurs_at(s, pat, i)
}

/// `s` starts with `pat`.
pub open spec fn starts_with(s: Seq<char>, pat: Seq<char>) -> bool {
    occurs_at(s, pat, 0)
}

pub proof fn lemma_first_from_sound(s: Seq<char>, pat: Seq<char>, i: int)
    requires
        0 <= i,
    ensures
        first_from(s, pat, i) matches Some(k) ==> i <= k && occurs_at(s, pat, k)
            && forall|j: int| i <= j < k ==> !occurs_at(s, pat, j),
        first_from(s, pat, i) is None ==> forall|j: int| i <= j ==> !occurs_at(s, pat, j),
    decreases s.len() + 1 - i,
{
    if i + pat.len() <= s.len() && !occurs_at(s, pat, i) {
        lemma_first_from_sound(s, pat, i + 1);
    }
}

pub proof fn lemma_last_before_sound(s: Seq<char>, pat: Seq<char>, n: int)
    ensures
        last_before(s, pat, n) matches Some(k) ==> k < n && occurs_at(s, pat, k)
            && forall|j: int| k < j < n ==> !occurs_at(s, pat, j),
        last_before(s, pat, n) is None ==> forall|j: int| j < n ==> !occurs_at(s, pat, j),
    decreases n,
{
    if n > 0 && !occurs_at(s, pat, n - 1) {
        lemma_last_before_sound(s, pat, n - 1);
    }
}

pub proof fn lemma_contains_iff_first(s: Seq<char>, pat: Seq<char>)
    ensures
        contains_seq(s, pat) <==> first_occurrence(s, pat) is Some,
{
    lemma_first_from_sound(s, pat, 0);
    if first_occurrence(s, pat) is Some {
        let k = first_occurrence(s, pat)->0;
        assert(occurs_at(s, pat, k));
    }
}

/// Returns the characters of `s` in order.
pub fn chars_of(s: &str) -> (r: Vec<char>)
    ensures
        r@ == s@,
{
    let mut out: Vec<char> = Vec::new();
    for c in it: s.chars()
        invariant
            out@ == it.seq().take(it.index() as int),
    {
        out.push(c);
    }
    out
}

/// `char::is_whitespace`.
pub fn char_is_whitespace(c: char) -> (b: bool)
    ensures
        b == is_ws(c),
{
    let u = c as u32;
    (0x09 <= u && u <= 0x0d) || u == 0x20 || u == 0x85 || u == 0xa0 || u == 0x1680 || (0x2000
        <= u && u <= 0x200a) || u == 0x2028 || u == 0x2029 || u == 0x202f || u == 0x205f || u
        == 0x3000
}

/// `char::is_control`.
pub fn char_is_control(c: char) -> (b: bool)
    ensures
        b == is_control(c),
{
    let u = c as u32;
    u <= 0x1f || (0x7f <= u && u <= 0x9f)
}

/// The bounds of `v[lo..hi]` once whitespace is trimmed from both ends.
pub fn trim_range(v: &Vec<char>, lo: usize, hi: usize) -> (r: (usize, usize))
    requires
        lo <= hi <= v@.len(),
    ensures
        lo <= r.0 <= r.1 <= hi,
        v@.subrange(r.0 as int, r.1 as int) == trim(v@.subrange(lo as int, hi as int)),
{
    let mut a = lo;
    while a < hi && char_is_whitespace(v[a])
        invariant
            lo <= a <= hi <= v@.len(),
            trim_start(v@.subrange(lo as int, hi as int)) == trim_start(
                v@.subrange(a as int, hi as int),
            ),
        decreases hi - a,
    {
        assert(v@.subrange(a as int, hi as int).drop_first() =~= v@.subrange(
            a + 1,
            hi as int,
        ));
        a = a + 1;
    }
    let mut b = hi;
    while b > a && char_is_whitespace(v[b - 1])
        invariant
            lo <= a <= b <= hi <= v@.len(),
            trim_end(v@.subrange(a as int, hi as int)) == trim_end(
                v@.subrange(a as int, b as int),
            ),
        decreases b - a,
    {
        assert(v@.subrange(a as int, b as int).drop_last() =~= v@.subrange(
            a as int,
            b - 1,
        ));
        b = b - 1;
    }
    (a, b)
}

/// Whether `pat` occurs in `v` at position `i`.
pub fn occurs_at_exec(v: &Vec<char>, pat: &Vec<char>, i: usize) -> (b: bool)
    ensures
        b == occurs_at(v@, pat@, i as int),
{
    if i > v.len() || pat.len() > v.len() - i {
        return false;
    }
    let mut k: usize = 0;
    while k < pat.len()
        invariant
            i + pat@.len() <= v.len(),
            i <= v.len(),
            k <= pat@.len(),
            forall|j: int| 0 <= j < k ==> v@[i + j] == pat@[j],
        decreases pat@.len() - k,
    {
        if v[i + k] != pat[k] {
            assert(v@.subrange(i as int, i + pat@.len())[k as int] != pat@[k as int]);
            return false;
        }
        k = k + 1;
    }
    assert(v@.subrange(i as int, i + pat@.len()) =~= pat@);
    true
}

/// The first position at or after `from` where `pat` occurs in `v`.
pub fn find_first_from(v: &Vec<char>, pat: &Vec<char>, from: usize) -> (r: Option<usize>)
    ensures
        r matches Some(k) ==> first_from(v@, pat@, from as int) == Some(k as int),
        r is None ==> first_from(v@, pat@, from as int) is None,
{
    if pat.len() == 0 {
        if from <= v.len() {
            assert(occurs_at(v@, pat@, from as int)) by {
                assert(v@.subrange(from as int, from as int) =~= pat@);
            }
            return Some(from);
        }
        return None;
    }
    let mut i = from;
    while i < v.len() && pat.len() <= v.len() - i
        invariant
            pat@.len() > 0,
            from <= i,
            first_from(v@, pat@, from as int) == first_from(v@, pat@, i as int),
        decreases v@.len() + 1 - i,
    {
        if occurs_at_exec(v, pat, i) {
            return Some(i);
        }
        i = i + 1;
    }
    None
}

/// The last position where `pat` occurs in `v`.
pub fn find_last(v: &Vec<char>, pat: &Vec<char>) -> (r: Option<usize>)
    ensures
        r matches Some(k) ==> last_occurrence(v@, pat@) == Some(k as int),
        r is None ==> last_occurrence(v@, pat@) is None,
{
    let mut n = v.len();
    while n > 0
        invariant
            n <= v@.len(),
            last_occurrence(v@, pat@) == last_before(v@, pat@, n as int),
        decreases n,
    {
        if occurs_at_exec(v, pat, n - 1) {
            return Some(n - 1);
        }
        n = n - 1;
    }
    None
}

/// Whether `pat` occurs anywhere in `v`.
pub fn contains_exec(v: &Vec<char>, pat: &Vec<char>) -> (b: bool)
    ensures
        b == contains_seq(v@, pat@),
{
    proof {
        lemma_contains_iff_first(v@, pat@);
    }
    find_first_from(v, pat, 0).is_some()
}

/// Whether two strings hold the same characters.
pub fn str_eq(a: &str, b: &str) -> (r: bool)
    ensures
        r == (a@ == b@),
{
    let va = chars_of(a);
    let vb = chars_of(b);
    if va.len() != vb.len() {
        return false;
    }
    let mut i: usize = 0;
    while i < va.len()
        invariant
            va@ == a@,
            vb@ == b@,
            va@.len() == vb@.len(),
            i <= va@.len(),
            forall|j: int| 0 <= j < i ==> va@[j] == vb@[j],
        decreases va@.len() - i,
    {
        if va[i] != vb[i] {
            return false;
        }
        i = i + 1;
    }
    assert(va@ =~= vb@);
    true
}

/// Whether `s` equals the literal `lit`.
pub fn string_eq(s: &String, other: &String) -> (r: bool)
    ensures
        r == (s@ == other@),
{
    str_eq(s.as_str(), other.as_str())
}

/// The characters `from..to` of `s` as a new `String`.
pub fn substring(s: &str, from: usize, to: usize) -> (r: String)
    requires
        from <= to <= s@.len(),
    ensures
        r@ == s@.subrange(from as int, to as int),
{
    String::from_str(s.substring_char(from, to))
}

/// `s` with leading and trailing whitespace removed.
pub fn trimmed(s: &str) -> (r: String)
    ensures
        r@ == trim(s@),
{
    let v = chars_of(s);
    let (a, b) = trim_range(&v, 0, v.len());
    assert(v@.subrange(0, v@.len() as int) =~= v@);
    substring(s, a, b)
}

/// `s` as a new `String`.
pub fn string_of(s: &str) -> (r: String)
    ensures
        r@ == s@,
{
    String::from_str(s)
}

} // verus!
