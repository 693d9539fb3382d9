//! Extracting the remote working directory from a terminal title.
use vstd::prelude::*;

use crate::text::{
    chars_of, contains_seq, find_first_from, find_last, first_occurrence, last_before, last_occurrence,
    occurs_at,
    starts_with, substring, trim, trim_end_char, trim_range, trimmed,
};

verus! {

/// The title marker written by the shell integration of this client.
pub open spec fn cwd_marker() -> Seq<char> {
    "TINY_SHELL_CWD:"@
}

/// The title marker written by older releases.
pub open spec fn legacy_cwd_marker() -> Seq<char> {
    "ASHELL_CWD:"@
}

/// An absolute path, `~`, or a path below `~`.
pub open spec fn looks_like_path(c: Seq<char>) -> bool {
    ||| starts_with(c, seq!['/'])
    ||| c == seq!['~']
    ||| starts_with(c, seq!['~', '/'])
}

/// What follows the last occurrence of a cwd marker, the current marker first.
pub open spec fn marker_part(t: Seq<char>) -> Option<Seq<char>> {
    match last_occurrence(t, cwd_marker()) {
        Some(i) => Some(trim(t.skip(i + cwd_marker().len()))),
        None => match last_occurrence(t, legacy_cwd_marker()) {
            Some(i) => Some(trim(t.skip(i + legacy_cwd_marker().len()))),
            None => None,
        },
    }
}

/// Scanning the colons of `t` before position `n` from the right, the trimmed
/// text after the first one that looks like a path.
pub open spec fn colon_part_before(t: Seq<char>, n: int) -> Option<Seq<char>>
    decreases n,
{
    if n <= 0 || n > t.len() {
        None
    } else if t[n - 1] == ':' && looks_like_path(trim(t.skip(n))) {
        Some(trim(t.skip(n)))
    } else {
        colon_part_before(t, n - 1)
    }
}

/// The path-bearing part of an already trimmed title.
pub open spec fn path_part(t: Seq<char>) -> Option<Seq<char>> {
    match marker_part(t) {
        Some(p) => Some(p),
        None => match colon_part_before(t, t.len() as int) {
            Some(p) => Some(p),
            None => if looks_like_path(t) {
                Some(t)
            } else {
                None
            },
        },
    }
}

/// `p` cut before the first ` — ` or, failing that, the first ` | `.
pub open spec fn strip_title_suffix(p: Seq<char>) -> Seq<char> {
    match first_occurrence(p, " — "@) {
        Some(i) => trim(p.take(i)),
        None => match first_occurrence(p, " | "@) {
            Some(i) => trim(p.take(i)),
            None => p,
        },
    }
}

/// The absolute path that `p` names, `~` standing for `home`.
pub open spec fn expand_home(p: Seq<char>, home: Seq<char>) -> Option<Seq<char>> {
    if starts_with(p, seq!['/']) {
        Some(p)
    } else if p == seq!['~'] {
        Some(home)
    } else if starts_with(p, seq!['~', '/']) {
        Some(trim_end_char(home, '/') + seq!['/'] + p.skip(2))
    } else {
        None
    }
}

/// The remote directory a terminal title announces, if any.
pub open spec fn title_path(title: Seq<char>, home: Seq<char>) -> Option<Seq<char>> {
    match path_part(trim(title)) {
        Some(p) => expand_home(strip_title_suffix(p), home),
        None => None,
    }
}

/// Whether `candidate` is an absolute path, `~`, or starts with `~/`.
pub fn looks_like_terminal_path(candidate: &str) -> (b: bool)
    ensures
        b == looks_like_path(candidate@),
{
    let v = chars_of(candidate);
    if v.len() >= 1 && v[0] == '/' {
        assert(v@.subrange(0, 1) =~= seq!['/']);
        return true;
    }
    if v.len() == 1 && v[0] == '~' {
        assert(v@ =~= seq!['~']);
        return true;
    }
    if v.len() >= 2 && v[0] == '~' && v[1] == '/' {
        assert(v@.subrange(0, 2) =~= seq!['~', '/']);
        return true;
    }
    assert(!starts_with(v@, seq!['/'])) by {
        if v@.len() >= 1 {
            assert(v@.subrange(0, 1)[0] == v@[0]);
        }
    }
    assert(!starts_with(v@, seq!['~', '/'])) by {
        if v@.len() >= 2 {
            assert(v@.subrange(0, 2)[0] == v@[0]);
            assert(v@.subrange(0, 2)[1] == v@[1]);
        }
    }
    assert(v@ != seq!['~']) by {
        if v@.len() == 1 {
            assert(seq!['~'][0] == '~');
        }
    }
    false
}

/// The trimmed text after the last occurrence of `marker` in `t`.
fn after_last_marker(t: &str, tv: &Vec<char>, marker: &str) -> (r: Option<String>)
    requires
        tv@ == t@,
    ensures
        r matches Some(p) ==> last_occurrence(t@, marker@) matches Some(i) && p@ == trim(
            t@.skip(i + marker@.len()),
        ),
        r is None ==> last_occurrence(t@, marker@) is None,
{
    let mv = chars_of(marker);
    match find_last(tv, &mv) {
        Some(i) => {
            proof {
                crate::text::lemma_last_before_sound(tv@, mv@, tv@.len() as int);
                assert(occurs_at(tv@, mv@, i as int));
                assert(i + mv@.len() <= tv.len());
            }
            let (a, b) = trim_range(tv, i + mv.len(), tv.len());
            assert(tv@.subrange(i + mv@.len(), tv@.len() as int) =~= tv@.skip(i + mv@.len()));
            Some(substring(t, a, b))
        },
        None => None,
    }
}

/// The text of `t` after the rightmost colon that is followed by a path.
fn after_path_colon(t: &str, tv: &Vec<char>) -> (r: Option<String>)
    requires
        tv@ == t@,
    ensures
        r matches Some(p) ==> colon_part_before(t@, t@.len() as int) == Some(p@),
        r is None ==> colon_part_before(t@, t@.len() as int) is None,
{
    let mut n = tv.len();
    while n > 0
        invariant
            tv@ == t@,
            n <= tv@.len(),
            colon_part_before(t@, t@.len() as int) == colon_part_before(t@, n as int),
        decreases n,
    {
        if tv[n - 1] == ':' {
            let (a, b) = trim_range(tv, n, tv.len());
            assert(tv@.subrange(n as int, tv@.len() as int) =~= tv@.skip(n as int));
            let candidate = substring(t, a, b);
            if looks_like_terminal_path(candidate.as_str()) {
                return Some(candidate);
            }
        }
        n = n - 1;
    }
    None
}

/// `p` cut before the first occurrence of `sep`, trimmed.
fn before_first(p: &str, pv: &Vec<char>, sep: &str) -> (r: Option<String>)
    requires
        pv@ == p@,
    ensures
        r matches Some(q) ==> first_occurrence(p@, sep@) matches Some(i) && q@ == trim(
            p@.take(i),
        ),
        r is None ==> first_occurrence(p@, sep@) is None,
{
    let sv = chars_of(sep);
    match find_first_from(pv, &sv, 0) {
        Some(i) => {
            proof {
                crate::text::lemma_first_from_sound(pv@, sv@, 0);
                assert(occurs_at(pv@, sv@, i as int));
            }
            let (a, b) = trim_range(pv, 0, i);
            assert(pv@.subrange(0, i as int) =~= pv@.take(i as int));
            Some(substring(p, a, b))
        },
        None => None,
    }
}

/// `home` without trailing slashes, followed by `/` and `rest`.
fn join_home(home: &str, rest: &str) -> (r: String)
    ensures
        r@ == trim_end_char(home@, '/') + seq!['/'] + rest@,
{
    let hv = chars_of(home);
    let mut b = hv.len();
    assert(hv@.subrange(0, hv@.len() as int) =~= hv@);
    while b > 0 && hv[b - 1] == '/'
        invariant
            hv@ == home@,
            b <= hv@.len(),
            trim_end_char(home@, '/') == trim_end_char(hv@.subrange(0, b as int), '/'),
        decreases b,
    {
        assert(hv@.subrange(0, b as int).drop_last() =~= hv@.subrange(0, b - 1));
        b = b - 1;
    }
    assert(b == 0 || hv@.subrange(0, b as int).last() != '/');
    proof {
        reveal_strlit("/");
    }
    let base = substring(home, 0, b);
    base.concat("/").concat(rest)
}

/// The remote working directory announced by a terminal title, with `~`
/// expanded against `home_dir`; `None` when the title carries no path.
pub fn parse_path_from_title(title: &str, home_dir: &str) -> (r: Option<String>)
    ensures
        r matches Some(p) ==> title_path(title@, home_dir@) == Some(p@),
        r is None ==> title_path(title@, home_dir@) is None,
{
    let t = trimmed(title);
    let tv = chars_of(t.as_str());
    let part = match after_last_marker(t.as_str(), &tv, "TINY_SHELL_CWD:") {
        Some(p) => p,
        None => match after_last_marker(t.as_str(), &tv, "ASHELL_CWD:") {
            Some(p) => p,
            None => match after_path_colon(t.as_str(), &tv) {
                Some(p) => p,
                None => {
                    if looks_like_terminal_path(t.as_str()) {
                        t.clone()
                    } else {
                        return None;
                    }
                },
            },
        },
    };
    assert(path_part(trim(title@)) == Some(part@));
    let pv = chars_of(part.as_str());
    let path = match before_first(part.as_str(), &pv, " — ") {
        Some(q) => q,
        None => match before_first(part.as_str(), &pv, " | ") {
            Some(q) => q,
            None => part.clone(),
        },
    };
    assert(strip_title_suffix(part@) == path@);
    let qv = chars_of(path.as_str());
    if qv.len() >= 1 && qv[0] == '/' {
        assert(qv@.subrange(0, 1) =~= seq!['/']);
        return Some(path);
    }
    assert(!starts_with(path@, seq!['/'])) by {
        if qv@.len() >= 1 {
            assert(qv@.subrange(0, 1)[0] == qv@[0]);
        }
    }
    if qv.len() == 1 && qv[0] == '~' {
        assert(qv@ =~= seq!['~']);
        return Some(String::from_str(home_dir));
    }
    assert(path@ != seq!['~']) by {
        if qv@.len() == 1 {
            assert(seq!['~'][0] == '~');
        }
    }
    if qv.len() >= 2 && qv[0] == '~' && qv[1] == '/' {
        assert(qv@.subrange(0, 2) =~= seq!['~', '/']);
        let rest = substring(path.as_str(), 2, qv.len());
        assert(qv@.subrange(2, qv@.len() as int) =~= qv@.skip(2));
        return Some(join_home(home_dir, rest.as_str()));
    }
    assert(!starts_with(path@, seq!['~', '/'])) by {
        if qv@.len() >= 2 {
            assert(qv@.subrange(0, 2)[0] == qv@[0]);
            assert(qv@.subrange(0, 2)[1] == qv@[1]);
        }
    }
    None
}


proof fn lemma_last_before_occurs(s: Seq<char>, pat: Seq<char>, n: int)
    ensures
        last_before(s, pat, n) matches Some(k) ==> occurs_at(s, pat, k),
    decreases n,
{
    if n > 0 && !occurs_at(s, pat, n - 1) {
        lemma_last_before_occurs(s, pat, n - 1);
    }
}

proof fn lemma_colon_scan(t: Seq<char>, j: int, n: int)
    requires
        0 <= j < t.len(),
        t[j] == ':',
        looks_like_path(trim(t.skip(j + 1))),
        j + 1 <= n <= t.len(),
        forall|k: int| j < k < n ==> t[k] != ':',
    ensures
        colon_part_before(t, n) == Some(trim(t.skip(j + 1))),
    decreases n,
{
    if n > j + 1 {
        lemma_colon_scan(t, j, n - 1);
    }
}

/// Without a cwd marker, the path in a title is what follows its last
/// colon, whenever that looks like a path (`/...`, `~` or `~/...`); a bare
/// `~` there, as in `user@host: ~`, names the home directory.
pub proof fn title_path_after_the_last_colon(title: Seq<char>, home: Seq<char>, j: int)
    requires
        !contains_seq(trim(title), cwd_marker()),
        !contains_seq(trim(title), legacy_cwd_marker()),
        0 <= j < trim(title).len(),
        trim(title)[j] == ':',
        forall|k: int| j < k < trim(title).len() ==> trim(title)[k] != ':',
        looks_like_path(trim(trim(title).skip(j + 1))),
    ensures
        path_part(trim(title)) == Some(trim(trim(title).skip(j + 1))),
        trim(trim(title).skip(j + 1)) == seq!['~'] ==> title_path(title, home) == Some(home),
{
    let t = trim(title);
    lemma_last_before_occurs(t, cwd_marker(), t.len() as int);
    lemma_last_before_occurs(t, legacy_cwd_marker(), t.len() as int);
    if last_occurrence(t, cwd_marker()) is Some {
        assert(contains_seq(t, cwd_marker()));
    }
    if last_occurrence(t, legacy_cwd_marker()) is Some {
        assert(contains_seq(t, legacy_cwd_marker()));
    }
    assert(marker_part(t) is None);
    lemma_colon_scan(t, j, t.len() as int);
    reveal_strlit(" — ");
    reveal_strlit(" | ");
    assert(strip_title_suffix(seq!['~']) == seq!['~']);
    assert(!starts_with(seq!['~'], seq!['/'])) by {
        assert(seq!['~'].subrange(0, 1)[0] == '~');
    }
    assert(expand_home(seq!['~'], home) == Some(home));
}

} // verus!
