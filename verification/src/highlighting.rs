//! Highlight rules as the settings dialog edits them: conflicts with the
//! stored rule, the dialog's window slot, and the preview text.
use vstd::prelude::*;

use crate::terminal_completion::{
    char_utf8_width, lemma_utf8_size_take_increasing, lemma_utf8_size_take_step,
    on_char_boundary, utf8_size,
};
use crate::text::{
    chars_of, contains_exec, contains_seq, first_from, lemma_first_from_sound, occurs_at, str_eq,
    substring,
};

verus! {

/// Text on which the rule preview opens.
pub const DEFAULT_HIGHLIGHT_PREVIEW: &'static str = "2026-08-27T14:05:09+08:00 INFO Connected to 10.0.0.8:22\n\
WARN latency above threshold\n\
ERROR authentication failed (HTTP 401)\n\
SUCCESS deploy completed; service HEALTHY\n\
GET https://example.com/runbook owner=ops@example.com\n\
peer [2001:db8::42] adapter 00:1A:2B:3C:4D:5E\n\
request=550e8400-e29b-41d4-a716-446655440000 path=/var/log/app.log\n\
backup completed\n\
token refreshed\n\
thread payload ready";

/// How a rule's pattern is read.
#[derive(Clone, Copy, Debug, PartialEq, Eq, Structural)]
pub enum HighlightMatchKind {
    Literal,
    Regex,
}

/// What a match colours: the matched text or its whole line.
#[derive(Clone, Copy, Debug, PartialEq, Eq, Structural)]
pub enum HighlightTarget {
    Match,
    Line,
}

/// The colours and emphasis a rule applies.
#[derive(Clone, Debug)]
pub struct HighlightRuleStyle {
    pub foreground: Option<String>,
    pub background: Option<String>,
    pub bold: bool,
    pub underline: bool,
}

/// A highlight rule as stored in the configuration.
#[derive(Clone, Debug)]
pub struct HighlightRule {
    pub id: String,
    pub name: String,
    pub enabled: bool,
    pub pattern: String,
    pub match_kind: HighlightMatchKind,
    pub case_sensitive: bool,
    pub whole_word: bool,
    pub target: HighlightTarget,
    pub style: HighlightRuleStyle,
}

/// A rule's style by value.
pub struct StyleView {
    pub foreground: Option<Seq<char>>,
    pub background: Option<Seq<char>>,
    pub bold: bool,
    pub underline: bool,
}

/// A rule by value.
pub struct RuleView {
    pub id: Seq<char>,
    pub name: Seq<char>,
    pub enabled: bool,
    pub pattern: Seq<char>,
    pub match_kind: HighlightMatchKind,
    pub case_sensitive: bool,
    pub whole_word: bool,
    pub target: HighlightTarget,
    pub style: StyleView,
}

/// An optional text by value.
pub open spec fn opt_text(o: Option<String>) -> Option<Seq<char>> {
    match o {
        Some(s) => Some(s@),
        None => None,
    }
}

impl View for HighlightRuleStyle {
    type V = StyleView;

    open spec fn view(&self) -> StyleView {
        StyleView {
            foreground: opt_text(self.foreground),
            background: opt_text(self.background),
            bold: self.bold,
            underline: self.underline,
        }
    }
}

impl View for HighlightRule {
    type V = RuleView;

    open spec fn view(&self) -> RuleView {
        RuleView {
            id: self.id@,
            name: self.name@,
            enabled: self.enabled,
            pattern: self.pattern@,
            match_kind: self.match_kind,
            case_sensitive: self.case_sensitive,
            whole_word: self.whole_word,
            target: self.target,
            style: self.style@,
        }
    }
}

/// The built-in rules, by id and default name, with the translation key of
/// their displayed name.
pub open spec fn builtin_rule_names() -> Seq<(Seq<char>, Seq<char>, Seq<char>)> {
    seq![
        ("builtin-critical"@, "Critical"@, "highlight_builtin_critical"@),
        ("builtin-error"@, "Error"@, "highlight_builtin_error"@),
        ("builtin-warning"@, "Warning"@, "highlight_builtin_warning"@),
        ("builtin-success"@, "Success"@, "highlight_builtin_success"@),
        ("builtin-info"@, "Info"@, "highlight_builtin_info"@),
        ("builtin-debug"@, "Debug"@, "highlight_builtin_debug"@),
        ("builtin-http-errors"@, "HTTP errors"@, "highlight_builtin_http_errors"@),
        ("builtin-http-method"@, "HTTP method"@, "highlight_builtin_http_method"@),
        ("builtin-url"@, "Web URL"@, "highlight_builtin_url"@),
        ("builtin-email"@, "Email address"@, "highlight_builtin_email"@),
        ("builtin-ipv4"@, "IPv4 address"@, "highlight_builtin_ipv4"@),
        ("builtin-mac"@, "MAC address"@, "highlight_builtin_mac"@),
        ("builtin-ipv6"@, "IPv6 address"@, "highlight_builtin_ipv6"@),
        ("builtin-uuid"@, "UUID"@, "highlight_builtin_uuid"@),
        ("builtin-timestamp"@, "ISO timestamp"@, "highlight_builtin_timestamp"@),
        ("builtin-file-path"@, "File path"@, "highlight_builtin_file_path"@),
    ]
}

/// The translation key of a built-in rule's name from the position `i` of
/// the table on, while the user has not renamed it.
pub open spec fn builtin_key_from(id: Seq<char>, name: Seq<char>, i: int) -> Option<Seq<char>>
    decreases builtin_rule_names().len() - i,
{
    if i < 0 || i >= builtin_rule_names().len() {
        None
    } else if builtin_rule_names()[i].0 == id && builtin_rule_names()[i].1 == name {
        Some(builtin_rule_names()[i].2)
    } else {
        builtin_key_from(id, name, i + 1)
    }
}

/// The translation key of the displayed name of a built-in rule that keeps
/// its default name; `None` for custom or renamed rules.
pub fn built_in_name_key(rule: &HighlightRule) -> (r: Option<&'static str>)
    ensures
        match builtin_key_from(rule.id@, rule.name@, 0) {
            Some(k) => r matches Some(x) && x@ == k,
            None => r is None,
        },
{
    let table: Vec<(&'static str, &'static str, &'static str)> = vec![
        ("builtin-critical", "Critical", "highlight_builtin_critical"),
        ("builtin-error", "Error", "highlight_builtin_error"),
        ("builtin-warning", "Warning", "highlight_builtin_warning"),
        ("builtin-success", "Success", "highlight_builtin_success"),
        ("builtin-info", "Info", "highlight_builtin_info"),
        ("builtin-debug", "Debug", "highlight_builtin_debug"),
        ("builtin-http-errors", "HTTP errors", "highlight_builtin_http_errors"),
        ("builtin-http-method", "HTTP method", "highlight_builtin_http_method"),
        ("builtin-url", "Web URL", "highlight_builtin_url"),
        ("builtin-email", "Email address", "highlight_builtin_email"),
        ("builtin-ipv4", "IPv4 address", "highlight_builtin_ipv4"),
        ("builtin-mac", "MAC address", "highlight_builtin_mac"),
        ("builtin-ipv6", "IPv6 address", "highlight_builtin_ipv6"),
        ("builtin-uuid", "UUID", "highlight_builtin_uuid"),
        ("builtin-timestamp", "ISO timestamp", "highlight_builtin_timestamp"),
        ("builtin-file-path", "File path", "highlight_builtin_file_path"),
    ];
    let ghost names = builtin_rule_names();
    assert(table@.len() == names.len());
    assert forall|k: int| 0 <= k < names.len() implies (#[trigger] table@[k]).0@ == names[k].0
        && table@[k].1@ == names[k].1 && table@[k].2@ == names[k].2 by {}
    let mut i: usize = 0;
    while i < table.len()
        invariant
            i <= table@.len(),
            names == builtin_rule_names(),
            table@.len() == names.len(),
            forall|k: int|
                0 <= k < names.len() ==> (#[trigger] table@[k]).0@ == names[k].0 && table@[k].1@
                    == names[k].1 && table@[k].2@ == names[k].2,
            builtin_key_from(rule.id@, rule.name@, 0) == builtin_key_from(
                rule.id@,
                rule.name@,
                i as int,
            ),
        decreases table@.len() - i,
    {
        let (id, name, key) = table[i];
        if str_eq(rule.id.as_str(), id) && str_eq(rule.name.as_str(), name) {
            return Some(key);
        }
        i = i + 1;
    }
    None
}

/// An optional rule by value.
pub open spec fn opt_rule(o: Option<&HighlightRule>) -> Option<RuleView> {
    match o {
        Some(r) => Some(r@),
        None => None,
    }
}

/// Whether two optional texts are equal.
fn opt_text_eq(a: &Option<String>, b: &Option<String>) -> (r: bool)
    ensures
        r == (opt_text(*a) == opt_text(*b)),
{
    match (a, b) {
        (Some(x), Some(y)) => str_eq(x.as_str(), y.as_str()),
        (None, None) => true,
        _ => false,
    }
}

/// Whether two rules are equal in every field.
pub fn rules_equal(a: &HighlightRule, b: &HighlightRule) -> (r: bool)
    ensures
        r == (a@ == b@),
{
    str_eq(a.id.as_str(), b.id.as_str()) && str_eq(a.name.as_str(), b.name.as_str()) && a.enabled
        == b.enabled && str_eq(a.pattern.as_str(), b.pattern.as_str()) && a.match_kind
        == b.match_kind && a.case_sensitive == b.case_sensitive && a.whole_word == b.whole_word
        && a.target == b.target && opt_text_eq(&a.style.foreground, &b.style.foreground)
        && opt_text_eq(&a.style.background, &b.style.background) && a.style.bold == b.style.bold
        && a.style.underline == b.style.underline
}

/// Whether the stored rule changed, appeared or disappeared since the
/// dialog loaded it.
pub fn highlight_rule_has_conflict(
    baseline: Option<&HighlightRule>,
    current: Option<&HighlightRule>,
) -> (r: bool)
    ensures
        r == (opt_rule(baseline) != opt_rule(current)),
{
    match (baseline, current) {
        (Some(a), Some(b)) => !rules_equal(a, b),
        (None, None) => false,
        _ => true,
    }
}

/// The dialog window slot after the window `closing` closed: emptied when
/// it held that window, unchanged otherwise.
pub open spec fn slot_after_close(slot: Option<u64>, closing: u64) -> Option<u64> {
    if slot == Some(closing) {
        None
    } else {
        slot
    }
}

/// Forgets the dialog window held in the slot when it is the one closing;
/// reports whether it was.
pub fn clear_highlight_rules_dialog_window(slot: &mut Option<u64>, closing: u64) -> (r: bool)
    ensures
        r == (*old(slot) == Some(closing)),
        *final(slot) == slot_after_close(*old(slot), closing),
{
    match *slot {
        Some(t) => {
            if t == closing {
                *slot = None;
                true
            } else {
                false
            }
        },
        None => false,
    }
}

/// Closing is idempotent: once a window's close was handled, handling it
/// again changes nothing and reports that nothing was cleared; a slot that
/// holds another window is never cleared by it.
pub proof fn closing_dialog_window_twice_clears_once(slot: Option<u64>, closing: u64)
    ensures
        slot_after_close(slot_after_close(slot, closing), closing) == slot_after_close(
            slot,
            closing,
        ),
        slot_after_close(slot, closing) != Some(closing),
        slot != Some(closing) ==> slot_after_close(slot, closing) == slot,
{
}

/// The words whose substrings once matched rules that should only match
/// whole words.
pub open spec fn boundary_samples() -> Seq<Seq<char>> {
    seq!["backup"@, "token"@, "thread"@, "payload"@]
}

/// Whether the preview holds every word that once tripped whole-word rules.
pub fn preview_contains_boundary_regressions(preview: &str) -> (r: bool)
    ensures
        r == (forall|k: int|
            0 <= k < boundary_samples().len() ==> contains_seq(
                preview@,
                #[trigger] boundary_samples()[k],
            )),
{
    let v = chars_of(preview);
    let a = contains_exec(&v, &chars_of("backup"));
    let b = contains_exec(&v, &chars_of("token"));
    let c = contains_exec(&v, &chars_of("thread"));
    let d = contains_exec(&v, &chars_of("payload"));
    proof {
        if !(a && b && c && d) {
            if !a {
                assert(!contains_seq(preview@, boundary_samples()[0]));
            } else if !b {
                assert(!contains_seq(preview@, boundary_samples()[1]));
            } else if !c {
                assert(!contains_seq(preview@, boundary_samples()[2]));
            } else {
                assert(!contains_seq(preview@, boundary_samples()[3]));
            }
        }
    }
    a && b && c && d
}

/// A run of preview text, and whether a rule matched it.
#[derive(Debug, Clone, PartialEq, Eq)]
pub struct PreviewSegment {
    pub text: String,
    pub matched: bool,
}

/// The character position whose UTF-8 offset in `s` is `b`.
pub open spec fn char_at_byte(s: Seq<char>, b: int) -> int {
    choose|k: int| 0 <= k <= s.len() && utf8_size(#[trigger] s.take(k)) == b
}

/// `x` moved into `lo..=hi`, as `x.max(lo).min(hi)` does.
pub open spec fn clamp(x: int, lo: int, hi: int) -> int {
    let y = if x < lo {
        lo
    } else {
        x
    };
    if y > hi {
        hi
    } else {
        y
    }
}

/// The pieces, as UTF-8 byte bounds and whether matched, that the ranges
/// from `i` on cut from the line `ls..le` once `cursor` bytes of it are
/// covered: a range clipped to the line that reaches past the cursor gives
/// the unmatched gap before it, if any, then its matched part past the
/// cursor; what is left of the line after the last range is unmatched.
pub open spec fn line_pieces(
    ls: int,
    le: int,
    ranges: Seq<(int, int)>,
    i: int,
    cursor: int,
) -> Seq<(int, int, bool)>
    decreases ranges.len() - i,
{
    if i < 0 || i >= ranges.len() {
        if cursor < le {
            seq![(cursor, le, false)]
        } else {
            seq![]
        }
    } else {
        let start = clamp(ranges[i].0, ls, le);
        let end = clamp(ranges[i].1, ls, le);
        if start >= end || end <= cursor {
            line_pieces(ls, le, ranges, i + 1, cursor)
        } else {
            let gap: Seq<(int, int, bool)> = if start > cursor {
                seq![(cursor, start, false)]
            } else {
                seq![]
            };
            let from = if start > cursor {
                start
            } else {
                cursor
            };
            gap + seq![(from, end, true)] + line_pieces(ls, le, ranges, i + 1, end)
        }
    }
}

/// Pieces `ps` cover the bytes `from..to` one after another, each piece
/// non-empty.
pub open spec fn tiles(ps: Seq<(int, int, bool)>, from: int, to: int) -> bool
    decreases ps.len(),
{
    if ps.len() == 0 {
        from == to
    } else {
        ps[0].0 == from && ps[0].0 < ps[0].1 && tiles(ps.drop_first(), ps[0].1, to)
    }
}

/// Every matched piece lies within one of the ranges.
pub open spec fn matched_within(ps: Seq<(int, int, bool)>, ranges: Seq<(int, int)>) -> bool {
    forall|k: int|
        0 <= k < ps.len() && (#[trigger] ps[k]).2 ==> exists|j: int|
            0 <= j < ranges.len() && ranges[j].0 <= ps[k].0 && ps[k].1 <= ranges[j].1
}

proof fn lemma_tiles_cons(x: (int, int, bool), ps: Seq<(int, int, bool)>, from: int, to: int)
    requires
        x.0 == from,
        x.0 < x.1,
        tiles(ps, x.1, to),
    ensures
        tiles(seq![x] + ps, from, to),
{
    assert((seq![x] + ps).drop_first() =~= ps);
}

/// The pieces a line is cut into follow each other from the cursor to the
/// end of the line, none of them empty, and every matched piece lies within
/// one of the ranges: the pieces of a line put back together give the line
/// (what the cursor had not yet covered), and only matched text is marked.
pub proof fn line_pieces_tile_the_line(ls: int, le: int, ranges: Seq<(int, int)>, i: int, cursor: int)
    requires
        ls <= cursor <= le,
    ensures
        tiles(line_pieces(ls, le, ranges, i, cursor), cursor, le),
        matched_within(line_pieces(ls, le, ranges, i, cursor), ranges),
    decreases ranges.len() - i,
{
    let ps = line_pieces(ls, le, ranges, i, cursor);
    if i < 0 || i >= ranges.len() {
        if cursor < le {
            assert(seq![(cursor, le, false)].drop_first() =~= Seq::<(int, int, bool)>::empty());
            assert(tiles(Seq::<(int, int, bool)>::empty(), le, le));
            assert(ps == seq![(cursor, le, false)]);
            assert(tiles(ps, cursor, le));
        }
    } else {
        let start = clamp(ranges[i].0, ls, le);
        let end = clamp(ranges[i].1, ls, le);
        if start >= end || end <= cursor {
            line_pieces_tile_the_line(ls, le, ranges, i + 1, cursor);
        } else {
            line_pieces_tile_the_line(ls, le, ranges, i + 1, end);
            let rest = line_pieces(ls, le, ranges, i + 1, end);
            let from = if start > cursor { start } else { cursor };
            let m = (from, end, true);
            lemma_tiles_cons(m, rest, from, le);
            let tail = seq![m] + rest;
            if start > cursor {
                let g = (cursor, start, false);
                lemma_tiles_cons(g, tail, cursor, le);
                assert(ps =~= seq![g] + tail);
            } else {
                assert(ps =~= tail);
            }
            assert(tiles(ps, cursor, le));
            assert forall|k: int| 0 <= k < ps.len() && (#[trigger] ps[k]).2 implies exists|j: int|
                0 <= j < ranges.len() && ranges[j].0 <= ps[k].0 && ps[k].1 <= ranges[j].1 by {
                let off = if start > cursor { 1int } else { 0int };
                if k == off {
                    assert(ps[k] == m);
                    assert(ranges[i].0 <= ps[k].0 && ps[k].1 <= ranges[i].1);
                } else if k > off {
                    assert(ps[k] == rest[k - off - 1]);
                    assert(rest[k - off - 1].2);
                }
            }
        }
    }
}

/// The pieces of every line of a preview follow each other across the whole
/// line, none empty, and only text within a match is marked; a line that
/// is cut into no pieces is shown whole, as a single space when empty.
pub proof fn preview_pieces_cover_each_line(s: Seq<char>, l: (int, int), ranges: Seq<(int, int)>)
    requires
        0 <= l.0 <= l.1 <= s.len(),
    ensures
        tiles(pieces_of_line(s, l, ranges), byte_at(s, l.0), byte_at(s, l.1)),
        matched_within(pieces_of_line(s, l, ranges), ranges),
        pieces_of_line(s, l, ranges).len() == 0 ==> preview_line(s, l, ranges) == seq![
            (if l.0 == l.1 { seq![' '] } else { s.subrange(l.0, l.1) }, false),
        ],
{
    crate::terminal_completion::lemma_utf8_size_take_increasing_or_equal(s, l.0, l.1);
    line_pieces_tile_the_line(byte_at(s, l.0), byte_at(s, l.1), ranges, 0, byte_at(s, l.0));
}

/// The texts of segments, one after another.
pub open spec fn joined(ts: Seq<(Seq<char>, bool)>) -> Seq<char>
    decreases ts.len(),
{
    if ts.len() == 0 {
        seq![]
    } else {
        ts[0].0 + joined(ts.drop_first())
    }
}

/// Every piece starts and ends between two characters of `s`.
pub open spec fn ends_on_boundaries(s: Seq<char>, ps: Seq<(int, int, bool)>) -> bool {
    forall|k: int|
        0 <= k < ps.len() ==> (#[trigger] ps[k]).0 >= 0 && ps[k].1 >= 0 && on_char_boundary(
            s,
            ps[k].0 as nat,
        ) && on_char_boundary(s, ps[k].1 as nat)
}

proof fn lemma_char_at_byte(s: Seq<char>, b: int)
    requires
        b >= 0,
        on_char_boundary(s, b as nat),
    ensures
        0 <= char_at_byte(s, b) <= s.len(),
        utf8_size(s.take(char_at_byte(s, b))) == b,
{
}

proof fn lemma_char_at_byte_at(s: Seq<char>, k: int)
    requires
        0 <= k <= s.len(),
    ensures
        char_at_byte(s, byte_at(s, k)) == k,
{
    assert(on_char_boundary(s, byte_at(s, k) as nat));
    lemma_char_at_byte(s, byte_at(s, k));
    lemma_byte_offset_unique(s, char_at_byte(s, byte_at(s, k)), k);
}

proof fn lemma_char_order(s: Seq<char>, b1: int, b2: int)
    requires
        0 <= b1 < b2,
        on_char_boundary(s, b1 as nat),
        on_char_boundary(s, b2 as nat),
    ensures
        char_at_byte(s, b1) < char_at_byte(s, b2),
{
    lemma_char_at_byte(s, b1);
    lemma_char_at_byte(s, b2);
    if char_at_byte(s, b2) <= char_at_byte(s, b1) {
        crate::terminal_completion::lemma_utf8_size_take_increasing_or_equal(
            s,
            char_at_byte(s, b2),
            char_at_byte(s, b1),
        );
    }
}

proof fn lemma_tiles_forward(ps: Seq<(int, int, bool)>, from: int, to: int)
    requires
        tiles(ps, from, to),
    ensures
        from <= to,
        ps.len() > 0 ==> from < to,
    decreases ps.len(),
{
    if ps.len() > 0 {
        lemma_tiles_forward(ps.drop_first(), ps[0].1, to);
    }
}

proof fn lemma_joined_tiles(s: Seq<char>, ps: Seq<(int, int, bool)>, from: int, to: int)
    requires
        tiles(ps, from, to),
        from >= 0,
        on_char_boundary(s, from as nat),
        on_char_boundary(s, to as nat),
        ends_on_boundaries(s, ps),
    ensures
        joined(piece_texts(s, ps)) == s.subrange(char_at_byte(s, from), char_at_byte(s, to)),
        forall|k: int| 0 <= k < ps.len() ==> (#[trigger] piece_texts(s, ps)[k]).0.len() > 0,
        char_at_byte(s, from) <= char_at_byte(s, to),
    decreases ps.len(),
{
    lemma_char_at_byte(s, from);
    lemma_tiles_forward(ps, from, to);
    lemma_char_at_byte(s, to);
    if ps.len() == 0 {
        assert(s.subrange(char_at_byte(s, from), char_at_byte(s, to)) =~= Seq::<char>::empty());
    } else {
        let p = ps[0];
        let rest = ps.drop_first();
        assert forall|k: int| 0 <= k < rest.len() implies (#[trigger] rest[k]).0 >= 0 && rest[k].1
            >= 0 && on_char_boundary(s, rest[k].0 as nat) && on_char_boundary(
            s,
            rest[k].1 as nat,
        ) by {
            assert(rest[k] == ps[k + 1]);
        }
        assert(ps[0] == p);
        lemma_joined_tiles(s, rest, p.1, to);
        lemma_char_order(s, p.0, p.1);
        lemma_char_at_byte(s, p.1);
        assert(piece_texts(s, ps).drop_first() =~= piece_texts(s, rest));
        let a = char_at_byte(s, from);
        let m = char_at_byte(s, p.1);
        let z = char_at_byte(s, to);
        assert(s.subrange(a, m) + s.subrange(m, z) =~= s.subrange(a, z));
        assert forall|k: int| 0 <= k < ps.len() implies (#[trigger] piece_texts(s, ps)[k]).0.len()
            > 0 by {
            if k > 0 {
                assert(piece_texts(s, ps)[k] == piece_texts(s, rest)[k - 1]);
            }
        }
    }
}

/// The segments of a line of the preview put together give the line back,
/// a single space standing for an empty line, and none of them is empty.
pub proof fn preview_line_joins_back(s: Seq<char>, l: (int, int), ranges: Seq<(int, int)>)
    requires
        0 <= l.0 <= l.1 <= s.len(),
        ends_on_boundaries(s, pieces_of_line(s, l, ranges)),
    ensures
        joined(preview_line(s, l, ranges)) == if l.0 == l.1 {
            seq![' ']
        } else {
            s.subrange(l.0, l.1)
        },
        forall|k: int|
            0 <= k < preview_line(s, l, ranges).len() ==> (#[trigger] preview_line(s, l, ranges)[k]).0.len()
                > 0,
{
    let ps = pieces_of_line(s, l, ranges);
    preview_pieces_cover_each_line(s, l, ranges);
    lemma_char_at_byte_at(s, l.0);
    lemma_char_at_byte_at(s, l.1);
    assert(on_char_boundary(s, byte_at(s, l.0) as nat));
    assert(on_char_boundary(s, byte_at(s, l.1) as nat));
    lemma_tiles_forward(ps, byte_at(s, l.0), byte_at(s, l.1));
    lemma_joined_tiles(s, ps, byte_at(s, l.0), byte_at(s, l.1));
    if ps.len() == 0 {
        if l.0 < l.1 {
            lemma_utf8_size_take_increasing(s, l.0, l.1);
        }
        let t = if l.0 == l.1 { seq![' '] } else { s.subrange(l.0, l.1) };
        assert(preview_line(s, l, ranges) == seq![(t, false)]);
        assert(seq![(t, false)].drop_first() =~= Seq::<(Seq<char>, bool)>::empty());
        assert(joined(Seq::<(Seq<char>, bool)>::empty()) == Seq::<char>::empty());
        assert(seq![(t, false)][0].0 == t);
        assert(t + Seq::<char>::empty() =~= t);
        assert(joined(seq![(t, false)]) =~= t);
    } else {
        if l.0 == l.1 {
            assert(byte_at(s, l.0) == byte_at(s, l.1));
            assert(false);
        }
    }
}

/// The lines of `s` from character `c0` on, as character bounds, split at
/// each `\n`.
pub open spec fn line_bounds(s: Seq<char>, c0: int) -> Seq<(int, int)>
    decreases s.len() + 1 - c0,
    when 0 <= c0 <= s.len()
{
    match first_from(s, seq!['\n'], c0) {
        Some(j) => {
            proof {
                lemma_first_from_sound(s, seq!['\n'], c0);
            }
            seq![(c0, j)] + line_bounds(s, j + 1)
        },
        None => seq![(c0, s.len() as int)],
    }
}

/// Every line lies within `s`, its start not past its end.
proof fn lemma_line_bounds_within(s: Seq<char>, c0: int)
    requires
        0 <= c0 <= s.len(),
    ensures
        forall|k: int|
            0 <= k < line_bounds(s, c0).len() ==> 0 <= (#[trigger] line_bounds(s, c0)[k]).0
                <= line_bounds(s, c0)[k].1 <= s.len(),
    decreases s.len() + 1 - c0,
{
    crate::text::lemma_first_from_sound(s, seq!['\n'], c0);
    match first_from(s, seq!['\n'], c0) {
        Some(j) => {
            lemma_line_bounds_within(s, j + 1);
            let lb = line_bounds(s, c0);
            assert forall|k: int| 0 <= k < lb.len() implies 0 <= (#[trigger] lb[k]).0 <= lb[k].1
                <= s.len() by {
                if k > 0 {
                    assert(lb[k] == line_bounds(s, j + 1)[k - 1]);
                }
            }
        },
        None => {},
    }
}

/// The UTF-8 offset of character position `k` of `s`.
pub open spec fn byte_at(s: Seq<char>, k: int) -> int {
    utf8_size(s.take(k)) as int
}

/// The pieces that the ranges cut from line `l` of `s`.
pub open spec fn pieces_of_line(s: Seq<char>, l: (int, int), ranges: Seq<(int, int)>) -> Seq<
    (int, int, bool),
> {
    line_pieces(byte_at(s, l.0), byte_at(s, l.1), ranges, 0, byte_at(s, l.0))
}

/// The text of a piece and whether it matched.
pub open spec fn piece_text(s: Seq<char>, p: (int, int, bool)) -> (Seq<char>, bool) {
    (s.subrange(char_at_byte(s, p.0), char_at_byte(s, p.1)), p.2)
}

/// The texts of pieces and whether they matched.
pub open spec fn piece_texts(s: Seq<char>, ps: Seq<(int, int, bool)>) -> Seq<(Seq<char>, bool)> {
    ps.map_values(|p: (int, int, bool)| piece_text(s, p))
}

/// The preview of one line: its pieces, or for a line without pieces its
/// text, a single space standing for an empty line.
pub open spec fn preview_line(s: Seq<char>, l: (int, int), ranges: Seq<(int, int)>) -> Seq<
    (Seq<char>, bool),
> {
    let pieces = pieces_of_line(s, l, ranges);
    if pieces.len() == 0 {
        seq![(if l.0 == l.1 { seq![' '] } else { s.subrange(l.0, l.1) }, false)]
    } else {
        piece_texts(s, pieces)
    }
}

/// The preview of every line of `s` with the byte ranges `ranges` marked.
pub open spec fn preview_lines(s: Seq<char>, ranges: Seq<(int, int)>) -> Seq<
    Seq<(Seq<char>, bool)>,
> {
    line_bounds(s, 0).map_values(|l: (int, int)| preview_line(s, l, ranges))
}

/// Every piece of every line starts and ends between characters: slicing
/// the text there does not panic.
pub open spec fn pieces_on_boundaries(s: Seq<char>, ranges: Seq<(int, int)>) -> bool {
    forall|i: int, j: int|
        0 <= i < line_bounds(s, 0).len() && 0 <= j < pieces_of_line(
            s,
            line_bounds(s, 0)[i],
            ranges,
        ).len() ==> {
            let p = #[trigger] pieces_of_line(s, line_bounds(s, 0)[i], ranges)[j];
            p.0 >= 0 && p.1 >= 0 && on_char_boundary(s, p.0 as nat) && on_char_boundary(
                s,
                p.1 as nat,
            )
        }
}

/// The ranges as pairs of integers.
pub open spec fn range_pairs(ranges: Seq<std::ops::Range<usize>>) -> Seq<(int, int)> {
    ranges.map_values(|r: std::ops::Range<usize>| (r.start as int, r.end as int))
}

/// The segments by value.
pub open spec fn segment_views(v: Seq<PreviewSegment>) -> Seq<(Seq<char>, bool)> {
    v.map_values(|g: PreviewSegment| (g.text@, g.matched))
}

/// Character positions with the same UTF-8 offset are the same.
proof fn lemma_byte_offset_unique(s: Seq<char>, a: int, b: int)
    requires
        0 <= a <= s.len(),
        0 <= b <= s.len(),
        utf8_size(s.take(a)) == utf8_size(s.take(b)),
    ensures
        a == b,
{
    if a < b {
        lemma_utf8_size_take_increasing(s, a, b);
    } else if b < a {
        lemma_utf8_size_take_increasing(s, b, a);
    }
}

/// The UTF-8 offsets of every character position of `v`.
fn byte_offsets(v: &Vec<char>) -> (r: Vec<usize>)
    requires
        utf8_size(v@) <= usize::MAX,
    ensures
        r@.len() == v@.len() + 1,
        forall|k: int| 0 <= k <= v@.len() ==> r@[k] == byte_at(v@, k),
{
    let mut out: Vec<usize> = Vec::new();
    let mut acc: usize = 0;
    let mut k: usize = 0;
    assert(v@.take(0) =~= Seq::<char>::empty());
    while k < v.len()
        invariant
            k <= v@.len(),
            utf8_size(v@) <= usize::MAX,
            out@.len() == k,
            acc == byte_at(v@, k as int),
            forall|j: int| 0 <= j < k ==> out@[j] == byte_at(v@, j),
        decreases v@.len() - k,
    {
        out.push(acc);
        proof {
            lemma_utf8_size_take_step(v@, k as int);
            assert(v@.take(v@.len() as int) =~= v@);
            if k + 1 < v@.len() {
                lemma_utf8_size_take_increasing(v@, k + 1, v@.len() as int);
            }
        }
        acc = acc + char_utf8_width(v[k]);
        k = k + 1;
    }
    out.push(acc);
    out
}

/// The character position whose UTF-8 offset is `b`, if there is one.
fn char_index_of(offsets: &Vec<usize>, b: usize) -> (r: Option<usize>)
    ensures
        r matches Some(k) ==> k < offsets@.len() && offsets@[k as int] == b,
        r is None ==> forall|k: int| 0 <= k < offsets@.len() ==> offsets@[k] != b,
{
    let mut k: usize = 0;
    while k < offsets.len()
        invariant
            k <= offsets@.len(),
            forall|j: int| 0 <= j < k ==> offsets@[j] != b,
        decreases offsets@.len() - k,
    {
        if offsets[k] == b {
            return Some(k);
        }
        k = k + 1;
    }
    None
}

/// The text of the UTF-8 bytes `a..b` of `text`, which both lie between
/// characters.
fn text_between(text: &str, offsets: &Vec<usize>, a: usize, b: usize) -> (r: String)
    requires
        offsets@.len() == text@.len() + 1,
        forall|k: int| 0 <= k <= text@.len() ==> offsets@[k] == byte_at(text@, k),
        on_char_boundary(text@, a as nat),
        on_char_boundary(text@, b as nat),
        a <= b,
    ensures
        r@ == text@.subrange(char_at_byte(text@, a as int), char_at_byte(text@, b as int)),
{
    let ghost s = text@;
    let ghost ka = char_at_byte(s, a as int);
    let ghost kb = char_at_byte(s, b as int);
    let ia = char_index_of(offsets, a);
    let ib = char_index_of(offsets, b);
    let x = match ia {
        Some(x) => x,
        None => {
            proof {
                assert(offsets@[ka] == a);
            }
            0
        },
    };
    let y = match ib {
        Some(y) => y,
        None => {
            proof {
                assert(offsets@[kb] == b);
            }
            0
        },
    };
    proof {
        if ia is None {
            assert(offsets@[ka] == a);
        }
        if ib is None {
            assert(offsets@[kb] == b);
        }
        lemma_byte_offset_unique(s, x as int, ka);
        lemma_byte_offset_unique(s, y as int, kb);
        if y < x {
            lemma_utf8_size_take_increasing(s, y as int, x as int);
        }
    }
    substring(text, x, y)
}

/// Pushing the segment of a piece extends the segments as the piece extends
/// the pieces.
proof fn lemma_push_piece(
    s: Seq<char>,
    before: Seq<PreviewSegment>,
    done: Seq<(int, int, bool)>,
    p: (int, int, bool),
    after: Seq<PreviewSegment>,
)
    requires
        segment_views(before) == piece_texts(s, done),
        after.len() == before.len() + 1,
        forall|k: int| 0 <= k < before.len() ==> after[k] == before[k],
        (after.last().text@, after.last().matched) == piece_text(s, p),
    ensures
        segment_views(after) == piece_texts(s, done.push(p)),
{
    assert(segment_views(before).len() == before.len());
    assert(piece_texts(s, done).len() == done.len());
    assert(done.len() == before.len());
    assert forall|k: int| 0 <= k < after.len() implies segment_views(after)[k] == piece_texts(
        s,
        done.push(p),
    )[k] by {
        if k < before.len() {
            assert(segment_views(before)[k] == piece_texts(s, done)[k]);
            assert(done.push(p)[k] == done[k]);
        } else {
            assert(after[k] == after.last());
        }
    }
    assert(segment_views(after) =~= piece_texts(s, done.push(p)));
}

/// `x.max(lo).min(hi)`.
fn clamp_exec(x: usize, lo: usize, hi: usize) -> (r: usize)
    ensures
        r == clamp(x as int, lo as int, hi as int),
{
    let y = if x < lo {
        lo
    } else {
        x
    };
    if y > hi {
        hi
    } else {
        y
    }
}

/// The preview of the line of `text` between characters `c0` and `c1`.
fn preview_line_exec(
    text: &str,
    offsets: &Vec<usize>,
    ranges: &[std::ops::Range<usize>],
    c0: usize,
    c1: usize,
) -> (r: Vec<PreviewSegment>)
    requires
        c0 <= c1 <= text@.len(),
        offsets@.len() == text@.len() + 1,
        forall|k: int| 0 <= k <= text@.len() ==> offsets@[k] == byte_at(text@, k),
        forall|j: int|
            0 <= j < pieces_of_line(text@, (c0 as int, c1 as int), range_pairs(ranges@)).len()
                ==> {
                let p = #[trigger] pieces_of_line(
                    text@,
                    (c0 as int, c1 as int),
                    range_pairs(ranges@),
                )[j];
                p.0 >= 0 && p.1 >= 0 && on_char_boundary(text@, p.0 as nat) && on_char_boundary(
                    text@,
                    p.1 as nat,
                )
            },
    ensures
        segment_views(r@) == preview_line(text@, (c0 as int, c1 as int), range_pairs(ranges@)),
{
    let ghost s = text@;
    let ghost rv = range_pairs(ranges@);
    let ls = offsets[c0];
    let le = offsets[c1];
    proof {
        if c0 < c1 {
            lemma_utf8_size_take_increasing(s, c0 as int, c1 as int);
        }
    }
    let ghost whole = pieces_of_line(s, (c0 as int, c1 as int), rv);
    let ghost mut done: Seq<(int, int, bool)> = seq![];
    let mut segments: Vec<PreviewSegment> = Vec::new();
    let mut cursor = ls;
    let mut i: usize = 0;
    while i < ranges.len()
        invariant
            s == text@,
            rv == range_pairs(ranges@),
            offsets@.len() == s.len() + 1,
            forall|k: int| 0 <= k <= s.len() ==> offsets@[k] == byte_at(s, k),
            ls == byte_at(s, c0 as int),
            le == byte_at(s, c1 as int),
            ls <= cursor <= le,
            i <= ranges@.len(),
            whole == pieces_of_line(s, (c0 as int, c1 as int), rv),
            whole == done + line_pieces(ls as int, le as int, rv, i as int, cursor as int),
            segment_views(segments@) == piece_texts(s, done),
            forall|j: int|
                0 <= j < whole.len() ==> {
                    let p = #[trigger] whole[j];
                    p.0 >= 0 && p.1 >= 0 && on_char_boundary(s, p.0 as nat) && on_char_boundary(
                        s,
                        p.1 as nat,
                    )
                },
        decreases ranges@.len() - i,
    {
        let start = clamp_exec(ranges[i].start, ls, le);
        let end = clamp_exec(ranges[i].end, ls, le);
        assert(rv[i as int] == (ranges@[i as int].start as int, ranges@[i as int].end as int));
        if !(start >= end || end <= cursor) {
            let ghost rest = line_pieces(ls as int, le as int, rv, i + 1, end as int);
            if start > cursor {
                let ghost p = (cursor as int, start as int, false);
                assert(whole[done.len() as int] == p);
                let t = text_between(text, offsets, cursor, start);
                let ghost before = segments@;
                segments.push(PreviewSegment { text: t, matched: false });
                proof {
                    lemma_push_piece(s, before, done, p, segments@);
                    assert(line_pieces(ls as int, le as int, rv, i as int, cursor as int) =~= seq![
                        p,
                    ] + (seq![(start as int, end as int, true)] + rest));
                    assert(whole =~= done.push(p) + (seq![(start as int, end as int, true)]
                        + rest));
                    done = done.push(p);
                }
            } else {
                proof {
                    assert(line_pieces(ls as int, le as int, rv, i as int, cursor as int) =~= seq![
                        (cursor as int, end as int, true),
                    ] + rest);
                }
            }
            let from = if start > cursor {
                start
            } else {
                cursor
            };
            let ghost q = (from as int, end as int, true);
            assert(whole == done + (seq![q] + rest));
            assert(whole[done.len() as int] == q);
            let t = text_between(text, offsets, from, end);
            let ghost before = segments@;
            segments.push(PreviewSegment { text: t, matched: true });
            proof {
                lemma_push_piece(s, before, done, q, segments@);
                assert(whole =~= done.push(q) + rest);
                done = done.push(q);
            }
            cursor = end;
        }
        i = i + 1;
    }
    if cursor < le {
        let ghost p = (cursor as int, le as int, false);
        assert(whole =~= done + seq![p]);
        assert(whole[done.len() as int] == p);
        let t = text_between(text, offsets, cursor, le);
        let ghost before = segments@;
        segments.push(PreviewSegment { text: t, matched: false });
        proof {
            lemma_push_piece(s, before, done, p, segments@);
            done = done.push(p);
        }
    }
    assert(whole =~= done);
    if segments.len() == 0 {
        assert(segment_views(segments@).len() == 0);
        assert(whole.len() == 0);
        let t = if c0 == c1 {
            String::from_str(" ")
        } else {
            substring(text, c0, c1)
        };
        proof {
            reveal_strlit(" ");
            assert(" "@ =~= seq![' ']);
        }
        segments.push(PreviewSegment { text: t, matched: false });
        assert(segment_views(segments@) =~= preview_line(s, (c0 as int, c1 as int), rv));
    } else {
        assert(whole.len() > 0);
    }
    segments
}

/// Splits the preview text into lines and each line into runs that the
/// rule's matches (UTF-8 byte ranges) cover or not.
pub fn split_preview_lines(text: &str, ranges: &[std::ops::Range<usize>]) -> (r: Vec<
    Vec<PreviewSegment>,
>)
    requires
        utf8_size(text@) <= usize::MAX,
        pieces_on_boundaries(text@, range_pairs(ranges@)),
    ensures
        r@.len() == line_bounds(text@, 0).len(),
        forall|i: int|
            0 <= i < r@.len() ==> segment_views(#[trigger] r@[i]@) == preview_lines(
                text@,
                range_pairs(ranges@),
            )[i],
        forall|i: int|
            0 <= i < r@.len() ==> joined(segment_views(#[trigger] r@[i]@)) == ({
                let l = line_bounds(text@, 0)[i];
                if l.0 == l.1 {
                    seq![' ']
                } else {
                    text@.subrange(l.0, l.1)
                }
            }),
        forall|i: int, k: int|
            0 <= i < r@.len() && 0 <= k < r@[i]@.len() ==> (#[trigger] r@[i]@[k]).text@.len() > 0,
{
    let ghost s = text@;
    let ghost rv = range_pairs(ranges@);
    let v = chars_of(text);
    let offsets = byte_offsets(&v);
    let mut result: Vec<Vec<PreviewSegment>> = Vec::new();
    let ghost all = line_bounds(s, 0);
    let ghost mut done: Seq<(int, int)> = seq![];
    let mut c0: usize = 0;
    let mut finished = false;
    while !finished
        invariant
            s == text@,
            v@ == s,
            rv == range_pairs(ranges@),
            offsets@.len() == s.len() + 1,
            forall|k: int| 0 <= k <= s.len() ==> offsets@[k] == byte_at(s, k),
            pieces_on_boundaries(s, rv),
            all == line_bounds(s, 0),
            c0 <= s.len(),
            finished ==> done == all,
            !finished ==> all == done + line_bounds(s, c0 as int),
            result@.len() == done.len(),
            forall|k: int|
                0 <= k < done.len() ==> segment_views(#[trigger] result@[k]@) == preview_line(
                    s,
                    done[k],
                    rv,
                ),
        decreases s.len() + 1 - c0, if finished {
            0int
        } else {
            1int
        },
    {
        let mut j = c0;
        while j < v.len() && v[j] != '\n'
            invariant
                c0 <= j <= v@.len(),
                forall|k: int| c0 <= k < j ==> v@[k] != '\n',
            decreases v@.len() - j,
        {
            j = j + 1;
        }
        proof {
            lemma_first_from_sound(s, seq!['\n'], c0 as int);
            if j < v.len() {
                assert(s.subrange(j as int, j + 1) =~= seq!['\n']);
                assert(occurs_at(s, seq!['\n'], j as int));
                let f = first_from(s, seq!['\n'], c0 as int);
                if f is Some {
                    let k = f->0;
                    assert(s.subrange(k, k + 1)[0] == '\n');
                    assert(s[k] == '\n');
                    if k < j {
                        assert(v@[k] != '\n');
                    }
                }
                assert(first_from(s, seq!['\n'], c0 as int) == Some(j as int));
            } else {
                assert(first_from(s, seq!['\n'], c0 as int) is None) by {
                    let f = first_from(s, seq!['\n'], c0 as int);
                    if f is Some {
                        assert(s.subrange(f->0, f->0 + 1)[0] == '\n');
                    }
                }
            }
        }
        let ghost line = (c0 as int, j as int);
        assert(line_bounds(s, c0 as int)[0] == line);
        assert(all[done.len() as int] == line);
        assert forall|jj: int|
            0 <= jj < pieces_of_line(text@, (c0 as int, j as int), rv).len() implies {
            let p = #[trigger] pieces_of_line(text@, (c0 as int, j as int), rv)[jj];
            p.0 >= 0 && p.1 >= 0 && on_char_boundary(text@, p.0 as nat) && on_char_boundary(
                text@,
                p.1 as nat,
            )
        } by {
            assert(pieces_of_line(s, all[done.len() as int], rv)[jj] == pieces_of_line(
                text@,
                (c0 as int, j as int),
                rv,
            )[jj]);
        }
        let segs = preview_line_exec(text, &offsets, ranges, c0, j);
        result.push(segs);
        proof {
            done = done.push(line);
        }
        if j == v.len() {
            assert(all =~= done);
            finished = true;
        } else {
            assert(all =~= done + line_bounds(s, j + 1));
            c0 = j + 1;
        }
    }
    proof {
        lemma_line_bounds_within(s, 0);
        assert forall|i: int| 0 <= i < result@.len() implies joined(
            segment_views(#[trigger] result@[i]@),
        ) == ({
            let l = line_bounds(s, 0)[i];
            if l.0 == l.1 {
                seq![' ']
            } else {
                s.subrange(l.0, l.1)
            }
        }) && forall|k: int| 0 <= k < result@[i]@.len() ==> (#[trigger] result@[i]@[k]).text@.len() > 0 by {
            let l = line_bounds(s, 0)[i];
            assert(0 <= l.0 <= l.1 <= s.len());
            assert(ends_on_boundaries(s, pieces_of_line(s, l, rv))) by {
                assert forall|k: int| 0 <= k < pieces_of_line(s, l, rv).len() implies (#[trigger] pieces_of_line(s, l, rv)[k]).0 >= 0
                    && pieces_of_line(s, l, rv)[k].1 >= 0 && on_char_boundary(s, pieces_of_line(s, l, rv)[k].0 as nat)
                    && on_char_boundary(s, pieces_of_line(s, l, rv)[k].1 as nat) by {
                    assert(pieces_of_line(s, line_bounds(s, 0)[i], rv)[k] == pieces_of_line(s, l, rv)[k]);
                }
            }
            preview_line_joins_back(s, l, rv);
            assert(preview_lines(s, rv)[i] == preview_line(s, l, rv));
            assert forall|k: int| 0 <= k < result@[i]@.len() implies (#[trigger] result@[i]@[k]).text@.len() > 0 by {
                assert(segment_views(result@[i]@)[k] == preview_line(s, l, rv)[k]);
            }
        }
    }
    result
}

} // verus!
