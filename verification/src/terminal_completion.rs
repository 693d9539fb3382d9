//! Inline completion of typed terminal input from the saved quick commands.
use vstd::prelude::*;

use crate::text::{
    char_is_control, chars_of, contains_exec, contains_seq, is_control, substring, trim, trimmed,
};

verus! {

/// Fewer typed characters than this show no completion.
pub const MIN_QUERY_CHARS: usize = 2;

/// At most this many completions are offered.
pub const MAX_CANDIDATES: usize = 6;

/// A saved command.
#[derive(Clone, Debug)]
pub struct QuickCommand {
    pub id: String,
    pub name: String,
    pub remark: String,
    pub command: String,
}

/// A named list of saved commands.
#[derive(Clone, Debug)]
pub struct QuickCommandCategory {
    pub id: String,
    pub name: String,
    pub commands: Vec<QuickCommand>,
}

/// An offered completion: the full command, the text shown for it, and how
/// many UTF-8 bytes of it the typed input already covers.
#[derive(Clone, Debug, PartialEq, Eq)]
pub struct TerminalCompletionCandidate {
    pub command: String,
    pub label: String,
    pub matched_prefix_bytes: usize,
}

/// The typed input, the completions offered for it and the selected one.
#[derive(Clone, Debug, PartialEq, Eq)]
pub struct TerminalCompletionState {
    pub input: String,
    candidates: Vec<TerminalCompletionCandidate>,
    selected: usize,
}

/// The number of bytes `c` takes in UTF-8.
pub open spec fn utf8_width(c: char) -> nat {
    let u = c as u32;
    if u < 0x80 {
        1
    } else if u < 0x800 {
        2
    } else if u < 0x10000 {
        3
    } else {
        4
    }
}

/// The number of bytes `s` takes in UTF-8.
pub open spec fn utf8_size(s: Seq<char>) -> nat
    decreases s.len(),
{
    if s.len() == 0 {
        0
    } else {
        utf8_size(s.drop_last()) + utf8_width(s.last())
    }
}

/// `c` with ASCII upper-case letters made lower-case.
pub open spec fn ascii_lower(c: char) -> int {
    let u = c as int;
    if 0x41 <= u <= 0x5a {
        u + 0x20
    } else {
        u
    }
}

/// `a` and `b` are equal ignoring ASCII case.
pub open spec fn eq_ignore_ascii_case(a: char, b: char) -> bool {
    ascii_lower(a) == ascii_lower(b)
}

/// The UTF-8 size of the prefix of `command` that `query` matches, ignoring
/// ASCII case; `None` when `query` is longer or differs.
pub open spec fn matched_prefix(command: Seq<char>, query: Seq<char>) -> Option<nat> {
    if query.len() <= command.len() && forall|i: int|
        0 <= i < query.len() ==> eq_ignore_ascii_case(command[i], #[trigger] query[i]) {
        Some(utf8_size(command.take(query.len() as int)))
    } else {
        None
    }
}

/// The placeholder `[pK]` of a command template.
pub open spec fn placeholder(k: int) -> Seq<char> {
    seq!['[', 'p', ((0x30 + k) as u32) as char, ']']
}

/// The command holds one of the placeholders `[p1]` to `[p5]`.
pub open spec fn has_placeholder(command: Seq<char>) -> bool {
    exists|k: int| 1 <= k <= 5 && contains_seq(command, #[trigger] placeholder(k))
}

/// All saved commands, category by category.
pub open spec fn all_commands(cats: Seq<QuickCommandCategory>) -> Seq<QuickCommand>
    decreases cats.len(),
{
    if cats.len() == 0 {
        seq![]
    } else {
        all_commands(cats.drop_last()) + cats.last().commands@
    }
}

/// A command is offered for `query`: it is no template and `query` matches
/// its start (by a byte count that fits in `usize`, as any string in memory
/// does).
pub open spec fn offered(query: Seq<char>) -> spec_fn(QuickCommand) -> bool {
    |c: QuickCommand|
        !has_placeholder(c.command@) && matched_prefix(c.command@, query) is Some && matched_prefix(
            c.command@,
            query,
        )->0 <= usize::MAX
}

/// The completion shown for command `c`: its remark, or its name when the
/// remark is blank.
pub open spec fn candidate_for(c: QuickCommand, query: Seq<char>) -> (Seq<char>, Seq<char>, nat) {
    (
        c.command@,
        if trim(c.remark@).len() == 0 {
            c.name@
        } else {
            c.remark@
        },
        matched_prefix(c.command@, query)->0,
    )
}

/// The first `n` elements of `s`, or all of them.
pub open spec fn first_n<T>(s: Seq<T>, n: int) -> Seq<T> {
    if s.len() <= n {
        s
    } else {
        s.take(n)
    }
}

/// The completions for `query`: none for fewer than two characters or a
/// control character; otherwise the first six offered commands.
pub open spec fn completions(query: Seq<char>, cats: Seq<QuickCommandCategory>) -> Seq<
    (Seq<char>, Seq<char>, nat),
> {
    if query.len() < MIN_QUERY_CHARS || exists|i: int|
        0 <= i < query.len() && is_control(#[trigger] query[i]) {
        seq![]
    } else {
        first_n(
            all_commands(cats).filter(offered(query)).map_values(
                |c: QuickCommand| candidate_for(c, query),
            ),
            MAX_CANDIDATES as int,
        )
    }
}

/// The view of a candidate.
pub open spec fn candidate_view(c: TerminalCompletionCandidate) -> (Seq<char>, Seq<char>, nat) {
    (c.command@, c.label@, c.matched_prefix_bytes as nat)
}

/// The views of candidates.
pub open spec fn candidate_views(cs: Seq<TerminalCompletionCandidate>) -> Seq<
    (Seq<char>, Seq<char>, nat),
> {
    cs.map_values(|c: TerminalCompletionCandidate| candidate_view(c))
}

/// `bytes` ends a whole number of the characters of `s`.
pub open spec fn on_char_boundary(s: Seq<char>, bytes: nat) -> bool {
    exists|k: int| 0 <= k <= s.len() && utf8_size(#[trigger] s.take(k)) == bytes
}

/// The characters of `s` after its first `bytes` UTF-8 bytes.
pub open spec fn after_bytes(s: Seq<char>, bytes: nat) -> Seq<char> {
    s.skip(choose|k: int| 0 <= k <= s.len() && utf8_size(#[trigger] s.take(k)) == bytes)
}

pub proof fn lemma_utf8_size_take_step(s: Seq<char>, k: int)
    requires
        0 <= k < s.len(),
    ensures
        utf8_size(s.take(k + 1)) == utf8_size(s.take(k)) + utf8_width(s[k]),
{
    assert(s.take(k + 1).drop_last() =~= s.take(k));
}

pub proof fn lemma_utf8_size_take_increasing(s: Seq<char>, a: int, b: int)
    requires
        0 <= a < b <= s.len(),
    ensures
        utf8_size(s.take(a)) < utf8_size(s.take(b)),
    decreases b - a,
{
    lemma_utf8_size_take_step(s, b - 1);
    if a < b - 1 {
        lemma_utf8_size_take_increasing(s, a, b - 1);
    }
}

/// The number of bytes `c` takes in UTF-8.
pub fn char_utf8_width(c: char) -> (n: usize)
    ensures
        n == utf8_width(c),
{
    let u = c as u32;
    if u < 0x80 {
        1
    } else if u < 0x800 {
        2
    } else if u < 0x10000 {
        3
    } else {
        4
    }
}

/// Whether two characters are equal ignoring ASCII case.
pub fn chars_eq_ignore_ascii_case(a: char, b: char) -> (r: bool)
    ensures
        r == eq_ignore_ascii_case(a, b),
{
    let x = a as u32;
    let y = b as u32;
    let lx = if 0x41 <= x && x <= 0x5a {
        x + 0x20
    } else {
        x
    };
    let ly = if 0x41 <= y && y <= 0x5a {
        y + 0x20
    } else {
        y
    };
    lx == ly
}

/// The UTF-8 size of the prefix of `command` matched by `query`, ignoring
/// ASCII case; `None` when `query` is longer or differs (or the size does
/// not fit in `usize`, which no string in memory reaches).
pub fn matched_prefix_bytes(command: &str, query: &str) -> (r: Option<usize>)
    ensures
        r matches Some(n) ==> matched_prefix(command@, query@) == Some(n as nat),
        r is None ==> matched_prefix(command@, query@) is None || matched_prefix(
            command@,
            query@,
        )->0 > usize::MAX,
{
    let cv = chars_of(command);
    let qv = chars_of(query);
    let mut matched_bytes: usize = 0;
    let mut i: usize = 0;
    while i < qv.len()
        invariant
            cv@ == command@,
            qv@ == query@,
            i <= qv@.len(),
            i <= cv@.len(),
            forall|j: int| 0 <= j < i ==> eq_ignore_ascii_case(cv@[j], #[trigger] qv@[j]),
            matched_bytes == utf8_size(cv@.take(i as int)),
        decreases qv@.len() - i,
    {
        if i >= cv.len() {
            return None;
        }
        if !chars_eq_ignore_ascii_case(cv[i], qv[i]) {
            return None;
        }
        proof {
            lemma_utf8_size_take_step(cv@, i as int);
        }
        let w = char_utf8_width(cv[i]);
        if matched_bytes > usize::MAX - w {
            proof {
                if matched_prefix(command@, query@) is Some {
                    lemma_utf8_size_take_increasing_or_equal(cv@, i as int + 1, qv@.len() as int);
                }
            }
            return None;
        }
        matched_bytes = matched_bytes + w;
        i = i + 1;
    }
    Some(matched_bytes)
}

pub proof fn lemma_utf8_size_take_increasing_or_equal(s: Seq<char>, a: int, b: int)
    requires
        0 <= a <= b <= s.len(),
    ensures
        utf8_size(s.take(a)) <= utf8_size(s.take(b)),
{
    if a < b {
        lemma_utf8_size_take_increasing(s, a, b);
    }
}

/// Whether the command holds one of the placeholders `[p1]` to `[p5]`.
pub fn contains_parameter_placeholder(command: &str) -> (b: bool)
    ensures
        b == has_placeholder(command@),
{
    let cv = chars_of(command);
    let digits = ['1', '2', '3', '4', '5'];
    let mut k: usize = 0;
    while k < 5
        invariant
            cv@ == command@,
            k <= 5,
            digits@ == seq!['1', '2', '3', '4', '5'],
            forall|j: int| 1 <= j <= k ==> !contains_seq(command@, #[trigger] placeholder(j)),
        decreases 5 - k,
    {
        let mut pat: Vec<char> = Vec::new();
        pat.push('[');
        pat.push('p');
        pat.push(digits[k]);
        pat.push(']');
        assert(pat@ =~= placeholder(k + 1)) by {
            assert(digits@[k as int] == ((0x30 + k + 1) as u32) as char) by {
                if k == 0 {
                    assert('1' == (0x31u32 as char));
                }
            }
        }
        if contains_exec(&cv, &pat) {
            return true;
        }
        k = k + 1;
    }
    false
}

/// The offered completions of the commands `s`, in order.
pub open spec fn offered_views(s: Seq<QuickCommand>, query: Seq<char>) -> Seq<(Seq<char>, Seq<char>, nat)> {
    s.filter(offered(query)).map_values(|c: QuickCommand| candidate_for(c, query))
}

proof fn lemma_offered_views_push(s: Seq<QuickCommand>, query: Seq<char>, x: QuickCommand)
    ensures
        offered_views(s.push(x), query) == if offered(query)(x) {
            offered_views(s, query).push(candidate_for(x, query))
        } else {
            offered_views(s, query)
        },
{
    crate::seq_util::lemma_filter_push(s, offered(query), x);
    if offered(query)(x) {
        assert(s.push(x).filter(offered(query)) == s.filter(offered(query)).push(x));
        assert(s.filter(offered(query)).push(x).map_values(|c: QuickCommand| candidate_for(c, query))
            =~= s.filter(offered(query)).map_values(|c: QuickCommand| candidate_for(c, query)).push(
            candidate_for(x, query),
        ));
    }
}

proof fn lemma_first_n_push<T>(s: Seq<T>, x: T, n: int)
    requires
        0 <= n,
    ensures
        first_n(s.push(x), n) == if s.len() < n {
            first_n(s, n).push(x)
        } else {
            first_n(s, n)
        },
{
    if s.len() >= n {
        assert(s.push(x).take(n) =~= first_n(s, n));
    }
}

/// The completions for `query` from the commands of `categories`: nothing
/// for fewer than two characters or any control character, else the first
/// six commands that are no templates and start with `query` (ignoring ASCII
/// case), labelled by remark or, when it is blank, by name.
pub fn matching_candidates(query: &str, categories: &[QuickCommandCategory]) -> (r: Vec<
    TerminalCompletionCandidate,
>)
    ensures
        candidate_views(r@) == completions(query@, categories@),
{
    let qv = chars_of(query);
    let mut out: Vec<TerminalCompletionCandidate> = Vec::new();
    if qv.len() < MIN_QUERY_CHARS {
        assert(candidate_views(out@) =~= seq![]);
        return out;
    }
    let mut i: usize = 0;
    while i < qv.len()
        invariant
            qv@ == query@,
            i <= qv@.len(),
            out@.len() == 0,
            forall|j: int| 0 <= j < i ==> !is_control(#[trigger] qv@[j]),
        decreases qv@.len() - i,
    {
        if char_is_control(qv[i]) {
            assert(candidate_views(out@) =~= seq![]);
            return out;
        }
        i = i + 1;
    }
    let ghost q = query@;
    let ghost cats = categories@;
    let mut ci: usize = 0;
    assert(candidate_views(out@) =~= first_n(offered_views(all_commands(cats.take(0)), q), 6));
    while ci < categories.len()
        invariant
            ci <= cats.len(),
            q == query@,
            cats == categories@,
            candidate_views(out@) == first_n(offered_views(all_commands(cats.take(ci as int)), q), 6),
        decreases cats.len() - ci,
    {
        let commands = &categories[ci].commands;
        let ghost base = all_commands(cats.take(ci as int));
        let mut k: usize = 0;
        assert(base + commands@.take(0) =~= base);
        while k < commands.len()
            invariant
                k <= commands@.len(),
                q == query@,
                base == all_commands(cats.take(ci as int)),
                candidate_views(out@) == first_n(offered_views(base + commands@.take(k as int), q), 6),
            decreases commands@.len() - k,
        {
            let c = &commands[k];
            let ghost prefix = base + commands@.take(k as int);
            proof {
                assert(base + commands@.take(k + 1) =~= prefix.push(*c));
                lemma_offered_views_push(prefix, q, *c);
                lemma_first_n_push(offered_views(prefix, q), candidate_for(*c, q), 6);
            }
            if !contains_parameter_placeholder(c.command.as_str()) {
                match matched_prefix_bytes(c.command.as_str(), query) {
                    Some(n) => {
                        if out.len() < MAX_CANDIDATES {
                            let remark = trimmed(c.remark.as_str());
                            let label = if chars_of(remark.as_str()).len() == 0 {
                                c.name.clone()
                            } else {
                                c.remark.clone()
                            };
                            let ghost before = candidate_views(out@);
                            out.push(
                                TerminalCompletionCandidate {
                                    command: c.command.clone(),
                                    label,
                                    matched_prefix_bytes: n,
                                },
                            );
                            assert(candidate_views(out@) =~= before.push(candidate_for(*c, q)));
                        }
                    },
                    None => {},
                }
            }
            k = k + 1;
        }
        proof {
            assert(commands@.take(commands@.len() as int) =~= commands@);
            assert(cats.take(ci + 1).drop_last() =~= cats.take(ci as int));
            assert(all_commands(cats.take(ci + 1)) == base + commands@);
        }
        ci = ci + 1;
    }
    assert(cats.take(cats.len() as int) =~= cats);
    out
}

/// The typed input, the offered completions and the selected index.
pub struct CompletionModel {
    pub input: Seq<char>,
    pub candidates: Seq<(Seq<char>, Seq<char>, nat)>,
    pub selected: nat,
}

impl View for TerminalCompletionState {
    type V = CompletionModel;

    closed spec fn view(&self) -> CompletionModel {
        CompletionModel {
            input: self.input@,
            candidates: candidate_views(self.candidates@),
            selected: self.selected as nat,
        }
    }
}

/// The selected index is that of an offered completion, or zero when none
/// is offered; each completion's byte count ends a character of its command.
pub open spec fn completion_wf(m: CompletionModel) -> bool {
    &&& (m.candidates.len() == 0 ==> m.selected == 0)
    &&& (m.candidates.len() > 0 ==> m.selected < m.candidates.len())
    &&& forall|i: int|
        0 <= i < m.candidates.len() ==> on_char_boundary(
            (#[trigger] m.candidates[i]).0,
            m.candidates[i].2,
        )
}

/// The state after offering `cands` for `input`, keeping the selected index
/// where it still names a completion and moving it to the last one otherwise.
pub open spec fn refreshed(m: CompletionModel, cands: Seq<(Seq<char>, Seq<char>, nat)>) -> CompletionModel {
    CompletionModel {
        candidates: cands,
        selected: if cands.len() == 0 {
            0
        } else if m.selected < cands.len() - 1 {
            m.selected
        } else {
            (cands.len() - 1) as nat
        },
        ..m
    }
}

proof fn lemma_completions_on_boundary(query: Seq<char>, cats: Seq<QuickCommandCategory>)
    ensures
        forall|i: int|
            0 <= i < completions(query, cats).len() ==> on_char_boundary(
                (#[trigger] completions(query, cats)[i]).0,
                completions(query, cats)[i].2,
            ),
{
    let all = all_commands(cats);
    let f = all.filter(offered(query));
    let mapped = f.map_values(|c: QuickCommand| candidate_for(c, query));
    assert forall|i: int| 0 <= i < mapped.len() implies on_char_boundary(
        (#[trigger] mapped[i]).0,
        mapped[i].2,
    ) by {
        all.lemma_filter_pred(offered(query), i);
        let c = f[i];
        assert(mapped[i] == candidate_for(c, query));
        let k = query.len() as int;
        assert(utf8_size(c.command@.take(k)) == mapped[i].2);
    }
    if !(query.len() < MIN_QUERY_CHARS || exists|i: int|
        0 <= i < query.len() && is_control(#[trigger] query[i])) {
        assert forall|i: int| 0 <= i < completions(query, cats).len() implies on_char_boundary(
            (#[trigger] completions(query, cats)[i]).0,
            completions(query, cats)[i].2,
        ) by {
            assert(completions(query, cats)[i] == mapped[i]);
        }
    }
}

/// Every completion offered for the typed `query` starts with it, ignoring
/// ASCII case, and accepting it hands back exactly the rest of the command:
/// what follows as many characters as were typed.
pub proof fn accepted_completion_is_the_untyped_rest(
    query: Seq<char>,
    cats: Seq<QuickCommandCategory>,
    i: int,
)
    requires
        0 <= i < completions(query, cats).len(),
    ensures
        query.len() <= completions(query, cats)[i].0.len(),
        forall|j: int|
            0 <= j < query.len() ==> eq_ignore_ascii_case(
                completions(query, cats)[i].0[j],
                #[trigger] query[j],
            ),
        after_bytes(completions(query, cats)[i].0, completions(query, cats)[i].2)
            == completions(query, cats)[i].0.skip(query.len() as int),
{
    let all = all_commands(cats);
    let f = all.filter(offered(query));
    let mapped = f.map_values(|c: QuickCommand| candidate_for(c, query));
    assert(completions(query, cats)[i] == mapped[i]);
    all.lemma_filter_pred(offered(query), i);
    let c = f[i];
    let s = c.command@;
    let n = query.len() as int;
    assert(mapped[i] == candidate_for(c, query));
    let k = choose|k: int| 0 <= k <= s.len() && utf8_size(#[trigger] s.take(k)) == mapped[i].2;
    assert(utf8_size(s.take(n)) == mapped[i].2);
    if k < n {
        lemma_utf8_size_take_increasing(s, k, n);
    } else if n < k {
        lemma_utf8_size_take_increasing(s, n, k);
    }
}

impl Default for TerminalCompletionState {
    /// No input and no completions.
    fn default() -> (r: Self)
        ensures
            r@ == (CompletionModel { input: seq![], candidates: seq![], selected: 0 }),
    {
        let r = Self::new();
        assert(r@.input =~= seq![] && r@.candidates =~= seq![]);
        r
    }
}

impl TerminalCompletionState {
    /// No input and no completions.
    pub fn new() -> (r: Self)
        ensures
            r@.input.len() == 0,
            r@.candidates.len() == 0,
            r@.selected == 0,
            completion_wf(r@),
    {
        let r = TerminalCompletionState { input: String::new(), candidates: Vec::new(), selected: 0 };
        assert(candidate_views(r.candidates@) =~= seq![]);
        r
    }

    /// The offered completions.
    pub fn candidates(&self) -> (r: &[TerminalCompletionCandidate])
        ensures
            candidate_views(r@) == self@.candidates,
    {
        self.candidates.as_slice()
    }

    /// The index of the selected completion.
    pub fn selected_index(&self) -> (r: usize)
        ensures
            r == self@.selected,
    {
        self.selected
    }

    /// Whether completions are offered.
    pub fn is_visible(&self) -> (b: bool)
        ensures
            b == (self@.candidates.len() > 0),
    {
        self.candidates.len() > 0
    }

    /// Offers the completions of the current input.
    pub fn refresh(&mut self, categories: &[QuickCommandCategory])
        ensures
            final(self)@ == refreshed(old(self)@, completions(old(self)@.input, categories@)),
            completion_wf(final(self)@),
    {
        self.candidates = matching_candidates(self.input.as_str(), categories);
        let len = self.candidates.len();
        let cap = if len == 0 {
            0
        } else {
            len - 1
        };
        if self.selected > cap {
            self.selected = cap;
        }
        proof {
            lemma_completions_on_boundary(old(self)@.input, categories@);
        }
    }

    /// Appends typed text and offers completions for the new input.
    pub fn push_text(&mut self, text: &str, categories: &[QuickCommandCategory])
        ensures
            final(self)@.input == old(self)@.input + text@,
            final(self)@ == refreshed(
                CompletionModel { input: old(self)@.input + text@, ..old(self)@ },
                completions(old(self)@.input + text@, categories@),
            ),
            completion_wf(final(self)@),
    {
        self.input.append(text);
        self.refresh(categories);
    }

    /// Removes the last typed character, if any, and offers completions for
    /// the new input.
    pub fn backspace(&mut self, categories: &[QuickCommandCategory])
        ensures
            final(self)@.input == if old(self)@.input.len() > 0 {
                old(self)@.input.drop_last()
            } else {
                old(self)@.input
            },
            final(self)@ == refreshed(
                CompletionModel { input: final(self)@.input, ..old(self)@ },
                completions(final(self)@.input, categories@),
            ),
            completion_wf(final(self)@),
    {
        let n = chars_of(self.input.as_str()).len();
        if n > 0 {
            self.input = substring(self.input.as_str(), 0, n - 1);
            assert(self.input@ =~= old(self)@.input.drop_last());
        }
        self.refresh(categories);
    }

    /// Moves the selection by `offset`, wrapping around the completions.
    pub fn move_selection(&mut self, offset: isize)
        requires
            old(self)@.selected + offset <= isize::MAX,
            completion_wf(old(self)@),
        ensures
            final(self)@ == (CompletionModel {
                selected: if old(self)@.candidates.len() == 0 {
                    0
                } else {
                    ((old(self)@.selected + offset) % (old(self)@.candidates.len() as int)) as nat
                },
                ..old(self)@
            }),
            completion_wf(final(self)@),
    {
        let count = self.candidates.len();
        if count == 0 {
            self.selected = 0;
            return;
        }
        let s = self.selected;
        let ghost x: int = s + offset;
        if offset >= 0 {
            let o = offset as usize;
            self.selected = (s + o) % count;
        } else {
            let neg: usize = (0i128 - (offset as i128)) as usize;
            let m = neg % count;
            let r = if s >= m {
                s - m
            } else {
                s + (count - m)
            };
            proof {
                let c = count as int;
                let q = neg as int / c;
                vstd::arithmetic::div_mod::lemma_fundamental_div_mod(neg as int, c);
                if s >= m {
                    assert(x == (-q) * c + r) by (nonlinear_arith)
                        requires
                            x == s - neg,
                            neg == c * q + m,
                            r == s - m,
                    ;
                    vstd::arithmetic::div_mod::lemma_fundamental_div_mod_converse_mod(x, c, -q, r as int);
                } else {
                    assert(x == (-q - 1) * c + r) by (nonlinear_arith)
                        requires
                            x == s - neg,
                            neg == c * q + m,
                            r == s + c - m,
                    ;
                    vstd::arithmetic::div_mod::lemma_fundamental_div_mod_converse_mod(x, c, -q - 1, r as int);
                }
            }
            self.selected = r;
        }
    }

    /// Selects completion `index`, if there is one.
    pub fn select(&mut self, index: usize)
        requires
            completion_wf(old(self)@),
        ensures
            final(self)@ == if index < old(self)@.candidates.len() {
                CompletionModel { selected: index as nat, ..old(self)@ }
            } else {
                old(self)@
            },
            completion_wf(final(self)@),
    {
        if index < self.candidates.len() {
            self.selected = index;
        }
    }

    /// Takes the selected completion: the input becomes its command, the
    /// completions close, and the part of the command not yet typed is
    /// returned. `None` when nothing is offered.
    pub fn accept_selected(&mut self) -> (r: Option<String>)
        requires
            completion_wf(old(self)@),
        ensures
            old(self)@.candidates.len() == 0 ==> r is None && final(self)@ == old(self)@,
            old(self)@.candidates.len() > 0 ==> {
                let c = old(self)@.candidates[old(self)@.selected as int];
                &&& r matches Some(suffix) && suffix@ == after_bytes(c.0, c.2)
                &&& final(self)@ == (CompletionModel { input: c.0, candidates: seq![], selected: 0 })
            },
            completion_wf(final(self)@),
    {
        if self.selected >= self.candidates.len() {
            return None;
        }
        let ghost views = candidate_views(self.candidates@);
        let command = self.candidates[self.selected].command.clone();
        let bytes = self.candidates[self.selected].matched_prefix_bytes;
        let ghost c = views[self.selected as int];
        assert(c.0 == command@ && c.2 == bytes);
        let cv = chars_of(command.as_str());
        let ghost kstar = choose|k: int| 0 <= k <= cv@.len() && utf8_size(#[trigger] cv@.take(k)) == bytes;
        let mut acc: usize = 0;
        let mut k: usize = 0;
        assert(cv@.take(0) =~= Seq::<char>::empty());
        while acc < bytes
            invariant
                cv@ == command@,
                0 <= kstar <= cv@.len(),
                utf8_size(cv@.take(kstar)) == bytes,
                k <= kstar,
                acc == utf8_size(cv@.take(k as int)),
            decreases kstar - k,
        {
            assert(k < kstar) by {
                if k as int == kstar {
                    assert(false);
                }
            }
            proof {
                lemma_utf8_size_take_step(cv@, k as int);
                lemma_utf8_size_take_increasing_or_equal(cv@, k as int + 1, kstar);
            }
            acc = acc + char_utf8_width(cv[k]);
            k = k + 1;
        }
        proof {
            if (k as int) < kstar {
                lemma_utf8_size_take_increasing(cv@, k as int, kstar);
            }
        }
        assert(k == kstar);
        let suffix = substring(command.as_str(), k, cv.len());
        assert(suffix@ =~= command@.skip(kstar));
        self.input = command;
        self.candidates = Vec::new();
        self.selected = 0;
        assert(candidate_views(self.candidates@) =~= seq![]);
        Some(suffix)
    }

    /// Closes the completions, keeping the input.
    pub fn dismiss(&mut self)
        ensures
            final(self)@ == (CompletionModel { candidates: seq![], selected: 0, ..old(self)@ }),
            completion_wf(final(self)@),
    {
        self.candidates = Vec::new();
        self.selected = 0;
        assert(candidate_views(self.candidates@) =~= seq![]);
    }

    /// Forgets the input and closes the completions.
    pub fn clear(&mut self)
        ensures
            final(self)@ == (CompletionModel { input: seq![], candidates: seq![], selected: 0 }),
            completion_wf(final(self)@),
    {
        self.input = String::new();
        self.dismiss();
    }
}

} // verus!
