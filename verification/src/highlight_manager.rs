//! The highlight-rules dialog: the rule being edited, how it compares with
//! the stored rules, when it may be replaced, saved or deleted.
use vstd::prelude::*;

use crate::highlighting::{
    opt_text, HighlightMatchKind, HighlightRule, HighlightRuleStyle, HighlightTarget, RuleView,
    StyleView, DEFAULT_HIGHLIGHT_PREVIEW,
};
use crate::ids::random_uuid;
use crate::seq_util::{first_index, lemma_first_index_found, lemma_first_index_none, lemma_first_index_sound};
use crate::shell::opt_view;
use crate::terminal_workspace::clone_opt;
use crate::text::{str_eq, string_of, trim, trimmed};

verus! {

/// The most rules the dialog lets the configuration hold.
pub const MAX_HIGHLIGHT_RULES: usize = 128;

/// The longest rule name, in characters.
pub const MAX_RULE_NAME_CHARS: usize = 64;

/// The longest rule pattern, in characters.
pub const MAX_RULE_PATTERN_CHARS: usize = 512;

/// The longest preview text, in characters.
pub const MAX_PREVIEW_CHARS: usize = 8192;

/// A text field of the rule editor.
#[derive(Clone, Copy, Debug, PartialEq, Eq, Structural)]
pub enum DraftField {
    Name,
    Pattern,
    Foreground,
    Background,
}

/// A switch of the rule editor.
#[derive(Clone, Copy, Debug, PartialEq, Eq, Structural)]
pub enum DraftSwitch {
    Enabled,
    CaseSensitive,
    WholeWord,
    Bold,
    Underline,
}

/// Why the edited rule cannot be saved.
#[derive(Clone, Copy, Debug, PartialEq, Eq, Structural)]
pub enum DraftProblem {
    /// The name is empty once trimmed.
    MissingName,
    /// The name has more than `MAX_RULE_NAME_CHARS` characters.
    NameTooLong,
    /// The pattern is empty.
    MissingPattern,
    /// The pattern has more than `MAX_RULE_PATTERN_CHARS` characters.
    PatternTooLong,
    /// The rule sets no colour and no emphasis.
    MissingStyle,
}

/// The state of the highlight-rules dialog: the rule being edited (the
/// texts of its fields and its switches), the rule it started from, which
/// stored rule is selected, and the confirmations and notices shown.
pub struct HighlightRulesManager {
    pub selected_id: Option<String>,
    pub draft_id: String,
    pub baseline_rule: HighlightRule,
    pub baseline_persisted: bool,
    pub enabled: bool,
    pub match_kind: HighlightMatchKind,
    pub case_sensitive: bool,
    pub whole_word: bool,
    pub target: HighlightTarget,
    pub bold: bool,
    pub underline: bool,
    pub reset_armed: bool,
    pub delete_armed: bool,
    pub saved: bool,
    pub unsaved_warning: bool,
    pub name_input: String,
    pub pattern_input: String,
    pub foreground_input: String,
    pub background_input: String,
    pub preview_input: String,
}

/// The text of an optional text, empty when there is none.
pub open spec fn text_or_empty(o: Option<String>) -> Seq<char> {
    match o {
        Some(s) => s@,
        None => seq![],
    }
}

/// A colour field's value: none when it is empty once trimmed.
pub open spec fn colour_of(field: Seq<char>) -> Option<Seq<char>> {
    if trim(field).len() > 0 {
        Some(trim(field))
    } else {
        None
    }
}

/// The rule the editor describes: the name and colours trimmed, an empty
/// colour as none, the pattern as typed.
pub open spec fn snapshot_of(d: HighlightRulesManager) -> RuleView {
    RuleView {
        id: d.draft_id@,
        name: trim(d.name_input@),
        enabled: d.enabled,
        pattern: d.pattern_input@,
        match_kind: d.match_kind,
        case_sensitive: d.case_sensitive,
        whole_word: d.whole_word,
        target: d.target,
        style: StyleView {
            foreground: colour_of(d.foreground_input@),
            background: colour_of(d.background_input@),
            bold: d.bold,
            underline: d.underline,
        },
    }
}

/// The edited rule differs from the rule it started from.
pub open spec fn dirty(d: HighlightRulesManager) -> bool {
    snapshot_of(d) != d.baseline_rule@
}

/// Rules with id `id`.
pub open spec fn rule_has_id(id: Seq<char>) -> spec_fn(HighlightRule) -> bool {
    |r: HighlightRule| r.id@ == id
}

/// The first stored rule with id `id`.
pub open spec fn stored_rule(rules: Seq<HighlightRule>, id: Seq<char>) -> Option<RuleView> {
    match first_index(rules, rule_has_id(id)) {
        Some(k) => Some(rules[k]@),
        None => None,
    }
}

/// The stored rule behind the editor changed, appeared or disappeared since
/// the editor loaded it.
pub open spec fn conflict(d: HighlightRulesManager, rules: Seq<HighlightRule>) -> bool {
    (if d.baseline_persisted {
        Some(d.baseline_rule@)
    } else {
        None
    }) != stored_rule(rules, d.draft_id@)
}

/// `d` showing the notice that unsaved edits block the action.
pub open spec fn warned(d: HighlightRulesManager) -> HighlightRulesManager {
    HighlightRulesManager { unsaved_warning: true, saved: false, ..d }
}

/// `d` after an edit: not saved, no confirmation armed.
pub open spec fn touched(d: HighlightRulesManager) -> HighlightRulesManager {
    HighlightRulesManager { saved: false, reset_armed: false, delete_armed: false, ..d }
}

/// `d` with text field `field` holding `value`.
pub open spec fn with_field(d: HighlightRulesManager, field: DraftField, value: String) -> HighlightRulesManager {
    match field {
        DraftField::Name => HighlightRulesManager { name_input: value, ..d },
        DraftField::Pattern => HighlightRulesManager { pattern_input: value, ..d },
        DraftField::Foreground => HighlightRulesManager { foreground_input: value, ..d },
        DraftField::Background => HighlightRulesManager { background_input: value, ..d },
    }
}

/// `d` with switch `switch` set to `value`.
pub open spec fn with_switch(d: HighlightRulesManager, switch: DraftSwitch, value: bool) -> HighlightRulesManager {
    match switch {
        DraftSwitch::Enabled => HighlightRulesManager { enabled: value, ..d },
        DraftSwitch::CaseSensitive => HighlightRulesManager { case_sensitive: value, ..d },
        DraftSwitch::WholeWord => HighlightRulesManager { whole_word: value, ..d },
        DraftSwitch::Bold => HighlightRulesManager { bold: value, ..d },
        DraftSwitch::Underline => HighlightRulesManager { underline: value, ..d },
    }
}

/// `d` with no confirmation armed.
pub open spec fn disarmed(d: HighlightRulesManager) -> HighlightRulesManager {
    HighlightRulesManager { reset_armed: false, delete_armed: false, ..d }
}

/// The editor `d` shows rule `rule` as its starting point: fields, switches
/// and baseline from the rule, nothing armed, saved or warned. The preview
/// text and the selection are not part of this.
pub open spec fn shows_rule(d: HighlightRulesManager, rule: HighlightRule) -> bool {
    &&& d.draft_id == rule.id
    &&& d.baseline_rule == rule
    &&& d.enabled == rule.enabled
    &&& d.match_kind == rule.match_kind
    &&& d.case_sensitive == rule.case_sensitive
    &&& d.whole_word == rule.whole_word
    &&& d.target == rule.target
    &&& d.bold == rule.style.bold
    &&& d.underline == rule.style.underline
    &&& !d.reset_armed
    &&& !d.delete_armed
    &&& !d.saved
    &&& !d.unsaved_warning
    &&& d.name_input == rule.name
    &&& d.pattern_input == rule.pattern
    &&& d.foreground_input@ == text_or_empty(rule.style.foreground)
    &&& d.background_input@ == text_or_empty(rule.style.background)
}

/// Editor `b` is editor `a` with rule `rule` loaded, selected (and counted
/// as stored) or not.
pub open spec fn loaded(a: HighlightRulesManager, b: HighlightRulesManager, rule: HighlightRule, selected: bool) -> bool {
    &&& shows_rule(b, rule)
    &&& b.selected_id == if selected {
        Some(rule.id)
    } else {
        None
    }
    &&& b.baseline_persisted == selected
    &&& b.preview_input == a.preview_input
}

/// A rule as the "new rule" button starts it: an id made of `custom-` and a
/// fresh 36-character identifier, no name, no pattern, enabled, literal,
/// case-insensitive, whole words, colouring the match in light blue.
pub open spec fn is_new_rule(rule: HighlightRule) -> bool {
    &&& rule.id@.len() == 43
    &&& rule.id@.take(7) == "custom-"@
    &&& rule.name@.len() == 0
    &&& rule.enabled
    &&& rule.pattern@.len() == 0
    &&& rule.match_kind == HighlightMatchKind::Literal
    &&& !rule.case_sensitive
    &&& rule.whole_word
    &&& rule.target == HighlightTarget::Match
    &&& opt_text(rule.style.foreground) == Some("#6CB4EE"@)
    &&& rule.style.background is None
    &&& !rule.style.bold
    &&& !rule.style.underline
}

/// What keeps rule `r` from being saved, checked in this order: the name,
/// then the pattern, then the style.
pub open spec fn draft_problem(r: RuleView) -> Option<DraftProblem> {
    if r.name.len() == 0 {
        Some(DraftProblem::MissingName)
    } else if r.name.len() > MAX_RULE_NAME_CHARS {
        Some(DraftProblem::NameTooLong)
    } else if r.pattern.len() == 0 {
        Some(DraftProblem::MissingPattern)
    } else if r.pattern.len() > MAX_RULE_PATTERN_CHARS {
        Some(DraftProblem::PatternTooLong)
    } else if r.style.foreground is None && r.style.background is None && !r.style.bold
        && !r.style.underline {
        Some(DraftProblem::MissingStyle)
    } else {
        None
    }
}

/// Editor `b` is editor `a` after a click on stored rule `id`. Clicking the
/// selected rule reloads it only when the stored rule changed meanwhile and
/// no edits are pending; clicking another rule loads it when no edits are
/// pending. Pending edits block both and show the unsaved-edits notice.
pub open spec fn rule_selected(
    a: HighlightRulesManager,
    b: HighlightRulesManager,
    id: Seq<char>,
    rules: Seq<HighlightRule>,
) -> bool {
    if opt_view(a.selected_id) == Some(id) {
        if !conflict(a, rules) {
            b == a
        } else if dirty(a) {
            b == warned(a)
        } else {
            match first_index(rules, rule_has_id(a.draft_id@)) {
                Some(k) => loaded(a, b, rules[k], true),
                None => b == a,
            }
        }
    } else if dirty(a) {
        b == warned(a)
    } else {
        match first_index(rules, rule_has_id(id)) {
            Some(k) => loaded(a, b, rules[k], true),
            None => b == a,
        }
    }
}

/// Editor `b` shows a new rule, not selected, loaded into editor `a`.
pub open spec fn new_rule_loaded(a: HighlightRulesManager, b: HighlightRulesManager) -> bool {
    exists|rule: HighlightRule| #[trigger] is_new_rule(rule) && loaded(a, b, rule, false)
}

/// Editor `b` is editor `a` after asking for a new rule while `count` rules
/// are stored: nothing happens at the limit, pending edits block it.
pub open spec fn new_rule_started(a: HighlightRulesManager, b: HighlightRulesManager, count: int) -> bool {
    if count >= MAX_HIGHLIGHT_RULES {
        b == a
    } else if dirty(a) {
        b == warned(a)
    } else {
        new_rule_loaded(a, b)
    }
}

/// Editor `b` is editor `a` after asking to save, and `r` the rule to store.
/// Nothing is saved when the rule has a problem, the preview is too long or
/// the style and preview checks (`checks_pass`) fail; when the stored rule
/// changed meanwhile, the unsaved-edits notice shows; a new rule is refused
/// at the limit. Otherwise the edited rule is stored and becomes the
/// selected, saved baseline.
pub open spec fn rule_saved(
    a: HighlightRulesManager,
    b: HighlightRulesManager,
    checks_pass: bool,
    rules: Seq<HighlightRule>,
    r: Option<HighlightRule>,
) -> bool {
    if !checks_pass || draft_problem(snapshot_of(a)) is Some || a.preview_input@.len()
        > MAX_PREVIEW_CHARS {
        r is None && b == a
    } else if conflict(a, rules) {
        r is None && b == warned(a)
    } else if first_index(rules, rule_has_id(a.draft_id@)) is None && rules.len()
        >= MAX_HIGHLIGHT_RULES {
        r is None && b == a
    } else {
        r matches Some(x) && x@ == snapshot_of(a) && b == (HighlightRulesManager {
            selected_id: Some(x.id),
            baseline_rule: x,
            baseline_persisted: true,
            saved: true,
            unsaved_warning: false,
            delete_armed: false,
            reset_armed: false,
            ..a
        })
    }
}

/// Where a rule at position `k` is asked to move by `offset`: clamped to
/// the range of `usize`.
pub open spec fn moved_index(k: int, offset: int) -> int {
    if k + offset < 0 {
        0
    } else if k + offset > usize::MAX {
        usize::MAX as int
    } else {
        k + offset
    }
}

/// Editor `b` is editor `a` after asking to discard the edits: a stored rule
/// is reloaded as stored now (or a new rule shows when it is gone); an
/// unstored rule goes back to how it started.
pub open spec fn draft_discarded(
    a: HighlightRulesManager,
    b: HighlightRulesManager,
    rules: Seq<HighlightRule>,
) -> bool {
    if a.baseline_persisted {
        match first_index(rules, rule_has_id(a.draft_id@)) {
            Some(k) => loaded(a, b, rules[k], true),
            None => new_rule_loaded(a, b),
        }
    } else {
        loaded(a, b, a.baseline_rule, false)
    }
}

/// Rules `rules` with the first rule with id `id` switched on or off, if
/// there is one.
pub open spec fn with_rule_enabled(
    rules: Seq<HighlightRule>,
    id: Seq<char>,
    enabled: bool,
) -> Option<Seq<HighlightRule>> {
    match first_index(rules, rule_has_id(id)) {
        Some(k) => Some(rules.update(k, HighlightRule { enabled, ..rules[k] })),
        None => None,
    }
}

/// A rule shown just as stored leaves no unsaved edits, when its name and
/// colours carry no surrounding whitespace and no colour is empty.
pub proof fn loaded_clean_rule_has_no_edits(
    a: HighlightRulesManager,
    b: HighlightRulesManager,
    rule: HighlightRule,
    selected: bool,
)
    requires
        loaded(a, b, rule, selected),
        trim(rule.name@) == rule.name@,
        rule.style.foreground matches Some(c) ==> trim(c@) == c@ && c@.len() > 0,
        rule.style.background matches Some(c) ==> trim(c@) == c@ && c@.len() > 0,
    ensures
        !dirty(b),
{
    assert(trim(seq![]) =~= Seq::<char>::empty());
    assert(snapshot_of(b) == b.baseline_rule@);
}

impl HighlightRule {
    /// A copy of the rule.
    pub fn duplicate(&self) -> (r: HighlightRule)
        ensures
            r == *self,
    {
        HighlightRule {
            id: self.id.clone(),
            name: self.name.clone(),
            enabled: self.enabled,
            pattern: self.pattern.clone(),
            match_kind: self.match_kind,
            case_sensitive: self.case_sensitive,
            whole_word: self.whole_word,
            target: self.target,
            style: HighlightRuleStyle {
                foreground: clone_opt(&self.style.foreground),
                background: clone_opt(&self.style.background),
                bold: self.style.bold,
                underline: self.style.underline,
            },
        }
    }
}

/// A new rule for the editor to start from, with a fresh id.
pub fn new_rule() -> (r: HighlightRule)
    ensures
        is_new_rule(r),
{
    let mut id = string_of("custom-");
    let unique = random_uuid();
    id.append(unique.as_str());
    proof {
        reveal_strlit("custom-");
        reveal_strlit("#6CB4EE");
        assert(id@.take(7) =~= "custom-"@);
    }
    HighlightRule {
        id,
        name: String::new(),
        enabled: true,
        pattern: String::new(),
        match_kind: HighlightMatchKind::Literal,
        case_sensitive: false,
        whole_word: true,
        target: HighlightTarget::Match,
        style: HighlightRuleStyle {
            foreground: Some(string_of("#6CB4EE")),
            background: None,
            bold: false,
            underline: false,
        },
    }
}

/// The text of an optional text, empty when there is none.
fn text_or_new(o: &Option<String>) -> (r: String)
    ensures
        r@ == text_or_empty(*o),
{
    match o {
        Some(s) => s.clone(),
        None => String::new(),
    }
}

/// The colour a colour field gives.
fn colour_from(field: &String) -> (r: Option<String>)
    ensures
        opt_text(r) == colour_of(field@),
{
    let t = trimmed(field.as_str());
    if t.as_str().unicode_len() > 0 {
        Some(t)
    } else {
        None
    }
}

/// The first stored rule with id `id`.
fn find_rule(rules: &[HighlightRule], id: &str) -> (r: Option<usize>)
    ensures
        r matches Some(i) ==> first_index(rules@, rule_has_id(id@)) == Some(i as int) && i
            < rules@.len(),
        r is None ==> first_index(rules@, rule_has_id(id@)) is None,
{
    let ghost p = rule_has_id(id@);
    let mut i: usize = 0;
    while i < rules.len()
        invariant
            i <= rules@.len(),
            p == rule_has_id(id@),
            forall|j: int| 0 <= j < i ==> !p(#[trigger] rules@[j]),
        decreases rules@.len() - i,
    {
        if str_eq(rules[i].id.as_str(), id) {
            proof {
                lemma_first_index_found(rules@, p, i as int);
            }
            return Some(i);
        }
        i = i + 1;
    }
    proof {
        lemma_first_index_none(rules@, p);
    }
    None
}

/// The stored rules with the first rule with id `id` switched on or off;
/// `None` when no rule has that id.
pub fn rules_with_enabled(rules: &[HighlightRule], id: &str, enabled: bool) -> (r: Option<
    Vec<HighlightRule>,
>)
    ensures
        match with_rule_enabled(rules@, id@, enabled) {
            Some(v) => r matches Some(x) && x@ == v,
            None => r is None,
        },
{
    let k = match find_rule(rules, id) {
        Some(k) => k,
        None => {
            return None;
        },
    };
    let mut out: Vec<HighlightRule> = Vec::new();
    let mut i: usize = 0;
    while i < rules.len()
        invariant
            i <= rules@.len(),
            k < rules@.len(),
            out@ == rules@.update(k as int, HighlightRule { enabled, ..rules@[k as int] }).take(
                i as int,
            ),
        decreases rules@.len() - i,
    {
        let mut copy = rules[i].duplicate();
        if i == k {
            copy.enabled = enabled;
        }
        out.push(copy);
        assert(out@ =~= rules@.update(k as int, HighlightRule { enabled, ..rules@[k as int] }).take(
            i + 1,
        ));
        i = i + 1;
    }
    assert(out@ =~= rules@.update(k as int, HighlightRule { enabled, ..rules@[k as int] }));
    Some(out)
}

impl HighlightRulesManager {
    /// An editor showing `initial_rule`, with `selected_id` selected; the
    /// rule counts as stored when something is selected. The preview shows
    /// the default text.
    pub fn new(initial_rule: HighlightRule, selected_id: Option<String>) -> (r: Self)
        ensures
            shows_rule(r, initial_rule),
            r.selected_id == selected_id,
            r.baseline_persisted == selected_id is Some,
            r.preview_input@ == DEFAULT_HIGHLIGHT_PREVIEW@,
    {
        let persisted = selected_id.is_some();
        HighlightRulesManager {
            selected_id,
            draft_id: initial_rule.id.clone(),
            enabled: initial_rule.enabled,
            match_kind: initial_rule.match_kind,
            case_sensitive: initial_rule.case_sensitive,
            whole_word: initial_rule.whole_word,
            target: initial_rule.target,
            bold: initial_rule.style.bold,
            underline: initial_rule.style.underline,
            reset_armed: false,
            delete_armed: false,
            saved: false,
            unsaved_warning: false,
            name_input: initial_rule.name.clone(),
            pattern_input: initial_rule.pattern.clone(),
            foreground_input: text_or_new(&initial_rule.style.foreground),
            background_input: text_or_new(&initial_rule.style.background),
            preview_input: string_of(DEFAULT_HIGHLIGHT_PREVIEW),
            baseline_rule: initial_rule,
            baseline_persisted: persisted,
        }
    }

    /// The editor the dialog opens with: the first stored rule, selected,
    /// or a new rule when none is stored.
    pub fn open(rules: &[HighlightRule]) -> (r: Self)
        ensures
            rules@.len() > 0 ==> shows_rule(r, rules@[0]) && r.selected_id == Some(rules@[0].id),
            rules@.len() == 0 ==> r.selected_id is None && exists|rule: HighlightRule|
                is_new_rule(rule) && #[trigger] shows_rule(r, rule),
            r.baseline_persisted == (rules@.len() > 0),
            r.preview_input@ == DEFAULT_HIGHLIGHT_PREVIEW@,
    {
        if rules.len() > 0 {
            HighlightRulesManager::new(rules[0].duplicate(), Some(rules[0].id.clone()))
        } else {
            let rule = new_rule();
            let ghost rv = rule;
            let r = HighlightRulesManager::new(rule, None);
            assert(shows_rule(r, rv));
            r
        }
    }

    /// The rule the editor describes, as `snapshot_of` says.
    pub fn draft_snapshot(&self) -> (r: HighlightRule)
        ensures
            r@ == snapshot_of(*self),
    {
        HighlightRule {
            id: self.draft_id.clone(),
            name: trimmed(self.name_input.as_str()),
            enabled: self.enabled,
            pattern: self.pattern_input.clone(),
            match_kind: self.match_kind,
            case_sensitive: self.case_sensitive,
            whole_word: self.whole_word,
            target: self.target,
            style: HighlightRuleStyle {
                foreground: colour_from(&self.foreground_input),
                background: colour_from(&self.background_input),
                bold: self.bold,
                underline: self.underline,
            },
        }
    }

    /// Whether the edited rule differs from the rule it started from.
    pub fn draft_is_dirty(&self) -> (r: bool)
        ensures
            r == dirty(*self),
    {
        !crate::highlighting::rules_equal(&self.draft_snapshot(), &self.baseline_rule)
    }

    /// A copy of the stored rule with the edited rule's id, if any.
    pub fn current_persisted_rule(&self, rules: &[HighlightRule]) -> (r: Option<HighlightRule>)
        ensures
            match first_index(rules@, rule_has_id(self.draft_id@)) {
                Some(k) => r == Some(rules@[k]),
                None => r is None,
            },
    {
        match find_rule(rules, self.draft_id.as_str()) {
            Some(k) => Some(rules[k].duplicate()),
            None => None,
        }
    }

    /// Whether the stored rule behind the editor changed, appeared or
    /// disappeared since the editor loaded it.
    pub fn has_external_conflict(&self, rules: &[HighlightRule]) -> (r: bool)
        ensures
            r == conflict(*self, rules@),
    {
        let current = self.current_persisted_rule(rules);
        let baseline = if self.baseline_persisted {
            Some(&self.baseline_rule)
        } else {
            None
        };
        let current_ref = match &current {
            Some(c) => Some(c),
            None => None,
        };
        crate::highlighting::highlight_rule_has_conflict(baseline, current_ref)
    }

    /// Whether the editor may show another rule: only when it holds no
    /// unsaved edits; otherwise it shows the unsaved-edits notice.
    pub fn allow_draft_replacement(&mut self) -> (r: bool)
        ensures
            r == !dirty(*old(self)),
            *final(self) == if r {
                *old(self)
            } else {
                warned(*old(self))
            },
    {
        if !self.draft_is_dirty() {
            return true;
        }
        self.unsaved_warning = true;
        self.saved = false;
        false
    }

    /// The edited rule, or what keeps it from being saved.
    pub fn draft_rule(&self) -> (r: Result<HighlightRule, DraftProblem>)
        ensures
            match draft_problem(snapshot_of(*self)) {
                Some(p) => r == Err::<HighlightRule, DraftProblem>(p),
                None => r matches Ok(x) && x@ == snapshot_of(*self),
            },
    {
        let rule = self.draft_snapshot();
        if rule.name.as_str().unicode_len() == 0 {
            return Err(DraftProblem::MissingName);
        }
        if rule.name.as_str().unicode_len() > MAX_RULE_NAME_CHARS {
            return Err(DraftProblem::NameTooLong);
        }
        if rule.pattern.as_str().unicode_len() == 0 {
            return Err(DraftProblem::MissingPattern);
        }
        if rule.pattern.as_str().unicode_len() > MAX_RULE_PATTERN_CHARS {
            return Err(DraftProblem::PatternTooLong);
        }
        if rule.style.foreground.is_none() && rule.style.background.is_none() && !rule.style.bold
            && !rule.style.underline {
            return Err(DraftProblem::MissingStyle);
        }
        Ok(rule)
    }
    /// Records an edit of text field `field`, which now holds `value`: the
    /// rule is no longer saved and no confirmation stays armed.
    pub fn input_changed(&mut self, field: DraftField, value: String)
        ensures
            *final(self) == with_field(touched(*old(self)), field, value),
    {
        self.saved = false;
        self.reset_armed = false;
        self.delete_armed = false;
        match field {
            DraftField::Name => self.name_input = value,
            DraftField::Pattern => self.pattern_input = value,
            DraftField::Foreground => self.foreground_input = value,
            DraftField::Background => self.background_input = value,
        }
    }

    /// Records an edit of the preview text: no confirmation stays armed.
    pub fn preview_changed(&mut self, value: String)
        ensures
            *final(self) == (HighlightRulesManager { preview_input: value, ..disarmed(*old(self)) }),
    {
        self.preview_input = value;
        self.reset_armed = false;
        self.delete_armed = false;
    }

    /// Sets switch `switch` to `value`: the rule is no longer saved and no
    /// confirmation stays armed.
    pub fn set_switch(&mut self, switch: DraftSwitch, value: bool)
        ensures
            *final(self) == with_switch(touched(*old(self)), switch, value),
    {
        self.saved = false;
        self.reset_armed = false;
        self.delete_armed = false;
        match switch {
            DraftSwitch::Enabled => self.enabled = value,
            DraftSwitch::CaseSensitive => self.case_sensitive = value,
            DraftSwitch::WholeWord => self.whole_word = value,
            DraftSwitch::Bold => self.bold = value,
            DraftSwitch::Underline => self.underline = value,
        }
    }

    /// Sets how the pattern is read: the rule is no longer saved and no
    /// confirmation stays armed.
    pub fn set_match_kind(&mut self, match_kind: HighlightMatchKind)
        ensures
            *final(self) == (HighlightRulesManager { match_kind, ..touched(*old(self)) }),
    {
        self.match_kind = match_kind;
        self.saved = false;
        self.reset_armed = false;
        self.delete_armed = false;
    }

    /// Sets what a match colours: the rule is no longer saved and no
    /// confirmation stays armed.
    pub fn set_target(&mut self, target: HighlightTarget)
        ensures
            *final(self) == (HighlightRulesManager { target, ..touched(*old(self)) }),
    {
        self.target = target;
        self.saved = false;
        self.reset_armed = false;
        self.delete_armed = false;
    }

    /// Shows `rule` in the editor, selected (and counted as stored) or not.
    pub fn load_rule(&mut self, rule: HighlightRule, selected: bool)
        ensures
            loaded(*old(self), *final(self), rule, selected),
    {
        self.name_input = rule.name.clone();
        self.pattern_input = rule.pattern.clone();
        self.foreground_input = text_or_new(&rule.style.foreground);
        self.background_input = text_or_new(&rule.style.background);
        self.selected_id = if selected {
            Some(rule.id.clone())
        } else {
            None
        };
        self.draft_id = rule.id.clone();
        self.enabled = rule.enabled;
        self.match_kind = rule.match_kind;
        self.case_sensitive = rule.case_sensitive;
        self.whole_word = rule.whole_word;
        self.target = rule.target;
        self.bold = rule.style.bold;
        self.underline = rule.style.underline;
        self.baseline_rule = rule;
        self.baseline_persisted = selected;
        self.reset_armed = false;
        self.delete_armed = false;
        self.saved = false;
        self.unsaved_warning = false;
    }

    /// Handles a click on stored rule `id`, as `rule_selected` says.
    pub fn select_rule(&mut self, id: &str, rules: &[HighlightRule])
        ensures
            rule_selected(*old(self), *final(self), id@, rules@),
    {
        let is_selected = match &self.selected_id {
            Some(s) => str_eq(s.as_str(), id),
            None => false,
        };
        if is_selected {
            if self.has_external_conflict(rules) && self.allow_draft_replacement() {
                match self.current_persisted_rule(rules) {
                    Some(current) => self.load_rule(current, true),
                    None => {},
                }
            }
            return;
        }
        if !self.allow_draft_replacement() {
            return;
        }
        match find_rule(rules, id) {
            Some(k) => self.load_rule(rules[k].duplicate(), true),
            None => {},
        }
    }

    /// Starts a new rule, as `new_rule_started` says.
    pub fn start_new_rule(&mut self, rules: &[HighlightRule])
        ensures
            new_rule_started(*old(self), *final(self), rules@.len() as int),
    {
        if rules.len() >= MAX_HIGHLIGHT_RULES {
            return;
        }
        if !self.allow_draft_replacement() {
            return;
        }
        let ghost a = *self;
        let rule = new_rule();
        let ghost rv = rule;
        self.load_rule(rule, false);
        assert(is_new_rule(rv) && loaded(a, *self, rv, false));
    }

    /// Saves the edited rule, as `rule_saved` says; `checks_pass` tells
    /// whether its style and its matches on the preview could be computed.
    /// Returns the rule to store. After a save no edits are pending.
    pub fn save_rule(&mut self, checks_pass: bool, rules: &[HighlightRule]) -> (r: Option<HighlightRule>)
        ensures
            rule_saved(*old(self), *final(self), checks_pass, rules@, r),
            r is Some ==> !dirty(*final(self)),
    {
        let rule = match self.draft_rule() {
            Ok(x) => x,
            Err(_) => {
                return None;
            },
        };
        if !checks_pass || self.preview_input.as_str().unicode_len() > MAX_PREVIEW_CHARS {
            return None;
        }
        if self.has_external_conflict(rules) {
            self.unsaved_warning = true;
            self.saved = false;
            return None;
        }
        let updates_existing = find_rule(rules, rule.id.as_str()).is_some();
        if !updates_existing && rules.len() >= MAX_HIGHLIGHT_RULES {
            return None;
        }
        let stored = rule.duplicate();
        self.selected_id = Some(rule.id.clone());
        self.baseline_rule = rule;
        self.baseline_persisted = true;
        self.saved = true;
        self.unsaved_warning = false;
        self.delete_armed = false;
        self.reset_armed = false;
        Some(stored)
    }

    /// Follows rule `id` being switched on or off from the list: when it is
    /// the edited rule, its switch and starting point follow. No
    /// confirmation stays armed.
    pub fn set_rule_enabled(&mut self, id: &str, enabled: bool)
        ensures
            *final(self) == disarmed(
                if old(self).draft_id@ == id@ {
                    HighlightRulesManager {
                        enabled,
                        baseline_rule: HighlightRule { enabled, ..old(self).baseline_rule },
                        ..*old(self)
                    }
                } else {
                    *old(self)
                },
            ),
    {
        if str_eq(self.draft_id.as_str(), id) {
            self.enabled = enabled;
            self.baseline_rule.enabled = enabled;
        }
        self.reset_armed = false;
        self.delete_armed = false;
    }

    /// Where the selected rule is to move when moved by `offset`, with its
    /// id; `None` when nothing is selected or the selected rule is not
    /// stored. Unless nothing is selected, no confirmation stays armed.
    pub fn move_selected(&mut self, offset: isize, rules: &[HighlightRule]) -> (r: Option<(String, usize)>)
        ensures
            match old(self).selected_id {
                None => r is None && *final(self) == *old(self),
                Some(sel) => {
                    &&& *final(self) == disarmed(*old(self))
                    &&& match first_index(rules@, rule_has_id(sel@)) {
                        Some(k) => r matches Some(x) && x.0 == sel && x.1 == moved_index(k, offset as int),
                        None => r is None,
                    }
                },
            },
    {
        let id = match &self.selected_id {
            Some(s) => s.clone(),
            None => {
                return None;
            },
        };
        self.reset_armed = false;
        self.delete_armed = false;
        match find_rule(rules, id.as_str()) {
            Some(k) => {
                let wide: i128 = k as i128 + offset as i128;
                let target: usize = if wide < 0 {
                    0
                } else if wide > usize::MAX as i128 {
                    usize::MAX
                } else {
                    wide as usize
                };
                Some((id, target))
            },
            None => None,
        }
    }

    /// Arms or disarms the delete confirmation of the selected rule; pending
    /// edits block it.
    pub fn toggle_delete_confirmation(&mut self)
        ensures
            old(self).selected_id is None ==> *final(self) == *old(self),
            old(self).selected_id is Some && dirty(*old(self)) ==> *final(self) == warned(*old(self)),
            old(self).selected_id is Some && !dirty(*old(self)) ==> *final(self) == (
            HighlightRulesManager {
                delete_armed: !old(self).delete_armed,
                reset_armed: false,
                ..*old(self)
            }),
    {
        if self.selected_id.is_none() {
            return;
        }
        if !self.allow_draft_replacement() {
            return;
        }
        self.delete_armed = !self.delete_armed;
        self.reset_armed = false;
    }

    /// Confirms deleting the selected rule: returns its id, to be removed
    /// from the stored rules, and its position there (0 when it is not
    /// stored). Nothing happens unless the confirmation is armed; pending
    /// edits block it.
    pub fn confirm_delete_selected(&mut self, rules: &[HighlightRule]) -> (r: Option<(String, usize)>)
        ensures
            !old(self).delete_armed ==> r is None && *final(self) == *old(self),
            old(self).delete_armed && dirty(*old(self)) ==> r is None && *final(self) == warned(
                *old(self),
            ),
            old(self).delete_armed && !dirty(*old(self)) ==> match old(self).selected_id {
                None => r is None && *final(self) == *old(self),
                Some(sel) => {
                    &&& *final(self) == (HighlightRulesManager {
                        delete_armed: false,
                        ..*old(self)
                    })
                    &&& r matches Some(x) && x.0 == sel && x.1 == match first_index(
                        rules@,
                        rule_has_id(sel@),
                    ) {
                        Some(k) => k,
                        None => 0,
                    }
                },
            },
    {
        if !self.delete_armed || !self.allow_draft_replacement() {
            return None;
        }
        let id = match &self.selected_id {
            Some(s) => s.clone(),
            None => {
                return None;
            },
        };
        self.delete_armed = false;
        let index = match find_rule(rules, id.as_str()) {
            Some(k) => k,
            None => 0,
        };
        Some((id, index))
    }

    /// Shows the rule that takes the place of a deleted one: the stored rule
    /// now at `index` (the last one when `index` is past the end), selected;
    /// a new rule when none is left.
    pub fn load_after_delete(&mut self, index: usize, remaining: &[HighlightRule])
        ensures
            remaining@.len() > 0 ==> loaded(
                *old(self),
                *final(self),
                remaining@[if index < remaining@.len() {
                    index as int
                } else {
                    remaining@.len() - 1
                }],
                true,
            ),
            remaining@.len() == 0 ==> new_rule_loaded(*old(self), *final(self)),
    {
        if remaining.len() > 0 {
            let last = remaining.len() - 1;
            let at = if index < last {
                index
            } else {
                last
            };
            self.load_rule(remaining[at].duplicate(), true);
        } else {
            let ghost a = *self;
            let rule = new_rule();
            let ghost rv = rule;
            self.load_rule(rule, false);
            assert(is_new_rule(rv) && loaded(a, *self, rv, false));
        }
    }

    /// Arms or disarms the confirmation to restore the default rules;
    /// pending edits block it.
    pub fn toggle_restore_confirmation(&mut self)
        ensures
            dirty(*old(self)) ==> *final(self) == warned(*old(self)),
            !dirty(*old(self)) ==> *final(self) == (HighlightRulesManager {
                reset_armed: !old(self).reset_armed,
                delete_armed: false,
                ..*old(self)
            }),
    {
        if !self.allow_draft_replacement() {
            return;
        }
        self.reset_armed = !self.reset_armed;
        self.delete_armed = false;
    }

    /// Confirms restoring the default rules: returns whether they are to be
    /// restored. Nothing happens unless the confirmation is armed; pending
    /// edits block it.
    pub fn confirm_restore_defaults(&mut self) -> (r: bool)
        ensures
            r == (old(self).reset_armed && !dirty(*old(self))),
            !old(self).reset_armed ==> *final(self) == *old(self),
            old(self).reset_armed && dirty(*old(self)) ==> *final(self) == warned(*old(self)),
            r ==> *final(self) == (HighlightRulesManager { reset_armed: false, ..*old(self) }),
    {
        if !self.reset_armed || !self.allow_draft_replacement() {
            return false;
        }
        self.reset_armed = false;
        true
    }

    /// Shows the first of the restored rules, selected, if there is one.
    pub fn load_after_restore(&mut self, rules: &[HighlightRule])
        ensures
            rules@.len() > 0 ==> loaded(*old(self), *final(self), rules@[0], true),
            rules@.len() == 0 ==> *final(self) == *old(self),
    {
        if rules.len() > 0 {
            self.load_rule(rules[0].duplicate(), true);
        }
    }

    /// Discards the edits, as `draft_discarded` says.
    pub fn discard_draft(&mut self, rules: &[HighlightRule])
        ensures
            draft_discarded(*old(self), *final(self), rules@),
    {
        if self.baseline_persisted {
            match self.current_persisted_rule(rules) {
                Some(current) => self.load_rule(current, true),
                None => {
                    let ghost a = *self;
                    let rule = new_rule();
                    let ghost rv = rule;
                    self.load_rule(rule, false);
                    assert(is_new_rule(rv) && loaded(a, *self, rv, false));
                },
            }
            return;
        }
        let baseline = self.baseline_rule.duplicate();
        self.load_rule(baseline, false);
    }

    /// Whether the dialog may close: only when no edits are pending;
    /// otherwise the unsaved-edits notice shows.
    pub fn request_close(&mut self) -> (r: bool)
        ensures
            r == !dirty(*old(self)),
            *final(self) == if r {
                *old(self)
            } else {
                warned(*old(self))
            },
    {
        self.allow_draft_replacement()
    }

    /// Follows the switch of all highlighting: no confirmation stays armed.
    pub fn set_master_enabled(&mut self)
        ensures
            *final(self) == disarmed(*old(self)),
    {
        self.reset_armed = false;
        self.delete_armed = false;
    }
}

/// Which of the dialog's actions are on offer.
#[derive(Clone, Copy, Debug, PartialEq, Eq, Structural)]
pub struct DialogButtons {
    /// The selected rule can move up: it is stored and not first.
    pub can_move_up: bool,
    /// The selected rule can move down: it is stored and not last.
    pub can_move_down: bool,
    /// No further rule can be added.
    pub at_rule_limit: bool,
    /// The draft can be saved.
    pub can_apply: bool,
}

/// The position among `rules` of the rule selected in `d`, if it is stored.
pub open spec fn selected_position(d: HighlightRulesManager, rules: Seq<HighlightRule>) -> Option<int> {
    match d.selected_id {
        Some(sel) => first_index(rules, rule_has_id(sel@)),
        None => None,
    }
}

/// The actions on offer in `d` with the stored rules `rules`, when the
/// draft's pattern and style check out exactly if `draft_valid`: moving
/// the selected stored rule up or down within the list, and saving a valid
/// draft that does not conflict with an outside change, unless it would add
/// a rule beyond the limit.
pub open spec fn buttons_of(d: HighlightRulesManager, rules: Seq<HighlightRule>, draft_valid: bool) -> DialogButtons {
    let at_limit = rules.len() >= MAX_HIGHLIGHT_RULES;
    DialogButtons {
        can_move_up: selected_position(d, rules) matches Some(k) && k > 0,
        can_move_down: selected_position(d, rules) matches Some(k) && k + 1 < rules.len(),
        at_rule_limit: at_limit,
        can_apply: draft_valid && !conflict(d, rules) && (selected_position(d, rules) is Some
            || !at_limit),
    }
}

impl HighlightRulesManager {
    /// The actions the dialog offers with the stored rules `rules`;
    /// `draft_valid` tells whether the draft's pattern and style check out.
    pub fn buttons(&self, rules: &[HighlightRule], draft_valid: bool) -> (r: DialogButtons)
        ensures
            r == buttons_of(*self, rules@, draft_valid),
    {
        let position = match &self.selected_id {
            Some(sel) => find_rule(rules, sel.as_str()),
            None => None,
        };
        let at_rule_limit = rules.len() >= MAX_HIGHLIGHT_RULES;
        let external_conflict = self.has_external_conflict(rules);
        let (can_move_up, can_move_down) = match position {
            Some(k) => (k > 0, k + 1 < rules.len()),
            None => (false, false),
        };
        DialogButtons {
            can_move_up,
            can_move_down,
            at_rule_limit,
            can_apply: draft_valid && !external_conflict && (position.is_some() || !at_rule_limit),
        }
    }
}


/// Moving a rule by `offset` from position `k` lands exactly `offset`
/// places away, held within `0..=usize::MAX`: one step up from `k > 0` is
/// `k - 1`, one step down is `k + 1`.
pub proof fn moving_a_rule_shifts_it_by_the_offset(k: int, offset: int)
    requires
        0 <= k <= usize::MAX,
    ensures
        0 <= k + offset <= usize::MAX ==> moved_index(k, offset) == k + offset,
        k + offset < 0 ==> moved_index(k, offset) == 0,
        k + offset > usize::MAX ==> moved_index(k, offset) == usize::MAX,
        k > 0 ==> moved_index(k, -1) == k - 1,
        k < usize::MAX ==> moved_index(k, 1) == k + 1,
{
}

} // verus!
