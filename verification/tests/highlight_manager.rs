use tinyshell::highlight_manager::{
    new_rule, rules_with_enabled, DialogButtons, DraftField, DraftProblem, DraftSwitch,
    HighlightRulesManager,
};
use tinyshell::highlighting::{
    HighlightMatchKind, HighlightRule, HighlightRuleStyle, HighlightTarget, DEFAULT_HIGHLIGHT_PREVIEW,
};

fn rule(id: &str, name: &str, pattern: &str) -> HighlightRule {
    HighlightRule {
        id: id.to_string(),
        name: name.to_string(),
        enabled: true,
        pattern: pattern.to_string(),
        match_kind: HighlightMatchKind::Regex,
        case_sensitive: false,
        whole_word: true,
        target: HighlightTarget::Line,
        style: HighlightRuleStyle {
            foreground: Some("#FF5555".to_string()),
            background: None,
            bold: true,
            underline: false,
        },
    }
}

fn stored() -> Vec<HighlightRule> {
    vec![rule("r1", "Errors", "ERROR"), rule("r2", "Warnings", "WARN"), rule("r3", "Info", "INFO")]
}

#[test]
fn a_new_rule_has_a_fresh_custom_id_and_a_blue_match_style() {
    let a = new_rule();
    let b = new_rule();
    assert!(a.id.starts_with("custom-"));
    assert_eq!(a.id.len(), 43);
    assert_ne!(a.id, b.id);
    assert!(a.name.is_empty() && a.pattern.is_empty());
    assert!(a.enabled && a.whole_word && !a.case_sensitive);
    assert_eq!(a.match_kind, HighlightMatchKind::Literal);
    assert_eq!(a.target, HighlightTarget::Match);
    assert_eq!(a.style.foreground.as_deref(), Some("#6CB4EE"));
    assert!(a.style.background.is_none() && !a.style.bold && !a.style.underline);
}

#[test]
fn the_dialog_opens_on_the_first_stored_rule_or_a_new_one() {
    let d = HighlightRulesManager::open(&stored());
    assert_eq!(d.selected_id.as_deref(), Some("r1"));
    assert_eq!(d.name_input, "Errors");
    assert_eq!(d.foreground_input, "#FF5555");
    assert_eq!(d.background_input, "");
    assert!(d.baseline_persisted);
    assert_eq!(d.preview_input, DEFAULT_HIGHLIGHT_PREVIEW);
    assert!(!d.draft_is_dirty());

    let d = HighlightRulesManager::open(&[]);
    assert!(d.selected_id.is_none());
    assert!(!d.baseline_persisted);
    assert!(d.draft_id.starts_with("custom-"));
    assert!(!d.draft_is_dirty());
}

#[test]
fn the_snapshot_trims_the_name_and_colours() {
    let mut d = HighlightRulesManager::open(&stored());
    d.input_changed(DraftField::Name, "  Errors ".to_string());
    d.input_changed(DraftField::Background, "   ".to_string());
    let snap = d.draft_snapshot();
    assert_eq!(snap.name, "Errors");
    assert!(snap.style.background.is_none());
    assert!(!d.draft_is_dirty());
    d.input_changed(DraftField::Foreground, " #00FF00 ".to_string());
    assert_eq!(d.draft_snapshot().style.foreground.as_deref(), Some("#00FF00"));
    assert!(d.draft_is_dirty());
}

#[test]
fn pending_edits_block_switching_rules_and_closing() {
    let rules = stored();
    let mut d = HighlightRulesManager::open(&rules);
    d.input_changed(DraftField::Pattern, "ERROR|FAIL".to_string());
    assert!(d.draft_is_dirty());
    d.select_rule("r2", &rules);
    assert_eq!(d.selected_id.as_deref(), Some("r1"));
    assert!(d.unsaved_warning);
    assert!(!d.request_close());
    d.start_new_rule(&rules);
    assert_eq!(d.draft_id, "r1");

    d.discard_draft(&rules);
    assert!(!d.draft_is_dirty());
    assert!(!d.unsaved_warning);
    d.select_rule("r2", &rules);
    assert_eq!(d.selected_id.as_deref(), Some("r2"));
    assert_eq!(d.pattern_input, "WARN");
    assert!(d.request_close());
}

#[test]
fn a_draft_needs_a_name_a_pattern_and_a_style() {
    let mut d = HighlightRulesManager::open(&[]);
    assert_eq!(d.draft_rule().unwrap_err(), DraftProblem::MissingName);
    d.input_changed(DraftField::Name, "x".repeat(65));
    assert_eq!(d.draft_rule().unwrap_err(), DraftProblem::NameTooLong);
    d.input_changed(DraftField::Name, "Deploys".to_string());
    assert_eq!(d.draft_rule().unwrap_err(), DraftProblem::MissingPattern);
    d.input_changed(DraftField::Pattern, "y".repeat(513));
    assert_eq!(d.draft_rule().unwrap_err(), DraftProblem::PatternTooLong);
    d.input_changed(DraftField::Pattern, "deploy".to_string());
    d.input_changed(DraftField::Foreground, String::new());
    assert_eq!(d.draft_rule().unwrap_err(), DraftProblem::MissingStyle);
    d.set_switch(DraftSwitch::Underline, true);
    let ok = d.draft_rule().expect("complete draft");
    assert_eq!(ok.name, "Deploys");
    assert!(ok.style.underline);
}

#[test]
fn saving_stores_the_draft_and_leaves_it_clean() {
    let rules = stored();
    let mut d = HighlightRulesManager::open(&rules);
    d.input_changed(DraftField::Pattern, "ERROR|FAIL".to_string());
    assert!(d.save_rule(false, &rules).is_none());
    assert!(d.draft_is_dirty());
    let saved = d.save_rule(true, &rules).expect("saved");
    assert_eq!(saved.id, "r1");
    assert_eq!(saved.pattern, "ERROR|FAIL");
    assert!(d.saved);
    assert!(!d.draft_is_dirty());
    assert_eq!(d.selected_id.as_deref(), Some("r1"));

    // The stored rule changed meanwhile: saving shows the notice instead.
    let mut changed = stored();
    changed[0].pattern = "PANIC".to_string();
    d.input_changed(DraftField::Name, "Errors!".to_string());
    assert!(d.save_rule(true, &changed).is_none());
    assert!(d.unsaved_warning);

    // A new rule is refused once the limit is reached.
    let full: Vec<HighlightRule> = (0..128).map(|i| rule(&format!("k{i}"), "n", "p")).collect();
    let mut d = HighlightRulesManager::open(&[]);
    d.input_changed(DraftField::Name, "New".to_string());
    d.input_changed(DraftField::Pattern, "new".to_string());
    assert!(d.save_rule(true, &full).is_none());
    assert!(d.save_rule(true, &[]).is_some());

    // A preview longer than the limit blocks saving.
    let mut d = HighlightRulesManager::open(&rules);
    d.preview_changed("z".repeat(8193));
    assert!(d.save_rule(true, &rules).is_none());
}

#[test]
fn deleting_asks_for_confirmation_and_shows_the_next_rule() {
    let rules = stored();
    let mut d = HighlightRulesManager::open(&rules);
    d.select_rule("r2", &rules);
    assert!(d.confirm_delete_selected(&rules).is_none());
    d.toggle_delete_confirmation();
    assert!(d.delete_armed);
    let (id, index) = d.confirm_delete_selected(&rules).expect("armed");
    assert_eq!((id.as_str(), index), ("r2", 1));
    assert!(!d.delete_armed);
    let remaining = vec![rules[0].clone(), rules[2].clone()];
    d.load_after_delete(index, &remaining);
    assert_eq!(d.selected_id.as_deref(), Some("r3"));

    d.load_after_delete(5, &remaining[..1]);
    assert_eq!(d.selected_id.as_deref(), Some("r1"));
    d.load_after_delete(0, &[]);
    assert!(d.selected_id.is_none());
    assert!(d.draft_id.starts_with("custom-"));
}

#[test]
fn restoring_defaults_asks_for_confirmation() {
    let rules = stored();
    let mut d = HighlightRulesManager::open(&rules);
    assert!(!d.confirm_restore_defaults());
    d.toggle_delete_confirmation();
    d.toggle_restore_confirmation();
    assert!(d.reset_armed && !d.delete_armed);
    assert!(d.confirm_restore_defaults());
    assert!(!d.reset_armed);
    d.load_after_restore(&rules[1..]);
    assert_eq!(d.selected_id.as_deref(), Some("r2"));
}

#[test]
fn moving_and_switching_rules() {
    let rules = stored();
    let mut d = HighlightRulesManager::open(&rules);
    assert_eq!(d.move_selected(-1, &rules), Some(("r1".to_string(), 0)));
    assert_eq!(d.move_selected(2, &rules), Some(("r1".to_string(), 2)));
    d.select_rule("r3", &rules);
    assert_eq!(d.move_selected(isize::MIN, &rules), Some(("r3".to_string(), 0)));

    d.set_rule_enabled("r3", false);
    assert!(!d.enabled && !d.baseline_rule.enabled);
    assert!(!d.draft_is_dirty());
    let switched = rules_with_enabled(&rules, "r2", false).expect("r2 is stored");
    assert!(switched[0].enabled && !switched[1].enabled && switched[2].enabled);
    assert!(rules_with_enabled(&rules, "zz", false).is_none());
}

#[test]
fn editing_switches_and_kinds_unsaves_the_draft() {
    let rules = stored();
    let mut d = HighlightRulesManager::open(&rules);
    d.saved = true;
    d.set_match_kind(HighlightMatchKind::Literal);
    assert!(!d.saved);
    assert!(d.draft_is_dirty());
    d.set_match_kind(HighlightMatchKind::Regex);
    d.set_target(HighlightTarget::Match);
    assert!(d.draft_is_dirty());
    d.discard_draft(&rules);
    assert_eq!(d.target, HighlightTarget::Line);
    d.set_switch(DraftSwitch::Bold, false);
    assert!(d.draft_is_dirty());
}

#[test]
fn the_dialog_offers_moves_and_saving_by_position_and_limit() {
    let rules = stored();
    let mut d = HighlightRulesManager::open(&rules);
    assert_eq!(
        d.buttons(&rules, true),
        DialogButtons { can_move_up: false, can_move_down: true, at_rule_limit: false, can_apply: true }
    );
    d.select_rule("r3", &rules);
    let b = d.buttons(&rules, false);
    assert!(b.can_move_up && !b.can_move_down && !b.can_apply);

    let many: Vec<HighlightRule> = (0..128).map(|i| rule(&format!("x{i}"), "n", "p")).collect();
    let mut fresh = HighlightRulesManager::open(&[]);
    let b = fresh.buttons(&many, true);
    assert!(b.at_rule_limit && !b.can_apply && !b.can_move_up && !b.can_move_down);
    fresh.select_rule("x5", &many);
    let b = fresh.buttons(&many, true);
    assert!(b.at_rule_limit && b.can_apply && b.can_move_up && b.can_move_down);
}

#[test]
fn new_rule_ids_carry_a_version_four_uuid() {
    let id = new_rule().id;
    let uuid = &id["custom-".len()..];
    let chars: Vec<char> = uuid.chars().collect();
    assert_eq!(chars.len(), 36);
    assert_eq!(chars[14], '4');
    assert!(matches!(chars[19], '8' | '9' | 'a' | 'b'));
    for (i, c) in chars.iter().enumerate() {
        if [8, 13, 18, 23].contains(&i) {
            assert_eq!(*c, '-');
        } else {
            assert!(c.is_ascii_hexdigit() && !c.is_ascii_uppercase());
        }
    }
}
