use tinyshell::highlighting::{
    built_in_name_key,
    clear_highlight_rules_dialog_window, highlight_rule_has_conflict,
    preview_contains_boundary_regressions, rules_equal, split_preview_lines, PreviewSegment, HighlightMatchKind, HighlightRule,
    HighlightRuleStyle, HighlightTarget, DEFAULT_HIGHLIGHT_PREVIEW,
};

fn critical_rule() -> HighlightRule {
    HighlightRule {
        id: "builtin-critical".to_string(),
        name: "Critical".to_string(),
        enabled: true,
        pattern: "FATAL|PANIC|CRITICAL".to_string(),
        match_kind: HighlightMatchKind::Regex,
        case_sensitive: false,
        whole_word: true,
        target: HighlightTarget::Line,
        style: HighlightRuleStyle {
            foreground: Some("#FF5555".to_string()),
            background: None,
            bold: true,
            underline: false,
        },
    }
}

#[test]
fn default_preview_exercises_known_substring_regressions() {
    assert!(preview_contains_boundary_regressions(
        DEFAULT_HIGHLIGHT_PREVIEW
    ));
}

#[test]
fn preview_without_a_sample_word_is_reported() {
    assert!(!preview_contains_boundary_regressions("backup token thread"));
    assert!(preview_contains_boundary_regressions("payloadthreadtokenbackup"));
}

#[test]
fn dialog_window_lifecycle_only_clears_the_current_handle() {
    let mut slot = Some(7_u64);

    assert!(!clear_highlight_rules_dialog_window(&mut slot, 6));
    assert_eq!(slot, Some(7));
    assert!(clear_highlight_rules_dialog_window(&mut slot, 7));
    assert_eq!(slot, None);
    assert!(!clear_highlight_rules_dialog_window(&mut slot, 7));

    slot = Some(8);
    assert!(!clear_highlight_rules_dialog_window(&mut slot, 7));
    assert_eq!(slot, Some(8));
}

#[test]
fn rule_conflicts_detect_external_changes_and_deletions() {
    let baseline = critical_rule();
    let mut changed = baseline.clone();
    changed.pattern.push_str("|ABORTED");

    assert!(!highlight_rule_has_conflict(
        Some(&baseline),
        Some(&baseline)
    ));
    assert!(highlight_rule_has_conflict(Some(&baseline), Some(&changed)));
    assert!(highlight_rule_has_conflict(Some(&baseline), None));
    assert!(highlight_rule_has_conflict(None, Some(&changed)));
    assert!(!highlight_rule_has_conflict(None, None));
}

#[test]
fn every_field_takes_part_in_rule_equality() {
    let a = critical_rule();
    assert!(rules_equal(&a, &a.clone()));
    let mut b = a.clone();
    b.style.background = Some("#000000".to_string());
    assert!(!rules_equal(&a, &b));
    let mut c = a.clone();
    c.target = HighlightTarget::Match;
    assert!(!rules_equal(&a, &c));
    let mut d = a.clone();
    d.style.foreground = None;
    assert!(highlight_rule_has_conflict(Some(&a), Some(&d)));
}

#[test]
fn preview_segments_preserve_utf8_text_and_match_boundaries() {
    let text = "INFO 连接成功\nbackup completed";
    let start = text.find("连接").unwrap();
    let end = start + "连接".len();
    let matched_range = start..end;

    assert_eq!(
        split_preview_lines(text, std::slice::from_ref(&matched_range)),
        vec![
            vec![
                PreviewSegment {
                    text: "INFO ".to_string(),
                    matched: false,
                },
                PreviewSegment {
                    text: "连接".to_string(),
                    matched: true,
                },
                PreviewSegment {
                    text: "成功".to_string(),
                    matched: false,
                },
            ],
            vec![PreviewSegment {
                text: "backup completed".to_string(),
                matched: false,
            }],
        ]
    );
}

#[test]
fn overlapping_and_out_of_line_ranges_are_clipped() {
    let text = "ab\n\ncdef";
    let ranges = [0..1, 0..2, 5..100, 3..4];
    assert_eq!(
        split_preview_lines(text, &ranges),
        vec![
            vec![
                PreviewSegment { text: "a".to_string(), matched: true },
                PreviewSegment { text: "b".to_string(), matched: true },
            ],
            vec![PreviewSegment { text: " ".to_string(), matched: false }],
            vec![
                PreviewSegment { text: "c".to_string(), matched: false },
                PreviewSegment { text: "def".to_string(), matched: true },
            ],
        ]
    );
}

#[test]
fn builtin_name_key_only_applies_until_the_rule_is_renamed() {
    let mut rule = critical_rule();
    assert_eq!(built_in_name_key(&rule), Some("highlight_builtin_critical"));
    rule.name = "Production crash".to_string();
    assert_eq!(built_in_name_key(&rule), None);
    let mut path = critical_rule();
    path.id = "builtin-file-path".to_string();
    path.name = "File path".to_string();
    assert_eq!(built_in_name_key(&path), Some("highlight_builtin_file_path"));
}

fn builtin_rules() -> Vec<HighlightRule> {
    [
        ("builtin-critical", "Critical"),
        ("builtin-error", "Error"),
        ("builtin-warning", "Warning"),
        ("builtin-success", "Success"),
        ("builtin-info", "Info"),
        ("builtin-debug", "Debug"),
        ("builtin-http-errors", "HTTP errors"),
        ("builtin-http-method", "HTTP method"),
        ("builtin-url", "Web URL"),
        ("builtin-email", "Email address"),
        ("builtin-ipv4", "IPv4 address"),
        ("builtin-mac", "MAC address"),
        ("builtin-ipv6", "IPv6 address"),
        ("builtin-uuid", "UUID"),
        ("builtin-timestamp", "ISO timestamp"),
        ("builtin-file-path", "File path"),
    ]
    .iter()
    .map(|(id, name)| {
        let mut rule = critical_rule();
        rule.id = id.to_string();
        rule.name = name.to_string();
        rule
    })
    .collect()
}

#[test]
fn localized_builtin_name_only_applies_until_the_user_renames_it() {
    let rules = builtin_rules();
    assert!(rules.iter().all(|rule| built_in_name_key(rule).is_some()));

    let mut rule = rules[0].clone();
    assert_eq!(built_in_name_key(&rule), Some("highlight_builtin_critical"));

    rule.name = "Production crash".to_string();
    assert_eq!(built_in_name_key(&rule), None);
}

#[test]
fn preview_segments_join_back_to_each_line() {
    let text = "héllo wörld\n\nok done";
    let ranges = vec![1..3, 8..15, 14..16];
    let lines = split_preview_lines(text, &ranges);
    let expected: Vec<&str> = vec!["héllo wörld", " ", "ok done"];
    assert_eq!(lines.len(), expected.len());
    for (segments, line) in lines.iter().zip(expected) {
        let joined: String = segments.iter().map(|s| s.text.as_str()).collect();
        assert_eq!(joined, line);
        assert!(segments.iter().all(|s| !s.text.is_empty()));
    }
    assert!(lines[0].iter().any(|s| s.matched && s.text == "é"));
}
