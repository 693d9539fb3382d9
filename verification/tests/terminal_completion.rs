use tinyshell::terminal_completion::{
    contains_parameter_placeholder, matched_prefix_bytes, matching_candidates, QuickCommand,
    QuickCommandCategory, TerminalCompletionCandidate, TerminalCompletionState, MAX_CANDIDATES,
};

fn categories(commands: &[(&str, &str, &str)]) -> Vec<QuickCommandCategory> {
    vec![QuickCommandCategory {
        id: "category".into(),
        name: "常用".into(),
        commands: commands
            .iter()
            .enumerate()
            .map(|(index, (name, remark, command))| QuickCommand {
                id: format!("command-{index}"),
                name: (*name).into(),
                remark: (*remark).into(),
                command: (*command).into(),
            })
            .collect(),
    }]
}

#[test]
fn requires_two_characters_before_matching() {
    let categories = categories(&[("列表", "列出目录", "ls")]);
    let mut state = TerminalCompletionState::default();

    state.push_text("l", &categories);
    assert!(!state.is_visible());

    state.push_text("s", &categories);
    assert_eq!(state.candidates()[0].command, "ls");
}

#[test]
fn matches_ascii_prefix_case_insensitively_and_uses_remark() {
    let categories = categories(&[("Git 状态", "查看状态", "git status")]);
    let mut state = TerminalCompletionState::default();

    state.push_text("GI", &categories);

    assert_eq!(
        state.candidates(),
        &[TerminalCompletionCandidate {
            command: "git status".into(),
            label: "查看状态".into(),
            matched_prefix_bytes: 2,
        }]
    );
}

#[test]
fn falls_back_to_name_and_filters_parameter_templates() {
    let categories = categories(&[
        ("查看日志", "", "journalctl"),
        ("查看服务", "服务详情", "journalctl -u [p1]"),
    ]);
    let mut state = TerminalCompletionState::default();

    state.push_text("jo", &categories);

    assert_eq!(state.candidates().len(), 1);
    assert_eq!(state.candidates()[0].label, "查看日志");
}

#[test]
fn limits_candidates_and_wraps_selection() {
    let commands = (0..8)
        .map(|index| (format!("命令 {index}"), String::new(), format!("ls{index}")))
        .collect::<Vec<_>>();
    let borrowed = commands
        .iter()
        .map(|(name, remark, command)| (name.as_str(), remark.as_str(), command.as_str()))
        .collect::<Vec<_>>();
    let categories = categories(&borrowed);
    let mut state = TerminalCompletionState::default();

    state.push_text("ls", &categories);
    assert_eq!(state.candidates().len(), MAX_CANDIDATES);

    state.move_selection(-1);
    assert_eq!(state.selected_index(), MAX_CANDIDATES - 1);
    state.move_selection(1);
    assert_eq!(state.selected_index(), 0);
}

#[test]
fn accepting_candidate_returns_only_missing_suffix() {
    let categories = categories(&[("Git 状态", "", "git status")]);
    let mut state = TerminalCompletionState::default();
    state.push_text("git", &categories);

    assert_eq!(state.accept_selected().as_deref(), Some(" status"));
    assert_eq!(state.input, "git status");
    assert!(!state.is_visible());
}

#[test]
fn backspace_refreshes_and_clear_resets_state() {
    let categories = categories(&[("列表", "", "ls")]);
    let mut state = TerminalCompletionState::default();
    state.push_text("ls", &categories);
    assert!(state.is_visible());

    state.backspace(&categories);
    assert_eq!(state.input, "l");
    assert!(!state.is_visible());

    state.clear();
    assert!(state.input.is_empty());
}

#[test]
fn matched_prefix_counts_utf8_bytes_of_the_command() {
    assert_eq!(matched_prefix_bytes("Ärger", "Är"), Some(3));
    assert_eq!(matched_prefix_bytes("GIT", "git"), Some(3));
    assert_eq!(matched_prefix_bytes("ls", "lsx"), None);
    assert_eq!(matched_prefix_bytes("ls", "la"), None);
    assert_eq!(matched_prefix_bytes("äb", "Äb"), None);
}

#[test]
fn placeholders_one_to_five_are_detected() {
    assert!(contains_parameter_placeholder("echo [p1]"));
    assert!(contains_parameter_placeholder("echo [p5] x"));
    assert!(!contains_parameter_placeholder("echo [p6]"));
    assert!(!contains_parameter_placeholder("echo [p0] [p]"));
}

#[test]
fn control_characters_and_short_queries_match_nothing() {
    let categories = categories(&[("列表", "", "ls -la")]);
    assert!(matching_candidates("l", &categories).is_empty());
    assert!(matching_candidates("ls\t", &categories).is_empty());
    assert_eq!(matching_candidates("LS -", &categories).len(), 1);
}

#[test]
fn selection_stays_within_candidates_after_refresh_and_wraps_far() {
    let categories = categories(&[("a", "", "ls1"), ("b", "", "ls2"), ("c", "", "lx")]);
    let mut state = TerminalCompletionState::default();
    state.push_text("l", &categories);
    state.push_text("s", &categories);
    assert_eq!(state.candidates().len(), 2);
    state.move_selection(-7);
    assert_eq!(state.selected_index(), 1);
    state.move_selection(5);
    assert_eq!(state.selected_index(), 0);
    state.select(1);
    assert_eq!(state.selected_index(), 1);
    state.select(2);
    assert_eq!(state.selected_index(), 1);
    state.push_text("1", &categories);
    assert_eq!(state.candidates().len(), 1);
    assert_eq!(state.selected_index(), 0);
    state.dismiss();
    assert!(!state.is_visible());
    assert_eq!(state.accept_selected(), None);
    assert_eq!(state.input, "ls1");
}
