use tinyshell::pane_layout::PaneLayout;
use tinyshell::terminal_workspace::{
    choose_transfer_active_tab, extract_system_info_transfer, restore_system_info_transfer,
    SystemInfoTab, TabGroup, TabKind, TerminalTab, TerminalWorkspaceState,
};

fn half() -> u32 {
    0.5f32.to_bits()
}

fn single(id: &str) -> PaneLayout {
    PaneLayout::Single(id.to_string())
}

fn tab(id: &str) -> TerminalTab {
    TerminalTab {
        id: id.to_string(),
        title: id.to_string(),
        kind: TabKind::Local,
        session_id: None,
    }
}

fn group(id: &str, layout: PaneLayout) -> TabGroup {
    TabGroup {
        id: id.to_string(),
        drag_id: 0,
        ordinal: 0,
        title: id.to_string(),
        pane_root: layout,
    }
}

#[test]
fn system_info_transfer_extracts_and_restores_only_related_tabs() {
    let tabs = vec![
        SystemInfoTab {
            id: "info-a".into(),
            source_tab_id: "a".into(),
            title: "A".into(),
        },
        SystemInfoTab {
            id: "info-b".into(),
            source_tab_id: "b".into(),
            title: "B".into(),
        },
    ];
    let valid = vec!["a".to_string()];
    let (moved, active) = extract_system_info_transfer(&tabs, Some("info-a"), &valid);
    assert_eq!(moved.len(), 1);
    assert_eq!(active.as_deref(), Some("info-a"));
    let mut destination = vec![tabs[1].clone()];
    assert_eq!(
        restore_system_info_transfer(&mut destination, moved, active),
        Some("info-a".to_string())
    );
    assert_eq!(destination.len(), 2);
}

#[test]
fn transfer_active_tab_only_uses_valid_pane_tabs() {
    let layout = PaneLayout::Horizontal(vec![single("a"), single("b")], half());
    let valid = vec!["a".to_string(), "b".to_string()];
    assert_eq!(
        choose_transfer_active_tab(Some("b"), &layout, &valid),
        Some("b".to_string())
    );
    assert_eq!(
        choose_transfer_active_tab(Some("old-target"), &layout, &valid),
        Some("a".to_string())
    );
    assert_eq!(
        choose_transfer_active_tab(None, &PaneLayout::Empty, &valid),
        None
    );
}

#[test]
fn removing_missing_tab_preserves_layout() {
    let mut layout = PaneLayout::Horizontal(vec![single("a"), single("b")], half());

    assert!(!layout.remove_tab("missing"));
    assert_eq!(layout.tab_ids(), vec!["a", "b"]);
}

#[test]
fn removing_leaf_collapses_single_child_parent() {
    let mut layout = PaneLayout::Horizontal(
        vec![
            single("a"),
            PaneLayout::Vertical(vec![single("b"), single("c")], half()),
        ],
        half(),
    );

    assert!(layout.remove_tab("b"));
    assert_eq!(layout.tab_ids(), vec!["a", "c"]);
    assert!(matches!(layout, PaneLayout::Horizontal(_, _)));
}

#[test]
fn removing_last_leaf_returns_empty_without_empty_id() {
    let mut layout = single("only");

    assert!(layout.remove_tab("only"));
    assert!(matches!(layout, PaneLayout::Empty));
    assert!(layout.tab_ids().is_empty());
}

#[test]
fn workspace_queries_and_clear_preserve_invariants() {
    let mut state = TerminalWorkspaceState::new();

    assert_eq!(state.tab_count(), 0);
    assert!(state.active_tab_id().is_none());
    assert!(state.active_group_id().is_none());
    assert!(state.system_info_tabs().is_empty());
    assert!(matches!(state.pane_root(), PaneLayout::Empty));
    assert!(state.focused_pane_path().is_empty());

    state.set_active_tab(Some("tab".to_string()));
    state.set_active_group(Some("group".to_string()));
    state.set_active_system_info_tab(Some("info".to_string()));
    state.set_pane_root(single("tab"));
    state.set_focused_pane_path(vec![1, 0]);
    state.clear();

    assert_eq!(state.tab_count(), 0);
    assert!(state.active_tab_id().is_none());
    assert!(state.active_group_id().is_none());
    assert!(state.active_system_info_tab_id().is_none());
    assert!(matches!(state.pane_root(), PaneLayout::Empty));
    assert!(state.focused_pane_path().is_empty());
}

#[test]
fn ordinal_reservation_is_monotonic() {
    let mut state = TerminalWorkspaceState::new();

    assert_eq!(state.reserve_tab_group_ordinal(), 1);
    assert_eq!(state.reserve_tab_group_ordinal(), 2);
    state.set_next_tab_group_ordinal(10);
    assert_eq!(state.reserve_tab_group_ordinal(), 10);
}

#[test]
fn active_group_owns_the_pane_root_and_lookups_follow_groups() {
    let mut state = TerminalWorkspaceState::new();
    state.push_tab(tab("a"));
    state.push_tab(tab("b"));
    state.push_group(group("g1", single("a")));
    state.push_group(group("g2", single("b")));
    state.set_active_group(Some("g2".to_string()));
    assert_eq!(state.pane_root().tab_ids(), vec!["b"]);
    state.set_pane_root(PaneLayout::Vertical(vec![single("b"), single("a")], half()));
    assert_eq!(state.tab_group("g2").unwrap().pane_root.tab_ids(), vec!["b", "a"]);
    assert_eq!(state.group_id_for_tab("a").as_deref(), Some("g1"));
    assert_eq!(state.tab_group_position("g2"), Some(1));
    assert!(state.terminal_tab("missing").is_none());
    assert_eq!(state.preferred_terminal_tab_id().as_deref(), Some("b"));
    state.set_active_tab(Some("a".to_string()));
    assert_eq!(state.preferred_terminal_tab_id().as_deref(), Some("a"));
    assert_eq!(state.remove_group(5).map(|g| g.id), None);
    assert_eq!(state.remove_group(0).map(|g| g.id), Some("g1".to_string()));
    assert_eq!(state.tab_groups().len(), 1);
}

#[test]
fn inserting_past_the_end_appends() {
    let mut state = TerminalWorkspaceState::new();
    state.insert_tab(9, tab("a"));
    state.insert_tab(0, tab("b"));
    let ids: Vec<&str> = state.tabs().iter().map(|t| t.id.as_str()).collect();
    assert_eq!(ids, vec!["b", "a"]);
    state.push_system_info_tab(SystemInfoTab {
        id: "i".into(),
        source_tab_id: "a".into(),
        title: "I".into(),
    });
    assert!(state.remove_system_info_tab("x").is_none());
    assert_eq!(state.remove_system_info_tab("i").map(|t| t.id), Some("i".to_string()));
}
