use tinyshell::pane_layout::PaneLayout;
use tinyshell::selector::{selector_key, step_selection, IncomingTabHover, SelectorKey};
use tinyshell::shell::{SelectorEntry, TinyShell};
use tinyshell::tab_drag::{DockZone, TabDragState};
use tinyshell::terminal_workspace::{TabGroup, TerminalWorkspaceState};

fn shell_with_sessions(n: usize) -> TinyShell {
    let mut workspace = TerminalWorkspaceState::new();
    workspace.push_group(TabGroup {
        id: "g1".to_string(),
        drag_id: 41,
        ordinal: 0,
        title: "g1".to_string(),
        pane_root: PaneLayout::Single("a".to_string()),
    });
    TinyShell {
        workspace,
        system_tab_id: None,
        home_page_open: false,
        sftp_handle_ids: vec![],
        session_ids: (0..n).map(|i| format!("s{i}")).collect(),
        tab_drag: TabDragState::new(),
        dragging_splitter: None,
        drag_split_origin: None,
        search_active: false,
        search_query: String::new(),
        search_matches: Vec::new(),
        search_current: 0,
        search_target_tab: None,
        remote_desktop_surfaces: vec![],
    }
}

#[test]
fn selector_keys_are_read_without_regard_to_case() {
    assert_eq!(selector_key("Up"), Some(SelectorKey::Previous));
    assert_eq!(selector_key("ArrowDown"), Some(SelectorKey::Next));
    assert_eq!(selector_key("down"), Some(SelectorKey::Next));
    assert_eq!(selector_key("ENTER"), Some(SelectorKey::Activate));
    assert_eq!(selector_key("return"), Some(SelectorKey::Activate));
    assert_eq!(selector_key("escape"), None);
}

#[test]
fn the_selection_stays_within_the_entries() {
    assert_eq!(step_selection(0, -1, 3), None);
    assert_eq!(step_selection(0, 1, 3), Some(1));
    assert_eq!(step_selection(2, 1, 3), None);
    assert_eq!(step_selection(9, 1, 3), Some(2));
    assert_eq!(step_selection(9, -1, 3), Some(1));
    assert_eq!(step_selection(0, 1, 0), None);
    assert_eq!(step_selection(1, i32::MIN, 3), Some(0));

    let s = shell_with_sessions(2);
    assert_eq!(s.move_selector_selection(3, 1), None);
    assert_eq!(s.move_selector_selection(1, 5), Some(3));
    assert!(matches!(s.selected_selector_entry(0), Some(SelectorEntry::Local)));
    assert!(matches!(s.selected_selector_entry(1), Some(SelectorEntry::NewSsh)));
    assert!(matches!(s.selected_selector_entry(3), Some(SelectorEntry::Saved(id)) if id == "s1"));
    assert!(s.selected_selector_entry(4).is_none());
}

#[test]
fn a_dragged_group_carries_its_drag_id() {
    let mut s = shell_with_sessions(0);
    assert_eq!(s.native_tab_drag_payload(), None);
    s.tab_drag.begin("g1".to_string(), (0, 0));
    assert!(s.tab_drag.promote_if_needed(true));
    assert_eq!(s.native_tab_drag_payload(), Some(("g1".to_string(), 41)));
}

#[test]
fn a_hovering_drag_is_recorded_once_and_cleared_by_its_id() {
    let mut hover = IncomingTabHover::new();
    assert!(hover.set(7, DockZone::Center));
    assert!(!hover.set(7, DockZone::Center));
    assert!(hover.set(7, DockZone::Left));
    assert!(!hover.clear(8));
    assert_eq!(hover.drag_id, Some(7));
    assert!(hover.clear(7));
    assert_eq!(hover.drag_id, None);
    assert_eq!(hover.zone, None);
}
