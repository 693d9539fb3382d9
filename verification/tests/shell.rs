use tinyshell::shell_split::SplitPlan;
use tinyshell::tab_transfer::dock_tab_layout;
use tinyshell::pane_layout::PaneLayout;
use tinyshell::shell::{SelectorEntry, TinyShell};
use tinyshell::shell_panes::PaneDirection;
use tinyshell::shell_merge::{abandon_group_move, finish_group_move, prepare_group_move};
use tinyshell::shell_receive::{tabs_by_position, tabs_in_pane_order};
use tinyshell::shell_transfer::ReceiptPlan;
use tinyshell::shell_tab_close::TabCloseOutcome;
use tinyshell::tab_drag::{DockZone, TabDragState};
use tinyshell::tab_transfer::GroupTransfer;
use tinyshell::terminal_workspace::{
    SystemInfoTab, TabGroup, TabKind, TerminalTab, TerminalWorkspaceState,
};

fn half() -> u32 {
    0.5f32.to_bits()
}

fn leaf(id: &str) -> PaneLayout {
    PaneLayout::Single(id.to_string())
}

fn tab(id: &str, kind: TabKind) -> TerminalTab {
    TerminalTab {
        id: id.to_string(),
        title: id.to_string(),
        kind,
        session_id: if kind == TabKind::Ssh { Some(format!("s-{id}")) } else { None },
    }
}

fn group(id: &str, layout: PaneLayout) -> TabGroup {
    TabGroup {
        id: id.to_string(),
        drag_id: 0,
        ordinal: 0,
        title: id.to_string(),
        pane_root: layout,
    }
}

fn shell() -> TinyShell {
    let mut workspace = TerminalWorkspaceState::new();
    workspace.push_tab(tab("a", TabKind::Local));
    workspace.push_tab(tab("b", TabKind::Ssh));
    workspace.push_tab(tab("c", TabKind::Ssh));
    workspace.push_group(group(
        "g1",
        PaneLayout::Vertical(vec![leaf("a"), leaf("b")], half()),
    ));
    workspace.push_group(group("g2", leaf("c")));
    workspace.set_active_group(Some("g1".to_string()));
    workspace.set_active_tab(Some("a".to_string()));
    TinyShell {
        workspace,
        system_tab_id: None,
        home_page_open: false,
        sftp_handle_ids: vec!["b".to_string()],
        session_ids: vec!["saved-1".to_string()],
        tab_drag: TabDragState::new(),
        dragging_splitter: None,
        drag_split_origin: None,
        search_active: false,
        search_query: String::new(),
        search_matches: Vec::new(),
        search_current: 0,
        search_target_tab: None,
        remote_desktop_surfaces: vec!["r1".to_string(), "r2".to_string()],
    }
}

#[test]
fn focusing_a_pane_follows_its_path_and_adjacent_moves_stay_in_the_split() {
    let mut s = shell();
    assert!(s.focus_pane_with_id("b".to_string()));
    assert_eq!(s.workspace.focused_pane_path(), &[1]);
    assert_eq!(s.workspace.active_tab_id(), Some("b"));
    s.focus_adjacent_pane(PaneDirection::Left);
    assert_eq!(s.workspace.active_tab_id(), Some("a"));
    assert!(!s.focus_pane_with_id("c".to_string()));
    assert_eq!(s.find_focused_tab(), Some(("a".to_string(), "a".to_string())));
}

#[test]
fn the_monitored_tab_follows_the_ssh_panes_of_the_active_group() {
    let mut s = shell();
    assert!(s.sync_system_tab_to_active_group());
    assert_eq!(s.system_tab_id.as_deref(), Some("b"));
    assert!(!s.sync_system_tab_to_active_group());
    assert_eq!(s.active_kind(), Some(TabKind::Local));
    assert_eq!(s.active_session_id(), None);
}

#[test]
fn closing_the_active_pane_activates_its_neighbour() {
    let s = shell();
    assert_eq!(s.find_tab_and_group("b"), Some((0, 1)));
    assert_eq!(s.resolve_next_active(0, 0), (true, Some("b".to_string())));
    assert_eq!(s.resolve_next_active(0, 1), (false, None));
}

#[test]
fn selector_lists_new_tabs_then_saved_sessions() {
    let s = shell();
    let entries = s.selector_entries();
    assert_eq!(entries.len(), 3);
    assert!(matches!(entries[0], SelectorEntry::Local));
    assert!(matches!(entries[1], SelectorEntry::NewSsh));
    assert!(matches!(&entries[2], SelectorEntry::Saved(id) if id == "saved-1"));
    assert_eq!(s.default_selector_index(), 2);
}

#[test]
fn taking_a_group_for_transfer_moves_its_tabs_out() {
    let mut s = shell();
    s.workspace.push_system_info_tab(SystemInfoTab {
        id: "info-b".into(),
        source_tab_id: "b".into(),
        title: "B".into(),
    });
    assert!(s.take_group_transfer("missing").is_err());
    let transfer = s.take_group_transfer("g1").expect("g1 can move");
    assert_eq!(transfer.group.id, "g1");
    assert_eq!(transfer.tabs.len(), 2);
    assert_eq!(transfer.sftp_handle_ids, vec!["b".to_string()]);
    assert_eq!(transfer.system_info_tabs.len(), 1);
    assert!(transfer.was_active_group);
    assert_eq!(s.workspace.tab_groups().len(), 1);
    assert_eq!(s.workspace.tab_count(), 1);
    assert_eq!(s.workspace.active_group_id(), Some("g2"));
    assert!(s.sftp_handle_ids.is_empty());
    let manifest = s.transfer_target_manifest();
    assert_eq!(manifest.group_ids, vec!["g2".to_string()]);
    assert_eq!(manifest.tab_ids, vec!["c".to_string()]);
}

#[test]
fn transferred_remote_desktop_surfaces_are_dropped() {
    let mut s = shell();
    s.clear_transferred_remote_desktop_surfaces(&["r1".to_string(), "x".to_string()]);
    assert_eq!(s.remote_desktop_surfaces, vec!["r2".to_string()]);
}

#[test]
fn pane_paths_lead_to_leaves() {
    let layout = PaneLayout::Horizontal(
        vec![leaf("a"), PaneLayout::Vertical(vec![leaf("b"), leaf("c")], half())],
        half(),
    );
    assert_eq!(TinyShell::find_pane_path(&layout, "c"), Some(vec![1, 1]));
    assert_eq!(TinyShell::find_pane_path(&layout, "z"), None);
    assert_eq!(TinyShell::first_leaf_path(&layout), vec![0]);
}

#[test]
fn closing_a_pane_keeps_the_group_and_closing_the_last_pane_closes_it() {
    let mut s = shell();
    s.sftp_handle_ids.push("g2".to_string());
    s.workspace.push_system_info_tab(SystemInfoTab {
        id: "info-a".into(),
        source_tab_id: "a".into(),
        title: "A".into(),
    });
    s.workspace.set_active_system_info_tab(Some("info-a".to_string()));

    let closed = s.close_tab_at(0, 0);
    assert_eq!(closed.closed_tab_ids, vec!["a".to_string()]);
    assert!(!closed.sftp_closed);
    assert_eq!(s.workspace.tab_groups()[0].pane_root.tab_ids(), vec!["b"]);
    assert_eq!(s.workspace.tab_count(), 2);
    assert!(s.workspace.system_info_tabs().is_empty());
    assert!(s.workspace.active_system_info_tab_id().is_none());

    let closed = s.close_tab_at(1, 0);
    assert_eq!(closed.closed_tab_ids, vec!["c".to_string()]);
    assert!(closed.sftp_closed);
    assert_eq!(s.workspace.tab_groups().len(), 1);
    assert_eq!(s.sftp_handle_ids, vec!["b".to_string()]);
    assert_eq!(s.workspace.tab_count(), 1);
}

#[test]
fn after_closing_the_active_pane_its_neighbour_takes_the_focus() {
    let mut s = shell();
    let (was_active, next) = s.resolve_next_active(0, 0);
    assert!(was_active);
    s.close_tab_at(0, 0);
    let switched = s.activate_tab_after_close(was_active, next);
    assert!(!switched);
    assert_eq!(s.workspace.active_tab_id(), Some("b"));
    // The split around the closed pane collapsed into the remaining leaf.
    assert!(s.workspace.focused_pane_path().is_empty());

    // Closing the last pane of the active group moves to the other group.
    let (was_active, next) = s.resolve_next_active(0, 0);
    s.close_tab_at(0, 0);
    let switched = s.activate_tab_after_close(was_active, next);
    assert!(switched);
    assert_eq!(s.workspace.active_tab_id(), Some("c"));
    assert_eq!(s.workspace.active_group_id(), Some("g2"));
}

#[test]
fn activating_a_group_shows_it_with_its_first_pane_focused() {
    let mut s = shell();
    s.home_page_open = true;
    assert!(s.activate_group("g2".to_string()));
    assert!(!s.home_page_open);
    assert_eq!(s.workspace.active_group_id(), Some("g2"));
    assert_eq!(s.workspace.active_tab_id(), Some("c"));
    assert!(s.workspace.focused_pane_path().is_empty());
    assert_eq!(s.system_tab_id.as_deref(), Some("c"));

    // Activating the group that is already active is no switch.
    assert!(!s.activate_group("g2".to_string()));
    assert_eq!(s.workspace.active_tab_id(), Some("c"));

    // An unknown group only closes the home page.
    s.home_page_open = true;
    assert!(!s.activate_group("missing".to_string()));
    assert!(!s.home_page_open);
    assert_eq!(s.workspace.active_group_id(), Some("g2"));
}

#[test]
fn docking_a_pane_moves_it_next_to_its_target() {
    let mut s = shell();
    assert!(!s.dock_pane("g1", "b", "b", DockZone::Left));
    assert!(!s.dock_pane("g1", "b", "a", DockZone::Center));
    assert!(!s.dock_pane("g2", "b", "a", DockZone::Left));
    assert!(!s.dock_pane("g1", "b", "c", DockZone::Left));
    assert_eq!(s.workspace.pane_root().tab_ids(), vec!["a", "b"]);

    assert!(s.dock_pane("g1", "b", "a", DockZone::Left));
    assert_eq!(s.workspace.pane_root().tab_ids(), vec!["b", "a"]);
    assert!(matches!(s.workspace.pane_root(), PaneLayout::Vertical(children, _) if children.len() == 2));
    assert_eq!(s.workspace.active_tab_id(), Some("b"));
    assert_eq!(s.workspace.focused_pane_path(), &[0]);

    assert!(s.dock_pane("g1", "a", "b", DockZone::Down));
    assert_eq!(s.workspace.pane_root().tab_ids(), vec!["b", "a"]);
    assert!(matches!(s.workspace.pane_root(), PaneLayout::Horizontal(children, _) if children.len() == 2));
    assert_eq!(s.workspace.active_tab_id(), Some("a"));
    assert_eq!(s.workspace.focused_pane_path(), &[1]);
}

fn ids_of(tabs: &[(usize, TerminalTab)]) -> Vec<(usize, String)> {
    tabs.iter().map(|(i, t)| (*i, t.id.clone())).collect()
}

fn incoming_transfer() -> GroupTransfer {
    let mut g = group("g3", PaneLayout::Vertical(vec![leaf("d"), leaf("e")], half()));
    g.ordinal = 7;
    GroupTransfer {
        group: g,
        group_index: 5,
        tabs: vec![(0, tab("e", TabKind::Local)), (1, tab("d", TabKind::Ssh))],
        sftp_handle_ids: vec!["d".to_string(), "b".to_string()],
        route_ids: vec![],
        active_tab: Some("e".to_string()),
        system_info_tabs: vec![],
        active_system_info_tab: None,
        was_active_group: true,
    }
}

fn tab_list(s: &TinyShell) -> Vec<String> {
    s.workspace.tabs().iter().map(|t| t.id.clone()).collect()
}

#[test]
fn transferred_tabs_sort_by_layout_and_by_former_position() {
    let tabs = vec![
        (3, tab("a", TabKind::Local)),
        (1, tab("x", TabKind::Local)),
        (3, tab("b", TabKind::Local)),
        (0, tab("c", TabKind::Local)),
    ];
    let order = vec!["b".to_string(), "c".to_string(), "a".to_string()];
    assert_eq!(
        ids_of(&tabs_in_pane_order(&tabs, &order)),
        vec![(3, "b".to_string()), (0, "c".to_string()), (3, "a".to_string()), (1, "x".to_string())]
    );
    assert_eq!(
        ids_of(&tabs_by_position(&tabs)),
        vec![(0, "c".to_string()), (1, "x".to_string()), (3, "a".to_string()), (3, "b".to_string())]
    );
}

#[test]
fn a_received_group_is_shown_with_its_tabs_in_layout_order() {
    let mut s = shell();
    s.home_page_open = true;
    s.commit_received_group(incoming_transfer());
    assert!(!s.home_page_open);
    assert_eq!(s.workspace.tab_groups().len(), 3);
    assert_eq!(s.workspace.active_group_id(), Some("g3"));
    assert_eq!(s.workspace.next_tab_group_ordinal(), 8);
    assert_eq!(tab_list(&s), vec!["a", "b", "c", "d", "e"]);
    assert_eq!(s.workspace.active_tab_id(), Some("e"));
    assert_eq!(s.workspace.focused_pane_path(), &[1]);
    assert_eq!(s.sftp_handle_ids, vec!["b".to_string(), "d".to_string()]);
    assert_eq!(s.system_tab_id.as_deref(), Some("d"));
}

#[test]
fn a_docked_transfer_joins_the_shown_group() {
    let mut s = shell();
    let merged = PaneLayout::Vertical(
        vec![leaf("a"), PaneLayout::Horizontal(vec![leaf("b"), leaf("d")], half())],
        half(),
    );
    let mut t = incoming_transfer();
    t.tabs = vec![(0, tab("d", TabKind::Ssh))];
    t.group = group("g3", leaf("d"));
    t.active_tab = Some("d".to_string());
    s.commit_received_docked(t, merged);
    assert_eq!(s.workspace.tab_groups().len(), 2);
    assert_eq!(s.workspace.active_group_id(), Some("g1"));
    assert_eq!(s.workspace.pane_root().tab_ids(), vec!["a", "b", "d"]);
    assert_eq!(tab_list(&s), vec!["a", "b", "c", "d"]);
    assert_eq!(s.workspace.active_tab_id(), Some("d"));
    assert_eq!(s.workspace.focused_pane_path(), &[1, 1]);
}

#[test]
fn a_group_whose_move_failed_comes_back_where_it_was() {
    let mut s = shell();
    let transfer = s.take_group_transfer("g1").expect("g1 can move");
    assert_eq!(s.workspace.active_group_id(), Some("g2"));
    s.restore_group_transfer(transfer);
    let groups: Vec<&str> = s.workspace.tab_groups().iter().map(|g| g.id.as_str()).collect();
    assert_eq!(groups, vec!["g1", "g2"]);
    assert_eq!(tab_list(&s), vec!["a", "b", "c"]);
    assert_eq!(s.workspace.active_group_id(), Some("g1"));
    assert_eq!(s.workspace.active_tab_id(), Some("a"));
    assert_eq!(s.sftp_handle_ids, vec!["b".to_string()]);
}

#[test]
fn reordering_groups_activates_the_first_moved_one() {
    let mut s = shell();
    assert_eq!(s.reorder_tab_groups(&[], 0), None);
    assert_eq!(s.reorder_tab_groups(&["zz".to_string()], 0), None);
    assert_eq!(s.reorder_tab_groups(&["g2".to_string()], 0), Some(0));
    let groups: Vec<&str> = s.workspace.tab_groups().iter().map(|g| g.id.as_str()).collect();
    assert_eq!(groups, vec!["g2", "g1"]);
    assert_eq!(s.workspace.active_group_id(), Some("g2"));
    assert_eq!(s.workspace.active_tab_id(), Some("c"));
}

#[test]
fn the_system_information_tab_opens_once_per_ssh_tab() {
    let mut s = shell();
    s.home_page_open = true;
    // The active tab is a local one and nothing is monitored.
    assert!(!s.open_system_info_tab("System information"));
    assert!(s.workspace.system_info_tabs().is_empty());
    assert!(s.home_page_open);

    s.workspace.set_active_tab(Some("b".to_string()));
    assert!(s.open_system_info_tab("System information"));
    assert!(!s.home_page_open);
    assert_eq!(s.system_tab_id.as_deref(), Some("b"));
    assert_eq!(s.workspace.system_info_tabs().len(), 1);
    let info = s.workspace.system_info_tabs()[0].clone();
    assert_eq!(info.source_tab_id, "b");
    assert_eq!(info.title, "b \u{b7} System information");
    assert_eq!(info.id.len(), 36);
    assert_eq!(s.workspace.active_system_info_tab_id(), Some(info.id.as_str()));

    // Opening it again reuses the tab.
    s.workspace.clear_active_system_info_tab();
    assert!(s.open_system_info_tab("System information"));
    assert_eq!(s.workspace.system_info_tabs().len(), 1);
    assert_eq!(s.workspace.active_system_info_tab_id(), Some(info.id.as_str()));

    s.close_system_info_tab(&info.id);
    assert!(s.workspace.system_info_tabs().is_empty());
    assert!(s.workspace.active_system_info_tab_id().is_none());
}

#[test]
fn closing_a_tab_names_the_sftp_group_and_routes_it_ends() {
    let mut s = shell();
    assert_eq!(s.closing_sftp_group("c"), None);
    assert_eq!(s.closing_sftp_group("a"), None);
    s.sftp_handle_ids.push("g2".to_string());
    assert_eq!(s.closing_sftp_group("c"), Some("g2".to_string()));
    assert_eq!(s.close_route_ids("a"), vec!["a".to_string()]);
    assert_eq!(s.close_route_ids("c"), vec!["c".to_string(), "g2".to_string()]);
    assert_eq!(s.close_route_ids("zz"), vec!["zz".to_string()]);
}

#[test]
fn closing_tabs_until_none_is_left_returns_to_the_home_page() {
    let mut s = shell();
    s.search_active = true;
    s.search_target_tab = Some("a".to_string());
    s.search_query = "err".to_string();
    s.search_matches = vec![(1, 2)];
    s.search_current = 1;
    s.workspace.push_system_info_tab(SystemInfoTab {
        id: "info-a".into(),
        source_tab_id: "a".into(),
        title: "A".into(),
    });
    s.workspace.set_active_system_info_tab(Some("info-a".to_string()));

    let outcome = s.handle_tab_close("a".to_string());
    assert!(matches!(&outcome, TabCloseOutcome::Closed(p) if p.closed_tab_ids == vec!["a".to_string()]));
    assert!(s.search_target_tab.is_none());
    assert!(s.search_query.is_empty() && s.search_matches.is_empty());
    assert_eq!(s.search_current, 0);
    assert!(s.workspace.system_info_tabs().is_empty());
    assert!(s.workspace.active_system_info_tab_id().is_none());
    assert_eq!(s.workspace.active_tab_id(), Some("b"));
    assert_eq!(s.system_tab_id.as_deref(), Some("b"));

    // A terminal that no group shows is simply dropped.
    s.workspace.push_tab(tab("x", TabKind::Local));
    let outcome = s.handle_tab_close("x".to_string());
    assert!(matches!(outcome, TabCloseOutcome::Ungrouped { removed: true, now_empty: false }));
    assert_eq!(tab_list(&s), vec!["b", "c"]);

    let outcome = s.handle_tab_close("b".to_string());
    assert!(matches!(&outcome, TabCloseOutcome::Closed(p) if p.sftp_closed == false));
    assert_eq!(s.workspace.active_group_id(), Some("g2"));
    let outcome = s.handle_tab_close("c".to_string());
    assert!(matches!(outcome, TabCloseOutcome::Emptied(_)));
    assert!(s.home_page_open);
    assert_eq!(s.workspace.tab_count(), 0);
    assert!(s.workspace.tab_groups().is_empty());
    assert!(s.system_tab_id.is_none());
    assert!(s.sftp_handle_ids.is_empty());
}

#[test]
fn splitting_a_pane_opens_the_new_terminal_beside_it() {
    let mut s = shell();
    assert!(s.focus_pane_with_id("a".to_string()));
    let path = s.workspace.focused_pane_path().to_vec();
    assert_eq!(path, vec![0]);
    s.split_pane_layout(&path, "a".to_string(), tab("d", TabKind::Ssh), PaneDirection::Down, true);
    assert_eq!(s.workspace.pane_root().tab_ids(), vec!["a", "d", "b"]);
    assert!(matches!(
        s.workspace.pane_root(),
        PaneLayout::Vertical(children, _)
            if matches!(&children[0], PaneLayout::Horizontal(inner, r) if inner.len() == 2 && *r == half())
    ));
    assert_eq!(s.workspace.focused_pane_path(), &[0, 1]);
    assert_eq!(s.workspace.active_tab_id(), Some("d"));
    assert_eq!(tab_list(&s), vec!["a", "b", "c", "d"]);
    assert_eq!(s.sftp_handle_ids, vec!["b".to_string(), "d".to_string()]);

    s.split_pane_layout(&[1], "b".to_string(), tab("e", TabKind::Local), PaneDirection::Left, false);
    assert_eq!(s.workspace.pane_root().tab_ids(), vec!["a", "d", "e", "b"]);
    assert_eq!(s.workspace.focused_pane_path(), &[1, 0]);

    // A path that leads nowhere leaves the layout as it is.
    s.split_pane_layout(&[7], "b".to_string(), tab("f", TabKind::Local), PaneDirection::Right, false);
    assert_eq!(s.workspace.pane_root().tab_ids(), vec!["a", "d", "e", "b"]);
    assert_eq!(s.workspace.active_tab_id(), Some("f"));
}

#[test]
fn replacing_a_node_of_a_layout() {
    let mut layout = PaneLayout::Vertical(vec![leaf("a"), leaf("b")], half());
    assert!(layout.replace_at(&[1], PaneLayout::Horizontal(vec![leaf("b"), leaf("c")], half())));
    assert_eq!(layout.tab_ids(), vec!["a", "b", "c"]);
    assert!(!layout.replace_at(&[0, 0], leaf("z")));
    assert!(!layout.replace_at(&[2], leaf("z")));
    assert_eq!(layout.tab_ids(), vec!["a", "b", "c"]);
    assert!(layout.replace_at(&[], leaf("z")));
    assert_eq!(layout.tab_ids(), vec!["z"]);
}

#[test]
fn a_planned_receipt_is_committed_as_planned() {
    let mut s = shell();
    let mut t = incoming_transfer();
    t.sftp_handle_ids = vec!["d".to_string()];
    let transfers = vec![t];
    let plan = s.plan_group_receipt(&transfers, DockZone::Center).expect("no conflict");
    assert!(matches!(plan, ReceiptPlan::Groups));
    s.commit_group_receipt(transfers, plan);
    assert_eq!(s.workspace.tab_groups().len(), 3);
    assert_eq!(s.workspace.active_group_id(), Some("g3"));

    let mut s = shell();
    let mut t = incoming_transfer();
    t.group = group("g3", leaf("d"));
    t.tabs = vec![(0, tab("d", TabKind::Ssh))];
    t.active_tab = Some("d".to_string());
    t.sftp_handle_ids = vec![];
    let transfers = vec![t];
    let plan = s.plan_group_receipt(&transfers, DockZone::Right).expect("no conflict");
    assert!(matches!(plan, ReceiptPlan::Docked(_)));
    s.commit_group_receipt(transfers, plan);
    assert_eq!(s.workspace.tab_groups().len(), 2);
    assert_eq!(s.workspace.pane_root().tab_ids(), vec!["a", "b", "d"]);
    assert_eq!(s.workspace.active_tab_id(), Some("d"));

    // A conflicting batch is refused before anything changes.
    let s = shell();
    let mut t = incoming_transfer();
    t.tabs = vec![(0, tab("a", TabKind::Local))];
    assert!(s.plan_group_receipt(&[t], DockZone::Center).is_err());
}

fn other_window() -> TinyShell {
    let mut t = shell();
    t.workspace = TerminalWorkspaceState::new();
    t.workspace.push_tab(tab("x", TabKind::Local));
    t.workspace.push_tab(tab("y", TabKind::Ssh));
    t.workspace.push_group(group("h1", PaneLayout::Vertical(vec![leaf("x"), leaf("y")], half())));
    t.workspace.set_active_group(Some("h1".to_string()));
    t.workspace.set_active_tab(Some("x".to_string()));
    t.sftp_handle_ids = vec![];
    t
}

fn group_ids(s: &TinyShell) -> Vec<String> {
    s.workspace.tab_groups().iter().map(|g| g.id.clone()).collect()
}

#[test]
fn moving_a_group_to_another_window_as_a_group_of_its_own() {
    let mut source = shell();
    let mut target = other_window();
    source.search_target_tab = Some("c".to_string());
    source.search_query = "x".to_string();
    let prepared = prepare_group_move(&mut source, &target, "g2", DockZone::Center).expect("accepted");
    assert!(prepared.docking.is_none());
    assert!(prepared.moved_search_target);
    assert_eq!(group_ids(&source), vec!["g1"]);
    finish_group_move(&mut source, &mut target, prepared);
    assert_eq!(group_ids(&target), vec!["h1", "g2"]);
    assert_eq!(target.workspace.active_group_id(), Some("g2"));
    assert_eq!(target.workspace.active_tab_id(), Some("c"));
    assert!(source.search_target_tab.is_none() && source.search_query.is_empty());
}

#[test]
fn moving_a_group_onto_a_split_zone_docks_it() {
    let mut source = shell();
    let mut target = other_window();
    let prepared = prepare_group_move(&mut source, &target, "g2", DockZone::Right).expect("accepted");
    assert!(prepared.docking.is_some());
    assert!(!prepared.moved_search_target);
    finish_group_move(&mut source, &mut target, prepared);
    assert_eq!(group_ids(&target), vec!["h1"]);
    assert_eq!(target.workspace.pane_root().tab_ids(), vec!["x", "y", "c"]);
    // The moved group had no active tab of its own, so the target's stays.
    assert_eq!(target.workspace.active_tab_id(), Some("x"));
    assert_eq!(tab_list(&target), vec!["x", "y", "c"]);
}

#[test]
fn a_refused_move_puts_the_group_back() {
    let mut source = shell();
    let mut target = other_window();
    target.workspace.push_tab(tab("c", TabKind::Ssh));
    let refused = prepare_group_move(&mut source, &target, "g2", DockZone::Left);
    assert_eq!(refused.unwrap_err(), "target already contains one of the transferred terminals");
    assert_eq!(group_ids(&source), vec!["g1", "g2"]);
    assert_eq!(tab_list(&source), vec!["a", "b", "c"]);

    let refused = prepare_group_move(&mut source, &target, "g2", DockZone::Center);
    assert!(refused.is_err());
    assert_eq!(group_ids(&source), vec!["g1", "g2"]);

    assert!(prepare_group_move(&mut source, &target, "nope", DockZone::Center).is_err());

    let target = other_window();
    let prepared = prepare_group_move(&mut source, &target, "g1", DockZone::Center).expect("accepted");
    assert_eq!(group_ids(&source), vec!["g2"]);
    abandon_group_move(&mut source, prepared);
    assert_eq!(group_ids(&source), vec!["g1", "g2"]);
    assert_eq!(source.workspace.active_group_id(), Some("g1"));
}

fn shape(l: &PaneLayout) -> String {
    format!("{:?}", l)
}

#[test]
fn split_plan_follows_the_kind_of_the_tab() {
    let mut s = shell();
    assert_eq!(s.split_plan("a"), SplitPlan::Local);
    assert_eq!(s.split_plan("b"), SplitPlan::Ssh { session_id: "s-b".to_string() });
    assert_eq!(s.split_plan("zz"), SplitPlan::Ignore);
    s.workspace.push_tab(TerminalTab {
        id: "r".to_string(),
        title: "r".to_string(),
        kind: TabKind::Rdp,
        session_id: None,
    });
    assert_eq!(s.split_plan("r"), SplitPlan::RdpRefused);
    s.workspace.push_tab(TerminalTab {
        id: "lost".to_string(),
        title: "lost".to_string(),
        kind: TabKind::Ssh,
        session_id: None,
    });
    assert_eq!(s.split_plan("lost"), SplitPlan::NoSession);
}

#[test]
fn copies_and_replacements_keep_the_shape_of_a_layout() {
    let third = 0.25f32.to_bits();
    let layout = PaneLayout::Horizontal(
        vec![leaf("a"), PaneLayout::Vertical(vec![leaf("b"), leaf("c")], third)],
        third,
    );
    assert_eq!(shape(&layout.duplicate()), shape(&layout));

    let mut replaced = layout.duplicate();
    assert!(replaced.replace_at(&[1, 0], PaneLayout::Horizontal(vec![leaf("b"), leaf("d")], half())));
    let expected = PaneLayout::Horizontal(
        vec![
            leaf("a"),
            PaneLayout::Vertical(
                vec![PaneLayout::Horizontal(vec![leaf("b"), leaf("d")], half()), leaf("c")],
                third,
            ),
        ],
        third,
    );
    assert_eq!(shape(&replaced), shape(&expected));
}

#[test]
fn removing_a_pane_collapses_only_its_split() {
    let third = 0.25f32.to_bits();
    let mut layout = PaneLayout::Horizontal(
        vec![leaf("a"), PaneLayout::Vertical(vec![leaf("b"), leaf("c")], third), leaf("d")],
        third,
    );
    assert!(layout.remove_tab("b"));
    let expected = PaneLayout::Horizontal(vec![leaf("a"), leaf("c"), leaf("d")], third);
    assert_eq!(shape(&layout), shape(&expected));
}

#[test]
fn docking_right_and_down_give_different_splits() {
    let base = PaneLayout::Vertical(vec![leaf("a"), leaf("b"), leaf("c")], half());
    let mut right = base.duplicate();
    assert!(dock_tab_layout(&mut right, "a", "c", DockZone::Right));
    let mut down = base.duplicate();
    assert!(dock_tab_layout(&mut down, "a", "c", DockZone::Down));
    assert_eq!(right.tab_ids(), down.tab_ids());
    assert_eq!(
        shape(&right),
        shape(&PaneLayout::Vertical(
            vec![leaf("b"), PaneLayout::Vertical(vec![leaf("c"), leaf("a")], half())],
            half(),
        ))
    );
    assert_eq!(
        shape(&down),
        shape(&PaneLayout::Vertical(
            vec![leaf("b"), PaneLayout::Horizontal(vec![leaf("c"), leaf("a")], half())],
            half(),
        ))
    );
}

#[test]
fn a_failed_move_gives_back_the_system_information_tabs() {
    let mut s = shell();
    let info = |id: &str, source: &str| SystemInfoTab {
        id: id.to_string(),
        source_tab_id: source.to_string(),
        title: id.to_string(),
    };
    s.workspace.push_system_info_tab(info("i-b", "b"));
    s.workspace.push_system_info_tab(info("i-c", "c"));
    let transfer = s.take_group_transfer("g1").expect("g1 can move");
    let left: Vec<&str> = s.workspace.system_info_tabs().iter().map(|i| i.id.as_str()).collect();
    assert_eq!(left, vec!["i-c"]);
    s.restore_group_transfer(transfer);
    let back: Vec<&str> = s.workspace.system_info_tabs().iter().map(|i| i.id.as_str()).collect();
    assert_eq!(back, vec!["i-c", "i-b"]);
}
