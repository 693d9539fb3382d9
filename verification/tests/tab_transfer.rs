use tinyshell::pane_layout::PaneLayout;
use tinyshell::tab_drag::DockZone;
use tinyshell::tab_transfer::{
    dock_tab_layout, effective_batch_drop_zone, merge_pane_layout, reorder_tab_groups,
    validate_transfer_batch_for_target, validate_transfer_layout, validate_transfer_manifests,
    validate_transfer_target_manifest, TransferManifest, TransferTargetManifest,
};
use tinyshell::terminal_workspace::TabGroup;

fn half() -> u32 {
    0.5f32.to_bits()
}

fn leaf(id: &str) -> PaneLayout {
    PaneLayout::Single(id.to_string())
}

fn group(id: &str) -> TabGroup {
    TabGroup {
        id: id.to_string(),
        drag_id: 0,
        ordinal: 0,
        title: id.to_string(),
        pane_root: leaf(id),
    }
}

fn manifest(group_id: &str, tab_ids: &[&str]) -> TransferManifest {
    TransferManifest {
        group_id: group_id.to_string(),
        layout_tab_ids: tab_ids.iter().map(|id| (*id).to_string()).collect(),
        tab_ids: tab_ids.iter().map(|id| (*id).to_string()).collect(),
        sftp_handle_ids: Vec::new(),
        route_ids: tab_ids.iter().map(|id| (*id).to_string()).collect(),
    }
}

fn names(ids: &[&str]) -> Vec<String> {
    ids.iter().map(|id| (*id).to_string()).collect()
}

#[test]
fn transfer_layout_requires_an_exact_unique_tab_set() {
    let layout = PaneLayout::Horizontal(vec![leaf("a"), leaf("b")], half());

    assert_eq!(validate_transfer_layout(&layout, &["a", "b"]), Ok(()));
    assert!(validate_transfer_layout(&layout, &["a"]).is_err());
    assert!(validate_transfer_layout(&layout, &["a", "b", "c"]).is_err());
    assert!(validate_transfer_layout(&layout, &["a", "a"]).is_err());
}

#[test]
fn transfer_layout_rejects_duplicate_and_empty_layouts() {
    let duplicate = PaneLayout::Vertical(vec![leaf("a"), leaf("a")], half());

    assert!(validate_transfer_layout(&duplicate, &["a"]).is_err());
    assert!(validate_transfer_layout(&PaneLayout::Empty, &[]).is_err());
}

#[test]
fn batch_validation_rejects_cross_group_identity_collisions() {
    let valid = [manifest("g1", &["a"]), manifest("g2", &["b"])];
    assert_eq!(validate_transfer_manifests(&valid), Ok(()));

    let duplicate_group = [manifest("g1", &["a"]), manifest("g1", &["b"])];
    assert_eq!(
        validate_transfer_manifests(&duplicate_group),
        Err("transfer batch contains duplicate groups")
    );

    let duplicate_tab = [manifest("g1", &["a"]), manifest("g2", &["a"])];
    assert_eq!(
        validate_transfer_manifests(&duplicate_tab),
        Err("transfer batch contains duplicate terminals")
    );
}

#[test]
fn batch_validation_checks_layout_handles_and_routes_before_window_creation() {
    let mut invalid_layout = manifest("g1", &["a"]);
    invalid_layout.layout_tab_ids.push("extra".to_string());
    assert_eq!(
        validate_transfer_manifests(&[invalid_layout]),
        Err("transfer payload does not match the group layout")
    );

    let mut first = manifest("g1", &["a"]);
    let mut second = manifest("g2", &["b"]);
    first.sftp_handle_ids.push("shared".to_string());
    second.sftp_handle_ids.push("shared".to_string());
    assert_eq!(
        validate_transfer_manifests(&[first, second]),
        Err("transfer batch contains duplicate SFTP handles")
    );

    let first = manifest("g1", &["a"]);
    let mut second = manifest("g2", &["b"]);
    second.route_ids.push("a".to_string());
    assert_eq!(
        validate_transfer_manifests(&[first, second]),
        Err("transfer batch contains duplicate backend routes")
    );
}

#[test]
fn target_validation_distinguishes_group_merge_from_pane_docking() {
    let transfer = manifest("group", &["incoming"]);
    let target = TransferTargetManifest {
        group_ids: names(&["group"]),
        tab_ids: Vec::new(),
        sftp_handle_ids: Vec::new(),
    };

    assert_eq!(
        validate_transfer_target_manifest(&transfer, &target, true),
        Err("target already contains this group")
    );
    assert_eq!(
        validate_transfer_target_manifest(&transfer, &target, false),
        Ok(())
    );
}

#[test]
fn target_validation_rejects_terminal_and_sftp_collisions() {
    let mut transfer = manifest("group", &["incoming"]);
    transfer.sftp_handle_ids.push("sftp".to_string());

    let terminal_collision = TransferTargetManifest {
        group_ids: Vec::new(),
        tab_ids: names(&["incoming"]),
        sftp_handle_ids: Vec::new(),
    };
    assert_eq!(
        validate_transfer_target_manifest(&transfer, &terminal_collision, true),
        Err("target already contains one of the transferred terminals")
    );

    let sftp_collision = TransferTargetManifest {
        group_ids: Vec::new(),
        tab_ids: Vec::new(),
        sftp_handle_ids: names(&["sftp"]),
    };
    assert_eq!(
        validate_transfer_target_manifest(&transfer, &sftp_collision, true),
        Err("target already contains one of the transferred SFTP handles")
    );
}

#[test]
fn batch_target_validation_rejects_every_conflict_before_commit() {
    let transfers = [manifest("first", &["a"]), manifest("second", &["b"])];
    let target = TransferTargetManifest {
        group_ids: names(&["second"]),
        tab_ids: Vec::new(),
        sftp_handle_ids: Vec::new(),
    };

    assert_eq!(
        validate_transfer_batch_for_target(&transfers, &target, true),
        Err("target already contains this group")
    );
    assert_eq!(
        validate_transfer_batch_for_target(&transfers, &target, false),
        Ok(())
    );
}

#[test]
fn multiple_groups_ignore_split_zones_to_preserve_group_state() {
    assert_eq!(effective_batch_drop_zone(1, DockZone::Left), DockZone::Left);
    assert_eq!(
        effective_batch_drop_zone(2, DockZone::Left),
        DockZone::Center
    );
    assert_eq!(
        effective_batch_drop_zone(3, DockZone::Down),
        DockZone::Center
    );
}

#[test]
fn merge_pane_layout_preserves_zone_order() {
    let left = merge_pane_layout(leaf("incoming"), leaf("existing"), DockZone::Left)
        .expect("left is a split zone");
    let down = merge_pane_layout(leaf("incoming"), leaf("existing"), DockZone::Down)
        .expect("down is a split zone");

    assert_eq!(left.tab_ids(), vec!["incoming", "existing"]);
    assert!(matches!(left, PaneLayout::Vertical(_, _)));
    assert_eq!(down.tab_ids(), vec!["existing", "incoming"]);
    assert!(matches!(down, PaneLayout::Horizontal(_, _)));
    assert!(merge_pane_layout(leaf("a"), leaf("b"), DockZone::Center).is_none());
}

#[test]
fn docking_moves_a_source_leaf_without_losing_nested_panes() {
    let mut layout = PaneLayout::Horizontal(
        vec![
            leaf("source"),
            PaneLayout::Vertical(vec![leaf("a"), leaf("target")], half()),
        ],
        half(),
    );

    assert!(dock_tab_layout(
        &mut layout,
        "source",
        "target",
        DockZone::Right
    ));
    assert_eq!(layout.tab_ids(), vec!["a", "target", "source"]);
}

#[test]
fn failed_docking_leaves_the_original_layout_unchanged() {
    let mut layout = PaneLayout::Horizontal(vec![leaf("source"), leaf("target")], half());
    let original_ids = layout.tab_ids();

    assert!(!dock_tab_layout(
        &mut layout,
        "source",
        "missing",
        DockZone::Left
    ));
    assert_eq!(layout.tab_ids(), original_ids);
    assert!(!dock_tab_layout(
        &mut layout,
        "source",
        "target",
        DockZone::Center
    ));
    assert_eq!(layout.tab_ids(), original_ids);
}

#[test]
fn reorder_keeps_selected_groups_in_workspace_order() {
    let groups = [group("a"), group("b"), group("c"), group("d")];
    let selected = vec!["d".to_string(), "b".to_string()];

    let reordered = reorder_tab_groups(&groups, &selected, 0).expect("groups are selected");
    let ids = reordered
        .groups
        .iter()
        .map(|group| group.id.as_str())
        .collect::<Vec<_>>();

    assert_eq!(ids, vec!["b", "d", "a", "c"]);
    assert_eq!(reordered.active_group_id, "b");
    assert_eq!(reordered.insert_at, 0);
}

#[test]
fn reorder_clamps_the_insertion_index_and_rejects_unknown_selection() {
    let groups = [group("a"), group("b"), group("c")];
    let reordered =
        reorder_tab_groups(&groups, &["b".to_string()], usize::MAX).expect("b exists");
    let ids = reordered
        .groups
        .iter()
        .map(|group| group.id.as_str())
        .collect::<Vec<_>>();

    assert_eq!(ids, vec!["a", "c", "b"]);
    assert_eq!(reordered.insert_at, 2);
    assert!(reorder_tab_groups(&groups, &["missing".to_string()], 0).is_none());
    assert!(reorder_tab_groups(&groups, &[], 0).is_none());
}

#[test]
fn docking_beside_a_pane_of_a_wider_split_keeps_its_siblings() {
    let mut layout = PaneLayout::Vertical(vec![leaf("s"), leaf("t"), leaf("u")], half());
    assert!(dock_tab_layout(&mut layout, "s", "u", DockZone::Up));
    assert_eq!(layout.tab_ids(), vec!["t", "s", "u"]);
    assert!(!dock_tab_layout(&mut layout, "missing", "t", DockZone::Left));
    assert_eq!(layout.tab_ids(), vec!["t", "s", "u"]);
}
