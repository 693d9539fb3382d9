use tinyshell::tab_drag::{should_close_empty_source, DockZone, DropIntent, TabDragState};

fn point(x: f32, y: f32) -> (u32, u32) {
    (x.to_bits(), y.to_bits())
}

/// The caller's distance test: whether `position` lies farther than
/// `threshold` from where the press began.
fn beyond(state: &TabDragState, x: f32, y: f32, threshold: f32) -> bool {
    match state.start() {
        Some((sx, sy)) => {
            let dx = x - f32::from_bits(sx);
            let dy = y - f32::from_bits(sy);
            (dx * dx + dy * dy).sqrt() > threshold
        }
        None => false,
    }
}

fn promote(state: &mut TabDragState, x: f32, y: f32, threshold: f32) -> bool {
    let b = beyond(state, x, y, threshold);
    state.promote_if_needed(b)
}

#[test]
fn drag_starts_only_after_threshold() {
    let mut state = TabDragState::default();
    state.begin("group-a".into(), point(10., 10.));
    assert!(!promote(&mut state, 13., 14., 5.0));
    assert!(promote(&mut state, 16., 10., 5.0));
    assert!(state.is_dragging());
}

#[test]
fn additive_selection_is_preserved_in_visual_order() {
    let mut state = TabDragState::default();
    state.begin_with_selection("group-b".into(), point(0., 0.), false);
    state.begin_with_selection("group-a".into(), point(0., 0.), true);
    assert_eq!(
        state.ordered_drag_groups(
            "group-a",
            ["group-a", "group-b", "group-c"].map(str::to_string).to_vec(),
        ),
        vec!["group-a".to_string(), "group-b".to_string()]
    );
}

#[test]
fn cancelling_drag_keeps_multi_selection() {
    let mut state = TabDragState::default();
    state.begin_with_selection("a".into(), point(0., 0.), false);
    state.begin_with_selection("b".into(), point(0., 0.), true);
    state.cancel();
    assert_eq!(state.selected_count(), 2);
}

#[test]
fn invalid_release_cancels_without_detaching() {
    let mut state = TabDragState::default();
    state.begin("group-a".into(), point(0., 0.));
    promote(&mut state, 10., 0., 5.0);
    assert!(matches!(state.finish(), DropIntent::Cancelled));
}

#[test]
fn tab_bar_release_reorders_group() {
    let mut state = TabDragState::default();
    state.begin("group-c".into(), point(0., 0.));
    promote(&mut state, 10., 0., 5.0);
    state.set_reorder_index(Some(0));
    state.set_outside(true);
    assert!(matches!(
        state.finish(),
        DropIntent::Reorder { group_id, index: 0 } if group_id == "group-c"
    ));
}

#[test]
fn completed_drag_cannot_commit_twice() {
    let mut state = TabDragState::default();
    state.begin("group-a".into(), point(0., 0.));
    promote(&mut state, 10., 0., 5.0);
    state.set_outside(true);
    assert!(matches!(state.finish(), DropIntent::Detach { .. }));
    assert!(matches!(state.finish(), DropIntent::Nothing));
}

#[test]
fn cancelling_reorder_keeps_finish_inert() {
    let mut state = TabDragState::default();
    state.begin("group-b".into(), point(0., 0.));
    promote(&mut state, 10., 0., 5.0);
    state.set_reorder_index(Some(0));
    state.cancel();
    assert!(matches!(state.finish(), DropIntent::Nothing));
}

#[test]
fn empty_source_closes_only_after_successful_cross_window_merge() {
    assert!(should_close_empty_source(true, true, 1, 2));
    assert!(!should_close_empty_source(false, true, 1, 2));
    assert!(!should_close_empty_source(true, false, 1, 2));
    assert!(!should_close_empty_source(true, true, 1, 1));
}

#[test]
fn detach_hint_state_commits_detach_on_release() {
    let mut state = TabDragState::default();
    state.begin("group-a".into(), point(0., 0.));
    promote(&mut state, 10., 0., 5.0);
    state.set_outside(true);
    assert!(matches!(
        state.finish(),
        DropIntent::Detach { group_id } if group_id == "group-a"
    ));
}

#[test]
fn pending_press_is_not_a_drag_and_selection_toggles() {
    let mut state = TabDragState::default();
    assert!(!state.promote_if_needed(true));
    state.begin("g".into(), point(1., 2.));
    assert!(state.is_pending());
    assert!(!state.is_dragging());
    assert_eq!(state.start(), Some(point(1., 2.)));
    assert!(state.is_selected("g"));
    assert!(!state.is_selected("h"));
    assert!(matches!(state.finish(), DropIntent::Nothing));
    assert!(!state.set_outside(false));
    assert!(state.set_reorder_index(Some(3)));
    assert!(!state.set_reorder_index(Some(3)));
    assert_eq!(state.reorder_index(), Some(3));
    assert!(DockZone::Left.is_split());
    assert!(!DockZone::Center.is_split());
    assert_eq!(state.ordered_drag_groups("x", vec!["y".to_string()]), vec!["x".to_string()]);
}
