use tinyshell::docker_panel::{
    DockerContainerFilter, DockerPanelError, DockerPanelState, DockerReply, DockerTarget,
    ReplyOutcome,
};
use tinyshell::tool_panel::{DockerAction, DockerOperation, DockerPage};

fn target(id: &str, connected: bool) -> DockerTarget {
    DockerTarget {
        tab_id: id.to_string(),
        generation: 3,
        connected,
        label: "prod".to_string(),
        detail: "10.0.0.8".to_string(),
    }
}

fn open_panel() -> DockerPanelState {
    let mut panel = DockerPanelState::new();
    panel.open = true;
    panel
}

#[test]
fn the_panel_follows_the_target_terminal() {
    let mut panel = DockerPanelState::new();
    assert!(!panel.sync_target(Some(target("t1", true))));
    assert!(panel.target_tab_id.is_none());

    let mut panel = open_panel();
    assert!(panel.sync_target(Some(target("t1", true))));
    assert_eq!(panel.target_tab_id.as_deref(), Some("t1"));
    assert!(!panel.sync_target(Some(target("t1", true))));
    assert!(!panel.sync_target(Some(target("t2", false))));
    assert_eq!(panel.target_tab_id.as_deref(), Some("t2"));
    assert!(!panel.sync_target(None));
    assert!(panel.target_tab_id.is_none() && panel.target_label.is_empty());
}

#[test]
fn one_request_at_a_time_and_only_matching_replies_count() {
    let mut panel = open_panel();
    assert_eq!(panel.prepare_request(), None);
    panel.sync_target(Some(target("t1", true)));
    let (tab, id) = panel.prepare_request().expect("target present");
    assert_eq!((tab.as_str(), id), ("t1", 1));
    panel.record_request(id, tab, panel.current_page_operation(), true);
    assert!(panel.pending.is_some());
    assert_eq!(panel.prepare_request(), None);

    assert_eq!(panel.handle_response("t1", 9, DockerReply::Containers), ReplyOutcome::Ignored);
    assert_eq!(panel.handle_response("t2", 1, DockerReply::Containers), ReplyOutcome::Ignored);
    assert_eq!(
        panel.handle_response("t1", 1, DockerReply::Containers),
        ReplyOutcome::Taken { refresh: false }
    );
    assert!(panel.pending.is_none());

    // The page changed while the list of containers was on its way.
    let (tab, id) = panel.prepare_request().unwrap();
    assert_eq!(id, 2);
    panel.record_request(id, tab, DockerOperation::ListContainers, true);
    assert!(panel.set_page(DockerPage::Images));
    assert_eq!(
        panel.handle_response("t1", 2, DockerReply::Containers),
        ReplyOutcome::Taken { refresh: true }
    );

    // A completed action goes back to the containers.
    let (tab, id) = panel.prepare_request().unwrap();
    panel.record_request(
        id,
        tab,
        DockerOperation::ContainerAction { action: DockerAction::Restart, container_id: "c1".to_string() },
        true,
    );
    assert_eq!(
        panel.handle_response("t1", id, DockerReply::ActionCompleted),
        ReplyOutcome::Taken { refresh: true }
    );
    assert_eq!(panel.page, DockerPage::Containers);

    let (tab, id) = panel.prepare_request().unwrap();
    panel.record_request(id, tab, DockerOperation::ListContainers, false);
    assert!(matches!(panel.error, Some(DockerPanelError::Unavailable)));
    assert!(panel.pending.is_none());
    let (tab, id) = panel.prepare_request().unwrap();
    panel.record_request(id, tab, DockerOperation::ListContainers, true);
    panel.handle_response("t1", id, DockerReply::Failed("permission denied".to_string()));
    assert!(matches!(&panel.error, Some(DockerPanelError::Failed(m)) if m == "permission denied"));
}

#[test]
fn request_numbers_skip_zero_and_the_panel_closes_clean() {
    let mut panel = open_panel();
    panel.next_request_id = u64::MAX;
    assert_eq!(panel.take_request_id(), u64::MAX);
    assert_eq!(panel.take_request_id(), 1);
    assert!(!panel.set_page(DockerPage::Containers));
    assert!(panel.set_container_filter(DockerContainerFilter::Running));
    assert!(!panel.set_container_filter(DockerContainerFilter::Running));
    panel.sync_target(Some(target("t1", true)));
    panel.close();
    assert!(!panel.open && panel.target_tab_id.is_none() && panel.pending.is_none());
}
