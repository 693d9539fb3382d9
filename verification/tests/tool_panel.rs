use tinyshell::tool_panel::{
    classify_docker_error, completed_page, docker_response_matches, following_request_id,
    tool_panel_layout, DockerAction, DockerErrorKind, DockerOperation, DockerPage,
    PendingDockerRequest, ToolPanelLayout, ToolPanelPresentation,
};

#[test]
fn stale_or_wrong_target_docker_responses_are_rejected() {
    let pending = PendingDockerRequest {
        id: 7,
        tab_id: "tab-a".into(),
        operation: DockerOperation::ListContainers,
    };
    assert!(docker_response_matches(
        Some(&pending),
        Some("tab-a"),
        "tab-a",
        7
    ));
    assert!(!docker_response_matches(
        Some(&pending),
        Some("tab-a"),
        "tab-a",
        8
    ));
    assert!(!docker_response_matches(
        Some(&pending),
        Some("tab-b"),
        "tab-a",
        7
    ));
    assert!(!docker_response_matches(None, Some("tab-a"), "tab-a", 7));
}

#[test]
fn panel_layout_selects_a_single_non_recursive_render_path() {
    assert_eq!(
        tool_panel_layout(false, ToolPanelPresentation::Extended),
        ToolPanelLayout::Closed
    );
    assert_eq!(
        tool_panel_layout(true, ToolPanelPresentation::Extended),
        ToolPanelLayout::Extended
    );
    assert_eq!(
        tool_panel_layout(true, ToolPanelPresentation::Overlay),
        ToolPanelLayout::Overlay
    );
    assert_eq!(ToolPanelPresentation::default(), ToolPanelPresentation::Overlay);
}

#[test]
fn responses_from_another_tab_or_without_target_are_rejected() {
    let pending = PendingDockerRequest {
        id: 3,
        tab_id: "tab-a".into(),
        operation: DockerOperation::ListImages,
    };
    assert!(!docker_response_matches(Some(&pending), Some("tab-b"), "tab-b", 3));
    assert!(!docker_response_matches(Some(&pending), None, "tab-a", 3));
}

#[test]
fn request_numbers_skip_zero_when_wrapping() {
    assert_eq!(following_request_id(1), 2);
    assert_eq!(following_request_id(u64::MAX), 1);
}

#[test]
fn completed_operations_refresh_their_page() {
    let action = DockerOperation::ContainerAction {
        action: DockerAction::Restart,
        container_id: "abc".into(),
    };
    assert_eq!(completed_page(&action), DockerPage::Containers);
    assert_eq!(completed_page(&DockerOperation::ListImages), DockerPage::Images);
    assert_eq!(completed_page(&DockerOperation::ListContainers), DockerPage::Containers);
}

#[test]
fn docker_errors_are_classified_case_insensitively() {
    assert_eq!(
        classify_docker_error("bash: docker: command NOT FOUND"),
        DockerErrorKind::CliNotFound
    );
    assert_eq!(
        classify_docker_error("Cannot connect to the Docker daemon at unix:///var/run/docker.sock"),
        DockerErrorKind::DaemonUnavailable
    );
    assert_eq!(
        classify_docker_error("Got permission denied while trying to connect"),
        DockerErrorKind::PermissionDenied
    );
    assert_eq!(classify_docker_error("exit status 125"), DockerErrorKind::Other);
}
