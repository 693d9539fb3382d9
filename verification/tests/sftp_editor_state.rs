use tinyshell::sftp_editor_state::{
    editor_key_command, EditorCommand, EditorStatus, SftpEditor, TabCloseOutcome,
    WindowCloseOutcome, MAX_TABS,
};

fn editor() -> SftpEditor {
    SftpEditor::new("session".into(), "/etc/hosts".into())
}

#[test]
fn opening_an_open_file_switches_to_it_and_the_window_holds_at_most_twenty() {
    let mut e = editor();
    assert_eq!(e.session_id(), "session");
    assert_eq!(e.open_file("/etc/fstab".into()), Some(1));
    assert_eq!(e.open_file("/etc/hosts".into()), Some(0));
    assert_eq!(e.active_index(), 0);
    for i in 2..MAX_TABS {
        assert_eq!(e.open_file(format!("/tmp/{i}")), Some(i));
    }
    assert_eq!(e.open_file("/tmp/one-more".into()), None);
    assert!(e.capacity_notice);
    assert_eq!(e.tab_count(), MAX_TABS);
    assert!(e.focus_path("/etc/fstab"));
    assert_eq!(e.active_index(), 1);
    assert!(!e.focus_path("/nowhere"));
}

#[test]
fn saving_waits_for_the_upload_before_the_file_is_clean() {
    let mut e = editor();
    assert_eq!(e.status(), EditorStatus::Saved);
    e.mark_edited(0);
    assert_eq!(e.status(), EditorStatus::Unsaved);
    let upload = e.save_active("new text".into());
    assert_eq!(upload, Some(("/etc/hosts".to_string(), "new text".to_string())));
    assert_eq!(e.status(), EditorStatus::Saving);
    // A second save while uploading does nothing.
    assert_eq!(e.save_active("newer".into()), None);
    e.mark_uploaded("/etc/hosts", &["new text".to_string()]);
    assert_eq!(e.status(), EditorStatus::Saved);
    assert!(!e.has_dirty_tabs());
}

#[test]
fn edits_during_an_upload_and_failed_uploads_stay_unsaved() {
    let mut e = editor();
    e.mark_edited(0);
    e.save_active("v1".into());
    e.mark_uploaded("/etc/hosts", &["v2".to_string()]);
    assert_eq!(e.status(), EditorStatus::Unsaved);
    e.save_active("v2".into());
    e.mark_upload_failed("/etc/hosts");
    assert_eq!(e.status(), EditorStatus::Unsaved);
    assert!(e.tab(0).unwrap().text_at_save_start.is_none());
}

#[test]
fn closing_files_keeps_the_active_position_on_a_file() {
    let mut e = editor();
    e.open_file("/b".into());
    e.open_file("/c".into());
    assert_eq!(e.active_index(), 2);
    assert_eq!(e.do_close_tab(0), TabCloseOutcome::Closed);
    assert_eq!(e.active_index(), 1);
    assert_eq!(e.do_close_tab(5), TabCloseOutcome::Ignored);
    e.mark_edited(1);
    assert_eq!(e.request_close_tab(1), Err("c".to_string()));
    assert_eq!(e.tab_count(), 2);
    assert_eq!(e.request_close_tab(0), Ok(TabCloseOutcome::Closed));
    assert_eq!(e.active_index(), 0);
    assert!(!e.request_window_close());
    assert_eq!(e.close_all(), WindowCloseOutcome::ConfirmDiscard);
    assert_eq!(e.do_close_tab(0), TabCloseOutcome::WindowClosed);
    assert!(e.force_close());
    assert!(e.request_window_close());
}

#[test]
fn losing_the_connection_closes_or_asks_once() {
    let mut e = editor();
    e.mark_edited(0);
    e.save_active("x".into());
    assert_eq!(e.notify_connection_lost(), Some(WindowCloseOutcome::ConfirmDiscard));
    assert!(!e.connected());
    assert_eq!(e.status(), EditorStatus::ConnectionLost);
    assert!(!e.tab(0).unwrap().saving);
    assert_eq!(e.notify_connection_lost(), None);
    assert_eq!(e.save_active("y".into()), None);

    let mut clean = editor();
    assert_eq!(clean.notify_connection_lost(), Some(WindowCloseOutcome::Closed));
    assert!(clean.force_close());
    let mut other = editor();
    assert!(other.request_session_close());
}

#[test]
fn keyboard_commands_need_the_command_modifier_except_escape() {
    assert_eq!(editor_key_command("S", true), Some(EditorCommand::SaveActive));
    assert_eq!(editor_key_command("s", false), None);
    assert_eq!(editor_key_command("w", true), Some(EditorCommand::CloseActive));
    assert_eq!(editor_key_command("Escape", false), Some(EditorCommand::CloseAll));
    assert_eq!(editor_key_command("x", true), None);
}

#[test]
fn failed_upload_of_a_clean_file_leaves_it_clean() {
    let mut e = editor();
    assert_eq!(e.save_active("text".into()), Some(("/etc/hosts".to_string(), "text".to_string())));
    e.mark_upload_failed("/etc/hosts");
    assert_eq!(e.status(), EditorStatus::Saved);
    assert!(!e.has_dirty_tabs());
    assert!(e.tab(0).unwrap().text_at_save_start.is_none());
}
