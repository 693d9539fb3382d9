use tinyshell::editor_registry::{EditorRegistry, EditorWindowEntry};

fn entry(session: &str, owner: u64, window: u64) -> EditorWindowEntry {
    EditorWindowEntry { session_id: session.to_string(), owner_id: owner, window_id: window }
}

fn windows(entries: &[EditorWindowEntry]) -> Vec<u64> {
    entries.iter().map(|e| e.window_id).collect()
}

#[test]
fn editor_windows_are_found_by_session_and_owner() {
    let mut registry = EditorRegistry::new();
    registry.register(entry("s1", 1, 10));
    registry.register(entry("s1", 2, 11));
    registry.register(entry("s2", 1, 12));
    registry.register(entry("s1", 1, 13));
    assert_eq!(windows(&registry.entries_for("s1", 1)), vec![10, 13]);
    assert_eq!(windows(&registry.entries_for("s1", 2)), vec![11]);
    assert!(registry.entries_for("s3", 1).is_empty());
    assert_eq!(windows(&registry.entries_owned_by(1)), vec![10, 12, 13]);

    registry.deregister("s1", 10);
    assert_eq!(windows(&registry.entries_for("s1", 1)), vec![13]);
    registry.deregister("s2", 13);
    assert_eq!(windows(&registry.entries_for("s1", 1)), vec![13]);
    registry.deregister_window(13);
    assert!(registry.entries_for("s1", 1).is_empty());
    assert_eq!(windows(&registry.entries), vec![11, 12]);
}
