use tinyshell::launch_env::{is_imported_key, sync_macos_launch_environment};

#[test]
fn only_listed_and_locale_variables_are_taken_over() {
    let output = b"PATH=/opt/homebrew/bin:/usr/bin\0SECRET=x\0LC_TIME=de_DE.UTF-8\0HOME=/Users/a\0";
    let vars = sync_macos_launch_environment(output);
    assert_eq!(
        vars,
        vec![
            ("PATH".to_string(), "/opt/homebrew/bin:/usr/bin".to_string()),
            ("LC_TIME".to_string(), "de_DE.UTF-8".to_string()),
            ("HOME".to_string(), "/Users/a".to_string()),
        ]
    );
}

#[test]
fn malformed_entries_are_skipped() {
    let mut output = Vec::new();
    output.extend_from_slice(b"LANG\0\0http_proxy=http://p:8080\0SHELL=");
    output.extend_from_slice(&[0xff, 0xfe]);
    output.extend_from_slice(b"\0ALL_PROXY=a=b");
    let vars = sync_macos_launch_environment(&output);
    assert_eq!(
        vars,
        vec![
            ("http_proxy".to_string(), "http://p:8080".to_string()),
            ("ALL_PROXY".to_string(), "a=b".to_string()),
        ]
    );
    assert!(sync_macos_launch_environment(b"").is_empty());
}

#[test]
fn key_list_is_exact() {
    assert!(is_imported_key("HOMEBREW_PREFIX"));
    assert!(is_imported_key("LC_"));
    assert!(!is_imported_key("path"));
    assert!(!is_imported_key("LC"));
}
