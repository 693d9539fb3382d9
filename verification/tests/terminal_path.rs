use tinyshell::terminal_path::{looks_like_terminal_path, parse_path_from_title};

#[test]
fn parses_absolute_terminal_path() {
    assert_eq!(
        parse_path_from_title("user@host:/srv/app", "/home/user"),
        Some("/srv/app".to_string())
    );
}

#[test]
fn expands_home_terminal_path() {
    assert_eq!(
        parse_path_from_title("TINY_SHELL_CWD:~/projects", "/home/user"),
        Some("/home/user/projects".to_string())
    );
}

#[test]
fn parses_path_after_decorated_title_prefix() {
    assert_eq!(
        parse_path_from_title("ssh: user@host:/srv/app", "/home/user"),
        Some("/srv/app".to_string())
    );
}

#[test]
fn strips_common_title_suffixes() {
    assert_eq!(
        parse_path_from_title("user@host:/srv/app — zsh", "/home/user"),
        Some("/srv/app".to_string())
    );
    assert_eq!(
        parse_path_from_title("~/projects | main", "/home/user"),
        Some("/home/user/projects".to_string())
    );
}

#[test]
fn accepts_legacy_explicit_cwd_marker() {
    assert_eq!(
        parse_path_from_title("ASHELL_CWD:~/legacy", "/home/user"),
        Some("/home/user/legacy".to_string())
    );
}

#[test]
fn rejects_titles_without_a_remote_path() {
    assert_eq!(parse_path_from_title("user@host", "/home/user"), None);
}

#[test]
fn bare_tilde_expands_to_home_and_trailing_slashes_are_dropped() {
    assert_eq!(
        parse_path_from_title("  ~  ", "/home/user/"),
        Some("/home/user/".to_string())
    );
    assert_eq!(
        parse_path_from_title("host:~/a", "/home/user///"),
        Some("/home/user/a".to_string())
    );
}

#[test]
fn last_marker_wins_and_whitespace_is_trimmed() {
    assert_eq!(
        parse_path_from_title("TINY_SHELL_CWD:/a TINY_SHELL_CWD: /b ", "/h"),
        Some("/b".to_string())
    );
    assert_eq!(parse_path_from_title("TINY_SHELL_CWD:relative", "/h"), None);
}

#[test]
fn rightmost_path_colon_is_used() {
    assert_eq!(
        parse_path_from_title("a:/x:/y", "/h"),
        Some("/y".to_string())
    );
    assert_eq!(
        parse_path_from_title("a:/x: not a path", "/h"),
        Some("/x: not a path".to_string())
    );
}

#[test]
fn terminal_path_shapes() {
    assert!(looks_like_terminal_path("/"));
    assert!(looks_like_terminal_path("~"));
    assert!(looks_like_terminal_path("~/x"));
    assert!(!looks_like_terminal_path("~x"));
    assert!(!looks_like_terminal_path(""));
    assert!(!looks_like_terminal_path("x/"));
}
