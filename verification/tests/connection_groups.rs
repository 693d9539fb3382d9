use tinyshell::connection_groups::{connection_group_parent, sibling_connection_groups};

#[test]
fn a_group_path_has_its_parent_before_the_last_slash() {
    assert_eq!(connection_group_parent("prod/eu/db"), Some("prod/eu".to_string()));
    assert_eq!(connection_group_parent("prod"), None);
    assert_eq!(connection_group_parent("/top"), Some(String::new()));
}

#[test]
fn a_group_is_dropped_among_its_siblings() {
    let groups: Vec<String> = ["prod", "prod/eu", "prod/us", "dev", "prod/eu/db", "dev/eu"]
        .iter()
        .map(|s| s.to_string())
        .collect();
    assert_eq!(
        sibling_connection_groups(&groups, "prod/eu"),
        vec!["prod/us".to_string()]
    );
    assert_eq!(
        sibling_connection_groups(&groups, "dev"),
        vec!["prod".to_string()]
    );
    assert!(sibling_connection_groups(&groups, "prod/eu/db").is_empty());
}
