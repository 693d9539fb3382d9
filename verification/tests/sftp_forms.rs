use tinyshell::sftp_forms::{parse_permission_mode, permission_mode_text, sftp_entry_name, PermissionsForm};

#[test]
fn entry_names_are_trimmed_and_may_not_hold_separators() {
    assert_eq!(sftp_entry_name("  notes.txt "), Some("notes.txt".to_string()));
    assert_eq!(sftp_entry_name("   "), None);
    assert_eq!(sftp_entry_name("a/b"), None);
    assert_eq!(sftp_entry_name("a\\b"), None);
}

#[test]
fn permission_modes_are_three_or_four_octal_digits() {
    assert_eq!(parse_permission_mode("755"), Some(0o755));
    assert_eq!(parse_permission_mode(" 0644 "), Some(0o644));
    assert_eq!(parse_permission_mode("4755"), Some(0o4755));
    assert_eq!(parse_permission_mode("+755"), Some(0o755));
    assert_eq!(parse_permission_mode("75"), None);
    assert_eq!(parse_permission_mode("07555"), None);
    assert_eq!(parse_permission_mode("789"), None);
    assert_eq!(parse_permission_mode("-755"), None);
    assert_eq!(parse_permission_mode("+++"), None);
    assert_eq!(permission_mode_text(0o755), "755");
    assert_eq!(permission_mode_text(0o7), "007");
    assert_eq!(permission_mode_text(0o104755), "4755");
    for mode in [0u32, 0o7, 0o644, 0o755, 0o1777, 0o7777] {
        assert_eq!(parse_permission_mode(&permission_mode_text(mode)), Some(mode));
    }
}

#[test]
fn the_permissions_form_keeps_field_and_mode_together() {
    let mut form = PermissionsForm::new(0o100644);
    assert_eq!(form.mode, 0o644);
    assert_eq!(form.text, "644");
    form.set_permission(0o100, true);
    assert_eq!(form.mode, 0o744);
    assert_eq!(form.text, "744");
    form.set_permission(0o004, false);
    assert_eq!(form.text, "740");
    form.input_changed("75".to_string());
    assert_eq!(form.mode, 0o740);
    assert_eq!(form.mode_to_apply(), None);
    form.input_changed("0600".to_string());
    assert_eq!(form.mode, 0o600);
    assert_eq!(form.mode_to_apply(), Some(0o600));
}
