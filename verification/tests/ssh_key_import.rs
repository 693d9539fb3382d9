use tinyshell::ssh_key_import::{KeyImportState, KeyImportValidation};

#[test]
fn only_valid_import_can_be_confirmed() {
    assert!(!KeyImportValidation::WaitingForFile.can_confirm());
    assert!(!KeyImportValidation::Validating.can_confirm());
    assert!(!KeyImportValidation::Duplicate.can_confirm());
    assert!(!KeyImportValidation::Invalid("invalid key".into()).can_confirm());
    assert!(KeyImportValidation::Valid {
        key_type: "ed25519".into(),
        fingerprint: "SHA256:test".into(),
    }
    .can_confirm());
}

#[test]
fn closing_import_clears_transient_key_material() {
    let mut state = KeyImportState {
        open: true,
        path: "id_ed25519".into(),
        content: "private key".into(),
        validation: KeyImportValidation::Invalid("invalid key".into()),
    };

    state.close();

    assert!(!state.open);
    assert!(state.path.is_empty());
    assert!(state.content.is_empty());
    assert_eq!(state.validation, KeyImportValidation::WaitingForFile);
}

#[test]
fn revalidation_reports_duplicates_errors_and_valid_keys() {
    let managed = vec!["SHA256:known".to_string()];
    let mut state = KeyImportState::default();
    state.open();
    assert!(state.open);
    state.begin_file_validation("id_rsa".into());
    assert_eq!(state.validation, KeyImportValidation::Validating);
    // While the file is read, a second check changes nothing.
    state.revalidate(Ok(("rsa".into(), "SHA256:new".into())), &managed);
    assert_eq!(state.validation, KeyImportValidation::Validating);

    // Taking the file's text during that read keeps waiting for it too.
    state.set_file(
        "id_rsa".into(),
        "key".into(),
        Ok(("rsa".into(), "SHA256:known".into())),
        &managed,
    );
    assert_eq!(state.content, "key");
    assert_eq!(state.validation, KeyImportValidation::Validating);

    state.validation = KeyImportValidation::WaitingForFile;
    state.set_file(
        "id_rsa".into(),
        "key".into(),
        Ok(("rsa".into(), "SHA256:known".into())),
        &managed,
    );
    assert_eq!(state.validation, KeyImportValidation::Duplicate);

    state.revalidate(Ok(("ed25519".into(), "SHA256:new".into())), &managed);
    assert_eq!(
        state.validation,
        KeyImportValidation::Valid {
            key_type: "ed25519".into(),
            fingerprint: "SHA256:new".into(),
        }
    );

    state.revalidate(Err("bad passphrase".into()), &managed);
    assert_eq!(state.validation, KeyImportValidation::Invalid("bad passphrase".into()));

    state.set_read_error("id_dsa".into(), "unreadable".into());
    assert_eq!(state.path, "id_dsa");
    assert!(state.content.is_empty());
    assert_eq!(state.validation, KeyImportValidation::Invalid("unreadable".into()));

    state.path.clear();
    state.revalidate(Ok(("rsa".into(), "SHA256:new".into())), &managed);
    assert_eq!(state.validation, KeyImportValidation::WaitingForFile);
}
