use tinyshell::update_status::{present_status, UpdateStatus, UpdateStatusText};

#[test]
fn update_status_presentation_exposes_available_actions() {
    let unchecked = present_status(None);
    assert!(!unchecked.has_update);
    assert!(!unchecked.can_retry);
    assert!(!unchecked.can_restart);

    let failed = present_status(Some(&UpdateStatus::Error { message: "network".to_string() }));
    assert!(failed.progress.is_none());
    assert!(!failed.has_update);
    assert!(!failed.can_retry);
    assert!(!failed.can_restart);
}

#[test]
fn downloading_shows_progress_and_percentage() {
    let shown = present_status(Some(&UpdateStatus::Downloading { done: 30, total: 120 }));
    assert_eq!(shown.text, UpdateStatusText::Downloading { percent: 25 });
    assert_eq!(shown.text.translation_key(), "update_downloading");
    assert_eq!(shown.progress, Some((30, 120)));
    assert!(!shown.has_update && !shown.can_retry && !shown.can_restart);
}

#[test]
fn stopped_downloads_offer_the_update_again() {
    let failed = present_status(Some(&UpdateStatus::DownloadFailed { error: "disk full".to_string() }));
    assert_eq!(failed.text, UpdateStatusText::DownloadError { error: "disk full".to_string() });
    assert!(failed.has_update && failed.can_retry && !failed.can_restart);

    let cancelled = present_status(Some(&UpdateStatus::DownloadCancelled));
    assert_eq!(cancelled.text.translation_key(), "update_download_cancelled");
    assert!(cancelled.has_update && cancelled.can_retry);
}

#[test]
fn available_update_and_restart_are_offered() {
    let available = present_status(Some(&UpdateStatus::UpdateAvailable { version: "1.4.0".to_string() }));
    assert_eq!(available.text, UpdateStatusText::Available { version: "1.4.0".to_string() });
    assert!(available.has_update && !available.can_retry && !available.can_restart);

    let ready = present_status(Some(&UpdateStatus::ReadyToRestart));
    assert_eq!(ready.text.translation_key(), "update_install_complete");
    assert!(ready.can_restart && !ready.has_update);

    assert_eq!(present_status(Some(&UpdateStatus::Checking)).text.translation_key(), "checking_update");
    assert_eq!(present_status(Some(&UpdateStatus::UpToDate)).text.translation_key(), "update_latest");
    assert_eq!(present_status(None).text.translation_key(), "update_not_checked");
}
