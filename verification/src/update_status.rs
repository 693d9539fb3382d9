//! What the settings page shows of the updater's state: the status line, the
//! download progress and the actions on offer.
use vstd::prelude::*;

use crate::settings::{download_percent, progress_percent};

verus! {

/// The updater's state, with what the settings page reads of it.
#[derive(Clone, Debug, PartialEq, Eq)]
pub enum UpdateStatus {
    Checking,
    UpToDate,
    UpdateAvailable { version: String },
    Downloading { done: u64, total: u64 },
    DownloadCancelled,
    DownloadFailed { error: String },
    ReadyToRestart,
    Error { message: String },
}

/// The status line, before translation.
#[derive(Clone, Debug, PartialEq, Eq)]
pub enum UpdateStatusText {
    NotChecked,
    Checking,
    Latest,
    Available { version: String },
    /// The download is under way; shown with its share done, in percent.
    Downloading { percent: u64 },
    DownloadCancelled,
    DownloadError { error: String },
    InstallComplete,
    Error { error: String },
}

/// What the settings page shows of the updater.
#[derive(Clone, Debug, PartialEq, Eq)]
pub struct UpdateStatusPresentation {
    pub text: UpdateStatusText,
    /// The bytes done and in all, while downloading.
    pub progress: Option<(u64, u64)>,
    /// Whether a newer version can be downloaded.
    pub has_update: bool,
    /// Whether a stopped download can be started again.
    pub can_retry: bool,
    /// Whether an installed update waits for a restart.
    pub can_restart: bool,
}

/// The status line for `status`: the version, the error and the share of
/// the download done are carried into it.
pub open spec fn status_text_of(status: Option<UpdateStatus>) -> UpdateStatusText {
    match status {
        None => UpdateStatusText::NotChecked,
        Some(UpdateStatus::Checking) => UpdateStatusText::Checking,
        Some(UpdateStatus::UpToDate) => UpdateStatusText::Latest,
        Some(UpdateStatus::UpdateAvailable { version }) => UpdateStatusText::Available { version },
        Some(UpdateStatus::Downloading { done, total }) => UpdateStatusText::Downloading {
            percent: download_percent(done, total) as u64,
        },
        Some(UpdateStatus::DownloadCancelled) => UpdateStatusText::DownloadCancelled,
        Some(UpdateStatus::DownloadFailed { error }) => UpdateStatusText::DownloadError { error },
        Some(UpdateStatus::ReadyToRestart) => UpdateStatusText::InstallComplete,
        Some(UpdateStatus::Error { message }) => UpdateStatusText::Error { error: message },
    }
}

/// What the settings page shows for `status`: progress only while
/// downloading; an update on offer once one is known and until it is
/// downloaded; a retry after a cancelled or failed download; a restart once
/// the update is installed.
pub open spec fn presentation_of(status: Option<UpdateStatus>) -> UpdateStatusPresentation {
    UpdateStatusPresentation {
        text: status_text_of(status),
        progress: match status {
            Some(UpdateStatus::Downloading { done, total }) => Some((done, total)),
            _ => None,
        },
        has_update: match status {
            Some(UpdateStatus::UpdateAvailable { .. }) => true,
            Some(UpdateStatus::DownloadCancelled) => true,
            Some(UpdateStatus::DownloadFailed { .. }) => true,
            _ => false,
        },
        can_retry: match status {
            Some(UpdateStatus::DownloadCancelled) => true,
            Some(UpdateStatus::DownloadFailed { .. }) => true,
            _ => false,
        },
        can_restart: status matches Some(UpdateStatus::ReadyToRestart),
    }
}

impl UpdateStatusText {
    /// The key of the line among the translations; the version or error is
    /// its argument, and a download's percentage follows it.
    pub fn translation_key(&self) -> (r: &'static str)
        ensures
            r@ == match *self {
                UpdateStatusText::NotChecked => "update_not_checked"@,
                UpdateStatusText::Checking => "checking_update"@,
                UpdateStatusText::Latest => "update_latest"@,
                UpdateStatusText::Available { .. } => "update_available"@,
                UpdateStatusText::Downloading { .. } => "update_downloading"@,
                UpdateStatusText::DownloadCancelled => "update_download_cancelled"@,
                UpdateStatusText::DownloadError { .. } => "update_download_error"@,
                UpdateStatusText::InstallComplete => "update_install_complete"@,
                UpdateStatusText::Error { .. } => "update_error"@,
            },
    {
        match self {
            UpdateStatusText::NotChecked => "update_not_checked",
            UpdateStatusText::Checking => "checking_update",
            UpdateStatusText::Latest => "update_latest",
            UpdateStatusText::Available { .. } => "update_available",
            UpdateStatusText::Downloading { .. } => "update_downloading",
            UpdateStatusText::DownloadCancelled => "update_download_cancelled",
            UpdateStatusText::DownloadError { .. } => "update_download_error",
            UpdateStatusText::InstallComplete => "update_install_complete",
            UpdateStatusText::Error { .. } => "update_error",
        }
    }
}

/// What the settings page shows for the updater's state `status` (`None`
/// before any check).
pub fn present_status(status: Option<&UpdateStatus>) -> (r: UpdateStatusPresentation)
    ensures
        r == presentation_of(
            match status {
                Some(s) => Some(*s),
                None => None,
            },
        ),
{
    match status {
        None => UpdateStatusPresentation {
            text: UpdateStatusText::NotChecked,
            progress: None,
            has_update: false,
            can_retry: false,
            can_restart: false,
        },
        Some(UpdateStatus::Checking) => UpdateStatusPresentation {
            text: UpdateStatusText::Checking,
            progress: None,
            has_update: false,
            can_retry: false,
            can_restart: false,
        },
        Some(UpdateStatus::UpToDate) => UpdateStatusPresentation {
            text: UpdateStatusText::Latest,
            progress: None,
            has_update: false,
            can_retry: false,
            can_restart: false,
        },
        Some(UpdateStatus::UpdateAvailable { version }) => UpdateStatusPresentation {
            text: UpdateStatusText::Available { version: version.clone() },
            progress: None,
            has_update: true,
            can_retry: false,
            can_restart: false,
        },
        Some(UpdateStatus::Downloading { done, total }) => UpdateStatusPresentation {
            text: UpdateStatusText::Downloading { percent: progress_percent(*done, *total) },
            progress: Some((*done, *total)),
            has_update: false,
            can_retry: false,
            can_restart: false,
        },
        Some(UpdateStatus::DownloadCancelled) => UpdateStatusPresentation {
            text: UpdateStatusText::DownloadCancelled,
            progress: None,
            has_update: true,
            can_retry: true,
            can_restart: false,
        },
        Some(UpdateStatus::DownloadFailed { error }) => UpdateStatusPresentation {
            text: UpdateStatusText::DownloadError { error: error.clone() },
            progress: None,
            has_update: true,
            can_retry: true,
            can_restart: false,
        },
        Some(UpdateStatus::ReadyToRestart) => UpdateStatusPresentation {
            text: UpdateStatusText::InstallComplete,
            progress: None,
            has_update: false,
            can_retry: false,
            can_restart: true,
        },
        Some(UpdateStatus::Error { message }) => UpdateStatusPresentation {
            text: UpdateStatusText::Error { error: message.clone() },
            progress: None,
            has_update: false,
            can_retry: false,
            can_restart: false,
        },
    }
}

} // verus!
