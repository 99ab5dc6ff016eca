use halogen_ui_core::device::{
    partial_pct, server_ready, start_failure_message, ClientDownloadState, DeviceDownloads,
    DownloadStart, StartEnv, StartFailure,
};
use halogen_ui_core::query::DownloadStatus;

fn env() -> StartEnv {
    StartEnv { manual_offline: false, has_storage: true, has_client: true, known_offline: false, server_ready: false }
}

#[test]
fn start_is_idempotent_and_fails_fast() {
    let mut d = DeviceDownloads::new();
    assert_eq!(d.start_device_download(1, StartEnv { manual_offline: true, ..env() }), DownloadStart::OfflineNotice);
    assert!(d.client_downloads.get(&1).is_none());
    assert_eq!(d.start_device_download(1, env()), DownloadStart::Start { server_ready: false });
    assert_eq!(d.client_downloads.get(&1), Some(&ClientDownloadState::Downloading));
    assert_eq!(d.start_device_download(1, env()), DownloadStart::AlreadyActive);
    assert_eq!(
        d.start_device_download(2, StartEnv { has_storage: false, ..env() }),
        DownloadStart::Failed(StartFailure::NoStorage)
    );
    assert_eq!(
        d.start_device_download(3, StartEnv { has_client: false, ..env() }),
        DownloadStart::Failed(StartFailure::NotSignedIn)
    );
    assert_eq!(
        d.start_device_download(4, StartEnv { known_offline: true, ..env() }),
        DownloadStart::Failed(StartFailure::Offline)
    );
    assert_eq!(d.client_downloads.get(&4), Some(&ClientDownloadState::Failed));
    // A failed one may be retried.
    assert_eq!(d.start_device_download(4, StartEnv { server_ready: true, ..env() }), DownloadStart::Start { server_ready: true });
    assert_eq!(start_failure_message(StartFailure::NotSignedIn), "Sign in to download episodes.");
}

#[test]
fn resume_skips_active_and_seeds_progress() {
    let mut d = DeviceDownloads::new();
    d.client_downloads.insert(1, ClientDownloadState::Downloaded);
    assert!(!d.resume_partial(1, 10, Some(100)));
    assert!(d.resume_partial(2, 25, Some(100)));
    assert_eq!(d.download_progress.get(&2), Some(&25));
    assert!(d.resume_partial(3, 250, Some(100)));
    assert_eq!(d.download_progress.get(&3), Some(&100));
    assert!(d.resume_partial(4, 5, None));
    assert!(d.download_progress.get(&4).is_none());
    d.mark_failed(2);
    assert!(d.download_progress.get(&2).is_none());
    assert_eq!(d.client_downloads.get(&2), Some(&ClientDownloadState::Failed));
    d.remove_device_download(3);
    assert!(d.client_downloads.get(&3).is_none());
}

#[test]
fn progress_and_server_readiness() {
    assert_eq!(partial_pct(50, Some(200)), Some(25));
    assert_eq!(partial_pct(5, Some(0)), None);
    assert_eq!(partial_pct(u64::MAX, Some(1)), Some(100));
    assert!(server_ready(Some(DownloadStatus::Downloaded)));
    assert!(!server_ready(Some(DownloadStatus::Downloading)));
    assert!(!server_ready(None));
    let mut d = DeviceDownloads::new();
    d.server_download_progress.insert(1, 10);
    d.server_download_progress.insert(2, 20);
    d.settle_server_progress(&vec![1, 3]);
    assert!(d.server_download_progress.get(&1).is_none());
    assert_eq!(d.server_download_progress.get(&2), Some(&20));
}
