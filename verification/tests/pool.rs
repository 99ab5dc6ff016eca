use halogen_ui_core::outbox::OutboxOp;
use halogen_ui_core::pool::{without, EpisodePool, PodcastConfigRow, PodcastRow};
use halogen_ui_core::outbox::PodcastConfigUpdateData;
use halogen_ui_core::query::{Chapter, DownloadStatus, EpisodeRow, PlaybackStatus};
use std::collections::HashSet;

fn pod(id: i32, title: &str) -> PodcastRow {
    PodcastRow { id, title: title.into(), podcast_config_id: None, podcast_config: None, created_at: 5, updated_at: 6 }
}

fn ep(id: i32, podcast_id: i32) -> EpisodeRow {
    EpisodeRow {
        id,
        podcast_id,
        title: format!("E{id}"),
        description: None,
        published_at: None,
        created_at: 0,
        updated_at: 0,
        duration_secs: None,
        playback_status: PlaybackStatus::Unplayed,
        download_status: DownloadStatus::NotDownloaded,
        chapters: None,
    }
}

#[test]
fn cache_episodes_groups_and_reports() {
    let mut pool = EpisodePool::new();
    let mut a = ep(1, 7);
    a.download_status = DownloadStatus::Downloading;
    let out = pool.cache_episodes(vec![a, ep(2, 7), ep(3, 8)], &Vec::new());
    assert_eq!(out.stored.len(), 3);
    assert_eq!(out.settled, vec![2, 3]);
    assert_eq!(out.podcasts, vec![7, 8]);
    assert_eq!(pool.episodes_by_podcast.get(&7), Some(&vec![1, 2]));
    // A second page does not duplicate grouped ids.
    pool.cache_episodes(vec![ep(2, 7), ep(4, 7)], &Vec::new());
    assert_eq!(pool.episodes_by_podcast.get(&7), Some(&vec![1, 2, 4]));
}

#[test]
fn stale_page_keeps_queued_facets_and_loaded_chapters() {
    let mut pool = EpisodePool::new();
    let mut local = ep(1, 7);
    local.playback_status = PlaybackStatus::Finished;
    local.download_status = DownloadStatus::NotDownloaded;
    local.chapters = Some(vec![Chapter { start_ms: 0, title: "Intro".into() }]);
    pool.cache_episodes(vec![local], &Vec::new());
    let pending = vec![
        (1u64, OutboxOp::MarkPlayed { episode_id: 1, played: true }),
        (2u64, OutboxOp::RemoveServerDownload { episode_ids: vec![1] }),
    ];
    let mut stale = ep(1, 7);
    stale.playback_status = PlaybackStatus::Unplayed;
    stale.download_status = DownloadStatus::Downloaded;
    stale.title = "New title".into();
    let out = pool.cache_episodes(vec![stale], &pending);
    let row = pool.episodes_by_id.get(&1).unwrap();
    assert_eq!(row.playback_status, PlaybackStatus::Finished);
    assert_eq!(row.download_status, DownloadStatus::NotDownloaded);
    assert_eq!(row.title, "New title");
    assert_eq!(row.chapters.as_ref().unwrap().len(), 1);
    assert_eq!(out.stored[0].chapters.as_ref().unwrap()[0].title, "Intro");
    // Without queued ops the server's facets win.
    let mut fresh = ep(1, 7);
    fresh.download_status = DownloadStatus::Downloaded;
    pool.cache_episodes(vec![fresh], &Vec::new());
    assert_eq!(pool.episodes_by_id.get(&1).unwrap().download_status, DownloadStatus::Downloaded);
    assert_eq!(pool.episodes_by_id.get(&1).unwrap().playback_status, PlaybackStatus::Unplayed);
}

#[test]
fn remove_podcast_drops_its_episodes() {
    let mut pool = EpisodePool::new();
    pool.podcasts_by_id.insert(7, pod(7, "P"));
    pool.cache_episodes(vec![ep(1, 7), ep(2, 7), ep(3, 8)], &Vec::new());
    pool.remove_podcast_locally(7);
    assert!(pool.podcasts_by_id.get(&7).is_none());
    assert!(pool.episodes_by_id.get(&1).is_none());
    assert!(pool.episodes_by_id.get(&2).is_none());
    assert!(pool.episodes_by_id.get(&3).is_some());
    assert!(pool.episodes_by_podcast.get(&7).is_none());
}

#[test]
fn forget_episode_and_local_status_edits() {
    let mut pool = EpisodePool::new();
    pool.cache_episodes(vec![ep(1, 7), ep(2, 7)], &Vec::new());
    let changed = pool.set_playback_status_locally(2, PlaybackStatus::Finished).unwrap();
    assert_eq!(changed.playback_status, PlaybackStatus::Finished);
    assert!(pool.set_download_status_locally(99, DownloadStatus::Downloaded).is_none());
    assert_eq!(
        pool.set_download_status_locally(1, DownloadStatus::Downloading).unwrap().download_status,
        DownloadStatus::Downloading
    );
    pool.forget_episode(1);
    assert!(pool.episodes_by_id.get(&1).is_none());
    assert_eq!(pool.episodes_by_podcast.get(&7), Some(&vec![2]));
    assert!(!pool.chapters_loaded(2));
    assert_eq!(without(&vec![1, 2, 1, 3], 1), vec![2, 3]);
}

#[test]
fn unsubscribed_podcasts_are_not_resurrected() {
    let mut pool = EpisodePool::new();
    let tomb: HashSet<i32> = HashSet::from([2]);
    let kept = pool.cache_podcasts(
        vec![pod(1, "A"), pod(2, "B")],
        &tomb,
    );
    assert_eq!(kept.len(), 1);
    assert_eq!(kept[0].id, 1);
    assert!(pool.podcasts_by_id.get(&2).is_none());
    assert_eq!(pool.podcasts_by_id.get(&1).map(|p| p.title.as_str()), Some("A"));
    let missing = pool.missing_podcasts(&vec![1, 2, 3], &HashSet::from([3]));
    assert_eq!(missing, vec![2]);
}

#[test]
fn offline_config_edits_apply_and_remove() {
    let mut pool = EpisodePool::new();
    pool.cache_podcasts(vec![pod(1, "A")], &HashSet::new());
    let data = PodcastConfigUpdateData {
        poll_interval_seconds: Some(3600),
        max_episodes: None,
        max_concurrent_downloads: Some(2),
        auto_download_enabled: None,
    };
    let stored = pool.update_podcast_config_locally(1, 9, &data, &HashSet::new());
    assert_eq!(stored.len(), 1);
    let p = pool.podcasts_by_id.get(&1).unwrap();
    assert_eq!(p.podcast_config_id, Some(9));
    assert_eq!(
        p.podcast_config,
        Some(PodcastConfigRow {
            id: 9,
            poll_interval_seconds: Some(3600),
            max_episodes: None,
            max_concurrent_downloads: Some(2),
            auto_download_enabled: None,
            created_at: 5,
            updated_at: 6,
        })
    );
    // A second edit keeps the fields it does not set.
    let data2 = PodcastConfigUpdateData {
        poll_interval_seconds: None,
        max_episodes: Some(10),
        max_concurrent_downloads: None,
        auto_download_enabled: Some(true),
    };
    pool.update_podcast_config_locally(1, 77, &data2, &HashSet::new());
    let c = pool.podcasts_by_id.get(&1).unwrap().podcast_config.unwrap();
    assert_eq!((c.id, c.poll_interval_seconds, c.max_episodes, c.auto_download_enabled), (9, Some(3600), Some(10), Some(true)));
    pool.remove_podcast_config_locally(1, &HashSet::new());
    assert!(pool.podcasts_by_id.get(&1).unwrap().podcast_config.is_none());
    assert!(pool.update_podcast_config_locally(2, 1, &data, &HashSet::new()).is_empty());
    // An unsubscribed podcast is not written back.
    assert!(pool.remove_podcast_config_locally(1, &HashSet::from([1])).is_empty());
}
