use halogen_ui_core::outbox::{ApiCall, OutboxOp, PodcastConfigUpdateData};

#[test]
fn needs_pull_after_only_for_subscribe_unsubscribe() {
    assert!(OutboxOp::Subscribe {
        feed_url: "https://example.com/feed.xml".into(),
        title: None,
        description: None,
        author: None,
    }
    .needs_pull_after());
    assert!(OutboxOp::Unsubscribe { podcast_id: 1 }.needs_pull_after());
    assert!(!OutboxOp::MarkPlayed { episode_id: 1, played: true }.needs_pull_after());
    assert!(!OutboxOp::SetCursor { episode_id: 1, cursor: 10 }.needs_pull_after());
    assert!(!OutboxOp::AddToPlaylist { playlist_id: 1, episode_ids: vec![2], position: None }
        .needs_pull_after());
    assert!(!OutboxOp::RemoveFromPlaylist { playlist_id: 1, episode_ids: vec![2] }
        .needs_pull_after());
    assert!(!OutboxOp::MoveInPlaylist { playlist_id: 1, episode_id: 2, to: 0 }.needs_pull_after());
    assert!(!OutboxOp::MovePlaylist { playlist_id: 1, to: 0 }.needs_pull_after());
    assert!(!OutboxOp::TriggerDownload { episode_ids: vec![3] }.needs_pull_after());
    assert!(!OutboxOp::RemoveServerDownload { episode_ids: vec![3] }.needs_pull_after());
    assert!(!OutboxOp::UpdatePodcastConfig {
        config_id: 4,
        data: PodcastConfigUpdateData {
            poll_interval_seconds: Some(3600),
            max_episodes: None,
            max_concurrent_downloads: None,
            auto_download_enabled: None,
        },
    }
    .needs_pull_after());
    assert!(!OutboxOp::RemovePodcastConfig { podcast_id: 8 }.needs_pull_after());
    assert!(!OutboxOp::SetPodcastAutoPlaylists {
        podcast_id: 8,
        playlist_ids: vec![1, 2],
        add_to_start: None,
    }
    .needs_pull_after());
}

#[test]
fn subscribe_sends_trimmed_clamped_title_or_feed_url() {
    let calls = OutboxOp::Subscribe {
        feed_url: "https://x.test/f.xml".into(),
        title: Some("  My Show \n".into()),
        description: Some("d".repeat(70_000)),
        author: Some("A".into()),
    }
    .api_calls();
    assert_eq!(calls.len(), 1);
    match &calls[0] {
        ApiCall::CreatePodcast { title, description, feed_url, author } => {
            assert_eq!(title, "My Show");
            assert_eq!(description.as_ref().unwrap().chars().count(), 65_536);
            assert_eq!(feed_url, "https://x.test/f.xml");
            assert_eq!(author.as_deref(), Some("A"));
        }
        other => panic!("unexpected {other:?}"),
    }
    let calls = OutboxOp::Subscribe {
        feed_url: "https://x.test/f.xml".into(),
        title: Some("   ".into()),
        description: None,
        author: None,
    }
    .api_calls();
    match &calls[0] {
        ApiCall::CreatePodcast { title, description, author, .. } => {
            assert_eq!(title, "https://x.test/f.xml");
            assert!(description.is_none() && author.is_none());
        }
        other => panic!("unexpected {other:?}"),
    }
    let long = "t".repeat(300);
    match &(OutboxOp::Subscribe { feed_url: "u".into(), title: Some(long), description: None, author: None }).api_calls()[0]
    {
        ApiCall::CreatePodcast { title, .. } => assert_eq!(title.chars().count(), 256),
        other => panic!("unexpected {other:?}"),
    }
}

#[test]
fn playback_ops_send_clamped_cursors() {
    match &(OutboxOp::SetCursor { episode_id: 3, cursor: -40 }).api_calls()[0] {
        ApiCall::UpsertPlayback { episode_id, cursor, completed } => {
            assert_eq!((*episode_id, *cursor, *completed), (3, 0, false))
        }
        other => panic!("unexpected {other:?}"),
    }
    match &(OutboxOp::SetCursor { episode_id: 3, cursor: 99 }).api_calls()[0] {
        ApiCall::UpsertPlayback { cursor, .. } => assert_eq!(*cursor, 99),
        other => panic!("unexpected {other:?}"),
    }
    match &(OutboxOp::MarkPlayed { episode_id: 4, played: true }).api_calls()[0] {
        ApiCall::UpsertPlayback { episode_id, cursor, completed } => {
            assert_eq!((*episode_id, *cursor, *completed), (4, 0, true))
        }
        other => panic!("unexpected {other:?}"),
    }
}

#[test]
fn playlist_and_download_ops_plan_their_calls() {
    let calls = OutboxOp::AddToPlaylist { playlist_id: 1, episode_ids: vec![5, 6], position: Some(0) }.api_calls();
    assert_eq!(calls.len(), 2);
    assert!(matches!(calls[0], ApiCall::AddEpisode { playlist_id: 1, episode_id: 5, position: 0 }));
    assert!(matches!(calls[1], ApiCall::AddEpisode { playlist_id: 1, episode_id: 6, position: 0 }));
    let calls = OutboxOp::AddToPlaylist { playlist_id: 1, episode_ids: vec![5, 6], position: None }.api_calls();
    assert!(matches!(&calls[..], [ApiCall::AddEpisodesBulk { playlist_id: 1, .. }]));
    assert!(OutboxOp::AddToPlaylist { playlist_id: 1, episode_ids: vec![], position: None }.api_calls().is_empty());
    assert!(OutboxOp::RemoveFromPlaylist { playlist_id: 1, episode_ids: vec![] }.api_calls().is_empty());
    assert!(OutboxOp::TriggerDownload { episode_ids: vec![] }.api_calls().is_empty());
    assert!(matches!(
        &OutboxOp::RemoveServerDownload { episode_ids: vec![2] }.api_calls()[..],
        [ApiCall::RemoveServerDownloadBulk { .. }]
    ));
    assert!(matches!(
        &OutboxOp::Unsubscribe { podcast_id: 8 }.api_calls()[..],
        [ApiCall::DeletePodcast { podcast_id: 8 }]
    ));
    assert!(matches!(
        &OutboxOp::RemovePodcastConfig { podcast_id: 8 }.api_calls()[..],
        [ApiCall::RemovePodcastConfigFor { podcast_id: 8 }]
    ));
}
