use halogen_ui_core::outbox::OutboxOp;
use halogen_ui_core::playlists::{PlaylistPool, PlaylistRow, QueueState};
use halogen_ui_core::pull::{
    apply_default_playlist, ensure_default_playlist, DefaultPlaylist, PullStart, PullState,
    QueueResolve, SyncPhase, SyncStatus,
};

fn playlist(id: i32, is_default: bool, episode_ids: Option<Vec<i32>>) -> PlaylistRow {
    PlaylistRow {
        id,
        name: format!("P{id}"),
        description: None,
        is_default,
        position: 0,
        on_remove_delete_file_server: false,
        on_remove_delete_file_client: false,
        created_at: 0,
        updated_at: 0,
        episode_ids,
    }
}

#[test]
fn pull_guards_and_stamps_only_reaching_pulls() {
    let mut pull = PullState::new();
    let mut status = SyncStatus::Unknown;
    let mut pool = PlaylistPool::new();
    assert_eq!(pull.begin_pull(&mut status, true, true), PullStart::Offline);
    assert_eq!(status, SyncStatus::Offline);
    assert_eq!(pull.begin_pull(&mut status, false, true), PullStart::Fetch);
    assert_eq!(status, SyncStatus::Syncing { phase: SyncPhase::Pull });
    assert_eq!(pull.begin_pull(&mut status, false, true), PullStart::AlreadyRunning);
    // A transport failure: offline, no stamp, guard released.
    pull.finish_pull(&mut status, &mut pool, DefaultPlaylist::Failed { offline: true }, &Vec::new(), 5_000);
    assert_eq!(status, SyncStatus::Offline);
    assert_eq!(pull.last_pull_at_ms, None);
    assert!(!pull.pull_in_flight);
    assert!(pull.coalesced_pull_due(5_001));
    // A reaching pull with a default playlist resolves the queue.
    pull.begin_pull(&mut status, false, true);
    let stored = pull.finish_pull(
        &mut status,
        &mut pool,
        DefaultPlaylist::Found(playlist(3, true, Some(vec![1, 2]))),
        &Vec::new(),
        6_000,
    );
    assert_eq!(stored.len(), 1);
    assert_eq!(status, SyncStatus::Online);
    assert_eq!(pool.queue, QueueState::Present(3));
    assert_eq!(pool.episodes_by_playlist.get(&3), Some(&vec![1, 2]));
    assert_eq!(pull.last_pull_at_ms, Some(6_000));
    assert!(!pull.coalesced_pull_due(7_999));
    assert!(pull.coalesced_pull_due(8_000));
    // A server without a default playlist: the queue is absent.
    pull.begin_pull(&mut status, false, true);
    pull.finish_pull(&mut status, &mut pool, DefaultPlaylist::Missing, &Vec::new(), 9_000);
    assert_eq!(pool.queue, QueueState::Absent);
}

#[test]
fn default_pull_keeps_queued_queue_membership() {
    let mut pool = PlaylistPool::new();
    pool.cache_playlists(vec![playlist(3, true, Some(vec![1, 42]))], &Vec::new());
    let pending = vec![(1u64, OutboxOp::AddToPlaylist { playlist_id: 3, episode_ids: vec![42], position: None })];
    apply_default_playlist(&mut pool, DefaultPlaylist::Found(playlist(3, true, Some(vec![1]))), &pending);
    assert_eq!(pool.episodes_by_playlist.get(&3), Some(&vec![1, 42]));
}

#[test]
fn queue_resolution_reuses_a_recent_pull() {
    let mut pool = PlaylistPool::new();
    pool.playlists.push(playlist(4, true, None));
    let mut pull = PullState::new();
    assert_eq!(ensure_default_playlist(&mut pool, &pull, 0, false, true), QueueResolve::Fetch);
    assert_eq!(pool.queue, QueueState::Unknown);
    pull.last_pull_at_ms = Some(1_000);
    assert_eq!(ensure_default_playlist(&mut pool, &pull, 1_500, false, true), QueueResolve::FromCache);
    assert_eq!(pool.queue, QueueState::Present(4));
    let mut empty = PlaylistPool::new();
    assert_eq!(ensure_default_playlist(&mut empty, &PullState::new(), 0, true, true), QueueResolve::FromCache);
    assert_eq!(empty.queue, QueueState::Unknown, "cache resolution never asserts absence");
    apply_default_playlist(&mut empty, DefaultPlaylist::Failed { offline: true }, &Vec::new());
    assert_eq!(empty.queue, QueueState::Unknown);
}
