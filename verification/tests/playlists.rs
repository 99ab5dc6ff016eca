use halogen_ui_core::outbox::PlaylistUpdateData;
use halogen_ui_core::outbox::OutboxOp;
use halogen_ui_core::playlists::{reorder_ids, PlaylistPool, PlaylistRow, QueueState};
use std::collections::HashSet;

fn playlist(id: i32, episode_ids: Option<Vec<i32>>) -> PlaylistRow {
    PlaylistRow {
        id,
        name: format!("Playlist {id}"),
        description: None,
        is_default: false,
        position: 0,
        on_remove_delete_file_server: false,
        on_remove_delete_file_client: false,
        created_at: 0,
        updated_at: 0,
        episode_ids,
    }
}

#[test]
fn stale_pull_keeps_queued_playlist_membership() {
    let mut pool = PlaylistPool::new();
    let mut pending: Vec<(u64, OutboxOp)> = Vec::new();
    pool.playlists.push(playlist(1, Some(vec![7, 42])));
    pool.episodes_by_playlist.insert(1, vec![7, 42]);
    pending.push((1, OutboxOp::AddToPlaylist { playlist_id: 1, episode_ids: vec![42], position: None }));

    let stored = pool.cache_playlists(vec![playlist(1, Some(vec![7]))], &pending);
    assert_eq!(
        pool.episodes_by_playlist.get(&1),
        Some(&vec![7, 42]),
        "a stale pull must not drop the queued AddToPlaylist episode"
    );
    assert_eq!(stored[0].episode_ids, Some(vec![7, 42]));

    pending.clear();
    pool.cache_playlists(vec![playlist(1, Some(vec![7]))], &pending);
    assert_eq!(pool.episodes_by_playlist.get(&1), Some(&vec![7]));
}

#[test]
fn stale_pull_does_not_resurrect_queued_playlist_remove() {
    let mut pool = PlaylistPool::new();
    pool.playlists.push(playlist(2, Some(vec![9])));
    pool.episodes_by_playlist.insert(2, vec![9]);
    let pending = vec![(1u64, OutboxOp::RemoveFromPlaylist { playlist_id: 2, episode_ids: vec![7] })];
    pool.cache_playlists(vec![playlist(2, Some(vec![9, 7]))], &pending);
    assert_eq!(
        pool.episodes_by_playlist.get(&2),
        Some(&vec![9]),
        "a stale pull must not resurrect the queued RemoveFromPlaylist episode"
    );
}

#[test]
fn pull_without_pending_ops_overwrites_membership() {
    let mut pool = PlaylistPool::new();
    pool.playlists.push(playlist(3, Some(vec![1, 2])));
    pool.episodes_by_playlist.insert(3, vec![1, 2]);
    let pending = vec![(1u64, OutboxOp::AddToPlaylist { playlist_id: 99, episode_ids: vec![5], position: None })];
    pool.cache_playlists(vec![playlist(3, Some(vec![2, 1, 4]))], &pending);
    assert_eq!(pool.episodes_by_playlist.get(&3), Some(&vec![2, 1, 4]));
}

#[test]
fn new_default_clears_other_defaults_and_resolves_queue() {
    let mut pool = PlaylistPool::new();
    let mut old_default = playlist(1, Some(vec![1]));
    old_default.is_default = true;
    pool.playlists.push(old_default);
    pool.recompute_queue(false);
    assert_eq!(pool.queue, QueueState::Present(1));
    let mut new_default = playlist(2, None);
    new_default.is_default = true;
    pool.cache_playlists(vec![new_default], &Vec::new());
    assert!(!pool.playlists[0].is_default);
    assert_eq!(pool.queue_id(), Some(2));
    assert_eq!(pool.playlist_dest(2), "queue");
    assert_eq!(pool.playlist_dest(1), "playlist");
    // A new row without membership gets an empty index entry.
    assert_eq!(pool.episodes_by_playlist.get(&2), Some(&Vec::new()));
}

#[test]
fn unsetting_the_queue_default_makes_it_absent() {
    let mut pool = PlaylistPool::new();
    let mut d = playlist(5, None);
    d.is_default = true;
    pool.cache_playlists(vec![d], &Vec::new());
    assert_eq!(pool.queue, QueueState::Present(5));
    pool.cache_playlists(vec![playlist(5, None)], &Vec::new());
    assert_eq!(pool.queue, QueueState::Absent);
    // An unrelated playlist never flips a known queue to absent.
    let mut pool2 = PlaylistPool::new();
    pool2.queue = QueueState::Unknown;
    pool2.cache_playlists(vec![playlist(9, None)], &Vec::new());
    assert_eq!(pool2.queue, QueueState::Unknown);
}

#[test]
fn upsert_keeps_membership_when_row_has_none() {
    let mut pool = PlaylistPool::new();
    pool.cache_playlists(vec![playlist(4, Some(vec![1, 2]))], &Vec::new());
    let mut renamed = playlist(4, None);
    renamed.name = "Renamed".into();
    pool.cache_playlists(vec![renamed], &Vec::new());
    assert_eq!(pool.playlists.len(), 1);
    assert_eq!(pool.playlists[0].name, "Renamed");
    assert_eq!(pool.playlists[0].episode_ids, Some(vec![1, 2]));
}

#[test]
fn add_to_playlist_inserts_clamped_once() {
    let mut pool = PlaylistPool::new();
    pool.add_to_playlist_locally(1, 10, None);
    pool.add_to_playlist_locally(1, 20, None);
    pool.add_to_playlist_locally(1, 5, Some(0));
    pool.add_to_playlist_locally(1, 30, Some(99));
    pool.add_to_playlist_locally(1, 7, Some(-4));
    pool.add_to_playlist_locally(1, 20, Some(0));
    assert_eq!(pool.episodes_by_playlist.get(&1), Some(&vec![7, 5, 10, 20, 30]));
}

#[test]
fn reorder_moves_and_clamps() {
    let mut ids = vec![1, 2, 3, 4];
    reorder_ids(&mut ids, 1, 2);
    assert_eq!(ids, vec![2, 3, 1, 4]);
    reorder_ids(&mut ids, 4, 0);
    assert_eq!(ids, vec![4, 2, 3, 1]);
    reorder_ids(&mut ids, 2, 100);
    assert_eq!(ids, vec![4, 3, 1, 2]);
    reorder_ids(&mut ids, 3, -1);
    assert_eq!(ids, vec![3, 4, 1, 2]);
    reorder_ids(&mut ids, 99, 0);
    assert_eq!(ids, vec![3, 4, 1, 2]);
    let mut pool = PlaylistPool::new();
    pool.episodes_by_playlist.insert(1, vec![1, 2, 3]);
    pool.move_in_playlist_locally(1, 3, 0);
    assert_eq!(pool.episodes_by_playlist.get(&1), Some(&vec![3, 1, 2]));
    pool.move_in_playlist_locally(2, 3, 0);
    assert!(pool.episodes_by_playlist.get(&2).is_none());
}

#[test]
fn prune_and_remove_and_persist() {
    let mut pool = PlaylistPool::new();
    pool.cache_playlists(vec![playlist(1, Some(vec![1, 2, 3])), playlist(2, Some(vec![4]))], &Vec::new());
    let mut affected = pool.prune_episodes_from_playlists(&HashSet::from([2, 3]));
    affected.sort();
    assert_eq!(affected, vec![1]);
    assert_eq!(pool.episodes_by_playlist.get(&1), Some(&vec![1]));
    assert_eq!(pool.episodes_by_playlist.get(&2), Some(&vec![4]));
    let row = pool.persist_playlist(1).unwrap();
    assert_eq!(row.episode_ids, Some(vec![1]));
    assert!(pool.persist_playlist(77).is_none());
    pool.remove_playlist_locally(2);
    assert_eq!(pool.playlists.len(), 1);
    assert!(pool.episodes_by_playlist.get(&2).is_none());
}

#[test]
fn offline_edit_applies_given_fields_only() {
    let mut pool = PlaylistPool::new();
    let mut p = playlist(1, Some(vec![5]));
    p.description = Some("keep".into());
    pool.cache_playlists(vec![p], &Vec::new());
    let data = PlaylistUpdateData {
        name: Some("New".into()),
        description: None,
        is_default: Some(true),
        on_remove_delete_file_server: None,
        on_remove_delete_file_client: Some(true),
    };
    let stored = pool.update_playlist_locally(1, &data, &Vec::new());
    assert_eq!(stored.len(), 1);
    assert_eq!(pool.playlists[0].name, "New");
    assert_eq!(pool.playlists[0].description.as_deref(), Some("keep"));
    assert!(pool.playlists[0].is_default && pool.playlists[0].on_remove_delete_file_client);
    assert_eq!(pool.playlists[0].episode_ids, Some(vec![5]));
    assert_eq!(pool.queue_id(), Some(1));
    assert!(pool.update_playlist_locally(9, &data, &Vec::new()).is_empty());
}

#[test]
fn moving_a_playlist_renumbers_the_manual_order() {
    let mut pool = PlaylistPool::new();
    for (id, pos) in [(10, 0), (11, 1), (12, 2)] {
        let mut p = playlist(id, None);
        p.position = pos;
        pool.playlists.push(p);
    }
    assert_eq!(pool.manual_order(), vec![10, 11, 12]);
    let changed = pool.move_playlist_locally(12, 0);
    let mut moved: Vec<(i32, i32)> = changed.iter().map(|p| (p.id, p.position)).collect();
    moved.sort();
    assert_eq!(moved, vec![(10, 1), (11, 2), (12, 0)]);
    assert_eq!(pool.manual_order(), vec![12, 10, 11]);
    assert!(pool.move_playlist_locally(12, 0).is_empty(), "unchanged order writes nothing");
    assert!(pool.move_playlist_locally(99, 0).is_empty());
}
