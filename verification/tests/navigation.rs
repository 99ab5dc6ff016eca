use halogen_ui_core::navigation::{adjacent_episode, next_episode, NavLists};
use std::collections::HashMap;

fn nav_state() -> NavLists {
    let mut by_playlist = HashMap::new();
    by_playlist.insert(1, vec![10, 20, 30]);
    by_playlist.insert(2, vec![20, 40]);
    let mut podcast_of = HashMap::new();
    for id in [10, 20, 30, 40, 50] {
        podcast_of.insert(id, 7);
    }
    let mut by_podcast = HashMap::new();
    by_podcast.insert(7, vec![40, 50]);
    NavLists {
        episodes_by_playlist: by_playlist,
        queue_id: Some(1),
        podcast_of,
        episodes_by_podcast: by_podcast,
    }
}

#[test]
fn adjacent_walks_queue_then_podcast_order() {
    let s = nav_state();
    assert_eq!(adjacent_episode(&s, 20, 1, None), Some(30));
    assert_eq!(adjacent_episode(&s, 20, -1, None), Some(10));
    assert_eq!(adjacent_episode(&s, 10, -1, None), None);
    assert_eq!(adjacent_episode(&s, 30, 1, None), None);
    assert_eq!(adjacent_episode(&s, 40, 1, None), Some(50));
    assert_eq!(adjacent_episode(&s, 40, -1, None), None);
    assert_eq!(adjacent_episode(&s, 50, 1, None), None);
    assert_eq!(adjacent_episode(&s, 99, 1, None), None);
}

#[test]
fn context_playlist_wins_and_unknown_context_falls_back_to_queue() {
    let s = nav_state();
    assert_eq!(adjacent_episode(&s, 20, 1, Some(2)), Some(40));
    assert_eq!(adjacent_episode(&s, 40, -1, Some(2)), Some(20));
    assert_eq!(adjacent_episode(&s, 20, 1, Some(77)), Some(30));
    // The context does not hold 10: the queue is walked.
    assert_eq!(adjacent_episode(&s, 10, 1, Some(2)), Some(20));
}

#[test]
fn next_prefers_the_continuation_then_podcast_neighbor() {
    let s = nav_state();
    assert_eq!(next_episode(&s, Some(20), None, Some(30)), Some(30));
    assert_eq!(next_episode(&s, Some(40), None, None), Some(50));
    assert_eq!(next_episode(&s, None, None, None), None);
    assert_eq!(next_episode(&s, None, None, Some(5)), Some(5));
}
