use halogen_ui_core::player::{
    load_and_play, on_backend_error, pause, persist_cursor, play, resume, retry_fired, stop,
    tick_begin, tick_events, toggle, enter_preparing, set_play_context, play_context,
    current_episode, BackendEvent, PlaybackState, Player, PlayerAction, LOADING_STALL_TICKS,
    PREPARING_STALL_TICKS, LOCAL_RETRY_FIRST_MS, LOCAL_RETRY_SECOND_MS,
};

fn state(p: &Player) -> Option<PlaybackState> {
    p.now.as_ref().map(|n| n.state.clone())
}

fn playing(id: i32) -> Player {
    let mut p = Player::new();
    load_and_play(&mut p, id, false);
    tick_events(&mut p, vec![BackendEvent::TimeUpdate], false, false, None);
    p
}

#[test]
fn time_update_flips_loading_to_playing_and_clears_buffering() {
    let mut p = Player::new();
    let acts = load_and_play(&mut p, 5, false);
    assert_eq!(
        acts,
        vec![
            PlayerAction::MaybeAutoArmSleep,
            PlayerAction::BackendLoad,
            PlayerAction::BackendSetRate,
            PlayerAction::BackendPlay
        ]
    );
    assert!(matches!(state(&p), Some(PlaybackState::Loading)));
    assert!(p.now.as_ref().unwrap().buffering);
    tick_events(&mut p, vec![BackendEvent::TimeUpdate], false, false, None);
    assert!(matches!(state(&p), Some(PlaybackState::Playing)));
    assert!(!p.now.as_ref().unwrap().buffering);
}

#[test]
fn ended_latch_marks_played_once_and_auto_advances() {
    let mut p = playing(5);
    let acts = tick_events(&mut p, vec![BackendEvent::Ended], false, true, Some(6));
    assert!(acts.contains(&PlayerAction::MarkPlayed { episode_id: 5 }));
    assert!(acts.contains(&PlayerAction::RequestPlay { episode_id: 6 }));
    assert!(matches!(state(&p), Some(PlaybackState::Ended)));
    // The latched state is never polled again.
    let (acts, poll) = tick_begin(&mut p);
    assert!(acts.is_empty());
    assert!(!poll);
}

#[test]
fn ended_at_queue_tail_settles_without_advancing() {
    let mut p = playing(5);
    let acts = tick_events(&mut p, vec![BackendEvent::Ended], false, true, None);
    assert_eq!(acts.iter().filter(|a| matches!(a, PlayerAction::RequestPlay { .. })).count(), 0);
    assert!(matches!(state(&p), Some(PlaybackState::Ended)));
}

#[test]
fn sleep_expiry_blocks_auto_advance() {
    let mut p = playing(5);
    let acts = tick_events(&mut p, vec![BackendEvent::Ended], true, true, Some(6));
    assert!(acts.contains(&PlayerAction::BackendPause));
    assert!(!acts.contains(&PlayerAction::RequestPlay { episode_id: 6 }));
}

#[test]
fn cursor_saved_every_fortieth_playing_tick() {
    let mut p = playing(5);
    let mut saves = 0;
    for _ in 0..79 {
        let acts = tick_events(&mut p, vec![], false, false, None);
        saves += acts.iter().filter(|a| matches!(a, PlayerAction::SetCursor { .. })).count();
    }
    // One tick already ran in `playing`; ticks 40 and 80 save.
    assert_eq!(saves, 2);
}

#[test]
fn local_load_error_retries_twice_then_surfaces() {
    let mut p = Player::new();
    load_and_play(&mut p, 5, true);
    let a = on_backend_error(&mut p, "bad".to_string());
    assert_eq!(
        a,
        vec![PlayerAction::ScheduleRetry { episode_id: 5, delay_ms: LOCAL_RETRY_FIRST_MS, generation: 0 }]
    );
    assert_eq!(retry_fired(&mut p, 5, 0), vec![PlayerAction::PlayEpisode { episode_id: 5 }]);
    let a = on_backend_error(&mut p, "bad".to_string());
    assert_eq!(
        a,
        vec![PlayerAction::ScheduleRetry { episode_id: 5, delay_ms: LOCAL_RETRY_SECOND_MS, generation: 0 }]
    );
    retry_fired(&mut p, 5, 0);
    let a = on_backend_error(&mut p, "final".to_string());
    assert!(a.is_empty());
    assert!(matches!(state(&p), Some(PlaybackState::Error(m)) if m == "final"));
}

#[test]
fn stream_error_surfaces_without_retry() {
    let mut p = Player::new();
    load_and_play(&mut p, 5, false);
    assert!(on_backend_error(&mut p, "net".to_string()).is_empty());
    assert!(matches!(state(&p), Some(PlaybackState::Error(_))));
}

#[test]
fn superseded_retry_never_fires() {
    let mut p = Player::new();
    load_and_play(&mut p, 5, true);
    on_backend_error(&mut p, "bad".to_string());
    halogen_ui_core::player::bump_generation(&mut p);
    assert!(retry_fired(&mut p, 5, 0).is_empty());
}

#[test]
fn loading_stall_surfaces_an_error() {
    let mut p = Player::new();
    load_and_play(&mut p, 5, false);
    let mut last = Vec::new();
    for _ in 0..LOADING_STALL_TICKS {
        last = tick_events(&mut p, vec![], false, false, None);
    }
    assert_eq!(last, vec![PlayerAction::BackendStop]);
    assert!(matches!(state(&p), Some(PlaybackState::Error(m)) if m == "Playback timed out — couldn't start this episode."));
}

#[test]
fn preparing_stall_and_transport_taps() {
    let mut p = Player::new();
    enter_preparing(&mut p, 8);
    assert!(toggle(&mut p).is_empty());
    assert!(play(&mut p).is_empty());
    assert!(pause(&mut p).is_empty());
    assert!(persist_cursor(&p).is_empty());
    assert!(matches!(state(&p), Some(PlaybackState::Preparing)));
    let mut acts = Vec::new();
    for _ in 0..PREPARING_STALL_TICKS {
        acts = tick_begin(&mut p).0;
    }
    assert_eq!(acts, vec![PlayerAction::BackendStop]);
    assert!(matches!(state(&p), Some(PlaybackState::Error(_))));
}

#[test]
fn toggle_matrix_and_resume_only_from_paused() {
    let mut p = playing(5);
    let acts = toggle(&mut p);
    assert_eq!(acts, vec![PlayerAction::BackendPause, PlayerAction::SetCursor { episode_id: 5 }]);
    assert!(matches!(state(&p), Some(PlaybackState::Paused)));
    assert_eq!(toggle(&mut p), vec![PlayerAction::BackendPlay]);
    assert!(resume(&mut p).is_empty());
    assert!(play(&mut p).is_empty(), "play from playing is a no-op, not a pause");
    tick_events(&mut p, vec![BackendEvent::Ended], false, false, None);
    assert_eq!(play(&mut p), vec![PlayerAction::RequestPlay { episode_id: 5 }]);
    assert!(persist_cursor(&p).is_empty());
}

#[test]
fn external_pause_and_resume_events_sync_state() {
    let mut p = playing(5);
    let acts = tick_events(&mut p, vec![BackendEvent::Paused], false, false, None);
    assert!(acts.contains(&PlayerAction::SetCursor { episode_id: 5 }));
    assert!(matches!(state(&p), Some(PlaybackState::Paused)));
    tick_events(&mut p, vec![BackendEvent::Playing], false, false, None);
    assert!(matches!(state(&p), Some(PlaybackState::Playing)));
    // A playing edge does not disturb a loading player.
    let mut q = Player::new();
    load_and_play(&mut q, 6, false);
    tick_events(&mut q, vec![BackendEvent::Playing], false, false, None);
    assert!(matches!(state(&q), Some(PlaybackState::Loading)));
}

#[test]
fn stop_clears_context_and_now_playing() {
    let mut p = playing(5);
    set_play_context(&mut p, Some(2));
    assert_eq!(play_context(&p), Some(2));
    let acts = stop(&mut p);
    assert_eq!(
        acts,
        vec![PlayerAction::SetCursor { episode_id: 5 }, PlayerAction::BackendStop, PlayerAction::DisableSleep]
    );
    assert_eq!(play_context(&p), None);
    assert_eq!(current_episode(&p), None);
}
