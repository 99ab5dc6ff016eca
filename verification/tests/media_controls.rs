use halogen_ui_core::media_controls::{media_command, MediaPrefs, MediaSessionGen, TransportCommand};

fn prefs(next_prev_seek: bool) -> MediaPrefs {
    MediaPrefs { skip_forward: 30, skip_backward: 15, next_prev_seek }
}

#[test]
fn play_pause_and_skips_map_to_player_commands() {
    let p = prefs(false);
    assert_eq!(media_command("play", p), Some(TransportCommand::Play));
    assert_eq!(media_command("pause", p), Some(TransportCommand::Pause));
    assert_eq!(media_command("seekforward", p), Some(TransportCommand::SeekBy(30)));
    assert_eq!(media_command("seekbackward", p), Some(TransportCommand::SeekBy(-15)));
}

#[test]
fn track_buttons_navigate_unless_remapped_to_skips() {
    let nav = prefs(false);
    assert_eq!(media_command("nexttrack", nav), Some(TransportCommand::NextEpisode));
    assert_eq!(media_command("previoustrack", nav), Some(TransportCommand::PreviousEpisode));
    let seek = prefs(true);
    assert_eq!(media_command("nexttrack", seek), Some(TransportCommand::SeekBy(30)));
    assert_eq!(media_command("previoustrack", seek), Some(TransportCommand::SeekBy(-15)));
}

#[test]
fn unknown_media_actions_do_nothing() {
    assert_eq!(media_command("stop", prefs(false)), None);
    assert_eq!(media_command("", prefs(true)), None);
    assert_eq!(media_command("Play", prefs(false)), None);
}

#[test]
fn a_newer_registration_supersedes_the_older() {
    let mut s = MediaSessionGen::new();
    let first = s.register();
    assert!(s.is_current(first));
    let second = s.register();
    assert_eq!(second, first + 1);
    assert!(!s.is_current(first));
    assert!(s.is_current(second));
}

#[test]
fn registration_generation_wraps() {
    let mut s = MediaSessionGen { current: u64::MAX };
    assert_eq!(s.register(), 0);
    assert!(s.is_current(0));
    assert!(!s.is_current(u64::MAX));
}
