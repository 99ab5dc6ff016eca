use halogen_ui_core::deep_link::{deep_link_placeholder, DeepLinkFetch};
use halogen_ui_core::media::{LocalAudio, PartialInfo};
use halogen_ui_core::player::{NoopPlayerBackend, PlayingIdentity, NowCore, PlaybackState};
use halogen_ui_core::embedded::{generate_credentials, available};
use halogen_ui_core::level::Level;
use halogen_ui_core::text::{clamp_chars, trim};

#[test]
fn level_names_roundtrip_and_default() {
    for l in Level::all() {
        assert_eq!(Level::from_str_or_default(l.as_str()), l);
    }
    assert_eq!(Level::from_str_or_default("nonsense"), Level::Info);
    assert_eq!(Level::Warn.as_str(), "Warn");
    assert_eq!(Level::all().len(), 5);
}

#[test]
fn clamp_chars_counts_characters() {
    assert_eq!(clamp_chars("héllo", 2), "hé");
    assert_eq!(clamp_chars("abc", 10), "abc");
    assert_eq!(clamp_chars("abc", 0), "");
}

#[test]
fn embedded_stub_generates_lowercase_credentials() {
    assert!(!available());
    let c = generate_credentials("Alice");
    assert_eq!(c.username, "alice");
}

#[test]
fn deep_link_placeholders() {
    assert_eq!(deep_link_placeholder(false, true, "podcast"), "Loading podcast…");
    assert_eq!(
        deep_link_placeholder(true, true, "episode"),
        "You're offline — this episode hasn't been synced to this device yet."
    );
    assert_eq!(deep_link_placeholder(true, false, "playlist"), "Playlist not found.");
    assert_eq!(deep_link_placeholder(true, false, "ßeta"), "SSeta not found.");
    assert_eq!(deep_link_placeholder(true, false, ""), " not found.");
}

#[test]
fn media_types_clone_and_handle() {
    let a = LocalAudio { url: "blob:1".into(), content_type: Some("audio/mpeg".into()) };
    let b = a.clone();
    assert_eq!(b.url, "blob:1");
    let p = PartialInfo { downloaded: 10, total: Some(20), content_type: None };
    assert_eq!(p.clone().total, Some(20));
    let mut noop = NoopPlayerBackend;
    assert!(noop.poll_events().is_empty());
    let id = PlayingIdentity::from_now(&NowCore { episode_id: 3, state: PlaybackState::Paused, buffering: false });
    assert_eq!(id.episode_id, 3);
    assert!(matches!(id.state, PlaybackState::Paused));
}

#[test]
fn deep_link_fetch_runs_one_load_at_a_time() {
    let mut f = DeepLinkFetch::new();
    // Present: nothing to fetch.
    assert!(!f.on_effect(true));
    assert_eq!(f, DeepLinkFetch { load_failed: false, in_flight: false });
    // A miss starts a load; a burst of publishes before it resolves starts no other.
    assert!(f.on_effect(false));
    assert!(!f.on_effect(false));
    assert!(!f.on_effect(false));
    assert_eq!(f, DeepLinkFetch { load_failed: false, in_flight: true });
    f.on_done(true);
    assert_eq!(f, DeepLinkFetch { load_failed: true, in_flight: false });
    // The retry clears the stale failure while it runs.
    assert!(f.on_effect(false));
    assert_eq!(f, DeepLinkFetch { load_failed: false, in_flight: true });
    f.on_done(false);
    assert!(!f.on_effect(true));
    assert_eq!(f, DeepLinkFetch { load_failed: false, in_flight: false });
}

#[test]
fn trim_strips_unicode_whitespace_like_std() {
    let cases = [
        "  hi  ",
        "\u{3000}\t name\n\u{2029}",
        "\u{200B}x\u{200B}",
        "\u{85}\u{A0}\u{1680}a b\u{2000}\u{200A}\u{202F}\u{205F}",
        "",
        " \t\r\n\u{B}\u{C} ",
        "no-space",
    ];
    for c in cases {
        assert_eq!(trim(c), c.trim(), "case {c:?}");
    }
    assert_eq!(trim("  a b  "), "a b");
}
