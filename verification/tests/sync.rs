use halogen_ui_core::sync::{
    bulk_info, bulk_success, check_scheme, check_server_url, download_lock_name, ensure_podcast,
    ensure_podcasts_batch, ensure_server_progress_poll, is_recent, plural, recently_pulled,
    HistoryFetch, HistoryPager, InFlight, InFlightSets, PlaybackOverlay, PlaybackRow, ToastLevel,
    UrlCheck, PULL_COALESCE_MS,
};
use halogen_ui_core::outbox::OutboxOp;
use halogen_ui_core::pool::EpisodePool;

#[test]
fn never_pulled_is_not_recent() {
    assert!(!is_recent(None, 10_000, 2_000));
}

#[test]
fn within_window_is_recent_boundary_exclusive() {
    assert!(is_recent(Some(9_000), 10_999, 2_000));
    assert!(is_recent(Some(9_000), 9_000, 2_000));
    assert!(!is_recent(Some(9_000), 11_000, 2_000));
    assert!(!is_recent(Some(9_000), 20_000, 2_000));
}

#[test]
fn backwards_clock_jump_is_not_recent() {
    assert!(!is_recent(Some(10_000), 9_999, 2_000));
    assert!(!is_recent(Some(10_000), 1_000, 2_000));
}

#[test]
fn recently_pulled_uses_the_coalesce_window() {
    assert_eq!(PULL_COALESCE_MS, 2_000);
    assert!(recently_pulled(Some(5_000), 6_999));
    assert!(!recently_pulled(Some(5_000), 7_000));
}

fn pb(episode_id: i32, cursor: u64) -> PlaybackRow {
    PlaybackRow {
        id: 0,
        user_id: 0,
        episode_id,
        cursor,
        completed: false,
        created_at: 0,
        updated_at: 0,
    }
}

#[test]
fn history_page_skips_rows_with_pending_playback_ops() {
    let mut overlay = PlaybackOverlay::new();
    let mut store: Vec<PlaybackRow> = Vec::new();
    let mut pending: Vec<(u64, OutboxOp)> = Vec::new();
    // Optimistic local cursor at 900 with its op queued.
    let row = overlay.set_playback_locally(5, Some(900), None, 1);
    store.push(row);
    pending.push((1, OutboxOp::SetCursor { episode_id: 5, cursor: 900 }));

    let merged = overlay.merge_history_page(vec![pb(5, 100), pb(6, 50)], &pending);
    for r in &merged {
        store.retain(|s| s.episode_id != r.episode_id);
        store.push(*r);
    }
    assert_eq!(overlay.playbacks.get(&5).map(|p| p.cursor), Some(900));
    assert_eq!(overlay.playbacks.get(&6).map(|p| p.cursor), Some(50));
    let cursor_of = |id: i32| store.iter().find(|p| p.episode_id == id).map(|p| p.cursor);
    assert_eq!(cursor_of(5), Some(900));
    assert_eq!(cursor_of(6), Some(50));

    // Once the op drains, the server row merges normally again.
    pending.clear();
    overlay.merge_history_page(vec![pb(5, 100)], &pending);
    assert_eq!(overlay.playbacks.get(&5).map(|p| p.cursor), Some(100));
}

#[test]
fn local_playback_row_is_created_then_updated() {
    let mut overlay = PlaybackOverlay::new();
    let r = overlay.set_playback_locally(3, Some(40), None, 100);
    assert_eq!(r, PlaybackRow { id: 0, user_id: 0, episode_id: 3, cursor: 40, completed: false, created_at: 100, updated_at: 100 });
    let r = overlay.set_playback_locally(3, None, Some(true), 200);
    assert_eq!(r.cursor, 40);
    assert!(r.completed);
    assert_eq!(r.created_at, 100);
    assert_eq!(r.updated_at, 200);
}

#[test]
fn mark_played_also_guards_history_rows() {
    let mut overlay = PlaybackOverlay::new();
    let pending = vec![(7u64, OutboxOp::MarkPlayed { episode_id: 2, played: true })];
    let merged = overlay.merge_history_page(vec![pb(2, 10), pb(3, 20)], &pending);
    assert_eq!(merged.len(), 1);
    assert_eq!(merged[0].episode_id, 3);
    assert!(overlay.playbacks.get(&2).is_none());
}

#[test]
fn history_pager_pages_until_short_page_or_failure() {
    let mut h = HistoryPager::new();
    assert_eq!(h.begin(false, true, true), None);
    assert_eq!(h.begin(false, false, false), None);
    let p = h.begin(false, false, true).unwrap();
    assert_eq!(p, 0);
    h.finish(p, 30, HistoryFetch::Fetched { rows: 30, pages: None });
    assert_eq!(h, HistoryPager { next_page: 1, has_more: true });
    h.finish(1, 30, HistoryFetch::Fetched { rows: 30, pages: Some(2) });
    assert_eq!(h, HistoryPager { next_page: 2, has_more: false });
    assert_eq!(h.begin(false, false, true), None);
    assert_eq!(h.begin(true, false, true), Some(0));
    h.finish(0, 30, HistoryFetch::Failed);
    assert!(!h.has_more);
    assert_eq!(h.next_page, 0);
}

#[test]
fn bulk_toasts_only_for_batches() {
    assert!(bulk_info(0).is_none());
    assert!(bulk_info(1).is_none());
    let t = bulk_info(3).unwrap();
    assert_eq!(t.level, ToastLevel::Info);
    assert_eq!(t.count, 3);
    assert_eq!(t.suffix, "s");
    assert_eq!(bulk_success(2).unwrap().level, ToastLevel::Success);
    assert!(bulk_success(1).is_none());
    assert_eq!(plural(1), "");
    assert_eq!(plural(0), "s");
}

#[test]
fn download_lock_name_is_scoped() {
    assert_eq!(download_lock_name("u7-00000000000000ab", 42), "halogen.download.u7-00000000000000ab.42");
    assert_eq!(download_lock_name("anon", -3), "halogen.download.anon.-3");
}

#[test]
fn server_url_scheme_must_be_allowed() {
    let allowed = vec!["http", "https"];
    assert_eq!(check_server_url("https://example.com", &allowed), UrlCheck::Accepted);
    assert_eq!(check_server_url("HTTP://example.com/x", &allowed), UrlCheck::Accepted);
    assert_eq!(check_server_url("ftp://example.com", &allowed), UrlCheck::DisallowedScheme);
    assert_eq!(check_server_url("not a url", &allowed), UrlCheck::Invalid);
    assert_eq!(check_scheme(Some("https".to_string()), &allowed), UrlCheck::Accepted);
    assert_eq!(check_scheme(Some("file".to_string()), &allowed), UrlCheck::DisallowedScheme);
    assert_eq!(check_scheme(None, &allowed), UrlCheck::Invalid);
}

#[test]
fn fetch_guards_dedupe_and_release() {
    let mut f = InFlightSets::new();
    assert!(!f.claim(InFlight::Podcasts, 1, true, true));
    assert!(!f.claim(InFlight::Podcasts, 1, false, false));
    assert!(!f.podcasts.contains(&1));
    assert!(f.claim(InFlight::Podcasts, 1, false, true));
    assert!(!f.claim(InFlight::Podcasts, 1, false, true));
    assert!(f.claim(InFlight::ServerPolls, 1, false, true));
    f.release(InFlight::Podcasts, 1);
    assert!(f.claim(InFlight::Podcasts, 1, false, true));
    assert!(ensure_server_progress_poll(&mut f, 9, false, true));
    assert!(!ensure_server_progress_poll(&mut f, 9, false, true));
}

#[test]
fn cached_or_inflight_podcasts_are_not_refetched() {
    let mut pool = EpisodePool::new();
    pool.podcasts_by_id.insert(1, halogen_ui_core::pool::PodcastRow { id: 1, title: "Cached".into(), podcast_config_id: None, podcast_config: None, created_at: 0, updated_at: 0 });
    let mut f = InFlightSets::new();
    assert!(!ensure_podcast(&pool, &mut f, 1, false, true));
    assert!(ensure_podcast(&pool, &mut f, 2, false, true));
    let fetch = ensure_podcasts_batch(&pool, &mut f, &vec![1, 2, 3, 4], false, true);
    assert_eq!(fetch, vec![3, 4]);
    assert!(f.podcasts.contains(&3) && f.podcasts.contains(&4));
    let none = ensure_podcasts_batch(&pool, &mut f, &vec![5], false, false);
    assert!(none.is_empty());
    assert!(!f.podcasts.contains(&5));
}
