use halogen_ui_core::paging::{
    fold_fetch, should_revalidate, PagedPool, RevalidateStep, PAGE_SIZE, REVALIDATE_TTL_MS,
};

#[test]
fn first_ever_visit_fetches() {
    assert!(should_revalidate(false, 0, None, 10_000));
}

#[test]
fn pull_to_refresh_always_fetches_even_when_fresh() {
    assert!(should_revalidate(true, 3, Some((3, 9_500)), 10_000));
}

#[test]
fn same_page_within_window_is_skipped_boundary_exclusive() {
    assert!(!should_revalidate(false, 3, Some((3, 1_000)), 1_000 + REVALIDATE_TTL_MS - 1));
    assert!(!should_revalidate(false, 3, Some((3, 1_000)), 1_000));
    assert!(should_revalidate(false, 3, Some((3, 1_000)), 1_000 + REVALIDATE_TTL_MS));
}

#[test]
fn a_different_page_always_fetches() {
    assert!(should_revalidate(false, 4, Some((3, 9_999)), 10_000));
}

#[test]
fn backwards_clock_does_not_wedge_a_fetch_off() {
    assert!(!should_revalidate(false, 3, Some((3, 10_000)), 1_000));
}

#[test]
fn fetch_folds_full_page_and_errors() {
    let r = fold_fetch(Ok(PAGE_SIZE as usize), true);
    assert!(r.has_more && r.error.is_none());
    let r = fold_fetch(Ok(3), true);
    assert!(!r.has_more && r.error.is_none());
    let r = fold_fetch(Err("boom".to_string()), true);
    assert!(!r.has_more);
    assert_eq!(r.error.as_deref(), Some("boom"));
    let r = fold_fetch(Err("boom".to_string()), false);
    assert!(r.error.is_none());
}

#[test]
fn pool_revalidates_pages_and_drops_stale_fetches() {
    let mut p = PagedPool::new();
    assert_eq!(p.visible, 30);
    let step = p.revalidate(1_000, true);
    assert_eq!(step, RevalidateStep::Fetch { page: 0, generation: 1 });
    assert!(p.loading);
    // A newer pass supersedes the first fetch.
    p.reset();
    let step2 = p.revalidate(1_100, true);
    assert_eq!(step2, RevalidateStep::Fetch { page: 0, generation: 2 });
    p.fetch_landed(0, 1, fold_fetch(Ok(0), true), 1_200);
    assert!(p.loading, "a stale fetch does not touch the bookkeeping");
    p.fetch_landed(0, 2, fold_fetch(Ok(30), true), 1_300);
    assert!(!p.loading && p.has_more && p.initial_settled);
    assert_eq!(p.last_revalidate, Some((0, 1_300)));
    // Same page within the window: served from the cache.
    assert_eq!(p.revalidate(2_000, true), RevalidateStep::Fresh);
    // Scrolling reveals more and advances the cursor.
    p.on_scroll(100);
    assert_eq!(p.visible, 60);
    assert_eq!(p.page, 1);
    // Offline: skip and stop paging.
    assert_eq!(p.revalidate(3_000, false), RevalidateStep::Skip);
    assert!(!p.has_more);
    // Nothing more to reveal: the window stays.
    p.on_scroll(60);
    assert_eq!(p.visible, 60);
}
