use halogen_ui_core::namespace::{is_account_segment, segment_for, set_active, active, active_embedded, segment, Namespace};

#[test]
fn segments_partition_by_kind_and_server() {
    assert_eq!(segment_for(Some(7), false, 0xab), "u7-00000000000000ab");
    assert_eq!(segment_for(Some(7), true, 0), "e7");
    assert_eq!(segment_for(None, false, 0), "anon");
    assert_eq!(segment_for(None, true, 0), "anon");
    assert_ne!(
        segment_for(Some(1), false, 0x11),
        segment_for(Some(1), false, 0x22),
    );
}

#[test]
fn is_account_segment_matches_every_shape_segment_for_produces() {
    for seg in [
        segment_for(None, false, 0),
        segment_for(Some(1), true, 0),
        segment_for(Some(731), true, 0),
        segment_for(Some(1), false, 0),
        segment_for(Some(7), false, 0xab),
        segment_for(Some(42), false, u64::MAX),
    ] {
        assert!(is_account_segment(&seg), "unrecognized segment {seg}");
    }
    assert!(is_account_segment("u3"));
}

#[test]
fn is_account_segment_rejects_non_segments() {
    for name in [
        "",
        "u",
        "e",
        "u-",
        "server",
        "webview",
        "audio",
        "device.log",
        "ux1",
        "u1-",
        "u1-xyz",
        "u1-00000000000000ab-extra",
        "u1-00000000000000",
        "e1-00000000000000ab",
        "anonx",
    ] {
        assert!(!is_account_segment(name), "false positive on {name}");
    }
}

#[test]
fn active_segment_follows_set_active() {
    let mut ns = Namespace::new();
    assert_eq!(active(&ns), None);
    assert_eq!(segment(&ns), "anon");
    set_active(&mut ns, Some(7), false, 0xab);
    assert_eq!(active(&ns), Some(7));
    assert!(!active_embedded(&ns));
    assert_eq!(segment(&ns), "u7-00000000000000ab");
    set_active(&mut ns, Some(7), true, 0);
    assert!(active_embedded(&ns));
    assert_eq!(segment(&ns), "e7");
    set_active(&mut ns, None, false, 0);
    assert_eq!(active(&ns), None);
    assert_eq!(segment(&ns), "anon");
}

#[test]
fn negative_ids_are_not_recognized_segments() {
    assert_eq!(segment_for(Some(-5), true, 0), "e-5");
    assert!(!is_account_segment(&segment_for(Some(-5), true, 0)));
}
