use halogen_ui_core::session::{
    auth_to_send, config_load_failed, ConfigLoadStep, token_after_relogin, ExpiryAction, ExpiryEvent, ExpiryGuard,
    MAX_SILENT_RELOGINS, check_new_user, check_relogin_identity, check_switch_identity, reconnect_username,
    registered_username, relogin_username, stop_embedded_after_sign_out,
    stop_embedded_after_switch, switch_step, AccountKey, StoredAccount, SwitchStep,
};

fn embedded_key(id: i32) -> AccountKey {
    AccountKey { id, embedded: true, server: 0 }
}

fn remote_key(id: i32, server: u64) -> AccountKey {
    AccountKey { id, embedded: false, server }
}

fn account(key: AccountKey, username: &str) -> StoredAccount {
    StoredAccount {
        id: key.id,
        username: username.to_string(),
        needs_reauth: false,
        embedded: key.embedded,
        server: key.server,
    }
}

fn registry() -> Vec<StoredAccount> {
    vec![
        account(embedded_key(1), "local"),
        account(embedded_key(2), "alice"),
        account(remote_key(2, 77), "bob"),
    ]
}

#[test]
fn registered_username_matches_the_whole_key() {
    let users = registry();
    assert_eq!(registered_username(&users, embedded_key(2)).as_deref(), Some("alice"));
    assert_eq!(registered_username(&users, remote_key(2, 77)).as_deref(), Some("bob"));
    assert_eq!(registered_username(&users, remote_key(2, 78)), None);
    assert_eq!(registered_username(&users, embedded_key(9)), None);
}

#[test]
fn registered_username_takes_the_first_entry() {
    let mut users = registry();
    users.push(account(embedded_key(2), "shadow"));
    assert_eq!(registered_username(&users, embedded_key(2)).as_deref(), Some("alice"));
}

#[test]
fn reconnect_signs_in_as_the_active_embedded_user() {
    let users = registry();
    assert_eq!(reconnect_username(Some(embedded_key(2)), &users).as_deref(), Some("alice"));
    // A remote account or no account at all: fresh setup through the admin.
    assert_eq!(reconnect_username(Some(remote_key(2, 77)), &users), None);
    assert_eq!(reconnect_username(None, &users), None);
    // An active embedded account that is no longer registered.
    assert_eq!(reconnect_username(Some(embedded_key(5)), &users), None);
}

#[test]
fn relogin_uses_the_active_accounts_own_name() {
    let users = registry();
    assert_eq!(relogin_username(Some(embedded_key(2)), &users), Ok("alice".to_string()));
    assert_eq!(
        relogin_username(None, &users),
        Err("No active embedded account".to_string())
    );
    assert_eq!(
        relogin_username(Some(remote_key(2, 77)), &users),
        Err("No active embedded account".to_string())
    );
    assert_eq!(
        relogin_username(Some(embedded_key(5)), &users),
        Err("Active embedded account missing from the registry".to_string())
    );
}

#[test]
fn relogin_identity_mismatch_is_reported() {
    assert_eq!(check_relogin_identity(embedded_key(2), embedded_key(2)), Ok(()));
    assert_eq!(
        check_relogin_identity(embedded_key(1), embedded_key(2)),
        Err("Embedded re-auth mismatch: signed in as user 1 but the active account is 2".to_string())
    );
}

#[test]
fn new_user_name_is_trimmed_and_lowercased() {
    let users = registry();
    assert_eq!(check_new_user("  Carol ", &users, true), Ok("carol".to_string()));
}

#[test]
fn new_user_name_needs_three_bytes() {
    let users = registry();
    let short = Err("Username must be at least 3 characters".to_string());
    assert_eq!(check_new_user("ab", &users, true), short);
    assert_eq!(check_new_user("   x  ", &users, true), short);
    assert_eq!(check_new_user("", &users, true), short);
    // One two-byte character is too short; two of them are long enough.
    assert_eq!(check_new_user("é", &users, true), short);
    assert_eq!(check_new_user("éé", &users, true), Ok("éé".to_string()));
    assert_eq!(check_new_user("abc", &users, true), Ok("abc".to_string()));
}

#[test]
fn new_user_name_must_be_free_among_embedded_accounts() {
    let users = registry();
    assert_eq!(
        check_new_user("Alice", &users, true),
        Err("'alice' already exists — switch to it instead".to_string())
    );
    // A remote account of the same name does not block an embedded user.
    assert_eq!(check_new_user("bob", &users, true), Ok("bob".to_string()));
}

#[test]
fn new_user_needs_an_embedded_session() {
    let users = registry();
    assert_eq!(
        check_new_user("carol", &users, false),
        Err("Adding embedded users requires an active embedded account".to_string())
    );
    // The name checks come first.
    assert_eq!(
        check_new_user("al", &users, false),
        Err("Username must be at least 3 characters".to_string())
    );
}

#[test]
fn switch_to_the_active_account_does_nothing() {
    let users = registry();
    assert!(matches!(
        switch_step(Some(embedded_key(2)), embedded_key(2), &users),
        SwitchStep::AlreadyActive
    ));
    assert!(matches!(
        switch_step(Some(remote_key(2, 77)), remote_key(2, 77), &users),
        SwitchStep::AlreadyActive
    ));
}

#[test]
fn switch_to_an_embedded_account_signs_in_as_its_user() {
    let users = registry();
    match switch_step(Some(remote_key(2, 77)), embedded_key(2), &users) {
        SwitchStep::SignInEmbedded(name) => assert_eq!(name, "alice"),
        other => panic!("unexpected step {other:?}"),
    }
    match switch_step(None, embedded_key(8), &users) {
        SwitchStep::Unregistered(msg) => assert_eq!(msg, "That account is no longer registered."),
        other => panic!("unexpected step {other:?}"),
    }
}

#[test]
fn switch_to_a_remote_account_records_the_kind_left() {
    let users = registry();
    assert!(matches!(
        switch_step(Some(embedded_key(1)), remote_key(2, 77), &users),
        SwitchStep::Remote { was_embedded: true }
    ));
    assert!(matches!(
        switch_step(Some(remote_key(3, 77)), remote_key(2, 77), &users),
        SwitchStep::Remote { was_embedded: false }
    ));
    assert!(matches!(
        switch_step(None, remote_key(2, 77), &users),
        SwitchStep::Remote { was_embedded: false }
    ));
}

#[test]
fn switch_identity_mismatch_is_reported() {
    assert_eq!(check_switch_identity(embedded_key(4), embedded_key(4)), Ok(()));
    assert_eq!(
        check_switch_identity(embedded_key(-3), embedded_key(4)),
        Err("Signed in as a different user (id -3) than the selected account (id 4)".to_string())
    );
}

#[test]
fn embedded_server_stops_once_no_embedded_account_is_active() {
    let target = remote_key(2, 77);
    assert!(stop_embedded_after_switch(true, Some(target), target));
    assert!(!stop_embedded_after_switch(true, Some(embedded_key(1)), target));
    assert!(!stop_embedded_after_switch(false, Some(target), target));
    assert!(!stop_embedded_after_switch(true, None, target));

    assert!(stop_embedded_after_sign_out(embedded_key(1), None));
    assert!(stop_embedded_after_sign_out(embedded_key(1), Some(remote_key(2, 77))));
    assert!(!stop_embedded_after_sign_out(embedded_key(1), Some(embedded_key(2))));
    assert!(!stop_embedded_after_sign_out(remote_key(2, 77), None));
}

#[test]
fn worker_gets_credentials_only_for_a_set_up_server() {
    let url = Some("https://pods.example".to_string());
    let token = Some("t0k".to_string());
    assert_eq!(
        auth_to_send(true, url.clone(), token.clone()),
        Some(("https://pods.example".to_string(), "t0k".to_string()))
    );
    assert_eq!(auth_to_send(false, url.clone(), token.clone()), None);
    assert_eq!(auth_to_send(true, None, token), None);
    assert_eq!(auth_to_send(true, url, None), None);
}

fn expired(embedded_session: bool) -> ExpiryEvent {
    ExpiryEvent { auth_expired: true, has_token: true, embedded_session, embedded_available: true }
}

#[test]
fn expired_embedded_session_relogs_in_a_bounded_number_of_times() {
    let mut g = ExpiryGuard::new();
    for _ in 0..MAX_SILENT_RELOGINS {
        assert_eq!(g.on_auth_expired(expired(true)), ExpiryAction::SilentRelogin);
    }
    assert_eq!(g.relogin_attempts, 3);
    // The fourth rejection falls back to the signed-out state.
    assert_eq!(g.on_auth_expired(expired(true)), ExpiryAction::SignOut);
    assert_eq!(g.on_auth_expired(expired(true)), ExpiryAction::SignOut);
    assert_eq!(g.relogin_attempts, 3);
}

#[test]
fn expired_remote_session_signs_out() {
    let mut g = ExpiryGuard::new();
    assert_eq!(g.on_auth_expired(expired(false)), ExpiryAction::SignOut);
    let unavailable = ExpiryEvent { embedded_available: false, ..expired(true) };
    assert_eq!(g.on_auth_expired(unavailable), ExpiryAction::SignOut);
    assert_eq!(g.relogin_attempts, 0);
}

#[test]
fn expiry_acts_only_while_a_token_is_left() {
    let mut g = ExpiryGuard::new();
    let cleared = ExpiryEvent { has_token: false, ..expired(true) };
    assert_eq!(g.on_auth_expired(cleared), ExpiryAction::Nothing);
    let fine = ExpiryEvent { auth_expired: false, ..expired(true) };
    assert_eq!(g.on_auth_expired(fine), ExpiryAction::Nothing);
    assert_eq!(g, ExpiryGuard { relogin_attempts: 0 });
}

#[test]
fn failed_relogin_clears_the_token() {
    assert_eq!(token_after_relogin(Ok("fresh".to_string())), Some("fresh".to_string()));
    assert_eq!(token_after_relogin(Err("boom".to_string())), None);
}

#[test]
fn config_load_is_retried_four_times_then_runs_degraded() {
    let mut attempt = 0u32;
    for n in 1..=4u32 {
        assert_eq!(config_load_failed(&mut attempt), ConfigLoadStep::RetryAfter(2000));
        assert_eq!(attempt, n);
    }
    assert_eq!(config_load_failed(&mut attempt), ConfigLoadStep::RunDegraded);
    assert_eq!(attempt, 4);
}
