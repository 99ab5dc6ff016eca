//! The kind-aware session flows' own decisions: whom an embedded sign-in
//! authenticates as, the checks a new embedded user must pass, and what an
//! account switch or a sign-out does around the outside work (booting the
//! embedded server, logging in, persisting the registry), which the caller
//! performs; the session guard of the sync worker: which credentials it is
//! handed, and what an expired token leads to; and the retry policy of the
//! configuration load.

use vstd::prelude::*;
use vstd::utf8::{char_is_scalar, encode_scalar, encode_utf8};
use crate::embedded::has_credentials;
use crate::text::{int_dec, lowercase, push_int, to_lowercase, trim, trimmed};

verus! {

/// Identifies an account: its user id on its server, whether that server is
/// the embedded one, and which server it is (0 for the embedded server: one
/// per device).
#[derive(Clone, Copy, Debug, PartialEq, Eq, Structural)]
pub struct AccountKey {
    pub id: i32,
    pub embedded: bool,
    pub server: u64,
}

/// One registered account, as the session flows read it.
#[derive(Debug)]
pub struct StoredAccount {
    pub id: i32,
    pub username: String,
    pub needs_reauth: bool,
    pub embedded: bool,
    pub server: u64,
}

/// The key of a registered account.
pub open spec fn account_key(a: StoredAccount) -> AccountKey {
    AccountKey { id: a.id, embedded: a.embedded, server: a.server }
}

impl StoredAccount {
    /// This account's key.
    pub fn key(&self) -> (k: AccountKey)
        ensures
            k == account_key(*self),
    {
        AccountKey { id: self.id, embedded: self.embedded, server: self.server }
    }
}

/// An optional text, by its characters.
pub open spec fn opt_chars(o: Option<String>) -> Option<Seq<char>> {
    match o {
        Some(s) => Some(s@),
        None => None,
    }
}

/// The user name of the first registered account with this key.
pub open spec fn registered_name(users: Seq<StoredAccount>, key: AccountKey) -> Option<Seq<char>>
    decreases users.len(),
{
    if users.len() == 0 {
        None
    } else if account_key(users[0]) == key {
        Some(users[0].username@)
    } else {
        registered_name(users.drop_first(), key)
    }
}

/// The user name registered for `key` (the first such account's), if any.
pub fn registered_username(users: &Vec<StoredAccount>, key: AccountKey) -> (r: Option<String>)
    ensures
        opt_chars(r) == registered_name(users@, key),
{
    let n = users.len();
    let mut i: usize = 0;
    assert(users@.subrange(0, n as int) =~= users@);
    while i < n
        invariant
            n == users@.len(),
            i <= n,
            registered_name(users@, key) == registered_name(users@.subrange(i as int, n as int), key),
        decreases n - i,
    {
        let rest = Ghost(users@.subrange(i as int, n as int));
        assert(rest@[0] == users@[i as int]);
        assert(rest@.drop_first() =~= users@.subrange(i + 1, n as int));
        if users[i].key() == key {
            return Some(users[i].username.clone());
        }
        i = i + 1;
    }
    assert(users@.subrange(i as int, n as int).len() == 0);
    None
}

/// Whom an embedded (re)connect signs in as: the active account's own user
/// when an embedded account is active and registered; `None` sends a fresh
/// setup through the seeded admin.
pub open spec fn reconnect_name(active: Option<AccountKey>, users: Seq<StoredAccount>) -> Option<
    Seq<char>,
> {
    match active {
        Some(k) => if k.embedded {
            registered_name(users, k)
        } else {
            None
        },
        None => None,
    }
}

/// The user an embedded sign-in reconnects as. Reconnecting never swaps an
/// active embedded account for the seeded admin: whenever the active account
/// is embedded and registered, its own user name comes back.
pub fn reconnect_username(active: Option<AccountKey>, users: &Vec<StoredAccount>) -> (r: Option<
    String,
>)
    ensures
        opt_chars(r) == reconnect_name(active, users@),
{
    match active {
        Some(k) => if k.embedded {
            registered_username(users, k)
        } else {
            None
        },
        None => None,
    }
}

/// Error text when no embedded account is active.
pub open spec fn no_active_embedded_msg() -> Seq<char> {
    "No active embedded account"@
}

/// Error text when the active embedded account is not in the registry.
pub open spec fn active_missing_msg() -> Seq<char> {
    "Active embedded account missing from the registry"@
}

/// The user the silent re-login of the active embedded account signs in as:
/// that account's own user name, never the admin's.
pub fn relogin_username(active: Option<AccountKey>, users: &Vec<StoredAccount>) -> (r: Result<
    String,
    String,
>)
    ensures
        !(active matches Some(k) && k.embedded) ==> (r matches Err(e) && e@
            == no_active_embedded_msg()),
        (active matches Some(k) && k.embedded) ==> match registered_name(users@, active->0) {
            Some(name) => r matches Ok(s) && s@ == name,
            None => r matches Err(e) && e@ == active_missing_msg(),
        },
{
    match active {
        Some(k) => {
            if !k.embedded {
                return Err(String::from_str("No active embedded account"));
            }
            match registered_username(users, k) {
                Some(name) => Ok(name),
                None => Err(String::from_str("Active embedded account missing from the registry")),
            }
        },
        None => Err(String::from_str("No active embedded account")),
    }
}

/// Error text when a silent re-login signed in as another user than the
/// active account.
pub open spec fn relogin_mismatch_msg(signed_in: i32, active: i32) -> Seq<char> {
    "Embedded re-auth mismatch: signed in as user "@ + int_dec(signed_in as int)
        + " but the active account is "@ + int_dec(active as int)
}

/// After a silent re-login: the token is only good for the active account.
pub fn check_relogin_identity(signed_in: AccountKey, active: AccountKey) -> (r: Result<(), String>)
    ensures
        signed_in == active ==> r is Ok,
        signed_in != active ==> (r matches Err(e) && e@ == relogin_mismatch_msg(
            signed_in.id,
            active.id,
        )),
{
    if signed_in == active {
        Ok(())
    } else {
        let mut s = String::from_str("Embedded re-auth mismatch: signed in as user ");
        push_int(&mut s, signed_in.id as i64);
        s.append(" but the active account is ");
        push_int(&mut s, active.id as i64);
        Err(s)
    }
}

/// The name a new embedded user is created under: trimmed, then lowercased.
pub open spec fn new_user_name(username: Seq<char>) -> Seq<char> {
    lowercase(trimmed(username))
}

/// Whether a registered embedded account already uses this user name.
pub open spec fn embedded_name_taken(users: Seq<StoredAccount>, name: Seq<char>) -> bool {
    exists|i: int| 0 <= i < users.len() && users[i].embedded && #[trigger] users[i].username@ == name
}

/// Error text for a user name shorter than three bytes.
pub open spec fn too_short_msg() -> Seq<char> {
    "Username must be at least 3 characters"@
}

/// Error text for a user name that is already taken.
pub open spec fn name_taken_msg(name: Seq<char>) -> Seq<char> {
    "'"@ + name + "' already exists — switch to it instead"@
}

/// Error text when the creating session is not an embedded one.
pub open spec fn needs_embedded_session_msg() -> Seq<char> {
    "Adding embedded users requires an active embedded account"@
}

/// Whether the UTF-8 encoding of `s` is shorter than three bytes.
fn below_three_bytes(s: &str) -> (b: bool)
    ensures
        b == (encode_utf8(s@).len() < 3),
{
    let n = s.unicode_len();
    let mut sum: usize = 0;
    let mut i: usize = 0;
    assert(s@.subrange(0, n as int) =~= s@);
    while i < n
        invariant
            n == s@.len(),
            i <= n,
            sum < 3,
            sum + encode_utf8(s@.subrange(i as int, n as int)).len() == encode_utf8(s@).len(),
        decreases n - i,
    {
        let c = s.get_char(i);
        let v = c as u32;
        proof {
            char_is_scalar(c);
            let rest = s@.subrange(i as int, n as int);
            assert(rest[0] == c);
            assert(rest.drop_first() =~= s@.subrange(i + 1, n as int));
        }
        let w: usize = if v <= 0x7F {
            1
        } else if v <= 0x7FF {
            2
        } else if v <= 0xFFFF {
            3
        } else {
            4
        };
        assert(w == encode_scalar(c as u32).len());
        sum = sum + w;
        i = i + 1;
        if sum >= 3 {
            return false;
        }
    }
    true
}

/// Whether a registered embedded account already uses `name`.
fn embedded_name_registered(users: &Vec<StoredAccount>, name: &String) -> (b: bool)
    ensures
        b == embedded_name_taken(users@, name@),
{
    let n = users.len();
    let mut i: usize = 0;
    while i < n
        invariant
            n == users@.len(),
            i <= n,
            forall|j: int| 0 <= j < i ==> !(users@[j].embedded && users@[j].username@ == name@),
        decreases n - i,
    {
        if users[i].embedded && users[i].username == *name {
            assert(users@[i as int].username@ == name@);
            return true;
        }
        i = i + 1;
    }
    false
}

/// The local checks before creating an embedded user, in the order they
/// run: the normalized name must be at least three bytes long, must not
/// belong to stored credentials or to a registered embedded account, and the
/// creating session must be an embedded one. On success, the name to create.
pub fn check_new_user(username: &str, users: &Vec<StoredAccount>, active_is_embedded: bool) -> (r:
    Result<String, String>)
    ensures
        encode_utf8(new_user_name(username@)).len() < 3 ==> (r matches Err(e) && e@
            == too_short_msg()),
        encode_utf8(new_user_name(username@)).len() >= 3 && embedded_name_taken(
            users@,
            new_user_name(username@),
        ) ==> (r matches Err(e) && e@ == name_taken_msg(new_user_name(username@))),
        encode_utf8(new_user_name(username@)).len() >= 3 && !embedded_name_taken(
            users@,
            new_user_name(username@),
        ) && !active_is_embedded ==> (r matches Err(e) && e@ == needs_embedded_session_msg()),
        encode_utf8(new_user_name(username@)).len() >= 3 && !embedded_name_taken(
            users@,
            new_user_name(username@),
        ) && active_is_embedded ==> (r matches Ok(s) && s@ == new_user_name(username@)),
{
    let name = to_lowercase(trim(username));
    if below_three_bytes(name.as_str()) {
        return Err(String::from_str("Username must be at least 3 characters"));
    }
    if has_credentials(name.as_str()) || embedded_name_registered(users, &name) {
        let mut s = String::from_str("'");
        s.append(name.as_str());
        s.append("' already exists — switch to it instead");
        return Err(s);
    }
    if !active_is_embedded {
        return Err(String::from_str("Adding embedded users requires an active embedded account"));
    }
    Ok(name)
}

/// What an account switch does first.
#[derive(Debug)]
pub enum SwitchStep {
    /// The target is already active: nothing happens.
    AlreadyActive,
    /// The embedded target is no longer registered: show this message.
    Unregistered(String),
    /// Boot the embedded server and sign in as this user.
    SignInEmbedded(String),
    /// Take the ordinary refresh path for a remote target; `was_embedded`
    /// records whether the account switched away from was embedded.
    Remote { was_embedded: bool },
}

/// The message shown when the embedded switch target is gone.
pub open spec fn unregistered_msg() -> Seq<char> {
    "That account is no longer registered."@
}

/// The first step of a kind-aware switch to `target`.
pub fn switch_step(active: Option<AccountKey>, target: AccountKey, users: &Vec<StoredAccount>) -> (s:
    SwitchStep)
    ensures
        active == Some(target) ==> s is AlreadyActive,
        active != Some(target) && target.embedded ==> match registered_name(users@, target) {
            Some(name) => s matches SwitchStep::SignInEmbedded(u) && u@ == name,
            None => s matches SwitchStep::Unregistered(m) && m@ == unregistered_msg(),
        },
        active != Some(target) && !target.embedded ==> (s matches SwitchStep::Remote { was_embedded }
            && was_embedded == (active matches Some(k) && k.embedded)),
{
    let same = match active {
        Some(k) => k == target,
        None => false,
    };
    if same {
        return SwitchStep::AlreadyActive;
    }
    if target.embedded {
        match registered_username(users, target) {
            Some(name) => SwitchStep::SignInEmbedded(name),
            None => SwitchStep::Unregistered(String::from_str("That account is no longer registered.")),
        }
    } else {
        let was_embedded = match active {
            Some(k) => k.embedded,
            None => false,
        };
        SwitchStep::Remote { was_embedded }
    }
}

/// Error text when an embedded switch signed in as another user than the
/// selected one.
pub open spec fn switch_mismatch_msg(signed_in: i32, target: i32) -> Seq<char> {
    "Signed in as a different user (id "@ + int_dec(signed_in as int)
        + ") than the selected account (id "@ + int_dec(target as int) + ")"@
}

/// After the embedded sign-in of a switch: only the selected account may be
/// activated.
pub fn check_switch_identity(signed_in: AccountKey, target: AccountKey) -> (r: Result<(), String>)
    ensures
        signed_in == target ==> r is Ok,
        signed_in != target ==> (r matches Err(e) && e@ == switch_mismatch_msg(
            signed_in.id,
            target.id,
        )),
{
    if signed_in == target {
        Ok(())
    } else {
        let mut s = String::from_str("Signed in as a different user (id ");
        push_int(&mut s, signed_in.id as i64);
        s.append(") than the selected account (id ");
        push_int(&mut s, target.id as i64);
        s.append(")");
        Err(s)
    }
}

/// After the remote path of a switch: the in-process server is freed once
/// the switch away from an embedded account took effect.
pub fn stop_embedded_after_switch(
    was_embedded: bool,
    active_after: Option<AccountKey>,
    target: AccountKey,
) -> (b: bool)
    ensures
        b == (was_embedded && active_after == Some(target)),
{
    was_embedded && match active_after {
        Some(k) => k == target,
        None => false,
    }
}

/// After a sign-out: the in-process server is freed when the signed-out
/// account was embedded and no embedded account is active any more. The
/// library itself is never touched.
pub fn stop_embedded_after_sign_out(target: AccountKey, active_after: Option<AccountKey>) -> (b:
    bool)
    ensures
        b == (target.embedded && !(active_after matches Some(k) && k.embedded)),
{
    let still_embedded = match active_after {
        Some(k) => k.embedded,
        None => false,
    };
    target.embedded && !still_embedded
}

/// The credentials the worker is handed: only once the server is set up and
/// both its URL and a token are known.
pub fn auth_to_send(server_setup: bool, server_url: Option<String>, access_token: Option<String>) -> (r:
    Option<(String, String)>)
    ensures
        match r {
            Some((url, token)) => server_setup && server_url == Some(url) && access_token == Some(
                token,
            ),
            None => !server_setup || server_url is None || access_token is None,
        },
{
    if !server_setup {
        return None;
    }
    match (server_url, access_token) {
        (Some(url), Some(token)) => Some((url, token)),
        _ => None,
    }
}

/// How many silent re-logins one mount of the session tries before an
/// expired embedded session falls back to the signed-out state.
pub const MAX_SILENT_RELOGINS: u8 = 3;

/// What the session's auth-expired effect sees.
#[derive(Clone, Copy, Debug, PartialEq, Eq, Structural)]
pub struct ExpiryEvent {
    /// The worker reported a rejected token.
    pub auth_expired: bool,
    /// The active configuration still holds a token.
    pub has_token: bool,
    /// The active session is on the embedded server.
    pub embedded_session: bool,
    /// This build can run the embedded server.
    pub embedded_available: bool,
}

/// What to do about an expired token.
#[derive(Clone, Copy, Debug, PartialEq, Eq, Structural)]
pub enum ExpiryAction {
    /// Nothing (no expiry, or the token was already cleared).
    Nothing,
    /// Sign the worker out (keeping the local cache) and sign the active
    /// embedded user back in silently; its fresh token re-arms the worker.
    SilentRelogin,
    /// Clear the token, save the configuration and sign the worker out.
    SignOut,
}

/// Whether an expiry event leads to a silent re-login after `attempts` of
/// them.
pub open spec fn relogin_due(attempts: u8, ev: ExpiryEvent) -> bool {
    ev.auth_expired && ev.has_token && ev.embedded_session && ev.embedded_available && attempts
        < MAX_SILENT_RELOGINS
}

/// The action for an expiry event after `attempts` silent re-logins.
pub open spec fn expiry_action(attempts: u8, ev: ExpiryEvent) -> ExpiryAction {
    if !(ev.auth_expired && ev.has_token) {
        ExpiryAction::Nothing
    } else if relogin_due(attempts, ev) {
        ExpiryAction::SilentRelogin
    } else {
        ExpiryAction::SignOut
    }
}

/// The silent re-logins counted after an expiry event.
pub open spec fn attempts_after(attempts: u8, ev: ExpiryEvent) -> u8 {
    if relogin_due(attempts, ev) {
        (attempts + 1) as u8
    } else {
        attempts
    }
}

/// The silent re-logins a run of expiry events leads to.
pub open spec fn relogins_in(attempts: u8, evs: Seq<ExpiryEvent>) -> nat
    decreases evs.len(),
{
    if evs.len() == 0 {
        0
    } else {
        (if relogin_due(attempts, evs[0]) {
            1nat
        } else {
            0nat
        }) + relogins_in(attempts_after(attempts, evs[0]), evs.drop_first())
    }
}

/// The session guard against an endless boot-and-login loop when a server
/// keeps minting tokens that the worker then rejects.
#[derive(Clone, Copy, Debug, PartialEq, Eq, Structural)]
pub struct ExpiryGuard {
    pub relogin_attempts: u8,
}

impl ExpiryGuard {
    /// A fresh mount: no silent re-login tried yet.
    pub fn new() -> (g: ExpiryGuard)
        ensures
            g.relogin_attempts == 0,
    {
        ExpiryGuard { relogin_attempts: 0 }
    }

    /// The auth-expired effect ran. Acts only while a token is left to clear;
    /// an embedded session re-authenticates silently a bounded number of
    /// times, everything else is signed out.
    pub fn on_auth_expired(&mut self, ev: ExpiryEvent) -> (a: ExpiryAction)
        ensures
            a == expiry_action(old(self).relogin_attempts, ev),
            final(self).relogin_attempts == attempts_after(old(self).relogin_attempts, ev),
    {
        if !(ev.auth_expired && ev.has_token) {
            return ExpiryAction::Nothing;
        }
        if ev.embedded_session && ev.embedded_available && self.relogin_attempts
            < MAX_SILENT_RELOGINS {
            self.relogin_attempts = self.relogin_attempts + 1;
            return ExpiryAction::SilentRelogin;
        }
        ExpiryAction::SignOut
    }
}

/// The token a silent re-login leaves in the configuration: the fresh one,
/// or none when the re-login failed (the session then shows as signed out).
pub fn token_after_relogin(outcome: Result<String, String>) -> (t: Option<String>)
    ensures
        match outcome {
            Ok(token) => t == Some(token),
            Err(_) => t is None,
        },
{
    match outcome {
        Ok(token) => Some(token),
        Err(_) => None,
    }
}

/// Whatever the worker reports, one mount of the session tries at most
/// [`MAX_SILENT_RELOGINS`] silent re-logins in all.
pub proof fn lemma_silent_relogins_bounded(attempts: u8, evs: Seq<ExpiryEvent>)
    requires
        attempts <= MAX_SILENT_RELOGINS,
    ensures
        relogins_in(attempts, evs) + attempts <= MAX_SILENT_RELOGINS,
    decreases evs.len(),
{
    if evs.len() > 0 {
        lemma_silent_relogins_bounded(attempts_after(attempts, evs[0]), evs.drop_first());
    }
}

/// How many times a failed configuration load is retried before the
/// session runs on defaults.
pub const CONFIG_LOAD_RETRIES: u32 = 4;

/// The pause before each retry of a failed configuration load.
pub const CONFIG_LOAD_RETRY_DELAY_MS: u32 = 2000;

/// What follows a failed configuration load.
#[derive(Clone, Copy, Debug, PartialEq, Eq, Structural)]
pub enum ConfigLoadStep {
    /// Wait this many milliseconds, then load again.
    RetryAfter(u32),
    /// Give up: run on the defaults, with saving refused for the session (a
    /// save of the defaults would overwrite the real configuration).
    RunDegraded,
}

/// The configuration load failed (a backend fault, not an absent
/// configuration, which loads as the defaults); `attempt` counts the retries
/// made so far.
pub fn config_load_failed(attempt: &mut u32) -> (step: ConfigLoadStep)
    ensures
        *old(attempt) < CONFIG_LOAD_RETRIES ==> step == ConfigLoadStep::RetryAfter(
            CONFIG_LOAD_RETRY_DELAY_MS,
        ) && *final(attempt) == *old(attempt) + 1,
        *old(attempt) >= CONFIG_LOAD_RETRIES ==> step == ConfigLoadStep::RunDegraded
            && *final(attempt) == *old(attempt),
{
    if *attempt < CONFIG_LOAD_RETRIES {
        *attempt = *attempt + 1;
        ConfigLoadStep::RetryAfter(CONFIG_LOAD_RETRY_DELAY_MS)
    } else {
        ConfigLoadStep::RunDegraded
    }
}

/// A silent re-login and a reconnect of the active embedded account sign in
/// as the same user.
pub proof fn lemma_relogin_agrees_with_reconnect(
    active: Option<AccountKey>,
    users: Seq<StoredAccount>,
)
    requires
        active matches Some(k) && k.embedded,
    ensures
        reconnect_name(active, users) == registered_name(users, active->0),
{
}

/// The registered user name for a key belongs to an account with that key.
pub proof fn lemma_registered_name_has_key(users: Seq<StoredAccount>, key: AccountKey)
    ensures
        registered_name(users, key) matches Some(name) ==> exists|i: int|
            0 <= i < users.len() && account_key(users[i]) == key && #[trigger] users[i].username@
                == name,
    decreases users.len(),
{
    if users.len() > 0 && account_key(users[0]) != key {
        lemma_registered_name_has_key(users.drop_first(), key);
        if let Some(name) = registered_name(users, key) {
            let i = choose|i: int|
                0 <= i < users.drop_first().len() && account_key(users.drop_first()[i]) == key
                    && #[trigger] users.drop_first()[i].username@ == name;
            assert(users[i + 1] == users.drop_first()[i]);
        }
    }
}

} // verus!
