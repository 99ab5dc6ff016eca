//! The UI-facing facade over the embedded (in-process) server, in the build
//! without it: `available()` is false and every operation reports that the
//! embedded server is unavailable, so callers need no build-specific code.

use vstd::prelude::*;
use crate::text::{lowercase, to_lowercase};

verus! {

/// Where the embedded server is in its lifecycle.
#[derive(Debug)]
pub enum EmbeddedState {
    /// This build has no embedded server.
    Unavailable,
    Stopped,
    Starting { port: u16 },
    Running { port: u16 },
    Failed { error: String },
}

/// The provisioned local user's credentials (silent login only).
#[derive(Debug)]
pub struct EmbeddedCredentials {
    pub username: String,
    pub password: String,
}

/// The message every operation fails with in this build.
pub open spec fn unavailable_msg() -> Seq<char> {
    "Embedded server is not available in this build"@
}

/// The unavailable error.
fn unavailable() -> (r: String)
    ensures
        r@ == unavailable_msg(),
{
    String::from_str("Embedded server is not available in this build")
}

/// Whether this build has an embedded server: never.
pub fn available() -> (b: bool)
    ensures
        !b,
{
    false
}

/// Whether an embedded library exists on this device: never in this build.
pub fn library_exists() -> (b: bool)
    ensures
        !b,
{
    false
}

/// Register the config-load resolver: nothing to register in this build.
pub fn install() {
}

/// Boot the server: always fails in this build.
pub fn ensure_started() -> (r: Result<String, String>)
    ensures
        r matches Err(e) && e@ == unavailable_msg(),
{
    Err(unavailable())
}

/// Wait for the server to be ready: always fails in this build.
pub fn wait_ready() -> (r: Result<(), String>)
    ensures
        r matches Err(e) && e@ == unavailable_msg(),
{
    Err(unavailable())
}

/// The server's lifecycle state: `Unavailable` in this build.
pub fn state() -> (s: EmbeddedState)
    ensures
        s is Unavailable,
{
    EmbeddedState::Unavailable
}

/// Stop the server: nothing to stop in this build.
pub fn stop() {
}

/// Delete the embedded library: always fails in this build.
pub fn destroy() -> (r: Result<(), String>)
    ensures
        r matches Err(e) && e@ == unavailable_msg(),
{
    Err(unavailable())
}

/// The local admin's credentials: always fails in this build.
pub fn credentials() -> (r: Result<EmbeddedCredentials, String>)
    ensures
        r matches Err(e) && e@ == unavailable_msg(),
{
    Err(unavailable())
}

/// Rotate the admin's password: always fails in this build.
pub fn recover_admin() -> (r: Result<EmbeddedCredentials, String>)
    ensures
        r matches Err(e) && e@ == unavailable_msg(),
{
    Err(unavailable())
}

/// Stored credentials of a user: always fails in this build.
pub fn credentials_for(username: &str) -> (r: Result<EmbeddedCredentials, String>)
    ensures
        r matches Err(e) && e@ == unavailable_msg(),
{
    Err(unavailable())
}

/// Fresh credentials for a to-be-created user: the lowercased user name and,
/// in this build, an empty password.
pub fn generate_credentials(username: &str) -> (c: EmbeddedCredentials)
    ensures
        c.username@ == lowercase(username@),
        c.password@ == Seq::<char>::empty(),
{
    EmbeddedCredentials { username: to_lowercase(username), password: String::new() }
}

/// Persist a user's credentials: always fails in this build.
pub fn remember_user(creds: &EmbeddedCredentials) -> (r: Result<(), String>)
    ensures
        r matches Err(e) && e@ == unavailable_msg(),
{
    Err(unavailable())
}

/// Whether credentials are stored for a user: never in this build.
pub fn has_credentials(username: &str) -> (b: bool)
    ensures
        !b,
{
    false
}

/// Rotate a user's password: always fails in this build.
pub fn recover_user(username: &str) -> (r: Result<EmbeddedCredentials, String>)
    ensures
        r matches Err(e) && e@ == unavailable_msg(),
{
    Err(unavailable())
}

/// The embedded data directory: none in this build.
pub fn data_dir_display() -> (r: Option<String>)
    ensures
        r is None,
{
    None
}

} // verus!
