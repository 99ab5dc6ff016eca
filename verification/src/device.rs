//! The device-download bookkeeping of the sync worker: each episode's device
//! download state and progress, how a download is started, resumed after a
//! restart, and forgotten.

use std::collections::HashMap;
use vstd::prelude::*;
use crate::download::pct_spec;
use crate::query::DownloadStatus;

verus! {

broadcast use vstd::std_specs::hash::group_hash_axioms;

/// An episode's device download.
#[derive(Clone, Copy, Debug, PartialEq, Eq, Structural)]
pub enum ClientDownloadState {
    Downloading,
    Downloaded,
    Failed,
}

/// Why a device download could not start.
#[derive(Clone, Copy, Debug, PartialEq, Eq, Structural)]
pub enum StartFailure {
    /// No media store on this device.
    NoStorage,
    /// No signed-in client.
    NotSignedIn,
    /// The worker knows it is offline.
    Offline,
}

/// What starting a device download does.
#[derive(Clone, Copy, Debug, PartialEq, Eq, Structural)]
pub enum DownloadStart {
    /// Manually offline: nothing changes; tell the user to reconnect.
    OfflineNotice,
    /// Already downloading or downloaded: nothing to do.
    AlreadyActive,
    /// Marked failed, for this reason.
    Failed(StartFailure),
    /// Marked downloading: queue the server-side download, and when the server
    /// copy is not ready yet show its progress (server status `Downloading`,
    /// progress poll), then run the byte-fetch task.
    Start { server_ready: bool },
}

/// The environment a start is decided in.
#[derive(Clone, Copy, Debug)]
pub struct StartEnv {
    pub manual_offline: bool,
    pub has_storage: bool,
    pub has_client: bool,
    /// The connection status is known offline (an unknown status proceeds).
    pub known_offline: bool,
    /// The server already holds the file (its cached status is `Downloaded`).
    pub server_ready: bool,
}

/// The device-download state of every episode.
pub struct DeviceDownloads {
    pub client_downloads: HashMap<i32, ClientDownloadState>,
    /// Device byte-fetch progress, percent.
    pub download_progress: HashMap<i32, u8>,
    /// Server-side fetch progress, percent.
    pub server_download_progress: HashMap<i32, u8>,
}

/// `start_device_download`'s decision.
pub open spec fn start_spec(current: Option<ClientDownloadState>, env: StartEnv) -> DownloadStart {
    if env.manual_offline {
        DownloadStart::OfflineNotice
    } else if current == Some(ClientDownloadState::Downloading) || current == Some(
        ClientDownloadState::Downloaded,
    ) {
        DownloadStart::AlreadyActive
    } else if !env.has_storage {
        DownloadStart::Failed(StartFailure::NoStorage)
    } else if !env.has_client {
        DownloadStart::Failed(StartFailure::NotSignedIn)
    } else if env.known_offline {
        DownloadStart::Failed(StartFailure::Offline)
    } else {
        DownloadStart::Start { server_ready: env.server_ready }
    }
}

/// Whether the server holds an episode's file, by its cached status.
pub fn server_ready(status: Option<DownloadStatus>) -> (b: bool)
    ensures
        b == (status == Some(DownloadStatus::Downloaded)),
{
    match status {
        Some(DownloadStatus::Downloaded) => true,
        _ => false,
    }
}

/// The user-facing text of a start failure.
pub fn start_failure_message(f: StartFailure) -> (s: String)
    ensures
        f == StartFailure::NoStorage ==> s@ == "Device storage is unavailable — can't download."@,
        f == StartFailure::NotSignedIn ==> s@ == "Sign in to download episodes."@,
        f == StartFailure::Offline ==> s@
            == "You're offline — can't download to this device right now."@,
{
    match f {
        StartFailure::NoStorage => String::from_str("Device storage is unavailable — can't download."),
        StartFailure::NotSignedIn => String::from_str("Sign in to download episodes."),
        StartFailure::Offline => String::from_str(
            "You're offline — can't download to this device right now.",
        ),
    }
}

/// The whole-percent progress of a staged partial, when its total is known.
pub fn partial_pct(downloaded: u64, total: Option<u64>) -> (r: Option<u8>)
    ensures
        match pct_spec(downloaded, total) {
            Some(p) => r == Some(p as u8),
            None => r is None,
        },
{
    match total {
        Some(t) => {
            if t == 0 {
                return None;
            }
            let p128 = (downloaded as u128 * 100) / (t as u128);
            let p: u8 = if p128 > 100 {
                100
            } else {
                p128 as u8
            };
            Some(p)
        },
        None => None,
    }
}

impl DeviceDownloads {
    /// Nothing downloaded.
    pub fn new() -> (d: DeviceDownloads)
        ensures
            d.client_downloads@ == Map::<i32, ClientDownloadState>::empty(),
            d.download_progress@ == Map::<i32, u8>::empty(),
            d.server_download_progress@ == Map::<i32, u8>::empty(),
    {
        DeviceDownloads {
            client_downloads: HashMap::new(),
            download_progress: HashMap::new(),
            server_download_progress: HashMap::new(),
        }
    }

    /// Begin a device download: one in-flight download per episode, and none
    /// for a stored one; a missing store, client or connection fails it at
    /// once; otherwise it is marked downloading (see [`start_spec`]).
    pub fn start_device_download(&mut self, episode_id: i32, env: StartEnv) -> (s: DownloadStart)
        ensures
            s == start_spec(
                if old(self).client_downloads@.contains_key(episode_id) {
                    Some(old(self).client_downloads@[episode_id])
                } else {
                    None
                },
                env,
            ),
            s matches DownloadStart::Failed(_) ==> final(self).client_downloads@ == old(self).client_downloads@.insert(episode_id, ClientDownloadState::Failed),
            s matches DownloadStart::Start { .. } ==> final(self).client_downloads@ == old(self).client_downloads@.insert(episode_id, ClientDownloadState::Downloading),
            (s == DownloadStart::OfflineNotice || s == DownloadStart::AlreadyActive) ==> final(self).client_downloads@ == old(self).client_downloads@,
            final(self).download_progress@ == old(self).download_progress@,
            final(self).server_download_progress@ == old(self).server_download_progress@,
    {
        if env.manual_offline {
            return DownloadStart::OfflineNotice;
        }
        match self.client_downloads.get(&episode_id) {
            Some(ClientDownloadState::Downloading) | Some(ClientDownloadState::Downloaded) => {
                return DownloadStart::AlreadyActive;
            },
            _ => {},
        }
        let fail = if !env.has_storage {
            Some(StartFailure::NoStorage)
        } else if !env.has_client {
            Some(StartFailure::NotSignedIn)
        } else if env.known_offline {
            Some(StartFailure::Offline)
        } else {
            None
        };
        match fail {
            Some(f) => {
                self.client_downloads.insert(episode_id, ClientDownloadState::Failed);
                DownloadStart::Failed(f)
            },
            None => {
                self.client_downloads.insert(episode_id, ClientDownloadState::Downloading);
                DownloadStart::Start { server_ready: env.server_ready }
            },
        }
    }

    /// The byte-fetch task could not be started or failed: mark the download
    /// failed and drop any seeded progress, so a failed badge never shows a
    /// stale figure.
    pub fn mark_failed(&mut self, episode_id: i32)
        ensures
            final(self).client_downloads@ == old(self).client_downloads@.insert(
                episode_id,
                ClientDownloadState::Failed,
            ),
            final(self).download_progress@ == old(self).download_progress@.remove(episode_id),
            final(self).server_download_progress@ == old(self).server_download_progress@,
    {
        self.client_downloads.insert(episode_id, ClientDownloadState::Failed);
        self.download_progress.remove(&episode_id);
    }

    /// Whether a staged partial should be resumed: not when its download is
    /// already committed or in flight. A resumed one is marked downloading, its
    /// progress seeded from the staged offset when the total is known.
    pub fn resume_partial(&mut self, episode_id: i32, downloaded: u64, total: Option<u64>) -> (resume:
        bool)
        ensures
            ({
                let cur = if old(self).client_downloads@.contains_key(episode_id) {
                    Some(old(self).client_downloads@[episode_id])
                } else {
                    None
                };
                resume == !(cur == Some(ClientDownloadState::Downloaded) || cur == Some(
                    ClientDownloadState::Downloading,
                ))
            }),
            !resume ==> final(self).client_downloads@ == old(self).client_downloads@
                && final(self).download_progress@ == old(self).download_progress@,
            resume ==> final(self).client_downloads@ == old(self).client_downloads@.insert(
                episode_id,
                ClientDownloadState::Downloading,
            ),
            resume ==> match pct_spec(downloaded, total) {
                Some(p) => final(self).download_progress@ == old(self).download_progress@.insert(
                    episode_id,
                    p as u8,
                ),
                None => final(self).download_progress@ == old(self).download_progress@,
            },
            final(self).server_download_progress@ == old(self).server_download_progress@,
    {
        match self.client_downloads.get(&episode_id) {
            Some(ClientDownloadState::Downloaded) | Some(ClientDownloadState::Downloading) => {
                return false;
            },
            _ => {},
        }
        self.client_downloads.insert(episode_id, ClientDownloadState::Downloading);
        match partial_pct(downloaded, total) {
            Some(p) => {
                self.download_progress.insert(episode_id, p);
            },
            None => {},
        }
        true
    }

    /// Forget an episode's device download (its bytes are deleted by the
    /// caller).
    pub fn remove_device_download(&mut self, episode_id: i32)
        ensures
            final(self).client_downloads@ == old(self).client_downloads@.remove(episode_id),
            final(self).download_progress@ == old(self).download_progress@.remove(episode_id),
            final(self).server_download_progress@ == old(self).server_download_progress@,
    {
        self.client_downloads.remove(&episode_id);
        self.download_progress.remove(&episode_id);
    }

    /// Drop the server-progress ring of episodes whose server download is no
    /// longer in progress.
    pub fn settle_server_progress(&mut self, settled: &Vec<i32>)
        ensures
            final(self).server_download_progress@ == old(self).server_download_progress@.remove_keys(
                settled@.to_set(),
            ),
            final(self).client_downloads@ == old(self).client_downloads@,
            final(self).download_progress@ == old(self).download_progress@,
    {
        let mut i: usize = 0;
        while i < settled.len()
            invariant
                i <= settled.len(),
                self.server_download_progress@ == old(self).server_download_progress@.remove_keys(
                    settled@.subrange(0, i as int).to_set(),
                ),
                self.client_downloads@ == old(self).client_downloads@,
                self.download_progress@ == old(self).download_progress@,
            decreases settled.len() - i,
        {
            self.server_download_progress.remove(&settled[i]);
            proof {
                let a = settled@.subrange(0, i as int);
                let b = settled@.subrange(0, i + 1);
                assert(b =~= a.push(settled@[i as int]));
                assert(b.to_set() =~= a.to_set().insert(settled@[i as int])) by {
                    assert forall|x: i32| #[trigger] b.to_set().contains(x) <==> (a.to_set().contains(x)
                        || x == settled@[i as int]) by {
                        if b.contains(x) {
                            let k = choose|k: int| 0 <= k < b.len() && #[trigger] b[k] == x;
                            if k < i {
                                assert(a[k] == x);
                            }
                        }
                        if a.contains(x) {
                            let k = choose|k: int| 0 <= k < a.len() && #[trigger] a[k] == x;
                            assert(b[k] == x);
                        }
                        if x == settled@[i as int] {
                            assert(b[i as int] == x);
                        }
                    }
                }
                assert(self.server_download_progress@ =~= old(self).server_download_progress@.remove_keys(b.to_set()));
            }
            i = i + 1;
        }
        assert(settled@.subrange(0, settled.len() as int) =~= settled@);
    }
}

/// Starting a device download twice runs one download: once started (or
/// stored), a second start finds it active, whatever the environment, unless
/// manually offline.
pub proof fn lemma_start_is_idempotent(env1: StartEnv, env2: StartEnv)
    requires
        !env2.manual_offline,
    ensures
        start_spec(None, env1) matches DownloadStart::Start { .. } ==> start_spec(
            Some(ClientDownloadState::Downloading),
            env2,
        ) == DownloadStart::AlreadyActive,
        start_spec(Some(ClientDownloadState::Downloaded), env2) == DownloadStart::AlreadyActive,
{
}

} // verus!
