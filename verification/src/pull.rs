//! The pull: the periodic server round trip that resolves the queue (the
//! default playlist) and doubles as the connectivity probe, with its in-flight
//! guard and recency stamp; and the queue resolution on demand.

use vstd::prelude::*;
use crate::playlists::{
    PlaylistPool, PlaylistRow, QueueState, pls_view, recompute_spec, guard_batch, default_ids,
    clear_defaults, upsert_all, queue_unset,
};
use crate::pool::ids_view;
use crate::sync::{recent_spec, recently_pulled};

verus! {

/// A sync phase.
#[derive(Clone, Copy, Debug, PartialEq, Eq, Structural)]
pub enum SyncPhase {
    Pull,
    Drain,
}

/// The connection status the UI shows.
#[derive(Clone, Copy, Debug, PartialEq, Eq, Structural)]
pub enum SyncStatus {
    /// Not probed yet (cold start).
    Unknown,
    Online,
    Offline,
    Syncing { phase: SyncPhase },
}

/// The pull's own state: whether one is in flight, and when one last reached
/// the server.
#[derive(Clone, Copy, Debug, PartialEq, Eq, Structural)]
pub struct PullState {
    pub pull_in_flight: bool,
    pub last_pull_at_ms: Option<u64>,
}

/// How a pull starts.
#[derive(Clone, Copy, Debug, PartialEq, Eq, Structural)]
pub enum PullStart {
    /// A pull is already in flight: it refreshes everything for this trigger.
    AlreadyRunning,
    /// Manually offline, or not signed in: the status holds at offline.
    Offline,
    /// Fetch the default playlist.
    Fetch,
}

/// How the default-playlist fetch ended.
#[derive(Debug)]
pub enum DefaultPlaylist {
    Found(PlaylistRow),
    /// The server has no default playlist.
    Missing,
    /// The fetch failed; `offline` says whether it was a transport failure.
    Failed { offline: bool },
}

impl PullState {
    /// No pull yet.
    pub fn new() -> (p: PullState)
        ensures
            !p.pull_in_flight && p.last_pull_at_ms is None,
    {
        PullState { pull_in_flight: false, last_pull_at_ms: None }
    }

    /// Start a pull: nothing while one is in flight; offline (and no fetch)
    /// when manually offline or without a client; otherwise the in-flight guard
    /// is claimed and the status shows the pull.
    pub fn begin_pull(&mut self, status: &mut SyncStatus, manual_offline: bool, has_client: bool) -> (s:
        PullStart)
        ensures
            old(self).pull_in_flight ==> s == PullStart::AlreadyRunning && *final(self) == *old(self) && *final(status) == *old(status),
            !old(self).pull_in_flight && (manual_offline || !has_client) ==> s == PullStart::Offline
                && *final(self) == *old(self) && *final(status) == SyncStatus::Offline,
            !old(self).pull_in_flight && !manual_offline && has_client ==> s == PullStart::Fetch
                && *final(self) == (PullState { pull_in_flight: true, ..*old(self) }) && *final(status) == (SyncStatus::Syncing { phase: SyncPhase::Pull }),
    {
        if self.pull_in_flight {
            return PullStart::AlreadyRunning;
        }
        if manual_offline || !has_client {
            *status = SyncStatus::Offline;
            return PullStart::Offline;
        }
        *status = SyncStatus::Syncing { phase: SyncPhase::Pull };
        self.pull_in_flight = true;
        PullStart::Fetch
    }

    /// Finish a pull at `now`: a found default playlist is merged like any
    /// other playlist row (see [`PlaylistPool::cache_playlists`]); none found
    /// makes the queue absent; both reach the server, so the status turns
    /// online and the recency clock is stamped. A failure leaves the pool and
    /// the stamp alone and shows offline only for a transport failure. The
    /// guard is released either way. Returns the rows to write to the store.
    pub fn finish_pull(
        &mut self,
        status: &mut SyncStatus,
        pool: &mut PlaylistPool,
        result: DefaultPlaylist,
        pending: &Vec<(u64, crate::outbox::OutboxOp)>,
        now_ms: u64,
    ) -> (stored: Vec<PlaylistRow>)
        ensures
            !final(self).pull_in_flight,
            match result {
                DefaultPlaylist::Found(row) => {
                    let g = guard_batch(
                        seq![crate::playlists::pl_view(row)],
                        pending@,
                        ids_view(old(pool).episodes_by_playlist@),
                    );
                    let nd = default_ids(g);
                    let (pl2, m2) = upsert_all(
                        clear_defaults(pls_view(old(pool).playlists@), nd),
                        ids_view(old(pool).episodes_by_playlist@),
                        g,
                    );
                    &&& pls_view(stored@) == g
                    &&& pls_view(final(pool).playlists@) == pl2
                    &&& ids_view(final(pool).episodes_by_playlist@) == m2
                    &&& final(pool).queue == recompute_spec(
                        old(pool).queue,
                        pl2,
                        nd.len() > 0 || queue_unset(old(pool).queue, pl2),
                    )
                    &&& *final(status) == SyncStatus::Online
                    &&& final(self).last_pull_at_ms == Some(now_ms)
                },
                DefaultPlaylist::Missing => {
                    &&& stored@.len() == 0
                    &&& final(pool).playlists@ == old(pool).playlists@
                    &&& final(pool).episodes_by_playlist@ == old(pool).episodes_by_playlist@
                    &&& final(pool).queue == QueueState::Absent
                    &&& *final(status) == SyncStatus::Online
                    &&& final(self).last_pull_at_ms == Some(now_ms)
                },
                DefaultPlaylist::Failed { offline } => {
                    &&& stored@.len() == 0
                    &&& final(pool).playlists@ == old(pool).playlists@
                    &&& final(pool).episodes_by_playlist@ == old(pool).episodes_by_playlist@
                    &&& final(pool).queue == old(pool).queue
                    &&& *final(status) == (if offline {
                        SyncStatus::Offline
                    } else {
                        SyncStatus::Online
                    })
                    &&& final(self).last_pull_at_ms == old(self).last_pull_at_ms
                },
            },
    {
        let stored = match result {
            DefaultPlaylist::Found(row) => {
                let mut batch: Vec<PlaylistRow> = Vec::new();
                batch.push(row);
                proof {
                    assert(pls_view(batch@) =~= seq![crate::playlists::pl_view(row)]);
                }
                let s = pool.cache_playlists(batch, pending);
                *status = SyncStatus::Online;
                self.last_pull_at_ms = Some(now_ms);
                s
            },
            DefaultPlaylist::Missing => {
                pool.queue = QueueState::Absent;
                *status = SyncStatus::Online;
                self.last_pull_at_ms = Some(now_ms);
                Vec::new()
            },
            DefaultPlaylist::Failed { offline } => {
                *status = if offline {
                    SyncStatus::Offline
                } else {
                    SyncStatus::Online
                };
                Vec::new()
            },
        };
        self.pull_in_flight = false;
        stored
    }

    /// Whether a startup or reconnect pull should run at `now`: not when a pull
    /// reached the server within the coalesce window.
    pub fn coalesced_pull_due(&self, now_ms: u64) -> (due: bool)
        ensures
            due == !recent_spec(self.last_pull_at_ms, now_ms, crate::sync::PULL_COALESCE_MS),
    {
        !recently_pulled(self.last_pull_at_ms, now_ms)
    }
}

/// How the queue is resolved on demand.
#[derive(Clone, Copy, Debug, PartialEq, Eq, Structural)]
pub enum QueueResolve {
    /// Resolve from the cached playlists (never asserting absence).
    FromCache,
    /// Ask the server for the default playlist.
    Fetch,
}

/// Resolve the queue on demand: from the cache when a pull is in flight or
/// just completed (it fetches or fetched the default playlist already), when
/// manually offline, or without a client; otherwise from the server. A cache
/// resolution is applied at once.
pub fn ensure_default_playlist(
    pool: &mut PlaylistPool,
    pull: &PullState,
    now_ms: u64,
    manual_offline: bool,
    has_client: bool,
) -> (r: QueueResolve)
    ensures
        ({
            let cache = pull.pull_in_flight || recent_spec(
                pull.last_pull_at_ms,
                now_ms,
                crate::sync::PULL_COALESCE_MS,
            ) || manual_offline || !has_client;
            &&& cache ==> r == QueueResolve::FromCache && final(pool).queue == recompute_spec(
                old(pool).queue,
                pls_view(old(pool).playlists@),
                false,
            )
            &&& !cache ==> r == QueueResolve::Fetch && final(pool).queue == old(pool).queue
        }),
        final(pool).playlists@ == old(pool).playlists@,
        final(pool).episodes_by_playlist@ == old(pool).episodes_by_playlist@,
{
    if pull.pull_in_flight || recently_pulled(pull.last_pull_at_ms, now_ms) || manual_offline
        || !has_client {
        pool.recompute_queue(false);
        return QueueResolve::FromCache;
    }
    QueueResolve::Fetch
}

/// Apply the server's answer to an on-demand queue resolution: a found default
/// playlist is merged (see [`PlaylistPool::cache_playlists`]); none makes the
/// queue absent; a failure (offline?) resolves from the cache instead.
pub fn apply_default_playlist(
    pool: &mut PlaylistPool,
    result: DefaultPlaylist,
    pending: &Vec<(u64, crate::outbox::OutboxOp)>,
) -> (stored: Vec<PlaylistRow>)
    ensures
        match result {
            DefaultPlaylist::Found(row) => {
                let g = guard_batch(
                    seq![crate::playlists::pl_view(row)],
                    pending@,
                    ids_view(old(pool).episodes_by_playlist@),
                );
                let nd = default_ids(g);
                let (pl2, m2) = upsert_all(
                    clear_defaults(pls_view(old(pool).playlists@), nd),
                    ids_view(old(pool).episodes_by_playlist@),
                    g,
                );
                &&& pls_view(stored@) == g
                &&& pls_view(final(pool).playlists@) == pl2
                &&& ids_view(final(pool).episodes_by_playlist@) == m2
                &&& final(pool).queue == recompute_spec(
                    old(pool).queue,
                    pl2,
                    nd.len() > 0 || queue_unset(old(pool).queue, pl2),
                )
            },
            DefaultPlaylist::Missing => {
                &&& stored@.len() == 0
                &&& final(pool).playlists@ == old(pool).playlists@
                &&& final(pool).episodes_by_playlist@ == old(pool).episodes_by_playlist@
                &&& final(pool).queue == QueueState::Absent
            },
            DefaultPlaylist::Failed { .. } => {
                &&& stored@.len() == 0
                &&& final(pool).playlists@ == old(pool).playlists@
                &&& final(pool).episodes_by_playlist@ == old(pool).episodes_by_playlist@
                &&& final(pool).queue == recompute_spec(
                    old(pool).queue,
                    pls_view(old(pool).playlists@),
                    false,
                )
            },
        },
{
    match result {
        DefaultPlaylist::Found(row) => {
            let mut batch: Vec<PlaylistRow> = Vec::new();
            batch.push(row);
            proof {
                assert(pls_view(batch@) =~= seq![crate::playlists::pl_view(row)]);
            }
            pool.cache_playlists(batch, pending)
        },
        DefaultPlaylist::Missing => {
            pool.queue = QueueState::Absent;
            Vec::new()
        },
        DefaultPlaylist::Failed { .. } => {
            pool.recompute_queue(false);
            Vec::new()
        },
    }
}

} // verus!
