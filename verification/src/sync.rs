//! The sync worker's own decisions: pull coalescing, the de-duplicated
//! background fetches, the server-URL check, batch toasts, the history pager,
//! the playback overlay and its merge guard, and the device-download state.

use std::collections::{HashMap, HashSet};
use vstd::prelude::*;
use crate::pending::{facets_of, playback_pending, PendingFacets};
use crate::text::{push_int, str_eq};
use crate::pool::EpisodePool;

verus! {

broadcast use vstd::std_specs::hash::group_hash_axioms;

/// Milliseconds within which a just-completed pull is fresh enough to skip a
/// redundant startup pull.
pub const PULL_COALESCE_MS: u64 = 2000;

/// Whether a pull stamped at `last` (epoch-ms, `None` = never) is recent at
/// `now`: within the window, and never when the clock stepped backwards.
pub open spec fn recent_spec(last: Option<u64>, now: u64, window_ms: u64) -> bool {
    match last {
        Some(t) => now >= t && now - t < window_ms,
        None => false,
    }
}

/// Whether a pull stamped at `last` is recent enough at `now` to coalesce a
/// redundant startup pull onto it. A backwards clock (`now < last`) is never
/// recent, so a bad clock can only cause an extra refresh.
pub fn is_recent(last: Option<u64>, now: u64, window_ms: u64) -> (b: bool)
    ensures
        b == recent_spec(last, now, window_ms),
{
    match last {
        Some(t) => now >= t && now - t < window_ms,
        None => false,
    }
}

/// Whether a server-reaching pull completed within the coalesce window.
pub fn recently_pulled(last_pull_at_ms: Option<u64>, now: u64) -> (b: bool)
    ensures
        b == recent_spec(last_pull_at_ms, now, PULL_COALESCE_MS),
{
    is_recent(last_pull_at_ms, now, PULL_COALESCE_MS)
}

/// The kinds of de-duplicated background fetch.
#[derive(Clone, Copy, Debug, PartialEq, Eq, Structural)]
pub enum InFlight {
    Podcasts,
    EpisodeChapters,
    ServerPolls,
}

/// The keys of each kind of background fetch currently in flight.
pub struct InFlightSets {
    pub podcasts: HashSet<i32>,
    pub episode_chapters: HashSet<i32>,
    pub server_polls: HashSet<i32>,
}

/// The in-flight set of a kind.
pub open spec fn set_of(s: InFlightSets, kind: InFlight) -> Set<i32> {
    match kind {
        InFlight::Podcasts => s.podcasts@,
        InFlight::EpisodeChapters => s.episode_chapters@,
        InFlight::ServerPolls => s.server_polls@,
    }
}

/// Whether `a` and `b` agree on every kind but `kind`.
pub open spec fn others_same(a: InFlightSets, b: InFlightSets, kind: InFlight) -> bool {
    &&& kind != InFlight::Podcasts ==> a.podcasts@ == b.podcasts@
    &&& kind != InFlight::EpisodeChapters ==> a.episode_chapters@ == b.episode_chapters@
    &&& kind != InFlight::ServerPolls ==> a.server_polls@ == b.server_polls@
}

/// Whether a fetch keyed `key` starts: online, with a client, and not already
/// in flight.
pub open spec fn claim_go(in_flight: Set<i32>, key: i32, manual_offline: bool, has_client: bool) -> bool {
    !manual_offline && !in_flight.contains(key) && has_client
}

impl InFlightSets {
    /// Nothing in flight.
    pub fn new() -> (s: InFlightSets)
        ensures
            s.podcasts@ == Set::<i32>::empty(),
            s.episode_chapters@ == Set::<i32>::empty(),
            s.server_polls@ == Set::<i32>::empty(),
    {
        InFlightSets {
            podcasts: HashSet::new(),
            episode_chapters: HashSet::new(),
            server_polls: HashSet::new(),
        }
    }

    /// The in-flight set of a kind.
    pub fn in_flight_set(&mut self, kind: InFlight) -> (r: &mut HashSet<i32>)
        ensures
            r@ == set_of(*old(self), kind),
            set_of(*final(self), kind) == final(r)@,
            others_same(*final(self), *old(self), kind),
    {
        match kind {
            InFlight::Podcasts => &mut self.podcasts,
            InFlight::EpisodeChapters => &mut self.episode_chapters,
            InFlight::ServerPolls => &mut self.server_polls,
        }
    }

    /// Claim the guard of a de-duplicated fetch: no fetch when manually offline,
    /// when the key is already in flight, or when there is no client yet (the
    /// guard is then left unclaimed so a later call retries). Returns whether
    /// the caller should start the fetch; when it cannot be started after all,
    /// the caller hands the key back with [`Self::release`].
    pub fn claim(&mut self, kind: InFlight, key: i32, manual_offline: bool, has_client: bool) -> (go:
        bool)
        ensures
            go == claim_go(set_of(*old(self), kind), key, manual_offline, has_client),
            go ==> set_of(*final(self), kind) == set_of(*old(self), kind).insert(key),
            !go ==> set_of(*final(self), kind) == set_of(*old(self), kind),
            others_same(*final(self), *old(self), kind),
    {
        if manual_offline {
            return false;
        }
        let fresh = self.in_flight_set(kind).insert(key);
        if !fresh {
            return false;
        }
        if !has_client {
            self.in_flight_set(kind).remove(&key);
            assert(set_of(*self, kind) =~= set_of(*old(self), kind));
            return false;
        }
        true
    }

    /// Hand back the guard of a fetch that could not be started or finished.
    pub fn release(&mut self, kind: InFlight, key: i32)
        ensures
            set_of(*final(self), kind) == set_of(*old(self), kind).remove(key),
            others_same(*final(self), *old(self), kind),
    {
        self.in_flight_set(kind).remove(&key);
    }
}

/// "s" unless exactly one.
pub fn plural(n: usize) -> (s: &'static str)
    ensures
        n == 1 ==> s@ == ""@,
        n != 1 ==> s@ == "s"@,
{
    if n == 1 {
        ""
    } else {
        "s"
    }
}

/// A toast's level.
#[derive(Clone, Copy, Debug, PartialEq, Eq, Structural)]
pub enum ToastLevel {
    Info,
    Success,
}

/// A batch summary toast: the count and its plural suffix, for the caller's
/// wording.
#[derive(Debug)]
pub struct BatchToast {
    pub level: ToastLevel,
    pub count: usize,
    pub suffix: &'static str,
}

/// The info summary of a batch action, shown only for more than one item (a
/// single-row action's own spinner is its feedback).
pub fn bulk_info(n: usize) -> (t: Option<BatchToast>)
    ensures
        n > 1 ==> (t matches Some(x) && x.level == ToastLevel::Info && x.count == n && x.suffix@
            == "s"@),
        n <= 1 ==> t is None,
{
    if n > 1 {
        Some(BatchToast { level: ToastLevel::Info, count: n, suffix: plural(n) })
    } else {
        None
    }
}

/// The success summary of a batch action, shown only for more than one item.
pub fn bulk_success(n: usize) -> (t: Option<BatchToast>)
    ensures
        n > 1 ==> (t matches Some(x) && x.level == ToastLevel::Success && x.count == n
            && x.suffix@ == "s"@),
        n <= 1 ==> t is None,
{
    if n > 1 {
        Some(BatchToast { level: ToastLevel::Success, count: n, suffix: plural(n) })
    } else {
        None
    }
}

/// The cross-tab lock name guarding this account's device download of an
/// episode.
pub fn download_lock_name(lock_scope: &str, episode_id: i32) -> (s: String)
    ensures
        s@ == "halogen.download."@ + lock_scope@ + "."@ + crate::text::int_dec(episode_id as int),
{
    let mut s = String::from_str("halogen.download.");
    s.append(lock_scope);
    s.append(".");
    push_int(&mut s, episode_id as i64);
    s
}

/// What a parsed URL's scheme is (lower-cased), when the text parses as an
/// absolute URL.
pub uninterp spec fn parsed_scheme(s: Seq<char>) -> Option<Seq<char>>;

/// Calls `url::Url::parse` on the text and, when it parses, returns
/// `Url::scheme`. Its contract names the result and claims nothing else.
#[verifier::external_body]
fn url_scheme(s: &str) -> (r: Option<String>)
    ensures
        match r {
            Some(x) => parsed_scheme(s@) == Some(x@),
            None => parsed_scheme(s@) is None,
        },
{
    match url::Url::parse(s) {
        Ok(u) => Some(u.scheme().to_string()),
        Err(_) => None,
    }
}

/// How a server URL handed to sign-in is taken.
#[derive(Clone, Copy, Debug, PartialEq, Eq, Structural)]
pub enum UrlCheck {
    /// Parses, with an allowed scheme: bring the client up.
    Accepted,
    /// Parses, but its scheme is not allowed: stay idle.
    DisallowedScheme,
    /// Does not parse: stay idle.
    Invalid,
}

/// Whether `allowed` lists `s`.
pub open spec fn lists(allowed: Seq<&'static str>, s: Seq<char>) -> bool {
    exists|i: int| 0 <= i < allowed.len() && allowed[i]@ == s
}

/// The verdict on a parse result.
pub open spec fn url_check_spec(scheme: Option<Seq<char>>, allowed: Seq<&'static str>) -> UrlCheck {
    match scheme {
        Some(s) => if lists(allowed, s) {
            UrlCheck::Accepted
        } else {
            UrlCheck::DisallowedScheme
        },
        None => UrlCheck::Invalid,
    }
}

/// The verdict on a parse result: a URL that parsed is accepted when its scheme
/// is listed in `allowed`.
pub fn check_scheme(scheme: Option<String>, allowed: &Vec<&'static str>) -> (c: UrlCheck)
    ensures
        c == url_check_spec(
            match scheme {
                Some(x) => Some(x@),
                None => None,
            },
            allowed@,
        ),
{
    match scheme {
        None => UrlCheck::Invalid,
        Some(s) => {
            let mut i: usize = 0;
            let mut found = false;
            while i < allowed.len() && !found
                invariant
                    i <= allowed.len(),
                    !found ==> forall|j: int| 0 <= j < i ==> allowed@[j]@ != s@,
                    found ==> lists(allowed@, s@),
                decreases allowed.len() - i + (if found { 0int } else { 1int }),
            {
                if str_eq(allowed[i], s.as_str()) {
                    assert(allowed@[i as int]@ == s@);
                    found = true;
                } else {
                    i = i + 1;
                }
            }
            if found {
                UrlCheck::Accepted
            } else {
                UrlCheck::DisallowedScheme
            }
        },
    }
}

/// Check a server URL handed to sign-in: it must parse as a URL whose scheme
/// `allowed` lists.
pub fn check_server_url(server_url: &str, allowed: &Vec<&'static str>) -> (c: UrlCheck)
    ensures
        c == url_check_spec(parsed_scheme(server_url@), allowed@),
{
    let scheme = url_scheme(server_url);
    check_scheme(scheme, allowed)
}

/// A playback row: an episode's resume cursor and completion.
#[derive(Clone, Copy, Debug, PartialEq, Eq, Structural)]
pub struct PlaybackRow {
    pub id: i32,
    pub user_id: i32,
    pub episode_id: i32,
    pub cursor: u64,
    pub completed: bool,
    pub created_at: i64,
    pub updated_at: i64,
}

/// The playbacks overlay: each episode's playback row.
pub struct PlaybackOverlay {
    pub playbacks: HashMap<i32, PlaybackRow>,
}

/// The rows of a history page that merge: those whose episode has no queued
/// cursor or completion write, in order.
pub open spec fn history_merge_spec(rows: Seq<PlaybackRow>, pending: Seq<(u64, crate::outbox::OutboxOp)>) -> Seq<
    PlaybackRow,
> {
    rows.filter(|r: PlaybackRow| !playback_pending(pending, r.episode_id))
}

/// The rows inserted by episode in order (a later row wins).
pub open spec fn insert_playbacks(m: Map<i32, PlaybackRow>, rows: Seq<PlaybackRow>) -> Map<i32, PlaybackRow>
    decreases rows.len(),
{
    if rows.len() == 0 {
        m
    } else {
        insert_playbacks(m, rows.drop_last()).insert(rows.last().episode_id, rows.last())
    }
}

/// The playback row after a local write at `now`: a new row (id 0, cursor 0,
/// not completed, created now) when the episode had none, the given fields
/// applied, and the update time set.
pub open spec fn local_playback_spec(
    prev: Option<PlaybackRow>,
    episode_id: i32,
    cursor: Option<u64>,
    completed: Option<bool>,
    now: i64,
) -> PlaybackRow {
    let base = match prev {
        Some(p) => p,
        None => PlaybackRow {
            id: 0,
            user_id: 0,
            episode_id,
            cursor: 0,
            completed: false,
            created_at: now,
            updated_at: now,
        },
    };
    PlaybackRow {
        cursor: match cursor {
            Some(c) => c,
            None => base.cursor,
        },
        completed: match completed {
            Some(c) => c,
            None => base.completed,
        },
        updated_at: now,
        ..base
    }
}

impl PlaybackOverlay {
    /// An empty overlay.
    pub fn new() -> (o: PlaybackOverlay)
        ensures
            o.playbacks@ == Map::<i32, PlaybackRow>::empty(),
    {
        PlaybackOverlay { playbacks: HashMap::new() }
    }

    /// Merge one fetched history page, skipping the rows whose episode has a
    /// queued cursor or completion write (the local optimistic row is newer
    /// than anything the server returns until the write drains). Returns the
    /// merged rows, to write to the store.
    pub fn merge_history_page(
        &mut self,
        playbacks: Vec<PlaybackRow>,
        pending: &Vec<(u64, crate::outbox::OutboxOp)>,
    ) -> (merged: Vec<PlaybackRow>)
        ensures
            merged@ == history_merge_spec(playbacks@, pending@),
            final(self).playbacks@ == insert_playbacks(old(self).playbacks@, merged@),
    {
        let facets = crate::pending::pending_facets(pending);
        let mut merged: Vec<PlaybackRow> = Vec::new();
        let mut i: usize = 0;
        while i < playbacks.len()
            invariant
                i <= playbacks.len(),
                facets_of(facets, pending@),
                merged@ == history_merge_spec(playbacks@.subrange(0, i as int), pending@),
                self.playbacks@ == insert_playbacks(old(self).playbacks@, merged@),
            decreases playbacks.len() - i,
        {
            let pb = playbacks[i];
            proof {
                let cur = playbacks@.subrange(0, i + 1);
                assert(cur.drop_last() =~= playbacks@.subrange(0, i as int));
                reveal(Seq::filter);
            }
            if !facets.playback.contains(&pb.episode_id) {
                let ghost before = merged@;
                merged.push(pb);
                self.playbacks.insert(pb.episode_id, pb);
                proof {
                    assert(merged@.drop_last() =~= before);
                }
            }
            i = i + 1;
        }
        assert(playbacks@.subrange(0, playbacks.len() as int) =~= playbacks@);
        merged
    }

    /// Drop an episode's playback row (its local data is being removed).
    pub fn forget(&mut self, episode_id: i32)
        ensures
            final(self).playbacks@ == old(self).playbacks@.remove(episode_id),
    {
        self.playbacks.remove(&episode_id);
    }

    /// Write an episode's playback row locally at `now` (see
    /// [`local_playback_spec`]); returns the row, to write through to the store.
    pub fn set_playback_locally(
        &mut self,
        episode_id: i32,
        cursor: Option<u64>,
        completed: Option<bool>,
        now: i64,
    ) -> (row: PlaybackRow)
        ensures
            row == local_playback_spec(
                if old(self).playbacks@.contains_key(episode_id) {
                    Some(old(self).playbacks@[episode_id])
                } else {
                    None
                },
                episode_id,
                cursor,
                completed,
                now,
            ),
            final(self).playbacks@ == old(self).playbacks@.insert(episode_id, row),
    {
        let mut pb = match self.playbacks.get(&episode_id) {
            Some(p) => *p,
            None => PlaybackRow {
                id: 0,
                user_id: 0,
                episode_id,
                cursor: 0,
                completed: false,
                created_at: now,
                updated_at: now,
            },
        };
        match cursor {
            Some(c) => {
                pb.cursor = c;
            },
            None => {},
        }
        match completed {
            Some(c) => {
                pb.completed = c;
            },
            None => {},
        }
        pb.updated_at = now;
        self.playbacks.insert(episode_id, pb);
        pb
    }
}

/// The History pager: the next server page and whether more exist.
#[derive(Clone, Copy, Debug, PartialEq, Eq, Structural)]
pub struct HistoryPager {
    pub next_page: i32,
    pub has_more: bool,
}

/// How a history page fetch ended.
#[derive(Clone, Copy, Debug, PartialEq, Eq, Structural)]
pub enum HistoryFetch {
    /// The page came back with `rows` rows and, when the server sent its
    /// paginator, the total page count.
    Fetched { rows: usize, pages: Option<i32> },
    Failed,
}

impl HistoryPager {
    /// At the first page.
    pub fn new() -> (h: HistoryPager)
        ensures
            h.next_page == 0 && h.has_more,
    {
        HistoryPager { next_page: 0, has_more: true }
    }

    /// The page to fetch next, if any: none while offline or without a client;
    /// `reset` restarts from page 0, otherwise nothing once the server reported
    /// no more pages.
    pub fn begin(&mut self, reset: bool, manual_offline: bool, has_client: bool) -> (page: Option<i32>)
        ensures
            manual_offline || !has_client ==> page is None && *final(self) == *old(self),
            !manual_offline && has_client && reset ==> page == Some(0i32) && *final(self)
                == (HistoryPager { next_page: 0, has_more: true }),
            !manual_offline && has_client && !reset ==> *final(self) == *old(self) && (if old(
                self,
            ).has_more {
                page == Some(old(self).next_page)
            } else {
                page is None
            }),
    {
        if manual_offline || !has_client {
            return None;
        }
        if reset {
            self.next_page = 0;
            self.has_more = true;
        } else if !self.has_more {
            return None;
        }
        Some(self.next_page)
    }

    /// Record how the fetch of `page` (of `page_size` rows) ended: with the
    /// server's paginator, more pages exist while `page + 1 < pages`; without
    /// it, while the page came back full. A failure stops paging until the next
    /// reset.
    pub fn finish(&mut self, page: i32, page_size: i32, fetch: HistoryFetch)
        requires
            page < i32::MAX,
        ensures
            match fetch {
                HistoryFetch::Fetched { rows, pages } => *final(self) == (HistoryPager {
                    next_page: (page + 1) as i32,
                    has_more: match pages {
                        Some(n) => page + 1 < n,
                        None => rows == page_size,
                    },
                }),
                HistoryFetch::Failed => *final(self) == (HistoryPager {
                    has_more: false,
                    ..*old(self)
                }),
            },
    {
        match fetch {
            HistoryFetch::Fetched { rows, pages } => {
                let has_more = match pages {
                    Some(n) => page + 1 < n,
                    None => page_size >= 0 && rows == page_size as usize,
                };
                self.has_more = has_more;
                self.next_page = page + 1;
            },
            HistoryFetch::Failed => {
                self.has_more = false;
            },
        }
    }
}

/// Lazily load a podcast into the pool: a fetch is started (and its guard
/// claimed) only when the podcast is neither cached nor already being
/// fetched (see [`InFlightSets::claim`]).
pub fn ensure_podcast(
    pool: &EpisodePool,
    in_flight: &mut InFlightSets,
    podcast_id: i32,
    manual_offline: bool,
    has_client: bool,
) -> (go: bool)
    ensures
        pool.podcasts_by_id@.contains_key(podcast_id) ==> !go && set_of(*final(in_flight), InFlight::Podcasts)
            == set_of(*old(in_flight), InFlight::Podcasts),
        !pool.podcasts_by_id@.contains_key(podcast_id) ==> go == (!manual_offline && !old(
            in_flight,
        ).podcasts@.contains(podcast_id) && has_client),
        go ==> final(in_flight).podcasts@ == old(in_flight).podcasts@.insert(podcast_id),
        !go ==> final(in_flight).podcasts@ == old(in_flight).podcasts@,
        others_same(*final(in_flight), *old(in_flight), InFlight::Podcasts),
{
    if pool.podcasts_by_id.contains_key(&podcast_id) {
        return false;
    }
    in_flight.claim(InFlight::Podcasts, podcast_id, manual_offline, has_client)
}

/// Lazily load an episode's chapter markers: a fetch is started only when they
/// are not loaded yet (`Some`, even empty, means loaded) and not already being
/// fetched.
pub fn ensure_episode_chapters(
    pool: &EpisodePool,
    in_flight: &mut InFlightSets,
    episode_id: i32,
    manual_offline: bool,
    has_client: bool,
) -> (go: bool)
    ensures
        ({
            let loaded = pool.episodes_by_id@.contains_key(episode_id)
                && pool.episodes_by_id@[episode_id].chapters is Some;
            &&& loaded ==> !go && final(in_flight).episode_chapters@ == old(
                in_flight,
            ).episode_chapters@
            &&& !loaded ==> go == (!manual_offline && !old(in_flight).episode_chapters@.contains(
                episode_id,
            ) && has_client)
        }),
        go ==> final(in_flight).episode_chapters@ == old(in_flight).episode_chapters@.insert(
            episode_id,
        ),
        !go ==> final(in_flight).episode_chapters@ == old(in_flight).episode_chapters@,
        others_same(*final(in_flight), *old(in_flight), InFlight::EpisodeChapters),
{
    if pool.chapters_loaded(episode_id) {
        return false;
    }
    in_flight.claim(InFlight::EpisodeChapters, episode_id, manual_offline, has_client)
}

/// Start the poller that mirrors the server's download progress of an episode,
/// once per episode.
pub fn ensure_server_progress_poll(
    in_flight: &mut InFlightSets,
    episode_id: i32,
    manual_offline: bool,
    has_client: bool,
) -> (go: bool)
    ensures
        go == (!manual_offline && !old(in_flight).server_polls@.contains(episode_id) && has_client),
        go ==> final(in_flight).server_polls@ == old(in_flight).server_polls@.insert(episode_id),
        !go ==> final(in_flight).server_polls@ == old(in_flight).server_polls@,
        others_same(*final(in_flight), *old(in_flight), InFlight::ServerPolls),
{
    in_flight.claim(InFlight::ServerPolls, episode_id, manual_offline, has_client)
}

/// Batch-prime the pool for a page's podcasts: the referenced podcasts that
/// are neither cached nor in flight, fetched in one request. Nothing when
/// manually offline; without a client the ids stay unguarded so a later page
/// retries; otherwise they are all marked in flight. Returns the ids to fetch.
pub fn ensure_podcasts_batch(
    pool: &EpisodePool,
    in_flight: &mut InFlightSets,
    podcast_ids: &Vec<i32>,
    manual_offline: bool,
    has_client: bool,
) -> (fetch: Vec<i32>)
    ensures
        ({
            let missing = podcast_ids@.filter(
                |x: i32| !pool.podcasts_by_id@.contains_key(x) && !old(in_flight).podcasts@.contains(x),
            );
            if manual_offline || !has_client {
                fetch@.len() == 0 && final(in_flight).podcasts@ == old(in_flight).podcasts@
            } else {
                fetch@ == missing && final(in_flight).podcasts@ == old(in_flight).podcasts@.union(
                    missing.to_set(),
                )
            }
        }),
        others_same(*final(in_flight), *old(in_flight), InFlight::Podcasts),
{
    if manual_offline {
        return Vec::new();
    }
    let missing = pool.missing_podcasts(podcast_ids, &in_flight.podcasts);
    if missing.len() == 0 || !has_client {
        return Vec::new();
    }
    let ghost p0 = in_flight.podcasts@;
    let mut i: usize = 0;
    while i < missing.len()
        invariant
            i <= missing.len(),
            in_flight.podcasts@ == p0.union(missing@.subrange(0, i as int).to_set()),
            others_same(*in_flight, *old(in_flight), InFlight::Podcasts),
            p0 == old(in_flight).podcasts@,
        decreases missing.len() - i,
    {
        in_flight.podcasts.insert(missing[i]);
        proof {
            let a = missing@.subrange(0, i as int);
            let b = missing@.subrange(0, i + 1);
            assert forall|x: i32| #[trigger] b.to_set().contains(x) <==> (a.to_set().contains(x)
                || x == missing@[i as int]) by {
                if b.contains(x) {
                    let k = choose|k: int| 0 <= k < b.len() && #[trigger] b[k] == x;
                    if k < i {
                        assert(a[k] == x);
                    }
                }
                if a.contains(x) {
                    let k = choose|k: int| 0 <= k < a.len() && #[trigger] a[k] == x;
                    assert(b[k] == x);
                }
                if x == missing@[i as int] {
                    assert(b[i as int] == x);
                }
            }
            assert(in_flight.podcasts@ =~= p0.union(b.to_set()));
        }
        i = i + 1;
    }
    assert(missing@.subrange(0, missing.len() as int) =~= missing@);
    missing
}

/// A backwards clock never makes a pull recent, and neither does a window's
/// edge: a needed pull is never suppressed by a bad clock.
pub proof fn lemma_backwards_clock_is_never_recent(last: u64, now: u64, window_ms: u64)
    ensures
        now < last ==> !recent_spec(Some(last), now, window_ms),
        now >= last && now - last >= window_ms ==> !recent_spec(Some(last), now, window_ms),
        !recent_spec(None, now, window_ms),
{
}

/// Claiming the same fetch twice starts it once: after a claim that started
/// it, a second claim of the key never starts it again, until it is released.
pub proof fn lemma_claim_dedupes(s: Set<i32>, key: i32, o1: bool, c1: bool, o2: bool, c2: bool)
    requires
        claim_go(s, key, o1, c1),
    ensures
        !claim_go(s.insert(key), key, o2, c2),
        claim_go(s.insert(key).remove(key), key, false, true),
{
}

/// No row of a history page whose episode has a queued cursor or completion
/// write is merged.
pub proof fn lemma_history_skips_pending(
    rows: Seq<PlaybackRow>,
    pending: Seq<(u64, crate::outbox::OutboxOp)>,
    i: int,
)
    requires
        0 <= i < history_merge_spec(rows, pending).len(),
    ensures
        !playback_pending(pending, history_merge_spec(rows, pending)[i].episode_id),
{
    broadcast use vstd::seq_lib::group_filter_ensures;

    let f = |r: PlaybackRow| !playback_pending(pending, r.episode_id);
    assert(rows.filter(f).contains(rows.filter(f)[i]));
    assert(f(rows.filter(f)[i]));
}

/// The last row of `rows` for episode `e`, if any.
pub open spec fn last_row_for(rows: Seq<PlaybackRow>, e: i32) -> Option<PlaybackRow>
    decreases rows.len(),
{
    if rows.len() == 0 {
        None
    } else if rows.last().episode_id == e {
        Some(rows.last())
    } else {
        last_row_for(rows.drop_last(), e)
    }
}

/// Per episode, merging a history page leaves the overlay untouched for an
/// episode with a queued cursor or completion write, and otherwise takes the
/// page's last row for that episode (none: untouched).
pub proof fn lemma_history_merge_per_episode(
    m: Map<i32, PlaybackRow>,
    rows: Seq<PlaybackRow>,
    pending: Seq<(u64, crate::outbox::OutboxOp)>,
    e: i32,
)
    ensures
        ({
            let after = insert_playbacks(m, history_merge_spec(rows, pending));
            if !playback_pending(pending, e) && last_row_for(rows, e) is Some {
                after.contains_key(e) && after[e] == last_row_for(rows, e)->0
            } else {
                after.contains_key(e) == m.contains_key(e) && after[e] == m[e]
            }
        }),
    decreases rows.len(),
{
    reveal(Seq::filter);
    if rows.len() > 0 {
        let f = |r: PlaybackRow| !playback_pending(pending, r.episode_id);
        lemma_history_merge_per_episode(m, rows.drop_last(), pending, e);
        let prev = history_merge_spec(rows.drop_last(), pending);
        let cur = history_merge_spec(rows, pending);
        if f(rows.last()) {
            assert(cur == prev.push(rows.last()));
            assert(cur.drop_last() =~= prev);
        } else {
            assert(cur == prev);
        }
    }
}

} // verus!
