//! The offline-first paged-list engine: a render window over a cached pool,
//! revalidated page by page from the server. The caller runs the effects (the
//! clock, the fetch, the scroll observer) and hands each event to the state
//! machine here.

use vstd::prelude::*;

verus! {

/// Render/fetch window size (one page).
pub const PAGE_SIZE: i32 = 30;

/// How long a just-revalidated page stays fresh before it is fetched again.
pub const REVALIDATE_TTL_MS: u64 = 10000;

/// `should_revalidate`'s result.
pub open spec fn revalidate_spec(forced: bool, server_page: i32, last: Option<(i32, u64)>, now_ms: u64) -> bool {
    forced || match last {
        Some((p, t)) => p != server_page || (if now_ms >= t {
            now_ms - t
        } else {
            0
        }) >= REVALIDATE_TTL_MS,
        None => true,
    }
}

/// Whether the revalidate effect should hit the network this run: always when
/// forced (pull-to-refresh) or for another page than the last one fetched;
/// for the same page only once it is no longer fresh (a backwards clock counts
/// as fresh).
pub fn should_revalidate(forced: bool, server_page: i32, last: Option<(i32, u64)>, now_ms: u64) -> (b:
    bool)
    ensures
        b == revalidate_spec(forced, server_page, last, now_ms),
{
    if forced {
        return true;
    }
    match last {
        Some((p, t)) => {
            if p == server_page {
                let age = if now_ms >= t {
                    now_ms - t
                } else {
                    0
                };
                age >= REVALIDATE_TTL_MS
            } else {
                true
            }
        },
        None => true,
    }
}

/// Outcome of one page fetch, reported back to the pool.
#[derive(Debug)]
pub struct FetchResult {
    /// Whether the fetched page was full.
    pub has_more: bool,
    /// An error to surface, or `None` to stay silent.
    pub error: Option<String>,
}

/// Fold a fetch into its result: a full page means more may follow; a failed
/// fetch stops paging and surfaces its message only when the cached pool is
/// empty (otherwise the cache still renders and the failure stays silent).
pub fn fold_fetch(fetched: Result<usize, String>, pool_empty: bool) -> (r: FetchResult)
    ensures
        match fetched {
            Ok(n) => r.has_more == (n == PAGE_SIZE as usize) && r.error is None,
            Err(m) => !r.has_more && (pool_empty ==> r.error == Some(m)) && (!pool_empty
                ==> r.error is None),
        },
{
    match fetched {
        Ok(n) => FetchResult { has_more: n == PAGE_SIZE as usize, error: None },
        Err(m) => FetchResult { has_more: false, error: if pool_empty {
            Some(m)
        } else {
            None
        } },
    }
}

/// What a revalidate pass does.
#[derive(Debug, PartialEq, Eq, Structural)]
pub enum RevalidateStep {
    /// The page is fresh: serve the cached pool, fetch nothing.
    Fresh,
    /// No fetch is possible (offline, or no client): serve the cache and stop
    /// the cursor.
    Skip,
    /// Fetch `page`; report the result with this `generation`.
    Fetch { page: i32, generation: u64 },
}

/// The reactive state of a paged pool.
#[derive(Debug)]
pub struct PagedPool {
    /// Server-fetch cursor (page index).
    pub page: i32,
    /// Render window size over the cached pool.
    pub visible: usize,
    /// Whether the last fetched page was full.
    pub has_more: bool,
    /// A server fetch is in flight.
    pub loading: bool,
    /// Last fetch error to surface.
    pub error: Option<String>,
    /// Bumped to force a revalidate (pull-to-refresh).
    pub refresh_nonce: u32,
    /// Whether the first revalidate decision has resolved.
    pub initial_settled: bool,
    /// The last page revalidated cleanly, and when.
    pub last_revalidate: Option<(i32, u64)>,
    /// The last refresh nonce a revalidate saw.
    pub last_nonce: u32,
    /// The latest fetch's token; an older fetch's result is dropped.
    pub generation: u64,
}

/// `revalidate`'s transition.
pub open spec fn revalidate_step(p: PagedPool, now_ms: u64, can_fetch: bool) -> (PagedPool, RevalidateStep) {
    let forced = p.refresh_nonce != p.last_nonce;
    let p1 = PagedPool { last_nonce: p.refresh_nonce, ..p };
    if !revalidate_spec(forced, p.page, p.last_revalidate, now_ms) {
        (PagedPool { initial_settled: true, ..p1 }, RevalidateStep::Fresh)
    } else if !can_fetch {
        (PagedPool { has_more: false, initial_settled: true, ..p1 }, RevalidateStep::Skip)
    } else {
        let g = if p.generation == u64::MAX {
            0
        } else {
            (p.generation + 1) as u64
        };
        (
            PagedPool { generation: g, loading: true, error: None, ..p1 },
            RevalidateStep::Fetch { page: p.page, generation: g },
        )
    }
}

/// `fetch_landed`'s transition.
pub open spec fn landed_step(p: PagedPool, page: i32, generation: u64, r: FetchResult, now_ms: u64) -> PagedPool {
    if generation != p.generation {
        p
    } else {
        PagedPool {
            has_more: r.has_more,
            loading: false,
            initial_settled: true,
            last_revalidate: if r.error is None {
                Some((page, now_ms))
            } else {
                p.last_revalidate
            },
            error: r.error,
            ..p
        }
    }
}

/// `on_scroll`'s transition.
pub open spec fn scroll_step(p: PagedPool, cached_len: usize) -> PagedPool {
    let more = p.has_more || p.visible < cached_len;
    if more && !p.loading && p.visible <= usize::MAX - (PAGE_SIZE as usize) {
        PagedPool {
            visible: (p.visible + PAGE_SIZE) as usize,
            page: if p.has_more && p.page < i32::MAX {
                (p.page + 1) as i32
            } else {
                p.page
            },
            ..p
        }
    } else {
        p
    }
}

impl PagedPool {
    /// A pool at the top, nothing fetched yet.
    pub fn new() -> (p: PagedPool)
        ensures
            p.page == 0 && p.visible == PAGE_SIZE as usize && p.has_more && !p.loading,
            p.error is None && p.refresh_nonce == 0 && !p.initial_settled,
            p.last_revalidate is None && p.last_nonce == 0 && p.generation == 0,
    {
        PagedPool {
            page: 0,
            visible: PAGE_SIZE as usize,
            has_more: true,
            loading: false,
            error: None,
            refresh_nonce: 0,
            initial_settled: false,
            last_revalidate: None,
            last_nonce: 0,
            generation: 0,
        }
    }

    /// Reset the window and cursor to the top and force the page-0 fetch (a
    /// sort/filter/search change starts a fresh page sequence).
    pub fn reset(&mut self)
        ensures
            *final(self) == (PagedPool {
                page: 0,
                has_more: true,
                visible: PAGE_SIZE as usize,
                refresh_nonce: if old(self).refresh_nonce == u32::MAX {
                    0
                } else {
                    (old(self).refresh_nonce + 1) as u32
                },
                ..*old(self)
            }),
    {
        self.page = 0;
        self.has_more = true;
        self.visible = PAGE_SIZE as usize;
        self.refresh_nonce = self.refresh_nonce.wrapping_add(1);
    }

    /// Reset to the top and force a re-fetch (pull-to-refresh).
    pub fn refresh(&mut self)
        ensures
            *final(self) == (PagedPool {
                page: 0,
                has_more: true,
                visible: PAGE_SIZE as usize,
                refresh_nonce: if old(self).refresh_nonce == u32::MAX {
                    0
                } else {
                    (old(self).refresh_nonce + 1) as u32
                },
                ..*old(self)
            }),
    {
        self.reset();
    }

    /// A revalidate pass for the current page at `now_ms`; `can_fetch` says
    /// whether a server fetch is possible (online with a client).
    pub fn revalidate(&mut self, now_ms: u64, can_fetch: bool) -> (step: RevalidateStep)
        ensures
            (*final(self), step) == revalidate_step(*old(self), now_ms, can_fetch),
    {
        let forced = self.refresh_nonce != self.last_nonce;
        if forced {
            self.last_nonce = self.refresh_nonce;
        }
        if !should_revalidate(forced, self.page, self.last_revalidate, now_ms) {
            self.initial_settled = true;
            return RevalidateStep::Fresh;
        }
        if !can_fetch {
            self.has_more = false;
            self.initial_settled = true;
            return RevalidateStep::Skip;
        }
        self.generation = self.generation.wrapping_add(1);
        self.loading = true;
        self.error = None;
        RevalidateStep::Fetch { page: self.page, generation: self.generation }
    }

    /// A fetch of `page` landed at `now_ms`: a superseded fetch (an older
    /// generation) is dropped; otherwise its result is applied, the first-paint
    /// hold released, and — only on a clean fetch — the freshness clock stamped.
    pub fn fetch_landed(&mut self, page: i32, generation: u64, result: FetchResult, now_ms: u64)
        ensures
            *final(self) == landed_step(*old(self), page, generation, result, now_ms),
    {
        if generation != self.generation {
            return;
        }
        let clean = result.error.is_none();
        self.has_more = result.has_more;
        self.error = result.error;
        self.loading = false;
        self.initial_settled = true;
        if clean {
            self.last_revalidate = Some((page, now_ms));
        }
    }

    /// The infinite-scroll trigger fired: grow the window (and advance the
    /// cursor when another server page exists) only while there is more to
    /// reveal and no fetch is in flight.
    pub fn on_scroll(&mut self, cached_len: usize)
        ensures
            *final(self) == scroll_step(*old(self), cached_len),
    {
        let more = self.has_more || self.visible < cached_len;
        if more && !self.loading && self.visible <= usize::MAX - (PAGE_SIZE as usize) {
            self.visible = self.visible + PAGE_SIZE as usize;
            if self.has_more && self.page < i32::MAX {
                self.page = self.page + 1;
            }
        }
    }
}

/// A fetch that lands after a newer revalidate started never overwrites the
/// newer pass's bookkeeping.
pub proof fn lemma_stale_fetch_is_dropped(
    p: PagedPool,
    page: i32,
    generation: u64,
    r: FetchResult,
    now2: u64,
)
    requires
        generation != p.generation,
    ensures
        landed_step(p, page, generation, r, now2) == p,
{
}

/// A skipped (fresh) revalidate leaves the paging cursor and `has_more` as
/// they were, so a skip can never stall paging.
pub proof fn lemma_fresh_keeps_paging(p: PagedPool, now_ms: u64, can_fetch: bool)
    requires
        revalidate_step(p, now_ms, can_fetch).1 == RevalidateStep::Fresh,
    ensures
        revalidate_step(p, now_ms, can_fetch).0.has_more == p.has_more,
        revalidate_step(p, now_ms, can_fetch).0.page == p.page,
        revalidate_step(p, now_ms, can_fetch).0.visible == p.visible,
{
}

/// After a reset, the next revalidate is forced: it never serves the stale
/// predicate's cache as fresh.
pub proof fn lemma_reset_forces_fetch(p: PagedPool, now_ms: u64, can_fetch: bool)
    requires
        p.refresh_nonce == p.last_nonce,
    ensures
        ({
            let q = PagedPool {
                page: 0,
                has_more: true,
                visible: PAGE_SIZE as usize,
                refresh_nonce: if p.refresh_nonce == u32::MAX {
                    0
                } else {
                    (p.refresh_nonce + 1) as u32
                },
                ..p
            };
            revalidate_step(q, now_ms, can_fetch).1 != RevalidateStep::Fresh
        }),
{
}

} // verus!
