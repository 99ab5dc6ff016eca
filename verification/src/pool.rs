//! The in-memory episode pool the sync worker keeps: episodes by id, each
//! podcast's episode ids, and the podcast titles; the merge of a server page
//! into it under the pending-operation guards, and the optimistic local edits.

use std::collections::{HashMap, HashSet};
use vstd::prelude::*;
use crate::pending::{PendingFacets, facets_of, played_pending, download_pending};
use crate::query::{Chapter, DownloadStatus, EpisodeRow, PlaybackStatus};

verus! {

broadcast use vstd::std_specs::hash::group_hash_axioms;

/// What an episode row holds, as values.
pub struct RowView {
    pub id: i32,
    pub podcast_id: i32,
    pub title: Seq<char>,
    pub description: Option<Seq<char>>,
    pub published_at: Option<i64>,
    pub created_at: i64,
    pub updated_at: i64,
    pub duration_secs: Option<i32>,
    pub playback_status: PlaybackStatus,
    pub download_status: DownloadStatus,
    pub chapters: Option<Seq<Chapter>>,
}

/// The value of an episode row.
pub open spec fn row_view(e: EpisodeRow) -> RowView {
    RowView {
        id: e.id,
        podcast_id: e.podcast_id,
        title: e.title@,
        description: match e.description {
            Some(d) => Some(d@),
            None => None,
        },
        published_at: e.published_at,
        created_at: e.created_at,
        updated_at: e.updated_at,
        duration_secs: e.duration_secs,
        playback_status: e.playback_status,
        download_status: e.download_status,
        chapters: match e.chapters {
            Some(c) => Some(c@),
            None => None,
        },
    }
}

/// The episodes-by-id map as values.
pub open spec fn rows_view(m: Map<i32, EpisodeRow>) -> Map<i32, RowView> {
    m.map_values(|e: EpisodeRow| row_view(e))
}

/// An id-list map as values.
pub open spec fn ids_view(m: Map<i32, Vec<i32>>) -> Map<i32, Seq<i32>> {
    m.map_values(|v: Vec<i32>| v@)
}

/// The in-memory episode pool.
pub struct EpisodePool {
    pub episodes_by_id: HashMap<i32, EpisodeRow>,
    /// Each podcast's episode ids, in the order they were first seen.
    pub episodes_by_podcast: HashMap<i32, Vec<i32>>,
    /// The podcast pool, by id.
    pub podcasts_by_id: HashMap<i32, PodcastRow>,
}

/// An incoming server row merged with the pool's row for the same id: a
/// chapter-less row inherits already-loaded chapters, and a facet with a
/// queued operation keeps its local value.
pub open spec fn merged_row(inc: RowView, prev: Option<RowView>, played: bool, download: bool) -> RowView {
    match prev {
        None => inc,
        Some(p) => RowView {
            chapters: if inc.chapters is None && p.chapters is Some {
                p.chapters
            } else {
                inc.chapters
            },
            playback_status: if played {
                p.playback_status
            } else {
                inc.playback_status
            },
            download_status: if download {
                p.download_status
            } else {
                inc.download_status
            },
            ..inc
        },
    }
}

/// The merged view of each incoming row against the pool before the batch.
pub open spec fn merged_batch(
    eps: Seq<EpisodeRow>,
    pool: Map<i32, RowView>,
    pending: Seq<(u64, crate::outbox::OutboxOp)>,
) -> Seq<RowView> {
    Seq::new(
        eps.len(),
        |i: int|
            merged_row(
                row_view(eps[i]),
                if pool.contains_key(eps[i].id) {
                    Some(pool[eps[i].id])
                } else {
                    None
                },
                played_pending(pending, eps[i].id),
                download_pending(pending, eps[i].id),
            ),
    )
}

/// The rows inserted in order (a later row with the same id wins).
pub open spec fn insert_rows(m: Map<i32, RowView>, rows: Seq<RowView>) -> Map<i32, RowView>
    decreases rows.len(),
{
    if rows.len() == 0 {
        m
    } else {
        insert_rows(m, rows.drop_last()).insert(rows.last().id, rows.last())
    }
}

/// `id` appended to `ids` unless already there.
pub open spec fn add_once(ids: Seq<i32>, id: i32) -> Seq<i32> {
    if ids.contains(id) {
        ids
    } else {
        ids.push(id)
    }
}

/// The list under `k`, empty when absent.
pub open spec fn list_or_empty(m: Map<i32, Seq<i32>>, k: i32) -> Seq<i32> {
    if m.contains_key(k) {
        m[k]
    } else {
        Seq::empty()
    }
}

/// Each row's id grouped under its podcast, in order, once.
pub open spec fn group_rows(m: Map<i32, Seq<i32>>, rows: Seq<RowView>) -> Map<i32, Seq<i32>>
    decreases rows.len(),
{
    if rows.len() == 0 {
        m
    } else {
        let g = group_rows(m, rows.drop_last());
        let r = rows.last();
        g.insert(r.podcast_id, add_once(list_or_empty(g, r.podcast_id), r.id))
    }
}

/// The ids of rows, in order.
pub open spec fn row_ids(rows: Seq<RowView>) -> Seq<i32> {
    rows.map_values(|r: RowView| r.id)
}

/// The ids of the rows whose server download is not in progress, in order.
pub open spec fn settled_ids(rows: Seq<RowView>) -> Seq<i32>
    decreases rows.len(),
{
    if rows.len() == 0 {
        Seq::empty()
    } else {
        let r = settled_ids(rows.drop_last());
        if rows.last().download_status != DownloadStatus::Downloading {
            r.push(rows.last().id)
        } else {
            r
        }
    }
}

/// The podcasts the rows reference, in order of first reference, once each.
pub open spec fn podcast_ids(rows: Seq<RowView>) -> Seq<i32>
    decreases rows.len(),
{
    if rows.len() == 0 {
        Seq::empty()
    } else {
        add_once(podcast_ids(rows.drop_last()), rows.last().podcast_id)
    }
}

/// What merging a page yields besides the new pool: the merged rows to write to
/// the store, the ids whose server download is no longer in progress (their
/// progress ring is dropped), and the podcasts the page references.
pub struct PageMerge {
    pub stored: Vec<EpisodeRow>,
    pub settled: Vec<i32>,
    pub podcasts: Vec<i32>,
}

fn clone_chapters(c: &Option<Vec<Chapter>>) -> (r: Option<Vec<Chapter>>)
    ensures
        match (r, *c) {
            (Some(a), Some(b)) => a@ == b@,
            (None, None) => true,
            _ => false,
        },
{
    match c {
        None => None,
        Some(v) => {
            let mut out: Vec<Chapter> = Vec::new();
            let mut i: usize = 0;
            while i < v.len()
                invariant
                    i <= v.len(),
                    out@ == v@.subrange(0, i as int),
                decreases v.len() - i,
            {
                out.push(v[i].clone());
                i = i + 1;
                assert(out@ =~= v@.subrange(0, i as int));
            }
            assert(out@ =~= v@);
            Some(out)
        },
    }
}

/// A copy of a row.
pub fn copy_row(e: &EpisodeRow) -> (r: EpisodeRow)
    ensures
        row_view(r) == row_view(*e),
{
    let description = match &e.description {
        Some(d) => Some(d.clone()),
        None => None,
    };
    EpisodeRow {
        id: e.id,
        podcast_id: e.podcast_id,
        title: e.title.clone(),
        description,
        published_at: e.published_at,
        created_at: e.created_at,
        updated_at: e.updated_at,
        duration_secs: e.duration_secs,
        playback_status: e.playback_status,
        download_status: e.download_status,
        chapters: clone_chapters(&e.chapters),
    }
}

/// Merge one incoming row with the pool's row for its id.
fn merge_row(inc: EpisodeRow, prev: Option<&EpisodeRow>, played: bool, download: bool) -> (r: EpisodeRow)
    ensures
        row_view(r) == merged_row(
            row_view(inc),
            match prev {
                Some(p) => Some(row_view(*p)),
                None => None,
            },
            played,
            download,
        ),
{
    let mut ep = inc;
    match prev {
        None => {},
        Some(p) => {
            if ep.chapters.is_none() && p.chapters.is_some() {
                ep.chapters = clone_chapters(&p.chapters);
            }
            if played && ep.playback_status != p.playback_status {
                ep.playback_status = p.playback_status;
            }
            if download && ep.download_status != p.download_status {
                ep.download_status = p.download_status;
            }
        },
    }
    ep
}

impl EpisodePool {
    /// An empty pool.
    pub fn new() -> (p: EpisodePool)
        ensures
            p.episodes_by_id@ == Map::<i32, EpisodeRow>::empty(),
            p.episodes_by_podcast@ == Map::<i32, Vec<i32>>::empty(),
            p.podcasts_by_id@ == Map::<i32, PodcastRow>::empty(),
    {
        EpisodePool {
            episodes_by_id: HashMap::new(),
            episodes_by_podcast: HashMap::new(),
            podcasts_by_id: HashMap::new(),
        }
    }

    /// Merge a server-paged batch of episodes into the pool: each row is first
    /// guarded against the pool's row (sticky chapters; a played or download
    /// facet with a queued operation keeps its local value), then upserted by
    /// id and grouped under its podcast once. Returns the merged rows for the
    /// store, the ids whose server download is no longer in progress, and the
    /// referenced podcasts.
    pub fn cache_episodes(
        &mut self,
        episodes: Vec<EpisodeRow>,
        pending: &Vec<(u64, crate::outbox::OutboxOp)>,
    ) -> (out: PageMerge)
        ensures
            ({
                let merged = merged_batch(episodes@, rows_view(old(self).episodes_by_id@), pending@);
                &&& rows_view(final(self).episodes_by_id@) == insert_rows(
                    rows_view(old(self).episodes_by_id@),
                    merged,
                )
                &&& ids_view(final(self).episodes_by_podcast@) == group_rows(
                    ids_view(old(self).episodes_by_podcast@),
                    merged,
                )
                &&& final(self).podcasts_by_id@ == old(self).podcasts_by_id@
                &&& out.stored@.map_values(|e: EpisodeRow| row_view(e)) == merged
                &&& out.settled@ == settled_ids(merged)
                &&& out.podcasts@ == podcast_ids(merged)
            }),
    {
        let facets = crate::pending::pending_facets(pending);
        let ghost pool0 = rows_view(self.episodes_by_id@);
        let ghost groups0 = ids_view(self.episodes_by_podcast@);
        let ghost merged = merged_batch(episodes@, pool0, pending@);
        // Guard every row against the pool as it stood before the batch.
        let mut rows: Vec<EpisodeRow> = Vec::new();
        let mut src = episodes;
        let ghost src0 = src@;
        let ghost all = src@;
        while src.len() > 0
            invariant
                src@.len() <= src0.len(),
                src0 == all,
                rows@.len() + src@.len() == src0.len(),
                src@ == src0.subrange(rows@.len() as int, src0.len() as int),
                facets_of(facets, pending@),
                pool0 == rows_view(self.episodes_by_id@),
                merged == merged_batch(all, pool0, pending@),
                forall|k: int| 0 <= k < rows@.len() ==> row_view(#[trigger] rows@[k]) == merged[k],
            decreases src.len(),
        {
            let x = src.remove(0);
            assert(x == src0[rows@.len() as int]);
            let id = x.id;
            let played = facets.played.contains(&id);
            let download = facets.download.contains(&id);
            let prev = self.episodes_by_id.get(&id);
            let m = merge_row(x, prev, played, download);
            rows.push(m);
            assert(src@ =~= src0.subrange(rows@.len() as int, src0.len() as int));
        }
        // Upsert by id and group under the podcast, in order.
        let mut stored: Vec<EpisodeRow> = Vec::new();
        let mut settled: Vec<i32> = Vec::new();
        let mut podcasts: Vec<i32> = Vec::new();
        let ghost rows0 = rows@;
        let mut rest = rows;
        while rest.len() > 0
            invariant
                rows0.len() == merged.len(),
                forall|k: int| 0 <= k < rows0.len() ==> row_view(#[trigger] rows0[k]) == merged[k],
                stored@.len() + rest@.len() == rows0.len(),
                rest@ == rows0.subrange(stored@.len() as int, rows0.len() as int),
                stored@.map_values(|e: EpisodeRow| row_view(e)) == merged.subrange(
                    0,
                    stored@.len() as int,
                ),
                rows_view(self.episodes_by_id@) == insert_rows(
                    pool0,
                    merged.subrange(0, stored@.len() as int),
                ),
                ids_view(self.episodes_by_podcast@) == group_rows(
                    groups0,
                    merged.subrange(0, stored@.len() as int),
                ),
                self.podcasts_by_id@ == old(self).podcasts_by_id@,
                settled@ == settled_ids(merged.subrange(0, stored@.len() as int)),
                podcasts@ == podcast_ids(merged.subrange(0, stored@.len() as int)),
            decreases rest.len(),
        {
            let ghost n = stored@.len() as int;
            let ep = rest.remove(0);
            assert(ep == rows0[n]);
            assert(row_view(ep) == merged[n]);
            let id = ep.id;
            let pid = ep.podcast_id;
            stored.push(copy_row(&ep));
            if ep.download_status != DownloadStatus::Downloading {
                settled.push(id);
            }
            // Podcasts referenced, once each.
            let mut seen = false;
            let mut q: usize = 0;
            while q < podcasts.len()
                invariant
                    q <= podcasts.len(),
                    seen <==> exists|t: int| 0 <= t < q && podcasts@[t] == pid,
                    podcasts@ == podcast_ids(merged.subrange(0, n)),
                decreases podcasts.len() - q,
            {
                if podcasts[q] == pid {
                    seen = true;
                }
                q = q + 1;
            }
            if !seen {
                podcasts.push(pid);
            }
            // Group under the podcast.
            let mut ids: Vec<i32> = match self.episodes_by_podcast.remove(&pid) {
                Some(v) => v,
                None => Vec::new(),
            };
            let mut present = false;
            let mut t: usize = 0;
            while t < ids.len()
                invariant
                    t <= ids.len(),
                    present <==> exists|u: int| 0 <= u < t && ids@[u] == id,
                decreases ids.len() - t,
            {
                if ids[t] == id {
                    present = true;
                }
                t = t + 1;
            }
            if !present {
                ids.push(id);
            }
            self.episodes_by_podcast.insert(pid, ids);
            self.episodes_by_id.insert(id, ep);
            proof {
                let pre = merged.subrange(0, n);
                let cur = merged.subrange(0, n + 1);
                assert(cur.drop_last() =~= pre);
                assert(cur.last() == merged[n]);
                assert(rows_view(self.episodes_by_id@) =~= insert_rows(pool0, cur));
                assert(ids_view(self.episodes_by_podcast@) =~= group_rows(groups0, cur));
                assert(stored@.map_values(|e: EpisodeRow| row_view(e)) =~= cur);
                assert(rest@ =~= rows0.subrange(n + 1, rows0.len() as int));
            }
        }
        assert(merged.subrange(0, merged.len() as int) =~= merged);
        PageMerge { stored, settled, podcasts }
    }
}

impl EpisodePool {
    /// Drop a podcast and its grouped episodes from the pool (optimistic
    /// unsubscribe).
    pub fn remove_podcast_locally(&mut self, podcast_id: i32)
        ensures
            final(self).podcasts_by_id@ == old(self).podcasts_by_id@.remove(podcast_id),
            final(self).episodes_by_podcast@ == old(self).episodes_by_podcast@.remove(podcast_id),
            old(self).episodes_by_podcast@.contains_key(podcast_id) ==> final(self).episodes_by_id@ == old(self).episodes_by_id@.remove_keys(
                old(self).episodes_by_podcast@[podcast_id]@.to_set(),
            ),
            !old(self).episodes_by_podcast@.contains_key(podcast_id) ==> final(self).episodes_by_id@ == old(self).episodes_by_id@,
    {
        self.podcasts_by_id.remove(&podcast_id);
        match self.episodes_by_podcast.remove(&podcast_id) {
            Some(ids) => {
                let ghost m0 = self.episodes_by_id@;
                let mut i: usize = 0;
                while i < ids.len()
                    invariant
                        i <= ids.len(),
                        self.episodes_by_id@ == m0.remove_keys(ids@.subrange(0, i as int).to_set()),
                        self.podcasts_by_id@ == old(self).podcasts_by_id@.remove(podcast_id),
                        self.episodes_by_podcast@ == old(self).episodes_by_podcast@.remove(
                            podcast_id,
                        ),
                    decreases ids.len() - i,
                {
                    self.episodes_by_id.remove(&ids[i]);
                    proof {
                        assert(ids@.subrange(0, i + 1).to_set() =~= ids@.subrange(
                            0,
                            i as int,
                        ).to_set().insert(ids@[i as int])) by {
                            assert forall|x: i32| #[trigger]
                                ids@.subrange(0, i + 1).to_set().contains(x) <==> (ids@.subrange(
                                    0,
                                    i as int,
                                ).to_set().contains(x) || x == ids@[i as int]) by {
                                if ids@.subrange(0, i + 1).contains(x) {
                                    let k = choose|k: int|
                                        0 <= k < i + 1 && #[trigger] ids@.subrange(0, i + 1)[k] == x;
                                    if k < i {
                                        assert(ids@.subrange(0, i as int)[k] == x);
                                    }
                                }
                                if ids@.subrange(0, i as int).contains(x) {
                                    let k = choose|k: int|
                                        0 <= k < i && #[trigger] ids@.subrange(0, i as int)[k] == x;
                                    assert(ids@.subrange(0, i + 1)[k] == x);
                                }
                                if x == ids@[i as int] {
                                    assert(ids@.subrange(0, i + 1)[i as int] == x);
                                }
                            }
                        }
                        assert(self.episodes_by_id@ =~= m0.remove_keys(
                            ids@.subrange(0, i + 1).to_set(),
                        ));
                    }
                    i = i + 1;
                }
                assert(ids@.subrange(0, ids.len() as int) =~= ids@);
            },
            None => {},
        }
    }

    /// Drop one episode from the pool and from its podcast's grouping (the
    /// in-memory part of removing an episode's local data).
    pub fn forget_episode(&mut self, episode_id: i32)
        ensures
            final(self).episodes_by_id@ == old(self).episodes_by_id@.remove(episode_id),
            final(self).podcasts_by_id@ == old(self).podcasts_by_id@,
            ({
                let old_ids = ids_view(old(self).episodes_by_podcast@);
                if old(self).episodes_by_id@.contains_key(episode_id) && old_ids.contains_key(
                    old(self).episodes_by_id@[episode_id].podcast_id,
                ) {
                    let pid = old(self).episodes_by_id@[episode_id].podcast_id;
                    ids_view(final(self).episodes_by_podcast@) == old_ids.insert(
                        pid,
                        old_ids[pid].filter(|x: i32| x != episode_id),
                    )
                } else {
                    ids_view(final(self).episodes_by_podcast@) == old_ids
                }
            }),
    {
        match self.episodes_by_id.remove(&episode_id) {
            Some(ep) => {
                match self.episodes_by_podcast.remove(&ep.podcast_id) {
                    Some(ids) => {
                        let kept = without(&ids, episode_id);
                        self.episodes_by_podcast.insert(ep.podcast_id, kept);
                        proof {
                            assert(ids_view(self.episodes_by_podcast@) =~= ids_view(
                                old(self).episodes_by_podcast@,
                            ).insert(ep.podcast_id, ids@.filter(|x: i32| x != episode_id)));
                        }
                    },
                    None => {},
                }
            },
            None => {},
        }
    }

    /// Optimistically set a cached episode's server download status; returns
    /// the changed row to write through, or `None` when the episode is not
    /// cached.
    pub fn set_download_status_locally(&mut self, episode_id: i32, status: DownloadStatus) -> (r:
        Option<EpisodeRow>)
        ensures
            old(self).episodes_by_id@.contains_key(episode_id) ==> {
                let e = row_view(old(self).episodes_by_id@[episode_id]);
                let e2 = RowView { download_status: status, ..e };
                &&& rows_view(final(self).episodes_by_id@) == rows_view(
                    old(self).episodes_by_id@,
                ).insert(episode_id, e2)
                &&& r matches Some(x) && row_view(x) == e2
            },
            !old(self).episodes_by_id@.contains_key(episode_id) ==> final(self).episodes_by_id@
                == old(self).episodes_by_id@ && r is None,
            final(self).episodes_by_podcast@ == old(self).episodes_by_podcast@,
            final(self).podcasts_by_id@ == old(self).podcasts_by_id@,
    {
        match self.episodes_by_id.remove(&episode_id) {
            Some(mut ep) => {
                ep.download_status = status;
                let copy = copy_row(&ep);
                self.episodes_by_id.insert(episode_id, ep);
                proof {
                    assert(rows_view(self.episodes_by_id@) =~= rows_view(
                        old(self).episodes_by_id@,
                    ).insert(episode_id, row_view(copy)));
                }
                Some(copy)
            },
            None => None,
        }
    }

    /// Optimistically set a cached episode's playback status; returns the
    /// changed row to write through, or `None` when the episode is not cached.
    pub fn set_playback_status_locally(&mut self, episode_id: i32, status: PlaybackStatus) -> (r:
        Option<EpisodeRow>)
        ensures
            old(self).episodes_by_id@.contains_key(episode_id) ==> {
                let e = row_view(old(self).episodes_by_id@[episode_id]);
                let e2 = RowView { playback_status: status, ..e };
                &&& rows_view(final(self).episodes_by_id@) == rows_view(
                    old(self).episodes_by_id@,
                ).insert(episode_id, e2)
                &&& r matches Some(x) && row_view(x) == e2
            },
            !old(self).episodes_by_id@.contains_key(episode_id) ==> final(self).episodes_by_id@
                == old(self).episodes_by_id@ && r is None,
            final(self).episodes_by_podcast@ == old(self).episodes_by_podcast@,
            final(self).podcasts_by_id@ == old(self).podcasts_by_id@,
    {
        match self.episodes_by_id.remove(&episode_id) {
            Some(mut ep) => {
                ep.playback_status = status;
                let copy = copy_row(&ep);
                self.episodes_by_id.insert(episode_id, ep);
                proof {
                    assert(rows_view(self.episodes_by_id@) =~= rows_view(
                        old(self).episodes_by_id@,
                    ).insert(episode_id, row_view(copy)));
                }
                Some(copy)
            },
            None => None,
        }
    }

    /// Whether an episode's chapters are already loaded (`Some`, even empty).
    pub fn chapters_loaded(&self, episode_id: i32) -> (b: bool)
        ensures
            b == (self.episodes_by_id@.contains_key(episode_id)
                && self.episodes_by_id@[episode_id].chapters is Some),
    {
        match self.episodes_by_id.get(&episode_id) {
            Some(e) => e.chapters.is_some(),
            None => false,
        }
    }

    /// Of the referenced podcasts, those neither cached nor already being
    /// fetched, in order.
    pub fn missing_podcasts(&self, ids: &Vec<i32>, in_flight: &HashSet<i32>) -> (r: Vec<i32>)
        ensures
            r@ == ids@.filter(
                |x: i32| !self.podcasts_by_id@.contains_key(x) && !in_flight@.contains(x),
            ),
    {
        let mut r: Vec<i32> = Vec::new();
        let mut i: usize = 0;
        while i < ids.len()
            invariant
                i <= ids.len(),
                r@ == ids@.subrange(0, i as int).filter(
                    |x: i32| !self.podcasts_by_id@.contains_key(x) && !in_flight@.contains(x),
                ),
            decreases ids.len() - i,
        {
            let x = ids[i];
            proof {
                let pre = ids@.subrange(0, i as int);
                let cur = ids@.subrange(0, i + 1);
                assert(cur.drop_last() =~= pre);
                reveal(Seq::filter);
            }
            if !self.podcasts_by_id.contains_key(&x) && !in_flight.contains(&x) {
                r.push(x);
            }
            i = i + 1;
        }
        assert(ids@.subrange(0, ids.len() as int) =~= ids@);
        r
    }
}

/// `ids` without `x`, in order.
pub fn without(ids: &Vec<i32>, x: i32) -> (r: Vec<i32>)
    ensures
        r@ == ids@.filter(|y: i32| y != x),
{
    let mut r: Vec<i32> = Vec::new();
    let mut i: usize = 0;
    while i < ids.len()
        invariant
            i <= ids.len(),
            r@ == ids@.subrange(0, i as int).filter(|y: i32| y != x),
        decreases ids.len() - i,
    {
        proof {
            let cur = ids@.subrange(0, i + 1);
            assert(cur.drop_last() =~= ids@.subrange(0, i as int));
            reveal(Seq::filter);
        }
        if ids[i] != x {
            r.push(ids[i]);
        }
        i = i + 1;
    }
    assert(ids@.subrange(0, ids.len() as int) =~= ids@);
    r
}

/// A podcast's download/poll configuration.
#[derive(Clone, Copy, Debug, PartialEq, Eq, Structural)]
pub struct PodcastConfigRow {
    pub id: i32,
    pub poll_interval_seconds: Option<i64>,
    pub max_episodes: Option<i32>,
    pub max_concurrent_downloads: Option<i32>,
    pub auto_download_enabled: Option<bool>,
    pub created_at: i64,
    pub updated_at: i64,
}

/// A podcast row: what the pool keeps of a podcast.
#[derive(Debug)]
pub struct PodcastRow {
    pub id: i32,
    pub title: String,
    pub podcast_config_id: Option<i32>,
    pub podcast_config: Option<PodcastConfigRow>,
    pub created_at: i64,
    pub updated_at: i64,
}

impl Clone for PodcastRow {
    fn clone(&self) -> (r: Self)
        ensures
            r == *self,
    {
        PodcastRow {
            id: self.id,
            title: self.title.clone(),
            podcast_config_id: self.podcast_config_id,
            podcast_config: self.podcast_config,
            created_at: self.created_at,
            updated_at: self.updated_at,
        }
    }
}

/// The rows of a podcast page that are cached: those not unsubscribed this
/// session, in order.
pub open spec fn kept_podcasts(rows: Seq<PodcastRow>, unsubscribed: Set<i32>) -> Seq<PodcastRow> {
    rows.filter(|p: PodcastRow| !unsubscribed.contains(p.id))
}

/// The rows inserted by id in order (a later row wins).
pub open spec fn insert_podcasts(m: Map<i32, PodcastRow>, rows: Seq<PodcastRow>) -> Map<i32, PodcastRow>
    decreases rows.len(),
{
    if rows.len() == 0 {
        m
    } else {
        insert_podcasts(m, rows.drop_last()).insert(rows.last().id, rows.last())
    }
}

impl EpisodePool {
    /// Merge a server page of podcasts into the pool, dropping every podcast
    /// unsubscribed this session (a page fetched before the queued unsubscribe
    /// reached the server must not resurrect it). Returns the kept rows, to
    /// write to the store.
    pub fn cache_podcasts(&mut self, podcasts: Vec<PodcastRow>, unsubscribed: &HashSet<i32>) -> (kept:
        Vec<PodcastRow>)
        ensures
            kept@ == kept_podcasts(podcasts@, unsubscribed@),
            final(self).podcasts_by_id@ == insert_podcasts(old(self).podcasts_by_id@, kept@),
            final(self).episodes_by_id@ == old(self).episodes_by_id@,
            final(self).episodes_by_podcast@ == old(self).episodes_by_podcast@,
    {
        let mut kept: Vec<PodcastRow> = Vec::new();
        let mut src = podcasts;
        let ghost all = src@;
        let n0 = src.len();
        let mut i: usize = 0;
        while src.len() > 0
            invariant
                n0 == all.len(),
                i + src@.len() == all.len(),
                src@ == all.subrange(i as int, all.len() as int),
                kept@ == kept_podcasts(all.subrange(0, i as int), unsubscribed@),
                self.podcasts_by_id@ == insert_podcasts(old(self).podcasts_by_id@, kept@),
                self.episodes_by_id@ == old(self).episodes_by_id@,
                self.episodes_by_podcast@ == old(self).episodes_by_podcast@,
            decreases src.len(),
        {
            let p = src.remove(0);
            assert(p == all[i as int]);
            proof {
                let cur = all.subrange(0, i + 1);
                assert(cur.drop_last() =~= all.subrange(0, i as int));
                reveal(Seq::filter);
            }
            if !unsubscribed.contains(&p.id) {
                let ghost before = kept@;
                self.podcasts_by_id.insert(p.id, p.clone());
                kept.push(p);
                proof {
                    assert(kept@.drop_last() =~= before);
                }
            }
            i = i + 1;
            assert(src@ =~= all.subrange(i as int, all.len() as int));
        }
        assert(all.subrange(0, all.len() as int) =~= all);
        kept
    }
}

/// A stale server page never overwrites a facet whose operation is still
/// queued: when an episode in the pool has a queued played (or download)
/// operation, its merged row keeps the pool's value of that facet, whatever
/// the page says; with nothing queued, the page's value wins.
pub proof fn lemma_queued_facets_survive(
    eps: Seq<EpisodeRow>,
    pool: Map<i32, RowView>,
    pending: Seq<(u64, crate::outbox::OutboxOp)>,
    i: int,
)
    requires
        0 <= i < eps.len(),
        pool.contains_key(eps[i].id),
    ensures
        played_pending(pending, eps[i].id) ==> merged_batch(eps, pool, pending)[i].playback_status
            == pool[eps[i].id].playback_status,
        !played_pending(pending, eps[i].id) ==> merged_batch(eps, pool, pending)[i].playback_status
            == eps[i].playback_status,
        download_pending(pending, eps[i].id) ==> merged_batch(eps, pool, pending)[i].download_status
            == pool[eps[i].id].download_status,
        !download_pending(pending, eps[i].id) ==> merged_batch(eps, pool, pending)[i].download_status
            == eps[i].download_status,
        eps[i].chapters is None && pool[eps[i].id].chapters is Some ==> merged_batch(
            eps,
            pool,
            pending,
        )[i].chapters == pool[eps[i].id].chapters,
{
}

/// After a page is merged, every row of the page is in the pool under its id
/// and grouped under its podcast.
pub proof fn lemma_page_rows_are_cached(m: Map<i32, RowView>, g: Map<i32, Seq<i32>>, rows: Seq<RowView>, i: int)
    requires
        0 <= i < rows.len(),
    ensures
        insert_rows(m, rows).contains_key(rows[i].id),
        group_rows(g, rows).contains_key(rows[i].podcast_id),
        group_rows(g, rows)[rows[i].podcast_id].contains(rows[i].id),
    decreases rows.len(),
{
    let n = rows.len() - 1;
    if i < n {
        lemma_page_rows_are_cached(m, g, rows.drop_last(), i);
        assert(rows.drop_last()[i] == rows[i]);
        let g1 = group_rows(g, rows.drop_last());
        let r = rows.last();
        if r.podcast_id == rows[i].podcast_id {
            let ids = list_or_empty(g1, r.podcast_id);
            assert(ids.contains(rows[i].id));
            if !ids.contains(r.id) {
                let k = choose|k: int| 0 <= k < ids.len() && ids[k] == rows[i].id;
                assert(ids.push(r.id)[k] == rows[i].id);
            }
        }
    } else {
        let g1 = group_rows(g, rows.drop_last());
        let ids = list_or_empty(g1, rows[i].podcast_id);
        if !ids.contains(rows[i].id) {
            assert(ids.push(rows[i].id)[ids.len() as int] == rows[i].id);
        }
    }
}

/// A config edit applied: each field given is set, the others are kept.
pub open spec fn apply_config(c: PodcastConfigRow, d: crate::outbox::PodcastConfigUpdateData) -> PodcastConfigRow {
    PodcastConfigRow {
        poll_interval_seconds: match d.poll_interval_seconds {
            Some(v) => Some(v),
            None => c.poll_interval_seconds,
        },
        max_episodes: match d.max_episodes {
            Some(v) => Some(v),
            None => c.max_episodes,
        },
        max_concurrent_downloads: match d.max_concurrent_downloads {
            Some(v) => Some(v),
            None => c.max_concurrent_downloads,
        },
        auto_download_enabled: match d.auto_download_enabled {
            Some(v) => Some(v),
            None => c.auto_download_enabled,
        },
        ..c
    }
}

/// The podcast with an offline config edit applied: its config (or, when it
/// has none, a fresh one with id `config_id` dated like the podcast) edited,
/// and the podcast pointed at it.
pub open spec fn config_edited(
    pod: PodcastRow,
    config_id: i32,
    d: crate::outbox::PodcastConfigUpdateData,
) -> PodcastRow {
    let base = match pod.podcast_config {
        Some(c) => c,
        None => PodcastConfigRow {
            id: config_id,
            poll_interval_seconds: None,
            max_episodes: None,
            max_concurrent_downloads: None,
            auto_download_enabled: None,
            created_at: pod.created_at,
            updated_at: pod.updated_at,
        },
    };
    let cfg = apply_config(base, d);
    PodcastRow { podcast_config_id: Some(cfg.id), podcast_config: Some(cfg), ..pod }
}

impl EpisodePool {
    /// Apply an offline config edit to a cached podcast and merge it back
    /// through [`Self::cache_podcasts`]; an uncached podcast is left alone.
    /// Returns the rows to write to the store.
    pub fn update_podcast_config_locally(
        &mut self,
        podcast_id: i32,
        config_id: i32,
        data: &crate::outbox::PodcastConfigUpdateData,
        unsubscribed: &HashSet<i32>,
    ) -> (stored: Vec<PodcastRow>)
        ensures
            old(self).podcasts_by_id@.contains_key(podcast_id) ==> {
                let pod = config_edited(old(self).podcasts_by_id@[podcast_id], config_id, *data);
                &&& stored@ == kept_podcasts(seq![pod], unsubscribed@)
                &&& final(self).podcasts_by_id@ == insert_podcasts(old(self).podcasts_by_id@, stored@)
            },
            !old(self).podcasts_by_id@.contains_key(podcast_id) ==> stored@.len() == 0
                && final(self).podcasts_by_id@ == old(self).podcasts_by_id@,
            final(self).episodes_by_id@ == old(self).episodes_by_id@,
            final(self).episodes_by_podcast@ == old(self).episodes_by_podcast@,
    {
        let mut pod = match self.podcasts_by_id.get(&podcast_id) {
            Some(p) => p.clone(),
            None => {
                return Vec::new();
            },
        };
        let mut cfg = match pod.podcast_config {
            Some(c) => c,
            None => PodcastConfigRow {
                id: config_id,
                poll_interval_seconds: None,
                max_episodes: None,
                max_concurrent_downloads: None,
                auto_download_enabled: None,
                created_at: pod.created_at,
                updated_at: pod.updated_at,
            },
        };
        match data.poll_interval_seconds {
            Some(v) => {
                cfg.poll_interval_seconds = Some(v);
            },
            None => {},
        }
        match data.max_episodes {
            Some(v) => {
                cfg.max_episodes = Some(v);
            },
            None => {},
        }
        match data.max_concurrent_downloads {
            Some(v) => {
                cfg.max_concurrent_downloads = Some(v);
            },
            None => {},
        }
        match data.auto_download_enabled {
            Some(v) => {
                cfg.auto_download_enabled = Some(v);
            },
            None => {},
        }
        pod.podcast_config_id = Some(cfg.id);
        pod.podcast_config = Some(cfg);
        let ghost edited = pod;
        let mut batch: Vec<PodcastRow> = Vec::new();
        batch.push(pod);
        assert(batch@ =~= seq![edited]);
        self.cache_podcasts(batch, unsubscribed)
    }

    /// Drop a cached podcast's config (it reverts to the server defaults) and
    /// merge it back through [`Self::cache_podcasts`]; an uncached podcast is
    /// left alone. Returns the rows to write to the store.
    pub fn remove_podcast_config_locally(&mut self, podcast_id: i32, unsubscribed: &HashSet<i32>) -> (stored:
        Vec<PodcastRow>)
        ensures
            old(self).podcasts_by_id@.contains_key(podcast_id) ==> {
                let pod = PodcastRow {
                    podcast_config_id: None,
                    podcast_config: None,
                    ..old(self).podcasts_by_id@[podcast_id]
                };
                &&& stored@ == kept_podcasts(seq![pod], unsubscribed@)
                &&& final(self).podcasts_by_id@ == insert_podcasts(old(self).podcasts_by_id@, stored@)
            },
            !old(self).podcasts_by_id@.contains_key(podcast_id) ==> stored@.len() == 0
                && final(self).podcasts_by_id@ == old(self).podcasts_by_id@,
            final(self).episodes_by_id@ == old(self).episodes_by_id@,
            final(self).episodes_by_podcast@ == old(self).episodes_by_podcast@,
    {
        let mut pod = match self.podcasts_by_id.get(&podcast_id) {
            Some(p) => p.clone(),
            None => {
                return Vec::new();
            },
        };
        pod.podcast_config_id = None;
        pod.podcast_config = None;
        let ghost edited = pod;
        let mut batch: Vec<PodcastRow> = Vec::new();
        batch.push(pod);
        assert(batch@ =~= seq![edited]);
        self.cache_podcasts(batch, unsubscribed)
    }
}

} // verus!
