//! The in-memory playlist pool: the loaded playlists, each playlist's episode
//! ids, and the resolved queue (the default playlist); the merge of server rows
//! into it under the membership guard, and the optimistic local edits.

use std::collections::{HashMap, HashSet};
use vstd::prelude::*;
use crate::pending::{PendingFacets, facets_of, membership_pending};
use crate::pool::{ids_view, list_or_empty};
use crate::navigation::{find_first, first_pos, is_first_pos};
use crate::outbox::PlaylistUpdateData;

verus! {

broadcast use vstd::std_specs::hash::group_hash_axioms;

/// A playlist row.
#[derive(Debug)]
pub struct PlaylistRow {
    pub id: i32,
    pub name: String,
    pub description: Option<String>,
    pub is_default: bool,
    /// Place in the user's manual order.
    pub position: i32,
    pub on_remove_delete_file_server: bool,
    pub on_remove_delete_file_client: bool,
    pub created_at: i64,
    pub updated_at: i64,
    /// The membership, when the row carries it.
    pub episode_ids: Option<Vec<i32>>,
}

/// What a playlist row holds, as values.
pub struct PlaylistView {
    pub id: i32,
    pub name: Seq<char>,
    pub description: Option<Seq<char>>,
    pub is_default: bool,
    pub position: i32,
    pub on_remove_delete_file_server: bool,
    pub on_remove_delete_file_client: bool,
    pub created_at: i64,
    pub updated_at: i64,
    pub episode_ids: Option<Seq<i32>>,
}

/// The value of a playlist row.
pub open spec fn pl_view(p: PlaylistRow) -> PlaylistView {
    PlaylistView {
        id: p.id,
        name: p.name@,
        description: match p.description {
            Some(d) => Some(d@),
            None => None,
        },
        is_default: p.is_default,
        position: p.position,
        on_remove_delete_file_server: p.on_remove_delete_file_server,
        on_remove_delete_file_client: p.on_remove_delete_file_client,
        created_at: p.created_at,
        updated_at: p.updated_at,
        episode_ids: match p.episode_ids {
            Some(v) => Some(v@),
            None => None,
        },
    }
}

/// A list of playlist rows as values.
pub open spec fn pls_view(s: Seq<PlaylistRow>) -> Seq<PlaylistView> {
    s.map_values(|p: PlaylistRow| pl_view(p))
}

/// Whether the queue (the default playlist) is known.
#[derive(Clone, Copy, Debug, PartialEq, Eq, Structural)]
pub enum QueueState {
    /// Not resolved yet.
    Unknown,
    /// Known to have no default playlist.
    Absent,
    /// The default playlist's id.
    Present(i32),
}

/// The in-memory playlist pool.
pub struct PlaylistPool {
    pub playlists: Vec<PlaylistRow>,
    pub episodes_by_playlist: HashMap<i32, Vec<i32>>,
    pub queue: QueueState,
}

/// A copy of an id list.
pub fn copy_ids(v: &Vec<i32>) -> (r: Vec<i32>)
    ensures
        r@ == v@,
{
    let mut r: Vec<i32> = Vec::new();
    let mut i: usize = 0;
    while i < v.len()
        invariant
            i <= v.len(),
            r@ == v@.subrange(0, i as int),
        decreases v.len() - i,
    {
        r.push(v[i]);
        i = i + 1;
        assert(r@ =~= v@.subrange(0, i as int));
    }
    assert(r@ =~= v@);
    r
}

fn copy_opt_ids(v: &Option<Vec<i32>>) -> (r: Option<Vec<i32>>)
    ensures
        match (r, *v) {
            (Some(a), Some(b)) => a@ == b@,
            (None, None) => true,
            _ => false,
        },
{
    match v {
        Some(x) => Some(copy_ids(x)),
        None => None,
    }
}

/// A copy of a playlist row.
pub fn copy_playlist(p: &PlaylistRow) -> (r: PlaylistRow)
    ensures
        pl_view(r) == pl_view(*p),
{
    PlaylistRow {
        id: p.id,
        name: p.name.clone(),
        description: match &p.description {
            Some(d) => Some(d.clone()),
            None => None,
        },
        is_default: p.is_default,
        position: p.position,
        on_remove_delete_file_server: p.on_remove_delete_file_server,
        on_remove_delete_file_client: p.on_remove_delete_file_client,
        created_at: p.created_at,
        updated_at: p.updated_at,
        episode_ids: copy_opt_ids(&p.episode_ids),
    }
}

/// The position of the first row with `id`, or -1.
pub open spec fn slot_of(s: Seq<PlaylistView>, id: i32) -> int
    decreases s.len(),
{
    if s.len() == 0 {
        -1
    } else if s[0].id == id {
        0
    } else {
        let r = slot_of(s.drop_first(), id);
        if r < 0 {
            -1
        } else {
            r + 1
        }
    }
}

/// The id of the first default playlist, if any.
pub open spec fn first_default(s: Seq<PlaylistView>) -> Option<i32>
    decreases s.len(),
{
    if s.len() == 0 {
        None
    } else if s[0].is_default {
        Some(s[0].id)
    } else {
        first_default(s.drop_first())
    }
}

/// The queue re-resolved from the pool: the first default playlist when there
/// is one; otherwise `Absent` when absence may be asserted, else unchanged.
pub open spec fn recompute_spec(q: QueueState, s: Seq<PlaylistView>, allow_absent: bool) -> QueueState {
    match first_default(s) {
        Some(id) => QueueState::Present(id),
        None => if allow_absent {
            QueueState::Absent
        } else {
            q
        },
    }
}

/// The queue's playlist id, when known.
pub open spec fn queue_id_spec(q: QueueState) -> Option<i32> {
    match q {
        QueueState::Present(id) => Some(id),
        _ => None,
    }
}

/// A server row under the membership guard: while a membership operation on
/// the playlist is queued, a row carrying membership takes the local one.
pub open spec fn guard_spec(
    p: PlaylistView,
    pending: Seq<(u64, crate::outbox::OutboxOp)>,
    local: Map<i32, Seq<i32>>,
) -> PlaylistView {
    if p.episode_ids is Some && membership_pending(pending, p.id) && local.contains_key(p.id) {
        PlaylistView { episode_ids: Some(local[p.id]), ..p }
    } else {
        p
    }
}

/// Every row of a batch under the membership guard.
pub open spec fn guard_batch(
    s: Seq<PlaylistView>,
    pending: Seq<(u64, crate::outbox::OutboxOp)>,
    local: Map<i32, Seq<i32>>,
) -> Seq<PlaylistView> {
    s.map_values(|p: PlaylistView| guard_spec(p, pending, local))
}

/// The ids of the default rows of a batch, in order.
pub open spec fn default_ids(s: Seq<PlaylistView>) -> Seq<i32>
    decreases s.len(),
{
    if s.len() == 0 {
        Seq::empty()
    } else if s.last().is_default {
        default_ids(s.drop_last()).push(s.last().id)
    } else {
        default_ids(s.drop_last())
    }
}

/// The pool's rows with the default flag cleared on every row that is not
/// one of the batch's new defaults (when the batch brings any).
pub open spec fn clear_defaults(s: Seq<PlaylistView>, new_defaults: Seq<i32>) -> Seq<PlaylistView> {
    if new_defaults.len() == 0 {
        s
    } else {
        s.map_values(
            |p: PlaylistView|
                if p.is_default && !new_defaults.contains(p.id) {
                    PlaylistView { is_default: false, ..p }
                } else {
                    p
                },
        )
    }
}

/// One row upserted into the pool: its membership (when carried) replaces the
/// index entry; an existing row with its id is replaced (keeping the old
/// membership when the new row carries none); a new row is appended with an
/// (empty, unless already known) index entry.
pub open spec fn upsert_one(
    pls: Seq<PlaylistView>,
    m: Map<i32, Seq<i32>>,
    p: PlaylistView,
) -> (Seq<PlaylistView>, Map<i32, Seq<i32>>) {
    let m1 = match p.episode_ids {
        Some(ids) => m.insert(p.id, ids),
        None => m,
    };
    let k = slot_of(pls, p.id);
    if k >= 0 {
        let np = if p.episode_ids is None {
            PlaylistView { episode_ids: pls[k].episode_ids, ..p }
        } else {
            p
        };
        (pls.update(k, np), m1)
    } else {
        (pls.push(p), if m1.contains_key(p.id) {
            m1
        } else {
            m1.insert(p.id, Seq::empty())
        })
    }
}

/// A batch upserted in order.
pub open spec fn upsert_all(
    pls: Seq<PlaylistView>,
    m: Map<i32, Seq<i32>>,
    batch: Seq<PlaylistView>,
) -> (Seq<PlaylistView>, Map<i32, Seq<i32>>)
    decreases batch.len(),
{
    if batch.len() == 0 {
        (pls, m)
    } else {
        let (p1, m1) = upsert_all(pls, m, batch.drop_last());
        upsert_one(p1, m1, batch.last())
    }
}

/// Whether the queue playlist is now in the pool without its default flag.
pub open spec fn queue_unset(q: QueueState, s: Seq<PlaylistView>) -> bool {
    match q {
        QueueState::Present(qid) => exists|i: int| 0 <= i < s.len() && #[trigger] unset_at(s, i, qid),
        _ => false,
    }
}

/// Whether row `i` is the playlist `qid` without its default flag.
pub open spec fn unset_at(s: Seq<PlaylistView>, i: int, qid: i32) -> bool {
    s[i].id == qid && !s[i].is_default
}

/// The position of the first row with `id` in `s`, if any.
fn find_slot(s: &Vec<PlaylistRow>, id: i32) -> (r: Option<usize>)
    ensures
        match r {
            Some(k) => k < s@.len() && slot_of(pls_view(s@), id) == k as int,
            None => slot_of(pls_view(s@), id) < 0,
        },
{
    let mut k: usize = 0;
    while k < s.len()
        invariant
            k <= s.len(),
            forall|j: int| 0 <= j < k ==> s@[j].id != id,
        decreases s.len() - k,
    {
        if s[k].id == id {
            proof {
                lemma_slot_of_first(pls_view(s@), id, k as int);
            }
            return Some(k);
        }
        k = k + 1;
    }
    proof {
        lemma_slot_of_absent(pls_view(s@), id);
    }
    None
}

proof fn lemma_slot_of_first(s: Seq<PlaylistView>, id: i32, k: int)
    requires
        0 <= k < s.len(),
        s[k].id == id,
        forall|j: int| 0 <= j < k ==> s[j].id != id,
    ensures
        slot_of(s, id) == k,
    decreases s.len(),
{
    if k > 0 {
        let t = s.drop_first();
        assert forall|j: int| 0 <= j < k - 1 implies t[j].id != id by {
            assert(t[j] == s[j + 1]);
        }
        lemma_slot_of_first(t, id, k - 1);
    }
}

proof fn lemma_slot_of_absent(s: Seq<PlaylistView>, id: i32)
    requires
        forall|j: int| 0 <= j < s.len() ==> s[j].id != id,
    ensures
        slot_of(s, id) < 0,
    decreases s.len(),
{
    if s.len() > 0 {
        let t = s.drop_first();
        assert forall|j: int| 0 <= j < t.len() implies t[j].id != id by {
            assert(t[j] == s[j + 1]);
        }
        lemma_slot_of_absent(t, id);
    }
}

proof fn lemma_slot_in_range(s: Seq<PlaylistView>, id: i32)
    ensures
        slot_of(s, id) < s.len(),
        slot_of(s, id) >= 0 ==> s[slot_of(s, id)].id == id,
    decreases s.len(),
{
    if s.len() > 0 && s[0].id != id {
        lemma_slot_in_range(s.drop_first(), id);
    }
}

proof fn lemma_first_default(s: Seq<PlaylistView>, k: int)
    requires
        0 <= k <= s.len(),
        forall|j: int| 0 <= j < k ==> !s[j].is_default,
        k < s.len() ==> s[k].is_default,
    ensures
        first_default(s) == (if k < s.len() {
            Some(s[k].id)
        } else {
            None::<i32>
        }),
    decreases s.len(),
{
    if s.len() > 0 && k > 0 {
        let t = s.drop_first();
        assert forall|j: int| 0 <= j < k - 1 implies !t[j].is_default by {
            assert(t[j] == s[j + 1]);
        }
        if k < s.len() {
            assert(t[k - 1] == s[k]);
        }
        lemma_first_default(t, k - 1);
    }
}

impl PlaylistPool {
    /// An empty pool with the queue not yet resolved.
    pub fn new() -> (p: PlaylistPool)
        ensures
            p.playlists@.len() == 0,
            p.episodes_by_playlist@ == Map::<i32, Vec<i32>>::empty(),
            p.queue == QueueState::Unknown,
    {
        PlaylistPool {
            playlists: Vec::new(),
            episodes_by_playlist: HashMap::new(),
            queue: QueueState::Unknown,
        }
    }

    /// The queue's playlist id, when known.
    pub fn queue_id(&self) -> (r: Option<i32>)
        ensures
            r == queue_id_spec(self.queue),
    {
        match self.queue {
            QueueState::Present(id) => Some(id),
            _ => None,
        }
    }

    /// Re-resolve the queue from the loaded playlists (see [`recompute_spec`]).
    pub fn recompute_queue(&mut self, allow_absent: bool)
        ensures
            final(self).queue == recompute_spec(
                old(self).queue,
                pls_view(old(self).playlists@),
                allow_absent,
            ),
            final(self).playlists@ == old(self).playlists@,
            final(self).episodes_by_playlist@ == old(self).episodes_by_playlist@,
    {
        let mut k: usize = 0;
        while k < self.playlists.len()
            invariant
                k <= self.playlists.len(),
                self.playlists@ == old(self).playlists@,
                self.episodes_by_playlist@ == old(self).episodes_by_playlist@,
                self.queue == old(self).queue,
                forall|j: int| 0 <= j < k ==> !self.playlists@[j].is_default,
            decreases self.playlists.len() - k,
        {
            if self.playlists[k].is_default {
                proof {
                    lemma_first_default(pls_view(self.playlists@), k as int);
                }
                self.queue = QueueState::Present(self.playlists[k].id);
                return;
            }
            k = k + 1;
        }
        proof {
            lemma_first_default(pls_view(self.playlists@), k as int);
        }
        if allow_absent {
            self.queue = QueueState::Absent;
        }
    }

    /// "queue" when `playlist_id` is the queue playlist, else "playlist": the
    /// noun the bulk add/remove summary toasts use.
    pub fn playlist_dest(&self, playlist_id: i32) -> (r: &'static str)
        ensures
            queue_id_spec(self.queue) == Some(playlist_id) ==> r@ == "queue"@,
            queue_id_spec(self.queue) != Some(playlist_id) ==> r@ == "playlist"@,
    {
        if self.queue_id() == Some(playlist_id) {
            "queue"
        } else {
            "playlist"
        }
    }
}

impl PlaylistPool {
    /// Upsert one row (see [`upsert_one`]).
    fn upsert_row(&mut self, p: PlaylistRow)
        ensures
            (pls_view(final(self).playlists@), ids_view(final(self).episodes_by_playlist@))
                == upsert_one(
                pls_view(old(self).playlists@),
                ids_view(old(self).episodes_by_playlist@),
                pl_view(p),
            ),
            final(self).queue == old(self).queue,
    {
        let ghost pv = pl_view(p);
        let ghost m0 = ids_view(self.episodes_by_playlist@);
        let ghost s0 = pls_view(self.playlists@);
        match &p.episode_ids {
            Some(ids) => {
                self.episodes_by_playlist.insert(p.id, copy_ids(ids));
            },
            None => {},
        }
        let ghost m1 = match pv.episode_ids {
            Some(ids) => m0.insert(pv.id, ids),
            None => m0,
        };
        assert(ids_view(self.episodes_by_playlist@) =~= m1);
        proof {
            lemma_slot_in_range(s0, pv.id);
        }
        match find_slot(&self.playlists, p.id) {
            Some(k) => {
                let prev_ids = copy_opt_ids(&self.playlists[k].episode_ids);
                let mut np = p;
                if np.episode_ids.is_none() {
                    np.episode_ids = prev_ids;
                }
                self.playlists.set(k, np);
                assert(pls_view(self.playlists@) =~= s0.update(
                    k as int,
                    if pv.episode_ids is None {
                        PlaylistView { episode_ids: s0[k as int].episode_ids, ..pv }
                    } else {
                        pv
                    },
                ));
            },
            None => {
                let id = p.id;
                if !self.episodes_by_playlist.contains_key(&id) {
                    self.episodes_by_playlist.insert(id, Vec::new());
                    assert(ids_view(self.episodes_by_playlist@) =~= m1.insert(id, Seq::empty()));
                }
                self.playlists.push(p);
                assert(pls_view(self.playlists@) =~= s0.push(pv));
            },
        }
    }

    /// Merge server playlist rows into the pool. While a membership operation
    /// on a playlist is queued, a row carrying membership takes the local
    /// membership (a stale page must neither drop a queued add nor resurrect a
    /// queued remove). A batch bringing new defaults clears the default flag
    /// on every other loaded row; each row is then upserted in order (see
    /// [`upsert_one`]); finally the queue is re-resolved, asserting absence
    /// only when the batch brought a default or unset the queue's flag.
    /// Returns the guarded rows to write to the store.
    pub fn cache_playlists(
        &mut self,
        playlists: Vec<PlaylistRow>,
        pending: &Vec<(u64, crate::outbox::OutboxOp)>,
    ) -> (stored: Vec<PlaylistRow>)
        ensures
            ({
                let g = guard_batch(
                    pls_view(playlists@),
                    pending@,
                    ids_view(old(self).episodes_by_playlist@),
                );
                let nd = default_ids(g);
                let (pl2, m2) = upsert_all(
                    clear_defaults(pls_view(old(self).playlists@), nd),
                    ids_view(old(self).episodes_by_playlist@),
                    g,
                );
                &&& pls_view(stored@) == g
                &&& pls_view(final(self).playlists@) == pl2
                &&& ids_view(final(self).episodes_by_playlist@) == m2
                &&& playlists@.len() > 0 ==> final(self).queue == recompute_spec(
                    old(self).queue,
                    pl2,
                    nd.len() > 0 || queue_unset(old(self).queue, pl2),
                )
                &&& playlists@.len() == 0 ==> final(self).queue == old(self).queue
            }),
    {
        if playlists.len() == 0 {
            let ghost g = guard_batch(
                pls_view(playlists@),
                pending@,
                ids_view(old(self).episodes_by_playlist@),
            );
            assert(g =~= Seq::<PlaylistView>::empty());
            assert(pls_view(playlists@) =~= g);
            return playlists;
        }
        let facets = crate::pending::pending_facets(pending);
        let ghost local = ids_view(self.episodes_by_playlist@);
        let ghost g = guard_batch(pls_view(playlists@), pending@, local);
        // The membership guard, applied before the store write.
        let mut src = playlists;
        let ghost src0 = src@;
        let mut guarded: Vec<PlaylistRow> = Vec::new();
        let mut stored: Vec<PlaylistRow> = Vec::new();
        let mut defaults: Vec<i32> = Vec::new();
        while src.len() > 0
            invariant
                guarded@.len() + src@.len() == src0.len(),
                src@ == src0.subrange(guarded@.len() as int, src0.len() as int),
                facets_of(facets, pending@),
                local == ids_view(self.episodes_by_playlist@),
                g == guard_batch(pls_view(src0), pending@, local),
                pls_view(guarded@) == g.subrange(0, guarded@.len() as int),
                pls_view(stored@) == g.subrange(0, guarded@.len() as int),
                defaults@ == default_ids(g.subrange(0, guarded@.len() as int)),
            decreases src.len(),
        {
            let ghost n = guarded@.len() as int;
            let mut p = src.remove(0);
            assert(p == src0[n]);
            if p.episode_ids.is_some() && facets.membership.contains(&p.id) {
                match self.episodes_by_playlist.get(&p.id) {
                    Some(local_ids) => {
                        p.episode_ids = Some(copy_ids(local_ids));
                    },
                    None => {},
                }
            }
            assert(pl_view(p) == g[n]);
            if p.is_default {
                defaults.push(p.id);
            }
            stored.push(copy_playlist(&p));
            guarded.push(p);
            proof {
                let cur = g.subrange(0, n + 1);
                assert(cur.drop_last() =~= g.subrange(0, n));
                assert(pls_view(guarded@) =~= cur);
                assert(pls_view(stored@) =~= cur);
                assert(src@ =~= src0.subrange(n + 1, src0.len() as int));
            }
        }
        assert(g.subrange(0, g.len() as int) =~= g);
        let prev_queue = self.queue_id();
        // A batch bringing new defaults clears the flag on the other rows.
        if defaults.len() > 0 {
            let mut old_rows: Vec<PlaylistRow> = Vec::new();
            std::mem::swap(&mut old_rows, &mut self.playlists);
            let ghost o0 = old_rows@;
            let mut kept: Vec<PlaylistRow> = Vec::new();
            while old_rows.len() > 0
                invariant
                    kept@.len() + old_rows@.len() == o0.len(),
                    old_rows@ == o0.subrange(kept@.len() as int, o0.len() as int),
                    pls_view(kept@) == clear_defaults(pls_view(o0), defaults@).subrange(
                        0,
                        kept@.len() as int,
                    ),
                    defaults@.len() > 0,
                decreases old_rows.len(),
            {
                let ghost n = kept@.len() as int;
                let mut e = old_rows.remove(0);
                assert(e == o0[n]);
                if e.is_default {
                    let mut listed = false;
                    let mut t: usize = 0;
                    while t < defaults.len()
                        invariant
                            t <= defaults.len(),
                            listed <==> exists|u: int| 0 <= u < t && defaults@[u] == e.id,
                        decreases defaults.len() - t,
                    {
                        if defaults[t] == e.id {
                            listed = true;
                        }
                        t = t + 1;
                    }
                    if !listed {
                        e.is_default = false;
                    }
                }
                kept.push(e);
                proof {
                    let c = clear_defaults(pls_view(o0), defaults@);
                    assert(pls_view(kept@) =~= c.subrange(0, n + 1));
                    assert(old_rows@ =~= o0.subrange(n + 1, o0.len() as int));
                }
            }
            self.playlists = kept;
            assert(clear_defaults(pls_view(o0), defaults@).subrange(
                0,
                o0.len() as int,
            ) =~= clear_defaults(pls_view(o0), defaults@));
        } else {
            assert(clear_defaults(pls_view(old(self).playlists@), defaults@) == pls_view(
                old(self).playlists@,
            ));
        }
        // Upsert in order.
        let ghost base = (pls_view(self.playlists@), ids_view(self.episodes_by_playlist@));
        let ghost gq = guarded@;
        let mut rest = guarded;
        while rest.len() > 0
            invariant
                rest@.len() <= gq.len(),
                rest@ == gq.subrange(gq.len() - rest@.len(), gq.len() as int),
                pls_view(gq) == g,
                (pls_view(self.playlists@), ids_view(self.episodes_by_playlist@)) == upsert_all(
                    base.0,
                    base.1,
                    g.subrange(0, gq.len() - rest@.len()),
                ),
                self.queue == old(self).queue,
            decreases rest.len(),
        {
            let ghost n = gq.len() - rest@.len();
            let p = rest.remove(0);
            assert(p == gq[n]);
            self.upsert_row(p);
            proof {
                let cur = g.subrange(0, n + 1);
                assert(cur.drop_last() =~= g.subrange(0, n));
                assert(cur.last() == pl_view(gq[n]));
                assert(rest@ =~= gq.subrange(n + 1, gq.len() as int));
            }
        }
        assert(g.subrange(0, gq.len() as int) =~= g);
        // Re-resolve the queue.
        let ghost pl2 = pls_view(self.playlists@);
        let unset = match prev_queue {
            Some(qid) => {
                let mut found = false;
                let mut k: usize = 0;
                while k < self.playlists.len()
                    invariant
                        k <= self.playlists.len(),
                        pl2 == pls_view(self.playlists@),
                        found <==> exists|i: int| 0 <= i < k && #[trigger] unset_at(pl2, i, qid),
                    decreases self.playlists.len() - k,
                {
                    let ghost f0 = found;
                    if self.playlists[k].id == qid && !self.playlists[k].is_default {
                        found = true;
                    }
                    proof {
                        assert(pl2[k as int] == pl_view(self.playlists@[k as int]));
                        assert(unset_at(pl2, k as int, qid) == (self.playlists@[k as int].id == qid
                            && !self.playlists@[k as int].is_default));
                        if exists|i: int| 0 <= i < k + 1 && #[trigger] unset_at(pl2, i, qid) {
                            let i = choose|i: int| 0 <= i < k + 1 && #[trigger] unset_at(pl2, i, qid);
                            if i < k {
                                assert(f0);
                            }
                        }
                    }
                    k = k + 1;
                }
                found
            },
            None => false,
        };
        assert(unset == queue_unset(old(self).queue, pl2));
        self.recompute_queue(defaults.len() > 0 || unset);
        stored
    }
}

/// The keys of an id-list map, each once.
pub fn map_keys(m: &HashMap<i32, Vec<i32>>) -> (r: Vec<i32>)
    ensures
        r@.to_set() == m@.dom(),
        r@.no_duplicates(),
{
    let mut keys: Vec<i32> = Vec::new();
    for k in it: m.keys()
        invariant
            keys@.len() == it.index(),
            forall|i: int| 0 <= i < it.index() ==> keys@[i] == *it.seq()[i],
            it.seq().unref().to_set() == m@.dom(),
            it.seq().no_duplicates(),
            forall|i: int| 0 <= i < keys@.len() ==> m@.dom().contains(#[trigger] keys@[i]),
            forall|x: i32|
                m@.dom().contains(x) ==> (keys@.contains(x) || exists|i: int|
                    it.index() <= i < it.seq().len() && *it.seq()[i] == x),
    {
        proof {
            assert(it.seq().unref()[it.index()] == *k);
            assert(it.seq().unref().to_set().contains(*k));
            assert(m@.dom().contains(*k));
        }
        let ghost before = keys@;
        keys.push(*k);
        proof {
            assert forall|x: i32| m@.dom().contains(x) implies (keys@.contains(x) || exists|i: int|
                it.index() + 1 <= i < it.seq().len() && *it.seq()[i] == x) by {
                if before.contains(x) {
                    let j = choose|j: int| 0 <= j < before.len() && before[j] == x;
                    assert(keys@[j] == x);
                } else {
                    let i = choose|i: int| it.index() <= i < it.seq().len() && *it.seq()[i] == x;
                    if i == it.index() {
                        assert(keys@[keys@.len() - 1] == x);
                    }
                }
            }
        }
    }
    assert forall|x: i32| keys@.to_set().contains(x) implies m@.dom().contains(x) by {
        let j = choose|j: int| 0 <= j < keys@.len() && keys@[j] == x;
        assert(m@.dom().contains(keys@[j]));
    }
    assert(keys@.to_set() =~= m@.dom());
    keys
}

/// `p` clamped into `0..=len`.
pub open spec fn clamp_index(p: i32, len: nat) -> int {
    if p < 0 {
        0
    } else if p > len {
        len as int
    } else {
        p as int
    }
}

/// `e` added to a membership list: inserted at the clamped `pos` when given,
/// else appended; unchanged when already a member.
pub open spec fn add_member(ids: Seq<i32>, e: i32, pos: Option<i32>) -> Seq<i32> {
    if ids.contains(e) {
        ids
    } else {
        match pos {
            Some(p) => ids.insert(clamp_index(p, ids.len()), e),
            None => ids.push(e),
        }
    }
}

/// `id` pulled out of `ids` (its first occurrence) and re-inserted at `to`
/// clamped into the shortened list; unchanged when absent.
pub open spec fn reorder_spec(ids: Seq<i32>, id: i32, to: i32) -> Seq<i32> {
    if ids.contains(id) {
        let r = ids.remove(first_pos(ids, id));
        r.insert(clamp_index(to, r.len()), id)
    } else {
        ids
    }
}

fn clamp_exec(p: i32, len: usize) -> (r: usize)
    ensures
        r as int == clamp_index(p, len as nat),
{
    if p < 0 {
        0
    } else if p as usize > len {
        len
    } else {
        p as usize
    }
}

/// Move `id` within `ids` to index `to` (clamped); a no-op when absent.
pub fn reorder_ids(ids: &mut Vec<i32>, id: i32, to: i32)
    ensures
        final(ids)@ == reorder_spec(old(ids)@, id, to),
{
    match find_first(ids, id) {
        Some(i) => {
            proof {
                assert(ids@.contains(id)) by {
                    assert(ids@[i as int] == id);
                }
            }
            ids.remove(i);
            let at = clamp_exec(to, ids.len());
            ids.insert(at, id);
        },
        None => {},
    }
}

/// Add `e` to a membership list (see [`add_member`]).
fn add_member_exec(ids: &mut Vec<i32>, e: i32, position: Option<i32>)
    ensures
        final(ids)@ == add_member(old(ids)@, e, position),
{
    match find_first(ids, e) {
        Some(i) => {
            proof {
                assert(ids@[i as int] == e);
            }
        },
        None => {
            match position {
                Some(p) => {
                    let at = clamp_exec(p, ids.len());
                    ids.insert(at, e);
                },
                None => {
                    ids.push(e);
                },
            }
        },
    }
}

/// A membership list without the ids of `ids`, in order.
pub open spec fn pruned(v: Seq<i32>, ids: Set<i32>) -> Seq<i32> {
    v.filter(|x: i32| !ids.contains(x))
}

/// Whether a membership list holds an id of `ids`.
pub open spec fn holds_any(members: Seq<i32>, ids: Set<i32>) -> bool {
    exists|i: int| 0 <= i < members.len() && ids.contains(#[trigger] members[i])
}

impl PlaylistPool {
    /// Insert an episode into a playlist's membership (creating the entry):
    /// at the clamped `position` when given, else appended; a no-op when the
    /// episode is already a member.
    pub fn add_to_playlist_locally(&mut self, playlist_id: i32, episode_id: i32, position: Option<i32>)
        ensures
            ids_view(final(self).episodes_by_playlist@) == ids_view(
                old(self).episodes_by_playlist@,
            ).insert(
                playlist_id,
                add_member(
                    list_or_empty(ids_view(old(self).episodes_by_playlist@), playlist_id),
                    episode_id,
                    position,
                ),
            ),
            final(self).playlists@ == old(self).playlists@,
            final(self).queue == old(self).queue,
    {
        let mut ids = match self.episodes_by_playlist.remove(&playlist_id) {
            Some(v) => v,
            None => Vec::new(),
        };
        add_member_exec(&mut ids, episode_id, position);
        self.episodes_by_playlist.insert(playlist_id, ids);
        assert(ids_view(self.episodes_by_playlist@) =~= ids_view(
            old(self).episodes_by_playlist@,
        ).insert(
            playlist_id,
            add_member(
                list_or_empty(ids_view(old(self).episodes_by_playlist@), playlist_id),
                episode_id,
                position,
            ),
        ));
    }

    /// Move an episode within a playlist's membership to `to` (clamped); a
    /// no-op when the playlist has no membership entry or lacks the episode.
    pub fn move_in_playlist_locally(&mut self, playlist_id: i32, episode_id: i32, to: i32)
        ensures
            ({
                let m = ids_view(old(self).episodes_by_playlist@);
                if m.contains_key(playlist_id) {
                    ids_view(final(self).episodes_by_playlist@) == m.insert(
                        playlist_id,
                        reorder_spec(m[playlist_id], episode_id, to),
                    )
                } else {
                    ids_view(final(self).episodes_by_playlist@) == m
                }
            }),
            final(self).playlists@ == old(self).playlists@,
            final(self).queue == old(self).queue,
    {
        match self.episodes_by_playlist.remove(&playlist_id) {
            Some(mut ids) => {
                reorder_ids(&mut ids, episode_id, to);
                self.episodes_by_playlist.insert(playlist_id, ids);
                assert(ids_view(self.episodes_by_playlist@) =~= ids_view(
                    old(self).episodes_by_playlist@,
                ).insert(
                    playlist_id,
                    reorder_spec(
                        ids_view(old(self).episodes_by_playlist@)[playlist_id],
                        episode_id,
                        to,
                    ),
                ));
            },
            None => {
                assert(self.episodes_by_playlist@ =~= old(self).episodes_by_playlist@);
            },
        }
    }

    /// Drop a playlist after a confirmed server-side delete: its row and its
    /// membership; the queue is re-resolved, asserting absence only when the
    /// deleted playlist was the queue.
    pub fn remove_playlist_locally(&mut self, playlist_id: i32)
        ensures
            pls_view(final(self).playlists@) == pls_view(old(self).playlists@).filter(
                |p: PlaylistView| p.id != playlist_id,
            ),
            final(self).episodes_by_playlist@ == old(self).episodes_by_playlist@.remove(playlist_id),
            final(self).queue == recompute_spec(
                old(self).queue,
                pls_view(old(self).playlists@).filter(|p: PlaylistView| p.id != playlist_id),
                queue_id_spec(old(self).queue) == Some(playlist_id),
            ),
    {
        let was_queue = self.queue_id() == Some(playlist_id);
        let mut old_rows: Vec<PlaylistRow> = Vec::new();
        std::mem::swap(&mut old_rows, &mut self.playlists);
        let ghost o0 = old_rows@;
        let ghost q0 = self.queue;
        let n0 = old_rows.len();
        let mut kept: Vec<PlaylistRow> = Vec::new();
        let mut i: usize = 0;
        while old_rows.len() > 0
            invariant
                n0 == o0.len(),
                i + old_rows@.len() == o0.len(),
                old_rows@ == o0.subrange(i as int, o0.len() as int),
                pls_view(kept@) == pls_view(o0.subrange(0, i as int)).filter(
                    |p: PlaylistView| p.id != playlist_id,
                ),
                self.queue == q0,
            decreases old_rows.len(),
        {
            let e = old_rows.remove(0);
            assert(e == o0[i as int]);
            proof {
                let pre = o0.subrange(0, i as int);
                let cur = o0.subrange(0, i + 1);
                assert(pls_view(cur).drop_last() =~= pls_view(pre));
                assert(pls_view(cur).last() == pl_view(e));
                reveal(Seq::filter);
            }
            if e.id != playlist_id {
                kept.push(e);
            }
            i = i + 1;
            assert(old_rows@ =~= o0.subrange(i as int, o0.len() as int));
        }
        assert(o0.subrange(0, o0.len() as int) =~= o0);
        self.playlists = kept;
        self.episodes_by_playlist.remove(&playlist_id);
        self.recompute_queue(was_queue);
    }

    /// The row to write through after a membership change: the playlist's row
    /// with its membership set from the index (empty when the index has none);
    /// `None` when the playlist is not loaded.
    pub fn persist_playlist(&mut self, playlist_id: i32) -> (r: Option<PlaylistRow>)
        ensures
            ({
                let s = pls_view(old(self).playlists@);
                let k = slot_of(s, playlist_id);
                let ids = list_or_empty(ids_view(old(self).episodes_by_playlist@), playlist_id);
                if k >= 0 {
                    let np = PlaylistView { episode_ids: Some(ids), ..s[k] };
                    &&& pls_view(final(self).playlists@) == s.update(k, np)
                    &&& r matches Some(x) && pl_view(x) == np
                } else {
                    &&& final(self).playlists@ == old(self).playlists@
                    &&& r is None
                }
            }),
            final(self).episodes_by_playlist@ == old(self).episodes_by_playlist@,
            final(self).queue == old(self).queue,
    {
        let ids = match self.episodes_by_playlist.get(&playlist_id) {
            Some(v) => copy_ids(v),
            None => Vec::new(),
        };
        proof {
            lemma_slot_in_range(pls_view(self.playlists@), playlist_id);
        }
        match find_slot(&self.playlists, playlist_id) {
            Some(k) => {
                let mut row = copy_playlist(&self.playlists[k]);
                row.episode_ids = Some(ids);
                let out = copy_playlist(&row);
                self.playlists.set(k, row);
                assert(pls_view(self.playlists@) =~= pls_view(old(self).playlists@).update(
                    k as int,
                    pl_view(out),
                ));
                Some(out)
            },
            None => None,
        }
    }

    /// Drop every id of `ids` from every playlist's membership; returns the
    /// playlists whose membership changed (to write through), each once.
    pub fn prune_episodes_from_playlists(&mut self, ids: &HashSet<i32>) -> (affected: Vec<i32>)
        ensures
            ids_view(final(self).episodes_by_playlist@) == ids_view(
                old(self).episodes_by_playlist@,
            ).map_values(|v: Seq<i32>| pruned(v, ids@)),
            affected@.no_duplicates(),
            forall|k: i32|
                affected@.contains(k) <==> (old(self).episodes_by_playlist@.contains_key(k)
                    && holds_any(old(self).episodes_by_playlist@[k]@, ids@)),
            final(self).playlists@ == old(self).playlists@,
            final(self).queue == old(self).queue,
    {
        let keys = map_keys(&self.episodes_by_playlist);
        let ghost m0 = ids_view(self.episodes_by_playlist@);
        let ghost target = m0.map_values(|v: Seq<i32>| pruned(v, ids@));
        let mut affected: Vec<i32> = Vec::new();
        let mut i: usize = 0;
        while i < keys.len()
            invariant
                i <= keys.len(),
                keys@.to_set() == m0.dom(),
                keys@.no_duplicates(),
                m0 == ids_view(old(self).episodes_by_playlist@),
                self.episodes_by_playlist@.dom() == m0.dom(),
                forall|k: i32|
                    #![trigger ids_view(self.episodes_by_playlist@)[k]]
                    m0.contains_key(k) ==> ids_view(self.episodes_by_playlist@)[k] == (if exists|j: int|
                        0 <= j < i && keys@[j] == k {
                        pruned(m0[k], ids@)
                    } else {
                        m0[k]
                    }),
                affected@.no_duplicates(),
                forall|k: i32|
                    affected@.contains(k) <==> (exists|j: int| 0 <= j < i && #[trigger] keys@[j] == k)
                        && holds_any(m0[k], ids@),
                self.playlists@ == old(self).playlists@,
                self.queue == old(self).queue,
            decreases keys.len() - i,
        {
            let k = keys[i];
            proof {
                assert(keys@.to_set().contains(k));
                assert(keys@[i as int] == k);
                if exists|j: int| 0 <= j < i && keys@[j] == k {
                    let j = choose|j: int| 0 <= j < i && keys@[j] == k;
                    assert(keys@[j] == keys@[i as int]);
                }
                assert(ids_view(self.episodes_by_playlist@)[k] == m0[k]);
            }
            let ghost mp = self.episodes_by_playlist@;
            let members = match self.episodes_by_playlist.remove(&k) {
                Some(v) => v,
                None => Vec::new(),
            };
            let mut kept: Vec<i32> = Vec::new();
            let mut changed = false;
            let mut t: usize = 0;
            while t < members.len()
                invariant
                    t <= members.len(),
                    kept@ == pruned(members@.subrange(0, t as int), ids@),
                    changed <==> holds_any(members@.subrange(0, t as int), ids@),
                decreases members.len() - t,
            {
                proof {
                    let cur = members@.subrange(0, t + 1);
                    assert(cur.drop_last() =~= members@.subrange(0, t as int));
                    reveal(Seq::filter);
                    if holds_any(members@.subrange(0, t as int), ids@) {
                        let w = choose|w: int|
                            0 <= w < t && ids@.contains(#[trigger] members@.subrange(0, t as int)[w]);
                        assert(cur[w] == members@.subrange(0, t as int)[w]);
                    }
                    if holds_any(cur, ids@) {
                        let w = choose|w: int| 0 <= w < t + 1 && ids@.contains(#[trigger] cur[w]);
                        if w < t {
                            assert(members@.subrange(0, t as int)[w] == cur[w]);
                        }
                    }
                }
                let x = members[t];
                if !ids.contains(&x) {
                    kept.push(x);
                } else {
                    changed = true;
                    proof {
                        assert(members@.subrange(0, t + 1)[t as int] == x);
                    }
                }
                t = t + 1;
            }
            assert(members@.subrange(0, members@.len() as int) =~= members@);
            self.episodes_by_playlist.insert(k, kept);
            let ghost aff0 = affected@;
            if changed {
                affected.push(k);
            }
            proof {
                assert(m0.contains_key(k));
                assert(members@ == m0[k]);
                assert forall|k2: i32| #![trigger ids_view(self.episodes_by_playlist@)[k2]]
                    m0.contains_key(k2) implies ids_view(self.episodes_by_playlist@)[k2] == (if exists|j: int|
                        0 <= j < i + 1 && keys@[j] == k2 {
                        pruned(m0[k2], ids@)
                    } else {
                        m0[k2]
                    }) by {
                    if k2 == k {
                        assert(keys@[i as int] == k2);
                        assert(self.episodes_by_playlist@[k]@ == kept@);
                    } else {
                        assert(self.episodes_by_playlist@[k2] == mp[k2]);
                        assert(ids_view(mp)[k2] == mp[k2]@);
                        if exists|j: int| 0 <= j < i + 1 && keys@[j] == k2 {
                            let j = choose|j: int| 0 <= j < i + 1 && keys@[j] == k2;
                            assert(j != i);
                        }
                    }
                }
                assert forall|k2: i32|
                    affected@.contains(k2) <==> (exists|j: int|
                        0 <= j < i + 1 && #[trigger] keys@[j] == k2) && holds_any(m0[k2], ids@) by {
                    if k2 == k {
                        assert(keys@[i as int] == k2);
                        if aff0.contains(k2) {
                            let j = choose|j: int| 0 <= j < i && #[trigger] keys@[j] == k2;
                            assert(keys@[j] == keys@[i as int]);
                        }
                        if changed {
                            assert(affected@[affected@.len() - 1] == k2);
                        }
                    } else {
                        if aff0.contains(k2) {
                            let w = choose|w: int| 0 <= w < aff0.len() && aff0[w] == k2;
                            assert(affected@[w] == k2);
                        }
                        if affected@.contains(k2) {
                            let w = choose|w: int| 0 <= w < affected@.len() && affected@[w] == k2;
                            if w < aff0.len() {
                                assert(aff0[w] == k2);
                            }
                        }
                        if exists|j: int| 0 <= j < i + 1 && #[trigger] keys@[j] == k2 {
                            let j = choose|j: int| 0 <= j < i + 1 && #[trigger] keys@[j] == k2;
                            assert(j != i);
                        }
                    }
                }
                if changed {
                    assert forall|a: int, b: int|
                        0 <= a < b < affected@.len() implies affected@[a] != affected@[b] by {
                        if b == affected@.len() - 1 {
                            assert(aff0.contains(affected@[a]));
                            if affected@[a] == k {
                                let j = choose|j: int| 0 <= j < i && #[trigger] keys@[j] == k;
                                assert(keys@[j] == keys@[i as int]);
                            }
                        }
                    }
                }
            }
            i = i + 1;
        }
        proof {
            assert forall|k: i32| #[trigger] m0.contains_key(k) implies exists|j: int|
                0 <= j < keys@.len() && keys@[j] == k by {
                assert(keys@.to_set().contains(k));
            }
            assert(ids_view(self.episodes_by_playlist@) =~= target);
            assert forall|k: i32|
                affected@.contains(k) <==> (old(self).episodes_by_playlist@.contains_key(k)
                    && holds_any(old(self).episodes_by_playlist@[k]@, ids@)) by {
                if old(self).episodes_by_playlist@.contains_key(k) {
                    assert(m0.contains_key(k));
                    assert(m0[k] == old(self).episodes_by_playlist@[k]@);
                }
                if affected@.contains(k) {
                    let j = choose|j: int| 0 <= j < keys@.len() && #[trigger] keys@[j] == k;
                    assert(keys@.to_set().contains(k));
                }
            }
        }
        affected
    }
}

/// A playlist edit applied to a row: each field given is set, the others are
/// left as they were (so an edit can never clear a description).
pub open spec fn apply_update(p: PlaylistView, d: PlaylistUpdateData) -> PlaylistView {
    PlaylistView {
        name: match d.name {
            Some(n) => n@,
            None => p.name,
        },
        description: match d.description {
            Some(x) => Some(x@),
            None => p.description,
        },
        is_default: match d.is_default {
            Some(b) => b,
            None => p.is_default,
        },
        on_remove_delete_file_server: match d.on_remove_delete_file_server {
            Some(b) => b,
            None => p.on_remove_delete_file_server,
        },
        on_remove_delete_file_client: match d.on_remove_delete_file_client {
            Some(b) => b,
            None => p.on_remove_delete_file_client,
        },
        ..p
    }
}

impl PlaylistPool {
    /// Apply an offline playlist edit to the loaded row with that id and merge
    /// the edited row like a server row (so the default flag and the queue are
    /// kept consistent). A playlist that is not loaded is left alone. Returns
    /// the rows to write to the store.
    pub fn update_playlist_locally(
        &mut self,
        playlist_id: i32,
        data: &PlaylistUpdateData,
        pending: &Vec<(u64, crate::outbox::OutboxOp)>,
    ) -> (stored: Vec<PlaylistRow>)
        ensures
            ({
                let s = pls_view(old(self).playlists@);
                let k = slot_of(s, playlist_id);
                if k >= 0 {
                    let row = apply_update(s[k], *data);
                    let g = guard_batch(
                        seq![row],
                        pending@,
                        ids_view(old(self).episodes_by_playlist@),
                    );
                    let nd = default_ids(g);
                    let (pl2, m2) = upsert_all(
                        clear_defaults(s, nd),
                        ids_view(old(self).episodes_by_playlist@),
                        g,
                    );
                    &&& pls_view(stored@) == g
                    &&& pls_view(final(self).playlists@) == pl2
                    &&& ids_view(final(self).episodes_by_playlist@) == m2
                    &&& final(self).queue == recompute_spec(
                        old(self).queue,
                        pl2,
                        nd.len() > 0 || queue_unset(old(self).queue, pl2),
                    )
                } else {
                    &&& stored@.len() == 0
                    &&& final(self).playlists@ == old(self).playlists@
                    &&& final(self).episodes_by_playlist@ == old(self).episodes_by_playlist@
                    &&& final(self).queue == old(self).queue
                }
            }),
    {
        proof {
            lemma_slot_in_range(pls_view(self.playlists@), playlist_id);
        }
        match find_slot(&self.playlists, playlist_id) {
            None => Vec::new(),
            Some(k) => {
                let mut pl = copy_playlist(&self.playlists[k]);
                match &data.name {
                    Some(n) => {
                        pl.name = n.clone();
                    },
                    None => {},
                }
                match &data.description {
                    Some(d) => {
                        pl.description = Some(d.clone());
                    },
                    None => {},
                }
                match data.is_default {
                    Some(b) => {
                        pl.is_default = b;
                    },
                    None => {},
                }
                match data.on_remove_delete_file_server {
                    Some(b) => {
                        pl.on_remove_delete_file_server = b;
                    },
                    None => {},
                }
                match data.on_remove_delete_file_client {
                    Some(b) => {
                        pl.on_remove_delete_file_client = b;
                    },
                    None => {},
                }
                let ghost row = pl_view(pl);
                assert(row == apply_update(pls_view(self.playlists@)[k as int], *data));
                let mut batch: Vec<PlaylistRow> = Vec::new();
                batch.push(pl);
                assert(pls_view(batch@) =~= seq![row]);
                self.cache_playlists(batch, pending)
            },
        }
    }
}

/// Whether `(position, id)` pair `a` comes strictly before `b` in the manual
/// order: by position, then by id.
pub open spec fn pair_before(a: (i32, i32), b: (i32, i32)) -> bool {
    a.0 < b.0 || (a.0 == b.0 && a.1 < b.1)
}

/// `x` placed into the sorted `s` before the first pair that does not come
/// strictly before it.
pub open spec fn insert_pair(s: Seq<(i32, i32)>, x: (i32, i32)) -> Seq<(i32, i32)>
    decreases s.len(),
{
    if s.len() == 0 {
        seq![x]
    } else if !pair_before(s[0], x) {
        seq![x] + s
    } else {
        seq![s[0]] + insert_pair(s.drop_first(), x)
    }
}

/// The stable sort of the pairs by position, then id.
pub open spec fn sort_pairs(s: Seq<(i32, i32)>) -> Seq<(i32, i32)>
    decreases s.len(),
{
    if s.len() == 0 {
        s
    } else {
        insert_pair(sort_pairs(s.drop_first()), s[0])
    }
}

/// The `(position, id)` pair of each row, in pool order.
pub open spec fn position_pairs(s: Seq<PlaylistView>) -> Seq<(i32, i32)> {
    s.map_values(|p: PlaylistView| (p.position, p.id))
}

/// The loaded playlists' ids in manual order.
pub open spec fn manual_order(s: Seq<PlaylistView>) -> Seq<i32> {
    sort_pairs(position_pairs(s)).map_values(|p: (i32, i32)| p.1)
}

/// The rows renumbered along the first `n` ids of `order`: the first row with
/// the `k`-th id gets position `k` where it differs.
pub open spec fn renumber(s: Seq<PlaylistView>, order: Seq<i32>, n: nat) -> Seq<PlaylistView>
    decreases n,
{
    if n == 0 {
        s
    } else {
        let p = renumber(s, order, (n - 1) as nat);
        let k = slot_of(p, order[n - 1]);
        if k >= 0 && p[k].position != n - 1 {
            p.update(k, PlaylistView { position: (n - 1) as i32, ..p[k] })
        } else {
            p
        }
    }
}

/// The rows whose position the renumbering changed, in order.
pub open spec fn renumbered_rows(s: Seq<PlaylistView>, order: Seq<i32>, n: nat) -> Seq<PlaylistView>
    decreases n,
{
    if n == 0 {
        Seq::empty()
    } else {
        let p = renumber(s, order, (n - 1) as nat);
        let k = slot_of(p, order[n - 1]);
        let r = renumbered_rows(s, order, (n - 1) as nat);
        if k >= 0 && p[k].position != n - 1 {
            r.push(PlaylistView { position: (n - 1) as i32, ..p[k] })
        } else {
            r
        }
    }
}

proof fn lemma_insert_pair_at(s: Seq<(i32, i32)>, x: (i32, i32), j: int)
    requires
        0 <= j <= s.len(),
        forall|k: int| 0 <= k < j ==> pair_before(#[trigger] s[k], x),
        j < s.len() ==> !pair_before(s[j], x),
    ensures
        insert_pair(s, x) == s.insert(j, x),
    decreases s.len(),
{
    if s.len() == 0 {
        assert(s.insert(j, x) =~= seq![x]);
    } else if j == 0 {
        assert(s.insert(0, x) =~= seq![x] + s);
    } else {
        let t = s.drop_first();
        assert forall|k: int| 0 <= k < j - 1 implies pair_before(#[trigger] t[k], x) by {
            assert(t[k] == s[k + 1]);
        }
        if j - 1 < t.len() {
            assert(t[j - 1] == s[j]);
        }
        lemma_insert_pair_at(t, x, j - 1);
        assert(s.insert(j, x) =~= seq![s[0]] + t.insert(j - 1, x));
    }
}

proof fn lemma_sort_pairs_len(s: Seq<(i32, i32)>)
    ensures
        sort_pairs(s).len() == s.len(),
    decreases s.len(),
{
    if s.len() > 0 {
        lemma_sort_pairs_len(s.drop_first());
        lemma_insert_pair_len(sort_pairs(s.drop_first()), s[0]);
    }
}

proof fn lemma_insert_pair_len(s: Seq<(i32, i32)>, x: (i32, i32))
    ensures
        insert_pair(s, x).len() == s.len() + 1,
    decreases s.len(),
{
    if s.len() > 0 && pair_before(s[0], x) {
        lemma_insert_pair_len(s.drop_first(), x);
    }
}

/// Whether two id lists are equal.
fn ids_equal(a: &Vec<i32>, b: &Vec<i32>) -> (r: bool)
    ensures
        r == (a@ == b@),
{
    if a.len() != b.len() {
        return false;
    }
    let mut i: usize = 0;
    while i < a.len()
        invariant
            i <= a.len() == b.len(),
            forall|j: int| 0 <= j < i ==> a@[j] == b@[j],
        decreases a.len() - i,
    {
        if a[i] != b[i] {
            return false;
        }
        i = i + 1;
    }
    assert(a@ =~= b@);
    true
}

impl PlaylistPool {
    /// The loaded playlists' ids in manual order (by position, then id).
    pub fn manual_order(&self) -> (order: Vec<i32>)
        ensures
            order@ == manual_order(pls_view(self.playlists@)),
    {
        let ghost pv = pls_view(self.playlists@);
        let ghost pairs = position_pairs(pv);
        let mut sorted: Vec<(i32, i32)> = Vec::new();
        let mut i: usize = self.playlists.len();
        while i > 0
            invariant
                i <= self.playlists.len(),
                pv == pls_view(self.playlists@),
                pairs == position_pairs(pv),
                sorted@ == sort_pairs(pairs.subrange(i as int, pairs.len() as int)),
            decreases i,
        {
            let x = (self.playlists[i - 1].position, self.playlists[i - 1].id);
            let ghost tail = pairs.subrange(i as int, pairs.len() as int);
            let ghost cur = pairs.subrange(i - 1, pairs.len() as int);
            assert(cur.drop_first() =~= tail);
            assert(cur[0] == x);
            let mut j: usize = 0;
            let mut found = false;
            while j < sorted.len() && !found
                invariant
                    j <= sorted.len(),
                    forall|k: int| 0 <= k < j ==> pair_before(#[trigger] sorted@[k], x),
                    found ==> j < sorted.len() && !pair_before(sorted@[j as int], x),
                decreases sorted.len() - j + (if found { 0int } else { 1int }),
            {
                let e = sorted[j];
                if e.0 < x.0 || (e.0 == x.0 && e.1 < x.1) {
                    j = j + 1;
                } else {
                    found = true;
                }
            }
            proof {
                lemma_insert_pair_at(sorted@, x, j as int);
            }
            sorted.insert(j, x);
            i = i - 1;
        }
        assert(pairs.subrange(0, pairs.len() as int) =~= pairs);
        let mut order: Vec<i32> = Vec::new();
        let mut k: usize = 0;
        while k < sorted.len()
            invariant
                k <= sorted.len(),
                order@ == sorted@.subrange(0, k as int).map_values(|p: (i32, i32)| p.1),
            decreases sorted.len() - k,
        {
            order.push(sorted[k].1);
            k = k + 1;
            assert(order@ =~= sorted@.subrange(0, k as int).map_values(|p: (i32, i32)| p.1));
        }
        assert(sorted@.subrange(0, sorted@.len() as int) =~= sorted@);
        order
    }

    /// Reorder a playlist within the user's manual order over the loaded rows:
    /// move it to `to` (clamped) in the manual order, then give each row whose
    /// place changed its new position. Returns the changed rows, to write to
    /// the store; nothing when the playlist is not loaded or the order is
    /// unchanged.
    pub fn move_playlist_locally(&mut self, playlist_id: i32, to: i32) -> (changed: Vec<PlaylistRow>)
        requires
            old(self).playlists@.len() <= i32::MAX,
        ensures
            ({
                let s = pls_view(old(self).playlists@);
                let o0 = manual_order(s);
                let o1 = reorder_spec(o0, playlist_id, to);
                if o1 == o0 {
                    &&& changed@.len() == 0
                    &&& final(self).playlists@ == old(self).playlists@
                } else {
                    &&& pls_view(final(self).playlists@) == renumber(s, o1, o1.len())
                    &&& pls_view(changed@) == renumbered_rows(s, o1, o1.len())
                }
            }),
            final(self).episodes_by_playlist@ == old(self).episodes_by_playlist@,
            final(self).queue == old(self).queue,
    {
        let ghost s = pls_view(self.playlists@);
        let before = self.manual_order();
        let mut order = copy_ids(&before);
        reorder_ids(&mut order, playlist_id, to);
        if ids_equal(&order, &before) {
            return Vec::new();
        }
        proof {
            lemma_sort_pairs_len(position_pairs(s));
            crate::navigation::lemma_reorder_len(before@, playlist_id, to);
        }
        let ghost o1 = order@;
        let mut changed: Vec<PlaylistRow> = Vec::new();
        let mut k: usize = 0;
        while k < order.len()
            invariant
                k <= order.len(),
                order@ == o1,
                o1.len() == s.len() <= i32::MAX,
                pls_view(self.playlists@) == renumber(s, o1, k as nat),
                pls_view(changed@) == renumbered_rows(s, o1, k as nat),
                self.episodes_by_playlist@ == old(self).episodes_by_playlist@,
                self.queue == old(self).queue,
            decreases order.len() - k,
        {
            let id = order[k];
            proof {
                lemma_slot_in_range(pls_view(self.playlists@), id);
            }
            match find_slot(&self.playlists, id) {
                Some(slot) => {
                    if self.playlists[slot].position != k as i32 {
                        let mut row = copy_playlist(&self.playlists[slot]);
                        row.position = k as i32;
                        let out = copy_playlist(&row);
                        let ghost pv0 = pls_view(self.playlists@);
                        self.playlists.set(slot, row);
                        assert(pls_view(self.playlists@) =~= pv0.update(
                            slot as int,
                            PlaylistView { position: k as i32, ..pv0[slot as int] },
                        ));
                        changed.push(out);
                        assert(pls_view(changed@) =~= renumbered_rows(s, o1, (k + 1) as nat));
                    } else {
                        assert(pls_view(changed@) =~= renumbered_rows(s, o1, (k + 1) as nat));
                    }
                },
                None => {
                    assert(pls_view(changed@) =~= renumbered_rows(s, o1, (k + 1) as nat));
                },
            }
            k = k + 1;
        }
        changed
    }
}

/// Adding a member twice is the same as adding it once.
pub proof fn lemma_add_member_idempotent(ids: Seq<i32>, e: i32, p: Option<i32>, q: Option<i32>)
    ensures
        add_member(add_member(ids, e, p), e, q) == add_member(ids, e, p),
        add_member(ids, e, p).contains(e),
{
    if !ids.contains(e) {
        match p {
            Some(x) => {
                let at = clamp_index(x, ids.len());
                assert(ids.insert(at, e)[at] == e);
            },
            None => {
                assert(ids.push(e)[ids.len() as int] == e);
            },
        }
    }
}

/// Moving a member keeps the same members, each as often.
pub proof fn lemma_reorder_is_permutation(ids: Seq<i32>, id: i32, to: i32)
    ensures
        reorder_spec(ids, id, to).to_multiset() == ids.to_multiset(),
{
    broadcast use vstd::seq_lib::group_to_multiset_ensures;

    if ids.contains(id) {
        crate::navigation::lemma_reorder_len(ids, id, to);
        let k = choose|k: int| 0 <= k < ids.len() && ids[k] == id;
        crate::navigation::lemma_first_pos_exists(ids, id, k);
        let i = first_pos(ids, id);
        assert(is_first_pos(ids, id, i));
        let r = ids.remove(i);
        let at = clamp_index(to, r.len());
        vstd::seq_lib::to_multiset_insert(r, at, id);
        assert(r.to_multiset() == ids.to_multiset().remove(ids[i]));
        assert(ids.to_multiset().count(id) > 0);
        assert(ids.to_multiset().remove(id).insert(id) =~= ids.to_multiset());
    }
}

/// While a membership operation on a playlist is queued, merging a server row
/// for it that carries membership leaves the local membership in place (a
/// stale page can neither drop a queued add nor resurrect a queued remove).
pub proof fn lemma_queued_membership_survives(
    pls: Seq<PlaylistView>,
    local: Map<i32, Seq<i32>>,
    row: PlaylistView,
    pending: Seq<(u64, crate::outbox::OutboxOp)>,
)
    requires
        row.episode_ids is Some,
        membership_pending(pending, row.id),
        local.contains_key(row.id),
    ensures
        upsert_all(pls, local, guard_batch(seq![row], pending, local)).1[row.id] == local[row.id],
{
    let g = guard_batch(seq![row], pending, local);
    assert(g.len() == 1);
    assert(g.drop_last() =~= Seq::<PlaylistView>::empty());
    assert(g.last() == guard_spec(row, pending, local));
}

/// With no membership operation queued, a server row carrying membership
/// replaces the local membership.
pub proof fn lemma_server_membership_wins(
    pls: Seq<PlaylistView>,
    local: Map<i32, Seq<i32>>,
    row: PlaylistView,
    pending: Seq<(u64, crate::outbox::OutboxOp)>,
)
    requires
        row.episode_ids is Some,
        !membership_pending(pending, row.id),
    ensures
        upsert_all(pls, local, guard_batch(seq![row], pending, local)).1[row.id]
            == row.episode_ids->0,
{
    let g = guard_batch(seq![row], pending, local);
    assert(g.drop_last() =~= Seq::<PlaylistView>::empty());
    assert(g.last() == guard_spec(row, pending, local));
}

/// Upserting a row for another playlist leaves a playlist's membership
/// entry as it was.
proof fn lemma_upsert_keeps_other(pls: Seq<PlaylistView>, m: Map<i32, Seq<i32>>, p: PlaylistView, x: i32)
    requires
        p.id != x,
    ensures
        upsert_one(pls, m, p).1.contains_key(x) == m.contains_key(x),
        upsert_one(pls, m, p).1[x] == m[x],
{
}

/// In a batch of rows, the last row for a playlist that carries membership
/// decides that playlist's membership entry.
pub proof fn lemma_last_row_membership_wins(
    pls: Seq<PlaylistView>,
    m: Map<i32, Seq<i32>>,
    batch: Seq<PlaylistView>,
    i: int,
)
    requires
        0 <= i < batch.len(),
        batch[i].episode_ids is Some,
        forall|j: int| i < j < batch.len() ==> #[trigger] batch[j].id != batch[i].id,
    ensures
        upsert_all(pls, m, batch).1.contains_key(batch[i].id),
        upsert_all(pls, m, batch).1[batch[i].id] == batch[i].episode_ids->0,
    decreases batch.len(),
{
    let prev = upsert_all(pls, m, batch.drop_last());
    if i < batch.len() - 1 {
        assert(batch.drop_last()[i] == batch[i]);
        assert forall|j: int| i < j < batch.drop_last().len() implies #[trigger] batch.drop_last()[j].id
            != batch.drop_last()[i].id by {
            assert(batch.drop_last()[j] == batch[j]);
        }
        lemma_last_row_membership_wins(pls, m, batch.drop_last(), i);
        lemma_upsert_keeps_other(prev.0, prev.1, batch.last(), batch[i].id);
    }
}

/// Caching a fetched batch: for a playlist whose last row in the batch
/// carries membership `ids`, the cached membership and the row stored for it
/// are the local membership when a membership operation on that playlist is
/// queued and the playlist is known locally, and `ids` otherwise (a queued
/// add survives a stale page).
pub proof fn lemma_cached_membership(
    pls: Seq<PlaylistView>,
    local: Map<i32, Seq<i32>>,
    batch: Seq<PlaylistView>,
    pending: Seq<(u64, crate::outbox::OutboxOp)>,
    i: int,
)
    requires
        0 <= i < batch.len(),
        batch[i].episode_ids is Some,
        forall|j: int| i < j < batch.len() ==> #[trigger] batch[j].id != batch[i].id,
    ensures
        ({
            let id = batch[i].id;
            let kept = if membership_pending(pending, id) && local.contains_key(id) {
                local[id]
            } else {
                batch[i].episode_ids->0
            };
            let g = guard_batch(batch, pending, local);
            &&& g[i].episode_ids == Some(kept)
            &&& upsert_all(pls, local, g).1.contains_key(id)
            &&& upsert_all(pls, local, g).1[id] == kept
        }),
{
    let g = guard_batch(batch, pending, local);
    assert(g[i] == guard_spec(batch[i], pending, local));
    assert forall|j: int| i < j < g.len() implies #[trigger] g[j].id != g[i].id by {
        assert(g[j] == guard_spec(batch[j], pending, local));
    }
    lemma_last_row_membership_wins(pls, local, g, i);
}

/// A queued add to, removal from, move within or reorder of a playlist
/// keeps its local membership through a pull: the row cached for it (its
/// last row in the batch) carries the local list, not the server's.
pub proof fn lemma_queued_membership_op_keeps_local(
    pls: Seq<PlaylistView>,
    local: Map<i32, Seq<i32>>,
    batch: Seq<PlaylistView>,
    pending: Seq<(u64, crate::outbox::OutboxOp)>,
    i: int,
    k: int,
)
    requires
        0 <= i < batch.len(),
        batch[i].episode_ids is Some,
        forall|j: int| i < j < batch.len() ==> #[trigger] batch[j].id != batch[i].id,
        local.contains_key(batch[i].id),
        0 <= k < pending.len(),
        ({
            let pid = batch[i].id;
            ||| (pending[k].1 matches crate::outbox::OutboxOp::AddToPlaylist { playlist_id, .. }
                && playlist_id == pid)
            ||| (pending[k].1 matches crate::outbox::OutboxOp::RemoveFromPlaylist {
                playlist_id,
                ..
            } && playlist_id == pid)
            ||| (pending[k].1 matches crate::outbox::OutboxOp::MoveInPlaylist { playlist_id, .. }
                && playlist_id == pid)
            ||| (pending[k].1 matches crate::outbox::OutboxOp::ReorderPlaylist { playlist_id, .. }
                && playlist_id == pid)
        }),
    ensures
        guard_batch(batch, pending, local)[i].episode_ids == Some(local[batch[i].id]),
        upsert_all(pls, local, guard_batch(batch, pending, local)).1[batch[i].id]
            == local[batch[i].id],
{
    assert(crate::pending::touches_membership(pending[k].1, batch[i].id));
    assert(membership_pending(pending, batch[i].id));
    lemma_cached_membership(pls, local, batch, pending, i);
}

} // verus!
