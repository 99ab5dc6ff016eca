//! Scans of the pending outbox that the cache-merge guards use: while an
//! operation on a facet is still queued, the local optimistic value of that
//! facet is newer than anything the server can return.

use std::collections::HashSet;
use vstd::prelude::*;
use crate::outbox::OutboxOp;

verus! {

broadcast use vstd::std_specs::hash::group_hash_axioms;

/// Whether `op` marks episode `id` played or unplayed.
pub open spec fn marks_played(op: OutboxOp, id: i32) -> bool {
    op matches OutboxOp::MarkPlayed { episode_id, .. } && episode_id == id
}

/// Whether `op` asks for or removes the server download of episode `id`.
pub open spec fn touches_download(op: OutboxOp, id: i32) -> bool {
    ||| (op matches OutboxOp::TriggerDownload { episode_ids } && episode_ids@.contains(id))
    ||| (op matches OutboxOp::RemoveServerDownload { episode_ids } && episode_ids@.contains(id))
}

/// Whether `op` changes the membership (or its order) of playlist `pid`.
pub open spec fn touches_membership(op: OutboxOp, pid: i32) -> bool {
    ||| (op matches OutboxOp::AddToPlaylist { playlist_id, .. } && playlist_id == pid)
    ||| (op matches OutboxOp::RemoveFromPlaylist { playlist_id, .. } && playlist_id == pid)
    ||| (op matches OutboxOp::MoveInPlaylist { playlist_id, .. } && playlist_id == pid)
    ||| (op matches OutboxOp::ReorderPlaylist { playlist_id, .. } && playlist_id == pid)
}

/// Whether `op` writes the playback row (cursor or completion) of episode `id`.
pub open spec fn touches_playback(op: OutboxOp, id: i32) -> bool {
    ||| (op matches OutboxOp::SetCursor { episode_id, .. } && episode_id == id)
    ||| (op matches OutboxOp::MarkPlayed { episode_id, .. } && episode_id == id)
}

/// Whether `op` is a cursor save for episode `id`.
pub open spec fn is_cursor_for(op: OutboxOp, id: i32) -> bool {
    op matches OutboxOp::SetCursor { episode_id, .. } && episode_id == id
}

/// The facets of the pending outbox: the episodes whose played facet, whose
/// download facet, or whose playback row has a queued operation, and the
/// playlists whose membership has one.
pub struct PendingFacets {
    pub played: HashSet<i32>,
    pub download: HashSet<i32>,
    pub membership: HashSet<i32>,
    pub playback: HashSet<i32>,
}

/// Whether some pending operation marks episode `id` played.
pub open spec fn played_pending(pending: Seq<(u64, OutboxOp)>, id: i32) -> bool {
    exists|i: int| 0 <= i < pending.len() && marks_played(#[trigger] pending[i].1, id)
}

/// Whether some pending operation touches the download facet of episode `id`.
pub open spec fn download_pending(pending: Seq<(u64, OutboxOp)>, id: i32) -> bool {
    exists|i: int| 0 <= i < pending.len() && touches_download(#[trigger] pending[i].1, id)
}

/// Whether some pending operation touches the membership of playlist `pid`.
pub open spec fn membership_pending(pending: Seq<(u64, OutboxOp)>, pid: i32) -> bool {
    exists|i: int| 0 <= i < pending.len() && touches_membership(#[trigger] pending[i].1, pid)
}

/// Whether some pending operation writes the playback row of episode `id`.
pub open spec fn playback_pending(pending: Seq<(u64, OutboxOp)>, id: i32) -> bool {
    exists|i: int| 0 <= i < pending.len() && touches_playback(#[trigger] pending[i].1, id)
}

/// Whether the facet sets are exactly those of `pending`.
pub open spec fn facets_of(f: PendingFacets, pending: Seq<(u64, OutboxOp)>) -> bool {
    &&& forall|id: i32| f.played@.contains(id) <==> played_pending(pending, id)
    &&& forall|id: i32| f.download@.contains(id) <==> download_pending(pending, id)
    &&& forall|id: i32| f.membership@.contains(id) <==> membership_pending(pending, id)
    &&& forall|id: i32| f.playback@.contains(id) <==> playback_pending(pending, id)
}

/// Add every id of `ids` to `set`.
fn extend_ids(set: &mut HashSet<i32>, ids: &Vec<i32>)
    ensures
        forall|x: i32| final(set)@.contains(x) <==> (old(set)@.contains(x) || ids@.contains(x)),
{
    let mut i: usize = 0;
    while i < ids.len()
        invariant
            i <= ids.len(),
            forall|x: i32|
                set@.contains(x) <==> (old(set)@.contains(x) || exists|k: int|
                    0 <= k < i && #[trigger] ids@[k] == x),
        decreases ids.len() - i,
    {
        let v = ids[i];
        set.insert(v);
        proof {
            assert forall|x: i32|
                set@.contains(x) <==> (old(set)@.contains(x) || exists|k: int|
                    0 <= k < i + 1 && #[trigger] ids@[k] == x) by {
                if x == v {
                    assert(ids@[i as int] == x);
                }
            }
        }
        i = i + 1;
    }
}

/// Scan the pending outbox once for the facets its operations touch.
pub fn pending_facets(pending: &Vec<(u64, OutboxOp)>) -> (f: PendingFacets)
    ensures
        facets_of(f, pending@),
{
    let mut f = PendingFacets {
        played: HashSet::new(),
        download: HashSet::new(),
        membership: HashSet::new(),
        playback: HashSet::new(),
    };
    let mut i: usize = 0;
    while i < pending.len()
        invariant
            i <= pending.len(),
            facets_of(f, pending@.subrange(0, i as int)),
        decreases pending.len() - i,
    {
        let ghost pre = pending@.subrange(0, i as int);
        let ghost cur = pending@.subrange(0, i + 1);
        let ghost op = pending@[i as int].1;
        proof {
            assert forall|k: int| 0 <= k < i implies #[trigger] cur[k] == pre[k] by {}
            assert(cur[i as int] == pending@[i as int]);
        }
        match &pending[i].1 {
            OutboxOp::MarkPlayed { episode_id, .. } => {
                f.played.insert(*episode_id);
                f.playback.insert(*episode_id);
            },
            OutboxOp::SetCursor { episode_id, .. } => {
                f.playback.insert(*episode_id);
            },
            OutboxOp::TriggerDownload { episode_ids } => {
                extend_ids(&mut f.download, episode_ids);
            },
            OutboxOp::RemoveServerDownload { episode_ids } => {
                extend_ids(&mut f.download, episode_ids);
            },
            OutboxOp::AddToPlaylist { playlist_id, .. } => {
                f.membership.insert(*playlist_id);
            },
            OutboxOp::RemoveFromPlaylist { playlist_id, .. } => {
                f.membership.insert(*playlist_id);
            },
            OutboxOp::MoveInPlaylist { playlist_id, .. } => {
                f.membership.insert(*playlist_id);
            },
            OutboxOp::ReorderPlaylist { playlist_id, .. } => {
                f.membership.insert(*playlist_id);
            },
            _ => {},
        }
        proof {
            assert forall|id: i32| f.played@.contains(id) <==> played_pending(cur, id) by {
                if played_pending(cur, id) {
                    let k = choose|k: int| 0 <= k < cur.len() && marks_played(#[trigger] cur[k].1, id);
                    if k < i {
                        assert(marks_played(pre[k].1, id));
                    }
                }
                if played_pending(pre, id) {
                    let k = choose|k: int| 0 <= k < pre.len() && marks_played(#[trigger] pre[k].1, id);
                    assert(marks_played(cur[k].1, id));
                }
                if marks_played(op, id) {
                    assert(marks_played(cur[i as int].1, id));
                }
            }
            assert forall|id: i32| f.download@.contains(id) <==> download_pending(cur, id) by {
                if download_pending(cur, id) {
                    let k = choose|k: int|
                        0 <= k < cur.len() && touches_download(#[trigger] cur[k].1, id);
                    if k < i {
                        assert(touches_download(pre[k].1, id));
                    }
                }
                if download_pending(pre, id) {
                    let k = choose|k: int|
                        0 <= k < pre.len() && touches_download(#[trigger] pre[k].1, id);
                    assert(touches_download(cur[k].1, id));
                }
                if touches_download(op, id) {
                    assert(touches_download(cur[i as int].1, id));
                }
            }
            assert forall|id: i32| f.membership@.contains(id) <==> membership_pending(cur, id) by {
                if membership_pending(cur, id) {
                    let k = choose|k: int|
                        0 <= k < cur.len() && touches_membership(#[trigger] cur[k].1, id);
                    if k < i {
                        assert(touches_membership(pre[k].1, id));
                    }
                }
                if membership_pending(pre, id) {
                    let k = choose|k: int|
                        0 <= k < pre.len() && touches_membership(#[trigger] pre[k].1, id);
                    assert(touches_membership(cur[k].1, id));
                }
                if touches_membership(op, id) {
                    assert(touches_membership(cur[i as int].1, id));
                }
            }
            assert forall|id: i32| f.playback@.contains(id) <==> playback_pending(cur, id) by {
                if playback_pending(cur, id) {
                    let k = choose|k: int|
                        0 <= k < cur.len() && touches_playback(#[trigger] cur[k].1, id);
                    if k < i {
                        assert(touches_playback(pre[k].1, id));
                    }
                }
                if playback_pending(pre, id) {
                    let k = choose|k: int|
                        0 <= k < pre.len() && touches_playback(#[trigger] pre[k].1, id);
                    assert(touches_playback(cur[k].1, id));
                }
                if touches_playback(op, id) {
                    assert(touches_playback(cur[i as int].1, id));
                }
            }
        }
        i = i + 1;
    }
    assert(pending@.subrange(0, pending.len() as int) =~= pending@);
    f
}

/// The ids of the pending operations that save a cursor for episode `id`, in
/// queue order.
pub open spec fn superseded_spec(pending: Seq<(u64, OutboxOp)>, id: i32) -> Seq<u64>
    decreases pending.len(),
{
    if pending.len() == 0 {
        Seq::empty()
    } else {
        let r = superseded_spec(pending.drop_last(), id);
        if is_cursor_for(pending.last().1, id) {
            r.push(pending.last().0)
        } else {
            r
        }
    }
}

/// The pending cursor saves for `episode_id` that a fresh cursor write
/// supersedes (the server's cursor is last-write-wins per episode): their
/// operation ids, to be dropped from the outbox.
pub fn superseded_cursor_ops(pending: &Vec<(u64, OutboxOp)>, episode_id: i32) -> (r: Vec<u64>)
    ensures
        r@ == superseded_spec(pending@, episode_id),
{
    let mut r: Vec<u64> = Vec::new();
    let mut i: usize = 0;
    while i < pending.len()
        invariant
            i <= pending.len(),
            r@ == superseded_spec(pending@.subrange(0, i as int), episode_id),
        decreases pending.len() - i,
    {
        let ghost cur = pending@.subrange(0, i + 1);
        assert(cur.drop_last() =~= pending@.subrange(0, i as int));
        let hit = match &pending[i].1 {
            OutboxOp::SetCursor { episode_id: e, .. } => *e == episode_id,
            _ => false,
        };
        if hit {
            r.push(pending[i].0);
        }
        i = i + 1;
    }
    assert(pending@.subrange(0, pending.len() as int) =~= pending@);
    r
}

/// The facets of the pending outbox, op by op: a playlist's membership facet
/// is pending exactly when an add to, removal from, move within or reorder of
/// that playlist is queued; an episode's playback row exactly when a cursor
/// save or played mark for it is queued; its played facet exactly when a
/// played mark is; its download facet exactly when a server download or
/// removal naming it is.
pub proof fn lemma_facets_by_operation(f: PendingFacets, pending: Seq<(u64, OutboxOp)>)
    requires
        facets_of(f, pending),
    ensures
        forall|pid: i32|
            #[trigger] f.membership@.contains(pid) <==> exists|i: int|
                0 <= i < pending.len() && {
                    ||| (#[trigger] pending[i].1 matches OutboxOp::AddToPlaylist { playlist_id, .. }
                        && playlist_id == pid)
                    ||| (pending[i].1 matches OutboxOp::RemoveFromPlaylist { playlist_id, .. }
                        && playlist_id == pid)
                    ||| (pending[i].1 matches OutboxOp::MoveInPlaylist { playlist_id, .. }
                        && playlist_id == pid)
                    ||| (pending[i].1 matches OutboxOp::ReorderPlaylist { playlist_id, .. }
                        && playlist_id == pid)
                },
        forall|id: i32|
            #[trigger] f.playback@.contains(id) <==> exists|i: int|
                0 <= i < pending.len() && {
                    ||| (#[trigger] pending[i].1 matches OutboxOp::SetCursor { episode_id, .. }
                        && episode_id == id)
                    ||| (pending[i].1 matches OutboxOp::MarkPlayed { episode_id, .. }
                        && episode_id == id)
                },
        forall|id: i32|
            #[trigger] f.played@.contains(id) <==> exists|i: int|
                0 <= i < pending.len() && (#[trigger] pending[i].1 matches OutboxOp::MarkPlayed {
                    episode_id,
                    ..
                } && episode_id == id),
        forall|id: i32|
            #[trigger] f.download@.contains(id) <==> exists|i: int|
                0 <= i < pending.len() && {
                    ||| (#[trigger] pending[i].1 matches OutboxOp::TriggerDownload { episode_ids }
                        && episode_ids@.contains(id))
                    ||| (pending[i].1 matches OutboxOp::RemoveServerDownload { episode_ids }
                        && episode_ids@.contains(id))
                },
{
    assert forall|pid: i32|
        #[trigger] f.membership@.contains(pid) <==> exists|i: int|
            0 <= i < pending.len() && {
                ||| (#[trigger] pending[i].1 matches OutboxOp::AddToPlaylist { playlist_id, .. }
                    && playlist_id == pid)
                ||| (pending[i].1 matches OutboxOp::RemoveFromPlaylist { playlist_id, .. }
                    && playlist_id == pid)
                ||| (pending[i].1 matches OutboxOp::MoveInPlaylist { playlist_id, .. }
                    && playlist_id == pid)
                ||| (pending[i].1 matches OutboxOp::ReorderPlaylist { playlist_id, .. }
                    && playlist_id == pid)
            } by {
        if f.membership@.contains(pid) {
            assert(membership_pending(pending, pid));
            let i = choose|i: int|
                0 <= i < pending.len() && touches_membership(#[trigger] pending[i].1, pid);
            assert(touches_membership(pending[i].1, pid));
        }
        if exists|i: int|
            0 <= i < pending.len() && {
                ||| (#[trigger] pending[i].1 matches OutboxOp::AddToPlaylist { playlist_id, .. }
                    && playlist_id == pid)
                ||| (pending[i].1 matches OutboxOp::RemoveFromPlaylist { playlist_id, .. }
                    && playlist_id == pid)
                ||| (pending[i].1 matches OutboxOp::MoveInPlaylist { playlist_id, .. }
                    && playlist_id == pid)
                ||| (pending[i].1 matches OutboxOp::ReorderPlaylist { playlist_id, .. }
                    && playlist_id == pid)
            } {
            let i = choose|i: int|
                0 <= i < pending.len() && {
                    ||| (#[trigger] pending[i].1 matches OutboxOp::AddToPlaylist { playlist_id, .. }
                        && playlist_id == pid)
                    ||| (pending[i].1 matches OutboxOp::RemoveFromPlaylist { playlist_id, .. }
                        && playlist_id == pid)
                    ||| (pending[i].1 matches OutboxOp::MoveInPlaylist { playlist_id, .. }
                        && playlist_id == pid)
                    ||| (pending[i].1 matches OutboxOp::ReorderPlaylist { playlist_id, .. }
                        && playlist_id == pid)
                };
            assert(touches_membership(pending[i].1, pid));
            assert(membership_pending(pending, pid));
        }
    }
    assert forall|id: i32|
        #[trigger] f.playback@.contains(id) <==> exists|i: int|
            0 <= i < pending.len() && {
                ||| (#[trigger] pending[i].1 matches OutboxOp::SetCursor { episode_id, .. }
                    && episode_id == id)
                ||| (pending[i].1 matches OutboxOp::MarkPlayed { episode_id, .. }
                    && episode_id == id)
            } by {
        if f.playback@.contains(id) {
            assert(playback_pending(pending, id));
            let i = choose|i: int|
                0 <= i < pending.len() && touches_playback(#[trigger] pending[i].1, id);
            assert(touches_playback(pending[i].1, id));
        }
        if exists|i: int|
            0 <= i < pending.len() && {
                ||| (#[trigger] pending[i].1 matches OutboxOp::SetCursor { episode_id, .. }
                    && episode_id == id)
                ||| (pending[i].1 matches OutboxOp::MarkPlayed { episode_id, .. }
                    && episode_id == id)
            } {
            let i = choose|i: int|
                0 <= i < pending.len() && {
                    ||| (#[trigger] pending[i].1 matches OutboxOp::SetCursor { episode_id, .. }
                        && episode_id == id)
                    ||| (pending[i].1 matches OutboxOp::MarkPlayed { episode_id, .. }
                        && episode_id == id)
                };
            assert(touches_playback(pending[i].1, id));
            assert(playback_pending(pending, id));
        }
    }
    assert forall|id: i32|
        #[trigger] f.played@.contains(id) <==> exists|i: int|
            0 <= i < pending.len() && (#[trigger] pending[i].1 matches OutboxOp::MarkPlayed {
                episode_id,
                ..
            } && episode_id == id) by {
        if f.played@.contains(id) {
            assert(played_pending(pending, id));
            let i = choose|i: int| 0 <= i < pending.len() && marks_played(#[trigger] pending[i].1, id);
            assert(marks_played(pending[i].1, id));
        }
        if exists|i: int|
            0 <= i < pending.len() && (#[trigger] pending[i].1 matches OutboxOp::MarkPlayed {
                episode_id,
                ..
            } && episode_id == id) {
            let i = choose|i: int|
                0 <= i < pending.len() && (#[trigger] pending[i].1 matches OutboxOp::MarkPlayed {
                    episode_id,
                    ..
                } && episode_id == id);
            assert(marks_played(pending[i].1, id));
            assert(played_pending(pending, id));
        }
    }
    assert forall|id: i32|
        #[trigger] f.download@.contains(id) <==> exists|i: int|
            0 <= i < pending.len() && {
                ||| (#[trigger] pending[i].1 matches OutboxOp::TriggerDownload { episode_ids }
                    && episode_ids@.contains(id))
                ||| (pending[i].1 matches OutboxOp::RemoveServerDownload { episode_ids }
                    && episode_ids@.contains(id))
            } by {
        if f.download@.contains(id) {
            assert(download_pending(pending, id));
            let i = choose|i: int| 0 <= i < pending.len() && touches_download(#[trigger] pending[i].1, id);
            assert(touches_download(pending[i].1, id));
        }
        if exists|i: int|
            0 <= i < pending.len() && {
                ||| (#[trigger] pending[i].1 matches OutboxOp::TriggerDownload { episode_ids }
                    && episode_ids@.contains(id))
                ||| (pending[i].1 matches OutboxOp::RemoveServerDownload { episode_ids }
                    && episode_ids@.contains(id))
            } {
            let i = choose|i: int|
                0 <= i < pending.len() && {
                    ||| (#[trigger] pending[i].1 matches OutboxOp::TriggerDownload { episode_ids }
                        && episode_ids@.contains(id))
                    ||| (pending[i].1 matches OutboxOp::RemoveServerDownload { episode_ids }
                        && episode_ids@.contains(id))
                };
            assert(touches_download(pending[i].1, id));
            assert(download_pending(pending, id));
        }
    }
}

/// The superseded cursor saves are exactly the queued cursor saves of that
/// episode: every returned id belongs to a pending `SetCursor` for the
/// episode (saves of other episodes keep their position), every such save is
/// returned, and they come in queue order.
pub proof fn lemma_superseded_are_cursor_saves_of(pending: Seq<(u64, OutboxOp)>, id: i32)
    ensures
        forall|k: int|
            #![trigger superseded_spec(pending, id)[k]]
            0 <= k < superseded_spec(pending, id).len() ==> exists|i: int|
                0 <= i < pending.len() && #[trigger] pending[i].0 == superseded_spec(pending, id)[k]
                    && (pending[i].1 matches OutboxOp::SetCursor { episode_id, .. } && episode_id
                    == id),
        forall|i: int|
            0 <= i < pending.len() && (#[trigger] pending[i].1 matches OutboxOp::SetCursor {
                episode_id,
                ..
            } && episode_id == id) ==> superseded_spec(pending, id).contains(pending[i].0),
        superseded_spec(pending, id).len() <= pending.len(),
    decreases pending.len(),
{
    if pending.len() > 0 {
        let prev = pending.drop_last();
        lemma_superseded_are_cursor_saves_of(prev, id);
        let r = superseded_spec(pending, id);
        let rp = superseded_spec(prev, id);
        if is_cursor_for(pending.last().1, id) {
            assert(r == rp.push(pending.last().0));
        } else {
            assert(r == rp);
        }
        assert forall|k: int| #![trigger r[k]] 0 <= k < r.len() implies exists|i: int|
            0 <= i < pending.len() && #[trigger] pending[i].0 == r[k] && (pending[i].1 matches OutboxOp::SetCursor {
                episode_id,
                ..
            } && episode_id == id) by {
            if k < rp.len() {
                assert(r[k] == rp[k]);
                let i = choose|i: int|
                    0 <= i < prev.len() && #[trigger] prev[i].0 == rp[k] && (prev[i].1 matches OutboxOp::SetCursor {
                        episode_id,
                        ..
                    } && episode_id == id);
                assert(pending[i] == prev[i]);
            } else {
                assert(is_cursor_for(pending.last().1, id));
                let i = pending.len() - 1;
                assert(pending[i] == pending.last());
                assert(pending[i].0 == r[k]);
                assert(pending[i].1 matches OutboxOp::SetCursor { episode_id, .. } && episode_id
                    == id);
            }
        }
        assert forall|i: int|
            0 <= i < pending.len() && (#[trigger] pending[i].1 matches OutboxOp::SetCursor {
                episode_id,
                ..
            } && episode_id == id) implies r.contains(pending[i].0) by {
            if i < pending.len() - 1 {
                assert(prev[i] == pending[i]);
                assert(rp.contains(prev[i].0));
                let k = choose|k: int| 0 <= k < rp.len() && rp[k] == prev[i].0;
                if is_cursor_for(pending.last().1, id) {
                    assert(r[k] == rp[k]);
                }
            } else {
                assert(r[r.len() - 1] == pending[i].0);
            }
        }
    }
}

} // verus!
