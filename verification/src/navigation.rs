//! Queue/playlist/podcast navigation: which episode the transport controls
//! move to from the current one.

use std::collections::HashMap;
use vstd::prelude::*;

verus! {

broadcast use vstd::std_specs::hash::group_hash_axioms;

/// The lists navigation walks: each playlist's episode ids in order, the id of
/// the default queue playlist, each episode's podcast, and each podcast's
/// episode ids in server order.
pub struct NavLists {
    pub episodes_by_playlist: HashMap<i32, Vec<i32>>,
    pub queue_id: Option<i32>,
    pub podcast_of: HashMap<i32, i32>,
    pub episodes_by_podcast: HashMap<i32, Vec<i32>>,
}

/// Whether `i` is the first position of `x` in `ids`.
pub open spec fn is_first_pos(ids: Seq<i32>, x: i32, i: int) -> bool {
    &&& 0 <= i < ids.len()
    &&& ids[i] == x
    &&& forall|j: int| 0 <= j < i ==> ids[j] != x
}

/// The first position of `x` in `ids` (meaningful when `ids` holds `x`).
pub open spec fn first_pos(ids: Seq<i32>, x: i32) -> int {
    choose|i: int| is_first_pos(ids, x, i)
}

/// The entry `delta` places away from the first occurrence of `current` in
/// `ids`; `None` when `current` is absent or the target falls off either end.
pub open spec fn neighbor_spec(ids: Seq<i32>, current: i32, delta: i32) -> Option<i32> {
    if ids.contains(current) {
        let t = first_pos(ids, current) + delta;
        if 0 <= t < ids.len() {
            Some(ids[t])
        } else {
            None
        }
    } else {
        None
    }
}

/// The list a playlist id names, when it is known.
pub open spec fn playlist_list(lists: NavLists, pid: Option<i32>) -> Option<Seq<i32>> {
    match pid {
        Some(id) => if lists.episodes_by_playlist@.contains_key(id) {
            Some(lists.episodes_by_playlist@[id]@)
        } else {
            None
        },
        None => None,
    }
}

/// The podcast-order list of `current`'s podcast, when both are known.
pub open spec fn podcast_list(lists: NavLists, current: i32) -> Option<Seq<i32>> {
    if lists.podcast_of@.contains_key(current) && lists.episodes_by_podcast@.contains_key(
        lists.podcast_of@[current],
    ) {
        Some(lists.episodes_by_podcast@[lists.podcast_of@[current]]@)
    } else {
        None
    }
}

/// The list navigation walks from `current`: the play-context playlist when it
/// holds `current`, else the queue when it holds `current`, else `current`'s
/// podcast list.
pub open spec fn active_list(lists: NavLists, current: i32, context: Option<i32>) -> Option<
    Seq<i32>,
> {
    let ctx = playlist_list(lists, context);
    let queue = playlist_list(lists, lists.queue_id);
    if ctx is Some && ctx->0.contains(current) {
        ctx
    } else if queue is Some && queue->0.contains(current) {
        queue
    } else {
        podcast_list(lists, current)
    }
}

/// `adjacent_episode`'s result.
pub open spec fn adjacent_spec(lists: NavLists, current: i32, delta: i32, context: Option<i32>) -> Option<
    i32,
> {
    match active_list(lists, current, context) {
        Some(ids) => neighbor_spec(ids, current, delta),
        None => None,
    }
}

/// The first position of `x` in `ids`, if any.
pub fn find_first(ids: &Vec<i32>, x: i32) -> (r: Option<usize>)
    ensures
        match r {
            Some(i) => is_first_pos(ids@, x, i as int) && first_pos(ids@, x) == i as int,
            None => !ids@.contains(x),
        },
{
    let mut i: usize = 0;
    while i < ids.len()
        invariant
            i <= ids.len(),
            forall|j: int| 0 <= j < i ==> ids@[j] != x,
        decreases ids.len() - i,
    {
        if ids[i] == x {
            proof {
                assert(is_first_pos(ids@, x, i as int));
                let k = first_pos(ids@, x);
                assert(is_first_pos(ids@, x, k));
                if k < i {
                    assert(ids@[k] != x);
                } else if k > i {
                    assert(ids@[i as int] != x);
                }
            }
            return Some(i);
        }
        i = i + 1;
    }
    None
}

/// The entry `delta` places away from `current` in `ids`.
fn neighbor(ids: &Vec<i32>, current: i32, delta: i32) -> (r: Option<i32>)
    ensures
        r == neighbor_spec(ids@, current, delta),
{
    match find_first(ids, current) {
        None => None,
        Some(idx) => {
            if delta >= 0 {
                let d = delta as usize;
                if d < ids.len() - idx {
                    Some(ids[idx + d])
                } else {
                    None
                }
            } else {
                let back: usize = if delta == i32::MIN {
                    2147483648usize
                } else {
                    (-delta) as usize
                };
                if back <= idx {
                    Some(ids[idx - back])
                } else {
                    None
                }
            }
        },
    }
}

/// The list of a playlist id, when known.
fn playlist_ids(lists: &NavLists, pid: Option<i32>) -> (r: Option<&Vec<i32>>)
    ensures
        match r {
            Some(v) => playlist_list(*lists, pid) == Some(v@),
            None => playlist_list(*lists, pid) is None,
        },
{
    match pid {
        Some(id) => lists.episodes_by_playlist.get(&id),
        None => None,
    }
}

/// The episode `delta` (+1/-1) places away from `current` in the active list:
/// the play-`context` playlist when `current` is in it, else the default queue
/// playlist when `current` is in it, otherwise the episode's podcast list
/// (server order). `None` at the ends of the list.
pub fn adjacent_episode(lists: &NavLists, current: i32, delta: i32, context: Option<i32>) -> (r:
    Option<i32>)
    ensures
        r == adjacent_spec(*lists, current, delta, context),
{
    let ctx = playlist_ids(lists, context);
    match ctx {
        Some(ids) => {
            if find_first(ids, current).is_some() {
                return neighbor(ids, current, delta);
            }
        },
        None => {},
    }
    let queue = playlist_ids(lists, lists.queue_id);
    match queue {
        Some(ids) => {
            if find_first(ids, current).is_some() {
                return neighbor(ids, current, delta);
            }
        },
        None => {},
    }
    let pid = match lists.podcast_of.get(&current) {
        Some(p) => *p,
        None => {
            return None;
        },
    };
    match lists.episodes_by_podcast.get(&pid) {
        Some(ids) => neighbor(ids, current, delta),
        None => None,
    }
}

/// `next_episode`'s result.
pub open spec fn next_spec(
    lists: NavLists,
    current: Option<i32>,
    context: Option<i32>,
    queued: Option<i32>,
) -> Option<i32> {
    match queued {
        Some(id) => Some(id),
        None => match current {
            Some(c) => adjacent_spec(lists, c, 1, context),
            None => None,
        },
    }
}

/// The transport Next target: the playlist/queue continuation `queued` (what
/// the playlist state names as next up in the play context) when there is
/// one, else the podcast-order neighbor so a podcast whose episode isn't
/// queued can be played on. Auto-advance uses the continuation alone.
pub fn next_episode(lists: &NavLists, current: Option<i32>, context: Option<i32>, queued: Option<
    i32,
>) -> (r: Option<i32>)
    ensures
        r == next_spec(*lists, current, context, queued),
{
    match queued {
        Some(id) => Some(id),
        None => match current {
            Some(c) => adjacent_episode(lists, c, 1, context),
            None => None,
        },
    }
}

/// Stepping forward and then back from an episode of the active list returns
/// to it, when the list holds no episode twice.
pub proof fn lemma_next_then_previous(ids: Seq<i32>, current: i32)
    requires
        ids.no_duplicates(),
        neighbor_spec(ids, current, 1) is Some,
    ensures
        neighbor_spec(ids, neighbor_spec(ids, current, 1)->0, -1i32) == Some(current),
{
    let i = first_pos(ids, current);
    assert(is_first_pos(ids, current, i)) by {
        let k = choose|k: int| 0 <= k < ids.len() && ids[k] == current;
        let m = choose|m: int| is_first_pos(ids, current, m);
        assert(is_first_pos(ids, current, k)) by {
            assert forall|j: int| 0 <= j < k implies ids[j] != current by {
                if ids[j] == current {
                    assert(ids[j] == ids[k]);
                }
            }
        }
    }
    let n = ids[i + 1];
    assert(ids.contains(n));
    assert(is_first_pos(ids, n, i + 1)) by {
        assert forall|j: int| 0 <= j < i + 1 implies ids[j] != n by {
            if ids[j] == n {
                assert(ids[j] == ids[i + 1]);
            }
        }
    }
    let f = first_pos(ids, n);
    assert(is_first_pos(ids, n, f));
    if f < i + 1 {
        assert(ids[f] != n);
    } else if f > i + 1 {
        assert(ids[i + 1] != n);
    }
}

/// Moving an id within a list keeps its length.
pub proof fn lemma_reorder_len(ids: Seq<i32>, id: i32, to: i32)
    ensures
        crate::playlists::reorder_spec(ids, id, to).len() == ids.len(),
{
    if ids.contains(id) {
        let k = choose|k: int| 0 <= k < ids.len() && ids[k] == id;
        let m = choose|m: int| is_first_pos(ids, id, m);
        assert(is_first_pos(ids, id, m)) by {
            if !(exists|m: int| is_first_pos(ids, id, m)) {
                lemma_first_pos_exists(ids, id, k);
            }
        }
    }
}

/// A list holding `x` has a first position of `x`.
pub proof fn lemma_first_pos_exists(ids: Seq<i32>, x: i32, k: int)
    requires
        0 <= k < ids.len(),
        ids[k] == x,
    ensures
        exists|m: int| is_first_pos(ids, x, m),
    decreases k,
{
    if exists|j: int| 0 <= j < k && ids[j] == x {
        let j = choose|j: int| 0 <= j < k && ids[j] == x;
        lemma_first_pos_exists(ids, x, j);
    } else {
        assert(is_first_pos(ids, x, k));
    }
}

/// The first occurrence of `x` determines `first_pos`.
proof fn lemma_first_pos_is(ids: Seq<i32>, x: i32, k: int)
    requires
        0 <= k < ids.len(),
        ids[k] == x,
        forall|j: int| 0 <= j < k ==> ids[j] != x,
    ensures
        ids.contains(x),
        first_pos(ids, x) == k,
{
    assert(is_first_pos(ids, x, k));
    let m = first_pos(ids, x);
    assert(is_first_pos(ids, x, m));
    if m < k {
        assert(ids[m] != x);
    } else if m > k {
        assert(ids[k] != x);
    }
}

/// The play-context playlist wins: when it holds the current episode (first
/// at position `k`), the step moves within that playlist alone, and falling
/// off either of its ends gives no episode (the queue and the podcast are
/// not consulted).
pub proof fn lemma_context_playlist_decides(
    lists: NavLists,
    current: i32,
    delta: i32,
    c: i32,
    k: int,
)
    requires
        lists.episodes_by_playlist@.contains_key(c),
        0 <= k < lists.episodes_by_playlist@[c]@.len(),
        lists.episodes_by_playlist@[c]@[k] == current,
        forall|j: int| 0 <= j < k ==> lists.episodes_by_playlist@[c]@[j] != current,
    ensures
        ({
            let ids = lists.episodes_by_playlist@[c]@;
            adjacent_spec(lists, current, delta, Some(c)) == if 0 <= k + delta < ids.len() {
                Some(ids[k + delta])
            } else {
                None::<i32>
            }
        }),
{
    lemma_first_pos_is(lists.episodes_by_playlist@[c]@, current, k);
}

/// Without a play context holding the current episode, the queue playlist
/// decides the same way when it holds the episode (first at position `k`).
pub proof fn lemma_queue_decides(
    lists: NavLists,
    current: i32,
    delta: i32,
    context: Option<i32>,
    q: i32,
    k: int,
)
    requires
        lists.queue_id == Some(q),
        lists.episodes_by_playlist@.contains_key(q),
        0 <= k < lists.episodes_by_playlist@[q]@.len(),
        lists.episodes_by_playlist@[q]@[k] == current,
        forall|j: int| 0 <= j < k ==> lists.episodes_by_playlist@[q]@[j] != current,
        context matches Some(c) ==> !lists.episodes_by_playlist@.contains_key(c)
            || !lists.episodes_by_playlist@[c]@.contains(current),
    ensures
        ({
            let ids = lists.episodes_by_playlist@[q]@;
            adjacent_spec(lists, current, delta, context) == if 0 <= k + delta < ids.len() {
                Some(ids[k + delta])
            } else {
                None::<i32>
            }
        }),
{
    lemma_first_pos_is(lists.episodes_by_playlist@[q]@, current, k);
}

/// When neither the play-context playlist nor the queue holds the current
/// episode, the step moves through the episode's podcast list (first at
/// position `k`), and without a known podcast list there is no target.
pub proof fn lemma_podcast_order_decides(
    lists: NavLists,
    current: i32,
    delta: i32,
    context: Option<i32>,
)
    requires
        context matches Some(c) ==> !lists.episodes_by_playlist@.contains_key(c)
            || !lists.episodes_by_playlist@[c]@.contains(current),
        lists.queue_id matches Some(q) ==> !lists.episodes_by_playlist@.contains_key(q)
            || !lists.episodes_by_playlist@[q]@.contains(current),
    ensures
        !(lists.podcast_of@.contains_key(current) && lists.episodes_by_podcast@.contains_key(
            lists.podcast_of@[current],
        )) ==> adjacent_spec(lists, current, delta, context) is None,
        forall|k: int|
            {
                &&& lists.podcast_of@.contains_key(current)
                &&& lists.episodes_by_podcast@.contains_key(lists.podcast_of@[current])
                &&& 0 <= k < lists.episodes_by_podcast@[lists.podcast_of@[current]]@.len()
                &&& #[trigger] lists.episodes_by_podcast@[lists.podcast_of@[current]]@[k] == current
                &&& forall|j: int|
                    0 <= j < k ==> lists.episodes_by_podcast@[lists.podcast_of@[current]]@[j]
                        != current
            } ==> {
                let ids = lists.episodes_by_podcast@[lists.podcast_of@[current]]@;
                adjacent_spec(lists, current, delta, context) == if 0 <= k + delta < ids.len() {
                    Some(ids[k + delta])
                } else {
                    None::<i32>
                }
            },
{
    assert forall|k: int|
        {
            &&& lists.podcast_of@.contains_key(current)
            &&& lists.episodes_by_podcast@.contains_key(lists.podcast_of@[current])
            &&& 0 <= k < lists.episodes_by_podcast@[lists.podcast_of@[current]]@.len()
            &&& #[trigger] lists.episodes_by_podcast@[lists.podcast_of@[current]]@[k] == current
            &&& forall|j: int|
                0 <= j < k ==> lists.episodes_by_podcast@[lists.podcast_of@[current]]@[j]
                    != current
        } implies {
            let ids = lists.episodes_by_podcast@[lists.podcast_of@[current]]@;
            adjacent_spec(lists, current, delta, context) == if 0 <= k + delta < ids.len() {
                Some(ids[k + delta])
            } else {
                None::<i32>
            }
        } by {
        lemma_first_pos_is(lists.episodes_by_podcast@[lists.podcast_of@[current]]@, current, k);
    }
}

} // verus!
