//! The cache-side episode query model: the episode row the cache holds, the
//! order/filter/query value types, and the shared filter/sort/paginate
//! algorithm the stores run over the cached pool.
//!
//! Timestamps are milliseconds since the Unix epoch, whose order is the order
//! of the instants they stand for.

use std::collections::{HashMap, HashSet};
use vstd::prelude::*;
use crate::text::{chars_of, contains_chars, contains_seq, lowercase, to_lowercase};

verus! {

broadcast use vstd::std_specs::hash::group_hash_axioms;

/// An episode's playback progress.
#[derive(Clone, Copy, Debug, PartialEq, Eq, Structural)]
pub enum PlaybackStatus {
    Unplayed,
    Finished,
}

/// The state of an episode's server-side download.
#[derive(Clone, Copy, Debug, PartialEq, Eq, Structural)]
pub enum DownloadStatus {
    NotDownloaded,
    Downloading,
    Downloaded,
    DownloadError,
    DownloadBroken,
    DownloadRemoteNotFound,
    DownloadUnauthorized,
}

/// One chapter marker of an episode.
#[derive(Debug)]
pub struct Chapter {
    pub start_ms: i64,
    pub title: String,
}

impl Clone for Chapter {
    fn clone(&self) -> (r: Self)
        ensures
            r == *self,
    {
        Chapter { start_ms: self.start_ms, title: self.title.clone() }
    }
}

/// An episode row of the cached pool: what the query, the merge guards and the
/// views read of an episode.
#[derive(Debug)]
pub struct EpisodeRow {
    pub id: i32,
    pub podcast_id: i32,
    pub title: String,
    pub description: Option<String>,
    pub published_at: Option<i64>,
    pub created_at: i64,
    pub updated_at: i64,
    pub duration_secs: Option<i32>,
    pub playback_status: PlaybackStatus,
    pub download_status: DownloadStatus,
    /// Chapter markers: `None` = not loaded, `Some` (even empty) = loaded.
    pub chapters: Option<Vec<Chapter>>,
}

/// The chapter markers as a sequence.
pub open spec fn chapters_view(c: Option<Vec<Chapter>>) -> Option<Seq<Chapter>> {
    match c {
        Some(v) => Some(v@),
        None => None,
    }
}

/// Whether two rows agree on every field (chapters by their markers).
pub open spec fn same_row(a: EpisodeRow, b: EpisodeRow) -> bool {
    &&& a.id == b.id && a.podcast_id == b.podcast_id && a.title == b.title
    &&& a.description == b.description && a.published_at == b.published_at
    &&& a.created_at == b.created_at && a.updated_at == b.updated_at
    &&& a.duration_secs == b.duration_secs && a.playback_status == b.playback_status
    &&& a.download_status == b.download_status
    &&& chapters_view(a.chapters) == chapters_view(b.chapters)
}

fn clone_chapters(c: &Option<Vec<Chapter>>) -> (r: Option<Vec<Chapter>>)
    ensures
        chapters_view(r) == chapters_view(*c),
{
    match c {
        None => None,
        Some(v) => {
            let mut out: Vec<Chapter> = Vec::new();
            let mut i: usize = 0;
            while i < v.len()
                invariant
                    i <= v.len(),
                    out@ == v@.subrange(0, i as int),
                decreases v.len() - i,
            {
                out.push(v[i].clone());
                i = i + 1;
                assert(out@ =~= v@.subrange(0, i as int));
            }
            assert(out@ =~= v@);
            Some(out)
        },
    }
}

impl Clone for EpisodeRow {
    fn clone(&self) -> (r: Self)
        ensures
            same_row(r, *self),
    {
        let description = match &self.description {
            Some(d) => Some(d.clone()),
            None => None,
        };
        EpisodeRow {
            id: self.id,
            podcast_id: self.podcast_id,
            title: self.title.clone(),
            description,
            published_at: self.published_at,
            created_at: self.created_at,
            updated_at: self.updated_at,
            duration_secs: self.duration_secs,
            playback_status: self.playback_status,
            download_status: self.download_status,
            chapters: clone_chapters(&self.chapters),
        }
    }
}

/// Field an episode page is ordered by.
#[derive(Clone, Copy, Debug, PartialEq, Eq, Structural)]
pub enum EpisodeOrder {
    /// Newest-first feed ordering (the default).
    PublishedAt,
    /// Alphabetical by title (code-point order, which is the byte order of
    /// the UTF-8 text).
    Title,
    /// Row creation time.
    CreatedAt,
    /// Last-updated time.
    UpdatedAt,
    /// Episode length; unknown lengths sort as the smallest value.
    Duration,
}

impl Default for EpisodeOrder {
    fn default() -> (r: Self)
        ensures
            r == EpisodeOrder::PublishedAt,
    {
        EpisodeOrder::PublishedAt
    }
}

/// Predicate over the cached episode pool. Empty fields = no constraint.
/// Multi-select facets are OR within the facet, AND across facets. `search`
/// matches title, description, or the podcast name (resolved via
/// `podcast_names`), case-insensitively.
#[derive(Debug)]
pub struct EpisodeQueryFilter {
    pub search: Option<String>,
    pub podcast_id: Option<i32>,
    pub published_after: Option<i64>,
    pub playback_status: Vec<PlaybackStatus>,
    pub download_status: Vec<DownloadStatus>,
    /// Restrict to a set of ids.
    pub ids: Option<HashSet<i32>>,
    /// Podcast id → title, only so `search` can match the show name; never a
    /// constraint of its own.
    pub podcast_names: HashMap<i32, String>,
}

impl Default for EpisodeQueryFilter {
    fn default() -> (r: Self)
        ensures
            r.search is None && r.podcast_id is None && r.published_after is None,
            r.playback_status@.len() == 0 && r.download_status@.len() == 0,
            r.ids is None && r.podcast_names@ == Map::<i32, String>::empty(),
    {
        EpisodeQueryFilter {
            search: None,
            podcast_id: None,
            published_after: None,
            playback_status: Vec::new(),
            download_status: Vec::new(),
            ids: None,
            podcast_names: HashMap::new(),
        }
    }
}

/// A request for one page of episodes from the local cache.
#[derive(Debug)]
pub struct EpisodeQuery {
    pub order_by: EpisodeOrder,
    /// Descending when true (newest/Z-A first).
    pub descending: bool,
    /// 0-based page index.
    pub page: i32,
    pub size: i32,
    pub filter: EpisodeQueryFilter,
}

impl Default for EpisodeQuery {
    fn default() -> (r: Self)
        ensures
            r.order_by == EpisodeOrder::PublishedAt && !r.descending && r.page == 0 && r.size == 0,
            r.filter.search is None && r.filter.podcast_id is None,
            r.filter.published_after is None && r.filter.ids is None,
            r.filter.playback_status@.len() == 0 && r.filter.download_status@.len() == 0,
            r.filter.podcast_names@ == Map::<i32, String>::empty(),
    {
        EpisodeQuery {
            order_by: EpisodeOrder::PublishedAt,
            descending: false,
            page: 0,
            size: 0,
            filter: EpisodeQueryFilter::default(),
        }
    }
}

/// Whether the filter constrains nothing (`podcast_names` is never a
/// constraint).
pub open spec fn filter_is_empty(f: EpisodeQueryFilter) -> bool {
    f.search is None && f.podcast_id is None && f.published_after is None
        && f.playback_status@.len() == 0 && f.download_status@.len() == 0 && f.ids is None
}

/// Whether the lower-cased search text occurs in the episode's title,
/// description or podcast name.
pub open spec fn search_hits(f: EpisodeQueryFilter, q: Seq<char>, e: EpisodeRow) -> bool {
    ||| contains_seq(lowercase(e.title@), q)
    ||| (e.description matches Some(d) && contains_seq(lowercase(d@), q))
    ||| (f.podcast_names@.contains_key(e.podcast_id) && contains_seq(
        lowercase(f.podcast_names@[e.podcast_id]@),
        q,
    ))
}

/// Whether an episode satisfies the filter.
pub open spec fn matches_spec(f: EpisodeQueryFilter, e: EpisodeRow) -> bool {
    &&& (f.search matches Some(s) ==> search_hits(f, lowercase(s@), e))
    &&& (f.podcast_id matches Some(pid) ==> e.podcast_id == pid)
    &&& (f.published_after matches Some(after) ==> (e.published_at matches Some(p) && p >= after))
    &&& (f.playback_status@.len() > 0 ==> f.playback_status@.contains(e.playback_status))
    &&& (f.download_status@.len() > 0 ==> f.download_status@.contains(e.download_status))
    &&& (f.ids matches Some(ids) ==> ids@.contains(e.id))
}

fn vec_has_playback(v: &Vec<PlaybackStatus>, x: PlaybackStatus) -> (b: bool)
    ensures
        b == v@.contains(x),
{
    let mut i: usize = 0;
    while i < v.len()
        invariant
            i <= v.len(),
            forall|j: int| 0 <= j < i ==> v@[j] != x,
        decreases v.len() - i,
    {
        if v[i] == x {
            return true;
        }
        i = i + 1;
    }
    false
}

fn vec_has_download(v: &Vec<DownloadStatus>, x: DownloadStatus) -> (b: bool)
    ensures
        b == v@.contains(x),
{
    let mut i: usize = 0;
    while i < v.len()
        invariant
            i <= v.len(),
            forall|j: int| 0 <= j < i ==> v@[j] != x,
        decreases v.len() - i,
    {
        if v[i] == x {
            return true;
        }
        i = i + 1;
    }
    false
}

/// Whether `q` occurs in the lower-cased `text`.
fn lower_contains(text: &str, q: &Vec<char>) -> (b: bool)
    ensures
        b == contains_seq(lowercase(text@), q@),
{
    let low = to_lowercase(text);
    let chars = chars_of(low.as_str());
    contains_chars(&chars, q)
}

impl EpisodeQueryFilter {
    /// True when nothing is constrained, so a store can take its fast indexed
    /// path.
    pub fn is_empty(&self) -> (b: bool)
        ensures
            b == filter_is_empty(*self),
    {
        self.search.is_none() && self.podcast_id.is_none() && self.published_after.is_none()
            && self.playback_status.len() == 0 && self.download_status.len() == 0
            && self.ids.is_none()
    }

    /// Whether an episode satisfies the predicate.
    pub fn matches(&self, ep: &EpisodeRow) -> (b: bool)
        ensures
            b == matches_spec(*self, *ep),
    {
        match &self.search {
            Some(s) => {
                let low = to_lowercase(s.as_str());
                let q = chars_of(low.as_str());
                let in_title = lower_contains(ep.title.as_str(), &q);
                let in_desc = match &ep.description {
                    Some(d) => lower_contains(d.as_str(), &q),
                    None => false,
                };
                let in_podcast = match self.podcast_names.get(&ep.podcast_id) {
                    Some(t) => lower_contains(t.as_str(), &q),
                    None => false,
                };
                if !(in_title || in_desc || in_podcast) {
                    return false;
                }
            },
            None => {},
        }
        match self.podcast_id {
            Some(pid) => {
                if ep.podcast_id != pid {
                    return false;
                }
            },
            None => {},
        }
        match self.published_after {
            Some(after) => {
                match ep.published_at {
                    Some(p) => {
                        if p < after {
                            return false;
                        }
                    },
                    None => {
                        return false;
                    },
                }
            },
            None => {},
        }
        if self.playback_status.len() > 0 && !vec_has_playback(
            &self.playback_status,
            ep.playback_status,
        ) {
            return false;
        }
        if self.download_status.len() > 0 && !vec_has_download(
            &self.download_status,
            ep.download_status,
        ) {
            return false;
        }
        match &self.ids {
            Some(ids) => {
                if !ids.contains(&ep.id) {
                    return false;
                }
            },
            None => {},
        }
        true
    }
}

/// Three-way lexicographic comparison of two texts by code point.
pub open spec fn chars_order(a: Seq<char>, b: Seq<char>) -> int
    decreases a.len(),
{
    if a.len() == 0 {
        if b.len() == 0 {
            0
        } else {
            -1
        }
    } else if b.len() == 0 {
        1
    } else if (a[0] as u32) < (b[0] as u32) {
        -1
    } else if (a[0] as u32) > (b[0] as u32) {
        1
    } else {
        chars_order(a.drop_first(), b.drop_first())
    }
}

/// Three-way comparison of optional values, `None` smallest.
pub open spec fn opt_order(a: Option<int>, b: Option<int>) -> int {
    match (a, b) {
        (None, None) => 0,
        (None, Some(_)) => -1,
        (Some(_), None) => 1,
        (Some(x), Some(y)) => if x < y {
            -1
        } else if x > y {
            1
        } else {
            0
        },
    }
}

/// Three-way comparison of two integers.
pub open spec fn int_order(x: int, y: int) -> int {
    if x < y {
        -1
    } else if x > y {
        1
    } else {
        0
    }
}

/// The optional timestamp as an optional integer.
pub open spec fn opt_i64(o: Option<i64>) -> Option<int> {
    match o {
        Some(v) => Some(v as int),
        None => None,
    }
}

/// The optional length as an optional integer.
pub open spec fn opt_i32(o: Option<i32>) -> Option<int> {
    match o {
        Some(v) => Some(v as int),
        None => None,
    }
}

/// Three-way comparison of two rows by the ordering field alone.
pub open spec fn key_order(a: EpisodeRow, b: EpisodeRow, order: EpisodeOrder) -> int {
    match order {
        EpisodeOrder::PublishedAt => opt_order(opt_i64(a.published_at), opt_i64(b.published_at)),
        EpisodeOrder::Title => chars_order(a.title@, b.title@),
        EpisodeOrder::CreatedAt => int_order(a.created_at as int, b.created_at as int),
        EpisodeOrder::UpdatedAt => int_order(a.updated_at as int, b.updated_at as int),
        EpisodeOrder::Duration => opt_order(opt_i32(a.duration_secs), opt_i32(b.duration_secs)),
    }
}

/// Whether `a` sorts strictly before `b` ascending: by the field, then by id.
pub open spec fn asc_before(a: EpisodeRow, b: EpisodeRow, order: EpisodeOrder) -> bool {
    key_order(a, b, order) < 0 || (key_order(a, b, order) == 0 && a.id < b.id)
}

/// Whether `a` sorts strictly before `b` in the requested direction (the
/// descending order reverses the id tiebreak too).
pub open spec fn before(a: EpisodeRow, b: EpisodeRow, order: EpisodeOrder, desc: bool) -> bool {
    if desc {
        asc_before(b, a, order)
    } else {
        asc_before(a, b, order)
    }
}

/// `x` placed into the sorted `s` before the first element that does not sort
/// strictly before it (so `x`, which came earlier in the input, stays ahead of
/// every element it ties with).
pub open spec fn insert_sorted(s: Seq<EpisodeRow>, x: EpisodeRow, order: EpisodeOrder, desc: bool) -> Seq<
    EpisodeRow,
>
    decreases s.len(),
{
    if s.len() == 0 {
        seq![x]
    } else if !before(s[0], x, order, desc) {
        seq![x] + s
    } else {
        seq![s[0]] + insert_sorted(s.drop_first(), x, order, desc)
    }
}

/// The stable sort of `s` by the requested order.
pub open spec fn sort_spec(s: Seq<EpisodeRow>, order: EpisodeOrder, desc: bool) -> Seq<EpisodeRow>
    decreases s.len(),
{
    if s.len() == 0 {
        s
    } else {
        insert_sorted(sort_spec(s.drop_first(), order, desc), s[0], order, desc)
    }
}

/// The rows of `s` that satisfy the filter, in order.
pub open spec fn filter_spec(s: Seq<EpisodeRow>, f: EpisodeQueryFilter) -> Seq<EpisodeRow>
    decreases s.len(),
{
    if s.len() == 0 {
        s
    } else if matches_spec(f, s[0]) {
        seq![s[0]] + filter_spec(s.drop_first(), f)
    } else {
        filter_spec(s.drop_first(), f)
    }
}

/// The page size a query uses (at least one).
pub open spec fn page_size(q: EpisodeQuery) -> int {
    if q.size < 1 {
        1
    } else {
        q.size as int
    }
}

/// The offset of a query's page.
pub open spec fn page_start(q: EpisodeQuery) -> int {
    (if q.page < 0 {
        0
    } else {
        q.page as int
    }) * page_size(q)
}

/// Page `q` of the sorted rows `s`.
pub open spec fn page_of(s: Seq<EpisodeRow>, q: EpisodeQuery) -> Seq<EpisodeRow> {
    let start = page_start(q);
    let end = if start + page_size(q) < s.len() {
        start + page_size(q)
    } else {
        s.len() as int
    };
    if start >= s.len() {
        Seq::empty()
    } else {
        s.subrange(start, end)
    }
}

/// `filter_sort_paginate`'s result.
pub open spec fn query_spec(eps: Seq<EpisodeRow>, q: EpisodeQuery) -> Seq<EpisodeRow> {
    page_of(sort_spec(filter_spec(eps, q.filter), q.order_by, q.descending), q)
}

/// The lexicographic comparison of two char vectors.
fn chars_order_exec(a: &Vec<char>, b: &Vec<char>) -> (r: i8)
    ensures
        r as int == chars_order(a@, b@),
{
    let mut k: usize = 0;
    assert(a@.subrange(0, a@.len() as int) =~= a@);
    assert(b@.subrange(0, b@.len() as int) =~= b@);
    while k < a.len() && k < b.len()
        invariant
            k <= a.len() && k <= b.len(),
            chars_order(a@, b@) == chars_order(
                a@.subrange(k as int, a@.len() as int),
                b@.subrange(k as int, b@.len() as int),
            ),
        decreases a.len() - k,
    {
        let x = a[k];
        let y = b[k];
        let ghost sa = a@.subrange(k as int, a@.len() as int);
        let ghost sb = b@.subrange(k as int, b@.len() as int);
        if (x as u32) < (y as u32) {
            return -1;
        }
        if (x as u32) > (y as u32) {
            return 1;
        }
        proof {
            assert(sa.drop_first() =~= a@.subrange(k + 1, a@.len() as int));
            assert(sb.drop_first() =~= b@.subrange(k + 1, b@.len() as int));
        }
        k = k + 1;
    }
    proof {
        let sa = a@.subrange(k as int, a@.len() as int);
        let sb = b@.subrange(k as int, b@.len() as int);
        assert(sa.len() == 0 || sb.len() == 0);
    }
    if k < a.len() {
        1
    } else if k < b.len() {
        -1
    } else {
        0
    }
}

fn opt_order_i64(a: Option<i64>, b: Option<i64>) -> (r: i8)
    ensures
        r as int == opt_order(opt_i64(a), opt_i64(b)),
{
    match (a, b) {
        (None, None) => 0,
        (None, Some(_)) => -1,
        (Some(_), None) => 1,
        (Some(x), Some(y)) => if x < y {
            -1
        } else if x > y {
            1
        } else {
            0
        },
    }
}

fn opt_order_i32(a: Option<i32>, b: Option<i32>) -> (r: i8)
    ensures
        r as int == opt_order(opt_i32(a), opt_i32(b)),
{
    match (a, b) {
        (None, None) => 0,
        (None, Some(_)) => -1,
        (Some(_), None) => 1,
        (Some(x), Some(y)) => if x < y {
            -1
        } else if x > y {
            1
        } else {
            0
        },
    }
}

fn i64_order(x: i64, y: i64) -> (r: i8)
    ensures
        r as int == int_order(x as int, y as int),
{
    if x < y {
        -1
    } else if x > y {
        1
    } else {
        0
    }
}

/// The key comparison of two rows.
fn key_order_exec(a: &EpisodeRow, b: &EpisodeRow, order: EpisodeOrder) -> (r: i8)
    ensures
        r as int == key_order(*a, *b, order),
{
    match order {
        EpisodeOrder::PublishedAt => opt_order_i64(a.published_at, b.published_at),
        EpisodeOrder::Title => {
            let ca = chars_of(a.title.as_str());
            let cb = chars_of(b.title.as_str());
            chars_order_exec(&ca, &cb)
        },
        EpisodeOrder::CreatedAt => i64_order(a.created_at, b.created_at),
        EpisodeOrder::UpdatedAt => i64_order(a.updated_at, b.updated_at),
        EpisodeOrder::Duration => opt_order_i32(a.duration_secs, b.duration_secs),
    }
}

/// Whether `a` sorts strictly before `b`.
fn before_exec(a: &EpisodeRow, b: &EpisodeRow, order: EpisodeOrder, desc: bool) -> (r: bool)
    ensures
        r == before(*a, *b, order, desc),
{
    if desc {
        let c = key_order_exec(b, a, order);
        c < 0 || (c == 0 && b.id < a.id)
    } else {
        let c = key_order_exec(a, b, order);
        c < 0 || (c == 0 && a.id < b.id)
    }
}

/// Inserting `x` at the first position whose element does not sort strictly
/// before it is the sorted insertion.
proof fn lemma_insert_at_first(
    s: Seq<EpisodeRow>,
    x: EpisodeRow,
    order: EpisodeOrder,
    desc: bool,
    j: int,
)
    requires
        0 <= j <= s.len(),
        forall|k: int| 0 <= k < j ==> before(#[trigger] s[k], x, order, desc),
        j < s.len() ==> !before(s[j], x, order, desc),
    ensures
        insert_sorted(s, x, order, desc) == s.insert(j, x),
    decreases s.len(),
{
    if s.len() == 0 {
        assert(s.insert(j, x) =~= seq![x]);
    } else if j == 0 {
        assert(s.insert(0, x) =~= seq![x] + s);
    } else {
        let t = s.drop_first();
        assert forall|k: int| 0 <= k < j - 1 implies before(#[trigger] t[k], x, order, desc) by {
            assert(t[k] == s[k + 1]);
        }
        if j - 1 < t.len() {
            assert(t[j - 1] == s[j]);
        }
        lemma_insert_at_first(t, x, order, desc, j - 1);
        assert(s.insert(j, x) =~= seq![s[0]] + t.insert(j - 1, x));
    }
}

/// Insert `x` into the sorted `out`.
fn insert_row(out: &mut Vec<EpisodeRow>, x: EpisodeRow, order: EpisodeOrder, desc: bool)
    ensures
        final(out)@ == insert_sorted(old(out)@, x, order, desc),
{
    let mut j: usize = 0;
    let mut found = false;
    while j < out.len() && !found
        invariant
            j <= out.len(),
            forall|k: int| 0 <= k < j ==> before(#[trigger] out@[k], x, order, desc),
            found ==> j < out.len() && !before(out@[j as int], x, order, desc),
        decreases out.len() - j + (if found { 0int } else { 1int }),
    {
        if before_exec(&out[j], &x, order, desc) {
            j = j + 1;
        } else {
            found = true;
        }
    }
    proof {
        lemma_insert_at_first(out@, x, order, desc, j as int);
    }
    out.insert(j, x);
}

/// Filter, then stably sort the matching set the way the query asks (by the
/// field, then by id; descending reverses both), then slice the page
/// (`size` at least one, `page` at least zero).
pub fn filter_sort_paginate(eps: Vec<EpisodeRow>, q: &EpisodeQuery) -> (r: Vec<EpisodeRow>)
    ensures
        r@ == query_spec(eps@, *q),
{
    let ghost all = eps@;
    let mut rest = eps;
    let mut sorted: Vec<EpisodeRow> = Vec::new();
    while rest.len() > 0
        invariant
            rest@.len() <= all.len(),
            rest@ == all.subrange(0, rest@.len() as int),
            sorted@ == sort_spec(
                filter_spec(all.subrange(rest@.len() as int, all.len() as int), q.filter),
                q.order_by,
                q.descending,
            ),
        decreases rest.len(),
    {
        let ghost k = rest@.len() as int;
        let ghost tail = all.subrange(k, all.len() as int);
        let ghost cur = all.subrange(k - 1, all.len() as int);
        assert(cur.drop_first() =~= tail);
        let x = match rest.pop() {
            Some(v) => v,
            None => {
                return Vec::new();
            },
        };
        assert(rest@ =~= all.subrange(0, k - 1));
        assert(cur[0] == x);
        if q.filter.matches(&x) {
            proof {
                let ft = filter_spec(tail, q.filter);
                assert(filter_spec(cur, q.filter) == seq![x] + ft);
                assert((seq![x] + ft).drop_first() =~= ft);
            }
            insert_row(&mut sorted, x, q.order_by, q.descending);
        }
    }
    assert(all.subrange(0, all.len() as int) =~= all);
    let size: usize = if q.size < 1 {
        1
    } else {
        q.size as usize
    };
    let page: usize = if q.page < 0 {
        0
    } else {
        q.page as usize
    };
    let start: usize = match page.checked_mul(size) {
        Some(v) => v,
        None => usize::MAX,
    };
    if start >= sorted.len() {
        proof {
            assert(page_start(*q) >= sorted@.len());
        }
        return Vec::new();
    }
    proof {
        assert(start as int == page_start(*q));
    }
    let end: usize = if size < sorted.len() - start {
        start + size
    } else {
        sorted.len()
    };
    sorted.truncate(end);
    let out = sorted.split_off(start);
    out
}

/// The number of rows of `s` that satisfy the filter.
pub open spec fn count_spec(s: Seq<EpisodeRow>, f: EpisodeQueryFilter) -> nat {
    filter_spec(s, f).len()
}

/// Count the episodes matching a filter (drives `has_more`).
pub fn filter_count(eps: &Vec<EpisodeRow>, filter: &EpisodeQueryFilter) -> (n: usize)
    ensures
        n == count_spec(eps@, *filter),
{
    let mut n: usize = 0;
    let mut i: usize = eps.len();
    while i > 0
        invariant
            i <= eps.len(),
            n == count_spec(eps@.subrange(i as int, eps@.len() as int), *filter),
            n <= eps.len() - i,
        decreases i,
    {
        let ghost tail = eps@.subrange(i as int, eps@.len() as int);
        let ghost cur = eps@.subrange(i - 1, eps@.len() as int);
        assert(cur.drop_first() =~= tail);
        assert(cur[0] == eps@[i - 1]);
        if filter.matches(&eps[i - 1]) {
            n = n + 1;
        }
        i = i - 1;
    }
    assert(eps@.subrange(0, eps@.len() as int) =~= eps@);
    n
}

/// Swapping the operands of the text comparison flips its sign.
pub proof fn lemma_chars_order_antisymmetric(a: Seq<char>, b: Seq<char>)
    ensures
        chars_order(a, b) == -chars_order(b, a),
    decreases a.len(),
{
    if a.len() > 0 && b.len() > 0 && (a[0] as u32) == (b[0] as u32) {
        lemma_chars_order_antisymmetric(a.drop_first(), b.drop_first());
    }
}

/// The text comparison is transitive as a non-strict order.
pub proof fn lemma_chars_order_transitive(a: Seq<char>, b: Seq<char>, c: Seq<char>)
    requires
        chars_order(a, b) <= 0,
        chars_order(b, c) <= 0,
    ensures
        chars_order(a, c) <= 0,
    decreases a.len(),
{
    if a.len() > 0 && b.len() > 0 && c.len() > 0 && (a[0] as u32) == (b[0] as u32) && (b[0] as u32)
        == (c[0] as u32) {
        lemma_chars_order_transitive(a.drop_first(), b.drop_first(), c.drop_first());
    }
}

/// Swapping two rows flips the sign of their key comparison.
proof fn lemma_key_antisymmetric(a: EpisodeRow, b: EpisodeRow, order: EpisodeOrder)
    ensures
        key_order(a, b, order) == -key_order(b, a, order),
{
    if order == EpisodeOrder::Title {
        lemma_chars_order_antisymmetric(a.title@, b.title@);
    }
}

/// The key comparison is transitive as a non-strict order.
proof fn lemma_key_transitive(a: EpisodeRow, b: EpisodeRow, c: EpisodeRow, order: EpisodeOrder)
    requires
        key_order(a, b, order) <= 0,
        key_order(b, c, order) <= 0,
    ensures
        key_order(a, c, order) <= 0,
{
    if order == EpisodeOrder::Title {
        lemma_chars_order_transitive(a.title@, b.title@, c.title@);
    }
}

/// Two rows never sort strictly before each other.
pub proof fn lemma_before_asymmetric(a: EpisodeRow, b: EpisodeRow, order: EpisodeOrder, desc: bool)
    ensures
        !(before(a, b, order, desc) && before(b, a, order, desc)),
{
    lemma_key_antisymmetric(a, b, order);
}

/// If `c` sorts strictly before `a`, then for any `b` either `c` sorts before
/// `b` or `b` sorts before `a` (sorting ties form a consistent order).
pub proof fn lemma_before_negatively_transitive(
    a: EpisodeRow,
    b: EpisodeRow,
    c: EpisodeRow,
    order: EpisodeOrder,
    desc: bool,
)
    requires
        !before(c, b, order, desc),
        !before(b, a, order, desc),
    ensures
        !before(c, a, order, desc),
{
    lemma_key_antisymmetric(a, b, order);
    lemma_key_antisymmetric(b, c, order);
    lemma_key_antisymmetric(a, c, order);
    if desc {
        lemma_key_transitive(c, b, a, order);
        if key_order(c, a, order) == 0 {
            lemma_key_transitive(b, a, c, order);
            lemma_key_transitive(a, c, b, order);
        }
    } else {
        lemma_key_transitive(a, b, c, order);
        if key_order(a, c, order) == 0 {
            lemma_key_transitive(b, c, a, order);
            lemma_key_transitive(c, a, b, order);
        }
    }
}

/// Whether no later element of `s` sorts strictly before an earlier one.
pub open spec fn is_sorted(s: Seq<EpisodeRow>, order: EpisodeOrder, desc: bool) -> bool {
    forall|i: int, j: int| 0 <= i < j < s.len() ==> !before(#[trigger] s[j], #[trigger] s[i], order, desc)
}

/// The sorted insertion is an insertion of `x` at some position.
proof fn lemma_insert_sorted_is_insert(s: Seq<EpisodeRow>, x: EpisodeRow, order: EpisodeOrder, desc: bool) -> (j: int)
    ensures
        0 <= j <= s.len(),
        insert_sorted(s, x, order, desc) == s.insert(j, x),
    decreases s.len(),
{
    if s.len() == 0 {
        assert(s.insert(0, x) =~= seq![x]);
        0
    } else if !before(s[0], x, order, desc) {
        assert(s.insert(0, x) =~= seq![x] + s);
        0
    } else {
        let t = s.drop_first();
        let j = lemma_insert_sorted_is_insert(t, x, order, desc);
        assert(s.insert(j + 1, x) =~= seq![s[0]] + t.insert(j, x));
        j + 1
    }
}

/// Inserting into a sorted sequence keeps it sorted.
proof fn lemma_insert_sorted_keeps_order(s: Seq<EpisodeRow>, x: EpisodeRow, order: EpisodeOrder, desc: bool)
    requires
        is_sorted(s, order, desc),
    ensures
        is_sorted(insert_sorted(s, x, order, desc), order, desc),
    decreases s.len(),
{
    let r = insert_sorted(s, x, order, desc);
    if s.len() == 0 {
    } else if !before(s[0], x, order, desc) {
        assert forall|i: int, j: int| 0 <= i < j < r.len() implies !before(
            #[trigger] r[j],
            #[trigger] r[i],
            order,
            desc,
        ) by {
            if i == 0 {
                assert(r[j] == s[j - 1]);
                if j - 1 > 0 {
                    assert(!before(s[j - 1], s[0], order, desc));
                    lemma_before_negatively_transitive(x, s[0], s[j - 1], order, desc);
                }
            } else {
                assert(r[i] == s[i - 1] && r[j] == s[j - 1]);
            }
        }
    } else {
        let t = s.drop_first();
        assert(is_sorted(t, order, desc)) by {
            assert forall|i: int, j: int| 0 <= i < j < t.len() implies !before(
                #[trigger] t[j],
                #[trigger] t[i],
                order,
                desc,
            ) by {
                assert(t[i] == s[i + 1] && t[j] == s[j + 1]);
            }
        }
        lemma_insert_sorted_keeps_order(t, x, order, desc);
        let rt = insert_sorted(t, x, order, desc);
        let k = lemma_insert_sorted_is_insert(t, x, order, desc);
        assert(r == seq![s[0]] + rt);
        assert forall|i: int, j: int| 0 <= i < j < r.len() implies !before(
            #[trigger] r[j],
            #[trigger] r[i],
            order,
            desc,
        ) by {
            if i == 0 {
                assert(r[j] == rt[j - 1]);
                if j - 1 == k {
                    assert(rt[j - 1] == x);
                    lemma_before_asymmetric(s[0], x, order, desc);
                } else if j - 1 < k {
                    assert(rt[j - 1] == t[j - 1]);
                    assert(t[j - 1] == s[j]);
                } else {
                    assert(rt[j - 1] == t[j - 2]);
                    assert(t[j - 2] == s[j - 1]);
                }
            } else {
                assert(r[i] == rt[i - 1] && r[j] == rt[j - 1]);
            }
        }
    }
}

/// The sorted rows are in order: no row sorts strictly before one ahead of it.
pub proof fn lemma_sort_is_ordered(s: Seq<EpisodeRow>, order: EpisodeOrder, desc: bool)
    ensures
        is_sorted(sort_spec(s, order, desc), order, desc),
    decreases s.len(),
{
    if s.len() > 0 {
        lemma_sort_is_ordered(s.drop_first(), order, desc);
        lemma_insert_sorted_keeps_order(sort_spec(s.drop_first(), order, desc), s[0], order, desc);
    }
}

/// Sorting rearranges the rows: the same rows, each as often.
pub proof fn lemma_sort_is_permutation(s: Seq<EpisodeRow>, order: EpisodeOrder, desc: bool)
    ensures
        sort_spec(s, order, desc).to_multiset() == s.to_multiset(),
        sort_spec(s, order, desc).len() == s.len(),
    decreases s.len(),
{
    broadcast use vstd::seq_lib::group_to_multiset_ensures;

    if s.len() > 0 {
        let t = s.drop_first();
        lemma_sort_is_permutation(t, order, desc);
        let st = sort_spec(t, order, desc);
        let j = lemma_insert_sorted_is_insert(st, s[0], order, desc);
        vstd::seq_lib::to_multiset_insert(st, j, s[0]);
        vstd::seq_lib::to_multiset_insert(t, 0, s[0]);
        assert(t.insert(0, s[0]) =~= s);
    }
}

/// Row `i` of the sorted rows is row `i % size` of page `i / size`: the pages
/// of one size are disjoint and together hold every row.
pub proof fn lemma_page_holds_row(s: Seq<EpisodeRow>, q: EpisodeQuery, i: int)
    requires
        0 <= i < s.len(),
        q.size >= 1,
        q.page as int == i / (q.size as int),
    ensures
        page_of(s, q).len() > i % (q.size as int),
        page_of(s, q)[i % (q.size as int)] == s[i],
{
    let z = q.size as int;
    assert(i == (i / z) * z + i % z) by (nonlinear_arith)
        requires
            z >= 1,
    ;
    assert(0 <= i % z < z) by (nonlinear_arith)
        requires
            z >= 1,
    ;
    assert(i / z >= 0) by (nonlinear_arith)
        requires
            z >= 1,
            i >= 0,
    ;
}

/// The rows a query returns come in the requested field's order: for any two
/// rows of the result, the earlier one's field is not after the later one's
/// (ascending), or not before it (descending), with a missing published date
/// or duration counting as smallest and titles compared by code point; rows
/// whose field is equal come by id (ascending; descending reverses it).
pub proof fn lemma_query_rows_in_field_order(eps: Seq<EpisodeRow>, q: EpisodeQuery, i: int, j: int)
    requires
        0 <= i < j < query_spec(eps, q).len(),
    ensures
        ({
            let a = query_spec(eps, q)[i];
            let b = query_spec(eps, q)[j];
            let desc = q.descending;
            &&& q.order_by is UpdatedAt ==> if desc {
                a.updated_at >= b.updated_at && (a.updated_at == b.updated_at ==> a.id >= b.id)
            } else {
                a.updated_at <= b.updated_at && (a.updated_at == b.updated_at ==> a.id <= b.id)
            }
            &&& q.order_by is CreatedAt ==> if desc {
                a.created_at >= b.created_at && (a.created_at == b.created_at ==> a.id >= b.id)
            } else {
                a.created_at <= b.created_at && (a.created_at == b.created_at ==> a.id <= b.id)
            }
            &&& q.order_by is PublishedAt ==> if desc {
                (b.published_at matches Some(y) ==> a.published_at matches Some(x) && x >= y)
                    && (a.published_at == b.published_at ==> a.id >= b.id)
            } else {
                (a.published_at matches Some(x) ==> b.published_at matches Some(y) && x <= y)
                    && (a.published_at == b.published_at ==> a.id <= b.id)
            }
            &&& q.order_by is Duration ==> if desc {
                (b.duration_secs matches Some(y) ==> a.duration_secs matches Some(x) && x >= y)
                    && (a.duration_secs == b.duration_secs ==> a.id >= b.id)
            } else {
                (a.duration_secs matches Some(x) ==> b.duration_secs matches Some(y) && x <= y)
                    && (a.duration_secs == b.duration_secs ==> a.id <= b.id)
            }
            &&& q.order_by is Title ==> if desc {
                chars_order(b.title@, a.title@) <= 0 && (a.title@ == b.title@ ==> a.id >= b.id)
            } else {
                chars_order(a.title@, b.title@) <= 0 && (a.title@ == b.title@ ==> a.id <= b.id)
            }
        }),
{
    let sorted = sort_spec(filter_spec(eps, q.filter), q.order_by, q.descending);
    lemma_sort_is_ordered(filter_spec(eps, q.filter), q.order_by, q.descending);
    let start = page_start(q);
    assert(start >= 0) by (nonlinear_arith)
        requires
            start == (if q.page < 0 {
                0
            } else {
                q.page as int
            }) * page_size(q),
            page_size(q) >= 1,
    ;
    let r = query_spec(eps, q);
    assert(r[i] == sorted[start + i]);
    assert(r[j] == sorted[start + j]);
    let a = sorted[start + i];
    let b = sorted[start + j];
    assert(!before(b, a, q.order_by, q.descending));
    lemma_key_antisymmetric(a, b, q.order_by);
    if q.order_by is Title {
        lemma_chars_order_antisymmetric(a.title@, b.title@);
        lemma_chars_order_antisymmetric(a.title@, a.title@);
    }
}

} // verus!
