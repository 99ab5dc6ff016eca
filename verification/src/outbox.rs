//! The offline outbox: operations queued locally that must reach the server,
//! the single mapping from an operation to the API calls that deliver it, and
//! the rule for which operations a pull must follow.

use vstd::prelude::*;
use crate::text::{clamp_chars, take_chars, trim, trimmed};

verus! {

/// Field a playlist's episodes are smart-reordered by.
#[derive(Clone, Copy, Debug, PartialEq, Eq, Structural)]
pub enum PlaylistReorderField {
    PublishedAt,
    Title,
    Duration,
    CreatedAt,
}

/// Sort direction.
#[derive(Clone, Copy, Debug, PartialEq, Eq, Structural)]
pub enum OrderDirection {
    Asc,
    Desc,
}

/// A playlist metadata edit: a field set to `Some` is applied, `None` leaves it.
#[derive(Debug)]
pub struct PlaylistUpdateData {
    pub name: Option<String>,
    pub description: Option<String>,
    pub is_default: Option<bool>,
    pub on_remove_delete_file_server: Option<bool>,
    pub on_remove_delete_file_client: Option<bool>,
}

/// A podcast download/poll config edit: a field set to `Some` is applied.
#[derive(Debug)]
pub struct PodcastConfigUpdateData {
    pub poll_interval_seconds: Option<i64>,
    pub max_episodes: Option<i32>,
    pub max_concurrent_downloads: Option<i32>,
    pub auto_download_enabled: Option<bool>,
}

/// An operation queued locally that must be drained to the server.
#[derive(Debug)]
pub enum OutboxOp {
    /// Create a podcast from a feed URL, with any directory metadata known at
    /// enqueue time.
    Subscribe {
        feed_url: String,
        title: Option<String>,
        description: Option<String>,
        author: Option<String>,
    },
    /// Delete a podcast.
    Unsubscribe { podcast_id: i32 },
    MarkPlayed { episode_id: i32, played: bool },
    SetCursor { episode_id: i32, cursor: i64 },
    /// Add episodes to a playlist: appended in bulk, or each inserted at
    /// `position` when one is given.
    AddToPlaylist { playlist_id: i32, episode_ids: Vec<i32>, position: Option<i32> },
    /// Remove episodes from a playlist in bulk.
    RemoveFromPlaylist { playlist_id: i32, episode_ids: Vec<i32> },
    /// Move an episode within a playlist to index `to`.
    MoveInPlaylist { playlist_id: i32, episode_id: i32, to: i32 },
    /// Move a playlist within the user's manual order to index `to`.
    MovePlaylist { playlist_id: i32, to: i32 },
    /// Smart-reorder a playlist's episodes.
    ReorderPlaylist { playlist_id: i32, field: PlaylistReorderField, direction: OrderDirection },
    /// Edit a playlist's metadata.
    UpdatePlaylist { playlist_id: i32, data: PlaylistUpdateData },
    /// Edit a podcast's download/poll config.
    UpdatePodcastConfig { config_id: i32, data: PodcastConfigUpdateData },
    /// Remove a podcast's config, reverting it to the server defaults.
    RemovePodcastConfig { podcast_id: i32 },
    /// Replace the set of playlists a podcast auto-adds new episodes to.
    SetPodcastAutoPlaylists { podcast_id: i32, playlist_ids: Vec<i32>, add_to_start: Option<bool> },
    /// Ask the server to download episodes' audio.
    TriggerDownload { episode_ids: Vec<i32> },
    /// Ask the server to remove its downloaded copies.
    RemoveServerDownload { episode_ids: Vec<i32> },
}

/// One server API call.
#[derive(Debug)]
pub enum ApiCall {
    CreatePodcast {
        title: String,
        description: Option<String>,
        feed_url: String,
        author: Option<String>,
    },
    DeletePodcast { podcast_id: i32 },
    UpsertPlayback { episode_id: i32, cursor: u64, completed: bool },
    AddEpisode { playlist_id: i32, episode_id: i32, position: i32 },
    AddEpisodesBulk { playlist_id: i32, episode_ids: Vec<i32> },
    RemoveEpisodesBulk { playlist_id: i32, episode_ids: Vec<i32> },
    MoveEpisode { playlist_id: i32, episode_id: i32, to: i32 },
    MovePlaylist { playlist_id: i32, to: i32 },
    ReorderPlaylist { playlist_id: i32, field: PlaylistReorderField, direction: OrderDirection },
    UpdatePlaylist { playlist_id: i32, data: PlaylistUpdateData },
    UpdatePodcastConfig { config_id: i32, data: PodcastConfigUpdateData },
    RemovePodcastConfigFor { podcast_id: i32 },
    SetPodcastAutoPlaylists { podcast_id: i32, playlist_ids: Vec<i32>, add_to_start: Option<bool> },
    TriggerDownloadBulk { episode_ids: Vec<i32> },
    RemoveServerDownloadBulk { episode_ids: Vec<i32> },
}

/// Title bound of a created podcast (characters).
pub const TITLE_MAX: usize = 256;

/// Description bound of a created podcast (characters).
pub const DESCRIPTION_MAX: usize = 65536;

/// The view of an optional text.
pub open spec fn opt_view(o: Option<String>) -> Option<Seq<char>> {
    match o {
        Some(s) => Some(s@),
        None => None,
    }
}

/// The view of an optional text clamped to `max` characters.
pub open spec fn opt_clamped(o: Option<String>, max: nat) -> Option<Seq<char>> {
    match o {
        Some(s) => Some(take_chars(s@, max)),
        None => None,
    }
}

/// The title a created podcast gets: the trimmed directory title when it is
/// non-empty, else the feed URL (the feed ingest heals it later).
pub open spec fn subscribe_title(title: Option<String>, feed_url: Seq<char>) -> Seq<char> {
    match title {
        Some(t) => if trimmed(t@).len() > 0 {
            trimmed(t@)
        } else {
            feed_url
        },
        None => feed_url,
    }
}

/// The cursor sent to the server: negative client cursors clamp to 0.
pub open spec fn wire_cursor(cursor: i64) -> u64 {
    if cursor < 0 {
        0
    } else {
        cursor as u64
    }
}

/// Whether `calls` is exactly the one call `c`.
pub open spec fn single(calls: Seq<ApiCall>, c: ApiCall) -> bool {
    calls.len() == 1 && calls[0] == c
}

/// Whether `call` is the podcast creation a `Subscribe` op sends: the title
/// falls back to the feed URL and every text is clamped to its bound.
pub open spec fn create_call_for(
    feed_url: String,
    title: Option<String>,
    description: Option<String>,
    author: Option<String>,
    call: ApiCall,
) -> bool {
    match call {
        ApiCall::CreatePodcast { title: t, description: d, feed_url: f, author: a } => {
            &&& t@ == take_chars(subscribe_title(title, feed_url@), TITLE_MAX as nat)
            &&& opt_view(d) == opt_clamped(description, DESCRIPTION_MAX as nat)
            &&& f@ == feed_url@
            &&& opt_view(a) == opt_clamped(author, TITLE_MAX as nat)
        },
        _ => false,
    }
}

/// Whether `calls` is the plan that delivers `op`: exactly the calls the
/// server needs, in order (an empty id list needs none; a positioned add
/// inserts each id at that position; everything else is one call).
pub open spec fn plan_for(op: OutboxOp, calls: Seq<ApiCall>) -> bool {
    match op {
        OutboxOp::Subscribe { feed_url, title, description, author } => calls.len() == 1
            && create_call_for(feed_url, title, description, author, calls[0]),
        OutboxOp::Unsubscribe { podcast_id } => single(calls, ApiCall::DeletePodcast { podcast_id }),
        OutboxOp::MarkPlayed { episode_id, played } => single(calls, ApiCall::UpsertPlayback { episode_id, cursor: 0, completed: played }),
        OutboxOp::SetCursor { episode_id, cursor } => single(calls, ApiCall::UpsertPlayback { episode_id, cursor: wire_cursor(cursor), completed: false }),
        OutboxOp::AddToPlaylist { playlist_id, episode_ids, position } => {
            if episode_ids@.len() == 0 {
                calls.len() == 0
            } else {
                match position {
                    Some(pos) => {
                        &&& calls.len() == episode_ids@.len()
                        &&& forall|i: int|
                            0 <= i < calls.len() ==> #[trigger] calls[i] == (ApiCall::AddEpisode {
                                playlist_id,
                                episode_id: episode_ids@[i],
                                position: pos,
                            })
                    },
                    None => single(calls, ApiCall::AddEpisodesBulk { playlist_id, episode_ids }),
                }
            }
        },
        OutboxOp::RemoveFromPlaylist { playlist_id, episode_ids } => {
            if episode_ids@.len() == 0 {
                calls.len() == 0
            } else {
                single(calls, ApiCall::RemoveEpisodesBulk { playlist_id, episode_ids })
            }
        },
        OutboxOp::MoveInPlaylist { playlist_id, episode_id, to } => single(calls, ApiCall::MoveEpisode { playlist_id, episode_id, to }),
        OutboxOp::MovePlaylist { playlist_id, to } => single(calls, ApiCall::MovePlaylist { playlist_id, to }),
        OutboxOp::ReorderPlaylist { playlist_id, field, direction } => single(calls, ApiCall::ReorderPlaylist { playlist_id, field, direction }),
        OutboxOp::UpdatePlaylist { playlist_id, data } => single(calls, ApiCall::UpdatePlaylist { playlist_id, data }),
        OutboxOp::UpdatePodcastConfig { config_id, data } => single(calls, ApiCall::UpdatePodcastConfig { config_id, data }),
        OutboxOp::RemovePodcastConfig { podcast_id } => single(calls, ApiCall::RemovePodcastConfigFor { podcast_id }),
        OutboxOp::SetPodcastAutoPlaylists { podcast_id, playlist_ids, add_to_start } => single(calls, ApiCall::SetPodcastAutoPlaylists { podcast_id, playlist_ids, add_to_start }),
        OutboxOp::TriggerDownload { episode_ids } => {
            if episode_ids@.len() == 0 {
                calls.len() == 0
            } else {
                single(calls, ApiCall::TriggerDownloadBulk { episode_ids })
            }
        },
        OutboxOp::RemoveServerDownload { episode_ids } => {
            if episode_ids@.len() == 0 {
                calls.len() == 0
            } else {
                single(calls, ApiCall::RemoveServerDownloadBulk { episode_ids })
            }
        },
    }
}

/// Whether an op changes server structure the client can't reproduce locally.
pub open spec fn needs_pull_spec(op: OutboxOp) -> bool {
    op is Subscribe || op is Unsubscribe
}

/// The podcast creation a `Subscribe` op sends.
fn subscribe_call(
    feed_url: &String,
    title: &Option<String>,
    description: &Option<String>,
    author: &Option<String>,
) -> (call: ApiCall)
    ensures
        create_call_for(*feed_url, *title, *description, *author, call),
{
    let t: String = match title {
        Some(t) => {
            let tt = trim(t.as_str());
            if tt.unicode_len() > 0 {
                clamp_chars(tt, TITLE_MAX)
            } else {
                clamp_chars(feed_url.as_str(), TITLE_MAX)
            }
        },
        None => clamp_chars(feed_url.as_str(), TITLE_MAX),
    };
    let d = match description {
        Some(d) => Some(clamp_chars(d.as_str(), DESCRIPTION_MAX)),
        None => None,
    };
    let a = match author {
        Some(a) => Some(clamp_chars(a.as_str(), TITLE_MAX)),
        None => None,
    };
    ApiCall::CreatePodcast { title: t, description: d, feed_url: feed_url.clone(), author: a }
}

impl OutboxOp {
    /// The API calls that deliver this op, in order. The caller sends them one
    /// after another and stops at the first failure; a `Subscribe` call's
    /// created podcast is what the drain merges into the pool.
    pub fn api_calls(self) -> (calls: Vec<ApiCall>)
        ensures
            plan_for(self, calls@),
    {
        match self {
            OutboxOp::Subscribe { feed_url, title, description, author } => vec![
                subscribe_call(&feed_url, &title, &description, &author),
            ],
            OutboxOp::Unsubscribe { podcast_id } => vec![ApiCall::DeletePodcast { podcast_id }],
            OutboxOp::MarkPlayed { episode_id, played } => vec![
                ApiCall::UpsertPlayback { episode_id, cursor: 0, completed: played },
            ],
            OutboxOp::SetCursor { episode_id, cursor } => {
                let c: u64 = if cursor < 0 {
                    0
                } else {
                    cursor as u64
                };
                vec![ApiCall::UpsertPlayback { episode_id, cursor: c, completed: false }]
            },
            OutboxOp::AddToPlaylist { playlist_id, episode_ids, position } => {
                if episode_ids.len() == 0 {
                    return Vec::new();
                }
                match position {
                    Some(pos) => {
                        let mut calls: Vec<ApiCall> = Vec::new();
                        let mut i: usize = 0;
                        while i < episode_ids.len()
                            invariant
                                i <= episode_ids.len(),
                                calls.len() == i,
                                forall|j: int|
                                    0 <= j < i ==> #[trigger] calls@[j] == (ApiCall::AddEpisode {
                                        playlist_id,
                                        episode_id: episode_ids@[j],
                                        position: pos,
                                    }),
                            decreases episode_ids.len() - i,
                        {
                            calls.push(
                                ApiCall::AddEpisode {
                                    playlist_id,
                                    episode_id: episode_ids[i],
                                    position: pos,
                                },
                            );
                            i = i + 1;
                        }
                        calls
                    },
                    None => vec![ApiCall::AddEpisodesBulk { playlist_id, episode_ids }],
                }
            },
            OutboxOp::RemoveFromPlaylist { playlist_id, episode_ids } => {
                if episode_ids.len() == 0 {
                    Vec::new()
                } else {
                    vec![ApiCall::RemoveEpisodesBulk { playlist_id, episode_ids }]
                }
            },
            OutboxOp::MoveInPlaylist { playlist_id, episode_id, to } => vec![
                ApiCall::MoveEpisode { playlist_id, episode_id, to },
            ],
            OutboxOp::MovePlaylist { playlist_id, to } => vec![
                ApiCall::MovePlaylist { playlist_id, to },
            ],
            OutboxOp::ReorderPlaylist { playlist_id, field, direction } => vec![
                ApiCall::ReorderPlaylist { playlist_id, field, direction },
            ],
            OutboxOp::UpdatePlaylist { playlist_id, data } => vec![
                ApiCall::UpdatePlaylist { playlist_id, data },
            ],
            OutboxOp::UpdatePodcastConfig { config_id, data } => vec![
                ApiCall::UpdatePodcastConfig { config_id, data },
            ],
            OutboxOp::RemovePodcastConfig { podcast_id } => vec![
                ApiCall::RemovePodcastConfigFor { podcast_id },
            ],
            OutboxOp::SetPodcastAutoPlaylists { podcast_id, playlist_ids, add_to_start } => vec![
                ApiCall::SetPodcastAutoPlaylists { podcast_id, playlist_ids, add_to_start },
            ],
            OutboxOp::TriggerDownload { episode_ids } => {
                if episode_ids.len() == 0 {
                    Vec::new()
                } else {
                    vec![ApiCall::TriggerDownloadBulk { episode_ids }]
                }
            },
            OutboxOp::RemoveServerDownload { episode_ids } => {
                if episode_ids.len() == 0 {
                    Vec::new()
                } else {
                    vec![ApiCall::RemoveServerDownloadBulk { episode_ids }]
                }
            },
        }
    }

    /// True for ops that change server-side structure the client can't fully
    /// reproduce locally (a new or removed podcast), so a pull should follow.
    pub fn needs_pull_after(&self) -> (b: bool)
        ensures
            b == needs_pull_spec(*self),
    {
        match self {
            OutboxOp::Subscribe { .. } | OutboxOp::Unsubscribe { .. } => true,
            _ => false,
        }
    }
}

} // verus!
