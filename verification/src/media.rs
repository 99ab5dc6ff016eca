//! On-device audio byte storage: the playable device-copy source, the resume
//! information of a staged partial, and the store and writer interfaces each
//! platform implements.

use std::rc::Rc;
use vstd::prelude::*;

verus! {

/// A playable device-copy source: a URL (or file path) and, when known, the
/// stored bytes' MIME type.
#[derive(Debug)]
pub struct LocalAudio {
    pub url: String,
    pub content_type: Option<String>,
}

impl Clone for LocalAudio {
    fn clone(&self) -> (r: Self)
        ensures
            r == *self,
    {
        LocalAudio {
            url: self.url.clone(),
            content_type: match &self.content_type {
                Some(c) => Some(c.clone()),
                None => None,
            },
        }
    }
}

/// Resume information for an episode's staged (uncommitted) download.
#[derive(Debug)]
pub struct PartialInfo {
    /// Bytes durably staged so far: the offset to resume from.
    pub downloaded: u64,
    /// Expected full size, when it was known.
    pub total: Option<u64>,
    /// MIME type captured when the download started.
    pub content_type: Option<String>,
}

impl Clone for PartialInfo {
    fn clone(&self) -> (r: Self)
        ensures
            r == *self,
    {
        PartialInfo {
            downloaded: self.downloaded,
            total: self.total,
            content_type: match &self.content_type {
                Some(c) => Some(c.clone()),
                None => None,
            },
        }
    }
}

/// An append-only write of one episode's audio: chunks are staged durably and
/// become the episode's stored audio only on `commit`.
pub trait MediaWriter {
    /// Append the next chunk durably.
    fn write(&mut self, chunk: &[u8]) -> Result<(), String>;

    /// Commit the accumulated bytes as the episode's stored audio.
    fn commit(&mut self) -> Result<(), String>;
}

/// Byte storage for device-downloaded episode audio.
pub trait MediaStore {
    type Writer: MediaWriter;

    /// Open a writer: `resume` appends to the staged partial, otherwise any
    /// partial is truncated; `total` is recorded when known.
    fn open_writer(
        &self,
        episode_id: i32,
        content_type: Option<&str>,
        total: Option<u64>,
        resume: bool,
    ) -> Result<Self::Writer, String>;

    /// A playable source for a stored episode, `None` when nothing is stored.
    fn audio_url(&self, episode_id: i32) -> Result<Option<LocalAudio>, String>;

    /// Delete an episode's stored and staged bytes.
    fn remove_audio(&self, episode_id: i32) -> Result<(), String>;

    /// Ids with committed audio.
    fn list_ids(&self) -> Result<Vec<i32>, String>;

    /// The staged partial of an episode, if any.
    fn partial(&self, episode_id: i32) -> Result<Option<PartialInfo>, String>;

    /// Ids with a staged partial.
    fn list_partials(&self) -> Result<Vec<i32>, String>;

    /// Wipe all stored audio.
    fn clear(&self) -> Result<(), String>;
}

/// A shared handle to the one media store; `None` when it failed to open
/// (device downloads then fail).
pub struct MediaStoreHandle<S: MediaStore>(pub Option<Rc<S>>);

impl<S: MediaStore> MediaStoreHandle<S> {
    /// Whether a store is available.
    pub fn is_available(&self) -> (b: bool)
        ensures
            b == self.0 is Some,
    {
        self.0.is_some()
    }
}

} // verus!
