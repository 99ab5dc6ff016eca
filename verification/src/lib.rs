//! Verified core of the Halogen podcast client: device-log ring, storage
//! namespaces, the episode query model, the offline outbox and its drain policy,
//! the playback state machine and its media controls, the device-download
//! decisions and the session flows.

pub mod text;
pub mod level;
pub mod namespace;
pub mod device_log;
pub mod embedded;
pub mod outbox;
pub mod drain;
pub mod download;
pub mod player;
pub mod navigation;
pub mod query;
pub mod pending;
pub mod pool;
pub mod playlists;
pub mod paging;
pub mod sync;
pub mod device;
pub mod media;
pub mod deep_link;
pub mod pull;
pub mod session;
pub mod media_controls;
