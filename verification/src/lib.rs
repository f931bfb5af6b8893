//! Downloading a video that is published as an M3U8 playlist: resolving the
//! playlist, fetching its segments, and keeping track of both.
//!
//! The library decides; it neither fetches nor saves anything itself. Whoever
//! drives it carries out what it says and tells it what came of that.

pub mod convert;
pub mod error;
pub mod fetch;
pub mod location;
pub mod monitor;
pub mod playlist;
pub mod request;
pub mod retry;
pub mod save_path;
pub mod size;
pub mod task;
pub mod text;
pub mod thread_pool;
pub mod window;
