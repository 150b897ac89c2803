//! HLS (m3u8) playlists: parsing, and planning their download into a local,
//! self-contained copy.

pub mod download;
pub mod error;
pub mod fetch;
pub mod laws;
pub mod parse;
pub mod progress;
pub mod types;

pub use error::HlsError;
pub use progress::{HlsEvent, NoProgress, ProgressReporter};
pub use types::DownloadResult;
