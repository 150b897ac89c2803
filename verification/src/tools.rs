//! External tools the server drives (ffmpeg, yt-dlp) and the HLS
//! downloader.

pub mod ffmpeg;
pub mod ytdlp;

pub use crate::hls;
pub use ffmpeg::FFmpeg;
pub use ytdlp::YtDlp;
