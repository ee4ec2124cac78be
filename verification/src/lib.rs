//! Verified core of a DASH downloader: the manifest model and its segment
//! naming, the manifest checks, the retry policy for segment downloads, the
//! progress printer's state machine and the command lines handed to ffmpeg.

pub mod text;
pub mod content;
pub mod mpd;
pub mod printer;
pub mod download;
pub mod cancellation;
pub mod tracks;
pub mod muxing;
pub mod config;
pub mod errors;
pub mod tubu;
