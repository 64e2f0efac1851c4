//! Spoken-article playback: durations, player selection and cached files.
pub mod backend;
pub mod cache;
pub mod duration;

pub use backend::{AudioBackend, PlaybackState};
pub use duration::parse_duration_to_secs;
pub mod player;
