//! What is reported to the server about a playback.
use vstd::prelude::*;

verus! {

/// How the server delivers a file.
#[derive(Debug, Clone, Copy, PartialEq, Eq, Structural)]
pub enum PlayMethod {
    DirectPlay,
    DirectStream,
    Transcode,
}

/// What a progress report is about.
#[derive(Debug, Clone, Copy, PartialEq, Eq, Structural)]
pub enum ProgressEvent {
    TimeUpdate,
    Pause,
    Unpause,
    VolumeChange,
    Seek,
    AudioTrackChange,
    SubtitleTrackChange,
    QualityChange,
}

/// Sent when a playback starts, so that the server tracks the position.
#[derive(Debug, Clone)]
pub struct PlaybackStartInfo {
    pub item_id: String,
    pub media_source_id: Option<String>,
    pub play_method: PlayMethod,
    pub position_ticks: Option<i64>,
    pub is_paused: bool,
    pub is_muted: bool,
    pub audio_stream_index: Option<i32>,
    pub subtitle_stream_index: Option<i32>,
}

/// Sent every few seconds.
#[derive(Debug, Clone)]
pub struct PlaybackProgressInfo {
    pub item_id: String,
    pub media_source_id: Option<String>,
    pub play_method: PlayMethod,
    pub position_ticks: i64,
    pub is_paused: bool,
    pub is_muted: bool,
    pub event_name: Option<ProgressEvent>,
}

/// Sent when a playback ends.
#[derive(Debug, Clone)]
pub struct PlaybackStopInfo {
    pub item_id: String,
    pub media_source_id: Option<String>,
    pub position_ticks: Option<i64>,
    pub failed: bool,
}

} // verus!
