//! The decisions of a media server client: requests, browsing, downloads, and
//! bit-perfect playback.

pub mod auth;
pub mod browser;
pub mod client;
pub mod detail;
pub mod dop;
pub mod download;
pub mod dsf;
pub mod engine;
pub mod hal;
pub mod images;
pub mod linux;
pub mod listing;
pub mod nav;
pub mod playback;
pub mod ring;
pub mod session;
pub mod storage;
pub mod text;
pub mod types;
pub mod urls;
pub mod video;
