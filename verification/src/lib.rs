//! Verified core of the agpeer download manager: the normalized transfer and
//! search model, post-processing rules, torrent metainfo parsing, magnet
//! search scraping and configuration overlays.

pub mod api;
pub mod common;
pub mod completion;
pub mod config;
pub mod debug;
pub mod events;
pub mod hook;
pub mod ids;
pub mod jobs;
pub mod text;
pub mod util;
pub mod torrent;
pub mod paths;
pub mod postprocess;
pub mod secrets;
pub mod storage;
pub mod soulseek;
pub mod sync;
pub mod logrotate;
pub mod startup;
pub mod library;
pub mod client;
pub mod state;
