//! BitTorrent source handling: metainfo parsing, source validation and the
//! normalization rules shared by the engines.

pub mod bencode;
pub mod error;
pub mod source;
pub mod config;
pub mod normalize;
pub mod memory;
pub mod snapshot;
