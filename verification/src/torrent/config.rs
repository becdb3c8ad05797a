//! Configuration for the torrent backend.

use vstd::prelude::*;

verus! {

/// Static configuration for the torrent transfer backend.
///
/// `download_root` is the default destination directory used when an add
/// request does not specify one.
#[derive(Debug, Clone, PartialEq, Eq)]
pub struct TorrentConfig {
    /// Default destination directory for transfers without an explicit one.
    pub download_root: String,
    /// Port for the BitTorrent listen socket; `None` lets the backend pick.
    pub listen_port: Option<u16>,
    /// Global download rate limit in bytes per second.
    pub download_rate_limit: Option<u64>,
    /// Global upload rate limit in bytes per second.
    pub upload_rate_limit: Option<u64>,
    /// Whether to enable the Distributed Hash Table for peer discovery.
    pub enable_dht: bool,
    /// Whether to enable Peer EXchange.
    pub enable_pex: bool,
    /// Whether to enable Local Service Discovery.
    pub enable_lsd: bool,
    /// Whether to enable tracker announcements.
    pub enable_tracker: bool,
}

impl TorrentConfig {
    /// The default settings with downloads going to `download_root`: DHT,
    /// PEX and trackers on, LSD off, no port and no rate limits.
    pub fn with_download_root(download_root: String) -> (c: Self)
        ensures
            c.download_root == download_root,
            c.listen_port is None,
            c.download_rate_limit is None,
            c.upload_rate_limit is None,
            c.enable_dht,
            c.enable_pex,
            !c.enable_lsd,
            c.enable_tracker,
    {
        TorrentConfig {
            download_root,
            listen_port: None,
            download_rate_limit: None,
            upload_rate_limit: None,
            enable_dht: true,
            enable_pex: true,
            enable_lsd: false,
            enable_tracker: true,
        }
    }
}

} // verus!
