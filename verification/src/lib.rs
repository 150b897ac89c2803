//! Verified core of the KF2 karaoke server: HLS playlist parsing and download
//! planning, provider identities and asset URNs, DAM response interpretation,
//! provider registries and session caches, the asset cache, and
//! configuration.

pub mod api;
pub mod asset_cache;
pub mod asset_tool;
pub mod cli;
pub mod config;
pub mod dam_tool;
pub mod frontend;
pub mod hls;
pub mod models;
pub mod provider;
pub mod provider_config;
pub mod text;
pub mod tools;

pub use config::{DatabaseConfig, FrontendConfig};

use vstd::prelude::*;

verus! {

/// The configuration the server runs with.
#[derive(Debug, Clone)]
pub struct AppConfig {
    pub database: DatabaseConfig,
    pub server: ServerConfig,
    pub projector: FrontendConfig,
    pub remocon: FrontendConfig,
}

/// Where the server listens.
#[derive(Debug, Clone)]
pub struct ServerConfig {
    /// `host:port` to bind to.
    pub listen_addr: String,
}

impl FrontendConfig {
    /// True when `root` is an HTTP(S) URL, whose requests are forwarded.
    pub fn is_http_endpoint(&self) -> (r: bool)
        ensures
            r == config::is_http_root(self.root@),
    {
        config::root_is_http(self.root.as_str())
    }
}

} // verus!
