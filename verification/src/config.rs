use vstd::prelude::*;

verus! {

/// Address the HTTP server listens on.
#[derive(Debug, Clone)]
pub struct ServerConfig {
    pub host: String,
    pub port: u16,
}

/// Location of the proxy database.
#[derive(Debug, Clone)]
pub struct DatabaseConfig {
    pub url: String,
}

/// The configured proxy list providers and how often they are synced.
#[derive(Debug, Clone)]
pub struct SourcesConfig {
    pub sync_interval_secs: u64,
    pub providers: Vec<ProviderConfig>,
}

/// One proxy list provider: a local file (`provider_type` "file", with a
/// `path`) or a remote list (`provider_type` "url", with a `url`).
#[derive(Debug, Clone)]
pub struct ProviderConfig {
    pub provider_type: String,
    pub path: Option<String>,
    pub url: Option<String>,
}

/// Settings of the periodic proxy checks.
#[derive(Debug, Clone)]
pub struct CheckerConfig {
    pub interval_secs: u64,
    pub timeout_secs: u64,
    pub max_concurrent: usize,
    pub targets: Vec<String>,
}

} // verus!
