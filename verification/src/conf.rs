//! Configuration records for the proxy: which listeners to run and how
//! outbound target connections are made. The records are immutable after
//! startup; durations are carried as whole milliseconds.
use vstd::prelude::*;

verus! {

/// Fallback connect deadline when the configuration names none, in ms.
pub const DEFAULT_CONNECT_TIMEOUT_MS: u64 = 10_000;

/// Listener settings for the plaintext HTTP forward-proxy port.
#[derive(Clone, Debug)]
pub struct HttpConfig {
    pub listen_port: u16,
}

/// Listener settings for the TLS (SNI-sniffing) port.
#[derive(Clone, Debug)]
pub struct HttpsConfig {
    pub listen_port: u16,
}

/// One statically mapped TCP listener: every connection accepted on
/// `listen_port` is relayed to `remote_addr` (`host:port`).
#[derive(Clone, Debug)]
pub struct TcpConfig {
    pub listen_port: u16,
    pub remote_addr: String,
}

/// How outbound target connections are made: an optional positive DNS
/// cache TTL and the TCP connect deadline, both in milliseconds.
#[derive(Clone, Debug)]
pub struct TargetConnectionConfig {
    pub dns_cache_ttl: Option<u64>,
    pub connect_timeout: u64,
}

impl Default for TargetConnectionConfig {
    /// Without explicit settings nothing is cached positively and a
    /// connect attempt is bounded by ten seconds.
    fn default() -> (c: Self)
        ensures
            c.dns_cache_ttl is None,
            c.connect_timeout == DEFAULT_CONNECT_TIMEOUT_MS,
    {
        TargetConnectionConfig { dns_cache_ttl: None, connect_timeout: DEFAULT_CONNECT_TIMEOUT_MS }
    }
}

/// Settings shared by every tunnel kind.
#[derive(Clone, Debug)]
pub struct TunnelConfig {
    pub target_connection: TargetConnectionConfig,
}

/// The whole configuration record: each listener family is optional, and
/// any number of static TCP mappings may be given.
#[derive(Debug)]
pub struct Config {
    pub http: Option<HttpConfig>,
    pub https: Option<HttpsConfig>,
    pub tcp: Vec<TcpConfig>,
    pub tunnel_config: TunnelConfig,
}

} // verus!
