//! Settings of the gateway and their defaults.
use std::time::Duration;
use vstd::prelude::*;

verus! {

/// Everything the gateway can be configured with.
#[derive(Debug, Clone)]
pub struct Config {
    pub server: ServerConfig,
    pub cache: CacheConfig,
    pub rate_limit: RateLimitConfig,
    pub upstream: UpstreamConfig,
    pub metrics: MetricsConfig,
}

/// Where the HTTP server listens and how much it logs.
#[derive(Debug, Clone)]
pub struct ServerConfig {
    pub host: String,
    pub port: u16,
    pub log_level: String,
}

/// Response caching.
#[derive(Debug, Clone)]
pub struct CacheConfig {
    pub enabled: bool,
    pub max_capacity: u64,
    pub ttl_seconds: u64,
    pub items_ttl_seconds: u64,
}

/// Request rate limiting.
#[derive(Debug, Clone)]
pub struct RateLimitConfig {
    pub enabled: bool,
    pub requests_per_second: u32,
    pub burst_size: u32,
}

/// Calls to the RuneScape API.
#[derive(Debug, Clone)]
pub struct UpstreamConfig {
    pub timeout_seconds: u64,
    pub max_retries: u32,
    pub user_agent: String,
}

/// The Prometheus metrics endpoint.
#[derive(Debug, Clone)]
pub struct MetricsConfig {
    pub enabled: bool,
    pub port: u16,
}

/// The duration of `secs` whole seconds, as std's `Duration::from_secs` makes it.
pub uninterp spec fn secs_duration(secs: u64) -> Duration;

/// std's `Duration::from_secs`: a duration of exactly `secs` whole seconds.
/// Claimed: the result is the named duration of `secs`; the duration is
/// opaque here, so nothing more of it is stated.
#[verifier::external_body]
fn duration_from_secs(secs: u64) -> (d: Duration)
    ensures
        d == secs_duration(secs),
{
    Duration::from_secs(secs)
}

/// Default listening host: `127.0.0.1`.
pub fn default_host() -> (s: String)
    ensures
        s@ == "127.0.0.1"@,
{
    "127.0.0.1".to_string()
}

/// Default listening port: 3000.
pub fn default_port() -> (p: u16)
    ensures
        p == 3000,
{
    3000
}

/// Default log level: `info`.
pub fn default_log_level() -> (s: String)
    ensures
        s@ == "info"@,
{
    "info".to_string()
}

/// Caching is on by default.
pub fn default_cache_enabled() -> (b: bool)
    ensures
        b,
{
    true
}

/// Default cache capacity: 10 000 entries.
pub fn default_cache_max_capacity() -> (n: u64)
    ensures
        n == 10_000,
{
    10_000
}

/// Default cache lifetime: five minutes.
pub fn default_cache_ttl() -> (n: u64)
    ensures
        n == 300,
{
    300
}

/// Default lifetime of cached item lists: one minute.
pub fn default_cache_items_ttl() -> (n: u64)
    ensures
        n == 60,
{
    60
}

/// Rate limiting is on by default.
pub fn default_rate_limit_enabled() -> (b: bool)
    ensures
        b,
{
    true
}

/// Default sustained rate: 50 requests per second.
pub fn default_rate_limit_requests() -> (n: u32)
    ensures
        n == 50,
{
    50
}

/// Default burst: 100 requests.
pub fn default_rate_limit_burst() -> (n: u32)
    ensures
        n == 100,
{
    100
}

/// Default upstream timeout: ten seconds.
pub fn default_upstream_timeout() -> (n: u64)
    ensures
        n == 10,
{
    10
}

/// Default number of upstream retries: three.
pub fn default_upstream_retries() -> (n: u32)
    ensures
        n == 3,
{
    3
}

/// Default user agent sent upstream.
pub fn default_user_agent() -> (s: String)
    ensures
        s@ == "rs-helper/0.2 (unofficial)"@,
{
    "rs-helper/0.2 (unofficial)".to_string()
}

/// Metrics are on by default.
pub fn default_metrics_enabled() -> (b: bool)
    ensures
        b,
{
    true
}

/// Default metrics port: 9090.
pub fn default_metrics_port() -> (p: u16)
    ensures
        p == 9090,
{
    9090
}

/// The configuration every field of which holds its default.
pub open spec fn is_default_config(c: Config) -> bool {
    &&& c.server.host@ == "127.0.0.1"@
    &&& c.server.port == 3000
    &&& c.server.log_level@ == "info"@
    &&& c.cache.enabled
    &&& c.cache.max_capacity == 10_000
    &&& c.cache.ttl_seconds == 300
    &&& c.cache.items_ttl_seconds == 60
    &&& c.rate_limit.enabled
    &&& c.rate_limit.requests_per_second == 50
    &&& c.rate_limit.burst_size == 100
    &&& c.upstream.timeout_seconds == 10
    &&& c.upstream.max_retries == 3
    &&& c.upstream.user_agent@ == "rs-helper/0.2 (unofficial)"@
    &&& c.metrics.enabled
    &&& c.metrics.port == 9090
}

impl Default for Config {
    /// Every setting at its default.
    fn default() -> (c: Self)
        ensures
            is_default_config(c),
    {
        Config {
            server: ServerConfig {
                host: default_host(),
                port: default_port(),
                log_level: default_log_level(),
            },
            cache: CacheConfig {
                enabled: default_cache_enabled(),
                max_capacity: default_cache_max_capacity(),
                ttl_seconds: default_cache_ttl(),
                items_ttl_seconds: default_cache_items_ttl(),
            },
            rate_limit: RateLimitConfig {
                enabled: default_rate_limit_enabled(),
                requests_per_second: default_rate_limit_requests(),
                burst_size: default_rate_limit_burst(),
            },
            upstream: UpstreamConfig {
                timeout_seconds: default_upstream_timeout(),
                max_retries: default_upstream_retries(),
                user_agent: default_user_agent(),
            },
            metrics: MetricsConfig {
                enabled: default_metrics_enabled(),
                port: default_metrics_port(),
            },
        }
    }
}

impl Config {
    /// How long cached responses live by default.
    pub fn cache_ttl(&self) -> (d: Duration)
        ensures
            d == secs_duration(self.cache.ttl_seconds),
    {
        duration_from_secs(self.cache.ttl_seconds)
    }

    /// How long cached item lists live.
    pub fn items_cache_ttl(&self) -> (d: Duration)
        ensures
            d == secs_duration(self.cache.items_ttl_seconds),
    {
        duration_from_secs(self.cache.items_ttl_seconds)
    }

    /// How long to wait for the RuneScape API.
    pub fn upstream_timeout(&self) -> (d: Duration)
        ensures
            d == secs_duration(self.upstream.timeout_seconds),
    {
        duration_from_secs(self.upstream.timeout_seconds)
    }
}

} // verus!
