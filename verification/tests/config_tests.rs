use rs_helper::cache::CacheKey;
use rs_helper::config::{default_user_agent, Config};

#[test]
fn config_defaults() {
    let c = Config::default();
    assert_eq!(c.server.host, "127.0.0.1");
    assert_eq!(c.server.port, 3000);
    assert_eq!(c.server.log_level, "info");
    assert!(c.cache.enabled);
    assert_eq!(c.cache.max_capacity, 10_000);
    assert_eq!(c.cache.ttl_seconds, 300);
    assert_eq!(c.cache.items_ttl_seconds, 60);
    assert!(c.rate_limit.enabled);
    assert_eq!(c.rate_limit.requests_per_second, 50);
    assert_eq!(c.rate_limit.burst_size, 100);
    assert_eq!(c.upstream.timeout_seconds, 10);
    assert_eq!(c.upstream.max_retries, 3);
    assert_eq!(c.upstream.user_agent, "rs-helper/0.2 (unofficial)");
    assert!(c.metrics.enabled);
    assert_eq!(c.metrics.port, 9090);
    assert_eq!(default_user_agent(), "rs-helper/0.2 (unofficial)");
}

#[test]
fn config_durations() {
    let c = Config::default();
    assert_eq!(c.cache_ttl().as_secs(), 300);
    assert_eq!(c.items_cache_ttl().as_secs(), 60);
    assert_eq!(c.upstream_timeout().as_secs(), 10);
}

#[test]
fn cache_keys_and_lifetimes() {
    let c = Config::default();
    let list = CacheKey::items_list(24, "a", 2, "rs3");
    assert_eq!(
        list,
        CacheKey::ItemsList { category: 24, alpha: "a".to_string(), page: 2, game: "rs3".to_string() }
    );
    assert_eq!(CacheKey::item_detail(4151, "osrs"), CacheKey::ItemDetail { id: 4151, game: "osrs".to_string() });
    assert_eq!(CacheKey::graph(4151, "rs3"), CacheKey::Graph { id: 4151, game: "rs3".to_string() });
    assert_eq!(CacheKey::info("rs3"), CacheKey::Info { game: "rs3".to_string() });
    assert_ne!(CacheKey::item_detail(1, "rs3"), CacheKey::graph(1, "rs3"));
    assert_eq!(list.ttl_seconds(&c.cache), 60);
    assert_eq!(CacheKey::item_detail(1, "rs3").ttl_seconds(&c.cache), 300);
    assert_eq!(CacheKey::graph(1, "rs3").ttl_seconds(&c.cache), 300);
    assert_eq!(CacheKey::info("rs3").ttl_seconds(&c.cache), 300);
}
