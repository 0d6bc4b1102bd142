use ad_nope::config::{
    default_blocklists, default_bootstrap_dns, default_cache_capacity, default_log_format,
    default_query_log_sinks, default_sqlite_retention_hours, default_upstream_servers,
    CacheConfig, Config, LoggingConfig, StatsConfig, UpdateConfig,
};
use ad_nope::logger::sinks::{plan_sinks, SinkPlan};
use ad_nope::stats::StatsCollector;

#[test]
fn test_default_config_values() {
    let config = Config::default();
    assert_eq!(config.host, "0.0.0.0");
    assert_eq!(config.port, 5300);
    assert_eq!(config.upstream_servers, vec!["h3://dns.google/dns-query"]);
    assert!(config.blocklists.contains_key("default"));
    assert!(config.cache.enable);
    assert_eq!(config.cache.capacity, 10000);
}

#[test]
fn test_sorted_blocklists() {
    let mut config = Config::default();
    config.blocklists.clear();
    config
        .blocklists
        .insert("b".to_string(), "url2".to_string());
    config
        .blocklists
        .insert("a".to_string(), "url1".to_string());
    config
        .blocklists
        .insert("c".to_string(), "url3".to_string());

    let sorted = config.get_blocklists_sorted();
    assert_eq!(sorted.len(), 3);
    assert_eq!(sorted[0].0, "a");
    assert_eq!(sorted[1].0, "b");
    assert_eq!(sorted[2].0, "c");
}

#[test]
fn test_component_instantiation() {
    let config = Config::default();
    let stats = StatsCollector::new(10, config.upstream_servers.clone(), vec![]);
    assert_eq!(stats.total_queries(), 0);
    let plan = plan_sinks(&config.logging.query_log_sinks, false);
    assert_eq!(plan, vec![SinkPlan::Console]);
}

#[test]
fn sorted_blocklists_keep_urls_with_names() {
    let mut config = Config::default();
    config.blocklists.clear();
    config.blocklists.insert("zeta".to_string(), "u-z".to_string());
    config.blocklists.insert("Alpha".to_string(), "u-A".to_string());
    config.blocklists.insert("alpha".to_string(), "u-a".to_string());
    config.blocklists.insert("beta".to_string(), "u-b".to_string());
    let sorted = config.get_blocklists_sorted();
    let expected: Vec<(String, String)> = vec![
        ("Alpha".to_string(), "u-A".to_string()),
        ("alpha".to_string(), "u-a".to_string()),
        ("beta".to_string(), "u-b".to_string()),
        ("zeta".to_string(), "u-z".to_string()),
    ];
    assert_eq!(sorted, expected);
}

#[test]
fn sorted_blocklists_of_empty_map_is_empty() {
    let mut config = Config::default();
    config.blocklists.clear();
    assert!(config.get_blocklists_sorted().is_empty());
}

#[test]
fn sorted_blocklists_orders_prefixes_first() {
    let mut config = Config::default();
    config.blocklists.clear();
    config.blocklists.insert("ab".to_string(), "2".to_string());
    config.blocklists.insert("a".to_string(), "1".to_string());
    config.blocklists.insert("abc".to_string(), "3".to_string());
    let names: Vec<String> = config.get_blocklists_sorted().into_iter().map(|p| p.0).collect();
    assert_eq!(names, vec!["a", "ab", "abc"]);
}

#[test]
fn default_sections_hold_documented_values() {
    let cache = CacheConfig::default();
    assert!(cache.enable);
    assert_eq!(cache.capacity, 10000);
    assert_eq!(cache.grace_period_sec, 10);
    assert_eq!(cache.min_ttl, 300);

    let updates = UpdateConfig::default();
    assert_eq!(updates.interval_hours, 24);
    assert_eq!(updates.concurrent_downloads, 4);

    let logging = LoggingConfig::default();
    assert!(logging.enable);
    assert!(logging.log_blocked);
    assert!(logging.log_all_queries);
    assert_eq!(logging.format, "text");
    assert_eq!(logging.target, "console");
    assert_eq!(logging.level, "info");
    assert_eq!(logging.file_path, None);
    assert_eq!(logging.syslog_addr, None);
    assert_eq!(logging.query_log_sinks, vec!["console"]);
    assert_eq!(logging.sqlite_path, "ad-nope.db");
    assert_eq!(logging.sqlite_retention_hours, 168);

    let stats = StatsConfig::default();
    assert!(stats.enable);
    assert_eq!(stats.log_interval_seconds, 300);
}

#[test]
fn default_config_other_fields() {
    let config = Config::default();
    assert_eq!(config.resolution_policy, "parallel");
    assert_eq!(config.upstream_timeout_ms, 200);
    assert_eq!(config.bootstrap_dns, vec!["8.8.8.8:53"]);
    assert!(config.allowlist.is_empty());
    assert!(config.local_records.is_empty());
    assert_eq!(config.blocklists.len(), 1);
    assert_eq!(
        config.blocklists.get("default").map(|s| s.as_str()),
        Some("https://cdn.jsdelivr.net/gh/hagezi/dns-blocklists@latest/wildcard/pro-onlydomains.txt")
    );
}

#[test]
fn default_helpers_match_sections() {
    assert_eq!(default_cache_capacity(), 10000);
    assert_eq!(default_log_format(), "text");
    assert_eq!(default_query_log_sinks(), vec!["console"]);
    assert_eq!(default_sqlite_retention_hours(), 168);
    assert_eq!(default_upstream_servers(), vec!["h3://dns.google/dns-query"]);
    assert_eq!(default_bootstrap_dns(), vec!["8.8.8.8:53"]);
    let lists = default_blocklists();
    assert_eq!(lists.len(), 1);
    assert!(lists.contains_key("default"));
}

#[test]
fn sorted_blocklists_do_not_depend_on_insertion_order() {
    let pairs = [("ads", "u1"), ("trackers", "u2"), ("malware", "u3"), ("Social", "u4")];
    let mut forward = Config::default();
    forward.blocklists.clear();
    for (n, u) in pairs.iter() {
        forward.blocklists.insert(n.to_string(), u.to_string());
    }
    let mut backward = Config::default();
    backward.blocklists.clear();
    for (n, u) in pairs.iter().rev() {
        backward.blocklists.insert(n.to_string(), u.to_string());
    }
    assert_eq!(forward.get_blocklists_sorted(), backward.get_blocklists_sorted());
    let names: Vec<String> = forward.get_blocklists_sorted().into_iter().map(|p| p.0).collect();
    assert_eq!(names, vec!["Social", "ads", "malware", "trackers"]);
}
