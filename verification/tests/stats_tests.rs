use ad_nope::stats::{name_or_unknown, CountTable, StatsCollector};

fn names(items: &[ad_nope::stats::TopItem]) -> Vec<(String, u64)> {
    items.iter().map(|t| (t.name.clone(), t.count)).collect()
}

#[test]
fn count_table_counts_from_zero() {
    let mut t = CountTable::new();
    assert_eq!(t.count("a.com"), 0);
    t.increment("a.com");
    t.increment("a.com");
    t.increment("b.com");
    assert_eq!(t.count("a.com"), 2);
    assert_eq!(t.count("b.com"), 1);
    assert_eq!(t.count("c.com"), 0);
}

#[test]
fn top_k_orders_by_count_and_truncates() {
    let mut t = CountTable::new();
    for (name, n) in [("a", 1), ("b", 5), ("c", 3), ("d", 4), ("e", 2), ("f", 6)] {
        for _ in 0..n {
            t.increment(name);
        }
    }
    let top = t.top_k(5);
    assert_eq!(
        names(&top),
        vec![
            ("f".to_string(), 6),
            ("b".to_string(), 5),
            ("d".to_string(), 4),
            ("c".to_string(), 3),
            ("e".to_string(), 2)
        ]
    );
    assert_eq!(t.top_k(0).len(), 0);
    assert_eq!(t.top_k(100).len(), 6);
}

#[test]
fn top_k_of_empty_table_is_empty() {
    let t = CountTable::new();
    assert!(t.top_k(5).is_empty());
}

#[test]
fn collector_counts_queries_blocks_and_hits() {
    let mut s = StatsCollector::new(
        60,
        vec!["udp://1.1.1.1".to_string()],
        vec!["ads".to_string(), "trackers".to_string()],
    );
    s.inc_queries();
    s.inc_queries();
    s.inc_queries();
    s.inc_cache_hit();
    s.inc_blocked_by_source(1);
    s.inc_blocked_by_source(1);
    s.inc_blocked();
    assert_eq!(s.total_queries(), 3);
    assert_eq!(s.cache_hits(), 1);
    assert_eq!(s.blocked_queries(), 3);
    assert_eq!(s.source_block_count(1), 2);
    assert_eq!(s.source_block_count(0), 0);
    assert_eq!(s.log_interval_secs(), 60);
    assert_eq!(s.blocklist_label(1), "trackers");
    assert_eq!(s.blocklist_label(2), "Unknown");
    assert_eq!(s.upstream_label(0), "udp://1.1.1.1");
    assert_eq!(s.upstream_label(3), "Unknown");
}

#[test]
fn collector_records_latency_of_the_first_sixteen_upstreams() {
    let mut s = StatsCollector::new(60, vec![], vec![]);
    s.record_upstream_latency(0, 10);
    s.record_upstream_latency(0, 30);
    s.record_upstream_latency(15, 7);
    s.record_upstream_latency(16, 99);
    assert_eq!(s.upstream_latency(0), (40, 2));
    assert_eq!(s.upstream_latency(15), (7, 1));
    assert_eq!(s.upstream_latency(3), (0, 0));
}

#[test]
fn snapshot_reports_counters_and_top_lists() {
    let mut s = StatsCollector::new(60, vec![], vec![]);
    s.inc_queries();
    s.inc_queries();
    s.inc_client_query("10.0.0.1");
    s.inc_client_query("10.0.0.1");
    s.inc_client_query("10.0.0.2");
    s.inc_domain_query("a.com");
    s.inc_domain_block("ads.com");
    s.inc_client_block("10.0.0.2");
    s.inc_blocked_by_source(0);

    let snap = s.snapshot_at(1_000_000, 250);
    assert_eq!(snap.total_queries, 2);
    assert_eq!(snap.blocked_queries, 1);
    assert_eq!(snap.cache_hits, 0);
    assert_eq!(
        names(&snap.top_clients),
        vec![("10.0.0.1".to_string(), 2), ("10.0.0.2".to_string(), 1)]
    );
    assert_eq!(names(&snap.top_blocked_clients), vec![("10.0.0.2".to_string(), 1)]);
    assert_eq!(names(&snap.top_domains), vec![("a.com".to_string(), 1)]);
    assert_eq!(names(&snap.top_blocked_domains), vec![("ads.com".to_string(), 1)]);
    assert_eq!(snap.started_at, 1_000_000 - 250);
    assert_eq!(snap.updated_at, 1_000_000);

    let live = s.get_snapshot();
    assert_eq!(live.total_queries, 2);
    assert!(live.started_at <= live.updated_at);
}

#[test]
fn name_or_unknown_past_the_end() {
    let list = vec!["x".to_string()];
    assert_eq!(name_or_unknown(&list, 0), "x");
    assert_eq!(name_or_unknown(&list, 1), "Unknown");
}

#[test]
fn dump_rows_list_only_active_slots() {
    let mut s = StatsCollector::new(
        60,
        vec!["udp://1.1.1.1".to_string(), "tls://9.9.9.9".to_string()],
        vec!["ads".to_string()],
    );
    assert!(s.latency_report().is_empty());
    assert!(s.block_report().is_empty());
    s.record_upstream_latency(1, 20);
    s.record_upstream_latency(1, 40);
    s.record_upstream_latency(4, 5);
    assert_eq!(
        s.latency_report(),
        vec![
            ("tls://9.9.9.9".to_string(), 60, 2),
            ("Unknown".to_string(), 5, 1)
        ]
    );
    s.inc_blocked_by_source(0);
    s.inc_blocked_by_source(200);
    s.inc_blocked_by_source(0);
    assert_eq!(
        s.block_report(),
        vec![("ads".to_string(), 2), ("Unknown".to_string(), 1)]
    );
}

#[test]
fn counter_updates_leave_everything_else_alone() {
    let mut s = StatsCollector::new(60, vec![], vec![]);
    s.inc_client_query("10.0.0.1");
    s.inc_domain_block("ads.com");
    s.record_upstream_latency(2, 9);
    s.inc_blocked_by_source(4);
    assert_eq!(s.client_query_table().count("10.0.0.1"), 1);
    assert_eq!(s.domain_block_table().count("ads.com"), 1);
    assert_eq!(s.upstream_latency(2), (9, 1));
    s.record_upstream_latency(2, 1);
    assert_eq!(s.blocked_queries(), 1);
    assert_eq!(s.cache_hits(), 0);
    assert_eq!(s.total_queries(), 0);
    assert_eq!(s.source_block_count(4), 1);
    assert_eq!(s.client_query_table().count("10.0.0.1"), 1);
    assert_eq!(s.upstream_latency(2), (10, 2));
}
