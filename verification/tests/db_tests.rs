use ad_nope::api::{PersistentStatsSource, SqliteDataSource};
use ad_nope::config::LoggingConfig;
use ad_nope::db::{
    action_label, entry_from_fields, entry_from_row, parse_record_type, empty_snapshot, parse_action, prune_due, retention_cutoff, wants_sqlite, DbClient,
    PRUNE_INTERVAL_SECS,
};
use ad_nope::logger::QueryLogAction;
use std::sync::Arc;

#[test]
fn actions_are_stored_by_name_and_read_back() {
    let all = [
        QueryLogAction::Allowed,
        QueryLogAction::Blocked,
        QueryLogAction::Cached,
        QueryLogAction::Forwarded,
        QueryLogAction::Local,
    ];
    for a in all {
        assert_eq!(parse_action(action_label(a)), a);
    }
    assert_eq!(action_label(QueryLogAction::Blocked), "Blocked");
    assert_eq!(action_label(QueryLogAction::Forwarded), "Forwarded");
}

#[test]
fn unknown_stored_action_reads_as_allowed() {
    assert_eq!(parse_action("blocked"), QueryLogAction::Allowed);
    assert_eq!(parse_action(""), QueryLogAction::Allowed);
    assert_eq!(parse_action("Cached "), QueryLogAction::Allowed);
}

#[test]
fn retention_cutoff_is_hours_before_now() {
    assert_eq!(retention_cutoff(1_700_000_000, 24), 1_700_000_000 - 86_400);
    assert_eq!(retention_cutoff(1_700_000_000, 0), 1_700_000_000);
    assert_eq!(retention_cutoff(100, 1), 100 - 3_600);
}

#[test]
fn sqlite_is_wanted_only_when_listed() {
    let mut config = LoggingConfig::default();
    assert!(!wants_sqlite(&config));
    config.query_log_sinks = vec!["console".to_string(), "sqlite".to_string()];
    assert!(wants_sqlite(&config));
    config.query_log_sinks = vec!["SQLite".to_string()];
    assert!(!wants_sqlite(&config));
}

#[test]
fn empty_snapshot_is_all_zero() {
    let s = empty_snapshot();
    assert_eq!(s.total_queries, 0);
    assert_eq!(s.blocked_queries, 0);
    assert_eq!(s.cache_hits, 0);
    assert!(s.top_clients.is_empty());
    assert!(s.top_blocked_clients.is_empty());
    assert!(s.top_domains.is_empty());
    assert!(s.top_blocked_domains.is_empty());
    assert_eq!(s.started_at, 0);
    assert_eq!(s.updated_at, 0);
}

#[test]
fn data_sources_share_the_client() {
    let client = Arc::new(DbClient::new("test.db".to_string()));
    assert_eq!(client.db_path(), "test.db");
    let p = PersistentStatsSource::new(client.clone());
    assert_eq!(p.db().db_path(), "test.db");
    let s = SqliteDataSource::new(client);
    assert_eq!(s.db().db_path(), "test.db");
}

#[test]
fn prune_runs_after_more_than_an_hour() {
    assert_eq!(PRUNE_INTERVAL_SECS, 3600);
    assert!(!prune_due(0));
    assert!(!prune_due(3_600_000_000_000));
    assert!(prune_due(3_600_000_000_001));
}

#[test]
fn stored_rows_read_back_as_entries() {
    let e = entry_from_row(
        Some("10.1.2.3".to_string()),
        "ads.example".to_string(),
        "AAAA",
        "Blocked",
        None,
        17,
        Some(30),
    );
    assert_eq!(e.client_ip, "10.1.2.3");
    assert_eq!(e.domain, "ads.example");
    assert_eq!(e.query_type, "AAAA");
    assert_eq!(e.action, QueryLogAction::Blocked);
    assert_eq!(e.source_id, None);
    assert_eq!(e.upstream, None);
    assert_eq!(e.latency_ms, 17);
    assert_eq!(e.ttl_remaining, Some(30));

    let e = entry_from_row(None, "x.com".to_string(), "BOGUS", "weird", Some("udp://1.1.1.1".to_string()), -1, Some(-2));
    assert_eq!(e.client_ip, "0.0.0.0");
    assert_eq!(e.query_type, "A");
    assert_eq!(e.action, QueryLogAction::Allowed);
    assert_eq!(e.upstream.as_deref(), Some("udp://1.1.1.1"));
    assert_eq!(e.latency_ms, u64::MAX);
    assert_eq!(e.ttl_remaining, Some(u64::MAX - 1));
}

#[test]
fn record_types_are_read_as_hickory_names_them() {
    assert_eq!(parse_record_type("MX"), Some("MX".to_string()));
    assert_eq!(parse_record_type("*"), Some("ANY".to_string()));
    assert_eq!(parse_record_type("mx"), None);
    assert_eq!(parse_record_type("Unknown"), None);
    assert_eq!(parse_record_type(""), None);
    let e = entry_from_fields(None, "d".to_string(), None, "Local", None, 0, None);
    assert_eq!(e.query_type, "A");
    assert_eq!(e.action, QueryLogAction::Local);
}
