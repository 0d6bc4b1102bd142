use ad_nope::config::LoggingConfig;
use ad_nope::init::{log_filter, memory_log_sink, MEMORY_LOG_CAPACITY};
use ad_nope::logger::console_sink::{process_log, source_name, ConsoleRecord};
use ad_nope::logger::sinks::{plan_sinks, SinkPlan};
use ad_nope::logger::{ConsoleLogSink, LogAction, LogEntry, MemoryLogSink, QueryLogAction, QueryLogEntry};

fn entry(domain: &str, action: QueryLogAction) -> QueryLogEntry {
    QueryLogEntry {
        client_ip: "192.168.1.100".to_string(),
        domain: domain.to_string(),
        query_type: "A".to_string(),
        action,
        source_id: None,
        upstream: None,
        latency_ms: 12,
        ttl_remaining: None,
    }
}

fn text_of(record: ConsoleRecord) -> String {
    match record {
        ConsoleRecord::Text(line) => line,
        ConsoleRecord::Json { .. } => panic!("expected a text line, got a JSON record"),
        ConsoleRecord::Skip => panic!("expected a text line, got nothing"),
    }
}

#[test]
fn test_log_entry_fields() {
    let entry = QueryLogEntry {
        client_ip: "127.0.0.1".to_string(),
        domain: "example.com".into(),
        query_type: "A".to_string(),
        action: QueryLogAction::Local,
        source_id: None,
        upstream: None,
        latency_ms: 10,
        ttl_remaining: None,
    };
    assert_eq!(entry.client_ip.to_string(), "127.0.0.1");
    assert_eq!(entry.action, QueryLogAction::Local);
}

#[test]
fn cloned_entry_keeps_every_field() {
    let mut e = entry("a.com", QueryLogAction::Forwarded);
    e.upstream = Some("udp://1.1.1.1".to_string());
    e.source_id = Some(3);
    e.ttl_remaining = Some(5);
    let c = e.clone();
    assert_eq!(c.client_ip, e.client_ip);
    assert_eq!(c.domain, e.domain);
    assert_eq!(c.query_type, e.query_type);
    assert_eq!(c.action, e.action);
    assert_eq!(c.source_id, e.source_id);
    assert_eq!(c.upstream, e.upstream);
    assert_eq!(c.latency_ms, e.latency_ms);
    assert_eq!(c.ttl_remaining, e.ttl_remaining);
}

#[test]
fn memory_sink_keeps_the_latest_entries() {
    let mut sink = MemoryLogSink::new(2);
    sink.log(&entry("one.com", QueryLogAction::Allowed));
    sink.log(&entry("two.com", QueryLogAction::Allowed));
    sink.log(&entry("three.com", QueryLogAction::Blocked));
    let recent: Vec<String> = sink.get_recent().into_iter().map(|e| e.domain).collect();
    assert_eq!(recent, vec!["two.com", "three.com"]);
    let newest: Vec<String> = sink.newest_first(10).into_iter().map(|e| e.domain).collect();
    assert_eq!(newest, vec!["three.com", "two.com"]);
    let one: Vec<String> = sink.newest_first(1).into_iter().map(|e| e.domain).collect();
    assert_eq!(one, vec!["three.com"]);
    assert!(sink.newest_first(0).is_empty());
}

#[test]
fn memory_sink_of_capacity_zero_keeps_the_last_entry() {
    let mut sink = MemoryLogSink::new(0);
    sink.log(&entry("one.com", QueryLogAction::Allowed));
    sink.log(&entry("two.com", QueryLogAction::Allowed));
    let recent: Vec<String> = sink.get_recent().into_iter().map(|e| e.domain).collect();
    assert_eq!(recent, vec!["two.com"]);
}

#[test]
fn memory_sink_for_the_api_keeps_a_hundred() {
    assert_eq!(MEMORY_LOG_CAPACITY, 100);
    let mut sink = memory_log_sink();
    for i in 0..150 {
        sink.log(&entry(&format!("d{}.com", i), QueryLogAction::Allowed));
    }
    let recent = sink.get_recent();
    assert_eq!(recent.len(), 100);
    assert_eq!(recent[0].domain, "d50.com");
    assert_eq!(recent[99].domain, "d149.com");
}

#[test]
fn console_text_lines() {
    let sink = ConsoleLogSink::new(LoggingConfig::default(), vec!["ads".to_string(), "trackers".to_string()]);

    let mut blocked = entry("ad.example.com", QueryLogAction::Blocked);
    blocked.source_id = Some(1);
    assert_eq!(
        text_of(sink.render(&blocked)),
        "[A] 192.168.1.100 ad.example.com (A) -> blocked and blocklist trackers blocked it [12ms]"
    );

    blocked.source_id = Some(7);
    assert_eq!(
        text_of(sink.render(&blocked)),
        "[A] 192.168.1.100 ad.example.com (A) -> blocked and blocklist Unknown blocked it [12ms]"
    );

    let mut cached = entry("c.com", QueryLogAction::Cached);
    cached.ttl_remaining = Some(42);
    cached.latency_ms = 0;
    assert_eq!(
        text_of(sink.render(&cached)),
        "[A] 192.168.1.100 c.com (A) -> fetched from cache. TTL remaining: 42s [0ms]"
    );
    cached.ttl_remaining = None;
    assert_eq!(
        text_of(sink.render(&cached)),
        "[A] 192.168.1.100 c.com (A) -> fetched from cache [0ms]"
    );

    let mut fwd = entry("f.com", QueryLogAction::Forwarded);
    fwd.upstream = Some("h3://dns.google/dns-query".to_string());
    fwd.latency_ms = 1234;
    assert_eq!(
        text_of(sink.render(&fwd)),
        "[A] 192.168.1.100 f.com (A) -> fetched from upstream h3://dns.google/dns-query [1234ms]"
    );
    fwd.upstream = None;
    assert_eq!(
        text_of(sink.render(&fwd)),
        "[A] 192.168.1.100 f.com (A) -> fetched from upstream [1234ms]"
    );

    let local = entry("nas.lan", QueryLogAction::Local);
    assert_eq!(
        text_of(sink.render(&local)),
        "[A] 192.168.1.100 nas.lan (A) -> fetched from local_records [12ms]"
    );

    let allowed = entry("ok.com", QueryLogAction::Allowed);
    assert_eq!(
        text_of(sink.render(&allowed)),
        "[A] 192.168.1.100 ok.com (A) -> Allowed [12ms]"
    );
}

#[test]
fn console_skips_what_the_config_turns_off() {
    let mut config = LoggingConfig::default();
    config.enable = false;
    let sink = ConsoleLogSink::new(config, vec![]);
    assert!(matches!(sink.render(&entry("x.com", QueryLogAction::Blocked)), ConsoleRecord::Skip));

    let mut config = LoggingConfig::default();
    config.log_blocked = false;
    let sink = ConsoleLogSink::new(config, vec![]);
    assert!(matches!(sink.render(&entry("x.com", QueryLogAction::Blocked)), ConsoleRecord::Skip));
    assert!(matches!(sink.render(&entry("x.com", QueryLogAction::Forwarded)), ConsoleRecord::Text(_)));

    let mut config = LoggingConfig::default();
    config.log_all_queries = false;
    let sink = ConsoleLogSink::new(config, vec![]);
    assert!(matches!(sink.render(&entry("x.com", QueryLogAction::Cached)), ConsoleRecord::Skip));
    assert!(matches!(sink.render(&entry("x.com", QueryLogAction::Blocked)), ConsoleRecord::Text(_)));
}

#[test]
fn console_json_names_the_blocking_list() {
    let mut config = LoggingConfig::default();
    config.format = "json".to_string();
    let sink = ConsoleLogSink::new(config, vec!["ads".to_string()]);
    let mut blocked = entry("x.com", QueryLogAction::Blocked);
    blocked.source_id = Some(0);
    match sink.render(&blocked) {
        ConsoleRecord::Json { src_name } => assert_eq!(src_name, Some("ads".to_string())),
        _ => panic!("expected a JSON record"),
    }
    blocked.source_id = Some(5);
    match sink.render(&blocked) {
        ConsoleRecord::Json { src_name } => assert_eq!(src_name, None),
        _ => panic!("expected a JSON record"),
    }
}

#[test]
fn sink_plan_gives_the_writer_to_the_first_sqlite() {
    let names = vec![
        "console".to_string(),
        "sqlite".to_string(),
        "sqlite".to_string(),
        "syslog".to_string(),
    ];
    assert_eq!(
        plan_sinks(&names, true),
        vec![SinkPlan::Console, SinkPlan::Sqlite, SinkPlan::MissingWriter, SinkPlan::Unknown]
    );
    assert_eq!(
        plan_sinks(&names, false),
        vec![SinkPlan::Console, SinkPlan::MissingWriter, SinkPlan::MissingWriter, SinkPlan::Unknown]
    );
    assert!(plan_sinks(&vec![], true).is_empty());
}

#[test]
fn log_filter_switches_off_hickory_unless_mentioned() {
    assert_eq!(log_filter("info"), "info,hickory_server=off,hickory_proto=off");
    assert_eq!(
        log_filter("debug,hickory_server=info"),
        "debug,hickory_server=info,hickory_proto=off"
    );
    assert_eq!(
        log_filter("warn,hickory_proto=trace,hickory_server=warn"),
        "warn,hickory_proto=trace,hickory_server=warn"
    );
}

fn compact_entry(action: LogAction, source_id: Option<u8>) -> LogEntry {
    LogEntry {
        client_ip: "10.0.0.7".to_string(),
        domain: "ads.example".to_string(),
        query_type: "AAAA".to_string(),
        action,
        source_id,
        latency_ms: 3,
    }
}

#[test]
fn compact_log_text_lines() {
    let config = LoggingConfig::default();
    assert_eq!(
        text_of(process_log(&config, &compact_entry(LogAction::Blocked, Some(3)))),
        "10.0.0.7 ads.example (AAAA) -> BLOCKED[src=Some(3)] [3ms]"
    );
    assert_eq!(
        text_of(process_log(&config, &compact_entry(LogAction::Blocked, None))),
        "10.0.0.7 ads.example (AAAA) -> BLOCKED[src=None] [3ms]"
    );
    assert_eq!(
        text_of(process_log(&config, &compact_entry(LogAction::Allowed, None))),
        "10.0.0.7 ads.example (AAAA) -> ALLOWED [3ms]"
    );
    assert_eq!(
        text_of(process_log(&config, &compact_entry(LogAction::Cached, None))),
        "10.0.0.7 ads.example (AAAA) -> CACHED [3ms]"
    );
    assert_eq!(
        text_of(process_log(&config, &compact_entry(LogAction::Forwarded, None))),
        "10.0.0.7 ads.example (AAAA) -> FORWARDED [3ms]"
    );
}

#[test]
fn compact_log_skips_and_json() {
    let mut config = LoggingConfig::default();
    config.log_all_queries = false;
    assert!(matches!(
        process_log(&config, &compact_entry(LogAction::Forwarded, None)),
        ConsoleRecord::Skip
    ));
    config.format = "json".to_string();
    assert!(matches!(
        process_log(&config, &compact_entry(LogAction::Blocked, Some(1))),
        ConsoleRecord::Json { src_name: None }
    ));
    config.enable = false;
    assert!(matches!(
        process_log(&config, &compact_entry(LogAction::Blocked, Some(1))),
        ConsoleRecord::Skip
    ));
}

#[test]
fn blocklist_names_by_source_id() {
    let names = vec!["ads".to_string(), "malware".to_string()];
    assert_eq!(source_name(&names, Some(1)), Some("malware".to_string()));
    assert_eq!(source_name(&names, Some(2)), None);
    assert_eq!(source_name(&names, None), None);
}

#[test]
fn api_buffer_serves_the_newest_first() {
    let mut sink = memory_log_sink();
    for i in 0..120 {
        sink.log(&entry(&format!("n{}.com", i), QueryLogAction::Allowed));
    }
    let served: Vec<String> = sink.newest_first(3).into_iter().map(|e| e.domain).collect();
    assert_eq!(served, vec!["n119.com", "n118.com", "n117.com"]);
    assert_eq!(sink.newest_first(500).len(), 100);
}
