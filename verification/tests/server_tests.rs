use ad_nope::config::LocalAddr;
use ad_nope::logger::QueryLogAction;
use ad_nope::server::{
    blocked_answer, cache_deadlines, local_record_for, local_record_kind, cache_ttl, classify_cached, log_context,
    normalize_query_name, route, route_blocklist, route_cache, route_local, serves_local,
    BlockedAnswer, CacheState, QueryKind, Route, BLOCKED_TTL, LOCAL_UPSTREAM,
};

#[test]
fn query_names_are_normalized() {
    assert_eq!(normalize_query_name("WWW.Example.COM."), "www.example.com");
    assert_eq!(normalize_query_name("example.com"), "example.com");
    assert_eq!(normalize_query_name("."), "");
    assert_eq!(normalize_query_name("a.."), "a.");
    assert_eq!(normalize_query_name("ÄB.com"), "Äb.com");
}

#[test]
fn blocked_queries_get_unspecified_addresses_or_nxdomain() {
    assert_eq!(blocked_answer(QueryKind::A), BlockedAnswer::UnspecifiedV4);
    assert_eq!(blocked_answer(QueryKind::Aaaa), BlockedAnswer::UnspecifiedV6);
    assert_eq!(blocked_answer(QueryKind::Other), BlockedAnswer::NxDomain);
    assert_eq!(BLOCKED_TTL, 60);
}

#[test]
fn local_records_answer_their_own_type_only() {
    assert!(serves_local(true, LocalAddr::V4(0x0a000001), QueryKind::A));
    assert!(!serves_local(true, LocalAddr::V4(0x0a000001), QueryKind::Aaaa));
    assert!(serves_local(true, LocalAddr::V6(1), QueryKind::Aaaa));
    assert!(!serves_local(true, LocalAddr::V6(1), QueryKind::Other));
    assert!(!serves_local(false, LocalAddr::V4(1), QueryKind::A));
}

#[test]
fn cache_ttl_is_the_smallest_ttl_raised_to_the_minimum() {
    assert_eq!(cache_ttl(&vec![300, 60, 120], 30), Some(60));
    assert_eq!(cache_ttl(&vec![300, 60, 120], 100), Some(100));
    assert_eq!(cache_ttl(&vec![10], 0), Some(10));
    assert_eq!(cache_ttl(&vec![], 300), None);
}

#[test]
fn cache_timeline_fresh_stale_missing() {
    let (valid, stale) = cache_deadlines(1_000, 60, 10);
    assert_eq!(valid, 1_000 + 60_000_000_000);
    assert_eq!(stale, valid + 10_000_000_000);
    assert_eq!(classify_cached(1_000, valid, stale), CacheState::Fresh { ttl_remaining: 60 });
    assert_eq!(
        classify_cached(1_000 + 59_500_000_000, valid, stale),
        CacheState::Fresh { ttl_remaining: 0 }
    );
    assert_eq!(classify_cached(valid, valid, stale), CacheState::Stale { ttl_remaining: 0 });
    assert_eq!(classify_cached(stale - 1, valid, stale), CacheState::Stale { ttl_remaining: 0 });
    assert_eq!(classify_cached(stale, valid, stale), CacheState::Missing);
}

#[test]
fn routing_order_local_blocklist_cache_upstream() {
    let fresh = CacheState::Fresh { ttl_remaining: 5 };
    assert_eq!(route(true, true, Some(2), fresh), Route::ServeLocal);
    assert_eq!(route(false, true, Some(2), fresh), Route::ServeBlocked(2));
    assert_eq!(
        route(false, false, Some(2), fresh),
        Route::ServeCached { stale: false, ttl_remaining: 5 }
    );
    assert_eq!(
        route(false, true, None, CacheState::Stale { ttl_remaining: 0 }),
        Route::ServeCached { stale: true, ttl_remaining: 0 }
    );
    assert_eq!(route(false, true, None, CacheState::Missing), Route::Resolve);
    assert_eq!(route_local(false), None);
    assert_eq!(route_blocklist(false, Some(1)), None);
    assert_eq!(route_blocklist(true, Some(1)), Some(Route::ServeBlocked(1)));
    assert_eq!(route_cache(CacheState::Missing), Route::Resolve);
}

#[test]
fn log_context_of_each_route() {
    let local = log_context(Route::ServeLocal, None);
    assert_eq!(local.action, QueryLogAction::Local);
    assert_eq!(local.upstream.as_deref(), Some(LOCAL_UPSTREAM));
    assert_eq!(LOCAL_UPSTREAM, "local-config");

    let blocked = log_context(Route::ServeBlocked(4), None);
    assert_eq!(blocked.action, QueryLogAction::Blocked);
    assert_eq!(blocked.source_id, Some(4));
    assert_eq!(blocked.upstream, None);

    let cached = log_context(Route::ServeCached { stale: true, ttl_remaining: 9 }, None);
    assert_eq!(cached.action, QueryLogAction::Cached);
    assert_eq!(cached.ttl_remaining, Some(9));

    let fwd = log_context(Route::Resolve, Some("tls://9.9.9.9".to_string()));
    assert_eq!(fwd.action, QueryLogAction::Forwarded);
    assert_eq!(fwd.upstream.as_deref(), Some("tls://9.9.9.9"));
    assert_eq!(fwd.source_id, None);
}

#[test]
fn local_records_need_a_valid_name() {
    assert_eq!(local_record_for("nas.lan", LocalAddr::V4(1)), Some(QueryKind::A));
    assert_eq!(local_record_for("printer.lan", LocalAddr::V6(1)), Some(QueryKind::Aaaa));
    assert_eq!(local_record_for("bad name.lan", LocalAddr::V4(1)), None);
    assert_eq!(local_record_kind(false, LocalAddr::V4(1)), None);
}
