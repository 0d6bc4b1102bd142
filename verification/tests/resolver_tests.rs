use ad_nope::resolver::{
    default_port, next_turn, plan_upstream, protocol_for_scheme, resolver_urls,
    round_robin_order, select_resolver, Protocol, ResolverKind, DEFAULT_UPSTREAM,
};

#[test]
fn schemes_name_transports() {
    assert_eq!(protocol_for_scheme("udp"), Protocol::Udp);
    assert_eq!(protocol_for_scheme("tcp"), Protocol::Tcp);
    assert_eq!(protocol_for_scheme("tls"), Protocol::Tls);
    assert_eq!(protocol_for_scheme("https"), Protocol::Https);
    assert_eq!(protocol_for_scheme("quic"), Protocol::Quic);
    assert_eq!(protocol_for_scheme("h3"), Protocol::H3);
    assert_eq!(protocol_for_scheme("gopher"), Protocol::Udp);
    assert_eq!(default_port(Protocol::Udp), 53);
    assert_eq!(default_port(Protocol::Tcp), 53);
    assert_eq!(default_port(Protocol::Tls), 853);
    assert_eq!(default_port(Protocol::Quic), 853);
    assert_eq!(default_port(Protocol::Https), 443);
    assert_eq!(default_port(Protocol::H3), 443);
}

#[test]
fn upstream_urls_become_targets() {
    let t = plan_upstream("h3://dns.google/dns-query").expect("valid URL");
    assert_eq!(t.protocol, Protocol::H3);
    assert_eq!(t.host, "dns.google");
    assert_eq!(t.port, 443);
    assert_eq!(t.tls_name.as_deref(), Some("dns.google"));

    let t = plan_upstream("udp://1.1.1.1").expect("valid URL");
    assert_eq!(t.protocol, Protocol::Udp);
    assert_eq!(t.host, "1.1.1.1");
    assert_eq!(t.port, 53);
    assert_eq!(t.tls_name, None);

    let t = plan_upstream("tls://9.9.9.9:8853").expect("valid URL");
    assert_eq!(t.protocol, Protocol::Tls);
    assert_eq!(t.port, 8853);
    assert_eq!(t.tls_name.as_deref(), Some("9.9.9.9"));
}

#[test]
fn text_that_is_not_a_url_is_an_error() {
    assert!(plan_upstream("8.8.8.8:53").is_err());
    assert!(plan_upstream("").is_err());
}

#[test]
fn default_upstream_when_none_configured() {
    let (urls, is_default) = resolver_urls(&vec![]);
    assert!(is_default);
    assert_eq!(urls, vec![DEFAULT_UPSTREAM.to_string()]);
    assert_eq!(DEFAULT_UPSTREAM, "h3://dns.google/dns-query");

    let configured = vec!["udp://1.1.1.1".to_string(), "tcp://8.8.8.8".to_string()];
    let (urls, is_default) = resolver_urls(&configured);
    assert!(!is_default);
    assert_eq!(urls, configured);
}

#[test]
fn strategy_by_policy_and_count() {
    assert_eq!(select_resolver(0, "parallel"), None);
    assert_eq!(select_resolver(1, "round-robin"), Some((ResolverKind::Single, true)));
    assert_eq!(select_resolver(1, "weird"), Some((ResolverKind::Single, false)));
    assert_eq!(select_resolver(2, "sequential"), Some((ResolverKind::Sequential, true)));
    assert_eq!(select_resolver(3, "round-robin"), Some((ResolverKind::RoundRobin, true)));
    assert_eq!(select_resolver(3, "parallel"), Some((ResolverKind::Parallel, true)));
    assert_eq!(select_resolver(3, "random"), Some((ResolverKind::Parallel, false)));
}

#[test]
fn round_robin_visits_every_upstream_once() {
    assert_eq!(round_robin_order(0, 3), vec![0, 1, 2]);
    assert_eq!(round_robin_order(5, 3), vec![2, 0, 1]);
    assert_eq!(round_robin_order(usize::MAX, 4), vec![3, 0, 1, 2]);
    assert_eq!(round_robin_order(7, 1), vec![0]);
    assert_eq!(next_turn(4), 5);
    assert_eq!(next_turn(usize::MAX), 0);
}
