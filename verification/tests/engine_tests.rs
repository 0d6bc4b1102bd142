use ad_nope::engine::manager::{
    build_domain_table, build_matcher, parse_blocklist_content, parse_line, source_id_for_index,
};
use ad_nope::engine::{AppState, BlocklistMatcher, HashedMatcher};
use rustc_hash::FxHashMap;
use std::time::Duration;

#[test]
fn test_parse_blocklist_simple_format() {
    let content = "
        # Check comments
        example.com
        adserver.net
        # Empty line

        justadomain.com
        ";

    let entries = parse_blocklist_content(content, 1);
    assert_eq!(entries.len(), 3);
    assert_eq!(entries[0], ("example.com".to_string(), 1));
    assert_eq!(entries[1], ("adserver.net".to_string(), 1));
    assert_eq!(entries[2], ("justadomain.com".to_string(), 1));
}

#[test]
fn test_matcher_logic() {
    let mut map = FxHashMap::default();
    map.insert("example.com".to_string().into_boxed_str(), 1);
    map.insert("sub.ad.com".to_string().into_boxed_str(), 2);

    let allowlist = vec!["allowed.example.com".to_string()];

    let matcher = HashedMatcher::new(map, allowlist);

    // Exact match
    assert_eq!(matcher.check("example.com"), Some(1));

    // Suffix match (subdomain of blocked)
    assert_eq!(matcher.check("sub.example.com"), Some(1));
    assert_eq!(matcher.check("a.b.example.com"), Some(1));

    // Allowlist override
    assert_eq!(matcher.check("allowed.example.com"), None);

    // Exact match 2
    assert_eq!(matcher.check("sub.ad.com"), Some(2));
    assert_eq!(matcher.check("deep.sub.ad.com"), Some(2));

    // Unblocked
    assert_eq!(matcher.check("google.com"), None);
}

#[test]
fn parse_line_trims_lowercases_and_skips_comments() {
    assert_eq!(parse_line("  Ads.Example.COM \t"), Some("ads.example.com".to_string()));
    assert_eq!(parse_line("# comment"), None);
    assert_eq!(parse_line("   #indented comment"), None);
    assert_eq!(parse_line(""), None);
    assert_eq!(parse_line(" \t "), None);
    assert_eq!(parse_line("tracker.net # trailing"), Some("tracker.net # trailing".to_string()));
}

#[test]
fn parse_blocklist_handles_crlf_and_missing_final_newline() {
    let entries = parse_blocklist_content("One.com\r\n#x\r\n\r\ntwo.org", 7);
    assert_eq!(
        entries,
        vec![("one.com".to_string(), 7), ("two.org".to_string(), 7)]
    );
    assert!(parse_blocklist_content("", 3).is_empty());
    assert!(parse_blocklist_content("\n\n# only comments\n", 3).is_empty());
}

#[test]
fn source_ids_saturate_at_255() {
    assert_eq!(source_id_for_index(0), 0);
    assert_eq!(source_id_for_index(42), 42);
    assert_eq!(source_id_for_index(255), 255);
    assert_eq!(source_id_for_index(256), 255);
    assert_eq!(source_id_for_index(100_000), 255);
}

#[test]
fn later_list_wins_for_a_shared_domain() {
    let lists = vec![
        vec![("shared.com".to_string(), 0), ("only-a.com".to_string(), 0)],
        vec![("shared.com".to_string(), 1)],
    ];
    let table = build_domain_table(lists.clone());
    assert_eq!(table.len(), 2);
    assert_eq!(table.get("shared.com"), Some(&1));
    assert_eq!(table.get("only-a.com"), Some(&0));

    let matcher = build_matcher(lists, vec![]);
    assert_eq!(matcher.check("shared.com"), Some(1));
    assert_eq!(matcher.check("x.only-a.com"), Some(0));
}

#[test]
fn listed_subdomain_reports_its_own_list() {
    let lists = vec![
        vec![("example.com".to_string(), 0)],
        vec![("ads.example.com".to_string(), 1)],
    ];
    let matcher = build_matcher(lists, vec![]);
    assert_eq!(matcher.check("ads.example.com"), Some(1));
    assert_eq!(matcher.check("x.ads.example.com"), Some(1));
    assert_eq!(matcher.check("www.example.com"), Some(0));
}

#[test]
fn allowlist_is_exact_and_does_not_cover_subdomains() {
    let lists = vec![vec![("example.com".to_string(), 3)]];
    let matcher = build_matcher(lists, vec!["example.com".to_string()]);
    assert_eq!(matcher.check("example.com"), None);
    assert_eq!(matcher.check("www.example.com"), Some(3));
}

#[test]
fn matching_follows_label_boundaries_only() {
    let lists = vec![vec![("ample.com".to_string(), 4)]];
    let matcher = build_matcher(lists, vec![]);
    assert_eq!(matcher.check("example.com"), None);
    assert_eq!(matcher.check("x.ample.com"), Some(4));
    assert_eq!(matcher.check("com"), None);
    assert_eq!(matcher.check(""), None);
    // A trailing dot leaves an empty last label, which is never looked up.
    assert_eq!(matcher.check("ample.com."), None);
}

#[test]
fn leading_dot_name_checks_the_rest() {
    let lists = vec![vec![("example.com".to_string(), 9)]];
    let matcher = build_matcher(lists, vec![]);
    assert_eq!(matcher.check(".example.com"), Some(9));
}

#[test]
fn app_state_starts_active_and_pauses() {
    let mut state = AppState::new();
    assert!(state.is_blocking_active());
    assert_eq!(state.get_pause_remaining_secs(), None);

    state.pause_blocking(Duration::from_secs(600));
    assert!(!state.is_blocking_active());
    let left = state.get_pause_remaining_secs().expect("pause is running");
    assert!(left <= 600 && left >= 590);

    state.resume_blocking();
    assert!(state.is_blocking_active());
    assert_eq!(state.get_pause_remaining_secs(), None);
}

#[test]
fn pause_at_fixed_clock_times() {
    let mut state = AppState::default();
    state.pause_blocking_at(1_000, 5_000_000_000);
    assert!(!state.is_blocking_active_at(1_000));
    assert!(!state.is_blocking_active_at(5_000_000_999));
    assert!(state.is_blocking_active_at(5_000_001_000));
    assert_eq!(state.get_pause_remaining_secs_at(1_000), Some(5));
    assert_eq!(state.get_pause_remaining_secs_at(1_001), Some(4));
    assert_eq!(state.get_pause_remaining_secs_at(5_000_001_000), None);
}

#[test]
fn zero_length_pause_leaves_blocking_active() {
    let mut state = AppState::new();
    state.pause_blocking(Duration::from_secs(0));
    assert!(state.is_blocking_active());
    assert_eq!(state.get_pause_remaining_secs(), None);
}

#[test]
fn remaining_seconds_exist_exactly_while_paused() {
    let mut state = AppState::new();
    state.pause_blocking_at(0, 3_000_000_000);
    for t in [0u128, 1, 2_999_999_999, 3_000_000_000, 7_000_000_000] {
        assert_eq!(
            state.get_pause_remaining_secs_at(t).is_some(),
            !state.is_blocking_active_at(t)
        );
    }
    state.pause_blocking_at(0, 1_000_000_000);
    assert_eq!(state.get_pause_remaining_secs_at(0), Some(1));
}

#[test]
fn domain_named_by_one_list_keeps_that_lists_id() {
    let lists = vec![
        vec![("a.com".to_string(), 0), ("shared.com".to_string(), 0)],
        vec![("b.com".to_string(), 1)],
        vec![("shared.com".to_string(), 2), ("c.com".to_string(), 2)],
    ];
    let table = build_domain_table(lists);
    assert_eq!(table.get("a.com"), Some(&0));
    assert_eq!(table.get("b.com"), Some(&1));
    assert_eq!(table.get("c.com"), Some(&2));
    assert_eq!(parse_line("example.com"), Some("example.com".to_string()));
}
