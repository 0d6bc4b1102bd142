//! Configuration of the server: its settings and their defaults.
use crate::engine::matcher::text_bytes;
use crate::text::{bytes_lt, bytes_lt_strict_total, bytes_lt_transitive, str_lt};
use std::collections::HashMap;
use vstd::prelude::*;
use vstd::string::StringExecFns;
use vstd::utf8::encode_utf8_decode_utf8;

verus! {

/// What a map from names to texts holds: each name's text with its value's text.
pub uninterp spec fn string_table(m: HashMap<String, String>) -> Map<Seq<char>, Seq<char>>;

/// `HashMap::new`: an empty map.
#[verifier::external_body]
fn new_string_table() -> (m: HashMap<String, String>)
    ensures
        string_table(m) =~= Map::empty(),
{
    HashMap::new()
}

/// `HashMap::insert`: the name maps to the value afterwards, other names keep theirs.
#[verifier::external_body]
fn string_table_insert(m: &mut HashMap<String, String>, name: String, value: String)
    ensures
        string_table(*final(m)) == string_table(*old(m)).insert(name@, value@),
{
    m.insert(name, value);
}

/// `HashMap::iter` with each pair cloned: every entry once, in an order that
/// the hasher's random seed decides.
#[verifier::external_body]
fn string_table_entries(m: &HashMap<String, String>) -> (r: Vec<(String, String)>)
    ensures
        forall|i: int|
            0 <= i < r@.len() ==> string_table(*m).contains_key((#[trigger] r@[i]).0@)
                && string_table(*m)[r@[i].0@] == r@[i].1@,
        forall|k: Seq<char>|
            string_table(*m).contains_key(k) ==> exists|i: int|
                0 <= i < r@.len() && (#[trigger] r@[i]).0@ == k,
        forall|i: int, j: int|
            0 <= i < r@.len() && 0 <= j < r@.len() && i != j ==> (#[trigger] r@[i]).0@
                != (#[trigger] r@[j]).0@,
{
    m.iter().map(|(k, v)| (k.clone(), v.clone())).collect()
}

/// An address of a local record: IPv4 as its 32 bits, IPv6 as its 128 bits.
#[derive(Clone, Copy, Debug, PartialEq, Eq, Structural)]
pub enum LocalAddr {
    V4(u32),
    V6(u128),
}

/// Configuration for the in-memory DNS cache.
#[derive(Debug, Clone)]
pub struct CacheConfig {
    /// Whether to enable caching.
    pub enable: bool,
    /// Maximum number of records to cache.
    pub capacity: u64,
    /// Time in seconds to keep stale records while refreshing in background.
    pub grace_period_sec: u64,
    /// Minimum TTL to enforce for cached records.
    pub min_ttl: u32,
}

/// Configuration for blocklist updates.
#[derive(Debug, Clone)]
pub struct UpdateConfig {
    /// How often to check for blocklist updates (in hours).
    pub interval_hours: u64,
    /// Number of concurrent downloads allowed during update.
    pub concurrent_downloads: usize,
}

/// Configuration for query logging.
#[derive(Debug, Clone)]
pub struct LoggingConfig {
    /// Global switch to enable/disable logging.
    pub enable: bool,
    /// Whether to log blocked queries.
    pub log_blocked: bool,
    /// Whether to log all queries (allowed & blocked).
    pub log_all_queries: bool,
    /// Format of the logs (e.g., "text", "json").
    pub format: String,
    /// Target for logs (e.g., "console", "syslog").
    pub target: String,
    /// Log level (e.g., "info", "debug").
    pub level: String,
    /// Optional file path if logging to a file.
    pub file_path: Option<String>,
    /// Optional syslog address if sending to syslog.
    pub syslog_addr: Option<String>,
    /// Sinks for structured query logs (e.g., ["console", "sqlite"]).
    pub query_log_sinks: Vec<String>,
    /// Path to the SQLite database for logs.
    pub sqlite_path: String,
    /// Retention period for SQLite logs in hours.
    pub sqlite_retention_hours: u64,
}

/// Configuration for metrics and statistics.
#[derive(Debug, Clone)]
pub struct StatsConfig {
    /// Whether to collect statistics.
    pub enable: bool,
    /// Interval in seconds for dumping stats to logs.
    pub log_interval_seconds: u64,
}

/// Main configuration holding all settings for the DNS server.
#[derive(Debug, Clone)]
pub struct Config {
    /// The IP address to bind the DNS server to (e.g., "0.0.0.0").
    pub host: String,
    /// The port to listen on (e.g., 53 or 5300).
    pub port: u16,
    /// List of upstream DNS servers (e.g., "8.8.8.8:53" or "h3://dns.google").
    pub upstream_servers: Vec<String>,
    /// Strategy for resolving queries (e.g., "parallel", "round-robin").
    pub resolution_policy: String,
    /// Timeout in milliseconds for upstream queries.
    pub upstream_timeout_ms: u64,
    /// Bootstrap DNS servers used to resolve encrypted upstreams' host names.
    pub bootstrap_dns: Vec<String>,
    /// Map of blocklist names to their URLs.
    pub blocklists: HashMap<String, String>,
    /// List of domains to explicitly allow (bypass blocklists).
    pub allowlist: Vec<String>,
    /// Caching configuration.
    pub cache: CacheConfig,
    /// Blocklist update configuration.
    pub updates: UpdateConfig,
    /// Logging configuration.
    pub logging: LoggingConfig,
    /// Local DNS records (static overrides).
    pub local_records: HashMap<String, LocalAddr>,
    /// Statistics collection configuration.
    pub stats: StatsConfig,
}

pub fn default_min_ttl() -> (r: u32)
    ensures
        r == 300,
{
    300
}

pub fn default_host() -> (r: String)
    ensures
        r@ == "0.0.0.0"@,
{
    String::from_str("0.0.0.0")
}

pub fn default_port() -> (r: u16)
    ensures
        r == 5300,
{
    5300
}

pub fn default_resolution_policy() -> (r: String)
    ensures
        r@ == "parallel"@,
{
    String::from_str("parallel")
}

pub fn default_upstream_timeout_ms() -> (r: u64)
    ensures
        r == 200,
{
    200
}

pub fn default_cache_enable() -> (r: bool)
    ensures
        r,
{
    true
}

pub fn default_cache_capacity() -> (r: u64)
    ensures
        r == 10000,
{
    10000
}

pub fn default_grace_period() -> (r: u64)
    ensures
        r == 10,
{
    10
}

pub fn default_update_interval() -> (r: u64)
    ensures
        r == 24,
{
    24
}

pub fn default_concurrent_downloads() -> (r: usize)
    ensures
        r == 4,
{
    4
}

pub fn default_log_enable() -> (r: bool)
    ensures
        r,
{
    true
}

pub fn default_log_blocked() -> (r: bool)
    ensures
        r,
{
    true
}

pub fn default_log_all_queries() -> (r: bool)
    ensures
        r,
{
    true
}

pub fn default_log_format() -> (r: String)
    ensures
        r@ == "text"@,
{
    String::from_str("text")
}

pub fn default_log_target() -> (r: String)
    ensures
        r@ == "console"@,
{
    String::from_str("console")
}

pub fn default_log_level() -> (r: String)
    ensures
        r@ == "info"@,
{
    String::from_str("info")
}

pub fn default_query_log_sinks() -> (r: Vec<String>)
    ensures
        r@.len() == 1,
        r@[0]@ == "console"@,
{
    vec![String::from_str("console")]
}

pub fn default_sqlite_path() -> (r: String)
    ensures
        r@ == "ad-nope.db"@,
{
    String::from_str("ad-nope.db")
}

pub fn default_sqlite_retention_hours() -> (r: u64)
    ensures
        r == 168,
{
    168  // 7 days

}

pub fn default_stats_enable() -> (r: bool)
    ensures
        r,
{
    true
}

pub fn default_log_interval() -> (r: u64)
    ensures
        r == 300,
{
    300
}

pub fn default_blocklists() -> (r: HashMap<String, String>)
    ensures
        string_table(r) == Map::<Seq<char>, Seq<char>>::empty().insert(
            "default"@,
            "https://cdn.jsdelivr.net/gh/hagezi/dns-blocklists@latest/wildcard/pro-onlydomains.txt"@,
        ),
{
    let mut m = new_string_table();
    string_table_insert(
        &mut m,
        String::from_str("default"),
        String::from_str(
            "https://cdn.jsdelivr.net/gh/hagezi/dns-blocklists@latest/wildcard/pro-onlydomains.txt",
        ),
    );
    m
}

pub fn default_upstream_servers() -> (r: Vec<String>)
    ensures
        r@.len() == 1,
        r@[0]@ == "h3://dns.google/dns-query"@,
{
    vec![String::from_str("h3://dns.google/dns-query")]
}

pub fn default_bootstrap_dns() -> (r: Vec<String>)
    ensures
        r@.len() == 1,
        r@[0]@ == "8.8.8.8:53"@,
{
    vec![String::from_str("8.8.8.8:53")]
}

impl Default for CacheConfig {
    fn default() -> (c: Self)
        ensures
            c.enable,
            c.capacity == 10000,
            c.grace_period_sec == 10,
            c.min_ttl == 300,
    {
        CacheConfig {
            enable: default_cache_enable(),
            capacity: default_cache_capacity(),
            grace_period_sec: default_grace_period(),
            min_ttl: default_min_ttl(),
        }
    }
}

impl Default for UpdateConfig {
    fn default() -> (c: Self)
        ensures
            c.interval_hours == 24,
            c.concurrent_downloads == 4,
    {
        UpdateConfig {
            interval_hours: default_update_interval(),
            concurrent_downloads: default_concurrent_downloads(),
        }
    }
}

impl Default for LoggingConfig {
    fn default() -> (c: Self)
        ensures
            c.enable,
            c.log_blocked,
            c.log_all_queries,
            c.format@ == "text"@,
            c.target@ == "console"@,
            c.level@ == "info"@,
            c.file_path is None,
            c.syslog_addr is None,
            c.query_log_sinks@.len() == 1,
            c.query_log_sinks@[0]@ == "console"@,
            c.sqlite_path@ == "ad-nope.db"@,
            c.sqlite_retention_hours == 168,
    {
        LoggingConfig {
            enable: default_log_enable(),
            log_blocked: default_log_blocked(),
            log_all_queries: default_log_all_queries(),
            format: default_log_format(),
            target: default_log_target(),
            level: default_log_level(),
            file_path: None,
            syslog_addr: None,
            query_log_sinks: default_query_log_sinks(),
            sqlite_path: default_sqlite_path(),
            sqlite_retention_hours: default_sqlite_retention_hours(),
        }
    }
}

impl Default for StatsConfig {
    fn default() -> (c: Self)
        ensures
            c.enable,
            c.log_interval_seconds == 300,
    {
        StatsConfig {
            enable: default_stats_enable(),
            log_interval_seconds: default_log_interval(),
        }
    }
}

impl Default for Config {
    fn default() -> (c: Self)
        ensures
            c.host@ == "0.0.0.0"@,
            c.port == 5300,
            c.upstream_servers@.len() == 1,
            c.upstream_servers@[0]@ == "h3://dns.google/dns-query"@,
            c.resolution_policy@ == "parallel"@,
            c.upstream_timeout_ms == 200,
            c.bootstrap_dns@.len() == 1,
            c.bootstrap_dns@[0]@ == "8.8.8.8:53"@,
            string_table(c.blocklists) == Map::<Seq<char>, Seq<char>>::empty().insert(
                "default"@,
                "https://cdn.jsdelivr.net/gh/hagezi/dns-blocklists@latest/wildcard/pro-onlydomains.txt"@,
            ),
            c.allowlist@.len() == 0,
            c.cache.enable,
            c.cache.capacity == 10000,
            c.cache.grace_period_sec == 10,
            c.cache.min_ttl == 300,
            c.updates.interval_hours == 24,
            c.updates.concurrent_downloads == 4,
            c.logging.enable,
            c.logging.log_blocked,
            c.logging.log_all_queries,
            c.logging.format@ == "text"@,
            c.logging.query_log_sinks@.len() == 1,
            c.logging.query_log_sinks@[0]@ == "console"@,
            c.logging.sqlite_path@ == "ad-nope.db"@,
            c.logging.sqlite_retention_hours == 168,
            c.local_records@ == Map::<String, LocalAddr>::empty(),
            c.stats.enable,
            c.stats.log_interval_seconds == 300,
    {
        Config {
            host: default_host(),
            port: default_port(),
            upstream_servers: default_upstream_servers(),
            resolution_policy: default_resolution_policy(),
            upstream_timeout_ms: default_upstream_timeout_ms(),
            bootstrap_dns: default_bootstrap_dns(),
            blocklists: default_blocklists(),
            allowlist: Vec::new(),
            cache: CacheConfig::default(),
            updates: UpdateConfig::default(),
            logging: LoggingConfig::default(),
            local_records: HashMap::new(),
            stats: StatsConfig::default(),
        }
    }
}

/// The order in which blocklists are listed: by the bytes of their names.
pub open spec fn name_lt(a: Seq<char>, b: Seq<char>) -> bool {
    bytes_lt(text_bytes(a), text_bytes(b))
}

proof fn name_lt_total(a: Seq<char>, b: Seq<char>)
    ensures
        !(name_lt(a, b) && name_lt(b, a)),
        a != b ==> name_lt(a, b) || name_lt(b, a),
        !name_lt(a, a),
{
    bytes_lt_strict_total(text_bytes(a), text_bytes(b));
    if a != b && text_bytes(a) == text_bytes(b) {
        encode_utf8_decode_utf8(a);
        encode_utf8_decode_utf8(b);
    }
}

/// The pairs are in strictly increasing order of their names.
pub open spec fn names_sorted(s: Seq<(String, String)>) -> bool {
    forall|i: int, j: int|
        0 <= i < j < s.len() ==> name_lt((#[trigger] s[i]).0@, (#[trigger] s[j]).0@)
}

/// Inserts `e` where its name belongs among pairs sorted by name.
fn insert_sorted(out: &mut Vec<(String, String)>, e: (String, String)) -> (pos: Ghost<int>)
    requires
        names_sorted(old(out)@),
        forall|a: int| 0 <= a < old(out)@.len() ==> (#[trigger] old(out)@[a]).0@ != e.0@,
    ensures
        names_sorted(final(out)@),
        0 <= pos@ <= old(out)@.len(),
        final(out)@ == old(out)@.insert(pos@, e),
{
    let mut p: usize = 0;
    while p < out.len() && str_lt(out[p].0.as_str(), e.0.as_str())
        invariant
            p <= out@.len(),
            out@ == old(out)@,
            forall|a: int| 0 <= a < p ==> name_lt((#[trigger] out@[a]).0@, e.0@),
        decreases out@.len() - p,
    {
        p = p + 1;
    }
    let ghost prev = out@;
    proof {
        if p < prev.len() {
            name_lt_total(prev[p as int].0@, e.0@);
            assert forall|a: int| p <= a < prev.len() implies name_lt(e.0@, #[trigger] prev[a].0@) by {
                if a > p {
                    bytes_lt_transitive(
                        text_bytes(e.0@),
                        text_bytes(prev[p as int].0@),
                        text_bytes(prev[a].0@),
                    );
                }
            }
        }
    }
    out.insert(p, e);
    proof {
        let q = p as int;
        assert forall|a: int, b: int|
            0 <= a < b < out@.len() implies name_lt(
                (#[trigger] out@[a]).0@,
                (#[trigger] out@[b]).0@,
            ) by {
            if a < q && b == q {
            } else if a < q && b > q {
                assert(out@[b] == prev[b - 1]);
                assert(out@[a] == prev[a]);
            } else if a == q {
                assert(out@[b] == prev[b - 1]);
            } else if a > q {
                assert(out@[a] == prev[a - 1]);
                assert(out@[b] == prev[b - 1]);
            } else {
                assert(out@[a] == prev[a]);
                assert(out@[b] == prev[b]);
            }
        }
        assert(out@ == prev.insert(q, e));
    }
    Ghost(p as int)
}

/// The next entry's name is not among the names placed so far.
proof fn fresh_name(prev: Seq<(String, String)>, es: Seq<(String, String)>, i: int, e: (String, String))
    requires
        0 <= i < es.len(),
        e.0@ == es[i].0@,
        names_distinct(es),
        names_from(prev, es, i),
    ensures
        forall|a: int| 0 <= a < prev.len() ==> (#[trigger] prev[a]).0@ != e.0@,
{
    assert forall|a: int| 0 <= a < prev.len() implies (#[trigger] prev[a]).0@ != e.0@ by {
        let b = choose|b: int| 0 <= b < i && (#[trigger] prev[a]).0@ == (#[trigger] es[b]).0@;
        assert(es[b].0@ != es[i].0@);
    }
}

/// Inserting one element keeps every old element and adds the new one.
proof fn insert_keeps_elements<T>(old_s: Seq<T>, p: int, e: T)
    requires
        0 <= p <= old_s.len(),
    ensures
        forall|a: int|
            0 <= a < old_s.insert(p, e).len() ==> #[trigger] old_s.insert(p, e)[a] == e || exists|c: int|
                0 <= c < old_s.len() && old_s.insert(p, e)[a] == #[trigger] old_s[c],
        forall|c: int|
            0 <= c < old_s.len() ==> exists|a: int|
                0 <= a < old_s.insert(p, e).len() && #[trigger] old_s.insert(p, e)[a] == #[trigger] old_s[c],
        exists|a: int| 0 <= a < old_s.insert(p, e).len() && #[trigger] old_s.insert(p, e)[a] == e,
{
    let n = old_s.insert(p, e);
    assert(n[p] == e);
    assert forall|a: int| 0 <= a < n.len() implies #[trigger] n[a] == e || exists|c: int|
        0 <= c < old_s.len() && n[a] == #[trigger] old_s[c] by {
        if a < p {
            assert(n[a] == old_s[a]);
        } else if a > p {
            assert(n[a] == old_s[a - 1]);
        }
    }
    assert forall|c: int| 0 <= c < old_s.len() implies exists|a: int|
        0 <= a < n.len() && #[trigger] n[a] == #[trigger] old_s[c] by {
        if c < p {
            assert(n[c] == old_s[c]);
        } else {
            assert(n[c + 1] == old_s[c]);
        }
    }
}

/// Every placed pair is an entry of the table.
pub open spec fn pairs_in_table(tbl: Map<Seq<char>, Seq<char>>, s: Seq<(String, String)>) -> bool {
    forall|a: int|
        0 <= a < s.len() ==> tbl.contains_key((#[trigger] s[a]).0@) && tbl[s[a].0@] == s[a].1@
}

/// Every placed pair has the name of one of the first `i` entries.
pub open spec fn names_from(s: Seq<(String, String)>, entries: Seq<(String, String)>, i: int) -> bool {
    forall|a: int|
        0 <= a < s.len() ==> exists|b: int|
            0 <= b < i && (#[trigger] s[a]).0@ == (#[trigger] entries[b]).0@
}

/// The name of each of the first `i` entries is placed.
pub open spec fn names_cover(s: Seq<(String, String)>, entries: Seq<(String, String)>, i: int) -> bool {
    forall|b: int|
        0 <= b < i ==> exists|a: int|
            0 <= a < s.len() && (#[trigger] s[a]).0@ == (#[trigger] entries[b]).0@
}

/// The entries' names are pairwise distinct.
pub open spec fn names_distinct(entries: Seq<(String, String)>) -> bool {
    forall|a: int, b: int|
        0 <= a < entries.len() && 0 <= b < entries.len() && a != b ==> (#[trigger] entries[a]).0@
            != (#[trigger] entries[b]).0@
}

/// One step of building the sorted list: inserting the next entry keeps
/// the placed pairs true to the table and in step with the entries seen.
proof fn sorted_step(
    entries: Seq<(String, String)>,
    tbl: Map<Seq<char>, Seq<char>>,
    prev: Seq<(String, String)>,
    p: int,
    e: (String, String),
    i: int,
)
    requires
        0 <= i < entries.len(),
        0 <= p <= prev.len(),
        e.0@ == entries[i].0@,
        e.1@ == entries[i].1@,
        pairs_in_table(tbl, entries),
        pairs_in_table(tbl, prev),
        names_from(prev, entries, i),
        names_cover(prev, entries, i),
    ensures
        pairs_in_table(tbl, prev.insert(p, e)),
        names_from(prev.insert(p, e), entries, i + 1),
        names_cover(prev.insert(p, e), entries, i + 1),
{
    let out = prev.insert(p, e);
    insert_keeps_elements(prev, p, e);
    assert(tbl.contains_key(entries[i].0@));
    assert forall|a: int| 0 <= a < out.len() implies tbl.contains_key((#[trigger] out[a]).0@)
        && tbl[out[a].0@] == out[a].1@ by {
        if out[a] != e {
            let c = choose|c: int| 0 <= c < prev.len() && out[a] == #[trigger] prev[c];
        }
    }
    assert forall|a: int| 0 <= a < out.len() implies exists|b: int|
        0 <= b < i + 1 && (#[trigger] out[a]).0@ == (#[trigger] entries[b]).0@ by {
        if out[a] == e {
            assert(out[a].0@ == entries[i].0@);
        } else {
            let c = choose|c: int| 0 <= c < prev.len() && out[a] == #[trigger] prev[c];
            let b = choose|b: int| 0 <= b < i && (#[trigger] prev[c]).0@ == (#[trigger] entries[b]).0@;
            assert(out[a].0@ == entries[b].0@);
        }
    }
    assert forall|b: int| 0 <= b < i + 1 implies exists|a: int|
        0 <= a < out.len() && (#[trigger] out[a]).0@ == (#[trigger] entries[b]).0@ by {
        if b == i {
            let a = choose|a: int| 0 <= a < out.len() && #[trigger] out[a] == e;
            assert(out[a].0@ == entries[b].0@);
        } else {
            let c = choose|c: int|
                0 <= c < prev.len() && (#[trigger] prev[c]).0@ == (#[trigger] entries[b]).0@;
            let a = choose|a: int| 0 <= a < out.len() && #[trigger] out[a] == prev[c];
            assert(out[a].0@ == entries[b].0@);
        }
    }
}

/// The texts of the names in a list of (name, url) pairs.
pub open spec fn pair_names(s: Seq<(String, String)>) -> Seq<Seq<char>> {
    s.map_values(|p: (String, String)| p.0@)
}

/// Two lists of names, each strictly ascending, that hold the same names
/// are the same list.
proof fn ascending_names_equal(a: Seq<Seq<char>>, b: Seq<Seq<char>>)
    requires
        forall|i: int, j: int| 0 <= i < j < a.len() ==> name_lt(#[trigger] a[i], #[trigger] a[j]),
        forall|i: int, j: int| 0 <= i < j < b.len() ==> name_lt(#[trigger] b[i], #[trigger] b[j]),
        forall|i: int| 0 <= i < a.len() ==> b.contains(#[trigger] a[i]),
        forall|i: int| 0 <= i < b.len() ==> a.contains(#[trigger] b[i]),
    ensures
        a == b,
    decreases a.len(),
{
    if a.len() == 0 {
        if b.len() > 0 {
            assert(a.contains(b[0]));
        }
        assert(a =~= b);
    } else if b.len() == 0 {
        assert(b.contains(a[0]));
    } else {
        name_lt_total(a[0], b[0]);
        if a[0] != b[0] {
            if name_lt(a[0], b[0]) {
                assert(b.contains(a[0]));
                let j = choose|j: int| 0 <= j < b.len() && b[j] == a[0];
                assert(j != 0);
                assert(name_lt(b[0], b[j]));
            } else {
                assert(a.contains(b[0]));
                let j = choose|j: int| 0 <= j < a.len() && a[j] == b[0];
                assert(j != 0);
                assert(name_lt(a[0], a[j]));
            }
        }
        let a1 = a.drop_first();
        let b1 = b.drop_first();
        assert forall|i: int| 0 <= i < a1.len() implies b1.contains(#[trigger] a1[i]) by {
            assert(a1[i] == a[i + 1]);
            assert(b.contains(a[i + 1]));
            let j = choose|j: int| 0 <= j < b.len() && b[j] == a[i + 1];
            assert(name_lt(a[0], a[i + 1]));
            name_lt_total(a[0], a[0]);
            assert(j != 0);
            assert(b1[j - 1] == b[j]);
        }
        assert forall|i: int| 0 <= i < b1.len() implies a1.contains(#[trigger] b1[i]) by {
            assert(b1[i] == b[i + 1]);
            assert(a.contains(b[i + 1]));
            let j = choose|j: int| 0 <= j < a.len() && a[j] == b[i + 1];
            assert(name_lt(b[0], b[i + 1]));
            name_lt_total(b[0], b[0]);
            assert(j != 0);
            assert(a1[j - 1] == a[j]);
        }
        assert forall|i: int, j: int| 0 <= i < j < a1.len() implies name_lt(
            #[trigger] a1[i],
            #[trigger] a1[j],
        ) by {
            assert(a1[i] == a[i + 1] && a1[j] == a[j + 1]);
        }
        assert forall|i: int, j: int| 0 <= i < j < b1.len() implies name_lt(
            #[trigger] b1[i],
            #[trigger] b1[j],
        ) by {
            assert(b1[i] == b[i + 1] && b1[j] == b[j + 1]);
        }
        ascending_names_equal(a1, b1);
        assert(a =~= seq![a[0]] + a1);
        assert(b =~= seq![b[0]] + b1);
    }
}

/// The sorted blocklists are a function of the configured table alone:
/// any two lists that are strictly ascending by name, hold only the
/// table's entries and hold all of them are the same list. So the source
/// id that a blocklist gets from its position does not depend on the order
/// in which the table happens to be walked.
pub proof fn sorted_blocklists_are_determined(
    tbl: Map<Seq<char>, Seq<char>>,
    r1: Seq<(String, String)>,
    r2: Seq<(String, String)>,
)
    requires
        names_sorted(r1),
        names_sorted(r2),
        pairs_in_table(tbl, r1),
        pairs_in_table(tbl, r2),
        forall|k: Seq<char>|
            tbl.contains_key(k) ==> exists|i: int| 0 <= i < r1.len() && (#[trigger] r1[i]).0@ == k,
        forall|k: Seq<char>|
            tbl.contains_key(k) ==> exists|i: int| 0 <= i < r2.len() && (#[trigger] r2[i]).0@ == k,
    ensures
        r1.len() == r2.len(),
        forall|i: int|
            0 <= i < r1.len() ==> (#[trigger] r1[i]).0@ == r2[i].0@ && r1[i].1@ == r2[i].1@,
{
    let a = pair_names(r1);
    let b = pair_names(r2);
    assert forall|i: int, j: int| 0 <= i < j < a.len() implies name_lt(#[trigger] a[i], #[trigger] a[j]) by {
        assert(name_lt(r1[i].0@, r1[j].0@));
    }
    assert forall|i: int, j: int| 0 <= i < j < b.len() implies name_lt(#[trigger] b[i], #[trigger] b[j]) by {
        assert(name_lt(r2[i].0@, r2[j].0@));
    }
    assert forall|i: int| 0 <= i < a.len() implies b.contains(#[trigger] a[i]) by {
        assert(tbl.contains_key(r1[i].0@));
        let j = choose|j: int| 0 <= j < r2.len() && (#[trigger] r2[j]).0@ == r1[i].0@;
        assert(b[j] == a[i]);
    }
    assert forall|i: int| 0 <= i < b.len() implies a.contains(#[trigger] b[i]) by {
        assert(tbl.contains_key(r2[i].0@));
        let j = choose|j: int| 0 <= j < r1.len() && (#[trigger] r1[j]).0@ == r2[i].0@;
        assert(a[j] == b[i]);
    }
    ascending_names_equal(a, b);
    assert(a.len() == r1.len() && b.len() == r2.len());
    assert forall|i: int| 0 <= i < r1.len() implies (#[trigger] r1[i]).0@ == r2[i].0@ && r1[i].1@
        == r2[i].1@ by {
        assert(a[i] == b[i]);
        assert(tbl[r1[i].0@] == r1[i].1@);
        assert(tbl[r2[i].0@] == r2[i].1@);
    }
}

impl Config {
    /// The configured blocklists as (name, url) pairs, sorted by name.
    pub fn get_blocklists_sorted(&self) -> (r: Vec<(String, String)>)
        ensures
            names_sorted(r@),
            forall|i: int|
                0 <= i < r@.len() ==> string_table(self.blocklists).contains_key(
                    (#[trigger] r@[i]).0@,
                ) && string_table(self.blocklists)[r@[i].0@] == r@[i].1@,
            forall|k: Seq<char>|
                string_table(self.blocklists).contains_key(k) ==> exists|i: int|
                    0 <= i < r@.len() && (#[trigger] r@[i]).0@ == k,
    {
        let entries = string_table_entries(&self.blocklists);
        let ghost tbl = string_table(self.blocklists);
        let ghost es = entries@;
        let mut out: Vec<(String, String)> = Vec::new();
        let n = entries.len();
        proof {
            assert(pairs_in_table(tbl, es)) by {
                assert forall|a: int| 0 <= a < es.len() implies tbl.contains_key((#[trigger] es[a]).0@)
                    && tbl[es[a].0@] == es[a].1@ by {}
            }
            assert(names_distinct(es));
        }
        for i in 0..n
            invariant
                n == es.len(),
                es == entries@,
                tbl == string_table(self.blocklists),
                pairs_in_table(tbl, es),
                names_distinct(es),
                names_sorted(out@),
                pairs_in_table(tbl, out@),
                names_from(out@, es, i as int),
                names_cover(out@, es, i as int),
        {
            let e = (entries[i].0.clone(), entries[i].1.clone());
            let ghost prev = out@;
            let ghost ge = e;
            proof {
                fresh_name(prev, es, i as int, ge);
            }
            let p = insert_sorted(&mut out, e);
            proof {
                sorted_step(es, tbl, prev, p@, ge, i as int);
            }
        }
        proof {
            assert forall|k: Seq<char>| tbl.contains_key(k) implies exists|a: int|
                0 <= a < out@.len() && (#[trigger] out@[a]).0@ == k by {
                let b = choose|b: int| 0 <= b < es.len() && (#[trigger] es[b]).0@ == k;
                assert(names_cover(out@, es, n as int));
                let a = choose|a: int|
                    0 <= a < out@.len() && (#[trigger] out@[a]).0@ == (#[trigger] es[b]).0@;
            }
        }
        out
    }
}

} // verus!
