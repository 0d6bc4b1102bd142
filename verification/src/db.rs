//! The query-log database: its location, how actions are stored as text,
//! and the retention cutoff.
use crate::config::LoggingConfig;
use crate::engine::state::NANOS_PER_SEC;
use crate::logger::types::{QueryLogAction, QueryLogEntry};
use crate::stats::StatsSnapshot;
use crate::text::str_eq;
use hickory_server::proto::rr::RecordType;
use vstd::prelude::*;
use vstd::string::{StrSliceExecFns, StringExecFns};

verus! {

/// A client of the SQLite database at a path; each operation opens its own connection.
pub struct DbClient {
    db_path: String,
}

impl DbClient {
    pub closed spec fn path_spec(&self) -> Seq<char> {
        self.db_path@
    }

    pub fn new(db_path: String) -> (c: Self)
        ensures
            c.path_spec() == db_path@,
    {
        Self { db_path }
    }

    /// The database file's path.
    pub fn db_path(&self) -> (r: &str)
        ensures
            r@ == self.path_spec(),
    {
        self.db_path.as_str()
    }
}

/// The text under which an action is stored: its variant name.
pub open spec fn action_text(a: QueryLogAction) -> Seq<char> {
    match a {
        QueryLogAction::Allowed => "Allowed"@,
        QueryLogAction::Blocked => "Blocked"@,
        QueryLogAction::Cached => "Cached"@,
        QueryLogAction::Forwarded => "Forwarded"@,
        QueryLogAction::Local => "Local"@,
    }
}

/// The action a stored text stands for; unknown texts read as `Allowed`.
pub open spec fn action_of_text(s: Seq<char>) -> QueryLogAction {
    if s == "Allowed"@ {
        QueryLogAction::Allowed
    } else if s == "Blocked"@ {
        QueryLogAction::Blocked
    } else if s == "Cached"@ {
        QueryLogAction::Cached
    } else if s == "Forwarded"@ {
        QueryLogAction::Forwarded
    } else if s == "Local"@ {
        QueryLogAction::Local
    } else {
        QueryLogAction::Allowed
    }
}

/// The text under which an action is stored.
pub fn action_label(a: QueryLogAction) -> (r: &'static str)
    ensures
        r@ == action_text(a),
{
    match a {
        QueryLogAction::Allowed => "Allowed",
        QueryLogAction::Blocked => "Blocked",
        QueryLogAction::Cached => "Cached",
        QueryLogAction::Forwarded => "Forwarded",
        QueryLogAction::Local => "Local",
    }
}

/// Reads a stored action back; unknown texts read as `Allowed`.
pub fn parse_action(s: &str) -> (r: QueryLogAction)
    ensures
        r == action_of_text(s@),
{
    if str_eq(s, "Allowed") {
        QueryLogAction::Allowed
    } else if str_eq(s, "Blocked") {
        QueryLogAction::Blocked
    } else if str_eq(s, "Cached") {
        QueryLogAction::Cached
    } else if str_eq(s, "Forwarded") {
        QueryLogAction::Forwarded
    } else if str_eq(s, "Local") {
        QueryLogAction::Local
    } else {
        QueryLogAction::Allowed
    }
}

/// Every action written to the log reads back as itself.
pub proof fn stored_action_reads_back(a: QueryLogAction)
    ensures
        action_of_text(action_text(a)) == a,
{
    reveal_strlit("Allowed");
    reveal_strlit("Blocked");
    reveal_strlit("Cached");
    reveal_strlit("Forwarded");
    reveal_strlit("Local");
    assert("Allowed"@[0] == 'A' && "Blocked"@[0] == 'B' && "Cached"@[0] == 'C');
    assert("Forwarded"@[0] == 'F' && "Local"@[0] == 'L');
}

/// What `RecordType::from_str` of hickory followed by its `Display` makes
/// of a text: the canonical name of the record type it names, or `None`
/// when it names none.
pub uninterp spec fn record_type_text(s: Seq<char>) -> Option<Seq<char>>;

/// The text holds an ASCII lowercase letter.
pub open spec fn has_ascii_lower(s: Seq<char>) -> bool {
    exists|i: int| 0 <= i < s.len() && 'a' <= #[trigger] s[i] && s[i] <= 'z'
}

/// `RecordType::from_str` of hickory, read back through `to_string`. Its
/// `from_str` asserts in debug builds that the text has no ASCII lowercase
/// letter, so such texts are left out.
#[verifier::external_body]
fn canonical_record_type(s: &str) -> (canonical: Option<String>)
    requires
        !has_ascii_lower(s@),
    ensures
        canonical.is_some() == record_type_text(s@).is_some(),
        canonical.is_some() ==> canonical.unwrap()@ == record_type_text(s@).unwrap(),
{
    let parsed: Result<RecordType, _> = std::str::FromStr::from_str(s);
    match parsed {
        Ok(t) => Some(t.to_string()),
        Err(_) => None,
    }
}

/// Whether the text holds an ASCII lowercase letter.
fn contains_ascii_lower(s: &str) -> (r: bool)
    ensures
        r == has_ascii_lower(s@),
{
    let n = s.unicode_len();
    let mut i: usize = 0;
    while i < n
        invariant
            n == s@.len(),
            i <= n,
            forall|j: int| 0 <= j < i ==> !('a' <= #[trigger] s@[j] && s@[j] <= 'z'),
        decreases n - i,
    {
        let c = s.get_char(i);
        if 'a' <= c && c <= 'z' {
            return true;
        }
        i = i + 1;
    }
    false
}

/// The record type that a stored query type names: none for a text with an
/// ASCII lowercase letter (no record type's name has one), else as hickory
/// reads it.
pub open spec fn stored_record_type(s: Seq<char>) -> Option<Seq<char>> {
    if has_ascii_lower(s) {
        None
    } else {
        record_type_text(s)
    }
}

/// The canonical name of the record type a stored query type names, if any.
pub fn parse_record_type(s: &str) -> (r: Option<String>)
    ensures
        r.is_some() == stored_record_type(s@).is_some(),
        r.is_some() ==> r.unwrap()@ == stored_record_type(s@).unwrap(),
{
    if contains_ascii_lower(s) {
        None
    } else {
        canonical_record_type(s)
    }
}

/// The text of an optional text, or `fallback`.
pub open spec fn text_or(o: Option<String>, fallback: Seq<char>) -> Seq<char> {
    match o {
        Some(t) => t@,
        None => fallback,
    }
}

/// An optional stored integer read as `u64`, as an `as` cast reads it.
pub open spec fn stored_u64(o: Option<i64>) -> Option<u64> {
    match o {
        Some(t) => Some(t as u64),
        None => None,
    }
}

/// The log entry that a stored row stands for, from its fields already
/// read: the client address in canonical form (`None` when the stored text
/// is no address) and the canonical record type (`None` when the stored
/// text names none). Unreadable addresses read as 0.0.0.0, unknown types as
/// A, unknown actions as `Allowed`; the list that blocked is not stored.
pub fn entry_from_fields(
    client_ip: Option<String>,
    domain: String,
    query_type: Option<String>,
    action: &str,
    upstream: Option<String>,
    latency_ms: i64,
    ttl_remaining: Option<i64>,
) -> (e: QueryLogEntry)
    ensures
        e.client_ip@ == text_or(client_ip, "0.0.0.0"@),
        e.domain@ == domain@,
        e.query_type@ == text_or(query_type, "A"@),
        e.action == action_of_text(action@),
        e.source_id is None,
        e.upstream == upstream,
        e.latency_ms == latency_ms as u64,
        e.ttl_remaining == stored_u64(ttl_remaining),
{
    let client_ip = match client_ip {
        Some(t) => t,
        None => String::from_str("0.0.0.0"),
    };
    let query_type = match query_type {
        Some(t) => t,
        None => String::from_str("A"),
    };
    let ttl_remaining = match ttl_remaining {
        Some(t) => Some(t as u64),
        None => None,
    };
    QueryLogEntry {
        client_ip,
        domain,
        query_type,
        action: parse_action(action),
        source_id: None,
        upstream,
        latency_ms: latency_ms as u64,
        ttl_remaining,
    }
}

/// The log entry of a stored row: the query type is read as hickory reads
/// record types; the client address comes in canonical form, or `None` when
/// the stored text is no address.
pub fn entry_from_row(
    client_ip: Option<String>,
    domain: String,
    query_type: &str,
    action: &str,
    upstream: Option<String>,
    latency_ms: i64,
    ttl_remaining: Option<i64>,
) -> (e: QueryLogEntry)
    ensures
        e.client_ip@ == text_or(client_ip, "0.0.0.0"@),
        e.domain@ == domain@,
        e.query_type@ == (match stored_record_type(query_type@) {
            Some(t) => t,
            None => "A"@,
        }),
        e.action == action_of_text(action@),
        e.source_id is None,
        e.upstream == upstream,
        e.latency_ms == latency_ms as u64,
        e.ttl_remaining == stored_u64(ttl_remaining),
{
    let canonical = parse_record_type(query_type);
    entry_from_fields(
        client_ip,
        domain,
        canonical,
        action,
        upstream,
        latency_ms,
        ttl_remaining,
    )
}

/// Each action is stored under its variant name, and a stored name is read
/// back as exactly that action: "Cached" marks exactly the cache hits and
/// "Blocked" exactly the blocked queries, as the counting queries over the
/// stored log expect.
pub proof fn stored_texts_are_variant_names(a: QueryLogAction)
    ensures
        (action_text(a) == "Allowed"@) <==> a == QueryLogAction::Allowed,
        (action_text(a) == "Blocked"@) <==> a == QueryLogAction::Blocked,
        (action_text(a) == "Cached"@) <==> a == QueryLogAction::Cached,
        (action_text(a) == "Forwarded"@) <==> a == QueryLogAction::Forwarded,
        (action_text(a) == "Local"@) <==> a == QueryLogAction::Local,
{
    reveal_strlit("Allowed");
    reveal_strlit("Blocked");
    reveal_strlit("Cached");
    reveal_strlit("Forwarded");
    reveal_strlit("Local");
    assert("Allowed"@[0] == 'A' && "Blocked"@[0] == 'B' && "Cached"@[0] == 'C');
    assert("Forwarded"@[0] == 'F' && "Local"@[0] == 'L');
}

/// A stored text reads as the action it names; any other text reads as
/// `Allowed`.
pub proof fn stored_text_reads_as_its_action(s: Seq<char>)
    ensures
        (action_of_text(s) == QueryLogAction::Blocked) <==> s == "Blocked"@,
        (action_of_text(s) == QueryLogAction::Cached) <==> s == "Cached"@,
        (action_of_text(s) == QueryLogAction::Forwarded) <==> s == "Forwarded"@,
        (action_of_text(s) == QueryLogAction::Local) <==> s == "Local"@,
        (action_of_text(s) == QueryLogAction::Allowed) <==> (s != "Blocked"@ && s != "Cached"@
            && s != "Forwarded"@ && s != "Local"@),
{
    reveal_strlit("Allowed");
    reveal_strlit("Blocked");
    reveal_strlit("Cached");
    reveal_strlit("Forwarded");
    reveal_strlit("Local");
    assert("Allowed"@[0] == 'A' && "Blocked"@[0] == 'B' && "Cached"@[0] == 'C');
    assert("Forwarded"@[0] == 'F' && "Local"@[0] == 'L');
}

/// A snapshot with every counter at zero and every list empty.
pub fn empty_snapshot() -> (s: StatsSnapshot)
    ensures
        s.total_queries == 0,
        s.blocked_queries == 0,
        s.cache_hits == 0,
        s.top_clients@.len() == 0,
        s.top_blocked_clients@.len() == 0,
        s.top_domains@.len() == 0,
        s.top_blocked_domains@.len() == 0,
        s.started_at == 0,
        s.updated_at == 0,
{
    StatsSnapshot {
        total_queries: 0,
        blocked_queries: 0,
        cache_hits: 0,
        top_clients: Vec::new(),
        top_blocked_clients: Vec::new(),
        top_domains: Vec::new(),
        top_blocked_domains: Vec::new(),
        started_at: 0,
        updated_at: 0,
    }
}

/// The oldest timestamp that survives a prune at Unix time `now` with a
/// retention of `retention_hours`.
pub fn retention_cutoff(now: i64, retention_hours: u64) -> (r: i64)
    requires
        retention_hours * 3600 <= i64::MAX,
        now >= 0,
    ensures
        r == now - retention_hours * 3600,
{
    now - (retention_hours * 3600) as i64
}

/// Seconds between two prunes of the query log by its writer.
pub const PRUNE_INTERVAL_SECS: u64 = 3600;

/// Whether the writer prunes the log `elapsed_nanos` after the last prune:
/// once more than an hour has passed.
pub fn prune_due(elapsed_nanos: u128) -> (r: bool)
    ensures
        r == (elapsed_nanos > PRUNE_INTERVAL_SECS * NANOS_PER_SEC),
{
    elapsed_nanos > (PRUNE_INTERVAL_SECS as u128) * NANOS_PER_SEC
}

/// Whether the configured query-log sinks include SQLite.
pub fn wants_sqlite(config: &LoggingConfig) -> (r: bool)
    ensures
        r == exists|i: int|
            0 <= i < config.query_log_sinks@.len() && (#[trigger] config.query_log_sinks@[i])@
                == "sqlite"@,
{
    let n = config.query_log_sinks.len();
    let mut i: usize = 0;
    while i < n
        invariant
            n == config.query_log_sinks@.len(),
            i <= n,
            forall|j: int| 0 <= j < i ==> (#[trigger] config.query_log_sinks@[j])@ != "sqlite"@,
        decreases n - i,
    {
        if str_eq(config.query_log_sinks[i].as_str(), "sqlite") {
            return true;
        }
        i = i + 1;
    }
    false
}

} // verus!
