//! Text rendering of query logs for the console.
use super::types::{LogAction, LogEntry, QueryLogAction, QueryLogEntry};
use crate::config::LoggingConfig;
use crate::stats::{label_at, name_or_unknown};
use crate::text::{decimal, decimal_spec, str_eq};
use vstd::prelude::*;
use vstd::string::StringExecFns;

verus! {

/// A sink that writes one line per query to the console.
pub struct ConsoleLogSink {
    config: LoggingConfig,
    blocklist_names: Vec<String>,
}

impl ConsoleLogSink {
    pub closed spec fn config_spec(&self) -> LoggingConfig {
        self.config
    }

    pub closed spec fn names_spec(&self) -> Seq<String> {
        self.blocklist_names@
    }

    pub fn new(config: LoggingConfig, blocklist_names: Vec<String>) -> (s: Self)
        ensures
            s.config_spec() == config,
            s.names_spec() == blocklist_names@,
    {
        ConsoleLogSink { config, blocklist_names }
    }
}

/// Whether a query with this action is logged under `config`.
pub open spec fn should_log(config: LoggingConfig, action: QueryLogAction) -> bool {
    config.enable && (if action == QueryLogAction::Blocked {
        config.log_blocked
    } else {
        config.log_all_queries
    })
}

/// Only blocked queries follow `log_blocked`; every other query (allowed,
/// cached, forwarded, local) follows `log_all_queries`; nothing is logged
/// while logging is off.
pub proof fn only_blocked_queries_follow_log_blocked(config: LoggingConfig, action: QueryLogAction)
    ensures
        !config.enable ==> !should_log(config, action),
        action == QueryLogAction::Blocked ==> (should_log(config, action) <==> config.enable
            && config.log_blocked),
        action != QueryLogAction::Blocked ==> (should_log(config, action) <==> config.enable
            && config.log_all_queries),
        should_log(config, QueryLogAction::Local) == (config.enable && config.log_all_queries),
        should_log(config, QueryLogAction::Cached) == (config.enable && config.log_all_queries),
        should_log(config, QueryLogAction::Forwarded) == (config.enable && config.log_all_queries),
        should_log(config, QueryLogAction::Allowed) == (config.enable && config.log_all_queries),
{
}

/// The name of the blocklist with id `source_id`, or "Unknown".
pub open spec fn source_label(names: Seq<String>, source_id: Option<u8>) -> Seq<char> {
    match source_id {
        Some(id) => label_at(names, id as int),
        None => "Unknown"@,
    }
}

/// The phrase that says what happened to the query.
pub open spec fn action_phrase(names: Seq<String>, e: QueryLogEntry) -> Seq<char> {
    match e.action {
        QueryLogAction::Local => "fetched from local_records"@,
        QueryLogAction::Blocked => "blocked and blocklist "@ + source_label(names, e.source_id)
            + " blocked it"@,
        QueryLogAction::Cached => match e.ttl_remaining {
            Some(ttl) => "fetched from cache. TTL remaining: "@ + decimal_spec(ttl as nat) + "s"@,
            None => "fetched from cache"@,
        },
        QueryLogAction::Forwarded => match e.upstream {
            Some(up) => "fetched from upstream "@ + up@,
            None => "fetched from upstream"@,
        },
        QueryLogAction::Allowed => "Allowed"@,
    }
}

/// The text line for a query: `[type] client domain (type) -> phrase [Nms]`.
pub open spec fn text_line(names: Seq<String>, e: QueryLogEntry) -> Seq<char> {
    "["@ + e.query_type@ + "] "@ + e.client_ip@ + " "@ + e.domain@ + " ("@ + e.query_type@
        + ") -> "@ + action_phrase(names, e) + " ["@ + decimal_spec(e.latency_ms as nat) + "ms]"@
}

/// What the console sink writes for one query.
pub enum ConsoleRecord {
    /// Nothing: logging is off for this query.
    Skip,
    /// A structured record, with the name of the blocking list if there is one.
    Json { src_name: Option<String> },
    /// A text line.
    Text(String),
}

/// The blocklist name at a source id, if the id names a configured list.
pub fn source_name(names: &Vec<String>, source_id: Option<u8>) -> (r: Option<String>)
    ensures
        r is Some <==> (source_id is Some && (source_id->0 as int) < names@.len()),
        r is Some ==> r->0@ == names@[source_id->0 as int]@,
{
    match source_id {
        Some(id) => {
            if (id as usize) < names.len() {
                Some(names[id as usize].clone())
            } else {
                None
            }
        },
        None => None,
    }
}

impl ConsoleLogSink {
    /// Decides whether and how the query is written to the console.
    pub fn render(&self, entry: &QueryLogEntry) -> (r: ConsoleRecord)
        ensures
            !should_log(self.config_spec(), entry.action) <==> r is Skip,
            entry.action != QueryLogAction::Blocked ==> (r is Skip <==> !(self.config_spec().enable
                && self.config_spec().log_all_queries)),
            entry.action == QueryLogAction::Blocked ==> (r is Skip <==> !(self.config_spec().enable
                && self.config_spec().log_blocked)),
            r matches ConsoleRecord::Json { src_name } ==> self.config_spec().format@ == "json"@ && (
            src_name is Some <==> (entry.source_id is Some && (entry.source_id->0 as int)
                < self.names_spec().len())) && (src_name is Some ==> src_name->0@
                == self.names_spec()[entry.source_id->0 as int]@),
            r matches ConsoleRecord::Text(line) ==> self.config_spec().format@ != "json"@ && line@
                == text_line(self.names_spec(), *entry),
            should_log(self.config_spec(), entry.action) ==> (r is Json <==> self.config_spec().format@
                == "json"@),
    {
        if !self.config.enable {
            return ConsoleRecord::Skip;
        }
        let wanted = match entry.action {
            QueryLogAction::Blocked => self.config.log_blocked,
            _ => self.config.log_all_queries,
        };
        if !wanted {
            return ConsoleRecord::Skip;
        }
        proof {
            reveal_strlit("json");
        }
        if str_eq(self.config.format.as_str(), "json") {
            return ConsoleRecord::Json { src_name: source_name(&self.blocklist_names, entry.source_id) };
        }
        ConsoleRecord::Text(self.text_line(entry))
    }

    fn action_phrase(&self, entry: &QueryLogEntry) -> (r: String)
        ensures
            r@ == action_phrase(self.names_spec(), *entry),
    {
        match entry.action {
            QueryLogAction::Local => String::from_str("fetched from local_records"),
            QueryLogAction::Blocked => {
                let name = match entry.source_id {
                    Some(id) => name_or_unknown(&self.blocklist_names, id as usize),
                    None => String::from_str("Unknown"),
                };
                let mut s = String::from_str("blocked and blocklist ");
                s.append(name.as_str());
                s.append(" blocked it");
                s
            },
            QueryLogAction::Cached => match entry.ttl_remaining {
                Some(ttl) => {
                    let mut s = String::from_str("fetched from cache. TTL remaining: ");
                    let d = decimal(ttl);
                    s.append(d.as_str());
                    s.append("s");
                    s
                },
                None => String::from_str("fetched from cache"),
            },
            QueryLogAction::Forwarded => match &entry.upstream {
                Some(up) => {
                    let mut s = String::from_str("fetched from upstream ");
                    s.append(up.as_str());
                    s
                },
                None => String::from_str("fetched from upstream"),
            },
            QueryLogAction::Allowed => String::from_str("Allowed"),
        }
    }

    fn text_line(&self, entry: &QueryLogEntry) -> (r: String)
        ensures
            r@ == text_line(self.names_spec(), *entry),
    {
        let mut s = String::from_str("[");
        s.append(entry.query_type.as_str());
        s.append("] ");
        s.append(entry.client_ip.as_str());
        s.append(" ");
        s.append(entry.domain.as_str());
        s.append(" (");
        s.append(entry.query_type.as_str());
        s.append(") -> ");
        let phrase = self.action_phrase(entry);
        s.append(phrase.as_str());
        s.append(" [");
        let lat = decimal(entry.latency_ms);
        s.append(lat.as_str());
        s.append("ms]");
        s
    }
}

/// Whether a compact record with this action is written under `config`.
pub open spec fn entry_should_log(config: LoggingConfig, action: LogAction) -> bool {
    config.enable && (if action == LogAction::Blocked {
        config.log_blocked
    } else {
        config.log_all_queries
    })
}

/// In the compact format too, only blocked queries follow `log_blocked`
/// and all others follow `log_all_queries`.
pub proof fn compact_log_switches(config: LoggingConfig, action: LogAction)
    ensures
        action == LogAction::Blocked ==> (entry_should_log(config, action) <==> config.enable
            && config.log_blocked),
        action != LogAction::Blocked ==> (entry_should_log(config, action) <==> config.enable
            && config.log_all_queries),
{
}

/// An optional source id as `{:?}` prints it: `Some(3)` or `None`.
pub open spec fn source_debug(o: Option<u8>) -> Seq<char> {
    match o {
        Some(n) => "Some("@ + decimal_spec(n as nat) + ")"@,
        None => "None"@,
    }
}

/// What a compact record says happened to the query.
pub open spec fn entry_action_text(e: LogEntry) -> Seq<char> {
    match e.action {
        LogAction::Blocked => "BLOCKED[src="@ + source_debug(e.source_id) + "]"@,
        LogAction::Allowed => "ALLOWED"@,
        LogAction::Cached => "CACHED"@,
        LogAction::Forwarded => "FORWARDED"@,
    }
}

/// The compact text line: `client domain (type) -> ACTION [Nms]`.
pub open spec fn entry_line(e: LogEntry) -> Seq<char> {
    e.client_ip@ + " "@ + e.domain@ + " ("@ + e.query_type@ + ") -> "@ + entry_action_text(e)
        + " ["@ + decimal_spec(e.latency_ms as nat) + "ms]"@
}

fn entry_action_string(entry: &LogEntry) -> (r: String)
    ensures
        r@ == entry_action_text(*entry),
{
    match entry.action {
        LogAction::Blocked => {
            let mut s = String::from_str("BLOCKED[src=");
            match entry.source_id {
                Some(n) => {
                    s.append("Some(");
                    let d = decimal(n as u64);
                    s.append(d.as_str());
                    s.append(")");
                },
                None => {
                    s.append("None");
                },
            }
            s.append("]");
            s
        },
        LogAction::Allowed => String::from_str("ALLOWED"),
        LogAction::Cached => String::from_str("CACHED"),
        LogAction::Forwarded => String::from_str("FORWARDED"),
    }
}

/// Decides whether and how a compact record is written: nothing when
/// logging is off for it, a structured record in JSON format, else a text line.
pub fn process_log(config: &LoggingConfig, entry: &LogEntry) -> (r: ConsoleRecord)
    ensures
        !entry_should_log(*config, entry.action) <==> r is Skip,
        entry.action != LogAction::Blocked ==> (r is Skip <==> !(config.enable
            && config.log_all_queries)),
        entry.action == LogAction::Blocked ==> (r is Skip <==> !(config.enable
            && config.log_blocked)),
        r matches ConsoleRecord::Json { src_name } ==> config.format@ == "json"@ && src_name is None,
        r matches ConsoleRecord::Text(line) ==> config.format@ != "json"@ && line@ == entry_line(
            *entry,
        ),
        entry_should_log(*config, entry.action) ==> (r is Json <==> config.format@ == "json"@),
{
    if !config.enable {
        return ConsoleRecord::Skip;
    }
    let wanted = match entry.action {
        LogAction::Blocked => config.log_blocked,
        _ => config.log_all_queries,
    };
    if !wanted {
        return ConsoleRecord::Skip;
    }
    proof {
        reveal_strlit("json");
    }
    if str_eq(config.format.as_str(), "json") {
        return ConsoleRecord::Json { src_name: None };
    }
    let mut s = String::from_str(entry.client_ip.as_str());
    s.append(" ");
    s.append(entry.domain.as_str());
    s.append(" (");
    s.append(entry.query_type.as_str());
    s.append(") -> ");
    let action = entry_action_string(entry);
    s.append(action.as_str());
    s.append(" [");
    let lat = decimal(entry.latency_ms);
    s.append(lat.as_str());
    s.append("ms]");
    ConsoleRecord::Text(s)
}

} // verus!
