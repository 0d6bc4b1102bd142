//! Query log records.
use vstd::prelude::*;
use vstd::string::StringExecFns;

verus! {

/// What the server did with a query.
#[derive(Debug, Clone, Copy, PartialEq, Eq, Structural)]
pub enum QueryLogAction {
    Allowed,
    Blocked,
    Cached,
    Forwarded,
    Local,
}

/// One answered query, as the sinks receive it.
#[derive(Debug)]
pub struct QueryLogEntry {
    /// The client's address in text form.
    pub client_ip: String,
    pub domain: String,
    /// The record type asked for, in text form (e.g. "A").
    pub query_type: String,
    pub action: QueryLogAction,
    /// The id of the blocklist that blocked the query, if one did.
    pub source_id: Option<u8>,
    pub upstream: Option<String>,
    pub latency_ms: u64,
    pub ttl_remaining: Option<u64>,
}

fn clone_opt_string(s: &Option<String>) -> (r: Option<String>)
    ensures
        r == *s,
{
    match s {
        Some(t) => Some(t.clone()),
        None => None,
    }
}

impl Clone for QueryLogEntry {
    fn clone(&self) -> (r: Self)
        ensures
            r == *self,
    {
        QueryLogEntry {
            client_ip: self.client_ip.clone(),
            domain: self.domain.clone(),
            query_type: self.query_type.clone(),
            action: self.action,
            source_id: self.source_id,
            upstream: clone_opt_string(&self.upstream),
            latency_ms: self.latency_ms,
            ttl_remaining: self.ttl_remaining,
        }
    }
}

/// A destination of query logs, implemented by the program's sinks.
pub trait QueryLogSink: Send + Sync {
    fn log(&self, entry: &QueryLogEntry);
}

/// What happened to a query, in the compact log format.
#[derive(Debug, Clone, Copy, PartialEq, Eq, Structural)]
pub enum LogAction {
    Allowed,
    Blocked,
    Cached,
    Forwarded,
}

/// A query record in the compact log format.
#[derive(Debug)]
pub struct LogEntry {
    pub client_ip: String,
    pub domain: String,
    pub query_type: String,
    pub action: LogAction,
    /// If blocked
    pub source_id: Option<u8>,
    pub latency_ms: u64,
}

} // verus!
