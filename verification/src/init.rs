//! Start-up decisions: the tracing filter and the in-memory log buffer.
use crate::logger::memory_sink::{ring_after, ring_keeps_latest, MemoryLogSink};
use crate::text::{bytes_contain, str_contains};
use vstd::prelude::*;
use vstd::string::StringExecFns;
use vstd::utf8::encode_utf8;

verus! {

/// Number of recent query logs the API keeps in memory without SQLite.
pub const MEMORY_LOG_CAPACITY: usize = 100;

/// `s` with `directive` appended unless `s` already mentions `target`.
pub open spec fn with_directive(s: Seq<char>, target: Seq<char>, directive: Seq<char>) -> Seq<char> {
    if bytes_contain(encode_utf8(s), encode_utf8(target)) {
        s
    } else {
        s + directive
    }
}

/// The filter directives: the configured level, with hickory's server and
/// protocol logs switched off unless the filter already mentions them.
pub open spec fn log_filter_spec(level: Seq<char>) -> Seq<char> {
    with_directive(
        with_directive(level, "hickory_server"@, ",hickory_server=off"@),
        "hickory_proto"@,
        ",hickory_proto=off"@,
    )
}

/// The tracing filter built from the configured log level.
pub fn log_filter(level: &str) -> (r: String)
    ensures
        r@ == log_filter_spec(level@),
{
    let mut f = String::from_str(level);
    if !str_contains(f.as_str(), "hickory_server") {
        f.append(",hickory_server=off");
    }
    if !str_contains(f.as_str(), "hickory_proto") {
        f.append(",hickory_proto=off");
    }
    f
}

/// The API's log buffer, filled from empty with `es`, serves the newest
/// `min(limit, |es|, MEMORY_LOG_CAPACITY)` entries, newest first.
pub proof fn memory_buffer_serves_newest<E>(es: Seq<E>, limit: nat)
    ensures
        ({
            let b = ring_after(Seq::empty(), MEMORY_LOG_CAPACITY as nat, es);
            let m = if limit < b.len() { limit as int } else { b.len() as int };
            let kept = if es.len() < MEMORY_LOG_CAPACITY { es.len() as int } else { MEMORY_LOG_CAPACITY as int };
            let served = if (limit as int) < kept { limit as int } else { kept };
            b.reverse().take(m) == es.subrange(es.len() - served, es.len() as int).reverse()
        }),
{
    let n = es.len() as int;
    ring_keeps_latest(MEMORY_LOG_CAPACITY as nat, es);
    let b = ring_after(Seq::empty(), MEMORY_LOG_CAPACITY as nat, es);
    let kept = if es.len() < MEMORY_LOG_CAPACITY { n } else { MEMORY_LOG_CAPACITY as int };
    let served = if (limit as int) < kept { limit as int } else { kept };
    assert(b == es.subrange(n - kept, n));
    let lhs = b.reverse().take(served);
    let rhs = es.subrange(n - served, n).reverse();
    assert forall|j: int| 0 <= j < served implies lhs[j] == rhs[j] by {
        assert(b.reverse()[j] == b[kept - 1 - j]);
        assert(b[kept - 1 - j] == es[n - 1 - j]);
        assert(rhs[j] == es.subrange(n - served, n)[served - 1 - j]);
    }
    assert(lhs =~= rhs);
}

/// The in-memory log buffer that the API reads when there is no database.
pub fn memory_log_sink() -> (s: MemoryLogSink)
    ensures
        s.entries() == Seq::<crate::logger::types::QueryLogEntry>::empty(),
        s.capacity_spec() == MEMORY_LOG_CAPACITY,
{
    MemoryLogSink::new(MEMORY_LOG_CAPACITY)
}

} // verus!
