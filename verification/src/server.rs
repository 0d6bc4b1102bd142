//! The decisions of the DNS request handler: query-name normalization, the
//! order of local records, blocklist, cache and upstream, the answer to a
//! blocked query, and cache timing.
use crate::config::LocalAddr;
use crate::engine::state::NANOS_PER_SEC;
use crate::logger::types::QueryLogAction;
use crate::text::{ascii_lower, strip_suffix_char};
use hickory_server::proto::rr::Name;
use vstd::prelude::*;

verus! {

/// `s` without one final `.`.
pub open spec fn without_final_dot(s: Seq<char>) -> Seq<char> {
    if s.len() > 0 && s.last() == '.' {
        s.drop_last()
    } else {
        s
    }
}

/// The form in which query names are matched, cached and logged.
pub open spec fn normalized_name(s: Seq<char>) -> Seq<char> {
    without_final_dot(s).map_values(|c: char| ascii_lower(c))
}

/// `str::to_ascii_lowercase`: ASCII letters lowercased, other characters kept.
#[verifier::external_body]
fn ascii_lowercase(s: &str) -> (r: String)
    ensures
        r@ == s@.map_values(|c: char| ascii_lower(c)),
{
    s.to_ascii_lowercase()
}

/// The query name without its final dot, in ASCII lowercase.
pub fn normalize_query_name(name: &str) -> (r: String)
    ensures
        r@ == normalized_name(name@),
{
    let base = match strip_suffix_char(name, '.') {
        Some(t) => t,
        None => name,
    };
    ascii_lowercase(base)
}

/// The record types the handler tells apart.
#[derive(Debug, Clone, Copy, PartialEq, Eq, Structural)]
pub enum QueryKind {
    A,
    Aaaa,
    Other,
}

/// What a blocked query is answered.
#[derive(Debug, Clone, Copy, PartialEq, Eq, Structural)]
pub enum BlockedAnswer {
    /// One A record for 0.0.0.0.
    UnspecifiedV4,
    /// One AAAA record for ::.
    UnspecifiedV6,
    /// No records and the NXDOMAIN code.
    NxDomain,
}

/// TTL, in seconds, of the records that answer a blocked query.
pub const BLOCKED_TTL: u32 = 60;

/// The answer to a blocked query of the given type.
pub fn blocked_answer(kind: QueryKind) -> (r: BlockedAnswer)
    ensures
        kind == QueryKind::A ==> r == BlockedAnswer::UnspecifiedV4,
        kind == QueryKind::Aaaa ==> r == BlockedAnswer::UnspecifiedV6,
        kind == QueryKind::Other ==> r == BlockedAnswer::NxDomain,
{
    match kind {
        QueryKind::A => BlockedAnswer::UnspecifiedV4,
        QueryKind::Aaaa => BlockedAnswer::UnspecifiedV6,
        QueryKind::Other => BlockedAnswer::NxDomain,
    }
}

/// The record type that a local address is served as.
pub open spec fn local_kind(addr: LocalAddr) -> QueryKind {
    match addr {
        LocalAddr::V4(_) => QueryKind::A,
        LocalAddr::V6(_) => QueryKind::Aaaa,
    }
}

/// Whether hickory's `Name::from_str` accepts a text as a domain name.
pub uninterp spec fn dns_name_ok(s: Seq<char>) -> bool;

/// `Name::from_str` of hickory: whether it parses the text as a name.
#[verifier::external_body]
fn parses_as_dns_name(s: &str) -> (ok: bool)
    ensures
        ok == dns_name_ok(s@),
{
    let parsed: Result<Name, _> = std::str::FromStr::from_str(s);
    parsed.is_ok()
}

/// The record type a local record is kept under: none when its name is not
/// a valid domain name (no record is made for it), else by its address.
pub fn local_record_kind(name_valid: bool, addr: LocalAddr) -> (r: Option<QueryKind>)
    ensures
        r == (if name_valid { Some(local_kind(addr)) } else { None::<QueryKind> }),
{
    if !name_valid {
        return None;
    }
    match addr {
        LocalAddr::V4(_) => Some(QueryKind::A),
        LocalAddr::V6(_) => Some(QueryKind::Aaaa),
    }
}

/// The record type a configured local record is kept under, its name read
/// as hickory reads domain names.
pub fn local_record_for(domain: &str, addr: LocalAddr) -> (r: Option<QueryKind>)
    ensures
        r == (if dns_name_ok(domain@) { Some(local_kind(addr)) } else { None::<QueryKind> }),
{
    local_record_kind(parses_as_dns_name(domain), addr)
}

/// Whether a local record answers the query: its name must be a valid DNS
/// name (else no record was made for it) and its type the type asked for.
pub fn serves_local(name_valid: bool, addr: LocalAddr, kind: QueryKind) -> (r: bool)
    ensures
        r == (name_valid && local_kind(addr) == kind),
{
    if !name_valid {
        return false;
    }
    match addr {
        LocalAddr::V4(_) => kind == QueryKind::A,
        LocalAddr::V6(_) => kind == QueryKind::Aaaa,
    }
}

/// The smallest of a non-empty sequence of TTLs.
pub open spec fn min_ttl_of(s: Seq<u32>) -> u32
    decreases s.len(),
{
    if s.len() <= 1 {
        s[0]
    } else {
        let m = min_ttl_of(s.drop_last());
        if s.last() < m {
            s.last()
        } else {
            m
        }
    }
}

/// The TTL under which an upstream answer is cached: the smallest record
/// TTL, raised to the configured minimum; nothing is cached for no records.
pub open spec fn cache_ttl_spec(ttls: Seq<u32>, min_ttl: u32) -> Option<u32> {
    if ttls.len() == 0 {
        None
    } else {
        let m = min_ttl_of(ttls);
        Some(if m > min_ttl { m } else { min_ttl })
    }
}

proof fn min_ttl_of_is_least(s: Seq<u32>)
    requires
        s.len() > 0,
    ensures
        forall|i: int| 0 <= i < s.len() ==> min_ttl_of(s) <= #[trigger] s[i],
        exists|i: int| 0 <= i < s.len() && min_ttl_of(s) == #[trigger] s[i],
    decreases s.len(),
{
    if s.len() > 1 {
        min_ttl_of_is_least(s.drop_last());
        let k = choose|i: int| 0 <= i < s.drop_last().len() && min_ttl_of(s.drop_last()) == #[trigger] s.drop_last()[i];
        assert(s[k] == s.drop_last()[k]);
        assert forall|i: int| 0 <= i < s.len() implies min_ttl_of(s) <= #[trigger] s[i] by {
            if i < s.len() - 1 {
                assert(s[i] == s.drop_last()[i]);
            }
        }
        if s.last() < min_ttl_of(s.drop_last()) {
            let j = s.len() - 1;
            assert(min_ttl_of(s) == s[j]);
            assert(0 <= j < s.len() && min_ttl_of(s) == s[j]);
        } else {
            assert(min_ttl_of(s) == s[k]);
            assert(0 <= k < s.len() && min_ttl_of(s) == s[k]);
        }
    } else {
        assert(min_ttl_of(s) == s[0]);
        assert(0 <= 0 < s.len() && min_ttl_of(s) == s[0]);
    }
}

/// The cache TTL of an answer with these record TTLs.
pub fn cache_ttl(ttls: &Vec<u32>, min_ttl: u32) -> (r: Option<u32>)
    ensures
        r == cache_ttl_spec(ttls@, min_ttl),
        r is Some <==> ttls@.len() > 0,
        r matches Some(t) ==> t >= min_ttl && (exists|i: int|
            0 <= i < ttls@.len() && #[trigger] ttls@[i] <= t) && (t == min_ttl || forall|i: int|
            0 <= i < ttls@.len() ==> t <= #[trigger] ttls@[i]),
{
    if ttls.len() == 0 {
        return None;
    }
    let mut m = ttls[0];
    let mut k: usize = 1;
    assert(ttls@.take(1).drop_last() =~= ttls@.take(0));
    while k < ttls.len()
        invariant
            1 <= k <= ttls@.len(),
            m == min_ttl_of(ttls@.take(k as int)),
        decreases ttls@.len() - k,
    {
        assert(ttls@.take(k + 1).drop_last() =~= ttls@.take(k as int));
        if ttls[k] < m {
            m = ttls[k];
        }
        k = k + 1;
    }
    assert(ttls@.take(ttls@.len() as int) =~= ttls@);
    let t = if m > min_ttl { m } else { min_ttl };
    proof {
        cache_ttl_is_max_of_min_and_floor(ttls@, min_ttl);
    }
    Some(t)
}

/// The cache TTL is at least the configured minimum and, when above it, the
/// smallest TTL of the records.
pub proof fn cache_ttl_bounds(ttls: Seq<u32>, min_ttl: u32)
    requires
        ttls.len() > 0,
    ensures
        cache_ttl_spec(ttls, min_ttl) matches Some(t) && t >= min_ttl && (t == min_ttl || (exists|i: int|
            0 <= i < ttls.len() && t == #[trigger] ttls[i]) && forall|i: int|
            0 <= i < ttls.len() ==> t <= #[trigger] ttls[i]),
{
    min_ttl_of_is_least(ttls);
}

/// The cache TTL of a non-empty answer is the larger of its smallest record
/// TTL and the configured minimum: never below the minimum, never below the
/// smallest record TTL (some record's TTL is at most it), and when it is
/// above the minimum it is a record's TTL that no other record undercuts.
pub proof fn cache_ttl_is_max_of_min_and_floor(ttls: Seq<u32>, min_ttl: u32)
    requires
        ttls.len() > 0,
    ensures
        cache_ttl_spec(ttls, min_ttl) matches Some(t) && t >= min_ttl
            && (exists|i: int| 0 <= i < ttls.len() && #[trigger] ttls[i] <= t)
            && (forall|i: int| 0 <= i < ttls.len() ==> t <= #[trigger] ttls[i] || t == min_ttl)
            && (t == min_ttl || exists|i: int| 0 <= i < ttls.len() && t == #[trigger] ttls[i]),
{
    min_ttl_of_is_least(ttls);
    let m = min_ttl_of(ttls);
    let k = choose|i: int| 0 <= i < ttls.len() && m == #[trigger] ttls[i];
    assert(ttls[k] <= cache_ttl_spec(ttls, min_ttl)->0);
}

/// When a cached answer stops being fresh and when it stops being served.
pub open spec fn deadlines(now: u128, ttl_secs: u32, grace_secs: u64) -> (u128, u128) {
    let valid = now + ttl_secs * NANOS_PER_SEC;
    ((valid) as u128, (valid + grace_secs * NANOS_PER_SEC) as u128)
}

/// The deadlines of an answer cached at clock time `now` (nanoseconds).
pub fn cache_deadlines(now: u128, ttl_secs: u32, grace_secs: u64) -> (r: (u128, u128))
    requires
        now <= crate::engine::state::max_duration_nanos(),
    ensures
        r == deadlines(now, ttl_secs, grace_secs),
{
    let valid = now + (ttl_secs as u128) * NANOS_PER_SEC;
    let stale = valid + (grace_secs as u128) * NANOS_PER_SEC;
    (valid, stale)
}

/// How a cached answer stands at a moment.
#[derive(Debug, Clone, Copy, PartialEq, Eq, Structural)]
pub enum CacheState {
    /// Within its TTL; `ttl_remaining` whole seconds left.
    Fresh { ttl_remaining: u64 },
    /// Past its TTL but within the grace period: served, and refreshed in the background.
    Stale { ttl_remaining: u64 },
    /// Past the grace period, or not cached: resolved upstream.
    Missing,
}

/// Whole seconds left before `valid_until`, 0 once it has passed.
pub open spec fn secs_left(now: u128, valid_until: u128) -> u64 {
    if valid_until > now {
        let s = ((valid_until - now) as u128) / NANOS_PER_SEC;
        if s > u64::MAX { u64::MAX } else { s as u64 }
    } else {
        0
    }
}

/// How an entry with these deadlines stands at clock time `now`.
pub open spec fn cache_state_at(now: u128, valid_until: u128, stale_until: u128) -> CacheState {
    if now < valid_until {
        CacheState::Fresh { ttl_remaining: secs_left(now, valid_until) }
    } else if now < stale_until {
        CacheState::Stale { ttl_remaining: secs_left(now, valid_until) }
    } else {
        CacheState::Missing
    }
}

/// How a cached entry stands at clock time `now`.
pub fn classify_cached(now: u128, valid_until: u128, stale_until: u128) -> (r: CacheState)
    ensures
        r == cache_state_at(now, valid_until, stale_until),
{
    let ttl = if valid_until > now {
        let s = (valid_until - now) / NANOS_PER_SEC;
        if s > u64::MAX as u128 {
            u64::MAX
        } else {
            s as u64
        }
    } else {
        0
    };
    if now < valid_until {
        CacheState::Fresh { ttl_remaining: ttl }
    } else if now < stale_until {
        CacheState::Stale { ttl_remaining: ttl }
    } else {
        CacheState::Missing
    }
}

/// What the handler does with a query.
#[derive(Debug, Clone, Copy, PartialEq, Eq, Structural)]
pub enum Route {
    /// Answer from the local records.
    ServeLocal,
    /// Answer as blocked by the list with this id.
    ServeBlocked(u8),
    /// Answer from the cache; a stale answer also starts a background refresh.
    ServeCached { stale: bool, ttl_remaining: u64 },
    /// Resolve upstream, cache and answer.
    Resolve,
}

/// The route of a query, from what each step finds: a local record first,
/// then (while blocking is active) the blocklist, then the cache.
pub open spec fn route_spec(
    local_hit: bool,
    blocking_active: bool,
    verdict: Option<u8>,
    cached: CacheState,
) -> Route {
    if local_hit {
        Route::ServeLocal
    } else if blocking_active && verdict is Some {
        Route::ServeBlocked(verdict->0)
    } else {
        match cached {
            CacheState::Fresh { ttl_remaining } => Route::ServeCached { stale: false, ttl_remaining },
            CacheState::Stale { ttl_remaining } => Route::ServeCached { stale: true, ttl_remaining },
            CacheState::Missing => Route::Resolve,
        }
    }
}

/// Step one: a local record that answers the query decides it.
pub fn route_local(local_hit: bool) -> (r: Option<Route>)
    ensures
        r == (if local_hit { Some(Route::ServeLocal) } else { None::<Route> }),
{
    if local_hit {
        Some(Route::ServeLocal)
    } else {
        None
    }
}

/// Step two: while blocking is active, a blocklist match decides the query.
pub fn route_blocklist(blocking_active: bool, verdict: Option<u8>) -> (r: Option<Route>)
    ensures
        r == (if blocking_active && verdict is Some {
            Some(Route::ServeBlocked(verdict->0))
        } else {
            None::<Route>
        }),
{
    if !blocking_active {
        return None;
    }
    match verdict {
        Some(id) => Some(Route::ServeBlocked(id)),
        None => None,
    }
}

/// Step three: a cached answer is served, fresh or stale; otherwise resolve.
pub fn route_cache(cached: CacheState) -> (r: Route)
    ensures
        r == route_spec(false, false, None, cached),
{
    match cached {
        CacheState::Fresh { ttl_remaining } => Route::ServeCached { stale: false, ttl_remaining },
        CacheState::Stale { ttl_remaining } => Route::ServeCached { stale: true, ttl_remaining },
        CacheState::Missing => Route::Resolve,
    }
}

/// The three steps, taken in order, give `route_spec`.
pub fn route(local_hit: bool, blocking_active: bool, verdict: Option<u8>, cached: CacheState) -> (r:
    Route)
    ensures
        r == route_spec(local_hit, blocking_active, verdict, cached),
{
    if let Some(r) = route_local(local_hit) {
        return r;
    }
    if let Some(r) = route_blocklist(blocking_active, verdict) {
        return r;
    }
    route_cache(cached)
}

/// What the log of an answered query records besides the query itself.
#[derive(Debug)]
pub struct LogContext {
    pub action: QueryLogAction,
    pub source_id: Option<u8>,
    pub upstream: Option<String>,
    pub ttl_remaining: Option<u64>,
}

/// The upstream named in the log of a local answer.
pub const LOCAL_UPSTREAM: &'static str = "local-config";

/// The log context of a served route; `upstream` is the resolver that answered.
pub fn log_context(route: Route, upstream: Option<String>) -> (r: LogContext)
    ensures
        route == Route::ServeLocal ==> r.action == QueryLogAction::Local && r.source_id is None
            && (r.upstream matches Some(u) && u@ == LOCAL_UPSTREAM@) && r.ttl_remaining is None,
        route matches Route::ServeBlocked(id) ==> r.action == QueryLogAction::Blocked && r.source_id
            == Some(id) && r.upstream is None && r.ttl_remaining is None,
        route matches Route::ServeCached { stale, ttl_remaining } ==> r.action
            == QueryLogAction::Cached && r.source_id is None && r.upstream is None && r.ttl_remaining
            == Some(ttl_remaining),
        route == Route::Resolve ==> r.action == QueryLogAction::Forwarded && r.source_id is None
            && r.upstream == upstream && r.ttl_remaining is None,
{
    match route {
        Route::ServeLocal => LogContext {
            action: QueryLogAction::Local,
            source_id: None,
            upstream: Some(String::from_str(LOCAL_UPSTREAM)),
            ttl_remaining: None,
        },
        Route::ServeBlocked(id) => LogContext {
            action: QueryLogAction::Blocked,
            source_id: Some(id),
            upstream: None,
            ttl_remaining: None,
        },
        Route::ServeCached { stale, ttl_remaining } => LogContext {
            action: QueryLogAction::Cached,
            source_id: None,
            upstream: None,
            ttl_remaining: Some(ttl_remaining),
        },
        Route::Resolve => LogContext {
            action: QueryLogAction::Forwarded,
            source_id: None,
            upstream,
            ttl_remaining: None,
        },
    }
}

/// Local records take precedence over the blocklist and the cache.
pub proof fn local_records_take_precedence(
    blocking_active: bool,
    verdict: Option<u8>,
    cached: CacheState,
)
    ensures
        route_spec(true, blocking_active, verdict, cached) == Route::ServeLocal,
{
}

/// While blocking is paused no query is answered as blocked.
pub proof fn paused_blocking_blocks_nothing(
    local_hit: bool,
    verdict: Option<u8>,
    cached: CacheState,
)
    ensures
        !(route_spec(local_hit, false, verdict, cached) is ServeBlocked),
{
}

/// A blocked query is answered as blocked by its list: it reaches neither
/// the cache nor an upstream.
pub proof fn blocked_query_never_forwarded(id: u8, cached: CacheState)
    ensures
        route_spec(false, true, Some(id), cached) == Route::ServeBlocked(id),
{
}

/// An answer cached at `now` under TTL `ttl` with grace `grace` is served
/// fresh until the TTL runs out, stale during the grace period, and resolved
/// again afterwards; the seconds reported left never exceed the TTL.
pub proof fn cache_timeline(now: u128, ttl: u32, grace: u64, t: u128)
    requires
        now <= crate::engine::state::max_duration_nanos(),
        t >= now,
    ensures
        ({
            let (v, s) = deadlines(now, ttl, grace);
            &&& t < v ==> (cache_state_at(t, v, s) matches CacheState::Fresh { ttl_remaining } && ttl_remaining <= ttl)
            &&& v <= t < s ==> cache_state_at(t, v, s) == CacheState::Stale { ttl_remaining: 0 }
            &&& s <= t ==> cache_state_at(t, v, s) == CacheState::Missing
        }),
{
    let (v, s) = deadlines(now, ttl, grace);
    if t < v {
        let g = (v - t) as u128;
        assert(g <= ttl * NANOS_PER_SEC);
        assert(g / NANOS_PER_SEC <= ttl) by (nonlinear_arith)
            requires
                g <= ttl * NANOS_PER_SEC,
                NANOS_PER_SEC == 1_000_000_000u128,
        ;
    }
}

} // verus!
