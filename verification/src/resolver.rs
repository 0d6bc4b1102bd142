//! Upstream resolver set-up: how an upstream URL becomes a name server, which
//! strategy serves several upstreams, and the round-robin order.
use crate::text::str_eq;
use vstd::prelude::*;
use vstd::string::StringExecFns;

verus! {

/// `url::ParseError`, why a text is not a URL (carried through, never read).
#[verifier::external_type_specification]
#[verifier::external_body]
pub struct ExUrlParseError(url::ParseError);

/// The parts of a parsed URL that the resolver reads: scheme, host text and
/// explicit port.
pub struct UrlParts {
    pub scheme: String,
    pub host: Option<String>,
    pub port: Option<u16>,
}

/// What `url::Url::parse` makes of a text, read as (scheme, host, port);
/// `None` when the text is not a URL.
pub uninterp spec fn url_parts(s: Seq<char>) -> Option<(Seq<char>, Option<Seq<char>>, Option<u16>)>;

/// The plain view of an optional text.
pub open spec fn opt_text(o: Option<String>) -> Option<Seq<char>> {
    match o {
        Some(s) => Some(s@),
        None => None,
    }
}

/// `url::Url::parse`, with `scheme()`, `host_str()` and `port()` of the result.
#[verifier::external_body]
fn parse_url(s: &str) -> (r: Result<UrlParts, url::ParseError>)
    ensures
        r is Ok == url_parts(s@) is Some,
        r matches Ok(p) ==> url_parts(s@) == Some((p.scheme@, opt_text(p.host), p.port)),
{
    match url::Url::parse(s) {
        Ok(u) => Ok(
            UrlParts {
                scheme: u.scheme().to_string(),
                host: u.host_str().map(|h| h.to_string()),
                port: u.port(),
            },
        ),
        Err(e) => Err(e),
    }
}

/// Transport of an upstream name server.
#[derive(Debug, Clone, Copy, PartialEq, Eq, Structural)]
pub enum Protocol {
    Udp,
    Tcp,
    Tls,
    Https,
    Quic,
    H3,
}

/// The transport named by a URL scheme; unknown schemes mean UDP.
pub open spec fn protocol_of(scheme: Seq<char>) -> Protocol {
    if scheme == "udp"@ {
        Protocol::Udp
    } else if scheme == "tcp"@ {
        Protocol::Tcp
    } else if scheme == "tls"@ {
        Protocol::Tls
    } else if scheme == "https"@ {
        Protocol::Https
    } else if scheme == "quic"@ {
        Protocol::Quic
    } else if scheme == "h3"@ {
        Protocol::H3
    } else {
        Protocol::Udp
    }
}

/// The transport named by a URL scheme; unknown schemes mean UDP.
pub fn protocol_for_scheme(scheme: &str) -> (p: Protocol)
    ensures
        p == protocol_of(scheme@),
{
    if str_eq(scheme, "udp") {
        Protocol::Udp
    } else if str_eq(scheme, "tcp") {
        Protocol::Tcp
    } else if str_eq(scheme, "tls") {
        Protocol::Tls
    } else if str_eq(scheme, "https") {
        Protocol::Https
    } else if str_eq(scheme, "quic") {
        Protocol::Quic
    } else if str_eq(scheme, "h3") {
        Protocol::H3
    } else {
        Protocol::Udp
    }
}

/// The well-known port of a transport.
pub open spec fn default_port_of(p: Protocol) -> u16 {
    match p {
        Protocol::Udp | Protocol::Tcp => 53,
        Protocol::Tls | Protocol::Quic => 853,
        Protocol::Https | Protocol::H3 => 443,
    }
}

/// The well-known port of a transport.
pub fn default_port(p: Protocol) -> (r: u16)
    ensures
        r == default_port_of(p),
{
    match p {
        Protocol::Udp | Protocol::Tcp => 53,
        Protocol::Tls | Protocol::Quic => 853,
        Protocol::Https | Protocol::H3 => 443,
    }
}

/// Whether the transport is encrypted and so needs the server's TLS name.
pub open spec fn is_encrypted(p: Protocol) -> bool {
    p == Protocol::Tls || p == Protocol::Https || p == Protocol::Quic || p == Protocol::H3
}

/// How to reach one upstream: transport, host text (an IP or a name to
/// bootstrap), port and TLS name.
pub struct UpstreamTarget {
    pub protocol: Protocol,
    pub host: String,
    pub port: u16,
    pub tls_name: Option<String>,
}

/// The target described by URL parts: the port defaults by transport, the
/// host to 0.0.0.0, and encrypted transports verify the host's name.
pub open spec fn target_matches(
    parts: (Seq<char>, Option<Seq<char>>, Option<u16>),
    t: UpstreamTarget,
) -> bool {
    let p = protocol_of(parts.0);
    let host = match parts.1 {
        Some(h) => h,
        None => "0.0.0.0"@,
    };
    &&& t.protocol == p
    &&& t.port == (match parts.2 {
        Some(port) => port,
        None => default_port_of(p),
    })
    &&& t.host@ == host
    &&& (if is_encrypted(p) {
        t.tls_name matches Some(n) && n@ == host
    } else {
        t.tls_name is None
    })
}

/// The target that parsed URL parts describe.
pub fn upstream_target(parts: &UrlParts) -> (t: UpstreamTarget)
    ensures
        target_matches((parts.scheme@, opt_text(parts.host), parts.port), t),
{
    let protocol = protocol_for_scheme(parts.scheme.as_str());
    let port = match parts.port {
        Some(p) => p,
        None => default_port(protocol),
    };
    let host = match &parts.host {
        Some(h) => h.clone(),
        None => String::from_str("0.0.0.0"),
    };
    let tls_name = match protocol {
        Protocol::Tls | Protocol::Https | Protocol::Quic | Protocol::H3 => Some(host.clone()),
        _ => None,
    };
    UpstreamTarget { protocol, host, port, tls_name }
}

/// Parses an upstream URL into the target to connect to.
pub fn plan_upstream(upstream_url: &str) -> (r: Result<UpstreamTarget, url::ParseError>)
    ensures
        r is Ok == url_parts(upstream_url@) is Some,
        r matches Ok(t) ==> target_matches(url_parts(upstream_url@)->0, t),
{
    match parse_url(upstream_url) {
        Ok(parts) => Ok(upstream_target(&parts)),
        Err(e) => Err(e),
    }
}

/// The upstream used when none is configured.
pub const DEFAULT_UPSTREAM: &'static str = "h3://dns.google/dns-query";

/// The upstream URLs to set up, and whether they are the built-in default
/// (whose failure is fatal) rather than the configured list (whose bad
/// entries are skipped).
pub fn resolver_urls(servers: &Vec<String>) -> (r: (Vec<String>, bool))
    ensures
        servers@.len() == 0 ==> r.1 && r.0@.len() == 1 && r.0@[0]@ == DEFAULT_UPSTREAM@,
        servers@.len() > 0 ==> !r.1 && r.0@ == servers@,
{
    if servers.len() == 0 {
        (vec![String::from_str(DEFAULT_UPSTREAM)], true)
    } else {
        (servers.clone(), false)
    }
}

/// How several upstreams share the queries.
#[derive(Debug, Clone, Copy, PartialEq, Eq, Structural)]
pub enum ResolverKind {
    /// The one upstream.
    Single,
    /// Each upstream in turn until one answers.
    Sequential,
    /// Like sequential, from a start that rotates per query.
    RoundRobin,
    /// All upstreams at once; the first answer wins.
    Parallel,
}

/// The strategy for `n` working upstreams under a policy name; `None` with
/// no upstream. Unknown policy names fall back to parallel.
pub open spec fn resolver_kind_of(n: nat, policy: Seq<char>) -> Option<ResolverKind> {
    if n == 0 {
        None
    } else if n == 1 {
        Some(ResolverKind::Single)
    } else if policy == "sequential"@ {
        Some(ResolverKind::Sequential)
    } else if policy == "round-robin"@ {
        Some(ResolverKind::RoundRobin)
    } else {
        Some(ResolverKind::Parallel)
    }
}

/// Whether the policy name is one of "sequential", "round-robin", "parallel".
pub open spec fn known_policy(policy: Seq<char>) -> bool {
    policy == "sequential"@ || policy == "round-robin"@ || policy == "parallel"@
}

/// The strategy for `n` working upstreams, and whether the policy name was
/// recognised (an unrecognised one is reported before falling back).
pub fn select_resolver(n: usize, policy: &str) -> (r: Option<(ResolverKind, bool)>)
    ensures
        r is Some == resolver_kind_of(n as nat, policy@) is Some,
        r matches Some(c) ==> Some(c.0) == resolver_kind_of(n as nat, policy@) && c.1 == known_policy(
            policy@,
        ),
{
    let known = str_eq(policy, "sequential") || str_eq(policy, "round-robin") || str_eq(
        policy,
        "parallel",
    );
    if n == 0 {
        None
    } else if n == 1 {
        Some((ResolverKind::Single, known))
    } else if str_eq(policy, "sequential") {
        Some((ResolverKind::Sequential, known))
    } else if str_eq(policy, "round-robin") {
        Some((ResolverKind::RoundRobin, known))
    } else {
        Some((ResolverKind::Parallel, known))
    }
}

/// The order in which a round-robin resolver tries `n` upstreams for the
/// query whose turn counter is `counter`.
pub open spec fn rr_order(counter: nat, n: nat, i: int) -> int {
    ((counter % n) + i) % (n as int)
}

/// The upstream indices to try, in order.
pub fn round_robin_order(counter: usize, n: usize) -> (r: Vec<usize>)
    requires
        n > 0,
    ensures
        r@.len() == n,
        forall|i: int| 0 <= i < n ==> #[trigger] r@[i] == rr_order(counter as nat, n as nat, i),
{
    let start = counter % n;
    let mut out: Vec<usize> = Vec::new();
    for i in 0..n
        invariant
            start == counter % n,
            n > 0,
            out@.len() == i,
            forall|k: int| 0 <= k < i ==> #[trigger] out@[k] == rr_order(counter as nat, n as nat, k),
    {
        let idx = ((start as u128 + i as u128) % (n as u128)) as usize;
        out.push(idx);
    }
    out
}

/// The turn counter after a query: it wraps around like `AtomicUsize::fetch_add`.
pub fn next_turn(counter: usize) -> (r: usize)
    ensures
        r == vstd::wrapping::usize_specs::wrapping_add(counter, 1),
{
    counter.wrapping_add(1)
}

/// Every upstream is tried exactly once per query, starting with the one
/// whose turn it is.
pub proof fn round_robin_tries_each_once(counter: nat, n: nat)
    requires
        n > 0,
    ensures
        rr_order(counter, n, 0) == counter % n,
        forall|i: int| 0 <= i < n ==> 0 <= #[trigger] rr_order(counter, n, i) < n,
        forall|i: int, j: int|
            0 <= i < j < n ==> #[trigger] rr_order(counter, n, i) != #[trigger] rr_order(counter, n, j),
{
    let s = (counter % n) as int;
    assert forall|i: int, j: int| 0 <= i < j < n implies #[trigger] rr_order(counter, n, i) != #[trigger] rr_order(counter, n, j) by {
        let ni = n as int;
        assert(0 <= s < ni);
        if (s + i) % ni == (s + j) % ni {
            vstd::arithmetic::div_mod::lemma_fundamental_div_mod(s + i, ni);
            vstd::arithmetic::div_mod::lemma_fundamental_div_mod(s + j, ni);
            assert(0 <= s + i < 2 * ni);
            assert(0 <= s + j < 2 * ni);
            if s + i < ni {
                vstd::arithmetic::div_mod::lemma_small_mod((s + i) as nat, n);
                if s + j < ni {
                    vstd::arithmetic::div_mod::lemma_small_mod((s + j) as nat, n);
                } else {
                    vstd::arithmetic::div_mod::lemma_mod_sub_multiples_vanish(s + j, ni);
                    vstd::arithmetic::div_mod::lemma_small_mod((s + j - ni) as nat, n);
                }
            } else {
                vstd::arithmetic::div_mod::lemma_mod_sub_multiples_vanish(s + i, ni);
                vstd::arithmetic::div_mod::lemma_small_mod((s + i - ni) as nat, n);
                vstd::arithmetic::div_mod::lemma_mod_sub_multiples_vanish(s + j, ni);
                vstd::arithmetic::div_mod::lemma_small_mod((s + j - ni) as nat, n);
            }
        }
    }
    vstd::arithmetic::div_mod::lemma_small_mod(s as nat, n);
}

} // verus!
