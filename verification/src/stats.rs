//! Query statistics: counters, per-client and per-domain tallies, and the
//! snapshot that the API serves.
use crate::engine::state::MonotonicClock;
use dashmap::DashMap;
use std::sync::Arc;
use std::time::{Duration, SystemTime, SystemTimeError, UNIX_EPOCH};
use vstd::prelude::*;
use vstd::string::StringExecFns;

verus! {

/// One row of a top list: a client or domain and its number of queries.
#[derive(Debug, Clone)]
pub struct TopItem {
    pub name: String,
    pub count: u64,
}

/// The statistics that the API reports.
#[derive(Debug)]
pub struct StatsSnapshot {
    pub total_queries: u64,
    pub blocked_queries: u64,
    pub cache_hits: u64,
    pub top_clients: Vec<TopItem>,
    pub top_blocked_clients: Vec<TopItem>,
    pub top_domains: Vec<TopItem>,
    pub top_blocked_domains: Vec<TopItem>,
    pub started_at: u64,
    pub updated_at: u64,
}

/// `dashmap::DashMap`, the concurrent map that holds the tallies.
#[verifier::external_type_specification]
#[verifier::external_body]
#[verifier::reject_recursive_types(K)]
#[verifier::reject_recursive_types(V)]
#[verifier::reject_recursive_types(S)]
pub struct ExDashMap<K, V, S>(DashMap<K, V, S>);

/// What a map of tallies holds: each name's text with its count.
pub uninterp spec fn count_map_entries(m: DashMap<Arc<str>, u64>) -> Map<Seq<char>, u64>;

/// `DashMap::new`: an empty map.
#[verifier::external_body]
fn new_count_map() -> (map: DashMap<Arc<str>, u64>)
    ensures
        count_map_entries(map) =~= Map::empty(),
{
    DashMap::new()
}

/// `DashMap::get`, with the count copied out of the guard it returns.
#[verifier::external_body]
fn count_map_get(map: &DashMap<Arc<str>, u64>, name: &str) -> (found: Option<u64>)
    ensures
        found.is_some() == count_map_entries(*map).contains_key(name@),
        found.is_some() ==> found.unwrap() == count_map_entries(*map)[name@],
{
    match map.get(name) {
        Some(entry) => Some(*entry.value()),
        None => None,
    }
}

/// `DashMap::insert`: the name maps to `count` afterwards, others keep theirs.
#[verifier::external_body]
fn count_map_insert(map: &mut DashMap<Arc<str>, u64>, name: &str, count: u64)
    ensures
        count_map_entries(*final(map)) == count_map_entries(*old(map)).insert(name@, count),
{
    map.insert(Arc::from(name), count);
}

/// `DashMap::iter`, each entry copied out as a `TopItem`: every entry once,
/// in the order of the map's shards and buckets.
#[verifier::external_body]
fn count_map_items(map: &DashMap<Arc<str>, u64>) -> (items: Vec<TopItem>)
    ensures
        forall|i: int|
            0 <= i < items@.len() ==> count_map_entries(*map).contains_key(
                (#[trigger] items@[i]).name@,
            ) && count_map_entries(*map)[items@[i].name@] == items@[i].count,
        forall|k: Seq<char>|
            count_map_entries(*map).contains_key(k) ==> exists|i: int|
                0 <= i < items@.len() && (#[trigger] items@[i]).name@ == k,
        forall|i: int, j: int|
            0 <= i < items@.len() && 0 <= j < items@.len() && i != j ==> (#[trigger] items@[i]).name@
                != (#[trigger] items@[j]).name@,
{
    map.iter().map(|entry| TopItem { name: entry.key().to_string(), count: *entry.value() }).collect()
}

/// Tallies of queries per client or per domain.
pub struct CountTable {
    map: DashMap<Arc<str>, u64>,
}

impl View for CountTable {
    type V = Map<Seq<char>, u64>;

    closed spec fn view(&self) -> Map<Seq<char>, u64> {
        count_map_entries(self.map)
    }
}

impl CountTable {
    /// An empty table.
    pub fn new() -> (table: CountTable)
        ensures
            table@ == Map::<Seq<char>, u64>::empty(),
    {
        CountTable { map: new_count_map() }
    }

    /// The count of `name`: 0 for a name never counted.
    pub open spec fn count_of(&self, name: Seq<char>) -> u64 {
        if self@.contains_key(name) {
            self@[name]
        } else {
            0
        }
    }

    /// The count of `name`: 0 for a name never counted.
    pub fn count(&self, name: &str) -> (r: u64)
        ensures
            r == self.count_of(name@),
    {
        match count_map_get(&self.map, name) {
            Some(c) => c,
            None => 0,
        }
    }

    /// Adds one to the count of `name`, which starts at 0.
    pub fn increment(&mut self, name: &str)
        requires
            old(self).count_of(name@) < u64::MAX,
        ensures
            final(self)@ == old(self)@.insert(name@, (old(self).count_of(name@) + 1) as u64),
    {
        let c = self.count(name);
        count_map_insert(&mut self.map, name, c + 1);
    }

    /// The `k` names with the highest counts, highest first.
    pub fn top_k(&self, k: usize) -> (r: Vec<TopItem>)
        ensures
            top_k_of(self@, k as int, r@),
    {
        let items = count_map_items(&self.map);
        top_by_count(items, k, Ghost(self@))
    }
}

/// Every item names an entry of `c` with its count.
pub open spec fn items_in(c: Map<Seq<char>, u64>, s: Seq<TopItem>) -> bool {
    forall|a: int| 0 <= a < s.len() ==> c.contains_key((#[trigger] s[a]).name@) && c[s[a].name@] == s[a].count
}

/// No two items share a name.
pub open spec fn names_unique(s: Seq<TopItem>) -> bool {
    forall|a: int, b: int|
        0 <= a < s.len() && 0 <= b < s.len() && a != b ==> (#[trigger] s[a]).name@ != (#[trigger] s[b]).name@
}

/// Every key of `c` is the name of some item.
pub open spec fn covers_keys(c: Map<Seq<char>, u64>, s: Seq<TopItem>) -> bool {
    forall|key: Seq<char>| c.contains_key(key) ==> exists|a: int| 0 <= a < s.len() && (#[trigger] s[a]).name@ == key
}

/// Counts never increase along the sequence.
pub open spec fn counts_descending(s: Seq<TopItem>) -> bool {
    forall|i: int, j: int| 0 <= i < j < s.len() ==> (#[trigger] s[i]).count >= (#[trigger] s[j]).count
}

/// Each item has the name of one of the first `i` items of `src`.
pub open spec fn item_names_from(s: Seq<TopItem>, src: Seq<TopItem>, i: int) -> bool {
    forall|a: int| 0 <= a < s.len() ==> exists|b: int| 0 <= b < i && (#[trigger] s[a]).name@ == (#[trigger] src[b]).name@
}

/// The names of the first `i` items of `src` all occur.
pub open spec fn item_names_cover(s: Seq<TopItem>, src: Seq<TopItem>, i: int) -> bool {
    forall|b: int| 0 <= b < i ==> exists|a: int| 0 <= a < s.len() && (#[trigger] s[a]).name@ == (#[trigger] src[b]).name@
}

/// Inserts `x` after every item that counts at least as much (so equal
/// counts keep their arrival order).
fn insert_by_count(out: &mut Vec<TopItem>, x: TopItem) -> (pos: Ghost<int>)
    requires
        counts_descending(old(out)@),
    ensures
        counts_descending(final(out)@),
        0 <= pos@ <= old(out)@.len(),
        final(out)@ == old(out)@.insert(pos@, x),
{
    let mut p: usize = 0;
    while p < out.len() && out[p].count >= x.count
        invariant
            p <= out@.len(),
            out@ == old(out)@,
            forall|a: int| 0 <= a < p ==> (#[trigger] out@[a]).count >= x.count,
        decreases out@.len() - p,
    {
        p = p + 1;
    }
    let ghost prev = out@;
    out.insert(p, x);
    proof {
        let q = p as int;
        assert forall|a: int, b: int| 0 <= a < b < out@.len() implies (#[trigger] out@[a]).count >= (
        #[trigger] out@[b]).count by {
            if a < q && b == q {
                assert(out@[a] == prev[a]);
            } else if a < q && b > q {
                assert(out@[a] == prev[a]);
                assert(out@[b] == prev[b - 1]);
            } else if a == q && b > q {
                assert(out@[b] == prev[b - 1]);
                assert(prev[q].count < x.count);
            } else if a > q {
                assert(out@[a] == prev[a - 1]);
                assert(out@[b] == prev[b - 1]);
            } else {
                assert(out@[a] == prev[a]);
                assert(out@[b] == prev[b]);
            }
        }
    }
    Ghost(p as int)
}

/// The items among the first `i` of `src` that `s` leaves out count no
/// more than any item that `s` keeps.
pub open spec fn left_out_below(s: Seq<TopItem>, src: Seq<TopItem>, i: int) -> bool {
    forall|b: int, a: int|
        #![trigger src[b], s[a]]
        0 <= b < i && 0 <= a < s.len() && !lists_name(s, src[b].name@) ==> src[b].count
            <= s[a].count
}

/// One step of keeping the top `k`: insert the next item by count, then
/// drop the last item if there are more than `k`.
proof fn keep_step(
    c: Map<Seq<char>, u64>,
    src: Seq<TopItem>,
    prev: Seq<TopItem>,
    p: int,
    x: TopItem,
    i: int,
    k: int,
    out: Seq<TopItem>,
)
    requires
        0 <= i < src.len(),
        x == src[i],
        items_in(c, src),
        names_unique(src),
        prev.len() <= k,
        items_in(c, prev),
        names_unique(prev),
        item_names_from(prev, src, i),
        prev.len() < k ==> item_names_cover(prev, src, i),
        left_out_below(prev, src, i),
        0 <= p <= prev.len(),
        counts_descending(prev.insert(p, x)),
        out == (if prev.len() + 1 > k {
            prev.insert(p, x).drop_last()
        } else {
            prev.insert(p, x)
        }),
    ensures
        out.len() <= k,
        counts_descending(out),
        items_in(c, out),
        names_unique(out),
        item_names_from(out, src, i + 1),
        out.len() < k ==> item_names_cover(out, src, i + 1),
        left_out_below(out, src, i + 1),
{
    let mid = prev.insert(p, x);
    let dropped = prev.len() + 1 > k;
    assert(mid.len() == prev.len() + 1);
    assert(forall|a: int| 0 <= a < p ==> #[trigger] mid[a] == prev[a]);
    assert(forall|a: int| p < a < mid.len() ==> #[trigger] mid[a] == prev[a - 1]);
    assert(mid[p] == x);
    assert(forall|a: int| 0 <= a < out.len() ==> #[trigger] out[a] == mid[a]);
    assert forall|a: int| 0 <= a < prev.len() implies (#[trigger] prev[a]).name@ != x.name@ by {
        let b = choose|b: int| 0 <= b < i && (#[trigger] prev[a]).name@ == (#[trigger] src[b]).name@;
        assert(src[b].name@ != src[i].name@);
    }
    assert(c.contains_key(src[i].name@));
    assert forall|a: int| 0 <= a < mid.len() implies c.contains_key((#[trigger] mid[a]).name@)
        && c[mid[a].name@] == mid[a].count by {
        if a > p {
            assert(mid[a] == prev[a - 1]);
        } else if a < p {
            assert(mid[a] == prev[a]);
        }
    }
    assert forall|a: int, b: int|
        0 <= a < mid.len() && 0 <= b < mid.len() && a != b implies (#[trigger] mid[a]).name@
        != (#[trigger] mid[b]).name@ by {
        if a != p && b != p {
            let a1 = if a < p { a } else { a - 1 };
            let b1 = if b < p { b } else { b - 1 };
            assert(mid[a] == prev[a1]);
            assert(mid[b] == prev[b1]);
        } else if a == p {
            let b1 = if b < p { b } else { b - 1 };
            assert(mid[b] == prev[b1]);
        } else {
            let a1 = if a < p { a } else { a - 1 };
            assert(mid[a] == prev[a1]);
        }
    }
    assert forall|a: int| 0 <= a < mid.len() implies exists|b: int|
        0 <= b < i + 1 && (#[trigger] mid[a]).name@ == (#[trigger] src[b]).name@ by {
        if a == p {
            assert(mid[a].name@ == src[i].name@);
        } else {
            let a1 = if a < p { a } else { a - 1 };
            assert(mid[a] == prev[a1]);
            let b = choose|b: int| 0 <= b < i && (#[trigger] prev[a1]).name@ == (#[trigger] src[b]).name@;
            assert(mid[a].name@ == src[b].name@);
        }
    }
    // The dropped item, if any, counts no more than any kept one.
    assert forall|a: int| 0 <= a < mid.len() implies (#[trigger] mid[a]).count >= mid[mid.len() - 1].count by {
        if a < mid.len() - 1 {
            assert(mid[a].count >= mid[mid.len() - 1].count);
        }
    }
    if out.len() < k {
        assert(!dropped);
        assert(prev.len() < k);
        assert forall|b: int| 0 <= b < i + 1 implies exists|a: int|
            0 <= a < out.len() && (#[trigger] out[a]).name@ == (#[trigger] src[b]).name@ by {
            if b == i {
                assert(out[p].name@ == src[b].name@);
            } else {
                let d = choose|d: int| 0 <= d < prev.len() && (#[trigger] prev[d]).name@ == (#[trigger] src[b]).name@;
                if d < p {
                    assert(out[d] == prev[d]);
                } else {
                    assert(out[d + 1] == prev[d]);
                }
            }
        }
    }
    assert forall|b: int, a: int|
        #![trigger src[b], out[a]]
        0 <= b < i + 1 && 0 <= a < out.len() && !lists_name(out, src[b].name@) implies src[b].count
        <= out[a].count by {
        assert(out[a] == mid[a]);
        let last = mid.len() - 1;
        if b == i {
            // Left out, so x was the dropped last item.
            if p < out.len() {
                assert(out[p] == x);
                assert(false);
            }
            assert(p == last);
            assert(mid[a].count >= mid[last].count);
        } else if lists_name(prev, src[b].name@) {
            let d = choose|d: int| 0 <= d < prev.len() && (#[trigger] prev[d]).name@ == src[b].name@;
            let m = if d < p { d } else { d + 1 };
            assert(mid[m] == prev[d]);
            if m < out.len() {
                assert(out[m] == mid[m]);
                assert(false);
            }
            assert(m == last);
            assert(c[src[b].name@] == src[b].count);
            assert(c[prev[d].name@] == prev[d].count);
            assert(mid[a].count >= mid[last].count);
        } else {
            if !dropped {
                assert(prev.len() < k);
                assert(item_names_cover(prev, src, i));
                let d = choose|d: int| 0 <= d < prev.len() && (#[trigger] prev[d]).name@ == (#[trigger] src[b]).name@;
                assert(lists_name(prev, src[b].name@));
            }
            assert(dropped);
            if a == p {
                // x is kept, so the dropped item is a former one that x outranks.
                assert(p < last);
                assert(mid[last] == prev[last - 1]);
                assert(src[b].count <= prev[last - 1].count);
                assert(mid[p].count >= mid[last].count);
            } else {
                let a1 = if a < p { a } else { a - 1 };
                assert(mid[a] == prev[a1]);
                assert(src[b].count <= prev[a1].count);
            }
        }
    }
}

/// The `k` items with the highest counts, highest first: each item is
/// inserted after those counting at least as much, and the list is cut
/// back to `k` after each insertion.
fn top_by_count(items: Vec<TopItem>, k: usize, Ghost(c): Ghost<Map<Seq<char>, u64>>) -> (r: Vec<
    TopItem,
>)
    requires
        items_in(c, items@),
        names_unique(items@),
        covers_keys(c, items@),
    ensures
        top_k_of(c, k as int, r@),
{
    let mut out: Vec<TopItem> = Vec::new();
    let n = items.len();
    let ghost src = items@;
    for i in 0..n
        invariant
            n == src.len(),
            src == items@,
            items_in(c, src),
            names_unique(src),
            out@.len() <= k,
            counts_descending(out@),
            items_in(c, out@),
            names_unique(out@),
            item_names_from(out@, src, i as int),
            out@.len() < k ==> item_names_cover(out@, src, i as int),
            left_out_below(out@, src, i as int),
    {
        let x = TopItem { name: items[i].name.clone(), count: items[i].count };
        let ghost prev = out@;
        let ghost gx = x;
        assert(gx == src[i as int]);
        let p = insert_by_count(&mut out, x);
        if out.len() > k {
            out.pop();
        }
        proof {
            keep_step(c, src, prev, p@, gx, i as int, k as int, out@);
        }
    }
    proof {
        let r = out@;
        assert forall|key: Seq<char>| r.len() < k && c.contains_key(key) implies exists|a: int|
            0 <= a < r.len() && (#[trigger] r[a]).name@ == key by {
            let b = choose|b: int| 0 <= b < src.len() && (#[trigger] src[b]).name@ == key;
            let a = choose|a: int| 0 <= a < r.len() && (#[trigger] r[a]).name@ == (#[trigger] src[b]).name@;
        }
        assert forall|key: Seq<char>, i: int|
            #![trigger c[key], r[i]]
            c.contains_key(key) && 0 <= i < r.len() && !lists_name(r, key) implies c[key]
                <= r[i].count by {
            let b = choose|b: int| 0 <= b < src.len() && (#[trigger] src[b]).name@ == key;
            assert(src[b].count <= r[i].count);
        }
    }
    out
}

/// `r` lists the top `k` entries of `c`: non-increasing counts, true counts,
/// distinct names, `k` of them unless fewer exist, and nothing left out that
/// counts more than a listed one.
pub open spec fn top_k_of(c: Map<Seq<char>, u64>, k: int, r: Seq<TopItem>) -> bool {
    &&& r.len() <= k
    &&& forall|i: int, j: int| 0 <= i < j < r.len() ==> (#[trigger] r[i]).count >= (#[trigger] r[j]).count
    &&& forall|i: int|
        0 <= i < r.len() ==> c.contains_key((#[trigger] r[i]).name@) && c[r[i].name@] == r[i].count
    &&& forall|i: int, j: int|
        0 <= i < r.len() && 0 <= j < r.len() && i != j ==> (#[trigger] r[i]).name@ != (
        #[trigger] r[j]).name@
    &&& r.len() < k ==> forall|key: Seq<char>|
        c.contains_key(key) ==> exists|i: int| 0 <= i < r.len() && (#[trigger] r[i]).name@ == key
    &&& forall|key: Seq<char>, i: int|
        #![trigger c[key], r[i]]
        c.contains_key(key) && 0 <= i < r.len() && !lists_name(r, key) ==> c[key] <= r[i].count
}

/// Some item of `r` has the name `key`.
pub open spec fn lists_name(r: Seq<TopItem>, key: Seq<char>) -> bool {
    exists|j: int| 0 <= j < r.len() && (#[trigger] r[j]).name@ == key
}

/// `std::time::SystemTime`, a reading of the system clock (opaque here).
#[verifier::external_type_specification]
#[verifier::external_body]
pub struct ExSystemTime(SystemTime);

/// `std::time::SystemTimeError`, a clock reading earlier than the epoch asked about.
#[verifier::external_type_specification]
#[verifier::external_body]
pub struct ExSystemTimeError(SystemTimeError);

/// `SystemTime::now`: a reading of the system clock.
#[verifier::external_body]
fn system_now() -> SystemTime {
    SystemTime::now()
}

/// `SystemTime::duration_since(UNIX_EPOCH)`: the time since the Unix epoch,
/// or an error when the reading is earlier than the epoch.
#[verifier::external_body]
fn since_unix_epoch(t: &SystemTime) -> Result<Duration, SystemTimeError> {
    t.duration_since(UNIX_EPOCH)
}

/// `Duration::as_secs`: the whole seconds of a duration.
#[verifier::external_body]
fn duration_secs(d: &Duration) -> u64 {
    d.as_secs()
}

/// Seconds since the Unix epoch on the system clock; 0 when the clock reads
/// earlier than the epoch.
fn unix_now_secs() -> u64 {
    match since_unix_epoch(&system_now()) {
        Ok(d) => duration_secs(&d),
        Err(_) => 0,
    }
}

/// Number of per-blocklist counters: one for each possible source id.
pub const SOURCE_SLOTS: usize = 256;

/// Number of upstream latency slots.
pub const UPSTREAM_SLOTS: usize = 16;

/// Live query statistics.
pub struct StatsCollector {
    total_queries: u64,
    blocked_queries: u64,
    cache_hits: u64,
    client_queries: CountTable,
    client_blocks: CountTable,
    domain_queries: CountTable,
    domain_blocks: CountTable,
    blocks_by_source: [u64; 256],
    upstream_total_ms: [u64; 16],
    upstream_count: [u64; 16],
    upstream_names: Vec<String>,
    blocklist_names: Vec<String>,
    started_at: MonotonicClock,
    log_interval_secs: u64,
}

/// A collector has one block counter per possible source id and sixteen
/// upstream latency slots.
pub open spec fn slots_sized(s: StatsCollector) -> bool {
    &&& s.source_blocks().len() == SOURCE_SLOTS
    &&& s.upstream_ms().len() == UPSTREAM_SLOTS
    &&& s.upstream_calls().len() == UPSTREAM_SLOTS
}

/// Every collector has its fixed number of slots.
pub proof fn stats_slots_sized(s: StatsCollector)
    ensures
        slots_sized(s),
{
}

/// The four tallies of `b` are those of `a`.
pub open spec fn tallies_same(a: StatsCollector, b: StatsCollector) -> bool {
    &&& b.clients() == a.clients()
    &&& b.blocked_clients() == a.blocked_clients()
    &&& b.domains() == a.domains()
    &&& b.blocked_domains() == a.blocked_domains()
}

/// The upstream latency slots of `b` are those of `a`.
pub open spec fn latency_same(a: StatsCollector, b: StatsCollector) -> bool {
    b.upstream_ms() == a.upstream_ms() && b.upstream_calls() == a.upstream_calls()
}

/// The counters of `b` (queries, blocks, cache hits, blocks per list) are those of `a`.
pub open spec fn counters_same(a: StatsCollector, b: StatsCollector) -> bool {
    &&& b.total() == a.total()
    &&& b.blocked() == a.blocked()
    &&& b.hits() == a.hits()
    &&& b.source_blocks() == a.source_blocks()
}

/// The names and the dump interval of `b` are those of `a`.
pub open spec fn setup_same(a: StatsCollector, b: StatsCollector) -> bool {
    &&& b.upstream_names_spec() == a.upstream_names_spec()
    &&& b.blocklist_names_spec() == a.blocklist_names_spec()
    &&& b.log_interval_spec() == a.log_interval_spec()
}

/// A counter that wraps around at 2^64, as an atomic `fetch_add` does.
pub open spec fn bumped(x: u64, by: u64) -> u64 {
    vstd::wrapping::u64_specs::wrapping_add(x, by)
}

impl StatsCollector {
    pub closed spec fn total(&self) -> u64 {
        self.total_queries
    }

    pub closed spec fn blocked(&self) -> u64 {
        self.blocked_queries
    }

    pub closed spec fn hits(&self) -> u64 {
        self.cache_hits
    }

    pub closed spec fn clients(&self) -> CountTable {
        self.client_queries
    }

    pub closed spec fn blocked_clients(&self) -> CountTable {
        self.client_blocks
    }

    pub closed spec fn domains(&self) -> CountTable {
        self.domain_queries
    }

    pub closed spec fn blocked_domains(&self) -> CountTable {
        self.domain_blocks
    }

    /// Blocks counted for each source id.
    pub closed spec fn source_blocks(&self) -> Seq<u64> {
        self.blocks_by_source@
    }

    /// Total milliseconds recorded for each upstream slot.
    pub closed spec fn upstream_ms(&self) -> Seq<u64> {
        self.upstream_total_ms@
    }

    /// Number of latencies recorded for each upstream slot.
    pub closed spec fn upstream_calls(&self) -> Seq<u64> {
        self.upstream_count@
    }

    pub closed spec fn upstream_names_spec(&self) -> Seq<String> {
        self.upstream_names@
    }

    pub closed spec fn blocklist_names_spec(&self) -> Seq<String> {
        self.blocklist_names@
    }

    pub closed spec fn log_interval_spec(&self) -> u64 {
        self.log_interval_secs
    }

    /// A collector with every counter at zero.
    pub fn new(log_interval_sec: u64, upstream_names: Vec<String>, blocklist_names: Vec<String>) -> (s:
        Self)
        ensures
            s.total() == 0 && s.blocked() == 0 && s.hits() == 0,
            s.clients()@ == Map::<Seq<char>, u64>::empty(),
            s.blocked_clients()@ == Map::<Seq<char>, u64>::empty(),
            s.domains()@ == Map::<Seq<char>, u64>::empty(),
            s.blocked_domains()@ == Map::<Seq<char>, u64>::empty(),
            s.source_blocks() == Seq::new(SOURCE_SLOTS as nat, |i: int| 0u64),
            s.upstream_ms() == Seq::new(UPSTREAM_SLOTS as nat, |i: int| 0u64),
            s.upstream_calls() == Seq::new(UPSTREAM_SLOTS as nat, |i: int| 0u64),
            s.upstream_names_spec() == upstream_names@,
            s.blocklist_names_spec() == blocklist_names@,
            s.log_interval_spec() == log_interval_sec,
    {
        let blocks_by_source = [0u64; 256];
        let upstream_total_ms = [0u64; 16];
        let upstream_count = [0u64; 16];
        assert(blocks_by_source@ =~= Seq::new(SOURCE_SLOTS as nat, |i: int| 0u64));
        assert(upstream_total_ms@ =~= Seq::new(UPSTREAM_SLOTS as nat, |i: int| 0u64));
        assert(upstream_count@ =~= Seq::new(UPSTREAM_SLOTS as nat, |i: int| 0u64));
        StatsCollector {
            total_queries: 0,
            blocked_queries: 0,
            cache_hits: 0,
            client_queries: CountTable::new(),
            client_blocks: CountTable::new(),
            domain_queries: CountTable::new(),
            domain_blocks: CountTable::new(),
            blocks_by_source,
            upstream_total_ms,
            upstream_count,
            upstream_names,
            blocklist_names,
            started_at: MonotonicClock::new(),
            log_interval_secs: log_interval_sec,
        }
    }

    pub fn inc_queries(&mut self)
        ensures
            slots_sized(*old(self)),
            slots_sized(*final(self)),
            final(self).total() == bumped(old(self).total(), 1),
            final(self).blocked() == old(self).blocked(),
            final(self).hits() == old(self).hits(),
            final(self).source_blocks() == old(self).source_blocks(),
            tallies_same(*old(self), *final(self)),
            latency_same(*old(self), *final(self)),
            setup_same(*old(self), *final(self)),
    {
        self.total_queries = self.total_queries.wrapping_add(1);
    }

    pub fn inc_blocked(&mut self)
        ensures
            slots_sized(*old(self)),
            slots_sized(*final(self)),
            final(self).blocked() == bumped(old(self).blocked(), 1),
            final(self).total() == old(self).total(),
            final(self).hits() == old(self).hits(),
            final(self).source_blocks() == old(self).source_blocks(),
            tallies_same(*old(self), *final(self)),
            latency_same(*old(self), *final(self)),
            setup_same(*old(self), *final(self)),
    {
        self.blocked_queries = self.blocked_queries.wrapping_add(1);
    }

    pub fn inc_cache_hit(&mut self)
        ensures
            slots_sized(*old(self)),
            slots_sized(*final(self)),
            final(self).hits() == bumped(old(self).hits(), 1),
            final(self).total() == old(self).total(),
            final(self).blocked() == old(self).blocked(),
            final(self).source_blocks() == old(self).source_blocks(),
            tallies_same(*old(self), *final(self)),
            latency_same(*old(self), *final(self)),
            setup_same(*old(self), *final(self)),
    {
        self.cache_hits = self.cache_hits.wrapping_add(1);
    }

    /// Counts a block, both overall and for the list with id `source_id`.
    pub fn inc_blocked_by_source(&mut self, source_id: u8)
        ensures
            slots_sized(*old(self)),
            slots_sized(*final(self)),
            final(self).blocked() == bumped(old(self).blocked(), 1),
            final(self).source_blocks() == old(self).source_blocks().update(
                source_id as int,
                bumped(old(self).source_blocks()[source_id as int], 1),
            ),
            final(self).total() == old(self).total(),
            final(self).hits() == old(self).hits(),
            tallies_same(*old(self), *final(self)),
            latency_same(*old(self), *final(self)),
            setup_same(*old(self), *final(self)),
    {
        self.inc_blocked();
        let i = source_id as usize;
        let v = self.blocks_by_source[i].wrapping_add(1);
        self.blocks_by_source[i] = v;
    }

    /// The per-client query tallies.
    pub fn client_query_table(&self) -> (r: &CountTable)
        ensures
            *r == self.clients(),
    {
        &self.client_queries
    }

    /// The per-client block tallies.
    pub fn client_block_table(&self) -> (r: &CountTable)
        ensures
            *r == self.blocked_clients(),
    {
        &self.client_blocks
    }

    /// The per-domain query tallies.
    pub fn domain_query_table(&self) -> (r: &CountTable)
        ensures
            *r == self.domains(),
    {
        &self.domain_queries
    }

    /// The per-domain block tallies.
    pub fn domain_block_table(&self) -> (r: &CountTable)
        ensures
            *r == self.blocked_domains(),
    {
        &self.domain_blocks
    }

    pub fn inc_client_query(&mut self, client: &str)
        requires
            old(self).clients().count_of(client@) < u64::MAX,
        ensures
            slots_sized(*old(self)),
            slots_sized(*final(self)),
            final(self).clients()@ == old(self).clients()@.insert(
                client@,
                (old(self).clients().count_of(client@) + 1) as u64,
            ),
            final(self).blocked_clients() == old(self).blocked_clients(),
            final(self).domains() == old(self).domains(),
            final(self).blocked_domains() == old(self).blocked_domains(),
            counters_same(*old(self), *final(self)),
            latency_same(*old(self), *final(self)),
            setup_same(*old(self), *final(self)),
    {
        self.client_queries.increment(client);
    }

    pub fn inc_client_block(&mut self, client: &str)
        requires
            old(self).blocked_clients().count_of(client@) < u64::MAX,
        ensures
            slots_sized(*old(self)),
            slots_sized(*final(self)),
            final(self).blocked_clients()@ == old(self).blocked_clients()@.insert(
                client@,
                (old(self).blocked_clients().count_of(client@) + 1) as u64,
            ),
            final(self).clients() == old(self).clients(),
            final(self).domains() == old(self).domains(),
            final(self).blocked_domains() == old(self).blocked_domains(),
            counters_same(*old(self), *final(self)),
            latency_same(*old(self), *final(self)),
            setup_same(*old(self), *final(self)),
    {
        self.client_blocks.increment(client);
    }

    pub fn inc_domain_query(&mut self, domain: &str)
        requires
            old(self).domains().count_of(domain@) < u64::MAX,
        ensures
            slots_sized(*old(self)),
            slots_sized(*final(self)),
            final(self).domains()@ == old(self).domains()@.insert(
                domain@,
                (old(self).domains().count_of(domain@) + 1) as u64,
            ),
            final(self).clients() == old(self).clients(),
            final(self).blocked_clients() == old(self).blocked_clients(),
            final(self).blocked_domains() == old(self).blocked_domains(),
            counters_same(*old(self), *final(self)),
            latency_same(*old(self), *final(self)),
            setup_same(*old(self), *final(self)),
    {
        self.domain_queries.increment(domain);
    }

    pub fn inc_domain_block(&mut self, domain: &str)
        requires
            old(self).blocked_domains().count_of(domain@) < u64::MAX,
        ensures
            slots_sized(*old(self)),
            slots_sized(*final(self)),
            final(self).blocked_domains()@ == old(self).blocked_domains()@.insert(
                domain@,
                (old(self).blocked_domains().count_of(domain@) + 1) as u64,
            ),
            final(self).clients() == old(self).clients(),
            final(self).blocked_clients() == old(self).blocked_clients(),
            final(self).domains() == old(self).domains(),
            counters_same(*old(self), *final(self)),
            latency_same(*old(self), *final(self)),
            setup_same(*old(self), *final(self)),
    {
        self.domain_blocks.increment(domain);
    }

    /// Records one upstream answer time; slots past the 16th are not tracked.
    pub fn record_upstream_latency(&mut self, upstream_idx: usize, ms: u64)
        ensures
            slots_sized(*old(self)),
            slots_sized(*final(self)),
            upstream_idx < UPSTREAM_SLOTS ==> final(self).upstream_ms() == old(self).upstream_ms().update(
                upstream_idx as int,
                bumped(old(self).upstream_ms()[upstream_idx as int], ms),
            ) && final(self).upstream_calls() == old(self).upstream_calls().update(
                upstream_idx as int,
                bumped(old(self).upstream_calls()[upstream_idx as int], 1),
            ),
            upstream_idx >= UPSTREAM_SLOTS ==> final(self).upstream_ms() == old(self).upstream_ms()
                && final(self).upstream_calls() == old(self).upstream_calls(),
            counters_same(*old(self), *final(self)),
            tallies_same(*old(self), *final(self)),
            setup_same(*old(self), *final(self)),
    {
        if upstream_idx < UPSTREAM_SLOTS {
            let t = self.upstream_total_ms[upstream_idx].wrapping_add(ms);
            self.upstream_total_ms[upstream_idx] = t;
            let c = self.upstream_count[upstream_idx].wrapping_add(1);
            self.upstream_count[upstream_idx] = c;
        }
    }

    pub fn total_queries(&self) -> (r: u64)
        ensures
            r == self.total(),
    {
        self.total_queries
    }

    pub fn blocked_queries(&self) -> (r: u64)
        ensures
            r == self.blocked(),
    {
        self.blocked_queries
    }

    pub fn cache_hits(&self) -> (r: u64)
        ensures
            r == self.hits(),
    {
        self.cache_hits
    }

    /// Blocks counted for source id `i` (0 past the last slot).
    pub fn source_block_count(&self, i: usize) -> (r: u64)
        ensures
            i < SOURCE_SLOTS ==> r == self.source_blocks()[i as int],
            i >= SOURCE_SLOTS ==> r == 0,
    {
        if i < SOURCE_SLOTS {
            self.blocks_by_source[i]
        } else {
            0
        }
    }

    /// (total milliseconds, number of answers) recorded for upstream slot `i`.
    pub fn upstream_latency(&self, i: usize) -> (r: (u64, u64))
        ensures
            i < UPSTREAM_SLOTS ==> r == (self.upstream_ms()[i as int], self.upstream_calls()[i as int]),
            i >= UPSTREAM_SLOTS ==> r == (0u64, 0u64),
    {
        if i < UPSTREAM_SLOTS {
            (self.upstream_total_ms[i], self.upstream_count[i])
        } else {
            (0, 0)
        }
    }

    /// Name of upstream `i`, or "Unknown".
    pub fn upstream_label(&self, i: usize) -> (r: String)
        ensures
            r@ == label_at(self.upstream_names_spec(), i as int),
    {
        name_or_unknown(&self.upstream_names, i)
    }

    /// Name of blocklist `i`, or "Unknown".
    pub fn blocklist_label(&self, i: usize) -> (r: String)
        ensures
            r@ == label_at(self.blocklist_names_spec(), i as int),
    {
        name_or_unknown(&self.blocklist_names, i)
    }

    /// The upstream slots that have answered, in slot order: each slot's
    /// name, total milliseconds and number of answers (the rows of a dump).
    pub fn latency_report(&self) -> (r: Vec<(String, u64, u64)>)
        ensures
            r@.map_values(|t: (String, u64, u64)| (t.0@, t.1, t.2)) == latency_rows(
                self.upstream_ms(),
                self.upstream_calls(),
                self.upstream_names_spec(),
                UPSTREAM_SLOTS as int,
            ),
    {
        let mut out: Vec<(String, u64, u64)> = Vec::new();
        for i in 0..UPSTREAM_SLOTS
            invariant
                self.upstream_calls().len() == UPSTREAM_SLOTS,
                self.upstream_ms().len() == UPSTREAM_SLOTS,
                out@.map_values(|t: (String, u64, u64)| (t.0@, t.1, t.2)) == latency_rows(
                    self.upstream_ms(),
                    self.upstream_calls(),
                    self.upstream_names_spec(),
                    i as int,
                ),
        {
            let calls = self.upstream_count[i];
            if calls > 0 {
                let name = name_or_unknown(&self.upstream_names, i);
                let ghost before = out@.map_values(|t: (String, u64, u64)| (t.0@, t.1, t.2));
                out.push((name, self.upstream_total_ms[i], calls));
                assert(out@.map_values(|t: (String, u64, u64)| (t.0@, t.1, t.2)) =~= before.push(
                    (label_at(self.upstream_names_spec(), i as int), self.upstream_ms()[i as int], calls),
                ));
            }
        }
        out
    }

    /// With any query blocked, the blocklists that blocked some, in id
    /// order, each with its name and count; nothing while none is blocked.
    pub fn block_report(&self) -> (r: Vec<(String, u64)>)
        ensures
            r@.map_values(|t: (String, u64)| (t.0@, t.1)) == (if self.blocked() > 0 {
                block_rows(self.source_blocks(), self.blocklist_names_spec(), SOURCE_SLOTS as int)
            } else {
                Seq::empty()
            }),
    {
        let mut out: Vec<(String, u64)> = Vec::new();
        if self.blocked_queries == 0 {
            assert(out@.map_values(|t: (String, u64)| (t.0@, t.1)) =~= Seq::empty());
            return out;
        }
        for i in 0..SOURCE_SLOTS
            invariant
                self.source_blocks().len() == SOURCE_SLOTS,
                out@.map_values(|t: (String, u64)| (t.0@, t.1)) == block_rows(
                    self.source_blocks(),
                    self.blocklist_names_spec(),
                    i as int,
                ),
        {
            let count = self.blocks_by_source[i];
            if count > 0 {
                let name = name_or_unknown(&self.blocklist_names, i);
                let ghost before = out@.map_values(|t: (String, u64)| (t.0@, t.1));
                out.push((name, count));
                assert(out@.map_values(|t: (String, u64)| (t.0@, t.1)) =~= before.push(
                    (label_at(self.blocklist_names_spec(), i as int), count),
                ));
            }
        }
        out
    }

    /// Seconds between stats dumps.
    pub fn log_interval_secs(&self) -> (r: u64)
        ensures
            r == self.log_interval_spec(),
    {
        self.log_interval_secs
    }

    /// The snapshot at Unix time `now_unix` for a collector running for `uptime_secs`.
    pub fn snapshot_at(&self, now_unix: u64, uptime_secs: u64) -> (snap: StatsSnapshot)
        requires
            uptime_secs <= now_unix,
        ensures
            snap.total_queries == self.total(),
            snap.blocked_queries == self.blocked(),
            snap.cache_hits == self.hits(),
            top_k_of(self.clients()@, 5, snap.top_clients@),
            top_k_of(self.blocked_clients()@, 5, snap.top_blocked_clients@),
            top_k_of(self.domains()@, 5, snap.top_domains@),
            top_k_of(self.blocked_domains()@, 5, snap.top_blocked_domains@),
            snap.started_at == now_unix - uptime_secs,
            snap.updated_at == now_unix,
    {
        StatsSnapshot {
            total_queries: self.total_queries,
            blocked_queries: self.blocked_queries,
            cache_hits: self.cache_hits,
            top_clients: self.client_queries.top_k(5),
            top_blocked_clients: self.client_blocks.top_k(5),
            top_domains: self.domain_queries.top_k(5),
            top_blocked_domains: self.domain_blocks.top_k(5),
            started_at: now_unix - uptime_secs,
            updated_at: now_unix,
        }
    }

    /// The current snapshot: counters, top 5 lists, start and update times.
    pub fn get_snapshot(&self) -> (snap: StatsSnapshot)
        ensures
            snap.total_queries == self.total(),
            snap.blocked_queries == self.blocked(),
            snap.cache_hits == self.hits(),
            top_k_of(self.clients()@, 5, snap.top_clients@),
            top_k_of(self.blocked_clients()@, 5, snap.top_blocked_clients@),
            top_k_of(self.domains()@, 5, snap.top_domains@),
            top_k_of(self.blocked_domains()@, 5, snap.top_blocked_domains@),
            snap.started_at <= snap.updated_at,
            exists|up: u128|
                up <= crate::engine::state::max_duration_nanos() && snap.started_at
                    == snap.updated_at - #[trigger] uptime_secs_spec(up, snap.updated_at),
    {
        let now = unix_now_secs();
        let up_nanos = self.started_at.now_nanos();
        let up = uptime_secs(up_nanos, now);
        let snap = self.snapshot_at(now, up);
        assert(snap.started_at == snap.updated_at - uptime_secs_spec(up_nanos, snap.updated_at));
        snap
    }
}

/// The whole seconds of a clock reading in nanoseconds, capped at `now_unix`
/// (a system clock that reads earlier than the process start counts the
/// start as the epoch).
pub open spec fn uptime_secs_spec(up_nanos: u128, now_unix: u64) -> u64 {
    let secs = up_nanos / crate::engine::state::NANOS_PER_SEC;
    if secs > now_unix {
        now_unix
    } else {
        secs as u64
    }
}

/// The uptime in whole seconds of a collector whose clock reads `up_nanos`,
/// capped at `now_unix`.
pub fn uptime_secs(up_nanos: u128, now_unix: u64) -> (r: u64)
    ensures
        r == uptime_secs_spec(up_nanos, now_unix),
{
    let secs = up_nanos / crate::engine::state::NANOS_PER_SEC;
    if secs > now_unix as u128 {
        now_unix
    } else {
        secs as u64
    }
}

/// The uptime counts whole seconds of the reading: below the cap it is the
/// number of complete seconds in `up_nanos`, and it never exceeds the cap.
pub proof fn uptime_counts_whole_seconds(up_nanos: u128, now_unix: u64)
    ensures
        uptime_secs_spec(up_nanos, now_unix) <= now_unix,
        uptime_secs_spec(up_nanos, now_unix) < now_unix ==> uptime_secs_spec(up_nanos, now_unix)
            * 1_000_000_000 <= up_nanos < (uptime_secs_spec(up_nanos, now_unix) + 1)
            * 1_000_000_000,
        up_nanos < (now_unix as int) * 1_000_000_000 ==> uptime_secs_spec(up_nanos, now_unix)
            * 1_000_000_000 <= up_nanos < (uptime_secs_spec(up_nanos, now_unix) + 1)
            * 1_000_000_000,
{
    let q = up_nanos / 1_000_000_000u128;
    assert(q * 1_000_000_000 <= up_nanos < (q + 1) * 1_000_000_000) by (nonlinear_arith)
        requires
            q == up_nanos / 1_000_000_000u128,
    ;
    if up_nanos < (now_unix as int) * 1_000_000_000 {
        assert(q < now_unix) by (nonlinear_arith)
            requires
                q * 1_000_000_000 <= up_nanos,
                up_nanos < (now_unix as int) * 1_000_000_000,
        ;
    }
}

/// The dump rows of the first `upto` upstream slots: the slots with at
/// least one answer, each with its name, total milliseconds and answers.
pub open spec fn latency_rows(ms: Seq<u64>, calls: Seq<u64>, names: Seq<String>, upto: int) -> Seq<
    (Seq<char>, u64, u64),
>
    decreases upto,
{
    if upto <= 0 {
        Seq::empty()
    } else {
        let prev = latency_rows(ms, calls, names, upto - 1);
        if calls[upto - 1] > 0 {
            prev.push((label_at(names, upto - 1), ms[upto - 1], calls[upto - 1]))
        } else {
            prev
        }
    }
}

/// The dump rows of the first `upto` source ids: the lists with at least
/// one block, each with its name and count.
pub open spec fn block_rows(blocks: Seq<u64>, names: Seq<String>, upto: int) -> Seq<(Seq<char>, u64)>
    decreases upto,
{
    if upto <= 0 {
        Seq::empty()
    } else {
        let prev = block_rows(blocks, names, upto - 1);
        if blocks[upto - 1] > 0 {
            prev.push((label_at(names, upto - 1), blocks[upto - 1]))
        } else {
            prev
        }
    }
}

/// The name at position `i`, or "Unknown" past the end of the list.
pub open spec fn label_at(names: Seq<String>, i: int) -> Seq<char> {
    if 0 <= i < names.len() {
        names[i]@
    } else {
        "Unknown"@
    }
}

/// The name at position `i` of `names`, or "Unknown".
pub fn name_or_unknown(names: &Vec<String>, i: usize) -> (r: String)
    ensures
        r@ == label_at(names@, i as int),
{
    if i < names.len() {
        names[i].clone()
    } else {
        String::from_str("Unknown")
    }
}

} // verus!
