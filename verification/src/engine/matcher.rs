//! In-memory blocklist matching by label-suffix lookup.
use rustc_hash::{FxBuildHasher, FxHashMap};
use vstd::prelude::*;
use vstd::string::StringSliceAdditionalSpecFns;
use vstd::utf8::{
    encode_utf8, encode_utf8_valid_utf8, is_char_boundary,
    is_char_boundary_iff_not_is_continuation_byte, pop_first_scalar, valid_first_scalar,
    valid_utf8, valid_utf8_split,
};

verus! {

/// The byte `.` that separates DNS labels.
pub const DOT: u8 = 0x2e;

/// The UTF-8 bytes of a text value, the form in which the tables key their domains.
pub open spec fn text_bytes(s: Seq<char>) -> Seq<u8> {
    encode_utf8(s)
}

/// `rustc_hash::FxBuildHasher`, the hasher of the matcher's tables.
#[verifier::external_type_specification]
#[verifier::external_body]
pub struct ExFxBuildHasher(FxBuildHasher);

/// What a table of blocked domains holds: each domain (as UTF-8 bytes) with
/// the id of the list that named it.
pub uninterp spec fn domain_map_entries(m: FxHashMap<Box<str>, u8>) -> Map<Seq<u8>, u8>;

/// What a table of allowed domains holds: the domains as UTF-8 bytes.
pub uninterp spec fn allow_map_entries(m: FxHashMap<Box<str>, ()>) -> Set<Seq<u8>>;

/// `FxHashMap::default` for blocked domains: an empty table.
#[verifier::external_body]
pub(crate) fn new_domain_map() -> (map: FxHashMap<Box<str>, u8>)
    ensures
        domain_map_entries(map) =~= Map::empty(),
{
    FxHashMap::default()
}

/// `HashMap::insert` on the domain's text: it maps to `source` afterwards,
/// every other domain keeps its entry.
#[verifier::external_body]
pub(crate) fn domain_map_insert(map: &mut FxHashMap<Box<str>, u8>, domain: &str, source: u8)
    ensures
        domain_map_entries(*final(map)) == domain_map_entries(*old(map)).insert(
            domain.spec_bytes(),
            source,
        ),
{
    map.insert(Box::from(domain), source);
}

/// `HashMap::get` on the domain's text.
#[verifier::external_body]
fn domain_map_get<'a>(map: &'a FxHashMap<Box<str>, u8>, key: &str) -> (found: Option<&'a u8>)
    ensures
        found.is_some() == domain_map_entries(*map).contains_key(key.spec_bytes()),
        found.is_some() ==> *found.unwrap() == domain_map_entries(*map)[key.spec_bytes()],
{
    map.get(key)
}

/// `FxHashMap::default` for allowed domains: an empty set.
#[verifier::external_body]
fn new_allow_map() -> (map: FxHashMap<Box<str>, ()>)
    ensures
        allow_map_entries(map) =~= Set::empty(),
{
    FxHashMap::default()
}

/// `HashMap::insert` of the domain with a unit value: the domain is held afterwards.
#[verifier::external_body]
fn allow_map_insert(map: &mut FxHashMap<Box<str>, ()>, domain: String)
    ensures
        allow_map_entries(*final(map)) == allow_map_entries(*old(map)).insert(text_bytes(domain@)),
{
    map.insert(domain.into_boxed_str(), ());
}

/// `HashMap::contains_key` on the domain's text.
#[verifier::external_body]
fn allow_map_contains(map: &FxHashMap<Box<str>, ()>, domain: &str) -> (held: bool)
    ensures
        held == allow_map_entries(*map).contains(domain.spec_bytes()),
{
    map.contains_key(domain)
}

/// After an ASCII byte of a UTF-8 text a new character starts.
proof fn boundary_after_ascii(bytes: Seq<u8>, k: int)
    requires
        valid_utf8(bytes),
        1 <= k < bytes.len(),
        bytes[k - 1] < 0x80,
    ensures
        is_char_boundary(bytes, k),
{
    is_char_boundary_iff_not_is_continuation_byte(bytes, k - 1);
    valid_utf8_split(bytes, k - 1);
    let tail = bytes.subrange(k - 1, bytes.len() as int);
    assert(tail[0] == bytes[k - 1]);
    assert(pop_first_scalar(tail) =~= bytes.subrange(k, bytes.len() as int));
    let rest = bytes.subrange(k, bytes.len() as int);
    assert(valid_utf8(rest));
    assert(rest[0] == bytes[k]);
    assert(valid_first_scalar(rest));
    is_char_boundary_iff_not_is_continuation_byte(bytes, k);
}

/// `k` is where a label-aligned suffix of `d` starts: the whole name, or the
/// byte after a dot when something follows that dot.
pub open spec fn is_suffix_start(d: Seq<u8>, k: int) -> bool {
    k == 0 || (1 <= k < d.len() && d[k - 1] == DOT)
}

/// The label-aligned suffix of `d` that starts at `k` is listed in `t`.
pub open spec fn blocks_at(t: Map<Seq<u8>, u8>, d: Seq<u8>, k: int) -> bool {
    is_suffix_start(d, k) && t.contains_key(d.subrange(k, d.len() as int))
}

/// The verdict on domain `d`: `None` when it is allowed or no label-aligned
/// suffix of it is listed, else the source of the longest listed suffix.
pub open spec fn verdict_is(
    t: Map<Seq<u8>, u8>,
    allow: Set<Seq<u8>>,
    d: Seq<u8>,
    r: Option<u8>,
) -> bool {
    if allow.contains(d) {
        r is None
    } else {
        match r {
            None => forall|k: int| #![trigger blocks_at(t, d, k)] !blocks_at(t, d, k),
            Some(src) => exists|k: int|
                #![trigger blocks_at(t, d, k)]
                blocks_at(t, d, k) && t[d.subrange(k, d.len() as int)] == src && forall|j: int|
                    #![trigger blocks_at(t, d, j)]
                    0 <= j < k ==> !blocks_at(t, d, j),
        }
    }
}

/// The "hot path" engine for checking domains.
pub trait BlocklistMatcher: Send + Sync {
    /// Returns `Some(source_id)` if blocked, `None` if allowed.
    fn check(&self, domain: &str) -> Option<u8>;
}

/// Matcher over a hash table of blocked domains and a set of allowed ones.
pub struct HashedMatcher {
    domains: FxHashMap<Box<str>, u8>,
    allowlist: FxHashMap<Box<str>, ()>,
}

impl HashedMatcher {
    /// The blocked domains with their sources.
    pub closed spec fn blocked(&self) -> Map<Seq<u8>, u8> {
        domain_map_entries(self.domains)
    }

    /// The allowed domains.
    pub closed spec fn allowed(&self) -> Set<Seq<u8>> {
        allow_map_entries(self.allowlist)
    }

    /// Builds a matcher from a table of blocked domains and a list of allowed ones.
    pub fn new(domains: FxHashMap<Box<str>, u8>, allowlist_vec: Vec<String>) -> (m: Self)
        ensures
            m.blocked() == domain_map_entries(domains),
            forall|d: Seq<u8>|
                #![trigger m.allowed().contains(d)]
                m.allowed().contains(d) <==> exists|i: int|
                    0 <= i < allowlist_vec.len() && d == text_bytes(
                        #[trigger] allowlist_vec@[i]@,
                    ),
    {
        let mut allowlist = new_allow_map();
        let len = allowlist_vec.len();
        for i in 0..len
            invariant
                len == allowlist_vec.len(),
                forall|d: Seq<u8>|
                    #![trigger allow_map_entries(allowlist).contains(d)]
                    allow_map_entries(allowlist).contains(d) <==> exists|j: int|
                        0 <= j < i && d == text_bytes(#[trigger] allowlist_vec@[j]@),
        {
            let d = allowlist_vec[i].clone();
            let ghost prev = allow_map_entries(allowlist);
            let ghost added = text_bytes(d@);
            allow_map_insert(&mut allowlist, d);
            proof {
                assert(allow_map_entries(allowlist) == prev.insert(added));
                assert(added == text_bytes(allowlist_vec@[i as int]@));
                assert forall|e: Seq<u8>| #![trigger allow_map_entries(allowlist).contains(e)]
                    allow_map_entries(allowlist).contains(e) <==> exists|j: int|
                        0 <= j < i + 1 && e == text_bytes(#[trigger] allowlist_vec@[j]@) by {
                    if e == added {
                        assert(0 <= i < i + 1 && e == text_bytes(allowlist_vec@[i as int]@));
                    } else if prev.contains(e) {
                        let j = choose|j: int|
                            0 <= j < i && e == text_bytes(#[trigger] allowlist_vec@[j]@);
                        assert(0 <= j < i + 1);
                    }
                }
            }
        }
        Self { domains, allowlist }
    }
}

impl BlocklistMatcher for HashedMatcher {
    /// Allowlist first (exact match), then the label-aligned suffixes of the
    /// name from the longest to the shortest; the first one listed decides.
    fn check(&self, domain: &str) -> (r: Option<u8>)
        ensures
            verdict_is(self.blocked(), self.allowed(), domain.spec_bytes(), r),
    {
        if allow_map_contains(&self.allowlist, domain) {
            return None;
        }
        let bytes = domain.as_bytes();
        let ghost d = bytes@;
        let ghost t = self.blocked();
        proof {
            encode_utf8_valid_utf8(domain@);
        }
        let len = bytes.len();
        let mut start: usize = 0;
        loop
            invariant
                d == bytes@,
                d == domain.spec_bytes(),
                valid_utf8(d),
                t == self.blocked(),
                !self.allowed().contains(d),
                len == d.len(),
                start <= len,
                is_suffix_start(d, start as int),
                forall|j: int| #![trigger blocks_at(t, d, j)] 0 <= j < start ==> !blocks_at(t, d, j),
            decreases len - start,
        {
            proof {
                if start > 0 {
                    boundary_after_ascii(d, start as int);
                }
            }
            let (_, part) = domain.split_at(start);
            assert(part.spec_bytes() == d.subrange(start as int, d.len() as int));
            if let Some(src) = domain_map_get(&self.domains, part) {
                assert(blocks_at(t, d, start as int));
                return Some(*src);
            }
            assert(!blocks_at(t, d, start as int));
            let mut i = start;
            while i < len && bytes[i] != DOT
                invariant
                    d == bytes@,
                    len == d.len(),
                    start <= i <= len,
                    forall|j: int| start <= j < i ==> d[j] != DOT,
                decreases len - i,
            {
                i = i + 1;
            }
            if i >= len {
                assert forall|j: int| #![trigger blocks_at(t, d, j)] !blocks_at(t, d, j) by {
                    if start < j && blocks_at(t, d, j) {
                        assert(d[j - 1] != DOT);
                    }
                }
                return None;
            }
            if i + 1 >= len {
                assert forall|j: int| #![trigger blocks_at(t, d, j)] !blocks_at(t, d, j) by {
                    if start < j && blocks_at(t, d, j) {
                        assert(d[j - 1] != DOT);
                    }
                }
                return None;
            }
            assert forall|j: int| #![trigger blocks_at(t, d, j)] 0 <= j < i + 1 implies !blocks_at(t, d, j) by {
                if start < j && j <= i && blocks_at(t, d, j) {
                    assert(d[j - 1] != DOT);
                }
            }
            start = i + 1;
        }
    }
}

/// The verdict is a function of the tables and the name: two results that
/// both meet `verdict_is` are equal.
pub proof fn verdict_is_unique(
    t: Map<Seq<u8>, u8>,
    allow: Set<Seq<u8>>,
    d: Seq<u8>,
    r1: Option<u8>,
    r2: Option<u8>,
)
    requires
        verdict_is(t, allow, d, r1),
        verdict_is(t, allow, d, r2),
    ensures
        r1 == r2,
{
    if !allow.contains(d) {
        if r1 is Some && r2 is Some {
            let k1 = choose|k: int|
                #![trigger blocks_at(t, d, k)]
                blocks_at(t, d, k) && t[d.subrange(k, d.len() as int)] == r1->0 && forall|j: int|
                    #![trigger blocks_at(t, d, j)]
                    0 <= j < k ==> !blocks_at(t, d, j);
            let k2 = choose|k: int|
                #![trigger blocks_at(t, d, k)]
                blocks_at(t, d, k) && t[d.subrange(k, d.len() as int)] == r2->0 && forall|j: int|
                    #![trigger blocks_at(t, d, j)]
                    0 <= j < k ==> !blocks_at(t, d, j);
            if k1 < k2 {
                assert(!blocks_at(t, d, k1));
            } else if k2 < k1 {
                assert(!blocks_at(t, d, k2));
            }
        } else if r1 is Some {
            let k1 = choose|k: int|
                #![trigger blocks_at(t, d, k)]
                blocks_at(t, d, k) && t[d.subrange(k, d.len() as int)] == r1->0 && forall|j: int|
                    #![trigger blocks_at(t, d, j)]
                    0 <= j < k ==> !blocks_at(t, d, j);
            assert(!blocks_at(t, d, k1));
        } else if r2 is Some {
            let k2 = choose|k: int|
                #![trigger blocks_at(t, d, k)]
                blocks_at(t, d, k) && t[d.subrange(k, d.len() as int)] == r2->0 && forall|j: int|
                    #![trigger blocks_at(t, d, j)]
                    0 <= j < k ==> !blocks_at(t, d, j);
            assert(!blocks_at(t, d, k2));
        }
    }
}

/// An allowlisted name is never blocked, whatever the lists hold.
pub proof fn allowlisted_name_never_blocked(
    t: Map<Seq<u8>, u8>,
    allow: Set<Seq<u8>>,
    d: Seq<u8>,
    r: Option<u8>,
)
    requires
        allow.contains(d),
        verdict_is(t, allow, d, r),
    ensures
        r is None,
{
}

/// A listed domain that is not allowed is blocked, and by the list that names
/// it, whatever lists name its parent domains.
pub proof fn listed_domain_blocked_by_its_own_list(
    t: Map<Seq<u8>, u8>,
    allow: Set<Seq<u8>>,
    d: Seq<u8>,
    r: Option<u8>,
)
    requires
        t.contains_key(d),
        !allow.contains(d),
        verdict_is(t, allow, d, r),
    ensures
        r == Some(t[d]),
{
    assert(d.subrange(0, d.len() as int) =~= d);
    assert(blocks_at(t, d, 0));
    if r is Some {
        let k = choose|k: int|
            #![trigger blocks_at(t, d, k)]
            blocks_at(t, d, k) && t[d.subrange(k, d.len() as int)] == r->0 && forall|j: int|
                #![trigger blocks_at(t, d, j)]
                0 <= j < k ==> !blocks_at(t, d, j);
        if k > 0 {
            assert(!blocks_at(t, d, 0));
        }
    }
}

/// Blocking a domain blocks every name under it: a name made of any prefix, a
/// dot and a listed (non-empty) domain is blocked unless it is itself allowed.
pub proof fn subdomain_of_listed_domain_blocked(
    t: Map<Seq<u8>, u8>,
    allow: Set<Seq<u8>>,
    prefix: Seq<u8>,
    parent: Seq<u8>,
    r: Option<u8>,
)
    requires
        t.contains_key(parent),
        parent.len() > 0,
        !allow.contains(prefix + seq![DOT] + parent),
        verdict_is(t, allow, prefix + seq![DOT] + parent, r),
    ensures
        r is Some,
{
    let d = prefix + seq![DOT] + parent;
    let k: int = prefix.len() as int + 1;
    assert(d[k - 1] == DOT);
    assert(d.subrange(k, d.len() as int) =~= parent);
    assert(blocks_at(t, d, k));
}

/// A name none of whose label-aligned suffixes is listed is never blocked.
pub proof fn unlisted_name_not_blocked(
    t: Map<Seq<u8>, u8>,
    allow: Set<Seq<u8>>,
    d: Seq<u8>,
    r: Option<u8>,
)
    requires
        forall|k: int| is_suffix_start(d, k) ==> !t.contains_key(#[trigger] d.subrange(k, d.len() as int)),
        verdict_is(t, allow, d, r),
    ensures
        r is None,
{
    if !allow.contains(d) && r is Some {
        let k = choose|k: int|
            #![trigger blocks_at(t, d, k)]
            blocks_at(t, d, k) && t[d.subrange(k, d.len() as int)] == r->0 && forall|j: int|
                #![trigger blocks_at(t, d, j)]
                0 <= j < k ==> !blocks_at(t, d, j);
        assert(is_suffix_start(d, k));
    }
}

} // verus!
