//! Blocklist parsing and the assembly of a matcher from downloaded lists.
use super::matcher::{domain_map_entries, domain_map_insert, new_domain_map, text_bytes, HashedMatcher};
use rustc_hash::FxHashMap;
use crate::text::{
    ascii_lower, is_ascii_text, lines_of, split_lines, to_lowercase, trim_whitespace, trimmed,
    unicode_lowercase,
};
use vstd::prelude::*;
use vstd::string::{StrSliceExecFns, StringSliceAdditionalSpecFns};

verus! {

/// What one line of a blocklist contributes: nothing for a blank line or a
/// `#` comment, else the trimmed line in lowercase.
pub open spec fn parsed_line(line: Seq<char>) -> Option<Seq<char>> {
    let t = trimmed(line);
    if t.len() == 0 || t[0] == '#' {
        None
    } else {
        Some(unicode_lowercase(t))
    }
}

/// The domains that a sequence of lines contributes, in order.
pub open spec fn parsed_domains(lines: Seq<Seq<char>>) -> Seq<Seq<char>>
    decreases lines.len(),
{
    if lines.len() == 0 {
        Seq::empty()
    } else {
        let prev = parsed_domains(lines.drop_last());
        match parsed_line(lines.last()) {
            Some(d) => prev.push(d),
            None => prev,
        }
    }
}

/// Parses one line of a plain domain list (one domain per line).
pub fn parse_line(line: &str) -> (r: Option<String>)
    ensures
        r is Some == parsed_line(line@) is Some,
        r matches Some(d) ==> d@ == parsed_line(line@)->0,
        is_ascii_text(trimmed(line@)) ==> (r matches Some(d) ==> d@ == trimmed(line@).map_values(
            |c: char| ascii_lower(c),
        )),
{
    let t = trim_whitespace(line);
    if t.is_empty() {
        return None;
    }
    if t.get_char(0) == '#' {
        return None;
    }
    Some(to_lowercase(t))
}

/// Parses a whole blocklist text, tagging every domain with `source_id`.
pub fn parse_blocklist_content(text: &str, source_id: u8) -> (r: Vec<(String, u8)>)
    ensures
        r@.len() == parsed_domains(split_lines(text@)).len(),
        forall|i: int|
            0 <= i < r@.len() ==> (#[trigger] r@[i]).0@ == parsed_domains(split_lines(text@))[i]
                && r@[i].1 == source_id,
{
    let lines = lines_of(text);
    let ghost ls = split_lines(text@);
    let mut out: Vec<(String, u8)> = Vec::new();
    let n = lines.len();
    for i in 0..n
        invariant
            n == lines@.len(),
            n == ls.len(),
            forall|j: int| 0 <= j < n ==> #[trigger] lines@[j]@ == ls[j],
            out@.len() == parsed_domains(ls.subrange(0, i as int)).len(),
            forall|j: int|
                0 <= j < out@.len() ==> (#[trigger] out@[j]).0@ == parsed_domains(
                    ls.subrange(0, i as int),
                )[j] && out@[j].1 == source_id,
    {
        proof {
            assert(ls.subrange(0, i + 1).drop_last() =~= ls.subrange(0, i as int));
            assert(ls.subrange(0, i + 1).last() == ls[i as int]);
        }
        if let Some(d) = parse_line(lines[i]) {
            out.push((d, source_id));
        }
    }
    proof {
        assert(ls.subrange(0, n as int) =~= ls);
    }
    out
}

/// The source id of the list at position `idx` of the sorted blocklists:
/// the position itself, or 255 for every list past the 256th.
pub fn source_id_for_index(idx: usize) -> (id: u8)
    ensures
        id == (if idx > 255 { 255 } else { idx }),
{
    if idx > 255 {
        255
    } else {
        idx as u8
    }
}

/// The table that results from inserting `entries` one after another.
pub open spec fn table_after(start: Map<Seq<u8>, u8>, entries: Seq<(Seq<char>, u8)>) -> Map<
    Seq<u8>,
    u8,
>
    decreases entries.len(),
{
    if entries.len() == 0 {
        start
    } else {
        table_after(start, entries.drop_last()).insert(
            text_bytes(entries.last().0),
            entries.last().1,
        )
    }
}

/// The entries of all lists, list after list.
pub open spec fn all_entries(lists: Seq<Seq<(Seq<char>, u8)>>) -> Seq<(Seq<char>, u8)>
    decreases lists.len(),
{
    if lists.len() == 0 {
        Seq::empty()
    } else {
        all_entries(lists.drop_last()) + lists.last()
    }
}

/// The plain view of downloaded lists: each domain's text with its source id.
pub open spec fn lists_view(lists: Seq<Vec<(String, u8)>>) -> Seq<Seq<(Seq<char>, u8)>> {
    lists.map_values(|l: Vec<(String, u8)>| l@.map_values(|e: (String, u8)| (e.0@, e.1)))
}

/// A domain that only entries with id `s` name ends up in the merged
/// table with id `s`, whatever else the entries hold and in whatever order
/// the lists were merged.
pub proof fn domain_of_one_source_keeps_its_id(
    start: Map<Seq<u8>, u8>,
    es: Seq<(Seq<char>, u8)>,
    d: Seq<u8>,
    s: u8,
)
    requires
        exists|i: int| 0 <= i < es.len() && text_bytes((#[trigger] es[i]).0) == d,
        forall|i: int| 0 <= i < es.len() && text_bytes((#[trigger] es[i]).0) == d ==> es[i].1 == s,
    ensures
        table_after(start, es).contains_key(d),
        table_after(start, es)[d] == s,
    decreases es.len(),
{
    let last = es.len() - 1;
    if text_bytes(es[last].0) != d {
        let prev = es.drop_last();
        let w = choose|i: int| 0 <= i < es.len() && text_bytes((#[trigger] es[i]).0) == d;
        assert(w != last);
        assert(prev[w] == es[w]);
        assert forall|i: int| 0 <= i < prev.len() && text_bytes((#[trigger] prev[i]).0) == d implies prev[i].1 == s by {
            assert(prev[i] == es[i]);
        }
        domain_of_one_source_keeps_its_id(start, prev, d, s);
    }
}

proof fn table_after_append(
    start: Map<Seq<u8>, u8>,
    a: Seq<(Seq<char>, u8)>,
    b: Seq<(Seq<char>, u8)>,
)
    ensures
        table_after(start, a + b) == table_after(table_after(start, a), b),
    decreases b.len(),
{
    if b.len() == 0 {
        assert(a + b =~= a);
    } else {
        assert((a + b).drop_last() =~= a + b.drop_last());
        table_after_append(start, a, b.drop_last());
    }
}

/// Merges the downloaded lists into one table: every listed domain is held,
/// and a domain named by several lists keeps the id of the last one merged.
pub fn build_domain_table(results: Vec<Vec<(String, u8)>>) -> (table: FxHashMap<Box<str>, u8>)
    ensures
        domain_map_entries(table) == table_after(Map::empty(), all_entries(lists_view(results@))),
{
    let mut table = new_domain_map();
    let ghost lv = lists_view(results@);
    let nl = results.len();
    for li in 0..nl
        invariant
            nl == results@.len(),
            lv == lists_view(results@),
            domain_map_entries(table) == table_after(Map::empty(), all_entries(lv.subrange(0, li as int))),
    {
        let list = &results[li];
        let ghost before = domain_map_entries(table);
        let ghost lview = lv[li as int];
        let m = list.len();
        for ei in 0..m
            invariant
                m == list@.len(),
                lview == list@.map_values(|e: (String, u8)| (e.0@, e.1)),
                domain_map_entries(table) == table_after(before, lview.subrange(0, ei as int)),
        {
            let (ref domain, source) = list[ei];
            let key = domain.as_str();
            domain_map_insert(&mut table, key, source);
            proof {
                assert(lview.subrange(0, ei + 1).drop_last() =~= lview.subrange(0, ei as int));
                assert(key.spec_bytes() == text_bytes(domain@));
            }
        }
        proof {
            assert(lview.subrange(0, m as int) =~= lview);
            assert(lv.subrange(0, li + 1).drop_last() =~= lv.subrange(0, li as int));
            table_after_append(
                Map::empty(),
                all_entries(lv.subrange(0, li as int)),
                lview,
            );
        }
    }
    proof {
        assert(lv.subrange(0, nl as int) =~= lv);
    }
    table
}

/// The compute step of a blocklist refresh: merge the parsed lists and wrap
/// them, with the allowlist, into a matcher.
pub fn build_matcher(results: Vec<Vec<(String, u8)>>, allowlist: Vec<String>) -> (m:
    HashedMatcher)
    ensures
        m.blocked() == table_after(Map::empty(), all_entries(lists_view(results@))),
        forall|d: Seq<u8>|
            #![trigger m.allowed().contains(d)]
            m.allowed().contains(d) <==> exists|i: int|
                0 <= i < allowlist.len() && d == text_bytes(#[trigger] allowlist@[i]@),
{
    let table = build_domain_table(results);
    HashedMatcher::new(table, allowlist)
}

} // verus!
