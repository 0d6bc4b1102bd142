//! Which sinks a query logger feeds, from the configured sink names.
use crate::text::str_eq;
use vstd::prelude::*;

verus! {

/// What one configured sink name becomes.
#[derive(Debug, Clone, Copy, PartialEq, Eq, Structural)]
pub enum SinkPlan {
    /// A console sink.
    Console,
    /// The SQLite sink, fed by the one log writer.
    Sqlite,
    /// "sqlite" again, or without a log writer: no sink, an error is reported.
    MissingWriter,
    /// A name that is not a sink type: no sink, a warning is printed.
    Unknown,
}

/// Whether "sqlite" occurs among the first `i` names.
pub open spec fn sqlite_before(names: Seq<Seq<char>>, i: int) -> bool {
    exists|j: int| 0 <= j < i && names[j] == "sqlite"@
}

/// The plan for the name at position `i`: the writer goes to the first "sqlite".
pub open spec fn plan_at(names: Seq<Seq<char>>, has_writer: bool, i: int) -> SinkPlan {
    if names[i] == "console"@ {
        SinkPlan::Console
    } else if names[i] == "sqlite"@ {
        if has_writer && !sqlite_before(names, i) {
            SinkPlan::Sqlite
        } else {
            SinkPlan::MissingWriter
        }
    } else {
        SinkPlan::Unknown
    }
}

/// The texts of a list of names.
pub open spec fn name_texts(names: Seq<String>) -> Seq<Seq<char>> {
    names.map_values(|s: String| s@)
}

/// The sink for each configured name, in order.
pub fn plan_sinks(sink_types: &Vec<String>, has_log_writer: bool) -> (r: Vec<SinkPlan>)
    ensures
        r@.len() == sink_types@.len(),
        forall|i: int|
            0 <= i < r@.len() ==> #[trigger] r@[i] == plan_at(name_texts(sink_types@), has_log_writer, i),
{
    let ghost names = name_texts(sink_types@);
    let mut out: Vec<SinkPlan> = Vec::new();
    let mut writer_left = has_log_writer;
    let n = sink_types.len();
    for i in 0..n
        invariant
            n == sink_types@.len(),
            names == name_texts(sink_types@),
            out@.len() == i,
            forall|k: int| 0 <= k < i ==> #[trigger] out@[k] == plan_at(names, has_log_writer, k),
            writer_left == (has_log_writer && !sqlite_before(names, i as int)),
    {
        proof {
            reveal_strlit("console");
            reveal_strlit("sqlite");
        }
        let t = sink_types[i].as_str();
        assert(names[i as int] == t@);
        let p = if str_eq(t, "console") {
            SinkPlan::Console
        } else if str_eq(t, "sqlite") {
            if writer_left {
                writer_left = false;
                SinkPlan::Sqlite
            } else {
                SinkPlan::MissingWriter
            }
        } else {
            SinkPlan::Unknown
        };
        out.push(p);
        proof {
            if names[i as int] == "sqlite"@ {
                assert(0 <= i < i + 1 && names[i as int] == "sqlite"@);
                assert(sqlite_before(names, i + 1));
            } else {
                assert(sqlite_before(names, i + 1) == sqlite_before(names, i as int)) by {
                    if sqlite_before(names, i + 1) {
                        let j = choose|j: int| 0 <= j < i + 1 && names[j] == "sqlite"@;
                        assert(j < i);
                    }
                }
            }
        }
    }
    out
}

/// However the sinks are named, at most one SQLite sink is planned: the log
/// writer is handed out once.
pub proof fn at_most_one_sqlite_sink(names: Seq<Seq<char>>, has_writer: bool, i: int, j: int)
    requires
        0 <= i < j < names.len(),
        plan_at(names, has_writer, i) == SinkPlan::Sqlite,
    ensures
        plan_at(names, has_writer, j) != SinkPlan::Sqlite,
{
    assert(names[i] == "sqlite"@);
    assert(sqlite_before(names, j));
}

} // verus!
