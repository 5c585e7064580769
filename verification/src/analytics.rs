//! Reports of graph statistics: a two-column CSV table and a plain-text
//! report. Node counts per type are listed in the order of their type names.

use vstd::prelude::*;
use crate::csv::push_str;
use crate::json::str_lt;
use crate::json::str_less;
use crate::text::{decimal, push_decimal};

verus! {

/// Statistics of a dialogue graph.
pub struct GraphAnalytics {
    pub total_nodes: usize,
    /// How many nodes there are of each type, by type name.
    pub nodes_by_type: Vec<(String, usize)>,
    pub total_connections: usize,
    /// Number of paths from a start node to an end node.
    pub total_paths: usize,
    pub longest_path: usize,
    pub shortest_path: usize,
    pub max_fan_out: usize,
    /// The average number of choices per choice node written with one
    /// decimal, present only when that average is above zero.
    pub avg_choices: Option<String>,
    pub unreachable_count: usize,
    pub dead_end_count: usize,
}

pub open spec fn counts_view(s: Seq<(String, usize)>) -> Seq<(Seq<char>, nat)> {
    s.map_values(|p: (String, usize)| (p.0@, p.1 as nat))
}

/// Inserts `e` before the first element whose name sorts after its name.
pub open spec fn insert_by_name(s: Seq<(Seq<char>, nat)>, e: (Seq<char>, nat)) -> Seq<(Seq<char>, nat)>
    decreases s.len(),
{
    if s.len() == 0 {
        seq![e]
    } else if str_less(e.0, s[0].0) {
        seq![e] + s
    } else {
        seq![s[0]] + insert_by_name(s.drop_first(), e)
    }
}

/// The counts ordered by name; counts of equal names keep their order.
pub open spec fn sort_by_name(s: Seq<(Seq<char>, nat)>) -> Seq<(Seq<char>, nat)>
    decreases s.len(),
{
    if s.len() == 0 {
        seq![]
    } else {
        insert_by_name(sort_by_name(s.drop_last()), s.last())
    }
}

/// One line `label` `value` followed by a line feed.
pub open spec fn line(label: Seq<char>, value: Seq<char>) -> Seq<char> {
    label + value + seq!['\n']
}

/// CSV rows `name,count`, one per element.
pub open spec fn csv_type_rows(s: Seq<(Seq<char>, nat)>) -> Seq<char>
    decreases s.len(),
{
    if s.len() == 0 {
        seq![]
    } else {
        csv_type_rows(s.drop_last()) + line(s.last().0 + seq![','], decimal(s.last().1))
    }
}

/// `name: count` for each element, separated by `, `.
pub open spec fn type_parts(s: Seq<(Seq<char>, nat)>) -> Seq<char>
    decreases s.len(),
{
    if s.len() == 0 {
        seq![]
    } else if s.len() == 1 {
        s[0].0 + seq![':', ' '] + decimal(s[0].1)
    } else {
        type_parts(s.drop_last()) + seq![',', ' '] + s.last().0 + seq![':', ' '] + decimal(s.last().1)
    }
}

/// The CSV report of `a` for project `name`.
pub open spec fn analytics_csv(a: GraphAnalytics, name: Seq<char>) -> Seq<char> {
    let types = sort_by_name(counts_view(a.nodes_by_type@));
    "Metric,Value\n"@
        + line("Project,"@, name)
        + line("Total Nodes,"@, decimal(a.total_nodes as nat))
        + csv_type_rows(types)
        + line("Total Connections,"@, decimal(a.total_connections as nat))
        + line("Total Paths,"@, decimal(a.total_paths as nat))
        + (if a.total_paths > 0 {
            line("Longest Path,"@, decimal(a.longest_path as nat))
                + line("Shortest Path,"@, decimal(a.shortest_path as nat))
        } else {
            seq![]
        })
        + line("Max Fan-out,"@, decimal(a.max_fan_out as nat))
        + (match a.avg_choices {
            Some(t) => line("Avg Choices per Choice Node,"@, t@),
            None => seq![],
        })
        + line("Unreachable Nodes,"@, decimal(a.unreachable_count as nat))
        + line("Dead Ends,"@, decimal(a.dead_end_count as nat))
}

/// The node-summary section of the text report.
pub open spec fn text_summary(a: GraphAnalytics) -> Seq<char> {
    let types = sort_by_name(counts_view(a.nodes_by_type@));
    "--- Node Summary ---\n"@
        + line("Total nodes: "@, decimal(a.total_nodes as nat))
        + (if types.len() > 0 { line(seq![' ', ' '], type_parts(types)) } else { seq![] })
        + line("Total connections: "@, decimal(a.total_connections as nat))
        + seq!['\n']
}

/// The path-analysis section of the text report.
pub open spec fn text_paths(a: GraphAnalytics) -> Seq<char> {
    "--- Path Analysis ---\n"@
        + line("Total paths (Start->End): "@, decimal(a.total_paths as nat))
        + (if a.total_paths > 0 {
            line("Longest: "@, decimal(a.longest_path as nat) + " steps"@)
                + line("Shortest: "@, decimal(a.shortest_path as nat) + " steps"@)
        } else {
            seq![]
        })
        + seq!['\n']
}

/// The branching and connectivity sections of the text report.
pub open spec fn text_branching(a: GraphAnalytics) -> Seq<char> {
    "--- Branching ---\n"@
        + line("Max fan-out: "@, decimal(a.max_fan_out as nat))
        + (match a.avg_choices {
            Some(t) => line("Avg choices per Choice node: "@, t@),
            None => seq![],
        })
        + seq!['\n']
        + "--- Connectivity ---\n"@
        + line("Unreachable nodes: "@, decimal(a.unreachable_count as nat))
        + line("Dead ends: "@, decimal(a.dead_end_count as nat))
}

/// The plain-text report of `a` for project `name`.
pub open spec fn analytics_text(a: GraphAnalytics, name: Seq<char>) -> Seq<char> {
    "=== TaleNode Analytics Report ===\n"@
        + line("Project: "@, name)
        + seq!['\n']
        + text_summary(a)
        + text_paths(a)
        + text_branching(a)
}

proof fn lemma_insert_at(s: Seq<(Seq<char>, nat)>, e: (Seq<char>, nat), p: int)
    requires
        0 <= p <= s.len(),
        forall|j: int| 0 <= j < p ==> !str_less(e.0, #[trigger] s[j].0),
        p < s.len() ==> str_less(e.0, s[p].0),
    ensures
        insert_by_name(s, e) == s.take(p) + seq![e] + s.skip(p),
    decreases p,
{
    if p == 0 {
        if s.len() == 0 {
            assert(s.take(0) + seq![e] + s.skip(0) =~= seq![e]);
        } else {
            assert(s.take(0) + seq![e] + s.skip(0) =~= seq![e] + s);
        }
    } else {
        let t = s.drop_first();
        assert forall|j: int| 0 <= j < p - 1 implies !str_less(e.0, #[trigger] t[j].0) by {
            assert(t[j] == s[j + 1]);
        }
        lemma_insert_at(t, e, p - 1);
        assert(!str_less(e.0, s[0].0));
        assert(seq![s[0]] + (t.take(p - 1) + seq![e] + t.skip(p - 1)) =~= s.take(p) + seq![e] + s.skip(p));
    }
}

/// The place where `name` goes: before the first element whose name sorts after it.
fn insert_position(r: &Vec<(String, usize)>, name: &str) -> (p: usize)
    ensures
        p <= r.len(),
        forall|j: int| 0 <= j < p ==> !str_less(name@, #[trigger] counts_view(r@)[j].0),
        p < r.len() ==> str_less(name@, counts_view(r@)[p as int].0),
{
    let ghost rv = counts_view(r@);
    let mut p: usize = 0;
    while p < r.len()
        invariant
            p <= r.len(),
            rv == counts_view(r@),
            forall|j: int| 0 <= j < p ==> !str_less(name@, #[trigger] rv[j].0),
        decreases r.len() - p,
    {
        assert(rv[p as int].0 == r@[p as int].0@);
        if str_lt(name, r[p].0.as_str()) {
            return p;
        }
        p = p + 1;
    }
    p
}

/// The counts ordered by type name (a stable sort by name).
fn sorted_counts(v: &Vec<(String, usize)>) -> (r: Vec<(String, usize)>)
    ensures
        counts_view(r@) == sort_by_name(counts_view(v@)),
{
    let ghost cv = counts_view(v@);
    let mut r: Vec<(String, usize)> = Vec::new();
    let mut i: usize = 0;
    assert(cv.take(0) =~= Seq::<(Seq<char>, nat)>::empty());
    while i < v.len()
        invariant
            i <= v.len(),
            cv == counts_view(v@),
            counts_view(r@) == sort_by_name(cv.take(i as int)),
        decreases v.len() - i,
    {
        let name = v[i].0.clone();
        let count = v[i].1;
        let ghost e = (name@, count as nat);
        assert(cv[i as int] == e);
        let ghost rv = counts_view(r@);
        let p = insert_position(&r, name.as_str());
        proof {
            lemma_insert_at(rv, e, p as int);
        }
        r.insert(p, (name, count));
        assert(counts_view(r@) =~= rv.take(p as int) + seq![e] + rv.skip(p as int));
        assert(cv.take(i + 1).drop_last() =~= cv.take(i as int));
        i = i + 1;
    }
    assert(cv.take(v.len() as int) =~= cv);
    r
}

/// Writes `line(label, value)`.
pub fn push_line(out: &mut String, label: &str, value: &str)
    ensures
        final(out)@ == old(out)@ + line(label@, value@),
{
    push_str(out, label);
    push_str(out, value);
    push_str(out, "\n");
    proof { reveal_strlit("\n"); }
    assert(final(out)@ =~= old(out)@ + line(label@, value@));
}

/// Writes `line(label, n)` with `n` in decimal.
pub fn push_count_line(out: &mut String, label: &str, n: usize)
    ensures
        final(out)@ == old(out)@ + line(label@, decimal(n as nat)),
{
    push_str(out, label);
    push_decimal(out, n as u64);
    push_str(out, "\n");
    proof { reveal_strlit("\n"); }
    assert(final(out)@ =~= old(out)@ + line(label@, decimal(n as nat)));
}

/// The statistics as a CSV table with a `Metric,Value` header: the project
/// name, the node total, one row per node type in name order, the connection
/// and path totals, the longest and shortest path when there is a path, the
/// largest fan-out, the average number of choices when it is above zero,
/// and the unreachable and dead-end counts.
pub fn export_analytics_csv(stats: &GraphAnalytics, name: &str) -> (r: String)
    ensures
        r@ == analytics_csv(*stats, name@),
{
    let types = sorted_counts(&stats.nodes_by_type);
    let ghost tv = counts_view(types@);
    let mut out = String::new();
    push_str(&mut out, "Metric,Value\n");
    push_line(&mut out, "Project,", name);
    push_count_line(&mut out, "Total Nodes,", stats.total_nodes);
    let ghost head = out@;
    let mut i: usize = 0;
    assert(tv.take(0) =~= Seq::<(Seq<char>, nat)>::empty());
    assert(head =~= head + csv_type_rows(tv.take(0)));
    while i < types.len()
        invariant
            i <= types.len(),
            tv == counts_view(types@),
            out@ == head + csv_type_rows(tv.take(i as int)),
        decreases types.len() - i,
    {
        let ghost before = out@;
        push_str(&mut out, types[i].0.as_str());
        push_count_line(&mut out, ",", types[i].1);
        proof {
            reveal_strlit(",");
            assert(tv.take(i + 1).drop_last() =~= tv.take(i as int));
            assert(tv[i as int] == (types@[i as int].0@, types@[i as int].1 as nat));
            assert(out@ =~= before + line(tv[i as int].0 + seq![','], decimal(tv[i as int].1)));
        }
        i = i + 1;
    }
    assert(tv.take(types.len() as int) =~= tv);
    push_count_line(&mut out, "Total Connections,", stats.total_connections);
    push_count_line(&mut out, "Total Paths,", stats.total_paths);
    let ghost mid = out@;
    if stats.total_paths > 0 {
        push_count_line(&mut out, "Longest Path,", stats.longest_path);
        push_count_line(&mut out, "Shortest Path,", stats.shortest_path);
    }
    push_count_line(&mut out, "Max Fan-out,", stats.max_fan_out);
    let ghost mid2 = out@;
    match &stats.avg_choices {
        Some(t) => push_line(&mut out, "Avg Choices per Choice Node,", t.as_str()),
        None => {},
    }
    push_count_line(&mut out, "Unreachable Nodes,", stats.unreachable_count);
    push_count_line(&mut out, "Dead Ends,", stats.dead_end_count);
    assert(out@ =~= analytics_csv(*stats, name@));
    out
}

/// Writes a line feed.
pub fn push_newline(out: &mut String)
    ensures
        final(out)@ == old(out)@ + seq!['\n'],
{
    push_str(out, "\n");
    proof { reveal_strlit("\n"); }
}

fn push_type_parts(out: &mut String, types: &Vec<(String, usize)>)
    requires
        types.len() > 0,
    ensures
        final(out)@ == old(out)@ + type_parts(counts_view(types@)),
{
    let ghost tv = counts_view(types@);
    let ghost head = old(out)@;
    let mut i: usize = 0;
    assert(tv.take(0) =~= Seq::<(Seq<char>, nat)>::empty());
    assert(out@ =~= head + type_parts(tv.take(0)));
    while i < types.len()
        invariant
            0 < types.len(),
            i <= types.len(),
            tv == counts_view(types@),
            out@ == head + type_parts(tv.take(i as int)),
        decreases types.len() - i,
    {
        let ghost before = out@;
        if i > 0 {
            push_str(out, ", ");
        }
        let ghost mid = out@;
        push_str(out, types[i].0.as_str());
        push_str(out, ": ");
        push_decimal(out, types[i].1 as u64);
        proof {
            reveal_strlit(", ");
            reveal_strlit(": ");
            assert(tv[i as int] == (types@[i as int].0@, types@[i as int].1 as nat));
            assert(tv.take(i + 1).drop_last() =~= tv.take(i as int));
            if i == 0 {
                assert(tv.take(1) =~= seq![tv[0]]);
                assert(mid == before);
            }
            assert(out@ =~= head + type_parts(tv.take(i + 1)));
        }
        i = i + 1;
    }
    assert(tv.take(types.len() as int) =~= tv);
}

fn push_summary(out: &mut String, stats: &GraphAnalytics)
    ensures
        final(out)@ == old(out)@ + text_summary(*stats),
{
    let types = sorted_counts(&stats.nodes_by_type);
    push_str(out, "--- Node Summary ---\n");
    push_count_line(out, "Total nodes: ", stats.total_nodes);
    let ghost mid = out@;
    if types.len() > 0 {
        push_str(out, "  ");
        push_type_parts(out, &types);
        push_newline(out);
        proof { reveal_strlit("  "); }
        assert(out@ =~= mid + line(seq![' ', ' '], type_parts(counts_view(types@))));
    }
    push_count_line(out, "Total connections: ", stats.total_connections);
    push_newline(out);
    assert(out@ =~= old(out)@ + text_summary(*stats));
}

fn push_paths(out: &mut String, stats: &GraphAnalytics)
    ensures
        final(out)@ == old(out)@ + text_paths(*stats),
{
    push_str(out, "--- Path Analysis ---\n");
    push_count_line(out, "Total paths (Start->End): ", stats.total_paths);
    let ghost mid = out@;
    if stats.total_paths > 0 {
        push_str(out, "Longest: ");
        push_decimal(out, stats.longest_path as u64);
        push_str(out, " steps");
        push_newline(out);
        push_str(out, "Shortest: ");
        push_decimal(out, stats.shortest_path as u64);
        push_str(out, " steps");
        push_newline(out);
        assert(out@ =~= mid + (line("Longest: "@, decimal(stats.longest_path as nat) + " steps"@)
            + line("Shortest: "@, decimal(stats.shortest_path as nat) + " steps"@)));
    }
    push_newline(out);
    assert(out@ =~= old(out)@ + text_paths(*stats));
}

fn push_branching(out: &mut String, stats: &GraphAnalytics)
    ensures
        final(out)@ == old(out)@ + text_branching(*stats),
{
    push_str(out, "--- Branching ---\n");
    push_count_line(out, "Max fan-out: ", stats.max_fan_out);
    match &stats.avg_choices {
        Some(t) => push_line(out, "Avg choices per Choice node: ", t.as_str()),
        None => {},
    }
    push_newline(out);
    push_str(out, "--- Connectivity ---\n");
    push_count_line(out, "Unreachable nodes: ", stats.unreachable_count);
    push_count_line(out, "Dead ends: ", stats.dead_end_count);
    assert(out@ =~= old(out)@ + text_branching(*stats));
}

/// The statistics as a plain-text report in four sections (node summary, path
/// analysis, branching, connectivity), with the node counts per type on one
/// line in name order when there are any.
pub fn export_analytics_text(stats: &GraphAnalytics, name: &str) -> (r: String)
    ensures
        r@ == analytics_text(*stats, name@),
{
    let mut out = String::new();
    push_str(&mut out, "=== TaleNode Analytics Report ===\n");
    push_line(&mut out, "Project: ", name);
    push_newline(&mut out);
    push_summary(&mut out, stats);
    push_paths(&mut out, stats);
    push_branching(&mut out, stats);
    assert(out@ =~= analytics_text(*stats, name@));
    out
}

} // verus!
