//! The editor's find-and-replace bar: its results, the result under focus,
//! and replacing in the focused node or in every result.

use vstd::prelude::*;
use crate::assist::{lemma_found, lemma_update_view};
use crate::copy::{copy_graph, copy_node};
use crate::csv::push_str;
use crate::flatten::first_pos;
use crate::graph::find_node;
use crate::history::{UndoHistory, spec_save};
use crate::model::{DialogueGraph, KindV, NodeV, graph_view, lemma_nodes_view, nodes_view};
use crate::search::{kind_count, kind_ok, kind_ok_exec, lowercase, lowercase_of, node_after, search_hits, search_nodes, replace_in_node};
use crate::text::{decimal, owned, push_decimal};

verus! {

/// The find bar: what is searched for, its replacement, the matching nodes
/// and which of them has the focus.
pub struct SearchPanel {
    pub query: String,
    pub replacement: String,
    pub results: Vec<u128>,
    pub index: usize,
}

/// A replacement in node `n` is possible: a non-empty query, no character
/// cut, and room for one more option in a choice.
pub open spec fn replace_possible(n: NodeV, q: Seq<char>, rep: Seq<char>) -> bool {
    &&& q.len() > 0
    &&& kind_ok(n.kind, q, rep)
    &&& n.kind matches KindV::Choice(_, opts) ==> opts.len() < usize::MAX
}

/// The nodes after replacing in the first node of each identifier, in
/// order, and the number of texts changed.
pub open spec fn replace_fold(ns: Seq<NodeV>, ids: Seq<u128>, q: Seq<char>, rep: Seq<char>) -> (Seq<NodeV>, int)
    decreases ids.len(),
{
    if ids.len() == 0 {
        (ns, 0)
    } else {
        let (prev, c) = replace_fold(ns, ids.drop_last(), q, rep);
        let f = first_pos(prev, ids.last());
        if f >= 0 {
            (prev.update(f, node_after(prev[f], q, rep)), c + kind_count(prev[f].kind, q))
        } else {
            (prev, c)
        }
    }
}

/// Every replacement along `replace_fold` is possible and the count fits.
pub open spec fn replace_fold_ok(ns: Seq<NodeV>, ids: Seq<u128>, q: Seq<char>, rep: Seq<char>) -> bool
    decreases ids.len(),
{
    if ids.len() == 0 {
        true
    } else {
        let (prev, c) = replace_fold(ns, ids.drop_last(), q, rep);
        let f = first_pos(prev, ids.last());
        &&& replace_fold_ok(ns, ids.drop_last(), q, rep)
        &&& f >= 0 ==> replace_possible(prev[f], q, rep) && c + kind_count(prev[f].kind, q) <= usize::MAX
    }
}

/// The status after replacing everywhere: "{count} replacement(s) across {n} node(s)".
pub open spec fn replaced_all_text(count: nat, n: nat) -> Seq<char> {
    decimal(count) + " replacement(s) across "@ + decimal(n) + " node(s)"@
}

/// The graph is the same but for its nodes.
pub open spec fn only_nodes_changed(a: DialogueGraph, b: DialogueGraph) -> bool {
    &&& b.connections == a.connections
    &&& b.variables == a.variables
    &&& b.characters == a.characters
    &&& b.barks == a.barks
    &&& b.locale == a.locale
    &&& b.world_entities == a.world_entities
    &&& b.node_tags == a.node_tags
}

/// The replacement in the focused node is possible (or no node has the
/// focused identifier, or nothing has the focus).
pub open spec fn current_ok(p: SearchPanel, g: DialogueGraph) -> bool {
    p.index < p.results@.len() ==> {
        let ns = nodes_view(g.nodes@);
        let f = first_pos(ns, p.results@[p.index as int]);
        f >= 0 ==> replace_possible(ns[f], p.query@, p.replacement@)
    }
}

impl SearchPanel {
    /// An empty find bar.
    pub fn new() -> (p: SearchPanel)
        ensures
            p.query@.len() == 0,
            p.replacement@.len() == 0,
            p.results@.len() == 0,
            p.index == 0,
    {
        SearchPanel { query: String::new(), replacement: String::new(), results: Vec::new(), index: 0 }
    }

    /// Searches again: the results are the nodes that match the query; the
    /// focus goes back to the first result when it fell off the end (an
    /// empty query only empties the results).
    pub fn update_results(&mut self, graph: &DialogueGraph)
        ensures
            final(self).results@ == search_hits(*graph, old(self).query@),
            final(self).index == if lowercase_of(old(self).query@).len() > 0 && old(self).index >= final(self).results@.len() {
                0
            } else {
                old(self).index
            },
            final(self).query == old(self).query,
            final(self).replacement == old(self).replacement,
    {
        self.results = search_nodes(graph, self.query.as_str());
        let ql = lowercase(self.query.as_str());
        if ql.as_str().unicode_len() == 0 {
            return;
        }
        if self.index >= self.results.len() {
            self.index = 0;
        }
    }

    /// The result under focus, if any.
    pub fn current(&self) -> (r: Option<u128>)
        ensures
            r == if self.index < self.results@.len() { Some(self.results@[self.index as int]) } else { None },
    {
        if self.index < self.results.len() {
            Some(self.results[self.index])
        } else {
            None
        }
    }

    /// Replaces the query in the focused node (the first node with that
    /// identifier) after a snapshot, then searches again; returns the status
    /// text, or `None` when no result has the focus.
    pub fn replace_in_current(&mut self, graph: &mut DialogueGraph, history: &mut UndoHistory) -> (r: Option<String>)
        requires
            current_ok(*old(self), *old(graph)),
        ensures
            old(self).index >= old(self).results@.len() ==> r is None && *final(self) == *old(self)
                && *final(graph) == *old(graph) && *final(history) == *old(history),
            old(self).index < old(self).results@.len() ==> {
                let ns = nodes_view(old(graph).nodes@);
                let id = old(self).results@[old(self).index as int];
                let f = first_pos(ns, id);
                &&& r matches Some(t) && t@ == "Replaced in current node"@
                &&& final(history).view_stacks() == spec_save(old(history).view_stacks(), graph_view(*old(graph)))
                &&& f >= 0 ==> nodes_view(final(graph).nodes@) == ns.update(f, node_after(ns[f], old(self).query@, old(self).replacement@))
                &&& f < 0 ==> nodes_view(final(graph).nodes@) == ns
                &&& only_nodes_changed(*old(graph), *final(graph))
                &&& final(self).results@ == search_hits(*final(graph), old(self).query@)
                &&& final(self).index == if lowercase_of(old(self).query@).len() > 0 && old(self).index >= final(self).results@.len() {
                    0
                } else {
                    old(self).index
                }
                &&& final(self).query == old(self).query
                &&& final(self).replacement == old(self).replacement
            },
    {
        let id = match self.current() {
            Some(id) => id,
            None => {
                return None;
            },
        };
        history.save_snapshot(graph);
        let found = find_node(&graph.nodes, id);
        proof {
            lemma_found(graph.nodes@, id, found);
            lemma_nodes_view(graph.nodes@);
        }
        if let Some(i) = found {
            let mut n = copy_node(&graph.nodes[i]);
            assert(nodes_view(graph.nodes@)[i as int] == crate::model::node_view(graph.nodes@[i as int]));
            let _ = replace_in_node(&mut n, self.query.as_str(), self.replacement.as_str());
            proof {
                lemma_update_view(graph.nodes@, i as int, n);
            }
            graph.nodes.set(i, n);
        }
        self.update_results(graph);
        Some(owned("Replaced in current node"))
    }

    /// Replaces the query in every result (the first node with each
    /// identifier, in order) after a snapshot, searches again and puts the
    /// focus on the first result; returns the status text, or `None` when
    /// there is no result.
    #[verifier::rlimit(30)]
    pub fn replace_all(&mut self, graph: &mut DialogueGraph, history: &mut UndoHistory) -> (r: Option<String>)
        requires
            replace_fold_ok(nodes_view(old(graph).nodes@), old(self).results@, old(self).query@, old(self).replacement@),
        ensures
            old(self).results@.len() == 0 ==> r is None && *final(self) == *old(self)
                && *final(graph) == *old(graph) && *final(history) == *old(history),
            old(self).results@.len() > 0 ==> {
                let (ns, count) = replace_fold(nodes_view(old(graph).nodes@), old(self).results@, old(self).query@,
                    old(self).replacement@);
                &&& r matches Some(t) && t@ == replaced_all_text(count as nat, old(self).results@.len())
                &&& final(history).view_stacks() == spec_save(old(history).view_stacks(), graph_view(*old(graph)))
                &&& nodes_view(final(graph).nodes@) == ns
                &&& only_nodes_changed(*old(graph), *final(graph))
                &&& final(self).results@ == search_hits(*final(graph), old(self).query@)
                &&& final(self).index == 0
                &&& final(self).query == old(self).query
                &&& final(self).replacement == old(self).replacement
            },
    {
        if self.results.len() == 0 {
            return None;
        }
        history.save_snapshot(graph);
        let ghost ns0 = nodes_view(graph.nodes@);
        let ghost ids = self.results@;
        let mut count: usize = 0;
        let mut k: usize = 0;
        assert(ids.take(0) =~= Seq::<u128>::empty());
        while k < self.results.len()
            invariant
                k <= self.results.len(),
                ids == self.results@,
                *self == *old(self),
                replace_fold_ok(ns0, ids, self.query@, self.replacement@),
                replace_fold(ns0, ids.take(k as int), self.query@, self.replacement@) == (nodes_view(graph.nodes@), count as int),
                only_nodes_changed(*old(graph), *graph),
            decreases self.results.len() - k,
        {
            let id = self.results[k];
            proof {
                assert(ids.take(k + 1).drop_last() =~= ids.take(k as int));
                assert(ids.take(k + 1).last() == id);
                lemma_fold_ok_prefix(ns0, ids, self.query@, self.replacement@, k + 1);
            }
            let found = find_node(&graph.nodes, id);
            proof {
                lemma_found(graph.nodes@, id, found);
                lemma_nodes_view(graph.nodes@);
            }
            if let Some(i) = found {
                let mut n = copy_node(&graph.nodes[i]);
                assert(nodes_view(graph.nodes@)[i as int] == crate::model::node_view(graph.nodes@[i as int]));
                let c = replace_in_node(&mut n, self.query.as_str(), self.replacement.as_str());
                proof {
                    lemma_update_view(graph.nodes@, i as int, n);
                }
                graph.nodes.set(i, n);
                count = count + c;
            }
            k = k + 1;
        }
        assert(ids.take(ids.len() as int) =~= ids);
        let n_results = self.results.len();
        self.update_results(graph);
        self.index = 0;
        let mut text = String::new();
        push_decimal(&mut text, count as u64);
        push_str(&mut text, " replacement(s) across ");
        push_decimal(&mut text, n_results as u64);
        push_str(&mut text, " node(s)");
        Some(text)
    }

    /// `replace_in_current` when its replacement is possible (see
    /// `current_ok`), with its result in `Some`; otherwise `None`, with
    /// nothing changed.
    pub fn try_replace_in_current(&mut self, graph: &mut DialogueGraph, history: &mut UndoHistory) -> (r: Option<Option<String>>)
        ensures
            !current_ok(*old(self), *old(graph)) ==> r is None && *final(self) == *old(self)
                && *final(graph) == *old(graph) && *final(history) == *old(history),
            current_ok(*old(self), *old(graph)) ==> r is Some,
            old(self).index >= old(self).results@.len() ==> r == Some(None::<String>) && *final(self) == *old(self)
                && *final(graph) == *old(graph) && *final(history) == *old(history),
            current_ok(*old(self), *old(graph)) && old(self).index < old(self).results@.len() ==> {
                let ns = nodes_view(old(graph).nodes@);
                let id = old(self).results@[old(self).index as int];
                let f = first_pos(ns, id);
                &&& r matches Some(Some(t)) && t@ == "Replaced in current node"@
                &&& final(history).view_stacks() == spec_save(old(history).view_stacks(), graph_view(*old(graph)))
                &&& f >= 0 ==> nodes_view(final(graph).nodes@) == ns.update(f, node_after(ns[f], old(self).query@, old(self).replacement@))
                &&& f < 0 ==> nodes_view(final(graph).nodes@) == ns
                &&& only_nodes_changed(*old(graph), *final(graph))
                &&& final(self).results@ == search_hits(*final(graph), old(self).query@)
                &&& final(self).index == if lowercase_of(old(self).query@).len() > 0 && old(self).index >= final(self).results@.len() {
                    0
                } else {
                    old(self).index
                }
                &&& final(self).query == old(self).query
                &&& final(self).replacement == old(self).replacement
            },
    {
        if self.index < self.results.len() {
            let id = self.results[self.index];
            let found = find_node(&graph.nodes, id);
            proof {
                lemma_found(graph.nodes@, id, found);
                lemma_nodes_view(graph.nodes@);
            }
            if let Some(i) = found {
                assert(nodes_view(graph.nodes@)[i as int] == crate::model::node_view(graph.nodes@[i as int]));
                if !node_replace_possible(&graph.nodes[i], self.query.as_str(), self.replacement.as_str()) {
                    return None;
                }
            }
        }
        Some(self.replace_in_current(graph, history))
    }

    /// `replace_all` when every replacement along the way is possible (see
    /// `replace_fold_ok`), with its result in `Some`; otherwise `None`, with
    /// nothing changed.
    pub fn try_replace_all(&mut self, graph: &mut DialogueGraph, history: &mut UndoHistory) -> (r: Option<Option<String>>)
        ensures
            ({
                let ok = replace_fold_ok(nodes_view(old(graph).nodes@), old(self).results@, old(self).query@, old(self).replacement@);
                &&& !ok ==> r is None && *final(self) == *old(self) && *final(graph) == *old(graph)
                    && *final(history) == *old(history)
                &&& ok && old(self).results@.len() == 0 ==> r == Some(None::<String>) && *final(self) == *old(self)
                    && *final(graph) == *old(graph) && *final(history) == *old(history)
                &&& ok && old(self).results@.len() > 0 ==> {
                    let (ns, count) = replace_fold(nodes_view(old(graph).nodes@), old(self).results@, old(self).query@,
                        old(self).replacement@);
                    &&& r matches Some(Some(t)) && t@ == replaced_all_text(count as nat, old(self).results@.len())
                    &&& final(history).view_stacks() == spec_save(old(history).view_stacks(), graph_view(*old(graph)))
                    &&& nodes_view(final(graph).nodes@) == ns
                    &&& only_nodes_changed(*old(graph), *final(graph))
                    &&& final(self).results@ == search_hits(*final(graph), old(self).query@)
                    &&& final(self).index == 0
                    &&& final(self).query == old(self).query
                    &&& final(self).replacement == old(self).replacement
                }
            }),
    {
        if !self.fold_possible(graph) {
            return None;
        }
        Some(self.replace_all(graph, history))
    }

    /// Whether every replacement of `replace_all` is possible (see `replace_fold_ok`).
    fn fold_possible(&self, graph: &DialogueGraph) -> (r: bool)
        ensures
            r == replace_fold_ok(nodes_view(graph.nodes@), self.results@, self.query@, self.replacement@),
    {
        let ghost ns0 = nodes_view(graph.nodes@);
        let ghost ids = self.results@;
        let mut probe = copy_graph(graph);
        let mut count: usize = 0;
        let mut k: usize = 0;
        assert(ids.take(0) =~= Seq::<u128>::empty());
        while k < self.results.len()
            invariant
                k <= self.results.len(),
                ids == self.results@,
                ns0 == nodes_view(graph.nodes@),
                replace_fold_ok(ns0, ids.take(k as int), self.query@, self.replacement@),
                replace_fold(ns0, ids.take(k as int), self.query@, self.replacement@) == (nodes_view(probe.nodes@), count as int),
            decreases self.results.len() - k,
        {
            let id = self.results[k];
            proof {
                lemma_fold_step(ns0, ids, self.query@, self.replacement@, k as int);
            }
            let found = find_node(&probe.nodes, id);
            proof {
                lemma_found(probe.nodes@, id, found);
                lemma_nodes_view(probe.nodes@);
            }
            if let Some(i) = found {
                let mut n = copy_node(&probe.nodes[i]);
                assert(nodes_view(probe.nodes@)[i as int] == crate::model::node_view(probe.nodes@[i as int]));
                let possible = node_replace_possible(&n, self.query.as_str(), self.replacement.as_str());
                if !possible {
                    proof {
                        lemma_fold_not_ok(ns0, ids, self.query@, self.replacement@, k + 1);
                    }
                    return false;
                }
                let c = replace_in_node(&mut n, self.query.as_str(), self.replacement.as_str());
                proof {
                    lemma_update_view(probe.nodes@, i as int, n);
                }
                probe.nodes.set(i, n);
                if count > usize::MAX - c {
                    proof {
                        lemma_fold_not_ok(ns0, ids, self.query@, self.replacement@, k + 1);
                    }
                    return false;
                }
                count = count + c;
            }
            k = k + 1;
        }
        assert(ids.take(ids.len() as int) =~= ids);
        true
    }
}

/// Whether replacing in node `n` is possible (see `replace_possible`).
fn node_replace_possible(n: &crate::model::Node, query: &str, replacement: &str) -> (r: bool)
    ensures
        r == replace_possible(crate::model::node_view(*n), query@, replacement@),
{
    if query.unicode_len() == 0 {
        return false;
    }
    if !kind_ok_exec(&n.node_type, query, replacement) {
        return false;
    }
    match &n.node_type {
        crate::model::NodeType::Choice(c) => c.choices.len() < usize::MAX,
        _ => true,
    }
}

/// One more identifier in the fold: what `replace_fold` and
/// `replace_fold_ok` give on the first `k + 1` identifiers, from the first `k`.
proof fn lemma_fold_step(ns: Seq<NodeV>, ids: Seq<u128>, q: Seq<char>, rep: Seq<char>, k: int)
    requires
        0 <= k < ids.len(),
    ensures
        ({
            let (prev, c) = replace_fold(ns, ids.take(k), q, rep);
            let f = first_pos(prev, ids[k]);
            &&& replace_fold(ns, ids.take(k + 1), q, rep) == if f >= 0 {
                (prev.update(f, node_after(prev[f], q, rep)), c + kind_count(prev[f].kind, q))
            } else {
                (prev, c)
            }
            &&& replace_fold_ok(ns, ids.take(k + 1), q, rep) == (replace_fold_ok(ns, ids.take(k), q, rep)
                && (f >= 0 ==> replace_possible(prev[f], q, rep) && c + kind_count(prev[f].kind, q) <= usize::MAX))
        }),
{
    assert(ids.take(k + 1).drop_last() =~= ids.take(k));
    assert(ids.take(k + 1).last() == ids[k]);
}

/// A prefix whose condition fails makes the whole fold fail.
proof fn lemma_fold_not_ok(ns: Seq<NodeV>, ids: Seq<u128>, q: Seq<char>, rep: Seq<char>, k: int)
    requires
        0 <= k <= ids.len(),
        !replace_fold_ok(ns, ids.take(k), q, rep),
    ensures
        !replace_fold_ok(ns, ids, q, rep),
{
    if replace_fold_ok(ns, ids, q, rep) {
        lemma_fold_ok_prefix(ns, ids, q, rep, k);
    }
}

/// The condition of `replace_fold_ok` holds of every prefix.
proof fn lemma_fold_ok_prefix(ns: Seq<NodeV>, ids: Seq<u128>, q: Seq<char>, rep: Seq<char>, k: int)
    requires
        0 <= k <= ids.len(),
        replace_fold_ok(ns, ids, q, rep),
    ensures
        replace_fold_ok(ns, ids.take(k), q, rep),
    decreases ids.len() - k,
{
    if k < ids.len() {
        lemma_fold_ok_prefix(ns, ids, q, rep, k + 1);
        assert(ids.take(k + 1).drop_last() =~= ids.take(k));
    } else {
        assert(ids.take(k) =~= ids);
    }
}

} // verus!
