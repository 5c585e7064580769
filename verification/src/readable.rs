//! Readable identifiers for the exporters: nodes are ordered by their place on
//! the canvas (top to bottom, then left to right) and numbered per type
//! (`start_1`, `dlg_1`, `dlg_2`, ...), characters are `char_1`, `char_2`, ...;
//! and the lookups that follow a wire from an output port to the node it
//! reaches.

use vstd::prelude::*;
use crate::model::{
    CompareOp, Connection, DialogueGraph, GraphV, KindV, Node, NodeType, NodeV, Port, PortV, Wire,
    graph_view, lemma_nodes_view, node_view, nodes_view, ports_view, wires_of,
};
use crate::text::{decimal, push_char, push_decimal};
use crate::csv::push_str;

verus! {

/// `a` comes before `b` on the canvas: higher up, or level and further left.
pub open spec fn key_lt(a: NodeV, b: NodeV) -> bool {
    a.position[1] < b.position[1] || (a.position[1] == b.position[1] && a.position[0] < b.position[0])
}

/// Inserts node index `x` into the ordered index list `s`, after every index
/// whose node does not come after it (a stable insertion).
pub open spec fn insert_in_order(nodes: Seq<NodeV>, s: Seq<int>, x: int) -> Seq<int>
    decreases s.len(),
{
    if s.len() == 0 {
        seq![x]
    } else if key_lt(nodes[x], nodes[s.last()]) {
        insert_in_order(nodes, s.drop_last(), x).push(s.last())
    } else {
        s.push(x)
    }
}

pub open spec fn order_upto(nodes: Seq<NodeV>, k: int) -> Seq<int>
    decreases k,
{
    if k <= 0 {
        seq![]
    } else {
        insert_in_order(nodes, order_upto(nodes, k - 1), k - 1)
    }
}

/// The node indices sorted by canvas position; nodes at the same place keep
/// their order in the graph.
pub open spec fn node_order(nodes: Seq<NodeV>) -> Seq<int> {
    order_upto(nodes, nodes.len() as int)
}

proof fn lemma_insert_at(nodes: Seq<NodeV>, s: Seq<int>, x: int, p: int)
    requires
        0 <= p <= s.len(),
        forall|q: int| p <= q < s.len() ==> key_lt(nodes[x], nodes[#[trigger] s[q]]),
        p > 0 ==> !key_lt(nodes[x], nodes[s[p - 1]]),
    ensures
        insert_in_order(nodes, s, x) == s.take(p) + seq![x] + s.skip(p),
    decreases s.len(),
{
    if s.len() == p {
        assert(s.take(p) =~= s);
        assert(s.skip(p) =~= Seq::<int>::empty());
        if p > 0 {
            assert(s.last() == s[p - 1]);
        }
        assert(insert_in_order(nodes, s, x) =~= s.take(p) + seq![x] + s.skip(p));
    } else {
        assert(key_lt(nodes[x], nodes[s[s.len() - 1]]));
        let s2 = s.drop_last();
        assert forall|q: int| p <= q < s2.len() implies key_lt(nodes[x], nodes[#[trigger] s2[q]]) by {
            assert(s2[q] == s[q]);
        }
        if p > 0 {
            assert(s2[p - 1] == s[p - 1]);
        }
        lemma_insert_at(nodes, s2, x, p);
        assert(insert_in_order(nodes, s, x) =~= s.take(p) + seq![x] + s.skip(p));
    }
}

/// Whether node `a` comes before node `b` on the canvas.
fn key_before(a: &Node, b: &Node) -> (r: bool)
    ensures
        r == key_lt(node_view(*a), node_view(*b)),
{
    a.position[1] < b.position[1] || (a.position[1] == b.position[1] && a.position[0] < b.position[0])
}

/// The node indices in canvas order (see `node_order`).
pub fn sorted_node_indices(nodes: &Vec<Node>) -> (r: Vec<usize>)
    ensures
        r@.map_values(|i: usize| i as int) == node_order(nodes_view(nodes@)),
        forall|q: int| 0 <= q < r.len() ==> #[trigger] r@[q] < nodes.len(),
{
    let ghost nv = nodes_view(nodes@);
    proof {
        lemma_nodes_view(nodes@);
    }
    let mut s: Vec<usize> = Vec::new();
    let mut k: usize = 0;
    assert(s@.map_values(|i: usize| i as int) =~= order_upto(nv, 0));
    while k < nodes.len()
        invariant
            k <= nodes.len(),
            nv == nodes_view(nodes@),
            nv.len() == nodes.len(),
            forall|q: int| 0 <= q < nodes.len() ==> #[trigger] nv[q] == node_view(nodes@[q]),
            s@.map_values(|i: usize| i as int) == order_upto(nv, k as int),
            forall|q: int| 0 <= q < s.len() ==> #[trigger] s@[q] < k,
        decreases nodes.len() - k,
    {
        let ghost sv = s@.map_values(|i: usize| i as int);
        let mut p: usize = s.len();
        while p > 0 && key_before(&nodes[k], &nodes[s[p - 1]])
            invariant
                k < nodes.len(),
                p <= s.len(),
                nv.len() == nodes.len(),
                forall|q: int| 0 <= q < nodes.len() ==> #[trigger] nv[q] == node_view(nodes@[q]),
                sv == s@.map_values(|i: usize| i as int),
                forall|q: int| 0 <= q < s.len() ==> #[trigger] s@[q] < k,
                forall|q: int| p <= q < s.len() ==> key_lt(nv[k as int], nv[#[trigger] sv[q]]),
            decreases p,
        {
            assert(nv[sv[p - 1]] == node_view(nodes@[s@[p - 1] as int]));
            p = p - 1;
        }
        proof {
            if p > 0 {
                assert(nv[sv[p - 1]] == node_view(nodes@[sv[p - 1]]));
                assert(!key_lt(nv[k as int], nv[sv[p - 1]]));
            }
            lemma_insert_at(nv, sv, k as int, p as int);
        }
        let ghost s0 = s@;
        s.insert(p, k);
        proof {
            assert(s@ == s0.insert(p as int, k));
            assert(s@.map_values(|i: usize| i as int) =~= sv.take(p as int) + seq![k as int] + sv.skip(p as int));
            assert forall|q: int| 0 <= q < s.len() implies #[trigger] s@[q] < k + 1 by {
                if q < p {
                    assert(s@[q] == s0[q]);
                } else if q > p {
                    assert(s@[q] == s0[q - 1]);
                }
            }
        }
        k = k + 1;
    }
    s
}

/// The number of the node type: 0 start, 1 dialogue, 2 choice, 3 condition,
/// 4 event, 5 random, 6 end, 7 sub-graph.
pub open spec fn kind_index(t: KindV) -> int {
    match t {
        KindV::Start => 0,
        KindV::Dialogue(_) => 1,
        KindV::Choice(..) => 2,
        KindV::Condition(_) => 3,
        KindV::Event(_) => 4,
        KindV::Random(_) => 5,
        KindV::End(_) => 6,
        KindV::SubGraph(..) => 7,
    }
}

/// The prefix of readable identifiers of a node type.
pub open spec fn type_prefix(t: KindV) -> Seq<char> {
    match t {
        KindV::Start => "start"@,
        KindV::Dialogue(_) => "dlg"@,
        KindV::Choice(..) => "choice"@,
        KindV::Condition(_) => "cond"@,
        KindV::Event(_) => "evt"@,
        KindV::Random(_) => "rand"@,
        KindV::End(_) => "end"@,
        KindV::SubGraph(..) => "sub"@,
    }
}

fn prefix_of(t: &NodeType) -> (r: (&'static str, usize))
    ensures
        r.0@ == type_prefix(crate::model::kind_view(*t)),
        r.1 == kind_index(crate::model::kind_view(*t)),
{
    match t {
        NodeType::Start => ("start", 0),
        NodeType::Dialogue(_) => ("dlg", 1),
        NodeType::Choice(_) => ("choice", 2),
        NodeType::Condition(_) => ("cond", 3),
        NodeType::Event(_) => ("evt", 4),
        NodeType::Random(_) => ("rand", 5),
        NodeType::End(_) => ("end", 6),
        NodeType::SubGraph(_) => ("sub", 7),
    }
}

/// How many of the indexed nodes have the type numbered `k`.
pub open spec fn count_kind(nodes: Seq<NodeV>, o: Seq<int>, k: int) -> nat
    decreases o.len(),
{
    if o.len() == 0 {
        0
    } else {
        count_kind(nodes, o.drop_last(), k) + (if kind_index(nodes[o.last()].kind) == k { 1nat } else { 0nat })
    }
}

proof fn lemma_count_kind_le(nodes: Seq<NodeV>, o: Seq<int>, k: int)
    ensures
        count_kind(nodes, o, k) <= o.len(),
    decreases o.len(),
{
    if o.len() > 0 {
        lemma_count_kind_le(nodes, o.drop_last(), k);
    }
}

/// The readable identifier of the node at place `p` of the order `o`: its type
/// prefix and its number among the nodes of its type up to that place.
pub open spec fn readable_at(nodes: Seq<NodeV>, o: Seq<int>, p: int) -> Seq<char> {
    type_prefix(nodes[o[p]].kind) + "_"@ + decimal(count_kind(nodes, o.take(p + 1), kind_index(nodes[o[p]].kind)))
}

/// The identifier table as inserted in order: the nodes in canvas order, then
/// the characters as `char_1`, `char_2`, ...; a later entry for the same
/// identifier takes the place of an earlier one.
pub open spec fn id_entries(g: GraphV) -> Seq<(u128, Seq<char>)> {
    let o = node_order(g.nodes);
    Seq::new(o.len(), |p: int| (g.nodes[o[p]].id, readable_at(g.nodes, o, p)))
        + Seq::new(g.characters.len(), |i: int| (g.characters[i].id, "char_"@ + decimal((i + 1) as nat)))
}

pub open spec fn entries_view(v: Seq<(u128, String)>) -> Seq<(u128, Seq<char>)> {
    v.map_values(|e: (u128, String)| (e.0, e.1@))
}

/// The readable identifier of `id`: that of its last entry.
pub open spec fn lookup_last(entries: Seq<(u128, Seq<char>)>, id: u128) -> Option<Seq<char>>
    decreases entries.len(),
{
    if entries.len() == 0 {
        None
    } else if entries.last().0 == id {
        Some(entries.last().1)
    } else {
        lookup_last(entries.drop_last(), id)
    }
}

pub proof fn lemma_order_len(nodes: Seq<NodeV>, k: int)
    requires
        0 <= k <= nodes.len(),
    ensures
        order_upto(nodes, k).len() == k,
    decreases k,
{
    if k > 0 {
        lemma_order_len(nodes, k - 1);
        lemma_insert_len(nodes, order_upto(nodes, k - 1), k - 1);
    }
}

proof fn lemma_insert_len(nodes: Seq<NodeV>, s: Seq<int>, x: int)
    ensures
        insert_in_order(nodes, s, x).len() == s.len() + 1,
    decreases s.len(),
{
    if s.len() > 0 {
        lemma_insert_len(nodes, s.drop_last(), x);
    }
}

proof fn lemma_insert_contains(nodes: Seq<NodeV>, s: Seq<int>, x: int, y: int)
    ensures
        insert_in_order(nodes, s, x).contains(y) <==> (s.contains(y) || y == x),
    decreases s.len(),
{
    if s.len() > 0 {
        lemma_insert_contains(nodes, s.drop_last(), x, y);
        let t = insert_in_order(nodes, s, x);
        if key_lt(nodes[x], nodes[s.last()]) {
            let u = insert_in_order(nodes, s.drop_last(), x);
            assert(t == u.push(s.last()));
            if u.contains(y) {
                let i = choose|i: int| 0 <= i < u.len() && u[i] == y;
                assert(t[i] == y);
            }
            if t.contains(y) && y != s.last() {
                let i = choose|i: int| 0 <= i < t.len() && t[i] == y;
                assert(i < u.len());
                assert(u[i] == y);
            }
            if s.drop_last().contains(y) {
                let i = choose|i: int| 0 <= i < s.drop_last().len() && s.drop_last()[i] == y;
                assert(s[i] == y);
            }
            if s.contains(y) && y != s.last() {
                let i = choose|i: int| 0 <= i < s.len() && s[i] == y;
                assert(i < s.len() - 1);
                assert(s.drop_last()[i] == y);
            }
            assert(t[t.len() - 1] == s.last());
            assert(s[s.len() - 1] == s.last());
        } else {
            assert(t == s.push(x));
            if s.contains(y) {
                let i = choose|i: int| 0 <= i < s.len() && s[i] == y;
                assert(t[i] == y);
            }
            if t.contains(y) && y != x {
                let i = choose|i: int| 0 <= i < t.len() && t[i] == y;
                assert(i < s.len());
                assert(s[i] == y);
            }
            assert(t[s.len() as int] == x);
        }
    } else {
        assert(insert_in_order(nodes, s, x) == seq![x]);
        if seq![x].contains(y) {
            let i = choose|i: int| 0 <= i < 1 && seq![x][i] == y;
        }
        assert(seq![x][0] == x);
    }
}

/// The canvas order lists every node index.
pub proof fn lemma_order_covers(nodes: Seq<NodeV>, k: int, j: int)
    requires
        0 <= j < k <= nodes.len(),
    ensures
        order_upto(nodes, k).contains(j),
    decreases k,
{
    lemma_insert_contains(nodes, order_upto(nodes, k - 1), k - 1, j);
    if j < k - 1 {
        lemma_order_covers(nodes, k - 1, j);
    }
}

/// Readable identifiers of the graph's nodes and characters, in the order they
/// are assigned (see `id_entries`).
pub fn build_id_map(graph: &DialogueGraph) -> (r: Vec<(u128, String)>)
    ensures
        entries_view(r@) == id_entries(graph_view(*graph)),
{
    let order = sorted_node_indices(&graph.nodes);
    let ghost nodes = nodes_view(graph.nodes@);
    let ghost o = node_order(nodes);
    proof {
        lemma_nodes_view(graph.nodes@);
    }
    proof {
        lemma_order_len(nodes, nodes.len() as int);
    }
    assert(order@.len() == o.len());
    let mut counters: Vec<usize> = Vec::new();
    let mut z: usize = 0;
    while z < 8
        invariant
            z <= 8,
            counters@.len() == z,
            forall|k: int| 0 <= k < z ==> #[trigger] counters@[k] == 0,
        decreases 8 - z,
    {
        counters.push(0);
        z = z + 1;
    }
    let ghost node_part = Seq::new(o.len(), |p: int| (nodes[o[p]].id, readable_at(nodes, o, p)));
    let mut out: Vec<(u128, String)> = Vec::new();
    let mut p: usize = 0;
    assert(entries_view(out@) =~= node_part.take(0));
    while p < order.len()
        invariant
            p <= order.len(),
            nodes == nodes_view(graph.nodes@),
            nodes.len() == graph.nodes.len(),
            forall|q: int| 0 <= q < graph.nodes.len() ==> #[trigger] nodes[q] == node_view(graph.nodes@[q]),
            o == node_order(nodes),
            order@.map_values(|i: usize| i as int) == o,
            forall|q: int| 0 <= q < order.len() ==> #[trigger] order@[q] < nodes.len(),
            counters@.len() == 8,
            forall|k: int| 0 <= k < 8 ==> #[trigger] counters@[k] == count_kind(nodes, o.take(p as int), k),
            node_part == Seq::new(o.len(), |p: int| (nodes[o[p]].id, readable_at(nodes, o, p))),
            entries_view(out@) == node_part.take(p as int),
        decreases order.len() - p,
    {
        let i = order[p];
        assert(o[p as int] == i as int);
        let node = &graph.nodes[i];
        assert(nodes[i as int] == node_view(*node));
        let (prefix, k) = prefix_of(&node.node_type);
        proof {
            assert(o.take(p + 1).drop_last() =~= o.take(p as int));
            assert(o.take(p + 1).last() == o[p as int]);
            lemma_count_kind_le(nodes, o.take(p as int), k as int);
            assert forall|kk: int| 0 <= kk < 8 implies count_kind(nodes, o.take(p + 1), kk)
                == count_kind(nodes, o.take(p as int), kk) + (if kk == k { 1nat } else { 0nat }) by {
            }
        }
        let c = counters[k] + 1;
        counters.set(k, c);
        let mut rid = String::new();
        push_str(&mut rid, prefix);
        push_char(&mut rid, '_');
        push_decimal(&mut rid, c as u64);
        proof {
            reveal_strlit("_");
            assert(rid@ =~= readable_at(nodes, o, p as int));
        }
        let ghost prev = out@;
        out.push((node.id, rid));
        proof {
            assert(entries_view(out@) =~= entries_view(prev).push((node.id, rid@)));
            assert(node_part.take(p + 1) =~= node_part.take(p as int).push(node_part[p as int]));
            assert forall|kk: int| 0 <= kk < 8 implies #[trigger] counters@[kk] == count_kind(nodes, o.take(p + 1), kk) by {
            }
        }
        p = p + 1;
    }
    assert(node_part.take(order.len() as int) =~= node_part);
    let ghost char_part = Seq::new(graph_view(*graph).characters.len(), |i: int| (graph_view(*graph).characters[i].id, "char_"@ + decimal((i + 1) as nat)));
    let mut ci: usize = 0;
    assert(entries_view(out@) =~= node_part + char_part.take(0));
    while ci < graph.characters.len()
        invariant
            ci <= graph.characters.len(),
            char_part == Seq::new(graph_view(*graph).characters.len(), |i: int| (graph_view(*graph).characters[i].id, "char_"@ + decimal((i + 1) as nat))),
            entries_view(out@) == node_part + char_part.take(ci as int),
        decreases graph.characters.len() - ci,
    {
        let mut rid = String::new();
        push_str(&mut rid, "char_");
        push_decimal(&mut rid, (ci as u64) + 1);
        let ghost prev = out@;
        out.push((graph.characters[ci].id, rid));
        proof {
            assert(rid@ =~= "char_"@ + decimal((ci + 1) as nat));
            assert(graph_view(*graph).characters[ci as int].id == graph.characters@[ci as int].id);
            assert(entries_view(out@) =~= entries_view(prev).push((graph.characters@[ci as int].id, rid@)));
            assert(char_part.take(ci + 1) =~= char_part.take(ci as int).push(char_part[ci as int]));
            assert(entries_view(out@) =~= node_part + char_part.take(ci + 1));
        }
        ci = ci + 1;
    }
    assert(char_part.take(graph.characters.len() as int) =~= char_part);
    assert(graph_view(*graph).nodes == nodes);
    assert(entries_view(out@) =~= id_entries(graph_view(*graph)));
    out
}

/// The readable identifier of `id` in the table, if it has one.
pub fn lookup_id(entries: &Vec<(u128, String)>, id: u128) -> (r: Option<String>)
    ensures
        match r {
            Some(s) => lookup_last(entries_view(entries@), id) == Some(s@),
            None => lookup_last(entries_view(entries@), id) is None,
        },
{
    let mut k: usize = entries.len();
    assert(entries@.take(k as int) =~= entries@);
    while k > 0
        invariant
            k <= entries.len(),
            lookup_last(entries_view(entries@), id) == lookup_last(entries_view(entries@.take(k as int)), id),
        decreases k,
    {
        proof {
            assert(entries_view(entries@.take(k as int)).drop_last() =~= entries_view(entries@.take(k - 1)));
        }
        if entries[k - 1].0 == id {
            return Some(entries[k - 1].1.clone());
        }
        k = k - 1;
    }
    None
}

/// The node that the last connection leaving output port `port` reaches.
pub open spec fn wire_target(ws: Seq<Wire>, port: u128) -> Option<u128>
    decreases ws.len(),
{
    if ws.len() == 0 {
        None
    } else if ws.last().1 == port {
        Some(ws.last().2)
    } else {
        wire_target(ws.drop_last(), port)
    }
}

/// The readable identifier of the node that output port `port` leads to.
pub open spec fn next_of(entries: Seq<(u128, Seq<char>)>, ws: Seq<Wire>, port: u128) -> Option<Seq<char>> {
    match wire_target(ws, port) {
        Some(t) => lookup_last(entries, t),
        None => None,
    }
}

/// The readable identifier of the node reached from output `i` of a node:
/// the node that the last wire leaving that port goes to, looked up among
/// the readable identifiers; `None` when there is no such output, wire or
/// identifier.
pub open spec fn reached_id(entries: Seq<(u128, Seq<char>)>, ws: Seq<Wire>, outputs: Seq<PortV>, i: int) -> Option<Seq<char>> {
    if 0 <= i < outputs.len() {
        match wire_target(ws, outputs[i].id) {
            Some(t) => lookup_last(entries, t),
            None => None,
        }
    } else {
        None
    }
}

/// The readable identifier of the node that output `i` of a node leads to.
pub open spec fn next_at(entries: Seq<(u128, Seq<char>)>, ws: Seq<Wire>, outputs: Seq<PortV>, i: int) -> Option<Seq<char>> {
    if 0 <= i < outputs.len() { next_of(entries, ws, outputs[i].id) } else { None }
}

/// Follows the wire leaving output port `port`, if any.
pub fn target_of(conns: &Vec<Connection>, port: u128) -> (r: Option<u128>)
    ensures
        r == wire_target(wires_of(conns@), port),
{
    let ghost ws = wires_of(conns@);
    let mut k: usize = conns.len();
    assert(ws.take(k as int) =~= ws);
    while k > 0
        invariant
            k <= conns.len(),
            ws == wires_of(conns@),
            wire_target(ws, port) == wire_target(ws.take(k as int), port),
        decreases k,
    {
        assert(ws.take(k as int).drop_last() =~= ws.take(k - 1));
        if conns[k - 1].from_port == port {
            return Some(conns[k - 1].to_node);
        }
        k = k - 1;
    }
    None
}

/// The readable identifier of the node reached from output `i`, if any.
pub fn next_from(entries: &Vec<(u128, String)>, conns: &Vec<Connection>, outputs: &Vec<Port>, i: usize) -> (r: Option<String>)
    ensures
        match r {
            Some(s) => next_at(entries_view(entries@), wires_of(conns@), ports_view(outputs@), i as int) == Some(s@),
            None => next_at(entries_view(entries@), wires_of(conns@), ports_view(outputs@), i as int) is None,
        },
{
    if i >= outputs.len() {
        return None;
    }
    match target_of(conns, outputs[i].id) {
        Some(t) => lookup_id(entries, t),
        None => None,
    }
}

/// The readable identifier of the node reached from the first output.
pub fn find_next_single(outputs: &Vec<Port>, conns: &Vec<Connection>, entries: &Vec<(u128, String)>) -> (r: Option<String>)
    ensures
        match r {
            Some(s) => next_at(entries_view(entries@), wires_of(conns@), ports_view(outputs@), 0) == Some(s@),
            None => next_at(entries_view(entries@), wires_of(conns@), ports_view(outputs@), 0) is None,
        },
{
    next_from(entries, conns, outputs, 0)
}

pub open spec fn op_text(op: CompareOp) -> Seq<char> {
    match op {
        CompareOp::Eq => "=="@,
        CompareOp::Neq => "!="@,
        CompareOp::Gt => ">"@,
        CompareOp::Lt => "<"@,
        CompareOp::Gte => ">="@,
        CompareOp::Lte => "<="@,
        CompareOp::Contains => "contains"@,
    }
}

/// The symbol of a comparison operator.
pub fn compare_op_str(op: CompareOp) -> (r: &'static str)
    ensures
        r@ == op_text(op),
{
    match op {
        CompareOp::Eq => "==",
        CompareOp::Neq => "!=",
        CompareOp::Gt => ">",
        CompareOp::Lt => "<",
        CompareOp::Gte => ">=",
        CompareOp::Lte => "<=",
        CompareOp::Contains => "contains",
    }
}

} // verus!
