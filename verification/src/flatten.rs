//! Flattening: every sub-graph node is replaced by the nodes of its child
//! graph (without the child's Start and End nodes), and the wires that led into
//! and out of the sub-graph node are rerouted to the child's first node and
//! from the child's last nodes. Nested sub-graphs are expanded in turn.

use vstd::prelude::*;
use crate::copy::{copy_graph, copy_node};
use crate::ident::fresh_id;
use crate::model::{
    Connection, DialogueGraph, GraphV, KindV, Node, NodeType, NodeV, Wire, graph_view, lemma_nodes_view,
    node_view, nodes_view, wire, wires_of,
};

verus! {

/// How deeply sub-graphs are nested: each sub-graph node counts one plus the
/// weight of its child's nodes.
pub open spec fn sub_weight(ns: Seq<NodeV>) -> nat
    decreases ns,
{
    if ns.len() == 0 {
        0
    } else {
        sub_weight(ns.drop_last()) + node_weight(ns.last())
    }
}

pub open spec fn node_weight(n: NodeV) -> nat
    decreases n,
{
    match n.kind {
        KindV::SubGraph(_, g) => 1 + sub_weight(g.nodes),
        _ => 0,
    }
}

/// Position of the first sub-graph node, or -1.
pub open spec fn first_subgraph(ns: Seq<NodeV>) -> int
    decreases ns.len(),
{
    if ns.len() == 0 {
        -1
    } else if ns[0].kind is SubGraph {
        0
    } else {
        let r = first_subgraph(ns.drop_first());
        if r < 0 { -1 } else { r + 1 }
    }
}

/// Position of the first node with identifier `id`, or -1.
pub open spec fn first_pos(ns: Seq<NodeV>, id: u128) -> int
    decreases ns.len(),
{
    if ns.len() == 0 {
        -1
    } else if ns[0].id == id {
        0
    } else {
        let r = first_pos(ns.drop_first(), id);
        if r < 0 { -1 } else { r + 1 }
    }
}

/// Inserts a node: it takes the place of the first node with its identifier,
/// or is appended.
pub open spec fn insert_v(ns: Seq<NodeV>, n: NodeV) -> Seq<NodeV> {
    let j = first_pos(ns, n.id);
    if j >= 0 { ns.update(j, n) } else { ns.push(n) }
}

pub open spec fn insert_all(ns: Seq<NodeV>, cs: Seq<NodeV>) -> Seq<NodeV>
    decreases cs.len(),
{
    if cs.len() == 0 {
        ns
    } else {
        insert_v(insert_all(ns, cs.drop_last()), cs.last())
    }
}

/// The identifier of the first Start node.
pub open spec fn first_start(cs: Seq<NodeV>) -> Option<u128>
    decreases cs.len(),
{
    if cs.len() == 0 {
        None
    } else if cs[0].kind is Start {
        Some(cs[0].id)
    } else {
        first_start(cs.drop_first())
    }
}

/// Some End node has identifier `id`.
pub open spec fn is_end_id(cs: Seq<NodeV>, id: u128) -> bool {
    exists|j: int| 0 <= j < cs.len() && cs[j].id == id && cs[j].kind is End
}

/// The first node with identifier `id`.
pub open spec fn node_with(cs: Seq<NodeV>, id: u128) -> Option<NodeV>
    decreases cs.len(),
{
    if cs.len() == 0 {
        None
    } else if cs[0].id == id {
        Some(cs[0])
    } else {
        node_with(cs.drop_first(), id)
    }
}

/// The child nodes that are kept: all but the Start node and the End nodes.
pub open spec fn kept_children(all: Seq<NodeV>, cs: Seq<NodeV>, start: Option<u128>) -> Seq<NodeV>
    decreases cs.len(),
{
    if cs.len() == 0 {
        seq![]
    } else {
        let n = cs.last();
        kept_children(all, cs.drop_last(), start) + if start == Some(n.id) || is_end_id(all, n.id) {
            seq![]
        } else {
            seq![n]
        }
    }
}

/// Node and input port that the first wire leaving port `port` reaches.
pub open spec fn first_wire_from(ws: Seq<Wire>, port: u128) -> Option<(u128, u128)>
    decreases ws.len(),
{
    if ws.len() == 0 {
        None
    } else if ws[0].1 == port {
        Some((ws[0].2, ws[0].3))
    } else {
        first_wire_from(ws.drop_first(), port)
    }
}

/// The wires that touch neither end of node `id`.
pub open spec fn detach(ws: Seq<Wire>, id: u128) -> Seq<Wire>
    decreases ws.len(),
{
    if ws.len() == 0 {
        seq![]
    } else {
        detach(ws.drop_last(), id) + if ws.last().0 != id && ws.last().2 != id { seq![ws.last()] } else { seq![] }
    }
}

/// The wires that enter port `port`.
pub open spec fn into_port(ws: Seq<Wire>, port: u128) -> Seq<Wire>
    decreases ws.len(),
{
    if ws.len() == 0 {
        seq![]
    } else {
        into_port(ws.drop_last(), port) + if ws.last().3 == port { seq![ws.last()] } else { seq![] }
    }
}

/// The child wires that neither leave the Start node nor enter an End node.
pub open spec fn inner_wires(ws: Seq<Wire>, start: Option<u128>, cs: Seq<NodeV>) -> Seq<Wire>
    decreases ws.len(),
{
    if ws.len() == 0 {
        seq![]
    } else {
        inner_wires(ws.drop_last(), start, cs) + if start != Some(ws.last().0) && !is_end_id(cs, ws.last().2) {
            seq![ws.last()]
        } else {
            seq![]
        }
    }
}

/// The child wires that enter an End node.
pub open spec fn end_wires(ws: Seq<Wire>, cs: Seq<NodeV>) -> Seq<Wire>
    decreases ws.len(),
{
    if ws.len() == 0 {
        seq![]
    } else {
        end_wires(ws.drop_last(), cs) + if is_end_id(cs, ws.last().2) { seq![ws.last()] } else { seq![] }
    }
}

/// The wires led instead to input `port` of node `node`.
pub open spec fn redirect(ws: Seq<Wire>, node: u128, port: u128) -> Seq<Wire> {
    ws.map_values(|w: Wire| (w.0, w.1, node, port))
}

/// Node and input port that the child graph is entered by: the node reached
/// by the first wire from the Start node's first output, and that node's first
/// input.
pub open spec fn child_entry(cs: Seq<NodeV>, cws: Seq<Wire>, start: Option<u128>) -> Option<(u128, u128)> {
    match start {
        None => None,
        Some(sid) => match node_with(cs, sid) {
            None => None,
            Some(st) => if st.outputs.len() == 0 {
                None
            } else {
                match first_wire_from(cws, st.outputs[0].id) {
                    None => None,
                    Some(w) => match node_with(cs, w.0) {
                        None => None,
                        Some(t) => if t.inputs.len() == 0 { None } else { Some((w.0, t.inputs[0].id)) },
                    },
                }
            },
        },
    }
}

/// The nodes after expanding the sub-graph node at `i`.
pub open spec fn expand_nodes(ns: Seq<NodeV>, i: int) -> Seq<NodeV> {
    match ns[i].kind {
        KindV::SubGraph(_, g) => insert_all(ns.remove(i), kept_children(g.nodes, g.nodes, first_start(g.nodes))),
        _ => ns,
    }
}

/// The wires after expanding the sub-graph node at `i`: those that do not
/// touch it, the child's inner wires, the wires into it led to the child's
/// entry, and the child's wires into End nodes led to where the sub-graph
/// node's first output went.
pub open spec fn expand_wires(ns: Seq<NodeV>, ws: Seq<Wire>, i: int) -> Seq<Wire> {
    match ns[i].kind {
        KindV::SubGraph(_, g) => {
            let sg = ns[i];
            let cws = wires_of(g.connections);
            let start = first_start(g.nodes);
            let next = if sg.outputs.len() > 0 { first_wire_from(ws, sg.outputs[0].id) } else { None };
            let incoming = if sg.inputs.len() > 0 { into_port(ws, sg.inputs[0].id) } else { seq![] };
            detach(ws, sg.id) + inner_wires(cws, start, g.nodes) + match child_entry(g.nodes, cws, start) {
                Some(e) => redirect(incoming, e.0, e.1),
                None => seq![],
            } + match next {
                Some(nx) => redirect(end_wires(cws, g.nodes), nx.0, nx.1),
                None => seq![],
            }
        },
        _ => ws,
    }
}

// ------------------------------------------------------------ weight

pub proof fn lemma_first_subgraph(ns: Seq<NodeV>)
    ensures
        first_subgraph(ns) < 0 ==> forall|j: int| 0 <= j < ns.len() ==> !(#[trigger] ns[j].kind is SubGraph),
        first_subgraph(ns) >= 0 ==> first_subgraph(ns) < ns.len() && ns[first_subgraph(ns)].kind is SubGraph
            && forall|j: int| 0 <= j < first_subgraph(ns) ==> !(#[trigger] ns[j].kind is SubGraph),
    decreases ns.len(),
{
    if ns.len() > 0 {
        lemma_first_subgraph(ns.drop_first());
        assert forall|j: int| 0 < j < ns.len() implies ns[j] == ns.drop_first()[j - 1] by {}
    }
}

/// `first_pos` finds the first node with the identifier, or says there is none.
pub proof fn lemma_first_pos(ns: Seq<NodeV>, id: u128)
    ensures
        first_pos(ns, id) < 0 ==> forall|j: int| 0 <= j < ns.len() ==> #[trigger] ns[j].id != id,
        first_pos(ns, id) >= 0 ==> first_pos(ns, id) < ns.len() && ns[first_pos(ns, id)].id == id
            && forall|j: int| 0 <= j < first_pos(ns, id) ==> #[trigger] ns[j].id != id,
    decreases ns.len(),
{
    if ns.len() > 0 {
        lemma_first_pos(ns.drop_first(), id);
        assert forall|j: int| 0 < j < ns.len() implies ns[j] == ns.drop_first()[j - 1] by {}
    }
}

proof fn lemma_weight_update(ns: Seq<NodeV>, j: int, n: NodeV)
    requires
        0 <= j < ns.len(),
    ensures
        sub_weight(ns.update(j, n)) + node_weight(ns[j]) == sub_weight(ns) + node_weight(n),
    decreases ns.len(),
{
    let u = ns.update(j, n);
    if j == ns.len() - 1 {
        assert(u.drop_last() =~= ns.drop_last());
    } else {
        assert(u.drop_last() =~= ns.drop_last().update(j, n));
        lemma_weight_update(ns.drop_last(), j, n);
    }
}

proof fn lemma_weight_remove(ns: Seq<NodeV>, i: int)
    requires
        0 <= i < ns.len(),
    ensures
        sub_weight(ns.remove(i)) + node_weight(ns[i]) == sub_weight(ns),
    decreases ns.len(),
{
    let r = ns.remove(i);
    if i == ns.len() - 1 {
        assert(r =~= ns.drop_last());
    } else {
        assert(r.drop_last() =~= ns.drop_last().remove(i));
        assert(r.last() == ns.last());
        lemma_weight_remove(ns.drop_last(), i);
    }
}

proof fn lemma_weight_insert_all(ns: Seq<NodeV>, cs: Seq<NodeV>)
    ensures
        sub_weight(insert_all(ns, cs)) <= sub_weight(ns) + sub_weight(cs),
    decreases cs.len(),
{
    if cs.len() > 0 {
        lemma_weight_insert_all(ns, cs.drop_last());
        let m = insert_all(ns, cs.drop_last());
        let j = first_pos(m, cs.last().id);
        lemma_first_pos(m, cs.last().id);
        if j >= 0 {
            lemma_weight_update(m, j, cs.last());
        } else {
            assert(m.push(cs.last()).drop_last() =~= m);
        }
    }
}

proof fn lemma_weight_kept(all: Seq<NodeV>, cs: Seq<NodeV>, start: Option<u128>)
    ensures
        sub_weight(kept_children(all, cs, start)) <= sub_weight(cs),
    decreases cs.len(),
{
    if cs.len() > 0 {
        lemma_weight_kept(all, cs.drop_last(), start);
        let k = kept_children(all, cs.drop_last(), start);
        let n = cs.last();
        if !(start == Some(n.id) || is_end_id(all, n.id)) {
            assert((k + seq![n]).drop_last() =~= k);
        } else {
            assert(k + Seq::<NodeV>::empty() =~= k);
        }
    }
}

/// Expanding a sub-graph node lowers the weight.
pub proof fn lemma_expand_weight(ns: Seq<NodeV>, i: int)
    requires
        0 <= i < ns.len(),
        ns[i].kind is SubGraph,
    ensures
        sub_weight(expand_nodes(ns, i)) < sub_weight(ns),
{
    match ns[i].kind {
        KindV::SubGraph(_, g) => {
            lemma_weight_remove(ns, i);
            let kept = kept_children(g.nodes, g.nodes, first_start(g.nodes));
            lemma_weight_kept(g.nodes, g.nodes, first_start(g.nodes));
            lemma_weight_insert_all(ns.remove(i), kept);
        },
        _ => {},
    }
}

/// Nodes and wires once every sub-graph node has been expanded, the first one
/// first.
pub open spec fn flatten_state(ns: Seq<NodeV>, ws: Seq<Wire>) -> (Seq<NodeV>, Seq<Wire>)
    decreases sub_weight(ns),
{
    let i = first_subgraph(ns);
    if i < 0 {
        (ns, ws)
    } else {
        proof {
            lemma_first_subgraph(ns);
            lemma_expand_weight(ns, i);
        }
        flatten_state(expand_nodes(ns, i), expand_wires(ns, ws, i))
    }
}

/// No sub-graph node is left after flattening.
pub proof fn law_flatten_leaves_no_subgraph(ns: Seq<NodeV>, ws: Seq<Wire>)
    ensures
        forall|j: int| 0 <= j < flatten_state(ns, ws).0.len() ==> !(#[trigger] flatten_state(ns, ws).0[j].kind is SubGraph),
    decreases sub_weight(ns),
{
    let i = first_subgraph(ns);
    lemma_first_subgraph(ns);
    if i >= 0 {
        lemma_expand_weight(ns, i);
        law_flatten_leaves_no_subgraph(expand_nodes(ns, i), expand_wires(ns, ws, i));
    }
}

/// A graph without sub-graph nodes is left as it is.
pub proof fn law_flatten_without_subgraphs(ns: Seq<NodeV>, ws: Seq<Wire>)
    requires
        forall|j: int| 0 <= j < ns.len() ==> !(#[trigger] ns[j].kind is SubGraph),
    ensures
        flatten_state(ns, ws) == (ns, ws),
{
    lemma_first_subgraph(ns);
}

// ------------------------------------------------------------ executable

pub fn first_wire_to(conns: &Vec<Connection>, port: u128) -> (r: Option<(u128, u128)>)
    ensures
        r == first_wire_from(wires_of(conns@), port),
{
    let ghost ws = wires_of(conns@);
    let mut i: usize = 0;
    assert(ws.skip(0) =~= ws);
    while i < conns.len()
        invariant
            i <= conns.len(),
            ws == wires_of(conns@),
            first_wire_from(ws, port) == first_wire_from(ws.skip(i as int), port),
        decreases conns.len() - i,
    {
        assert(ws.skip(i as int).drop_first() =~= ws.skip(i + 1));
        assert(ws.skip(i as int)[0] == wire(conns@[i as int]));
        if conns[i].from_port == port {
            return Some((conns[i].to_node, conns[i].to_port));
        }
        i = i + 1;
    }
    assert(ws.skip(i as int) =~= Seq::<Wire>::empty());
    None
}

fn detach_conns(conns: &Vec<Connection>, id: u128) -> (r: Vec<Connection>)
    ensures
        wires_of(r@) == detach(wires_of(conns@), id),
        forall|c: Connection| #[trigger] conns@.contains(c) && c.from_node != id && c.to_node != id ==> r@.contains(c),
{
    let ghost ws = wires_of(conns@);
    let mut r: Vec<Connection> = Vec::new();
    let mut i: usize = 0;
    assert(ws.take(0) =~= Seq::<Wire>::empty());
    assert(wires_of(r@) =~= detach(ws.take(0), id));
    while i < conns.len()
        invariant
            i <= conns.len(),
            ws == wires_of(conns@),
            wires_of(r@) == detach(ws.take(i as int), id),
            forall|j: int| 0 <= j < i && conns@[j].from_node != id && conns@[j].to_node != id
                ==> r@.contains(#[trigger] conns@[j]),
        decreases conns.len() - i,
    {
        let c = conns[i];
        let ghost prev = r@;
        if c.from_node != id && c.to_node != id {
            r.push(c);
            assert(wires_of(r@) =~= wires_of(prev).push(wire(c)));
            assert forall|j: int| 0 <= j <= i && conns@[j].from_node != id && conns@[j].to_node != id
                implies r@.contains(#[trigger] conns@[j]) by {
                if j < i {
                    let k = choose|k: int| 0 <= k < prev.len() && prev[k] == conns@[j];
                    assert(r@[k] == prev[k]);
                } else {
                    assert(r@[prev.len() as int] == c);
                }
            }
        }
        proof {
            assert(ws.take(i + 1).drop_last() =~= ws.take(i as int));
            assert(ws.take(i + 1).last() == wire(c));
            assert(wires_of(r@) =~= detach(ws.take(i + 1), id));
        }
        i = i + 1;
    }
    assert(ws.take(conns.len() as int) =~= ws);
    assert forall|c: Connection| #[trigger] conns@.contains(c) && c.from_node != id && c.to_node != id implies r@.contains(c) by {
        let j = choose|j: int| 0 <= j < conns@.len() && conns@[j] == c;
    }
    r
}

fn into_conns(conns: &Vec<Connection>, port: u128) -> (r: Vec<Connection>)
    ensures
        wires_of(r@) == into_port(wires_of(conns@), port),
{
    let ghost ws = wires_of(conns@);
    let mut r: Vec<Connection> = Vec::new();
    let mut i: usize = 0;
    assert(ws.take(0) =~= Seq::<Wire>::empty());
    assert(wires_of(r@) =~= into_port(ws.take(0), port));
    while i < conns.len()
        invariant
            i <= conns.len(),
            ws == wires_of(conns@),
            wires_of(r@) == into_port(ws.take(i as int), port),
        decreases conns.len() - i,
    {
        let c = conns[i];
        let ghost prev = r@;
        if c.to_port == port {
            r.push(c);
            assert(wires_of(r@) =~= wires_of(prev).push(wire(c)));
        }
        proof {
            assert(ws.take(i + 1).drop_last() =~= ws.take(i as int));
            assert(ws.take(i + 1).last() == wire(c));
            assert(wires_of(r@) =~= into_port(ws.take(i + 1), port));
        }
        i = i + 1;
    }
    assert(ws.take(conns.len() as int) =~= ws);
    r
}

pub fn find_start(nodes: &Vec<Node>) -> (r: Option<u128>)
    ensures
        r == first_start(nodes_view(nodes@)),
{
    let ghost nv = nodes_view(nodes@);
    proof {
        lemma_nodes_view(nodes@);
    }
    let mut i: usize = 0;
    assert(nv.skip(0) =~= nv);
    while i < nodes.len()
        invariant
            i <= nodes.len(),
            nv == nodes_view(nodes@),
            nv.len() == nodes.len(),
            forall|k: int| 0 <= k < nodes.len() ==> #[trigger] nv[k] == node_view(nodes@[k]),
            first_start(nv) == first_start(nv.skip(i as int)),
        decreases nodes.len() - i,
    {
        assert(nv.skip(i as int).drop_first() =~= nv.skip(i + 1));
        assert(nv.skip(i as int)[0] == nv[i as int]);
        if let NodeType::Start = nodes[i].node_type {
            return Some(nodes[i].id);
        }
        i = i + 1;
    }
    assert(nv.skip(i as int) =~= Seq::<NodeV>::empty());
    None
}

fn is_end(nodes: &Vec<Node>, id: u128) -> (r: bool)
    ensures
        r == is_end_id(nodes_view(nodes@), id),
{
    let ghost nv = nodes_view(nodes@);
    proof {
        lemma_nodes_view(nodes@);
    }
    let mut i: usize = 0;
    while i < nodes.len()
        invariant
            i <= nodes.len(),
            nv == nodes_view(nodes@),
            nv.len() == nodes.len(),
            forall|k: int| 0 <= k < nodes.len() ==> #[trigger] nv[k] == node_view(nodes@[k]),
            forall|k: int| 0 <= k < i ==> !(nv[k].id == id && nv[k].kind is End),
        decreases nodes.len() - i,
    {
        assert(nv[i as int] == node_view(nodes@[i as int]));
        if nodes[i].id == id {
            if let NodeType::End(_) = nodes[i].node_type {
                return true;
            }
        }
        i = i + 1;
    }
    false
}

pub fn node_ref(nodes: &Vec<Node>, id: u128) -> (r: Option<&Node>)
    ensures
        match r {
            Some(n) => node_with(nodes_view(nodes@), id) == Some(node_view(*n)),
            None => node_with(nodes_view(nodes@), id) is None,
        },
{
    let ghost nv = nodes_view(nodes@);
    proof {
        lemma_nodes_view(nodes@);
    }
    let mut i: usize = 0;
    assert(nv.skip(0) =~= nv);
    while i < nodes.len()
        invariant
            i <= nodes.len(),
            nv == nodes_view(nodes@),
            nv.len() == nodes.len(),
            forall|k: int| 0 <= k < nodes.len() ==> #[trigger] nv[k] == node_view(nodes@[k]),
            node_with(nv, id) == node_with(nv.skip(i as int), id),
        decreases nodes.len() - i,
    {
        assert(nv.skip(i as int).drop_first() =~= nv.skip(i + 1));
        assert(nv.skip(i as int)[0] == nv[i as int]);
        if nodes[i].id == id {
            return Some(&nodes[i]);
        }
        i = i + 1;
    }
    assert(nv.skip(i as int) =~= Seq::<NodeV>::empty());
    None
}

fn entry_of(child: &DialogueGraph, start: Option<u128>) -> (r: Option<(u128, u128)>)
    ensures
        r == child_entry(nodes_view(child.nodes@), wires_of(child.connections@), start),
{
    match start {
        None => None,
        Some(sid) => match node_ref(&child.nodes, sid) {
            None => None,
            Some(st) => {
                if st.outputs.len() == 0 {
                    None
                } else {
                    match first_wire_to(&child.connections, st.outputs[0].id) {
                        None => None,
                        Some(w) => match node_ref(&child.nodes, w.0) {
                            None => None,
                            Some(t) => {
                                if t.inputs.len() == 0 {
                                    None
                                } else {
                                    Some((w.0, t.inputs[0].id))
                                }
                            },
                        },
                    }
                }
            },
        },
    }
}

/// Inserts a node as `add_node` does, stated over views.
pub fn insert_node_view(g: &mut DialogueGraph, n: Node)
    ensures
        nodes_view(final(g).nodes@) == insert_v(nodes_view(old(g).nodes@), node_view(n)),
        final(g).connections == old(g).connections,
        final(g).variables == old(g).variables,
        final(g).characters == old(g).characters,
        final(g).barks == old(g).barks,
        final(g).locale == old(g).locale,
        final(g).world_entities == old(g).world_entities,
        final(g).node_tags == old(g).node_tags,
{
    let ghost before = g.nodes@;
    let ghost nv = node_view(n);
    proof {
        lemma_nodes_view(before);
        lemma_first_pos(nodes_view(before), n.id);
    }
    let ghost j = first_pos(nodes_view(before), n.id);
    g.add_node(n);
    proof {
        lemma_nodes_view(g.nodes@);
        if j >= 0 {
            assert(nv.id == n.id);
            assert forall|k: int| 0 <= k < j implies before[k].id != nv.id by {
                assert(nodes_view(before)[k] == node_view(before[k]));
                assert(nodes_view(before)[k].id != n.id);
            }
            assert(nodes_view(before)[j] == node_view(before[j]));
            assert(crate::graph::is_first_node(before, nv.id, j));
            assert(g.nodes@ == before.update(j, n));
            assert(nodes_view(g.nodes@) =~= nodes_view(before).update(j, nv));
        } else {
            assert(!crate::graph::has_node(before, nv.id)) by {
                if crate::graph::has_node(before, nv.id) {
                    let k = choose|k: int| 0 <= k < before.len() && before[k].id == nv.id;
                    assert(nodes_view(before)[k].id == nv.id);
                }
            }
            assert(g.nodes@ == before.push(n));
            assert(nodes_view(g.nodes@) =~= nodes_view(before).push(nv));
        }
    }
}

/// Inserts the kept child nodes, in order.
fn insert_children(g: &mut DialogueGraph, child: &DialogueGraph, start: Option<u128>)
    ensures
        nodes_view(final(g).nodes@) == insert_all(
            nodes_view(old(g).nodes@),
            kept_children(nodes_view(child.nodes@), nodes_view(child.nodes@), start),
        ),
        final(g).connections == old(g).connections,
        final(g).variables == old(g).variables,
        final(g).characters == old(g).characters,
        final(g).barks == old(g).barks,
        final(g).locale == old(g).locale,
        final(g).world_entities == old(g).world_entities,
        final(g).node_tags == old(g).node_tags,
{
    let ghost cv = nodes_view(child.nodes@);
    let ghost base = nodes_view(g.nodes@);
    proof {
        lemma_nodes_view(child.nodes@);
    }
    let mut k: usize = 0;
    assert(cv.take(0) =~= Seq::<NodeV>::empty());
    while k < child.nodes.len()
        invariant
            k <= child.nodes.len(),
            cv == nodes_view(child.nodes@),
            cv.len() == child.nodes.len(),
            forall|q: int| 0 <= q < child.nodes.len() ==> #[trigger] cv[q] == node_view(child.nodes@[q]),
            nodes_view(g.nodes@) == insert_all(base, kept_children(cv, cv.take(k as int), start)),
            g.connections == old(g).connections,
            g.variables == old(g).variables,
            g.characters == old(g).characters,
            g.barks == old(g).barks,
            g.locale == old(g).locale,
            g.world_entities == old(g).world_entities,
            g.node_tags == old(g).node_tags,
        decreases child.nodes.len() - k,
    {
        let n = &child.nodes[k];
        let ghost nv = cv[k as int];
        assert(nv == node_view(*n));
        let ghost kept_before = kept_children(cv, cv.take(k as int), start);
        assert(cv.take(k + 1).drop_last() =~= cv.take(k as int));
        assert(cv.take(k + 1).last() == nv);
        let skip = (match start { Some(s) => s == n.id, None => false }) || is_end(&child.nodes, n.id);
        if !skip {
            let c = copy_node(n);
            insert_node_view(g, c);
            assert(kept_children(cv, cv.take(k + 1), start) =~= kept_before.push(nv));
            assert(kept_before.push(nv).drop_last() =~= kept_before);
        } else {
            assert(kept_children(cv, cv.take(k + 1), start) =~= kept_before);
        }
        k = k + 1;
    }
    assert(cv.take(child.nodes.len() as int) =~= cv);
}

/// Appends the child wires that neither leave the Start node nor enter an End node.
fn push_inner(conns: &mut Vec<Connection>, child: &DialogueGraph, start: Option<u128>)
    ensures
        wires_of(final(conns)@) == wires_of(old(conns)@) + inner_wires(wires_of(child.connections@), start, nodes_view(child.nodes@)),
        final(conns)@.len() >= old(conns)@.len(),
        final(conns)@.subrange(0, old(conns)@.len() as int) == old(conns)@,
{
    let ghost cws = wires_of(child.connections@);
    let ghost cv = nodes_view(child.nodes@);
    let ghost base = wires_of(conns@);
    let mut k: usize = 0;
    assert(cws.take(0) =~= Seq::<Wire>::empty());
    assert(base + inner_wires(cws.take(0), start, cv) =~= base);
    while k < child.connections.len()
        invariant
            k <= child.connections.len(),
            cws == wires_of(child.connections@),
            cv == nodes_view(child.nodes@),
            wires_of(conns@) == base + inner_wires(cws.take(k as int), start, cv),
            conns@.len() >= old(conns)@.len(),
            conns@.subrange(0, old(conns)@.len() as int) == old(conns)@,
        decreases child.connections.len() - k,
    {
        let c = child.connections[k];
        assert(cws.take(k + 1).drop_last() =~= cws.take(k as int));
        assert(cws.take(k + 1).last() == wire(c));
        let from_start = match start { Some(s) => s == c.from_node, None => false };
        let to_end = is_end(&child.nodes, c.to_node);
        let ghost prev = conns@;
        if !from_start && !to_end {
            conns.push(c);
            assert(wires_of(conns@) =~= wires_of(prev).push(wire(c)));
            assert(conns@.subrange(0, old(conns)@.len() as int) =~= prev.subrange(0, old(conns)@.len() as int));
        }
        assert(wires_of(conns@) =~= base + inner_wires(cws.take(k + 1), start, cv));
        k = k + 1;
    }
    assert(cws.take(child.connections.len() as int) =~= cws);
}

/// Appends, for each given wire, a new connection from its source to `node`'s
/// input `port`.
fn push_redirected(conns: &mut Vec<Connection>, from: &Vec<Connection>, node: u128, port: u128)
    ensures
        wires_of(final(conns)@) == wires_of(old(conns)@) + redirect(wires_of(from@), node, port),
        final(conns)@.len() >= old(conns)@.len(),
        final(conns)@.subrange(0, old(conns)@.len() as int) == old(conns)@,
{
    let ghost ws = wires_of(from@);
    let ghost base = wires_of(conns@);
    let mut k: usize = 0;
    assert(base + redirect(ws.take(0), node, port) =~= base);
    while k < from.len()
        invariant
            k <= from.len(),
            ws == wires_of(from@),
            wires_of(conns@) == base + redirect(ws.take(k as int), node, port),
            conns@.len() >= old(conns)@.len(),
            conns@.subrange(0, old(conns)@.len() as int) == old(conns)@,
        decreases from.len() - k,
    {
        let c = from[k];
        let ghost prev = conns@;
        conns.push(Connection { id: fresh_id(), from_node: c.from_node, from_port: c.from_port, to_node: node, to_port: port });
        assert(wires_of(conns@) =~= wires_of(prev).push((c.from_node, c.from_port, node, port)));
        assert(conns@.subrange(0, old(conns)@.len() as int) =~= prev.subrange(0, old(conns)@.len() as int));
        assert(redirect(ws.take(k + 1), node, port) =~= redirect(ws.take(k as int), node, port).push((c.from_node, c.from_port, node, port)));
        k = k + 1;
    }
    assert(ws.take(from.len() as int) =~= ws);
}

/// The child connections that enter an End node.
fn end_conns(child: &DialogueGraph) -> (r: Vec<Connection>)
    ensures
        wires_of(r@) == end_wires(wires_of(child.connections@), nodes_view(child.nodes@)),
{
    let ghost cws = wires_of(child.connections@);
    let ghost cv = nodes_view(child.nodes@);
    let mut r: Vec<Connection> = Vec::new();
    let mut k: usize = 0;
    assert(wires_of(r@) =~= end_wires(cws.take(0), cv));
    while k < child.connections.len()
        invariant
            k <= child.connections.len(),
            cws == wires_of(child.connections@),
            cv == nodes_view(child.nodes@),
            wires_of(r@) == end_wires(cws.take(k as int), cv),
        decreases child.connections.len() - k,
    {
        let c = child.connections[k];
        assert(cws.take(k + 1).drop_last() =~= cws.take(k as int));
        assert(cws.take(k + 1).last() == wire(c));
        let ghost prev = r@;
        if is_end(&child.nodes, c.to_node) {
            r.push(c);
            assert(wires_of(r@) =~= wires_of(prev).push(wire(c)));
        }
        assert(wires_of(r@) =~= end_wires(cws.take(k + 1), cv));
        k = k + 1;
    }
    assert(cws.take(child.connections.len() as int) =~= cws);
    r
}

proof fn lemma_prefix_keeps(s: Seq<Connection>, t: Seq<Connection>)
    requires
        s.len() >= t.len(),
        s.subrange(0, t.len() as int) == t,
    ensures
        forall|c: Connection| #[trigger] t.contains(c) ==> s.contains(c),
{
    assert forall|c: Connection| #[trigger] t.contains(c) implies s.contains(c) by {
        let j = choose|j: int| 0 <= j < t.len() && t[j] == c;
        assert(s.subrange(0, t.len() as int)[j] == s[j]);
    }
}

/// Expands the sub-graph node at position `i` (see `expand_nodes` and
/// `expand_wires`); the rerouted wires get fresh identifiers.
fn expand_one(g: &mut DialogueGraph, i: usize)
    requires
        i < old(g).nodes.len(),
        old(g).nodes@[i as int].node_type is SubGraph,
    ensures
        nodes_view(final(g).nodes@) == expand_nodes(nodes_view(old(g).nodes@), i as int),
        wires_of(final(g).connections@) == expand_wires(nodes_view(old(g).nodes@), wires_of(old(g).connections@), i as int),
        forall|c: Connection| #[trigger] old(g).connections@.contains(c) && c.from_node != old(g).nodes@[i as int].id
            && c.to_node != old(g).nodes@[i as int].id ==> final(g).connections@.contains(c),
        final(g).variables == old(g).variables,
        final(g).characters == old(g).characters,
        final(g).barks == old(g).barks,
        final(g).locale == old(g).locale,
        final(g).world_entities == old(g).world_entities,
        final(g).node_tags == old(g).node_tags,
{
    let ghost ns = nodes_view(g.nodes@);
    let ghost ws = wires_of(g.connections@);
    let ghost before = g.nodes@;
    proof {
        lemma_nodes_view(before);
    }
    let sg = g.nodes.remove(i);
    proof {
        lemma_nodes_view(g.nodes@);
        assert(nodes_view(g.nodes@) =~= ns.remove(i as int));
        assert(ns[i as int] == node_view(sg));
    }
    let sg_id = sg.id;
    let sg_in: Option<u128> = if sg.inputs.len() > 0 { Some(sg.inputs[0].id) } else { None };
    let sg_out: Option<u128> = if sg.outputs.len() > 0 { Some(sg.outputs[0].id) } else { None };
    let child = match sg.node_type {
        NodeType::SubGraph(data) => data.child_graph,
        _ => {
            proof {
                assert(false);
            }
            return;
        },
    };
    let ghost cg = graph_view(child);
    assert(ns[i as int].kind == KindV::SubGraph(ns[i as int].kind->SubGraph_0, cg));
    let next = match sg_out {
        Some(p) => first_wire_to(&g.connections, p),
        None => None,
    };
    let incoming = match sg_in {
        Some(p) => into_conns(&g.connections, p),
        None => Vec::new(),
    };
    let ghost c0 = g.connections@;
    g.connections = detach_conns(&g.connections, sg_id);
    let ghost c1 = g.connections@;
    let start = find_start(&child.nodes);
    let entry = entry_of(&child, start);
    insert_children(g, &child, start);
    push_inner(&mut g.connections, &child, start);
    proof {
        lemma_prefix_keeps(g.connections@, c1);
    }
    let ghost c2 = g.connections@;
    match entry {
        Some(e) => push_redirected(&mut g.connections, &incoming, e.0, e.1),
        None => {},
    }
    proof {
        assert(c2.subrange(0, c2.len() as int) =~= c2);
        lemma_prefix_keeps(g.connections@, c2);
    }
    let ghost c3 = g.connections@;
    match next {
        Some(nx) => {
            let ends = end_conns(&child);
            push_redirected(&mut g.connections, &ends, nx.0, nx.1);
        },
        None => {},
    }
    proof {
        assert(c3.subrange(0, c3.len() as int) =~= c3);
        lemma_prefix_keeps(g.connections@, c3);
        assert(sg_id == before[i as int].id);
    }
    proof {
        let cws = wires_of(child.connections@);
        let cv = nodes_view(child.nodes@);
        assert(cg.nodes == cv);
        assert(cg.connections == child.connections@);
        let inc = if ns[i as int].inputs.len() > 0 { into_port(ws, ns[i as int].inputs[0].id) } else { seq![] };
        assert(wires_of(incoming@) == inc);
        let tail1 = match child_entry(cv, cws, first_start(cv)) {
            Some(e) => redirect(inc, e.0, e.1),
            None => seq![],
        };
        assert(wires_of(g.connections@) =~= expand_wires(ns, ws, i as int));
    }
}

fn find_subgraph(nodes: &Vec<Node>) -> (r: Option<usize>)
    ensures
        match r {
            Some(i) => first_subgraph(nodes_view(nodes@)) == i as int,
            None => first_subgraph(nodes_view(nodes@)) < 0,
        },
{
    let ghost nv = nodes_view(nodes@);
    proof {
        lemma_nodes_view(nodes@);
    }
    let mut i: usize = 0;
    while i < nodes.len()
        invariant
            i <= nodes.len(),
            nv == nodes_view(nodes@),
            nv.len() == nodes.len(),
            forall|q: int| 0 <= q < nodes.len() ==> #[trigger] nv[q] == node_view(nodes@[q]),
            first_subgraph(nv) < 0 || first_subgraph(nv) >= i,
        decreases nodes.len() - i,
    {
        proof {
            lemma_first_subgraph(nv);
            lemma_first_subgraph(nv.skip(i as int));
        }
        assert(nv[i as int] == node_view(nodes@[i as int]));
        if let NodeType::SubGraph(_) = nodes[i].node_type {
            proof {
                lemma_first_subgraph(nv);
                if first_subgraph(nv) < 0 || first_subgraph(nv) > i {
                    assert(nv[i as int].kind is SubGraph);
                }
            }
            return Some(i);
        }
        proof {
            lemma_first_subgraph(nv);
            assert(!(nv[i as int].kind is SubGraph));
        }
        i = i + 1;
    }
    proof {
        lemma_first_subgraph(nv);
    }
    None
}

/// The identifiers of the sub-graph nodes of `ns`, those nested inside them
/// included.
pub open spec fn sub_ids(ns: Seq<NodeV>) -> Set<u128>
    decreases ns,
{
    if ns.len() == 0 {
        Set::empty()
    } else {
        sub_ids(ns.drop_last()).union(node_sub_ids(ns.last()))
    }
}

/// The identifier of a sub-graph node and those of the sub-graph nodes inside it.
pub open spec fn node_sub_ids(n: NodeV) -> Set<u128>
    decreases n,
{
    match n.kind {
        KindV::SubGraph(_, g) => sub_ids(g.nodes).insert(n.id),
        _ => Set::empty(),
    }
}

/// A connection reaches none of the given nodes.
pub open spec fn clear_of(c: Connection, ids: Set<u128>) -> bool {
    !ids.contains(c.from_node) && !ids.contains(c.to_node)
}

proof fn lemma_sub_ids_member(ns: Seq<NodeV>, x: u128)
    ensures
        sub_ids(ns).contains(x) <==> exists|k: int| 0 <= k < ns.len() && node_sub_ids(#[trigger] ns[k]).contains(x),
    decreases ns.len(),
{
    if ns.len() > 0 {
        let d = ns.drop_last();
        lemma_sub_ids_member(d, x);
        if sub_ids(ns).contains(x) {
            if sub_ids(d).contains(x) {
                let k = choose|k: int| 0 <= k < d.len() && node_sub_ids(#[trigger] d[k]).contains(x);
                assert(ns[k] == d[k]);
            } else {
                assert(node_sub_ids(ns[ns.len() - 1]).contains(x));
            }
        }
        if exists|k: int| 0 <= k < ns.len() && node_sub_ids(#[trigger] ns[k]).contains(x) {
            let k = choose|k: int| 0 <= k < ns.len() && node_sub_ids(#[trigger] ns[k]).contains(x);
            if k < ns.len() - 1 {
                assert(d[k] == ns[k]);
            }
        }
    }
}

/// `x` is a node of `base` or of `cs`.
spec fn from_either(x: NodeV, base: Seq<NodeV>, cs: Seq<NodeV>) -> bool {
    (exists|j: int| 0 <= j < base.len() && x == base[j]) || (exists|j: int| 0 <= j < cs.len() && x == cs[j])
}

proof fn lemma_insert_all_elems(base: Seq<NodeV>, cs: Seq<NodeV>)
    ensures
        forall|k: int| 0 <= k < insert_all(base, cs).len() ==> from_either(#[trigger] insert_all(base, cs)[k], base, cs),
    decreases cs.len(),
{
    let r = insert_all(base, cs);
    if cs.len() == 0 {
        assert forall|k: int| 0 <= k < r.len() implies from_either(#[trigger] r[k], base, cs) by {
            assert(r[k] == base[k]);
        }
    } else {
        let d = cs.drop_last();
        lemma_insert_all_elems(base, d);
        let m = insert_all(base, d);
        let n = cs.last();
        let f = first_pos(m, n.id);
        lemma_first_pos(m, n.id);
        assert(r == insert_v(m, n));
        assert forall|k: int| 0 <= k < r.len() implies from_either(#[trigger] r[k], base, cs) by {
            let from_m = if f >= 0 { k != f } else { k < m.len() };
            if from_m {
                assert(r[k] == m[k]);
                assert(from_either(m[k], base, d));
                if exists|j: int| 0 <= j < d.len() && m[k] == d[j] {
                    let j = choose|j: int| 0 <= j < d.len() && m[k] == d[j];
                    assert(cs[j] == d[j]);
                }
            } else {
                assert(r[k] == n);
                assert(r[k] == cs[cs.len() - 1]);
            }
        }
    }
}

proof fn lemma_kept_elems(all: Seq<NodeV>, cs: Seq<NodeV>, start: Option<u128>)
    ensures
        forall|k: int| 0 <= k < kept_children(all, cs, start).len()
            ==> exists|j: int| 0 <= j < cs.len() && #[trigger] kept_children(all, cs, start)[k] == cs[j],
    decreases cs.len(),
{
    if cs.len() > 0 {
        let d = cs.drop_last();
        lemma_kept_elems(all, d, start);
        let p = kept_children(all, d, start);
        let r = kept_children(all, cs, start);
        assert forall|k: int| 0 <= k < r.len() implies exists|j: int| 0 <= j < cs.len() && #[trigger] r[k] == cs[j] by {
            if k < p.len() {
                assert(r[k] == p[k]);
                let j = choose|j: int| 0 <= j < d.len() && p[k] == d[j];
                assert(cs[j] == d[j]);
            } else {
                assert(r[k] == cs[cs.len() - 1]);
            }
        }
    }
}

/// Expanding a sub-graph node brings in no sub-graph node that was not there,
/// at some depth, before.
proof fn lemma_expand_sub_ids(ns: Seq<NodeV>, i: int, x: u128)
    requires
        0 <= i < ns.len(),
        ns[i].kind is SubGraph,
        sub_ids(expand_nodes(ns, i)).contains(x),
    ensures
        sub_ids(ns).contains(x),
{
    let g = ns[i].kind->SubGraph_1;
    let base = ns.remove(i);
    let kept = kept_children(g.nodes, g.nodes, first_start(g.nodes));
    let r = expand_nodes(ns, i);
    assert(r == insert_all(base, kept));
    lemma_sub_ids_member(r, x);
    lemma_sub_ids_member(ns, x);
    lemma_insert_all_elems(base, kept);
    lemma_kept_elems(g.nodes, g.nodes, first_start(g.nodes));
    let k = choose|k: int| 0 <= k < r.len() && node_sub_ids(#[trigger] r[k]).contains(x);
    assert(from_either(r[k], base, kept));
    if exists|j: int| 0 <= j < base.len() && r[k] == base[j] {
        let j = choose|j: int| 0 <= j < base.len() && r[k] == base[j];
        if j < i {
            assert(base[j] == ns[j]);
        } else {
            assert(base[j] == ns[j + 1]);
        }
    } else {
        let j = choose|j: int| 0 <= j < kept.len() && r[k] == kept[j];
        let m = choose|m: int| 0 <= m < g.nodes.len() && kept[j] == g.nodes[m];
        lemma_sub_ids_member(g.nodes, x);
        assert(sub_ids(g.nodes).contains(x));
        assert(node_sub_ids(ns[i]).contains(x));
    }
}

/// A copy of the graph in which every sub-graph node has been expanded, nested
/// ones included (see `flatten_state`); the other project data is copied as it is.
/// A connection that touches no sub-graph node, at any level, is kept as it
/// was, identifier included; a graph without sub-graph nodes comes back with
/// the same nodes and the same connections.
pub fn flatten_subgraphs(graph: &DialogueGraph) -> (r: DialogueGraph)
    ensures
        (nodes_view(r.nodes@), wires_of(r.connections@))
            == flatten_state(nodes_view(graph.nodes@), wires_of(graph.connections@)),
        graph_view(r).variables == graph_view(*graph).variables,
        graph_view(r).characters == graph_view(*graph).characters,
        graph_view(r).barks == graph_view(*graph).barks,
        graph_view(r).locale == graph_view(*graph).locale,
        graph_view(r).world_entities == graph_view(*graph).world_entities,
        graph_view(r).node_tags == graph_view(*graph).node_tags,
        forall|c: Connection| #[trigger] graph.connections@.contains(c) && clear_of(c, sub_ids(nodes_view(graph.nodes@)))
            ==> r.connections@.contains(c),
        first_subgraph(nodes_view(graph.nodes@)) < 0 ==> r.connections@ == graph.connections@
            && nodes_view(r.nodes@) == nodes_view(graph.nodes@),
{
    let ghost s0 = sub_ids(nodes_view(graph.nodes@));
    let mut flat = copy_graph(graph);
    let ghost goal = flatten_state(nodes_view(graph.nodes@), wires_of(graph.connections@));
    let ghost gv = graph_view(flat);
    assert(nodes_view(flat.nodes@) == nodes_view(graph.nodes@));
    assert(flat.connections@ == graph.connections@);
    let mut idx = find_subgraph(&flat.nodes);
    while idx.is_some()
        invariant
            flatten_state(nodes_view(flat.nodes@), wires_of(flat.connections@)) == goal,
            match idx {
                Some(i) => first_subgraph(nodes_view(flat.nodes@)) == i as int,
                None => first_subgraph(nodes_view(flat.nodes@)) < 0,
            },
            graph_view(flat).variables == gv.variables,
            graph_view(flat).characters == gv.characters,
            graph_view(flat).barks == gv.barks,
            graph_view(flat).locale == gv.locale,
            graph_view(flat).world_entities == gv.world_entities,
            graph_view(flat).node_tags == gv.node_tags,
            s0 == sub_ids(nodes_view(graph.nodes@)),
            forall|x: u128| #[trigger] sub_ids(nodes_view(flat.nodes@)).contains(x) ==> s0.contains(x),
            forall|c: Connection| #[trigger] graph.connections@.contains(c) && clear_of(c, s0) ==> flat.connections@.contains(c),
            first_subgraph(nodes_view(graph.nodes@)) < 0 ==> flat.connections@ == graph.connections@
                && nodes_view(flat.nodes@) == nodes_view(graph.nodes@),
        decreases sub_weight(nodes_view(flat.nodes@)),
    {
        let i = match idx {
            Some(i) => i,
            None => 0,
        };
        let ghost nv = nodes_view(flat.nodes@);
        proof {
            lemma_first_subgraph(nv);
            lemma_nodes_view(flat.nodes@);
            assert(nv[i as int] == node_view(flat.nodes@[i as int]));
            lemma_expand_weight(nv, i as int);
            lemma_sub_ids_member(nv, nv[i as int].id);
            assert(node_sub_ids(nv[i as int]).contains(nv[i as int].id));
        }
        let ghost before_conns = flat.connections@;
        expand_one(&mut flat, i);
        proof {
            assert forall|x: u128| #[trigger] sub_ids(nodes_view(flat.nodes@)).contains(x) implies s0.contains(x) by {
                lemma_expand_sub_ids(nv, i as int, x);
            }
        }
        idx = find_subgraph(&flat.nodes);
    }
    proof {
        lemma_first_subgraph(nodes_view(flat.nodes@));
    }
    flat
}

/// The project data of a graph after flattening; the connections are left
/// out (see `flat_wires`), since the rerouted ones get fresh identifiers.
pub open spec fn flat_view(g: GraphV) -> GraphV {
    GraphV {
        nodes: flatten_state(g.nodes, wires_of(g.connections)).0,
        connections: seq![],
        variables: g.variables,
        characters: g.characters,
        barks: g.barks,
        locale: g.locale,
        world_entities: g.world_entities,
        node_tags: g.node_tags,
    }
}

/// The wires of a graph after flattening.
pub open spec fn flat_wires(g: GraphV) -> Seq<Wire> {
    flatten_state(g.nodes, wires_of(g.connections)).1
}

} // verus!
