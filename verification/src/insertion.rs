//! Templates and graphs: putting a copy of a template into a graph (every
//! node, port and connection of the copy gets a fresh identifier, and the
//! template's internal wiring is rebuilt between the copies), and making a
//! template of a selection.

use vstd::prelude::*;
use crate::copy::{copy_node, copy_node_type};
use crate::flatten::{first_pos, insert_all, insert_node_view, lemma_first_pos};
use crate::graph::find_node;
use crate::ident::fresh_id;
use crate::model::{
    Connection, DialogueGraph, GraphV, KindV, Node, NodeType, NodeV, Port, PortV, SubGraphData, Wire, graph_view, kind_view,
    lemma_nodes_view, node_view, nodes_view, ports_view, wire, wires_of,
};
use crate::templates::NodeTemplate;

verus! {

/// `b` holds the ports of `a`, in order, with the same labels.
pub open spec fn relabelled(a: Seq<PortV>, b: Seq<PortV>) -> bool {
    a.len() == b.len() && forall|i: int| 0 <= i < a.len() ==> #[trigger] b[i].label == a[i].label
}

/// The pairs (old identifier, new identifier) of two lists of ports.
pub open spec fn port_pairs(a: Seq<PortV>, b: Seq<PortV>) -> Seq<(u128, u128)> {
    Seq::new(a.len(), |i: int| (a[i].id, b[i].id))
}

/// The pairs (old identifier, new identifier) of two lists of nodes.
pub open spec fn node_pairs(a: Seq<NodeV>, b: Seq<NodeV>) -> Seq<(u128, u128)> {
    Seq::new(a.len(), |i: int| (a[i].id, b[i].id))
}

/// The port pairs of the first `k` nodes: inputs, then outputs, node by node.
pub open spec fn all_port_pairs(a: Seq<NodeV>, b: Seq<NodeV>, k: int) -> Seq<(u128, u128)>
    decreases k,
{
    if k <= 0 {
        seq![]
    } else {
        all_port_pairs(a, b, k - 1) + port_pairs(a[k - 1].inputs, b[k - 1].inputs)
            + port_pairs(a[k - 1].outputs, b[k - 1].outputs)
    }
}

/// The new identifier that the last pair naming `x` gives, if any.
pub open spec fn new_id(pairs: Seq<(u128, u128)>, x: u128) -> Option<u128>
    decreases pairs.len(),
{
    if pairs.len() == 0 {
        None
    } else if pairs.last().0 == x {
        Some(pairs.last().1)
    } else {
        new_id(pairs.drop_last(), x)
    }
}

/// `x` renamed by the pairs, or kept when no pair names it.
pub open spec fn renamed(pairs: Seq<(u128, u128)>, x: u128) -> u128 {
    match new_id(pairs, x) {
        Some(y) => y,
        None => x,
    }
}

/// `h` is `g` with fresh identifiers for its nodes, ports and connections:
/// everything else is kept, and the connections are rewired to the renamed
/// nodes and ports.
pub open spec fn regenerated(g: GraphV, h: GraphV) -> bool {
    &&& h.nodes.len() == g.nodes.len()
    &&& forall|i: int| 0 <= i < g.nodes.len() ==> {
        &&& #[trigger] h.nodes[i].kind == g.nodes[i].kind
        &&& h.nodes[i].position == g.nodes[i].position
        &&& relabelled(g.nodes[i].inputs, h.nodes[i].inputs)
        &&& relabelled(g.nodes[i].outputs, h.nodes[i].outputs)
    }
    &&& h.connections.len() == g.connections.len()
    &&& forall|i: int| 0 <= i < g.connections.len() ==> #[trigger] wire(h.connections[i]) == (
        renamed(node_pairs(g.nodes, h.nodes), g.connections[i].from_node),
        renamed(all_port_pairs(g.nodes, h.nodes, g.nodes.len() as int), g.connections[i].from_port),
        renamed(node_pairs(g.nodes, h.nodes), g.connections[i].to_node),
        renamed(all_port_pairs(g.nodes, h.nodes, g.nodes.len() as int), g.connections[i].to_port),
    )
    &&& h.variables == g.variables
    &&& h.characters == g.characters
    &&& h.barks == g.barks
    &&& h.locale == g.locale
    &&& h.world_entities == g.world_entities
    &&& h.node_tags == g.node_tags
}

/// The new identifier of `x` by the last pair that names it.
fn lookup_pair(pairs: &Vec<(u128, u128)>, x: u128) -> (r: Option<u128>)
    ensures
        r == new_id(pairs@, x),
{
    let mut k: usize = pairs.len();
    assert(pairs@.take(k as int) =~= pairs@);
    while k > 0
        invariant
            k <= pairs.len(),
            new_id(pairs@, x) == new_id(pairs@.take(k as int), x),
        decreases k,
    {
        assert(pairs@.take(k as int).drop_last() =~= pairs@.take(k - 1));
        if pairs[k - 1].0 == x {
            return Some(pairs[k - 1].1);
        }
        k = k - 1;
    }
    None
}

fn rename(pairs: &Vec<(u128, u128)>, x: u128) -> (r: u128)
    ensures
        r == renamed(pairs@, x),
{
    match lookup_pair(pairs, x) {
        Some(y) => y,
        None => x,
    }
}

/// Gives each port a fresh identifier, recording (old, new) in `pairs`.
fn fresh_ports(ps: &Vec<Port>, pairs: &mut Vec<(u128, u128)>) -> (r: Vec<Port>)
    ensures
        relabelled(ports_view(ps@), ports_view(r@)),
        final(pairs)@ == old(pairs)@ + port_pairs(ports_view(ps@), ports_view(r@)),
{
    let ghost start = pairs@;
    let mut r: Vec<Port> = Vec::new();
    let mut i: usize = 0;
    while i < ps.len()
        invariant
            i <= ps.len(),
            r@.len() == i,
            forall|k: int| 0 <= k < i ==> #[trigger] r@[k].label@ == ps@[k].label@,
            pairs@ == start + Seq::new(i as nat, |k: int| (ps@[k].id, r@[k].id)),
        decreases ps.len() - i,
    {
        let id = fresh_id();
        r.push(Port { id, label: ps[i].label.clone() });
        pairs.push((ps[i].id, id));
        assert(pairs@ =~= start + Seq::new((i + 1) as nat, |k: int| (ps@[k].id, r@[k].id)));
        i = i + 1;
    }
    assert(port_pairs(ports_view(ps@), ports_view(r@)) =~= Seq::new(ps.len() as nat, |k: int| (ps@[k].id, r@[k].id)));
    r
}

proof fn lemma_all_port_pairs_prefix(a: Seq<NodeV>, b: Seq<NodeV>, c: Seq<NodeV>, k: int)
    requires
        0 <= k <= b.len(),
        k <= c.len(),
        forall|q: int| 0 <= q < k ==> b[q] == c[q],
    ensures
        all_port_pairs(a, b, k) == all_port_pairs(a, c, k),
    decreases k,
{
    if k > 0 {
        lemma_all_port_pairs_prefix(a, b, c, k - 1);
    }
}

/// Gives every node, port and connection of `g` a fresh identifier and
/// rewires the connections to the renamed nodes and ports; nodes nested in
/// sub-graphs of `g` keep theirs.
pub fn regenerate_child_ids(g: &mut DialogueGraph)
    ensures
        regenerated(graph_view(*old(g)), graph_view(*final(g))),
{
    let ghost c0 = g.connections@;
    let mut old_nodes: Vec<Node> = Vec::new();
    std::mem::swap(&mut old_nodes, &mut g.nodes);
    let ghost ov = nodes_view(old_nodes@);
    proof {
        lemma_nodes_view(old_nodes@);
    }
    let mut ids: Vec<(u128, u128)> = Vec::new();
    let mut ports: Vec<(u128, u128)> = Vec::new();
    let mut new_nodes: Vec<Node> = Vec::new();
    let mut i: usize = 0;
    while i < old_nodes.len()
        invariant
            i <= old_nodes.len(),
            ov == nodes_view(old_nodes@),
            ov.len() == old_nodes.len(),
            forall|q: int| 0 <= q < old_nodes.len() ==> #[trigger] ov[q] == node_view(old_nodes@[q]),
            new_nodes@.len() == i,
            nodes_view(new_nodes@).len() == i,
            forall|k: int| 0 <= k < i ==> {
                &&& #[trigger] nodes_view(new_nodes@)[k].kind == ov[k].kind
                &&& nodes_view(new_nodes@)[k].position == ov[k].position
                &&& relabelled(ov[k].inputs, nodes_view(new_nodes@)[k].inputs)
                &&& relabelled(ov[k].outputs, nodes_view(new_nodes@)[k].outputs)
            },
            ids@ == Seq::new(i as nat, |k: int| (ov[k].id, nodes_view(new_nodes@)[k].id)),
            ports@ == all_port_pairs(ov, nodes_view(new_nodes@), i as int),
        decreases old_nodes.len() - i,
    {
        let n = &old_nodes[i];
        let nid = fresh_id();
        let ins = fresh_ports(&n.inputs, &mut ports);
        let outs = fresh_ports(&n.outputs, &mut ports);
        let m = Node { id: nid, node_type: copy_node_type(&n.node_type), inputs: ins, outputs: outs, position: n.position };
        let ghost before = new_nodes@;
        let ghost nvb = nodes_view(before);
        ids.push((n.id, nid));
        new_nodes.push(m);
        proof {
            assert(new_nodes@.drop_last() == before);
            let nv = nodes_view(new_nodes@);
            assert(nv == nvb.push(node_view(m)));
            assert(ov[i as int] == node_view(old_nodes@[i as int]));
            lemma_all_port_pairs_prefix(ov, nvb, nv, i as int);
            assert(ports@ == all_port_pairs(ov, nv, i + 1));
            assert(ids@ =~= Seq::new((i + 1) as nat, |k: int| (ov[k].id, nv[k].id)));
        }
        i = i + 1;
    }
    let ghost nv = nodes_view(new_nodes@);
    assert(ids@ == node_pairs(ov, nv));
    let mut j: usize = 0;
    while j < g.connections.len()
        invariant
            j <= g.connections.len(),
            g.connections@.len() == c0.len(),
            forall|k: int| j <= k < c0.len() ==> #[trigger] g.connections@[k] == c0[k],
            forall|k: int| 0 <= k < j ==> #[trigger] wire(g.connections@[k]) == (
                renamed(ids@, c0[k].from_node),
                renamed(ports@, c0[k].from_port),
                renamed(ids@, c0[k].to_node),
                renamed(ports@, c0[k].to_port),
            ),
            g.variables == old(g).variables,
            g.characters == old(g).characters,
            g.barks == old(g).barks,
            g.locale == old(g).locale,
            g.world_entities == old(g).world_entities,
            g.node_tags == old(g).node_tags,
        decreases c0.len() - j,
    {
        let c = g.connections[j];
        let nc = Connection {
            id: fresh_id(),
            from_node: rename(&ids, c.from_node),
            from_port: rename(&ports, c.from_port),
            to_node: rename(&ids, c.to_node),
            to_port: rename(&ports, c.to_port),
        };
        g.connections.set(j, nc);
        j = j + 1;
    }
    g.nodes = new_nodes;
}

/// `c` is the copy of template node `t` placed `offset` away: same kind (a
/// sub-graph gets fresh identifiers inside), same port labels, shifted position.
pub open spec fn placed_copy(t: NodeV, c: NodeV, offset: Seq<i32>) -> bool {
    &&& c.position.len() == 2
    &&& c.position[0] == t.position[0] + offset[0]
    &&& c.position[1] == t.position[1] + offset[1]
    &&& relabelled(t.inputs, c.inputs)
    &&& relabelled(t.outputs, c.outputs)
    &&& match t.kind {
        KindV::SubGraph(name, inner) => c.kind matches KindV::SubGraph(name2, inner2) && name2 == name
            && regenerated(inner, inner2),
        _ => c.kind == t.kind,
    }
}

/// Some wire already joins output port `p` to input port `q`.
pub open spec fn wired(ws: Seq<Wire>, p: u128, q: u128) -> bool {
    exists|j: int| 0 <= j < ws.len() && ws[j].1 == p && ws[j].3 == q
}

/// The wires after `add_connection` with the ends of `w`.
pub open spec fn connect(ws: Seq<Wire>, w: Wire) -> Seq<Wire> {
    if w.0 == w.2 || wired(ws, w.1, w.3) {
        ws
    } else {
        ws.push(w)
    }
}

/// The wires after connecting, in order, each template connection whose two
/// nodes and two ports were all copied, between the copies.
pub open spec fn rewired(ws: Seq<Wire>, tcs: Seq<Connection>, nodes: Seq<(u128, u128)>, ports: Seq<(u128, u128)>) -> Seq<Wire>
    decreases tcs.len(),
{
    if tcs.len() == 0 {
        ws
    } else {
        let prev = rewired(ws, tcs.drop_last(), nodes, ports);
        let c = tcs.last();
        match (new_id(nodes, c.from_node), new_id(ports, c.from_port), new_id(nodes, c.to_node), new_id(ports, c.to_port)) {
            (Some(a), Some(p), Some(b), Some(q)) => connect(prev, (a, p, b, q)),
            _ => prev,
        }
    }
}

/// `after` is `before` with the copies `copies` of the template's nodes
/// inserted, named `ids`, and the template's wiring rebuilt between them.
pub open spec fn template_inserted(
    before: DialogueGraph,
    after: DialogueGraph,
    t: NodeTemplate,
    offset: Seq<i32>,
    ids: Seq<u128>,
    copies: Seq<NodeV>,
) -> bool {
    let tv = nodes_view(t.nodes@);
    &&& copies.len() == tv.len()
    &&& ids.len() == tv.len()
    &&& forall|i: int| 0 <= i < tv.len() ==> #[trigger] copies[i].id == ids[i] && placed_copy(tv[i], copies[i], offset)
    &&& nodes_view(after.nodes@) == insert_all(nodes_view(before.nodes@), copies)
    &&& wires_of(after.connections@) == rewired(
        wires_of(before.connections@),
        t.connections@,
        node_pairs(tv, copies),
        all_port_pairs(tv, copies, tv.len() as int),
    )
}

fn place_kind(t: &NodeType) -> (r: NodeType)
    ensures
        match kind_view(*t) {
            KindV::SubGraph(name, inner) => kind_view(r) matches KindV::SubGraph(name2, inner2) && name2 == name
                && regenerated(inner, inner2),
            _ => kind_view(r) == kind_view(*t),
        },
{
    match copy_node_type(t) {
        NodeType::SubGraph(d) => {
            let mut child = d.child_graph;
            regenerate_child_ids(&mut child);
            NodeType::SubGraph(SubGraphData { name: d.name, child_graph: child })
        },
        other => other,
    }
}

/// Inserts a copy of every template node, shifted by `offset`, with fresh
/// identifiers for it and its ports (and, in a sub-graph, for everything
/// inside), then adds the template's connections between the copies by the
/// rule of `add_connection`. Returns the copies' identifiers, in template
/// order: the new selection.
pub fn insert_template(graph: &mut DialogueGraph, template: &NodeTemplate, offset: [i32; 2]) -> (r: Vec<u128>)
    requires
        forall|i: int| 0 <= i < template.nodes@.len() ==> {
            &&& i32::MIN <= #[trigger] template.nodes@[i].position@[0] + offset@[0] <= i32::MAX
            &&& i32::MIN <= template.nodes@[i].position@[1] + offset@[1] <= i32::MAX
        },
    ensures
        exists|copies: Seq<NodeV>| #[trigger] template_inserted(*old(graph), *final(graph), *template, offset@, r@, copies),
        final(graph).variables == old(graph).variables,
        final(graph).characters == old(graph).characters,
        final(graph).barks == old(graph).barks,
        final(graph).locale == old(graph).locale,
        final(graph).world_entities == old(graph).world_entities,
        final(graph).node_tags == old(graph).node_tags,
{
    let ghost tv = nodes_view(template.nodes@);
    let ghost base = nodes_view(graph.nodes@);
    let ghost w0 = wires_of(graph.connections@);
    proof {
        lemma_nodes_view(template.nodes@);
    }
    let ghost mut copies: Seq<NodeV> = seq![];
    let mut ids: Vec<(u128, u128)> = Vec::new();
    let mut ports: Vec<(u128, u128)> = Vec::new();
    let mut r: Vec<u128> = Vec::new();
    let mut i: usize = 0;
    while i < template.nodes.len()
        invariant
            i <= template.nodes.len(),
            tv == nodes_view(template.nodes@),
            tv.len() == template.nodes.len(),
            forall|q: int| 0 <= q < template.nodes.len() ==> #[trigger] tv[q] == node_view(template.nodes@[q]),
            forall|q: int| 0 <= q < template.nodes@.len() ==> {
                &&& i32::MIN <= #[trigger] template.nodes@[q].position@[0] + offset@[0] <= i32::MAX
                &&& i32::MIN <= template.nodes@[q].position@[1] + offset@[1] <= i32::MAX
            },
            copies.len() == i,
            r@.len() == i,
            forall|k: int| 0 <= k < i ==> #[trigger] copies[k].id == r@[k] && placed_copy(tv[k], copies[k], offset@),
            ids@ == Seq::new(i as nat, |k: int| (tv[k].id, copies[k].id)),
            ports@ == all_port_pairs(tv, copies, i as int),
            nodes_view(graph.nodes@) == insert_all(base, copies),
            graph.connections == old(graph).connections,
            graph.variables == old(graph).variables,
            graph.characters == old(graph).characters,
            graph.barks == old(graph).barks,
            graph.locale == old(graph).locale,
            graph.world_entities == old(graph).world_entities,
            graph.node_tags == old(graph).node_tags,
        decreases template.nodes.len() - i,
    {
        let n = &template.nodes[i];
        assert(tv[i as int] == node_view(template.nodes@[i as int]));
        let nid = fresh_id();
        let ins = fresh_ports(&n.inputs, &mut ports);
        let outs = fresh_ports(&n.outputs, &mut ports);
        let kind = place_kind(&n.node_type);
        let x: i32 = n.position[0] + offset[0];
        let y: i32 = n.position[1] + offset[1];
        let m = Node { id: nid, node_type: kind, inputs: ins, outputs: outs, position: [x, y] };
        let ghost prev = copies;
        proof {
            copies = copies.push(node_view(m));
            assert(copies.drop_last() == prev);
            lemma_all_port_pairs_prefix(tv, prev, copies, i as int);
            assert(ports@ == all_port_pairs(tv, copies, i + 1));
        }
        ids.push((n.id, nid));
        r.push(nid);
        insert_node_view(graph, m);
        proof {
            assert(ids@ =~= Seq::new((i + 1) as nat, |k: int| (tv[k].id, copies[k].id)));
            assert(placed_copy(tv[i as int], copies[i as int], offset@));
        }
        i = i + 1;
    }
    assert(ids@ == node_pairs(tv, copies));
    let ghost tcs = template.connections@;
    let mut j: usize = 0;
    assert(tcs.take(0) =~= Seq::<Connection>::empty());
    while j < template.connections.len()
        invariant
            j <= template.connections.len(),
            tcs == template.connections@,
            wires_of(graph.connections@) == rewired(w0, tcs.take(j as int), ids@, ports@),
            nodes_view(graph.nodes@) == insert_all(base, copies),
            graph.variables == old(graph).variables,
            graph.characters == old(graph).characters,
            graph.barks == old(graph).barks,
            graph.locale == old(graph).locale,
            graph.world_entities == old(graph).world_entities,
            graph.node_tags == old(graph).node_tags,
        decreases template.connections.len() - j,
    {
        let c = template.connections[j];
        let ghost cs = graph.connections@;
        proof {
            assert(tcs.take(j + 1).drop_last() =~= tcs.take(j as int));
            assert(tcs.take(j + 1).last() == c);
        }
        let a = lookup_pair(&ids, c.from_node);
        let p = lookup_pair(&ports, c.from_port);
        let b = lookup_pair(&ids, c.to_node);
        let q = lookup_pair(&ports, c.to_port);
        if let (Some(a), Some(p), Some(b), Some(q)) = (a, p, b, q) {
            proof {
                let ws = wires_of(cs);
                assert(wired(ws, p, q) == crate::graph::already_wired(cs, p, q)) by {
                    if wired(ws, p, q) {
                        let k = choose|k: int| 0 <= k < ws.len() && ws[k].1 == p && ws[k].3 == q;
                        assert(ws[k] == wire(cs[k]));
                    }
                    if crate::graph::already_wired(cs, p, q) {
                        let k = choose|k: int| 0 <= k < cs.len() && cs[k].from_port == p && cs[k].to_port == q;
                        assert(ws[k] == wire(cs[k]));
                    }
                }
            }
            let added = graph.add_connection(a, p, b, q);
            proof {
                if added {
                    assert(graph.connections@ == cs.push(graph.connections@.last()));
                    assert(wires_of(graph.connections@) =~= wires_of(cs).push((a, p, b, q)));
                }
            }
        }
        j = j + 1;
    }
    assert(tcs.take(tcs.len() as int) =~= tcs);
    assert(template_inserted(*old(graph), *graph, *template, offset@, r@, copies));
    r
}

/// The nodes that the selection names, each once, in the order of the
/// selection: for each identifier, the first node that has it.
pub open spec fn picked(ns: Seq<NodeV>, sel: Seq<u128>) -> Seq<NodeV>
    decreases sel.len(),
{
    if sel.len() == 0 {
        seq![]
    } else {
        let prev = picked(ns, sel.drop_last());
        let id = sel.last();
        if sel.drop_last().contains(id) || first_pos(ns, id) < 0 {
            prev
        } else {
            prev.push(ns[first_pos(ns, id)])
        }
    }
}

/// The least first coordinate of the nodes' positions (`i32::MAX` for none).
pub open spec fn least_x(ps: Seq<NodeV>) -> int
    decreases ps.len(),
{
    if ps.len() == 0 {
        i32::MAX as int
    } else {
        let m = least_x(ps.drop_last());
        if ps.last().position[0] < m { ps.last().position[0] as int } else { m }
    }
}

/// The least second coordinate of the nodes' positions (`i32::MAX` for none).
pub open spec fn least_y(ps: Seq<NodeV>) -> int
    decreases ps.len(),
{
    if ps.len() == 0 {
        i32::MAX as int
    } else {
        let m = least_y(ps.drop_last());
        if ps.last().position[1] < m { ps.last().position[1] as int } else { m }
    }
}

/// `n` moved by (-dx, -dy).
pub open spec fn moved(n: NodeV, dx: int, dy: int) -> NodeV {
    NodeV { position: seq![(n.position[0] - dx) as i32, (n.position[1] - dy) as i32], ..n }
}

/// Keeps the connections whose two ends are both selected.
pub open spec fn inside(sel: Seq<u128>) -> spec_fn(Connection) -> bool {
    |c: Connection| sel.contains(c.from_node) && sel.contains(c.to_node)
}

/// Moving each node by the least coordinates keeps its position in `i32`.
pub open spec fn fits_moved(ps: Seq<NodeV>) -> bool {
    forall|t: int| 0 <= t < ps.len() ==> {
        &&& #[trigger] ps[t].position[0] - least_x(ps) <= i32::MAX
        &&& ps[t].position[1] - least_y(ps) <= i32::MAX
    }
}

proof fn lemma_least(ps: Seq<NodeV>)
    ensures
        forall|t: int| 0 <= t < ps.len() ==> least_x(ps) <= #[trigger] ps[t].position[0] && least_y(ps) <= ps[t].position[1],
        i32::MIN <= least_x(ps) <= i32::MAX,
        i32::MIN <= least_y(ps) <= i32::MAX,
    decreases ps.len(),
{
    if ps.len() > 0 {
        lemma_least(ps.drop_last());
        let q = ps.drop_last();
        assert forall|t: int| 0 <= t < ps.len() implies least_x(ps) <= #[trigger] ps[t].position[0] && least_y(ps) <= ps[t].position[1] by {
            if t < ps.len() - 1 {
                assert(ps[t] == q[t]);
                assert(least_x(q) <= q[t].position[0]);
                assert(least_y(q) <= q[t].position[1]);
            }
        }
    }
}

/// `id` occurs among the first `k` items of `v`.
fn occurs(v: &Vec<u128>, k: usize, id: u128) -> (r: bool)
    requires
        k <= v.len(),
    ensures
        r == v@.take(k as int).contains(id),
{
    let mut i: usize = 0;
    while i < k
        invariant
            i <= k <= v.len(),
            forall|j: int| 0 <= j < i ==> v@[j] != id,
        decreases k - i,
    {
        if v[i] == id {
            assert(v@.take(k as int)[i as int] == id);
            return true;
        }
        i = i + 1;
    }
    assert(!v@.take(k as int).contains(id)) by {
        if v@.take(k as int).contains(id) {
            let j = choose|j: int| 0 <= j < k && v@.take(k as int)[j] == id;
            assert(v@[j] == id);
        }
    }
    false
}

/// The positions in `graph.nodes` of the nodes that the selection names
/// (see `picked`).
fn pick_nodes(graph: &DialogueGraph, selected: &Vec<u128>) -> (chosen: Vec<usize>)
    ensures
        chosen@.len() == picked(nodes_view(graph.nodes@), selected@).len(),
        forall|q: int| 0 <= q < chosen@.len() ==> #[trigger] chosen@[q] < graph.nodes.len()
            && nodes_view(graph.nodes@)[chosen@[q] as int] == picked(nodes_view(graph.nodes@), selected@)[q],
{
    let ghost ns = nodes_view(graph.nodes@);
    let ghost sel = selected@;
    proof {
        lemma_nodes_view(graph.nodes@);
    }
    let ghost mut pv: Seq<NodeV> = seq![];
    let mut chosen: Vec<usize> = Vec::new();
    let mut k: usize = 0;
    assert(sel.take(0) =~= Seq::<u128>::empty());
    while k < selected.len()
        invariant
            k <= selected.len(),
            sel == selected@,
            ns == nodes_view(graph.nodes@),
            ns.len() == graph.nodes.len(),
            forall|q: int| 0 <= q < graph.nodes.len() ==> #[trigger] ns[q] == node_view(graph.nodes@[q]),
            pv == picked(ns, sel.take(k as int)),
            chosen@.len() == pv.len(),
            forall|q: int| 0 <= q < chosen@.len() ==> #[trigger] chosen@[q] < ns.len() && ns[chosen@[q] as int] == pv[q],
        decreases selected.len() - k,
    {
        let id = selected[k];
        proof {
            assert(sel.take(k + 1).drop_last() =~= sel.take(k as int));
            assert(sel.take(k + 1).last() == id);
        }
        let ghost prev = pv;
        if !occurs(selected, k, id) {
            proof {
                lemma_first_pos(ns, id);
            }
            match find_node(&graph.nodes, id) {
                Some(j) => {
                    proof {
                        let f = first_pos(ns, id);
                        assert(ns[j as int] == node_view(graph.nodes@[j as int]));
                        if f < 0 {
                            assert(ns[j as int].id != id);
                        } else if f < j {
                            assert(ns[f] == node_view(graph.nodes@[f]));
                        } else if f > j {
                            assert(ns[j as int].id == id);
                        }
                        assert(f == j);
                        pv = pv.push(ns[j as int]);
                        assert(pv.drop_last() == prev);
                    }
                    chosen.push(j);
                },
                None => {
                    proof {
                        if first_pos(ns, id) >= 0 {
                            let f = first_pos(ns, id);
                            assert(ns[f] == node_view(graph.nodes@[f]));
                            assert(crate::graph::has_node(graph.nodes@, id));
                        }
                    }
                },
            }
        }
        k = k + 1;
    }
    assert(sel.take(sel.len() as int) =~= sel);
    chosen
}

/// A template made of the selected nodes, moved so that the least
/// coordinates of the group become zero, and of the connections that join
/// two selected nodes; `None` for an empty selection. The template is a
/// user's one, with a fresh identifier and no description.
pub fn template_from_selection(graph: &DialogueGraph, selected: &Vec<u128>, name: String) -> (r: Option<NodeTemplate>)
    requires
        fits_moved(picked(nodes_view(graph.nodes@), selected@)),
    ensures
        r is None <==> selected@.len() == 0,
        r matches Some(t) ==> {
            let ps = picked(nodes_view(graph.nodes@), selected@);
            &&& t.name@ == name@
            &&& t.description@ == Seq::<char>::empty()
            &&& !t.is_builtin
            &&& nodes_view(t.nodes@) == ps.map_values(|n: NodeV| moved(n, least_x(ps), least_y(ps)))
            &&& t.connections@ == graph.connections@.filter(inside(selected@))
        },
{
    if selected.len() == 0 {
        return None;
    }
    let ghost ns = nodes_view(graph.nodes@);
    let ghost sel = selected@;
    let ghost pv = picked(ns, sel);
    proof {
        lemma_nodes_view(graph.nodes@);
    }
    let chosen = pick_nodes(graph, selected);
    let mut mx: i32 = i32::MAX;
    let mut my: i32 = i32::MAX;
    let mut k: usize = 0;
    assert(pv.take(0) =~= Seq::<NodeV>::empty());
    while k < chosen.len()
        invariant
            k <= chosen.len(),
            chosen@.len() == pv.len(),
            forall|t: int| 0 <= t < chosen@.len() ==> #[trigger] chosen@[t] < ns.len() && ns[chosen@[t] as int] == pv[t],
            ns == nodes_view(graph.nodes@),
            ns.len() == graph.nodes.len(),
            forall|t: int| 0 <= t < graph.nodes.len() ==> #[trigger] ns[t] == node_view(graph.nodes@[t]),
            mx == least_x(pv.take(k as int)),
            my == least_y(pv.take(k as int)),
        decreases chosen.len() - k,
    {
        let j = chosen[k];
        assert(ns[j as int] == node_view(graph.nodes@[j as int]));
        assert(pv.take(k + 1).drop_last() =~= pv.take(k as int));
        let p = graph.nodes[j].position;
        if p[0] < mx {
            mx = p[0];
        }
        if p[1] < my {
            my = p[1];
        }
        k = k + 1;
    }
    assert(pv.take(pv.len() as int) =~= pv);
    proof {
        lemma_least(pv);
    }
    let mut nodes: Vec<Node> = Vec::new();
    let mut q: usize = 0;
    while q < chosen.len()
        invariant
            q <= chosen.len(),
            chosen@.len() == pv.len(),
            forall|t: int| 0 <= t < chosen@.len() ==> #[trigger] chosen@[t] < ns.len() && ns[chosen@[t] as int] == pv[t],
            ns == nodes_view(graph.nodes@),
            ns.len() == graph.nodes.len(),
            forall|t: int| 0 <= t < graph.nodes.len() ==> #[trigger] ns[t] == node_view(graph.nodes@[t]),
            pv == picked(ns, sel),
            mx == least_x(pv),
            my == least_y(pv),
            forall|t: int| 0 <= t < pv.len() ==> mx <= #[trigger] pv[t].position[0] && my <= pv[t].position[1],
            forall|t: int| 0 <= t < pv.len() ==> #[trigger] pv[t].position[0] - mx <= i32::MAX && pv[t].position[1] - my <= i32::MAX,
            nodes_view(nodes@).len() == q,
            forall|t: int| 0 <= t < q ==> #[trigger] nodes_view(nodes@)[t] == moved(pv[t], mx as int, my as int),
        decreases chosen.len() - q,
    {
        let j = chosen[q];
        let mut n = copy_node(&graph.nodes[j]);
        assert(node_view(n) == pv[q as int]);
        let x: i32 = n.position[0] - mx;
        let y: i32 = n.position[1] - my;
        n.position = [x, y];
        let ghost before = nodes@;
        nodes.push(n);
        proof {
            assert(nodes@.drop_last() == before);
            assert(nodes_view(nodes@) == nodes_view(before).push(node_view(n)));
            assert(node_view(n) =~= moved(pv[q as int], mx as int, my as int));
        }
        q = q + 1;
    }
    assert(nodes_view(nodes@) =~= pv.map_values(|n: NodeV| moved(n, least_x(pv), least_y(pv))));
    let mut conns: Vec<Connection> = Vec::new();
    let mut c: usize = 0;
    reveal(Seq::filter);
    assert(graph.connections@.subrange(0, 0) =~= Seq::<Connection>::empty());
    while c < graph.connections.len()
        invariant
            c <= graph.connections.len(),
            sel == selected@,
            conns@ == graph.connections@.subrange(0, c as int).filter(inside(sel)),
        decreases graph.connections.len() - c,
    {
        let e = graph.connections[c];
        proof {
            assert(graph.connections@.subrange(0, c + 1) =~= graph.connections@.subrange(0, c as int).push(e));
            graph.connections@.subrange(0, c as int).lemma_filter_push(e, inside(sel));
            assert(sel.take(sel.len() as int) =~= sel);
        }
        let from_in = occurs(selected, selected.len(), e.from_node);
        let to_in = occurs(selected, selected.len(), e.to_node);
        if from_in && to_in {
            conns.push(e);
        }
        c = c + 1;
    }
    assert(graph.connections@.subrange(0, graph.connections@.len() as int) =~= graph.connections@);
    Some(NodeTemplate {
        id: fresh_id(),
        name,
        description: String::new(),
        is_builtin: false,
        nodes,
        connections: conns,
    })
}

/// How far a duplicate is placed from the node it copies, along both axes.
pub const DUPLICATE_OFFSET: i32 = 30;

/// Both coordinates of every node's position plus `d` stay within `i32`.
pub open spec fn fits_shift(ps: Seq<NodeV>, d: int) -> bool {
    forall|t: int| 0 <= t < ps.len() ==> #[trigger] ps[t].position[0] + d <= i32::MAX && ps[t].position[1] + d <= i32::MAX
}

/// `after` is `before` with the duplicates `copies` of the selected nodes
/// inserted, named `ids`.
pub open spec fn duplicated(before: DialogueGraph, after: DialogueGraph, sel: Seq<u128>, ids: Seq<u128>, copies: Seq<NodeV>) -> bool {
    let ps = picked(nodes_view(before.nodes@), sel);
    &&& copies.len() == ps.len()
    &&& ids.len() == ps.len()
    &&& forall|i: int| 0 <= i < ps.len() ==> #[trigger] copies[i].id == ids[i]
        && placed_copy(ps[i], copies[i], seq![DUPLICATE_OFFSET, DUPLICATE_OFFSET])
    &&& nodes_view(after.nodes@) == insert_all(nodes_view(before.nodes@), copies)
}

/// Inserts a duplicate of each selected node, `DUPLICATE_OFFSET` further
/// along both axes, with a fresh identifier for it and its ports (and, in a
/// sub-graph, for everything inside); connections are not copied. Returns the
/// duplicates' identifiers: the new selection.
pub fn duplicate_selected(graph: &mut DialogueGraph, selected: &Vec<u128>) -> (r: Vec<u128>)
    requires
        fits_shift(picked(nodes_view(old(graph).nodes@), selected@), DUPLICATE_OFFSET as int),
    ensures
        exists|copies: Seq<NodeV>| #[trigger] duplicated(*old(graph), *final(graph), selected@, r@, copies),
        final(graph).connections == old(graph).connections,
        final(graph).variables == old(graph).variables,
        final(graph).characters == old(graph).characters,
        final(graph).barks == old(graph).barks,
        final(graph).locale == old(graph).locale,
        final(graph).world_entities == old(graph).world_entities,
        final(graph).node_tags == old(graph).node_tags,
{
    let ghost ns = nodes_view(graph.nodes@);
    let ghost pv = picked(ns, selected@);
    let ghost base = ns;
    let ghost offset = seq![DUPLICATE_OFFSET, DUPLICATE_OFFSET];
    proof {
        lemma_nodes_view(graph.nodes@);
    }
    let chosen = pick_nodes(graph, selected);
    let ghost mut copies: Seq<NodeV> = seq![];
    let mut dups: Vec<Node> = Vec::new();
    let mut r: Vec<u128> = Vec::new();
    let mut scratch: Vec<(u128, u128)> = Vec::new();
    let mut q: usize = 0;
    while q < chosen.len()
        invariant
            q <= chosen.len(),
            chosen@.len() == pv.len(),
            forall|t: int| 0 <= t < chosen@.len() ==> #[trigger] chosen@[t] < ns.len() && ns[chosen@[t] as int] == pv[t],
            ns == nodes_view(graph.nodes@),
            ns.len() == graph.nodes.len(),
            forall|t: int| 0 <= t < graph.nodes.len() ==> #[trigger] ns[t] == node_view(graph.nodes@[t]),
            fits_shift(pv, DUPLICATE_OFFSET as int),
            offset == seq![DUPLICATE_OFFSET, DUPLICATE_OFFSET],
            copies.len() == q,
            r@.len() == q,
            dups@.len() == q,
            forall|t: int| 0 <= t < q ==> #[trigger] node_view(dups@[t]) == copies[t],
            forall|t: int| 0 <= t < q ==> #[trigger] copies[t].id == r@[t] && placed_copy(pv[t], copies[t], offset),
        decreases chosen.len() - q,
    {
        let j = chosen[q];
        let n = &graph.nodes[j];
        assert(ns[j as int] == node_view(graph.nodes@[j as int]));
        assert(node_view(*n) == pv[q as int]);
        assert(pv[q as int].position[0] + DUPLICATE_OFFSET <= i32::MAX && pv[q as int].position[1] + DUPLICATE_OFFSET <= i32::MAX);
        let nid = fresh_id();
        let ins = fresh_ports(&n.inputs, &mut scratch);
        let outs = fresh_ports(&n.outputs, &mut scratch);
        let kind = place_kind(&n.node_type);
        let x: i32 = n.position[0] + DUPLICATE_OFFSET;
        let y: i32 = n.position[1] + DUPLICATE_OFFSET;
        let m = Node { id: nid, node_type: kind, inputs: ins, outputs: outs, position: [x, y] };
        proof {
            copies = copies.push(node_view(m));
            assert(placed_copy(pv[q as int], copies[q as int], offset));
        }
        r.push(nid);
        dups.push(m);
        q = q + 1;
    }
    let mut done: usize = 0;
    let total = dups.len();
    assert(copies.take(0) =~= Seq::<NodeV>::empty());
    while dups.len() > 0
        invariant
            done + dups@.len() == total,
            total == copies.len(),
            forall|t: int| 0 <= t < dups@.len() ==> #[trigger] node_view(dups@[t]) == copies[done + t],
            nodes_view(graph.nodes@) == insert_all(base, copies.take(done as int)),
            graph.connections == old(graph).connections,
            graph.variables == old(graph).variables,
            graph.characters == old(graph).characters,
            graph.barks == old(graph).barks,
            graph.locale == old(graph).locale,
            graph.world_entities == old(graph).world_entities,
            graph.node_tags == old(graph).node_tags,
        decreases dups.len(),
    {
        let ghost rest = dups@;
        let m = dups.remove(0);
        proof {
            assert(node_view(m) == copies[done as int]);
            assert(copies.take(done + 1).drop_last() =~= copies.take(done as int));
            assert forall|t: int| 0 <= t < dups@.len() implies #[trigger] node_view(dups@[t]) == copies[done + 1 + t] by {
                assert(dups@[t] == rest[t + 1]);
            }
        }
        insert_node_view(graph, m);
        done = done + 1;
    }
    assert(copies.take(copies.len() as int) =~= copies);
    assert(duplicated(*old(graph), *graph, selected@, r@, copies));
    r
}

/// A selection saved as a template and inserted back at the group's least
/// coordinates puts every copy where the node it copies stands, with the same kind
/// (fresh identifiers inside a sub-graph) and the same port labels.
pub proof fn law_saved_selection_goes_back_in_place(ps: Seq<NodeV>, tv: Seq<NodeV>, copies: Seq<NodeV>)
    requires
        forall|i: int| 0 <= i < ps.len() ==> (#[trigger] ps[i]).position.len() == 2,
        fits_moved(ps),
        tv == ps.map_values(|n: NodeV| moved(n, least_x(ps), least_y(ps))),
        copies.len() == tv.len(),
        forall|i: int| 0 <= i < tv.len() ==> placed_copy(tv[i], #[trigger] copies[i],
            seq![least_x(ps) as i32, least_y(ps) as i32]),
    ensures
        forall|i: int| 0 <= i < ps.len() ==> {
            &&& (#[trigger] copies[i]).position == ps[i].position
            &&& relabelled(ps[i].inputs, copies[i].inputs)
            &&& relabelled(ps[i].outputs, copies[i].outputs)
            &&& match ps[i].kind {
                KindV::SubGraph(name, inner) => copies[i].kind matches KindV::SubGraph(name2, inner2) && name2 == name
                    && regenerated(inner, inner2),
                _ => copies[i].kind == ps[i].kind,
            }
        },
{
    lemma_least(ps);
    assert forall|i: int| 0 <= i < ps.len() implies (#[trigger] copies[i]).position == ps[i].position by {
        let t = tv[i];
        assert(t == moved(ps[i], least_x(ps), least_y(ps)));
        assert(ps[i].position[0] - least_x(ps) <= i32::MAX);
        assert(copies[i].position =~= ps[i].position);
    }
    assert forall|i: int| 0 <= i < ps.len() implies {
        &&& relabelled(ps[i].inputs, (#[trigger] copies[i]).inputs)
        &&& relabelled(ps[i].outputs, copies[i].outputs)
    } by {
        assert(tv[i] == moved(ps[i], least_x(ps), least_y(ps)));
    }
    assert forall|i: int| 0 <= i < ps.len() implies match ps[i].kind {
        KindV::SubGraph(name, inner) => (#[trigger] copies[i]).kind matches KindV::SubGraph(name2, inner2) && name2 == name
            && regenerated(inner, inner2),
        _ => copies[i].kind == ps[i].kind,
    } by {
        assert(tv[i] == moved(ps[i], least_x(ps), least_y(ps)));
    }
}

} // verus!
