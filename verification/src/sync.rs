//! What applying the operations of a diff achieves: starting from the old
//! graph, the nodes end up as in the new graph, node by node.

use vstd::prelude::*;
use crate::collab::{
    CollabOp, OpV, added_conns, added_nodes, applied, changed_node, changed_nodes, conn_ids, diff_ops, first_with,
    node_ids, op_view, ops_view, removed_conns, removed_nodes,
};
use crate::flatten::{first_pos, insert_v, lemma_first_pos};
use crate::graph::other_node;
use crate::model::{DialogueGraph, GraphV, Node, NodeV, graph_view, kind_view, lemma_nodes_view, node_view, nodes_view};

verus! {

/// The first node with identifier `id`, if any.
pub open spec fn found(ns: Seq<NodeV>, id: u128) -> Option<NodeV> {
    let j = first_pos(ns, id);
    if j >= 0 { Some(ns[j]) } else { None }
}

/// The nodes whose identifier differs from `id`, in order.
pub open spec fn drop_id(ns: Seq<NodeV>, id: u128) -> Seq<NodeV>
    decreases ns.len(),
{
    if ns.len() == 0 {
        seq![]
    } else if ns[0].id == id {
        drop_id(ns.drop_first(), id)
    } else {
        seq![ns[0]] + drop_id(ns.drop_first(), id)
    }
}

/// What an operation does to the nodes of a graph.
pub open spec fn op_nodes(op: OpV, ns: Seq<NodeV>) -> Seq<NodeV> {
    match op {
        OpV::AddNode(Some(n)) => insert_v(ns, n),
        OpV::RemoveNode(id) => drop_id(ns, id),
        OpV::MoveNode(id, pos) => {
            let j = first_pos(ns, id);
            if j >= 0 { ns.update(j, NodeV { position: pos, ..ns[j] }) } else { ns }
        },
        OpV::EditNodeField(id, Some(n)) => {
            let j = first_pos(ns, id);
            if j >= 0 { ns.update(j, NodeV { kind: n.kind, ..ns[j] }) } else { ns }
        },
        _ => ns,
    }
}

/// The nodes after a sequence of operations, applied in order.
pub open spec fn ops_nodes(ops: Seq<OpV>, ns: Seq<NodeV>) -> Seq<NodeV>
    decreases ops.len(),
{
    if ops.len() == 0 {
        ns
    } else {
        op_nodes(ops.last(), ops_nodes(ops.drop_last(), ns))
    }
}

proof fn lemma_found_front(x: NodeV, rest: Seq<NodeV>, id: u128)
    ensures
        found(seq![x] + rest, id) == if x.id == id { Some(x) } else { found(rest, id) },
{
    let s = seq![x] + rest;
    assert(s[0] == x);
    assert(s.drop_first() =~= rest);
    lemma_first_pos(rest, id);
    if x.id != id && first_pos(rest, id) >= 0 {
        assert(s[first_pos(rest, id) + 1] == rest[first_pos(rest, id)]);
    }
}

proof fn lemma_found_none(ns: Seq<NodeV>, id: u128)
    ensures
        found(ns, id) is None <==> forall|k: int| 0 <= k < ns.len() ==> #[trigger] ns[k].id != id,
        found(ns, id) matches Some(n) ==> n.id == id,
{
    lemma_first_pos(ns, id);
}

proof fn lemma_found_push(ns: Seq<NodeV>, x: NodeV, id: u128)
    ensures
        found(ns.push(x), id) == if found(ns, id) is Some { found(ns, id) } else if x.id == id { Some(x) } else { None::<NodeV> },
{
    let s = ns.push(x);
    lemma_first_pos(ns, id);
    lemma_first_pos(s, id);
    let j = first_pos(ns, id);
    let k = first_pos(s, id);
    if j >= 0 {
        assert(s[j] == ns[j]);
        if k >= 0 && k < j {
            assert(s[k] == ns[k]);
        }
        if k < 0 {
            assert(s[j].id == id);
        }
        assert(k == j);
    } else {
        if k >= 0 && k < ns.len() {
            assert(s[k] == ns[k]);
        }
        if x.id == id {
            assert(s[ns.len() as int].id == id);
        }
    }
}

proof fn lemma_found_drop(ns: Seq<NodeV>, rid: u128, id: u128)
    ensures
        found(drop_id(ns, rid), id) == if id == rid { None::<NodeV> } else { found(ns, id) },
    decreases ns.len(),
{
    if ns.len() == 0 {
        lemma_found_none(drop_id(ns, rid), id);
        lemma_found_none(ns, id);
    } else {
        let x = ns[0];
        let rest = ns.drop_first();
        assert(ns =~= seq![x] + rest);
        lemma_found_drop(rest, rid, id);
        lemma_found_front(x, rest, id);
        if x.id != rid {
            lemma_found_front(x, drop_id(rest, rid), id);
        }
    }
}

proof fn lemma_first_pos_ids(a: Seq<NodeV>, b: Seq<NodeV>, id: u128)
    requires
        a.len() == b.len(),
        forall|k: int| 0 <= k < a.len() ==> #[trigger] a[k].id == b[k].id,
    ensures
        first_pos(a, id) == first_pos(b, id),
    decreases a.len(),
{
    if a.len() > 0 {
        assert forall|k: int| 0 <= k < a.len() - 1 implies #[trigger] a.drop_first()[k].id == b.drop_first()[k].id by {
            assert(a.drop_first()[k] == a[k + 1]);
            assert(b.drop_first()[k] == b[k + 1]);
        }
        lemma_first_pos_ids(a.drop_first(), b.drop_first(), id);
    }
}

proof fn lemma_found_update(ns: Seq<NodeV>, id0: u128, m: NodeV, id: u128)
    requires
        first_pos(ns, id0) >= 0,
        m.id == id0,
    ensures
        found(ns.update(first_pos(ns, id0), m), id) == if id == id0 { Some(m) } else { found(ns, id) },
{
    let j = first_pos(ns, id0);
    lemma_first_pos(ns, id0);
    let u = ns.update(j, m);
    assert forall|k: int| 0 <= k < ns.len() implies #[trigger] u[k].id == ns[k].id by {}
    lemma_first_pos_ids(u, ns, id);
    lemma_first_pos(ns, id);
}

proof fn lemma_first_with_pos(ns: Seq<NodeV>, id: u128)
    ensures
        first_with(node_ids(ns), id) == first_pos(ns, id),
    decreases ns.len(),
{
    if ns.len() > 0 {
        assert(node_ids(ns).drop_first() =~= node_ids(ns.drop_first()));
        lemma_first_with_pos(ns.drop_first(), id);
    }
}

proof fn lemma_nodes_view_front(x: Node, rest: Seq<Node>)
    ensures
        nodes_view(seq![x] + rest) == seq![node_view(x)] + nodes_view(rest),
{
    let s = seq![x] + rest;
    lemma_nodes_view(s);
    lemma_nodes_view(rest);
    assert forall|k: int| 0 <= k < s.len() implies #[trigger] nodes_view(s)[k] == (seq![node_view(x)] + nodes_view(rest))[k] by {
        if k > 0 {
            assert(s[k] == rest[k - 1]);
        }
    }
    assert(nodes_view(s) =~= seq![node_view(x)] + nodes_view(rest));
}

proof fn lemma_filter_view(s: Seq<Node>, id: u128)
    ensures
        nodes_view(s.filter(other_node(id))) == drop_id(nodes_view(s), id),
    decreases s.len(),
{
    if s.len() == 0 {
        reveal(Seq::filter);
        assert(nodes_view(s) =~= Seq::<NodeV>::empty());
    } else {
        let x = s[0];
        let rest = s.drop_first();
        assert(s =~= seq![x] + rest);
        rest.lemma_filter_prepend(x, other_node(id));
        lemma_filter_view(rest, id);
        lemma_nodes_view_front(x, rest);
        let v = nodes_view(s);
        assert(v[0] == node_view(x));
        assert(v.drop_first() =~= nodes_view(rest));
        if x.id != id {
            lemma_nodes_view_front(x, rest.filter(other_node(id)));
        }
    }
}

proof fn lemma_update_view(a: Seq<Node>, b: Seq<Node>, j: int, n: NodeV)
    requires
        a.len() == b.len(),
        0 <= j < a.len(),
        forall|k: int| 0 <= k < a.len() && k != j ==> b[k] == a[k],
        node_view(b[j]) == n,
    ensures
        nodes_view(b) == nodes_view(a).update(j, n),
{
    lemma_nodes_view(a);
    lemma_nodes_view(b);
    assert(nodes_view(b) =~= nodes_view(a).update(j, n));
}

/// What `applied` says of an operation, seen on the nodes.
proof fn lemma_applied_nodes(op: CollabOp, a: DialogueGraph, b: DialogueGraph, r: bool)
    requires
        applied(op, a, b, r),
    ensures
        nodes_view(b.nodes@) == op_nodes(op_view(op), nodes_view(a.nodes@)),
{
    let av = nodes_view(a.nodes@);
    match op {
        CollabOp::RemoveNode { node_id } => {
            lemma_filter_view(a.nodes@, node_id);
        },
        CollabOp::MoveNode { node_id, position } => {
            lemma_first_with_pos(av, node_id);
            let j = first_pos(av, node_id);
            if j >= 0 {
                lemma_first_pos(av, node_id);
                lemma_nodes_view(a.nodes@);
                assert(av[j] == node_view(a.nodes@[j]));
                lemma_update_view(a.nodes@, b.nodes@, j, NodeV { position: position@, ..av[j] });
            }
        },
        CollabOp::EditNodeField { node_id, node } => {
            match node {
                Some(n) => {
                    lemma_first_with_pos(av, node_id);
                    let j = first_pos(av, node_id);
                    if j >= 0 {
                        lemma_first_pos(av, node_id);
                        lemma_nodes_view(a.nodes@);
                        assert(av[j] == node_view(a.nodes@[j]));
                        lemma_update_view(a.nodes@, b.nodes@, j, NodeV { kind: kind_view(n.node_type), ..av[j] });
                    }
                },
                None => {},
            }
        },
        _ => {},
    }
}

/// Along a chain of graphs where each is the previous one with an operation
/// applied, the nodes are the fold of the operations.
proof fn lemma_chain(ops: Seq<CollabOp>, gs: Seq<DialogueGraph>, rs: Seq<bool>, k: int)
    requires
        gs.len() == ops.len() + 1,
        rs.len() == ops.len(),
        forall|i: int| 0 <= i < ops.len() ==> applied(#[trigger] ops[i], gs[i], gs[i + 1], rs[i]),
        0 <= k <= ops.len(),
    ensures
        nodes_view(gs[k].nodes@) == ops_nodes(ops_view(ops).take(k), nodes_view(gs[0].nodes@)),
    decreases k,
{
    if k == 0 {
        assert(ops_view(ops).take(0) =~= Seq::<OpV>::empty());
    } else {
        lemma_chain(ops, gs, rs, k - 1);
        assert(ops_view(ops).take(k).drop_last() =~= ops_view(ops).take(k - 1));
        assert(ops_view(ops).take(k).last() == op_view(ops[k - 1]));
        lemma_applied_nodes(ops[k - 1], gs[k - 1], gs[k], rs[k - 1]);
    }
}

proof fn lemma_ops_concat(x: Seq<OpV>, y: Seq<OpV>, ns: Seq<NodeV>)
    ensures
        ops_nodes(x + y, ns) == ops_nodes(y, ops_nodes(x, ns)),
    decreases y.len(),
{
    if y.len() == 0 {
        assert(x + y =~= x);
    } else {
        assert((x + y).drop_last() =~= x + y.drop_last());
        assert((x + y).last() == y.last());
        lemma_ops_concat(x, y.drop_last(), ns);
    }
}

proof fn lemma_ops_single(op: OpV, ns: Seq<NodeV>)
    ensures
        ops_nodes(seq![op], ns) == op_nodes(op, ns),
{
    assert(seq![op].drop_last() =~= Seq::<OpV>::empty());
    assert(ops_nodes(Seq::<OpV>::empty(), ns) == ns);
    assert(seq![op].last() == op);
}

/// Nodes that share an identifier are the same node (as they are when the
/// identifiers are distinct).
pub open spec fn repeats_agree(ns: Seq<NodeV>) -> bool {
    forall|i: int, j: int|
        #![trigger ns[i], ns[j]]
        0 <= i < ns.len() && 0 <= j < ns.len() && ns[i].id == ns[j].id ==> ns[i] == ns[j]
}

/// An earlier node with the identifier of node `i` is node `i` again.
proof fn lemma_repeat_at(nv: Seq<NodeV>, i: int)
    requires
        repeats_agree(nv),
        0 <= i < nv.len(),
    ensures
        found(nv.take(i), nv[i].id) is None || found(nv.take(i), nv[i].id) == Some(nv[i]),
{
    let t = nv.take(i);
    lemma_first_pos(t, nv[i].id);
    let p = first_pos(t, nv[i].id);
    if p >= 0 {
        assert(t[p] == nv[p]);
        assert(nv[p] == nv[i]);
    }
}

/// After the `AddNode` operations: a node of the old graph is found as it
/// was; otherwise the node of the new graph (among the first `k`).
proof fn lemma_adds(ov: Seq<NodeV>, nv: Seq<NodeV>, k: int)
    requires
        repeats_agree(nv),
        0 <= k <= nv.len(),
    ensures
        forall|id: u128| #[trigger] found(ops_nodes(added_nodes(ov, nv.take(k)), ov), id)
            == if found(ov, id) is Some { found(ov, id) } else { found(nv.take(k), id) },
    decreases k,
{
    if k == 0 {
        assert(nv.take(0) =~= Seq::<NodeV>::empty());
        assert forall|id: u128| #[trigger] found(ops_nodes(added_nodes(ov, nv.take(k)), ov), id)
            == if found(ov, id) is Some { found(ov, id) } else { found(nv.take(k), id) } by {
            lemma_found_none(nv.take(0), id);
        }
    } else {
        lemma_adds(ov, nv, k - 1);
        let n = nv[k - 1];
        let t = nv.take(k);
        let t0 = nv.take(k - 1);
        assert(t.drop_last() =~= t0);
        assert(t =~= t0.push(n));
        let prev = ops_nodes(added_nodes(ov, t0), ov);
        lemma_first_with_pos(ov, n.id);
        lemma_repeat_at(nv, k - 1);
        assert(t0 == nv.take(k - 1));
        if first_pos(ov, n.id) < 0 {
            assert(added_nodes(ov, t) == added_nodes(ov, t0) + seq![OpV::AddNode(Some(n))]);
            lemma_ops_concat(added_nodes(ov, t0), seq![OpV::AddNode(Some(n))], ov);
            lemma_ops_single(OpV::AddNode(Some(n)), prev);
            lemma_first_pos(ov, n.id);
            lemma_found_none(ov, n.id);
            lemma_first_pos(prev, n.id);
            if found(prev, n.id) is None {
                assert(insert_v(prev, n) == prev.push(n));
                assert forall|id: u128| #[trigger] found(ops_nodes(added_nodes(ov, nv.take(k)), ov), id)
                    == if found(ov, id) is Some { found(ov, id) } else { found(nv.take(k), id) } by {
                    lemma_found_push(prev, n, id);
                    lemma_found_push(t0, n, id);
                }
            } else {
                assert(found(prev, n.id) == Some(n));
                assert(insert_v(prev, n) == prev.update(first_pos(prev, n.id), n));
                assert forall|id: u128| #[trigger] found(ops_nodes(added_nodes(ov, nv.take(k)), ov), id)
                    == if found(ov, id) is Some { found(ov, id) } else { found(nv.take(k), id) } by {
                    lemma_found_update(prev, n.id, n, id);
                    lemma_found_push(t0, n, id);
                }
            }
        } else {
            assert(added_nodes(ov, t) =~= added_nodes(ov, t0));
            assert forall|id: u128| #[trigger] found(ops_nodes(added_nodes(ov, nv.take(k)), ov), id)
                == if found(ov, id) is Some { found(ov, id) } else { found(nv.take(k), id) } by {
                lemma_found_push(t0, n, id);
                lemma_first_pos(ov, n.id);
            }
        }
    }
}

/// After the `RemoveNode` operations for the first `m` old nodes: a node
/// that the new graph lacks is gone; the others are found as before.
proof fn lemma_removes(ov: Seq<NodeV>, nv: Seq<NodeV>, s1: Seq<NodeV>, m: int)
    requires
        0 <= m <= ov.len(),
    ensures
        forall|id: u128| #[trigger] found(ops_nodes(removed_nodes(ov.take(m), nv), s1), id)
            == if found(ov.take(m), id) is Some && found(nv, id) is None { None::<NodeV> } else { found(s1, id) },
    decreases m,
{
    if m == 0 {
        assert(ov.take(0) =~= Seq::<NodeV>::empty());
        assert forall|id: u128| #[trigger] found(ops_nodes(removed_nodes(ov.take(m), nv), s1), id)
            == if found(ov.take(m), id) is Some && found(nv, id) is None { None::<NodeV> } else { found(s1, id) } by {
            lemma_found_none(ov.take(0), id);
        }
    } else {
        lemma_removes(ov, nv, s1, m - 1);
        let o = ov[m - 1];
        let t = ov.take(m);
        let t0 = ov.take(m - 1);
        assert(t.drop_last() =~= t0);
        assert(t =~= t0.push(o));
        let prev = ops_nodes(removed_nodes(t0, nv), s1);
        lemma_first_with_pos(nv, o.id);
        if first_pos(nv, o.id) < 0 {
            assert(removed_nodes(t, nv) == removed_nodes(t0, nv) + seq![OpV::RemoveNode(o.id)]);
            lemma_ops_concat(removed_nodes(t0, nv), seq![OpV::RemoveNode(o.id)], s1);
            lemma_ops_single(OpV::RemoveNode(o.id), prev);
            assert forall|id: u128| #[trigger] found(ops_nodes(removed_nodes(ov.take(m), nv), s1), id)
                == if found(ov.take(m), id) is Some && found(nv, id) is None { None::<NodeV> } else { found(s1, id) } by {
                lemma_found_drop(prev, o.id, id);
                lemma_found_push(t0, o, id);
            }
        } else {
            assert(removed_nodes(t, nv) =~= removed_nodes(t0, nv));
            assert forall|id: u128| #[trigger] found(ops_nodes(removed_nodes(ov.take(m), nv), s1), id)
                == if found(ov.take(m), id) is Some && found(nv, id) is None { None::<NodeV> } else { found(s1, id) } by {
                lemma_found_push(t0, o, id);
                lemma_first_pos(nv, o.id);
            }
        }
    }
}

/// A node of the old graph with the data and position of a node of the new one.
pub open spec fn merged(o: NodeV, n: NodeV) -> NodeV {
    NodeV { kind: n.kind, position: n.position, ..o }
}

/// After the `MoveNode` and `EditNodeField` operations for the first `k`
/// new nodes: a node that both graphs have carries the new data and position.
proof fn lemma_changes(ov: Seq<NodeV>, nv: Seq<NodeV>, s2: Seq<NodeV>, k: int)
    requires
        repeats_agree(nv),
        0 <= k <= nv.len(),
        forall|id: u128| found(ov, id) is Some && found(nv, id) is Some ==> #[trigger] found(s2, id) == found(ov, id),
    ensures
        forall|id: u128| #[trigger] found(ops_nodes(changed_nodes(ov, nv.take(k)), s2), id)
            == if found(nv.take(k), id) is Some && found(ov, id) is Some {
                Some(merged(found(ov, id)->Some_0, found(nv.take(k), id)->Some_0))
            } else {
                found(s2, id)
            },
    decreases k,
{
    if k == 0 {
        assert(nv.take(0) =~= Seq::<NodeV>::empty());
        assert forall|id: u128| #[trigger] found(ops_nodes(changed_nodes(ov, nv.take(k)), s2), id)
            == if found(nv.take(k), id) is Some && found(ov, id) is Some {
                Some(merged(found(ov, id)->Some_0, found(nv.take(k), id)->Some_0))
            } else {
                found(s2, id)
            } by {
            lemma_found_none(nv.take(0), id);
        }
    } else {
        lemma_changes(ov, nv, s2, k - 1);
        let n = nv[k - 1];
        let t = nv.take(k);
        let t0 = nv.take(k - 1);
        assert(t.drop_last() =~= t0);
        assert(t =~= t0.push(n));
        let prev = ops_nodes(changed_nodes(ov, t0), s2);
        lemma_first_with_pos(ov, n.id);
        lemma_repeat_at(nv, k - 1);
        lemma_first_pos(ov, n.id);
        assert(changed_nodes(ov, t) == changed_nodes(ov, t0) + changed_node(ov, n));
        lemma_ops_concat(changed_nodes(ov, t0), changed_node(ov, n), s2);
        let j = first_pos(ov, n.id);
        if j < 0 {
            assert(changed_node(ov, n) =~= Seq::<OpV>::empty());
            assert forall|id: u128| #[trigger] found(ops_nodes(changed_nodes(ov, nv.take(k)), s2), id)
                == if found(nv.take(k), id) is Some && found(ov, id) is Some {
                    Some(merged(found(ov, id)->Some_0, found(nv.take(k), id)->Some_0))
                } else {
                    found(s2, id)
                } by {
                lemma_found_push(t0, n, id);
            }
        } else {
            let o = ov[j];
            assert(found(ov, n.id) == Some(o));
            lemma_found_push(t0, n, n.id);
            lemma_found_none(nv, n.id);
            assert(nv[k - 1].id == n.id);
            assert(found(nv, n.id) is Some);
            let p0 = found(prev, n.id)->Some_0;
            assert(found(prev, n.id) == Some(p0));
            assert(p0 == o || p0 == merged(o, n));
            assert(p0.id == n.id);
            lemma_first_pos(prev, n.id);
            let mv = if o.position != n.position { seq![OpV::MoveNode(n.id, n.position)] } else { Seq::<OpV>::empty() };
            let ed = if o.kind != n.kind { seq![OpV::EditNodeField(n.id, Some(n))] } else { Seq::<OpV>::empty() };
            assert(changed_node(ov, n) == mv + ed);
            lemma_ops_concat(mv, ed, prev);
            let after_mv = ops_nodes(mv, prev);
            let p1 = NodeV { position: n.position, ..p0 };
            assert forall|id: u128| #[trigger] found(after_mv, id)
                == if id == n.id { Some(p1) } else { found(prev, id) } by {
                if o.position != n.position {
                    lemma_ops_single(OpV::MoveNode(n.id, n.position), prev);
                    lemma_found_update(prev, n.id, p1, id);
                } else {
                    assert(mv =~= Seq::<OpV>::empty());
                    assert(p1 == p0);
                }
            }
            assert(found(after_mv, n.id) == Some(p1));
            lemma_first_pos(after_mv, n.id);
            let after_ed = ops_nodes(ed, after_mv);
            assert forall|id: u128| #[trigger] found(after_ed, id)
                == if id == n.id { Some(merged(o, n)) } else { found(prev, id) } by {
                if o.kind != n.kind {
                    lemma_ops_single(OpV::EditNodeField(n.id, Some(n)), after_mv);
                    assert(NodeV { kind: n.kind, ..p1 } == merged(o, n));
                    lemma_found_update(after_mv, n.id, merged(o, n), id);
                } else {
                    assert(ed =~= Seq::<OpV>::empty());
                    assert(merged(o, n) == p1);
                }
            }
            assert forall|id: u128| #[trigger] found(ops_nodes(changed_nodes(ov, nv.take(k)), s2), id)
                == if found(nv.take(k), id) is Some && found(ov, id) is Some {
                    Some(merged(found(ov, id)->Some_0, found(nv.take(k), id)->Some_0))
                } else {
                    found(s2, id)
                } by {
                lemma_found_push(t0, n, id);
            }
        }
    }
}

proof fn lemma_no_node_change_added(oc: Seq<crate::model::Connection>, nc: Seq<crate::model::Connection>, ns: Seq<NodeV>)
    ensures
        ops_nodes(added_conns(oc, nc), ns) == ns,
    decreases nc.len(),
{
    if nc.len() > 0 {
        lemma_no_node_change_added(oc, nc.drop_last(), ns);
        let extra = if first_with(conn_ids(oc), nc.last().id) < 0 {
            seq![OpV::AddConnection(Some(nc.last()))]
        } else {
            Seq::<OpV>::empty()
        };
        lemma_ops_concat(added_conns(oc, nc.drop_last()), extra, ns);
        if extra.len() > 0 {
            lemma_ops_single(OpV::AddConnection(Some(nc.last())), ns);
        }
    }
}

proof fn lemma_no_node_change_removed(oc: Seq<crate::model::Connection>, nc: Seq<crate::model::Connection>, ns: Seq<NodeV>)
    ensures
        ops_nodes(removed_conns(oc, nc), ns) == ns,
    decreases oc.len(),
{
    if oc.len() > 0 {
        lemma_no_node_change_removed(oc.drop_last(), nc, ns);
        let extra = if first_with(conn_ids(nc), oc.last().id) < 0 {
            seq![OpV::RemoveConnection(oc.last().id)]
        } else {
            Seq::<OpV>::empty()
        };
        lemma_ops_concat(removed_conns(oc.drop_last(), nc), extra, ns);
        if extra.len() > 0 {
            lemma_ops_single(OpV::RemoveConnection(oc.last().id), ns);
        }
    }
}

/// The nodes after the whole diff, looked up by identifier.
proof fn lemma_diff_nodes(a: GraphV, b: GraphV)
    requires
        repeats_agree(b.nodes),
    ensures
        forall|id: u128| #[trigger] found(ops_nodes(diff_ops(a, b), a.nodes), id)
            == if found(b.nodes, id) is Some {
                if found(a.nodes, id) is Some {
                    Some(merged(found(a.nodes, id)->Some_0, found(b.nodes, id)->Some_0))
                } else {
                    found(b.nodes, id)
                }
            } else {
                None::<NodeV>
            },
{
    let ov = a.nodes;
    let nv = b.nodes;
    assert(nv.take(nv.len() as int) =~= nv);
    assert(ov.take(ov.len() as int) =~= ov);
    lemma_adds(ov, nv, nv.len() as int);
    let s1 = ops_nodes(added_nodes(ov, nv), ov);
    lemma_removes(ov, nv, s1, ov.len() as int);
    let s2 = ops_nodes(removed_nodes(ov, nv), s1);
    lemma_changes(ov, nv, s2, nv.len() as int);
    let s3 = ops_nodes(changed_nodes(ov, nv), s2);
    let conns = added_conns(a.connections, b.connections) + removed_conns(a.connections, b.connections);
    lemma_no_node_change_added(a.connections, b.connections, s3);
    lemma_no_node_change_removed(a.connections, b.connections, s3);
    lemma_ops_concat(added_conns(a.connections, b.connections), removed_conns(a.connections, b.connections), s3);
    let x = added_nodes(ov, nv);
    let y = removed_nodes(ov, nv);
    let z = changed_nodes(ov, nv);
    lemma_ops_concat(x, y, ov);
    lemma_ops_concat(x + y, z, ov);
    lemma_ops_concat(x + y + z, conns, ov);
    assert(diff_ops(a, b) == x + y + z + conns) by {
        assert(diff_ops(a, b) =~= x + y + z + conns);
    }
}

/// Applying, in order, the operations that `diff_to_ops` computes from
/// `before` to `after` to `before` (each step as `apply_op` does it) gives a
/// graph that has a node with an identifier exactly when `after` has one;
/// each node of `after` is found there with its data and position, and one
/// that `before` lacked is found whole. Nodes of `after` that share an
/// identifier must be the same node (as they are when the identifiers are
/// distinct).
pub proof fn law_diff_then_apply_recreates_nodes(
    before: DialogueGraph,
    after: DialogueGraph,
    ops: Seq<CollabOp>,
    gs: Seq<DialogueGraph>,
    rs: Seq<bool>,
)
    requires
        repeats_agree(nodes_view(after.nodes@)),
        ops_view(ops) == diff_ops(graph_view(before), graph_view(after)),
        gs.len() == ops.len() + 1,
        rs.len() == ops.len(),
        gs[0] == before,
        forall|i: int| 0 <= i < ops.len() ==> applied(#[trigger] ops[i], gs[i], gs[i + 1], rs[i]),
    ensures
        forall|id: u128| (#[trigger] found(nodes_view(gs.last().nodes@), id) is Some)
            == (found(nodes_view(after.nodes@), id) is Some),
        forall|id: u128| #[trigger] found(nodes_view(after.nodes@), id) matches Some(n) ==> {
            &&& found(nodes_view(gs.last().nodes@), id) matches Some(m)
            &&& m.kind == n.kind
            &&& m.position == n.position
            &&& found(nodes_view(before.nodes@), id) is None ==> m == n
        },
{
    lemma_chain(ops, gs, rs, ops.len() as int);
    assert(ops_view(ops).take(ops.len() as int) =~= ops_view(ops));
    lemma_diff_nodes(graph_view(before), graph_view(after));
    assert(gs.last() == gs[ops.len() as int]);
}

} // verus!
