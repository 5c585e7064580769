//! What applying the operations of a diff does to the connections: the
//! wires of the new graph are there at the end, and no other.

use vstd::prelude::*;
use crate::collab::{
    CollabOp, OpV, added_conns, added_nodes, applied, changed_node, changed_nodes, conn_ids, diff_ops, drop_connection,
    first_with, lemma_first_with, node_ids, op_view, ops_view, removed_conns, removed_nodes,
};
use crate::graph::{already_wired, untouched_by};
use crate::model::{Connection, DialogueGraph, GraphV, NodeV, Wire, graph_view, wire};

verus! {

// ---------------------------------------------------------------- one step

/// What one applied operation does to the connections.
pub open spec fn conn_step(op: OpV, g: Seq<Connection>, h: Seq<Connection>, r: bool) -> bool {
    match op {
        OpV::AddNode(Some(_)) => h == g,
        OpV::MoveNode(_, _) => h == g,
        OpV::EditNodeField(_, Some(_)) => h == g,
        OpV::RemoveNode(id) => h == g.filter(untouched_by(id)),
        OpV::AddConnection(Some(c)) => {
            &&& r == !(c.from_node == c.to_node || already_wired(g, c.from_port, c.to_port))
            &&& r ==> h.len() == g.len() + 1 && h.drop_last() == g && wire(h.last()) == wire(c)
            &&& !r ==> h == g
        },
        OpV::RemoveConnection(id) => h == drop_connection(g, id),
        _ => true,
    }
}

proof fn lemma_step(op: CollabOp, a: DialogueGraph, b: DialogueGraph, r: bool)
    requires
        applied(op, a, b, r),
    ensures
        conn_step(op_view(op), a.connections@, b.connections@, r),
{
    match op {
        CollabOp::AddConnection { conn } => {
            match conn {
                Some(c) => {
                    if r {
                        assert(b.connections@.len() == a.connections@.len() + 1);
                    }
                },
                None => {},
            }
        },
        _ => {},
    }
}

/// Each step of a run of applied operations.
pub open spec fn run(ops: Seq<CollabOp>, gs: Seq<DialogueGraph>, rs: Seq<bool>) -> bool {
    &&& gs.len() == ops.len() + 1
    &&& rs.len() == ops.len()
    &&& forall|i: int| 0 <= i < ops.len() ==> applied(#[trigger] ops[i], gs[i], gs[i + 1], rs[i])
}

proof fn lemma_run_step(ops: Seq<CollabOp>, gs: Seq<DialogueGraph>, rs: Seq<bool>, i: int)
    requires
        run(ops, gs, rs),
        0 <= i < ops.len(),
    ensures
        conn_step(op_view(ops[i]), gs[i].connections@, gs[i + 1].connections@, rs[i]),
{
    lemma_step(ops[i], gs[i], gs[i + 1], rs[i]);
}

// ---------------------------------------------------------------- blocks

/// Node operations leave the connections alone.
proof fn lemma_block_same(ops: Seq<CollabOp>, gs: Seq<DialogueGraph>, rs: Seq<bool>, lo: int, hi: int)
    requires
        run(ops, gs, rs),
        0 <= lo <= hi <= ops.len(),
        forall|i: int| lo <= i < hi ==> match #[trigger] op_view(ops[i]) {
            OpV::AddNode(Some(_)) => true,
            OpV::MoveNode(_, _) => true,
            OpV::EditNodeField(_, Some(_)) => true,
            _ => false,
        },
    ensures
        gs[hi].connections@ == gs[lo].connections@,
    decreases hi - lo,
{
    if hi > lo {
        lemma_block_same(ops, gs, rs, lo, hi - 1);
        lemma_run_step(ops, gs, rs, hi - 1);
        let _ = op_view(ops[hi - 1]);
    }
}

proof fn lemma_filter_sub(s: Seq<Connection>, f: spec_fn(Connection) -> bool, c: Connection)
    ensures
        s.filter(f).contains(c) ==> s.contains(c),
    decreases s.len(),
{
    reveal(Seq::filter);
    if s.len() > 0 {
        lemma_filter_sub(s.drop_last(), f, c);
        let r = s.drop_last().filter(f);
        if s.filter(f).contains(c) {
            let i = choose|i: int| 0 <= i < s.filter(f).len() && s.filter(f)[i] == c;
            if f(s.last()) {
                assert(s.filter(f) == r.push(s.last()));
                if i < r.len() {
                    assert(r[i] == c);
                    let j = choose|j: int| 0 <= j < s.drop_last().len() && s.drop_last()[j] == c;
                    assert(s[j] == c);
                } else {
                    assert(s[s.len() - 1] == c);
                }
            } else {
                assert(s.filter(f) == r);
                assert(r[i] == c);
                let j = choose|j: int| 0 <= j < s.drop_last().len() && s.drop_last()[j] == c;
                assert(s[j] == c);
            }
        }
    }
}

proof fn lemma_filter_has(s: Seq<Connection>, f: spec_fn(Connection) -> bool, c: Connection)
    ensures
        s.filter(f).contains(c) <==> s.contains(c) && f(c),
{
    s.filter_lemma(f);
    lemma_filter_sub(s, f, c);
    if s.contains(c) && f(c) {
        let i = choose|i: int| 0 <= i < s.len() && s[i] == c;
        assert(s.filter(f).contains(s[i]));
    }
    if s.filter(f).contains(c) {
        let i = choose|i: int| 0 <= i < s.filter(f).len() && s.filter(f)[i] == c;
        assert(f(s.filter(f)[i]));
    }
}

/// Node removals keep the connections that reach none of the removed nodes.
proof fn lemma_block_removals(ops: Seq<CollabOp>, gs: Seq<DialogueGraph>, rs: Seq<bool>, lo: int, hi: int)
    requires
        run(ops, gs, rs),
        0 <= lo <= hi <= ops.len(),
        forall|i: int| lo <= i < hi ==> #[trigger] op_view(ops[i]) is RemoveNode,
    ensures
        forall|c: Connection| #[trigger] gs[hi].connections@.contains(c) <==> gs[lo].connections@.contains(c)
            && forall|i: int| lo <= i < hi ==> untouched_by(#[trigger] op_view(ops[i])->RemoveNode_0)(c),
    decreases hi - lo,
{
    if hi > lo {
        lemma_block_removals(ops, gs, rs, lo, hi - 1);
        lemma_run_step(ops, gs, rs, hi - 1);
        let id = op_view(ops[hi - 1])->RemoveNode_0;
        assert forall|c: Connection| #[trigger] gs[hi].connections@.contains(c) <==> gs[lo].connections@.contains(c)
            && forall|i: int| lo <= i < hi ==> untouched_by(#[trigger] op_view(ops[i])->RemoveNode_0)(c) by {
            lemma_filter_has(gs[hi - 1].connections@, untouched_by(id), c);
            if gs[lo].connections@.contains(c) && forall|i: int| lo <= i < hi ==> untouched_by(#[trigger] op_view(ops[i])->RemoveNode_0)(c) {
                assert(untouched_by(op_view(ops[hi - 1])->RemoveNode_0)(c));
            }
        }
    }
}

proof fn lemma_drop_has(s: Seq<Connection>, id: u128, c: Connection)
    ensures
        drop_connection(s, id).contains(c) <==> s.contains(c) && c.id != id,
    decreases s.len(),
{
    if s.len() > 0 {
        lemma_drop_has(s.drop_last(), id, c);
        let d = drop_connection(s.drop_last(), id);
        let extra = if s.last().id != id { seq![s.last()] } else { Seq::<Connection>::empty() };
        assert(drop_connection(s, id) == d + extra);
        if drop_connection(s, id).contains(c) {
            let i = choose|i: int| 0 <= i < (d + extra).len() && (d + extra)[i] == c;
            if i < d.len() {
                assert(d[i] == c);
                assert(d.contains(c));
                let j = choose|j: int| 0 <= j < s.drop_last().len() && s.drop_last()[j] == c;
                assert(s[j] == c);
            } else {
                assert(s[s.len() - 1] == c);
            }
        }
        if s.contains(c) && c.id != id {
            let j = choose|j: int| 0 <= j < s.len() && s[j] == c;
            if j < s.len() - 1 {
                assert(s.drop_last()[j] == c);
                let k = choose|k: int| 0 <= k < d.len() && d[k] == c;
                assert((d + extra)[k] == c);
            } else {
                assert((d + extra)[d.len() as int] == c);
            }
        }
    }
}

/// Connection removals keep the connections whose identifier none of them names.
proof fn lemma_block_drops(ops: Seq<CollabOp>, gs: Seq<DialogueGraph>, rs: Seq<bool>, lo: int, hi: int)
    requires
        run(ops, gs, rs),
        0 <= lo <= hi <= ops.len(),
        forall|i: int| lo <= i < hi ==> #[trigger] op_view(ops[i]) is RemoveConnection,
    ensures
        forall|c: Connection| #[trigger] gs[hi].connections@.contains(c) <==> gs[lo].connections@.contains(c)
            && forall|i: int| lo <= i < hi ==> c.id != #[trigger] op_view(ops[i])->RemoveConnection_0,
    decreases hi - lo,
{
    if hi > lo {
        lemma_block_drops(ops, gs, rs, lo, hi - 1);
        lemma_run_step(ops, gs, rs, hi - 1);
        let id = op_view(ops[hi - 1])->RemoveConnection_0;
        assert forall|c: Connection| #[trigger] gs[hi].connections@.contains(c) <==> gs[lo].connections@.contains(c)
            && forall|i: int| lo <= i < hi ==> c.id != #[trigger] op_view(ops[i])->RemoveConnection_0 by {
            lemma_drop_has(gs[hi - 1].connections@, id, c);
            if gs[lo].connections@.contains(c) && forall|i: int| lo <= i < hi ==> c.id != #[trigger] op_view(ops[i])->RemoveConnection_0 {
                assert(c.id != op_view(ops[hi - 1])->RemoveConnection_0);
            }
        }
    }
}

/// Two connections join the same two ports.
pub open spec fn same_ports(c: Connection, d: Connection) -> bool {
    c.from_port == d.from_port && c.to_port == d.to_port
}

/// The connections that a block of additions appends, one per addition.
pub open spec fn appended(gs: Seq<DialogueGraph>, lo: int, n: int) -> Seq<Connection> {
    Seq::new(n as nat, |t: int| gs[lo + t + 1].connections@.last())
}

/// Connection additions that none refuses append one connection each, with
/// the wire asked for.
proof fn lemma_block_adds(ops: Seq<CollabOp>, gs: Seq<DialogueGraph>, rs: Seq<bool>, lo: int, hi: int, nn: Seq<Connection>)
    requires
        run(ops, gs, rs),
        0 <= lo <= hi <= ops.len(),
        hi - lo <= nn.len(),
        forall|i: int| lo <= i < hi ==> #[trigger] op_view(ops[i]) == OpV::AddConnection(Some(nn[i - lo])),
        forall|t: int| 0 <= t < nn.len() ==> (#[trigger] nn[t]).from_node != nn[t].to_node,
        forall|t: int, c: Connection| 0 <= t < nn.len() && #[trigger] gs[lo].connections@.contains(c) ==> !same_ports(c, #[trigger] nn[t]),
        forall|s: int, t: int| 0 <= s < t < nn.len() ==> !same_ports(#[trigger] nn[s], #[trigger] nn[t]),
    ensures
        gs[hi].connections@ == gs[lo].connections@ + appended(gs, lo, hi - lo),
        forall|t: int| 0 <= t < hi - lo ==> #[trigger] wire(appended(gs, lo, hi - lo)[t]) == wire(nn[t]) && rs[lo + t],
    decreases hi - lo,
{
    if hi > lo {
        lemma_block_adds(ops, gs, rs, lo, hi - 1, nn);
        lemma_run_step(ops, gs, rs, hi - 1);
        let t = hi - 1 - lo;
        let g = gs[hi - 1].connections@;
        let c = nn[t];
        let prev = appended(gs, lo, t);
        assert(op_view(ops[hi - 1]) == OpV::AddConnection(Some(c)));
        assert(!already_wired(g, c.from_port, c.to_port)) by {
            if already_wired(g, c.from_port, c.to_port) {
                let j = choose|j: int| 0 <= j < g.len() && g[j].from_port == c.from_port && g[j].to_port == c.to_port;
                if j < gs[lo].connections@.len() {
                    assert(gs[lo].connections@[j] == g[j]);
                    assert(gs[lo].connections@.contains(g[j]));
                    assert(!same_ports(g[j], nn[t]));
                } else {
                    let s = j - gs[lo].connections@.len();
                    assert(g[j] == prev[s]);
                    assert(wire(prev[s]) == wire(nn[s]));
                    assert(!same_ports(nn[s], nn[t]));
                }
            }
        }
        assert(rs[hi - 1]);
        assert(gs[hi].connections@ =~= g.push(gs[hi].connections@.last()));
        assert(appended(gs, lo, t + 1) =~= prev.push(gs[hi].connections@.last()));
        assert(gs[hi].connections@ =~= gs[lo].connections@ + appended(gs, lo, hi - lo));
        assert forall|s: int| 0 <= s < hi - lo implies #[trigger] wire(appended(gs, lo, hi - lo)[s]) == wire(nn[s]) && rs[lo + s] by {
            if s < t {
                assert(appended(gs, lo, hi - lo)[s] == prev[s]);
            }
        }
    }
}

// ---------------------------------------------------------------- the diff

/// The connections of `nc` whose identifier `oc` lacks, in order.
pub open spec fn new_conns(oc: Seq<Connection>, nc: Seq<Connection>) -> Seq<Connection>
    decreases nc.len(),
{
    if nc.len() == 0 {
        seq![]
    } else {
        new_conns(oc, nc.drop_last()) + if first_with(conn_ids(oc), nc.last().id) < 0 {
            seq![nc.last()]
        } else {
            Seq::<Connection>::empty()
        }
    }
}

proof fn lemma_added_nodes_shape(old: Seq<NodeV>, new: Seq<NodeV>)
    ensures
        forall|t: int| 0 <= t < added_nodes(old, new).len() ==> #[trigger] added_nodes(old, new)[t] matches OpV::AddNode(Some(_)),
    decreases new.len(),
{
    if new.len() > 0 {
        lemma_added_nodes_shape(old, new.drop_last());
        let prev = added_nodes(old, new.drop_last());
        assert forall|t: int| 0 <= t < added_nodes(old, new).len() implies #[trigger] added_nodes(old, new)[t] matches OpV::AddNode(Some(_)) by {
            if t < prev.len() {
                assert(added_nodes(old, new)[t] == prev[t]);
            }
        }
    }
}

proof fn lemma_changed_shape(old: Seq<NodeV>, new: Seq<NodeV>)
    ensures
        forall|t: int| 0 <= t < changed_nodes(old, new).len() ==> match #[trigger] changed_nodes(old, new)[t] {
            OpV::MoveNode(_, _) => true,
            OpV::EditNodeField(_, Some(_)) => true,
            _ => false,
        },
    decreases new.len(),
{
    if new.len() > 0 {
        lemma_changed_shape(old, new.drop_last());
        let prev = changed_nodes(old, new.drop_last());
        let last = changed_node(old, new.last());
        assert forall|t: int| 0 <= t < changed_nodes(old, new).len() implies match #[trigger] changed_nodes(old, new)[t] {
            OpV::MoveNode(_, _) => true,
            OpV::EditNodeField(_, Some(_)) => true,
            _ => false,
        } by {
            if t < prev.len() {
                assert(changed_nodes(old, new)[t] == prev[t]);
            } else {
                assert(changed_nodes(old, new)[t] == last[t - prev.len()]);
            }
        }
    }
}

proof fn lemma_removed_nodes_shape(old: Seq<NodeV>, new: Seq<NodeV>)
    ensures
        forall|t: int| 0 <= t < removed_nodes(old, new).len() ==> {
            &&& #[trigger] removed_nodes(old, new)[t] is RemoveNode
            &&& first_with(node_ids(new), removed_nodes(old, new)[t]->RemoveNode_0) < 0
            &&& exists|k: int| 0 <= k < old.len() && old[k].id == removed_nodes(old, new)[t]->RemoveNode_0
        },
        forall|k: int| 0 <= k < old.len() && first_with(node_ids(new), #[trigger] old[k].id) < 0
            ==> exists|t: int| 0 <= t < removed_nodes(old, new).len() && removed_nodes(old, new)[t] == OpV::RemoveNode(old[k].id),
    decreases old.len(),
{
    if old.len() > 0 {
        let d = old.drop_last();
        lemma_removed_nodes_shape(d, new);
        let prev = removed_nodes(d, new);
        let all = removed_nodes(old, new);
        assert forall|t: int| 0 <= t < all.len() implies {
            &&& #[trigger] all[t] is RemoveNode
            &&& first_with(node_ids(new), all[t]->RemoveNode_0) < 0
            &&& exists|k: int| 0 <= k < old.len() && old[k].id == all[t]->RemoveNode_0
        } by {
            if t < prev.len() {
                assert(all[t] == prev[t]);
                let k = choose|k: int| 0 <= k < d.len() && d[k].id == prev[t]->RemoveNode_0;
                assert(old[k] == d[k]);
            } else {
                assert(old[old.len() - 1].id == all[t]->RemoveNode_0);
            }
        }
        assert forall|k: int| 0 <= k < old.len() && first_with(node_ids(new), #[trigger] old[k].id) < 0
            implies exists|t: int| 0 <= t < all.len() && all[t] == OpV::RemoveNode(old[k].id) by {
            if k < old.len() - 1 {
                assert(d[k] == old[k]);
                let t = choose|t: int| 0 <= t < prev.len() && prev[t] == OpV::RemoveNode(d[k].id);
                assert(all[t] == prev[t]);
            } else {
                assert(all[prev.len() as int] == OpV::RemoveNode(old.last().id));
            }
        }
    }
}

proof fn lemma_added_conns_shape(oc: Seq<Connection>, nc: Seq<Connection>)
    ensures
        added_conns(oc, nc).len() == new_conns(oc, nc).len(),
        forall|t: int| 0 <= t < new_conns(oc, nc).len() ==> #[trigger] added_conns(oc, nc)[t] == OpV::AddConnection(Some(new_conns(oc, nc)[t])),
        forall|t: int| 0 <= t < new_conns(oc, nc).len() ==> exists|j: int| 0 <= j < nc.len() && nc[j] == #[trigger] new_conns(oc, nc)[t],
        forall|t: int| 0 <= t < new_conns(oc, nc).len() ==> first_with(conn_ids(oc), #[trigger] new_conns(oc, nc)[t].id) < 0,
        forall|j: int| 0 <= j < nc.len() && first_with(conn_ids(oc), #[trigger] nc[j].id) < 0
            ==> exists|t: int| 0 <= t < new_conns(oc, nc).len() && new_conns(oc, nc)[t] == nc[j],
    decreases nc.len(),
{
    if nc.len() > 0 {
        let d = nc.drop_last();
        lemma_added_conns_shape(oc, d);
        let pa = added_conns(oc, d);
        let pn = new_conns(oc, d);
        let a = added_conns(oc, nc);
        let n = new_conns(oc, nc);
        assert forall|t: int| 0 <= t < n.len() implies #[trigger] a[t] == OpV::AddConnection(Some(n[t])) by {
            if t < pn.len() {
                assert(a[t] == pa[t]);
                assert(n[t] == pn[t]);
            }
        }
        assert forall|t: int| 0 <= t < n.len() implies exists|j: int| 0 <= j < nc.len() && nc[j] == #[trigger] n[t] by {
            if t < pn.len() {
                assert(n[t] == pn[t]);
                let j = choose|j: int| 0 <= j < d.len() && d[j] == pn[t];
                assert(nc[j] == d[j]);
            } else {
                assert(nc[nc.len() - 1] == n[t]);
            }
        }
        assert forall|t: int| 0 <= t < n.len() implies first_with(conn_ids(oc), #[trigger] n[t].id) < 0 by {
            if t < pn.len() {
                assert(n[t] == pn[t]);
            }
        }
        assert forall|j: int| 0 <= j < nc.len() && first_with(conn_ids(oc), #[trigger] nc[j].id) < 0
            implies exists|t: int| 0 <= t < n.len() && n[t] == nc[j] by {
            if j < d.len() {
                assert(d[j] == nc[j]);
                let t = choose|t: int| 0 <= t < pn.len() && pn[t] == d[j];
                assert(n[t] == pn[t]);
            } else {
                assert(n[pn.len() as int] == nc.last());
            }
        }
    }
}

proof fn lemma_removed_conns_shape(oc: Seq<Connection>, nc: Seq<Connection>)
    ensures
        forall|t: int| 0 <= t < removed_conns(oc, nc).len() ==> {
            &&& #[trigger] removed_conns(oc, nc)[t] is RemoveConnection
            &&& first_with(conn_ids(nc), removed_conns(oc, nc)[t]->RemoveConnection_0) < 0
            &&& exists|k: int| 0 <= k < oc.len() && oc[k].id == removed_conns(oc, nc)[t]->RemoveConnection_0
        },
        forall|k: int| 0 <= k < oc.len() && first_with(conn_ids(nc), #[trigger] oc[k].id) < 0
            ==> exists|t: int| 0 <= t < removed_conns(oc, nc).len() && removed_conns(oc, nc)[t] == OpV::RemoveConnection(oc[k].id),
    decreases oc.len(),
{
    if oc.len() > 0 {
        let d = oc.drop_last();
        lemma_removed_conns_shape(d, nc);
        let prev = removed_conns(d, nc);
        let all = removed_conns(oc, nc);
        assert forall|t: int| 0 <= t < all.len() implies {
            &&& #[trigger] all[t] is RemoveConnection
            &&& first_with(conn_ids(nc), all[t]->RemoveConnection_0) < 0
            &&& exists|k: int| 0 <= k < oc.len() && oc[k].id == all[t]->RemoveConnection_0
        } by {
            if t < prev.len() {
                assert(all[t] == prev[t]);
                let k = choose|k: int| 0 <= k < d.len() && d[k].id == prev[t]->RemoveConnection_0;
                assert(oc[k] == d[k]);
            } else {
                assert(oc[oc.len() - 1].id == all[t]->RemoveConnection_0);
            }
        }
        assert forall|k: int| 0 <= k < oc.len() && first_with(conn_ids(nc), #[trigger] oc[k].id) < 0
            implies exists|t: int| 0 <= t < all.len() && all[t] == OpV::RemoveConnection(oc[k].id) by {
            if k < oc.len() - 1 {
                assert(d[k] == oc[k]);
                let t = choose|t: int| 0 <= t < prev.len() && prev[t] == OpV::RemoveConnection(d[k].id);
                assert(all[t] == prev[t]);
            } else {
                assert(all[prev.len() as int] == OpV::RemoveConnection(oc.last().id));
            }
        }
    }
}

// ---------------------------------------------------------------- the law

/// A node identifier that `a` has and `b` lacks: a node that the diff removes.
pub open spec fn dropped(a: GraphV, b: GraphV, id: u128) -> bool {
    first_with(node_ids(a.nodes), id) >= 0 && first_with(node_ids(b.nodes), id) < 0
}

/// A connection that reaches a node that the diff removes.
pub open spec fn cut(a: GraphV, b: GraphV, c: Connection) -> bool {
    dropped(a, b, c.from_node) || dropped(a, b, c.to_node)
}

/// Some connection of `cs` has the wire `w`.
pub open spec fn has_wire(cs: Seq<Connection>, w: Wire) -> bool {
    exists|i: int| 0 <= i < cs.len() && wire(cs[i]) == w
}

proof fn lemma_ids_at(ids: Seq<u128>, j: int)
    requires
        0 <= j < ids.len(),
    ensures
        first_with(ids, ids[j]) >= 0,
{
    lemma_first_with(ids, ids[j]);
}

proof fn lemma_views(ops: Seq<CollabOp>, all: Seq<OpV>)
    requires
        ops_view(ops) == all,
    ensures
        ops.len() == all.len(),
        forall|i: int| 0 <= i < ops.len() ==> #[trigger] op_view(ops[i]) == all[i],
{
    assert(ops_view(ops).len() == ops.len());
    assert forall|i: int| 0 <= i < ops.len() implies #[trigger] op_view(ops[i]) == all[i] by {
        assert(ops_view(ops)[i] == op_view(ops[i]));
    }
}

/// After the node removals of the diff, the connections of `before` that
/// reach no removed node are left.
proof fn lemma_after_removals(ops: Seq<CollabOp>, gs: Seq<DialogueGraph>, rs: Seq<bool>, a: GraphV, b: GraphV, lo: int, hi: int)
    requires
        run(ops, gs, rs),
        0 <= lo <= hi <= ops.len(),
        hi - lo == removed_nodes(a.nodes, b.nodes).len(),
        forall|i: int| lo <= i < hi ==> #[trigger] op_view(ops[i]) == removed_nodes(a.nodes, b.nodes)[i - lo],
    ensures
        forall|c: Connection| #[trigger] gs[hi].connections@.contains(c) <==> gs[lo].connections@.contains(c) && !cut(a, b, c),
{
    let y = removed_nodes(a.nodes, b.nodes);
    lemma_removed_nodes_shape(a.nodes, b.nodes);
    lemma_block_removals(ops, gs, rs, lo, hi);
    assert forall|c: Connection| #[trigger] gs[hi].connections@.contains(c) <==> gs[lo].connections@.contains(c) && !cut(a, b, c) by {
        if gs[lo].connections@.contains(c) && cut(a, b, c) {
            let nid = if dropped(a, b, c.from_node) { c.from_node } else { c.to_node };
            lemma_first_with(node_ids(a.nodes), nid);
            let k = first_with(node_ids(a.nodes), nid);
            assert(node_ids(a.nodes)[k] == a.nodes[k].id);
            let t = choose|t: int| 0 <= t < y.len() && y[t] == OpV::RemoveNode(a.nodes[k].id);
            assert(op_view(ops[lo + t]) == y[t]);
            assert(!untouched_by(op_view(ops[lo + t])->RemoveNode_0)(c));
        }
        if gs[lo].connections@.contains(c) && !cut(a, b, c) {
            assert forall|i: int| lo <= i < hi implies untouched_by(#[trigger] op_view(ops[i])->RemoveNode_0)(c) by {
                let id = y[i - lo]->RemoveNode_0;
                let k = choose|k: int| 0 <= k < a.nodes.len() && a.nodes[k].id == id;
                assert(node_ids(a.nodes)[k] == id);
                lemma_ids_at(node_ids(a.nodes), k);
            }
        }
    }
}

/// After the connection removals of the diff, a connection is left when it
/// was there and its identifier is one that `after` has or `before` lacks.
proof fn lemma_after_drops(ops: Seq<CollabOp>, gs: Seq<DialogueGraph>, rs: Seq<bool>, oc: Seq<Connection>, nc: Seq<Connection>, lo: int, hi: int)
    requires
        run(ops, gs, rs),
        0 <= lo <= hi <= ops.len(),
        hi - lo == removed_conns(oc, nc).len(),
        forall|i: int| lo <= i < hi ==> #[trigger] op_view(ops[i]) == removed_conns(oc, nc)[i - lo],
    ensures
        forall|c: Connection| #[trigger] gs[hi].connections@.contains(c) <==> gs[lo].connections@.contains(c)
            && (first_with(conn_ids(nc), c.id) >= 0 || first_with(conn_ids(oc), c.id) < 0),
{
    let q = removed_conns(oc, nc);
    lemma_removed_conns_shape(oc, nc);
    lemma_block_drops(ops, gs, rs, lo, hi);
    assert forall|c: Connection| #[trigger] gs[hi].connections@.contains(c) <==> gs[lo].connections@.contains(c)
        && (first_with(conn_ids(nc), c.id) >= 0 || first_with(conn_ids(oc), c.id) < 0) by {
        if first_with(conn_ids(nc), c.id) < 0 && first_with(conn_ids(oc), c.id) >= 0 {
            lemma_first_with(conn_ids(oc), c.id);
            let k = first_with(conn_ids(oc), c.id);
            assert(conn_ids(oc)[k] == oc[k].id);
            let t = choose|t: int| 0 <= t < q.len() && q[t] == OpV::RemoveConnection(oc[k].id);
            assert(op_view(ops[lo + t]) == q[t]);
            assert(c.id == op_view(ops[lo + t])->RemoveConnection_0);
        }
        if first_with(conn_ids(nc), c.id) >= 0 || first_with(conn_ids(oc), c.id) < 0 {
            assert forall|i: int| lo <= i < hi implies c.id != #[trigger] op_view(ops[i])->RemoveConnection_0 by {
                let id = q[i - lo]->RemoveConnection_0;
                let k = choose|k: int| 0 <= k < oc.len() && oc[k].id == id;
                assert(conn_ids(oc)[k] == id);
                lemma_ids_at(conn_ids(oc), k);
            }
        }
    }
}

/// After the connection additions of the diff, one connection per new
/// connection is appended, with its wire and an identifier that `before`
/// lacks.
proof fn lemma_after_adds(ops: Seq<CollabOp>, gs: Seq<DialogueGraph>, rs: Seq<bool>, oc: Seq<Connection>, nn: Seq<Connection>, lo: int, hi: int)
    requires
        run(ops, gs, rs),
        0 <= lo <= hi <= ops.len(),
        hi - lo == nn.len(),
        forall|i: int| lo <= i < hi ==> #[trigger] op_view(ops[i]) == OpV::AddConnection(Some(nn[i - lo])),
        forall|t: int| 0 <= t < nn.len() ==> (#[trigger] nn[t]).from_node != nn[t].to_node,
        forall|t: int, c: Connection| 0 <= t < nn.len() && #[trigger] gs[lo].connections@.contains(c) ==> !same_ports(c, #[trigger] nn[t]),
        forall|s: int, t: int| 0 <= s < t < nn.len() ==> !same_ports(#[trigger] nn[s], #[trigger] nn[t]),
        forall|i: int| 0 <= i < ops.len() && (#[trigger] op_view(ops[i])) is AddConnection && rs[i]
            ==> first_with(conn_ids(oc), gs[i + 1].connections@.last().id) < 0,
    ensures
        gs[hi].connections@ == gs[lo].connections@ + appended(gs, lo, hi - lo),
        forall|t: int| 0 <= t < hi - lo ==> #[trigger] wire(appended(gs, lo, hi - lo)[t]) == wire(nn[t])
            && first_with(conn_ids(oc), appended(gs, lo, hi - lo)[t].id) < 0,
{
    lemma_block_adds(ops, gs, rs, lo, hi, nn);
    let app = appended(gs, lo, hi - lo);
    assert forall|t: int| 0 <= t < hi - lo implies #[trigger] wire(app[t]) == wire(nn[t])
        && first_with(conn_ids(oc), app[t].id) < 0 by {
        assert(wire(app[t]) == wire(nn[t]) && rs[lo + t]);
        assert(op_view(ops[lo + t]) is AddConnection);
        assert(app[t] == gs[lo + t + 1].connections@.last());
    }
}

/// Every wire left at the end is a wire of `after`.
proof fn lemma_wires_forward(a: GraphV, b: GraphV, oc: Seq<Connection>, nc: Seq<Connection>, s3: Seq<Connection>, app: Seq<Connection>, fin: Seq<Connection>)
    requires
        forall|c: Connection| #[trigger] s3.contains(c) ==> oc.contains(c),
        app.len() <= new_conns(oc, nc).len(),
        forall|t: int| 0 <= t < app.len() ==> #[trigger] wire(app[t]) == wire(new_conns(oc, nc)[t]),
        forall|c: Connection| #[trigger] fin.contains(c) ==> (s3 + app).contains(c)
            && (first_with(conn_ids(nc), c.id) >= 0 || first_with(conn_ids(oc), c.id) < 0),
        forall|i: int, j: int| 0 <= i < oc.len() && 0 <= j < nc.len() && (#[trigger] oc[i]).id == (#[trigger] nc[j]).id
            ==> wire(oc[i]) == wire(nc[j]),
    ensures
        forall|w: Wire| #[trigger] has_wire(fin, w) ==> has_wire(nc, w),
{
    lemma_added_conns_shape(oc, nc);
    let nn = new_conns(oc, nc);
    assert forall|w: Wire| #[trigger] has_wire(fin, w) implies has_wire(nc, w) by {
        let i = choose|i: int| 0 <= i < fin.len() && wire(fin[i]) == w;
        let c = fin[i];
        assert(fin.contains(c));
        let mid = s3 + app;
        let m = choose|m: int| 0 <= m < mid.len() && mid[m] == c;
        if m < s3.len() {
            assert(s3[m] == c);
            assert(s3.contains(c));
            let k = choose|k: int| 0 <= k < oc.len() && oc[k] == c;
            assert(conn_ids(oc)[k] == c.id);
            lemma_ids_at(conn_ids(oc), k);
            lemma_first_with(conn_ids(nc), c.id);
            let j = first_with(conn_ids(nc), c.id);
            assert(conn_ids(nc)[j] == nc[j].id);
            assert(oc[k].id == nc[j].id);
            assert(wire(nc[j]) == w);
        } else {
            let t = m - s3.len();
            assert(app[t] == c);
            let j = choose|j: int| 0 <= j < nc.len() && nc[j] == nn[t];
            assert(wire(nc[j]) == w);
        }
    }
}

/// Every wire of `after` is left at the end.
proof fn lemma_wires_backward(a: GraphV, b: GraphV, oc: Seq<Connection>, nc: Seq<Connection>, s3: Seq<Connection>, app: Seq<Connection>, fin: Seq<Connection>)
    requires
        forall|c: Connection| #[trigger] s3.contains(c) <==> oc.contains(c) && !cut(a, b, c),
        app.len() == new_conns(oc, nc).len(),
        forall|t: int| 0 <= t < app.len() ==> #[trigger] wire(app[t]) == wire(new_conns(oc, nc)[t])
            && first_with(conn_ids(oc), app[t].id) < 0,
        forall|c: Connection| #[trigger] fin.contains(c) <== (s3 + app).contains(c)
            && (first_with(conn_ids(nc), c.id) >= 0 || first_with(conn_ids(oc), c.id) < 0),
        forall|i: int, j: int| 0 <= i < oc.len() && 0 <= j < nc.len() && (#[trigger] oc[i]).id == (#[trigger] nc[j]).id
            ==> wire(oc[i]) == wire(nc[j]) && !cut(a, b, nc[j]),
    ensures
        forall|w: Wire| #[trigger] has_wire(nc, w) ==> has_wire(fin, w),
{
    lemma_added_conns_shape(oc, nc);
    let nn = new_conns(oc, nc);
    let mid = s3 + app;
    assert forall|w: Wire| #[trigger] has_wire(nc, w) implies has_wire(fin, w) by {
        let j = choose|j: int| 0 <= j < nc.len() && wire(nc[j]) == w;
        let d = nc[j];
        assert(conn_ids(nc)[j] == d.id);
        lemma_ids_at(conn_ids(nc), j);
        lemma_first_with(conn_ids(oc), d.id);
        if first_with(conn_ids(oc), d.id) >= 0 {
            let k = first_with(conn_ids(oc), d.id);
            assert(conn_ids(oc)[k] == oc[k].id);
            assert(wire(oc[k]) == wire(d));
            assert(!cut(a, b, oc[k]));
            assert(oc.contains(oc[k]));
            assert(s3.contains(oc[k]));
            let m = choose|m: int| 0 <= m < s3.len() && s3[m] == oc[k];
            assert(mid[m] == oc[k]);
            assert(mid.contains(oc[k]));
            assert(fin.contains(oc[k]));
            let f = choose|f: int| 0 <= f < fin.len() && fin[f] == oc[k];
            assert(wire(fin[f]) == w);
        } else {
            let t = choose|t: int| 0 <= t < nn.len() && nn[t] == d;
            assert(wire(app[t]) == wire(nn[t]));
            assert(mid[s3.len() + t] == app[t]);
            assert(mid.contains(app[t]));
            assert(fin.contains(app[t]));
            let f = choose|f: int| 0 <= f < fin.len() && fin[f] == app[t];
            assert(wire(fin[f]) == w);
        }
    }
}

/// Applying, in order, the operations that `diff_to_ops` computes from
/// `before` to `after` to `before` (each step as `apply_op` does it) leaves
/// exactly the wires of `after`: a wire is among the connections at the end
/// exactly when a connection of `after` has it. This needs that a connection
/// kept by identifier keeps its ends and reaches no removed node, that each
/// new connection is no loop and joins two ports that neither a connection
/// kept until then nor an earlier new connection joins (else `add_connection`
/// refuses it), and that the identifiers drawn for the added connections are
/// not those of connections of `before`.
pub proof fn law_diff_then_apply_recreates_wires(
    before: DialogueGraph,
    after: DialogueGraph,
    ops: Seq<CollabOp>,
    gs: Seq<DialogueGraph>,
    rs: Seq<bool>,
)
    requires
        ops_view(ops) == diff_ops(graph_view(before), graph_view(after)),
        run(ops, gs, rs),
        gs[0] == before,
        forall|i: int, j: int| 0 <= i < before.connections@.len() && 0 <= j < after.connections@.len()
            && (#[trigger] before.connections@[i]).id == (#[trigger] after.connections@[j]).id
            ==> wire(before.connections@[i]) == wire(after.connections@[j])
                && !cut(graph_view(before), graph_view(after), after.connections@[j]),
        forall|t: int| 0 <= t < new_conns(before.connections@, after.connections@).len()
            ==> (#[trigger] new_conns(before.connections@, after.connections@)[t]).from_node
                != new_conns(before.connections@, after.connections@)[t].to_node,
        forall|t: int, i: int| 0 <= t < new_conns(before.connections@, after.connections@).len()
            && 0 <= i < before.connections@.len()
            && !cut(graph_view(before), graph_view(after), #[trigger] before.connections@[i])
            ==> !same_ports(before.connections@[i], #[trigger] new_conns(before.connections@, after.connections@)[t]),
        forall|s: int, t: int| 0 <= s < t < new_conns(before.connections@, after.connections@).len()
            ==> !same_ports(#[trigger] new_conns(before.connections@, after.connections@)[s],
                #[trigger] new_conns(before.connections@, after.connections@)[t]),
        forall|i: int| 0 <= i < ops.len() && (#[trigger] op_view(ops[i])) is AddConnection && rs[i]
            ==> first_with(conn_ids(before.connections@), gs[i + 1].connections@.last().id) < 0,
    ensures
        forall|w: Wire| #[trigger] has_wire(gs.last().connections@, w) <==> has_wire(after.connections@, w),
{
    let a = graph_view(before);
    let b = graph_view(after);
    let oc = before.connections@;
    let nc = after.connections@;
    let x = added_nodes(a.nodes, b.nodes);
    let y = removed_nodes(a.nodes, b.nodes);
    let z = changed_nodes(a.nodes, b.nodes);
    let p = added_conns(oc, nc);
    let q = removed_conns(oc, nc);
    let nn = new_conns(oc, nc);
    let b1 = x.len() as int;
    let b2 = b1 + y.len();
    let b3 = b2 + z.len();
    let b4 = b3 + p.len();
    let b5 = b4 + q.len();
    let all = x + y + z + p + q;
    assert(diff_ops(a, b) == all);
    lemma_views(ops, all);
    lemma_added_nodes_shape(a.nodes, b.nodes);
    lemma_changed_shape(a.nodes, b.nodes);
    lemma_added_conns_shape(oc, nc);

    assert forall|i: int| 0 <= i < b1 implies match #[trigger] op_view(ops[i]) {
        OpV::AddNode(Some(_)) => true,
        OpV::MoveNode(_, _) => true,
        OpV::EditNodeField(_, Some(_)) => true,
        _ => false,
    } by {
        assert(all[i] == x[i]);
    }
    lemma_block_same(ops, gs, rs, 0, b1);
    assert forall|i: int| b1 <= i < b2 implies #[trigger] op_view(ops[i]) == y[i - b1] by {
        assert(all[i] == y[i - b1]);
    }
    lemma_after_removals(ops, gs, rs, a, b, b1, b2);
    assert forall|i: int| b2 <= i < b3 implies match #[trigger] op_view(ops[i]) {
        OpV::AddNode(Some(_)) => true,
        OpV::MoveNode(_, _) => true,
        OpV::EditNodeField(_, Some(_)) => true,
        _ => false,
    } by {
        assert(all[i] == z[i - b2]);
    }
    lemma_block_same(ops, gs, rs, b2, b3);
    let s3 = gs[b3].connections@;
    assert(forall|c: Connection| #[trigger] s3.contains(c) <==> oc.contains(c) && !cut(a, b, c));

    assert forall|i: int| b3 <= i < b4 implies #[trigger] op_view(ops[i]) == OpV::AddConnection(Some(nn[i - b3])) by {
        assert(all[i] == p[i - b3]);
    }
    assert forall|t: int, c: Connection| 0 <= t < nn.len() && #[trigger] s3.contains(c)
        implies !same_ports(c, #[trigger] nn[t]) by {
        let i = choose|i: int| 0 <= i < oc.len() && oc[i] == c;
        assert(!cut(a, b, oc[i]));
    }
    lemma_after_adds(ops, gs, rs, oc, nn, b3, b4);
    let app = appended(gs, b3, b4 - b3);

    assert forall|i: int| b4 <= i < b5 implies #[trigger] op_view(ops[i]) == q[i - b4] by {
        assert(all[i] == q[i - b4]);
    }
    lemma_after_drops(ops, gs, rs, oc, nc, b4, b5);
    let fin = gs[b5].connections@;
    assert(gs.last() == gs[b5]);
    assert(gs[b4].connections@ == s3 + app);
    lemma_wires_forward(a, b, oc, nc, s3, app, fin);
    lemma_wires_backward(a, b, oc, nc, s3, app, fin);
}

} // verus!
