//! Editing nested sub-graphs: entering a sub-graph node puts the parent's
//! graph, selection and history aside and edits the child graph; leaving
//! puts the edited child back into its node and restores the parent.

use vstd::prelude::*;
use crate::collab::{first_node_index, first_with, lemma_first_with, node_ids};
use crate::copy::copy_graph;
use crate::history::UndoHistory;
use crate::model::{DialogueGraph, GraphV, KindV, NodeType, NodeV, graph_view, kind_view, lemma_nodes_view, node_view, nodes_view};
use crate::ui::node_title;

verus! {

/// The saved state of a parent graph while one of its sub-graphs is edited.
pub struct SubGraphFrame {
    pub graph: DialogueGraph,
    pub selected_nodes: Vec<u128>,
    pub history: UndoHistory,
    /// The sub-graph node that was entered.
    pub node_id: u128,
    /// The label shown for this level.
    pub name: String,
}

/// The graph being edited, its selection and history, and the frames of the
/// parents above it, innermost last.
pub struct SubGraphNav {
    pub graph: DialogueGraph,
    pub selected_nodes: Vec<u128>,
    pub history: UndoHistory,
    pub stack: Vec<SubGraphFrame>,
}

/// The position of the first node with identifier `id` in a graph, or -1.
pub open spec fn node_pos(g: DialogueGraph, id: u128) -> int {
    first_with(node_ids(nodes_view(g.nodes@)), id)
}

/// What entering node `id` does: when the first node with that identifier
/// is a sub-graph, the current state is pushed as a frame (named by the
/// node's title), the child graph becomes the graph being edited, with an
/// empty selection and a fresh history; otherwise nothing changes.
pub open spec fn enter_effect(a: SubGraphNav, b: SubGraphNav, id: u128, r: bool) -> bool {
    let j = node_pos(a.graph, id);
    if j >= 0 && a.graph.nodes@[j].node_type is SubGraph {
        &&& r
        &&& b.stack@.len() == a.stack@.len() + 1
        &&& b.stack@.drop_last() == a.stack@
        &&& b.stack@.last().graph == a.graph
        &&& b.stack@.last().selected_nodes == a.selected_nodes
        &&& b.stack@.last().history == a.history
        &&& b.stack@.last().node_id == id
        &&& b.stack@.last().name@ == node_title(kind_view(a.graph.nodes@[j].node_type))
        &&& graph_view(b.graph) == graph_view(a.graph.nodes@[j].node_type->SubGraph_0.child_graph)
        &&& b.selected_nodes@.len() == 0
        &&& b.history.view_stacks().undo.len() == 0
        &&& b.history.view_stacks().redo.len() == 0
    } else {
        !r && b == a
    }
}

/// The nodes of `parent` with the child graph of node `j` replaced by `child`.
pub open spec fn with_child(parent: Seq<NodeV>, j: int, child: GraphV) -> Seq<NodeV> {
    parent.update(j, NodeV {
        kind: match parent[j].kind {
            KindV::SubGraph(name, _) => KindV::SubGraph(name, child),
            k => k,
        },
        ..parent[j]
    })
}

/// What leaving does: the innermost frame is popped; the graph being edited
/// goes back into the frame's sub-graph node (when that node is still a
/// sub-graph) and the frame's graph, selection and history are restored.
/// Nothing changes at the top level.
pub open spec fn exit_effect(a: SubGraphNav, b: SubGraphNav, r: bool) -> bool {
    if a.stack@.len() == 0 {
        !r && b == a
    } else {
        let f = a.stack@.last();
        let j = node_pos(f.graph, f.node_id);
        &&& r
        &&& b.stack@ == a.stack@.drop_last()
        &&& b.selected_nodes == f.selected_nodes
        &&& b.history == f.history
        &&& if j >= 0 && f.graph.nodes@[j].node_type is SubGraph {
            graph_view(b.graph) == GraphV { nodes: with_child(nodes_view(f.graph.nodes@), j, graph_view(a.graph)), ..graph_view(f.graph) }
        } else {
            graph_view(b.graph) == graph_view(f.graph)
        }
    }
}

impl SubGraphNav {
    /// Editing `graph` at the top level.
    pub fn new(graph: DialogueGraph) -> (n: SubGraphNav)
        ensures
            n.graph == graph,
            n.stack@.len() == 0,
            n.selected_nodes@.len() == 0,
    {
        SubGraphNav { graph, selected_nodes: Vec::new(), history: UndoHistory::new(), stack: Vec::new() }
    }

    /// Whether a sub-graph is being edited.
    pub fn is_in_subgraph(&self) -> (r: bool)
        ensures
            r == (self.stack@.len() > 0),
    {
        self.stack.len() > 0
    }

    /// The labels of the levels entered, outermost first.
    pub fn breadcrumb_labels(&self) -> (r: Vec<String>)
        ensures
            r@.len() == self.stack@.len(),
            forall|i: int| 0 <= i < r@.len() ==> #[trigger] r@[i]@ == self.stack@[i].name@,
    {
        let mut r: Vec<String> = Vec::new();
        let mut i: usize = 0;
        while i < self.stack.len()
            invariant
                i <= self.stack.len(),
                r@.len() == i,
                forall|k: int| 0 <= k < i ==> #[trigger] r@[k]@ == self.stack@[k].name@,
            decreases self.stack.len() - i,
        {
            r.push(self.stack[i].name.clone());
            i = i + 1;
        }
        r
    }

    /// Enters sub-graph node `node_id` (see `enter_effect`); returns whether it did.
    pub fn enter_subgraph(&mut self, node_id: u128) -> (r: bool)
        ensures
            enter_effect(*old(self), *final(self), node_id, r),
    {
        let j = match first_node_index(&self.graph.nodes, node_id) {
            Some(j) => j,
            None => return false,
        };
        let child = match &self.graph.nodes[j].node_type {
            NodeType::SubGraph(data) => copy_graph(&data.child_graph),
            _ => return false,
        };
        let name = crate::text::owned(self.graph.nodes[j].title());
        let mut graph = child;
        std::mem::swap(&mut graph, &mut self.graph);
        let mut selected: Vec<u128> = Vec::new();
        std::mem::swap(&mut selected, &mut self.selected_nodes);
        let mut history = UndoHistory::new();
        std::mem::swap(&mut history, &mut self.history);
        self.stack.push(SubGraphFrame { graph, selected_nodes: selected, history, node_id, name });
        assert(self.stack@.drop_last() =~= old(self).stack@);
        true
    }

    /// Leaves the innermost sub-graph (see `exit_effect`); returns whether it did.
    pub fn exit_subgraph(&mut self) -> (r: bool)
        ensures
            exit_effect(*old(self), *final(self), r),
    {
        if self.stack.len() == 0 {
            return false;
        }
        let mut frame = match self.stack.pop() {
            Some(f) => f,
            None => return false,
        };
        let ghost fg = frame.graph;
        let mut child = DialogueGraph::new();
        std::mem::swap(&mut child, &mut self.graph);
        match first_node_index(&frame.graph.nodes, frame.node_id) {
            Some(j) => {
                let mut n = frame.graph.nodes.remove(j);
                let ghost old_n = n;
                let mut kind = NodeType::Start;
                std::mem::swap(&mut kind, &mut n.node_type);
                match kind {
                    NodeType::SubGraph(mut data) => {
                        data.child_graph = child;
                        n.node_type = NodeType::SubGraph(data);
                    },
                    other => {
                        n.node_type = other;
                    },
                }
                frame.graph.nodes.insert(j, n);
                proof {
                    lemma_nodes_view(fg.nodes@);
                    lemma_nodes_view(frame.graph.nodes@);
                    assert(frame.graph.nodes@ =~= fg.nodes@.update(j as int, n));
                    if fg.nodes@[j as int].node_type is SubGraph {
                        assert(nodes_view(frame.graph.nodes@) =~= with_child(nodes_view(fg.nodes@), j as int, graph_view(old(self).graph)));
                        assert(graph_view(frame.graph) =~= GraphV {
                            nodes: with_child(nodes_view(fg.nodes@), j as int, graph_view(old(self).graph)),
                            ..graph_view(fg)
                        });
                    } else {
                        assert(n == old_n);
                        assert(frame.graph.nodes@ =~= fg.nodes@);
                        assert(graph_view(frame.graph) =~= graph_view(fg));
                    }
                }
            },
            None => {},
        }
        self.graph = frame.graph;
        self.selected_nodes = frame.selected_nodes;
        self.history = frame.history;
        true
    }
}

/// Leaving a sub-graph right after entering it gives back the graph as it
/// was (in every part), with its selection, history and frames.
pub proof fn law_exit_after_enter_restores(a: SubGraphNav, b: SubGraphNav, c: SubGraphNav, id: u128)
    requires
        enter_effect(a, b, id, true),
        exit_effect(b, c, true),
    ensures
        graph_view(c.graph) == graph_view(a.graph),
        c.selected_nodes == a.selected_nodes,
        c.history == a.history,
        c.stack@ == a.stack@,
{
    let j = node_pos(a.graph, id);
    lemma_nodes_view(a.graph.nodes@);
    let nv = nodes_view(a.graph.nodes@);
    lemma_first_with(node_ids(nv), id);
    assert(node_ids(nv).len() == nv.len());
    assert(nv[j] == node_view(a.graph.nodes@[j]));
    assert(with_child(nv, j, graph_view(b.graph)) =~= nv);
    assert(graph_view(c.graph) =~= graph_view(a.graph));
}

} // verus!
