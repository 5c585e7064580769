//! Finishing a wire dragged on the canvas from one port to another: the
//! connection always runs from the output end to the input end.

use vstd::prelude::*;
use crate::collab::same_but_wires;
use crate::graph::already_wired;
use crate::history::{UndoHistory, spec_save};
use crate::model::{DialogueGraph, graph_view};

verus! {

/// Which side of a node a port is on.
#[derive(Clone, Copy, Debug, PartialEq, Eq, Structural)]
pub enum PortDirection {
    Input,
    Output,
}

/// One end of a dragged wire: the node, the port and the port's side.
#[derive(Clone, Copy, Debug)]
pub struct WireEnd {
    pub node: u128,
    pub port: u128,
    pub direction: PortDirection,
}

/// The connection that a wire dragged from `from` and dropped on `to` asks
/// for, as (output node, output port, input node, input port); `None` when
/// both ports are on the same side.
pub open spec fn wire_request(from: WireEnd, to: WireEnd) -> Option<(u128, u128, u128, u128)> {
    match (from.direction, to.direction) {
        (PortDirection::Output, PortDirection::Input) => Some((from.node, from.port, to.node, to.port)),
        (PortDirection::Input, PortDirection::Output) => Some((to.node, to.port, from.node, from.port)),
        _ => None,
    }
}

/// Ends a wire drag: when the two ports are on different sides, takes an undo
/// snapshot and wires the output end to the input end as `add_connection`
/// does (returning whether the connection was added); two ports on the same
/// side leave everything as it was.
pub fn finish_wire(graph: &mut DialogueGraph, history: &mut UndoHistory, from: WireEnd, to: WireEnd) -> (added: bool)
    ensures
        wire_request(from, to) is None ==> !added && *final(graph) == *old(graph) && *final(history) == *old(history),
        wire_request(from, to) matches Some((out_node, out_port, in_node, in_port)) ==> {
            &&& final(history).view_stacks() == spec_save(old(history).view_stacks(), graph_view(*old(graph)))
            &&& added == !(out_node == in_node || already_wired(old(graph).connections@, out_port, in_port))
            &&& !added ==> *final(graph) == *old(graph)
            &&& added ==> {
                &&& final(graph).connections@.drop_last() == old(graph).connections@
                &&& final(graph).connections@.len() == old(graph).connections@.len() + 1
                &&& final(graph).connections@.last().from_node == out_node
                &&& final(graph).connections@.last().from_port == out_port
                &&& final(graph).connections@.last().to_node == in_node
                &&& final(graph).connections@.last().to_port == in_port
                &&& same_but_wires(*old(graph), *final(graph))
            }
        },
{
    match (from.direction, to.direction) {
        (PortDirection::Output, PortDirection::Input) => {
            history.save_snapshot(graph);
            graph.add_connection(from.node, from.port, to.node, to.port)
        },
        (PortDirection::Input, PortDirection::Output) => {
            history.save_snapshot(graph);
            graph.add_connection(to.node, to.port, from.node, from.port)
        },
        _ => false,
    }
}

} // verus!
