use talenode::history::UndoHistory;
use talenode::model::{DialogueGraph, Node};
use talenode::wiring::{finish_wire, PortDirection, WireEnd};

fn two_nodes() -> (DialogueGraph, WireEnd, WireEnd) {
    let mut g = DialogueGraph::new();
    let start = Node::new_start([0, 0]);
    let dlg = Node::new_dialogue([200, 0]);
    let out_end = WireEnd { node: start.id, port: start.outputs[0].id, direction: PortDirection::Output };
    let in_end = WireEnd { node: dlg.id, port: dlg.inputs[0].id, direction: PortDirection::Input };
    g.add_node(start);
    g.add_node(dlg);
    (g, out_end, in_end)
}

#[test]
fn wire_dropped_on_an_input_runs_from_the_output() {
    let (mut g, out_end, in_end) = two_nodes();
    let mut h = UndoHistory::new();
    assert!(finish_wire(&mut g, &mut h, out_end, in_end));
    assert_eq!(g.connections.len(), 1);
    assert_eq!(g.connections[0].from_port, out_end.port);
    assert_eq!(g.connections[0].to_port, in_end.port);
    assert_eq!(h.undo_len(), 1);
}

#[test]
fn wire_dragged_back_from_an_input_is_turned_around() {
    let (mut g, out_end, in_end) = two_nodes();
    let mut h = UndoHistory::new();
    assert!(finish_wire(&mut g, &mut h, in_end, out_end));
    assert_eq!(g.connections[0].from_node, out_end.node);
    assert_eq!(g.connections[0].to_node, in_end.node);
    assert!(!finish_wire(&mut g, &mut h, out_end, in_end));
    assert_eq!(g.connections.len(), 1);
    assert_eq!(h.undo_len(), 2);
}

#[test]
fn ports_on_the_same_side_are_not_wired() {
    let (mut g, out_end, in_end) = two_nodes();
    let mut h = UndoHistory::new();
    let other_out = WireEnd { node: in_end.node, port: in_end.port, direction: PortDirection::Output };
    assert!(!finish_wire(&mut g, &mut h, out_end, other_out));
    assert!(g.connections.is_empty());
    assert_eq!(h.undo_len(), 0);
}
