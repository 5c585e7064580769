use talenode::collab::{apply_op, CollabOp};
use talenode::model::{Character, DialogueGraph, Node, Variable, VariableType, VariableValue};

#[test]
fn apply_add_and_remove_node() {
    let mut graph = DialogueGraph::new();
    let node = Node::new_dialogue([0, 0]);
    let id = node.id;

    assert!(apply_op(&mut graph, &CollabOp::AddNode { node: Some(node) }));
    assert!(graph.nodes.iter().any(|n| n.id == id));

    assert!(apply_op(&mut graph, &CollabOp::RemoveNode { node_id: id }));
    assert!(!graph.nodes.iter().any(|n| n.id == id));
}

#[test]
fn apply_move_node() {
    let mut graph = DialogueGraph::new();
    let node = Node::new_dialogue([0, 0]);
    let id = node.id;
    graph.add_node(node);

    apply_op(&mut graph, &CollabOp::MoveNode { node_id: id, position: [100, 200] });
    assert_eq!(graph.nodes.iter().find(|n| n.id == id).unwrap().position, [100, 200]);
}

#[test]
fn apply_add_and_edit_character() {
    let mut graph = DialogueGraph::new();
    let ch = Character::new("Hero");
    let ch_id = ch.id;

    assert!(apply_op(&mut graph, &CollabOp::AddCharacter { ch: Some(ch) }));
    assert_eq!(graph.characters.len(), 1);
    assert_eq!(graph.characters[0].name, "Hero");

    let mut updated = graph.characters[0].clone();
    updated.name = "Villain".to_string();
    assert!(apply_op(&mut graph, &CollabOp::EditCharacter { ch: Some(updated) }));
    assert_eq!(graph.characters[0].name, "Villain");

    assert!(apply_op(&mut graph, &CollabOp::RemoveCharacter { char_id: ch_id }));
    assert!(graph.characters.is_empty());
}

#[test]
fn apply_add_and_remove_variable() {
    let mut graph = DialogueGraph::new();
    let var = Variable {
        id: uuid::Uuid::new_v4().as_u128(),
        name: "health".to_string(),
        var_type: VariableType::Int,
        default_value: VariableValue::Int(100),
    };
    let var_id = var.id;

    assert!(apply_op(&mut graph, &CollabOp::AddVariable { var: Some(var) }));
    assert_eq!(graph.variables.len(), 1);
    assert_eq!(graph.variables[0].name, "health");

    assert!(apply_op(&mut graph, &CollabOp::RemoveVariable { var_id }));
    assert!(graph.variables.is_empty());
}

#[test]
fn apply_op_on_missing_node_returns_false() {
    let mut graph = DialogueGraph::new();
    let fake_id = uuid::Uuid::new_v4().as_u128();
    assert!(!apply_op(&mut graph, &CollabOp::MoveNode { node_id: fake_id, position: [0, 0] }));
}

#[test]
fn apply_undecodable_payload_is_not_applied() {
    let mut graph = DialogueGraph::new();
    assert!(!apply_op(&mut graph, &CollabOp::AddNode { node: None }));
    assert!(!apply_op(&mut graph, &CollabOp::EditVariable { var: None }));
    assert!(graph.nodes.is_empty());
}

#[test]
fn apply_edit_node_field_keeps_ports_and_place() {
    let mut graph = DialogueGraph::new();
    let node = Node::new_dialogue([5, 7]);
    let id = node.id;
    let out_port = node.outputs[0].id;
    graph.add_node(node);
    let mut other = Node::new_end([0, 0]);
    other.id = 1;
    assert!(apply_op(&mut graph, &CollabOp::EditNodeField { node_id: id, node: Some(other) }));
    let n = graph.nodes.iter().find(|n| n.id == id).unwrap();
    assert!(matches!(n.node_type, talenode::model::NodeType::End(_)));
    assert_eq!(n.position, [5, 7]);
    assert_eq!(n.outputs[0].id, out_port);
}

#[test]
fn apply_add_connection_refuses_self_loop() {
    let mut graph = DialogueGraph::new();
    let a = Node::new_dialogue([0, 0]);
    let (a_id, a_in, a_out) = (a.id, a.inputs[0].id, a.outputs[0].id);
    graph.add_node(a);
    assert!(!graph.add_connection(a_id, a_out, a_id, a_in));
    assert!(graph.connections.is_empty());
}

// ------------------------------------------------------------ diff

use talenode::collab::diff_to_ops;
use talenode::copy::copy_graph;
use talenode::model::NodeType;

#[test]
fn diff_detects_added_node() {
    let old = DialogueGraph::new();
    let mut new = copy_graph(&old);
    new.add_node(Node::new_dialogue([100, 100]));
    let ops = diff_to_ops(&old, &new);
    assert!(ops.iter().any(|o| matches!(o, CollabOp::AddNode { .. })));
}

#[test]
fn diff_detects_removed_node() {
    let mut old = DialogueGraph::new();
    let node = Node::new_dialogue([0, 0]);
    let id = node.id;
    old.add_node(node);
    let mut new = copy_graph(&old);
    new.remove_node(id);
    let ops = diff_to_ops(&old, &new);
    assert!(ops.iter().any(|o| matches!(o, CollabOp::RemoveNode { node_id } if *node_id == id)));
}

#[test]
fn diff_detects_moved_node() {
    let mut old = DialogueGraph::new();
    let node = Node::new_dialogue([0, 0]);
    let id = node.id;
    old.add_node(node);
    let mut new = copy_graph(&old);
    new.nodes.iter_mut().find(|n| n.id == id).unwrap().position = [50, 50];
    let ops = diff_to_ops(&old, &new);
    assert!(ops.iter().any(|o| matches!(o, CollabOp::MoveNode { .. })));
}

#[test]
fn diff_then_apply_recreates_target() {
    let mut old = DialogueGraph::new();
    old.add_node(Node::new_start([0, 0]));
    let dlg = Node::new_dialogue([100, 100]);
    let dlg_id = dlg.id;
    old.add_node(dlg);

    let mut new = copy_graph(&old);
    new.add_node(Node::new_choice([200, 200]));
    new.remove_node(dlg_id);
    new.nodes.first_mut().unwrap().position = [50, 50];

    let ops = diff_to_ops(&old, &new);
    assert!(!ops.is_empty());

    let mut rebuilt = copy_graph(&old);
    for op in &ops {
        apply_op(&mut rebuilt, op);
    }

    assert_eq!(rebuilt.nodes.len(), new.nodes.len());
    assert!(!rebuilt.nodes.iter().any(|n| n.id == dlg_id));
    for n in &new.nodes {
        let r = rebuilt.nodes.iter().find(|m| m.id == n.id).unwrap();
        assert_eq!(r.position, n.position);
    }
}

#[test]
fn diff_empty_graphs_produces_no_ops() {
    let a = DialogueGraph::new();
    let b = copy_graph(&a);
    let ops = diff_to_ops(&a, &b);
    assert!(ops.is_empty());
}

#[test]
fn diff_detects_node_type_change() {
    let mut old = DialogueGraph::new();
    let node = Node::new_dialogue([0, 0]);
    let id = node.id;
    old.add_node(node);

    let mut new = copy_graph(&old);
    if let Some(n) = new.nodes.iter_mut().find(|n| n.id == id) {
        if let NodeType::Dialogue(ref mut d) = n.node_type {
            d.text = "Changed text".to_string();
        }
    }

    let ops = diff_to_ops(&old, &new);
    assert!(ops.iter().any(|o| matches!(o, CollabOp::EditNodeField { .. })));
}

#[test]
fn diff_of_populated_graph_with_itself_is_empty() {
    let mut g = DialogueGraph::new();
    let s = Node::new_start([0, 0]);
    let e = Node::new_end([10, 0]);
    let (s_id, s_out, e_id, e_in) = (s.id, s.outputs[0].id, e.id, e.inputs[0].id);
    g.add_node(s);
    g.add_node(e);
    g.add_connection(s_id, s_out, e_id, e_in);
    let h = copy_graph(&g);
    assert!(diff_to_ops(&g, &h).is_empty());
}

#[test]
fn diff_orders_adds_removes_moves_then_connections() {
    let mut old = DialogueGraph::new();
    let a = Node::new_start([0, 0]);
    let b = Node::new_end([10, 0]);
    let (a_id, a_out, b_id, b_in) = (a.id, a.outputs[0].id, b.id, b.inputs[0].id);
    old.add_node(a);
    old.add_node(b);
    let mut new = copy_graph(&old);
    new.add_connection(a_id, a_out, b_id, b_in);
    new.nodes[0].position = [5, 5];
    let extra = Node::new_end([20, 0]);
    new.add_node(extra);
    let ops = diff_to_ops(&old, &new);
    assert_eq!(ops.len(), 3);
    assert!(matches!(ops[0], CollabOp::AddNode { .. }));
    assert!(matches!(ops[1], CollabOp::MoveNode { node_id, position: [5, 5] } if node_id == a_id));
    assert!(matches!(ops[2], CollabOp::AddConnection { .. }));
}

fn wires(g: &DialogueGraph) -> Vec<(u128, u128, u128, u128)> {
    let mut w: Vec<_> = g.connections.iter().map(|c| (c.from_node, c.from_port, c.to_node, c.to_port)).collect();
    w.sort();
    w
}

#[test]
fn diff_then_apply_recreates_wires() {
    let mut old = DialogueGraph::new();
    let start = Node::new_start([0, 0]);
    let a = Node::new_dialogue([100, 0]);
    let b = Node::new_dialogue([200, 0]);
    let (sid, so) = (start.id, start.outputs[0].id);
    let (aid, ai, ao) = (a.id, a.inputs[0].id, a.outputs[0].id);
    let (bid, bi) = (b.id, b.inputs[0].id);
    old.add_node(start);
    old.add_node(a);
    old.add_node(b);
    assert!(old.add_connection(sid, so, aid, ai));
    assert!(old.add_connection(aid, ao, bid, bi));

    let mut new = copy_graph(&old);
    new.remove_node(aid);
    assert!(new.add_connection(sid, so, bid, bi));

    let ops = diff_to_ops(&old, &new);
    let mut rebuilt = copy_graph(&old);
    for op in &ops {
        apply_op(&mut rebuilt, op);
    }
    assert_eq!(wires(&rebuilt), wires(&new));
    assert_eq!(rebuilt.connections.len(), 1);
}

#[test]
fn diff_of_a_graph_with_its_copy_is_empty() {
    let mut a = DialogueGraph::new();
    let start = Node::new_start([0, 0]);
    let dlg = Node::new_dialogue([150, 40]);
    let (s_id, s_out, d_id, d_in) = (start.id, start.outputs[0].id, dlg.id, dlg.inputs[0].id);
    a.add_node(start);
    a.add_node(dlg);
    a.add_connection(s_id, s_out, d_id, d_in);
    let b = copy_graph(&a);
    assert!(diff_to_ops(&a, &b).is_empty());
    let twin = talenode::copy::copy_node(&a.nodes[1]);
    a.nodes.push(twin);
    assert!(diff_to_ops(&a, &a).is_empty());
}
