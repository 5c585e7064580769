use talenode::insertion::{insert_template, regenerate_child_ids, template_from_selection};
use talenode::model::{DialogueGraph, Node, NodeType};
use talenode::templates::builtin_guard_check;

fn two_linked_nodes() -> (DialogueGraph, u128, u128) {
    let mut g = DialogueGraph::new();
    let a = Node::new_start([10, 20]);
    let b = Node::new_dialogue([110, -30]);
    let (aid, bid) = (a.id, b.id);
    let (ap, bp) = (a.outputs[0].id, b.inputs[0].id);
    g.add_node(a);
    g.add_node(b);
    assert!(g.add_connection(aid, ap, bid, bp));
    (g, aid, bid)
}

#[test]
fn inserted_template_gets_fresh_ids_and_shifted_positions() {
    let t = builtin_guard_check();
    let mut g = DialogueGraph::new();
    let ids = insert_template(&mut g, &t, [1000, -50]);
    assert_eq!(ids.len(), 6);
    assert_eq!(g.nodes.len(), 6);
    assert_eq!(g.connections.len(), 5);
    for (i, id) in ids.iter().enumerate() {
        assert!(t.nodes.iter().all(|n| n.id != *id));
        assert_eq!(g.nodes[i].id, *id);
        assert_eq!(g.nodes[i].position, [t.nodes[i].position[0] + 1000, t.nodes[i].position[1] - 50]);
        assert_eq!(g.nodes[i].inputs.len(), t.nodes[i].inputs.len());
        assert_eq!(g.nodes[i].outputs.len(), t.nodes[i].outputs.len());
    }
    assert_eq!(g.nodes[0].position, [1000, 50]);
    // The start's output now feeds the copied condition's input.
    let c = &g.connections[0];
    assert_eq!(c.from_node, g.nodes[0].id);
    assert_eq!(c.from_port, g.nodes[0].outputs[0].id);
    assert_eq!(c.to_node, g.nodes[1].id);
    assert_eq!(c.to_port, g.nodes[1].inputs[0].id);
    // The condition's false branch goes to the halting line.
    let c = &g.connections[2];
    assert_eq!(c.from_port, g.nodes[1].outputs[1].id);
    assert_eq!(c.to_node, g.nodes[3].id);
}

#[test]
fn inserting_twice_gives_two_independent_copies() {
    let t = builtin_guard_check();
    let mut g = DialogueGraph::new();
    let first = insert_template(&mut g, &t, [0, 0]);
    let second = insert_template(&mut g, &t, [0, 300]);
    assert_eq!(g.nodes.len(), 12);
    assert_eq!(g.connections.len(), 10);
    assert!(first.iter().all(|a| second.iter().all(|b| a != b)));
}

#[test]
fn connection_to_a_node_outside_the_template_is_dropped() {
    let (g0, aid, _bid) = two_linked_nodes();
    let t = template_from_selection(&g0, &vec![aid], "Lone".to_string()).unwrap();
    assert_eq!(t.nodes.len(), 1);
    assert!(t.connections.is_empty());
    let mut g = DialogueGraph::new();
    let ids = insert_template(&mut g, &t, [5, 5]);
    assert_eq!(ids.len(), 1);
    assert!(g.connections.is_empty());
    assert_eq!(g.nodes[0].position, [5, 5]);
}

#[test]
fn empty_selection_makes_no_template() {
    let (g, _, _) = two_linked_nodes();
    assert!(template_from_selection(&g, &Vec::new(), "x".to_string()).is_none());
}

#[test]
fn selection_template_normalizes_positions_and_keeps_inner_connections() {
    let (g, aid, bid) = two_linked_nodes();
    let t = template_from_selection(&g, &vec![bid, aid, bid], "Pair".to_string()).unwrap();
    assert_eq!(t.name, "Pair");
    assert_eq!(t.description, "");
    assert!(!t.is_builtin);
    assert_eq!(t.nodes.len(), 2);
    assert_eq!(t.nodes[0].id, bid);
    assert_eq!(t.nodes[0].position, [100, 0]);
    assert_eq!(t.nodes[1].id, aid);
    assert_eq!(t.nodes[1].position, [0, 50]);
    assert_eq!(t.connections.len(), 1);
    assert_eq!(t.connections[0].id, g.connections[0].id);
}

#[test]
fn selection_of_unknown_ids_makes_an_empty_template() {
    let (g, _, _) = two_linked_nodes();
    let t = template_from_selection(&g, &vec![42], "Ghost".to_string()).unwrap();
    assert!(t.nodes.is_empty());
    assert!(t.connections.is_empty());
}

#[test]
fn regenerated_child_graph_keeps_shape_with_new_ids() {
    let (mut g, aid, bid) = two_linked_nodes();
    let old_conn = g.connections[0].id;
    let old_port = g.nodes[0].outputs[0].id;
    regenerate_child_ids(&mut g);
    assert_eq!(g.nodes.len(), 2);
    assert_ne!(g.nodes[0].id, aid);
    assert_ne!(g.nodes[1].id, bid);
    assert!(matches!(g.nodes[0].node_type, NodeType::Start));
    assert_eq!(g.nodes[1].position, [110, -30]);
    assert_ne!(g.nodes[0].outputs[0].id, old_port);
    let c = &g.connections[0];
    assert_ne!(c.id, old_conn);
    assert_eq!(c.from_node, g.nodes[0].id);
    assert_eq!(c.from_port, g.nodes[0].outputs[0].id);
    assert_eq!(c.to_node, g.nodes[1].id);
    assert_eq!(c.to_port, g.nodes[1].inputs[0].id);
}

#[test]
fn subgraph_in_template_gets_new_inner_ids() {
    let (inner, aid, _) = two_linked_nodes();
    let mut sg = Node::new_subgraph([0, 0]);
    if let NodeType::SubGraph(ref mut d) = sg.node_type {
        d.child_graph = inner;
    }
    let sid = sg.id;
    let mut g0 = DialogueGraph::new();
    g0.add_node(sg);
    let t = template_from_selection(&g0, &vec![sid], "Nested".to_string()).unwrap();
    let mut g = DialogueGraph::new();
    insert_template(&mut g, &t, [0, 0]);
    match &g.nodes[0].node_type {
        NodeType::SubGraph(d) => {
            assert_eq!(d.child_graph.nodes.len(), 2);
            assert_ne!(d.child_graph.nodes[0].id, aid);
            assert_eq!(d.child_graph.connections[0].from_node, d.child_graph.nodes[0].id);
        }
        _ => panic!("expected a sub-graph"),
    }
}

#[test]
fn saved_selection_inserted_at_its_corner_lands_on_the_selected_nodes() {
    let (g0, aid, bid) = two_linked_nodes();
    let t = template_from_selection(&g0, &vec![aid, bid], "Pair".to_string()).unwrap();
    let mut g = DialogueGraph::new();
    let ids = insert_template(&mut g, &t, [10, -30]);
    assert_eq!(ids.len(), 2);
    assert_eq!(g.nodes[0].position, g0.nodes[0].position);
    assert_eq!(g.nodes[1].position, g0.nodes[1].position);
    assert_eq!(g.connections.len(), 1);
    assert_eq!(g.connections[0].from_node, ids[0]);
    assert_eq!(g.connections[0].to_node, ids[1]);
}

#[test]
fn duplicates_are_shifted_and_unconnected() {
    let (mut g, aid, bid) = two_linked_nodes();
    let ids = talenode::insertion::duplicate_selected(&mut g, &vec![aid, bid, aid]);
    assert_eq!(ids.len(), 2);
    assert_eq!(g.nodes.len(), 4);
    assert_eq!(g.connections.len(), 1);
    assert_eq!(g.nodes[2].id, ids[0]);
    assert_eq!(g.nodes[2].position, [40, 50]);
    assert_eq!(g.nodes[3].position, [140, 0]);
    assert_ne!(g.nodes[2].outputs[0].id, g.nodes[0].outputs[0].id);
    assert!(talenode::insertion::duplicate_selected(&mut g, &Vec::new()).is_empty());
    assert_eq!(g.nodes.len(), 4);
}
