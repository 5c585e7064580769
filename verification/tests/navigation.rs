use talenode::model::{DialogueGraph, Node, NodeType};
use talenode::navigation::SubGraphNav;

fn graph_with_subgraph() -> (DialogueGraph, u128) {
    let mut g = DialogueGraph::new();
    g.add_node(Node::new_start([0, 0]));
    let mut sub = Node::new_subgraph([100, 0]);
    if let NodeType::SubGraph(ref mut d) = sub.node_type {
        d.name = "Inner".to_string();
        d.child_graph.add_node(Node::new_end([5, 5]));
    }
    let id = sub.id;
    g.add_node(sub);
    (g, id)
}

#[test]
fn enter_switches_to_child_and_exit_restores_parent() {
    let (g, id) = graph_with_subgraph();
    let mut nav = SubGraphNav::new(g);
    nav.selected_nodes.push(id);
    assert!(!nav.is_in_subgraph());
    assert!(nav.enter_subgraph(id));
    assert!(nav.is_in_subgraph());
    assert_eq!(nav.graph.nodes.len(), 2);
    assert!(nav.selected_nodes.is_empty());
    assert_eq!(nav.breadcrumb_labels(), vec!["Sub-Graph".to_string()]);
    assert!(nav.exit_subgraph());
    assert!(!nav.is_in_subgraph());
    assert_eq!(nav.graph.nodes.len(), 2);
    assert_eq!(nav.selected_nodes, vec![id]);
}

#[test]
fn edits_inside_a_subgraph_are_kept_on_exit() {
    let (g, id) = graph_with_subgraph();
    let mut nav = SubGraphNav::new(g);
    assert!(nav.enter_subgraph(id));
    nav.graph.add_node(Node::new_dialogue([10, 10]));
    assert!(nav.exit_subgraph());
    let sub = nav.graph.nodes.iter().find(|n| n.id == id).unwrap();
    match &sub.node_type {
        NodeType::SubGraph(d) => assert_eq!(d.child_graph.nodes.len(), 3),
        _ => panic!("still a sub-graph"),
    }
}

#[test]
fn entering_a_plain_node_or_leaving_the_top_does_nothing() {
    let (g, _) = graph_with_subgraph();
    let start_id = g.nodes[0].id;
    let mut nav = SubGraphNav::new(g);
    assert!(!nav.enter_subgraph(start_id));
    assert!(!nav.enter_subgraph(12345));
    assert!(!nav.exit_subgraph());
    assert_eq!(nav.graph.nodes.len(), 2);
}
