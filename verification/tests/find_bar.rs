use talenode::find_bar::SearchPanel;
use talenode::history::UndoHistory;
use talenode::model::{DialogueGraph, Node, NodeType};

fn line(text: &str) -> Node {
    let mut n = Node::new_dialogue([0, 0]);
    if let NodeType::Dialogue(ref mut d) = n.node_type {
        d.text = text.to_string();
    }
    n
}

fn text_of(n: &Node) -> String {
    match &n.node_type {
        NodeType::Dialogue(d) => d.text.clone(),
        _ => panic!("expected a dialogue node"),
    }
}

fn graph() -> DialogueGraph {
    let mut g = DialogueGraph::new();
    g.add_node(line("The guard waits."));
    g.add_node(Node::new_end([0, 0]));
    g.add_node(line("Another GUARD."));
    g
}

fn panel(query: &str, replacement: &str) -> SearchPanel {
    let mut p = SearchPanel::new();
    p.query = query.to_string();
    p.replacement = replacement.to_string();
    p
}

#[test]
fn results_follow_the_query_case_insensitively() {
    let g = graph();
    let mut p = panel("Guard", "");
    p.index = 5;
    p.update_results(&g);
    assert_eq!(p.results, vec![g.nodes[0].id, g.nodes[2].id]);
    assert_eq!(p.index, 0);
    assert_eq!(p.current(), Some(g.nodes[0].id));
    let mut p = panel("", "");
    p.index = 3;
    p.update_results(&g);
    assert!(p.results.is_empty());
    assert_eq!(p.index, 3);
    assert_eq!(p.current(), None);
}

#[test]
fn replace_all_counts_and_searches_again() {
    let mut g = graph();
    let mut h = UndoHistory::new();
    let mut p = panel("guard", "soldier");
    p.update_results(&g);
    let status = p.replace_all(&mut g, &mut h).expect("a status");
    assert_eq!(status, "2 replacement(s) across 2 node(s)");
    assert_eq!(text_of(&g.nodes[0]), "The soldier waits.");
    assert_eq!(text_of(&g.nodes[2]), "Another soldier.");
    assert!(p.results.is_empty());
    assert_eq!(p.index, 0);
    assert!(h.can_undo());
}

#[test]
fn replace_in_current_touches_only_the_focused_node() {
    let mut g = graph();
    let mut h = UndoHistory::new();
    let mut p = panel("guard", "knight");
    p.update_results(&g);
    p.index = 1;
    let status = p.replace_in_current(&mut g, &mut h).expect("a status");
    assert_eq!(status, "Replaced in current node");
    assert_eq!(text_of(&g.nodes[0]), "The guard waits.");
    assert_eq!(text_of(&g.nodes[2]), "Another knight.");
    assert_eq!(p.results, vec![g.nodes[0].id]);
    assert_eq!(p.index, 0);
    assert_eq!(h.undo_len(), 1);
}

#[test]
fn nothing_to_replace_without_results() {
    let mut g = graph();
    let mut h = UndoHistory::new();
    let mut p = panel("dragon", "x");
    p.update_results(&g);
    assert!(p.replace_all(&mut g, &mut h).is_none());
    assert!(p.replace_in_current(&mut g, &mut h).is_none());
    assert!(!h.can_undo());
}

#[test]
fn try_variants_refuse_an_impossible_replacement() {
    let mut g = graph();
    let before = g.nodes[0].id;
    let mut h = UndoHistory::new();
    let mut p = panel("", "x");
    p.results = vec![before];
    p.index = 0;
    assert_eq!(p.try_replace_in_current(&mut g, &mut h), None);
    assert_eq!(p.try_replace_all(&mut g, &mut h), None);
    assert_eq!(text_of(&g.nodes[0]), "The guard waits.");
    assert_eq!(p.results, vec![before]);
    assert!(!h.can_undo());
}

#[test]
fn try_variants_replace_when_possible() {
    let mut g = graph();
    let mut h = UndoHistory::new();
    let mut p = panel("guard", "soldier");
    p.update_results(&g);
    assert_eq!(
        p.try_replace_all(&mut g, &mut h),
        Some(Some("2 replacement(s) across 2 node(s)".to_string()))
    );
    assert_eq!(text_of(&g.nodes[0]), "The soldier waits.");
    assert_eq!(p.try_replace_all(&mut g, &mut h), Some(None));
    let mut p = panel("soldier", "knight");
    p.update_results(&g);
    p.index = 1;
    assert_eq!(
        p.try_replace_in_current(&mut g, &mut h),
        Some(Some("Replaced in current node".to_string()))
    );
    assert_eq!(text_of(&g.nodes[0]), "The soldier waits.");
    assert_eq!(text_of(&g.nodes[2]), "Another knight.");
    assert_eq!(h.undo_len(), 2);
}
