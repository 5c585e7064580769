use talenode::history::UndoHistory;
use talenode::model::{DialogueGraph, Node};

#[test]
fn undo_redo_basic() {
    let mut history = UndoHistory::new();
    let mut graph = DialogueGraph::new();

    history.save_snapshot(&graph);

    graph.add_node(Node::new_start([0, 0]));
    assert_eq!(graph.nodes.len(), 1);

    let restored = history.undo(&graph).unwrap();
    assert_eq!(restored.nodes.len(), 0);
    graph = restored;

    let restored = history.redo(&graph).unwrap();
    assert_eq!(restored.nodes.len(), 1);
}

#[test]
fn new_action_clears_redo() {
    let mut history = UndoHistory::new();
    let mut graph = DialogueGraph::new();

    history.save_snapshot(&graph);
    graph.add_node(Node::new_start([0, 0]));

    graph = history.undo(&graph).unwrap();

    history.save_snapshot(&graph);
    graph.add_node(Node::new_dialogue([100, 0]));

    assert!(!history.can_redo());
}

#[test]
fn max_history_limit() {
    let mut history = UndoHistory::new();
    let graph = DialogueGraph::new();

    for _ in 0..150 {
        history.save_snapshot(&graph);
    }

    assert!(history.undo_len() <= 100);
}

#[test]
fn undo_empty_returns_none() {
    let mut history = UndoHistory::new();
    let graph = DialogueGraph::new();
    assert!(history.undo(&graph).is_none());
}

#[test]
fn redo_empty_returns_none() {
    let mut history = UndoHistory::new();
    let graph = DialogueGraph::new();
    assert!(history.redo(&graph).is_none());
}

#[test]
fn can_undo_reflects_state() {
    let mut history = UndoHistory::new();
    let graph = DialogueGraph::new();
    assert!(!history.can_undo());
    history.save_snapshot(&graph);
    assert!(history.can_undo());
}

#[test]
fn clear_resets_stacks() {
    let mut history = UndoHistory::new();
    let mut graph = DialogueGraph::new();

    history.save_snapshot(&graph);
    graph.add_node(Node::new_start([0, 0]));
    let _restored = history.undo(&graph).unwrap();
    assert!(history.can_redo());

    history.clear();
    assert!(!history.can_undo());
    assert!(!history.can_redo());
}

#[test]
fn multiple_undo_redo_sequence() {
    let mut history = UndoHistory::new();
    let mut graph = DialogueGraph::new();

    history.save_snapshot(&graph);
    graph.add_node(Node::new_start([0, 0]));

    history.save_snapshot(&graph);
    graph.add_node(Node::new_dialogue([100, 0]));

    history.save_snapshot(&graph);
    graph.add_node(Node::new_end([200, 0]));

    graph = history.undo(&graph).unwrap();
    assert_eq!(graph.nodes.len(), 2);
    graph = history.undo(&graph).unwrap();
    assert_eq!(graph.nodes.len(), 1);
    let restored = history.undo(&graph).unwrap();
    assert_eq!(restored.nodes.len(), 0);
    graph = restored;

    graph = history.redo(&graph).unwrap();
    assert_eq!(graph.nodes.len(), 1);
    graph = history.redo(&graph).unwrap();
    assert_eq!(graph.nodes.len(), 2);
}

#[test]
fn undo_preserves_connections() {
    let mut history = UndoHistory::new();
    let mut graph = DialogueGraph::new();

    let start = Node::new_start([0, 0]);
    let end = Node::new_end([200, 0]);
    let start_out = start.outputs[0].id;
    let end_in = end.inputs[0].id;
    let start_id = start.id;
    let end_id = end.id;
    graph.add_node(start);
    graph.add_node(end);
    graph.add_connection(start_id, start_out, end_id, end_in);

    history.save_snapshot(&graph);
    graph.remove_node(end_id);
    assert!(graph.connections.is_empty());

    graph = history.undo(&graph).unwrap();
    assert_eq!(graph.connections.len(), 1);
}

#[test]
fn undo_through_compressed_snapshots() {
    let mut history = UndoHistory::new();
    let mut graph = DialogueGraph::new();

    for i in 0..10 {
        history.save_snapshot(&graph);
        graph.add_node(Node::new_dialogue([i * 50, 0]));
    }

    for expected in (0..10).rev() {
        graph = history.undo(&graph).unwrap();
        assert_eq!(graph.nodes.len(), expected);
    }
}

#[test]
fn debounce_skips_rapid_snapshots() {
    let mut history = UndoHistory::new();
    let graph = DialogueGraph::new();

    assert!(history.save_snapshot_debounced(&graph));
    assert!(!history.save_snapshot_debounced(&graph));
    assert_eq!(history.undo_len(), 1);
}
