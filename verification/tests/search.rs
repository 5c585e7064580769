use talenode::model::{DialogueGraph, Node, NodeType};
use talenode::search::{
    contains_str, node_matches_query, replace_in_node, replace_in_string, replaced_text, search_nodes,
    try_replace_in_node,
};

fn dialogue(text: &str, speaker: &str) -> Node {
    let mut n = Node::new_dialogue([0, 0]);
    if let NodeType::Dialogue(ref mut d) = n.node_type {
        d.text = text.to_string();
        d.speaker_name = speaker.to_string();
    }
    n
}

#[test]
fn contains_str_finds_runs() {
    assert!(contains_str("hello world", "lo w"));
    assert!(contains_str("abc", ""));
    assert!(!contains_str("abc", "abcd"));
    assert!(!contains_str("abc", "ac"));
}

#[test]
fn node_matches_text_speaker_and_title() {
    let g = DialogueGraph::new();
    let n = dialogue("The Dragon sleeps", "Narrator");
    assert!(node_matches_query(&n, "dragon", &g));
    assert!(node_matches_query(&n, "narr", &g));
    assert!(node_matches_query(&n, "dialogue", &g));
    assert!(!node_matches_query(&n, "castle", &g));
}

#[test]
fn node_matches_tags() {
    let mut g = DialogueGraph::new();
    let n = dialogue("x", "");
    g.node_tags.push((n.id, vec!["Act One".to_string()]));
    assert!(node_matches_query(&n, "act one", &g));
}

#[test]
fn search_lowercases_query_and_keeps_node_order() {
    let mut g = DialogueGraph::new();
    let a = dialogue("A dragon", "");
    let b = dialogue("A knight", "");
    let c = dialogue("Another DRAGON", "");
    let (a_id, c_id) = (a.id, c.id);
    g.add_node(a);
    g.add_node(b);
    g.add_node(c);
    assert_eq!(search_nodes(&g, "Dragon"), vec![a_id, c_id]);
    assert!(search_nodes(&g, "").is_empty());
}

#[test]
fn replace_in_string_replaces_every_match_ignoring_case() {
    let mut s = "Hello hello HELLO!".to_string();
    assert_eq!(replace_in_string(&mut s, "hello", "Bye"), 1);
    assert_eq!(s, "Bye Bye Bye!");
    let mut t = "nothing here".to_string();
    assert_eq!(replace_in_string(&mut t, "xyz", "q"), 0);
    assert_eq!(t, "nothing here");
}

#[test]
fn replaced_text_keeps_text_between_matches() {
    assert_eq!(replaced_text("aXbxc", "x", "--"), Some("a--b--c".to_string()));
    assert_eq!(replaced_text("Éclair", "é", "E"), Some("Eclair".to_string()));
}

#[test]
fn replace_in_choice_node_relabels_outputs() {
    let mut n = Node::new_choice([0, 0]);
    if let NodeType::Choice(ref mut c) = n.node_type {
        c.prompt = "Fight the orc?".to_string();
        c.choices[0].text = "Fight the Orc".to_string();
        c.choices[1].text = "Flee".to_string();
    }
    let count = replace_in_node(&mut n, "orc", "troll");
    assert_eq!(count, 2);
    if let NodeType::Choice(ref c) = n.node_type {
        assert_eq!(c.prompt, "Fight the troll?");
        assert_eq!(c.choices[0].text, "Fight the troll");
    }
    assert_eq!(n.outputs[0].label, "Fight the troll");
    assert_eq!(n.outputs[1].label, "Flee");
}

#[test]
fn try_replace_refuses_empty_query() {
    let mut n = dialogue("abc", "");
    assert_eq!(try_replace_in_node(&mut n, "", "x"), None);
    assert_eq!(try_replace_in_node(&mut n, "B", "x"), Some(1));
    if let NodeType::Dialogue(ref d) = n.node_type {
        assert_eq!(d.text, "axc");
    }
}
