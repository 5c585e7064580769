use talenode::bark_export::export_bark_csv;
use talenode::csv::{csv_field, parse_csv_rows};
use talenode::flatten::flatten_subgraphs;
use talenode::html_export::export_html;
use talenode::locale::LocaleSettings;
use talenode::locale_export::{export_locale_csv, import_locale_csv};
use talenode::model::{
    BarkLine, Character, DialogueGraph, Node, NodeType, Variable, VariableType, VariableValue,
};
use talenode::voice_export::export_voice_csv;
use talenode::xml_export::export_xml;
use talenode::yarn_export::export_yarn;

// ------------------------------------------------------------ barks

#[test]
fn bark_export_export_empty_graph() {
    let graph = DialogueGraph::new();
    let csv = export_bark_csv(&graph);
    assert_eq!(csv, "CharacterName,Text,Weight,Condition\n");
}

#[test]
fn export_bark_lines() {
    let mut graph = DialogueGraph::new();
    let ch = Character::new("Guard");
    let char_id = ch.id;
    graph.characters.push(ch);
    graph.barks.push((char_id, vec![BarkLine::new("Halt!"), BarkLine::new("Move along.")]));
    let csv = export_bark_csv(&graph);
    assert!(csv.contains("Guard,Halt!,1.00,"));
    assert!(csv.contains("Guard,Move along.,1.00,"));
}

#[test]
fn export_bark_with_condition() {
    let mut graph = DialogueGraph::new();
    let ch = Character::new("NPC");
    let char_id = ch.id;
    graph.characters.push(ch);
    let mut bark = BarkLine::new("Danger!");
    bark.condition_variable = Some("alert".to_string());
    graph.barks.push((char_id, vec![bark]));
    let csv = export_bark_csv(&graph);
    assert!(csv.contains("alert"));
}

// ------------------------------------------------------------ flatten

fn is_subgraph(n: &Node) -> bool {
    matches!(n.node_type, NodeType::SubGraph(_))
}

#[test]
fn flatten_no_subgraph_is_identity() {
    let mut graph = DialogueGraph::new();
    let start = Node::new_start([0, 0]);
    let end = Node::new_end([200, 0]);
    let s_out = start.outputs[0].id;
    let e_in = end.inputs[0].id;
    let s_id = start.id;
    let e_id = end.id;
    graph.add_node(start);
    graph.add_node(end);
    graph.add_connection(s_id, s_out, e_id, e_in);

    let flat = flatten_subgraphs(&graph);
    assert_eq!(flat.nodes.len(), 2);
    assert_eq!(flat.connections.len(), 1);
}

#[test]
fn flatten_keeps_connections_clear_of_subgraphs() {
    let mut graph = DialogueGraph::new();
    let start = Node::new_start([0, 0]);
    let end = Node::new_end([200, 0]);
    let sub = Node::new_subgraph([400, 0]);
    let (s_id, s_out, e_id, e_in) = (start.id, start.outputs[0].id, end.id, end.inputs[0].id);
    graph.add_node(start);
    graph.add_node(end);
    graph.add_node(sub);
    graph.add_connection(s_id, s_out, e_id, e_in);
    let kept = graph.connections[0];

    let flat = flatten_subgraphs(&graph);
    assert!(!flat.nodes.iter().any(is_subgraph));
    assert!(flat.connections.iter().any(|c| c.id == kept.id
        && c.from_node == kept.from_node
        && c.from_port == kept.from_port
        && c.to_node == kept.to_node
        && c.to_port == kept.to_port));

    let mut plain = DialogueGraph::new();
    let start = Node::new_start([0, 0]);
    let end = Node::new_end([200, 0]);
    let (s_id, s_out, e_id, e_in) = (start.id, start.outputs[0].id, end.id, end.inputs[0].id);
    plain.add_node(start);
    plain.add_node(end);
    plain.add_connection(s_id, s_out, e_id, e_in);
    let flat = flatten_subgraphs(&plain);
    let ids: Vec<u128> = flat.connections.iter().map(|c| c.id).collect();
    let before: Vec<u128> = plain.connections.iter().map(|c| c.id).collect();
    assert_eq!(ids, before);
    let node_ids: Vec<u128> = flat.nodes.iter().map(|n| n.id).collect();
    assert_eq!(node_ids, vec![s_id, e_id]);
}

#[test]
fn flatten_simple_subgraph() {
    let mut graph = DialogueGraph::new();
    let start = Node::new_start([0, 0]);
    let mut sub = Node::new_subgraph([200, 0]);
    let end = Node::new_end([400, 0]);

    if let NodeType::SubGraph(ref mut data) = sub.node_type {
        let child_dlg = Node::new_dialogue([100, 100]);
        let child_start_id = data
            .child_graph
            .nodes
            .iter()
            .find(|n| matches!(n.node_type, NodeType::Start))
            .unwrap()
            .id;
        let child_start_out = data
            .child_graph
            .nodes
            .iter()
            .find(|n| n.id == child_start_id)
            .unwrap()
            .outputs[0]
            .id;
        let dlg_in = child_dlg.inputs[0].id;
        let dlg_out = child_dlg.outputs[0].id;
        let dlg_id = child_dlg.id;

        let child_end = Node::new_end([200, 100]);
        let ce_in = child_end.inputs[0].id;
        let ce_id = child_end.id;

        data.child_graph.add_node(child_dlg);
        data.child_graph.add_node(child_end);
        data.child_graph.add_connection(child_start_id, child_start_out, dlg_id, dlg_in);
        data.child_graph.add_connection(dlg_id, dlg_out, ce_id, ce_in);
    }

    let s_out = start.outputs[0].id;
    let sub_in = sub.inputs[0].id;
    let sub_out = sub.outputs[0].id;
    let e_in = end.inputs[0].id;
    let s_id = start.id;
    let sub_id = sub.id;
    let e_id = end.id;

    graph.add_node(start);
    graph.add_node(sub);
    graph.add_node(end);
    graph.add_connection(s_id, s_out, sub_id, sub_in);
    graph.add_connection(sub_id, sub_out, e_id, e_in);

    let flat = flatten_subgraphs(&graph);

    assert!(!flat.nodes.iter().any(is_subgraph));
    assert_eq!(flat.nodes.len(), 3);
    assert_eq!(flat.connections.len(), 2);
}

#[test]
fn flatten_empty_subgraph() {
    let mut graph = DialogueGraph::new();
    let start = Node::new_start([0, 0]);
    let sub = Node::new_subgraph([200, 0]);
    let end = Node::new_end([400, 0]);

    let s_out = start.outputs[0].id;
    let sub_in = sub.inputs[0].id;
    let sub_out = sub.outputs[0].id;
    let e_in = end.inputs[0].id;
    let s_id = start.id;
    let sub_id = sub.id;
    let e_id = end.id;

    graph.add_node(start);
    graph.add_node(sub);
    graph.add_node(end);
    graph.add_connection(s_id, s_out, sub_id, sub_in);
    graph.add_connection(sub_id, sub_out, e_id, e_in);

    let flat = flatten_subgraphs(&graph);
    assert!(!flat.nodes.iter().any(is_subgraph));
    assert_eq!(flat.nodes.len(), 2);
}

// ------------------------------------------------------------ html

#[test]
fn html_export_has_structure() {
    let mut graph = DialogueGraph::new();
    graph.add_node(Node::new_start([0, 0]));

    let html = export_html(&graph, "Test Dialogue");
    assert!(html.contains("<!DOCTYPE html>"));
    assert!(html.contains("Test Dialogue"));
    assert!(html.contains("const GRAPH"));
    assert!(html.contains("function start()"));
}

#[test]
fn html_export_contains_nodes() {
    let mut graph = DialogueGraph::new();
    let start = Node::new_start([0, 0]);
    let s_id = start.id;
    let s_out = start.outputs[0].id;

    let mut dlg = Node::new_dialogue([0, 200]);
    if let NodeType::Dialogue(ref mut data) = dlg.node_type {
        data.speaker_name = "Guard".to_string();
        data.text = "Hello there!".to_string();
    }
    let d_id = dlg.id;
    let d_in = dlg.inputs[0].id;

    graph.add_node(start);
    graph.add_node(dlg);
    graph.add_connection(s_id, s_out, d_id, d_in);

    let html = export_html(&graph, "Test");
    assert!(html.contains("Guard"));
    assert!(html.contains("Hello there!"));
}

#[test]
fn html_export_escapes_title() {
    let graph = DialogueGraph::new();
    let html = export_html(&graph, "Test <script>alert(1)</script>");
    assert!(!html.contains("<script>alert(1)</script>"));
    assert!(html.contains("&lt;script&gt;"));
}

#[test]
fn html_export_includes_variables() {
    let mut graph = DialogueGraph::new();
    graph.add_node(Node::new_start([0, 0]));
    graph.variables.push(Variable {
        id: uuid::Uuid::new_v4().as_u128(),
        name: "gold".to_string(),
        var_type: VariableType::Int,
        default_value: VariableValue::Int(100),
    });

    let html = export_html(&graph, "Test");
    assert!(html.contains("\"gold\""));
    assert!(html.contains("100"));
}

#[test]
fn html_export_empty_graph() {
    let graph = DialogueGraph::new();
    let html = export_html(&graph, "Empty");
    assert!(html.contains("<!DOCTYPE html>"));
    assert!(html.contains("const GRAPH"));
}

// ------------------------------------------------------------ locale

fn make_test_graph() -> DialogueGraph {
    let mut graph = DialogueGraph::new();
    let mut dlg = Node::new_dialogue([0, 100]);
    if let NodeType::Dialogue(ref mut d) = dlg.node_type {
        d.text = "Hello, traveler!".to_string();
    }
    let mut choice = Node::new_choice([0, 200]);
    if let NodeType::Choice(ref mut c) = choice.node_type {
        c.prompt = "What will you do?".to_string();
    }
    graph.add_node(dlg);
    graph.add_node(choice);
    graph.locale.add_locale("fr".to_string());
    graph
}

#[test]
fn export_csv_header_and_rows() {
    let graph = make_test_graph();
    let csv = export_locale_csv(&graph);
    let lines: Vec<&str> = csv.lines().collect();
    assert!(lines[0].starts_with("key,type,en,fr"));
    assert_eq!(lines.len(), 5);
}

#[test]
fn csv_roundtrip() {
    let mut graph = make_test_graph();
    let csv = export_locale_csv(&graph);
    let count = import_locale_csv(&csv, &mut graph.locale).unwrap();
    assert_eq!(count, 4);
}

#[test]
fn csv_roundtrip_keeps_translations_and_fills_missing_ones() {
    let mut graph = make_test_graph();
    let dlg_key = talenode::locale_export::collect_translatable_strings(&graph)[0].key.clone();
    let prompt_key = talenode::locale_export::collect_translatable_strings(&graph)[1].key.clone();
    graph.locale.set_translation(dlg_key.clone(), "fr".to_string(), "Bonjour, voyageur !".to_string());
    let csv = export_locale_csv(&graph);
    let count = import_locale_csv(&csv, &mut graph.locale).unwrap();
    assert_eq!(count, 4);
    assert_eq!(graph.locale.extra_locales, vec!["fr".to_string()]);
    assert_eq!(graph.locale.get_translation(&dlg_key, "fr"), Some("Bonjour, voyageur !"));
    assert_eq!(graph.locale.get_translation(&prompt_key, "fr"), Some(""));
    assert_eq!(graph.locale.get_translation(&prompt_key, "en"), None);
}

#[test]
fn import_adds_translations() {
    let mut locale = LocaleSettings::default();
    let csv = "key,type,en,fr\ndlg_abc,dialogue,Hello,Bonjour\n";
    let count = import_locale_csv(csv, &mut locale).unwrap();
    assert_eq!(count, 1);
    assert_eq!(locale.get_translation("dlg_abc", "fr"), Some("Bonjour"));
}

#[test]
fn import_empty_csv_errors() {
    let mut locale = LocaleSettings::default();
    assert!(import_locale_csv("", &mut locale).is_err());
}

#[test]
fn csv_field_quoting() {
    assert_eq!(csv_field("hello"), "hello");
    assert_eq!(csv_field("hello, world"), "\"hello, world\"");
    assert_eq!(csv_field("say \"hi\""), "\"say \"\"hi\"\"\"");
    assert_eq!(csv_field("line1\nline2"), "\"line1\nline2\"");
}

#[test]
fn parse_csv_with_quotes() {
    let input = "a,\"b,c\",d\n\"e\"\"f\",g,h\n";
    let rows = parse_csv_rows(input);
    assert_eq!(rows.len(), 2);
    assert_eq!(rows[0], vec!["a", "b,c", "d"]);
    assert_eq!(rows[1], vec!["e\"f", "g", "h"]);
}

#[test]
fn import_adds_new_locale() {
    let mut locale = LocaleSettings::default();
    let csv = "key,type,en,ja\ndlg_abc,dialogue,Hello,こんにちは\n";
    import_locale_csv(csv, &mut locale).unwrap();
    assert!(locale.extra_locales.contains(&"ja".to_string()));
}

// ------------------------------------------------------------ voice

#[test]
fn export_empty_graph_header_only() {
    let graph = DialogueGraph::new();
    let csv = export_voice_csv(&graph, "test");
    assert_eq!(csv, "LineID,Speaker,Text,Emotion,AudioFile,Duration,Notes\n");
}

#[test]
fn export_dialogue_nodes_correct_rows() {
    let mut graph = DialogueGraph::new();

    let ch = Character::new("Elder");
    let ch_id = ch.id;
    graph.characters.push(ch);

    let mut dlg1 = Node::new_dialogue([0, 0]);
    if let NodeType::Dialogue(ref mut d) = dlg1.node_type {
        d.speaker_id = Some(ch_id);
        d.speaker_name = "Elder".to_string();
        d.text = "Hello, traveler!".to_string();
        d.emotion = "happy".to_string();
        d.audio_clip = Some("dlg_1.wav".to_string());
    }
    graph.add_node(dlg1);

    let mut dlg2 = Node::new_dialogue([0, 100]);
    if let NodeType::Dialogue(ref mut d) = dlg2.node_type {
        d.speaker_name = "Guard".to_string();
        d.text = "Halt!".to_string();
        d.emotion = "angry".to_string();
        d.metadata.push(("notes".to_string(), "needs alt take".to_string()));
    }
    graph.add_node(dlg2);

    let csv = export_voice_csv(&graph, "test");
    let lines: Vec<&str> = csv.lines().collect();
    assert_eq!(lines.len(), 3);
    assert!(lines[1].starts_with("dlg_1,Elder,"));
    assert!(lines[1].contains("happy"));
    assert!(lines[1].contains("dlg_1.wav"));
    assert!(lines[2].starts_with("dlg_2,Guard,Halt!,angry"));
    assert!(lines[2].contains("needs alt take"));
}

#[test]
fn csv_escaping_commas_quotes_newlines() {
    let mut graph = DialogueGraph::new();
    let mut dlg = Node::new_dialogue([0, 0]);
    if let NodeType::Dialogue(ref mut d) = dlg.node_type {
        d.speaker_name = "NPC".to_string();
        d.text = "He said, \"hello\"".to_string();
        d.emotion = "neutral".to_string();
    }
    graph.add_node(dlg);

    let csv = export_voice_csv(&graph, "test");
    let lines: Vec<&str> = csv.lines().collect();
    assert_eq!(lines.len(), 2);
    assert!(lines[1].contains("\"He said, \"\"hello\"\"\""));
}

// ------------------------------------------------------------ xml

#[test]
fn xml_export_export_simple_graph() {
    let mut graph = DialogueGraph::new();
    let start = Node::new_start([0, 0]);
    let end = Node::new_end([200, 0]);
    let (s_out, e_in) = (start.outputs[0].id, end.inputs[0].id);
    let (s_id, e_id) = (start.id, end.id);
    graph.add_node(start);
    graph.add_node(end);
    graph.add_connection(s_id, s_out, e_id, e_in);
    let xml = export_xml(&graph, "test").unwrap();
    assert!(xml.contains("<?xml version=") && xml.contains("type=\"start\""));
    assert!(xml.contains("type=\"end\"") && xml.contains("</dialogue>"));
}

#[test]
fn export_escaping() {
    let mut graph = DialogueGraph::new();
    let mut dlg = Node::new_dialogue([0, 0]);
    if let NodeType::Dialogue(ref mut d) = dlg.node_type {
        d.text = "Hello <world> & \"friends\"".to_string();
        d.speaker_name = "O'Brien".to_string();
    }
    graph.add_node(dlg);
    let xml = export_xml(&graph, "esc&test").unwrap();
    assert!(xml.contains("esc&amp;test") && xml.contains("&lt;world&gt;"));
    assert!(xml.contains("&quot;friends&quot;") && xml.contains("O&apos;Brien"));
}

#[test]
fn xml_export_export_empty_graph() {
    let graph = DialogueGraph::new();
    let xml = export_xml(&graph, "empty").unwrap();
    assert!(xml.contains("<variables/>") && xml.contains("<nodes/>"));
}

#[test]
fn export_no_positions() {
    let mut graph = DialogueGraph::new();
    graph.add_node(Node::new_start([123, 456]));
    let xml = export_xml(&graph, "test").unwrap();
    assert!(!xml.contains("position") && !xml.contains("123"));
}

// ------------------------------------------------------------ yarn

#[test]
fn empty_graph_produces_header_only() {
    let graph = DialogueGraph::new();
    let text = export_yarn(&graph);
    assert!(text.contains("title: root"));
    assert!(text.contains("==="));
}

#[test]
fn simple_dialogue_chain() {
    let mut graph = DialogueGraph::new();
    let start = Node::new_start([0, 0]);
    let mut dlg = Node::new_dialogue([0, 100]);
    if let NodeType::Dialogue(ref mut d) = dlg.node_type {
        d.speaker_name = "Guard".to_string();
        d.text = "Halt!".to_string();
    }
    let end = Node::new_end([0, 200]);

    let s_out = start.outputs[0].id;
    let d_in = dlg.inputs[0].id;
    let d_out = dlg.outputs[0].id;
    let e_in = end.inputs[0].id;
    let (sid, did, eid) = (start.id, dlg.id, end.id);

    graph.add_node(start);
    graph.add_node(dlg);
    graph.add_node(end);
    graph.add_connection(sid, s_out, did, d_in);
    graph.add_connection(did, d_out, eid, e_in);

    let text = export_yarn(&graph);
    assert!(text.contains("Guard: Halt!"));
}

#[test]
fn choice_node_emits_options() {
    let mut graph = DialogueGraph::new();
    let start = Node::new_start([0, 0]);
    let choice = Node::new_choice([0, 100]);
    let end = Node::new_end([0, 200]);

    let s_out = start.outputs[0].id;
    let ch_in = choice.inputs[0].id;
    let ch_out0 = choice.outputs[0].id;
    let e_in = end.inputs[0].id;
    let (sid, chid, eid) = (start.id, choice.id, end.id);

    graph.add_node(start);
    graph.add_node(choice);
    graph.add_node(end);
    graph.add_connection(sid, s_out, chid, ch_in);
    graph.add_connection(chid, ch_out0, eid, e_in);

    let text = export_yarn(&graph);
    assert!(text.contains("-> Option 1"));
}

#[test]
fn long_chain_is_written_to_the_end() {
    let mut graph = DialogueGraph::new();
    let start = Node::new_start([0, 0]);
    let mut prev = (start.id, start.outputs[0].id);
    graph.add_node(start);
    for i in 0..6 {
        let mut dlg = Node::new_dialogue([0, 100 * (i + 1)]);
        if let NodeType::Dialogue(ref mut d) = dlg.node_type {
            d.text = format!("Line {i}");
        }
        let (id, input, output) = (dlg.id, dlg.inputs[0].id, dlg.outputs[0].id);
        graph.add_node(dlg);
        graph.add_connection(prev.0, prev.1, id, input);
        prev = (id, output);
    }
    let text = export_yarn(&graph);
    let expected: String = (0..6).map(|i| format!("Line {i}\n")).collect();
    assert_eq!(text, format!("title: root\n---\n{expected}===\n"));
}
