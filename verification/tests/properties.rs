use talenode::bark_export::export_bark_csv;
use talenode::csv::{csv_escape, csv_field, parse_csv_rows, write_table};
use talenode::flatten::flatten_subgraphs;
use talenode::history::UndoHistory;
use talenode::html_export::{export_html, html_escape};
use talenode::json::JsonObject;
use talenode::locale::LocaleSettings;
use talenode::locale_export::{collect_translatable_strings, export_locale_csv, import_locale_csv, StringType};
use talenode::model::{
    BarkLine, Character, CompareOp, ConditionData, DialogueGraph, Node, NodeType, Variable, VariableType,
    VariableValue,
};
use talenode::readable::{build_id_map, compare_op_str};
use talenode::settings::{AIProvider, AppSettings, ThemePreset};
use talenode::xml_export::{export_xml, variable_type_str, variable_value_str, xml_escape};
use talenode::yarn_export::export_yarn;

fn strings(v: &[&str]) -> Vec<String> {
    v.iter().map(|s| s.to_string()).collect()
}

#[test]
fn written_table_reads_back() {
    let table = vec![
        strings(&["key", "type", "en"]),
        strings(&["a,b", "say \"hi\"", "line1\nline2"]),
        strings(&["", "cr\rhere", "plain"]),
        strings(&["only"]),
    ];
    let text = write_table(&table);
    assert_eq!(parse_csv_rows(&text), table);
}

#[test]
fn locale_table_reads_back() {
    let mut graph = DialogueGraph::new();
    let mut dlg = Node::new_dialogue([0, 0]);
    if let NodeType::Dialogue(ref mut d) = dlg.node_type {
        d.text = "Hi, \"you\"".to_string();
    }
    graph.add_node(dlg);
    graph.locale.add_locale("de".to_string());
    let csv = export_locale_csv(&graph);
    let rows = parse_csv_rows(&csv);
    assert_eq!(rows.len(), 2);
    assert_eq!(rows[0], strings(&["key", "type", "en", "de"]));
    assert_eq!(rows[1][1], "dialogue");
    assert_eq!(rows[1][2], "Hi, \"you\"");
    assert_eq!(rows[1][3], "");
}

#[test]
fn import_rejects_short_header() {
    let mut locale = LocaleSettings::default();
    let r = import_locale_csv("key,type\nx,y\n", &mut locale);
    assert_eq!(r, Err("CSV must have at least key, type, and default locale columns".to_string()));
    assert_eq!(import_locale_csv("", &mut locale), Err("CSV is empty".to_string()));
    assert!(locale.extra_locales.is_empty());
}

#[test]
fn import_skips_rows_without_key_and_pads_missing_fields() {
    let mut locale = LocaleSettings::default();
    let csv = "key,type,en,fr,de\n,dialogue,x,y,z\nk1,dialogue,Hello,Salut\n";
    let count = import_locale_csv(csv, &mut locale).unwrap();
    assert_eq!(count, 2);
    assert_eq!(locale.get_translation("k1", "fr"), Some("Salut"));
    assert_eq!(locale.get_translation("k1", "de"), Some(""));
    assert_eq!(locale.extra_locales, strings(&["fr", "de"]));
}

#[test]
fn import_does_not_add_default_locale() {
    let mut locale = LocaleSettings::default();
    let csv = "key,type,en,en\nk,dialogue,a,b\n";
    assert_eq!(import_locale_csv(csv, &mut locale).unwrap(), 1);
    assert!(locale.extra_locales.is_empty());
    assert_eq!(locale.get_translation("k", "en"), Some("b"));
}

#[test]
fn carriage_return_is_quoted_only_in_translation_tables() {
    assert_eq!(csv_field("a\rb"), "\"a\rb\"");
    assert_eq!(csv_escape("a\rb"), "a\rb");
    assert_eq!(csv_escape("a,b"), "\"a,b\"");
}

#[test]
fn parse_handles_crlf_and_missing_final_newline() {
    let rows = parse_csv_rows("a,b\r\nc,\"d\"\"e\"");
    assert_eq!(rows, vec![strings(&["a", "b"]), strings(&["c", "d\"e"])]);
}

#[test]
fn translation_keys_use_identifier_prefix() {
    let mut graph = DialogueGraph::new();
    let mut dlg = Node::new_dialogue([0, 0]);
    dlg.id = 0x0123_4567_89ab_cdef_0123_4567_89ab_cdef;
    graph.add_node(dlg);
    let mut choice = Node::new_choice([0, 10]);
    choice.id = 0xfedc_ba98_0000_0000_0000_0000_0000_0001;
    graph.add_node(choice);
    let ts = collect_translatable_strings(&graph);
    assert_eq!(ts.len(), 4);
    assert_eq!(ts[0].key, "dlg_01234567");
    assert_eq!(ts[0].string_type, StringType::Dialogue);
    assert_eq!(ts[1].key, "prompt_fedcba98");
    assert_eq!(ts[2].key, "opt_fedcba98_0");
    assert_eq!(ts[3].key, "opt_fedcba98_1");
    assert_eq!(ts[3].default_text, "Option 2");
}

#[test]
fn bark_weight_has_two_decimals() {
    let mut graph = DialogueGraph::new();
    let ch = Character::new("A");
    let id = ch.id;
    graph.characters.push(ch);
    let mut b = BarkLine::new("x");
    b.weight = 1205;
    graph.barks.push((id, vec![b]));
    assert_eq!(export_bark_csv(&graph), "CharacterName,Text,Weight,Condition\nA,x,12.05,\n");
}

#[test]
fn readable_ids_are_deterministic() {
    let mut graph = DialogueGraph::new();
    graph.add_node(Node::new_start([0, 0]));
    graph.add_node(Node::new_dialogue([0, 100]));
    graph.add_node(Node::new_dialogue([0, 200]));

    let id_map = build_id_map(&graph);
    let values: Vec<&String> = id_map.iter().map(|e| &e.1).collect();
    assert!(values.contains(&&"start_1".to_string()));
    assert!(values.contains(&&"dlg_1".to_string()));
    assert!(values.contains(&&"dlg_2".to_string()));
}

#[test]
fn readable_id_prefixes_all_types() {
    let mut graph = DialogueGraph::new();
    graph.add_node(Node::new_start([0, 0]));
    graph.add_node(Node::new_dialogue([0, 100]));
    graph.add_node(Node::new_choice([0, 200]));
    graph.add_node(Node::new_condition([0, 300]));
    graph.add_node(Node::new_event([0, 400]));
    graph.add_node(Node::new_random([0, 500]));
    graph.add_node(Node::new_end([0, 600]));

    let id_map = build_id_map(&graph);
    let values: Vec<String> = id_map.iter().map(|e| e.1.clone()).collect();
    for v in ["start_1", "dlg_1", "choice_1", "cond_1", "evt_1", "rand_1", "end_1"] {
        assert!(values.contains(&v.to_string()));
    }
}

#[test]
fn readable_ids_follow_canvas_order() {
    let mut graph = DialogueGraph::new();
    let low = Node::new_dialogue([0, 300]);
    let high = Node::new_dialogue([50, 10]);
    let left = Node::new_dialogue([-5, 10]);
    let (low_id, high_id, left_id) = (low.id, high.id, left.id);
    graph.add_node(low);
    graph.add_node(high);
    graph.add_node(left);
    let ch = Character::new("C");
    let ch_id = ch.id;
    graph.characters.push(ch);
    let m = build_id_map(&graph);
    let get = |id: u128| m.iter().rev().find(|e| e.0 == id).unwrap().1.clone();
    assert_eq!(get(left_id), "dlg_1");
    assert_eq!(get(high_id), "dlg_2");
    assert_eq!(get(low_id), "dlg_3");
    assert_eq!(get(ch_id), "char_1");
}

#[test]
fn comparison_symbols() {
    assert_eq!(compare_op_str(CompareOp::Gte), ">=");
    assert_eq!(compare_op_str(CompareOp::Contains), "contains");
}

fn nested_subgraph_graph() -> DialogueGraph {
    let mut inner = Node::new_subgraph([0, 0]);
    if let NodeType::SubGraph(ref mut data) = inner.node_type {
        let sid = data.child_graph.nodes[0].id;
        let sout = data.child_graph.nodes[0].outputs[0].id;
        let dlg = Node::new_dialogue([0, 10]);
        let (did, din) = (dlg.id, dlg.inputs[0].id);
        data.child_graph.add_node(dlg);
        data.child_graph.add_connection(sid, sout, did, din);
    }
    let mut outer = Node::new_subgraph([0, 50]);
    if let NodeType::SubGraph(ref mut data) = outer.node_type {
        let sid = data.child_graph.nodes[0].id;
        let sout = data.child_graph.nodes[0].outputs[0].id;
        let (iid, iin) = (inner.id, inner.inputs[0].id);
        data.child_graph.add_node(inner);
        data.child_graph.add_connection(sid, sout, iid, iin);
    }
    let mut graph = DialogueGraph::new();
    let start = Node::new_start([0, 0]);
    let (s_id, s_out) = (start.id, start.outputs[0].id);
    let (o_id, o_in) = (outer.id, outer.inputs[0].id);
    graph.add_node(start);
    graph.add_node(outer);
    graph.add_connection(s_id, s_out, o_id, o_in);
    graph
}

#[test]
fn flatten_expands_nested_subgraphs() {
    let graph = nested_subgraph_graph();
    let flat = flatten_subgraphs(&graph);
    assert!(!flat.nodes.iter().any(|n| matches!(n.node_type, NodeType::SubGraph(_))));
    assert_eq!(flat.nodes.len(), 2);
    let dlg = flat.nodes.iter().find(|n| matches!(n.node_type, NodeType::Dialogue(_))).unwrap();
    assert_eq!(flat.connections.len(), 1);
    assert_eq!(flat.connections[0].to_node, dlg.id);
    assert_eq!(flat.connections[0].to_port, dlg.inputs[0].id);
}

#[test]
fn undo_gives_back_the_snapshot_and_redo_the_edit() {
    let mut history = UndoHistory::new();
    let mut graph = DialogueGraph::new();
    graph.add_node(Node::new_start([0, 0]));
    history.save_snapshot(&graph);
    graph.add_node(Node::new_end([0, 10]));
    let back = history.undo(&graph).unwrap();
    assert_eq!(back.nodes.len(), 1);
    let again = history.redo(&back).unwrap();
    assert_eq!(again.nodes.len(), 2);
    assert!(!history.can_redo());
    assert!(history.can_undo());
}

#[test]
fn preset_cycle_returns_after_three_steps() {
    for p in [ThemePreset::Dark, ThemePreset::Light, ThemePreset::Custom] {
        assert_eq!(p.next().next().next(), p);
        assert_ne!(p.next(), p);
    }
    assert_eq!(ThemePreset::Light.label(), "Light");
}

#[test]
fn provider_switch_sets_endpoint_and_model() {
    let mut s = AppSettings::for_user("Ann".to_string());
    assert_eq!(s.collab_username, "Ann");
    s.ai_provider = AIProvider::Gemini;
    assert!(s.provider_selected(AIProvider::OpenAI));
    assert_eq!(s.ai_model, "gemini-2.0-flash");
    assert!(!s.provider_selected(AIProvider::Gemini));
    s.ai_provider = AIProvider::OpenAI;
    assert!(s.provider_selected(AIProvider::Gemini));
    assert_eq!(s.ai_base_url, "https://api.openai.com/v1");
    s.ai_provider = AIProvider::Anthropic;
    assert!(s.provider_selected(AIProvider::OpenAI));
    assert_eq!(s.ai_base_url, "");
}

#[test]
fn xml_helpers() {
    assert_eq!(xml_escape("a<b>&\"c'"), "a&lt;b&gt;&amp;&quot;c&apos;");
    assert_eq!(variable_value_str(&VariableValue::Int(-42)), "-42");
    assert_eq!(variable_value_str(&VariableValue::Text("<x>".to_string())), "&lt;x&gt;");
    assert_eq!(variable_type_str(&VariableValue::Bool(true)), "bool");
}

#[test]
fn xml_characters_variables_and_condition() {
    let mut graph = DialogueGraph::new();
    let mut ch = Character::new("Ann");
    ch.color = [255, 16, 1];
    graph.characters.push(ch);
    graph.variables.push(Variable {
        id: 7,
        name: "gold".to_string(),
        var_type: VariableType::Int,
        default_value: VariableValue::Int(5),
    });
    let mut cond = Node::new_condition([0, 0]);
    cond.node_type = NodeType::Condition(ConditionData {
        variable_name: "gold".to_string(),
        operator: CompareOp::Gt,
        value: VariableValue::Int(3),
    });
    graph.add_node(cond);
    let xml = export_xml(&graph, "t").unwrap();
    assert!(xml.contains("<character id=\"char_1\" name=\"Ann\" color=\"#FF1001\"/>"));
    assert!(xml.contains("<variable name=\"gold\" type=\"int\" default=\"5\"/>"));
    assert!(xml.contains(
        "<node id=\"cond_1\" type=\"condition\" variable=\"gold\" operator=\"&gt;\" value=\"3\" value-type=\"int\" true-next=\"\" false-next=\"\"/>"
    ) || xml.contains(
        "<node id=\"cond_1\" type=\"condition\" variable=\"gold\" operator=\">\" value=\"3\" value-type=\"int\" true-next=\"\" false-next=\"\"/>"
    ));
}

#[test]
fn xml_localization_block() {
    let mut graph = DialogueGraph::new();
    let mut dlg = Node::new_dialogue([0, 0]);
    if let NodeType::Dialogue(ref mut d) = dlg.node_type {
        d.text = "Hi".to_string();
    }
    graph.add_node(dlg);
    graph.locale.add_locale("fr".to_string());
    let key = collect_translatable_strings(&graph)[0].key.clone();
    graph.locale.set_translation(key, "fr".to_string(), "Salut".to_string());
    let xml = export_xml(&graph, "t").unwrap();
    assert!(xml.contains("<localization default=\"en\">"));
    assert!(xml.contains("<string key=\"dlg_1\">"));
    assert!(xml.contains("<text locale=\"fr\">Salut</text>"));
}

#[test]
fn yarn_condition_and_cycle() {
    let mut graph = DialogueGraph::new();
    let start = Node::new_start([0, 0]);
    let mut cond = Node::new_condition([0, 10]);
    cond.node_type = NodeType::Condition(ConditionData {
        variable_name: "hp".to_string(),
        operator: CompareOp::Lt,
        value: VariableValue::Text("low".to_string()),
    });
    let mut dlg = Node::new_dialogue([0, 20]);
    if let NodeType::Dialogue(ref mut d) = dlg.node_type {
        d.text = "Ouch".to_string();
    }
    let (s_id, s_out) = (start.id, start.outputs[0].id);
    let (c_id, c_in, c_true) = (cond.id, cond.inputs[0].id, cond.outputs[0].id);
    let (d_id, d_in, d_out) = (dlg.id, dlg.inputs[0].id, dlg.outputs[0].id);
    graph.add_node(start);
    graph.add_node(cond);
    graph.add_node(dlg);
    graph.add_connection(s_id, s_out, c_id, c_in);
    graph.add_connection(c_id, c_true, d_id, d_in);
    graph.add_connection(d_id, d_out, c_id, c_in);
    let text = export_yarn(&graph);
    assert_eq!(
        text,
        "title: root\n---\n<<if $hp < \"low\">>\n    Ouch\n<<endif>>\n===\n"
    );
}

#[test]
fn html_escape_and_json_strings() {
    assert_eq!(html_escape("<a href=\"x\">&'"), "&lt;a href=&quot;x&quot;&gt;&amp;'");
    let mut graph = DialogueGraph::new();
    let mut dlg = Node::new_dialogue([0, 0]);
    if let NodeType::Dialogue(ref mut d) = dlg.node_type {
        d.text = "say \"hi\"\n".to_string();
    }
    graph.add_node(dlg);
    let html = export_html(&graph, "T");
    assert!(html.contains("\"text\":\"say \\\"hi\\\"\\n\""));
    assert!(html.contains("const GRAPH = {\"dlg_1\":{\"audio\":null,\"emotion\":\"neutral\",\"next\":null"));
}

#[test]
fn json_object_keeps_keys_sorted_and_replaces() {
    let mut o = JsonObject::new();
    o.insert("b".to_string(), "1".to_string());
    o.insert("a".to_string(), "2".to_string());
    o.insert("ab".to_string(), "3".to_string());
    o.insert("b".to_string(), "4".to_string());
    assert_eq!(o.to_text(), "{\"a\":2,\"ab\":3,\"b\":4}");
}

#[test]
fn fresh_identifiers_differ() {
    let a = Node::new_start([0, 0]);
    let b = Node::new_start([0, 0]);
    assert_ne!(a.id, b.id);
    assert_eq!((a.id >> 76) & 0xf, 4);
}
