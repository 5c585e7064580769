use talenode::json_export::{build_export, ExportedDialogue, ExportedNode, JsonValue};
use talenode::model::{
    CompareOp, DialogueGraph, EventAction, EventActionType, Node, NodeType, Variable, VariableType, VariableValue,
};
use talenode::model::Character;

fn member<'a>(v: &'a JsonValue, key: &str) -> &'a JsonValue {
    match v {
        JsonValue::Object(m) => &m.iter().rev().find(|(k, _)| k == key).expect("member present").1,
        _ => panic!("not an object"),
    }
}

fn is_str(v: &JsonValue) -> bool {
    matches!(v, JsonValue::Str(_))
}

fn str_of(v: &JsonValue) -> &str {
    match v {
        JsonValue::Str(s) => s.as_str(),
        _ => panic!("not a string"),
    }
}

fn items(v: &JsonValue) -> &Vec<JsonValue> {
    match v {
        JsonValue::Array(a) => a,
        _ => panic!("not an array"),
    }
}

fn node_of_type<'a>(e: &'a ExportedDialogue, t: &str) -> &'a ExportedNode {
    e.nodes.iter().find(|n| n.node_type == t).expect("node of that type")
}

fn port(n: &Node, output: bool, i: usize) -> u128 {
    if output { n.outputs[i].id } else { n.inputs[i].id }
}

#[test]
fn json_export_export_simple_graph() {
    let mut graph = DialogueGraph::new();
    let start = Node::new_start([0, 0]);
    let dlg = Node::new_dialogue([200, 0]);
    let end = Node::new_end([400, 0]);
    let (start_out, dlg_in, dlg_out, end_in) = (port(&start, true, 0), port(&dlg, false, 0), port(&dlg, true, 0), port(&end, false, 0));
    let (start_id, dlg_id, end_id) = (start.id, dlg.id, end.id);
    graph.add_node(start);
    graph.add_node(dlg);
    graph.add_node(end);
    graph.add_connection(start_id, start_out, dlg_id, dlg_in);
    graph.add_connection(dlg_id, dlg_out, end_id, end_in);

    let e = build_export(&graph, "test");
    assert_eq!(e.version, "1.0");
    assert_eq!(e.name, "test");
    assert_eq!(e.nodes.len(), 3);
    let start_node = node_of_type(&e, "start");
    assert!(is_str(member(&start_node.data, "next")));
}

#[test]
fn export_choice_node() {
    let mut graph = DialogueGraph::new();
    let start = Node::new_start([0, 0]);
    let choice = Node::new_choice([200, 0]);
    let end1 = Node::new_end([400, 0]);
    let end2 = Node::new_end([400, 100]);
    let (s_out, c_in, c_out0, c_out1) = (port(&start, true, 0), port(&choice, false, 0), port(&choice, true, 0), port(&choice, true, 1));
    let (e1_in, e2_in) = (port(&end1, false, 0), port(&end2, false, 0));
    let (s_id, c_id, e1_id, e2_id) = (start.id, choice.id, end1.id, end2.id);
    graph.add_node(start);
    graph.add_node(choice);
    graph.add_node(end1);
    graph.add_node(end2);
    graph.add_connection(s_id, s_out, c_id, c_in);
    graph.add_connection(c_id, c_out0, e1_id, e1_in);
    graph.add_connection(c_id, c_out1, e2_id, e2_in);

    let e = build_export(&graph, "test");
    let choice_node = node_of_type(&e, "choice");
    let options = items(member(&choice_node.data, "options"));
    assert_eq!(options.len(), 2);
    assert!(is_str(member(&options[0], "next")));
    assert!(is_str(member(&options[1], "next")));
}

#[test]
fn export_condition_node() {
    let mut graph = DialogueGraph::new();
    let start = Node::new_start([0, 0]);
    let mut cond = Node::new_condition([200, 0]);
    if let NodeType::Condition(ref mut d) = cond.node_type {
        d.variable_name = "gold".to_string();
        d.operator = CompareOp::Gte;
        d.value = VariableValue::Int(100);
    }
    let end_t = Node::new_end([400, 0]);
    let end_f = Node::new_end([400, 100]);
    let (s_out, c_in, c_true, c_false) = (port(&start, true, 0), port(&cond, false, 0), port(&cond, true, 0), port(&cond, true, 1));
    let (et_in, ef_in) = (port(&end_t, false, 0), port(&end_f, false, 0));
    let (s_id, c_id, et_id, ef_id) = (start.id, cond.id, end_t.id, end_f.id);
    graph.add_node(start);
    graph.add_node(cond);
    graph.add_node(end_t);
    graph.add_node(end_f);
    graph.add_connection(s_id, s_out, c_id, c_in);
    graph.add_connection(c_id, c_true, et_id, et_in);
    graph.add_connection(c_id, c_false, ef_id, ef_in);

    let e = build_export(&graph, "test");
    let cond_node = node_of_type(&e, "condition");
    assert_eq!(str_of(member(&cond_node.data, "variable")), "gold");
    assert_eq!(str_of(member(&cond_node.data, "operator")), ">=");
    assert!(matches!(member(&cond_node.data, "value"), JsonValue::Int(100)));
    assert!(is_str(member(&cond_node.data, "true_next")));
    assert!(is_str(member(&cond_node.data, "false_next")));
}

#[test]
fn export_event_node() {
    let mut graph = DialogueGraph::new();
    let start = Node::new_start([0, 0]);
    let mut evt = Node::new_event([200, 0]);
    if let NodeType::Event(ref mut e) = evt.node_type {
        e.actions.push(EventAction {
            action_type: EventActionType::SetVariable,
            key: "has_key".to_string(),
            value: VariableValue::Bool(true),
        });
    }
    let end = Node::new_end([400, 0]);
    let (s_out, e_in, e_out, end_in) = (port(&start, true, 0), port(&evt, false, 0), port(&evt, true, 0), port(&end, false, 0));
    let (s_id, e_id, end_id) = (start.id, evt.id, end.id);
    graph.add_node(start);
    graph.add_node(evt);
    graph.add_node(end);
    graph.add_connection(s_id, s_out, e_id, e_in);
    graph.add_connection(e_id, e_out, end_id, end_in);

    let e = build_export(&graph, "test");
    let evt_node = node_of_type(&e, "event");
    let actions = items(member(&evt_node.data, "actions"));
    assert_eq!(actions.len(), 1);
    assert_eq!(str_of(member(&actions[0], "key")), "has_key");
    assert!(matches!(member(&actions[0], "value"), JsonValue::Bool(true)));
    assert_eq!(str_of(member(&actions[0], "action")), "setvariable");
}

#[test]
fn export_random_node() {
    let mut graph = DialogueGraph::new();
    let start = Node::new_start([0, 0]);
    let rand = Node::new_random([200, 0]);
    let end1 = Node::new_end([400, 0]);
    let end2 = Node::new_end([400, 100]);
    let (s_out, r_in, r_out0, r_out1) = (port(&start, true, 0), port(&rand, false, 0), port(&rand, true, 0), port(&rand, true, 1));
    let (e1_in, e2_in) = (port(&end1, false, 0), port(&end2, false, 0));
    let (s_id, r_id, e1_id, e2_id) = (start.id, rand.id, end1.id, end2.id);
    graph.add_node(start);
    graph.add_node(rand);
    graph.add_node(end1);
    graph.add_node(end2);
    graph.add_connection(s_id, s_out, r_id, r_in);
    graph.add_connection(r_id, r_out0, e1_id, e1_in);
    graph.add_connection(r_id, r_out1, e2_id, e2_in);

    let e = build_export(&graph, "test");
    let rand_node = node_of_type(&e, "random");
    let branches = items(member(&rand_node.data, "branches"));
    assert_eq!(branches.len(), 2);
    match member(&branches[0], "weight") {
        JsonValue::Float(t) => assert_eq!(t.parse::<f64>().unwrap(), 0.5),
        _ => panic!("weight is a number"),
    }
    assert!(is_str(member(&branches[0], "next")));
}

#[test]
fn export_unconnected_output_is_null() {
    let mut graph = DialogueGraph::new();
    graph.add_node(Node::new_start([0, 0]));
    let e = build_export(&graph, "test");
    let start_node = node_of_type(&e, "start");
    assert!(matches!(member(&start_node.data, "next"), JsonValue::Null));
}

#[test]
fn json_export_export_empty_graph() {
    let graph = DialogueGraph::new();
    let e = build_export(&graph, "empty");
    assert_eq!(e.version, "1.0");
    assert_eq!(e.name, "empty");
    assert_eq!(e.nodes.len(), 0);
}

#[test]
fn export_with_variables() {
    let mut graph = DialogueGraph::new();
    graph.variables.push(Variable { id: 1, name: "flag".to_string(), var_type: VariableType::Bool, default_value: VariableValue::Bool(true) });
    graph.variables.push(Variable { id: 2, name: "score".to_string(), var_type: VariableType::Int, default_value: VariableValue::Int(99) });

    let e = build_export(&graph, "test");
    assert_eq!(e.variables.len(), 2);
    assert_eq!(e.variables[0].name, "flag");
    assert!(matches!(e.variables[0].default, JsonValue::Bool(true)));
    assert_eq!(e.variables[1].name, "score");
    assert!(matches!(e.variables[1].default, JsonValue::Int(99)));
    assert_eq!(e.variables[0].var_type, "bool");
    assert_eq!(e.variables[1].var_type, "int");
}

#[test]
fn export_with_characters() {
    let mut graph = DialogueGraph::new();
    graph.characters.push(Character::new("Hero"));

    let e = build_export(&graph, "test");
    assert_eq!(e.characters.len(), 1);
    assert_eq!(e.characters[0].name, "Hero");
    assert_eq!(e.characters[0].id, "char_1");
    let color = &e.characters[0].color;
    assert!(color.starts_with('#'));
    assert_eq!(color.len(), 7);
    assert_eq!(color, "#C8C8C8");
    assert!(e.characters[0].portrait.is_none());
}

#[test]
fn export_with_locales_has_string_table() {
    let mut graph = DialogueGraph::new();
    let mut dlg = Node::new_dialogue([0, 100]);
    let dlg_uuid8 = format!("{:032x}", dlg.id)[..8].to_string();
    if let NodeType::Dialogue(ref mut d) = dlg.node_type {
        d.text = "Hello!".to_string();
    }
    graph.add_node(dlg);
    graph.locale.add_locale("fr".to_string());
    graph.locale.set_translation(format!("dlg_{dlg_uuid8}"), "fr".to_string(), "Bonjour!".to_string());

    let e = build_export(&graph, "test");
    assert_eq!(e.default_locale.as_deref(), Some("en"));
    assert!(e.locales.as_ref().unwrap().contains(&"fr".to_string()));
    let strings = e.strings.as_ref().expect("string table");
    assert!(matches!(strings, JsonValue::Object(_)));
    let dlg_entry = member(strings, "dlg_1");
    assert_eq!(str_of(member(dlg_entry, "en")), "Hello!");
    assert_eq!(str_of(member(dlg_entry, "fr")), "Bonjour!");
}

#[test]
fn export_without_locales_omits_string_table() {
    let e = build_export(&DialogueGraph::new(), "test");
    assert!(e.default_locale.is_none());
    assert!(e.strings.is_none());
    assert!(e.locales.is_none());
}

#[test]
fn export_dialogue_speaker_is_readable_character_id() {
    let mut graph = DialogueGraph::new();
    let hero = Character::new("Hero");
    let hero_id = hero.id;
    graph.characters.push(hero);
    let mut dlg = Node::new_dialogue([0, 0]);
    if let NodeType::Dialogue(ref mut d) = dlg.node_type {
        d.speaker_id = Some(hero_id);
        d.text = "Hi".to_string();
    }
    graph.add_node(dlg);
    let e = build_export(&graph, "p");
    let n = node_of_type(&e, "dialogue");
    assert_eq!(n.id, "dlg_1");
    assert_eq!(str_of(member(&n.data, "speaker")), "char_1");
    assert!(matches!(member(&n.data, "portrait"), JsonValue::Null));
    assert!(matches!(member(&n.data, "next"), JsonValue::Null));
}

#[test]
fn export_bark_groups_by_character_name() {
    let mut graph = DialogueGraph::new();
    let guard = Character::new("Guard");
    let guard_id = guard.id;
    graph.characters.push(guard);
    graph.barks.push((guard_id, vec![talenode::model::BarkLine::new("Halt!")]));
    graph.barks.push((7, vec![]));
    let e = build_export(&graph, "p");
    assert_eq!(e.barks.len(), 1);
    assert_eq!(e.barks[0].character, "Guard");
    assert_eq!(e.barks[0].lines[0].text, "Halt!");
    assert_eq!(e.barks[0].lines[0].weight, 100);
}

fn has_key_or_int(v: &JsonValue, key: &str, n: i64) -> bool {
    match v {
        JsonValue::Int(i) => *i == n,
        JsonValue::Array(a) => a.iter().any(|x| has_key_or_int(x, key, n)),
        JsonValue::Object(m) => m.iter().any(|(k, x)| k == key || has_key_or_int(x, key, n)),
        _ => false,
    }
}

#[test]
fn export_leaves_out_node_positions() {
    let mut graph = DialogueGraph::new();
    let start = Node::new_start([4321, 8765]);
    let dlg = Node::new_dialogue([1234, 5678]);
    let (start_out, dlg_in) = (port(&start, true, 0), port(&dlg, false, 0));
    let (start_id, dlg_id) = (start.id, dlg.id);
    graph.add_node(start);
    graph.add_node(dlg);
    graph.add_connection(start_id, start_out, dlg_id, dlg_in);

    let e = build_export(&graph, "positions");
    assert_eq!(e.nodes.len(), 2);
    for n in &e.nodes {
        for coord in [4321, 8765, 1234, 5678] {
            assert!(!has_key_or_int(&n.data, "position", coord));
        }
        assert!(!has_key_or_int(&n.data, "x", -1));
        assert!(!has_key_or_int(&n.data, "y", -1));
    }
}
