use talenode::model::{
    ChoiceCondition, CompareOp, EventAction, EventActionType, Node, NodeType, VariableValue,
};
use talenode::templates::{builtin_templates, NodeTemplate, TemplateLibrary};
use talenode::ui::{node_tooltip_text, DockTab, PendingAction, TabRegion};

#[test]
fn tooltip_of_dialogue_shows_speaker_and_text() {
    let mut n = Node::new_dialogue([0, 0]);
    if let NodeType::Dialogue(ref mut d) = n.node_type {
        d.speaker_name = "Guard".to_string();
        d.text = "Halt!".to_string();
    }
    assert_eq!(node_tooltip_text(&n), "[Guard] Halt!");
    if let NodeType::Dialogue(ref mut d) = n.node_type {
        d.speaker_name = String::new();
    }
    assert_eq!(node_tooltip_text(&n), "Halt!");
}

#[test]
fn tooltip_of_choice_numbers_options() {
    let mut n = Node::new_choice([0, 0]);
    if let NodeType::Choice(ref mut c) = n.node_type {
        c.prompt = "Pick".to_string();
        c.choices[0].text = "A".to_string();
        c.choices[1].text = "B".to_string();
    }
    assert_eq!(node_tooltip_text(&n), "Pick\n  1. A\n  2. B");
}

#[test]
fn tooltip_of_condition_and_event_use_debug_forms() {
    let mut c = Node::new_condition([0, 0]);
    if let NodeType::Condition(ref mut d) = c.node_type {
        d.variable_name = "gold".to_string();
        d.operator = CompareOp::Gte;
        d.value = VariableValue::Int(10);
    }
    assert_eq!(node_tooltip_text(&c), "gold Gte Int(10)");

    let mut e = Node::new_event([0, 0]);
    if let NodeType::Event(ref mut d) = e.node_type {
        d.actions.push(EventAction { action_type: EventActionType::SetVariable, key: "k".to_string(), value: VariableValue::Text("v".to_string()) });
        d.actions.push(EventAction { action_type: EventActionType::AddItem, key: "sword".to_string(), value: VariableValue::Bool(true) });
    }
    assert_eq!(node_tooltip_text(&e), "k = Text(\"v\")\nsword = Bool(true)");
    let _ = ChoiceCondition { variable_name: String::new(), operator: CompareOp::Eq, value: VariableValue::Bool(false) };
}

#[test]
fn tooltip_of_end_and_start() {
    let mut e = Node::new_end([0, 0]);
    assert_eq!(node_tooltip_text(&e), "End");
    if let NodeType::End(ref mut d) = e.node_type {
        d.tag = "victory".to_string();
    }
    assert_eq!(node_tooltip_text(&e), "End: victory");
    assert_eq!(node_tooltip_text(&Node::new_start([0, 0])), "");
}

#[test]
fn dock_tabs_have_titles_and_regions() {
    assert_eq!(DockTab::LeftPanel.title(), "Project");
    assert_eq!(DockTab::WorldDatabase.title(), "World DB");
    assert_eq!(DockTab::Canvas.region(), TabRegion::Canvas);
    assert_eq!(DockTab::LeftPanel.region(), TabRegion::Left);
    assert_eq!(DockTab::ScriptEditor.region(), TabRegion::Right);
    assert_eq!(DockTab::Timeline.region(), TabRegion::Bottom);
}

#[test]
fn pending_actions_ask_before_destroying() {
    assert_eq!(PendingAction::NewProject.message(), "Create a new project? Unsaved changes will be lost.");
    assert_eq!(PendingAction::RestoreVersion(3).message(), "Restore this version? Current graph will be replaced.");
}

fn user_template(id: u128, name: &str) -> NodeTemplate {
    NodeTemplate {
        id,
        name: name.to_string(),
        description: String::new(),
        is_builtin: false,
        nodes: vec![],
        connections: vec![],
    }
}

#[test]
fn builtin_templates_are_the_three_presets() {
    let ts = builtin_templates();
    let names: Vec<&str> = ts.iter().map(|t| t.name.as_str()).collect();
    assert_eq!(names, vec!["Guard Check", "Shop Encounter", "Quest Giver"]);
    assert!(ts.iter().all(|t| t.is_builtin && !t.nodes.is_empty()));
}

#[test]
fn delete_template_removes_only_user_templates() {
    let mut lib = TemplateLibrary::new();
    let mut shipped = builtin_templates();
    let shipped_id = shipped[0].id;
    lib.templates.push(shipped.remove(0));
    lib.templates.push(user_template(7, "Mine"));
    lib.templates.push(user_template(8, "Other"));
    lib.delete_template(7);
    assert_eq!(lib.templates.len(), 2);
    assert!(lib.templates.iter().all(|t| t.id != 7));
    lib.delete_template(shipped_id);
    assert_eq!(lib.templates.len(), 2);
}

#[test]
fn merge_builtins_adds_only_missing_presets() {
    let mut lib = TemplateLibrary::new();
    lib.templates.push(user_template(1, "Guard Check"));
    lib.merge_builtins(builtin_templates());
    assert_eq!(lib.templates.len(), 4);
    lib.merge_builtins(builtin_templates());
    assert_eq!(lib.templates.len(), 4);
    assert_eq!(lib.templates.iter().filter(|t| t.is_builtin).count(), 3);
}

#[test]
fn new_project_has_one_start_node() {
    let g = talenode::model::DialogueGraph::new_project();
    assert_eq!(g.nodes.len(), 1);
    assert!(matches!(g.nodes[0].node_type, NodeType::Start));
    assert_eq!(g.nodes[0].position, [100, 200]);
    assert!(g.connections.is_empty());
    assert_eq!(g.locale.default_locale, "en");
}
