//! Comparison of graph values by their views: each test answers whether two
//! values hold the same data.

use vstd::prelude::*;
use crate::locale::{LocaleSettings, Translation, locale_view};
use crate::model::{
    BarkLine, Character, ChoiceCondition, ChoiceOption, Connection, DialogueData, DialogueGraph, EventAction, Node,
    NodeType, Port, Variable, VariableValue, WorldEntity, EntityProperty, action_view, bark_view, barks_view,
    character_view, cond_view, dialogue_view, entity_view, graph_view, kind_view, lemma_nodes_view, node_view,
    nodes_view, opt_view, option_view, pairs_view, port_view, ports_view, strings_view, value_view, variable_view,
};
use crate::text::str_eq;

verus! {

fn same_string(a: &String, b: &String) -> (r: bool)
    ensures
        r == (a@ == b@),
{
    str_eq(a.as_str(), b.as_str())
}

fn same_opt_string(a: &Option<String>, b: &Option<String>) -> (r: bool)
    ensures
        r == (opt_view(*a) == opt_view(*b)),
{
    match (a, b) {
        (Some(x), Some(y)) => same_string(x, y),
        (None, None) => true,
        _ => false,
    }
}

pub fn same_strings(a: &Vec<String>, b: &Vec<String>) -> (r: bool)
    ensures
        r == (strings_view(a@) == strings_view(b@)),
{
    if a.len() != b.len() {
        assert(strings_view(a@).len() != strings_view(b@).len());
        return false;
    }
    let mut i: usize = 0;
    while i < a.len()
        invariant
            i <= a.len(),
            a.len() == b.len(),
            forall|j: int| 0 <= j < i ==> a@[j]@ == b@[j]@,
        decreases a.len() - i,
    {
        if !same_string(&a[i], &b[i]) {
            assert(strings_view(a@)[i as int] != strings_view(b@)[i as int]);
            return false;
        }
        i = i + 1;
    }
    assert(strings_view(a@) =~= strings_view(b@));
    true
}

fn same_pairs(a: &Vec<(String, String)>, b: &Vec<(String, String)>) -> (r: bool)
    ensures
        r == (pairs_view(a@) == pairs_view(b@)),
{
    if a.len() != b.len() {
        assert(pairs_view(a@).len() != pairs_view(b@).len());
        return false;
    }
    let mut i: usize = 0;
    while i < a.len()
        invariant
            i <= a.len(),
            a.len() == b.len(),
            forall|j: int| 0 <= j < i ==> pairs_view(a@)[j] == pairs_view(b@)[j],
        decreases a.len() - i,
    {
        if !(same_string(&a[i].0, &b[i].0) && same_string(&a[i].1, &b[i].1)) {
            assert(pairs_view(a@)[i as int] != pairs_view(b@)[i as int]);
            return false;
        }
        i = i + 1;
    }
    assert(pairs_view(a@) =~= pairs_view(b@));
    true
}

fn same_ports(a: &Vec<Port>, b: &Vec<Port>) -> (r: bool)
    ensures
        r == (ports_view(a@) == ports_view(b@)),
{
    if a.len() != b.len() {
        assert(ports_view(a@).len() != ports_view(b@).len());
        return false;
    }
    let mut i: usize = 0;
    while i < a.len()
        invariant
            i <= a.len(),
            a.len() == b.len(),
            forall|j: int| 0 <= j < i ==> port_view(a@[j]) == port_view(b@[j]),
        decreases a.len() - i,
    {
        if !(a[i].id == b[i].id && same_string(&a[i].label, &b[i].label)) {
            assert(ports_view(a@)[i as int] != ports_view(b@)[i as int]);
            return false;
        }
        i = i + 1;
    }
    assert(ports_view(a@) =~= ports_view(b@));
    true
}

fn same_value(a: &VariableValue, b: &VariableValue) -> (r: bool)
    ensures
        r == (value_view(*a) == value_view(*b)),
{
    match (a, b) {
        (VariableValue::Bool(x), VariableValue::Bool(y)) => *x == *y,
        (VariableValue::Int(x), VariableValue::Int(y)) => *x == *y,
        (VariableValue::Float(x), VariableValue::Float(y)) => same_string(x, y),
        (VariableValue::Text(x), VariableValue::Text(y)) => same_string(x, y),
        _ => false,
    }
}

fn same_condition(a: &ChoiceCondition, b: &ChoiceCondition) -> (r: bool)
    ensures
        r == (cond_view(*a) == cond_view(*b)),
{
    same_string(&a.variable_name, &b.variable_name) && a.operator == b.operator && same_value(&a.value, &b.value)
}

fn same_options(a: &Vec<ChoiceOption>, b: &Vec<ChoiceOption>) -> (r: bool)
    ensures
        r == (a@.map_values(|o: ChoiceOption| option_view(o)) == b@.map_values(|o: ChoiceOption| option_view(o))),
{
    let ghost av = a@.map_values(|o: ChoiceOption| option_view(o));
    let ghost bv = b@.map_values(|o: ChoiceOption| option_view(o));
    if a.len() != b.len() {
        assert(av.len() != bv.len());
        return false;
    }
    let mut i: usize = 0;
    while i < a.len()
        invariant
            i <= a.len(),
            a.len() == b.len(),
            av == a@.map_values(|o: ChoiceOption| option_view(o)),
            bv == b@.map_values(|o: ChoiceOption| option_view(o)),
            forall|j: int| 0 <= j < i ==> av[j] == bv[j],
        decreases a.len() - i,
    {
        let same_cond = match (&a[i].condition, &b[i].condition) {
            (Some(x), Some(y)) => same_condition(x, y),
            (None, None) => true,
            _ => false,
        };
        if !(same_string(&a[i].text, &b[i].text) && same_cond) {
            assert(av[i as int] == option_view(a@[i as int]));
            assert(bv[i as int] == option_view(b@[i as int]));
            assert(av[i as int] != bv[i as int]);
            return false;
        }
        i = i + 1;
    }
    assert(av =~= bv);
    true
}

fn same_actions(a: &Vec<EventAction>, b: &Vec<EventAction>) -> (r: bool)
    ensures
        r == (a@.map_values(|x: EventAction| action_view(x)) == b@.map_values(|x: EventAction| action_view(x))),
{
    let ghost av = a@.map_values(|x: EventAction| action_view(x));
    let ghost bv = b@.map_values(|x: EventAction| action_view(x));
    if a.len() != b.len() {
        assert(av.len() != bv.len());
        return false;
    }
    let mut i: usize = 0;
    while i < a.len()
        invariant
            i <= a.len(),
            a.len() == b.len(),
            av == a@.map_values(|x: EventAction| action_view(x)),
            bv == b@.map_values(|x: EventAction| action_view(x)),
            forall|j: int| 0 <= j < i ==> av[j] == bv[j],
        decreases a.len() - i,
    {
        if !(a[i].action_type == b[i].action_type && same_string(&a[i].key, &b[i].key)
            && same_value(&a[i].value, &b[i].value)) {
            assert(av[i as int] != bv[i as int]);
            return false;
        }
        i = i + 1;
    }
    assert(av =~= bv);
    true
}

fn same_weights(a: &Vec<crate::model::RandomBranch>, b: &Vec<crate::model::RandomBranch>) -> (r: bool)
    ensures
        r == (a@.map_values(|x: crate::model::RandomBranch| x.weight) == b@.map_values(|x: crate::model::RandomBranch| x.weight)),
{
    let ghost av = a@.map_values(|x: crate::model::RandomBranch| x.weight);
    let ghost bv = b@.map_values(|x: crate::model::RandomBranch| x.weight);
    if a.len() != b.len() {
        assert(av.len() != bv.len());
        return false;
    }
    let mut i: usize = 0;
    while i < a.len()
        invariant
            i <= a.len(),
            a.len() == b.len(),
            av == a@.map_values(|x: crate::model::RandomBranch| x.weight),
            bv == b@.map_values(|x: crate::model::RandomBranch| x.weight),
            forall|j: int| 0 <= j < i ==> av[j] == bv[j],
        decreases a.len() - i,
    {
        if a[i].weight != b[i].weight {
            assert(av[i as int] != bv[i as int]);
            return false;
        }
        i = i + 1;
    }
    assert(av =~= bv);
    true
}

fn same_dialogue(a: &DialogueData, b: &DialogueData) -> (r: bool)
    ensures
        r == (dialogue_view(*a) == dialogue_view(*b)),
{
    a.speaker_id == b.speaker_id && same_string(&a.speaker_name, &b.speaker_name) && same_string(&a.text, &b.text)
        && same_string(&a.emotion, &b.emotion) && same_opt_string(&a.portrait_override, &b.portrait_override)
        && same_opt_string(&a.audio_clip, &b.audio_clip) && same_pairs(&a.metadata, &b.metadata)
}

/// Whether two node types hold the same data.
pub fn same_kind(a: &NodeType, b: &NodeType) -> (r: bool)
    ensures
        r == (kind_view(*a) == kind_view(*b)),
    decreases *a, 3int,
{
    match (a, b) {
        (NodeType::Start, NodeType::Start) => true,
        (NodeType::Dialogue(x), NodeType::Dialogue(y)) => same_dialogue(x, y),
        (NodeType::Choice(x), NodeType::Choice(y)) => same_string(&x.prompt, &y.prompt) && same_options(&x.choices, &y.choices),
        (NodeType::Condition(x), NodeType::Condition(y)) => same_string(&x.variable_name, &y.variable_name)
            && x.operator == y.operator && same_value(&x.value, &y.value),
        (NodeType::Event(x), NodeType::Event(y)) => same_actions(&x.actions, &y.actions),
        (NodeType::Random(x), NodeType::Random(y)) => same_weights(&x.branches, &y.branches),
        (NodeType::End(x), NodeType::End(y)) => same_string(&x.tag, &y.tag),
        (NodeType::SubGraph(x), NodeType::SubGraph(y)) => same_string(&x.name, &y.name)
            && same_graph(&x.child_graph, &y.child_graph),
        _ => false,
    }
}

/// Whether two nodes hold the same data.
pub fn same_node(a: &Node, b: &Node) -> (r: bool)
    ensures
        r == (node_view(*a) == node_view(*b)),
    decreases *a, 2int,
{
    let same_pos = a.position[0] == b.position[0] && a.position[1] == b.position[1];
    proof {
        if same_pos {
            assert(a.position@ =~= b.position@);
        } else {
            assert(a.position@[0] != b.position@[0] || a.position@[1] != b.position@[1]);
        }
    }
    a.id == b.id && same_kind(&a.node_type, &b.node_type) && same_ports(&a.inputs, &b.inputs)
        && same_ports(&a.outputs, &b.outputs) && same_pos
}

fn same_nodes(a: &Vec<Node>, b: &Vec<Node>) -> (r: bool)
    ensures
        r == (nodes_view(a@) == nodes_view(b@)),
    decreases *a, 1int,
{
    proof {
        lemma_nodes_view(a@);
        lemma_nodes_view(b@);
    }
    if a.len() != b.len() {
        return false;
    }
    let mut i: usize = 0;
    while i < a.len()
        invariant
            i <= a.len(),
            a.len() == b.len(),
            nodes_view(a@).len() == a.len(),
            nodes_view(b@).len() == b.len(),
            forall|k: int| 0 <= k < a.len() ==> #[trigger] nodes_view(a@)[k] == node_view(a@[k]),
            forall|k: int| 0 <= k < b.len() ==> #[trigger] nodes_view(b@)[k] == node_view(b@[k]),
            forall|j: int| 0 <= j < i ==> nodes_view(a@)[j] == nodes_view(b@)[j],
        decreases a.len() - i,
    {
        if !same_node(&a[i], &b[i]) {
            assert(nodes_view(a@)[i as int] != nodes_view(b@)[i as int]);
            return false;
        }
        i = i + 1;
    }
    assert(nodes_view(a@) =~= nodes_view(b@));
    true
}

fn same_connections(a: &Vec<Connection>, b: &Vec<Connection>) -> (r: bool)
    ensures
        r == (a@ == b@),
{
    if a.len() != b.len() {
        return false;
    }
    let mut i: usize = 0;
    while i < a.len()
        invariant
            i <= a.len(),
            a.len() == b.len(),
            forall|j: int| 0 <= j < i ==> a@[j] == b@[j],
        decreases a.len() - i,
    {
        let x = a[i];
        let y = b[i];
        if !(x.id == y.id && x.from_node == y.from_node && x.from_port == y.from_port && x.to_node == y.to_node
            && x.to_port == y.to_port) {
            return false;
        }
        i = i + 1;
    }
    assert(a@ =~= b@);
    true
}

fn same_variables(a: &Vec<Variable>, b: &Vec<Variable>) -> (r: bool)
    ensures
        r == (a@.map_values(|v: Variable| variable_view(v)) == b@.map_values(|v: Variable| variable_view(v))),
{
    let ghost av = a@.map_values(|v: Variable| variable_view(v));
    let ghost bv = b@.map_values(|v: Variable| variable_view(v));
    if a.len() != b.len() {
        assert(av.len() != bv.len());
        return false;
    }
    let mut i: usize = 0;
    while i < a.len()
        invariant
            i <= a.len(),
            a.len() == b.len(),
            av == a@.map_values(|v: Variable| variable_view(v)),
            bv == b@.map_values(|v: Variable| variable_view(v)),
            forall|j: int| 0 <= j < i ==> av[j] == bv[j],
        decreases a.len() - i,
    {
        if !(a[i].id == b[i].id && same_string(&a[i].name, &b[i].name) && a[i].var_type == b[i].var_type
            && same_value(&a[i].default_value, &b[i].default_value)) {
            assert(av[i as int] != bv[i as int]);
            return false;
        }
        i = i + 1;
    }
    assert(av =~= bv);
    true
}

fn same_characters(a: &Vec<Character>, b: &Vec<Character>) -> (r: bool)
    ensures
        r == (a@.map_values(|c: Character| character_view(c)) == b@.map_values(|c: Character| character_view(c))),
{
    let ghost av = a@.map_values(|c: Character| character_view(c));
    let ghost bv = b@.map_values(|c: Character| character_view(c));
    if a.len() != b.len() {
        assert(av.len() != bv.len());
        return false;
    }
    let mut i: usize = 0;
    while i < a.len()
        invariant
            i <= a.len(),
            a.len() == b.len(),
            av == a@.map_values(|c: Character| character_view(c)),
            bv == b@.map_values(|c: Character| character_view(c)),
            forall|j: int| 0 <= j < i ==> av[j] == bv[j],
        decreases a.len() - i,
    {
        let x = &a[i];
        let y = &b[i];
        let same_color = x.color[0] == y.color[0] && x.color[1] == y.color[1] && x.color[2] == y.color[2];
        proof {
            if same_color {
                assert(x.color@ =~= y.color@);
            }
        }
        if !(x.id == y.id && same_string(&x.name, &y.name) && same_color && same_string(&x.portrait_path, &y.portrait_path)
            && same_opt_string(&x.voice_id, &y.voice_id)) {
            assert(av[i as int] == character_view(*x));
            assert(bv[i as int] == character_view(*y));
            assert(av[i as int] != bv[i as int]);
            return false;
        }
        i = i + 1;
    }
    assert(av =~= bv);
    true
}

fn same_bark_lines(a: &Vec<BarkLine>, b: &Vec<BarkLine>) -> (r: bool)
    ensures
        r == (barks_view(a@) == barks_view(b@)),
{
    if a.len() != b.len() {
        assert(barks_view(a@).len() != barks_view(b@).len());
        return false;
    }
    let mut i: usize = 0;
    while i < a.len()
        invariant
            i <= a.len(),
            a.len() == b.len(),
            forall|j: int| 0 <= j < i ==> bark_view(a@[j]) == bark_view(b@[j]),
        decreases a.len() - i,
    {
        if !(same_string(&a[i].text, &b[i].text) && a[i].weight == b[i].weight
            && same_opt_string(&a[i].condition_variable, &b[i].condition_variable)) {
            assert(barks_view(a@)[i as int] != barks_view(b@)[i as int]);
            return false;
        }
        i = i + 1;
    }
    assert(barks_view(a@) =~= barks_view(b@));
    true
}

fn same_barks(a: &Vec<(u128, Vec<BarkLine>)>, b: &Vec<(u128, Vec<BarkLine>)>) -> (r: bool)
    ensures
        r == (a@.map_values(|x: (u128, Vec<BarkLine>)| (x.0, barks_view(x.1@)))
            == b@.map_values(|x: (u128, Vec<BarkLine>)| (x.0, barks_view(x.1@)))),
{
    let ghost av = a@.map_values(|x: (u128, Vec<BarkLine>)| (x.0, barks_view(x.1@)));
    let ghost bv = b@.map_values(|x: (u128, Vec<BarkLine>)| (x.0, barks_view(x.1@)));
    if a.len() != b.len() {
        assert(av.len() != bv.len());
        return false;
    }
    let mut i: usize = 0;
    while i < a.len()
        invariant
            i <= a.len(),
            a.len() == b.len(),
            av == a@.map_values(|x: (u128, Vec<BarkLine>)| (x.0, barks_view(x.1@))),
            bv == b@.map_values(|x: (u128, Vec<BarkLine>)| (x.0, barks_view(x.1@))),
            forall|j: int| 0 <= j < i ==> av[j] == bv[j],
        decreases a.len() - i,
    {
        if !(a[i].0 == b[i].0 && same_bark_lines(&a[i].1, &b[i].1)) {
            assert(av[i as int] != bv[i as int]);
            return false;
        }
        i = i + 1;
    }
    assert(av =~= bv);
    true
}

fn same_tags(a: &Vec<(u128, Vec<String>)>, b: &Vec<(u128, Vec<String>)>) -> (r: bool)
    ensures
        r == (a@.map_values(|t: (u128, Vec<String>)| (t.0, strings_view(t.1@)))
            == b@.map_values(|t: (u128, Vec<String>)| (t.0, strings_view(t.1@)))),
{
    let ghost av = a@.map_values(|t: (u128, Vec<String>)| (t.0, strings_view(t.1@)));
    let ghost bv = b@.map_values(|t: (u128, Vec<String>)| (t.0, strings_view(t.1@)));
    if a.len() != b.len() {
        assert(av.len() != bv.len());
        return false;
    }
    let mut i: usize = 0;
    while i < a.len()
        invariant
            i <= a.len(),
            a.len() == b.len(),
            av == a@.map_values(|t: (u128, Vec<String>)| (t.0, strings_view(t.1@))),
            bv == b@.map_values(|t: (u128, Vec<String>)| (t.0, strings_view(t.1@))),
            forall|j: int| 0 <= j < i ==> av[j] == bv[j],
        decreases a.len() - i,
    {
        if !(a[i].0 == b[i].0 && same_strings(&a[i].1, &b[i].1)) {
            assert(av[i as int] != bv[i as int]);
            return false;
        }
        i = i + 1;
    }
    assert(av =~= bv);
    true
}

fn same_properties(a: &Vec<EntityProperty>, b: &Vec<EntityProperty>) -> (r: bool)
    ensures
        r == (a@.map_values(|p: EntityProperty| (p.key@, p.value@)) == b@.map_values(|p: EntityProperty| (p.key@, p.value@))),
{
    let ghost av = a@.map_values(|p: EntityProperty| (p.key@, p.value@));
    let ghost bv = b@.map_values(|p: EntityProperty| (p.key@, p.value@));
    if a.len() != b.len() {
        assert(av.len() != bv.len());
        return false;
    }
    let mut i: usize = 0;
    while i < a.len()
        invariant
            i <= a.len(),
            a.len() == b.len(),
            av == a@.map_values(|p: EntityProperty| (p.key@, p.value@)),
            bv == b@.map_values(|p: EntityProperty| (p.key@, p.value@)),
            forall|j: int| 0 <= j < i ==> av[j] == bv[j],
        decreases a.len() - i,
    {
        if !(same_string(&a[i].key, &b[i].key) && same_string(&a[i].value, &b[i].value)) {
            assert(av[i as int] != bv[i as int]);
            return false;
        }
        i = i + 1;
    }
    assert(av =~= bv);
    true
}

fn same_entities(a: &Vec<WorldEntity>, b: &Vec<WorldEntity>) -> (r: bool)
    ensures
        r == (a@.map_values(|e: WorldEntity| entity_view(e)) == b@.map_values(|e: WorldEntity| entity_view(e))),
{
    let ghost av = a@.map_values(|e: WorldEntity| entity_view(e));
    let ghost bv = b@.map_values(|e: WorldEntity| entity_view(e));
    if a.len() != b.len() {
        assert(av.len() != bv.len());
        return false;
    }
    let mut i: usize = 0;
    while i < a.len()
        invariant
            i <= a.len(),
            a.len() == b.len(),
            av == a@.map_values(|e: WorldEntity| entity_view(e)),
            bv == b@.map_values(|e: WorldEntity| entity_view(e)),
            forall|j: int| 0 <= j < i ==> av[j] == bv[j],
        decreases a.len() - i,
    {
        let x = &a[i];
        let y = &b[i];
        if !(x.id == y.id && same_string(&x.name, &y.name) && x.category == y.category
            && same_string(&x.description, &y.description) && same_strings(&x.tags, &y.tags)
            && same_properties(&x.properties, &y.properties)) {
            assert(av[i as int] == entity_view(*x));
            assert(bv[i as int] == entity_view(*y));
            assert(av[i as int] != bv[i as int]);
            return false;
        }
        i = i + 1;
    }
    assert(av =~= bv);
    true
}

fn same_translations(a: &Vec<Translation>, b: &Vec<Translation>) -> (r: bool)
    ensures
        r == (a@.map_values(|t: Translation| (t.key@, t.locale@, t.text@))
            == b@.map_values(|t: Translation| (t.key@, t.locale@, t.text@))),
{
    let ghost av = a@.map_values(|t: Translation| (t.key@, t.locale@, t.text@));
    let ghost bv = b@.map_values(|t: Translation| (t.key@, t.locale@, t.text@));
    if a.len() != b.len() {
        assert(av.len() != bv.len());
        return false;
    }
    let mut i: usize = 0;
    while i < a.len()
        invariant
            i <= a.len(),
            a.len() == b.len(),
            av == a@.map_values(|t: Translation| (t.key@, t.locale@, t.text@)),
            bv == b@.map_values(|t: Translation| (t.key@, t.locale@, t.text@)),
            forall|j: int| 0 <= j < i ==> av[j] == bv[j],
        decreases a.len() - i,
    {
        if !(same_string(&a[i].key, &b[i].key) && same_string(&a[i].locale, &b[i].locale)
            && same_string(&a[i].text, &b[i].text)) {
            assert(av[i as int] != bv[i as int]);
            return false;
        }
        i = i + 1;
    }
    assert(av =~= bv);
    true
}

fn same_locale(a: &LocaleSettings, b: &LocaleSettings) -> (r: bool)
    ensures
        r == (locale_view(*a) == locale_view(*b)),
{
    let s = same_strings(&a.extra_locales, &b.extra_locales);
    assert(a.extra_locales@.map_values(|s: String| s@) == strings_view(a.extra_locales@));
    assert(b.extra_locales@.map_values(|s: String| s@) == strings_view(b.extra_locales@));
    same_string(&a.default_locale, &b.default_locale) && s && same_translations(&a.translations, &b.translations)
}

/// Whether two graphs hold the same data in every part.
pub fn same_graph(a: &DialogueGraph, b: &DialogueGraph) -> (r: bool)
    ensures
        r == (graph_view(*a) == graph_view(*b)),
    decreases *a, 0int,
{
    same_nodes(&a.nodes, &b.nodes) && same_connections(&a.connections, &b.connections)
        && same_variables(&a.variables, &b.variables) && same_characters(&a.characters, &b.characters)
        && same_barks(&a.barks, &b.barks) && same_locale(&a.locale, &b.locale)
        && same_entities(&a.world_entities, &b.world_entities) && same_tags(&a.node_tags, &b.node_tags)
}

} // verus!
