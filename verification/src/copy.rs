//! Faithful copies of graph values: each copy has the same view as its source.

use vstd::prelude::*;
use crate::model::{
    opt_view, strings_view, pairs_view, port_view, ports_view, value_view, cond_view, option_view,
    action_view, dialogue_view, kind_view, node_view, nodes_view, character_view, bark_view,
    barks_view, variable_view, entity_view, graph_view, Port, VariableValue, ChoiceCondition,
    ChoiceOption, EventAction, RandomBranch, DialogueData, NodeType, ChoiceData, ConditionData,
    EventData, RandomData, EndData, SubGraphData, Node, Character, Variable, BarkLine,
    WorldEntity, EntityProperty, DialogueGraph,
};
use crate::locale::{locale_view, LocaleSettings, Translation};

verus! {

pub fn copy_opt_string(o: &Option<String>) -> (r: Option<String>)
    ensures
        opt_view(r) == opt_view(*o),
{
    match o {
        Some(s) => Some(s.clone()),
        None => None,
    }
}

pub fn copy_strings(v: &Vec<String>) -> (r: Vec<String>)
    ensures
        strings_view(r@) == strings_view(v@),
{
    let mut r: Vec<String> = Vec::new();
    let mut i: usize = 0;
    while i < v.len()
        invariant
            i <= v.len(),
            r@.len() == i,
            forall|j: int| 0 <= j < i ==> r@[j]@ == v@[j]@,
        decreases v.len() - i,
    {
        r.push(v[i].clone());
        i = i + 1;
    }
    assert(strings_view(r@) =~= strings_view(v@));
    r
}

pub fn copy_pairs(v: &Vec<(String, String)>) -> (r: Vec<(String, String)>)
    ensures
        pairs_view(r@) == pairs_view(v@),
{
    let mut r: Vec<(String, String)> = Vec::new();
    let mut i: usize = 0;
    while i < v.len()
        invariant
            i <= v.len(),
            r@.len() == i,
            forall|j: int| 0 <= j < i ==> r@[j].0@ == v@[j].0@ && r@[j].1@ == v@[j].1@,
        decreases v.len() - i,
    {
        r.push((v[i].0.clone(), v[i].1.clone()));
        i = i + 1;
    }
    assert(pairs_view(r@) =~= pairs_view(v@));
    r
}

pub fn copy_ports(v: &Vec<Port>) -> (r: Vec<Port>)
    ensures
        ports_view(r@) == ports_view(v@),
{
    let mut r: Vec<Port> = Vec::new();
    let mut i: usize = 0;
    while i < v.len()
        invariant
            i <= v.len(),
            r@.len() == i,
            forall|j: int| 0 <= j < i ==> port_view(r@[j]) == port_view(v@[j]),
        decreases v.len() - i,
    {
        r.push(Port { id: v[i].id, label: v[i].label.clone() });
        i = i + 1;
    }
    assert(ports_view(r@) =~= ports_view(v@));
    r
}

pub fn copy_value(v: &VariableValue) -> (r: VariableValue)
    ensures
        value_view(r) == value_view(*v),
{
    match v {
        VariableValue::Bool(b) => VariableValue::Bool(*b),
        VariableValue::Int(i) => VariableValue::Int(*i),
        VariableValue::Float(f) => VariableValue::Float(f.clone()),
        VariableValue::Text(t) => VariableValue::Text(t.clone()),
    }
}

pub fn copy_condition(c: &ChoiceCondition) -> (r: ChoiceCondition)
    ensures
        cond_view(r) == cond_view(*c),
{
    ChoiceCondition {
        variable_name: c.variable_name.clone(),
        operator: c.operator,
        value: copy_value(&c.value),
    }
}

pub fn copy_options(v: &Vec<ChoiceOption>) -> (r: Vec<ChoiceOption>)
    ensures
        r@.map_values(|o: ChoiceOption| option_view(o)) == v@.map_values(|o: ChoiceOption| option_view(o)),
{
    let mut r: Vec<ChoiceOption> = Vec::new();
    let mut i: usize = 0;
    while i < v.len()
        invariant
            i <= v.len(),
            r@.len() == i,
            forall|j: int| 0 <= j < i ==> option_view(r@[j]) == option_view(v@[j]),
        decreases v.len() - i,
    {
        let cond = match &v[i].condition {
            Some(c) => Some(copy_condition(c)),
            None => None,
        };
        r.push(ChoiceOption { text: v[i].text.clone(), condition: cond });
        i = i + 1;
    }
    assert(r@.map_values(|o: ChoiceOption| option_view(o)) =~= v@.map_values(|o: ChoiceOption| option_view(o)));
    r
}

pub fn copy_actions(v: &Vec<EventAction>) -> (r: Vec<EventAction>)
    ensures
        r@.map_values(|a: EventAction| action_view(a)) == v@.map_values(|a: EventAction| action_view(a)),
{
    let mut r: Vec<EventAction> = Vec::new();
    let mut i: usize = 0;
    while i < v.len()
        invariant
            i <= v.len(),
            r@.len() == i,
            forall|j: int| 0 <= j < i ==> action_view(r@[j]) == action_view(v@[j]),
        decreases v.len() - i,
    {
        r.push(EventAction {
            action_type: v[i].action_type,
            key: v[i].key.clone(),
            value: copy_value(&v[i].value),
        });
        i = i + 1;
    }
    assert(r@.map_values(|a: EventAction| action_view(a)) =~= v@.map_values(|a: EventAction| action_view(a)));
    r
}

pub fn copy_branches(v: &Vec<RandomBranch>) -> (r: Vec<RandomBranch>)
    ensures
        r@.map_values(|b: RandomBranch| b.weight) == v@.map_values(|b: RandomBranch| b.weight),
{
    let mut r: Vec<RandomBranch> = Vec::new();
    let mut i: usize = 0;
    while i < v.len()
        invariant
            i <= v.len(),
            r@.len() == i,
            forall|j: int| 0 <= j < i ==> r@[j].weight == v@[j].weight,
        decreases v.len() - i,
    {
        r.push(RandomBranch { weight: v[i].weight });
        i = i + 1;
    }
    assert(r@.map_values(|b: RandomBranch| b.weight) =~= v@.map_values(|b: RandomBranch| b.weight));
    r
}

pub fn copy_dialogue(d: &DialogueData) -> (r: DialogueData)
    ensures
        dialogue_view(r) == dialogue_view(*d),
{
    DialogueData {
        speaker_id: d.speaker_id,
        speaker_name: d.speaker_name.clone(),
        text: d.text.clone(),
        emotion: d.emotion.clone(),
        portrait_override: copy_opt_string(&d.portrait_override),
        audio_clip: copy_opt_string(&d.audio_clip),
        metadata: copy_pairs(&d.metadata),
    }
}

pub fn copy_node_type(t: &NodeType) -> (r: NodeType)
    ensures
        kind_view(r) == kind_view(*t),
    decreases *t, 3int,
{
    match t {
        NodeType::Start => NodeType::Start,
        NodeType::Dialogue(d) => NodeType::Dialogue(copy_dialogue(d)),
        NodeType::Choice(c) => NodeType::Choice(
            ChoiceData { prompt: c.prompt.clone(), choices: copy_options(&c.choices) },
        ),
        NodeType::Condition(c) => NodeType::Condition(
            ConditionData {
                variable_name: c.variable_name.clone(),
                operator: c.operator,
                value: copy_value(&c.value),
            },
        ),
        NodeType::Event(e) => NodeType::Event(EventData { actions: copy_actions(&e.actions) }),
        NodeType::Random(rd) => NodeType::Random(RandomData { branches: copy_branches(&rd.branches) }),
        NodeType::End(e) => NodeType::End(EndData { tag: e.tag.clone() }),
        NodeType::SubGraph(s) => NodeType::SubGraph(
            SubGraphData { name: s.name.clone(), child_graph: copy_graph(&s.child_graph) },
        ),
    }
}

pub fn copy_node(n: &Node) -> (r: Node)
    ensures
        node_view(r) == node_view(*n),
    decreases *n, 2int,
{
    Node {
        id: n.id,
        node_type: copy_node_type(&n.node_type),
        inputs: copy_ports(&n.inputs),
        outputs: copy_ports(&n.outputs),
        position: n.position,
    }
}

pub fn copy_nodes(v: &Vec<Node>) -> (r: Vec<Node>)
    ensures
        nodes_view(r@) == nodes_view(v@),
    decreases *v, 1int,
{
    let mut r: Vec<Node> = Vec::new();
    let mut i: usize = 0;
    while i < v.len()
        invariant
            i <= v.len(),
            r@.len() == i,
            nodes_view(r@) == nodes_view(v@.subrange(0, i as int)),
        decreases v.len() - i,
    {
        let n = copy_node(&v[i]);
        let ghost old_r = r@;
        r.push(n);
        proof {
            assert(r@.drop_last() =~= old_r);
            assert(v@.subrange(0, i + 1).drop_last() =~= v@.subrange(0, i as int));
        }
        i = i + 1;
    }
    assert(v@.subrange(0, v@.len() as int) =~= v@);
    r
}

pub fn copy_translations(v: &Vec<Translation>) -> (r: Vec<Translation>)
    ensures
        r@.map_values(|t: Translation| (t.key@, t.locale@, t.text@))
            == v@.map_values(|t: Translation| (t.key@, t.locale@, t.text@)),
{
    let mut r: Vec<Translation> = Vec::new();
    let mut i: usize = 0;
    while i < v.len()
        invariant
            i <= v.len(),
            r@.len() == i,
            forall|j: int| 0 <= j < i ==> r@[j].key@ == v@[j].key@ && r@[j].locale@ == v@[j].locale@
                && r@[j].text@ == v@[j].text@,
        decreases v.len() - i,
    {
        r.push(Translation { key: v[i].key.clone(), locale: v[i].locale.clone(), text: v[i].text.clone() });
        i = i + 1;
    }
    assert(r@.map_values(|t: Translation| (t.key@, t.locale@, t.text@))
        =~= v@.map_values(|t: Translation| (t.key@, t.locale@, t.text@)));
    r
}

pub fn copy_locale(l: &LocaleSettings) -> (r: LocaleSettings)
    ensures
        locale_view(r) == locale_view(*l),
{
    let extra = copy_strings(&l.extra_locales);
    assert(extra@.map_values(|s: String| s@) == strings_view(extra@));
    assert(l.extra_locales@.map_values(|s: String| s@) == strings_view(l.extra_locales@));
    LocaleSettings {
        default_locale: l.default_locale.clone(),
        extra_locales: extra,
        translations: copy_translations(&l.translations),
    }
}

pub fn copy_character(c: &Character) -> (r: Character)
    ensures
        character_view(r) == character_view(*c),
{
    Character {
        id: c.id,
        name: c.name.clone(),
        color: c.color,
        portrait_path: c.portrait_path.clone(),
        voice_id: copy_opt_string(&c.voice_id),
    }
}

pub fn copy_variable(v: &Variable) -> (r: Variable)
    ensures
        variable_view(r) == variable_view(*v),
{
    Variable { id: v.id, name: v.name.clone(), var_type: v.var_type, default_value: copy_value(&v.default_value) }
}

pub fn copy_characters(v: &Vec<Character>) -> (r: Vec<Character>)
    ensures
        r@.map_values(|c: Character| character_view(c)) == v@.map_values(|c: Character| character_view(c)),
{
    let mut r: Vec<Character> = Vec::new();
    let mut i: usize = 0;
    while i < v.len()
        invariant
            i <= v.len(),
            r@.len() == i,
            forall|j: int| 0 <= j < i ==> character_view(r@[j]) == character_view(v@[j]),
        decreases v.len() - i,
    {
        r.push(Character {
            id: v[i].id,
            name: v[i].name.clone(),
            color: v[i].color,
            portrait_path: v[i].portrait_path.clone(),
            voice_id: copy_opt_string(&v[i].voice_id),
        });
        i = i + 1;
    }
    assert(r@.map_values(|c: Character| character_view(c)) =~= v@.map_values(|c: Character| character_view(c)));
    r
}

pub fn copy_variables(v: &Vec<Variable>) -> (r: Vec<Variable>)
    ensures
        r@.map_values(|x: Variable| variable_view(x)) == v@.map_values(|x: Variable| variable_view(x)),
{
    let mut r: Vec<Variable> = Vec::new();
    let mut i: usize = 0;
    while i < v.len()
        invariant
            i <= v.len(),
            r@.len() == i,
            forall|j: int| 0 <= j < i ==> variable_view(r@[j]) == variable_view(v@[j]),
        decreases v.len() - i,
    {
        r.push(Variable {
            id: v[i].id,
            name: v[i].name.clone(),
            var_type: v[i].var_type,
            default_value: copy_value(&v[i].default_value),
        });
        i = i + 1;
    }
    assert(r@.map_values(|x: Variable| variable_view(x)) =~= v@.map_values(|x: Variable| variable_view(x)));
    r
}

pub fn copy_bark_lines(v: &Vec<BarkLine>) -> (r: Vec<BarkLine>)
    ensures
        barks_view(r@) == barks_view(v@),
{
    let mut r: Vec<BarkLine> = Vec::new();
    let mut i: usize = 0;
    while i < v.len()
        invariant
            i <= v.len(),
            r@.len() == i,
            forall|j: int| 0 <= j < i ==> bark_view(r@[j]) == bark_view(v@[j]),
        decreases v.len() - i,
    {
        r.push(BarkLine {
            text: v[i].text.clone(),
            weight: v[i].weight,
            condition_variable: copy_opt_string(&v[i].condition_variable),
        });
        i = i + 1;
    }
    assert(barks_view(r@) =~= barks_view(v@));
    r
}

pub fn copy_barks(v: &Vec<(u128, Vec<BarkLine>)>) -> (r: Vec<(u128, Vec<BarkLine>)>)
    ensures
        r@.map_values(|b: (u128, Vec<BarkLine>)| (b.0, barks_view(b.1@)))
            == v@.map_values(|b: (u128, Vec<BarkLine>)| (b.0, barks_view(b.1@))),
{
    let mut r: Vec<(u128, Vec<BarkLine>)> = Vec::new();
    let mut i: usize = 0;
    while i < v.len()
        invariant
            i <= v.len(),
            r@.len() == i,
            forall|j: int| 0 <= j < i ==> r@[j].0 == v@[j].0 && barks_view(r@[j].1@) == barks_view(v@[j].1@),
        decreases v.len() - i,
    {
        r.push((v[i].0, copy_bark_lines(&v[i].1)));
        i = i + 1;
    }
    assert(r@.map_values(|b: (u128, Vec<BarkLine>)| (b.0, barks_view(b.1@)))
        =~= v@.map_values(|b: (u128, Vec<BarkLine>)| (b.0, barks_view(b.1@))));
    r
}

pub fn copy_tags(v: &Vec<(u128, Vec<String>)>) -> (r: Vec<(u128, Vec<String>)>)
    ensures
        r@.map_values(|t: (u128, Vec<String>)| (t.0, strings_view(t.1@)))
            == v@.map_values(|t: (u128, Vec<String>)| (t.0, strings_view(t.1@))),
{
    let mut r: Vec<(u128, Vec<String>)> = Vec::new();
    let mut i: usize = 0;
    while i < v.len()
        invariant
            i <= v.len(),
            r@.len() == i,
            forall|j: int| 0 <= j < i ==> r@[j].0 == v@[j].0 && strings_view(r@[j].1@) == strings_view(v@[j].1@),
        decreases v.len() - i,
    {
        r.push((v[i].0, copy_strings(&v[i].1)));
        i = i + 1;
    }
    assert(r@.map_values(|t: (u128, Vec<String>)| (t.0, strings_view(t.1@)))
        =~= v@.map_values(|t: (u128, Vec<String>)| (t.0, strings_view(t.1@))));
    r
}

pub fn copy_entities(v: &Vec<WorldEntity>) -> (r: Vec<WorldEntity>)
    ensures
        r@.map_values(|e: WorldEntity| entity_view(e)) == v@.map_values(|e: WorldEntity| entity_view(e)),
{
    let mut r: Vec<WorldEntity> = Vec::new();
    let mut i: usize = 0;
    while i < v.len()
        invariant
            i <= v.len(),
            r@.len() == i,
            forall|j: int| 0 <= j < i ==> entity_view(r@[j]) == entity_view(v@[j]),
        decreases v.len() - i,
    {
        let e = &v[i];
        let mut props: Vec<EntityProperty> = Vec::new();
        let mut k: usize = 0;
        while k < e.properties.len()
            invariant
                k <= e.properties.len(),
                props@.len() == k,
                forall|j: int| 0 <= j < k ==> props@[j].key@ == e.properties@[j].key@
                    && props@[j].value@ == e.properties@[j].value@,
            decreases e.properties.len() - k,
        {
            props.push(EntityProperty { key: e.properties[k].key.clone(), value: e.properties[k].value.clone() });
            k = k + 1;
        }
        assert(props@.map_values(|p: EntityProperty| (p.key@, p.value@))
            =~= e.properties@.map_values(|p: EntityProperty| (p.key@, p.value@)));
        r.push(WorldEntity {
            id: e.id,
            name: e.name.clone(),
            category: e.category,
            description: e.description.clone(),
            tags: copy_strings(&e.tags),
            properties: props,
        });
        i = i + 1;
    }
    assert(r@.map_values(|e: WorldEntity| entity_view(e)) =~= v@.map_values(|e: WorldEntity| entity_view(e)));
    r
}

/// A copy of a whole graph, equal to it in every part.
pub fn copy_graph(g: &DialogueGraph) -> (r: DialogueGraph)
    ensures
        graph_view(r) == graph_view(*g),
    decreases *g, 0int,
{
    DialogueGraph {
        nodes: copy_nodes(&g.nodes),
        connections: g.connections.clone(),
        variables: copy_variables(&g.variables),
        characters: copy_characters(&g.characters),
        barks: copy_barks(&g.barks),
        locale: copy_locale(&g.locale),
        world_entities: copy_entities(&g.world_entities),
        node_tags: copy_tags(&g.node_tags),
    }
}

} // verus!
