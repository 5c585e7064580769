//! The dialogue graph: nodes with typed data, ports, connections between
//! ports, characters, bark lines, variables, locale settings, world entities
//! and node tags. Each type has a mathematical view (`*V` types) over which
//! equality of graphs is stated.

use vstd::prelude::*;
use crate::locale::{LocaleSettings, LocaleV, locale_view};

verus! {

// ---------------------------------------------------------------- exec types

/// A connection point on a node.
#[derive(Clone, Debug)]
pub struct Port {
    pub id: u128,
    pub label: String,
}

/// A wire from an output port of one node to an input port of another.
#[derive(Clone, Copy, Debug)]
pub struct Connection {
    pub id: u128,
    pub from_node: u128,
    pub from_port: u128,
    pub to_node: u128,
    pub to_port: u128,
}

/// Comparison operator of a condition.
#[derive(Clone, Copy, Debug, PartialEq, Eq, Structural)]
pub enum CompareOp {
    Eq,
    Neq,
    Gt,
    Lt,
    Gte,
    Lte,
    Contains,
}

/// The value of a variable. A floating-point value is held as the decimal
/// text that stands for it.
#[derive(Clone, Debug)]
pub enum VariableValue {
    Bool(bool),
    Int(i64),
    Float(String),
    Text(String),
}

/// The declared type of a variable.
#[derive(Clone, Copy, Debug, PartialEq, Eq, Structural)]
pub enum VariableType {
    Bool,
    Int,
    Float,
    Text,
}

#[derive(Clone, Debug)]
pub struct DialogueData {
    pub speaker_id: Option<u128>,
    pub speaker_name: String,
    pub text: String,
    pub emotion: String,
    pub portrait_override: Option<String>,
    pub audio_clip: Option<String>,
    /// Free-form key/value notes ("duration", "notes", ...), in insertion order.
    pub metadata: Vec<(String, String)>,
}

#[derive(Clone, Debug)]
pub struct ChoiceCondition {
    pub variable_name: String,
    pub operator: CompareOp,
    pub value: VariableValue,
}

#[derive(Clone, Debug)]
pub struct ChoiceOption {
    pub text: String,
    pub condition: Option<ChoiceCondition>,
}

#[derive(Clone, Debug)]
pub struct ChoiceData {
    pub prompt: String,
    pub choices: Vec<ChoiceOption>,
}

#[derive(Clone, Debug)]
pub struct ConditionData {
    pub variable_name: String,
    pub operator: CompareOp,
    pub value: VariableValue,
}

#[derive(Clone, Copy, Debug, PartialEq, Eq, Structural)]
pub enum EventActionType {
    SetVariable,
    AddItem,
    RemoveItem,
    PlaySound,
    ModifyRelationship,
    StartQuest,
    CompleteObjective,
    FailQuest,
    Custom,
}

#[derive(Clone, Debug)]
pub struct EventAction {
    pub action_type: EventActionType,
    pub key: String,
    pub value: VariableValue,
}

#[derive(Clone, Debug)]
pub struct EventData {
    pub actions: Vec<EventAction>,
}

/// A branch of a random node; `weight` is its relative weight, counted in
/// hundredths.
#[derive(Clone, Debug)]
pub struct RandomBranch {
    pub weight: u32,
}

#[derive(Clone, Debug)]
pub struct RandomData {
    pub branches: Vec<RandomBranch>,
}

#[derive(Clone, Debug)]
pub struct EndData {
    pub tag: String,
}

pub struct SubGraphData {
    pub name: String,
    pub child_graph: DialogueGraph,
}

pub enum NodeType {
    Start,
    Dialogue(DialogueData),
    Choice(ChoiceData),
    Condition(ConditionData),
    Event(EventData),
    Random(RandomData),
    End(EndData),
    SubGraph(SubGraphData),
}

/// A node of the graph; `position` is its place on the canvas in whole units.
pub struct Node {
    pub id: u128,
    pub node_type: NodeType,
    pub inputs: Vec<Port>,
    pub outputs: Vec<Port>,
    pub position: [i32; 2],
}

#[derive(Clone, Debug)]
pub struct Character {
    pub id: u128,
    pub name: String,
    pub color: [u8; 3],
    pub portrait_path: String,
    /// The speech service's voice for this character, if one is assigned.
    pub voice_id: Option<String>,
}

/// An ambient line of a character; `weight` is counted in hundredths.
#[derive(Clone, Debug)]
pub struct BarkLine {
    pub text: String,
    pub weight: u32,
    pub condition_variable: Option<String>,
}

#[derive(Clone, Debug)]
pub struct Variable {
    pub id: u128,
    pub name: String,
    pub var_type: VariableType,
    pub default_value: VariableValue,
}

#[derive(Clone, Copy, Debug, PartialEq, Eq, Structural)]
pub enum EntityCategory {
    Item,
    Location,
    Lore,
    Faction,
    Custom,
}

#[derive(Clone, Debug)]
pub struct EntityProperty {
    pub key: String,
    pub value: String,
}

#[derive(Clone, Debug)]
pub struct WorldEntity {
    pub id: u128,
    pub name: String,
    pub category: EntityCategory,
    pub description: String,
    pub tags: Vec<String>,
    pub properties: Vec<EntityProperty>,
}

/// The whole dialogue: nodes (kept in insertion order), connections and the
/// project data that the exporters read.
pub struct DialogueGraph {
    pub nodes: Vec<Node>,
    pub connections: Vec<Connection>,
    pub variables: Vec<Variable>,
    pub characters: Vec<Character>,
    /// Bark lines per character id.
    pub barks: Vec<(u128, Vec<BarkLine>)>,
    pub locale: LocaleSettings,
    pub world_entities: Vec<WorldEntity>,
    /// Tags per node id.
    pub node_tags: Vec<(u128, Vec<String>)>,
}

// ---------------------------------------------------------------- views

pub struct PortV {
    pub id: u128,
    pub label: Seq<char>,
}

pub enum ValueV {
    Bool(bool),
    Int(i64),
    Float(Seq<char>),
    Text(Seq<char>),
}

pub struct DialogueV {
    pub speaker_id: Option<u128>,
    pub speaker_name: Seq<char>,
    pub text: Seq<char>,
    pub emotion: Seq<char>,
    pub portrait_override: Option<Seq<char>>,
    pub audio_clip: Option<Seq<char>>,
    pub metadata: Seq<(Seq<char>, Seq<char>)>,
}

pub struct CondV {
    pub variable_name: Seq<char>,
    pub operator: CompareOp,
    pub value: ValueV,
}

pub struct OptionV {
    pub text: Seq<char>,
    pub condition: Option<CondV>,
}

pub struct ActionV {
    pub action_type: EventActionType,
    pub key: Seq<char>,
    pub value: ValueV,
}

pub enum KindV {
    Start,
    Dialogue(DialogueV),
    Choice(Seq<char>, Seq<OptionV>),
    Condition(CondV),
    Event(Seq<ActionV>),
    Random(Seq<u32>),
    End(Seq<char>),
    SubGraph(Seq<char>, GraphV),
}

pub struct NodeV {
    pub id: u128,
    pub kind: KindV,
    pub inputs: Seq<PortV>,
    pub outputs: Seq<PortV>,
    pub position: Seq<i32>,
}

pub struct CharacterV {
    pub id: u128,
    pub name: Seq<char>,
    pub color: Seq<u8>,
    pub portrait_path: Seq<char>,
    pub voice_id: Option<Seq<char>>,
}

pub struct BarkV {
    pub text: Seq<char>,
    pub weight: u32,
    pub condition_variable: Option<Seq<char>>,
}

pub struct VariableV {
    pub id: u128,
    pub name: Seq<char>,
    pub var_type: VariableType,
    pub default_value: ValueV,
}

pub struct EntityV {
    pub id: u128,
    pub name: Seq<char>,
    pub category: EntityCategory,
    pub description: Seq<char>,
    pub tags: Seq<Seq<char>>,
    pub properties: Seq<(Seq<char>, Seq<char>)>,
}

pub struct GraphV {
    pub nodes: Seq<NodeV>,
    pub connections: Seq<Connection>,
    pub variables: Seq<VariableV>,
    pub characters: Seq<CharacterV>,
    pub barks: Seq<(u128, Seq<BarkV>)>,
    pub locale: LocaleV,
    pub world_entities: Seq<EntityV>,
    pub node_tags: Seq<(u128, Seq<Seq<char>>)>,
}

pub open spec fn strings_view(s: Seq<String>) -> Seq<Seq<char>> {
    s.map_values(|x: String| x@)
}

pub open spec fn opt_view(o: Option<String>) -> Option<Seq<char>> {
    match o {
        Some(s) => Some(s@),
        None => None,
    }
}

pub open spec fn pairs_view(s: Seq<(String, String)>) -> Seq<(Seq<char>, Seq<char>)> {
    s.map_values(|p: (String, String)| (p.0@, p.1@))
}

pub open spec fn port_view(p: Port) -> PortV {
    PortV { id: p.id, label: p.label@ }
}

pub open spec fn ports_view(s: Seq<Port>) -> Seq<PortV> {
    s.map_values(|p: Port| port_view(p))
}

pub open spec fn value_view(v: VariableValue) -> ValueV {
    match v {
        VariableValue::Bool(b) => ValueV::Bool(b),
        VariableValue::Int(i) => ValueV::Int(i),
        VariableValue::Float(f) => ValueV::Float(f@),
        VariableValue::Text(t) => ValueV::Text(t@),
    }
}

pub open spec fn dialogue_view(d: DialogueData) -> DialogueV {
    DialogueV {
        speaker_id: d.speaker_id,
        speaker_name: d.speaker_name@,
        text: d.text@,
        emotion: d.emotion@,
        portrait_override: opt_view(d.portrait_override),
        audio_clip: opt_view(d.audio_clip),
        metadata: pairs_view(d.metadata@),
    }
}

pub open spec fn cond_view(c: ChoiceCondition) -> CondV {
    CondV { variable_name: c.variable_name@, operator: c.operator, value: value_view(c.value) }
}

pub open spec fn option_view(o: ChoiceOption) -> OptionV {
    OptionV {
        text: o.text@,
        condition: match o.condition {
            Some(c) => Some(cond_view(c)),
            None => None,
        },
    }
}

pub open spec fn action_view(a: EventAction) -> ActionV {
    ActionV { action_type: a.action_type, key: a.key@, value: value_view(a.value) }
}

pub open spec fn graph_view(g: DialogueGraph) -> GraphV
    decreases g, 0int,
{
    GraphV {
        nodes: nodes_view(g.nodes@),
        connections: g.connections@,
        variables: g.variables@.map_values(|v: Variable| variable_view(v)),
        characters: g.characters@.map_values(|c: Character| character_view(c)),
        barks: g.barks@.map_values(|b: (u128, Vec<BarkLine>)| (b.0, barks_view(b.1@))),
        locale: locale_view(g.locale),
        world_entities: g.world_entities@.map_values(|e: WorldEntity| entity_view(e)),
        node_tags: g.node_tags@.map_values(|t: (u128, Vec<String>)| (t.0, strings_view(t.1@))),
    }
}

pub open spec fn nodes_view(s: Seq<Node>) -> Seq<NodeV>
    decreases s, 1int,
{
    if s.len() == 0 {
        seq![]
    } else {
        nodes_view(s.drop_last()).push(node_view(s.last()))
    }
}

pub open spec fn node_view(n: Node) -> NodeV
    decreases n, 2int,
{
    NodeV {
        id: n.id,
        kind: kind_view(n.node_type),
        inputs: ports_view(n.inputs@),
        outputs: ports_view(n.outputs@),
        position: n.position@,
    }
}

pub open spec fn kind_view(t: NodeType) -> KindV
    decreases t, 3int,
{
    match t {
        NodeType::Start => KindV::Start,
        NodeType::Dialogue(d) => KindV::Dialogue(dialogue_view(d)),
        NodeType::Choice(c) => KindV::Choice(
            c.prompt@,
            c.choices@.map_values(|o: ChoiceOption| option_view(o)),
        ),
        NodeType::Condition(c) => KindV::Condition(
            CondV { variable_name: c.variable_name@, operator: c.operator, value: value_view(c.value) },
        ),
        NodeType::Event(e) => KindV::Event(e.actions@.map_values(|a: EventAction| action_view(a))),
        NodeType::Random(r) => KindV::Random(r.branches@.map_values(|b: RandomBranch| b.weight)),
        NodeType::End(e) => KindV::End(e.tag@),
        NodeType::SubGraph(s) => KindV::SubGraph(s.name@, graph_view(s.child_graph)),
    }
}

pub open spec fn character_view(c: Character) -> CharacterV {
    CharacterV { id: c.id, name: c.name@, color: c.color@, portrait_path: c.portrait_path@, voice_id: opt_view(c.voice_id) }
}

pub open spec fn bark_view(b: BarkLine) -> BarkV {
    BarkV { text: b.text@, weight: b.weight, condition_variable: opt_view(b.condition_variable) }
}

pub open spec fn barks_view(s: Seq<BarkLine>) -> Seq<BarkV> {
    s.map_values(|b: BarkLine| bark_view(b))
}

pub open spec fn variable_view(v: Variable) -> VariableV {
    VariableV { id: v.id, name: v.name@, var_type: v.var_type, default_value: value_view(v.default_value) }
}

pub open spec fn entity_view(e: WorldEntity) -> EntityV {
    EntityV {
        id: e.id,
        name: e.name@,
        category: e.category,
        description: e.description@,
        tags: strings_view(e.tags@),
        properties: e.properties@.map_values(|p: EntityProperty| (p.key@, p.value@)),
    }
}

/// The view of a node list holds the views of its nodes, in order.
pub proof fn lemma_nodes_view(s: Seq<Node>)
    ensures
        nodes_view(s).len() == s.len(),
        forall|i: int| 0 <= i < s.len() ==> #[trigger] nodes_view(s)[i] == node_view(s[i]),
    decreases s.len(),
{
    if s.len() > 0 {
        lemma_nodes_view(s.drop_last());
    }
}

/// A wire as values: from node, from port, to node, to port.
pub type Wire = (u128, u128, u128, u128);

pub open spec fn wire(c: Connection) -> Wire {
    (c.from_node, c.from_port, c.to_node, c.to_port)
}

/// The wires of connections, without their identifiers.
pub open spec fn wires_of(cs: Seq<Connection>) -> Seq<Wire> {
    cs.map_values(|c: Connection| wire(c))
}

} // verus!
