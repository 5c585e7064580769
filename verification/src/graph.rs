//! Building and editing graphs: node constructors, adding and removing nodes,
//! wiring connections, characters, bark lines and node tags.

use vstd::prelude::*;
use crate::ident::fresh_id;
use crate::locale::LocaleSettings;
use crate::model::{
    BarkLine, Character, ChoiceData, ChoiceOption, CompareOp, ConditionData, Connection,
    DialogueData, DialogueGraph, EndData, EventData, Node, NodeType, Port, RandomBranch,
    RandomData, SubGraphData, VariableValue,
};

verus! {

/// `i` is the first position in `s` of a node with identifier `id`.
pub open spec fn is_first_node(s: Seq<Node>, id: u128, i: int) -> bool {
    &&& 0 <= i < s.len()
    &&& s[i].id == id
    &&& forall|j: int| 0 <= j < i ==> s[j].id != id
}

/// Keeps the nodes whose identifier differs from `id`.
pub open spec fn other_node(id: u128) -> spec_fn(Node) -> bool {
    |n: Node| n.id != id
}

/// Keeps the connections that neither start nor end at node `id`.
pub open spec fn untouched_by(id: u128) -> spec_fn(Connection) -> bool {
    |c: Connection| c.from_node != id && c.to_node != id
}

/// Some connection already wires output port `from_port` to input port `to_port`.
pub open spec fn already_wired(cs: Seq<Connection>, from_port: u128, to_port: u128) -> bool {
    exists|j: int| 0 <= j < cs.len() && cs[j].from_port == from_port && cs[j].to_port == to_port
}

/// Some node of `s` has identifier `id`.
pub open spec fn has_node(s: Seq<Node>, id: u128) -> bool {
    exists|i: int| 0 <= i < s.len() && s[i].id == id
}

/// The position of the first node with identifier `id`, if any.
pub fn find_node(nodes: &Vec<Node>, id: u128) -> (r: Option<usize>)
    ensures
        match r {
            Some(i) => is_first_node(nodes@, id, i as int),
            None => !has_node(nodes@, id),
        },
{
    let mut i: usize = 0;
    while i < nodes.len()
        invariant
            i <= nodes.len(),
            forall|j: int| 0 <= j < i ==> nodes@[j].id != id,
        decreases nodes.len() - i,
    {
        if nodes[i].id == id {
            return Some(i);
        }
        i = i + 1;
    }
    None
}

fn new_port(label: &str) -> (p: Port)
    ensures
        p.label@ == label@,
{
    Port { id: fresh_id(), label: crate::text::owned(label) }
}

/// Ports of a node that has one input and one output.
pub open spec fn one_in_one_out(n: Node) -> bool {
    n.inputs.len() == 1 && n.outputs.len() == 1
}

impl Node {
    /// The entry node of a graph: no input, one output.
    pub fn new_start(position: [i32; 2]) -> (n: Node)
        ensures
            n.node_type is Start,
            n.position == position,
            n.inputs.len() == 0,
            n.outputs.len() == 1,
    {
        let mut outputs: Vec<Port> = Vec::new();
        outputs.push(new_port(""));
        Node { id: fresh_id(), node_type: NodeType::Start, inputs: Vec::new(), outputs, position }
    }

    /// A line of dialogue with no speaker and the "neutral" emotion.
    pub fn new_dialogue(position: [i32; 2]) -> (n: Node)
        ensures
            n.position == position,
            one_in_one_out(n),
            n.node_type matches NodeType::Dialogue(d) && d.speaker_id is None
                && d.speaker_name@ == Seq::<char>::empty() && d.text@ == Seq::<char>::empty()
                && d.emotion@ == "neutral"@ && d.portrait_override is None && d.audio_clip is None
                && d.metadata@.len() == 0,
    {
        let mut inputs: Vec<Port> = Vec::new();
        inputs.push(new_port(""));
        let mut outputs: Vec<Port> = Vec::new();
        outputs.push(new_port(""));
        let data = DialogueData {
            speaker_id: None,
            speaker_name: String::new(),
            text: String::new(),
            emotion: crate::text::owned("neutral"),
            portrait_override: None,
            audio_clip: None,
            metadata: Vec::new(),
        };
        Node { id: fresh_id(), node_type: NodeType::Dialogue(data), inputs, outputs, position }
    }

    /// A player choice with an empty prompt and the options "Option 1" and
    /// "Option 2", each with its own output port labelled like the option.
    pub fn new_choice(position: [i32; 2]) -> (n: Node)
        ensures
            n.position == position,
            n.inputs.len() == 1,
            n.outputs.len() == 2,
            n.outputs@[0].label@ == "Option 1"@,
            n.outputs@[1].label@ == "Option 2"@,
            n.node_type matches NodeType::Choice(c) && c.prompt@ == Seq::<char>::empty()
                && c.choices.len() == 2
                && c.choices@[0].text@ == "Option 1"@ && c.choices@[0].condition is None
                && c.choices@[1].text@ == "Option 2"@ && c.choices@[1].condition is None,
    {
        let mut inputs: Vec<Port> = Vec::new();
        inputs.push(new_port(""));
        let mut outputs: Vec<Port> = Vec::new();
        outputs.push(new_port("Option 1"));
        outputs.push(new_port("Option 2"));
        let mut choices: Vec<ChoiceOption> = Vec::new();
        choices.push(ChoiceOption { text: crate::text::owned("Option 1"), condition: None });
        choices.push(ChoiceOption { text: crate::text::owned("Option 2"), condition: None });
        let data = ChoiceData { prompt: String::new(), choices };
        Node { id: fresh_id(), node_type: NodeType::Choice(data), inputs, outputs, position }
    }

    /// A branch on a variable: outputs "True" and "False"; the test is
    /// `<empty name> == true` until edited.
    pub fn new_condition(position: [i32; 2]) -> (n: Node)
        ensures
            n.position == position,
            n.inputs.len() == 1,
            n.outputs.len() == 2,
            n.outputs@[0].label@ == "True"@,
            n.outputs@[1].label@ == "False"@,
            n.node_type matches NodeType::Condition(c) && c.variable_name@ == Seq::<char>::empty()
                && c.operator == CompareOp::Eq && c.value == VariableValue::Bool(true),
    {
        let mut inputs: Vec<Port> = Vec::new();
        inputs.push(new_port(""));
        let mut outputs: Vec<Port> = Vec::new();
        outputs.push(new_port("True"));
        outputs.push(new_port("False"));
        let data = ConditionData {
            variable_name: String::new(),
            operator: CompareOp::Eq,
            value: VariableValue::Bool(true),
        };
        Node { id: fresh_id(), node_type: NodeType::Condition(data), inputs, outputs, position }
    }

    /// An event node with no actions.
    pub fn new_event(position: [i32; 2]) -> (n: Node)
        ensures
            n.position == position,
            one_in_one_out(n),
            n.node_type matches NodeType::Event(e) && e.actions.len() == 0,
    {
        let mut inputs: Vec<Port> = Vec::new();
        inputs.push(new_port(""));
        let mut outputs: Vec<Port> = Vec::new();
        outputs.push(new_port(""));
        Node {
            id: fresh_id(),
            node_type: NodeType::Event(EventData { actions: Vec::new() }),
            inputs,
            outputs,
            position,
        }
    }

    /// A random branch node with two branches of weight 0.5 (50 hundredths).
    pub fn new_random(position: [i32; 2]) -> (n: Node)
        ensures
            n.position == position,
            n.inputs.len() == 1,
            n.outputs.len() == 2,
            n.node_type matches NodeType::Random(r) && r.branches.len() == 2
                && r.branches@[0].weight == 50 && r.branches@[1].weight == 50,
    {
        let mut inputs: Vec<Port> = Vec::new();
        inputs.push(new_port(""));
        let mut outputs: Vec<Port> = Vec::new();
        outputs.push(new_port(""));
        outputs.push(new_port(""));
        let mut branches: Vec<RandomBranch> = Vec::new();
        branches.push(RandomBranch { weight: 50 });
        branches.push(RandomBranch { weight: 50 });
        Node {
            id: fresh_id(),
            node_type: NodeType::Random(RandomData { branches }),
            inputs,
            outputs,
            position,
        }
    }

    /// An end node with an empty tag: one input, no output.
    pub fn new_end(position: [i32; 2]) -> (n: Node)
        ensures
            n.position == position,
            n.inputs.len() == 1,
            n.outputs.len() == 0,
            n.node_type matches NodeType::End(e) && e.tag@ == Seq::<char>::empty(),
    {
        let mut inputs: Vec<Port> = Vec::new();
        inputs.push(new_port(""));
        Node {
            id: fresh_id(),
            node_type: NodeType::End(EndData { tag: String::new() }),
            inputs,
            outputs: Vec::new(),
            position,
        }
    }

    /// A sub-graph node whose child graph holds a single Start node.
    pub fn new_subgraph(position: [i32; 2]) -> (n: Node)
        ensures
            n.position == position,
            one_in_one_out(n),
            n.node_type matches NodeType::SubGraph(s) && s.name@ == Seq::<char>::empty()
                && s.child_graph.nodes.len() == 1 && s.child_graph.nodes@[0].node_type is Start
                && s.child_graph.nodes@[0].outputs.len() == 1
                && s.child_graph.connections.len() == 0,
    {
        let mut child = DialogueGraph::new();
        child.add_node(Node::new_start([0i32, 0i32]));
        let mut inputs: Vec<Port> = Vec::new();
        inputs.push(new_port(""));
        let mut outputs: Vec<Port> = Vec::new();
        outputs.push(new_port(""));
        Node {
            id: fresh_id(),
            node_type: NodeType::SubGraph(SubGraphData { name: String::new(), child_graph: child }),
            inputs,
            outputs,
            position,
        }
    }
}

/// The label of the option added as the `n`-th one.
pub open spec fn option_label(n: nat) -> Seq<char> {
    "Option "@ + crate::text::decimal(n)
}

impl Node {
    /// Adds an option to a choice node: its text is "Option n" (n counting
    /// the options), and it gets an output port with the same label, whose
    /// identifier is returned. Other nodes are left alone.
    pub fn add_choice(&mut self) -> (port: Option<u128>)
        requires
            old(self).node_type matches NodeType::Choice(c) ==> c.choices.len() < u64::MAX,
        ensures
            !(old(self).node_type is Choice) ==> port is None && *final(self) == *old(self),
            old(self).node_type matches NodeType::Choice(c) ==> {
                &&& port is Some
                &&& final(self).node_type matches NodeType::Choice(c2) && c2.prompt == c.prompt
                    && c2.choices@.drop_last() == c.choices@ && c2.choices@.len() == c.choices@.len() + 1
                    && c2.choices@.last().text@ == option_label((c.choices@.len() + 1) as nat)
                    && c2.choices@.last().condition is None
                &&& final(self).outputs@.drop_last() == old(self).outputs@
                &&& final(self).outputs@.len() == old(self).outputs@.len() + 1
                &&& final(self).outputs@.last().id == port.unwrap()
                &&& final(self).outputs@.last().label@ == option_label((c.choices@.len() + 1) as nat)
                &&& final(self).id == old(self).id
                &&& final(self).inputs == old(self).inputs
                &&& final(self).position == old(self).position
            },
    {
        match &mut self.node_type {
            NodeType::Choice(c) => {
                let mut label = crate::text::owned("Option ");
                crate::text::push_decimal(&mut label, (c.choices.len() as u64) + 1);
                let mut label2 = crate::text::owned("Option ");
                crate::text::push_decimal(&mut label2, (c.choices.len() as u64) + 1);
                c.choices.push(ChoiceOption { text: label, condition: None });
                let id = fresh_id();
                self.outputs.push(Port { id, label: label2 });
                Some(id)
            },
            _ => None,
        }
    }

    /// Sets the text of option `i` of a choice node (its port keeps its label).
    pub fn set_choice_text(&mut self, i: usize, text: &str)
        ensures
            old(self).node_type matches NodeType::Choice(c) ==> (i < c.choices.len() ==> {
                &&& final(self).node_type matches NodeType::Choice(c2) && c2.prompt == c.prompt
                    && c2.choices@.len() == c.choices@.len()
                    && c2.choices@[i as int].text@ == text@
                    && c2.choices@[i as int].condition == c.choices@[i as int].condition
                    && forall|j: int| 0 <= j < c.choices@.len() && j != i ==> c2.choices@[j] == c.choices@[j]
                &&& final(self).id == old(self).id
                &&& final(self).inputs == old(self).inputs
                &&& final(self).outputs == old(self).outputs
                &&& final(self).position == old(self).position
            }),
            old(self).node_type matches NodeType::Choice(c) ==> (i >= c.choices.len() ==> *final(self) == *old(self)),
            !(old(self).node_type is Choice) ==> *final(self) == *old(self),
    {
        match &mut self.node_type {
            NodeType::Choice(c) => {
                if i < c.choices.len() {
                    let mut o = c.choices.remove(i);
                    o.text = crate::text::owned(text);
                    c.choices.insert(i, o);
                }
            },
            _ => {},
        }
    }
}

impl Character {
    /// A character with the given name, a light grey colour and no portrait.
    pub fn new(name: &str) -> (c: Character)
        ensures
            c.name@ == name@,
            c.color@ == seq![200u8, 200u8, 200u8],
            c.portrait_path@ == Seq::<char>::empty(),
            c.voice_id is None,
    {
        let c = Character {
            id: fresh_id(),
            name: crate::text::owned(name),
            color: [200u8, 200u8, 200u8],
            portrait_path: String::new(),
            voice_id: None,
        };
        assert(c.color@ =~= seq![200u8, 200u8, 200u8]);
        c
    }
}

impl BarkLine {
    /// A bark line of weight 1.00 (100 hundredths) without a condition.
    pub fn new(text: &str) -> (b: BarkLine)
        ensures
            b.text@ == text@,
            b.weight == 100,
            b.condition_variable is None,
    {
        BarkLine { text: crate::text::owned(text), weight: 100, condition_variable: None }
    }
}

impl DialogueGraph {
    /// An empty graph whose locale settings hold only the default locale "en".
    pub fn new() -> (g: DialogueGraph)
        ensures
            g.nodes.len() == 0,
            g.connections.len() == 0,
            g.variables.len() == 0,
            g.characters.len() == 0,
            g.barks.len() == 0,
            g.world_entities.len() == 0,
            g.node_tags.len() == 0,
            g.locale.default_locale@ == "en"@,
            g.locale.extra_locales.len() == 0,
            g.locale.translations.len() == 0,
    {
        DialogueGraph {
            nodes: Vec::new(),
            connections: Vec::new(),
            variables: Vec::new(),
            characters: Vec::new(),
            barks: Vec::new(),
            locale: LocaleSettings::new(),
            world_entities: Vec::new(),
            node_tags: Vec::new(),
        }
    }

    /// The graph of a new project: one Start node at (100, 200) and nothing
    /// else.
    pub fn new_project() -> (g: DialogueGraph)
        ensures
            g.nodes.len() == 1,
            g.nodes@[0].node_type is Start,
            g.nodes@[0].position == [100i32, 200i32],
            g.nodes@[0].inputs.len() == 0,
            g.nodes@[0].outputs.len() == 1,
            g.connections.len() == 0,
            g.variables.len() == 0,
            g.characters.len() == 0,
            g.barks.len() == 0,
            g.world_entities.len() == 0,
            g.node_tags.len() == 0,
            g.locale.default_locale@ == "en"@,
            g.locale.extra_locales.len() == 0,
            g.locale.translations.len() == 0,
    {
        let mut g = DialogueGraph::new();
        g.add_node(Node::new_start([100, 200]));
        assert(!has_node(Seq::<Node>::empty(), g.nodes@[0].id));
        g
    }

    /// Inserts a node: it takes the place of the node with the same identifier,
    /// or is appended when there is none.
    pub fn add_node(&mut self, node: Node)
        ensures
            forall|i: int| is_first_node(old(self).nodes@, node.id, i)
                ==> final(self).nodes@ == old(self).nodes@.update(i, node),
            !has_node(old(self).nodes@, node.id) ==> final(self).nodes@ == old(self).nodes@.push(node),
            final(self).connections == old(self).connections,
            final(self).variables == old(self).variables,
            final(self).characters == old(self).characters,
            final(self).barks == old(self).barks,
            final(self).locale == old(self).locale,
            final(self).world_entities == old(self).world_entities,
            final(self).node_tags == old(self).node_tags,
    {
        match find_node(&self.nodes, node.id) {
            Some(i) => {
                self.nodes.set(i, node);
            },
            None => {
                self.nodes.push(node);
            },
        }
    }

    /// Wires an output port of one node to an input port of another: refused
    /// (returning `false`) when both ends are on the same node or when the same
    /// two ports are already wired; otherwise the new connection gets a fresh
    /// identifier and is appended.
    pub fn add_connection(&mut self, from_node: u128, from_port: u128, to_node: u128, to_port: u128) -> (added: bool)
        ensures
            added == !(from_node == to_node || already_wired(old(self).connections@, from_port, to_port)),
            !added ==> final(self).connections == old(self).connections,
            added ==> final(self).connections@.len() == old(self).connections@.len() + 1,
            added ==> final(self).connections@.drop_last() == old(self).connections@,
            added ==> final(self).connections@.last().from_node == from_node,
            added ==> final(self).connections@.last().from_port == from_port,
            added ==> final(self).connections@.last().to_node == to_node,
            added ==> final(self).connections@.last().to_port == to_port,
            final(self).nodes == old(self).nodes,
            final(self).variables == old(self).variables,
            final(self).characters == old(self).characters,
            final(self).barks == old(self).barks,
            final(self).locale == old(self).locale,
            final(self).world_entities == old(self).world_entities,
            final(self).node_tags == old(self).node_tags,
    {
        if from_node == to_node {
            return false;
        }
        let mut i: usize = 0;
        while i < self.connections.len()
            invariant
                i <= self.connections.len(),
                self.connections == old(self).connections,
                forall|j: int| 0 <= j < i ==> !(#[trigger] self.connections@[j].from_port == from_port
                    && self.connections@[j].to_port == to_port),
            decreases self.connections.len() - i,
        {
            if self.connections[i].from_port == from_port && self.connections[i].to_port == to_port {
                return false;
            }
            i = i + 1;
        }
        let c = Connection { id: fresh_id(), from_node, from_port, to_node, to_port };
        self.connections.push(c);
        assert(self.connections@.drop_last() =~= old(self).connections@);
        true
    }

    /// Removes every node with the given identifier and every connection that
    /// starts or ends at it.
    pub fn remove_node(&mut self, id: u128)
        ensures
            final(self).nodes@ == old(self).nodes@.filter(other_node(id)),
            final(self).connections@ == old(self).connections@.filter(untouched_by(id)),
            final(self).variables == old(self).variables,
            final(self).characters == old(self).characters,
            final(self).barks == old(self).barks,
            final(self).locale == old(self).locale,
            final(self).world_entities == old(self).world_entities,
            final(self).node_tags == old(self).node_tags,
    {
        let mut rest: Vec<Node> = Vec::new();
        std::mem::swap(&mut rest, &mut self.nodes);
        let total = rest.len();
        let ghost all = rest@;
        let mut kept: Vec<Node> = Vec::new();
        let mut k: usize = 0;
        reveal(Seq::filter);
        assert(all.subrange(0, 0) =~= Seq::<Node>::empty());
        while rest.len() > 0
            invariant
                k + rest@.len() == all.len(),
                all.len() == total,
                rest@ == all.subrange(k as int, all.len() as int),
                kept@ == all.subrange(0, k as int).filter(other_node(id)),
            decreases rest.len(),
        {
            let n = rest.remove(0);
            proof {
                assert(n == all[k as int]);
                assert(all.subrange(0, k + 1) =~= all.subrange(0, k as int).push(n));
                all.subrange(0, k as int).lemma_filter_push(n, other_node(id));
            }
            let ghost before = kept@;
            if n.id != id {
                kept.push(n);
                assert(kept@ == before.push(n));
            }
            assert(kept@ == all.subrange(0, k + 1).filter(other_node(id)));
            k = k + 1;
            proof {
                assert(rest@ =~= all.subrange(k as int, all.len() as int));
            }
        }
        assert(all.subrange(0, all.len() as int) =~= all);
        self.nodes = kept;
        let mut conns: Vec<Connection> = Vec::new();
        let mut j: usize = 0;
        assert(self.connections@.subrange(0, 0) =~= Seq::<Connection>::empty());
        while j < self.connections.len()
            invariant
                j <= self.connections.len(),
                self.connections == old(self).connections,
                conns@ == self.connections@.subrange(0, j as int).filter(untouched_by(id)),
            decreases self.connections.len() - j,
        {
            let c = self.connections[j];
            proof {
                assert(self.connections@.subrange(0, j + 1) =~= self.connections@.subrange(0, j as int).push(c));
                self.connections@.subrange(0, j as int).lemma_filter_push(c, untouched_by(id));
            }
            let ghost before = conns@;
            if c.from_node != id && c.to_node != id {
                conns.push(c);
            }

            j = j + 1;
        }
        assert(self.connections@.subrange(0, self.connections@.len() as int) =~= self.connections@);
        self.connections = conns;
    }
}

} // verus!
