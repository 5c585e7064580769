//! Node templates: reusable groups of nodes with their internal wiring, and
//! the three templates that ship with the editor.

use vstd::prelude::*;
use crate::ident::fresh_id;
use crate::model::{
    ChoiceData, ChoiceOption, CompareOp, ConditionData, Connection, DialogueData, EventAction, EventActionType,
    EventData, Node, NodeType, NodeV, VariableValue, nodes_view,
};
use crate::text::str_eq;

verus! {

/// A named group of nodes and the connections between them.
pub struct NodeTemplate {
    pub id: u128,
    pub name: String,
    pub description: String,
    pub is_builtin: bool,
    pub nodes: Vec<Node>,
    pub connections: Vec<Connection>,
}

/// `n` is a dialogue line of `speaker` saying `text`, with the defaults of a new line otherwise.
pub open spec fn says(n: Node, speaker: Seq<char>, text: Seq<char>) -> bool {
    &&& n.inputs.len() == 1
    &&& n.outputs.len() == 1
    &&& n.node_type matches NodeType::Dialogue(d) && d.speaker_id is None && d.speaker_name@ == speaker
        && d.text@ == text && d.emotion@ == "neutral"@ && d.portrait_override is None && d.audio_clip is None
        && d.metadata@.len() == 0
}

/// `c` wires output `k` of `a` to the input of `b`.
pub open spec fn wires(c: Connection, a: Node, k: int, b: Node) -> bool {
    &&& 0 <= k < a.outputs.len()
    &&& b.inputs.len() > 0
    &&& c.from_node == a.id
    &&& c.from_port == a.outputs@[k].id
    &&& c.to_node == b.id
    &&& c.to_port == b.inputs@[0].id
}

pub open spec fn at(n: Node, x: i32, y: i32) -> bool {
    n.position@ == seq![x, y]
}

pub open spec fn is_end(n: Node) -> bool {
    n.inputs.len() == 1 && (n.node_type matches NodeType::End(e) && e.tag@ == Seq::<char>::empty())
}

pub open spec fn is_start(n: Node) -> bool {
    n.node_type is Start && n.outputs.len() == 1
}

/// A choice node with prompt `prompt` and the options `texts`, each with its own output.
pub open spec fn asks(n: Node, prompt: Seq<char>, texts: Seq<Seq<char>>) -> bool {
    &&& n.inputs.len() == 1
    &&& n.outputs.len() == texts.len()
    &&& n.node_type matches NodeType::Choice(c) && c.prompt@ == prompt && c.choices.len() == texts.len()
        && forall|i: int| 0 <= i < texts.len() ==> #[trigger] c.choices@[i].text@ == texts[i] && c.choices@[i].condition is None
}

fn line(position: [i32; 2], speaker: &str, text: &str) -> (n: Node)
    ensures
        says(n, speaker@, text@),
        n.position == position,
{
    let mut n = Node::new_dialogue(position);
    n.node_type = NodeType::Dialogue(DialogueData {
        speaker_id: None,
        speaker_name: crate::text::owned(speaker),
        text: crate::text::owned(text),
        emotion: crate::text::owned("neutral"),
        portrait_override: None,
        audio_clip: None,
        metadata: Vec::new(),
    });
    n
}

fn wire(a: &Node, k: usize, b: &Node) -> (c: Connection)
    requires
        k < a.outputs.len(),
        b.inputs.len() > 0,
    ensures
        wires(c, *a, k as int, *b),
{
    Connection { id: fresh_id(), from_node: a.id, from_port: a.outputs[k].id, to_node: b.id, to_port: b.inputs[0].id }
}

fn question(position: [i32; 2], prompt: &str, first: &str, second: &str) -> (n: Node)
    ensures
        asks(n, prompt@, seq![first@, second@]),
        n.position == position,
{
    let mut n = Node::new_choice(position);
    let mut choices: Vec<ChoiceOption> = Vec::new();
    choices.push(ChoiceOption { text: crate::text::owned(first), condition: None });
    choices.push(ChoiceOption { text: crate::text::owned(second), condition: None });
    n.node_type = NodeType::Choice(ChoiceData { prompt: crate::text::owned(prompt), choices });
    assert(n.outputs.len() == 2);
    n
}

/// The "Guard Check" template: a start, a condition on `has_pass`, the guard's
/// two answers and an end after each.
pub open spec fn guard_check_shape(t: NodeTemplate) -> bool {
    &&& t.name@ == "Guard Check"@
    &&& t.description@ == "Condition check with pass/fail dialogue"@
    &&& t.is_builtin
    &&& t.nodes.len() == 6
    &&& is_start(t.nodes@[0]) && at(t.nodes@[0], 0, 100)
    &&& t.nodes@[1].node_type matches NodeType::Condition(c) && c.variable_name@ == "has_pass"@
        && c.operator == CompareOp::Eq && c.value == VariableValue::Bool(true)
    &&& t.nodes@[1].inputs.len() == 1 && t.nodes@[1].outputs.len() == 2 && at(t.nodes@[1], 200, 100)
    &&& says(t.nodes@[2], "Guard"@, "You may pass."@) && at(t.nodes@[2], 450, 0)
    &&& says(t.nodes@[3], "Guard"@, "Halt! You shall not pass!"@) && at(t.nodes@[3], 450, 200)
    &&& is_end(t.nodes@[4]) && at(t.nodes@[4], 700, 0)
    &&& is_end(t.nodes@[5]) && at(t.nodes@[5], 700, 200)
    &&& t.connections.len() == 5
    &&& wires(t.connections@[0], t.nodes@[0], 0, t.nodes@[1])
    &&& wires(t.connections@[1], t.nodes@[1], 0, t.nodes@[2])
    &&& wires(t.connections@[2], t.nodes@[1], 1, t.nodes@[3])
    &&& wires(t.connections@[3], t.nodes@[2], 0, t.nodes@[4])
    &&& wires(t.connections@[4], t.nodes@[3], 0, t.nodes@[5])
}

/// The "Guard Check" template (see `guard_check_shape`).
pub fn builtin_guard_check() -> (t: NodeTemplate)
    ensures
        guard_check_shape(t),
{
    let start = Node::new_start([0, 100]);
    let mut cond = Node::new_condition([200, 100]);
    cond.node_type = NodeType::Condition(ConditionData {
        variable_name: crate::text::owned("has_pass"),
        operator: CompareOp::Eq,
        value: VariableValue::Bool(true),
    });
    let dlg_pass = line([450, 0], "Guard", "You may pass.");
    let dlg_halt = line([450, 200], "Guard", "Halt! You shall not pass!");
    let end_pass = Node::new_end([700, 0]);
    let end_halt = Node::new_end([700, 200]);
    let mut connections: Vec<Connection> = Vec::new();
    connections.push(wire(&start, 0, &cond));
    connections.push(wire(&cond, 0, &dlg_pass));
    connections.push(wire(&cond, 1, &dlg_halt));
    connections.push(wire(&dlg_pass, 0, &end_pass));
    connections.push(wire(&dlg_halt, 0, &end_halt));
    let mut nodes: Vec<Node> = Vec::new();
    nodes.push(start);
    nodes.push(cond);
    nodes.push(dlg_pass);
    nodes.push(dlg_halt);
    nodes.push(end_pass);
    nodes.push(end_halt);
    NodeTemplate {
        id: fresh_id(),
        name: crate::text::owned("Guard Check"),
        description: crate::text::owned("Condition check with pass/fail dialogue"),
        is_builtin: true,
        nodes,
        connections,
    }
}

/// The "Shop Encounter" template: a start, the shopkeeper's greeting, a choice
/// between "Buy", "Sell" and "Leave", and an end after each option.
pub open spec fn shop_encounter_shape(t: NodeTemplate) -> bool {
    &&& t.name@ == "Shop Encounter"@
    &&& t.description@ == "Shopkeeper with buy/sell/leave choices"@
    &&& t.is_builtin
    &&& t.nodes.len() == 6
    &&& is_start(t.nodes@[0]) && at(t.nodes@[0], 0, 100)
    &&& says(t.nodes@[1], "Shopkeeper"@, "Welcome to my shop! What can I do for you?"@) && at(t.nodes@[1], 200, 100)
    &&& asks(t.nodes@[2], "What would you like to do?"@, seq!["Buy"@, "Sell"@, "Leave"@]) && at(t.nodes@[2], 450, 100)
    &&& is_end(t.nodes@[3]) && at(t.nodes@[3], 700, 0)
    &&& is_end(t.nodes@[4]) && at(t.nodes@[4], 700, 100)
    &&& is_end(t.nodes@[5]) && at(t.nodes@[5], 700, 200)
    &&& t.connections.len() == 5
    &&& wires(t.connections@[0], t.nodes@[0], 0, t.nodes@[1])
    &&& wires(t.connections@[1], t.nodes@[1], 0, t.nodes@[2])
    &&& wires(t.connections@[2], t.nodes@[2], 0, t.nodes@[3])
    &&& wires(t.connections@[3], t.nodes@[2], 1, t.nodes@[4])
    &&& wires(t.connections@[4], t.nodes@[2], 2, t.nodes@[5])
}

/// The "Shop Encounter" template (see `shop_encounter_shape`).
pub fn builtin_shop_encounter() -> (t: NodeTemplate)
    ensures
        shop_encounter_shape(t),
{
    let start = Node::new_start([0, 100]);
    let dlg = line([200, 100], "Shopkeeper", "Welcome to my shop! What can I do for you?");
    let mut choice = question([450, 100], "What would you like to do?", "Buy", "Sell");
    let end_buy = Node::new_end([700, 0]);
    let end_sell = Node::new_end([700, 100]);
    let end_leave = Node::new_end([700, 200]);
    let ghost q = choice.node_type;
    proof {
        if let NodeType::Choice(c) = q {
            assert(c.choices@[0].text@ == "Buy"@);
            assert(c.choices@[1].text@ == "Sell"@);
        }
    }
    let _leave_port = choice.add_choice();
    let ghost a = choice.node_type;
    proof {
        if let (NodeType::Choice(c), NodeType::Choice(c2)) = (q, a) {
            assert(c2.choices@[0] == c2.choices@.drop_last()[0]);
            assert(c2.choices@[1] == c2.choices@.drop_last()[1]);
            assert(c2.choices@[0].text@ == "Buy"@);
            assert(c2.choices@[1].text@ == "Sell"@);
        }
    }
    choice.set_choice_text(2, "Leave");
    let ghost z = choice.node_type;
    proof {
        if let (NodeType::Choice(c2), NodeType::Choice(c3)) = (a, z) {
            assert(c3.choices@[0] == c2.choices@[0]);
            assert(c3.choices@[1] == c2.choices@[1]);
            assert(c3.choices@[0].text@ == "Buy"@);
            assert(c3.choices@[1].text@ == "Sell"@);
            assert(c3.choices@[2].text@ == "Leave"@);
        }
    }
    let mut connections: Vec<Connection> = Vec::new();
    connections.push(wire(&start, 0, &dlg));
    connections.push(wire(&dlg, 0, &choice));
    connections.push(wire(&choice, 0, &end_buy));
    connections.push(wire(&choice, 1, &end_sell));
    connections.push(wire(&choice, 2, &end_leave));
    let mut nodes: Vec<Node> = Vec::new();
    nodes.push(start);
    nodes.push(dlg);
    nodes.push(choice);
    nodes.push(end_buy);
    nodes.push(end_sell);
    nodes.push(end_leave);
    NodeTemplate {
        id: fresh_id(),
        name: crate::text::owned("Shop Encounter"),
        description: crate::text::owned("Shopkeeper with buy/sell/leave choices"),
        is_builtin: true,
        nodes,
        connections,
    }
}

/// The "Quest Giver" template: a start, the offer, a choice between "Accept"
/// and "Decline", an event that sets `quest_active` to true after accepting, a
/// parting line after declining, and an end after each.
pub open spec fn quest_giver_shape(t: NodeTemplate) -> bool {
    &&& t.name@ == "Quest Giver"@
    &&& t.description@ == "NPC quest offer with accept/decline"@
    &&& t.is_builtin
    &&& t.nodes.len() == 7
    &&& is_start(t.nodes@[0]) && at(t.nodes@[0], 0, 100)
    &&& says(t.nodes@[1], "Quest Giver"@, "I need your help with something..."@) && at(t.nodes@[1], 200, 100)
    &&& asks(t.nodes@[2], "Will you help?"@, seq!["Accept"@, "Decline"@]) && at(t.nodes@[2], 450, 100)
    &&& t.nodes@[3].inputs.len() == 1 && t.nodes@[3].outputs.len() == 1 && at(t.nodes@[3], 700, 0)
    &&& t.nodes@[3].node_type matches NodeType::Event(e) && e.actions.len() == 1
        && e.actions@[0].action_type == EventActionType::SetVariable && e.actions@[0].key@ == "quest_active"@
        && e.actions@[0].value == VariableValue::Bool(true)
    &&& says(t.nodes@[4], "Quest Giver"@, "Maybe another time, then."@) && at(t.nodes@[4], 700, 200)
    &&& is_end(t.nodes@[5]) && at(t.nodes@[5], 950, 0)
    &&& is_end(t.nodes@[6]) && at(t.nodes@[6], 950, 200)
    &&& t.connections.len() == 6
    &&& wires(t.connections@[0], t.nodes@[0], 0, t.nodes@[1])
    &&& wires(t.connections@[1], t.nodes@[1], 0, t.nodes@[2])
    &&& wires(t.connections@[2], t.nodes@[2], 0, t.nodes@[3])
    &&& wires(t.connections@[3], t.nodes@[2], 1, t.nodes@[4])
    &&& wires(t.connections@[4], t.nodes@[3], 0, t.nodes@[5])
    &&& wires(t.connections@[5], t.nodes@[4], 0, t.nodes@[6])
}

/// The "Quest Giver" template (see `quest_giver_shape`).
pub fn builtin_quest_giver() -> (t: NodeTemplate)
    ensures
        quest_giver_shape(t),
{
    let start = Node::new_start([0, 100]);
    let dlg = line([200, 100], "Quest Giver", "I need your help with something...");
    let choice = question([450, 100], "Will you help?", "Accept", "Decline");
    let mut evt = Node::new_event([700, 0]);
    let mut actions: Vec<EventAction> = Vec::new();
    actions.push(EventAction {
        action_type: EventActionType::SetVariable,
        key: crate::text::owned("quest_active"),
        value: VariableValue::Bool(true),
    });
    evt.node_type = NodeType::Event(EventData { actions });
    let dlg_decline = line([700, 200], "Quest Giver", "Maybe another time, then.");
    let end_accept = Node::new_end([950, 0]);
    let end_decline = Node::new_end([950, 200]);
    let mut connections: Vec<Connection> = Vec::new();
    connections.push(wire(&start, 0, &dlg));
    connections.push(wire(&dlg, 0, &choice));
    connections.push(wire(&choice, 0, &evt));
    connections.push(wire(&choice, 1, &dlg_decline));
    connections.push(wire(&evt, 0, &end_accept));
    connections.push(wire(&dlg_decline, 0, &end_decline));
    let mut nodes: Vec<Node> = Vec::new();
    nodes.push(start);
    nodes.push(dlg);
    nodes.push(choice);
    nodes.push(evt);
    nodes.push(dlg_decline);
    nodes.push(end_accept);
    nodes.push(end_decline);
    NodeTemplate {
        id: fresh_id(),
        name: crate::text::owned("Quest Giver"),
        description: crate::text::owned("NPC quest offer with accept/decline"),
        is_builtin: true,
        nodes,
        connections,
    }
}

/// The templates that ship with the editor: "Guard Check", "Shop Encounter"
/// and "Quest Giver", in that order.
pub fn builtin_templates() -> (r: Vec<NodeTemplate>)
    ensures
        r.len() == 3,
        guard_check_shape(r@[0]),
        shop_encounter_shape(r@[1]),
        quest_giver_shape(r@[2]),
{
    let mut r: Vec<NodeTemplate> = Vec::new();
    r.push(builtin_guard_check());
    r.push(builtin_shop_encounter());
    r.push(builtin_quest_giver());
    r
}

// ------------------------------------------------------------ library

/// The templates a user keeps, the shipped ones among them.
pub struct TemplateLibrary {
    pub templates: Vec<NodeTemplate>,
}

pub struct TemplateV {
    pub id: u128,
    pub name: Seq<char>,
    pub description: Seq<char>,
    pub is_builtin: bool,
    pub nodes: Seq<NodeV>,
    pub connections: Seq<Connection>,
}

pub open spec fn template_view(t: NodeTemplate) -> TemplateV {
    TemplateV {
        id: t.id,
        name: t.name@,
        description: t.description@,
        is_builtin: t.is_builtin,
        nodes: nodes_view(t.nodes@),
        connections: t.connections@,
    }
}

pub open spec fn templates_view(s: Seq<NodeTemplate>) -> Seq<TemplateV> {
    s.map_values(|t: NodeTemplate| template_view(t))
}

/// The templates kept when the one with identifier `id` is deleted: shipped
/// templates always stay.
pub open spec fn kept_templates(s: Seq<TemplateV>, id: u128) -> Seq<TemplateV>
    decreases s.len(),
{
    if s.len() == 0 {
        seq![]
    } else {
        kept_templates(s.drop_last(), id) + if s.last().id != id || s.last().is_builtin { seq![s.last()] } else { seq![] }
    }
}

/// Whether the list holds a shipped template named `name`.
pub open spec fn has_builtin_named(s: Seq<TemplateV>, name: Seq<char>) -> bool {
    exists|i: int| 0 <= i < s.len() && s[i].name == name && s[i].is_builtin
}

/// The library after adding each of `bs` in order, unless a shipped template
/// of the same name is already there.
pub open spec fn with_builtins(s: Seq<TemplateV>, bs: Seq<TemplateV>) -> Seq<TemplateV>
    decreases bs.len(),
{
    if bs.len() == 0 {
        s
    } else {
        let prev = with_builtins(s, bs.drop_last());
        if has_builtin_named(prev, bs.last().name) { prev } else { prev.push(bs.last()) }
    }
}

impl TemplateLibrary {
    /// An empty library.
    pub fn new() -> (l: TemplateLibrary)
        ensures
            l.templates.len() == 0,
    {
        TemplateLibrary { templates: Vec::new() }
    }

    /// Deletes the user template with identifier `template_id`; shipped
    /// templates are never deleted.
    pub fn delete_template(&mut self, template_id: u128)
        ensures
            templates_view(final(self).templates@) == kept_templates(templates_view(old(self).templates@), template_id),
    {
        let ghost tv = templates_view(self.templates@);
        let mut rest: Vec<NodeTemplate> = Vec::new();
        std::mem::swap(&mut rest, &mut self.templates);
        let mut kept: Vec<NodeTemplate> = Vec::new();
        assert(tv.take(0) =~= Seq::<TemplateV>::empty());
        assert(tv.skip(0) =~= tv);
        assert(templates_view(kept@) =~= kept_templates(tv.take(0), template_id));
        let n = rest.len();
        let mut i: usize = 0;
        while i < n
            invariant
                i <= n,
                n == tv.len(),
                rest.len() == n - i,
                templates_view(rest@) == tv.skip(i as int),
                templates_view(kept@) == kept_templates(tv.take(i as int), template_id),
            decreases n - i,
        {
            let ghost before_rest = rest@;
            let t = rest.remove(0);
            assert(template_view(t) == tv[i as int]) by {
                assert(templates_view(before_rest)[0] == tv.skip(i as int)[0]);
            }
            assert(templates_view(rest@) =~= tv.skip(i + 1)) by {
                assert(rest@ == before_rest.remove(0));
                assert forall|k: int| 0 <= k < rest@.len() implies templates_view(rest@)[k] == tv.skip(i + 1)[k] by {
                    assert(templates_view(before_rest)[k + 1] == tv.skip(i as int)[k + 1]);
                }
            }
            let ghost before_kept = kept@;
            if t.id != template_id || t.is_builtin {
                kept.push(t);
                assert(templates_view(kept@) =~= templates_view(before_kept).push(tv[i as int]));
            }
            assert(tv.take(i + 1).drop_last() =~= tv.take(i as int));
            assert(templates_view(kept@) =~= kept_templates(tv.take(i + 1), template_id));
            i = i + 1;
        }
        assert(tv.take(n as int) =~= tv);
        self.templates = kept;
    }

    /// Whether the library holds a shipped template named `name`.
    fn has_builtin(&self, name: &str) -> (r: bool)
        ensures
            r == has_builtin_named(templates_view(self.templates@), name@),
    {
        let ghost tv = templates_view(self.templates@);
        let mut i: usize = 0;
        while i < self.templates.len()
            invariant
                i <= self.templates.len(),
                tv == templates_view(self.templates@),
                forall|k: int| 0 <= k < i ==> !(tv[k].name == name@ && tv[k].is_builtin),
            decreases self.templates.len() - i,
        {
            assert(tv[i as int] == template_view(self.templates@[i as int]));
            if self.templates[i].is_builtin && str_eq(self.templates[i].name.as_str(), name) {
                return true;
            }
            i = i + 1;
        }
        false
    }

    /// Adds each of `builtins` in order, unless the library already holds a
    /// shipped template of the same name.
    pub fn merge_builtins(&mut self, builtins: Vec<NodeTemplate>)
        ensures
            templates_view(final(self).templates@) == with_builtins(templates_view(old(self).templates@), templates_view(builtins@)),
    {
        let ghost bv = templates_view(builtins@);
        let ghost start = templates_view(self.templates@);
        let mut rest = builtins;
        let n = rest.len();
        let mut i: usize = 0;
        assert(bv.take(0) =~= Seq::<TemplateV>::empty());
        assert(bv.skip(0) =~= bv);
        while i < n
            invariant
                i <= n,
                n == bv.len(),
                rest.len() == n - i,
                templates_view(rest@) == bv.skip(i as int),
                templates_view(self.templates@) == with_builtins(start, bv.take(i as int)),
            decreases n - i,
        {
            let ghost before_rest = rest@;
            let b = rest.remove(0);
            assert(template_view(b) == bv[i as int]) by {
                assert(templates_view(before_rest)[0] == bv.skip(i as int)[0]);
            }
            assert(templates_view(rest@) =~= bv.skip(i + 1)) by {
                assert(rest@ == before_rest.remove(0));
                assert forall|k: int| 0 <= k < rest@.len() implies templates_view(rest@)[k] == bv.skip(i + 1)[k] by {
                    assert(templates_view(before_rest)[k + 1] == bv.skip(i as int)[k + 1]);
                }
            }
            assert(bv.take(i + 1).drop_last() =~= bv.take(i as int));
            let ghost before = self.templates@;
            if !self.has_builtin(b.name.as_str()) {
                self.templates.push(b);
                assert(templates_view(self.templates@) =~= templates_view(before).push(bv[i as int]));
            }
            i = i + 1;
        }
        assert(bv.take(n as int) =~= bv);
    }
}

} // verus!
