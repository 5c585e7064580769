//! The playable HTML export: one self-contained page whose script walks the
//! flattened graph, given as JSON keyed by readable identifiers.

use vstd::prelude::*;
use crate::bark_export::text_or_empty;
use crate::csv::push_str;
use crate::flatten::{flat_view, flat_wires, flatten_subgraphs};
use crate::html_template::{CSS, JS_ENGINE};
use crate::json::{JsonObject, json_str, members_view, obj_build, object_text, push_json_str};
use crate::model::{
    ActionV, CharacterV, CondV, DialogueGraph, DialogueV, GraphV, KindV, NodeType, NodeV, OptionV, PortV, ValueV,
    VariableV, VariableValue, Wire, value_view,
};
use crate::readable::{id_entries, lookup_last, next_at, node_order, op_text, reached_id};
use crate::text::{begins_with, decimal, int_decimal, lemma_affixes_concat, lemma_affixes_of, push_char, push_decimal, push_int};
use crate::xml_export::action_text;

verus! {

/// The text that stands for a character in HTML text.
pub open spec fn html_piece(c: char) -> Seq<char> {
    if c == '&' {
        "&amp;"@
    } else if c == '<' {
        "&lt;"@
    } else if c == '>' {
        "&gt;"@
    } else if c == '"' {
        "&quot;"@
    } else {
        seq![c]
    }
}

/// `s` with `& < > "` replaced by their HTML entities.
pub open spec fn html_esc(s: Seq<char>) -> Seq<char>
    decreases s.len(),
{
    if s.len() == 0 { seq![] } else { html_esc(s.drop_last()) + html_piece(s.last()) }
}

/// `s` escaped for HTML text.
pub fn html_escape(s: &str) -> (r: String)
    ensures
        r@ == html_esc(s@),
{
    let n = s.unicode_len();
    let mut out = String::new();
    let mut i: usize = 0;
    assert(s@.take(0) =~= Seq::<char>::empty());
    while i < n
        invariant
            n == s@.len(),
            i <= n,
            out@ == html_esc(s@.take(i as int)),
        decreases n - i,
    {
        let c = s.get_char(i);
        if c == '&' {
            push_str(&mut out, "&amp;");
        } else if c == '<' {
            push_str(&mut out, "&lt;");
        } else if c == '>' {
            push_str(&mut out, "&gt;");
        } else if c == '"' {
            push_str(&mut out, "&quot;");
        } else {
            push_char(&mut out, c);
        }
        proof {
            assert(s@.take(i + 1).drop_last() =~= s@.take(i as int));
            assert(out@ =~= html_esc(s@.take(i + 1)));
        }
        i = i + 1;
    }
    assert(s@.take(n as int) =~= s@);
    out
}

// ------------------------------------------------------------ node data

/// A text or `null`.
pub open spec fn opt_json(o: Option<Seq<char>>) -> Seq<char> {
    match o {
        Some(s) => json_str(s),
        None => "null"@,
    }
}

/// A variable value as JSON; a floating-point value is written as its text.
pub open spec fn value_json(v: ValueV) -> Seq<char> {
    match v {
        ValueV::Bool(b) => if b { "true"@ } else { "false"@ },
        ValueV::Int(i) => int_decimal(i as int),
        ValueV::Float(f) => f,
        ValueV::Text(t) => json_str(t),
    }
}

pub open spec fn next_json(ev: Seq<(u128, Seq<char>)>, ws: Seq<Wire>, outs: Seq<PortV>, i: int) -> Seq<char> {
    opt_json(next_at(ev, ws, outs, i))
}

pub open spec fn speaker_json(ev: Seq<(u128, Seq<char>)>, d: DialogueV) -> Seq<char> {
    json_str(match d.speaker_id {
        Some(sid) => text_or_empty(lookup_last(ev, sid)),
        None => d.speaker_name,
    })
}

pub open spec fn cond_json(c: Option<CondV>) -> Seq<char> {
    match c {
        Some(c) => "{\"operator\":"@ + json_str(op_text(c.operator)) + ",\"value\":"@ + value_json(c.value)
            + ",\"variable\":"@ + json_str(c.variable_name) + "}"@,
        None => "null"@,
    }
}

pub open spec fn option_item(ev: Seq<(u128, Seq<char>)>, ws: Seq<Wire>, outs: Seq<PortV>, o: OptionV, i: int) -> Seq<char> {
    "{\"condition\":"@ + cond_json(o.condition) + ",\"next\":"@ + next_json(ev, ws, outs, i) + ",\"text\":"@
        + json_str(o.text) + "}"@
}

pub open spec fn option_items(ev: Seq<(u128, Seq<char>)>, ws: Seq<Wire>, outs: Seq<PortV>, opts: Seq<OptionV>, k: int) -> Seq<char>
    decreases k,
{
    if k <= 0 {
        seq![]
    } else if k == 1 {
        option_item(ev, ws, outs, opts[0], 0)
    } else {
        option_items(ev, ws, outs, opts, k - 1) + seq![','] + option_item(ev, ws, outs, opts[k - 1], k - 1)
    }
}

pub open spec fn action_item(a: ActionV) -> Seq<char> {
    "{\"action\":"@ + json_str(action_text(a.action_type)) + ",\"key\":"@ + json_str(a.key) + ",\"value\":"@
        + value_json(a.value) + "}"@
}

pub open spec fn action_items(acts: Seq<ActionV>, k: int) -> Seq<char>
    decreases k,
{
    if k <= 0 {
        seq![]
    } else if k == 1 {
        action_item(acts[0])
    } else {
        action_items(acts, k - 1) + seq![','] + action_item(acts[k - 1])
    }
}

/// A branch: where it leads and its weight, written as `serde_json` writes a
/// floating-point number.
pub open spec fn branch_item(ev: Seq<(u128, Seq<char>)>, ws: Seq<Wire>, outs: Seq<PortV>, w: u32, i: int) -> Seq<char> {
    "{\"next\":"@ + next_json(ev, ws, outs, i) + ",\"weight\":"@ + crate::text::hundredths_json(w as nat) + "}"@
}

pub open spec fn branch_items(ev: Seq<(u128, Seq<char>)>, ws: Seq<Wire>, outs: Seq<PortV>, weights: Seq<u32>, k: int) -> Seq<char>
    decreases k,
{
    if k <= 0 {
        seq![]
    } else if k == 1 {
        branch_item(ev, ws, outs, weights[0], 0)
    } else {
        branch_items(ev, ws, outs, weights, k - 1) + seq![','] + branch_item(ev, ws, outs, weights[k - 1], k - 1)
    }
}

/// The JSON object of one node: its type and its data, members sorted by key.
pub open spec fn node_json(ev: Seq<(u128, Seq<char>)>, ws: Seq<Wire>, n: NodeV) -> Seq<char> {
    match n.kind {
        KindV::Start => "{\"next\":"@ + next_json(ev, ws, n.outputs, 0) + ",\"type\":\"start\"}"@,
        KindV::Dialogue(d) => "{\"audio\":"@ + opt_json(d.audio_clip) + ",\"emotion\":"@ + json_str(d.emotion)
            + ",\"next\":"@ + next_json(ev, ws, n.outputs, 0) + ",\"portrait\":"@ + opt_json(d.portrait_override)
            + ",\"speaker\":"@ + speaker_json(ev, d) + ",\"text\":"@ + json_str(d.text) + ",\"type\":\"dialogue\"}"@,
        KindV::Choice(p, opts) => "{\"options\":["@ + option_items(ev, ws, n.outputs, opts, opts.len() as int)
            + "],\"prompt\":"@ + json_str(p) + ",\"type\":\"choice\"}"@,
        KindV::Condition(c) => "{\"false_next\":"@ + next_json(ev, ws, n.outputs, 1) + ",\"operator\":"@
            + json_str(op_text(c.operator)) + ",\"true_next\":"@ + next_json(ev, ws, n.outputs, 0)
            + ",\"type\":\"condition\",\"value\":"@ + value_json(c.value) + ",\"variable\":"@ + json_str(c.variable_name) + "}"@,
        KindV::Event(acts) => "{\"actions\":["@ + action_items(acts, acts.len() as int) + "],\"next\":"@
            + next_json(ev, ws, n.outputs, 0) + ",\"type\":\"event\"}"@,
        KindV::Random(weights) => "{\"branches\":["@ + branch_items(ev, ws, n.outputs, weights, weights.len() as int)
            + "],\"type\":\"random\"}"@,
        KindV::End(tag) => "{\"tag\":"@ + json_str(tag) + ",\"type\":\"end\"}"@,
        KindV::SubGraph(name, _) => "{\"name\":"@ + json_str(name) + ",\"next\":"@ + next_json(ev, ws, n.outputs, 0)
            + ",\"type\":\"subgraph\"}"@,
    }
}

/// How the JSON object of a condition node begins (its members sorted by
/// key): `false_next` names the node reached from output 1, then the
/// operator, then `true_next` names the node reached from output 0, the
/// branch the page takes when the condition holds (`null` where nothing is
/// reached).
pub open spec fn condition_json_head(ev: Seq<(u128, Seq<char>)>, ws: Seq<Wire>, outs: Seq<PortV>, c: CondV) -> Seq<char> {
    "{\"false_next\":"@ + opt_json(reached_id(ev, ws, outs, 1)) + ",\"operator\":"@ + json_str(op_text(c.operator))
        + ",\"true_next\":"@ + opt_json(reached_id(ev, ws, outs, 0)) + ",\"type\":\"condition\",\"value\":"@
}

/// In the graph JSON of the page, a condition node's `true_next` is the node
/// reached from its output 0 and its `false_next` the node reached from its
/// output 1.
pub proof fn law_condition_json_branches(ev: Seq<(u128, Seq<char>)>, ws: Seq<Wire>, n: NodeV, c: CondV)
    requires
        n.kind == KindV::Condition(c),
    ensures
        begins_with(node_json(ev, ws, n), condition_json_head(ev, ws, n.outputs, c)),
{
    assert(next_json(ev, ws, n.outputs, 0) == opt_json(reached_id(ev, ws, n.outputs, 0)));
    assert(next_json(ev, ws, n.outputs, 1) == opt_json(reached_id(ev, ws, n.outputs, 1)));
    let head = condition_json_head(ev, ws, n.outputs, c);
    let rest = value_json(c.value) + ",\"variable\":"@ + json_str(c.variable_name) + "}"@;
    assert(node_json(ev, ws, n) =~= head + rest);
    lemma_affixes_of(head, rest);
}

fn push_opt_json(out: &mut String, o: &Option<String>)
    ensures
        final(out)@ == old(out)@ + opt_json(crate::model::opt_view(*o)),
{
    match o {
        Some(x) => push_json_str(out, x.as_str()),
        None => push_str(out, "null"),
    }
}

fn push_value_json(out: &mut String, v: &VariableValue)
    ensures
        final(out)@ == old(out)@ + value_json(value_view(*v)),
{
    match v {
        VariableValue::Bool(b) => {
            if *b { push_str(out, "true"); } else { push_str(out, "false"); }
        },
        VariableValue::Int(i) => push_int(out, *i),
        VariableValue::Float(f) => push_str(out, f.as_str()),
        VariableValue::Text(t) => push_json_str(out, t.as_str()),
    }
}

/// A variable value as JSON text.
pub fn value_json_text(v: &VariableValue) -> (r: String)
    ensures
        r@ == value_json(value_view(*v)),
{
    let mut r = String::new();
    push_value_json(&mut r, v);
    assert(r@ =~= value_json(value_view(*v)));
    r
}

fn push_next_json(out: &mut String, entries: &Vec<(u128, String)>, conns: &Vec<crate::model::Connection>,
    outputs: &Vec<crate::model::Port>, i: usize)
    ensures
        final(out)@ == old(out)@ + next_json(
            crate::readable::entries_view(entries@),
            crate::model::wires_of(conns@),
            crate::model::ports_view(outputs@),
            i as int,
        ),
{
    let n = crate::readable::next_from(entries, conns, outputs, i);
    push_opt_json(out, &n);
}

fn push_cond_json(out: &mut String, c: &Option<crate::model::ChoiceCondition>)
    ensures
        final(out)@ == old(out)@ + cond_json(match *c {
            Some(cc) => Some(crate::model::cond_view(cc)),
            None => None,
        }),
{
    match c {
        Some(cc) => {
            push_str(out, "{\"operator\":");
            push_json_str(out, crate::readable::compare_op_str(cc.operator));
            push_str(out, ",\"value\":");
            push_value_json(out, &cc.value);
            push_str(out, ",\"variable\":");
            push_json_str(out, cc.variable_name.as_str());
            push_str(out, "}");
            assert(out@ =~= old(out)@ + cond_json(Some(crate::model::cond_view(*cc))));
        },
        None => push_str(out, "null"),
    }
}

fn push_option_item(out: &mut String, o: &crate::model::ChoiceOption, entries: &Vec<(u128, String)>,
    conns: &Vec<crate::model::Connection>, outputs: &Vec<crate::model::Port>, i: usize)
    ensures
        final(out)@ == old(out)@ + option_item(
            crate::readable::entries_view(entries@),
            crate::model::wires_of(conns@),
            crate::model::ports_view(outputs@),
            crate::model::option_view(*o),
            i as int,
        ),
{
    push_str(out, "{\"condition\":");
    push_cond_json(out, &o.condition);
    push_str(out, ",\"next\":");
    push_next_json(out, entries, conns, outputs, i);
    push_str(out, ",\"text\":");
    push_json_str(out, o.text.as_str());
    push_str(out, "}");
}

fn push_choice_json(out: &mut String, node: &crate::model::Node, c: &crate::model::ChoiceData,
    entries: &Vec<(u128, String)>, conns: &Vec<crate::model::Connection>)
    ensures
        final(out)@ == old(out)@ + "{\"options\":["@ + option_items(
            crate::readable::entries_view(entries@),
            crate::model::wires_of(conns@),
            crate::model::ports_view(node.outputs@),
            c.choices@.map_values(|o: crate::model::ChoiceOption| crate::model::option_view(o)),
            c.choices.len() as int,
        ) + "],\"prompt\":"@ + json_str(c.prompt@) + ",\"type\":\"choice\"}"@,
{
    let ghost ev = crate::readable::entries_view(entries@);
    let ghost ws = crate::model::wires_of(conns@);
    let ghost outs = crate::model::ports_view(node.outputs@);
    let ghost opts = c.choices@.map_values(|o: crate::model::ChoiceOption| crate::model::option_view(o));
    push_str(out, "{\"options\":[");
    let ghost m = out@;
    let mut i: usize = 0;
    assert(out@ =~= m + option_items(ev, ws, outs, opts, 0));
    while i < c.choices.len()
        invariant
            i <= c.choices.len(),
            opts == c.choices@.map_values(|o: crate::model::ChoiceOption| crate::model::option_view(o)),
            ev == crate::readable::entries_view(entries@),
            ws == crate::model::wires_of(conns@),
            outs == crate::model::ports_view(node.outputs@),
            out@ == m + option_items(ev, ws, outs, opts, i as int),
        decreases c.choices.len() - i,
    {
        let o = &c.choices[i];
        assert(opts[i as int] == crate::model::option_view(*o));
        let ghost before = out@;
        if i > 0 {
            push_char(out, ',');
        }
        let ghost mid = out@;
        push_option_item(out, o, entries, conns, &node.outputs, i);
        assert(out@ =~= mid + option_item(ev, ws, outs, opts[i as int], i as int));
        assert(out@ =~= m + option_items(ev, ws, outs, opts, i + 1));
        i = i + 1;
    }
    push_str(out, "],\"prompt\":");
    push_json_str(out, c.prompt.as_str());
    push_str(out, ",\"type\":\"choice\"}");
}

fn push_event_json(out: &mut String, node: &crate::model::Node, e: &crate::model::EventData,
    entries: &Vec<(u128, String)>, conns: &Vec<crate::model::Connection>)
    ensures
        final(out)@ == old(out)@ + "{\"actions\":["@ + action_items(
            e.actions@.map_values(|a: crate::model::EventAction| crate::model::action_view(a)),
            e.actions.len() as int,
        ) + "],\"next\":"@ + next_json(
            crate::readable::entries_view(entries@),
            crate::model::wires_of(conns@),
            crate::model::ports_view(node.outputs@),
            0,
        ) + ",\"type\":\"event\"}"@,
{
    let ghost acts = e.actions@.map_values(|a: crate::model::EventAction| crate::model::action_view(a));
    push_str(out, "{\"actions\":[");
    let ghost m = out@;
    let mut i: usize = 0;
    assert(out@ =~= m + action_items(acts, 0));
    while i < e.actions.len()
        invariant
            i <= e.actions.len(),
            acts == e.actions@.map_values(|a: crate::model::EventAction| crate::model::action_view(a)),
            out@ == m + action_items(acts, i as int),
        decreases e.actions.len() - i,
    {
        let a = &e.actions[i];
        assert(acts[i as int] == crate::model::action_view(*a));
        if i > 0 {
            push_char(out, ',');
        }
        push_str(out, "{\"action\":");
        push_json_str(out, crate::xml_export::action_str(a.action_type));
        push_str(out, ",\"key\":");
        push_json_str(out, a.key.as_str());
        push_str(out, ",\"value\":");
        push_value_json(out, &a.value);
        push_str(out, "}");
        assert(out@ =~= m + action_items(acts, i + 1));
        i = i + 1;
    }
    push_str(out, "],\"next\":");
    push_next_json(out, entries, conns, &node.outputs, 0);
    push_str(out, ",\"type\":\"event\"}");
}

fn push_random_json(out: &mut String, node: &crate::model::Node, r: &crate::model::RandomData,
    entries: &Vec<(u128, String)>, conns: &Vec<crate::model::Connection>)
    ensures
        final(out)@ == old(out)@ + "{\"branches\":["@ + branch_items(
            crate::readable::entries_view(entries@),
            crate::model::wires_of(conns@),
            crate::model::ports_view(node.outputs@),
            r.branches@.map_values(|b: crate::model::RandomBranch| b.weight),
            r.branches.len() as int,
        ) + "],\"type\":\"random\"}"@,
{
    let ghost ev = crate::readable::entries_view(entries@);
    let ghost ws = crate::model::wires_of(conns@);
    let ghost outs = crate::model::ports_view(node.outputs@);
    let ghost weights = r.branches@.map_values(|b: crate::model::RandomBranch| b.weight);
    push_str(out, "{\"branches\":[");
    let ghost m = out@;
    let mut i: usize = 0;
    assert(out@ =~= m + branch_items(ev, ws, outs, weights, 0));
    while i < r.branches.len()
        invariant
            i <= r.branches.len(),
            weights == r.branches@.map_values(|b: crate::model::RandomBranch| b.weight),
            ev == crate::readable::entries_view(entries@),
            ws == crate::model::wires_of(conns@),
            outs == crate::model::ports_view(node.outputs@),
            out@ == m + branch_items(ev, ws, outs, weights, i as int),
        decreases r.branches.len() - i,
    {
        assert(weights[i as int] == r.branches@[i as int].weight);
        if i > 0 {
            push_char(out, ',');
        }
        push_str(out, "{\"next\":");
        push_next_json(out, entries, conns, &node.outputs, i);
        push_str(out, ",\"weight\":");
        crate::text::push_hundredths_json(out, r.branches[i].weight);
        push_str(out, "}");
        assert(out@ =~= m + branch_items(ev, ws, outs, weights, i + 1));
        i = i + 1;
    }
    push_str(out, "],\"type\":\"random\"}");
}

fn push_dialogue_json(out: &mut String, node: &crate::model::Node, d: &crate::model::DialogueData,
    entries: &Vec<(u128, String)>, conns: &Vec<crate::model::Connection>)
    ensures
        ({
            let dv = crate::model::dialogue_view(*d);
            let ev = crate::readable::entries_view(entries@);
            final(out)@ == old(out)@ + "{\"audio\":"@ + opt_json(dv.audio_clip) + ",\"emotion\":"@ + json_str(dv.emotion)
                + ",\"next\":"@ + next_json(ev, crate::model::wires_of(conns@), crate::model::ports_view(node.outputs@), 0)
                + ",\"portrait\":"@ + opt_json(dv.portrait_override) + ",\"speaker\":"@ + speaker_json(ev, dv)
                + ",\"text\":"@ + json_str(dv.text) + ",\"type\":\"dialogue\"}"@
        }),
{
    push_str(out, "{\"audio\":");
    push_opt_json(out, &d.audio_clip);
    push_str(out, ",\"emotion\":");
    push_json_str(out, d.emotion.as_str());
    push_str(out, ",\"next\":");
    push_next_json(out, entries, conns, &node.outputs, 0);
    push_str(out, ",\"portrait\":");
    push_opt_json(out, &d.portrait_override);
    push_str(out, ",\"speaker\":");
    let speaker: String = match d.speaker_id {
        Some(sid) => match crate::readable::lookup_id(entries, sid) {
            Some(x) => x,
            None => String::new(),
        },
        None => d.speaker_name.clone(),
    };
    push_json_str(out, speaker.as_str());
    push_str(out, ",\"text\":");
    push_json_str(out, d.text.as_str());
    push_str(out, ",\"type\":\"dialogue\"}");
}

fn push_simple_json(out: &mut String, node: &crate::model::Node, entries: &Vec<(u128, String)>,
    conns: &Vec<crate::model::Connection>)
    requires
        node.node_type is Start || node.node_type is End || node.node_type is SubGraph || node.node_type is Condition,
    ensures
        final(out)@ == old(out)@ + node_json(
            crate::readable::entries_view(entries@),
            crate::model::wires_of(conns@),
            crate::model::node_view(*node),
        ),
        node.node_type matches NodeType::Condition(c) ==> begins_with(
            final(out)@.subrange(old(out)@.len() as int, final(out)@.len() as int),
            condition_json_head(
                crate::readable::entries_view(entries@),
                crate::model::wires_of(conns@),
                crate::model::ports_view(node.outputs@),
                CondV { variable_name: c.variable_name@, operator: c.operator, value: value_view(c.value) },
            ),
        ),
{
    let ghost ev = crate::readable::entries_view(entries@);
    let ghost ws = crate::model::wires_of(conns@);
    let ghost outs = crate::model::ports_view(node.outputs@);
    let ghost m = out@;
    match &node.node_type {
        NodeType::Start => {
            push_str(out, "{\"next\":");
            push_next_json(out, entries, conns, &node.outputs, 0);
            push_str(out, ",\"type\":\"start\"}");
        },
        NodeType::End(e) => {
            push_str(out, "{\"tag\":");
            push_json_str(out, e.tag.as_str());
            push_str(out, ",\"type\":\"end\"}");
        },
        NodeType::SubGraph(sg) => {
            push_str(out, "{\"name\":");
            push_json_str(out, sg.name.as_str());
            push_str(out, ",\"next\":");
            push_next_json(out, entries, conns, &node.outputs, 0);
            push_str(out, ",\"type\":\"subgraph\"}");
        },
        NodeType::Condition(c) => {
            push_str(out, "{\"false_next\":");
            push_next_json(out, entries, conns, &node.outputs, 1);
            push_str(out, ",\"operator\":");
            push_json_str(out, crate::readable::compare_op_str(c.operator));
            push_str(out, ",\"true_next\":");
            push_next_json(out, entries, conns, &node.outputs, 0);
            push_str(out, ",\"type\":\"condition\",\"value\":");
            push_value_json(out, &c.value);
            push_str(out, ",\"variable\":");
            push_json_str(out, c.variable_name.as_str());
            push_str(out, "}");
            proof {
                let nv = crate::model::node_view(*node);
                let cv = CondV { variable_name: c.variable_name@, operator: c.operator, value: value_view(c.value) };
                assert(nv.kind == KindV::Condition(cv));
                assert(nv.outputs == outs);
                law_condition_json_branches(ev, ws, nv, cv);
                assert(out@ == m + node_json(ev, ws, nv));
                lemma_affixes_concat(m, node_json(ev, ws, nv), seq![], condition_json_head(ev, ws, outs, cv));
            }
        },
        _ => {},
    }
}

/// The JSON object of one node.
fn node_json_text(node: &crate::model::Node, entries: &Vec<(u128, String)>, conns: &Vec<crate::model::Connection>) -> (r: String)
    ensures
        r@ == node_json(
            crate::readable::entries_view(entries@),
            crate::model::wires_of(conns@),
            crate::model::node_view(*node),
        ),
{
    let mut out = String::new();
    match &node.node_type {
        NodeType::Dialogue(d) => push_dialogue_json(&mut out, node, d, entries, conns),
        NodeType::Choice(c) => push_choice_json(&mut out, node, c, entries, conns),
        NodeType::Event(e) => push_event_json(&mut out, node, e, entries, conns),
        NodeType::Random(r) => push_random_json(&mut out, node, r, entries, conns),
        _ => push_simple_json(&mut out, node, entries, conns),
    }
    assert(out@ =~= node_json(
        crate::readable::entries_view(entries@),
        crate::model::wires_of(conns@),
        crate::model::node_view(*node),
    ));
    out
}

// ------------------------------------------------------------ page

/// Members of the graph object: each node in canvas order that has a readable
/// identifier, under that identifier.
pub open spec fn graph_pairs(ev: Seq<(u128, Seq<char>)>, ws: Seq<Wire>, nodes: Seq<NodeV>, o: Seq<int>, k: int) -> Seq<(Seq<char>, Seq<char>)>
    decreases k,
{
    if k <= 0 {
        seq![]
    } else {
        let n = nodes[o[k - 1]];
        graph_pairs(ev, ws, nodes, o, k - 1) + match lookup_last(ev, n.id) {
            Some(rid) => seq![(rid, node_json(ev, ws, n))],
            None => seq![],
        }
    }
}

/// The graph object: the nodes keyed by readable identifier.
pub open spec fn graph_json(g: GraphV, ws: Seq<Wire>) -> Seq<char> {
    let o = node_order(g.nodes);
    object_text(graph_pairs(id_entries(g), ws, g.nodes, o, o.len() as int))
}

pub open spec fn color_json(c: Seq<u8>) -> Seq<char> {
    "{\"color\":"@ + json_str("rgb("@ + decimal(c[0] as nat) + ","@ + decimal(c[1] as nat) + ","@ + decimal(c[2] as nat) + ")"@) + "}"@
}

/// The characters object: each character's color keyed by its name.
pub open spec fn characters_json(cs: Seq<CharacterV>) -> Seq<char> {
    object_text(Seq::new(cs.len(), |i: int| (cs[i].name, color_json(cs[i].color))))
}

/// The variables object: each variable's default value keyed by its name.
pub open spec fn variables_json(vs: Seq<VariableV>) -> Seq<char> {
    object_text(Seq::new(vs.len(), |i: int| (vs[i].name, value_json(vs[i].default_value))))
}

/// The page: the escaped title, the style sheet, and the script given the
/// graph, characters and variables as JSON.
pub open spec fn html_page(name: Seq<char>, g: GraphV, ws: Seq<Wire>) -> Seq<char> {
    let t = html_esc(name);
    "<!DOCTYPE html>\n<html lang=\"en\">\n<head>\n<meta charset=\"UTF-8\">\n<meta name=\"viewport\" content=\"width=device-width, initial-scale=1.0\">\n<title>"@
        + t + " — TaleNode Playable</title>\n"@ + CSS@
        + "\n</head>\n<body>\n<div id=\"app\">\n  <header><h1>"@ + t
        + "</h1><button id=\"restart-btn\">Restart</button></header>\n  <div id=\"main\">\n    <div id=\"chat-log\"></div>\n    <div id=\"choices\"></div>\n  </div>\n  <aside id=\"sidebar\">\n    <h3 onclick=\"toggleSidebar()\">Variables ▾</h3>\n    <div id=\"var-list\"></div>\n  </aside>\n</div>\n<script>\nconst GRAPH = "@
        + graph_json(g, ws) + ";\nconst CHARACTERS = "@ + characters_json(g.characters) + ";\nconst INIT_VARS = "@
        + variables_json(g.variables) + ";\n"@ + JS_ENGINE@ + "\n</script>\n</body>\n</html>"@
}

fn build_graph_json(graph: &DialogueGraph, entries: &Vec<(u128, String)>) -> (r: String)
    requires
        crate::readable::entries_view(entries@) == id_entries(crate::model::graph_view(*graph)),
    ensures
        r@ == graph_json(crate::model::graph_view(*graph), crate::model::wires_of(graph.connections@)),
{
    let ghost gv = crate::model::graph_view(*graph);
    let ghost ev = crate::readable::entries_view(entries@);
    let ghost ws = crate::model::wires_of(graph.connections@);
    let ghost nv = gv.nodes;
    proof {
        crate::model::lemma_nodes_view(graph.nodes@);
    }
    let order = crate::readable::sorted_node_indices(&graph.nodes);
    let ghost o = node_order(nv);
    let mut obj = JsonObject::new();
    let mut p: usize = 0;
    while p < order.len()
        invariant
            p <= order.len(),
            order@.map_values(|i: usize| i as int) == o,
            o == node_order(nv),
            nv == crate::model::nodes_view(graph.nodes@),
            nv.len() == graph.nodes.len(),
            forall|q: int| 0 <= q < graph.nodes.len() ==> #[trigger] nv[q] == crate::model::node_view(graph.nodes@[q]),
            forall|q: int| 0 <= q < order.len() ==> #[trigger] order@[q] < graph.nodes.len(),
            ev == crate::readable::entries_view(entries@),
            ws == crate::model::wires_of(graph.connections@),
            members_view(obj.members@) == obj_build(graph_pairs(ev, ws, nv, o, p as int)),
        decreases order.len() - p,
    {
        let i = order[p];
        assert(o[p as int] == i as int);
        let node = &graph.nodes[i];
        assert(nv[i as int] == crate::model::node_view(*node));
        let ghost prev = graph_pairs(ev, ws, nv, o, p as int);
        match crate::readable::lookup_id(entries, node.id) {
            Some(rid) => {
                let text = node_json_text(node, entries, &graph.connections);
                let ghost kv = (rid@, text@);
                obj.insert(rid, text);
                assert(graph_pairs(ev, ws, nv, o, p + 1) =~= prev.push(kv));
                assert(prev.push(kv).drop_last() =~= prev);
            },
            None => {
                assert(graph_pairs(ev, ws, nv, o, p + 1) =~= prev);
            },
        }
        p = p + 1;
    }
    obj.to_text()
}

fn color_text(c: &[u8; 3]) -> (r: String)
    ensures
        r@ == color_json(c@),
{
    let mut t = String::new();
    push_str(&mut t, "rgb(");
    push_decimal(&mut t, c[0] as u64);
    push_str(&mut t, ",");
    push_decimal(&mut t, c[1] as u64);
    push_str(&mut t, ",");
    push_decimal(&mut t, c[2] as u64);
    push_str(&mut t, ")");
    let mut r = String::new();
    push_str(&mut r, "{\"color\":");
    push_json_str(&mut r, t.as_str());
    push_str(&mut r, "}");
    assert(t@ =~= "rgb("@ + decimal(c@[0] as nat) + ","@ + decimal(c@[1] as nat) + ","@ + decimal(c@[2] as nat) + ")"@);
    assert(r@ =~= color_json(c@));
    r
}

fn build_characters_json(graph: &DialogueGraph) -> (r: String)
    ensures
        r@ == characters_json(crate::model::graph_view(*graph).characters),
{
    let ghost cs = crate::model::graph_view(*graph).characters;
    let ghost pairs = Seq::new(cs.len(), |i: int| (cs[i].name, color_json(cs[i].color)));
    let mut obj = JsonObject::new();
    let mut i: usize = 0;
    assert(pairs.take(0) =~= Seq::<(Seq<char>, Seq<char>)>::empty());
    while i < graph.characters.len()
        invariant
            i <= graph.characters.len(),
            cs == crate::model::graph_view(*graph).characters,
            cs.len() == graph.characters.len(),
            pairs == Seq::new(cs.len(), |i: int| (cs[i].name, color_json(cs[i].color))),
            members_view(obj.members@) == obj_build(pairs.take(i as int)),
        decreases graph.characters.len() - i,
    {
        let ch = &graph.characters[i];
        assert(cs[i as int] == crate::model::character_view(*ch));
        let text = color_text(&ch.color);
        obj.insert(ch.name.clone(), text);
        assert(pairs.take(i + 1).drop_last() =~= pairs.take(i as int));
        i = i + 1;
    }
    assert(pairs.take(graph.characters.len() as int) =~= pairs);
    obj.to_text()
}

fn build_variables_json(graph: &DialogueGraph) -> (r: String)
    ensures
        r@ == variables_json(crate::model::graph_view(*graph).variables),
{
    let ghost vs = crate::model::graph_view(*graph).variables;
    let ghost pairs = Seq::new(vs.len(), |i: int| (vs[i].name, value_json(vs[i].default_value)));
    let mut obj = JsonObject::new();
    let mut i: usize = 0;
    assert(pairs.take(0) =~= Seq::<(Seq<char>, Seq<char>)>::empty());
    while i < graph.variables.len()
        invariant
            i <= graph.variables.len(),
            vs == crate::model::graph_view(*graph).variables,
            vs.len() == graph.variables.len(),
            pairs == Seq::new(vs.len(), |i: int| (vs[i].name, value_json(vs[i].default_value))),
            members_view(obj.members@) == obj_build(pairs.take(i as int)),
        decreases graph.variables.len() - i,
    {
        let v = &graph.variables[i];
        assert(vs[i as int] == crate::model::variable_view(*v));
        let text = value_json_text(&v.default_value);
        obj.insert(v.name.clone(), text);
        assert(pairs.take(i + 1).drop_last() =~= pairs.take(i as int));
        i = i + 1;
    }
    assert(pairs.take(graph.variables.len() as int) =~= pairs);
    obj.to_text()
}

/// The graph as a self-contained HTML page that plays it (see `html_page`),
/// after flattening its sub-graphs.
pub fn export_html(graph: &DialogueGraph, name: &str) -> (r: String)
    ensures
        r@ == html_page(name@, flat_view(crate::model::graph_view(*graph)), flat_wires(crate::model::graph_view(*graph))),
{
    let flat = flatten_subgraphs(graph);
    let entries = crate::readable::build_id_map(&flat);
    let ghost fv = crate::model::graph_view(flat);
    let ghost gv = flat_view(crate::model::graph_view(*graph));
    assert(fv.nodes == gv.nodes);
    assert(id_entries(fv) == id_entries(gv));
    let graph_text = build_graph_json(&flat, &entries);
    let chars_text = build_characters_json(&flat);
    let vars_text = build_variables_json(&flat);
    let title = html_escape(name);
    let mut out = String::new();
    push_str(&mut out, "<!DOCTYPE html>\n<html lang=\"en\">\n<head>\n<meta charset=\"UTF-8\">\n<meta name=\"viewport\" content=\"width=device-width, initial-scale=1.0\">\n<title>");
    push_str(&mut out, title.as_str());
    push_str(&mut out, " — TaleNode Playable</title>\n");
    push_str(&mut out, CSS);
    push_str(&mut out, "\n</head>\n<body>\n<div id=\"app\">\n  <header><h1>");
    push_str(&mut out, title.as_str());
    push_str(&mut out, "</h1><button id=\"restart-btn\">Restart</button></header>\n  <div id=\"main\">\n    <div id=\"chat-log\"></div>\n    <div id=\"choices\"></div>\n  </div>\n  <aside id=\"sidebar\">\n    <h3 onclick=\"toggleSidebar()\">Variables ▾</h3>\n    <div id=\"var-list\"></div>\n  </aside>\n</div>\n<script>\nconst GRAPH = ");
    push_str(&mut out, graph_text.as_str());
    push_str(&mut out, ";\nconst CHARACTERS = ");
    push_str(&mut out, chars_text.as_str());
    push_str(&mut out, ";\nconst INIT_VARS = ");
    push_str(&mut out, vars_text.as_str());
    push_str(&mut out, ";\n");
    push_str(&mut out, JS_ENGINE);
    push_str(&mut out, "\n</script>\n</body>\n</html>");
    assert(out@ =~= html_page(name@, gv, flat_wires(crate::model::graph_view(*graph))));
    out
}

} // verus!
