//! The game-engine JSON export: the records the exported document is made
//! of, built from a graph. Nodes are named by their readable identifiers and
//! name the nodes their outputs lead to; the data of a node and the string
//! table are JSON values, which the writer of the document serialises.

use vstd::prelude::*;
use crate::bark_export::text_or_empty;
use crate::csv::push_str;
use crate::exported::{ExportedCharacter, ExportedEntityV, ExportedWorldEntity, build_world_entities, entity_record, exported_entity_view};
use crate::ident::{uuid_hyphenated, uuid_text};
use crate::locale::{LocaleSettings, LocaleV, locale_view, translation_in};
use crate::locale_export::{StringV, TranslatableString, collect_translatable_strings, translatable, ts_view};
use crate::model::{
    ActionV, BarkLine, BarkV, CharacterV, CondV, Connection, DialogueGraph, KindV, NodeType, NodeV, OptionV, Port, PortV,
    ValueV, VariableV, VariableValue, WorldEntity, Wire, bark_view, barks_view, character_view, graph_view, kind_view,
    lemma_nodes_view, node_view, nodes_view, opt_view, ports_view, value_view, variable_view, wires_of,
};
use crate::readable::{build_id_map, compare_op_str, entries_view, id_entries, lookup_id, lookup_last, next_at, next_from, op_text, reached_id};
use crate::text::{byte_hex, hundredths_json, owned, push_byte_hex, push_hundredths_json};
use crate::xml_export::{action_str, action_text, id_or_uuid, readable_key, readable_key_of, var_type_str, var_type_text};

verus! {

/// A JSON value. A floating-point number is held as its decimal text; the
/// members of an object are listed in the order they are set, and setting a
/// key again replaces its earlier value.
pub enum JsonValue {
    Null,
    Bool(bool),
    Int(i64),
    Float(String),
    Str(String),
    Array(Vec<JsonValue>),
    Object(Vec<(String, JsonValue)>),
}

pub enum JsonV {
    Null,
    Bool(bool),
    Int(int),
    Float(Seq<char>),
    Str(Seq<char>),
    Array(Seq<JsonV>),
    Object(Seq<(Seq<char>, JsonV)>),
}

pub open spec fn json_view(j: JsonValue) -> JsonV
    decreases j, 0int,
{
    match j {
        JsonValue::Null => JsonV::Null,
        JsonValue::Bool(b) => JsonV::Bool(b),
        JsonValue::Int(i) => JsonV::Int(i as int),
        JsonValue::Float(t) => JsonV::Float(t@),
        JsonValue::Str(s) => JsonV::Str(s@),
        JsonValue::Array(v) => JsonV::Array(items_view(v@)),
        JsonValue::Object(m) => JsonV::Object(members_view(m@)),
    }
}

pub open spec fn items_view(s: Seq<JsonValue>) -> Seq<JsonV>
    decreases s, 1int,
{
    if s.len() == 0 {
        seq![]
    } else {
        items_view(s.drop_last()).push(json_view(s.last()))
    }
}

pub open spec fn members_view(s: Seq<(String, JsonValue)>) -> Seq<(Seq<char>, JsonV)>
    decreases s, 1int,
{
    if s.len() == 0 {
        seq![]
    } else {
        members_view(s.drop_last()).push((s.last().0@, json_view(s.last().1)))
    }
}

fn push_item(v: &mut Vec<JsonValue>, x: JsonValue)
    ensures
        items_view(final(v)@) == items_view(old(v)@).push(json_view(x)),
{
    let ghost before = v@;
    v.push(x);
    assert(v@.drop_last() =~= before);
}

fn push_member(m: &mut Vec<(String, JsonValue)>, key: &str, x: JsonValue)
    ensures
        members_view(final(m)@) == members_view(old(m)@).push((key@, json_view(x))),
{
    let ghost before = m@;
    m.push((owned(key), x));
    assert(m@.drop_last() =~= before);
}

// ------------------------------------------------------------ values

/// A text, or null when there is none.
pub open spec fn opt_jv(o: Option<Seq<char>>) -> JsonV {
    match o {
        Some(s) => JsonV::Str(s),
        None => JsonV::Null,
    }
}

/// The JSON value of a variable value: a boolean, a number or a string.
pub open spec fn value_jv(v: ValueV) -> JsonV {
    match v {
        ValueV::Bool(b) => JsonV::Bool(b),
        ValueV::Int(i) => JsonV::Int(i as int),
        ValueV::Float(t) => JsonV::Float(t),
        ValueV::Text(t) => JsonV::Str(t),
    }
}

/// The JSON value of a variable value.
pub fn variable_value_to_json(val: &VariableValue) -> (r: JsonValue)
    ensures
        json_view(r) == value_jv(value_view(*val)),
{
    match val {
        VariableValue::Bool(b) => JsonValue::Bool(*b),
        VariableValue::Int(i) => JsonValue::Int(*i),
        VariableValue::Float(f) => JsonValue::Float(f.clone()),
        VariableValue::Text(s) => JsonValue::Str(s.clone()),
    }
}

fn opt_json(o: Option<String>) -> (r: JsonValue)
    ensures
        json_view(r) == opt_jv(match o { Some(s) => Some(s@), None => None }),
{
    match o {
        Some(s) => JsonValue::Str(s),
        None => JsonValue::Null,
    }
}

/// The readable identifier of the node that output `i` leads to, or null.
pub open spec fn next_jv(ev: Seq<(u128, Seq<char>)>, ws: Seq<Wire>, outs: Seq<PortV>, i: int) -> JsonV {
    opt_jv(next_at(ev, ws, outs, i))
}

fn next_json(entries: &Vec<(u128, String)>, conns: &Vec<Connection>, outputs: &Vec<Port>, i: usize) -> (r: JsonValue)
    ensures
        json_view(r) == next_jv(entries_view(entries@), wires_of(conns@), ports_view(outputs@), i as int),
{
    opt_json(next_from(entries, conns, outputs, i))
}

// ------------------------------------------------------------ node data

/// The speaker of a line: the readable identifier of its character (empty
/// when the character has none), or the free-text speaker name.
pub open spec fn speaker_of(ev: Seq<(u128, Seq<char>)>, speaker_id: Option<u128>, speaker_name: Seq<char>) -> Seq<char> {
    match speaker_id {
        Some(sid) => match lookup_last(ev, sid) {
            Some(r) => r,
            None => seq![],
        },
        None => speaker_name,
    }
}

/// `{variable, operator, value}` of a condition.
pub open spec fn condition_jv(c: CondV) -> JsonV {
    JsonV::Object(seq![
        ("variable"@, JsonV::Str(c.variable_name)),
        ("operator"@, JsonV::Str(op_text(c.operator))),
        ("value"@, value_jv(c.value)),
    ])
}

/// `{text, next, condition}` of option `i` of a choice; `condition` is null
/// for an option without one.
pub open spec fn option_jv(ev: Seq<(u128, Seq<char>)>, ws: Seq<Wire>, outs: Seq<PortV>, o: OptionV, i: int) -> JsonV {
    JsonV::Object(seq![
        ("text"@, JsonV::Str(o.text)),
        ("next"@, next_jv(ev, ws, outs, i)),
        ("condition"@, match o.condition {
            Some(c) => condition_jv(c),
            None => JsonV::Null,
        }),
    ])
}

/// `{action, key, value}` of an event action; the action is its type name in lowercase.
pub open spec fn action_jv(a: ActionV) -> JsonV {
    JsonV::Object(seq![
        ("action"@, JsonV::Str(action_text(a.action_type))),
        ("key"@, JsonV::Str(a.key)),
        ("value"@, value_jv(a.value)),
    ])
}

/// `{weight, next}` of branch `i` of a random node; the weight is a number.
pub open spec fn branch_jv(ev: Seq<(u128, Seq<char>)>, ws: Seq<Wire>, outs: Seq<PortV>, w: u32, i: int) -> JsonV {
    JsonV::Object(seq![("weight"@, JsonV::Float(hundredths_json(w as nat))), ("next"@, next_jv(ev, ws, outs, i))])
}

/// The type name of a node in the export.
pub open spec fn node_type_name(k: KindV) -> Seq<char> {
    match k {
        KindV::Start => "start"@,
        KindV::Dialogue(_) => "dialogue"@,
        KindV::Choice(_, _) => "choice"@,
        KindV::Condition(_) => "condition"@,
        KindV::Event(_) => "event"@,
        KindV::Random(_) => "random"@,
        KindV::End(_) => "end"@,
        KindV::SubGraph(_, _) => "subgraph"@,
    }
}

/// The data of a node in the export: what it says, and the readable
/// identifiers of the nodes its outputs lead to.
pub open spec fn node_data(ev: Seq<(u128, Seq<char>)>, ws: Seq<Wire>, k: KindV, outs: Seq<PortV>) -> JsonV {
    match k {
        KindV::Start => JsonV::Object(seq![("next"@, next_jv(ev, ws, outs, 0))]),
        KindV::Dialogue(d) => JsonV::Object(seq![
            ("speaker"@, JsonV::Str(speaker_of(ev, d.speaker_id, d.speaker_name))),
            ("text"@, JsonV::Str(d.text)),
            ("emotion"@, JsonV::Str(d.emotion)),
            ("portrait"@, opt_jv(d.portrait_override)),
            ("audio"@, opt_jv(d.audio_clip)),
            ("next"@, next_jv(ev, ws, outs, 0)),
        ]),
        KindV::Choice(prompt, opts) => JsonV::Object(seq![
            ("prompt"@, JsonV::Str(prompt)),
            ("options"@, JsonV::Array(Seq::new(opts.len(), |i: int| option_jv(ev, ws, outs, opts[i], i)))),
        ]),
        KindV::Condition(c) => JsonV::Object(seq![
            ("variable"@, JsonV::Str(c.variable_name)),
            ("operator"@, JsonV::Str(op_text(c.operator))),
            ("value"@, value_jv(c.value)),
            ("true_next"@, next_jv(ev, ws, outs, 0)),
            ("false_next"@, next_jv(ev, ws, outs, 1)),
        ]),
        KindV::Event(acts) => JsonV::Object(seq![
            ("actions"@, JsonV::Array(Seq::new(acts.len(), |i: int| action_jv(acts[i])))),
            ("next"@, next_jv(ev, ws, outs, 0)),
        ]),
        KindV::Random(ws2) => JsonV::Object(seq![
            ("branches"@, JsonV::Array(Seq::new(ws2.len(), |i: int| branch_jv(ev, ws, outs, ws2[i], i)))),
        ]),
        KindV::End(tag) => JsonV::Object(seq![("tag"@, JsonV::Str(tag))]),
        KindV::SubGraph(name, _) => JsonV::Object(seq![("name"@, JsonV::Str(name)), ("next"@, next_jv(ev, ws, outs, 0))]),
    }
}

fn speaker_text(entries: &Vec<(u128, String)>, speaker_id: Option<u128>, speaker_name: &String) -> (r: String)
    ensures
        r@ == speaker_of(entries_view(entries@), speaker_id, speaker_name@),
{
    match speaker_id {
        Some(sid) => match crate::readable::lookup_id(entries, sid) {
            Some(r) => r,
            None => String::new(),
        },
        None => speaker_name.clone(),
    }
}

fn condition_json(c: &crate::model::ChoiceCondition) -> (r: JsonValue)
    ensures
        json_view(r) == condition_jv(crate::model::cond_view(*c)),
{
    let mut m: Vec<(String, JsonValue)> = Vec::new();
    push_member(&mut m, "variable", JsonValue::Str(c.variable_name.clone()));
    push_member(&mut m, "operator", JsonValue::Str(owned(compare_op_str(c.operator))));
    push_member(&mut m, "value", variable_value_to_json(&c.value));
    let r = JsonValue::Object(m);
    assert(members_view(m@) =~= seq![
        ("variable"@, JsonV::Str(c.variable_name@)),
        ("operator"@, JsonV::Str(op_text(c.operator))),
        ("value"@, value_jv(value_view(c.value))),
    ]);
    r
}

fn options_json(
    opts: &Vec<crate::model::ChoiceOption>,
    outputs: &Vec<Port>,
    conns: &Vec<Connection>,
    entries: &Vec<(u128, String)>,
) -> (r: Vec<JsonValue>)
    ensures
        items_view(r@) == ({
            let ov = opts@.map_values(|o: crate::model::ChoiceOption| crate::model::option_view(o));
            Seq::new(ov.len(), |i: int| option_jv(entries_view(entries@), wires_of(conns@), ports_view(outputs@), ov[i], i))
        }),
{
    let ghost ev = entries_view(entries@);
    let ghost ws = wires_of(conns@);
    let ghost outs = ports_view(outputs@);
    let ghost ov = opts@.map_values(|o: crate::model::ChoiceOption| crate::model::option_view(o));
    let ghost target = Seq::new(ov.len(), |i: int| option_jv(ev, ws, outs, ov[i], i));
    let mut r: Vec<JsonValue> = Vec::new();
    let mut i: usize = 0;
    assert(items_view(r@) =~= target.take(0));
    while i < opts.len()
        invariant
            i <= opts.len(),
            ev == entries_view(entries@),
            ws == wires_of(conns@),
            outs == ports_view(outputs@),
            ov == opts@.map_values(|o: crate::model::ChoiceOption| crate::model::option_view(o)),
            target == Seq::new(ov.len(), |i: int| option_jv(ev, ws, outs, ov[i], i)),
            items_view(r@) == target.take(i as int),
        decreases opts.len() - i,
    {
        let o = &opts[i];
        let mut m: Vec<(String, JsonValue)> = Vec::new();
        push_member(&mut m, "text", JsonValue::Str(o.text.clone()));
        push_member(&mut m, "next", next_json(entries, conns, outputs, i));
        let cond = match &o.condition {
            Some(c) => condition_json(c),
            None => JsonValue::Null,
        };
        push_member(&mut m, "condition", cond);
        let x = JsonValue::Object(m);
        assert(ov[i as int] == crate::model::option_view(*o));
        let ghost oi = ov[i as int];
        let ghost cj = match oi.condition {
            Some(c) => condition_jv(c),
            None => JsonV::Null,
        };
        assert(json_view(cond) == cj);
        let ghost s1 = seq![
            ("text"@, JsonV::Str(oi.text)),
            ("next"@, next_jv(ev, ws, outs, i as int)),
            ("condition"@, cj),
        ];
        assert(members_view(m@) =~= s1);
        assert(s1 =~= seq![
            ("text"@, JsonV::Str(oi.text)),
            ("next"@, next_jv(ev, ws, outs, i as int)),
            ("condition"@, match oi.condition { Some(c) => condition_jv(c), None => JsonV::Null }),
        ]);
        assert(json_view(x) == target[i as int]);
        push_item(&mut r, x);
        assert(target.take(i + 1) =~= target.take(i as int).push(target[i as int]));
        i = i + 1;
    }
    assert(target.take(opts.len() as int) =~= target);
    r
}

fn actions_json(acts: &Vec<crate::model::EventAction>) -> (r: Vec<JsonValue>)
    ensures
        items_view(r@) == ({
            let av = acts@.map_values(|a: crate::model::EventAction| crate::model::action_view(a));
            Seq::new(av.len(), |i: int| action_jv(av[i]))
        }),
{
    let ghost av = acts@.map_values(|a: crate::model::EventAction| crate::model::action_view(a));
    let ghost target = Seq::new(av.len(), |i: int| action_jv(av[i]));
    let mut r: Vec<JsonValue> = Vec::new();
    let mut i: usize = 0;
    assert(items_view(r@) =~= target.take(0));
    while i < acts.len()
        invariant
            i <= acts.len(),
            av == acts@.map_values(|a: crate::model::EventAction| crate::model::action_view(a)),
            target == Seq::new(av.len(), |i: int| action_jv(av[i])),
            items_view(r@) == target.take(i as int),
        decreases acts.len() - i,
    {
        let a = &acts[i];
        let mut m: Vec<(String, JsonValue)> = Vec::new();
        push_member(&mut m, "action", JsonValue::Str(owned(action_str(a.action_type))));
        push_member(&mut m, "key", JsonValue::Str(a.key.clone()));
        push_member(&mut m, "value", variable_value_to_json(&a.value));
        let x = JsonValue::Object(m);
        assert(av[i as int] == crate::model::action_view(*a));
        assert(members_view(m@) =~= seq![
            ("action"@, JsonV::Str(action_text(a.action_type))),
            ("key"@, JsonV::Str(a.key@)),
            ("value"@, value_jv(value_view(a.value))),
        ]);
        push_item(&mut r, x);
        assert(target.take(i + 1) =~= target.take(i as int).push(target[i as int]));
        i = i + 1;
    }
    assert(target.take(acts.len() as int) =~= target);
    r
}

fn branches_json(
    branches: &Vec<crate::model::RandomBranch>,
    outputs: &Vec<Port>,
    conns: &Vec<Connection>,
    entries: &Vec<(u128, String)>,
) -> (r: Vec<JsonValue>)
    ensures
        items_view(r@) == ({
            let wv = branches@.map_values(|b: crate::model::RandomBranch| b.weight);
            Seq::new(wv.len(), |i: int| branch_jv(entries_view(entries@), wires_of(conns@), ports_view(outputs@), wv[i], i))
        }),
{
    let ghost ev = entries_view(entries@);
    let ghost ws = wires_of(conns@);
    let ghost outs = ports_view(outputs@);
    let ghost wv = branches@.map_values(|b: crate::model::RandomBranch| b.weight);
    let ghost target = Seq::new(wv.len(), |i: int| branch_jv(ev, ws, outs, wv[i], i));
    let mut r: Vec<JsonValue> = Vec::new();
    let mut i: usize = 0;
    assert(items_view(r@) =~= target.take(0));
    while i < branches.len()
        invariant
            i <= branches.len(),
            ev == entries_view(entries@),
            ws == wires_of(conns@),
            outs == ports_view(outputs@),
            wv == branches@.map_values(|b: crate::model::RandomBranch| b.weight),
            target == Seq::new(wv.len(), |i: int| branch_jv(ev, ws, outs, wv[i], i)),
            items_view(r@) == target.take(i as int),
        decreases branches.len() - i,
    {
        let mut m: Vec<(String, JsonValue)> = Vec::new();
        let mut wt = String::new();
        push_hundredths_json(&mut wt, branches[i].weight);
        assert(wt@ =~= hundredths_json(branches@[i as int].weight as nat));
        push_member(&mut m, "weight", JsonValue::Float(wt));
        push_member(&mut m, "next", next_json(entries, conns, outputs, i));
        let x = JsonValue::Object(m);
        assert(wv[i as int] == branches@[i as int].weight);
        assert(members_view(m@) =~= seq![("weight"@, JsonV::Float(hundredths_json(wv[i as int] as nat))), ("next"@, next_jv(ev, ws, outs, i as int))]);
        push_item(&mut r, x);
        assert(target.take(i + 1) =~= target.take(i as int).push(target[i as int]));
        i = i + 1;
    }
    assert(target.take(branches.len() as int) =~= target);
    r
}

/// The value of member `key` among an object's members: that of the last
/// member with the key, as a JSON reader keeps it.
pub open spec fn json_member(ms: Seq<(Seq<char>, JsonV)>, key: Seq<char>) -> Option<JsonV>
    decreases ms.len(),
{
    if ms.len() == 0 {
        None
    } else if ms.last().0 == key {
        Some(ms.last().1)
    } else {
        json_member(ms.drop_last(), key)
    }
}

/// The data of a condition node names, under `true_next`, the node reached
/// from output 0 (taken when the condition holds) and, under `false_next`,
/// the node reached from output 1 (`null` where nothing is reached).
pub open spec fn condition_branches(j: JsonV, ev: Seq<(u128, Seq<char>)>, ws: Seq<Wire>, outs: Seq<PortV>) -> bool {
    j matches JsonV::Object(ms) && json_member(ms, "true_next"@) == Some(opt_jv(reached_id(ev, ws, outs, 0)))
        && json_member(ms, "false_next"@) == Some(opt_jv(reached_id(ev, ws, outs, 1)))
}

/// The exported data of every condition node has `true_next` naming the node
/// reached from output 0 and `false_next` the node reached from output 1.
pub proof fn law_condition_data_branches(ev: Seq<(u128, Seq<char>)>, ws: Seq<Wire>, c: CondV, outs: Seq<PortV>)
    ensures
        condition_branches(node_data(ev, ws, KindV::Condition(c), outs), ev, ws, outs),
{
    reveal_strlit("variable");
    reveal_strlit("operator");
    reveal_strlit("value");
    reveal_strlit("true_next");
    reveal_strlit("false_next");
    assert(next_jv(ev, ws, outs, 0) == opt_jv(reached_id(ev, ws, outs, 0)));
    assert(next_jv(ev, ws, outs, 1) == opt_jv(reached_id(ev, ws, outs, 1)));
    let ms = seq![
        ("variable"@, JsonV::Str(c.variable_name)),
        ("operator"@, JsonV::Str(op_text(c.operator))),
        ("value"@, value_jv(c.value)),
        ("true_next"@, next_jv(ev, ws, outs, 0)),
        ("false_next"@, next_jv(ev, ws, outs, 1)),
    ];
    assert(node_data(ev, ws, KindV::Condition(c), outs) == JsonV::Object(ms));
    assert(ms.drop_last().last() == ("true_next"@, next_jv(ev, ws, outs, 0)));
    assert("true_next"@[0] != "false_next"@[0]);
    assert("true_next"@ != "false_next"@);
    assert(json_member(ms, "false_next"@) == Some(next_jv(ev, ws, outs, 1)));
    assert(json_member(ms.drop_last(), "true_next"@) == Some(next_jv(ev, ws, outs, 0)));
    assert(json_member(ms, "true_next"@) == Some(next_jv(ev, ws, outs, 0)));
}

/// The type name and the data of a node in the export (see `node_data`).
pub fn export_node_data(
    node_type: &NodeType,
    outputs: &Vec<Port>,
    conns: &Vec<Connection>,
    entries: &Vec<(u128, String)>,
) -> (r: (&'static str, JsonValue))
    ensures
        r.0@ == node_type_name(kind_view(*node_type)),
        json_view(r.1) == node_data(entries_view(entries@), wires_of(conns@), kind_view(*node_type), ports_view(outputs@)),
        node_type is Condition ==> condition_branches(json_view(r.1), entries_view(entries@), wires_of(conns@), ports_view(outputs@)),
{
    let ghost ev = entries_view(entries@);
    let ghost ws = wires_of(conns@);
    let ghost outs = ports_view(outputs@);
    let mut m: Vec<(String, JsonValue)> = Vec::new();
    match node_type {
        NodeType::Start => {
            push_member(&mut m, "next", next_json(entries, conns, outputs, 0));
            assert(members_view(m@) =~= seq![("next"@, next_jv(ev, ws, outs, 0))]);
            ("start", JsonValue::Object(m))
        },
        NodeType::Dialogue(d) => {
            push_member(&mut m, "speaker", JsonValue::Str(speaker_text(entries, d.speaker_id, &d.speaker_name)));
            push_member(&mut m, "text", JsonValue::Str(d.text.clone()));
            push_member(&mut m, "emotion", JsonValue::Str(d.emotion.clone()));
            push_member(&mut m, "portrait", opt_json(d.portrait_override.clone()));
            push_member(&mut m, "audio", opt_json(d.audio_clip.clone()));
            push_member(&mut m, "next", next_json(entries, conns, outputs, 0));
            let ghost dv = crate::model::dialogue_view(*d);
            assert(members_view(m@) =~= seq![
                ("speaker"@, JsonV::Str(speaker_of(ev, dv.speaker_id, dv.speaker_name))),
                ("text"@, JsonV::Str(dv.text)),
                ("emotion"@, JsonV::Str(dv.emotion)),
                ("portrait"@, opt_jv(dv.portrait_override)),
                ("audio"@, opt_jv(dv.audio_clip)),
                ("next"@, next_jv(ev, ws, outs, 0)),
            ]);
            ("dialogue", JsonValue::Object(m))
        },
        NodeType::Choice(c) => {
            push_member(&mut m, "prompt", JsonValue::Str(c.prompt.clone()));
            let items = options_json(&c.choices, outputs, conns, entries);
            push_member(&mut m, "options", JsonValue::Array(items));
            let ghost ov = c.choices@.map_values(|o: crate::model::ChoiceOption| crate::model::option_view(o));
            assert(members_view(m@) =~= seq![
                ("prompt"@, JsonV::Str(c.prompt@)),
                ("options"@, JsonV::Array(Seq::new(ov.len(), |i: int| option_jv(ev, ws, outs, ov[i], i)))),
            ]);
            ("choice", JsonValue::Object(m))
        },
        NodeType::Condition(c) => {
            push_member(&mut m, "variable", JsonValue::Str(c.variable_name.clone()));
            push_member(&mut m, "operator", JsonValue::Str(owned(compare_op_str(c.operator))));
            push_member(&mut m, "value", variable_value_to_json(&c.value));
            push_member(&mut m, "true_next", next_json(entries, conns, outputs, 0));
            push_member(&mut m, "false_next", next_json(entries, conns, outputs, 1));
            assert(members_view(m@) =~= seq![
                ("variable"@, JsonV::Str(c.variable_name@)),
                ("operator"@, JsonV::Str(op_text(c.operator))),
                ("value"@, value_jv(value_view(c.value))),
                ("true_next"@, next_jv(ev, ws, outs, 0)),
                ("false_next"@, next_jv(ev, ws, outs, 1)),
            ]);
            proof {
                let cv = CondV { variable_name: c.variable_name@, operator: c.operator, value: value_view(c.value) };
                assert(kind_view(*node_type) == KindV::Condition(cv));
                law_condition_data_branches(ev, ws, cv, outs);
            }
            ("condition", JsonValue::Object(m))
        },
        NodeType::Event(e) => {
            let items = actions_json(&e.actions);
            push_member(&mut m, "actions", JsonValue::Array(items));
            push_member(&mut m, "next", next_json(entries, conns, outputs, 0));
            let ghost av = e.actions@.map_values(|a: crate::model::EventAction| crate::model::action_view(a));
            assert(members_view(m@) =~= seq![
                ("actions"@, JsonV::Array(Seq::new(av.len(), |i: int| action_jv(av[i])))),
                ("next"@, next_jv(ev, ws, outs, 0)),
            ]);
            ("event", JsonValue::Object(m))
        },
        NodeType::Random(rd) => {
            let items = branches_json(&rd.branches, outputs, conns, entries);
            push_member(&mut m, "branches", JsonValue::Array(items));
            let ghost wv = rd.branches@.map_values(|b: crate::model::RandomBranch| b.weight);
            assert(members_view(m@) =~= seq![
                ("branches"@, JsonV::Array(Seq::new(wv.len(), |i: int| branch_jv(ev, ws, outs, wv[i], i)))),
            ]);
            ("random", JsonValue::Object(m))
        },
        NodeType::End(e) => {
            push_member(&mut m, "tag", JsonValue::Str(e.tag.clone()));
            assert(members_view(m@) =~= seq![("tag"@, JsonV::Str(e.tag@))]);
            ("end", JsonValue::Object(m))
        },
        NodeType::SubGraph(s) => {
            push_member(&mut m, "name", JsonValue::Str(s.name.clone()));
            push_member(&mut m, "next", next_json(entries, conns, outputs, 0));
            assert(members_view(m@) =~= seq![("name"@, JsonV::Str(s.name@)), ("next"@, next_jv(ev, ws, outs, 0))]);
            ("subgraph", JsonValue::Object(m))
        },
    }
}

// ------------------------------------------------------------ string table

/// The texts of a translatable string by locale: its text in the default
/// locale, then its translation into each extra locale (empty when it has none).
pub open spec fn locale_texts(l: LocaleV, s: StringV) -> Seq<(Seq<char>, JsonV)> {
    seq![(l.default_locale, JsonV::Str(s.3))] + Seq::new(
        l.extra_locales.len(),
        |j: int| (l.extra_locales[j], JsonV::Str(text_or_empty(translation_in(l.translations, s.0, l.extra_locales[j])))),
    )
}

/// The string table: for each translatable string in order, its readable key
/// and its texts by locale.
pub open spec fn string_table(l: LocaleV, ev: Seq<(u128, Seq<char>)>, ss: Seq<StringV>) -> JsonV {
    JsonV::Object(Seq::new(ss.len(), |i: int| (readable_key(ev, ss[i]), JsonV::Object(locale_texts(l, ss[i])))))
}

fn locale_texts_json(l: &LocaleSettings, t: &TranslatableString) -> (r: JsonValue)
    ensures
        json_view(r) == JsonV::Object(locale_texts(locale_view(*l), ts_view(*t))),
{
    let ghost lv = locale_view(*l);
    let ghost head = seq![(lv.default_locale, JsonV::Str(t.default_text@))];
    let ghost tail = Seq::new(
        lv.extra_locales.len(),
        |j: int| (lv.extra_locales[j], JsonV::Str(text_or_empty(translation_in(lv.translations, t.key@, lv.extra_locales[j])))),
    );
    let mut m: Vec<(String, JsonValue)> = Vec::new();
    push_member(&mut m, l.default_locale.as_str(), JsonValue::Str(t.default_text.clone()));
    assert(members_view(m@) =~= head + tail.take(0));
    let mut j: usize = 0;
    while j < l.extra_locales.len()
        invariant
            j <= l.extra_locales.len(),
            lv == locale_view(*l),
            lv.extra_locales.len() == l.extra_locales.len(),
            tail == Seq::new(
                lv.extra_locales.len(),
                |j: int| (lv.extra_locales[j], JsonV::Str(text_or_empty(translation_in(lv.translations, t.key@, lv.extra_locales[j])))),
            ),
            members_view(m@) == head + tail.take(j as int),
        decreases l.extra_locales.len() - j,
    {
        let loc = &l.extra_locales[j];
        assert(lv.extra_locales[j as int] == loc@);
        let tr = l.get_translation(t.key.as_str(), loc.as_str());
        proof {
            crate::locale::lemma_translation_view(l.translations@, t.key@, loc@);
            reveal_strlit("");
        }
        let text: &str = match tr {
            Some(x) => x,
            None => "",
        };
        assert(text@ == text_or_empty(translation_in(lv.translations, t.key@, loc@)));
        push_member(&mut m, loc.as_str(), JsonValue::Str(owned(text)));
        assert(tail[j as int] == (loc@, JsonV::Str(text@)));
        assert(tail.take(j + 1) =~= tail.take(j as int).push(tail[j as int]));
        assert(members_view(m@) =~= head + tail.take(j + 1));
        j = j + 1;
    }
    assert(tail.take(l.extra_locales.len() as int) =~= tail);
    assert(members_view(m@) =~= locale_texts(lv, ts_view(*t)));
    JsonValue::Object(m)
}

/// The string table of the graph (see `string_table`), with the nodes named
/// by the readable identifiers in `entries`.
pub fn build_string_table(graph: &DialogueGraph, entries: &Vec<(u128, String)>) -> (r: JsonValue)
    ensures
        json_view(r) == string_table(locale_view(graph.locale), entries_view(entries@), translatable(nodes_view(graph.nodes@))),
{
    let ghost lv = locale_view(graph.locale);
    let ghost ev = entries_view(entries@);
    let strings = collect_translatable_strings(graph);
    let ghost ss = strings@.map_values(|t: TranslatableString| ts_view(t));
    let ghost target = Seq::new(ss.len(), |i: int| (readable_key(ev, ss[i]), JsonV::Object(locale_texts(lv, ss[i]))));
    let mut table: Vec<(String, JsonValue)> = Vec::new();
    let mut k: usize = 0;
    assert(members_view(table@) =~= target.take(0));
    while k < strings.len()
        invariant
            k <= strings.len(),
            lv == locale_view(graph.locale),
            ev == entries_view(entries@),
            ss == strings@.map_values(|t: TranslatableString| ts_view(t)),
            target == Seq::new(ss.len(), |i: int| (readable_key(ev, ss[i]), JsonV::Object(locale_texts(lv, ss[i])))),
            members_view(table@) == target.take(k as int),
        decreases strings.len() - k,
    {
        let t = &strings[k];
        assert(ss[k as int] == ts_view(*t));
        let key = readable_key_of(entries, t);
        let texts = locale_texts_json(&graph.locale, t);
        push_member(&mut table, key.as_str(), texts);
        assert(target.take(k + 1) =~= target.take(k as int).push(target[k as int]));
        k = k + 1;
    }
    assert(target.take(strings.len() as int) =~= target);
    JsonValue::Object(table)
}

// ------------------------------------------------------------ records

pub struct ExportedVariable {
    pub name: String,
    pub var_type: String,
    pub default: JsonValue,
}

pub struct ExportedNode {
    pub id: String,
    pub node_type: String,
    pub data: JsonValue,
}

/// An ambient line; `weight` is counted in hundredths.
pub struct ExportedBarkLine {
    pub text: String,
    pub weight: u32,
    pub condition: Option<String>,
}

pub struct ExportedBarkGroup {
    pub character: String,
    pub lines: Vec<ExportedBarkLine>,
}

/// The exported document.
pub struct ExportedDialogue {
    pub version: String,
    pub name: String,
    pub default_locale: Option<String>,
    pub locales: Option<Vec<String>>,
    pub variables: Vec<ExportedVariable>,
    pub characters: Vec<ExportedCharacter>,
    pub nodes: Vec<ExportedNode>,
    pub strings: Option<JsonValue>,
    pub barks: Vec<ExportedBarkGroup>,
    pub world_entities: Vec<ExportedWorldEntity>,
}

/// A record as values: readable identifier or name, type name, JSON value.
pub type TripleV = (Seq<char>, Seq<char>, JsonV);

/// A character record as values: identifier, name, portrait, `#RRGGBB` colour,
/// number of relationships.
pub type CharacterRecordV = (Seq<char>, Seq<char>, Option<Seq<char>>, Seq<char>, nat);

pub struct ExportV {
    pub version: Seq<char>,
    pub name: Seq<char>,
    pub default_locale: Option<Seq<char>>,
    pub locales: Option<Seq<Seq<char>>>,
    pub variables: Seq<TripleV>,
    pub characters: Seq<CharacterRecordV>,
    pub nodes: Seq<TripleV>,
    pub strings: Option<JsonV>,
    pub barks: Seq<(Seq<char>, Seq<BarkV>)>,
    pub world_entities: Seq<ExportedEntityV>,
}

pub open spec fn variable_triple(x: ExportedVariable) -> TripleV {
    (x.name@, x.var_type@, json_view(x.default))
}

pub open spec fn node_triple(x: ExportedNode) -> TripleV {
    (x.id@, x.node_type@, json_view(x.data))
}

pub open spec fn character_record_view(x: ExportedCharacter) -> CharacterRecordV {
    (x.id@, x.name@, opt_view(x.portrait), x.color@, x.relationships.len() as nat)
}

pub open spec fn bark_line_view(x: ExportedBarkLine) -> BarkV {
    BarkV { text: x.text@, weight: x.weight, condition_variable: opt_view(x.condition) }
}

pub open spec fn bark_group_view(x: ExportedBarkGroup) -> (Seq<char>, Seq<BarkV>) {
    (x.character@, x.lines@.map_values(|l: ExportedBarkLine| bark_line_view(l)))
}

pub open spec fn export_view(e: ExportedDialogue) -> ExportV {
    ExportV {
        version: e.version@,
        name: e.name@,
        default_locale: opt_view(e.default_locale),
        locales: match e.locales {
            Some(v) => Some(crate::model::strings_view(v@)),
            None => None,
        },
        variables: e.variables@.map_values(|x: ExportedVariable| variable_triple(x)),
        characters: e.characters@.map_values(|x: ExportedCharacter| character_record_view(x)),
        nodes: e.nodes@.map_values(|x: ExportedNode| node_triple(x)),
        strings: match e.strings {
            Some(j) => Some(json_view(j)),
            None => None,
        },
        barks: e.barks@.map_values(|x: ExportedBarkGroup| bark_group_view(x)),
        world_entities: e.world_entities@.map_values(|x: ExportedWorldEntity| exported_entity_view(x)),
    }
}

/// What a variable becomes: name, type name in lowercase, default value.
pub open spec fn variable_record(v: VariableV) -> TripleV {
    (v.name, var_type_text(v.var_type), value_jv(v.default_value))
}

/// What a character becomes: its readable identifier, name, portrait path
/// (absent when empty) and colour as `#RRGGBB`, with no relationships.
pub open spec fn character_record(ev: Seq<(u128, Seq<char>)>, c: CharacterV) -> CharacterRecordV {
    (
        id_or_uuid(lookup_last(ev, c.id), c.id),
        c.name,
        if c.portrait_path.len() == 0 { None } else { Some(c.portrait_path) },
        seq!['#'] + byte_hex(c.color[0]) + byte_hex(c.color[1]) + byte_hex(c.color[2]),
        0,
    )
}

/// What a node becomes: its readable identifier, type name and data.
pub open spec fn node_record(ev: Seq<(u128, Seq<char>)>, ws: Seq<Wire>, n: NodeV) -> TripleV {
    (id_or_uuid(lookup_last(ev, n.id), n.id), node_type_name(n.kind), node_data(ev, ws, n.kind, n.outputs))
}

/// The name of the first character with identifier `id`.
pub open spec fn name_of(cs: Seq<CharacterV>, id: u128) -> Option<Seq<char>>
    decreases cs.len(),
{
    if cs.len() == 0 {
        None
    } else if cs[0].id == id {
        Some(cs[0].name)
    } else {
        name_of(cs.drop_first(), id)
    }
}

/// The bark groups: one for each character entry with lines, named by the
/// character's name (or its identifier's text when no character has it).
pub open spec fn bark_groups(cs: Seq<CharacterV>, barks: Seq<(u128, Seq<BarkV>)>) -> Seq<(Seq<char>, Seq<BarkV>)>
    decreases barks.len(),
{
    if barks.len() == 0 {
        seq![]
    } else {
        bark_groups(cs, barks.drop_last()) + if barks.last().1.len() > 0 {
            seq![(
                match name_of(cs, barks.last().0) {
                    Some(n) => n,
                    None => uuid_hyphenated(barks.last().0),
                },
                barks.last().1,
            )]
        } else {
            seq![]
        }
    }
}

/// The document exported from graph `g` under the project name `name`: the
/// locales and the string table only when the graph has extra locales.
pub open spec fn export_of(g: DialogueGraph, name: Seq<char>) -> ExportV {
    let gv = graph_view(g);
    let ev = id_entries(gv);
    let ws = wires_of(g.connections@);
    let has_locales = gv.locale.extra_locales.len() > 0;
    ExportV {
        version: "1.0"@,
        name: name,
        default_locale: if has_locales { Some(gv.locale.default_locale) } else { None },
        locales: if has_locales { Some(seq![gv.locale.default_locale] + gv.locale.extra_locales) } else { None },
        variables: gv.variables.map_values(|v: VariableV| variable_record(v)),
        characters: gv.characters.map_values(|c: CharacterV| character_record(ev, c)),
        nodes: gv.nodes.map_values(|n: NodeV| node_record(ev, ws, n)),
        strings: if has_locales { Some(string_table(gv.locale, ev, translatable(gv.nodes))) } else { None },
        barks: bark_groups(gv.characters, gv.barks),
        world_entities: g.world_entities@.map_values(|e: WorldEntity| entity_record(e)),
    }
}

/// In the exported document, the record of every condition node has type
/// `condition` and data whose `true_next` names the node reached from output
/// 0 and whose `false_next` names the node reached from output 1.
pub proof fn law_export_condition_branches(g: DialogueGraph, name: Seq<char>, j: int, c: CondV)
    requires
        0 <= j < graph_view(g).nodes.len(),
        graph_view(g).nodes[j].kind == KindV::Condition(c),
    ensures
        export_of(g, name).nodes[j].1 == "condition"@,
        condition_branches(export_of(g, name).nodes[j].2, id_entries(graph_view(g)), wires_of(g.connections@),
            graph_view(g).nodes[j].outputs),
{
    let gv = graph_view(g);
    let n = gv.nodes[j];
    assert(export_of(g, name).nodes[j] == node_record(id_entries(gv), wires_of(g.connections@), n));
    law_condition_data_branches(id_entries(gv), wires_of(g.connections@), c, n.outputs);
}

fn export_variables(g: &DialogueGraph) -> (r: Vec<ExportedVariable>)
    ensures
        r@.map_values(|x: ExportedVariable| variable_triple(x))
            == graph_view(*g).variables.map_values(|v: VariableV| variable_record(v)),
{
    let ghost target = graph_view(*g).variables.map_values(|v: VariableV| variable_record(v));
    let mut r: Vec<ExportedVariable> = Vec::new();
    let mut i: usize = 0;
    assert(r@.map_values(|x: ExportedVariable| variable_triple(x)) =~= target.take(0));
    while i < g.variables.len()
        invariant
            i <= g.variables.len(),
            target == graph_view(*g).variables.map_values(|v: VariableV| variable_record(v)),
            target.len() == g.variables.len(),
            r@.map_values(|x: ExportedVariable| variable_triple(x)) == target.take(i as int),
        decreases g.variables.len() - i,
    {
        let v = &g.variables[i];
        let x = ExportedVariable {
            name: v.name.clone(),
            var_type: owned(var_type_str(v.var_type)),
            default: variable_value_to_json(&v.default_value),
        };
        assert(target[i as int] == variable_record(variable_view(*v)));
        let ghost prev = r@;
        r.push(x);
        assert(r@.map_values(|x: ExportedVariable| variable_triple(x))
            =~= prev.map_values(|x: ExportedVariable| variable_triple(x)).push(target[i as int]));
        assert(target.take(i + 1) =~= target.take(i as int).push(target[i as int]));
        i = i + 1;
    }
    assert(target.take(g.variables.len() as int) =~= target);
    r
}

fn id_text(entries: &Vec<(u128, String)>, id: u128) -> (r: String)
    ensures
        r@ == id_or_uuid(lookup_last(entries_view(entries@), id), id),
{
    match lookup_id(entries, id) {
        Some(t) => t,
        None => uuid_text(id),
    }
}

fn export_characters(g: &DialogueGraph, entries: &Vec<(u128, String)>) -> (r: Vec<ExportedCharacter>)
    ensures
        r@.map_values(|x: ExportedCharacter| character_record_view(x))
            == graph_view(*g).characters.map_values(|c: CharacterV| character_record(entries_view(entries@), c)),
{
    let ghost ev = entries_view(entries@);
    let ghost target = graph_view(*g).characters.map_values(|c: CharacterV| character_record(ev, c));
    let mut r: Vec<ExportedCharacter> = Vec::new();
    let mut i: usize = 0;
    assert(r@.map_values(|x: ExportedCharacter| character_record_view(x)) =~= target.take(0));
    while i < g.characters.len()
        invariant
            i <= g.characters.len(),
            ev == entries_view(entries@),
            target == graph_view(*g).characters.map_values(|c: CharacterV| character_record(ev, c)),
            target.len() == g.characters.len(),
            r@.map_values(|x: ExportedCharacter| character_record_view(x)) == target.take(i as int),
        decreases g.characters.len() - i,
    {
        let c = &g.characters[i];
        let mut color = String::new();
        push_str(&mut color, "#");
        push_byte_hex(&mut color, c.color[0]);
        push_byte_hex(&mut color, c.color[1]);
        push_byte_hex(&mut color, c.color[2]);
        proof {
            reveal_strlit("#");
        }
        let portrait = if c.portrait_path.as_str().unicode_len() == 0 {
            None
        } else {
            Some(c.portrait_path.clone())
        };
        let x = ExportedCharacter {
            id: id_text(entries, c.id),
            name: c.name.clone(),
            portrait,
            color,
            relationships: Vec::new(),
        };
        assert(target[i as int] == character_record(ev, character_view(*c)));
        assert(x.color@ =~= seq!['#'] + byte_hex(c.color[0]) + byte_hex(c.color[1]) + byte_hex(c.color[2]));
        assert(character_record_view(x) == target[i as int]);
        let ghost prev = r@;
        r.push(x);
        assert(r@.map_values(|x: ExportedCharacter| character_record_view(x))
            =~= prev.map_values(|x: ExportedCharacter| character_record_view(x)).push(target[i as int]));
        assert(target.take(i + 1) =~= target.take(i as int).push(target[i as int]));
        i = i + 1;
    }
    assert(target.take(g.characters.len() as int) =~= target);
    r
}

fn export_nodes(g: &DialogueGraph, entries: &Vec<(u128, String)>) -> (r: Vec<ExportedNode>)
    ensures
        r@.map_values(|x: ExportedNode| node_triple(x))
            == graph_view(*g).nodes.map_values(|n: NodeV| node_record(entries_view(entries@), wires_of(g.connections@), n)),
{
    let ghost ev = entries_view(entries@);
    let ghost ws = wires_of(g.connections@);
    let ghost nv = nodes_view(g.nodes@);
    let ghost target = nv.map_values(|n: NodeV| node_record(ev, ws, n));
    proof {
        lemma_nodes_view(g.nodes@);
    }
    let mut r: Vec<ExportedNode> = Vec::new();
    let mut i: usize = 0;
    assert(r@.map_values(|x: ExportedNode| node_triple(x)) =~= target.take(0));
    while i < g.nodes.len()
        invariant
            i <= g.nodes.len(),
            ev == entries_view(entries@),
            ws == wires_of(g.connections@),
            nv == nodes_view(g.nodes@),
            nv.len() == g.nodes.len(),
            forall|k: int| 0 <= k < g.nodes.len() ==> #[trigger] nv[k] == node_view(g.nodes@[k]),
            target == nv.map_values(|n: NodeV| node_record(ev, ws, n)),
            r@.map_values(|x: ExportedNode| node_triple(x)) == target.take(i as int),
        decreases g.nodes.len() - i,
    {
        let n = &g.nodes[i];
        let (kind_name, data) = export_node_data(&n.node_type, &n.outputs, &g.connections, entries);
        let x = ExportedNode { id: id_text(entries, n.id), node_type: owned(kind_name), data };
        assert(nv[i as int] == node_view(*n));
        assert(node_triple(x) == target[i as int]);
        let ghost prev = r@;
        r.push(x);
        assert(r@.map_values(|x: ExportedNode| node_triple(x))
            =~= prev.map_values(|x: ExportedNode| node_triple(x)).push(target[i as int]));
        assert(target.take(i + 1) =~= target.take(i as int).push(target[i as int]));
        i = i + 1;
    }
    assert(target.take(g.nodes.len() as int) =~= target);
    r
}

fn character_name(cs: &Vec<crate::model::Character>, id: u128) -> (r: Option<String>)
    ensures
        match r {
            Some(n) => name_of(cs@.map_values(|c: crate::model::Character| character_view(c)), id) == Some(n@),
            None => name_of(cs@.map_values(|c: crate::model::Character| character_view(c)), id) is None,
        },
{
    let ghost cv = cs@.map_values(|c: crate::model::Character| character_view(c));
    let mut i: usize = 0;
    assert(cv.skip(0) =~= cv);
    while i < cs.len()
        invariant
            i <= cs.len(),
            cv == cs@.map_values(|c: crate::model::Character| character_view(c)),
            name_of(cv, id) == name_of(cv.skip(i as int), id),
        decreases cs.len() - i,
    {
        assert(cv.skip(i as int)[0] == character_view(cs@[i as int]));
        if cs[i].id == id {
            return Some(cs[i].name.clone());
        }
        assert(cv.skip(i as int).drop_first() =~= cv.skip(i + 1));
        i = i + 1;
    }
    None
}

fn export_bark_lines(lines: &Vec<BarkLine>) -> (r: Vec<ExportedBarkLine>)
    ensures
        r@.map_values(|l: ExportedBarkLine| bark_line_view(l)) == barks_view(lines@),
{
    let mut r: Vec<ExportedBarkLine> = Vec::new();
    let mut i: usize = 0;
    while i < lines.len()
        invariant
            i <= lines.len(),
            r@.len() == i,
            forall|j: int| 0 <= j < i ==> bark_line_view(#[trigger] r@[j]) == bark_view(lines@[j]),
        decreases lines.len() - i,
    {
        r.push(ExportedBarkLine {
            text: lines[i].text.clone(),
            weight: lines[i].weight,
            condition: crate::copy::copy_opt_string(&lines[i].condition_variable),
        });
        i = i + 1;
    }
    assert(r@.map_values(|l: ExportedBarkLine| bark_line_view(l)) =~= barks_view(lines@));
    r
}

fn export_bark_groups(g: &DialogueGraph) -> (r: Vec<ExportedBarkGroup>)
    ensures
        r@.map_values(|x: ExportedBarkGroup| bark_group_view(x))
            == bark_groups(graph_view(*g).characters, graph_view(*g).barks),
{
    let ghost cv = graph_view(*g).characters;
    let ghost bv = graph_view(*g).barks;
    let mut r: Vec<ExportedBarkGroup> = Vec::new();
    let mut i: usize = 0;
    assert(bv.take(0) =~= Seq::<(u128, Seq<BarkV>)>::empty());
    assert(r@.map_values(|x: ExportedBarkGroup| bark_group_view(x)) =~= bark_groups(cv, bv.take(0)));
    while i < g.barks.len()
        invariant
            i <= g.barks.len(),
            cv == graph_view(*g).characters,
            bv == graph_view(*g).barks,
            bv.len() == g.barks.len(),
            r@.map_values(|x: ExportedBarkGroup| bark_group_view(x)) == bark_groups(cv, bv.take(i as int)),
        decreases g.barks.len() - i,
    {
        let entry = &g.barks[i];
        assert(bv[i as int] == (entry.0, barks_view(entry.1@)));
        assert(bv.take(i + 1).drop_last() =~= bv.take(i as int));
        let ghost prev = r@;
        if entry.1.len() > 0 {
            let character = match character_name(&g.characters, entry.0) {
                Some(n) => n,
                None => uuid_text(entry.0),
            };
            let lines = export_bark_lines(&entry.1);
            r.push(ExportedBarkGroup { character, lines });
            assert(r@.map_values(|x: ExportedBarkGroup| bark_group_view(x))
                =~= prev.map_values(|x: ExportedBarkGroup| bark_group_view(x)) + seq![bark_group_view(r@.last())]);
        } else {
            assert(r@.map_values(|x: ExportedBarkGroup| bark_group_view(x))
                =~= prev.map_values(|x: ExportedBarkGroup| bark_group_view(x)) + Seq::<(Seq<char>, Seq<BarkV>)>::empty());
        }
        i = i + 1;
    }
    assert(bv.take(g.barks.len() as int) =~= bv);
    r
}

/// The exported document of `graph` under the project name `name` (see
/// `export_of`): version "1.0", the variables, characters and nodes with
/// readable identifiers, the locales and string table when the graph has
/// extra locales, the bark groups and the world entities.
pub fn build_export(graph: &DialogueGraph, name: &str) -> (r: ExportedDialogue)
    ensures
        export_view(r) == export_of(*graph, name@),
{
    let entries = build_id_map(graph);
    let has_locales = graph.locale.has_extra_locales();
    let default_locale = if has_locales { Some(graph.locale.default_locale.clone()) } else { None };
    let locales = if has_locales {
        let mut all: Vec<String> = Vec::new();
        all.push(graph.locale.default_locale.clone());
        let mut extra = crate::copy::copy_strings(&graph.locale.extra_locales);
        all.append(&mut extra);
        assert(crate::model::strings_view(all@) =~= seq![graph.locale.default_locale@]
            + graph.locale.extra_locales@.map_values(|s: String| s@));
        Some(all)
    } else {
        None
    };
    let strings = if has_locales { Some(build_string_table(graph, &entries)) } else { None };
    let r = ExportedDialogue {
        version: owned("1.0"),
        name: owned(name),
        default_locale,
        locales,
        variables: export_variables(graph),
        characters: export_characters(graph, &entries),
        nodes: export_nodes(graph, &entries),
        strings,
        barks: export_bark_groups(graph),
        world_entities: build_world_entities(graph),
    };
    assert(export_view(r) =~= export_of(*graph, name@));
    r
}

} // verus!
