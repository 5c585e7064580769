//! The XML export: variables, characters, the string table of the extra
//! locales, and every node of the flattened graph in canvas order with its
//! readable identifier and the identifiers of the nodes its outputs lead to.

use vstd::prelude::*;
use crate::bark_export::text_or_empty;
use crate::csv::push_str;
use crate::flatten::{flat_view, flat_wires, flatten_subgraphs};
use crate::ident::{uuid_hyphenated, uuid_text};
use crate::locale::{LocaleSettings, LocaleV, locale_view};
use crate::locale_export::{StringType, StringV, TranslatableString, collect_translatable_strings, translatable, ts_view};
use crate::model::{
    ActionV, CharacterV, CondV, DialogueGraph, EventActionType, GraphV, KindV, NodeType, NodeV, OptionV, PortV, ValueV,
    VariableType, VariableV, VariableValue, Wire, value_view,
};
use crate::readable::{id_entries, lookup_last, next_at, node_order, op_text, reached_id};
use crate::text::{begins_with, byte_hex, ends_with, int_decimal, lemma_affixes_concat, lemma_affixes_of, lemma_occurs_within, occurs_at, push_byte_hex, push_char, push_int};

verus! {

/// The text that stands for a character in XML text and attribute values.
pub open spec fn xml_piece(c: char) -> Seq<char> {
    if c == '&' {
        "&amp;"@
    } else if c == '<' {
        "&lt;"@
    } else if c == '>' {
        "&gt;"@
    } else if c == '"' {
        "&quot;"@
    } else if c == '\'' {
        "&apos;"@
    } else {
        seq![c]
    }
}

/// `s` with `& < > " '` replaced by their XML entities.
pub open spec fn xml_esc(s: Seq<char>) -> Seq<char>
    decreases s.len(),
{
    if s.len() == 0 {
        seq![]
    } else {
        xml_esc(s.drop_last()) + xml_piece(s.last())
    }
}

/// Writes `xml_esc(s)` at the end of `out`.
pub fn push_xml_escaped(out: &mut String, s: &str)
    ensures
        final(out)@ == old(out)@ + xml_esc(s@),
{
    let n = s.unicode_len();
    let ghost start = out@;
    let mut i: usize = 0;
    assert(s@.take(0) =~= Seq::<char>::empty());
    while i < n
        invariant
            n == s@.len(),
            i <= n,
            out@ == start + xml_esc(s@.take(i as int)),
        decreases n - i,
    {
        let c = s.get_char(i);
        if c == '&' {
            push_str(out, "&amp;");
        } else if c == '<' {
            push_str(out, "&lt;");
        } else if c == '>' {
            push_str(out, "&gt;");
        } else if c == '"' {
            push_str(out, "&quot;");
        } else if c == '\'' {
            push_str(out, "&apos;");
        } else {
            push_char(out, c);
        }
        proof {
            assert(s@.take(i + 1).drop_last() =~= s@.take(i as int));
            assert(s@.take(i + 1).last() == c);
            assert(out@ =~= start + xml_esc(s@.take(i + 1)));
        }
        i = i + 1;
    }
    assert(s@.take(n as int) =~= s@);
}

/// `s` escaped for XML.
pub fn xml_escape(s: &str) -> (r: String)
    ensures
        r@ == xml_esc(s@),
{
    let mut r = String::new();
    push_xml_escaped(&mut r, s);
    assert(r@ =~= xml_esc(s@));
    r
}

pub open spec fn bool_text(b: bool) -> Seq<char> {
    if b { "true"@ } else { "false"@ }
}

/// A value as written in an attribute: booleans and numbers as they are,
/// text escaped.
pub open spec fn value_text(v: ValueV) -> Seq<char> {
    match v {
        ValueV::Bool(b) => bool_text(b),
        ValueV::Int(i) => int_decimal(i as int),
        ValueV::Float(f) => f,
        ValueV::Text(t) => xml_esc(t),
    }
}

pub open spec fn value_type_text(v: ValueV) -> Seq<char> {
    match v {
        ValueV::Bool(_) => "bool"@,
        ValueV::Int(_) => "int"@,
        ValueV::Float(_) => "float"@,
        ValueV::Text(_) => "string"@,
    }
}

/// Writes `value_text` of a value.
pub fn push_value(out: &mut String, v: &VariableValue)
    ensures
        final(out)@ == old(out)@ + value_text(value_view(*v)),
{
    match v {
        VariableValue::Bool(b) => {
            if *b {
                push_str(out, "true");
            } else {
                push_str(out, "false");
            }
        },
        VariableValue::Int(i) => push_int(out, *i),
        VariableValue::Float(f) => push_str(out, f.as_str()),
        VariableValue::Text(t) => push_xml_escaped(out, t.as_str()),
    }
}

/// The value of a variable as XML attribute text.
pub fn variable_value_str(v: &VariableValue) -> (r: String)
    ensures
        r@ == value_text(value_view(*v)),
{
    let mut r = String::new();
    push_value(&mut r, v);
    assert(r@ =~= value_text(value_view(*v)));
    r
}

/// The type name of a value.
pub fn variable_type_str(v: &VariableValue) -> (r: &'static str)
    ensures
        r@ == value_type_text(value_view(*v)),
{
    match v {
        VariableValue::Bool(_) => "bool",
        VariableValue::Int(_) => "int",
        VariableValue::Float(_) => "float",
        VariableValue::Text(_) => "string",
    }
}

pub open spec fn var_type_text(t: VariableType) -> Seq<char> {
    match t {
        VariableType::Bool => "bool"@,
        VariableType::Int => "int"@,
        VariableType::Float => "float"@,
        VariableType::Text => "text"@,
    }
}

/// The lowercase name of a variable type.
pub fn var_type_str(t: VariableType) -> (r: &'static str)
    ensures
        r@ == var_type_text(t),
{
    match t {
        VariableType::Bool => "bool",
        VariableType::Int => "int",
        VariableType::Float => "float",
        VariableType::Text => "text",
    }
}

pub open spec fn action_text(t: EventActionType) -> Seq<char> {
    match t {
        EventActionType::SetVariable => "setvariable"@,
        EventActionType::AddItem => "additem"@,
        EventActionType::RemoveItem => "removeitem"@,
        EventActionType::PlaySound => "playsound"@,
        EventActionType::ModifyRelationship => "modifyrelationship"@,
        EventActionType::StartQuest => "startquest"@,
        EventActionType::CompleteObjective => "completeobjective"@,
        EventActionType::FailQuest => "failquest"@,
        EventActionType::Custom => "custom"@,
    }
}

pub fn action_str(t: EventActionType) -> (r: &'static str)
    ensures
        r@ == action_text(t),
{
    match t {
        EventActionType::SetVariable => "setvariable",
        EventActionType::AddItem => "additem",
        EventActionType::RemoveItem => "removeitem",
        EventActionType::PlaySound => "playsound",
        EventActionType::ModifyRelationship => "modifyrelationship",
        EventActionType::StartQuest => "startquest",
        EventActionType::CompleteObjective => "completeobjective",
        EventActionType::FailQuest => "failquest",
        EventActionType::Custom => "custom",
    }
}

// ------------------------------------------------------------ variables, characters

pub open spec fn var_line(v: VariableV) -> Seq<char> {
    "    <variable name=\""@ + xml_esc(v.name) + "\" type=\""@ + var_type_text(v.var_type) + "\" default=\""@
        + value_text(v.default_value) + "\"/>\n"@
}

pub open spec fn var_lines(vs: Seq<VariableV>) -> Seq<char>
    decreases vs.len(),
{
    if vs.len() == 0 { seq![] } else { var_lines(vs.drop_last()) + var_line(vs.last()) }
}

/// The `<variables>` element.
pub open spec fn variables_xml(vs: Seq<VariableV>) -> Seq<char> {
    if vs.len() == 0 {
        "  <variables/>\n"@
    } else {
        "  <variables>\n"@ + var_lines(vs) + "  </variables>\n"@
    }
}

/// Writes the `<variables>` element of a graph.
pub fn write_variables(graph: &DialogueGraph, out: &mut String)
    ensures
        final(out)@ == old(out)@ + variables_xml(crate::model::graph_view(*graph).variables),
{
    let ghost vs = crate::model::graph_view(*graph).variables;
    if graph.variables.len() == 0 {
        push_str(out, "  <variables/>\n");
        return;
    }
    push_str(out, "  <variables>\n");
    let ghost start = out@;
    let mut i: usize = 0;
    assert(vs.take(0) =~= Seq::<VariableV>::empty());
    assert(out@ =~= start + var_lines(vs.take(0)));
    while i < graph.variables.len()
        invariant
            i <= graph.variables.len(),
            vs == crate::model::graph_view(*graph).variables,
            vs.len() == graph.variables.len(),
            out@ == start + var_lines(vs.take(i as int)),
        decreases graph.variables.len() - i,
    {
        let v = &graph.variables[i];
        assert(vs[i as int] == crate::model::variable_view(*v));
        let ghost before = out@;
        push_str(out, "    <variable name=\"");
        push_xml_escaped(out, v.name.as_str());
        push_str(out, "\" type=\"");
        push_str(out, var_type_str(v.var_type));
        push_str(out, "\" default=\"");
        push_value(out, &v.default_value);
        push_str(out, "\"/>\n");
        proof {
            assert(out@ =~= before + var_line(vs[i as int]));
            assert(vs.take(i + 1).drop_last() =~= vs.take(i as int));
            assert(out@ =~= start + var_lines(vs.take(i + 1)));
        }
        i = i + 1;
    }
    assert(vs.take(graph.variables.len() as int) =~= vs);
    push_str(out, "  </variables>\n");
    assert(out@ =~= old(out)@ + variables_xml(vs));
}

/// A readable identifier, or the identifier's text form when it has none.
pub open spec fn id_or_uuid(r: Option<Seq<char>>, id: u128) -> Seq<char> {
    match r {
        Some(t) => t,
        None => uuid_hyphenated(id),
    }
}

pub open spec fn char_line(entries: Seq<(u128, Seq<char>)>, c: CharacterV) -> Seq<char> {
    "    <character id=\""@ + id_or_uuid(lookup_last(entries, c.id), c.id) + "\" name=\""@ + xml_esc(c.name)
        + "\" color=\"#"@ + byte_hex(c.color[0]) + byte_hex(c.color[1]) + byte_hex(c.color[2]) + "\""@
        + if c.portrait_path.len() == 0 {
            "/>\n"@
        } else {
            " portrait=\""@ + xml_esc(c.portrait_path) + "\"/>\n"@
        }
}

pub open spec fn char_lines(entries: Seq<(u128, Seq<char>)>, cs: Seq<CharacterV>) -> Seq<char>
    decreases cs.len(),
{
    if cs.len() == 0 { seq![] } else { char_lines(entries, cs.drop_last()) + char_line(entries, cs.last()) }
}

/// The `<characters>` element.
pub open spec fn characters_xml(entries: Seq<(u128, Seq<char>)>, cs: Seq<CharacterV>) -> Seq<char> {
    if cs.len() == 0 {
        "  <characters/>\n"@
    } else {
        "  <characters>\n"@ + char_lines(entries, cs) + "  </characters>\n"@
    }
}

fn push_char_line(out: &mut String, entries: &Vec<(u128, String)>, c: &crate::model::Character)
    ensures
        final(out)@ == old(out)@ + char_line(crate::readable::entries_view(entries@), crate::model::character_view(*c)),
{
    let ghost cv = crate::model::character_view(*c);
    push_str(out, "    <character id=\"");
    match crate::readable::lookup_id(entries, c.id) {
        Some(rid) => push_str(out, rid.as_str()),
        None => {
            let t = uuid_text(c.id);
            push_str(out, t.as_str());
        },
    }
    push_str(out, "\" name=\"");
    push_xml_escaped(out, c.name.as_str());
    push_str(out, "\" color=\"#");
    push_byte_hex(out, c.color[0]);
    push_byte_hex(out, c.color[1]);
    push_byte_hex(out, c.color[2]);
    push_str(out, "\"");
    if c.portrait_path.as_str().unicode_len() == 0 {
        push_str(out, "/>\n");
    } else {
        push_str(out, " portrait=\"");
        push_xml_escaped(out, c.portrait_path.as_str());
        push_str(out, "\"/>\n");
    }
    assert(out@ =~= old(out)@ + char_line(crate::readable::entries_view(entries@), cv));
}

/// Writes the `<characters>` element of a graph.
fn write_characters(graph: &DialogueGraph, entries: &Vec<(u128, String)>, out: &mut String)
    ensures
        final(out)@ == old(out)@ + characters_xml(crate::readable::entries_view(entries@), crate::model::graph_view(*graph).characters),
{
    let ghost cs = crate::model::graph_view(*graph).characters;
    let ghost ev = crate::readable::entries_view(entries@);
    if graph.characters.len() == 0 {
        push_str(out, "  <characters/>\n");
        return;
    }
    push_str(out, "  <characters>\n");
    let ghost start = out@;
    let mut i: usize = 0;
    assert(cs.take(0) =~= Seq::<CharacterV>::empty());
    assert(out@ =~= start + char_lines(ev, cs.take(0)));
    while i < graph.characters.len()
        invariant
            i <= graph.characters.len(),
            cs == crate::model::graph_view(*graph).characters,
            ev == crate::readable::entries_view(entries@),
            cs.len() == graph.characters.len(),
            out@ == start + char_lines(ev, cs.take(i as int)),
        decreases graph.characters.len() - i,
    {
        let c = &graph.characters[i];
        assert(cs[i as int] == crate::model::character_view(*c));
        push_char_line(out, entries, c);
        proof {
            assert(cs.take(i + 1).drop_last() =~= cs.take(i as int));
            assert(out@ =~= start + char_lines(ev, cs.take(i + 1)));
        }
        i = i + 1;
    }
    assert(cs.take(graph.characters.len() as int) =~= cs);
    push_str(out, "  </characters>\n");
    assert(out@ =~= old(out)@ + characters_xml(ev, cs));
}

// ------------------------------------------------------------ localization

/// The characters after the last underscore of `s` (all of it when it has none).
pub open spec fn after_last_underscore(s: Seq<char>) -> Seq<char>
    decreases s.len(),
{
    if s.len() == 0 {
        seq![]
    } else if s.last() == '_' {
        seq![]
    } else {
        after_last_underscore(s.drop_last()).push(s.last())
    }
}

/// The readable key of a translatable string: the readable identifier of its
/// node, followed by `_prompt` for a choice prompt and by `_opt_` and the
/// option number (what follows the last underscore of its key) for an option.
pub open spec fn readable_key(entries: Seq<(u128, Seq<char>)>, s: StringV) -> Seq<char> {
    let prefix = id_or_uuid(lookup_last(entries, s.1), s.1);
    match s.2 {
        StringType::Dialogue => prefix,
        StringType::ChoicePrompt => prefix + "_prompt"@,
        StringType::ChoiceOption => prefix + "_opt_"@ + after_last_underscore(s.0),
    }
}

fn push_after_last_underscore(out: &mut String, s: &str)
    ensures
        final(out)@ == old(out)@ + after_last_underscore(s@),
{
    let n = s.unicode_len();
    let mut p: usize = n;
    assert(after_last_underscore(s@) == after_last_underscore(s@.take(n as int)) + s@.skip(n as int)) by {
        assert(s@.take(n as int) =~= s@);
        assert(after_last_underscore(s@) + s@.skip(n as int) =~= after_last_underscore(s@));
    }
    while p > 0 && s.get_char(p - 1) != '_'
        invariant
            n == s@.len(),
            p <= n,
            after_last_underscore(s@) == after_last_underscore(s@.take(p as int)) + s@.skip(p as int),
        decreases p,
    {
        proof {
            assert(s@.take(p as int).drop_last() =~= s@.take(p - 1));
            assert(s@.take(p as int).last() == s@[p - 1]);
            assert(s@.skip(p - 1) =~= seq![s@[p - 1]] + s@.skip(p as int));
            assert(after_last_underscore(s@.take(p - 1)).push(s@[p - 1]) + s@.skip(p as int)
                =~= after_last_underscore(s@.take(p - 1)) + s@.skip(p - 1));
        }
        p = p - 1;
    }
    proof {
        if p > 0 {
            assert(s@.take(p as int).last() == s@[p - 1]);
        }
        assert(after_last_underscore(s@.take(p as int)) =~= Seq::<char>::empty());
    }
    let mut i: usize = p;
    let ghost start = out@;
    assert(s@.subrange(p as int, p as int) =~= Seq::<char>::empty());
    while i < n
        invariant
            n == s@.len(),
            p <= i <= n,
            out@ == start + s@.subrange(p as int, i as int),
        decreases n - i,
    {
        push_char(out, s.get_char(i));
        assert(s@.subrange(p as int, i + 1) =~= s@.subrange(p as int, i as int).push(s@[i as int]));
        i = i + 1;
    }
    assert(s@.subrange(p as int, n as int) =~= s@.skip(p as int));
    assert(out@ =~= old(out)@ + after_last_underscore(s@));
}

/// The readable key of a translatable string (see `readable_key`).
pub fn readable_key_of(entries: &Vec<(u128, String)>, t: &TranslatableString) -> (k: String)
    ensures
        k@ == readable_key(crate::readable::entries_view(entries@), ts_view(*t)),
{
    let mut k = String::new();
    match crate::readable::lookup_id(entries, t.node_id) {
        Some(rid) => push_str(&mut k, rid.as_str()),
        None => {
            let u = uuid_text(t.node_id);
            push_str(&mut k, u.as_str());
        },
    }
    match t.string_type {
        StringType::Dialogue => {},
        StringType::ChoicePrompt => push_str(&mut k, "_prompt"),
        StringType::ChoiceOption => {
            push_str(&mut k, "_opt_");
            push_after_last_underscore(&mut k, t.key.as_str());
        },
    }
    assert(k@ =~= readable_key(crate::readable::entries_view(entries@), ts_view(*t)));
    k
}

fn push_readable_key(out: &mut String, entries: &Vec<(u128, String)>, t: &TranslatableString)
    ensures
        final(out)@ == old(out)@ + xml_esc(readable_key(crate::readable::entries_view(entries@), ts_view(*t))),
{
    let k = readable_key_of(entries, t);
    push_xml_escaped_string(out, &k);
}

fn push_xml_escaped_string(out: &mut String, s: &String)
    ensures
        final(out)@ == old(out)@ + xml_esc(s@),
{
    push_xml_escaped(out, s.as_str());
}

pub open spec fn locale_lines(locs: Seq<Seq<char>>) -> Seq<char>
    decreases locs.len(),
{
    if locs.len() == 0 {
        seq![]
    } else {
        locale_lines(locs.drop_last()) + "    <locale code=\""@ + xml_esc(locs.last()) + "\"/>\n"@
    }
}

pub open spec fn text_line(loc: Seq<char>, text: Seq<char>) -> Seq<char> {
    "      <text locale=\""@ + xml_esc(loc) + "\">"@ + xml_esc(text) + "</text>\n"@
}

pub open spec fn text_lines(l: LocaleV, key: Seq<char>, locs: Seq<Seq<char>>) -> Seq<char>
    decreases locs.len(),
{
    if locs.len() == 0 {
        seq![]
    } else {
        text_lines(l, key, locs.drop_last())
            + text_line(locs.last(), text_or_empty(crate::locale::translation_in(l.translations, key, locs.last())))
    }
}

pub open spec fn string_block(l: LocaleV, entries: Seq<(u128, Seq<char>)>, s: StringV) -> Seq<char> {
    "    <string key=\""@ + xml_esc(readable_key(entries, s)) + "\">\n"@ + text_line(l.default_locale, s.3)
        + text_lines(l, s.0, l.extra_locales) + "    </string>\n"@
}

pub open spec fn string_blocks(l: LocaleV, entries: Seq<(u128, Seq<char>)>, ss: Seq<StringV>) -> Seq<char>
    decreases ss.len(),
{
    if ss.len() == 0 {
        seq![]
    } else {
        string_blocks(l, entries, ss.drop_last()) + string_block(l, entries, ss.last())
    }
}

/// The `<localization>` element: the default locale, the extra locales, and
/// for every translatable string its text in each locale.
pub open spec fn localization_xml(l: LocaleV, entries: Seq<(u128, Seq<char>)>, ss: Seq<StringV>) -> Seq<char> {
    "  <localization default=\""@ + xml_esc(l.default_locale) + "\">\n"@ + locale_lines(l.extra_locales)
        + string_blocks(l, entries, ss) + "  </localization>\n"@
}

fn push_text_line(out: &mut String, loc: &str, text: &str)
    ensures
        final(out)@ == old(out)@ + text_line(loc@, text@),
{
    push_str(out, "      <text locale=\"");
    push_xml_escaped(out, loc);
    push_str(out, "\">");
    push_xml_escaped(out, text);
    push_str(out, "</text>\n");
    assert(out@ =~= old(out)@ + text_line(loc@, text@));
}

fn push_string_block(out: &mut String, l: &LocaleSettings, entries: &Vec<(u128, String)>, t: &TranslatableString)
    ensures
        final(out)@ == old(out)@ + string_block(locale_view(*l), crate::readable::entries_view(entries@), ts_view(*t)),
{
    let ghost lv = locale_view(*l);
    push_str(out, "    <string key=\"");
    push_readable_key(out, entries, t);
    push_str(out, "\">\n");
    push_text_line(out, l.default_locale.as_str(), t.default_text.as_str());
    let ghost mid = out@;
    let mut j: usize = 0;
    assert(lv.extra_locales.take(0) =~= Seq::<Seq<char>>::empty());
    assert(out@ =~= mid + text_lines(lv, t.key@, lv.extra_locales.take(0)));
    while j < l.extra_locales.len()
        invariant
            j <= l.extra_locales.len(),
            lv == locale_view(*l),
            lv.extra_locales.len() == l.extra_locales.len(),
            out@ == mid + text_lines(lv, t.key@, lv.extra_locales.take(j as int)),
        decreases l.extra_locales.len() - j,
    {
        let loc = &l.extra_locales[j];
        assert(lv.extra_locales[j as int] == loc@);
        let tr = l.get_translation(t.key.as_str(), loc.as_str());
        proof {
            crate::locale::lemma_translation_view(l.translations@, t.key@, loc@);
        }
        let text: &str = match tr {
            Some(x) => x,
            None => "",
        };
        proof {
            reveal_strlit("");
        }
        push_text_line(out, loc.as_str(), text);
        proof {
            assert(lv.extra_locales.take(j + 1).drop_last() =~= lv.extra_locales.take(j as int));
            assert(out@ =~= mid + text_lines(lv, t.key@, lv.extra_locales.take(j + 1)));
        }
        j = j + 1;
    }
    assert(lv.extra_locales.take(l.extra_locales.len() as int) =~= lv.extra_locales);
    push_str(out, "    </string>\n");
    assert(out@ =~= old(out)@ + string_block(lv, crate::readable::entries_view(entries@), ts_view(*t)));
}

fn write_localization(graph: &DialogueGraph, entries: &Vec<(u128, String)>, out: &mut String)
    ensures
        final(out)@ == old(out)@ + localization_xml(
            locale_view(graph.locale),
            crate::readable::entries_view(entries@),
            translatable(crate::model::nodes_view(graph.nodes@)),
        ),
{
    let ghost lv = locale_view(graph.locale);
    let ghost ev = crate::readable::entries_view(entries@);
    let strings = collect_translatable_strings(graph);
    let ghost ss = strings@.map_values(|t: TranslatableString| ts_view(t));
    push_str(out, "  <localization default=\"");
    push_xml_escaped(out, graph.locale.default_locale.as_str());
    push_str(out, "\">\n");
    let ghost m0 = out@;
    let mut j: usize = 0;
    assert(lv.extra_locales.take(0) =~= Seq::<Seq<char>>::empty());
    assert(out@ =~= m0 + locale_lines(lv.extra_locales.take(0)));
    while j < graph.locale.extra_locales.len()
        invariant
            j <= graph.locale.extra_locales.len(),
            lv == locale_view(graph.locale),
            lv.extra_locales.len() == graph.locale.extra_locales.len(),
            out@ == m0 + locale_lines(lv.extra_locales.take(j as int)),
        decreases graph.locale.extra_locales.len() - j,
    {
        let loc = &graph.locale.extra_locales[j];
        assert(lv.extra_locales[j as int] == loc@);
        push_str(out, "    <locale code=\"");
        push_xml_escaped(out, loc.as_str());
        push_str(out, "\"/>\n");
        proof {
            assert(lv.extra_locales.take(j + 1).drop_last() =~= lv.extra_locales.take(j as int));
            assert(out@ =~= m0 + locale_lines(lv.extra_locales.take(j + 1)));
        }
        j = j + 1;
    }
    assert(lv.extra_locales.take(graph.locale.extra_locales.len() as int) =~= lv.extra_locales);
    let ghost m1 = out@;
    let mut k: usize = 0;
    assert(ss.take(0) =~= Seq::<StringV>::empty());
    assert(out@ =~= m1 + string_blocks(lv, ev, ss.take(0)));
    while k < strings.len()
        invariant
            k <= strings.len(),
            lv == locale_view(graph.locale),
            ev == crate::readable::entries_view(entries@),
            ss == strings@.map_values(|t: TranslatableString| ts_view(t)),
            out@ == m1 + string_blocks(lv, ev, ss.take(k as int)),
        decreases strings.len() - k,
    {
        push_string_block(out, &graph.locale, entries, &strings[k]);
        proof {
            assert(ss.take(k + 1).drop_last() =~= ss.take(k as int));
            assert(ss.take(k + 1).last() == ts_view(strings@[k as int]));
            assert(out@ =~= m1 + string_blocks(lv, ev, ss.take(k + 1)));
        }
        k = k + 1;
    }
    assert(ss.take(strings.len() as int) =~= ss);
    push_str(out, "  </localization>\n");
    assert(out@ =~= old(out)@ + localization_xml(lv, ev, ss));
}

// ------------------------------------------------------------ nodes

pub open spec fn next_text(entries: Seq<(u128, Seq<char>)>, ws: Seq<Wire>, outs: Seq<PortV>, i: int) -> Seq<char> {
    text_or_empty(next_at(entries, ws, outs, i))
}

pub open spec fn speaker_attr(entries: Seq<(u128, Seq<char>)>, d: crate::model::DialogueV) -> Seq<char> {
    match d.speaker_id {
        Some(sid) => text_or_empty(lookup_last(entries, sid)),
        None => xml_esc(d.speaker_name),
    }
}

pub open spec fn audio_attr(a: Option<Seq<char>>) -> Seq<char> {
    match a {
        Some(x) => if x.len() > 0 { " audio=\""@ + xml_esc(x) + "\""@ } else { seq![] },
        None => seq![],
    }
}

pub open spec fn next_attr(n: Option<Seq<char>>) -> Seq<char> {
    match n {
        Some(x) => " next=\""@ + x + "\""@,
        None => seq![],
    }
}

pub open spec fn cond_attrs(c: Option<CondV>) -> Seq<char> {
    match c {
        Some(c) => " condition-var=\""@ + xml_esc(c.variable_name) + "\" condition-op=\""@ + op_text(c.operator)
            + "\" condition-val=\""@ + value_text(c.value) + "\""@,
        None => seq![],
    }
}

pub open spec fn option_lines(entries: Seq<(u128, Seq<char>)>, ws: Seq<Wire>, outs: Seq<PortV>, opts: Seq<OptionV>, k: int) -> Seq<char>
    decreases k,
{
    if k <= 0 {
        seq![]
    } else {
        option_lines(entries, ws, outs, opts, k - 1) + "      <option next=\""@ + next_text(entries, ws, outs, k - 1) + "\""@
            + cond_attrs(opts[k - 1].condition) + ">"@ + xml_esc(opts[k - 1].text) + "</option>\n"@
    }
}

pub open spec fn action_lines(acts: Seq<ActionV>) -> Seq<char>
    decreases acts.len(),
{
    if acts.len() == 0 {
        seq![]
    } else {
        action_lines(acts.drop_last()) + "      <action type=\""@ + action_text(acts.last().action_type) + "\" key=\""@
            + xml_esc(acts.last().key) + "\" value=\""@ + value_text(acts.last().value) + "\"/>\n"@
    }
}

pub open spec fn branch_lines(entries: Seq<(u128, Seq<char>)>, ws: Seq<Wire>, outs: Seq<PortV>, weights: Seq<u32>, k: int) -> Seq<char>
    decreases k,
{
    if k <= 0 {
        seq![]
    } else {
        branch_lines(entries, ws, outs, weights, k - 1) + "      <branch weight=\""@ + crate::text::hundredths_text(weights[k - 1] as nat)
            + "\" next=\""@ + next_text(entries, ws, outs, k - 1) + "\"/>\n"@
    }
}

pub open spec fn start_xml(entries: Seq<(u128, Seq<char>)>, ws: Seq<Wire>, outs: Seq<PortV>, rid: Seq<char>) -> Seq<char> {
    "    <node id=\""@ + rid + "\" type=\"start\" next=\""@ + next_text(entries, ws, outs, 0) + "\"/>\n"@
}

pub open spec fn dialogue_xml(entries: Seq<(u128, Seq<char>)>, ws: Seq<Wire>, outs: Seq<PortV>, d: crate::model::DialogueV, rid: Seq<char>) -> Seq<char> {
    "    <node id=\""@ + rid + "\" type=\"dialogue\" speaker=\""@ + speaker_attr(entries, d) + "\" emotion=\""@
        + xml_esc(d.emotion) + "\""@ + audio_attr(d.audio_clip) + next_attr(next_at(entries, ws, outs, 0)) + ">"@
        + xml_esc(d.text) + "</node>\n"@
}

pub open spec fn choice_xml(entries: Seq<(u128, Seq<char>)>, ws: Seq<Wire>, outs: Seq<PortV>, prompt: Seq<char>, opts: Seq<OptionV>, rid: Seq<char>) -> Seq<char> {
    "    <node id=\""@ + rid + "\" type=\"choice\" prompt=\""@ + xml_esc(prompt) + "\">\n"@
        + option_lines(entries, ws, outs, opts, opts.len() as int) + "    </node>\n"@
}

pub open spec fn condition_xml(entries: Seq<(u128, Seq<char>)>, ws: Seq<Wire>, outs: Seq<PortV>, c: CondV, rid: Seq<char>) -> Seq<char> {
    "    <node id=\""@ + rid + "\" type=\"condition\" variable=\""@ + xml_esc(c.variable_name) + "\" operator=\""@
        + op_text(c.operator) + "\" value=\""@ + value_text(c.value) + "\" value-type=\""@ + value_type_text(c.value)
        + "\" true-next=\""@ + next_text(entries, ws, outs, 0) + "\" false-next=\""@
        + next_text(entries, ws, outs, 1) + "\"/>\n"@
}

/// How a condition node's element ends: `true-next` names the node reached
/// from output 0, the branch taken when the condition holds, and `false-next`
/// the node reached from output 1.
pub open spec fn condition_branch_attrs(entries: Seq<(u128, Seq<char>)>, ws: Seq<Wire>, outs: Seq<PortV>) -> Seq<char> {
    "\" true-next=\""@ + text_or_empty(reached_id(entries, ws, outs, 0)) + "\" false-next=\""@
        + text_or_empty(reached_id(entries, ws, outs, 1)) + "\"/>\n"@
}

/// The element of a condition node begins with its readable identifier and
/// its type, and ends with `true-next` naming the node reached from output 0
/// and `false-next` the node reached from output 1.
pub proof fn law_condition_xml_branches(entries: Seq<(u128, Seq<char>)>, ws: Seq<Wire>, outs: Seq<PortV>, c: CondV, rid: Seq<char>)
    ensures
        begins_with(condition_xml(entries, ws, outs, c, rid), "    <node id=\""@ + rid + "\" type=\"condition\" variable=\""@),
        ends_with(condition_xml(entries, ws, outs, c, rid), condition_branch_attrs(entries, ws, outs)),
{
    assert(next_text(entries, ws, outs, 0) == text_or_empty(reached_id(entries, ws, outs, 0)));
    assert(next_text(entries, ws, outs, 1) == text_or_empty(reached_id(entries, ws, outs, 1)));
    let head = "    <node id=\""@ + rid + "\" type=\"condition\" variable=\""@;
    let mid = xml_esc(c.variable_name) + "\" operator=\""@
        + op_text(c.operator) + "\" value=\""@ + value_text(c.value) + "\" value-type=\""@ + value_type_text(c.value);
    let tail = condition_branch_attrs(entries, ws, outs);
    assert(condition_xml(entries, ws, outs, c, rid) =~= head + (mid + tail));
    assert(condition_xml(entries, ws, outs, c, rid) =~= (head + mid) + tail);
    lemma_affixes_of(head, mid + tail);
    lemma_affixes_of(head + mid, tail);
}

pub open spec fn event_xml(entries: Seq<(u128, Seq<char>)>, ws: Seq<Wire>, outs: Seq<PortV>, acts: Seq<ActionV>, rid: Seq<char>) -> Seq<char> {
    "    <node id=\""@ + rid + "\" type=\"event\" next=\""@ + next_text(entries, ws, outs, 0) + "\">\n"@
        + action_lines(acts) + "    </node>\n"@
}

pub open spec fn random_xml(entries: Seq<(u128, Seq<char>)>, ws: Seq<Wire>, outs: Seq<PortV>, weights: Seq<u32>, rid: Seq<char>) -> Seq<char> {
    "    <node id=\""@ + rid + "\" type=\"random\">\n"@
        + branch_lines(entries, ws, outs, weights, weights.len() as int) + "    </node>\n"@
}

pub open spec fn end_xml(tag: Seq<char>, rid: Seq<char>) -> Seq<char> {
    "    <node id=\""@ + rid + "\" type=\"end\" tag=\""@ + xml_esc(tag) + "\"/>\n"@
}

pub open spec fn subgraph_xml(entries: Seq<(u128, Seq<char>)>, ws: Seq<Wire>, outs: Seq<PortV>, name: Seq<char>, rid: Seq<char>) -> Seq<char> {
    "    <node id=\""@ + rid + "\" type=\"subgraph\" name=\""@ + xml_esc(name) + "\" next=\""@
        + next_text(entries, ws, outs, 0) + "\"/>\n"@
}

/// The `<node>` element of one node with readable identifier `rid`.
pub open spec fn node_xml(entries: Seq<(u128, Seq<char>)>, ws: Seq<Wire>, n: NodeV, rid: Seq<char>) -> Seq<char> {
    match n.kind {
        KindV::Start => start_xml(entries, ws, n.outputs, rid),
        KindV::Dialogue(d) => dialogue_xml(entries, ws, n.outputs, d, rid),
        KindV::Choice(prompt, opts) => choice_xml(entries, ws, n.outputs, prompt, opts, rid),
        KindV::Condition(c) => condition_xml(entries, ws, n.outputs, c, rid),
        KindV::Event(acts) => event_xml(entries, ws, n.outputs, acts, rid),
        KindV::Random(weights) => random_xml(entries, ws, n.outputs, weights, rid),
        KindV::End(tag) => end_xml(tag, rid),
        KindV::SubGraph(name, _) => subgraph_xml(entries, ws, n.outputs, name, rid),
    }
}

fn push_next(out: &mut String, entries: &Vec<(u128, String)>, conns: &Vec<crate::model::Connection>, outputs: &Vec<crate::model::Port>, i: usize)
    ensures
        final(out)@ == old(out)@ + next_text(
            crate::readable::entries_view(entries@),
            crate::model::wires_of(conns@),
            crate::model::ports_view(outputs@),
            i as int,
        ),
{
    match crate::readable::next_from(entries, conns, outputs, i) {
        Some(n) => push_str(out, n.as_str()),
        None => {
            assert(old(out)@ + Seq::<char>::empty() =~= old(out)@);
        },
    }
}

fn push_cond_attrs(out: &mut String, c: &Option<crate::model::ChoiceCondition>)
    ensures
        final(out)@ == old(out)@ + cond_attrs(match *c {
            Some(cc) => Some(crate::model::cond_view(cc)),
            None => None,
        }),
{
    match c {
        Some(cc) => {
            push_str(out, " condition-var=\"");
            push_xml_escaped(out, cc.variable_name.as_str());
            push_str(out, "\" condition-op=\"");
            push_str(out, crate::readable::compare_op_str(cc.operator));
            push_str(out, "\" condition-val=\"");
            push_value(out, &cc.value);
            push_str(out, "\"");
            assert(out@ =~= old(out)@ + cond_attrs(Some(crate::model::cond_view(*cc))));
        },
        None => {
            assert(old(out)@ + Seq::<char>::empty() =~= old(out)@);
        },
    }
}

fn write_choice_node(out: &mut String, node: &crate::model::Node, c: &crate::model::ChoiceData, rid: &String,
    entries: &Vec<(u128, String)>, conns: &Vec<crate::model::Connection>)
    ensures
        final(out)@ == old(out)@ + choice_xml(
            crate::readable::entries_view(entries@),
            crate::model::wires_of(conns@),
            crate::model::ports_view(node.outputs@),
            c.prompt@,
            c.choices@.map_values(|o: crate::model::ChoiceOption| crate::model::option_view(o)),
            rid@,
        ),
{
    let ghost ev = crate::readable::entries_view(entries@);
    let ghost ws = crate::model::wires_of(conns@);
    let ghost outs = crate::model::ports_view(node.outputs@);
    let ghost opts = c.choices@.map_values(|o: crate::model::ChoiceOption| crate::model::option_view(o));
    push_str(out, "    <node id=\"");
    push_str(out, rid.as_str());
    push_str(out, "\" type=\"choice\" prompt=\"");
    push_xml_escaped(out, c.prompt.as_str());
    push_str(out, "\">\n");
    let ghost m = out@;
    let mut i: usize = 0;
    assert(out@ =~= m + option_lines(ev, ws, outs, opts, 0));
    while i < c.choices.len()
        invariant
            i <= c.choices.len(),
            opts == c.choices@.map_values(|o: crate::model::ChoiceOption| crate::model::option_view(o)),
            ev == crate::readable::entries_view(entries@),
            ws == crate::model::wires_of(conns@),
            outs == crate::model::ports_view(node.outputs@),
            out@ == m + option_lines(ev, ws, outs, opts, i as int),
        decreases c.choices.len() - i,
    {
        let o = &c.choices[i];
        assert(opts[i as int] == crate::model::option_view(*o));
        let ghost before = out@;
        push_str(out, "      <option next=\"");
        push_next(out, entries, conns, &node.outputs, i);
        push_str(out, "\"");
        push_cond_attrs(out, &o.condition);
        push_str(out, ">");
        push_xml_escaped(out, o.text.as_str());
        push_str(out, "</option>\n");
        assert(out@ =~= m + option_lines(ev, ws, outs, opts, i + 1));
        i = i + 1;
    }
    push_str(out, "    </node>\n");
    assert(out@ =~= old(out)@ + choice_xml(ev, ws, outs, c.prompt@, opts, rid@));
}

fn write_event_node(out: &mut String, node: &crate::model::Node, e: &crate::model::EventData, rid: &String,
    entries: &Vec<(u128, String)>, conns: &Vec<crate::model::Connection>)
    ensures
        final(out)@ == old(out)@ + event_xml(
            crate::readable::entries_view(entries@),
            crate::model::wires_of(conns@),
            crate::model::ports_view(node.outputs@),
            e.actions@.map_values(|a: crate::model::EventAction| crate::model::action_view(a)),
            rid@,
        ),
{
    let ghost ev = crate::readable::entries_view(entries@);
    let ghost ws = crate::model::wires_of(conns@);
    let ghost acts = e.actions@.map_values(|a: crate::model::EventAction| crate::model::action_view(a));
    push_str(out, "    <node id=\"");
    push_str(out, rid.as_str());
    push_str(out, "\" type=\"event\" next=\"");
    push_next(out, entries, conns, &node.outputs, 0);
    push_str(out, "\">\n");
    let ghost m = out@;
    let mut i: usize = 0;
    assert(acts.take(0) =~= Seq::<ActionV>::empty());
    assert(out@ =~= m + action_lines(acts.take(0)));
    while i < e.actions.len()
        invariant
            i <= e.actions.len(),
            acts == e.actions@.map_values(|a: crate::model::EventAction| crate::model::action_view(a)),
            out@ == m + action_lines(acts.take(i as int)),
        decreases e.actions.len() - i,
    {
        let a = &e.actions[i];
        assert(acts[i as int] == crate::model::action_view(*a));
        push_str(out, "      <action type=\"");
        push_str(out, action_str(a.action_type));
        push_str(out, "\" key=\"");
        push_xml_escaped(out, a.key.as_str());
        push_str(out, "\" value=\"");
        push_value(out, &a.value);
        push_str(out, "\"/>\n");
        proof {
            assert(acts.take(i + 1).drop_last() =~= acts.take(i as int));
            assert(out@ =~= m + action_lines(acts.take(i + 1)));
        }
        i = i + 1;
    }
    assert(acts.take(e.actions.len() as int) =~= acts);
    push_str(out, "    </node>\n");
    assert(out@ =~= old(out)@ + event_xml(ev, ws, crate::model::ports_view(node.outputs@), acts, rid@));
}

fn write_random_node(out: &mut String, node: &crate::model::Node, r: &crate::model::RandomData, rid: &String,
    entries: &Vec<(u128, String)>, conns: &Vec<crate::model::Connection>)
    ensures
        final(out)@ == old(out)@ + random_xml(
            crate::readable::entries_view(entries@),
            crate::model::wires_of(conns@),
            crate::model::ports_view(node.outputs@),
            r.branches@.map_values(|b: crate::model::RandomBranch| b.weight),
            rid@,
        ),
{
    let ghost ev = crate::readable::entries_view(entries@);
    let ghost ws = crate::model::wires_of(conns@);
    let ghost outs = crate::model::ports_view(node.outputs@);
    let ghost weights = r.branches@.map_values(|b: crate::model::RandomBranch| b.weight);
    push_str(out, "    <node id=\"");
    push_str(out, rid.as_str());
    push_str(out, "\" type=\"random\">\n");
    let ghost m = out@;
    let mut i: usize = 0;
    assert(out@ =~= m + branch_lines(ev, ws, outs, weights, 0));
    while i < r.branches.len()
        invariant
            i <= r.branches.len(),
            weights == r.branches@.map_values(|b: crate::model::RandomBranch| b.weight),
            ev == crate::readable::entries_view(entries@),
            ws == crate::model::wires_of(conns@),
            outs == crate::model::ports_view(node.outputs@),
            out@ == m + branch_lines(ev, ws, outs, weights, i as int),
        decreases r.branches.len() - i,
    {
        assert(weights[i as int] == r.branches@[i as int].weight);
        push_str(out, "      <branch weight=\"");
        crate::text::push_hundredths(out, r.branches[i].weight);
        push_str(out, "\" next=\"");
        push_next(out, entries, conns, &node.outputs, i);
        push_str(out, "\"/>\n");
        assert(out@ =~= m + branch_lines(ev, ws, outs, weights, i + 1));
        i = i + 1;
    }
    push_str(out, "    </node>\n");
    assert(out@ =~= old(out)@ + random_xml(ev, ws, outs, weights, rid@));
}

fn push_speaker_attr(out: &mut String, entries: &Vec<(u128, String)>, d: &crate::model::DialogueData)
    ensures
        final(out)@ == old(out)@ + speaker_attr(crate::readable::entries_view(entries@), crate::model::dialogue_view(*d)),
{
    match d.speaker_id {
        Some(sid) => match crate::readable::lookup_id(entries, sid) {
            Some(x) => push_str(out, x.as_str()),
            None => {
                assert(old(out)@ + Seq::<char>::empty() =~= old(out)@);
            },
        },
        None => push_xml_escaped(out, d.speaker_name.as_str()),
    }
}

fn push_audio_attr(out: &mut String, a: &Option<String>)
    ensures
        final(out)@ == old(out)@ + audio_attr(crate::model::opt_view(*a)),
{
    match a {
        Some(x) => {
            if x.as_str().unicode_len() > 0 {
                push_str(out, " audio=\"");
                push_xml_escaped(out, x.as_str());
                push_str(out, "\"");
                assert(out@ =~= old(out)@ + audio_attr(crate::model::opt_view(*a)));
            } else {
                assert(old(out)@ + Seq::<char>::empty() =~= old(out)@);
            }
        },
        None => {
            assert(old(out)@ + Seq::<char>::empty() =~= old(out)@);
        },
    }
}

fn push_next_attr(out: &mut String, next: &Option<String>)
    ensures
        final(out)@ == old(out)@ + next_attr(crate::model::opt_view(*next)),
{
    match next {
        Some(x) => {
            push_str(out, " next=\"");
            push_str(out, x.as_str());
            push_str(out, "\"");
            assert(out@ =~= old(out)@ + next_attr(crate::model::opt_view(*next)));
        },
        None => {
            assert(old(out)@ + Seq::<char>::empty() =~= old(out)@);
        },
    }
}

fn write_dialogue_node(out: &mut String, node: &crate::model::Node, d: &crate::model::DialogueData, rid: &String,
    entries: &Vec<(u128, String)>, conns: &Vec<crate::model::Connection>)
    ensures
        final(out)@ == old(out)@ + dialogue_xml(
            crate::readable::entries_view(entries@),
            crate::model::wires_of(conns@),
            crate::model::ports_view(node.outputs@),
            crate::model::dialogue_view(*d),
            rid@,
        ),
{
    let ghost ev = crate::readable::entries_view(entries@);
    let ghost ws = crate::model::wires_of(conns@);
    let ghost dv = crate::model::dialogue_view(*d);
    let next = crate::readable::next_from(entries, conns, &node.outputs, 0);
    assert(crate::model::opt_view(next) == next_at(ev, ws, crate::model::ports_view(node.outputs@), 0));
    push_str(out, "    <node id=\"");
    push_str(out, rid.as_str());
    push_str(out, "\" type=\"dialogue\" speaker=\"");
    push_speaker_attr(out, entries, d);
    push_str(out, "\" emotion=\"");
    push_xml_escaped(out, d.emotion.as_str());
    push_str(out, "\"");
    push_audio_attr(out, &d.audio_clip);
    push_next_attr(out, &next);
    push_str(out, ">");
    push_xml_escaped(out, d.text.as_str());
    push_str(out, "</node>\n");
}

fn write_condition_node(out: &mut String, node: &crate::model::Node, c: &crate::model::ConditionData, rid: &String,
    entries: &Vec<(u128, String)>, conns: &Vec<crate::model::Connection>)
    ensures
        final(out)@ == old(out)@ + condition_xml(
            crate::readable::entries_view(entries@),
            crate::model::wires_of(conns@),
            crate::model::ports_view(node.outputs@),
            CondV { variable_name: c.variable_name@, operator: c.operator, value: value_view(c.value) },
            rid@,
        ),
        ends_with(final(out)@, condition_branch_attrs(
            crate::readable::entries_view(entries@),
            crate::model::wires_of(conns@),
            crate::model::ports_view(node.outputs@),
        )),
{
    let ghost m = out@;
    push_str(out, "    <node id=\"");
    push_str(out, rid.as_str());
    push_str(out, "\" type=\"condition\" variable=\"");
    push_xml_escaped(out, c.variable_name.as_str());
    push_str(out, "\" operator=\"");
    push_str(out, crate::readable::compare_op_str(c.operator));
    push_str(out, "\" value=\"");
    push_value(out, &c.value);
    push_str(out, "\" value-type=\"");
    push_str(out, variable_type_str(&c.value));
    push_str(out, "\" true-next=\"");
    push_next(out, entries, conns, &node.outputs, 0);
    push_str(out, "\" false-next=\"");
    push_next(out, entries, conns, &node.outputs, 1);
    push_str(out, "\"/>\n");
    proof {
        let cv = CondV { variable_name: c.variable_name@, operator: c.operator, value: value_view(c.value) };
        let ev = crate::readable::entries_view(entries@);
        let ws = crate::model::wires_of(conns@);
        let outs = crate::model::ports_view(node.outputs@);
        assert(out@ =~= m + condition_xml(ev, ws, outs, cv, rid@));
        law_condition_xml_branches(ev, ws, outs, cv, rid@);
        lemma_affixes_concat(m, condition_xml(ev, ws, outs, cv, rid@), seq![], condition_branch_attrs(ev, ws, outs));
    }
}

/// Writes the `<node>` element of one node.
fn write_single_node(out: &mut String, node: &crate::model::Node, rid: &String,
    entries: &Vec<(u128, String)>, conns: &Vec<crate::model::Connection>)
    ensures
        final(out)@ == old(out)@ + node_xml(
            crate::readable::entries_view(entries@),
            crate::model::wires_of(conns@),
            crate::model::node_view(*node),
            rid@,
        ),
{
    let ghost ev = crate::readable::entries_view(entries@);
    let ghost ws = crate::model::wires_of(conns@);
    let ghost outs = crate::model::ports_view(node.outputs@);
    match &node.node_type {
        NodeType::Start => {
            push_str(out, "    <node id=\"");
            push_str(out, rid.as_str());
            push_str(out, "\" type=\"start\" next=\"");
            push_next(out, entries, conns, &node.outputs, 0);
            push_str(out, "\"/>\n");
            assert(out@ =~= old(out)@ + start_xml(ev, ws, outs, rid@));
        },
        NodeType::Dialogue(d) => write_dialogue_node(out, node, d, rid, entries, conns),
        NodeType::Choice(c) => write_choice_node(out, node, c, rid, entries, conns),
        NodeType::Condition(c) => write_condition_node(out, node, c, rid, entries, conns),
        NodeType::Event(e) => write_event_node(out, node, e, rid, entries, conns),
        NodeType::Random(r) => write_random_node(out, node, r, rid, entries, conns),
        NodeType::End(e) => {
            push_str(out, "    <node id=\"");
            push_str(out, rid.as_str());
            push_str(out, "\" type=\"end\" tag=\"");
            push_xml_escaped(out, e.tag.as_str());
            push_str(out, "\"/>\n");
            assert(out@ =~= old(out)@ + end_xml(e.tag@, rid@));
        },
        NodeType::SubGraph(sg) => {
            push_str(out, "    <node id=\"");
            push_str(out, rid.as_str());
            push_str(out, "\" type=\"subgraph\" name=\"");
            push_xml_escaped(out, sg.name.as_str());
            push_str(out, "\" next=\"");
            push_next(out, entries, conns, &node.outputs, 0);
            push_str(out, "\"/>\n");
            assert(out@ =~= old(out)@ + subgraph_xml(ev, ws, outs, sg.name@, rid@));
        },
    }
}

pub open spec fn node_lines(entries: Seq<(u128, Seq<char>)>, ws: Seq<Wire>, nodes: Seq<NodeV>, o: Seq<int>, k: int) -> Seq<char>
    decreases k,
{
    if k <= 0 {
        seq![]
    } else {
        let n = nodes[o[k - 1]];
        node_lines(entries, ws, nodes, o, k - 1) + node_xml(entries, ws, n, text_or_empty(lookup_last(entries, n.id)))
    }
}

/// The `<nodes>` element: every node in canvas order.
pub open spec fn nodes_xml(entries: Seq<(u128, Seq<char>)>, ws: Seq<Wire>, nodes: Seq<NodeV>) -> Seq<char> {
    if nodes.len() == 0 {
        "  <nodes/>\n"@
    } else {
        let o = node_order(nodes);
        "  <nodes>\n"@ + node_lines(entries, ws, nodes, o, o.len() as int) + "  </nodes>\n"@
    }
}

fn write_nodes(graph: &DialogueGraph, entries: &Vec<(u128, String)>, out: &mut String)
    ensures
        final(out)@ == old(out)@ + nodes_xml(
            crate::readable::entries_view(entries@),
            crate::model::wires_of(graph.connections@),
            crate::model::nodes_view(graph.nodes@),
        ),
{
    let ghost ev = crate::readable::entries_view(entries@);
    let ghost ws = crate::model::wires_of(graph.connections@);
    let ghost nv = crate::model::nodes_view(graph.nodes@);
    proof {
        crate::model::lemma_nodes_view(graph.nodes@);
    }
    if graph.nodes.len() == 0 {
        push_str(out, "  <nodes/>\n");
        return;
    }
    push_str(out, "  <nodes>\n");
    let order = crate::readable::sorted_node_indices(&graph.nodes);
    let ghost o = node_order(nv);
    let ghost m = out@;
    let mut p: usize = 0;
    assert(out@ =~= m + node_lines(ev, ws, nv, o, 0));
    while p < order.len()
        invariant
            p <= order.len(),
            order@.map_values(|i: usize| i as int) == o,
            o == node_order(nv),
            nv == crate::model::nodes_view(graph.nodes@),
            nv.len() == graph.nodes.len(),
            forall|q: int| 0 <= q < graph.nodes.len() ==> #[trigger] nv[q] == crate::model::node_view(graph.nodes@[q]),
            forall|q: int| 0 <= q < order.len() ==> #[trigger] order@[q] < graph.nodes.len(),
            ev == crate::readable::entries_view(entries@),
            ws == crate::model::wires_of(graph.connections@),
            out@ == m + node_lines(ev, ws, nv, o, p as int),
        decreases order.len() - p,
    {
        let i = order[p];
        assert(o[p as int] == i as int);
        let node = &graph.nodes[i];
        assert(nv[i as int] == crate::model::node_view(*node));
        let rid = match crate::readable::lookup_id(entries, node.id) {
            Some(x) => x,
            None => String::new(),
        };
        assert(rid@ == text_or_empty(lookup_last(ev, node.id)));
        write_single_node(out, node, &rid, entries, &graph.connections);
        assert(out@ =~= m + node_lines(ev, ws, nv, o, p + 1));
        p = p + 1;
    }
    push_str(out, "  </nodes>\n");
    assert(out@ =~= old(out)@ + nodes_xml(ev, ws, nv));
}

/// The XML document of a graph whose sub-graphs have been flattened into
/// `g.nodes` and `ws` (see `flat_view`).
pub open spec fn xml_doc(name: Seq<char>, g: GraphV, ws: Seq<Wire>) -> Seq<char> {
    let entries = id_entries(g);
    "<?xml version=\"1.0\" encoding=\"UTF-8\"?>\n"@ + "<dialogue version=\"1.0\" name=\""@ + xml_esc(name) + "\">\n"@
        + variables_xml(g.variables) + characters_xml(entries, g.characters)
        + (if g.locale.extra_locales.len() > 0 { localization_xml(g.locale, entries, translatable(g.nodes)) } else { seq![] })
        + nodes_xml(entries, ws, g.nodes) + "</dialogue>\n"@
}

/// The element of the node at place `q` of the order stands among the
/// element lines of the first `k` places.
proof fn lemma_node_lines_hold(entries: Seq<(u128, Seq<char>)>, ws: Seq<Wire>, nodes: Seq<NodeV>, o: Seq<int>, k: int, q: int)
    requires
        0 <= q < k,
    ensures
        exists|i: int| occurs_at(node_lines(entries, ws, nodes, o, k),
            node_xml(entries, ws, nodes[o[q]], text_or_empty(lookup_last(entries, nodes[o[q]].id))), i),
    decreases k,
{
    let prev = node_lines(entries, ws, nodes, o, k - 1);
    let n = nodes[o[k - 1]];
    let last = node_xml(entries, ws, n, text_or_empty(lookup_last(entries, n.id)));
    assert(node_lines(entries, ws, nodes, o, k) == prev + last);
    let t = node_xml(entries, ws, nodes[o[q]], text_or_empty(lookup_last(entries, nodes[o[q]].id)));
    if q == k - 1 {
        assert(last.subrange(0, last.len() as int) =~= last);
        lemma_occurs_within(prev, last, seq![], t, 0);
        assert(prev + last + seq![] =~= prev + last);
        assert(occurs_at(prev + last, t, prev.len() as int));
    } else {
        lemma_node_lines_hold(entries, ws, nodes, o, k - 1, q);
        let i = choose|i: int| occurs_at(prev, t, i);
        lemma_occurs_within(seq![], prev, last, t, i);
        assert(seq![] + prev + last =~= prev + last);
        assert(occurs_at(prev + last, t, i));
    }
}

/// The XML document holds, for each condition node of the graph, its element,
/// which begins with the node's readable identifier and ends with `true-next`
/// naming the node reached from output 0 and `false-next` the node reached
/// from output 1.
pub proof fn law_xml_document_condition_branches(name: Seq<char>, g: GraphV, ws: Seq<Wire>, j: int, c: CondV)
    requires
        0 <= j < g.nodes.len(),
        g.nodes[j].kind == KindV::Condition(c),
    ensures
        ({
            let entries = id_entries(g);
            let rid = text_or_empty(lookup_last(entries, g.nodes[j].id));
            let element = condition_xml(entries, ws, g.nodes[j].outputs, c, rid);
            &&& exists|i: int| occurs_at(xml_doc(name, g, ws), element, i)
            &&& begins_with(element, "    <node id=\""@ + rid + "\" type=\"condition\" variable=\""@)
            &&& ends_with(element, condition_branch_attrs(entries, ws, g.nodes[j].outputs))
        }),
{
    let entries = id_entries(g);
    let n = g.nodes[j];
    let rid = text_or_empty(lookup_last(entries, n.id));
    let element = condition_xml(entries, ws, n.outputs, c, rid);
    law_condition_xml_branches(entries, ws, n.outputs, c, rid);
    let o = node_order(g.nodes);
    crate::readable::lemma_order_len(g.nodes, g.nodes.len() as int);
    crate::readable::lemma_order_covers(g.nodes, g.nodes.len() as int, j);
    let q = choose|q: int| 0 <= q < o.len() && o[q] == j;
    lemma_node_lines_hold(entries, ws, g.nodes, o, o.len() as int, q);
    assert(node_xml(entries, ws, n, rid) == element);
    let lines = node_lines(entries, ws, g.nodes, o, o.len() as int);
    let i = choose|i: int| occurs_at(lines, element, i);
    let before = "<?xml version=\"1.0\" encoding=\"UTF-8\"?>\n"@ + "<dialogue version=\"1.0\" name=\""@ + xml_esc(name) + "\">\n"@
        + variables_xml(g.variables) + characters_xml(entries, g.characters)
        + (if g.locale.extra_locales.len() > 0 { localization_xml(g.locale, entries, translatable(g.nodes)) } else { seq![] })
        + "  <nodes>\n"@;
    let after = "  </nodes>\n"@ + "</dialogue>\n"@;
    assert(xml_doc(name, g, ws) =~= before + lines + after);
    lemma_occurs_within(before, lines, after, element, i);
}

/// The graph as an XML document: after flattening its sub-graphs, a
/// `<dialogue>` element named `name` that holds its variables, characters,
/// string table (when extra locales are defined) and nodes; always `Ok`.
pub fn export_xml(graph: &DialogueGraph, name: &str) -> (r: Result<String, String>)
    ensures
        r matches Ok(x) && x@ == xml_doc(name@, flat_view(crate::model::graph_view(*graph)), flat_wires(crate::model::graph_view(*graph))),
{
    let flat = flatten_subgraphs(graph);
    let entries = crate::readable::build_id_map(&flat);
    let ghost fv = crate::model::graph_view(flat);
    let ghost gv = flat_view(crate::model::graph_view(*graph));
    let ghost ws = crate::model::wires_of(flat.connections@);
    assert(fv.nodes == gv.nodes);
    assert(ws == flat_wires(crate::model::graph_view(*graph)));
    assert(id_entries(fv) == id_entries(gv));
    let mut xml = String::new();
    push_str(&mut xml, "<?xml version=\"1.0\" encoding=\"UTF-8\"?>\n");
    push_str(&mut xml, "<dialogue version=\"1.0\" name=\"");
    push_xml_escaped(&mut xml, name);
    push_str(&mut xml, "\">\n");
    let ghost m0 = xml@;
    write_variables(&flat, &mut xml);
    write_characters(&flat, &entries, &mut xml);
    let ghost m1 = xml@;
    if flat.locale.has_extra_locales() {
        write_localization(&flat, &entries, &mut xml);
    }
    assert(xml@ =~= m1 + (if gv.locale.extra_locales.len() > 0 { localization_xml(gv.locale, id_entries(gv), translatable(gv.nodes)) } else { seq![] }));
    write_nodes(&flat, &entries, &mut xml);
    push_str(&mut xml, "</dialogue>\n");
    assert(xml@ =~= xml_doc(name@, gv, ws));
    Ok(xml)
}

} // verus!
