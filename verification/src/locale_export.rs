//! Translator workflow: the translatable strings of a graph, their export as a
//! translation table, and the import of a filled-in table back into the
//! locale settings.

use vstd::prelude::*;
use crate::csv::{Table, table_text, table_view, read_table, write_table, parse_csv_rows, law_table_reads_back, rows_nonempty, push_str};
use crate::ident::{uuid_text, uuid_prefix8, uuid_hyphenated, hex_run};
use crate::locale::{LocaleSettings, translation_of, lists};
use crate::model::{DialogueGraph, KindV, Node, NodeType, NodeV, lemma_nodes_view, node_view, nodes_view, strings_view};
use crate::text::{push_char, push_decimal, decimal};

verus! {

/// What a translatable string is in its node.
#[derive(Clone, Copy, Debug, PartialEq, Eq, Structural)]
pub enum StringType {
    Dialogue,
    ChoicePrompt,
    ChoiceOption,
}

pub open spec fn type_label(t: StringType) -> Seq<char> {
    match t {
        StringType::Dialogue => "dialogue"@,
        StringType::ChoicePrompt => "prompt"@,
        StringType::ChoiceOption => "option"@,
    }
}

impl StringType {
    /// The name of the type in the translation table.
    pub fn label(&self) -> (r: &'static str)
        ensures
            r@ == type_label(*self),
    {
        match self {
            StringType::Dialogue => "dialogue",
            StringType::ChoicePrompt => "prompt",
            StringType::ChoiceOption => "option",
        }
    }
}

/// A text of a node that translators translate, under its key.
pub struct TranslatableString {
    pub key: String,
    pub node_id: u128,
    pub string_type: StringType,
    pub default_text: String,
}

/// A translatable string as values: key, node, type, text in the default locale.
pub type StringV = (Seq<char>, u128, StringType, Seq<char>);

pub open spec fn ts_view(t: TranslatableString) -> StringV {
    (t.key@, t.node_id, t.string_type, t.default_text@)
}

/// Key of the option `i` of choice node `id`.
pub open spec fn option_key(id: u128, i: int) -> Seq<char> {
    "opt_"@ + uuid_prefix8(id) + "_"@ + decimal(i as nat)
}

/// The translatable strings of one node: the text of a dialogue line; the
/// prompt and then each option text of a choice.
pub open spec fn node_strings(n: NodeV) -> Seq<StringV> {
    match n.kind {
        KindV::Dialogue(d) => seq![("dlg_"@ + uuid_prefix8(n.id), n.id, StringType::Dialogue, d.text)],
        KindV::Choice(prompt, options) => seq![("prompt_"@ + uuid_prefix8(n.id), n.id, StringType::ChoicePrompt, prompt)]
            + Seq::new(options.len(), |i: int| (option_key(n.id, i), n.id, StringType::ChoiceOption, options[i].text)),
        _ => seq![],
    }
}

/// The translatable strings of the nodes, node by node in order.
pub open spec fn translatable(nodes: Seq<NodeV>) -> Seq<StringV>
    decreases nodes.len(),
{
    if nodes.len() == 0 {
        seq![]
    } else {
        translatable(nodes.drop_last()) + node_strings(nodes.last())
    }
}

proof fn lemma_hex_run_len(v: u128, from: int, to: int)
    requires
        from <= to,
    ensures
        hex_run(v, from, to).len() == to - from,
    decreases to - from,
{
    if from < to {
        lemma_hex_run_len(v, from, to - 1);
    }
}

/// The first eight hex digits of an identifier's text form.
pub fn uuid8(id: u128) -> (r: String)
    ensures
        r@ == uuid_prefix8(id),
{
    let t = uuid_text(id);
    proof {
        lemma_hex_run_len(id, 0, 8);
        lemma_hex_run_len(id, 8, 12);
        lemma_hex_run_len(id, 12, 16);
        lemma_hex_run_len(id, 16, 20);
        lemma_hex_run_len(id, 20, 32);
        assert(uuid_hyphenated(id).len() == 36);
        assert forall|j: int| 0 <= j < 8 implies uuid_hyphenated(id)[j] == hex_run(id, 0, 8)[j] by {
        }
    }
    let mut r = String::new();
    let mut i: usize = 0;
    while i < 8
        invariant
            i <= 8,
            t@ == uuid_hyphenated(id),
            t@.len() == 36,
            hex_run(id, 0, 8).len() == 8,
            forall|j: int| 0 <= j < 8 ==> uuid_hyphenated(id)[j] == hex_run(id, 0, 8)[j],
            r@ == hex_run(id, 0, 8).take(i as int),
        decreases 8 - i,
    {
        let c = t.as_str().get_char(i);
        push_char(&mut r, c);
        assert(r@ =~= hex_run(id, 0, 8).take(i + 1));
        i = i + 1;
    }
    assert(r@ =~= hex_run(id, 0, 8));
    r
}

fn prefixed(prefix: &str, id8: &String) -> (r: String)
    ensures
        r@ == prefix@ + id8@,
{
    let mut r = String::new();
    push_str(&mut r, prefix);
    push_str(&mut r, id8.as_str());
    assert(r@ =~= prefix@ + id8@);
    r
}

/// Appends the translatable strings of one node.
fn push_node_strings(out: &mut Vec<TranslatableString>, n: &Node)
    ensures
        final(out)@.map_values(|t: TranslatableString| ts_view(t))
            == old(out)@.map_values(|t: TranslatableString| ts_view(t)) + node_strings(node_view(*n)),
{
    let ghost before = old(out)@.map_values(|t: TranslatableString| ts_view(t));
    match &n.node_type {
        NodeType::Dialogue(d) => {
            let id8 = uuid8(n.id);
            let key = prefixed("dlg_", &id8);
            out.push(TranslatableString {
                key,
                node_id: n.id,
                string_type: StringType::Dialogue,
                default_text: d.text.clone(),
            });
            assert(out@.map_values(|t: TranslatableString| ts_view(t)) =~= before + node_strings(node_view(*n)));
        },
        NodeType::Choice(c) => {
            let id8 = uuid8(n.id);
            let key = prefixed("prompt_", &id8);
            out.push(TranslatableString {
                key,
                node_id: n.id,
                string_type: StringType::ChoicePrompt,
                default_text: c.prompt.clone(),
            });
            let ghost opts = Seq::new(c.choices@.len(), |i: int| (option_key(n.id, i), n.id, StringType::ChoiceOption, c.choices@[i].text@));
            assert(node_view(*n).kind == KindV::Choice(c.prompt@, c.choices@.map_values(|o: crate::model::ChoiceOption| crate::model::option_view(o))));
            let ghost head = before + seq![("prompt_"@ + uuid_prefix8(n.id), n.id, StringType::ChoicePrompt, c.prompt@)];
            assert(out@.map_values(|t: TranslatableString| ts_view(t)) =~= head + opts.take(0));
            let mut i: usize = 0;
            while i < c.choices.len()
                invariant
                    i <= c.choices.len(),
                    opts == Seq::new(c.choices@.len(), |i: int| (option_key(n.id, i), n.id, StringType::ChoiceOption, c.choices@[i].text@)),
                    id8@ == uuid_prefix8(n.id),
                    out@.map_values(|t: TranslatableString| ts_view(t)) == head + opts.take(i as int),
                decreases c.choices.len() - i,
            {
                let mut key = prefixed("opt_", &id8);
                push_char(&mut key, '_');
                push_decimal(&mut key, i as u64);
                let ghost prev = out@;
                out.push(TranslatableString {
                    key,
                    node_id: n.id,
                    string_type: StringType::ChoiceOption,
                    default_text: c.choices[i].text.clone(),
                });
                proof {
                    reveal_strlit("_");
                    assert(key@ =~= option_key(n.id, i as int));
                    assert(opts.take(i + 1) =~= opts.take(i as int).push(opts[i as int]));
                    assert(out@.map_values(|t: TranslatableString| ts_view(t))
                        =~= prev.map_values(|t: TranslatableString| ts_view(t)).push(ts_view(out@.last())));
                }
                i = i + 1;
            }
            assert(opts.take(c.choices.len() as int) =~= opts);
            assert(out@.map_values(|t: TranslatableString| ts_view(t)) =~= before + node_strings(node_view(*n)));
        },
        _ => {
            assert(node_strings(node_view(*n)) =~= Seq::<StringV>::empty());
            assert(before + node_strings(node_view(*n)) =~= before);
        },
    }
}

/// The translatable strings of the graph: for each node in order, the text of
/// a dialogue line (key `dlg_` and the first eight hex digits of the node's
/// identifier), or the prompt (key `prompt_...`) and each option (key
/// `opt_..._i`) of a choice.
pub fn collect_translatable_strings(graph: &DialogueGraph) -> (r: Vec<TranslatableString>)
    ensures
        r@.map_values(|t: TranslatableString| ts_view(t)) == translatable(nodes_view(graph.nodes@)),
{
    let ghost nv = nodes_view(graph.nodes@);
    proof {
        lemma_nodes_view(graph.nodes@);
    }
    let mut out: Vec<TranslatableString> = Vec::new();
    let mut i: usize = 0;
    assert(nv.take(0) =~= Seq::<NodeV>::empty());
    assert(out@.map_values(|t: TranslatableString| ts_view(t)) =~= translatable(nv.take(0)));
    while i < graph.nodes.len()
        invariant
            i <= graph.nodes.len(),
            nv == nodes_view(graph.nodes@),
            nv.len() == graph.nodes.len(),
            forall|q: int| 0 <= q < graph.nodes.len() ==> #[trigger] nv[q] == node_view(graph.nodes@[q]),
            out@.map_values(|t: TranslatableString| ts_view(t)) == translatable(nv.take(i as int)),
        decreases graph.nodes.len() - i,
    {
        push_node_strings(&mut out, &graph.nodes[i]);
        proof {
            assert(nv.take(i + 1).drop_last() =~= nv.take(i as int));
            assert(nv.take(i + 1).last() == nv[i as int]);
        }
        i = i + 1;
    }
    assert(nv.take(graph.nodes.len() as int) =~= nv);
    out
}

// ------------------------------------------------------------ export

pub open spec fn or_empty(o: Option<Seq<char>>) -> Seq<char> {
    match o {
        Some(t) => t,
        None => seq![],
    }
}

/// The header of the translation table: `key`, `type`, the default locale and
/// the extra locales.
pub open spec fn table_header(l: LocaleSettings) -> Seq<Seq<char>> {
    seq!["key"@, "type"@, l.default_locale@] + strings_view(l.extra_locales@)
}

/// The row of one string: key, type, default text, then its translation into
/// each extra locale (empty where there is none).
pub open spec fn table_row(l: LocaleSettings, s: StringV) -> Seq<Seq<char>> {
    seq![s.0, type_label(s.2), s.3] + Seq::new(
        l.extra_locales@.len(),
        |j: int| or_empty(translation_of(l.translations@, s.0, l.extra_locales@[j]@)),
    )
}

/// The translation table of a graph.
pub open spec fn locale_table(g: DialogueGraph) -> Table {
    seq![table_header(g.locale)] + translatable(nodes_view(g.nodes@)).map_values(|s: StringV| table_row(g.locale, s))
}

fn header_row(l: &LocaleSettings) -> (r: Vec<String>)
    ensures
        r@.map_values(|f: String| f@) == table_header(*l),
{
    let mut r: Vec<String> = Vec::new();
    r.push(crate::text::owned("key"));
    r.push(crate::text::owned("type"));
    r.push(l.default_locale.clone());
    let mut j: usize = 0;
    let ghost head = seq!["key"@, "type"@, l.default_locale@];
    assert(r@.map_values(|f: String| f@) =~= head + strings_view(l.extra_locales@).take(0));
    while j < l.extra_locales.len()
        invariant
            j <= l.extra_locales.len(),
            head == seq!["key"@, "type"@, l.default_locale@],
            r@.map_values(|f: String| f@) == head + strings_view(l.extra_locales@).take(j as int),
        decreases l.extra_locales.len() - j,
    {
        let ghost prev = r@;
        r.push(l.extra_locales[j].clone());
        assert(r@.map_values(|f: String| f@) =~= prev.map_values(|f: String| f@).push(l.extra_locales@[j as int]@));
        assert(strings_view(l.extra_locales@).take(j + 1) =~= strings_view(l.extra_locales@).take(j as int).push(l.extra_locales@[j as int]@));
        assert(r@.map_values(|f: String| f@) =~= head + strings_view(l.extra_locales@).take(j + 1));
        j = j + 1;
    }
    assert(strings_view(l.extra_locales@).take(l.extra_locales.len() as int) =~= strings_view(l.extra_locales@));
    r
}

fn string_row(l: &LocaleSettings, t: &TranslatableString) -> (r: Vec<String>)
    ensures
        r@.map_values(|f: String| f@) == table_row(*l, ts_view(*t)),
{
    let mut r: Vec<String> = Vec::new();
    r.push(t.key.clone());
    r.push(crate::text::owned(t.string_type.label()));
    r.push(t.default_text.clone());
    let ghost head = seq![t.key@, type_label(t.string_type), t.default_text@];
    let ghost cells = Seq::new(
        l.extra_locales@.len(),
        |j: int| or_empty(translation_of(l.translations@, t.key@, l.extra_locales@[j]@)),
    );
    assert(r@.map_values(|f: String| f@) =~= head + cells.take(0));
    let mut j: usize = 0;
    while j < l.extra_locales.len()
        invariant
            j <= l.extra_locales.len(),
            cells == Seq::new(
                l.extra_locales@.len(),
                |j: int| or_empty(translation_of(l.translations@, t.key@, l.extra_locales@[j]@)),
            ),
            r@.map_values(|f: String| f@) == head + cells.take(j as int),
        decreases l.extra_locales.len() - j,
    {
        let tr = l.get_translation(t.key.as_str(), l.extra_locales[j].as_str());
        let text = match tr {
            Some(x) => crate::text::owned(x),
            None => String::new(),
        };
        let ghost prev = r@;
        r.push(text);
        assert(r@.map_values(|f: String| f@) =~= prev.map_values(|f: String| f@).push(cells[j as int]));
        assert(cells.take(j + 1) =~= cells.take(j as int).push(cells[j as int]));
        assert(r@.map_values(|f: String| f@) =~= head + cells.take(j + 1));
        j = j + 1;
    }
    assert(cells.take(l.extra_locales.len() as int) =~= cells);
    r
}

/// The translation table of the graph as comma-separated text: a header row
/// `key,type,<default locale>,<extra locales...>` and one row per translatable
/// string with its key, type, default text and translations.
pub fn export_locale_csv(graph: &DialogueGraph) -> (r: String)
    ensures
        r@ == table_text(locale_table(*graph)),
{
    let strings = collect_translatable_strings(graph);
    let ghost sv = strings@.map_values(|t: TranslatableString| ts_view(t));
    let mut table: Vec<Vec<String>> = Vec::new();
    let h = header_row(&graph.locale);
    assert(h@.len() >= 3) by {
        assert(h@.map_values(|f: String| f@).len() >= 3);
    }
    table.push(h);
    let ghost head = seq![table_header(graph.locale)];
    assert(table_view(table@) =~= head + sv.map_values(|s: StringV| table_row(graph.locale, s)).take(0));
    let mut i: usize = 0;
    while i < strings.len()
        invariant
            i <= strings.len(),
            sv == strings@.map_values(|t: TranslatableString| ts_view(t)),
            head == seq![table_header(graph.locale)],
            table_view(table@) == head + sv.map_values(|s: StringV| table_row(graph.locale, s)).take(i as int),
            forall|k: int| 0 <= k < table@.len() ==> #[trigger] table@[k].len() >= 3,
        decreases strings.len() - i,
    {
        let row = string_row(&graph.locale, &strings[i]);
        assert(row@.len() >= 3) by {
            assert(row@.map_values(|f: String| f@).len() >= 3);
        }
        let ghost prev = table@;
        table.push(row);
        proof {
            let rows = sv.map_values(|s: StringV| table_row(graph.locale, s));
            assert(rows.take(i + 1) =~= rows.take(i as int).push(rows[i as int]));
            assert(table_view(table@) =~= table_view(prev).push(table_view(table@).last()));
            assert(table_view(table@) =~= head + rows.take(i + 1));
            assert forall|k: int| 0 <= k < table@.len() implies #[trigger] table@[k].len() >= 3 by {
                if k < prev.len() {
                    assert(table@[k] == prev[k]);
                }
            }
        }
        i = i + 1;
    }
    proof {
        let rows = sv.map_values(|s: StringV| table_row(graph.locale, s));
        assert(rows.take(strings.len() as int) =~= rows);
        assert(table_view(table@) =~= locale_table(*graph));
    }
    write_table(&table)
}

/// Every row of the translation table has at least three fields.
proof fn lemma_locale_table_rows(g: DialogueGraph)
    ensures
        rows_nonempty(locale_table(g)),
{
    let t = locale_table(g);
    assert forall|i: int| 0 <= i < t.len() implies #[trigger] t[i].len() >= 1 by {
        if i > 0 {
            assert(t[i] == table_row(g.locale, translatable(nodes_view(g.nodes@))[i - 1]));
        }
    }
}

/// The exported translation table reads back, row by row and field by field,
/// as the table it was written from.
pub proof fn law_locale_csv_reads_back(g: DialogueGraph)
    ensures
        read_table(table_text(locale_table(g))) == locale_table(g),
{
    lemma_locale_table_rows(g);
    law_table_reads_back(locale_table(g));
}

// ------------------------------------------------------------ import

/// One translation read from a table: key, locale, text.
pub type CellV = (Seq<char>, Seq<char>, Seq<char>);

/// Field `c` of a row, empty past its end.
pub open spec fn field_or_empty(r: Seq<Seq<char>>, c: int) -> Seq<char> {
    if 0 <= c < r.len() { r[c] } else { seq![] }
}

/// The translations a data row carries: one per locale column after the
/// default one, unless the row or its key is empty.
pub open spec fn row_cells(r: Seq<Seq<char>>, header: Seq<Seq<char>>) -> Seq<CellV> {
    if r.len() == 0 || r[0].len() == 0 || header.len() < 3 {
        seq![]
    } else {
        Seq::new((header.len() - 3) as nat, |c: int| (r[0], header[c + 3], field_or_empty(r, c + 3)))
    }
}

/// The translations carried by data rows `1..k` of a table.
pub open spec fn cells_upto(rows: Table, k: int) -> Seq<CellV>
    decreases k,
{
    if k <= 1 {
        seq![]
    } else {
        cells_upto(rows, k - 1) + row_cells(rows[k - 1], rows[0])
    }
}

/// The translations carried by a whole table.
pub open spec fn table_cells(rows: Table) -> Seq<CellV> {
    cells_upto(rows, rows.len() as int)
}

/// The extra locales after importing `cells`: each new locale that is not the
/// default one is appended when first met.
pub open spec fn locales_after(extras: Seq<Seq<char>>, default: Seq<char>, cells: Seq<CellV>) -> Seq<Seq<char>>
    decreases cells.len(),
{
    if cells.len() == 0 {
        extras
    } else {
        let e = locales_after(extras, default, cells.drop_last());
        let l = cells.last().1;
        if e.contains(l) || l == default { e } else { e.push(l) }
    }
}

/// The translation of `(k, l)` after importing `cells` over `prev`: the text of
/// the last cell for that key and locale, or `prev` when there is none.
pub open spec fn translated_after(prev: Option<Seq<char>>, cells: Seq<CellV>, k: Seq<char>, l: Seq<char>) -> Option<Seq<char>>
    decreases cells.len(),
{
    if cells.len() == 0 {
        prev
    } else if cells.last().0 == k && cells.last().1 == l {
        Some(cells.last().2)
    } else {
        translated_after(prev, cells.drop_last(), k, l)
    }
}

pub open spec fn capped(n: int) -> int {
    if n <= usize::MAX { n } else { usize::MAX as int }
}

proof fn lemma_lists_contains(v: Seq<String>, s: Seq<char>)
    ensures
        lists(v, s) == strings_view(v).contains(s),
{
    if lists(v, s) {
        let i = choose|i: int| 0 <= i < v.len() && v[i]@ == s;
        assert(strings_view(v)[i] == s);
    }
    if strings_view(v).contains(s) {
        let i = choose|i: int| 0 <= i < strings_view(v).len() && strings_view(v)[i] == s;
        assert(v[i]@ == s);
    }
}

/// Imports a translation table into the locale settings. The first row names
/// the locales from its third column on (the third is the default locale);
/// each later row with a non-empty key sets, for every locale column after the
/// default one, the translation of that key to the row's field there (empty
/// past the row's end), adding the locale first when it is new. Returns the
/// number of translations set (capped at `usize::MAX`), or an error when the
/// table has no row or its header fewer than three columns, the settings then
/// unchanged.
pub fn import_locale_csv(csv: &str, locale: &mut LocaleSettings) -> (r: Result<usize, String>)
    ensures
        read_table(csv@).len() == 0 ==> (r matches Err(e) && e@ == "CSV is empty"@ && *final(locale) == *old(locale)),
        read_table(csv@).len() > 0 && read_table(csv@)[0].len() < 3 ==> (r matches Err(e)
            && e@ == "CSV must have at least key, type, and default locale columns"@
            && *final(locale) == *old(locale)),
        read_table(csv@).len() > 0 && read_table(csv@)[0].len() >= 3 ==> {
            let cells = table_cells(read_table(csv@));
            &&& r matches Ok(n) && n == capped(cells.len() as int)
            &&& final(locale).default_locale == old(locale).default_locale
            &&& strings_view(final(locale).extra_locales@)
                == locales_after(strings_view(old(locale).extra_locales@), old(locale).default_locale@, cells)
            &&& forall|k: Seq<char>, l: Seq<char>| #[trigger] translation_of(final(locale).translations@, k, l)
                == translated_after(translation_of(old(locale).translations@, k, l), cells, k, l)
        },
{
    let rows = parse_csv_rows(csv);
    let ghost t = read_table(csv@);
    if rows.len() == 0 {
        return Err(crate::text::owned("CSV is empty"));
    }
    assert(t[0] == rows@[0]@.map_values(|f: String| f@));
    if rows[0].len() < 3 {
        return Err(crate::text::owned("CSV must have at least key, type, and default locale columns"));
    }
    let header = &rows[0];
    let ghost hv = t[0];
    let ghost default = old(locale).default_locale@;
    let ghost extras0 = strings_view(old(locale).extra_locales@);
    let ghost tr0 = old(locale).translations@;
    let mut count: usize = 0;
    let mut ri: usize = 1;
    while ri < rows.len()
        invariant
            1 <= ri <= rows.len(),
            t == read_table(csv@),
            t == table_view(rows@),
            header == &rows[0],
            hv == t[0],
            hv.len() >= 3,
            locale.default_locale == old(locale).default_locale,
            default == old(locale).default_locale@,
            strings_view(locale.extra_locales@) == locales_after(extras0, default, cells_upto(t, ri as int)),
            forall|k: Seq<char>, l: Seq<char>| #[trigger] translation_of(locale.translations@, k, l)
                == translated_after(translation_of(tr0, k, l), cells_upto(t, ri as int), k, l),
            count == capped(cells_upto(t, ri as int).len() as int),
        decreases rows.len() - ri,
    {
        let row = &rows[ri];
        let ghost rv = t[ri as int];
        assert(rv == row@.map_values(|f: String| f@));
        let ghost done = cells_upto(t, ri as int);
        assert(cells_upto(t, ri + 1) == done + row_cells(rv, hv));
        if row.len() == 0 || row[0].as_str().unicode_len() == 0 {
            assert(row_cells(rv, hv) =~= Seq::<CellV>::empty());
            assert(done + row_cells(rv, hv) =~= done);
        } else {
            assert(rv[0] == row@[0]@);
            let ghost cells = row_cells(rv, hv);
            let mut c: usize = 3;
            assert(done + cells.take(0) =~= done);
            while c < header.len()
                invariant
                    3 <= c <= header.len(),
                    t == table_view(rows@),
                    header == &rows[0],
                    hv == t[0],
                    hv == header@.map_values(|f: String| f@),
                    row == &rows[ri as int],
                    rv == row@.map_values(|f: String| f@),
                    row@.len() > 0,
                    rv[0].len() > 0,
                    cells == row_cells(rv, hv),
                    cells.len() == hv.len() - 3,
                    locale.default_locale == old(locale).default_locale,
            default == old(locale).default_locale@,
                    strings_view(locale.extra_locales@) == locales_after(extras0, default, done + cells.take(c - 3)),
                    forall|k: Seq<char>, l: Seq<char>| #[trigger] translation_of(locale.translations@, k, l)
                        == translated_after(translation_of(tr0, k, l), done + cells.take(c - 3), k, l),
                    count == capped((done + cells.take(c - 3)).len() as int),
                decreases header.len() - c,
            {
                let loc = &header[c];
                let text = if c < row.len() { row[c].clone() } else { String::new() };
                let ghost cell = cells[c - 3];
                assert(cell == (rv[0], hv[c as int], field_or_empty(rv, c as int)));
                assert(loc@ == cell.1);
                assert(text@ == cell.2);
                let ghost before = done + cells.take(c - 3);
                let ghost after = done + cells.take(c - 2);
                assert(after =~= before.push(cell));
                assert(after.drop_last() =~= before);
                proof {
                    lemma_lists_contains(locale.extra_locales@, loc@);
                }
                locale.add_locale(loc.clone());
                locale.set_translation(row[0].clone(), loc.clone(), text);
                proof {
                    assert(strings_view(locale.extra_locales@) =~= locales_after(extras0, default, after)) by {
                        let e = locales_after(extras0, default, before);
                        if !(e.contains(loc@) || loc@ == default) {
                            assert(strings_view(locale.extra_locales@) =~= e.push(loc@));
                        }
                    }
                    assert forall|k: Seq<char>, l: Seq<char>| #[trigger] translation_of(locale.translations@, k, l)
                        == translated_after(translation_of(tr0, k, l), after, k, l) by {
                    }
                }
                count = count.saturating_add(1);
                c = c + 1;
            }
            assert(cells.take(header.len() - 3) =~= cells);
        }
        ri = ri + 1;
    }
    assert(cells_upto(t, rows.len() as int) == table_cells(t));
    Ok(count)
}

// ------------------------------------------------------------ round trip

/// One of the strings has key `k`.
pub open spec fn has_key(strs: Seq<StringV>, k: Seq<char>) -> bool {
    exists|j: int| 0 <= j < strs.len() && (#[trigger] strs[j]).0 == k
}

/// Some cell is for key `k` and locale `l`.
pub open spec fn covered(cells: Seq<CellV>, k: Seq<char>, l: Seq<char>) -> bool {
    exists|i: int| 0 <= i < cells.len() && (#[trigger] cells[i]).0 == k && cells[i].1 == l
}

/// A cell of the exported table: an extra locale, a key of the graph, and the
/// translation the settings held for them (empty when there was none).
spec fn cell_fits(cell: CellV, g: DialogueGraph) -> bool {
    &&& strings_view(g.locale.extra_locales@).contains(cell.1)
    &&& cell.2 == or_empty(translation_of(g.locale.translations@, cell.0, cell.1))
    &&& has_key(translatable(nodes_view(g.nodes@)), cell.0)
}

/// Every key of a translatable string is non-empty.
proof fn lemma_keys_nonempty(nodes: Seq<NodeV>)
    ensures
        forall|i: int| 0 <= i < translatable(nodes).len() ==> (#[trigger] translatable(nodes)[i]).0.len() > 0,
    decreases nodes.len(),
{
    if nodes.len() > 0 {
        lemma_keys_nonempty(nodes.drop_last());
        let a = translatable(nodes.drop_last());
        let b = node_strings(nodes.last());
        reveal_strlit("dlg_");
        reveal_strlit("prompt_");
        reveal_strlit("opt_");
        assert forall|i: int| 0 <= i < b.len() implies (#[trigger] b[i]).0.len() > 0 by {
            match nodes.last().kind {
                KindV::Choice(_, options) => {
                    if i > 0 {
                        assert(b[i].0 == option_key(nodes.last().id, i - 1));
                    }
                },
                _ => {},
            }
        }
        assert forall|i: int| 0 <= i < translatable(nodes).len() implies (#[trigger] translatable(nodes)[i]).0.len() > 0 by {
            if i >= a.len() {
                assert(translatable(nodes)[i] == b[i - a.len()]);
            } else {
                assert(translatable(nodes)[i] == a[i]);
            }
        }
    }
}

/// What the first `k - 1` data rows of the exported table carry: one cell per
/// string and extra locale, each fitting the graph, every such pair covered.
proof fn lemma_cells_upto(g: DialogueGraph, k: int)
    requires
        1 <= k <= translatable(nodes_view(g.nodes@)).len() + 1,
    ensures
        ({
            let cells = cells_upto(locale_table(g), k);
            let strs = translatable(nodes_view(g.nodes@));
            let ev = strings_view(g.locale.extra_locales@);
            &&& cells.len() == (k - 1) * ev.len()
            &&& forall|i: int| 0 <= i < cells.len() ==> cell_fits(#[trigger] cells[i], g)
            &&& forall|j: int, c: int| 0 <= j < k - 1 && 0 <= c < ev.len()
                ==> #[trigger] covered(cells, strs[j].0, ev[c])
        }),
    decreases k,
{
    let rows = locale_table(g);
    let strs = translatable(nodes_view(g.nodes@));
    let ev = strings_view(g.locale.extra_locales@);
    let m = ev.len();
    if k >= 2 {
        lemma_cells_upto(g, k - 1);
        lemma_keys_nonempty(nodes_view(g.nodes@));
        let prev = cells_upto(rows, k - 1);
        let s = strs[k - 2];
        let row = rows[k - 1];
        let hdr = rows[0];
        assert(row == table_row(g.locale, s));
        assert(hdr == table_header(g.locale));
        assert(s.0.len() > 0);
        assert(row[0] == s.0);
        let rc = row_cells(row, hdr);
        assert(rc.len() == m);
        assert forall|c: int| 0 <= c < m implies #[trigger] rc[c] == (s.0, ev[c], or_empty(translation_of(g.locale.translations@, s.0, ev[c]))) by {
            assert(hdr[c + 3] == ev[c]);
            assert(row[c + 3] == or_empty(translation_of(g.locale.translations@, s.0, g.locale.extra_locales@[c]@)));
        }
        let cells = cells_upto(rows, k);
        assert(cells == prev + rc);
        assert((k - 1) * m == (k - 2) * m + m) by (nonlinear_arith);
        assert(has_key(strs, s.0)) by {
            assert(strs[k - 2] == s);
        }
        assert forall|i: int| 0 <= i < cells.len() implies cell_fits(#[trigger] cells[i], g) by {
            if i < prev.len() {
                assert(cells[i] == prev[i]);
            } else {
                let c = i - prev.len();
                assert(cells[i] == rc[c]);
                assert(ev[c] == ev[c]);
            }
        }
        assert forall|j: int, c: int| 0 <= j < k - 1 && 0 <= c < m implies #[trigger] covered(cells, strs[j].0, ev[c]) by {
            if j < k - 2 {
                assert(covered(prev, strs[j].0, ev[c]));
                let i = choose|i: int| 0 <= i < prev.len() && (#[trigger] prev[i]).0 == strs[j].0 && prev[i].1 == ev[c];
                assert(cells[i] == prev[i]);
            } else {
                assert(cells[prev.len() + c] == rc[c]);
            }
        }
    } else {
        assert(cells_upto(rows, k) =~= Seq::<CellV>::empty());
    }
}

/// The last cell for `(k, l)` decides, when every such cell carries `v`.
proof fn lemma_translated_after(prev: Option<Seq<char>>, cells: Seq<CellV>, k: Seq<char>, l: Seq<char>, v: Seq<char>)
    requires
        forall|i: int| 0 <= i < cells.len() && (#[trigger] cells[i]).0 == k && cells[i].1 == l ==> cells[i].2 == v,
    ensures
        translated_after(prev, cells, k, l) == if covered(cells, k, l) { Some(v) } else { prev },
    decreases cells.len(),
{
    if cells.len() > 0 {
        let last = cells[cells.len() - 1];
        if last.0 == k && last.1 == l {
            assert(covered(cells, k, l));
        } else {
            let d = cells.drop_last();
            assert forall|i: int| 0 <= i < d.len() && (#[trigger] d[i]).0 == k && d[i].1 == l implies d[i].2 == v by {
                assert(d[i] == cells[i]);
            }
            lemma_translated_after(prev, d, k, l, v);
            if covered(cells, k, l) {
                let i = choose|i: int| 0 <= i < cells.len() && (#[trigger] cells[i]).0 == k && cells[i].1 == l;
                assert(d[i] == cells[i]);
            }
            if covered(d, k, l) {
                let i = choose|i: int| 0 <= i < d.len() && (#[trigger] d[i]).0 == k && d[i].1 == l;
                assert(d[i] == cells[i]);
            }
        }
    }
}

/// Cells whose locales are all listed add no locale.
proof fn lemma_locales_kept(extras: Seq<Seq<char>>, default: Seq<char>, cells: Seq<CellV>)
    requires
        forall|i: int| 0 <= i < cells.len() ==> extras.contains((#[trigger] cells[i]).1),
    ensures
        locales_after(extras, default, cells) == extras,
    decreases cells.len(),
{
    if cells.len() > 0 {
        let d = cells.drop_last();
        assert forall|i: int| 0 <= i < d.len() implies extras.contains((#[trigger] d[i]).1) by {
            assert(d[i] == cells[i]);
        }
        lemma_locales_kept(extras, default, d);
        assert(extras.contains(cells[cells.len() - 1].1));
    }
}

/// Importing the exported translation table into the graph's own locale
/// settings succeeds and sets one translation per translatable string and
/// extra locale; it adds no locale, and it changes no translation but one that
/// was missing for a key of the graph and an extra locale, which it sets to
/// the empty text.
pub proof fn law_locale_csv_import_count(g: DialogueGraph)
    ensures
        ({
            let t = read_table(table_text(locale_table(g)));
            let cells = table_cells(t);
            let strs = translatable(nodes_view(g.nodes@));
            let ev = strings_view(g.locale.extra_locales@);
            let tr = g.locale.translations@;
            &&& t.len() > 0 && t[0].len() >= 3
            &&& cells.len() == strs.len() * g.locale.extra_locales@.len()
            &&& locales_after(ev, g.locale.default_locale@, cells) == ev
            &&& forall|k: Seq<char>, l: Seq<char>| #[trigger] translated_after(translation_of(tr, k, l), cells, k, l)
                == if has_key(strs, k) && ev.contains(l) {
                    Some(or_empty(translation_of(tr, k, l)))
                } else {
                    translation_of(tr, k, l)
                }
        }),
{
    law_locale_csv_reads_back(g);
    let rows = locale_table(g);
    let strs = translatable(nodes_view(g.nodes@));
    let ev = strings_view(g.locale.extra_locales@);
    let tr = g.locale.translations@;
    assert(rows.len() == strs.len() + 1);
    assert(rows[0] == table_header(g.locale));
    lemma_cells_upto(g, strs.len() + 1 as int);
    let cells = table_cells(rows);
    assert(cells == cells_upto(rows, strs.len() + 1 as int));
    lemma_locales_kept(ev, g.locale.default_locale@, cells);
    assert forall|k: Seq<char>, l: Seq<char>| #[trigger] translated_after(translation_of(tr, k, l), cells, k, l)
        == if has_key(strs, k) && ev.contains(l) {
            Some(or_empty(translation_of(tr, k, l)))
        } else {
            translation_of(tr, k, l)
        } by {
        let v = or_empty(translation_of(tr, k, l));
        assert forall|i: int| 0 <= i < cells.len() && (#[trigger] cells[i]).0 == k && cells[i].1 == l implies cells[i].2 == v by {
            assert(cell_fits(cells[i], g));
        }
        lemma_translated_after(translation_of(tr, k, l), cells, k, l, v);
        if covered(cells, k, l) {
            let i = choose|i: int| 0 <= i < cells.len() && (#[trigger] cells[i]).0 == k && cells[i].1 == l;
            assert(cell_fits(cells[i], g));
        }
        if has_key(strs, k) && ev.contains(l) {
            let j = choose|j: int| 0 <= j < strs.len() && (#[trigger] strs[j]).0 == k;
            let c = choose|c: int| 0 <= c < ev.len() && ev[c] == l;
            assert(covered(cells, strs[j].0, ev[c]));
        }
    }
}

} // verus!
