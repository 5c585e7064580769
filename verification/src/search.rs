//! Finding nodes by text: a node matches a query when the lowercase form of
//! one of its tags, its title or one of its texts contains the query.

use vstd::prelude::*;
use vstd::string::StringSliceAdditionalSpecFns;
use vstd::utf8::{decode_utf8, encode_utf8, is_char_boundary};
use crate::csv::push_str;
use crate::model::{
    ActionV, DialogueGraph, KindV, Node, NodeType, NodeV, OptionV, PortV, action_view, kind_view, node_view,
    option_view, port_view, ports_view, strings_view,
};
use crate::ui::node_title;

verus! {

/// The lowercase form of a text, as `str::to_lowercase` gives it.
pub uninterp spec fn lowercase_of(s: Seq<char>) -> Seq<char>;

/// `str::to_lowercase`: the lowercase equivalent of `s` as defined by
/// Unicode, as a new string (a character may become several). The result is
/// named by `lowercase_of`; nothing more is stated of it.
#[verifier::external_body]
pub(crate) fn lowercase(s: &str) -> (r: String)
    ensures
        r@ == lowercase_of(s@),
{
    s.to_lowercase()
}

/// `q` occurs in `s` as a run of consecutive characters.
pub open spec fn has_sub(s: Seq<char>, q: Seq<char>) -> bool {
    exists|i: int| 0 <= i && i + q.len() <= s.len() && #[trigger] s.subrange(i, i + q.len()) == q
}

/// Whether `q` occurs in `s` (see `has_sub`).
pub fn contains_str(s: &str, q: &str) -> (r: bool)
    ensures
        r == has_sub(s@, q@),
{
    let n = s.unicode_len();
    let m = q.unicode_len();
    if m > n {
        return false;
    }
    let mut i: usize = 0;
    while i <= n - m
        invariant
            n == s@.len(),
            m == q@.len(),
            m <= n,
            i <= n - m + 1,
            forall|k: int| 0 <= k < i ==> #[trigger] s@.subrange(k, k + m) != q@,
        decreases n - m + 1 - i,
    {
        let mut j: usize = 0;
        let mut same = true;
        while j < m
            invariant
                n == s@.len(),
                m == q@.len(),
                i + m <= n,
                j <= m,
                same == (forall|t: int| 0 <= t < j ==> s@[i + t] == q@[t]),
            decreases m - j,
        {
            if s.get_char(i + j) != q.get_char(j) {
                same = false;
            }
            j = j + 1;
        }
        if same {
            assert(s@.subrange(i as int, i + m) =~= q@);
            return true;
        }
        assert(s@.subrange(i as int, i + m)[0] == s@[i as int]) by {
            if m == 0 {
            }
        }
        proof {
            let k = choose|t: int| 0 <= t < m && s@[i + t] != q@[t];
            assert(s@.subrange(i as int, i + m)[k] != q@[k]);
        }
        i = i + 1;
    }
    false
}

/// The lowercase form of `s` contains `q`.
pub open spec fn finds(s: Seq<char>, q: Seq<char>) -> bool {
    has_sub(lowercase_of(s), q)
}

fn finds_in(s: &str, q: &str) -> (r: bool)
    ensures
        r == finds(s@, q@),
{
    let l = lowercase(s);
    contains_str(l.as_str(), q)
}

/// The tags of node `id`: those of its last entry, or none.
pub open spec fn tags_of(tags: Seq<(u128, Seq<Seq<char>>)>, id: u128) -> Seq<Seq<char>>
    decreases tags.len(),
{
    if tags.len() == 0 {
        seq![]
    } else if tags.last().0 == id {
        tags.last().1
    } else {
        tags_of(tags.drop_last(), id)
    }
}

/// Whether a node matches the (lowercase) query `q`: one of its tags, its
/// title, or one of its texts (the line, speaker name and emotion of a
/// dialogue line; the prompt and option texts of a choice; the variable of a
/// condition; the action keys of an event; the tag of an end) contains `q`
/// once lowercased.
pub open spec fn node_matches(n: NodeV, q: Seq<char>, tags: Seq<Seq<char>>) -> bool {
    ||| exists|i: int| 0 <= i < tags.len() && finds(#[trigger] tags[i], q)
    ||| finds(node_title(n.kind), q)
    ||| match n.kind {
        KindV::Dialogue(d) => finds(d.text, q) || finds(d.speaker_name, q) || finds(d.emotion, q),
        KindV::Choice(prompt, opts) => finds(prompt, q) || exists|i: int| 0 <= i < opts.len() && finds(#[trigger] opts[i].text, q),
        KindV::Condition(c) => finds(c.variable_name, q),
        KindV::Event(acts) => exists|i: int| 0 <= i < acts.len() && finds(#[trigger] acts[i].key, q),
        KindV::End(tag) => finds(tag, q),
        _ => false,
    }
}

pub open spec fn graph_tags(g: DialogueGraph) -> Seq<(u128, Seq<Seq<char>>)> {
    g.node_tags@.map_values(|t: (u128, Vec<String>)| (t.0, strings_view(t.1@)))
}

fn find_tags(graph: &DialogueGraph, id: u128) -> (r: Option<usize>)
    ensures
        match r {
            Some(k) => k < graph.node_tags.len() && tags_of(graph_tags(*graph), id) == strings_view(graph.node_tags@[k as int].1@),
            None => tags_of(graph_tags(*graph), id) == Seq::<Seq<char>>::empty(),
        },
{
    let ghost tv = graph_tags(*graph);
    let mut k: usize = graph.node_tags.len();
    assert(tv.take(k as int) =~= tv);
    while k > 0
        invariant
            k <= graph.node_tags.len(),
            tv == graph_tags(*graph),
            tags_of(tv, id) == tags_of(tv.take(k as int), id),
        decreases k,
    {
        assert(tv.take(k as int).drop_last() =~= tv.take(k - 1));
        assert(tv.take(k as int).last() == tv[k - 1]);
        if graph.node_tags[k - 1].0 == id {
            return Some(k - 1);
        }
        k = k - 1;
    }
    None
}

fn any_finds(v: &Vec<String>, q: &str) -> (r: bool)
    ensures
        r == exists|i: int| 0 <= i < v.len() && finds(#[trigger] strings_view(v@)[i], q@),
{
    let ghost sv = strings_view(v@);
    let mut i: usize = 0;
    while i < v.len()
        invariant
            i <= v.len(),
            sv == strings_view(v@),
            forall|k: int| 0 <= k < i ==> !finds(#[trigger] sv[k], q@),
        decreases v.len() - i,
    {
        assert(sv[i as int] == v@[i as int]@);
        if finds_in(v[i].as_str(), q) {
            return true;
        }
        i = i + 1;
    }
    false
}

/// Whether `node` matches the lowercase query `query` (see `node_matches`),
/// with the node's tags taken from `graph`.
pub fn node_matches_query(node: &Node, query: &str, graph: &DialogueGraph) -> (r: bool)
    ensures
        r == node_matches(node_view(*node), query@, tags_of(graph_tags(*graph), node.id)),
{
    let ghost nv = node_view(*node);
    let ghost tags = tags_of(graph_tags(*graph), node.id);
    let tag_hit = match find_tags(graph, node.id) {
        Some(k) => any_finds(&graph.node_tags[k].1, query),
        None => false,
    };
    if tag_hit {
        return true;
    }
    if finds_in(node.title(), query) {
        return true;
    }
    match &node.node_type {
        NodeType::Dialogue(d) => finds_in(d.text.as_str(), query) || finds_in(d.speaker_name.as_str(), query)
            || finds_in(d.emotion.as_str(), query),
        NodeType::Choice(c) => {
            if finds_in(c.prompt.as_str(), query) {
                return true;
            }
            let ghost ov = c.choices@.map_values(|o: crate::model::ChoiceOption| crate::model::option_view(o));
            assert(nv.kind == KindV::Choice(c.prompt@, ov));
            let mut i: usize = 0;
            while i < c.choices.len()
                invariant
                    i <= c.choices.len(),
                    nv == node_view(*node),
                    nv.kind == KindV::Choice(c.prompt@, ov),
                    ov == c.choices@.map_values(|o: crate::model::ChoiceOption| crate::model::option_view(o)),
                    forall|k: int| 0 <= k < i ==> !finds(#[trigger] ov[k].text, query@),
                decreases c.choices.len() - i,
            {
                assert(ov[i as int].text == c.choices@[i as int].text@);
                if finds_in(c.choices[i].text.as_str(), query) {
                    assert(finds(ov[i as int].text, query@));
                    return true;
                }
                i = i + 1;
            }
            false
        },
        NodeType::Condition(c) => finds_in(c.variable_name.as_str(), query),
        NodeType::Event(e) => {
            let ghost av = e.actions@.map_values(|a: crate::model::EventAction| crate::model::action_view(a));
            assert(nv.kind == KindV::Event(av));
            let mut i: usize = 0;
            while i < e.actions.len()
                invariant
                    i <= e.actions.len(),
                    nv == node_view(*node),
                    nv.kind == KindV::Event(av),
                    av == e.actions@.map_values(|a: crate::model::EventAction| crate::model::action_view(a)),
                    forall|k: int| 0 <= k < i ==> !finds(#[trigger] av[k].key, query@),
                decreases e.actions.len() - i,
            {
                assert(av[i as int].key == e.actions@[i as int].key@);
                if finds_in(e.actions[i].key.as_str(), query) {
                    assert(finds(av[i as int].key, query@));
                    return true;
                }
                i = i + 1;
            }
            false
        },
        NodeType::End(e) => finds_in(e.tag.as_str(), query),
        _ => false,
    }
}

/// The identifiers of the nodes, in order, that match `query` once it is
/// lowercased; none for a query that lowercases to the empty text.
pub open spec fn search_hits(g: DialogueGraph, q: Seq<char>) -> Seq<u128>
    decreases g.nodes@.len(),
{
    hits_upto(g, lowercase_of(q), g.nodes@.len() as int)
}

pub open spec fn hits_upto(g: DialogueGraph, ql: Seq<char>, k: int) -> Seq<u128>
    decreases k,
{
    if k <= 0 || ql.len() == 0 {
        seq![]
    } else {
        let n = node_view(g.nodes@[k - 1]);
        hits_upto(g, ql, k - 1) + if node_matches(n, ql, tags_of(graph_tags(g), n.id)) { seq![n.id] } else { seq![] }
    }
}

/// The search results of the editor's find bar (see `search_hits`).
pub fn search_nodes(graph: &DialogueGraph, query: &str) -> (r: Vec<u128>)
    ensures
        r@ == search_hits(*graph, query@),
{
    let ql = lowercase(query);
    let mut r: Vec<u128> = Vec::new();
    if ql.as_str().unicode_len() == 0 {
        return r;
    }
    let mut i: usize = 0;
    while i < graph.nodes.len()
        invariant
            i <= graph.nodes.len(),
            ql@ == lowercase_of(query@),
            ql@.len() > 0,
            r@ == hits_upto(*graph, ql@, i as int),
        decreases graph.nodes.len() - i,
    {
        let n = &graph.nodes[i];
        if node_matches_query(n, ql.as_str(), graph) {
            r.push(n.id);
        }
        i = i + 1;
    }
    r
}

// ------------------------------------------------------------ replacing

/// The first position from `i` on where the bytes `n` occur in `h`.
pub open spec fn first_from(h: Seq<u8>, n: Seq<u8>, i: int) -> Option<int>
    decreases h.len() - i,
{
    if i < 0 || i + n.len() > h.len() {
        None
    } else if h.subrange(i, i + n.len()) =~= n {
        Some(i)
    } else {
        first_from(h, n, i + 1)
    }
}

/// The bytes of the lowercase form of a text.
pub open spec fn lower_bytes(t: Seq<char>) -> Seq<u8> {
    encode_utf8(lowercase_of(t))
}

/// Replacing every match of a query in the text with bytes `b`: `ql` is the
/// lowercase query's bytes and `qlen` the query's own byte length. The first
/// match is searched in the lowercased text; the text before it is kept, the
/// `qlen` bytes from it on give way to `rep`, and the search goes on after
/// them. `None` when a cut falls inside a character.
pub open spec fn replace_run(b: Seq<u8>, ql: Seq<u8>, qlen: int, rep: Seq<char>) -> Option<Seq<char>>
    decreases b.len(),
{
    match first_from(lower_bytes(decode_utf8(b)), ql, 0) {
        None => Some(decode_utf8(b)),
        Some(pos) => if 0 < qlen && 0 <= pos && pos + qlen <= b.len() && is_char_boundary(b, pos)
            && is_char_boundary(b, pos + qlen) {
            match replace_run(b.subrange(pos + qlen, b.len() as int), ql, qlen, rep) {
                Some(r) => Some(decode_utf8(b.subrange(0, pos)) + rep + r),
                None => None,
            }
        } else {
            None
        },
    }
}

/// Replacing every case-insensitive match of `q` in `t` by `rep` (see `replace_run`).
pub open spec fn replaced(t: Seq<char>, q: Seq<char>, rep: Seq<char>) -> Option<Seq<char>> {
    replace_run(encode_utf8(t), lower_bytes(q), encode_utf8(q).len() as int, rep)
}

/// The lowercase form of `t` contains that of `q` (compared as bytes).
pub open spec fn matches_ci(t: Seq<char>, q: Seq<char>) -> bool {
    first_from(lower_bytes(t), lower_bytes(q), 0) is Some
}

fn find_bytes(h: &[u8], n: &[u8]) -> (r: Option<usize>)
    ensures
        match r {
            Some(i) => first_from(h@, n@, 0) == Some(i as int),
            None => first_from(h@, n@, 0) is None,
        },
{
    let mut i: usize = 0;
    if n.len() > h.len() {
        return None;
    }
    while i <= h.len() - n.len()
        invariant
            n.len() <= h.len(),
            i <= h.len() - n.len() + 1,
            first_from(h@, n@, 0) == first_from(h@, n@, i as int),
        decreases h.len() - n.len() + 1 - i,
    {
        let mut j: usize = 0;
        let mut same = true;
        while j < n.len()
            invariant
                n.len() <= h.len(),
                i + n.len() <= h.len(),
                j <= n.len(),
                same == (forall|t: int| 0 <= t < j ==> h@[i + t] == n@[t]),
            decreases n.len() - j,
        {
            if h[i + j] != n[j] {
                same = false;
            }
            j = j + 1;
        }
        if same {
            assert(h@.subrange(i as int, i + n.len()) =~= n@);
            return Some(i);
        }
        proof {
            let k = choose|t: int| 0 <= t < n.len() && h@[i + t] != n@[t];
            assert(h@.subrange(i as int, i + n.len())[k] != n@[k]);
        }
        i = i + 1;
    }
    None
}

proof fn lemma_encode_nonempty(t: Seq<char>)
    requires
        t.len() > 0,
    ensures
        encode_utf8(t).len() > 0,
{
    vstd::utf8::encode_utf8_first_scalar(t);
}

/// Every case-insensitive match of `query` in `s` replaced by `replacement`,
/// or `None` when a cut of the replacement would fall inside a character.
pub fn replaced_text(s: &str, query: &str, replacement: &str) -> (r: Option<String>)
    requires
        query@.len() > 0,
    ensures
        match r {
            Some(t) => replaced(s@, query@, replacement@) == Some(t@),
            None => replaced(s@, query@, replacement@) is None,
        },
{
    broadcast use vstd::utf8::encode_utf8_decode_utf8, vstd::utf8::encode_utf8_valid_utf8,
        vstd::utf8::decode_utf8_split, vstd::utf8::valid_utf8_split;
    let ql = lowercase(query);
    let qlb = ql.as_str().as_bytes();
    let qlen = query.as_bytes().len();
    proof {
        lemma_encode_nonempty(query@);
        assert(query.spec_bytes() == encode_utf8(query@));
    }
    let ghost qv = lower_bytes(query@);
    let ghost rv = replacement@;
    let ghost total = replaced(s@, query@, replacement@);
    let mut result = String::new();
    let mut rem: &str = s;
    assert(decode_utf8(encode_utf8(s@)) == s@);
    loop
        invariant
            qlb@ == qv,
            qv == lower_bytes(query@),
            qlen as int == encode_utf8(query@).len(),
            qlen > 0,
            rv == replacement@,
            total == replaced(s@, query@, replacement@),
            total == match replace_run(rem.spec_bytes(), qv, qlen as int, rv) {
                Some(x) => Some(result@ + x),
                None => None::<Seq<char>>,
            },
        decreases rem.spec_bytes().len(),
    {
        let ghost b = rem.spec_bytes();
        proof {
            vstd::utf8::encode_utf8_decode_utf8(rem@);
            vstd::utf8::encode_utf8_valid_utf8(rem@);
        }
        assert(decode_utf8(b) == rem@);
        let lr = lowercase(rem);
        match find_bytes(lr.as_str().as_bytes(), qlb) {
            None => {
                push_str(&mut result, rem);
                return Some(result);
            },
            Some(pos) => {
                let len = rem.as_bytes().len();
                if !(pos <= len && qlen <= len - pos) {
                    return None;
                }
                if !(rem.is_char_boundary(pos) && rem.is_char_boundary(pos + qlen)) {
                    return None;
                }
                let (head, _) = rem.split_at(pos);
                let (_, tail) = rem.split_at(pos + qlen);
                proof {
                    vstd::utf8::encode_utf8_decode_utf8(head@);
                }
                assert(decode_utf8(head.spec_bytes()) == head@);
                assert(tail.spec_bytes() == b.subrange(pos + qlen, b.len() as int));
                let ghost before = result@;
                push_str(&mut result, head);
                push_str(&mut result, replacement);
                assert(head@ == decode_utf8(b.subrange(0, pos as int)));
                assert(result@ == before + decode_utf8(b.subrange(0, pos as int)) + rv);
                rem = tail;
                proof {
                    match replace_run(rem.spec_bytes(), qv, qlen as int, rv) {
                        Some(x) => {
                            assert(before + (decode_utf8(b.subrange(0, pos as int)) + rv + x) =~= result@ + x);
                        },
                        None => {},
                    }
                }
            },
        }
    }
}

/// A text after replacing: changed only when the query matches it.
pub open spec fn field_after(t: Seq<char>, q: Seq<char>, rep: Seq<char>) -> Seq<char> {
    if matches_ci(t, q) {
        match replaced(t, q, rep) {
            Some(x) => x,
            None => t,
        }
    } else {
        t
    }
}

/// 1 when the query matches the text, else 0.
pub open spec fn field_count(t: Seq<char>, q: Seq<char>) -> nat {
    if matches_ci(t, q) { 1 } else { 0 }
}

/// Replacing in the text does not cut a character.
pub open spec fn field_ok(t: Seq<char>, q: Seq<char>, rep: Seq<char>) -> bool {
    !matches_ci(t, q) || replaced(t, q, rep) is Some
}

/// Replaces every case-insensitive match of `query` in `s` by
/// `replacement`; 1 when there was a match, else 0 (and `s` unchanged).
pub fn replace_in_string(s: &mut String, query: &str, replacement: &str) -> (r: usize)
    requires
        query@.len() > 0,
        field_ok(old(s)@, query@, replacement@),
    ensures
        r == field_count(old(s)@, query@),
        final(s)@ == field_after(old(s)@, query@, replacement@),
{
    let lower = lowercase(s.as_str());
    let ql = lowercase(query);
    if find_bytes(lower.as_str().as_bytes(), ql.as_str().as_bytes()).is_none() {
        return 0;
    }
    match replaced_text(s.as_str(), query, replacement) {
        Some(t) => {
            *s = t;
            1
        },
        None => 1,
    }
}

pub open spec fn opts_ok(opts: Seq<OptionV>, q: Seq<char>, rep: Seq<char>) -> bool {
    forall|i: int| 0 <= i < opts.len() ==> field_ok(#[trigger] opts[i].text, q, rep)
}

pub open spec fn opts_count(opts: Seq<OptionV>, q: Seq<char>) -> nat
    decreases opts.len(),
{
    if opts.len() == 0 { 0 } else { opts_count(opts.drop_last(), q) + field_count(opts.last().text, q) }
}

pub open spec fn opt_after(o: OptionV, q: Seq<char>, rep: Seq<char>) -> OptionV {
    OptionV { text: field_after(o.text, q, rep), condition: o.condition }
}

pub open spec fn acts_ok(acts: Seq<ActionV>, q: Seq<char>, rep: Seq<char>) -> bool {
    forall|i: int| 0 <= i < acts.len() ==> field_ok(#[trigger] acts[i].key, q, rep)
}

pub open spec fn acts_count(acts: Seq<ActionV>, q: Seq<char>) -> nat
    decreases acts.len(),
{
    if acts.len() == 0 { 0 } else { acts_count(acts.drop_last(), q) + field_count(acts.last().key, q) }
}

pub open spec fn act_after(a: ActionV, q: Seq<char>, rep: Seq<char>) -> ActionV {
    ActionV { action_type: a.action_type, key: field_after(a.key, q, rep), value: a.value }
}

/// Replacing in a node's texts cuts no character.
pub open spec fn kind_ok(k: KindV, q: Seq<char>, rep: Seq<char>) -> bool {
    match k {
        KindV::Dialogue(d) => field_ok(d.text, q, rep) && field_ok(d.speaker_name, q, rep) && field_ok(d.emotion, q, rep),
        KindV::Choice(p, opts) => field_ok(p, q, rep) && opts_ok(opts, q, rep),
        KindV::Condition(c) => field_ok(c.variable_name, q, rep),
        KindV::Event(acts) => acts_ok(acts, q, rep),
        KindV::End(tag) => field_ok(tag, q, rep),
        _ => true,
    }
}

/// How many of a node's texts the query matches.
pub open spec fn kind_count(k: KindV, q: Seq<char>) -> nat {
    match k {
        KindV::Dialogue(d) => field_count(d.text, q) + field_count(d.speaker_name, q) + field_count(d.emotion, q),
        KindV::Choice(p, opts) => field_count(p, q) + opts_count(opts, q),
        KindV::Condition(c) => field_count(c.variable_name, q),
        KindV::Event(acts) => acts_count(acts, q),
        KindV::End(tag) => field_count(tag, q),
        _ => 0,
    }
}

/// A node's data with the query replaced in the line, speaker name and
/// emotion of a dialogue line, the prompt and options of a choice, the
/// variable of a condition, the action keys of an event and the tag of an end.
pub open spec fn kind_after(k: KindV, q: Seq<char>, rep: Seq<char>) -> KindV {
    match k {
        KindV::Dialogue(d) => KindV::Dialogue(crate::model::DialogueV {
            text: field_after(d.text, q, rep),
            speaker_name: field_after(d.speaker_name, q, rep),
            emotion: field_after(d.emotion, q, rep),
            ..d
        }),
        KindV::Choice(p, opts) => KindV::Choice(
            field_after(p, q, rep),
            opts.map_values(|o: OptionV| opt_after(o, q, rep)),
        ),
        KindV::Condition(c) => KindV::Condition(crate::model::CondV { variable_name: field_after(c.variable_name, q, rep), ..c }),
        KindV::Event(acts) => KindV::Event(acts.map_values(|a: ActionV| act_after(a, q, rep))),
        KindV::End(tag) => KindV::End(field_after(tag, q, rep)),
        _ => k,
    }
}

/// Output ports labelled with the option texts, as far as both go.
pub open spec fn synced(outs: Seq<PortV>, opts: Seq<OptionV>) -> Seq<PortV> {
    Seq::new(outs.len(), |i: int| if i < opts.len() { PortV { id: outs[i].id, label: opts[i].text } } else { outs[i] })
}

/// A node after replacing: its data as `kind_after` says, and for a choice
/// its output labels made equal to the option texts again.
pub open spec fn node_after(n: NodeV, q: Seq<char>, rep: Seq<char>) -> NodeV {
    let k = kind_after(n.kind, q, rep);
    NodeV {
        kind: k,
        outputs: match k {
            KindV::Choice(_, opts) => synced(n.outputs, opts),
            _ => n.outputs,
        },
        ..n
    }
}

fn replace_in_options(opts: &mut Vec<crate::model::ChoiceOption>, query: &str, replacement: &str) -> (r: usize)
    requires
        query@.len() > 0,
        opts_ok(old(opts)@.map_values(|o: crate::model::ChoiceOption| option_view(o)), query@, replacement@),
    ensures
        r == opts_count(old(opts)@.map_values(|o: crate::model::ChoiceOption| option_view(o)), query@),
        r <= old(opts).len(),
        final(opts)@.map_values(|o: crate::model::ChoiceOption| option_view(o))
            == old(opts)@.map_values(|o: crate::model::ChoiceOption| option_view(o)).map_values(
            |o: OptionV| opt_after(o, query@, replacement@),
        ),
{
    let ghost ov = opts@.map_values(|o: crate::model::ChoiceOption| option_view(o));
    let mut count: usize = 0;
    let mut i: usize = 0;
    assert(ov.take(0) =~= Seq::<OptionV>::empty());
    while i < opts.len()
        invariant
            query@.len() > 0,
            opts.len() == ov.len(),
            i <= opts.len(),
            opts_ok(ov, query@, replacement@),
            count == opts_count(ov.take(i as int), query@),
            count <= i,
            forall|k: int| 0 <= k < i ==> #[trigger] option_view(opts@[k]) == opt_after(ov[k], query@, replacement@),
            forall|k: int| i <= k < opts.len() ==> #[trigger] option_view(opts@[k]) == ov[k],
        decreases opts.len() - i,
    {
        let mut o = opts.remove(i);
        assert(option_view(o) == ov[i as int]);
        assert(field_ok(ov[i as int].text, query@, replacement@));
        let c = replace_in_string(&mut o.text, query, replacement);
        opts.insert(i, o);
        assert(ov.take(i + 1).drop_last() =~= ov.take(i as int));
        count = count + c;
        i = i + 1;
    }
    assert(ov.take(opts.len() as int) =~= ov);
    assert(opts@.map_values(|o: crate::model::ChoiceOption| option_view(o))
        =~= ov.map_values(|o: OptionV| opt_after(o, query@, replacement@)));
    count
}

fn replace_in_actions(acts: &mut Vec<crate::model::EventAction>, query: &str, replacement: &str) -> (r: usize)
    requires
        query@.len() > 0,
        acts_ok(old(acts)@.map_values(|a: crate::model::EventAction| action_view(a)), query@, replacement@),
    ensures
        r == acts_count(old(acts)@.map_values(|a: crate::model::EventAction| action_view(a)), query@),
        final(acts)@.map_values(|a: crate::model::EventAction| action_view(a))
            == old(acts)@.map_values(|a: crate::model::EventAction| action_view(a)).map_values(
            |a: ActionV| act_after(a, query@, replacement@),
        ),
{
    let ghost av = acts@.map_values(|a: crate::model::EventAction| action_view(a));
    let mut count: usize = 0;
    let mut i: usize = 0;
    assert(av.take(0) =~= Seq::<ActionV>::empty());
    while i < acts.len()
        invariant
            query@.len() > 0,
            acts.len() == av.len(),
            i <= acts.len(),
            acts_ok(av, query@, replacement@),
            count == acts_count(av.take(i as int), query@),
            count <= i,
            forall|k: int| 0 <= k < i ==> #[trigger] action_view(acts@[k]) == act_after(av[k], query@, replacement@),
            forall|k: int| i <= k < acts.len() ==> #[trigger] action_view(acts@[k]) == av[k],
        decreases acts.len() - i,
    {
        let mut a = acts.remove(i);
        assert(action_view(a) == av[i as int]);
        assert(field_ok(av[i as int].key, query@, replacement@));
        let c = replace_in_string(&mut a.key, query, replacement);
        acts.insert(i, a);
        assert(av.take(i + 1).drop_last() =~= av.take(i as int));
        count = count + c;
        i = i + 1;
    }
    assert(av.take(acts.len() as int) =~= av);
    assert(acts@.map_values(|a: crate::model::EventAction| action_view(a))
        =~= av.map_values(|a: ActionV| act_after(a, query@, replacement@)));
    count
}

fn sync_labels(outputs: &mut Vec<crate::model::Port>, opts: &Vec<crate::model::ChoiceOption>)
    ensures
        ports_view(final(outputs)@) == synced(
            ports_view(old(outputs)@),
            opts@.map_values(|o: crate::model::ChoiceOption| option_view(o)),
        ),
{
    let ghost pv = ports_view(outputs@);
    let ghost ov = opts@.map_values(|o: crate::model::ChoiceOption| option_view(o));
    let ghost target = synced(pv, ov);
    let mut i: usize = 0;
    while i < opts.len()
        invariant
            outputs.len() == pv.len(),
            pv.len() == target.len(),
            ov == opts@.map_values(|o: crate::model::ChoiceOption| option_view(o)),
            target == synced(pv, ov),
            forall|k: int| 0 <= k < outputs.len() && k < i ==> #[trigger] port_view(outputs@[k]) == target[k],
            forall|k: int| 0 <= k < outputs.len() && k >= i ==> #[trigger] port_view(outputs@[k]) == pv[k],
        decreases opts.len() - i,
    {
        if i < outputs.len() {
            assert(ov[i as int] == option_view(opts@[i as int]));
            let ghost before = outputs@;
            assert(port_view(before[i as int]) == pv[i as int]);
            assert(target[i as int] == PortV { id: pv[i as int].id, label: ov[i as int].text });
            let mut p = outputs.remove(i);
            let label = opts[i].text.clone();
            assert(label@ == ov[i as int].text);
            p.label = label;
            outputs.insert(i, p);
            assert(port_view(outputs@[i as int]) == target[i as int]);
        }
        i = i + 1;
    }
    assert forall|k: int| 0 <= k < outputs.len() implies #[trigger] port_view(outputs@[k]) == target[k] by {
        if k >= i {
            assert(k >= ov.len());
        }
    }
    assert(ports_view(outputs@) =~= target);
}

/// Replaces every case-insensitive match of `query` in the texts of a node
/// (see `kind_after`) and relabels the outputs of a choice with its option
/// texts; returns how many texts changed.
pub fn replace_in_node(node: &mut Node, query: &str, replacement: &str) -> (r: usize)
    requires
        query@.len() > 0,
        kind_ok(kind_view(old(node).node_type), query@, replacement@),
        old(node).node_type matches NodeType::Choice(c) ==> c.choices.len() < usize::MAX,
    ensures
        r == kind_count(kind_view(old(node).node_type), query@),
        node_view(*final(node)) == node_after(node_view(*old(node)), query@, replacement@),
{
    let ghost q = query@;
    let ghost rep = replacement@;
    let mut kind = NodeType::Start;
    std::mem::swap(&mut kind, &mut node.node_type);
    let count: usize = match kind {
        NodeType::Dialogue(mut d) => {
            let a = replace_in_string(&mut d.text, query, replacement);
            let b = replace_in_string(&mut d.speaker_name, query, replacement);
            let c = replace_in_string(&mut d.emotion, query, replacement);
            node.node_type = NodeType::Dialogue(d);
            a + b + c
        },
        NodeType::Choice(mut c) => {
            let a = replace_in_string(&mut c.prompt, query, replacement);
            let b = replace_in_options(&mut c.choices, query, replacement);
            sync_labels(&mut node.outputs, &c.choices);
            node.node_type = NodeType::Choice(c);
            a + b
        },
        NodeType::Condition(mut c) => {
            let a = replace_in_string(&mut c.variable_name, query, replacement);
            node.node_type = NodeType::Condition(c);
            a
        },
        NodeType::Event(mut e) => {
            let a = replace_in_actions(&mut e.actions, query, replacement);
            node.node_type = NodeType::Event(e);
            a
        },
        NodeType::End(mut e) => {
            let a = replace_in_string(&mut e.tag, query, replacement);
            node.node_type = NodeType::End(e);
            a
        },
        other => {
            node.node_type = other;
            0
        },
    };
    assert(node_view(*node) =~= node_after(node_view(*old(node)), q, rep));
    count
}

fn field_ok_exec(t: &String, query: &str, replacement: &str) -> (r: bool)
    requires
        query@.len() > 0,
    ensures
        r == field_ok(t@, query@, replacement@),
{
    let lower = lowercase(t.as_str());
    let ql = lowercase(query);
    if find_bytes(lower.as_str().as_bytes(), ql.as_str().as_bytes()).is_none() {
        return true;
    }
    replaced_text(t.as_str(), query, replacement).is_some()
}

pub(crate) fn kind_ok_exec(k: &NodeType, query: &str, replacement: &str) -> (r: bool)
    requires
        query@.len() > 0,
    ensures
        r == kind_ok(kind_view(*k), query@, replacement@),
{
    match k {
        NodeType::Dialogue(d) => field_ok_exec(&d.text, query, replacement) && field_ok_exec(&d.speaker_name, query, replacement)
            && field_ok_exec(&d.emotion, query, replacement),
        NodeType::Choice(c) => {
            if !field_ok_exec(&c.prompt, query, replacement) {
                return false;
            }
            let ghost ov = c.choices@.map_values(|o: crate::model::ChoiceOption| option_view(o));
            assert(kind_view(*k) == KindV::Choice(c.prompt@, ov));
            let mut i: usize = 0;
            while i < c.choices.len()
                invariant
                    query@.len() > 0,
                    kind_view(*k) == KindV::Choice(c.prompt@, ov),
                    i <= c.choices.len(),
                    ov == c.choices@.map_values(|o: crate::model::ChoiceOption| option_view(o)),
                    forall|j: int| 0 <= j < i ==> field_ok(#[trigger] ov[j].text, query@, replacement@),
                decreases c.choices.len() - i,
            {
                assert(ov[i as int].text == c.choices@[i as int].text@);
                if !field_ok_exec(&c.choices[i].text, query, replacement) {
                    assert(!field_ok(ov[i as int].text, query@, replacement@));
                    return false;
                }
                i = i + 1;
            }
            true
        },
        NodeType::Condition(c) => field_ok_exec(&c.variable_name, query, replacement),
        NodeType::Event(e) => {
            let ghost av = e.actions@.map_values(|a: crate::model::EventAction| action_view(a));
            assert(kind_view(*k) == KindV::Event(av));
            let mut i: usize = 0;
            while i < e.actions.len()
                invariant
                    query@.len() > 0,
                    kind_view(*k) == KindV::Event(av),
                    i <= e.actions.len(),
                    av == e.actions@.map_values(|a: crate::model::EventAction| action_view(a)),
                    forall|j: int| 0 <= j < i ==> field_ok(#[trigger] av[j].key, query@, replacement@),
                decreases e.actions.len() - i,
            {
                assert(av[i as int].key == e.actions@[i as int].key@);
                if !field_ok_exec(&e.actions[i].key, query, replacement) {
                    assert(!field_ok(av[i as int].key, query@, replacement@));
                    return false;
                }
                i = i + 1;
            }
            true
        },
        NodeType::End(e) => field_ok_exec(&e.tag, query, replacement),
        _ => true,
    }
}

/// Replaces `query` in the texts of a node when that can be done: `None`,
/// with the node unchanged, for an empty query, for a replacement that would
/// cut a character of a text, or for a choice with `usize::MAX` options;
/// otherwise what `replace_in_node` does and returns.
pub fn try_replace_in_node(node: &mut Node, query: &str, replacement: &str) -> (r: Option<usize>)
    ensures
        ({
            let possible = query@.len() > 0 && kind_ok(kind_view(old(node).node_type), query@, replacement@)
                && (old(node).node_type matches NodeType::Choice(c) ==> c.choices.len() < usize::MAX);
            &&& possible ==> r == Some(kind_count(kind_view(old(node).node_type), query@) as usize)
                && node_view(*final(node)) == node_after(node_view(*old(node)), query@, replacement@)
            &&& !possible ==> r is None && *final(node) == *old(node)
        }),
{
    if query.unicode_len() == 0 {
        return None;
    }
    if !kind_ok_exec(&node.node_type, query, replacement) {
        return None;
    }
    let too_many = match &node.node_type {
        NodeType::Choice(c) => c.choices.len() == usize::MAX,
        _ => false,
    };
    if too_many {
        return None;
    }
    Some(replace_in_node(node, query, replacement))
}

} // verus!
