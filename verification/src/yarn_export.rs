//! The Yarn script export: the dialogue as it is played from the Start node,
//! lines indented under the choices and conditions that lead to them; every
//! node is written once, where it is first reached.

use vstd::prelude::*;
use crate::csv::push_str;
use crate::flatten::{first_wire_from, flat_view, flat_wires, flatten_subgraphs, node_with, node_ref};
use crate::model::{
    ActionV, CharacterV, CondV, DialogueData, DialogueGraph, DialogueV, GraphV, KindV, Node, NodeType, NodeV, OptionV,
    ValueV, VariableValue, Wire, character_view, dialogue_view, graph_view, lemma_nodes_view, node_view, nodes_view,
    value_view, wires_of,
};
use crate::readable::op_text;
use crate::text::{begins_with, lemma_affixes_concat, lemma_affixes_of};
use crate::text::{decimal, int_decimal, push_decimal, push_int};
use crate::voice_export::{character_with, characters_view};

verus! {

/// What the writer reads: the nodes, the wires and the characters.
pub struct YarnCtx {
    pub nodes: Seq<NodeV>,
    pub wires: Seq<Wire>,
    pub chars: Seq<CharacterV>,
}

/// Four spaces per level of indentation.
pub open spec fn indent_text(k: nat) -> Seq<char>
    decreases k,
{
    if k == 0 { seq![] } else { indent_text((k - 1) as nat) + "    "@ }
}

/// A value as written in a Yarn command: text in double quotes.
pub open spec fn yarn_value(v: ValueV) -> Seq<char> {
    match v {
        ValueV::Bool(b) => if b { "true"@ } else { "false"@ },
        ValueV::Int(i) => int_decimal(i as int),
        ValueV::Float(f) => f,
        ValueV::Text(t) => "\""@ + t + "\""@,
    }
}

/// The node that output `i` of node `id` leads to: the target of the first
/// wire leaving that port.
pub open spec fn follow(c: YarnCtx, id: u128, i: int) -> Option<u128> {
    match node_with(c.nodes, id) {
        None => None,
        Some(n) => if 0 <= i < n.outputs.len() {
            match first_wire_from(c.wires, n.outputs[i].id) {
                Some(w) => Some(w.0),
                None => None,
            }
        } else {
            None
        },
    }
}

/// The speaker of a line: the name of the character it names, or its free-text name.
pub open spec fn yarn_speaker(chars: Seq<CharacterV>, d: DialogueV) -> Seq<char> {
    crate::voice_export::speaker_of(chars, d)
}

/// The lines of a dialogue node: `speaker: text` (or the text alone), then
/// its emotion unless neutral or empty, then its audio file when set.
pub open spec fn dialogue_lines(chars: Seq<CharacterV>, d: DialogueV, prefix: Seq<char>) -> Seq<char> {
    let speaker = yarn_speaker(chars, d);
    (if speaker.len() == 0 { prefix + d.text + "\n"@ } else { prefix + speaker + ": "@ + d.text + "\n"@ })
        + (if d.emotion != "neutral"@ && d.emotion.len() > 0 { prefix + "# emotion: "@ + d.emotion + "\n"@ } else { seq![] })
        + match d.audio_clip {
            Some(a) => if a.len() > 0 { prefix + "# audio: "@ + a + "\n"@ } else { seq![] },
            None => seq![],
        }
}

/// The first line written for a dialogue node: `speaker: text`, or the text
/// alone when there is no speaker.
pub open spec fn spoken_line(chars: Seq<CharacterV>, d: DialogueV, prefix: Seq<char>) -> Seq<char> {
    let speaker = yarn_speaker(chars, d);
    if speaker.len() == 0 { prefix + d.text + "\n"@ } else { prefix + speaker + ": "@ + d.text + "\n"@ }
}

/// The tag line of an emotion.
pub open spec fn emotion_tag(e: Seq<char>, prefix: Seq<char>) -> Seq<char> {
    prefix + "# emotion: "@ + e + "\n"@
}

/// A dialogue line whose emotion is set and not `neutral` is followed, right
/// after its spoken line, by the tag line `# emotion: <emotion>` at the same
/// indentation; with a neutral or empty emotion no tag follows, only the
/// audio line when there is one.
pub proof fn law_dialogue_emotion_tag(chars: Seq<CharacterV>, d: DialogueV, prefix: Seq<char>)
    ensures
        d.emotion != "neutral"@ && d.emotion.len() > 0 ==> begins_with(
            dialogue_lines(chars, d, prefix),
            spoken_line(chars, d, prefix) + emotion_tag(d.emotion, prefix),
        ),
        !(d.emotion != "neutral"@ && d.emotion.len() > 0) ==> {
            let rest = dialogue_lines(chars, d, prefix).subrange(
                spoken_line(chars, d, prefix).len() as int,
                dialogue_lines(chars, d, prefix).len() as int,
            );
            &&& begins_with(dialogue_lines(chars, d, prefix), spoken_line(chars, d, prefix))
            &&& rest.len() == 0 || begins_with(rest, prefix + "# audio: "@)
        },
{
    let first = spoken_line(chars, d, prefix);
    let audio = match d.audio_clip {
        Some(a) => if a.len() > 0 { prefix + "# audio: "@ + a + "\n"@ } else { seq![] },
        None => seq![],
    };
    if d.emotion != "neutral"@ && d.emotion.len() > 0 {
        assert(dialogue_lines(chars, d, prefix) =~= (first + emotion_tag(d.emotion, prefix)) + audio);
        lemma_affixes_of(first + emotion_tag(d.emotion, prefix), audio);
    } else {
        assert(dialogue_lines(chars, d, prefix) =~= first + audio);
        lemma_affixes_of(first, audio);
        lemma_affixes_concat(first, audio, seq![], seq![]);
        match d.audio_clip {
            Some(a) => {
                if a.len() > 0 {
                    lemma_affixes_of(prefix + "# audio: "@, a + "\n"@);
                    assert(audio =~= (prefix + "# audio: "@) + (a + "\n"@));
                }
            },
            None => {},
        }
    }
}

pub open spec fn action_lines(acts: Seq<ActionV>, prefix: Seq<char>) -> Seq<char>
    decreases acts.len(),
{
    if acts.len() == 0 {
        seq![]
    } else {
        action_lines(acts.drop_last(), prefix) + prefix + "<<set $"@ + acts.last().key + " to "@
            + yarn_value(acts.last().value) + ">>\n"@
    }
}

/// Follows output `i` of node `id` and writes what it reaches.
pub open spec fn emit_next(c: YarnCtx, id: u128, i: int, visited: Seq<u128>, indent: nat, fuel: nat) -> (Seq<char>, Seq<u128>)
    decreases fuel, 1nat, 0int,
{
    match follow(c, id, i) {
        Some(nx) => emit(c, nx, visited, indent, fuel),
        None => (seq![], visited),
    }
}

/// Writes the node `id` and what follows it, unless it has been written
/// already; `fuel` bounds the depth of the walk.
pub open spec fn emit(c: YarnCtx, id: u128, visited: Seq<u128>, indent: nat, fuel: nat) -> (Seq<char>, Seq<u128>)
    decreases fuel, 0nat, 0int,
{
    if fuel == 0 || visited.contains(id) {
        (seq![], visited)
    } else {
        match node_with(c.nodes, id) {
            None => (seq![], visited.push(id)),
            Some(n) => emit_found(c, id, n, visited.push(id), indent, (fuel - 1) as nat),
        }
    }
}

/// Writes node `n` (whose identifier is `id`, now marked as written) and what
/// follows it.
pub open spec fn emit_found(c: YarnCtx, id: u128, n: NodeV, v1: Seq<u128>, indent: nat, f: nat) -> (Seq<char>, Seq<u128>)
    decreases f, 3nat, 0int,
{
    let prefix = indent_text(indent);
    match n.kind {
        KindV::Start => emit_next(c, id, 0, v1, indent, f),
        KindV::Dialogue(d) => {
            let r = emit_next(c, id, 0, v1, indent, f);
            (dialogue_lines(c.chars, d, prefix) + r.0, r.1)
        },
        KindV::Choice(prompt, opts) => {
            let r = emit_options(c, id, opts, opts.len() as int, v1, indent, f);
            ((if prompt.len() > 0 { prefix + prompt + "\n"@ } else { seq![] }) + r.0, r.1)
        },
        KindV::Condition(cd) => emit_cond(c, id, cd, v1, indent, f),
        KindV::Event(acts) => {
            let r = emit_next(c, id, 0, v1, indent, f);
            (action_lines(acts, prefix) + r.0, r.1)
        },
        KindV::Random(ws) => (prefix + "# [RANDOM: "@ + decimal(ws.len()) + " branches]\n"@, v1),
        KindV::End(_) => (seq![], v1),
        KindV::SubGraph(name, _) => {
            let r = emit_next(c, id, 0, v1, indent, f);
            (prefix + "# [SUBGRAPH: "@ + (if name.len() == 0 { "unnamed"@ } else { name }) + "]\n"@ + r.0, r.1)
        },
    }
}

/// The opening line of a condition.
pub open spec fn cond_head(cd: CondV, prefix: Seq<char>) -> Seq<char> {
    prefix + "<<if $"@ + cd.variable_name + " "@ + op_text(cd.operator) + " "@ + yarn_value(cd.value) + ">>\n"@
}

/// Writes a condition: the `<<if>>` line, what its first output leads to one
/// level deeper, `<<else>>` and what its second output leads to when it is
/// wired, and `<<endif>>`.
pub open spec fn emit_cond(c: YarnCtx, id: u128, cd: CondV, v1: Seq<u128>, indent: nat, f: nat) -> (Seq<char>, Seq<u128>)
    decreases f, 2nat, 0int,
{
    let prefix = indent_text(indent);
    let t = emit_next(c, id, 0, v1, indent + 1, f);
    match follow(c, id, 1) {
        Some(nx) => {
            let e = emit(c, nx, t.1, indent + 1, f);
            (cond_head(cd, prefix) + t.0 + prefix + "<<else>>\n"@ + e.0 + prefix + "<<endif>>\n"@, e.1)
        },
        None => (cond_head(cd, prefix) + t.0 + prefix + "<<endif>>\n"@, t.1),
    }
}

/// Writes options `0..k` of choice node `id`: each as `-> text`, followed by
/// what it leads to, one level deeper.
pub open spec fn emit_options(c: YarnCtx, id: u128, opts: Seq<OptionV>, k: int, visited: Seq<u128>, indent: nat, fuel: nat) -> (Seq<char>, Seq<u128>)
    decreases fuel, 2nat, k,
{
    if k <= 0 {
        (seq![], visited)
    } else {
        let r = emit_options(c, id, opts, k - 1, visited, indent, fuel);
        let line = indent_text(indent) + "-> "@ + opts[k - 1].text + "\n"@;
        let e = emit_next(c, id, k - 1, r.1, indent + 1, fuel);
        (r.0 + line + e.0, e.1)
    }
}

/// The first Start node.
pub open spec fn yarn_start(ns: Seq<NodeV>) -> Option<u128> {
    crate::flatten::first_start(ns)
}

/// The Yarn script of flattened nodes and wires: a `root` section holding the
/// walk from what the Start node leads to.
pub open spec fn yarn_text(g: GraphV, ws: Seq<Wire>) -> Seq<char> {
    yarn_walk(g, ws, g.nodes.len())
}

/// The script with the walk's depth bounded by `fuel`; `law_yarn_walk_is_never_cut`
/// shows that a bound of the number of nodes already writes everything.
pub open spec fn yarn_walk(g: GraphV, ws: Seq<Wire>, fuel: nat) -> Seq<char> {
    let c = YarnCtx { nodes: g.nodes, wires: ws, chars: g.characters };
    "title: root\n---\n"@ + match yarn_start(g.nodes) {
        Some(s) => emit_next(c, s, 0, seq![], 0, fuel).0,
        None => seq![],
    } + "===\n"@
}

// ------------------------------------------------------------ depth bound

/// How many nodes have an identifier that `v` does not hold.
pub open spec fn unseen(ns: Seq<NodeV>, v: Seq<u128>) -> nat
    decreases ns.len(),
{
    if ns.len() == 0 {
        0
    } else {
        unseen(ns.drop_last(), v) + if v.contains(ns.last().id) { 0nat } else { 1nat }
    }
}

/// `v1` and `v2` hold the same node identifiers.
pub open spec fn same_on(ns: Seq<NodeV>, v1: Seq<u128>, v2: Seq<u128>) -> bool {
    forall|i: int| 0 <= i < ns.len() ==> (v1.contains(#[trigger] ns[i].id) <==> v2.contains(ns[i].id))
}

/// `r` holds every node identifier that `v` holds.
pub open spec fn grows(ns: Seq<NodeV>, v: Seq<u128>, r: Seq<u128>) -> bool {
    forall|i: int| 0 <= i < ns.len() ==> v.contains(#[trigger] ns[i].id) ==> r.contains(ns[i].id)
}

proof fn lemma_unseen_le_len(ns: Seq<NodeV>, v: Seq<u128>)
    ensures
        unseen(ns, v) <= ns.len(),
    decreases ns.len(),
{
    if ns.len() > 0 {
        lemma_unseen_le_len(ns.drop_last(), v);
    }
}

proof fn lemma_unseen_zero(ns: Seq<NodeV>, v: Seq<u128>)
    requires
        unseen(ns, v) == 0,
    ensures
        forall|i: int| 0 <= i < ns.len() ==> v.contains(#[trigger] ns[i].id),
    decreases ns.len(),
{
    if ns.len() > 0 {
        lemma_unseen_zero(ns.drop_last(), v);
        assert forall|i: int| 0 <= i < ns.len() implies v.contains(#[trigger] ns[i].id) by {
            if i < ns.len() - 1 {
                assert(ns[i] == ns.drop_last()[i]);
            }
        }
    }
}

proof fn lemma_unseen_mono(ns: Seq<NodeV>, v: Seq<u128>, w: Seq<u128>)
    requires
        grows(ns, v, w),
    ensures
        unseen(ns, w) <= unseen(ns, v),
    decreases ns.len(),
{
    if ns.len() > 0 {
        let d = ns.drop_last();
        assert forall|i: int| 0 <= i < d.len() implies v.contains(#[trigger] d[i].id) ==> w.contains(d[i].id) by {
            assert(d[i] == ns[i]);
        }
        lemma_unseen_mono(d, v, w);
        assert(ns.last() == ns[ns.len() - 1]);
    }
}

proof fn lemma_unseen_push(ns: Seq<NodeV>, v: Seq<u128>, x: u128, k: int)
    requires
        0 <= k < ns.len(),
        ns[k].id == x,
        !v.contains(x),
    ensures
        unseen(ns, v.push(x)) < unseen(ns, v),
    decreases ns.len(),
{
    let d = ns.drop_last();
    assert forall|i: int| 0 <= i < d.len() implies v.contains(#[trigger] d[i].id) ==> v.push(x).contains(d[i].id) by {
        if v.contains(d[i].id) {
            let j = choose|j: int| 0 <= j < v.len() && v[j] == d[i].id;
            assert(v.push(x)[j] == d[i].id);
        }
    }
    assert(v.push(x)[v.len() as int] == x);
    assert(v.push(x).contains(x));
    lemma_grows_push(ns, v, x);
    assert(ns.last() == ns[ns.len() - 1]);
    if k == ns.len() - 1 {
        lemma_unseen_mono(d, v, v.push(x));
    } else {
        assert(d[k] == ns[k]);
        lemma_unseen_push(d, v, x, k);
        if v.push(x).contains(ns.last().id) && !v.contains(ns.last().id) {
            let j = choose|j: int| 0 <= j < v.push(x).len() && v.push(x)[j] == ns.last().id;
            if j < v.len() {
                assert(v[j] == ns.last().id);
            }
        }
    }
}

proof fn lemma_node_with(ns: Seq<NodeV>, id: u128)
    ensures
        node_with(ns, id) matches Some(n) ==> n.id == id && exists|i: int| 0 <= i < ns.len() && ns[i] == n,
        node_with(ns, id) is None ==> forall|i: int| 0 <= i < ns.len() ==> #[trigger] ns[i].id != id,
    decreases ns.len(),
{
    if ns.len() > 0 {
        lemma_node_with(ns.drop_first(), id);
        if node_with(ns, id) is Some && ns[0].id != id {
            let n = node_with(ns, id).unwrap();
            let i = choose|i: int| 0 <= i < ns.drop_first().len() && ns.drop_first()[i] == n;
            assert(ns[i + 1] == n);
        }
        if node_with(ns, id) is None {
            assert forall|i: int| 0 <= i < ns.len() implies #[trigger] ns[i].id != id by {
                if i > 0 {
                    assert(ns[i] == ns.drop_first()[i - 1]);
                }
            }
        }
    }
}

proof fn lemma_grows_push(ns: Seq<NodeV>, v: Seq<u128>, x: u128)
    ensures
        grows(ns, v, v.push(x)),
{
    assert forall|i: int| 0 <= i < ns.len() implies v.contains(#[trigger] ns[i].id) ==> v.push(x).contains(ns[i].id) by {
        if v.contains(ns[i].id) {
            let j = choose|j: int| 0 <= j < v.len() && v[j] == ns[i].id;
            assert(v.push(x)[j] == ns[i].id);
        }
    }
}

proof fn lemma_same_push(ns: Seq<NodeV>, v1: Seq<u128>, v2: Seq<u128>, x: u128)
    requires
        same_on(ns, v1, v2),
    ensures
        same_on(ns, v1.push(x), v2.push(x)),
{
    assert forall|i: int| 0 <= i < ns.len() implies (v1.push(x).contains(#[trigger] ns[i].id) <==> v2.push(x).contains(ns[i].id)) by {
        let y = ns[i].id;
        if v1.push(x).contains(y) {
            let j = choose|j: int| 0 <= j < v1.push(x).len() && v1.push(x)[j] == y;
            if j < v1.len() {
                assert(v1[j] == y);
                let j2 = choose|j2: int| 0 <= j2 < v2.len() && v2[j2] == y;
                assert(v2.push(x)[j2] == y);
            } else {
                assert(v2.push(x)[v2.len() as int] == y);
            }
        }
        if v2.push(x).contains(y) {
            let j = choose|j: int| 0 <= j < v2.push(x).len() && v2.push(x)[j] == y;
            if j < v2.len() {
                assert(v2[j] == y);
                let j2 = choose|j2: int| 0 <= j2 < v1.len() && v1[j2] == y;
                assert(v1.push(x)[j2] == y);
            } else {
                assert(v1.push(x)[v1.len() as int] == y);
            }
        }
    }
}

/// Pushing an identifier that no node has changes no node's membership.
proof fn lemma_same_push_stranger(ns: Seq<NodeV>, v1: Seq<u128>, v2: Seq<u128>, x: u128)
    requires
        same_on(ns, v1, v2),
        forall|i: int| 0 <= i < ns.len() ==> #[trigger] ns[i].id != x,
    ensures
        same_on(ns, v1, v2.push(x)),
        same_on(ns, v1.push(x), v2),
{
    assert forall|i: int| 0 <= i < ns.len() implies (v2.push(x).contains(#[trigger] ns[i].id) <==> v2.contains(ns[i].id)) by {
        let y = ns[i].id;
        if v2.push(x).contains(y) {
            let j = choose|j: int| 0 <= j < v2.push(x).len() && v2.push(x)[j] == y;
            if j < v2.len() {
                assert(v2[j] == y);
            }
        }
        lemma_grows_push(ns, v2, x);
    }
    assert forall|i: int| 0 <= i < ns.len() implies (v1.push(x).contains(#[trigger] ns[i].id) <==> v1.contains(ns[i].id)) by {
        let y = ns[i].id;
        if v1.push(x).contains(y) {
            let j = choose|j: int| 0 <= j < v1.push(x).len() && v1.push(x)[j] == y;
            if j < v1.len() {
                assert(v1[j] == y);
            }
        }
        lemma_grows_push(ns, v1, x);
    }
}

proof fn lemma_emit(c: YarnCtx, id: u128, v1: Seq<u128>, v2: Seq<u128>, indent: nat, f1: nat, f2: nat)
    requires
        f1 <= f2,
        unseen(c.nodes, v1) <= f1,
        same_on(c.nodes, v1, v2),
    ensures
        emit(c, id, v1, indent, f1).0 == emit(c, id, v2, indent, f2).0,
        same_on(c.nodes, emit(c, id, v1, indent, f1).1, emit(c, id, v2, indent, f2).1),
        grows(c.nodes, v1, emit(c, id, v1, indent, f1).1),
    decreases f1, 0nat, 0int,
{
    let ns = c.nodes;
    lemma_node_with(ns, id);
    lemma_grows_push(ns, v1, id);
    match node_with(ns, id) {
        None => {
            lemma_same_push_stranger(ns, v1, v2, id);
            lemma_same_push(ns, v1, v2, id);
        },
        Some(n) => {
            let k = choose|i: int| 0 <= i < ns.len() && ns[i] == n;
            assert(ns[k].id == id);
            if f1 == 0 {
                lemma_unseen_zero(ns, v1);
                assert(v1.contains(ns[k].id));
            }
            if f1 > 0 && !v1.contains(id) {
                assert(!v2.contains(ns[k].id));
                lemma_unseen_push(ns, v1, id, k);
                lemma_same_push(ns, v1, v2, id);
                lemma_emit_found(c, id, n, v1.push(id), v2.push(id), indent, (f1 - 1) as nat, (f2 - 1) as nat);
                let r1 = emit_found(c, id, n, v1.push(id), indent, (f1 - 1) as nat).1;
                assert forall|i: int| 0 <= i < ns.len() implies v1.contains(#[trigger] ns[i].id) ==> r1.contains(ns[i].id) by {
                    if v1.contains(ns[i].id) {
                        assert(v1.push(id).contains(ns[i].id));
                    }
                }
            }
            if v1.contains(id) {
                assert(v2.contains(ns[k].id));
            }
        },
    }
}

proof fn lemma_emit_next(c: YarnCtx, id: u128, i: int, v1: Seq<u128>, v2: Seq<u128>, indent: nat, f1: nat, f2: nat)
    requires
        f1 <= f2,
        unseen(c.nodes, v1) <= f1,
        same_on(c.nodes, v1, v2),
    ensures
        emit_next(c, id, i, v1, indent, f1).0 == emit_next(c, id, i, v2, indent, f2).0,
        same_on(c.nodes, emit_next(c, id, i, v1, indent, f1).1, emit_next(c, id, i, v2, indent, f2).1),
        grows(c.nodes, v1, emit_next(c, id, i, v1, indent, f1).1),
    decreases f1, 1nat, 0int,
{
    match follow(c, id, i) {
        Some(nx) => {
            lemma_emit(c, nx, v1, v2, indent, f1, f2);
        },
        None => {},
    }
}

proof fn lemma_emit_options(c: YarnCtx, id: u128, opts: Seq<OptionV>, k: int, v1: Seq<u128>, v2: Seq<u128>, indent: nat, f1: nat, f2: nat)
    requires
        f1 <= f2,
        unseen(c.nodes, v1) <= f1,
        same_on(c.nodes, v1, v2),
    ensures
        emit_options(c, id, opts, k, v1, indent, f1).0 == emit_options(c, id, opts, k, v2, indent, f2).0,
        same_on(c.nodes, emit_options(c, id, opts, k, v1, indent, f1).1, emit_options(c, id, opts, k, v2, indent, f2).1),
        grows(c.nodes, v1, emit_options(c, id, opts, k, v1, indent, f1).1),
    decreases f1, 2nat, k,
{
    if k > 0 {
        lemma_emit_options(c, id, opts, k - 1, v1, v2, indent, f1, f2);
        let r1 = emit_options(c, id, opts, k - 1, v1, indent, f1).1;
        let r2 = emit_options(c, id, opts, k - 1, v2, indent, f2).1;
        lemma_unseen_mono(c.nodes, v1, r1);
        lemma_emit_next(c, id, k - 1, r1, r2, indent + 1, f1, f2);
    }
}

proof fn lemma_emit_cond(c: YarnCtx, id: u128, cd: CondV, v1: Seq<u128>, v2: Seq<u128>, indent: nat, f1: nat, f2: nat)
    requires
        f1 <= f2,
        unseen(c.nodes, v1) <= f1,
        same_on(c.nodes, v1, v2),
    ensures
        emit_cond(c, id, cd, v1, indent, f1).0 == emit_cond(c, id, cd, v2, indent, f2).0,
        same_on(c.nodes, emit_cond(c, id, cd, v1, indent, f1).1, emit_cond(c, id, cd, v2, indent, f2).1),
        grows(c.nodes, v1, emit_cond(c, id, cd, v1, indent, f1).1),
    decreases f1, 2nat, 0int,
{
    lemma_emit_next(c, id, 0, v1, v2, indent + 1, f1, f2);
    let t1 = emit_next(c, id, 0, v1, indent + 1, f1).1;
    let t2 = emit_next(c, id, 0, v2, indent + 1, f2).1;
    match follow(c, id, 1) {
        Some(nx) => {
            lemma_unseen_mono(c.nodes, v1, t1);
            lemma_emit(c, nx, t1, t2, indent + 1, f1, f2);
        },
        None => {},
    }
}

proof fn lemma_emit_found(c: YarnCtx, id: u128, n: NodeV, v1: Seq<u128>, v2: Seq<u128>, indent: nat, f1: nat, f2: nat)
    requires
        f1 <= f2,
        unseen(c.nodes, v1) <= f1,
        same_on(c.nodes, v1, v2),
    ensures
        emit_found(c, id, n, v1, indent, f1).0 == emit_found(c, id, n, v2, indent, f2).0,
        same_on(c.nodes, emit_found(c, id, n, v1, indent, f1).1, emit_found(c, id, n, v2, indent, f2).1),
        grows(c.nodes, v1, emit_found(c, id, n, v1, indent, f1).1),
    decreases f1, 3nat, 0int,
{
    match n.kind {
        KindV::Choice(_, opts) => {
            lemma_emit_options(c, id, opts, opts.len() as int, v1, v2, indent, f1, f2);
        },
        KindV::Condition(cd) => {
            lemma_emit_cond(c, id, cd, v1, v2, indent, f1, f2);
        },
        KindV::Random(_) => {},
        KindV::End(_) => {},
        _ => {
            lemma_emit_next(c, id, 0, v1, v2, indent, f1, f2);
        },
    }
}

/// Bounding the walk by the number of nodes cuts nothing: any larger bound
/// writes the same script. Every step that writes a node marks a node
/// identifier not marked before, so the bound is never reached while a node
/// remains to be written.
pub proof fn law_yarn_walk_is_never_cut(g: GraphV, ws: Seq<Wire>, fuel: nat)
    requires
        fuel >= g.nodes.len(),
    ensures
        yarn_walk(g, ws, fuel) == yarn_text(g, ws),
{
    let c = YarnCtx { nodes: g.nodes, wires: ws, chars: g.characters };
    lemma_unseen_le_len(g.nodes, seq![]);
    match yarn_start(g.nodes) {
        Some(s) => {
            lemma_emit_next(c, s, 0, seq![], seq![], 0, g.nodes.len(), fuel);
        },
        None => {},
    }
}

// ------------------------------------------------------------ executable

pub open spec fn ctx_of(nodes: Seq<Node>, conns: Seq<crate::model::Connection>, chars: Seq<crate::model::Character>) -> YarnCtx {
    YarnCtx { nodes: nodes_view(nodes), wires: wires_of(conns), chars: characters_view(chars) }
}

fn push_indent(out: &mut String, indent: usize)
    ensures
        final(out)@ == old(out)@ + indent_text(indent as nat),
{
    let mut k: usize = 0;
    assert(old(out)@ + indent_text(0) =~= old(out)@);
    while k < indent
        invariant
            k <= indent,
            out@ == old(out)@ + indent_text(k as nat),
        decreases indent - k,
    {
        push_str(out, "    ");
        assert(out@ =~= old(out)@ + indent_text((k + 1) as nat));
        k = k + 1;
    }
}

fn push_yarn_value(out: &mut String, v: &VariableValue)
    ensures
        final(out)@ == old(out)@ + yarn_value(value_view(*v)),
{
    match v {
        VariableValue::Bool(b) => {
            if *b { push_str(out, "true"); } else { push_str(out, "false"); }
        },
        VariableValue::Int(i) => push_int(out, *i),
        VariableValue::Float(f) => push_str(out, f.as_str()),
        VariableValue::Text(t) => {
            push_str(out, "\"");
            push_str(out, t.as_str());
            push_str(out, "\"");
            assert(out@ =~= old(out)@ + yarn_value(value_view(*v)));
        },
    }
}

/// The text of a variable value in a Yarn command.
pub fn variable_value_str(v: &VariableValue) -> (r: String)
    ensures
        r@ == yarn_value(value_view(*v)),
{
    let mut r = String::new();
    push_yarn_value(&mut r, v);
    assert(r@ =~= yarn_value(value_view(*v)));
    r
}

fn follow_output(nodes: &Vec<Node>, conns: &Vec<crate::model::Connection>, id: u128, i: usize) -> (r: Option<u128>)
    ensures
        r == follow(YarnCtx { nodes: nodes_view(nodes@), wires: wires_of(conns@), chars: seq![] }, id, i as int),
{
    match node_ref(nodes, id) {
        None => None,
        Some(n) => {
            if i < n.outputs.len() {
                match crate::flatten::first_wire_to(conns, n.outputs[i].id) {
                    Some(w) => Some(w.0),
                    None => None,
                }
            } else {
                None
            }
        },
    }
}

fn contains_id(v: &Vec<u128>, id: u128) -> (r: bool)
    ensures
        r == v@.contains(id),
{
    let mut i: usize = 0;
    while i < v.len()
        invariant
            i <= v.len(),
            forall|j: int| 0 <= j < i ==> v@[j] != id,
        decreases v.len() - i,
    {
        if v[i] == id {
            return true;
        }
        i = i + 1;
    }
    false
}

/// The speaker of a dialogue line: the name of the character it names, or
/// its free-text speaker name.
pub fn resolve_speaker(d: &DialogueData, chars: &Vec<crate::model::Character>) -> (r: String)
    ensures
        r@ == yarn_speaker(characters_view(chars@), dialogue_view(*d)),
{
    match d.speaker_id {
        Some(sid) => {
            let mut i: usize = 0;
            let ghost cv = characters_view(chars@);
            assert(cv.skip(0) =~= cv);
            while i < chars.len()
                invariant
                    i <= chars.len(),
                    d.speaker_id == Some(sid),
                    cv == characters_view(chars@),
                    character_with(cv, sid) == character_with(cv.skip(i as int), sid),
                decreases chars.len() - i,
            {
                assert(cv.skip(i as int).drop_first() =~= cv.skip(i + 1));
                assert(cv.skip(i as int)[0] == character_view(chars@[i as int]));
                if chars[i].id == sid {
                    assert(character_with(cv, sid) == Some(character_view(chars@[i as int])));
                    let r = chars[i].name.clone();
                    assert(r@ == character_view(chars@[i as int]).name);
                    assert(dialogue_view(*d).speaker_id == Some(sid));
                    assert(r@ == crate::voice_export::speaker_of(cv, dialogue_view(*d)));
                    return r;
                }
                i = i + 1;
            }
            assert(cv.skip(i as int) =~= Seq::<CharacterV>::empty());
            d.speaker_name.clone()
        },
        None => d.speaker_name.clone(),
    }
}

/// Writes the lines of a dialogue node (see `dialogue_lines`).
pub fn emit_dialogue(d: &DialogueData, indent: usize, out: &mut String, chars: &Vec<crate::model::Character>)
    ensures
        final(out)@ == old(out)@ + dialogue_lines(characters_view(chars@), dialogue_view(*d), indent_text(indent as nat)),
        d.emotion@ != "neutral"@ && d.emotion@.len() > 0 ==> begins_with(
            final(out)@.subrange(old(out)@.len() as int, final(out)@.len() as int),
            spoken_line(characters_view(chars@), dialogue_view(*d), indent_text(indent as nat))
                + emotion_tag(d.emotion@, indent_text(indent as nat)),
        ),
{
    let ghost dv = dialogue_view(*d);
    let ghost prefix = indent_text(indent as nat);
    let speaker = resolve_speaker(d, chars);
    let ghost m0 = out@;
    push_indent(out, indent);
    if speaker.as_str().unicode_len() == 0 {
        push_str(out, d.text.as_str());
        push_str(out, "\n");
    } else {
        push_str(out, speaker.as_str());
        push_str(out, ": ");
        push_str(out, d.text.as_str());
        push_str(out, "\n");
    }
    let ghost m1 = out@;
    assert(m1 =~= m0 + (if speaker@.len() == 0 { prefix + dv.text + "\n"@ } else { prefix + speaker@ + ": "@ + dv.text + "\n"@ }));
    let neutral = crate::text::str_eq(d.emotion.as_str(), "neutral");
    if !neutral && d.emotion.as_str().unicode_len() > 0 {
        push_indent(out, indent);
        push_str(out, "# emotion: ");
        push_str(out, d.emotion.as_str());
        push_str(out, "\n");
    }
    let ghost m2 = out@;
    assert(m2 =~= m1 + (if dv.emotion != "neutral"@ && dv.emotion.len() > 0 { prefix + "# emotion: "@ + dv.emotion + "\n"@ } else { seq![] }));
    match &d.audio_clip {
        Some(a) => {
            if a.as_str().unicode_len() > 0 {
                push_indent(out, indent);
                push_str(out, "# audio: ");
                push_str(out, a.as_str());
                push_str(out, "\n");
            }
        },
        None => {},
    }
    assert(out@ =~= m2 + match dv.audio_clip {
        Some(a) => if a.len() > 0 { prefix + "# audio: "@ + a + "\n"@ } else { seq![] },
        None => seq![],
    });
    proof {
        let cv = characters_view(chars@);
        law_dialogue_emotion_tag(cv, dv, prefix);
        assert(out@ =~= m0 + dialogue_lines(cv, dv, prefix));
        lemma_affixes_concat(m0, dialogue_lines(cv, dv, prefix), seq![], seq![]);
    }
}

fn push_action_lines(out: &mut String, acts: &Vec<crate::model::EventAction>, indent: usize)
    ensures
        final(out)@ == old(out)@ + action_lines(
            acts@.map_values(|a: crate::model::EventAction| crate::model::action_view(a)),
            indent_text(indent as nat),
        ),
{
    let ghost av = acts@.map_values(|a: crate::model::EventAction| crate::model::action_view(a));
    let ghost prefix = indent_text(indent as nat);
    let mut i: usize = 0;
    assert(av.take(0) =~= Seq::<ActionV>::empty());
    assert(out@ =~= old(out)@ + action_lines(av.take(0), prefix));
    while i < acts.len()
        invariant
            i <= acts.len(),
            av == acts@.map_values(|a: crate::model::EventAction| crate::model::action_view(a)),
            prefix == indent_text(indent as nat),
            out@ == old(out)@ + action_lines(av.take(i as int), prefix),
        decreases acts.len() - i,
    {
        let a = &acts[i];
        assert(av[i as int] == crate::model::action_view(*a));
        push_indent(out, indent);
        push_str(out, "<<set $");
        push_str(out, a.key.as_str());
        push_str(out, " to ");
        push_yarn_value(out, &a.value);
        push_str(out, ">>\n");
        proof {
            assert(av.take(i + 1).drop_last() =~= av.take(i as int));
            assert(out@ =~= old(out)@ + action_lines(av.take(i + 1), prefix));
        }
        i = i + 1;
    }
    assert(av.take(acts.len() as int) =~= av);
}

fn emit_next_node(nodes: &Vec<Node>, conns: &Vec<crate::model::Connection>, chars: &Vec<crate::model::Character>,
    id: u128, i: usize, visited: &mut Vec<u128>, out: &mut String, indent: usize, fuel: usize)
    requires
        indent + fuel <= usize::MAX,
    ensures
        ({
            let r = emit_next(ctx_of(nodes@, conns@, chars@), id, i as int, old(visited)@, indent as nat, fuel as nat);
            final(out)@ == old(out)@ + r.0 && final(visited)@ == r.1
        }),
    decreases fuel, 1nat, 0int,
{
    match follow_output(nodes, conns, id, i) {
        Some(nx) => emit_node(nodes, conns, chars, nx, visited, out, indent, fuel),
        None => {
            assert(old(out)@ + Seq::<char>::empty() =~= old(out)@);
        },
    }
}

fn emit_choice_options(nodes: &Vec<Node>, conns: &Vec<crate::model::Connection>, chars: &Vec<crate::model::Character>,
    id: u128, choices: &Vec<crate::model::ChoiceOption>, k: usize, visited: &mut Vec<u128>, out: &mut String,
    indent: usize, fuel: usize)
    requires
        k <= choices.len(),
        indent + 1 + fuel <= usize::MAX,
    ensures
        ({
            let r = emit_options(
                ctx_of(nodes@, conns@, chars@),
                id,
                choices@.map_values(|o: crate::model::ChoiceOption| crate::model::option_view(o)),
                k as int,
                old(visited)@,
                indent as nat,
                fuel as nat,
            );
            final(out)@ == old(out)@ + r.0 && final(visited)@ == r.1
        }),
    decreases fuel, 2nat, k,
{
    if k == 0 {
        assert(old(out)@ + Seq::<char>::empty() =~= old(out)@);
        return;
    }
    emit_choice_options(nodes, conns, chars, id, choices, k - 1, visited, out, indent, fuel);
    let ghost m = out@;
    push_indent(out, indent);
    push_str(out, "-> ");
    push_str(out, choices[k - 1].text.as_str());
    push_str(out, "\n");
    let ghost m2 = out@;
    emit_next_node(nodes, conns, chars, id, k - 1, visited, out, indent + 1, fuel);
    proof {
        let opts = choices@.map_values(|o: crate::model::ChoiceOption| crate::model::option_view(o));
        assert(opts[k - 1].text == choices@[k - 1].text@);
        assert(m2 =~= m + (indent_text(indent as nat) + "-> "@ + opts[k - 1].text + "\n"@));
        assert(out@ =~= old(out)@ + emit_options(ctx_of(nodes@, conns@, chars@), id, opts, k as int, old(visited)@, indent as nat, fuel as nat).0);
    }
}

fn emit_node(nodes: &Vec<Node>, conns: &Vec<crate::model::Connection>, chars: &Vec<crate::model::Character>,
    id: u128, visited: &mut Vec<u128>, out: &mut String, indent: usize, fuel: usize)
    requires
        indent + fuel <= usize::MAX,
    ensures
        ({
            let r = emit(ctx_of(nodes@, conns@, chars@), id, old(visited)@, indent as nat, fuel as nat);
            final(out)@ == old(out)@ + r.0 && final(visited)@ == r.1
        }),
    decreases fuel, 0nat, 0int,
{
    if fuel == 0 || contains_id(visited, id) {
        assert(old(out)@ + Seq::<char>::empty() =~= old(out)@);
        return;
    }
    visited.push(id);
    match node_ref(nodes, id) {
        Some(n) => emit_found_node(nodes, conns, chars, id, n, visited, out, indent, fuel - 1),
        None => {
            assert(old(out)@ + Seq::<char>::empty() =~= old(out)@);
        },
    }
}

fn emit_found_node(nodes: &Vec<Node>, conns: &Vec<crate::model::Connection>, chars: &Vec<crate::model::Character>,
    id: u128, n: &Node, visited: &mut Vec<u128>, out: &mut String, indent: usize, f: usize)
    requires
        indent + f + 1 <= usize::MAX,
    ensures
        ({
            let r = emit_found(ctx_of(nodes@, conns@, chars@), id, node_view(*n), old(visited)@, indent as nat, f as nat);
            final(out)@ == old(out)@ + r.0 && final(visited)@ == r.1
        }),
    decreases f, 3nat, 0int,
{
    let ghost c = ctx_of(nodes@, conns@, chars@);
    let ghost prefix = indent_text(indent as nat);
    match &n.node_type {
        NodeType::Start => {
            emit_next_node(nodes, conns, chars, id, 0, visited, out, indent, f);
        },
        NodeType::Dialogue(d) => {
            emit_dialogue(d, indent, out, chars);
            emit_next_node(nodes, conns, chars, id, 0, visited, out, indent, f);
            assert(out@ =~= old(out)@ + emit_found(c, id, node_view(*n), old(visited)@, indent as nat, f as nat).0);
        },
        NodeType::Choice(ch) => {
            if ch.prompt.as_str().unicode_len() > 0 {
                push_indent(out, indent);
                push_str(out, ch.prompt.as_str());
                push_str(out, "\n");
            }
            let ghost m = out@;
            assert(m =~= old(out)@ + (if ch.prompt@.len() > 0 { prefix + ch.prompt@ + "\n"@ } else { seq![] }));
            emit_choice_options(nodes, conns, chars, id, &ch.choices, ch.choices.len(), visited, out, indent, f);
            assert(out@ =~= old(out)@ + emit_found(c, id, node_view(*n), old(visited)@, indent as nat, f as nat).0);
        },
        NodeType::Condition(cd) => emit_condition(nodes, conns, chars, id, cd, visited, out, indent, f),
        NodeType::Event(e) => {
            push_action_lines(out, &e.actions, indent);
            emit_next_node(nodes, conns, chars, id, 0, visited, out, indent, f);
            assert(out@ =~= old(out)@ + emit_found(c, id, node_view(*n), old(visited)@, indent as nat, f as nat).0);
        },
        NodeType::Random(r) => {
            push_indent(out, indent);
            push_str(out, "# [RANDOM: ");
            push_decimal(out, r.branches.len() as u64);
            push_str(out, " branches]\n");
            assert(out@ =~= old(out)@ + emit_found(c, id, node_view(*n), old(visited)@, indent as nat, f as nat).0);
        },
        NodeType::End(_) => {
            assert(old(out)@ + Seq::<char>::empty() =~= old(out)@);
        },
        NodeType::SubGraph(sg) => {
            push_indent(out, indent);
            push_str(out, "# [SUBGRAPH: ");
            if sg.name.as_str().unicode_len() == 0 {
                push_str(out, "unnamed");
            } else {
                push_str(out, sg.name.as_str());
            }
            push_str(out, "]\n");
            emit_next_node(nodes, conns, chars, id, 0, visited, out, indent, f);
            assert(out@ =~= old(out)@ + emit_found(c, id, node_view(*n), old(visited)@, indent as nat, f as nat).0);
        },
    }
}

fn push_cond_head(out: &mut String, cd: &crate::model::ConditionData, indent: usize)
    ensures
        final(out)@ == old(out)@ + cond_head(
            CondV { variable_name: cd.variable_name@, operator: cd.operator, value: value_view(cd.value) },
            indent_text(indent as nat),
        ),
{
    push_indent(out, indent);
    push_str(out, "<<if $");
    push_str(out, cd.variable_name.as_str());
    push_str(out, " ");
    push_str(out, crate::readable::compare_op_str(cd.operator));
    push_str(out, " ");
    push_yarn_value(out, &cd.value);
    push_str(out, ">>\n");
}

fn emit_condition(nodes: &Vec<Node>, conns: &Vec<crate::model::Connection>, chars: &Vec<crate::model::Character>,
    id: u128, cd: &crate::model::ConditionData, visited: &mut Vec<u128>, out: &mut String, indent: usize, f: usize)
    requires
        indent + f + 1 <= usize::MAX,
    ensures
        ({
            let r = emit_cond(
                ctx_of(nodes@, conns@, chars@),
                id,
                CondV { variable_name: cd.variable_name@, operator: cd.operator, value: value_view(cd.value) },
                old(visited)@,
                indent as nat,
                f as nat,
            );
            final(out)@ == old(out)@ + r.0 && final(visited)@ == r.1
        }),
    decreases f, 2nat, 0int,
{
    push_cond_head(out, cd, indent);
    emit_next_node(nodes, conns, chars, id, 0, visited, out, indent + 1, f);
    let ghost m = out@;
    match follow_output(nodes, conns, id, 1) {
        Some(nx) => {
            push_indent(out, indent);
            push_str(out, "<<else>>\n");
            emit_node(nodes, conns, chars, nx, visited, out, indent + 1, f);
        },
        None => {},
    }
    push_indent(out, indent);
    push_str(out, "<<endif>>\n");
}

/// The graph as a Yarn script (see `yarn_text`), after flattening its sub-graphs.
pub fn export_yarn(graph: &DialogueGraph) -> (r: String)
    ensures
        r@ == yarn_text(flat_view(graph_view(*graph)), flat_wires(graph_view(*graph))),
{
    let flat = flatten_subgraphs(graph);
    let ghost gv = flat_view(graph_view(*graph));
    assert(nodes_view(flat.nodes@) == gv.nodes);
    assert(characters_view(flat.characters@) == gv.characters) by {
        assert(characters_view(flat.characters@) =~= graph_view(flat).characters);
    }
    let mut out = String::new();
    push_str(&mut out, "title: root\n---\n");
    let ghost m = out@;
    proof {
        lemma_nodes_view(flat.nodes@);
    }
    let fuel = flat.nodes.len();
    match crate::flatten::find_start(&flat.nodes) {
        Some(s) => {
            let mut visited: Vec<u128> = Vec::new();
            emit_next_node(&flat.nodes, &flat.connections, &flat.characters, s, 0, &mut visited, &mut out, 0, fuel);
        },
        None => {},
    }
    push_str(&mut out, "===\n");
    assert(out@ =~= yarn_text(gv, flat_wires(graph_view(*graph))));
    out
}

} // verus!
