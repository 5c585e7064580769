//! What the editor does with the answers of its background services
//! (translation, speech, writing assistant): each answer is an event, and
//! applying it gives the next editor state.

use vstd::prelude::*;
use crate::copy::copy_node;
use crate::csv::push_str;
use crate::flatten::{first_pos, lemma_first_pos};
use crate::graph::{find_node, has_node, is_first_node};
use crate::history::{UndoHistory, spec_save};
use crate::ident::fresh_id;
use crate::locale::translation_of;
use crate::locale_export::{StringV, TranslatableString, collect_translatable_strings, translatable, ts_view};
use crate::model::{
    ChoiceOption, DialogueGraph, DialogueV, KindV, Node, NodeType, NodeV, OptionV, Port, PortV, graph_view,
    lemma_nodes_view, node_view, nodes_view, option_view, port_view, ports_view,
};
use crate::settings::VoiceInfo;
use crate::text::owned;

verus! {

// ---------------------------------------------------------------- node edits

/// The view of `ns` after editing the first node with identifier `id` by `e`
/// (unchanged when there is none).
pub open spec fn edit_first(ns: Seq<NodeV>, id: u128, e: spec_fn(NodeV) -> NodeV) -> Seq<NodeV> {
    let f = first_pos(ns, id);
    if f >= 0 {
        ns.update(f, e(ns[f]))
    } else {
        ns
    }
}

/// A dialogue node with its audio clip set to `path`; other nodes unchanged.
pub open spec fn with_audio(path: Seq<char>) -> spec_fn(NodeV) -> NodeV {
    |n: NodeV| match n.kind {
        KindV::Dialogue(d) => NodeV { kind: KindV::Dialogue(DialogueV { audio_clip: Some(path), ..d }), ..n },
        _ => n,
    }
}

/// A dialogue node with its text set to `text`; other nodes unchanged.
pub open spec fn with_text(text: Seq<char>) -> spec_fn(NodeV) -> NodeV {
    |n: NodeV| match n.kind {
        KindV::Dialogue(d) => NodeV { kind: KindV::Dialogue(DialogueV { text, ..d }), ..n },
        _ => n,
    }
}

/// `n` is the choice node `o` after applying generated option texts `t`: the
/// first options take the texts (and the matching output ports their labels),
/// and each text beyond the existing options becomes a new option with an
/// output port of its own. Other nodes are unchanged.
pub open spec fn choices_applied(o: NodeV, n: NodeV, t: Seq<Seq<char>>) -> bool {
    match o.kind {
        KindV::Choice(prompt, opts) => {
            let k = opts.len();
            let added: int = if t.len() > k { t.len() - k } else { 0 };
            &&& n.kind matches KindV::Choice(prompt2, opts2) && prompt2 == prompt
                && opts2.len() == k + added
                && (forall|j: int| 0 <= j < k ==> #[trigger] opts2[j] == if j < t.len() {
                    OptionV { text: t[j], ..opts[j] }
                } else {
                    opts[j]
                })
                && (forall|j: int| k <= j < k + added ==> #[trigger] opts2[j] == (OptionV { text: t[j], condition: None }))
            &&& n.outputs.len() == o.outputs.len() + added
            &&& forall|j: int| 0 <= j < o.outputs.len() ==> #[trigger] n.outputs[j] == if j < k && j < t.len() {
                PortV { label: t[j], ..o.outputs[j] }
            } else {
                o.outputs[j]
            }
            &&& forall|j: int| 0 <= j < added ==> #[trigger] n.outputs[o.outputs.len() + j].label == t[k + j]
            &&& n.id == o.id
            &&& n.inputs == o.inputs
            &&& n.position == o.position
        },
        _ => n == o,
    }
}

/// The texts of strings.
pub open spec fn texts_view(v: Seq<String>) -> Seq<Seq<char>> {
    v.map_values(|s: String| s@)
}

/// Replacing a node replaces its view.
pub proof fn lemma_update_view(s: Seq<Node>, i: int, n: Node)
    requires
        0 <= i < s.len(),
    ensures
        nodes_view(s.update(i, n)) == nodes_view(s).update(i, node_view(n)),
{
    lemma_nodes_view(s);
    lemma_nodes_view(s.update(i, n));
    assert(nodes_view(s.update(i, n)) =~= nodes_view(s).update(i, node_view(n)));
}

/// What `find_node` returns is the first position of the identifier in the
/// nodes' view.
pub proof fn lemma_found(s: Seq<Node>, id: u128, r: Option<usize>)
    requires
        match r {
            Some(i) => is_first_node(s, id, i as int),
            None => !has_node(s, id),
        },
    ensures
        match r {
            Some(i) => first_pos(nodes_view(s), id) == i,
            None => first_pos(nodes_view(s), id) < 0,
        },
{
    let ns = nodes_view(s);
    lemma_nodes_view(s);
    lemma_first_pos(ns, id);
    let f = first_pos(ns, id);
    match r {
        Some(i) => {
            assert(ns[i as int] == node_view(s[i as int]));
            assert(ns[i as int].id == id);
            if f >= 0 && f < i {
                assert(ns[f] == node_view(s[f]));
            }
        },
        None => {
            if f >= 0 {
                assert(ns[f] == node_view(s[f]));
            }
        },
    }
}

/// Sets the audio clip of the first node with identifier `node_id` when it is
/// a dialogue line.
pub fn set_audio_clip(graph: &mut DialogueGraph, node_id: u128, path: String)
    ensures
        nodes_view(final(graph).nodes@) == edit_first(nodes_view(old(graph).nodes@), node_id, with_audio(path@)),
        final(graph).connections == old(graph).connections,
        final(graph).variables == old(graph).variables,
        final(graph).characters == old(graph).characters,
        final(graph).barks == old(graph).barks,
        final(graph).locale == old(graph).locale,
        final(graph).world_entities == old(graph).world_entities,
        final(graph).node_tags == old(graph).node_tags,
{
    let found = find_node(&graph.nodes, node_id);
    proof {
        lemma_found(graph.nodes@, node_id, found);
        lemma_nodes_view(graph.nodes@);
    }
    if let Some(i) = found {
        let mut n = copy_node(&graph.nodes[i]);
        let mut kind = NodeType::Start;
        std::mem::swap(&mut kind, &mut n.node_type);
        match kind {
            NodeType::Dialogue(mut d) => {
                d.audio_clip = Some(path);
                n.node_type = NodeType::Dialogue(d);
            },
            other => {
                n.node_type = other;
            },
        }
        proof {
            lemma_update_view(graph.nodes@, i as int, n);
            assert(node_view(n) =~= with_audio(path@)(nodes_view(graph.nodes@)[i as int]));
        }
        graph.nodes.set(i, n);
    }
}

/// Sets the text of the first node with identifier `node_id` when it is a
/// dialogue line.
pub fn set_dialogue_text(graph: &mut DialogueGraph, node_id: u128, text: String)
    ensures
        nodes_view(final(graph).nodes@) == edit_first(nodes_view(old(graph).nodes@), node_id, with_text(text@)),
        final(graph).connections == old(graph).connections,
        final(graph).variables == old(graph).variables,
        final(graph).characters == old(graph).characters,
        final(graph).barks == old(graph).barks,
        final(graph).locale == old(graph).locale,
        final(graph).world_entities == old(graph).world_entities,
        final(graph).node_tags == old(graph).node_tags,
{
    let found = find_node(&graph.nodes, node_id);
    proof {
        lemma_found(graph.nodes@, node_id, found);
        lemma_nodes_view(graph.nodes@);
    }
    if let Some(i) = found {
        let mut n = copy_node(&graph.nodes[i]);
        let mut kind = NodeType::Start;
        std::mem::swap(&mut kind, &mut n.node_type);
        match kind {
            NodeType::Dialogue(mut d) => {
                d.text = text;
                n.node_type = NodeType::Dialogue(d);
            },
            other => {
                n.node_type = other;
            },
        }
        proof {
            lemma_update_view(graph.nodes@, i as int, n);
            assert(node_view(n) =~= with_text(text@)(nodes_view(graph.nodes@)[i as int]));
        }
        graph.nodes.set(i, n);
    }
}

/// Applies generated option texts to a choice node (see `choices_applied`).
fn apply_choice_texts(n: &mut Node, texts: &Vec<String>)
    ensures
        choices_applied(node_view(*old(n)), node_view(*final(n)), texts_view(texts@)),
{
    let ghost t = texts_view(texts@);
    let mut kind = NodeType::Start;
    std::mem::swap(&mut kind, &mut n.node_type);
    match kind {
        NodeType::Choice(mut data) => {
            let ghost ov = data.choices@.map_values(|o: ChoiceOption| option_view(o));
            let ghost opv = ports_view(n.outputs@);
            let ghost prompt0 = data.prompt@;
            let k = data.choices.len();
            let mut i: usize = 0;
            while i < texts.len() && i < k
                invariant
                    i <= k,
                    i <= texts.len(),
                    t == texts_view(texts@),
                    data.choices@.len() == k,
                    data.prompt@ == prompt0,
                    ov.len() == k,
                    n.outputs@.len() == opv.len(),
                    forall|j: int| 0 <= j < k ==> #[trigger] option_view(data.choices@[j]) == if j < i {
                        OptionV { text: t[j], ..ov[j] }
                    } else {
                        ov[j]
                    },
                    forall|j: int| 0 <= j < opv.len() ==> #[trigger] port_view(n.outputs@[j]) == if j < i {
                        PortV { label: t[j], ..opv[j] }
                    } else {
                        opv[j]
                    },
                    n.id == old(n).id,
                    n.inputs == old(n).inputs,
                    n.position == old(n).position,
                decreases k - i,
            {
                let ghost before_c = data.choices@;
                let ghost before_p = n.outputs@;
                let mut o = data.choices.remove(i);
                o.text = texts[i].clone();
                data.choices.insert(i, o);
                proof {
                    assert(data.choices@ =~= before_c.update(i as int, o));
                    assert(t[i as int] == texts@[i as int]@);
                    assert(option_view(before_c[i as int]) == ov[i as int]);
                    assert(option_view(o) == (OptionV { text: t[i as int], ..ov[i as int] }));
                }
                if i < n.outputs.len() {
                    let mut p = n.outputs.remove(i);
                    p.label = texts[i].clone();
                    n.outputs.insert(i, p);
                    proof {
                        assert(n.outputs@ =~= before_p.update(i as int, p));
                        assert(port_view(before_p[i as int]) == opv[i as int]);
                        assert(port_view(p) == (PortV { label: t[i as int], ..opv[i as int] }));
                    }
                }
                i = i + 1;
            }
            let mut j: usize = k;
            while j < texts.len()
                invariant
                    k <= j,
                    j <= texts.len() || j == k,
                    t == texts_view(texts@),
                    data.choices@.len() == j,
                    data.prompt@ == prompt0,
                    ov.len() == k,
                    n.outputs@.len() == opv.len() + (j - k),
                    forall|q: int| 0 <= q < k ==> #[trigger] option_view(data.choices@[q]) == if q < t.len() {
                        OptionV { text: t[q], ..ov[q] }
                    } else {
                        ov[q]
                    },
                    forall|q: int| k <= q < j ==> #[trigger] option_view(data.choices@[q]) == (OptionV { text: t[q], condition: None }),
                    forall|q: int| 0 <= q < opv.len() ==> #[trigger] port_view(n.outputs@[q]) == if q < k && q < t.len() {
                        PortV { label: t[q], ..opv[q] }
                    } else {
                        opv[q]
                    },
                    forall|q: int| 0 <= q < j - k ==> #[trigger] n.outputs@[opv.len() + q].label@ == t[k + q],
                    n.id == old(n).id,
                    n.inputs == old(n).inputs,
                    n.position == old(n).position,
                decreases texts.len() - j,
            {
                data.choices.push(ChoiceOption { text: texts[j].clone(), condition: None });
                n.outputs.push(Port { id: fresh_id(), label: texts[j].clone() });
                j = j + 1;
            }
            n.node_type = NodeType::Choice(data);
            proof {
                let nv = node_view(*n);
                let opts2 = data.choices@.map_values(|o: ChoiceOption| option_view(o));
                assert(nv.kind == KindV::Choice(prompt0, opts2));
                assert(node_view(*old(n)).kind == KindV::Choice(prompt0, ov));
                assert(node_view(*old(n)).outputs == opv);
                assert forall|q: int| 0 <= q < k implies #[trigger] opts2[q] == if q < t.len() {
                    OptionV { text: t[q], ..ov[q] }
                } else {
                    ov[q]
                } by {
                    assert(opts2[q] == option_view(data.choices@[q]));
                }
                assert forall|q: int| k <= q < j implies #[trigger] opts2[q] == (OptionV { text: t[q], condition: None }) by {
                    assert(opts2[q] == option_view(data.choices@[q]));
                }
                assert forall|q: int| 0 <= q < opv.len() implies #[trigger] nv.outputs[q] == if q < k && q < t.len() {
                    PortV { label: t[q], ..opv[q] }
                } else {
                    opv[q]
                } by {
                    assert(nv.outputs[q] == port_view(n.outputs@[q]));
                }
                assert(nv.outputs.len() == opv.len() + (j - k));
                assert forall|q: int| 0 <= q < (j - k) implies #[trigger] nv.outputs[opv.len() + q].label == t[k + q] by {
                    assert(nv.outputs[opv.len() + q] == port_view(n.outputs@[opv.len() + q]));
                }
            }
        },
        other => {
            n.node_type = other;
        },
    }
}

/// Applies the option texts proposed for the first node with identifier
/// `node_id`, when it is a choice node (see `choices_applied`); other nodes
/// are left alone.
pub fn apply_generated_choices(graph: &mut DialogueGraph, node_id: u128, choices: &Vec<String>)
    ensures
        first_pos(nodes_view(old(graph).nodes@), node_id) < 0 ==> nodes_view(final(graph).nodes@) == nodes_view(old(graph).nodes@),
        first_pos(nodes_view(old(graph).nodes@), node_id) >= 0 ==> {
            let f = first_pos(nodes_view(old(graph).nodes@), node_id);
            &&& nodes_view(final(graph).nodes@) == nodes_view(old(graph).nodes@).update(f, nodes_view(final(graph).nodes@)[f])
            &&& choices_applied(nodes_view(old(graph).nodes@)[f], nodes_view(final(graph).nodes@)[f], texts_view(choices@))
        },
        final(graph).connections == old(graph).connections,
        final(graph).variables == old(graph).variables,
        final(graph).characters == old(graph).characters,
        final(graph).barks == old(graph).barks,
        final(graph).locale == old(graph).locale,
        final(graph).world_entities == old(graph).world_entities,
        final(graph).node_tags == old(graph).node_tags,
{
    let found = find_node(&graph.nodes, node_id);
    proof {
        lemma_found(graph.nodes@, node_id, found);
        lemma_nodes_view(graph.nodes@);
    }
    if let Some(i) = found {
        let mut n = copy_node(&graph.nodes[i]);
        apply_choice_texts(&mut n, choices);
        proof {
            lemma_update_view(graph.nodes@, i as int, n);
        }
        graph.nodes.set(i, n);
    }
}

// ---------------------------------------------------------------- events

/// An answer of a background service.
pub enum AsyncResult {
    /// A batch of translations into `locale`: (string key, translated text).
    TranslationDone { locale: String, translations: Vec<(String, String)> },
    TranslationError(String),
    VoiceListLoaded(Vec<VoiceInfo>),
    /// A voice line was generated for a node and saved at `audio_path`.
    VoiceGenerated { node_id: u128, audio_path: String },
    VoiceError(String),
    CollabMessage(String),
    CollabError(String),
    WritingSuggestionsReady { node_id: u128, suggestions: Vec<String> },
    ToneCheckReady { node_id: u128, report: String },
    WritingError(String),
}

/// A message for the status bar.
pub struct StatusMessage {
    pub text: String,
    pub is_error: bool,
}

/// The part of the editor that background answers change.
pub struct AssistState {
    pub graph: DialogueGraph,
    pub history: UndoHistory,
    pub translation_in_progress: bool,
    pub voice_generation_in_progress: bool,
    pub writing_in_progress: bool,
    pub available_voices: Vec<VoiceInfo>,
    pub writing_suggestions: Option<(u128, Vec<String>)>,
    pub writing_tone_report: Option<(u128, String)>,
    pub status: Option<StatusMessage>,
}

/// The status shows `text`, as an error or not.
pub open spec fn shows(s: Option<StatusMessage>, text: Seq<char>, is_error: bool) -> bool {
    s matches Some(m) && m.text@ == text && m.is_error == is_error
}

/// The text of the last pair whose key is `key`, if any.
pub open spec fn last_text(pairs: Seq<(Seq<char>, Seq<char>)>, key: Seq<char>) -> Option<Seq<char>>
    decreases pairs.len(),
{
    if pairs.len() == 0 {
        None
    } else if pairs.last().0 == key {
        Some(pairs.last().1)
    } else {
        last_text(pairs.drop_last(), key)
    }
}

/// `after` holds the translations of `before`, with those of `pairs` into
/// `locale` stored over them (the last one for a key wins).
pub open spec fn translated(before: Seq<crate::locale::Translation>, after: Seq<crate::locale::Translation>, locale: Seq<char>, pairs: Seq<(Seq<char>, Seq<char>)>) -> bool {
    forall|k: Seq<char>, l: Seq<char>| #[trigger] translation_of(after, k, l) == if l == locale && last_text(pairs, k) is Some {
        last_text(pairs, k)
    } else {
        translation_of(before, k, l)
    }
}

/// The graph is the same but for its translations.
pub open spec fn same_but_translations(a: DialogueGraph, b: DialogueGraph) -> bool {
    &&& b.nodes == a.nodes
    &&& b.connections == a.connections
    &&& b.variables == a.variables
    &&& b.characters == a.characters
    &&& b.barks == a.barks
    &&& b.world_entities == a.world_entities
    &&& b.node_tags == a.node_tags
    &&& b.locale.default_locale == a.locale.default_locale
    &&& b.locale.extra_locales == a.locale.extra_locales
}

/// The graph is the same but for its nodes, which are `nodes`.
pub open spec fn same_but_nodes(a: DialogueGraph, b: DialogueGraph, nodes: Seq<NodeV>) -> bool {
    &&& nodes_view(b.nodes@) == nodes
    &&& b.connections == a.connections
    &&& b.variables == a.variables
    &&& b.characters == a.characters
    &&& b.barks == a.barks
    &&& b.locale == a.locale
    &&& b.world_entities == a.world_entities
    &&& b.node_tags == a.node_tags
}

/// A snapshot of the graph as it was has been taken.
pub open spec fn snapshot_taken(a: AssistState, b: AssistState) -> bool {
    b.history.view_stacks() == spec_save(a.history.view_stacks(), graph_view(a.graph))
}

/// Only the flags, the status and the fields that `changed` names may differ;
/// `changed` lists, in this order: graph and history, voices, suggestions,
/// tone report.
pub open spec fn rest_kept(a: AssistState, b: AssistState, changed: Seq<bool>) -> bool {
    &&& !changed[0] ==> b.graph == a.graph && b.history == a.history
    &&& !changed[1] ==> b.available_voices == a.available_voices
    &&& !changed[2] ==> b.writing_suggestions == a.writing_suggestions
    &&& !changed[3] ==> b.writing_tone_report == a.writing_tone_report
}

/// The state after an answer arrives.
pub open spec fn result_applied(a: AssistState, b: AssistState, r: AsyncResult) -> bool {
    match r {
        AsyncResult::TranslationDone { locale, translations } => {
            &&& snapshot_taken(a, b)
            &&& same_but_translations(a.graph, b.graph)
            &&& translated(a.graph.locale.translations@, b.graph.locale.translations@, locale@,
                translations@.map_values(|p: (String, String)| (p.0@, p.1@)))
            &&& !b.translation_in_progress
            &&& b.voice_generation_in_progress == a.voice_generation_in_progress
            &&& b.writing_in_progress == a.writing_in_progress
            &&& shows(b.status, "Translation to '"@ + locale@ + "' complete"@, false)
            &&& rest_kept(a, b, seq![true, false, false, false])
        },
        AsyncResult::TranslationError(e) => {
            &&& !b.translation_in_progress
            &&& b.voice_generation_in_progress == a.voice_generation_in_progress
            &&& b.writing_in_progress == a.writing_in_progress
            &&& shows(b.status, "Translation error: "@ + e@, true)
            &&& rest_kept(a, b, seq![false, false, false, false])
        },
        AsyncResult::VoiceListLoaded(voices) => {
            &&& b.available_voices == voices
            &&& b.translation_in_progress == a.translation_in_progress
            &&& b.voice_generation_in_progress == a.voice_generation_in_progress
            &&& b.writing_in_progress == a.writing_in_progress
            &&& shows(b.status, "Voice list loaded"@, false)
            &&& rest_kept(a, b, seq![false, true, false, false])
        },
        AsyncResult::VoiceGenerated { node_id, audio_path } => {
            &&& snapshot_taken(a, b)
            &&& same_but_nodes(a.graph, b.graph, edit_first(nodes_view(a.graph.nodes@), node_id, with_audio(audio_path@)))
            &&& b.translation_in_progress == a.translation_in_progress
            &&& !b.voice_generation_in_progress
            &&& b.writing_in_progress == a.writing_in_progress
            &&& shows(b.status, "Voice generated"@, false)
            &&& rest_kept(a, b, seq![true, false, false, false])
        },
        AsyncResult::VoiceError(e) => {
            &&& b.translation_in_progress == a.translation_in_progress
            &&& !b.voice_generation_in_progress
            &&& b.writing_in_progress == a.writing_in_progress
            &&& shows(b.status, "Voice error: "@ + e@, true)
            &&& rest_kept(a, b, seq![false, false, false, false])
        },
        AsyncResult::CollabMessage(_) => {
            &&& b.translation_in_progress == a.translation_in_progress
            &&& b.voice_generation_in_progress == a.voice_generation_in_progress
            &&& b.writing_in_progress == a.writing_in_progress
            &&& b.status == a.status
            &&& rest_kept(a, b, seq![false, false, false, false])
        },
        AsyncResult::CollabError(e) => {
            &&& b.translation_in_progress == a.translation_in_progress
            &&& b.voice_generation_in_progress == a.voice_generation_in_progress
            &&& b.writing_in_progress == a.writing_in_progress
            &&& shows(b.status, "Collab error: "@ + e@, true)
            &&& rest_kept(a, b, seq![false, false, false, false])
        },
        AsyncResult::WritingSuggestionsReady { node_id, suggestions } => {
            &&& b.writing_suggestions == Some((node_id, suggestions))
            &&& b.translation_in_progress == a.translation_in_progress
            &&& b.voice_generation_in_progress == a.voice_generation_in_progress
            &&& !b.writing_in_progress
            &&& shows(b.status, "Suggestions ready"@, false)
            &&& rest_kept(a, b, seq![false, false, true, false])
        },
        AsyncResult::ToneCheckReady { node_id, report } => {
            &&& b.writing_tone_report == Some((node_id, report))
            &&& b.translation_in_progress == a.translation_in_progress
            &&& b.voice_generation_in_progress == a.voice_generation_in_progress
            &&& !b.writing_in_progress
            &&& shows(b.status, "Tone check complete"@, false)
            &&& rest_kept(a, b, seq![false, false, false, true])
        },
        AsyncResult::WritingError(e) => {
            &&& b.translation_in_progress == a.translation_in_progress
            &&& b.voice_generation_in_progress == a.voice_generation_in_progress
            &&& !b.writing_in_progress
            &&& shows(b.status, "AI writing error: "@ + e@, true)
            &&& rest_kept(a, b, seq![false, false, false, false])
        },
    }
}

fn message(prefix: &str, detail: &str, suffix: &str, is_error: bool) -> (m: Option<StatusMessage>)
    ensures
        shows(m, prefix@ + detail@ + suffix@, is_error),
{
    let mut text = owned(prefix);
    push_str(&mut text, detail);
    push_str(&mut text, suffix);
    Some(StatusMessage { text, is_error })
}

/// Stores each (key, text) pair as the translation of the key into `locale`.
fn store_translations(graph: &mut DialogueGraph, locale: &String, pairs: &Vec<(String, String)>)
    ensures
        same_but_translations(*old(graph), *final(graph)),
        translated(old(graph).locale.translations@, final(graph).locale.translations@, locale@,
            pairs@.map_values(|p: (String, String)| (p.0@, p.1@))),
{
    let ghost pv = pairs@.map_values(|p: (String, String)| (p.0@, p.1@));
    let ghost t0 = graph.locale.translations@;
    let mut i: usize = 0;
    assert(pv.take(0) =~= Seq::<(Seq<char>, Seq<char>)>::empty());
    while i < pairs.len()
        invariant
            i <= pairs.len(),
            pv == pairs@.map_values(|p: (String, String)| (p.0@, p.1@)),
            t0 == old(graph).locale.translations@,
            same_but_translations(*old(graph), *graph),
            translated(t0, graph.locale.translations@, locale@, pv.take(i as int)),
        decreases pairs.len() - i,
    {
        let ghost before = graph.locale.translations@;
        graph.locale.set_translation(pairs[i].0.clone(), locale.clone(), pairs[i].1.clone());
        proof {
            let now = pv.take(i + 1);
            assert(now.drop_last() =~= pv.take(i as int));
            assert(now.last() == (pairs@[i as int].0@, pairs@[i as int].1@));
        }
        i = i + 1;
    }
    assert(pv.take(pairs.len() as int) =~= pv);
}

impl AssistState {
    /// A state around `graph`, with an empty history and nothing under way.
    pub fn new(graph: DialogueGraph) -> (s: AssistState)
        ensures
            s.graph == graph,
            s.history.view_stacks().undo.len() == 0,
            s.history.view_stacks().redo.len() == 0,
            !s.translation_in_progress,
            !s.voice_generation_in_progress,
            !s.writing_in_progress,
            s.available_voices@.len() == 0,
            s.writing_suggestions is None,
            s.writing_tone_report is None,
            s.status is None,
    {
        AssistState {
            graph,
            history: UndoHistory::new(),
            translation_in_progress: false,
            voice_generation_in_progress: false,
            writing_in_progress: false,
            available_voices: Vec::new(),
            writing_suggestions: None,
            writing_tone_report: None,
            status: None,
        }
    }

    /// Applies an answer of a background service (see `result_applied`).
    pub fn apply_result(&mut self, result: AsyncResult)
        ensures
            result_applied(*old(self), *final(self), result),
    {
        proof {
            reveal_strlit("");
        }
        match result {
            AsyncResult::TranslationDone { locale, translations } => {
                self.history.save_snapshot(&self.graph);
                store_translations(&mut self.graph, &locale, &translations);
                self.translation_in_progress = false;
                self.status = message("Translation to '", locale.as_str(), "' complete", false);
            },
            AsyncResult::TranslationError(e) => {
                self.translation_in_progress = false;
                self.status = message("Translation error: ", e.as_str(), "", true);
            },
            AsyncResult::VoiceListLoaded(voices) => {
                self.available_voices = voices;
                self.status = message("Voice list loaded", "", "", false);
            },
            AsyncResult::VoiceGenerated { node_id, audio_path } => {
                self.history.save_snapshot(&self.graph);
                set_audio_clip(&mut self.graph, node_id, audio_path);
                self.voice_generation_in_progress = false;
                self.status = message("Voice generated", "", "", false);
            },
            AsyncResult::VoiceError(e) => {
                self.voice_generation_in_progress = false;
                self.status = message("Voice error: ", e.as_str(), "", true);
            },
            AsyncResult::CollabMessage(_) => {},
            AsyncResult::CollabError(e) => {
                self.status = message("Collab error: ", e.as_str(), "", true);
            },
            AsyncResult::WritingSuggestionsReady { node_id, suggestions } => {
                self.writing_suggestions = Some((node_id, suggestions));
                self.writing_in_progress = false;
                self.status = message("Suggestions ready", "", "", false);
            },
            AsyncResult::ToneCheckReady { node_id, report } => {
                self.writing_tone_report = Some((node_id, report));
                self.writing_in_progress = false;
                self.status = message("Tone check complete", "", "", false);
            },
            AsyncResult::WritingError(e) => {
                self.writing_in_progress = false;
                self.status = message("AI writing error: ", e.as_str(), "", true);
            },
        }
    }

    /// Applies a proposed dialogue text to a node, after a snapshot.
    pub fn apply_dialogue(&mut self, node_id: u128, text: String)
        ensures
            snapshot_taken(*old(self), *final(self)),
            same_but_nodes(old(self).graph, final(self).graph,
                edit_first(nodes_view(old(self).graph.nodes@), node_id, with_text(text@))),
            final(self).translation_in_progress == old(self).translation_in_progress,
            final(self).voice_generation_in_progress == old(self).voice_generation_in_progress,
            final(self).writing_in_progress == old(self).writing_in_progress,
            final(self).status == old(self).status,
            rest_kept(*old(self), *final(self), seq![true, false, false, false]),
    {
        self.history.save_snapshot(&self.graph);
        set_dialogue_text(&mut self.graph, node_id, text);
    }

    /// Applies proposed option texts to a choice node, after a snapshot.
    pub fn apply_choices(&mut self, node_id: u128, choices: &Vec<String>)
        ensures
            snapshot_taken(*old(self), *final(self)),
            first_pos(nodes_view(old(self).graph.nodes@), node_id) < 0
                ==> nodes_view(final(self).graph.nodes@) == nodes_view(old(self).graph.nodes@),
            first_pos(nodes_view(old(self).graph.nodes@), node_id) >= 0 ==> {
                let f = first_pos(nodes_view(old(self).graph.nodes@), node_id);
                &&& nodes_view(final(self).graph.nodes@) == nodes_view(old(self).graph.nodes@).update(
                    f,
                    nodes_view(final(self).graph.nodes@)[f],
                )
                &&& choices_applied(nodes_view(old(self).graph.nodes@)[f], nodes_view(final(self).graph.nodes@)[f], texts_view(choices@))
            },
            final(self).graph.connections == old(self).graph.connections,
            final(self).graph.locale == old(self).graph.locale,
            final(self).translation_in_progress == old(self).translation_in_progress,
            final(self).voice_generation_in_progress == old(self).voice_generation_in_progress,
            final(self).writing_in_progress == old(self).writing_in_progress,
            final(self).status == old(self).status,
            rest_kept(*old(self), *final(self), seq![true, false, false, false]),
    {
        self.history.save_snapshot(&self.graph);
        apply_generated_choices(&mut self.graph, node_id, choices);
    }
}

// ---------------------------------------------------------------- requests

/// What the writing assistant is asked to do for one node.
#[derive(Clone, Copy, Debug, PartialEq, Eq, Structural)]
pub enum WritingTask {
    SuggestDialogue,
    GenerateChoices,
    CheckTone,
}

/// What goes into a request to the writing assistant.
pub enum WritingRequest {
    /// About a line: its speaker's name, emotion and text.
    Line { speaker: String, emotion: String, text: String },
    /// About a choice: its prompt and its option texts joined by ", ".
    Choice { prompt: String, context: String },
}

/// The option texts joined by ", ".
pub open spec fn joined(texts: Seq<Seq<char>>) -> Seq<char>
    decreases texts.len(),
{
    if texts.len() == 0 {
        seq![]
    } else if texts.len() == 1 {
        texts[0]
    } else {
        joined(texts.drop_last()) + ", "@ + texts.last()
    }
}

/// A key is present: given and not empty.
pub open spec fn key_given(key: Option<String>) -> bool {
    key matches Some(k) && k@.len() > 0
}

/// The request that `task` makes of node `n`, when the node is of the kind
/// that the task works on.
pub open spec fn request_for(task: WritingTask, n: NodeV) -> Option<(Seq<char>, Seq<char>, Seq<char>)> {
    match (task, n.kind) {
        (WritingTask::GenerateChoices, KindV::Choice(prompt, opts)) => Some(
            (prompt, joined(opts.map_values(|o: OptionV| o.text)), Seq::empty()),
        ),
        (WritingTask::SuggestDialogue, KindV::Dialogue(d)) => Some((d.speaker_name, d.emotion, d.text)),
        (WritingTask::CheckTone, KindV::Dialogue(d)) => Some((d.speaker_name, d.emotion, d.text)),
        _ => None,
    }
}

/// The request as values: speaker, emotion and text of a line, or prompt,
/// joined options and nothing of a choice.
pub open spec fn request_view(r: WritingRequest) -> (Seq<char>, Seq<char>, Seq<char>) {
    match r {
        WritingRequest::Line { speaker, emotion, text } => (speaker@, emotion@, text@),
        WritingRequest::Choice { prompt, context } => (prompt@, context@, Seq::empty()),
    }
}

/// The status shown while the task runs.
pub open spec fn running_text(task: WritingTask) -> Seq<char> {
    match task {
        WritingTask::SuggestDialogue => "Generating suggestions..."@,
        WritingTask::GenerateChoices => "Generating choice options..."@,
        WritingTask::CheckTone => "Checking tone..."@,
    }
}

/// Nothing but the status and the in-progress flags may have changed.
pub open spec fn only_flags_changed(a: AssistState, b: AssistState) -> bool {
    &&& rest_kept(a, b, seq![false, false, false, false])
}

/// Whether the string needs a translation into `loc`: none is stored, or an
/// empty one.
pub open spec fn needs_translation(ts: Seq<crate::locale::Translation>, key: Seq<char>, loc: Seq<char>) -> bool {
    match translation_of(ts, key, loc) {
        Some(t) => t.len() == 0,
        None => true,
    }
}

/// (key, text in the default locale) of the strings that need a translation
/// into `loc`, in order.
pub open spec fn to_translate(strings: Seq<StringV>, ts: Seq<crate::locale::Translation>, loc: Seq<char>) -> Seq<(Seq<char>, Seq<char>)>
    decreases strings.len(),
{
    if strings.len() == 0 {
        seq![]
    } else {
        let prev = to_translate(strings.drop_last(), ts, loc);
        let s = strings.last();
        if needs_translation(ts, s.0, loc) {
            prev.push((s.0, s.3))
        } else {
            prev
        }
    }
}

/// The texts, joined by ", ".
fn join_texts(opts: &Vec<ChoiceOption>) -> (r: String)
    ensures
        r@ == joined(opts@.map_values(|o: ChoiceOption| option_view(o)).map_values(|o: OptionV| o.text)),
{
    let ghost tv = opts@.map_values(|o: ChoiceOption| option_view(o)).map_values(|o: OptionV| o.text);
    let mut r = String::new();
    let mut i: usize = 0;
    assert(tv.take(0) =~= Seq::<Seq<char>>::empty());
    while i < opts.len()
        invariant
            i <= opts.len(),
            tv == opts@.map_values(|o: ChoiceOption| option_view(o)).map_values(|o: OptionV| o.text),
            r@ == joined(tv.take(i as int)),
        decreases opts.len() - i,
    {
        proof {
            assert(tv.take(i + 1).drop_last() =~= tv.take(i as int));
            assert(tv[i as int] == opts@[i as int].text@);
        }
        if i > 0 {
            push_str(&mut r, ", ");
        } else {
            assert(tv.take(0) =~= Seq::<Seq<char>>::empty());
            assert(r@ == Seq::<char>::empty());
        }
        push_str(&mut r, opts[i].text.as_str());
        proof {
            if i == 0 {
                assert(r@ =~= tv.take(1)[0]);
            }
        }
        i = i + 1;
    }
    assert(tv.take(opts.len() as int) =~= tv);
    r
}

fn has_key(key: &Option<String>) -> (r: bool)
    ensures
        r == key_given(*key),
{
    match key {
        Some(k) => k.as_str().unicode_len() > 0,
        None => false,
    }
}

impl AssistState {
    /// Prepares a request to the writing assistant for the first node with
    /// identifier `node_id`: nothing happens when there is no such node or
    /// it is not of the kind the task works on; without a key the status
    /// says so; otherwise the request is returned, the assistant is marked
    /// busy and the status says what runs.
    pub fn start_writing(&mut self, task: WritingTask, node_id: u128, api_key: &Option<String>) -> (r: Option<WritingRequest>)
        ensures
            ({
                let ns = nodes_view(old(self).graph.nodes@);
                let f = first_pos(ns, node_id);
                let req = if f >= 0 { request_for(task, ns[f]) } else { None };
                &&& only_flags_changed(*old(self), *final(self))
                &&& final(self).translation_in_progress == old(self).translation_in_progress
                &&& final(self).voice_generation_in_progress == old(self).voice_generation_in_progress
                &&& req is None ==> r is None && final(self).writing_in_progress == old(self).writing_in_progress
                    && final(self).status == old(self).status
                &&& req is Some && !key_given(*api_key) ==> r is None
                    && final(self).writing_in_progress == old(self).writing_in_progress
                    && shows(final(self).status, "AI API key not set \u{2014} open Settings"@, true)
                &&& req is Some && key_given(*api_key) ==> (r matches Some(q) && request_view(q) == req.unwrap()
                    && final(self).writing_in_progress && shows(final(self).status, running_text(task), false))
            }),
    {
        let found = find_node(&self.graph.nodes, node_id);
        proof {
            lemma_found(self.graph.nodes@, node_id, found);
            lemma_nodes_view(self.graph.nodes@);
        }
        let i = match found {
            Some(i) => i,
            None => {
                return None;
            },
        };
        assert(nodes_view(self.graph.nodes@)[i as int] == node_view(self.graph.nodes@[i as int]));
        let req = match (task, &self.graph.nodes[i].node_type) {
            (WritingTask::GenerateChoices, NodeType::Choice(c)) => WritingRequest::Choice {
                prompt: c.prompt.clone(),
                context: join_texts(&c.choices),
            },
            (WritingTask::SuggestDialogue, NodeType::Dialogue(d)) => WritingRequest::Line {
                speaker: d.speaker_name.clone(),
                emotion: d.emotion.clone(),
                text: d.text.clone(),
            },
            (WritingTask::CheckTone, NodeType::Dialogue(d)) => WritingRequest::Line {
                speaker: d.speaker_name.clone(),
                emotion: d.emotion.clone(),
                text: d.text.clone(),
            },
            _ => {
                return None;
            },
        };
        if !has_key(api_key) {
            self.status = message("AI API key not set \u{2014} open Settings", "", "", true);
            proof {
                reveal_strlit("");
            }
            return None;
        }
        self.writing_in_progress = true;
        let running = match task {
            WritingTask::SuggestDialogue => "Generating suggestions...",
            WritingTask::GenerateChoices => "Generating choice options...",
            WritingTask::CheckTone => "Checking tone...",
        };
        self.status = message(running, "", "", false);
        proof {
            reveal_strlit("");
        }
        Some(req)
    }

    /// Prepares a translation request into `target_locale`: without a key
    /// the status says so; when every translatable string already has a
    /// non-empty translation the status says that; otherwise the (key, text)
    /// pairs to translate are returned, translation is marked busy and the
    /// status says what runs.
    pub fn start_translation(&mut self, target_locale: &String, api_key: &Option<String>) -> (r: Option<Vec<(String, String)>>)
        ensures
            ({
                let pairs = to_translate(
                    translatable(nodes_view(old(self).graph.nodes@)),
                    old(self).graph.locale.translations@,
                    target_locale@,
                );
                &&& only_flags_changed(*old(self), *final(self))
                &&& final(self).voice_generation_in_progress == old(self).voice_generation_in_progress
                &&& final(self).writing_in_progress == old(self).writing_in_progress
                &&& !key_given(*api_key) ==> r is None && final(self).translation_in_progress == old(self).translation_in_progress
                    && shows(final(self).status, "DeepL API key not set \u{2014} open Settings"@, true)
                &&& key_given(*api_key) && pairs.len() == 0 ==> r is None
                    && final(self).translation_in_progress == old(self).translation_in_progress
                    && shows(final(self).status, "All strings already translated"@, false)
                &&& key_given(*api_key) && pairs.len() > 0 ==> (r matches Some(v)
                    && v@.map_values(|p: (String, String)| (p.0@, p.1@)) == pairs
                    && final(self).translation_in_progress
                    && shows(final(self).status, "Translating to '"@ + target_locale@ + "'..."@, false))
            }),
    {
        proof {
            reveal_strlit("");
        }
        if !has_key(api_key) {
            self.status = message("DeepL API key not set \u{2014} open Settings", "", "", true);
            return None;
        }
        let strings = collect_translatable_strings(&self.graph);
        let ghost sv = strings@.map_values(|t: TranslatableString| ts_view(t));
        let ghost ts = self.graph.locale.translations@;
        let mut pairs: Vec<(String, String)> = Vec::new();
        let mut i: usize = 0;
        assert(sv.take(0) =~= Seq::<StringV>::empty());
        while i < strings.len()
            invariant
                i <= strings.len(),
                sv == strings@.map_values(|t: TranslatableString| ts_view(t)),
                ts == self.graph.locale.translations@,
                pairs@.map_values(|p: (String, String)| (p.0@, p.1@)) == to_translate(sv.take(i as int), ts, target_locale@),
            decreases strings.len() - i,
        {
            proof {
                assert(sv.take(i + 1).drop_last() =~= sv.take(i as int));
                assert(sv.take(i + 1).last() == ts_view(strings@[i as int]));
            }
            let needed = match self.graph.locale.get_translation(strings[i].key.as_str(), target_locale.as_str()) {
                Some(t) => t.unicode_len() == 0,
                None => true,
            };
            if needed {
                let ghost before = pairs@;
                pairs.push((strings[i].key.clone(), strings[i].default_text.clone()));
                assert(pairs@.map_values(|p: (String, String)| (p.0@, p.1@)) =~= before.map_values(
                    |p: (String, String)| (p.0@, p.1@),
                ).push((strings@[i as int].key@, strings@[i as int].default_text@)));
            }
            i = i + 1;
        }
        assert(sv.take(strings.len() as int) =~= sv);
        if pairs.len() == 0 {
            self.status = message("All strings already translated", "", "", false);
            return None;
        }
        self.translation_in_progress = true;
        self.status = message("Translating to '", target_locale.as_str(), "'...", false);
        Some(pairs)
    }
}

// ---------------------------------------------------------------- voices

/// Unicode `White_Space`, the characters that `char::is_whitespace` (and so
/// `str::trim`) treats as space.
pub open spec fn is_space(c: char) -> bool {
    let u = c as u32;
    ||| 9 <= u <= 13
    ||| u == 32
    ||| u == 0x85
    ||| u == 0xA0
    ||| u == 0x1680
    ||| 0x2000 <= u <= 0x200A
    ||| u == 0x2028
    ||| u == 0x2029
    ||| u == 0x202F
    ||| u == 0x205F
    ||| u == 0x3000
}

/// Nothing but space: what trimming leaves empty.
pub open spec fn blank(s: Seq<char>) -> bool {
    forall|i: int| 0 <= i < s.len() ==> is_space(#[trigger] s[i])
}

fn space_char(c: char) -> (r: bool)
    ensures
        r == is_space(c),
{
    let u = c as u32;
    (9 <= u && u <= 13) || u == 32 || u == 0x85 || u == 0xA0 || u == 0x1680 || (0x2000 <= u && u <= 0x200A)
        || u == 0x2028 || u == 0x2029 || u == 0x202F || u == 0x205F || u == 0x3000
}

fn is_blank(s: &str) -> (r: bool)
    ensures
        r == blank(s@),
{
    let n = s.unicode_len();
    let mut i: usize = 0;
    while i < n
        invariant
            i <= n,
            n == s@.len(),
            forall|j: int| 0 <= j < i ==> is_space(#[trigger] s@[j]),
        decreases n - i,
    {
        if !space_char(s.get_char(i)) {
            return false;
        }
        i = i + 1;
    }
    true
}

/// The voice of the first character with identifier `id`, if that character
/// has one.
pub open spec fn voice_of(chars: Seq<crate::model::Character>, id: u128) -> Option<Seq<char>>
    decreases chars.len(),
{
    if chars.len() == 0 {
        None
    } else if chars[0].id == id {
        crate::model::opt_view(chars[0].voice_id)
    } else {
        voice_of(chars.drop_first(), id)
    }
}

/// The voice of a line's speaker.
pub open spec fn line_voice(chars: Seq<crate::model::Character>, d: DialogueV) -> Option<Seq<char>> {
    match d.speaker_id {
        Some(sid) => voice_of(chars, sid),
        None => None,
    }
}

/// What goes into a request for a voice line: the voice, the text, and the
/// file name `dlg_` + the first eight hex digits of the node + `.mp3`.
pub struct VoiceRequest {
    pub voice_id: String,
    pub text: String,
    pub file_name: String,
}

/// The outcome of asking for the voice of node `node_id` (see `start_voice`).
pub open spec fn voice_outcome(a: AssistState, b: AssistState, node_id: u128, key: Option<String>, r: Option<VoiceRequest>) -> bool {
    let ns = nodes_view(a.graph.nodes@);
    let f = first_pos(ns, node_id);
    &&& only_flags_changed(a, b)
    &&& b.translation_in_progress == a.translation_in_progress
    &&& b.writing_in_progress == a.writing_in_progress
    &&& if f < 0 || !(ns[f].kind is Dialogue) {
        r is None && b.voice_generation_in_progress == a.voice_generation_in_progress && b.status == a.status
    } else {
        let d = ns[f].kind->Dialogue_0;
        if line_voice(a.graph.characters@, d) is None {
            r is None && b.voice_generation_in_progress == a.voice_generation_in_progress
                && shows(b.status, "No voice assigned to character"@, true)
        } else if blank(d.text) {
            r is None && b.voice_generation_in_progress == a.voice_generation_in_progress
                && shows(b.status, "Dialogue text is empty"@, true)
        } else if !key_given(key) {
            r is None && b.voice_generation_in_progress == a.voice_generation_in_progress
                && shows(b.status, "ElevenLabs API key not set \u{2014} open Settings"@, true)
        } else {
            &&& r matches Some(q) && Some(q.voice_id@) == line_voice(a.graph.characters@, d) && q.text@ == d.text
                && q.file_name@ == "dlg_"@ + crate::ident::uuid_prefix8(node_id) + ".mp3"@
            &&& b.voice_generation_in_progress
            &&& shows(b.status, "Generating voice..."@, false)
        }
    }
}

/// A line that waits for a voice: no audio yet, some text, and a speaker
/// with a voice.
pub open spec fn waits(n: NodeV, chars: Seq<crate::model::Character>) -> bool {
    n.kind matches KindV::Dialogue(d) && d.audio_clip is None && !blank(d.text) && line_voice(chars, d) is Some
}

/// The position of the first line that waits for a voice; -1 when there is none.
pub open spec fn pending_voice(ns: Seq<NodeV>, chars: Seq<crate::model::Character>) -> int
    decreases ns.len(),
{
    if ns.len() == 0 {
        -1
    } else if waits(ns[0], chars) {
        0
    } else {
        let r = pending_voice(ns.drop_first(), chars);
        if r < 0 { -1 } else { r + 1 }
    }
}

fn find_voice(chars: &Vec<crate::model::Character>, id: u128) -> (r: Option<String>)
    ensures
        crate::model::opt_view(r) == voice_of(chars@, id),
{
    let mut i: usize = 0;
    assert(chars@.skip(0) =~= chars@);
    while i < chars.len()
        invariant
            i <= chars.len(),
            voice_of(chars@, id) == voice_of(chars@.skip(i as int), id),
        decreases chars.len() - i,
    {
        assert(chars@.skip(i as int).drop_first() =~= chars@.skip(i + 1));
        if chars[i].id == id {
            return match &chars[i].voice_id {
                Some(v) => Some(v.clone()),
                None => None,
            };
        }
        i = i + 1;
    }
    None
}

impl AssistState {
    /// Asks for the voice list: without a key the status says so (returns
    /// `false`); otherwise the status says the list is being fetched.
    pub fn start_fetch_voices(&mut self, api_key: &Option<String>) -> (r: bool)
        ensures
            r == key_given(*api_key),
            only_flags_changed(*old(self), *final(self)),
            final(self).translation_in_progress == old(self).translation_in_progress,
            final(self).voice_generation_in_progress == old(self).voice_generation_in_progress,
            final(self).writing_in_progress == old(self).writing_in_progress,
            r ==> shows(final(self).status, "Fetching voice list..."@, false),
            !r ==> shows(final(self).status, "ElevenLabs API key not set \u{2014} open Settings"@, true),
    {
        proof {
            reveal_strlit("");
        }
        if !has_key(api_key) {
            self.status = message("ElevenLabs API key not set \u{2014} open Settings", "", "", true);
            return false;
        }
        self.status = message("Fetching voice list...", "", "", false);
        true
    }

    /// Prepares a voice request for the first node with identifier
    /// `node_id` (see `voice_outcome`): nothing happens unless it is a line;
    /// the status reports a speaker without a voice, a blank text or a
    /// missing key, in that order; otherwise the request is returned and
    /// voice generation is marked busy.
    pub fn start_voice(&mut self, node_id: u128, api_key: &Option<String>) -> (r: Option<VoiceRequest>)
        ensures
            voice_outcome(*old(self), *final(self), node_id, *api_key, r),
    {
        proof {
            reveal_strlit("");
        }
        let found = find_node(&self.graph.nodes, node_id);
        proof {
            lemma_found(self.graph.nodes@, node_id, found);
            lemma_nodes_view(self.graph.nodes@);
        }
        let i = match found {
            Some(i) => i,
            None => {
                return None;
            },
        };
        assert(nodes_view(self.graph.nodes@)[i as int] == node_view(self.graph.nodes@[i as int]));
        let (voice, text) = match &self.graph.nodes[i].node_type {
            NodeType::Dialogue(d) => {
                let voice = match d.speaker_id {
                    Some(sid) => find_voice(&self.graph.characters, sid),
                    None => None,
                };
                (voice, d.text.clone())
            },
            _ => {
                return None;
            },
        };
        let voice_id = match voice {
            Some(v) => v,
            None => {
                self.status = message("No voice assigned to character", "", "", true);
                return None;
            },
        };
        if is_blank(text.as_str()) {
            self.status = message("Dialogue text is empty", "", "", true);
            return None;
        }
        if !has_key(api_key) {
            self.status = message("ElevenLabs API key not set \u{2014} open Settings", "", "", true);
            return None;
        }
        let mut file_name = owned("dlg_");
        let short = crate::locale_export::uuid8(node_id);
        push_str(&mut file_name, short.as_str());
        push_str(&mut file_name, ".mp3");
        self.voice_generation_in_progress = true;
        self.status = message("Generating voice...", "", "", false);
        Some(VoiceRequest { voice_id, text, file_name })
    }

    /// Prepares a voice request for the first line that waits for one (see
    /// `pending_voice`); when there is none the status says so.
    pub fn start_all_voices(&mut self, api_key: &Option<String>) -> (r: Option<VoiceRequest>)
        ensures
            ({
                let p = pending_voice(nodes_view(old(self).graph.nodes@), old(self).graph.characters@);
                &&& p >= 0 ==> voice_outcome(*old(self), *final(self), nodes_view(old(self).graph.nodes@)[p].id, *api_key, r)
                &&& p < 0 ==> r is None && only_flags_changed(*old(self), *final(self))
                    && final(self).translation_in_progress == old(self).translation_in_progress
                    && final(self).voice_generation_in_progress == old(self).voice_generation_in_progress
                    && final(self).writing_in_progress == old(self).writing_in_progress
                    && shows(final(self).status, "No pending voice generation"@, false)
            }),
    {
        proof {
            reveal_strlit("");
            lemma_nodes_view(self.graph.nodes@);
        }
        let ghost ns = nodes_view(self.graph.nodes@);
        let mut i: usize = 0;
        assert(ns.skip(0) =~= ns);
        while i < self.graph.nodes.len()
            invariant
                i <= self.graph.nodes.len(),
                *self == *old(self),
                ns == nodes_view(self.graph.nodes@),
                ns.len() == self.graph.nodes.len(),
                forall|q: int| 0 <= q < self.graph.nodes.len() ==> #[trigger] ns[q] == node_view(self.graph.nodes@[q]),
                pending_voice(ns, self.graph.characters@) == {
                    let r = pending_voice(ns.skip(i as int), self.graph.characters@);
                    if r < 0 { -1 } else { r + i }
                },
            decreases self.graph.nodes.len() - i,
        {
            assert(ns.skip(i as int).drop_first() =~= ns.skip(i + 1));
            assert(ns.skip(i as int)[0] == ns[i as int]);
            let waiting = match &self.graph.nodes[i].node_type {
                NodeType::Dialogue(d) => {
                    if d.audio_clip.is_some() || is_blank(d.text.as_str()) {
                        false
                    } else {
                        match d.speaker_id {
                            Some(sid) => find_voice(&self.graph.characters, sid).is_some(),
                            None => false,
                        }
                    }
                },
                _ => false,
            };
            assert(waiting == waits(ns[i as int], self.graph.characters@));
            if waiting {
                let id = self.graph.nodes[i].id;
                proof {
                    assert(pending_voice(ns.skip(i as int), self.graph.characters@) == 0);
                    assert(pending_voice(ns, self.graph.characters@) == i);
                    assert(ns[i as int].id == id);
                }
                return self.start_voice(id, api_key);
            }
            i = i + 1;
        }
        assert(ns.skip(i as int) =~= Seq::<NodeV>::empty());
        assert(pending_voice(ns.skip(i as int), self.graph.characters@) == -1);
        assert(pending_voice(ns, self.graph.characters@) == -1);
        self.status = message("No pending voice generation", "", "", false);
        None
    }
}

} // verus!
