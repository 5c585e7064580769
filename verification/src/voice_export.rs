//! The voice script: one CSV row per dialogue line, for recording sessions.

use vstd::prelude::*;
use crate::bark_export::text_or_empty;
use crate::csv::{escape_text, escaped_line, row_view, write_escaped_row};
use crate::text::{begins_with, ends_with, lemma_affixes_concat, lemma_affixes_of, lemma_occurs_within, occurs_at};
use crate::model::{
    Character, CharacterV, DialogueData, DialogueGraph, DialogueV, KindV, NodeType, character_view, dialogue_view,
    graph_view, lemma_nodes_view, node_view,
};
use crate::model::GraphV;
use crate::readable::{build_id_map, entries_view, id_entries, lookup_id, lookup_last, node_order, sorted_node_indices};

verus! {

/// The first character with identifier `id`.
pub open spec fn character_with(chars: Seq<CharacterV>, id: u128) -> Option<CharacterV>
    decreases chars.len(),
{
    if chars.len() == 0 {
        None
    } else if chars[0].id == id {
        Some(chars[0])
    } else {
        character_with(chars.drop_first(), id)
    }
}

/// The speaker of a line: the name of its character when it names one that
/// exists, its free-text speaker name otherwise.
pub open spec fn speaker_of(chars: Seq<CharacterV>, d: DialogueV) -> Seq<char> {
    match d.speaker_id {
        Some(sid) => match character_with(chars, sid) {
            Some(c) => c.name,
            None => d.speaker_name,
        },
        None => d.speaker_name,
    }
}

/// The value stored under `key` in a line's notes: that of its last entry.
pub open spec fn meta_get(md: Seq<(Seq<char>, Seq<char>)>, key: Seq<char>) -> Option<Seq<char>>
    decreases md.len(),
{
    if md.len() == 0 {
        None
    } else if md.last().0 == key {
        Some(md.last().1)
    } else {
        meta_get(md.drop_last(), key)
    }
}

/// One row: line id, speaker, text, emotion, audio file, duration and notes.
pub open spec fn voice_row(line_id: Seq<char>, chars: Seq<CharacterV>, d: DialogueV) -> Seq<char> {
    escaped_line(seq![
        line_id,
        speaker_of(chars, d),
        d.text,
        d.emotion,
        text_or_empty(d.audio_clip),
        text_or_empty(meta_get(d.metadata, "duration"@)),
        text_or_empty(meta_get(d.metadata, "notes"@)),
    ]) + seq!['\n']
}

/// How a voice row ends: the line's `duration` note under the Duration
/// column, then its `notes` note under the Notes column, each quoted as
/// needed (empty where the note is missing).
pub open spec fn voice_row_tail(d: DialogueV) -> Seq<char> {
    seq![','] + escape_text(text_or_empty(meta_get(d.metadata, "duration"@))) + seq![',']
        + escape_text(text_or_empty(meta_get(d.metadata, "notes"@))) + seq!['\n']
}

/// Every row of the voice script ends with the line's `duration` note and
/// then its `notes` note, in the order of the header's last two columns
/// `Duration,Notes`.
pub proof fn law_voice_row_columns(line_id: Seq<char>, chars: Seq<CharacterV>, d: DialogueV)
    ensures
        ends_with(voice_row(line_id, chars, d), voice_row_tail(d)),
{
    let r = seq![
        line_id,
        speaker_of(chars, d),
        d.text,
        d.emotion,
        text_or_empty(d.audio_clip),
        text_or_empty(meta_get(d.metadata, "duration"@)),
        text_or_empty(meta_get(d.metadata, "notes"@)),
    ];
    assert(r.drop_last().last() == text_or_empty(meta_get(d.metadata, "duration"@)));
    assert(r.drop_last().drop_last().len() == 5);
    let head = escaped_line(r.drop_last().drop_last());
    assert(escaped_line(r.drop_last()) == head + seq![','] + escape_text(r.drop_last().last()));
    assert(escaped_line(r) == escaped_line(r.drop_last()) + seq![','] + escape_text(r.last()));
    assert(voice_row(line_id, chars, d) =~= head + voice_row_tail(d));
    lemma_affixes_of(head, voice_row_tail(d));
}

/// An identifier that some entry carries is found.
proof fn lemma_lookup_found(entries: Seq<(u128, Seq<char>)>, id: u128, k: int)
    requires
        0 <= k < entries.len(),
        entries[k].0 == id,
    ensures
        lookup_last(entries, id) is Some,
    decreases entries.len(),
{
    if entries.last().0 != id {
        assert(entries.drop_last()[k] == entries[k]);
        lemma_lookup_found(entries.drop_last(), id, k);
    }
}

/// The row of the dialogue node at place `q` of the order stands among the
/// rows of the first `k` places.
proof fn lemma_voice_rows_hold(g: GraphV, entries: Seq<(u128, Seq<char>)>, o: Seq<int>, k: int, q: int, lid: Seq<char>, d: DialogueV)
    requires
        0 <= q < k,
        g.nodes[o[q]].kind == KindV::Dialogue(d),
        lookup_last(entries, g.nodes[o[q]].id) == Some(lid),
    ensures
        exists|i: int| occurs_at(voice_rows(g, entries, o, k), voice_row(lid, g.characters, d), i),
    decreases k,
{
    let prev = voice_rows(g, entries, o, k - 1);
    let n = g.nodes[o[k - 1]];
    let last = match n.kind {
        KindV::Dialogue(d2) => match lookup_last(entries, n.id) {
            Some(l) => voice_row(l, g.characters, d2),
            None => seq![],
        },
        _ => seq![],
    };
    assert(voice_rows(g, entries, o, k) == prev + last);
    let t = voice_row(lid, g.characters, d);
    if q == k - 1 {
        assert(last == t);
        assert(last.subrange(0, last.len() as int) =~= last);
        lemma_occurs_within(prev, last, seq![], t, 0);
        assert(prev + last + seq![] =~= prev + last);
    } else {
        lemma_voice_rows_hold(g, entries, o, k - 1, q, lid, d);
        let i = choose|i: int| occurs_at(prev, t, i);
        lemma_occurs_within(seq![], prev, last, t, i);
        assert(seq![] + prev + last =~= prev + last);
    }
}

/// The voice script holds a row for every dialogue node, under the node's
/// readable identifier, and that row ends with the line's `duration` note
/// and then its `notes` note.
pub proof fn law_voice_sheet_rows(g: GraphV, j: int, d: DialogueV)
    requires
        0 <= j < g.nodes.len(),
        g.nodes[j].kind == KindV::Dialogue(d),
    ensures
        lookup_last(id_entries(g), g.nodes[j].id) is Some,
        ({
            let row = voice_row(lookup_last(id_entries(g), g.nodes[j].id)->Some_0, g.characters, d);
            &&& exists|i: int| occurs_at(voice_sheet(g), row, i)
            &&& ends_with(row, voice_row_tail(d))
        }),
{
    let entries = id_entries(g);
    let o = node_order(g.nodes);
    crate::readable::lemma_order_len(g.nodes, g.nodes.len() as int);
    crate::readable::lemma_order_covers(g.nodes, g.nodes.len() as int, j);
    let q = choose|q: int| 0 <= q < o.len() && o[q] == j;
    assert(entries[q].0 == g.nodes[j].id);
    lemma_lookup_found(entries, g.nodes[j].id, q);
    let lid = lookup_last(entries, g.nodes[j].id)->Some_0;
    lemma_voice_rows_hold(g, entries, o, o.len() as int, q, lid, d);
    let rows = voice_rows(g, entries, o, o.len() as int);
    let row = voice_row(lid, g.characters, d);
    let i = choose|i: int| occurs_at(rows, row, i);
    let head = "LineID,Speaker,Text,Emotion,AudioFile,Duration,Notes\n"@;
    assert(voice_sheet(g) =~= head + rows + seq![]);
    lemma_occurs_within(head, rows, seq![], row, i);
    law_voice_row_columns(lid, g.characters, d);
}

/// The voice script opens with its header line, whose last two columns are
/// `Duration` and then `Notes`.
pub proof fn law_voice_header(g: GraphV)
    ensures
        begins_with(voice_sheet(g), "LineID,Speaker,Text,Emotion,AudioFile,"@ + "Duration,Notes\n"@),
{
    reveal_strlit("LineID,Speaker,Text,Emotion,AudioFile,Duration,Notes\n");
    reveal_strlit("LineID,Speaker,Text,Emotion,AudioFile,");
    reveal_strlit("Duration,Notes\n");
    let h = "LineID,Speaker,Text,Emotion,AudioFile,Duration,Notes\n"@;
    assert(h =~= "LineID,Speaker,Text,Emotion,AudioFile,"@ + "Duration,Notes\n"@);
    let o = node_order(g.nodes);
    lemma_affixes_of(h, voice_rows(g, id_entries(g), o, o.len() as int));
}

/// The rows of the dialogue nodes among the first `k` places of the order.
pub open spec fn voice_rows(g: GraphV, entries: Seq<(u128, Seq<char>)>, o: Seq<int>, k: int) -> Seq<char>
    decreases k,
{
    if k <= 0 {
        seq![]
    } else {
        voice_rows(g, entries, o, k - 1) + {
            let n = g.nodes[o[k - 1]];
            match n.kind {
                KindV::Dialogue(d) => match lookup_last(entries, n.id) {
                    Some(lid) => voice_row(lid, g.characters, d),
                    None => seq![],
                },
                _ => seq![],
            }
        }
    }
}

/// The voice script of a graph: a header and a row per dialogue line, the
/// lines in canvas order (that of their readable identifiers).
pub open spec fn voice_sheet(g: GraphV) -> Seq<char> {
    let o = node_order(g.nodes);
    "LineID,Speaker,Text,Emotion,AudioFile,Duration,Notes\n"@ + voice_rows(g, id_entries(g), o, o.len() as int)
}

pub open spec fn characters_view(chars: Seq<Character>) -> Seq<CharacterV> {
    chars.map_values(|c: Character| character_view(c))
}

fn find_character<'a>(chars: &'a Vec<Character>, id: u128) -> (r: Option<&'a Character>)
    ensures
        match r {
            Some(c) => character_with(characters_view(chars@), id) == Some(character_view(*c)),
            None => character_with(characters_view(chars@), id) is None,
        },
{
    let ghost cv = characters_view(chars@);
    let mut i: usize = 0;
    assert(cv.skip(0) =~= cv);
    while i < chars.len()
        invariant
            i <= chars.len(),
            cv == characters_view(chars@),
            character_with(cv, id) == character_with(cv.skip(i as int), id),
        decreases chars.len() - i,
    {
        assert(cv.skip(i as int).drop_first() =~= cv.skip(i + 1));
        assert(cv.skip(i as int)[0] == character_view(chars@[i as int]));
        if chars[i].id == id {
            return Some(&chars[i]);
        }
        i = i + 1;
    }
    assert(cv.skip(i as int) =~= Seq::<CharacterV>::empty());
    None
}

fn meta_value(md: &Vec<(String, String)>, key: &str) -> (r: String)
    ensures
        r@ == text_or_empty(meta_get(crate::model::pairs_view(md@), key@)),
{
    let ghost mv = crate::model::pairs_view(md@);
    let mut k: usize = md.len();
    assert(mv.take(k as int) =~= mv);
    while k > 0
        invariant
            k <= md.len(),
            mv == crate::model::pairs_view(md@),
            meta_get(mv, key@) == meta_get(mv.take(k as int), key@),
        decreases k,
    {
        assert(mv.take(k as int).drop_last() =~= mv.take(k - 1));
        if crate::text::str_eq(md[k - 1].0.as_str(), key) {
            return md[k - 1].1.clone();
        }
        k = k - 1;
    }
    String::new()
}

fn speaker_text<'a>(chars: &'a Vec<Character>, d: &'a DialogueData) -> (r: &'a str)
    ensures
        r@ == speaker_of(characters_view(chars@), dialogue_view(*d)),
{
    match d.speaker_id {
        Some(sid) => match find_character(chars, sid) {
            Some(c) => c.name.as_str(),
            None => d.speaker_name.as_str(),
        },
        None => d.speaker_name.as_str(),
    }
}

fn push_voice_row(out: &mut String, line_id: &String, chars: &Vec<Character>, d: &DialogueData)
    ensures
        final(out)@ == old(out)@ + voice_row(line_id@, characters_view(chars@), dialogue_view(*d)),
        ends_with(final(out)@, voice_row_tail(dialogue_view(*d))),
{
    let ghost m = out@;
    let speaker = speaker_text(chars, d);
    let audio: &str = match &d.audio_clip {
        Some(a) => a.as_str(),
        None => "",
    };
    proof {
        reveal_strlit("");
    }
    assert(audio@ == text_or_empty(dialogue_view(*d).audio_clip));
    let duration = meta_value(&d.metadata, "duration");
    let notes = meta_value(&d.metadata, "notes");
    let mut fields: Vec<String> = Vec::new();
    fields.push(line_id.clone());
    fields.push(crate::text::owned(speaker));
    fields.push(d.text.clone());
    fields.push(d.emotion.clone());
    fields.push(crate::text::owned(audio));
    fields.push(duration);
    fields.push(notes);
    assert(row_view(fields@) =~= seq![
        line_id@,
        speaker_of(characters_view(chars@), dialogue_view(*d)),
        dialogue_view(*d).text,
        dialogue_view(*d).emotion,
        text_or_empty(dialogue_view(*d).audio_clip),
        text_or_empty(meta_get(dialogue_view(*d).metadata, "duration"@)),
        text_or_empty(meta_get(dialogue_view(*d).metadata, "notes"@)),
    ]);
    write_escaped_row(out, &fields);
    proof {
        let row = voice_row(line_id@, characters_view(chars@), dialogue_view(*d));
        law_voice_row_columns(line_id@, characters_view(chars@), dialogue_view(*d));
        lemma_affixes_concat(m, row, seq![], voice_row_tail(dialogue_view(*d)));
    }
}

/// The voice script of the graph: the header
/// `LineID,Speaker,Text,Emotion,AudioFile,Duration,Notes` and one row per
/// dialogue node in canvas order, with its readable identifier, the speaker
/// (the character's name when the line names one), the text, the emotion, the
/// audio file and the `duration` and `notes` entries of its notes; fields are
/// quoted as needed. `name` is not used.
pub fn export_voice_csv(graph: &DialogueGraph, name: &str) -> (r: String)
    ensures
        r@ == voice_sheet(graph_view(*graph)),
{
    let entries = build_id_map(graph);
    let order = sorted_node_indices(&graph.nodes);
    let ghost gv = graph_view(*graph);
    let ghost o = node_order(gv.nodes);
    let ghost ev = id_entries(gv);
    proof {
        lemma_nodes_view(graph.nodes@);
    }
    assert(gv.characters == characters_view(graph.characters@));
    let mut out = crate::text::owned("LineID,Speaker,Text,Emotion,AudioFile,Duration,Notes\n");
    let ghost head = out@;
    let mut p: usize = 0;
    while p < order.len()
        invariant
            p <= order.len(),
            order@.map_values(|i: usize| i as int) == o,
            gv == graph_view(*graph),
            gv.nodes.len() == graph.nodes.len(),
            forall|q: int| 0 <= q < graph.nodes.len() ==> #[trigger] gv.nodes[q] == node_view(graph.nodes@[q]),
            gv.characters == characters_view(graph.characters@),
            o == node_order(gv.nodes),
            forall|q: int| 0 <= q < order.len() ==> #[trigger] order@[q] < graph.nodes.len(),
            ev == id_entries(gv),
            entries_view(entries@) == ev,
            head == "LineID,Speaker,Text,Emotion,AudioFile,Duration,Notes\n"@,
            out@ == head + voice_rows(gv, ev, o, p as int),
        decreases order.len() - p,
    {
        let i = order[p];
        assert(o[p as int] == i as int);
        let n = &graph.nodes[i];
        assert(gv.nodes[i as int] == node_view(*n));
        let ghost before = out@;
        match &n.node_type {
            NodeType::Dialogue(d) => {
                match lookup_id(&entries, n.id) {
                    Some(lid) => {
                        push_voice_row(&mut out, &lid, &graph.characters, d);
                    },
                    None => {},
                }
            },
            _ => {},
        }
        assert(out@ =~= head + voice_rows(gv, ev, o, p + 1));
        p = p + 1;
    }
    assert(o.len() == order.len());
    out
}

} // verus!
