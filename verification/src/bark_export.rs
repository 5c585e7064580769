//! The bark sheet: every ambient line of every character as one CSV row.

use vstd::prelude::*;
use crate::csv::{escape_text, csv_escape, push_str};
use crate::model::{BarkLine, Character, DialogueGraph, opt_view};
use crate::text::{decimal, digit_char, push_char, push_decimal};

verus! {

/// The lines stored for character `id`: those of its last entry.
pub open spec fn barks_of(barks: Seq<(u128, Vec<BarkLine>)>, id: u128) -> Option<Seq<BarkLine>>
    decreases barks.len(),
{
    if barks.len() == 0 {
        None
    } else if barks.last().0 == id {
        Some(barks.last().1@)
    } else {
        barks_of(barks.drop_last(), id)
    }
}

/// A weight counted in hundredths, written with two decimals ("1.00").
pub open spec fn weight_text(w: u32) -> Seq<char> {
    decimal((w / 100) as nat) + seq!['.', digit_char(((w % 100) / 10) as int), digit_char((w % 10) as int)]
}

pub open spec fn text_or_empty(o: Option<Seq<char>>) -> Seq<char> {
    match o {
        Some(t) => t,
        None => seq![],
    }
}

/// One row: character name, text, weight and condition variable.
pub open spec fn bark_row(name: Seq<char>, b: BarkLine) -> Seq<char> {
    escape_text(name) + seq![','] + escape_text(b.text@) + seq![','] + weight_text(b.weight) + seq![',']
        + escape_text(text_or_empty(opt_view(b.condition_variable))) + seq!['\n']
}

pub open spec fn bark_rows(name: Seq<char>, lines: Seq<BarkLine>) -> Seq<char>
    decreases lines.len(),
{
    if lines.len() == 0 {
        seq![]
    } else {
        bark_rows(name, lines.drop_last()) + bark_row(name, lines.last())
    }
}

pub open spec fn character_rows(barks: Seq<(u128, Vec<BarkLine>)>, chars: Seq<Character>) -> Seq<char>
    decreases chars.len(),
{
    if chars.len() == 0 {
        seq![]
    } else {
        character_rows(barks, chars.drop_last()) + match barks_of(barks, chars.last().id) {
            Some(lines) => bark_rows(chars.last().name@, lines),
            None => seq![],
        }
    }
}

/// The whole sheet: a header and the rows of the characters in order.
pub open spec fn bark_sheet(g: DialogueGraph) -> Seq<char> {
    "CharacterName,Text,Weight,Condition\n"@ + character_rows(g.barks@, g.characters@)
}

fn digit(d: u32) -> (c: char)
    requires
        d < 10,
    ensures
        c == digit_char(d as int),
{
    let t = crate::text::decimal_text(d as u64);
    proof {
        assert(decimal(d as nat) == seq![digit_char(d as int)]);
    }
    t.as_str().get_char(0)
}

fn push_weight(out: &mut String, w: u32)
    ensures
        final(out)@ == old(out)@ + weight_text(w),
{
    push_decimal(out, (w / 100) as u64);
    push_char(out, '.');
    push_char(out, digit((w % 100) / 10));
    push_char(out, digit(w % 10));
    assert(out@ =~= old(out)@ + weight_text(w));
}

fn lines_of(barks: &Vec<(u128, Vec<BarkLine>)>, id: u128) -> (r: Option<&Vec<BarkLine>>)
    ensures
        match r {
            Some(v) => barks_of(barks@, id) == Some(v@),
            None => barks_of(barks@, id) is None,
        },
{
    let mut k: usize = barks.len();
    assert(barks@.take(k as int) =~= barks@);
    while k > 0
        invariant
            k <= barks.len(),
            barks_of(barks@, id) == barks_of(barks@.take(k as int), id),
        decreases k,
    {
        assert(barks@.take(k as int).drop_last() =~= barks@.take(k - 1));
        if barks[k - 1].0 == id {
            return Some(&barks[k - 1].1);
        }
        k = k - 1;
    }
    None
}

fn push_bark_row(out: &mut String, name: &String, b: &BarkLine)
    ensures
        final(out)@ == old(out)@ + bark_row(name@, *b),
{
    let n = csv_escape(name.as_str());
    push_str(out, n.as_str());
    push_char(out, ',');
    let text = csv_escape(b.text.as_str());
    push_str(out, text.as_str());
    push_char(out, ',');
    push_weight(out, b.weight);
    push_char(out, ',');
    let cond = match &b.condition_variable {
        Some(c) => csv_escape(c.as_str()),
        None => csv_escape(""),
    };
    proof {
        reveal_strlit("");
    }
    push_str(out, cond.as_str());
    push_char(out, '\n');
    assert(out@ =~= old(out)@ + bark_row(name@, *b));
}

/// The bark sheet of the graph: the header `CharacterName,Text,Weight,Condition`
/// and, for each character in order that has bark lines, one row per line
/// with the name, the text, the weight with two decimals and the condition
/// variable (empty when there is none); text fields are quoted as needed.
pub fn export_bark_csv(graph: &DialogueGraph) -> (r: String)
    ensures
        r@ == bark_sheet(*graph),
{
    let mut out = crate::text::owned("CharacterName,Text,Weight,Condition\n");
    let ghost head = out@;
    let mut i: usize = 0;
    assert(graph.characters@.take(0) =~= Seq::<Character>::empty());
    while i < graph.characters.len()
        invariant
            i <= graph.characters.len(),
            head == "CharacterName,Text,Weight,Condition\n"@,
            out@ == head + character_rows(graph.barks@, graph.characters@.take(i as int)),
        decreases graph.characters.len() - i,
    {
        let ch = &graph.characters[i];
        let ghost before = out@;
        match lines_of(&graph.barks, ch.id) {
            Some(lines) => {
                let mut k: usize = 0;
                assert(lines@.take(0) =~= Seq::<BarkLine>::empty());
                assert(out@ =~= before + bark_rows(ch.name@, lines@.take(0)));
                while k < lines.len()
                    invariant
                        k <= lines.len(),
                        out@ == before + bark_rows(ch.name@, lines@.take(k as int)),
                    decreases lines.len() - k,
                {
                    let b = &lines[k];
                    push_bark_row(&mut out, &ch.name, b);
                    proof {
                        assert(lines@.take(k + 1).drop_last() =~= lines@.take(k as int));
                        assert(lines@.take(k + 1).last() == *b);
                        assert(out@ =~= before + bark_rows(ch.name@, lines@.take(k + 1)));
                    }
                    k = k + 1;
                }
                assert(lines@.take(lines.len() as int) =~= lines@);
            },
            None => {},
        }
        proof {
            assert(graph.characters@.take(i + 1).drop_last() =~= graph.characters@.take(i as int));
            assert(graph.characters@.take(i + 1).last() == *ch);
            assert(out@ =~= head + character_rows(graph.barks@, graph.characters@.take(i + 1)));
        }
        i = i + 1;
    }
    assert(graph.characters@.take(graph.characters.len() as int) =~= graph.characters@);
    out
}

} // verus!
