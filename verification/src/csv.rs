//! Comma-separated values: quoting a field, writing a table, and reading rows
//! back, with quoted fields that may hold commas, quotes and line breaks.

use vstd::prelude::*;
use crate::text::{push_char, contains_char};

verus! {

/// A table of rows of fields, each field a text.
pub type Table = Seq<Seq<Seq<char>>>;

/// The text that a quote character stands for inside a quoted field.
pub open spec fn quote_piece(c: char) -> Seq<char> {
    if c == '"' { seq!['"', '"'] } else { seq![c] }
}

/// `s` with every double quote doubled.
pub open spec fn double_quotes(s: Seq<char>) -> Seq<char>
    decreases s.len(),
{
    if s.len() == 0 {
        seq![]
    } else {
        quote_piece(s[0]) + double_quotes(s.drop_first())
    }
}

/// Whether `s` holds a comma, a double quote, or (when `with_cr`) a line feed
/// or carriage return, or (otherwise) a line feed.
pub open spec fn needs_quotes(s: Seq<char>, with_cr: bool) -> bool {
    exists|i: int|
        0 <= i < s.len() && (s[i] == ',' || s[i] == '"' || s[i] == '\n' || (with_cr && s[i] == '\r'))
}

/// The field as written: in double quotes with inner quotes doubled when it
/// needs quoting, as it is otherwise.
pub open spec fn quoted(s: Seq<char>, with_cr: bool) -> Seq<char> {
    if needs_quotes(s, with_cr) {
        seq!['"'] + double_quotes(s) + seq!['"']
    } else {
        s
    }
}

/// A field of a translation table: quoted when it holds `,` `"` `\n` or `\r`.
pub open spec fn field_text(s: Seq<char>) -> Seq<char> {
    quoted(s, true)
}

/// A field of a bark or voice sheet: quoted when it holds `,` `"` or `\n`.
pub open spec fn escape_text(s: Seq<char>) -> Seq<char> {
    quoted(s, false)
}

/// The fields of a row, each written by `field_text`, joined by commas.
pub open spec fn row_body(r: Seq<Seq<char>>) -> Seq<char>
    decreases r.len(),
{
    if r.len() <= 1 {
        if r.len() == 1 { field_text(r[0]) } else { seq![] }
    } else {
        row_body(r.drop_last()) + seq![','] + field_text(r.last())
    }
}

/// A row as written: its body and a line feed.
pub open spec fn row_text(r: Seq<Seq<char>>) -> Seq<char> {
    row_body(r) + seq!['\n']
}

/// A table as written: its rows one after the other.
pub open spec fn table_text(t: Table) -> Seq<char>
    decreases t.len(),
{
    if t.len() == 0 {
        seq![]
    } else {
        row_text(t[0]) + table_text(t.drop_first())
    }
}

/// What the reader holds between two characters: the rows read so far, the
/// fields of the current row, the current field and whether it is inside quotes.
pub struct ReadState {
    pub rows: Table,
    pub row: Seq<Seq<char>>,
    pub field: Seq<char>,
    pub in_quotes: bool,
}

pub open spec fn start_state() -> ReadState {
    ReadState { rows: seq![], row: seq![], field: seq![], in_quotes: false }
}

pub open spec fn with_field(st: ReadState, f: Seq<char>) -> ReadState {
    ReadState { rows: st.rows, row: st.row, field: f, in_quotes: st.in_quotes }
}

pub open spec fn with_quotes(st: ReadState, q: bool) -> ReadState {
    ReadState { rows: st.rows, row: st.row, field: st.field, in_quotes: q }
}

/// The current field ends at a comma.
pub open spec fn end_field(st: ReadState) -> ReadState {
    ReadState { rows: st.rows, row: st.row.push(st.field), field: seq![], in_quotes: false }
}

/// The current field and row end at a line break.
pub open spec fn end_row(st: ReadState) -> ReadState {
    ReadState { rows: st.rows.push(st.row.push(st.field)), row: seq![], field: seq![], in_quotes: false }
}

/// Reads the characters of `s` from state `st`. Inside quotes a doubled quote
/// stands for one quote and a single quote closes the field; outside quotes a
/// quote opens them, a comma ends the field, and `\n`, `\r` or `\r\n` ends the row.
pub open spec fn read_from(s: Seq<char>, st: ReadState) -> ReadState
    decreases s.len(),
{
    if s.len() == 0 {
        st
    } else if st.in_quotes {
        if s[0] == '"' {
            if s.len() > 1 && s[1] == '"' {
                read_from(s.skip(2), with_field(st, st.field.push('"')))
            } else {
                read_from(s.skip(1), with_quotes(st, false))
            }
        } else {
            read_from(s.skip(1), with_field(st, st.field.push(s[0])))
        }
    } else if s[0] == '"' {
        read_from(s.skip(1), with_quotes(st, true))
    } else if s[0] == ',' {
        read_from(s.skip(1), end_field(st))
    } else if s[0] == '\n' {
        read_from(s.skip(1), end_row(st))
    } else if s[0] == '\r' {
        if s.len() > 1 && s[1] == '\n' {
            read_from(s.skip(2), end_row(st))
        } else {
            read_from(s.skip(1), end_row(st))
        }
    } else {
        read_from(s.skip(1), with_field(st, st.field.push(s[0])))
    }
}

/// The rows of a text: those read, and the last one when the text does not end
/// with a line break.
pub open spec fn read_table(s: Seq<char>) -> Table {
    let st = read_from(s, start_state());
    if st.field.len() > 0 || st.row.len() > 0 {
        st.rows.push(st.row.push(st.field))
    } else {
        st.rows
    }
}

// ------------------------------------------------------------ lemmas

proof fn lemma_double_quotes_push(s: Seq<char>, c: char)
    ensures
        double_quotes(s.push(c)) == double_quotes(s) + quote_piece(c),
    decreases s.len(),
{
    if s.len() == 0 {
        assert(s.push(c).drop_first() =~= Seq::<char>::empty());
        assert(double_quotes(s.push(c)) == quote_piece(c) + double_quotes(Seq::<char>::empty()));
        assert(double_quotes(s.push(c)) =~= double_quotes(s) + quote_piece(c));
    } else {
        assert(s.push(c).drop_first() =~= s.drop_first().push(c));
        lemma_double_quotes_push(s.drop_first(), c);
        assert(double_quotes(s.push(c)) =~= double_quotes(s) + quote_piece(c));
    }
}

proof fn lemma_row_body_front(r: Seq<Seq<char>>)
    requires
        r.len() >= 2,
    ensures
        row_body(r) == field_text(r[0]) + seq![','] + row_body(r.drop_first()),
    decreases r.len(),
{
    if r.len() == 2 {
        assert(r.drop_last().len() == 1);
        assert(r.drop_first().len() == 1);
        assert(row_body(r.drop_last()) == field_text(r[0]));
        assert(row_body(r.drop_first()) == field_text(r[1]));
    } else {
        lemma_row_body_front(r.drop_last());
        assert(r.drop_last().drop_first() =~= r.drop_first().drop_last());
        assert(r.drop_first().last() == r.last());
        assert(row_body(r) =~= field_text(r[0]) + seq![','] + row_body(r.drop_first()));
    }
}

proof fn lemma_table_text_push(t: Table, r: Seq<Seq<char>>)
    ensures
        table_text(t.push(r)) == table_text(t) + row_text(r),
    decreases t.len(),
{
    if t.len() == 0 {
        assert(t.push(r).drop_first() =~= t);
        assert(table_text(t.push(r)) =~= table_text(t) + row_text(r));
    } else {
        assert(t.push(r).drop_first() =~= t.drop_first().push(r));
        lemma_table_text_push(t.drop_first(), r);
        assert(table_text(t.push(r)) =~= table_text(t) + row_text(r));
    }
}

/// Unquoted text without separators or quotes is read into the current field.
proof fn lemma_read_plain(x: Seq<char>, rest: Seq<char>, st: ReadState)
    requires
        !st.in_quotes,
        !needs_quotes(x, true),
    ensures
        read_from(x + rest, st) == read_from(rest, with_field(st, st.field + x)),
    decreases x.len(),
{
    if x.len() == 0 {
        assert(x + rest =~= rest);
        assert(st.field + x =~= st.field);
        assert(with_field(st, st.field + x) == st);
    } else {
        let s = x + rest;
        assert(s[0] == x[0]);
        assert(!(x[0] == ',' || x[0] == '"' || x[0] == '\n' || x[0] == '\r'));
        assert(s.skip(1) =~= x.drop_first() + rest);
        let st2 = with_field(st, st.field.push(x[0]));
        assert(!needs_quotes(x.drop_first(), true)) by {
            assert forall|i: int| 0 <= i < x.drop_first().len() implies
                !(x.drop_first()[i] == ',' || x.drop_first()[i] == '"' || x.drop_first()[i] == '\n'
                    || x.drop_first()[i] == '\r') by {
                assert(x.drop_first()[i] == x[i + 1]);
            }
        }
        lemma_read_plain(x.drop_first(), rest, st2);
        assert(st.field.push(x[0]) + x.drop_first() =~= st.field + x);
    }
}

/// The inside of a quoted field and its closing quote are read into the
/// current field, when what follows does not start with a quote.
proof fn lemma_read_quoted(x: Seq<char>, rest: Seq<char>, st: ReadState)
    requires
        st.in_quotes,
        rest.len() == 0 || rest[0] != '"',
    ensures
        read_from(double_quotes(x) + seq!['"'] + rest, st)
            == read_from(rest, with_quotes(with_field(st, st.field + x), false)),
    decreases x.len(),
{
    let s = double_quotes(x) + seq!['"'] + rest;
    if x.len() == 0 {
        assert(s =~= seq!['"'] + rest);
        assert(s.skip(1) =~= rest);
        assert(st.field + x =~= st.field);
    } else {
        let tail = double_quotes(x.drop_first()) + seq!['"'] + rest;
        if x[0] == '"' {
            assert(s =~= seq!['"', '"'] + tail);
            assert(s.skip(2) =~= tail);
            let st2 = with_field(st, st.field.push('"'));
            lemma_read_quoted(x.drop_first(), rest, st2);
            assert(st.field.push('"') + x.drop_first() =~= st.field + x);
        } else {
            assert(s =~= seq![x[0]] + tail);
            assert(s.skip(1) =~= tail);
            let st2 = with_field(st, st.field.push(x[0]));
            lemma_read_quoted(x.drop_first(), rest, st2);
            assert(st.field.push(x[0]) + x.drop_first() =~= st.field + x);
        }
    }
}

/// A written field followed by a comma or line feed is read back as itself.
proof fn lemma_read_field(x: Seq<char>, rest: Seq<char>, st: ReadState)
    requires
        !st.in_quotes,
        st.field.len() == 0,
        rest.len() > 0,
        rest[0] == ',' || rest[0] == '\n',
    ensures
        read_from(field_text(x) + rest, st) == read_from(rest, with_field(st, x)),
{
    if needs_quotes(x, true) {
        let s = field_text(x) + rest;
        assert(s =~= seq!['"'] + (double_quotes(x) + seq!['"'] + rest));
        assert(s.skip(1) =~= double_quotes(x) + seq!['"'] + rest);
        lemma_read_quoted(x, rest, with_quotes(st, true));
        assert(seq![] + x =~= x);
        assert(st.field + x =~= x);
    } else {
        lemma_read_plain(x, rest, st);
        assert(st.field + x =~= x);
    }
}

/// A written row is read back as one row after the fields already read.
proof fn lemma_read_row(r: Seq<Seq<char>>, rest: Seq<char>, st: ReadState)
    requires
        !st.in_quotes,
        st.field.len() == 0,
        r.len() >= 1,
    ensures
        read_from(row_body(r) + seq!['\n'] + rest, st)
            == read_from(rest, ReadState { rows: st.rows.push(st.row + r), row: seq![], field: seq![], in_quotes: false }),
    decreases r.len(),
{
    if r.len() == 1 {
        let tail = seq!['\n'] + rest;
        assert(row_body(r) + seq!['\n'] + rest =~= field_text(r[0]) + tail);
        lemma_read_field(r[0], tail, st);
        assert(tail.skip(1) =~= rest);
        assert(st.row.push(r[0]) =~= st.row + r);
    } else {
        let tail = seq![','] + (row_body(r.drop_first()) + seq!['\n'] + rest);
        lemma_row_body_front(r);
        assert(row_body(r) + seq!['\n'] + rest =~= field_text(r[0]) + tail);
        lemma_read_field(r[0], tail, st);
        assert(tail.skip(1) =~= row_body(r.drop_first()) + seq!['\n'] + rest);
        let st2 = end_field(with_field(st, r[0]));
        lemma_read_row(r.drop_first(), rest, st2);
        assert(st.row.push(r[0]) + r.drop_first() =~= st.row + r);
    }
}

/// Every row of a table has at least one field.
pub open spec fn rows_nonempty(t: Table) -> bool {
    forall|i: int| 0 <= i < t.len() ==> #[trigger] t[i].len() >= 1
}

proof fn lemma_read_rows(t: Table, rows: Table)
    requires
        rows_nonempty(t),
    ensures
        read_from(table_text(t), ReadState { rows: rows, row: seq![], field: seq![], in_quotes: false })
            == (ReadState { rows: rows + t, row: seq![], field: seq![], in_quotes: false }),
    decreases t.len(),
{
    let st = ReadState { rows: rows, row: seq![], field: seq![], in_quotes: false };
    if t.len() == 0 {
        assert(rows + t =~= rows);
    } else {
        assert(t[0].len() >= 1);
        let rest = table_text(t.drop_first());
        assert(table_text(t) =~= row_body(t[0]) + seq!['\n'] + rest);
        lemma_read_row(t[0], rest, st);
        assert(Seq::<Seq<char>>::empty() + t[0] =~= t[0]);
        assert forall|i: int| 0 <= i < t.drop_first().len() implies #[trigger] t.drop_first()[i].len() >= 1 by {
            assert(t.drop_first()[i] == t[i + 1]);
        }
        lemma_read_rows(t.drop_first(), rows.push(t[0]));
        assert(rows.push(t[0]) + t.drop_first() =~= rows + t);
    }
}

/// A table written with `write_table` reads back as the same table, provided
/// every row has a field.
pub proof fn law_table_reads_back(t: Table)
    requires
        rows_nonempty(t),
    ensures
        read_table(table_text(t)) == t,
{
    lemma_read_rows(t, seq![]);
    assert(Seq::<Seq<Seq<char>>>::empty() + t =~= t);
}

// ------------------------------------------------------------ executable

/// The view of a table held in vectors.
pub open spec fn table_view(t: Seq<Vec<String>>) -> Table {
    t.map_values(|r: Vec<String>| r@.map_values(|f: String| f@))
}

pub open spec fn row_view(r: Seq<String>) -> Seq<Seq<char>> {
    r.map_values(|f: String| f@)
}

/// Writes `s` at the end of `out` in quotes with inner quotes doubled.
fn push_quoted(out: &mut String, s: &str)
    ensures
        final(out)@ == old(out)@ + seq!['"'] + double_quotes(s@) + seq!['"'],
{
    push_char(out, '"');
    let n = s.unicode_len();
    let mut i: usize = 0;
    let ghost start = out@;
    assert(s@.take(0) =~= Seq::<char>::empty());
    while i < n
        invariant
            n == s@.len(),
            i <= n,
            out@ == start + double_quotes(s@.take(i as int)),
        decreases n - i,
    {
        let c = s.get_char(i);
        if c == '"' {
            push_char(out, '"');
            push_char(out, '"');
        } else {
            push_char(out, c);
        }
        proof {
            assert(s@.take(i + 1) =~= s@.take(i as int).push(c));
            lemma_double_quotes_push(s@.take(i as int), c);
        }
        i = i + 1;
    }
    assert(s@.take(n as int) =~= s@);
    push_char(out, '"');
    assert(out@ =~= old(out)@ + seq!['"'] + double_quotes(s@) + seq!['"']);
}

fn quote_as_needed(s: &str, with_cr: bool) -> (r: String)
    ensures
        r@ == quoted(s@, with_cr),
{
    let special = contains_char(s, ',') || contains_char(s, '"') || contains_char(s, '\n')
        || (with_cr && contains_char(s, '\r'));
    proof {
        if needs_quotes(s@, with_cr) {
            let i = choose|i: int|
                0 <= i < s@.len() && (s@[i] == ',' || s@[i] == '"' || s@[i] == '\n' || (with_cr && s@[i] == '\r'));
            assert(crate::text::has_char(s@, s@[i]));
        }
    }
    let mut r = String::new();
    if special {
        push_quoted(&mut r, s);
        assert(r@ =~= quoted(s@, with_cr));
    } else {
        r.append(s);
    }
    r
}

/// Writes a field of a translation table: in double quotes, with inner quotes
/// doubled, when it holds a comma, a quote, a line feed or a carriage return.
pub fn csv_field(s: &str) -> (r: String)
    ensures
        r@ == field_text(s@),
{
    quote_as_needed(s, true)
}

/// Writes a field of a bark or voice sheet: in double quotes, with inner
/// quotes doubled, when it holds a comma, a quote or a line feed.
pub fn csv_escape(s: &str) -> (r: String)
    ensures
        r@ == escape_text(s@),
{
    quote_as_needed(s, false)
}

/// Appends a string slice: `String::push_str`.
pub fn push_str(out: &mut String, s: &str)
    ensures
        final(out)@ == old(out)@ + s@,
{
    out.append(s);
}

/// Writes one row: its fields by `csv_field`, separated by commas, and a line feed.
pub fn write_row(out: &mut String, r: &Vec<String>)
    requires
        r.len() >= 1,
    ensures
        final(out)@ == old(out)@ + row_text(row_view(r@)),
{
    let ghost rv = row_view(r@);
    let n = r.len();
    let ghost start = out@;
    let f0 = csv_field(r[0].as_str());
    push_str(out, f0.as_str());
    assert(rv.take(1).drop_last() =~= Seq::<Seq<char>>::empty());
    assert(out@ == start + row_body(rv.take(1)));
    let mut k: usize = 1;
    while k < n
        invariant
            n == r.len(),
            rv == row_view(r@),
            1 <= k <= n,
            out@ == start + row_body(rv.take(k as int)),
        decreases n - k,
    {
        push_char(out, ',');
        let f = csv_field(r[k].as_str());
        push_str(out, f.as_str());
        proof {
            assert(rv.take(k + 1).drop_last() =~= rv.take(k as int));
            assert(rv.take(k + 1).last() == rv[k as int]);
            assert(out@ =~= start + row_body(rv.take(k + 1)));
        }
        k = k + 1;
    }
    assert(rv.take(n as int) =~= rv);
    push_char(out, '\n');
    assert(out@ =~= old(out)@ + row_text(rv));
}

/// Writes a table row by row.
pub fn write_table(t: &Vec<Vec<String>>) -> (r: String)
    requires
        forall|i: int| 0 <= i < t.len() ==> #[trigger] t@[i].len() >= 1,
    ensures
        r@ == table_text(table_view(t@)),
{
    let ghost tv = table_view(t@);
    let mut out = String::new();
    let mut k: usize = 0;
    assert(tv.take(0) =~= Seq::<Seq<Seq<char>>>::empty());
    while k < t.len()
        invariant
            k <= t.len(),
            tv == table_view(t@),
            forall|i: int| 0 <= i < t.len() ==> #[trigger] t@[i].len() >= 1,
            out@ == table_text(tv.take(k as int)),
        decreases t.len() - k,
    {
        assert(t@[k as int].len() >= 1);
        write_row(&mut out, &t[k]);
        proof {
            assert(tv[k as int] == row_view(t@[k as int]@));
            assert(tv.take(k + 1) =~= tv.take(k as int).push(tv[k as int]));
            lemma_table_text_push(tv.take(k as int), tv[k as int]);
        }
        k = k + 1;
    }
    assert(tv.take(t.len() as int) =~= tv);
    out
}

pub open spec fn exec_state(rows: Seq<Vec<String>>, row: Seq<String>, field: Seq<char>, q: bool) -> ReadState {
    ReadState { rows: table_view(rows), row: row_view(row), field: field, in_quotes: q }
}

/// Moves the current field to the end of the row.
fn finish_field(row: &mut Vec<String>, field: &mut String)
    ensures
        row_view(final(row)@) == row_view(old(row)@).push(old(field)@),
        final(field)@ == Seq::<char>::empty(),
{
    let mut f = String::new();
    std::mem::swap(&mut f, field);
    row.push(f);
    assert(row_view(row@) =~= row_view(old(row)@).push(f@));
}

/// Moves the current field to the row and the row to the table.
fn finish_row(rows: &mut Vec<Vec<String>>, row: &mut Vec<String>, field: &mut String)
    ensures
        table_view(final(rows)@) == table_view(old(rows)@).push(row_view(old(row)@).push(old(field)@)),
        final(row)@.len() == 0,
        final(field)@ == Seq::<char>::empty(),
{
    finish_field(row, field);
    let mut r: Vec<String> = Vec::new();
    std::mem::swap(&mut r, row);
    rows.push(r);
    assert(table_view(rows@) =~= table_view(old(rows)@).push(row_view(r@)));
}

/// Reads the rows of a comma-separated text (see `read_from`).
pub fn parse_csv_rows(input: &str) -> (rows: Vec<Vec<String>>)
    ensures
        table_view(rows@) == read_table(input@),
{
    let n = input.unicode_len();
    let ghost s = input@;
    let ghost goal = read_from(s, start_state());
    let mut rows: Vec<Vec<String>> = Vec::new();
    let mut row: Vec<String> = Vec::new();
    let mut field = String::new();
    let mut in_quotes = false;
    let mut i: usize = 0;
    proof {
        assert(s.skip(0) =~= s);
        assert(table_view(rows@) =~= Seq::<Seq<Seq<char>>>::empty());
        assert(row_view(row@) =~= Seq::<Seq<char>>::empty());
        assert(exec_state(rows@, row@, field@, in_quotes) == start_state());
    }
    while i < n
        invariant
            n == s.len(),
            s == input@,
            i <= n,
            read_from(s.skip(i as int), exec_state(rows@, row@, field@, in_quotes)) == goal,
        decreases n - i,
    {
        let ghost cur = exec_state(rows@, row@, field@, in_quotes);
        let ghost rest = s.skip(i as int);
        assert(rest[0] == s[i as int]);
        assert(rest.len() > 1 ==> rest[1] == s[i + 1]);
        assert(rest.skip(1) =~= s.skip(i + 1));
        assert(i + 2 <= n ==> rest.skip(2) =~= s.skip(i + 2));
        let ch = input.get_char(i);
        if in_quotes {
            if ch == '"' {
                if i + 1 < n && input.get_char(i + 1) == '"' {
                    push_char(&mut field, '"');
                    assert(exec_state(rows@, row@, field@, in_quotes) == with_field(cur, cur.field.push('"')));
                    i = i + 2;
                } else {
                    in_quotes = false;
                    assert(exec_state(rows@, row@, field@, in_quotes) == with_quotes(cur, false));
                    i = i + 1;
                }
            } else {
                push_char(&mut field, ch);
                assert(exec_state(rows@, row@, field@, in_quotes) == with_field(cur, cur.field.push(ch)));
                i = i + 1;
            }
        } else if ch == '"' {
            in_quotes = true;
            assert(exec_state(rows@, row@, field@, in_quotes) == with_quotes(cur, true));
            i = i + 1;
        } else if ch == ',' {
            finish_field(&mut row, &mut field);
            assert(exec_state(rows@, row@, field@, in_quotes) == end_field(cur));
            i = i + 1;
        } else if ch == '\n' {
            finish_row(&mut rows, &mut row, &mut field);
            assert(row_view(row@) =~= Seq::<Seq<char>>::empty());
            assert(exec_state(rows@, row@, field@, in_quotes) == end_row(cur));
            i = i + 1;
        } else if ch == '\r' {
            let pair = i + 1 < n && input.get_char(i + 1) == '\n';
            finish_row(&mut rows, &mut row, &mut field);
            assert(row_view(row@) =~= Seq::<Seq<char>>::empty());
            assert(exec_state(rows@, row@, field@, in_quotes) == end_row(cur));
            if pair {
                i = i + 2;
            } else {
                i = i + 1;
            }
        } else {
            push_char(&mut field, ch);
            assert(exec_state(rows@, row@, field@, in_quotes) == with_field(cur, cur.field.push(ch)));
            i = i + 1;
        }
    }
    assert(s.skip(n as int) =~= Seq::<char>::empty());
    if field.as_str().unicode_len() > 0 || row.len() > 0 {
        finish_row(&mut rows, &mut row, &mut field);
    }
    rows
}

/// Fields written by `csv_escape`, joined by commas.
pub open spec fn escaped_line(r: Seq<Seq<char>>) -> Seq<char>
    decreases r.len(),
{
    if r.len() <= 1 {
        if r.len() == 1 { escape_text(r[0]) } else { seq![] }
    } else {
        escaped_line(r.drop_last()) + seq![','] + escape_text(r.last())
    }
}

/// Writes fields by `csv_escape`, separated by commas, and a line feed.
pub fn write_escaped_row(out: &mut String, r: &Vec<String>)
    requires
        r.len() >= 1,
    ensures
        final(out)@ == old(out)@ + escaped_line(row_view(r@)) + seq!['\n'],
{
    let ghost rv = row_view(r@);
    let n = r.len();
    let ghost start = out@;
    let f0 = csv_escape(r[0].as_str());
    push_str(out, f0.as_str());
    assert(rv.take(1).drop_last() =~= Seq::<Seq<char>>::empty());
    assert(out@ == start + escaped_line(rv.take(1)));
    let mut k: usize = 1;
    while k < n
        invariant
            n == r.len(),
            rv == row_view(r@),
            1 <= k <= n,
            out@ == start + escaped_line(rv.take(k as int)),
        decreases n - k,
    {
        push_char(out, ',');
        let f = csv_escape(r[k].as_str());
        push_str(out, f.as_str());
        proof {
            assert(rv.take(k + 1).drop_last() =~= rv.take(k as int));
            assert(rv.take(k + 1).last() == rv[k as int]);
            assert(out@ =~= start + escaped_line(rv.take(k + 1)));
        }
        k = k + 1;
    }
    assert(rv.take(n as int) =~= rv);
    push_char(out, '\n');
}

} // verus!
