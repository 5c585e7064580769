//! Text helpers shared by the exporters: building strings, decimal and
//! hexadecimal numerals, and character-level searches.

use vstd::prelude::*;

verus! {

/// `s` begins with `t`.
pub open spec fn begins_with(s: Seq<char>, t: Seq<char>) -> bool {
    t.len() <= s.len() && s.subrange(0, t.len() as int) == t
}

/// `s` ends with `t`.
pub open spec fn ends_with(s: Seq<char>, t: Seq<char>) -> bool {
    t.len() <= s.len() && s.subrange(s.len() - t.len(), s.len() as int) == t
}

/// `t` stands in `s` at position `i`.
pub open spec fn occurs_at(s: Seq<char>, t: Seq<char>, i: int) -> bool {
    0 <= i && i + t.len() <= s.len() && s.subrange(i, i + t.len()) == t
}

/// Where `t` stands in `s`, it stands in `a + s + b` shifted by the length of `a`.
pub proof fn lemma_occurs_within(a: Seq<char>, s: Seq<char>, b: Seq<char>, t: Seq<char>, i: int)
    requires
        occurs_at(s, t, i),
    ensures
        occurs_at(a + s + b, t, a.len() + i),
{
    assert((a + s + b).subrange(a.len() + i, a.len() + i + t.len()) =~= s.subrange(i, i + t.len()));
}

/// What `a + s` begins and ends with, when `s` does.
pub proof fn lemma_affixes_concat(a: Seq<char>, s: Seq<char>, b: Seq<char>, t: Seq<char>)
    ensures
        begins_with(s, t) ==> begins_with(s + b, t),
        ends_with(s, t) ==> ends_with(a + s, t),
        (a + s).subrange(a.len() as int, (a + s).len() as int) == s,
{
    if begins_with(s, t) {
        assert((s + b).subrange(0, t.len() as int) =~= s.subrange(0, t.len() as int));
    }
    if ends_with(s, t) {
        assert((a + s).subrange((a + s).len() - t.len(), (a + s).len() as int) =~= s.subrange(s.len() - t.len(), s.len() as int));
    }
    assert((a + s).subrange(a.len() as int, (a + s).len() as int) =~= s);
}

/// `p + q` begins with `p` and ends with `q`.
pub proof fn lemma_affixes_of(p: Seq<char>, q: Seq<char>)
    ensures
        begins_with(p + q, p),
        ends_with(p + q, q),
{
    assert((p + q).subrange(0, p.len() as int) =~= p);
    assert((p + q).subrange((p + q).len() - q.len(), (p + q).len() as int) =~= q);
}


/// Appends one character: `String::push`.
#[verifier::external_body]
pub fn push_char(s: &mut String, c: char)
    ensures
        final(s)@ == old(s)@.push(c),
{
    s.push(c);
}

/// The decimal digit character for a value below 10.
pub open spec fn digit_char(d: int) -> char {
    (('0' as int) + d) as char
}

/// Decimal numeral of a natural number, without leading zeros ("0" for zero).
pub open spec fn decimal(n: nat) -> Seq<char>
    decreases n,
{
    if n < 10 {
        seq![digit_char(n as int)]
    } else {
        decimal(n / 10).push(digit_char((n % 10) as int))
    }
}

/// Decimal numeral of an integer, with a leading '-' when negative.
pub open spec fn int_decimal(i: int) -> Seq<char> {
    if i < 0 {
        seq!['-'] + decimal((-i) as nat)
    } else {
        decimal(i as nat)
    }
}

/// Writes `decimal(n)` at the end of `out`.
pub fn push_decimal(out: &mut String, n: u64)
    ensures
        final(out)@ == old(out)@ + decimal(n as nat),
    decreases n,
{
    if n < 10 {
        push_char(out, char_of_digit(n));
    } else {
        push_decimal(out, n / 10);
        push_char(out, char_of_digit(n % 10));
        assert(decimal(n as nat) == decimal((n / 10) as nat).push(digit_char((n % 10) as int)));
    }
}

/// Writes `int_decimal(i)` at the end of `out`.
pub fn push_int(out: &mut String, i: i64)
    ensures
        final(out)@ == old(out)@ + int_decimal(i as int),
{
    if i < 0 {
        push_char(out, '-');
        let mag: u64 = if i == i64::MIN { 9223372036854775808u64 } else { (-i) as u64 };
        push_decimal(out, mag);
        assert(old(out)@.push('-') + decimal(mag as nat) == old(out)@ + (seq!['-'] + decimal(mag as nat)));
    } else {
        push_decimal(out, i as u64);
    }
}

/// The decimal text of a count.
pub fn decimal_text(n: u64) -> (r: String)
    ensures
        r@ == decimal(n as nat),
{
    let mut s = String::new();
    push_decimal(&mut s, n);
    assert(s@ == Seq::<char>::empty() + decimal(n as nat));
    s
}

fn char_of_digit(d: u64) -> (c: char)
    requires
        d < 10,
    ensures
        c == digit_char(d as int),
{
    if d == 0 { '0' } else if d == 1 { '1' } else if d == 2 { '2' } else if d == 3 { '3' }
    else if d == 4 { '4' } else if d == 5 { '5' } else if d == 6 { '6' } else if d == 7 { '7' }
    else if d == 8 { '8' } else { '9' }
}

/// A count of hundredths as Rust's `{}` writes the number it stands for: the
/// whole part, then a point and the fraction without trailing zeros when the
/// fraction is not zero ("0.5", "1", "1.25").
pub open spec fn hundredths_text(w: nat) -> Seq<char> {
    let f = w % 100;
    decimal(w / 100) + if f == 0 {
        seq![]
    } else if f % 10 == 0 {
        seq!['.', digit_char((f / 10) as int)]
    } else {
        seq!['.', digit_char((f / 10) as int), digit_char((f % 10) as int)]
    }
}

/// The same number as `serde_json` writes it: a whole number keeps ".0".
pub open spec fn hundredths_json(w: nat) -> Seq<char> {
    if w % 100 == 0 {
        decimal(w / 100) + seq!['.', '0']
    } else {
        hundredths_text(w)
    }
}

/// Writes `hundredths_text(w)` at the end of `out`.
pub fn push_hundredths(out: &mut String, w: u32)
    ensures
        final(out)@ == old(out)@ + hundredths_text(w as nat),
{
    push_decimal(out, (w / 100) as u64);
    let f = w % 100;
    let ghost mid = out@;
    if f != 0 {
        push_char(out, '.');
        push_char(out, char_of_digit((f / 10) as u64));
        if f % 10 != 0 {
            push_char(out, char_of_digit((f % 10) as u64));
        }
    }
    assert(out@ =~= old(out)@ + hundredths_text(w as nat));
}

/// Writes `hundredths_json(w)` at the end of `out`.
pub fn push_hundredths_json(out: &mut String, w: u32)
    ensures
        final(out)@ == old(out)@ + hundredths_json(w as nat),
{
    push_hundredths(out, w);
    if w % 100 == 0 {
        push_char(out, '.');
        push_char(out, '0');
    }
    assert(out@ =~= old(out)@ + hundredths_json(w as nat));
}

/// The uppercase hexadecimal digit for a value below 16.
pub open spec fn upper_hex_digit(n: int) -> char {
    if n < 10 { digit_char(n) } else { (('A' as int) + n - 10) as char }
}

/// Two uppercase hex digits of a byte, as `{:02X}` writes it.
pub open spec fn byte_hex(b: u8) -> Seq<char> {
    seq![upper_hex_digit((b as int) / 16), upper_hex_digit((b as int) % 16)]
}

fn upper_hex_char(d: u8) -> (c: char)
    requires
        d < 16,
    ensures
        c == upper_hex_digit(d as int),
{
    if d < 10 {
        char_of_digit(d as u64)
    } else if d == 10 { 'A' } else if d == 11 { 'B' } else if d == 12 { 'C' }
    else if d == 13 { 'D' } else if d == 14 { 'E' } else { 'F' }
}

/// Writes `byte_hex(b)` at the end of `out`.
pub fn push_byte_hex(out: &mut String, b: u8)
    ensures
        final(out)@ == old(out)@ + byte_hex(b),
{
    push_char(out, upper_hex_char(b / 16));
    push_char(out, upper_hex_char(b % 16));
    assert(old(out)@.push(upper_hex_digit((b as int) / 16)).push(upper_hex_digit((b as int) % 16))
        =~= old(out)@ + byte_hex(b));
}

/// Whether `c` occurs in `s`.
pub open spec fn has_char(s: Seq<char>, c: char) -> bool {
    exists|i: int| 0 <= i < s.len() && s[i] == c
}

/// Tests whether a character occurs in a string.
pub fn contains_char(s: &str, c: char) -> (r: bool)
    ensures
        r == has_char(s@, c),
{
    let n = s.unicode_len();
    let mut i: usize = 0;
    while i < n
        invariant
            n == s@.len(),
            i <= n,
            forall|j: int| 0 <= j < i ==> s@[j] != c,
        decreases n - i,
    {
        if s.get_char(i) == c {
            return true;
        }
        i = i + 1;
    }
    false
}

/// Whether two strings hold the same characters.
pub fn str_eq(a: &str, b: &str) -> (r: bool)
    ensures
        r == (a@ == b@),
{
    let n = a.unicode_len();
    if n != b.unicode_len() {
        return false;
    }
    let mut i: usize = 0;
    while i < n
        invariant
            n == a@.len(),
            n == b@.len(),
            i <= n,
            forall|j: int| 0 <= j < i ==> a@[j] == b@[j],
        decreases n - i,
    {
        if a.get_char(i) != b.get_char(i) {
            return false;
        }
        i = i + 1;
    }
    assert(a@ =~= b@);
    true
}

/// A copy of a string slice as an owned string.
pub fn owned(s: &str) -> (r: String)
    ensures
        r@ == s@,
{
    let mut r = String::new();
    r.append(s);
    r
}

} // verus!
