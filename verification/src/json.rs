//! JSON text for the playable HTML export: string literals as `serde_json`
//! writes them, and objects whose members are kept sorted by key with a later
//! member replacing an earlier one of the same key, as in `serde_json::Map`.

use vstd::prelude::*;
use crate::csv::push_str;
use crate::text::push_char;

verus! {

/// How `serde_json` writes one character inside a string literal.
pub open spec fn json_char(c: char) -> Seq<char> {
    if c == '"' {
        seq!['\\', '"']
    } else if c == '\\' {
        seq!['\\', '\\']
    } else if c == '\u{8}' {
        seq!['\\', 'b']
    } else if c == '\t' {
        seq!['\\', 't']
    } else if c == '\n' {
        seq!['\\', 'n']
    } else if c == '\u{c}' {
        seq!['\\', 'f']
    } else if c == '\r' {
        seq!['\\', 'r']
    } else if (c as int) < 0x20 {
        seq!['\\', 'u', '0', '0', crate::ident::hex_digit((c as int) / 16), crate::ident::hex_digit((c as int) % 16)]
    } else {
        seq![c]
    }
}

pub open spec fn json_body(s: Seq<char>) -> Seq<char>
    decreases s.len(),
{
    if s.len() == 0 { seq![] } else { json_body(s.drop_last()) + json_char(s.last()) }
}

/// A JSON string literal.
pub open spec fn json_str(s: Seq<char>) -> Seq<char> {
    seq!['"'] + json_body(s) + seq!['"']
}

/// `serde_json::to_string` of a string slice: the string in double quotes with
/// `"` and `\` escaped by a backslash, backspace, tab, line feed, form feed and
/// carriage return written `\b \t \n \f \r`, the other control characters
/// below U+0020 written `\u00xx` with lowercase hex digits, and every other
/// character as it is. Writing a string slice cannot fail.
#[verifier::external_body]
fn json_quote(s: &str) -> (r: String)
    ensures
        r@ == json_str(s@),
{
    serde_json::to_string(s).unwrap_or_default()
}

/// Writes a JSON string literal.
pub fn push_json_str(out: &mut String, s: &str)
    ensures
        final(out)@ == old(out)@ + json_str(s@),
{
    let q = json_quote(s);
    push_str(out, q.as_str());
}

// ------------------------------------------------------------ key order

/// `a` sorts before `b`: character by character, a proper prefix first.
pub open spec fn str_less(a: Seq<char>, b: Seq<char>) -> bool
    decreases a.len(),
{
    if a.len() == 0 {
        b.len() > 0
    } else if b.len() == 0 {
        false
    } else if a[0] != b[0] {
        (a[0] as int) < (b[0] as int)
    } else {
        str_less(a.drop_first(), b.drop_first())
    }
}

proof fn lemma_str_less_order(a: Seq<char>, b: Seq<char>)
    ensures
        !str_less(a, a),
        str_less(a, b) ==> !str_less(b, a),
        a != b ==> str_less(a, b) || str_less(b, a),
    decreases a.len(),
{
    if a.len() > 0 && b.len() > 0 {
        lemma_str_less_order(a.drop_first(), b.drop_first());
        lemma_str_less_order(a.drop_first(), a.drop_first());
        if a[0] == b[0] && a != b {
            assert(a.drop_first() != b.drop_first()) by {
                if a.drop_first() == b.drop_first() {
                    assert(a =~= seq![a[0]] + a.drop_first());
                    assert(b =~= seq![b[0]] + b.drop_first());
                }
            }
        }
    } else if a.len() > 0 {
        lemma_str_less_order(a.drop_first(), a.drop_first());
    } else if b.len() == 0 {
        assert(a =~= b);
    }
}

/// Compares two strings in the order of `str_less`.
pub fn str_lt(a: &str, b: &str) -> (r: bool)
    ensures
        r == str_less(a@, b@),
{
    let n = a.unicode_len();
    let m = b.unicode_len();
    let mut i: usize = 0;
    assert(a@.skip(0) =~= a@);
    assert(b@.skip(0) =~= b@);
    while i < n && i < m
        invariant
            n == a@.len(),
            m == b@.len(),
            i <= n,
            i <= m,
            str_less(a@, b@) == str_less(a@.skip(i as int), b@.skip(i as int)),
        decreases n - i,
    {
        let x = a.get_char(i);
        let y = b.get_char(i);
        assert(a@.skip(i as int)[0] == x);
        assert(b@.skip(i as int)[0] == y);
        if x != y {
            return (x as u32) < (y as u32);
        }
        assert(a@.skip(i as int).drop_first() =~= a@.skip(i + 1));
        assert(b@.skip(i as int).drop_first() =~= b@.skip(i + 1));
        i = i + 1;
    }
    i == n && i < m
}

// ------------------------------------------------------------ objects

/// Inserts member `(k, v)` into members sorted by key, replacing the one with key `k`.
pub open spec fn obj_insert(s: Seq<(Seq<char>, Seq<char>)>, k: Seq<char>, v: Seq<char>) -> Seq<(Seq<char>, Seq<char>)>
    decreases s.len(),
{
    if s.len() == 0 {
        seq![(k, v)]
    } else if str_less(k, s[0].0) {
        seq![(k, v)] + s
    } else if k == s[0].0 {
        seq![(k, v)] + s.drop_first()
    } else {
        seq![s[0]] + obj_insert(s.drop_first(), k, v)
    }
}

/// The members of an object built by inserting `pairs` in order.
pub open spec fn obj_build(pairs: Seq<(Seq<char>, Seq<char>)>) -> Seq<(Seq<char>, Seq<char>)>
    decreases pairs.len(),
{
    if pairs.len() == 0 {
        seq![]
    } else {
        obj_insert(obj_build(pairs.drop_last()), pairs.last().0, pairs.last().1)
    }
}

/// Members written `"key":value`, separated by commas.
pub open spec fn members_text(s: Seq<(Seq<char>, Seq<char>)>) -> Seq<char>
    decreases s.len(),
{
    if s.len() == 0 {
        seq![]
    } else if s.len() == 1 {
        json_str(s[0].0) + seq![':'] + s[0].1
    } else {
        members_text(s.drop_last()) + seq![','] + json_str(s.last().0) + seq![':'] + s.last().1
    }
}

/// The text of an object built by inserting `pairs`, whose values are JSON texts.
pub open spec fn object_text(pairs: Seq<(Seq<char>, Seq<char>)>) -> Seq<char> {
    seq!['{'] + members_text(obj_build(pairs)) + seq!['}']
}

proof fn lemma_obj_insert_at(s: Seq<(Seq<char>, Seq<char>)>, k: Seq<char>, v: Seq<char>, i: int)
    requires
        0 <= i <= s.len(),
        forall|j: int| 0 <= j < i ==> str_less(#[trigger] s[j].0, k),
        i < s.len() ==> !str_less(s[i].0, k),
    ensures
        i < s.len() && s[i].0 == k ==> obj_insert(s, k, v) == s.take(i) + seq![(k, v)] + s.skip(i + 1),
        !(i < s.len() && s[i].0 == k) ==> obj_insert(s, k, v) == s.take(i) + seq![(k, v)] + s.skip(i),
    decreases i,
{
    if i == 0 {
        if s.len() == 0 {
            assert(s.take(0) + seq![(k, v)] + s.skip(0) =~= seq![(k, v)]);
        } else {
            lemma_str_less_order(k, s[0].0);
            lemma_str_less_order(s[0].0, k);
            if s[0].0 == k {
                assert(s.take(0) + seq![(k, v)] + s.skip(1) =~= seq![(k, v)] + s.drop_first());
            } else {
                assert(str_less(k, s[0].0));
                assert(s.take(0) + seq![(k, v)] + s.skip(0) =~= seq![(k, v)] + s);
            }
        }
    } else {
        assert(str_less(s[0].0, k));
        lemma_str_less_order(s[0].0, k);
        lemma_str_less_order(k, k);
        assert(k != s[0].0);
        let t = s.drop_first();
        assert forall|j: int| 0 <= j < i - 1 implies str_less(#[trigger] t[j].0, k) by {
            assert(t[j] == s[j + 1]);
        }
        lemma_obj_insert_at(t, k, v, i - 1);
        if i < s.len() {
            assert(s.take(i) + seq![(k, v)] + s.skip(i + 1) =~= seq![s[0]] + (t.take(i - 1) + seq![(k, v)] + t.skip(i)));
        }
        assert(s.take(i) + seq![(k, v)] + s.skip(i) =~= seq![s[0]] + (t.take(i - 1) + seq![(k, v)] + t.skip(i - 1)));
    }
}

/// A JSON object under construction: members sorted by key, values as JSON text.
pub struct JsonObject {
    pub members: Vec<(String, String)>,
}

pub open spec fn members_view(m: Seq<(String, String)>) -> Seq<(Seq<char>, Seq<char>)> {
    m.map_values(|p: (String, String)| (p.0@, p.1@))
}

impl JsonObject {
    /// An object without members.
    pub fn new() -> (o: JsonObject)
        ensures
            members_view(o.members@) == Seq::<(Seq<char>, Seq<char>)>::empty(),
    {
        let o = JsonObject { members: Vec::new() };
        assert(members_view(o.members@) =~= Seq::<(Seq<char>, Seq<char>)>::empty());
        o
    }

    /// Inserts a member; a member with the same key is replaced.
    pub fn insert(&mut self, k: String, v: String)
        ensures
            members_view(final(self).members@) == obj_insert(members_view(old(self).members@), k@, v@),
    {
        let ghost s = members_view(self.members@);
        let mut i: usize = 0;
        while i < self.members.len() && str_lt(self.members[i].0.as_str(), k.as_str())
            invariant
                i <= self.members.len(),
                s == members_view(self.members@),
                forall|j: int| 0 <= j < i ==> str_less(#[trigger] s[j].0, k@),
            decreases self.members.len() - i,
        {
            i = i + 1;
        }
        proof {
            lemma_obj_insert_at(s, k@, v@, i as int);
        }
        let ghost kv = k@;
        let ghost vv = v@;
        if i < self.members.len() && crate::text::str_eq(self.members[i].0.as_str(), k.as_str()) {
            self.members.set(i, (k, v));
            assert(members_view(self.members@) =~= s.take(i as int) + seq![(kv, vv)] + s.skip(i + 1));
        } else {
            let ghost before = self.members@;
            self.members.insert(i, (k, v));
            assert(self.members@ == before.insert(i as int, (k, v)));
            assert(members_view(self.members@) =~= s.take(i as int) + seq![(kv, vv)] + s.skip(i as int));
        }
    }

    /// The object as JSON text.
    pub fn to_text(&self) -> (r: String)
        ensures
            r@ == seq!['{'] + members_text(members_view(self.members@)) + seq!['}'],
    {
        let ghost s = members_view(self.members@);
        let mut out = String::new();
        push_char(&mut out, '{');
        let mut i: usize = 0;
        assert(s.take(0) =~= Seq::<(Seq<char>, Seq<char>)>::empty());
        while i < self.members.len()
            invariant
                i <= self.members.len(),
                s == members_view(self.members@),
                out@ == seq!['{'] + members_text(s.take(i as int)),
            decreases self.members.len() - i,
        {
            if i > 0 {
                push_char(&mut out, ',');
            }
            push_json_str(&mut out, self.members[i].0.as_str());
            push_char(&mut out, ':');
            push_str(&mut out, self.members[i].1.as_str());
            proof {
                assert(s.take(i + 1).drop_last() =~= s.take(i as int));
                assert(s.take(i + 1).last() == s[i as int]);
                assert(out@ =~= seq!['{'] + members_text(s.take(i + 1)));
            }
            i = i + 1;
        }
        assert(s.take(self.members.len() as int) =~= s);
        push_char(&mut out, '}');
        out
    }
}

} // verus!
