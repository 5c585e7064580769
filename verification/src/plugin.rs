//! Export plugins: a plugin's template text with the exported document, the
//! project name and the plugin's version put in place of its placeholders.

use vstd::prelude::*;
use crate::text::push_char;
use crate::csv::push_str;

verus! {

/// Every occurrence of `pat` in `s`, from left to right and without overlap,
/// replaced by `with` (as `str::replace` does for a non-empty pattern).
pub open spec fn replace_all(s: Seq<char>, pat: Seq<char>, with: Seq<char>) -> Seq<char>
    decreases s.len(),
{
    if pat.len() == 0 || s.len() < pat.len() {
        s
    } else if s.subrange(0, pat.len() as int) =~= pat {
        with + replace_all(s.skip(pat.len() as int), pat, with)
    } else {
        seq![s[0]] + replace_all(s.drop_first(), pat, with)
    }
}

fn matches_at(s: &str, n: usize, pat: &str, m: usize, i: usize) -> (r: bool)
    requires
        n == s@.len(),
        m == pat@.len(),
        i + m <= n,
    ensures
        r == (s@.subrange(i as int, i + m) =~= pat@),
{
    let mut j: usize = 0;
    while j < m
        invariant
            n == s@.len(),
            m == pat@.len(),
            i + m <= n,
            j <= m,
            forall|t: int| 0 <= t < j ==> s@[i + t] == pat@[t],
        decreases m - j,
    {
        if s.get_char(i + j) != pat.get_char(j) {
            assert(s@.subrange(i as int, i + m)[j as int] != pat@[j as int]);
            return false;
        }
        j = j + 1;
    }
    assert(s@.subrange(i as int, i + m) =~= pat@);
    true
}

/// `s` with every occurrence of the non-empty `pat` replaced by `with` (see `replace_all`).
pub fn replace_text(s: &str, pat: &str, with: &str) -> (r: String)
    requires
        pat@.len() > 0,
    ensures
        r@ == replace_all(s@, pat@, with@),
{
    let n = s.unicode_len();
    let m = pat.unicode_len();
    let mut out = String::new();
    let mut i: usize = 0;
    assert(s@.skip(0) =~= s@);
    while i < n
        invariant
            n == s@.len(),
            m == pat@.len(),
            m > 0,
            i <= n,
            replace_all(s@, pat@, with@) == out@ + replace_all(s@.skip(i as int), pat@, with@),
        decreases n - i,
    {
        let ghost rest = s@.skip(i as int);
        if m <= n - i && matches_at(s, n, pat, m, i) {
            assert(rest.subrange(0, m as int) =~= s@.subrange(i as int, i + m));
            assert(rest.skip(m as int) =~= s@.skip(i + m));
            push_str(&mut out, with);
            i = i + m;
        } else {
            proof {
                if m <= n - i {
                    assert(rest.subrange(0, m as int) =~= s@.subrange(i as int, i + m));
                }
            }
            assert(rest[0] == s@[i as int]);
            assert(rest.drop_first() =~= s@.skip(i + 1));
            push_char(&mut out, s.get_char(i));
            i = i + 1;
        }
    }
    assert(s@.skip(n as int) =~= Seq::<char>::empty());
    assert(out@ + Seq::<char>::empty() =~= out@);
    out
}

/// A plugin template filled in: `{{json}}` becomes the exported document,
/// then `{{name}}` the project name and `{{version}}` the plugin's version,
/// one placeholder after the other.
pub open spec fn filled(template: Seq<char>, json: Seq<char>, name: Seq<char>, version: Seq<char>) -> Seq<char> {
    replace_all(replace_all(replace_all(template, "{{json}}"@, json), "{{name}}"@, name), "{{version}}"@, version)
}

/// Fills in a plugin template (see `filled`).
pub fn fill_plugin_template(template: &str, json: &str, name: &str, version: &str) -> (r: String)
    ensures
        r@ == filled(template@, json@, name@, version@),
{
    proof {
        reveal_strlit("{{json}}");
        reveal_strlit("{{name}}");
        reveal_strlit("{{version}}");
    }
    let a = replace_text(template, "{{json}}", json);
    let b = replace_text(a.as_str(), "{{name}}", name);
    replace_text(b.as_str(), "{{version}}", version)
}

} // verus!
