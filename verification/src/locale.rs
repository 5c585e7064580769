//! Locale settings: the default locale, the extra locales and the translations
//! stored per (string key, locale).

use vstd::prelude::*;

verus! {

/// One translated text of a string key in a locale.
#[derive(Clone, Debug)]
pub struct Translation {
    pub key: String,
    pub locale: String,
    pub text: String,
}

#[derive(Clone, Debug)]
pub struct LocaleSettings {
    pub default_locale: String,
    pub extra_locales: Vec<String>,
    pub translations: Vec<Translation>,
}

pub struct LocaleV {
    pub default_locale: Seq<char>,
    pub extra_locales: Seq<Seq<char>>,
    pub translations: Seq<(Seq<char>, Seq<char>, Seq<char>)>,
}

pub open spec fn locale_view(l: LocaleSettings) -> LocaleV {
    LocaleV {
        default_locale: l.default_locale@,
        extra_locales: l.extra_locales@.map_values(|s: String| s@),
        translations: l.translations@.map_values(|t: Translation| (t.key@, t.locale@, t.text@)),
    }
}

/// Text of the first translation of `key` into `locale`, if any.
pub open spec fn translation_of(ts: Seq<Translation>, key: Seq<char>, locale: Seq<char>) -> Option<Seq<char>>
    decreases ts.len(),
{
    if ts.len() == 0 {
        None
    } else if ts[0].key@ == key && ts[0].locale@ == locale {
        Some(ts[0].text@)
    } else {
        translation_of(ts.drop_first(), key, locale)
    }
}

/// Whether `s` appears in the list.
pub open spec fn lists(v: Seq<String>, s: Seq<char>) -> bool {
    exists|i: int| 0 <= i < v.len() && v[i]@ == s
}

impl LocaleSettings {
    /// Settings with the default locale "en", no extra locale and no translation.
    pub fn new() -> (l: LocaleSettings)
        ensures
            l.default_locale@ == "en"@,
            l.extra_locales.len() == 0,
            l.translations.len() == 0,
    {
        LocaleSettings {
            default_locale: crate::text::owned("en"),
            extra_locales: Vec::new(),
            translations: Vec::new(),
        }
    }

    /// Whether any locale besides the default one is defined.
    pub fn has_extra_locales(&self) -> (r: bool)
        ensures
            r == (self.extra_locales.len() > 0),
    {
        self.extra_locales.len() > 0
    }

    /// Whether `loc` is one of the extra locales.
    pub fn has_locale(&self, loc: &str) -> (r: bool)
        ensures
            r == lists(self.extra_locales@, loc@),
    {
        let mut i: usize = 0;
        while i < self.extra_locales.len()
            invariant
                i <= self.extra_locales.len(),
                forall|j: int| 0 <= j < i ==> self.extra_locales@[j]@ != loc@,
            decreases self.extra_locales.len() - i,
        {
            if crate::text::str_eq(self.extra_locales[i].as_str(), loc) {
                return true;
            }
            i = i + 1;
        }
        false
    }

    /// Adds an extra locale unless it is already listed or is the default one.
    pub fn add_locale(&mut self, loc: String)
        ensures
            (lists(old(self).extra_locales@, loc@) || loc@ == old(self).default_locale@)
                ==> final(self).extra_locales@ == old(self).extra_locales@,
            !(lists(old(self).extra_locales@, loc@) || loc@ == old(self).default_locale@)
                ==> final(self).extra_locales@ == old(self).extra_locales@.push(loc),
            final(self).default_locale == old(self).default_locale,
            final(self).translations == old(self).translations,
    {
        if self.has_locale(loc.as_str()) || crate::text::str_eq(loc.as_str(), self.default_locale.as_str()) {
            return;
        }
        self.extra_locales.push(loc);
    }

    /// The translation of `key` into `loc`, if one is stored.
    pub fn get_translation(&self, key: &str, loc: &str) -> (r: Option<&str>)
        ensures
            match r {
                Some(t) => translation_of(self.translations@, key@, loc@) == Some(t@),
                None => translation_of(self.translations@, key@, loc@) is None,
            },
    {
        let mut i: usize = 0;
        assert(self.translations@.subrange(0, self.translations@.len() as int) =~= self.translations@);
        while i < self.translations.len()
            invariant
                i <= self.translations.len(),
                translation_of(self.translations@, key@, loc@)
                    == translation_of(self.translations@.subrange(i as int, self.translations@.len() as int), key@, loc@),
            decreases self.translations.len() - i,
        {
            let t = &self.translations[i];
            proof {
                let rest = self.translations@.subrange(i as int, self.translations@.len() as int);
                assert(rest.drop_first() =~= self.translations@.subrange(i + 1, self.translations@.len() as int));
                assert(rest[0] == self.translations@[i as int]);
            }
            if crate::text::str_eq(t.key.as_str(), key) && crate::text::str_eq(t.locale.as_str(), loc) {
                return Some(t.text.as_str());
            }
            i = i + 1;
        }
        None
    }

    /// Stores the translation of `key` into `loc`, replacing the stored one.
    pub fn set_translation(&mut self, key: String, loc: String, text: String)
        ensures
            translation_of(final(self).translations@, key@, loc@) == Some(text@),
            forall|k: Seq<char>, l: Seq<char>| !(k == key@ && l == loc@)
                ==> translation_of(final(self).translations@, k, l) == translation_of(old(self).translations@, k, l),
            final(self).default_locale == old(self).default_locale,
            final(self).extra_locales == old(self).extra_locales,
    {
        let mut i: usize = 0;
        while i < self.translations.len()
            invariant
                i <= self.translations.len(),
                self.translations == old(self).translations,
                self.default_locale == old(self).default_locale,
                self.extra_locales == old(self).extra_locales,
                forall|j: int| 0 <= j < i ==> !(self.translations@[j].key@ == key@ && self.translations@[j].locale@ == loc@),
            decreases self.translations.len() - i,
        {
            if crate::text::str_eq(self.translations[i].key.as_str(), key.as_str())
                && crate::text::str_eq(self.translations[i].locale.as_str(), loc.as_str()) {
                let ghost before = self.translations@;
                self.translations.set(i, Translation { key, locale: loc, text });
                proof { lemma_translation_update(before, i as int, self.translations@[i as int]); }
                return;
            }
            i = i + 1;
        }
        let ghost before = self.translations@;
        self.translations.push(Translation { key, locale: loc, text });
        proof { lemma_translation_push(before, self.translations@.last()); }
    }
}

proof fn lemma_translation_update(ts: Seq<Translation>, i: int, t: Translation)
    requires
        0 <= i < ts.len(),
        ts[i].key@ == t.key@,
        ts[i].locale@ == t.locale@,
        forall|j: int| 0 <= j < i ==> !(ts[j].key@ == t.key@ && ts[j].locale@ == t.locale@),
    ensures
        translation_of(ts.update(i, t), t.key@, t.locale@) == Some(t.text@),
        forall|k: Seq<char>, l: Seq<char>| !(k == t.key@ && l == t.locale@)
            ==> translation_of(ts.update(i, t), k, l) == translation_of(ts, k, l),
    decreases ts.len(),
{
    let u = ts.update(i, t);
    if i == 0 {
        assert(u.drop_first() =~= ts.drop_first());
    } else {
        assert(u.drop_first() =~= ts.drop_first().update(i - 1, t));
        lemma_translation_update(ts.drop_first(), i - 1, t);
    }
    assert forall|k: Seq<char>, l: Seq<char>| !(k == t.key@ && l == t.locale@)
        implies translation_of(u, k, l) == translation_of(ts, k, l) by {
        if i == 0 {
            assert(u[0] == t);
            assert(!(u[0].key@ == k && u[0].locale@ == l));
            assert(!(ts[0].key@ == k && ts[0].locale@ == l));
            assert(u.drop_first() =~= ts.drop_first());
            assert(translation_of(u, k, l) == translation_of(u.drop_first(), k, l));
            assert(translation_of(ts, k, l) == translation_of(ts.drop_first(), k, l));
        } else {
            assert(u[0] == ts[0]);
            assert(u.drop_first() =~= ts.drop_first().update(i - 1, t));
        }
    }
}

proof fn lemma_translation_push(ts: Seq<Translation>, t: Translation)
    requires
        forall|j: int| 0 <= j < ts.len() ==> !(ts[j].key@ == t.key@ && ts[j].locale@ == t.locale@),
    ensures
        translation_of(ts.push(t), t.key@, t.locale@) == Some(t.text@),
        forall|k: Seq<char>, l: Seq<char>| !(k == t.key@ && l == t.locale@)
            ==> translation_of(ts.push(t), k, l) == translation_of(ts, k, l),
    decreases ts.len(),
{
    let u = ts.push(t);
    if ts.len() > 0 {
        assert(u.drop_first() =~= ts.drop_first().push(t));
        lemma_translation_push(ts.drop_first(), t);
    } else {
        assert(u.drop_first() =~= Seq::<Translation>::empty());
    }
    assert forall|k: Seq<char>, l: Seq<char>| !(k == t.key@ && l == t.locale@)
        implies translation_of(u, k, l) == translation_of(ts, k, l) by {
        if ts.len() > 0 {
            assert(u[0] == ts[0]);
            assert(u.drop_first() =~= ts.drop_first().push(t));
            if !(ts[0].key@ == k && ts[0].locale@ == l) {
                assert(translation_of(u, k, l) == translation_of(u.drop_first(), k, l));
                assert(translation_of(ts, k, l) == translation_of(ts.drop_first(), k, l));
            }
        } else {
            assert(u[0] == t);
            assert(!(u[0].key@ == k && u[0].locale@ == l));
            assert(u.drop_first() =~= Seq::<Translation>::empty());
            assert(translation_of(u, k, l) == translation_of(u.drop_first(), k, l));
            assert(translation_of(u.drop_first(), k, l) is None);
        }
    }
}

impl Default for LocaleSettings {
    fn default() -> (l: LocaleSettings)
        ensures
            l.default_locale@ == "en"@,
            l.extra_locales.len() == 0,
            l.translations.len() == 0,
    {
        LocaleSettings::new()
    }
}

/// Text of the first translation of `key` into `locale` among translation triples.
pub open spec fn translation_in(ts: Seq<(Seq<char>, Seq<char>, Seq<char>)>, key: Seq<char>, locale: Seq<char>) -> Option<Seq<char>>
    decreases ts.len(),
{
    if ts.len() == 0 {
        None
    } else if ts[0].0 == key && ts[0].1 == locale {
        Some(ts[0].2)
    } else {
        translation_in(ts.drop_first(), key, locale)
    }
}

/// The lookup on the settings and on their view agree.
pub proof fn lemma_translation_view(ts: Seq<Translation>, key: Seq<char>, locale: Seq<char>)
    ensures
        translation_of(ts, key, locale)
            == translation_in(ts.map_values(|t: Translation| (t.key@, t.locale@, t.text@)), key, locale),
    decreases ts.len(),
{
    if ts.len() > 0 {
        assert(ts.map_values(|t: Translation| (t.key@, t.locale@, t.text@)).drop_first()
            =~= ts.drop_first().map_values(|t: Translation| (t.key@, t.locale@, t.text@)));
        lemma_translation_view(ts.drop_first(), key, locale);
    }
}

} // verus!
