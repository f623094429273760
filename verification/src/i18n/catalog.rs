//! Localised text lookup: the active locale first, then the scenario's
//! default locale, then the key itself; and `{name}` placeholder filling.

use crate::config::LocaleTable;
use crate::text::{contains_string, push_char, push_str, replace_all, replaced, views};
use vstd::hash_map::StringHashMap;
use vstd::prelude::*;

verus! {

/// The locale tables of a run and which of them to read first.
pub struct Catalog {
    active_locale: String,
    default_locale: String,
    locales: StringHashMap<LocaleTable>,
}

/// What a catalog holds: the active and default locale names and, for each
/// locale, its texts by key.
pub struct CatalogView {
    pub active: Seq<char>,
    pub default: Seq<char>,
    pub tables: Map<Seq<char>, Map<Seq<char>, Seq<char>>>,
}

impl View for Catalog {
    type V = CatalogView;

    closed spec fn view(&self) -> CatalogView {
        CatalogView {
            active: self.active_locale@,
            default: self.default_locale@,
            tables: self.locales@.map_values(|t: LocaleTable| t.texts()),
        }
    }
}

impl CatalogView {
    /// The text of `key` in the table of `locale`, if that table has one.
    pub open spec fn text_in(self, locale: Seq<char>, key: Seq<char>) -> Option<Seq<char>> {
        if self.tables.contains_key(locale) && self.tables[locale].contains_key(key) {
            Some(self.tables[locale][key])
        } else {
            None
        }
    }

    /// The text of `key`: from the active locale, else from the default
    /// locale.
    pub open spec fn lookup(self, key: Seq<char>) -> Option<Seq<char>> {
        match self.text_in(self.active, key) {
            Some(t) => Some(t),
            None => self.text_in(self.default, key),
        }
    }

    /// The text shown for `key`: its lookup, or the key itself when no
    /// locale has it.
    pub open spec fn text(self, key: Seq<char>) -> Seq<char> {
        match self.lookup(key) {
            Some(t) => t,
            None => key,
        }
    }
}

/// Text lookup falls back from the active locale to the default locale and
/// then to the key itself: a key that the active locale has shows its text
/// there; one that only the default locale has shows that text; one that
/// neither has shows as itself.
pub proof fn lemma_catalog_fallback(c: CatalogView, key: Seq<char>)
    ensures
        c.tables.contains_key(c.active) && c.tables[c.active].contains_key(key) ==> c.text(key)
            == c.tables[c.active][key],
        !(c.tables.contains_key(c.active) && c.tables[c.active].contains_key(key))
            && c.tables.contains_key(c.default) && c.tables[c.default].contains_key(key) ==> c.text(
            key,
        ) == c.tables[c.default][key],
        !(c.tables.contains_key(c.active) && c.tables[c.active].contains_key(key)) && !(
        c.tables.contains_key(c.default) && c.tables[c.default].contains_key(key)) ==> c.text(key)
            == key,
{
}

/// Filling no variables leaves the text as it is.
pub proof fn lemma_format_without_vars(text: Seq<char>)
    ensures
        filled(text, Seq::empty()) == text,
{
}

/// `{name}`, the placeholder for a variable.
pub open spec fn placeholder(name: Seq<char>) -> Seq<char> {
    seq!['{'] + name + seq!['}']
}

/// `text` with the placeholders of `vars` filled in, one variable after the
/// other.
pub open spec fn filled(text: Seq<char>, vars: Seq<(Seq<char>, Seq<char>)>) -> Seq<char>
    decreases vars.len(),
{
    if vars.len() == 0 {
        text
    } else {
        replaced(filled(text, vars.drop_last()), placeholder(vars.last().0), vars.last().1)
    }
}

/// The views of template variables.
pub open spec fn var_views(vars: Seq<(&str, String)>) -> Seq<(Seq<char>, Seq<char>)> {
    vars.map_values(|p: (&str, String)| (p.0@, p.1@))
}

/// The warning recorded for a key that no locale has.
pub open spec fn missing_key_warning(key: Seq<char>) -> Seq<char> {
    "missing locale key "@ + key
}

/// The warnings after a lookup of `key` that found `found`: the missing-key
/// warning is added at the end when the lookup found nothing and the warning
/// is not yet among `warnings`.
pub open spec fn recorded(warnings: Seq<Seq<char>>, found: Option<Seq<char>>, key: Seq<char>) -> Seq<Seq<char>> {
    if found is None && !warnings.contains(missing_key_warning(key)) {
        warnings.push(missing_key_warning(key))
    } else {
        warnings
    }
}

impl Catalog {
    /// A catalog that reads `active_locale` first and `default_locale` next.
    pub fn new(active_locale: String, default_locale: String, locales: StringHashMap<LocaleTable>) -> (c: Self)
        ensures
            c@.active == active_locale@,
            c@.default == default_locale@,
            c@.tables == locales@.map_values(|t: LocaleTable| t.texts()),
    {
        Catalog { active_locale, default_locale, locales }
    }

    /// The locale read first.
    pub fn active_locale(&self) -> (s: &str)
        ensures
            s@ == self@.active,
    {
        self.active_locale.as_str()
    }

    fn lookup(&self, key: &str) -> (r: Option<&String>)
        ensures
            match r {
                Some(t) => self@.lookup(key@) == Some(t@),
                None => self@.lookup(key@) is None,
            },
    {
        if let Some(table) = self.locales.get(self.active_locale.as_str()) {
            if let Some(t) = table.entries.get(key) {
                return Some(t);
            }
        }
        if let Some(table) = self.locales.get(self.default_locale.as_str()) {
            if let Some(t) = table.entries.get(key) {
                return Some(t);
            }
        }
        None
    }

    /// The text for `key`: from the active locale, else the default locale,
    /// else the key itself.
    pub fn text(&self, key: &str) -> (s: String)
        ensures
            s@ == self@.text(key@),
    {
        match self.lookup(key) {
            Some(t) => t.clone(),
            None => key.to_string(),
        }
    }

    /// The text for `key`, together with the warning to record when neither
    /// the active nor the default locale has the key (the text is then the
    /// key itself).
    pub fn text_with_warning(&self, key: &str) -> (r: (String, Option<String>))
        ensures
            r.0@ == self@.text(key@),
            r.1 is Some <==> self@.lookup(key@) is None,
            r.1 matches Some(w) ==> w@ == missing_key_warning(key@),
    {
        match self.lookup(key) {
            Some(t) => (t.clone(), None),
            None => {
                let mut w = "missing locale key ".to_string();
                push_str(&mut w, key);
                (key.to_string(), Some(w))
            },
        }
    }

    /// The text for `key`, recording in `warnings` the missing-key warning
    /// when neither the active nor the default locale has the key, unless
    /// that warning is already there.
    pub fn text_recording(&self, key: &str, warnings: &mut Vec<String>) -> (s: String)
        ensures
            s@ == self@.text(key@),
            views(final(warnings)@) == recorded(views(old(warnings)@), self@.lookup(key@), key@),
    {
        let (text, warning) = self.text_with_warning(key);
        if let Some(w) = warning {
            if !contains_string(warnings, w.as_str()) {
                let ghost before = views(warnings@);
                let ghost wv = w@;
                warnings.push(w);
                assert(views(warnings@) =~= before.push(wv));
            }
        }
        text
    }

    /// The text for `key` with each `{name}` placeholder of `vars` replaced
    /// by its value, in order.
    pub fn format(&self, key: &str, vars: &[(&str, String)]) -> (s: String)
        ensures
            s@ == filled(self@.text(key@), var_views(vars@)),
    {
        let mut text = self.text(key);
        let mut i: usize = 0;
        assert(var_views(vars@).take(0) =~= Seq::<(Seq<char>, Seq<char>)>::empty());
        while i < vars.len()
            invariant
                i <= vars@.len(),
                text@ == filled(self@.text(key@), var_views(vars@).take(i as int)),
            decreases vars.len() - i,
        {
            let (name, value) = &vars[i];
            let mut pat = String::new();
            push_char(&mut pat, '{');
            push_str(&mut pat, name);
            push_char(&mut pat, '}');
            assert(pat@ =~= placeholder(name@));
            text = replace_all(text.as_str(), pat.as_str(), value.as_str());
            assert(var_views(vars@).take(i + 1).drop_last() =~= var_views(vars@).take(i as int));
            i += 1;
        }
        assert(var_views(vars@).take(vars@.len() as int) =~= var_views(vars@));
        text
    }
}

} // verus!
