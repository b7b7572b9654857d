//! Basic internationalization: a dictionary of translated strings for one
//! language, built from translation files that map each key to its text in
//! every language, and a per-call-site cache of looked-up strings.
use vstd::prelude::*;

verus! {

/// One key of a translation file with its translations: (language code, text).
#[derive(Debug, Clone)]
pub struct TranslationEntry {
    pub key: String,
    pub translations: Vec<(String, String)>,
}

/// The contents of one translation file.
pub type TranslationFile = Vec<TranslationEntry>;

/// Why a dictionary or a language choice could not be made.
#[derive(Debug, Clone)]
pub enum IntlError {
    /// `key` lacks translations into `missing`, or has translations into other
    /// languages than the rest (then `missing` may be empty).
    MissingTranslation { key: String, missing: Vec<String> },
    /// `key` has no translation into the chosen language `lang`.
    NoTranslation { key: String, lang: String },
    /// The system locale is not a well-formed language tag.
    BadLocale(String),
    /// A translation file is not a JSON object of objects of strings; the text
    /// says why.
    BadFile(String),
    /// No language translations are available.
    NoLanguages,
}

/// The set of language codes that an entry has translations into.
pub open spec fn langs_of(e: TranslationEntry) -> Set<Seq<char>> {
    Set::new(|l: Seq<char>| exists|i: int| 0 <= i < e.translations@.len() && e.translations@[i].0@ == l)
}

/// The views of a list of strings.
pub open spec fn views(v: Seq<String>) -> Seq<Seq<char>> {
    v.map_values(|s: String| s@)
}

/// `s` occurs in `v` (by view).
pub open spec fn contains_view(v: Seq<String>, s: Seq<char>) -> bool {
    exists|i: int| 0 <= i < v.len() && v[i]@ == s
}

/// No string occurs twice in `v`.
pub open spec fn views_unique(v: Seq<String>) -> bool {
    forall|i: int, j: int| 0 <= i < v.len() && 0 <= j < v.len() && i != j ==> v[i]@ != v[j]@
}

/// The languages of `master` that `e` has no translation into, in `master`'s order.
pub open spec fn missing_langs(master: Seq<String>, e: TranslationEntry) -> Seq<Seq<char>> {
    views(master).filter(|l: Seq<char>| !langs_of(e).contains(l))
}

/// The error that names `e` as lacking, of the languages `langs`, exactly those it
/// has no translation into.
pub open spec fn lacks_error(err: IntlError, langs: Set<Seq<char>>, e: TranslationEntry) -> bool {
    err matches IntlError::MissingTranslation { key, missing }
        && key@ == e.key@ && view_set(missing@) == langs.difference(langs_of(e))
}

/// The error that names `e` as lacking the languages of `master` it has no translation into.
pub open spec fn is_missing_error(err: IntlError, master: Seq<String>, e: TranslationEntry) -> bool {
    err matches IntlError::MissingTranslation { key, missing }
        && key@ == e.key@ && views(missing@) == missing_langs(master, e)
}

/// True when the two strings hold the same characters.
pub fn str_eq(a: &str, b: &str) -> (r: bool)
    ensures
        r == (a@ == b@),
{
    let n = a.unicode_len();
    if n != b.unicode_len() {
        return false;
    }
    let mut i: usize = 0;
    while i < n
        invariant
            n == a@.len(),
            n == b@.len(),
            0 <= i <= n,
            forall|k: int| 0 <= k < i ==> a@[k] == b@[k],
        decreases n - i,
    {
        if a.get_char(i) != b.get_char(i) {
            return false;
        }
        i += 1;
    }
    assert(a@ =~= b@);
    true
}

/// True when `s` is one of the strings in `v`.
pub fn contains_str(v: &Vec<String>, s: &str) -> (r: bool)
    ensures
        r == contains_view(v@, s@),
{
    let mut i: usize = 0;
    while i < v.len()
        invariant
            0 <= i <= v@.len(),
            forall|k: int| 0 <= k < i ==> v@[k]@ != s@,
        decreases v@.len() - i,
    {
        if str_eq(v[i].as_str(), s) {
            return true;
        }
        i += 1;
    }
    false
}

/// True when the entry has a translation into `lang`.
fn has_lang(e: &TranslationEntry, lang: &str) -> (r: bool)
    ensures
        r == langs_of(*e).contains(lang@),
{
    let mut i: usize = 0;
    while i < e.translations.len()
        invariant
            0 <= i <= e.translations@.len(),
            forall|k: int| 0 <= k < i ==> e.translations@[k].0@ != lang@,
        decreases e.translations@.len() - i,
    {
        if str_eq(e.translations[i].0.as_str(), lang) {
            assert(e.translations@[i as int].0@ == lang@);
            return true;
        }
        i += 1;
    }
    false
}

/// The text of the first translation into `lang`, if any.
pub open spec fn first_text(ts: Seq<(String, String)>, lang: Seq<char>) -> Option<Seq<char>>
    decreases ts.len(),
{
    if ts.len() == 0 {
        None
    } else if ts[0].0@ == lang {
        Some(ts[0].1@)
    } else {
        first_text(ts.subrange(1, ts.len() as int), lang)
    }
}

/// The text of the last pair whose key is `key`, if any.
pub open spec fn last_match(pairs: Seq<(Seq<char>, Seq<char>)>, key: Seq<char>) -> Option<Seq<char>>
    decreases pairs.len(),
{
    if pairs.len() == 0 {
        None
    } else if pairs.last().0 == key {
        Some(pairs.last().1)
    } else {
        last_match(pairs.drop_last(), key)
    }
}

/// Every language observed in any of the entries.
pub open spec fn all_langs(entries: Seq<TranslationEntry>) -> Set<Seq<char>> {
    Set::new(|l: Seq<char>| exists|i: int| 0 <= i < entries.len() && langs_of(entries[i]).contains(l))
}

/// The set of the views of the strings in `v`.
pub open spec fn view_set(v: Seq<String>) -> Set<Seq<char>> {
    Set::new(|l: Seq<char>| contains_view(v, l))
}

/// An entry is complete when it has translations into exactly the languages `langs`.
pub open spec fn complete(e: TranslationEntry, langs: Set<Seq<char>>) -> bool {
    langs_of(e) == langs
}

/// The text of the first translation of `e` into `lang`.
fn text_for<'a>(e: &'a TranslationEntry, lang: &str) -> (r: Option<&'a String>)
    ensures
        match r {
            Some(t) => first_text(e.translations@, lang@) == Some(t@),
            None => first_text(e.translations@, lang@) is None,
        },
{
    let ghost ts = e.translations@;
    let mut i: usize = 0;
    assert(ts.subrange(0, ts.len() as int) =~= ts);
    while i < e.translations.len()
        invariant
            ts == e.translations@,
            0 <= i <= ts.len(),
            first_text(ts, lang@) == first_text(ts.subrange(i as int, ts.len() as int), lang@),
        decreases ts.len() - i,
    {
        if str_eq(e.translations[i].0.as_str(), lang) {
            return Some(&e.translations[i].1);
        }
        assert(ts.subrange(i as int, ts.len() as int).subrange(1, ts.len() - i)
            =~= ts.subrange(i + 1, ts.len() as int));
        i += 1;
    }
    None
}

/// The languages of the first `j` translations.
pub open spec fn langs_prefix(ts: Seq<(String, String)>, j: int) -> Set<Seq<char>> {
    Set::new(|l: Seq<char>| exists|m: int| 0 <= m < j && ts[m].0@ == l)
}

/// The languages of the entries, each once, in the order first seen.
pub fn observed_languages(entries: &Vec<TranslationEntry>) -> (r: Vec<String>)
    ensures
        views_unique(r@),
        view_set(r@) == all_langs(entries@),
{
    let mut r: Vec<String> = Vec::new();
    let mut i: usize = 0;
    assert(view_set(r@) =~= all_langs(entries@.take(0)));
    while i < entries.len()
        invariant
            0 <= i <= entries@.len(),
            views_unique(r@),
            view_set(r@) == all_langs(entries@.take(i as int)),
        decreases entries@.len() - i,
    {
        let e = &entries[i];
        let ghost ts = e.translations@;
        let mut j: usize = 0;
        assert(view_set(r@) =~= all_langs(entries@.take(i as int)).union(langs_prefix(ts, 0)));
        while j < e.translations.len()
            invariant
                0 <= i < entries@.len(),
                *e == entries@[i as int],
                ts == e.translations@,
                0 <= j <= ts.len(),
                views_unique(r@),
                view_set(r@) == all_langs(entries@.take(i as int)).union(langs_prefix(ts, j as int)),
            decreases ts.len() - j,
        {
            let lang = &e.translations[j].0;
            let ghost before = r@;
            let present = contains_str(&r, lang.as_str());
            if present {
                assert(view_set(before).contains(lang@));
            } else {
                r.push(lang.clone());
                assert forall|l: Seq<char>| view_set(r@).contains(l) <==> view_set(before).contains(l)
                    || l == lang@ by {
                    if contains_view(r@, l) {
                        let x = choose|x: int| 0 <= x < r@.len() && r@[x]@ == l;
                        if x < before.len() {
                            assert(before[x] == r@[x]);
                        }
                    }
                    if contains_view(before, l) {
                        let x = choose|x: int| 0 <= x < before.len() && before[x]@ == l;
                        assert(r@[x] == before[x]);
                    }
                    if l == lang@ {
                        assert(r@[before.len() as int] == *lang);
                    }
                }
            }
            assert forall|l: Seq<char>| langs_prefix(ts, j + 1).contains(l) <==> langs_prefix(ts, j as int).contains(l)
                || l == lang@ by {
                if l == lang@ {
                    assert(ts[j as int].0@ == l);
                }
            }
            assert(lang@ == ts[j as int].0@);
            assert forall|l: Seq<char>| view_set(r@).contains(l) <==> view_set(before).contains(l)
                || l == lang@ by {
                if !present {
                } else {
                    assert(r@ == before);
                }
            }
            assert forall|l: Seq<char>| view_set(r@).contains(l) <==> all_langs(entries@.take(i as int)).union(
                langs_prefix(ts, j + 1)).contains(l) by {
                assert(view_set(before).contains(l) == all_langs(entries@.take(i as int)).union(
                    langs_prefix(ts, j as int)).contains(l));
                assert(langs_prefix(ts, j + 1).contains(l) <==> langs_prefix(ts, j as int).contains(l) || l == lang@);
            }
            assert(view_set(r@) =~= all_langs(entries@.take(i as int)).union(langs_prefix(ts, j + 1)));
            j += 1;
        }
        assert forall|l: Seq<char>| all_langs(entries@.take(i + 1)).contains(l) <==>
            all_langs(entries@.take(i as int)).contains(l) || langs_prefix(ts, ts.len() as int).contains(l) by {
            if all_langs(entries@.take(i + 1)).contains(l) {
                let k = choose|k: int| 0 <= k < i + 1 && #[trigger] langs_of(entries@.take(i + 1)[k]).contains(l);
                if k < i {
                    assert(entries@.take(i as int)[k] == entries@.take(i + 1)[k]);
                } else {
                    let m = choose|m: int| 0 <= m < ts.len() && ts[m].0@ == l;
                }
            }
            if all_langs(entries@.take(i as int)).contains(l) {
                let k = choose|k: int| 0 <= k < i && #[trigger] langs_of(entries@.take(i as int)[k]).contains(l);
                assert(entries@.take(i as int)[k] == entries@.take(i + 1)[k]);
            }
            if langs_prefix(ts, ts.len() as int).contains(l) {
                let m = choose|m: int| 0 <= m < ts.len() && ts[m].0@ == l;
                assert(langs_of(entries@[i as int]).contains(l));
                assert(entries@.take(i + 1)[i as int] == entries@[i as int]);
            }
        }
        assert(view_set(r@) =~= all_langs(entries@.take(i + 1)));
        i += 1;
    }
    assert(entries@.take(entries@.len() as int) =~= entries@);
    r
}

/// Check that `entry` has translations into exactly the languages of `languages`.
/// On failure the error names the entry's key and the languages it lacks.
pub fn validate_translation_set(entry: &TranslationEntry, languages: &Vec<String>) -> (r: Result<(), IntlError>)
    ensures
        r is Ok <==> complete(*entry, view_set(languages@)),
        r matches Err(err) ==> is_missing_error(err, languages@, *entry),
        r matches Err(err) ==> lacks_error(err, view_set(languages@), *entry),
{
    let ghost pred = |l: Seq<char>| !langs_of(*entry).contains(l);
    let mut missing: Vec<String> = Vec::new();
    let mut i: usize = 0;
    reveal(Seq::filter);
    assert(views(languages@.take(0)).filter(pred) =~= views(missing@));
    while i < languages.len()
        invariant
            0 <= i <= languages@.len(),
            pred == (|l: Seq<char>| !langs_of(*entry).contains(l)),
            views(missing@) == views(languages@.take(i as int)).filter(pred),
            missing@.len() == 0 <==> forall|k: int| 0 <= k < i ==> langs_of(*entry).contains(#[trigger] languages@[k]@),
            forall|l: Seq<char>| #[trigger] contains_view(missing@, l) <==> contains_view(languages@.take(i as int), l)
                && !langs_of(*entry).contains(l),
        decreases languages@.len() - i,
    {
        assert(views(languages@.take(i + 1)).drop_last() =~= views(languages@.take(i as int)));
        assert(views(languages@.take(i + 1)).last() == languages@[i as int]@);
        let ghost vs = views(languages@.take(i + 1));
        reveal(Seq::filter);
        assert(vs.filter(pred) == if pred(vs.last()) {
            vs.drop_last().filter(pred).push(vs.last())
        } else {
            vs.drop_last().filter(pred)
        });
        let ghost mbefore = missing@;
        assert forall|l: Seq<char>| contains_view(languages@.take(i + 1), l) <==>
            contains_view(languages@.take(i as int), l) || l == languages@[i as int]@ by {
            if contains_view(languages@.take(i + 1), l) {
                let x = choose|x: int| 0 <= x < i + 1 && #[trigger] languages@.take(i + 1)[x]@ == l;
                if x < i {
                    assert(languages@.take(i as int)[x] == languages@.take(i + 1)[x]);
                }
            }
            if contains_view(languages@.take(i as int), l) {
                let x = choose|x: int| 0 <= x < i && #[trigger] languages@.take(i as int)[x]@ == l;
                assert(languages@.take(i as int)[x] == languages@.take(i + 1)[x]);
            }
            if l == languages@[i as int]@ {
                assert(languages@.take(i + 1)[i as int] == languages@[i as int]);
            }
        }
        if !has_lang(entry, languages[i].as_str()) {
            missing.push(languages[i].clone());
            assert forall|l: Seq<char>| contains_view(missing@, l) <==> contains_view(mbefore, l)
                || l == languages@[i as int]@ by {
                if contains_view(missing@, l) {
                    let x = choose|x: int| 0 <= x < missing@.len() && missing@[x]@ == l;
                    if x < mbefore.len() {
                        assert(mbefore[x] == missing@[x]);
                    }
                }
                if contains_view(mbefore, l) {
                    let x = choose|x: int| 0 <= x < mbefore.len() && mbefore[x]@ == l;
                    assert(missing@[x] == mbefore[x]);
                }
                if l == languages@[i as int]@ {
                    assert(missing@[mbefore.len() as int] == languages@[i as int]);
                }
            }
            assert(views(missing@) =~= views(languages@.take(i as int)).filter(pred).push(languages@[i as int]@));
        } else {
            assert(views(missing@) =~= views(languages@.take(i as int)).filter(pred));
        }
        assert forall|l: Seq<char>| #[trigger] contains_view(missing@, l) <==> contains_view(languages@.take(i + 1), l)
            && !langs_of(*entry).contains(l) by {
            assert(contains_view(mbefore, l) <==> contains_view(languages@.take(i as int), l)
                && !langs_of(*entry).contains(l));
        }
        i += 1;
    }
    assert(languages@.take(languages@.len() as int) =~= languages@);
    let mut extra = false;
    let mut j: usize = 0;
    while j < entry.translations.len()
        invariant
            0 <= j <= entry.translations@.len(),
            extra <==> exists|m: int| 0 <= m < j && !contains_view(languages@, #[trigger] entry.translations@[m].0@),
        decreases entry.translations@.len() - j,
    {
        if !contains_str(languages, entry.translations[j].0.as_str()) {
            extra = true;
        }
        j += 1;
    }
    if missing.len() == 0 && !extra {
        assert(langs_of(*entry) =~= view_set(languages@)) by {
            assert forall|l: Seq<char>| view_set(languages@).contains(l) implies langs_of(*entry).contains(l) by {
                let k = choose|k: int| 0 <= k < languages@.len() && languages@[k]@ == l;
            }
        }
        Ok(())
    } else {
        proof {
            if missing@.len() != 0 {
                let k = choose|k: int| 0 <= k < languages@.len() && !langs_of(*entry).contains(#[trigger] languages@[k]@);
                assert(view_set(languages@).contains(languages@[k]@));
            } else {
                let m = choose|m: int| 0 <= m < entry.translations@.len() && !contains_view(languages@, #[trigger] entry.translations@[m].0@);
                assert(langs_of(*entry).contains(entry.translations@[m].0@));
            }
        }
        assert(view_set(missing@) =~= view_set(languages@).difference(langs_of(*entry)));
        Err(IntlError::MissingTranslation { key: entry.key.clone(), missing })
    }
}

/// Check every entry with `validate_translation_set`; the first entry that fails
/// gives the error.
pub fn validate_translation_file(entries: &Vec<TranslationEntry>, languages: &Vec<String>) -> (r: Result<(), IntlError>)
    ensures
        r is Ok <==> forall|i: int| 0 <= i < entries@.len() ==> complete(#[trigger] entries@[i], view_set(languages@)),
        r matches Err(err) ==> exists|i: int| 0 <= i < entries@.len()
            && (forall|k: int| 0 <= k < i ==> complete(#[trigger] entries@[k], view_set(languages@)))
            && !complete(entries@[i], view_set(languages@))
            && is_missing_error(err, languages@, #[trigger] entries@[i])
            && lacks_error(err, view_set(languages@), entries@[i]),
{
    let mut i: usize = 0;
    while i < entries.len()
        invariant
            0 <= i <= entries@.len(),
            forall|k: int| 0 <= k < i ==> complete(#[trigger] entries@[k], view_set(languages@)),
        decreases entries@.len() - i,
    {
        match validate_translation_set(&entries[i], languages) {
            Ok(()) => {},
            Err(err) => {
                return Err(err);
            },
        }
        i += 1;
    }
    Ok(())
}

/// `first_text` finds a text exactly when the entry has the language.
pub proof fn lemma_first_text_some(ts: Seq<(String, String)>, lang: Seq<char>)
    ensures
        first_text(ts, lang) is Some <==> exists|m: int| 0 <= m < ts.len() && ts[m].0@ == lang,
    decreases ts.len(),
{
    if ts.len() > 0 {
        let rest = ts.subrange(1, ts.len() as int);
        lemma_first_text_some(rest, lang);
        if exists|m: int| 0 <= m < ts.len() && ts[m].0@ == lang {
            let m = choose|m: int| 0 <= m < ts.len() && ts[m].0@ == lang;
            if m > 0 && ts[0].0@ != lang {
                assert(rest[m - 1] == ts[m]);
            }
        }
        if exists|m: int| 0 <= m < rest.len() && rest[m].0@ == lang {
            let m = choose|m: int| 0 <= m < rest.len() && rest[m].0@ == lang;
            assert(ts[m + 1] == rest[m]);
        }
    }
}

/// The views of a list of (key, text) pairs.
pub open spec fn pairs_view(v: Seq<(String, String)>) -> Seq<(Seq<char>, Seq<char>)> {
    v.map_values(|p: (String, String)| (p.0@, p.1@))
}

/// The (key, text) pairs a dictionary is built from, for language `lang`.
pub open spec fn dictionary_pairs(entries: Seq<TranslationEntry>, lang: Seq<char>) -> Seq<(Seq<char>, Seq<char>)> {
    entries.map_values(|e: TranslationEntry| (e.key@, first_text(e.translations@, lang).unwrap()))
}

/// When a dictionary can be built: every entry has translations into every
/// language observed in any entry, and the chosen language is among them.
pub open spec fn dictionary_ok(entries: Seq<TranslationEntry>, lang: Seq<char>) -> bool {
    &&& forall|i: int| 0 <= i < entries.len() ==> complete(#[trigger] entries[i], all_langs(entries))
    &&& entries.len() > 0 ==> all_langs(entries).contains(lang)
}

/// What `get_translation` returns from decoded entries `es`: a malformed locale
/// is an error; no languages at all is an error; otherwise the dictionary that
/// `new` builds for the chosen language. The lines logged are counted.
pub open spec fn translation_outcome(
    es: Seq<TranslationEntry>,
    locale: Option<&str>,
    log_before: Seq<String>,
    log_after: Seq<String>,
    r: Result<Dictionary, IntlError>,
) -> bool {
    let langs = all_langs(es);
    if locale is Some && locale_primary(locale) is None {
        (r matches Err(err) && err is BadLocale) && log_after == log_before
    } else {
        let n: nat = (if locale is None { 1nat } else { 0nat }) + if set_picks_any(locale_primary(locale), langs) {
            1nat
        } else {
            0nat
        };
        &&& log_extended(log_before, log_after, n)
        &&& if langs == Set::<Seq<char>>::empty() {
            r matches Err(err) && err is NoLanguages
        } else {
            exists|l: Seq<char>| language_choice_ok(locale_primary(locale), langs, l) && dictionary_outcome(es, l, r)
        }
    }
}

/// What building a dictionary for `lang` from `entries` returns: a dictionary
/// of the entries' pairs when `dictionary_ok`; otherwise the error of the first
/// entry that lacks an observed language, or, when none does, the error naming
/// the first entry as lacking `lang`.
pub open spec fn dictionary_outcome(
    entries: Seq<TranslationEntry>,
    lang: Seq<char>,
    r: Result<Dictionary, IntlError>,
) -> bool {
    &&& r is Ok <==> dictionary_ok(entries, lang)
    &&& r matches Ok(d) ==> d.pairs() == dictionary_pairs(entries, lang)
    &&& r matches Err(err) ==> if forall|i: int| 0 <= i < entries.len() ==> complete(
        #[trigger] entries[i],
        all_langs(entries),
    ) {
        err matches IntlError::NoTranslation { key, lang: l } && key@ == entries[0].key@ && l@ == lang
    } else {
        exists|i: int| 0 <= i < entries.len()
            && (forall|k: int| 0 <= k < i ==> complete(#[trigger] entries[k], all_langs(entries)))
            && !complete(entries[i], all_langs(entries))
            && lacks_error(err, all_langs(entries), #[trigger] entries[i])
    }
}

/// The translations for one language: for each key, its text.
pub struct Dictionary {
    translations: Vec<(String, String)>,
}

impl Dictionary {
    /// The (key, text) pairs, in the order of the entries they came from;
    /// a later pair for the same key overrides an earlier one.
    pub closed spec fn pairs(&self) -> Seq<(Seq<char>, Seq<char>)> {
        pairs_view(self.translations@)
    }

    /// The text for `key`, if the dictionary has one.
    pub open spec fn lookup(&self, key: Seq<char>) -> Option<Seq<char>> {
        last_match(self.pairs(), key)
    }

    /// What `translate` returns: the text for `key`, or `key` itself.
    pub open spec fn translated(&self, key: Seq<char>) -> Seq<char> {
        match self.lookup(key) {
            Some(t) => t,
            None => key,
        }
    }

    /// Build the dictionary for language `langid` from the entries of all the
    /// translation files, in order. Fails when an entry lacks a language that
    /// another entry has (naming the first such entry and what it lacks), or when
    /// the entries lack `langid` (naming the first entry).
    pub fn new(entries: &Vec<TranslationEntry>, langid: &str) -> (r: Result<Dictionary, IntlError>)
        ensures
            dictionary_outcome(entries@, langid@, r),
    {
        let languages = observed_languages(entries);
        match validate_translation_file(entries, &languages) {
            Ok(()) => {},
            Err(err) => {
                return Err(err);
            },
        }
        let mut translations: Vec<(String, String)> = Vec::new();
        let mut i: usize = 0;
        while i < entries.len()
            invariant
                0 <= i <= entries@.len(),
                view_set(languages@) == all_langs(entries@),
                forall|k: int| 0 <= k < entries@.len() ==> complete(#[trigger] entries@[k], all_langs(entries@)),
                forall|k: int| 0 <= k < i ==> (#[trigger] entries@[k]).translations@.len() >= 0
                    && first_text(entries@[k].translations@, langid@) is Some,
                pairs_view(translations@) == dictionary_pairs(
                    entries@.take(i as int),
                    langid@,
                ),
            decreases entries@.len() - i,
        {
            let e = &entries[i];
            match text_for(e, langid) {
                Some(t) => {
                    let ghost before = translations@;
                    translations.push((e.key.clone(), t.clone()));
                    assert(pairs_view(translations@) =~= dictionary_pairs(
                        entries@.take(i + 1),
                        langid@,
                    )) by {
                        let a = pairs_view(translations@);
                        let b = dictionary_pairs(entries@.take(i + 1), langid@);
                        let a0 = pairs_view(before);
                        let b0 = dictionary_pairs(entries@.take(i as int), langid@);
                        assert(a0.len() == before.len());
                        assert(b0.len() == i);
                        assert(translations@.len() == before.len() + 1);
                        assert(entries@.take(i + 1).len() == i + 1);
                        assert(a.len() == b.len());
                        assert forall|k: int| 0 <= k < a.len() implies a[k] == b[k] by {
                            assert(entries@.take(i + 1)[k] == entries@[k]);
                            if k < i {
                                assert(a0[k] == b0[k]);
                                assert(entries@.take(i as int)[k] == entries@[k]);
                                assert(translations@[k] == before[k]);
                            } else {
                                assert(translations@[k] == (e.key, *t));
                            }
                        }
                    }
                },
                None => {
                    proof {
                        lemma_first_text_some(e.translations@, langid@);
                        if i > 0 {
                            let l = langid@;
                            assert(first_text(entries@[0].translations@, l) is Some);
                            lemma_first_text_some(entries@[0].translations@, l);
                            let m = choose|m: int| 0 <= m < entries@[0].translations@.len()
                                && entries@[0].translations@[m].0@ == l;
                            assert(langs_of(entries@[0]).contains(l));
                            assert(langs_of(entries@[i as int]) == all_langs(entries@));
                        }
                        assert(!langs_of(entries@[i as int]).contains(langid@));
                    }
                    return Err(IntlError::NoTranslation { key: e.key.clone(), lang: String::from_str(langid) });
                },
            }
            i += 1;
        }
        proof {
            assert(entries@.take(entries@.len() as int) =~= entries@);
            if entries@.len() > 0 {
                let l = langid@;
                lemma_first_text_some(entries@[0].translations@, l);
                let m = choose|m: int| 0 <= m < entries@[0].translations@.len()
                    && entries@[0].translations@[m].0@ == l;
                assert(langs_of(entries@[0]).contains(l));
            }
        }
        Ok(Dictionary { translations })
    }

    /// Build the dictionary for language `langid` from the texts of the
    /// translation files, as `new` does from their decoded entries.
    pub fn from_json(texts: &Vec<String>, langid: &str) -> (r: Result<Dictionary, IntlError>)
        ensures
            match all_json(texts@) {
                None => r matches Err(err) && err is BadFile,
                Some(v) => exists|es: Seq<TranslationEntry>| entries_view(es) == v
                    && dictionary_outcome(es, langid@, r),
            },
    {
        match parse_translation_files(texts) {
            Ok(entries) => {
                let r = Dictionary::new(&entries, langid);
                assert(entries_view(entries@) == all_json(texts@).unwrap()
                    && dictionary_outcome(entries@, langid@, r));
                r
            },
            Err(err) => Err(err),
        }
    }

    /// Build the dictionary for the language that the system locale (if the
    /// system gave one) selects among those of the translation files' texts:
    /// the locale's primary language when available, else the first of
    /// "en", "cn", "ru" available, else any available one (logged). A missing
    /// locale is logged too.
    pub fn get_translation(texts: &Vec<String>, locale: Option<&str>, log: &mut Vec<String>) -> (r: Result<Dictionary, IntlError>)
        ensures
            match all_json(texts@) {
                None => (r matches Err(err) && err is BadFile) && final(log)@ == old(log)@,
                Some(v) => exists|es: Seq<TranslationEntry>| #[trigger] entries_view(es) == v && translation_outcome(
                    es,
                    locale,
                    old(log)@,
                    final(log)@,
                    r,
                ),
            },
    {
        let entries = match parse_translation_files(texts) {
            Ok(es) => es,
            Err(err) => {
                return Err(err);
            },
        };
        let languages = Dictionary::get_language_list(&entries);
        proof {
            lemma_language_sets(locale_primary(locale), languages@);
            lemma_language_sets(None, languages@);
        }
        let lang = match pick_language(locale, &languages, log) {
            Ok(l) => l,
            Err(err) => {
                assert(entries_view(entries@) == all_json(texts@).unwrap());
                proof {
                    if locale is Some && locale_primary(locale) is None {
                        assert(log@ =~= log@.take(old(log)@.len() as int));
                    }
                }
                assert(translation_outcome(entries@, locale, old(log)@, log@, Err(err)));
                return Err(err);
            },
        };
        let r = Dictionary::new(&entries, lang.as_str());
        assert(entries_view(entries@) == all_json(texts@).unwrap());
        assert(translation_outcome(entries@, locale, old(log)@, log@, r));
        r
    }

    /// The languages available in the entries of the translation files, each once.
    pub fn get_language_list(entries: &Vec<TranslationEntry>) -> (r: Vec<String>)
        ensures
            views_unique(r@),
            view_set(r@) == all_langs(entries@),
    {
        observed_languages(entries)
    }

    /// The text for `key`, if the dictionary has one.
    pub fn lookup_text(&self, key: &str) -> (r: Option<&String>)
        ensures
            match r {
                Some(t) => self.lookup(key@) == Some(t@),
                None => self.lookup(key@) is None,
            },
    {
        let ghost ps = pairs_view(self.translations@);
        let mut i: usize = self.translations.len();
        assert(ps.take(i as int) =~= ps);
        while i > 0
            invariant
                0 <= i <= self.translations@.len(),
                ps == pairs_view(self.translations@),
                last_match(ps, key@) == last_match(ps.take(i as int), key@),
            decreases i,
        {
            assert(ps.take(i as int).drop_last() =~= ps.take(i - 1));
            assert(ps.take(i as int).last() == ps[i - 1]);
            if str_eq(self.translations[i - 1].0.as_str(), key) {
                return Some(&self.translations[i - 1].1);
            }
            i -= 1;
        }
        None
    }

    /// The text for `key`; where there is none, `key` itself, so that a label is
    /// never blank, and a line saying so is appended to `log`.
    pub fn translate(&self, key: &str, log: &mut Vec<String>) -> (r: String)
        ensures
            r@ == self.translated(key@),
            log_extended(old(log)@, final(log)@, if self.lookup(key@) is None { 1 } else { 0 }),
    {
        match self.lookup_text(key) {
            Some(t) => {
                assert(log@.take(log@.len() as int) =~= log@);
                t.clone()
            },
            None => {
                let line = String::from_str("No translation is available for ").concat(key);
                log.push(line);
                assert(log@.take(old(log)@.len() as int) =~= old(log)@);
                String::from_str(key)
            },
        }
    }
}

/// `after` is `before` with `n` more lines appended.
pub open spec fn log_extended(before: Seq<String>, after: Seq<String>, n: nat) -> bool {
    after.len() == before.len() + n && after.take(before.len() as int) == before
}

/// Cached translations: (call site, text), each call site once.
pub open spec fn cached_at(c: Seq<(u64, Seq<char>)>, site: u64) -> Option<Seq<char>>
    decreases c.len(),
{
    if c.len() == 0 {
        None
    } else if c.last().0 == site {
        Some(c.last().1)
    } else {
        cached_at(c.drop_last(), site)
    }
}

/// The outcome of one translation at call site `site`: a cached text is returned
/// as it is, with nothing logged and the cache unchanged; otherwise the
/// dictionary's text (or the key) is returned and cached, and one error is logged
/// exactly when the dictionary has no text for the key.
pub open spec fn t_outcome(
    cache_before: Seq<(u64, Seq<char>)>,
    cache_after: Seq<(u64, Seq<char>)>,
    log_before: Seq<Seq<char>>,
    log_after: Seq<Seq<char>>,
    d: Dictionary,
    site: u64,
    key: Seq<char>,
    r: Seq<char>,
) -> bool {
    match cached_at(cache_before, site) {
        Some(c) => r == c && cache_after == cache_before && log_after == log_before,
        None => {
            &&& r == d.translated(key)
            &&& cache_after == cache_before.push((site, r))
            &&& log_after.len() == log_before.len() + if d.lookup(key) is None {
                1int
            } else {
                0int
            }
            &&& log_after.take(log_before.len() as int) == log_before
        },
    }
}

/// Translated strings, looked up at most once per call site; the call site is a
/// number chosen by the caller.
pub struct TranslationCache {
    entries: Vec<(u64, String)>,
}

impl TranslationCache {
    pub closed spec fn view(&self) -> Seq<(u64, Seq<char>)> {
        self.entries@.map_values(|e: (u64, String)| (e.0, e.1@))
    }

    pub fn new() -> (r: Self)
        ensures
            r.view() == Seq::<(u64, Seq<char>)>::empty(),
    {
        let r = TranslationCache { entries: Vec::new() };
        assert(r.view() =~= Seq::<(u64, Seq<char>)>::empty());
        r
    }

    /// The text for `key` at call site `site`: looked up in `d` on the first call
    /// for that site, from the cache after that. A key that `d` lacks comes back as
    /// itself, and a line saying so is appended to `log`.
    pub fn t(&mut self, site: u64, key: &str, d: &Dictionary, log: &mut Vec<String>) -> (r: String)
        ensures
            t_outcome(
                old(self).view(),
                final(self).view(),
                views(old(log)@),
                views(final(log)@),
                *d,
                site,
                key@,
                r@,
            ),
    {
        let ghost c = self.view();
        let mut i: usize = self.entries.len();
        assert(c.take(i as int) =~= c);
        while i > 0
            invariant
                0 <= i <= self.entries@.len(),
                c == self.view(),
                cached_at(c, site) == cached_at(c.take(i as int), site),
            decreases i,
        {
            assert(c.take(i as int).drop_last() =~= c.take(i - 1));
            assert(c.take(i as int).last() == c[i - 1]);
            if self.entries[i - 1].0 == site {
                return self.entries[i - 1].1.clone();
            }
            i -= 1;
        }
        let text = d.translate(key, log);
        self.entries.push((site, text.clone()));
        assert(self.view() =~= c.push((site, text@)));
        assert(views(log@).take(views(old(log)@).len() as int) =~= views(old(log)@)) by {
            assert(log@.take(old(log)@.len() as int) == old(log)@);
        }
        text
    }
}

/// A key that the dictionary lacks comes back as itself, with exactly one error
/// logged, on the first call at a call site; a second call at that site returns
/// the identical cached string, logs nothing and leaves the cache as it was.
pub proof fn lemma_translation_fallback(
    c0: Seq<(u64, Seq<char>)>,
    c1: Seq<(u64, Seq<char>)>,
    c2: Seq<(u64, Seq<char>)>,
    l0: Seq<Seq<char>>,
    l1: Seq<Seq<char>>,
    l2: Seq<Seq<char>>,
    d: Dictionary,
    site: u64,
    key: Seq<char>,
    key2: Seq<char>,
    r1: Seq<char>,
    r2: Seq<char>,
)
    requires
        cached_at(c0, site) is None,
        d.lookup(key) is None,
        t_outcome(c0, c1, l0, l1, d, site, key, r1),
        t_outcome(c1, c2, l1, l2, d, site, key2, r2),
    ensures
        r1 == key,
        l1.len() == l0.len() + 1,
        r2 == r1,
        l2 == l1,
        c2 == c1,
{
    assert(c1.drop_last() == c0);
}

/// With one key translated into two languages and another key only into the
/// first of them, building the dictionary fails, naming the second key and the
/// second language as missing.
pub proof fn lemma_dictionary_names_missing(
    e1: TranslationEntry,
    e2: TranslationEntry,
    a: Seq<char>,
    b: Seq<char>,
    lang: Seq<char>,
    r: Result<Dictionary, IntlError>,
)
    requires
        a != b,
        langs_of(e1) == set![a, b],
        langs_of(e2) == set![a],
        dictionary_outcome(seq![e1, e2], lang, r),
    ensures
        r matches Err(err) && (err matches IntlError::MissingTranslation { key, missing }
            && key@ == e2.key@ && view_set(missing@) == set![b]),
{
    let entries = seq![e1, e2];
    assert(all_langs(entries) =~= set![a, b]) by {
        assert forall|l: Seq<char>| #[trigger] set![a, b].contains(l) implies all_langs(entries).contains(l) by {
            assert(langs_of(entries[0]).contains(l));
        }
        assert forall|l: Seq<char>| all_langs(entries).contains(l) implies set![a, b].contains(l) by {
            let i = choose|i: int| 0 <= i < entries.len() && langs_of(entries[i]).contains(l);
        }
    }
    assert(!complete(entries[1], all_langs(entries))) by {
        assert(!set![a].contains(b));
        assert(set![a, b].contains(b));
    }
    assert(complete(entries[0], all_langs(entries)));
    let err = r.get_Err_0();
    let i = choose|i: int| 0 <= i < entries.len()
        && (forall|k: int| 0 <= k < i ==> complete(#[trigger] entries[k], all_langs(entries)))
        && !complete(entries[i], all_langs(entries))
        && lacks_error(err, all_langs(entries), #[trigger] entries[i]);
    assert(i == 1);
    assert(set![a, b].difference(set![a]) =~= set![b]);
}

#[verifier::external_type_specification]
#[verifier::external_body]
pub struct ExJsonError(serde_json::Error);

#[verifier::external_type_specification]
#[verifier::external_body]
pub struct ExLanguageTagParseError(oxilangtag::LanguageTagParseError);

/// The view of one entry: its key and its (language, text) pairs.
pub open spec fn entry_view(e: TranslationEntry) -> (Seq<char>, Seq<(Seq<char>, Seq<char>)>) {
    (e.key@, pairs_view(e.translations@))
}

/// The views of a list of entries.
pub open spec fn entries_view(s: Seq<TranslationEntry>) -> Seq<(Seq<char>, Seq<(Seq<char>, Seq<char>)>)> {
    s.map_values(|e: TranslationEntry| entry_view(e))
}

/// What a translation file's text decodes to: for each key, in key order, its
/// (language, text) pairs in language order; none when the text is not a JSON
/// object whose values are objects of strings.
pub uninterp spec fn translation_json(text: Seq<char>) -> Option<Seq<(Seq<char>, Seq<(Seq<char>, Seq<char>)>)>>;

/// A translation file as serde_json decodes it: key to language to text.
type DecodedFile = std::collections::BTreeMap<String, std::collections::BTreeMap<String, String>>;

/// Relies on serde_json::from_str, decoding into ordered maps of strings: the
/// result depends on the text alone.
#[verifier::external_body]
fn decode_translation_json(text: &str) -> (r: Result<TranslationFile, serde_json::Error>)
    ensures
        match r {
            Ok(f) => translation_json(text@) == Some(entries_view(f@)),
            Err(_) => translation_json(text@) is None,
        },
{
    serde_json::from_str::<DecodedFile>(text).map(|m| {
        m.into_iter().map(|(key, v)| TranslationEntry { key, translations: v.into_iter().collect() }).collect()
    })
}

/// Relies on serde_json::Error's Display: a human-readable reason.
#[verifier::external_body]
fn json_error_text(e: &serde_json::Error) -> String {
    e.to_string()
}

/// Decode the text of one translation file into its entries, in key order.
pub fn parse_translation_file(text: &str) -> (r: Result<TranslationFile, IntlError>)
    ensures
        match r {
            Ok(f) => translation_json(text@) == Some(entries_view(f@)),
            Err(err) => translation_json(text@) is None && err is BadFile,
        },
{
    match decode_translation_json(text) {
        Ok(f) => Ok(f),
        Err(e) => Err(IntlError::BadFile(json_error_text(&e))),
    }
}

/// The decoded entries of all the texts, in order, when each one decodes.
pub open spec fn all_json(texts: Seq<String>) -> Option<Seq<(Seq<char>, Seq<(Seq<char>, Seq<char>)>)>>
    decreases texts.len(),
{
    if texts.len() == 0 {
        Some(Seq::empty())
    } else {
        match (all_json(texts.drop_last()), translation_json(texts.last()@)) {
            (Some(a), Some(b)) => Some(a + b),
            _ => None,
        }
    }
}

/// Decode the texts of all the translation files and put their entries one
/// after another; the first text that does not decode gives the error.
pub fn parse_translation_files(texts: &Vec<String>) -> (r: Result<Vec<TranslationEntry>, IntlError>)
    ensures
        match r {
            Ok(es) => all_json(texts@) == Some(entries_view(es@)),
            Err(err) => all_json(texts@) is None && err is BadFile,
        },
{
    let mut all: Vec<TranslationEntry> = Vec::new();
    let mut i: usize = 0;
    assert(texts@.take(0) =~= Seq::<String>::empty());
    assert(entries_view(all@) =~= Seq::empty());
    while i < texts.len()
        invariant
            0 <= i <= texts@.len(),
            all_json(texts@.take(i as int)) == Some(entries_view(all@)),
        decreases texts@.len() - i,
    {
        assert(texts@.take(i + 1).drop_last() =~= texts@.take(i as int));
        assert(texts@.take(i + 1).last() == texts@[i as int]);
        match parse_translation_file(texts[i].as_str()) {
            Ok(mut f) => {
                let ghost a = all@;
                let ghost b = f@;
                all.append(&mut f);
                assert(entries_view(all@) =~= entries_view(a) + entries_view(b));
            },
            Err(err) => {
                proof {
                    lemma_all_json_none_extends(texts@, i as int + 1);
                }
                return Err(err);
            },
        }
        i += 1;
    }
    assert(texts@.take(texts@.len() as int) =~= texts@);
    Ok(all)
}

/// Once a prefix of the texts fails to decode, all of them do.
pub proof fn lemma_all_json_none_extends(texts: Seq<String>, n: int)
    requires
        0 <= n <= texts.len(),
        all_json(texts.take(n)) is None,
    ensures
        all_json(texts) is None,
    decreases texts.len() - n,
{
    if n < texts.len() {
        assert(texts.take(n + 1).drop_last() =~= texts.take(n));
        lemma_all_json_none_extends(texts, n + 1);
    } else {
        assert(texts.take(n) =~= texts);
    }
}

/// `s` with every '_' read as '-'.
pub open spec fn hyphenated(s: Seq<char>) -> Seq<char> {
    s.map_values(|c: char| if c == '_' { '-' } else { c })
}

/// `s` with every '_' replaced by '-'.
pub fn underscores_to_hyphens(s: &str) -> (r: String)
    ensures
        r@ == hyphenated(s@),
{
    let n = s.unicode_len();
    let mut r = String::new();
    let mut i: usize = 0;
    proof {
        reveal_strlit("-");
    }
    while i < n
        invariant
            n == s@.len(),
            0 <= i <= n,
            r@ == hyphenated(s@.take(i as int)),
        decreases n - i,
    {
        let ghost before = r@;
        if s.get_char(i) == '_' {
            proof {
                reveal_strlit("-");
            }
            r.append("-");
            assert(r@ =~= before.push('-'));
        } else {
            let one = s.substring_char(i, i + 1);
            assert(one@ =~= seq![s@[i as int]]);
            r.append(one);
            assert(r@ =~= before.push(s@[i as int]));
        }
        assert(s@.take(i + 1) =~= s@.take(i as int).push(s@[i as int]));
        assert(hyphenated(s@.take(i + 1)) =~= hyphenated(s@.take(i as int)).push(
            if s@[i as int] == '_' { '-' } else { s@[i as int] },
        ));
        assert(r@ =~= hyphenated(s@.take(i + 1)));
        i += 1;
    }
    assert(s@.take(n as int) =~= s@);
    r
}

/// The primary language subtag of a well-formed language tag; none for a
/// malformed tag.
pub uninterp spec fn primary_language_of(tag: Seq<char>) -> Option<Seq<char>>;

/// Relies on oxilangtag::LanguageTag::parse and primary_language.
#[verifier::external_body]
fn primary_language(tag: &str) -> (r: Result<String, oxilangtag::LanguageTagParseError>)
    ensures
        match r {
            Ok(p) => primary_language_of(tag@) == Some(p@),
            Err(_) => primary_language_of(tag@) is None,
        },
{
    match oxilangtag::LanguageTag::parse(tag) {
        Ok(t) => Ok(t.primary_language().to_string()),
        Err(e) => Err(e),
    }
}

/// The languages tried, in order, when the system locale gives none available.
pub open spec fn fallback_languages() -> Seq<Seq<char>> {
    seq![seq!['e', 'n'], seq!['c', 'n'], seq!['r', 'u']]
}

/// The language chosen given the locale's primary language (if any) and the
/// available languages: the locale's when available; else the first available
/// of the fallback list; else the first available one; else none.
pub open spec fn chosen_language(primary: Option<Seq<char>>, available: Seq<String>) -> Option<Seq<char>> {
    if primary is Some && contains_view(available, primary.unwrap()) {
        primary
    } else if contains_view(available, fallback_languages()[0]) {
        Some(fallback_languages()[0])
    } else if contains_view(available, fallback_languages()[1]) {
        Some(fallback_languages()[1])
    } else if contains_view(available, fallback_languages()[2]) {
        Some(fallback_languages()[2])
    } else if available.len() > 0 {
        Some(available[0]@)
    } else {
        None
    }
}

/// The primary language of the locale string (with '_' read as '-'), if the
/// system gave a locale and it is well formed.
pub open spec fn locale_primary(locale: Option<&str>) -> Option<Seq<char>> {
    match locale {
        None => None,
        Some(loc) => primary_language_of(hyphenated(loc@)),
    }
}

/// `l` is the language to choose from the set `langs`: the locale's when there,
/// else the first of the fallback list there, else any one.
pub open spec fn language_choice_ok(primary: Option<Seq<char>>, langs: Set<Seq<char>>, l: Seq<char>) -> bool {
    if primary is Some && langs.contains(primary.unwrap()) {
        l == primary.unwrap()
    } else if langs.contains(fallback_languages()[0]) {
        l == fallback_languages()[0]
    } else if langs.contains(fallback_languages()[1]) {
        l == fallback_languages()[1]
    } else if langs.contains(fallback_languages()[2]) {
        l == fallback_languages()[2]
    } else {
        langs.contains(l)
    }
}

/// What `chosen_language` picks from a list is a right choice from its set.
pub proof fn lemma_chosen_language_ok(primary: Option<Seq<char>>, available: Seq<String>, l: Seq<char>)
    requires
        chosen_language(primary, available) == Some(l),
    ensures
        language_choice_ok(primary, view_set(available), l),
{
    if !(primary is Some && contains_view(available, primary.unwrap())) && !contains_view(available, fallback_languages()[0])
        && !contains_view(available, fallback_languages()[1]) && !contains_view(available, fallback_languages()[2]) {
        assert(contains_view(available, available[0]@));
    }
}

/// True when the choice falls to an arbitrary available language: neither the
/// locale's language nor any of the fallback list is available, but some is.
pub open spec fn picks_any(primary: Option<Seq<char>>, available: Seq<String>) -> bool {
    &&& !(primary is Some && contains_view(available, primary.unwrap()))
    &&& !contains_view(available, fallback_languages()[0])
    &&& !contains_view(available, fallback_languages()[1])
    &&& !contains_view(available, fallback_languages()[2])
    &&& available.len() > 0
}

/// `picks_any` over the set of available languages.
pub open spec fn set_picks_any(primary: Option<Seq<char>>, langs: Set<Seq<char>>) -> bool {
    &&& !(primary is Some && langs.contains(primary.unwrap()))
    &&& !langs.contains(fallback_languages()[0])
    &&& !langs.contains(fallback_languages()[1])
    &&& !langs.contains(fallback_languages()[2])
    &&& langs != Set::<Seq<char>>::empty()
}

/// The view of an optional string.
pub open spec fn opt_view(o: Option<&str>) -> Option<Seq<char>> {
    match o {
        Some(p) => Some(p@),
        None => None,
    }
}

/// Choose the language, given the primary language of the system locale (if it
/// gave one) and the available languages. Fails only when none is available.
/// Picking an arbitrary language appends a line saying so to `log`.
pub fn choose_language(primary: Option<&str>, available: &Vec<String>, log: &mut Vec<String>) -> (r: Result<String, IntlError>)
    ensures
        match chosen_language(opt_view(primary), available@) {
            Some(l) => r matches Ok(s) && s@ == l,
            None => r matches Err(IntlError::NoLanguages),
        },
        log_extended(old(log)@, final(log)@, if picks_any(opt_view(primary), available@) { 1 } else { 0 }),
{
    assert(log@.take(log@.len() as int) =~= log@);
    if let Some(p) = primary {
        if contains_str(available, p) {
            return Ok(String::from_str(p));
        }
    }
    let en = "en";
    let cn = "cn";
    let ru = "ru";
    proof {
        reveal_strlit("en");
        reveal_strlit("cn");
        reveal_strlit("ru");
        assert(en@ =~= fallback_languages()[0]);
        assert(cn@ =~= fallback_languages()[1]);
        assert(ru@ =~= fallback_languages()[2]);
    }
    if contains_str(available, en) {
        Ok(String::from_str(en))
    } else if contains_str(available, cn) {
        Ok(String::from_str(cn))
    } else if contains_str(available, ru) {
        Ok(String::from_str(ru))
    } else if available.len() > 0 {
        let line = String::from_str("No default language choices available. Picking ").concat(available[0].as_str());
        log.push(line);
        assert(log@.take(old(log)@.len() as int) =~= old(log)@);
        Ok(available[0].clone())
    } else {
        Err(IntlError::NoLanguages)
    }
}

/// How many lines choosing a language logs: one when the system gave no
/// locale, one when an arbitrary language is picked.
pub open spec fn pick_lines(locale: Option<&str>, available: Seq<String>) -> nat {
    match locale {
        None => 1nat + if picks_any(None, available) { 1nat } else { 0nat },
        Some(_) => match locale_primary(locale) {
            None => 0nat,
            Some(p) => if picks_any(Some(p), available) { 1nat } else { 0nat },
        },
    }
}

/// Choose the language from the system locale string (if the system gave one)
/// and the available languages: the locale's primary language, with '_' read
/// as '-', when available; otherwise as `choose_language` says. A locale that is
/// not a well-formed language tag is an error; a missing locale is logged.
pub fn pick_language(locale: Option<&str>, available: &Vec<String>, log: &mut Vec<String>) -> (r: Result<String, IntlError>)
    ensures
        match locale {
            None => match chosen_language(None, available@) {
                Some(l) => r matches Ok(s) && s@ == l,
                None => r matches Err(IntlError::NoLanguages),
            },
            Some(loc) => match locale_primary(locale) {
                None => r matches Err(IntlError::BadLocale(s)) && s@ == loc@,
                Some(p) => match chosen_language(Some(p), available@) {
                    Some(l) => r matches Ok(s) && s@ == l,
                    None => r matches Err(IntlError::NoLanguages),
                },
            },
        },
        log_extended(old(log)@, final(log)@, pick_lines(locale, available@)),
{
    match locale {
        None => {
            let line = String::from_str("System did not provide a locale.");
            log.push(line);
            let ghost mid = log@;
            let r = choose_language(None, available, log);
            assert(log@.take(old(log)@.len() as int) =~= old(log)@) by {
                assert(log@.take(mid.len() as int) == mid);
                assert(mid.take(old(log)@.len() as int) =~= old(log)@);
                assert(log@.take(old(log)@.len() as int) =~= mid.take(old(log)@.len() as int));
            }
            r
        },
        Some(loc) => {
            let tag = underscores_to_hyphens(loc);
            match primary_language(tag.as_str()) {
                Ok(p) => choose_language(Some(p.as_str()), available, log),
                Err(_) => {
                    assert(log@.take(log@.len() as int) =~= log@);
                    Err(IntlError::BadLocale(String::from_str(loc)))
                },
            }
        },
    }
}

/// The list-based choice agrees with the set-based description.
pub proof fn lemma_language_sets(primary: Option<Seq<char>>, available: Seq<String>)
    ensures
        picks_any(primary, available) == set_picks_any(primary, view_set(available)),
        chosen_language(primary, available) is None <==> view_set(available) == Set::<Seq<char>>::empty(),
        chosen_language(primary, available) matches Some(l) ==> language_choice_ok(primary, view_set(available), l),
{
    if available.len() > 0 {
        assert(view_set(available).contains(available[0]@));
    } else {
        assert(view_set(available) =~= Set::<Seq<char>>::empty());
    }
    if let Some(l) = chosen_language(primary, available) {
        lemma_chosen_language_ok(primary, available, l);
    }
}

} // verus!
