//! The translation store and language state: construction from raw documents,
//! dotted-key resolution with fallback, and the language-change transition
//! gated by persistence.

use vstd::prelude::*;
use vstd::string::StringExecFns;
use crate::errors::{InitError, StateError};
use crate::json::{parse_document, parsed_document};
use crate::keys::{split_dots, split_key};
use crate::sink::PersistenceSink;
use crate::value::{display_text, find_entry, lookup_entry, walk, TransValue};

verus! {

/// Configuration: the supported language codes in order (the first is the
/// default and fallback language), and the raw translation document of each,
/// as pairs of language code and unparsed text.
#[derive(Debug, Clone, PartialEq)]
pub struct I18nConfig {
    /// Supported languages, in order; the first entry is the fallback.
    pub languages: Vec<String>,
    /// Raw documents, keyed by language code; the first entry for a code
    /// counts.
    pub translations: Vec<(String, String)>,
}

/// Which browser storage a host application persists the selection in. The
/// core is indifferent: it only ever talks to a [`PersistenceSink`], and a
/// host maps this choice to one.
#[derive(Debug, Clone, PartialEq)]
pub enum StorageType {
    /// The browser's persistent per-origin storage.
    LocalStorage,
    /// The browser's session-scoped storage.
    SessionStorage,
}

impl Default for StorageType {
    fn default() -> (r: Self)
        ensures
            r == StorageType::LocalStorage,
    {
        StorageType::LocalStorage
    }
}

/// The value under the first entry of `m` whose key reads as `k`, if any.
pub open spec fn assoc(m: Seq<(Seq<char>, Seq<char>)>, k: Seq<char>) -> Option<Seq<char>>
    decreases m.len(),
{
    if m.len() == 0 {
        None
    } else if m[0].0 == k {
        Some(m[0].1)
    } else {
        assoc(m.drop_first(), k)
    }
}

/// A prefix of `m` without a matching key leaves `assoc` unchanged on the
/// rest.
proof fn lemma_assoc_skip(m: Seq<(Seq<char>, Seq<char>)>, k: Seq<char>, i: int)
    requires
        0 <= i <= m.len(),
        forall|j: int| 0 <= j < i ==> (#[trigger] m[j]).0 != k,
    ensures
        assoc(m, k) == assoc(m.skip(i), k),
    decreases i,
{
    if i > 0 {
        assert(m.drop_first().skip(i - 1) =~= m.skip(i));
        lemma_assoc_skip(m.drop_first(), k, i - 1);
    } else {
        assert(m.skip(0) =~= m);
    }
}

/// Finds the raw document stored under `k`.
fn find_raw<'a>(m: &'a Vec<(String, String)>, k: &String) -> (r: Option<&'a String>)
    ensures
        match r {
            Some(text) => assoc(m.deep_view(), k@) == Some(text@),
            None => assoc(m.deep_view(), k@) is None,
        },
{
    let n = m.len();
    let mut i: usize = 0;
    while i < n
        invariant
            i <= n == m@.len(),
            forall|j: int| 0 <= j < i ==> (#[trigger] m.deep_view()[j]).0 != k@,
        decreases n - i,
    {
        if m[i].0 == *k {
            proof {
                lemma_assoc_skip(m.deep_view(), k@, i as int);
                assert(m.deep_view().skip(i as int)[0] == m.deep_view()[i as int]);
            }
            return Some(&m[i].1);
        }
        proof {
            assert(m.deep_view()[i as int] == (m@[i as int].0@, m@[i as int].1@));
        }
        i += 1;
    }
    proof {
        lemma_assoc_skip(m.deep_view(), k@, n as int);
    }
    None
}

/// Whether `lang` occurs in `langs`.
fn contains_lang(langs: &Vec<String>, lang: &str) -> (r: bool)
    ensures
        r == langs.deep_view().contains(lang@),
{
    let owned = lang.to_owned();
    let n = langs.len();
    let mut i: usize = 0;
    while i < n
        invariant
            i <= n == langs@.len(),
            owned@ == lang@,
            forall|j: int| 0 <= j < i ==> langs.deep_view()[j] != lang@,
        decreases n - i,
    {
        if langs[i] == owned {
            proof {
                assert(langs.deep_view()[i as int] == lang@);
            }
            return true;
        }
        i += 1;
    }
    proof {
        if langs.deep_view().contains(lang@) {
            let j = choose|j: int|
                0 <= j < langs.deep_view().len() && langs.deep_view()[j] == lang@;
            assert(langs.deep_view()[j] != lang@);
        }
    }
    false
}

/// The raw map carries a document for `lang` and that document parses.
pub open spec fn doc_ok(raw: Seq<(Seq<char>, Seq<char>)>, lang: Seq<char>) -> bool {
    &&& assoc(raw, lang) is Some
    &&& parsed_document(assoc(raw, lang).unwrap()) is Some
}

/// Every language of `langs` has a document in `raw` that parses.
pub open spec fn all_docs_ok(langs: Seq<Seq<char>>, raw: Seq<(Seq<char>, Seq<char>)>) -> bool {
    forall|i: int| 0 <= i < langs.len() ==> doc_ok(raw, #[trigger] langs[i])
}

/// Construction succeeds exactly when at least one language is configured and
/// every configured language has a document that parses.
pub open spec fn build_ok(langs: Seq<Seq<char>>, raw: Seq<(Seq<char>, Seq<char>)>) -> bool {
    &&& langs.len() > 0
    &&& all_docs_ok(langs, raw)
}

/// Every language of `langs`, in order, carries in `docs` the parse of its
/// raw document from `raw`.
pub open spec fn loaded_docs(
    docs: Seq<(String, TransValue)>,
    langs: Seq<Seq<char>>,
    raw: Seq<(Seq<char>, Seq<char>)>,
) -> bool {
    &&& docs.len() == langs.len()
    &&& forall|i: int| 0 <= i < langs.len() ==> (#[trigger] docs[i]).0@ == langs[i]
    &&& forall|i: int|
        0 <= i < langs.len() ==> parsed_document(assoc(raw, langs[i]).unwrap()) == Some(
            (#[trigger] docs[i]).1,
        )
}

/// The error owed when the scan over `langs`, in order, first fails: a
/// language without a document yields `MissingTranslation`, one whose
/// document does not parse yields `InvalidDocument`.
pub open spec fn expected_failure_from(
    e: InitError,
    langs: Seq<Seq<char>>,
    raw: Seq<(Seq<char>, Seq<char>)>,
) -> bool
    decreases langs.len(),
{
    if langs.len() == 0 {
        false
    } else if assoc(raw, langs[0]) is None {
        e matches InitError::MissingTranslation(l) && l@ == langs[0]
    } else if parsed_document(assoc(raw, langs[0]).unwrap()) is None {
        e matches InitError::InvalidDocument(l, _) && l@ == langs[0]
    } else {
        expected_failure_from(e, langs.drop_first(), raw)
    }
}

/// The construction error owed for `langs` and `raw`: an empty list is
/// refused outright, otherwise the first failing language decides.
pub open spec fn expected_failure(
    e: InitError,
    langs: Seq<Seq<char>>,
    raw: Seq<(Seq<char>, Seq<char>)>,
) -> bool {
    if langs.len() == 0 {
        e is NoLanguagesConfigured
    } else {
        expected_failure_from(e, langs, raw)
    }
}

/// A failure first seen at position `i`, after a clean prefix, is the failure
/// the whole scan owes.
proof fn lemma_expected_failure_at(
    e: InitError,
    langs: Seq<Seq<char>>,
    raw: Seq<(Seq<char>, Seq<char>)>,
    i: int,
)
    requires
        0 <= i < langs.len(),
        forall|j: int| 0 <= j < i ==> doc_ok(raw, #[trigger] langs[j]),
        if assoc(raw, langs[i]) is None {
            e matches InitError::MissingTranslation(l) && l@ == langs[i]
        } else {
            &&& parsed_document(assoc(raw, langs[i]).unwrap()) is None
            &&& e matches InitError::InvalidDocument(l, _) && l@ == langs[i]
        },
    ensures
        expected_failure_from(e, langs, raw),
    decreases i,
{
    if i > 0 {
        assert(doc_ok(raw, langs[0]));
        lemma_expected_failure_at(e, langs.drop_first(), raw, i - 1);
    }
}

/// The diagnostic text resolution degrades to when a key is found nowhere: it
/// names the key and the active language.
pub open spec fn placeholder_of(key: Seq<char>, lang: Seq<char>) -> Seq<char> {
    "Key '"@ + key + "' not found for language '"@ + lang + "'"@
}

/// The internationalization state: the configuration it was built from, the
/// parsed document of every supported language, and the active language.
#[derive(Debug)]
pub struct I18n {
    /// The configuration the state was built from.
    pub config: I18nConfig,
    current_language: String,
    translations: Vec<(String, TransValue)>,
}

impl I18n {
    /// The configured language codes, in order.
    pub closed spec fn languages(self) -> Seq<Seq<char>> {
        self.config.languages.deep_view()
    }

    /// The configuration the state was built from, as contracts speak of it.
    pub closed spec fn spec_config(self) -> I18nConfig {
        self.config
    }

    /// The configured languages a state reports are exactly those of its
    /// configuration, in order.
    pub proof fn lemma_languages_of_config(self)
        ensures
            self.languages() == self.spec_config().languages.deep_view(),
    {
    }

    /// The active language code.
    pub closed spec fn current(self) -> Seq<char> {
        self.current_language@
    }

    /// The parsed document of each language, keyed by language code, in the
    /// order of the configured list.
    pub closed spec fn docs(self) -> Seq<(String, TransValue)> {
        self.translations@
    }

    /// Whether `lang` is one of the configured languages.
    pub open spec fn supports(self, lang: Seq<char>) -> bool {
        self.languages().contains(lang)
    }

    /// The state's invariant: at least one language, one parsed document per
    /// language in list order, and an active language from the list.
    pub open spec fn wf(self) -> bool {
        &&& self.languages().len() > 0
        &&& self.docs().len() == self.languages().len()
        &&& forall|i: int|
            0 <= i < self.languages().len() ==> (#[trigger] self.docs()[i]).0@
                == self.languages()[i]
        &&& self.supports(self.current())
    }

    /// What a lookup of `key` resolves to: the value walked to in the active
    /// language's document, else the one in the default (first) language's
    /// document, else the placeholder naming key and active language. A text
    /// leaf displays verbatim, any other value through its rendering.
    pub open spec fn spec_resolve(self, key: Seq<char>) -> Seq<char> {
        let segs = split_dots(key);
        let active_hit = match lookup_entry(self.docs(), self.current()) {
            Some(doc) => walk(doc, segs),
            None => None,
        };
        let hit = match active_hit {
            Some(v) => Some(v),
            None => match lookup_entry(self.docs(), self.languages()[0]) {
                Some(doc) => walk(doc, segs),
                None => None,
            },
        };
        match hit {
            Some(v) => v.display(),
            None => placeholder_of(key, self.current()),
        }
    }

    /// Builds the state from a configuration and the raw documents: every
    /// configured language must carry a document that parses, in which case
    /// the first language becomes active. Construction is all-or-nothing.
    pub fn new(config: I18nConfig, translations: Vec<(String, String)>) -> (r: Result<
        I18n,
        InitError,
    >)
        ensures
            ({
                let langs = config.languages.deep_view();
                let raw = translations.deep_view();
                match r {
                    Ok(state) => {
                        &&& build_ok(langs, raw)
                        &&& state.wf()
                        &&& state.spec_config() == config
                        &&& state.languages() == langs
                        &&& state.current() == langs[0]
                        &&& loaded_docs(state.docs(), langs, raw)
                    },
                    Err(e) => {
                        &&& !build_ok(langs, raw)
                        &&& expected_failure(e, langs, raw)
                    },
                }
            }),
    {
        let ghost langs = config.languages.deep_view();
        let docs = match Self::load_translations(&config.languages, &translations) {
            Ok(docs) => docs,
            Err(e) => {
                return Err(e);
            },
        };
        if config.languages.len() == 0 {
            return Err(InitError::NoLanguagesConfigured);
        }
        let current_language = config.languages[0].clone();
        let state = I18n { config, current_language, translations: docs };
        proof {
            assert(state.languages() == langs);
            assert(state.supports(state.current())) by {
                assert(state.languages()[0] == state.current());
            }
        }
        Ok(state)
    }

    /// Parses the raw document of every language of `languages`, in list
    /// order: a language without a document, or with one that does not parse,
    /// fails the whole load with the first such failure.
    fn load_translations(languages: &Vec<String>, translations: &Vec<(String, String)>) -> (r:
        Result<Vec<(String, TransValue)>, InitError>)
        ensures
            ({
                let langs = languages.deep_view();
                let raw = translations.deep_view();
                match r {
                    Ok(docs) => {
                        &&& all_docs_ok(langs, raw)
                        &&& loaded_docs(docs@, langs, raw)
                    },
                    Err(e) => {
                        &&& !all_docs_ok(langs, raw)
                        &&& expected_failure_from(e, langs, raw)
                    },
                }
            }),
    {
        let ghost langs = languages.deep_view();
        let ghost raw = translations.deep_view();
        let n = languages.len();
        let mut docs: Vec<(String, TransValue)> = Vec::new();
        let mut i: usize = 0;
        while i < n
            invariant
                i <= n == languages@.len(),
                langs == languages.deep_view(),
                raw == translations.deep_view(),
                docs@.len() == i,
                forall|j: int| 0 <= j < i ==> doc_ok(raw, #[trigger] langs[j]),
                forall|j: int| 0 <= j < i ==> (#[trigger] docs@[j]).0@ == langs[j],
                forall|j: int|
                    0 <= j < i ==> parsed_document(assoc(raw, langs[j]).unwrap()) == Some(
                        (#[trigger] docs@[j]).1,
                    ),
            decreases n - i,
        {
            let lang = &languages[i];
            proof {
                assert(langs[i as int] == lang@);
            }
            match find_raw(translations, lang) {
                None => {
                    let e = InitError::MissingTranslation(lang.clone());
                    proof {
                        lemma_expected_failure_at(e, langs, raw, i as int);
                    }
                    return Err(e);
                },
                Some(text) => {
                    match parse_document(text.as_str()) {
                        Err(detail) => {
                            let e = InitError::InvalidDocument(lang.clone(), detail);
                            proof {
                                lemma_expected_failure_at(e, langs, raw, i as int);
                            }
                            return Err(e);
                        },
                        Ok(node) => {
                            docs.push((lang.clone(), node));
                        },
                    }
                },
            }
            i += 1;
        }
        Ok(docs)
    }

    /// The active language code.
    pub fn get_current_language(&self) -> (r: &str)
        ensures
            r@ == self.current(),
    {
        self.current_language.as_str()
    }

    /// Applies the outcome of the persistence write for a validated language
    /// change: the in-memory language moves exactly when the write went
    /// through, so the stored and the in-memory selection never diverge.
    pub fn commit_language(&mut self, language: &str, outcome: Result<(), String>) -> (r: Result<
        (),
        StateError,
    >)
        requires
            old(self).supports(language@),
        ensures
            final(self).spec_config() == old(self).spec_config(),
            final(self).docs() == old(self).docs(),
            outcome is Ok ==> r is Ok && final(self).current() == language@,
            outcome matches Err(d) ==> r == Err::<(), StateError>(
                StateError::PersistenceFailure(d),
            ) && *final(self) == *old(self),
            old(self).wf() ==> final(self).wf(),
    {
        match outcome {
            Ok(_) => {
                self.current_language = language.to_owned();
                Ok(())
            },
            Err(d) => Err(StateError::PersistenceFailure(d)),
        }
    }

    /// Changes the active language: the request is validated against the
    /// configured list, then written to the sink, and only a successful write
    /// moves the in-memory state. On any error the state is left exactly as
    /// it was.
    pub fn set_translation_language<S: PersistenceSink>(
        &mut self,
        language: &str,
        sink: &mut S,
        storage_name: &str,
    ) -> (r: Result<(), StateError>)
        ensures
            final(self).spec_config() == old(self).spec_config(),
            final(self).docs() == old(self).docs(),
            old(self).wf() ==> final(self).wf(),
            !old(self).supports(language@) ==> (r matches Err(StateError::UnsupportedLanguage(l))
                && l@ == language@) && *final(self) == *old(self),
            old(self).supports(language@) && r is Ok ==> final(self).current() == language@,
            old(self).supports(language@) && r is Err ==> r matches Err(
                StateError::PersistenceFailure(_),
            ),
            r is Err ==> *final(self) == *old(self),
    {
        if !contains_lang(&self.config.languages, language) {
            return Err(StateError::UnsupportedLanguage(language.to_owned()));
        }
        let outcome = sink.set(storage_name, language);
        self.commit_language(language, outcome)
    }

    /// Derives the startup language from what the persistence sink had
    /// stored: a stored, supported code wins; otherwise a supported
    /// configured default; otherwise the language stays as constructed. No
    /// write-back happens here.
    pub fn init_language(&mut self, stored: Option<String>, default_language: &str)
        ensures
            final(self).spec_config() == old(self).spec_config(),
            final(self).docs() == old(self).docs(),
            final(self).current() == ({
                if stored matches Some(l) && old(self).supports(l@) {
                    stored.unwrap()@
                } else if old(self).supports(default_language@) {
                    default_language@
                } else {
                    old(self).current()
                }
            }),
            old(self).wf() ==> final(self).wf(),
    {
        match stored {
            Some(l) => {
                if contains_lang(&self.config.languages, l.as_str()) {
                    self.current_language = l;
                    return;
                }
            },
            None => {},
        }
        if contains_lang(&self.config.languages, default_language) {
            self.current_language = default_language.to_owned();
        }
    }

    /// Resolves a dotted key against the active language's document, falling
    /// back to the default (first) language, and degrading to a placeholder
    /// that names the key and the active language. Never an error: a missing
    /// key must not break rendering.
    pub fn t(&self, key: &str) -> (r: String)
        requires
            self.wf(),
        ensures
            r@ == self.spec_resolve(key@),
    {
        let segs = split_key(key);
        proof {
            assert(segs.deep_view().skip(0) =~= segs.deep_view());
        }
        let active_hit = match find_entry(&self.translations, &self.current_language) {
            Some(doc) => walk_from_start(doc, &segs),
            None => None,
        };
        let hit = match active_hit {
            Some(v) => Some(v),
            None => match find_entry(&self.translations, &self.config.languages[0]) {
                Some(doc) => walk_from_start(doc, &segs),
                None => None,
            },
        };
        match hit {
            Some(v) => display_text(v),
            None => {
                let mut out = String::from_str("Key '");
                out.append(key);
                out.append("' not found for language '");
                out.append(self.current_language.as_str());
                out.append("'");
                out
            },
        }
    }
}

/// Walks all of `segs` through `v`.
fn walk_from_start<'a>(v: &'a TransValue, segs: &Vec<String>) -> (r: Option<&'a TransValue>)
    ensures
        match r {
            Some(u) => walk(*v, segs.deep_view()) == Some(*u),
            None => walk(*v, segs.deep_view()) is None,
        },
{
    proof {
        assert(segs.deep_view().skip(0) =~= segs.deep_view());
    }
    crate::value::walk_value(v, segs, 0)
}

/// Law: a key present in the active language's document resolves to that
/// value's text, and a text leaf comes back verbatim.
pub proof fn lemma_resolve_in_active(state: I18n, key: Seq<char>, doc: TransValue, v: TransValue)
    requires
        lookup_entry(state.docs(), state.current()) == Some(doc),
        walk(doc, split_dots(key)) == Some(v),
    ensures
        state.spec_resolve(key) == v.display(),
        v matches TransValue::Text(s) ==> state.spec_resolve(key) == s@,
{
}

/// Law (fallback): a key that misses in the active language's document but
/// walks to a value in the default language's document resolves to that
/// value's text.
pub proof fn lemma_resolve_fallback(state: I18n, key: Seq<char>, doc: TransValue, v: TransValue)
    requires
        match lookup_entry(state.docs(), state.current()) {
            Some(d) => walk(d, split_dots(key)) is None,
            None => true,
        },
        lookup_entry(state.docs(), state.languages()[0]) == Some(doc),
        walk(doc, split_dots(key)) == Some(v),
    ensures
        state.spec_resolve(key) == v.display(),
{
}

/// Law: a key absent from both the active and the default language's
/// documents resolves to the placeholder, which carries the key and the
/// active language code in full.
pub proof fn lemma_resolve_placeholder(state: I18n, key: Seq<char>)
    requires
        match lookup_entry(state.docs(), state.current()) {
            Some(d) => walk(d, split_dots(key)) is None,
            None => true,
        },
        match lookup_entry(state.docs(), state.languages()[0]) {
            Some(d) => walk(d, split_dots(key)) is None,
            None => true,
        },
    ensures
        state.spec_resolve(key) == placeholder_of(key, state.current()),
        placeholder_of(key, state.current()).subrange(
            "Key '"@.len() as int,
            "Key '"@.len() as int + key.len(),
        ) == key,
        placeholder_of(key, state.current()).subrange(
            "Key '"@.len() as int + key.len() + "' not found for language '"@.len(),
            "Key '"@.len() as int + key.len() + "' not found for language '"@.len()
                + state.current().len(),
        ) == state.current(),
{
    let ph = placeholder_of(key, state.current());
    let key_at = "Key '"@.len() as int;
    let lang_at = key_at + key.len() + "' not found for language '"@.len();
    assert(ph.subrange(key_at, key_at + key.len()) =~= key);
    assert(ph.subrange(lang_at, lang_at + state.current().len()) =~= state.current());
}

/// Law (idempotence): a successful change to the language that is already
/// active is a no-op — the same active language, and the same resolution for
/// every key.
pub proof fn lemma_set_language_idempotent(pre: I18n, post: I18n, language: Seq<char>)
    requires
        pre.current() == language,
        post.current() == language,
        post.spec_config() == pre.spec_config(),
        post.docs() == pre.docs(),
    ensures
        post.current() == pre.current(),
        forall|key: Seq<char>| #[trigger] post.spec_resolve(key) == pre.spec_resolve(key),
{
}

} // verus!
