//! Languages: their exemplar characters and the checks compiled from them.
use vstd::prelude::*;

use crate::checks::{checks_view, Check, CheckView};
use crate::exemplars::{parse_chars, parse_exemplars, parse_marks, split_white_space, with_dotted_circle};
use crate::providers::{base_checks, table_view, BaseCheckProvider, TomlProvider};
use crate::text::{string_of, strings_view};

use google_fonts_languages::LANGUAGES;

verus! {

/// A language with its exemplar characters and the checks that apply to it.
#[derive(Debug, Clone)]
pub struct Language {
    /// The identifier, `<language>_<script>`, such as `en_Latn`.
    pub id: String,
    /// The language's name.
    pub name: String,
    /// The ISO 15924 script code, such as `Latn`.
    pub script: String,
    /// The ISO 639 language code.
    pub language_code: String,
    /// The checks that apply, in the order they run.
    pub checks: Vec<Check>,
    /// Mandatory base clusters.
    pub bases: Vec<String>,
    /// Optional auxiliary clusters.
    pub auxiliaries: Vec<String>,
    /// Mandatory marks, each after a dotted circle.
    pub marks: Vec<String>,
}

/// The contents of a [`Language`].
pub struct LanguageView {
    pub id: Seq<char>,
    pub name: Seq<char>,
    pub script: Seq<char>,
    pub language_code: Seq<char>,
    pub checks: Seq<CheckView>,
    pub bases: Seq<Seq<char>>,
    pub auxiliaries: Seq<Seq<char>>,
    pub marks: Seq<Seq<char>>,
}

impl View for Language {
    type V = LanguageView;

    open spec fn view(&self) -> LanguageView {
        LanguageView {
            id: self.id@,
            name: self.name@,
            script: self.script@,
            language_code: self.language_code@,
            checks: checks_view(self.checks@),
            bases: strings_view(self.bases@),
            auxiliaries: strings_view(self.auxiliaries@),
            marks: strings_view(self.marks@),
        }
    }
}

impl Language {
    /// The language's identifier.
    pub fn id(&self) -> (r: &str)
        ensures
            r@ == self.id@,
    {
        self.id.as_str()
    }

    /// The language's name.
    pub fn name(&self) -> (r: &str)
        ensures
            r@ == self.name@,
    {
        self.name.as_str()
    }

    /// The language's script code.
    pub fn script(&self) -> (r: &str)
        ensures
            r@ == self.script@,
    {
        self.script.as_str()
    }
}

/// A language as the database lists it: plain text fields, with the
/// exemplar lists as whitespace-separated text (empty where absent).
#[derive(Debug, Clone)]
pub struct LanguageRecord {
    pub id: String,
    pub name: String,
    pub script: String,
    pub language_code: String,
    pub bases: String,
    pub auxiliaries: String,
    pub marks: String,
}

/// The text fields of a record: id, name, script, language code, bases,
/// auxiliaries and marks.
pub type RecordText = (Seq<char>, Seq<char>, Seq<char>, Seq<char>, Seq<char>, Seq<char>, Seq<char>);

/// The text fields of a record.
pub open spec fn record_text(r: LanguageRecord) -> RecordText {
    (r.id@, r.name@, r.script@, r.language_code@, r.bases@, r.auxiliaries@, r.marks@)
}

/// The records of google-fonts-languages' compiled-in language table, in
/// order of its keys. There is one such table; it is numbered 0.
pub uninterp spec fn listed_records(table: int) -> Seq<RecordText>;

/// Relies on google-fonts-languages' `LANGUAGES` table, walked in order of
/// its keys; each entry's text fields are copied, absent ones as empty text.
#[verifier::external_body]
fn language_records() -> (r: Vec<LanguageRecord>)
    ensures
        r@.map_values(|rec: LanguageRecord| record_text(rec)) == listed_records(0),
{
    LANGUAGES.values().map(|p| {
        let e = p.exemplar_chars.clone().unwrap_or_default();
        LanguageRecord {
            id: p.id().to_string(), name: p.name().to_string(), script: p.script().to_string(),
            language_code: p.language().to_string(), bases: e.base().to_string(),
            auxiliaries: e.auxiliary().to_string(), marks: e.marks().to_string(),
        }
    }).collect()
}

/// The language that a record's text describes, before its checks are
/// added: the exemplars parsed, each mark after a dotted circle.
pub open spec fn text_language(t: RecordText) -> LanguageView {
    LanguageView {
        id: t.0,
        name: t.1,
        script: t.2,
        language_code: t.3,
        checks: Seq::empty(),
        bases: parse_exemplars(t.4),
        auxiliaries: parse_exemplars(t.5),
        marks: split_white_space(t.6).map_values(|s: Seq<char>| with_dotted_circle(s)),
    }
}

/// The language that a record's text describes, with the checks that the
/// providers derive from it.
pub open spec fn text_language_with(t: RecordText, table: Seq<(Seq<char>, Seq<CheckView>)>) -> LanguageView {
    LanguageView { checks: base_checks(text_language(t), table), ..text_language(t) }
}

/// The language that a record describes, before its checks are added.
pub open spec fn record_language(r: LanguageRecord) -> LanguageView {
    text_language(record_text(r))
}

/// The language that a record describes, with the checks that the provider gives it.
pub open spec fn language_of(r: LanguageRecord, table: Seq<(Seq<char>, Seq<CheckView>)>) -> LanguageView {
    text_language_with(record_text(r), table)
}

/// The languages of the database: one for each record of the language
/// table, in order, with the checks derived from it.
pub open spec fn database(table: Seq<(Seq<char>, Seq<CheckView>)>) -> Seq<LanguageView> {
    listed_records(0).map_values(|t: RecordText| text_language_with(t, table))
}

/// The checks derived for a language do not depend on the checks it
/// already carries.
pub proof fn lemma_checks_ignore_checks(a: LanguageView, b: LanguageView, table: Seq<(Seq<char>, Seq<CheckView>)>)
    requires
        a.id == b.id,
        a.name == b.name,
        a.script == b.script,
        a.bases == b.bases,
        a.auxiliaries == b.auxiliaries,
        a.marks == b.marks,
    ensures
        base_checks(a, table) == base_checks(b, table),
{
    assert(crate::providers::mandatory_description(a) == crate::providers::mandatory_description(b));
    assert(crate::providers::mandatory_check(a) == crate::providers::mandatory_check(b));
    assert(crate::providers::auxiliary_check(a) == crate::providers::auxiliary_check(b));
    assert(crate::providers::small_caps_check(a) == crate::providers::small_caps_check(b));
    assert(crate::providers::positional_check_of(a) == crate::providers::positional_check_of(b));
    assert(crate::providers::orthography_checks(a) == crate::providers::orthography_checks(b));
    assert(crate::providers::small_caps_checks(a) == crate::providers::small_caps_checks(b));
    assert(crate::providers::positional_checks(a) == crate::providers::positional_checks(b));
}

impl Language {
    /// The language that a record describes, with its exemplars parsed and
    /// the provider's checks.
    pub fn from_record(record: &LanguageRecord, provider: &BaseCheckProvider) -> (r: Self)
        ensures
            r@ == language_of(*record, table_view(provider.manual.table@)),
    {
        let mut language = Language {
            id: record.id.clone(),
            name: record.name.clone(),
            script: record.script.clone(),
            language_code: record.language_code.clone(),
            checks: Vec::new(),
            bases: parse_chars(record.bases.as_str()),
            auxiliaries: parse_chars(record.auxiliaries.as_str()),
            marks: parse_marks(record.marks.as_str()),
        };
        assert(checks_view(language.checks@) =~= Seq::<CheckView>::empty());
        assert(language@ == record_language(*record));
        language.checks = provider.checks(&language);
        language
    }
}

/// The language database: every language with its checks.
pub struct Languages {
    pub languages: Vec<Language>,
}

/// The contents of each language of a sequence.
pub open spec fn languages_view(v: Seq<Language>) -> Seq<LanguageView> {
    v.map_values(|l: Language| l@)
}

/// The index of the first language with the given id or, failing that,
/// with the given name; the number of languages where there is none.
pub open spec fn find_language(ls: Seq<LanguageView>, key: Seq<char>) -> int {
    if exists|i: int| 0 <= i < ls.len() && ls[i].id == key {
        choose|i: int| 0 <= i < ls.len() && ls[i].id == key && forall|j: int| 0 <= j < i ==> ls[j].id != key
    } else if exists|i: int| 0 <= i < ls.len() && ls[i].name == key {
        choose|i: int| 0 <= i < ls.len() && ls[i].name == key && forall|j: int| 0 <= j < i ==> ls[j].name != key
    } else {
        ls.len() as int
    }
}

impl Languages {
    /// The database built from records, each with the provider's checks.
    pub fn from_records(records: &Vec<LanguageRecord>, provider: &BaseCheckProvider) -> (r: Self)
        ensures
            languages_view(r.languages@) == records@.map_values(|rec: LanguageRecord| language_of(rec, table_view(provider.manual.table@))),
    {
        let ghost target = records@.map_values(|rec: LanguageRecord| language_of(rec, table_view(provider.manual.table@)));
        let mut languages: Vec<Language> = Vec::new();
        let mut i: usize = 0;
        while i < records.len()
            invariant
                i <= records.len(),
                target == records@.map_values(|rec: LanguageRecord| language_of(rec, table_view(provider.manual.table@))),
                languages_view(languages@) == target.take(i as int),
            decreases records.len() - i,
        {
            let language = Language::from_record(&records[i], provider);
            let ghost before = languages@;
            languages.push(language);
            assert(languages_view(languages@) =~= languages_view(before).push(target[i as int]));
            assert(languages_view(languages@) =~= target.take(i as int + 1));
            i = i + 1;
        }
        assert(target.take(i as int) =~= target);
        Languages { languages }
    }

    /// The database of the languages that google-fonts-languages lists, in
    /// order, each with its exemplars parsed and the checks that the
    /// provider derives from it.
    pub fn with_provider(provider: &BaseCheckProvider) -> (r: Self)
        ensures
            languages_view(r.languages@) == database(table_view(provider.manual.table@)),
            forall|i: int| 0 <= i < r.languages@.len() ==>
                #[trigger] r.languages@[i]@.checks == base_checks(r.languages@[i]@, table_view(provider.manual.table@)),
    {
        let ghost table = table_view(provider.manual.table@);
        let records = language_records();
        let r = Languages::from_records(&records, provider);
        assert(languages_view(r.languages@) =~= database(table)) by {
            assert(records@.map_values(|rec: LanguageRecord| record_text(rec)) == listed_records(0));
            assert forall|i: int| 0 <= i < records@.len() implies
                records@.map_values(|rec: LanguageRecord| language_of(rec, table))[i] == #[trigger] database(table)[i] by {
                assert(records@.map_values(|rec: LanguageRecord| record_text(rec))[i] == record_text(records@[i]));
            }
            assert(records@.map_values(|rec: LanguageRecord| language_of(rec, table)) =~= database(table));
        }
        assert forall|i: int| 0 <= i < r.languages@.len() implies
            #[trigger] r.languages@[i]@.checks == base_checks(r.languages@[i]@, table) by {
            assert(languages_view(r.languages@)[i] == r.languages@[i]@);
            assert(languages_view(r.languages@).len() == records@.len());
            assert(r.languages@[i]@ == language_of(records@[i], table));
            lemma_checks_ignore_checks(record_language(records@[i]), r.languages@[i]@, table);
        }
        r
    }

    /// The database of the languages that google-fonts-languages lists, in
    /// order, each with its exemplars parsed and the checks derived from it,
    /// without hand-written checks.
    pub fn new() -> (r: Self)
        ensures
            languages_view(r.languages@) == database(Seq::empty()),
            forall|i: int| 0 <= i < r.languages@.len() ==>
                #[trigger] r.languages@[i]@.checks == base_checks(r.languages@[i]@, Seq::empty()),
    {
        let provider = BaseCheckProvider::new(TomlProvider::empty());
        Languages::with_provider(&provider)
    }

    /// The languages, in order.
    pub fn iter(&self) -> (r: &Vec<Language>)
        ensures
            r == &self.languages,
    {
        &self.languages
    }

    /// The first language with the given id or, failing that, with the given name.
    pub fn get_language(&self, id: &str) -> (r: Option<&Language>)
        ensures
            match r {
                Some(l) => {
                    let k = find_language(languages_view(self.languages@), id@);
                    0 <= k < self.languages@.len() && *l == self.languages@[k]
                },
                None => find_language(languages_view(self.languages@), id@) == self.languages@.len(),
            },
    {
        let ghost ls = languages_view(self.languages@);
        let key = string_of(id);
        let mut i: usize = 0;
        while i < self.languages.len()
            invariant
                i <= self.languages.len(),
                ls == languages_view(self.languages@),
                key@ == id@,
                forall|j: int| 0 <= j < i ==> ls[j].id != id@,
            decreases self.languages.len() - i,
        {
            assert(ls[i as int] == self.languages@[i as int]@);
            if self.languages[i].id.eq(&key) {
                assert(ls[i as int].id == id@);
                let ghost k = find_language(ls, id@);
                assert(k == i as int) by {
                    if k < i { assert(ls[k].id != id@); }
                    if k > i { assert(ls[i as int].id != id@); }
                }
                return Some(&self.languages[i]);
            }
            i = i + 1;
        }
        let mut i: usize = 0;
        while i < self.languages.len()
            invariant
                i <= self.languages.len(),
                ls == languages_view(self.languages@),
                key@ == id@,
                forall|j: int| 0 <= j < ls.len() ==> ls[j].id != id@,
                forall|j: int| 0 <= j < i ==> ls[j].name != id@,
            decreases self.languages.len() - i,
        {
            assert(ls[i as int] == self.languages@[i as int]@);
            if self.languages[i].name.eq(&key) {
                assert(ls[i as int].name == id@);
                let ghost k = find_language(ls, id@);
                assert(k == i as int) by {
                    if k < i { assert(ls[k].name != id@); }
                    if k > i { assert(ls[i as int].name != id@); }
                }
                return Some(&self.languages[i]);
            }
            i = i + 1;
        }
        None
    }
}

impl Default for Languages {
    /// The database of [`Languages::new`].
    fn default() -> (r: Self)
        ensures
            languages_view(r.languages@) == database(Seq::empty()),
    {
        Languages::new()
    }
}

} // verus!
