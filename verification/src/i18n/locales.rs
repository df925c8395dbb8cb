//! The messages of issues: the keys under which they are looked up, and the catalog.

use vstd::prelude::*;
use vstd::string::*;
use crate::engine::rules::rule::Rule;
use crate::engine::rules::wcag_base::Guideline;
use crate::text::str_eq;

verus! {

/// One message in every language that the audit speaks. An empty text means that the
/// language has none.
#[derive(Debug, Clone, Copy)]
pub struct Messages {
    /// English.
    pub en: &'static str,
    /// Spanish.
    pub es: &'static str,
    /// German.
    pub de: &'static str,
    /// Japanese.
    pub ja: &'static str,
    /// Portuguese of Portugal.
    pub pt_pt: &'static str,
    /// Portuguese of Brazil.
    pub pt_br: &'static str,
    /// Simplified Chinese.
    pub zh_cn: &'static str,
    /// Traditional Chinese.
    pub zh_tw: &'static str,
    /// Hindi.
    pub hi: &'static str,
}

/// The languages that the audit speaks.
#[derive(Debug, Clone, Copy, PartialEq, Eq, Structural)]
pub enum Langs {
    /// English.
    En,
    /// Spanish.
    Es,
    /// German.
    De,
    /// Japanese.
    Ja,
    /// Portuguese of Portugal.
    PtPt,
    /// Portuguese of Brazil.
    PtBr,
    /// Simplified Chinese.
    ZhCn,
    /// Traditional Chinese.
    ZhTw,
    /// Hindi.
    HI,
}

impl Langs {
    /// The code of the language.
    pub open spec fn code(self) -> Seq<char> {
        match self {
            Langs::En => "en"@,
            Langs::Es => "es"@,
            Langs::De => "de"@,
            Langs::Ja => "ja"@,
            Langs::PtPt => "pt_pt"@,
            Langs::PtBr => "pt_br"@,
            Langs::ZhCn => "zh_cn"@,
            Langs::ZhTw => "zh_tw"@,
            Langs::HI => "hi"@,
        }
    }

    /// The language that a locale names: the one whose code the locale is, and English for
    /// any other locale.
    pub open spec fn of_locale(locale: Seq<char>) -> Langs {
        if locale == "es"@ {
            Langs::Es
        } else if locale == "de"@ {
            Langs::De
        } else if locale == "ja"@ {
            Langs::Ja
        } else if locale == "pt_pt"@ {
            Langs::PtPt
        } else if locale == "pt_br"@ {
            Langs::PtBr
        } else if locale == "zh_cn"@ {
            Langs::ZhCn
        } else if locale == "zh_tw"@ {
            Langs::ZhTw
        } else if locale == "hi"@ {
            Langs::HI
        } else {
            Langs::En
        }
    }

    /// The code of the language, such as `en`.
    pub fn as_str(&self) -> (s: &'static str)
        ensures
            s@ == self.code(),
    {
        match self {
            Langs::En => "en",
            Langs::Es => "es",
            Langs::De => "de",
            Langs::Ja => "ja",
            Langs::PtPt => "pt_pt",
            Langs::PtBr => "pt_br",
            Langs::ZhCn => "zh_cn",
            Langs::ZhTw => "zh_tw",
            Langs::HI => "hi",
        }
    }

    /// The language that a locale names; English where the locale names none.
    pub fn from_locale(locale: &str) -> (lang: Langs)
        ensures
            lang == Langs::of_locale(locale@),
    {
        if str_eq(locale, "es") {
            Langs::Es
        } else if str_eq(locale, "de") {
            Langs::De
        } else if str_eq(locale, "ja") {
            Langs::Ja
        } else if str_eq(locale, "pt_pt") {
            Langs::PtPt
        } else if str_eq(locale, "pt_br") {
            Langs::PtBr
        } else if str_eq(locale, "zh_cn") {
            Langs::ZhCn
        } else if str_eq(locale, "zh_tw") {
            Langs::ZhTw
        } else if str_eq(locale, "hi") {
            Langs::HI
        } else {
            Langs::En
        }
    }
}

impl Messages {
    /// The text in `lang`, which may be empty.
    pub open spec fn text(self, lang: Langs) -> Seq<char> {
        match lang {
            Langs::En => self.en@,
            Langs::Es => self.es@,
            Langs::De => self.de@,
            Langs::Ja => self.ja@,
            Langs::PtPt => self.pt_pt@,
            Langs::PtBr => self.pt_br@,
            Langs::ZhCn => self.zh_cn@,
            Langs::ZhTw => self.zh_tw@,
            Langs::HI => self.hi@,
        }
    }

    /// The text in `lang`, and the English text where `lang` has none.
    pub open spec fn text_or_default(self, lang: Langs) -> Seq<char> {
        if self.text(lang).len() == 0 {
            self.en@
        } else {
            self.text(lang)
        }
    }

    /// A message that only English has.
    pub fn english(en: &'static str) -> (m: Messages)
        ensures
            m.en == en,
            forall|lang: Langs| #[trigger] m.text_or_default(lang) == en@,
    {
        proof {
            reveal_strlit("");
        }
        Messages { en, es: "", de: "", ja: "", pt_pt: "", pt_br: "", zh_cn: "", zh_tw: "", hi: "" }
    }

    /// The text in `lang`, and the English text where `lang` has none.
    pub fn get(&self, lang: Langs) -> (s: &'static str)
        ensures
            s@ == self.text_or_default(lang),
    {
        let s = match lang {
            Langs::En => self.en,
            Langs::Es => self.es,
            Langs::De => self.de,
            Langs::Ja => self.ja,
            Langs::PtPt => self.pt_pt,
            Langs::PtBr => self.pt_br,
            Langs::ZhCn => self.zh_cn,
            Langs::ZhTw => self.zh_tw,
            Langs::HI => self.hi,
        };
        if s.is_empty() {
            self.en
        } else {
            s
        }
    }
}

/// The messages of issues, by key. Of two entries with one key the first counts.
pub struct Catalog {
    /// The keys, each with its message.
    pub entries: Vec<(String, Messages)>,
}

/// The message that the first of `entries` with the key `key` has for `lang`; empty where
/// no entry has that key.
pub open spec fn lookup(entries: Seq<(String, Messages)>, key: Seq<char>, lang: Langs) -> Seq<char>
    decreases entries.len(),
{
    if entries.len() == 0 {
        Seq::empty()
    } else if entries[0].0@ == key {
        entries[0].1.text_or_default(lang)
    } else {
        lookup(entries.skip(1), key, lang)
    }
}

impl Catalog {
    /// The message under `key` for `locale`: the text in the language that the locale
    /// names, the English text where that language has none, and the empty text where the
    /// catalog does not know the key.
    pub open spec fn resolved(&self, key: Seq<char>, locale: Seq<char>) -> Seq<char> {
        lookup(self.entries@, key, Langs::of_locale(locale))
    }

    /// A catalog without messages.
    pub fn new() -> (catalog: Catalog)
        ensures
            catalog.entries@.len() == 0,
            forall|key: Seq<char>, locale: Seq<char>|
                (#[trigger] catalog.resolved(key, locale)).len() == 0,
    {
        Catalog { entries: Vec::new() }
    }

    /// Adds a message behind those that the catalog holds.
    pub fn insert(&mut self, key: &str, messages: Messages)
        ensures
            final(self).entries@.len() == old(self).entries@.len() + 1,
            final(self).entries@.take(old(self).entries@.len() as int) == old(self).entries@,
            final(self).entries@.last().0@ == key@,
            final(self).entries@.last().1 == messages,
    {
        self.entries.push((key.to_owned(), messages));
        assert(self.entries@.take(old(self).entries@.len() as int) =~= old(self).entries@);
    }

    /// The message under `key` for `locale`. Never fails: a key that the catalog does not
    /// know gives the empty text.
    pub fn resolve(&self, key: &str, locale: &str) -> (message: String)
        ensures
            message@ == self.resolved(key@, locale@),
    {
        let lang = Langs::from_locale(locale);
        let mut i: usize = 0;
        assert(self.entries@.skip(0) =~= self.entries@);
        while i < self.entries.len()
            invariant
                i <= self.entries.len(),
                lang == Langs::of_locale(locale@),
                lookup(self.entries@, key@, lang) == lookup(self.entries@.skip(i as int), key@, lang),
            decreases self.entries.len() - i,
        {
            let ghost rest = self.entries@.skip(i as int);
            assert(rest[0] == self.entries@[i as int]);
            if str_eq(self.entries[i].0.as_str(), key) {
                return self.entries[i].1.get(lang).to_owned();
            }
            assert(rest.skip(1) =~= self.entries@.skip(i + 1));
            i += 1;
        }
        String::new()
    }
}

/// The key of a message: the two numbers of the guideline, the number of the success
/// criterion and the name of the rule, with underscores between them, and behind them a dot
/// and the section where a section is given.
pub open spec fn message_key(
    guideline: Guideline,
    rule_id: Seq<char>,
    success_criteria: Seq<char>,
    section: Seq<char>,
) -> Seq<char> {
    let base = guideline.index() + "_"@ + success_criteria + "_"@ + rule_id;
    if section.len() == 0 {
        base
    } else {
        base + "."@ + section
    }
}

/// The key of the message for a rule name, a success criterion and a section.
pub fn get_message_i18n_str_raw(
    guideline: &Guideline,
    rule_id: &str,
    success_criteria: &str,
    section: &str,
) -> (key: String)
    ensures
        key@ == message_key(*guideline, rule_id@, success_criteria@, section@),
{
    let base = guideline.as_index().to_owned().concat("_").concat(success_criteria).concat(
        "_",
    ).concat(rule_id);
    if section.is_empty() {
        base
    } else {
        base.concat(".").concat(section)
    }
}

/// The key of the message for a rule and a section.
pub fn get_message_i18n_str(rule: &Rule, section: &str) -> (key: String)
    ensures
        key@ == message_key(
            rule.guideline,
            rule.rule_id.name(),
            rule.success_criteria@,
            section@,
        ),
{
    get_message_i18n_str_raw(
        &rule.guideline,
        rule.rule_id.into_str().as_str(),
        rule.success_criteria,
        section,
    )
}

/// The message for a rule and a section in the language of `lang`.
pub fn get_message_i18n(catalog: &Catalog, rule: &Rule, section: &str, lang: &str) -> (message:
    String)
    ensures
        message@ == catalog.resolved(
            message_key(rule.guideline, rule.rule_id.name(), rule.success_criteria@, section@),
            lang@,
        ),
{
    let key = get_message_i18n_str(rule, section);
    catalog.resolve(key.as_str(), lang)
}

} // verus!
