//! The languages of the user interface and their texts.

pub mod locales;

use vstd::prelude::*;
use vstd::string::StringExecFns;

verus! {

#[verifier::external_type_specification]
#[verifier::external_body]
pub struct ExTomlError(toml::de::Error);

/// Supported languages
#[derive(Debug, Clone, Copy, PartialEq, Eq, Structural)]
pub enum Language {
    English,
    ChineseSimplified,
}

/// The code by which a language is named in settings.
pub open spec fn language_code(language: Language) -> Seq<char> {
    match language {
        Language::English => "en"@,
        Language::ChineseSimplified => "zh-CN"@,
    }
}

/// The name of a language in that language.
pub open spec fn language_name(language: Language) -> Seq<char> {
    match language {
        Language::English => "English"@,
        Language::ChineseSimplified => "简体中文"@,
    }
}

/// The TOML table that holds the texts of a language.
pub open spec fn locale_text(language: Language) -> Seq<char> {
    match language {
        Language::English => locales::EN@,
        Language::ChineseSimplified => locales::ZH_CN@,
    }
}

impl Language {
    pub fn code(&self) -> (code: &'static str)
        ensures
            code@ == language_code(*self),
    {
        match self {
            Language::English => "en",
            Language::ChineseSimplified => "zh-CN",
        }
    }

    pub fn display_name(&self) -> (name: &'static str)
        ensures
            name@ == language_name(*self),
    {
        match self {
            Language::English => "English",
            Language::ChineseSimplified => "简体中文",
        }
    }

    /// Every supported language, the default one first.
    pub fn all() -> (languages: Vec<Language>)
        ensures
            languages@ == seq![Language::English, Language::ChineseSimplified],
    {
        let mut languages: Vec<Language> = Vec::new();
        languages.push(Language::English);
        languages.push(Language::ChineseSimplified);
        assert(languages@ =~= seq![Language::English, Language::ChineseSimplified]);
        languages
    }
}

impl Default for Language {
    fn default() -> (language: Self)
        ensures
            language == Language::English,
    {
        Language::English
    }
}

/// I18n-related errors
#[derive(Debug)]
pub enum I18nError {
    /// Failed to parse translation file
    ParseError(String),
}

impl I18nError {
    /// The failure in words.
    pub fn message(&self) -> (text: String)
        ensures
            text@ == "Failed to parse translation file: "@ + self->ParseError_0@,
    {
        match self {
            I18nError::ParseError(e) => String::from_str(
                "Failed to parse translation file: ",
            ).concat(e.as_str()),
        }
    }
}

/// The pairs of key and text that `toml::from_str` reads from a TOML table
/// of texts, in the order of their keys; `None` where it reads no such table.
pub uninterp spec fn toml_table(content: Seq<char>) -> Option<Seq<(Seq<char>, Seq<char>)>>;

/// The views of a list of pairs of texts.
pub open spec fn pairs_view(pairs: Seq<(String, String)>) -> Seq<(Seq<char>, Seq<char>)> {
    Seq::new(pairs.len(), |i: int| (pairs[i].0@, pairs[i].1@))
}

/// `toml::from_str` for a table from texts to texts, handed on as the list
/// of its pairs. The contract names what comes back: the call succeeds
/// exactly where [`toml_table`] is `Some`, and then returns those pairs.
#[verifier::external_body]
fn parse_table(content: &str) -> (r: Result<Vec<(String, String)>, toml::de::Error>)
    ensures
        match r {
            Ok(pairs) => toml_table(content@) == Some(pairs_view(pairs@)),
            Err(_) => toml_table(content@) is None,
        },
{
    toml::from_str::<std::collections::BTreeMap<String, String>>(content).map(
        |table| table.into_iter().collect(),
    )
}

/// The `Display` text of a `toml::de::Error`.
#[verifier::external_body]
fn toml_error_text(e: &toml::de::Error) -> String {
    e.to_string()
}

/// The text that the first pair with this key holds, if there is such a pair.
pub open spec fn lookup(pairs: Seq<(Seq<char>, Seq<char>)>, key: Seq<char>) -> Option<Seq<char>>
    decreases pairs.len(),
{
    if pairs.len() == 0 {
        None
    } else if pairs[0].0 == key {
        Some(pairs[0].1)
    } else {
        lookup(pairs.drop_first(), key)
    }
}

/// The text that stands in for a missing translation.
pub open spec fn missing(key: Seq<char>) -> Seq<char> {
    "[Missing: "@ + key + "]"@
}

/// The text shown for a key: its translation, or a note that it is missing.
pub open spec fn translated(pairs: Seq<(Seq<char>, Seq<char>)>, key: Seq<char>) -> Seq<char> {
    match lookup(pairs, key) {
        Some(text) => text,
        None => missing(key),
    }
}

/// Translation keys used throughout the application
#[derive(Debug)]
pub struct Translations {
    strings: Vec<(String, String)>,
}

impl View for Translations {
    type V = Seq<(Seq<char>, Seq<char>)>;

    closed spec fn view(&self) -> Seq<(Seq<char>, Seq<char>)> {
        pairs_view(self.strings@)
    }
}

impl Clone for Translations {
    fn clone(&self) -> (copy: Self)
        ensures
            copy@ == self@,
    {
        let mut strings: Vec<(String, String)> = Vec::new();
        let mut i: usize = 0;
        while i < self.strings.len()
            invariant
                i <= self.strings.len(),
                strings.len() == i,
                forall|j: int|
                    0 <= j < i ==> (#[trigger] strings[j]).0@ == self.strings[j].0@ && strings[j].1@
                        == self.strings[j].1@,
            decreases self.strings.len() - i,
        {
            strings.push((self.strings[i].0.clone(), self.strings[i].1.clone()));
            i += 1;
        }
        let copy = Translations { strings };
        assert(copy@ =~= self@);
        copy
    }
}

impl Translations {
    /// Translations without a single text: every key is missing.
    pub fn empty() -> (translations: Self)
        ensures
            translations@ == Seq::<(Seq<char>, Seq<char>)>::empty(),
    {
        let translations = Translations { strings: Vec::new() };
        assert(translations@ =~= Seq::<(Seq<char>, Seq<char>)>::empty());
        translations
    }

    /// Translations of the given pairs of key and text. Where a key comes
    /// more than once, its first text counts.
    pub fn from_pairs(strings: Vec<(String, String)>) -> (translations: Self)
        ensures
            translations@ == pairs_view(strings@),
    {
        Translations { strings }
    }

    /// Load translations from a TOML string
    pub fn from_toml(content: &str) -> (r: Result<Self, I18nError>)
        ensures
            match r {
                Ok(translations) => toml_table(content@) == Some(translations@),
                Err(_) => toml_table(content@) is None,
            },
    {
        match parse_table(content) {
            Ok(strings) => Ok(Self::from_pairs(strings)),
            Err(e) => Err(I18nError::ParseError(toml_error_text(&e))),
        }
    }

    /// Get a translated string by key
    pub fn get(&self, key: &str) -> (text: String)
        ensures
            text@ == translated(self@, key@),
    {
        let wanted = String::from_str(key);
        let mut i: usize = 0;
        assert(self@.skip(0) =~= self@);
        while i < self.strings.len()
            invariant
                i <= self.strings.len(),
                wanted@ == key@,
                lookup(self@, key@) == lookup(self@.skip(i as int), key@),
            decreases self.strings.len() - i,
        {
            let ghost rest = self@.skip(i as int);
            assert(rest[0] == self@[i as int]);
            assert(rest.drop_first() =~= self@.skip(i + 1));
            if self.strings[i].0 == wanted {
                return self.strings[i].1.clone();
            }
            i += 1;
        }
        String::from_str("[Missing: ").concat(key).concat("]")
    }
}

/// I18n manager for handling translations
#[derive(Debug)]
pub struct I18n {
    current_language: Language,
    translations: Translations,
}

impl Clone for I18n {
    fn clone(&self) -> (copy: Self)
        ensures
            copy.language() == self.language(),
            copy.texts() == self.texts(),
    {
        I18n { current_language: self.current_language, translations: self.translations.clone() }
    }
}

impl I18n {
    /// The language whose texts this manager gives.
    pub closed spec fn language(&self) -> Language {
        self.current_language
    }

    /// The pairs of key and text that this manager holds.
    pub closed spec fn texts(&self) -> Seq<(Seq<char>, Seq<char>)> {
        self.translations@
    }

    /// Create a new I18n instance with the specified language
    pub fn new(language: Language) -> (r: Result<Self, I18nError>)
        ensures
            match r {
                Ok(i18n) => i18n.language() == language && toml_table(locale_text(language))
                    == Some(i18n.texts()),
                Err(_) => toml_table(locale_text(language)) is None,
            },
    {
        match Self::load_language(language) {
            Ok(translations) => Ok(I18n { current_language: language, translations }),
            Err(e) => Err(e),
        }
    }

    /// Load translations for a specific language
    pub fn load_language(language: Language) -> (r: Result<Translations, I18nError>)
        ensures
            match r {
                Ok(translations) => toml_table(locale_text(language)) == Some(translations@),
                Err(_) => toml_table(locale_text(language)) is None,
            },
    {
        let content = match language {
            Language::English => locales::EN,
            Language::ChineseSimplified => locales::ZH_CN,
        };
        Translations::from_toml(content)
    }

    /// Get the current language
    pub fn current_language(&self) -> (language: Language)
        ensures
            language == self.language(),
    {
        self.current_language
    }

    /// Change the current language
    ///
    /// Where the texts of the language cannot be read, nothing changes.
    pub fn set_language(&mut self, language: Language) -> (r: Result<(), I18nError>)
        ensures
            match r {
                Ok(()) => final(self).language() == language && toml_table(locale_text(language))
                    == Some(final(self).texts()),
                Err(_) => toml_table(locale_text(language)) is None && final(self).language()
                    == old(self).language() && final(self).texts() == old(self).texts(),
            },
    {
        match Self::load_language(language) {
            Ok(translations) => {
                self.current_language = language;
                self.translations = translations;
                Ok(())
            },
            Err(e) => Err(e),
        }
    }

    /// Get a translated string by key
    pub fn t(&self, key: &str) -> (text: String)
        ensures
            text@ == translated(self.texts(), key@),
    {
        self.translations.get(key)
    }
}

impl Default for I18n {
    /// The texts of the default language; where they cannot be read, no
    /// texts at all, so that every key shows as missing.
    fn default() -> (i18n: Self)
        ensures
            i18n.language() == Language::English,
            match toml_table(locale_text(Language::English)) {
                Some(texts) => i18n.texts() == texts,
                None => i18n.texts() == Seq::<(Seq<char>, Seq<char>)>::empty(),
            },
    {
        match Self::new(Language::English) {
            Ok(i18n) => i18n,
            Err(_) => I18n {
                current_language: Language::English,
                translations: Translations::empty(),
            },
        }
    }
}

} // verus!
