//! The card templates and how a text is found in them: by language, with
//! English as the language to fall back on.

pub mod locales;

use crate::fluent::locales::CORE_TEMPLATES;
use crate::fluent::locales::GERMAN_TEMPLATES;
use crate::fluent::locales::US_ENGLISH_TEMPLATES;
use crate::text::key_of;
use crate::text::parse_weight;
use crate::text::template_key;
use crate::text::weight_of_text;
use fluent_templates::fluent_bundle::FluentResource;
use fluent_templates::FluentBundle;
use fluent_templates::LanguageIdentifier;
use vstd::prelude::*;
use vstd::string::StringExecFns;

verus! {

/// A language of the card templates.
#[derive(Clone, Copy, Debug, PartialEq, Eq, Structural)]
pub enum Language {
    UsEnglish,
    German,
}

pub const US_ENGLISH: Language = Language::UsEnglish;

pub const GERMAN: Language = Language::German;

/// The language whose templates are read where the requested language has no
/// message under a key.
pub const FALLBACK_LANGUAGE: Language = Language::UsEnglish;

impl Language {
    /// The Unicode language identifier of the language.
    pub open spec fn tag_spec(self) -> Seq<char> {
        match self {
            Language::UsEnglish => "en-US"@,
            Language::German => "de"@,
        }
    }

    /// The template text of the language itself, without the shared messages.
    pub open spec fn templates_spec(self) -> Seq<char> {
        match self {
            Language::UsEnglish => US_ENGLISH_TEMPLATES@,
            Language::German => GERMAN_TEMPLATES@,
        }
    }

    pub fn tag(&self) -> (tag: &'static str)
        ensures
            tag@ == self.tag_spec(),
    {
        match self {
            Language::UsEnglish => "en-US",
            Language::German => "de",
        }
    }

    pub fn templates(&self) -> (source: &'static str)
        ensures
            source@ == self.templates_spec(),
    {
        match self {
            Language::UsEnglish => US_ENGLISH_TEMPLATES,
            Language::German => GERMAN_TEMPLATES,
        }
    }
}

/// No template holds a message under `key`: neither those of `language` nor
/// those of the fallback language.
#[derive(Debug)]
pub struct LookupMiss {
    pub key: String,
    pub language: Language,
}

impl LookupMiss {
    /// A sentence that names the key and the language of the failed lookup.
    pub fn describe(&self) -> (sentence: String)
        ensures
            sentence@ == "no template for the key "@ + self.key@ + " in the language "@
                + self.language.tag_spec(),
    {
        let mut sentence = String::from_str("no template for the key ");
        sentence.append(self.key.as_str());
        sentence.append(" in the language ");
        sentence.append(self.language.tag());
        sentence
    }
}

impl PartialEq for LookupMiss {
    fn eq(&self, other: &Self) -> (same: bool) {
        self.key == other.key && self.language == other.language
    }
}

impl vstd::std_specs::cmp::PartialEqSpecImpl for LookupMiss {
    open spec fn obeys_eq_spec() -> bool {
        true
    }

    open spec fn eq_spec(&self, other: &Self) -> bool {
        self.key@ == other.key@ && self.language == other.language
    }
}

/// The text that Fluent gives for the message `key` of the template text
/// `source`, formatted without arguments for the language `tag`; none where
/// `tag` is no language identifier, `source` is no well-formed template text,
/// it has no message `key`, the message has no value, or formatting it fails.
pub uninterp spec fn message_text(tag: Seq<char>, source: Seq<char>, key: Seq<char>) -> Option<
    Seq<char>,
>;

/// A text that may be absent, as the sequence of its characters.
pub open spec fn text_view(text: Option<String>) -> Option<Seq<char>> {
    match text {
        Some(t) => Some(t@),
        None => None,
    }
}

/// Formats one message with Fluent: parses `tag` with
/// `LanguageIdentifier::from_str` and `source` with
/// `fluent_templates::fs::resource_from_str`, puts the resource into a
/// `FluentBundle` made by `new_concurrent`, takes the message by `get_message`
/// and formats its value by `format_pattern`. The contract only names the
/// outcome: it is whatever Fluent makes of these three texts.
#[verifier::external_body]
fn format_message(tag: &str, source: &str, key: &str) -> (text: Option<String>)
    ensures
        text_view(text) == message_text(tag@, source@, key@),
{
    let language: LanguageIdentifier = tag.parse().ok()?;
    let resource = fluent_templates::fs::resource_from_str(source).ok()?;
    let mut bundle: FluentBundle<FluentResource> = FluentBundle::new_concurrent(vec![language]);
    bundle.add_resource(resource).ok()?;
    let pattern = bundle.get_message(key)?.value()?;
    let mut errors = Vec::new();
    let text = bundle.format_pattern(pattern, None, &mut errors);
    if errors.is_empty() {
        Some(text.into_owned())
    } else {
        None
    }
}

/// The text under `key` for one language: from the language's own templates,
/// else from the shared ones.
pub open spec fn bundle_text(language: Language, key: Seq<char>) -> Option<Seq<char>> {
    match message_text(language.tag_spec(), language.templates_spec(), key) {
        Some(text) => Some(text),
        None => message_text(language.tag_spec(), CORE_TEMPLATES@, key),
    }
}

/// The text under `key` for `language`: that of the language where it has one,
/// else that of the fallback language.
pub open spec fn resolved_text(language: Language, key: Seq<char>) -> Option<Seq<char>> {
    match bundle_text(language, key) {
        Some(text) => Some(text),
        None => if language != FALLBACK_LANGUAGE {
            bundle_text(FALLBACK_LANGUAGE, key)
        } else {
            None
        },
    }
}

/// What a lookup of `key` for `language` returns: the resolved text, or a
/// `LookupMiss` that holds the key and the language where there is none.
pub open spec fn is_lookup_of(
    result: Result<String, LookupMiss>,
    language: Language,
    key: Seq<char>,
) -> bool {
    match resolved_text(language, key) {
        Some(text) => result matches Ok(found) && found@ == text,
        None => result matches Err(miss) && miss.key@ == key && miss.language == language,
    }
}

/// What a lookup of two keys for `language`, one after the other, returns: the
/// two resolved texts joined, or the `LookupMiss` of the first key that has no
/// text.
pub open spec fn is_joined_lookup_of(
    result: Result<String, LookupMiss>,
    language: Language,
    first: Seq<char>,
    second: Seq<char>,
) -> bool {
    match (resolved_text(language, first), resolved_text(language, second)) {
        (Some(head), Some(tail)) => result matches Ok(found) && found@ == head + tail,
        (None, _) => result matches Err(miss) && miss.key@ == first && miss.language == language,
        (Some(_), None) => result matches Err(miss) && miss.key@ == second && miss.language
            == language,
    }
}

/// Joins the results of two lookups: the two texts, or the first miss.
pub fn join_lookups(head: Result<String, LookupMiss>, tail: Result<String, LookupMiss>) -> (result:
    Result<String, LookupMiss>)
    ensures
        match (head, tail) {
            (Ok(text), Ok(rest)) => result matches Ok(joined) && joined@ == text@ + rest@,
            (Ok(_), Err(miss)) => result == Err::<String, LookupMiss>(miss),
            (Err(miss), _) => result == Err::<String, LookupMiss>(miss),
        },
{
    match head {
        Ok(mut text) => match tail {
            Ok(rest) => {
                text.append(rest.as_str());
                Ok(text)
            },
            Err(miss) => Err(miss),
        },
        Err(miss) => Err(miss),
    }
}

/// The default weight of a name: the weight that the text under `<name>-weight`
/// gives, and 0 where there is no such text.
pub open spec fn default_weight(name: Seq<char>) -> int {
    match resolved_text(US_ENGLISH, key_of(name, "weight"@)) {
        Some(text) => weight_of_text(text),
        None => 0,
    }
}

fn lookup_in_bundle(language: Language, key: &str) -> (text: Option<String>)
    ensures
        text_view(text) == bundle_text(language, key@),
{
    match format_message(language.tag(), language.templates(), key) {
        Some(text) => Some(text),
        None => format_message(language.tag(), CORE_TEMPLATES, key),
    }
}

/// Looks up the text under `key` for the language `lid`, falling back on the
/// fallback language.
pub fn get_value_by_key(key: &str, lid: &Language) -> (result: Result<String, LookupMiss>)
    ensures
        is_lookup_of(result, *lid, key@),
{
    match lookup_in_bundle(*lid, key) {
        Some(text) => Ok(text),
        None => {
            let fallen_back = if *lid != FALLBACK_LANGUAGE {
                lookup_in_bundle(FALLBACK_LANGUAGE, key)
            } else {
                None
            };
            match fallen_back {
                Some(text) => Ok(text),
                None => Err(LookupMiss { key: String::from_str(key), language: *lid }),
            }
        },
    }
}

/// Looks up the text under `<name>-<suffix>` for the language `lid`.
pub fn display(name: &str, suffix: &str, lid: &Language) -> (result: Result<String, LookupMiss>)
    ensures
        is_lookup_of(result, *lid, key_of(name@, suffix@)),
{
    let key = template_key(name, suffix);
    get_value_by_key(key.as_str(), lid)
}

/// Looks up the text under `<name>-weight`.
pub fn get_weight(name: &str) -> (result: Result<String, LookupMiss>)
    ensures
        is_lookup_of(result, US_ENGLISH, key_of(name@, "weight"@)),
{
    display(name, "weight", &US_ENGLISH)
}

/// The default weight of `name`.
pub fn get_weight_isize(name: &str) -> (weight: isize)
    ensures
        weight == default_weight(name@),
{
    match get_weight(name) {
        Ok(text) => parse_weight(text.as_str()),
        Err(_) => 0,
    }
}

/// What has a name and a weight and, under its name, an index and a long name
/// in the card templates.
pub trait FluentCard {
    /// The name, as a sequence of characters.
    spec fn name_spec(&self) -> Seq<char>;

    /// The weight.
    spec fn weight_spec(&self) -> int;

    /// The index in English.
    fn get_default_index(&self) -> (result: Result<String, LookupMiss>)
        ensures
            is_lookup_of(result, US_ENGLISH, key_of(self.name_spec(), "index"@)),
    {
        self.get_index(&US_ENGLISH)
    }

    /// The index in the language `lid`: the number or letter printed in the
    /// corner of a playing card, to be read when the card is held in a fan.
    fn get_index(&self, lid: &Language) -> (result: Result<String, LookupMiss>)
        ensures
            is_lookup_of(result, *lid, key_of(self.name_spec(), "index"@)),
    {
        display(self.get_name().as_str(), "index", lid)
    }

    /// The long name in English.
    fn get_default_long(&self) -> (result: Result<String, LookupMiss>)
        ensures
            is_lookup_of(result, US_ENGLISH, key_of(self.name_spec(), "long"@)),
    {
        self.get_long(&US_ENGLISH)
    }

    /// The long name in the language `lid`.
    fn get_long(&self, lid: &Language) -> (result: Result<String, LookupMiss>)
        ensures
            is_lookup_of(result, *lid, key_of(self.name_spec(), "long"@)),
    {
        display(self.get_name().as_str(), "long", lid)
    }

    fn get_name(&self) -> (name: &String)
        ensures
            name@ == self.name_spec(),
    ;

    fn revise_weight(&mut self, new_value: isize)
        ensures
            final(self).weight_spec() == new_value,
            final(self).name_spec() == old(self).name_spec(),
    ;

    fn get_weight(&self) -> (weight: isize)
        ensures
            weight == self.weight_spec(),
    ;
}

} // verus!
