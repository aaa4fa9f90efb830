//! The name of a suit as the key of the suit's letter.

use crate::fluent::display;
use crate::fluent::is_lookup_of;
use crate::fluent::Language;
use crate::fluent::LookupMiss;
use crate::fluent::US_ENGLISH;
use crate::text::key_of;
use crate::text::template_key;
use vstd::prelude::*;
use vstd::string::StringExecFns;

verus! {

/// The name of a suit, kept for the sake of the suit's letter.
#[derive(Debug, Eq)]
pub struct SuitLetter(pub String);

impl View for SuitLetter {
    type V = Seq<char>;

    open spec fn view(&self) -> Seq<char> {
        self.0@
    }
}

impl SuitLetter {
    pub fn new(name: &str) -> (made: SuitLetter)
        ensures
            made@ == name@,
    {
        SuitLetter(String::from_str(name))
    }

    pub fn as_str(&self) -> (name: &str)
        ensures
            name@ == self@,
    {
        self.get_raw_name()
    }

    /// The key of the letter in the templates.
    pub fn get_fluent_key(&self) -> (key: String)
        ensures
            key@ == key_of(self@, "letter"@),
    {
        template_key(self.0.as_str(), "letter")
    }

    pub fn get_raw_name(&self) -> (name: &str)
        ensures
            name@ == self@,
    {
        self.0.as_str()
    }

    /// The letter of the suit in the language `lid`.
    pub fn to_locale_string(&self, lid: &Language) -> (result: Result<String, LookupMiss>)
        ensures
            is_lookup_of(result, *lid, key_of(self@, "letter"@)),
    {
        display(self.0.as_str(), "letter", lid)
    }

    /// The letter as it is printed: in English.
    pub fn to_string(&self) -> (result: Result<String, LookupMiss>)
        ensures
            is_lookup_of(result, US_ENGLISH, key_of(self@, "letter"@)),
    {
        self.to_locale_string(&US_ENGLISH)
    }
}

impl Clone for SuitLetter {
    fn clone(&self) -> (copy: Self)
        ensures
            copy == *self,
    {
        SuitLetter(self.0.clone())
    }
}

impl Default for SuitLetter {
    fn default() -> (made: Self)
        ensures
            made@ == Seq::<char>::empty(),
    {
        SuitLetter(String::new())
    }
}

impl PartialEq for SuitLetter {
    fn eq(&self, other: &Self) -> (same: bool) {
        self.0 == other.0
    }
}

impl vstd::std_specs::cmp::PartialEqSpecImpl for SuitLetter {
    open spec fn obeys_eq_spec() -> bool {
        true
    }

    open spec fn eq_spec(&self, other: &Self) -> bool {
        self@ == other@
    }
}

} // verus!
