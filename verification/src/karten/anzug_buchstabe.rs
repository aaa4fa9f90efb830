//! Der Name eines Anzugs als Schlüssel seines Buchstabens: the name of a suit
//! as the key of the suit's letter.

use crate::fluent::display;
use crate::fluent::is_lookup_of;
use crate::fluent::Language;
use crate::fluent::LookupMiss;
use crate::fluent::US_ENGLISH;
use crate::text::key_of;
use vstd::prelude::*;
use vstd::string::StringExecFns;

verus! {

/// The name of a suit, kept for the sake of the suit's letter.
#[derive(Debug, Eq)]
pub struct AnzugBuchstabe(pub String);

impl View for AnzugBuchstabe {
    type V = Seq<char>;

    open spec fn view(&self) -> Seq<char> {
        self.0@
    }
}

impl AnzugBuchstabe {
    pub fn new(name: &str) -> (made: AnzugBuchstabe)
        ensures
            made@ == name@,
    {
        AnzugBuchstabe(String::from_str(name))
    }

    pub fn as_str(&self) -> (name: &str)
        ensures
            name@ == self@,
    {
        self.0.as_str()
    }

    /// The letter of the suit in the language `lid`.
    pub fn to_locale_string(&self, lid: &Language) -> (result: Result<String, LookupMiss>)
        ensures
            is_lookup_of(result, *lid, key_of(self@, "letter"@)),
    {
        display(self.0.as_str(), "letter", lid)
    }

    /// The letter as it is printed: in English.
    pub fn to_string(&self) -> (result: Result<String, LookupMiss>)
        ensures
            is_lookup_of(result, US_ENGLISH, key_of(self@, "letter"@)),
    {
        self.to_locale_string(&US_ENGLISH)
    }
}

impl Clone for AnzugBuchstabe {
    fn clone(&self) -> (copy: Self)
        ensures
            copy == *self,
    {
        AnzugBuchstabe(self.0.clone())
    }
}

impl PartialEq for AnzugBuchstabe {
    fn eq(&self, other: &Self) -> (same: bool) {
        self.0 == other.0
    }
}

impl vstd::std_specs::cmp::PartialEqSpecImpl for AnzugBuchstabe {
    open spec fn obeys_eq_spec() -> bool {
        true
    }

    open spec fn eq_spec(&self, other: &Self) -> bool {
        self@ == other@
    }
}

} // verus!
