//! The name of a suit or a rank: the key of its weight and of its texts in the
//! card templates.

use crate::fluent::default_weight;
use crate::fluent::display;
use crate::fluent::get_weight_isize;
use crate::fluent::is_lookup_of;
use crate::fluent::Language;
use crate::fluent::LookupMiss;
use crate::fluent::US_ENGLISH;
use crate::text::key_of;
use crate::text::name_at_most;
use crate::text::name_le;
use crate::text::names_equal;
use std::cmp::Ordering;
use vstd::prelude::*;
use vstd::string::StringExecFns;

verus! {

/// A name such as `ace`, `hearts` or `major-arcana`. It never changes once made.
#[derive(Debug, Eq, Hash)]
pub struct FluentName(String);

impl View for FluentName {
    type V = Seq<char>;

    closed spec fn view(&self) -> Seq<char> {
        self.0@
    }
}

impl DeepView for FluentName {
    type V = Seq<char>;

    open spec fn deep_view(&self) -> Seq<char> {
        self@
    }
}

impl FluentName {
    pub fn new(name: &str) -> (made: FluentName)
        ensures
            made@ == name@,
    {
        FluentName(String::from_str(name))
    }

    /// The name itself.
    pub fn name(&self) -> (name: &str)
        ensures
            name@ == self@,
    {
        self.0.as_str()
    }

    /// The name itself, as the `String` that holds it.
    pub fn as_string(&self) -> (name: &String)
        ensures
            name@ == self@,
    {
        &self.0
    }

    /// The weight that the templates give the name by default.
    pub fn default_weight(&self) -> (weight: isize)
        ensures
            weight == default_weight(self@),
    {
        get_weight_isize(self.0.as_str())
    }

    /// The text under `<name>-<suffix>` for the language `lid`.
    pub fn text(&self, suffix: &str, lid: &Language) -> (result: Result<String, LookupMiss>)
        ensures
            is_lookup_of(result, *lid, key_of(self@, suffix@)),
    {
        display(self.0.as_str(), suffix, lid)
    }

    /// The index of the name: what is printed in the corner of a card.
    pub fn index(&self, lid: &Language) -> (result: Result<String, LookupMiss>)
        ensures
            is_lookup_of(result, *lid, key_of(self@, "index"@)),
    {
        self.text("index", lid)
    }

    pub fn index_default(&self) -> (result: Result<String, LookupMiss>)
        ensures
            is_lookup_of(result, US_ENGLISH, key_of(self@, "index"@)),
    {
        self.index(&US_ENGLISH)
    }

    /// The long name.
    pub fn long(&self, lid: &Language) -> (result: Result<String, LookupMiss>)
        ensures
            is_lookup_of(result, *lid, key_of(self@, "long"@)),
    {
        self.text("long", lid)
    }

    pub fn long_default(&self) -> (result: Result<String, LookupMiss>)
        ensures
            is_lookup_of(result, US_ENGLISH, key_of(self@, "long"@)),
    {
        self.long(&US_ENGLISH)
    }
}

impl Clone for FluentName {
    fn clone(&self) -> (copy: Self)
        ensures
            copy == *self,
    {
        FluentName(self.0.clone())
    }
}

impl Default for FluentName {
    fn default() -> (made: Self)
        ensures
            made@ == Seq::<char>::empty(),
    {
        FluentName(String::new())
    }
}

impl PartialEq for FluentName {
    fn eq(&self, other: &Self) -> (same: bool) {
        names_equal(self.0.as_str(), other.0.as_str())
    }
}

impl vstd::std_specs::cmp::PartialEqSpecImpl for FluentName {
    open spec fn obeys_eq_spec() -> bool {
        true
    }

    open spec fn eq_spec(&self, other: &Self) -> bool {
        self@ == other@
    }
}

impl PartialOrd for FluentName {
    fn partial_cmp(&self, other: &Self) -> (order: Option<Ordering>) {
        if names_equal(self.0.as_str(), other.0.as_str()) {
            Some(Ordering::Equal)
        } else if name_at_most(self.0.as_str(), other.0.as_str()) {
            Some(Ordering::Less)
        } else {
            Some(Ordering::Greater)
        }
    }
}

impl vstd::std_specs::cmp::PartialOrdSpecImpl for FluentName {
    open spec fn obeys_partial_cmp_spec() -> bool {
        true
    }

    open spec fn partial_cmp_spec(&self, other: &Self) -> Option<Ordering> {
        if self@ == other@ {
            Some(Ordering::Equal)
        } else if name_le(self@, other@) {
            Some(Ordering::Less)
        } else {
            Some(Ordering::Greater)
        }
    }
}

} // verus!
