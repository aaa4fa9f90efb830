//! Die Karte: a card that is a rank and a suit and nothing more.

use crate::cards::model::RankView;
use crate::cards::model::SuitView;
use crate::cards::rank::Rank;
use crate::cards::suit::assigned_value;
use crate::cards::suit::Suit;
use crate::fluent::default_weight;
use crate::fluent::is_joined_lookup_of;
use crate::fluent::join_lookups;
use crate::fluent::Language;
use crate::fluent::LookupMiss;
use crate::fluent::US_ENGLISH;
use crate::text::key_of;
use vstd::prelude::*;

verus! {

/// A rank (Rang), under its German name.
pub type Rang = Rank;

/// A suit (Anzug), under its German name.
pub type Anzug = Suit;

/// A card without a value of its own: its rank and its suit.
pub struct KarteView {
    pub rang: RankView,
    pub anzug: SuitView,
}

/// The card that `Karte::new` makes of the names of a rank and a suit: the rank
/// with its default weight, the suit with its assigned value.
pub open spec fn named_karte(rang: Seq<char>, anzug: Seq<char>) -> KarteView {
    KarteView {
        rang: RankView { weight: default_weight(rang), name: rang },
        anzug: SuitView { value: assigned_value(anzug), name: anzug },
    }
}

/// A playing card (Karte).
#[derive(Debug, Eq)]
pub struct Karte {
    pub rang: Rang,
    pub anzug: Anzug,
}

impl View for Karte {
    type V = KarteView;

    open spec fn view(&self) -> KarteView {
        KarteView { rang: self.rang@, anzug: self.anzug@ }
    }
}

impl DeepView for Karte {
    type V = KarteView;

    open spec fn deep_view(&self) -> KarteView {
        self@
    }
}

impl Karte {
    /// The card of the rank and the suit of the given names.
    pub fn new(rang: &str, anzug: &str) -> (karte: Karte)
        ensures
            karte@ == named_karte(rang@, anzug@),
    {
        Karte { rang: Rang::new(rang), anzug: Anzug::new(anzug) }
    }

    /// The card of the given rank and suit.
    pub fn new_from_structs(rang: Rang, anzug: Anzug) -> (karte: Karte)
        ensures
            karte@ == (KarteView { rang: rang@, anzug: anzug@ }),
    {
        Karte { rang, anzug }
    }

    /// The card in letters: the index of its rank, then the letter of its suit.
    pub fn to_txt_string(&self, lid: &Language) -> (result: Result<String, LookupMiss>)
        ensures
            is_joined_lookup_of(
                result,
                *lid,
                key_of(self@.rang.name, "index"@),
                key_of(self@.anzug.name, "letter"@),
            ),
    {
        let rang = self.rang.to_locale_string(lid);
        let anzug = self.anzug.get_short(lid);
        join_lookups(rang, anzug)
    }

    /// The card with the symbol of its suit: the index of its rank, then the
    /// symbol.
    pub fn to_locale_string(&self, lid: &Language) -> (result: Result<String, LookupMiss>)
        ensures
            is_joined_lookup_of(
                result,
                *lid,
                key_of(self@.rang.name, "index"@),
                key_of(self@.anzug.name, "symbol"@),
            ),
    {
        let rang = self.rang.to_locale_string(lid);
        let anzug = self.anzug.to_locale_string(lid);
        join_lookups(rang, anzug)
    }

    /// The card as it is printed: in English, with the symbol of its suit.
    pub fn to_string(&self) -> (result: Result<String, LookupMiss>)
        ensures
            is_joined_lookup_of(
                result,
                US_ENGLISH,
                key_of(self@.rang.name, "index"@),
                key_of(self@.anzug.name, "symbol"@),
            ),
    {
        self.to_locale_string(&US_ENGLISH)
    }
}

impl Clone for Karte {
    fn clone(&self) -> (copy: Self)
        ensures
            copy == *self,
    {
        Karte { rang: self.rang.clone(), anzug: self.anzug.clone() }
    }
}

impl PartialEq for Karte {
    fn eq(&self, other: &Self) -> (same: bool) {
        self.rang == other.rang && self.anzug == other.anzug
    }
}

impl vstd::std_specs::cmp::PartialEqSpecImpl for Karte {
    open spec fn obeys_eq_spec() -> bool {
        true
    }

    open spec fn eq_spec(&self, other: &Self) -> bool {
        self@ == other@
    }
}

} // verus!
