//! The card of the decks of this module: a suit, a rank, and the value that
//! orders the cards of a deck.

use crate::cards::model::card_of;
use crate::cards::model::card_value;
use crate::cards::model::lemma_card_le_reflexive;
use crate::cards::model::CardView;
use crate::cards::model::RankView;
use crate::cards::model::SuitView;
use crate::cards::rank::Rank;
use crate::cards::suit::assigned_value;
use crate::cards::suit::Suit;
use crate::fluent::default_weight;
use crate::fluent::is_joined_lookup_of;
use crate::fluent::join_lookups;
use crate::fluent::Language;
use crate::fluent::LookupMiss;
use crate::fluent::US_ENGLISH;
use crate::text::key_of;
use std::cmp::Ordering;
use vstd::prelude::*;

verus! {

/// By how much a suit's value counts more than a rank's weight in the value of
/// a card of a deck. Where every weight in play is at least 0 and below it,
/// the order of the values is the order by suit, then by rank
/// (`lemma_value_orders_by_suit_then_rank`).
pub const MULTIPLIER: i128 = 100;

/// The card that `Card::new` makes of the names of a rank and a suit: the rank
/// with its default weight, the suit with its assigned value.
pub open spec fn named_card(rank: Seq<char>, suit: Seq<char>) -> CardView {
    card_of(
        MULTIPLIER as int,
        RankView { weight: default_weight(rank), name: rank },
        SuitView { value: assigned_value(suit), name: suit },
    )
}

/// A playing card.
#[derive(Debug, Eq)]
pub struct Card {
    pub value: i128,
    pub suit: Suit,
    pub rank: Rank,
}

impl View for Card {
    type V = CardView;

    open spec fn view(&self) -> CardView {
        CardView { value: self.value as int, suit: self.suit@, rank: self.rank@ }
    }
}

impl DeepView for Card {
    type V = CardView;

    open spec fn deep_view(&self) -> CardView {
        self@
    }
}

impl Card {
    /// Whether the value of the card is the one that its suit and its rank
    /// give it. It is so for every card that `new` and `new_from_structs`
    /// make.
    pub open spec fn wf(&self) -> bool {
        self@.is_valued_by(MULTIPLIER as int)
    }

    /// The card of the rank and the suit of the given names.
    pub fn new(rang: &str, anzug: &str) -> (card: Card)
        ensures
            card@ == named_card(rang@, anzug@),
            card.wf(),
    {
        let a = Suit::new(anzug);
        let r = Rank::new(rang);
        let wert = Card::determine_value(&a, &r);
        Card { value: wert, suit: a, rank: r }
    }

    /// The card of the given rank and suit.
    pub fn new_from_structs(rank: Rank, suit: Suit) -> (card: Card)
        ensures
            card@ == card_of(MULTIPLIER as int, rank@, suit@),
            card.wf(),
    {
        let value = Card::determine_value(&suit, &rank);
        Card { value, rank, suit }
    }

    /// The value of the card of a suit and a rank.
    pub fn determine_value(anzug: &Suit, rang: &Rank) -> (value: i128)
        ensures
            value == card_value(MULTIPLIER as int, anzug@, rang@),
    {
        let suit_value: i128 = anzug.value as i128;
        let weight: i128 = rang.weight as i128;
        suit_value * MULTIPLIER + weight
    }

    /// Whether the card is at most `other` in the order of cards.
    pub fn at_most(&self, other: &Card) -> (le: bool)
        ensures
            le == self@.le(other@),
    {
        proof {
            lemma_card_le_reflexive(self@);
        }
        self <= other
    }

    /// The card in letters: the index of its rank, then the letter of its suit.
    pub fn to_txt_string(&self, lid: &Language) -> (result: Result<String, LookupMiss>)
        ensures
            is_joined_lookup_of(
                result,
                *lid,
                key_of(self@.rank.name, "index"@),
                key_of(self@.suit.name, "letter"@),
            ),
    {
        let rang = self.rank.to_locale_string(lid);
        let anzug = self.suit.get_short(lid);
        join_lookups(rang, anzug)
    }

    /// The card with the symbol of its suit: the index of its rank, then the
    /// symbol.
    pub fn to_locale_string(&self, lid: &Language) -> (result: Result<String, LookupMiss>)
        ensures
            is_joined_lookup_of(
                result,
                *lid,
                key_of(self@.rank.name, "index"@),
                key_of(self@.suit.name, "symbol"@),
            ),
    {
        let rang = self.rank.to_locale_string(lid);
        let anzug = self.suit.to_locale_string(lid);
        join_lookups(rang, anzug)
    }

    /// The card as it is printed: in English, with the symbol of its suit.
    pub fn to_string(&self) -> (result: Result<String, LookupMiss>)
        ensures
            is_joined_lookup_of(
                result,
                US_ENGLISH,
                key_of(self@.rank.name, "index"@),
                key_of(self@.suit.name, "symbol"@),
            ),
    {
        self.to_locale_string(&US_ENGLISH)
    }
}

impl Clone for Card {
    fn clone(&self) -> (copy: Self)
        ensures
            copy == *self,
    {
        Card { value: self.value, suit: self.suit.clone(), rank: self.rank.clone() }
    }
}

impl PartialEq for Card {
    fn eq(&self, other: &Self) -> (same: bool) {
        self.value == other.value && self.suit == other.suit && self.rank == other.rank
    }
}

impl vstd::std_specs::cmp::PartialEqSpecImpl for Card {
    open spec fn obeys_eq_spec() -> bool {
        true
    }

    open spec fn eq_spec(&self, other: &Self) -> bool {
        self@ == other@
    }
}

impl PartialOrd for Card {
    fn partial_cmp(&self, other: &Self) -> (order: Option<Ordering>) {
        if self.value < other.value {
            Some(Ordering::Less)
        } else if self.value > other.value {
            Some(Ordering::Greater)
        } else if self.suit != other.suit {
            self.suit.partial_cmp(&other.suit)
        } else {
            self.rank.partial_cmp(&other.rank)
        }
    }
}

impl vstd::std_specs::cmp::PartialOrdSpecImpl for Card {
    open spec fn obeys_partial_cmp_spec() -> bool {
        true
    }

    open spec fn partial_cmp_spec(&self, other: &Self) -> Option<Ordering> {
        if self@ == other@ {
            Some(Ordering::Equal)
        } else if self@.le(other@) {
            Some(Ordering::Less)
        } else {
            Some(Ordering::Greater)
        }
    }
}

} // verus!
