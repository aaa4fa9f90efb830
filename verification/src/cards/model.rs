//! What suits, ranks and cards are to the contracts of this crate: plain
//! values, a card's value as a function of suit and rank, and the order of
//! each of the three.

use crate::text::lemma_name_le_antisymmetric;
use crate::text::lemma_name_le_reflexive;
use crate::text::lemma_name_le_total;
use crate::text::lemma_name_le_transitive;
use crate::text::name_le;
use vstd::prelude::*;

verus! {

/// A suit: its value and its name.
pub struct SuitView {
    pub value: int,
    pub name: Seq<char>,
}

/// A rank: its weight and its name.
pub struct RankView {
    pub weight: int,
    pub name: Seq<char>,
}

/// A card: its value, its suit and its rank.
pub struct CardView {
    pub value: int,
    pub suit: SuitView,
    pub rank: RankView,
}

/// The value of the card of `suit` and `rank` in a family of decks with the
/// given multiplier.
pub open spec fn card_value(multiplier: int, suit: SuitView, rank: RankView) -> int {
    suit.value * multiplier + rank.weight
}

/// The card of `rank` and `suit` in a family of decks with the given multiplier.
pub open spec fn card_of(multiplier: int, rank: RankView, suit: SuitView) -> CardView {
    CardView { value: card_value(multiplier, suit, rank), suit, rank }
}

impl SuitView {
    /// The order of suits: by value, then by name.
    pub open spec fn le(self, other: SuitView) -> bool {
        self.value < other.value || (self.value == other.value && name_le(self.name, other.name))
    }
}

impl RankView {
    /// The order of ranks: by weight, then by name.
    pub open spec fn le(self, other: RankView) -> bool {
        self.weight < other.weight || (self.weight == other.weight && name_le(
            self.name,
            other.name,
        ))
    }
}

impl CardView {
    /// The order of cards: by value, then by suit, then by rank.
    pub open spec fn le(self, other: CardView) -> bool {
        self.value < other.value || (self.value == other.value && (self.suit != other.suit
            && self.suit.le(other.suit) || self.suit == other.suit && self.rank.le(other.rank)))
    }

    /// Whether the card's value is that of its suit and rank under `multiplier`.
    pub open spec fn is_valued_by(self, multiplier: int) -> bool {
        self.value == card_value(multiplier, self.suit, self.rank)
    }
}

/// Every suit is at most itself.
pub proof fn lemma_suit_le_reflexive(a: SuitView)
    ensures
        a.le(a),
{
    lemma_name_le_reflexive(a.name);
}

/// Two suits that are each at most the other are the same suit.
pub proof fn lemma_suit_le_antisymmetric(a: SuitView, b: SuitView)
    requires
        a.le(b),
        b.le(a),
    ensures
        a == b,
{
    lemma_name_le_antisymmetric(a.name, b.name);
}

/// The order of suits is transitive.
pub proof fn lemma_suit_le_transitive(a: SuitView, b: SuitView, c: SuitView)
    requires
        a.le(b),
        b.le(c),
    ensures
        a.le(c),
{
    if a.value == b.value && b.value == c.value {
        lemma_name_le_transitive(a.name, b.name, c.name);
    }
}

/// Of two suits, one is at most the other.
pub proof fn lemma_suit_le_total(a: SuitView, b: SuitView)
    ensures
        a.le(b) || b.le(a),
{
    lemma_name_le_total(a.name, b.name);
}

/// Every rank is at most itself.
pub proof fn lemma_rank_le_reflexive(a: RankView)
    ensures
        a.le(a),
{
    lemma_name_le_reflexive(a.name);
}

/// Two ranks that are each at most the other are the same rank.
pub proof fn lemma_rank_le_antisymmetric(a: RankView, b: RankView)
    requires
        a.le(b),
        b.le(a),
    ensures
        a == b,
{
    lemma_name_le_antisymmetric(a.name, b.name);
}

/// The order of ranks is transitive.
pub proof fn lemma_rank_le_transitive(a: RankView, b: RankView, c: RankView)
    requires
        a.le(b),
        b.le(c),
    ensures
        a.le(c),
{
    if a.weight == b.weight && b.weight == c.weight {
        lemma_name_le_transitive(a.name, b.name, c.name);
    }
}

/// Of two ranks, one is at most the other.
pub proof fn lemma_rank_le_total(a: RankView, b: RankView)
    ensures
        a.le(b) || b.le(a),
{
    lemma_name_le_total(a.name, b.name);
}

/// Every card is at most itself.
pub proof fn lemma_card_le_reflexive(a: CardView)
    ensures
        a.le(a),
{
    lemma_rank_le_reflexive(a.rank);
}

/// Two cards that are each at most the other are the same card.
pub proof fn lemma_card_le_antisymmetric(a: CardView, b: CardView)
    requires
        a.le(b),
        b.le(a),
    ensures
        a == b,
{
    if a.suit != b.suit {
        lemma_suit_le_antisymmetric(a.suit, b.suit);
    } else {
        lemma_rank_le_antisymmetric(a.rank, b.rank);
    }
}

/// The order of cards is transitive.
pub proof fn lemma_card_le_transitive(a: CardView, b: CardView, c: CardView)
    requires
        a.le(b),
        b.le(c),
    ensures
        a.le(c),
{
    if a.value == b.value && b.value == c.value {
        if a.suit == b.suit && b.suit == c.suit {
            lemma_rank_le_transitive(a.rank, b.rank, c.rank);
        } else if a.suit != b.suit && b.suit != c.suit {
            lemma_suit_le_transitive(a.suit, b.suit, c.suit);
            if a.suit == c.suit {
                lemma_suit_le_antisymmetric(a.suit, b.suit);
            }
        }
    }
}

/// Of two cards, one is at most the other.
pub proof fn lemma_card_le_total(a: CardView, b: CardView)
    ensures
        a.le(b) || b.le(a),
{
    lemma_suit_le_total(a.suit, b.suit);
    lemma_rank_le_total(a.rank, b.rank);
}

/// Where two cards take their values from suit and rank under one multiplier
/// that is greater than every weight in play, the card of the higher suit is
/// the card of the higher value, and within a suit the card of the higher
/// weight is.
pub proof fn lemma_value_orders_by_suit_then_rank(multiplier: int, a: CardView, b: CardView)
    requires
        a.is_valued_by(multiplier),
        b.is_valued_by(multiplier),
        0 <= a.rank.weight < multiplier,
        0 <= b.rank.weight < multiplier,
    ensures
        a.suit.value < b.suit.value ==> a.value < b.value,
        a.suit.value == b.suit.value ==> (a.value < b.value <==> a.rank.weight < b.rank.weight),
        a.value == b.value ==> a.suit.value == b.suit.value && a.rank.weight == b.rank.weight,
{
    assert(a.suit.value < b.suit.value ==> (a.suit.value + 1) * multiplier <= b.suit.value
        * multiplier) by (nonlinear_arith)
        requires
            multiplier > 0,
    ;
    assert((a.suit.value + 1) * multiplier == a.suit.value * multiplier + multiplier)
        by (nonlinear_arith);
    assert(b.suit.value < a.suit.value ==> (b.suit.value + 1) * multiplier <= a.suit.value
        * multiplier) by (nonlinear_arith)
        requires
            multiplier > 0,
    ;
    assert((b.suit.value + 1) * multiplier == b.suit.value * multiplier + multiplier)
        by (nonlinear_arith);
}

} // verus!
