//! Decks: sequences of cards in which the order counts and a card may occur
//! more than once.

pub mod card;
pub mod shuffle;

use crate::cards::model::CardView;
use crate::cards::model::RankView;
use crate::cards::model::SuitView;
use crate::cards::model::lemma_card_le_total;
use crate::cards::model::lemma_card_le_transitive;
use crate::cards::model::lemma_value_orders_by_suit_then_rank;
use crate::cards::order::is_descending;
use crate::cards::order::lemma_descending_concat;
use crate::cards::order::lemma_remove_from_falling;
use crate::cards::order::same_cards;
use crate::cards::rank::BIG_JOKER;
use crate::cards::rank::LITTLE_JOKER;
use crate::cards::rank::Rank;
use crate::cards::rank::french_ranks;
use crate::cards::rank::major_arcana_ranks;
use crate::cards::rank::minor_arcana_ranks;
use crate::cards::rank::pinochle_ranks;
use crate::cards::recipe::cross;
use crate::cards::recipe::lemma_cross_contains;
use crate::cards::recipe::lemma_cross_descends;
use crate::cards::recipe::lemma_cross_len;
use crate::cards::recipe::lemma_cross_made_of;
use crate::cards::recipe::lemma_suit_cards_descend;
use crate::cards::recipe::lemma_suit_cards_len;
use crate::cards::recipe::lemma_suit_cards_made_of;
use crate::cards::recipe::rank_cards;
use crate::cards::recipe::suit_cards;
use crate::cards::recipe::suit_values_fall;
use crate::cards::recipe::valued;
use crate::cards::recipe::weights_fall_below;
use crate::cards::suit::CLUBS;
use crate::cards::suit::DIAMONDS;
use crate::cards::suit::HEARTS;
use crate::cards::suit::SPADES;
use crate::cards::suit::Suit;
use crate::cards::suit::arcana_suits;
use crate::cards::suit::french_suits;
use crate::cards::suit::lemma_top_down_values_fall;
use crate::deck::card::Card;
use crate::deck::card::MULTIPLIER;
use crate::deck::card::named_card;
use crate::deck::shuffle::arrangement;
use crate::deck::shuffle::check_permutation;
use crate::deck::shuffle::choose_one;
use crate::deck::shuffle::is_permutation;
use crate::deck::shuffle::lemma_arrangement_keeps_items;
use crate::deck::shuffle::random_order;
use vstd::prelude::*;
use vstd::std_specs::iter::IteratorSpec;
use vstd::seq_lib::to_multiset_build;
use vstd::seq_lib::to_multiset_insert;

verus! {

/// The two jokers, the big one first.
pub open spec fn joker_cards() -> Seq<CardView> {
    seq![named_card(BIG_JOKER@, SPADES@), named_card(LITTLE_JOKER@, SPADES@)]
}

/// The French deck: the four French suits from spades to clubs, each with the
/// thirteen French ranks from the ace to the two.
pub open spec fn french_cards() -> Seq<CardView> {
    cross(valued(MULTIPLIER as int), french_suits(), french_ranks(), 1)
}

/// The Pinochle deck: the four French suits, each with the six ranks of
/// Pinochle, two cards of each.
pub open spec fn pinochle_cards() -> Seq<CardView> {
    cross(valued(MULTIPLIER as int), french_suits(), pinochle_ranks(), 2)
}

/// The two of clubs of the French deck.
pub open spec fn two_of_clubs() -> CardView {
    valued(MULTIPLIER as int)(french_ranks()[12], french_suits()[3])
}

/// The two of diamonds of the French deck.
pub open spec fn two_of_diamonds() -> CardView {
    valued(MULTIPLIER as int)(french_ranks()[12], french_suits()[2])
}

/// The French deck without the two of clubs and the two of diamonds.
pub open spec fn french_cards_without_low_twos() -> Seq<CardView> {
    french_cards().remove_value(two_of_clubs()).remove_value(two_of_diamonds())
}

/// The Spades deck: the two jokers, then the French deck without the two of
/// clubs and the two of diamonds.
pub open spec fn spades_cards() -> Seq<CardView> {
    joker_cards() + french_cards_without_low_twos()
}

/// The Tarot deck: the major arcana in their own suit, then the four suits of
/// the minor arcana, each with its fourteen ranks.
pub open spec fn tarot_cards() -> Seq<CardView> {
    suit_cards(valued(MULTIPLIER as int), arcana_suits().first(), major_arcana_ranks(), 1) + cross(
        valued(MULTIPLIER as int),
        arcana_suits().skip(1),
        minor_arcana_ranks(),
        1,
    )
}

/// The French deck stands from the highest card to the lowest.
pub proof fn lemma_french_cards_descend()
    ensures
        is_descending(french_cards()),
{
    lemma_top_down_values_fall(seq![SPADES@, HEARTS@, DIAMONDS@, CLUBS@]);
    assert(french_ranks().len() == 13);
    assert(weights_fall_below(french_ranks(), MULTIPLIER as int));
    lemma_cross_descends(MULTIPLIER as int, french_suits(), french_ranks(), 1);
}

/// The French deck without its two lowest twos: fifty cards, neither of the
/// two among them, every other card of the French deck still there.
pub proof fn lemma_french_cards_without_low_twos()
    ensures
        french_cards_without_low_twos().len() == 50,
        !french_cards_without_low_twos().contains(two_of_clubs()),
        !french_cards_without_low_twos().contains(two_of_diamonds()),
        forall|card: CardView|
            card != two_of_clubs() && card != two_of_diamonds() && french_cards().contains(card)
                ==> #[trigger] french_cards_without_low_twos().contains(card),
        forall|card: CardView| #[trigger]
            french_cards_without_low_twos().contains(card) ==> french_cards().contains(card),
{
    let make = valued(MULTIPLIER as int);
    lemma_top_down_values_fall(seq![SPADES@, HEARTS@, DIAMONDS@, CLUBS@]);
    assert(french_ranks().len() == 13);
    assert(french_suits().len() == 4);
    assert(weights_fall_below(french_ranks(), MULTIPLIER as int));
    lemma_cross_descends(MULTIPLIER as int, french_suits(), french_ranks(), 1);
    lemma_cross_len(make, french_suits(), french_ranks(), 1);
    lemma_cross_contains(make, french_suits(), french_ranks(), 1, 3, 12);
    lemma_cross_contains(make, french_suits(), french_ranks(), 1, 2, 12);
    assert(french_suits()[3].value != french_suits()[2].value);
    let fewer = french_cards().remove_value(two_of_clubs());
    lemma_remove_from_falling(french_cards(), two_of_clubs());
    lemma_remove_from_falling(fewer, two_of_diamonds());
    assert(french_cards().len() == 52) by (nonlinear_arith)
        requires
            french_cards().len() == french_suits().len() * (french_ranks().len() * 1),
            french_suits().len() == 4,
            french_ranks().len() == 13,
    ;
}

/// The Pinochle deck stands from the highest card to the lowest, the two cards
/// of a kind side by side.
pub proof fn lemma_pinochle_cards_descend()
    ensures
        is_descending(pinochle_cards()),
{
    lemma_top_down_values_fall(seq![SPADES@, HEARTS@, DIAMONDS@, CLUBS@]);
    assert(pinochle_ranks().len() == 6);
    assert(weights_fall_below(pinochle_ranks(), MULTIPLIER as int));
    lemma_cross_descends(MULTIPLIER as int, french_suits(), pinochle_ranks(), 2);
}

/// The Tarot deck stands from the highest card to the lowest: the major arcana
/// above the four suits of the minor arcana.
pub proof fn lemma_tarot_cards_descend()
    ensures
        is_descending(tarot_cards()),
{
    let make = valued(MULTIPLIER as int);
    let major_suit = arcana_suits().first();
    let minor_suits = arcana_suits().skip(1);
    let major = suit_cards(make, major_suit, major_arcana_ranks(), 1);
    let minor = cross(make, minor_suits, minor_arcana_ranks(), 1);
    assert(major_arcana_ranks().len() == 22);
    assert(minor_arcana_ranks().len() == 14);
    assert(weights_fall_below(major_arcana_ranks(), MULTIPLIER as int));
    assert(weights_fall_below(minor_arcana_ranks(), MULTIPLIER as int));
    assert(suit_values_fall(minor_suits));
    lemma_suit_cards_descend(MULTIPLIER as int, major_suit, major_arcana_ranks(), 1);
    lemma_cross_descends(MULTIPLIER as int, minor_suits, minor_arcana_ranks(), 1);
    lemma_suit_cards_made_of(make, major_suit, major_arcana_ranks(), 1);
    lemma_cross_made_of(make, minor_suits, minor_arcana_ranks(), 1);
    assert forall|i: int, j: int| 0 <= i < major.len() && 0 <= j < minor.len() implies (
    #[trigger] minor[j]).le(#[trigger] major[i]) by {
        let b = choose|b: int|
            0 <= b < major_arcana_ranks().len() && major[i] == make(
                #[trigger] major_arcana_ranks()[b],
                major_suit,
            );
        let (a, c) = choose|a: int, c: int|
            0 <= a < minor_suits.len() && 0 <= c < minor_arcana_ranks().len() && minor[j] == make(
                #[trigger] minor_arcana_ranks()[c],
                #[trigger] minor_suits[a],
            );
        assert(0 <= major_arcana_ranks()[b].weight < MULTIPLIER);
        assert(0 <= minor_arcana_ranks()[c].weight < MULTIPLIER);
        assert(minor_suits[a].value < major_suit.value);
        lemma_value_orders_by_suit_then_rank(MULTIPLIER as int, minor[j], major[i]);
    }
    lemma_descending_concat(major, minor);
}

/// A deck of cards, the first card on top.
#[derive(Debug)]
pub struct Deck(Vec<Card>);

impl View for Deck {
    type V = Seq<CardView>;

    closed spec fn view(&self) -> Seq<CardView> {
        self.0.deep_view()
    }
}

impl Deck {
    /// The empty deck.
    pub fn new() -> (deck: Deck)
        ensures
            deck@ == Seq::<CardView>::empty(),
    {
        Deck::new_from_vector(Vec::new())
    }

    /// The deck of the given cards, in their order.
    pub fn new_from_vector(v: Vec<Card>) -> (deck: Deck)
        ensures
            deck@ == v.deep_view(),
    {
        Deck(v)
    }

    /// Puts a card under the deck.
    pub fn add(&mut self, elem: Card)
        ensures
            final(self)@ == old(self)@.push(elem@),
    {
        self.0.push(elem);
        assert(self.0.deep_view() =~= old(self).0.deep_view().push(elem@));
    }

    /// The cards of the deck, in their order.
    pub fn all(&self) -> (cards: &Vec<Card>)
        ensures
            cards.deep_view() == self@,
    {
        &self.0
    }

    /// Puts a copy of the cards of `other` under the deck, in their order.
    pub fn append(&mut self, other: &Deck)
        ensures
            final(self)@ == old(self)@ + other@,
            final(self)@.len() == old(self)@.len() + other@.len(),
            final(self)@.take(old(self)@.len() as int) == old(self)@,
            final(self)@.skip(old(self)@.len() as int) == other@,
    {
        let mut copy = other.0.clone();
        self.0.append(&mut copy);
        assert(self.0.deep_view() =~= old(self).0.deep_view() + other.0.deep_view());
        assert(self@.take(old(self)@.len() as int) =~= old(self)@);
        assert(self@.skip(old(self)@.len() as int) =~= other@);
    }

    /// Puts a copy of the cards of `other` on top of the deck, in their order.
    pub fn prepend(&mut self, other: &Deck)
        ensures
            final(self)@ == other@ + old(self)@,
    {
        let mut product = other.0.clone();
        product.append(&mut self.0);
        self.0 = product;
        assert(self.0.deep_view() =~= other.0.deep_view() + old(self).0.deep_view());
    }

    /// Whether a card equal to `karte` is in the deck.
    pub fn contains(&self, karte: &Card) -> (found: bool)
        ensures
            found == self@.contains(karte@),
    {
        self.position(karte).is_some()
    }

    /// Takes the first `x` cards off the deck, in their order, where the deck
    /// has that many; takes none where it has fewer.
    pub fn draw(&mut self, x: usize) -> (drawn: Option<Deck>)
        ensures
            x > old(self)@.len() ==> drawn is None && final(self)@ == old(self)@,
            x <= old(self)@.len() ==> drawn is Some && drawn.unwrap()@ == old(self)@.take(x as int)
                && final(self)@ == old(self)@.skip(x as int),
            x <= old(self)@.len() ==> drawn.unwrap()@.len() == x && final(self)@.len() == old(
                self,
            )@.len() - x,
    {
        if x > self.len() {
            None
        } else {
            let mut rest = self.0.split_off(x);
            std::mem::swap(&mut self.0, &mut rest);
            let karten = Deck(rest);
            assert(karten@ =~= old(self)@.take(x as int));
            assert(self@ =~= old(self)@.skip(x as int));
            Some(karten)
        }
    }

    /// Takes the first card off the deck, where it has one.
    pub fn draw_first(&mut self) -> (drawn: Option<Card>)
        ensures
            old(self)@.len() == 0 ==> drawn is None && final(self)@ == old(self)@,
            old(self)@.len() > 0 ==> drawn is Some && drawn.unwrap()@ == old(self)@.first()
                && final(self)@ == old(self)@.drop_first(),
    {
        if self.len() == 0 {
            None
        } else {
            let card = self.remove(0);
            assert(self@ =~= old(self)@.drop_first());
            Some(card)
        }
    }

    /// Takes the last card off the deck, where it has one.
    pub fn draw_last(&mut self) -> (drawn: Option<Card>)
        ensures
            old(self)@.len() == 0 ==> drawn is None && final(self)@ == old(self)@,
            old(self)@.len() > 0 ==> drawn is Some && drawn.unwrap()@ == old(self)@.last()
                && final(self)@ == old(self)@.drop_last(),
    {
        if self.len() == 0 {
            None
        } else {
            let card = self.remove(self.len() - 1);
            assert(self@ =~= old(self)@.drop_last());
            Some(card)
        }
    }

    /// The first card of the deck, where it has one.
    pub fn first(&self) -> (card: Option<&Card>)
        ensures
            self@.len() == 0 ==> card is None,
            self@.len() > 0 ==> card is Some && card.unwrap()@ == self@.first(),
    {
        self.get(0)
    }

    /// The card at position `index`, where the deck has one there.
    pub fn get(&self, index: usize) -> (card: Option<&Card>)
        ensures
            index >= self@.len() ==> card is None,
            index < self@.len() ==> card is Some && card.unwrap()@ == self@[index as int],
    {
        if index < self.0.len() {
            Some(&self.0[index])
        } else {
            None
        }
    }

    pub fn is_empty(&self) -> (empty: bool)
        ensures
            empty == (self@.len() == 0),
    {
        self.0.len() == 0
    }

    /// The last card of the deck, where it has one.
    pub fn last(&self) -> (card: Option<&Card>)
        ensures
            self@.len() == 0 ==> card is None,
            self@.len() > 0 ==> card is Some && card.unwrap()@ == self@.last(),
    {
        if self.0.len() == 0 {
            None
        } else {
            self.get(self.0.len() - 1)
        }
    }

    /// The number of cards in the deck.
    pub fn len(&self) -> (len: usize)
        ensures
            len == self@.len(),
    {
        self.0.len()
    }

    /// The first position at which the deck holds a card equal to `karte`.
    pub fn position(&self, karte: &Card) -> (position: Option<usize>)
        ensures
            match position {
                Some(i) => self@.index_of_first(karte@) == Some(i as int),
                None => self@.index_of_first(karte@) is None,
            },
            position is Some <==> self@.contains(karte@),
    {
        let mut i: usize = 0;
        while i < self.0.len()
            invariant
                i <= self.0@.len(),
                forall|k: int| 0 <= k < i ==> self@[k] != karte@,
            decreases self.0@.len() - i,
        {
            if self.0[i] == *karte {
                proof {
                    assert(self@[i as int] == karte@);
                    self@.index_of_first_ensures(karte@);
                }
                return Some(i);
            }
            i += 1;
        }
        proof {
            self@.index_of_first_ensures(karte@);
        }
        None
    }

    /// Takes the card at position `index` out of the deck.
    pub fn remove(&mut self, index: usize) -> (card: Card)
        requires
            index < old(self)@.len(),
        ensures
            card@ == old(self)@[index as int],
            final(self)@ == old(self)@.remove(index as int),
    {
        let card = self.0.remove(index);
        assert(self.0.deep_view() =~= old(self).0.deep_view().remove(index as int));
        card
    }

    /// Takes the first card equal to `karte` out of the deck, and no other.
    pub fn remove_karte(&mut self, karte: &Card) -> (removed: Option<Card>)
        ensures
            final(self)@ == old(self)@.remove_value(karte@),
            removed is Some <==> old(self)@.contains(karte@),
            removed is Some ==> removed.unwrap()@ == karte@,
            removed is Some ==> final(self)@.len() == old(self)@.len() - 1,
            removed is None ==> final(self)@ == old(self)@,
    {
        proof {
            self@.index_of_first_ensures(karte@);
        }
        match self.position(karte) {
            None => None,
            Some(position) => Some(self.remove(position)),
        }
    }

    /// Puts the cards of the deck from the highest to the lowest.
    pub fn sort(&mut self)
        ensures
            same_cards(final(self)@, old(self)@),
            is_descending(final(self)@),
    {
        broadcast use {vstd::multiset::group_multiset_axioms, vstd::seq_lib::group_to_multiset_ensures};

        let mut sorted: Vec<Card> = Vec::new();
        assert(sorted.deep_view() =~= Seq::<CardView>::empty());
        assert(sorted.deep_view().to_multiset().add(self@.to_multiset()) =~= old(self)@.to_multiset());
        while self.0.len() > 0
            invariant
                is_descending(sorted.deep_view()),
                sorted.deep_view().to_multiset().add(self@.to_multiset()) == old(
                    self,
                )@.to_multiset(),
            decreases self.0@.len(),
        {
            let ghost rest = self@;
            let ghost before = sorted.deep_view();
            let card = self.0.pop().unwrap();
            let mut p: usize = 0;
            while p < sorted.len() && !sorted[p].at_most(&card)
                invariant
                    p <= sorted@.len(),
                    sorted.deep_view() == before,
                    forall|k: int| 0 <= k < p ==> !(#[trigger] before[k]).le(card@),
                decreases sorted@.len() - p,
            {
                p += 1;
            }
            sorted.insert(p, card);
            proof {
                let after = sorted.deep_view();
                assert(after =~= before.insert(p as int, card@));
                assert(rest =~= self@.push(card@));
                assert forall|i: int, j: int| 0 <= i < j < after.len() implies (
                #[trigger] after[j]).le(#[trigger] after[i]) by {
                    if j < p {
                    } else if j == p {
                        assert(!before[i].le(card@));
                        lemma_card_le_total(before[i], card@);
                    } else if i < p {
                        assert(before[j - 1].le(before[i]));
                    } else if i == p {
                        assert(before[p as int].le(card@));
                        if j - 1 > p {
                            assert(before[j - 1].le(before[p as int]));
                            lemma_card_le_transitive(before[j - 1], before[p as int], card@);
                        }
                    } else {
                        assert(before[j - 1].le(before[i - 1]));
                    }
                }
                to_multiset_insert(before, p as int, card@);
                to_multiset_build(self@, card@);
                assert(after.to_multiset().add(self@.to_multiset()) =~= before.to_multiset().add(
                    rest.to_multiset(),
                ));
            }
        }
        assert(self@ =~= Seq::<CardView>::empty());
        assert(sorted.deep_view().to_multiset() =~= old(self)@.to_multiset());
        self.0 = sorted;
    }

    /// The cards of the deck in the order that `order` names, where `order`
    /// names each position of the deck once; none where it does not.
    pub fn arranged(&self, order: &Vec<usize>) -> (deck: Option<Deck>)
        ensures
            deck is Some <==> is_permutation(order@, self@.len()),
            deck is Some ==> deck.unwrap()@ == arrangement(self@, order@) && same_cards(
                deck.unwrap()@,
                self@,
            ),
    {
        if !check_permutation(order, self.len()) {
            return None;
        }
        let mut cards: Vec<Card> = Vec::new();
        let mut i: usize = 0;
        while i < order.len()
            invariant
                i <= order@.len(),
                is_permutation(order@, self@.len()),
                cards@.len() == i,
                forall|k: int| 0 <= k < i ==> (#[trigger] cards@[k])@ == self@[order@[k] as int],
            decreases order@.len() - i,
        {
            let from: usize = order[i];
            cards.push(self.0[from].clone());
            i += 1;
        }
        proof {
            assert(cards.deep_view() =~= arrangement(self@, order@));
            lemma_arrangement_keeps_items(self@, order@);
        }
        Some(Deck(cards))
    }

    /// The cards of the deck in an order left to chance. The deck itself stays
    /// as it is.
    pub fn mischen(&self) -> (shuffled: Deck)
        ensures
            same_cards(shuffled@, self@),
            shuffled@.len() == self@.len(),
            exists|order: Seq<usize>|
                is_permutation(order, self@.len()) && shuffled@ == arrangement(self@, order),
    {
        let order = random_order(self.len());
        let shuffled = self.arranged(&order).unwrap();
        assert(is_permutation(order@, self@.len()) && shuffled@ == arrangement(self@, order@));
        shuffled
    }

    /// A card of the deck left to chance, where the deck has a card.
    pub fn get_random(&self) -> (card: Option<&Card>)
        ensures
            self@.len() == 0 ==> card is None,
            self@.len() > 0 ==> card is Some && self@.contains(card.unwrap()@),
    {
        let card = choose_one(&self.0);
        proof {
            if self@.len() > 0 {
                let i = choose|i: int| 0 <= i < self.0@.len() && self.0@[i] == *card.unwrap();
                assert(self@[i] == card.unwrap()@);
            }
        }
        card
    }

    /// Puts the cards of one suit under the deck: rank by rank in the order of
    /// `ranks`, `copies` cards of each.
    pub fn add_suit(&mut self, suit: &Suit, ranks: &Vec<Rank>, copies: usize)
        ensures
            final(self)@ == old(self)@ + suit_cards(
                valued(MULTIPLIER as int),
                suit@,
                ranks.deep_view(),
                copies as nat,
            ),
    {
        let ghost start = self@;
        let ghost all = ranks.deep_view();
        let mut j: usize = 0;
        assert(all.take(0) =~= Seq::<RankView>::empty());
        assert(self@ =~= start + suit_cards(valued(MULTIPLIER as int), suit@, all.take(0), copies as nat));
        while j < ranks.len()
            invariant
                j <= ranks@.len(),
                all == ranks.deep_view(),
                self@ == start + suit_cards(
                    valued(MULTIPLIER as int),
                    suit@,
                    all.take(j as int),
                    copies as nat,
                ),
            decreases ranks@.len() - j,
        {
            let ghost so_far = self@;
            let mut c: usize = 0;
            assert(self@ =~= so_far + rank_cards(valued(MULTIPLIER as int), suit@, ranks@[j as int]@, 0));
            while c < copies
                invariant
                    c <= copies,
                    j < ranks@.len(),
                    self@ == so_far + rank_cards(
                        valued(MULTIPLIER as int),
                        suit@,
                        ranks@[j as int]@,
                        c as nat,
                    ),
                decreases copies - c,
            {
                self.add(Card::new_from_structs(ranks[j].clone(), suit.clone()));
                c += 1;
                assert(self@ =~= so_far + rank_cards(
                    valued(MULTIPLIER as int),
                    suit@,
                    ranks@[j as int]@,
                    c as nat,
                ));
            }
            proof {
                let longer = all.take(j + 1);
                assert(longer.drop_last() =~= all.take(j as int));
                assert(longer.last() == ranks@[j as int]@);
                assert(self@ =~= start + suit_cards(
                    valued(MULTIPLIER as int),
                    suit@,
                    longer,
                    copies as nat,
                ));
            }
            j += 1;
        }
        assert(all.take(j as int) =~= all);
    }

    /// Puts the cards of every suit with every rank under the deck: suit by
    /// suit in the order of `suits`, `copies` cards of each rank.
    pub fn add_cross(&mut self, suits: &Vec<Suit>, ranks: &Vec<Rank>, copies: usize)
        ensures
            final(self)@ == old(self)@ + cross(
                valued(MULTIPLIER as int),
                suits.deep_view(),
                ranks.deep_view(),
                copies as nat,
            ),
    {
        let ghost start = self@;
        let ghost all = suits.deep_view();
        let ghost weights = ranks.deep_view();
        let mut i: usize = 0;
        assert(all.take(0) =~= Seq::<SuitView>::empty());
        assert(self@ =~= start + cross(valued(MULTIPLIER as int), all.take(0), weights, copies as nat));
        while i < suits.len()
            invariant
                i <= suits@.len(),
                all == suits.deep_view(),
                weights == ranks.deep_view(),
                self@ == start + cross(
                    valued(MULTIPLIER as int),
                    all.take(i as int),
                    weights,
                    copies as nat,
                ),
            decreases suits@.len() - i,
        {
            self.add_suit(&suits[i], ranks, copies);
            proof {
                let longer = all.take(i + 1);
                assert(longer.drop_last() =~= all.take(i as int));
                assert(longer.last() == suits@[i as int]@);
                assert(self@ =~= start + cross(
                    valued(MULTIPLIER as int),
                    longer,
                    weights,
                    copies as nat,
                ));
            }
            i += 1;
        }
        assert(all.take(i as int) =~= all);
    }

    /// The cards of the deck, one after the other from the first.
    pub fn values(&self) -> (cards: std::slice::Iter<'_, Card>)
        ensures
            cards.remaining().len() == self@.len(),
            forall|i: int| 0 <= i < self@.len() ==> (#[trigger] cards.remaining()[i])@ == self@[i],
    {
        let cards = self.0.iter();
        cards
    }

    /// The two jokers, the big one first.
    pub fn jokers() -> (deck: Deck)
        ensures
            deck@ == joker_cards(),
    {
        let big_joker = Card::new(BIG_JOKER, SPADES);
        let little_joker = Card::new(LITTLE_JOKER, SPADES);
        let mut deck = Deck::new();
        deck.add(big_joker);
        deck.add(little_joker);
        assert(deck@ =~= joker_cards());
        deck
    }

    /// The French deck of 52 cards.
    pub fn french_deck() -> (deck: Deck)
        ensures
            deck@ == french_cards(),
            deck@.len() == 52,
            is_descending(deck@),
    {
        proof {
            lemma_french_cards_descend();
        }
        let suits = Suit::generate_french_suits();
        let ranks = Rank::generate_french_ranks();
        let mut karten: Deck = Deck::new();
        karten.add_cross(&suits, &ranks, 1);
        proof {
            assert(karten@ =~= french_cards());
            lemma_cross_len(valued(MULTIPLIER as int), french_suits(), french_ranks(), 1);
            let suits = french_suits().len();
            let ranks = french_ranks().len();
            assert(suits * (ranks * 1) == 52) by (nonlinear_arith)
                requires
                    suits == 4,
                    ranks == 13,
            ;
        }
        karten
    }

    /// The Pinochle deck of 48 cards.
    pub fn pinochle_deck() -> (deck: Deck)
        ensures
            deck@ == pinochle_cards(),
            deck@.len() == 48,
            is_descending(deck@),
    {
        proof {
            lemma_pinochle_cards_descend();
        }
        let suits = Suit::generate_french_suits();
        let ranks = Rank::generate_pinochle_ranks();
        let mut karten: Deck = Deck::new();
        karten.add_cross(&suits, &ranks, 2);
        proof {
            assert(karten@ =~= pinochle_cards());
            lemma_cross_len(valued(MULTIPLIER as int), french_suits(), pinochle_ranks(), 2);
            let suits = french_suits().len();
            let ranks = pinochle_ranks().len();
            assert(suits * (ranks * 2) == 48) by (nonlinear_arith)
                requires
                    suits == 4,
                    ranks == 6,
            ;
        }
        karten
    }

    /// The Spades deck of 52 cards: the French deck without the two of clubs
    /// and the two of diamonds, under the two jokers.
    pub fn spades_deck() -> (deck: Deck)
        ensures
            deck@ == spades_cards(),
            deck@.len() == 52,
            deck@.take(2) == joker_cards(),
            deck@.skip(2) == french_cards_without_low_twos(),
            !deck@.contains(two_of_clubs()),
            !deck@.contains(two_of_diamonds()),
    {
        let suits = Suit::generate_french_suits();
        let ranks = Rank::generate_french_ranks();
        assert(suits.deep_view().len() == 4 && ranks.deep_view().len() == 13);
        assert(suits@[3]@ == suits.deep_view()[3] && suits@[2]@ == suits.deep_view()[2]);
        assert(ranks@[12]@ == ranks.deep_view()[12]);
        let mut deck = Deck::french_deck();
        deck.remove_karte(&Card::new_from_structs(ranks[12].clone(), suits[3].clone()));
        deck.remove_karte(&Card::new_from_structs(ranks[12].clone(), suits[2].clone()));
        let jokers = Deck::jokers();
        deck.prepend(&jokers);
        proof {
            lemma_french_cards_without_low_twos();
            assert(deck@.take(2) =~= joker_cards());
            assert(deck@.skip(2) =~= french_cards_without_low_twos());
            reveal_strlit("two");
            reveal_strlit("big-joker");
            reveal_strlit("little-joker");
            assert forall|k: int| 0 <= k < deck@.len() implies deck@[k] != two_of_clubs()
                && deck@[k] != two_of_diamonds() by {
                if k < 2 {
                    assert(deck@[k] == joker_cards()[k]);
                    assert(deck@[k].rank.name.len() != two_of_clubs().rank.name.len());
                } else {
                    assert(deck@[k] == french_cards_without_low_twos()[k - 2]);
                    assert(french_cards_without_low_twos().contains(deck@[k]));
                }
            }
        }
        deck
    }

    /// The Tarot deck of 78 cards.
    pub fn tarot_deck() -> (deck: Deck)
        ensures
            deck@ == tarot_cards(),
            deck@.len() == 78,
            is_descending(deck@),
    {
        proof {
            lemma_tarot_cards_descend();
        }
        let mut minor_suits = Suit::generate_arcana_suits();
        let major_ranks = Rank::generate_major_arcana_ranks();
        let minor_ranks = Rank::generate_minor_arcana_ranks();
        let ghost all = minor_suits.deep_view();
        let major_suit = minor_suits.remove(0);
        assert(minor_suits.deep_view() =~= all.skip(1));
        let mut karten: Deck = Deck::new();
        karten.add_suit(&major_suit, &major_ranks, 1);
        karten.add_cross(&minor_suits, &minor_ranks, 1);
        proof {
            assert(karten@ =~= tarot_cards());
            lemma_suit_cards_len(valued(MULTIPLIER as int), all.first(), major_arcana_ranks(), 1);
            lemma_cross_len(valued(MULTIPLIER as int), all.skip(1), minor_arcana_ranks(), 1);
            let suits = all.skip(1).len();
            let ranks = minor_arcana_ranks().len();
            assert(suits * (ranks * 1) == 56) by (nonlinear_arith)
                requires
                    suits == 4,
                    ranks == 14,
            ;
            assert(major_arcana_ranks().len() * 1 == 22);
        }
        karten
    }
}

impl IntoIterator for Deck {
    type Item = Card;

    type IntoIter = std::vec::IntoIter<Card>;

    fn into_iter(self) -> (cards: std::vec::IntoIter<Card>)
        ensures
            cards.remaining().len() == self@.len(),
            forall|i: int| 0 <= i < self@.len() ==> (#[trigger] cards.remaining()[i])@ == self@[i],
    {
        self.0.into_iter()
    }
}

impl Clone for Deck {
    fn clone(&self) -> (copy: Self)
        ensures
            copy@ == self@,
    {
        let copy = Deck(self.0.clone());
        assert(copy@ =~= self@);
        copy
    }
}

impl PartialEq for Deck {
    fn eq(&self, other: &Self) -> (same: bool) {
        if self.0.len() != other.0.len() {
            assert(self@.len() != other@.len());
            return false;
        }
        let mut i: usize = 0;
        while i < self.0.len()
            invariant
                i <= self.0@.len(),
                self.0@.len() == other.0@.len(),
                forall|k: int| 0 <= k < i ==> self@[k] == other@[k],
            decreases self.0@.len() - i,
        {
            if self.0[i] != other.0[i] {
                assert(self@[i as int] != other@[i as int]);
                return false;
            }
            i += 1;
        }
        assert(self@ =~= other@);
        true
    }
}

impl vstd::std_specs::cmp::PartialEqSpecImpl for Deck {
    open spec fn obeys_eq_spec() -> bool {
        true
    }

    open spec fn eq_spec(&self, other: &Self) -> bool {
        self@ == other@
    }
}

} // verus!
