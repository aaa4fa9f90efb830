//! How the decks are laid out: every suit with every rank, suit by suit, and
//! what follows for the order of the cards of such a deck.

use crate::cards::model::card_of;
use crate::cards::model::CardView;
use crate::cards::model::lemma_card_le_reflexive;
use crate::cards::model::lemma_value_orders_by_suit_then_rank;
use crate::cards::model::RankView;
use crate::cards::model::SuitView;
use crate::cards::order::is_descending;
use crate::cards::order::lemma_descending_concat;
use crate::cards::order::lemma_values_fall_concat;
use crate::cards::order::values_fall;
use vstd::prelude::*;

verus! {

/// The way in which the decks of one family make a card of a rank and a suit:
/// with the value that the family's multiplier gives it.
pub open spec fn valued(multiplier: int) -> spec_fn(RankView, SuitView) -> CardView {
    |rank: RankView, suit: SuitView| card_of(multiplier, rank, suit)
}

/// `copies` cards of one rank and one suit, each made by `make`.
pub open spec fn rank_cards<C>(
    make: spec_fn(RankView, SuitView) -> C,
    suit: SuitView,
    rank: RankView,
    copies: nat,
) -> Seq<C> {
    Seq::new(copies, |i: int| make(rank, suit))
}

/// The cards of one suit: for each rank in the order of `ranks`, `copies` cards.
pub open spec fn suit_cards<C>(
    make: spec_fn(RankView, SuitView) -> C,
    suit: SuitView,
    ranks: Seq<RankView>,
    copies: nat,
) -> Seq<C>
    decreases ranks.len(),
{
    if ranks.len() == 0 {
        Seq::empty()
    } else {
        suit_cards(make, suit, ranks.drop_last(), copies) + rank_cards(
            make,
            suit,
            ranks.last(),
            copies,
        )
    }
}

/// The cards of every suit with every rank: suit by suit in the order of
/// `suits`, within a suit rank by rank in the order of `ranks`, `copies` cards
/// of each.
pub open spec fn cross<C>(
    make: spec_fn(RankView, SuitView) -> C,
    suits: Seq<SuitView>,
    ranks: Seq<RankView>,
    copies: nat,
) -> Seq<C>
    decreases suits.len(),
{
    if suits.len() == 0 {
        Seq::empty()
    } else {
        cross(make, suits.drop_last(), ranks, copies) + suit_cards(
            make,
            suits.last(),
            ranks,
            copies,
        )
    }
}

/// One suit has as many cards as ranks, times the copies.
pub proof fn lemma_suit_cards_len<C>(
    make: spec_fn(RankView, SuitView) -> C,
    suit: SuitView,
    ranks: Seq<RankView>,
    copies: nat,
)
    ensures
        suit_cards(make, suit, ranks, copies).len() == ranks.len() * copies,
    decreases ranks.len(),
{
    if ranks.len() > 0 {
        lemma_suit_cards_len(make, suit, ranks.drop_last(), copies);
        assert((ranks.len() - 1) * copies + copies == ranks.len() * copies) by (nonlinear_arith);
    }
}

/// The cards of every suit with every rank are as many as suits, times the
/// ranks, times the copies.
pub proof fn lemma_cross_len<C>(
    make: spec_fn(RankView, SuitView) -> C,
    suits: Seq<SuitView>,
    ranks: Seq<RankView>,
    copies: nat,
)
    ensures
        cross(make, suits, ranks, copies).len() == suits.len() * (ranks.len() * copies),
    decreases suits.len(),
{
    if suits.len() > 0 {
        lemma_cross_len(make, suits.drop_last(), ranks, copies);
        lemma_suit_cards_len(make, suits.last(), ranks, copies);
        let per_suit = ranks.len() * copies;
        assert((suits.len() - 1) * per_suit + per_suit == suits.len() * per_suit)
            by (nonlinear_arith);
    }
}

/// Whether each suit has a higher value than every suit after it.
pub open spec fn suit_values_fall(suits: Seq<SuitView>) -> bool {
    forall|i: int, j: int|
        0 <= i < j < suits.len() ==> (#[trigger] suits[i]).value > (#[trigger] suits[j]).value
}

/// Whether each rank has a higher weight than every rank after it, and every
/// weight is at least 0 and below `multiplier`.
pub open spec fn weights_fall_below(ranks: Seq<RankView>, multiplier: int) -> bool {
    &&& forall|i: int, j: int|
        0 <= i < j < ranks.len() ==> (#[trigger] ranks[i]).weight > (#[trigger] ranks[j]).weight
    &&& forall|i: int| 0 <= i < ranks.len() ==> 0 <= (#[trigger] ranks[i]).weight < multiplier
}

/// Whether every card of `cards` is made of `suit` and one of `ranks`.
pub open spec fn made_of_suit<C>(
    cards: Seq<C>,
    make: spec_fn(RankView, SuitView) -> C,
    suit: SuitView,
    ranks: Seq<RankView>,
) -> bool {
    forall|k: int|
        0 <= k < cards.len() ==> exists|b: int|
            0 <= b < ranks.len() && #[trigger] cards[k] == make(#[trigger] ranks[b], suit)
}

/// Whether every card of `cards` is made of one of `suits` and one of `ranks`.
pub open spec fn made_of<C>(
    cards: Seq<C>,
    make: spec_fn(RankView, SuitView) -> C,
    suits: Seq<SuitView>,
    ranks: Seq<RankView>,
) -> bool {
    forall|k: int|
        0 <= k < cards.len() ==> exists|a: int, b: int|
            0 <= a < suits.len() && 0 <= b < ranks.len() && #[trigger] cards[k] == make(
                #[trigger] ranks[b],
                #[trigger] suits[a],
            )
}

/// The cards of one suit are made of that suit and the given ranks.
pub proof fn lemma_suit_cards_made_of<C>(
    make: spec_fn(RankView, SuitView) -> C,
    suit: SuitView,
    ranks: Seq<RankView>,
    copies: nat,
)
    ensures
        made_of_suit(suit_cards(make, suit, ranks, copies), make, suit, ranks),
    decreases ranks.len(),
{
    let cards = suit_cards(make, suit, ranks, copies);
    if ranks.len() > 0 {
        let fewer = ranks.drop_last();
        let before = suit_cards(make, suit, fewer, copies);
        lemma_suit_cards_made_of(make, suit, fewer, copies);
        assert forall|k: int| 0 <= k < cards.len() implies exists|b: int|
            0 <= b < ranks.len() && #[trigger] cards[k] == make(#[trigger] ranks[b], suit) by {
            if k < before.len() {
                assert(cards[k] == before[k]);
                let b = choose|b: int|
                    0 <= b < fewer.len() && before[k] == make(#[trigger] fewer[b], suit);
                assert(fewer[b] == ranks[b]);
            } else {
                assert(cards[k] == make(ranks[ranks.len() - 1], suit));
            }
        }
    }
}

/// The cards of every suit with every rank are made of the given suits and
/// ranks.
pub proof fn lemma_cross_made_of<C>(
    make: spec_fn(RankView, SuitView) -> C,
    suits: Seq<SuitView>,
    ranks: Seq<RankView>,
    copies: nat,
)
    ensures
        made_of(cross(make, suits, ranks, copies), make, suits, ranks),
    decreases suits.len(),
{
    let cards = cross(make, suits, ranks, copies);
    if suits.len() > 0 {
        let fewer = suits.drop_last();
        let before = cross(make, fewer, ranks, copies);
        let last = suit_cards(make, suits.last(), ranks, copies);
        lemma_cross_made_of(make, fewer, ranks, copies);
        lemma_suit_cards_made_of(make, suits.last(), ranks, copies);
        assert forall|k: int| 0 <= k < cards.len() implies exists|a: int, b: int|
            0 <= a < suits.len() && 0 <= b < ranks.len() && #[trigger] cards[k] == make(
                #[trigger] ranks[b],
                #[trigger] suits[a],
            ) by {
            if k < before.len() {
                assert(cards[k] == before[k]);
                let (a, b) = choose|a: int, b: int|
                    0 <= a < fewer.len() && 0 <= b < ranks.len() && before[k] == make(
                        #[trigger] ranks[b],
                        #[trigger] fewer[a],
                    );
                assert(fewer[a] == suits[a]);
            } else {
                let at = k - before.len();
                assert(cards[k] == last[at]);
                let b = choose|b: int|
                    0 <= b < ranks.len() && last[at] == make(#[trigger] ranks[b], suits.last());
                assert(suits[suits.len() - 1] == suits.last());
            }
        }
    }
}

/// The cards of one suit stand from the highest to the lowest where the
/// weights of the ranks fall; with one card of each rank their values fall.
pub proof fn lemma_suit_cards_descend(
    multiplier: int,
    suit: SuitView,
    ranks: Seq<RankView>,
    copies: nat,
)
    requires
        weights_fall_below(ranks, multiplier),
    ensures
        is_descending(suit_cards(valued(multiplier), suit, ranks, copies)),
        copies == 1 ==> values_fall(suit_cards(valued(multiplier), suit, ranks, copies)),
    decreases ranks.len(),
{
    if ranks.len() > 0 {
        let make = valued(multiplier);
        let fewer = ranks.drop_last();
        let before = suit_cards(make, suit, fewer, copies);
        let last = rank_cards(make, suit, ranks.last(), copies);
        assert(weights_fall_below(fewer, multiplier)) by {
            assert forall|i: int, j: int| 0 <= i < j < fewer.len() implies (
            #[trigger] fewer[i]).weight > (#[trigger] fewer[j]).weight by {
                assert(ranks[i].weight > ranks[j].weight);
            }
            assert forall|i: int| 0 <= i < fewer.len() implies 0 <= (#[trigger] fewer[i]).weight
                < multiplier by {
                assert(0 <= ranks[i].weight < multiplier);
            }
        }
        lemma_suit_cards_descend(multiplier, suit, fewer, copies);
        lemma_suit_cards_made_of(make, suit, fewer, copies);
        assert(is_descending(last)) by {
            lemma_card_le_reflexive(make(ranks.last(), suit));
        }
        assert forall|i: int, j: int|
            0 <= i < before.len() && 0 <= j < last.len() implies (#[trigger] last[j]).le(
            #[trigger] before[i],
        ) by {
            let b = choose|b: int|
                0 <= b < fewer.len() && before[i] == make(#[trigger] fewer[b], suit);
            assert(fewer[b] == ranks[b]);
            assert(ranks[b].weight > ranks[ranks.len() - 1].weight);
        }
        lemma_descending_concat(before, last);
        if copies == 1 {
            assert forall|i: int, j: int|
                0 <= i < before.len() && 0 <= j < last.len() implies (#[trigger] last[j]).value < (
            #[trigger] before[i]).value by {
                let b = choose|b: int|
                    0 <= b < fewer.len() && before[i] == make(#[trigger] fewer[b], suit);
                assert(fewer[b] == ranks[b]);
                assert(ranks[b].weight > ranks[ranks.len() - 1].weight);
            }
            lemma_values_fall_concat(before, last);
        }
    }
}

/// The cards of every suit with every rank stand from the highest to the
/// lowest where the values of the suits fall, the weights of the ranks fall
/// and the multiplier is above every weight: the suit then counts before the
/// rank. With one card of each rank their values fall.
pub proof fn lemma_cross_descends(
    multiplier: int,
    suits: Seq<SuitView>,
    ranks: Seq<RankView>,
    copies: nat,
)
    requires
        suit_values_fall(suits),
        weights_fall_below(ranks, multiplier),
    ensures
        is_descending(cross(valued(multiplier), suits, ranks, copies)),
        copies == 1 ==> values_fall(cross(valued(multiplier), suits, ranks, copies)),
    decreases suits.len(),
{
    if suits.len() > 0 {
        let make = valued(multiplier);
        let fewer = suits.drop_last();
        let before = cross(make, fewer, ranks, copies);
        let last = suit_cards(make, suits.last(), ranks, copies);
        assert(suit_values_fall(fewer)) by {
            assert forall|i: int, j: int| 0 <= i < j < fewer.len() implies (
            #[trigger] fewer[i]).value > (#[trigger] fewer[j]).value by {
                assert(suits[i].value > suits[j].value);
            }
        }
        lemma_cross_descends(multiplier, fewer, ranks, copies);
        lemma_suit_cards_descend(multiplier, suits.last(), ranks, copies);
        lemma_cross_made_of(make, fewer, ranks, copies);
        lemma_suit_cards_made_of(make, suits.last(), ranks, copies);
        assert forall|i: int, j: int|
            0 <= i < before.len() && 0 <= j < last.len() implies (#[trigger] last[j]).le(
            #[trigger] before[i],
        ) by {
            let (a, b) = choose|a: int, b: int|
                0 <= a < fewer.len() && 0 <= b < ranks.len() && before[i] == make(
                    #[trigger] ranks[b],
                    #[trigger] fewer[a],
                );
            let c = choose|c: int|
                0 <= c < ranks.len() && last[j] == make(#[trigger] ranks[c], suits.last());
            assert(fewer[a] == suits[a]);
            assert(suits[a].value > suits[suits.len() - 1].value);
            assert(0 <= ranks[b].weight < multiplier);
            assert(0 <= ranks[c].weight < multiplier);
            lemma_value_orders_by_suit_then_rank(multiplier, last[j], before[i]);
        }
        lemma_descending_concat(before, last);
        if copies == 1 {
            assert forall|i: int, j: int|
                0 <= i < before.len() && 0 <= j < last.len() implies (#[trigger] last[j]).value < (
            #[trigger] before[i]).value by {
                assert(last[j].le(before[i]));
                let (a, b) = choose|a: int, b: int|
                    0 <= a < fewer.len() && 0 <= b < ranks.len() && before[i] == make(
                        #[trigger] ranks[b],
                        #[trigger] fewer[a],
                    );
                let c = choose|c: int|
                    0 <= c < ranks.len() && last[j] == make(#[trigger] ranks[c], suits.last());
                assert(fewer[a] == suits[a]);
                assert(suits[a].value > suits[suits.len() - 1].value);
                assert(0 <= ranks[b].weight < multiplier);
                assert(0 <= ranks[c].weight < multiplier);
                lemma_value_orders_by_suit_then_rank(multiplier, last[j], before[i]);
            }
            lemma_values_fall_concat(before, last);
        }
    }
}

/// The cards of one suit hold a card of each of the ranks.
pub proof fn lemma_suit_cards_contain<C>(
    make: spec_fn(RankView, SuitView) -> C,
    suit: SuitView,
    ranks: Seq<RankView>,
    copies: nat,
    b: int,
)
    requires
        copies >= 1,
        0 <= b < ranks.len(),
    ensures
        suit_cards(make, suit, ranks, copies).contains(make(ranks[b], suit)),
    decreases ranks.len(),
{
    let cards = suit_cards(make, suit, ranks, copies);
    let fewer = ranks.drop_last();
    let before = suit_cards(make, suit, fewer, copies);
    if b < ranks.len() - 1 {
        lemma_suit_cards_contain(make, suit, fewer, copies, b);
        let k = choose|k: int| 0 <= k < before.len() && before[k] == make(fewer[b], suit);
        assert(cards[k] == make(ranks[b], suit));
    } else {
        assert(cards[before.len() as int] == make(ranks[b], suit));
    }
}

/// The cards of every suit with every rank hold a card of each suit and rank.
pub proof fn lemma_cross_contains<C>(
    make: spec_fn(RankView, SuitView) -> C,
    suits: Seq<SuitView>,
    ranks: Seq<RankView>,
    copies: nat,
    a: int,
    b: int,
)
    requires
        copies >= 1,
        0 <= a < suits.len(),
        0 <= b < ranks.len(),
    ensures
        cross(make, suits, ranks, copies).contains(make(ranks[b], suits[a])),
    decreases suits.len(),
{
    let cards = cross(make, suits, ranks, copies);
    let fewer = suits.drop_last();
    let before = cross(make, fewer, ranks, copies);
    if a < suits.len() - 1 {
        lemma_cross_contains(make, fewer, ranks, copies, a, b);
        let k = choose|k: int| 0 <= k < before.len() && before[k] == make(ranks[b], fewer[a]);
        assert(cards[k] == make(ranks[b], suits[a]));
    } else {
        let last = suit_cards(make, suits.last(), ranks, copies);
        lemma_suit_cards_contain(make, suits.last(), ranks, copies, b);
        let k = choose|k: int| 0 <= k < last.len() && last[k] == make(ranks[b], suits.last());
        assert(cards[before.len() + k] == make(ranks[b], suits[a]));
    }
}

} // verus!
