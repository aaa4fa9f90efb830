//! Cards in a row: when they stand from the highest to the lowest, why there
//! is one such row only for given cards, and what sorting does to a shuffled
//! deck.

use crate::cards::model::CardView;
use crate::cards::model::lemma_card_le_antisymmetric;
use crate::cards::model::lemma_card_le_reflexive;
use crate::cards::model::lemma_card_le_total;
use crate::cards::model::lemma_card_le_transitive;
use vstd::prelude::*;
use vstd::relations::antisymmetric;
use vstd::relations::reflexive;
use vstd::relations::sorted_by;
use vstd::relations::strongly_connected;
use vstd::relations::transitive;
use vstd::seq_lib::lemma_sorted_unique;

verus! {

/// Whether the cards stand from the highest to the lowest: each card is at most
/// every card before it.
pub open spec fn is_descending(cards: Seq<CardView>) -> bool {
    forall|i: int, j: int| 0 <= i < j < cards.len() ==> (#[trigger] cards[j]).le(#[trigger] cards[i])
}

/// Whether two sequences hold the same cards, each as often as the other,
/// in whatever order.
pub open spec fn same_cards(a: Seq<CardView>, b: Seq<CardView>) -> bool {
    a.to_multiset() == b.to_multiset()
}

/// There is one way only to put given cards from the highest to the lowest.
pub proof fn lemma_descending_unique(a: Seq<CardView>, b: Seq<CardView>)
    requires
        is_descending(a),
        is_descending(b),
        same_cards(a, b),
    ensures
        a == b,
{
    let at_least = |x: CardView, y: CardView| y.le(x);
    assert(reflexive(at_least)) by {
        assert forall|x: CardView| #[trigger] at_least(x, x) by {
            lemma_card_le_reflexive(x);
        }
    }
    assert(antisymmetric(at_least)) by {
        assert forall|x: CardView, y: CardView| #[trigger]
            at_least(x, y) && #[trigger] at_least(y, x) implies x == y by {
            lemma_card_le_antisymmetric(x, y);
        }
    }
    assert(transitive(at_least)) by {
        assert forall|x: CardView, y: CardView, z: CardView| #[trigger]
            at_least(x, y) && #[trigger] at_least(y, z) implies at_least(x, z) by {
            lemma_card_le_transitive(z, y, x);
        }
    }
    assert(strongly_connected(at_least)) by {
        assert forall|x: CardView, y: CardView| #[trigger]
            at_least(x, y) || #[trigger] at_least(y, x) by {
            lemma_card_le_total(x, y);
        }
    }
    assert(sorted_by(a, at_least));
    assert(sorted_by(b, at_least));
    lemma_sorted_unique(a, b, at_least);
}

/// Whether each card has a higher value than every card after it.
pub open spec fn values_fall(cards: Seq<CardView>) -> bool {
    forall|i: int, j: int|
        0 <= i < j < cards.len() ==> (#[trigger] cards[i]).value > (#[trigger] cards[j]).value
}

/// Shuffling and then sorting gives back a deck that stood from the highest
/// card to the lowest: whatever order `shuffled` has the cards of `deck` in,
/// the one order `sorted` that puts them from the highest to the lowest is
/// that of `deck`.
pub proof fn law_sort_undoes_shuffle(
    deck: Seq<CardView>,
    shuffled: Seq<CardView>,
    sorted: Seq<CardView>,
)
    requires
        is_descending(deck),
        same_cards(shuffled, deck),
        same_cards(sorted, shuffled),
        is_descending(sorted),
    ensures
        sorted == deck,
{
    lemma_descending_unique(sorted, deck);
}

/// Cards that stand from the highest to the lowest, followed by cards that do
/// so too and are each at most every card of the first, stand from the highest
/// to the lowest.
pub proof fn lemma_descending_concat(first: Seq<CardView>, second: Seq<CardView>)
    requires
        is_descending(first),
        is_descending(second),
        forall|i: int, j: int|
            0 <= i < first.len() && 0 <= j < second.len() ==> (#[trigger] second[j]).le(
                #[trigger] first[i],
            ),
    ensures
        is_descending(first + second),
{
    let all = first + second;
    assert forall|i: int, j: int| 0 <= i < j < all.len() implies (#[trigger] all[j]).le(
        #[trigger] all[i],
    ) by {
        if j < first.len() {
            assert(first[j].le(first[i]));
        } else if i < first.len() {
            assert(second[j - first.len()].le(first[i]));
        } else {
            assert(second[j - first.len()].le(second[i - first.len()]));
        }
    }
}

/// Cards whose values fall, followed by cards whose values fall too and are
/// each below every value of the first, are cards whose values fall.
pub proof fn lemma_values_fall_concat(first: Seq<CardView>, second: Seq<CardView>)
    requires
        values_fall(first),
        values_fall(second),
        forall|i: int, j: int|
            0 <= i < first.len() && 0 <= j < second.len() ==> (#[trigger] second[j]).value < (
            #[trigger] first[i]).value,
    ensures
        values_fall(first + second),
{
    let all = first + second;
    assert forall|i: int, j: int| 0 <= i < j < all.len() implies (#[trigger] all[i]).value > (
    #[trigger] all[j]).value by {
        if j < first.len() {
            assert(first[i].value > first[j].value);
        } else if i < first.len() {
            assert(second[j - first.len()].value < first[i].value);
        } else {
            assert(second[i - first.len()].value > second[j - first.len()].value);
        }
    }
}

/// Taking a card out of cards whose values fall: the card is gone, every other
/// card stays, and the values still fall.
pub proof fn lemma_remove_from_falling(cards: Seq<CardView>, card: CardView)
    requires
        values_fall(cards),
        cards.contains(card),
    ensures
        cards.remove_value(card).len() == cards.len() - 1,
        !cards.remove_value(card).contains(card),
        forall|other: CardView|
            other != card && cards.contains(other) ==> #[trigger] cards.remove_value(
                card,
            ).contains(other),
        forall|other: CardView| #[trigger]
            cards.remove_value(card).contains(other) ==> cards.contains(other),
        values_fall(cards.remove_value(card)),
{
    cards.index_of_first_ensures(card);
    let at = cards.index_of_first(card).unwrap();
    let rest = cards.remove_value(card);
    assert(rest == cards.remove(at));
    assert forall|k: int| 0 <= k < rest.len() implies rest[k] != card by {
        if k < at {
            assert(rest[k] == cards[k]);
            assert(cards[k].value > cards[at].value);
        } else {
            assert(rest[k] == cards[k + 1]);
            assert(cards[at].value > cards[k + 1].value);
        }
    }
    assert forall|other: CardView| other != card && cards.contains(other) implies #[trigger]
        rest.contains(other) by {
        let k = choose|k: int| 0 <= k < cards.len() && cards[k] == other;
        if k < at {
            assert(rest[k] == other);
        } else {
            assert(rest[k - 1] == other);
        }
    }
    assert forall|other: CardView| #[trigger] rest.contains(other) implies cards.contains(
        other,
    ) by {
        let k = choose|k: int| 0 <= k < rest.len() && rest[k] == other;
        if k < at {
            assert(cards[k] == other);
        } else {
            assert(cards[k + 1] == other);
        }
    }
    assert forall|i: int, j: int| 0 <= i < j < rest.len() implies (#[trigger] rest[i]).value > (
    #[trigger] rest[j]).value by {
        let from_i = if i < at {
            i
        } else {
            i + 1
        };
        let from_j = if j < at {
            j
        } else {
            j + 1
        };
        assert(rest[i] == cards[from_i]);
        assert(rest[j] == cards[from_j]);
        assert(cards[from_i].value > cards[from_j].value);
    }
}

} // verus!
