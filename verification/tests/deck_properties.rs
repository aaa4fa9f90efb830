use cardpack::deck::card::Card;
use cardpack::deck::card::MULTIPLIER;
use cardpack::deck::shuffle::check_permutation;
use cardpack::deck::shuffle::positions;
use cardpack::deck::shuffle::random_order;
use cardpack::Deck;
use cardpack::Rank;
use cardpack::Suit;
use cardpack::US_ENGLISH;

fn small_deck() -> Deck {
    Deck::new_from_vector(vec![
        Card::new("queen", "clubs"),
        Card::new("queen", "hearts"),
        Card::new("queen", "spades"),
        Card::new("queen", "hearts"),
    ])
}

#[test]
fn draw_takes_the_first_cards_in_order() {
    for n in 0..=4 {
        let mut deck = small_deck();
        let all = small_deck();

        let drawn = deck.draw(n).unwrap();

        assert_eq!(n, drawn.len());
        assert_eq!(4 - n, deck.len());
        for i in 0..n {
            assert_eq!(all.get(i), drawn.get(i));
        }
        for i in n..4 {
            assert_eq!(all.get(i), deck.get(i - n));
        }
    }
}

#[test]
fn draw_of_too_many_leaves_the_deck() {
    let mut deck = small_deck();

    assert!(deck.draw(5).is_none());
    assert_eq!(small_deck(), deck);
    assert!(deck.draw(usize::MAX).is_none());
    assert_eq!(small_deck(), deck);
    let mut zero = Deck::new();
    assert_eq!(Some(Deck::new()), zero.draw(0));
    assert!(zero.is_empty());
}

#[test]
fn shuffle_then_sort_restores_a_sorted_deck() {
    for deck in [Deck::french_deck(), Deck::tarot_deck(), Deck::pinochle_deck()] {
        let mut shuffled = deck.mischen();
        assert_eq!(deck.len(), shuffled.len());
        shuffled.sort();
        assert_eq!(deck, shuffled);
    }
}

#[test]
fn sort_does_not_restore_an_unsorted_deck() {
    let low_first = Deck::new_from_vector(vec![Card::new("two", "clubs"), Card::new("ace", "spades")]);

    let mut sorted = low_first.mischen();
    sorted.sort();

    assert_ne!(low_first, sorted);
    assert_eq!(
        Deck::new_from_vector(vec![Card::new("ace", "spades"), Card::new("two", "clubs")]),
        sorted
    );
}

#[test]
fn sort_puts_the_highest_card_first() {
    let mut deck = Deck::new_from_vector(vec![
        Card::new("two", "clubs"),
        Card::new("ace", "spades"),
        Card::new("ten", "hearts"),
        Card::new("jack", "hearts"),
        Card::new("ten", "hearts"),
    ]);

    deck.sort();

    let values: Vec<i128> = deck.all().iter().map(|c| c.value).collect();
    assert_eq!(vec![414, 311, 310, 310, 102], values);
    let mut empty = Deck::new();
    empty.sort();
    assert!(empty.is_empty());
}

#[test]
fn sort_breaks_ties_of_value_by_suit_then_rank() {
    let by_suit = Card {
        value: 7,
        suit: Suit::new_with_value("a", 2),
        rank: Rank::new_with_weight("z", 1),
    };
    let by_suit_name = Card {
        value: 7,
        suit: Suit::new_with_value("b", 1),
        rank: Rank::new_with_weight("z", 9),
    };
    let by_rank = Card {
        value: 7,
        suit: Suit::new_with_value("a", 1),
        rank: Rank::new_with_weight("y", 3),
    };
    let by_rank_name = Card {
        value: 7,
        suit: Suit::new_with_value("a", 1),
        rank: Rank::new_with_weight("x", 3),
    };
    let expected = Deck::new_from_vector(vec![
        by_suit.clone(),
        by_suit_name.clone(),
        by_rank.clone(),
        by_rank_name.clone(),
    ]);
    let mut deck = Deck::new_from_vector(vec![by_rank_name, by_suit_name, by_rank, by_suit]);

    deck.sort();

    assert_eq!(expected, deck);
    let mut std_sorted = expected.all().clone();
    std_sorted.sort_by(|a, b| a.partial_cmp(b).unwrap());
    std_sorted.reverse();
    assert_eq!(expected, Deck::new_from_vector(std_sorted));
}

#[test]
fn append_keeps_both_decks_in_order() {
    let a = small_deck();
    let b = Deck::jokers();
    let mut joined = a.clone();

    joined.append(&b);

    assert_eq!(a.len() + b.len(), joined.len());
    for i in 0..a.len() {
        assert_eq!(a.get(i), joined.get(i));
    }
    for i in 0..b.len() {
        assert_eq!(b.get(i), joined.get(a.len() + i));
    }
    assert_eq!(Deck::jokers(), b);
    assert_eq!(small_deck(), a);
    let mut same = small_deck();
    same.append(&Deck::new());
    assert_eq!(small_deck(), same);
}

#[test]
fn french_deck_scenario() {
    let mut deck = Deck::french_deck();

    assert_eq!(52, deck.len());
    assert_eq!(Some(&Card::new("ace", "spades")), deck.first());
    assert_eq!(Some(&Card::new("king", "spades")), deck.get(1));
    assert_eq!(Some(&Card::new("ace", "hearts")), deck.get(13));
    assert_eq!(Some(&Card::new("two", "clubs")), deck.last());
    deck.sort();
    assert_eq!(Some(&Card::new("ace", "spades")), deck.first());
    assert_eq!(Some(&Card::new("two", "clubs")), deck.last());
    assert_eq!(414, deck.first().unwrap().value);
    assert_eq!(102, deck.last().unwrap().value);
    assert_eq!(Deck::french_deck(), deck);
}

#[test]
fn spades_deck_scenario() {
    let deck = Deck::spades_deck();

    assert_eq!(52, deck.len());
    assert!(!deck.contains(&Card::new("two", "clubs")));
    assert!(!deck.contains(&Card::new("two", "diamonds")));
    assert!(deck.contains(&Card::new("two", "spades")));
    assert!(deck.contains(&Card::new("two", "hearts")));
    assert_eq!(Some(&Card::new("big-joker", "spades")), deck.get(0));
    assert_eq!(Some(&Card::new("little-joker", "spades")), deck.get(1));
    assert_eq!(Some(&Card::new("ace", "spades")), deck.get(2));
    assert_eq!(Some(&Card::new("three", "clubs")), deck.last());
    assert_eq!(416, deck.get(0).unwrap().value);
    assert_eq!(415, deck.get(1).unwrap().value);
}

#[test]
fn pinochle_deck_scenario() {
    let mut deck = Deck::pinochle_deck();
    let nine_of_hearts = Card::new_from_structs(Rank::new_with_weight("nine", 2), Suit::new("hearts"));

    assert_eq!(48, deck.len());
    assert_eq!(deck.get(0), deck.get(1));
    assert_eq!(407, deck.get(0).unwrap().value);
    let count = |d: &Deck| d.all().iter().filter(|c| **c == nine_of_hearts).count();
    assert_eq!(2, count(&deck));
    let first = deck.position(&nine_of_hearts).unwrap();
    assert_eq!(22, first);

    let removed = deck.remove_karte(&nine_of_hearts);

    assert_eq!(Some(nine_of_hearts.clone()), removed);
    assert_eq!(47, deck.len());
    assert_eq!(1, count(&deck));
    assert_eq!(Some(22), deck.position(&nine_of_hearts));
    assert!(deck.remove_karte(&nine_of_hearts).is_some());
    assert!(deck.remove_karte(&nine_of_hearts).is_none());
    assert_eq!(46, deck.len());
    assert!(!deck.contains(&nine_of_hearts));
}

#[test]
fn tarot_deck_scenario() {
    let deck = Deck::tarot_deck();

    assert_eq!(78, deck.len());
    assert_eq!(
        Some(&Card::new_from_structs(Rank::new("fool"), Suit::new("major-arcana"))),
        deck.first()
    );
    assert_eq!(523, deck.first().unwrap().value);
    assert_eq!("world", deck.get(21).unwrap().rank.name());
    assert_eq!(502, deck.get(21).unwrap().value);
    assert_eq!("king", deck.get(22).unwrap().rank.name());
    assert_eq!("wands", deck.get(22).unwrap().suit.name.name());
    assert_eq!(415, deck.get(22).unwrap().value);
    assert_eq!("ace", deck.last().unwrap().rank.name());
    assert_eq!(102, deck.last().unwrap().value);
}

#[test]
fn removal_without_a_match_changes_nothing() {
    let mut deck = small_deck();

    assert!(deck.remove_karte(&Card::new("king", "clubs")).is_none());
    assert_eq!(small_deck(), deck);
    assert_eq!(None, deck.position(&Card::new("king", "clubs")));
    assert!(!deck.contains(&Card::new("king", "clubs")));
    assert_eq!(Some(1), deck.position(&Card::new("queen", "hearts")));
    assert!(deck.remove_karte(&Card::new("queen", "hearts")).is_some());
    assert_eq!(
        Deck::new_from_vector(vec![
            Card::new("queen", "clubs"),
            Card::new("queen", "spades"),
            Card::new("queen", "hearts"),
        ]),
        deck
    );
    assert_eq!(None, deck.get(3));
    assert_eq!(None, Deck::new().get_random());
}

#[test]
fn arranged_follows_the_order() {
    let deck = small_deck();

    let arranged = deck.arranged(&vec![3, 0, 2, 1]).unwrap();

    assert_eq!(deck.get(3), arranged.get(0));
    assert_eq!(deck.get(0), arranged.get(1));
    assert_eq!(deck.get(2), arranged.get(2));
    assert_eq!(deck.get(1), arranged.get(3));
    assert_eq!(Some(small_deck()), deck.arranged(&vec![0, 1, 2, 3]));
    assert!(deck.arranged(&vec![0, 1, 2]).is_none());
    assert!(deck.arranged(&vec![0, 1, 2, 2]).is_none());
    assert!(deck.arranged(&vec![0, 1, 2, 4]).is_none());
    assert!(deck.arranged(&vec![0, 1, 2, 3, 3]).is_none());
    assert_eq!(Some(Deck::new()), Deck::new().arranged(&vec![]));
}

#[test]
fn random_orders_are_permutations() {
    assert_eq!(vec![0, 1, 2, 3], positions(4));
    assert!(positions(0).is_empty());
    let mut moved = false;
    for _ in 0..20 {
        let order = random_order(52);
        assert!(check_permutation(&order, 52));
        let mut sorted = order.clone();
        sorted.sort();
        assert_eq!(positions(52), sorted);
        moved = moved || order != positions(52);
    }
    assert!(moved);
    assert!(random_order(0).is_empty());
    assert!(!check_permutation(&vec![1, 1], 2));
    assert!(!check_permutation(&vec![0, 2], 2));
    assert!(!check_permutation(&vec![0], 2));
    assert!(check_permutation(&vec![1, 0], 2));
}

#[test]
fn shuffle_keeps_the_deck_and_its_cards() {
    let deck = Deck::french_deck();
    let mut moved = false;

    for _ in 0..20 {
        let shuffled = deck.mischen();
        assert_eq!(52, shuffled.len());
        for card in deck.all() {
            assert!(shuffled.contains(card));
        }
        moved = moved || shuffled != deck;
    }

    assert!(moved);
    assert_eq!(Deck::french_deck(), deck);
    assert!(deck.contains(deck.get_random().unwrap()));
}

#[test]
fn card_values_and_texts() {
    assert_eq!(100, MULTIPLIER);
    assert_eq!(
        102,
        Card::determine_value(&Suit::new("clubs"), &Rank::new("two"))
    );
    assert_eq!(
        -293,
        Card::new_from_structs(Rank::new_with_weight("x", 7), Suit::new_with_value("y", -3)).value
    );
    let widest = Card::new_from_structs(
        Rank::new_with_weight("x", isize::MAX),
        Suit::new_with_value("y", isize::MAX),
    );
    assert_eq!(101 * (isize::MAX as i128), widest.value);
    assert_eq!("A♠", Card::new("ace", "spades").to_string().unwrap());
    assert_eq!("AS", Card::new("ace", "spades").to_txt_string(&US_ENGLISH).unwrap());
    assert_eq!(
        "nobody-index",
        Card::new("nobody", "spades").to_string().unwrap_err().key
    );
    assert_eq!(
        "nowhere-letter",
        Card::new("ace", "nowhere")
            .to_txt_string(&US_ENGLISH)
            .unwrap_err()
            .key
    );
    assert!(Card::new("two", "spades").at_most(&Card::new("ace", "spades")));
    assert!(!Card::new("two", "spades").at_most(&Card::new("ace", "hearts")));
    assert!(Card::new("two", "spades") > Card::new("ace", "hearts"));
}

#[test]
fn decks_are_walked_in_order() {
    let deck = small_deck();

    let seen: Vec<Card> = deck.values().cloned().collect();
    assert_eq!(deck.all(), &seen);
    let owned: Vec<Card> = deck.clone().into_iter().collect();
    assert_eq!(deck.all(), &owned);
    let mut built = Deck::new();
    built.add_suit(&Suit::new("hearts"), &Rank::from_array(&["a", "b"]), 2);
    let values: Vec<i128> = built.values().map(|c| c.value).collect();
    assert_eq!(vec![303, 303, 302, 302], values);
    built.add_cross(&Suit::from_array(&["s", "t"]), &Rank::from_array(&["a"]), 1);
    let values: Vec<i128> = built.values().map(|c| c.value).collect();
    assert_eq!(vec![303, 303, 302, 302, 202, 102], values);
}
