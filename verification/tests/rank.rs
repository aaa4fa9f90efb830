use cardpack::cards::rank::ACE;
use cardpack::cards::rank::EIGHT;
use cardpack::cards::rank::FIVE;
use cardpack::cards::rank::FOUR;
use cardpack::cards::rank::HERMIT;
use cardpack::cards::rank::JACK;
use cardpack::cards::rank::KING;
use cardpack::cards::rank::KNIGHT;
use cardpack::cards::rank::NINE;
use cardpack::cards::rank::PAGE;
use cardpack::cards::rank::QUEEN;
use cardpack::cards::rank::SEVEN;
use cardpack::cards::rank::SIX;
use cardpack::cards::rank::TEN;
use cardpack::cards::rank::THREE;
use cardpack::cards::rank::TWO;
use cardpack::FluentCard;
use cardpack::FluentName;
use cardpack::Rank;
use cardpack::GERMAN;
use cardpack::US_ENGLISH;

#[test]
fn rank_display() {
    assert_eq!(
        "Rang: A",
        format!("Rang: {}", Rank::new(ACE).to_string().unwrap())
    );
}

#[test]
fn get_index() {
    let queen = Rank::new(QUEEN);

    assert_eq!("Q".to_string(), queen.name.index_default().unwrap());
    assert_eq!("D".to_string(), queen.name.index(&GERMAN).unwrap());
}

#[test]
fn rank_get_long() {
    let ace = Rank::new(ACE);

    assert_eq!("Ace".to_string(), ace.name.long(&US_ENGLISH).unwrap());
    assert_eq!("Ass".to_string(), ace.name.long(&GERMAN).unwrap());
}

#[test]
fn rank_to_string() {
    assert_eq!(Rank::new(KING).to_string().unwrap(), "K".to_string());
}

#[test]
fn rank_new() {
    let expected = Rank {
        weight: 9,
        name: FluentName::new(NINE),
    };

    assert_eq!(expected, Rank::new(NINE));
}

#[test]
#[allow(non_snake_case)]
fn new__tarot() {
    let hermit = Rank::new(HERMIT);

    assert_eq!(Rank::new(HERMIT), hermit)
}

#[test]
fn rank_partial_eq() {
    assert_ne!(
        Rank::new_with_weight(NINE, 3),
        Rank::new_with_weight(NINE, 4)
    );
    assert_ne!(
        Rank::new_with_weight(TEN, 4),
        Rank::new_with_weight(NINE, 4)
    );
}

#[test]
fn rank_to_vec() {
    let mut expected: Vec<Rank> = Vec::new();
    expected.push(Rank::new_with_weight(KING, 3));
    expected.push(Rank::new_with_weight(QUEEN, 2));

    assert_eq!(expected, Rank::from_array(&[KING, QUEEN]));
}

#[test]
fn generate_canasta_ranks() {
    let mut expected: Vec<Rank> = Vec::new();
    expected.push(Rank::new_with_weight(TWO, 14));
    expected.push(Rank::new_with_weight(ACE, 13));
    expected.push(Rank::new_with_weight(KING, 12));
    expected.push(Rank::new_with_weight(QUEEN, 11));
    expected.push(Rank::new_with_weight(JACK, 10));
    expected.push(Rank::new_with_weight(TEN, 9));
    expected.push(Rank::new_with_weight(NINE, 8));
    expected.push(Rank::new_with_weight(EIGHT, 7));
    expected.push(Rank::new_with_weight(SEVEN, 6));
    expected.push(Rank::new_with_weight(SIX, 5));
    expected.push(Rank::new_with_weight(FIVE, 4));
    expected.push(Rank::new_with_weight(FOUR, 3));
    expected.push(Rank::new_with_weight(THREE, 2));

    assert_eq!(expected, Rank::generate_canasta_ranks());
}

#[test]
fn generate_euchre_ranks() {
    let mut expected: Vec<Rank> = Vec::new();
    expected.push(Rank::new_with_weight(ACE, 7));
    expected.push(Rank::new_with_weight(KING, 6));
    expected.push(Rank::new_with_weight(QUEEN, 5));
    expected.push(Rank::new_with_weight(JACK, 4));
    expected.push(Rank::new_with_weight(TEN, 3));
    expected.push(Rank::new_with_weight(NINE, 2));

    assert_eq!(expected, Rank::generate_euchre_ranks());
}

#[test]
fn generate_french_ranks() {
    let mut expected: Vec<Rank> = Vec::new();
    expected.push(Rank::new(ACE));
    expected.push(Rank::new(KING));
    expected.push(Rank::new(QUEEN));
    expected.push(Rank::new(JACK));
    expected.push(Rank::new(TEN));
    expected.push(Rank::new(NINE));
    expected.push(Rank::new(EIGHT));
    expected.push(Rank::new(SEVEN));
    expected.push(Rank::new(SIX));
    expected.push(Rank::new(FIVE));
    expected.push(Rank::new(FOUR));
    expected.push(Rank::new(THREE));
    expected.push(Rank::new(TWO));

    assert_eq!(expected, Rank::generate_french_ranks());
}

#[test]
fn generate_pinochle_ranks() {
    let mut expected: Vec<Rank> = Vec::new();
    expected.push(Rank::new_with_weight(ACE, 7));
    expected.push(Rank::new_with_weight(TEN, 6));
    expected.push(Rank::new_with_weight(KING, 5));
    expected.push(Rank::new_with_weight(QUEEN, 4));
    expected.push(Rank::new_with_weight(JACK, 3));
    expected.push(Rank::new_with_weight(NINE, 2));

    assert_eq!(expected, Rank::generate_pinochle_ranks());
}

#[test]
fn generate_major_arcana_ranks() {
    let major = Rank::generate_major_arcana_ranks();

    assert_eq!(22, major.len());
}

#[test]
fn generate_minor_arcana_ranks() {
    let ex: Vec<Rank> = Rank::from_array(&[
        KING, QUEEN, KNIGHT, PAGE, TEN, NINE, EIGHT, SEVEN, SIX, FIVE, FOUR, THREE, TWO, ACE,
    ]);

    assert_eq!(ex, Rank::generate_minor_arcana_ranks());
}

#[test]
fn rank_revise_value() {
    let mut ace = Rank::new(ACE);
    assert_eq!(14, ace.weight);

    ace.weight = 3;

    assert_eq!(3, ace.weight);
}

#[test]
fn rank_from_array_weights_fall_to_two() {
    let ranks = Rank::from_array(&["a", "b", "c"]);

    assert_eq!(4, ranks[0].weight);
    assert_eq!(3, ranks[1].weight);
    assert_eq!(2, ranks[2].weight);
    assert!(ranks[0].weight > ranks[1].weight && ranks[1].weight > ranks[2].weight);
    assert!(Rank::from_array(&[]).is_empty());
}

#[test]
fn rank_skat_family() {
    let ranks = Rank::generate_skat_ranks();

    assert_eq!(8, ranks.len());
    assert_eq!(Rank::new_with_weight("daus", 9), ranks[0]);
    assert_eq!(Rank::new_with_weight(SEVEN, 2), ranks[7]);
}

#[test]
fn rank_without_a_template_weighs_nothing() {
    assert_eq!(0, Rank::new("no-such-rank").weight);
    assert_eq!("no-such-rank", Rank::new("no-such-rank").name());
}

#[test]
fn rank_order_is_by_weight_then_name() {
    assert!(Rank::new_with_weight(KING, 3) < Rank::new_with_weight(ACE, 4));
    assert!(Rank::new_with_weight(ACE, 4) < Rank::new_with_weight(KING, 4));
    assert!(Rank::new_with_weight(KING, 4) > Rank::new_with_weight(ACE, 4));
    assert!(Rank::new_with_weight(ACE, 4) <= Rank::new_with_weight(ACE, 4));
    assert!(FluentName::new("ab") < FluentName::new("abc"));
    assert!(FluentName::new("b") > FluentName::new("abc"));
}

#[test]
fn rank_as_fluent_card() {
    let mut queen = Rank::new(QUEEN);

    assert_eq!("queen", queen.get_name().as_str());
    assert_eq!(12, queen.get_weight());
    assert_eq!("Q", queen.get_default_index().unwrap());
    assert_eq!("D", queen.get_index(&GERMAN).unwrap());
    assert_eq!("Queen", queen.get_default_long().unwrap());
    assert_eq!("Dame", queen.get_long(&GERMAN).unwrap());
    queen.revise_weight(2);
    assert_eq!(2, queen.get_weight());
    assert_eq!("queen", queen.get_name().as_str());
}

#[test]
fn rank_to_locale_string_is_its_index() {
    assert_eq!("B", Rank::new(JACK).to_locale_string(&GERMAN).unwrap());
    assert_eq!("J", Rank::new(JACK).to_locale_string(&US_ENGLISH).unwrap());
}

#[test]
fn rank_default_and_clone() {
    let blank = Rank::default();
    assert_eq!(0, blank.weight);
    assert_eq!("", blank.name());
    let nine = Rank::new(NINE);
    assert_eq!(nine, nine.clone());
    assert_eq!(9, nine.name.default_weight());
}
