use cardpack::cards::suit::CLUBS;
use cardpack::cards::suit::SPADES;
use cardpack::Direction;
use cardpack::FluentName;
use cardpack::Suit;
use cardpack::GERMAN;
use cardpack::US_ENGLISH;

#[test]
fn suit_display() {
    assert_eq!(
        "Suit: ♥",
        format!("Suit: {}", Suit::new("hearts").to_string().unwrap())
    );
}

#[test]
fn suit_new() {
    let expected = Suit {
        value: 4,
        name: FluentName::new("spades"),
    };

    assert_eq!(expected, Suit::new("spades"));
}

#[test]
fn new_with_value() {
    let expected = Suit {
        value: 4,
        name: FluentName::new("spades"),
    };

    assert_eq!(expected, Suit::new_with_value("spades", 4));
}

#[test]
fn suit_partial_eq() {
    assert_ne!(
        Suit::new_with_value("spades", 3),
        Suit::new_with_value("spades", 4)
    );
    assert_ne!(
        Suit::new_with_value("hearts", 4),
        Suit::new_with_value("spades", 4)
    );
}

#[test]
fn get_short() {
    let clubs = Suit::new("clubs");

    assert_eq!("C".to_string(), clubs.get_short(&US_ENGLISH).unwrap());
    assert_eq!("K".to_string(), clubs.get_short(&GERMAN).unwrap());
}

#[test]
fn get_symbol() {
    let clubs = Suit::new("clubs");

    assert_eq!("♣".to_string(), clubs.get_symbol().unwrap());
}

#[test]
fn suit_get_long() {
    let clubs = Suit::new("clubs");

    assert_eq!("Clubs".to_string(), clubs.get_long(&US_ENGLISH).unwrap());
    assert_eq!("Klee".to_string(), clubs.get_long(&GERMAN).unwrap());
}

#[test]
fn suit_to_string() {
    assert_eq!(Suit::new("clubs").to_string().unwrap(), "♣".to_string());
}

#[test]
fn suit_to_string_by_locale() {
    let clubs = Suit::new("clubs");

    assert_eq!(clubs.get_short(&GERMAN).unwrap(), "K".to_string());
}

#[test]
fn suit_to_vec() {
    let mut expected: Vec<Suit> = Vec::new();
    expected.push(Suit::new_with_value("clubs", 2));
    expected.push(Suit::new_with_value("spades", 1));

    assert_eq!(expected, Suit::from_array(&["clubs", "spades"]));
}

#[test]
fn to_vec_bottom_up() {
    let mut expected: Vec<Suit> = Vec::new();
    expected.push(Suit::new_with_value("clubs", 1));
    expected.push(Suit::new_with_value("spades", 2));

    assert_eq!(expected, Suit::from_array_bottom_up(&["clubs", "spades"]));
}

#[test]
fn generate_french_suits() {
    let mut expected: Vec<Suit> = Vec::new();
    expected.push(Suit::new_with_value("spades", 4));
    expected.push(Suit::new_with_value("hearts", 3));
    expected.push(Suit::new_with_value("diamonds", 2));
    expected.push(Suit::new_with_value("clubs", 1));

    assert_eq!(expected, Suit::generate_french_suits());
}

#[test]
fn generate_arcana_suits() {
    let mut expected: Vec<Suit> = Vec::new();
    expected.push(Suit::new_with_value("major-arcana", 5));
    expected.push(Suit::new_with_value("wands", 4));
    expected.push(Suit::new_with_value("cups", 3));
    expected.push(Suit::new_with_value("swords", 2));
    expected.push(Suit::new_with_value("pentacles", 1));

    assert_eq!(expected, Suit::generate_arcana_suits());
}

#[test]
fn suit_revise_value() {
    let mut wands = Suit::new("wands");
    assert_eq!(4, wands.get_value());

    wands.revise_value(3);

    assert_eq!(3, wands.get_value());
}

#[test]
fn suit_values_by_name() {
    assert_eq!(4, Suit::new(SPADES).value);
    assert_eq!(3, Suit::new("hearts").value);
    assert_eq!(2, Suit::new("diamonds").value);
    assert_eq!(1, Suit::new(CLUBS).value);
    assert_eq!(5, Suit::new("major-arcana").value);
    assert_eq!(3, Suit::new("cups").value);
    assert_eq!(2, Suit::new("swords").value);
    assert_eq!(1, Suit::new("pentacles").value);
    assert_eq!(4, Suit::new("eichel").value);
    assert_eq!(3, Suit::new("laub").value);
    assert_eq!(2, Suit::new("herz").value);
    assert_eq!(1, Suit::new("schellen").value);
    assert_eq!(0, Suit::new("stars").value);
    assert_eq!(0, Suit::new("").value);
}

#[test]
fn suit_values_by_position() {
    assert_eq!(3, Suit::top_down_value(3, 0));
    assert_eq!(1, Suit::top_down_value(3, 2));
    assert_eq!(1, Suit::bottom_up_value(3, 0));
    assert_eq!(3, Suit::bottom_up_value(3, 2));
    let down = Suit::from_array_gen(&["a", "b", "c"], Direction::TopDown);
    assert_eq!(vec![3, 2, 1], vec![down[0].value, down[1].value, down[2].value]);
    let up = Suit::from_array_gen(&["a", "b", "c"], Direction::BottomUp);
    assert_eq!(vec![1, 2, 3], vec![up[0].value, up[1].value, up[2].value]);
    assert!(Suit::from_array(&[]).is_empty());
}

#[test]
fn suit_families() {
    let skat = Suit::generate_skat_suits();
    assert_eq!(4, skat.len());
    assert_eq!(Suit::new_with_value("eichel", 4), skat[0]);
    assert_eq!(Suit::new_with_value("schellen", 1), skat[3]);
    assert_eq!(
        vec![Suit::new_with_value("major-arcana", 1)],
        Suit::generate_major_arcana_suits()
    );
    let minor = Suit::generate_minor_arcana_suits();
    assert_eq!(4, minor.len());
    assert_eq!(Suit::new_with_value("wands", 4), minor[0]);
    assert_eq!(Suit::new_with_value("pentacles", 1), minor[3]);
}

#[test]
fn suit_order_is_by_value_then_name() {
    assert!(Suit::new_with_value("spades", 1) < Suit::new_with_value("clubs", 2));
    assert!(Suit::new_with_value("clubs", 2) < Suit::new_with_value("spades", 2));
    assert!(Suit::new_with_value("spades", 2) >= Suit::new_with_value("spades", 2));
    assert!(Suit::new(SPADES) > Suit::new(CLUBS));
}

#[test]
fn suit_texts() {
    let hearts = Suit::new("hearts");
    assert_eq!("Hearts", hearts.get_default_long().unwrap());
    assert_eq!("♥", hearts.to_locale_string(&GERMAN).unwrap());
    assert_eq!("hearts", hearts.letter().as_str());
    assert_eq!("H", hearts.letter().to_locale_string(&GERMAN).unwrap());
    assert_eq!("♥", hearts.symbol().to_string().unwrap());
    assert_eq!("Herzen", hearts.get_long(&GERMAN).unwrap());
    let blank = Suit::default();
    assert_eq!(0, blank.value);
    assert_eq!("", blank.name.name());
    assert_eq!(hearts, hearts.clone());
}

#[test]
fn suit_without_templates_misses() {
    let stars = Suit::new("stars");
    let miss = stars.get_long(&GERMAN).unwrap_err();
    assert_eq!("stars-long", miss.key);
    assert_eq!(GERMAN, miss.language);
    assert!(stars.get_symbol().is_err());
    assert!(stars.get_short(&US_ENGLISH).is_err());
}
