use cardpack::Anzug;
use cardpack::Karte;
use cardpack::Kartendeck;
use cardpack::Rang;
use cardpack::GERMAN;

#[test]
fn karte_new() {
    let expected = Karte {
        rang: Rang::new("ace"),
        anzug: Anzug::new("spades"),
    };

    assert_eq!(expected, Karte::new("ace", "spades"));
}

#[test]
fn karte_new_from_structs() {
    let expected = Karte {
        rang: Rang::new("ace"),
        anzug: Anzug::new("spades"),
    };

    assert_eq!(
        expected,
        Karte::new_from_structs(Rang::new("ace"), Anzug::new("spades"))
    );
}

#[test]
fn karte_to_string_by_locale() {
    let karte = Karte::new("queen", "clubs");

    assert_eq!(karte.to_locale_string(&GERMAN).unwrap(), "D♣".to_string());
}

#[test]
fn karte_to_txt_string() {
    let karte = Karte::new("queen", "clubs");

    assert_eq!(karte.to_txt_string(&GERMAN).unwrap(), "DK".to_string());
}

#[test]
fn karte_as_it_is_printed() {
    assert_eq!("Q♣", Karte::new("queen", "clubs").to_string().unwrap());
    assert_eq!(
        "nobody-index",
        Karte::new("nobody", "clubs").to_string().unwrap_err().key
    );
    assert_eq!(
        "nowhere-symbol",
        Karte::new("queen", "nowhere").to_string().unwrap_err().key
    );
}

#[test]
fn kartendeck_french() {
    let deck = Kartendeck::french_deck();

    assert_eq!(52, deck.karten.len());
    assert_eq!(Anzug::generate_french_suits(), deck.anzugrang);
    assert_eq!(Rang::generate_french_ranks(), deck.rangfolge);
    assert_eq!(Karte::new("ace", "spades"), deck.karten[0]);
    assert_eq!(Karte::new("king", "spades"), deck.karten[1]);
    assert_eq!(Karte::new("ace", "hearts"), deck.karten[13]);
    assert_eq!(Karte::new("two", "clubs"), deck.karten[51]);
}

#[test]
fn kartendeck_pinochle() {
    let deck = Kartendeck::pinochle_deck();

    assert_eq!(48, deck.karten.len());
    assert_eq!(deck.karten[0], deck.karten[1]);
    assert_eq!("ace", deck.karten[0].rang.name());
    assert_eq!(7, deck.karten[0].rang.weight);
    assert_eq!("ten", deck.karten[2].rang.name());
    assert_eq!("nine", deck.karten[47].rang.name());
    assert_eq!("clubs", deck.karten[47].anzug.name.name());
    assert_eq!(Rang::generate_pinochle_ranks(), deck.rangfolge);
}

#[test]
fn kartendeck_tarot() {
    let deck = Kartendeck::tarot_deck();

    assert_eq!(78, deck.karten.len());
    assert_eq!(5, deck.anzugrang.len());
    assert_eq!(36, deck.rangfolge.len());
    assert_eq!("fool", deck.karten[0].rang.name());
    assert_eq!("major-arcana", deck.karten[0].anzug.name.name());
    assert_eq!("world", deck.karten[21].rang.name());
    assert_eq!("king", deck.karten[22].rang.name());
    assert_eq!("wands", deck.karten[22].anzug.name.name());
    assert_eq!("ace", deck.karten[77].rang.name());
    assert_eq!("pentacles", deck.karten[77].anzug.name.name());
}

#[test]
fn kartendeck_shuffle_keeps_the_cards() {
    let deck = Kartendeck::new(
        vec![
            Karte::new("ace", "spades"),
            Karte::new("king", "spades"),
            Karte::new("king", "spades"),
        ],
        Anzug::generate_french_suits(),
        Rang::generate_french_ranks(),
    );

    let shuffled = deck.shuffle();

    assert_eq!(3, shuffled.len());
    assert_eq!(3, deck.karten.len());
    let aces = shuffled
        .iter()
        .filter(|k| **k == Karte::new("ace", "spades"))
        .count();
    let kings = shuffled
        .iter()
        .filter(|k| **k == Karte::new("king", "spades"))
        .count();
    assert_eq!(1, aces);
    assert_eq!(2, kings);
    assert_eq!(deck.clone().karten, deck.karten);
}
