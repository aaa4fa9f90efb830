use cardpack::SuitSymbol;
use cardpack::GERMAN;

#[test]
fn suit_symbol_display() {
    assert_eq!(
        "AnzugSymbol: ♥",
        format!(
            "AnzugSymbol: {}",
            SuitSymbol::new("hearts").to_string().unwrap()
        )
    );
}

#[test]
fn suit_symbol_as_str() {
    assert_eq!(
        SuitSymbol::new("diamonds").to_string().unwrap().as_str(),
        "♦"
    );
    assert_eq!(SuitSymbol::new("spades").to_string().unwrap().as_str(), "♠");
}

#[test]
fn suit_symbol_to_string() {
    assert_eq!(
        SuitSymbol::new("clubs").to_string().unwrap(),
        "♣".to_string()
    );
}

#[test]
fn suit_symbol_new() {
    let from_string = "from".to_string();

    assert_eq!(
        SuitSymbol("from".to_string()),
        SuitSymbol::new(from_string.as_str())
    );
    assert_eq!(SuitSymbol("from".to_string()), SuitSymbol::new("from"));
}

#[test]
fn suit_symbol_to_string_by_locale() {
    let clubs = SuitSymbol::new("clubs");

    assert_eq!(clubs.to_locale_string(&GERMAN).unwrap(), "♣".to_string());
}

#[test]
fn suit_symbol_key_and_name() {
    let clubs = SuitSymbol::new("clubs");

    assert_eq!("clubs-symbol", clubs.get_fluent_key());
    assert_eq!("clubs", clubs.get_raw_name());
    assert_eq!(clubs, clubs.clone());
}
