use cardpack::SuitLetter;
use cardpack::GERMAN;

#[test]
fn suit_letter_display() {
    assert_eq!(
        "AnzugBuchstabe: H",
        format!(
            "AnzugBuchstabe: {}",
            SuitLetter::new("hearts").to_string().unwrap()
        )
    );
}

#[test]
fn suit_letter_as_str() {
    assert_eq!(SuitLetter::new("bar").as_str(), "bar");
}

#[test]
fn suit_letter_to_string() {
    assert_eq!(
        SuitLetter::new("diamonds").to_string().unwrap(),
        "D".to_string()
    );
}

#[test]
fn suit_letter_new() {
    let from_string = "from".to_string();

    assert_eq!(
        SuitLetter("from".to_string()),
        SuitLetter::new(from_string.as_str())
    );
    assert_eq!(SuitLetter("from".to_string()), SuitLetter::new("from"));
}

#[test]
fn suit_letter_to_string_by_locale() {
    let clubs = SuitLetter::new("clubs");

    assert_eq!(clubs.to_locale_string(&GERMAN).unwrap(), "K".to_string());
}

#[test]
fn suit_letter_key_and_name() {
    let clubs = SuitLetter::new("clubs");

    assert_eq!("clubs-letter", clubs.get_fluent_key());
    assert_eq!("clubs", clubs.get_raw_name());
    assert_eq!(clubs, clubs.clone());
    assert_eq!("", SuitLetter::default().as_str());
    assert_ne!(SuitLetter::new("clubs"), SuitLetter::new("club"));
}
