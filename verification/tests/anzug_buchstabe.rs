use cardpack::AnzugBuchstabe;
use cardpack::GERMAN;

#[test]
fn anzug_buchstabe_display() {
    assert_eq!(
        "AnzugBuchstabe: H",
        format!(
            "AnzugBuchstabe: {}",
            AnzugBuchstabe::new("hearts").to_string().unwrap()
        )
    );
}

#[test]
fn anzug_buchstabe_as_str() {
    assert_eq!(AnzugBuchstabe::new("bar").as_str(), "bar");
}

#[test]
fn anzug_buchstabe_to_string() {
    assert_eq!(
        AnzugBuchstabe::new("diamonds").to_string().unwrap(),
        "D".to_string()
    );
}

#[test]
fn anzug_buchstabe_new() {
    let from_string = "from".to_string();

    assert_eq!(
        AnzugBuchstabe("from".to_string()),
        AnzugBuchstabe::new(from_string.as_str())
    );
    assert_eq!(
        AnzugBuchstabe("from".to_string()),
        AnzugBuchstabe::new("from")
    );
}

#[test]
fn anzug_buchstabe_to_string_by_locale() {
    let clubs = AnzugBuchstabe::new("clubs");

    assert_eq!(clubs.to_locale_string(&GERMAN).unwrap(), "K".to_string());
}
