use cardpack::fluent::display;
use cardpack::fluent::get_weight;
use cardpack::fluent::join_lookups;
use cardpack::get_value_by_key;
use cardpack::get_weight_isize;
use cardpack::text::name_at_most;
use cardpack::text::names_equal;
use cardpack::text::parse_weight;
use cardpack::text::template_key;
use cardpack::Language;
use cardpack::LookupMiss;
use cardpack::GERMAN;
use cardpack::US_ENGLISH;

#[test]
fn doit() {
    let s = get_value_by_key("spades-index", &US_ENGLISH).unwrap();

    assert_eq!("S", s);
}

#[test]
fn it_works() {
    assert_eq!(
        "♠",
        get_value_by_key("spades-symbol", &US_ENGLISH).unwrap()
    );
    assert_eq!(
        "♤",
        get_value_by_key("spades-light-symbol", &US_ENGLISH).unwrap()
    );
}

#[test]
fn lookup_takes_the_language_then_the_shared_texts() {
    assert_eq!("König", get_value_by_key("king-long", &GERMAN).unwrap());
    assert_eq!("King", get_value_by_key("king-long", &US_ENGLISH).unwrap());
    assert_eq!("14", get_value_by_key("ace-weight", &GERMAN).unwrap());
    assert_eq!("♦", get_value_by_key("diamonds-symbol", &GERMAN).unwrap());
    assert_eq!("Z", display("ten", "index", &GERMAN).unwrap());
    assert_eq!("T", display("ten", "index", &US_ENGLISH).unwrap());
}

#[test]
fn lookup_miss_names_key_and_language() {
    let miss = get_value_by_key("no-such-key", &GERMAN).unwrap_err();

    assert_eq!(
        LookupMiss {
            key: "no-such-key".to_string(),
            language: Language::German,
        },
        miss
    );
    assert_eq!(
        "no template for the key no-such-key in the language de",
        miss.describe()
    );
    let miss = display("ace", "colour", &US_ENGLISH).unwrap_err();
    assert_eq!("ace-colour", miss.key);
    assert_eq!(US_ENGLISH, miss.language);
    assert_eq!(
        "no template for the key ace-colour in the language en-US",
        miss.describe()
    );
    assert!(get_value_by_key("", &US_ENGLISH).is_err());
    assert!(get_value_by_key("ace weight", &US_ENGLISH).is_err());
}

#[test]
fn languages_have_tags_and_templates() {
    assert_eq!("en-US", US_ENGLISH.tag());
    assert_eq!("de", GERMAN.tag());
    assert!(US_ENGLISH.templates().contains("queen-long = Queen"));
    assert!(GERMAN.templates().contains("queen-long = Dame"));
}

#[test]
fn default_weights() {
    assert_eq!("14", get_weight("ace").unwrap());
    assert!(get_weight("nobody").is_err());
    assert_eq!(14, get_weight_isize("ace"));
    assert_eq!(13, get_weight_isize("king"));
    assert_eq!(2, get_weight_isize("two"));
    assert_eq!(16, get_weight_isize("big-joker"));
    assert_eq!(15, get_weight_isize("little-joker"));
    assert_eq!(0, get_weight_isize("nobody"));
    assert_eq!(0, get_weight_isize(""));
}

#[test]
fn weights_are_read_as_decimal_numbers() {
    assert_eq!(14, parse_weight("14"));
    assert_eq!(0, parse_weight("0"));
    assert_eq!(7, parse_weight("007"));
    assert_eq!(5, parse_weight("+5"));
    assert_eq!(-5, parse_weight("-5"));
    assert_eq!(0, parse_weight("-0"));
    assert_eq!(0, parse_weight(""));
    assert_eq!(0, parse_weight("-"));
    assert_eq!(0, parse_weight("+"));
    assert_eq!(0, parse_weight("--5"));
    assert_eq!(0, parse_weight("5-"));
    assert_eq!(0, parse_weight(" 5"));
    assert_eq!(0, parse_weight("5 "));
    assert_eq!(0, parse_weight("1.5"));
    assert_eq!(0, parse_weight("twelve"));
    assert_eq!(0, parse_weight("١٢"));
    assert_eq!(isize::MAX, parse_weight(&isize::MAX.to_string()));
    assert_eq!(isize::MIN, parse_weight(&isize::MIN.to_string()));
    assert_eq!(0, parse_weight("170141183460469231731687303715884105727"));
    assert_eq!(0, parse_weight("-170141183460469231731687303715884105729"));
    assert_eq!(0, parse_weight("99999999999999999999999999999999999999999999"));
    assert_eq!(0, parse_weight("9223372036854775808"));
    for text in ["14", "+5", "-5", "", "-", "x", "007", "9223372036854775808"] {
        assert_eq!(text.parse::<isize>().unwrap_or(0), parse_weight(text));
    }
}

#[test]
fn names_are_compared_by_their_bytes() {
    assert!(names_equal("ace", "ace"));
    assert!(!names_equal("ace", "aces"));
    assert!(!names_equal("ace", "acd"));
    assert!(names_equal("", ""));
    assert!(names_equal("König", "König"));
    assert!(name_at_most("ace", "ace"));
    assert!(name_at_most("ace", "aces"));
    assert!(!name_at_most("aces", "ace"));
    assert!(name_at_most("", "a"));
    assert!(name_at_most("ace", "king"));
    assert!(!name_at_most("king", "ace"));
    assert!(name_at_most("z", "é"));
    for (a, b) in [("ace", "king"), ("b", "abc"), ("", ""), ("é", "z"), ("ab", "a")] {
        assert_eq!(a <= b, name_at_most(a, b));
    }
}

#[test]
fn template_keys() {
    assert_eq!("ace-weight", template_key("ace", "weight"));
    assert_eq!("-", template_key("", ""));
    assert_eq!("major-arcana-symbol", template_key("major-arcana", "symbol"));
}

#[test]
fn joined_lookups_keep_the_first_miss() {
    let first = LookupMiss {
        key: "a".to_string(),
        language: GERMAN,
    };
    let second = LookupMiss {
        key: "b".to_string(),
        language: GERMAN,
    };
    assert_eq!(
        Ok("DK".to_string()),
        join_lookups(Ok("D".to_string()), Ok("K".to_string()))
    );
    assert_eq!(
        "b",
        join_lookups(Ok("D".to_string()), Err(second))
            .unwrap_err()
            .key
    );
    let second = LookupMiss {
        key: "b".to_string(),
        language: GERMAN,
    };
    assert_eq!("a", join_lookups(Err(first), Err(second)).unwrap_err().key);
}
