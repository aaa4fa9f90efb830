//! Decks of playing cards for several games: suits and ranks with the values
//! that order them, cards, and decks that can be built, drawn from, sorted and
//! shuffled.

pub mod cards;
pub mod deck;
pub mod fluent;
pub mod karten;
pub mod pack;
pub mod text;

pub use crate::cards::card_cell::CardCell;
pub use crate::cards::fluent_name::FluentName;
pub use crate::cards::rank::Rank;
pub use crate::cards::suit::Direction;
pub use crate::cards::suit::Suit;
pub use crate::cards::suit_letter::SuitLetter;
pub use crate::cards::suit_symbol::SuitSymbol;
pub use crate::deck::Deck;
pub use crate::fluent::get_value_by_key;
pub use crate::fluent::get_weight_isize;
pub use crate::fluent::FluentCard;
pub use crate::fluent::Language;
pub use crate::fluent::LookupMiss;
pub use crate::fluent::GERMAN;
pub use crate::fluent::US_ENGLISH;
pub use crate::karten::anzug_buchstabe::AnzugBuchstabe;
pub use crate::karten::karte::Anzug;
pub use crate::karten::karte::Karte;
pub use crate::karten::karte::Rang;
pub use crate::karten::kartendeck::Kartendeck;
