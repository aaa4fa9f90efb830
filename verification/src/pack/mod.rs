pub mod card;
