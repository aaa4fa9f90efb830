pub mod card_cell;
pub mod fluent_name;
pub mod model;
pub mod order;
pub mod rank;
pub mod recipe;
pub mod suit;
pub mod suit_letter;
pub mod suit_symbol;
