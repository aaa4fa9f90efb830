pub mod anzug_buchstabe;
pub mod karte;
pub mod kartendeck;
