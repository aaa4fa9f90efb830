//! A place for one card, from which the card can be dealt once.

use crate::cards::model::CardView;
use crate::pack::card::Card;
use vstd::prelude::*;

verus! {

/// A slot that holds a card until the card is dealt.
#[derive(Debug)]
pub struct CardCell {
    card: Option<Card>,
}

impl View for CardCell {
    type V = Option<CardView>;

    closed spec fn view(&self) -> Option<CardView> {
        match self.card {
            Some(card) => Some(card@),
            None => None,
        }
    }
}

impl CardCell {
    /// A cell that holds `card`.
    pub fn new(card: Card) -> (cell: CardCell)
        ensures
            cell@ == Some(card@),
    {
        CardCell { card: Some(card) }
    }

    /// Takes the card out of the cell, where it is still there.
    pub fn deal(&mut self) -> (dealt: Option<Card>)
        ensures
            final(self)@ is None,
            match old(self)@ {
                Some(card) => dealt is Some && dealt.unwrap()@ == card,
                None => dealt is None,
            },
    {
        self.card.take()
    }

    /// Whether the card is still in the cell.
    pub fn is_there(&self) -> (there: bool)
        ensures
            there == self@.is_some(),
    {
        self.card.is_some()
    }
}

} // verus!
