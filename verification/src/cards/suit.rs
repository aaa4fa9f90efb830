//! Suits: a name and the value by which suits, and the cards of a deck, are
//! ordered.

use crate::cards::fluent_name::FluentName;
use crate::cards::model::SuitView;
use crate::cards::recipe::suit_values_fall;
use crate::cards::suit_letter::SuitLetter;
use crate::cards::suit_symbol::SuitSymbol;
use crate::fluent::Language;
use crate::fluent::LookupMiss;
use crate::fluent::US_ENGLISH;
use crate::fluent::is_lookup_of;
use crate::text::key_of;
use crate::text::names_equal;
use std::cmp::Ordering;
use vstd::prelude::*;

verus! {

// French suits.
pub const SPADES: &'static str = "spades";

pub const HEARTS: &'static str = "hearts";

pub const DIAMONDS: &'static str = "diamonds";

pub const CLUBS: &'static str = "clubs";

// Tarot suits.
pub const MAJOR_ARCANA: &'static str = "major-arcana";

pub const WANDS: &'static str = "wands";

pub const CUPS: &'static str = "cups";

pub const SWORDS: &'static str = "swords";

pub const PENTACLES: &'static str = "pentacles";

// Skat suits.
pub const EICHEL: &'static str = "eichel";

pub const LAUB: &'static str = "laub";

pub const HERZ: &'static str = "herz";

pub const SCHELLEN: &'static str = "schellen";

/// From which end of a list of names the values are counted.
#[derive(Clone, Copy, Debug, PartialEq, Eq, Structural)]
pub enum Direction {
    /// The first name gets the highest value, the last gets 1.
    TopDown,
    /// The first name gets 1, the last the highest value.
    BottomUp,
}

/// The value that a suit has by its name alone: 4 down to 1 for the French
/// suits from spades to clubs and for the Skat suits from eichel to schellen,
/// 5 down to 1 for the Tarot suits from the major arcana to pentacles, 0 for
/// any other name.
pub open spec fn assigned_value(name: Seq<char>) -> int {
    if name == MAJOR_ARCANA@ {
        5
    } else if name == SPADES@ || name == WANDS@ || name == EICHEL@ {
        4
    } else if name == HEARTS@ || name == CUPS@ || name == LAUB@ {
        3
    } else if name == DIAMONDS@ || name == SWORDS@ || name == HERZ@ {
        2
    } else if name == CLUBS@ || name == PENTACLES@ || name == SCHELLEN@ {
        1
    } else {
        0
    }
}

/// The value of the suit at position `i` of a list of `len` names.
pub open spec fn value_at(direction: Direction, len: int, i: int) -> int {
    match direction {
        Direction::TopDown => len - i,
        Direction::BottomUp => i + 1,
    }
}

/// The suits of a list of names, valued by position.
pub open spec fn suits_by_position(names: Seq<Seq<char>>, direction: Direction) -> Seq<SuitView> {
    Seq::new(
        names.len(),
        |i: int| SuitView { value: value_at(direction, names.len() as int, i), name: names[i] },
    )
}

/// The four French suits, spades first.
pub open spec fn french_suits() -> Seq<SuitView> {
    suits_by_position(seq![SPADES@, HEARTS@, DIAMONDS@, CLUBS@], Direction::TopDown)
}

/// The five Tarot suits, the major arcana first.
pub open spec fn arcana_suits() -> Seq<SuitView> {
    suits_by_position(
        seq![MAJOR_ARCANA@, WANDS@, CUPS@, SWORDS@, PENTACLES@],
        Direction::TopDown,
    )
}

/// The major arcana, as a list of one suit.
pub open spec fn major_arcana_suits() -> Seq<SuitView> {
    suits_by_position(seq![MAJOR_ARCANA@], Direction::TopDown)
}

/// The four suits of the minor arcana, wands first.
pub open spec fn minor_arcana_suits() -> Seq<SuitView> {
    suits_by_position(seq![WANDS@, CUPS@, SWORDS@, PENTACLES@], Direction::TopDown)
}

/// The four Skat suits, eichel first.
pub open spec fn skat_suits() -> Seq<SuitView> {
    suits_by_position(seq![EICHEL@, LAUB@, HERZ@, SCHELLEN@], Direction::TopDown)
}

/// The values of suits that are valued from the top down fall from each suit
/// to the next.
pub proof fn lemma_top_down_values_fall(names: Seq<Seq<char>>)
    ensures
        suit_values_fall(suits_by_position(names, Direction::TopDown)),
{
}

/// A suit of playing cards.
#[derive(Debug, Eq)]
pub struct Suit {
    pub value: isize,
    pub name: FluentName,
}

impl View for Suit {
    type V = SuitView;

    open spec fn view(&self) -> SuitView {
        SuitView { value: self.value as int, name: self.name@ }
    }
}

impl DeepView for Suit {
    type V = SuitView;

    open spec fn deep_view(&self) -> SuitView {
        self@
    }
}

impl Suit {
    /// The suit of the given name, with the value that the name has by itself.
    pub fn new(name: &str) -> (suit: Suit)
        ensures
            suit@ == (SuitView { value: assigned_value(name@), name: name@ }),
    {
        let value: isize = if names_equal(name, MAJOR_ARCANA) {
            5
        } else if names_equal(name, SPADES) || names_equal(name, WANDS) || names_equal(
            name,
            EICHEL,
        ) {
            4
        } else if names_equal(name, HEARTS) || names_equal(name, CUPS) || names_equal(
            name,
            LAUB,
        ) {
            3
        } else if names_equal(name, DIAMONDS) || names_equal(name, SWORDS) || names_equal(
            name,
            HERZ,
        ) {
            2
        } else if names_equal(name, CLUBS) || names_equal(name, PENTACLES) || names_equal(
            name,
            SCHELLEN,
        ) {
            1
        } else {
            0
        };
        Suit::new_with_value(name, value)
    }

    /// The suit of the given name and value.
    pub fn new_with_value(name: &str, value: isize) -> (suit: Suit)
        ensures
            suit@ == (SuitView { value: value as int, name: name@ }),
    {
        Suit { value, name: FluentName::new(name) }
    }

    /// The letter of the suit in the language `lid`.
    pub fn get_short(&self, lid: &Language) -> (result: Result<String, LookupMiss>)
        ensures
            is_lookup_of(result, *lid, key_of(self@.name, "letter"@)),
    {
        self.name.text("letter", lid)
    }

    pub fn get_default_long(&self) -> (result: Result<String, LookupMiss>)
        ensures
            is_lookup_of(result, US_ENGLISH, key_of(self@.name, "long"@)),
    {
        self.get_long(&US_ENGLISH)
    }

    /// The long name of the suit in the language `lid`.
    pub fn get_long(&self, lid: &Language) -> (result: Result<String, LookupMiss>)
        ensures
            is_lookup_of(result, *lid, key_of(self@.name, "long"@)),
    {
        self.name.long(lid)
    }

    /// The symbol of the suit.
    pub fn get_symbol(&self) -> (result: Result<String, LookupMiss>)
        ensures
            is_lookup_of(result, US_ENGLISH, key_of(self@.name, "symbol"@)),
    {
        self.name.text("symbol", &US_ENGLISH)
    }

    /// The symbol of the suit, as the language `lid` has it.
    pub fn to_locale_string(&self, lid: &Language) -> (result: Result<String, LookupMiss>)
        ensures
            is_lookup_of(result, *lid, key_of(self@.name, "symbol"@)),
    {
        self.name.text("symbol", lid)
    }

    /// The suit as it is printed: its symbol.
    pub fn to_string(&self) -> (result: Result<String, LookupMiss>)
        ensures
            is_lookup_of(result, US_ENGLISH, key_of(self@.name, "symbol"@)),
    {
        self.get_symbol()
    }

    /// The name of the suit as the key of its letter.
    pub fn letter(&self) -> (letter: SuitLetter)
        ensures
            letter@ == self@.name,
    {
        SuitLetter::new(self.name.name())
    }

    /// The name of the suit as the key of its symbol.
    pub fn symbol(&self) -> (symbol: SuitSymbol)
        ensures
            symbol@ == self@.name,
    {
        SuitSymbol::new(self.name.name())
    }

    pub fn revise_value(&mut self, new_value: isize)
        ensures
            final(self)@ == (SuitView { value: new_value as int, name: old(self)@.name }),
    {
        self.value = new_value;
    }

    pub fn get_value(&self) -> (value: isize)
        ensures
            value == self@.value,
    {
        self.value
    }

    /// The value of position `i` among `len` names, counted from the end.
    pub fn top_down_value(len: usize, i: usize) -> (value: isize)
        requires
            i < len <= isize::MAX,
        ensures
            value == value_at(Direction::TopDown, len as int, i as int),
    {
        (len - i) as isize
    }

    /// The value of position `i` among `len` names, counted from the start.
    pub fn bottom_up_value(len: usize, i: usize) -> (value: isize)
        requires
            i < len <= isize::MAX,
        ensures
            value == value_at(Direction::BottomUp, len as int, i as int),
    {
        (i + 1) as isize
    }

    /// The suits of the names `s`, valued by position in the given direction.
    pub fn from_array_gen(s: &[&str], direction: Direction) -> (suits: Vec<Suit>)
        requires
            s@.len() <= isize::MAX,
        ensures
            suits.deep_view() == suits_by_position(s.deep_view(), direction),
    {
        let mut v: Vec<Suit> = Vec::new();
        let len: usize = s.len();
        let mut i: usize = 0;
        while i < len
            invariant
                i <= len,
                len == s@.len(),
                len <= isize::MAX,
                v@.len() == i,
                forall|k: int|
                    0 <= k < i ==> (#[trigger] v@[k])@ == suits_by_position(
                        s.deep_view(),
                        direction,
                    )[k],
            decreases len - i,
        {
            let value: isize = match direction {
                Direction::TopDown => Suit::top_down_value(len, i),
                Direction::BottomUp => Suit::bottom_up_value(len, i),
            };
            v.push(Suit::new_with_value(s[i], value));
            i += 1;
        }
        assert(v.deep_view() =~= suits_by_position(s.deep_view(), direction));
        v
    }

    /// The suits of the names `s`, the first with the highest value.
    pub fn from_array(s: &[&str]) -> (suits: Vec<Suit>)
        requires
            s@.len() <= isize::MAX,
        ensures
            suits.deep_view() == suits_by_position(s.deep_view(), Direction::TopDown),
    {
        Suit::from_array_gen(s, Direction::TopDown)
    }

    /// The suits of the names `s`, the first with the lowest value.
    pub fn from_array_bottom_up(s: &[&str]) -> (suits: Vec<Suit>)
        requires
            s@.len() <= isize::MAX,
        ensures
            suits.deep_view() == suits_by_position(s.deep_view(), Direction::BottomUp),
    {
        Suit::from_array_gen(s, Direction::BottomUp)
    }

    pub fn generate_french_suits() -> (suits: Vec<Suit>)
        ensures
            suits.deep_view() == french_suits(),
    {
        let names = [SPADES, HEARTS, DIAMONDS, CLUBS];
        assert(names.deep_view() =~= seq![SPADES@, HEARTS@, DIAMONDS@, CLUBS@]);
        Suit::from_array(&names)
    }

    pub fn generate_arcana_suits() -> (suits: Vec<Suit>)
        ensures
            suits.deep_view() == arcana_suits(),
    {
        let names = [MAJOR_ARCANA, WANDS, CUPS, SWORDS, PENTACLES];
        assert(names.deep_view() =~= seq![MAJOR_ARCANA@, WANDS@, CUPS@, SWORDS@, PENTACLES@]);
        Suit::from_array(&names)
    }

    pub fn generate_major_arcana_suits() -> (suits: Vec<Suit>)
        ensures
            suits.deep_view() == major_arcana_suits(),
    {
        let names = [MAJOR_ARCANA];
        assert(names.deep_view() =~= seq![MAJOR_ARCANA@]);
        Suit::from_array(&names)
    }

    pub fn generate_minor_arcana_suits() -> (suits: Vec<Suit>)
        ensures
            suits.deep_view() == minor_arcana_suits(),
    {
        let names = [WANDS, CUPS, SWORDS, PENTACLES];
        assert(names.deep_view() =~= seq![WANDS@, CUPS@, SWORDS@, PENTACLES@]);
        Suit::from_array(&names)
    }

    pub fn generate_skat_suits() -> (suits: Vec<Suit>)
        ensures
            suits.deep_view() == skat_suits(),
    {
        let names = [EICHEL, LAUB, HERZ, SCHELLEN];
        assert(names.deep_view() =~= seq![EICHEL@, LAUB@, HERZ@, SCHELLEN@]);
        Suit::from_array(&names)
    }
}

impl Clone for Suit {
    fn clone(&self) -> (copy: Self)
        ensures
            copy == *self,
    {
        Suit { value: self.value, name: self.name.clone() }
    }
}

impl Default for Suit {
    fn default() -> (suit: Self)
        ensures
            suit@ == (SuitView { value: 0, name: Seq::<char>::empty() }),
    {
        Suit { value: 0, name: FluentName::default() }
    }
}

impl PartialEq for Suit {
    fn eq(&self, other: &Self) -> (same: bool) {
        self.value == other.value && self.name == other.name
    }
}

impl vstd::std_specs::cmp::PartialEqSpecImpl for Suit {
    open spec fn obeys_eq_spec() -> bool {
        true
    }

    open spec fn eq_spec(&self, other: &Self) -> bool {
        self@ == other@
    }
}

impl PartialOrd for Suit {
    fn partial_cmp(&self, other: &Self) -> (order: Option<Ordering>) {
        if self.value < other.value {
            Some(Ordering::Less)
        } else if self.value > other.value {
            Some(Ordering::Greater)
        } else {
            self.name.partial_cmp(&other.name)
        }
    }
}

impl vstd::std_specs::cmp::PartialOrdSpecImpl for Suit {
    open spec fn obeys_partial_cmp_spec() -> bool {
        true
    }

    open spec fn partial_cmp_spec(&self, other: &Self) -> Option<Ordering> {
        if self@ == other@ {
            Some(Ordering::Equal)
        } else if self@.le(other@) {
            Some(Ordering::Less)
        } else {
            Some(Ordering::Greater)
        }
    }
}

} // verus!
