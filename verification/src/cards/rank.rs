//! Ranks: a name and the weight by which ranks, and the cards of a suit, are
//! ordered.

use crate::cards::fluent_name::FluentName;
use crate::cards::model::RankView;
use crate::fluent::FluentCard;
use crate::fluent::Language;
use crate::fluent::LookupMiss;
use crate::fluent::US_ENGLISH;
use crate::fluent::default_weight;
use crate::fluent::is_lookup_of;
use crate::text::key_of;
use std::cmp::Ordering;
use vstd::prelude::*;

verus! {

// French ranks.
pub const ACE: &'static str = "ace";

pub const KING: &'static str = "king";

pub const QUEEN: &'static str = "queen";

pub const JACK: &'static str = "jack";

pub const TEN: &'static str = "ten";

pub const NINE: &'static str = "nine";

pub const EIGHT: &'static str = "eight";

pub const SEVEN: &'static str = "seven";

pub const SIX: &'static str = "six";

pub const FIVE: &'static str = "five";

pub const FOUR: &'static str = "four";

pub const THREE: &'static str = "three";

pub const TWO: &'static str = "two";

// Ranks of the jokers.
pub const BIG_JOKER: &'static str = "big-joker";

pub const LITTLE_JOKER: &'static str = "little-joker";

// Skat ranks.
pub const DAUS: &'static str = "daus";

pub const OBER: &'static str = "ober";

pub const UNTER: &'static str = "unter";

// Tarot ranks.
pub const FOOL: &'static str = "fool";

pub const MAGICIAN: &'static str = "magician";

pub const PRIESTESS: &'static str = "priestess";

pub const EMPRESS: &'static str = "empress";

pub const EMPEROR: &'static str = "emperor";

pub const HIEROPHANT: &'static str = "hierophant";

pub const LOVERS: &'static str = "lovers";

pub const CHARIOT: &'static str = "chariot";

pub const STRENGTH: &'static str = "strength";

pub const HERMIT: &'static str = "hermit";

pub const FORTUNE: &'static str = "fortune";

pub const JUSTICE: &'static str = "justice";

pub const HANGED: &'static str = "hanged";

pub const DEATH: &'static str = "death";

pub const TEMPERANCE: &'static str = "temperance";

pub const DEVIL: &'static str = "devil";

pub const TOWER: &'static str = "tower";

pub const STAR: &'static str = "star";

pub const MOON: &'static str = "moon";

pub const SUN: &'static str = "sun";

pub const JUDGEMENT: &'static str = "judgement";

pub const WORLD: &'static str = "world";

pub const KNIGHT: &'static str = "knight";

pub const PAGE: &'static str = "page";

/// The ranks of a list of names, weighted by position: the first gets the
/// length of the list and one more, each next one less, the last gets 2.
pub open spec fn ranks_by_position(names: Seq<Seq<char>>) -> Seq<RankView> {
    Seq::new(names.len(), |i: int| RankView { weight: names.len() + 1 - i, name: names[i] })
}

/// The thirteen ranks of Canasta, the two first.
pub open spec fn canasta_ranks() -> Seq<RankView> {
    ranks_by_position(
        seq![
            TWO@, ACE@, KING@, QUEEN@, JACK@, TEN@, NINE@, EIGHT@, SEVEN@, SIX@, FIVE@, FOUR@,
            THREE@,
        ],
    )
}

/// The six ranks of Euchre, the ace first.
pub open spec fn euchre_ranks() -> Seq<RankView> {
    ranks_by_position(
        seq![
            ACE@, KING@, QUEEN@, JACK@, TEN@, NINE@,
        ],
    )
}

/// The thirteen French ranks, the ace first.
pub open spec fn french_ranks() -> Seq<RankView> {
    ranks_by_position(
        seq![
            ACE@, KING@, QUEEN@, JACK@, TEN@, NINE@, EIGHT@, SEVEN@, SIX@, FIVE@, FOUR@,
            THREE@, TWO@,
        ],
    )
}

/// The six ranks of Pinochle: ace, ten, king, queen, jack, nine.
pub open spec fn pinochle_ranks() -> Seq<RankView> {
    ranks_by_position(
        seq![
            ACE@, TEN@, KING@, QUEEN@, JACK@, NINE@,
        ],
    )
}

/// The twenty-two ranks of the major arcana, the fool first.
pub open spec fn major_arcana_ranks() -> Seq<RankView> {
    ranks_by_position(
        seq![
            FOOL@, MAGICIAN@, PRIESTESS@, EMPRESS@, EMPEROR@, HIEROPHANT@, LOVERS@, CHARIOT@,
            STRENGTH@, HERMIT@, FORTUNE@, JUSTICE@, HANGED@, DEATH@, TEMPERANCE@, DEVIL@,
            TOWER@, STAR@, MOON@, SUN@, JUDGEMENT@, WORLD@,
        ],
    )
}

/// The fourteen ranks of the minor arcana, the king first and the ace last.
pub open spec fn minor_arcana_ranks() -> Seq<RankView> {
    ranks_by_position(
        seq![
            KING@, QUEEN@, KNIGHT@, PAGE@, TEN@, NINE@, EIGHT@, SEVEN@, SIX@, FIVE@, FOUR@,
            THREE@, TWO@, ACE@,
        ],
    )
}

/// The eight Skat ranks, the daus first.
pub open spec fn skat_ranks() -> Seq<RankView> {
    ranks_by_position(
        seq![
            DAUS@, KING@, OBER@, UNTER@, TEN@, NINE@, EIGHT@, SEVEN@,
        ],
    )
}

/// A rank of playing cards, such as the ace, the ten, a joker or the ober.
#[derive(Debug, Eq, Hash)]
pub struct Rank {
    /// By the weight the cards of one suit are ordered.
    pub weight: isize,
    pub name: FluentName,
}

impl View for Rank {
    type V = RankView;

    open spec fn view(&self) -> RankView {
        RankView { weight: self.weight as int, name: self.name@ }
    }
}

impl DeepView for Rank {
    type V = RankView;

    open spec fn deep_view(&self) -> RankView {
        self@
    }
}

impl Rank {
    /// The rank of the given name, with the weight that the templates give the
    /// name by default.
    pub fn new(name: &str) -> (rank: Rank)
        ensures
            rank@ == (RankView { weight: default_weight(name@), name: name@ }),
    {
        let name = FluentName::new(name);
        Rank { weight: name.default_weight(), name }
    }

    /// The rank of the given name and weight.
    pub fn new_with_weight(name: &str, weight: isize) -> (rank: Rank)
        ensures
            rank@ == (RankView { weight: weight as int, name: name@ }),
    {
        Rank { weight, name: FluentName::new(name) }
    }

    /// The ranks of the names `s`, weighted by position from high to low.
    pub fn from_array(s: &[&str]) -> (ranks: Vec<Rank>)
        requires
            s@.len() < isize::MAX,
        ensures
            ranks.deep_view() == ranks_by_position(s.deep_view()),
            forall|i: int, j: int|
                0 <= i < j < ranks@.len() ==> (#[trigger] ranks@[i]).weight > (
                #[trigger] ranks@[j]).weight,
    {
        let mut v: Vec<Rank> = Vec::new();
        let len: usize = s.len();
        let mut i: usize = 0;
        while i < len
            invariant
                i <= len,
                len == s@.len(),
                len < isize::MAX,
                v@.len() == i,
                forall|k: int|
                    0 <= k < i ==> (#[trigger] v@[k])@ == ranks_by_position(s.deep_view())[k],
            decreases len - i,
        {
            let weight: usize = (len + 1) - i;
            v.push(Rank::new_with_weight(s[i], weight as isize));
            i += 1;
        }
        assert(v.deep_view() =~= ranks_by_position(s.deep_view()));
        assert forall|i: int, j: int| 0 <= i < j < v@.len() implies (#[trigger] v@[i]).weight > (
        #[trigger] v@[j]).weight by {
            assert(v@[i]@.weight == len + 1 - i);
            assert(v@[j]@.weight == len + 1 - j);
        }
        v
    }

    pub fn generate_canasta_ranks() -> (ranks: Vec<Rank>)
        ensures
            ranks.deep_view() == canasta_ranks(),
    {
        let names = [
            TWO, ACE, KING, QUEEN, JACK, TEN, NINE, EIGHT, SEVEN, SIX, FIVE, FOUR, THREE,
        ];
        assert(names.deep_view() =~= seq![
            TWO@, ACE@, KING@, QUEEN@, JACK@, TEN@, NINE@, EIGHT@, SEVEN@, SIX@, FIVE@, FOUR@,
            THREE@,
        ]);
        Rank::from_array(&names)
    }

    pub fn generate_euchre_ranks() -> (ranks: Vec<Rank>)
        ensures
            ranks.deep_view() == euchre_ranks(),
    {
        let names = [
            ACE, KING, QUEEN, JACK, TEN, NINE,
        ];
        assert(names.deep_view() =~= seq![
            ACE@, KING@, QUEEN@, JACK@, TEN@, NINE@,
        ]);
        Rank::from_array(&names)
    }

    pub fn generate_french_ranks() -> (ranks: Vec<Rank>)
        ensures
            ranks.deep_view() == french_ranks(),
    {
        let names = [
            ACE, KING, QUEEN, JACK, TEN, NINE, EIGHT, SEVEN, SIX, FIVE, FOUR, THREE, TWO,
        ];
        assert(names.deep_view() =~= seq![
            ACE@, KING@, QUEEN@, JACK@, TEN@, NINE@, EIGHT@, SEVEN@, SIX@, FIVE@, FOUR@,
            THREE@, TWO@,
        ]);
        Rank::from_array(&names)
    }

    pub fn generate_pinochle_ranks() -> (ranks: Vec<Rank>)
        ensures
            ranks.deep_view() == pinochle_ranks(),
    {
        let names = [
            ACE, TEN, KING, QUEEN, JACK, NINE,
        ];
        assert(names.deep_view() =~= seq![
            ACE@, TEN@, KING@, QUEEN@, JACK@, NINE@,
        ]);
        Rank::from_array(&names)
    }

    pub fn generate_major_arcana_ranks() -> (ranks: Vec<Rank>)
        ensures
            ranks.deep_view() == major_arcana_ranks(),
    {
        let names = [
            FOOL, MAGICIAN, PRIESTESS, EMPRESS, EMPEROR, HIEROPHANT, LOVERS, CHARIOT, STRENGTH,
            HERMIT, FORTUNE, JUSTICE, HANGED, DEATH, TEMPERANCE, DEVIL, TOWER, STAR, MOON, SUN,
            JUDGEMENT, WORLD,
        ];
        assert(names.deep_view() =~= seq![
            FOOL@, MAGICIAN@, PRIESTESS@, EMPRESS@, EMPEROR@, HIEROPHANT@, LOVERS@, CHARIOT@,
            STRENGTH@, HERMIT@, FORTUNE@, JUSTICE@, HANGED@, DEATH@, TEMPERANCE@, DEVIL@,
            TOWER@, STAR@, MOON@, SUN@, JUDGEMENT@, WORLD@,
        ]);
        Rank::from_array(&names)
    }

    pub fn generate_minor_arcana_ranks() -> (ranks: Vec<Rank>)
        ensures
            ranks.deep_view() == minor_arcana_ranks(),
    {
        let names = [
            KING, QUEEN, KNIGHT, PAGE, TEN, NINE, EIGHT, SEVEN, SIX, FIVE, FOUR, THREE, TWO,
            ACE,
        ];
        assert(names.deep_view() =~= seq![
            KING@, QUEEN@, KNIGHT@, PAGE@, TEN@, NINE@, EIGHT@, SEVEN@, SIX@, FIVE@, FOUR@,
            THREE@, TWO@, ACE@,
        ]);
        Rank::from_array(&names)
    }

    pub fn generate_skat_ranks() -> (ranks: Vec<Rank>)
        ensures
            ranks.deep_view() == skat_ranks(),
    {
        let names = [
            DAUS, KING, OBER, UNTER, TEN, NINE, EIGHT, SEVEN,
        ];
        assert(names.deep_view() =~= seq![
            DAUS@, KING@, OBER@, UNTER@, TEN@, NINE@, EIGHT@, SEVEN@,
        ]);
        Rank::from_array(&names)
    }

    /// The rank in the language `lid`: its index.
    pub fn to_locale_string(&self, lid: &Language) -> (result: Result<String, LookupMiss>)
        ensures
            is_lookup_of(result, *lid, key_of(self@.name, "index"@)),
    {
        self.name.index(lid)
    }

    /// The rank as it is printed: its index in English.
    pub fn to_string(&self) -> (result: Result<String, LookupMiss>)
        ensures
            is_lookup_of(result, US_ENGLISH, key_of(self@.name, "index"@)),
    {
        self.name.index(&US_ENGLISH)
    }

    /// The name of the rank.
    pub fn name(&self) -> (name: &str)
        ensures
            name@ == self@.name,
    {
        self.name.name()
    }
}

impl FluentCard for Rank {
    open spec fn name_spec(&self) -> Seq<char> {
        self@.name
    }

    open spec fn weight_spec(&self) -> int {
        self@.weight
    }

    fn get_name(&self) -> (name: &String) {
        self.name.as_string()
    }

    fn revise_weight(&mut self, new_value: isize) {
        self.weight = new_value;
    }

    fn get_weight(&self) -> (weight: isize) {
        self.weight
    }
}

impl Clone for Rank {
    fn clone(&self) -> (copy: Self)
        ensures
            copy == *self,
    {
        Rank { weight: self.weight, name: self.name.clone() }
    }
}

impl Default for Rank {
    fn default() -> (rank: Self)
        ensures
            rank@ == (RankView { weight: 0, name: Seq::<char>::empty() }),
    {
        Rank { weight: 0, name: FluentName::default() }
    }
}

impl PartialEq for Rank {
    fn eq(&self, other: &Self) -> (same: bool) {
        self.weight == other.weight && self.name == other.name
    }
}

impl vstd::std_specs::cmp::PartialEqSpecImpl for Rank {
    open spec fn obeys_eq_spec() -> bool {
        true
    }

    open spec fn eq_spec(&self, other: &Self) -> bool {
        self@ == other@
    }
}

impl PartialOrd for Rank {
    fn partial_cmp(&self, other: &Self) -> (order: Option<Ordering>) {
        if self.weight < other.weight {
            Some(Ordering::Less)
        } else if self.weight > other.weight {
            Some(Ordering::Greater)
        } else {
            self.name.partial_cmp(&other.name)
        }
    }
}

impl vstd::std_specs::cmp::PartialOrdSpecImpl for Rank {
    open spec fn obeys_partial_cmp_spec() -> bool {
        true
    }

    open spec fn partial_cmp_spec(&self, other: &Self) -> Option<Ordering> {
        if self@ == other@ {
            Some(Ordering::Equal)
        } else if self@.le(other@) {
            Some(Ordering::Less)
        } else {
            Some(Ordering::Greater)
        }
    }
}

} // verus!
