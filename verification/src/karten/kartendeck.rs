//! Das Kartendeck: the cards of a deck together with the suits and the ranks
//! that they were made of, each in its order.

use crate::cards::model::RankView;
use crate::cards::model::SuitView;
use crate::cards::rank::french_ranks;
use crate::cards::rank::major_arcana_ranks;
use crate::cards::rank::minor_arcana_ranks;
use crate::cards::rank::pinochle_ranks;
use crate::cards::recipe::cross;
use crate::cards::recipe::rank_cards;
use crate::cards::recipe::suit_cards;
use crate::cards::suit::french_suits;
use crate::cards::suit::major_arcana_suits;
use crate::cards::suit::minor_arcana_suits;
use crate::deck::shuffle::arrangement;
use crate::deck::shuffle::is_permutation;
use crate::deck::shuffle::lemma_arrangement_keeps_items;
use crate::deck::shuffle::random_order;
use crate::karten::karte::Anzug;
use crate::karten::karte::Karte;
use crate::karten::karte::KarteView;
use crate::karten::karte::Rang;
use vstd::prelude::*;

verus! {

/// The way in which a Kartendeck makes a card of a rank and a suit: the two and
/// nothing more.
pub open spec fn paired() -> spec_fn(RankView, SuitView) -> KarteView {
    |rang: RankView, anzug: SuitView| KarteView { rang, anzug }
}

/// A Kartendeck: its cards, its suits from the highest, its ranks from the
/// highest.
pub struct KartendeckView {
    pub karten: Seq<KarteView>,
    pub anzugrang: Seq<SuitView>,
    pub rangfolge: Seq<RankView>,
}

/// The French Kartendeck: the four French suits, each with the thirteen French
/// ranks.
pub open spec fn french_kartendeck() -> KartendeckView {
    KartendeckView {
        karten: cross(paired(), french_suits(), french_ranks(), 1),
        anzugrang: french_suits(),
        rangfolge: french_ranks(),
    }
}

/// The Pinochle Kartendeck: the four French suits, each with the six ranks of
/// Pinochle, two cards of each.
pub open spec fn pinochle_kartendeck() -> KartendeckView {
    KartendeckView {
        karten: cross(paired(), french_suits(), pinochle_ranks(), 2),
        anzugrang: french_suits(),
        rangfolge: pinochle_ranks(),
    }
}

/// The Tarot Kartendeck: the major arcana, then the four suits of the minor
/// arcana with their ranks.
pub open spec fn tarot_kartendeck() -> KartendeckView {
    KartendeckView {
        karten: cross(paired(), major_arcana_suits(), major_arcana_ranks(), 1) + cross(
            paired(),
            minor_arcana_suits(),
            minor_arcana_ranks(),
            1,
        ),
        anzugrang: major_arcana_suits() + minor_arcana_suits(),
        rangfolge: major_arcana_ranks() + minor_arcana_ranks(),
    }
}

/// A deck of cards (Kartendeck) with the order of its suits (Anzugrang) and of
/// its ranks (Rangfolge).
#[derive(Debug)]
pub struct Kartendeck {
    pub karten: Vec<Karte>,
    pub anzugrang: Vec<Anzug>,
    pub rangfolge: Vec<Rang>,
}

impl View for Kartendeck {
    type V = KartendeckView;

    open spec fn view(&self) -> KartendeckView {
        KartendeckView {
            karten: self.karten.deep_view(),
            anzugrang: self.anzugrang.deep_view(),
            rangfolge: self.rangfolge.deep_view(),
        }
    }
}

/// Puts the cards of every suit with every rank at the end of `karten`: suit
/// by suit in the order of `suits`, rank by rank in the order of `ranks`,
/// `copies` cards of each.
pub fn push_cross(karten: &mut Vec<Karte>, suits: &Vec<Anzug>, ranks: &Vec<Rang>, copies: usize)
    ensures
        final(karten).deep_view() == old(karten).deep_view() + cross(
            paired(),
            suits.deep_view(),
            ranks.deep_view(),
            copies as nat,
        ),
{
    let ghost start = karten.deep_view();
    let ghost all = suits.deep_view();
    let ghost weights = ranks.deep_view();
    let mut i: usize = 0;
    assert(all.take(0) =~= Seq::<SuitView>::empty());
    assert(karten.deep_view() =~= start + cross(paired(), all.take(0), weights, copies as nat));
    while i < suits.len()
        invariant
            i <= suits@.len(),
            all == suits.deep_view(),
            weights == ranks.deep_view(),
            karten.deep_view() == start + cross(paired(), all.take(i as int), weights, copies as nat),
        decreases suits@.len() - i,
    {
        let ghost suit = suits@[i as int]@;
        let ghost before_suit = karten.deep_view();
        let mut j: usize = 0;
        assert(weights.take(0) =~= Seq::<RankView>::empty());
        assert(karten.deep_view() =~= before_suit + suit_cards(
            paired(),
            suit,
            weights.take(0),
            copies as nat,
        ));
        while j < ranks.len()
            invariant
                j <= ranks@.len(),
                i < suits@.len(),
                suit == suits@[i as int]@,
                weights == ranks.deep_view(),
                karten.deep_view() == before_suit + suit_cards(
                    paired(),
                    suit,
                    weights.take(j as int),
                    copies as nat,
                ),
            decreases ranks@.len() - j,
        {
            let ghost rank = ranks@[j as int]@;
            let ghost before_rank = karten.deep_view();
            let mut c: usize = 0;
            assert(karten.deep_view() =~= before_rank + rank_cards(paired(), suit, rank, 0));
            while c < copies
                invariant
                    c <= copies,
                    i < suits@.len(),
                    j < ranks@.len(),
                    suit == suits@[i as int]@,
                    rank == ranks@[j as int]@,
                    karten.deep_view() == before_rank + rank_cards(paired(), suit, rank, c as nat),
                decreases copies - c,
            {
                let ghost so_far = karten.deep_view();
                let karte = Karte::new_from_structs(ranks[j].clone(), suits[i].clone());
                assert(karte@ == paired()(rank, suit));
                karten.push(karte);
                assert(karten.deep_view() =~= so_far.push(paired()(rank, suit)));
                c += 1;
                assert(karten.deep_view() =~= before_rank + rank_cards(
                    paired(),
                    suit,
                    rank,
                    c as nat,
                ));
            }
            proof {
                let longer = weights.take(j + 1);
                assert(longer.drop_last() =~= weights.take(j as int));
                assert(longer.last() == rank);
                assert(karten.deep_view() =~= before_suit + suit_cards(
                    paired(),
                    suit,
                    longer,
                    copies as nat,
                ));
            }
            j += 1;
        }
        proof {
            assert(weights.take(j as int) =~= weights);
            let longer = all.take(i + 1);
            assert(longer.drop_last() =~= all.take(i as int));
            assert(longer.last() == suit);
            assert(karten.deep_view() =~= start + cross(paired(), longer, weights, copies as nat));
        }
        i += 1;
    }
    assert(all.take(i as int) =~= all);
}

impl Kartendeck {
    pub fn new(karten: Vec<Karte>, anzugrang: Vec<Anzug>, rangfolge: Vec<Rang>) -> (deck:
        Kartendeck)
        ensures
            deck@ == (KartendeckView {
                karten: karten.deep_view(),
                anzugrang: anzugrang.deep_view(),
                rangfolge: rangfolge.deep_view(),
            }),
    {
        Kartendeck { karten, anzugrang, rangfolge }
    }

    pub fn french_deck() -> (deck: Kartendeck)
        ensures
            deck@ == french_kartendeck(),
    {
        let suits = Anzug::generate_french_suits();
        let ranks = Rang::generate_french_ranks();
        let mut karten: Vec<Karte> = Vec::new();
        push_cross(&mut karten, &suits, &ranks, 1);
        assert(karten.deep_view() =~= french_kartendeck().karten);
        Kartendeck::new(karten, suits, ranks)
    }

    pub fn pinochle_deck() -> (deck: Kartendeck)
        ensures
            deck@ == pinochle_kartendeck(),
    {
        let suits = Anzug::generate_french_suits();
        let ranks = Rang::generate_pinochle_ranks();
        let mut karten: Vec<Karte> = Vec::new();
        push_cross(&mut karten, &suits, &ranks, 2);
        assert(karten.deep_view() =~= pinochle_kartendeck().karten);
        Kartendeck::new(karten, suits, ranks)
    }

    pub fn tarot_deck() -> (deck: Kartendeck)
        ensures
            deck@ == tarot_kartendeck(),
    {
        let major_suits = Anzug::generate_major_arcana_suits();
        let minor_suits = Anzug::generate_minor_arcana_suits();
        let major_ranks = Rang::generate_major_arcana_ranks();
        let minor_ranks = Rang::generate_minor_arcana_ranks();
        let mut karten: Vec<Karte> = Vec::new();
        push_cross(&mut karten, &major_suits, &major_ranks, 1);
        push_cross(&mut karten, &minor_suits, &minor_ranks, 1);
        assert(karten.deep_view() =~= tarot_kartendeck().karten);
        let mut suits = major_suits;
        let mut more_suits = minor_suits;
        suits.append(&mut more_suits);
        assert(suits.deep_view() =~= major_arcana_suits() + minor_arcana_suits());
        let mut ranks = major_ranks;
        let mut more_ranks = minor_ranks;
        ranks.append(&mut more_ranks);
        assert(ranks.deep_view() =~= major_arcana_ranks() + minor_arcana_ranks());
        Kartendeck::new(karten, suits, ranks)
    }

    /// The cards of the deck in an order left to chance. The deck itself stays
    /// as it is.
    pub fn shuffle(&self) -> (shuffled: Vec<Karte>)
        ensures
            shuffled.deep_view().to_multiset() == self@.karten.to_multiset(),
            shuffled@.len() == self@.karten.len(),
            exists|order: Seq<usize>|
                is_permutation(order, self@.karten.len()) && shuffled.deep_view() == arrangement(
                    self@.karten,
                    order,
                ),
    {
        let order = random_order(self.karten.len());
        let mut c: Vec<Karte> = Vec::new();
        let mut i: usize = 0;
        while i < order.len()
            invariant
                i <= order@.len(),
                is_permutation(order@, self@.karten.len()),
                c@.len() == i,
                forall|k: int|
                    0 <= k < i ==> (#[trigger] c@[k])@ == self@.karten[order@[k] as int],
            decreases order@.len() - i,
        {
            let from: usize = order[i];
            c.push(self.karten[from].clone());
            i += 1;
        }
        proof {
            assert(c.deep_view() =~= arrangement(self@.karten, order@));
            lemma_arrangement_keeps_items(self@.karten, order@);
        }
        c
    }
}

impl Clone for Kartendeck {
    fn clone(&self) -> (copy: Self)
        ensures
            copy@ == self@,
    {
        let copy = Kartendeck {
            karten: self.karten.clone(),
            anzugrang: self.anzugrang.clone(),
            rangfolge: self.rangfolge.clone(),
        };
        assert(copy.karten.deep_view() =~= self.karten.deep_view());
        assert(copy.anzugrang.deep_view() =~= self.anzugrang.deep_view());
        assert(copy.rangfolge.deep_view() =~= self.rangfolge.deep_view());
        copy
    }
}

impl PartialEq for Kartendeck {
    fn eq(&self, other: &Self) -> (same: bool) {
        let karten = self.karten == other.karten;
        let anzugrang = self.anzugrang == other.anzugrang;
        let rangfolge = self.rangfolge == other.rangfolge;
        proof {
            let (k, l) = (self.karten.deep_view(), other.karten.deep_view());
            let (a, b) = (self.anzugrang.deep_view(), other.anzugrang.deep_view());
            let (r, t) = (self.rangfolge.deep_view(), other.rangfolge.deep_view());
            assert(karten ==> k =~= l);
            assert(anzugrang ==> a =~= b);
            assert(rangfolge ==> r =~= t);
            if k == l {
                assert forall|i: int| 0 <= i < k.len() implies self.karten@[i]@
                    == other.karten@[i]@ by {
                    assert(k[i] == l[i]);
                }
            }
            if a == b {
                assert forall|i: int| 0 <= i < a.len() implies self.anzugrang@[i]@
                    == other.anzugrang@[i]@ by {
                    assert(a[i] == b[i]);
                }
            }
            if r == t {
                assert forall|i: int| 0 <= i < r.len() implies self.rangfolge@[i]@
                    == other.rangfolge@[i]@ by {
                    assert(r[i] == t[i]);
                }
            }
        }
        karten && anzugrang && rangfolge
    }
}

impl vstd::std_specs::cmp::PartialEqSpecImpl for Kartendeck {
    open spec fn obeys_eq_spec() -> bool {
        true
    }

    open spec fn eq_spec(&self, other: &Self) -> bool {
        self@ == other@
    }
}

} // verus!
