//! Orders in which the cards of a deck can be put: permutations of its
//! positions, and the random one that a shuffle takes.

use rand::seq::SliceRandom;
use rand::thread_rng;
use vstd::prelude::*;
use vstd::seq_lib::to_multiset_build;
use vstd::seq_lib::to_multiset_remove;

verus! {

/// Whether `order` names each of the positions `0 .. len` once.
pub open spec fn is_permutation(order: Seq<usize>, len: nat) -> bool {
    &&& order.len() == len
    &&& forall|i: int| 0 <= i < order.len() ==> #[trigger] order[i] < len
    &&& forall|i: int, j: int| 0 <= i < j < order.len() ==> #[trigger] order[i] != #[trigger] order[j]
}

/// The positions `0 .. len`, in their order.
pub open spec fn identity_order(len: nat) -> Seq<usize> {
    Seq::new(len, |i: int| i as usize)
}

/// The items of `items` in the order that `order` names: first the one at
/// position `order[0]`, and so on.
pub open spec fn arrangement<T>(items: Seq<T>, order: Seq<usize>) -> Seq<T> {
    Seq::new(order.len(), |i: int| items[order[i] as int])
}

/// Putting items in the order of a permutation of their positions keeps each
/// item as often as it was there.
pub proof fn lemma_arrangement_keeps_items<T>(items: Seq<T>, order: Seq<usize>)
    requires
        is_permutation(order, items.len()),
    ensures
        arrangement(items, order).to_multiset() == items.to_multiset(),
    decreases items.len(),
{
    broadcast use vstd::multiset::group_multiset_axioms;

    let arranged = arrangement(items, order);
    if items.len() == 0 {
        assert(arranged =~= items);
    } else {
        let last = items.len() - 1;
        let k = order[last] as int;
        let fewer = items.remove(k);
        let shifted = Seq::new(
            last as nat,
            |i: int|
                if order[i] > k {
                    (order[i] - 1) as usize
                } else {
                    order[i]
                },
        );
        assert forall|i: int| 0 <= i < shifted.len() implies #[trigger] shifted[i] < fewer.len() by {
            assert(order[i] != order[last]);
        }
        assert forall|i: int, j: int| 0 <= i < j < shifted.len() implies #[trigger] shifted[i]
            != #[trigger] shifted[j] by {
            assert(order[i] != order[j]);
            assert(order[i] != order[last]);
            assert(order[j] != order[last]);
        }
        lemma_arrangement_keeps_items(fewer, shifted);
        assert(arranged =~= arrangement(fewer, shifted).push(items[k])) by {
            assert forall|i: int| 0 <= i < last implies arranged[i] == arrangement(
                fewer,
                shifted,
            )[i] by {
                assert(order[i] != order[last]);
            }
        }
        to_multiset_build(arrangement(fewer, shifted), items[k]);
        to_multiset_remove(items, k);
        vstd::seq_lib::to_multiset_contains(items, items[k]);
        assert(items.contains(items[k]));
        assert(fewer.to_multiset().insert(items[k]) =~= items.to_multiset());
    }
}

/// A sequence that holds the same numbers as `identity_order(len)`, each once,
/// is a permutation of the positions `0 .. len`.
pub proof fn lemma_rearranged_identity_is_permutation(order: Seq<usize>, len: nat)
    requires
        len <= usize::MAX,
        order.to_multiset() == identity_order(len).to_multiset(),
    ensures
        is_permutation(order, len),
{
    broadcast use vstd::multiset::group_multiset_axioms;

    let identity = identity_order(len);
    vstd::seq_lib::to_multiset_len(order);
    vstd::seq_lib::to_multiset_len(identity);
    assert forall|i: int| 0 <= i < order.len() implies #[trigger] order[i] < len by {
        vstd::seq_lib::to_multiset_contains(order, order[i]);
        vstd::seq_lib::to_multiset_contains(identity, order[i]);
        assert(order.contains(order[i]));
        let j = choose|j: int| 0 <= j < identity.len() && identity[j] == order[i];
        assert(identity[j] == j);
    }
    assert(identity.no_duplicates());
    identity.lemma_multiset_has_no_duplicates();
    order.lemma_multiset_has_no_duplicates_conv();
}

/// Shuffles the numbers in `order` with `rand::seq::SliceRandom::shuffle`, fed
/// by `rand::thread_rng`. Which order comes out is left to chance; the
/// contract states what `shuffle` does whatever the chance: it moves the
/// numbers about and neither adds nor drops one.
#[verifier::external_body]
fn shuffle_positions(order: &mut Vec<usize>)
    ensures
        final(order)@.to_multiset() == old(order)@.to_multiset(),
{
    order.shuffle(&mut thread_rng());
}

/// Picks one of `items` with `rand::seq::SliceRandom::choose`, fed by
/// `rand::thread_rng`: none where there is no item, else a reference to one of
/// them, which one being left to chance.
#[verifier::external_body]
pub(crate) fn choose_one<T>(items: &Vec<T>) -> (chosen: Option<&T>)
    ensures
        items@.len() == 0 ==> chosen is None,
        items@.len() > 0 ==> chosen is Some && items@.contains(*chosen.unwrap()),
{
    items.choose(&mut thread_rng())
}

/// The positions `0 .. len` in their order.
pub fn positions(len: usize) -> (order: Vec<usize>)
    ensures
        order@ == identity_order(len as nat),
{
    let mut order: Vec<usize> = Vec::new();
    let mut i: usize = 0;
    while i < len
        invariant
            i <= len,
            order@ == identity_order(i as nat),
        decreases len - i,
    {
        order.push(i);
        i += 1;
        assert(order@ =~= identity_order(i as nat));
    }
    order
}

/// The positions `0 .. len` in an order left to chance.
pub fn random_order(len: usize) -> (order: Vec<usize>)
    ensures
        is_permutation(order@, len as nat),
{
    let mut order = positions(len);
    shuffle_positions(&mut order);
    proof {
        lemma_rearranged_identity_is_permutation(order@, len as nat);
    }
    order
}

/// Whether `order` names each of the positions `0 .. len` once.
pub fn check_permutation(order: &Vec<usize>, len: usize) -> (ok: bool)
    ensures
        ok == is_permutation(order@, len as nat),
{
    if order.len() != len {
        return false;
    }
    let mut seen: Vec<bool> = Vec::new();
    let mut n: usize = 0;
    while n < len
        invariant
            n <= len,
            seen@.len() == n,
            forall|k: int| 0 <= k < n ==> !seen@[k],
        decreases len - n,
    {
        seen.push(false);
        n += 1;
    }
    let mut i: usize = 0;
    while i < len
        invariant
            i <= len,
            order@.len() == len,
            seen@.len() == len,
            forall|k: int| 0 <= k < i ==> #[trigger] order@[k] < len,
            forall|k: int, l: int| 0 <= k < l < i ==> #[trigger] order@[k] != #[trigger] order@[l],
            forall|p: int|
                0 <= p < len ==> (#[trigger] seen@[p] <==> exists|k: int|
                    0 <= k < i && order@[k] == p),
        decreases len - i,
    {
        let p: usize = order[i];
        if p >= len {
            return false;
        }
        if seen[p] {
            proof {
                let k = choose|k: int| 0 <= k < i && order@[k] == p;
                assert(order@[k] == order@[i as int]);
            }
            return false;
        }
        let ghost before = seen@;
        seen.set(p, true);
        proof {
            assert forall|q: int| 0 <= q < len implies (#[trigger] seen@[q] <==> exists|k: int|
                0 <= k < i + 1 && order@[k] == q) by {
                if q == p {
                    assert(order@[i as int] == q);
                } else {
                    assert(seen@[q] == before[q]);
                    if before[q] {
                        let k = choose|k: int| 0 <= k < i && order@[k] == q;
                        assert(0 <= k < i + 1 && order@[k] == q);
                    }
                }
            }
            assert forall|k: int, l: int| 0 <= k < l < i + 1 implies #[trigger] order@[k]
                != #[trigger] order@[l] by {
                if l == i && order@[k] == order@[l] {
                    assert(before[p as int]);
                }
            }
        }
        i += 1;
    }
    true
}

} // verus!
