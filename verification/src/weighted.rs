//! Colours with weights, and their ranking.

use crate::color::{lemma_packed_injective, Argb};
use vstd::multiset::*;
use vstd::prelude::*;
use vstd::relations::*;
use vstd::seq_lib::*;

verus! {

/// A colour and the number of pixels that it stands for.
#[derive(Clone, Copy, Debug, PartialEq, Eq, Structural)]
pub struct WeightedColor {
    pub color: Argb,
    pub weight: u64,
}

/// The order of a ranking: the heavier colour first, and of two equally heavy ones the
/// one whose packed value is smaller.
pub open spec fn ranks_before(a: WeightedColor, b: WeightedColor) -> bool {
    a.weight > b.weight || (a.weight == b.weight && a.color.packed() <= b.color.packed())
}

/// `ranks_before` as a relation.
pub open spec fn ranking_order() -> spec_fn(WeightedColor, WeightedColor) -> bool {
    |a: WeightedColor, b: WeightedColor| ranks_before(a, b)
}

/// The sum of the weights.
pub open spec fn total_weight(entries: Seq<WeightedColor>) -> int
    decreases entries.len(),
{
    if entries.len() == 0 {
        0
    } else {
        total_weight(entries.drop_last()) + entries.last().weight
    }
}

/// The ranking order is total: any two entries compare, and only equal entries compare
/// both ways.
pub proof fn lemma_ranking_order_total()
    ensures
        total_ordering(ranking_order()),
{
    let r = ranking_order();
    assert forall|x: WeightedColor, y: WeightedColor| #[trigger] r(x, y) && #[trigger] r(y, x) implies x
        == y by {
        lemma_packed_injective(x.color, y.color);
    }
    assert(reflexive(r));
    assert(antisymmetric(r));
    assert(transitive(r));
    assert(strongly_connected(r));
}

/// Taking an entry out takes its weight off the total.
pub proof fn lemma_total_weight_remove(entries: Seq<WeightedColor>, i: int)
    requires
        0 <= i < entries.len(),
    ensures
        total_weight(entries.remove(i)) == total_weight(entries) - entries[i].weight,
    decreases entries.len(),
{
    if i == entries.len() - 1 {
        assert(entries.remove(i) =~= entries.drop_last());
    } else {
        lemma_total_weight_remove(entries.drop_last(), i);
        assert(entries.remove(i).drop_last() =~= entries.drop_last().remove(i));
        assert(entries.remove(i).last() == entries.last());
    }
}

/// A further entry adds its weight to the total.
pub proof fn lemma_total_weight_push(entries: Seq<WeightedColor>, entry: WeightedColor)
    ensures
        total_weight(entries.push(entry)) == total_weight(entries) + entry.weight,
{
    assert(entries.push(entry).drop_last() =~= entries);
}

/// Replacing an entry changes the total by the difference of the weights.
pub proof fn lemma_total_weight_update(entries: Seq<WeightedColor>, i: int, entry: WeightedColor)
    requires
        0 <= i < entries.len(),
    ensures
        total_weight(entries.update(i, entry)) == total_weight(entries) - entries[i].weight
            + entry.weight,
    decreases entries.len(),
{
    if i == entries.len() - 1 {
        assert(entries.update(i, entry).drop_last() =~= entries.drop_last());
    } else {
        lemma_total_weight_update(entries.drop_last(), i, entry);
        assert(entries.update(i, entry).drop_last() =~= entries.drop_last().update(i, entry));
    }
}

/// The total of a prefix is not negative and no more than the total of the whole.
pub proof fn lemma_total_weight_prefix(entries: Seq<WeightedColor>, n: int)
    requires
        0 <= n <= entries.len(),
    ensures
        0 <= total_weight(entries.take(n)) <= total_weight(entries),
    decreases entries.len(),
{
    if n == entries.len() {
        assert(entries.take(n) =~= entries);
        if n > 0 {
            lemma_total_weight_prefix(entries.drop_last(), n - 1);
            assert(entries.drop_last().take(n - 1) =~= entries.take(n).drop_last().take(n - 1));
        }
    } else {
        lemma_total_weight_prefix(entries.drop_last(), n);
        assert(entries.drop_last().take(n) =~= entries.take(n));
    }
}

/// Whether one entry ranks before another, or equal to it.
fn comes_before(a: &WeightedColor, b: &WeightedColor) -> (before: bool)
    ensures
        before == ranks_before(*a, *b),
{
    a.weight > b.weight || (a.weight == b.weight && a.color.to_u32() <= b.color.to_u32())
}

/// Puts the entries in ranking order. Nothing is added, lost or changed.
pub fn rank(entries: Vec<WeightedColor>) -> (ranked: Vec<WeightedColor>)
    ensures
        sorted_by(ranked@, ranking_order()),
        ranked@.to_multiset() == entries@.to_multiset(),
        total_weight(ranked@) == total_weight(entries@),
{
    broadcast use {group_to_multiset_ensures, group_multiset_axioms};

    let ghost given = entries@;
    let mut rest = entries;
    let mut ranked: Vec<WeightedColor> = Vec::new();
    while rest.len() > 0
        invariant
            ranked@.to_multiset().add(rest@.to_multiset()) == given.to_multiset(),
            total_weight(ranked@) + total_weight(rest@) == total_weight(given),
            sorted_by(ranked@, ranking_order()),
            forall|i: int, j: int|
                0 <= i < ranked@.len() && 0 <= j < rest@.len() ==> ranks_before(
                    #[trigger] ranked@[i],
                    #[trigger] rest@[j],
                ),
        decreases rest@.len(),
    {
        let mut best: usize = 0;
        let mut j: usize = 1;
        while j < rest.len()
            invariant
                0 <= best < j <= rest@.len(),
                forall|t: int| 0 <= t < j ==> ranks_before(rest@[best as int], #[trigger] rest@[t]),
            decreases rest@.len() - j,
        {
            if !comes_before(&rest[best], &rest[j]) {
                best = j;
            }
            j += 1;
        }
        let ghost before = rest@;
        let ghost done = ranked@;
        let first = rest.remove(best);
        ranked.push(first);
        proof {
            lemma_total_weight_remove(before, best as int);
            lemma_total_weight_push(done, first);
            broadcast use group_multiset_axioms;

            before.to_multiset_ensures();
            to_multiset_build(done, first);
            to_multiset_remove(before, best as int);
            assert(before.contains(first));
            assert(before.to_multiset().count(first) > 0);
            assert(ranked@.to_multiset() =~= done.to_multiset().insert(first));
            assert(rest@.to_multiset() =~= before.to_multiset().remove(first));
            assert(ranked@.to_multiset().add(rest@.to_multiset()) =~= done.to_multiset().add(
                before.to_multiset(),
            ));
            assert forall|i: int, k: int| 0 <= i < k < ranked@.len() implies #[trigger] ranking_order()(
                ranked@[i],
                ranked@[k],
            ) by {
                if k == done.len() {
                    assert(ranks_before(done[i], before[best as int]));
                } else {
                    assert(ranking_order()(done[i], done[k]));
                }
            }
            assert forall|i: int, k: int| 0 <= i < ranked@.len() && 0 <= k < rest@.len() implies ranks_before(
                #[trigger] ranked@[i],
                #[trigger] rest@[k],
            ) by {
                let source = if k < best { k } else { k + 1 };
                assert(rest@[k] == before[source]);
                if i < done.len() {
                    assert(ranks_before(done[i], before[source]));
                } else {
                    assert(ranks_before(before[best as int], before[source]));
                }
            }
        }
    }
    proof {
        rest@.to_multiset_ensures();
        assert(rest@.to_multiset() =~= Multiset::<WeightedColor>::empty());
        assert(ranked@.to_multiset() =~= given.to_multiset());
    }
    ranked
}

/// Sequences with the same elements, each as often, have the same members.
pub proof fn lemma_same_members(a: Seq<WeightedColor>, b: Seq<WeightedColor>, e: WeightedColor)
    requires
        a.to_multiset() == b.to_multiset(),
        a.contains(e),
    ensures
        b.contains(e),
{
    a.to_multiset_ensures();
    b.to_multiset_ensures();
    assert(a.to_multiset().count(e) > 0);
    assert(b.to_multiset().count(e) > 0);
}

} // verus!
