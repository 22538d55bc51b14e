//! Histograms: the colours of an image, each with the number of its pixels.

use crate::color::Argb;
use crate::weighted::{
    lemma_same_members, lemma_total_weight_push, lemma_total_weight_update, total_weight, WeightedColor,
};
use vstd::multiset::*;
use vstd::prelude::*;
use vstd::seq_lib::*;

verus! {

/// How often a colour occurs among the pixels.
pub open spec fn occurrences(pixels: Seq<Argb>, color: Argb) -> nat {
    pixels.to_multiset().count(color)
}

/// Whether the entries list each colour that occurs among the pixels, once, with the
/// number of its occurrences.
pub open spec fn is_histogram(entries: Seq<WeightedColor>, pixels: Seq<Argb>) -> bool {
    &&& forall|i: int, j: int|
        0 <= i < j < entries.len() ==> (#[trigger] entries[i]).color != (#[trigger] entries[j]).color
    &&& forall|i: int|
        0 <= i < entries.len() ==> (#[trigger] entries[i]).weight > 0 && entries[i].weight
            == occurrences(pixels, entries[i].color)
    &&& forall|c: Argb| #[trigger]
        occurrences(pixels, c) > 0 ==> exists|i: int|
            0 <= i < entries.len() && (#[trigger] entries[i]).color == c
}

/// Whether colour `a` occurs among the pixels before colour `b` does, if `b` occurs at
/// all.
pub open spec fn appears_before(pixels: Seq<Argb>, a: Argb, b: Argb) -> bool {
    exists|p: int|
        0 <= p < pixels.len() && #[trigger] pixels[p] == a && forall|q: int|
            0 <= q <= p ==> #[trigger] pixels[q] != b
}

/// Whether the entries stand in the order in which their colours first occur.
pub open spec fn in_order_of_appearance(entries: Seq<WeightedColor>, pixels: Seq<Argb>) -> bool {
    forall|i: int, j: int|
        0 <= i < j < entries.len() ==> appears_before(
            pixels,
            (#[trigger] entries[i]).color,
            (#[trigger] entries[j]).color,
        )
}

/// Counts the pixels of each colour. The colours come in the order in which they first
/// occur.
pub fn histogram(pixels: &Vec<Argb>) -> (entries: Vec<WeightedColor>)
    ensures
        is_histogram(entries@, pixels@),
        in_order_of_appearance(entries@, pixels@),
        total_weight(entries@) == pixels@.len(),
        entries@.len() <= pixels@.len(),
        pixels@.len() > 0 ==> entries@.len() > 0,
{
    let mut entries: Vec<WeightedColor> = Vec::new();
    let mut i: usize = 0;
    proof {
        broadcast use group_multiset_axioms;

        pixels@.take(0).to_multiset_ensures();
        assert(pixels@.take(0) =~= Seq::<Argb>::empty());
    }
    while i < pixels.len()
        invariant
            0 <= i <= pixels@.len(),
            is_histogram(entries@, pixels@.take(i as int)),
            in_order_of_appearance(entries@, pixels@.take(i as int)),
            total_weight(entries@) == i,
            entries@.len() <= i,
            i > 0 ==> entries@.len() > 0,
        decreases pixels@.len() - i,
    {
        let pixel = pixels[i];
        let ghost seen = pixels@.take(i as int);
        let ghost known = entries@;
        let mut k: usize = 0;
        while k < entries.len() && !(entries[k].color == pixel)
            invariant
                0 <= k <= entries@.len(),
                forall|t: int| 0 <= t < k ==> (#[trigger] entries@[t]).color != pixel,
            decreases entries@.len() - k,
        {
            k += 1;
        }
        proof {
            broadcast use group_multiset_axioms;

            seen.to_multiset_ensures();
            to_multiset_build(seen, pixel);
            to_multiset_len(seen);
            assert(pixels@.take(i + 1) =~= seen.push(pixel));
            assert(forall|c: Argb|
                occurrences(seen.push(pixel), c) == if c == pixel {
                    occurrences(seen, c) + 1
                } else {
                    occurrences(seen, c)
                });
            assert(occurrences(seen, pixel) <= seen.len());
        }
        if k < entries.len() {
            let entry = entries[k];
            let raised = WeightedColor { color: entry.color, weight: entry.weight + 1 };
            entries.set(k, raised);
            proof {
                lemma_total_weight_update(known, k as int, raised);
                assert forall|a: int, b: int| 0 <= a < b < entries@.len() implies appears_before(
                    seen.push(pixel),
                    (#[trigger] entries@[a]).color,
                    (#[trigger] entries@[b]).color,
                ) by {
                    assert(appears_before(seen, known[a].color, known[b].color));
                    let p = choose|p: int|
                        0 <= p < seen.len() && #[trigger] seen[p] == known[a].color && forall|q: int|
                            0 <= q <= p ==> #[trigger] seen[q] != known[b].color;
                    assert(seen.push(pixel)[p] == known[a].color);
                    assert forall|q: int| 0 <= q <= p implies #[trigger] seen.push(pixel)[q]
                        != known[b].color by {
                        assert(seen[q] != known[b].color);
                    }
                }
                assert forall|c: Argb| #[trigger]
                    occurrences(seen.push(pixel), c) > 0 implies exists|t: int|
                    0 <= t < entries@.len() && (#[trigger] entries@[t]).color == c by {
                    if c == pixel {
                        assert(entries@[k as int].color == c);
                    } else {
                        assert(occurrences(seen, c) > 0);
                        let t = choose|t: int| 0 <= t < known.len() && (#[trigger] known[t]).color == c;
                        assert(entries@[t].color == c);
                    }
                }
            }
        } else {
            let added = WeightedColor { color: pixel, weight: 1 };
            entries.push(added);
            proof {
                lemma_total_weight_push(known, added);
                if occurrences(seen, pixel) > 0 {
                    let t = choose|t: int| 0 <= t < known.len() && (#[trigger] known[t]).color == pixel;
                    assert(false);
                }
                assert(!seen.contains(pixel));
                assert forall|a: int, b: int| 0 <= a < b < entries@.len() implies appears_before(
                    seen.push(pixel),
                    (#[trigger] entries@[a]).color,
                    (#[trigger] entries@[b]).color,
                ) by {
                    if b < known.len() {
                        assert(appears_before(seen, known[a].color, known[b].color));
                        let p = choose|p: int|
                            0 <= p < seen.len() && #[trigger] seen[p] == known[a].color && forall|q: int|
                                0 <= q <= p ==> #[trigger] seen[q] != known[b].color;
                        assert(seen.push(pixel)[p] == known[a].color);
                        assert forall|q: int| 0 <= q <= p implies #[trigger] seen.push(pixel)[q]
                            != known[b].color by {
                            assert(seen[q] != known[b].color);
                        }
                    } else {
                        assert(occurrences(seen, known[a].color) > 0);
                        assert(seen.contains(known[a].color));
                        let p = choose|p: int| 0 <= p < seen.len() && seen[p] == known[a].color;
                        assert(seen.push(pixel)[p] == known[a].color);
                        assert forall|q: int| 0 <= q <= p implies #[trigger] seen.push(pixel)[q]
                            != pixel by {
                            assert(seen.contains(seen[q]));
                        }
                    }
                }
                assert forall|c: Argb| #[trigger]
                    occurrences(seen.push(pixel), c) > 0 implies exists|t: int|
                    0 <= t < entries@.len() && (#[trigger] entries@[t]).color == c by {
                    if c == pixel {
                        assert(entries@[known.len() as int].color == c);
                    } else {
                        assert(occurrences(seen, c) > 0);
                        let t = choose|t: int| 0 <= t < known.len() && (#[trigger] known[t]).color == c;
                        assert(entries@[t].color == c);
                    }
                }
            }
        }
        i += 1;
    }
    assert(pixels@.take(i as int) =~= pixels@);
    entries
}

/// The entries of a histogram are those that pair an occurring colour with the number
/// of its occurrences, and none is listed twice.
pub proof fn lemma_histogram_members(entries: Seq<WeightedColor>, pixels: Seq<Argb>)
    requires
        is_histogram(entries, pixels),
    ensures
        entries.no_duplicates(),
        forall|e: WeightedColor| #[trigger]
            entries.contains(e) <==> e.weight > 0 && e.weight == occurrences(pixels, e.color),
{
    assert forall|e: WeightedColor| e.weight > 0 && e.weight == occurrences(
        pixels,
        e.color,
    ) implies #[trigger] entries.contains(e) by {
        let i = choose|i: int| 0 <= i < entries.len() && (#[trigger] entries[i]).color == e.color;
        assert(entries[i] == e);
    }
}

/// A histogram stays one however its entries are arranged.
pub proof fn lemma_histogram_rearranged(entries: Seq<WeightedColor>, other: Seq<WeightedColor>, pixels: Seq<Argb>)
    requires
        is_histogram(entries, pixels),
        other.to_multiset() == entries.to_multiset(),
    ensures
        is_histogram(other, pixels),
{
    broadcast use group_multiset_axioms;

    lemma_histogram_members(entries, pixels);
    entries.to_multiset_ensures();
    other.to_multiset_ensures();
    entries.lemma_multiset_has_no_duplicates();
    other.lemma_multiset_has_no_duplicates_conv();
    assert forall|i: int| 0 <= i < other.len() implies (#[trigger] other[i]).weight > 0 && other[i].weight
        == occurrences(pixels, other[i].color) by {
        assert(other.contains(other[i]));
        lemma_same_members(other, entries, other[i]);
    }
    assert forall|i: int, j: int| 0 <= i < j < other.len() implies (#[trigger] other[i]).color != (
    #[trigger] other[j]).color by {
        assert(other.contains(other[i]));
        assert(other.contains(other[j]));
        lemma_same_members(other, entries, other[i]);
        lemma_same_members(other, entries, other[j]);
        if other[i].color == other[j].color {
            assert(other[i] == other[j]);
        }
    }
    assert forall|c: Argb| #[trigger] occurrences(pixels, c) > 0 implies exists|i: int|
        0 <= i < other.len() && (#[trigger] other[i]).color == c by {
        let k = choose|k: int| 0 <= k < entries.len() && (#[trigger] entries[k]).color == c;
        assert(entries.contains(entries[k]));
        lemma_same_members(entries, other, entries[k]);
        let i = choose|i: int| 0 <= i < other.len() && other[i] == entries[k];
        assert(other[i].color == c);
    }
}

/// Two histograms of the same pixels, in whatever order, hold the same entries.
pub proof fn lemma_histograms_agree(
    a: Seq<WeightedColor>,
    b: Seq<WeightedColor>,
    pixels: Seq<Argb>,
    shuffled: Seq<Argb>,
)
    requires
        pixels.to_multiset() == shuffled.to_multiset(),
        is_histogram(a, pixels),
        is_histogram(b, shuffled),
    ensures
        a.to_multiset() == b.to_multiset(),
        a.len() == b.len(),
{
    broadcast use group_multiset_axioms;

    lemma_histogram_members(a, pixels);
    lemma_histogram_members(b, shuffled);
    a.to_multiset_ensures();
    b.to_multiset_ensures();
    a.lemma_multiset_has_no_duplicates();
    b.lemma_multiset_has_no_duplicates();
    assert forall|e: WeightedColor| a.to_multiset().count(e) == b.to_multiset().count(e) by {
        assert(a.contains(e) <==> b.contains(e));
    }
    assert(a.to_multiset() =~= b.to_multiset());
}

/// A histogram has as many entries as there are colours among the pixels.
pub proof fn lemma_histogram_len(entries: Seq<WeightedColor>, pixels: Seq<Argb>)
    requires
        is_histogram(entries, pixels),
    ensures
        entries.len() == pixels.to_set().len(),
{
    let colors = Seq::new(entries.len(), |i: int| entries[i].color);
    assert forall|i: int, j: int| 0 <= i < colors.len() && 0 <= j < colors.len() && i != j implies colors[i]
        != colors[j] by {
        if i < j {
            assert(entries[i].color != entries[j].color);
        } else {
            assert(entries[j].color != entries[i].color);
        }
    }
    colors.unique_seq_to_set();
    pixels.to_multiset_ensures();
    assert forall|c: Argb| colors.to_set().contains(c) <==> pixels.to_set().contains(c) by {
        if colors.contains(c) {
            let i = choose|i: int| 0 <= i < colors.len() && colors[i] == c;
            assert(entries[i].weight == occurrences(pixels, c));
            assert(pixels.to_multiset().count(c) > 0);
        }
        if pixels.contains(c) {
            assert(occurrences(pixels, c) > 0);
            let i = choose|i: int| 0 <= i < entries.len() && (#[trigger] entries[i]).color == c;
            assert(colors[i] == c);
        }
    }
    assert(colors.to_set() =~= pixels.to_set());
}

} // verus!
