//! Clustering: a few centres, each colour with the centre nearest to it, and each centre
//! moved to the mean of its colours, for a fixed number of rounds.

use crate::color::Argb;
use crate::weighted::{
    lemma_ranking_order_total, lemma_same_members, lemma_total_weight_prefix, lemma_total_weight_push,
    lemma_total_weight_update, rank, ranking_order, total_weight, WeightedColor,
};
use material_colors::quantize::point_provider::PointProvider;
use vstd::arithmetic::div_mod::*;
use vstd::multiset::*;
use vstd::prelude::*;
use vstd::relations::*;
use vstd::seq_lib::*;

verus! {

/// The squared distance of two colours in CIELAB, as the bit pattern of a binary64
/// number. The number is a sum of squares, so it is not negative, and of two such
/// numbers the smaller has the smaller pattern.
pub uninterp spec fn lab_distance(a: Argb, b: Argb) -> u64;

/// Calls `lab_from_int` and `distance` of `material_colors`' `PointProviderLab` and hands
/// out the bit pattern of the result. Nothing is claimed of it but that it depends on
/// the two colours alone.
#[verifier::external_body]
fn color_distance(a: Argb, b: Argb) -> (distance: u64)
    ensures
        distance == lab_distance(a, b),
{
    let lab = material_colors::quantize::point_provider_lab::PointProviderLab;
    let from = lab.lab_from_int(&material_colors::Argb::new(a.alpha, a.red, a.green, a.blue));
    let to = lab.lab_from_int(&material_colors::Argb::new(b.alpha, b.red, b.green, b.blue));
    lab.distance(&from, &to).to_bits()
}

/// The index of the least value, the first of them where several are least.
pub open spec fn first_least(values: Seq<u64>) -> int
    decreases values.len(),
{
    if values.len() <= 1 {
        0
    } else {
        let best = first_least(values.drop_last());
        if values.last() < values[best] {
            values.len() - 1
        } else {
            best
        }
    }
}

/// What `first_least` finds: an index whose value none undercuts, and which every
/// earlier value exceeds.
pub proof fn lemma_first_least(values: Seq<u64>)
    requires
        values.len() > 0,
    ensures
        0 <= first_least(values) < values.len(),
        forall|i: int| 0 <= i < values.len() ==> values[first_least(values)] <= #[trigger] values[i],
        forall|i: int| 0 <= i < first_least(values) ==> values[first_least(values)] < #[trigger] values[i],
    decreases values.len(),
{
    if values.len() > 1 {
        lemma_first_least(values.drop_last());
        let best = first_least(values.drop_last());
        assert forall|i: int| 0 <= i < values.len() implies values[first_least(values)] <= #[trigger] values[i] by {
            if i < values.len() - 1 {
                assert(values.drop_last()[i] == values[i]);
            }
        }
        assert forall|i: int| 0 <= i < first_least(values) implies values[first_least(values)] < #[trigger] values[i] by {
            assert(values.drop_last()[i] == values[i]);
        }
    }
}

/// Finds the least of the values, and the first of them where several are least.
pub fn least_index(values: &Vec<u64>) -> (index: usize)
    requires
        values@.len() > 0,
    ensures
        index as int == first_least(values@),
        index < values@.len(),
        forall|i: int| 0 <= i < values@.len() ==> values@[index as int] <= #[trigger] values@[i],
        forall|i: int| 0 <= i < index ==> values@[index as int] < #[trigger] values@[i],
{
    proof {
        lemma_first_least(values@);
    }
    let mut best: usize = 0;
    let mut j: usize = 1;
    assert(values@.take(1).drop_last().len() == 0);
    while j < values.len()
        invariant
            0 <= best < j <= values@.len(),
            best as int == first_least(values@.take(j as int)),
        decreases values@.len() - j,
    {
        proof {
            assert(values@.take(j + 1).drop_last() =~= values@.take(j as int));
        }
        if values[j] < values[best] {
            best = j;
        }
        j += 1;
    }
    assert(values@.take(j as int) =~= values@);
    best
}

/// The rounds of refinement that quantisation runs.
pub const ROUNDS: usize = 10;

/// The distances from each of the centres to a colour.
pub open spec fn distances(centres: Seq<Argb>, color: Argb) -> Seq<u64> {
    Seq::new(centres.len(), |i: int| lab_distance(centres[i], color))
}

/// The centre that a colour belongs to: the nearest one, and of several nearest ones
/// the first.
pub open spec fn nearest(centres: Seq<Argb>, color: Argb) -> int {
    first_least(distances(centres, color))
}

/// One of the four channels of a colour: alpha, red, green, blue, in this order.
pub open spec fn channel(color: Argb, which: int) -> int {
    if which == 0 {
        color.alpha as int
    } else if which == 1 {
        color.red as int
    } else if which == 2 {
        color.green as int
    } else {
        color.blue as int
    }
}

/// The weight of those among the first `upto` entries that belong to centre `i`.
pub open spec fn member_weight(entries: Seq<WeightedColor>, centres: Seq<Argb>, i: int, upto: int) -> int
    decreases upto,
{
    if upto <= 0 {
        0
    } else {
        member_weight(entries, centres, i, upto - 1) + if nearest(centres, entries[upto - 1].color)
            == i {
            entries[upto - 1].weight as int
        } else {
            0
        }
    }
}

/// The sum of one channel over the same entries, each counted as often as its weight
/// says.
pub open spec fn member_sum(
    entries: Seq<WeightedColor>,
    centres: Seq<Argb>,
    i: int,
    upto: int,
    which: int,
) -> int
    decreases upto,
{
    if upto <= 0 {
        0
    } else {
        member_sum(entries, centres, i, upto - 1, which) + if nearest(
            centres,
            entries[upto - 1].color,
        ) == i {
            entries[upto - 1].weight * channel(entries[upto - 1].color, which)
        } else {
            0
        }
    }
}

/// The weight of a cluster and the sums of the channels of its colours, each colour
/// counted as often as its weight says.
#[derive(Clone, Copy, Debug, PartialEq, Eq, Structural)]
pub struct Sums {
    pub weight: u64,
    pub alpha: u128,
    pub red: u128,
    pub green: u128,
    pub blue: u128,
}

impl Sums {
    /// Whether the sums can be those of colours: none is more than 255 times the weight.
    pub open spec fn balanced(self) -> bool {
        &&& self.alpha <= 255 * self.weight
        &&& self.red <= 255 * self.weight
        &&& self.green <= 255 * self.weight
        &&& self.blue <= 255 * self.weight
    }

    /// The mean colour, each channel rounded down; `otherwise` where there is no weight.
    pub open spec fn mean(self, otherwise: Argb) -> Argb {
        if self.weight == 0 {
            otherwise
        } else {
            Argb {
                alpha: (self.alpha as int / self.weight as int) as u8,
                red: (self.red as int / self.weight as int) as u8,
                green: (self.green as int / self.weight as int) as u8,
                blue: (self.blue as int / self.weight as int) as u8,
            }
        }
    }

    /// The mean colour, each channel rounded down; `otherwise` where there is no weight.
    pub fn mean_color(&self, otherwise: Argb) -> (color: Argb)
        requires
            self.balanced(),
        ensures
            color == self.mean(otherwise),
    {
        if self.weight == 0 {
            otherwise
        } else {
            let weight = self.weight as u128;
            proof {
                lemma_mean_fits(self.alpha as int, weight as int);
                lemma_mean_fits(self.red as int, weight as int);
                lemma_mean_fits(self.green as int, weight as int);
                lemma_mean_fits(self.blue as int, weight as int);
            }
            Argb {
                alpha: (self.alpha / weight) as u8,
                red: (self.red / weight) as u8,
                green: (self.green / weight) as u8,
                blue: (self.blue / weight) as u8,
            }
        }
    }
}

/// The mean of channels is a channel.
proof fn lemma_mean_fits(sum: int, weight: int)
    requires
        0 <= sum <= 255 * weight,
        0 < weight,
    ensures
        0 <= sum / weight <= 255,
{
    lemma_div_is_ordered(sum, 255 * weight, weight);
    lemma_div_multiples_vanish(255, weight);
    lemma_div_is_ordered(0, sum, weight);
}

/// The sums of the cluster of centre `i` over all of the entries.
pub open spec fn gathered(entries: Seq<WeightedColor>, centres: Seq<Argb>, i: int) -> Sums {
    Sums {
        weight: member_weight(entries, centres, i, entries.len() as int) as u64,
        alpha: member_sum(entries, centres, i, entries.len() as int, 0) as u128,
        red: member_sum(entries, centres, i, entries.len() as int, 1) as u128,
        green: member_sum(entries, centres, i, entries.len() as int, 2) as u128,
        blue: member_sum(entries, centres, i, entries.len() as int, 3) as u128,
    }
}

/// The centres after one round: each at the mean of its cluster, and where it stood if
/// nothing belongs to it.
pub open spec fn moved(entries: Seq<WeightedColor>, centres: Seq<Argb>) -> Seq<Argb> {
    Seq::new(centres.len(), |i: int| gathered(entries, centres, i).mean(centres[i]))
}

/// The centres after a number of rounds.
pub open spec fn refined(entries: Seq<WeightedColor>, centres: Seq<Argb>, rounds: nat) -> Seq<Argb>
    decreases rounds,
{
    if rounds == 0 {
        centres
    } else {
        moved(entries, refined(entries, centres, (rounds - 1) as nat))
    }
}

/// The clusters of the centres: each centre with the weight of all that belongs to it.
pub open spec fn clusters(entries: Seq<WeightedColor>, centres: Seq<Argb>) -> Seq<WeightedColor> {
    Seq::new(
        centres.len(),
        |i: int|
            WeightedColor {
                color: centres[i],
                weight: member_weight(entries, centres, i, entries.len() as int) as u64,
            },
    )
}

/// The clusters as far as the first `upto` entries fill them.
spec fn partial_clusters(entries: Seq<WeightedColor>, centres: Seq<Argb>, upto: int) -> Seq<WeightedColor> {
    Seq::new(
        centres.len(),
        |i: int|
            WeightedColor {
                color: centres[i],
                weight: member_weight(entries, centres, i, upto) as u64,
            },
    )
}

/// The weight of a cluster is no more than that of the entries it is drawn from, and no
/// sum of a channel more than 255 times the weight.
proof fn lemma_member_bounds(entries: Seq<WeightedColor>, centres: Seq<Argb>, i: int, upto: int)
    requires
        0 <= upto <= entries.len(),
    ensures
        0 <= member_weight(entries, centres, i, upto) <= total_weight(entries.take(upto)),
        forall|which: int|
            0 <= #[trigger] member_sum(entries, centres, i, upto, which) <= 255 * member_weight(
                entries,
                centres,
                i,
                upto,
            ),
    decreases upto,
{
    if upto > 0 {
        lemma_member_bounds(entries, centres, i, upto - 1);
        assert(entries.take(upto).drop_last() =~= entries.take(upto - 1));
        let entry = entries[upto - 1];
        assert forall|which: int|
            0 <= #[trigger] member_sum(entries, centres, i, upto, which) <= 255 * member_weight(
                entries,
                centres,
                i,
                upto,
            ) by {
            let c = channel(entry.color, which);
            let w = entry.weight as int;
            assert(0 <= w * c <= 255 * w) by (nonlinear_arith)
                requires
                    0 <= c <= 255,
                    0 <= w,
            ;
            assert(member_sum(entries, centres, i, upto - 1, which) <= 255 * member_weight(
                entries,
                centres,
                i,
                upto - 1,
            ));
        }
    } else {
        assert(entries.take(0) =~= Seq::<WeightedColor>::empty());
    }
}

/// The four sums of a cluster are those of colours, and its weight is no more than that
/// of the entries it is drawn from.
proof fn lemma_sums_fit(entries: Seq<WeightedColor>, centres: Seq<Argb>, i: int, upto: int)
    requires
        0 <= upto <= entries.len(),
    ensures
        0 <= member_weight(entries, centres, i, upto) <= total_weight(entries.take(upto)),
        0 <= member_sum(entries, centres, i, upto, 0) <= 255 * member_weight(entries, centres, i, upto),
        0 <= member_sum(entries, centres, i, upto, 1) <= 255 * member_weight(entries, centres, i, upto),
        0 <= member_sum(entries, centres, i, upto, 2) <= 255 * member_weight(entries, centres, i, upto),
        0 <= member_sum(entries, centres, i, upto, 3) <= 255 * member_weight(entries, centres, i, upto),
{
    lemma_member_bounds(entries, centres, i, upto);
}

/// Entries without weight add up to none.
proof fn lemma_no_weight(entries: Seq<WeightedColor>)
    requires
        forall|i: int| 0 <= i < entries.len() ==> (#[trigger] entries[i]).weight == 0,
    ensures
        total_weight(entries) == 0,
    decreases entries.len(),
{
    if entries.len() > 0 {
        assert forall|i: int| 0 <= i < entries.drop_last().len() implies (#[trigger] entries.drop_last()[i]).weight
            == 0 by {
            assert(entries.drop_last()[i] == entries[i]);
        }
        lemma_no_weight(entries.drop_last());
    }
}

/// The clusters hold the weight of the entries that fill them.
proof fn lemma_partial_clusters_total(entries: Seq<WeightedColor>, centres: Seq<Argb>, upto: int)
    requires
        centres.len() > 0,
        0 <= upto <= entries.len(),
        total_weight(entries) <= u64::MAX,
    ensures
        total_weight(partial_clusters(entries, centres, upto)) == total_weight(entries.take(upto)),
    decreases upto,
{
    if upto == 0 {
        lemma_no_weight(partial_clusters(entries, centres, 0));
        assert(entries.take(0) =~= Seq::<WeightedColor>::empty());
    } else {
        lemma_partial_clusters_total(entries, centres, upto - 1);
        let entry = entries[upto - 1];
        let index = nearest(centres, entry.color);
        lemma_first_least(distances(centres, entry.color));
        let before = partial_clusters(entries, centres, upto - 1);
        let grown = WeightedColor {
            color: centres[index],
            weight: member_weight(entries, centres, index, upto) as u64,
        };
        lemma_total_weight_prefix(entries, upto);
        lemma_member_bounds(entries, centres, index, upto);
        lemma_member_bounds(entries, centres, index, upto - 1);
        assert forall|i: int| 0 <= i < centres.len() implies #[trigger] partial_clusters(
            entries,
            centres,
            upto,
        )[i] == before.update(index, grown)[i] by {
            if i != index {
                assert(member_weight(entries, centres, i, upto) == member_weight(
                    entries,
                    centres,
                    i,
                    upto - 1,
                ));
            }
        }
        assert(partial_clusters(entries, centres, upto) =~= before.update(index, grown));
        lemma_total_weight_update(before, index, grown);
        assert(entries.take(upto).drop_last() =~= entries.take(upto - 1));
    }
}

/// No weight is lost in clustering.
pub proof fn lemma_clusters_total(entries: Seq<WeightedColor>, centres: Seq<Argb>)
    requires
        centres.len() > 0,
        total_weight(entries) <= u64::MAX,
    ensures
        total_weight(clusters(entries, centres)) == total_weight(entries),
{
    lemma_partial_clusters_total(entries, centres, entries.len() as int);
    assert(entries.take(entries.len() as int) =~= entries);
    assert(partial_clusters(entries, centres, entries.len() as int) =~= clusters(entries, centres));
}

/// Measures the distance from each centre to the colour and finds the nearest.
fn nearest_centre(centres: &Vec<Argb>, color: Argb) -> (index: usize)
    requires
        centres@.len() > 0,
    ensures
        index as int == nearest(centres@, color),
        index < centres@.len(),
{
    let mut found: Vec<u64> = Vec::new();
    let mut i: usize = 0;
    while i < centres.len()
        invariant
            0 <= i <= centres@.len(),
            found@.len() == i,
            forall|t: int| 0 <= t < i ==> #[trigger] found@[t] == lab_distance(centres@[t], color),
        decreases centres@.len() - i,
    {
        found.push(color_distance(centres[i], color));
        i += 1;
    }
    assert(found@ =~= distances(centres@, color));
    least_index(&found)
}

/// Goes through the entries once and adds each to the sums of its centre.
fn gather(entries: &Vec<WeightedColor>, centres: &Vec<Argb>) -> (sums: Vec<Sums>)
    requires
        centres@.len() > 0,
        total_weight(entries@) <= u64::MAX,
    ensures
        sums@.len() == centres@.len(),
        forall|i: int|
            0 <= i < centres@.len() ==> #[trigger] sums@[i] == gathered(entries@, centres@, i)
                && sums@[i].balanced(),
{
    let mut sums: Vec<Sums> = Vec::new();
    let mut t: usize = 0;
    while t < centres.len()
        invariant
            0 <= t <= centres@.len(),
            sums@.len() == t,
            forall|i: int|
                0 <= i < t ==> #[trigger] sums@[i] == (Sums {
                    weight: 0,
                    alpha: 0,
                    red: 0,
                    green: 0,
                    blue: 0,
                }),
        decreases centres@.len() - t,
    {
        sums.push(Sums { weight: 0, alpha: 0, red: 0, green: 0, blue: 0 });
        t += 1;
    }
    let mut j: usize = 0;
    while j < entries.len()
        invariant
            0 <= j <= entries@.len(),
            centres@.len() > 0,
            total_weight(entries@) <= u64::MAX,
            sums@.len() == centres@.len(),
            forall|i: int|
                0 <= i < centres@.len() ==> {
                    &&& (#[trigger] sums@[i]).weight == member_weight(entries@, centres@, i, j as int)
                    &&& sums@[i].alpha == member_sum(entries@, centres@, i, j as int, 0)
                    &&& sums@[i].red == member_sum(entries@, centres@, i, j as int, 1)
                    &&& sums@[i].green == member_sum(entries@, centres@, i, j as int, 2)
                    &&& sums@[i].blue == member_sum(entries@, centres@, i, j as int, 3)
                },
        decreases entries@.len() - j,
    {
        let entry = entries[j];
        let index = nearest_centre(centres, entry.color);
        proof {
            lemma_sums_fit(entries@, centres@, index as int, j + 1);
            lemma_total_weight_prefix(entries@, j + 1);
        }
        let weight = entry.weight as u128;
        let alpha = entry.color.alpha as u128;
        let red = entry.color.red as u128;
        let green = entry.color.green as u128;
        let blue = entry.color.blue as u128;
        proof {
            assert(weight * alpha == entry.weight * channel(entry.color, 0));
            assert(weight * red == entry.weight * channel(entry.color, 1));
            assert(weight * green == entry.weight * channel(entry.color, 2));
            assert(weight * blue == entry.weight * channel(entry.color, 3));
            assert(weight * alpha <= 255 * weight && weight * red <= 255 * weight && weight * green
                <= 255 * weight && weight * blue <= 255 * weight) by (nonlinear_arith)
                requires
                    alpha <= 255,
                    red <= 255,
                    green <= 255,
                    blue <= 255,
                    weight >= 0,
            ;
        }
        let held = sums[index];
        sums.set(
            index,
            Sums {
                weight: held.weight + entry.weight,
                alpha: held.alpha + weight * alpha,
                red: held.red + weight * red,
                green: held.green + weight * green,
                blue: held.blue + weight * blue,
            },
        );
        j += 1;
    }
    proof {
        assert forall|i: int| 0 <= i < centres@.len() implies #[trigger] sums@[i] == gathered(
            entries@,
            centres@,
            i,
        ) && sums@[i].balanced() by {
            lemma_sums_fit(entries@, centres@, i, entries@.len() as int);
        }
    }
    sums
}

/// One round: every entry goes to the centre nearest to its colour, and every centre
/// moves to the mean of what came to it.
pub fn move_centres(entries: &Vec<WeightedColor>, centres: &Vec<Argb>) -> (next: Vec<Argb>)
    requires
        centres@.len() > 0,
        total_weight(entries@) <= u64::MAX,
    ensures
        next@ == moved(entries@, centres@),
{
    let sums = gather(entries, centres);
    let mut next: Vec<Argb> = Vec::new();
    let mut i: usize = 0;
    while i < centres.len()
        invariant
            0 <= i <= centres@.len(),
            sums@.len() == centres@.len(),
            forall|t: int|
                0 <= t < centres@.len() ==> #[trigger] sums@[t] == gathered(entries@, centres@, t)
                    && sums@[t].balanced(),
            next@.len() == i,
            forall|t: int| 0 <= t < i ==> #[trigger] next@[t] == moved(entries@, centres@)[t],
        decreases centres@.len() - i,
    {
        next.push(sums[i].mean_color(centres[i]));
        i += 1;
    }
    assert(next@ =~= moved(entries@, centres@));
    next
}

/// Runs the rounds.
pub fn refine(entries: &Vec<WeightedColor>, centres: Vec<Argb>, rounds: usize) -> (last: Vec<Argb>)
    requires
        centres@.len() > 0,
        total_weight(entries@) <= u64::MAX,
    ensures
        last@ == refined(entries@, centres@, rounds as nat),
        last@.len() == centres@.len(),
{
    let ghost start = centres@;
    let mut current = centres;
    let mut round: usize = 0;
    while round < rounds
        invariant
            0 <= round <= rounds,
            total_weight(entries@) <= u64::MAX,
            current@.len() == start.len(),
            start.len() > 0,
            current@ == refined(entries@, start, round as nat),
        decreases rounds - round,
    {
        current = move_centres(entries, &current);
        round += 1;
    }
    current
}

/// The clusters of the centres: each centre with the weight of all that belongs to it.
pub fn cluster(entries: &Vec<WeightedColor>, centres: &Vec<Argb>) -> (found: Vec<WeightedColor>)
    requires
        centres@.len() > 0,
        total_weight(entries@) <= u64::MAX,
    ensures
        found@ == clusters(entries@, centres@),
        total_weight(found@) == total_weight(entries@),
{
    let sums = gather(entries, centres);
    let mut found: Vec<WeightedColor> = Vec::new();
    let mut i: usize = 0;
    while i < centres.len()
        invariant
            0 <= i <= centres@.len(),
            sums@.len() == centres@.len(),
            forall|t: int|
                0 <= t < centres@.len() ==> #[trigger] sums@[t] == gathered(entries@, centres@, t),
            found@.len() == i,
            forall|t: int| 0 <= t < i ==> #[trigger] found@[t] == clusters(entries@, centres@)[t],
        decreases centres@.len() - i,
    {
        found.push(WeightedColor { color: centres[i], weight: sums[i].weight });
        i += 1;
    }
    proof {
        assert(found@ =~= clusters(entries@, centres@));
        lemma_clusters_total(entries@, centres@);
    }
    found
}

/// The weight that the entries give a colour.
pub open spec fn weight_of(entries: Seq<WeightedColor>, color: Argb) -> int
    decreases entries.len(),
{
    if entries.len() == 0 {
        0
    } else {
        weight_of(entries.drop_last(), color) + if entries.last().color == color {
            entries.last().weight as int
        } else {
            0
        }
    }
}

/// Whether `sums` lists each colour that the entries give weight to, once, with all its
/// weight.
pub open spec fn is_tally(sums: Seq<WeightedColor>, entries: Seq<WeightedColor>) -> bool {
    &&& forall|i: int, j: int|
        0 <= i < j < sums.len() ==> (#[trigger] sums[i]).color != (#[trigger] sums[j]).color
    &&& forall|i: int|
        0 <= i < sums.len() ==> (#[trigger] sums[i]).weight > 0 && sums[i].weight == weight_of(
            entries,
            sums[i].color,
        )
    &&& forall|c: Argb| #[trigger]
        weight_of(entries, c) > 0 ==> exists|i: int| 0 <= i < sums.len() && (#[trigger] sums[i]).color == c
}

/// No colour gets more weight than there is.
proof fn lemma_weight_of_bounds(entries: Seq<WeightedColor>, color: Argb)
    ensures
        0 <= weight_of(entries, color) <= total_weight(entries),
    decreases entries.len(),
{
    if entries.len() > 0 {
        lemma_weight_of_bounds(entries.drop_last(), color);
    }
}

/// Brings entries of the same colour together and leaves out what has no weight.
fn tally(entries: &Vec<WeightedColor>) -> (sums: Vec<WeightedColor>)
    requires
        total_weight(entries@) <= u64::MAX,
    ensures
        is_tally(sums@, entries@),
        total_weight(sums@) == total_weight(entries@),
        sums@.len() <= entries@.len(),
{
    let mut sums: Vec<WeightedColor> = Vec::new();
    let mut j: usize = 0;
    assert(entries@.take(0) =~= Seq::<WeightedColor>::empty());
    while j < entries.len()
        invariant
            0 <= j <= entries@.len(),
            total_weight(entries@) <= u64::MAX,
            is_tally(sums@, entries@.take(j as int)),
            total_weight(sums@) == total_weight(entries@.take(j as int)),
            sums@.len() <= j,
        decreases entries@.len() - j,
    {
        let entry = entries[j];
        let ghost seen = entries@.take(j as int);
        let ghost next = entries@.take(j + 1);
        let ghost known = sums@;
        proof {
            assert(next.drop_last() =~= seen);
            assert(next.last() == entry);
            lemma_total_weight_prefix(entries@, j + 1);
            lemma_weight_of_bounds(next, entry.color);
            lemma_weight_of_bounds(seen, entry.color);
            assert(forall|c: Argb|
                weight_of(next, c) == weight_of(seen, c) + if entry.color == c {
                    entry.weight as int
                } else {
                    0
                });
        }
        if entry.weight > 0 {
            let mut k: usize = 0;
            while k < sums.len() && !(sums[k].color == entry.color)
                invariant
                    0 <= k <= sums@.len(),
                    forall|t: int| 0 <= t < k ==> (#[trigger] sums@[t]).color != entry.color,
                decreases sums@.len() - k,
            {
                k += 1;
            }
            if k < sums.len() {
                let held = sums[k];
                let grown = WeightedColor { color: held.color, weight: held.weight + entry.weight };
                sums.set(k, grown);
                proof {
                    lemma_total_weight_update(known, k as int, grown);
                    assert forall|c: Argb| #[trigger] weight_of(next, c) > 0 implies exists|t: int|
                        0 <= t < sums@.len() && (#[trigger] sums@[t]).color == c by {
                        if c == entry.color {
                            assert(sums@[k as int].color == c);
                        } else {
                            let t = choose|t: int| 0 <= t < known.len() && (#[trigger] known[t]).color == c;
                            assert(sums@[t].color == c);
                        }
                    }
                }
            } else {
                sums.push(entry);
                proof {
                    lemma_total_weight_push(known, entry);
                    if weight_of(seen, entry.color) > 0 {
                        let t = choose|t: int|
                            0 <= t < known.len() && (#[trigger] known[t]).color == entry.color;
                        assert(false);
                    }
                    assert forall|c: Argb| #[trigger] weight_of(next, c) > 0 implies exists|t: int|
                        0 <= t < sums@.len() && (#[trigger] sums@[t]).color == c by {
                        if c == entry.color {
                            assert(sums@[known.len() as int].color == c);
                        } else {
                            let t = choose|t: int| 0 <= t < known.len() && (#[trigger] known[t]).color == c;
                            assert(sums@[t].color == c);
                        }
                    }
                }
            }
        }
        j += 1;
    }
    assert(entries@.take(j as int) =~= entries@);
    sums
}

/// Whether `ranked` is the entries brought together and ranked: each colour that has
/// weight once, with all its weight, the heaviest first.
pub open spec fn is_ranked_tally(ranked: Seq<WeightedColor>, entries: Seq<WeightedColor>) -> bool {
    is_tally(ranked, entries) && sorted_by(ranked, ranking_order())
}

/// The members of a tally are the pairs of a colour that has weight and all its weight,
/// and none is listed twice.
proof fn lemma_tally_members(sums: Seq<WeightedColor>, entries: Seq<WeightedColor>)
    requires
        is_tally(sums, entries),
    ensures
        sums.no_duplicates(),
        forall|e: WeightedColor| #[trigger]
            sums.contains(e) <==> e.weight > 0 && e.weight == weight_of(entries, e.color),
{
    assert forall|e: WeightedColor| e.weight > 0 && e.weight == weight_of(
        entries,
        e.color,
    ) implies #[trigger] sums.contains(e) by {
        let i = choose|i: int| 0 <= i < sums.len() && (#[trigger] sums[i]).color == e.color;
        assert(sums[i] == e);
    }
}

/// A tally stays one however it is arranged.
proof fn lemma_tally_rearranged(sums: Seq<WeightedColor>, other: Seq<WeightedColor>, entries: Seq<WeightedColor>)
    requires
        is_tally(sums, entries),
        other.to_multiset() == sums.to_multiset(),
    ensures
        is_tally(other, entries),
{
    broadcast use group_multiset_axioms;

    lemma_tally_members(sums, entries);
    sums.to_multiset_ensures();
    other.to_multiset_ensures();
    sums.lemma_multiset_has_no_duplicates();
    other.lemma_multiset_has_no_duplicates_conv();
    assert forall|i: int| 0 <= i < other.len() implies (#[trigger] other[i]).weight > 0 && other[i].weight
        == weight_of(entries, other[i].color) by {
        assert(other.contains(other[i]));
        lemma_same_members(other, sums, other[i]);
    }
    assert forall|i: int, j: int| 0 <= i < j < other.len() implies (#[trigger] other[i]).color != (
    #[trigger] other[j]).color by {
        assert(other.contains(other[i]));
        assert(other.contains(other[j]));
        lemma_same_members(other, sums, other[i]);
        lemma_same_members(other, sums, other[j]);
        if other[i].color == other[j].color {
            assert(other[i] == other[j]);
        }
    }
    assert forall|c: Argb| #[trigger] weight_of(entries, c) > 0 implies exists|i: int|
        0 <= i < other.len() && (#[trigger] other[i]).color == c by {
        let k = choose|k: int| 0 <= k < sums.len() && (#[trigger] sums[k]).color == c;
        assert(sums.contains(sums[k]));
        lemma_same_members(sums, other, sums[k]);
        let i = choose|i: int| 0 <= i < other.len() && other[i] == sums[k];
        assert(other[i].color == c);
    }
}

/// The ranked tally of given entries is one and the same.
pub proof fn lemma_ranked_tally_unique(
    first: Seq<WeightedColor>,
    second: Seq<WeightedColor>,
    entries: Seq<WeightedColor>,
)
    requires
        is_ranked_tally(first, entries),
        is_ranked_tally(second, entries),
    ensures
        first == second,
{
    broadcast use group_multiset_axioms;

    lemma_tally_members(first, entries);
    lemma_tally_members(second, entries);
    first.to_multiset_ensures();
    second.to_multiset_ensures();
    first.lemma_multiset_has_no_duplicates();
    second.lemma_multiset_has_no_duplicates();
    assert forall|e: WeightedColor| first.to_multiset().count(e) == second.to_multiset().count(e) by {
        assert(first.contains(e) <==> second.contains(e));
    }
    assert(first.to_multiset() =~= second.to_multiset());
    lemma_ranking_order_total();
    lemma_sorted_unique(first, second, ranking_order());
}

/// Brings entries of the same colour together, leaves out what has no weight, and ranks
/// the rest.
pub fn combine(entries: &Vec<WeightedColor>) -> (ranked: Vec<WeightedColor>)
    requires
        total_weight(entries@) <= u64::MAX,
    ensures
        is_ranked_tally(ranked@, entries@),
        total_weight(ranked@) == total_weight(entries@),
        ranked@.len() <= entries@.len(),
{
    let sums = tally(entries);
    let ghost listed = sums@;
    let ranked = rank(sums);
    proof {
        lemma_tally_rearranged(listed, ranked@, entries@);
        to_multiset_len(listed);
        to_multiset_len(ranked@);
    }
    ranked
}

} // verus!
