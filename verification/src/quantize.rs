//! Quantisation: from the pixels of an image to a few colours and their weights.

use crate::cluster::{
    cluster, clusters, combine, is_ranked_tally, lemma_ranked_tally_unique, refine, refined, ROUNDS,
};
use crate::color::Argb;
use crate::error::InvalidInput;
use crate::histogram::{
    histogram, is_histogram, lemma_histogram_len, lemma_histogram_rearranged, lemma_histograms_agree,
};
use crate::weighted::{lemma_ranking_order_total, rank, ranking_order, total_weight, WeightedColor};
use vstd::prelude::*;
use vstd::relations::*;
use vstd::seq_lib::*;

verus! {

/// The colours of the first `count` entries.
pub open spec fn first_colors(ranking: Seq<WeightedColor>, count: int) -> Seq<Argb> {
    Seq::new(count as nat, |i: int| ranking[i].color)
}

/// The middle of the cell that a colour falls into where the cube of colours is cut
/// into cells of eight by eight by eight. Alpha is left aside.
pub open spec fn downsampled(color: Argb) -> Argb {
    Argb {
        alpha: 255,
        red: (color.red / 8 * 8 + 4) as u8,
        green: (color.green / 8 * 8 + 4) as u8,
        blue: (color.blue / 8 * 8 + 4) as u8,
    }
}

/// The entries with each colour replaced by the middle of its cell.
pub open spec fn coarsened(entries: Seq<WeightedColor>) -> Seq<WeightedColor> {
    Seq::new(
        entries.len(),
        |i: int| WeightedColor { color: downsampled(entries[i].color), weight: entries[i].weight },
    )
}

/// The lesser of two numbers.
pub open spec fn lesser(a: int, b: int) -> int {
    if a < b {
        a
    } else {
        b
    }
}

/// What a ranking of all colours is reduced to where at most `max_colors` may stay.
/// Where it holds no more than that, it stays as it is. Else the cells of the cube are
/// ranked by the weight that falls into them, and the middles of the first `max_colors`
/// of them are the first centres; the centres are refined, and the clusters of the last
/// centres are brought together and ranked.
pub open spec fn is_reduction(colors: Seq<WeightedColor>, ranking: Seq<WeightedColor>, max_colors: int) -> bool {
    if ranking.len() <= max_colors {
        colors == ranking
    } else {
        exists|cells: Seq<WeightedColor>| #[trigger]
            is_ranked_tally(cells, coarsened(ranking)) && is_ranked_tally(
                colors,
                clusters(
                    ranking,
                    refined(
                        ranking,
                        first_colors(cells, lesser(max_colors, cells.len() as int)),
                        ROUNDS as nat,
                    ),
                ),
            )
    }
}

/// Moving colours to the middles of their cells moves no weight.
proof fn lemma_coarsened_total(entries: Seq<WeightedColor>)
    ensures
        total_weight(coarsened(entries)) == total_weight(entries),
    decreases entries.len(),
{
    if entries.len() > 0 {
        lemma_coarsened_total(entries.drop_last());
        assert(coarsened(entries).drop_last() =~= coarsened(entries.drop_last()));
    }
}

/// The middle of the cell that a colour falls into.
pub fn downsample(color: Argb) -> (cell: Argb)
    ensures
        cell == downsampled(color),
{
    Argb {
        alpha: 255,
        red: color.red / 8 * 8 + 4,
        green: color.green / 8 * 8 + 4,
        blue: color.blue / 8 * 8 + 4,
    }
}

/// Replaces each colour by the middle of its cell.
fn coarsen(entries: &Vec<WeightedColor>) -> (coarse: Vec<WeightedColor>)
    ensures
        coarse@ == coarsened(entries@),
        total_weight(coarse@) == total_weight(entries@),
{
    let mut coarse: Vec<WeightedColor> = Vec::new();
    let mut i: usize = 0;
    while i < entries.len()
        invariant
            0 <= i <= entries@.len(),
            coarse@.len() == i,
            forall|t: int| 0 <= t < i ==> #[trigger] coarse@[t] == coarsened(entries@)[t],
        decreases entries@.len() - i,
    {
        coarse.push(WeightedColor { color: downsample(entries[i].color), weight: entries[i].weight });
        i += 1;
    }
    proof {
        assert(coarse@ =~= coarsened(entries@));
        lemma_coarsened_total(entries@);
    }
    coarse
}

/// Whether `colors` is what quantising the pixels to at most `max_colors` colours
/// gives: the reduction of the ranking of all colours that occur, each with the number
/// of its pixels.
pub open spec fn is_quantization(colors: Seq<WeightedColor>, pixels: Seq<Argb>, max_colors: int) -> bool {
    exists|ranking: Seq<WeightedColor>|
        {
            &&& is_histogram(ranking, pixels)
            &&& #[trigger] sorted_by(ranking, ranking_order())
            &&& is_reduction(colors, ranking, max_colors)
        }
}

/// Reduces the pixels of an image to at most `max_colors` colours, each with the number
/// of pixels that it stands for, the heaviest first. No pixel is lost: the weights add
/// up to the number of pixels. There are never more colours than the image has. An image
/// without pixels is refused.
pub fn quantize(pixels: &Vec<Argb>, max_colors: usize) -> (result: Result<Vec<WeightedColor>, InvalidInput>)
    requires
        max_colors > 0,
    ensures
        result is Err <==> pixels@.len() == 0,
        result matches Err(e) ==> e == InvalidInput::EmptyImage,
        result matches Ok(colors) ==> is_quantization(colors@, pixels@, max_colors as int),
        result matches Ok(colors) ==> total_weight(colors@) == pixels@.len(),
        result matches Ok(colors) ==> 0 < colors@.len() <= max_colors,
        result matches Ok(colors) ==> colors@.len() <= pixels@.to_set().len(),
{
    if pixels.len() == 0 {
        return Err(InvalidInput::EmptyImage);
    }
    let counted = histogram(pixels);
    let ghost listed = counted@;
    let ranking = rank(counted);
    proof {
        lemma_histogram_rearranged(listed, ranking@, pixels@);
        to_multiset_len(listed);
        to_multiset_len(ranking@);
        lemma_histogram_len(ranking@, pixels@);
        assert(sorted_by(ranking@, ranking_order()));
    }
    if ranking.len() <= max_colors {
        return Ok(ranking);
    }
    let cells = combine(&coarsen(&ranking));
    let count = if max_colors < cells.len() {
        max_colors
    } else {
        cells.len()
    };
    let mut centres: Vec<Argb> = Vec::new();
    let mut i: usize = 0;
    while i < count
        invariant
            0 <= i <= count <= cells@.len(),
            centres@.len() == i,
            forall|t: int| 0 <= t < i ==> #[trigger] centres@[t] == cells@[t].color,
        decreases count - i,
    {
        centres.push(cells[i].color);
        i += 1;
    }
    assert(centres@ =~= first_colors(cells@, lesser(max_colors as int, cells@.len() as int)));
    let centres = refine(&ranking, centres, ROUNDS);
    let found = cluster(&ranking, &centres);
    let colors = combine(&found);
    proof {
        assert(is_ranked_tally(cells@, coarsened(ranking@)));
        assert(is_reduction(colors@, ranking@, max_colors as int));
    }
    Ok(colors)
}

/// Quantisation does not depend on the order of the pixels, and its result is fixed by
/// them: two results for the same pixels, in whatever order, are the same.
pub proof fn lemma_quantization_unique(
    first: Seq<WeightedColor>,
    second: Seq<WeightedColor>,
    pixels: Seq<Argb>,
    shuffled: Seq<Argb>,
    max_colors: int,
)
    requires
        pixels.to_multiset() == shuffled.to_multiset(),
        is_quantization(first, pixels, max_colors),
        is_quantization(second, shuffled, max_colors),
    ensures
        first == second,
{
    let a = choose|r: Seq<WeightedColor>|
        {
            &&& is_histogram(r, pixels)
            &&& #[trigger] sorted_by(r, ranking_order())
            &&& is_reduction(first, r, max_colors)
        };
    let b = choose|r: Seq<WeightedColor>|
        {
            &&& is_histogram(r, shuffled)
            &&& #[trigger] sorted_by(r, ranking_order())
            &&& is_reduction(second, r, max_colors)
        };
    lemma_histograms_agree(a, b, pixels, shuffled);
    lemma_ranking_order_total();
    lemma_sorted_unique(a, b, ranking_order());
    if a.len() > max_colors {
        let c = choose|cells: Seq<WeightedColor>| #[trigger]
            is_ranked_tally(cells, coarsened(a)) && is_ranked_tally(
                first,
                clusters(
                    a,
                    refined(a, first_colors(cells, lesser(max_colors, cells.len() as int)), ROUNDS as nat),
                ),
            );
        let d = choose|cells: Seq<WeightedColor>| #[trigger]
            is_ranked_tally(cells, coarsened(a)) && is_ranked_tally(
                second,
                clusters(
                    a,
                    refined(a, first_colors(cells, lesser(max_colors, cells.len() as int)), ROUNDS as nat),
                ),
            );
        lemma_ranked_tally_unique(c, d, coarsened(a));
        lemma_ranked_tally_unique(
            first,
            second,
            clusters(
                a,
                refined(a, first_colors(c, lesser(max_colors, c.len() as int)), ROUNDS as nat),
            ),
        );
    }
}

/// Where no more colours occur than may be kept, all of them are kept, each with the
/// number of its own pixels.
pub proof fn lemma_few_colors_all_kept(
    colors: Seq<WeightedColor>,
    pixels: Seq<Argb>,
    max_colors: int,
    listed: Seq<WeightedColor>,
)
    requires
        is_quantization(colors, pixels, max_colors),
        is_histogram(listed, pixels),
        listed.len() <= max_colors,
    ensures
        is_histogram(colors, pixels),
        colors.len() == listed.len(),
{
    let r = choose|r: Seq<WeightedColor>|
        {
            &&& is_histogram(r, pixels)
            &&& #[trigger] sorted_by(r, ranking_order())
            &&& is_reduction(colors, r, max_colors)
        };
    lemma_histograms_agree(r, listed, pixels, pixels);
}

} // verus!
