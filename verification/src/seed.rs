//! The choice of a seed colour among the colours of an image.

use crate::color::Argb;
use crate::hct::{cam16_encoding, rounded_chroma, rounded_tone, to_hct, Hct};
use crate::weighted::WeightedColor;
use vstd::prelude::*;

verus! {

/// What makes a colour fit to be a seed: enough chroma, and a tone that is neither near
/// black nor near white. The bounds are the caller's to set.
#[derive(Clone, Copy, Debug, PartialEq, Eq, Structural)]
pub struct SeedPolicy {
    /// The least chroma of a seed.
    pub min_chroma: u16,
    /// The least tone of a seed.
    pub min_tone: u8,
    /// The greatest tone of a seed.
    pub max_tone: u8,
}

impl Default for SeedPolicy {
    /// Chroma of at least 5 and a tone from 10 to 90.
    fn default() -> (policy: SeedPolicy)
        ensures
            policy == (SeedPolicy { min_chroma: 5, min_tone: 10, max_tone: 90 }),
    {
        SeedPolicy { min_chroma: 5, min_tone: 10, max_tone: 90 }
    }
}

/// Whether a chroma and a tone are within the bounds.
pub open spec fn within_bounds(chroma: u16, tone: u8, policy: SeedPolicy) -> bool {
    chroma >= policy.min_chroma && policy.min_tone <= tone <= policy.max_tone
}

/// Whether coordinates are those of a colour fit to be a seed.
pub open spec fn is_suitable(hct: Hct, policy: SeedPolicy) -> bool {
    within_bounds(hct.chroma(), hct.tone(), policy)
}

/// Whether a colour is fit to be a seed, by its rounded chroma and tone.
pub open spec fn suits(color: Argb, policy: SeedPolicy) -> bool {
    within_bounds(
        rounded_chroma(cam16_encoding(color).1),
        rounded_tone(cam16_encoding(color).2),
        policy,
    )
}

/// Whether none of the first `n` coordinates is suitable.
pub open spec fn none_suitable(coordinates: Seq<Hct>, n: int, policy: SeedPolicy) -> bool {
    forall|i: int| 0 <= i < n ==> !is_suitable(#[trigger] coordinates[i], policy)
}

/// Whether none of the first `n` candidates is fit to be a seed.
pub open spec fn none_suits(candidates: Seq<WeightedColor>, n: int, policy: SeedPolicy) -> bool {
    forall|i: int| 0 <= i < n ==> !suits((#[trigger] candidates[i]).color, policy)
}

/// Whether `seed` is the seed among ranked candidates: the colour of the first that is
/// fit, and of the first of all where none is.
pub open spec fn is_chosen_seed(seed: Argb, candidates: Seq<WeightedColor>, policy: SeedPolicy) -> bool {
    exists|i: int|
        {
            &&& 0 <= i < candidates.len()
            &&& seed == (#[trigger] candidates[i]).color
            &&& none_suits(candidates, i, policy)
            &&& suits(candidates[i].color, policy) || (i == 0 && none_suits(
                candidates,
                candidates.len() as int,
                policy,
            ))
        }
}

/// Whether coordinates are those of a colour fit to be a seed.
pub fn suitable(hct: Hct, policy: &SeedPolicy) -> (fit: bool)
    ensures
        fit == is_suitable(hct, *policy),
{
    hct.get_chroma() >= policy.min_chroma && policy.min_tone <= hct.get_tone() && hct.get_tone()
        <= policy.max_tone
}

/// The place of the first suitable coordinates, if any are.
pub fn first_suitable(coordinates: &Vec<Hct>, policy: &SeedPolicy) -> (index: Option<usize>)
    ensures
        index is None <==> none_suitable(coordinates@, coordinates@.len() as int, *policy),
        index matches Some(i) ==> i < coordinates@.len() && is_suitable(coordinates@[i as int], *policy)
            && none_suitable(coordinates@, i as int, *policy),
{
    let mut i: usize = 0;
    while i < coordinates.len()
        invariant
            0 <= i <= coordinates@.len(),
            none_suitable(coordinates@, i as int, *policy),
        decreases coordinates@.len() - i,
    {
        if suitable(coordinates[i], policy) {
            return Some(i);
        }
        i += 1;
    }
    None
}

/// Picks the seed among ranked candidates: the first that is fit, and the first of all
/// where none is.
pub fn select_seed(candidates: &Vec<WeightedColor>, policy: &SeedPolicy) -> (seed: Argb)
    requires
        candidates@.len() > 0,
    ensures
        is_chosen_seed(seed, candidates@, *policy),
{
    let mut coordinates: Vec<Hct> = Vec::new();
    let mut i: usize = 0;
    while i < candidates.len()
        invariant
            0 <= i <= candidates@.len(),
            coordinates@.len() == i,
            forall|t: int|
                0 <= t < i ==> (#[trigger] coordinates@[t]).is_of_color(candidates@[t].color),
        decreases candidates@.len() - i,
    {
        coordinates.push(to_hct(candidates[i].color));
        i += 1;
    }
    assert forall|t: int| 0 <= t < candidates@.len() implies (is_suitable(
        #[trigger] coordinates@[t],
        *policy,
    ) <==> suits(candidates@[t].color, *policy)) by {
        assert(coordinates@[t].is_of_color(candidates@[t].color));
    }
    match first_suitable(&coordinates, policy) {
        Some(index) => {
            assert forall|t: int| 0 <= t < index implies !suits(
                (#[trigger] candidates@[t]).color,
                *policy,
            ) by {
                assert(!is_suitable(coordinates@[t], *policy));
            }
            candidates[index].color
        },
        None => {
            assert forall|t: int| 0 <= t < candidates@.len() implies !suits(
                (#[trigger] candidates@[t]).color,
                *policy,
            ) by {
                assert(!is_suitable(coordinates@[t], *policy));
            }
            candidates[0].color
        },
    }
}

/// The seed is fixed by the candidates and the bounds.
pub proof fn lemma_chosen_seed_unique(
    first: Argb,
    second: Argb,
    candidates: Seq<WeightedColor>,
    policy: SeedPolicy,
)
    requires
        is_chosen_seed(first, candidates, policy),
        is_chosen_seed(second, candidates, policy),
    ensures
        first == second,
{
    let i = choose|i: int|
        {
            &&& 0 <= i < candidates.len()
            &&& first == (#[trigger] candidates[i]).color
            &&& none_suits(candidates, i, policy)
            &&& suits(candidates[i].color, policy) || (i == 0 && none_suits(
                candidates,
                candidates.len() as int,
                policy,
            ))
        };
    let j = choose|j: int|
        {
            &&& 0 <= j < candidates.len()
            &&& second == (#[trigger] candidates[j]).color
            &&& none_suits(candidates, j, policy)
            &&& suits(candidates[j].color, policy) || (j == 0 && none_suits(
                candidates,
                candidates.len() as int,
                policy,
            ))
        };
    if i < j {
        assert(!suits(candidates[i].color, policy));
    } else if j < i {
        assert(!suits(candidates[j].color, policy));
    }
}

} // verus!
