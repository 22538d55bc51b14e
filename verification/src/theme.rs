//! Themes: a seed, its palettes, and the light and the dark scheme built on them.

use crate::color::{hex_color, is_hex_color, Argb};
use crate::error::InvalidInput;
use crate::hct::{to_hct, Hct};
use crate::palette::Palettes;
use crate::quantize::{is_quantization, lemma_quantization_unique, quantize};
use crate::weighted::WeightedColor;
use crate::scheme::{build_scheme, role_color, ColorRole, Mode, Scheme};
use crate::seed::{is_chosen_seed, lemma_chosen_seed_unique, select_seed, SeedPolicy};
use vstd::prelude::*;

verus! {

/// The number of colours that an image is reduced to before its seed is chosen.
pub const IMAGE_COLORS: usize = 128;

/// A seed with all that is derived from it.
#[derive(Debug)]
pub struct Theme {
    /// The colour that the theme was made from.
    pub seed: Argb,
    /// The coordinates of the seed.
    pub source: Hct,
    pub palettes: Palettes,
    pub light: Scheme,
    pub dark: Scheme,
}

impl Theme {
    /// Whether this is the theme of a seed: the coordinates are the seed's, each palette
    /// has the hue and chroma that they give its role, and each scheme holds for every
    /// role the colour of its palette at its tone.
    pub open spec fn is_of(self, seed: Argb) -> bool {
        &&& self.seed == seed
        &&& self.source.is_of_color(seed)
        &&& self.palettes.derived_from(self.source)
        &&& forall|role: ColorRole| #[trigger]
            self.light.color(role) == role_color(self.palettes, Mode::Light, role)
        &&& forall|role: ColorRole| #[trigger]
            self.dark.color(role) == role_color(self.palettes, Mode::Dark, role)
    }

    /// The scheme of a mode.
    pub open spec fn of_mode(self, mode: Mode) -> Scheme {
        match mode {
            Mode::Light => self.light,
            Mode::Dark => self.dark,
        }
    }

    /// The scheme of a mode.
    pub fn scheme(&self, mode: Mode) -> (scheme: &Scheme)
        ensures
            *scheme == self.of_mode(mode),
    {
        match mode {
            Mode::Light => &self.light,
            Mode::Dark => &self.dark,
        }
    }
}

/// The theme of a seed colour.
pub fn theme_from_seed(seed: Argb) -> (theme: Theme)
    ensures
        theme.is_of(seed),
{
    let source = to_hct(seed);
    let palettes = Palettes::of_seed(source);
    let light = build_scheme(&palettes, Mode::Light);
    let dark = build_scheme(&palettes, Mode::Dark);
    Theme { seed, source, palettes, light, dark }
}

/// Whether `seed` is the seed of an image: the one chosen among the colours that its
/// pixels are reduced to.
pub open spec fn is_image_seed(seed: Argb, pixels: Seq<Argb>, max_colors: int, policy: SeedPolicy) -> bool {
    exists|colors: Seq<WeightedColor>| #[trigger]
        is_quantization(colors, pixels, max_colors) && is_chosen_seed(seed, colors, policy)
}

/// The seed of an image is fixed by its pixels, in whatever order they come.
pub proof fn lemma_image_seed_unique(
    first: Argb,
    second: Argb,
    pixels: Seq<Argb>,
    shuffled: Seq<Argb>,
    max_colors: int,
    policy: SeedPolicy,
)
    requires
        pixels.to_multiset() == shuffled.to_multiset(),
        is_image_seed(first, pixels, max_colors, policy),
        is_image_seed(second, shuffled, max_colors, policy),
    ensures
        first == second,
{
    let a = choose|colors: Seq<WeightedColor>| #[trigger]
        is_quantization(colors, pixels, max_colors) && is_chosen_seed(first, colors, policy);
    let b = choose|colors: Seq<WeightedColor>| #[trigger]
        is_quantization(colors, shuffled, max_colors) && is_chosen_seed(second, colors, policy);
    lemma_quantization_unique(a, b, pixels, shuffled, max_colors);
    lemma_chosen_seed_unique(first, second, a, policy);
}

/// The theme of an image, given as its pixels: that of the seed chosen among the colours
/// that the image is reduced to. An image without pixels is refused.
pub fn theme_from_image_with(pixels: &Vec<Argb>, max_colors: usize, policy: &SeedPolicy) -> (result: Result<
    Theme,
    InvalidInput,
>)
    requires
        max_colors > 0,
    ensures
        result is Err <==> pixels@.len() == 0,
        result matches Err(e) ==> e == InvalidInput::EmptyImage,
        result matches Ok(theme) ==> is_image_seed(theme.seed, pixels@, max_colors as int, *policy)
            && theme.is_of(theme.seed),
{
    match quantize(pixels, max_colors) {
        Ok(colors) => {
            let seed = select_seed(&colors, policy);
            let theme = theme_from_seed(seed);
            assert(is_quantization(colors@, pixels@, max_colors as int));
            Ok(theme)
        },
        Err(e) => Err(e),
    }
}

/// The theme of an image, reduced to 128 colours, with the seed chosen by the default
/// policy.
pub fn theme_from_image(pixels: &Vec<Argb>) -> (result: Result<Theme, InvalidInput>)
    ensures
        result is Err <==> pixels@.len() == 0,
        result matches Err(e) ==> e == InvalidInput::EmptyImage,
        result matches Ok(theme) ==> is_image_seed(
            theme.seed,
            pixels@,
            IMAGE_COLORS as int,
            (SeedPolicy { min_chroma: 5, min_tone: 10, max_tone: 90 }),
        ) && theme.is_of(theme.seed),
{
    let policy = SeedPolicy::default();
    theme_from_image_with(pixels, IMAGE_COLORS, &policy)
}

/// The theme of a seed colour written in hexadecimal notation. Text that is no colour is
/// refused.
pub fn theme_from_text(text: &str) -> (result: Result<Theme, InvalidInput>)
    ensures
        result is Ok <==> is_hex_color(text@),
        result matches Ok(theme) ==> theme.is_of(hex_color(text@)),
        result matches Err(e) ==> e == InvalidInput::MalformedColor,
{
    match Argb::parse(text) {
        Ok(seed) => Ok(theme_from_seed(seed)),
        Err(e) => Err(e),
    }
}

} // verus!
