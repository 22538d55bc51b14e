//! Tonal palettes: one hue and chroma, sampled at fixed tones.

use crate::color::Argb;
use crate::hct::{solved_color, to_argb, Hct};
use vstd::prelude::*;

verus! {

/// The six palettes of a theme.
#[derive(Clone, Copy, Debug, PartialEq, Eq, Structural)]
pub enum PaletteRole {
    Primary,
    Secondary,
    Tertiary,
    Neutral,
    NeutralVariant,
    Error,
}

/// The number of tones at which a palette is sampled.
pub const STOP_COUNT: usize = 22;

/// The tones at which a palette is sampled: every fifth up to 95, then 99 and 100.
pub open spec fn tone_stop(index: int) -> int {
    if index < 20 {
        5 * index
    } else if index == 20 {
        99
    } else {
        100
    }
}

/// Whether a palette is sampled at this tone.
pub open spec fn is_tone_stop(tone: int) -> bool {
    (0 <= tone <= 95 && tone % 5 == 0) || tone == 99 || tone == 100
}

/// The hue of the palette that a seed gives for a role, on the circle. The tertiary
/// palette is turned by sixty degrees; the error palette ignores the seed.
pub open spec fn role_hue(seed: Hct, role: PaletteRole) -> int {
    match role {
        PaletteRole::Tertiary => (seed.hue() + 60) % 360,
        PaletteRole::Error => 25,
        _ => seed.hue() as int,
    }
}

/// The chroma of the palette that a seed gives for a role. Only the primary palette
/// follows the seed, and never goes below 48.
pub open spec fn role_chroma(seed: Hct, role: PaletteRole) -> int {
    match role {
        PaletteRole::Primary => if seed.chroma() > 48 {
            seed.chroma() as int
        } else {
            48
        },
        PaletteRole::Secondary => 16,
        PaletteRole::Tertiary => 24,
        PaletteRole::Neutral => 4,
        PaletteRole::NeutralVariant => 8,
        PaletteRole::Error => 84,
    }
}

/// The tone of the stop with this index.
pub fn stop_tone(index: usize) -> (tone: u8)
    requires
        index < STOP_COUNT,
    ensures
        tone as int == tone_stop(index as int),
        is_tone_stop(tone as int),
{
    if index < 20 {
        (5 * index) as u8
    } else if index == 20 {
        99
    } else {
        100
    }
}

/// The index of the stop with this tone, if there is one.
pub fn stop_index(tone: u8) -> (index: Option<usize>)
    ensures
        index is Some <==> is_tone_stop(tone as int),
        index matches Some(i) ==> i < STOP_COUNT && tone_stop(i as int) == tone as int,
{
    if tone <= 95 {
        if tone % 5 == 0 {
            Some((tone / 5) as usize)
        } else {
            None
        }
    } else if tone == 99 {
        Some(20)
    } else if tone == 100 {
        Some(21)
    } else {
        None
    }
}

/// The colours of one hue and chroma at the fixed tones.
#[derive(Debug)]
pub struct TonalPalette {
    hue: u16,
    chroma: u16,
    colors: Vec<Argb>,
}

impl TonalPalette {
    /// What every palette holds: one colour for each stop, the one that the solver
    /// finds for the palette's hue and chroma at the stop's tone.
    #[verifier::type_invariant]
    spec fn sampled(self) -> bool {
        &&& self.colors@.len() == STOP_COUNT
        &&& forall|i: int|
            0 <= i < STOP_COUNT ==> #[trigger] self.colors@[i] == solved_color(
                self.hue,
                self.chroma,
                tone_stop(i) as u8,
            )
    }

    /// The hue that the palette was made with.
    pub closed spec fn hue(self) -> u16 {
        self.hue
    }

    /// The chroma that the palette was made with.
    pub closed spec fn chroma(self) -> u16 {
        self.chroma
    }

    /// The colour that the palette holds for a tone at which it is sampled.
    pub open spec fn color(self, tone: u8) -> Argb {
        solved_color(self.hue(), self.chroma(), tone)
    }

    /// What the palette answers for a tone: the colour it holds for each of the stops,
    /// nothing for any other tone.
    pub open spec fn at(self, tone: u8) -> Option<Argb> {
        if is_tone_stop(tone as int) {
            Some(self.color(tone))
        } else {
            None
        }
    }

    /// Samples a hue and chroma at every stop.
    pub fn of(hue: u16, chroma: u16) -> (palette: TonalPalette)
        requires
            hue < 360,
        ensures
            palette.hue() == hue,
            palette.chroma() == chroma,
    {
        let mut colors: Vec<Argb> = Vec::new();
        let mut i: usize = 0;
        while i < STOP_COUNT
            invariant
                hue < 360,
                i <= STOP_COUNT,
                colors@.len() == i,
                forall|k: int|
                    0 <= k < i ==> #[trigger] colors@[k] == solved_color(
                        hue,
                        chroma,
                        tone_stop(k) as u8,
                    ),
            decreases STOP_COUNT - i,
        {
            let tone = stop_tone(i);
            colors.push(to_argb(Hct::new(hue, chroma, tone)));
            i += 1;
        }
        TonalPalette { hue, chroma, colors }
    }

    /// The hue that the palette was made with.
    pub fn get_hue(&self) -> (hue: u16)
        ensures
            hue == self.hue(),
    {
        self.hue
    }

    /// The chroma that the palette was made with.
    pub fn get_chroma(&self) -> (chroma: u16)
        ensures
            chroma == self.chroma(),
    {
        self.chroma
    }

    /// The colour at a tone: some colour for each of the stops, none for any other tone.
    pub fn tone(&self, tone: u8) -> (color: Option<Argb>)
        ensures
            color == self.at(tone),
    {
        proof {
            use_type_invariant(self);
        }
        match stop_index(tone) {
            Some(i) => Some(self.colors[i]),
            None => None,
        }
    }
}

/// Whether a palette has the hue and chroma that a seed gives a role.
pub open spec fn is_role_palette(palette: TonalPalette, seed: Hct, role: PaletteRole) -> bool {
    palette.hue() as int == role_hue(seed, role) && palette.chroma() as int == role_chroma(seed, role)
}

/// The palette of a role for a seed: the role's hue and chroma, sampled at every stop.
pub fn from_seed(seed: Hct, role: PaletteRole) -> (palette: TonalPalette)
    ensures
        is_role_palette(palette, seed, role),
{
    let hue = seed.get_hue();
    let chroma = seed.get_chroma();
    match role {
        PaletteRole::Primary => TonalPalette::of(
            hue,
            if chroma > 48 {
                chroma
            } else {
                48
            },
        ),
        PaletteRole::Secondary => TonalPalette::of(hue, 16),
        PaletteRole::Tertiary => TonalPalette::of((hue + 60) % 360, 24),
        PaletteRole::Neutral => TonalPalette::of(hue, 4),
        PaletteRole::NeutralVariant => TonalPalette::of(hue, 8),
        PaletteRole::Error => TonalPalette::of(25, 84),
    }
}

/// One palette for each role.
#[derive(Debug)]
pub struct Palettes {
    pub primary: TonalPalette,
    pub secondary: TonalPalette,
    pub tertiary: TonalPalette,
    pub neutral: TonalPalette,
    pub neutral_variant: TonalPalette,
    pub error: TonalPalette,
}

impl Palettes {
    /// The palette of a role.
    pub open spec fn palette(self, role: PaletteRole) -> TonalPalette {
        match role {
            PaletteRole::Primary => self.primary,
            PaletteRole::Secondary => self.secondary,
            PaletteRole::Tertiary => self.tertiary,
            PaletteRole::Neutral => self.neutral,
            PaletteRole::NeutralVariant => self.neutral_variant,
            PaletteRole::Error => self.error,
        }
    }

    /// Whether each palette has the hue and chroma that the seed gives its role.
    pub open spec fn derived_from(self, seed: Hct) -> bool {
        &&& is_role_palette(self.primary, seed, PaletteRole::Primary)
        &&& is_role_palette(self.secondary, seed, PaletteRole::Secondary)
        &&& is_role_palette(self.tertiary, seed, PaletteRole::Tertiary)
        &&& is_role_palette(self.neutral, seed, PaletteRole::Neutral)
        &&& is_role_palette(self.neutral_variant, seed, PaletteRole::NeutralVariant)
        &&& is_role_palette(self.error, seed, PaletteRole::Error)
    }

    /// All six palettes of a seed.
    pub fn of_seed(seed: Hct) -> (palettes: Palettes)
        ensures
            palettes.derived_from(seed),
    {
        Palettes {
            primary: from_seed(seed, PaletteRole::Primary),
            secondary: from_seed(seed, PaletteRole::Secondary),
            tertiary: from_seed(seed, PaletteRole::Tertiary),
            neutral: from_seed(seed, PaletteRole::Neutral),
            neutral_variant: from_seed(seed, PaletteRole::NeutralVariant),
            error: from_seed(seed, PaletteRole::Error),
        }
    }

    /// The palette of a role.
    pub fn get(&self, role: PaletteRole) -> (palette: &TonalPalette)
        ensures
            *palette == self.palette(role),
    {
        match role {
            PaletteRole::Primary => &self.primary,
            PaletteRole::Secondary => &self.secondary,
            PaletteRole::Tertiary => &self.tertiary,
            PaletteRole::Neutral => &self.neutral,
            PaletteRole::NeutralVariant => &self.neutral_variant,
            PaletteRole::Error => &self.error,
        }
    }
}

} // verus!
