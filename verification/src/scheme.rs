//! Colour schemes: one colour for each named role, in a light and a dark mode.

use crate::color::Argb;
use crate::palette::{is_tone_stop, PaletteRole, Palettes};
use vstd::pervasive::unreached;
use vstd::prelude::*;

verus! {

/// The appearance that a scheme is for.
#[derive(Clone, Copy, Debug, PartialEq, Eq, Structural)]
pub enum Mode {
    Light,
    Dark,
}

/// The named roles of a scheme.
#[derive(Clone, Copy, Debug, PartialEq, Eq, Structural)]
pub enum ColorRole {
    Primary,
    OnPrimary,
    PrimaryContainer,
    OnPrimaryContainer,
    InversePrimary,
    Secondary,
    OnSecondary,
    SecondaryContainer,
    OnSecondaryContainer,
    Tertiary,
    OnTertiary,
    TertiaryContainer,
    OnTertiaryContainer,
    Error,
    OnError,
    ErrorContainer,
    OnErrorContainer,
    Background,
    OnBackground,
    Surface,
    OnSurface,
    SurfaceDim,
    SurfaceBright,
    SurfaceContainer,
    SurfaceVariant,
    OnSurfaceVariant,
    InverseSurface,
    InverseOnSurface,
    Outline,
    OutlineVariant,
    Shadow,
    Scrim,
}

/// The number of roles.
pub const ROLE_COUNT: usize = 32;

/// The palette that a role takes its colour from.
pub open spec fn role_palette(role: ColorRole) -> PaletteRole {
    match role {
        ColorRole::Primary => PaletteRole::Primary,
        ColorRole::OnPrimary => PaletteRole::Primary,
        ColorRole::PrimaryContainer => PaletteRole::Primary,
        ColorRole::OnPrimaryContainer => PaletteRole::Primary,
        ColorRole::InversePrimary => PaletteRole::Primary,
        ColorRole::Secondary => PaletteRole::Secondary,
        ColorRole::OnSecondary => PaletteRole::Secondary,
        ColorRole::SecondaryContainer => PaletteRole::Secondary,
        ColorRole::OnSecondaryContainer => PaletteRole::Secondary,
        ColorRole::Tertiary => PaletteRole::Tertiary,
        ColorRole::OnTertiary => PaletteRole::Tertiary,
        ColorRole::TertiaryContainer => PaletteRole::Tertiary,
        ColorRole::OnTertiaryContainer => PaletteRole::Tertiary,
        ColorRole::Error => PaletteRole::Error,
        ColorRole::OnError => PaletteRole::Error,
        ColorRole::ErrorContainer => PaletteRole::Error,
        ColorRole::OnErrorContainer => PaletteRole::Error,
        ColorRole::Background => PaletteRole::Neutral,
        ColorRole::OnBackground => PaletteRole::Neutral,
        ColorRole::Surface => PaletteRole::Neutral,
        ColorRole::OnSurface => PaletteRole::Neutral,
        ColorRole::SurfaceDim => PaletteRole::Neutral,
        ColorRole::SurfaceBright => PaletteRole::Neutral,
        ColorRole::SurfaceContainer => PaletteRole::Neutral,
        ColorRole::SurfaceVariant => PaletteRole::NeutralVariant,
        ColorRole::OnSurfaceVariant => PaletteRole::NeutralVariant,
        ColorRole::InverseSurface => PaletteRole::Neutral,
        ColorRole::InverseOnSurface => PaletteRole::Neutral,
        ColorRole::Outline => PaletteRole::NeutralVariant,
        ColorRole::OutlineVariant => PaletteRole::NeutralVariant,
        ColorRole::Shadow => PaletteRole::Neutral,
        ColorRole::Scrim => PaletteRole::Neutral,
    }
}

/// The tone at which a role samples its palette.
pub open spec fn role_tone(mode: Mode, role: ColorRole) -> u8 {
    match mode {
        Mode::Light => match role {
            ColorRole::Primary => 40,
            ColorRole::OnPrimary => 100,
            ColorRole::PrimaryContainer => 90,
            ColorRole::OnPrimaryContainer => 10,
            ColorRole::InversePrimary => 80,
            ColorRole::Secondary => 40,
            ColorRole::OnSecondary => 100,
            ColorRole::SecondaryContainer => 90,
            ColorRole::OnSecondaryContainer => 10,
            ColorRole::Tertiary => 40,
            ColorRole::OnTertiary => 100,
            ColorRole::TertiaryContainer => 90,
            ColorRole::OnTertiaryContainer => 10,
            ColorRole::Error => 40,
            ColorRole::OnError => 100,
            ColorRole::ErrorContainer => 90,
            ColorRole::OnErrorContainer => 10,
            ColorRole::Background => 99,
            ColorRole::OnBackground => 10,
            ColorRole::Surface => 99,
            ColorRole::OnSurface => 10,
            ColorRole::SurfaceDim => 85,
            ColorRole::SurfaceBright => 99,
            ColorRole::SurfaceContainer => 95,
            ColorRole::SurfaceVariant => 90,
            ColorRole::OnSurfaceVariant => 30,
            ColorRole::InverseSurface => 20,
            ColorRole::InverseOnSurface => 95,
            ColorRole::Outline => 50,
            ColorRole::OutlineVariant => 80,
            ColorRole::Shadow => 0,
            ColorRole::Scrim => 0,
        },
        Mode::Dark => match role {
            ColorRole::Primary => 80,
            ColorRole::OnPrimary => 20,
            ColorRole::PrimaryContainer => 30,
            ColorRole::OnPrimaryContainer => 90,
            ColorRole::InversePrimary => 40,
            ColorRole::Secondary => 80,
            ColorRole::OnSecondary => 20,
            ColorRole::SecondaryContainer => 30,
            ColorRole::OnSecondaryContainer => 90,
            ColorRole::Tertiary => 80,
            ColorRole::OnTertiary => 20,
            ColorRole::TertiaryContainer => 30,
            ColorRole::OnTertiaryContainer => 90,
            ColorRole::Error => 80,
            ColorRole::OnError => 20,
            ColorRole::ErrorContainer => 30,
            ColorRole::OnErrorContainer => 90,
            ColorRole::Background => 5,
            ColorRole::OnBackground => 90,
            ColorRole::Surface => 5,
            ColorRole::OnSurface => 90,
            ColorRole::SurfaceDim => 5,
            ColorRole::SurfaceBright => 25,
            ColorRole::SurfaceContainer => 10,
            ColorRole::SurfaceVariant => 30,
            ColorRole::OnSurfaceVariant => 80,
            ColorRole::InverseSurface => 90,
            ColorRole::InverseOnSurface => 20,
            ColorRole::Outline => 60,
            ColorRole::OutlineVariant => 30,
            ColorRole::Shadow => 0,
            ColorRole::Scrim => 0,
        },
    }
}

/// The colour that a role has when the scheme is built on these palettes.
pub open spec fn role_color(palettes: Palettes, mode: Mode, role: ColorRole) -> Argb {
    palettes.palette(role_palette(role)).color(role_tone(mode, role))
}

/// Every tone of the table is one at which the palettes are sampled.
pub proof fn lemma_role_tone_is_stop(mode: Mode, role: ColorRole)
    ensures
        is_tone_stop(role_tone(mode, role) as int),
{
}

/// The palette that a role takes its colour from.
pub fn palette_of(role: ColorRole) -> (palette: PaletteRole)
    ensures
        palette == role_palette(role),
{
    match role {
        ColorRole::Primary => PaletteRole::Primary,
        ColorRole::OnPrimary => PaletteRole::Primary,
        ColorRole::PrimaryContainer => PaletteRole::Primary,
        ColorRole::OnPrimaryContainer => PaletteRole::Primary,
        ColorRole::InversePrimary => PaletteRole::Primary,
        ColorRole::Secondary => PaletteRole::Secondary,
        ColorRole::OnSecondary => PaletteRole::Secondary,
        ColorRole::SecondaryContainer => PaletteRole::Secondary,
        ColorRole::OnSecondaryContainer => PaletteRole::Secondary,
        ColorRole::Tertiary => PaletteRole::Tertiary,
        ColorRole::OnTertiary => PaletteRole::Tertiary,
        ColorRole::TertiaryContainer => PaletteRole::Tertiary,
        ColorRole::OnTertiaryContainer => PaletteRole::Tertiary,
        ColorRole::Error => PaletteRole::Error,
        ColorRole::OnError => PaletteRole::Error,
        ColorRole::ErrorContainer => PaletteRole::Error,
        ColorRole::OnErrorContainer => PaletteRole::Error,
        ColorRole::Background => PaletteRole::Neutral,
        ColorRole::OnBackground => PaletteRole::Neutral,
        ColorRole::Surface => PaletteRole::Neutral,
        ColorRole::OnSurface => PaletteRole::Neutral,
        ColorRole::SurfaceDim => PaletteRole::Neutral,
        ColorRole::SurfaceBright => PaletteRole::Neutral,
        ColorRole::SurfaceContainer => PaletteRole::Neutral,
        ColorRole::SurfaceVariant => PaletteRole::NeutralVariant,
        ColorRole::OnSurfaceVariant => PaletteRole::NeutralVariant,
        ColorRole::InverseSurface => PaletteRole::Neutral,
        ColorRole::InverseOnSurface => PaletteRole::Neutral,
        ColorRole::Outline => PaletteRole::NeutralVariant,
        ColorRole::OutlineVariant => PaletteRole::NeutralVariant,
        ColorRole::Shadow => PaletteRole::Neutral,
        ColorRole::Scrim => PaletteRole::Neutral,
    }
}

/// The tone at which a role samples its palette.
pub fn tone_of(mode: Mode, role: ColorRole) -> (tone: u8)
    ensures
        tone == role_tone(mode, role),
{
    match mode {
        Mode::Light => match role {
            ColorRole::Primary => 40,
            ColorRole::OnPrimary => 100,
            ColorRole::PrimaryContainer => 90,
            ColorRole::OnPrimaryContainer => 10,
            ColorRole::InversePrimary => 80,
            ColorRole::Secondary => 40,
            ColorRole::OnSecondary => 100,
            ColorRole::SecondaryContainer => 90,
            ColorRole::OnSecondaryContainer => 10,
            ColorRole::Tertiary => 40,
            ColorRole::OnTertiary => 100,
            ColorRole::TertiaryContainer => 90,
            ColorRole::OnTertiaryContainer => 10,
            ColorRole::Error => 40,
            ColorRole::OnError => 100,
            ColorRole::ErrorContainer => 90,
            ColorRole::OnErrorContainer => 10,
            ColorRole::Background => 99,
            ColorRole::OnBackground => 10,
            ColorRole::Surface => 99,
            ColorRole::OnSurface => 10,
            ColorRole::SurfaceDim => 85,
            ColorRole::SurfaceBright => 99,
            ColorRole::SurfaceContainer => 95,
            ColorRole::SurfaceVariant => 90,
            ColorRole::OnSurfaceVariant => 30,
            ColorRole::InverseSurface => 20,
            ColorRole::InverseOnSurface => 95,
            ColorRole::Outline => 50,
            ColorRole::OutlineVariant => 80,
            ColorRole::Shadow => 0,
            ColorRole::Scrim => 0,
        },
        Mode::Dark => match role {
            ColorRole::Primary => 80,
            ColorRole::OnPrimary => 20,
            ColorRole::PrimaryContainer => 30,
            ColorRole::OnPrimaryContainer => 90,
            ColorRole::InversePrimary => 40,
            ColorRole::Secondary => 80,
            ColorRole::OnSecondary => 20,
            ColorRole::SecondaryContainer => 30,
            ColorRole::OnSecondaryContainer => 90,
            ColorRole::Tertiary => 80,
            ColorRole::OnTertiary => 20,
            ColorRole::TertiaryContainer => 30,
            ColorRole::OnTertiaryContainer => 90,
            ColorRole::Error => 80,
            ColorRole::OnError => 20,
            ColorRole::ErrorContainer => 30,
            ColorRole::OnErrorContainer => 90,
            ColorRole::Background => 5,
            ColorRole::OnBackground => 90,
            ColorRole::Surface => 5,
            ColorRole::OnSurface => 90,
            ColorRole::SurfaceDim => 5,
            ColorRole::SurfaceBright => 25,
            ColorRole::SurfaceContainer => 10,
            ColorRole::SurfaceVariant => 30,
            ColorRole::OnSurfaceVariant => 80,
            ColorRole::InverseSurface => 90,
            ColorRole::InverseOnSurface => 20,
            ColorRole::Outline => 60,
            ColorRole::OutlineVariant => 30,
            ColorRole::Shadow => 0,
            ColorRole::Scrim => 0,
        },
    }
}

/// One colour for each role.
#[derive(Clone, Copy, Debug, PartialEq, Eq, Structural)]
pub struct Scheme {
    pub primary: Argb,
    pub on_primary: Argb,
    pub primary_container: Argb,
    pub on_primary_container: Argb,
    pub inverse_primary: Argb,
    pub secondary: Argb,
    pub on_secondary: Argb,
    pub secondary_container: Argb,
    pub on_secondary_container: Argb,
    pub tertiary: Argb,
    pub on_tertiary: Argb,
    pub tertiary_container: Argb,
    pub on_tertiary_container: Argb,
    pub error: Argb,
    pub on_error: Argb,
    pub error_container: Argb,
    pub on_error_container: Argb,
    pub background: Argb,
    pub on_background: Argb,
    pub surface: Argb,
    pub on_surface: Argb,
    pub surface_dim: Argb,
    pub surface_bright: Argb,
    pub surface_container: Argb,
    pub surface_variant: Argb,
    pub on_surface_variant: Argb,
    pub inverse_surface: Argb,
    pub inverse_on_surface: Argb,
    pub outline: Argb,
    pub outline_variant: Argb,
    pub shadow: Argb,
    pub scrim: Argb,
}

impl Scheme {
    /// The colour of a role.
    pub open spec fn color(self, role: ColorRole) -> Argb {
        match role {
            ColorRole::Primary => self.primary,
            ColorRole::OnPrimary => self.on_primary,
            ColorRole::PrimaryContainer => self.primary_container,
            ColorRole::OnPrimaryContainer => self.on_primary_container,
            ColorRole::InversePrimary => self.inverse_primary,
            ColorRole::Secondary => self.secondary,
            ColorRole::OnSecondary => self.on_secondary,
            ColorRole::SecondaryContainer => self.secondary_container,
            ColorRole::OnSecondaryContainer => self.on_secondary_container,
            ColorRole::Tertiary => self.tertiary,
            ColorRole::OnTertiary => self.on_tertiary,
            ColorRole::TertiaryContainer => self.tertiary_container,
            ColorRole::OnTertiaryContainer => self.on_tertiary_container,
            ColorRole::Error => self.error,
            ColorRole::OnError => self.on_error,
            ColorRole::ErrorContainer => self.error_container,
            ColorRole::OnErrorContainer => self.on_error_container,
            ColorRole::Background => self.background,
            ColorRole::OnBackground => self.on_background,
            ColorRole::Surface => self.surface,
            ColorRole::OnSurface => self.on_surface,
            ColorRole::SurfaceDim => self.surface_dim,
            ColorRole::SurfaceBright => self.surface_bright,
            ColorRole::SurfaceContainer => self.surface_container,
            ColorRole::SurfaceVariant => self.surface_variant,
            ColorRole::OnSurfaceVariant => self.on_surface_variant,
            ColorRole::InverseSurface => self.inverse_surface,
            ColorRole::InverseOnSurface => self.inverse_on_surface,
            ColorRole::Outline => self.outline,
            ColorRole::OutlineVariant => self.outline_variant,
            ColorRole::Shadow => self.shadow,
            ColorRole::Scrim => self.scrim,
        }
    }

    /// The colour of a role.
    pub fn get(&self, role: ColorRole) -> (color: Argb)
        ensures
            color == self.color(role),
    {
        match role {
            ColorRole::Primary => self.primary,
            ColorRole::OnPrimary => self.on_primary,
            ColorRole::PrimaryContainer => self.primary_container,
            ColorRole::OnPrimaryContainer => self.on_primary_container,
            ColorRole::InversePrimary => self.inverse_primary,
            ColorRole::Secondary => self.secondary,
            ColorRole::OnSecondary => self.on_secondary,
            ColorRole::SecondaryContainer => self.secondary_container,
            ColorRole::OnSecondaryContainer => self.on_secondary_container,
            ColorRole::Tertiary => self.tertiary,
            ColorRole::OnTertiary => self.on_tertiary,
            ColorRole::TertiaryContainer => self.tertiary_container,
            ColorRole::OnTertiaryContainer => self.on_tertiary_container,
            ColorRole::Error => self.error,
            ColorRole::OnError => self.on_error,
            ColorRole::ErrorContainer => self.error_container,
            ColorRole::OnErrorContainer => self.on_error_container,
            ColorRole::Background => self.background,
            ColorRole::OnBackground => self.on_background,
            ColorRole::Surface => self.surface,
            ColorRole::OnSurface => self.on_surface,
            ColorRole::SurfaceDim => self.surface_dim,
            ColorRole::SurfaceBright => self.surface_bright,
            ColorRole::SurfaceContainer => self.surface_container,
            ColorRole::SurfaceVariant => self.surface_variant,
            ColorRole::OnSurfaceVariant => self.on_surface_variant,
            ColorRole::InverseSurface => self.inverse_surface,
            ColorRole::InverseOnSurface => self.inverse_on_surface,
            ColorRole::Outline => self.outline,
            ColorRole::OutlineVariant => self.outline_variant,
            ColorRole::Shadow => self.shadow,
            ColorRole::Scrim => self.scrim,
        }
    }
}

/// Looks one role up: its palette, at its tone.
fn sample(palettes: &Palettes, mode: Mode, role: ColorRole) -> (color: Argb)
    ensures
        color == role_color(*palettes, mode, role),
{
    proof {
        lemma_role_tone_is_stop(mode, role);
    }
    match palettes.get(palette_of(role)).tone(tone_of(mode, role)) {
        Some(color) => color,
        None => unreached(),
    }
}

/// The scheme of a mode: every role gets the colour that its palette holds at the tone
/// which the table gives the role in that mode. No role is left out.
pub fn build_scheme(palettes: &Palettes, mode: Mode) -> (scheme: Scheme)
    ensures
        forall|role: ColorRole| #[trigger] scheme.color(role) == role_color(*palettes, mode, role),
{
    let scheme = Scheme {
        primary: sample(palettes, mode, ColorRole::Primary),
        on_primary: sample(palettes, mode, ColorRole::OnPrimary),
        primary_container: sample(palettes, mode, ColorRole::PrimaryContainer),
        on_primary_container: sample(palettes, mode, ColorRole::OnPrimaryContainer),
        inverse_primary: sample(palettes, mode, ColorRole::InversePrimary),
        secondary: sample(palettes, mode, ColorRole::Secondary),
        on_secondary: sample(palettes, mode, ColorRole::OnSecondary),
        secondary_container: sample(palettes, mode, ColorRole::SecondaryContainer),
        on_secondary_container: sample(palettes, mode, ColorRole::OnSecondaryContainer),
        tertiary: sample(palettes, mode, ColorRole::Tertiary),
        on_tertiary: sample(palettes, mode, ColorRole::OnTertiary),
        tertiary_container: sample(palettes, mode, ColorRole::TertiaryContainer),
        on_tertiary_container: sample(palettes, mode, ColorRole::OnTertiaryContainer),
        error: sample(palettes, mode, ColorRole::Error),
        on_error: sample(palettes, mode, ColorRole::OnError),
        error_container: sample(palettes, mode, ColorRole::ErrorContainer),
        on_error_container: sample(palettes, mode, ColorRole::OnErrorContainer),
        background: sample(palettes, mode, ColorRole::Background),
        on_background: sample(palettes, mode, ColorRole::OnBackground),
        surface: sample(palettes, mode, ColorRole::Surface),
        on_surface: sample(palettes, mode, ColorRole::OnSurface),
        surface_dim: sample(palettes, mode, ColorRole::SurfaceDim),
        surface_bright: sample(palettes, mode, ColorRole::SurfaceBright),
        surface_container: sample(palettes, mode, ColorRole::SurfaceContainer),
        surface_variant: sample(palettes, mode, ColorRole::SurfaceVariant),
        on_surface_variant: sample(palettes, mode, ColorRole::OnSurfaceVariant),
        inverse_surface: sample(palettes, mode, ColorRole::InverseSurface),
        inverse_on_surface: sample(palettes, mode, ColorRole::InverseOnSurface),
        outline: sample(palettes, mode, ColorRole::Outline),
        outline_variant: sample(palettes, mode, ColorRole::OutlineVariant),
        shadow: sample(palettes, mode, ColorRole::Shadow),
        scrim: sample(palettes, mode, ColorRole::Scrim),
    };
    assert forall|role: ColorRole| #[trigger] scheme.color(role) == role_color(
        *palettes,
        mode,
        role,
    ) by {
        match role {
            ColorRole::Primary => {},
            ColorRole::OnPrimary => {},
            ColorRole::PrimaryContainer => {},
            ColorRole::OnPrimaryContainer => {},
            ColorRole::InversePrimary => {},
            ColorRole::Secondary => {},
            ColorRole::OnSecondary => {},
            ColorRole::SecondaryContainer => {},
            ColorRole::OnSecondaryContainer => {},
            ColorRole::Tertiary => {},
            ColorRole::OnTertiary => {},
            ColorRole::TertiaryContainer => {},
            ColorRole::OnTertiaryContainer => {},
            ColorRole::Error => {},
            ColorRole::OnError => {},
            ColorRole::ErrorContainer => {},
            ColorRole::OnErrorContainer => {},
            ColorRole::Background => {},
            ColorRole::OnBackground => {},
            ColorRole::Surface => {},
            ColorRole::OnSurface => {},
            ColorRole::SurfaceDim => {},
            ColorRole::SurfaceBright => {},
            ColorRole::SurfaceContainer => {},
            ColorRole::SurfaceVariant => {},
            ColorRole::OnSurfaceVariant => {},
            ColorRole::InverseSurface => {},
            ColorRole::InverseOnSurface => {},
            ColorRole::Outline => {},
            ColorRole::OutlineVariant => {},
            ColorRole::Shadow => {},
            ColorRole::Scrim => {},
        }
    }
    scheme
}

} // verus!
