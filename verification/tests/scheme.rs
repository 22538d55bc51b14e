use material_theme::color::Argb;
use material_theme::hct::to_hct;
use material_theme::palette::{stop_index, PaletteRole, Palettes};
use material_theme::scheme::{build_scheme, palette_of, tone_of, ColorRole, Mode, ROLE_COUNT};

const ROLES: [ColorRole; 32] = [
    ColorRole::Primary,
    ColorRole::OnPrimary,
    ColorRole::PrimaryContainer,
    ColorRole::OnPrimaryContainer,
    ColorRole::InversePrimary,
    ColorRole::Secondary,
    ColorRole::OnSecondary,
    ColorRole::SecondaryContainer,
    ColorRole::OnSecondaryContainer,
    ColorRole::Tertiary,
    ColorRole::OnTertiary,
    ColorRole::TertiaryContainer,
    ColorRole::OnTertiaryContainer,
    ColorRole::Error,
    ColorRole::OnError,
    ColorRole::ErrorContainer,
    ColorRole::OnErrorContainer,
    ColorRole::Background,
    ColorRole::OnBackground,
    ColorRole::Surface,
    ColorRole::OnSurface,
    ColorRole::SurfaceDim,
    ColorRole::SurfaceBright,
    ColorRole::SurfaceContainer,
    ColorRole::SurfaceVariant,
    ColorRole::OnSurfaceVariant,
    ColorRole::InverseSurface,
    ColorRole::InverseOnSurface,
    ColorRole::Outline,
    ColorRole::OutlineVariant,
    ColorRole::Shadow,
    ColorRole::Scrim,
];

#[test]
fn there_are_32_roles() {
    assert_eq!(ROLE_COUNT, 32);
    for (i, a) in ROLES.iter().enumerate() {
        for b in &ROLES[..i] {
            assert_ne!(a, b);
        }
    }
}

#[test]
fn accents_sit_at_40_in_light_and_80_in_dark() {
    for (role, palette) in [
        (ColorRole::Primary, PaletteRole::Primary),
        (ColorRole::Secondary, PaletteRole::Secondary),
        (ColorRole::Tertiary, PaletteRole::Tertiary),
        (ColorRole::Error, PaletteRole::Error),
    ] {
        assert_eq!(palette_of(role), palette);
        assert_eq!(tone_of(Mode::Light, role), 40);
        assert_eq!(tone_of(Mode::Dark, role), 80);
    }
}

#[test]
fn what_is_drawn_on_accents_sits_at_100_and_20() {
    for (role, palette) in [
        (ColorRole::OnPrimary, PaletteRole::Primary),
        (ColorRole::OnSecondary, PaletteRole::Secondary),
        (ColorRole::OnTertiary, PaletteRole::Tertiary),
        (ColorRole::OnError, PaletteRole::Error),
    ] {
        assert_eq!(palette_of(role), palette);
        assert_eq!(tone_of(Mode::Light, role), 100);
        assert_eq!(tone_of(Mode::Dark, role), 20);
    }
}

#[test]
fn containers_sit_at_90_and_30() {
    for (role, on, palette) in [
        (ColorRole::PrimaryContainer, ColorRole::OnPrimaryContainer, PaletteRole::Primary),
        (ColorRole::SecondaryContainer, ColorRole::OnSecondaryContainer, PaletteRole::Secondary),
        (ColorRole::TertiaryContainer, ColorRole::OnTertiaryContainer, PaletteRole::Tertiary),
        (ColorRole::ErrorContainer, ColorRole::OnErrorContainer, PaletteRole::Error),
    ] {
        assert_eq!(palette_of(role), palette);
        assert_eq!(palette_of(on), palette);
        assert_eq!((tone_of(Mode::Light, role), tone_of(Mode::Dark, role)), (90, 30));
        assert_eq!((tone_of(Mode::Light, on), tone_of(Mode::Dark, on)), (10, 90));
    }
}

#[test]
fn surfaces_come_from_the_neutral_palettes() {
    let expected = [
        (ColorRole::Background, PaletteRole::Neutral, 99, 5),
        (ColorRole::OnBackground, PaletteRole::Neutral, 10, 90),
        (ColorRole::Surface, PaletteRole::Neutral, 99, 5),
        (ColorRole::OnSurface, PaletteRole::Neutral, 10, 90),
        (ColorRole::SurfaceDim, PaletteRole::Neutral, 85, 5),
        (ColorRole::SurfaceBright, PaletteRole::Neutral, 99, 25),
        (ColorRole::SurfaceContainer, PaletteRole::Neutral, 95, 10),
        (ColorRole::SurfaceVariant, PaletteRole::NeutralVariant, 90, 30),
        (ColorRole::OnSurfaceVariant, PaletteRole::NeutralVariant, 30, 80),
        (ColorRole::InverseSurface, PaletteRole::Neutral, 20, 90),
        (ColorRole::InverseOnSurface, PaletteRole::Neutral, 95, 20),
        (ColorRole::Outline, PaletteRole::NeutralVariant, 50, 60),
        (ColorRole::OutlineVariant, PaletteRole::NeutralVariant, 80, 30),
        (ColorRole::Shadow, PaletteRole::Neutral, 0, 0),
        (ColorRole::Scrim, PaletteRole::Neutral, 0, 0),
        (ColorRole::InversePrimary, PaletteRole::Primary, 80, 40),
    ];
    for (role, palette, light, dark) in expected {
        assert_eq!(palette_of(role), palette, "{:?}", role);
        assert_eq!(tone_of(Mode::Light, role), light, "{:?}", role);
        assert_eq!(tone_of(Mode::Dark, role), dark, "{:?}", role);
    }
}

#[test]
fn every_tone_of_the_table_is_a_stop() {
    for mode in [Mode::Light, Mode::Dark] {
        for role in ROLES {
            assert!(stop_index(tone_of(mode, role)).is_some());
        }
    }
}

#[test]
fn every_role_of_a_scheme_has_its_color() {
    for seed in [Argb::opaque(0, 0, 255), Argb::opaque(255, 0, 0), Argb::opaque(128, 128, 128), Argb::opaque(20, 200, 90)] {
        let palettes = Palettes::of_seed(to_hct(seed));
        for mode in [Mode::Light, Mode::Dark] {
            let scheme = build_scheme(&palettes, mode);
            for role in ROLES {
                let expected = palettes.get(palette_of(role)).tone(tone_of(mode, role));
                assert_eq!(Some(scheme.get(role)), expected, "{:?} {:?}", mode, role);
                assert_eq!(scheme.get(role).alpha, 255);
            }
        }
    }
}

#[test]
fn roles_are_the_fields_of_a_scheme() {
    let palettes = Palettes::of_seed(to_hct(Argb::opaque(0, 0, 255)));
    let s = build_scheme(&palettes, Mode::Light);
    assert_eq!(s.get(ColorRole::Primary), s.primary);
    assert_eq!(s.get(ColorRole::OnPrimaryContainer), s.on_primary_container);
    assert_eq!(s.get(ColorRole::SurfaceDim), s.surface_dim);
    assert_eq!(s.get(ColorRole::InverseOnSurface), s.inverse_on_surface);
    assert_eq!(s.get(ColorRole::Scrim), s.scrim);
    assert_eq!(s.primary.to_hex(), "#353cff");
    assert_eq!(s.on_primary.to_hex(), "#ffffff");
    assert_eq!(s.error.to_hex(), "#ba1a1a");
    assert_eq!(s.shadow.to_hex(), "#000000");
    let d = build_scheme(&palettes, Mode::Dark);
    assert_eq!(d.primary.to_hex(), "#bfc2ff");
    assert_eq!(d.inverse_primary.to_hex(), "#353cff");
    assert_eq!(d.on_error.to_hex(), "#690005");
}
