use material_theme::color::Argb;
use material_theme::hct::{to_argb, to_hct, Hct};
use material_theme::palette::{from_seed, stop_index, stop_tone, PaletteRole, Palettes, TonalPalette, STOP_COUNT};

const STOPS: [u8; 22] = [0, 5, 10, 15, 20, 25, 30, 35, 40, 45, 50, 55, 60, 65, 70, 75, 80, 85, 90, 95, 99, 100];

#[test]
fn stops_are_every_fifth_tone_then_99_and_100() {
    assert_eq!(STOP_COUNT, 22);
    for i in 0..STOP_COUNT {
        assert_eq!(stop_tone(i), STOPS[i]);
        assert_eq!(stop_index(STOPS[i]), Some(i));
    }
}

#[test]
fn other_tones_are_no_stops() {
    for tone in 0..=255u8 {
        assert_eq!(stop_index(tone).is_some(), STOPS.contains(&tone), "{}", tone);
    }
}

#[test]
fn a_palette_holds_the_solved_color_of_each_stop() {
    let palette = TonalPalette::of(283, 87);
    assert_eq!((palette.get_hue(), palette.get_chroma()), (283, 87));
    for tone in STOPS {
        assert_eq!(palette.tone(tone), Some(to_argb(Hct::new(283, 87, tone))));
    }
    assert_eq!(palette.tone(40).map(|c| c.to_hex()), Some("#353cff".to_string()));
    assert_eq!(palette.tone(0), Some(Argb::opaque(0, 0, 0)));
    assert_eq!(palette.tone(100), Some(Argb::opaque(255, 255, 255)));
}

#[test]
fn a_palette_has_no_color_between_stops() {
    let palette = TonalPalette::of(10, 20);
    for tone in [1u8, 4, 41, 87, 96, 97, 98, 101, 200, 255] {
        assert_eq!(palette.tone(tone), None);
    }
}

#[test]
fn roles_take_hue_and_chroma_from_the_seed() {
    let seed = Hct::new(283, 87, 32);
    let key = |role| {
        let p = from_seed(seed, role);
        (p.get_hue(), p.get_chroma())
    };
    assert_eq!(key(PaletteRole::Primary), (283, 87));
    assert_eq!(key(PaletteRole::Secondary), (283, 16));
    assert_eq!(key(PaletteRole::Tertiary), (343, 24));
    assert_eq!(key(PaletteRole::Neutral), (283, 4));
    assert_eq!(key(PaletteRole::NeutralVariant), (283, 8));
    assert_eq!(key(PaletteRole::Error), (25, 84));
}

#[test]
fn primary_chroma_is_at_least_48() {
    let dull = from_seed(Hct::new(100, 10, 50), PaletteRole::Primary);
    assert_eq!(dull.get_chroma(), 48);
    let edge = from_seed(Hct::new(100, 48, 50), PaletteRole::Primary);
    assert_eq!(edge.get_chroma(), 48);
    let vivid = from_seed(Hct::new(100, 49, 50), PaletteRole::Primary);
    assert_eq!(vivid.get_chroma(), 49);
}

#[test]
fn tertiary_hue_turns_round_the_circle() {
    assert_eq!(from_seed(Hct::new(330, 30, 50), PaletteRole::Tertiary).get_hue(), 30);
    assert_eq!(from_seed(Hct::new(300, 30, 50), PaletteRole::Tertiary).get_hue(), 0);
    assert_eq!(from_seed(Hct::new(299, 30, 50), PaletteRole::Tertiary).get_hue(), 359);
}

#[test]
fn palettes_hold_one_palette_for_each_role() {
    let seed = to_hct(Argb::opaque(0, 0, 255));
    let palettes = Palettes::of_seed(seed);
    for role in [
        PaletteRole::Primary,
        PaletteRole::Secondary,
        PaletteRole::Tertiary,
        PaletteRole::Neutral,
        PaletteRole::NeutralVariant,
        PaletteRole::Error,
    ] {
        let expected = from_seed(seed, role);
        let held = palettes.get(role);
        assert_eq!((held.get_hue(), held.get_chroma()), (expected.get_hue(), expected.get_chroma()));
        for tone in STOPS {
            assert_eq!(held.tone(tone), expected.tone(tone));
        }
    }
    assert_eq!(palettes.error.tone(40).map(|c| c.to_hex()), Some("#ba1a1a".to_string()));
}

#[test]
fn tone_rises_within_a_palette() {
    for hue in (0..360u16).step_by(30) {
        for chroma in [0u16, 4, 8, 16, 24, 48, 84, 120] {
            let palette = TonalPalette::of(hue, chroma);
            let lightness = |tone: u8| to_hct(palette.tone(tone).unwrap()).get_tone();
            assert!(lightness(0) <= lightness(50));
            assert!(lightness(50) <= lightness(100));
            let mut last = 0;
            for tone in STOPS {
                let l = lightness(tone);
                assert!(l >= last, "hue {} chroma {} tone {}", hue, chroma, tone);
                assert!((l as i32 - tone as i32).abs() <= 1);
                last = l;
            }
        }
    }
}
