use material_theme::color::Argb;
use material_theme::hct::{round_binary64, round_coordinates, to_argb, to_hct, Hct};

fn whole(v: f64, limit: u16) -> u16 {
    round_binary64(v.to_bits(), limit)
}

#[test]
fn binary64_rounds_to_the_nearest_whole_number() {
    assert_eq!(whole(282.78817956187277, 360), 283);
    assert_eq!(whole(87.23069368032536, 0xffff), 87);
    assert_eq!(whole(32.302586667249486, 100), 32);
    assert_eq!(whole(0.0, 100), 0);
    assert_eq!(whole(0.49999999999999994, 100), 0);
    assert_eq!(whole(0.5, 100), 1);
    assert_eq!(whole(1.0, 100), 1);
    assert_eq!(whole(1.5, 100), 2);
    assert_eq!(whole(2.5, 100), 3);
    assert_eq!(whole(65534.5, 0xffff), 65535);
    assert_eq!(whole(65534.49, 0xffff), 65534);
}

#[test]
fn binary64_rounding_stops_at_the_limit() {
    assert_eq!(whole(100.4, 100), 100);
    assert_eq!(whole(100.6, 100), 100);
    assert_eq!(whole(359.5, 360), 360);
    assert_eq!(whole(1e9, 0xffff), 0xffff);
    assert_eq!(whole(1e300, 7), 7);
    assert_eq!(whole(f64::MAX, 0xffff), 0xffff);
    assert_eq!(whole(f64::INFINITY, 360), 360);
    assert_eq!(whole(12.0, 0), 0);
}

#[test]
fn binary64_without_a_positive_number_rounds_to_zero() {
    assert_eq!(whole(-0.0, 100), 0);
    assert_eq!(whole(-3.7, 100), 0);
    assert_eq!(whole(f64::NEG_INFINITY, 100), 0);
    assert_eq!(whole(f64::NAN, 100), 0);
    assert_eq!(whole(f64::MIN_POSITIVE, 100), 0);
    assert_eq!(whole(5e-324, 100), 0);
    assert_eq!(round_binary64(0x7ff0_0000_0000_0001, 100), 0);
    assert_eq!(round_binary64(0xfff8_0000_0000_0000, 100), 0);
}

#[test]
fn binary64_rounding_agrees_with_floating_point() {
    for k in 0..=100_000u32 {
        let v = k as f64 / 100.0;
        let expected = v.round().min(700.0) as u16;
        assert_eq!(whole(v, 700), expected, "{}", v);
    }
    let mut bits: u64 = 0x3f00_0000_0000_0000;
    while bits < 0x4100_0000_0000_0000 {
        let v = f64::from_bits(bits);
        let expected = (v + 0.5).floor().min(65535.0) as u16;
        if (v + 0.5) - v == 0.5 {
            assert_eq!(round_binary64(bits, 0xffff), expected, "{}", v);
        }
        bits += 0x0000_0123_4567_89ab;
    }
}

#[test]
fn coordinates_round_on_the_circle() {
    assert_eq!(round_coordinates(359.7f64.to_bits(), 12.2f64.to_bits(), 99.6f64.to_bits()), (0, 12, 100));
    assert_eq!(round_coordinates(359.4f64.to_bits(), 0.0f64.to_bits(), 100.0f64.to_bits()), (359, 0, 100));
    assert_eq!(round_coordinates(0.2f64.to_bits(), 150.5f64.to_bits(), 0.4f64.to_bits()), (0, 151, 0));
}

#[test]
fn pure_blue_has_its_coordinates() {
    let blue = to_hct(Argb::opaque(0, 0, 255));
    assert_eq!((blue.get_hue(), blue.get_chroma(), blue.get_tone()), (283, 87, 32));
    let red = to_hct(Argb::opaque(255, 0, 0));
    assert_eq!((red.get_hue(), red.get_chroma(), red.get_tone()), (27, 113, 53));
    let white = to_hct(Argb::opaque(255, 255, 255));
    assert_eq!(white.get_tone(), 100);
    let black = to_hct(Argb::opaque(0, 0, 0));
    assert_eq!((black.get_chroma(), black.get_tone()), (0, 0));
}

#[test]
fn alpha_plays_no_part_in_coordinates() {
    let a = to_hct(Argb { alpha: 3, red: 10, green: 200, blue: 30 });
    let b = to_hct(Argb { alpha: 255, red: 10, green: 200, blue: 30 });
    assert_eq!((a.get_hue(), a.get_chroma(), a.get_tone()), (b.get_hue(), b.get_chroma(), b.get_tone()));
}

#[test]
fn coordinates_are_those_of_material_colors() {
    let mut seed: u32 = 12345;
    for _ in 0..2000 {
        seed = seed.wrapping_mul(1664525).wrapping_add(1013904223);
        let c = Argb::from_u32(seed | 0xff00_0000);
        let ours = to_hct(c);
        let theirs = material_colors::Hct::new(material_colors::Argb::new(c.alpha, c.red, c.green, c.blue));
        assert_eq!(ours.get_hue(), (theirs.get_hue().round() as u16) % 360);
        assert_eq!(ours.get_chroma(), theirs.get_chroma().round() as u16);
        assert_eq!(ours.get_tone(), theirs.get_tone().round().min(100.0) as u8);
    }
}

#[test]
fn a_color_comes_back_from_its_coordinates() {
    for r in (0..=255u32).step_by(5) {
        for g in (0..=255u32).step_by(5) {
            for b in (0..=255u32).step_by(5) {
                let c = Argb::opaque(r as u8, g as u8, b as u8);
                assert_eq!(to_argb(to_hct(c)), c);
            }
        }
    }
    let translucent = Argb { alpha: 17, red: 1, green: 2, blue: 3 };
    assert_eq!(to_argb(to_hct(translucent)), translucent);
}

#[test]
fn coordinates_asked_for_are_kept() {
    let h = Hct::new(283, 87, 32);
    assert_eq!((h.get_hue(), h.get_chroma(), h.get_tone()), (283, 87, 32));
    let turned = Hct::new(725, 10, 200);
    assert_eq!((turned.get_hue(), turned.get_chroma(), turned.get_tone()), (5, 10, 100));
}

#[test]
fn the_solver_finds_the_color_of_coordinates() {
    assert_eq!(to_argb(Hct::new(283, 87, 32)).to_hex(), "#0500fc");
    assert_eq!(to_argb(Hct::new(283, 87, 40)).to_hex(), "#353cff");
    assert_eq!(to_argb(Hct::new(25, 84, 40)).to_hex(), "#ba1a1a");
    assert_eq!(to_argb(Hct::new(120, 0, 0)).to_hex(), "#000000");
    assert_eq!(to_argb(Hct::new(120, 30, 100)).to_hex(), "#ffffff");
}

#[test]
fn the_solver_is_that_of_material_colors() {
    for hue in (0..360u16).step_by(17) {
        for chroma in [0u16, 4, 16, 48, 120, 1000] {
            for tone in (0..=100u8).step_by(9) {
                let ours = to_argb(Hct::new(hue, chroma, tone));
                let theirs = material_colors::hct::solver::HctSolver::solve_to_int(
                    hue as f64,
                    chroma as f64,
                    tone as f64,
                );
                assert_eq!((ours.alpha, ours.red, ours.green, ours.blue), (theirs.alpha, theirs.red, theirs.green, theirs.blue));
            }
        }
    }
}

#[test]
fn chroma_gives_way_where_the_gamut_ends() {
    let asked = Hct::new(140, 200, 50);
    let found = to_hct(to_argb(asked));
    assert!(found.get_chroma() < 200);
    assert!((found.get_tone() as i32 - 50).abs() <= 1);
    let turn = (found.get_hue() as i32 - 140).abs();
    assert!(turn.min(360 - turn) <= 2);
}

fn every_color_with_red_in(from: u32, to: u32) {
    for r in from..to {
        for g in 0..256u32 {
            for b in 0..256u32 {
                let c = Argb::opaque(r as u8, g as u8, b as u8);
                let h = to_hct(c);
                assert!(h.get_hue() < 360 && h.get_tone() <= 100);
                assert_eq!(to_argb(h), c);
            }
        }
    }
}

#[test]
fn every_color_has_coordinates_first_quarter() {
    every_color_with_red_in(0, 64);
}

#[test]
fn every_color_has_coordinates_second_quarter() {
    every_color_with_red_in(64, 128);
}

#[test]
fn every_color_has_coordinates_third_quarter() {
    every_color_with_red_in(128, 192);
}

#[test]
fn every_color_has_coordinates_fourth_quarter() {
    every_color_with_red_in(192, 256);
}
